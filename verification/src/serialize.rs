//! Pretty-printed, string-encoded serialization of a `PolicySet`.
//!
//! The output is the exact text the target format expects: a JSON object
//! keyed by block name, every field rendered as a string (booleans and
//! numbers included), arrays and nested schedule objects indented by two
//! spaces per level. The emitted text is a pure function of the policy
//! set's contents, so serializing the same state twice is byte-identical.

use vstd::prelude::*;
use crate::blocksettings::AppString;
use crate::blocksettings::BlockSettings;
use crate::blocksettings::ScheduleBlock;
use crate::blocksettings::encode_app;
use crate::blocksettings::encode_break;
use crate::blocksettings::encode_lock;
use crate::blocksettings::encode_sched_type;
use crate::blocksettings::encode_schedule_time;
use crate::blocksettings::encode_window;
use crate::blocksettings::spec_encode_app;
use crate::blocksettings::spec_encode_break;
use crate::blocksettings::spec_encode_lock;
use crate::blocksettings::spec_encode_sched_type;
use crate::blocksettings::spec_encode_schedule_time;
use crate::blocksettings::spec_encode_window;
use crate::digits::dec_digits;
use crate::digits::spec_bool_str;
use crate::digits::bool_to_string;
use crate::digits::u16_to_dec_string;
use crate::digits::usize_to_dec_string;
use crate::policyset::PolicySet;

verus! {

/// Lower hexadecimal digit character.
pub open spec fn hex_char(d: nat) -> char
    recommends
        d < 16,
{
    if d < 10 {
        crate::digits::digit_char(d)
    } else if d == 10 {
        'a'
    } else if d == 11 {
        'b'
    } else if d == 12 {
        'c'
    } else if d == 13 {
        'd'
    } else if d == 14 {
        'e'
    } else {
        'f'
    }
}

fn hex_char_exec(d: u32) -> (c: char)
    requires
        d < 16,
    ensures
        c == hex_char(d as nat),
{
    match d {
        0 => '0',
        1 => '1',
        2 => '2',
        3 => '3',
        4 => '4',
        5 => '5',
        6 => '6',
        7 => '7',
        8 => '8',
        9 => '9',
        10 => 'a',
        11 => 'b',
        12 => 'c',
        13 => 'd',
        14 => 'e',
        _ => 'f',
    }
}

/// JSON escape of one character: quote and backslash are escaped, the
/// common control characters get their short forms, other control
/// characters become `\u00XX`, and everything else stands as itself.
pub open spec fn spec_json_escape_char(c: char) -> Seq<char> {
    if c == '"' {
        seq!['\\', '"']
    } else if c == '\\' {
        seq!['\\', '\\']
    } else if c as int == 8 {
        seq!['\\', 'b']
    } else if c as int == 9 {
        seq!['\\', 't']
    } else if c as int == 10 {
        seq!['\\', 'n']
    } else if c as int == 12 {
        seq!['\\', 'f']
    } else if c as int == 13 {
        seq!['\\', 'r']
    } else if (c as int) < 32 {
        seq!['\\', 'u', '0', '0', (if c as int >= 16 { '1' } else { '0' }), hex_char((c as int % 16) as nat)]
    } else {
        seq![c]
    }
}

/// JSON escape of a whole string.
pub open spec fn spec_json_escape(s: Seq<char>) -> Seq<char>
    decreases s.len(),
{
    if s.len() == 0 {
        Seq::<char>::empty()
    } else {
        spec_json_escape_char(s[0]) + spec_json_escape(s.drop_first())
    }
}

/// Escaping one more character extends the escaped text at the end.
proof fn lemma_escape_snoc(s: Seq<char>, c: char)
    ensures
        spec_json_escape(s.push(c)) == spec_json_escape(s) + spec_json_escape_char(c),
    decreases s.len(),
{
    if s.len() == 0 {
        assert(s.push(c).drop_first() =~= Seq::<char>::empty());
        assert(spec_json_escape(Seq::<char>::empty()) == Seq::<char>::empty());
        assert(s.push(c)[0] == c);
        assert(spec_json_escape(s.push(c)) =~= spec_json_escape_char(c));
        assert(spec_json_escape(s) + spec_json_escape_char(c) =~= spec_json_escape_char(c));
    } else {
        lemma_escape_snoc(s.drop_first(), c);
        assert(s.push(c).drop_first() =~= s.drop_first().push(c));
        assert(spec_json_escape(s.push(c)) == spec_json_escape_char(s[0]) + (spec_json_escape(
            s.drop_first(),
        ) + spec_json_escape_char(c)));
        assert(spec_json_escape(s.push(c)) =~= spec_json_escape(s) + spec_json_escape_char(c));
    }
}

fn json_escape(s: &str) -> (r: String)
    ensures
        r@ == spec_json_escape(s@),
{
    let n = s.unicode_len();
    let mut r = String::new();
    let mut i: usize = 0;
    while i < n
        invariant
            i <= n,
            n == s@.len(),
            r@ == spec_json_escape(s@.take(i as int)),
        decreases n - i,
    {
        let c = s.get_char(i);
        let v = c as u32;
        if c == '"' {
            r.push('\\');
            r.push('"');
        } else if c == '\\' {
            r.push('\\');
            r.push('\\');
        } else if v == 8 {
            r.push('\\');
            r.push('b');
        } else if v == 9 {
            r.push('\\');
            r.push('t');
        } else if v == 10 {
            r.push('\\');
            r.push('n');
        } else if v == 12 {
            r.push('\\');
            r.push('f');
        } else if v == 13 {
            r.push('\\');
            r.push('r');
        } else if v < 32 {
            r.push('\\');
            r.push('u');
            r.push('0');
            r.push('0');
            if v >= 16 {
                r.push('1');
            } else {
                r.push('0');
            }
            r.push(hex_char_exec(v % 16));
        } else {
            r.push(c);
        }
        i = i + 1;
        proof {
            lemma_escape_snoc(s@.take(i - 1), s@[i - 1]);
            assert(s@.take(i as int) =~= s@.take(i - 1).push(s@[i - 1]));
            assert(r@ =~= spec_json_escape(s@.take(i as int)));
        }
    }
    proof {
        assert(s@.take(n as int) =~= s@);
    }
    r
}

/// A JSON string literal: quotes around the escaped text.
pub open spec fn spec_json_string(s: Seq<char>) -> Seq<char> {
    seq!['"'] + spec_json_escape(s) + seq!['"']
}

fn json_quote(s: &str) -> (r: String)
    ensures
        r@ == spec_json_string(s@),
{
    let mut r = String::new();
    r.push('"');
    let e = json_escape(s);
    r.append(e.as_str());
    r.push('"');
    proof {
        assert(r@ =~= spec_json_string(s@));
    }
    r
}

/// The first `i` items of a string array, each on its own line at the
/// list indent level, separated by commas.
pub open spec fn spec_string_items(vals: Seq<Seq<char>>, i: int) -> Seq<char>
    decreases i,
{
    if i <= 0 {
        Seq::<char>::empty()
    } else if i == 1 {
        "\n      "@ + spec_json_string(vals[0])
    } else {
        spec_string_items(vals, i - 1) + ",\n      "@ + spec_json_string(vals[i - 1])
    }
}

/// A JSON array of strings at field level: `[]` when empty, otherwise one
/// item per line.
pub open spec fn spec_string_array(vals: Seq<Seq<char>>) -> Seq<char> {
    if vals.len() == 0 {
        "[]"@
    } else {
        seq!['['] + spec_string_items(vals, vals.len() as int) + "\n    ]"@
    }
}

/// Renders a `Vec` of strings as a JSON array of strings.
fn json_string_array(vals: &Vec<String>) -> (r: String)
    ensures
        r@ == spec_string_array(vals@.map_values(|v: String| v@)),
{
    let ghost views = vals@.map_values(|v: String| v@);
    let n = vals.len();
    if n == 0 {
        return String::from_str("[]");
    }
    let mut r = String::new();
    r.push('[');
    let mut i: usize = 0;
    while i < n
        invariant
            i <= n,
            n == vals@.len(),
            n > 0,
            views == vals@.map_values(|v: String| v@),
            r@ == seq!['['] + spec_string_items(views, i as int),
        decreases n - i,
    {
        if i == 0 {
            r.append("\n      ");
        } else {
            r.append(",\n      ");
        }
        let q = json_quote(vals[i].as_str());
        r.append(q.as_str());
        i = i + 1;
        proof {
            assert(r@ =~= seq!['['] + spec_string_items(views, i as int));
        }
    }
    r.append("\n    ]");
    proof {
        assert(r@ =~= spec_string_array(views));
    }
    r
}

/// One schedule entry as a JSON object with string-encoded fields.
pub open spec fn spec_schedule_obj(e: ScheduleBlock) -> Seq<char> {
    "{\n        \"id\": "@ + spec_json_string(dec_digits(e.id as nat)) + ",\n        \"startTime\": "@
        + spec_json_string(spec_encode_schedule_time(e.start_time))
        + ",\n        \"endTime\": "@ + spec_json_string(spec_encode_schedule_time(e.end_time))
        + ",\n        \"break\": "@ + spec_json_string(spec_encode_break(e.break_type))
        + "\n      }"@
}

fn json_schedule_obj(e: &ScheduleBlock) -> (r: String)
    ensures
        r@ == spec_schedule_obj(*e),
{
    let mut r = String::from_str("{\n        \"id\": ");
    let id_str = usize_to_dec_string(e.id);
    let q = json_quote(id_str.as_str());
    r.append(q.as_str());
    r.append(",\n        \"startTime\": ");
    let st = encode_schedule_time(&e.start_time);
    let q = json_quote(st.as_str());
    r.append(q.as_str());
    r.append(",\n        \"endTime\": ");
    let et = encode_schedule_time(&e.end_time);
    let q = json_quote(et.as_str());
    r.append(q.as_str());
    r.append(",\n        \"break\": ");
    let b = encode_break(&e.break_type);
    let q = json_quote(b.as_str());
    r.append(q.as_str());
    r.append("\n      }");
    proof {
        assert(r@ =~= spec_schedule_obj(*e));
    }
    r
}

/// The first `i` schedule entries as array items.
pub open spec fn spec_schedule_items(entries: Seq<ScheduleBlock>, i: int) -> Seq<char>
    decreases i,
{
    if i <= 0 {
        Seq::<char>::empty()
    } else if i == 1 {
        "\n      "@ + spec_schedule_obj(entries[0])
    } else {
        spec_schedule_items(entries, i - 1) + ",\n      "@ + spec_schedule_obj(entries[i - 1])
    }
}

/// The schedule list as a JSON array of objects.
pub open spec fn spec_schedule_array(entries: Seq<ScheduleBlock>) -> Seq<char> {
    if entries.len() == 0 {
        "[]"@
    } else {
        seq!['['] + spec_schedule_items(entries, entries.len() as int) + "\n    ]"@
    }
}

fn json_schedule_array(entries: &Vec<ScheduleBlock>) -> (r: String)
    ensures
        r@ == spec_schedule_array(entries@),
{
    let n = entries.len();
    if n == 0 {
        return String::from_str("[]");
    }
    let mut r = String::new();
    r.push('[');
    let mut i: usize = 0;
    while i < n
        invariant
            i <= n,
            n == entries@.len(),
            n > 0,
            r@ == seq!['['] + spec_schedule_items(entries@, i as int),
        decreases n - i,
    {
        if i == 0 {
            r.append("\n      ");
        } else {
            r.append(",\n      ");
        }
        let obj = json_schedule_obj(&entries[i]);
        r.append(obj.as_str());
        i = i + 1;
        proof {
            assert(r@ =~= seq!['['] + spec_schedule_items(entries@, i as int));
        }
    }
    r.append("\n    ]");
    proof {
        assert(r@ =~= spec_schedule_array(entries@));
    }
    r
}

/// The views of a list of strings.
pub open spec fn string_views(v: Seq<String>) -> Seq<Seq<char>> {
    v.map_values(|s: String| s@)
}

/// The encoded forms of a list of app targets.
pub open spec fn app_views(v: Seq<AppString>) -> Seq<Seq<char>> {
    v.map_values(|a: AppString| spec_encode_app(a))
}

/// One block's settings as a JSON object, fields in the fixed order the
/// target format uses, every value rendered as a string.
pub open spec fn spec_block_obj(s: BlockSettings) -> Seq<char> {
    "{\n    \"type\": "@ + spec_json_string(spec_encode_sched_type(s.sched_type))
        + ",\n    \"lock\": "@ + spec_json_string(spec_encode_lock(s.lock))
        + ",\n    \"lockUnblock\": "@ + spec_json_string(spec_bool_str(s.lock_unblock))
        + ",\n    \"restartUnblock\": "@ + spec_json_string(spec_bool_str(s.restart_unblock))
        + ",\n    \"password\": "@ + spec_json_string(s.password@)
        + ",\n    \"randomTextLength\": "@ + spec_json_string(
        dec_digits(s.random_text_length as nat),
    ) + ",\n    \"break\": "@ + spec_json_string(spec_encode_break(s.break_type))
        + ",\n    \"window\": "@ + spec_json_string(spec_encode_window(s.window))
        + ",\n    \"users\": "@ + spec_json_string(s.users@) + ",\n    \"web\": "@
        + spec_string_array(string_views(s.web@)) + ",\n    \"exceptions\": "@
        + spec_string_array(string_views(s.exceptions@)) + ",\n    \"apps\": "@
        + spec_string_array(app_views(s.apps@)) + ",\n    \"schedule\": "@ + spec_schedule_array(
        s.schedule@,
    ) + ",\n    \"customUsers\": "@ + spec_string_array(string_views(s.custom_users@)) + "\n  }"@
}

fn json_block_obj(s: &BlockSettings) -> (r: String)
    ensures
        r@ == spec_block_obj(*s),
{
    let mut r = String::from_str("{\n    \"type\": ");
    let v = encode_sched_type(&s.sched_type);
    let q = json_quote(v.as_str());
    r.append(q.as_str());
    r.append(",\n    \"lock\": ");
    let v = encode_lock(&s.lock);
    let q = json_quote(v.as_str());
    r.append(q.as_str());
    r.append(",\n    \"lockUnblock\": ");
    let v = bool_to_string(s.lock_unblock);
    let q = json_quote(v.as_str());
    r.append(q.as_str());
    r.append(",\n    \"restartUnblock\": ");
    let v = bool_to_string(s.restart_unblock);
    let q = json_quote(v.as_str());
    r.append(q.as_str());
    r.append(",\n    \"password\": ");
    let q = json_quote(s.password.as_str());
    r.append(q.as_str());
    r.append(",\n    \"randomTextLength\": ");
    let v = u16_to_dec_string(s.random_text_length);
    let q = json_quote(v.as_str());
    r.append(q.as_str());
    r.append(",\n    \"break\": ");
    let v = encode_break(&s.break_type);
    let q = json_quote(v.as_str());
    r.append(q.as_str());
    r.append(",\n    \"window\": ");
    let v = encode_window(&s.window);
    let q = json_quote(v.as_str());
    r.append(q.as_str());
    r.append(",\n    \"users\": ");
    let q = json_quote(s.users.as_str());
    r.append(q.as_str());
    r.append(",\n    \"web\": ");
    let arr = json_string_array(&s.web);
    r.append(arr.as_str());
    r.append(",\n    \"exceptions\": ");
    let arr = json_string_array(&s.exceptions);
    r.append(arr.as_str());
    r.append(",\n    \"apps\": ");
    let apps_encoded = encode_apps(&s.apps);
    let arr = json_string_array(&apps_encoded);
    r.append(arr.as_str());
    r.append(",\n    \"schedule\": ");
    let arr = json_schedule_array(&s.schedule);
    r.append(arr.as_str());
    r.append(",\n    \"customUsers\": ");
    let arr = json_string_array(&s.custom_users);
    r.append(arr.as_str());
    r.append("\n  }");
    proof {
        assert(r@ =~= spec_block_obj(*s));
    }
    r
}

/// Encodes every app target to its string form.
fn encode_apps(apps: &Vec<AppString>) -> (r: Vec<String>)
    ensures
        string_views(r@) == app_views(apps@),
{
    let n = apps.len();
    let mut r: Vec<String> = Vec::new();
    let mut i: usize = 0;
    while i < n
        invariant
            i <= n,
            n == apps@.len(),
            r@.len() == i,
            forall|j: int| 0 <= j < i ==> (#[trigger] r@[j])@ == spec_encode_app(apps@[j]),
        decreases n - i,
    {
        r.push(encode_app(&apps[i]));
        i = i + 1;
    }
    proof {
        assert(string_views(r@) =~= app_views(apps@));
    }
    r
}

/// The first `i` blocks as `"name": { ... }` members.
pub open spec fn spec_block_items(blocks: Seq<(String, BlockSettings)>, i: int) -> Seq<char>
    decreases i,
{
    if i <= 0 {
        Seq::<char>::empty()
    } else if i == 1 {
        "\n  "@ + spec_json_string(blocks[0].0@) + ": "@ + spec_block_obj(blocks[0].1)
    } else {
        spec_block_items(blocks, i - 1) + ",\n  "@ + spec_json_string(blocks[i - 1].0@) + ": "@
            + spec_block_obj(blocks[i - 1].1)
    }
}

/// The whole document: one JSON object keyed by block name.
pub open spec fn spec_serialize(blocks: Seq<(String, BlockSettings)>) -> Seq<char> {
    if blocks.len() == 0 {
        "{}"@
    } else {
        seq!['{'] + spec_block_items(blocks, blocks.len() as int) + "\n}"@
    }
}

/// Serialization is a pure function of the stored blocks: two policy
/// sets holding equal entries serialize to byte-identical text, so
/// serializing one set twice does as well.
pub proof fn lemma_serialize_deterministic(a: PolicySet, b: PolicySet)
    requires
        a.blocks@ == b.blocks@,
    ensures
        spec_serialize(a.blocks@) == spec_serialize(b.blocks@),
{
}

impl PolicySet {
    /// Renders the whole policy set as pretty-printed, string-encoded
    /// JSON text. The text depends on the stored blocks alone, so equal
    /// states serialize byte-identically.
    #[verifier::rlimit(60)]
    pub fn serialize_pretty(&self) -> (r: String)
        ensures
            r@ == spec_serialize(self.blocks@),
    {
        let n = self.blocks.len();
        if n == 0 {
            return String::from_str("{}");
        }
        let mut r = String::new();
        r.push('{');
        let mut i: usize = 0;
        while i < n
            invariant
                i <= n,
                n == self.blocks@.len(),
                n > 0,
                r@ == seq!['{'] + spec_block_items(self.blocks@, i as int),
            decreases n - i,
        {
            if i == 0 {
                r.append("\n  ");
            } else {
                r.append(",\n  ");
            }
            let q = json_quote(self.blocks[i].0.as_str());
            r.append(q.as_str());
            r.append(": ");
            let obj = json_block_obj(&self.blocks[i].1);
            r.append(obj.as_str());
            i = i + 1;
            proof {
                assert(r@ =~= seq!['{'] + spec_block_items(self.blocks@, i as int));
            }
        }
        r.append("\n}");
        proof {
            assert(r@ =~= spec_serialize(self.blocks@));
        }
        r
    }
}

} // verus!

//! Decoders for the string-encoded policy fields, with proofs that they
//! invert the encoders on well-formed values.

use vstd::prelude::*;
use crate::blocksettings::BreakMethod;
use crate::blocksettings::RangeWindow;
use crate::blocksettings::ScheduleTimeTuple;
use crate::blocksettings::break_wf;
use crate::blocksettings::spec_encode_break;
use crate::blocksettings::spec_encode_schedule_time;
use crate::blocksettings::spec_encode_window;
use crate::convert::TimeOfDay;
use crate::digits::dec_digits;
use crate::digits::dec_val;
use crate::digits::is_dec_seq;
use crate::digits::is_digit;
use crate::digits::lemma_dec_digits_are_digits;
use crate::digits::lemma_dec_val_of_dec_digits;
use crate::digits::parse_u64_dec;
use crate::strutil::find_char;
use crate::strutil::find_char_in_str;
use crate::strutil::lemma_find_char;
use crate::strutil::lemma_find_char_at;
use crate::strutil::str_eq;

verus! {

/// Meaning of an `"<hour>,<minute>"` pair; hours above 23 and minutes
/// above 59 are rejected.
pub open spec fn spec_parse_hm(s: Seq<char>) -> Option<TimeOfDay> {
    let i = find_char(s, ',');
    if i == -1 {
        None
    } else {
        let hs = s.take(i);
        let ms = s.skip(i + 1);
        if is_dec_seq(hs) && is_dec_seq(ms) && dec_val(hs) < 24 && dec_val(ms) < 60 {
            Some(TimeOfDay { hour: dec_val(hs) as u32, minute: dec_val(ms) as u32 })
        } else {
            None
        }
    }
}

fn parse_hm(s: &str) -> (r: Option<TimeOfDay>)
    ensures
        r == spec_parse_hm(s@),
{
    let n = s.unicode_len();
    let i = find_char_in_str(s, ',');
    proof {
        lemma_find_char(s@, ',');
    }
    if i == n {
        return None;
    }
    let hs = s.substring_char(0, i);
    let ms = s.substring_char(i + 1, n);
    proof {
        assert(hs@ =~= s@.take(i as int));
        assert(ms@ =~= s@.skip(i + 1));
    }
    match (parse_u64_dec(hs), parse_u64_dec(ms)) {
        (Some(h), Some(m)) => if h < 24 && m < 60 {
            Some(TimeOfDay { hour: h as u32, minute: m as u32 })
        } else {
            None
        },
        _ => None,
    }
}

/// Meaning of a window encoding: an optional `un`, the word `lock`, an
/// `@`, and two `<hour>,<minute>` pairs separated by another `@`.
pub open spec fn spec_parse_window(s: Seq<char>) -> Option<RangeWindow> {
    let lock = !(s.len() >= 2 && s.take(2) == "un"@);
    let rest = if lock {
        s
    } else {
        s.skip(2)
    };
    if rest.len() >= 5 && rest.take(5) == "lock@"@ {
        let body = rest.skip(5);
        let i = find_char(body, '@');
        if i == -1 {
            None
        } else {
            match (spec_parse_hm(body.take(i)), spec_parse_hm(body.skip(i + 1))) {
                (Some(st), Some(et)) => Some(
                    RangeWindow { lock_range: lock, start_time: st, end_time: et },
                ),
                _ => None,
            }
        }
    } else {
        None
    }
}

/// Decodes a window encoding; returns `None` on anything the encoder
/// cannot produce from a well-formed window.
pub fn parse_window(s: &str) -> (r: Option<RangeWindow>)
    ensures
        r == spec_parse_window(s@),
{
    let n = s.unicode_len();
    let mut lock: bool = true;
    let mut rest: &str = s;
    if n >= 2 {
        let head = s.substring_char(0, 2);
        proof {
            assert(head@ =~= s@.take(2));
        }
        if str_eq(head, "un") {
            lock = false;
            rest = s.substring_char(2, n);
            proof {
                assert(rest@ =~= s@.skip(2));
            }
        }
    }
    let rn = rest.unicode_len();
    if rn < 5 {
        return None;
    }
    let word = rest.substring_char(0, 5);
    proof {
        assert(word@ =~= rest@.take(5));
    }
    if !str_eq(word, "lock@") {
        return None;
    }
    let body = rest.substring_char(5, rn);
    proof {
        assert(body@ =~= rest@.skip(5));
    }
    let bn = body.unicode_len();
    let i = find_char_in_str(body, '@');
    proof {
        lemma_find_char(body@, '@');
    }
    if i == bn {
        return None;
    }
    let first = body.substring_char(0, i);
    let second = body.substring_char(i + 1, bn);
    proof {
        assert(first@ =~= body@.take(i as int));
        assert(second@ =~= body@.skip(i + 1));
    }
    match (parse_hm(first), parse_hm(second)) {
        (Some(st), Some(et)) => Some(RangeWindow { lock_range: lock, start_time: st, end_time: et }),
        _ => None,
    }
}

/// Meaning of a break encoding: the word `none`, one minute count, or two
/// comma-separated minute counts; counts above 99 are rejected.
pub open spec fn spec_parse_break(s: Seq<char>) -> Option<BreakMethod> {
    if s == "none"@ {
        Some(BreakMethod::NoBreaks)
    } else {
        let i = find_char(s, ',');
        if i == -1 {
            if is_dec_seq(s) && dec_val(s) <= 99 {
                Some(BreakMethod::Allowance(dec_val(s) as u8))
            } else {
                None
            }
        } else {
            let a = s.take(i);
            let b = s.skip(i + 1);
            if is_dec_seq(a) && dec_val(a) <= 99 && is_dec_seq(b) && dec_val(b) <= 99 {
                Some(BreakMethod::Pomodoro(dec_val(a) as u8, dec_val(b) as u8))
            } else {
                None
            }
        }
    }
}

/// Decodes a break encoding.
pub fn parse_break(s: &str) -> (r: Option<BreakMethod>)
    ensures
        r == spec_parse_break(s@),
{
    if str_eq(s, "none") {
        return Some(BreakMethod::NoBreaks);
    }
    let n = s.unicode_len();
    let i = find_char_in_str(s, ',');
    proof {
        lemma_find_char(s@, ',');
    }
    if i == n {
        match parse_u64_dec(s) {
            Some(v) => if v <= 99 {
                Some(BreakMethod::Allowance(v as u8))
            } else {
                None
            },
            None => None,
        }
    } else {
        let a = s.substring_char(0, i);
        let b = s.substring_char(i + 1, n);
        proof {
            assert(a@ =~= s@.take(i as int));
            assert(b@ =~= s@.skip(i + 1));
        }
        match (parse_u64_dec(a), parse_u64_dec(b)) {
            (Some(va), Some(vb)) => if va <= 99 && vb <= 99 {
                Some(BreakMethod::Pomodoro(va as u8, vb as u8))
            } else {
                None
            },
            _ => None,
        }
    }
}

/// Meaning of a `"<day>,<hour>,<minute>"` schedule boundary; days above 6,
/// hours above 23 and minutes above 59 are rejected.
pub open spec fn spec_parse_schedule_time(s: Seq<char>) -> Option<ScheduleTimeTuple> {
    let i = find_char(s, ',');
    if i == -1 {
        None
    } else {
        let ds = s.take(i);
        if is_dec_seq(ds) && dec_val(ds) < 7 {
            match spec_parse_hm(s.skip(i + 1)) {
                Some(t) => Some(ScheduleTimeTuple(dec_val(ds) as usize, t.hour, t.minute)),
                None => None,
            }
        } else {
            None
        }
    }
}

/// Decodes a schedule boundary encoding.
pub fn parse_schedule_time(s: &str) -> (r: Option<ScheduleTimeTuple>)
    ensures
        r == spec_parse_schedule_time(s@),
{
    let n = s.unicode_len();
    let i = find_char_in_str(s, ',');
    proof {
        lemma_find_char(s@, ',');
    }
    if i == n {
        return None;
    }
    let ds = s.substring_char(0, i);
    let rest = s.substring_char(i + 1, n);
    proof {
        assert(ds@ =~= s@.take(i as int));
        assert(rest@ =~= s@.skip(i + 1));
    }
    match parse_u64_dec(ds) {
        Some(d) => if d < 7 {
            match parse_hm(rest) {
                Some(t) => Some(ScheduleTimeTuple(d as usize, t.hour, t.minute)),
                None => None,
            }
        } else {
            None
        },
        None => None,
    }
}

/// An `"<hour>,<minute>"` pair decodes back to the times it was rendered
/// from.
proof fn lemma_hm_round_trip(h: nat, m: nat)
    requires
        h < 24,
        m < 60,
    ensures
        spec_parse_hm(dec_digits(h) + seq![','] + dec_digits(m)) == Some(
            TimeOfDay { hour: h as u32, minute: m as u32 },
        ),
{
    let s = dec_digits(h) + seq![','] + dec_digits(m);
    let k = dec_digits(h).len() as int;
    lemma_dec_digits_are_digits(h);
    lemma_dec_digits_are_digits(m);
    assert(!is_digit(','));
    assert(s[k] == ',');
    assert forall|j: int| 0 <= j < k implies s[j] != ',' by {
        assert(s[j] == dec_digits(h)[j]);
    }
    lemma_find_char_at(s, ',', k);
    assert(s.take(k) =~= dec_digits(h));
    assert(s.skip(k + 1) =~= dec_digits(m));
    lemma_dec_val_of_dec_digits(h);
    lemma_dec_val_of_dec_digits(m);
}

/// A well-formed window decodes back to itself (field-level round trip).
pub proof fn lemma_window_round_trip(w: RangeWindow)
    requires
        w.wf(),
    ensures
        spec_parse_window(spec_encode_window(w)) == Some(w),
{
    reveal_strlit("un");
    reveal_strlit("lock@");
    let s = spec_encode_window(w);
    let hm1 = dec_digits(w.start_time.hour as nat) + seq![','] + dec_digits(
        w.start_time.minute as nat,
    );
    let hm2 = dec_digits(w.end_time.hour as nat) + seq![','] + dec_digits(w.end_time.minute as nat);
    let body = hm1 + seq!['@'] + hm2;
    lemma_dec_digits_are_digits(w.start_time.hour as nat);
    lemma_dec_digits_are_digits(w.start_time.minute as nat);
    lemma_dec_digits_are_digits(w.end_time.hour as nat);
    if w.lock_range {
        assert(s =~= "lock@"@ + body);
        assert(s.take(2)[0] == 'l');
        assert(s.take(2) != "un"@);
        assert(s.take(5) =~= "lock@"@);
        assert(s.skip(5) =~= body);
    } else {
        assert(s =~= "un"@ + ("lock@"@ + body));
        assert(s.take(2) =~= "un"@);
        assert(s.skip(2) =~= "lock@"@ + body);
        assert(s.skip(2).take(5) =~= "lock@"@);
        assert(s.skip(2).skip(5) =~= body);
    }
    let k = hm1.len() as int;
    assert(body[k] == '@');
    assert forall|j: int| 0 <= j < k implies body[j] != '@' by {
        assert(body[j] == hm1[j]);
        if j < dec_digits(w.start_time.hour as nat).len() {
            assert(is_digit(hm1[j]));
        } else if j == dec_digits(w.start_time.hour as nat).len() {
            assert(hm1[j] == ',');
        } else {
            assert(is_digit(hm1[j]));
        }
    }
    lemma_find_char_at(body, '@', k);
    assert(body.take(k) =~= hm1);
    assert(body.skip(k + 1) =~= hm2);
    lemma_hm_round_trip(w.start_time.hour as nat, w.start_time.minute as nat);
    lemma_hm_round_trip(w.end_time.hour as nat, w.end_time.minute as nat);
}

/// Minute counts are at most two digits long.
proof fn lemma_dec_digits_len_2(n: nat)
    requires
        n < 100,
    ensures
        1 <= dec_digits(n).len() <= 2,
{
    if n >= 10 {
        assert(dec_digits(n) == dec_digits(n / 10) + seq![crate::digits::digit_char(n % 10)]);
    }
}

/// A well-formed break method decodes back to itself.
pub proof fn lemma_break_round_trip(b: BreakMethod)
    requires
        break_wf(b),
    ensures
        spec_parse_break(spec_encode_break(b)) == Some(b),
{
    reveal_strlit("none");
    let s = spec_encode_break(b);
    match b {
        BreakMethod::NoBreaks => {
        },
        BreakMethod::Allowance(m) => {
            lemma_dec_digits_are_digits(m as nat);
            lemma_dec_digits_len_2(m as nat);
            assert(s != "none"@) by {
                if s == "none"@ {
                    assert(s[0] == 'n');
                    assert(is_digit(s[0]));
                }
            }
            lemma_find_char(s, ',');
            if find_char(s, ',') != -1 {
                assert(is_digit(s[find_char(s, ',')]));
            }
            lemma_dec_val_of_dec_digits(m as nat);
        },
        BreakMethod::Pomodoro(a, r) => {
            let da = dec_digits(a as nat);
            let dr = dec_digits(r as nat);
            lemma_dec_digits_are_digits(a as nat);
            lemma_dec_digits_are_digits(r as nat);
            lemma_dec_digits_len_2(a as nat);
            lemma_dec_digits_len_2(r as nat);
            let k = da.len() as int;
            assert(s[k] == ',');
            assert(s != "none"@) by {
                if s == "none"@ {
                    assert(s[0] == 'n');
                    assert(is_digit(s[0]));
                }
            }
            assert forall|j: int| 0 <= j < k implies s[j] != ',' by {
                assert(s[j] == da[j]);
            }
            lemma_find_char_at(s, ',', k);
            assert(s.take(k) =~= da);
            assert(s.skip(k + 1) =~= dr);
            lemma_dec_val_of_dec_digits(a as nat);
            lemma_dec_val_of_dec_digits(r as nat);
        },
    }
}

/// A well-formed schedule boundary decodes back to itself.
pub proof fn lemma_schedule_time_round_trip(t: ScheduleTimeTuple)
    requires
        t.wf(),
    ensures
        spec_parse_schedule_time(spec_encode_schedule_time(t)) == Some(t),
{
    let s = spec_encode_schedule_time(t);
    let dd = dec_digits(t.0 as nat);
    let hm = dec_digits(t.1 as nat) + seq![','] + dec_digits(t.2 as nat);
    lemma_dec_digits_are_digits(t.0 as nat);
    let k = dd.len() as int;
    assert(s =~= dd + seq![','] + hm);
    assert(s[k] == ',');
    assert forall|j: int| 0 <= j < k implies s[j] != ',' by {
        assert(s[j] == dd[j]);
    }
    lemma_find_char_at(s, ',', k);
    assert(s.take(k) =~= dd);
    assert(s.skip(k + 1) =~= hm);
    lemma_dec_val_of_dec_digits(t.0 as nat);
    lemma_hm_round_trip(t.1 as nat, t.2 as nat);
}

} // verus!

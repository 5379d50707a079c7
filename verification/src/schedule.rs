//! The schedule editor's list operations.
//!
//! This editor manipulates schedule entries that already carry their
//! string-encoded form: adding entries for a selection of weekdays,
//! editing one entry by id, removing entries with contiguous renumbering,
//! and the final renumbering pass.

use vstd::prelude::*;
use crate::blocksettings::BreakMethod;
use crate::blocksettings::ScheduleTimeTuple;
use crate::blocksettings::break_wf;
use crate::blocksettings::encode_break;
use crate::blocksettings::encode_schedule_time;
use crate::blocksettings::spec_encode_break;
use crate::blocksettings::spec_encode_schedule_time;
use crate::convert::TimeOfDay;
use crate::strutil::str_eq;

verus! {

/// Day of the week.
#[derive(Clone, Copy, Debug, PartialEq, Eq, Structural)]
pub enum Day {
    Sun,
    Mon,
    Tue,
    Wed,
    Thu,
    Fri,
    Sat,
}

/// Day numbering of the target format: Sunday is 0.
pub open spec fn day_number(d: Day) -> nat {
    match d {
        Day::Sun => 0,
        Day::Mon => 1,
        Day::Tue => 2,
        Day::Wed => 3,
        Day::Thu => 4,
        Day::Fri => 5,
        Day::Sat => 6,
    }
}

/// Parses a lowercase three-letter day name.
pub fn str_to_day(s: &str) -> (r: Result<Day, &'static str>)
    ensures
        s@ == "sun"@ ==> r == Ok::<Day, &'static str>(Day::Sun),
        s@ == "mon"@ ==> r == Ok::<Day, &'static str>(Day::Mon),
        s@ == "tue"@ ==> r == Ok::<Day, &'static str>(Day::Tue),
        s@ == "wed"@ ==> r == Ok::<Day, &'static str>(Day::Wed),
        s@ == "thu"@ ==> r == Ok::<Day, &'static str>(Day::Thu),
        s@ == "fri"@ ==> r == Ok::<Day, &'static str>(Day::Fri),
        s@ == "sat"@ ==> r == Ok::<Day, &'static str>(Day::Sat),
        (s@ != "sun"@ && s@ != "mon"@ && s@ != "tue"@ && s@ != "wed"@ && s@ != "thu"@ && s@
            != "fri"@ && s@ != "sat"@) ==> r is Err,
{
    proof {
        reveal_strlit("sun");
        reveal_strlit("mon");
        reveal_strlit("tue");
        reveal_strlit("wed");
        reveal_strlit("thu");
        reveal_strlit("fri");
        reveal_strlit("sat");
        assert("sun"@[0] == 's' && "mon"@[0] == 'm' && "tue"@[0] == 't' && "wed"@[0] == 'w'
            && "thu"@[0] == 't' && "fri"@[0] == 'f' && "sat"@[0] == 's');
        assert("sun"@[1] == 'u' && "sat"@[1] == 'a' && "tue"@[1] == 'u' && "thu"@[1] == 'h');
    }
    if str_eq(s, "sun") {
        Ok(Day::Sun)
    } else if str_eq(s, "mon") {
        Ok(Day::Mon)
    } else if str_eq(s, "tue") {
        Ok(Day::Tue)
    } else if str_eq(s, "wed") {
        Ok(Day::Wed)
    } else if str_eq(s, "thu") {
        Ok(Day::Thu)
    } else if str_eq(s, "fri") {
        Ok(Day::Fri)
    } else if str_eq(s, "sat") {
        Ok(Day::Sat)
    } else {
        Err("Not a valid day of the week. Must be sun, mon, tue, wed, thu, fri, sat")
    }
}

/// One schedule entry, fields already in their string-encoded form.
#[derive(Debug, Clone, PartialEq, Eq)]
pub struct ScheduleBlock {
    pub id: usize,
    pub start_time: String,
    pub end_time: String,
    pub break_type: String,
}

/// Merges the per-day flags with the weekday/weekend/all shorthands.
pub fn expand_day_selection(
    sun: bool,
    mon: bool,
    tue: bool,
    wed: bool,
    thu: bool,
    fri: bool,
    sat: bool,
    wkday: bool,
    wkend: bool,
    all: bool,
) -> (r: Vec<bool>)
    ensures
        r@.len() == 7,
        r@[0] == (sun || wkend || all),
        r@[1] == (mon || wkday || all),
        r@[2] == (tue || wkday || all),
        r@[3] == (wed || wkday || all),
        r@[4] == (thu || wkday || all),
        r@[5] == (fri || wkday || all),
        r@[6] == (sat || wkend || all),
{
    vec![
        sun || wkend || all,
        mon || wkday || all,
        tue || wkday || all,
        wed || wkday || all,
        thu || wkday || all,
        fri || wkday || all,
        sat || wkend || all,
    ]
}

/// How many of the first `upto` day flags are set.
pub open spec fn spec_true_count(days: Seq<bool>, upto: int) -> int
    decreases upto,
{
    if upto <= 0 {
        0
    } else {
        spec_true_count(days, upto - 1) + if days[upto - 1] {
            1int
        } else {
            0int
        }
    }
}

/// The count of set flags grows monotonically with the prefix length,
/// and strictly across a set flag.
proof fn lemma_true_count_mono(days: Seq<bool>, a: int, b: int)
    requires
        0 <= a <= b,
    ensures
        spec_true_count(days, a) <= spec_true_count(days, b),
        a < b && days[a] ==> spec_true_count(days, a) < spec_true_count(days, b),
    decreases b - a,
{
    if a < b {
        lemma_true_count_mono(days, a + 1, b);
    }
}

/// The string-encoded entry the editor appends for day `d`.
pub open spec fn spec_added_entry(
    e: ScheduleBlock,
    id: int,
    d: int,
    start: TimeOfDay,
    end: TimeOfDay,
    break_type: BreakMethod,
) -> bool {
    &&& e.id == id
    &&& e.start_time@ == spec_encode_schedule_time(
        ScheduleTimeTuple(d as usize, start.hour, start.minute),
    )
    &&& e.end_time@ == spec_encode_schedule_time(
        ScheduleTimeTuple(d as usize, end.hour, end.minute),
    )
    &&& e.break_type@ == spec_encode_break(break_type)
}

/// Appends one entry per selected day, ids continuing the numbering; the
/// entry for day `d` encodes `d` into both boundary strings (this editor
/// has no midnight day roll).
pub fn schedule_add(
    sched: &mut Vec<ScheduleBlock>,
    days: &Vec<bool>,
    start: TimeOfDay,
    end: TimeOfDay,
    break_type: &BreakMethod,
)
    requires
        days@.len() == 7,
        start.wf(),
        end.wf(),
        break_wf(*break_type),
        old(sched)@.len() + 7 <= usize::MAX,
    ensures
        final(sched)@.len() == old(sched)@.len() + spec_true_count(days@, 7),
        forall|i: int| 0 <= i < old(sched)@.len() ==> final(sched)@[i] == old(sched)@[i],
        forall|d: int|
            0 <= d < 7 && days@[d] ==> spec_added_entry(
                #[trigger] final(sched)@[old(sched)@.len() + spec_true_count(days@, d)],
                old(sched)@.len() + spec_true_count(days@, d),
                d,
                start,
                end,
                *break_type,
            ),
{
    let ghost base = sched@.len();
    let mut d: usize = 0;
    while d < 7
        invariant
            d <= 7,
            days@.len() == 7,
            start.wf(),
            end.wf(),
            break_wf(*break_type),
            base + 7 <= usize::MAX,
            0 <= spec_true_count(days@, d as int) <= d,
            sched@.len() == base + spec_true_count(days@, d as int),
            forall|i: int| 0 <= i < base ==> sched@[i] == old(sched)@[i],
            forall|j: int|
                0 <= j < d && days@[j] ==> spec_added_entry(
                    #[trigger] sched@[base + spec_true_count(days@, j)],
                    base + spec_true_count(days@, j),
                    j,
                    start,
                    end,
                    *break_type,
                ),
        decreases 7 - d,
    {
        if days[d] {
            let start_str = encode_schedule_time(&ScheduleTimeTuple::new(d, start.hour, start.minute));
            let end_str = encode_schedule_time(&ScheduleTimeTuple::new(d, end.hour, end.minute));
            let break_str = encode_break(break_type);
            let entry = ScheduleBlock {
                id: sched.len(),
                start_time: start_str,
                end_time: end_str,
                break_type: break_str,
            };
            sched.push(entry);
        }
        d = d + 1;
        proof {
            assert(spec_true_count(days@, d as int) == spec_true_count(days@, d - 1) + (
            if days@[d - 1] {
                1int
            } else {
                0int
            }));
            assert forall|j: int|
                0 <= j < d && days@[j] implies spec_added_entry(
                #[trigger] sched@[base + spec_true_count(days@, j)],
                base + spec_true_count(days@, j),
                j,
                start,
                end,
                *break_type,
            ) by {
                lemma_true_count_mono(days@, 0, j);
                if j < d - 1 {
                    lemma_true_count_mono(days@, j, d - 1);
                }
            }
        }
    }
}

/// Rewrites the entry with index `id`, keeping its id; reports whether
/// that id exists. Start and end boundaries both carry the given day.
pub fn schedule_edit(
    sched: &mut Vec<ScheduleBlock>,
    id: usize,
    day: Day,
    start: TimeOfDay,
    end: TimeOfDay,
    break_type: &BreakMethod,
) -> (r: bool)
    requires
        start.wf(),
        end.wf(),
        break_wf(*break_type),
    ensures
        r == (id < old(sched)@.len()),
        !r ==> *final(sched) == *old(sched),
        r ==> {
            &&& final(sched)@.len() == old(sched)@.len()
            &&& forall|i: int| 0 <= i < old(sched)@.len() && i != id ==> final(sched)@[i] == old(
                sched,
            )@[i]
            &&& spec_added_entry(
                final(sched)@[id as int],
                id as int,
                day_number(day) as int,
                start,
                end,
                *break_type,
            )
        },
{
    if id >= sched.len() {
        return false;
    }
    let d: usize = match day {
        Day::Sun => 0,
        Day::Mon => 1,
        Day::Tue => 2,
        Day::Wed => 3,
        Day::Thu => 4,
        Day::Fri => 5,
        Day::Sat => 6,
    };
    let start_str = encode_schedule_time(&ScheduleTimeTuple::new(d, start.hour, start.minute));
    let end_str = encode_schedule_time(&ScheduleTimeTuple::new(d, end.hour, end.minute));
    let break_str = encode_break(break_type);
    sched[id] = ScheduleBlock { id, start_time: start_str, end_time: end_str, break_type: break_str };
    true
}

/// Whether `v` occurs in `ids`.
pub open spec fn spec_id_listed(ids: Seq<usize>, v: int) -> bool {
    exists|k: int| 0 <= k < ids.len() && (#[trigger] ids[k]) == v
}

fn id_listed(ids: &Vec<usize>, v: usize) -> (r: bool)
    ensures
        r == spec_id_listed(ids@, v as int),
{
    let n = ids.len();
    let mut k: usize = 0;
    while k < n
        invariant
            k <= n,
            n == ids@.len(),
            forall|j: int| 0 <= j < k ==> (#[trigger] ids@[j]) != v,
        decreases n - k,
    {
        if ids[k] == v {
            return true;
        }
        k = k + 1;
    }
    false
}

/// How many of the first `upto` entries survive the removal.
pub open spec fn spec_kept_count(len: int, ids: Seq<usize>, upto: int) -> int
    decreases upto,
{
    if upto <= 0 {
        0
    } else {
        spec_kept_count(len, ids, upto - 1) + if spec_id_listed(ids, upto - 1) {
            0int
        } else {
            1int
        }
    }
}

/// The count of surviving entries grows monotonically with the prefix,
/// and strictly across a surviving index.
proof fn lemma_kept_count_mono(len: int, ids: Seq<usize>, a: int, b: int)
    requires
        0 <= a <= b,
    ensures
        spec_kept_count(len, ids, a) <= spec_kept_count(len, ids, b),
        a < b && !spec_id_listed(ids, a) ==> spec_kept_count(len, ids, a) < spec_kept_count(
            len,
            ids,
            b,
        ),
    decreases b - a,
{
    if a < b {
        lemma_kept_count_mono(len, ids, a + 1, b);
    }
}

/// Removes the entries whose indices are listed (or all of them), keeping
/// the order of the rest and renumbering ids contiguously from zero.
pub fn schedule_remove(sched: &mut Vec<ScheduleBlock>, ids: &Vec<usize>, all: bool)
    requires
        forall|k: int| 0 <= k < ids@.len() ==> (#[trigger] ids@[k]) < old(sched)@.len(),
    ensures
        all ==> final(sched)@.len() == 0,
        !all ==> {
            &&& final(sched)@.len() == spec_kept_count(
                old(sched)@.len() as int,
                ids@,
                old(sched)@.len() as int,
            )
            &&& forall|i: int|
                0 <= i < old(sched)@.len() && !spec_id_listed(ids@, i) ==> {
                    let e = #[trigger] final(sched)@[spec_kept_count(
                        old(sched)@.len() as int,
                        ids@,
                        i,
                    )];
                    &&& e.id == spec_kept_count(old(sched)@.len() as int, ids@, i)
                    &&& e.start_time@ == old(sched)@[i].start_time@
                    &&& e.end_time@ == old(sched)@[i].end_time@
                    &&& e.break_type@ == old(sched)@[i].break_type@
                }
        },
{
    if all {
        sched.clear();
        return;
    }
    let n = sched.len();
    let mut kept: Vec<ScheduleBlock> = Vec::new();
    let mut i: usize = 0;
    while i < n
        invariant
            i <= n,
            n == sched@.len(),
            sched@ == old(sched)@,
            kept@.len() == spec_kept_count(n as int, ids@, i as int),
            kept@.len() <= i,
            forall|j: int|
                0 <= j < i && !spec_id_listed(ids@, j) ==> {
                    let e = #[trigger] kept@[spec_kept_count(n as int, ids@, j)];
                    &&& e.id == spec_kept_count(n as int, ids@, j)
                    &&& e.start_time@ == sched@[j].start_time@
                    &&& e.end_time@ == sched@[j].end_time@
                    &&& e.break_type@ == sched@[j].break_type@
                },
        decreases n - i,
    {
        if !id_listed(ids, i) {
            let e = ScheduleBlock {
                id: kept.len(),
                start_time: sched[i].start_time.clone(),
                end_time: sched[i].end_time.clone(),
                break_type: sched[i].break_type.clone(),
            };
            kept.push(e);
        }
        i = i + 1;
        proof {
            assert(spec_kept_count(n as int, ids@, i as int) == spec_kept_count(
                n as int,
                ids@,
                i - 1,
            ) + (if spec_id_listed(ids@, i - 1) {
                0int
            } else {
                1int
            }));
            assert forall|j: int|
                0 <= j < i && !spec_id_listed(ids@, j) implies {
                let e = #[trigger] kept@[spec_kept_count(n as int, ids@, j)];
                &&& e.id == spec_kept_count(n as int, ids@, j)
                &&& e.start_time@ == sched@[j].start_time@
                &&& e.end_time@ == sched@[j].end_time@
                &&& e.break_type@ == sched@[j].break_type@
            } by {
                lemma_kept_count_mono(n as int, ids@, 0, j);
                if j < i - 1 {
                    lemma_kept_count_mono(n as int, ids@, j, i - 1);
                }
            }
        }
    }
    *sched = kept;
}

/// Renumbers ids to the positional indices, keeping everything else.
pub fn schedule_renumber(sched: &mut Vec<ScheduleBlock>)
    ensures
        final(sched)@.len() == old(sched)@.len(),
        forall|i: int|
            0 <= i < old(sched)@.len() ==> {
                let e = #[trigger] final(sched)@[i];
                &&& e.id == i
                &&& e.start_time@ == old(sched)@[i].start_time@
                &&& e.end_time@ == old(sched)@[i].end_time@
                &&& e.break_type@ == old(sched)@[i].break_type@
            },
{
    let n = sched.len();
    let mut i: usize = 0;
    while i < n
        invariant
            i <= n,
            n == sched@.len(),
            forall|j: int|
                i <= j < n ==> #[trigger] sched@[j] == old(sched)@[j],
            forall|j: int|
                0 <= j < i ==> {
                    let e = #[trigger] sched@[j];
                    &&& e.id == j
                    &&& e.start_time@ == old(sched)@[j].start_time@
                    &&& e.end_time@ == old(sched)@[j].end_time@
                    &&& e.break_type@ == old(sched)@[j].break_type@
                },
        decreases n - i,
    {
        let e = ScheduleBlock {
            id: i,
            start_time: sched[i].start_time.clone(),
            end_time: sched[i].end_time.clone(),
            break_type: sched[i].break_type.clone(),
        };
        sched[i] = e;
        i = i + 1;
    }
}

} // verus!

//! The block-policy data model and its string-encoded field forms.
//!
//! A `BlockSettings` value holds every field the target configuration
//! format requires, with full defaults; the builder then overwrites fields
//! one at a time. Method-specific fields are never reset when another lock
//! method is chosen, so earlier answers are retained.

use vstd::prelude::*;
use crate::convert::TimeOfDay;
use crate::digits::dec_digits;
use crate::digits::u8_to_dec_string;
use crate::digits::u32_to_dec_string;
use crate::digits::usize_to_dec_string;
use crate::strutil::norm_sep;
use crate::strutil::normalize_separators;

verus! {

/// How a running block resists being switched off.
#[derive(Clone, Copy, Debug, PartialEq, Eq, Structural)]
pub enum LockMethod {
    NoLock,
    RandomText,
    Window,
    Restart,
    Password,
}

/// Whether the block applies continuously or on a weekly schedule.
#[derive(Clone, Copy, Debug, PartialEq, Eq, Structural)]
pub enum SchedType {
    Continuous,
    Scheduled,
}

/// Temporary unblocked intervals: none, a one-off allowance, or
/// alternating pomodoro cycles. Minutes are limited to 0-99.
#[derive(Clone, Copy, Debug, PartialEq, Eq, Structural)]
pub enum BreakMethod {
    NoBreaks,
    Allowance(u8),
    Pomodoro(u8, u8),
}

/// Minute fields of a break method stay within the accepted 0-99 range.
pub open spec fn break_wf(b: BreakMethod) -> bool {
    match b {
        BreakMethod::NoBreaks => true,
        BreakMethod::Allowance(m) => m <= 99,
        BreakMethod::Pomodoro(block_min, break_min) => block_min <= 99 && break_min <= 99,
    }
}

/// One tagged filesystem or application target.
#[derive(Clone, Debug, PartialEq, Eq)]
pub enum AppString {
    File(String),
    Folder(String),
    Win10(String),
    Title(String),
}

/// A daily time range and whether the block locks or unlocks inside it.
#[derive(Clone, Copy, Debug, PartialEq, Eq, Structural)]
pub struct RangeWindow {
    pub lock_range: bool,
    pub start_time: TimeOfDay,
    pub end_time: TimeOfDay,
}

impl RangeWindow {
    pub open spec fn wf(self) -> bool {
        self.start_time.wf() && self.end_time.wf()
    }
}

/// (day of week, hour, minute) of one schedule boundary. Day 0 is Sunday.
#[derive(Clone, Copy, Debug, PartialEq, Eq, Structural)]
pub struct ScheduleTimeTuple(pub usize, pub u32, pub u32);

impl ScheduleTimeTuple {
    /// It's a tuple, why bother with new? It's for better communication.
    pub fn new(day_of_week: usize, hour: u32, minute: u32) -> (t: ScheduleTimeTuple)
        ensures
            t == ScheduleTimeTuple(day_of_week, hour, minute),
    {
        ScheduleTimeTuple(day_of_week, hour, minute)
    }

    pub open spec fn wf(self) -> bool {
        self.0 < 7 && self.1 < 24 && self.2 < 60
    }
}

/// One weekly recurring window of a scheduled block.
#[derive(Clone, Copy, Debug, PartialEq, Eq, Structural)]
pub struct ScheduleBlock {
    pub id: usize,
    pub start_time: ScheduleTimeTuple,
    pub end_time: ScheduleTimeTuple,
    pub break_type: BreakMethod,
}

/// The invariant of every schedule entry the builder emits: times sit on
/// the five-minute grid, and the end either lies strictly after the start
/// on the same day, or is exactly midnight of the following day.
pub open spec fn schedule_entry_wf(e: ScheduleBlock) -> bool {
    &&& e.start_time.wf()
    &&& e.end_time.wf()
    &&& e.start_time.2 % 5 == 0
    &&& e.end_time.2 % 5 == 0
    &&& break_wf(e.break_type)
    &&& if e.end_time.1 == 0 && e.end_time.2 == 0 {
        e.end_time.0 == (e.start_time.0 + 1) % 7
    } else {
        e.end_time.0 == e.start_time.0 && (e.start_time.1 < e.end_time.1 || (e.start_time.1
            == e.end_time.1 && e.start_time.2 < e.end_time.2))
    }
}

/// Entry ids are the positional indices, renumbered contiguously.
pub open spec fn schedule_ids_contiguous(s: Seq<ScheduleBlock>) -> bool {
    forall|i: int| 0 <= i < s.len() ==> (#[trigger] s[i]).id == i
}

/// One full blocking configuration in the shape the target format expects.
/// All fields are always present; inactive method fields keep their values.
#[derive(Clone, Debug, PartialEq)]
pub struct BlockSettings {
    pub sched_type: SchedType,
    pub lock: LockMethod,
    pub lock_unblock: bool,
    pub restart_unblock: bool,
    pub password: String,
    pub random_text_length: u16,
    pub break_type: BreakMethod,
    pub window: RangeWindow,
    pub users: String,
    pub web: Vec<String>,
    pub exceptions: Vec<String>,
    pub apps: Vec<AppString>,
    pub schedule: Vec<ScheduleBlock>,
    pub custom_users: Vec<String>,
}

/// Validity carried by every `BlockSettings` the builder produces.
pub open spec fn block_settings_wf(s: BlockSettings) -> bool {
    &&& s.random_text_length <= 999
    &&& break_wf(s.break_type)
    &&& s.window.wf()
    &&& forall|i: int| 0 <= i < s.schedule@.len() ==> schedule_entry_wf(#[trigger] s.schedule@[i])
    &&& schedule_ids_contiguous(s.schedule@)
}

/// `s` with another lock method chosen and every other field retained.
pub open spec fn with_lock(s: BlockSettings, m: LockMethod) -> BlockSettings {
    BlockSettings { lock: m, ..s }
}

impl BlockSettings {
    /// A fresh configuration with the documented defaults: continuous, no
    /// lock, 09:00-17:00 locking window, random-text length 30, no breaks,
    /// the file-scheme wildcard as the only exception, everything else
    /// empty.
    pub fn new() -> (s: BlockSettings)
        ensures
            s.sched_type == SchedType::Continuous,
            s.lock == LockMethod::NoLock,
            s.lock_unblock == true,
            s.restart_unblock == true,
            s.password@ == Seq::<char>::empty(),
            s.random_text_length == 30,
            s.break_type == BreakMethod::NoBreaks,
            s.window == (RangeWindow {
                lock_range: true,
                start_time: TimeOfDay { hour: 9, minute: 0 },
                end_time: TimeOfDay { hour: 17, minute: 0 },
            }),
            s.users@ == Seq::<char>::empty(),
            s.web@ == Seq::<String>::empty(),
            s.exceptions@.len() == 1 && s.exceptions@[0]@ == "file://*"@,
            s.apps@ == Seq::<AppString>::empty(),
            s.schedule@ == Seq::<ScheduleBlock>::empty(),
            s.custom_users@ == Seq::<String>::empty(),
            block_settings_wf(s),
    {
        let exceptions = vec![String::from_str("file://*")];
        BlockSettings {
            sched_type: SchedType::Continuous,
            lock: LockMethod::NoLock,
            lock_unblock: true,
            restart_unblock: true,
            password: String::new(),
            random_text_length: 30,
            break_type: BreakMethod::NoBreaks,
            window: RangeWindow {
                lock_range: true,
                start_time: TimeOfDay::new(9, 0),
                end_time: TimeOfDay::new(17, 0),
            },
            users: String::new(),
            web: Vec::new(),
            exceptions,
            apps: Vec::new(),
            schedule: Vec::new(),
            custom_users: Vec::new(),
        }
    }

    /// Activates a lock method. Exactly this one becomes active, and the
    /// stored settings of every method are retained.
    pub fn set_lock(&mut self, m: LockMethod)
        ensures
            *final(self) == with_lock(*old(self), m),
    {
        self.lock = m;
    }

    /// Stores the random-text length; inputs above 999 are rejected by the
    /// prompt validator before this is called.
    pub fn set_random_text_length(&mut self, len: u16)
        requires
            len <= 999,
        ensures
            *final(self) == (BlockSettings { random_text_length: len, ..*old(self) }),
    {
        self.random_text_length = len;
    }

    pub fn set_window(&mut self, w: RangeWindow)
        requires
            w.wf(),
        ensures
            *final(self) == (BlockSettings { window: w, ..*old(self) }),
    {
        self.window = w;
    }

    pub fn set_restart_unblock(&mut self, unblock: bool)
        ensures
            *final(self) == (BlockSettings { restart_unblock: unblock, ..*old(self) }),
    {
        self.restart_unblock = unblock;
    }

    pub fn set_password(&mut self, password: String)
        ensures
            *final(self) == (BlockSettings { password, ..*old(self) }),
    {
        self.password = password;
    }

    pub fn set_break(&mut self, b: BreakMethod)
        requires
            break_wf(b),
        ensures
            *final(self) == (BlockSettings { break_type: b, ..*old(self) }),
    {
        self.break_type = b;
    }

    pub fn set_web(&mut self, web: Vec<String>)
        ensures
            *final(self) == (BlockSettings { web, ..*old(self) }),
    {
        self.web = web;
    }

    pub fn set_exceptions(&mut self, exceptions: Vec<String>)
        ensures
            *final(self) == (BlockSettings { exceptions, ..*old(self) }),
    {
        self.exceptions = exceptions;
    }

    pub fn set_apps(&mut self, apps: Vec<AppString>)
        ensures
            *final(self) == (BlockSettings { apps, ..*old(self) }),
    {
        self.apps = apps;
    }

    /// Installs a schedule and marks the block as scheduled, or marks it
    /// continuous. The schedule stage obtains its entries from the
    /// builder, which establishes the schedule-entry invariant for each.
    pub fn set_schedule(&mut self, schedule: Vec<ScheduleBlock>, scheduled: bool)
        ensures
            *final(self) == (BlockSettings {
                schedule,
                sched_type: if scheduled {
                    SchedType::Scheduled
                } else {
                    SchedType::Continuous
                },
                ..*old(self)
            }),
    {
        if scheduled {
            self.sched_type = SchedType::Scheduled;
        } else {
            self.sched_type = SchedType::Continuous;
        }
        self.schedule = schedule;
    }
}

impl Default for BlockSettings {
    /// Same defaults as `BlockSettings::new`.
    fn default() -> (s: Self)
        ensures
            s.lock == LockMethod::NoLock,
            s.random_text_length == 30,
            block_settings_wf(s),
    {
        Self::new()
    }
}

/// Break encoding required by the target format:
/// `"none"` | `"<minutes>"` | `"<block minutes>,<break minutes>"`.
pub open spec fn spec_encode_break(b: BreakMethod) -> Seq<char> {
    match b {
        BreakMethod::NoBreaks => "none"@,
        BreakMethod::Allowance(m) => dec_digits(m as nat),
        BreakMethod::Pomodoro(block_min, break_min) => dec_digits(block_min as nat) + seq![',']
            + dec_digits(break_min as nat),
    }
}

pub fn encode_break(b: &BreakMethod) -> (r: String)
    ensures
        r@ == spec_encode_break(*b),
{
    match b {
        BreakMethod::NoBreaks => String::from_str("none"),
        BreakMethod::Allowance(m) => u8_to_dec_string(*m),
        BreakMethod::Pomodoro(block_min, break_min) => {
            let mut s = u8_to_dec_string(*block_min);
            s.push(',');
            let t = u8_to_dec_string(*break_min);
            s.append(t.as_str());
            proof {
                assert(s@ =~= spec_encode_break(*b));
            }
            s
        },
    }
}

/// Schedule boundary encoding: `"<day of week>,<hour>,<minute>"`.
pub open spec fn spec_encode_schedule_time(t: ScheduleTimeTuple) -> Seq<char> {
    dec_digits(t.0 as nat) + seq![','] + dec_digits(t.1 as nat) + seq![','] + dec_digits(t.2 as nat)
}

pub fn encode_schedule_time(t: &ScheduleTimeTuple) -> (r: String)
    ensures
        r@ == spec_encode_schedule_time(*t),
{
    let mut s = usize_to_dec_string(t.0);
    s.push(',');
    let h = u32_to_dec_string(t.1);
    s.append(h.as_str());
    s.push(',');
    let m = u32_to_dec_string(t.2);
    s.append(m.as_str());
    proof {
        assert(s@ =~= spec_encode_schedule_time(*t));
    }
    s
}

/// Window encoding:
/// `"{lock|unlock}@{start hour},{start minute}@{end hour},{end minute}"`.
pub open spec fn spec_encode_window(w: RangeWindow) -> Seq<char> {
    (if w.lock_range {
        Seq::<char>::empty()
    } else {
        "un"@
    }) + "lock@"@ + dec_digits(w.start_time.hour as nat) + seq![','] + dec_digits(
        w.start_time.minute as nat,
    ) + seq!['@'] + dec_digits(w.end_time.hour as nat) + seq![','] + dec_digits(
        w.end_time.minute as nat,
    )
}

pub fn encode_window(w: &RangeWindow) -> (r: String)
    ensures
        r@ == spec_encode_window(*w),
{
    let mut s = String::new();
    if !w.lock_range {
        s.append("un");
    }
    s.append("lock@");
    let sh = u32_to_dec_string(w.start_time.hour);
    s.append(sh.as_str());
    s.push(',');
    let sm = u32_to_dec_string(w.start_time.minute);
    s.append(sm.as_str());
    s.push('@');
    let eh = u32_to_dec_string(w.end_time.hour);
    s.append(eh.as_str());
    s.push(',');
    let em = u32_to_dec_string(w.end_time.minute);
    s.append(em.as_str());
    proof {
        assert(s@ =~= spec_encode_window(*w));
    }
    s
}

/// Lock tag in the target format; the time-range method serializes as
/// `"window"`.
pub open spec fn spec_encode_lock(m: LockMethod) -> Seq<char> {
    match m {
        LockMethod::NoLock => "none"@,
        LockMethod::RandomText => "randomText"@,
        LockMethod::Window => "window"@,
        LockMethod::Restart => "restart"@,
        LockMethod::Password => "password"@,
    }
}

pub fn encode_lock(m: &LockMethod) -> (r: String)
    ensures
        r@ == spec_encode_lock(*m),
{
    match m {
        LockMethod::NoLock => String::from_str("none"),
        LockMethod::RandomText => String::from_str("randomText"),
        LockMethod::Window => String::from_str("window"),
        LockMethod::Restart => String::from_str("restart"),
        LockMethod::Password => String::from_str("password"),
    }
}

/// Schedule-kind tag in the target format.
pub open spec fn spec_encode_sched_type(t: SchedType) -> Seq<char> {
    match t {
        SchedType::Continuous => "continuous"@,
        SchedType::Scheduled => "scheduled"@,
    }
}

pub fn encode_sched_type(t: &SchedType) -> (r: String)
    ensures
        r@ == spec_encode_sched_type(*t),
{
    match t {
        SchedType::Continuous => String::from_str("continuous"),
        SchedType::Scheduled => String::from_str("scheduled"),
    }
}

/// App-target encoding: a kind tag, a colon, and the payload; file and
/// folder paths have separators normalized to forward slashes.
pub open spec fn spec_encode_app(a: AppString) -> Seq<char> {
    match a {
        AppString::File(p) => "file:"@ + norm_sep(p@),
        AppString::Folder(p) => "folder:"@ + norm_sep(p@),
        AppString::Win10(s) => "win10:"@ + s@,
        AppString::Title(s) => "title:"@ + s@,
    }
}

pub fn encode_app(a: &AppString) -> (r: String)
    ensures
        r@ == spec_encode_app(*a),
{
    match a {
        AppString::File(p) => {
            let mut s = String::from_str("file:");
            let n = normalize_separators(p.as_str());
            s.append(n.as_str());
            s
        },
        AppString::Folder(p) => {
            let mut s = String::from_str("folder:");
            let n = normalize_separators(p.as_str());
            s.append(n.as_str());
            s
        },
        AppString::Win10(name) => {
            let mut s = String::from_str("win10:");
            s.append(name.as_str());
            s
        },
        AppString::Title(text) => {
            let mut s = String::from_str("title:");
            s.append(text.as_str());
            s
        },
    }
}

/// Removes the first rule equal to `needle` the way the command-driven
/// session deletes web rules and exceptions: the last entry takes the
/// freed place. Reports whether anything was removed.
pub fn remove_first_match(list: &mut Vec<String>, needle: &str) -> (removed: bool)
    ensures
        removed == (exists|i: int|
            0 <= i < old(list)@.len() && (#[trigger] old(list)@[i])@ == needle@),
        !removed ==> final(list)@ == old(list)@,
        removed ==> exists|f: int|
            {
                &&& 0 <= f < old(list)@.len()
                &&& (#[trigger] old(list)@[f])@ == needle@
                &&& forall|j: int| 0 <= j < f ==> (#[trigger] old(list)@[j])@ != needle@
                &&& final(list)@ == old(list)@.update(f, old(list)@.last()).drop_last()
            },
{
    let n = list.len();
    let mut i: usize = 0;
    while i < n
        invariant
            i <= n,
            n == list@.len(),
            list@ == old(list)@,
            forall|j: int| 0 <= j < i ==> (#[trigger] list@[j])@ != needle@,
        decreases n - i,
    {
        if crate::strutil::str_eq(list[i].as_str(), needle) {
            list.swap_remove(i);
            return true;
        }
        i = i + 1;
    }
    false
}

/// Removes the first app target with the same encoded form as `target`,
/// the way the command-driven session deletes app rules; the last entry
/// takes the freed place.
pub fn remove_app_matching(apps: &mut Vec<AppString>, target: &AppString) -> (removed: bool)
    ensures
        removed == (exists|i: int|
            0 <= i < old(apps)@.len() && spec_encode_app(#[trigger] old(apps)@[i])
                == spec_encode_app(*target)),
        !removed ==> final(apps)@ == old(apps)@,
        removed ==> exists|f: int|
            {
                &&& 0 <= f < old(apps)@.len()
                &&& spec_encode_app(#[trigger] old(apps)@[f]) == spec_encode_app(*target)
                &&& forall|j: int|
                    0 <= j < f ==> spec_encode_app(#[trigger] old(apps)@[j]) != spec_encode_app(
                        *target,
                    )
                &&& final(apps)@ == old(apps)@.update(f, old(apps)@.last()).drop_last()
            },
{
    let target_enc = encode_app(target);
    let n = apps.len();
    let mut i: usize = 0;
    while i < n
        invariant
            i <= n,
            n == apps@.len(),
            apps@ == old(apps)@,
            target_enc@ == spec_encode_app(*target),
            forall|j: int|
                0 <= j < i ==> spec_encode_app(#[trigger] apps@[j]) != spec_encode_app(*target),
        decreases n - i,
    {
        let enc = encode_app(&apps[i]);
        if crate::strutil::str_eq(enc.as_str(), target_enc.as_str()) {
            apps.swap_remove(i);
            return true;
        }
        i = i + 1;
    }
    false
}

/// Switching the active lock method twice still leaves exactly the last
/// method active and every method-specific field (random-text length,
/// window, restart flag, password) holding its last-set value.
pub proof fn lemma_lock_switch_retains_method_fields(s: BlockSettings, m1: LockMethod, m2: LockMethod)
    ensures
        with_lock(with_lock(s, m1), m2).lock == m2,
        with_lock(with_lock(s, m1), m2).random_text_length == s.random_text_length,
        with_lock(with_lock(s, m1), m2).window == s.window,
        with_lock(with_lock(s, m1), m2).restart_unblock == s.restart_unblock,
        with_lock(with_lock(s, m1), m2).password == s.password,
        with_lock(with_lock(s, m1), m2).break_type == s.break_type,
{
}

} // verus!

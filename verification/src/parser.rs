//! What the monitor reads out of the `/proc` text files.
use std::collections::HashMap;
use vstd::prelude::*;
use vstd::string::StrSliceExecFns;

use crate::models::{CpuUsageState, ProcessCpuTime};
use crate::text::{
    has_prefix, line_spans, lines, parse_u64, parse_u64_span, span_has_prefix, span_texts,
    spans_within, to_chars, token_spans, tokens, IntParseError,
};

verus! {

// ---------------------------------------------------------------------------
// /proc/<pid>/status
// ---------------------------------------------------------------------------
/// The memory figures of one process, as `/proc/<pid>/status` gives them (in kB).
#[derive(Debug, Clone, Copy, PartialEq, Eq)]
pub struct StatusFields {
    /// `VmSize`, 0 when absent or unreadable.
    pub vm_size: u64,
    /// `VmRSS`, when a `VmRSS` line could be read.
    pub vm_rss: Option<u64>,
    /// `RssShmem`, 0 when absent or unreadable.
    pub rss_shem: u64,
}

pub open spec fn vm_size_key() -> Seq<char> {
    seq!['V', 'm', 'S', 'i', 'z', 'e', ':']
}

pub open spec fn vm_rss_key() -> Seq<char> {
    seq!['V', 'm', 'R', 'S', 'S', ':']
}

pub open spec fn rss_shmem_key() -> Seq<char> {
    seq!['R', 's', 's', 'S', 'h', 'm', 'e', 'm', ':']
}

/// The first whitespace-separated field of `s`, read as a `u64`, if both exist.
pub open spec fn first_number(s: Seq<char>) -> Option<u64> {
    let t = tokens(s);
    if t.len() > 0 {
        match parse_u64(t[0]) {
            Ok(v) => Some(v),
            Err(_) => None,
        }
    } else {
        None
    }
}

/// Goes through the lines of a status file: a `VmSize:`, `VmRSS:` or
/// `RssShmem:` line whose first field is a number sets the matching figure;
/// reading stops at the first `RssShmem:` line.
pub open spec fn status_scan(ls: Seq<Seq<char>>, acc: StatusFields) -> StatusFields
    decreases ls.len(),
{
    if ls.len() == 0 {
        acc
    } else {
        let l = ls[0];
        if has_prefix(l, vm_size_key()) {
            let next = match first_number(l.skip(7)) {
                Some(v) => StatusFields { vm_size: v, ..acc },
                None => acc,
            };
            status_scan(ls.drop_first(), next)
        } else if has_prefix(l, vm_rss_key()) {
            let next = match first_number(l.skip(6)) {
                Some(v) => StatusFields { vm_rss: Some(v), ..acc },
                None => acc,
            };
            status_scan(ls.drop_first(), next)
        } else if has_prefix(l, rss_shmem_key()) {
            match first_number(l.skip(9)) {
                Some(v) => StatusFields { rss_shem: v, ..acc },
                None => acc,
            }
        } else {
            status_scan(ls.drop_first(), acc)
        }
    }
}

pub open spec fn empty_status() -> StatusFields {
    StatusFields { vm_size: 0, vm_rss: None, rss_shem: 0 }
}

/// What `parse_proc_pid_status` reads out of the text of a status file.
pub open spec fn spec_status_fields(s: Seq<char>) -> StatusFields {
    status_scan(lines(s), empty_status())
}

/// The number at the start of `text[start..end]`, if the first field there is one.
fn first_number_span(text: &Vec<char>, start: usize, end: usize) -> (r: Option<u64>)
    requires
        start <= end <= text@.len(),
    ensures
        r == first_number(text@.subrange(start as int, end as int)),
{
    let spans = token_spans(text, start, end);
    if spans.len() == 0 {
        return None;
    }
    let (a, b) = spans[0];
    assert(span_texts(text@, spans@)[0] == text@.subrange(a as int, b as int));
    match parse_u64_span(text, a, b) {
        Ok(v) => Some(v),
        Err(_) => None,
    }
}

/// Reads the memory figures out of the text of `/proc/<pid>/status`.
pub fn parse_proc_pid_status(status_str: &str) -> (r: StatusFields)
    ensures
        r == spec_status_fields(status_str@),
{
    let text = to_chars(status_str);
    let spans = line_spans(&text);
    let ghost ls = lines(text@);
    let vm_size_key_chars: [char; 7] = ['V', 'm', 'S', 'i', 'z', 'e', ':'];
    let vm_rss_key_chars: [char; 6] = ['V', 'm', 'R', 'S', 'S', ':'];
    let rss_shmem_key_chars: [char; 9] = ['R', 's', 's', 'S', 'h', 'm', 'e', 'm', ':'];
    assert(vm_size_key_chars@ =~= vm_size_key());
    assert(vm_rss_key_chars@ =~= vm_rss_key());
    assert(rss_shmem_key_chars@ =~= rss_shmem_key());
    let mut acc = StatusFields { vm_size: 0, vm_rss: None, rss_shem: 0 };
    let mut i: usize = 0;
    assert(ls.skip(0) =~= ls);
    while i < spans.len()
        invariant
            i <= spans@.len(),
            ls == lines(text@),
            text@ == status_str@,
            span_texts(text@, spans@) == ls,
            spans_within(spans@, 0, text@.len() as int),
            vm_size_key_chars@ == vm_size_key(),
            vm_rss_key_chars@ == vm_rss_key(),
            rss_shmem_key_chars@ == rss_shmem_key(),
            spec_status_fields(text@) == status_scan(ls.skip(i as int), acc),
        decreases spans.len() - i,
    {
        let (a, b) = spans[i];
        let ghost l = text@.subrange(a as int, b as int);
        assert(ls[i as int] == l);
        assert(ls.skip(i as int).drop_first() =~= ls.skip(i + 1));
        assert(ls.skip(i as int)[0] == l);
        if span_has_prefix(&text, a, b, &vm_size_key_chars) {
            assert(l.skip(7) =~= text@.subrange(a + 7, b as int));
            if let Some(v) = first_number_span(&text, a + 7, b) {
                acc = StatusFields { vm_size: v, ..acc };
            }
        } else if span_has_prefix(&text, a, b, &vm_rss_key_chars) {
            assert(l.skip(6) =~= text@.subrange(a + 6, b as int));
            if let Some(v) = first_number_span(&text, a + 6, b) {
                acc = StatusFields { vm_rss: Some(v), ..acc };
            }
        } else if span_has_prefix(&text, a, b, &rss_shmem_key_chars) {
            assert(l.skip(9) =~= text@.subrange(a + 9, b as int));
            if let Some(v) = first_number_span(&text, a + 9, b) {
                acc = StatusFields { rss_shem: v, ..acc };
            }
            return acc;
        }
        i = i + 1;
    }
    acc
}

// ---------------------------------------------------------------------------
// /proc/<pid>/stat
// ---------------------------------------------------------------------------
pub open spec fn ok_value(r: Result<u64, IntParseError>) -> u64 {
    match r {
        Ok(v) => v,
        Err(_) => 0,
    }
}

/// `utime` and `stime` of a process: the 14th and 15th whitespace-separated
/// fields of `/proc/<pid>/stat`, when both are there and both are numbers.
pub open spec fn stat_cpu_times(s: Seq<char>) -> Option<ProcessCpuTime> {
    let t = tokens(s);
    if t.len() > 14 && parse_u64(t[13]) is Ok && parse_u64(t[14]) is Ok {
        Some(
            ProcessCpuTime {
                user_time: ok_value(parse_u64(t[13])),
                system_time: ok_value(parse_u64(t[14])),
            },
        )
    } else {
        None
    }
}

/// The user and system ticks a process spent since `previous` (0 where a
/// counter went back).
pub open spec fn tick_deltas(now: ProcessCpuTime, previous: ProcessCpuTime) -> (u64, u64) {
    (
        now.user_time.saturating_sub(previous.user_time),
        now.system_time.saturating_sub(previous.system_time),
    )
}

/// `after` and `r` are what reading the CPU times in `input` for `pid` does
/// to the records `before`: times that can be read are recorded, and
/// compared with those recorded before for the same process.
pub open spec fn cpu_time_recorded(
    pid: i32,
    input: Seq<char>,
    before: Map<i32, ProcessCpuTime>,
    after: Map<i32, ProcessCpuTime>,
    r: Option<(u64, u64)>,
) -> bool {
    match stat_cpu_times(input) {
        None => r is None && after == before,
        Some(now) => {
            &&& after == before.insert(pid, now)
            &&& r == if before.contains_key(pid) {
                Some(tick_deltas(now, before[pid]))
            } else {
                None
            }
        },
    }
}

/// Reads the CPU times out of the text of `/proc/<pid>/stat` and records them
/// for `pid_id`. Returns the user and system ticks spent since the previous
/// record of the same process, or `None` when there was none or the text
/// holds no CPU times (the cache is then left as it was).
pub fn parse_proc_pid_stat_cpu_usage(
    pid_id: i32,
    input: &str,
    cpu_proc_stat_cache: &mut HashMap<i32, ProcessCpuTime>,
) -> (r: Option<(u64, u64)>)
    ensures
        cpu_time_recorded(
            pid_id,
            input@,
            old(cpu_proc_stat_cache)@,
            final(cpu_proc_stat_cache)@,
            r,
        ),
{
    let text = to_chars(input);
    let spans = token_spans(&text, 0, text.len());
    assert(text@.subrange(0, text@.len() as int) =~= text@);
    if spans.len() <= 14 {
        return None;
    }
    let (a13, b13) = spans[13];
    let (a14, b14) = spans[14];
    assert(span_texts(text@, spans@)[13] == text@.subrange(a13 as int, b13 as int));
    assert(span_texts(text@, spans@)[14] == text@.subrange(a14 as int, b14 as int));
    let user = parse_u64_span(&text, a13, b13);
    let system = parse_u64_span(&text, a14, b14);
    match (user, system) {
        (Ok(user_time), Ok(system_time)) => {
            let now = ProcessCpuTime { user_time, system_time };
            let r = match cpu_proc_stat_cache.get(&pid_id) {
                Some(entry) => Some(
                    (
                        user_time.saturating_sub(entry.user_time),
                        system_time.saturating_sub(entry.system_time),
                    ),
                ),
                None => None,
            };
            cpu_proc_stat_cache.insert(pid_id, now);
            r
        },
        _ => None,
    }
}

// ---------------------------------------------------------------------------
// /proc/stat
// ---------------------------------------------------------------------------
/// The counters of one CPU line of `/proc/stat`, in clock ticks.
#[derive(Debug)]
pub struct CpuTimes {
    pub cpu_name: String,
    pub user: u64,
    pub nice: u64,
    pub system: u64,
    pub idle: u64,
    pub iowait: u64,
    pub irq: u64,
    pub softirq: u64,
    pub steal: u64,
}

/// How far the fields of a CPU line can be read, from left to right: the
/// name and eight numbers, or a field that is missing, or a field that is no
/// number (whichever comes first).
pub enum FieldScan {
    Complete,
    Missing,
    Invalid(IntParseError),
}

/// Reads the numbers `t[j]`, ..., `t[8]` from left to right.
pub open spec fn scan_numbers(t: Seq<Seq<char>>, j: nat) -> FieldScan
    decreases 9 - j,
{
    if j > 8 {
        FieldScan::Complete
    } else if j >= t.len() {
        FieldScan::Missing
    } else {
        match parse_u64(t[j as int]) {
            Err(e) => FieldScan::Invalid(e),
            Ok(_) => scan_numbers(t, j + 1),
        }
    }
}

/// How the fields `t` of a CPU line read: a name, then eight numbers.
pub open spec fn cpu_line_scan(t: Seq<Seq<char>>) -> FieldScan {
    if t.len() == 0 {
        FieldScan::Missing
    } else {
        scan_numbers(t, 1)
    }
}

/// The number in field `k` of `t`.
pub open spec fn field(t: Seq<Seq<char>>, k: int) -> u64 {
    ok_value(parse_u64(t[k]))
}

/// `c` holds the name and the eight numbers of the fields `t`.
pub open spec fn cpu_times_match(c: CpuTimes, t: Seq<Seq<char>>) -> bool {
    &&& c.cpu_name@ == t[0]
    &&& c.user == field(t, 1)
    &&& c.nice == field(t, 2)
    &&& c.system == field(t, 3)
    &&& c.idle == field(t, 4)
    &&& c.iowait == field(t, 5)
    &&& c.irq == field(t, 6)
    &&& c.softirq == field(t, 7)
    &&& c.steal == field(t, 8)
}

/// What reading a CPU line gave.
enum CpuLine {
    Parsed(CpuTimes),
    Invalid(IntParseError),
    Missing,
}

/// Reads the name and the eight counters of the CPU line `src[start..end]`.
fn read_cpu_line(src: &str, text: &Vec<char>, start: usize, end: usize) -> (r: CpuLine)
    requires
        text@ == src@,
        start <= end <= text@.len(),
    ensures
        ({
            let t = tokens(text@.subrange(start as int, end as int));
            match r {
                CpuLine::Parsed(c) => cpu_line_scan(t) is Complete && cpu_times_match(c, t),
                CpuLine::Invalid(e) => cpu_line_scan(t) == FieldScan::Invalid(e),
                CpuLine::Missing => cpu_line_scan(t) is Missing,
            }
        }),
{
    let spans = token_spans(text, start, end);
    let ghost t = tokens(text@.subrange(start as int, end as int));
    if spans.len() == 0 {
        return CpuLine::Missing;
    }
    let mut values: Vec<u64> = Vec::new();
    let mut j: usize = 1;
    while j <= 8
        invariant
            1 <= j <= 9,
            t == tokens(text@.subrange(start as int, end as int)),
            t == span_texts(text@, spans@),
            t.len() == spans@.len(),
            spans@.len() > 0,
            spans_within(spans@, start as int, end as int),
            end <= text@.len(),
            values@.len() == j - 1,
            values@ =~= Seq::new((j - 1) as nat, |k: int| field(t, k + 1)),
            cpu_line_scan(t) == scan_numbers(t, j as nat),
        decreases 9 - j,
    {
        if j >= spans.len() {
            return CpuLine::Missing;
        }
        let (a, b) = spans[j];
        assert(t[j as int] == text@.subrange(a as int, b as int));
        match parse_u64_span(text, a, b) {
            Err(e) => {
                return CpuLine::Invalid(e);
            },
            Ok(v) => {
                values.push(v);
                assert(values@[j - 1] == field(t, j as int));
            },
        }
        j = j + 1;
    }
    let (a0, b0) = spans[0];
    assert(t[0] == text@.subrange(a0 as int, b0 as int));
    let name = src.substring_char(a0, b0).to_owned();
    CpuLine::Parsed(
        CpuTimes {
            cpu_name: name,
            user: values[0],
            nice: values[1],
            system: values[2],
            idle: values[3],
            iowait: values[4],
            irq: values[5],
            softirq: values[6],
            steal: values[7],
        },
    )
}

/// Reads a CPU line of `/proc/stat`: its name and eight counters (`user`,
/// `nice`, `system`, `idle`, `iowait`, `irq`, `softirq`, `steal`). The error is
/// that of the first counter that is no number. A line that ends before all
/// counters are read (ahead of any such error) is not accepted.
pub fn parse_cpu_times(line: &str) -> (r: Result<CpuTimes, IntParseError>)
    requires
        !(cpu_line_scan(tokens(line@)) is Missing),
    ensures
        match r {
            Ok(c) => cpu_line_scan(tokens(line@)) is Complete && cpu_times_match(c, tokens(line@)),
            Err(e) => cpu_line_scan(tokens(line@)) == FieldScan::Invalid(e),
        },
{
    let text = to_chars(line);
    assert(text@.subrange(0, text@.len() as int) =~= text@);
    match read_cpu_line(line, &text, 0, text.len()) {
        CpuLine::Parsed(c) => Ok(c),
        CpuLine::Invalid(e) => Err(e),
        CpuLine::Missing => {
            assert(false);
            Err(IntParseError::Empty)
        },
    }
}

/// The counters of each CPU line of `/proc/stat` at the previous sample, by CPU name.
pub struct CpuUsageCache {
    entries: Vec<(String, CpuUsageState)>,
}

impl CpuUsageCache {
    /// The CPU names, in the order they were first seen.
    pub closed spec fn names(&self) -> Seq<Seq<char>> {
        self.entries@.map_values(|e: (String, CpuUsageState)| e.0@)
    }

    /// No name is recorded twice.
    pub closed spec fn wf(&self) -> bool {
        forall|i: int, j: int|
            0 <= i < j < self.entries@.len() ==> #[trigger] self.entries@[i].0@
                != #[trigger] self.entries@[j].0@
    }

    /// An empty cache.
    pub fn new() -> (r: Self)
        ensures
            r.wf(),
            r@ == Map::<Seq<char>, CpuUsageState>::empty(),
    {
        let r = CpuUsageCache { entries: Vec::new() };
        assert(r@ =~= Map::<Seq<char>, CpuUsageState>::empty());
        r
    }

    /// The position of `name`, if it is recorded.
    fn find(&self, name: &String) -> (r: Option<usize>)
        requires
            self.wf(),
        ensures
            match r {
                Some(i) => i < self.entries@.len() && self.entries@[i as int].0@ == name@,
                None => !self@.contains_key(name@),
            },
    {
        let mut i: usize = 0;
        while i < self.entries.len()
            invariant
                i <= self.entries@.len(),
                forall|k: int| 0 <= k < i ==> self.entries@[k].0@ != name@,
            decreases self.entries.len() - i,
        {
            if self.entries[i].0 == *name {
                return Some(i);
            }
            i = i + 1;
        }
        None
    }

    /// Records `state` for the name at position `i`.
    fn set_at(&mut self, i: usize, state: CpuUsageState)
        requires
            old(self).wf(),
            i < old(self).entries@.len(),
        ensures
            final(self).wf(),
            final(self)@ == old(self)@.insert(old(self).entries@[i as int].0@, state),
    {
        let ghost name = self.entries@[i as int].0@;
        let ghost before = self.entries@;
        let kept = self.entries[i].0.clone();
        self.entries.set(i, (kept, state));
        assert forall|k: int| 0 <= k < self.entries@.len() implies #[trigger] self.entries@[k].0@
            == before[k].0@ by {}
        let ghost newm = self@;
        let ghost oldm = old(self)@.insert(name, state);
        assert forall|key: Seq<char>| newm.contains_key(key) <==> oldm.contains_key(key) by {
            if newm.contains_key(key) {
                let j = choose|j: int| 0 <= j < self.entries@.len() && self.entries@[j].0@ == key;
                assert(before[j].0@ == key);
            }
            if old(self)@.contains_key(key) {
                let j = choose|j: int| 0 <= j < before.len() && before[j].0@ == key;
                assert(self.entries@[j].0@ == key);
            }
            if key == name {
                assert(self.entries@[i as int].0@ == key);
            }
        }
        assert forall|key: Seq<char>| newm.contains_key(key) implies newm[key] == oldm[key] by {
            let j = choose|j: int| 0 <= j < self.entries@.len() && self.entries@[j].0@ == key;
            if key == name {
                assert(j == i);
            } else {
                let j2 = choose|j2: int| 0 <= j2 < before.len() && before[j2].0@ == key;
                assert(before[j].0@ == key);
                assert(j2 == j);
            }
        }
        assert(newm =~= oldm);
    }

    /// Records a new name.
    fn add(&mut self, name: String, state: CpuUsageState)
        requires
            old(self).wf(),
            !old(self)@.contains_key(name@),
        ensures
            final(self).wf(),
            final(self)@ == old(self)@.insert(name@, state),
    {
        let ghost n = name@;
        self.entries.push((name, state));
        let ghost before = old(self).entries@;
        let ghost newm = self@;
        let ghost oldm = old(self)@.insert(n, state);
        let last = self.entries.len() - 1;
        assert(self.entries@[last as int].0@ == n);
        assert forall|k: int| 0 <= k < before.len() implies #[trigger] self.entries@[k] == before[k] by {}
        assert forall|key: Seq<char>| newm.contains_key(key) <==> oldm.contains_key(key) by {
            if newm.contains_key(key) {
                let j = choose|j: int| 0 <= j < self.entries@.len() && self.entries@[j].0@ == key;
                if j < before.len() {
                    assert(before[j].0@ == key);
                }
            }
            if old(self)@.contains_key(key) {
                let j = choose|j: int| 0 <= j < before.len() && before[j].0@ == key;
                assert(self.entries@[j].0@ == key);
            }
        }
        assert forall|key: Seq<char>| newm.contains_key(key) implies newm[key] == oldm[key] by {
            let j = choose|j: int| 0 <= j < self.entries@.len() && self.entries@[j].0@ == key;
            if key == n {
                if j < before.len() {
                    assert(before[j].0@ == n);
                    assert(old(self)@.contains_key(n));
                }
                assert(j == last);
            } else {
                let j2 = choose|j2: int| 0 <= j2 < before.len() && before[j2].0@ == key;
                assert(j != last);
                assert(before[j].0@ == key);
                assert(j2 == j);
            }
        }
        assert(newm =~= oldm);
        assert forall|a: int, b: int| 0 <= a < b < self.entries@.len() implies #[trigger] self.entries@[a].0@
            != #[trigger] self.entries@[b].0@ by {
            if b == last {
                if self.entries@[a].0@ == n {
                    assert(before[a].0@ == n);
                    assert(old(self)@.contains_key(n));
                }
            }
        }
    }
}

impl View for CpuUsageCache {
    type V = Map<Seq<char>, CpuUsageState>;

    /// Each recorded name with the counters recorded for it.
    closed spec fn view(&self) -> Map<Seq<char>, CpuUsageState> {
        Map::new(
            |name: Seq<char>| exists|i: int| 0 <= i < self.entries@.len() && self.entries@[i].0@ == name,
            |name: Seq<char>|
                self.entries@[choose|i: int|
                    0 <= i < self.entries@.len() && self.entries@[i].0@ == name].1,
        )
    }
}

/// Why a reading of `/proc/stat` cannot be turned into CPU usage.
#[derive(Debug, Clone, Copy, PartialEq, Eq)]
pub enum StatError {
    /// A CPU line ends before its eight counters.
    MissingField,
    /// A counter sum does not fit in a `u64`, or a counter went back since
    /// the previous reading.
    Overflow,
}

/// The ticks one CPU spent working, and in all, since the previous reading.
#[derive(Debug)]
pub struct CpuUsageDelta {
    pub cpu_name: String,
    pub work_delta: u64,
    pub total_delta: u64,
}

pub open spec fn delta_views(v: Seq<CpuUsageDelta>) -> Seq<(Seq<char>, u64, u64)> {
    v.map_values(|d: CpuUsageDelta| (d.cpu_name@, d.work_delta, d.total_delta))
}

pub open spec fn cpu_key() -> Seq<char> {
    seq!['c', 'p', 'u']
}

/// All eight counters of a CPU line.
pub open spec fn line_total(t: Seq<Seq<char>>) -> int {
    field(t, 1) + field(t, 2) + field(t, 3) + field(t, 4) + field(t, 5) + field(t, 6) + field(t, 7)
        + field(t, 8)
}

/// The idle counters (`idle` and `iowait`) of a CPU line.
pub open spec fn line_idle(t: Seq<Seq<char>>) -> int {
    field(t, 4) + field(t, 5)
}

/// Goes through the lines of `/proc/stat` with the counters of the previous
/// reading, until the first line that does not start with `cpu`:
/// - a line whose counters cannot all be read as numbers is passed over;
/// - a line that ends before its counters are read stops everything
///   (`MissingField`), as does a sum of counters beyond `u64::MAX` or a
///   counter that went back (`Overflow`);
/// - a CPU seen for the first time is recorded with zero counters, and gives
///   no usage yet;
/// - a CPU seen before gives the ticks spent working (all but `idle` and
///   `iowait`) and in all since then, and its counters are recorded.
///
/// The result is the counters recorded at the end, the usage of each CPU line in
/// order, and the error that stopped the reading, if any.
pub open spec fn stat_fold(cache: Map<Seq<char>, CpuUsageState>, ls: Seq<Seq<char>>) -> (
    Map<Seq<char>, CpuUsageState>,
    Seq<(Seq<char>, u64, u64)>,
    Option<StatError>,
)
    decreases ls.len(),
{
    if ls.len() == 0 || !has_prefix(ls[0], cpu_key()) {
        (cache, seq![], None)
    } else {
        let t = tokens(ls[0]);
        match cpu_line_scan(t) {
            FieldScan::Missing => (cache, seq![], Some(StatError::MissingField)),
            FieldScan::Invalid(_) => stat_fold(cache, ls.drop_first()),
            FieldScan::Complete => {
                let total = line_total(t);
                let work = total - line_idle(t);
                let name = t[0];
                if total > u64::MAX {
                    (cache, seq![], Some(StatError::Overflow))
                } else if cache.contains_key(name) {
                    let prev = cache[name];
                    if work < prev.work_time || total < prev.total_time {
                        (cache, seq![], Some(StatError::Overflow))
                    } else {
                        let rest = stat_fold(
                            cache.insert(
                                name,
                                CpuUsageState { work_time: work as u64, total_time: total as u64 },
                            ),
                            ls.drop_first(),
                        );
                        (
                            rest.0,
                            seq![
                                (
                                    name,
                                    (work - prev.work_time) as u64,
                                    (total - prev.total_time) as u64,
                                ),
                            ] + rest.1,
                            rest.2,
                        )
                    }
                } else {
                    stat_fold(
                        cache.insert(name, CpuUsageState { work_time: 0, total_time: 0 }),
                        ls.drop_first(),
                    )
                }
            },
        }
    }
}

/// Turns a reading of `/proc/stat` into the ticks each CPU spent since the
/// previous reading, and records the new counters in `cache` (see `stat_fold`).
#[verifier::spinoff_prover]
#[verifier::rlimit(40)]
pub fn proc_stat_deltas(contents: &str, cache: &mut CpuUsageCache) -> (r: Result<
    Vec<CpuUsageDelta>,
    StatError,
>)
    requires
        old(cache).wf(),
    ensures
        final(cache).wf(),
        ({
            let f = stat_fold(old(cache)@, lines(contents@));
            &&& final(cache)@ == f.0
            &&& match r {
                Ok(v) => f.2 is None && delta_views(v@) == f.1,
                Err(e) => f.2 == Some(e),
            }
        }),
{
    let text = to_chars(contents);
    let spans = line_spans(&text);
    let ghost ls = lines(text@);
    let ghost start_cache = cache@;
    let cpu_chars: [char; 3] = ['c', 'p', 'u'];
    assert(cpu_chars@ =~= cpu_key());
    let mut out: Vec<CpuUsageDelta> = Vec::new();
    let mut i: usize = 0;
    assert(ls.skip(0) =~= ls);
    assert(delta_views(out@) + stat_fold(cache@, ls).1 =~= stat_fold(cache@, ls).1);
    while i < spans.len()
        invariant
            i <= spans@.len(),
            text@ == contents@,
            ls == lines(text@),
            span_texts(text@, spans@) == ls,
            spans_within(spans@, 0, text@.len() as int),
            cpu_chars@ == cpu_key(),
            cache.wf(),
            start_cache == old(cache)@,
            ({
                let f = stat_fold(cache@, ls.skip(i as int));
                stat_fold(start_cache, ls) == (f.0, delta_views(out@) + f.1, f.2)
            }),
        decreases spans.len() - i,
    {
        let (a, b) = spans[i];
        let ghost l = text@.subrange(a as int, b as int);
        let ghost rest = ls.skip(i as int);
        assert(ls[i as int] == l);
        assert(rest.drop_first() =~= ls.skip(i + 1));
        assert(rest[0] == l);
        if !span_has_prefix(&text, a, b, &cpu_chars) {
            assert(delta_views(out@) + Seq::<(Seq<char>, u64, u64)>::empty() =~= delta_views(
                out@,
            ));
            return Ok(out);
        }
        match read_cpu_line(contents, &text, a, b) {
            CpuLine::Missing => {
                return Err(StatError::MissingField);
            },
            CpuLine::Invalid(_) => {},
            CpuLine::Parsed(c) => {
                let ghost t = tokens(l);
                let idle: u128 = c.idle as u128 + c.iowait as u128;
                let total: u128 = c.user as u128 + c.nice as u128 + c.system as u128 + idle
                    + c.irq as u128 + c.softirq as u128 + c.steal as u128;
                if total > u64::MAX as u128 {
                    return Err(StatError::Overflow);
                }
                let total_time = total as u64;
                let work_time = (total - idle) as u64;
                match cache.find(&c.cpu_name) {
                    Some(k) => {
                        let prev = cache.entries[k].1;
                        assert(cache@.contains_key(t[0]));
                        assert(cache@[t[0]] == prev) by {
                            let j = choose|j: int|
                                0 <= j < cache.entries@.len() && cache.entries@[j].0@ == t[0];
                            assert(j == k);
                        }
                        if work_time < prev.work_time || total_time < prev.total_time {
                            return Err(StatError::Overflow);
                        }
                        let ghost before = out@;
                        out.push(
                            CpuUsageDelta {
                                cpu_name: c.cpu_name,
                                work_delta: work_time - prev.work_time,
                                total_delta: total_time - prev.total_time,
                            },
                        );
                        assert(delta_views(out@) =~= delta_views(before).push(
                            (t[0], (work_time - prev.work_time) as u64, (total_time
                                - prev.total_time) as u64),
                        ));
                        cache.set_at(k, CpuUsageState { work_time, total_time });
                        let ghost f2 = stat_fold(cache@, ls.skip(i + 1));
                        assert(delta_views(out@) + f2.1 =~= delta_views(before) + (seq![
                            (t[0], (work_time - prev.work_time) as u64, (total_time
                                - prev.total_time) as u64),
                        ] + f2.1));
                    },
                    None => {
                        cache.add(c.cpu_name, CpuUsageState { work_time: 0, total_time: 0 });
                    },
                }
            },
        }
        i = i + 1;
    }
    assert(ls.skip(spans@.len() as int) =~= Seq::<Seq<char>>::empty());
    assert(delta_views(out@) + Seq::<(Seq<char>, u64, u64)>::empty() =~= delta_views(out@));
    Ok(out)
}

// ---------------------------------------------------------------------------
// One process of a sample
// ---------------------------------------------------------------------------
/// What a sample keeps of one process: its memory figures, and the CPU
/// ticks it spent since the previous sample (when it was seen then).
#[derive(Debug, Clone, Copy, PartialEq, Eq)]
pub struct ProcessSample {
    pub status: StatusFields,
    pub cpu_ticks: Option<(u64, u64)>,
}

/// Reads one process from the texts of its `stat` and `status` files. A
/// process whose `VmSize` is 0 (or cannot be read), such as a kernel thread,
/// is left out, and its CPU times are then not recorded.
pub fn read_process_sample(
    pid: i32,
    stat: &str,
    status: &str,
    cpu_proc_stat_cache: &mut HashMap<i32, ProcessCpuTime>,
) -> (r: Option<ProcessSample>)
    ensures
        spec_status_fields(status@).vm_size == 0 ==> r is None && final(cpu_proc_stat_cache)@ == old(
            cpu_proc_stat_cache,
        )@,
        spec_status_fields(status@).vm_size != 0 ==> (r matches Some(p) && p.status
            == spec_status_fields(status@) && cpu_time_recorded(
            pid,
            stat@,
            old(cpu_proc_stat_cache)@,
            final(cpu_proc_stat_cache)@,
            p.cpu_ticks,
        )),
{
    let fields = parse_proc_pid_status(status);
    if fields.vm_size == 0 {
        return None;
    }
    let cpu_ticks = parse_proc_pid_stat_cpu_usage(pid, stat, cpu_proc_stat_cache);
    Some(ProcessSample { status: fields, cpu_ticks })
}

} // verus!

//! The order of the rows of the process table: a stable sort on the chosen
//! column, ascending or descending, and the parent/child tree below pid 1.
use std::collections::BTreeMap;
use vstd::prelude::*;

use crate::models::ProcessInfo;
use crate::text::{chars_le, chars_le_exec, to_chars};

verus! {

/// The columns of the process table, from left to right.
#[derive(Debug, Default, Clone, Copy, PartialEq, Eq, Structural)]
pub enum ProcessUiColumn {
    Pid,
    VmSize,
    #[default]
    VmRss,
    RssShem,
    RssProc,
    CpuUsage,
    Uptime,
    Command,
}

#[derive(Debug, Default, Clone, Copy, PartialEq, Eq, Structural)]
pub enum SortOrder {
    Ascending,
    #[default]
    Descending,
}

/// The column the table is sorted by, and in which direction.
#[derive(Debug, Default, Clone, Copy, PartialEq, Eq, Structural)]
pub struct TableOrderSettings {
    pub order_by_field: ProcessUiColumn,
    pub order: SortOrder,
}

/// A flat list, or the tree of processes below pid 1.
#[derive(Debug, Default, Clone, Copy, PartialEq, Eq, Structural)]
pub enum ProcessDisplayKind {
    #[default]
    List,
    Tree,
}

/// The column shown at position `idx` of the table.
pub open spec fn column_at(idx: int) -> Option<ProcessUiColumn> {
    if idx == 0 {
        Some(ProcessUiColumn::Pid)
    } else if idx == 1 {
        Some(ProcessUiColumn::VmSize)
    } else if idx == 2 {
        Some(ProcessUiColumn::VmRss)
    } else if idx == 3 {
        Some(ProcessUiColumn::RssShem)
    } else if idx == 4 {
        Some(ProcessUiColumn::RssProc)
    } else if idx == 5 {
        Some(ProcessUiColumn::CpuUsage)
    } else if idx == 6 {
        Some(ProcessUiColumn::Uptime)
    } else if idx == 7 {
        Some(ProcessUiColumn::Command)
    } else {
        None
    }
}

/// The column shown at position `idx` of the table, if there is one.
pub fn ui_column(idx: usize) -> (r: Option<ProcessUiColumn>)
    ensures
        r == column_at(idx as int),
{
    match idx {
        0 => Some(ProcessUiColumn::Pid),
        1 => Some(ProcessUiColumn::VmSize),
        2 => Some(ProcessUiColumn::VmRss),
        3 => Some(ProcessUiColumn::RssShem),
        4 => Some(ProcessUiColumn::RssProc),
        5 => Some(ProcessUiColumn::CpuUsage),
        6 => Some(ProcessUiColumn::Uptime),
        7 => Some(ProcessUiColumn::Command),
        _ => None,
    }
}

/// The integer by which `f32::total_cmp` orders the float with bit pattern
/// `bits`: IEEE 754 totalOrder (negative values below positive ones, `-0.0`
/// below `+0.0`, negative NaNs first and positive NaNs last).
pub open spec fn total_order_key(bits: u32) -> int {
    if bits < 0x8000_0000 {
        bits as int
    } else {
        0x7fff_ffff - bits as int
    }
}

pub fn total_order_key_exec(bits: u32) -> (r: i64)
    ensures
        r == total_order_key(bits),
{
    if bits < 0x8000_0000 {
        bits as i64
    } else {
        0x7fff_ffff - bits as i64
    }
}

/// Row `a` may come before row `b` when sorting by `col` in ascending order.
pub open spec fn key_le(col: ProcessUiColumn, a: ProcessInfo, b: ProcessInfo) -> bool {
    match col {
        ProcessUiColumn::Pid => a.pid <= b.pid,
        ProcessUiColumn::VmSize => a.status.vm_size <= b.status.vm_size,
        ProcessUiColumn::VmRss => a.status.vm_rss <= b.status.vm_rss,
        ProcessUiColumn::RssShem => a.status.rss_shem <= b.status.rss_shem,
        ProcessUiColumn::RssProc => total_order_key(a.status.rss_proc_bits) <= total_order_key(
            b.status.rss_proc_bits,
        ),
        ProcessUiColumn::CpuUsage => total_order_key(a.status.cpu_usage_bits) <= total_order_key(
            b.status.cpu_usage_bits,
        ),
        ProcessUiColumn::Uptime => a.status.uptime <= b.status.uptime,
        ProcessUiColumn::Command => chars_le(a.command@, b.command@),
    }
}

fn key_le_exec(col: ProcessUiColumn, a: &ProcessInfo, b: &ProcessInfo) -> (r: bool)
    ensures
        r == key_le(col, *a, *b),
{
    match col {
        ProcessUiColumn::Pid => a.pid <= b.pid,
        ProcessUiColumn::VmSize => a.status.vm_size <= b.status.vm_size,
        ProcessUiColumn::VmRss => a.status.vm_rss <= b.status.vm_rss,
        ProcessUiColumn::RssShem => a.status.rss_shem <= b.status.rss_shem,
        ProcessUiColumn::RssProc => total_order_key_exec(a.status.rss_proc_bits)
            <= total_order_key_exec(b.status.rss_proc_bits),
        ProcessUiColumn::CpuUsage => total_order_key_exec(a.status.cpu_usage_bits)
            <= total_order_key_exec(b.status.cpu_usage_bits),
        ProcessUiColumn::Uptime => a.status.uptime <= b.status.uptime,
        ProcessUiColumn::Command => {
            let x = to_chars(a.command.as_str());
            let y = to_chars(b.command.as_str());
            chars_le_exec(&x, &y)
        },
    }
}

/// `x` put into the ascending sequence `s` after every row that may come before it.
pub open spec fn insert_sorted(col: ProcessUiColumn, s: Seq<ProcessInfo>, x: ProcessInfo) -> Seq<
    ProcessInfo,
>
    decreases s.len(),
{
    if s.len() == 0 {
        seq![x]
    } else if key_le(col, s.last(), x) {
        s.push(x)
    } else {
        insert_sorted(col, s.drop_last(), x).push(s.last())
    }
}

/// The stable ascending sort of `s` by `col` (`slice::sort_by_key`): rows
/// whose keys are equal keep their relative order.
pub open spec fn stable_sort(col: ProcessUiColumn, s: Seq<ProcessInfo>) -> Seq<ProcessInfo>
    decreases s.len(),
{
    if s.len() == 0 {
        s
    } else {
        insert_sorted(col, stable_sort(col, s.drop_last()), s.last())
    }
}

/// The rows `s` sorted as `settings` asks: the stable ascending sort,
/// reversed for a descending order.
pub open spec fn sorted_rows(settings: TableOrderSettings, s: Seq<ProcessInfo>) -> Seq<ProcessInfo> {
    let a = stable_sort(settings.order_by_field, s);
    if settings.order == SortOrder::Descending {
        a.reverse()
    } else {
        a
    }
}

proof fn lemma_insert_at(col: ProcessUiColumn, r: Seq<ProcessInfo>, x: ProcessInfo, pos: int)
    requires
        0 <= pos <= r.len(),
        pos == 0 || key_le(col, r[pos - 1], x),
        forall|j: int| pos <= j < r.len() ==> !key_le(col, #[trigger] r[j], x),
    ensures
        insert_sorted(col, r, x) == r.insert(pos, x),
    decreases r.len(),
{
    if r.len() == pos {
        if r.len() == 0 {
            assert(r.insert(pos, x) =~= seq![x]);
        } else {
            assert(r.insert(pos, x) =~= r.push(x));
        }
    } else {
        assert(!key_le(col, r[r.len() - 1], x));
        lemma_insert_at(col, r.drop_last(), x, pos);
        assert(r.drop_last().insert(pos, x).push(r.last()) =~= r.insert(pos, x));
    }
}

/// Moves `x` into the ascending rows `out` (see `insert_sorted`).
fn insert_row(col: ProcessUiColumn, out: &mut Vec<ProcessInfo>, x: ProcessInfo)
    ensures
        final(out)@ == insert_sorted(col, old(out)@, x),
{
    let mut pos = out.len();
    while pos > 0 && !key_le_exec(col, &out[pos - 1], &x)
        invariant
            pos <= out@.len(),
            forall|j: int| pos <= j < out@.len() ==> !key_le(col, #[trigger] out@[j], x),
        decreases pos,
    {
        pos = pos - 1;
    }
    proof {
        lemma_insert_at(col, out@, x, pos as int);
    }
    out.insert(pos, x);
}

/// The rows of `v` in the stable ascending order of `col`.
pub fn stable_sort_rows(col: ProcessUiColumn, v: Vec<ProcessInfo>) -> (r: Vec<ProcessInfo>)
    ensures
        r@ == stable_sort(col, v@),
{
    let ghost s = v@;
    let mut stack = v;
    let mut pending: Vec<ProcessInfo> = Vec::new();
    while stack.len() > 0
        invariant
            stack@.len() <= s.len(),
            stack@ == s.take(stack@.len() as int),
            pending@ == s.skip(stack@.len() as int).reverse(),
        decreases stack@.len(),
    {
        let ghost m = stack@.len();
        match stack.pop() {
            Some(x) => {
                pending.push(x);
                assert(stack@ =~= s.take(m - 1));
                assert(pending@ =~= s.skip(m - 1).reverse());
            },
            None => {},
        }
    }
    assert(s.skip(0) =~= s);
    let mut out: Vec<ProcessInfo> = Vec::new();
    let ghost mut k: int = 0;
    assert(s.take(0) =~= Seq::<ProcessInfo>::empty());
    while pending.len() > 0
        invariant
            0 <= k <= s.len(),
            pending@.len() == s.len() - k,
            pending@ == s.skip(k).reverse(),
            out@ == stable_sort(col, s.take(k)),
        decreases pending@.len(),
    {
        match pending.pop() {
            Some(x) => {
                assert(x == s[k]);
                assert(s.take(k + 1).drop_last() =~= s.take(k));
                insert_row(col, &mut out, x);
                proof {
                    k = k + 1;
                }
                assert(pending@ =~= s.skip(k).reverse());
            },
            None => {},
        }
    }
    assert(s.take(k) =~= s);
    out
}

/// The rows of `v` in reverse order.
pub fn reverse_rows(v: Vec<ProcessInfo>) -> (r: Vec<ProcessInfo>)
    ensures
        r@ == v@.reverse(),
{
    let ghost s = v@;
    let mut stack = v;
    let mut out: Vec<ProcessInfo> = Vec::new();
    while stack.len() > 0
        invariant
            stack@.len() <= s.len(),
            stack@ == s.take(stack@.len() as int),
            out@ == s.skip(stack@.len() as int).reverse(),
        decreases stack@.len(),
    {
        let ghost m = stack@.len();
        match stack.pop() {
            Some(x) => {
                out.push(x);
                assert(stack@ =~= s.take(m - 1));
                assert(out@ =~= s.skip(m - 1).reverse());
            },
            None => {},
        }
    }
    assert(s.skip(0) =~= s);
    out
}

/// The rows of `v` sorted as `settings` asks.
pub fn sort_rows(settings: TableOrderSettings, v: Vec<ProcessInfo>) -> (r: Vec<ProcessInfo>)
    ensures
        r@ == sorted_rows(settings, v@),
{
    let a = stable_sort_rows(settings.order_by_field, v);
    if settings.order == SortOrder::Descending {
        reverse_rows(a)
    } else {
        a
    }
}

// ---------------------------------------------------------------------------
// The tree view
// ---------------------------------------------------------------------------
/// The pids of the rows whose parent is `p`, in row order.
pub open spec fn children(s: Seq<ProcessInfo>, p: u64) -> Seq<u64>
    decreases s.len(),
{
    if s.len() == 0 {
        seq![]
    } else {
        let rest = children(s.drop_last(), p);
        if s.last().parent_pid == Some(p) {
            rest.push(s.last().pid)
        } else {
            rest
        }
    }
}

/// `m` maps each pid that is the parent of some row to the pids of its
/// children, in row order (and holds no other pid).
pub open spec fn is_parent_map(m: Map<u64, Vec<u64>>, s: Seq<ProcessInfo>) -> bool {
    &&& forall|p: u64| #[trigger]
        m.contains_key(p) ==> m[p]@ == children(s, p) && children(s, p).len() > 0
    &&& forall|p: u64| #[trigger] children(s, p).len() > 0 ==> m.contains_key(p)
}

/// Maps each parent pid to the pids of its children, in row order.
pub fn get_ppid_to_pid_map(proc_info: &Vec<ProcessInfo>) -> (r: BTreeMap<u64, Vec<u64>>)
    ensures
        is_parent_map(r@, proc_info@),
{
    let ghost s = proc_info@;
    let mut m: BTreeMap<u64, Vec<u64>> = BTreeMap::new();
    let mut k: usize = 0;
    assert forall|p: u64| #[trigger] children(s.take(0), p).len() == 0 by {
        assert(s.take(0).len() == 0);
    }
    while k < proc_info.len()
        invariant
            k <= s.len(),
            s == proc_info@,
            is_parent_map(m@, s.take(k as int)),
        decreases proc_info.len() - k,
    {
        let ghost before = m@;
        let ghost pre = s.take(k as int);
        let ghost post = s.take(k + 1);
        assert(post.drop_last() =~= pre);
        assert(post.last() == proc_info@[k as int]);
        let elem = &proc_info[k];
        match elem.parent_pid {
            Some(ppid) => {
                match m.remove(&ppid) {
                    Some(mut v) => {
                        v.push(elem.pid);
                        m.insert(ppid, v);
                    },
                    None => {
                        let mut v: Vec<u64> = Vec::new();
                        v.push(elem.pid);
                        m.insert(ppid, v);
                    },
                }
                assert forall|p: u64| #[trigger] m@.contains_key(p) implies m@[p]@ == children(
                    post,
                    p,
                ) && children(post, p).len() > 0 by {
                    assert(children(post, p) == if post.last().parent_pid == Some(p) {
                        children(pre, p).push(post.last().pid)
                    } else {
                        children(pre, p)
                    });
                    if p != ppid {
                        assert(before.contains_key(p));
                    }
                }
                assert forall|p: u64| #[trigger] children(post, p).len() > 0 implies m@.contains_key(
                    p,
                ) by {
                    assert(children(post, p) == if post.last().parent_pid == Some(p) {
                        children(pre, p).push(post.last().pid)
                    } else {
                        children(pre, p)
                    });
                    if p != ppid {
                        assert(children(pre, p).len() > 0);
                    }
                }
            },
            None => {
                assert forall|p: u64| #[trigger] children(post, p) == children(pre, p) by {}
            },
        }
        k = k + 1;
    }
    assert(s.take(s.len() as int) =~= s);
    m
}

/// The pids below `cs` (each followed by its own descendants, depth first),
/// with their depths, `depth` being that of the pids in `cs`. `None` when the
/// descent goes deeper than `fuel` levels, which parent links that loop make
/// happen for any `fuel`.
pub open spec fn forest(s: Seq<ProcessInfo>, cs: Seq<u64>, depth: nat, fuel: nat) -> Option<
    Seq<(u64, u64)>,
>
    decreases fuel, cs.len(),
{
    if cs.len() == 0 {
        Some(seq![])
    } else if fuel == 0 {
        None
    } else {
        match forest(s, children(s, cs[0]), depth + 1, (fuel - 1) as nat) {
            None => None,
            Some(sub) => match forest(s, cs.drop_first(), depth, fuel) {
                None => None,
                Some(rest) => Some(seq![(cs[0], depth as u64)] + sub + rest),
            },
        }
    }
}

pub open spec fn prepend_some<T>(x: Seq<T>, o: Option<Seq<T>>) -> Option<Seq<T>> {
    match o {
        Some(y) => Some(x + y),
        None => None,
    }
}

/// The visiting order of the tree view: pid 1 at depth 0, then its
/// descendants. There can be no deeper level than there are rows unless
/// the parent links loop; `None` then.
pub open spec fn tree_order(s: Seq<ProcessInfo>) -> Option<Seq<(u64, u64)>> {
    prepend_some(seq![(1u64, 0u64)], forest(s, children(s, 1), 1, s.len()))
}

/// Appends to `order_vec` the descendants of `pid` (see `forest`), `pid`
/// being at depth `current_depth`; false when they go deeper than `fuel` levels.
fn add_descentants(
    pid: u64,
    hierarchy: &BTreeMap<u64, Vec<u64>>,
    order_vec: &mut Vec<(u64, u64)>,
    current_depth: usize,
    fuel: usize,
    Ghost(s): Ghost<Seq<ProcessInfo>>,
) -> (ok: bool)
    requires
        is_parent_map(hierarchy@, s),
        current_depth + fuel <= usize::MAX,
    ensures
        match forest(s, children(s, pid), (current_depth + 1) as nat, fuel as nat) {
            Some(f) => ok && final(order_vec)@ == old(order_vec)@ + f,
            None => !ok,
        },
    decreases fuel,
{
    let ghost d = (current_depth + 1) as nat;
    match hierarchy.get(&pid) {
        None => {
            assert(!hierarchy@.contains_key(pid));
            assert(children(s, pid).len() == 0);
            assert(order_vec@ =~= old(order_vec)@ + Seq::<(u64, u64)>::empty());
            true
        },
        Some(cs) => {
            assert(cs@ == children(s, pid));
            let mut i: usize = 0;
            let ghost mut acc: Seq<(u64, u64)> = seq![];
            assert(cs@.skip(0) =~= cs@);
            assert(acc + Seq::<(u64, u64)>::empty() =~= acc);
            while i < cs.len()
                invariant
                    i <= cs@.len(),
                    cs@ == children(s, pid),
                    d == current_depth + 1,
                    current_depth + fuel <= usize::MAX,
                    is_parent_map(hierarchy@, s),
                    order_vec@ == old(order_vec)@ + acc,
                    forest(s, cs@, d, fuel as nat) == prepend_some(
                        acc,
                        forest(s, cs@.skip(i as int), d, fuel as nat),
                    ),
                decreases cs.len() - i,
            {
                let ghost rest = cs@.skip(i as int);
                assert(rest.drop_first() =~= cs@.skip(i + 1));
                if fuel == 0 {
                    return false;
                }
                let child = cs[i];
                let depth = current_depth + 1;
                order_vec.push((child, depth as u64));
                let ghost mid = order_vec@;
                if !add_descentants(child, hierarchy, order_vec, depth, fuel - 1, Ghost(s)) {
                    return false;
                }
                proof {
                    let sub = forest(s, children(s, child), d + 1, (fuel - 1) as nat)->Some_0;
                    assert(order_vec@ == mid + sub);
                    assert(seq![(child, depth as u64)] + sub + Seq::<(u64, u64)>::empty()
                        =~= seq![(child, depth as u64)] + sub);
                    let tail = forest(s, cs@.skip(i + 1), d, fuel as nat);
                    match tail {
                        Some(t) => {
                            assert(acc + (seq![(child, depth as u64)] + sub + t) =~= (acc + seq![
                                (child, depth as u64),
                            ] + sub) + t);
                        },
                        None => {},
                    }
                    acc = acc + seq![(child, depth as u64)] + sub;
                    assert(order_vec@ =~= old(order_vec)@ + acc);
                }
                i = i + 1;
            }
            assert(cs@.skip(cs@.len() as int) =~= Seq::<u64>::empty());
            assert(acc + Seq::<(u64, u64)>::empty() =~= acc);
            true
        },
    }
}

/// The position of the last row of `s` with pid `pid`.
pub open spec fn last_index(s: Seq<ProcessInfo>, pid: u64) -> Option<int>
    decreases s.len(),
{
    if s.len() == 0 {
        None
    } else if s.last().pid == pid {
        Some(s.len() - 1)
    } else {
        last_index(s.drop_last(), pid)
    }
}

/// The depth that `order` gives `pid` last.
pub open spec fn last_depth(order: Seq<(u64, u64)>, pid: u64) -> Option<u64>
    decreases order.len(),
{
    if order.len() == 0 {
        None
    } else if order.last().0 == pid {
        Some(order.last().1)
    } else {
        last_depth(order.drop_last(), pid)
    }
}

pub open spec fn with_level(p: ProcessInfo, lvl: u64) -> ProcessInfo {
    ProcessInfo { pid_lvl: lvl, ..p }
}

/// The rows for the pids of `visit`, in that order: for each pid, the last
/// row with that pid, at the last depth `order` gives it; pids without a row
/// are left out.
pub open spec fn tree_rows(s: Seq<ProcessInfo>, order: Seq<(u64, u64)>, visit: Seq<(u64, u64)>) -> Seq<
    ProcessInfo,
>
    decreases visit.len(),
{
    if visit.len() == 0 {
        seq![]
    } else {
        let rest = tree_rows(s, order, visit.drop_last());
        let pid = visit.last().0;
        match (last_index(s, pid), last_depth(order, pid)) {
            (Some(i), Some(d)) => rest.push(with_level(s[i], d)),
            _ => rest,
        }
    }
}

/// The rows of the tree view of the (sorted) rows `s`: pid 1 and its
/// descendants, depth first, each child list in the order of `s`.
pub open spec fn tree_view(s: Seq<ProcessInfo>) -> Option<Seq<ProcessInfo>> {
    match tree_order(s) {
        Some(o) => Some(tree_rows(s, o, o)),
        None => None,
    }
}

/// The rows shown for the rows `s`: sorted as `settings` asks, then, for the
/// tree view, arranged below pid 1 (`None` when the parent links loop).
pub open spec fn display_rows(
    kind: ProcessDisplayKind,
    settings: TableOrderSettings,
    s: Seq<ProcessInfo>,
) -> Option<Seq<ProcessInfo>> {
    match kind {
        ProcessDisplayKind::List => Some(sorted_rows(settings, s)),
        ProcessDisplayKind::Tree => tree_view(sorted_rows(settings, s)),
    }
}

fn find_last_index(rows: &Vec<ProcessInfo>, pid: u64) -> (r: Option<usize>)
    ensures
        match r {
            Some(j) => last_index(rows@, pid) == Some(j as int) && j < rows@.len(),
            None => last_index(rows@, pid) is None,
        },
{
    let mut j = rows.len();
    assert(rows@.take(j as int) =~= rows@);
    while j > 0
        invariant
            j <= rows@.len(),
            last_index(rows@, pid) == last_index(rows@.take(j as int), pid),
        decreases j,
    {
        assert(rows@.take(j as int).drop_last() =~= rows@.take(j - 1));
        if rows[j - 1].pid == pid {
            return Some(j - 1);
        }
        j = j - 1;
    }
    None
}

proof fn lemma_last_index_bounds(s: Seq<ProcessInfo>, pid: u64)
    ensures
        last_index(s, pid) matches Some(i) ==> 0 <= i < s.len() && s[i].pid == pid,
    decreases s.len(),
{
    if s.len() > 0 && s.last().pid != pid {
        lemma_last_index_bounds(s.drop_last(), pid);
    }
}

fn find_last_depth(order: &Vec<(u64, u64)>, pid: u64) -> (r: Option<u64>)
    ensures
        r == last_depth(order@, pid),
{
    let mut j = order.len();
    assert(order@.take(j as int) =~= order@);
    while j > 0
        invariant
            j <= order@.len(),
            last_depth(order@, pid) == last_depth(order@.take(j as int), pid),
        decreases j,
    {
        assert(order@.take(j as int).drop_last() =~= order@.take(j - 1));
        let (p, d) = order[j - 1];
        if p == pid {
            return Some(d);
        }
        j = j - 1;
    }
    None
}

/// The rows of the tree view of the rows `sorted`, whose visiting order is `order`.
fn build_tree_rows(sorted: &Vec<ProcessInfo>, order: &Vec<(u64, u64)>) -> (r: Vec<ProcessInfo>)
    ensures
        r@ == tree_rows(sorted@, order@, order@),
{
    let mut out: Vec<ProcessInfo> = Vec::new();
    let mut k: usize = 0;
    assert(order@.take(0) =~= Seq::<(u64, u64)>::empty());
    while k < order.len()
        invariant
            k <= order@.len(),
            out@ == tree_rows(sorted@, order@, order@.take(k as int)),
        decreases order.len() - k,
    {
        assert(order@.take(k + 1).drop_last() =~= order@.take(k as int));
        let pid = order[k].0;
        proof {
            lemma_last_index_bounds(sorted@, pid);
        }
        match (find_last_index(sorted, pid), find_last_depth(order, pid)) {
            (Some(i), Some(d)) => {
                let mut row = sorted[i].duplicate();
                row.pid_lvl = d;
                assert(row == with_level(sorted@[i as int], d));
                assert(last_index(sorted@, pid) == Some(i as int));
                out.push(row);
            },
            _ => {
                assert(!(last_index(sorted@, pid) is Some && last_depth(order@, pid) is Some));
            },
        }
        k = k + 1;
    }
    assert(order@.take(order@.len() as int) =~= order@);
    out
}

/// The rows shown for `rows` (see `display_rows`), or `None` when the tree
/// view is asked for and the parent links loop.
pub fn arrange_rows(
    kind: ProcessDisplayKind,
    settings: TableOrderSettings,
    rows: Vec<ProcessInfo>,
) -> (r: Result<Vec<ProcessInfo>, Vec<ProcessInfo>>)
    ensures
        match display_rows(kind, settings, rows@) {
            Some(d) => r matches Ok(v) && v@ == d,
            None => r matches Err(v) && v@ == sorted_rows(settings, rows@),
        },
{
    let sorted = sort_rows(settings, rows);
    match kind {
        ProcessDisplayKind::List => Ok(sorted),
        ProcessDisplayKind::Tree => {
            let ppid_to_pid_map = get_ppid_to_pid_map(&sorted);
            let mut correct_pid_order: Vec<(u64, u64)> = Vec::new();
            correct_pid_order.push((1, 0));
            let n = sorted.len();
            let ok = add_descentants(
                1,
                &ppid_to_pid_map,
                &mut correct_pid_order,
                0,
                n,
                Ghost(sorted@),
            );
            if !ok {
                return Err(sorted);
            }
            assert(correct_pid_order@ =~= seq![(1u64, 0u64)] + forest(
                sorted@,
                children(sorted@, 1),
                1,
                n as nat,
            )->Some_0);
            Ok(build_tree_rows(&sorted, &correct_pid_order))
        },
    }
}

} // verus!

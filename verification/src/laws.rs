//! Properties of the library that span several calls or hold of every input.
use vstd::prelude::*;

use crate::app::{
    first_pid_index, history_after_sample, key_reaction, shown, shown_rows, table_selected,
    table_selected_column, toggled, watch_requested, App, CurrentScreen, InputMode, Key, KeyAction,
    HISTORY_LEN,
};
use crate::labels::{decimal, digit_char};
use crate::models::{ring_push, CpuUsageState, ProcessCpuTime, ProcessHistory, ProcessInfo};
use crate::ordering::{
    insert_sorted, key_le, last_depth, last_index, sorted_rows, stable_sort, total_order_key,
    tree_rows, with_level, ProcessDisplayKind,
    ProcessUiColumn, SortOrder, TableOrderSettings,
};
use crate::parser::{cpu_time_recorded, stat_cpu_times, stat_fold, tick_deltas};
use crate::search::matching_rows;
use crate::text::{
    chars_le, contains, digit_value, is_digit, parse_digits, parse_u64, IntParseError,
};

verus! {

// ---------------------------------------------------------------------------
// History buffers
// ---------------------------------------------------------------------------
/// What a buffer holds after `items` are pushed onto `buf` one after the other.
pub open spec fn ring_push_all<T>(buf: Seq<T>, capacity: nat, items: Seq<T>) -> Seq<T>
    decreases items.len(),
{
    if items.len() == 0 {
        buf
    } else {
        ring_push(ring_push_all(buf, capacity, items.drop_last()), capacity, items.last())
    }
}

/// A pushed item is the first one of the buffer, and a buffer that held at
/// most `capacity > 0` items still does.
pub proof fn law_push_front_and_bounded<T>(buf: Seq<T>, capacity: nat, item: T)
    requires
        capacity > 0,
        buf.len() <= capacity,
    ensures
        ring_push(buf, capacity, item)[0] == item,
        ring_push(buf, capacity, item).len() <= capacity,
{
}

/// A buffer of capacity `capacity > 0` that starts empty holds, after any
/// number of pushes, the last `capacity` items pushed (all of them when there
/// were fewer), the most recent first.
pub proof fn law_ring_keeps_most_recent<T>(capacity: nat, items: Seq<T>)
    requires
        capacity > 0,
    ensures
        ring_push_all(Seq::<T>::empty(), capacity, items) == items.reverse().take(
            if items.len() < capacity {
                items.len() as int
            } else {
                capacity as int
            },
        ),
    decreases items.len(),
{
    if items.len() > 0 {
        let prev = items.drop_last();
        law_ring_keeps_most_recent(capacity, prev);
        let before = ring_push_all(Seq::<T>::empty(), capacity, prev);
        let n = items.len();
        assert(items.reverse() =~= seq![items.last()] + prev.reverse());
        if prev.len() < capacity {
            assert(before =~= prev.reverse());
            assert(ring_push(before, capacity, items.last()) =~= seq![items.last()] + prev.reverse());
            assert(items.reverse().take(n as int) =~= items.reverse());
        } else {
            assert(before.len() == capacity);
            assert(before =~= prev.reverse().take(capacity as int));
            assert(ring_push(before, capacity, items.last()) =~= items.reverse().take(
                capacity as int,
            ));
        }
    }
}

// ---------------------------------------------------------------------------
// CPU time of a process
// ---------------------------------------------------------------------------
/// Two readings of the same process in a row: the second gives the ticks
/// spent since the first (a counter that went back counts as 0).
pub proof fn law_cpu_time_since_previous_reading(
    pid: i32,
    first: Seq<char>,
    second: Seq<char>,
    m0: Map<i32, ProcessCpuTime>,
    m1: Map<i32, ProcessCpuTime>,
    m2: Map<i32, ProcessCpuTime>,
    r1: Option<(u64, u64)>,
    r2: Option<(u64, u64)>,
)
    requires
        cpu_time_recorded(pid, first, m0, m1, r1),
        cpu_time_recorded(pid, second, m1, m2, r2),
        stat_cpu_times(first) is Some,
        stat_cpu_times(second) is Some,
    ensures
        r2 == Some(tick_deltas(stat_cpu_times(second)->Some_0, stat_cpu_times(first)->Some_0)),
        m2[pid] == stat_cpu_times(second)->Some_0,
{
}

/// The first reading of a process gives no ticks.
pub proof fn law_first_reading_gives_nothing(
    pid: i32,
    input: Seq<char>,
    m0: Map<i32, ProcessCpuTime>,
    m1: Map<i32, ProcessCpuTime>,
    r: Option<(u64, u64)>,
)
    requires
        cpu_time_recorded(pid, input, m0, m1, r),
        !m0.contains_key(pid),
    ensures
        r is None,
{
}

// ---------------------------------------------------------------------------
// Numbers
// ---------------------------------------------------------------------------
proof fn lemma_digit_char(d: nat)
    requires
        d < 10,
    ensures
        is_digit(digit_char(d)),
        digit_value(digit_char(d)) == d,
{
}

proof fn lemma_decimal_then(n: nat, t: Seq<char>)
    requires
        n <= u64::MAX,
    ensures
        parse_digits(decimal(n) + t, 0) == parse_digits(t, n),
        decimal(n).len() > 0,
        is_digit(decimal(n)[0]),
    decreases n,
{
    if n < 10 {
        lemma_digit_char(n);
        assert((decimal(n) + t).drop_first() =~= t);
    } else {
        lemma_digit_char(n % 10);
        let rest = seq![digit_char(n % 10)] + t;
        assert(decimal(n) + t =~= decimal(n / 10) + rest);
        lemma_decimal_then(n / 10, rest);
        assert(rest.drop_first() =~= t);
        assert((n / 10) * 10 + n % 10 == n);
    }
}

/// A number written in decimal reads back as itself.
pub proof fn law_decimal_reads_back(n: u64)
    ensures
        parse_u64(decimal(n as nat)) == Ok::<u64, IntParseError>(n),
{
    lemma_decimal_then(n as nat, Seq::<char>::empty());
    assert(decimal(n as nat) + Seq::<char>::empty() =~= decimal(n as nat));
    assert(decimal(n as nat)[0] != '+' && decimal(n as nat)[0] != '-');
}

// ---------------------------------------------------------------------------
// Sorting
// ---------------------------------------------------------------------------
proof fn lemma_chars_le_total(a: Seq<char>, b: Seq<char>)
    ensures
        chars_le(a, b) || chars_le(b, a),
    decreases a.len(),
{
    if a.len() > 0 && b.len() > 0 {
        if a[0] == b[0] {
            lemma_chars_le_total(a.drop_first(), b.drop_first());
        } else {
            vstd::utf8::char_u32_cast(a[0], a[0] as u32);
            vstd::utf8::char_u32_cast(b[0], b[0] as u32);
        }
    }
}

proof fn lemma_chars_le_transitive(a: Seq<char>, b: Seq<char>, c: Seq<char>)
    requires
        chars_le(a, b),
        chars_le(b, c),
    ensures
        chars_le(a, c),
    decreases a.len(),
{
    if a.len() > 0 && b.len() > 0 && c.len() > 0 {
        vstd::utf8::char_u32_cast(a[0], a[0] as u32);
        vstd::utf8::char_u32_cast(b[0], b[0] as u32);
        vstd::utf8::char_u32_cast(c[0], c[0] as u32);
        if a[0] == b[0] && b[0] == c[0] {
            lemma_chars_le_transitive(a.drop_first(), b.drop_first(), c.drop_first());
        }
    }
}

/// Rows can always be compared by a column: one of two may come first.
pub proof fn law_key_total(col: ProcessUiColumn, a: ProcessInfo, b: ProcessInfo)
    ensures
        key_le(col, a, b) || key_le(col, b, a),
{
    if col == ProcessUiColumn::Command {
        lemma_chars_le_total(a.command@, b.command@);
    }
}

/// The order of rows by a column is transitive.
pub proof fn law_key_transitive(col: ProcessUiColumn, a: ProcessInfo, b: ProcessInfo, c: ProcessInfo)
    requires
        key_le(col, a, b),
        key_le(col, b, c),
    ensures
        key_le(col, a, c),
{
    if col == ProcessUiColumn::Command {
        lemma_chars_le_transitive(a.command@, b.command@, c.command@);
    }
}

/// Rows sorted by `col`: each may come before every later one.
pub open spec fn is_sorted_by(col: ProcessUiColumn, s: Seq<ProcessInfo>) -> bool {
    forall|i: int, j: int| 0 <= i < j < s.len() ==> key_le(col, #[trigger] s[i], #[trigger] s[j])
}

proof fn lemma_insert_facts(col: ProcessUiColumn, r: Seq<ProcessInfo>, x: ProcessInfo)
    ensures
        insert_sorted(col, r, x).to_multiset() == r.to_multiset().insert(x),
        insert_sorted(col, r, x).len() == r.len() + 1,
        forall|y: ProcessInfo|
            (forall|i: int| 0 <= i < r.len() ==> key_le(col, #[trigger] r[i], y)) && key_le(col, x, y)
                ==> forall|k: int|
                0 <= k < insert_sorted(col, r, x).len() ==> key_le(
                    col,
                    #[trigger] insert_sorted(col, r, x)[k],
                    y,
                ),
    decreases r.len(),
{
    broadcast use vstd::seq_lib::group_to_multiset_ensures;

    if r.len() > 0 && !key_le(col, r.last(), x) {
        let rest = r.drop_last();
        lemma_insert_facts(col, rest, x);
        assert(r =~= rest.push(r.last()));
        assert(insert_sorted(col, r, x).to_multiset() =~= r.to_multiset().insert(x));
        assert forall|y: ProcessInfo|
            (forall|i: int| 0 <= i < r.len() ==> key_le(col, #[trigger] r[i], y)) && key_le(col, x, y)
                implies forall|k: int|
            0 <= k < insert_sorted(col, r, x).len() ==> key_le(
                col,
                #[trigger] insert_sorted(col, r, x)[k],
                y,
            ) by {
            assert forall|i: int| 0 <= i < rest.len() implies key_le(col, #[trigger] rest[i], y) by {
                assert(rest[i] == r[i]);
            }
            assert(key_le(col, r[r.len() - 1], y));
        }
    } else if r.len() > 0 {
        assert(insert_sorted(col, r, x).to_multiset() =~= r.to_multiset().insert(x));
    } else {
        assert(seq![x] =~= Seq::<ProcessInfo>::empty().push(x));
    }
}

proof fn lemma_insert_sorted_is_sorted(col: ProcessUiColumn, r: Seq<ProcessInfo>, x: ProcessInfo)
    requires
        is_sorted_by(col, r),
    ensures
        is_sorted_by(col, insert_sorted(col, r, x)),
    decreases r.len(),
{
    let res = insert_sorted(col, r, x);
    if r.len() == 0 {
    } else if key_le(col, r.last(), x) {
        assert forall|i: int, j: int| 0 <= i < j < res.len() implies key_le(
            col,
            #[trigger] res[i],
            #[trigger] res[j],
        ) by {
            if j == r.len() {
                if i < r.len() - 1 {
                    law_key_transitive(col, r[i], r.last(), x);
                }
            }
        }
    } else {
        let rest = r.drop_last();
        let last = r.last();
        assert(is_sorted_by(col, rest));
        lemma_insert_sorted_is_sorted(col, rest, x);
        lemma_insert_facts(col, rest, x);
        law_key_total(col, last, x);
        assert forall|i: int| 0 <= i < rest.len() implies key_le(col, #[trigger] rest[i], last) by {
            assert(rest[i] == r[i]);
        }
        let inner = insert_sorted(col, rest, x);
        assert forall|i: int, j: int| 0 <= i < j < res.len() implies key_le(
            col,
            #[trigger] res[i],
            #[trigger] res[j],
        ) by {
            if j == inner.len() {
                assert(res[i] == inner[i]);
                assert(key_le(col, inner[i], last));
            } else {
                assert(res[i] == inner[i]);
                assert(res[j] == inner[j]);
            }
        }
    }
}

/// Sorting by a column gives the same rows, each of which may come before
/// every later one.
pub proof fn law_sort_sorted_permutation(col: ProcessUiColumn, s: Seq<ProcessInfo>)
    ensures
        is_sorted_by(col, stable_sort(col, s)),
        stable_sort(col, s).to_multiset() == s.to_multiset(),
    decreases s.len(),
{
    broadcast use vstd::seq_lib::group_to_multiset_ensures;

    if s.len() > 0 {
        law_sort_sorted_permutation(col, s.drop_last());
        lemma_insert_sorted_is_sorted(col, stable_sort(col, s.drop_last()), s.last());
        lemma_insert_facts(col, stable_sort(col, s.drop_last()), s.last());
        assert(s =~= s.drop_last().push(s.last()));
    }
}

/// Rows `a` and `b` have the same key for `col`: each may come before the other.
pub open spec fn same_key(col: ProcessUiColumn, a: ProcessInfo, b: ProcessInfo) -> bool {
    key_le(col, a, b) && key_le(col, b, a)
}

/// The test for rows whose key for `col` is that of `k`.
pub open spec fn ties_with(col: ProcessUiColumn, k: ProcessInfo) -> spec_fn(ProcessInfo) -> bool {
    |y: ProcessInfo| same_key(col, y, k)
}

proof fn lemma_insert_keeps_ties(col: ProcessUiColumn, r: Seq<ProcessInfo>, x: ProcessInfo, k: ProcessInfo)
    ensures
        insert_sorted(col, r, x).filter(ties_with(col, k)) == if same_key(col, x, k) {
            r.filter(ties_with(col, k)).push(x)
        } else {
            r.filter(ties_with(col, k))
        },
    decreases r.len(),
{
    let p = ties_with(col, k);
    if r.len() == 0 {
        Seq::<ProcessInfo>::empty().lemma_filter_push(x, p);
        assert(seq![x] =~= Seq::<ProcessInfo>::empty().push(x));
    } else if key_le(col, r.last(), x) {
        r.lemma_filter_push(x, p);
    } else {
        let rest = r.drop_last();
        let last = r.last();
        lemma_insert_keeps_ties(col, rest, x, k);
        insert_sorted(col, rest, x).lemma_filter_push(last, p);
        rest.lemma_filter_push(last, p);
        assert(r =~= rest.push(last));
        if same_key(col, x, k) && same_key(col, last, k) {
            law_key_transitive(col, last, k, x);
        }
    }
}

/// Sorting is stable: the rows that `col` cannot tell apart from `k` come
/// out in the order they went in.
pub proof fn law_sort_is_stable(col: ProcessUiColumn, s: Seq<ProcessInfo>, k: ProcessInfo)
    ensures
        stable_sort(col, s).filter(ties_with(col, k)) == s.filter(ties_with(col, k)),
    decreases s.len(),
{
    if s.len() > 0 {
        let rest = s.drop_last();
        law_sort_is_stable(col, rest, k);
        lemma_insert_keeps_ties(col, stable_sort(col, rest), s.last(), k);
        rest.lemma_filter_push(s.last(), ties_with(col, k));
        assert(s =~= rest.push(s.last()));
    }
}

// ---------------------------------------------------------------------------
// The tree view
// ---------------------------------------------------------------------------
/// Each row of the tree view is one of the rows, at some level.
pub proof fn law_tree_rows_are_rows(s: Seq<ProcessInfo>, order: Seq<(u64, u64)>, visit: Seq<(u64, u64)>)
    ensures
        forall|k: int|
            0 <= k < tree_rows(s, order, visit).len() ==> exists|i: int, lvl: u64|
                0 <= i < s.len() && #[trigger] tree_rows(s, order, visit)[k] == with_level(s[i], lvl),
    decreases visit.len(),
{
    let out = tree_rows(s, order, visit);
    if visit.len() > 0 {
        law_tree_rows_are_rows(s, order, visit.drop_last());
        let rest = tree_rows(s, order, visit.drop_last());
        let pid = visit.last().0;
        lemma_last_index_in(s, pid);
        assert forall|k: int| 0 <= k < out.len() implies exists|i: int, lvl: u64|
            0 <= i < s.len() && #[trigger] out[k] == with_level(s[i], lvl) by {
            if k < rest.len() {
                assert(out[k] == rest[k]);
            } else {
                let i = last_index(s, pid)->Some_0;
                let d = last_depth(order, pid)->Some_0;
                assert(out[k] == with_level(s[i], d));
            }
        }
    }
}

proof fn lemma_last_index_in(s: Seq<ProcessInfo>, pid: u64)
    ensures
        last_index(s, pid) matches Some(i) ==> 0 <= i < s.len(),
    decreases s.len(),
{
    if s.len() > 0 && s.last().pid != pid {
        lemma_last_index_in(s.drop_last(), pid);
    }
}

// ---------------------------------------------------------------------------
// CPU usage
// ---------------------------------------------------------------------------
/// A reading of `/proc/stat` forgets no CPU: every CPU recorded before is
/// still recorded after.
pub proof fn law_stat_keeps_every_cpu(cache: Map<Seq<char>, CpuUsageState>, ls: Seq<Seq<char>>)
    ensures
        cache.dom().subset_of(stat_fold(cache, ls).0.dom()),
    decreases ls.len(),
{
    if ls.len() > 0 {
        let t = crate::text::tokens(ls[0]);
        let name = t[0];
        law_stat_keeps_every_cpu(cache, ls.drop_first());
        let total = crate::parser::line_total(t);
        let work = total - crate::parser::line_idle(t);
        law_stat_keeps_every_cpu(
            cache.insert(name, CpuUsageState { work_time: work as u64, total_time: total as u64 }),
            ls.drop_first(),
        );
        law_stat_keeps_every_cpu(
            cache.insert(name, CpuUsageState { work_time: 0, total_time: 0 }),
            ls.drop_first(),
        );
    }
}

// ---------------------------------------------------------------------------
// Search
// ---------------------------------------------------------------------------
/// The matches of a search are exactly the rows whose command contains its
/// text, in order.
pub proof fn law_matches_exact(q: Seq<char>, rows: Seq<ProcessInfo>)
    requires
        rows.len() <= usize::MAX,
    ensures
        forall|k: int|
            0 <= k < matching_rows(q, rows).len() ==> #[trigger] matching_rows(q, rows)[k]
                < rows.len() && contains(rows[matching_rows(q, rows)[k] as int].command@, q),
        forall|j: int, k: int|
            0 <= j < k < matching_rows(q, rows).len() ==> #[trigger] matching_rows(q, rows)[j]
                < #[trigger] matching_rows(q, rows)[k],
        forall|i: int|
            0 <= i < rows.len() && contains(#[trigger] rows[i].command@, q) ==> matching_rows(
                q,
                rows,
            ).contains(i as usize),
    decreases rows.len(),
{
    if rows.len() > 0 {
        let prev = rows.drop_last();
        law_matches_exact(q, prev);
        let m = matching_rows(q, rows);
        let pm = matching_rows(q, prev);
        let hit = contains(rows.last().command@, q);
        assert(m == if hit { pm.push((rows.len() - 1) as usize) } else { pm });
        assert forall|k: int| 0 <= k < m.len() implies #[trigger] m[k] < rows.len() && contains(
            rows[m[k] as int].command@,
            q,
        ) by {
            if k < pm.len() {
                assert(m[k] == pm[k]);
                let idx = pm[k] as int;
                assert(contains(prev[idx].command@, q));
                assert(prev[idx] == rows[idx]);
            } else {
                assert(m[k] == (rows.len() - 1) as usize);
            }
        }
        assert forall|j: int, k: int| 0 <= j < k < m.len() implies #[trigger] m[j] < #[trigger] m[k] by {
            if k < pm.len() {
                assert(m[j] == pm[j] && m[k] == pm[k]);
            } else {
                assert(m[j] == pm[j]);
                assert(pm[j] < prev.len());
            }
        }
        assert forall|i: int| 0 <= i < rows.len() && contains(#[trigger] rows[i].command@, q) implies m.contains(
            i as usize,
        ) by {
            if i < prev.len() {
                assert(prev[i] == rows[i]);
                let k = choose|k: int| 0 <= k < pm.len() && pm[k] == i as usize;
                assert(m[k] == pm[k]);
            } else {
                assert(m[m.len() - 1] == i as usize);
            }
        }
    }
}

// ---------------------------------------------------------------------------
// Keys
// ---------------------------------------------------------------------------
/// While searching, moving down to the next match and back up returns to
/// the state one started from.
pub proof fn law_search_down_then_up(
    a: App,
    b: App,
    c: App,
    e1: bool,
    e2: bool,
    r1: KeyAction,
    r2: KeyAction,
)
    requires
        a.current_screen != CurrentScreen::WatchSaveFileConfirm,
        a.current_screen != CurrentScreen::WatchSaveFileProvidePath,
        a.current_input_mode == InputMode::EditingSearch,
        a.search_state.current_match_idx matches Some(i) && i + 1
            < a.search_state.matched_rows@.len(),
        key_reaction(a, Key::Down, e1, b, r1),
        key_reaction(b, Key::Up, e2, c, r2),
    ensures
        c == a,
        r1 == KeyAction::Nothing,
        r2 == KeyAction::Nothing,
{
    let i = a.search_state.current_match_idx.unwrap();
    assert(a.search_state.matched_rows.len() == a.search_state.matched_rows@.len());
    let next = (i + 1) as usize;
    assert(b.search_state.current_match_idx == Some(next));
    assert(b.current_input_mode == InputMode::EditingSearch);
    assert(b.current_screen == a.current_screen);
    assert(next > 0 && (next - 1) as usize == i);
    assert(c.search_state == a.search_state);
}

/// Escape leaves the filter or the search field for the normal input mode
/// (outside the save dialog).
pub proof fn law_escape_leaves_editing(a: App, b: App, e: bool, r: KeyAction)
    requires
        a.current_screen != CurrentScreen::WatchSaveFileConfirm,
        a.current_screen != CurrentScreen::WatchSaveFileProvidePath,
        key_reaction(a, Key::Esc, e, b, r),
    ensures
        a.current_screen == CurrentScreen::Main || a.current_input_mode != InputMode::Normal
            ==> b.current_input_mode == InputMode::Normal,
        b.current_screen == a.current_screen,
{
}

/// `q` quits from the normal input mode of any screen.
pub proof fn law_q_quits(a: App, b: App, e: bool, r: KeyAction)
    requires
        a.current_screen != CurrentScreen::WatchSaveFileConfirm,
        a.current_screen != CurrentScreen::WatchSaveFileProvidePath,
        a.current_input_mode == InputMode::Normal,
        key_reaction(a, Key::Char('q'), e, b, r),
    ensures
        b.exit,
{
}

/// Switching the view twice on the main screen comes back to the view one
/// started from.
pub proof fn law_toggle_view_twice(
    a: App,
    b: App,
    c: App,
    e1: bool,
    e2: bool,
    r1: KeyAction,
    r2: KeyAction,
)
    requires
        a.current_screen == CurrentScreen::Main,
        a.current_input_mode == InputMode::Normal,
        key_reaction(a, Key::Char('t'), e1, b, r1),
        key_reaction(b, Key::Char('t'), e2, c, r2),
    ensures
        c.process_display_kind == a.process_display_kind,
        b.process_display_kind != a.process_display_kind,
{
}

/// Asking twice to sort by the column the rows are sorted by comes back to
/// the order one started from; asking for another column sorts by it in
/// descending order.
pub proof fn law_sort_request_flips(settings: TableOrderSettings, col: ProcessUiColumn)
    ensures
        settings.order_by_field == col ==> toggled(toggled(settings, col), col) == settings,
        settings.order_by_field == col ==> toggled(settings, col).order != settings.order,
        settings.order_by_field != col ==> toggled(settings, col) == (TableOrderSettings {
            order_by_field: col,
            order: SortOrder::Descending,
        }),
{
}

} // verus!

verus! {

// ---------------------------------------------------------------------------
// What the table, the filter, watching and saving are for
// ---------------------------------------------------------------------------
/// Sorting orders the rows by the field of the chosen column: with the
/// ascending order each row's field is at most that of every later row, with
/// the descending order at least.
pub proof fn law_sort_orders_by_the_column(settings: TableOrderSettings, s: Seq<ProcessInfo>)
    ensures
        ({
            let r = sorted_rows(settings, s);
            forall|i: int, j: int|
                #![trigger r[i], r[j]]
                0 <= i < j < r.len() ==> {
                    let x = if settings.order == SortOrder::Ascending { r[i] } else { r[j] };
                    let y = if settings.order == SortOrder::Ascending { r[j] } else { r[i] };
                    match settings.order_by_field {
                        ProcessUiColumn::Pid => x.pid <= y.pid,
                        ProcessUiColumn::VmSize => x.status.vm_size <= y.status.vm_size,
                        ProcessUiColumn::VmRss => x.status.vm_rss <= y.status.vm_rss,
                        ProcessUiColumn::RssShem => x.status.rss_shem <= y.status.rss_shem,
                        ProcessUiColumn::RssProc => total_order_key(x.status.rss_proc_bits)
                            <= total_order_key(y.status.rss_proc_bits),
                        ProcessUiColumn::CpuUsage => total_order_key(x.status.cpu_usage_bits)
                            <= total_order_key(y.status.cpu_usage_bits),
                        ProcessUiColumn::Uptime => x.status.uptime <= y.status.uptime,
                        ProcessUiColumn::Command => chars_le(x.command@, y.command@),
                    }
                }
        }),
{
    let col = settings.order_by_field;
    let a = stable_sort(col, s);
    law_sort_sorted_permutation(col, s);
    let r = sorted_rows(settings, s);
    assert forall|i: int, j: int| #![trigger r[i], r[j]] 0 <= i < j < r.len() implies key_le(
        col,
        if settings.order == SortOrder::Ascending { r[i] } else { r[j] },
        if settings.order == SortOrder::Ascending { r[j] } else { r[i] },
    ) by {
        if settings.order == SortOrder::Ascending {
            assert(key_le(col, a[i], a[j]));
        } else {
            let n = a.len();
            assert(r[i] == a[n - 1 - i] && r[j] == a[n - 1 - j]);
            assert(key_le(col, a[n - 1 - j], a[n - 1 - i]));
        }
    }
}

/// The filter shows exactly the rows whose command has the filter text at
/// some position (every row when the filter is empty), in table order.
pub proof fn law_filter_shows_rows_containing_it(rows: Seq<ProcessInfo>, filter: Seq<char>)
    requires
        rows.len() <= usize::MAX,
    ensures
        forall|i: int|
            #![trigger rows[i]]
            0 <= i < rows.len() ==> (shown_rows(rows, filter).contains(i as usize) <==> (filter.len()
                == 0 || exists|k: int|
                0 <= k && k + filter.len() <= rows[i].command@.len() && #[trigger] rows[i].command@.subrange(
                    k,
                    k + filter.len(),
                ) == filter)),
        forall|k: int|
            0 <= k < shown_rows(rows, filter).len() ==> #[trigger] shown_rows(rows, filter)[k]
                < rows.len(),
        forall|j: int, k: int|
            0 <= j < k < shown_rows(rows, filter).len() ==> #[trigger] shown_rows(rows, filter)[j]
                < #[trigger] shown_rows(rows, filter)[k],
    decreases rows.len(),
{
    if rows.len() > 0 {
        let prev = rows.drop_last();
        law_filter_shows_rows_containing_it(prev, filter);
        let m = shown_rows(rows, filter);
        let pm = shown_rows(prev, filter);
        let last = (rows.len() - 1) as usize;
        assert(last as int == rows.len() - 1);
        assert(m == if shown(rows, filter, rows.len() - 1) { pm.push(last) } else { pm });
        assert forall|k: int| 0 <= k < m.len() implies #[trigger] m[k] < rows.len() by {
            if k < pm.len() {
                assert(m[k] == pm[k]);
            }
        }
        assert forall|j: int, k: int| 0 <= j < k < m.len() implies #[trigger] m[j] < #[trigger] m[k] by {
            assert(m[j] == pm[j]);
            if k < pm.len() {
                assert(m[k] == pm[k]);
            } else {
                assert(pm[j] < prev.len());
            }
        }
        assert forall|i: int|
            #![trigger rows[i]]
            0 <= i < rows.len() implies (m.contains(i as usize) <==> (filter.len() == 0 || exists|k: int|
                0 <= k && k + filter.len() <= rows[i].command@.len() && #[trigger] rows[i].command@.subrange(
                    k,
                    k + filter.len(),
                ) == filter)) by {
            if i < prev.len() {
                assert(prev[i] == rows[i]);
                if m.contains(i as usize) {
                    let k = choose|k: int| 0 <= k < m.len() && m[k] == i as usize;
                    if k < pm.len() {
                        assert(m[k] == pm[k]);
                    } else {
                        assert(m[k] == last);
                    }
                    assert(pm.contains(i as usize));
                }
                if pm.contains(i as usize) {
                    let k = choose|k: int| 0 <= k < pm.len() && pm[k] == i as usize;
                    assert(m[k] == pm[k]);
                }
            } else {
                if m.contains(i as usize) {
                    let k = choose|k: int| 0 <= k < m.len() && m[k] == i as usize;
                    if k < pm.len() {
                        assert(m[k] == pm[k]);
                        assert(false);
                    }
                }
                if shown(rows, filter, i) {
                    assert(m[m.len() - 1] == i as usize);
                }
            }
        }
    }
}

/// Asking to watch the selected row (a row and a column selected, the row
/// existing) watches that row's process with a new empty history of
/// `HISTORY_LEN` samples, unless that process is already watched, in which
/// case nothing changes.
pub proof fn law_watch_switches_to_the_selected_process(a: App, b: App, r: usize)
    requires
        watch_requested(a, b),
        table_selected(a.table_state) == Some(r),
        table_selected_column(a.table_state) is Some,
        r < a.proc_info@.len(),
    ensures
        (a.watched_pid_history matches Some(h) && h.pid == a.proc_info@[r as int].pid) ==> b == a,
        !(a.watched_pid_history matches Some(h) && h.pid == a.proc_info@[r as int].pid) ==> {
            &&& b.watched_pid == a.proc_info@[r as int].pid
            &&& b.watched_pid_history matches Some(h2) && h2.pid == a.proc_info@[r as int].pid
                && h2.history.buf@.len() == 0 && h2.history.capacity == HISTORY_LEN
            &&& b.proc_info == a.proc_info
            &&& b.current_screen == a.current_screen
        },
{
}

/// On the save confirmation, `y` and `Y` both ask to save the watched
/// history and go back to the watch screen, changing nothing else.
pub proof fn law_confirm_saves(a: App, b: App, key: Key, e: bool, r: KeyAction)
    requires
        a.current_screen == CurrentScreen::WatchSaveFileConfirm,
        key == Key::Char('y') || key == Key::Char('Y'),
        key_reaction(a, key, e, b, r),
    ensures
        r == KeyAction::SaveWatched,
        b.current_screen == CurrentScreen::Watch,
        b == (App { current_screen: CurrentScreen::Watch, ..a }),
{
}

/// On the save confirmation, `n` and `N` go back to choosing the file,
/// saving nothing.
pub proof fn law_confirm_declines(a: App, b: App, key: Key, e: bool, r: KeyAction)
    requires
        a.current_screen == CurrentScreen::WatchSaveFileConfirm,
        key == Key::Char('n') || key == Key::Char('N'),
        key_reaction(a, key, e, b, r),
    ensures
        r == KeyAction::Nothing,
        b == (App { current_screen: CurrentScreen::WatchSaveFileProvidePath, ..a }),
{
}

proof fn lemma_first_pid_index(rows: Seq<ProcessInfo>, pid: u64)
    ensures
        match first_pid_index(rows, pid) {
            Some(i) => 0 <= i < rows.len() && rows[i].pid == pid && forall|j: int|
                0 <= j < i ==> #[trigger] rows[j].pid != pid,
            None => forall|j: int| 0 <= j < rows.len() ==> #[trigger] rows[j].pid != pid,
        },
    decreases rows.len(),
{
    if rows.len() > 0 {
        let prev = rows.drop_last();
        lemma_first_pid_index(prev, pid);
        assert forall|j: int| 0 <= j < prev.len() implies prev[j] == rows[j] by {}
    }
}

/// A sample moves the history of the watched process on: when the sample
/// has a row for that process, the status of its first such row becomes the
/// newest entry, the older entries follow in order, and the oldest one is
/// dropped when the history was full; when the sample has no row for it
/// (the process has exited), the history stays as it was. The process and
/// the capacity stay the same.
pub proof fn law_history_follows_the_watched_process(
    before: ProcessHistory,
    after: Option<ProcessHistory>,
    rows: Seq<ProcessInfo>,
)
    requires
        history_after_sample(Some(before), after, rows),
    ensures
        after matches Some(h) && h.pid == before.pid && h.history.capacity == before.history.capacity,
        (forall|i: int| 0 <= i < rows.len() ==> #[trigger] rows[i].pid != before.pid)
            ==> after->Some_0.history.buf@ == before.history.buf@,
        forall|i: int|
            0 <= i < rows.len() && #[trigger] rows[i].pid == before.pid && (forall|j: int|
                0 <= j < i ==> #[trigger] rows[j].pid != before.pid) ==> {
                let nb = after->Some_0.history.buf@;
                let ob = before.history.buf@;
                let cap = before.history.capacity;
                &&& nb.len() > 0
                &&& nb[0] == rows[i].status
                &&& nb.len() == if ob.len() == cap && cap > 0 {
                    ob.len()
                } else {
                    ob.len() + 1
                }
                &&& forall|k: int| 1 <= k < nb.len() ==> #[trigger] nb[k] == ob[k - 1]
            },
{
    lemma_first_pid_index(rows, before.pid);
    let nb = after->Some_0.history.buf@;
    let ob = before.history.buf@;
    assert forall|i: int|
        0 <= i < rows.len() && #[trigger] rows[i].pid == before.pid && (forall|j: int|
            0 <= j < i ==> #[trigger] rows[j].pid != before.pid) implies {
            &&& nb.len() > 0
            &&& nb[0] == rows[i].status
            &&& nb.len() == if ob.len() == before.history.capacity && before.history.capacity > 0 {
                ob.len()
            } else {
                ob.len() + 1
            }
            &&& forall|k: int| 1 <= k < nb.len() ==> #[trigger] nb[k] == ob[k - 1]
        } by {
        match first_pid_index(rows, before.pid) {
            Some(f) => {
                if f < i {
                    assert(rows[f].pid != before.pid);
                } else if i < f {
                    assert(rows[i].pid != before.pid);
                }
                assert(f == i);
            },
            None => {
                assert(rows[i].pid != before.pid);
            },
        }
    }
}


/// In the normal input mode, outside the save dialog: `l`, `m` and `p` show
/// the watch, main and plot screens; on the main screen Down and Up select
/// the next and the previous row, and Right and Left the next and the
/// previous column, the other one staying as it was.
pub proof fn law_normal_keys_navigate(a: App, b: App, key: Key, e: bool, r: KeyAction)
    requires
        a.current_screen != CurrentScreen::WatchSaveFileConfirm,
        a.current_screen != CurrentScreen::WatchSaveFileProvidePath,
        a.current_input_mode == InputMode::Normal,
        key_reaction(a, key, e, b, r),
    ensures
        key == Key::Char('l') ==> b.current_screen == CurrentScreen::Watch,
        key == Key::Char('m') ==> b.current_screen == CurrentScreen::Main,
        key == Key::Char('p') ==> b.current_screen == CurrentScreen::Plots,
        a.current_screen == CurrentScreen::Main && key == Key::Down ==> match table_selected(a.table_state) {
            Some(i) => i < usize::MAX ==> table_selected(b.table_state) == Some((i + 1) as usize),
            None => table_selected(b.table_state) == Some(0usize),
        },
        a.current_screen == CurrentScreen::Main && key == Key::Up ==> match table_selected(a.table_state) {
            Some(i) => i > 0 ==> table_selected(b.table_state) == Some((i - 1) as usize),
            None => true,
        },
        a.current_screen == CurrentScreen::Main && key == Key::Right ==> match table_selected_column(a.table_state) {
            Some(i) => i < usize::MAX ==> table_selected_column(b.table_state) == Some((i + 1) as usize),
            None => table_selected_column(b.table_state) == Some(0usize),
        },
        a.current_screen == CurrentScreen::Main && key == Key::Left ==> match table_selected_column(a.table_state) {
            Some(i) => i > 0 ==> table_selected_column(b.table_state) == Some((i - 1) as usize),
            None => true,
        },
        a.current_screen == CurrentScreen::Main && (key == Key::Down || key == Key::Up)
            ==> table_selected_column(b.table_state) == table_selected_column(a.table_state),
        a.current_screen == CurrentScreen::Main && (key == Key::Left || key == Key::Right)
            ==> table_selected(b.table_state) == table_selected(a.table_state),
        a.current_screen != CurrentScreen::Main && (key == Key::Down || key == Key::Up || key
            == Key::Left || key == Key::Right) ==> b == a,
{
}

} // verus!

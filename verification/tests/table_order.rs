use process_watcher::ordering::{
    arrange_rows, get_ppid_to_pid_map, reverse_rows, sort_rows, stable_sort_rows,
    total_order_key_exec, ui_column, ProcessDisplayKind, ProcessUiColumn, SortOrder,
    TableOrderSettings,
};
use process_watcher::{ProcessInfo, ProcessStatus};

fn row(pid: u64, parent: Option<u64>, vm_rss: u64, command: &str) -> ProcessInfo {
    ProcessInfo {
        command: command.to_string(),
        pid,
        parent_pid: parent,
        status: ProcessStatus { vm_rss, ..ProcessStatus::default() },
        pid_lvl: 0,
    }
}

fn with_cpu(pid: u64, usage: f32) -> ProcessInfo {
    ProcessInfo {
        status: ProcessStatus { cpu_usage_bits: usage.to_bits(), ..ProcessStatus::default() },
        ..row(pid, None, 0, "x")
    }
}

fn pids(rows: &[ProcessInfo]) -> Vec<u64> {
    rows.iter().map(|r| r.pid).collect()
}

fn settings(col: ProcessUiColumn, order: SortOrder) -> TableOrderSettings {
    TableOrderSettings { order_by_field: col, order }
}

fn tree_rows() -> Vec<ProcessInfo> {
    vec![
        row(4, Some(1), 10, "four"),
        row(2, Some(1), 20, "two"),
        row(5, Some(99), 30, "five"),
        row(1, None, 40, "init"),
        row(3, Some(2), 50, "three"),
    ]
}

#[test]
fn columns_from_left_to_right() {
    assert_eq!(ui_column(0), Some(ProcessUiColumn::Pid));
    assert_eq!(ui_column(2), Some(ProcessUiColumn::VmRss));
    assert_eq!(ui_column(7), Some(ProcessUiColumn::Command));
    assert_eq!(ui_column(8), None);
}

#[test]
fn default_order_is_by_resident_memory_descending() {
    let s = TableOrderSettings::default();
    assert_eq!(s, settings(ProcessUiColumn::VmRss, SortOrder::Descending));
}

#[test]
fn sort_by_pid_ascending() {
    let r = sort_rows(settings(ProcessUiColumn::Pid, SortOrder::Ascending), tree_rows());
    assert_eq!(pids(&r), vec![1, 2, 3, 4, 5]);
}

#[test]
fn sort_by_resident_memory_descending() {
    let r = sort_rows(settings(ProcessUiColumn::VmRss, SortOrder::Descending), tree_rows());
    assert_eq!(pids(&r), vec![3, 1, 5, 2, 4]);
}

#[test]
fn ascending_sort_keeps_equal_rows_in_order() {
    let rows = vec![row(1, None, 5, "a"), row(2, None, 5, "b"), row(3, None, 1, "c")];
    let r = stable_sort_rows(ProcessUiColumn::VmRss, rows);
    assert_eq!(pids(&r), vec![3, 1, 2]);
}

#[test]
fn descending_sort_reverses_equal_rows() {
    let rows = vec![row(1, None, 5, "a"), row(2, None, 5, "b"), row(3, None, 9, "c")];
    let r = sort_rows(settings(ProcessUiColumn::VmRss, SortOrder::Descending), rows);
    assert_eq!(pids(&r), vec![3, 2, 1]);
}

#[test]
fn sort_by_command_compares_characters() {
    let rows = vec![row(1, None, 0, "b"), row(2, None, 0, "a"), row(3, None, 0, "ab"), row(4, None, 0, "B")];
    let r = sort_rows(settings(ProcessUiColumn::Command, SortOrder::Ascending), rows);
    assert_eq!(pids(&r), vec![4, 2, 3, 1]);
}

#[test]
fn sort_by_cpu_usage_follows_total_order() {
    let rows = vec![
        with_cpu(1, 1.5),
        with_cpu(2, -0.0),
        with_cpu(3, f32::NAN),
        with_cpu(4, 0.0),
        with_cpu(5, -2.0),
    ];
    let r = sort_rows(settings(ProcessUiColumn::CpuUsage, SortOrder::Ascending), rows);
    assert_eq!(pids(&r), vec![5, 2, 4, 1, 3]);
}

#[test]
fn sort_by_memory_share_follows_total_order() {
    let mut a = row(1, None, 0, "a");
    a.status.rss_proc_bits = 12.5f32.to_bits();
    let mut b = row(2, None, 0, "b");
    b.status.rss_proc_bits = 0.25f32.to_bits();
    let r = sort_rows(settings(ProcessUiColumn::RssProc, SortOrder::Descending), vec![b, a]);
    assert_eq!(pids(&r), vec![1, 2]);
}

#[test]
fn sort_by_uptime_and_sizes() {
    let mut a = row(1, None, 0, "a");
    a.status.uptime = 30;
    a.status.vm_size = 1;
    a.status.rss_shem = 9;
    let mut b = row(2, None, 0, "b");
    b.status.uptime = 10;
    b.status.vm_size = 2;
    b.status.rss_shem = 3;
    let r = sort_rows(settings(ProcessUiColumn::Uptime, SortOrder::Ascending), vec![a.duplicate(), b.duplicate()]);
    assert_eq!(pids(&r), vec![2, 1]);
    let r = sort_rows(settings(ProcessUiColumn::VmSize, SortOrder::Ascending), vec![b.duplicate(), a.duplicate()]);
    assert_eq!(pids(&r), vec![1, 2]);
    let r = sort_rows(settings(ProcessUiColumn::RssShem, SortOrder::Ascending), vec![a, b]);
    assert_eq!(pids(&r), vec![2, 1]);
}

#[test]
fn total_order_keys() {
    assert_eq!(total_order_key_exec(0.0f32.to_bits()), 0);
    assert_eq!(total_order_key_exec((-0.0f32).to_bits()), -1);
    assert!(total_order_key_exec(1.0f32.to_bits()) > total_order_key_exec(0.5f32.to_bits()));
    assert!(total_order_key_exec((-1.0f32).to_bits()) < total_order_key_exec((-0.5f32).to_bits()));
    assert!(total_order_key_exec(f32::NAN.to_bits()) > total_order_key_exec(f32::INFINITY.to_bits()));
}

#[test]
fn reversing_rows() {
    let r = reverse_rows(tree_rows());
    assert_eq!(pids(&r), vec![3, 1, 5, 2, 4]);
}

#[test]
fn parent_map_lists_children_in_row_order() {
    let m = get_ppid_to_pid_map(&tree_rows());
    assert_eq!(m.len(), 3);
    assert_eq!(m.get(&1), Some(&vec![4, 2]));
    assert_eq!(m.get(&2), Some(&vec![3]));
    assert_eq!(m.get(&99), Some(&vec![5]));
}

#[test]
fn list_view_is_the_sorted_rows() {
    let r = arrange_rows(
        ProcessDisplayKind::List,
        settings(ProcessUiColumn::Pid, SortOrder::Ascending),
        tree_rows(),
    )
    .unwrap();
    assert_eq!(pids(&r), vec![1, 2, 3, 4, 5]);
    assert!(r.iter().all(|x| x.pid_lvl == 0));
}

#[test]
fn tree_view_goes_depth_first_below_pid_one() {
    let r = arrange_rows(
        ProcessDisplayKind::Tree,
        settings(ProcessUiColumn::Pid, SortOrder::Ascending),
        tree_rows(),
    )
    .unwrap();
    let shown: Vec<(u64, u64)> = r.iter().map(|x| (x.pid, x.pid_lvl)).collect();
    assert_eq!(shown, vec![(1, 0), (2, 1), (3, 2), (4, 1)]);
}

#[test]
fn tree_view_orders_siblings_as_the_sort_does() {
    let r = arrange_rows(
        ProcessDisplayKind::Tree,
        settings(ProcessUiColumn::Pid, SortOrder::Descending),
        tree_rows(),
    )
    .unwrap();
    let shown: Vec<(u64, u64)> = r.iter().map(|x| (x.pid, x.pid_lvl)).collect();
    assert_eq!(shown, vec![(1, 0), (4, 1), (2, 1), (3, 2)]);
}

#[test]
fn tree_view_without_a_row_for_pid_one_shows_its_descendants() {
    let rows = vec![row(3, Some(2), 0, "b"), row(2, Some(1), 0, "a"), row(7, None, 0, "c")];
    let r = arrange_rows(
        ProcessDisplayKind::Tree,
        settings(ProcessUiColumn::Pid, SortOrder::Ascending),
        rows,
    )
    .unwrap();
    let shown: Vec<(u64, u64)> = r.iter().map(|x| (x.pid, x.pid_lvl)).collect();
    assert_eq!(shown, vec![(2, 1), (3, 2)]);
}

#[test]
fn tree_view_of_looping_parents_is_refused() {
    let rows = vec![row(1, Some(3), 0, "a"), row(3, Some(1), 0, "b"), row(2, None, 0, "c")];
    let r = arrange_rows(
        ProcessDisplayKind::Tree,
        settings(ProcessUiColumn::Pid, SortOrder::Ascending),
        rows,
    );
    let sorted = r.unwrap_err();
    assert_eq!(pids(&sorted), vec![1, 2, 3]);
}

use process_watcher::app::{centered_rect, App, Area, CurrentScreen, InputMode, Key, KeyAction, HISTORY_LEN};
use process_watcher::labels::{command_label, format_to_hh_mm_ss, pid_label};
use process_watcher::ordering::{ProcessDisplayKind, ProcessUiColumn, SortOrder, TableOrderSettings};
use process_watcher::search::SearchState;
use process_watcher::{ProcessInfo, ProcessStatus};

fn row(pid: u64, parent: Option<u64>, vm_rss: u64, command: &str) -> ProcessInfo {
    ProcessInfo {
        command: command.to_string(),
        pid,
        parent_pid: parent,
        status: ProcessStatus { vm_rss, vm_size: 100 + pid, ..ProcessStatus::default() },
        pid_lvl: 0,
    }
}

fn sample() -> Vec<ProcessInfo> {
    vec![
        row(1, None, 10, "init"),
        row(20, Some(1), 300, "bash"),
        row(30, Some(20), 200, "zsh"),
        row(40, Some(1), 100, "bat"),
    ]
}

fn pids(app: &App) -> Vec<u64> {
    app.proc_info.iter().map(|r| r.pid).collect()
}

fn app_with_sample() -> App {
    let mut app = App::new();
    assert!(app.on_sample(sample()));
    app
}

#[test]
fn app_starts_on_the_main_screen() {
    let app = App::new();
    assert_eq!(app.current_screen, CurrentScreen::Main);
    assert_eq!(app.current_input_mode, InputMode::Normal);
    assert_eq!(app.process_display_kind, ProcessDisplayKind::List);
    assert_eq!(
        app.table_order_settings,
        TableOrderSettings { order_by_field: ProcessUiColumn::VmRss, order: SortOrder::Descending }
    );
    assert!(app.watched_pid_history.is_none());
    assert_eq!(app.table_state.selected(), Some(0));
    assert_eq!(app.table_state.selected_column(), Some(0));
    assert!(!app.exit);
}

#[test]
fn a_sample_is_sorted_for_display() {
    let app = app_with_sample();
    assert_eq!(pids(&app), vec![20, 30, 40, 1]);
}

#[test]
fn q_quits() {
    let mut app = App::new();
    assert_eq!(app.on_key_event(Key::Char('q'), true), KeyAction::Nothing);
    assert!(app.exit);
}

#[test]
fn arrows_move_the_selection_on_the_main_screen() {
    let mut app = app_with_sample();
    app.on_key_event(Key::Down, true);
    assert_eq!(app.table_state.selected(), Some(1));
    app.on_key_event(Key::Right, true);
    app.on_key_event(Key::Right, true);
    assert_eq!(app.table_state.selected_column(), Some(2));
    app.on_key_event(Key::Up, true);
    app.on_key_event(Key::Up, true);
    assert_eq!(app.table_state.selected(), Some(0));
    app.on_key_event(Key::Left, true);
    assert_eq!(app.table_state.selected_column(), Some(1));
}

#[test]
fn arrows_do_nothing_on_other_screens() {
    let mut app = app_with_sample();
    app.on_key_event(Key::Char('p'), true);
    assert_eq!(app.current_screen, CurrentScreen::Plots);
    app.on_key_event(Key::Down, true);
    assert_eq!(app.table_state.selected(), Some(0));
    app.on_key_event(Key::Char('m'), true);
    assert_eq!(app.current_screen, CurrentScreen::Main);
}

#[test]
fn filter_field_is_edited_then_left() {
    let mut app = App::new();
    assert_eq!(app.on_key_event(Key::Char('f'), true), KeyAction::Nothing);
    assert_eq!(app.current_input_mode, InputMode::EditingFilter);
    assert_eq!(app.on_key_event(Key::Char('q'), true), KeyAction::ForwardToFilterInput);
    assert!(!app.exit);
    assert_eq!(app.on_key_event(Key::Enter, true), KeyAction::Nothing);
    assert_eq!(app.current_input_mode, InputMode::Normal);
    app.on_key_event(Key::Char('f'), true);
    assert_eq!(app.on_key_event(Key::Esc, true), KeyAction::ResetFilterInput);
    assert_eq!(app.current_input_mode, InputMode::Normal);
}

#[test]
fn search_finds_and_steps_through_matches() {
    let mut app = app_with_sample();
    app.on_key_event(Key::Char('s'), true);
    assert_eq!(app.current_input_mode, InputMode::EditingSearch);
    assert_eq!(app.on_key_event(Key::Char('b'), true), KeyAction::ForwardToSearchInput);
    app.on_search_input_changed("b".to_string());
    assert_eq!(app.search_state.matched_rows, vec![0, 2]);
    let shown = app.rows_to_display("");
    assert_eq!(shown, vec![0, 1, 2, 3]);
    assert_eq!(app.search_state.current_match_idx, Some(0));
    assert_eq!(app.table_state.selected(), Some(0));
    app.on_key_event(Key::Down, true);
    assert_eq!(app.search_state.current_match_idx, Some(1));
    app.rows_to_display("");
    assert_eq!(app.table_state.selected(), Some(2));
    app.on_key_event(Key::Down, true);
    assert_eq!(app.search_state.current_match_idx, Some(1));
    app.on_key_event(Key::Up, true);
    app.on_key_event(Key::Up, true);
    assert_eq!(app.search_state.current_match_idx, Some(0));
    assert_eq!(app.on_key_event(Key::Esc, true), KeyAction::ResetSearchInput);
    assert_eq!(app.current_input_mode, InputMode::Normal);
    assert!(app.search_state.query.is_empty());
    assert!(app.search_state.matched_rows.is_empty());
    assert_eq!(app.search_state.current_match_idx, None);
}

#[test]
fn search_matches_follow_a_new_sample() {
    let mut app = app_with_sample();
    app.on_key_event(Key::Char('s'), true);
    app.on_search_input_changed("sh".to_string());
    assert_eq!(app.search_state.matched_rows, vec![0, 1]);
    let mut rows = sample();
    rows.push(row(50, Some(1), 1000, "fish"));
    assert!(app.on_sample(rows));
    assert_eq!(pids(&app), vec![50, 20, 30, 40, 1]);
    assert_eq!(app.search_state.matched_rows, vec![0, 1, 2]);
}

#[test]
fn filter_keeps_rows_whose_command_contains_it() {
    let mut app = app_with_sample();
    assert_eq!(app.rows_to_display("ba"), vec![0, 2]);
    assert_eq!(app.rows_to_display("none"), Vec::<usize>::new());
    assert_eq!(app.rows_to_display(""), vec![0, 1, 2, 3]);
}

#[test]
fn sort_request_uses_the_selected_column() {
    let mut app = app_with_sample();
    assert_eq!(app.on_key_event(Key::Char('r'), true), KeyAction::Nothing);
    assert_eq!(
        app.table_order_settings,
        TableOrderSettings { order_by_field: ProcessUiColumn::Pid, order: SortOrder::Descending }
    );
    assert_eq!(pids(&app), vec![40, 30, 20, 1]);
    app.on_key_event(Key::Char('r'), true);
    assert_eq!(app.table_order_settings.order, SortOrder::Ascending);
    assert_eq!(pids(&app), vec![1, 20, 30, 40]);
}

#[test]
fn toggling_the_view_shows_the_tree() {
    let mut app = app_with_sample();
    assert_eq!(app.on_key_event(Key::Char('t'), true), KeyAction::Nothing);
    assert_eq!(app.process_display_kind, ProcessDisplayKind::Tree);
    let shown: Vec<(u64, u64)> = app.proc_info.iter().map(|r| (r.pid, r.pid_lvl)).collect();
    assert_eq!(shown, vec![(1, 0), (20, 1), (30, 2), (40, 1)]);
    app.on_key_event(Key::Char('t'), true);
    assert_eq!(app.process_display_kind, ProcessDisplayKind::List);
    assert_eq!(pids(&app), vec![20, 30, 40, 1]);
}

#[test]
fn a_tree_of_looping_parents_is_reported() {
    let mut app = App::new();
    app.on_sample(vec![row(1, Some(2), 1, "a"), row(2, Some(1), 2, "b")]);
    assert_eq!(app.on_key_event(Key::Char('t'), true), KeyAction::TreeLoops);
    assert_eq!(pids(&app), vec![2, 1]);
}

#[test]
fn watching_the_selected_process() {
    let mut app = app_with_sample();
    app.on_key_event(Key::Down, true);
    app.on_key_event(Key::Char('w'), true);
    assert_eq!(app.watched_pid, 30);
    let h = app.watched_pid_history.as_ref().unwrap();
    assert_eq!(h.pid, 30);
    assert_eq!(h.history.capacity, HISTORY_LEN);
    assert!(h.history.buf.is_empty());
    assert!(app.on_sample(sample()));
    assert!(app.on_sample(sample()));
    let h = app.watched_pid_history.as_ref().unwrap();
    assert_eq!(h.history.buf.len(), 2);
    assert_eq!(h.history.buf[0].vm_rss, 200);
}

#[test]
fn watching_the_same_process_again_keeps_its_history() {
    let mut app = app_with_sample();
    app.on_key_event(Key::Char('w'), true);
    app.on_sample(sample());
    app.on_key_event(Key::Char('w'), true);
    assert_eq!(app.watched_pid_history.as_ref().unwrap().history.buf.len(), 1);
}

#[test]
fn saving_the_watched_history_goes_through_two_dialogs() {
    let mut app = app_with_sample();
    app.on_key_event(Key::Char('l'), true);
    assert_eq!(app.current_screen, CurrentScreen::Watch);
    app.on_key_event(Key::Char('s'), true);
    assert_eq!(app.current_screen, CurrentScreen::WatchSaveFileProvidePath);
    assert_eq!(app.on_key_event(Key::Enter, true), KeyAction::ForwardToSaveInput);
    assert_eq!(app.on_key_event(Key::Char('q'), true), KeyAction::ForwardToSaveInput);
    assert!(!app.exit);
    assert_eq!(app.on_key_event(Key::Enter, false), KeyAction::CheckSavePath);
    app.on_save_path_accepted();
    assert_eq!(app.current_screen, CurrentScreen::WatchSaveFileConfirm);
    assert_eq!(app.on_key_event(Key::Char('x'), false), KeyAction::Nothing);
    assert_eq!(app.current_screen, CurrentScreen::WatchSaveFileConfirm);
    assert_eq!(app.on_key_event(Key::Char('N'), false), KeyAction::Nothing);
    assert_eq!(app.current_screen, CurrentScreen::WatchSaveFileProvidePath);
    app.on_save_path_accepted();
    assert_eq!(app.on_key_event(Key::Char('Y'), false), KeyAction::SaveWatched);
    assert_eq!(app.current_screen, CurrentScreen::Watch);
    app.on_key_event(Key::Char('s'), true);
    assert_eq!(app.on_key_event(Key::Esc, true), KeyAction::ResetSaveInput);
    assert_eq!(app.current_screen, CurrentScreen::Watch);
}

fn app_with_columns() -> App {
    let mut app = app_with_sample();
    app.table_area = Area { x: 0, y: 5, width: 80, height: 20 };
    app.column_areas = vec![
        Area { x: 0, y: 5, width: 10, height: 20 },
        Area { x: 10, y: 5, width: 12, height: 20 },
        Area { x: 22, y: 5, width: 12, height: 20 },
    ];
    app
}

#[test]
fn clicking_a_header_sorts_by_its_column() {
    let mut app = app_with_columns();
    assert!(app.on_mouse_event(true, 12, 6));
    assert_eq!(
        app.table_order_settings,
        TableOrderSettings { order_by_field: ProcessUiColumn::VmSize, order: SortOrder::Descending }
    );
    assert_eq!(pids(&app), vec![40, 30, 20, 1]);
    assert!(app.on_mouse_event(true, 12, 5));
    assert_eq!(app.table_order_settings.order, SortOrder::Ascending);
}

#[test]
fn clicks_outside_the_header_change_nothing() {
    let mut app = app_with_columns();
    assert!(app.on_mouse_event(true, 12, 10));
    assert!(app.on_mouse_event(false, 12, 6));
    assert!(app.on_mouse_event(true, 50, 6));
    assert!(app.on_mouse_event(true, 12, 30));
    assert_eq!(
        app.table_order_settings,
        TableOrderSettings { order_by_field: ProcessUiColumn::VmRss, order: SortOrder::Descending }
    );
}

#[test]
fn search_state_steps() {
    let mut s = SearchState::new();
    assert!(!s.is_active());
    s.query = "a".to_string();
    assert!(s.is_active());
    let rows = vec![row(1, None, 0, "bash"), row(2, None, 0, "zsh"), row(3, None, 0, "cat")];
    s.calculate_matching_rows(&rows);
    assert_eq!(s.matched_rows, vec![0, 2]);
    assert_eq!(s.current_match_idx, None);
    assert_eq!(s.get_current(), Some(0));
    assert_eq!(s.current_match_idx, Some(0));
    s.seek_previous();
    assert_eq!(s.current_match_idx, Some(0));
    s.seek_next();
    assert_eq!(s.get_current(), Some(2));
    s.seek_next();
    assert_eq!(s.current_match_idx, Some(1));
    s.clear();
    assert!(!s.is_active());
    assert_eq!(s.get_current(), None);
}

#[test]
fn durations_as_hours_minutes_seconds() {
    assert_eq!(format_to_hh_mm_ss(3661), "1:01:01");
    assert_eq!(format_to_hh_mm_ss(0), "0:00:00");
    assert_eq!(format_to_hh_mm_ss(59), "0:00:59");
    assert_eq!(format_to_hh_mm_ss(86399), "23:59:59");
    assert_eq!(format_to_hh_mm_ss(360000), "100:00:00");
    assert_eq!(format_to_hh_mm_ss(u64::MAX), "5124095576030431:00:15");
}

#[test]
fn pid_cell_marks_the_watched_process() {
    let r = row(42, None, 0, "bash");
    assert_eq!(pid_label(&r, 42), "<w>42");
    assert_eq!(pid_label(&r, 7), "42");
}

#[test]
fn command_cell_shows_the_depth() {
    let mut r = row(42, Some(1), 0, "bash");
    assert_eq!(command_label(&r), "-bash");
    r.pid_lvl = 2;
    assert_eq!(command_label(&r), " | |-bash");
    r.parent_pid = None;
    assert_eq!(command_label(&r), "<>");
}

#[test]
fn centered_area() {
    let c = centered_rect(50, 50, Area { x: 0, y: 0, width: 100, height: 100 });
    assert_eq!(c, Area { x: 25, y: 25, width: 50, height: 50 });
    let c = centered_rect(100, 100, Area { x: 3, y: 4, width: 20, height: 10 });
    assert_eq!(c, Area { x: 3, y: 4, width: 20, height: 10 });
}

#[test]
fn pid_cell_reads_back_as_the_pid() {
    for pid in [0u64, 7, 10, 42, 1000, 65535, u64::MAX] {
        let r = ProcessInfo { pid, ..ProcessInfo::default() };
        assert_eq!(pid_label(&r, pid.wrapping_add(1)).parse::<u64>(), Ok(pid));
    }
}

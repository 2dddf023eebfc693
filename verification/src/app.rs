//! The state of the monitor's user interface and how it reacts to new
//! samples, keys and mouse clicks.
//!
//! The terminal itself (drawing, reading events, editing the text fields,
//! writing files) is left to the caller: a reaction tells it, by a
//! `KeyAction`, what of that work is to be done.
use ratatui::layout::{Constraint, Direction, Layout, Rect};
use ratatui::widgets::TableState;
use vstd::prelude::*;

use crate::models::{ring_push, ProcessHistory, ProcessInfo, RingBuffer};
use crate::ordering::{
    arrange_rows, column_at, display_rows, sorted_rows, ui_column, ProcessDisplayKind,
    ProcessUiColumn, SortOrder, TableOrderSettings,
};
use crate::search::{current_after_get, matching_rows, row_of_match, SearchState};
use crate::text::{chars_contain, to_chars};

verus! {

// ---------------------------------------------------------------------------
// ratatui's TableState
// ---------------------------------------------------------------------------
#[verifier::external_type_specification]
#[verifier::external_body]
pub struct ExTableState(ratatui::widgets::TableState);

/// The row a `TableState` has selected (its `selected` field).
pub uninterp spec fn table_selected(t: TableState) -> Option<usize>;

/// The column a `TableState` has selected (its `selected_column` field).
pub uninterp spec fn table_selected_column(t: TableState) -> Option<usize>;

/// The first row a `TableState` shows (its `offset` field).
pub uninterp spec fn table_offset(t: TableState) -> usize;

/// `TableState::new`: nothing selected, no offset.
pub assume_specification[ TableState::new ]() -> (r: TableState)
    ensures
        table_selected(r) is None,
        table_selected_column(r) is None,
        table_offset(r) == 0,
;

/// `TableState::selected` returns the selected row.
pub assume_specification[ TableState::selected ](t: &TableState) -> (r: Option<usize>)
    ensures
        r == table_selected(*t),
;

/// `TableState::selected_column` returns the selected column.
pub assume_specification[ TableState::selected_column ](t: &TableState) -> (r: Option<usize>)
    ensures
        r == table_selected_column(*t),
;

/// `TableState::selected_cell` returns the selected row and column when both are selected.
pub assume_specification[ TableState::selected_cell ](t: &TableState) -> (r: Option<(usize, usize)>)
    ensures
        r == match (table_selected(*t), table_selected_column(*t)) {
            (Some(row), Some(col)) => Some((row, col)),
            _ => None,
        },
;

/// `TableState::select` sets the selected row; selecting no row also resets the offset.
pub assume_specification[ TableState::select ](t: &mut TableState, index: Option<usize>)
    ensures
        table_selected(*final(t)) == index,
        table_selected_column(*final(t)) == table_selected_column(*old(t)),
        table_offset(*final(t)) == if index is None {
            0
        } else {
            table_offset(*old(t))
        },
;

/// `TableState::select_next` selects the row after the selected one (saturating), or row 0.
pub assume_specification[ TableState::select_next ](t: &mut TableState)
    ensures
        table_selected(*final(t)) == Some(
            match table_selected(*old(t)) {
                Some(i) => i.saturating_add(1),
                None => 0,
            },
        ),
        table_selected_column(*final(t)) == table_selected_column(*old(t)),
        table_offset(*final(t)) == table_offset(*old(t)),
;

/// `TableState::select_previous` selects the row before the selected one
/// (saturating), or the last possible row when none was selected.
pub assume_specification[ TableState::select_previous ](t: &mut TableState)
    ensures
        table_selected(*final(t)) == Some(
            match table_selected(*old(t)) {
                Some(i) => i.saturating_sub(1),
                None => usize::MAX,
            },
        ),
        table_selected_column(*final(t)) == table_selected_column(*old(t)),
        table_offset(*final(t)) == table_offset(*old(t)),
;

/// `TableState::select_next_column` selects the column after the selected
/// one (saturating), or column 0.
pub assume_specification[ TableState::select_next_column ](t: &mut TableState)
    ensures
        table_selected_column(*final(t)) == Some(
            match table_selected_column(*old(t)) {
                Some(i) => i.saturating_add(1),
                None => 0,
            },
        ),
        table_selected(*final(t)) == table_selected(*old(t)),
        table_offset(*final(t)) == table_offset(*old(t)),
;

/// `TableState::select_previous_column` selects the column before the
/// selected one (saturating), or the last possible column when none was selected.
pub assume_specification[ TableState::select_previous_column ](t: &mut TableState)
    ensures
        table_selected_column(*final(t)) == Some(
            match table_selected_column(*old(t)) {
                Some(i) => i.saturating_sub(1),
                None => usize::MAX,
            },
        ),
        table_selected(*final(t)) == table_selected(*old(t)),
        table_offset(*final(t)) == table_offset(*old(t)),
;

/// `TableState::select_first` selects row 0.
pub assume_specification[ TableState::select_first ](t: &mut TableState)
    ensures
        table_selected(*final(t)) == Some(0usize),
        table_selected_column(*final(t)) == table_selected_column(*old(t)),
        table_offset(*final(t)) == table_offset(*old(t)),
;

/// `TableState::select_first_column` selects column 0.
pub assume_specification[ TableState::select_first_column ](t: &mut TableState)
    ensures
        table_selected_column(*final(t)) == Some(0usize),
        table_selected(*final(t)) == table_selected(*old(t)),
        table_offset(*final(t)) == table_offset(*old(t)),
;

// ---------------------------------------------------------------------------
// Screen areas
// ---------------------------------------------------------------------------
/// A rectangle of the terminal, in cells.
#[derive(Debug, Default, Clone, Copy, PartialEq, Eq, Structural)]
pub struct Area {
    pub x: u16,
    pub y: u16,
    pub width: u16,
    pub height: u16,
}

impl Area {
    pub open spec fn spec_left(&self) -> u16 {
        self.x
    }

    pub open spec fn spec_right(&self) -> u16 {
        self.x.saturating_add(self.width)
    }

    pub open spec fn spec_top(&self) -> u16 {
        self.y
    }

    pub open spec fn spec_bottom(&self) -> u16 {
        self.y.saturating_add(self.height)
    }

    #[verifier::when_used_as_spec(spec_left)]
    pub fn left(&self) -> (r: u16)
        ensures
            r == self.spec_left(),
    {
        self.x
    }

    #[verifier::when_used_as_spec(spec_right)]
    pub fn right(&self) -> (r: u16)
        ensures
            r == self.spec_right(),
    {
        self.x.saturating_add(self.width)
    }

    #[verifier::when_used_as_spec(spec_top)]
    pub fn top(&self) -> (r: u16)
        ensures
            r == self.spec_top(),
    {
        self.y
    }

    #[verifier::when_used_as_spec(spec_bottom)]
    pub fn bottom(&self) -> (r: u16)
        ensures
            r == self.spec_bottom(),
    {
        self.y.saturating_add(self.height)
    }
}

/// The middle area that ratatui's `Layout::split` gives when it splits
/// `area` (x, y, width, height), across (`vertical`) or along its width,
/// into three parts of `outer`, `middle` and `outer` percent.
pub uninterp spec fn layout_percent_middle(
    vertical: bool,
    outer: u16,
    middle: u16,
    area: (u16, u16, u16, u16),
) -> (u16, u16, u16, u16);

pub open spec fn area_tuple(a: Area) -> (u16, u16, u16, u16) {
    (a.x, a.y, a.width, a.height)
}

/// Splits `area` with ratatui's `Layout::split` into three parts of
/// `outer`, `middle` and `outer` percent, vertically or horizontally, and
/// returns the middle one.
#[verifier::external_body]
fn split_percent_middle(vertical: bool, outer: u16, middle: u16, area: Area) -> (r: Area)
    ensures
        area_tuple(r) == layout_percent_middle(vertical, outer, middle, area_tuple(area)),
{
    let direction = if vertical { Direction::Vertical } else { Direction::Horizontal };
    let parts = Layout::default().direction(direction).constraints(
        [Constraint::Percentage(outer), Constraint::Percentage(middle), Constraint::Percentage(outer)],
    ).split(Rect { x: area.x, y: area.y, width: area.width, height: area.height });
    Area { x: parts[1].x, y: parts[1].y, width: parts[1].width, height: parts[1].height }
}

/// The area of `percent_x` percent of the width and `percent_y` percent of
/// the height of `r`, centered in it (as ratatui lays it out).
pub fn centered_rect(percent_x: u16, percent_y: u16, r: Area) -> (c: Area)
    requires
        percent_x <= 100,
        percent_y <= 100,
    ensures
        area_tuple(c) == layout_percent_middle(
            false,
            ((100 - percent_x) / 2) as u16,
            percent_x,
            layout_percent_middle(true, ((100 - percent_y) / 2) as u16, percent_y, area_tuple(r)),
        ),
{
    let popup = split_percent_middle(true, (100 - percent_y) / 2, percent_y, r);
    split_percent_middle(false, (100 - percent_x) / 2, percent_x, popup)
}

// ---------------------------------------------------------------------------
// The interface state
// ---------------------------------------------------------------------------
#[derive(Debug, Default, Clone, Copy, PartialEq, Eq, Structural)]
pub enum CurrentScreen {
    #[default]
    Main,
    Plots,
    Watch,
    WatchSaveFileProvidePath,
    WatchSaveFileConfirm,
}

#[derive(Debug, Default, Clone, Copy, PartialEq, Eq, Structural)]
pub enum InputMode {
    #[default]
    Normal,
    EditingFilter,
    EditingSearch,
}

/// A key the user pressed.
#[derive(Debug, Clone, Copy, PartialEq, Eq, Structural)]
pub enum Key {
    Char(char),
    Esc,
    Enter,
    Up,
    Down,
    Left,
    Right,
    Other,
}

/// The outside work a key asks for, besides the change of state.
#[derive(Debug, Clone, Copy, PartialEq, Eq, Structural)]
pub enum KeyAction {
    /// Nothing more.
    Nothing,
    /// Write the watched history to the chosen file, then empty the file name field.
    SaveWatched,
    /// Empty the file name field.
    ResetSaveInput,
    /// Hand the key to the file name field.
    ForwardToSaveInput,
    /// Check that the chosen file can be written: if so, call
    /// `on_save_path_accepted`; if not, hand the key to the file name field.
    CheckSavePath,
    /// Empty the filter field.
    ResetFilterInput,
    /// Hand the key to the filter field.
    ForwardToFilterInput,
    /// Empty the search field.
    ResetSearchInput,
    /// Hand the key to the search field, then call `on_search_input_changed`
    /// with its new text.
    ForwardToSearchInput,
    /// The tree view cannot be built: the parent links of the rows loop.
    TreeLoops,
}

/// How many watched samples are kept.
pub const HISTORY_LEN: usize = 200;

/// The height of the table header, in rows.
pub const HEADER_HEIGHT: u16 = 2;

/// The state of the interface.
#[derive(Debug)]
pub struct App {
    pub proc_info: Vec<ProcessInfo>,
    pub table_order_settings: TableOrderSettings,
    pub watched_pid_history: Option<ProcessHistory>,
    pub watched_pid: u64,
    pub current_screen: CurrentScreen,
    pub process_display_kind: ProcessDisplayKind,
    pub current_input_mode: InputMode,
    pub search_state: SearchState,
    pub table_area: Area,
    pub column_areas: Vec<Area>,
    pub table_state: TableState,
    pub exit: bool,
}

/// `settings` after the user asked to sort by `col`: a new column starts in
/// descending order; the same column flips its order.
pub open spec fn toggled(settings: TableOrderSettings, col: ProcessUiColumn) -> TableOrderSettings {
    if settings.order_by_field != col {
        TableOrderSettings { order_by_field: col, order: SortOrder::Descending }
    } else if settings.order == SortOrder::Ascending {
        TableOrderSettings { order_by_field: col, order: SortOrder::Descending }
    } else {
        TableOrderSettings { order_by_field: col, order: SortOrder::Ascending }
    }
}

/// The rows and the search of `b` are those that arranging `rows` by `kind`
/// and `settings` gives (see `display_rows`), with `search` as the search
/// before: an ongoing search has its matches found again among the new rows.
/// When the tree cannot be built the rows are left sorted and the search as it was.
pub open spec fn rows_arranged(
    rows: Seq<ProcessInfo>,
    search: SearchState,
    kind: ProcessDisplayKind,
    settings: TableOrderSettings,
    b: App,
) -> bool {
    match display_rows(kind, settings, rows) {
        Some(d) => {
            &&& b.proc_info@ == d
            &&& b.search_state.query == search.query
            &&& b.search_state.current_match_idx == search.current_match_idx
            &&& b.search_state.matched_rows@ == if search.query@.len() > 0 {
                matching_rows(search.query@, d)
            } else {
                search.matched_rows@
            }
        },
        None => {
            &&& b.proc_info@ == sorted_rows(settings, rows)
            &&& b.search_state == search
        },
    }
}

/// `a` and `b` show the same screen the same way.
pub open spec fn same_view(a: App, b: App) -> bool {
    &&& b.current_screen == a.current_screen
    &&& b.current_input_mode == a.current_input_mode
    &&& b.table_area == a.table_area
    &&& b.column_areas == a.column_areas
    &&& b.table_state == a.table_state
    &&& b.exit == a.exit
}

/// `b` only differs from `a` in its rows and search, which are those of `a`
/// arranged by `kind` and `settings` (see `rows_arranged`).
pub open spec fn arranged(a: App, kind: ProcessDisplayKind, settings: TableOrderSettings, b: App) -> bool {
    &&& b.process_display_kind == kind
    &&& b.table_order_settings == settings
    &&& rows_arranged(a.proc_info@, a.search_state, kind, settings, b)
    &&& b.watched_pid == a.watched_pid
    &&& b.watched_pid_history == a.watched_pid_history
    &&& same_view(a, b)
}

/// The arrangement by `kind` and `settings` can be built.
pub open spec fn arrangeable(a: App, kind: ProcessDisplayKind, settings: TableOrderSettings) -> bool {
    display_rows(kind, settings, a.proc_info@) is Some
}

impl App {
    /// The state when the monitor starts: the main screen, normal input,
    /// rows sorted by `VmRSS` in descending order, nothing watched, no
    /// search, and the first row and column of the table selected.
    pub fn new() -> (r: Self)
        ensures
            r.proc_info@ == Seq::<ProcessInfo>::empty(),
            r.table_order_settings == (TableOrderSettings {
                order_by_field: ProcessUiColumn::VmRss,
                order: SortOrder::Descending,
            }),
            r.watched_pid_history is None,
            r.watched_pid == 0,
            r.current_screen == CurrentScreen::Main,
            r.process_display_kind == ProcessDisplayKind::List,
            r.current_input_mode == InputMode::Normal,
            r.search_state.query@ == Seq::<char>::empty(),
            r.search_state.current_match_idx is None,
            r.search_state.matched_rows@ == Seq::<usize>::empty(),
            r.table_area == (Area { x: 0, y: 0, width: 0, height: 0 }),
            r.column_areas@ == Seq::<Area>::empty(),
            table_selected(r.table_state) == Some(0usize),
            table_selected_column(r.table_state) == Some(0usize),
            table_offset(r.table_state) == 0,
            !r.exit,
    {
        let mut table_state = TableState::new();
        table_state.select_first();
        table_state.select_first_column();
        App {
            proc_info: Vec::new(),
            table_order_settings: TableOrderSettings {
                order_by_field: ProcessUiColumn::VmRss,
                order: SortOrder::Descending,
            },
            watched_pid_history: None,
            watched_pid: 0,
            current_screen: CurrentScreen::Main,
            process_display_kind: ProcessDisplayKind::List,
            current_input_mode: InputMode::Normal,
            search_state: SearchState::new(),
            table_area: Area { x: 0, y: 0, width: 0, height: 0 },
            column_areas: Vec::new(),
            table_state,
            exit: false,
        }
    }

    /// Asks the interface to close.
    pub fn exit(&mut self)
        ensures
            *final(self) == (App { exit: true, ..*old(self) }),
    {
        self.exit = true;
    }

    /// Arranges the rows for the current view and order, and finds the
    /// matches of an ongoing search again. False when the tree view is shown
    /// and the parent links of the rows loop (the rows are then left sorted).
    pub fn sort_display_kind(&mut self) -> (r: bool)
        ensures
            arranged(*old(self), old(self).process_display_kind, old(self).table_order_settings, *final(self)),
            r == arrangeable(*old(self), old(self).process_display_kind, old(self).table_order_settings),
    {
        let mut rows: Vec<ProcessInfo> = Vec::new();
        std::mem::swap(&mut rows, &mut self.proc_info);
        match arrange_rows(self.process_display_kind, self.table_order_settings, rows) {
            Ok(v) => {
                self.proc_info = v;
                if self.search_state.is_active() {
                    self.search_state.calculate_matching_rows(self.proc_info.as_slice());
                }
                true
            },
            Err(v) => {
                self.proc_info = v;
                false
            },
        }
    }
}

/// The settings after the user asked to sort by the selected column (left
/// as they were when no column of the table is selected).
pub open spec fn requested_settings(a: App) -> TableOrderSettings {
    match table_selected_column(a.table_state) {
        Some(i) => match column_at(i as int) {
            Some(col) => toggled(a.table_order_settings, col),
            None => a.table_order_settings,
        },
        None => a.table_order_settings,
    }
}

pub open spec fn flipped(kind: ProcessDisplayKind) -> ProcessDisplayKind {
    match kind {
        ProcessDisplayKind::List => ProcessDisplayKind::Tree,
        ProcessDisplayKind::Tree => ProcessDisplayKind::List,
    }
}

/// The row the user asked to watch: the selected row, when a row and a
/// column are selected and the row exists.
pub open spec fn row_to_watch(a: App) -> Option<int> {
    match (table_selected(a.table_state), table_selected_column(a.table_state)) {
        (Some(r), Some(_)) => if r < a.proc_info@.len() {
            Some(r as int)
        } else {
            None
        },
        _ => None,
    }
}

/// `b` is `a` after the user asked to watch the selected row: that process
/// gets a new, empty history of `HISTORY_LEN` samples, unless it is already
/// the watched one.
pub open spec fn watch_requested(a: App, b: App) -> bool {
    match row_to_watch(a) {
        Some(r) => {
            let pid = a.proc_info@[r].pid;
            if a.watched_pid_history matches Some(h) && h.pid == pid {
                b == a
            } else {
                &&& b.watched_pid == pid
                &&& b.watched_pid_history matches Some(h) && h.pid == pid && h.history.capacity
                    == HISTORY_LEN && h.history.buf@.len() == 0
                &&& b.proc_info == a.proc_info
                &&& b.search_state == a.search_state
                &&& b.table_order_settings == a.table_order_settings
                &&& b.process_display_kind == a.process_display_kind
                &&& same_view(a, b)
            }
        },
        None => b == a,
    }
}

/// The position of the first row of `s` with pid `pid`.
pub open spec fn first_pid_index(s: Seq<ProcessInfo>, pid: u64) -> Option<int>
    decreases s.len(),
{
    if s.len() == 0 {
        None
    } else {
        match first_pid_index(s.drop_last(), pid) {
            Some(i) => Some(i),
            None => if s.last().pid == pid {
                Some(s.len() - 1)
            } else {
                None
            },
        }
    }
}

/// The position of the first of `areas` that spans column `x`.
pub open spec fn first_column_hit(areas: Seq<Area>, x: u16) -> Option<int>
    decreases areas.len(),
{
    if areas.len() == 0 {
        None
    } else {
        match first_column_hit(areas.drop_last(), x) {
            Some(i) => Some(i),
            None => if areas.last().spec_left() <= x < areas.last().spec_right() {
                Some(areas.len() - 1)
            } else {
                None
            },
        }
    }
}

/// A left click at (`column`, `row`) falls on a column of the table, in the
/// table's rows.
pub open spec fn click_on_column(a: App, left_down: bool, column: u16, row: u16) -> bool {
    &&& left_down
    &&& a.table_area.spec_top() <= row < a.table_area.spec_bottom()
    &&& first_column_hit(a.column_areas@, column) is Some
}

/// The click falls on the header of the table, on the column shown at `col`.
pub open spec fn click_on_header(a: App, left_down: bool, column: u16, row: u16) -> Option<
    ProcessUiColumn,
> {
    if click_on_column(a, left_down, column, row) && row < a.table_area.spec_top() + HEADER_HEIGHT {
        column_at(first_column_hit(a.column_areas@, column)->Some_0)
    } else {
        None
    }
}

/// The rows shown for the filter text `filter`: all of them when it is
/// empty, else those whose command contains it.
pub open spec fn shown(rows: Seq<ProcessInfo>, filter: Seq<char>, i: int) -> bool {
    filter.len() == 0 || crate::text::contains(rows[i].command@, filter)
}

/// The positions of the rows shown for `filter`, in order.
pub open spec fn shown_rows(rows: Seq<ProcessInfo>, filter: Seq<char>) -> Seq<usize>
    decreases rows.len(),
{
    if rows.len() == 0 {
        seq![]
    } else {
        let rest = shown_rows(rows.drop_last(), filter);
        if shown(rows, filter, rows.len() - 1) {
            rest.push((rows.len() - 1) as usize)
        } else {
            rest
        }
    }
}

impl App {
    /// What every state the interface reaches keeps: the current match of
    /// the search is never `usize::MAX`, so that moving to the next match
    /// cannot overflow.
    pub open spec fn wf(&self) -> bool {
        self.search_state.current_match_idx != Some(usize::MAX)
    }

    /// Takes in the rows of a new sample: arranges them for the current view
    /// and order, finds the matches of an ongoing search again, and adds the
    /// status of the watched process to its history. False when the tree
    /// view is shown and the parent links of the rows loop (the rows are then
    /// left sorted, and the history as it was).
    pub fn on_sample(&mut self, rows: Vec<ProcessInfo>) -> (r: bool)
        ensures
            r == (display_rows(old(self).process_display_kind, old(self).table_order_settings, rows@) is Some),
            final(self).process_display_kind == old(self).process_display_kind,
            final(self).table_order_settings == old(self).table_order_settings,
            rows_arranged(rows@, old(self).search_state, old(self).process_display_kind, old(self).table_order_settings, *final(self)),
            final(self).watched_pid == old(self).watched_pid,
            same_view(*old(self), *final(self)),
            r ==> history_after_sample(old(self).watched_pid_history, final(self).watched_pid_history, final(self).proc_info@),
            !r ==> final(self).watched_pid_history == old(self).watched_pid_history,
    {
        self.proc_info = rows;
        if !self.sort_display_kind() {
            return false;
        }
        let watched = match &self.watched_pid_history {
            Some(h) => Some(h.pid),
            None => None,
        };
        if let Some(wpid) = watched {
            if let Some(i) = find_first_pid(&self.proc_info, wpid) {
                let status = self.proc_info[i].status;
                match &mut self.watched_pid_history {
                    Some(h) => h.history.push(status),
                    None => {},
                }
            }
        }
        true
    }

    /// Reacts to a key (see `key_reaction`). `save_input_empty` tells
    /// whether the file name field is empty.
    pub fn on_key_event(&mut self, key: Key, save_input_empty: bool) -> (r: KeyAction)
        requires
            old(self).wf(),
        ensures
            key_reaction(*old(self), key, save_input_empty, *final(self), r),
            final(self).wf(),
    {
        if self.current_screen == CurrentScreen::WatchSaveFileConfirm {
            if key == Key::Char('y') || key == Key::Char('Y') {
                self.current_screen = CurrentScreen::Watch;
                KeyAction::SaveWatched
            } else if key == Key::Char('n') || key == Key::Char('N') {
                self.current_screen = CurrentScreen::WatchSaveFileProvidePath;
                KeyAction::Nothing
            } else {
                KeyAction::Nothing
            }
        } else if self.current_screen == CurrentScreen::WatchSaveFileProvidePath {
            if key == Key::Esc {
                self.current_screen = CurrentScreen::Watch;
                KeyAction::ResetSaveInput
            } else if key == Key::Enter && !save_input_empty {
                KeyAction::CheckSavePath
            } else {
                KeyAction::ForwardToSaveInput
            }
        } else if self.current_input_mode == InputMode::EditingFilter {
            if key == Key::Esc {
                self.current_input_mode = InputMode::Normal;
                KeyAction::ResetFilterInput
            } else if key == Key::Enter {
                self.current_input_mode = InputMode::Normal;
                KeyAction::Nothing
            } else {
                KeyAction::ForwardToFilterInput
            }
        } else if self.current_input_mode == InputMode::EditingSearch {
            if key == Key::Esc {
                self.search_state.clear();
                self.current_input_mode = InputMode::Normal;
                KeyAction::ResetSearchInput
            } else if key == Key::Down {
                self.search_state.seek_next();
                KeyAction::Nothing
            } else if key == Key::Up {
                self.search_state.seek_previous();
                KeyAction::Nothing
            } else {
                KeyAction::ForwardToSearchInput
            }
        } else {
            let main = self.current_screen == CurrentScreen::Main;
            match key {
                Key::Char('q') => {
                    self.exit();
                    KeyAction::Nothing
                },
                Key::Down => {
                    if main {
                        self.table_state.select_next();
                    }
                    KeyAction::Nothing
                },
                Key::Up => {
                    if main {
                        self.table_state.select_previous();
                    }
                    KeyAction::Nothing
                },
                Key::Right => {
                    if main {
                        self.table_state.select_next_column();
                    }
                    KeyAction::Nothing
                },
                Key::Left => {
                    if main {
                        self.table_state.select_previous_column();
                    }
                    KeyAction::Nothing
                },
                Key::Char('f') => {
                    if main {
                        self.current_input_mode = InputMode::EditingFilter;
                    }
                    KeyAction::Nothing
                },
                Key::Char('s') => {
                    if main {
                        self.current_input_mode = InputMode::EditingSearch;
                    } else if self.current_screen == CurrentScreen::Watch {
                        self.current_screen = CurrentScreen::WatchSaveFileProvidePath;
                    }
                    KeyAction::Nothing
                },
                Key::Esc => {
                    if main {
                        self.current_input_mode = InputMode::Normal;
                    }
                    KeyAction::Nothing
                },
                Key::Char('l') => {
                    self.current_screen = CurrentScreen::Watch;
                    KeyAction::Nothing
                },
                Key::Char('m') => {
                    self.current_screen = CurrentScreen::Main;
                    KeyAction::Nothing
                },
                Key::Char('p') => {
                    self.current_screen = CurrentScreen::Plots;
                    KeyAction::Nothing
                },
                Key::Char('r') => {
                    if main {
                        if self.on_sort_requested_event() {
                            KeyAction::Nothing
                        } else {
                            KeyAction::TreeLoops
                        }
                    } else {
                        KeyAction::Nothing
                    }
                },
                Key::Char('w') => {
                    if main {
                        self.on_watch_pid_event();
                    }
                    KeyAction::Nothing
                },
                Key::Char('t') => {
                    if main {
                        if self.on_toogle_pid_view_event() {
                            KeyAction::Nothing
                        } else {
                            KeyAction::TreeLoops
                        }
                    } else {
                        KeyAction::Nothing
                    }
                },
                _ => KeyAction::Nothing,
            }
        }
    }

    /// The positions of the rows to draw for the filter text `filter` (see
    /// `shown_rows`). While a search is going on, the first row drawn makes
    /// the first match current if none was, and the row of the current match
    /// gets selected when it is drawn.
    pub fn rows_to_display(&mut self, filter: &str) -> (r: Vec<usize>)
        requires
            old(self).wf(),
        ensures
            r@ == shown_rows(old(self).proc_info@, filter@),
            ({
                let active = old(self).search_state.query@.len() > 0;
                let drawn = r@.len() > 0;
                let idx = if active && drawn {
                    current_after_get(old(self).search_state)
                } else {
                    old(self).search_state.current_match_idx
                };
                let current_row = row_of_match(old(self).search_state.matched_rows@, idx);
                &&& final(self).search_state == (SearchState {
                    current_match_idx: idx,
                    ..old(self).search_state
                })
                &&& if let Some(m) = selected_match(active, current_row, r@) {
                    &&& table_selected(final(self).table_state) == Some(m)
                    &&& table_selected_column(final(self).table_state) == table_selected_column(
                        old(self).table_state,
                    )
                    &&& table_offset(final(self).table_state) == table_offset(old(self).table_state)
                } else {
                    final(self).table_state == old(self).table_state
                }
            }),
            *final(self) == (App {
                search_state: final(self).search_state,
                table_state: final(self).table_state,
                ..*old(self)
            }),
            final(self).wf(),
    {
        let f = to_chars(filter);
        let filter_on = f.len() > 0;
        let active = self.search_state.is_active();
        let ghost s0 = self.search_state;
        let ghost t0 = self.table_state;
        let ghost idx1 = current_after_get(s0);
        let ghost m = row_of_match(s0.matched_rows@, idx1);
        let mut out: Vec<usize> = Vec::new();
        let mut i: usize = 0;
        assert(self.proc_info@.take(0) =~= Seq::<ProcessInfo>::empty());
        while i < self.proc_info.len()
            invariant
                i <= self.proc_info@.len(),
                f@ == filter@,
                filter_on == (filter@.len() > 0),
                active == (s0.query@.len() > 0),
                idx1 == current_after_get(s0),
                m == row_of_match(s0.matched_rows@, idx1),
                s0.current_match_idx != Some(usize::MAX),
                out@ == shown_rows(self.proc_info@.take(i as int), filter@),
                forall|k: int| 0 <= k < out@.len() ==> #[trigger] out@[k] < i,
                self.proc_info == old(self).proc_info,
                s0 == old(self).search_state,
                t0 == old(self).table_state,
                self.search_state == (SearchState {
                    current_match_idx: if active && out@.len() > 0 {
                        idx1
                    } else {
                        s0.current_match_idx
                    },
                    ..s0
                }),
                if let Some(mm) = selected_match(active, m, out@) {
                    &&& table_selected(self.table_state) == Some(mm)
                    &&& table_selected_column(self.table_state) == table_selected_column(t0)
                    &&& table_offset(self.table_state) == table_offset(t0)
                } else {
                    self.table_state == t0
                },
                *self == (App {
                    search_state: self.search_state,
                    table_state: self.table_state,
                    ..*old(self)
                }),
            decreases self.proc_info.len() - i,
        {
            let ghost rows = self.proc_info@;
            assert(rows.take(i + 1).drop_last() =~= rows.take(i as int));
            assert(rows.take(i + 1).last() == rows[i as int]);
            let show = if filter_on {
                let command = to_chars(self.proc_info[i].command.as_str());
                chars_contain(&command, &f)
            } else {
                true
            };
            assert(show == shown(rows.take(i + 1), filter@, i as int));
            let ghost before = out@;
            if show {
                if active {
                    let current = self.search_state.get_current();
                    match current {
                        Some(c) => {
                            if c == i {
                                self.table_state.select(Some(i));
                            }
                        },
                        None => {},
                    }
                }
                out.push(i);
                assert(out@ == before.push(i));
                assert(!before.contains(i));
                assert forall|x: usize| #[trigger] out@.contains(x) <==> (before.contains(x) || x == i) by {
                    if out@.contains(x) {
                        let k = choose|k: int| 0 <= k < out@.len() && out@[k] == x;
                        if k < before.len() {
                            assert(before[k] == x);
                        }
                    }
                    if before.contains(x) {
                        let k = choose|k: int| 0 <= k < before.len() && before[k] == x;
                        assert(out@[k] == x);
                    }
                    if x == i {
                        assert(out@[before.len() as int] == x);
                    }
                }
            }
            i = i + 1;
        }
        assert(self.proc_info@.take(self.proc_info@.len() as int) =~= self.proc_info@);
        out
    }

    /// Takes in the new text of the search field and finds its matches.
    pub fn on_search_input_changed(&mut self, text: String)
        ensures
            final(self).search_state.query@ == text@,
            final(self).search_state.matched_rows@ == matching_rows(text@, old(self).proc_info@),
            final(self).search_state.current_match_idx == old(self).search_state.current_match_idx,
            *final(self) == (App { search_state: final(self).search_state, ..*old(self) }),
    {
        self.search_state.query = text;
        self.search_state.calculate_matching_rows(self.proc_info.as_slice());
    }

    /// The chosen file can be written: ask for confirmation.
    pub fn on_save_path_accepted(&mut self)
        ensures
            *final(self) == (App { current_screen: CurrentScreen::WatchSaveFileConfirm, ..*old(self) }),
    {
        self.current_screen = CurrentScreen::WatchSaveFileConfirm;
    }

    /// Sorts by the selected column: a new column starts in descending
    /// order, the same column flips its order. False when the tree view is
    /// shown and the parent links of the rows loop.
    pub fn on_sort_requested_event(&mut self) -> (r: bool)
        ensures
            arranged(*old(self), old(self).process_display_kind, requested_settings(*old(self)), *final(self)),
            r == arrangeable(*old(self), old(self).process_display_kind, requested_settings(*old(self))),
    {
        if let Some(idx) = self.table_state.selected_column() {
            if let Some(col) = ui_column(idx) {
                if self.table_order_settings.order_by_field != col {
                    self.table_order_settings.order_by_field = col;
                    self.table_order_settings.order = SortOrder::Descending;
                } else if self.table_order_settings.order == SortOrder::Ascending {
                    self.table_order_settings.order = SortOrder::Descending;
                } else {
                    self.table_order_settings.order = SortOrder::Ascending;
                }
                return self.sort_display_kind();
            }
        }
        self.sort_display_kind()
    }

    /// Starts watching the process of the selected row, with an empty history.
    pub fn on_watch_pid_event(&mut self)
        ensures
            watch_requested(*old(self), *final(self)),
    {
        if let Some(idx) = self.table_state.selected_cell() {
            if idx.0 < self.proc_info.len() {
                let pid = self.proc_info[idx.0].pid;
                if let Some(currently_observered_pid) = &self.watched_pid_history {
                    if currently_observered_pid.pid == pid {
                        return;
                    }
                }
                self.watched_pid = pid;
                self.watched_pid_history = Some(
                    ProcessHistory { pid, history: RingBuffer::new(HISTORY_LEN) },
                );
            }
        }
    }

    /// Switches between the list and the tree view. False when the tree
    /// view is asked for and the parent links of the rows loop.
    pub fn on_toogle_pid_view_event(&mut self) -> (r: bool)
        ensures
            arranged(*old(self), flipped(old(self).process_display_kind), old(self).table_order_settings, *final(self)),
            r == arrangeable(*old(self), flipped(old(self).process_display_kind), old(self).table_order_settings),
    {
        match self.process_display_kind {
            ProcessDisplayKind::List => self.process_display_kind = ProcessDisplayKind::Tree,
            ProcessDisplayKind::Tree => self.process_display_kind = ProcessDisplayKind::List,
        }
        self.sort_display_kind()
    }

    /// A left click on the header of a column sorts by it (see
    /// `on_sort_requested_event`); anything else is ignored. False when the
    /// tree view is shown and the parent links of the rows loop.
    pub fn on_mouse_event(&mut self, left_down: bool, column: u16, row: u16) -> (r: bool)
        requires
            click_on_column(*old(self), left_down, column, row) ==> old(self).table_area.y + HEADER_HEIGHT <= u16::MAX,
        ensures
            match click_on_header(*old(self), left_down, column, row) {
                Some(col) => {
                    &&& arranged(*old(self), old(self).process_display_kind, toggled(old(self).table_order_settings, col), *final(self))
                    &&& r == arrangeable(*old(self), old(self).process_display_kind, toggled(old(self).table_order_settings, col))
                },
                None => *final(self) == *old(self) && r,
            },
    {
        if !left_down {
            return true;
        }
        let mouse_x = column;
        let mouse_y = row;
        if mouse_y >= self.table_area.top() && mouse_y < self.table_area.bottom() {
            let clicked_column_idx = find_column(&self.column_areas, mouse_x);
            if let Some(col_idx) = clicked_column_idx {
                if mouse_y < self.table_area.top() + HEADER_HEIGHT {
                    if let Some(col) = ui_column(col_idx) {
                        if self.table_order_settings.order_by_field != col {
                            self.table_order_settings.order_by_field = col;
                            self.table_order_settings.order = SortOrder::Descending;
                        } else if self.table_order_settings.order == SortOrder::Ascending {
                            self.table_order_settings.order = SortOrder::Descending;
                        } else {
                            self.table_order_settings.order = SortOrder::Ascending;
                        }
                        return self.sort_display_kind();
                    }
                }
            }
        }
        true
    }
}

/// The position of the first of `areas` that spans column `x`.
fn find_column(areas: &Vec<Area>, x: u16) -> (r: Option<usize>)
    ensures
        match r {
            Some(j) => first_column_hit(areas@, x) == Some(j as int),
            None => first_column_hit(areas@, x) is None,
        },
{
    let mut idx: usize = 0;
    assert(areas@.take(0) =~= Seq::<Area>::empty());
    while idx < areas.len()
        invariant
            idx <= areas@.len(),
            first_column_hit(areas@.take(idx as int), x) is None,
        decreases areas.len() - idx,
    {
        assert(areas@.take(idx + 1).drop_last() =~= areas@.take(idx as int));
        let col_rect = areas[idx];
        if x >= col_rect.left() && x < col_rect.right() {
            proof {
                lemma_first_hit_extends(areas@, x, idx + 1);
            }
            return Some(idx);
        }
        idx = idx + 1;
    }
    assert(areas@.take(areas@.len() as int) =~= areas@);
    None
}

/// The action that reports whether an arrangement could be built.
pub open spec fn arrange_action(ok: bool) -> KeyAction {
    if ok {
        KeyAction::Nothing
    } else {
        KeyAction::TreeLoops
    }
}

/// `b` is `a` with only the table selection changed, as `moved` says.
pub open spec fn table_moved(a: App, b: App, row: Option<usize>, col: Option<usize>) -> bool {
    &&& b == (App { table_state: b.table_state, ..a })
    &&& table_selected(b.table_state) == row
    &&& table_selected_column(b.table_state) == col
    &&& table_offset(b.table_state) == table_offset(a.table_state)
}

/// How a key acts in the normal input mode (no text field being edited, no
/// save dialog open).
pub open spec fn normal_key(a: App, key: Key, b: App, r: KeyAction) -> bool {
    let main = a.current_screen == CurrentScreen::Main;
    let row = table_selected(a.table_state);
    let col = table_selected_column(a.table_state);
    match key {
        Key::Char('q') => b == (App { exit: true, ..a }) && r == KeyAction::Nothing,
        Key::Down => r == KeyAction::Nothing && if main {
            table_moved(a, b, Some(match row { Some(i) => i.saturating_add(1), None => 0 }), col)
        } else {
            b == a
        },
        Key::Up => r == KeyAction::Nothing && if main {
            table_moved(a, b, Some(match row { Some(i) => i.saturating_sub(1), None => usize::MAX }), col)
        } else {
            b == a
        },
        Key::Right => r == KeyAction::Nothing && if main {
            table_moved(a, b, row, Some(match col { Some(i) => i.saturating_add(1), None => 0 }))
        } else {
            b == a
        },
        Key::Left => r == KeyAction::Nothing && if main {
            table_moved(a, b, row, Some(match col { Some(i) => i.saturating_sub(1), None => usize::MAX }))
        } else {
            b == a
        },
        Key::Char('f') => r == KeyAction::Nothing && if main {
            b == (App { current_input_mode: InputMode::EditingFilter, ..a })
        } else {
            b == a
        },
        Key::Char('s') => r == KeyAction::Nothing && if main {
            b == (App { current_input_mode: InputMode::EditingSearch, ..a })
        } else if a.current_screen == CurrentScreen::Watch {
            b == (App { current_screen: CurrentScreen::WatchSaveFileProvidePath, ..a })
        } else {
            b == a
        },
        Key::Esc => r == KeyAction::Nothing && if main {
            b == (App { current_input_mode: InputMode::Normal, ..a })
        } else {
            b == a
        },
        Key::Char('l') => r == KeyAction::Nothing && b == (App { current_screen: CurrentScreen::Watch, ..a }),
        Key::Char('m') => r == KeyAction::Nothing && b == (App { current_screen: CurrentScreen::Main, ..a }),
        Key::Char('p') => r == KeyAction::Nothing && b == (App { current_screen: CurrentScreen::Plots, ..a }),
        Key::Char('r') => if main {
            &&& arranged(a, a.process_display_kind, requested_settings(a), b)
            &&& r == arrange_action(arrangeable(a, a.process_display_kind, requested_settings(a)))
        } else {
            b == a && r == KeyAction::Nothing
        },
        Key::Char('w') => r == KeyAction::Nothing && if main {
            watch_requested(a, b)
        } else {
            b == a
        },
        Key::Char('t') => if main {
            &&& arranged(a, flipped(a.process_display_kind), a.table_order_settings, b)
            &&& r == arrange_action(arrangeable(a, flipped(a.process_display_kind), a.table_order_settings))
        } else {
            b == a && r == KeyAction::Nothing
        },
        _ => b == a && r == KeyAction::Nothing,
    }
}

/// How a key acts on the interface `a` (giving `b` and the action `r`):
/// first the save dialog, then a text field being edited, then the normal
/// keys. `save_input_empty` tells whether the file name field is empty.
pub open spec fn key_reaction(a: App, key: Key, save_input_empty: bool, b: App, r: KeyAction) -> bool {
    if a.current_screen == CurrentScreen::WatchSaveFileConfirm {
        if key == Key::Char('y') || key == Key::Char('Y') {
            b == (App { current_screen: CurrentScreen::Watch, ..a }) && r == KeyAction::SaveWatched
        } else if key == Key::Char('n') || key == Key::Char('N') {
            b == (App { current_screen: CurrentScreen::WatchSaveFileProvidePath, ..a }) && r
                == KeyAction::Nothing
        } else {
            b == a && r == KeyAction::Nothing
        }
    } else if a.current_screen == CurrentScreen::WatchSaveFileProvidePath {
        if key == Key::Esc {
            b == (App { current_screen: CurrentScreen::Watch, ..a }) && r == KeyAction::ResetSaveInput
        } else if key == Key::Enter && !save_input_empty {
            b == a && r == KeyAction::CheckSavePath
        } else {
            b == a && r == KeyAction::ForwardToSaveInput
        }
    } else if a.current_input_mode == InputMode::EditingFilter {
        if key == Key::Esc {
            b == (App { current_input_mode: InputMode::Normal, ..a }) && r == KeyAction::ResetFilterInput
        } else if key == Key::Enter {
            b == (App { current_input_mode: InputMode::Normal, ..a }) && r == KeyAction::Nothing
        } else {
            b == a && r == KeyAction::ForwardToFilterInput
        }
    } else if a.current_input_mode == InputMode::EditingSearch {
        let idx = a.search_state.current_match_idx;
        let n = a.search_state.matched_rows@.len();
        if key == Key::Esc {
            &&& b == (App {
                search_state: b.search_state,
                current_input_mode: InputMode::Normal,
                ..a
            })
            &&& b.search_state.query@.len() == 0
            &&& b.search_state.current_match_idx is None
            &&& b.search_state.matched_rows@.len() == 0
            &&& r == KeyAction::ResetSearchInput
        } else if key == Key::Down {
            &&& b == (App { search_state: b.search_state, ..a })
            &&& b.search_state == (SearchState {
                current_match_idx: match idx {
                    Some(c) => if c + 1 < n {
                        Some((c + 1) as usize)
                    } else {
                        Some(c)
                    },
                    None => None,
                },
                ..a.search_state
            })
            &&& r == KeyAction::Nothing
        } else if key == Key::Up {
            &&& b == (App { search_state: b.search_state, ..a })
            &&& b.search_state == (SearchState {
                current_match_idx: match idx {
                    Some(c) => if c > 0 {
                        Some((c - 1) as usize)
                    } else {
                        Some(c)
                    },
                    None => None,
                },
                ..a.search_state
            })
            &&& r == KeyAction::Nothing
        } else {
            b == a && r == KeyAction::ForwardToSearchInput
        }
    } else {
        normal_key(a, key, b, r)
    }
}

/// The row that drawing selects: the row of the current match, while a
/// search is going on and that row is among those drawn.
pub open spec fn selected_match(active: bool, current_row: Option<usize>, drawn: Seq<usize>) -> Option<
    usize,
> {
    match current_row {
        Some(m) => if active && drawn.contains(m) {
            Some(m)
        } else {
            None
        },
        None => None,
    }
}

/// The history of the watched process after a sample whose arranged rows
/// are `rows`: the status of the first row of that process is pushed onto it
/// (nothing when the process has no row).
pub open spec fn history_after_sample(
    before: Option<ProcessHistory>,
    after: Option<ProcessHistory>,
    rows: Seq<ProcessInfo>,
) -> bool {
    match before {
        None => after is None,
        Some(h) => after matches Some(h2) && h2.pid == h.pid && h2.history.capacity
            == h.history.capacity && h2.history.buf@ == match first_pid_index(rows, h.pid) {
            Some(i) => ring_push(h.history.buf@, h.history.capacity as nat, rows[i].status),
            None => h.history.buf@,
        },
    }
}

/// The position of the first row of `rows` with pid `pid`.
fn find_first_pid(rows: &Vec<ProcessInfo>, pid: u64) -> (r: Option<usize>)
    ensures
        match r {
            Some(j) => first_pid_index(rows@, pid) == Some(j as int) && j < rows@.len(),
            None => first_pid_index(rows@, pid) is None,
        },
{
    let mut idx: usize = 0;
    assert(rows@.take(0) =~= Seq::<ProcessInfo>::empty());
    while idx < rows.len()
        invariant
            idx <= rows@.len(),
            first_pid_index(rows@.take(idx as int), pid) is None,
        decreases rows.len() - idx,
    {
        assert(rows@.take(idx + 1).drop_last() =~= rows@.take(idx as int));
        if rows[idx].pid == pid {
            proof {
                lemma_first_pid_extends(rows@, pid, idx + 1);
            }
            return Some(idx);
        }
        idx = idx + 1;
    }
    assert(rows@.take(rows@.len() as int) =~= rows@);
    None
}

proof fn lemma_first_pid_extends(rows: Seq<ProcessInfo>, pid: u64, k: int)
    requires
        0 <= k <= rows.len(),
        first_pid_index(rows.take(k), pid) is Some,
    ensures
        first_pid_index(rows, pid) == first_pid_index(rows.take(k), pid),
    decreases rows.len() - k,
{
    if k < rows.len() {
        assert(rows.take(k + 1).drop_last() =~= rows.take(k));
        lemma_first_pid_extends(rows, pid, k + 1);
    } else {
        assert(rows.take(k) =~= rows);
    }
}

/// Where the first hit lies among the first `k` areas, it is the first hit of all.
proof fn lemma_first_hit_extends(areas: Seq<Area>, x: u16, k: int)
    requires
        0 <= k <= areas.len(),
        first_column_hit(areas.take(k), x) is Some,
    ensures
        first_column_hit(areas, x) == first_column_hit(areas.take(k), x),
    decreases areas.len() - k,
{
    if k < areas.len() {
        assert(areas.take(k + 1).drop_last() =~= areas.take(k));
        lemma_first_hit_extends(areas, x, k + 1);
    } else {
        assert(areas.take(k) =~= areas);
    }
}

} // verus!

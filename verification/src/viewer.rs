//! The viewer's state and the decisions of its event loop.
//!
//! The loop itself belongs to the program around this library: it draws the
//! rows, waits for a key or a change of the file for at most
//! [`POLL_CEILING_MS`], reads the file, and tells the viewer what happened
//! with [`App::step`]. The viewer answers with what the program is to do
//! next.

use crate::layout::columns_of;
use crate::layout::display_rows;
use crate::layout::layout;
use crate::layout::rows_view;
use crate::layout::Area;
use crate::layout::Columns;
use crate::layout::DisplayRow;
use crate::layout::RowView;
use crate::picker::hop_due;
use crate::picker::hopped;
use crate::picker::HighlightPicker;
use crate::picker::PickerView;
use crate::scroll::fitted;
use crate::scroll::line_step;
use crate::scroll::line_step_of;
use crate::scroll::moved;
use crate::scroll::page_height;
use crate::scroll::page_height_of;
use crate::scroll::ScrollState;
use crate::snapshot::changed;
use crate::snapshot::changed_keys;
use crate::snapshot::contents_view;
use crate::snapshot::load_outcome;
use crate::snapshot::LoadError;
use crate::snapshot::Snapshots;
use crate::snapshot::SnapshotsView;
use vstd::prelude::*;
use vstd::string::StrSliceExecFns;

verus! {

/// The longest that the loop waits for a key or a change of the file, in
/// milliseconds. It keeps the highlight hopping on time while nothing else
/// happens.
pub const POLL_CEILING_MS: u64 = 250;

/// The marker that is shown by default.
pub const DEFAULT_MARKER: char = '\u{1F9CC}';

/// The marker that a flag starting with `w` selects.
pub const ALTERNATE_MARKER: char = '\u{1F9D9}';

/// The marker that the flag of the command line selects: the alternate one
/// where its first character is `w` or `W`, the default one for every other
/// flag and for none.
pub open spec fn marker_of(flag: Option<Seq<char>>) -> char {
    match flag {
        Some(f) => if f.len() > 0 && (f[0] == 'w' || f[0] == 'W') {
            ALTERNATE_MARKER
        } else {
            DEFAULT_MARKER
        },
        None => DEFAULT_MARKER,
    }
}

/// The marker for the flag given on the command line, if one was given.
pub fn marker_for(flag: Option<&str>) -> (marker: char)
    ensures
        marker == marker_of(contents_view(flag)),
{
    match flag {
        Some(f) => {
            if f.unicode_len() > 0 {
                let first = f.get_char(0);
                if first == 'w' || first == 'W' {
                    return ALTERNATE_MARKER;
                }
            }
            DEFAULT_MARKER
        },
        None => DEFAULT_MARKER,
    }
}

/// A key as the terminal reports it.
#[derive(Structural, PartialEq, Eq, Clone, Copy, Debug)]
pub enum Key {
    Char(char),
    PageDown,
    PageUp,
    Down,
    Up,
    Other,
}

/// What a key asks for.
#[derive(Structural, PartialEq, Eq, Clone, Copy, Debug)]
pub enum Command {
    /// Leave the loop.
    Quit,
    /// Move the selection by so many rows, down for a positive number.
    Scroll(i64),
    /// Switch to the next pane of the terminal multiplexer.
    SwitchPane,
    /// Nothing.
    Ignore,
}

/// The command of a key in a terminal of `terminal_height` rows: `q` and `7`
/// quit; `j` and the down arrow move a line step down, `k` and the up arrow a
/// line step up; page down and page up move by a page; `3` switches the pane;
/// every other key is ignored.
pub open spec fn command_of(key: Key, terminal_height: u16) -> Command {
    match key {
        Key::Char(c) => if c == 'q' || c == '7' {
            Command::Quit
        } else if c == 'j' {
            Command::Scroll(line_step_of(terminal_height as int) as i64)
        } else if c == 'k' {
            Command::Scroll((-line_step_of(terminal_height as int)) as i64)
        } else if c == '3' {
            Command::SwitchPane
        } else {
            Command::Ignore
        },
        Key::Down => Command::Scroll(line_step_of(terminal_height as int) as i64),
        Key::Up => Command::Scroll((-line_step_of(terminal_height as int)) as i64),
        Key::PageDown => Command::Scroll(page_height_of(terminal_height as int) as i64),
        Key::PageUp => Command::Scroll((-page_height_of(terminal_height as int)) as i64),
        Key::Other => Command::Ignore,
    }
}

/// Decodes a key.
pub fn command_for(key: Key, terminal_height: u16) -> (command: Command)
    ensures
        command == command_of(key, terminal_height),
{
    match key {
        Key::Char(c) => {
            if c == 'q' || c == '7' {
                Command::Quit
            } else if c == 'j' {
                Command::Scroll(line_step(terminal_height))
            } else if c == 'k' {
                Command::Scroll(-line_step(terminal_height))
            } else if c == '3' {
                Command::SwitchPane
            } else {
                Command::Ignore
            }
        },
        Key::Down => Command::Scroll(line_step(terminal_height)),
        Key::Up => Command::Scroll(-line_step(terminal_height)),
        Key::PageDown => Command::Scroll(page_height(terminal_height)),
        Key::PageUp => Command::Scroll(-page_height(terminal_height)),
        Key::Other => Command::Ignore,
    }
}

/// What happened in one iteration of the loop.
pub enum Event<'a> {
    /// A key was pressed in a terminal of so many rows.
    Key { key: Key, terminal_height: u16 },
    /// The file was read again at time `now`, in milliseconds; `contents` is
    /// `None` where it could not be read.
    Reload { contents: Option<&'a str>, now: u64 },
}

/// What the program is to do after an event.
#[derive(Structural, PartialEq, Eq, Clone, Copy, Debug)]
pub enum Action {
    /// Go on with the loop.
    Continue,
    /// Leave the loop.
    Quit,
    /// Start the command that switches the pane, ignore whether it fails, and
    /// go on with the loop.
    SwitchPane,
}

/// The viewer's state as mathematics sees it.
pub struct AppView {
    pub store: SnapshotsView,
    pub picker: PickerView,
    pub selected: Option<int>,
    pub marker: char,
}

/// The state of a viewer: the two tables, the highlight, the scroll cursor
/// and the marker.
pub struct App {
    store: Snapshots,
    picker: HighlightPicker,
    scroll: ScrollState,
    marker: char,
}

impl View for App {
    type V = AppView;

    closed spec fn view(&self) -> AppView {
        AppView {
            store: self.store@,
            picker: self.picker@,
            selected: self.scroll@,
            marker: self.marker,
        }
    }
}

/// The selection points at a row of the current table, or there is none.
pub open spec fn selection_fits(view: AppView) -> bool {
    view.selected matches Some(i) ==> 0 <= i < view.store.current.len()
}

/// The state after a key: a scroll command moves the selection, every other
/// command leaves the state as it is.
pub open spec fn after_key(view: AppView, key: Key, terminal_height: u16) -> AppView {
    match command_of(key, terminal_height) {
        Command::Scroll(delta) => AppView {
            selected: moved(view.selected, delta as int, view.store.current.len()),
            ..view
        },
        _ => view,
    }
}

/// How a reload at `now` takes the state from `before` to `after`;
/// `contents` is what was read of the file, `None` where it could not be
/// read.
///
/// Contents that load replace the current table, and the selection is
/// brought back into the new table. Every failure leaves the current table
/// and the selection as they were. The highlight hops as [`hopped`] says,
/// over the tables as they are after the load. The baseline and the marker
/// stay.
pub open spec fn reloaded(
    before: AppView,
    contents: Option<Seq<char>>,
    now: u64,
    after: AppView,
) -> bool {
    &&& after.store.baseline == before.store.baseline
    &&& after.marker == before.marker
    &&& after.store.current == match load_outcome(contents) {
        Ok(table) => table,
        Err(_) => before.store.current,
    }
    &&& after.selected == match load_outcome(contents) {
        Ok(table) => fitted(before.selected, table.len()),
        Err(_) => before.selected,
    }
    &&& hopped(before.picker, after.store.baseline, after.store.current, now, after.picker)
}

/// A reload never takes the selection out of the table, and after a reload
/// that loads, the selection is inside the table whatever it was.
pub proof fn lemma_reload_fits_selection(
    before: AppView,
    contents: Option<Seq<char>>,
    now: u64,
    after: AppView,
)
    requires
        reloaded(before, contents, now, after),
    ensures
        selection_fits(before) ==> selection_fits(after),
        load_outcome(contents) is Ok ==> selection_fits(after),
{
}

/// The rows that a state shows in given columns.
pub open spec fn shown_rows(view: AppView, columns: Columns) -> Seq<RowView> {
    display_rows(
        view.store.baseline,
        view.store.current,
        view.picker.highlight_key,
        view.marker,
        columns,
    )
}

/// A reload that fails, before the highlight is due to hop, changes nothing:
/// the tables, the selection and the highlight are as before, and so is
/// every row that is shown.
pub proof fn lemma_failed_reload_changes_nothing(
    before: AppView,
    contents: Option<Seq<char>>,
    now: u64,
    after: AppView,
    columns: Columns,
)
    requires
        reloaded(before, contents, now, after),
        load_outcome(contents) is Err,
        !hop_due(before.picker.last_hop_time, now),
    ensures
        after == before,
        shown_rows(after, columns) == shown_rows(before, columns),
{
}

/// A reload that fails leaves the tables as they were, whatever the
/// highlight does: the same keys are changed after it as before.
pub proof fn lemma_failed_reload_keeps_tables(
    before: AppView,
    contents: Option<Seq<char>>,
    now: u64,
    after: AppView,
)
    requires
        reloaded(before, contents, now, after),
        load_outcome(contents) is Err,
    ensures
        after.store == before.store,
        changed_keys(after.store.baseline, after.store.current) == changed_keys(
            before.store.baseline,
            before.store.current,
        ),
{
}

/// Reloading is idempotent: a second reload of the same contents, before the
/// highlight is due to hop again, changes nothing. So a burst of changes to
/// the file comes to the same as one.
pub proof fn lemma_reload_is_idempotent(
    before: AppView,
    contents: Option<Seq<char>>,
    first: u64,
    once: AppView,
    second: u64,
    twice: AppView,
)
    requires
        reloaded(before, contents, first, once),
        reloaded(once, contents, second, twice),
        !hop_due(once.picker.last_hop_time, second),
    ensures
        twice == once,
{
}

/// A key never leaves the selection outside the table.
pub proof fn lemma_key_fits_selection(before: AppView, key: Key, terminal_height: u16)
    requires
        selection_fits(before),
    ensures
        selection_fits(after_key(before, key, terminal_height)),
{
}

/// What the program is to do after a key.
pub open spec fn action_of(key: Key, terminal_height: u16) -> Action {
    match command_of(key, terminal_height) {
        Command::Quit => Action::Quit,
        Command::SwitchPane => Action::SwitchPane,
        _ => Action::Continue,
    }
}

impl App {
    /// Starts a viewer on the contents of the file, read at time `now`. The
    /// contents give the baseline and the first current table. Nothing is
    /// selected and nothing is marked. Fails where the baseline cannot be
    /// loaded, with the error of the load.
    pub fn new(contents: Option<&str>, marker: char, now: u64) -> (started: Result<App, LoadError>)
        ensures
            match load_outcome(contents_view(contents)) {
                Ok(rows) => started matches Ok(app) && app@ == (AppView {
                    store: SnapshotsView { baseline: rows, current: rows },
                    picker: PickerView { last_hop_time: now, highlight_key: None },
                    selected: None,
                    marker,
                }),
                Err(e) => started matches Err(reported) && reported == e,
            },
    {
        match Snapshots::capture_baseline(contents) {
            Ok(store) => Ok(
                App {
                    store,
                    picker: HighlightPicker::new(now),
                    scroll: ScrollState::new(),
                    marker,
                },
            ),
            Err(e) => Err(e),
        }
    }

    /// The two tables.
    pub fn store(&self) -> (store: &Snapshots)
        ensures
            store@ == self@.store,
    {
        &self.store
    }

    /// The highlight picker.
    pub fn picker(&self) -> (picker: &HighlightPicker)
        ensures
            picker@ == self@.picker,
    {
        &self.picker
    }

    /// The selected row.
    pub fn selected(&self) -> (row: Option<usize>)
        ensures
            match row {
                Some(i) => self@.selected == Some(i as int),
                None => self@.selected is None,
            },
    {
        self.scroll.selected()
    }

    /// The marker.
    pub fn marker(&self) -> (marker: char)
        ensures
            marker == self@.marker,
    {
        self.marker
    }

    /// Takes in the contents of the file as read at time `now`.
    ///
    /// Contents that load replace the current table, and the selection is
    /// brought back into the new table. Contents that do not load, and a file
    /// that could not be read, leave the table and the selection as they
    /// were. Then the highlight hops if five seconds have passed since its
    /// last hop; before that, a failed reload changes nothing at all. The
    /// baseline and the marker never change.
    pub fn refresh(&mut self, contents: Option<&str>, now: u64)
        ensures
            reloaded(old(self)@, contents_view(contents), now, final(self)@),
            selection_fits(old(self)@) ==> selection_fits(final(self)@),
            load_outcome(contents_view(contents)) is Err && !hop_due(
                old(self)@.picker.last_hop_time,
                now,
            ) ==> final(self)@ == old(self)@,
            final(self)@.picker.highlight_key != old(self)@.picker.highlight_key ==> (
                final(self)@.picker.highlight_key matches Some(key) && changed(
                    final(self)@.store.baseline,
                    final(self)@.store.current,
                    key,
                )
            ),
    {
        match self.store.refresh(contents) {
            Ok(_) => self.scroll.reclamp(self.store.row_count()),
            Err(_) => {},
        }
        self.picker.maybe_hop(&self.store, now);
    }

    /// Moves the selection by `dy` rows and keeps it inside the current
    /// table.
    pub fn scroll_relative(&mut self, dy: i64)
        ensures
            final(self)@ == (AppView {
                selected: moved(old(self)@.selected, dy as int, old(self)@.store.current.len()),
                ..old(self)@
            }),
            selection_fits(final(self)@),
    {
        self.scroll.move_by(dy, self.store.row_count());
    }

    /// Handles a key pressed in a terminal of `terminal_height` rows, and
    /// says what the program is to do.
    pub fn handle_key(&mut self, key: Key, terminal_height: u16) -> (action: Action)
        ensures
            final(self)@ == after_key(old(self)@, key, terminal_height),
            action == action_of(key, terminal_height),
            selection_fits(old(self)@) ==> selection_fits(final(self)@),
    {
        match command_for(key, terminal_height) {
            Command::Quit => Action::Quit,
            Command::Scroll(delta) => {
                self.scroll_relative(delta);
                Action::Continue
            },
            Command::SwitchPane => Action::SwitchPane,
            Command::Ignore => Action::Continue,
        }
    }

    /// Takes one event of the loop into the state, and says what the program
    /// is to do: a key as [`App::handle_key`] does, a reload as
    /// [`App::refresh`] does, after which the loop goes on.
    pub fn step(&mut self, event: Event) -> (action: Action)
        ensures
            match event {
                Event::Key { key, terminal_height } => final(self)@ == after_key(
                    old(self)@,
                    key,
                    terminal_height,
                ) && action == action_of(key, terminal_height),
                Event::Reload { contents, now } => reloaded(
                    old(self)@,
                    contents_view(contents),
                    now,
                    final(self)@,
                ) && action == Action::Continue,
            },
            selection_fits(old(self)@) ==> selection_fits(final(self)@),
    {
        match event {
            Event::Key { key, terminal_height } => self.handle_key(key, terminal_height),
            Event::Reload { contents, now } => {
                self.refresh(contents, now);
                Action::Continue
            },
        }
    }

    /// The display rows of the current table for a terminal area, as
    /// [`layout`] makes them.
    pub fn rows(&self, area: Area) -> (rows: Vec<DisplayRow>)
        ensures
            rows_view(rows@) == shown_rows(self@, columns_of(area.width)),
    {
        layout(
            self.store.current(),
            self.store.baseline(),
            self.picker.highlight_key(),
            self.marker,
            area,
        )
    }
}

} // verus!

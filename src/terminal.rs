//! The interaction loop's decisions: a state machine from the current session
//! and one key to the next session and the action to take.
//!
//! Whoever drives the loop reads a key, hands it to `Session::handle_key`, and
//! performs the action it gets back: repaint, run a search and hand its outcome
//! to `Session::finish_search`, look up `State::resolve_targets` and hand the
//! links to `all_resolved`, or stop.

use crate::asana::SearchTasksData;
use crate::controller::{fresh_state, State, StateView};
use crate::prompt::{
    end_column, erase_before, erased, insert_at, inserted, kill_after, killed, left_column,
    lemma_ends_ok, lemma_erase_ok, lemma_insert_ok, lemma_kill_ok, lemma_left_ok,
    lemma_point_above_zero, lemma_point_before_end, lemma_point_in_range, lemma_right_ok,
    line_ok, move_left, move_right, right_column,
};
use crate::width::{
    char_width, col_width, edit_point, lemma_cursor_round_trip, lemma_prefix_on_boundary,
    narrow_or_wide, prefix_width, text_width,
};
use vstd::prelude::*;

verus! {

/// A key as the terminal reports it.
#[derive(Clone, Copy, Debug, PartialEq, Eq, Structural)]
pub enum Key {
    /// A character; Enter comes as `'\n'` and Tab as `'\t'`.
    Char(char),
    /// A letter typed with Ctrl held.
    Ctrl(char),
    Left,
    Right,
    Up,
    Down,
    PageUp,
    PageDown,
    Backspace,
    /// Any other key.
    Other,
}

/// Whether the user edits the query or moves through the results.
#[derive(Clone, Copy, Debug, PartialEq, Eq, Structural)]
pub enum Mode {
    Prompt,
    Results,
}

/// What the loop does after a key.
#[derive(Clone, Copy, Debug, PartialEq, Eq, Structural)]
pub enum Action {
    /// Nothing changed: wait for the next key.
    Ignore,
    /// Paint the session again.
    Redraw,
    /// Search for the query, then hand the outcome to `finish_search`.
    Search,
    /// Look up the links of `resolve_targets`, then stop with them.
    Resolve,
    /// Stop with no links.
    Quit,
}

/// Rows above the first result row: the header, a blank row, the prompt and
/// another blank row.
pub open spec fn header_rows() -> int {
    4
}

/// The last result row that the viewport shows on a terminal `rows` high.
pub open spec fn last_visible_row(rows: u16) -> int {
    if rows > header_rows() {
        rows - header_rows() - 1
    } else {
        0
    }
}

/// What a `Session` holds, as mathematical values.
pub struct SessionView {
    pub state: StateView,
    pub mode: Mode,
    /// The cursor's column on the prompt line, counted from the query's start.
    pub cursor: nat,
    /// The last search failed.
    pub failed: bool,
}

impl SessionView {
    pub open spec fn wf(self) -> bool {
        &&& self.state.wf()
        &&& self.state.tasks.len() <= usize::MAX
        &&& line_ok(self.state.text, self.cursor)
        &&& self.mode == Mode::Results ==> self.state.index < self.state.tasks.len()
    }

    pub open spec fn with_state(self, state: StateView) -> SessionView {
        SessionView { state, ..self }
    }

    pub open spec fn with_cursor(self, cursor: nat) -> SessionView {
        SessionView { cursor, ..self }
    }

    /// Back to the prompt, the cursor at the end of the query.
    pub open spec fn to_prompt(self) -> SessionView {
        SessionView { mode: Mode::Prompt, cursor: text_width(self.state.text), ..self }
    }

    /// Into the results, at the first row.
    pub open spec fn to_results(self) -> SessionView {
        SessionView {
            mode: Mode::Results,
            state: StateView { index: 0, ..self.state },
            ..self
        }
    }

    pub open spec fn at_row(self, index: usize) -> SessionView {
        SessionView { state: StateView { index, ..self.state }, ..self }
    }
}

pub open spec fn is_left(k: Key) -> bool {
    k == Key::Left || k == Key::Ctrl('b')
}

pub open spec fn is_right(k: Key) -> bool {
    k == Key::Right || k == Key::Ctrl('f')
}

pub open spec fn is_up(k: Key) -> bool {
    k == Key::Up || k == Key::Ctrl('p')
}

pub open spec fn is_down(k: Key) -> bool {
    k == Key::Down || k == Key::Ctrl('n')
}

pub open spec fn is_backspace(k: Key) -> bool {
    k == Key::Backspace || k == Key::Ctrl('h')
}

/// A key in prompt mode.
pub open spec fn prompt_step(s: SessionView, key: Key) -> (SessionView, Action) {
    let text = s.state.text;
    let x = s.cursor;
    if key == Key::Ctrl('c') {
        (s, Action::Quit)
    } else if key == Key::Char('\n') {
        (s, Action::Search)
    } else if is_left(key) {
        if x > 0 {
            (s.with_cursor(left_column(text, x)), Action::Redraw)
        } else {
            (s, Action::Ignore)
        }
    } else if is_right(key) {
        if x < text_width(text) {
            (s.with_cursor(right_column(text, x)), Action::Redraw)
        } else {
            (s, Action::Ignore)
        }
    } else if is_backspace(key) {
        if x > 0 {
            (
                s.with_state(StateView { text: erased(text, x), ..s.state }).with_cursor(
                    left_column(text, x),
                ),
                Action::Redraw,
            )
        } else {
            (s, Action::Ignore)
        }
    } else if key == Key::Ctrl('a') {
        (s.with_cursor(0), Action::Redraw)
    } else if key == Key::Ctrl('e') {
        (s.with_cursor(text_width(text)), Action::Redraw)
    } else if key == Key::Ctrl('k') {
        (s.with_state(StateView { text: killed(text, x), ..s.state }), Action::Redraw)
    } else if is_down(key) {
        if s.state.tasks.len() > 0 {
            (s.to_results(), Action::Redraw)
        } else {
            (s, Action::Ignore)
        }
    } else if let Key::Char(c) = key {
        if char_width(c) is Some && text_width(text) + col_width(c) <= usize::MAX {
            (
                s.with_state(StateView { text: inserted(text, x, c), ..s.state }).with_cursor(
                    x + col_width(c),
                ),
                Action::Redraw,
            )
        } else {
            (s, Action::Ignore)
        }
    } else {
        (s, Action::Ignore)
    }
}

/// A key in results mode, on a terminal `rows` high.
pub open spec fn results_step(s: SessionView, key: Key, rows: u16) -> (SessionView, Action) {
    let index = s.state.index;
    let len = s.state.tasks.len();
    if key == Key::Ctrl('c') {
        (s, Action::Quit)
    } else if key == Key::Ctrl('s') {
        (s.to_prompt(), Action::Redraw)
    } else if is_up(key) {
        if index > 0 {
            (s.at_row((index - 1) as usize), Action::Redraw)
        } else {
            (s.to_prompt(), Action::Redraw)
        }
    } else if is_down(key) {
        if index + 1 < len && index < last_visible_row(rows) {
            (s.at_row((index + 1) as usize), Action::Redraw)
        } else {
            (s, Action::Ignore)
        }
    } else if key == Key::PageUp {
        (s.at_row(0), Action::Redraw)
    } else if key == Key::PageDown {
        let last = if len - 1 < last_visible_row(rows) {
            len - 1
        } else {
            last_visible_row(rows)
        };
        (s.at_row(last as usize), Action::Redraw)
    } else if key == Key::Char('\t') {
        (s.with_state(s.state.toggled()), Action::Redraw)
    } else if key == Key::Char('\n') {
        (s, Action::Resolve)
    } else {
        (s, Action::Ignore)
    }
}

/// The session and action after one key, on a terminal `rows` high.
pub open spec fn step(s: SessionView, key: Key, rows: u16) -> (SessionView, Action) {
    match s.mode {
        Mode::Prompt => prompt_step(s, key),
        Mode::Results => results_step(s, key, rows),
    }
}

/// The session after a search: `None` where it failed.
pub open spec fn after_search(s: SessionView, found: Option<Seq<SearchTasksData>>) -> SessionView {
    match found {
        None => SessionView { mode: Mode::Prompt, failed: true, ..s },
        Some(items) => SessionView {
            state: s.state.searched(items),
            mode: if items.len() > 0 {
                Mode::Results
            } else {
                Mode::Prompt
            },
            failed: false,
            ..s
        },
    }
}

/// The session after the keys `keys`, one after another, on a terminal `rows`
/// high; searches and lookups that the keys ask for are not run.
pub open spec fn after_keys(s: SessionView, keys: Seq<Key>, rows: u16) -> SessionView
    decreases keys.len(),
{
    if keys.len() == 0 {
        s
    } else {
        after_keys(step(s, keys[0], rows).0, keys.drop_first(), rows)
    }
}

proof fn lemma_toggled_wf(st: StateView)
    requires
        st.wf(),
    ensures
        st.toggled().wf(),
        st.toggled().tasks == st.tasks,
        st.toggled().index == st.index,
        st.toggled().text == st.text,
{
    let t = st.toggled();
    assert forall|i: usize| #[trigger] t.checked.contains(i) implies i < t.tasks.len() by {
        if i != st.index {
            assert(st.checked.contains(i));
        }
    }
}

/// Every key keeps a valid session valid.
pub proof fn lemma_step_wf(s: SessionView, key: Key, rows: u16)
    requires
        s.wf(),
    ensures
        step(s, key, rows).0.wf(),
{
    let text = s.state.text;
    let x = s.cursor;
    lemma_ends_ok(text);
    match s.mode {
        Mode::Prompt => {
            if is_left(key) && x > 0 {
                lemma_left_ok(text, x);
            } else if is_right(key) && x < text_width(text) {
                lemma_right_ok(text, x);
            } else if is_backspace(key) && x > 0 {
                lemma_erase_ok(text, x);
            } else if key == Key::Ctrl('k') {
                lemma_kill_ok(text, x);
            } else if let Key::Char(c) = key {
                if text_width(text) + col_width(c) <= usize::MAX {
                    lemma_insert_ok(text, x, c);
                }
            }
        },
        Mode::Results => {
            lemma_toggled_wf(s.state);
        },
    }
}

/// However many keys come, the cursor of a valid session stays on a character
/// boundary: it is the width of the characters left of its edit point.
pub proof fn lemma_cursor_on_boundary(s: SessionView, keys: Seq<Key>, rows: u16)
    requires
        s.wf(),
    ensures
        after_keys(s, keys, rows).wf(),
        after_keys(s, keys, rows).cursor == prefix_width(
            after_keys(s, keys, rows).state.text,
            edit_point(after_keys(s, keys, rows).state.text, after_keys(s, keys, rows).cursor) as int,
        ),
    decreases keys.len(),
{
    if keys.len() > 0 {
        lemma_step_wf(s, keys[0], rows);
        lemma_cursor_on_boundary(step(s, keys[0], rows).0, keys.drop_first(), rows);
    }
}

/// On a query whose characters each take one or two columns, each editing key
/// moves the edit point by whole characters, and the cursor column read back
/// gives that edit point again: left and backspace go one character back, right
/// and a typed character one forward, Ctrl-A to the start, Ctrl-E to the end,
/// and Ctrl-K leaves it at the new end.
pub proof fn lemma_edit_point_moves(s: SessionView, key: Key)
    requires
        s.wf(),
        s.mode == Mode::Prompt,
        narrow_or_wide(s.state.text),
        key matches Key::Char(c) ==> 1 <= col_width(c) <= 2,
    ensures
        ({
            let t = step(s, key, 0).0;
            let p = edit_point(s.state.text, s.cursor);
            let q = edit_point(t.state.text, t.cursor);
            &&& narrow_or_wide(t.state.text)
            &&& t.cursor == prefix_width(t.state.text, q as int)
            &&& is_left(key) && s.cursor > 0 ==> q == p - 1
            &&& is_right(key) && s.cursor < text_width(s.state.text) ==> q == p + 1
            &&& is_backspace(key) && s.cursor > 0 ==> q == p - 1 && t.state.text == s.state.text.remove(p - 1)
            &&& key == Key::Ctrl('a') ==> q == 0
            &&& key == Key::Ctrl('e') ==> q == s.state.text.len()
            &&& key == Key::Ctrl('k') ==> q == p && q == t.state.text.len()
            &&& key matches Key::Char(c) ==> (key != Key::Char('\n') && step(s, key, 0).1
                == Action::Redraw ==> q == p + 1 && t.state.text == s.state.text.insert(p as int, c))
        }),
{
    let text = s.state.text;
    let x = s.cursor;
    let p = edit_point(text, x) as int;
    lemma_step_wf(s, key, 0);
    lemma_ends_ok(text);
    lemma_point_in_range(text, x);
    let t = step(s, key, 0).0;
    if is_left(key) && x > 0 {
        lemma_left_ok(text, x);
        lemma_point_above_zero(text, x);
        lemma_cursor_round_trip(text, p - 1);
    } else if is_right(key) && x < text_width(text) {
        lemma_right_ok(text, x);
        lemma_point_before_end(text, x);
        lemma_cursor_round_trip(text, p + 1);
    } else if is_backspace(key) && x > 0 {
        lemma_erase_ok(text, x);
        lemma_point_above_zero(text, x);
        let e = erased(text, x);
        assert(narrow_or_wide(e)) by {
            assert forall|i: int| 0 <= i < e.len() implies 1 <= #[trigger] col_width(e[i]) <= 2 by {
                if i < p - 1 {
                    assert(e[i] == text[i]);
                } else {
                    assert(e[i] == text[i + 1]);
                }
            }
        }
        lemma_cursor_round_trip(e, p - 1);
    } else if key == Key::Ctrl('a') {
        lemma_cursor_round_trip(text, 0);
    } else if key == Key::Ctrl('e') {
        lemma_cursor_round_trip(text, text.len() as int);
    } else if key == Key::Ctrl('k') {
        lemma_kill_ok(text, x);
        let k = killed(text, x);
        assert(narrow_or_wide(k)) by {
            assert forall|i: int| 0 <= i < k.len() implies 1 <= #[trigger] col_width(k[i]) <= 2 by {
                assert(k[i] == text[i]);
            }
        }
        lemma_cursor_round_trip(k, p);
    } else if let Key::Char(c) = key {
        if key != Key::Char('\n') && !is_down(key) && step(s, key, 0).1 == Action::Redraw {
            lemma_insert_ok(text, x, c);
            let n = inserted(text, x, c);
            assert(narrow_or_wide(n)) by {
                assert forall|i: int| 0 <= i < n.len() implies 1 <= #[trigger] col_width(n[i]) <= 2 by {
                    if i < p {
                        assert(n[i] == text[i]);
                    } else if i > p {
                        assert(n[i] == text[i - 1]);
                    }
                }
            }
            lemma_cursor_round_trip(n, p + 1);
        }
    }
}

/// A search that finds nothing leaves the session at the prompt with no marks,
/// the query and the cursor as they were.
pub proof fn lemma_search_found_nothing(s: SessionView)
    requires
        s.wf(),
        s.mode == Mode::Prompt,
    ensures
        after_search(s, Some(Seq::empty())).mode == Mode::Prompt,
        after_search(s, Some(Seq::empty())).state.checked.is_empty(),
        after_search(s, Some(Seq::empty())).state.text == s.state.text,
        after_search(s, Some(Seq::empty())).cursor == s.cursor,
        after_search(s, Some(Seq::empty())).wf(),
{
}

/// A search that finds items selects the first of them, clears the marks and
/// goes to the results.
pub proof fn lemma_search_found_items(s: SessionView, items: Seq<SearchTasksData>)
    requires
        s.wf(),
        0 < items.len() <= usize::MAX,
    ensures
        after_search(s, Some(items)).state.index == 0,
        after_search(s, Some(items)).state.checked.is_empty(),
        after_search(s, Some(items)).state.tasks == items,
        after_search(s, Some(items)).mode == Mode::Results,
        after_search(s, Some(items)).wf(),
{
}

/// Up on the first result row goes back to the prompt, with the cursor at the
/// end of the query, rather than below row 0.
pub proof fn lemma_up_at_first_row(s: SessionView, key: Key, rows: u16)
    requires
        s.wf(),
        s.mode == Mode::Results,
        s.state.index == 0,
        is_up(key),
    ensures
        step(s, key, rows).0.mode == Mode::Prompt,
        step(s, key, rows).0.state == s.state,
        step(s, key, rows).0.cursor == text_width(s.state.text),
        step(s, key, rows).1 == Action::Redraw,
{
}

/// Down on the last row that can be shown, the last item or the last row of the
/// viewport, changes nothing.
pub proof fn lemma_down_at_last_row(s: SessionView, key: Key, rows: u16)
    requires
        s.wf(),
        s.mode == Mode::Results,
        s.state.index + 1 == s.state.tasks.len() || s.state.index == last_visible_row(rows),
        is_down(key),
    ensures
        step(s, key, rows) == (s, Action::Ignore),
{
}

/// The interaction loop's state: the session state, the mode and the cursor.
pub struct Session {
    state: State,
    mode: Mode,
    cursor: usize,
    failed: bool,
}

impl View for Session {
    type V = SessionView;

    closed spec fn view(&self) -> SessionView {
        SessionView { state: self.state@, mode: self.mode, cursor: self.cursor as nat, failed: self.failed }
    }
}

impl Session {
    pub closed spec fn wf(&self) -> bool {
        &&& self@.wf()
        &&& self.state.wf()
    }

    /// The start of a run: prompt mode, empty query, cursor at its start.
    pub fn new(workspace_gid: &str, pats: &str) -> (r: Session)
        ensures
            r.wf(),
            r@.state == fresh_state(workspace_gid@, pats@),
            r@.mode == Mode::Prompt,
            r@.cursor == 0,
            !r@.failed,
    {
        let state = State::new(workspace_gid, pats);
        proof {
            lemma_prefix_on_boundary(state@.text, 0);
        }
        Session { state, mode: Mode::Prompt, cursor: 0, failed: false }
    }

    pub fn state(&self) -> (r: &State)
        ensures
            r@ == self@.state,
    {
        &self.state
    }

    pub fn mode(&self) -> (r: Mode)
        ensures
            r == self@.mode,
    {
        self.mode
    }

    pub fn cursor(&self) -> (r: usize)
        ensures
            r == self@.cursor,
    {
        self.cursor
    }

    pub fn search_failed(&self) -> (r: bool)
        ensures
            r == self@.failed,
    {
        self.failed
    }

    fn prompt_key(self, key: Key) -> (r: (Session, Action))
        requires
            self.wf(),
            self@.mode == Mode::Prompt,
        ensures
            r.0.wf(),
            (r.0@, r.1) == prompt_step(self@, key),
    {
        let x = self.cursor;
        if key == Key::Ctrl('c') {
            (self, Action::Quit)
        } else if key == Key::Char('\n') {
            (self, Action::Search)
        } else if key == Key::Left || key == Key::Ctrl('b') {
            if x > 0 {
                let nx = move_left(self.state.text(), x);
                (Session { cursor: nx, ..self }, Action::Redraw)
            } else {
                (self, Action::Ignore)
            }
        } else if key == Key::Right || key == Key::Ctrl('f') {
            if x < end_column(self.state.text()) {
                let nx = move_right(self.state.text(), x);
                (Session { cursor: nx, ..self }, Action::Redraw)
            } else {
                (self, Action::Ignore)
            }
        } else if key == Key::Backspace || key == Key::Ctrl('h') {
            if x > 0 {
                let (t, nx) = erase_before(self.state.text(), x);
                let state = self.state.edit_text(t.as_str());
                (Session { state, cursor: nx, ..self }, Action::Redraw)
            } else {
                (self, Action::Ignore)
            }
        } else if key == Key::Ctrl('a') {
            proof {
                lemma_prefix_on_boundary(self@.state.text, 0);
            }
            (Session { cursor: 0, ..self }, Action::Redraw)
        } else if key == Key::Ctrl('e') {
            let nx = end_column(self.state.text());
            (Session { cursor: nx, ..self }, Action::Redraw)
        } else if key == Key::Ctrl('k') {
            let t = kill_after(self.state.text(), x);
            let state = self.state.edit_text(t.as_str());
            (Session { state, ..self }, Action::Redraw)
        } else if key == Key::Down || key == Key::Ctrl('n') {
            if self.state.tasks().len() > 0 {
                let state = self.state.clear_index();
                (Session { state, mode: Mode::Results, ..self }, Action::Redraw)
            } else {
                (self, Action::Ignore)
            }
        } else if let Key::Char(c) = key {
            match insert_at(self.state.text(), x, c) {
                Some((t, nx)) => {
                    let state = self.state.edit_text(t.as_str());
                    (Session { state, cursor: nx, ..self }, Action::Redraw)
                },
                None => (self, Action::Ignore),
            }
        } else {
            (self, Action::Ignore)
        }
    }

    fn results_key(self, key: Key, rows: u16) -> (r: (Session, Action))
        requires
            self.wf(),
            self@.mode == Mode::Results,
        ensures
            r.0.wf(),
            (r.0@, r.1) == results_step(self@, key, rows),
    {
        let index = self.state.index();
        let len = self.state.tasks().len();
        let last: usize = if rows > 4 {
            (rows - 5) as usize
        } else {
            0
        };
        if key == Key::Ctrl('c') {
            (self, Action::Quit)
        } else if key == Key::Ctrl('s') {
            let nx = end_column(self.state.text());
            (Session { mode: Mode::Prompt, cursor: nx, ..self }, Action::Redraw)
        } else if key == Key::Up || key == Key::Ctrl('p') {
            if index > 0 {
                let state = self.state.dec_index();
                (Session { state, ..self }, Action::Redraw)
            } else {
                let nx = end_column(self.state.text());
                (Session { mode: Mode::Prompt, cursor: nx, ..self }, Action::Redraw)
            }
        } else if key == Key::Down || key == Key::Ctrl('n') {
            if index + 1 < len && index < last {
                let state = self.state.inc_index();
                (Session { state, ..self }, Action::Redraw)
            } else {
                (self, Action::Ignore)
            }
        } else if key == Key::PageUp {
            let state = self.state.clear_index();
            (Session { state, ..self }, Action::Redraw)
        } else if key == Key::PageDown {
            let row = if len - 1 < last {
                len - 1
            } else {
                last
            };
            let state = self.state.edit_index(row);
            (Session { state, ..self }, Action::Redraw)
        } else if key == Key::Char('\t') {
            let state = self.state.toggle_mark();
            (Session { state, ..self }, Action::Redraw)
        } else if key == Key::Char('\n') {
            (self, Action::Resolve)
        } else {
            (self, Action::Ignore)
        }
    }

    /// Takes one key on a terminal `rows` high.
    pub fn handle_key(self, key: Key, rows: u16) -> (r: (Session, Action))
        requires
            self.wf(),
        ensures
            r.0.wf(),
            (r.0@, r.1) == step(self@, key, rows),
    {
        match self.mode {
            Mode::Prompt => self.prompt_key(key),
            Mode::Results => self.results_key(key, rows),
        }
    }

    /// Takes in the outcome of the search that `Action::Search` asked for:
    /// `None` where it failed. A search that found items goes to the results;
    /// one that found none, or failed, stays at the prompt.
    pub fn finish_search(self, found: Option<Vec<SearchTasksData>>) -> (r: Session)
        requires
            self.wf(),
        ensures
            r.wf(),
            r@ == after_search(self@, match found {
                Some(v) => Some(v@),
                None => None,
            }),
    {
        match found {
            None => Session { mode: Mode::Prompt, failed: true, ..self },
            Some(items) => {
                let mode = if items.len() > 0 {
                    Mode::Results
                } else {
                    Mode::Prompt
                };
                let state = self.state.search(items);
                Session { state, mode, failed: false, ..self }
            },
        }
    }
}

} // verus!

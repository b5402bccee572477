//! What one paint of the screen shows: the header, the prompt line with its
//! cursor, and the visible part of the result list with each row's decoration.
//! A pure function of the session and the terminal size.

use crate::prompt::{chars_of, push_char, string_of};
use crate::terminal::{header_rows, Mode, Session, SessionView};
use crate::width::{char_columns, lemma_prefix_monotone, prefix_width};
use vstd::prelude::*;
use vstd::string::*;

verus! {

/// How a result row is decorated.
#[derive(Clone, Copy, Debug, PartialEq, Eq, Structural)]
pub enum RowStyle {
    Plain,
    Marked,
    Highlighted,
    HighlightedMarked,
}

/// One result row as painted.
pub struct FrameRow {
    pub title: String,
    pub style: RowStyle,
}

/// One paint of the screen.
pub struct Frame {
    /// The header line, padded to the terminal's width.
    pub header: String,
    /// The query, shown on the prompt line.
    pub query: String,
    /// Whether to say that the last search failed.
    pub search_failed: bool,
    /// The visible result rows, top down.
    pub rows: Vec<FrameRow>,
    /// The cursor's column on the prompt line, or `None` where it is hidden.
    pub cursor: Option<usize>,
}

/// The header's text.
pub open spec fn menu_bar() -> Seq<char> {
    "Asaru | Ctrl-c: Exit | Ctrl-s: Search | TAB: Select | Enter: Execute"@
}

/// `s` padded with spaces to `n` characters.
pub open spec fn padded(s: Seq<char>, n: nat) -> Seq<char> {
    if s.len() < n {
        s + Seq::new((n - s.len()) as nat, |i: int| ' ')
    } else {
        s
    }
}

/// The largest `k <= m` whose first `k` characters of `s` fit in `budget` columns.
pub open spec fn fit_count(s: Seq<char>, budget: nat, m: int) -> nat
    decreases m,
{
    if m <= 0 {
        0
    } else if prefix_width(s, m) <= budget {
        m as nat
    } else {
        fit_count(s, budget, m - 1)
    }
}

/// The longest start of `s` that fits in `budget` columns.
pub open spec fn fitted(s: Seq<char>, budget: nat) -> Seq<char> {
    s.take(fit_count(s, budget, s.len() as int) as int)
}

/// Columns left for a title: a row starts with a two-column marker.
pub open spec fn title_columns(cols: u16) -> nat {
    if cols >= 2 {
        (cols - 2) as nat
    } else {
        0
    }
}

/// How many result rows a terminal `rows` high shows.
pub open spec fn viewport_rows(rows: u16) -> nat {
    if rows > header_rows() {
        (rows - header_rows()) as nat
    } else {
        0
    }
}

/// How many result rows the paint shows.
pub open spec fn shown_rows(s: SessionView, rows: u16) -> nat {
    if s.state.tasks.len() < viewport_rows(rows) {
        s.state.tasks.len()
    } else {
        viewport_rows(rows)
    }
}

/// The decoration of row `i`: highlighted where it is the selected row in
/// results mode, marked where it is marked.
pub open spec fn style_of(s: SessionView, i: int) -> RowStyle {
    let lit = s.mode == Mode::Results && i == s.state.index;
    let marked = s.state.checked.contains(i as usize);
    if lit && marked {
        RowStyle::HighlightedMarked
    } else if lit {
        RowStyle::Highlighted
    } else if marked {
        RowStyle::Marked
    } else {
        RowStyle::Plain
    }
}

proof fn lemma_fit_count(s: Seq<char>, budget: nat, i: int, m: int)
    requires
        0 <= i <= m <= s.len(),
        prefix_width(s, i) <= budget,
        i < m ==> prefix_width(s, i + 1) > budget,
    ensures
        fit_count(s, budget, m) == i,
    decreases m,
{
    if m > i {
        lemma_prefix_monotone(s, i + 1, m);
        lemma_fit_count(s, budget, i, m - 1);
    }
}

/// The longest start of `s` that fits in `budget` columns.
pub fn fit_to_columns(s: &str, budget: usize) -> (r: String)
    ensures
        r@ == fitted(s@, budget as nat),
{
    let mut v = chars_of(s);
    let mut acc: usize = 0;
    let mut i: usize = 0;
    while i < v.len()
        invariant_except_break
            i <= v@.len(),
            v@ == s@,
            acc == prefix_width(v@, i as int),
            acc <= budget,
        ensures
            i <= v@.len(),
            v@ == s@,
            acc == prefix_width(v@, i as int),
            acc <= budget,
            i < v@.len() ==> prefix_width(v@, i + 1) > budget,
        decreases v@.len() - i,
    {
        let w = char_columns(v[i]);
        if w > budget - acc {
            break;
        }
        acc = acc + w;
        i = i + 1;
    }
    proof {
        lemma_fit_count(v@, budget as nat, i as int, v@.len() as int);
    }
    v.truncate(i);
    string_of(&v)
}

/// `s` padded with spaces to `n` characters.
pub fn pad_to(s: &str, n: usize) -> (r: String)
    ensures
        r@ == padded(s@, n as nat),
{
    let mut r = String::from_str(s);
    let len = s.unicode_len();
    let mut k: usize = len;
    while k < n
        invariant
            len == s@.len(),
            len <= k,
            k <= n || k == len,
            r@ == s@ + Seq::new((k - len) as nat, |i: int| ' '),
        decreases n - k,
    {
        push_char(&mut r, ' ');
        k = k + 1;
        assert(r@ =~= s@ + Seq::new((k - len) as nat, |i: int| ' '));
    }
    assert(r@ =~= padded(s@, n as nat));
    r
}

impl Session {
    /// What the screen shows for this session on a terminal `cols` wide and
    /// `rows` high.
    pub fn frame(&self, cols: u16, rows: u16) -> (f: Frame)
        requires
            self.wf(),
        ensures
            f.header@ == padded(menu_bar(), cols as nat),
            f.query@ == self@.state.text,
            f.search_failed == self@.failed,
            f.rows@.len() == shown_rows(self@, rows),
            forall|i: int|
                0 <= i < f.rows@.len() ==> {
                    &&& (#[trigger] f.rows@[i]).title@ == fitted(
                        self@.state.tasks[i].spec_name(),
                        title_columns(cols),
                    )
                    &&& f.rows@[i].style == style_of(self@, i)
                },
            f.cursor == (if self@.mode == Mode::Prompt {
                Some(self@.cursor as usize)
            } else {
                None::<usize>
            }),
    {
        let header = pad_to("Asaru | Ctrl-c: Exit | Ctrl-s: Search | TAB: Select | Enter: Execute", cols as usize);
        let state = self.state();
        let tasks = state.tasks();
        let visible: usize = if rows > 4 {
            (rows - 4) as usize
        } else {
            0
        };
        let shown = if tasks.len() < visible {
            tasks.len()
        } else {
            visible
        };
        let budget: usize = if cols >= 2 {
            (cols - 2) as usize
        } else {
            0
        };
        let lit = self.mode() == Mode::Results;
        let mut out: Vec<FrameRow> = Vec::new();
        let mut i: usize = 0;
        while i < shown
            invariant
                shown <= tasks@.len(),
                tasks@ == self@.state.tasks,
                state@ == self@.state,
                lit == (self@.mode == Mode::Results),
                budget == title_columns(cols),
                i <= shown,
                out@.len() == i,
                forall|j: int|
                    0 <= j < i ==> {
                        &&& (#[trigger] out@[j]).title@ == fitted(
                            self@.state.tasks[j].spec_name(),
                            title_columns(cols),
                        )
                        &&& out@[j].style == style_of(self@, j)
                    },
            decreases shown - i,
        {
            let name = tasks[i].name_string();
            let title = fit_to_columns(name.as_str(), budget);
            let at = lit && i == state.index();
            let marked = state.is_checked(&i);
            let style = if at && marked {
                RowStyle::HighlightedMarked
            } else if at {
                RowStyle::Highlighted
            } else if marked {
                RowStyle::Marked
            } else {
                RowStyle::Plain
            };
            out.push(FrameRow { title, style });
            i = i + 1;
        }
        let cursor = if lit {
            None
        } else {
            Some(self.cursor())
        };
        Frame {
            header,
            query: String::from_str(state.text()),
            search_failed: self.search_failed(),
            rows: out,
            cursor,
        }
    }
}

} // verus!

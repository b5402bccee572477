//! The session state: the query, the result list, the selected row and the
//! marked rows, changed by value, one transformation at a time.

use crate::asana::SearchTasksData;
use std::collections::HashSet;
use vstd::prelude::*;
use vstd::string::*;

verus! {

broadcast use vstd::std_specs::hash::group_hash_axioms;

/// What a `State` holds, as mathematical values.
pub struct StateView {
    pub workspace_gid: Seq<char>,
    pub pats: Seq<char>,
    pub text: Seq<char>,
    pub tasks: Seq<SearchTasksData>,
    pub index: usize,
    pub checked: Set<usize>,
}

impl StateView {
    /// Every marked row is a row of the result list.
    pub open spec fn wf(self) -> bool {
        forall|i: usize| #[trigger] self.checked.contains(i) ==> i < self.tasks.len()
    }

    /// The state with the selected row marked, where that row exists.
    pub open spec fn with_mark(self) -> StateView {
        if self.index < self.tasks.len() {
            StateView { checked: self.checked.insert(self.index), ..self }
        } else {
            self
        }
    }

    /// The state with the selected row no longer marked.
    pub open spec fn without_mark(self) -> StateView {
        StateView { checked: self.checked.remove(self.index), ..self }
    }

    /// The state with the mark of the selected row turned over.
    pub open spec fn toggled(self) -> StateView {
        if self.checked.contains(self.index) {
            self.without_mark()
        } else {
            self.with_mark()
        }
    }

    /// The state after a search that found `found`: the new list, no marks, the
    /// first row selected.
    pub open spec fn searched(self, found: Seq<SearchTasksData>) -> StateView {
        StateView { tasks: found, index: 0, checked: Set::empty(), ..self }
    }

    /// The marked rows, in ascending order.
    pub open spec fn marked_rows(self) -> Seq<usize> {
        marked_below(self.checked, self.tasks.len())
    }

    /// The rows to resolve: the marked rows where there are marks, else the
    /// selected row where it exists.
    pub open spec fn resolve_rows(self) -> Seq<usize> {
        if !self.checked.is_empty() {
            self.marked_rows()
        } else if self.index < self.tasks.len() {
            seq![self.index]
        } else {
            Seq::empty()
        }
    }
}

/// The state a run starts from: empty query, no results, first row selected,
/// nothing marked.
pub open spec fn fresh_state(workspace_gid: Seq<char>, pats: Seq<char>) -> StateView {
    StateView {
        workspace_gid,
        pats,
        text: Seq::empty(),
        tasks: Seq::empty(),
        index: 0,
        checked: Set::empty(),
    }
}

/// The members of `checked` below `n`, in ascending order.
pub open spec fn marked_below(checked: Set<usize>, n: nat) -> Seq<usize>
    decreases n,
{
    if n == 0 {
        Seq::empty()
    } else {
        let rest = marked_below(checked, (n - 1) as nat);
        if checked.contains((n - 1) as usize) {
            rest.push((n - 1) as usize)
        } else {
            rest
        }
    }
}

/// The members of `checked` below `n`, as a set.
pub open spec fn marked_set_below(checked: Set<usize>, n: nat) -> Set<usize> {
    Set::new(|i: usize| checked.contains(i) && i < n)
}

/// Marking the selected row and then taking its mark off gives back the marks
/// the state had, where that row was not marked before.
pub proof fn lemma_mark_then_unmark(s: StateView)
    requires
        s.wf(),
        !s.checked.contains(s.index),
    ensures
        s.with_mark().without_mark() == s,
{
    assert(s.with_mark().without_mark().checked =~= s.checked);
}

/// Turning the mark of the selected row over twice gives back the state.
pub proof fn lemma_toggle_twice(s: StateView)
    requires
        s.wf(),
    ensures
        s.toggled().toggled() == s,
{
    assert(s.toggled().toggled().checked =~= s.checked);
}

proof fn lemma_marked_below(checked: Set<usize>, n: nat)
    requires
        n <= usize::MAX + 1,
    ensures
        marked_set_below(checked, n).finite(),
        marked_set_below(checked, n).len() == marked_below(checked, n).len(),
        forall|k: int|
            0 <= k < marked_below(checked, n).len() ==> #[trigger] marked_set_below(
                checked,
                n,
            ).contains(marked_below(checked, n)[k]),
        forall|j: int, k: int|
            0 <= j < k < marked_below(checked, n).len() ==> #[trigger] marked_below(checked, n)[j]
                < #[trigger] marked_below(checked, n)[k],
    decreases n,
{
    if n == 0 {
        assert(marked_set_below(checked, n) =~= Set::empty());
    } else {
        let m = (n - 1) as nat;
        lemma_marked_below(checked, m);
        let top = m as usize;
        if checked.contains(top) {
            let rest = marked_below(checked, m);
            assert forall|k: int| 0 <= k < rest.len() implies #[trigger] rest[k] < top by {
                assert(marked_set_below(checked, m).contains(rest[k]));
            }
            assert(marked_below(checked, n) == rest.push(top));
            assert(marked_set_below(checked, n) =~= marked_set_below(checked, m).insert(top));
        } else {
            assert(marked_set_below(checked, n) =~= marked_set_below(checked, m));
        }
    }
}

/// A state with K marks asks for K lookups: its marked rows, in ascending
/// order, are as many as its marks, each a marked row, none twice.
pub proof fn lemma_marked_rows(s: StateView)
    requires
        s.wf(),
        s.tasks.len() <= usize::MAX,
    ensures
        s.checked.finite(),
        s.marked_rows().len() == s.checked.len(),
        forall|k: int| 0 <= k < s.marked_rows().len() ==> s.checked.contains(#[trigger] s.marked_rows()[k]),
        forall|j: int, k: int|
            0 <= j < k < s.marked_rows().len() ==> #[trigger] s.marked_rows()[j] < #[trigger] s.marked_rows()[k],
{
    lemma_marked_below(s.checked, s.tasks.len());
    assert(s.checked =~= marked_set_below(s.checked, s.tasks.len()));
}

/// The session state.
pub struct State {
    workspace_gid: String,
    pats: String,
    text: String,
    tasks: Vec<SearchTasksData>,
    index: usize,
    checked: HashSet<usize>,
}

impl View for State {
    type V = StateView;

    closed spec fn view(&self) -> StateView {
        StateView {
            workspace_gid: self.workspace_gid@,
            pats: self.pats@,
            text: self.text@,
            tasks: self.tasks@,
            index: self.index,
            checked: self.checked@,
        }
    }
}

impl State {
    pub open spec fn wf(&self) -> bool {
        self@.wf()
    }

    pub fn text(&self) -> (r: &str)
        ensures
            r@ == self@.text,
    {
        self.text.as_str()
    }

    pub fn tasks(&self) -> (r: &[SearchTasksData])
        ensures
            r@ == self@.tasks,
    {
        self.tasks.as_slice()
    }

    pub fn index(&self) -> (r: usize)
        ensures
            r == self@.index,
    {
        self.index
    }

    pub fn checked(&self) -> (r: &HashSet<usize>)
        ensures
            r@ == self@.checked,
    {
        &self.checked
    }

    pub fn workspace_gid(&self) -> (r: &str)
        ensures
            r@ == self@.workspace_gid,
    {
        self.workspace_gid.as_str()
    }

    pub fn pats(&self) -> (r: &str)
        ensures
            r@ == self@.pats,
    {
        self.pats.as_str()
    }

    /// A fresh state for the given workspace and credential: empty query, no
    /// results, first row selected, nothing marked.
    pub fn new(workspace_gid: &str, pats: &str) -> (r: State)
        ensures
            r@ == fresh_state(workspace_gid@, pats@),
            r.wf(),
    {
        State {
            text: String::new(),
            tasks: Vec::new(),
            workspace_gid: String::from_str(workspace_gid),
            pats: String::from_str(pats),
            index: 0,
            checked: HashSet::new(),
        }
    }

    pub fn clear_checked(self) -> (r: State)
        requires
            self.wf(),
        ensures
            r@ == (StateView { checked: Set::empty(), ..self@ }),
            r.wf(),
    {
        State { checked: HashSet::new(), ..self }
    }

    pub fn clear_index(self) -> (r: State)
        requires
            self.wf(),
        ensures
            r@ == (StateView { index: 0, ..self@ }),
            r.wf(),
    {
        State { index: 0, ..self }
    }

    /// Selects the row above; the caller turns back at the first row.
    pub fn dec_index(self) -> (r: State)
        requires
            self.wf(),
            self@.index > 0,
        ensures
            r@ == (StateView { index: (self@.index - 1) as usize, ..self@ }),
            r.wf(),
    {
        let index = self.index - 1;
        State { index, ..self }
    }

    /// Selects the row below; the caller stops at the last visible row.
    pub fn inc_index(self) -> (r: State)
        requires
            self.wf(),
            self@.index < usize::MAX,
        ensures
            r@ == (StateView { index: (self@.index + 1) as usize, ..self@ }),
            r.wf(),
    {
        let index = self.index + 1;
        State { index, ..self }
    }

    pub fn edit_index(self, index: usize) -> (r: State)
        requires
            self.wf(),
        ensures
            r@ == (StateView { index, ..self@ }),
            r.wf(),
    {
        State { index, ..self }
    }

    pub fn edit_text(self, text: &str) -> (r: State)
        requires
            self.wf(),
        ensures
            r@ == (StateView { text: text@, ..self@ }),
            r.wf(),
    {
        State { text: String::from_str(text), ..self }
    }

    /// Takes in what a search of the current query found: the list is replaced,
    /// the marks are cleared and the first row is selected.
    pub fn search(self, found: Vec<SearchTasksData>) -> (r: State)
        requires
            self.wf(),
        ensures
            r@ == self@.searched(found@),
            r.wf(),
    {
        State { tasks: found, index: 0, checked: HashSet::new(), ..self }
    }

    /// The item under the selected row, if that row exists.
    pub fn selected_task(&self) -> (r: Option<&SearchTasksData>)
        ensures
            self@.index < self@.tasks.len() ==> r == Some(&self@.tasks[self@.index as int]),
            self@.index >= self@.tasks.len() ==> r is None,
    {
        if self.index < self.tasks.len() {
            Some(&self.tasks[self.index])
        } else {
            None
        }
    }

    /// The titles of the results, in order.
    pub fn get_titles(&self) -> (r: Vec<String>)
        ensures
            r@.len() == self@.tasks.len(),
            forall|i: int| 0 <= i < r@.len() ==> #[trigger] r@[i]@ == self@.tasks[i].spec_name(),
    {
        let mut r: Vec<String> = Vec::new();
        let mut i: usize = 0;
        while i < self.tasks.len()
            invariant
                i <= self.tasks@.len(),
                r@.len() == i,
                forall|j: int| 0 <= j < i ==> #[trigger] r@[j]@ == self.tasks@[j].spec_name(),
            decreases self.tasks@.len() - i,
        {
            r.push(self.tasks[i].name_string());
            i = i + 1;
        }
        r
    }

    pub fn is_checked(&self, index: &usize) -> (r: bool)
        ensures
            r == self@.checked.contains(*index),
    {
        self.checked.contains(index)
    }

    /// Marks the selected row, where it exists.
    pub fn check(self) -> (r: State)
        requires
            self.wf(),
        ensures
            r@ == self@.with_mark(),
            r.wf(),
    {
        if self.tasks.len() > self.index {
            let ghost before = self@;
            let mut hs = self.checked;
            hs.insert(self.index);
            proof {
                assert forall|i: usize| #[trigger] hs@.contains(i) implies i < before.tasks.len() by {
                    if i != before.index {
                        assert(before.checked.contains(i));
                    }
                }
            }
            return State { checked: hs, ..self };
        }
        self
    }

    /// Takes the mark off the selected row.
    pub fn uncheck(self) -> (r: State)
        requires
            self.wf(),
        ensures
            r@ == self@.without_mark(),
            r.wf(),
    {
        let ghost before = self@;
        let mut hs = self.checked;
        hs.remove(&self.index);
        proof {
            assert forall|i: usize| #[trigger] hs@.contains(i) implies i < before.tasks.len() by {
                assert(before.checked.contains(i));
            }
        }
        State { checked: hs, ..self }
    }

    /// Turns the mark of the selected row over.
    pub fn toggle_mark(self) -> (r: State)
        requires
            self.wf(),
        ensures
            r@ == self@.toggled(),
            r.wf(),
    {
        if self.is_checked(&self.index) {
            self.uncheck()
        } else {
            self.check()
        }
    }

    /// The marked rows, in ascending order.
    pub fn marked_indices(&self) -> (r: Vec<usize>)
        ensures
            r@ == self@.marked_rows(),
    {
        let mut r: Vec<usize> = Vec::new();
        let mut i: usize = 0;
        while i < self.tasks.len()
            invariant
                i <= self.tasks@.len(),
                r@ == marked_below(self.checked@, i as nat),
            decreases self.tasks@.len() - i,
        {
            if self.checked.contains(&i) {
                r.push(i);
            }
            i = i + 1;
        }
        r
    }
}

impl State {
    /// The identifiers to look up when the selection is taken: those of the
    /// rows of `resolve_rows`, in that order.
    pub fn resolve_targets(&self) -> (r: Vec<String>)
        ensures
            r@.len() == self@.resolve_rows().len(),
            forall|k: int|
                0 <= k < r@.len() ==> #[trigger] r@[k]@ == self@.tasks[self@.resolve_rows()[k] as int].spec_gid(),
    {
        let rows = if !self.checked.is_empty() {
            self.marked_indices()
        } else if self.index < self.tasks.len() {
            vec![self.index]
        } else {
            Vec::new()
        };
        proof {
            assert(self.tasks@.len() == self.tasks.len());
            lemma_marked_rows_bound(self.checked@, self.tasks@.len());
        }
        let mut r: Vec<String> = Vec::new();
        let mut k: usize = 0;
        while k < rows.len()
            invariant
                k <= rows@.len(),
                rows@ == self@.resolve_rows(),
                forall|j: int| 0 <= j < rows@.len() ==> #[trigger] rows@[j] < self.tasks@.len(),
                r@.len() == k,
                forall|j: int|
                    0 <= j < k ==> #[trigger] r@[j]@ == self.tasks@[rows@[j] as int].spec_gid(),
            decreases rows@.len() - k,
        {
            r.push(String::from_str(self.tasks[rows[k]].gid()));
            k = k + 1;
        }
        r
    }
}

proof fn lemma_marked_rows_bound(checked: Set<usize>, n: nat)
    requires
        n <= usize::MAX,
    ensures
        forall|j: int| 0 <= j < marked_below(checked, n).len() ==> #[trigger] marked_below(checked, n)[j] < n,
    decreases n,
{
    if n > 0 {
        let m = (n - 1) as nat;
        lemma_marked_rows_bound(checked, m);
        assert((m as usize) as int == m);
        if checked.contains(m as usize) {
            assert(marked_below(checked, n) == marked_below(checked, m).push(m as usize));
        }
    }
}

/// The links of a multi-selection, all or nothing: every lookup must have
/// given a link, and then the links come in the order of the lookups.
pub fn all_resolved(found: &Vec<Option<String>>) -> (r: Option<Vec<String>>)
    ensures
        r is Some <==> forall|i: int| 0 <= i < found@.len() ==> #[trigger] found@[i] is Some,
        r matches Some(links) ==> {
            &&& links@.len() == found@.len()
            &&& forall|i: int| 0 <= i < found@.len() ==> found@[i] == Some(#[trigger] links@[i])
        },
{
    let mut links: Vec<String> = Vec::new();
    let mut i: usize = 0;
    while i < found.len()
        invariant
            i <= found@.len(),
            links@.len() == i,
            forall|j: int| 0 <= j < i ==> found@[j] == Some(#[trigger] links@[j]),
            forall|j: int| 0 <= j < i ==> #[trigger] found@[j] is Some,
        decreases found@.len() - i,
    {
        match &found[i] {
            Some(link) => links.push(link.clone()),
            None => return None,
        }
        i = i + 1;
    }
    Some(links)
}

} // verus!

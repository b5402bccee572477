//! Editing of the query on the prompt line.
//!
//! Each operation takes the query and the cursor column and gives the new query
//! and cursor column. Every column it hands back stands on a character
//! boundary of the query it hands back.

use crate::width::{
    char_columns, edit_point, edit_point_of, lemma_prefix_monotone, lemma_prefix_on_boundary,
    on_boundary, prefix_columns, prefix_width, text_width, col_width,
};
use vstd::prelude::*;
use vstd::string::*;

verus! {

/// Relies on `String::push`: the character is appended to the string.
#[verifier::external_body]
pub(crate) fn push_char(s: &mut String, c: char)
    ensures
        final(s)@ == old(s)@.push(c),
{
    s.push(c)
}

/// The characters of `s`, in order.
pub fn chars_of(s: &str) -> (v: Vec<char>)
    ensures
        v@ == s@,
{
    let n = s.unicode_len();
    let mut v: Vec<char> = Vec::new();
    let mut i: usize = 0;
    while i < n
        invariant
            i <= n,
            n == s@.len(),
            v@ == s@.take(i as int),
        decreases n - i,
    {
        v.push(s.get_char(i));
        i = i + 1;
        assert(v@ =~= s@.take(i as int));
    }
    assert(v@ =~= s@);
    v
}

/// The string made of the characters of `v`, in order.
pub fn string_of(v: &Vec<char>) -> (s: String)
    ensures
        s@ == v@,
{
    let mut s = String::new();
    let mut i: usize = 0;
    while i < v.len()
        invariant
            i <= v.len(),
            s@ == v@.take(i as int),
        decreases v.len() - i,
    {
        push_char(&mut s, v[i]);
        i = i + 1;
        assert(s@ =~= v@.take(i as int));
    }
    assert(s@ =~= v@);
    s
}

/// The column one character left of `x`.
pub open spec fn left_column(s: Seq<char>, x: nat) -> nat {
    prefix_width(s, edit_point(s, x) - 1)
}

/// The column one character right of `x`.
pub open spec fn right_column(s: Seq<char>, x: nat) -> nat {
    prefix_width(s, edit_point(s, x) + 1int)
}

/// The query with `c` put in at the edit point under `x`.
pub open spec fn inserted(s: Seq<char>, x: nat, c: char) -> Seq<char> {
    s.insert(edit_point(s, x) as int, c)
}

/// The query without the character just left of the edit point under `x`.
pub open spec fn erased(s: Seq<char>, x: nat) -> Seq<char> {
    s.remove(edit_point(s, x) - 1)
}

/// The query cut at the edit point under `x`.
pub open spec fn killed(s: Seq<char>, x: nat) -> Seq<char> {
    s.take(edit_point(s, x) as int)
}

/// A query and cursor column that the prompt can hold: the width of the query
/// fits in a `usize` and the cursor stands on one of its character boundaries.
pub open spec fn line_ok(s: Seq<char>, x: nat) -> bool {
    &&& text_width(s) <= usize::MAX
    &&& on_boundary(s, x)
}

proof fn lemma_prefix_agree(s1: Seq<char>, s2: Seq<char>, k: int)
    requires
        0 <= k <= s1.len(),
        k <= s2.len(),
        forall|i: int| 0 <= i < k ==> s1[i] == s2[i],
    ensures
        prefix_width(s1, k) == prefix_width(s2, k),
    decreases k,
{
    if k > 0 {
        lemma_prefix_agree(s1, s2, k - 1);
    }
}

proof fn lemma_prefix_insert(s: Seq<char>, p: int, c: char, k: int)
    requires
        0 <= p <= s.len(),
        0 <= k <= s.len() + 1,
    ensures
        k <= p ==> prefix_width(s.insert(p, c), k) == prefix_width(s, k),
        k > p ==> prefix_width(s.insert(p, c), k) == prefix_width(s, k - 1) + col_width(c),
    decreases k,
{
    if k > 0 {
        lemma_prefix_insert(s, p, c, k - 1);
    }
}

proof fn lemma_prefix_remove(s: Seq<char>, q: int, k: int)
    requires
        0 <= q < s.len(),
        0 <= k < s.len(),
    ensures
        k <= q ==> prefix_width(s.remove(q), k) == prefix_width(s, k),
        k > q ==> prefix_width(s.remove(q), k) + col_width(s[q]) == prefix_width(s, k + 1),
    decreases k,
{
    if k > 0 {
        lemma_prefix_remove(s, q, k - 1);
        if k > q {
            assert(s.remove(q)[k - 1] == s[k]);
            assert(prefix_width(s, k + 1) == prefix_width(s, k) + col_width(s[k]));
            assert(prefix_width(s, q + 1) == prefix_width(s, q) + col_width(s[q]));
        }
    }
}

/// A cursor on a boundary at a column above zero has characters left of it.
pub proof fn lemma_point_above_zero(s: Seq<char>, x: nat)
    requires
        on_boundary(s, x),
        x > 0,
    ensures
        edit_point(s, x) >= 1,
{
}

/// A cursor on a boundary left of the end has characters right of it.
pub proof fn lemma_point_before_end(s: Seq<char>, x: nat)
    requires
        on_boundary(s, x),
        x < text_width(s),
    ensures
        edit_point(s, x) < s.len(),
{
    let p = edit_point(s, x) as int;
    if p >= s.len() {
        lemma_prefix_monotone(s, s.len() as int, p);
    }
}

/// The edit point never passes the end of the query.
pub proof fn lemma_point_in_range(s: Seq<char>, x: nat)
    ensures
        edit_point(s, x) <= s.len(),
{
    lemma_first_end_at_range(s, x, s.len() as int);
}

proof fn lemma_first_end_at_range(s: Seq<char>, x: nat, m: int)
    ensures
        crate::width::first_end_at(s, x, m) <= if m < 0 { 0 } else { m },
    decreases m,
{
    if m >= 1 {
        lemma_first_end_at_range(s, x, m - 1);
    }
}

/// The cursor can stand at either end of a query whose width fits.
pub proof fn lemma_ends_ok(s: Seq<char>)
    requires
        text_width(s) <= usize::MAX,
    ensures
        line_ok(s, 0),
        line_ok(s, text_width(s)),
{
    lemma_prefix_on_boundary(s, 0);
    lemma_prefix_on_boundary(s, s.len() as int);
}

/// Moving left keeps the line valid and does not move right.
pub proof fn lemma_left_ok(s: Seq<char>, x: nat)
    requires
        line_ok(s, x),
        x > 0,
    ensures
        line_ok(s, left_column(s, x)),
        left_column(s, x) <= x,
{
    let p = edit_point(s, x) as int;
    lemma_point_above_zero(s, x);
    lemma_point_in_range(s, x);
    lemma_prefix_on_boundary(s, p - 1);
    lemma_prefix_monotone(s, p - 1, p);
}

/// Moving right keeps the line valid and stays within the query.
pub proof fn lemma_right_ok(s: Seq<char>, x: nat)
    requires
        line_ok(s, x),
        x < text_width(s),
    ensures
        line_ok(s, right_column(s, x)),
        x <= right_column(s, x) <= text_width(s),
{
    let p = edit_point(s, x) as int;
    lemma_point_before_end(s, x);
    lemma_prefix_on_boundary(s, p + 1);
    lemma_prefix_monotone(s, p, p + 1);
    lemma_prefix_monotone(s, p + 1, s.len() as int);
}

/// Putting a character in at the cursor keeps the line valid, with the cursor
/// past the new character.
pub proof fn lemma_insert_ok(s: Seq<char>, x: nat, c: char)
    requires
        line_ok(s, x),
        text_width(s) + col_width(c) <= usize::MAX,
    ensures
        line_ok(inserted(s, x, c), x + col_width(c)),
        text_width(inserted(s, x, c)) == text_width(s) + col_width(c),
        prefix_width(inserted(s, x, c), edit_point(s, x) + 1int) == x + col_width(c),
        x <= text_width(s),
{
    let p = edit_point(s, x) as int;
    lemma_point_in_range(s, x);
    lemma_prefix_monotone(s, p, s.len() as int);
    lemma_prefix_insert(s, p, c, p + 1);
    lemma_prefix_insert(s, p, c, s.len() + 1int);
    lemma_prefix_on_boundary(inserted(s, x, c), p + 1);
}

/// Taking out the character left of the cursor keeps the line valid, with the
/// cursor where that character started.
pub proof fn lemma_erase_ok(s: Seq<char>, x: nat)
    requires
        line_ok(s, x),
        x > 0,
    ensures
        line_ok(erased(s, x), left_column(s, x)),
        prefix_width(erased(s, x), edit_point(s, x) - 1) == left_column(s, x),
{
    let p = edit_point(s, x) as int;
    lemma_point_above_zero(s, x);
    lemma_point_in_range(s, x);
    let t = erased(s, x);
    lemma_prefix_remove(s, p - 1, p - 1);
    lemma_prefix_on_boundary(t, p - 1);
    if s.len() > 1 {
        lemma_prefix_remove(s, p - 1, s.len() - 1int);
    }
    assert(text_width(t) <= text_width(s));
}

/// Cutting the query at the cursor keeps the line valid, with the cursor now
/// at the end.
pub proof fn lemma_kill_ok(s: Seq<char>, x: nat)
    requires
        line_ok(s, x),
    ensures
        line_ok(killed(s, x), x),
        text_width(killed(s, x)) == x,
{
    let p = edit_point(s, x) as int;
    lemma_point_in_range(s, x);
    let t = killed(s, x);
    lemma_prefix_agree(s, t, p);
    lemma_prefix_on_boundary(t, p);
    lemma_prefix_monotone(s, p, s.len() as int);
}

/// The column at the end of the query: the sum of its characters' widths, so
/// that the end is a character boundary like every other cursor column.
pub fn end_column(text: &str) -> (x: usize)
    requires
        text_width(text@) <= usize::MAX,
    ensures
        x == text_width(text@),
        line_ok(text@, x as nat),
{
    let v = chars_of(text);
    proof {
        lemma_ends_ok(v@);
    }
    prefix_columns(&v, v.len())
}

/// Moves the cursor one character left; the cursor must not be at column 0.
pub fn move_left(text: &str, x: usize) -> (nx: usize)
    requires
        line_ok(text@, x as nat),
        x > 0,
    ensures
        nx == left_column(text@, x as nat),
        line_ok(text@, nx as nat),
{
    let v = chars_of(text);
    let p = edit_point_of(&v, x);
    proof {
        lemma_left_ok(v@, x as nat);
        lemma_point_above_zero(v@, x as nat);
    }
    prefix_columns(&v, p - 1)
}

/// Moves the cursor one character right; the cursor must be left of the end.
pub fn move_right(text: &str, x: usize) -> (nx: usize)
    requires
        line_ok(text@, x as nat),
        x < text_width(text@),
    ensures
        nx == right_column(text@, x as nat),
        line_ok(text@, nx as nat),
{
    let v = chars_of(text);
    let p = edit_point_of(&v, x);
    proof {
        lemma_right_ok(v@, x as nat);
        lemma_point_before_end(v@, x as nat);
    }
    prefix_columns(&v, p + 1)
}

/// Puts `c` in at the cursor and moves the cursor past it. Gives `None`, and
/// changes nothing, for a control character, or where the query would grow
/// wider than a `usize` can count.
pub fn insert_at(text: &str, x: usize, c: char) -> (r: Option<(String, usize)>)
    requires
        line_ok(text@, x as nat),
    ensures
        r is Some <==> (crate::width::char_width(c) is Some && text_width(text@) + col_width(c)
            <= usize::MAX),
        r matches Some((t, nx)) ==> {
            &&& t@ == inserted(text@, x as nat, c)
            &&& nx == x + col_width(c)
            &&& line_ok(t@, nx as nat)
        },
{
    let printable = crate::width::unicode_char_width(c);
    if printable.is_none() {
        return None;
    }
    let w = char_columns(c);
    let mut v = chars_of(text);
    let total = prefix_columns(&v, v.len());
    if w > usize::MAX - total {
        return None;
    }
    let p = edit_point_of(&v, x);
    proof {
        lemma_insert_ok(v@, x as nat, c);
    }
    v.insert(p, c);
    Some((string_of(&v), x + w))
}

/// Takes out the character left of the cursor and moves the cursor back over
/// it; the cursor must not be at column 0.
pub fn erase_before(text: &str, x: usize) -> (r: (String, usize))
    requires
        line_ok(text@, x as nat),
        x > 0,
    ensures
        r.0@ == erased(text@, x as nat),
        r.1 == left_column(text@, x as nat),
        line_ok(r.0@, r.1 as nat),
{
    let mut v = chars_of(text);
    let p = edit_point_of(&v, x);
    proof {
        lemma_erase_ok(v@, x as nat);
        lemma_point_above_zero(v@, x as nat);
        lemma_point_in_range(v@, x as nat);
    }
    let nx = prefix_columns(&v, p - 1);
    v.remove(p - 1);
    (string_of(&v), nx)
}

/// Cuts the query at the cursor; the cursor stays where it is, now at the end.
pub fn kill_after(text: &str, x: usize) -> (t: String)
    requires
        line_ok(text@, x as nat),
    ensures
        t@ == killed(text@, x as nat),
        x == text_width(t@),
        line_ok(t@, x as nat),
{
    let mut v = chars_of(text);
    let p = edit_point_of(&v, x);
    proof {
        lemma_kill_ok(v@, x as nat);
    }
    v.truncate(p);
    string_of(&v)
}

} // verus!

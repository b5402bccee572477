//! Display widths of characters and the column arithmetic of the prompt line.
//!
//! The cursor of the prompt is kept as a terminal column. The characters of the
//! query are found from it by adding up their widths: the edit point is the
//! number of characters that stand left of the cursor.

use unicode_width::UnicodeWidthChar;
use vstd::prelude::*;

verus! {

/// What `UnicodeWidthChar::width` gives a character: its columns, or `None` for
/// a control character.
pub uninterp spec fn char_width(c: char) -> Option<usize>;

/// Relies on `unicode_width::UnicodeWidthChar::width` (for `char`): the width is
/// a function of the character alone; printable ASCII takes one column, the C0
/// and C1 control characters have none, and no character takes more than three.
#[verifier::external_body]
pub(crate) fn unicode_char_width(c: char) -> (r: Option<usize>)
    ensures
        r == char_width(c),
        0x20 <= (c as u32) < 0x7f ==> r == Some(1usize),
        ((c as u32) < 0x20 || (0x7f <= (c as u32) < 0xa0)) ==> r is None,
        r matches Some(w) ==> w <= 3,
{
    c.width()
}

/// Columns that a character takes on the prompt line; a character without a
/// width counts as one column.
pub open spec fn col_width(c: char) -> nat {
    match char_width(c) {
        Some(w) => w as nat,
        None => 1,
    }
}

/// Columns taken by the first `n` characters of `s`.
pub open spec fn prefix_width(s: Seq<char>, n: int) -> nat
    decreases n,
{
    if n <= 0 {
        0
    } else {
        prefix_width(s, n - 1) + col_width(s[n - 1])
    }
}

/// Columns taken by the whole of `s`.
pub open spec fn text_width(s: Seq<char>) -> nat {
    prefix_width(s, s.len() as int)
}

/// The least `k` in `1..=m` whose prefix ends at column `x`, or 0 if there is none.
pub open spec fn first_end_at(s: Seq<char>, x: nat, m: int) -> nat
    decreases m,
{
    if m < 1 {
        0
    } else {
        let f = first_end_at(s, x, m - 1);
        if f != 0 {
            f
        } else if prefix_width(s, m) == x {
            m as nat
        } else {
            0
        }
    }
}

/// The edit point under cursor column `x`: the number of characters left of the
/// cursor, found as the first character that ends at column `x` (0 if none does).
pub open spec fn edit_point(s: Seq<char>, x: nat) -> nat {
    first_end_at(s, x, s.len() as int)
}

/// Column `x` stands on a character boundary of `s`: it is the width of the
/// characters left of its own edit point.
pub open spec fn on_boundary(s: Seq<char>, x: nat) -> bool {
    x == prefix_width(s, edit_point(s, x) as int)
}

/// Every character of `s` takes one or two columns.
pub open spec fn narrow_or_wide(s: Seq<char>) -> bool {
    forall|i: int| 0 <= i < s.len() ==> 1 <= #[trigger] col_width(s[i]) <= 2
}

pub proof fn lemma_prefix_monotone(s: Seq<char>, i: int, j: int)
    requires
        0 <= i <= j,
    ensures
        prefix_width(s, i) <= prefix_width(s, j),
    decreases j - i,
{
    if i < j {
        lemma_prefix_monotone(s, i, j - 1);
    }
}

proof fn lemma_prefix_strict(s: Seq<char>, i: int, j: int)
    requires
        0 <= i < j <= s.len(),
        narrow_or_wide(s),
    ensures
        prefix_width(s, i) < prefix_width(s, j),
    decreases j - i,
{
    assert(1 <= col_width(s[j - 1]));
    if i < j - 1 {
        lemma_prefix_strict(s, i, j - 1);
    }
}

proof fn lemma_first_end_at(s: Seq<char>, x: nat, m: int)
    ensures
        first_end_at(s, x, m) == 0 || (1 <= first_end_at(s, x, m) <= m && prefix_width(
            s,
            first_end_at(s, x, m) as int,
        ) == x),
        forall|j: int| 1 <= j <= m && #[trigger] prefix_width(s, j) == x ==> 1 <= first_end_at(s, x, m) <= j,
    decreases m,
{
    if m >= 1 {
        lemma_first_end_at(s, x, m - 1);
    }
}

/// Any column that some prefix of `s` ends at is on a boundary of `s`.
pub proof fn lemma_prefix_on_boundary(s: Seq<char>, k: int)
    requires
        0 <= k <= s.len(),
    ensures
        on_boundary(s, prefix_width(s, k)),
{
    let x = prefix_width(s, k);
    lemma_first_end_at(s, x, s.len() as int);
    if k >= 1 {
        assert(prefix_width(s, k) == x);
    }
}

/// Reading the edit point back from a cursor column: for a text whose characters
/// each take one or two columns, the cursor that stands after the first `k`
/// characters is at the sum of their widths, and the edit point found from that
/// column is `k` again.
pub proof fn lemma_cursor_round_trip(s: Seq<char>, k: int)
    requires
        0 <= k <= s.len(),
        narrow_or_wide(s),
    ensures
        edit_point(s, prefix_width(s, k)) == k,
{
    let x = prefix_width(s, k);
    lemma_first_end_at(s, x, s.len() as int);
    let p = edit_point(s, x) as int;
    if k >= 1 {
        assert(prefix_width(s, k) == x);
        if p < k {
            lemma_prefix_strict(s, p, k);
        }
    } else if p != 0 {
        lemma_prefix_strict(s, 0, p);
    }
}

/// Columns taken by one character.
pub fn char_columns(c: char) -> (w: usize)
    ensures
        w == col_width(c),
        w <= 3,
{
    match unicode_char_width(c) {
        Some(w) => w,
        None => 1,
    }
}

/// Columns taken by the first `n` characters of `s`.
pub fn prefix_columns(s: &Vec<char>, n: usize) -> (r: usize)
    requires
        n <= s.len(),
        text_width(s@) <= usize::MAX,
    ensures
        r == prefix_width(s@, n as int),
{
    let mut acc: usize = 0;
    let mut i: usize = 0;
    while i < n
        invariant
            i <= n <= s.len(),
            text_width(s@) <= usize::MAX,
            acc == prefix_width(s@, i as int),
        decreases n - i,
    {
        proof {
            lemma_prefix_monotone(s@, i + 1, s.len() as int);
        }
        acc = acc + char_columns(s[i]);
        i = i + 1;
    }
    acc
}

/// The edit point under cursor column `x` of `s`.
pub fn edit_point_of(s: &Vec<char>, x: usize) -> (p: usize)
    requires
        text_width(s@) <= usize::MAX,
    ensures
        p == edit_point(s@, x as nat),
        p <= s.len(),
{
    let mut acc: usize = 0;
    let mut k: usize = 0;
    while k < s.len()
        invariant
            k <= s.len(),
            text_width(s@) <= usize::MAX,
            acc == prefix_width(s@, k as int),
            first_end_at(s@, x as nat, k as int) == 0,
        decreases s.len() - k,
    {
        proof {
            lemma_prefix_monotone(s@, k + 1, s.len() as int);
        }
        acc = acc + char_columns(s[k]);
        k = k + 1;
        if acc == x {
            proof {
                lemma_first_end_at_tail(s@, x as nat, k as int, s.len() as int);
            }
            return k;
        }
    }
    0
}

proof fn lemma_first_end_at_tail(s: Seq<char>, x: nat, k: int, m: int)
    requires
        1 <= k <= m,
        first_end_at(s, x, k) == k,
    ensures
        first_end_at(s, x, m) == k,
    decreases m - k,
{
    if k < m {
        lemma_first_end_at_tail(s, x, k, m - 1);
    }
}

} // verus!

//! Character-level string comparison: equality and the lexicographic order
//! used to sort collections by name. The order compares code points position
//! by position; a proper prefix sorts before its extensions.

use vstd::prelude::*;
use vstd::string::StrSliceExecFns;

verus! {

/// Lexicographic "less than" on the suffixes of `a` and `b` that start at
/// position `i`.
pub open spec fn lex_lt_from(a: Seq<char>, b: Seq<char>, i: int) -> bool
    recommends
        0 <= i,
    decreases b.len() - i,
{
    if i >= b.len() {
        false
    } else if i >= a.len() {
        true
    } else if a[i] != b[i] {
        (a[i] as int) < (b[i] as int)
    } else {
        lex_lt_from(a, b, i + 1)
    }
}

/// Lexicographic "less than" on whole character sequences.
pub open spec fn lex_lt(a: Seq<char>, b: Seq<char>) -> bool {
    lex_lt_from(a, b, 0)
}

/// No sequence sorts strictly before itself.
pub proof fn lemma_lex_irrefl_from(a: Seq<char>, i: int)
    requires
        0 <= i,
    ensures
        !lex_lt_from(a, a, i),
    decreases a.len() - i,
{
    if i < a.len() {
        lemma_lex_irrefl_from(a, i + 1);
    }
}

/// The order is asymmetric: at most one of `a < b` and `b < a` holds.
pub proof fn lemma_lex_asym_from(a: Seq<char>, b: Seq<char>, i: int)
    requires
        0 <= i,
    ensures
        !(lex_lt_from(a, b, i) && lex_lt_from(b, a, i)),
    decreases b.len() - i,
{
    if i < a.len() && i < b.len() && a[i] == b[i] {
        lemma_lex_asym_from(a, b, i + 1);
    }
}

/// The order is transitive.
pub proof fn lemma_lex_trans_from(a: Seq<char>, b: Seq<char>, c: Seq<char>, i: int)
    requires
        0 <= i,
        lex_lt_from(a, b, i),
        lex_lt_from(b, c, i),
    ensures
        lex_lt_from(a, c, i),
    decreases c.len() - i,
{
    if i < a.len() && i < b.len() && i < c.len() && a[i] == b[i] && b[i] == c[i] {
        lemma_lex_trans_from(a, b, c, i + 1);
    }
}

/// Two sequences are either ordered one way, ordered the other way, or equal.
pub proof fn lemma_lex_connected_from(a: Seq<char>, b: Seq<char>, i: int)
    requires
        0 <= i <= a.len(),
        i <= b.len(),
        !lex_lt_from(a, b, i),
        !lex_lt_from(b, a, i),
    ensures
        a.skip(i) =~= b.skip(i),
    decreases b.len() - i,
{
    if i < a.len() && i < b.len() && a[i] == b[i] {
        lemma_lex_connected_from(a, b, i + 1);
        assert(a.skip(i) =~= seq![a[i]] + a.skip(i + 1));
        assert(b.skip(i) =~= seq![b[i]] + b.skip(i + 1));
    }
}

/// Character-by-character equality test, specified against the views.
pub fn str_eq(a: &str, b: &str) -> (r: bool)
    ensures
        r == (a@ == b@),
{
    let n_a = a.unicode_len();
    let n_b = b.unicode_len();
    if n_a != n_b {
        return false;
    }
    let mut i: usize = 0;
    while i < n_a
        invariant
            n_a == a@.len(),
            n_a == b@.len(),
            0 <= i <= n_a,
            forall|j: int| 0 <= j < i ==> a@[j] == b@[j],
        decreases n_a - i,
    {
        if a.get_char(i) != b.get_char(i) {
            return false;
        }
        i = i + 1;
    }
    proof {
        assert(a@ =~= b@);
    }
    true
}

/// Character-by-character lexicographic comparison, specified against
/// [`lex_lt`].
pub fn str_lt(a: &str, b: &str) -> (r: bool)
    ensures
        r == lex_lt(a@, b@),
{
    let n_a = a.unicode_len();
    let n_b = b.unicode_len();
    let mut i: usize = 0;
    while i < n_a && i < n_b
        invariant
            n_a == a@.len(),
            n_b == b@.len(),
            0 <= i,
            i <= n_a,
            i <= n_b,
            lex_lt(a@, b@) == lex_lt_from(a@, b@, i as int),
        decreases n_a - i,
    {
        let c_a = a.get_char(i);
        let c_b = b.get_char(i);
        if c_a != c_b {
            return (c_a as u32) < (c_b as u32);
        }
        i = i + 1;
    }
    i == n_a && i < n_b
}

} // verus!

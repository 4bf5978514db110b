//! Lexicographic order of texts by code point, which is the order `Ord`
//! gives `String` (UTF-8 byte order and code point order agree).
use vstd::prelude::*;
use crate::text::chars_of;

verus! {

broadcast use vstd::string::group_string_axioms;

/// `a` comes before `b` when both agree before position `i`: compare from
/// `i` on.
pub open spec fn lex_less_from(a: Seq<char>, b: Seq<char>, i: int) -> bool
    decreases a.len() - i,
{
    if i < 0 {
        false
    } else if i >= a.len() {
        i < b.len()
    } else if i >= b.len() {
        false
    } else if (a[i] as int) < (b[i] as int) {
        true
    } else if (a[i] as int) > (b[i] as int) {
        false
    } else {
        lex_less_from(a, b, i + 1)
    }
}

/// `a` comes strictly before `b` in lexicographic code point order.
pub open spec fn lex_less(a: Seq<char>, b: Seq<char>) -> bool {
    lex_less_from(a, b, 0)
}

proof fn lemma_less_from_asym(a: Seq<char>, b: Seq<char>, i: int)
    requires
        0 <= i,
        lex_less_from(a, b, i),
    ensures
        !lex_less_from(b, a, i),
    decreases a.len() - i,
{
    if i < a.len() && i < b.len() && a[i] == b[i] {
        lemma_less_from_asym(a, b, i + 1);
    }
}

proof fn lemma_less_from_irrefl(a: Seq<char>, i: int)
    requires
        0 <= i,
    ensures
        !lex_less_from(a, a, i),
    decreases a.len() - i,
{
    if i < a.len() {
        lemma_less_from_irrefl(a, i + 1);
    }
}

proof fn lemma_less_from_total(a: Seq<char>, b: Seq<char>, i: int)
    requires
        0 <= i <= a.len(),
        i <= b.len(),
        forall|k: int| 0 <= k < i ==> a[k] == b[k],
        a != b,
    ensures
        lex_less_from(a, b, i) || lex_less_from(b, a, i),
    decreases a.len() - i,
{
    if i == a.len() && i == b.len() {
        assert(a =~= b);
    } else if i < a.len() && i < b.len() && a[i] == b[i] {
        lemma_less_from_total(a, b, i + 1);
    }
}

proof fn lemma_less_from_trans(a: Seq<char>, b: Seq<char>, c: Seq<char>, i: int)
    requires
        0 <= i,
        lex_less_from(a, b, i),
        lex_less_from(b, c, i),
    ensures
        lex_less_from(a, c, i),
    decreases a.len() - i,
{
    if i < a.len() && i < b.len() && i < c.len() && a[i] == b[i] && b[i] == c[i] {
        lemma_less_from_trans(a, b, c, i + 1);
    }
}

/// Lexicographic order is a strict total order.
pub proof fn lemma_lex_order(a: Seq<char>, b: Seq<char>, c: Seq<char>)
    ensures
        !lex_less(a, a),
        lex_less(a, b) ==> !lex_less(b, a),
        a != b ==> lex_less(a, b) || lex_less(b, a),
        lex_less(a, b) && lex_less(b, c) ==> lex_less(a, c),
{
    lemma_less_from_irrefl(a, 0);
    if lex_less(a, b) {
        lemma_less_from_asym(a, b, 0);
    }
    if a != b {
        lemma_less_from_total(a, b, 0);
    }
    if lex_less(a, b) && lex_less(b, c) {
        lemma_less_from_trans(a, b, c, 0);
    }
}

/// Whether `a` comes strictly before `b`.
pub fn chars_less(a: &Vec<char>, b: &Vec<char>) -> (r: bool)
    ensures
        r == lex_less(a@, b@),
{
    let mut i: usize = 0;
    while i < a.len() && i < b.len() && a[i] == b[i]
        invariant
            i <= a@.len(),
            i <= b@.len(),
            lex_less(a@, b@) == lex_less_from(a@, b@, i as int),
        decreases a@.len() - i,
    {
        i = i + 1;
    }
    if i >= a.len() {
        i < b.len()
    } else if i >= b.len() {
        false
    } else {
        a[i] < b[i]
    }
}

/// Whether `a` comes strictly before `b` (`a < b` on `str`).
pub fn str_less(a: &str, b: &str) -> (r: bool)
    ensures
        r == lex_less(a@, b@),
{
    let va = chars_of(a);
    let vb = chars_of(b);
    chars_less(&va, &vb)
}

/// Whether `a` and `b` hold the same text.
pub fn str_equal(a: &str, b: &str) -> (r: bool)
    ensures
        r == (a@ == b@),
{
    let va = chars_of(a);
    let vb = chars_of(b);
    if va.len() != vb.len() {
        return false;
    }
    let mut i: usize = 0;
    while i < va.len() && va[i] == vb[i]
        invariant
            i <= va@.len() == vb@.len(),
            forall|k: int| 0 <= k < i ==> va@[k] == vb@[k],
        decreases va@.len() - i,
    {
        i = i + 1;
    }
    if i < va.len() {
        assert(va@[i as int] != vb@[i as int]);
        false
    } else {
        assert(va@ =~= vb@);
        true
    }
}

} // verus!

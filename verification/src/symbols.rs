//! Security codes and lists of them, as the backfill forms and RPCs take
//! them: a code is trimmed and must be ASCII letters and digits; a list is
//! split at commas and white space and comes back sorted without repeats.
use vstd::prelude::*;
use crate::order::{lex_less, lemma_lex_order, str_equal, str_less};
use crate::text::{
    ascii_alnum, chars_of, is_ascii_alnum, is_white_space, lemma_trimmed_unchanged, string_from_chars,
    trim, trimmed, white_space,
};

verus! {

broadcast use vstd::string::group_string_axioms;

/// The message for an empty code.
pub open spec fn code_required() -> Seq<char> {
    "security_code is required"@
}

/// The message for a code with other characters.
pub open spec fn code_charset() -> Seq<char> {
    "security_code may only contain ASCII letters or numbers"@
}

/// What a security code becomes: trimmed, then refused when empty or when
/// any character is not an ASCII letter or digit.
pub open spec fn security_code_outcome(s: Seq<char>) -> Result<Seq<char>, Seq<char>> {
    let t = trimmed(s);
    if t.len() == 0 {
        Err(code_required())
    } else if exists|k: int| 0 <= k < t.len() && !is_ascii_alnum(#[trigger] t[k]) {
        Err(code_charset())
    } else {
        Ok(t)
    }
}

/// Normalises a security code (see [`security_code_outcome`]); the error
/// is the message.
pub fn normalize_security_code(security_code: String) -> (r: Result<String, String>)
    ensures
        match r {
            Ok(c) => security_code_outcome(security_code@) == Ok::<Seq<char>, Seq<char>>(c@),
            Err(e) => security_code_outcome(security_code@) == Err::<Seq<char>, Seq<char>>(e@),
        },
{
    let t = trim(security_code.as_str());
    let v = chars_of(t.as_str());
    if v.len() == 0 {
        return Err(crate::text::string_of("security_code is required"));
    }
    let mut i: usize = 0;
    while i < v.len()
        invariant
            i <= v@.len(),
            v@ == trimmed(security_code@),
            forall|k: int| 0 <= k < i ==> is_ascii_alnum(v@[k]),
        decreases v@.len() - i,
    {
        if !ascii_alnum(v[i]) {
            return Err(crate::text::string_of("security_code may only contain ASCII letters or numbers"));
        }
        i = i + 1;
    }
    Ok(t)
}

/// A character that separates codes in a list: a comma or white space.
pub open spec fn is_separator(c: char) -> bool {
    c == ',' || is_white_space(c)
}

/// `s[a..b]` is one code of the list `s`: non-empty, without separators,
/// with a separator (or an end) on each side.
pub open spec fn token_at(s: Seq<char>, a: int, b: int) -> bool {
    &&& 0 <= a < b <= s.len()
    &&& (a == 0 || is_separator(s[a - 1]))
    &&& (b == s.len() || is_separator(s[b]))
    &&& forall|k: int| a <= k < b ==> !is_separator(#[trigger] s[k])
}

/// `t` is one of the codes written in `s`.
pub open spec fn is_token(s: Seq<char>, t: Seq<char>) -> bool {
    exists|a: int, b: int| token_at(s, a, b) && s.subrange(a, b) == t
}

/// Every character of `s` is a separator or an ASCII letter or digit.
pub open spec fn list_chars_ok(s: Seq<char>) -> bool {
    forall|k: int| 0 <= k < s.len() ==> is_separator(#[trigger] s[k]) || is_ascii_alnum(s[k])
}

/// `t` is one of the strings of `v`.
pub open spec fn in_list(v: Seq<String>, t: Seq<char>) -> bool {
    exists|i: int| 0 <= i < v.len() && (#[trigger] v[i])@ == t
}

/// The strings of `v` are in strictly increasing order.
pub open spec fn strictly_sorted(v: Seq<String>) -> bool {
    forall|i: int, j: int| 0 <= i < j < v.len() ==> lex_less((#[trigger] v[i])@, (#[trigger] v[j])@)
}

/// Inserts `t` into the sorted list `v` unless it is there already.
fn insert_sorted(v: &mut Vec<String>, t: String)
    requires
        strictly_sorted(old(v)@),
    ensures
        strictly_sorted(final(v)@),
        forall|x: Seq<char>| #[trigger] in_list(final(v)@, x) <==> (in_list(old(v)@, x) || x == t@),
{
    let mut p: usize = 0;
    while p < v.len() && str_less(v[p].as_str(), t.as_str())
        invariant
            p <= v@.len(),
            forall|k: int| 0 <= k < p ==> lex_less(v@[k]@, t@),
        decreases v@.len() - p,
    {
        p = p + 1;
    }
    if p < v.len() && str_equal(v[p].as_str(), t.as_str()) {
        assert(forall|x: Seq<char>| x == t@ ==> in_list(v@, x));
        return;
    }
    let ghost before = v@;
    proof {
        if p < before.len() {
            lemma_lex_order(before[p as int]@, t@, t@);
            assert(lex_less(t@, before[p as int]@));
        }
    }
    v.insert(p, t);
    proof {
        assert(v@ == before.insert(p as int, t));
        assert forall|i: int, j: int| 0 <= i < j < v@.len() implies lex_less(
            (#[trigger] v@[i])@,
            (#[trigger] v@[j])@,
        ) by {
            if j == p {
                assert(v@[i] == before[i]);
            } else if i == p {
                assert(v@[j] == before[j - 1]);
                if j - 1 > p {
                    assert(lex_less(before[p as int]@, before[j - 1]@));
                    lemma_lex_order(v@[i]@, before[p as int]@, before[j - 1]@);
                }
            } else {
                let i2 = if i < p {
                    i
                } else {
                    i - 1
                };
                let j2 = if j < p {
                    j
                } else {
                    j - 1
                };
                assert(v@[i] == before[i2] && v@[j] == before[j2]);
            }
        }
        assert forall|x: Seq<char>| #[trigger] in_list(v@, x) <==> (in_list(before, x) || x
            == t@) by {
            if in_list(v@, x) {
                let i = choose|i: int| 0 <= i < v@.len() && v@[i]@ == x;
                if i < p {
                    assert(before[i] == v@[i]);
                } else if i > p {
                    assert(before[i - 1] == v@[i]);
                }
            }
            if in_list(before, x) {
                let i = choose|i: int| 0 <= i < before.len() && before[i]@ == x;
                if i < p {
                    assert(v@[i] == before[i]);
                } else {
                    assert(v@[i + 1] == before[i]);
                }
            }
            if x == t@ {
                assert(v@[p as int] == t);
            }
        }
    }
}

/// The codes whose end lies before `limit` are in `v`, and only those.
pub open spec fn closed_tokens(s: Seq<char>, v: Seq<String>, limit: int) -> bool {
    forall|x: Seq<char>|
        #[trigger] in_list(v, x) <==> exists|a: int, b: int|
            token_at(s, a, b) && b < limit && s.subrange(a, b) == x
}

proof fn lemma_run_end(s: Seq<char>, start: int, i: int, a: int, b: int)
    requires
        0 <= start <= i <= s.len(),
        start == 0 || is_separator(s[start - 1]),
        forall|k: int| start <= k < i ==> !is_separator(#[trigger] s[k]),
        token_at(s, a, b),
        start <= b <= i,
        i == s.len() || is_separator(s[i]),
    ensures
        b == i,
        a == start,
{
    if b < i {
        assert(!is_separator(s[b]));
    }
    if a < start {
        assert(!is_separator(s[start - 1]));
    } else if a > start {
        assert(!is_separator(s[a - 1]));
    }
}

/// Reads a list of codes: split at commas and white space, empty pieces
/// skipped, each code checked, the result sorted without repeats. An empty
/// list is allowed. Any character that is neither a separator nor an ASCII
/// letter or digit makes the whole list invalid.
pub fn parse_symbol_list(raw: &str) -> (r: Result<Vec<String>, String>)
    ensures
        match r {
            Ok(v) => {
                &&& list_chars_ok(raw@)
                &&& strictly_sorted(v@)
                &&& forall|x: Seq<char>| #[trigger] in_list(v@, x) <==> is_token(raw@, x)
            },
            Err(e) => !list_chars_ok(raw@) && e@ == code_charset(),
        },
{
    let s = chars_of(raw);
    let n = s.len();
    let mut out: Vec<String> = Vec::new();
    let mut start: usize = 0;
    let mut i: usize = 0;
    while i < n
        invariant
            s@ == raw@,
            n == s@.len(),
            start <= i <= n,
            start == 0 || is_separator(s@[start - 1]),
            forall|k: int| start <= k < i ==> !is_separator(#[trigger] s@[k]),
            forall|k: int| 0 <= k < i ==> is_separator(#[trigger] s@[k]) || is_ascii_alnum(s@[k]),
            strictly_sorted(out@),
            closed_tokens(s@, out@, start as int),
        decreases n - i,
    {
        let c = s[i];
        if c == ',' || white_space(c) {
            let ghost before = out@;
            if start < i {
                let t = string_from_chars(&s, start, i);
                insert_sorted(&mut out, t);
                proof {
                    assert(token_at(s@, start as int, i as int));
                }
            }
            proof {
                assert forall|x: Seq<char>|
                    #[trigger] in_list(out@, x) <==> exists|a: int, b: int|
                        token_at(s@, a, b) && b < i + 1 && s@.subrange(a, b) == x by {
                    if exists|a: int, b: int| token_at(s@, a, b) && b < i + 1 && s@.subrange(a, b) == x {
                        let (a, b) = choose|a: int, b: int|
                            token_at(s@, a, b) && b < i + 1 && s@.subrange(a, b) == x;
                        if b >= start {
                            lemma_run_end(s@, start as int, i as int, a, b);
                        } else {
                            assert(in_list(before, x));
                        }
                    }
                    if in_list(out@, x) && !in_list(before, x) {
                        assert(token_at(s@, start as int, i as int));
                        assert(s@.subrange(start as int, i as int) == x);
                    }
                }
            }
            start = i + 1;
        } else if !ascii_alnum(c) {
            proof {
                assert(!is_separator(s@[i as int]) && !is_ascii_alnum(s@[i as int]));
            }
            return Err(crate::text::string_of("security_code may only contain ASCII letters or numbers"));
        }
        i = i + 1;
    }
    let ghost before = out@;
    if start < n {
        let t = string_from_chars(&s, start, n);
        insert_sorted(&mut out, t);
        proof {
            assert(token_at(s@, start as int, n as int));
        }
    }
    proof {
        assert forall|x: Seq<char>| #[trigger] in_list(out@, x) <==> is_token(raw@, x) by {
            if is_token(raw@, x) {
                let (a, b) = choose|a: int, b: int| token_at(s@, a, b) && s@.subrange(a, b) == x;
                if b >= start {
                    lemma_run_end(s@, start as int, n as int, a, b);
                } else {
                    assert(in_list(before, x));
                }
            }
            if in_list(out@, x) {
                if !in_list(before, x) {
                    assert(token_at(s@, start as int, n as int));
                    assert(s@.subrange(start as int, n as int) == x);
                } else {
                    let (a, b) = choose|a: int, b: int|
                        token_at(s@, a, b) && b < start && s@.subrange(a, b) == x;
                    assert(token_at(s@, a, b) && s@.subrange(a, b) == x);
                }
            }
        }
    }
    Ok(out)
}

/// Law: a code that was accepted is accepted again unchanged, so
/// normalising twice is normalising once.
pub proof fn lemma_security_code_idempotent(s: Seq<char>, t: Seq<char>)
    requires
        security_code_outcome(s) == Ok::<Seq<char>, Seq<char>>(t),
    ensures
        security_code_outcome(t) == Ok::<Seq<char>, Seq<char>>(t),
{
    assert(t == trimmed(s));
    assert(!(exists|k: int| 0 <= k < t.len() && !is_ascii_alnum(#[trigger] t[k])));
    assert(is_ascii_alnum(t[0]));
    assert(is_ascii_alnum(t[t.len() - 1]));
    lemma_trimmed_unchanged(t);
}

} // verus!

//! The data API's bearer key check. The key is compared in constant time
//! (`subtle`), so that an early mismatch does not reveal a prefix of it.
use vstd::prelude::*;
use crate::text::{chars_of, string_from_chars};
use subtle::ConstantTimeEq;

verus! {

broadcast use vstd::string::group_string_axioms;

/// `a.ct_eq(b)` of `subtle::ConstantTimeEq` on byte slices, turned into a
/// `bool`: true exactly when both slices have the same length and bytes
/// (the crate compares lengths first, then every byte).
#[verifier::external_body]
fn bytes_equal_constant_time(a: &[u8], b: &[u8]) -> (r: bool)
    ensures
        r == (a@ == b@),
{
    a.ct_eq(b).into()
}

/// The scheme prefix of the header.
pub open spec fn bearer_prefix() -> Seq<char> {
    "Bearer "@
}

/// Whether a request is let through: a key must be configured, and the
/// `Authorization` header must be `Bearer ` followed by exactly that key.
pub open spec fn bearer_ok(expected: Option<Seq<char>>, header: Option<Seq<char>>) -> bool {
    match (expected, header) {
        (Some(k), Some(h)) => h.len() >= 7 && h.take(7) == bearer_prefix() && h.skip(7) == k,
        _ => false,
    }
}

/// The view of an optional text.
pub open spec fn opt_text(v: Option<&str>) -> Option<Seq<char>> {
    match v {
        Some(s) => Some(s@),
        None => None,
    }
}

/// Decides whether a request may reach a protected endpoint, given the
/// configured key (`None` when unset, which refuses everything) and the
/// `Authorization` header (`None` when absent or not text).
pub fn bearer_authorized(expected: Option<&str>, authorization: Option<&str>) -> (r: bool)
    ensures
        r == bearer_ok(opt_text(expected), opt_text(authorization)),
{
    let key = match expected {
        Some(k) => k,
        None => {
            return false;
        },
    };
    let header = match authorization {
        Some(h) => h,
        None => {
            return false;
        },
    };
    let v = chars_of(header);
    let prefix = chars_of("Bearer ");
    proof {
        reveal_strlit("Bearer ");
    }
    if v.len() < 7 {
        return false;
    }
    let mut i: usize = 0;
    while i < 7
        invariant
            i <= 7 <= v@.len(),
            prefix@ == bearer_prefix(),
            prefix@.len() == 7,
            v@ == header@,
            expected == Some(key),
            authorization == Some(header),
            forall|k: int| 0 <= k < i ==> v@[k] == prefix@[k],
        decreases 7 - i,
    {
        if v[i] != prefix[i] {
            assert(v@.take(7)[i as int] != bearer_prefix()[i as int]);
            assert(v@.take(7) != bearer_prefix());
            return false;
        }
        i = i + 1;
    }
    assert(v@.take(7) =~= bearer_prefix());
    let supplied = string_from_chars(&v, 7, v.len());
    assert(supplied@ == header@.skip(7));
    let same = bytes_equal_constant_time(key.as_bytes(), supplied.as_str().as_bytes());
    proof {
        vstd::utf8::encode_utf8_decode_utf8(key@);
        vstd::utf8::encode_utf8_decode_utf8(supplied@);
    }
    same
}

} // verus!

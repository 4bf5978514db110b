//! Decimal numbers as plain values (`mantissa × 10^-scale`, as
//! `rust_decimal::Decimal` stores them) and the `rust_decimal` calls the
//! library makes on them.
use vstd::prelude::*;

verus! {

broadcast use vstd::string::group_string_axioms;

/// Largest scale `rust_decimal` supports.
pub const MAX_SCALE: u32 = 28;

/// A decimal number `mantissa × 10^-scale`.
#[derive(Clone, Copy, PartialEq, Eq, Structural, Debug)]
pub struct DecimalValue {
    /// The digits, with the sign.
    pub mantissa: i128,
    /// How many of the digits are fractional.
    pub scale: u32,
}

/// `10^n`.
pub open spec fn pow10(n: nat) -> int
    decreases n,
{
    if n == 0 {
        1
    } else {
        10 * pow10((n - 1) as nat)
    }
}

/// Largest magnitude of a `rust_decimal` mantissa plus one (96 bits).
pub open spec fn mantissa_bound() -> int {
    0x1_0000_0000_0000_0000_0000_0000
}

impl DecimalValue {
    /// Within `rust_decimal`'s range: a 96-bit mantissa and a scale of at
    /// most 28.
    pub open spec fn wf(self) -> bool {
        &&& self.scale <= MAX_SCALE
        &&& -mantissa_bound() < self.mantissa < mantissa_bound()
    }

    /// `self` is at most `other` as numbers.
    pub open spec fn at_most(self, other: DecimalValue) -> bool {
        self.mantissa * pow10(other.scale as nat) <= other.mantissa * pow10(self.scale as nat)
    }

    /// `self` is at most the integer `n`.
    pub open spec fn at_most_int(self, n: int) -> bool {
        self.mantissa <= n * pow10(self.scale as nat)
    }
}

proof fn lemma_pow10_monotone(a: nat, b: nat)
    requires
        a <= b,
    ensures
        1 <= pow10(a) <= pow10(b),
    decreases b,
{
    if b > a {
        lemma_pow10_monotone(a, (b - 1) as nat);
    } else if a > 0 {
        lemma_pow10_monotone(0, (a - 1) as nat);
    }
}

proof fn lemma_pow10_bound(n: nat)
    requires
        n <= 28,
    ensures
        1 <= pow10(n) <= 10_000_000_000_000_000_000_000_000_000,
{
    lemma_pow10_monotone(n, 28);
    assert(pow10(28) == 10_000_000_000_000_000_000_000_000_000) by {
        reveal_with_fuel(pow10, 29);
    }
}

/// `10^n` for `n <= 28`.
pub fn pow10_exec(n: u32) -> (r: i128)
    requires
        n <= 28,
    ensures
        r == pow10(n as nat),
{
    let mut r: i128 = 1;
    let mut i: u32 = 0;
    while i < n
        invariant
            i <= n <= 28,
            r == pow10(i as nat),
        decreases n - i,
    {
        proof {
            lemma_pow10_bound((i + 1) as nat);
        }
        r = r * 10;
        i = i + 1;
    }
    r
}

/// Whether `d` is at most the integer `n`.
pub fn at_most_int(d: DecimalValue, n: i32) -> (r: bool)
    requires
        d.wf(),
    ensures
        r == d.at_most_int(n as int),
{
    proof {
        lemma_pow10_bound(d.scale as nat);
    }
    let p = pow10_exec(d.scale);
    assert(-30_000_000_000_000_000_000_000_000_000_000_000_000 <= (n as int) * p
        <= 30_000_000_000_000_000_000_000_000_000_000_000_000) by (nonlinear_arith)
        requires
            i32::MIN <= n <= i32::MAX,
            1 <= p <= 10_000_000_000_000_000_000_000_000_000,
    ;
    d.mantissa <= (n as i128) * p
}

/// What `rust_decimal::Decimal::from_str_exact(s)` returns: the mantissa
/// and scale, or the error's text.
pub uninterp spec fn decimal_from_str_exact(s: Seq<char>) -> Result<(int, int), Seq<char>>;

/// `rust_decimal::Decimal::from_str_exact(s)`: the exact decimal written in
/// `s`, or the parse error's text. The contract names the result, and
/// states the bounds every `Decimal` keeps (96-bit mantissa, scale at most
/// 28).
#[verifier::external_body]
pub(crate) fn parse_decimal_exact(s: &str) -> (r: Result<DecimalValue, String>)
    ensures
        match r {
            Ok(d) => decimal_from_str_exact(s@) == Ok::<(int, int), Seq<char>>(
                (d.mantissa as int, d.scale as int),
            ) && d.wf(),
            Err(e) => decimal_from_str_exact(s@) == Err::<(int, int), Seq<char>>(e@),
        },
{
    match rust_decimal::Decimal::from_str_exact(s) {
        Ok(d) => Ok(DecimalValue { mantissa: d.mantissa(), scale: d.scale() }),
        Err(e) => Err(e.to_string()),
    }
}

/// `a <= b` on `rust_decimal::Decimal`, which orders decimals by value.
#[verifier::external_body]
pub(crate) fn decimal_le(a: DecimalValue, b: DecimalValue) -> (r: bool)
    requires
        a.wf(),
        b.wf(),
    ensures
        r == a.at_most(b),
{
    rust_decimal::Decimal::from_i128_with_scale(a.mantissa, a.scale)
        <= rust_decimal::Decimal::from_i128_with_scale(b.mantissa, b.scale)
}

/// What `format!("{:.places$}", d)` writes for a `rust_decimal::Decimal`.
pub uninterp spec fn decimal_fixed_text(mantissa: int, scale: int, places: int) -> Seq<char>;

/// `format!("{:.places$}", d)` on `rust_decimal::Decimal`: the value with
/// exactly `places` fractional digits. The contract names the text. The
/// precision is kept within a decimal's own scale, far inside what `format!`
/// accepts for a runtime precision.
#[verifier::external_body]
pub(crate) fn decimal_fixed(d: DecimalValue, places: usize) -> (r: String)
    requires
        d.wf(),
        places <= MAX_SCALE,
    ensures
        r@ == decimal_fixed_text(d.mantissa as int, d.scale as int, places as int),
{
    format!("{:.*}", places, rust_decimal::Decimal::from_i128_with_scale(d.mantissa, d.scale))
}

/// What `d.normalize().to_string()` writes for a `rust_decimal::Decimal`.
pub uninterp spec fn decimal_normalized_text(mantissa: int, scale: int) -> Seq<char>;

/// `d.normalize().to_string()` on `rust_decimal::Decimal`: the value
/// without trailing fractional zeros. The contract names the text.
#[verifier::external_body]
pub(crate) fn decimal_normalized(d: DecimalValue) -> (r: String)
    requires
        d.wf(),
    ensures
        r@ == decimal_normalized_text(d.mantissa as int, d.scale as int),
{
    rust_decimal::Decimal::from_i128_with_scale(d.mantissa, d.scale).normalize().to_string()
}

} // verus!

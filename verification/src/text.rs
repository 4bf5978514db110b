//! Character-level helpers shared by the request parsers and message builders.
//!
//! Text is handled as sequences of `char`: the view of a `String` or `&str`
//! is its `Seq<char>`, and the predicates here are the ones the standard
//! library documents for `char` (`is_whitespace`, `is_ascii_alphanumeric`).
use vstd::prelude::*;

verus! {

broadcast use vstd::string::group_string_axioms;

/// Unicode `White_Space`, the property `char::is_whitespace` tests.
pub open spec fn is_white_space(c: char) -> bool {
    let u = c as u32;
    ||| 0x09 <= u <= 0x0D
    ||| u == 0x20
    ||| u == 0x85
    ||| u == 0xA0
    ||| u == 0x1680
    ||| 0x2000 <= u <= 0x200A
    ||| u == 0x2028
    ||| u == 0x2029
    ||| u == 0x202F
    ||| u == 0x205F
    ||| u == 0x3000
}

/// `0-9`, `a-z` or `A-Z`.
pub open spec fn is_ascii_alnum(c: char) -> bool {
    let u = c as u32;
    ||| 0x30 <= u <= 0x39
    ||| 0x41 <= u <= 0x5A
    ||| 0x61 <= u <= 0x7A
}

/// `0-9`.
pub open spec fn is_ascii_digit(c: char) -> bool {
    0x30 <= (c as u32) <= 0x39
}

/// The value of an ASCII digit.
pub open spec fn digit_value(c: char) -> int {
    (c as u32) - 0x30
}

/// Tests `char::is_whitespace`.
pub fn white_space(c: char) -> (r: bool)
    ensures
        r == is_white_space(c),
{
    let u = c as u32;
    (0x09 <= u && u <= 0x0D) || u == 0x20 || u == 0x85 || u == 0xA0 || u == 0x1680 || (0x2000
        <= u && u <= 0x200A) || u == 0x2028 || u == 0x2029 || u == 0x202F || u == 0x205F || u
        == 0x3000
}

/// Tests `char::is_ascii_alphanumeric`.
pub fn ascii_alnum(c: char) -> (r: bool)
    ensures
        r == is_ascii_alnum(c),
{
    let u = c as u32;
    (0x30 <= u && u <= 0x39) || (0x41 <= u && u <= 0x5A) || (0x61 <= u && u <= 0x7A)
}

/// Tests `char::is_ascii_digit`.
pub fn ascii_digit(c: char) -> (r: bool)
    ensures
        r == is_ascii_digit(c),
{
    let u = c as u32;
    0x30 <= u && u <= 0x39
}

/// Index of the first character at or after `i` that is not white space
/// (`s.len()` when there is none).
pub open spec fn trim_start_index(s: Seq<char>, i: int) -> int
    decreases s.len() - i,
{
    if i < 0 || i >= s.len() {
        s.len() as int
    } else if is_white_space(s[i]) {
        trim_start_index(s, i + 1)
    } else {
        i
    }
}

/// One past the last character before `j` that is not white space (0 when
/// there is none).
pub open spec fn trim_end_index(s: Seq<char>, j: int) -> int
    decreases j,
{
    if j <= 0 || j > s.len() {
        0
    } else if is_white_space(s[j - 1]) {
        trim_end_index(s, j - 1)
    } else {
        j
    }
}

/// `s` without its leading and trailing white space, as `str::trim` gives it.
pub open spec fn trimmed(s: Seq<char>) -> Seq<char> {
    let a = trim_start_index(s, 0);
    let b = trim_end_index(s, s.len() as int);
    if a < b {
        s.subrange(a, b)
    } else {
        Seq::empty()
    }
}

/// Every character of `s` is white space.
pub open spec fn all_white_space(s: Seq<char>) -> bool {
    forall|k: int| 0 <= k < s.len() ==> is_white_space(#[trigger] s[k])
}

proof fn lemma_trim_start_bounds(s: Seq<char>, i: int)
    requires
        0 <= i <= s.len(),
    ensures
        i <= trim_start_index(s, i) <= s.len(),
        trim_start_index(s, i) < s.len() ==> !is_white_space(s[trim_start_index(s, i)]),
        forall|k: int| i <= k < trim_start_index(s, i) ==> is_white_space(#[trigger] s[k]),
    decreases s.len() - i,
{
    if i < s.len() && is_white_space(s[i]) {
        lemma_trim_start_bounds(s, i + 1);
    }
}

proof fn lemma_trim_end_bounds(s: Seq<char>, j: int)
    requires
        0 <= j <= s.len(),
    ensures
        0 <= trim_end_index(s, j) <= j,
        trim_end_index(s, j) > 0 ==> !is_white_space(s[trim_end_index(s, j) - 1]),
        forall|k: int| trim_end_index(s, j) <= k < j ==> is_white_space(#[trigger] s[k]),
    decreases j,
{
    if j > 0 && is_white_space(s[j - 1]) {
        lemma_trim_end_bounds(s, j - 1);
    }
}

/// What `str::trim` leaves: no white space at either end, and only white
/// space was removed.
pub proof fn lemma_trimmed_shape(s: Seq<char>)
    ensures
        trimmed(s).len() == 0 <==> all_white_space(s),
        trimmed(s).len() > 0 ==> !is_white_space(trimmed(s)[0]) && !is_white_space(
            trimmed(s).last(),
        ),
        trimmed(s).len() <= s.len(),
{
    lemma_trim_start_bounds(s, 0);
    lemma_trim_end_bounds(s, s.len() as int);
    let a = trim_start_index(s, 0);
    let b = trim_end_index(s, s.len() as int);
    if a >= b {
        assert forall|k: int| 0 <= k < s.len() implies is_white_space(#[trigger] s[k]) by {
            if k >= a {
                assert(k >= b);
            }
        }
    } else {
        assert(!is_white_space(s[a]));
    }
}

/// The characters of `s`, in order.
pub fn chars_of(s: &str) -> (v: Vec<char>)
    ensures
        v@ == s@,
{
    let mut v: Vec<char> = Vec::new();
    for c in it: s.chars()
        invariant
            v@ == it.seq().take(it.index() as int),
            it.seq() == s@,
    {
        v.push(c);
    }
    v
}

/// Appends one character, as `String::push` does.
#[verifier::external_body]
pub(crate) fn push_char(s: &mut String, c: char)
    ensures
        final(s)@ == old(s)@.push(c),
{
    s.push(c);
}

/// Appends every character of `t` to `s`.
pub fn push_str(s: &mut String, t: &str)
    ensures
        final(s)@ == old(s)@ + t@,
{
    let ghost start = s@;
    for c in it: t.chars()
        invariant
            s@ == start + it.seq().take(it.index() as int),
            it.seq() == t@,
    {
        push_char(s, c);
        assert(it.seq().take(it.index() + 1) == it.seq().take(it.index() as int).push(c));
    }
    assert(t@.take(t@.len() as int) == t@);
}

/// Appends every character of `chars[from..to]` to `s`.
pub fn push_chars(s: &mut String, chars: &Vec<char>, from: usize, to: usize)
    requires
        from <= to <= chars@.len(),
    ensures
        final(s)@ == old(s)@ + chars@.subrange(from as int, to as int),
{
    let ghost start = s@;
    let mut i = from;
    while i < to
        invariant
            from <= i <= to <= chars@.len(),
            s@ == start + chars@.subrange(from as int, i as int),
        decreases to - i,
    {
        push_char(s, chars[i]);
        assert(chars@.subrange(from as int, i + 1) == chars@.subrange(from as int, i as int).push(
            chars@[i as int],
        ));
        i = i + 1;
    }
}

/// A `String` holding `chars[from..to]`.
pub fn string_from_chars(chars: &Vec<char>, from: usize, to: usize) -> (s: String)
    requires
        from <= to <= chars@.len(),
    ensures
        s@ == chars@.subrange(from as int, to as int),
{
    let mut s = String::new();
    push_chars(&mut s, chars, from, to);
    assert(Seq::<char>::empty() + chars@.subrange(from as int, to as int) == chars@.subrange(
        from as int,
        to as int,
    ));
    s
}

/// A `String` equal to `t`.
pub fn string_of(t: &str) -> (s: String)
    ensures
        s@ == t@,
{
    let mut s = String::new();
    push_str(&mut s, t);
    assert(Seq::<char>::empty() + t@ == t@);
    s
}

/// The bounds `[a, b)` of the trimmed part of `v`.
pub fn trim_bounds(v: &Vec<char>) -> (r: (usize, usize))
    ensures
        r.0 <= r.1 <= v@.len(),
        v@.subrange(r.0 as int, r.1 as int) == trimmed(v@),
{
    let n = v.len();
    let mut a: usize = 0;
    while a < n && white_space(v[a])
        invariant
            0 <= a <= n == v@.len(),
            trim_start_index(v@, 0) == trim_start_index(v@, a as int),
        decreases n - a,
    {
        a = a + 1;
    }
    let mut b: usize = n;
    while b > a && white_space(v[b - 1])
        invariant
            a <= b <= n == v@.len(),
            trim_end_index(v@, n as int) == trim_end_index(v@, b as int),
        decreases b,
    {
        b = b - 1;
    }
    proof {
        lemma_trim_start_bounds(v@, 0);
        lemma_trim_end_bounds(v@, n as int);
        lemma_trim_end_bounds(v@, b as int);
        let ta = trim_start_index(v@, 0);
        let tb = trim_end_index(v@, n as int);
        assert(ta == a);
        if b > a {
            assert(tb == b);
        } else {
            // everything from `a` on is white space or `a == n`
            assert(tb <= b);
        }
    }
    (a, b)
}

/// `str::trim`, as a `String`.
pub fn trim(s: &str) -> (r: String)
    ensures
        r@ == trimmed(s@),
{
    let v = chars_of(s);
    let (a, b) = trim_bounds(&v);
    string_from_chars(&v, a, b)
}

/// The decimal digits of `n`, most significant first, without sign or
/// leading zeros (`"0"` for zero).
pub open spec fn decimal(n: nat) -> Seq<char>
    decreases n,
{
    if n < 10 {
        seq![digit_char(n)]
    } else {
        decimal(n / 10).push(digit_char(n % 10))
    }
}

/// The ASCII digit for `d < 10`.
pub open spec fn digit_char(d: nat) -> char {
    (0x30 + d) as char
}

/// `n` with a `-` in front when negative, as `Display` for integers writes it.
pub open spec fn signed_decimal(n: int) -> Seq<char> {
    if n < 0 {
        seq!['-'] + decimal((-n) as nat)
    } else {
        decimal(n as nat)
    }
}

/// `decimal(n)` left-padded with `0` to at least `width` characters.
pub open spec fn zero_padded(n: nat, width: nat) -> Seq<char> {
    let d = decimal(n);
    if d.len() >= width {
        d
    } else {
        Seq::new((width - d.len()) as nat, |i: int| '0') + d
    }
}

fn digit(d: u64) -> (c: char)
    requires
        d < 10,
    ensures
        c == digit_char(d as nat),
{
    let r: char = match d {
        0 => '0',
        1 => '1',
        2 => '2',
        3 => '3',
        4 => '4',
        5 => '5',
        6 => '6',
        7 => '7',
        8 => '8',
        _ => '9',
    };
    r
}

/// Appends the decimal form of `n` to `s`.
pub fn push_decimal(s: &mut String, n: u64)
    ensures
        final(s)@ == old(s)@ + decimal(n as nat),
    decreases n,
{
    if n < 10 {
        push_char(s, digit(n));
        assert(decimal(n as nat) == seq![digit_char(n as nat)]);
    } else {
        push_decimal(s, n / 10);
        push_char(s, digit(n % 10));
        assert(decimal(n as nat) == decimal((n / 10) as nat).push(digit_char((n % 10) as nat)));
    }
}

/// Appends the decimal form of `n`, with `-` when negative.
pub fn push_signed_decimal(s: &mut String, n: i64)
    ensures
        final(s)@ == old(s)@ + signed_decimal(n as int),
{
    if n < 0 {
        push_char(s, '-');
        let m: u64 = if n == i64::MIN {
            9223372036854775808u64
        } else {
            (-n) as u64
        };
        assert(m == -(n as int));
        push_decimal(s, m);
        assert(old(s)@.push('-') + decimal(m as nat) == old(s)@ + (seq!['-'] + decimal(
            m as nat,
        )));
    } else {
        push_decimal(s, n as u64);
    }
}

/// The decimal form of `n`, as `u64::to_string` gives it.
pub fn decimal_string(n: u64) -> (s: String)
    ensures
        s@ == decimal(n as nat),
{
    let mut s = String::new();
    push_decimal(&mut s, n);
    assert(Seq::<char>::empty() + decimal(n as nat) == decimal(n as nat));
    s
}

/// Number of decimal digits of `n`.
pub proof fn lemma_decimal_len(n: nat)
    ensures
        decimal(n).len() >= 1,
        n < 10 <==> decimal(n).len() == 1,
        n < 100 ==> decimal(n).len() <= 2,
        n < 1000 ==> decimal(n).len() <= 3,
        n < 10000 ==> decimal(n).len() <= 4,
    decreases n,
{
    if n >= 10 {
        lemma_decimal_len(n / 10);
    }
}

/// Appends `decimal(n)` padded with `0` to `width` characters.
pub fn push_zero_padded(s: &mut String, n: u64, width: usize)
    ensures
        final(s)@ == old(s)@ + zero_padded(n as nat, width as nat),
{
    let d = decimal_string(n);
    let dv = chars_of(d.as_str());
    let ghost start = s@;
    if dv.len() < width {
        let pad = width - dv.len();
        let mut i: usize = 0;
        while i < pad
            invariant
                i <= pad,
                s@ == start + Seq::new(i as nat, |k: int| '0'),
            decreases pad - i,
        {
            push_char(s, '0');
            assert(Seq::new((i + 1) as nat, |k: int| '0') == Seq::new(i as nat, |k: int| '0').push(
                '0',
            ));
            i = i + 1;
        }
        push_str(s, d.as_str());
        assert(start + Seq::new(pad as nat, |k: int| '0') + d@ == start + (Seq::new(
            pad as nat,
            |k: int| '0',
        ) + d@));
    } else {
        push_str(s, d.as_str());
    }
}

/// `parts` joined with `sep` between neighbours.
pub open spec fn joined(parts: Seq<Seq<char>>, sep: Seq<char>) -> Seq<char>
    decreases parts.len(),
{
    if parts.len() == 0 {
        Seq::empty()
    } else if parts.len() == 1 {
        parts[0]
    } else {
        joined(parts.drop_last(), sep) + sep + parts.last()
    }
}

/// The views of `v`'s strings.
pub open spec fn string_views(v: Seq<String>) -> Seq<Seq<char>> {
    v.map_values(|s: String| s@)
}

/// `[String]::join`.
pub fn join(parts: &Vec<String>, sep: &str) -> (r: String)
    ensures
        r@ == joined(string_views(parts@), sep@),
{
    let mut r = String::new();
    let mut i: usize = 0;
    while i < parts.len()
        invariant
            i <= parts@.len(),
            r@ == joined(string_views(parts@.take(i as int)), sep@),
        decreases parts@.len() - i,
    {
        let ghost before = r@;
        if i > 0 {
            push_str(&mut r, sep);
        }
        push_str(&mut r, parts[i].as_str());
        proof {
            let tk = string_views(parts@.take(i + 1));
            assert(tk.drop_last() == string_views(parts@.take(i as int)));
            assert(tk.last() == parts@[i as int]@);
            if i == 0 {
                assert(tk.len() == 1);
                assert(before == Seq::<char>::empty());
                assert(r@ == tk[0]);
            }
        }
        i = i + 1;
    }
    assert(parts@.take(parts@.len() as int) == parts@);
    r
}

/// Every character of `s` is an ASCII digit.
pub open spec fn all_digits(s: Seq<char>) -> bool {
    forall|k: int| 0 <= k < s.len() ==> is_ascii_digit(#[trigger] s[k])
}

/// The number written by the ASCII digits `s` (most significant first).
pub open spec fn digits_value(s: Seq<char>) -> nat
    decreases s.len(),
{
    if s.len() == 0 {
        0
    } else {
        (digits_value(s.drop_last()) * 10 + digit_value(s.last())) as nat
    }
}

/// The integer `str::parse` reads from `s`: an optional `+` or `-`, then
/// one or more ASCII digits; `None` for anything else. (Whether it fits
/// the target type is checked separately.)
pub open spec fn integer_text(s: Seq<char>) -> Option<int> {
    if s.len() > 0 && (s[0] == '+' || s[0] == '-') {
        let rest = s.skip(1);
        if rest.len() > 0 && all_digits(rest) {
            Some(
                if s[0] == '-' {
                    -(digits_value(rest) as int)
                } else {
                    digits_value(rest) as int
                },
            )
        } else {
            None
        }
    } else if s.len() > 0 && all_digits(s) {
        Some(digits_value(s) as int)
    } else {
        None
    }
}

/// `s.parse::<i32>().ok()`: the integer `s` writes, if it is one and fits.
pub open spec fn i32_text(s: Seq<char>) -> Option<int> {
    match integer_text(s) {
        Some(v) => if i32::MIN <= v <= i32::MAX {
            Some(v)
        } else {
            None
        },
        None => None,
    }
}

proof fn lemma_digits_value_prefix(s: Seq<char>, i: int)
    requires
        0 <= i <= s.len(),
        all_digits(s),
    ensures
        digits_value(s.take(i)) <= digits_value(s),
    decreases s.len(),
{
    if i < s.len() {
        assert(s.drop_last().take(i) == s.take(i));
        assert forall|k: int| 0 <= k < s.drop_last().len() implies is_ascii_digit(
            #[trigger] s.drop_last()[k],
        ) by {
            assert(s.drop_last()[k] == s[k]);
        }
        lemma_digits_value_prefix(s.drop_last(), i);
        assert(is_ascii_digit(s[s.len() - 1]));
    } else {
        assert(s.take(i) == s);
    }
}

/// The value of the digits `v[from..to]`, or `None` once it passes
/// `limit` (or a character is not a digit).
fn digits_upto(v: &Vec<char>, from: usize, to: usize, limit: u64) -> (r: Option<u64>)
    requires
        from <= to <= v@.len(),
        9 <= limit <= 0x8000_0000_0000_0000,
    ensures
        match r {
            Some(n) => all_digits(v@.subrange(from as int, to as int)) && n == digits_value(
                v@.subrange(from as int, to as int),
            ) && n <= limit,
            None => !all_digits(v@.subrange(from as int, to as int)) || digits_value(
                v@.subrange(from as int, to as int),
            ) > limit,
        },
{
    let ghost s = v@.subrange(from as int, to as int);
    let mut acc: u64 = 0;
    let mut i = from;
    while i < to
        invariant
            from <= i <= to <= v@.len(),
            9 <= limit <= 0x8000_0000_0000_0000,
            s == v@.subrange(from as int, to as int),
            all_digits(s.take(i - from)),
            acc == digits_value(s.take(i - from)),
            acc <= limit,
        decreases to - i,
    {
        let c = v[i];
        if !ascii_digit(c) {
            assert(s[i - from] == c);
            return None;
        }
        let d = (c as u32 - 0x30) as u64;
        proof {
            assert(s.take(i + 1 - from).drop_last() == s.take(i - from));
            assert(s.take(i + 1 - from).last() == c);
        }
        if acc > (limit - d) / 10 {
            proof {
                assert(acc * 10 + d > limit) by (nonlinear_arith)
                    requires
                        acc > (limit - d) / 10,
                        d <= 9,
                        d <= limit,
                ;
                assert(all_digits(s.take(i + 1 - from)));
                if all_digits(s) {
                    lemma_digits_value_prefix(s, i + 1 - from);
                }
            }
            return None;
        }
        assert(acc * 10 + d <= limit) by (nonlinear_arith)
            requires
                acc <= (limit - d) / 10,
                d <= 9,
                d <= limit,
        ;
        acc = acc * 10 + d;
        i = i + 1;
    }
    proof {
        assert(s.take(to - from) == s);
    }
    Some(acc)
}

/// `s.parse::<i32>().ok()` on the characters `v[from..to]`.
pub fn parse_i32_chars(v: &Vec<char>, from: usize, to: usize) -> (r: Option<i32>)
    requires
        from <= to <= v@.len(),
    ensures
        match r {
            Some(n) => i32_text(v@.subrange(from as int, to as int)) == Some(n as int),
            None => i32_text(v@.subrange(from as int, to as int)) is None,
        },
{
    let ghost s = v@.subrange(from as int, to as int);
    if from == to {
        return None;
    }
    let c = v[from];
    if c == '+' || c == '-' {
        proof {
            assert(s[0] == c);
            assert(s.skip(1) == v@.subrange(from + 1, to as int));
        }
        if from + 1 == to {
            return None;
        }
        let limit: u64 = if c == '-' {
            0x8000_0000
        } else {
            0x7FFF_FFFF
        };
        match digits_upto(v, from + 1, to, limit) {
            Some(n) => {
                if c == '-' {
                    Some((0 - (n as i64)) as i32)
                } else {
                    Some(n as i32)
                }
            },
            None => None,
        }
    } else {
        proof {
            assert(s[0] == c);
        }
        match digits_upto(v, from, to, 0x7FFF_FFFF) {
            Some(n) => Some(n as i32),
            None => None,
        }
    }
}

/// `s.parse::<i32>().ok()`.
pub fn parse_i32_text(s: &str) -> (r: Option<i32>)
    ensures
        match r {
            Some(n) => i32_text(s@) == Some(n as int),
            None => i32_text(s@) is None,
        },
{
    let v = chars_of(s);
    proof {
        assert(v@.subrange(0, v@.len() as int) == v@);
    }
    parse_i32_chars(&v, 0, v.len())
}

/// `s.parse::<i64>().ok()`: the integer `s` writes, if it is one and fits.
pub open spec fn i64_text(s: Seq<char>) -> Option<int> {
    match integer_text(s) {
        Some(v) => if i64::MIN <= v <= i64::MAX {
            Some(v)
        } else {
            None
        },
        None => None,
    }
}

/// `s.parse::<i64>().ok()` on the characters `v[from..to]`.
pub fn parse_i64_chars(v: &Vec<char>, from: usize, to: usize) -> (r: Option<i64>)
    requires
        from <= to <= v@.len(),
    ensures
        match r {
            Some(n) => i64_text(v@.subrange(from as int, to as int)) == Some(n as int),
            None => i64_text(v@.subrange(from as int, to as int)) is None,
        },
{
    let ghost s = v@.subrange(from as int, to as int);
    if from == to {
        return None;
    }
    let c = v[from];
    if c == '+' || c == '-' {
        proof {
            assert(s[0] == c);
            assert(s.skip(1) == v@.subrange(from + 1, to as int));
        }
        if from + 1 == to {
            return None;
        }
        let limit: u64 = if c == '-' {
            0x8000_0000_0000_0000
        } else {
            0x7FFF_FFFF_FFFF_FFFF
        };
        match digits_upto(v, from + 1, to, limit) {
            Some(n) => {
                if c == '-' {
                    Some((0 - (n as i128)) as i64)
                } else {
                    Some(n as i64)
                }
            },
            None => None,
        }
    } else {
        proof {
            assert(s[0] == c);
        }
        match digits_upto(v, from, to, 0x7FFF_FFFF_FFFF_FFFF) {
            Some(n) => Some(n as i64),
            None => None,
        }
    }
}

/// `str::trim` leaves a text alone when neither end is white space.
pub proof fn lemma_trimmed_unchanged(s: Seq<char>)
    requires
        s.len() > 0,
        !is_white_space(s[0]),
        !is_white_space(s.last()),
    ensures
        trimmed(s) == s,
{
    assert(trim_start_index(s, 0) == 0);
    assert(trim_end_index(s, s.len() as int) == s.len());
    assert(s.subrange(0, s.len() as int) == s);
}

/// An ASCII digit's value writes back as the digit; only `0` has value 0.
pub proof fn lemma_digit_round_trip(c: char)
    requires
        is_ascii_digit(c),
    ensures
        digit_char(digit_value(c) as nat) == c,
        0 <= digit_value(c) <= 9,
        c != '0' ==> digit_value(c) >= 1,
{
    let u = c as u32;
    assert(((0x30 + ((u as int) - 0x30)) as char) == c);
    assert(('0' as u32) == 0x30);
}

proof fn lemma_digits_value_positive(t: Seq<char>)
    requires
        t.len() > 0,
        all_digits(t),
        t[0] != '0',
    ensures
        digits_value(t) >= 1,
    decreases t.len(),
{
    if t.len() > 1 {
        assert(t.drop_last()[0] == t[0]);
        assert forall|k: int| 0 <= k < t.drop_last().len() implies is_ascii_digit(
            #[trigger] t.drop_last()[k],
        ) by {
            assert(t.drop_last()[k] == t[k]);
        }
        lemma_digits_value_positive(t.drop_last());
        assert(is_ascii_digit(t[t.len() - 1]));
    } else {
        assert(is_ascii_digit(t[0]));
        assert(t.last() == t[0]);
        assert(t.drop_last().len() == 0);
        assert(digits_value(t.drop_last()) == 0);
        lemma_digit_round_trip(t[0]);
    }
}

/// The digits of a number written without leading zeros are its decimal
/// form: `decimal` reads back what `digits_value` read.
pub proof fn lemma_decimal_of_digits(t: Seq<char>)
    requires
        t.len() > 0,
        all_digits(t),
        t[0] != '0' || t.len() == 1,
    ensures
        decimal(digits_value(t)) == t,
    decreases t.len(),
{
    let last = t.last();
    assert(is_ascii_digit(t[t.len() - 1]));
    assert(last == t[t.len() - 1]);
    assert(is_ascii_digit(last));
    lemma_digit_round_trip(last);
    if t.len() == 1 {
        assert(t.drop_last().len() == 0);
        assert(digits_value(t.drop_last()) == 0);
        assert(digits_value(t) == digit_value(last));
        assert(decimal(digits_value(t)) =~= seq![last]);
    } else {
        let p = t.drop_last();
        assert(p[0] == t[0]);
        assert forall|k: int| 0 <= k < p.len() implies is_ascii_digit(#[trigger] p[k]) by {
            assert(p[k] == t[k]);
        }
        lemma_digits_value_positive(p);
        lemma_decimal_of_digits(p);
        let n = digits_value(t);
        assert(n == digits_value(p) * 10 + digit_value(last));
        assert(n >= 10);
        assert(n / 10 == digits_value(p));
        assert(n % 10 == digit_value(last));
        assert(decimal(n) == decimal(n / 10).push(digit_char(n % 10)));
        assert(t == p.push(last));
    }
}

} // verus!

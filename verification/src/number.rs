//! Fixed-point decimal numbers: nine fractional digits, compared with a
//! tolerance of one thousandth.
use vstd::prelude::*;
use crate::text::{chars_of, Ordered};

verus! {

/// Units per one: a `Decimal` counts billionths.
pub const SCALE: i128 = 1_000_000_000;

/// One thousandth, in units: two numbers closer than this compare equal.
pub const TOLERANCE: i128 = 1_000_000;

/// Integer parts from this value on are not representable.
pub const INT_LIMIT: u128 = 1_000_000_000_000_000_000_000_000_000;

/// A decimal number, held as a count of billionths.
#[derive(Clone, Copy, Debug, PartialEq, Eq, Structural)]
pub struct Decimal {
    pub units: i128,
}

impl View for Decimal {
    type V = int;

    /// The count of billionths, as an integer.
    open spec fn view(&self) -> int {
        self.units as int
    }
}

pub open spec fn is_digit(c: char) -> bool {
    '0' <= c && c <= '9'
}

pub open spec fn digit_value(c: char) -> int {
    c as int - '0' as int
}

pub open spec fn digit_char(d: int) -> char {
    (d + '0' as int) as char
}

pub open spec fn all_digits(s: Seq<char>) -> bool {
    forall|i: int| 0 <= i < s.len() ==> is_digit(#[trigger] s[i])
}

/// Value of a run of decimal digits.
pub open spec fn digits_value(s: Seq<char>) -> int
    decreases s.len(),
{
    if s.len() == 0 {
        0
    } else {
        digits_value(s.drop_last()) * 10 + digit_value(s.last())
    }
}

/// Units denoted by the fractional digits `s`, the first of which weighs
/// `weight` units; digits past the ninth are dropped.
pub open spec fn fraction_units(s: Seq<char>, weight: int) -> int
    decreases s.len(),
{
    if s.len() == 0 || weight <= 0 {
        0
    } else {
        digit_value(s[0]) * weight + fraction_units(s.drop_first(), weight / 10)
    }
}

/// Whether a text starts with a sign.
pub open spec fn has_sign(s: Seq<char>) -> bool {
    s.len() > 0 && (s[0] == '-' || s[0] == '+')
}

/// The text after the sign, if any.
pub open spec fn unsigned_part(s: Seq<char>) -> Seq<char> {
    if has_sign(s) {
        s.drop_first()
    } else {
        s
    }
}

/// Length of the leading run of digits of `s`.
pub open spec fn digit_run(s: Seq<char>) -> int
    decreases s.len(),
{
    if s.len() > 0 && is_digit(s[0]) {
        1 + digit_run(s.drop_first())
    } else {
        0
    }
}

/// The digits before the decimal point.
pub open spec fn integer_digits(s: Seq<char>) -> Seq<char> {
    let body = unsigned_part(s);
    body.take(digit_run(body))
}

/// The digits after the decimal point; empty where there is no point.
pub open spec fn fraction_digits(s: Seq<char>) -> Seq<char> {
    let body = unsigned_part(s);
    let k = digit_run(body);
    if k < body.len() {
        body.skip(k + 1)
    } else {
        Seq::empty()
    }
}

/// A number text: an optional sign, digits, and optionally a point followed
/// by digits, with a digit on at least one side of the point.
pub open spec fn is_number_text(s: Seq<char>) -> bool {
    let body = unsigned_part(s);
    let k = digit_run(body);
    &&& k < body.len() ==> body[k] == '.'
    &&& all_digits(fraction_digits(s))
    &&& integer_digits(s).len() + fraction_digits(s).len() > 0
}

/// The units a number text denotes.
pub open spec fn number_text_units(s: Seq<char>) -> int {
    let magnitude = digits_value(integer_digits(s)) * SCALE + fraction_units(
        fraction_digits(s),
        SCALE / 10,
    );
    if s.len() > 0 && s[0] == '-' {
        -magnitude
    } else {
        magnitude
    }
}

/// What parsing a text gives: its units, where it is a number text whose
/// integer part is below `INT_LIMIT`.
pub open spec fn parse_units(s: Seq<char>) -> Option<int> {
    if is_number_text(s) && digits_value(integer_digits(s)) < INT_LIMIT {
        Some(number_text_units(s))
    } else {
        None
    }
}

/// Three-way comparison under the tolerance.
pub open spec fn compare_units(a: int, b: int) -> Ordered {
    if a - b < TOLERANCE && b - a < TOLERANCE {
        Ordered::Equal
    } else if a < b {
        Ordered::Less
    } else {
        Ordered::Greater
    }
}

pub proof fn lemma_digit_run_bounds(s: Seq<char>)
    ensures
        0 <= digit_run(s) <= s.len(),
        all_digits(s.take(digit_run(s))),
        digit_run(s) < s.len() ==> !is_digit(s[digit_run(s)]),
    decreases s.len(),
{
    if s.len() > 0 && is_digit(s[0]) {
        let t = s.drop_first();
        lemma_digit_run_bounds(t);
        let k = digit_run(t);
        assert forall|i: int| 0 <= i < k + 1 implies is_digit(#[trigger] s.take(k + 1)[i]) by {
            if i > 0 {
                assert(s.take(k + 1)[i] == t.take(k)[i - 1]);
            }
        }
        if k + 1 < s.len() {
            assert(s[k + 1] == t[k]);
        }
    }
}

/// If `s[..k]` are digits and `s[k]` is not (or `k` is the end), the run is `k`.
pub proof fn lemma_digit_run_is(s: Seq<char>, k: int)
    requires
        0 <= k <= s.len(),
        forall|i: int| 0 <= i < k ==> is_digit(#[trigger] s[i]),
        k < s.len() ==> !is_digit(s[k]),
    ensures
        digit_run(s) == k,
    decreases s.len(),
{
    if k > 0 {
        let t = s.drop_first();
        assert forall|i: int| 0 <= i < k - 1 implies is_digit(#[trigger] t[i]) by {
            assert(t[i] == s[i + 1]);
        }
        if k < s.len() {
            assert(t[k - 1] == s[k]);
        }
        lemma_digit_run_is(t, k - 1);
    }
}

impl Decimal {
    /// The whole number `n`.
    pub fn from_int(n: i64) -> (r: Decimal)
        ensures
            r.units == n * SCALE,
    {
        let wide: i128 = n as i128;
        Decimal { units: wide * SCALE }
    }

    /// Parses a number text.
    pub fn parse(text: &str) -> (r: Option<Decimal>)
        ensures
            match parse_units(text@) {
                Some(u) => r == Some(Decimal { units: u as i128 }) && i128::MIN <= u <= i128::MAX,
                None => r is None,
            },
    {
        let chars = chars_of(text);
        let n = chars.len();
        let ghost s = text@;
        let ghost body = unsigned_part(s);
        let negative = n > 0 && chars[0] == '-';
        let start: usize = if n > 0 && (chars[0] == '-' || chars[0] == '+') { 1 } else { 0 };
        assert(body == s.skip(start as int));
        proof {
            lemma_digit_run_bounds(body);
        }
        // integer part
        let mut i: usize = start;
        let mut int_part: u128 = 0;
        let mut overflow = false;
        while i < n && chars[i] >= '0' && chars[i] <= '9'
            invariant
                start <= i <= n,
                n == chars.len(),
                chars@ == s,
                body == s.skip(start as int),
                forall|j: int| start <= j < i ==> is_digit(#[trigger] s[j]),
                !overflow ==> int_part == digits_value(s.subrange(start as int, i as int)),
                !overflow ==> int_part < INT_LIMIT,
                overflow ==> digits_value(s.subrange(start as int, i as int)) >= INT_LIMIT,
            decreases n - i,
        {
            let d: u128 = (chars[i] as u8 - 48) as u128;
            proof {
                let cur = s.subrange(start as int, i as int + 1);
                assert(cur.drop_last() == s.subrange(start as int, i as int));
                assert(cur.last() == s[i as int]);
                assert(digit_value(s[i as int]) == d);
            }
            if !overflow {
                let next: u128 = int_part * 10 + d;
                if next >= INT_LIMIT {
                    overflow = true;
                } else {
                    int_part = next;
                }
            }
            i += 1;
        }
        let int_end = i;
        proof {
            assert forall|j: int| 0 <= j < int_end - start implies is_digit(#[trigger] body[j]) by {
                assert(body[j] == s[j + start]);
            }
            if int_end < n {
                assert(body[int_end - start] == s[int_end as int]);
            }
            lemma_digit_run_is(body, int_end - start);
            assert(body.take(int_end - start) == s.subrange(start as int, int_end as int));
        }
        if int_end == n {
            if int_end == start || overflow {
                proof {
                    lemma_digits_value_monotone(s.subrange(start as int, int_end as int));
                }
                return None;
            }
            assert(fraction_digits(s) == Seq::<char>::empty());
            let magnitude: i128 = (int_part as i128) * SCALE;
            return Some(Decimal { units: if negative { -magnitude } else { magnitude } });
        }
        if chars[int_end] != '.' {
            return None;
        }
        // fraction part
        let frac_start: usize = int_end + 1;
        let ghost fp = s.skip(frac_start as int);
        assert(fraction_digits(s) == fp) by {
            assert(body.skip(int_end - start + 1) == fp);
        }
        let mut j: usize = frac_start;
        let mut frac: i128 = 0;
        let mut weight: i128 = SCALE / 10;
        while j < n && chars[j] >= '0' && chars[j] <= '9'
            invariant
                frac_start <= j <= n,
                n == chars.len(),
                chars@ == s,
                fp == s.skip(frac_start as int),
                forall|k: int| frac_start <= k < j ==> is_digit(#[trigger] s[k]),
                0 <= weight <= SCALE / 10,
                0 <= frac,
                frac + weight * 10 <= SCALE,
                fraction_units(fp, SCALE / 10) == frac + fraction_units(
                    s.skip(j as int),
                    weight as int,
                ),
            decreases n - j,
        {
            let d: i128 = (chars[j] as u8 - 48) as i128;
            proof {
                let rest = s.skip(j as int);
                assert(rest[0] == s[j as int]);
                assert(rest.drop_first() == s.skip(j as int + 1));
                assert(digit_value(s[j as int]) == d);
                assert(d * weight <= 9 * weight) by (nonlinear_arith)
                    requires
                        0 <= d <= 9,
                        0 <= weight,
                ;
            }
            frac = frac + d * weight;
            weight = weight / 10;
            j += 1;
        }
        if j < n {
            assert(!is_digit(fp[j - frac_start])) by {
                assert(fp[j - frac_start] == s[j as int]);
            }
            return None;
        }
        assert(all_digits(fp)) by {
            assert forall|k: int| 0 <= k < fp.len() implies is_digit(#[trigger] fp[k]) by {
                assert(fp[k] == s[k + frac_start]);
            }
        }
        assert(s.skip(n as int).len() == 0);
        if (int_end == start && frac_start == n) || overflow {
            return None;
        }
        let magnitude: i128 = (int_part as i128) * SCALE + frac;
        Some(Decimal { units: if negative { -magnitude } else { magnitude } })
    }
}

pub proof fn lemma_digits_value_monotone(s: Seq<char>)
    ensures
        digits_value(s) >= 0 || !all_digits(s),
    decreases s.len(),
{
    if s.len() > 0 {
        lemma_digits_value_monotone(s.drop_last());
        if all_digits(s) {
            assert forall|i: int| 0 <= i < s.drop_last().len() implies is_digit(
                #[trigger] s.drop_last()[i],
            ) by {
                assert(s.drop_last()[i] == s[i]);
            }
            assert(is_digit(s[s.len() - 1]));
        }
    }
}

/// Three-way comparison of two numbers under the tolerance.
pub fn compare_number(a: Decimal, b: Decimal) -> (r: Ordered)
    ensures
        r == compare_units(a@, b@),
{
    let close = match a.units.checked_sub(b.units) {
        Some(d) => -TOLERANCE < d && d < TOLERANCE,
        None => false,
    };
    if close {
        Ordered::Equal
    } else if a.units < b.units {
        Ordered::Less
    } else {
        Ordered::Greater
    }
}

/// Decimal digits of a natural number, without leading zeros.
pub open spec fn digits_of(n: nat) -> Seq<char>
    decreases n,
{
    if n < 10 {
        seq![digit_char(n as int)]
    } else {
        digits_of(n / 10).push(digit_char((n % 10) as int))
    }
}

/// Digits of the fraction `f`, whose first digit weighs `weight` units,
/// without trailing zeros.
pub open spec fn fraction_text(f: int, weight: int) -> Seq<char>
    decreases weight,
{
    if f <= 0 || weight <= 0 {
        Seq::empty()
    } else {
        seq![digit_char(f / weight)] + fraction_text(f % weight, weight / 10)
    }
}

/// The weights of the nine fractional digits, and zero past the last.
pub open spec fn is_weight(w: int) -> bool {
    w == 100_000_000 || w == 10_000_000 || w == 1_000_000 || w == 100_000 || w == 10_000 || w
        == 1_000 || w == 100 || w == 10 || w == 1 || w == 0
}

pub open spec fn magnitude(u: int) -> int {
    if u < 0 {
        -u
    } else {
        u
    }
}

/// How a number is written: as a whole number where its fraction is under a
/// thousandth (the fraction is cut off), else with all its fractional digits.
pub open spec fn format_units(u: int) -> Seq<char> {
    let whole = magnitude(u) / (SCALE as int);
    let fraction = magnitude(u) % (SCALE as int);
    if fraction < TOLERANCE {
        if u < 0 && whole > 0 {
            seq!['-'] + digits_of(whole as nat)
        } else {
            digits_of(whole as nat)
        }
    } else if u < 0 {
        seq!['-'] + digits_of(whole as nat) + seq!['.'] + fraction_text(fraction, SCALE / 10)
    } else {
        digits_of(whole as nat) + seq!['.'] + fraction_text(fraction, SCALE / 10)
    }
}

fn push_digit(out: &mut String, d: u8)
    requires
        d < 10,
    ensures
        final(out)@ == old(out)@.push(digit_char(d as int)),
{
    out.push((d + 48) as char);
}

/// Appends the decimal digits of `n`.
pub fn push_digits(out: &mut String, n: u128)
    ensures
        final(out)@ == old(out)@ + digits_of(n as nat),
    decreases n,
{
    if n >= 10 {
        push_digits(out, n / 10);
    }
    push_digit(out, (n % 10) as u8);
}

/// Writes a number.
pub fn format_number(num: Decimal) -> (r: String)
    ensures
        r@ == format_units(num@),
{
    let u = num.units;
    let mag: u128 = if u >= 0 {
        u as u128
    } else {
        (-(u + 1)) as u128 + 1
    };
    let scale: u128 = SCALE as u128;
    let whole: u128 = mag / scale;
    let fraction: u128 = mag % scale;
    let mut out = String::new();
    if fraction < TOLERANCE as u128 {
        if u < 0 && whole > 0 {
            out.push('-');
        }
        push_digits(&mut out, whole);
        return out;
    }
    if u < 0 {
        out.push('-');
    }
    push_digits(&mut out, whole);
    out.push('.');
    let ghost head = out@;
    let mut f: u128 = fraction;
    let mut weight: u128 = scale / 10;
    while f > 0 && weight > 0
        invariant
            is_weight(weight as int),
            weight > 0 ==> f < weight * 10,
            weight == 0 ==> f == 0,
            head + fraction_text(fraction as int, SCALE / 10) == out@ + fraction_text(
                f as int,
                weight as int,
            ),
        decreases weight,
    {
        let d: u128 = f / weight;
        assert(d < 10) by (nonlinear_arith)
            requires
                d == f / weight,
                f < weight * 10,
                weight > 0,
        ;
        let ghost before = out@;
        push_digit(&mut out, d as u8);
        proof {
            let tail = fraction_text((f % weight) as int, (weight / 10) as int);
            assert(fraction_text(f as int, weight as int) == seq![digit_char(d as int)] + tail);
            assert(before + (seq![digit_char(d as int)] + tail) == out@ + tail);
        }
        f = f % weight;
        weight = weight / 10;
    }
    out
}

} // verus!

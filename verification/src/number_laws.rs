//! Laws of number texts: writing a number and reading it back.
use vstd::prelude::*;
use crate::number::{
    all_digits, digit_char, digit_run, digit_value, digits_of, digits_value, format_units,
    fraction_digits, fraction_text, fraction_units, has_sign, integer_digits, is_digit,
    is_number_text, is_weight, lemma_digit_run_is, magnitude, number_text_units, parse_units,
    unsigned_part, INT_LIMIT, SCALE, TOLERANCE,
};

verus! {

/// The digits of a number are digits, and denote the number.
pub proof fn lemma_digits_of(n: nat)
    ensures
        digits_of(n).len() >= 1,
        all_digits(digits_of(n)),
        digits_value(digits_of(n)) == n,
    decreases n,
{
    if n < 10 {
        let s = digits_of(n);
        assert(s.len() == 1);
        assert(s[0] == digit_char(n as int));
        assert(s.drop_last().len() == 0);
        assert(digits_value(s.drop_last()) == 0);
    } else {
        lemma_digits_of(n / 10);
        let front = digits_of(n / 10);
        let s = digits_of(n);
        assert(s == front.push(digit_char((n % 10) as int)));
        assert(s.drop_last() =~= front);
        assert forall|i: int| 0 <= i < s.len() implies is_digit(#[trigger] s[i]) by {
            if i < front.len() {
                assert(s[i] == front[i]);
            }
        }
    }
}

/// The digits of a fraction below ten times the weight of its first digit are
/// digits, and denote the fraction.
pub proof fn lemma_fraction_text(f: int, weight: int)
    requires
        is_weight(weight),
        0 <= f,
        weight > 0 ==> f < weight * 10,
        weight == 0 ==> f == 0,
    ensures
        all_digits(fraction_text(f, weight)),
        fraction_units(fraction_text(f, weight), weight) == f,
    decreases weight,
{
    if f > 0 && weight > 0 {
        let d = f / weight;
        let rest = fraction_text(f % weight, weight / 10);
        assert(0 <= d < 10) by (nonlinear_arith)
            requires
                d == f / weight,
                0 <= f < weight * 10,
                weight > 0,
        ;
        assert(f == d * weight + f % weight) by (nonlinear_arith)
            requires
                d == f / weight,
                weight > 0,
        ;
        lemma_fraction_text(f % weight, weight / 10);
        let s = fraction_text(f, weight);
        assert(s == seq![digit_char(d)] + rest);
        assert(s[0] == digit_char(d));
        assert(s.drop_first() =~= rest);
        assert forall|i: int| 0 <= i < s.len() implies is_digit(#[trigger] s[i]) by {
            if i > 0 {
                assert(s[i] == rest[i - 1]);
            }
        }
        assert(digit_value(s[0]) == d);
    }
}

/// Of digits followed by something that is no digit, the leading run of
/// digits is the digits.
pub proof fn lemma_digit_run_of_prefix(digits: Seq<char>, rest: Seq<char>)
    requires
        all_digits(digits),
        rest.len() > 0 ==> !is_digit(rest[0]),
    ensures
        digit_run(digits + rest) == digits.len(),
{
    let s = digits + rest;
    assert forall|i: int| 0 <= i < digits.len() implies is_digit(#[trigger] s[i]) by {
        assert(s[i] == digits[i]);
    }
    if digits.len() < s.len() {
        assert(s[digits.len() as int] == rest[0]);
    }
    lemma_digit_run_is(s, digits.len() as int);
}

/// The integer value of a number: its units with the fraction cut off.
pub open spec fn whole_units(u: int) -> int {
    if u < 0 {
        -((-u) / (SCALE as int) * SCALE)
    } else {
        u / (SCALE as int) * SCALE
    }
}

/// Number round trip: a number written and read back is the number itself,
/// where its fraction is a thousandth or more; where it is less, the number is
/// written without it, and what is read back is its integer value.
pub proof fn lemma_number_round_trip(u: int)
    requires
        magnitude(u) / (SCALE as int) < INT_LIMIT,
    ensures
        magnitude(u) % (SCALE as int) >= TOLERANCE ==> parse_units(format_units(u)) == Some(u),
        magnitude(u) % (SCALE as int) < TOLERANCE ==> parse_units(format_units(u)) == Some(
            whole_units(u),
        ),
{
    let whole = magnitude(u) / (SCALE as int);
    let fraction = magnitude(u) % (SCALE as int);
    let d = digits_of(whole as nat);
    lemma_digits_of(whole as nat);
    assert(is_digit(d[0]));
    let s = format_units(u);
    if fraction < TOLERANCE {
        let negative = u < 0 && whole > 0;
        let body = d;
        if negative {
            assert(s == seq!['-'] + d);
            assert(s[0] == '-');
            assert(unsigned_part(s) =~= d);
        } else {
            assert(s == d);
            assert(!has_sign(s));
            assert(unsigned_part(s) == d);
        }
        lemma_digit_run_of_prefix(d, Seq::empty());
        assert(d + Seq::<char>::empty() =~= d);
        assert(d.take(d.len() as int) =~= d);
        assert(integer_digits(s) == d);
        assert(fraction_digits(s) =~= Seq::<char>::empty());
        assert(is_number_text(s));
        assert(fraction_units(Seq::<char>::empty(), SCALE / 10) == 0);
        assert(number_text_units(s) == if negative {
            -(whole * SCALE)
        } else {
            whole * SCALE
        });
    } else {
        let f = fraction_text(fraction, SCALE / 10);
        lemma_fraction_text(fraction, SCALE / 10);
        let tail = seq!['.'] + f;
        let body = d + tail;
        assert(tail[0] == '.');
        if u < 0 {
            assert(s =~= seq!['-'] + body);
            assert(s[0] == '-');
            assert(unsigned_part(s) =~= body);
        } else {
            assert(s =~= body);
            assert(s[0] == d[0]);
            assert(!has_sign(s));
            assert(unsigned_part(s) =~= body);
        }
        lemma_digit_run_of_prefix(d, tail);
        assert(body.take(d.len() as int) =~= d);
        assert(body[d.len() as int] == '.');
        assert(body.skip(d.len() as int + 1) =~= f);
        assert(integer_digits(s) == d);
        assert(fraction_digits(s) == f);
        assert(is_number_text(s));
        assert(magnitude(u) == whole * SCALE + fraction) by (nonlinear_arith)
            requires
                whole == magnitude(u) / (SCALE as int),
                fraction == magnitude(u) % (SCALE as int),
        ;
    }
}

} // verus!

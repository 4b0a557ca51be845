//! Texts: comparing, trimming, splitting, replacing, and reading numbers.
//!
//! A handful of operations of the standard library are taken without proof:
//! equality of texts, appending a character, the Unicode case mappings and the
//! test for white space. Each says so above its contract. Everything else in
//! this file is proved.
use vstd::prelude::*;
use vstd::string::StringExecFns;

verus! {

/// Outcome of a three-way comparison.
#[derive(Clone, Copy, Debug, PartialEq, Eq, Structural)]
pub enum Ordered {
    Less,
    Equal,
    Greater,
}

impl Ordered {
    /// The outcome with the two sides exchanged.
    pub open spec fn reversed(self) -> Ordered {
        match self {
            Ordered::Less => Ordered::Greater,
            Ordered::Equal => Ordered::Equal,
            Ordered::Greater => Ordered::Less,
        }
    }

    pub fn reverse(self) -> (r: Ordered)
        ensures
            r == self.reversed(),
    {
        match self {
            Ordered::Less => Ordered::Greater,
            Ordered::Equal => Ordered::Equal,
            Ordered::Greater => Ordered::Less,
        }
    }
}

/// Lexicographic order of two texts by character code.
pub open spec fn text_order(a: Seq<char>, b: Seq<char>) -> Ordered
    decreases a.len(),
{
    if a.len() == 0 {
        if b.len() == 0 {
            Ordered::Equal
        } else {
            Ordered::Less
        }
    } else if b.len() == 0 {
        Ordered::Greater
    } else if a[0] < b[0] {
        Ordered::Less
    } else if a[0] > b[0] {
        Ordered::Greater
    } else {
        text_order(a.drop_first(), b.drop_first())
    }
}

/// The characters the standard library treats as white space: what
/// `char::is_whitespace` holds of.
pub uninterp spec fn char_is_whitespace(c: char) -> bool;

/// The upper-case mapping of a whole text: what `str::to_uppercase` gives.
pub uninterp spec fn str_to_uppercase(s: Seq<char>) -> Seq<char>;

/// The lower-case mapping of a whole text: what `str::to_lowercase` gives.
pub uninterp spec fn str_to_lowercase(s: Seq<char>) -> Seq<char>;

/// The upper-case mapping of one character, which may be several characters:
/// what `char::to_uppercase` yields.
pub uninterp spec fn char_to_uppercase(c: char) -> Seq<char>;

/// Number of leading characters of `s` for which `f` holds.
pub open spec fn leading_count(s: Seq<char>, f: spec_fn(char) -> bool) -> nat
    decreases s.len(),
{
    if s.len() > 0 && f(s[0]) {
        1 + leading_count(s.drop_first(), f)
    } else {
        0
    }
}

/// Number of trailing characters of `s` for which `f` holds.
pub open spec fn trailing_count(s: Seq<char>, f: spec_fn(char) -> bool) -> nat
    decreases s.len(),
{
    if s.len() > 0 && f(s.last()) {
        1 + trailing_count(s.drop_last(), f)
    } else {
        0
    }
}

/// `s` without its leading and trailing characters for which `f` holds.
pub open spec fn trim_where(s: Seq<char>, f: spec_fn(char) -> bool) -> Seq<char> {
    let start = leading_count(s, f) as int;
    if start == s.len() {
        Seq::empty()
    } else {
        s.subrange(start, s.len() - trailing_count(s, f))
    }
}

/// What is taken off the ends of a text: white space, or one character.
#[derive(Debug, Clone, Copy, PartialEq, Eq, Structural)]
pub enum Strip {
    WhiteSpace,
    Char(char),
}

/// Whether a character is among what is taken off.
pub open spec fn strips(what: Strip) -> spec_fn(char) -> bool {
    |c: char|
        match what {
            Strip::WhiteSpace => char_is_whitespace(c),
            Strip::Char(x) => c == x,
        }
}

/// `s` without leading and trailing white space.
pub open spec fn trimmed(s: Seq<char>) -> Seq<char> {
    trim_where(s, strips(Strip::WhiteSpace))
}

/// `s` without leading and trailing occurrences of `c`.
pub open spec fn trimmed_of(s: Seq<char>, c: char) -> Seq<char> {
    trim_where(s, strips(Strip::Char(c)))
}

/// ASCII lower-case mapping of one character.
pub open spec fn ascii_lower_char(c: char) -> char {
    if 'A' <= c && c <= 'Z' {
        ((c as u8) + 32) as char
    } else {
        c
    }
}

/// ASCII lower-case mapping of a text.
pub open spec fn ascii_lower(s: Seq<char>) -> Seq<char> {
    s.map_values(|c: char| ascii_lower_char(c))
}

/// Calls `==` on two `str`. Believed: it holds exactly of equal texts.
#[verifier::external_body]
pub(crate) fn str_eq(a: &str, b: &str) -> (r: bool)
    ensures
        r == (a@ == b@),
{
    a == b
}

/// `String::push`. Believed: it appends the character.
pub assume_specification[ String::push ](s: &mut String, c: char)
    ensures
        final(s)@ == old(s)@.push(c),
;

/// Calls `str::to_uppercase`. Believed: the result is the upper-case mapping
/// of the text, which depends on the text alone.
#[verifier::external_body]
pub(crate) fn to_uppercase(s: &str) -> (r: String)
    ensures
        r@ == str_to_uppercase(s@),
{
    s.to_uppercase()
}

/// Calls `str::to_lowercase`. Believed: the result is the lower-case mapping
/// of the text, which depends on the text alone.
#[verifier::external_body]
pub(crate) fn to_lowercase(s: &str) -> (r: String)
    ensures
        r@ == str_to_lowercase(s@),
{
    s.to_lowercase()
}

/// Calls `char::to_uppercase` and collects what it yields. Believed: the
/// result is the upper-case mapping of the character.
#[verifier::external_body]
pub(crate) fn upper_of_char(c: char) -> (r: String)
    ensures
        r@ == char_to_uppercase(c),
{
    c.to_uppercase().collect()
}

/// Calls `char::is_whitespace`. Believed: it tells the white space of the
/// standard library, which depends on the character alone.
#[verifier::external_body]
pub(crate) fn is_whitespace(c: char) -> (r: bool)
    ensures
        r == char_is_whitespace(c),
{
    c.is_whitespace()
}

/// The two texts one after the other.
pub fn concat2(a: &str, b: &str) -> (r: String)
    ensures
        r@ == a@ + b@,
{
    let mut out = a.to_owned();
    out.append(b);
    out
}

/// The three texts one after the other.
pub fn concat3(a: &str, b: &str, c: &str) -> (r: String)
    ensures
        r@ == a@ + b@ + c@,
{
    let mut out = a.to_owned();
    out.append(b);
    out.append(c);
    out
}

/// Order of two texts.
pub fn compare_text(a: &str, b: &str) -> (r: Ordered)
    ensures
        r == text_order(a@, b@),
{
    let x = chars_of(a);
    let y = chars_of(b);
    let mut i: usize = 0;
    assert(a@.skip(0) == a@ && b@.skip(0) == b@);
    while i < x.len() && i < y.len()
        invariant
            i <= x.len(),
            i <= y.len(),
            x@ == a@,
            y@ == b@,
            text_order(a@, b@) == text_order(a@.skip(i as int), b@.skip(i as int)),
        decreases x.len() - i,
    {
        proof {
            let ra = a@.skip(i as int);
            let rb = b@.skip(i as int);
            assert(ra[0] == a@[i as int] && rb[0] == b@[i as int]);
            assert(ra.drop_first() == a@.skip(i as int + 1));
            assert(rb.drop_first() == b@.skip(i as int + 1));
        }
        if x[i] < y[i] {
            return Ordered::Less;
        }
        if x[i] > y[i] {
            return Ordered::Greater;
        }
        i += 1;
    }
    if i < y.len() {
        Ordered::Less
    } else if i < x.len() {
        Ordered::Greater
    } else {
        Ordered::Equal
    }
}

/// Whether two texts are equal but for the case of their ASCII letters.
pub fn eq_ignore_ascii_case(a: &str, b: &str) -> (r: bool)
    ensures
        r == (ascii_lower(a@) == ascii_lower(b@)),
{
    let x = chars_of(a);
    let y = chars_of(b);
    if x.len() != y.len() {
        assert(ascii_lower(a@).len() != ascii_lower(b@).len());
        return false;
    }
    let mut i: usize = 0;
    while i < x.len()
        invariant
            i <= x.len(),
            x.len() == y.len(),
            x@ == a@,
            y@ == b@,
            forall|j: int| 0 <= j < i ==> ascii_lower_char(a@[j]) == ascii_lower_char(b@[j]),
        decreases x.len() - i,
    {
        if lower_char(x[i]) != lower_char(y[i]) {
            assert(ascii_lower(a@)[i as int] != ascii_lower(b@)[i as int]);
            return false;
        }
        i += 1;
    }
    assert(ascii_lower(a@) =~= ascii_lower(b@));
    true
}

/// The ASCII lower-case mapping of a character.
pub fn lower_char(c: char) -> (r: char)
    ensures
        r == ascii_lower_char(c),
{
    if c >= 'A' && c <= 'Z' {
        ((c as u8) + 32) as char
    } else {
        c
    }
}

/// Whether `pat` stands in `chars` at `p`.
pub fn matches_at(chars: &Vec<char>, p: usize, pat: &Vec<char>) -> (r: bool)
    requires
        p <= chars.len(),
    ensures
        r == (p + pat.len() <= chars.len() && chars@.subrange(p as int, p + pat.len()) == pat@),
{
    if pat.len() > chars.len() - p {
        return false;
    }
    let mut i: usize = 0;
    while i < pat.len()
        invariant
            i <= pat.len(),
            p + pat.len() <= chars.len(),
            forall|j: int| 0 <= j < i ==> chars@[p + j] == pat@[j],
        decreases pat.len() - i,
    {
        if chars[p + i] != pat[i] {
            assert(chars@.subrange(p as int, p + pat.len())[i as int] != pat@[i as int]);
            return false;
        }
        i += 1;
    }
    assert(chars@.subrange(p as int, p + pat.len()) =~= pat@);
    true
}

/// Whether `pat` occurs in `s`.
pub fn contains(s: &str, pat: &str) -> (r: bool)
    ensures
        r == occurs_in(s@, pat@),
{
    let chars = chars_of(s);
    let word = chars_of(pat);
    if word.len() == 0 {
        assert(s@.subrange(0int, 0int + pat@.len()) =~= pat@);
        return true;
    }
    if word.len() > chars.len() {
        return false;
    }
    let last = chars.len() - word.len();
    let mut i: usize = 0;
    while i <= last
        invariant
            i <= last + 1,
            last == chars.len() - word.len(),
            0 < word.len() <= chars.len(),
            chars@ == s@,
            word@ == pat@,
            forall|j: int| 0 <= j < i ==> #[trigger] s@.subrange(j, j + pat@.len()) != pat@,
        decreases last + 1 - i,
    {
        if matches_at(&chars, i, &word) {
            return true;
        }
        i += 1;
    }
    false
}

/// `s` with every occurrence of the non-empty text `from` replaced by `to`.
pub fn replace(s: &str, from: &str, to: &str) -> (r: String)
    requires
        from@.len() > 0,
    ensures
        r@ == replaced(s@, from@, to@),
{
    let chars = chars_of(s);
    let word = chars_of(from);
    let n = chars.len();
    let mut out = String::new();
    let mut i: usize = 0;
    assert(s@.skip(0) == s@);
    assert(out@ + replaced(s@, from@, to@) =~= replaced(s@, from@, to@));
    while i < n
        invariant
            i <= n,
            n == chars.len(),
            chars@ == s@,
            word@ == from@,
            word.len() > 0,
            out@ + replaced(s@.skip(i as int), from@, to@) == replaced(s@, from@, to@),
        decreases n - i,
    {
        let ghost rest = s@.skip(i as int);
        let ghost before = out@;
        if matches_at(&chars, i, &word) {
            assert(rest.subrange(0, from@.len() as int) =~= s@.subrange(
                i as int,
                i + from@.len(),
            ));
            assert(rest.skip(from@.len() as int) =~= s@.skip(i + from@.len()));
            out.append(to);
            assert(before + (to@ + replaced(s@.skip(i + from@.len()), from@, to@)) =~= out@
                + replaced(s@.skip(i + from@.len()), from@, to@));
            i += word.len();
        } else {
            proof {
                if rest.len() >= from@.len() {
                    assert(rest.subrange(0, from@.len() as int) =~= s@.subrange(
                        i as int,
                        i + from@.len(),
                    ));
                }
                assert(rest[0] == s@[i as int]);
                assert(rest.drop_first() =~= s@.skip(i as int + 1));
            }
            if n - i < word.len() {
                // what is left is shorter than the pattern and stays as it is
                let tail = text_of(&chars, i, n);
                assert(tail@ =~= rest);
                out.append(tail.as_str());
                assert(s@.skip(n as int).len() == 0);
                assert(out@ + replaced(s@.skip(n as int), from@, to@) =~= before + rest);
                i = n;
            } else {
                out.push(chars[i]);
                assert(before + (seq![s@[i as int]] + replaced(
                    s@.skip(i as int + 1),
                    from@,
                    to@,
                )) =~= out@ + replaced(s@.skip(i as int + 1), from@, to@));
                i += 1;
            }
        }
    }
    assert(s@.skip(n as int).len() == 0);
    assert(out@ + replaced(s@.skip(n as int), from@, to@) =~= out@);
    out
}

/// The number a text denotes, where it denotes one of at most `max`.
pub fn parse_unsigned(s: &str, max: u64) -> (r: Option<u64>)
    ensures
        r is Some <==> is_unsigned_text(s@, max as int),
        r matches Some(n) ==> n == decimal_value(unsigned_digits(s@)),
{
    let chars = chars_of(s);
    let n = chars.len();
    let start: usize = if n > 0 && chars[0] == '+' {
        1
    } else {
        0
    };
    let ghost body = unsigned_digits(s@);
    assert(body == s@.skip(start as int));
    if start == n {
        return None;
    }
    let mut value: u64 = 0;
    let mut i: usize = start;
    assert(body.take(0).len() == 0);
    while i < n
        invariant
            start <= i <= n,
            n == chars.len(),
            chars@ == s@,
            body == s@.skip(start as int),
            body == unsigned_digits(s@),
            forall|j: int| 0 <= j < i - start ==> is_ascii_digit(#[trigger] body[j]),
            value == decimal_value(body.take(i - start)),
            value <= max,
        decreases n - i,
    {
        let c = chars[i];
        assert(body[i - start] == c);
        if !(c >= '0' && c <= '9') {
            assert(!is_ascii_digit(body[i - start]));
            return None;
        }
        let d: u64 = (c as u8 - 48) as u64;
        proof {
            let next = body.take(i - start + 1);
            assert(next.drop_last() =~= body.take(i - start));
            assert(next.last() == c);
            lemma_decimal_value_grows(body, i - start + 1, body.len() as int);
        }
        if d > max || value > (max - d) / 10 {
            assert(value * 10 + d > max);
            assert(body.take(body.len() as int) =~= body);
            return None;
        }
        value = value * 10 + d;
        i += 1;
    }
    assert(body.take(n - start) =~= body);
    Some(value)
}

/// The value of a longer run of digits is not less than that of a shorter
/// one it starts with.
pub proof fn lemma_decimal_value_grows(s: Seq<char>, i: int, j: int)
    requires
        0 <= i <= j <= s.len(),
        forall|k: int| 0 <= k < i ==> is_ascii_digit(#[trigger] s[k]),
    ensures
        decimal_value(s.take(i)) >= 0,
        (forall|k: int| 0 <= k < j ==> is_ascii_digit(#[trigger] s[k])) ==> decimal_value(
            s.take(i),
        ) <= decimal_value(s.take(j)),
    decreases j,
{
    if i > 0 {
        assert(s.take(i).drop_last() =~= s.take(i - 1));
        assert(s.take(i).last() == s[i - 1]);
        lemma_decimal_value_grows(s, i - 1, i - 1);
    } else {
        assert(s.take(0).len() == 0);
    }
    if i < j && (forall|k: int| 0 <= k < j ==> is_ascii_digit(#[trigger] s[k])) {
        assert(s.take(j).drop_last() =~= s.take(j - 1));
        assert(s.take(j).last() == s[j - 1]);
        lemma_decimal_value_grows(s, i, j - 1);
        lemma_decimal_value_grows(s, j - 1, j - 1);
    }
}

/// The number a text denotes, where it fits sixteen bits.
pub fn parse_u16(s: &str) -> (r: Option<u16>)
    ensures
        r is Some <==> is_unsigned_text(s@, 65535),
        r matches Some(n) ==> n == decimal_value(unsigned_digits(s@)),
{
    match parse_unsigned(s, 65535) {
        Some(n) => Some(n as u16),
        None => None,
    }
}

/// The number a text denotes, where it fits thirty-two bits.
pub fn parse_u32(s: &str) -> (r: Option<u32>)
    ensures
        r is Some <==> is_unsigned_text(s@, 4294967295),
        r matches Some(n) ==> n == decimal_value(unsigned_digits(s@)),
{
    match parse_unsigned(s, 4294967295) {
        Some(n) => Some(n as u32),
        None => None,
    }
}

/// Whether `pat` occurs in `s`.
pub open spec fn occurs_in(s: Seq<char>, pat: Seq<char>) -> bool {
    exists|i: int| 0 <= i && i + pat.len() <= s.len() && #[trigger] s.subrange(i, i + pat.len()) == pat
}

/// `s` with every occurrence of the non-empty text `from` replaced by `to`,
/// found from left to right, none overlapping the one before.
pub open spec fn replaced(s: Seq<char>, from: Seq<char>, to: Seq<char>) -> Seq<char>
    decreases s.len(),
{
    if from.len() == 0 || s.len() < from.len() {
        s
    } else if s.subrange(0, from.len() as int) == from {
        to + replaced(s.skip(from.len() as int), from, to)
    } else {
        seq![s[0]] + replaced(s.drop_first(), from, to)
    }
}

/// Index of the first `ch` in `s` from `i` on; the length of `s` where there
/// is none.
pub open spec fn index_from(s: Seq<char>, ch: char, i: int) -> int
    decreases s.len() - i,
{
    if i < 0 || i >= s.len() {
        s.len() as int
    } else if s[i] == ch {
        i
    } else {
        index_from(s, ch, i + 1)
    }
}

/// The pieces of `s` from `start` on that `sep` separates: at least one, and
/// one more for every `sep`.
pub open spec fn split_from(s: Seq<char>, sep: char, start: int) -> Seq<Seq<char>>
    decreases s.len() - start,
{
    if start < 0 || start > s.len() {
        Seq::empty()
    } else {
        let e = index_from(s, sep, start);
        if start <= e < s.len() {
            seq![s.subrange(start, e)] + split_from(s, sep, e + 1)
        } else {
            seq![s.subrange(start, s.len() as int)]
        }
    }
}

/// The pieces of `s` that `sep` separates.
pub open spec fn split_at(s: Seq<char>, sep: char) -> Seq<Seq<char>> {
    split_from(s, sep, 0)
}

/// The first position from `i` on that holds no white space.
pub open spec fn space_end(s: Seq<char>, i: int) -> int
    decreases s.len() - i,
{
    if 0 <= i < s.len() && char_is_whitespace(s[i]) {
        space_end(s, i + 1)
    } else {
        i
    }
}

/// The first position from `i` on that holds white space.
pub open spec fn word_end(s: Seq<char>, i: int) -> int
    decreases s.len() - i,
{
    if 0 <= i < s.len() && !char_is_whitespace(s[i]) {
        word_end(s, i + 1)
    } else {
        i
    }
}

/// The words of `s` from `i` on: the runs of characters between white space.
pub open spec fn words_from(s: Seq<char>, i: int) -> Seq<Seq<char>>
    decreases s.len() - i,
{
    let b = space_end(s, i);
    let e = word_end(s, b);
    if 0 <= i <= b < e <= s.len() {
        seq![s.subrange(b, e)] + words_from(s, e)
    } else {
        Seq::empty()
    }
}

/// The words of `s`.
pub open spec fn words_of(s: Seq<char>) -> Seq<Seq<char>> {
    words_from(s, 0)
}

/// Whether a character is a decimal digit.
pub open spec fn is_ascii_digit(c: char) -> bool {
    '0' <= c && c <= '9'
}

/// Value of a run of decimal digits.
pub open spec fn decimal_value(s: Seq<char>) -> int
    decreases s.len(),
{
    if s.len() == 0 {
        0
    } else {
        decimal_value(s.drop_last()) * 10 + (s.last() as int - '0' as int)
    }
}

/// The digits of an unsigned number text: what follows an optional `+`.
pub open spec fn unsigned_digits(s: Seq<char>) -> Seq<char> {
    if s.len() > 0 && s[0] == '+' {
        s.drop_first()
    } else {
        s
    }
}

/// A text that denotes an unsigned number of at most `max`: an optional `+`,
/// then one or more decimal digits.
pub open spec fn is_unsigned_text(s: Seq<char>, max: int) -> bool {
    let body = unsigned_digits(s);
    &&& body.len() > 0
    &&& forall|i: int| 0 <= i < body.len() ==> is_ascii_digit(#[trigger] body[i])
    &&& decimal_value(body) <= max
}

fn is_stripped(what: Strip, c: char) -> (r: bool)
    ensures
        r == strips(what)(c),
{
    match what {
        Strip::WhiteSpace => is_whitespace(c),
        Strip::Char(x) => c == x,
    }
}

/// A text without what is to be taken off its ends.
pub fn trim_by(s: &str, what: Strip) -> (r: String)
    ensures
        r@ == trim_where(s@, strips(what)),
{
    let chars = chars_of(s);
    let n = chars.len();
    let ghost f = strips(what);
    let mut start: usize = 0;
    assert(s@.skip(0) == s@);
    while start < n && is_stripped(what, chars[start])
        invariant
            start <= n,
            n == chars.len(),
            chars@ == s@,
            f == strips(what),
            leading_count(s@, f) == start + leading_count(s@.skip(start as int), f),
        decreases n - start,
    {
        proof {
            let rest = s@.skip(start as int);
            assert(rest[0] == s@[start as int]);
            assert(rest.drop_first() == s@.skip(start as int + 1));
        }
        start += 1;
    }
    proof {
        let rest = s@.skip(start as int);
        if start < n {
            assert(rest[0] == s@[start as int]);
        }
        assert(leading_count(rest, f) == 0);
    }
    if start == n {
        return String::new();
    }
    let mut end: usize = n;
    assert(s@.take(n as int) == s@);
    while end > start + 1 && is_stripped(what, chars[end - 1])
        invariant
            start < end <= n,
            n == chars.len(),
            chars@ == s@,
            f == strips(what),
            !f(s@[start as int]),
            trailing_count(s@, f) == (n - end) + trailing_count(s@.take(end as int), f),
        decreases end,
    {
        proof {
            let front = s@.take(end as int);
            assert(front.last() == s@[end - 1]);
            assert(front.drop_last() == s@.take(end - 1));
        }
        end -= 1;
    }
    proof {
        let front = s@.take(end as int);
        assert(front.last() == s@[end - 1]);
        assert(trailing_count(front, f) == 0);
    }
    text_of(&chars, start, end)
}

/// A text without leading and trailing white space.
pub fn trim(s: &str) -> (r: String)
    ensures
        r@ == trimmed(s@),
{
    trim_by(s, Strip::WhiteSpace)
}

/// A text without leading and trailing occurrences of `c`.
pub fn trim_char(s: &str, c: char) -> (r: String)
    ensures
        r@ == trimmed_of(s@, c),
{
    trim_by(s, Strip::Char(c))
}

/// The first `ch` from `i` on is at or behind `i`, and within the text or
/// at its end.
pub proof fn lemma_index_from_range(s: Seq<char>, ch: char, i: int)
    requires
        0 <= i <= s.len(),
    ensures
        i <= index_from(s, ch, i) <= s.len(),
        split_from(s, ch, i).len() >= 1,
    decreases s.len() - i,
{
    if i < s.len() && s[i] != ch {
        lemma_index_from_range(s, ch, i + 1);
    }
}

/// Index of the first `ch` in `chars` from `from` on.
pub fn find_char(chars: &Vec<char>, ch: char, from: usize) -> (r: usize)
    requires
        from <= chars.len(),
    ensures
        r == index_from(chars@, ch, from as int),
        from <= r <= chars.len(),
{
    let mut i: usize = from;
    while i < chars.len()
        invariant
            from <= i <= chars.len(),
            index_from(chars@, ch, from as int) == index_from(chars@, ch, i as int),
        decreases chars.len() - i,
    {
        if chars[i] == ch {
            return i;
        }
        i += 1;
    }
    i
}

/// The pieces of a text that `sep` separates.
pub fn split(s: &str, sep: char) -> (r: Vec<String>)
    ensures
        r@.map_values(|t: String| t@) == split_at(s@, sep),
{
    let chars = chars_of(s);
    let n = chars.len();
    let mut out: Vec<String> = Vec::new();
    let mut start: usize = 0;
    let mut more = true;
    let ghost view = |t: String| t@;
    assert(out@.map_values(view) + split_from(s@, sep, 0) =~= split_at(s@, sep));
    while more
        invariant
            start <= n,
            n == chars.len(),
            chars@ == s@,
            view == |t: String| t@,
            more ==> out@.map_values(view) + split_from(s@, sep, start as int) == split_at(s@, sep),
            !more ==> out@.map_values(view) == split_at(s@, sep),
        decreases n - start, (if more { 1int } else { 0int }),
    {
        let ghost before = out@.map_values(view);
        let e = find_char(&chars, sep, start);
        let piece = text_of(&chars, start, e);
        out.push(piece);
        assert(out@.map_values(view) =~= before.push(piece@));
        if e < n {
            assert(before.push(piece@) + split_from(s@, sep, e as int + 1) =~= before + split_from(
                s@,
                sep,
                start as int,
            ));
            start = e + 1;
        } else {
            assert(before.push(piece@) =~= before + split_from(s@, sep, start as int));
            more = false;
        }
    }
    out
}

/// The words of a text: the runs of characters between white space.
pub fn split_words(s: &str) -> (r: Vec<String>)
    ensures
        r@.map_values(|t: String| t@) == words_of(s@),
{
    let chars = chars_of(s);
    let n = chars.len();
    let ghost view = |t: String| t@;
    let mut out: Vec<String> = Vec::new();
    let mut pos: usize = 0;
    let mut more = true;
    assert(out@.map_values(view) + words_from(s@, 0) =~= words_of(s@));
    while more
        invariant
            pos <= n,
            n == chars.len(),
            chars@ == s@,
            view == |t: String| t@,
            more ==> out@.map_values(view) + words_from(s@, pos as int) == words_of(s@),
            !more ==> out@.map_values(view) == words_of(s@),
        decreases n - pos, (if more { 1int } else { 0int }),
    {
        let ghost before = out@.map_values(view);
        let mut b: usize = pos;
        while b < n && is_whitespace(chars[b])
            invariant
                pos <= b <= n,
                n == chars.len(),
                chars@ == s@,
                space_end(s@, pos as int) == space_end(s@, b as int),
            decreases n - b,
        {
            b += 1;
        }
        let mut e: usize = b;
        while e < n && !is_whitespace(chars[e])
            invariant
                b <= e <= n,
                n == chars.len(),
                chars@ == s@,
                word_end(s@, b as int) == word_end(s@, e as int),
            decreases n - e,
        {
            e += 1;
        }
        if b < e {
            let word = text_of(&chars, b, e);
            out.push(word);
            assert(out@.map_values(view) =~= before.push(word@));
            assert(before.push(word@) + words_from(s@, e as int) =~= before + words_from(
                s@,
                pos as int,
            ));
            pos = e;
        } else {
            assert(before + words_from(s@, pos as int) =~= before);
            more = false;
        }
    }
    out
}

/// The characters of a text, in order.
pub fn chars_of(s: &str) -> (r: Vec<char>)
    ensures
        r@ == s@,
{
    let mut out: Vec<char> = Vec::new();
    for c in it: s.chars()
        invariant
            out@ == it.seq().take(it.index() as int),
            it.seq() == s@,
    {
        out.push(c);
    }
    out
}

/// The text made of the characters `v[from..to]`.
pub fn text_of(v: &Vec<char>, from: usize, to: usize) -> (r: String)
    requires
        from <= to <= v.len(),
    ensures
        r@ == v@.subrange(from as int, to as int),
{
    let mut out = String::new();
    let mut i: usize = from;
    while i < to
        invariant
            from <= i <= to <= v.len(),
            out@ == v@.subrange(from as int, i as int),
        decreases to - i,
    {
        out.push(v[i]);
        i += 1;
    }
    out
}

} // verus!

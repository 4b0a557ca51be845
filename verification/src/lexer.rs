//! Scanning: the parts of the language that are found in the text without
//! building anything.
use vstd::prelude::*;
use crate::accessor::{canonical_field_name, field_name};
use crate::ast::BuiltInFunction;
use crate::grammar::{
    cases_end, char_at, digits_end, field_access, field_end_from, function_at, function_name_from,
    function_word, ident_end, identifier_end, is_ident_char, is_line_break, is_space, line_end,
    named_place, number_end, skip_blank, skip_separators, skip_spaces, starts_with,
    starts_with_nocase, string_body_end, string_content, string_end, var_access,
};
use crate::text::{ascii_lower, ascii_lower_char, chars_of, lower_char, matches_at, text_of};

verus! {

pub fn space_at(chars: &Vec<char>, p: usize) -> (r: bool)
    requires
        p < chars.len(),
    ensures
        r == is_space(chars@[p as int]),
{
    chars[p] == ' ' || chars[p] == '\t'
}

pub fn line_break_at(chars: &Vec<char>, p: usize) -> (r: bool)
    requires
        p < chars.len(),
    ensures
        r == is_line_break(chars@[p as int]),
{
    chars[p] == '\n' || chars[p] == '\r'
}

pub fn ident_char_at(chars: &Vec<char>, p: usize) -> (r: bool)
    requires
        p < chars.len(),
    ensures
        r == is_ident_char(chars@[p as int]),
{
    let c = chars[p];
    (c >= 'a' && c <= 'z') || (c >= 'A' && c <= 'Z') || (c >= '0' && c <= '9') || c == '_'
}

pub fn is_char_at(chars: &Vec<char>, p: usize, ch: char) -> (r: bool)
    ensures
        r == char_at(chars@, p as int, ch),
{
    p < chars.len() && chars[p] == ch
}

pub fn scan_spaces(chars: &Vec<char>, p: usize) -> (r: usize)
    requires
        p <= chars.len(),
    ensures
        r == skip_spaces(chars@, p as int),
        p <= r <= chars.len(),
{
    let mut i: usize = p;
    while i < chars.len() && space_at(chars, i)
        invariant
            p <= i <= chars.len(),
            skip_spaces(chars@, p as int) == skip_spaces(chars@, i as int),
        decreases chars.len() - i,
    {
        i += 1;
    }
    i
}

pub fn scan_blank(chars: &Vec<char>, p: usize) -> (r: usize)
    requires
        p <= chars.len(),
    ensures
        r == skip_blank(chars@, p as int),
        p <= r <= chars.len(),
{
    let mut i: usize = p;
    while i < chars.len() && (space_at(chars, i) || line_break_at(chars, i))
        invariant
            p <= i <= chars.len(),
            skip_blank(chars@, p as int) == skip_blank(chars@, i as int),
        decreases chars.len() - i,
    {
        i += 1;
    }
    i
}

pub fn scan_separators(chars: &Vec<char>, p: usize) -> (r: usize)
    requires
        p <= chars.len(),
    ensures
        r == skip_separators(chars@, p as int),
        p <= r <= chars.len(),
{
    let mut i: usize = p;
    while i < chars.len() && (chars[i] == ';' || line_break_at(chars, i) || space_at(chars, i))
        invariant
            p <= i <= chars.len(),
            skip_separators(chars@, p as int) == skip_separators(chars@, i as int),
        decreases chars.len() - i,
    {
        i += 1;
    }
    i
}

pub fn scan_line(chars: &Vec<char>, p: usize) -> (r: usize)
    requires
        p <= chars.len(),
    ensures
        r == line_end(chars@, p as int),
        p <= r <= chars.len(),
{
    let mut i: usize = p;
    while i < chars.len() && !line_break_at(chars, i)
        invariant
            p <= i <= chars.len(),
            line_end(chars@, p as int) == line_end(chars@, i as int),
        decreases chars.len() - i,
    {
        i += 1;
    }
    i
}

pub fn scan_ident(chars: &Vec<char>, p: usize) -> (r: usize)
    requires
        p <= chars.len(),
    ensures
        r == ident_end(chars@, p as int),
        p <= r <= chars.len(),
{
    let mut i: usize = p;
    while i < chars.len() && ident_char_at(chars, i)
        invariant
            p <= i <= chars.len(),
            ident_end(chars@, p as int) == ident_end(chars@, i as int),
        decreases chars.len() - i,
    {
        i += 1;
    }
    i
}

pub fn scan_digits(chars: &Vec<char>, p: usize) -> (r: usize)
    requires
        p <= chars.len(),
    ensures
        r == digits_end(chars@, p as int),
        p <= r <= chars.len(),
{
    let mut i: usize = p;
    while i < chars.len() && chars[i] >= '0' && chars[i] <= '9'
        invariant
            p <= i <= chars.len(),
            digits_end(chars@, p as int) == digits_end(chars@, i as int),
        decreases chars.len() - i,
    {
        i += 1;
    }
    i
}

/// Whether the word `lit` stands at `p`.
pub fn word_at(chars: &Vec<char>, p: usize, lit: &str) -> (r: bool)
    requires
        p <= chars.len(),
    ensures
        r == starts_with(chars@, p as int, lit@),
{
    let word = chars_of(lit);
    matches_at(chars, p, &word)
}

/// Whether the word `lit` stands at `p`, but for ASCII case.
pub fn word_at_nocase(chars: &Vec<char>, p: usize, lit: &str) -> (r: bool)
    requires
        p <= chars.len(),
    ensures
        r == starts_with_nocase(chars@, p as int, lit@),
{
    let word = chars_of(lit);
    if word.len() > chars.len() - p {
        return false;
    }
    let ghost part = chars@.subrange(p as int, p + word.len());
    let mut i: usize = 0;
    while i < word.len()
        invariant
            i <= word.len(),
            p + word.len() <= chars.len(),
            word@ == lit@,
            part == chars@.subrange(p as int, p + word.len()),
            forall|j: int| 0 <= j < i ==> ascii_lower_char(chars@[p + j]) == ascii_lower_char(word@[j]),
        decreases word.len() - i,
    {
        if lower_char(chars[p + i]) != lower_char(word[i]) {
            assert(ascii_lower(part)[i as int] == ascii_lower_char(part[i as int]));
            assert(ascii_lower(word@)[i as int] == ascii_lower_char(word@[i as int]));
            return false;
        }
        i += 1;
    }
    assert(ascii_lower(part) =~= ascii_lower(word@)) by {
        assert forall|j: int| 0 <= j < part.len() implies ascii_lower(part)[j] == ascii_lower(
            word@,
        )[j] by {
            assert(part[j] == chars@[p + j]);
        }
    }
    true
}

/// The end of the identifier at `p`.
pub fn scan_identifier(chars: &Vec<char>, p: usize) -> (r: Option<usize>)
    requires
        p <= chars.len(),
    ensures
        r is Some == identifier_end(chars@, p as int) is Some,
        r matches Some(e) ==> identifier_end(chars@, p as int) == Some(e as int) && p < e
            <= chars.len(),
{
    let e = scan_ident(chars, p);
    if e == p {
        return None;
    }
    if e - p == 4 && word_at(chars, p, "null") {
        proof {
            reveal_strlit("null");
        }
        return None;
    }
    proof {
        reveal_strlit("null");
        if e - p != 4 {
            assert(chars@.subrange(p as int, e as int).len() != "null"@.len());
        }
    }
    Some(e)
}

fn scan_string_body(chars: &Vec<char>, p: usize) -> (r: usize)
    requires
        p <= chars.len(),
    ensures
        r == string_body_end(chars@, p as int),
        p <= r <= chars.len(),
{
    let mut i: usize = p;
    while i < chars.len() && chars[i] != '"'
        invariant
            p <= i <= chars.len(),
            string_body_end(chars@, p as int) == string_body_end(chars@, i as int),
        decreases chars.len() - i,
    {
        if chars[i] == '\\' && i + 1 < chars.len() && (chars[i + 1] == '\\' || chars[i + 1] == '"') {
            i += 2;
        } else {
            i += 1;
        }
    }
    i
}

/// The end of the string literal at `p`.
pub fn scan_string(chars: &Vec<char>, p: usize) -> (r: Option<usize>)
    requires
        p <= chars.len(),
    ensures
        r is Some == string_end(chars@, p as int) is Some,
        r matches Some(e) ==> string_end(chars@, p as int) == Some(e as int) && p + 2 <= e
            <= chars.len(),
{
    if !is_char_at(chars, p, '"') {
        return None;
    }
    let e = scan_string_body(chars, p + 1);
    if e < chars.len() {
        Some(e + 1)
    } else {
        None
    }
}

/// The text between the quotes of the string literal `chars[p..e]`.
pub fn string_text(chars: &Vec<char>, p: usize, e: usize) -> (r: String)
    requires
        p + 2 <= e <= chars.len(),
    ensures
        r@ == string_content(chars@, p as int, e as int),
{
    text_of(chars, p + 1, e - 1)
}

/// The end of the number literal at `p`.
pub fn scan_number(chars: &Vec<char>, p: usize) -> (r: Option<usize>)
    requires
        p <= chars.len(),
    ensures
        r is Some == number_end(chars@, p as int) is Some,
        r matches Some(e) ==> number_end(chars@, p as int) == Some(e as int) && p < e
            <= chars.len(),
{
    let q = if is_char_at(chars, p, '-') {
        p + 1
    } else {
        p
    };
    let e = scan_digits(chars, q);
    if e == q {
        return None;
    }
    if is_char_at(chars, e, '.') {
        let e2 = scan_digits(chars, e + 1);
        if e2 > e + 1 {
            return Some(e2);
        }
    }
    Some(e)
}

fn scan_field_name(chars: &Vec<char>, p: usize) -> (r: Option<usize>)
    requires
        p <= chars.len(),
    ensures
        r is Some == field_end_from(chars@, p as int, 0) is Some,
        r matches Some(e) ==> field_end_from(chars@, p as int, 0) == Some(e as int) && p < e
            <= chars.len(),
{
    let mut k: usize = 0;
    while k < 15
        invariant
            k <= 15,
            p <= chars.len(),
            field_end_from(chars@, p as int, 0) == field_end_from(chars@, p as int, k as int),
        decreases 15 - k,
    {
        let idx: usize = if k == 6 {
            7
        } else if k == 7 {
            6
        } else {
            k
        };
        let name = canonical_field_name(idx);
        if word_at_nocase(chars, p, name) {
            let n = name.unicode_len();
            proof {
                lemma_field_name_len(idx as int);
            }
            return Some(p + n);
        }
        k += 1;
    }
    None
}

/// Every field name has at least two characters.
pub proof fn lemma_field_name_len(i: int)
    ensures
        0 < field_name(i).len() < 100,
{
    reveal_strlit("name");
    reveal_strlit("title");
    reveal_strlit("caption");
    reveal_strlit("group");
    reveal_strlit("id");
    reveal_strlit("chno");
    reveal_strlit("logo");
    reveal_strlit("logo_small");
    reveal_strlit("parent_code");
    reveal_strlit("audio_track");
    reveal_strlit("time_shift");
    reveal_strlit("rec");
    reveal_strlit("url");
    reveal_strlit("epg_channel_id");
    reveal_strlit("epg_id");
}

/// The field access at `p`: the start and the end of the field name.
pub fn scan_field_access(chars: &Vec<char>, p: usize) -> (r: Option<(usize, usize)>)
    requires
        p <= chars.len(),
    ensures
        r is Some == field_access(chars@, p as int) is Some,
        r matches Some((q, e)) ==> field_access(chars@, p as int) == Some((q as int, e as int))
            && p < q < e <= chars.len(),
{
    if !is_char_at(chars, p, '@') {
        return None;
    }
    let q = scan_spaces(chars, p + 1);
    match scan_field_name(chars, q) {
        Some(e) => Some((q, e)),
        None => None,
    }
}

/// The word a built-in function is called by.
pub fn function_keyword(f: BuiltInFunction) -> (r: &'static str)
    ensures
        r@ == function_word(f),
{
    match f {
        BuiltInFunction::Concat => "concat",
        BuiltInFunction::Uppercase => "uppercase",
        BuiltInFunction::Lowercase => "lowercase",
        BuiltInFunction::Capitalize => "capitalize",
        BuiltInFunction::Trim => "trim",
        BuiltInFunction::Print => "print",
        BuiltInFunction::ToNumber => "number",
        BuiltInFunction::First => "first",
        BuiltInFunction::Template => "template",
    }
}

fn function_by_rank(k: usize) -> (r: BuiltInFunction)
    ensures
        r == function_at(k as int),
{
    if k == 0 {
        BuiltInFunction::Concat
    } else if k == 1 {
        BuiltInFunction::Uppercase
    } else if k == 2 {
        BuiltInFunction::Lowercase
    } else if k == 3 {
        BuiltInFunction::Capitalize
    } else if k == 4 {
        BuiltInFunction::Trim
    } else if k == 5 {
        BuiltInFunction::Print
    } else if k == 6 {
        BuiltInFunction::ToNumber
    } else if k == 7 {
        BuiltInFunction::First
    } else {
        BuiltInFunction::Template
    }
}

/// Every function word has at least one character.
pub proof fn lemma_function_word_len(f: BuiltInFunction)
    ensures
        0 < function_word(f).len() < 100,
{
    reveal_strlit("concat");
    reveal_strlit("uppercase");
    reveal_strlit("lowercase");
    reveal_strlit("capitalize");
    reveal_strlit("trim");
    reveal_strlit("print");
    reveal_strlit("number");
    reveal_strlit("first");
    reveal_strlit("template");
}

/// The built-in function whose name stands at `p`, and the end of the name.
pub fn scan_function_name(chars: &Vec<char>, p: usize) -> (r: Option<(BuiltInFunction, usize)>)
    requires
        p <= chars.len(),
    ensures
        r is Some == function_name_from(chars@, p as int, 0) is Some,
        r matches Some((f, e)) ==> function_name_from(chars@, p as int, 0) == Some(f) && e == p
            + function_word(f).len() && p < e <= chars.len(),
{
    let mut k: usize = 0;
    while k < 9
        invariant
            k <= 9,
            p <= chars.len(),
            function_name_from(chars@, p as int, 0) == function_name_from(
                chars@,
                p as int,
                k as int,
            ),
        decreases 9 - k,
    {
        let f = function_by_rank(k);
        let word = function_keyword(f);
        if word_at(chars, p, word) {
            let n = word.unicode_len();
            proof {
                lemma_function_word_len(f);
            }
            return Some((f, p + n));
        }
        k += 1;
    }
    None
}

/// The variable access at `p`: its end, the end of the variable's name, and
/// the span of the entry's name where there is one.
pub fn scan_var_access(chars: &Vec<char>, p: usize) -> (r: Option<(usize, usize, Option<(usize, usize)>)>)
    requires
        p <= chars.len(),
    ensures
        r is Some == var_access(chars@, p as int) is Some,
        r matches Some((e, n, f)) ==> p < n <= e <= chars.len() && (f matches Some((a, b)) ==> n
            <= a < b && b == e) && var_access(chars@, p as int) == Some(
            (
                e as int,
                chars@.subrange(p as int, n as int),
                match f {
                    Some((a, b)) => Some(chars@.subrange(a as int, b as int)),
                    None => None,
                },
            ),
        ),
{
    match scan_identifier(chars, p) {
        Some(e) => {
            let q = scan_spaces(chars, e);
            if is_char_at(chars, q, '.') {
                let r = scan_spaces(chars, q + 1);
                match scan_identifier(chars, r) {
                    Some(e2) => Some((e2, e, Some((r, e2)))),
                    None => Some((e, e, None)),
                }
            } else {
                Some((e, e, None))
            }
        },
        None => None,
    }
}

/// The place at `p`: its end, whether it is a field, and the span of its name.
pub fn scan_named_place(chars: &Vec<char>, p: usize) -> (r: Option<(usize, bool, usize)>)
    requires
        p <= chars.len(),
    ensures
        r is Some == named_place(chars@, p as int) is Some,
        r matches Some((e, is_field, start)) ==> p <= start < e <= chars.len() && p < e
            && named_place(chars@, p as int) == Some(
            (e as int, is_field, chars@.subrange(start as int, e as int)),
        ),
{
    match scan_field_access(chars, p) {
        Some((q, e)) => Some((e, true, q)),
        None => match scan_identifier(chars, p) {
            Some(e) => Some((e, false, p)),
            None => None,
        },
    }
}

/// The end of a block of cases that starts at `p`.
pub fn scan_cases_end(chars: &Vec<char>, p: usize) -> (r: Option<usize>)
    requires
        p <= chars.len(),
    ensures
        r is Some == cases_end(chars@, p as int) is Some,
        r matches Some(e) ==> cases_end(chars@, p as int) == Some(e as int) && p < e
            <= chars.len(),
{
    let q = scan_spaces(chars, p);
    let r = if is_char_at(chars, q, ',') {
        q + 1
    } else {
        q
    };
    let e = scan_blank(chars, r);
    if is_char_at(chars, e, '}') {
        Some(e + 1)
    } else {
        None
    }
}

} // verus!

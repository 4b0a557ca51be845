//! The regular expression engine, as far as the library relies on it.
//!
//! The engine is the `regex` crate. Nothing in this file is proved: what a
//! pattern matches is given a name, and the functions that call the engine are
//! believed to return what the name stands for. All the rest of the library
//! is proved on top of these names.
//!
//! What a pattern text matches is said only of patterns built the plain way,
//! by `regex::Regex::new`: a compiled pattern built with other options keeps
//! the same text and matches otherwise.
use regex::Regex;
use vstd::prelude::*;

verus! {

/// `regex::Regex`, a compiled pattern; nothing inside it is visible.
#[verifier::external_type_specification]
#[verifier::external_body]
pub struct ExRegex(regex::Regex);

/// The pattern text a compiled pattern was built from: what
/// `regex::Regex::as_str` hands back.
pub uninterp spec fn regex_source(re: Regex) -> Seq<char>;

/// Whether a compiled pattern was built the plain way: by `regex::Regex::new`,
/// with the options the engine has by default, or as a copy of such a
/// pattern. Only of such a pattern does the pattern text alone say what it
/// matches; one built with other options matches otherwise.
pub uninterp spec fn regex_plain(re: Regex) -> bool;

/// What can be said of a compiled pattern: the text it was built from, and
/// whether it was built the plain way.
pub ghost struct RegexView {
    pub source: Seq<char>,
    pub plain: bool,
}

/// What a compiled pattern stands for.
pub open spec fn regex_view(re: Regex) -> RegexView {
    RegexView { source: regex_source(re), plain: regex_plain(re) }
}

/// What a pattern text compiled the plain way stands for.
pub open spec fn plain_form(pattern: Seq<char>) -> RegexView {
    RegexView { source: pattern, plain: true }
}

/// A compiled pattern that was built the plain way from the given text.
pub open spec fn built_from(re: Regex, pattern: Seq<char>) -> bool {
    regex_view(re) == plain_form(pattern)
}

/// What `regex::Regex::new` says of a pattern text it does not compile: the
/// text its error is shown as; `None` for a pattern it compiles.
pub uninterp spec fn regex_fault(pattern: Seq<char>) -> Option<Seq<char>>;

/// Whether the engine accepts a pattern text.
pub open spec fn regex_accepts(pattern: Seq<char>) -> bool {
    regex_fault(pattern) is None
}

/// The capture names of a pattern compiled the plain way, one entry per group
/// in the order of their opening parentheses, the group of the whole match
/// first; `None` for a group without name.
pub uninterp spec fn regex_group_names(pattern: Seq<char>) -> Seq<Option<Seq<char>>>;

/// All non-overlapping matches of a pattern compiled the plain way in a text,
/// from left to right, each with the text of every group (the group of the
/// whole match first), `None` for a group that took no part.
pub uninterp spec fn regex_captures(pattern: Seq<char>, text: Seq<char>) -> Seq<
    Seq<Option<Seq<char>>>,
>;

/// A text with every non-overlapping match of a pattern compiled the plain
/// way replaced as the replacement text says.
pub uninterp spec fn regex_replaced(pattern: Seq<char>, text: Seq<char>, with: Seq<char>) -> Seq<
    char,
>;

/// What an optional text stands for.
pub open spec fn opt_text_view(o: Option<String>) -> Option<Seq<char>> {
    match o {
        Some(s) => Some(s@),
        None => None,
    }
}

/// What the groups of one match stand for.
pub open spec fn groups_view(g: Seq<Option<String>>) -> Seq<Option<Seq<char>>> {
    g.map_values(|o: Option<String>| opt_text_view(o))
}

/// What a list of matches stands for.
pub open spec fn captures_view(c: Seq<Vec<Option<String>>>) -> Seq<Seq<Option<Seq<char>>>> {
    c.map_values(|g: Vec<Option<String>>| groups_view(g@))
}

/// Calls `regex::Regex::new` and turns its error into the text the error is
/// shown as. Believed: whether it succeeds, and the text of the error, depend
/// on the pattern text alone; the compiled pattern is built the plain way and
/// remembers the text it was built from.
#[verifier::external_body]
pub(crate) fn compile(pattern: &str) -> (r: Result<Regex, String>)
    ensures
        r matches Ok(re) ==> regex_fault(pattern@) is None && built_from(re, pattern@),
        r matches Err(fault) ==> regex_fault(pattern@) == Some(fault@),
{
    Regex::new(pattern).map_err(|e| e.to_string())
}

/// `Clone` for `regex::Regex`. Believed: the copy is a compiled form of the
/// same pattern text, built the plain way exactly if the pattern it was copied
/// from was.
pub assume_specification[ <Regex as Clone>::clone ](re: &Regex) -> (r: Regex)
    ensures
        regex_source(r) == regex_source(*re),
        regex_plain(r) == regex_plain(*re),
;

/// Calls `regex::Regex::capture_names` and copies the names out. Believed of a
/// pattern built the plain way: the names are those of the pattern text, one
/// entry per group in order.
#[verifier::external_body]
pub(crate) fn capture_names(re: &Regex) -> (r: Vec<Option<String>>)
    requires
        regex_plain(*re),
    ensures
        groups_view(r@) == regex_group_names(regex_source(*re)),
{
    re.capture_names().map(|n| n.map(|s| s.to_string())).collect()
}

/// Calls `regex::Regex::captures_iter`, and for each match `Captures::len` and
/// `Captures::get`, and copies the matched texts out. Believed of a pattern
/// built the plain way: these are the matches of the pattern text in the text,
/// in order, each with every group.
#[verifier::external_body]
pub(crate) fn all_captures(re: &Regex, text: &str) -> (r: Vec<Vec<Option<String>>>)
    requires
        regex_plain(*re),
    ensures
        captures_view(r@) == regex_captures(regex_source(*re), text@),
{
    re.captures_iter(text)
        .map(|caps| (0..caps.len()).map(|i| caps.get(i).map(|m| m.as_str().to_string())).collect())
        .collect()
}

/// Calls `regex::Regex::replace_all` with a text as replacement. Believed of a
/// pattern built the plain way: the result is the text with all
/// non-overlapping matches replaced, and depends on pattern text, text and
/// replacement alone.
#[verifier::external_body]
pub(crate) fn replace_all(re: &Regex, text: &str, with: &str) -> (r: String)
    requires
        regex_plain(*re),
    ensures
        r@ == regex_replaced(regex_source(*re), text@, with@),
{
    re.replace_all(text, with).into_owned()
}

} // verus!

//! The language of scripts: what a source text parses to.
//!
//! Each rule is a function from a position in the text to the position after
//! what it took, or to nothing where it does not apply. Choices are ordered
//! and repetitions take all they can. Spaces and tabs may stand between the
//! parts of a rule, except inside identifiers, numbers and strings.
use vstd::prelude::*;
use crate::accessor::field_name;
use crate::ast::{
    BuiltInFunction, ExprView, MapCaseKeyView, MapCaseView, MapKeyView, MatchCaseView,
    MatchKeyView, SourceView, StatementView, TargetView,
};
use crate::number::parse_units;
use crate::regex_engine::{plain_form, regex_accepts};
use crate::text::ascii_lower;

verus! {

pub open spec fn is_space(c: char) -> bool {
    c == ' ' || c == '\t'
}

pub open spec fn is_line_break(c: char) -> bool {
    c == '\n' || c == '\r'
}

pub open spec fn is_separator(c: char) -> bool {
    c == ';' || is_line_break(c) || is_space(c)
}

pub open spec fn is_ident_char(c: char) -> bool {
    ('a' <= c && c <= 'z') || ('A' <= c && c <= 'Z') || ('0' <= c && c <= '9') || c == '_'
}

pub open spec fn is_digit_char(c: char) -> bool {
    '0' <= c && c <= '9'
}

/// The first position from `p` on that holds no space or tab.
pub open spec fn skip_spaces(s: Seq<char>, p: int) -> int
    decreases s.len() - p,
{
    if 0 <= p < s.len() && is_space(s[p]) {
        skip_spaces(s, p + 1)
    } else {
        p
    }
}

/// The first position from `p` on that holds no space, tab or line break.
pub open spec fn skip_blank(s: Seq<char>, p: int) -> int
    decreases s.len() - p,
{
    if 0 <= p < s.len() && (is_space(s[p]) || is_line_break(s[p])) {
        skip_blank(s, p + 1)
    } else {
        p
    }
}

/// The first position from `p` on that holds no space, tab, line break or `;`.
pub open spec fn skip_separators(s: Seq<char>, p: int) -> int
    decreases s.len() - p,
{
    if 0 <= p < s.len() && is_separator(s[p]) {
        skip_separators(s, p + 1)
    } else {
        p
    }
}

/// The first line break from `p` on, or the end of the text.
pub open spec fn line_end(s: Seq<char>, p: int) -> int
    decreases s.len() - p,
{
    if 0 <= p < s.len() && !is_line_break(s[p]) {
        line_end(s, p + 1)
    } else {
        p
    }
}

/// The end of the run of identifier characters that starts at `p`.
pub open spec fn ident_end(s: Seq<char>, p: int) -> int
    decreases s.len() - p,
{
    if 0 <= p < s.len() && is_ident_char(s[p]) {
        ident_end(s, p + 1)
    } else {
        p
    }
}

/// The end of the run of digits that starts at `p`.
pub open spec fn digits_end(s: Seq<char>, p: int) -> int
    decreases s.len() - p,
{
    if 0 <= p < s.len() && is_digit_char(s[p]) {
        digits_end(s, p + 1)
    } else {
        p
    }
}

/// Whether `lit` stands at `p`.
pub open spec fn starts_with(s: Seq<char>, p: int, lit: Seq<char>) -> bool {
    0 <= p && p + lit.len() <= s.len() && s.subrange(p, p + lit.len()) == lit
}

/// Whether `lit` stands at `p`, but for ASCII case.
pub open spec fn starts_with_nocase(s: Seq<char>, p: int, lit: Seq<char>) -> bool {
    0 <= p && p + lit.len() <= s.len() && ascii_lower(s.subrange(p, p + lit.len())) == ascii_lower(
        lit,
    )
}

/// Whether the character `ch` stands at `p`.
pub open spec fn char_at(s: Seq<char>, p: int, ch: char) -> bool {
    0 <= p < s.len() && s[p] == ch
}

/// An identifier at `p`: a run of letters, digits and `_` that is not the
/// word `null`. Gives the end of the run.
pub open spec fn identifier_end(s: Seq<char>, p: int) -> Option<int> {
    let e = ident_end(s, p);
    if 0 <= p < e <= s.len() && s.subrange(p, e) != "null"@ {
        Some(e)
    } else {
        None
    }
}

/// The position of the quote that closes a string whose body starts at `p`,
/// or the end of the text where none does. A backslash takes the backslash or
/// quote after it along.
pub open spec fn string_body_end(s: Seq<char>, p: int) -> int
    decreases s.len() - p,
{
    if p < 0 || p >= s.len() {
        p
    } else if s[p] == '\\' && p + 1 < s.len() && (s[p + 1] == '\\' || s[p + 1] == '"') {
        string_body_end(s, p + 2)
    } else if s[p] == '"' {
        p
    } else {
        string_body_end(s, p + 1)
    }
}

/// A string literal at `p`: gives the position after the closing quote.
pub open spec fn string_end(s: Seq<char>, p: int) -> Option<int> {
    if char_at(s, p, '"') {
        let e = string_body_end(s, p + 1);
        if p < e < s.len() {
            Some(e + 1)
        } else {
            None
        }
    } else {
        None
    }
}

/// The text between the quotes of the string literal `s[p..e]`.
pub open spec fn string_content(s: Seq<char>, p: int, e: int) -> Seq<char> {
    s.subrange(p + 1, e - 1)
}

/// A number literal at `p`: an optional `-`, digits, and optionally a point
/// followed by digits. Gives the end.
pub open spec fn number_end(s: Seq<char>, p: int) -> Option<int> {
    let q = if char_at(s, p, '-') {
        p + 1
    } else {
        p
    };
    let e = digits_end(s, q);
    if 0 <= p && q < e <= s.len() {
        if char_at(s, e, '.') && e + 1 < digits_end(s, e + 1) <= s.len() {
            Some(digits_end(s, e + 1))
        } else {
            Some(e)
        }
    } else {
        None
    }
}

/// The fields in the order they are tried: a longer name before its prefix.
pub open spec fn field_try_order(k: int) -> int {
    if k == 6 {
        7
    } else if k == 7 {
        6
    } else {
        k
    }
}

/// The end of the first field name from the `k`-th tried on that stands at
/// `p`, but for ASCII case.
pub open spec fn field_end_from(s: Seq<char>, p: int, k: int) -> Option<int>
    decreases 15 - k,
{
    if k < 0 || k >= 15 {
        None
    } else if starts_with_nocase(s, p, field_name(field_try_order(k))) {
        Some(p + field_name(field_try_order(k)).len())
    } else {
        field_end_from(s, p, k + 1)
    }
}

/// A field access at `p`: `@`, then a field name. Gives the start and the end
/// of the name.
pub open spec fn field_access(s: Seq<char>, p: int) -> Option<(int, int)> {
    if char_at(s, p, '@') {
        let q = skip_spaces(s, p + 1);
        match field_end_from(s, q, 0) {
            Some(e) => Some((q, e)),
            None => None,
        }
    } else {
        None
    }
}

/// The name a built-in function is called by.
pub open spec fn function_word(f: BuiltInFunction) -> Seq<char> {
    match f {
        BuiltInFunction::Concat => "concat"@,
        BuiltInFunction::Uppercase => "uppercase"@,
        BuiltInFunction::Lowercase => "lowercase"@,
        BuiltInFunction::Capitalize => "capitalize"@,
        BuiltInFunction::Trim => "trim"@,
        BuiltInFunction::Print => "print"@,
        BuiltInFunction::ToNumber => "number"@,
        BuiltInFunction::First => "first"@,
        BuiltInFunction::Template => "template"@,
    }
}

/// The built-in functions in the order they are tried.
pub open spec fn function_at(k: int) -> BuiltInFunction {
    if k == 0 {
        BuiltInFunction::Concat
    } else if k == 1 {
        BuiltInFunction::Uppercase
    } else if k == 2 {
        BuiltInFunction::Lowercase
    } else if k == 3 {
        BuiltInFunction::Capitalize
    } else if k == 4 {
        BuiltInFunction::Trim
    } else if k == 5 {
        BuiltInFunction::Print
    } else if k == 6 {
        BuiltInFunction::ToNumber
    } else if k == 7 {
        BuiltInFunction::First
    } else {
        BuiltInFunction::Template
    }
}

/// The first built-in function from the `k`-th tried on whose name stands at
/// `p`.
pub open spec fn function_name_from(s: Seq<char>, p: int, k: int) -> Option<BuiltInFunction>
    decreases 9 - k,
{
    if k < 0 || k >= 9 {
        None
    } else if starts_with(s, p, function_word(function_at(k))) {
        Some(function_at(k))
    } else {
        function_name_from(s, p, k + 1)
    }
}

/// What went wrong with a script.
pub ghost enum ScriptErrorView {
    /// The text from this offset on is no statement.
    Syntax(int),
    InvalidNumber(Seq<char>),
    InvalidRegex(Seq<char>),
    /// `_` among several keys of a match case.
    UnexpectedMatchKey,
    UnknownIdentifier(Seq<char>),
    NoArguments(BuiltInFunction),
    TooManyArguments(BuiltInFunction, int),
    DuplicateAnyMatch,
    DuplicateMapAnyMatch,
    DuplicateCase(Seq<char>),
    InvalidRange(int, int),
    MissingExpression(int),
}

/// Where a parse stands: the position in the text, the arena so far, and the
/// first thing found wrong with what was built.
pub ghost struct Cursor {
    pub pos: int,
    pub arena: Seq<ExprView>,
    pub error: Option<ScriptErrorView>,
}

impl Cursor {
    pub open spec fn at(self, pos: int) -> Cursor {
        Cursor { pos, ..self }
    }

    /// The cursor with one more expression in the arena.
    pub open spec fn push(self, e: ExprView) -> Cursor {
        Cursor { arena: self.arena.push(e), ..self }
    }

    /// The cursor with an error noted, unless one was noted before.
    pub open spec fn fail(self, err: ScriptErrorView) -> Cursor {
        if self.error is Some {
            self
        } else {
            Cursor { error: Some(err), ..self }
        }
    }

    /// The cursor after an optional expression was added to the arena, and the
    /// index it got.
    pub open spec fn add(self, e: Option<ExprView>) -> (Cursor, Option<int>) {
        match e {
            Some(x) => (self.push(x), Some(self.arena.len() as int)),
            None => (self, None),
        }
    }
}

/// The number a literal denotes, and the cursor with an error noted where it
/// denotes none.
pub open spec fn number_value(s: Seq<char>, c: Cursor, p: int, e: int) -> (Cursor, int) {
    match parse_units(s.subrange(p, e)) {
        Some(u) => (c, u),
        None => (c.fail(ScriptErrorView::InvalidNumber(s.subrange(p, e))), 0),
    }
}

/// A string literal as an expression.
pub open spec fn p_string(s: Seq<char>, c: Cursor) -> Option<(Cursor, Option<ExprView>)> {
    match string_end(s, c.pos) {
        Some(e) => Some((c.at(e), Some(ExprView::StringLiteral(string_content(s, c.pos, e))))),
        None => None,
    }
}

/// A number literal as an expression.
pub open spec fn p_number(s: Seq<char>, c: Cursor) -> Option<(Cursor, Option<ExprView>)> {
    match number_end(s, c.pos) {
        Some(e) => {
            let (c1, n) = number_value(s, c, c.pos, e);
            Some((c1.at(e), Some(ExprView::NumberLiteral(n))))
        },
        None => None,
    }
}

/// A variable, or one entry of a variable: an identifier, optionally followed
/// by `.` and another. Gives the end and the names.
pub open spec fn var_access(s: Seq<char>, p: int) -> Option<(int, Seq<char>, Option<Seq<char>>)> {
    match identifier_end(s, p) {
        Some(e) => {
            let q = skip_spaces(s, e);
            if char_at(s, q, '.') {
                let r = skip_spaces(s, q + 1);
                match identifier_end(s, r) {
                    Some(e2) => Some((e2, s.subrange(p, e), Some(s.subrange(r, e2)))),
                    None => Some((e, s.subrange(p, e), None)),
                }
            } else {
                Some((e, s.subrange(p, e), None))
            }
        },
        None => None,
    }
}

pub open spec fn p_var_access(s: Seq<char>, c: Cursor) -> Option<(Cursor, Option<ExprView>)> {
    match var_access(s, c.pos) {
        Some((e, name, field)) => Some(
            (
                c.at(e),
                Some(
                    match field {
                        Some(f) => ExprView::VarAccess(name, f),
                        None => ExprView::Identifier(name),
                    },
                ),
            ),
        ),
        None => None,
    }
}

pub open spec fn p_field_access(s: Seq<char>, c: Cursor) -> Option<(Cursor, Option<ExprView>)> {
    match field_access(s, c.pos) {
        Some((q, e)) => Some((c.at(e), Some(ExprView::FieldAccess(s.subrange(q, e))))),
        None => None,
    }
}

pub open spec fn p_null(s: Seq<char>, c: Cursor) -> Option<(Cursor, Option<ExprView>)> {
    if starts_with(s, c.pos, "null"@) {
        Some((c.at(c.pos + 4), Some(ExprView::NullValue)))
    } else {
        None
    }
}

/// What a regular expression or an assignment names: a field or a variable.
/// Gives the end, whether it is a field, and the name.
pub open spec fn named_place(s: Seq<char>, p: int) -> Option<(int, bool, Seq<char>)> {
    match field_access(s, p) {
        Some((q, e)) => Some((e, true, s.subrange(q, e))),
        None => match identifier_end(s, p) {
            Some(e) => Some((e, false, s.subrange(p, e))),
            None => None,
        },
    }
}

/// A regular expression applied to a place: the place, `~`, a string literal.
/// A pattern the engine does not accept is noted as an error.
pub open spec fn p_regex(s: Seq<char>, c: Cursor) -> Option<(Cursor, Option<ExprView>)> {
    match named_place(s, c.pos) {
        Some((e, is_field, name)) => {
            let q = skip_spaces(s, e);
            if char_at(s, q, '~') {
                let r = skip_spaces(s, q + 1);
                match string_end(s, r) {
                    Some(e2) => {
                        let pattern = string_content(s, r, e2);
                        let source = if is_field {
                            SourceView::Field(name)
                        } else {
                            SourceView::Identifier(name)
                        };
                        if regex_accepts(pattern) {
                            Some(
                                (
                                    c.at(e2),
                                    Some(
                                        ExprView::RegexExpr {
                                            source,
                                            pattern,
                                            compiled: plain_form(pattern),
                                        },
                                    ),
                                ),
                            )
                        } else {
                            Some(
                                (
                                    c.at(e2).fail(ScriptErrorView::InvalidRegex(pattern)),
                                    Some(ExprView::NullValue),
                                ),
                            )
                        }
                    },
                    None => None,
                }
            } else {
                None
            }
        },
        None => None,
    }
}

/// One key of a match case: `_`, or an identifier.
pub open spec fn match_key(s: Seq<char>, p: int) -> Option<(int, MatchKeyView)> {
    if char_at(s, p, '_') {
        Some((p + 1, MatchKeyView::AnyMatch))
    } else {
        match identifier_end(s, p) {
            Some(e) => Some((e, MatchKeyView::Identifier(s.subrange(p, e)))),
            None => None,
        }
    }
}

/// The keys of a match case after the first, each after a `,`.
pub open spec fn match_keys_rest(s: Seq<char>, p: int, acc: Seq<MatchKeyView>) -> (
    int,
    Seq<MatchKeyView>,
)
    decreases s.len() - p,
{
    let q = skip_spaces(s, p);
    if char_at(s, q, ',') {
        match match_key(s, skip_spaces(s, q + 1)) {
            Some((e, k)) => if p < e <= s.len() {
                match_keys_rest(s, e, acc.push(k))
            } else {
                (p, acc)
            },
            None => (p, acc),
        }
    } else {
        (p, acc)
    }
}

/// The keys of a match case: one key, or several with `,` between.
pub open spec fn match_keys(s: Seq<char>, p: int) -> Option<(int, Seq<MatchKeyView>)> {
    match match_key(s, p) {
        Some((e, k)) => Some(match_keys_rest(s, e, seq![k])),
        None => None,
    }
}

/// Whether `_` stands among several keys.
pub open spec fn misplaced_any(keys: Seq<MatchKeyView>) -> bool {
    keys.len() > 1 && exists|i: int| 0 <= i < keys.len() && #[trigger] keys[i] is AnyMatch
}

/// The keys of a match case, bare or in parentheses, up to and with `=>`.
/// Gives the position after `=>` and the keys.
pub open spec fn match_case_head(s: Seq<char>, p: int) -> Option<(int, Seq<MatchKeyView>)> {
    let bare = match match_keys(s, p) {
        Some((e, keys)) => {
            let q = skip_spaces(s, e);
            if starts_with(s, q, "=>"@) {
                Some((q + 2, keys))
            } else {
                None
            }
        },
        None => None,
    };
    if bare is Some {
        bare
    } else if char_at(s, p, '(') {
        match match_keys(s, skip_spaces(s, p + 1)) {
            Some((e, keys)) => {
                let q = skip_spaces(s, e);
                if char_at(s, q, ')') {
                    let r = skip_spaces(s, q + 1);
                    if starts_with(s, r, "=>"@) {
                        Some((r + 2, keys))
                    } else {
                        None
                    }
                } else {
                    None
                }
            },
            None => None,
        }
    } else {
        None
    }
}

/// The text keys of a map case after the first, each after a `|`.
pub open spec fn text_keys_rest(s: Seq<char>, p: int, acc: Seq<MapCaseKeyView>) -> (
    int,
    Seq<MapCaseKeyView>,
)
    decreases s.len() - p,
{
    let q = skip_spaces(s, p);
    if char_at(s, q, '|') {
        let r = skip_spaces(s, q + 1);
        match string_end(s, r) {
            Some(e) => if p < e <= s.len() {
                text_keys_rest(s, e, acc.push(MapCaseKeyView::Text(string_content(s, r, e))))
            } else {
                (p, acc)
            },
            None => (p, acc),
        }
    } else {
        (p, acc)
    }
}

/// The keys of a map case: `_`, a range of numbers, or string literals with
/// `|` between. Gives the cursor after the keys and the keys.
pub open spec fn map_case_keys(s: Seq<char>, c: Cursor) -> Option<(Cursor, Seq<MapCaseKeyView>)> {
    let p = c.pos;
    if char_at(s, p, '_') {
        Some((c.at(p + 1), seq![MapCaseKeyView::AnyMatch]))
    } else if number_end(s, p) is Some {
        let e = number_end(s, p).unwrap();
        let (c1, from) = number_value(s, c, p, e);
        let q = skip_spaces(s, e);
        if starts_with(s, q, ".."@) {
            let r = skip_spaces(s, q + 2);
            match number_end(s, r) {
                Some(e2) => {
                    let (c2, to) = number_value(s, c1, r, e2);
                    Some((c2.at(e2), seq![MapCaseKeyView::RangeFull(from, to)]))
                },
                None => Some((c1.at(q + 2), seq![MapCaseKeyView::RangeFrom(from)])),
            }
        } else {
            Some((c1.at(e), seq![MapCaseKeyView::RangeEq(from)]))
        }
    } else if starts_with(s, p, ".."@) {
        let r = skip_spaces(s, p + 2);
        match number_end(s, r) {
            Some(e2) => {
                let (c2, to) = number_value(s, c, r, e2);
                Some((c2.at(e2), seq![MapCaseKeyView::RangeTo(to)]))
            },
            None => None,
        }
    } else {
        match string_end(s, p) {
            Some(e) => {
                let (e2, keys) = text_keys_rest(
                    s,
                    e,
                    seq![MapCaseKeyView::Text(string_content(s, p, e))],
                );
                Some((c.at(e2), keys))
            },
            None => None,
        }
    }
}

/// What a map block dispatches on: a variable, one entry of a variable, or a
/// field. Gives the end and the key.
pub open spec fn map_key(s: Seq<char>, p: int) -> Option<(int, MapKeyView)> {
    match var_access(s, p) {
        Some((e, name, field)) => Some(
            (
                e,
                match field {
                    Some(f) => MapKeyView::VarAccess(name, f),
                    None => MapKeyView::Identifier(name),
                },
            ),
        ),
        None => match field_access(s, p) {
            Some((q, e)) => Some((e, MapKeyView::FieldAccess(s.subrange(q, e)))),
            None => None,
        },
    }
}

/// The end of a block of cases: an optional `,`, line breaks, and `}`. Gives
/// the position after the `}`.
pub open spec fn cases_end(s: Seq<char>, p: int) -> Option<int> {
    let q = skip_spaces(s, p);
    let r = if char_at(s, q, ',') {
        q + 1
    } else {
        q
    };
    let e = skip_blank(s, r);
    if char_at(s, e, '}') {
        Some(e + 1)
    } else {
        None
    }
}

/// An expression at the cursor, where it is strictly behind `from`: the guard
/// that every nested expression starts after the text its parent has taken.
pub open spec fn p_nested(s: Seq<char>, c: Cursor, from: int) -> Option<(Cursor, Option<ExprView>)>
    decreases s.len() - from, 0int, 0int,
{
    if from < c.pos <= s.len() {
        p_expression(s, c)
    } else {
        None
    }
}

/// An assignment: a field or a variable, `=`, and an expression. Where the
/// expression gives nothing, the assignment gives nothing.
pub open spec fn p_assignment(s: Seq<char>, c: Cursor) -> Option<(Cursor, Option<ExprView>)>
    decreases s.len() - c.pos, 1int, 0int,
{
    match named_place(s, c.pos) {
        Some((e, is_field, name)) => {
            let q = skip_spaces(s, e);
            if char_at(s, q, '=') {
                match p_nested(s, c.at(skip_spaces(s, q + 1)), c.pos) {
                    Some((c1, inner)) => {
                        let (c2, id) = c1.add(inner);
                        let target = if is_field {
                            TargetView::Field(name)
                        } else {
                            TargetView::Identifier(name)
                        };
                        Some(
                            (
                                c2,
                                match id {
                                    Some(i) => Some(ExprView::Assignment { target, expr: i }),
                                    None => None,
                                },
                            ),
                        )
                    },
                    None => None,
                }
            } else {
                None
            }
        },
        None => None,
    }
}

/// The arguments of a call after the first, each after a `,`; `acc` holds the
/// indices so far.
pub open spec fn p_args_rest(s: Seq<char>, c: Cursor, from: int, acc: Seq<int>) -> (
    Cursor,
    Seq<int>,
)
    decreases s.len() - from, 0int, s.len() - c.pos,
{
    let q = skip_spaces(s, c.pos);
    if char_at(s, q, ',') && from < c.pos {
        match p_nested(s, c.at(skip_spaces(s, q + 1)), from) {
            Some((c1, e)) => {
                let (c2, id) = c1.add(e);
                if c.pos < c2.pos <= s.len() {
                    p_args_rest(
                        s,
                        c2,
                        from,
                        match id {
                            Some(i) => acc.push(i),
                            None => acc,
                        },
                    )
                } else {
                    (c, acc)
                }
            },
            None => (c, acc),
        }
    } else {
        (c, acc)
    }
}

/// A call of a built-in function: its name, `(`, expressions with `,`
/// between, `)`.
pub open spec fn p_function_call(s: Seq<char>, c: Cursor) -> Option<(Cursor, Option<ExprView>)>
    decreases s.len() - c.pos, 1int, 0int,
{
    match function_name_from(s, c.pos, 0) {
        Some(f) => {
            let q = skip_spaces(s, c.pos + function_word(f).len());
            if char_at(s, q, '(') {
                let start = c.at(skip_spaces(s, q + 1));
                let (c1, args) = match p_nested(s, start, c.pos) {
                    Some((c0, e)) => {
                        let (c01, id) = c0.add(e);
                        p_args_rest(
                            s,
                            c01,
                            c.pos,
                            match id {
                                Some(i) => seq![i],
                                None => Seq::empty(),
                            },
                        )
                    },
                    None => (start, Seq::empty()),
                };
                let r = skip_spaces(s, c1.pos);
                if char_at(s, r, ')') {
                    Some((c1.at(r + 1), Some(ExprView::FunctionCall { name: f, args })))
                } else {
                    None
                }
            } else {
                None
            }
        },
        None => None,
    }
}

/// One case of a match block: its keys, `=>`, and an expression. `_` among
/// several keys is noted as an error; where the expression gives nothing, the
/// case gives nothing.
pub open spec fn p_match_case(s: Seq<char>, c: Cursor, from: int) -> Option<
    (Cursor, Option<MatchCaseView>),
>
    decreases s.len() - from, 0int, 1int,
{
    match match_case_head(s, c.pos) {
        Some((e, keys)) => {
            let c0 = if misplaced_any(keys) {
                c.fail(ScriptErrorView::UnexpectedMatchKey)
            } else {
                c
            };
            match p_nested(s, c0.at(skip_spaces(s, e)), from) {
                Some((c1, inner)) => {
                    let (c2, id) = c1.add(inner);
                    Some(
                        (
                            c2,
                            match id {
                                Some(i) => Some(MatchCaseView { keys, expression: i }),
                                None => None,
                            },
                        ),
                    )
                },
                None => None,
            }
        },
        None => None,
    }
}

/// The cases of a match block after the first, each after a `,`.
pub open spec fn p_match_cases_rest(
    s: Seq<char>,
    c: Cursor,
    from: int,
    acc: Seq<MatchCaseView>,
) -> (Cursor, Seq<MatchCaseView>)
    decreases s.len() - from, 0int, 2 + s.len() - c.pos,
{
    let q = skip_spaces(s, c.pos);
    if char_at(s, q, ',') && from < c.pos {
        match p_match_case(s, c.at(skip_blank(s, q + 1)), from) {
            Some((c1, case)) => if c.pos < c1.pos <= s.len() {
                p_match_cases_rest(
                    s,
                    c1,
                    from,
                    match case {
                        Some(x) => acc.push(x),
                        None => acc,
                    },
                )
            } else {
                (c, acc)
            },
            None => (c, acc),
        }
    } else {
        (c, acc)
    }
}

/// A match block: `match`, `{`, cases with `,` between, `}`. A block without
/// cases gives nothing.
pub open spec fn p_match_block(s: Seq<char>, c: Cursor) -> Option<(Cursor, Option<ExprView>)>
    decreases s.len() - c.pos, 1int, 0int,
{
    if starts_with(s, c.pos, "match"@) {
        let q = skip_spaces(s, c.pos + 5);
        if char_at(s, q, '{') {
            let start = c.at(skip_blank(s, q + 1));
            let (c1, cases) = if c.pos < start.pos {
                match p_match_case(s, start, c.pos) {
                    Some((c0, case)) => p_match_cases_rest(
                        s,
                        c0,
                        c.pos,
                        match case {
                            Some(x) => seq![x],
                            None => Seq::empty(),
                        },
                    ),
                    None => (start, Seq::empty()),
                }
            } else {
                (start, Seq::empty())
            };
            match cases_end(s, c1.pos) {
                Some(e) => Some(
                    (
                        c1.at(e),
                        if cases.len() == 0 {
                            None
                        } else {
                            Some(ExprView::MatchBlock(cases))
                        },
                    ),
                ),
                None => None,
            }
        } else {
            None
        }
    } else {
        None
    }
}

/// One case of a map block: its keys, `=>`, and an expression. Where the
/// expression gives nothing, the case gives nothing.
pub open spec fn p_map_case(s: Seq<char>, c: Cursor, from: int) -> Option<
    (Cursor, Option<MapCaseView>),
>
    decreases s.len() - from, 0int, 1int,
{
    match map_case_keys(s, c) {
        Some((c0, keys)) => {
            let q = skip_spaces(s, c0.pos);
            if starts_with(s, q, "=>"@) {
                match p_nested(s, c0.at(skip_spaces(s, q + 2)), from) {
                    Some((c1, inner)) => {
                        let (c2, id) = c1.add(inner);
                        Some(
                            (
                                c2,
                                match id {
                                    Some(i) => Some(MapCaseView { keys, expression: i }),
                                    None => None,
                                },
                            ),
                        )
                    },
                    None => None,
                }
            } else {
                None
            }
        },
        None => None,
    }
}

/// The cases of a map block after the first, each after a `,`.
pub open spec fn p_map_cases_rest(s: Seq<char>, c: Cursor, from: int, acc: Seq<MapCaseView>) -> (
    Cursor,
    Seq<MapCaseView>,
)
    decreases s.len() - from, 0int, 2 + s.len() - c.pos,
{
    let q = skip_spaces(s, c.pos);
    if char_at(s, q, ',') && from < c.pos {
        match p_map_case(s, c.at(skip_blank(s, q + 1)), from) {
            Some((c1, case)) => if c.pos < c1.pos <= s.len() {
                p_map_cases_rest(
                    s,
                    c1,
                    from,
                    match case {
                        Some(x) => acc.push(x),
                        None => acc,
                    },
                )
            } else {
                (c, acc)
            },
            None => (c, acc),
        }
    } else {
        (c, acc)
    }
}

/// A map block: `map`, what it dispatches on, `{`, cases with `,` between,
/// `}`. A block without cases gives nothing.
pub open spec fn p_map_block(s: Seq<char>, c: Cursor) -> Option<(Cursor, Option<ExprView>)>
    decreases s.len() - c.pos, 1int, 0int,
{
    if starts_with(s, c.pos, "map"@) {
        match map_key(s, skip_spaces(s, c.pos + 3)) {
            Some((e, key)) => {
                let q = skip_spaces(s, e);
                if char_at(s, q, '{') {
                    let start = c.at(skip_blank(s, q + 1));
                    let (c1, cases) = if c.pos < start.pos {
                        match p_map_case(s, start, c.pos) {
                            Some((c0, case)) => p_map_cases_rest(
                                s,
                                c0,
                                c.pos,
                                match case {
                                    Some(x) => seq![x],
                                    None => Seq::empty(),
                                },
                            ),
                            None => (start, Seq::empty()),
                        }
                    } else {
                        (start, Seq::empty())
                    };
                    match cases_end(s, c1.pos) {
                        Some(e2) => Some(
                            (
                                c1.at(e2),
                                if cases.len() == 0 {
                                    None
                                } else {
                                    Some(ExprView::MapBlock { key, cases })
                                },
                            ),
                        ),
                        None => None,
                    }
                } else {
                    None
                }
            },
            None => None,
        }
    } else {
        None
    }
}

/// The statements of a block from the cursor on: separators, then an
/// expression or a comment, as often as that goes; `acc` holds the indices of
/// the expressions so far.
pub open spec fn p_block_items(s: Seq<char>, c: Cursor, from: int, acc: Seq<int>) -> (
    Cursor,
    Seq<int>,
)
    decreases s.len() - from, 0int, 2 + s.len() - c.pos,
{
    let q = skip_separators(s, c.pos);
    if char_at(s, q, '#') {
        let e = line_end(s, q);
        if c.pos < e <= s.len() {
            p_block_items(s, c.at(e), from, acc)
        } else {
            (c, acc)
        }
    } else if c.pos <= s.len() {
        match p_nested(s, c.at(q), from) {
            Some((c1, inner)) => {
                let (c2, id) = c1.add(inner);
                if c.pos < c2.pos <= s.len() {
                    p_block_items(
                        s,
                        c2,
                        from,
                        match id {
                            Some(i) => acc.push(i),
                            None => acc,
                        },
                    )
                } else {
                    (c, acc)
                }
            },
            None => (c, acc),
        }
    } else {
        (c, acc)
    }
}

/// A block: `{`, statements, `}`.
pub open spec fn p_block(s: Seq<char>, c: Cursor) -> Option<(Cursor, Option<ExprView>)>
    decreases s.len() - c.pos, 1int, 0int,
{
    if char_at(s, c.pos, '{') {
        let (c1, ids) = p_block_items(s, c.at(c.pos + 1), c.pos, Seq::empty());
        let e = skip_separators(s, c1.pos);
        if char_at(s, e, '}') {
            Some((c1.at(e + 1), Some(ExprView::Block(ids))))
        } else {
            None
        }
    } else {
        None
    }
}

/// An expression: the first of assignment, map block, match block, function
/// call, regular expression, string, number, variable, field, `null` and
/// block that applies. Gives the cursor after it and the expression; nothing
/// for an expression that was taken but stands for nothing, as a block
/// without cases does.
pub open spec fn p_expression(s: Seq<char>, c: Cursor) -> Option<(Cursor, Option<ExprView>)>
    decreases s.len() - c.pos, 2int, 0int,
{
    if p_assignment(s, c) is Some {
        p_assignment(s, c)
    } else if p_map_block(s, c) is Some {
        p_map_block(s, c)
    } else if p_match_block(s, c) is Some {
        p_match_block(s, c)
    } else if p_function_call(s, c) is Some {
        p_function_call(s, c)
    } else if p_regex(s, c) is Some {
        p_regex(s, c)
    } else if p_string(s, c) is Some {
        p_string(s, c)
    } else if p_number(s, c) is Some {
        p_number(s, c)
    } else if p_var_access(s, c) is Some {
        p_var_access(s, c)
    } else if p_field_access(s, c) is Some {
        p_field_access(s, c)
    } else if p_null(s, c) is Some {
        p_null(s, c)
    } else {
        p_block(s, c)
    }
}

/// One statement at the cursor: separators, then a comment up to the end of
/// its line, or an expression. Gives the cursor after it and the statement;
/// nothing for an expression that stands for nothing.
pub open spec fn p_statement(s: Seq<char>, c: Cursor) -> Option<(Cursor, Option<StatementView>)> {
    let q = skip_separators(s, c.pos);
    if char_at(s, q, '#') {
        Some((c.at(line_end(s, q)), Some(StatementView::Comment)))
    } else if c.pos <= q <= s.len() {
        match p_expression(s, c.at(q)) {
            Some((c1, inner)) => {
                let (c2, id) = c1.add(inner);
                Some(
                    (
                        c2,
                        match id {
                            Some(i) => Some(StatementView::Expression(i)),
                            None => None,
                        },
                    ),
                )
            },
            None => None,
        }
    } else {
        None
    }
}

/// The statements of a script from the cursor on, as many as there are; `acc`
/// holds the statements so far.
pub open spec fn p_statements(s: Seq<char>, c: Cursor, acc: Seq<StatementView>) -> (
    Cursor,
    Seq<StatementView>,
)
    decreases s.len() - c.pos,
{
    match p_statement(s, c) {
        Some((c1, statement)) => if c.pos < c1.pos <= s.len() {
            p_statements(
                s,
                c1,
                match statement {
                    Some(st) => acc.push(st),
                    None => acc,
                },
            )
        } else {
            (c, acc)
        },
        None => (c, acc),
    }
}

/// What a source text parses to: the arena and the statements, or the first
/// error. A text that is not all statements is a syntax error at the offset
/// where the statements end; else the first error noted while building counts.
pub open spec fn parse_source(s: Seq<char>) -> Result<
    (Seq<ExprView>, Seq<StatementView>),
    ScriptErrorView,
> {
    let (c, stmts) = p_statements(
        s,
        Cursor { pos: 0, arena: Seq::empty(), error: None },
        Seq::empty(),
    );
    let e = skip_separators(s, c.pos);
    if e != s.len() {
        Err(ScriptErrorView::Syntax(e))
    } else {
        match c.error {
            Some(err) => Err(err),
            None => Ok((c.arena, stmts)),
        }
    }
}

} // verus!

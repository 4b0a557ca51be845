//! The parser: reads a source text into an arena of expressions and a list of
//! statements, as the grammar says.
use vstd::prelude::*;
use crate::ast::{
    sound,
    arena_ok, arena_view, children, expr_rank, ids_view, lemma_ids_bound_le, map_cases_view,
    map_keys_view, match_cases_view, match_keys_view, statements_ok, statements_view,
    AssignmentTarget, BuiltInFunction, ExprId, ExprView, Expression, MapCase, MapCaseKey,
    MapCaseKeyView, MapKey, MatchCase, MatchCaseKey, RegexSource, Statement, StatementView,
};
use crate::grammar::{
    map_case_keys, map_key, match_case_head, match_key, match_keys, match_keys_rest, number_value,
    p_args_rest, p_assignment, p_block, p_block_items, p_expression, p_field_access,
    p_function_call, p_map_block, p_map_case, p_map_cases_rest, p_match_block, p_match_case,
    p_match_cases_rest, p_nested, p_null, p_number, p_regex, p_statement, p_statements, p_string,
    p_var_access, parse_source, skip_spaces, text_keys_rest, Cursor, ScriptErrorView,
};
use crate::lexer::{
    is_char_at, scan_blank, scan_cases_end, scan_field_access, scan_function_name,
    scan_identifier, scan_line, scan_named_place, scan_number, scan_separators, scan_spaces,
    scan_string, scan_var_access, string_text, word_at,
};
use crate::number::Decimal;
use crate::regex_engine::compile;
use crate::text::{chars_of, text_of};

verus! {

/// What went wrong with a script.
#[derive(Debug)]
pub enum ScriptError {
    /// The text from this offset on is no statement.
    Syntax(usize),
    InvalidNumber(String),
    InvalidRegex(String),
    /// `_` among several keys of a match case.
    UnexpectedMatchKey,
    UnknownIdentifier(String),
    NoArguments(BuiltInFunction),
    TooManyArguments(BuiltInFunction, usize),
    DuplicateAnyMatch,
    DuplicateMapAnyMatch,
    DuplicateCase(String),
    InvalidRange(Decimal, Decimal),
    MissingExpression(usize),
}

impl View for ScriptError {
    type V = ScriptErrorView;

    open spec fn view(&self) -> ScriptErrorView {
        match self {
            ScriptError::Syntax(offset) => ScriptErrorView::Syntax(*offset as int),
            ScriptError::InvalidNumber(text) => ScriptErrorView::InvalidNumber(text@),
            ScriptError::InvalidRegex(pattern) => ScriptErrorView::InvalidRegex(pattern@),
            ScriptError::UnexpectedMatchKey => ScriptErrorView::UnexpectedMatchKey,
            ScriptError::UnknownIdentifier(name) => ScriptErrorView::UnknownIdentifier(name@),
            ScriptError::NoArguments(f) => ScriptErrorView::NoArguments(*f),
            ScriptError::TooManyArguments(f, n) => ScriptErrorView::TooManyArguments(*f, *n as int),
            ScriptError::DuplicateAnyMatch => ScriptErrorView::DuplicateAnyMatch,
            ScriptError::DuplicateMapAnyMatch => ScriptErrorView::DuplicateMapAnyMatch,
            ScriptError::DuplicateCase(key) => ScriptErrorView::DuplicateCase(key@),
            ScriptError::InvalidRange(a, b) => ScriptErrorView::InvalidRange(a@, b@),
            ScriptError::MissingExpression(i) => ScriptErrorView::MissingExpression(*i as int),
        }
    }
}

pub open spec fn error_view(o: Option<ScriptError>) -> Option<ScriptErrorView> {
    match o {
        Some(e) => Some(e@),
        None => None,
    }
}

pub open spec fn expr_opt_view(o: Option<Expression>) -> Option<ExprView> {
    match o {
        Some(e) => Some(e@),
        None => None,
    }
}

/// Adding a sound expression that refers only to what is in the arena keeps
/// the arena well formed.
pub proof fn lemma_push_arena(arena: Seq<Expression>, e: Expression)
    requires
        arena_ok(arena),
        sound(e),
        expr_rank(e@) <= arena.len(),
    ensures
        arena_ok(arena.push(e)),
        arena_view(arena.push(e)) == arena_view(arena).push(e@),
{
    assert(arena_view(arena.push(e)) =~= arena_view(arena).push(e@));
    let next = arena.push(e);
    assert forall|i: int| 0 <= i < next.len() implies expr_rank(#[trigger] arena_view(next)[i])
        <= i by {
        if i < arena.len() {
            assert(arena_view(next)[i] == arena_view(arena)[i]);
        }
    }
    assert forall|i: int| 0 <= i < next.len() implies sound(#[trigger] next[i]) by {
        if i < arena.len() {
            assert(next[i] == arena[i]);
        }
    }
}

struct Parser {
    chars: Vec<char>,
    pos: usize,
    arena: Vec<Expression>,
    error: Option<ScriptError>,
}

impl Parser {
    spec fn cursor(&self) -> Cursor {
        Cursor {
            pos: self.pos as int,
            arena: arena_view(self.arena@),
            error: error_view(self.error),
        }
    }

    spec fn text(&self) -> Seq<char> {
        self.chars@
    }

    spec fn wf(&self) -> bool {
        self.pos <= self.chars.len() && arena_ok(self.arena@)
    }

    spec fn advanced(&self, from: &Parser) -> bool {
        &&& self.chars == from.chars
        &&& from.pos <= self.pos <= self.chars.len()
        &&& from.arena.len() <= self.arena.len()
        &&& self.arena@.take(from.arena.len() as int) == from.arena@
        &&& (from.error is Some ==> self.error == from.error)
        &&& self.wf()
    }

    spec fn same_as(&self, other: &Parser) -> bool {
        &&& self.chars == other.chars
        &&& self.pos == other.pos
        &&& self.arena@ == other.arena@
        &&& self.error == other.error
    }

    /// How the outcome of parsing an expression relates to the grammar.
    spec fn yields(
        &self,
        before: &Parser,
        r: Option<Option<Expression>>,
        expected: Option<(Cursor, Option<ExprView>)>,
    ) -> bool {
        match expected {
            Some((c, v)) => {
                &&& r is Some
                &&& self.cursor() == c
                &&& self.advanced(before)
                &&& before.pos < self.pos
                &&& expr_opt_view(r.unwrap()) == v
                &&& (r.unwrap() matches Some(e) ==> sound(e) && expr_rank(e@) <= self.arena.len())
            },
            None => r is None && self.same_as(before),
        }
    }

    proof fn lemma_advanced_trans(&self, mid: &Parser, from: &Parser)
        requires
            self.advanced(mid),
            mid.advanced(from),
        ensures
            self.advanced(from),
    {
        assert(self.arena@.take(from.arena.len() as int) =~= self.arena@.take(
            mid.arena.len() as int,
        ).take(from.arena.len() as int));
    }

    proof fn lemma_same_advanced(&self, mid: &Parser, from: &Parser)
        requires
            self.same_as(mid),
            mid.advanced(from),
        ensures
            self.advanced(from),
            self.cursor() == mid.cursor(),
    {
    }

    fn push_expr(&mut self, e: Expression) -> (id: ExprId)
        requires
            old(self).wf(),
            sound(e),
            expr_rank(e@) <= old(self).arena.len(),
        ensures
            final(self).cursor() == old(self).cursor().push(e@),
            id@ == old(self).arena.len(),
            final(self).advanced(old(self)),
            final(self).pos == old(self).pos,
            final(self).arena.len() == old(self).arena.len() + 1,
    {
        proof {
            lemma_push_arena(self.arena@, e);
        }
        let id = ExprId(self.arena.len());
        self.arena.push(e);
        assert(self.arena@.take(old(self).arena.len() as int) =~= old(self).arena@);
        id
    }

    fn add(&mut self, e: Option<Expression>) -> (id: Option<ExprId>)
        requires
            old(self).wf(),
            e matches Some(x) ==> sound(x) && expr_rank(x@) <= old(self).arena.len(),
        ensures
            final(self).cursor() == old(self).cursor().add(expr_opt_view(e)).0,
            match id {
                Some(i) => old(self).cursor().add(expr_opt_view(e)).1 == Some(i@) && i@
                    < final(self).arena.len(),
                None => old(self).cursor().add(expr_opt_view(e)).1 is None,
            },
            final(self).advanced(old(self)),
            final(self).pos == old(self).pos,
    {
        match e {
            Some(x) => Some(self.push_expr(x)),
            None => {
                assert(self.arena@.take(self.arena.len() as int) =~= self.arena@);
                None
            },
        }
    }

    fn note(&mut self, err: ScriptError)
        requires
            old(self).wf(),
        ensures
            final(self).cursor() == old(self).cursor().fail(err@),
            final(self).advanced(old(self)),
            final(self).pos == old(self).pos,
            final(self).arena == old(self).arena,
    {
        if self.error.is_none() {
            self.error = Some(err);
        }
        assert(self.arena@.take(self.arena.len() as int) =~= self.arena@);
    }

    fn restore(&mut self, pos: usize, len: usize, had_error: bool, Ghost(at): Ghost<Parser>)
        requires
            old(self).advanced(&at),
            at.wf(),
            pos == at.pos,
            len == at.arena.len(),
            had_error == at.error is Some,
        ensures
            final(self).same_as(&at),
            final(self).wf(),
    {
        self.pos = pos;
        self.arena.truncate(len);
        if !had_error {
            self.error = None;
        }
        assert(self.arena@ =~= at.arena@);
    }

    fn number_literal(&mut self, p: usize, e: usize) -> (r: Decimal)
        requires
            old(self).wf(),
            p <= e <= old(self).chars.len(),
        ensures
            (final(self).cursor(), r@) == number_value(
                old(self).text(),
                old(self).cursor(),
                p as int,
                e as int,
            ),
            final(self).advanced(old(self)),
            final(self).pos == old(self).pos,
            final(self).arena == old(self).arena,
    {
        let text = text_of(&self.chars, p, e);
        match Decimal::parse(text.as_str()) {
            Some(n) => {
                assert(self.arena@.take(self.arena.len() as int) =~= self.arena@);
                n
            },
            None => {
                self.note(ScriptError::InvalidNumber(text));
                Decimal { units: 0 }
            },
        }
    }

    fn parse_string(&mut self) -> (r: Option<Option<Expression>>)
        requires
            old(self).wf(),
        ensures
            final(self).yields(old(self), r, p_string(old(self).text(), old(self).cursor())),
    {
        match scan_string(&self.chars, self.pos) {
            Some(e) => {
                let content = string_text(&self.chars, self.pos, e);
                self.pos = e;
                assert(self.arena@.take(self.arena.len() as int) =~= self.arena@);
                let expr = Expression::StringLiteral(content);
                proof {
                    lemma_ids_bound_le(children(expr@), self.arena.len() as int);
                }
                Some(Some(expr))
            },
            None => None,
        }
    }

    fn parse_number(&mut self) -> (r: Option<Option<Expression>>)
        requires
            old(self).wf(),
        ensures
            final(self).yields(old(self), r, p_number(old(self).text(), old(self).cursor())),
    {
        let start = self.pos;
        match scan_number(&self.chars, start) {
            Some(e) => {
                let n = self.number_literal(start, e);
                self.pos = e;
                let expr = Expression::NumberLiteral(n);
                proof {
                    lemma_ids_bound_le(children(expr@), self.arena.len() as int);
                }
                Some(Some(expr))
            },
            None => None,
        }
    }

    fn parse_var_access(&mut self) -> (r: Option<Option<Expression>>)
        requires
            old(self).wf(),
        ensures
            final(self).yields(old(self), r, p_var_access(old(self).text(), old(self).cursor())),
    {
        let start = self.pos;
        match scan_var_access(&self.chars, start) {
            Some((e, n, field)) => {
                let name = text_of(&self.chars, start, n);
                let expr = match field {
                    Some((a, b)) => Expression::VarAccess(name, text_of(&self.chars, a, b)),
                    None => Expression::Identifier(name),
                };
                self.pos = e;
                assert(self.arena@.take(self.arena.len() as int) =~= self.arena@);
                proof {
                    lemma_ids_bound_le(children(expr@), self.arena.len() as int);
                }
                Some(Some(expr))
            },
            None => None,
        }
    }

    fn parse_field_access(&mut self) -> (r: Option<Option<Expression>>)
        requires
            old(self).wf(),
        ensures
            final(self).yields(old(self), r, p_field_access(old(self).text(), old(self).cursor())),
    {
        match scan_field_access(&self.chars, self.pos) {
            Some((q, e)) => {
                let expr = Expression::FieldAccess(text_of(&self.chars, q, e));
                self.pos = e;
                assert(self.arena@.take(self.arena.len() as int) =~= self.arena@);
                proof {
                    lemma_ids_bound_le(children(expr@), self.arena.len() as int);
                }
                Some(Some(expr))
            },
            None => None,
        }
    }

    fn parse_null(&mut self) -> (r: Option<Option<Expression>>)
        requires
            old(self).wf(),
        ensures
            final(self).yields(old(self), r, p_null(old(self).text(), old(self).cursor())),
    {
        if word_at(&self.chars, self.pos, "null") {
            proof {
                reveal_strlit("null");
            }
            self.pos = self.pos + 4;
            assert(self.arena@.take(self.arena.len() as int) =~= self.arena@);
            let expr = Expression::NullValue;
            proof {
                lemma_ids_bound_le(children(expr@), self.arena.len() as int);
            }
            Some(Some(expr))
        } else {
            None
        }
    }

    fn parse_regex(&mut self) -> (r: Option<Option<Expression>>)
        requires
            old(self).wf(),
        ensures
            final(self).yields(old(self), r, p_regex(old(self).text(), old(self).cursor())),
    {
        let start = self.pos;
        match scan_named_place(&self.chars, start) {
            Some((e, is_field, name_start)) => {
                let q = scan_spaces(&self.chars, e);
                if !is_char_at(&self.chars, q, '~') {
                    return None;
                }
                let r = scan_spaces(&self.chars, q + 1);
                match scan_string(&self.chars, r) {
                    Some(e2) => {
                        let pattern = string_text(&self.chars, r, e2);
                        let name = text_of(&self.chars, name_start, e);
                        let field = if is_field {
                            RegexSource::Field(name)
                        } else {
                            RegexSource::Identifier(name)
                        };
                        self.pos = e2;
                        match compile(pattern.as_str()) {
                            Ok(re) => {
                                assert(self.arena@.take(self.arena.len() as int) =~= self.arena@);
                                let expr = Expression::RegexExpr { field, pattern, re_pattern: re };
                                proof {
                                    lemma_ids_bound_le(children(expr@), self.arena.len() as int);
                                }
                                Some(Some(expr))
                            },
                            Err(_) => {
                                self.note(ScriptError::InvalidRegex(pattern));
                                let expr = Expression::NullValue;
                                proof {
                                    lemma_ids_bound_le(children(expr@), self.arena.len() as int);
                                }
                                Some(Some(expr))
                            },
                        }
                    },
                    None => None,
                }
            },
            None => None,
        }
    }

    /// An assignment: a field or a variable, `=`, and an expression.
    fn parse_assignment(&mut self) -> (r: Option<Option<Expression>>)
        requires
            old(self).wf(),
        ensures
            final(self).yields(old(self), r, p_assignment(old(self).text(), old(self).cursor())),
        decreases old(self).chars.len() - old(self).pos, 1int, 0int,
    {
        let start = self.pos;
        let ghost at = *self;
        match scan_named_place(&self.chars, start) {
            Some((e, is_field, name_start)) => {
                let q = scan_spaces(&self.chars, e);
                if !is_char_at(&self.chars, q, '=') {
                    return None;
                }
                self.pos = scan_spaces(&self.chars, q + 1);
                assert(self.arena@.take(self.arena.len() as int) =~= self.arena@);
                let ghost mid = *self;
                match self.parse_expression() {
                    Some(inner) => {
                        let ghost got = *self;
                        let id = self.add(inner);
                        proof {
                            got.lemma_advanced_trans(&mid, &at);
                            self.lemma_advanced_trans(&got, &at);
                        }
                        let name = text_of(&self.chars, name_start, e);
                        let target = if is_field {
                            AssignmentTarget::Field(name)
                        } else {
                            AssignmentTarget::Identifier(name)
                        };
                        match id {
                            Some(i) => {
                                let expr = Expression::Assignment { target, expr: i };
                                proof {
                                    lemma_ids_bound_le(children(expr@), self.arena.len() as int);
                                }
                                Some(Some(expr))
                            },
                            None => Some(None),
                        }
                    },
                    None => {
                        self.pos = start;
                        None
                    },
                }
            },
            None => None,
        }
    }

    /// A call of a built-in function.
    fn parse_function_call(&mut self) -> (r: Option<Option<Expression>>)
        requires
            old(self).wf(),
        ensures
            final(self).yields(
                old(self),
                r,
                p_function_call(old(self).text(), old(self).cursor()),
            ),
        decreases old(self).chars.len() - old(self).pos, 1int, 0int,
    {
        let start = self.pos;
        let len0 = self.arena.len();
        let had_error = self.error.is_some();
        let ghost at = *self;
        let ghost s = self.chars@;
        match scan_function_name(&self.chars, start) {
            Some((f, e)) => {
                let q = scan_spaces(&self.chars, e);
                if !is_char_at(&self.chars, q, '(') {
                    return None;
                }
                self.pos = scan_spaces(&self.chars, q + 1);
                assert(self.arena@.take(self.arena.len() as int) =~= self.arena@);
                let ghost first = *self;
                let mut args: Vec<ExprId> = Vec::new();
                let mut more = false;
                match self.parse_expression() {
                    Some(inner) => {
                        let ghost got = *self;
                        let id = self.add(inner);
                        proof {
                            got.lemma_advanced_trans(&first, &at);
                            self.lemma_advanced_trans(&got, &at);
                        }
                        match id {
                            Some(i) => {
                                args.push(i);
                                assert(ids_view(args@) =~= seq![i@]);
                            },
                            None => {
                                assert(ids_view(args@) =~= Seq::<int>::empty());
                            },
                        }
                        more = true;
                    },
                    None => {
                        assert(ids_view(args@) =~= Seq::<int>::empty());
                    },
                }
                let ghost target = if more {
                    p_args_rest(s, self.cursor(), start as int, ids_view(args@))
                } else {
                    (self.cursor(), ids_view(args@))
                };
                while more
                    invariant
                        self.advanced(&at),
                        at.wf(),
                        at == *old(self),
                        at.chars@ == s,
                        start == at.pos,
                        more ==> start < self.pos,
                        forall|j: int| 0 <= j < args.len() ==> (#[trigger] args@[j])@ < self.arena.len(),
                        more ==> p_args_rest(s, self.cursor(), start as int, ids_view(args@))
                            == target,
                        !more ==> (self.cursor(), ids_view(args@)) == target,
                    decreases self.chars.len() - self.pos, (if more { 1int } else { 0int }),
                {
                    let save = self.pos;
                    let ghost here = *self;
                    let ghost acc = ids_view(args@);
                    let ghost c = self.cursor();
                    let q2 = scan_spaces(&self.chars, save);
                    if is_char_at(&self.chars, q2, ',') {
                        self.pos = scan_spaces(&self.chars, q2 + 1);
                        assert(self.arena@.take(self.arena.len() as int) =~= self.arena@);
                        let ghost mid = *self;
                        assert(mid.cursor() == c.at(skip_spaces(s, q2 + 1)));
                        match self.parse_expression() {
                            Some(inner) => {
                                let ghost got = *self;
                                let id = self.add(inner);
                                proof {
                                    got.lemma_advanced_trans(&mid, &here);
                                    self.lemma_advanced_trans(&got, &here);
                                    self.lemma_advanced_trans(&here, &at);
                                    assert(p_nested(s, mid.cursor(), start as int) == p_expression(
                                        s,
                                        mid.cursor(),
                                    ));
                                }
                                match id {
                                    Some(i) => {
                                        args.push(i);
                                        assert(ids_view(args@) =~= acc.push(i@));
                                    },
                                    None => {},
                                }
                            },
                            None => {
                                proof {
                                    assert(p_nested(s, mid.cursor(), start as int) == p_expression(
                                        s,
                                        mid.cursor(),
                                    ));
                                    assert(p_args_rest(s, c, start as int, acc) == (c, acc));
                                }
                                self.pos = save;
                                more = false;
                            },
                        }
                    } else {
                        assert(p_args_rest(s, c, start as int, acc) == (c, acc));
                        more = false;
                    }
                }
                let r = scan_spaces(&self.chars, self.pos);
                if is_char_at(&self.chars, r, ')') {
                    self.pos = r + 1;
                    let expr = Expression::FunctionCall { name: f, args };
                    proof {
                        lemma_ids_bound_le(children(expr@), self.arena.len() as int);
                    }
                    Some(Some(expr))
                } else {
                    self.restore(start, len0, had_error, Ghost(at));
                    None
                }
            },
            None => None,
        }
    }

    /// One key of a match case.
    fn parse_match_case_key(&self, p: usize) -> (r: Option<(usize, MatchCaseKey)>)
        requires
            p <= self.chars.len(),
        ensures
            match match_key(self.text(), p as int) {
                Some((e, k)) => r matches Some((e1, k1)) && e1 == e && k1@ == k && p < e1
                    <= self.chars.len(),
                None => r is None,
            },
    {
        if is_char_at(&self.chars, p, '_') {
            Some((p + 1, MatchCaseKey::AnyMatch))
        } else {
            match scan_identifier(&self.chars, p) {
                Some(e) => Some((e, MatchCaseKey::Identifier(text_of(&self.chars, p, e)))),
                None => None,
            }
        }
    }

    /// The keys of a match case.
    fn parse_match_keys(&self, p: usize) -> (r: Option<(usize, Vec<MatchCaseKey>)>)
        requires
            p <= self.chars.len(),
        ensures
            match match_keys(self.text(), p as int) {
                Some((e, keys)) => r matches Some((e1, k1)) && e1 == e && match_keys_view(k1@)
                    == keys && p < e1 <= self.chars.len(),
                None => r is None,
            },
    {
        let ghost s = self.chars@;
        match self.parse_match_case_key(p) {
            Some((e, k)) => {
                let mut keys: Vec<MatchCaseKey> = Vec::new();
                keys.push(k);
                assert(match_keys_view(keys@) =~= seq![k@]);
                let mut pos = e;
                let mut more = true;
                let ghost target = match_keys_rest(s, e as int, seq![k@]);
                while more
                    invariant
                        s == self.chars@,
                        p < pos <= self.chars.len(),
                        more ==> match_keys_rest(s, pos as int, match_keys_view(keys@)) == target,
                        !more ==> (pos as int, match_keys_view(keys@)) == target,
                    decreases self.chars.len() - pos, (if more { 1int } else { 0int }),
                {
                    let ghost acc = match_keys_view(keys@);
                    let q = scan_spaces(&self.chars, pos);
                    if is_char_at(&self.chars, q, ',') {
                        match self.parse_match_case_key(scan_spaces(&self.chars, q + 1)) {
                            Some((e2, k2)) => {
                                keys.push(k2);
                                assert(match_keys_view(keys@) =~= acc.push(k2@));
                                pos = e2;
                            },
                            None => {
                                more = false;
                            },
                        }
                    } else {
                        more = false;
                    }
                }
                Some((pos, keys))
            },
            None => None,
        }
    }

    /// The keys of a match case, bare or in parentheses, with the `=>`.
    fn parse_match_case_head(&self, p: usize) -> (r: Option<(usize, Vec<MatchCaseKey>)>)
        requires
            p <= self.chars.len(),
        ensures
            match match_case_head(self.text(), p as int) {
                Some((e, keys)) => r matches Some((e1, k1)) && e1 == e && match_keys_view(k1@)
                    == keys && p < e1 <= self.chars.len(),
                None => r is None,
            },
    {
        proof {
            reveal_strlit("=>");
        }
        match self.parse_match_keys(p) {
            Some((e, keys)) => {
                let q = scan_spaces(&self.chars, e);
                if word_at(&self.chars, q, "=>") {
                    return Some((q + 2, keys));
                }
            },
            None => {},
        }
        if is_char_at(&self.chars, p, '(') {
            match self.parse_match_keys(scan_spaces(&self.chars, p + 1)) {
                Some((e, keys)) => {
                    let q = scan_spaces(&self.chars, e);
                    if is_char_at(&self.chars, q, ')') {
                        let r = scan_spaces(&self.chars, q + 1);
                        if word_at(&self.chars, r, "=>") {
                            Some((r + 2, keys))
                        } else {
                            None
                        }
                    } else {
                        None
                    }
                },
                None => None,
            }
        } else {
            None
        }
    }

    /// One case of a match block.
    fn parse_match_case(&mut self, Ghost(from): Ghost<int>) -> (r: Option<Option<MatchCase>>)
        requires
            old(self).wf(),
            from < old(self).pos,
        ensures
            match p_match_case(old(self).text(), old(self).cursor(), from) {
                Some((c, v)) => {
                    &&& r is Some
                    &&& final(self).cursor() == c
                    &&& final(self).advanced(old(self))
                    &&& old(self).pos < final(self).pos
                    &&& match v {
                        Some(case) => r.unwrap() is Some && r.unwrap().unwrap()@ == case
                            && case.expression < final(self).arena.len(),
                        None => r.unwrap() is None,
                    }
                },
                None => r is None && final(self).same_as(old(self)),
            },
        decreases old(self).chars.len() - from, 0int, 1int,
    {
        let start = self.pos;
        let len0 = self.arena.len();
        let had_error = self.error.is_some();
        let ghost at = *self;
        match self.parse_match_case_head(start) {
            Some((e, keys)) => {
                if keys.len() > 1 && has_any_match(&keys) {
                    self.note(ScriptError::UnexpectedMatchKey);
                } else {
                    assert(self.arena@.take(self.arena.len() as int) =~= self.arena@);
                }
                self.pos = scan_spaces(&self.chars, e);
                let ghost mid = *self;
                match self.parse_expression() {
                    Some(inner) => {
                        let ghost got = *self;
                        let id = self.add(inner);
                        proof {
                            got.lemma_advanced_trans(&mid, &at);
                            self.lemma_advanced_trans(&got, &at);
                        }
                        match id {
                            Some(i) => Some(Some(MatchCase { keys, expression: i })),
                            None => Some(None),
                        }
                    },
                    None => {
                        proof {
                            self.lemma_same_advanced(&mid, &at);
                        }
                        self.restore(start, len0, had_error, Ghost(at));
                        None
                    },
                }
            },
            None => None,
        }
    }

    /// A match block.
    fn parse_match_block(&mut self) -> (r: Option<Option<Expression>>)
        requires
            old(self).wf(),
        ensures
            final(self).yields(old(self), r, p_match_block(old(self).text(), old(self).cursor())),
        decreases old(self).chars.len() - old(self).pos, 1int, 0int,
    {
        let start = self.pos;
        let len0 = self.arena.len();
        let had_error = self.error.is_some();
        let ghost at = *self;
        let ghost s = self.chars@;
        proof {
            reveal_strlit("match");
        }
        if !word_at(&self.chars, start, "match") {
            return None;
        }
        let q = scan_spaces(&self.chars, start + 5);
        if !is_char_at(&self.chars, q, '{') {
            return None;
        }
        self.pos = scan_blank(&self.chars, q + 1);
        assert(self.arena@.take(self.arena.len() as int) =~= self.arena@);
        let ghost first = *self;
        let mut cases: Vec<MatchCase> = Vec::new();
        let mut more = false;
        match self.parse_match_case(Ghost(start as int)) {
            Some(case) => {
                proof {
                    self.lemma_advanced_trans(&first, &at);
                }
                match case {
                    Some(x) => {
                        cases.push(x);
                        assert(match_cases_view(cases@) =~= seq![x@]);
                    },
                    None => {
                        assert(match_cases_view(cases@) =~= Seq::empty());
                    },
                }
                more = true;
            },
            None => {
                assert(match_cases_view(cases@) =~= Seq::empty());
            },
        }
        let ghost target = if more {
            p_match_cases_rest(s, self.cursor(), start as int, match_cases_view(cases@))
        } else {
            (self.cursor(), match_cases_view(cases@))
        };
        while more
            invariant
                self.advanced(&at),
                at.wf(),
                at == *old(self),
                at.chars@ == s,
                start == at.pos,
                more ==> start < self.pos,
                forall|j: int|
                    0 <= j < cases.len() ==> (#[trigger] cases@[j]).expression@ < self.arena.len(),
                more ==> p_match_cases_rest(
                    s,
                    self.cursor(),
                    start as int,
                    match_cases_view(cases@),
                ) == target,
                !more ==> (self.cursor(), match_cases_view(cases@)) == target,
            decreases self.chars.len() - self.pos, (if more { 1int } else { 0int }),
        {
            let save = self.pos;
            let ghost here = *self;
            let ghost acc = match_cases_view(cases@);
            let ghost c = self.cursor();
            let q2 = scan_spaces(&self.chars, save);
            if is_char_at(&self.chars, q2, ',') {
                self.pos = scan_blank(&self.chars, q2 + 1);
                assert(self.arena@.take(self.arena.len() as int) =~= self.arena@);
                let ghost mid = *self;
                match self.parse_match_case(Ghost(start as int)) {
                    Some(case) => {
                        proof {
                            self.lemma_advanced_trans(&mid, &here);
                            self.lemma_advanced_trans(&here, &at);
                        }
                        match case {
                            Some(x) => {
                                cases.push(x);
                                assert(match_cases_view(cases@) =~= acc.push(x@));
                            },
                            None => {},
                        }
                    },
                    None => {
                        assert(p_match_cases_rest(s, c, start as int, acc) == (c, acc));
                        self.pos = save;
                        more = false;
                    },
                }
            } else {
                assert(p_match_cases_rest(s, c, start as int, acc) == (c, acc));
                more = false;
            }
        }
        match scan_cases_end(&self.chars, self.pos) {
            Some(e) => {
                self.pos = e;
                if cases.len() == 0 {
                    Some(None)
                } else {
                    let expr = Expression::MatchBlock(cases);
                    proof {
                        assert forall|j: int| 0 <= j < children(expr@).len() implies #[trigger] children(
                            expr@,
                        )[j] < self.arena.len() by {
                            assert(children(expr@)[j] == cases@[j].expression@);
                        }
                        lemma_ids_bound_le(children(expr@), self.arena.len() as int);
                    }
                    Some(Some(expr))
                }
            },
            None => {
                self.restore(start, len0, had_error, Ghost(at));
                None
            },
        }
    }

    /// The keys of a map case.
    fn parse_map_case_key(&mut self) -> (r: Option<Vec<MapCaseKey>>)
        requires
            old(self).wf(),
        ensures
            match map_case_keys(old(self).text(), old(self).cursor()) {
                Some((c, keys)) => {
                    &&& r matches Some(k) && map_keys_view(k@) == keys
                    &&& final(self).cursor() == c
                    &&& final(self).advanced(old(self))
                    &&& old(self).pos < final(self).pos
                    &&& final(self).arena == old(self).arena
                },
                None => r is None && final(self).same_as(old(self)),
            },
    {
        let start = self.pos;
        let ghost s = self.chars@;
        proof {
            reveal_strlit("..");
        }
        assert(self.arena@.take(self.arena.len() as int) =~= self.arena@);
        if is_char_at(&self.chars, start, '_') {
            self.pos = start + 1;
            let mut keys: Vec<MapCaseKey> = Vec::new();
            keys.push(MapCaseKey::AnyMatch);
            assert(map_keys_view(keys@) =~= seq![MapCaseKeyView::AnyMatch]);
            return Some(keys);
        }
        match scan_number(&self.chars, start) {
            Some(e) => {
                let from = self.number_literal(start, e);
                let q = scan_spaces(&self.chars, e);
                let mut keys: Vec<MapCaseKey> = Vec::new();
                if word_at(&self.chars, q, "..") {
                    let r = scan_spaces(&self.chars, q + 2);
                    match scan_number(&self.chars, r) {
                        Some(e2) => {
                            let ghost one = *self;
                            let to = self.number_literal(r, e2);
                            proof {
                                self.lemma_advanced_trans(&one, old(self));
                            }
                            self.pos = e2;
                            keys.push(MapCaseKey::RangeFull(from, to));
                            assert(map_keys_view(keys@) =~= seq![
                                MapCaseKeyView::RangeFull(from@, to@),
                            ]);
                        },
                        None => {
                            self.pos = q + 2;
                            keys.push(MapCaseKey::RangeFrom(from));
                            assert(map_keys_view(keys@) =~= seq![MapCaseKeyView::RangeFrom(from@)]);
                        },
                    }
                } else {
                    self.pos = e;
                    keys.push(MapCaseKey::RangeEq(from));
                    assert(map_keys_view(keys@) =~= seq![MapCaseKeyView::RangeEq(from@)]);
                }
                return Some(keys);
            },
            None => {},
        }
        if word_at(&self.chars, start, "..") {
            let r = scan_spaces(&self.chars, start + 2);
            return match scan_number(&self.chars, r) {
                Some(e2) => {
                    let to = self.number_literal(r, e2);
                    self.pos = e2;
                    let mut keys: Vec<MapCaseKey> = Vec::new();
                    keys.push(MapCaseKey::RangeTo(to));
                    assert(map_keys_view(keys@) =~= seq![MapCaseKeyView::RangeTo(to@)]);
                    Some(keys)
                },
                None => None,
            };
        }
        match scan_string(&self.chars, start) {
            Some(e) => {
                let mut keys: Vec<MapCaseKey> = Vec::new();
                let first = MapCaseKey::Text(string_text(&self.chars, start, e));
                keys.push(first);
                assert(map_keys_view(keys@) =~= seq![first@]);
                let mut pos = e;
                let mut more = true;
                let ghost target = text_keys_rest(s, e as int, seq![first@]);
                while more
                    invariant
                        s == self.chars@,
                        start < pos <= self.chars.len(),
                        more ==> text_keys_rest(s, pos as int, map_keys_view(keys@)) == target,
                        !more ==> (pos as int, map_keys_view(keys@)) == target,
                    decreases self.chars.len() - pos, (if more { 1int } else { 0int }),
                {
                    let ghost acc = map_keys_view(keys@);
                    let q = scan_spaces(&self.chars, pos);
                    if is_char_at(&self.chars, q, '|') {
                        let r = scan_spaces(&self.chars, q + 1);
                        match scan_string(&self.chars, r) {
                            Some(e2) => {
                                let k = MapCaseKey::Text(string_text(&self.chars, r, e2));
                                keys.push(k);
                                assert(map_keys_view(keys@) =~= acc.push(k@));
                                pos = e2;
                            },
                            None => {
                                more = false;
                            },
                        }
                    } else {
                        more = false;
                    }
                }
                self.pos = pos;
                Some(keys)
            },
            None => None,
        }
    }

    /// One case of a map block.
    fn parse_map_case(&mut self, Ghost(from): Ghost<int>) -> (r: Option<Option<MapCase>>)
        requires
            old(self).wf(),
            from < old(self).pos,
        ensures
            match p_map_case(old(self).text(), old(self).cursor(), from) {
                Some((c, v)) => {
                    &&& r is Some
                    &&& final(self).cursor() == c
                    &&& final(self).advanced(old(self))
                    &&& old(self).pos < final(self).pos
                    &&& match v {
                        Some(case) => r.unwrap() is Some && r.unwrap().unwrap()@ == case
                            && case.expression < final(self).arena.len(),
                        None => r.unwrap() is None,
                    }
                },
                None => r is None && final(self).same_as(old(self)),
            },
        decreases old(self).chars.len() - from, 0int, 1int,
    {
        let start = self.pos;
        let len0 = self.arena.len();
        let had_error = self.error.is_some();
        let ghost at = *self;
        proof {
            reveal_strlit("=>");
        }
        match self.parse_map_case_key() {
            Some(keys) => {
                let q = scan_spaces(&self.chars, self.pos);
                if !word_at(&self.chars, q, "=>") {
                    self.restore(start, len0, had_error, Ghost(at));
                    return None;
                }
                self.pos = scan_spaces(&self.chars, q + 2);
                let ghost mid = *self;
                match self.parse_expression() {
                    Some(inner) => {
                        let ghost got = *self;
                        let id = self.add(inner);
                        proof {
                            got.lemma_advanced_trans(&mid, &at);
                            self.lemma_advanced_trans(&got, &at);
                        }
                        match id {
                            Some(i) => Some(Some(MapCase { keys, expression: i })),
                            None => Some(None),
                        }
                    },
                    None => {
                        proof {
                            self.lemma_same_advanced(&mid, &at);
                        }
                        self.restore(start, len0, had_error, Ghost(at));
                        None
                    },
                }
            },
            None => None,
        }
    }

    /// What a map block dispatches on.
    fn parse_map_key(&self, p: usize) -> (r: Option<(usize, MapKey)>)
        requires
            p <= self.chars.len(),
        ensures
            match map_key(self.text(), p as int) {
                Some((e, k)) => r matches Some((e1, k1)) && e1 == e && k1@ == k && p < e1
                    <= self.chars.len(),
                None => r is None,
            },
    {
        match scan_var_access(&self.chars, p) {
            Some((e, n, field)) => {
                let name = text_of(&self.chars, p, n);
                Some(
                    (
                        e,
                        match field {
                            Some((a, b)) => MapKey::VarAccess(name, text_of(&self.chars, a, b)),
                            None => MapKey::Identifier(name),
                        },
                    ),
                )
            },
            None => match scan_field_access(&self.chars, p) {
                Some((q, e)) => Some((e, MapKey::FieldAccess(text_of(&self.chars, q, e)))),
                None => None,
            },
        }
    }

    /// A map block.
    fn parse_map_block(&mut self) -> (r: Option<Option<Expression>>)
        requires
            old(self).wf(),
        ensures
            final(self).yields(old(self), r, p_map_block(old(self).text(), old(self).cursor())),
        decreases old(self).chars.len() - old(self).pos, 1int, 0int,
    {
        let start = self.pos;
        let len0 = self.arena.len();
        let had_error = self.error.is_some();
        let ghost at = *self;
        let ghost s = self.chars@;
        proof {
            reveal_strlit("map");
        }
        if !word_at(&self.chars, start, "map") {
            return None;
        }
        let key = match self.parse_map_key(scan_spaces(&self.chars, start + 3)) {
            Some((e, key)) => {
                let q = scan_spaces(&self.chars, e);
                if !is_char_at(&self.chars, q, '{') {
                    return None;
                }
                self.pos = scan_blank(&self.chars, q + 1);
                key
            },
            None => {
                return None;
            },
        };
        assert(self.arena@.take(self.arena.len() as int) =~= self.arena@);
        let ghost first = *self;
        let mut cases: Vec<MapCase> = Vec::new();
        let mut more = false;
        match self.parse_map_case(Ghost(start as int)) {
            Some(case) => {
                proof {
                    self.lemma_advanced_trans(&first, &at);
                }
                match case {
                    Some(x) => {
                        cases.push(x);
                        assert(map_cases_view(cases@) =~= seq![x@]);
                    },
                    None => {
                        assert(map_cases_view(cases@) =~= Seq::empty());
                    },
                }
                more = true;
            },
            None => {
                assert(map_cases_view(cases@) =~= Seq::empty());
            },
        }
        let ghost target = if more {
            p_map_cases_rest(s, self.cursor(), start as int, map_cases_view(cases@))
        } else {
            (self.cursor(), map_cases_view(cases@))
        };
        while more
            invariant
                self.advanced(&at),
                at.wf(),
                at == *old(self),
                at.chars@ == s,
                start == at.pos,
                more ==> start < self.pos,
                forall|j: int|
                    0 <= j < cases.len() ==> (#[trigger] cases@[j]).expression@ < self.arena.len(),
                more ==> p_map_cases_rest(s, self.cursor(), start as int, map_cases_view(cases@))
                    == target,
                !more ==> (self.cursor(), map_cases_view(cases@)) == target,
            decreases self.chars.len() - self.pos, (if more { 1int } else { 0int }),
        {
            let save = self.pos;
            let ghost here = *self;
            let ghost acc = map_cases_view(cases@);
            let ghost c = self.cursor();
            let q2 = scan_spaces(&self.chars, save);
            if is_char_at(&self.chars, q2, ',') {
                self.pos = scan_blank(&self.chars, q2 + 1);
                assert(self.arena@.take(self.arena.len() as int) =~= self.arena@);
                let ghost mid = *self;
                match self.parse_map_case(Ghost(start as int)) {
                    Some(case) => {
                        proof {
                            self.lemma_advanced_trans(&mid, &here);
                            self.lemma_advanced_trans(&here, &at);
                        }
                        match case {
                            Some(x) => {
                                cases.push(x);
                                assert(map_cases_view(cases@) =~= acc.push(x@));
                            },
                            None => {},
                        }
                    },
                    None => {
                        assert(p_map_cases_rest(s, c, start as int, acc) == (c, acc));
                        self.pos = save;
                        more = false;
                    },
                }
            } else {
                assert(p_map_cases_rest(s, c, start as int, acc) == (c, acc));
                more = false;
            }
        }
        match scan_cases_end(&self.chars, self.pos) {
            Some(e) => {
                self.pos = e;
                if cases.len() == 0 {
                    Some(None)
                } else {
                    let expr = Expression::MapBlock { key, cases };
                    proof {
                        assert forall|j: int| 0 <= j < children(expr@).len() implies #[trigger] children(
                            expr@,
                        )[j] < self.arena.len() by {
                            assert(children(expr@)[j] == cases@[j].expression@);
                        }
                        lemma_ids_bound_le(children(expr@), self.arena.len() as int);
                    }
                    Some(Some(expr))
                }
            },
            None => {
                self.restore(start, len0, had_error, Ghost(at));
                None
            },
        }
    }

    /// A block: `{`, statements, `}`.
    fn parse_block(&mut self) -> (r: Option<Option<Expression>>)
        requires
            old(self).wf(),
        ensures
            final(self).yields(old(self), r, p_block(old(self).text(), old(self).cursor())),
        decreases old(self).chars.len() - old(self).pos, 1int, 0int,
    {
        let start = self.pos;
        let len0 = self.arena.len();
        let had_error = self.error.is_some();
        let ghost at = *self;
        let ghost s = self.chars@;
        if !is_char_at(&self.chars, start, '{') {
            return None;
        }
        self.pos = start + 1;
        assert(self.arena@.take(self.arena.len() as int) =~= self.arena@);
        let mut ids: Vec<ExprId> = Vec::new();
        assert(ids_view(ids@) =~= Seq::<int>::empty());
        let mut more = true;
        let ghost target = p_block_items(s, self.cursor(), start as int, Seq::empty());
        while more
            invariant
                self.advanced(&at),
                at.wf(),
                at == *old(self),
                at.chars@ == s,
                start == at.pos,
                start < self.pos,
                forall|j: int| 0 <= j < ids.len() ==> (#[trigger] ids@[j])@ < self.arena.len(),
                more ==> p_block_items(s, self.cursor(), start as int, ids_view(ids@)) == target,
                !more ==> (self.cursor(), ids_view(ids@)) == target,
            decreases self.chars.len() - self.pos, (if more { 1int } else { 0int }),
        {
            let save = self.pos;
            let ghost here = *self;
            let ghost acc = ids_view(ids@);
            let ghost c = self.cursor();
            let q = scan_separators(&self.chars, save);
            if is_char_at(&self.chars, q, '#') {
                self.pos = scan_line(&self.chars, q + 1);
                assert(self.arena@.take(self.arena.len() as int) =~= self.arena@);
                assert(crate::grammar::line_end(s, q as int) == crate::grammar::line_end(
                    s,
                    q as int + 1,
                ));
                assert(self.cursor() == c.at(crate::grammar::line_end(s, q as int)));
            } else {
                self.pos = q;
                assert(self.arena@.take(self.arena.len() as int) =~= self.arena@);
                let ghost mid = *self;
                assert(mid.cursor() == c.at(q as int));
                assert(p_nested(s, mid.cursor(), start as int) == p_expression(s, mid.cursor()));
                match self.parse_expression() {
                    Some(inner) => {
                        let ghost got = *self;
                        let id = self.add(inner);
                        proof {
                            got.lemma_advanced_trans(&mid, &here);
                            self.lemma_advanced_trans(&got, &here);
                            self.lemma_advanced_trans(&here, &at);
                        }
                        match id {
                            Some(i) => {
                                ids.push(i);
                                assert(ids_view(ids@) =~= acc.push(i@));
                            },
                            None => {},
                        }
                    },
                    None => {
                        assert(p_block_items(s, c, start as int, acc) == (c, acc));
                        self.pos = save;
                        more = false;
                    },
                }
            }
        }
        let e = scan_separators(&self.chars, self.pos);
        if is_char_at(&self.chars, e, '}') {
            self.pos = e + 1;
            let expr = Expression::Block(ids);
            proof {
                lemma_ids_bound_le(children(expr@), self.arena.len() as int);
            }
            Some(Some(expr))
        } else {
            self.restore(start, len0, had_error, Ghost(at));
            None
        }
    }

    /// One statement: separators, then a comment or an expression.
    fn parse_statement(&mut self) -> (r: Option<Option<Statement>>)
        requires
            old(self).wf(),
        ensures
            match p_statement(old(self).text(), old(self).cursor()) {
                Some((c, v)) => {
                    &&& r is Some
                    &&& final(self).cursor() == c
                    &&& final(self).advanced(old(self))
                    &&& old(self).pos < final(self).pos
                    &&& match v {
                        Some(st) => r.unwrap() is Some && r.unwrap().unwrap()@ == st,
                        None => r.unwrap() is None,
                    }
                    &&& (r.unwrap() matches Some(Statement::Expression(id)) ==> id@
                        < final(self).arena.len())
                },
                None => r is None && final(self).same_as(old(self)),
            },
    {
        let save = self.pos;
        let ghost at = *self;
        let ghost s = self.chars@;
        let q = scan_separators(&self.chars, save);
        assert(self.arena@.take(self.arena.len() as int) =~= self.arena@);
        if is_char_at(&self.chars, q, '#') {
            self.pos = scan_line(&self.chars, q + 1);
            assert(crate::grammar::line_end(s, q as int) == crate::grammar::line_end(
                s,
                q as int + 1,
            ));
            return Some(Some(Statement::Comment));
        }
        self.pos = q;
        let ghost mid = *self;
        match self.parse_expression() {
            Some(inner) => {
                let ghost got = *self;
                let id = self.add(inner);
                proof {
                    got.lemma_advanced_trans(&mid, &at);
                    self.lemma_advanced_trans(&got, &at);
                }
                match id {
                    Some(i) => Some(Some(Statement::Expression(i))),
                    None => Some(None),
                }
            },
            None => {
                self.pos = save;
                None
            },
        }
    }

    /// An expression: the first alternative of the grammar that applies.
    fn parse_expression(&mut self) -> (r: Option<Option<Expression>>)
        requires
            old(self).wf(),
        ensures
            final(self).yields(old(self), r, p_expression(old(self).text(), old(self).cursor())),
        decreases old(self).chars.len() - old(self).pos, 2int, 0int,
    {
        match self.parse_assignment() {
            Some(e) => {
                return Some(e);
            },
            None => {},
        }
        match self.parse_map_block() {
            Some(e) => {
                return Some(e);
            },
            None => {},
        }
        match self.parse_match_block() {
            Some(e) => {
                return Some(e);
            },
            None => {},
        }
        match self.parse_function_call() {
            Some(e) => {
                return Some(e);
            },
            None => {},
        }
        match self.parse_regex() {
            Some(e) => {
                return Some(e);
            },
            None => {},
        }
        match self.parse_string() {
            Some(e) => {
                return Some(e);
            },
            None => {},
        }
        match self.parse_number() {
            Some(e) => {
                return Some(e);
            },
            None => {},
        }
        match self.parse_var_access() {
            Some(e) => {
                return Some(e);
            },
            None => {},
        }
        match self.parse_field_access() {
            Some(e) => {
                return Some(e);
            },
            None => {},
        }
        match self.parse_null() {
            Some(e) => {
                return Some(e);
            },
            None => {},
        }
        self.parse_block()
    }
}

/// What parsing a source text gives, as the grammar says: the arena and the
/// statements, or the first error.
pub fn parse_text(input: &str) -> (r: Result<(Vec<Expression>, Vec<Statement>), ScriptError>)
    ensures
        match parse_source(input@) {
            Ok((arena, stmts)) => r matches Ok((a, st)) && arena_view(a@) == arena
                && statements_view(st@) == stmts && arena_ok(a@) && statements_ok(
                stmts,
                arena.len() as int,
            ),
            Err(e) => r matches Err(x) && x@ == e,
        },
{
    let chars = chars_of(input);
    let ghost s = input@;
    let mut parser = Parser { chars, pos: 0, arena: Vec::new(), error: None };
    assert(arena_view(parser.arena@) =~= Seq::<ExprView>::empty());
    let mut statements: Vec<Statement> = Vec::new();
    assert(statements_view(statements@) =~= Seq::<StatementView>::empty());
    let ghost c0 = parser.cursor();
    let ghost target = p_statements(s, c0, Seq::empty());
    let mut more = true;
    while more
        invariant
            parser.wf(),
            parser.chars@ == s,
            statements_ok(statements_view(statements@), parser.arena.len() as int),
            more ==> p_statements(s, parser.cursor(), statements_view(statements@)) == target,
            !more ==> (parser.cursor(), statements_view(statements@)) == target,
        decreases parser.chars.len() - parser.pos, (if more { 1int } else { 0int }),
    {
        let ghost acc = statements_view(statements@);
        match parser.parse_statement() {
            Some(statement) => {
                match statement {
                    Some(st) => {
                        statements.push(st);
                        assert(statements_view(statements@) =~= acc.push(st@));
                    },
                    None => {},
                }
            },
            None => {
                more = false;
            },
        }
    }
    let e = scan_separators(&parser.chars, parser.pos);
    if e != parser.chars.len() {
        return Err(ScriptError::Syntax(e));
    }
    match parser.error {
        Some(err) => Err(err),
        None => Ok((parser.arena, statements)),
    }
}

fn has_any_match(keys: &Vec<MatchCaseKey>) -> (r: bool)
    ensures
        r == exists|i: int| 0 <= i < keys.len() && #[trigger] match_keys_view(keys@)[i] is AnyMatch,
{
    let mut i: usize = 0;
    while i < keys.len()
        invariant
            i <= keys.len(),
            forall|j: int| 0 <= j < i ==> !(#[trigger] match_keys_view(keys@)[j] is AnyMatch),
        decreases keys.len() - i,
    {
        assert(match_keys_view(keys@)[i as int] == keys@[i as int]@);
        match &keys[i] {
            MatchCaseKey::AnyMatch => {
                return true;
            },
            _ => {},
        }
        i += 1;
    }
    false
}

} // verus!

//! Validation: what a script has to satisfy before it is run.
//!
//! One pass over the statements in order, with the identifiers defined so far:
//! every identifier is assigned before it is read, every call has arguments,
//! and the cases of match and map blocks do not repeat one another.
use vstd::prelude::*;
use crate::api_proxy::contains_text;
use crate::ast::{
    children, expr_rank, ids_bound, ids_view, lemma_ids_bound, lemma_ids_bound_nonneg,
    map_case_ids, map_cases_view, map_keys_view, match_case_ids, match_cases_view, match_keys_view,
    AssignmentTarget, BuiltInFunction, ExprId, ExprView, Expression, MapCase, MapCaseKey,
    MapCaseKeyView, MapCaseView, MapKey, MapKeyView, MatchCase, MatchCaseKey, MatchCaseView,
    MatchKeyView, RegexSource, SourceView, StatementView, TargetView,
};
use crate::eval::MapperContext;
use crate::grammar::ScriptErrorView;
use crate::parser::ScriptError;
use crate::text::str_eq;
use crate::value::texts_view;
use vstd::string::StringExecFns;

verus! {

/// Where validation stopped: the first fault, and the identifiers defined by
/// then.
pub type Stopped = (ScriptErrorView, Seq<Seq<char>>);

/// The outcome of validating something: the identifiers defined afterwards, or
/// where it stopped.
pub type Checked = Result<Seq<Seq<char>>, Stopped>;

/// The identifiers with one more defined.
pub open spec fn define(idents: Seq<Seq<char>>, name: Seq<char>) -> Seq<Seq<char>> {
    if idents.contains(name) {
        idents
    } else {
        idents.push(name)
    }
}

/// An identifier that is read has to be defined.
pub open spec fn check_defined(idents: Seq<Seq<char>>, name: Seq<char>) -> Checked {
    if idents.contains(name) {
        Ok(idents)
    } else {
        Err((ScriptErrorView::UnknownIdentifier(name), idents))
    }
}

/// Whether a function takes exactly one argument.
pub open spec fn takes_one(f: BuiltInFunction) -> bool {
    f == BuiltInFunction::ToNumber || f == BuiltInFunction::Template || f == BuiltInFunction::First
}

/// The fault in the number of arguments of a call, if any.
pub open spec fn arity_fault(f: BuiltInFunction, count: int) -> Option<ScriptErrorView> {
    if count == 0 {
        Some(ScriptErrorView::NoArguments(f))
    } else if takes_one(f) && count > 1 {
        Some(ScriptErrorView::TooManyArguments(f, count))
    } else {
        None
    }
}

/// The text the keys of a match case are known by: each key, or `_`, followed
/// by `", "`.
pub open spec fn case_key_text(keys: Seq<MatchKeyView>) -> Seq<char>
    decreases keys.len(),
{
    if keys.len() == 0 {
        Seq::empty()
    } else {
        case_key_text(keys.drop_last()) + match keys.last() {
            MatchKeyView::Identifier(name) => name + ", "@,
            MatchKeyView::AnyMatch => "_, "@,
        }
    }
}

/// The first fault among the keys of a match case from `i` on: an identifier
/// that is not defined, or a second `_`.
pub open spec fn match_keys_fault(
    keys: Seq<MatchKeyView>,
    i: int,
    idents: Seq<Seq<char>>,
    any_seen: bool,
) -> Option<ScriptErrorView>
    decreases keys.len() - i,
{
    if i < 0 || i >= keys.len() {
        None
    } else {
        match keys[i] {
            MatchKeyView::Identifier(name) => if idents.contains(name) {
                match_keys_fault(keys, i + 1, idents, any_seen)
            } else {
                Some(ScriptErrorView::UnknownIdentifier(name))
            },
            MatchKeyView::AnyMatch => if any_seen {
                Some(ScriptErrorView::DuplicateAnyMatch)
            } else {
                match_keys_fault(keys, i + 1, idents, true)
            },
        }
    }
}

/// What a pass over the keys of map cases has seen: the texts, and whether `_`.
pub ghost struct MapSeen {
    pub texts: Seq<Seq<char>>,
    pub any: bool,
}

/// The keys of a map case from `i` on, checked: a text seen before, a range
/// that ends before it starts and a second `_` are faults.
pub open spec fn map_keys_check(keys: Seq<MapCaseKeyView>, i: int, seen: MapSeen) -> Result<
    MapSeen,
    ScriptErrorView,
>
    decreases keys.len() - i,
{
    if i < 0 || i >= keys.len() {
        Ok(seen)
    } else {
        match keys[i] {
            MapCaseKeyView::Text(t) => if seen.texts.contains(t) {
                Err(ScriptErrorView::DuplicateCase(t))
            } else {
                map_keys_check(keys, i + 1, MapSeen { texts: seen.texts.push(t), any: seen.any })
            },
            MapCaseKeyView::RangeFull(a, b) => if a > b {
                Err(ScriptErrorView::InvalidRange(a, b))
            } else {
                map_keys_check(keys, i + 1, seen)
            },
            MapCaseKeyView::AnyMatch => if seen.any {
                Err(ScriptErrorView::DuplicateMapAnyMatch)
            } else {
                map_keys_check(keys, i + 1, MapSeen { texts: seen.texts, any: true })
            },
            _ => map_keys_check(keys, i + 1, seen),
        }
    }
}

/// The expression at `id`, validated.
pub open spec fn validate_id(arena: Seq<ExprView>, id: int, idents: Seq<Seq<char>>) -> Checked
    decreases id, 5int, 0int,
{
    if 0 <= id < arena.len() && 0 <= expr_rank(arena[id]) <= id {
        validate_expr(arena, arena[id], idents)
    } else {
        Err((ScriptErrorView::MissingExpression(id), idents))
    }
}

/// The child at `id` of an expression of rank `bound`, validated.
pub open spec fn validate_child(
    arena: Seq<ExprView>,
    id: int,
    bound: int,
    idents: Seq<Seq<char>>,
) -> Checked
    decreases bound, 2int, 0int,
{
    if 0 <= id < bound {
        validate_id(arena, id, idents)
    } else {
        Err((ScriptErrorView::MissingExpression(id), idents))
    }
}

/// The expressions `ids[i..]`, validated in order.
pub open spec fn validate_all_from(
    arena: Seq<ExprView>,
    ids: Seq<int>,
    i: int,
    bound: int,
    idents: Seq<Seq<char>>,
) -> Checked
    decreases bound, 3int, ids.len() - i,
{
    if i < 0 || i >= ids.len() {
        Ok(idents)
    } else {
        match validate_child(arena, ids[i], bound, idents) {
            Ok(next) => validate_all_from(arena, ids, i + 1, bound, next),
            Err(e) => Err(e),
        }
    }
}

/// Whether a case before the one at `i` has the same keys in the same order.
pub open spec fn keys_repeated(cases: Seq<MatchCaseView>, i: int) -> bool {
    exists|j: int| 0 <= j < i && (#[trigger] cases[j]).keys == cases[i].keys
}

/// The cases of a match block from `i` on, validated in order.
pub open spec fn validate_match_from(
    arena: Seq<ExprView>,
    cases: Seq<MatchCaseView>,
    i: int,
    bound: int,
    idents: Seq<Seq<char>>,
) -> Checked
    decreases bound, 3int, cases.len() - i,
{
    if i < 0 || i >= cases.len() {
        Ok(idents)
    } else {
        match match_keys_fault(cases[i].keys, 0, idents, false) {
            Some(e) => Err((e, idents)),
            None => if keys_repeated(cases, i) {
                Err((ScriptErrorView::DuplicateCase(case_key_text(cases[i].keys)), idents))
            } else {
                match validate_child(arena, cases[i].expression, bound, idents) {
                    Ok(next) => validate_match_from(arena, cases, i + 1, bound, next),
                    Err(e) => Err(e),
                }
            },
        }
    }
}

/// The cases of a map block from `i` on, validated in order.
pub open spec fn validate_map_from(
    arena: Seq<ExprView>,
    cases: Seq<MapCaseView>,
    i: int,
    bound: int,
    idents: Seq<Seq<char>>,
    seen: MapSeen,
) -> Checked
    decreases bound, 3int, cases.len() - i,
{
    if i < 0 || i >= cases.len() {
        Ok(idents)
    } else {
        match map_keys_check(cases[i].keys, 0, seen) {
            Err(e) => Err((e, idents)),
            Ok(seen1) => match validate_child(arena, cases[i].expression, bound, idents) {
                Ok(next) => validate_map_from(arena, cases, i + 1, bound, next, seen1),
                Err(e) => Err(e),
            },
        }
    }
}

/// The identifier a map block dispatches on has to be defined.
pub open spec fn map_key_check(key: MapKeyView, idents: Seq<Seq<char>>) -> Checked {
    match key {
        MapKeyView::Identifier(name) => check_defined(idents, name),
        MapKeyView::VarAccess(name, _) => check_defined(idents, name),
        MapKeyView::FieldAccess(_) => Ok(idents),
    }
}

/// An expression validated against the identifiers defined so far.
pub open spec fn validate_expr(arena: Seq<ExprView>, e: ExprView, idents: Seq<Seq<char>>) -> Checked
    decreases expr_rank(e), 4int, 0int,
{
    let bound = expr_rank(e);
    match e {
        ExprView::Identifier(name) => check_defined(idents, name),
        ExprView::VarAccess(name, _) => check_defined(idents, name),
        ExprView::NullValue => Ok(idents),
        ExprView::FieldAccess(_) => Ok(idents),
        ExprView::StringLiteral(_) => Ok(idents),
        ExprView::NumberLiteral(_) => Ok(idents),
        ExprView::RegexExpr { source, pattern, compiled } => match source {
            SourceView::Identifier(name) => check_defined(idents, name),
            SourceView::Field(_) => Ok(idents),
        },
        ExprView::Assignment { target, expr } => match validate_child(arena, expr, bound, idents) {
            Ok(next) => match target {
                TargetView::Identifier(name) => Ok(define(next, name)),
                TargetView::Field(_) => Ok(next),
            },
            Err(e) => Err(e),
        },
        ExprView::FunctionCall { name, args } => match arity_fault(name, args.len() as int) {
            Some(e) => Err((e, idents)),
            None => validate_all_from(arena, args, 0, bound, idents),
        },
        ExprView::MatchBlock(cases) => validate_match_from(arena, cases, 0, bound, idents),
        ExprView::MapBlock { key, cases } => match map_key_check(key, idents) {
            Ok(_) => validate_map_from(
                arena,
                cases,
                0,
                bound,
                idents,
                MapSeen { texts: Seq::empty(), any: false },
            ),
            Err(e) => Err(e),
        },
        ExprView::Block(ids) => validate_all_from(arena, ids, 0, bound, idents),
    }
}

/// The statements validated in order, starting from `idents`: the identifiers
/// defined afterwards, or the first fault.
pub open spec fn validate_statements(
    arena: Seq<ExprView>,
    stmts: Seq<StatementView>,
    idents: Seq<Seq<char>>,
) -> Result<Seq<Seq<char>>, ScriptErrorView>
    decreases stmts.len(),
{
    if stmts.len() == 0 {
        Ok(idents)
    } else {
        match validate_statements(arena, stmts.drop_last(), idents) {
            Ok(next) => match stmts.last() {
                StatementView::Expression(id) => match validate_id(arena, id, next) {
                    Ok(after) => Ok(after),
                    Err(stopped) => Err(stopped.0),
                },
                StatementView::Comment => Ok(next),
            },
            Err(e) => Err(e),
        }
    }
}

/// A script validates when its statements do, starting without identifiers.
pub open spec fn script_valid(arena: Seq<ExprView>, stmts: Seq<StatementView>) -> bool {
    validate_statements(arena, stmts, Seq::empty()) is Ok
}

/// A fault in a prefix of the statements is the fault of the whole.
pub proof fn lemma_fault_stays(arena: Seq<ExprView>, stmts: Seq<StatementView>, k: int)
    requires
        0 <= k <= stmts.len(),
        validate_statements(arena, stmts.take(k), Seq::empty()) is Err,
    ensures
        validate_statements(arena, stmts, Seq::empty()) == validate_statements(
            arena,
            stmts.take(k),
            Seq::empty(),
        ),
    decreases stmts.len() - k,
{
    if k == stmts.len() {
        assert(stmts.take(k) =~= stmts);
    } else {
        assert(stmts.take(k + 1).drop_last() =~= stmts.take(k));
        lemma_fault_stays(arena, stmts, k + 1);
    }
}

fn define_ident(idents: &mut Vec<String>, name: &str)
    ensures
        texts_view(final(idents)@) == define(texts_view(old(idents)@), name@),
{
    if !contains_text(idents, name) {
        idents.push(name.to_owned());
        assert(texts_view(idents@) =~= texts_view(old(idents)@).push(name@));
    }
}

fn require_ident(idents: &Vec<String>, name: &str) -> (r: Result<(), ScriptError>)
    ensures
        agrees(r, idents@, check_defined(texts_view(idents@), name@)),
{
    if contains_text(idents, name) {
        Ok(())
    } else {
        Err(ScriptError::UnknownIdentifier(name.to_owned()))
    }
}

fn key_text(keys: &Vec<MatchCaseKey>) -> (r: String)
    ensures
        r@ == case_key_text(match_keys_view(keys@)),
{
    let ghost all = match_keys_view(keys@);
    let mut out = String::new();
    let mut i: usize = 0;
    assert(all.take(0).len() == 0);
    while i < keys.len()
        invariant
            i <= keys.len(),
            all == match_keys_view(keys@),
            out@ == case_key_text(all.take(i as int)),
        decreases keys.len() - i,
    {
        let ghost next = all.take(i as int + 1);
        assert(next.drop_last() == all.take(i as int));
        assert(next.last() == keys@[i as int]@);
        match &keys[i] {
            MatchCaseKey::Identifier(ident) => {
                out.append(ident.as_str());
                out.append(", ");
            },
            MatchCaseKey::AnyMatch => {
                out.append("_, ");
            },
        }
        i += 1;
    }
    assert(all.take(keys.len() as int) == all);
    out
}

fn check_match_keys(keys: &Vec<MatchCaseKey>, idents: &Vec<String>) -> (r: Result<(), ScriptError>)
    ensures
        match match_keys_fault(match_keys_view(keys@), 0, texts_view(idents@), false) {
            None => r is Ok,
            Some(e) => r matches Err(x) && x@ == e,
        },
{
    let ghost kv = match_keys_view(keys@);
    let ghost iv = texts_view(idents@);
    let mut any_match_count: usize = 0;
    let mut i: usize = 0;
    while i < keys.len()
        invariant
            i <= keys.len(),
            kv == match_keys_view(keys@),
            iv == texts_view(idents@),
            any_match_count <= 1,
            match_keys_fault(kv, 0, iv, false) == match_keys_fault(
                kv,
                i as int,
                iv,
                any_match_count > 0,
            ),
        decreases keys.len() - i,
    {
        assert(kv[i as int] == keys@[i as int]@);
        match &keys[i] {
            MatchCaseKey::Identifier(ident) => {
                if !contains_text(idents, ident.as_str()) {
                    return Err(ScriptError::UnknownIdentifier(ident.clone()));
                }
            },
            MatchCaseKey::AnyMatch => {
                if any_match_count > 0 {
                    return Err(ScriptError::DuplicateAnyMatch);
                }
                any_match_count += 1;
            },
        }
        i += 1;
    }
    Ok(())
}

fn check_map_keys(keys: &Vec<MapCaseKey>, texts: &mut Vec<String>, any: &mut bool) -> (r: Result<
    (),
    ScriptError,
>)
    ensures
        match map_keys_check(
            map_keys_view(keys@),
            0,
            MapSeen { texts: texts_view(old(texts)@), any: *old(any) },
        ) {
            Ok(seen) => r is Ok && seen == (MapSeen {
                texts: texts_view(final(texts)@),
                any: *final(any),
            }),
            Err(e) => r matches Err(x) && x@ == e,
        },
{
    let ghost kv = map_keys_view(keys@);
    let ghost seen0 = MapSeen { texts: texts_view(texts@), any: *any };
    let mut i: usize = 0;
    while i < keys.len()
        invariant
            i <= keys.len(),
            kv == map_keys_view(keys@),
            seen0 == (MapSeen { texts: texts_view(old(texts)@), any: *old(any) }),
            map_keys_check(kv, 0, seen0) == map_keys_check(
                kv,
                i as int,
                MapSeen { texts: texts_view(texts@), any: *any },
            ),
        decreases keys.len() - i,
    {
        assert(kv[i as int] == keys@[i as int]@);
        let ghost before = texts_view(texts@);
        let ghost seen = MapSeen { texts: texts_view(texts@), any: *any };
        assert(map_keys_check(kv, i as int, seen) == match kv[i as int] {
            MapCaseKeyView::Text(t) => if seen.texts.contains(t) {
                Err(ScriptErrorView::DuplicateCase(t))
            } else {
                map_keys_check(kv, i as int + 1, MapSeen { texts: seen.texts.push(t), any: seen.any })
            },
            MapCaseKeyView::RangeFull(a, b) => if a > b {
                Err(ScriptErrorView::InvalidRange(a, b))
            } else {
                map_keys_check(kv, i as int + 1, seen)
            },
            MapCaseKeyView::AnyMatch => if seen.any {
                Err(ScriptErrorView::DuplicateMapAnyMatch)
            } else {
                map_keys_check(kv, i as int + 1, MapSeen { texts: seen.texts, any: true })
            },
            _ => map_keys_check(kv, i as int + 1, seen),
        });
        match &keys[i] {
            MapCaseKey::Text(value) => {
                if contains_text(texts, value.as_str()) {
                    return Err(ScriptError::DuplicateCase(value.clone()));
                }
                texts.push(value.clone());
                assert(texts_view(texts@) =~= before.push(value@));
            },
            MapCaseKey::RangeFull(from, to) => {
                if from.units > to.units {
                    return Err(ScriptError::InvalidRange(*from, *to));
                }
            },
            MapCaseKey::AnyMatch => {
                if *any {
                    return Err(ScriptError::DuplicateMapAnyMatch);
                }
                *any = true;
            },
            _ => {},
        }
        i += 1;
    }
    Ok(())
}

/// How the outcome of a validation step, and the identifiers it leaves,
/// relate to what validation means.
pub open spec fn agrees(r: Result<(), ScriptError>, idents: Seq<String>, expected: Checked) -> bool {
    match expected {
        Ok(next) => r is Ok && texts_view(idents) == next,
        Err(stopped) => r matches Err(x) && x@ == stopped.0 && texts_view(idents) == stopped.1,
    }
}

/// Whether two lists of match keys are the same.
fn same_keys(a: &Vec<MatchCaseKey>, b: &Vec<MatchCaseKey>) -> (r: bool)
    ensures
        r == (match_keys_view(a@) == match_keys_view(b@)),
{
    let ghost av = match_keys_view(a@);
    let ghost bv = match_keys_view(b@);
    if a.len() != b.len() {
        assert(av.len() != bv.len());
        return false;
    }
    let mut i: usize = 0;
    while i < a.len()
        invariant
            i <= a.len(),
            a.len() == b.len(),
            av == match_keys_view(a@),
            bv == match_keys_view(b@),
            forall|k: int| 0 <= k < i ==> av[k] == bv[k],
        decreases a.len() - i,
    {
        assert(av[i as int] == a@[i as int]@);
        assert(bv[i as int] == b@[i as int]@);
        let same = match &a[i] {
            MatchCaseKey::Identifier(x) => match &b[i] {
                MatchCaseKey::Identifier(y) => str_eq(x.as_str(), y.as_str()),
                MatchCaseKey::AnyMatch => false,
            },
            MatchCaseKey::AnyMatch => match &b[i] {
                MatchCaseKey::Identifier(_) => false,
                MatchCaseKey::AnyMatch => true,
            },
        };
        if !same {
            assert(av[i as int] != bv[i as int]);
            return false;
        }
        i += 1;
    }
    assert(av =~= bv);
    true
}

/// Whether a case before the one at `i` has the same keys.
fn keys_seen(cases: &Vec<MatchCase>, i: usize) -> (r: bool)
    requires
        i < cases.len(),
    ensures
        r == keys_repeated(match_cases_view(cases@), i as int),
{
    let ghost cv = match_cases_view(cases@);
    assert(cv[i as int] == cases@[i as int]@);
    let mut j: usize = 0;
    while j < i
        invariant
            j <= i,
            i < cases.len(),
            cv == match_cases_view(cases@),
            cv[i as int] == cases@[i as int]@,
            forall|k: int| 0 <= k < j ==> (#[trigger] cv[k]).keys != cv[i as int].keys,
        decreases i - j,
    {
        assert(cv[j as int] == cases@[j as int]@);
        if same_keys(&cases[j].keys, &cases[i].keys) {
            assert(cv[j as int].keys == cv[i as int].keys);
            return true;
        }
        j += 1;
    }
    false
}

/// The cases of a match block, validated in order.
pub open spec fn match_block_checked(
    arena: Seq<ExprView>,
    cases: Seq<MatchCaseView>,
    idents: Seq<Seq<char>>,
) -> Checked {
    validate_match_from(arena, cases, 0, ids_bound(match_case_ids(cases)), idents)
}

/// What a map block dispatches on, and then its cases, validated in order.
pub open spec fn map_block_checked(
    arena: Seq<ExprView>,
    key: MapKeyView,
    cases: Seq<MapCaseView>,
    idents: Seq<Seq<char>>,
) -> Checked {
    match map_key_check(key, idents) {
        Ok(_) => validate_map_from(
            arena,
            cases,
            0,
            ids_bound(map_case_ids(cases)),
            idents,
            MapSeen { texts: Seq::empty(), any: false },
        ),
        Err(e) => Err(e),
    }
}

impl<'a> MapperContext<'a> {
    /// Validates the expression at `expr_id` against the identifiers defined
    /// so far, and adds those it defines. After a fault the list holds what
    /// was defined before it.
    pub fn validate_expr(&self, expr_id: ExprId, identifiers: &mut Vec<String>) -> (r: Result<
        (),
        ScriptError,
    >)
        requires
            self.wf(),
        ensures
            agrees(
                r,
                final(identifiers)@,
                validate_id(self.arena(), expr_id@, texts_view(old(identifiers)@)),
            ),
        decreases expr_id.0, 5int, 0int,
    {
        let expressions = self.expressions;
        proof {
            self.lemma_fields();
        }
        if expr_id.0 >= expressions.len() {
            return Err(ScriptError::MissingExpression(expr_id.0));
        }
        let expr = &expressions[expr_id.0];
        let ghost arena = self.arena();
        let ghost bound = expr_rank(expr@);
        proof {
            assert(arena[expr_id@] == expr@);
            lemma_ids_bound_nonneg(children(expr@));
        }
        match expr {
            Expression::Identifier(ident) => require_ident(identifiers, ident.as_str()),
            Expression::VarAccess(ident, _) => require_ident(identifiers, ident.as_str()),
            Expression::NullValue => Ok(()),
            Expression::FieldAccess(_) => Ok(()),
            Expression::StringLiteral(_) => Ok(()),
            Expression::NumberLiteral(_) => Ok(()),
            Expression::RegexExpr { field, pattern, re_pattern } => match field {
                RegexSource::Identifier(ident) => require_ident(identifiers, ident.as_str()),
                RegexSource::Field(_) => Ok(()),
            },
            Expression::Assignment { target, expr } => {
                proof {
                    lemma_ids_bound(seq![expr@], 0);
                }
                match self.validate_expr(*expr, identifiers) {
                    Ok(_) => {},
                    Err(e) => {
                        return Err(e);
                    },
                }
                match target {
                    AssignmentTarget::Identifier(ident) => {
                        define_ident(identifiers, ident.as_str());
                    },
                    AssignmentTarget::Field(_) => {},
                }
                Ok(())
            },
            Expression::FunctionCall { name, args } => {
                if args.len() == 0 {
                    return Err(ScriptError::NoArguments(*name));
                }
                match name {
                    BuiltInFunction::ToNumber => {
                        if args.len() > 1 {
                            return Err(ScriptError::TooManyArguments(*name, args.len()));
                        }
                    },
                    BuiltInFunction::Template => {
                        if args.len() > 1 {
                            return Err(ScriptError::TooManyArguments(*name, args.len()));
                        }
                    },
                    BuiltInFunction::First => {
                        if args.len() > 1 {
                            return Err(ScriptError::TooManyArguments(*name, args.len()));
                        }
                    },
                    _ => {},
                }
                self.validate_all(args, identifiers, Ghost(bound))
            },
            Expression::MatchBlock(cases) => self.validate_match_block(identifiers, cases),
            Expression::MapBlock { key, cases } => self.validate_map_block(identifiers, key, cases),
            Expression::Block(expressions) => self.validate_all(
                expressions,
                identifiers,
                Ghost(bound),
            ),
        }
    }

    fn validate_all(&self, ids: &Vec<ExprId>, identifiers: &mut Vec<String>, Ghost(bound): Ghost<
        int,
    >) -> (r: Result<(), ScriptError>)
        requires
            self.wf(),
            ids_bound(ids_view(ids@)) <= bound,
        ensures
            agrees(
                r,
                final(identifiers)@,
                validate_all_from(
                    self.arena(),
                    ids_view(ids@),
                    0,
                    bound,
                    texts_view(old(identifiers)@),
                ),
            ),
        decreases bound, 3int, 0int,
    {
        let ghost idv = ids_view(ids@);
        let ghost arena = self.arena();
        let ghost target = validate_all_from(arena, idv, 0, bound, texts_view(identifiers@));
        let mut i: usize = 0;
        while i < ids.len()
            invariant
                i <= ids.len(),
                self.wf(),
                arena == self.arena(),
                idv == ids_view(ids@),
                ids_bound(idv) <= bound,
                target == validate_all_from(arena, idv, 0, bound, texts_view(old(identifiers)@)),
                validate_all_from(arena, idv, i as int, bound, texts_view(identifiers@)) == target,
            decreases ids.len() - i,
        {
            proof {
                lemma_ids_bound(idv, i as int);
                assert(idv[i as int] == ids@[i as int]@);
                assert(validate_child(arena, idv[i as int], bound, texts_view(identifiers@))
                    == validate_id(arena, idv[i as int], texts_view(identifiers@)));
                assert(validate_all_from(arena, idv, i as int, bound, texts_view(identifiers@))
                    == match validate_child(arena, idv[i as int], bound, texts_view(identifiers@)) {
                    Ok(next) => validate_all_from(arena, idv, i as int + 1, bound, next),
                    Err(e) => Err(e),
                });
            }
            match self.validate_expr(ids[i], identifiers) {
                Ok(_) => {},
                Err(e) => {
                    return Err(e);
                },
            }
            i += 1;
        }
        Ok(())
    }

    /// Validates the cases of a match block in order: the keys of each, that
    /// no case before has the same keys, then its expression.
    pub fn validate_match_block(&self, identifiers: &mut Vec<String>, cases: &Vec<MatchCase>) -> (r:
        Result<(), ScriptError>)
        requires
            self.wf(),
        ensures
            agrees(
                r,
                final(identifiers)@,
                match_block_checked(
                    self.arena(),
                    match_cases_view(cases@),
                    texts_view(old(identifiers)@),
                ),
            ),
        decreases ids_bound(match_case_ids(match_cases_view(cases@))), 3int, 0int,
    {
        let ghost cv = match_cases_view(cases@);
        let ghost arena = self.arena();
        let ghost bound = ids_bound(match_case_ids(cv));
        let ghost target = validate_match_from(arena, cv, 0, bound, texts_view(identifiers@));
        let mut i: usize = 0;
        while i < cases.len()
            invariant
                i <= cases.len(),
                self.wf(),
                arena == self.arena(),
                cv == match_cases_view(cases@),
                bound == ids_bound(match_case_ids(cv)),
                target == match_block_checked(arena, cv, texts_view(old(identifiers)@)),
                validate_match_from(arena, cv, i as int, bound, texts_view(identifiers@)) == target,
            decreases cases.len() - i,
        {
            proof {
                let idn = texts_view(identifiers@);
                lemma_ids_bound(match_case_ids(cv), i as int);
                assert(cv[i as int] == cases@[i as int]@);
                assert(validate_child(arena, cv[i as int].expression, bound, idn) == validate_id(
                    arena,
                    cv[i as int].expression,
                    idn,
                ));
                assert(validate_match_from(arena, cv, i as int, bound, idn) == match match_keys_fault(
                    cv[i as int].keys,
                    0,
                    idn,
                    false,
                ) {
                    Some(e) => Err((e, idn)),
                    None => if keys_repeated(cv, i as int) {
                        Err((ScriptErrorView::DuplicateCase(case_key_text(cv[i as int].keys)), idn))
                    } else {
                        match validate_child(arena, cv[i as int].expression, bound, idn) {
                            Ok(next) => validate_match_from(arena, cv, i as int + 1, bound, next),
                            Err(e) => Err(e),
                        }
                    },
                });
            }
            match check_match_keys(&cases[i].keys, identifiers) {
                Ok(_) => {},
                Err(e) => {
                    return Err(e);
                },
            }
            if keys_seen(cases, i) {
                return Err(ScriptError::DuplicateCase(key_text(&cases[i].keys)));
            }
            match self.validate_expr(cases[i].expression, identifiers) {
                Ok(_) => {},
                Err(e) => {
                    return Err(e);
                },
            }
            i += 1;
        }
        Ok(())
    }

    /// Validates what a map block dispatches on, and its cases in order.
    pub fn validate_map_block(
        &self,
        identifiers: &mut Vec<String>,
        key: &MapKey,
        cases: &Vec<MapCase>,
    ) -> (r: Result<(), ScriptError>)
        requires
            self.wf(),
        ensures
            agrees(
                r,
                final(identifiers)@,
                map_block_checked(
                    self.arena(),
                    key@,
                    map_cases_view(cases@),
                    texts_view(old(identifiers)@),
                ),
            ),
        decreases ids_bound(map_case_ids(map_cases_view(cases@))), 3int, 0int,
    {
        let checked = match key {
            MapKey::Identifier(ident) => require_ident(identifiers, ident.as_str()),
            MapKey::VarAccess(ident, _) => require_ident(identifiers, ident.as_str()),
            MapKey::FieldAccess(_) => Ok(()),
        };
        match checked {
            Ok(_) => {},
            Err(e) => {
                return Err(e);
            },
        }
        let ghost cv = map_cases_view(cases@);
        let ghost arena = self.arena();
        let ghost bound = ids_bound(map_case_ids(cv));
        let ghost target = validate_map_from(
            arena,
            cv,
            0,
            bound,
            texts_view(identifiers@),
            MapSeen { texts: Seq::empty(), any: false },
        );
        let mut case_keys: Vec<String> = Vec::new();
        assert(texts_view(case_keys@) =~= Seq::<Seq<char>>::empty());
        let mut any_seen = false;
        let mut i: usize = 0;
        while i < cases.len()
            invariant
                i <= cases.len(),
                self.wf(),
                arena == self.arena(),
                cv == map_cases_view(cases@),
                bound == ids_bound(map_case_ids(cv)),
                target == map_block_checked(arena, key@, cv, texts_view(old(identifiers)@)),
                validate_map_from(
                    arena,
                    cv,
                    i as int,
                    bound,
                    texts_view(identifiers@),
                    MapSeen { texts: texts_view(case_keys@), any: any_seen },
                ) == target,
            decreases cases.len() - i,
        {
            proof {
                let idn = texts_view(identifiers@);
                let seen = MapSeen { texts: texts_view(case_keys@), any: any_seen };
                lemma_ids_bound(map_case_ids(cv), i as int);
                assert(cv[i as int] == cases@[i as int]@);
                assert(validate_child(arena, cv[i as int].expression, bound, idn) == validate_id(
                    arena,
                    cv[i as int].expression,
                    idn,
                ));
                assert(validate_map_from(arena, cv, i as int, bound, idn, seen) == match map_keys_check(
                    cv[i as int].keys,
                    0,
                    seen,
                ) {
                    Err(e) => Err((e, idn)),
                    Ok(seen1) => match validate_child(arena, cv[i as int].expression, bound, idn) {
                        Ok(next) => validate_map_from(arena, cv, i as int + 1, bound, next, seen1),
                        Err(e) => Err(e),
                    },
                });
            }
            match check_map_keys(&cases[i].keys, &mut case_keys, &mut any_seen) {
                Ok(_) => {},
                Err(e) => {
                    return Err(e);
                },
            }
            match self.validate_expr(cases[i].expression, identifiers) {
                Ok(_) => {},
                Err(e) => {
                    return Err(e);
                },
            }
            i += 1;
        }
        Ok(())
    }
}

} // verus!

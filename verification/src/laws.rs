//! Laws of the library: what holds of every script, every record and every
//! value, proved from the definitions the contracts use.
use vstd::prelude::*;
use crate::accessor::{field_get, TemplateView};
use crate::ast::{
    arena_ok, arena_view, children, expr_rank, lemma_ids_bound, ExprView, Expression, MapCaseView,
    MatchCaseView, SourceView, StatementView,
};
use crate::regex_engine::{plain_form, regex_captures};
use crate::semantics::{
    eval_child, eval_expr, eval_id, eval_map_from, eval_match_from, map_case_fires,
    match_case_fires, msg_var_not_found, run_failures, run_script, run_statements, source_text,
    EvalState,
};
use crate::mapping::MapperOperation;
use crate::validation::{
    map_keys_check, script_valid, validate_all_from, validate_child, validate_expr, validate_id,
    validate_map_from, validate_match_from, Checked, MapSeen,
};
use crate::api_proxy::{prepared_user, CredentialsView};
use crate::text::{leading_count, strips, text_order, trailing_count, trim_where, Ordered, Strip};
use crate::value::{values_compare, values_match, EvalValue};

verus! {

/// Arena well-formedness: in a well-formed arena every index an expression
/// refers to is in bounds, and is strictly less than the index of the
/// expression itself.
pub proof fn lemma_children_before_parent(arena: Seq<Expression>, parent: int, k: int)
    requires
        arena_ok(arena),
        0 <= parent < arena.len(),
        0 <= k < children(arena[parent]@).len(),
    ensures
        0 <= children(arena[parent]@)[k] < parent,
        children(arena[parent]@)[k] < arena.len(),
{
    let view = arena_view(arena);
    assert(view[parent] == arena[parent]@);
    let ids = children(view[parent]);
    lemma_ids_bound(ids, k);
    assert(expr_rank(view[parent]) <= parent);
    match arena[parent] {
        Expression::FunctionCall { name, args } => {
            assert(ids[k] == args@[k]@);
        },
        Expression::Assignment { target, expr } => {
            assert(ids[k] == expr@);
        },
        Expression::MatchBlock(cases) => {
            assert(ids[k] == cases@[k].expression@);
        },
        Expression::MapBlock { key, cases } => {
            assert(ids[k] == cases@[k].expression@);
        },
        Expression::Block(exprs) => {
            assert(ids[k] == exprs@[k]@);
        },
        _ => {},
    }
}

/// Evaluation purity: running a script starts without variables, so the
/// record afterwards depends on the script, the record before and the
/// templates alone. Two runs on equal inputs leave equal records.
pub proof fn lemma_runs_agree(
    arena: Seq<ExprView>,
    stmts: Seq<StatementView>,
    templates_a: Seq<TemplateView>,
    templates_b: Seq<TemplateView>,
    record_a: Seq<Option<Seq<char>>>,
    record_b: Seq<Option<Seq<char>>>,
)
    requires
        templates_a == templates_b,
        record_a == record_b,
    ensures
        run_script(arena, stmts, templates_a, record_a) == run_script(
            arena,
            stmts,
            templates_b,
            record_b,
        ),
{
}

/// Regex totality: a regular expression whose source is absent, or whose
/// pattern matches nowhere in its source, evaluates to `Undefined` and leaves
/// the state as it is.
pub proof fn lemma_regex_without_match(
    arena: Seq<ExprView>,
    templates: Seq<TemplateView>,
    source: SourceView,
    pattern: Seq<char>,
    st: EvalState,
)
    requires
        source_text(source, st) matches Some(text) ==> regex_captures(pattern, text).len() == 0,
    ensures
        eval_expr(
            arena,
            templates,
            ExprView::RegexExpr { source, pattern, compiled: plain_form(pattern) },
            st,
        ) == (EvalValue::Undefined, st),
{
}

/// Regex totality for a field source: where the record does not hold the
/// field, the result is `Undefined`.
pub proof fn lemma_regex_absent_field(
    arena: Seq<ExprView>,
    templates: Seq<TemplateView>,
    field: Seq<char>,
    pattern: Seq<char>,
    st: EvalState,
)
    requires
        field_get(st.fields, field) is None,
    ensures
        eval_expr(
            arena,
            templates,
            ExprView::RegexExpr {
                source: SourceView::Field(field),
                pattern,
                compiled: plain_form(pattern),
            },
            st,
        ).0 == EvalValue::Undefined,
{
}

/// Match determinism: the first case that fires, in source order, is the one
/// that is evaluated, from whatever case at or before it the search starts.
pub proof fn lemma_first_firing_match_case(
    arena: Seq<ExprView>,
    templates: Seq<TemplateView>,
    cases: Seq<MatchCaseView>,
    from: int,
    firing: int,
    bound: int,
    st: EvalState,
)
    requires
        0 <= from <= firing < cases.len(),
        match_case_fires(cases[firing].keys, st.vars),
        forall|j: int| from <= j < firing ==> !match_case_fires(#[trigger] cases[j].keys, st.vars),
    ensures
        eval_match_from(arena, templates, cases, from, bound, st) == eval_child(
            arena,
            templates,
            cases[firing].expression,
            bound,
            st,
        ),
    decreases firing - from,
{
    if from < firing {
        assert(!match_case_fires(cases[from].keys, st.vars));
        lemma_first_firing_match_case(arena, templates, cases, from + 1, firing, bound, st);
    }
}

/// A match block of which no case fires evaluates to `Undefined` and leaves
/// the state as it is.
pub proof fn lemma_no_firing_match_case(
    arena: Seq<ExprView>,
    templates: Seq<TemplateView>,
    cases: Seq<MatchCaseView>,
    from: int,
    bound: int,
    st: EvalState,
)
    requires
        0 <= from,
        forall|j: int|
            from <= j < cases.len() ==> !match_case_fires(#[trigger] cases[j].keys, st.vars),
    ensures
        eval_match_from(arena, templates, cases, from, bound, st) == (EvalValue::Undefined, st),
    decreases cases.len() - from,
{
    if from < cases.len() {
        assert(!match_case_fires(cases[from].keys, st.vars));
        lemma_no_firing_match_case(arena, templates, cases, from + 1, bound, st);
    }
}

/// Map determinism: the first case one of whose keys matches the key value,
/// in source order, is the one that is evaluated.
pub proof fn lemma_first_firing_map_case(
    arena: Seq<ExprView>,
    templates: Seq<TemplateView>,
    cases: Seq<MapCaseView>,
    from: int,
    firing: int,
    bound: int,
    kv: EvalValue,
    st: EvalState,
)
    requires
        0 <= from <= firing < cases.len(),
        map_case_fires(cases[firing].keys, kv),
        forall|j: int| from <= j < firing ==> !map_case_fires(#[trigger] cases[j].keys, kv),
    ensures
        eval_map_from(arena, templates, cases, from, bound, kv, st) == eval_child(
            arena,
            templates,
            cases[firing].expression,
            bound,
            st,
        ),
    decreases firing - from,
{
    if from < firing {
        assert(!map_case_fires(cases[from].keys, kv));
        lemma_first_firing_map_case(arena, templates, cases, from + 1, firing, bound, kv, st);
    }
}

/// Failure isolation: a statement that reads a variable that was never set
/// evaluates to a failure and leaves the state as it is; the statements after
/// it run as they would without it, and the failure is reported before
/// theirs.
pub proof fn lemma_failed_read_is_passed_over(
    arena: Seq<ExprView>,
    templates: Seq<TemplateView>,
    stmts: Seq<StatementView>,
    i: int,
    id: int,
    name: Seq<char>,
    st: EvalState,
    reported: Seq<Seq<char>>,
)
    requires
        0 <= i < stmts.len(),
        stmts[i] == StatementView::Expression(id),
        0 <= id < arena.len(),
        arena[id] == ExprView::Identifier(name),
        !st.vars.contains_key(name),
    ensures
        eval_id(arena, templates, id, st) == (EvalValue::Failure(msg_var_not_found(name)), st),
        run_statements(arena, templates, stmts, i, st) == run_statements(
            arena,
            templates,
            stmts,
            i + 1,
            st,
        ),
        run_failures(arena, templates, stmts, i, st, reported) == run_failures(
            arena,
            templates,
            stmts,
            i + 1,
            st,
            reported.push(msg_var_not_found(name)),
        ),
{
    assert(children(arena[id]) =~= Seq::<int>::empty());
}

/// Validation monotonicity: if a script validates, so does every prefix of
/// its statements.
pub proof fn lemma_validation_prefix(arena: Seq<ExprView>, stmts: Seq<StatementView>, k: int)
    requires
        script_valid(arena, stmts),
        0 <= k <= stmts.len(),
    ensures
        script_valid(arena, stmts.take(k)),
    decreases stmts.len() - k,
{
    if k == stmts.len() {
        assert(stmts.take(k) =~= stmts);
    } else {
        assert(stmts.drop_last().take(k) =~= stmts.take(k));
        lemma_validation_prefix(arena, stmts.drop_last(), k);
    }
}

/// Reading defines nothing: validating an identifier, an entry of a variable,
/// a literal, a field or a regular expression leaves the identifiers as they
/// are, whether it finds a fault or not.
pub proof fn lemma_reading_keeps_identifiers(
    arena: Seq<ExprView>,
    e: ExprView,
    idents: Seq<Seq<char>>,
)
    requires
        e is Identifier || e is VarAccess || e is NullValue || e is FieldAccess
            || e is StringLiteral || e is NumberLiteral || e is RegexExpr,
    ensures
        match validate_expr(arena, e, idents) {
            Ok(after) => after == idents,
            Err(stopped) => stopped.1 == idents,
        },
{
}

/// Whether the identifiers there were are still there, in their places, in
/// what a validation gives: the identifiers afterwards, or those at the fault.
pub open spec fn keeps(idents: Seq<Seq<char>>, outcome: Checked) -> bool {
    match outcome {
        Ok(after) => idents.is_prefix_of(after),
        Err(stopped) => idents.is_prefix_of(stopped.1),
    }
}

proof fn lemma_keeps_on(idents: Seq<Seq<char>>, next: Seq<Seq<char>>, outcome: Checked)
    requires
        idents.is_prefix_of(next),
        keeps(next, outcome),
    ensures
        keeps(idents, outcome),
{
    let last = match outcome {
        Ok(after) => after,
        Err(stopped) => stopped.1,
    };
    assert(idents =~= last.subrange(0, idents.len() as int)) by {
        assert(next == last.subrange(0, next.len() as int));
        assert(idents == next.subrange(0, idents.len() as int));
    }
}

/// Validation only defines: whatever validating the expression at `id` gives,
/// the identifiers defined before are still defined, in the same places.
pub proof fn lemma_validation_only_defines(arena: Seq<ExprView>, id: int, idents: Seq<Seq<char>>)
    ensures
        keeps(idents, validate_id(arena, id, idents)),
    decreases id, 5int, 0int,
{
    if 0 <= id < arena.len() && 0 <= expr_rank(arena[id]) <= id {
        lemma_expr_only_defines(arena, arena[id], idents);
    }
}

proof fn lemma_expr_only_defines(arena: Seq<ExprView>, e: ExprView, idents: Seq<Seq<char>>)
    ensures
        keeps(idents, validate_expr(arena, e, idents)),
    decreases expr_rank(e), 4int, 0int,
{
    let bound = expr_rank(e);
    match e {
        ExprView::Assignment { target, expr } => {
            lemma_child_only_defines(arena, expr, bound, idents);
        },
        ExprView::FunctionCall { name, args } => {
            lemma_all_only_define(arena, args, 0, bound, idents);
        },
        ExprView::MatchBlock(cases) => {
            lemma_match_only_defines(arena, cases, 0, bound, idents);
        },
        ExprView::MapBlock { key, cases } => {
            lemma_map_only_defines(
                arena,
                cases,
                0,
                bound,
                idents,
                MapSeen { texts: Seq::empty(), any: false },
            );
        },
        ExprView::Block(ids) => {
            lemma_all_only_define(arena, ids, 0, bound, idents);
        },
        _ => {},
    }
}

proof fn lemma_child_only_defines(
    arena: Seq<ExprView>,
    id: int,
    bound: int,
    idents: Seq<Seq<char>>,
)
    ensures
        keeps(idents, validate_child(arena, id, bound, idents)),
    decreases bound, 2int, 0int,
{
    if 0 <= id < bound {
        lemma_validation_only_defines(arena, id, idents);
    }
}

proof fn lemma_all_only_define(
    arena: Seq<ExprView>,
    ids: Seq<int>,
    i: int,
    bound: int,
    idents: Seq<Seq<char>>,
)
    ensures
        keeps(idents, validate_all_from(arena, ids, i, bound, idents)),
    decreases bound, 3int, ids.len() - i,
{
    if 0 <= i < ids.len() {
        lemma_child_only_defines(arena, ids[i], bound, idents);
        match validate_child(arena, ids[i], bound, idents) {
            Ok(next) => {
                lemma_all_only_define(arena, ids, i + 1, bound, next);
                lemma_keeps_on(idents, next, validate_all_from(arena, ids, i + 1, bound, next));
            },
            Err(_) => {},
        }
    }
}

proof fn lemma_match_only_defines(
    arena: Seq<ExprView>,
    cases: Seq<MatchCaseView>,
    i: int,
    bound: int,
    idents: Seq<Seq<char>>,
)
    ensures
        keeps(idents, validate_match_from(arena, cases, i, bound, idents)),
    decreases bound, 3int, cases.len() - i,
{
    if 0 <= i < cases.len() {
        lemma_child_only_defines(arena, cases[i].expression, bound, idents);
        match validate_child(arena, cases[i].expression, bound, idents) {
            Ok(next) => {
                lemma_match_only_defines(arena, cases, i + 1, bound, next);
                lemma_keeps_on(idents, next, validate_match_from(arena, cases, i + 1, bound, next));
            },
            Err(_) => {},
        }
    }
}

proof fn lemma_map_only_defines(
    arena: Seq<ExprView>,
    cases: Seq<MapCaseView>,
    i: int,
    bound: int,
    idents: Seq<Seq<char>>,
    seen: MapSeen,
)
    ensures
        keeps(idents, validate_map_from(arena, cases, i, bound, idents, seen)),
    decreases bound, 3int, cases.len() - i,
{
    if 0 <= i < cases.len() {
        lemma_child_only_defines(arena, cases[i].expression, bound, idents);
        match validate_child(arena, cases[i].expression, bound, idents) {
            Ok(next) => {
                match map_keys_check(cases[i].keys, 0, seen) {
                    Ok(seen1) => {
                        lemma_map_only_defines(arena, cases, i + 1, bound, next, seen1);
                        lemma_keeps_on(
                            idents,
                            next,
                            validate_map_from(arena, cases, i + 1, bound, next, seen1),
                        );
                    },
                    Err(_) => {},
                }
            },
            Err(_) => {},
        }
    }
}

/// Without templates, preparing an operation leaves it as it is.
pub proof fn lemma_prepare_without_templates(op: MapperOperation)
    ensures
        op.prepared(None) == op@,
{
}

/// Two texts compare equal exactly when they are the same text.
pub proof fn lemma_text_order_equal(a: Seq<char>, b: Seq<char>)
    ensures
        (text_order(a, b) == Ordered::Equal) <==> a == b,
    decreases a.len(),
{
    if a.len() > 0 && b.len() > 0 {
        lemma_text_order_equal(a.drop_first(), b.drop_first());
        if a[0] == b[0] && a.drop_first() == b.drop_first() {
            assert(a =~= seq![a[0]] + a.drop_first());
            assert(b =~= seq![b[0]] + b.drop_first());
        }
    } else if a.len() == 0 && b.len() == 0 {
        assert(a =~= b);
    }
}

/// Exchanging two texts reverses their order.
pub proof fn lemma_text_order_reverses(a: Seq<char>, b: Seq<char>)
    ensures
        text_order(b, a) == text_order(a, b).reversed(),
    decreases a.len(),
{
    if a.len() > 0 && b.len() > 0 && a[0] == b[0] {
        lemma_text_order_reverses(a.drop_first(), b.drop_first());
    }
}

/// Matching is symmetric.
pub proof fn lemma_match_symmetric(a: EvalValue, b: EvalValue)
    ensures
        values_match(a, b) == values_match(b, a),
{
}

/// Comparing is total on its pairs: exchanging the two values reverses the
/// order, and leaves incomparable values incomparable.
pub proof fn lemma_compare_reverses(a: EvalValue, b: EvalValue)
    ensures
        values_compare(b, a) == match values_compare(a, b) {
            Some(o) => Some(o.reversed()),
            None => None,
        },
{
    match (a, b) {
        (EvalValue::Value(x), EvalValue::Value(y)) => {
            lemma_text_order_reverses(x, y);
        },
        _ => {},
    }
}

/// Two values match exactly when they compare equal.
pub proof fn lemma_match_is_equal_compare(a: EvalValue, b: EvalValue)
    ensures
        values_match(a, b) <==> values_compare(a, b) == Some(Ordered::Equal),
{
    match (a, b) {
        (EvalValue::Value(x), EvalValue::Value(y)) => {
            lemma_text_order_equal(x, y);
        },
        _ => {},
    }
}

/// Up to the count of leading characters all characters are taken off, and
/// the one behind is not.
pub proof fn lemma_leading_count(s: Seq<char>, f: spec_fn(char) -> bool)
    ensures
        leading_count(s, f) <= s.len(),
        forall|i: int| 0 <= i < leading_count(s, f) ==> f(#[trigger] s[i]),
        leading_count(s, f) < s.len() ==> !f(s[leading_count(s, f) as int]),
    decreases s.len(),
{
    if s.len() > 0 && f(s[0]) {
        let t = s.drop_first();
        lemma_leading_count(t, f);
        assert forall|i: int| 0 <= i < leading_count(s, f) implies f(#[trigger] s[i]) by {
            if i > 0 {
                assert(s[i] == t[i - 1]);
            }
        }
        if leading_count(s, f) < s.len() {
            assert(s[leading_count(s, f) as int] == t[leading_count(t, f) as int]);
        }
    }
}

/// From the count of trailing characters on all characters are taken off, and
/// the one before is not.
pub proof fn lemma_trailing_count(s: Seq<char>, f: spec_fn(char) -> bool)
    ensures
        trailing_count(s, f) <= s.len(),
        forall|i: int| s.len() - trailing_count(s, f) <= i < s.len() ==> f(#[trigger] s[i]),
        trailing_count(s, f) < s.len() ==> !f(s[s.len() - trailing_count(s, f) - 1]),
    decreases s.len(),
{
    if s.len() > 0 && f(s.last()) {
        let t = s.drop_last();
        lemma_trailing_count(t, f);
        assert forall|i: int| s.len() - trailing_count(s, f) <= i < s.len() implies f(
            #[trigger] s[i],
        ) by {
            if i < s.len() - 1 {
                assert(s[i] == t[i]);
            }
        }
        if trailing_count(s, f) < s.len() {
            assert(s[s.len() - trailing_count(s, f) - 1] == t[t.len() - trailing_count(t, f) - 1]);
        }
    }
}

/// Trimming is idempotent: a trimmed text has nothing left to take off.
pub proof fn lemma_trim_idempotent(s: Seq<char>, f: spec_fn(char) -> bool)
    ensures
        trim_where(trim_where(s, f), f) == trim_where(s, f),
{
    let t = trim_where(s, f);
    lemma_leading_count(s, f);
    lemma_trailing_count(s, f);
    let start = leading_count(s, f) as int;
    if start == s.len() {
        assert(t.len() == 0);
    } else {
        let end = s.len() - trailing_count(s, f);
        assert(!f(s[start]));
        assert(start < end);
        assert(t[0] == s[start]);
        assert(t.last() == s[end - 1]);
        assert(leading_count(t, f) == 0);
        assert(trailing_count(t, f) == 0);
        assert(t.subrange(0, t.len() as int) =~= t);
    }
}

/// Preparing the credentials of a user twice is preparing them once.
pub proof fn lemma_prepared_user_idempotent(c: CredentialsView)
    ensures
        prepared_user(prepared_user(c)) == prepared_user(c),
{
    let f = strips(Strip::WhiteSpace);
    lemma_trim_idempotent(c.username, f);
    lemma_trim_idempotent(c.password, f);
    if c.token is Some {
        lemma_trim_idempotent(c.token.unwrap(), f);
    }
}

} // verus!

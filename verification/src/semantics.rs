//! What evaluating a script means: a function from the arena, the templates
//! and a state (variables and record) to a value and a new state.
use vstd::prelude::*;
use crate::accessor::{field_get, field_set, template_lookup, TemplateView};
use crate::ast::{
    expr_rank, BuiltInFunction, ExprView, MapCaseKeyView, MapCaseView, MapKeyView, MatchCaseView,
    MatchKeyView, SourceView, StatementView, TargetView,
};
use crate::number::{digits_of, format_units};
use crate::regex_engine::{regex_captures, regex_group_names};
use crate::text::{char_to_uppercase, str_to_lowercase, str_to_uppercase, trimmed, Ordered};
use crate::value::{
    concat_pieces, lookup_first, named_pieces, text_to_number, values_compare, values_match,
    EvalValue,
};

verus! {

/// The state a script runs in: its variables, the record it works on, and
/// what it has printed.
pub ghost struct EvalState {
    pub vars: Map<Seq<char>, EvalValue>,
    pub fields: Seq<Option<Seq<char>>>,
    /// The lines `print` has put out so far.
    pub printed: Seq<Seq<char>>,
}

pub open spec fn msg_var_not_found(name: Seq<char>) -> Seq<char> {
    "Variable with name "@ + name + " not found."@
}

pub open spec fn msg_no_fields(name: Seq<char>) -> Seq<char> {
    "Variable with name "@ + name + " has no fields."@
}

pub open spec fn msg_no_field(name: Seq<char>, field: Seq<char>) -> Seq<char> {
    "Variable with name "@ + name + " has no field "@ + field + "."@
}

pub open spec fn msg_set_field(name: Seq<char>, err: Seq<char>) -> Seq<char> {
    "Failed to set field "@ + name + " value: "@ + err
}

pub open spec fn msg_function_failed(function: Seq<char>, err: Seq<char>) -> Seq<char> {
    "Function '"@ + function + "' failed: "@ + err
}

/// The name a built-in function is reported under.
pub open spec fn builtin_name(f: BuiltInFunction) -> Seq<char> {
    match f {
        BuiltInFunction::Concat => "Concat"@,
        BuiltInFunction::Uppercase => "Uppercase"@,
        BuiltInFunction::Lowercase => "Lowercase"@,
        BuiltInFunction::Capitalize => "Capitalize"@,
        BuiltInFunction::Trim => "Trim"@,
        BuiltInFunction::Print => "Print"@,
        BuiltInFunction::ToNumber => "ToNumber"@,
        BuiltInFunction::First => "First"@,
        BuiltInFunction::Template => "Template"@,
    }
}

/// The texts joined, with `sep` between two neighbours.
pub open spec fn join_texts(parts: Seq<Seq<char>>, sep: Seq<char>) -> Seq<char>
    decreases parts.len(),
{
    if parts.len() == 0 {
        Seq::empty()
    } else if parts.len() == 1 {
        parts[0]
    } else {
        join_texts(parts.drop_last(), sep) + sep + parts.last()
    }
}

/// A text with its first character in upper case.
pub open spec fn capitalized(s: Seq<char>) -> Seq<char> {
    if s.len() == 0 {
        s
    } else {
        char_to_uppercase(s[0]) + s.drop_first()
    }
}

/// A value that takes part in a function call or lets a match case fire.
pub open spec fn is_present(v: EvalValue) -> bool {
    v is Value || v is Number || v is Named
}

/// The values of a list that take part in a function call, in order.
pub open spec fn retain_present(vals: Seq<EvalValue>) -> Seq<EvalValue>
    decreases vals.len(),
{
    if vals.len() == 0 {
        Seq::empty()
    } else if is_present(vals.last()) {
        retain_present(vals.drop_last()).push(vals.last())
    } else {
        retain_present(vals.drop_last())
    }
}

/// The message of the first failure in a list of values.
pub open spec fn first_failure(vals: Seq<EvalValue>) -> Option<Seq<char>>
    decreases vals.len(),
{
    if vals.len() == 0 {
        None
    } else if vals[0] is Failure {
        Some(vals[0]->Failure_0)
    } else {
        first_failure(vals.drop_first())
    }
}

/// The text a value gives as a template name.
pub open spec fn template_key(v: EvalValue) -> Option<Seq<char>> {
    match v {
        EvalValue::Value(s) => Some(s),
        EvalValue::Named(pairs) => if pairs.len() > 0 {
            Some(pairs[0].1)
        } else {
            None
        },
        _ => None,
    }
}

/// A built-in function applied to the values that take part, of which there
/// is at least one.
pub open spec fn apply_function(
    f: BuiltInFunction,
    vals: Seq<EvalValue>,
    templates: Seq<TemplateView>,
) -> EvalValue {
    let pieces = concat_pieces(vals);
    match f {
        BuiltInFunction::Concat => EvalValue::Value(join_texts(pieces, Seq::empty())),
        BuiltInFunction::Uppercase => EvalValue::Value(str_to_uppercase(join_texts(pieces, " "@))),
        BuiltInFunction::Lowercase => EvalValue::Value(str_to_lowercase(join_texts(pieces, " "@))),
        BuiltInFunction::Trim => EvalValue::Value(
            trimmed(join_texts(pieces.map_values(|p: Seq<char>| trimmed(p)), " "@)),
        ),
        BuiltInFunction::Capitalize => EvalValue::Value(
            join_texts(pieces.map_values(|p: Seq<char>| capitalized(p)), " "@),
        ),
        BuiltInFunction::Print => EvalValue::Undefined,
        BuiltInFunction::ToNumber => match vals[0] {
            EvalValue::Value(s) => text_to_number(s),
            other => other,
        },
        BuiltInFunction::First => match vals[0] {
            EvalValue::Named(pairs) => if pairs.len() > 0 {
                EvalValue::Value(pairs[0].1)
            } else {
                EvalValue::Undefined
            },
            other => other,
        },
        BuiltInFunction::Template => match template_key(vals[0]) {
            Some(key) => match template_lookup(templates, key) {
                Some(v) => EvalValue::Value(v),
                None => EvalValue::Undefined,
            },
            None => EvalValue::Undefined,
        },
    }
}

/// The result of a call, given the values of its arguments: the first failure
/// among them, else the function applied to those that are present, else
/// `Undefined`.
pub open spec fn call_result(
    f: BuiltInFunction,
    vals: Seq<EvalValue>,
    templates: Seq<TemplateView>,
) -> EvalValue {
    match first_failure(vals) {
        Some(msg) => EvalValue::Failure(msg_function_failed(builtin_name(f), msg)),
        None => {
            let present = retain_present(vals);
            if present.len() == 0 {
                EvalValue::Undefined
            } else {
                apply_function(f, present, templates)
            }
        },
    }
}

/// The line a call puts out: none unless the function is `print` and no
/// argument failed; then what the arguments that are present are written as,
/// one after the other, or `undefined` where none is present.
pub open spec fn print_line(f: BuiltInFunction, vals: Seq<EvalValue>) -> Option<Seq<char>> {
    if f == BuiltInFunction::Print && first_failure(vals) is None {
        let present = retain_present(vals);
        if present.len() == 0 {
            Some("undefined"@)
        } else {
            Some(join_texts(concat_pieces(present), Seq::empty()))
        }
    } else {
        None
    }
}

/// The value of a variable read by name.
pub open spec fn read_variable(vars: Map<Seq<char>, EvalValue>, name: Seq<char>) -> EvalValue {
    if vars.contains_key(name) {
        vars[name]
    } else {
        EvalValue::Failure(msg_var_not_found(name))
    }
}

/// The value of a record field read by name.
pub open spec fn read_field(fields: Seq<Option<Seq<char>>>, field: Seq<char>) -> EvalValue {
    match field_get(fields, field) {
        Some(v) => EvalValue::Value(v),
        None => EvalValue::Undefined,
    }
}

/// The value of one entry of a variable that holds pairs.
pub open spec fn read_variable_field(
    vars: Map<Seq<char>, EvalValue>,
    name: Seq<char>,
    field: Seq<char>,
) -> EvalValue {
    if !vars.contains_key(name) {
        EvalValue::Failure(msg_var_not_found(name))
    } else {
        match vars[name] {
            EvalValue::Undefined => EvalValue::Undefined,
            EvalValue::Number(_) => EvalValue::Failure(msg_no_fields(name)),
            EvalValue::Value(_) => EvalValue::Failure(msg_no_fields(name)),
            EvalValue::Named(pairs) => match lookup_first(pairs, field) {
                Some(v) => EvalValue::Value(v),
                None => EvalValue::Failure(msg_no_field(name, field)),
            },
            other => other,
        }
    }
}

/// The text a regular expression is applied to, if there is one.
pub open spec fn source_text(source: SourceView, st: EvalState) -> Option<Seq<char>> {
    match source {
        SourceView::Identifier(name) => if st.vars.contains_key(name) {
            match st.vars[name] {
                EvalValue::Value(s) => Some(s),
                _ => None,
            }
        } else {
            None
        },
        SourceView::Field(field) => field_get(st.fields, field),
    }
}

/// The pairs of the groups `1..upto` of one match that took part, keyed by
/// their index in decimal.
pub open spec fn positional_pairs(groups: Seq<Option<Seq<char>>>, upto: int) -> Seq<
    (Seq<char>, Seq<char>),
>
    decreases upto,
{
    if upto <= 1 || upto > groups.len() {
        Seq::empty()
    } else {
        match groups[upto - 1] {
            Some(m) => positional_pairs(groups, upto - 1).push((digits_of((upto - 1) as nat), m)),
            None => positional_pairs(groups, upto - 1),
        }
    }
}

/// The pairs of the named groups among the first `upto` that took part in
/// one match, keyed by name.
pub open spec fn named_pairs(
    groups: Seq<Option<Seq<char>>>,
    names: Seq<Option<Seq<char>>>,
    upto: int,
) -> Seq<(Seq<char>, Seq<char>)>
    decreases upto,
{
    if upto <= 0 || upto > names.len() {
        Seq::empty()
    } else if upto <= groups.len() && names[upto - 1] is Some && groups[upto - 1] is Some {
        named_pairs(groups, names, upto - 1).push(
            (names[upto - 1].unwrap(), groups[upto - 1].unwrap()),
        )
    } else {
        named_pairs(groups, names, upto - 1)
    }
}

/// The pairs of one match: the positional groups, then the named ones.
pub open spec fn match_pairs(groups: Seq<Option<Seq<char>>>, names: Seq<Option<Seq<char>>>) -> Seq<
    (Seq<char>, Seq<char>),
> {
    positional_pairs(groups, groups.len() as int) + named_pairs(groups, names, names.len() as int)
}

/// The pairs of the first `upto` matches, in order.
pub open spec fn capture_pairs(
    captures: Seq<Seq<Option<Seq<char>>>>,
    names: Seq<Option<Seq<char>>>,
    upto: int,
) -> Seq<(Seq<char>, Seq<char>)>
    decreases upto,
{
    if upto <= 0 || upto > captures.len() {
        Seq::empty()
    } else {
        capture_pairs(captures, names, upto - 1) + match_pairs(captures[upto - 1], names)
    }
}

/// The value a list of captured pairs gives: nothing, the one text, or all.
pub open spec fn pairs_value(pairs: Seq<(Seq<char>, Seq<char>)>) -> EvalValue {
    if pairs.len() == 0 {
        EvalValue::Undefined
    } else if pairs.len() == 1 {
        EvalValue::Value(pairs[0].1)
    } else {
        EvalValue::Named(pairs)
    }
}

/// The value of a regular expression applied to its source.
pub open spec fn regex_value(source: SourceView, pattern: Seq<char>, st: EvalState) -> EvalValue {
    match source_text(source, st) {
        Some(text) => {
            let captures = regex_captures(pattern, text);
            pairs_value(capture_pairs(captures, regex_group_names(pattern), captures.len() as int))
        },
        None => EvalValue::Undefined,
    }
}

/// The text a list of pairs is written as.
pub open spec fn named_text(pairs: Seq<(Seq<char>, Seq<char>)>) -> Seq<char> {
    join_texts(named_pieces(pairs), Seq::empty())
}

/// Writing a value to a record field: the result, and the record afterwards.
pub open spec fn assign_field(fields: Seq<Option<Seq<char>>>, name: Seq<char>, val: EvalValue) -> (
    EvalValue,
    Seq<Option<Seq<char>>>,
) {
    match val {
        EvalValue::Value(s) => (EvalValue::Undefined, field_set(fields, name, s)),
        EvalValue::Number(n) => (EvalValue::Undefined, field_set(fields, name, format_units(n))),
        EvalValue::Named(pairs) => (
            EvalValue::Undefined,
            field_set(fields, name, named_text(pairs)),
        ),
        EvalValue::Failure(err) => (EvalValue::Failure(msg_set_field(name, err)), fields),
        _ => (EvalValue::Undefined, fields),
    }
}

/// Whether one key of a match case lets the case fire.
pub open spec fn match_key_fires(key: MatchKeyView, vars: Map<Seq<char>, EvalValue>) -> bool {
    match key {
        MatchKeyView::Identifier(name) => vars.contains_key(name) && (is_present(vars[name])
            || vars[name] is AnyValue),
        MatchKeyView::AnyMatch => true,
    }
}

/// A match case fires when every one of its keys does.
pub open spec fn match_case_fires(keys: Seq<MatchKeyView>, vars: Map<Seq<char>, EvalValue>) -> bool {
    forall|i: int| 0 <= i < keys.len() ==> match_key_fires(#[trigger] keys[i], vars)
}

pub open spec fn at_least(o: Option<Ordered>) -> bool {
    o == Some(Ordered::Equal) || o == Some(Ordered::Greater)
}

pub open spec fn at_most(o: Option<Ordered>) -> bool {
    o == Some(Ordered::Equal) || o == Some(Ordered::Less)
}

/// Whether one key of a map case matches the key value.
pub open spec fn map_key_matches(key: MapCaseKeyView, kv: EvalValue) -> bool {
    match key {
        MapCaseKeyView::Text(t) => values_match(kv, EvalValue::Value(t)),
        MapCaseKeyView::AnyMatch => true,
        MapCaseKeyView::RangeFrom(a) => at_least(values_compare(kv, EvalValue::Number(a))),
        MapCaseKeyView::RangeTo(b) => at_most(values_compare(kv, EvalValue::Number(b))),
        MapCaseKeyView::RangeFull(a, b) => at_least(values_compare(kv, EvalValue::Number(a)))
            && at_most(values_compare(kv, EvalValue::Number(b))),
        MapCaseKeyView::RangeEq(n) => values_compare(kv, EvalValue::Number(n)) == Some(
            Ordered::Equal,
        ),
    }
}

/// A map case fires when one of its keys matches.
pub open spec fn map_case_fires(keys: Seq<MapCaseKeyView>, kv: EvalValue) -> bool {
    exists|i: int| 0 <= i < keys.len() && map_key_matches(#[trigger] keys[i], kv)
}

/// The value a map block dispatches on.
pub open spec fn map_key_value(key: MapKeyView, st: EvalState) -> EvalValue {
    match key {
        MapKeyView::Identifier(name) => read_variable(st.vars, name),
        MapKeyView::FieldAccess(field) => read_field(st.fields, field),
        MapKeyView::VarAccess(name, field) => read_variable_field(st.vars, name, field),
    }
}

/// The expression at `id`, evaluated; `Undefined` where there is none.
pub open spec fn eval_id(
    arena: Seq<ExprView>,
    templates: Seq<TemplateView>,
    id: int,
    st: EvalState,
) -> (EvalValue, EvalState)
    decreases id, 5int, 0int,
{
    if 0 <= id < arena.len() && 0 <= expr_rank(arena[id]) <= id {
        eval_expr(arena, templates, arena[id], st)
    } else {
        (EvalValue::Undefined, st)
    }
}

/// The child at `id` of an expression of rank `bound`, evaluated.
pub open spec fn eval_child(
    arena: Seq<ExprView>,
    templates: Seq<TemplateView>,
    id: int,
    bound: int,
    st: EvalState,
) -> (EvalValue, EvalState)
    decreases bound, 2int, 0int,
{
    if 0 <= id < bound {
        eval_id(arena, templates, id, st)
    } else {
        (EvalValue::Undefined, st)
    }
}

/// The arguments from `i` on, evaluated left to right, each in the state the
/// one before it left; `acc` holds the values so far.
pub open spec fn eval_args_from(
    arena: Seq<ExprView>,
    templates: Seq<TemplateView>,
    args: Seq<int>,
    i: int,
    bound: int,
    st: EvalState,
    acc: Seq<EvalValue>,
) -> (Seq<EvalValue>, EvalState)
    decreases bound, 3int, args.len() - i,
{
    if i < 0 || i >= args.len() {
        (acc, st)
    } else {
        let (v, st1) = eval_child(arena, templates, args[i], bound, st);
        eval_args_from(arena, templates, args, i + 1, bound, st1, acc.push(v))
    }
}

/// The expressions of a block from `i` on, evaluated in order; `last` is the
/// value of the one before.
pub open spec fn eval_block_from(
    arena: Seq<ExprView>,
    templates: Seq<TemplateView>,
    ids: Seq<int>,
    i: int,
    bound: int,
    st: EvalState,
    last: EvalValue,
) -> (EvalValue, EvalState)
    decreases bound, 3int, ids.len() - i,
{
    if i < 0 || i >= ids.len() {
        (last, st)
    } else {
        let (v, st1) = eval_child(arena, templates, ids[i], bound, st);
        eval_block_from(arena, templates, ids, i + 1, bound, st1, v)
    }
}

/// The first match case from `i` on that fires, evaluated.
pub open spec fn eval_match_from(
    arena: Seq<ExprView>,
    templates: Seq<TemplateView>,
    cases: Seq<MatchCaseView>,
    i: int,
    bound: int,
    st: EvalState,
) -> (EvalValue, EvalState)
    decreases bound, 3int, cases.len() - i,
{
    if i < 0 || i >= cases.len() {
        (EvalValue::Undefined, st)
    } else if match_case_fires(cases[i].keys, st.vars) {
        eval_child(arena, templates, cases[i].expression, bound, st)
    } else {
        eval_match_from(arena, templates, cases, i + 1, bound, st)
    }
}

/// The first map case from `i` on that fires for the key value, evaluated.
pub open spec fn eval_map_from(
    arena: Seq<ExprView>,
    templates: Seq<TemplateView>,
    cases: Seq<MapCaseView>,
    i: int,
    bound: int,
    kv: EvalValue,
    st: EvalState,
) -> (EvalValue, EvalState)
    decreases bound, 3int, cases.len() - i,
{
    if i < 0 || i >= cases.len() {
        (EvalValue::Undefined, st)
    } else if map_case_fires(cases[i].keys, kv) {
        eval_child(arena, templates, cases[i].expression, bound, st)
    } else {
        eval_map_from(arena, templates, cases, i + 1, bound, kv, st)
    }
}

/// An expression evaluated in a state: its value, and the state afterwards.
pub open spec fn eval_expr(
    arena: Seq<ExprView>,
    templates: Seq<TemplateView>,
    e: ExprView,
    st: EvalState,
) -> (EvalValue, EvalState)
    decreases expr_rank(e), 4int, 0int,
{
    let bound = expr_rank(e);
    match e {
        ExprView::NullValue => (EvalValue::Undefined, st),
        ExprView::Identifier(name) => (read_variable(st.vars, name), st),
        ExprView::FieldAccess(field) => (read_field(st.fields, field), st),
        ExprView::VarAccess(name, field) => (read_variable_field(st.vars, name, field), st),
        ExprView::StringLiteral(s) => (EvalValue::Value(s), st),
        ExprView::NumberLiteral(n) => (EvalValue::Number(n), st),
        ExprView::RegexExpr { source, pattern, compiled } => (
            regex_value(source, pattern, st),
            st,
        ),
        ExprView::Assignment { target, expr } => {
            let (val, st1) = eval_child(arena, templates, expr, bound, st);
            match target {
                TargetView::Identifier(name) => (
                    EvalValue::Undefined,
                    EvalState { vars: st1.vars.insert(name, val), ..st1 },
                ),
                TargetView::Field(name) => {
                    let (r, fields) = assign_field(st1.fields, name, val);
                    (r, EvalState { fields, ..st1 })
                },
            }
        },
        ExprView::FunctionCall { name, args } => {
            let (vals, st1) = eval_args_from(arena, templates, args, 0, bound, st, Seq::empty());
            (
                call_result(name, vals, templates),
                match print_line(name, vals) {
                    Some(line) => EvalState { printed: st1.printed.push(line), ..st1 },
                    None => st1,
                },
            )
        },
        ExprView::MatchBlock(cases) => eval_match_from(arena, templates, cases, 0, bound, st),
        ExprView::MapBlock { key, cases } => eval_map_from(
            arena,
            templates,
            cases,
            0,
            bound,
            map_key_value(key, st),
            st,
        ),
        ExprView::Block(ids) => eval_block_from(
            arena,
            templates,
            ids,
            0,
            bound,
            st,
            EvalValue::Undefined,
        ),
    }
}

/// The state after the statements from `i` on have run; what a statement
/// evaluates to is dropped, a failure too.
pub open spec fn run_statements(
    arena: Seq<ExprView>,
    templates: Seq<TemplateView>,
    stmts: Seq<StatementView>,
    i: int,
    st: EvalState,
) -> EvalState
    decreases stmts.len() - i,
{
    if i < 0 || i >= stmts.len() {
        st
    } else {
        let st1 = match stmts[i] {
            StatementView::Expression(id) => eval_id(arena, templates, id, st).1,
            StatementView::Comment => st,
        };
        run_statements(arena, templates, stmts, i + 1, st1)
    }
}

/// The state a run starts in: no variables, nothing printed.
pub open spec fn start_state(fields: Seq<Option<Seq<char>>>) -> EvalState {
    EvalState { vars: Map::empty(), fields, printed: Seq::empty() }
}

/// What a script prints when it runs on a record, line by line.
pub open spec fn script_output(
    arena: Seq<ExprView>,
    stmts: Seq<StatementView>,
    templates: Seq<TemplateView>,
    fields: Seq<Option<Seq<char>>>,
) -> Seq<Seq<char>> {
    run_statements(arena, templates, stmts, 0, start_state(fields)).printed
}

/// The messages of the statements from `i` on that evaluate to a failure, in
/// order, after those in `acc`.
pub open spec fn run_failures(
    arena: Seq<ExprView>,
    templates: Seq<TemplateView>,
    stmts: Seq<StatementView>,
    i: int,
    st: EvalState,
    acc: Seq<Seq<char>>,
) -> Seq<Seq<char>>
    decreases stmts.len() - i,
{
    if i < 0 || i >= stmts.len() {
        acc
    } else {
        match stmts[i] {
            StatementView::Expression(id) => {
                let (v, st1) = eval_id(arena, templates, id, st);
                run_failures(
                    arena,
                    templates,
                    stmts,
                    i + 1,
                    st1,
                    match v {
                        EvalValue::Failure(msg) => acc.push(msg),
                        _ => acc,
                    },
                )
            },
            StatementView::Comment => run_failures(arena, templates, stmts, i + 1, st, acc),
        }
    }
}

/// The messages of the statements of a script that fail when it runs on a
/// record, starting without variables.
pub open spec fn script_failures(
    arena: Seq<ExprView>,
    stmts: Seq<StatementView>,
    templates: Seq<TemplateView>,
    fields: Seq<Option<Seq<char>>>,
) -> Seq<Seq<char>> {
    run_failures(
        arena,
        templates,
        stmts,
        0,
        start_state(fields),
        Seq::empty(),
    )
}

/// The record after a script has run on it, starting without variables.
pub open spec fn run_script(
    arena: Seq<ExprView>,
    stmts: Seq<StatementView>,
    templates: Seq<TemplateView>,
    fields: Seq<Option<Seq<char>>>,
) -> Seq<Option<Seq<char>>> {
    run_statements(arena, templates, stmts, 0, start_state(fields)).fields
}

} // verus!

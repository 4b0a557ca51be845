//! The evaluator: runs the expressions of an arena against a record.
use regex::Regex;
use vstd::prelude::*;
use vstd::string::StringExecFns;
use crate::accessor::{
    find_template, registry_view, template_lookup, PatternTemplate, TemplateView, ValueAccessor,
};
use crate::ast::{
    arena_ok, arena_view, expr_rank, ids_bound, ids_view, lemma_ids_bound, lemma_ids_bound_nonneg,
    map_case_ids, map_cases_view, map_keys_view, match_case_ids, match_cases_view, match_keys_view,
    AssignmentTarget, BuiltInFunction, ExprId, ExprView, Expression, MapCase, MapCaseKey, MapKey,
    MatchCase, MatchCaseKey, RegexSource, Statement,
};
use crate::number::{format_number, push_digits};
use crate::regex_engine::{
    all_captures, capture_names, captures_view, groups_view, regex_captures, regex_group_names,
    built_from, regex_plain, regex_source,
};
use crate::semantics::{
    apply_function, assign_field, builtin_name, call_result, capitalized, capture_pairs,
    eval_args_from, eval_block_from, eval_child, eval_expr, eval_id, eval_map_from,
    eval_match_from, first_failure, join_texts, map_case_fires, map_key_matches, map_key_value,
    match_case_fires, match_key_fires, match_pairs, named_pairs, pairs_value, positional_pairs,
    print_line, read_variable, read_variable_field, regex_value, retain_present, EvalState,
};
use crate::text::{
    chars_of, concat2, concat3, str_eq, text_of, to_lowercase, to_uppercase, trim, trimmed,
    upper_of_char, Ordered,
};
use crate::value::{
    concat_args, lookup_first, pair_view, pairs_view, texts_view, to_number, values_view,
    EvalResult, EvalValue,
};

verus! {

/// The variables a list of bindings stands for: a later binding of a name
/// replaces an earlier one.
pub open spec fn bindings_map(s: Seq<(String, EvalResult)>) -> Map<Seq<char>, EvalValue>
    decreases s.len(),
{
    if s.len() == 0 {
        Map::empty()
    } else {
        bindings_map(s.drop_last()).insert(s.last().0@, s.last().1@)
    }
}

/// What one evaluation works with: the arena, the variables set so far, and
/// the templates.
pub struct MapperContext<'a> {
    pub(crate) expressions: &'a Vec<Expression>,
    pub(crate) variables: Vec<(String, EvalResult)>,
    pub(crate) templates: Option<&'a Vec<PatternTemplate>>,
    pub(crate) printed: Vec<String>,
}

/// The state a context and a record stand for.
pub open spec fn state_of(ctx: &MapperContext, accessor: &ValueAccessor) -> EvalState {
    EvalState { vars: ctx.vars(), fields: accessor@, printed: ctx.printed() }
}

/// The texts joined, with `sep` between two neighbours.
pub fn join(parts: &Vec<String>, sep: &str) -> (r: String)
    ensures
        r@ == join_texts(texts_view(parts@), sep@),
{
    let ghost all = texts_view(parts@);
    let mut out = String::new();
    let mut i: usize = 0;
    assert(all.take(0).len() == 0);
    while i < parts.len()
        invariant
            i <= parts.len(),
            all == texts_view(parts@),
            out@ == join_texts(all.take(i as int), sep@),
        decreases parts.len() - i,
    {
        let ghost next = all.take(i as int + 1);
        assert(next.drop_last() == all.take(i as int));
        assert(next.last() == parts@[i as int]@);
        if i > 0 {
            out.append(sep);
        }
        out.append(parts[i].as_str());
        proof {
            if i == 0 {
                assert(next[0] == next.last());
                assert(Seq::<char>::empty() + parts@[i as int]@ =~= parts@[i as int]@);
            }
        }
        i += 1;
    }
    assert(all.take(parts.len() as int) == all);
    out
}

/// A text with its first character in upper case.
pub fn capitalize(s: &str) -> (r: String)
    ensures
        r@ == capitalized(s@),
{
    let chars = chars_of(s);
    if chars.len() == 0 {
        return String::new();
    }
    let mut out = upper_of_char(chars[0]);
    let rest = text_of(&chars, 1, chars.len());
    out.append(rest.as_str());
    assert(s@.subrange(1, s@.len() as int) == s@.drop_first());
    out
}

fn trim_each(parts: &Vec<String>) -> (r: Vec<String>)
    ensures
        texts_view(r@) == texts_view(parts@).map_values(|p: Seq<char>| trimmed(p)),
{
    let mut out: Vec<String> = Vec::new();
    let mut i: usize = 0;
    while i < parts.len()
        invariant
            i <= parts.len(),
            out.len() == i,
            forall|j: int| 0 <= j < i ==> (#[trigger] out@[j])@ == trimmed(parts@[j]@),
        decreases parts.len() - i,
    {
        out.push(trim(parts[i].as_str()));
        i += 1;
    }
    assert(texts_view(out@) =~= texts_view(parts@).map_values(|p: Seq<char>| trimmed(p)));
    out
}

fn capitalize_each(parts: &Vec<String>) -> (r: Vec<String>)
    ensures
        texts_view(r@) == texts_view(parts@).map_values(|p: Seq<char>| capitalized(p)),
{
    let mut out: Vec<String> = Vec::new();
    let mut i: usize = 0;
    while i < parts.len()
        invariant
            i <= parts.len(),
            out.len() == i,
            forall|j: int| 0 <= j < i ==> (#[trigger] out@[j])@ == capitalized(parts@[j]@),
        decreases parts.len() - i,
    {
        out.push(capitalize(parts[i].as_str()));
        i += 1;
    }
    assert(texts_view(out@) =~= texts_view(parts@).map_values(|p: Seq<char>| capitalized(p)));
    out
}

/// The name a built-in function is reported under.
pub fn function_name(f: BuiltInFunction) -> (r: &'static str)
    ensures
        r@ == builtin_name(f),
{
    match f {
        BuiltInFunction::Concat => "Concat",
        BuiltInFunction::Uppercase => "Uppercase",
        BuiltInFunction::Lowercase => "Lowercase",
        BuiltInFunction::Capitalize => "Capitalize",
        BuiltInFunction::Trim => "Trim",
        BuiltInFunction::Print => "Print",
        BuiltInFunction::ToNumber => "ToNumber",
        BuiltInFunction::First => "First",
        BuiltInFunction::Template => "Template",
    }
}

fn find_failure(vals: &Vec<EvalResult>) -> (r: Option<&String>)
    ensures
        match first_failure(values_view(vals@)) {
            Some(m) => r is Some && r.unwrap()@ == m,
            None => r is None,
        },
{
    let ghost all = values_view(vals@);
    let mut i: usize = 0;
    assert(all.skip(0) == all);
    while i < vals.len()
        invariant
            i <= vals.len(),
            all == values_view(vals@),
            first_failure(all) == first_failure(all.skip(i as int)),
        decreases vals.len() - i,
    {
        let ghost rest = all.skip(i as int);
        assert(rest[0] == vals@[i as int]@);
        assert(rest.drop_first() == all.skip(i as int + 1));
        match &vals[i] {
            EvalResult::Failure(msg) => {
                return Some(msg);
            },
            _ => {},
        }
        i += 1;
    }
    None
}

fn retain_values(vals: &Vec<EvalResult>) -> (r: Vec<EvalResult>)
    ensures
        values_view(r@) == retain_present(values_view(vals@)),
{
    let ghost all = values_view(vals@);
    let mut out: Vec<EvalResult> = Vec::new();
    let mut i: usize = 0;
    assert(all.take(0).len() == 0);
    assert(values_view(out@) =~= retain_present(all.take(0)));
    while i < vals.len()
        invariant
            i <= vals.len(),
            all == values_view(vals@),
            values_view(out@) == retain_present(all.take(i as int)),
        decreases vals.len() - i,
    {
        let ghost next = all.take(i as int + 1);
        let ghost before = values_view(out@);
        assert(next.drop_last() == all.take(i as int));
        assert(next.last() == vals@[i as int]@);
        match &vals[i] {
            EvalResult::Undefined => {},
            EvalResult::Failure(_) => {},
            EvalResult::AnyValue => {},
            other => {
                let copy = other.clone();
                out.push(copy);
                assert(values_view(out@) =~= before.push(vals@[i as int]@));
            },
        }
        i += 1;
    }
    assert(all.take(vals.len() as int) == all);
    out
}

fn apply_builtin(
    name: BuiltInFunction,
    present: &Vec<EvalResult>,
    templates: Option<&Vec<PatternTemplate>>,
) -> (r: EvalResult)
    requires
        present.len() > 0,
    ensures
        r@ == apply_function(name, values_view(present@), registry_view(templates)),
{
    proof {
        reveal_strlit("");
        assert(""@ =~= Seq::<char>::empty());
    }
    match name {
        BuiltInFunction::Concat => EvalResult::Value(join(&concat_args(present), "")),
        BuiltInFunction::Uppercase => EvalResult::Value(
            to_uppercase(join(&concat_args(present), " ").as_str()),
        ),
        BuiltInFunction::Trim => {
            let joined = join(&trim_each(&concat_args(present)), " ");
            EvalResult::Value(trim(joined.as_str()))
        },
        BuiltInFunction::Lowercase => EvalResult::Value(
            to_lowercase(join(&concat_args(present), " ").as_str()),
        ),
        BuiltInFunction::Capitalize => EvalResult::Value(
            join(&capitalize_each(&concat_args(present)), " "),
        ),
        BuiltInFunction::Print => EvalResult::Undefined,
        BuiltInFunction::ToNumber => {
            let first = &present[0];
            assert(values_view(present@)[0] == first@);
            match first {
                EvalResult::Value(value) => to_number(value.as_str()),
                _ => first.clone(),
            }
        },
        BuiltInFunction::First => {
            let first = &present[0];
            assert(values_view(present@)[0] == first@);
            match first {
                EvalResult::Named(values) => {
                    if values.len() > 0 {
                        assert(pairs_view(values@)[0] == pair_view(values@[0]));
                        EvalResult::Value(values[0].1.clone())
                    } else {
                        EvalResult::Undefined
                    }
                },
                _ => first.clone(),
            }
        },
        BuiltInFunction::Template => {
            let first = &present[0];
            assert(values_view(present@)[0] == first@);
            let key: Option<&String> = match first {
                EvalResult::Value(value) => Some(value),
                EvalResult::Named(values) => {
                    if values.len() > 0 {
                        assert(pairs_view(values@)[0] == pair_view(values@[0]));
                        Some(&values[0].1)
                    } else {
                        None
                    }
                },
                _ => None,
            };
            match key {
                Some(k) => {
                    let found = match templates {
                        Some(list) => find_template(list, k.as_str()),
                        None => None,
                    };
                    match found {
                        Some(v) => EvalResult::Value(v.to_owned()),
                        None => EvalResult::Undefined,
                    }
                },
                None => EvalResult::Undefined,
            }
        },
    }
}

/// The line a call of a built-in function puts out, if any.
pub fn printed_line(name: BuiltInFunction, evaluated_args: &Vec<EvalResult>) -> (r: Option<String>)
    ensures
        match print_line(name, values_view(evaluated_args@)) {
            Some(line) => r is Some && r.unwrap()@ == line,
            None => r is None,
        },
{
    match name {
        BuiltInFunction::Print => {},
        _ => {
            return None;
        },
    }
    if find_failure(evaluated_args).is_some() {
        return None;
    }
    let present = retain_values(evaluated_args);
    if present.len() == 0 {
        Some("undefined".to_owned())
    } else {
        proof {
            reveal_strlit("");
            assert(""@ =~= Seq::<char>::empty());
        }
        Some(join(&concat_args(&present), ""))
    }
}

/// The result of a call of a built-in function on the values of its
/// arguments.
pub fn call_builtin(
    name: BuiltInFunction,
    evaluated_args: &Vec<EvalResult>,
    templates: Option<&Vec<PatternTemplate>>,
) -> (r: EvalResult)
    ensures
        r@ == call_result(name, values_view(evaluated_args@), registry_view(templates)),
{
    match find_failure(evaluated_args) {
        Some(msg) => {
            return EvalResult::Failure(
                concat2(concat3("Function '", function_name(name), "' failed: ").as_str(), msg.as_str()),
            );
        },
        None => {},
    }
    let present = retain_values(evaluated_args);
    if present.len() == 0 {
        EvalResult::Undefined
    } else {
        apply_builtin(name, &present, templates)
    }
}

fn push_match_pairs(
    values: &mut Vec<(String, String)>,
    groups: &Vec<Option<String>>,
    names: &Vec<Option<String>>,
)
    ensures
        pairs_view(final(values)@) == pairs_view(old(values)@) + match_pairs(
            groups_view(groups@),
            groups_view(names@),
        ),
{
    let ghost base = pairs_view(values@);
    let ghost gv = groups_view(groups@);
    let ghost nv = groups_view(names@);
    let mut i: usize = 1;
    assert(base + positional_pairs(gv, 1) =~= base);
    while i < groups.len()
        invariant
            1 <= i,
            i <= groups.len() || i == 1,
            gv == groups_view(groups@),
            pairs_view(values@) == base + positional_pairs(gv, i as int),
        decreases groups.len() - i,
    {
        let ghost before = pairs_view(values@);
        match &groups[i] {
            Some(m) => {
                let mut key = String::new();
                push_digits(&mut key, i as u128);
                assert(key@ =~= crate::number::digits_of(i as nat));
                values.push((key, m.clone()));
                assert(pairs_view(values@) =~= before.push((key@, m@)));
            },
            None => {},
        }
        i += 1;
        assert(pairs_view(values@) =~= base + positional_pairs(gv, i as int));
    }
    assert(positional_pairs(gv, i as int) == positional_pairs(gv, gv.len() as int));
    let ghost mid = pairs_view(values@);
    let mut j: usize = 0;
    assert(mid + named_pairs(gv, nv, 0) =~= mid);
    while j < names.len()
        invariant
            j <= names.len(),
            gv == groups_view(groups@),
            nv == groups_view(names@),
            pairs_view(values@) == mid + named_pairs(gv, nv, j as int),
        decreases names.len() - j,
    {
        let ghost before = pairs_view(values@);
        if j < groups.len() {
            match (&names[j], &groups[j]) {
                (Some(n), Some(m)) => {
                    values.push((n.clone(), m.clone()));
                    assert(pairs_view(values@) =~= before.push((n@, m@)));
                },
                _ => {},
            }
        }
        j += 1;
        assert(pairs_view(values@) =~= mid + named_pairs(gv, nv, j as int));
    }
    assert(pairs_view(values@) =~= base + match_pairs(gv, nv));
}

/// The pairs a pattern compiled the plain way captures in a text: for each
/// match the groups by index, then the groups by name.
pub fn captured_pairs(re: &Regex, text: &str) -> (r: Vec<(String, String)>)
    requires
        regex_plain(*re),
    ensures
        pairs_view(r@) == capture_pairs(
            regex_captures(regex_source(*re), text@),
            regex_group_names(regex_source(*re)),
            regex_captures(regex_source(*re), text@).len() as int,
        ),
{
    let captures = all_captures(re, text);
    let names = capture_names(re);
    let ghost cv = regex_captures(regex_source(*re), text@);
    let ghost nv = regex_group_names(regex_source(*re));
    let mut values: Vec<(String, String)> = Vec::new();
    let mut k: usize = 0;
    assert(pairs_view(values@) =~= capture_pairs(cv, nv, 0));
    assert(cv.len() == captures.len());
    while k < captures.len()
        invariant
            k <= captures.len(),
            cv == captures_view(captures@),
            nv == groups_view(names@),
            pairs_view(values@) == capture_pairs(cv, nv, k as int),
        decreases captures.len() - k,
    {
        assert(cv[k as int] == groups_view(captures@[k as int]@));
        push_match_pairs(&mut values, &captures[k], &names);
        k += 1;
    }
    values
}

/// The value a list of captured pairs gives.
pub fn pairs_result(values: Vec<(String, String)>) -> (r: EvalResult)
    ensures
        r@ == pairs_value(pairs_view(values@)),
{
    if values.len() == 0 {
        EvalResult::Undefined
    } else if values.len() == 1 {
        assert(pairs_view(values@)[0] == pair_view(values@[0]));
        EvalResult::Value(values[0].1.clone())
    } else {
        EvalResult::Named(values)
    }
}

fn first_value<'a>(pairs: &'a Vec<(String, String)>, key: &str) -> (r: Option<&'a String>)
    ensures
        match lookup_first(pairs_view(pairs@), key@) {
            Some(v) => r is Some && r.unwrap()@ == v,
            None => r is None,
        },
{
    let ghost all = pairs_view(pairs@);
    let mut i: usize = 0;
    assert(all.skip(0) == all);
    while i < pairs.len()
        invariant
            i <= pairs.len(),
            all == pairs_view(pairs@),
            lookup_first(all, key@) == lookup_first(all.skip(i as int), key@),
        decreases pairs.len() - i,
    {
        let ghost rest = all.skip(i as int);
        assert(rest[0] == pair_view(pairs@[i as int]));
        assert(rest.drop_first() == all.skip(i as int + 1));
        if str_eq(pairs[i].0.as_str(), key) {
            return Some(&pairs[i].1);
        }
        i += 1;
    }
    None
}

impl<'a> MapperContext<'a> {
    /// The arena this context evaluates.
    pub closed spec fn arena(&self) -> Seq<ExprView> {
        arena_view(self.expressions@)
    }

    /// The variables set so far.
    pub closed spec fn vars(&self) -> Map<Seq<char>, EvalValue> {
        bindings_map(self.variables@)
    }

    /// The lines printed so far.
    pub closed spec fn printed(&self) -> Seq<Seq<char>> {
        texts_view(self.printed@)
    }

    /// The template registry.
    pub closed spec fn templates(&self) -> Seq<TemplateView> {
        registry_view(self.templates)
    }

    /// The arena is well formed.
    pub closed spec fn wf(&self) -> bool {
        arena_ok(self.expressions@)
    }

    /// The two contexts evaluate the same arena with the same templates.
    pub closed spec fn same_program(&self, other: &MapperContext) -> bool {
        self.expressions == other.expressions && self.templates == other.templates
    }

    /// What the arena and its well-formedness are, in terms of the fields.
    pub(crate) proof fn lemma_fields(&self)
        ensures
            self.arena() == arena_view(self.expressions@),
            self.wf() == arena_ok(self.expressions@),
    {
    }

    /// Running the same program is reflexive and transitive.
    pub proof fn lemma_same_program_chain(&self, mid: &MapperContext, from: &MapperContext)
        ensures
            self.same_program(self),
            self.same_program(mid) && mid.same_program(from) ==> self.same_program(from),
    {
    }

    pub proof fn lemma_same_program(&self, other: &MapperContext)
        requires
            self.same_program(other),
        ensures
            self.arena() == other.arena(),
            self.templates() == other.templates(),
            self.wf() == other.wf(),
    {
    }

    pub(crate) fn new(
        expressions: &'a Vec<Expression>,
        templates: Option<&'a Vec<PatternTemplate>>,
    ) -> (r: Self)
        requires
            arena_ok(expressions@),
        ensures
            r.wf(),
            r.arena() == arena_view(expressions@),
            r.templates() == registry_view(templates),
            r.vars() == Map::<Seq<char>, EvalValue>::empty(),
            r.printed() == Seq::<Seq<char>>::empty(),
    {
        let r = MapperContext { expressions, variables: Vec::new(), templates, printed: Vec::new() };
        assert(r.printed() =~= Seq::<Seq<char>>::empty());
        r
    }

    /// Hands over the lines printed so far.
    pub fn take_printed(self) -> (r: Vec<String>)
        ensures
            texts_view(r@) == self.printed(),
    {
        self.printed
    }

    /// The text a template name resolves to.
    pub fn get_template(&self, name: &str) -> (r: Option<&'a str>)
        ensures
            match template_lookup(self.templates(), name@) {
                Some(v) => r is Some && r.unwrap()@ == v,
                None => r is None,
            },
    {
        match self.templates {
            None => None,
            Some(templates) => find_template(templates, name),
        }
    }

    /// Sets a variable.
    pub fn set_var(&mut self, name: &str, value: EvalResult)
        ensures
            final(self).vars() == old(self).vars().insert(name@, value@),
            final(self).printed() == old(self).printed(),
            final(self).same_program(old(self)),
    {
        let ghost before = self.variables@;
        self.variables.push((name.to_owned(), value));
        assert(self.variables@.drop_last() == before);
    }

    /// The value of a variable, if it is set.
    pub fn lookup_var(&self, name: &str) -> (r: Option<&EvalResult>)
        ensures
            match r {
                Some(v) => self.vars().contains_key(name@) && self.vars()[name@] == v@,
                None => !self.vars().contains_key(name@),
            },
    {
        let ghost all = self.variables@;
        let mut i: usize = self.variables.len();
        assert(all.take(i as int) == all);
        while i > 0
            invariant
                i <= self.variables.len(),
                all == self.variables@,
                bindings_map(all).contains_key(name@) == bindings_map(
                    all.take(i as int),
                ).contains_key(name@),
                bindings_map(all).contains_key(name@) ==> bindings_map(all)[name@] == bindings_map(
                    all.take(i as int),
                )[name@],
            decreases i,
        {
            let ghost cur = all.take(i as int);
            i -= 1;
            assert(cur.last() == all[i as int]);
            assert(cur.drop_last() == all.take(i as int));
            if str_eq(self.variables[i].0.as_str(), name) {
                return Some(&self.variables[i].1);
            }
        }
        assert(all.take(0).len() == 0);
        None
    }

    /// Puts out a line.
    pub fn print(&mut self, line: String)
        ensures
            final(self).printed() == old(self).printed().push(line@),
            final(self).vars() == old(self).vars(),
            final(self).same_program(old(self)),
    {
        self.printed.push(line);
        assert(texts_view(self.printed@) =~= texts_view(old(self).printed@).push(line@));
    }

    /// Whether a variable is set.
    pub fn has_var(&self, name: &str) -> (r: bool)
        ensures
            r == self.vars().contains_key(name@),
    {
        self.lookup_var(name).is_some()
    }

    /// The value of a variable; `Undefined` where it is not set.
    pub fn get_var(&self, name: &str) -> (r: EvalResult)
        ensures
            r@ == if self.vars().contains_key(name@) {
                self.vars()[name@]
            } else {
                EvalValue::Undefined
            },
    {
        match self.lookup_var(name) {
            Some(v) => v.clone(),
            None => EvalResult::Undefined,
        }
    }

    fn read_identifier(&self, name: &str) -> (r: EvalResult)
        ensures
            r@ == read_variable(self.vars(), name@),
    {
        match self.lookup_var(name) {
            Some(v) => v.clone(),
            None => EvalResult::Failure(concat3("Variable with name ", name, " not found.")),
        }
    }

    fn read_var_field(&self, name: &str, field: &str) -> (r: EvalResult)
        ensures
            r@ == read_variable_field(self.vars(), name@, field@),
    {
        match self.lookup_var(name) {
            None => EvalResult::Failure(concat3("Variable with name ", name, " not found.")),
            Some(value) => match value {
                EvalResult::Undefined => EvalResult::Undefined,
                EvalResult::Number(_) => EvalResult::Failure(
                    concat3("Variable with name ", name, " has no fields."),
                ),
                EvalResult::Value(_) => EvalResult::Failure(
                    concat3("Variable with name ", name, " has no fields."),
                ),
                EvalResult::Named(values) => match first_value(values, field) {
                    Some(val) => EvalResult::Value(val.clone()),
                    None => {
                        let head = concat3("Variable with name ", name, " has no field ");
                        EvalResult::Failure(concat3(head.as_str(), field, "."))
                    },
                },
                _ => value.clone(),
            },
        }
    }

    fn match_fires(&self, keys: &Vec<MatchCaseKey>) -> (r: bool)
        ensures
            r == match_case_fires(match_keys_view(keys@), self.vars()),
    {
        let ghost kv = match_keys_view(keys@);
        let mut i: usize = 0;
        while i < keys.len()
            invariant
                i <= keys.len(),
                kv == match_keys_view(keys@),
                forall|j: int| 0 <= j < i ==> match_key_fires(#[trigger] kv[j], self.vars()),
            decreases keys.len() - i,
        {
            assert(kv[i as int] == keys@[i as int]@);
            let fires = match &keys[i] {
                MatchCaseKey::Identifier(ident) => match self.lookup_var(ident.as_str()) {
                    Some(v) => match v {
                        EvalResult::Undefined => false,
                        EvalResult::Failure(_) => false,
                        _ => true,
                    },
                    None => false,
                },
                MatchCaseKey::AnyMatch => true,
            };
            if !fires {
                return false;
            }
            i += 1;
        }
        true
    }

    /// The expression at `id`, evaluated; `Undefined` where there is none.
    pub fn eval_expr_by_id(&mut self, id: usize, accessor: &mut ValueAccessor) -> (r: EvalResult)
        requires
            old(self).wf(),
        ensures
            final(self).wf(),
            final(self).same_program(old(self)),
            (r@, state_of(final(self), final(accessor))) == eval_id(
                old(self).arena(),
                old(self).templates(),
                id as int,
                state_of(old(self), old(accessor)),
            ),
        decreases id, 5int,
    {
        let expressions = self.expressions;
        if id >= expressions.len() {
            return EvalResult::Undefined;
        }
        let expr = &expressions[id];
        proof {
            assert(arena_view(expressions@)[id as int] == expr@);
            lemma_ids_bound_nonneg(crate::ast::children(expr@));
        }
        expr.eval(self, accessor)
    }
}

fn key_matches(key: &MapCaseKey, key_value: &EvalResult) -> (r: bool)
    ensures
        r == map_key_matches(key@, key_value@),
{
    match key {
        MapCaseKey::Text(value) => key_value.matches(&EvalResult::Value(value.clone())),
        MapCaseKey::AnyMatch => true,
        MapCaseKey::RangeFrom(num) => match key_value.order_with(&EvalResult::Number(*num)) {
            None => false,
            Some(ord) => match ord {
                Ordered::Less => false,
                _ => true,
            },
        },
        MapCaseKey::RangeTo(num) => match key_value.order_with(&EvalResult::Number(*num)) {
            None => false,
            Some(ord) => match ord {
                Ordered::Greater => false,
                _ => true,
            },
        },
        MapCaseKey::RangeFull(from, to) => match key_value.order_with(&EvalResult::Number(*from)) {
            None => false,
            Some(ord) => match ord {
                Ordered::Less => false,
                _ => match key_value.order_with(&EvalResult::Number(*to)) {
                    None => false,
                    Some(ord) => match ord {
                        Ordered::Greater => false,
                        _ => true,
                    },
                },
            },
        },
        MapCaseKey::RangeEq(num) => match key_value.order_with(&EvalResult::Number(*num)) {
            None => false,
            Some(ord) => match ord {
                Ordered::Equal => true,
                _ => false,
            },
        },
    }
}

fn map_fires(keys: &Vec<MapCaseKey>, key_value: &EvalResult) -> (r: bool)
    ensures
        r == map_case_fires(map_keys_view(keys@), key_value@),
{
    let ghost kv = map_keys_view(keys@);
    let mut i: usize = 0;
    while i < keys.len()
        invariant
            i <= keys.len(),
            kv == map_keys_view(keys@),
            forall|j: int| 0 <= j < i ==> !map_key_matches(#[trigger] kv[j], key_value@),
        decreases keys.len() - i,
    {
        assert(kv[i as int] == keys@[i as int]@);
        if key_matches(&keys[i], key_value) {
            return true;
        }
        i += 1;
    }
    false
}

fn write_field(accessor: &mut ValueAccessor, name: &str, val: EvalResult) -> (r: EvalResult)
    ensures
        (r@, final(accessor)@) == assign_field(old(accessor)@, name@, val@),
{
    proof {
        reveal_strlit("");
        assert(""@ =~= Seq::<char>::empty());
    }
    match val {
        EvalResult::Value(content) => {
            accessor.set(name, content.as_str());
            EvalResult::Undefined
        },
        EvalResult::Number(num) => {
            accessor.set(name, format_number(num).as_str());
            EvalResult::Undefined
        },
        EvalResult::Named(pairs) => {
            let mut pieces: Vec<String> = Vec::new();
            crate::value::push_named_pieces(&mut pieces, &pairs);
            assert(texts_view(pieces@) =~= crate::value::named_pieces(pairs_view(pairs@)));
            let text = join(&pieces, "");
            accessor.set(name, text.as_str());
            EvalResult::Undefined
        },
        EvalResult::Failure(err) => {
            let head = concat3("Failed to set field ", name, " value: ");
            EvalResult::Failure(concat2(head.as_str(), err.as_str()))
        },
        _ => EvalResult::Undefined,
    }
}

fn eval_regex(
    field: &RegexSource,
    re: &Regex,
    ctx: &MapperContext,
    accessor: &ValueAccessor,
) -> (r: EvalResult)
    requires
        regex_plain(*re),
    ensures
        r@ == regex_value(field@, regex_source(*re), state_of(ctx, accessor)),
{
    match field {
        RegexSource::Identifier(ident) => match ctx.lookup_var(ident.as_str()) {
            Some(v) => match v {
                EvalResult::Value(text) => pairs_result(captured_pairs(re, text.as_str())),
                _ => EvalResult::Undefined,
            },
            None => EvalResult::Undefined,
        },
        RegexSource::Field(name) => match accessor.get(name.as_str()) {
            Some(text) => pairs_result(captured_pairs(re, text)),
            None => EvalResult::Undefined,
        },
    }
}

fn eval_args(
    args: &Vec<ExprId>,
    ctx: &mut MapperContext,
    accessor: &mut ValueAccessor,
    Ghost(bound): Ghost<int>,
) -> (r: Vec<EvalResult>)
    requires
        old(ctx).wf(),
        ids_bound(ids_view(args@)) <= bound,
    ensures
        final(ctx).wf(),
        final(ctx).same_program(old(ctx)),
        (values_view(r@), state_of(final(ctx), final(accessor))) == eval_args_from(
            old(ctx).arena(),
            old(ctx).templates(),
            ids_view(args@),
            0,
            bound,
            state_of(old(ctx), old(accessor)),
            Seq::empty(),
        ),
    decreases bound, 3int,
{
    let ghost ids = ids_view(args@);
    let ghost arena = ctx.arena();
    let ghost tpl = ctx.templates();
    let ghost st0 = state_of(ctx, accessor);
    let mut out: Vec<EvalResult> = Vec::new();
    let mut i: usize = 0;
    assert(values_view(out@) =~= Seq::<EvalValue>::empty());
    while i < args.len()
        invariant
            i <= args.len(),
            ids == ids_view(args@),
            ids_bound(ids) <= bound,
            ctx.wf(),
            ctx.arena() == arena,
            ctx.templates() == tpl,
            ctx.same_program(old(ctx)),
            eval_args_from(arena, tpl, ids, i as int, bound, state_of(ctx, accessor), values_view(out@))
                == eval_args_from(arena, tpl, ids, 0, bound, st0, Seq::empty()),
        decreases args.len() - i,
    {
        let ghost before = values_view(out@);
        proof {
            lemma_ids_bound(ids, i as int);
            assert(ids[i as int] == args@[i as int]@);
        }
        let ghost mid = *ctx;
        let ghost st = state_of(ctx, accessor);
        let v = args[i].eval(ctx, accessor);
        proof {
            ctx.lemma_same_program(&mid);
            let step = eval_child(arena, tpl, ids[i as int], bound, st);
            assert(step == eval_id(arena, tpl, ids[i as int], st));
            assert(eval_args_from(arena, tpl, ids, i as int, bound, st, before) == eval_args_from(
                arena,
                tpl,
                ids,
                i as int + 1,
                bound,
                step.1,
                before.push(step.0),
            ));
        }
        out.push(v);
        assert(values_view(out@) =~= before.push(v@));
        i += 1;
    }
    out
}

fn eval_block(
    ids: &Vec<ExprId>,
    ctx: &mut MapperContext,
    accessor: &mut ValueAccessor,
    Ghost(bound): Ghost<int>,
) -> (r: EvalResult)
    requires
        old(ctx).wf(),
        ids_bound(ids_view(ids@)) <= bound,
    ensures
        final(ctx).wf(),
        final(ctx).same_program(old(ctx)),
        (r@, state_of(final(ctx), final(accessor))) == eval_block_from(
            old(ctx).arena(),
            old(ctx).templates(),
            ids_view(ids@),
            0,
            bound,
            state_of(old(ctx), old(accessor)),
            EvalValue::Undefined,
        ),
    decreases bound, 3int,
{
    let ghost idv = ids_view(ids@);
    let ghost arena = ctx.arena();
    let ghost tpl = ctx.templates();
    let ghost st0 = state_of(ctx, accessor);
    let mut result = EvalResult::Undefined;
    let mut i: usize = 0;
    while i < ids.len()
        invariant
            i <= ids.len(),
            idv == ids_view(ids@),
            ids_bound(idv) <= bound,
            ctx.wf(),
            ctx.arena() == arena,
            ctx.templates() == tpl,
            ctx.same_program(old(ctx)),
            eval_block_from(arena, tpl, idv, i as int, bound, state_of(ctx, accessor), result@)
                == eval_block_from(arena, tpl, idv, 0, bound, st0, EvalValue::Undefined),
        decreases ids.len() - i,
    {
        proof {
            lemma_ids_bound(idv, i as int);
            assert(idv[i as int] == ids@[i as int]@);
        }
        let ghost mid = *ctx;
        let ghost st = state_of(ctx, accessor);
        let ghost last = result@;
        result = ids[i].eval(ctx, accessor);
        proof {
            ctx.lemma_same_program(&mid);
            let step = eval_child(arena, tpl, idv[i as int], bound, st);
            assert(step == eval_id(arena, tpl, idv[i as int], st));
            assert(eval_block_from(arena, tpl, idv, i as int, bound, st, last) == eval_block_from(
                arena,
                tpl,
                idv,
                i as int + 1,
                bound,
                step.1,
                step.0,
            ));
        }
        i += 1;
    }
    result
}

fn eval_match(
    cases: &Vec<MatchCase>,
    ctx: &mut MapperContext,
    accessor: &mut ValueAccessor,
    Ghost(bound): Ghost<int>,
) -> (r: EvalResult)
    requires
        old(ctx).wf(),
        ids_bound(match_case_ids(match_cases_view(cases@))) <= bound,
    ensures
        final(ctx).wf(),
        final(ctx).same_program(old(ctx)),
        (r@, state_of(final(ctx), final(accessor))) == eval_match_from(
            old(ctx).arena(),
            old(ctx).templates(),
            match_cases_view(cases@),
            0,
            bound,
            state_of(old(ctx), old(accessor)),
        ),
    decreases bound, 3int,
{
    let ghost cv = match_cases_view(cases@);
    let ghost st0 = state_of(ctx, accessor);
    let mut i: usize = 0;
    while i < cases.len()
        invariant
            i <= cases.len(),
            cv == match_cases_view(cases@),
            ids_bound(match_case_ids(cv)) <= bound,
            ctx.wf(),
            *ctx == *old(ctx),
            *accessor == *old(accessor),
            st0 == state_of(ctx, accessor),
            eval_match_from(ctx.arena(), ctx.templates(), cv, i as int, bound, st0) == eval_match_from(
                ctx.arena(),
                ctx.templates(),
                cv,
                0,
                bound,
                st0,
            ),
        decreases cases.len() - i,
    {
        assert(cv[i as int] == cases@[i as int]@);
        if ctx.match_fires(&cases[i].keys) {
            proof {
                lemma_ids_bound(match_case_ids(cv), i as int);
                assert(eval_match_from(ctx.arena(), ctx.templates(), cv, i as int, bound, st0)
                    == eval_child(ctx.arena(), ctx.templates(), cv[i as int].expression, bound, st0));
                assert(eval_child(ctx.arena(), ctx.templates(), cv[i as int].expression, bound, st0)
                    == eval_id(ctx.arena(), ctx.templates(), cv[i as int].expression, st0));
            }
            return cases[i].expression.eval(ctx, accessor);
        }
        assert(eval_match_from(ctx.arena(), ctx.templates(), cv, i as int, bound, st0)
            == eval_match_from(ctx.arena(), ctx.templates(), cv, i as int + 1, bound, st0));
        i += 1;
    }
    EvalResult::Undefined
}

fn eval_map(
    key: &MapKey,
    cases: &Vec<MapCase>,
    ctx: &mut MapperContext,
    accessor: &mut ValueAccessor,
    Ghost(bound): Ghost<int>,
) -> (r: EvalResult)
    requires
        old(ctx).wf(),
        ids_bound(map_case_ids(map_cases_view(cases@))) <= bound,
    ensures
        final(ctx).wf(),
        final(ctx).same_program(old(ctx)),
        (r@, state_of(final(ctx), final(accessor))) == eval_map_from(
            old(ctx).arena(),
            old(ctx).templates(),
            map_cases_view(cases@),
            0,
            bound,
            map_key_value(key@, state_of(old(ctx), old(accessor))),
            state_of(old(ctx), old(accessor)),
        ),
    decreases bound, 3int,
{
    let ghost cv = map_cases_view(cases@);
    let ghost st0 = state_of(ctx, accessor);
    let key_value = match key {
        MapKey::Identifier(ident) => ctx.read_identifier(ident.as_str()),
        MapKey::FieldAccess(field) => match accessor.get(field.as_str()) {
            Some(val) => EvalResult::Value(val.to_owned()),
            None => EvalResult::Undefined,
        },
        MapKey::VarAccess(name, field) => ctx.read_var_field(name.as_str(), field.as_str()),
    };
    let mut i: usize = 0;
    while i < cases.len()
        invariant
            i <= cases.len(),
            cv == map_cases_view(cases@),
            ids_bound(map_case_ids(cv)) <= bound,
            ctx.wf(),
            *ctx == *old(ctx),
            *accessor == *old(accessor),
            st0 == state_of(ctx, accessor),
            key_value@ == map_key_value(key@, st0),
            eval_map_from(ctx.arena(), ctx.templates(), cv, i as int, bound, key_value@, st0)
                == eval_map_from(ctx.arena(), ctx.templates(), cv, 0, bound, key_value@, st0),
        decreases cases.len() - i,
    {
        assert(cv[i as int] == cases@[i as int]@);
        if map_fires(&cases[i].keys, &key_value) {
            proof {
                lemma_ids_bound(map_case_ids(cv), i as int);
                assert(eval_map_from(
                    ctx.arena(),
                    ctx.templates(),
                    cv,
                    i as int,
                    bound,
                    key_value@,
                    st0,
                ) == eval_child(ctx.arena(), ctx.templates(), cv[i as int].expression, bound, st0));
                assert(eval_child(ctx.arena(), ctx.templates(), cv[i as int].expression, bound, st0)
                    == eval_id(ctx.arena(), ctx.templates(), cv[i as int].expression, st0));
            }
            return cases[i].expression.eval(ctx, accessor);
        }
        assert(eval_map_from(ctx.arena(), ctx.templates(), cv, i as int, bound, key_value@, st0)
            == eval_map_from(ctx.arena(), ctx.templates(), cv, i as int + 1, bound, key_value@, st0));
        i += 1;
    }
    EvalResult::Undefined
}

impl ExprId {
    /// The expression this index names, evaluated.
    pub fn eval(self, ctx: &mut MapperContext, accessor: &mut ValueAccessor) -> (r: EvalResult)
        requires
            old(ctx).wf(),
        ensures
            final(ctx).wf(),
            final(ctx).same_program(old(ctx)),
            (r@, state_of(final(ctx), final(accessor))) == eval_id(
                old(ctx).arena(),
                old(ctx).templates(),
                self@,
                state_of(old(ctx), old(accessor)),
            ),
        decreases self.0, 6int,
    {
        let id = self.0;
        ctx.eval_expr_by_id(id, accessor)
    }
}

impl Expression {
    /// A regular expression node holds the form of its own pattern that was
    /// compiled the plain way.
    pub open spec fn compiled(&self) -> bool {
        self matches Expression::RegexExpr { field, pattern, re_pattern } ==> built_from(
            *re_pattern,
            pattern@,
        )
    }

    /// Evaluates the expression: its value, with the variables and the record
    /// changed as the expression says.
    pub fn eval(&self, ctx: &mut MapperContext, accessor: &mut ValueAccessor) -> (r: EvalResult)
        requires
            old(ctx).wf(),
            self.compiled(),
        ensures
            final(ctx).wf(),
            final(ctx).same_program(old(ctx)),
            (r@, state_of(final(ctx), final(accessor))) == eval_expr(
                old(ctx).arena(),
                old(ctx).templates(),
                self@,
                state_of(old(ctx), old(accessor)),
            ),
        decreases expr_rank(self@), 4int,
    {
        let ghost bound = expr_rank(self@);
        match self {
            Expression::NullValue => EvalResult::Undefined,
            Expression::Identifier(name) => ctx.read_identifier(name.as_str()),
            Expression::FieldAccess(field) => match accessor.get(field.as_str()) {
                Some(val) => EvalResult::Value(val.to_owned()),
                None => EvalResult::Undefined,
            },
            Expression::VarAccess(name, field) => ctx.read_var_field(name.as_str(), field.as_str()),
            Expression::StringLiteral(s) => EvalResult::Value(s.clone()),
            Expression::NumberLiteral(num) => EvalResult::Number(*num),
            Expression::RegexExpr { field, pattern, re_pattern } => eval_regex(
                field,
                re_pattern,
                ctx,
                accessor,
            ),
            Expression::Assignment { target, expr } => {
                proof {
                    lemma_ids_bound(seq![expr@], 0);
                }
                let val = expr.eval(ctx, accessor);
                match target {
                    AssignmentTarget::Identifier(name) => {
                        ctx.set_var(name.as_str(), val);
                        EvalResult::Undefined
                    },
                    AssignmentTarget::Field(name) => write_field(accessor, name.as_str(), val),
                }
            },
            Expression::FunctionCall { name, args } => {
                let evaluated_args = eval_args(args, ctx, accessor, Ghost(bound));
                match printed_line(*name, &evaluated_args) {
                    Some(line) => {
                        ctx.print(line);
                    },
                    None => {},
                }
                call_builtin(*name, &evaluated_args, ctx.templates)
            },
            Expression::MatchBlock(cases) => eval_match(cases, ctx, accessor, Ghost(bound)),
            Expression::MapBlock { key, cases } => eval_map(key, cases, ctx, accessor, Ghost(bound)),
            Expression::Block(expressions) => eval_block(expressions, ctx, accessor, Ghost(bound)),
        }
    }
}

impl Statement {
    /// Runs the statement. What it evaluates to is dropped; of a failure the
    /// message is handed back.
    pub fn eval(&self, ctx: &mut MapperContext, setter: &mut ValueAccessor) -> (failure: Option<
        String,
    >)
        requires
            old(ctx).wf(),
        ensures
            final(ctx).wf(),
            final(ctx).same_program(old(ctx)),
            match self@ {
                crate::ast::StatementView::Expression(id) => {
                    let (v, st1) = eval_id(
                        old(ctx).arena(),
                        old(ctx).templates(),
                        id,
                        state_of(old(ctx), old(setter)),
                    );
                    &&& state_of(final(ctx), final(setter)) == st1
                    &&& match v {
                        EvalValue::Failure(msg) => failure is Some && failure.unwrap()@ == msg,
                        _ => failure is None,
                    }
                },
                crate::ast::StatementView::Comment => state_of(final(ctx), final(setter))
                    == state_of(old(ctx), old(setter)) && failure is None,
            },
    {
        match self {
            Statement::Expression(expr_id) => {
                let result = expr_id.eval(ctx, setter);
                match result {
                    EvalResult::Failure(err) => Some(err),
                    _ => None,
                }
            },
            Statement::Comment => None,
        }
    }
}

} // verus!

//! A compiled script: parsed once, validated, and run against many records.
use vstd::prelude::*;
use vstd::string::StringExecFns;
use crate::accessor::{registry_view, PatternTemplate, ValueAccessor};
use crate::ast::{
    arena_ok, arena_ordered, arena_view, clone_arena, lemma_patterns_compiled, patterns_compiled,
    statements_ok, statements_view, ExprView, Expression,
    Statement, StatementView,
};
use crate::error::{info_err, TuliproxError, TuliproxErrorKind};
use crate::eval::{function_name, state_of, MapperContext};
use crate::grammar::{parse_source, ScriptErrorView};
use crate::number::{digits_of, format_number, format_units, push_digits};
use crate::parser::{parse_text, ScriptError};
use crate::semantics::{
    builtin_name, run_failures, run_script, run_statements, script_failures, script_output,
    start_state,
};
use crate::text::{concat2, concat3};
use crate::validation::{lemma_fault_stays, script_valid, validate_statements};
use crate::value::{texts_view, EvalValue};

verus! {

/// The message an error is reported with.
pub open spec fn error_message(e: ScriptErrorView) -> Seq<char> {
    match e {
        ScriptErrorView::Syntax(offset) => "Syntax error at offset "@ + digits_of(offset as nat),
        ScriptErrorView::InvalidNumber(text) => "Invalid number "@ + text,
        ScriptErrorView::InvalidRegex(pattern) => "Invalid regex "@ + pattern,
        ScriptErrorView::UnexpectedMatchKey => "Unexpected match case key: _"@,
        ScriptErrorView::UnknownIdentifier(name) => "Identifier unknown "@ + name,
        ScriptErrorView::NoArguments(f) => "Function needs at least one argument "@ + builtin_name(
            f,
        ),
        ScriptErrorView::TooManyArguments(f, n) => "Function accepts only one argument "@
            + builtin_name(f) + ", "@ + digits_of(n as nat) + " given"@,
        ScriptErrorView::DuplicateAnyMatch => "Match case can only have one '_'"@,
        ScriptErrorView::DuplicateMapAnyMatch => "Map case can only have one '_'"@,
        ScriptErrorView::DuplicateCase(key) => "Duplicate case "@ + key,
        ScriptErrorView::InvalidRange(a, b) => "Invalid range "@ + format_units(a) + ".."@
            + format_units(b),
        ScriptErrorView::MissingExpression(i) => "No matching expression found at index "@
            + digits_of(i as nat),
    }
}

fn number_text(n: usize) -> (r: String)
    ensures
        r@ == digits_of(n as nat),
{
    let mut out = String::new();
    push_digits(&mut out, n as u128);
    assert(out@ =~= digits_of(n as nat));
    out
}

impl ScriptError {
    /// The message the error is reported with.
    pub fn message(&self) -> (r: String)
        ensures
            r@ == error_message(self@),
    {
        match self {
            ScriptError::Syntax(offset) => concat2(
                "Syntax error at offset ",
                number_text(*offset).as_str(),
            ),
            ScriptError::InvalidNumber(text) => concat2("Invalid number ", text.as_str()),
            ScriptError::InvalidRegex(pattern) => concat2("Invalid regex ", pattern.as_str()),
            ScriptError::UnexpectedMatchKey => "Unexpected match case key: _".to_owned(),
            ScriptError::UnknownIdentifier(name) => concat2("Identifier unknown ", name.as_str()),
            ScriptError::NoArguments(f) => concat2(
                "Function needs at least one argument ",
                function_name(*f),
            ),
            ScriptError::TooManyArguments(f, n) => {
                let mut out = concat3(
                    "Function accepts only one argument ",
                    function_name(*f),
                    ", ",
                );
                out.append(number_text(*n).as_str());
                out.append(" given");
                out
            },
            ScriptError::DuplicateAnyMatch => "Match case can only have one '_'".to_owned(),
            ScriptError::DuplicateMapAnyMatch => "Map case can only have one '_'".to_owned(),
            ScriptError::DuplicateCase(key) => concat2("Duplicate case ", key.as_str()),
            ScriptError::InvalidRange(a, b) => {
                let mut out = concat3("Invalid range ", format_number(*a).as_str(), "..");
                out.append(format_number(*b).as_str());
                out
            },
            ScriptError::MissingExpression(i) => concat2(
                "No matching expression found at index ",
                number_text(*i).as_str(),
            ),
        }
    }
}

/// What compiling a source text gives: what it parses to, where that
/// validates; else the first error of parsing or of validation.
pub open spec fn compile_source(s: Seq<char>) -> Result<
    (Seq<ExprView>, Seq<StatementView>),
    ScriptErrorView,
> {
    match parse_source(s) {
        Ok((arena, stmts)) => match validate_statements(arena, stmts, Seq::empty()) {
            Ok(_) => Ok((arena, stmts)),
            Err(e) => Err(e),
        },
        Err(e) => Err(e),
    }
}

/// What a run of a script has to report.
#[derive(Debug)]
pub struct RunReport {
    /// The messages of the statements that failed, in order.
    pub failures: Vec<String>,
    /// The lines the script printed, in order.
    pub printed: Vec<String>,
}

/// A script ready to run: the arena of its expressions and its statements.
#[derive(Debug)]
pub struct MapperScript {
    expressions: Vec<Expression>,
    statements: Vec<Statement>,
}

impl Clone for MapperScript {
    fn clone(&self) -> (r: Self)
        ensures
            r.arena() == self.arena(),
            r.statements() == self.statements(),
    {
        proof {
            use_type_invariant(self);
        }
        let expressions = clone_arena(&self.expressions);
        let mut statements: Vec<Statement> = Vec::new();
        let mut i: usize = 0;
        while i < self.statements.len()
            invariant
                i <= self.statements.len(),
                statements.len() == i,
                forall|j: int| 0 <= j < i ==> statements@[j] == self.statements@[j],
            decreases self.statements.len() - i,
        {
            statements.push(self.statements[i]);
            i += 1;
        }
        assert(statements_view(statements@) =~= statements_view(self.statements@));
        assert(arena_view(expressions@).len() == expressions.len());
        assert(arena_view(self.expressions@).len() == self.expressions.len());
        MapperScript { expressions, statements }
    }
}

impl MapperScript {
    #[verifier::type_invariant]
    spec fn well_formed(self) -> bool {
        arena_ok(self.expressions@) && statements_ok(
            statements_view(self.statements@),
            self.expressions.len() as int,
        )
    }

    /// The arena of the script.
    pub closed spec fn arena(&self) -> Seq<ExprView> {
        arena_view(self.expressions@)
    }

    /// The statements of the script.
    pub closed spec fn statements(&self) -> Seq<StatementView> {
        statements_view(self.statements@)
    }

    /// The expressions of the script, in the order of the arena: every one
    /// refers to earlier ones only, and every regular expression is compiled
    /// from its own pattern.
    pub fn expressions(&self) -> (r: &Vec<Expression>)
        ensures
            arena_view(r@) == self.arena(),
            arena_ok(r@),
            arena_ordered(self.arena()),
            patterns_compiled(self.arena()),
    {
        proof {
            use_type_invariant(self);
            lemma_patterns_compiled(self.expressions@);
        }
        &self.expressions
    }

    /// The statements of the script, in order.
    pub fn statement_list(&self) -> (r: &Vec<Statement>)
        ensures
            statements_view(r@) == self.statements(),
            statements_ok(self.statements(), self.arena().len() as int),
    {
        proof {
            use_type_invariant(self);
        }
        &self.statements
    }

    /// Validates the statements in order: every identifier is assigned before
    /// it is read, every call has arguments, no case repeats another.
    pub fn validate(expressions: &Vec<Expression>, statements: &Vec<Statement>) -> (r: Result<
        (),
        ScriptError,
    >)
        requires
            arena_ok(expressions@),
        ensures
            match validate_statements(
                arena_view(expressions@),
                statements_view(statements@),
                Seq::empty(),
            ) {
                Ok(_) => r is Ok,
                Err(e) => r matches Err(x) && x@ == e,
            },
    {
        let ctx = MapperContext::new(expressions, None);
        let ghost arena = arena_view(expressions@);
        let ghost stmts = statements_view(statements@);
        let mut identifiers: Vec<String> = Vec::new();
        assert(texts_view(identifiers@) =~= Seq::<Seq<char>>::empty());
        let mut i: usize = 0;
        assert(stmts.take(0).len() == 0);
        while i < statements.len()
            invariant
                i <= statements.len(),
                ctx.wf(),
                ctx.arena() == arena,
                arena == arena_view(expressions@),
                stmts == statements_view(statements@),
                validate_statements(arena, stmts.take(i as int), Seq::empty()) == Ok::<
                    Seq<Seq<char>>,
                    ScriptErrorView,
                >(
                    texts_view(identifiers@),
                ),
            decreases statements.len() - i,
        {
            let ghost next = stmts.take(i as int + 1);
            assert(next.drop_last() == stmts.take(i as int));
            assert(next.last() == statements@[i as int]@);
            match statements[i] {
                Statement::Expression(expr) => {
                    match ctx.validate_expr(expr, &mut identifiers) {
                        Ok(_) => {},
                        Err(e) => {
                            proof {
                                lemma_fault_stays(arena, stmts, i as int + 1);
                            }
                            return Err(e);
                        },
                    }
                },
                Statement::Comment => {},
            }
            i += 1;
        }
        assert(stmts.take(statements.len() as int) == stmts);
        Ok(())
    }

    /// Parses a source text without validating it.
    pub fn parse_unchecked(input: &str) -> (r: Result<MapperScript, ScriptError>)
        ensures
            match parse_source(input@) {
                Ok((arena, stmts)) => r matches Ok(script) && script.arena() == arena
                    && script.statements() == stmts && arena_ordered(arena) && statements_ok(
                    stmts,
                    arena.len() as int,
                ) && patterns_compiled(arena),
                Err(e) => r matches Err(x) && x@ == e,
            },
    {
        match parse_text(input) {
            Ok((expressions, statements)) => {
                proof {
                    lemma_patterns_compiled(expressions@);
                }
                Ok(MapperScript { expressions, statements })
            },
            Err(e) => Err(e),
        }
    }

    /// Compiles a source text: parses it and validates what it parses to.
    pub fn compile(input: &str) -> (r: Result<MapperScript, ScriptError>)
        ensures
            match compile_source(input@) {
                Ok((arena, stmts)) => r matches Ok(script) && script.arena() == arena
                    && script.statements() == stmts && arena_ordered(arena) && statements_ok(
                    stmts,
                    arena.len() as int,
                ) && patterns_compiled(arena) && script_valid(arena, stmts),
                Err(e) => r matches Err(x) && x@ == e,
            },
    {
        match parse_text(input) {
            Ok((expressions, statements)) => {
                proof {
                    lemma_patterns_compiled(expressions@);
                }
                match MapperScript::validate(&expressions, &statements) {
                    Ok(_) => Ok(MapperScript { expressions, statements }),
                    Err(e) => Err(e),
                }
            },
            Err(e) => Err(e),
        }
    }

    /// Compiles a source text; an error comes with its message.
    pub fn parse(input: &str, templates: Option<&Vec<PatternTemplate>>) -> (r: Result<
        MapperScript,
        TuliproxError,
    >)
        ensures
            match compile_source(input@) {
                Ok((arena, stmts)) => r matches Ok(script) && script.arena() == arena
                    && script.statements() == stmts && arena_ordered(arena) && statements_ok(
                    stmts,
                    arena.len() as int,
                ) && patterns_compiled(arena) && script_valid(arena, stmts),
                Err(e) => r matches Err(x) && x.kind == TuliproxErrorKind::Info && x.message@
                    == error_message(e),
            },
    {
        match MapperScript::compile(input) {
            Ok(script) => Ok(script),
            Err(e) => Err(info_err(e.message())),
        }
    }

    /// A context to evaluate the expressions of the script in: without
    /// variables, with nothing printed.
    pub fn context<'a>(&'a self, templates: Option<&'a Vec<PatternTemplate>>) -> (ctx: MapperContext<
        'a,
    >)
        ensures
            ctx.wf(),
            ctx.arena() == self.arena(),
            ctx.templates() == registry_view(templates),
            ctx.vars() == Map::<Seq<char>, EvalValue>::empty(),
            ctx.printed() == Seq::<Seq<char>>::empty(),
    {
        proof {
            use_type_invariant(self);
        }
        MapperContext::new(&self.expressions, templates)
    }

    /// Runs the script on a record. The record afterwards is a function of
    /// the script, the record before and the templates alone: every run
    /// starts without variables.
    pub fn eval(&self, setter: &mut ValueAccessor, templates: Option<&Vec<PatternTemplate>>)
        ensures
            final(setter)@ == run_script(
                self.arena(),
                self.statements(),
                registry_view(templates),
                old(setter)@,
            ),
    {
        let _report = self.eval_reporting(setter, templates);
    }

    /// Runs the script on a record and reports what it printed and which
    /// statements failed, by their messages, in order. A failed statement
    /// does not stop the run.
    pub fn eval_reporting(
        &self,
        setter: &mut ValueAccessor,
        templates: Option<&Vec<PatternTemplate>>,
    ) -> (report: RunReport)
        ensures
            final(setter)@ == run_script(
                self.arena(),
                self.statements(),
                registry_view(templates),
                old(setter)@,
            ),
            texts_view(report.failures@) == script_failures(
                self.arena(),
                self.statements(),
                registry_view(templates),
                old(setter)@,
            ),
            texts_view(report.printed@) == script_output(
                self.arena(),
                self.statements(),
                registry_view(templates),
                old(setter)@,
            ),
    {
        proof {
            use_type_invariant(self);
        }
        let mut ctx = MapperContext::new(&self.expressions, templates);
        assert(state_of(&ctx, setter) == start_state(setter@));
        let failures = self.eval_with_context(&mut ctx, setter);
        let printed = ctx.take_printed();
        RunReport { failures, printed }
    }

    /// Runs the statements in order in a given context, and reports those that
    /// failed.
    pub fn eval_with_context(&self, ctx: &mut MapperContext, setter: &mut ValueAccessor) -> (failures:
        Vec<String>)
        requires
            old(ctx).wf(),
        ensures
            final(ctx).wf(),
            final(ctx).same_program(old(ctx)),
            state_of(final(ctx), final(setter)) == run_statements(
                old(ctx).arena(),
                old(ctx).templates(),
                self.statements(),
                0,
                state_of(old(ctx), old(setter)),
            ),
            texts_view(failures@) == run_failures(
                old(ctx).arena(),
                old(ctx).templates(),
                self.statements(),
                0,
                state_of(old(ctx), old(setter)),
                Seq::empty(),
            ),
    {
        let ghost arena = ctx.arena();
        let ghost tpl = ctx.templates();
        let ghost stmts = self.statements();
        let ghost st0 = state_of(ctx, setter);
        let mut failures: Vec<String> = Vec::new();
        assert(texts_view(failures@) =~= Seq::<Seq<char>>::empty());
        let mut i: usize = 0;
        proof {
            ctx.lemma_same_program_chain(ctx, ctx);
        }
        while i < self.statements.len()
            invariant
                i <= self.statements.len(),
                stmts == statements_view(self.statements@),
                ctx.wf(),
                ctx.same_program(old(ctx)),
                ctx.arena() == arena,
                ctx.templates() == tpl,
                run_statements(arena, tpl, stmts, i as int, state_of(ctx, setter)) == run_statements(
                    arena,
                    tpl,
                    stmts,
                    0,
                    st0,
                ),
                run_failures(
                    arena,
                    tpl,
                    stmts,
                    i as int,
                    state_of(ctx, setter),
                    texts_view(failures@),
                ) == run_failures(arena, tpl, stmts, 0, st0, Seq::empty()),
            decreases self.statements.len() - i,
        {
            let ghost mid = *ctx;
            let ghost acc = texts_view(failures@);
            assert(stmts[i as int] == self.statements@[i as int]@);
            match self.statements[i].eval(ctx, setter) {
                Some(msg) => {
                    failures.push(msg);
                    assert(texts_view(failures@) =~= acc.push(msg@));
                },
                None => {},
            }
            proof {
                ctx.lemma_same_program(&mid);
                ctx.lemma_same_program_chain(&mid, old(ctx));
            }
            i += 1;
        }
        failures
    }
}

} // verus!

//! The syntax tree of a script: a flat arena of expressions that refer to one
//! another by index, and the statements that name the roots.
use regex::Regex;
use vstd::prelude::*;
use crate::error::{info_err, TuliproxError, TuliproxErrorKind};
use crate::number::Decimal;
use crate::text::{concat2, str_eq, str_to_lowercase, to_lowercase};
use crate::regex_engine::{built_from, plain_form, regex_accepts, regex_view, RegexView};

verus! {

/// Index of an expression in the arena.
#[derive(Debug, Clone, Copy, PartialEq, Eq, Hash, Structural)]
pub struct ExprId(pub usize);

/// One key of a match case: a variable, or `_`.
#[derive(Debug)]
pub enum MatchCaseKey {
    Identifier(String),
    AnyMatch,
}

/// One case of a match block: it fires when all its keys do.
#[derive(Debug)]
pub struct MatchCase {
    pub keys: Vec<MatchCaseKey>,
    pub expression: ExprId,
}

/// One key of a map case: a text, a range of numbers, or `_`.
#[derive(Debug)]
pub enum MapCaseKey {
    Text(String),
    RangeFrom(Decimal),
    RangeTo(Decimal),
    RangeFull(Decimal, Decimal),
    RangeEq(Decimal),
    AnyMatch,
}

/// One case of a map block: it fires when one of its keys matches.
#[derive(Debug)]
pub struct MapCase {
    pub keys: Vec<MapCaseKey>,
    pub expression: ExprId,
}

/// What a map block dispatches on.
#[derive(Debug)]
pub enum MapKey {
    Identifier(String),
    FieldAccess(String),
    VarAccess(String, String),
}

/// The functions of the language.
#[derive(Debug, Clone, Copy, PartialEq, Eq, Structural)]
pub enum BuiltInFunction {
    Concat,
    Uppercase,
    Lowercase,
    Capitalize,
    Trim,
    Print,
    ToNumber,
    First,
    Template,
}

/// The built-in function a word in lower case names.
pub open spec fn function_of_word(word: Seq<char>) -> Option<BuiltInFunction> {
    if word == "concat"@ {
        Some(BuiltInFunction::Concat)
    } else if word == "capitalize"@ {
        Some(BuiltInFunction::Capitalize)
    } else if word == "lowercase"@ {
        Some(BuiltInFunction::Lowercase)
    } else if word == "uppercase"@ {
        Some(BuiltInFunction::Uppercase)
    } else if word == "trim"@ {
        Some(BuiltInFunction::Trim)
    } else if word == "print"@ {
        Some(BuiltInFunction::Print)
    } else if word == "number"@ {
        Some(BuiltInFunction::ToNumber)
    } else if word == "first"@ {
        Some(BuiltInFunction::First)
    } else if word == "template"@ {
        Some(BuiltInFunction::Template)
    } else {
        None
    }
}

pub open spec fn msg_unknown_function(s: Seq<char>) -> Seq<char> {
    "Unknown function "@ + s
}

impl BuiltInFunction {
    /// The built-in function a word names, without regard to case.
    pub fn from_str(s: &str) -> (r: Result<BuiltInFunction, TuliproxError>)
        ensures
            match function_of_word(str_to_lowercase(s@)) {
                Some(f) => r == Ok::<BuiltInFunction, TuliproxError>(f),
                None => r matches Err(e) && e.kind == TuliproxErrorKind::Info && e.message@
                    == msg_unknown_function(s@),
            },
    {
        let word = to_lowercase(s);
        let w = word.as_str();
        if str_eq(w, "concat") {
            Ok(BuiltInFunction::Concat)
        } else if str_eq(w, "capitalize") {
            Ok(BuiltInFunction::Capitalize)
        } else if str_eq(w, "lowercase") {
            Ok(BuiltInFunction::Lowercase)
        } else if str_eq(w, "uppercase") {
            Ok(BuiltInFunction::Uppercase)
        } else if str_eq(w, "trim") {
            Ok(BuiltInFunction::Trim)
        } else if str_eq(w, "print") {
            Ok(BuiltInFunction::Print)
        } else if str_eq(w, "number") {
            Ok(BuiltInFunction::ToNumber)
        } else if str_eq(w, "first") {
            Ok(BuiltInFunction::First)
        } else if str_eq(w, "template") {
            Ok(BuiltInFunction::Template)
        } else {
            Err(info_err(concat2("Unknown function ", s)))
        }
    }
}

/// What a regular expression is applied to: a variable or a field.
#[derive(Debug)]
pub enum RegexSource {
    Identifier(String),
    Field(String),
}

/// What an assignment writes to: a variable or a field.
#[derive(Debug)]
pub enum AssignmentTarget {
    Identifier(String),
    Field(String),
}

/// An expression. Where it has parts, it refers to them by their index in
/// the arena, and they stand before it.
#[derive(Debug)]
pub enum Expression {
    Identifier(String),
    StringLiteral(String),
    NumberLiteral(Decimal),
    FieldAccess(String),
    VarAccess(String, String),
    RegexExpr { field: RegexSource, pattern: String, re_pattern: Regex },
    FunctionCall { name: BuiltInFunction, args: Vec<ExprId> },
    Assignment { target: AssignmentTarget, expr: ExprId },
    MatchBlock(Vec<MatchCase>),
    MapBlock { key: MapKey, cases: Vec<MapCase> },
    NullValue,
    Block(Vec<ExprId>),
}

/// A statement: an expression that is run for what it does, or a comment.
#[derive(Debug, Clone, Copy, PartialEq, Eq, Structural)]
pub enum Statement {
    Expression(ExprId),
    Comment,
}

pub ghost enum MatchKeyView {
    Identifier(Seq<char>),
    AnyMatch,
}

pub ghost struct MatchCaseView {
    pub keys: Seq<MatchKeyView>,
    pub expression: int,
}

pub ghost enum MapCaseKeyView {
    Text(Seq<char>),
    RangeFrom(int),
    RangeTo(int),
    RangeFull(int, int),
    RangeEq(int),
    AnyMatch,
}

pub ghost struct MapCaseView {
    pub keys: Seq<MapCaseKeyView>,
    pub expression: int,
}

pub ghost enum MapKeyView {
    Identifier(Seq<char>),
    FieldAccess(Seq<char>),
    VarAccess(Seq<char>, Seq<char>),
}

pub ghost enum SourceView {
    Identifier(Seq<char>),
    Field(Seq<char>),
}

pub ghost enum TargetView {
    Identifier(Seq<char>),
    Field(Seq<char>),
}

/// What an expression stands for: texts as character sequences, numbers as
/// integers, references as indices.
pub ghost enum ExprView {
    Identifier(Seq<char>),
    StringLiteral(Seq<char>),
    NumberLiteral(int),
    FieldAccess(Seq<char>),
    VarAccess(Seq<char>, Seq<char>),
    RegexExpr { source: SourceView, pattern: Seq<char>, compiled: RegexView },
    FunctionCall { name: BuiltInFunction, args: Seq<int> },
    Assignment { target: TargetView, expr: int },
    MatchBlock(Seq<MatchCaseView>),
    MapBlock { key: MapKeyView, cases: Seq<MapCaseView> },
    NullValue,
    Block(Seq<int>),
}

pub ghost enum StatementView {
    Expression(int),
    Comment,
}

impl View for ExprId {
    type V = int;

    open spec fn view(&self) -> int {
        self.0 as int
    }
}

pub open spec fn ids_view(s: Seq<ExprId>) -> Seq<int> {
    s.map_values(|e: ExprId| e@)
}

impl View for MatchCaseKey {
    type V = MatchKeyView;

    open spec fn view(&self) -> MatchKeyView {
        match self {
            MatchCaseKey::Identifier(s) => MatchKeyView::Identifier(s@),
            MatchCaseKey::AnyMatch => MatchKeyView::AnyMatch,
        }
    }
}

pub open spec fn match_keys_view(s: Seq<MatchCaseKey>) -> Seq<MatchKeyView> {
    s.map_values(|k: MatchCaseKey| k@)
}

impl View for MatchCase {
    type V = MatchCaseView;

    open spec fn view(&self) -> MatchCaseView {
        MatchCaseView { keys: match_keys_view(self.keys@), expression: self.expression@ }
    }
}

pub open spec fn match_cases_view(s: Seq<MatchCase>) -> Seq<MatchCaseView> {
    s.map_values(|c: MatchCase| c@)
}

impl View for MapCaseKey {
    type V = MapCaseKeyView;

    open spec fn view(&self) -> MapCaseKeyView {
        match self {
            MapCaseKey::Text(s) => MapCaseKeyView::Text(s@),
            MapCaseKey::RangeFrom(a) => MapCaseKeyView::RangeFrom(a@),
            MapCaseKey::RangeTo(b) => MapCaseKeyView::RangeTo(b@),
            MapCaseKey::RangeFull(a, b) => MapCaseKeyView::RangeFull(a@, b@),
            MapCaseKey::RangeEq(n) => MapCaseKeyView::RangeEq(n@),
            MapCaseKey::AnyMatch => MapCaseKeyView::AnyMatch,
        }
    }
}

pub open spec fn map_keys_view(s: Seq<MapCaseKey>) -> Seq<MapCaseKeyView> {
    s.map_values(|k: MapCaseKey| k@)
}

impl View for MapCase {
    type V = MapCaseView;

    open spec fn view(&self) -> MapCaseView {
        MapCaseView { keys: map_keys_view(self.keys@), expression: self.expression@ }
    }
}

pub open spec fn map_cases_view(s: Seq<MapCase>) -> Seq<MapCaseView> {
    s.map_values(|c: MapCase| c@)
}

impl View for MapKey {
    type V = MapKeyView;

    open spec fn view(&self) -> MapKeyView {
        match self {
            MapKey::Identifier(s) => MapKeyView::Identifier(s@),
            MapKey::FieldAccess(s) => MapKeyView::FieldAccess(s@),
            MapKey::VarAccess(s, f) => MapKeyView::VarAccess(s@, f@),
        }
    }
}

impl View for RegexSource {
    type V = SourceView;

    open spec fn view(&self) -> SourceView {
        match self {
            RegexSource::Identifier(s) => SourceView::Identifier(s@),
            RegexSource::Field(s) => SourceView::Field(s@),
        }
    }
}

impl View for AssignmentTarget {
    type V = TargetView;

    open spec fn view(&self) -> TargetView {
        match self {
            AssignmentTarget::Identifier(s) => TargetView::Identifier(s@),
            AssignmentTarget::Field(s) => TargetView::Field(s@),
        }
    }
}

impl View for Expression {
    type V = ExprView;

    open spec fn view(&self) -> ExprView {
        match self {
            Expression::Identifier(s) => ExprView::Identifier(s@),
            Expression::StringLiteral(s) => ExprView::StringLiteral(s@),
            Expression::NumberLiteral(n) => ExprView::NumberLiteral(n@),
            Expression::FieldAccess(s) => ExprView::FieldAccess(s@),
            Expression::VarAccess(s, f) => ExprView::VarAccess(s@, f@),
            Expression::RegexExpr { field, pattern, re_pattern } => ExprView::RegexExpr {
                source: field@,
                pattern: pattern@,
                compiled: regex_view(*re_pattern),
            },
            Expression::FunctionCall { name, args } => ExprView::FunctionCall {
                name: *name,
                args: ids_view(args@),
            },
            Expression::Assignment { target, expr } => ExprView::Assignment {
                target: target@,
                expr: expr@,
            },
            Expression::MatchBlock(cases) => ExprView::MatchBlock(match_cases_view(cases@)),
            Expression::MapBlock { key, cases } => ExprView::MapBlock {
                key: key@,
                cases: map_cases_view(cases@),
            },
            Expression::NullValue => ExprView::NullValue,
            Expression::Block(exprs) => ExprView::Block(ids_view(exprs@)),
        }
    }
}

impl View for Statement {
    type V = StatementView;

    open spec fn view(&self) -> StatementView {
        match self {
            Statement::Expression(id) => StatementView::Expression(id@),
            Statement::Comment => StatementView::Comment,
        }
    }
}

pub open spec fn arena_view(s: Seq<Expression>) -> Seq<ExprView> {
    s.map_values(|e: Expression| e@)
}

pub open spec fn statements_view(s: Seq<Statement>) -> Seq<StatementView> {
    s.map_values(|st: Statement| st@)
}

/// One more than the largest index in `ids`; zero for none.
pub open spec fn ids_bound(ids: Seq<int>) -> int
    decreases ids.len(),
{
    if ids.len() == 0 {
        0
    } else {
        let rest = ids_bound(ids.drop_last());
        if ids.last() + 1 > rest {
            ids.last() + 1
        } else {
            rest
        }
    }
}

pub open spec fn match_case_ids(cases: Seq<MatchCaseView>) -> Seq<int> {
    cases.map_values(|c: MatchCaseView| c.expression)
}

pub open spec fn map_case_ids(cases: Seq<MapCaseView>) -> Seq<int> {
    cases.map_values(|c: MapCaseView| c.expression)
}

/// The indices an expression refers to.
pub open spec fn children(e: ExprView) -> Seq<int> {
    match e {
        ExprView::FunctionCall { name, args } => args,
        ExprView::Assignment { target, expr } => seq![expr],
        ExprView::MatchBlock(cases) => match_case_ids(cases),
        ExprView::MapBlock { key, cases } => map_case_ids(cases),
        ExprView::Block(exprs) => exprs,
        _ => Seq::empty(),
    }
}

/// One more than the largest index an expression refers to; zero for a leaf.
pub open spec fn expr_rank(e: ExprView) -> int {
    ids_bound(children(e))
}

/// Every expression refers only to expressions before it.
pub open spec fn arena_ordered(arena: Seq<ExprView>) -> bool {
    forall|i: int| 0 <= i < arena.len() ==> expr_rank(#[trigger] arena[i]) <= i
}

/// Every regular expression node holds the form of its own pattern that was
/// compiled the plain way.
pub open spec fn regexes_compiled(arena: Seq<Expression>) -> bool {
    forall|i: int|
        0 <= i < arena.len() ==> (#[trigger] arena[i] matches Expression::RegexExpr {
            field,
            pattern,
            re_pattern,
        } ==> built_from(re_pattern, pattern@) && regex_accepts(pattern@))
}

/// Every regular expression holds a pattern the engine accepts, compiled the
/// plain way.
pub open spec fn patterns_compiled(arena: Seq<ExprView>) -> bool {
    forall|i: int|
        0 <= i < arena.len() ==> (#[trigger] arena[i] matches ExprView::RegexExpr {
            source,
            pattern,
            compiled,
        } ==> regex_accepts(pattern) && compiled == plain_form(pattern))
}

/// What holds of the compiled patterns of an arena holds of what the arena
/// stands for.
pub proof fn lemma_patterns_compiled(arena: Seq<Expression>)
    requires
        regexes_compiled(arena),
    ensures
        patterns_compiled(arena_view(arena)),
{
    assert forall|i: int| 0 <= i < arena.len() implies (#[trigger] arena_view(
        arena,
    )[i] matches ExprView::RegexExpr { source, pattern, compiled } ==> regex_accepts(pattern)
        && compiled == plain_form(pattern)) by {
        assert(arena_view(arena)[i] == arena[i]@);
    }
}

/// A well-formed arena: ordered, with compiled patterns.
pub open spec fn arena_ok(arena: Seq<Expression>) -> bool {
    arena_ordered(arena_view(arena)) && regexes_compiled(arena)
}

/// Every statement names an expression of the arena.
pub open spec fn statements_ok(stmts: Seq<StatementView>, len: int) -> bool {
    forall|i: int|
        0 <= i < stmts.len() ==> (#[trigger] stmts[i] matches StatementView::Expression(id) ==> 0
            <= id < len)
}

pub proof fn lemma_ids_bound(ids: Seq<int>, i: int)
    requires
        0 <= i < ids.len(),
    ensures
        ids[i] < ids_bound(ids),
    decreases ids.len(),
{
    if i < ids.len() - 1 {
        lemma_ids_bound(ids.drop_last(), i);
    }
}

pub proof fn lemma_ids_bound_nonneg(ids: Seq<int>)
    ensures
        ids_bound(ids) >= 0,
    decreases ids.len(),
{
    if ids.len() > 0 {
        lemma_ids_bound_nonneg(ids.drop_last());
    }
}

/// The bound is at most `b` exactly when every index is below `b`.
pub proof fn lemma_ids_bound_le(ids: Seq<int>, b: int)
    requires
        b >= 0,
    ensures
        ids_bound(ids) <= b <==> forall|i: int| 0 <= i < ids.len() ==> #[trigger] ids[i] < b,
    decreases ids.len(),
{
    if ids.len() > 0 {
        let front = ids.drop_last();
        lemma_ids_bound_le(front, b);
        if ids_bound(ids) <= b {
            assert forall|i: int| 0 <= i < ids.len() implies #[trigger] ids[i] < b by {
                if i < ids.len() - 1 {
                    assert(front[i] == ids[i]);
                }
            }
        }
        if forall|i: int| 0 <= i < ids.len() ==> #[trigger] ids[i] < b {
            assert forall|i: int| 0 <= i < front.len() implies #[trigger] front[i] < b by {
                assert(front[i] == ids[i]);
            }
            assert(ids[ids.len() - 1] < b);
        }
    }
}

/// A regular expression node holds the form of its own pattern that was
/// compiled the plain way, and the engine accepts the pattern.
pub open spec fn sound(e: Expression) -> bool {
    e matches Expression::RegexExpr { field, pattern, re_pattern } ==> built_from(
        re_pattern,
        pattern@,
    ) && regex_accepts(pattern@)
}

impl Clone for MatchCaseKey {
    fn clone(&self) -> (r: Self)
        ensures
            r@ == self@,
    {
        match self {
            MatchCaseKey::Identifier(name) => MatchCaseKey::Identifier(name.clone()),
            MatchCaseKey::AnyMatch => MatchCaseKey::AnyMatch,
        }
    }
}

impl Clone for MatchCase {
    fn clone(&self) -> (r: Self)
        ensures
            r@ == self@,
    {
        let mut keys: Vec<MatchCaseKey> = Vec::new();
        let mut i: usize = 0;
        while i < self.keys.len()
            invariant
                i <= self.keys.len(),
                keys.len() == i,
                forall|j: int| 0 <= j < i ==> (#[trigger] keys@[j])@ == self.keys@[j]@,
            decreases self.keys.len() - i,
        {
            keys.push(self.keys[i].clone());
            i += 1;
        }
        assert(match_keys_view(keys@) =~= match_keys_view(self.keys@));
        MatchCase { keys, expression: self.expression }
    }
}

impl Clone for MapCaseKey {
    fn clone(&self) -> (r: Self)
        ensures
            r@ == self@,
    {
        match self {
            MapCaseKey::Text(text) => MapCaseKey::Text(text.clone()),
            MapCaseKey::RangeFrom(a) => MapCaseKey::RangeFrom(*a),
            MapCaseKey::RangeTo(b) => MapCaseKey::RangeTo(*b),
            MapCaseKey::RangeFull(a, b) => MapCaseKey::RangeFull(*a, *b),
            MapCaseKey::RangeEq(n) => MapCaseKey::RangeEq(*n),
            MapCaseKey::AnyMatch => MapCaseKey::AnyMatch,
        }
    }
}

impl Clone for MapCase {
    fn clone(&self) -> (r: Self)
        ensures
            r@ == self@,
    {
        let mut keys: Vec<MapCaseKey> = Vec::new();
        let mut i: usize = 0;
        while i < self.keys.len()
            invariant
                i <= self.keys.len(),
                keys.len() == i,
                forall|j: int| 0 <= j < i ==> (#[trigger] keys@[j])@ == self.keys@[j]@,
            decreases self.keys.len() - i,
        {
            keys.push(self.keys[i].clone());
            i += 1;
        }
        assert(map_keys_view(keys@) =~= map_keys_view(self.keys@));
        MapCase { keys, expression: self.expression }
    }
}

impl Clone for MapKey {
    fn clone(&self) -> (r: Self)
        ensures
            r@ == self@,
    {
        match self {
            MapKey::Identifier(name) => MapKey::Identifier(name.clone()),
            MapKey::FieldAccess(field) => MapKey::FieldAccess(field.clone()),
            MapKey::VarAccess(name, field) => MapKey::VarAccess(name.clone(), field.clone()),
        }
    }
}

impl Clone for RegexSource {
    fn clone(&self) -> (r: Self)
        ensures
            r@ == self@,
    {
        match self {
            RegexSource::Identifier(name) => RegexSource::Identifier(name.clone()),
            RegexSource::Field(field) => RegexSource::Field(field.clone()),
        }
    }
}

impl Clone for AssignmentTarget {
    fn clone(&self) -> (r: Self)
        ensures
            r@ == self@,
    {
        match self {
            AssignmentTarget::Identifier(name) => AssignmentTarget::Identifier(name.clone()),
            AssignmentTarget::Field(field) => AssignmentTarget::Field(field.clone()),
        }
    }
}

fn clone_ids(ids: &Vec<ExprId>) -> (r: Vec<ExprId>)
    ensures
        ids_view(r@) == ids_view(ids@),
{
    let mut out: Vec<ExprId> = Vec::new();
    let mut i: usize = 0;
    while i < ids.len()
        invariant
            i <= ids.len(),
            out.len() == i,
            forall|j: int| 0 <= j < i ==> out@[j] == ids@[j],
        decreases ids.len() - i,
    {
        out.push(ids[i]);
        i += 1;
    }
    assert(ids_view(out@) =~= ids_view(ids@));
    out
}

impl Clone for Expression {
    fn clone(&self) -> (r: Self)
        ensures
            r@ == self@,
            sound(*self) ==> sound(r),
    {
        match self {
            Expression::Identifier(name) => Expression::Identifier(name.clone()),
            Expression::StringLiteral(text) => Expression::StringLiteral(text.clone()),
            Expression::NumberLiteral(n) => Expression::NumberLiteral(*n),
            Expression::FieldAccess(field) => Expression::FieldAccess(field.clone()),
            Expression::VarAccess(name, field) => Expression::VarAccess(
                name.clone(),
                field.clone(),
            ),
            Expression::RegexExpr { field, pattern, re_pattern } => Expression::RegexExpr {
                field: field.clone(),
                pattern: pattern.clone(),
                re_pattern: re_pattern.clone(),
            },
            Expression::FunctionCall { name, args } => Expression::FunctionCall {
                name: *name,
                args: clone_ids(args),
            },
            Expression::Assignment { target, expr } => Expression::Assignment {
                target: target.clone(),
                expr: *expr,
            },
            Expression::MatchBlock(cases) => {
                let mut out: Vec<MatchCase> = Vec::new();
                let mut i: usize = 0;
                while i < cases.len()
                    invariant
                        i <= cases.len(),
                        out.len() == i,
                        forall|j: int| 0 <= j < i ==> (#[trigger] out@[j])@ == cases@[j]@,
                    decreases cases.len() - i,
                {
                    out.push(cases[i].clone());
                    i += 1;
                }
                assert(match_cases_view(out@) =~= match_cases_view(cases@));
                Expression::MatchBlock(out)
            },
            Expression::MapBlock { key, cases } => {
                let mut out: Vec<MapCase> = Vec::new();
                let mut i: usize = 0;
                while i < cases.len()
                    invariant
                        i <= cases.len(),
                        out.len() == i,
                        forall|j: int| 0 <= j < i ==> (#[trigger] out@[j])@ == cases@[j]@,
                    decreases cases.len() - i,
                {
                    out.push(cases[i].clone());
                    i += 1;
                }
                assert(map_cases_view(out@) =~= map_cases_view(cases@));
                Expression::MapBlock { key: key.clone(), cases: out }
            },
            Expression::NullValue => Expression::NullValue,
            Expression::Block(ids) => Expression::Block(clone_ids(ids)),
        }
    }
}

/// A copy of an arena, expression by expression.
pub(crate) fn clone_arena(arena: &Vec<Expression>) -> (r: Vec<Expression>)
    requires
        arena_ok(arena@),
    ensures
        arena_view(r@) == arena_view(arena@),
        arena_ok(r@),
{
    let mut out: Vec<Expression> = Vec::new();
    let mut i: usize = 0;
    while i < arena.len()
        invariant
            i <= arena.len(),
            out.len() == i,
            arena_ok(arena@),
            forall|j: int| 0 <= j < i ==> (#[trigger] out@[j])@ == arena@[j]@ && sound(out@[j]),
        decreases arena.len() - i,
    {
        assert(sound(arena@[i as int]));
        out.push(arena[i].clone());
        i += 1;
    }
    assert(arena_view(out@) =~= arena_view(arena@));
    assert forall|j: int| 0 <= j < out@.len() implies (#[trigger] out@[j] matches Expression::RegexExpr {
        field,
        pattern,
        re_pattern,
    } ==> built_from(re_pattern, pattern@) && regex_accepts(pattern@)) by {
        assert(sound(out@[j]));
    }
    out
}

} // verus!

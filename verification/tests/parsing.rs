use tuliprox::accessor::ValueAccessor;
use tuliprox::ast::{
    AssignmentTarget, BuiltInFunction, ExprId, Expression, MapCaseKey, MapKey, MatchCaseKey,
    RegexSource, Statement,
};
use tuliprox::error::TuliproxErrorKind;
use tuliprox::number::Decimal;
use tuliprox::parser::ScriptError;
use tuliprox::script::MapperScript;

fn parsed(source: &str) -> MapperScript {
    MapperScript::parse_unchecked(source).expect("a script")
}

fn children(e: &Expression) -> Vec<usize> {
    match e {
        Expression::FunctionCall { args, .. } => args.iter().map(|a| a.0).collect(),
        Expression::Assignment { expr, .. } => vec![expr.0],
        Expression::MatchBlock(cases) => cases.iter().map(|c| c.expression.0).collect(),
        Expression::MapBlock { cases, .. } => cases.iter().map(|c| c.expression.0).collect(),
        Expression::Block(ids) => ids.iter().map(|a| a.0).collect(),
        _ => vec![],
    }
}

fn assert_well_formed(script: &MapperScript) {
    let arena = script.expressions();
    for (i, e) in arena.iter().enumerate() {
        for child in children(e) {
            assert!(child < i, "child {child} of {i}");
        }
    }
    for s in script.statement_list() {
        if let Statement::Expression(id) = s {
            assert!(id.0 < arena.len());
        }
    }
}

fn syntax_offset(source: &str) -> usize {
    match MapperScript::parse_unchecked(source) {
        Err(ScriptError::Syntax(offset)) => offset,
        other => panic!("no syntax error: {other:?}"),
    }
}

#[test]
fn empty_source_is_an_empty_script() {
    for source in ["", "   ", "\n\n", ";;;", " ; \n\t; "] {
        let script = parsed(source);
        assert!(script.expressions().is_empty());
        assert!(script.statement_list().is_empty());
    }
}

#[test]
fn children_come_before_their_parents() {
    let script = parsed(
        r#"a = concat("x", uppercase(@name), { b = 1; b })
           r = match { (a, b) => map a { "x" | "y" => 1, 2..3 => { c = a; c }, _ => null }, _ => a.k }"#,
    );
    assert_well_formed(&script);
    assert_eq!(script.statement_list().len(), 2);
}

#[test]
fn an_assignment_holds_its_value_before_itself() {
    let script = parsed(r#"x = "v""#);
    let arena = script.expressions();
    assert_eq!(arena.len(), 2);
    assert!(matches!(&arena[0], Expression::StringLiteral(s) if s == "v"));
    assert!(matches!(
        &arena[1],
        Expression::Assignment { target: AssignmentTarget::Identifier(n), expr: ExprId(0) } if n == "x"
    ));
    assert_eq!(script.statement_list(), &vec![Statement::Expression(ExprId(1))]);
}

#[test]
fn leaves_parse_to_their_kinds() {
    let script = parsed("abc; a.b; a . b; @Name; @ TITLE; null; 42; -1.5; \"s\"; nullable; _x1");
    let arena = script.expressions();
    assert!(matches!(&arena[0], Expression::Identifier(n) if n == "abc"));
    assert!(matches!(&arena[1], Expression::VarAccess(n, f) if n == "a" && f == "b"));
    assert!(matches!(&arena[2], Expression::VarAccess(n, f) if n == "a" && f == "b"));
    assert!(matches!(&arena[3], Expression::FieldAccess(n) if n == "Name"));
    assert!(matches!(&arena[4], Expression::FieldAccess(n) if n == "TITLE"));
    assert!(matches!(&arena[5], Expression::NullValue));
    assert!(matches!(&arena[6], Expression::NumberLiteral(n) if *n == Decimal::from_int(42)));
    assert!(matches!(&arena[7], Expression::NumberLiteral(n) if n.units == -1_500_000_000));
    assert!(matches!(&arena[8], Expression::StringLiteral(s) if s == "s"));
    assert!(matches!(&arena[9], Expression::Identifier(n) if n == "nullable"));
    assert!(matches!(&arena[10], Expression::Identifier(n) if n == "_x1"));
    assert_eq!(arena.len(), 11);
}

#[test]
fn the_longer_field_name_wins() {
    let script = parsed(r#"@logo_small = "a"; @logo = "b"; @epg_channel_id = "c"; @epg_id = "d""#);
    let targets: Vec<String> = script
        .expressions()
        .iter()
        .filter_map(|e| match e {
            Expression::Assignment { target: AssignmentTarget::Field(f), .. } => Some(f.clone()),
            _ => None,
        })
        .collect();
    assert_eq!(targets, vec!["logo_small", "logo", "epg_channel_id", "epg_id"]);
}

#[test]
fn string_literals_keep_their_escapes() {
    let script = parsed(r#""a\"b"; "c\\"; "d\n"; "";"#);
    let arena = script.expressions();
    assert!(matches!(&arena[0], Expression::StringLiteral(s) if s == r#"a\"b"#));
    assert!(matches!(&arena[1], Expression::StringLiteral(s) if s == r#"c\\"#));
    assert!(matches!(&arena[2], Expression::StringLiteral(s) if s == r#"d\n"#));
    assert!(matches!(&arena[3], Expression::StringLiteral(s) if s.is_empty()));
}

#[test]
fn statements_need_no_separator() {
    let script = parsed(r#"a = 1 b = 2"#);
    assert_eq!(script.statement_list().len(), 2);
}

#[test]
fn comments_run_to_the_end_of_the_line() {
    let script = parsed("# first \na = 1 # second ; b = 2\n# third");
    assert_eq!(
        script.statement_list(),
        &vec![
            Statement::Comment,
            Statement::Expression(ExprId(1)),
            Statement::Comment,
            Statement::Comment
        ]
    );
    let block = parsed("{ # inside\n a = 1 }");
    assert!(matches!(block.expressions().last(), Some(Expression::Block(ids)) if ids.len() == 1));
}

#[test]
fn function_calls_take_their_arguments_in_order() {
    let script = parsed(r#"concat(a, "b" , 3); trim(); first ( x )"#);
    let arena = script.expressions();
    assert!(matches!(
        &arena[3],
        Expression::FunctionCall { name: BuiltInFunction::Concat, args } if args == &vec![ExprId(0), ExprId(1), ExprId(2)]
    ));
    assert!(matches!(
        &arena[4],
        Expression::FunctionCall { name: BuiltInFunction::Trim, args } if args.is_empty()
    ));
    assert!(matches!(
        &arena[6],
        Expression::FunctionCall { name: BuiltInFunction::First, args } if args == &vec![ExprId(5)]
    ));
    for (word, f) in [
        ("concat", BuiltInFunction::Concat),
        ("uppercase", BuiltInFunction::Uppercase),
        ("lowercase", BuiltInFunction::Lowercase),
        ("capitalize", BuiltInFunction::Capitalize),
        ("trim", BuiltInFunction::Trim),
        ("print", BuiltInFunction::Print),
        ("number", BuiltInFunction::ToNumber),
        ("first", BuiltInFunction::First),
        ("template", BuiltInFunction::Template),
    ] {
        let script = parsed(&format!("{word}(1)"));
        assert!(matches!(script.expressions().last(), Some(Expression::FunctionCall { name, .. }) if *name == f));
    }
}

#[test]
fn a_function_name_without_parenthesis_is_a_variable() {
    let script = parsed("x = first");
    assert!(matches!(&script.expressions()[0], Expression::Identifier(n) if n == "first"));
}

#[test]
fn regex_expressions_hold_source_and_pattern() {
    let script = parsed(r#"@Caption ~ "(\d+)"; name ~ "x""#);
    let arena = script.expressions();
    assert!(matches!(
        &arena[0],
        Expression::RegexExpr { field: RegexSource::Field(f), pattern, re_pattern } if f == "Caption" && pattern == r"(\d+)" && re_pattern.as_str() == r"(\d+)"
    ));
    assert!(matches!(
        &arena[1],
        Expression::RegexExpr { field: RegexSource::Identifier(f), pattern, .. } if f == "name" && pattern == "x"
    ));
}

#[test]
fn match_blocks_hold_their_cases() {
    let script = parsed("match {\n (a, b) => 1,\n c => 2,\n _ => 3,\n}");
    match script.expressions().last() {
        Some(Expression::MatchBlock(cases)) => {
            assert_eq!(cases.len(), 3);
            assert!(matches!(
                cases[0].keys.as_slice(),
                [MatchCaseKey::Identifier(a), MatchCaseKey::Identifier(b)] if a == "a" && b == "b"
            ));
            assert!(matches!(cases[1].keys.as_slice(), [MatchCaseKey::Identifier(c)] if c == "c"));
            assert!(matches!(cases[2].keys.as_slice(), [MatchCaseKey::AnyMatch]));
            assert_eq!(cases[0].expression, ExprId(0));
            assert_eq!(cases[2].expression, ExprId(2));
        }
        other => panic!("no match block: {other:?}"),
    }
}

#[test]
fn map_blocks_hold_key_and_cases() {
    let script = parsed(r#"map v.k { "a" | "b" => 1, 1..2 => 2, 3.. => 3, ..4 => 4, 5 => 5, _ => 6 }"#);
    match script.expressions().last() {
        Some(Expression::MapBlock { key, cases }) => {
            assert!(matches!(key, MapKey::VarAccess(v, k) if v == "v" && k == "k"));
            assert_eq!(cases.len(), 6);
            assert!(matches!(
                cases[0].keys.as_slice(),
                [MapCaseKey::Text(a), MapCaseKey::Text(b)] if a == "a" && b == "b"
            ));
            assert!(matches!(
                cases[1].keys.as_slice(),
                [MapCaseKey::RangeFull(a, b)] if *a == Decimal::from_int(1) && *b == Decimal::from_int(2)
            ));
            assert!(matches!(cases[2].keys.as_slice(), [MapCaseKey::RangeFrom(a)] if *a == Decimal::from_int(3)));
            assert!(matches!(cases[3].keys.as_slice(), [MapCaseKey::RangeTo(a)] if *a == Decimal::from_int(4)));
            assert!(matches!(cases[4].keys.as_slice(), [MapCaseKey::RangeEq(a)] if *a == Decimal::from_int(5)));
            assert!(matches!(cases[5].keys.as_slice(), [MapCaseKey::AnyMatch]));
        }
        other => panic!("no map block: {other:?}"),
    }
    let by_field = parsed(r#"map @chno { 1 => "a" }"#);
    assert!(matches!(
        by_field.expressions().last(),
        Some(Expression::MapBlock { key: MapKey::FieldAccess(f), .. }) if f == "chno"
    ));
    let by_variable = parsed(r#"map n { 1 => "a" }"#);
    assert!(matches!(
        by_variable.expressions().last(),
        Some(Expression::MapBlock { key: MapKey::Identifier(f), .. }) if f == "n"
    ));
}

#[test]
fn a_block_without_cases_stands_for_nothing() {
    assert!(parsed("match { }").statement_list().is_empty());
    assert!(parsed("map x {}").statement_list().is_empty());
    assert!(parsed("x = match {}").statement_list().is_empty());
    let call = parsed("concat(match {}, 1)");
    assert!(matches!(
        call.expressions().last(),
        Some(Expression::FunctionCall { args, .. }) if args.len() == 1
    ));
    let block = parsed("{ }");
    assert!(matches!(block.expressions().last(), Some(Expression::Block(ids)) if ids.is_empty()));
}

#[test]
fn syntax_errors_say_where_the_statements_end() {
    assert_eq!(syntax_offset("?"), 0);
    assert_eq!(syntax_offset("a = 1; ?"), 7);
    assert_eq!(syntax_offset("a = "), 2);
    assert_eq!(syntax_offset("\"open"), 0);
    assert_eq!(syntax_offset("concat(1"), 6);
    assert_eq!(syntax_offset("{ a = 1"), 0);
    assert_eq!(syntax_offset("match { a => }"), 6);
    assert_eq!(syntax_offset("map { 1 => 2 }"), 4);
    assert_eq!(syntax_offset("@nofield"), 0);
    assert_eq!(syntax_offset("x = 1 )"), 6);
}

#[test]
fn building_errors_come_after_syntax_errors() {
    assert!(matches!(
        MapperScript::parse_unchecked(r#"x ~ "(""#),
        Err(ScriptError::InvalidRegex(p)) if p == "("
    ));
    assert!(matches!(MapperScript::parse_unchecked(r#"x ~ "(" ?"#), Err(ScriptError::Syntax(8))));
    assert!(matches!(
        MapperScript::parse_unchecked("match { (a, _) => 1 }"),
        Err(ScriptError::UnexpectedMatchKey)
    ));
    assert!(matches!(
        MapperScript::parse_unchecked("x = 1000000000000000000000000000"),
        Err(ScriptError::InvalidNumber(t)) if t == "1000000000000000000000000000"
    ));
    assert!(matches!(
        MapperScript::parse_unchecked(r#"a ~ "["; b ~ "(""#),
        Err(ScriptError::InvalidRegex(p)) if p == "["
    ));
}

fn validation_error(source: &str) -> ScriptError {
    match MapperScript::compile(source) {
        Err(e) => e,
        Ok(_) => panic!("valid: {source}"),
    }
}

#[test]
fn validation_wants_identifiers_defined_before_use() {
    assert!(matches!(validation_error("x"), ScriptError::UnknownIdentifier(n) if n == "x"));
    assert!(matches!(validation_error("x = x"), ScriptError::UnknownIdentifier(n) if n == "x"));
    assert!(matches!(validation_error("y = x.k"), ScriptError::UnknownIdentifier(n) if n == "x"));
    assert!(matches!(validation_error(r#"y = x ~ "a""#), ScriptError::UnknownIdentifier(n) if n == "x"));
    assert!(matches!(validation_error("@name = 1; a = b; b = 1"), ScriptError::UnknownIdentifier(n) if n == "b"));
    assert!(matches!(validation_error("match { x => 1 }"), ScriptError::UnknownIdentifier(n) if n == "x"));
    assert!(matches!(validation_error("map x { 1 => 1 }"), ScriptError::UnknownIdentifier(n) if n == "x"));
    assert!(matches!(validation_error("concat(1, x)"), ScriptError::UnknownIdentifier(n) if n == "x"));
    assert!(matches!(validation_error("{ a = 1; b }"), ScriptError::UnknownIdentifier(n) if n == "b"));
    assert!(MapperScript::compile("x = 1; y = x; z = concat(x, y.k); { w = z }; @name = w").is_ok());
    assert!(MapperScript::compile(r#"@name = @title ~ "a""#).is_ok());
}

#[test]
fn validation_checks_the_number_of_arguments() {
    assert!(matches!(validation_error("trim()"), ScriptError::NoArguments(BuiltInFunction::Trim)));
    assert!(matches!(
        validation_error("number(1, 2)"),
        ScriptError::TooManyArguments(BuiltInFunction::ToNumber, 2)
    ));
    assert!(matches!(
        validation_error("first(1, 2, 3)"),
        ScriptError::TooManyArguments(BuiltInFunction::First, 3)
    ));
    assert!(matches!(
        validation_error("template(1, 2)"),
        ScriptError::TooManyArguments(BuiltInFunction::Template, 2)
    ));
    assert!(MapperScript::compile("concat(1, 2, 3); number(1); first(1); template(1)").is_ok());
}

#[test]
fn validation_rejects_repeated_cases() {
    assert!(matches!(
        validation_error("a = 1; b = 2; match { (a, b) => 1, (a, b) => 2 }"),
        ScriptError::DuplicateCase(k) if k == "a, b, "
    ));
    assert!(MapperScript::compile("a = 1; b = 2; match { (a, b) => 1, (b, a) => 2, a => 3, _ => 4 }").is_ok());
    assert!(matches!(
        validation_error("match { _ => 1, _ => 2 }"),
        ScriptError::DuplicateCase(k) if k == "_, "
    ));
    assert!(matches!(
        validation_error(r#"map @name { "a" => 1, "b" | "a" => 2 }"#),
        ScriptError::DuplicateCase(k) if k == "a"
    ));
    assert!(matches!(
        validation_error(r#"map @name { _ => 1, "b" => 2, _ => 3 }"#),
        ScriptError::DuplicateMapAnyMatch
    ));
    assert!(matches!(
        validation_error(r#"map @name { 5..1 => 1 }"#),
        ScriptError::InvalidRange(a, b) if a == Decimal::from_int(5) && b == Decimal::from_int(1)
    ));
    assert!(MapperScript::compile(r#"map @name { 1..1 => 1, 1..5 => 2, "a" => 3, _ => 4 }"#).is_ok());
}

#[test]
fn a_prefix_of_a_valid_script_is_valid() {
    let statements = ["a = 1", "b = concat(a, @name)", "c = match { (a, b) => a, _ => b }", "@title = c"];
    assert!(MapperScript::compile(&statements.join("\n")).is_ok());
    for k in 0..statements.len() {
        assert!(MapperScript::compile(&statements[..k].join("\n")).is_ok());
    }
}

#[test]
fn parse_reports_errors_by_message() {
    let cases = [
        ("?", "Syntax error at offset 0"),
        ("a = 1\n  b ==", "Syntax error at offset 10"),
        (r#"x ~ "(""#, "Invalid regex ("),
        ("match { (a, _) => 1 }", "Unexpected match case key: _"),
        ("y = x", "Identifier unknown x"),
        ("uppercase()", "Function needs at least one argument Uppercase"),
        ("number(1, 2)", "Function accepts only one argument ToNumber, 2 given"),
        ("match { _ => 1, _ => 2 }", "Duplicate case _, "),
        (r#"map @id { _ => 1, _ => 2 }"#, "Map case can only have one '_'"),
        (r#"map @id { "a" => 1, "a" => 2 }"#, "Duplicate case a"),
        (r#"map @id { 2.5..1 => 1 }"#, "Invalid range 2.5..1"),
        ("x = 1000000000000000000000000000", "Invalid number 1000000000000000000000000000"),
    ];
    for (source, message) in cases {
        let err = MapperScript::parse(source, None).expect_err(source);
        assert_eq!(err.kind, TuliproxErrorKind::Info);
        assert_eq!(err.message, message);
        assert_eq!(err.to_string(), message);
    }
}

#[test]
fn a_parsed_script_runs() {
    let script = MapperScript::parse(r#"@name = "n""#, None).unwrap();
    let mut accessor = ValueAccessor::new();
    script.eval(&mut accessor, None);
    assert_eq!(accessor.get("name"), Some("n"));
}

#[test]
fn a_copy_of_a_script_behaves_like_the_script() {
    let script = MapperScript::parse(
        r#"q = @caption ~ "(\d+)"; @name = map q { ..9 => concat("low ", q), _ => match { q => uppercase("high"), _ => null } }"#,
        None,
    )
    .unwrap();
    let copy = script.clone();
    assert_eq!(format!("{script:?}"), format!("{copy:?}"));
    drop(script);
    for (caption, name) in [("ch 5", Some("low 5")), ("ch 50", Some("HIGH")), ("none", None)] {
        let mut record = ValueAccessor::new();
        record.set("caption", caption);
        copy.eval(&mut record, None);
        assert_eq!(record.get("name"), name);
    }
}

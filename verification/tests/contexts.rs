use tuliprox::accessor::{PatternTemplate, TemplateValue, ValueAccessor};
use tuliprox::ast::{BuiltInFunction, ExprId, Expression, MatchCase, MatchCaseKey, Statement};
use tuliprox::error::{TuliproxError, TuliproxErrorKind};
use tuliprox::eval::{call_builtin, capitalize, captured_pairs, join, pairs_result, printed_line};
use tuliprox::number::Decimal;
use tuliprox::parser::ScriptError;
use tuliprox::script::MapperScript;
use tuliprox::text::{
    compare_text, contains, eq_ignore_ascii_case, parse_u16, parse_u32, parse_unsigned, replace,
    split, split_words, trim, trim_char, Ordered,
};
use tuliprox::value::EvalResult;

fn show(r: &EvalResult) -> String {
    format!("{r:?}")
}

#[test]
fn expressions_evaluate_to_values() {
    let script = MapperScript::parse_unchecked(
        r#"@caption ~ "(?<a>.)(?<b>.)"; x = 5; x; missing; "t"; @title; concat(x, "!")"#,
    )
    .unwrap();
    let mut record = ValueAccessor::new();
    record.set("caption", "k7");
    let mut ctx = script.context(None);
    let statements: Vec<ExprId> = script
        .statement_list()
        .iter()
        .filter_map(|s| match s {
            Statement::Expression(id) => Some(*id),
            Statement::Comment => None,
        })
        .collect();
    let results: Vec<String> = statements.iter().map(|id| show(&id.eval(&mut ctx, &mut record))).collect();
    assert_eq!(
        results,
        vec![
            r#"Named([("1", "k"), ("2", "7"), ("a", "k"), ("b", "7")])"#,
            "Undefined",
            "Number(Decimal { units: 5000000000 })",
            r#"Failure("Variable with name missing not found.")"#,
            r#"Value("t")"#,
            "Undefined",
            r#"Value("5!")"#,
        ]
    );
    assert!(ctx.has_var("x"));
    assert!(!ctx.has_var("missing"));
    assert_eq!(show(&ctx.get_var("x")), "Number(Decimal { units: 5000000000 })");
    assert_eq!(show(&ctx.get_var("missing")), "Undefined");
    assert!(ctx.lookup_var("missing").is_none());
    ctx.set_var("y", EvalResult::AnyValue);
    ctx.set_var("x", EvalResult::Value("again".to_string()));
    assert_eq!(show(&ctx.get_var("x")), r#"Value("again")"#);
    assert_eq!(show(ctx.lookup_var("y").unwrap()), "AnyValue");
    assert_eq!(show(&ctx.eval_expr_by_id(1000, &mut record)), "Undefined");
    assert_eq!(show(&script.expressions()[3].eval(&mut ctx, &mut record)), r#"Value("again")"#);
    ctx.print("line".to_string());
    assert_eq!(ctx.take_printed(), vec!["line"]);
}

#[test]
fn a_statement_hands_back_its_failure() {
    let script = MapperScript::parse_unchecked("missing\n# note\nx = 1").unwrap();
    let mut record = ValueAccessor::new();
    let mut ctx = script.context(None);
    let outcomes: Vec<Option<String>> =
        script.statement_list().iter().map(|s| s.eval(&mut ctx, &mut record)).collect();
    assert_eq!(outcomes, vec![Some("Variable with name missing not found.".to_string()), None, None]);
    let failures = script.eval_with_context(&mut ctx, &mut record);
    assert_eq!(failures, vec!["Variable with name missing not found."]);
}

#[test]
fn a_context_finds_templates() {
    let templates = vec![
        PatternTemplate { name: "a".to_string(), value: TemplateValue::Single("one".to_string()) },
        PatternTemplate { name: "b".to_string(), value: TemplateValue::Multi(vec![]) },
    ];
    let script = MapperScript::parse_unchecked("").unwrap();
    let ctx = script.context(Some(&templates));
    assert_eq!(ctx.get_template("a"), Some("one"));
    assert_eq!(ctx.get_template("b"), None);
    assert_eq!(ctx.get_template("c"), None);
    assert_eq!(script.context(None).get_template("a"), None);
}

#[test]
fn any_value_lets_a_match_case_fire_and_writes_nothing() {
    let script = MapperScript::parse_unchecked(r#"@name = match { v => v }; @title = match { v => "fired" }"#).unwrap();
    let mut record = ValueAccessor::new();
    let mut ctx = script.context(None);
    ctx.set_var("v", EvalResult::AnyValue);
    assert!(script.eval_with_context(&mut ctx, &mut record).is_empty());
    assert_eq!(record.get("name"), None);
    assert_eq!(record.get("title"), Some("fired"));
}

#[test]
fn built_in_functions_are_named_by_their_words() {
    for (word, f) in [
        ("concat", BuiltInFunction::Concat),
        ("CONCAT", BuiltInFunction::Concat),
        ("Uppercase", BuiltInFunction::Uppercase),
        ("lowercase", BuiltInFunction::Lowercase),
        ("capitalize", BuiltInFunction::Capitalize),
        ("trim", BuiltInFunction::Trim),
        ("print", BuiltInFunction::Print),
        ("number", BuiltInFunction::ToNumber),
        ("first", BuiltInFunction::First),
        ("template", BuiltInFunction::Template),
    ] {
        assert_eq!(BuiltInFunction::from_str(word).unwrap(), f);
    }
    let e = BuiltInFunction::from_str("ToNumber").unwrap_err();
    assert_eq!((e.kind, e.message.as_str()), (TuliproxErrorKind::Info, "Unknown function ToNumber"));
    assert!(BuiltInFunction::from_str("").is_err());
    assert!(BuiltInFunction::from_str(" trim").is_err());
}

#[test]
fn calls_work_on_the_values_of_their_arguments() {
    let text = |s: &str| EvalResult::Value(s.to_string());
    let failure = |s: &str| EvalResult::Failure(s.to_string());
    let args = vec![text("a"), failure("one"), EvalResult::Undefined, failure("two")];
    assert_eq!(
        show(&call_builtin(BuiltInFunction::Trim, &args, None)),
        r#"Failure("Function 'Trim' failed: one")"#
    );
    assert_eq!(printed_line(BuiltInFunction::Print, &args), None);
    let none = vec![EvalResult::Undefined, EvalResult::AnyValue];
    assert_eq!(show(&call_builtin(BuiltInFunction::Concat, &none, None)), "Undefined");
    assert_eq!(printed_line(BuiltInFunction::Print, &none), Some("undefined".to_string()));
    assert_eq!(printed_line(BuiltInFunction::Concat, &none), None);
    let some = vec![EvalResult::Undefined, EvalResult::Named(vec![]), text("b")];
    assert_eq!(show(&call_builtin(BuiltInFunction::First, &some, None)), "Undefined");
    assert_eq!(show(&call_builtin(BuiltInFunction::ToNumber, &some, None)), "Named([])");
    assert_eq!(show(&call_builtin(BuiltInFunction::Template, &some, None)), "Undefined");
    assert_eq!(show(&call_builtin(BuiltInFunction::Concat, &some, None)), r#"Value("b")"#);
    assert_eq!(printed_line(BuiltInFunction::Print, &some), Some("b".to_string()));
    let number = vec![EvalResult::Number(Decimal::from_int(3))];
    assert_eq!(
        show(&call_builtin(BuiltInFunction::ToNumber, &number, None)),
        "Number(Decimal { units: 3000000000 })"
    );
    assert_eq!(show(&call_builtin(BuiltInFunction::Uppercase, &number, None)), r#"Value("3")"#);
}

#[test]
fn captured_pairs_become_a_value() {
    let re = regex::Regex::new(r"(\w)(?<d>\d)?").unwrap();
    let pairs = captured_pairs(&re, "a1 b");
    let expected: Vec<(String, String)> = [("1", "a"), ("2", "1"), ("d", "1"), ("1", "b")]
        .iter()
        .map(|(k, v)| (k.to_string(), v.to_string()))
        .collect();
    assert_eq!(pairs, expected);
    assert_eq!(show(&pairs_result(vec![])), "Undefined");
    assert_eq!(show(&pairs_result(expected[..1].to_vec())), r#"Value("a")"#);
    assert_eq!(show(&pairs_result(expected[..2].to_vec())), r#"Named([("1", "a"), ("2", "1")])"#);
    assert!(captured_pairs(&re, "!!").is_empty());
    let no_groups = regex::Regex::new(r"\d").unwrap();
    assert!(captured_pairs(&no_groups, "123").is_empty());
}

#[test]
fn validation_of_hand_built_arenas() {
    let case = |keys: Vec<MatchCaseKey>, id: usize| MatchCase { keys, expression: ExprId(id) };
    let arena = vec![
        Expression::NullValue,
        Expression::MatchBlock(vec![case(vec![MatchCaseKey::AnyMatch, MatchCaseKey::AnyMatch], 0)]),
    ];
    let e = MapperScript::validate(&arena, &vec![Statement::Expression(ExprId(1))]).unwrap_err();
    assert!(matches!(e, ScriptError::DuplicateAnyMatch));
    assert_eq!(e.message(), "Match case can only have one '_'");
    let e = MapperScript::validate(&vec![], &vec![Statement::Comment, Statement::Expression(ExprId(3))])
        .unwrap_err();
    assert!(matches!(e, ScriptError::MissingExpression(3)));
    assert_eq!(e.message(), "No matching expression found at index 3");
    assert!(MapperScript::validate(&arena, &vec![Statement::Expression(ExprId(0)), Statement::Comment]).is_ok());
}

#[test]
fn errors_carry_kind_and_message() {
    let e = TuliproxError::new(TuliproxErrorKind::Notify, "told".to_string());
    assert_eq!(e.kind, TuliproxErrorKind::Notify);
    assert_eq!(e.to_string(), "told");
    assert_eq!(tuliprox::error::info_err("m".to_string()).kind, TuliproxErrorKind::Info);
}

#[test]
fn texts_are_joined_and_capitalized() {
    let parts = |items: &[&str]| items.iter().map(|s| s.to_string()).collect::<Vec<_>>();
    assert_eq!(join(&parts(&[]), ", "), "");
    assert_eq!(join(&parts(&["a"]), ", "), "a");
    assert_eq!(join(&parts(&["a", "", "b"]), ", "), "a, , b");
    assert_eq!(capitalize(""), "");
    assert_eq!(capitalize("élan vital"), "Élan vital");
    assert_eq!(capitalize("ǆ"), "Ǆ");
    assert_eq!(capitalize("1a"), "1a");
}

#[test]
fn texts_are_compared_by_character() {
    assert_eq!(compare_text("", ""), Ordered::Equal);
    assert_eq!(compare_text("", "a"), Ordered::Less);
    assert_eq!(compare_text("b", "a"), Ordered::Greater);
    assert_eq!(compare_text("ab", "abc"), Ordered::Less);
    assert_eq!(compare_text("abd", "abc"), Ordered::Greater);
    assert_eq!(compare_text("\u{10000}", "\u{ffff}"), Ordered::Greater);
    assert_eq!(Ordered::Less.reverse(), Ordered::Greater);
    assert_eq!(Ordered::Equal.reverse(), Ordered::Equal);
    assert!(eq_ignore_ascii_case("AbC", "aBc"));
    assert!(!eq_ignore_ascii_case("abc", "abd"));
    assert!(!eq_ignore_ascii_case("abc", "ab"));
    assert!(!eq_ignore_ascii_case("É", "é"));
    assert!(eq_ignore_ascii_case("", ""));
}

#[test]
fn texts_are_searched_and_replaced() {
    assert!(contains("hello", "ell"));
    assert!(contains("hello", ""));
    assert!(contains("", ""));
    assert!(contains("hello", "hello"));
    assert!(!contains("hello", "hello!"));
    assert!(!contains("hello", "elo"));
    assert!(contains("aab", "ab"));
    assert_eq!(replace("aaa", "aa", "b"), "ba");
    assert_eq!(replace("abcabc", "bc", ""), "aa");
    assert_eq!(replace("abc", "x", "y"), "abc");
    assert_eq!(replace("", "x", "y"), "");
    assert_eq!(replace("xx", "x", "xx"), "xxxx");
    assert_eq!(replace("a-b", "-", "é"), "aéb");
    assert_eq!(replace("ab", "abc", "z"), "ab");
}

#[test]
fn texts_are_split_and_trimmed() {
    assert_eq!(split("a,b,,c", ','), vec!["a", "b", "", "c"]);
    assert_eq!(split("", ','), vec![""]);
    assert_eq!(split(",", ','), vec!["", ""]);
    assert_eq!(split("abc", ','), vec!["abc"]);
    assert_eq!(split_words("  a \t b\nc  "), vec!["a", "b", "c"]);
    assert!(split_words(" \u{2003} ").is_empty());
    assert!(split_words("").is_empty());
    assert_eq!(trim(" \t a b \n"), "a b");
    assert_eq!(trim(""), "");
    assert_eq!(trim("\u{3000}x\u{85}"), "x");
    assert_eq!(trim_char("//a/b/", '/'), "a/b");
    assert_eq!(trim_char("///", '/'), "");
    assert_eq!(trim_char("a", '/'), "a");
}

#[test]
fn unsigned_numbers_are_read() {
    assert_eq!(parse_u16("65535"), Some(65535));
    assert_eq!(parse_u16("65536"), None);
    assert_eq!(parse_u16("+0"), Some(0));
    assert_eq!(parse_u16(""), None);
    assert_eq!(parse_u16("+"), None);
    assert_eq!(parse_u16("-1"), None);
    assert_eq!(parse_u16("1 "), None);
    assert_eq!(parse_u16("００"), None);
    assert_eq!(parse_u32("4294967295"), Some(4294967295));
    assert_eq!(parse_u32("4294967296"), None);
    assert_eq!(parse_u32("00000000000000000001"), Some(1));
    assert_eq!(parse_unsigned("18446744073709551615", u64::MAX), Some(u64::MAX));
    assert_eq!(parse_unsigned("18446744073709551616", u64::MAX), None);
    assert_eq!(parse_unsigned("99999999999999999999", u64::MAX), None);
    assert_eq!(parse_unsigned("5", 4), None);
    assert_eq!(parse_unsigned("4", 4), Some(4));
    assert_eq!(parse_unsigned("0", 0), Some(0));
}

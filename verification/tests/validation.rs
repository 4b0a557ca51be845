use tuliprox::ast::{ExprId, MapCase, MapCaseKey, MapKey, MatchCase, MatchCaseKey, Statement};
use tuliprox::number::Decimal;
use tuliprox::script::MapperScript;

fn statement_ids(script: &MapperScript) -> Vec<ExprId> {
    script
        .statement_list()
        .iter()
        .filter_map(|s| match s {
            Statement::Expression(id) => Some(*id),
            Statement::Comment => None,
        })
        .collect()
}

fn names(list: &[&str]) -> Vec<String> {
    list.iter().map(|s| s.to_string()).collect()
}

fn key(name: &str) -> MatchCaseKey {
    MatchCaseKey::Identifier(name.to_string())
}

fn number(s: &str) -> Decimal {
    Decimal::parse(s).unwrap()
}

#[test]
fn reading_an_identifier_leaves_the_list_as_it_is() {
    let script = MapperScript::parse_unchecked(r#"x; x.k; x ~ "a"; @name; "t"; 5; null; @name ~ "a""#).unwrap();
    let ctx = script.context(None);
    let ids = statement_ids(&script);
    assert_eq!(ids.len(), 8);
    for id in &ids[..3] {
        let mut known = names(&["x", "y"]);
        assert!(ctx.validate_expr(*id, &mut known).is_ok());
        assert_eq!(known, names(&["x", "y"]));
        let mut unknown = names(&["y"]);
        let fault = ctx.validate_expr(*id, &mut unknown).unwrap_err();
        assert_eq!(format!("{fault:?}"), r#"UnknownIdentifier("x")"#);
        assert_eq!(unknown, names(&["y"]));
    }
    for id in &ids[3..] {
        let mut none: Vec<String> = Vec::new();
        assert!(ctx.validate_expr(*id, &mut none).is_ok());
        assert!(none.is_empty());
    }
    let mut list = names(&["x"]);
    let fault = ctx.validate_expr(ExprId(script.expressions().len()), &mut list).unwrap_err();
    assert_eq!(format!("{fault:?}"), format!("MissingExpression({})", script.expressions().len()));
    assert_eq!(list, names(&["x"]));
}

#[test]
fn a_fault_leaves_the_identifiers_defined_before_it() {
    let script = MapperScript::parse_unchecked(r#"{ a = "1"; b = a; c = q; d = "2" }"#).unwrap();
    let ctx = script.context(None);
    let ids = statement_ids(&script);
    let mut list = names(&["x"]);
    let fault = ctx.validate_expr(ids[0], &mut list).unwrap_err();
    assert_eq!(format!("{fault:?}"), r#"UnknownIdentifier("q")"#);
    assert_eq!(list, names(&["x", "a", "b"]));
    let mut list = names(&["q"]);
    assert!(ctx.validate_expr(ids[0], &mut list).is_ok());
    assert_eq!(list, names(&["q", "a", "b", "c", "d"]));
}

#[test]
fn an_assignment_defines_its_target_once() {
    let script = MapperScript::parse_unchecked(r#"a = "1"; a = "2"; @name = "3""#).unwrap();
    let ctx = script.context(None);
    let mut list: Vec<String> = Vec::new();
    for id in statement_ids(&script) {
        assert!(ctx.validate_expr(id, &mut list).is_ok());
    }
    assert_eq!(list, names(&["a"]));
}

#[test]
fn match_cases_repeat_when_their_key_lists_are_equal() {
    let script = MapperScript::parse_unchecked(r#"n = "1"; "x""#).unwrap();
    let ctx = script.context(None);
    let value = statement_ids(&script)[1];
    let case = |keys: Vec<MatchCaseKey>| MatchCase { keys, expression: value };
    let mut list = names(&["a", "b", "_"]);
    let cases = vec![case(vec![key("a"), key("b")]), case(vec![key("b"), key("a")]), case(vec![key("a")])];
    assert!(ctx.validate_match_block(&mut list, &cases).is_ok());
    let cases = vec![case(vec![key("a"), key("b")]), case(vec![key("b")]), case(vec![key("a"), key("b")])];
    let fault = ctx.validate_match_block(&mut list, &cases).unwrap_err();
    assert_eq!(format!("{fault:?}"), r#"DuplicateCase("a, b, ")"#);
    let cases = vec![case(vec![MatchCaseKey::AnyMatch]), case(vec![MatchCaseKey::AnyMatch])];
    let fault = ctx.validate_match_block(&mut list, &cases).unwrap_err();
    assert_eq!(format!("{fault:?}"), r#"DuplicateCase("_, ")"#);
    let cases = vec![case(vec![key("_")]), case(vec![MatchCaseKey::AnyMatch])];
    assert!(ctx.validate_match_block(&mut list, &cases).is_ok());
    let cases = vec![case(vec![key("a, b")]), case(vec![key("a"), key("b")])];
    let mut wide = names(&["a", "b", "a, b"]);
    assert!(ctx.validate_match_block(&mut wide, &cases).is_ok());
    assert_eq!(list, names(&["a", "b", "_"]));
}

#[test]
fn match_cases_are_checked_in_order() {
    let script = MapperScript::parse_unchecked(r#"n = "1"; m = q"#).unwrap();
    let ctx = script.context(None);
    let ids = statement_ids(&script);
    let mut list = names(&["a"]);
    let cases = vec![
        MatchCase { keys: vec![key("a")], expression: ids[0] },
        MatchCase { keys: vec![key("n")], expression: ids[1] },
        MatchCase { keys: vec![key("zz")], expression: ids[0] },
    ];
    let fault = ctx.validate_match_block(&mut list, &cases).unwrap_err();
    assert_eq!(format!("{fault:?}"), r#"UnknownIdentifier("q")"#);
    assert_eq!(list, names(&["a", "n"]));
    let cases = vec![MatchCase { keys: vec![MatchCaseKey::AnyMatch, MatchCaseKey::AnyMatch], expression: ids[0] }];
    let fault = ctx.validate_match_block(&mut list, &cases).unwrap_err();
    assert_eq!(format!("{fault:?}"), "DuplicateAnyMatch");
    let cases = vec![MatchCase { keys: vec![key("a")], expression: ExprId(99) }];
    let fault = ctx.validate_match_block(&mut list, &cases).unwrap_err();
    assert_eq!(format!("{fault:?}"), "MissingExpression(99)");
    assert!(ctx.validate_match_block(&mut list, &Vec::new()).is_ok());
}

#[test]
fn map_blocks_check_their_key_and_their_cases() {
    let script = MapperScript::parse_unchecked(r#"n = "1"; "x""#).unwrap();
    let ctx = script.context(None);
    let ids = statement_ids(&script);
    let case = |keys: Vec<MapCaseKey>, expression: ExprId| MapCase { keys, expression };
    let text = |s: &str| MapCaseKey::Text(s.to_string());
    let mut list = names(&["a"]);
    let on_a = MapKey::Identifier("a".to_string());
    let cases = vec![
        case(vec![text("x"), text("y")], ids[0]),
        case(vec![MapCaseKey::RangeFull(number("1"), number("1")), MapCaseKey::RangeFrom(number("3"))], ids[1]),
        case(vec![MapCaseKey::RangeTo(number("0")), MapCaseKey::RangeEq(number("2")), MapCaseKey::AnyMatch], ids[1]),
    ];
    assert!(ctx.validate_map_block(&mut list, &on_a, &cases).is_ok());
    assert_eq!(list, names(&["a", "n"]));
    let mut list = names(&["a"]);
    let fault = ctx.validate_map_block(&mut list, &MapKey::Identifier("b".to_string()), &cases).unwrap_err();
    assert_eq!(format!("{fault:?}"), r#"UnknownIdentifier("b")"#);
    let fault = ctx
        .validate_map_block(&mut list, &MapKey::VarAccess("b".to_string(), "k".to_string()), &cases)
        .unwrap_err();
    assert_eq!(format!("{fault:?}"), r#"UnknownIdentifier("b")"#);
    assert_eq!(list, names(&["a"]));
    let mut free: Vec<String> = Vec::new();
    assert!(ctx.validate_map_block(&mut free, &MapKey::FieldAccess("name".to_string()), &cases).is_ok());
    assert_eq!(free, names(&["n"]));
    let cases = vec![case(vec![text("x")], ids[0]), case(vec![text("y"), text("x")], ids[1])];
    let mut list = names(&["a"]);
    let fault = ctx.validate_map_block(&mut list, &on_a, &cases).unwrap_err();
    assert_eq!(format!("{fault:?}"), r#"DuplicateCase("x")"#);
    assert_eq!(list, names(&["a", "n"]));
    let cases = vec![case(vec![MapCaseKey::RangeFull(number("2"), number("1"))], ids[1])];
    let fault = ctx.validate_map_block(&mut list, &on_a, &cases).unwrap_err();
    assert!(format!("{fault:?}").starts_with("InvalidRange("));
    let cases = vec![case(vec![MapCaseKey::AnyMatch], ids[1]), case(vec![MapCaseKey::AnyMatch], ids[1])];
    let fault = ctx.validate_map_block(&mut list, &on_a, &cases).unwrap_err();
    assert_eq!(format!("{fault:?}"), "DuplicateMapAnyMatch");
}

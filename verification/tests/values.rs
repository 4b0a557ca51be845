use std::cmp::Ordering;
use tuliprox::number::Decimal;
use tuliprox::text::Ordered;
use tuliprox::value::{compare_tuple_vec, concat_args, to_number, EvalResult};

fn text(s: &str) -> EvalResult {
    EvalResult::Value(s.to_string())
}

fn num(s: &str) -> EvalResult {
    EvalResult::Number(Decimal::parse(s).unwrap())
}

fn pairs(items: &[(&str, &str)]) -> Vec<(String, String)> {
    items.iter().map(|(k, v)| (k.to_string(), v.to_string())).collect()
}

fn named(items: &[(&str, &str)]) -> EvalResult {
    EvalResult::Named(pairs(items))
}

fn samples() -> Vec<EvalResult> {
    vec![
        EvalResult::Undefined,
        text("a"),
        text("42"),
        num("42"),
        named(&[("k", "v")]),
        EvalResult::AnyValue,
        EvalResult::Failure("bad".to_string()),
    ]
}

#[test]
fn any_value_matches_everything() {
    for v in samples() {
        assert!(EvalResult::AnyValue.matches(&v));
        assert!(v.matches(&EvalResult::AnyValue));
        assert_eq!(EvalResult::AnyValue.compare(&v), Some(Ordering::Equal));
        assert_eq!(v.compare(&EvalResult::AnyValue), Some(Ordering::Equal));
    }
}

#[test]
fn texts_match_when_equal() {
    assert!(text("a").matches(&text("a")));
    assert!(!text("a").matches(&text("b")));
    assert!(!text("a").matches(&text("A")));
}

#[test]
fn numbers_match_texts_that_denote_them() {
    assert!(num("42").matches(&text("42")));
    assert!(text("42").matches(&num("42")));
    assert!(text("42.0004").matches(&num("42")));
    assert!(!text("42.5").matches(&num("42")));
    assert!(!text("forty-two").matches(&num("42")));
    assert!(num("1").matches(&num("1.0005")));
    assert!(!num("1").matches(&num("1.5")));
}

#[test]
fn named_values_match_as_mappings() {
    assert!(named(&[("a", "1"), ("b", "2")]).matches(&named(&[("b", "2"), ("a", "1")])));
    assert!(named(&[("a", "0"), ("a", "1")]).matches(&named(&[("a", "1")])));
    assert!(!named(&[("a", "1")]).matches(&named(&[("a", "2")])));
    assert!(!named(&[("a", "1")]).matches(&named(&[("a", "1"), ("b", "2")])));
    assert!(!named(&[("a", "1")]).matches(&text("a")));
    assert!(!text("a").matches(&named(&[("a", "1")])));
    assert!(!num("1").matches(&named(&[("a", "1")])));
}

#[test]
fn undefined_and_failure_match_nothing_but_any() {
    for v in samples() {
        if matches!(v, EvalResult::AnyValue) {
            continue;
        }
        assert!(!EvalResult::Undefined.matches(&v));
        assert!(!EvalResult::Failure("x".to_string()).matches(&v));
        assert_eq!(EvalResult::Undefined.compare(&v), None);
    }
}

#[test]
fn compare_orders_texts_by_character() {
    assert_eq!(text("a").compare(&text("b")), Some(Ordering::Less));
    assert_eq!(text("b").compare(&text("a")), Some(Ordering::Greater));
    assert_eq!(text("a").compare(&text("a")), Some(Ordering::Equal));
    assert_eq!(text("a").compare(&text("ab")), Some(Ordering::Less));
    assert_eq!(text("").compare(&text("")), Some(Ordering::Equal));
    assert_eq!(text("Z").compare(&text("a")), Some(Ordering::Less));
    assert_eq!(text("é").compare(&text("z")), Some(Ordering::Greater));
}

#[test]
fn compare_of_text_and_number_reads_the_text() {
    assert_eq!(num("5").compare(&text("7")), Some(Ordering::Less));
    assert_eq!(text("7").compare(&num("5")), Some(Ordering::Greater));
    assert_eq!(text("5").compare(&num("7")), Some(Ordering::Less));
    assert_eq!(text("5").compare(&num("5.0001")), Some(Ordering::Equal));
    assert_eq!(text("five").compare(&num("5")), None);
    assert_eq!(num("5").compare(&text("five")), None);
}

#[test]
fn compare_of_named_values_is_equal_or_nothing() {
    assert_eq!(named(&[("a", "1")]).compare(&named(&[("a", "1")])), Some(Ordering::Equal));
    assert_eq!(named(&[("a", "1")]).compare(&named(&[("a", "2")])), None);
    assert_eq!(named(&[("a", "1")]).compare(&num("1")), None);
}

#[test]
fn is_error_tells_failures_apart() {
    assert!(EvalResult::Failure("x".to_string()).is_error());
    assert!(!EvalResult::Undefined.is_error());
    assert!(!text("x").is_error());
}

#[test]
fn to_number_reads_or_fails_with_the_text() {
    assert!(matches!(to_number("12.5"), EvalResult::Number(n) if n.units == 12_500_000_000));
    assert!(matches!(to_number("x1"), EvalResult::Failure(m) if m == "Invalid number: x1"));
}

#[test]
fn compare_tuple_vec_compares_mappings() {
    assert!(compare_tuple_vec(&pairs(&[]), &pairs(&[])));
    assert!(compare_tuple_vec(&pairs(&[("a", "1"), ("b", "2")]), &pairs(&[("b", "2"), ("a", "1")])));
    assert!(!compare_tuple_vec(&pairs(&[("a", "1")]), &pairs(&[])));
    assert!(!compare_tuple_vec(&pairs(&[]), &pairs(&[("a", "1")])));
    assert!(compare_tuple_vec(&pairs(&[("a", "1"), ("a", "2")]), &pairs(&[("a", "2")])));
    assert!(!compare_tuple_vec(&pairs(&[("a", "2"), ("a", "1")]), &pairs(&[("a", "2")])));
}

#[test]
fn concat_args_gives_the_pieces_in_order() {
    let args = vec![
        text("a"),
        EvalResult::Undefined,
        num("3"),
        num("2.5"),
        named(&[("k1", "v1"), ("k2", "v2")]),
        EvalResult::AnyValue,
        EvalResult::Failure("no".to_string()),
        named(&[]),
        named(&[("k", "v")]),
    ];
    assert_eq!(
        concat_args(&args),
        vec!["a", "3", "2.5", "k1", ": ", "v1", ", ", "k2", ": ", "v2", "k", ": ", "v"]
    );
    assert!(concat_args(&vec![]).is_empty());
}

#[test]
fn clone_keeps_the_value() {
    for v in samples() {
        let copy = v.clone();
        assert_eq!(format!("{v:?}"), format!("{copy:?}"));
    }
}

#[test]
fn the_two_orders_say_the_same() {
    assert_eq!(num("5").order_with(&text("7")), Some(Ordered::Less));
    assert_eq!(text("7").order_with(&num("5")), Some(Ordered::Greater));
    assert_eq!(num("5").order_with(&num("5.0001")), Some(Ordered::Equal));
    assert_eq!(num("5").order_with(&text("five")), None);
    for a in samples() {
        for b in samples() {
            let expected = a.order_with(&b).map(|o| match o {
                Ordered::Less => Ordering::Less,
                Ordered::Equal => Ordering::Equal,
                Ordered::Greater => Ordering::Greater,
            });
            assert_eq!(a.compare(&b), expected);
        }
    }
}

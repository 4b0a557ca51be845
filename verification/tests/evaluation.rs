use tuliprox::accessor::{PatternTemplate, TemplateValue, ValueAccessor};
use tuliprox::script::MapperScript;

fn record(fields: &[(&str, &str)]) -> ValueAccessor {
    let mut accessor = ValueAccessor::new();
    for (field, value) in fields {
        assert!(accessor.set(field, value));
    }
    accessor
}

/// Runs `script` on a record with the given fields and hands back what is in
/// `@name` afterwards, and the failures.
fn outcome(fields: &[(&str, &str)], script: &str) -> (Option<String>, Vec<String>) {
    let mapper = MapperScript::parse_unchecked(script).expect("Parsing failed");
    let mut accessor = record(fields);
    let report = mapper.eval_reporting(&mut accessor, None);
    (accessor.get("name").map(str::to_string), report.failures)
}

fn value(fields: &[(&str, &str)], script: &str) -> Option<String> {
    let (name, failures) = outcome(fields, script);
    assert!(failures.is_empty(), "{failures:?}");
    name
}

fn text(script: &str) -> String {
    value(&[], script).expect("a value")
}

#[test]
fn literals_are_written_as_they_are() {
    assert_eq!(text(r#"@name = "abc""#), "abc");
    assert_eq!(text("@name = 42"), "42");
    assert_eq!(text("@name = 4.50"), "4.5");
    assert_eq!(text("@name = -3"), "-3");
    assert_eq!(text("@name = 7.0004"), "7");
}

#[test]
fn null_and_unset_fields_change_nothing() {
    assert_eq!(value(&[("name", "old")], "@name = null"), Some("old".to_string()));
    assert_eq!(value(&[("name", "old")], "@name = @title"), Some("old".to_string()));
    assert_eq!(value(&[], "@name = @title"), None);
    assert_eq!(value(&[("title", "t")], "@name = @TITLE"), Some("t".to_string()));
}

#[test]
fn variables_hold_what_was_assigned_last() {
    assert_eq!(text(r#"a = "1"; a = "2"; b = a; a = "3"; @name = concat(a, b)"#), "32");
}

#[test]
fn an_assignment_evaluates_to_undefined() {
    assert_eq!(value(&[("name", "old")], r#"@name = { a = "x" }"#), Some("old".to_string()));
    assert_eq!(text(r#"@name = { a = "x"; a }"#), "x");
    assert_eq!(value(&[("name", "old")], "@name = { }"), Some("old".to_string()));
}

#[test]
fn reading_an_unknown_variable_fails() {
    let (name, failures) = outcome(&[], "@name = missing");
    assert_eq!(name, None);
    assert_eq!(
        failures,
        vec!["Failed to set field name value: Variable with name missing not found."]
    );
    let (_, failures) = outcome(&[], "missing");
    assert_eq!(failures, vec!["Variable with name missing not found."]);
}

#[test]
fn entries_are_read_from_named_values_only() {
    let fields = [("caption", "A1")];
    let capture = r#"p = @caption ~ "(?<letter>[A-Z])(?<digit>\d)""#;
    assert_eq!(value(&fields, &format!("{capture}; @name = p.letter")), Some("A".to_string()));
    assert_eq!(value(&fields, &format!("{capture}; @name = p.digit")), Some("1".to_string()));
    assert_eq!(value(&fields, &format!("{capture}; @name = p.1")), Some("A".to_string()));
    let (_, failures) = outcome(&fields, &format!("{capture}; p.other"));
    assert_eq!(failures, vec!["Variable with name p has no field other."]);
    let (_, failures) = outcome(&[], r#"p = "text"; p.k"#);
    assert_eq!(failures, vec!["Variable with name p has no fields."]);
    let (_, failures) = outcome(&[], "p = 1; p.k");
    assert_eq!(failures, vec!["Variable with name p has no fields."]);
    let (_, failures) = outcome(&[], "p.k");
    assert_eq!(failures, vec!["Variable with name p not found."]);
    assert_eq!(value(&[("name", "old")], "p = null; @name = p.k"), Some("old".to_string()));
}

#[test]
fn a_single_capture_is_a_text() {
    assert_eq!(value(&[("caption", "abc 123")], r#"@name = @caption ~ "(\d+)""#), Some("123".to_string()));
    assert_eq!(
        value(&[("caption", "a1 b2")], r#"@name = @caption ~ "([a-z])\d""#),
        Some("1: a, 1: b".to_string())
    );
    assert_eq!(value(&[("caption", "abc")], r#"@name = @caption ~ "b""#), None);
}

#[test]
fn a_group_that_took_no_part_is_left_out() {
    assert_eq!(
        value(&[("caption", "ab")], r#"@name = @caption ~ "(a)|(b)""#),
        Some("1: a, 2: b".to_string())
    );
}

#[test]
fn a_regex_reads_a_variable_only_if_it_holds_a_text() {
    assert_eq!(text(r#"v = "x42"; @name = v ~ "(\d+)""#), "42");
    assert_eq!(value(&[("name", "old")], r#"v = 42; @name = v ~ "(\d+)""#), Some("old".to_string()));
    assert_eq!(
        value(&[("name", "old")], r#"@name = missing ~ "(\d+)""#),
        Some("old".to_string())
    );
}

#[test]
fn concat_joins_without_separator() {
    assert_eq!(text(r#"@name = concat("a", "b", 3, 1.5)"#), "ab31.5");
    assert_eq!(value(&[("name", "old")], "@name = concat(null, @title)"), Some("old".to_string()));
    assert_eq!(
        value(&[("caption", "a1")], r#"@name = concat(">", @caption ~ "(.)(.)", "<")"#),
        Some(">1: a, 2: 1<".to_string())
    );
}

#[test]
fn uppercase_and_lowercase_join_with_a_space() {
    assert_eq!(text(r#"@name = uppercase("ab", "cd")"#), "AB CD");
    assert_eq!(text(r#"@name = lowercase("AB", "Cd")"#), "ab cd");
    assert_eq!(text(r#"@name = uppercase("straße")"#), "STRASSE");
    assert_eq!(
        value(&[("caption", "a1")], r#"@name = uppercase(@caption ~ "(.)(.)")"#),
        Some("1 :  A ,  2 :  1".to_string())
    );
}

#[test]
fn trim_trims_each_argument_and_the_whole() {
    assert_eq!(text(r#"@name = trim("  a  ", " b ")"#), "a b");
    assert_eq!(text(r#"@name = trim("  ", " b ")"#), "b");
    assert_eq!(text(r#"@name = trim("   ")"#), "");
}

#[test]
fn capitalize_raises_the_first_character_of_each_argument() {
    assert_eq!(text(r#"@name = capitalize("east", "west side", "", "ßa")"#), "East West side  SSa");
}

#[test]
fn print_gives_nothing() {
    assert_eq!(value(&[("name", "old")], r#"@name = print("x")"#), Some("old".to_string()));
}

#[test]
fn print_puts_out_its_arguments_in_one_line() {
    let mapper = MapperScript::parse_unchecked(
        "print(\"a\", 1, @caption ~ \"(.)(.)\")\nprint(null)\nprint(@title, null)\nprint(missing)\nconcat(\"x\")\nprint(\"last\")",
    )
    .expect("Parsing failed");
    let mut accessor = record(&[("caption", "k7")]);
    let report = mapper.eval_reporting(&mut accessor, None);
    assert_eq!(report.printed, vec!["a11: k, 2: 7", "undefined", "undefined", "last"]);
    assert_eq!(report.failures, vec!["Function 'Print' failed: Variable with name missing not found."]);
}

#[test]
fn number_reads_a_text() {
    assert_eq!(text(r#"@name = number("42.50")"#), "42.5");
    assert_eq!(text("@name = number(7)"), "7");
    let (_, failures) = outcome(&[], r#"@name = number("x")"#);
    assert_eq!(failures, vec!["Failed to set field name value: Invalid number: x"]);
    assert_eq!(value(&[("name", "old")], "@name = number(null)"), Some("old".to_string()));
}

#[test]
fn first_takes_the_first_pair_of_a_named_value() {
    assert_eq!(
        value(&[("caption", "a1 b2")], r#"@name = first(@caption ~ "([a-z])\d")"#),
        Some("a".to_string())
    );
    assert_eq!(text(r#"@name = first("x")"#), "x");
    assert_eq!(text("@name = first(null, 5)"), "5");
}

#[test]
fn a_failed_argument_fails_the_call() {
    let (name, failures) = outcome(&[], r#"@name = concat("a", uppercase(missing), other)"#);
    assert_eq!(name, None);
    assert_eq!(
        failures,
        vec![
            "Failed to set field name value: Function 'Concat' failed: Function 'Uppercase' failed: Variable with name missing not found."
        ]
    );
    let (_, failures) = outcome(&[], "number(a)");
    assert_eq!(failures, vec!["Function 'ToNumber' failed: Variable with name a not found."]);
}

#[test]
fn arguments_are_evaluated_left_to_right_even_if_one_fails() {
    let (name, failures) = outcome(&[], r#"concat(missing, { @name = "set" })"#);
    assert_eq!(name, Some("set".to_string()));
    assert_eq!(failures, vec!["Function 'Concat' failed: Variable with name missing not found."]);
}

#[test]
fn templates_are_looked_up_by_name() {
    let templates = vec![
        PatternTemplate { name: "a".to_string(), value: TemplateValue::Single("first".to_string()) },
        PatternTemplate {
            name: "m".to_string(),
            value: TemplateValue::Multi(vec!["x".to_string(), "y".to_string()]),
        },
        PatternTemplate { name: "a".to_string(), value: TemplateValue::Single("last".to_string()) },
    ];
    let run = |script: &str, with: Option<&Vec<PatternTemplate>>| {
        let mapper = MapperScript::parse(script, with).expect("Parsing failed");
        let mut accessor = record(&[("name", "old"), ("caption", "a1")]);
        mapper.eval(&mut accessor, with);
        accessor.get("name").map(str::to_string)
    };
    assert_eq!(run(r#"@name = template("a")"#, Some(&templates)), Some("last".to_string()));
    assert_eq!(run(r#"@name = template("m")"#, Some(&templates)), Some("old".to_string()));
    assert_eq!(run(r#"@name = template("none")"#, Some(&templates)), Some("old".to_string()));
    assert_eq!(run(r#"@name = template("a")"#, None), Some("old".to_string()));
    assert_eq!(run(r#"@name = template("a")"#, Some(&vec![])), Some("old".to_string()));
    assert_eq!(run(r#"@name = template(1)"#, Some(&templates)), Some("old".to_string()));
    assert_eq!(
        run(r#"@name = template(@caption ~ "(.)(.)")"#, Some(&templates)),
        Some("last".to_string())
    );
}

#[test]
fn the_first_firing_match_case_is_evaluated() {
    let script = r#"a = "x"; b = null; c = 1
        @name = match { (a, b) => "ab", missing => "m", (a, c) => "ac", a => "a", _ => "any" }"#;
    assert_eq!(text(script), "ac");
    assert_eq!(text(r#"b = null; @name = match { b => "b", _ => "any" }"#), "any");
    assert_eq!(value(&[("name", "old")], r#"b = null; @name = match { b => "b" }"#), Some("old".to_string()));
}

#[test]
fn only_the_firing_case_has_effects() {
    let (name, failures) = outcome(
        &[],
        r#"a = "x"; match { a => { @name = "first" }, _ => { @name = "second" } }"#,
    );
    assert_eq!(name, Some("first".to_string()));
    assert!(failures.is_empty());
}

#[test]
fn map_matches_texts_and_ranges() {
    let map = r#"map v { "a" | "b" => "text", ..0 => "neg", 1 => "one", 2..3 => "few", 10.. => "many", _ => "other" }"#;
    let run = |assign: &str| text(&format!("v = {assign}; @name = {map}"));
    assert_eq!(run(r#""a""#), "text");
    assert_eq!(run(r#""b""#), "text");
    assert_eq!(run(r#""c""#), "other");
    assert_eq!(run("-5"), "neg");
    assert_eq!(run("0"), "neg");
    assert_eq!(run("0.0005"), "neg");
    assert_eq!(run("1"), "one");
    assert_eq!(run(r#""1""#), "one");
    assert_eq!(run("1.5"), "other");
    assert_eq!(run("2"), "few");
    assert_eq!(run("3.0009"), "few");
    assert_eq!(run("3.5"), "other");
    assert_eq!(run("10"), "many");
    assert_eq!(run(r#""11""#), "many");
    assert_eq!(run("null"), "other");
}

#[test]
fn map_reads_fields_and_entries() {
    assert_eq!(
        value(&[("chno", "7")], r#"@name = map @chno { 1..9 => "single", _ => "more" }"#),
        Some("single".to_string())
    );
    assert_eq!(
        value(&[], r#"@name = map @chno { 1..9 => "single", _ => "unset" }"#),
        Some("unset".to_string())
    );
    assert_eq!(
        value(
            &[("caption", "a1")],
            r#"p = @caption ~ "(?<l>.)(?<d>.)"; @name = map p.d { "1" => "one", _ => "other" }"#
        ),
        Some("one".to_string())
    );
    assert_eq!(
        value(&[], r#"@name = map missing { "1" => "one", _ => "fallback" }"#),
        Some("fallback".to_string())
    );
    assert_eq!(
        value(&[("name", "old")], r#"@name = map missing { "1" => "one" }"#),
        Some("old".to_string())
    );
}

#[test]
fn a_named_value_is_written_as_pairs() {
    assert_eq!(
        value(&[("caption", "a1")], r#"@name = @caption ~ "(?<l>.)(?<d>.)""#),
        Some("1: a, 2: 1, l: a, d: 1".to_string())
    );
}

#[test]
fn failures_are_reported_in_order_and_the_run_goes_on() {
    let (name, failures) = outcome(&[], "a\n@name = \"ok\"\nb.c\n# comment\nnumber(\"x\")");
    assert_eq!(name, Some("ok".to_string()));
    assert_eq!(
        failures,
        vec![
            "Variable with name a not found.",
            "Variable with name b not found.",
            "Invalid number: x"
        ]
    );
}

#[test]
fn two_runs_on_equal_records_agree() {
    let mapper = MapperScript::parse(
        r#"q = @caption ~ "(\w+) (\w+)"; @name = concat(first(q), "-", q.2); n = number(@chno); @group = map n { ..10 => "low", _ => "high" }"#,
        None,
    )
    .unwrap();
    let mut a = record(&[("caption", "hello world"), ("chno", "12")]);
    let mut b = record(&[("caption", "hello world"), ("chno", "12")]);
    mapper.eval(&mut a, None);
    mapper.eval(&mut b, None);
    mapper.eval(&mut b, None);
    for field in ["name", "group", "caption", "chno", "title"] {
        assert_eq!(a.get(field), b.get(field));
    }
    assert_eq!(a.get("name"), Some("hello-world"));
    assert_eq!(a.get("group"), Some("high"));
}

#[test]
fn records_know_fifteen_fields_by_any_case() {
    let names = [
        "name", "title", "caption", "group", "id", "chno", "logo", "logo_small", "parent_code",
        "audio_track", "time_shift", "rec", "url", "epg_channel_id", "epg_id",
    ];
    let mut accessor = ValueAccessor::new();
    for name in names {
        assert_eq!(accessor.get(name), None);
        assert!(accessor.set(&name.to_uppercase(), name));
    }
    for name in names {
        assert_eq!(accessor.get(name), Some(name));
    }
    assert!(!accessor.set("other", "x"));
    assert!(!accessor.set("", "x"));
    assert!(!accessor.set("names", "x"));
    assert_eq!(accessor.get("other"), None);
    assert!(accessor.set("Logo", "changed"));
    assert_eq!(accessor.get("logo"), Some("changed"));
    assert_eq!(accessor.get("logo_small"), Some("logo_small"));
}

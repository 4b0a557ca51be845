use tuliprox::accessor::ValueAccessor;
use tuliprox::script::MapperScript;

fn record(field: &str, value: &str) -> ValueAccessor {
    let mut accessor = ValueAccessor::new();
    assert!(accessor.set(field, value));
    accessor
}

fn run(script: &str, accessor: &mut ValueAccessor) {
    let mapper = MapperScript::parse(script, None).expect("Parsing failed");
    mapper.eval(accessor, None);
}

#[test]
fn test_mapper_dsl_eval() {
    let dsl = r#"
            coast = @Caption ~ "(?i)\b(EAST|WEST)\b"
            quality = @Caption ~ "(?i)\b([FUSL]?HD|SD|4K|1080p|720p|3840p)\b"
            quality = uppercase(quality)
            quality = map quality {
                       "SHD" => "SD",
                       "LHD" => "HD",
                       "720p" => "HD",
                       "1080p" => "FHD",
                       "4K" => "UHD",
                       "3840p" => "UHD",
                        _ => quality,
            }
            coast_quality = match {
                (coast, quality) => concat(capitalize(coast), " ", uppercase(quality)),
                coast => concat(capitalize(coast), " HD"),
                quality => concat("East ", uppercase(quality)),
            }
            @Caption = concat("US: TNT", " ", coast_quality)
            @Group = "United States - Entertainment"
    "#;

    let mapper = MapperScript::parse(dsl, None).expect("Parsing failed");
    println!("Program: {mapper:?}");
    let channels = vec![
        ("D", "HD"), ("A", "FHD"), ("Z", ""), ("K", "HD"), ("B", "HD"), ("A", "HD"),
        ("K", "SHD"), ("C", "LHD"), ("L", "FHD"), ("R", "UHD"), ("T", "SD"), ("A", "FHD"),
    ];
    let expected = vec![
        "US: TNT East HD", "US: TNT East FHD", "US: TNT ", "US: TNT East HD",
        "US: TNT East HD", "US: TNT East HD", "US: TNT East SD", "US: TNT East HD",
        "US: TNT East FHD", "US: TNT East UHD", "US: TNT East SD", "US: TNT East FHD",
    ];
    for (i, (name, quality)) in channels.into_iter().enumerate() {
        let mut accessor = record("title", &format!("Chanel {name} [{quality}]"));
        accessor.set("caption", &format!("Chanel {name} [{quality}]"));
        mapper.eval(&mut accessor, None);
        println!("Result: {accessor:?}");
        assert_eq!(accessor.get("caption"), Some(expected[i]));
        assert_eq!(accessor.get("group"), Some("United States - Entertainment"));
    }
}

#[test]
fn test_complex() {
    let script = r#"
        print("LOCAL")
            coast = @Caption ~ "!COAST!"
            quality = uppercase(@Caption ~ "!QUALITY!")

            quality = map quality {
              "SHD" | "SD"           => "SD",
              "LHD" | "720P" | "HD"  => "HD",
              "FHD" | "1080P"        => "FHD",
              "UHD" | "4K" | "3840P" => "UHD",
              _ => quality,
            }

            coast_quality = match {
                (coast, quality) => concat(capitalize(coast), " ", uppercase(quality)),
                quality => uppercase(quality),
                _ => "HD",
            }

            network = uppercase(first(@Caption ~ "(?i)\b(CBS|NBC|FOX|ABC|PBS|CW|UNIVISION)\b"))
            station = map network {
              "CBS" => @Caption ~ "(?i)\b(WINK|WFOR)\b",
              "NBC" => @Caption ~ "(?i)\b(WBBH|WTVJ)\b",
              "FOX" => @Caption ~ "(?i)\b(WFTX|WSVM)\b",
              "ABC" => @Caption ~ "(?i)\b(WZVN|WPLG)\b",
              "PBS" => @Caption ~ "(?i)\b(WGCU|WPBT)\b",
              "CW" => @Caption ~ "(?i)\b(WINK|WSFL)\b",
              "UNIVISION" => @Caption ~ "(?i)\b(WUVF|WLTV)\b",
              _ => null,
            }

            match {
              station => {
                station = uppercase(station)
                @Caption = map station {
                  "WINK" => concat("!US_CBS_FM_PREFIX!", " ", coast_quality),
                  "WBBH" => concat("!US_NBC_FM_PREFIX!", " ", coast_quality),
                  "WFTX" => concat("!US_FOX_FM_PREFIX!", " ", coast_quality),
                  "WZVN" => concat("!US_ABC_FM_PREFIX!", " ", coast_quality),
                  "WGCU" => concat("!US_PBS_FM_PREFIX!", " ", coast_quality),
                  "WUVF" => concat("!US_UNIVISION_FM_PREFIX!", " ", coast_quality),

                  "WFOR" => concat("!US_CBS_MIA_PREFIX!", " ", coast_quality),
                  "WTVJ" => concat("!US_NBC_MIA_PREFIX!", " ", coast_quality),
                  "WSVM" => concat("!US_FOX_MIA_PREFIX!", " ", coast_quality),
                  "WPLG" => concat("!US_ABC_MIA_PREFIX!", " ", coast_quality),
                  "WPBT" => concat("!US_PBS_MIA_PREFIX!", " ", coast_quality),
                  "WSFL" => concat("!US_CW_MIA_PREFIX!", " ", coast_quality),
                  "WLTV" => concat("!US_UNIVISION_MIA_PREFIX!", " ", coast_quality),

                  _ => concat(network, " ", station, " ", coast_quality),
                }

                @Group = concat("🇺🇸 > USA - ", network, " Locals")
              }
            }
        "#;
    let mapper = MapperScript::parse(script, None).expect("Parsing failed");
    println!("Program: {mapper:?}");
    let mut accessor = record("caption", "WINK CBS Fort Myers HD");
    mapper.eval(&mut accessor, None);
    assert_eq!(accessor.get("caption"), Some("!US_CBS_FM_PREFIX! HD"));
    assert_eq!(accessor.get("group"), Some("🇺🇸 > USA - CBS Locals"));
}

#[test]
fn quality_normalization() {
    let mut accessor = record("Caption", "Chanel A [LHD]");
    run(
        r#"quality = @Caption ~ "(?i)\b([FUSL]?HD|SD|4K|1080p|720p|3840p)\b"; quality = uppercase(quality); quality = map quality { "LHD" => "HD", "720p" => "HD", "1080p" => "FHD", "4K" => "UHD", _ => quality }; @Caption = concat("US: TNT ", quality)"#,
        &mut accessor,
    );
    assert_eq!(accessor.get("Caption"), Some("US: TNT HD"));
}

#[test]
fn regex_with_no_match_is_undefined_and_assigning_it_is_a_no_op() {
    let mut accessor = record("Caption", "Just text");
    run(r#"q = @Caption ~ "(\d+)"; @Caption = q"#, &mut accessor);
    assert_eq!(accessor.get("Caption"), Some("Just text"));
    run(r#"q = @Caption ~ "(\d+)"; @Caption = concat(q)"#, &mut accessor);
    assert_eq!(accessor.get("Caption"), Some("Just text"));
}

#[test]
fn concat_drops_an_undefined_argument() {
    let mut accessor = record("Caption", "Just text");
    run(r#"q = @Caption ~ "(\d+)"; @Caption = concat("x", q)"#, &mut accessor);
    assert_eq!(accessor.get("Caption"), Some("x"));
}

#[test]
fn named_captures_are_joined_in_order() {
    let mut accessor = record("Caption", "A1 B2");
    run(r#"p = @Caption ~ "(?<a>[A-Z])(?<n>\d)"; @Caption = p"#, &mut accessor);
    assert_eq!(
        accessor.get("Caption"),
        Some("1: A, 2: 1, a: A, n: 1, 1: B, 2: 2, a: B, n: 2")
    );
}

#[test]
fn numeric_range_map() {
    let mut accessor = record("chno", "42");
    run(
        r#"n = number(@chno); @group = map n { 0..9 => "low", 10..99 => "mid", 100.. => "high" }"#,
        &mut accessor,
    );
    assert_eq!(accessor.get("group"), Some("mid"));
}

#[test]
fn match_tuple_falls_through_to_single_key() {
    let mut accessor = ValueAccessor::new();
    run(
        r#"coast = "east"; quality = null; r = match { (coast, quality) => "A", coast => "B", _ => "C" }; @Caption = r"#,
        &mut accessor,
    );
    assert_eq!(accessor.get("Caption"), Some("B"));
}

#[test]
fn match_skips_a_case_whose_variable_was_never_set() {
    let mapper = MapperScript::parse_unchecked(
        r#"coast = "east"; r = match { (coast, quality) => "A", coast => "B", _ => "C" }; @Caption = r"#,
    )
    .expect("Parsing failed");
    let mut accessor = ValueAccessor::new();
    mapper.eval(&mut accessor, None);
    assert_eq!(accessor.get("Caption"), Some("B"));
}

#[test]
fn failure_in_one_statement_does_not_stop_the_next() {
    let mapper = MapperScript::parse_unchecked("@Title = concat(missing, \"x\")\n@Caption = \"ok\"")
        .expect("Parsing failed");
    let mut accessor = ValueAccessor::new();
    mapper.eval(&mut accessor, None);
    assert_eq!(accessor.get("Title"), None);
    assert_eq!(accessor.get("Caption"), Some("ok"));
}

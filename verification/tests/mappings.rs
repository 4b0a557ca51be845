use tuliprox::accessor::{PatternTemplate, TemplateValue, ValueAccessor};
use tuliprox::error::TuliproxErrorKind;
use tuliprox::mapping::{
    apply_templates, build_counters, valid_counter_field, valid_mapper_field, CounterModifier,
    Mapper, MapperOperation, Mapping, MappingCounterDefinition, MappingDefinition, Mappings,
};
use tuliprox::xmltv::{Epg, PersistedEpgSource, TVGuide, XmlEvent, XmlTag};

fn template(name: &str, value: &str) -> PatternTemplate {
    PatternTemplate { name: name.to_string(), value: TemplateValue::Single(value.to_string()) }
}

fn multi(name: &str) -> PatternTemplate {
    PatternTemplate {
        name: name.to_string(),
        value: TemplateValue::Multi(vec!["a".to_string(), "b".to_string()]),
    }
}

#[test]
fn counter_modifiers_have_their_words() {
    for (word, m) in [
        ("assign", CounterModifier::Assign),
        ("suffix", CounterModifier::Suffix),
        ("prefix", CounterModifier::Prefix),
    ] {
        assert_eq!(CounterModifier::from_str(word).unwrap(), m);
        assert_eq!(m.to_string(), word);
    }
    let e = CounterModifier::from_str("Assign").unwrap_err();
    assert_eq!(e.kind, TuliproxErrorKind::Info);
    assert_eq!(e.message, "Unknown CounterModifier: Assign");
    assert_eq!(CounterModifier::default(), CounterModifier::Assign);
    assert_eq!(MappingCounterDefinition::default().modifier, CounterModifier::Assign);
}

#[test]
fn field_names_are_checked_as_written() {
    for name in [
        "name", "title", "caption", "group", "id", "chno", "logo", "logo_small", "parent_code",
        "audio_track", "time_shift", "rec", "url", "epg_channel_id", "epg_id",
    ] {
        assert!(valid_mapper_field(name));
    }
    for name in ["Name", "", "names", " name"] {
        assert!(!valid_mapper_field(name));
    }
    for name in ["name", "title", "caption", "chno"] {
        assert!(valid_counter_field(name));
    }
    for name in ["group", "Title", "id", ""] {
        assert!(!valid_counter_field(name));
    }
}

#[test]
fn templates_replace_their_placeholders_in_order() {
    let templates = vec![template("A", "x!B!"), template("B", "y"), multi("M"), template("B", "z")];
    assert_eq!(apply_templates("!A!-!B!-!A!", Some(&templates)).unwrap(), "xy-y-xy");
    assert_eq!(apply_templates("!A !B", Some(&templates)).unwrap(), "!A !B");
    assert_eq!(apply_templates("!A!", None).unwrap(), "!A!");
    let e = apply_templates("a !M! b", Some(&templates)).unwrap_err();
    assert_eq!(e.message, "Template M has more than one value");
    assert_eq!(apply_templates("!!!", Some(&vec![template("", "e")])).unwrap(), "e!");
}

#[test]
fn operations_check_fields_and_take_templates() {
    let templates = vec![template("P", "pre")];
    let mut op = MapperOperation::Prefix { field: "name".to_string(), value: "!P!-".to_string() };
    assert!(op.prepare(Some(&templates)).is_ok());
    assert!(matches!(&op, MapperOperation::Prefix { field, value } if field == "name" && value == "pre-"));
    let mut op = MapperOperation::SetValue { field: "title".to_string(), value: "!P!".to_string() };
    assert!(op.prepare(None).is_ok());
    assert!(matches!(&op, MapperOperation::SetValue { value, .. } if value == "!P!"));
    let mut op = MapperOperation::Suffix { field: "nope".to_string(), value: "!P!".to_string() };
    assert_eq!(op.prepare(Some(&templates)).unwrap_err().message, "Invalid mapper attribute field nope");
    assert!(matches!(&op, MapperOperation::Suffix { value, .. } if value == "!P!"));
    let mut op = MapperOperation::Copy { field: "name".to_string(), source: "Title".to_string() };
    assert_eq!(op.prepare(None).unwrap_err().message, "Invalid mapper source field Title");
    let mut op = MapperOperation::Copy { field: "x".to_string(), source: "y".to_string() };
    assert_eq!(op.prepare(None).unwrap_err().message, "Invalid mapper attribute field x");
    let mut op = MapperOperation::Copy { field: "name".to_string(), source: "title".to_string() };
    assert!(op.prepare(None).is_ok());
    for mut op in [
        MapperOperation::Lowercase { field: "name".to_string() },
        MapperOperation::Uppercase { field: "group".to_string() },
        MapperOperation::Capitalize { field: "url".to_string() },
    ] {
        assert!(op.prepare(Some(&templates)).is_ok());
    }
    let mut op = MapperOperation::Uppercase { field: "Group".to_string() };
    assert_eq!(op.prepare(None).unwrap_err().message, "Invalid mapper attribute field Group");
    let mut op = MapperOperation::SetValue { field: "name".to_string(), value: "!M!".to_string() };
    assert_eq!(
        op.prepare(Some(&vec![multi("M")])).unwrap_err().message,
        "Template M has more than one value"
    );
}

fn mapper(script: &str) -> Mapper {
    Mapper { filter: "Group ~ \".*\"".to_string(), script: script.to_string(), t_script: None }
}

fn counter(field: &str) -> MappingCounterDefinition {
    MappingCounterDefinition {
        filter: "f".to_string(),
        field: field.to_string(),
        concat: "-".to_string(),
        modifier: CounterModifier::Suffix,
        value: 3,
        padding: 2,
    }
}

#[test]
fn a_mapper_compiles_its_script_with_the_templates() {
    let templates = vec![template("QUALITY", r"(?i)\b(HD|SD)\b")];
    let mut m = mapper(r#"q = @caption ~ "!QUALITY!"; @name = uppercase(q)"#);
    assert!(m.prepare(Some(&templates)).is_ok());
    let mut record = ValueAccessor::new();
    record.set("caption", "News hd");
    m.t_script.as_ref().unwrap().eval(&mut record, Some(&templates));
    assert_eq!(record.get("name"), Some("HD"));
    let mut bad = mapper("@name = missing");
    assert_eq!(bad.prepare(None).unwrap_err().message, "Identifier unknown missing");
    assert!(bad.t_script.is_none());
    let mut bad = mapper("@name = !M!");
    assert_eq!(
        bad.prepare(Some(&vec![multi("M")])).unwrap_err().message,
        "Template M has more than one value"
    );
}

#[test]
fn counters_are_built_from_their_definitions() {
    let counters = build_counters(&vec![counter("name"), counter("chno")]).unwrap();
    assert_eq!(counters.len(), 2);
    assert_eq!(counters[1].field, "chno");
    assert_eq!((counters[0].value, counters[0].padding), (3, 2));
    assert_eq!(counters[0].modifier, CounterModifier::Suffix);
    assert_eq!(
        build_counters(&vec![counter("name"), counter("group"), counter("x")]).unwrap_err().message,
        "Invalid counter field group"
    );
}

fn mapping(id: &str, scripts: &[&str], counters: Option<Vec<MappingCounterDefinition>>) -> Mapping {
    Mapping {
        id: id.to_string(),
        match_as_ascii: false,
        mapper: Some(scripts.iter().map(|s| mapper(s)).collect()),
        counter: counters,
        t_counter: None,
        templates: None,
    }
}

#[test]
fn mappings_are_prepared_and_found_by_id() {
    let mut all = Mappings {
        mappings: MappingDefinition {
            templates: Some(vec![template("T", "\"text\"")]),
            mapping: vec![
                mapping("a", &["@name = !T!"], Some(vec![counter("title")])),
                mapping("b", &[], None),
                mapping("a", &["@title = 1"], None),
            ],
        },
    };
    assert!(all.prepare().is_ok());
    let found = all.get_mapping("a").unwrap();
    assert_eq!(found.mapper.as_ref().unwrap()[0].script, "@name = !T!");
    assert!(found.mapper.as_ref().unwrap()[0].t_script.is_some());
    assert_eq!(found.t_counter.as_ref().unwrap().len(), 1);
    assert_eq!(found.templates.as_ref().unwrap()[0].name, "T");
    assert_eq!(all.get_mapping("b").unwrap().t_counter.as_ref().map(Vec::len), None);
    assert!(all.get_mapping("c").is_none());

    let mut failing = Mappings {
        mappings: MappingDefinition {
            templates: None,
            mapping: vec![
                mapping("a", &["@name = 1"], None),
                mapping("b", &["@name = 1", "x = y"], Some(vec![counter("nope")])),
                mapping("c", &["?"], None),
            ],
        },
    };
    assert_eq!(failing.prepare().unwrap_err().message, "Identifier unknown y");
    let mut bad_counter = mapping("b", &["@name = 1"], Some(vec![counter("nope")]));
    assert_eq!(bad_counter.prepare(None).unwrap_err().message, "Invalid counter field nope");
}

fn tag(name: &str, attributes: &[(&str, &str)], value: Option<&str>, children: Vec<XmlTag>) -> XmlTag {
    let mut t = XmlTag::new(
        name.to_string(),
        if attributes.is_empty() {
            None
        } else {
            Some(attributes.iter().map(|(k, v)| (k.to_string(), v.to_string())).collect())
        },
    );
    t.value = value.map(str::to_string);
    if !children.is_empty() {
        t.children = Some(children);
    }
    t
}

fn written(events: &[XmlEvent]) -> String {
    events
        .iter()
        .map(|e| match e {
            XmlEvent::Start(name, attributes) => {
                let attrs: String = attributes.iter().map(|(k, v)| format!(" {k}=\"{v}\"")).collect();
                format!("<{name}{attrs}>")
            }
            XmlEvent::Text(text) => text.clone(),
            XmlEvent::End(name) => format!("</{name}>"),
        })
        .collect()
}

#[test]
fn tags_know_their_attributes() {
    let t = tag("channel", &[("id", "1"), ("lang", "en"), ("id", "2")], None, vec![]);
    assert_eq!(t.get_attribute_value("id").map(String::as_str), Some("2"));
    assert_eq!(t.get_attribute_value("lang").map(String::as_str), Some("en"));
    assert_eq!(t.get_attribute_value("other"), None);
    assert_eq!(XmlTag::new("x".to_string(), None).get_attribute_value("id"), None);
    let fresh = XmlTag::new("x".to_string(), None);
    assert!(fresh.value.is_none() && fresh.children.is_none() && fresh.icon.is_none());
    assert!(fresh.normalized_epg_ids.is_empty());
}

#[test]
fn a_guide_is_written_tag_by_tag() {
    let channel = tag(
        "channel",
        &[("id", "c1")],
        None,
        vec![tag("display-name", &[], Some("One"), vec![]), tag("icon", &[("src", "u")], None, vec![])],
    );
    let programme = tag("programme", &[("channel", "c1")], Some("text"), vec![tag("title", &[], Some("T"), vec![])]);
    let mut events = Vec::new();
    channel.write_events(&mut events);
    assert_eq!(
        written(&events),
        "<channel id=\"c1\"><display-name>One</display-name><icon src=\"u\"></icon></channel>"
    );
    let epg = Epg {
        priority: 0,
        attributes: Some(vec![("generator".to_string(), "g".to_string())]),
        children: vec![channel, programme],
    };
    assert_eq!(
        written(&epg.events()),
        "<tv generator=\"g\"><channel id=\"c1\"><display-name>One</display-name><icon src=\"u\"></icon></channel>\
         <programme channel=\"c1\">text<title>T</title></programme></tv>"
    );
    let empty = Epg { priority: 0, attributes: None, children: vec![] };
    assert_eq!(written(&empty.events()), "<tv></tv>");
}

#[test]
fn sources_are_kept_in_order_of_priority() {
    let source = |path: &str, priority: i16| PersistedEpgSource { file_path: path.to_string(), priority };
    let guide = TVGuide::new(vec![
        source("a", 3),
        source("b", -1),
        source("c", 3),
        source("d", 0),
        source("e", -1),
        source("f", i16::MAX),
        source("g", i16::MIN),
    ]);
    let order: Vec<(&str, i16)> =
        guide.get_epg_sources().iter().map(|s| (s.file_path.as_str(), s.priority)).collect();
    assert_eq!(
        order,
        vec![("g", i16::MIN), ("b", -1), ("e", -1), ("d", 0), ("a", 3), ("c", 3), ("f", i16::MAX)]
    );
    assert!(TVGuide::new(vec![]).get_epg_sources().is_empty());
}

#[test]
fn an_operation_that_cannot_be_prepared_is_left_as_it_was() {
    let mut op = MapperOperation::Copy { field: "name".to_string(), source: "Title".to_string() };
    assert!(op.prepare(None).is_err());
    assert!(matches!(&op, MapperOperation::Copy { field, source } if field == "name" && source == "Title"));
    let mut op = MapperOperation::SetValue { field: "name".to_string(), value: "!M! !P!".to_string() };
    assert!(op.prepare(Some(&vec![template("P", "pre"), multi("M")])).is_err());
    assert!(matches!(&op, MapperOperation::SetValue { field, value } if field == "name" && value == "!M! !P!"));
}

#[test]
fn without_templates_an_operation_stays_what_it_is() {
    let mut op = MapperOperation::Suffix { field: "title".to_string(), value: "!P!".to_string() };
    assert!(op.prepare(None).is_ok());
    assert!(matches!(&op, MapperOperation::Suffix { field, value } if field == "title" && value == "!P!"));
    let mut op = MapperOperation::Copy { field: "title".to_string(), source: "name".to_string() };
    assert!(op.prepare(Some(&vec![template("name", "x")])).is_ok());
    assert!(matches!(&op, MapperOperation::Copy { field, source } if field == "title" && source == "name"));
}

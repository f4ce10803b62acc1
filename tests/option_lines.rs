use usi_engine_host::engine_validator::{EngineOption, MetadataScan, ValidationError};

#[test]
fn check_option_parses_to_full_record() {
    let o = EngineOption::parse("option name Ponder type check default false").unwrap();
    assert_eq!(o.name, "Ponder");
    assert_eq!(o.option_type, "check");
    assert_eq!(o.default, Some("false".to_string()));
    assert_eq!(o.min, None);
    assert_eq!(o.max, None);
    assert!(o.var.is_empty());
}

#[test]
fn spin_bounds_stay_literal_strings() {
    let o = EngineOption::parse("option name USI_Hash type spin default 16 min 1 max 1024").unwrap();
    assert_eq!(o.min.as_deref(), Some("1"));
    assert_eq!(o.max.as_deref(), Some("1024"));
    assert_eq!(o.default.as_deref(), Some("16"));
}

#[test]
fn lines_without_the_tag_are_not_options() {
    for line in [
        "",
        "o",
        "option",
        "option name",
        "option nam",
        "Option name X type spin",
        " option name X type spin",
        "id name Engine",
        "usiok",
    ] {
        assert!(EngineOption::parse(line).is_none(), "{:?}", line);
    }
}

#[test]
fn names_keep_inner_spaces_single() {
    let o = EngineOption::parse("option name Skill   Level type spin default 20 min 0 max 20").unwrap();
    assert_eq!(o.name, "Skill Level");
    assert_eq!(o.option_type, "spin");
}

#[test]
fn combo_values_collect_in_order() {
    let o = EngineOption::parse(
        "option name Style type combo default Normal var Solid var Normal var Risky",
    )
    .unwrap();
    assert_eq!(o.var, vec!["Solid".to_string(), "Normal".to_string(), "Risky".to_string()]);
    assert_eq!(o.default.as_deref(), Some("Normal"));
}

#[test]
fn unknown_keywords_are_skipped() {
    let o = EngineOption::parse("option name X type spin step 5 default 3 extra").unwrap();
    assert_eq!(o.default.as_deref(), Some("3"));
    assert_eq!(o.min, None);
}

#[test]
fn missing_name_or_type_is_rejected() {
    assert!(EngineOption::parse("option name type spin").is_none());
    assert!(EngineOption::parse("option name X").is_none());
    assert!(EngineOption::parse("option name X type").is_none());
    assert!(EngineOption::parse("option name ").is_none());
}

#[test]
fn keyword_at_end_without_value_is_ignored() {
    let o = EngineOption::parse("option name X type string default").unwrap();
    assert_eq!(o.default, None);
}

#[test]
fn rendering_and_parsing_again_keeps_every_field() {
    for line in [
        "option name USI_Hash type spin default 16 min 1 max 1024",
        "option name Skill Level type combo default b var a var b var c",
        "option name BookFile   type string default book.bin junk min 0",
        "option name Clear Hash type button",
    ] {
        let o = EngineOption::parse(line).unwrap();
        let again = EngineOption::parse(&o.to_line()).unwrap();
        assert_eq!(again.name, o.name);
        assert_eq!(again.option_type, o.option_type);
        assert_eq!(again.default, o.default);
        assert_eq!(again.min, o.min);
        assert_eq!(again.max, o.max);
        assert_eq!(again.var, o.var);
    }
}

#[test]
fn rendered_line_has_the_declaration_shape() {
    let o = EngineOption::parse("option name  A  B type spin max 9 default 1 var x").unwrap();
    assert_eq!(o.to_line(), "option name A B type spin default 1 max 9 var x");
}

#[test]
fn identification_scan_collects_metadata() {
    let mut scan = MetadataScan::new();
    for line in [
        "id name  Sample Engine ",
        "id author Someone",
        "option name USI_Hash type spin default 16 min 1 max 1024",
        "option name broken",
        "info string hello",
        "usiok",
        "id name Later",
    ] {
        scan.feed(line);
    }
    let m = scan.finish().unwrap();
    assert_eq!(m.name, "Sample Engine");
    assert_eq!(m.author.as_deref(), Some("Someone"));
    assert_eq!(m.options.len(), 1);
    assert_eq!(m.options[0].name, "USI_Hash");
}

#[test]
fn identification_without_usiok_fails() {
    let mut scan = MetadataScan::new();
    scan.feed("id name X");
    assert_eq!(scan.finish().err(), Some(ValidationError::NoUsiOk));
}

#[test]
fn unnamed_engine_keeps_default_name() {
    let mut scan = MetadataScan::new();
    scan.feed("usiok");
    assert_eq!(scan.finish().unwrap().name, "Unknown Engine");
}

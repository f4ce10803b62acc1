use usi_engine_host::engine_validator::EngineOption;

#[test]
fn test_parse_option_spin() {
    let line = "option name USI_Hash type spin default 16 min 1 max 1024";
    let option = EngineOption::parse(line).unwrap();
    assert_eq!(option.name, "USI_Hash");
    assert_eq!(option.option_type, "spin");
    assert_eq!(option.default, Some("16".to_string()));
    assert_eq!(option.min, Some("1".to_string()));
    assert_eq!(option.max, Some("1024".to_string()));
}

#[test]
fn test_parse_option_check() {
    let line = "option name Ponder type check default false";
    let option = EngineOption::parse(line).unwrap();
    assert_eq!(option.name, "Ponder");
    assert_eq!(option.option_type, "check");
    assert_eq!(option.default, Some("false".to_string()));
}

#[test]
fn test_parse_option_string() {
    let line = "option name BookFile type string default book.bin";
    let option = EngineOption::parse(line).unwrap();
    assert_eq!(option.name, "BookFile");
    assert_eq!(option.option_type, "string");
    assert_eq!(option.default, Some("book.bin".to_string()));
}

use reqev::errors::{ConfigError, RunError};
use reqev::source::{validate_format, FileContext};

fn ctx(format: &str) -> FileContext {
    FileContext { path: "tests/simple.yaml".to_string(), format: format.to_string() }
}

#[test]
fn test_yaml_selector_accepted() {
    assert_eq!(validate_format(&ctx("yaml")), Ok(()));
}

#[test]
fn test_yaml_selector_case_insensitive() {
    assert_eq!(validate_format(&ctx("Yaml")), Ok(()));
    assert_eq!(validate_format(&ctx("YAML")), Ok(()));
}

#[test]
fn test_other_selectors_rejected() {
    let expected = Err(RunError::Configuration(ConfigError::UnsupportedFormat));
    assert_eq!(validate_format(&ctx("abcd1234")), expected);
    assert_eq!(validate_format(&ctx("json")), expected);
    assert_eq!(validate_format(&ctx("")), expected);
    assert_eq!(validate_format(&ctx("yaml ")), expected);
}

//! Tests for settings loading: the validating constructor over a JSON
//! configuration text, and the output path.

use cssinliner::settings::{get_json_str_val, settings_from_json};

#[test]
fn well_formed_configuration_loads() {
    let data = "{\"htmlInputFile\": \"in/index.html\", \"outputDir\": \"out\", \"htmlOutputFile\": \"index.html\"}";
    let s = settings_from_json(data).expect("settings should load");
    assert_eq!(s.html_input_file, "in/index.html");
    assert_eq!(s.output_dir, "out");
    assert_eq!(s.html_output_file, "index.html");
    assert_eq!(s.output_path(), "out/index.html");
}

#[test]
fn invalid_json_fails() {
    assert!(settings_from_json("not json at all {").is_none());
}

#[test]
fn missing_field_fails() {
    let data = "{\"htmlInputFile\": \"a.html\", \"outputDir\": \"out\"}";
    assert!(settings_from_json(data).is_none());
}

#[test]
fn non_string_field_fails() {
    let data = "{\"htmlInputFile\": \"a.html\", \"outputDir\": 7, \"htmlOutputFile\": \"b.html\"}";
    assert!(settings_from_json(data).is_none());
}

#[test]
fn top_level_array_fails() {
    assert!(settings_from_json("[1, 2, 3]").is_none());
}

#[test]
fn string_field_is_read() {
    let v: serde_json::Value =
        serde_json::from_str("{\"name\": \"value\", \"number\": 3}").unwrap();
    assert_eq!(get_json_str_val(&v, "name"), Some("value".to_string()));
    assert_eq!(get_json_str_val(&v, "number"), None);
    assert_eq!(get_json_str_val(&v, "absent"), None);
}

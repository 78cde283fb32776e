use farm_bundle_size_analyzer::config::config_from_options;
use farm_bundle_size_analyzer::{AnalyzerConfig, FarmBundleSizeAnalyzerPlugin};

#[test]
fn test_analyzer_config_defaults() {
    let config = AnalyzerConfig::default();

    assert_eq!(config.warning_threshold, 1024 * 1024);
    assert!(config.show_suggestions);
    assert!(!config.generate_report);
}

#[test]
fn test_plugin_creation_with_default_config() {
    let plugin = FarmBundleSizeAnalyzerPlugin::new(String::new());

    assert_eq!(plugin.name(), "farm-bundle-size-analyzer");
    assert_eq!(plugin.config.warning_threshold, 1024 * 1024);
    assert!(plugin.config.show_suggestions);
    assert!(!plugin.config.generate_report);
}

#[test]
fn test_plugin_creation_with_custom_config() {
    let custom_options = r#"{
        "warning_threshold": 2097152,
        "show_suggestions": false,
        "generate_report": true
    }"#;

    let plugin = FarmBundleSizeAnalyzerPlugin::new(custom_options.to_string());

    assert_eq!(plugin.config.warning_threshold, 2097152);
    assert!(!plugin.config.show_suggestions);
    assert!(plugin.config.generate_report);
}

#[test]
fn test_plugin_creation_with_invalid_config() {
    let invalid_options = r#"{"invalid": "json"}"#;

    let plugin = FarmBundleSizeAnalyzerPlugin::new(invalid_options.to_string());

    assert_eq!(plugin.config.warning_threshold, 1024 * 1024);
    assert!(plugin.config.show_suggestions);
    assert!(!plugin.config.generate_report);
}

#[test]
fn test_analyzer_config_deserialization() {
    let json = r#"{
        "warning_threshold": 2097152,
        "show_suggestions": false,
        "generate_report": true
    }"#;

    let config = config_from_options(json);

    assert_eq!(config.warning_threshold, 2097152);
    assert!(!config.show_suggestions);
    assert!(config.generate_report);
}

#[test]
fn test_analyzer_config_partial_deserialization() {
    let json = r#"{"warning_threshold": 2097152}"#;

    let config = config_from_options(json);

    assert_eq!(config.warning_threshold, 2097152);
    assert!(config.show_suggestions);
    assert!(!config.generate_report);
}

#[test]
fn test_plugin_config_validation() {
    let test_configs = vec![
        ("{}", "empty options"),
        (r#"{"warning_threshold": 0}"#, "zero threshold"),
        (r#"{"warning_threshold": 999999999}"#, "huge threshold"),
        (r#"{"show_suggestions": false}"#, "suggestions off"),
        (r#"{"generate_report": true}"#, "report on"),
    ];

    for (config_json, description) in test_configs {
        let plugin = FarmBundleSizeAnalyzerPlugin::new(config_json.to_string());
        assert_eq!(plugin.name(), "farm-bundle-size-analyzer", "options case: {}", description);
    }
}

#[test]
fn test_malformed_payloads_fall_back_to_defaults() {
    let payloads = vec![
        "not json at all",
        r#"{"warning_threshold": "big"}"#,
        r#"{"warning_threshold": -5}"#,
        r#"{"warning_threshold": 1.5}"#,
        r#"{"warning_threshold": 4096, "show_suggestions": "yes"}"#,
        "[1, 2, 3]",
    ];

    for payload in payloads {
        let config = config_from_options(payload);
        assert_eq!(config, AnalyzerConfig::default(), "payload: {}", payload);
    }
}

use jinja_rs::report::{perform_task, LibError, ReportExt};

#[test]
fn perform_task_reports_parse_failure() {
    let report = perform_task("deadbeef", "https://example.com/errors").unwrap_err();
    assert_eq!(report.title, "Failed to parse config at config.json");
    assert_eq!(report.code.as_deref(), Some("config::invalid_format"));
    assert_eq!(
        report.attachments,
        vec!["The application cannot proceed without a valid config.".to_string()]
    );
    let api = report.to_api_error();
    assert_eq!(api.title, "Failed to parse config at config.json");
    assert_eq!(api.code.as_deref(), Some("config::invalid_format"));
    assert_eq!(api.git_hash, "deadbeef");
    assert_eq!(api.history.len(), 1);
}

#[test]
fn error_messages_follow_their_variant() {
    let parse = LibError::ConfigParseError {
        path: "j2.yaml".to_string(),
        source_name: "j2.yaml".to_string(),
        source_text: "vars: [".to_string(),
        span_offset: 6,
        span_len: 1,
    };
    assert_eq!(parse.message(), "Failed to parse config at j2.yaml");
    let timeout = LibError::NetworkError { timeout: 30 };
    assert_eq!(timeout.message(), "Network timeout after 30s");
    let zero = LibError::NetworkError { timeout: 0 };
    assert_eq!(zero.message(), "Network timeout after 0s");
    let large = LibError::NetworkError { timeout: 1048576 };
    assert_eq!(large.message(), "Network timeout after 1048576s");
}

#[test]
fn error_help_names_the_fix() {
    let timeout = LibError::NetworkError { timeout: 1 };
    assert_eq!(timeout.help(), "Ensure the configuration file is valid JSON.");
    assert_eq!(timeout.code(), "config::invalid_format");
}

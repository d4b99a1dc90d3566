use xmind_cli::cli::output::{CliErrorBody, ErrorCode};
use xmind_cli::infra::xmind::json::JsonValue;

#[test]
fn documented_error_codes_map_to_documented_exit_codes() {
    let mappings = [
        (ErrorCode::InvalidUsage, 2),
        (ErrorCode::FileNotFound, 3),
        (ErrorCode::ParseFailed, 4),
        (ErrorCode::SheetNotFound, 5),
        (ErrorCode::NotFound, 5),
        (ErrorCode::AmbiguousSheet, 6),
        (ErrorCode::AmbiguousSelector, 6),
        (ErrorCode::InvalidTreeInput, 7),
        (ErrorCode::InvalidPatch, 7),
        (ErrorCode::PatchConflict, 8),
        (ErrorCode::RootOperationNotAllowed, 8),
        (ErrorCode::ValidationFailed, 9),
        (ErrorCode::WriteFailed, 10),
        (ErrorCode::UnsupportedFormat, 11),
        (ErrorCode::UnsupportedAssetType, 11),
        (ErrorCode::CloudDownloadFailed, 12),
    ];

    for (code, expected_exit_code) in mappings {
        assert_eq!(code.exit_code(), expected_exit_code, "{code:?}");
    }
}

#[test]
fn error_body_serializes_required_agent_contract_fields() {
    let error = CliErrorBody::new(
        ErrorCode::NotFound,
        "Selector did not match a topic.".to_owned(),
        true,
        "Run tree or find to rediscover the topic selector, then retry.".to_owned(),
    );

    assert_eq!(error.code.name(), "not_found");
    assert_eq!(error.message, "Selector did not match a topic.");
    assert_eq!(error.retryable, true);
    assert_eq!(
        error.suggested_fix,
        "Run tree or find to rediscover the topic selector, then retry."
    );
    assert_eq!(error.exit_code, 5);
}

#[test]
fn error_body_context_builders_fill_their_fields() {
    let error = CliErrorBody::new(ErrorCode::InvalidPatch, "m".to_owned(), false, "f".to_owned())
        .with_selector("title:A".to_owned())
        .with_path("/tmp/a.xmind".to_owned())
        .with_operation_field_context(3, "set".to_owned(), "title");
    assert_eq!(error.selector.as_deref(), Some("title:A"));
    assert_eq!(error.path.as_deref(), Some("/tmp/a.xmind"));
    assert_eq!(error.operation_index, Some(3));
    assert_eq!(error.operation.as_deref(), Some("set"));
    assert_eq!(error.field_path.as_deref(), Some("ops[3].title"));
    assert_eq!(error.details, JsonValue::Null);
    assert_eq!(error.exit_code, 7);
}

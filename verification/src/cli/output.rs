//! Error codes, error bodies and warnings of the command envelope.
use vstd::prelude::*;
use crate::infra::xmind::json::JsonValue;
use crate::text::{chars_of, decimal, decimal_spec, push_all, string_from_chars};

verus! {

/// The documented error codes of the agent error contract.
#[derive(Clone, Copy, Debug, PartialEq, Eq)]
pub enum ErrorCode {
    InvalidUsage,
    FileNotFound,
    ParseFailed,
    UnsupportedFormat,
    SheetNotFound,
    AmbiguousSheet,
    NotFound,
    AmbiguousSelector,
    InvalidTreeInput,
    InvalidPatch,
    PatchConflict,
    ValidationFailed,
    WriteFailed,
    UnsupportedAssetType,
    RootOperationNotAllowed,
    CloudDownloadFailed,
}

/// The process exit code of each error code.
pub open spec fn exit_code_spec(code: ErrorCode) -> i32 {
    match code {
        ErrorCode::InvalidUsage => 2,
        ErrorCode::FileNotFound => 3,
        ErrorCode::ParseFailed => 4,
        ErrorCode::UnsupportedFormat => 11,
        ErrorCode::SheetNotFound => 5,
        ErrorCode::NotFound => 5,
        ErrorCode::AmbiguousSheet => 6,
        ErrorCode::AmbiguousSelector => 6,
        ErrorCode::InvalidTreeInput => 7,
        ErrorCode::InvalidPatch => 7,
        ErrorCode::PatchConflict => 8,
        ErrorCode::RootOperationNotAllowed => 8,
        ErrorCode::ValidationFailed => 9,
        ErrorCode::WriteFailed => 10,
        ErrorCode::UnsupportedAssetType => 11,
        ErrorCode::CloudDownloadFailed => 12,
    }
}

/// The snake-case name under which each code is reported.
pub open spec fn code_name_spec(code: ErrorCode) -> Seq<char> {
    match code {
        ErrorCode::InvalidUsage => "invalid_usage"@,
        ErrorCode::FileNotFound => "file_not_found"@,
        ErrorCode::ParseFailed => "parse_failed"@,
        ErrorCode::UnsupportedFormat => "unsupported_format"@,
        ErrorCode::SheetNotFound => "sheet_not_found"@,
        ErrorCode::AmbiguousSheet => "ambiguous_sheet"@,
        ErrorCode::NotFound => "not_found"@,
        ErrorCode::AmbiguousSelector => "ambiguous_selector"@,
        ErrorCode::InvalidTreeInput => "invalid_tree_input"@,
        ErrorCode::InvalidPatch => "invalid_patch"@,
        ErrorCode::PatchConflict => "patch_conflict"@,
        ErrorCode::ValidationFailed => "validation_failed"@,
        ErrorCode::WriteFailed => "write_failed"@,
        ErrorCode::UnsupportedAssetType => "unsupported_asset_type"@,
        ErrorCode::RootOperationNotAllowed => "root_operation_not_allowed"@,
        ErrorCode::CloudDownloadFailed => "cloud_download_failed"@,
    }
}

impl ErrorCode {
    /// The process exit code that reports this error.
    pub fn exit_code(self) -> (r: i32)
        ensures
            r == exit_code_spec(self),
    {
        match self {
            ErrorCode::InvalidUsage => 2,
            ErrorCode::FileNotFound => 3,
            ErrorCode::ParseFailed => 4,
            ErrorCode::UnsupportedFormat => 11,
            ErrorCode::SheetNotFound | ErrorCode::NotFound => 5,
            ErrorCode::AmbiguousSheet | ErrorCode::AmbiguousSelector => 6,
            ErrorCode::InvalidTreeInput | ErrorCode::InvalidPatch => 7,
            ErrorCode::PatchConflict | ErrorCode::RootOperationNotAllowed => 8,
            ErrorCode::ValidationFailed => 9,
            ErrorCode::WriteFailed => 10,
            ErrorCode::UnsupportedAssetType => 11,
            ErrorCode::CloudDownloadFailed => 12,
        }
    }

    /// The snake-case name of this code.
    pub fn name(self) -> (r: &'static str)
        ensures
            r@ == code_name_spec(self),
    {
        match self {
            ErrorCode::InvalidUsage => "invalid_usage",
            ErrorCode::FileNotFound => "file_not_found",
            ErrorCode::ParseFailed => "parse_failed",
            ErrorCode::UnsupportedFormat => "unsupported_format",
            ErrorCode::SheetNotFound => "sheet_not_found",
            ErrorCode::AmbiguousSheet => "ambiguous_sheet",
            ErrorCode::NotFound => "not_found",
            ErrorCode::AmbiguousSelector => "ambiguous_selector",
            ErrorCode::InvalidTreeInput => "invalid_tree_input",
            ErrorCode::InvalidPatch => "invalid_patch",
            ErrorCode::PatchConflict => "patch_conflict",
            ErrorCode::ValidationFailed => "validation_failed",
            ErrorCode::WriteFailed => "write_failed",
            ErrorCode::UnsupportedAssetType => "unsupported_asset_type",
            ErrorCode::RootOperationNotAllowed => "root_operation_not_allowed",
            ErrorCode::CloudDownloadFailed => "cloud_download_failed",
        }
    }
}

/// The error part of a failed command envelope.
#[derive(Debug, PartialEq, Eq)]
pub struct CliErrorBody {
    pub code: ErrorCode,
    pub message: String,
    pub retryable: bool,
    pub suggested_fix: String,
    pub selector: Option<String>,
    pub candidates: Vec<CandidateDto>,
    pub operation_index: Option<usize>,
    pub operation: Option<String>,
    pub field_path: Option<String>,
    pub path: Option<String>,
    pub exit_code: i32,
    pub details: JsonValue,
}

/// A non-fatal note in a command envelope.
#[derive(Clone, Debug, PartialEq, Eq)]
pub struct CliWarning {
    pub code: String,
    pub message: String,
    pub path: Option<String>,
}

/// A topic or sheet that an ambiguous selector matched.
#[derive(Clone, Debug, PartialEq, Eq)]
pub struct CandidateDto {
    pub id: String,
    pub path: String,
    pub title: String,
    pub sheet: Option<String>,
}

/// `ops[<index>].<field>`, the field path of a patch operation's field.
pub open spec fn operation_field_path(index: nat, field: Seq<char>) -> Seq<char> {
    "ops["@ + decimal_spec(index) + "]."@ + field
}

impl CliErrorBody {
    /// An error with the given code, message, retry hint and suggested fix; its exit code
    /// is the code's, and it carries no other context.
    pub fn new(code: ErrorCode, message: String, retryable: bool, suggested_fix: String) -> (r: Self)
        ensures
            r.code == code,
            r.message@ == message@,
            r.retryable == retryable,
            r.suggested_fix@ == suggested_fix@,
            r.selector is None,
            r.candidates@.len() == 0,
            r.operation_index is None,
            r.operation is None,
            r.field_path is None,
            r.path is None,
            r.exit_code == exit_code_spec(code),
            r.details == JsonValue::Null,
    {
        CliErrorBody {
            code,
            message,
            retryable,
            suggested_fix,
            selector: None,
            candidates: Vec::new(),
            operation_index: None,
            operation: None,
            field_path: None,
            path: None,
            exit_code: code.exit_code(),
            details: JsonValue::Null,
        }
    }

    /// The same error with a workbook or file path.
    pub fn with_path(self, path: String) -> (r: Self)
        ensures
            r == (CliErrorBody { path: Some(path), ..self }),
    {
        CliErrorBody { path: Some(path), ..self }
    }

    /// The same error with the selector that failed.
    pub fn with_selector(self, selector: String) -> (r: Self)
        ensures
            r == (CliErrorBody { selector: Some(selector), ..self }),
    {
        CliErrorBody { selector: Some(selector), ..self }
    }

    /// The same error with the candidates an ambiguous selector matched.
    pub fn with_candidates(self, candidates: Vec<CandidateDto>) -> (r: Self)
        ensures
            r == (CliErrorBody { candidates, ..self }),
    {
        CliErrorBody { candidates, ..self }
    }

    /// The same error with structured details.
    pub fn with_details(self, details: JsonValue) -> (r: Self)
        ensures
            r == (CliErrorBody { details, ..self }),
    {
        CliErrorBody { details, ..self }
    }

    /// The same error with the path of the input field at fault.
    pub fn with_field_path(self, field_path: String) -> (r: Self)
        ensures
            r == (CliErrorBody { field_path: Some(field_path), ..self }),
    {
        CliErrorBody { field_path: Some(field_path), ..self }
    }

    /// The same error with the index and name of the patch operation at fault.
    pub fn with_operation_context(self, operation_index: usize, operation: String) -> (r: Self)
        ensures
            r == (CliErrorBody {
                operation_index: Some(operation_index),
                operation: Some(operation),
                ..self
            }),
    {
        CliErrorBody { operation_index: Some(operation_index), operation: Some(operation), ..self }
    }

    /// The same error with the patch operation at fault and the field path
    /// `ops[<index>].<field>` of its field at fault.
    pub fn with_operation_field_context(
        self,
        operation_index: usize,
        operation: String,
        field_path: &str,
    ) -> (r: Self)
        ensures
            r.operation_index == Some(operation_index),
            r.operation == Some(operation),
            r.field_path matches Some(f) && f@ == operation_field_path(
                operation_index as nat,
                field_path@,
            ),
            r == (CliErrorBody {
                operation_index: r.operation_index,
                operation: r.operation,
                field_path: r.field_path,
                ..self
            }),
    {
        let mut out: Vec<char> = Vec::new();
        let head = chars_of("ops[");
        push_all(&mut out, head.as_slice());
        let digits = decimal(operation_index);
        push_all(&mut out, digits.as_slice());
        let mid = chars_of("].");
        push_all(&mut out, mid.as_slice());
        let f = chars_of(field_path);
        push_all(&mut out, f.as_slice());
        let fp = string_from_chars(out.as_slice());
        proof {
            assert(fp@ =~= operation_field_path(operation_index as nat, field_path@));
        }
        self.with_operation_context(operation_index, operation).with_field_path(fp)
    }
}

} // verus!

//! Where the backup of a workbook is written before a mutation replaces it.
use vstd::prelude::*;
use crate::infra::fs::paths::{
    extension_of, file_stem_of, join_path, parent_of, path_extension, path_file_stem, path_join,
    path_parent,
};
use crate::text::{chars_of, push_all, string_from_chars};

verus! {

/// Where a backup was written.
#[derive(Debug, PartialEq, Eq)]
pub struct BackupMetadata {
    pub path: String,
}

/// Why a backup could not be written: the operating system's message.
#[derive(Debug)]
pub enum BackupError {
    Io(String),
}

impl BackupError {
    /// The message under which the failure is reported.
    pub fn message(&self) -> (r: String)
        ensures
            match self {
                BackupError::Io(m) => r@ == "backup could not be created: "@ + m@,
            },
    {
        match self {
            BackupError::Io(m) => {
                let mut out = chars_of("backup could not be created: ");
                let tail = chars_of(m.as_str());
                push_all(&mut out, tail.as_slice());
                proof {
                    reveal_strlit("backup could not be created: ");
                }
                string_from_chars(out.as_slice())
            },
        }
    }
}

/// The directory that holds the backups of a workbook: `.xmind-backups` beside it
/// (beside `.` when the path has no parent).
pub open spec fn backup_dir_spec(workbook: Seq<char>) -> Seq<char> {
    let parent = match path_parent(workbook) {
        Some(p) => p,
        None => "."@,
    };
    path_join(parent, ".xmind-backups"@)
}

/// The file name of a backup: the workbook's stem (`workbook` when it has none), the
/// timestamp and the workbook's extension (`xmind` when it has none), joined by dots.
pub open spec fn backup_file_name_spec(workbook: Seq<char>, timestamp: Seq<char>) -> Seq<char> {
    let stem = match path_file_stem(workbook) {
        Some(s) => s,
        None => "workbook"@,
    };
    let ext = match path_extension(workbook) {
        Some(e) => e,
        None => "xmind"@,
    };
    stem + "."@ + timestamp + "."@ + ext
}

/// The default backup directory of a workbook.
pub fn default_backup_dir(workbook_path: &str) -> (r: String)
    ensures
        r@ == backup_dir_spec(workbook_path@),
{
    let parent = match parent_of(workbook_path) {
        Some(p) => p,
        None => ".".to_string(),
    };
    join_path(parent.as_str(), ".xmind-backups")
}

/// Where the backup of `workbook_path` taken at `timestamp` is written inside
/// `backup_dir`.
pub fn backup_metadata_in_dir(workbook_path: &str, backup_dir: &str, timestamp: &str) -> (r:
    BackupMetadata)
    ensures
        r.path@ == path_join(backup_dir@, backup_file_name_spec(workbook_path@, timestamp@)),
{
    let stem = match file_stem_of(workbook_path) {
        Some(s) => s,
        None => "workbook".to_string(),
    };
    let ext = match extension_of(workbook_path) {
        Some(e) => e,
        None => "xmind".to_string(),
    };
    let mut name = chars_of(stem.as_str());
    let dot = chars_of(".");
    push_all(&mut name, dot.as_slice());
    let ts = chars_of(timestamp);
    push_all(&mut name, ts.as_slice());
    push_all(&mut name, dot.as_slice());
    let e = chars_of(ext.as_str());
    push_all(&mut name, e.as_slice());
    proof {
        reveal_strlit(".");
    }
    let file_name = string_from_chars(name.as_slice());
    BackupMetadata { path: join_path(backup_dir, file_name.as_str()) }
}

/// Where the backup of `workbook_path` taken at `timestamp` is written by default.
pub fn default_backup_metadata(workbook_path: &str, timestamp: &str) -> (r: BackupMetadata)
    ensures
        r.path@ == path_join(
            backup_dir_spec(workbook_path@),
            backup_file_name_spec(workbook_path@, timestamp@),
        ),
{
    let dir = default_backup_dir(workbook_path);
    backup_metadata_in_dir(workbook_path, dir.as_str(), timestamp)
}

} // verus!

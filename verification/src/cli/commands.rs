//! The subcommands and their arguments, with file paths held as text.
use vstd::prelude::*;
use crate::cli::args::MarkdownMode;

verus! {

/// A subcommand and its arguments.
pub enum Command {
    Inspect(WorkbookCommand),
    Sheets(WorkbookCommand),
    Tree(TreeCommand),
    Find(FindCommand),
    Get(GetCommand),
    Add(AddCommand),
    AddTree(AddTreeCommand),
    SetTopic(Box<SetCommand>),
    Delete(DeleteCommand),
    Move(MoveCommand),
    Copy(CopyCommand),
    Patch(PatchCommand),
    Diff(WorkbookCommand),
    Validate(ValidateCommand),
    Export(ExportCommand),
    Import(ImportCommand),
    Backup(BackupCommand),
    Restore(MutationCommand),
    Completion(CompletionCommand),
}

/// A command on one workbook.
pub struct WorkbookCommand {
    pub workbook: String,
}

/// `tree`: how deep to print and whether to list assets.
pub struct TreeCommand {
    pub workbook: String,
    pub depth: Option<usize>,
    pub include_assets: bool,
}

/// `find`: the criterion and the page of matches.
pub struct FindCommand {
    pub workbook: String,
    pub title: Option<String>,
    pub title_contains: Option<String>,
    pub contains: Option<String>,
    pub query: Option<String>,
    pub limit: Option<usize>,
    pub offset: Option<usize>,
}

/// `get`: the topic, how deep, and whether to list assets.
pub struct GetCommand {
    pub workbook: String,
    pub node: String,
    pub depth: Option<usize>,
    pub include_assets: bool,
}

/// `validate`: whether warnings fail.
pub struct ValidateCommand {
    pub workbook: String,
    pub strict: bool,
}

/// `backup`: where the copy goes.
pub struct BackupCommand {
    pub workbook: String,
    pub backup_dir: Option<String>,
}

/// `export`: where the output goes.
pub struct ExportCommand {
    pub workbook: String,
    pub output: Option<String>,
    pub overwrite: bool,
}

/// `import`: the input, and either a new workbook or an existing one to import into.
pub struct ImportCommand {
    pub input: String,
    pub output: Option<String>,
    pub into: Option<String>,
    pub parent: Option<String>,
    pub overwrite: bool,
    pub backup: bool,
    pub markdown_mode: Option<MarkdownMode>,
    pub mode: ApplyMode,
}

/// Whether a mutation is previewed or applied, and whether a backup is taken.
pub struct MutationMode {
    pub apply_mode: ApplyMode,
    pub backup: bool,
}

/// Exactly one of `--dry-run` and `--apply`.
pub struct ApplyMode {
    pub dry_run: bool,
    pub apply: bool,
}

/// A mutation of one workbook without further arguments.
pub struct MutationCommand {
    pub workbook: String,
    pub mode: MutationMode,
}

/// `add`: the parent, the title and the position of the new topic.
pub struct AddCommand {
    pub workbook: String,
    pub parent: String,
    pub title: String,
    pub position: Option<String>,
    pub create_missing_path: bool,
    pub mode: MutationMode,
}

/// `add-tree`: the parent and the tree input.
pub struct AddTreeCommand {
    pub workbook: String,
    pub parent: String,
    pub input: Option<String>,
    pub from_markdown: Option<String>,
    pub markdown_mode: Option<MarkdownMode>,
    pub mode: MutationMode,
}

/// `set`: the topic and the fields to change.
pub struct SetCommand {
    pub workbook: String,
    pub node: String,
    pub title: Option<String>,
    pub note: Option<String>,
    pub append_note: Option<String>,
    pub set_labels: Option<String>,
    pub add_label: Option<String>,
    pub remove_label: Option<String>,
    pub set_markers: Option<String>,
    pub add_marker: Option<String>,
    pub remove_marker: Option<String>,
    pub hyperlink: Option<String>,
    pub image: Option<String>,
    pub image_alt: Option<String>,
    pub image_title: Option<String>,
    pub clear: Vec<String>,
    pub mode: MutationMode,
}

/// `delete`: the topic and what of it goes.
pub struct DeleteCommand {
    pub workbook: String,
    pub node: String,
    pub children_only: bool,
    pub promote_children: bool,
    pub mode: MutationMode,
}

/// `move`: the topic, its new parent and its position there.
pub struct MoveCommand {
    pub workbook: String,
    pub node: String,
    pub to: String,
    pub position: Option<String>,
    pub mode: MutationMode,
}

/// `copy`: the topic, where the copy goes, its title and position.
pub struct CopyCommand {
    pub workbook: String,
    pub node: String,
    pub to: String,
    pub title: Option<String>,
    pub position: Option<String>,
    pub preserve_ids: bool,
    pub mode: MutationMode,
}

/// `patch`: the file of operations.
pub struct PatchCommand {
    pub workbook: String,
    pub ops: String,
    pub mode: MutationMode,
}

/// `completion`: the shell, by name.
pub struct CompletionCommand {
    pub shell: String,
}

} // verus!

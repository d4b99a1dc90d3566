//! What a parsed command line asks for: the command, the workbook, the mode, the sheet
//! and the action to run.
use vstd::prelude::*;
use crate::cli::commands::{Command, SetCommand};
use crate::cli::output::{CliErrorBody, ErrorCode};
use crate::infra::xmind::json::{json_string, push_member, Json, JsonMember, JsonValue};
use crate::text::str_equal;

verus! {

/// How a sheet is chosen: by title, by id or by index; none chooses the first.
#[derive(Clone, Debug, PartialEq, Eq)]
pub struct SheetSelection {
    pub title: Option<String>,
    pub id: Option<String>,
    pub index: Option<usize>,
}

/// The arguments of `find`.
pub struct FindInvocationArgs {
    pub title: Option<String>,
    pub title_contains: Option<String>,
    pub contains: Option<String>,
    pub query: Option<String>,
    pub limit: Option<usize>,
    pub offset: Option<usize>,
}

/// The work a command asks for.
#[derive(Debug, PartialEq, Eq)]
#[allow(inconsistent_fields)]
pub enum Action {
    Inspect,
    Sheets,
    Tree { depth: Option<usize> },
    Find {
        title: Option<String>,
        title_contains: Option<String>,
        contains: Option<String>,
        query: Option<String>,
        limit: Option<usize>,
        offset: Option<usize>,
    },
    Get { node: String, depth: Option<usize> },
    Patch { ops: String },
    Add { parent: String, title: String },
    SetTitle { node: String, title: String },
    SetNote { node: String, note: String },
    SetAppendNote { node: String, append_note: String },
    Delete { node: String },
    Move { node: String, destination: String },
    Validate { strict: bool },
    Noop,
}

/// A command ready to run.
#[derive(Debug, PartialEq, Eq)]
pub struct Invocation {
    pub command: String,
    pub workbook: String,
    pub dry_run: bool,
    pub applied: bool,
    pub quiet: bool,
    pub no_color: bool,
    pub sheet_selection: SheetSelection,
    pub action: Action,
}

/// An invocation of `command` on `workbook` with the given mode, quietness, sheet and
/// action; nothing is applied yet and color is on.
pub open spec fn shaped(
    inv: Invocation,
    command: Seq<char>,
    workbook: String,
    dry_run: bool,
    quiet: bool,
    sheet: SheetSelection,
    action: Action,
) -> bool {
    &&& inv.command@ == command
    &&& inv.workbook == workbook
    &&& inv.dry_run == dry_run
    &&& !inv.applied
    &&& inv.quiet == quiet
    &&& !inv.no_color
    &&& inv.sheet_selection == sheet
    &&& inv.action == action
}

/// The edit `set` asks for: the title if given, else the note, else the appended note;
/// otherwise nothing this command runs.
pub open spec fn set_action(c: SetCommand) -> Action {
    match (c.title, c.note, c.append_note) {
        (Some(title), _, _) => Action::SetTitle { node: c.node, title },
        (None, Some(note), _) => Action::SetNote { node: c.node, note },
        (None, None, Some(append_note)) => Action::SetAppendNote { node: c.node, append_note },
        _ => Action::Noop,
    }
}

/// The workbook an import writes: the new one, or the one imported into; no path when
/// neither is given.
pub open spec fn import_workbook(output: Option<String>, into: Option<String>) -> Seq<char> {
    match output {
        Some(o) => o@,
        None => match into {
            Some(i) => i@,
            None => Seq::empty(),
        },
    }
}

/// What each command line runs.
pub open spec fn invocation_matches(
    r: Option<Invocation>,
    command: Option<Command>,
    sheet: SheetSelection,
    quiet: bool,
) -> bool {
    match command {
        None => r is None,
        Some(Command::Completion(_)) => r is None,
        Some(c) => r matches Some(inv) && match c {
            Command::Inspect(c) => shaped(inv, "inspect"@, c.workbook, false, quiet, sheet, Action::Inspect),
            Command::Sheets(c) => shaped(inv, "sheets"@, c.workbook, false, quiet, sheet, Action::Sheets),
            Command::Find(c) => shaped(
                inv,
                "find"@,
                c.workbook,
                false,
                quiet,
                sheet,
                Action::Find {
                    title: c.title,
                    title_contains: c.title_contains,
                    contains: c.contains,
                    query: c.query,
                    limit: c.limit,
                    offset: c.offset,
                },
            ),
            Command::Get(c) => shaped(
                inv,
                "get"@,
                c.workbook,
                false,
                quiet,
                sheet,
                Action::Get { node: c.node, depth: c.depth },
            ),
            Command::Diff(c) => shaped(inv, "diff"@, c.workbook, false, false, sheet, Action::Noop),
            Command::Validate(c) => shaped(
                inv,
                "validate"@,
                c.workbook,
                false,
                quiet,
                sheet,
                Action::Validate { strict: c.strict },
            ),
            Command::Export(c) => shaped(inv, "export"@, c.workbook, false, false, sheet, Action::Noop),
            Command::Backup(c) => shaped(inv, "backup"@, c.workbook, false, false, sheet, Action::Noop),
            Command::Tree(c) => shaped(
                inv,
                "tree"@,
                c.workbook,
                false,
                quiet,
                sheet,
                Action::Tree { depth: c.depth },
            ),
            Command::Add(c) => shaped(
                inv,
                "add"@,
                c.workbook,
                c.mode.apply_mode.dry_run,
                quiet,
                sheet,
                Action::Add { parent: c.parent, title: c.title },
            ),
            Command::AddTree(c) => shaped(
                inv,
                "add-tree"@,
                c.workbook,
                c.mode.apply_mode.dry_run,
                quiet,
                sheet,
                Action::Noop,
            ),
            Command::SetTopic(c) => shaped(
                inv,
                "set"@,
                c.workbook,
                c.mode.apply_mode.dry_run,
                quiet,
                sheet,
                set_action(*c),
            ),
            Command::Delete(c) => shaped(
                inv,
                "delete"@,
                c.workbook,
                c.mode.apply_mode.dry_run,
                quiet,
                sheet,
                Action::Delete { node: c.node },
            ),
            Command::Move(c) => shaped(
                inv,
                "move"@,
                c.workbook,
                c.mode.apply_mode.dry_run,
                quiet,
                sheet,
                Action::Move { node: c.node, destination: c.to },
            ),
            Command::Copy(c) => shaped(
                inv,
                "copy"@,
                c.workbook,
                c.mode.apply_mode.dry_run,
                quiet,
                sheet,
                Action::Noop,
            ),
            Command::Patch(c) => shaped(
                inv,
                "patch"@,
                c.workbook,
                c.mode.apply_mode.dry_run,
                quiet,
                sheet,
                Action::Patch { ops: c.ops },
            ),
            Command::Import(c) => shaped(
                inv,
                "import"@,
                inv.workbook,
                c.mode.dry_run,
                quiet,
                sheet,
                Action::Noop,
            ) && inv.workbook@ == import_workbook(c.output, c.into),
            Command::Restore(c) => shaped(
                inv,
                "restore"@,
                c.workbook,
                c.mode.apply_mode.dry_run,
                quiet,
                sheet,
                Action::Noop,
            ),
            Command::Completion(_) => false,
        },
    }
}

impl Invocation {
    fn make(
        command: &str,
        workbook: String,
        dry_run: bool,
        quiet: bool,
        sheet_selection: SheetSelection,
        action: Action,
    ) -> (r: Self)
        ensures
            shaped(r, command@, workbook, dry_run, quiet, sheet_selection, action),
    {
        Invocation {
            command: command.to_owned(),
            workbook,
            dry_run,
            applied: false,
            quiet,
            no_color: false,
            sheet_selection,
            action,
        }
    }

    /// The invocation of a command line, if it runs against a workbook: `diff`,
    /// `export` and `backup` are read without their quiet flag; mutations keep their
    /// dry-run mode; `set` runs its title, note or appended-note edit.
    pub fn from_command(command: Option<Command>, sheet_selection: SheetSelection, quiet: bool) -> (r:
        Option<Self>)
        ensures
            invocation_matches(r, command, sheet_selection, quiet),
    {
        let command = match command {
            Some(c) => c,
            None => return None,
        };
        match command {
            Command::Inspect(c) => Some(
                Self::make("inspect", c.workbook, false, quiet, sheet_selection, Action::Inspect),
            ),
            Command::Sheets(c) => Some(
                Self::make("sheets", c.workbook, false, quiet, sheet_selection, Action::Sheets),
            ),
            Command::Find(c) => Some(
                Self::make(
                    "find",
                    c.workbook,
                    false,
                    quiet,
                    sheet_selection,
                    Action::Find {
                        title: c.title,
                        title_contains: c.title_contains,
                        contains: c.contains,
                        query: c.query,
                        limit: c.limit,
                        offset: c.offset,
                    },
                ),
            ),
            Command::Get(c) => Some(
                Self::make(
                    "get",
                    c.workbook,
                    false,
                    quiet,
                    sheet_selection,
                    Action::Get { node: c.node, depth: c.depth },
                ),
            ),
            Command::Diff(c) => Some(
                Self::make("diff", c.workbook, false, false, sheet_selection, Action::Noop),
            ),
            Command::Validate(c) => Some(
                Self::make(
                    "validate",
                    c.workbook,
                    false,
                    quiet,
                    sheet_selection,
                    Action::Validate { strict: c.strict },
                ),
            ),
            Command::Export(c) => Some(
                Self::make("export", c.workbook, false, false, sheet_selection, Action::Noop),
            ),
            Command::Backup(c) => Some(
                Self::make("backup", c.workbook, false, false, sheet_selection, Action::Noop),
            ),
            Command::Tree(c) => Some(
                Self::make(
                    "tree",
                    c.workbook,
                    false,
                    quiet,
                    sheet_selection,
                    Action::Tree { depth: c.depth },
                ),
            ),
            Command::Add(c) => Some(
                Self::make(
                    "add",
                    c.workbook,
                    c.mode.apply_mode.dry_run,
                    quiet,
                    sheet_selection,
                    Action::Add { parent: c.parent, title: c.title },
                ),
            ),
            Command::AddTree(c) => Some(
                Self::make(
                    "add-tree",
                    c.workbook,
                    c.mode.apply_mode.dry_run,
                    quiet,
                    sheet_selection,
                    Action::Noop,
                ),
            ),
            Command::SetTopic(c) => {
                let c = *c;
                let dry_run = c.mode.apply_mode.dry_run;
                let action = match (c.title, c.note, c.append_note) {
                    (Some(title), _, _) => Action::SetTitle { node: c.node, title },
                    (None, Some(note), _) => Action::SetNote { node: c.node, note },
                    (None, None, Some(append_note)) => Action::SetAppendNote {
                        node: c.node,
                        append_note,
                    },
                    _ => Action::Noop,
                };
                Some(Self::make("set", c.workbook, dry_run, quiet, sheet_selection, action))
            },
            Command::Delete(c) => Some(
                Self::make(
                    "delete",
                    c.workbook,
                    c.mode.apply_mode.dry_run,
                    quiet,
                    sheet_selection,
                    Action::Delete { node: c.node },
                ),
            ),
            Command::Move(c) => Some(
                Self::make(
                    "move",
                    c.workbook,
                    c.mode.apply_mode.dry_run,
                    quiet,
                    sheet_selection,
                    Action::Move { node: c.node, destination: c.to },
                ),
            ),
            Command::Copy(c) => Some(
                Self::make(
                    "copy",
                    c.workbook,
                    c.mode.apply_mode.dry_run,
                    quiet,
                    sheet_selection,
                    Action::Noop,
                ),
            ),
            Command::Patch(c) => Some(
                Self::make(
                    "patch",
                    c.workbook,
                    c.mode.apply_mode.dry_run,
                    quiet,
                    sheet_selection,
                    Action::Patch { ops: c.ops },
                ),
            ),
            Command::Import(c) => {
                let workbook = match (c.output, c.into) {
                    (Some(o), _) => o,
                    (None, Some(i)) => i,
                    (None, None) => String::new(),
                };
                Some(
                    Self::make(
                        "import",
                        workbook,
                        c.mode.dry_run,
                        quiet,
                        sheet_selection,
                        Action::Noop,
                    ),
                )
            },
            Command::Restore(c) => Some(
                Self::make(
                    "restore",
                    c.workbook,
                    c.mode.apply_mode.dry_run,
                    quiet,
                    sheet_selection,
                    Action::Noop,
                ),
            ),
            Command::Completion(_) => None,
        }
    }

    /// The same invocation with color turned off or on.
    pub fn with_no_color(self, no_color: bool) -> (r: Self)
        ensures
            r == (Invocation { no_color, ..self }),
    {
        Invocation { no_color, ..self }
    }

    /// The same invocation running `action`.
    pub fn with_action(self, action: Action) -> (r: Self)
        ensures
            r == (Invocation { action, ..self }),
    {
        Invocation { action, ..self }
    }
}

/// The fields `--fields` may name for each command: what `inspect`, `sheets`, `tree`,
/// `get` and `find` report; no other command takes fields.
pub open spec fn allowed_fields_spec(command: Seq<char>) -> Seq<Seq<char>> {
    if command == "inspect"@ {
        seq!["file"@, "format"@, "sheet_count"@, "sheets"@, "resources_count"@, "capabilities"@]
    } else if command == "sheets"@ {
        seq!["id"@, "index"@, "title"@, "root_topic_id"@, "topic_count"@]
    } else if command == "tree"@ {
        seq![
            "id"@,
            "path"@,
            "title"@,
            "children_count"@,
            "children"@,
            "note"@,
            "labels"@,
            "markers"@,
            "hyperlink"@,
            "image"@,
            "depth"@,
        ]
    } else if command == "get"@ {
        seq![
            "id"@,
            "path"@,
            "title"@,
            "note"@,
            "labels"@,
            "markers"@,
            "hyperlink"@,
            "image"@,
            "children_count"@,
            "children"@,
            "depth"@,
        ]
    } else if command == "find"@ {
        seq!["id"@, "path"@, "title"@, "sheet"@, "children_count"@]
    } else {
        seq![]
    }
}

/// The fields `--fields` may name for `command`.
pub fn allowed_fields(command: &str) -> (r: Vec<&'static str>)
    ensures
        r@.map_values(|s: &str| s@) == allowed_fields_spec(command@),
{
    let r: Vec<&'static str> = if str_equal(command, "inspect") {
        vec!["file", "format", "sheet_count", "sheets", "resources_count", "capabilities"]
    } else if str_equal(command, "sheets") {
        vec!["id", "index", "title", "root_topic_id", "topic_count"]
    } else if str_equal(command, "tree") {
        vec![
            "id",
            "path",
            "title",
            "children_count",
            "children",
            "note",
            "labels",
            "markers",
            "hyperlink",
            "image",
            "depth",
        ]
    } else if str_equal(command, "get") {
        vec![
            "id",
            "path",
            "title",
            "note",
            "labels",
            "markers",
            "hyperlink",
            "image",
            "children_count",
            "children",
            "depth",
        ]
    } else if str_equal(command, "find") {
        vec!["id", "path", "title", "sheet", "children_count"]
    } else {
        Vec::new()
    };
    proof {
        assert(r@.map_values(|s: &str| s@) =~= allowed_fields_spec(command@));
    }
    r
}

/// The first requested field, by index, that the command does not offer.
pub open spec fn first_unknown_field(command: Seq<char>, fields: Seq<Seq<char>>) -> Option<int> {
    if exists|i: int| 0 <= i < fields.len() && !allowed_fields_spec(command).contains(fields[i]) {
        Some(
            choose|i: int|
                0 <= i < fields.len() && !allowed_fields_spec(command).contains(fields[i])
                    && forall|k: int|
                    0 <= k < i ==> allowed_fields_spec(command).contains(#[trigger] fields[k]),
        )
    } else {
        None
    }
}

fn is_allowed(allowed: &Vec<&'static str>, field: &str) -> (r: bool)
    ensures
        r == allowed@.map_values(|s: &str| s@).contains(field@),
{
    let ghost views = allowed@.map_values(|s: &str| s@);
    let mut i: usize = 0;
    while i < allowed.len()
        invariant
            i <= allowed@.len(),
            views == allowed@.map_values(|s: &str| s@),
            forall|k: int| 0 <= k < i ==> views[k] != field@,
        decreases allowed@.len() - i,
    {
        if str_equal(allowed[i], field) {
            proof {
                assert(views[i as int] == field@);
            }
            return true;
        }
        i = i + 1;
    }
    false
}

/// Checks the fields `--fields` names against what `command` offers: the first unknown
/// one is an `invalid_usage` error at field path `fields`, with the field in its details.
pub fn validate_fields(command: &str, fields: &Vec<String>) -> (r: Result<(), CliErrorBody>)
    ensures
        match first_unknown_field(command@, fields@.map_values(|s: String| s@)) {
            None => r is Ok,
            Some(i) => r matches Err(e) && e.code == ErrorCode::InvalidUsage && e.exit_code == crate::cli::output::exit_code_spec(ErrorCode::InvalidUsage) && e.message@
                == "Unknown field for "@ + command@ + ": "@ + fields@[i]@ && e.retryable
                && e.suggested_fix@ == "Use a field documented for this command, or omit --fields."@
                && e.field_path is Some && e.field_path->0@ == "fields"@ && e.details@
                == Json::Object(seq![("field"@, Json::String(fields@[i]@))]),
        },
{
    let allowed = allowed_fields(command);
    let ghost fv = fields@.map_values(|s: String| s@);
    let mut i: usize = 0;
    while i < fields.len()
        invariant
            i <= fields@.len(),
            fv == fields@.map_values(|s: String| s@),
            allowed@.map_values(|s: &str| s@) == allowed_fields_spec(command@),
            forall|k: int| 0 <= k < i ==> allowed_fields_spec(command@).contains(#[trigger] fv[k]),
        decreases fields@.len() - i,
    {
        let field = &fields[i];
        if !is_allowed(&allowed, field.as_str()) {
            proof {
                assert(fv[i as int] == field@);
                let c = choose|j: int|
                    0 <= j < fv.len() && !allowed_fields_spec(command@).contains(fv[j]) && forall|
                        k: int,
                    | 0 <= k < j ==> allowed_fields_spec(command@).contains(#[trigger] fv[k]);
                assert(0 <= i < fv.len() && !allowed_fields_spec(command@).contains(fv[i as int]));
                if c < i {
                    assert(allowed_fields_spec(command@).contains(fv[c]));
                } else if c > i {
                    assert(allowed_fields_spec(command@).contains(fv[i as int]));
                }
            }
            let head = crate::app::select::concat("Unknown field for ", command);
            let head = crate::app::select::concat(head.as_str(), ": ");
            let message = crate::app::select::concat(head.as_str(), field.as_str());
            let mut members: Vec<JsonMember> = Vec::new();
            push_member(&mut members, "field", json_string(field.clone()));
            let details = JsonValue::Object(members);
            proof {
                assert(crate::infra::xmind::json::json_members_view(members@) =~= seq![
                    ("field"@, Json::String(field@)),
                ]);
            }
            return Err(
                CliErrorBody::new(
                    ErrorCode::InvalidUsage,
                    message,
                    true,
                    "Use a field documented for this command, or omit --fields.".to_owned(),
                ).with_field_path("fields".to_owned()).with_details(details),
            );
        }
        proof {
            assert(fv[i as int] == field@);
        }
        i = i + 1;
    }
    Ok(())
}

} // verus!

//! Workbooks kept in iCloud Drive: the hidden placeholder that stands for a workbook
//! that is not downloaded yet, and the decisions taken while it is materialized.
use vstd::prelude::*;
use crate::infra::fs::paths::{file_name_of, join_path, parent_of, path_file_name, path_join, path_parent};
use crate::text::{
    chars_of, ends_with, ends_with_spec, push_all, slice_chars, starts_with_spec, string_from_chars,
};

verus! {

/// How long a download may take, in milliseconds, before the workbook is reported missing.
pub const DEFAULT_MATERIALIZATION_TIMEOUT_MILLIS: u64 = 120000;

/// How often the workbook is looked for while it downloads, in milliseconds.
pub const MATERIALIZATION_POLL_INTERVAL_MILLIS: u64 = 100;

/// Resolves the path of a workbook that may be an iCloud placeholder.
#[derive(Debug)]
pub struct CloudFileResolver {
    pub timeout_millis: u64,
}

impl Default for CloudFileResolver {
    fn default() -> (r: Self)
        ensures
            r.timeout_millis == DEFAULT_MATERIALIZATION_TIMEOUT_MILLIS,
    {
        CloudFileResolver { timeout_millis: DEFAULT_MATERIALIZATION_TIMEOUT_MILLIS }
    }
}

/// One run of a download tool.
#[derive(Clone, Debug, PartialEq, Eq)]
pub struct CloudMaterializationAttempt {
    pub tool: String,
    pub subcommand: String,
    pub status: Option<i32>,
    pub stderr: String,
    pub error: Option<String>,
}

impl CloudMaterializationAttempt {
    /// Whether the tool ran and exited with status 0.
    pub open spec fn succeeded_spec(&self) -> bool {
        self.status == Some(0i32) && self.error is None
    }

    /// Whether the tool ran and exited with status 0.
    pub fn succeeded(&self) -> (r: bool)
        ensures
            r == self.succeeded_spec(),
    {
        match (&self.status, &self.error) {
            (Some(code), None) => *code == 0,
            _ => false,
        }
    }
}

/// One planned run of a download tool: the tool, its subcommand and the path given to it.
#[derive(Clone, Debug, PartialEq, Eq)]
pub struct CloudCommand {
    pub tool: String,
    pub subcommand: String,
    pub path: String,
}

impl CloudCommand {
    /// The record of this run: the tool and subcommand that ran, with the exit status,
    /// the error output and the error that stopped the tool from starting, if any.
    pub fn attempt(&self, status: Option<i32>, stderr: String, error: Option<String>) -> (r:
        CloudMaterializationAttempt)
        ensures
            r.tool@ == self.tool@,
            r.subcommand@ == self.subcommand@,
            r.status == status,
            r.stderr == stderr,
            r.error == error,
    {
        CloudMaterializationAttempt {
            tool: self.tool.clone(),
            subcommand: self.subcommand.clone(),
            status,
            stderr,
            error,
        }
    }
}

/// A cloud workbook that could not be downloaded, with every tool run that was tried.
#[derive(Debug)]
pub struct CloudFileError {
    pub original_path: String,
    pub logical_path: String,
    pub placeholder_path: String,
    pub attempts: Vec<CloudMaterializationAttempt>,
}

impl CloudFileError {
    /// The message under which the failure is reported.
    pub fn message(&self) -> (r: String)
        ensures
            r@ == "cloud workbook could not be downloaded"@,
    {
        "cloud workbook could not be downloaded".to_string()
    }
}

/// The directory part used to place a sibling file: the parent, or nothing.
pub open spec fn parent_or_empty(p: Seq<char>) -> Seq<char> {
    match path_parent(p) {
        Some(parent) => parent,
        None => Seq::empty(),
    }
}

/// The hidden placeholder iCloud keeps for a file that is not downloaded:
/// `.<name>.icloud` beside it.
pub open spec fn hidden_placeholder_spec(logical: Seq<char>) -> Option<Seq<char>> {
    match path_file_name(logical) {
        None => None,
        Some(name) => Some(path_join(parent_or_empty(logical), "."@ + name + ".icloud"@)),
    }
}

/// The workbook a placeholder stands for: for a file named `.<name>.icloud` where
/// `<name>` ends in `.xmind`, `<name>` beside it; nothing for any other path.
pub open spec fn logical_from_placeholder_spec(path: Seq<char>) -> Option<Seq<char>> {
    match path_file_name(path) {
        None => None,
        Some(name) => {
            let rest = name.skip(1);
            let logical = rest.take(rest.len() - 7);
            if starts_with_spec(name, "."@) && ends_with_spec(rest, ".icloud"@) && ends_with_spec(
                logical,
                ".xmind"@,
            ) {
                Some(path_join(parent_or_empty(path), logical))
            } else {
                None
            }
        },
    }
}

/// An optional text by its view.
pub open spec fn opt_text(o: Option<String>) -> Option<Seq<char>> {
    match o {
        Some(s) => Some(s@),
        None => None,
    }
}

fn parent_or_empty_exec(p: &str) -> (r: String)
    ensures
        r@ == parent_or_empty(p@),
{
    match parent_of(p) {
        Some(parent) => parent,
        None => String::new(),
    }
}

/// The hidden placeholder path of a workbook path.
pub fn hidden_icloud_placeholder_path(logical_path: &str) -> (r: Option<String>)
    ensures
        opt_text(r) == hidden_placeholder_spec(logical_path@),
{
    let name = match file_name_of(logical_path) {
        Some(n) => n,
        None => return None,
    };
    let mut hidden = chars_of(".");
    let n = chars_of(name.as_str());
    push_all(&mut hidden, n.as_slice());
    let suffix = chars_of(".icloud");
    push_all(&mut hidden, suffix.as_slice());
    proof {
        reveal_strlit(".");
        reveal_strlit(".icloud");
    }
    let hidden = string_from_chars(hidden.as_slice());
    let parent = parent_or_empty_exec(logical_path);
    Some(join_path(parent.as_str(), hidden.as_str()))
}

/// The workbook path a hidden placeholder stands for, if `path` is the placeholder of
/// an `.xmind` file.
pub fn logical_path_from_icloud_placeholder(path: &str) -> (r: Option<String>)
    ensures
        opt_text(r) == logical_from_placeholder_spec(path@),
{
    let name = match file_name_of(path) {
        Some(n) => n,
        None => return None,
    };
    let cs = chars_of(name.as_str());
    proof {
        reveal_strlit(".");
        reveal_strlit(".icloud");
        reveal_strlit(".xmind");
    }
    if cs.len() == 0 || cs[0] != '.' {
        proof {
            if cs@.len() > 0 {
                assert(cs@.take(1)[0] == cs@[0]);
            }
        }
        return None;
    }
    assert(cs@.take(1) =~= "."@);
    let rest = slice_chars(cs.as_slice(), 1, cs.len());
    assert(rest@ == cs@.skip(1));
    let icloud = chars_of(".icloud");
    if !ends_with(rest.as_slice(), icloud.as_slice()) {
        return None;
    }
    let logical = slice_chars(rest.as_slice(), 0, rest.len() - 7);
    assert(logical@ == rest@.take(rest@.len() - 7));
    let xmind = chars_of(".xmind");
    if !ends_with(logical.as_slice(), xmind.as_slice()) {
        return None;
    }
    let logical = string_from_chars(logical.as_slice());
    let parent = parent_or_empty_exec(path);
    Some(join_path(parent.as_str(), logical.as_str()))
}

/// The path a workbook is looked for at: the workbook behind a placeholder, or the
/// path itself.
pub open spec fn logical_workbook_spec(path: Seq<char>) -> Seq<char> {
    match logical_from_placeholder_spec(path) {
        Some(l) => l,
        None => path,
    }
}

/// What to do with a workbook path once it is known whether the workbook and its
/// placeholder exist.
#[derive(Debug, PartialEq, Eq)]
pub enum CloudResolution {
    /// Open the workbook at this path.
    Ready(String),
    /// Download the workbook through its placeholder, then look again.
    Download { logical_path: String, placeholder_path: String },
}

impl CloudFileResolver {
    /// The path a workbook is looked for at.
    pub fn logical_workbook_path(&self, path: &str) -> (r: String)
        ensures
            r@ == logical_workbook_spec(path@),
    {
        match logical_path_from_icloud_placeholder(path) {
            Some(l) => l,
            None => path.to_string(),
        }
    }

    /// Decides how the workbook at `path` is opened. `logical_exists` tells whether a
    /// file exists at its logical path, `placeholder_exists` whether its hidden
    /// placeholder exists, `can_download` whether this system has the download tools
    /// (macOS). The workbook is used where it is; it is downloaded only when it is
    /// missing, its placeholder is there and the tools are.
    pub fn resolve_workbook_path(
        &self,
        path: &str,
        logical_exists: bool,
        placeholder_exists: bool,
        can_download: bool,
    ) -> (r: CloudResolution)
        ensures
            ({
                let logical = logical_workbook_spec(path@);
                match hidden_placeholder_spec(logical) {
                    Some(ph) if !logical_exists && placeholder_exists && can_download => r
                        matches CloudResolution::Download { logical_path, placeholder_path }
                        && logical_path@ == logical && placeholder_path@ == ph,
                    _ => r matches CloudResolution::Ready(p) && p@ == logical,
                }
            }),
    {
        let logical = self.logical_workbook_path(path);
        if logical_exists {
            return CloudResolution::Ready(logical);
        }
        let placeholder = match hidden_icloud_placeholder_path(logical.as_str()) {
            Some(p) => p,
            None => return CloudResolution::Ready(logical),
        };
        if placeholder_exists && can_download {
            CloudResolution::Download { logical_path: logical, placeholder_path: placeholder }
        } else {
            CloudResolution::Ready(logical)
        }
    }

    /// The download tools, in the order they are tried, for the workbook at
    /// `logical_path`: `fileproviderctl materialize`, then `brctl download`, each run on
    /// that path. The second runs only where the first does not suffice.
    pub fn download_plan(&self, logical_path: &str) -> (r: Vec<CloudCommand>)
        ensures
            r@.len() == 2,
            r@[0].tool@ == "fileproviderctl"@,
            r@[0].subcommand@ == "materialize"@,
            r@[0].path@ == logical_path@,
            r@[1].tool@ == "brctl"@,
            r@[1].subcommand@ == "download"@,
            r@[1].path@ == logical_path@,
    {
        let mut plan: Vec<CloudCommand> = Vec::new();
        plan.push(
            CloudCommand {
                tool: "fileproviderctl".to_string(),
                subcommand: "materialize".to_string(),
                path: logical_path.to_string(),
            },
        );
        plan.push(
            CloudCommand {
                tool: "brctl".to_string(),
                subcommand: "download".to_string(),
                path: logical_path.to_string(),
            },
        );
        plan
    }

    /// Whether the workbook is waited for after a tool ran: only after a tool that
    /// succeeded.
    pub fn waits_after(&self, attempt: &CloudMaterializationAttempt) -> (r: bool)
        ensures
            r == attempt.succeeded_spec(),
    {
        attempt.succeeded()
    }

    /// Whether the download stops after the first tool (`fileproviderctl materialize`):
    /// it stops when that tool succeeded and the workbook then appeared in time.
    pub fn first_download_suffices(
        &self,
        first: &CloudMaterializationAttempt,
        appeared: bool,
    ) -> (r: bool)
        ensures
            r == (first.succeeded_spec() && appeared),
    {
        first.succeeded() && appeared
    }

    /// The outcome once the download tools have run: the workbook where it appeared,
    /// or an error listing every attempt.
    pub fn finish_download(
        &self,
        original_path: &str,
        logical_path: String,
        placeholder_path: String,
        attempts: Vec<CloudMaterializationAttempt>,
        exists_now: bool,
    ) -> (r: Result<String, CloudFileError>)
        ensures
            if exists_now {
                r matches Ok(p) && p == logical_path
            } else {
                r matches Err(e) && e.original_path@ == original_path@ && e.logical_path
                    == logical_path && e.placeholder_path == placeholder_path && e.attempts
                    == attempts
            },
    {
        if exists_now {
            Ok(logical_path)
        } else {
            Err(
                CloudFileError {
                    original_path: original_path.to_string(),
                    logical_path,
                    placeholder_path,
                    attempts,
                },
            )
        }
    }
}

/// The file name of the placeholder for a file named `name`: `.<name>.icloud`.
pub open spec fn placeholder_name(name: Seq<char>) -> Seq<char> {
    "."@ + name + ".icloud"@
}

/// The file name a placeholder named `name` stands for: `name` without its leading `.`
/// and its trailing `.icloud`.
pub open spec fn placeholder_target(name: Seq<char>) -> Seq<char> {
    let rest = name.skip(1);
    rest.take(rest.len() - 7)
}

/// Whether `std::path` reads `q` as the file name `name` in the directory `dir`.
pub open spec fn splits_as(q: Seq<char>, dir: Seq<char>, name: Seq<char>) -> bool {
    path_file_name(q) == Some(name) && parent_or_empty(q) == dir
}

/// The placeholder of a workbook stands for that workbook: for a path `p` whose file
/// name ends in `.xmind`, the workbook read from its placeholder path is `p` again. The
/// law holds wherever `std::path` splits the paths it joins back into their parts: `p`
/// is its directory joined with its file name, and the placeholder path reads as the
/// placeholder name in that directory (true of ordinary paths; not, as text, of a path
/// with a trailing separator, which `std::path` does not keep).
pub proof fn law_placeholder_round_trip(p: Seq<char>)
    requires
        path_file_name(p) is Some,
        ends_with_spec(path_file_name(p)->0, ".xmind"@),
        path_join(parent_or_empty(p), path_file_name(p)->0) == p,
        splits_as(
            path_join(parent_or_empty(p), placeholder_name(path_file_name(p)->0)),
            parent_or_empty(p),
            placeholder_name(path_file_name(p)->0),
        ),
    ensures
        hidden_placeholder_spec(p) == Some(
            path_join(parent_or_empty(p), placeholder_name(path_file_name(p)->0)),
        ),
        logical_from_placeholder_spec(hidden_placeholder_spec(p)->0) == Some(p),
{
    reveal_strlit(".");
    reveal_strlit(".icloud");
    let n = path_file_name(p)->0;
    let m = placeholder_name(n);
    let rest = m.skip(1);
    assert(rest =~= n + ".icloud"@);
    assert(rest.take(rest.len() - 7) =~= n);
    assert(m.take(1) =~= "."@);
    assert(rest.skip(rest.len() - 7) =~= ".icloud"@);
}

/// Conversely, the placeholder of the workbook that a placeholder stands for is that
/// placeholder: where `q` names a workbook's placeholder, the placeholder path of that
/// workbook is `q` again. The law holds wherever `std::path` splits the paths it joins
/// back into their parts: `q` is its directory joined with its file name, and the
/// workbook's path reads as the workbook's name in that directory.
pub proof fn law_logical_round_trip(q: Seq<char>)
    requires
        logical_from_placeholder_spec(q) is Some,
        path_join(parent_or_empty(q), path_file_name(q)->0) == q,
        splits_as(
            logical_from_placeholder_spec(q)->0,
            parent_or_empty(q),
            placeholder_target(path_file_name(q)->0),
        ),
    ensures
        hidden_placeholder_spec(logical_from_placeholder_spec(q)->0) == Some(q),
{
    reveal_strlit(".");
    reveal_strlit(".icloud");
    let nm = path_file_name(q)->0;
    let rest = nm.skip(1);
    let target = placeholder_target(nm);
    assert(nm.take(1) =~= "."@);
    assert(rest.skip(rest.len() - 7) =~= ".icloud"@);
    assert(nm =~= nm.take(1) + rest);
    assert(rest =~= target + rest.skip(rest.len() - 7));
    assert(placeholder_name(target) =~= nm);
}

} // verus!

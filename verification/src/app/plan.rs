//! Planning single-topic edits: what `add`, `set`, `delete` and `move` change, worked out
//! before anything is written.
use vstd::prelude::*;
use crate::app::listing::{
    collect_deleted_paths, generated_id_spec, generated_topic_id, renamed_path, renamed_path_spec,
    rendered_paths, string_views,
};
use crate::app::resolve::{preorder, Located, ResolvedTopic};
use crate::app::resolve::{resolve_spec, ResolveSpec};
use crate::app::select::{
    parse_error_matches, parse_for_role, resolve_error_matches, resolve_failure_matches,
    resolve_for_role, resolve_one, resolve_one_ok, RoleSpec, SelectorRole,
};
use crate::domain::selector::{parse_selector_spec, render_selector_spec};
use crate::cli::output::{CliErrorBody, ErrorCode};
use crate::domain::path::{render_path_spec, TopicPath};
use crate::domain::topic::Topic;
use crate::text::{chars_of, push_all, str_equal, string_from_chars};

verus! {

/// The wording of `node_role`, as text.
pub open spec fn node_role_spec() -> RoleSpec {
    RoleSpec {
        invalid_code: ErrorCode::InvalidUsage,
        invalid_prefix: "Node selector is invalid: "@,
        invalid_fix: "Use a valid selector such as root, id:<topic-id>, path:/Q2, or title:Payment."@,
        not_found_prefix: "Selector did not match a topic: "@,
        not_found_fix: "Run tree or find to rediscover the topic selector, then retry."@,
        ambiguous_message: "Selector matched multiple topics."@,
        ambiguous_fix: "Retry with one of the candidate ids."@,
        operation: None,
    }
}

/// The wording for a selector that names the topic to edit.
pub fn node_role() -> (r: SelectorRole)
    ensures
        r@ == node_role_spec(),
{
    SelectorRole {
        invalid_code: ErrorCode::InvalidUsage,
        invalid_prefix: "Node selector is invalid: ".to_owned(),
        invalid_fix: "Use a valid selector such as root, id:<topic-id>, path:/Q2, or title:Payment.".to_owned(),
        not_found_prefix: "Selector did not match a topic: ".to_owned(),
        not_found_fix: "Run tree or find to rediscover the topic selector, then retry.".to_owned(),
        ambiguous_message: "Selector matched multiple topics.".to_owned(),
        ambiguous_fix: "Retry with one of the candidate ids.".to_owned(),
        operation: None,
    }
}

/// The wording of `parent_role`, as text.
pub open spec fn parent_role_spec() -> RoleSpec {
    RoleSpec {
        invalid_code: ErrorCode::InvalidUsage,
        invalid_prefix: "Parent selector is invalid: "@,
        invalid_fix: "Use a valid selector such as root, id:<topic-id>, path:/Q2, or title:Payment."@,
        not_found_prefix: "Parent selector did not match a topic: "@,
        not_found_fix: "Run tree or find to rediscover the parent selector, then retry."@,
        ambiguous_message: "Parent selector matched multiple topics."@,
        ambiguous_fix: "Retry with one of the candidate ids."@,
        operation: None,
    }
}

/// The wording for a selector that names the parent of a new topic.
pub fn parent_role() -> (r: SelectorRole)
    ensures
        r@ == parent_role_spec(),
{
    SelectorRole {
        invalid_code: ErrorCode::InvalidUsage,
        invalid_prefix: "Parent selector is invalid: ".to_owned(),
        invalid_fix: "Use a valid selector such as root, id:<topic-id>, path:/Q2, or title:Payment.".to_owned(),
        not_found_prefix: "Parent selector did not match a topic: ".to_owned(),
        not_found_fix: "Run tree or find to rediscover the parent selector, then retry.".to_owned(),
        ambiguous_message: "Parent selector matched multiple topics.".to_owned(),
        ambiguous_fix: "Retry with one of the candidate ids.".to_owned(),
        operation: None,
    }
}

/// The wording of `source_role`, as text.
pub open spec fn source_role_spec() -> RoleSpec {
    RoleSpec {
        invalid_code: ErrorCode::InvalidUsage,
        invalid_prefix: "Node selector is invalid: "@,
        invalid_fix: "Use a valid selector such as id:<topic-id>, path:/Q2, or title:Payment."@,
        not_found_prefix: "Selector did not match a topic: "@,
        not_found_fix: "Run tree or find to rediscover the topic selector, then retry."@,
        ambiguous_message: "Selector matched multiple topics."@,
        ambiguous_fix: "Retry with one of the candidate ids."@,
        operation: None,
    }
}

/// The wording for the selector of a topic to delete or move.
pub fn source_role() -> (r: SelectorRole)
    ensures
        r@ == source_role_spec(),
{
    SelectorRole {
        invalid_code: ErrorCode::InvalidUsage,
        invalid_prefix: "Node selector is invalid: ".to_owned(),
        invalid_fix: "Use a valid selector such as id:<topic-id>, path:/Q2, or title:Payment.".to_owned(),
        not_found_prefix: "Selector did not match a topic: ".to_owned(),
        not_found_fix: "Run tree or find to rediscover the topic selector, then retry.".to_owned(),
        ambiguous_message: "Selector matched multiple topics.".to_owned(),
        ambiguous_fix: "Retry with one of the candidate ids.".to_owned(),
        operation: None,
    }
}

/// The wording of `destination_role`, as text.
pub open spec fn destination_role_spec() -> RoleSpec {
    RoleSpec {
        invalid_code: ErrorCode::InvalidUsage,
        invalid_prefix: "Destination selector is invalid: "@,
        invalid_fix: "Use a valid destination selector such as root, id:<topic-id>, or path:/Q2."@,
        not_found_prefix: "Destination selector did not match a topic: "@,
        not_found_fix: "Run tree or find to rediscover the destination selector, then retry."@,
        ambiguous_message: "Destination selector matched multiple topics."@,
        ambiguous_fix: "Retry with one of the candidate ids."@,
        operation: None,
    }
}

/// The wording for the selector of a move destination.
pub fn destination_role() -> (r: SelectorRole)
    ensures
        r@ == destination_role_spec(),
{
    SelectorRole {
        invalid_code: ErrorCode::InvalidUsage,
        invalid_prefix: "Destination selector is invalid: ".to_owned(),
        invalid_fix: "Use a valid destination selector such as root, id:<topic-id>, or path:/Q2.".to_owned(),
        not_found_prefix: "Destination selector did not match a topic: ".to_owned(),
        not_found_fix: "Run tree or find to rediscover the destination selector, then retry.".to_owned(),
        ambiguous_message: "Destination selector matched multiple topics.".to_owned(),
        ambiguous_fix: "Retry with one of the candidate ids.".to_owned(),
        operation: None,
    }
}

/// A topic as reported in a plan: its id, rendered path and title.
#[derive(Clone, Debug, PartialEq, Eq)]
pub struct TopicRef {
    pub id: String,
    pub path: String,
    pub title: String,
}

/// Whether a reported topic is the located topic.
pub open spec fn ref_of(r: TopicRef, l: Located) -> bool {
    r.id@ == l.0.id.0@ && r.path@ == render_path_spec(l.1) && r.title@ == l.0.title@
}

fn topic_ref(found: &ResolvedTopic) -> (r: TopicRef)
    ensures
        ref_of(r, (*found.topic, found.path@)),
{
    TopicRef {
        id: found.topic.id.0.clone(),
        path: found.path.to_selector_value(),
        title: found.topic.title.clone(),
    }
}

/// The planned addition of one topic.
pub struct AddPlan {
    pub parent: TopicRef,
    pub new_topic_id: String,
    pub created: TopicPath,
    pub created_path: String,
    pub title: String,
}

/// Plans `add`: the parent is resolved; the new topic's path is the parent's path
/// followed by `title` and its id is generated from the title.
pub fn plan_add(root: &Topic, parent: &str, title: &str, sheet_title: &str) -> (r: Result<
    AddPlan,
    CliErrorBody,
>)
    ensures
        match resolve_one_ok(*root, parent@) {
            None => r matches Err(e) && resolve_error_matches(
                e,
                *root,
                parent@,
                parent_role_spec(),
                sheet_title@,
            ),
            Some(l) => r matches Ok(p) && ref_of(p.parent, l) && p.new_topic_id@ == generated_id_spec(
                title@,
            ) && p.created@ == l.1.push(title@) && p.created_path@ == render_path_spec(
                l.1.push(title@),
            ) && p.title@ == title@,
        },
{
    let role = parent_role();
    let found = match resolve_one(root, parent, &role, sheet_title) {
        Ok(found) => found,
        Err(e) => return Err(e),
    };
    let created = found.path.join(title.to_owned());
    let created_path = created.to_selector_value();
    Ok(AddPlan {
        parent: topic_ref(&found),
        new_topic_id: generated_topic_id(title),
        created,
        created_path,
        title: title.to_owned(),
    })
}

/// The planned update of one topic's fields.
pub struct UpdatePlan {
    /// The id of the topic.
    pub id: String,
    /// The topic's current path.
    pub path: String,
    /// Whether the update changes anything.
    pub will_change: bool,
}

/// `set --title` needs a non-empty title.
pub fn check_set_title(title: &str) -> (r: Result<(), CliErrorBody>)
    ensures
        r is Err <==> title@.len() == 0,
        r matches Err(e) ==> e.code == ErrorCode::InvalidUsage && e.exit_code == crate::cli::output::exit_code_spec(ErrorCode::InvalidUsage) && e.message@
            == "set requires at least one field option."@ && e.retryable && e.suggested_fix@
            == "Retry with --title for this implementation slice."@,
{
    if title.is_empty() {
        Err(
            CliErrorBody::new(
                ErrorCode::InvalidUsage,
                "set requires at least one field option.".to_owned(),
                true,
                "Retry with --title for this implementation slice.".to_owned(),
            ),
        )
    } else {
        Ok(())
    }
}

/// The planned rename of one topic.
pub struct SetTitlePlan {
    pub update: UpdatePlan,
    pub old_path: String,
    pub new_path: String,
    pub new: TopicPath,
}

/// Plans `set --title`: the topic keeps its place and its path ends in the new title;
/// it changes when the title differs.
pub fn plan_set_title(root: &Topic, node: &str, title: &str, sheet_title: &str) -> (r: Result<
    SetTitlePlan,
    CliErrorBody,
>)
    ensures
        match resolve_one_ok(*root, node@) {
            None => r matches Err(e) && resolve_error_matches(
                e,
                *root,
                node@,
                node_role_spec(),
                sheet_title@,
            ),
            Some(l) => r matches Ok(p) && p.update.id@ == l.0.id.0@ && p.update.path@
                == render_path_spec(l.1) && p.update.will_change == (l.0.title@ != title@)
                && p.old_path@ == render_path_spec(l.1) && p.new_path@ == renamed_path_spec(
                l.1,
                title@,
            ) && p.new_path@ == render_path_spec(p.new@),
        },
{
    let role = node_role();
    let found = match resolve_one(root, node, &role, sheet_title) {
        Ok(found) => found,
        Err(e) => return Err(e),
    };
    let old_path = found.path.to_selector_value();
    let new = if found.path.is_root() {
        let p = TopicPath::root().join(title.to_owned());
        proof {
            assert(p@ =~= seq![title@]);
        }
        p
    } else {
        let p = found.path.parent().join(title.to_owned());
        proof {
            assert(p@ =~= found.path@.update(found.path@.len() - 1, title@));
        }
        p
    };
    let new_path = new.to_selector_value();
    Ok(SetTitlePlan {
        update: UpdatePlan {
            id: found.topic.id.0.clone(),
            path: old_path.clone(),
            will_change: !str_equal(found.topic.title.as_str(), title),
        },
        old_path,
        new_path,
        new,
    })
}

/// Plans `set --note`: the topic and its path; a note update always counts as a change.
pub fn plan_set_note(root: &Topic, node: &str, sheet_title: &str) -> (r: Result<
    UpdatePlan,
    CliErrorBody,
>)
    ensures
        match resolve_one_ok(*root, node@) {
            None => r matches Err(e) && resolve_error_matches(
                e,
                *root,
                node@,
                node_role_spec(),
                sheet_title@,
            ),
            Some(l) => r matches Ok(p) && p.id@ == l.0.id.0@ && p.path@ == render_path_spec(l.1)
                && p.will_change,
        },
{
    let role = node_role();
    let found = match resolve_one(root, node, &role, sheet_title) {
        Ok(found) => found,
        Err(e) => return Err(e),
    };
    Ok(UpdatePlan {
        id: found.topic.id.0.clone(),
        path: found.path.to_selector_value(),
        will_change: true,
    })
}

/// The note a topic has after `append` is added to its current note.
pub open spec fn appended_note_spec(note: Option<String>, append: Seq<char>) -> Seq<char> {
    match note {
        Some(n) => n@ + append,
        None => append,
    }
}

/// Plans `set --append-note`: the new note is the current note (or nothing) followed by
/// the appended text.
pub fn plan_set_append_note(root: &Topic, node: &str, append_note: &str, sheet_title: &str) -> (r:
    Result<(UpdatePlan, String), CliErrorBody>)
    ensures
        match resolve_one_ok(*root, node@) {
            None => r matches Err(e) && resolve_error_matches(
                e,
                *root,
                node@,
                node_role_spec(),
                sheet_title@,
            ),
            Some(l) => r matches Ok((p, note)) && p.id@ == l.0.id.0@ && p.path@ == render_path_spec(
                l.1,
            ) && p.will_change && note@ == appended_note_spec(l.0.note, append_note@),
        },
{
    let role = node_role();
    let found = match resolve_one(root, node, &role, sheet_title) {
        Ok(found) => found,
        Err(e) => return Err(e),
    };
    let mut out: Vec<char> = Vec::new();
    match &found.topic.note {
        Some(n) => {
            let c = chars_of(n.as_str());
            push_all(&mut out, c.as_slice());
        },
        None => {},
    }
    let a = chars_of(append_note);
    push_all(&mut out, a.as_slice());
    proof {
        assert(out@ =~= appended_note_spec(found.topic.note, append_note@));
    }
    Ok((
        UpdatePlan {
            id: found.topic.id.0.clone(),
            path: found.path.to_selector_value(),
            will_change: true,
        },
        string_from_chars(out.as_slice()),
    ))
}

/// The planned deletion of a topic and its subtree.
pub struct DeletePlan {
    pub deleted: Vec<String>,
    pub will_change: bool,
}

/// `delete` and `move` write nothing yet: only dry runs are accepted.
pub fn check_dry_run(dry_run: bool, command: &str) -> (r: Result<(), CliErrorBody>)
    ensures
        r is Err <==> !dry_run,
        r matches Err(e) ==> e.code == ErrorCode::InvalidUsage && e.exit_code == crate::cli::output::exit_code_spec(ErrorCode::InvalidUsage) && e.message@ == "Only "@
            + command@ + " --dry-run is implemented in this slice."@ && e.retryable
            && e.suggested_fix@ == "Retry with --dry-run, or wait for the "@ + command@
            + " apply slice."@,
{
    if dry_run {
        return Ok(());
    }
    let mut m: Vec<char> = Vec::new();
    let a = chars_of("Only ");
    push_all(&mut m, a.as_slice());
    let c = chars_of(command);
    push_all(&mut m, c.as_slice());
    let b = chars_of(" --dry-run is implemented in this slice.");
    push_all(&mut m, b.as_slice());
    let mut f: Vec<char> = Vec::new();
    let d = chars_of("Retry with --dry-run, or wait for the ");
    push_all(&mut f, d.as_slice());
    push_all(&mut f, c.as_slice());
    let g = chars_of(" apply slice.");
    push_all(&mut f, g.as_slice());
    Err(
        CliErrorBody::new(
            ErrorCode::InvalidUsage,
            string_from_chars(m.as_slice()),
            true,
            string_from_chars(f.as_slice()),
        ),
    )
}

/// Plans `delete`: the root cannot be deleted; otherwise the topic and all its
/// descendants, in pre-order, are deleted.
pub fn plan_delete(root: &Topic, node: &str, sheet_title: &str) -> (r: Result<
    DeletePlan,
    CliErrorBody,
>)
    ensures
        match resolve_one_ok(*root, node@) {
            None => r matches Err(e) && resolve_error_matches(
                e,
                *root,
                node@,
                source_role_spec(),
                sheet_title@,
            ),
            Some(l) => if l.1.len() == 0 {
                r matches Err(e) && e.code == ErrorCode::RootOperationNotAllowed && e.exit_code == crate::cli::output::exit_code_spec(ErrorCode::RootOperationNotAllowed) && e.message@
                    == "Deleting the root topic is not allowed."@ && e.selector is Some
            } else {
                r matches Ok(p) && string_views(p.deleted@) == rendered_paths(preorder(l.0, l.1))
                    && p.will_change
            },
        },
{
    let role = source_role();
    let found = match resolve_one(root, node, &role, sheet_title) {
        Ok(found) => found,
        Err(e) => return Err(e),
    };
    if found.path.is_root() {
        let sel = match crate::domain::selector::Selector::parse(node) {
            Ok(s) => s.render(),
            Err(_) => node.to_owned(),
        };
        return Err(
            CliErrorBody::new(
                ErrorCode::RootOperationNotAllowed,
                "Deleting the root topic is not allowed.".to_owned(),
                true,
                "Use a non-root node selector, or use --children-only when that slice is available.".to_owned(),
            ).with_selector(sel),
        );
    }
    let deleted = collect_deleted_paths(found.topic, &found.path);
    proof {
        assert(rendered_paths(preorder(*found.topic, found.path@)).len() >= 1);
    }
    let will_change = deleted.len() > 0;
    Ok(DeletePlan { deleted, will_change })
}

/// The planned move of a topic under another parent.
pub struct MovePlan {
    pub id: String,
    pub from_path: String,
    pub to_path: String,
    pub will_change: bool,
}

/// Plans `move`: both selectors are read first; the root cannot move; the topic's new
/// path is the destination's path followed by its title, and it changes when that path
/// differs from the current one.
pub fn plan_move(root: &Topic, node: &str, destination: &str, sheet_title: &str) -> (r: Result<
    MovePlan,
    CliErrorBody,
>)
    ensures
        match (parse_selector_spec(node@), parse_selector_spec(destination@)) {
            (Err(pe), _) => r matches Err(e) && parse_error_matches(e, pe, source_role_spec()),
            (Ok(_), Err(pe)) => r matches Err(e) && parse_error_matches(
                e,
                pe,
                destination_role_spec(),
            ),
            (Ok(ns), Ok(ds)) => match (resolve_spec(*root, ns), resolve_spec(*root, ds)) {
                (ResolveSpec::Found(s), d) => if s.1.len() == 0 {
                    r matches Err(e) && e.code == ErrorCode::RootOperationNotAllowed && e.exit_code == crate::cli::output::exit_code_spec(ErrorCode::RootOperationNotAllowed) && e.message@
                        == "Moving the root topic is not allowed."@ && e.retryable
                        && e.suggested_fix@ == "Use a non-root node selector."@ && e.selector
                        is Some && e.selector->0@ == render_selector_spec(ns)
                } else {
                    match d {
                        ResolveSpec::Found(d) => r matches Ok(p) && p.id@ == s.0.id.0@
                            && p.from_path@ == render_path_spec(s.1) && p.to_path@
                            == render_path_spec(d.1.push(s.0.title@)) && p.will_change == (
                        p.from_path@ != p.to_path@),
                        _ => r matches Err(e) && resolve_failure_matches(
                            e,
                            *root,
                            ds,
                            destination_role_spec(),
                            sheet_title@,
                        ),
                    }
                },
                _ => r matches Err(e) && resolve_failure_matches(
                    e,
                    *root,
                    ns,
                    source_role_spec(),
                    sheet_title@,
                ),
            },
        },
{
    let role = source_role();
    let droll = destination_role();
    let selector = match parse_for_role(node, &role) {
        Ok(s) => s,
        Err(e) => return Err(e),
    };
    let dest_selector = match parse_for_role(destination, &droll) {
        Ok(s) => s,
        Err(e) => return Err(e),
    };
    let source = match resolve_for_role(root, &selector, &role, sheet_title) {
        Ok(found) => found,
        Err(e) => return Err(e),
    };
    if source.path.is_root() {
        return Err(
            CliErrorBody::new(
                ErrorCode::RootOperationNotAllowed,
                "Moving the root topic is not allowed.".to_owned(),
                true,
                "Use a non-root node selector.".to_owned(),
            ).with_selector(selector.render()),
        );
    }
    let dest = match resolve_for_role(root, &dest_selector, &droll, sheet_title) {
        Ok(found) => found,
        Err(e) => return Err(e),
    };
    let from_path = source.path.to_selector_value();
    let to_path = dest.path.join(source.topic.title.clone()).to_selector_value();
    let will_change = !str_equal(from_path.as_str(), to_path.as_str());
    Ok(MovePlan { id: source.topic.id.0.clone(), from_path, to_path, will_change })
}

} // verus!

//! Planning a patch: a list of operations checked one after another against one sheet
//! and turned into the diff they would make, without writing anything.
use vstd::prelude::*;
use crate::app::listing::{
    collect_added_paths, collect_copied_paths, collect_deleted_paths, collect_descendant_paths,
    rendered_paths, renamed_path, renamed_path_spec, string_views, tree_paths,
};
use crate::app::resolve::{
    find_topic_by_path, forest_preorder, located_of, preorder, topic_at_path, Located,
    ResolveSpec, resolve_spec, ResolvedTopic,
};
use crate::app::select::{
    concat, parse_error_matches, parse_for_role, resolve_failure_matches, resolve_for_role,
    RoleSpec, SelectorRole,
};
use crate::app::tree_input::TopicTreeInputDto;
use crate::cli::output::{exit_code_spec, operation_field_path, CliErrorBody, ErrorCode};
use crate::domain::path::{render_path_spec, TopicPath};
use crate::domain::selector::{
    parse_selector_spec, render_selector_spec, selector_error_message, Selector, SelectorSpec,
};
use crate::domain::topic::Topic;
use crate::infra::xmind::json::{json_items_view, json_members_view, json_view, Json, JsonMember, JsonValue};
use crate::text::{chars_of, is_blank, starts_with_spec, str_equal, string_from_chars, trim, trim_spec};

verus! {

/// One operation of a patch file, as read: its name and whichever arguments it has.
pub struct PatchOpDto {
    pub op: String,
    pub node: Option<String>,
    pub parent: Option<String>,
    pub target: Option<String>,
    pub to: Option<String>,
    pub position: Option<String>,
    pub path: Option<String>,
    pub title: Option<String>,
    pub fields: Option<Vec<JsonMember>>,
    pub tree: Option<TopicTreeInputDto>,
    pub match_by: Option<String>,
    pub prune: Option<bool>,
    pub children_only: Option<bool>,
    pub promote_children: Option<bool>,
    pub preserve_ids: Option<bool>,
    pub by: Option<String>,
    pub order: Option<String>,
    pub recursive: Option<bool>,
    pub add_labels: Option<Vec<String>>,
}

/// The name an operation is planned under: the `_tree` aliases of `delete`, `move` and
/// `copy` are read as those operations.
pub open spec fn canonical_op_spec(op: Seq<char>) -> Seq<char> {
    if op == "delete_tree"@ {
        "delete"@
    } else if op == "move_tree"@ {
        "move"@
    } else if op == "clone_tree"@ {
        "copy"@
    } else {
        op
    }
}

impl PatchOpDto {
    /// The name this operation is planned under.
    pub fn canonical_op(&self) -> (r: &str)
        ensures
            r@ == canonical_op_spec(self.op@),
    {
        if str_equal(self.op.as_str(), "delete_tree") {
            "delete"
        } else if str_equal(self.op.as_str(), "move_tree") {
            "move"
        } else if str_equal(self.op.as_str(), "clone_tree") {
            "copy"
        } else {
            self.op.as_str()
        }
    }
}

/// An optional text by its view.
pub open spec fn opt_str(o: Option<&str>) -> Option<Seq<char>> {
    match o {
        Some(s) => Some(s@),
        None => None,
    }
}

/// An error raised by the operation at `index` named `op`: its code, message, retry
/// hint and fix, the operation context, and the field path `ops[<index>].<field>` when a
/// field is at fault.
pub open spec fn op_error_matches(
    e: CliErrorBody,
    index: usize,
    op: Seq<char>,
    code: ErrorCode,
    message: Seq<char>,
    retryable: bool,
    fix: Seq<char>,
    field: Option<Seq<char>>,
) -> bool {
    &&& e.code == code
    &&& e.message@ == message
    &&& e.retryable == retryable
    &&& e.suggested_fix@ == fix
    &&& e.operation_index == Some(index)
    &&& e.operation is Some
    &&& e.operation->0@ == op
    &&& match field {
        Some(f) => e.field_path is Some && e.field_path->0@ == operation_field_path(index as nat, f),
        None => e.field_path is None,
    }
    &&& e.path is None
    &&& e.candidates@.len() == 0
    &&& e.exit_code == exit_code_spec(code)
}

/// Builds an error of the operation at `index`.
pub fn op_error(
    index: usize,
    op: &str,
    code: ErrorCode,
    message: String,
    retryable: bool,
    fix: &str,
    field: Option<&str>,
) -> (r: CliErrorBody)
    ensures
        op_error_matches(r, index, op@, code, message@, retryable, fix@, opt_str(field)),
        r.selector is None,
{
    let e = CliErrorBody::new(code, message, retryable, fix.to_owned());
    match field {
        Some(f) => e.with_operation_field_context(index, op.to_owned(), f),
        None => e.with_operation_context(index, op.to_owned()),
    }
}

/// The `invalid_patch` error for a missing or malformed field of the operation.
pub open spec fn field_error_matches(
    e: CliErrorBody,
    index: usize,
    op: Seq<char>,
    message: Seq<char>,
    fix: Seq<char>,
    field: Seq<char>,
) -> bool {
    &&& op_error_matches(e, index, op, ErrorCode::InvalidPatch, message, true, fix, Some(field))
    &&& e.selector is None
}

fn field_error(index: usize, op: &str, message: &str, fix: &str, field: &str) -> (r: CliErrorBody)
    ensures
        field_error_matches(r, index, op@, message@, fix@, field@),
{
    op_error(index, op, ErrorCode::InvalidPatch, message.to_owned(), true, fix, Some(field))
}

/// The `invalid_patch` error for an operation whose arguments do not fit, without a
/// field path.
pub open spec fn usage_error_matches(
    e: CliErrorBody,
    index: usize,
    op: Seq<char>,
    message: Seq<char>,
    fix: Seq<char>,
) -> bool {
    &&& op_error_matches(e, index, op, ErrorCode::InvalidPatch, message, true, fix, None)
    &&& e.selector is None
}

fn usage_error(index: usize, op: &str, message: &str, fix: &str) -> (r: CliErrorBody)
    ensures
        usage_error_matches(r, index, op@, message@, fix@),
{
    op_error(index, op, ErrorCode::InvalidPatch, message.to_owned(), true, fix, None)
}

/// The fix offered for an unreadable selector that may name any topic.
pub open spec fn any_selector_fix() -> Seq<char> {
    "Use a valid selector such as root, id:<topic-id>, path:/Q2, or title:Payment."@
}

/// The fix offered for an unreadable selector that names a topic to move or copy.
pub open spec fn source_selector_fix() -> Seq<char> {
    "Use a valid selector such as id:<topic-id>, path:/Q2, or title:Payment."@
}

/// The fix offered for an unreadable destination selector.
pub open spec fn destination_selector_fix() -> Seq<char> {
    "Use a valid destination selector such as root, id:<topic-id>, or path:/Q2."@
}

/// The fix offered when a selector matches nothing.
pub open spec fn rediscover_fix() -> Seq<char> {
    "Run tree or find to rediscover the selector, then retry."@
}

/// The fix offered when a destination selector matches nothing.
pub open spec fn rediscover_destination_fix() -> Seq<char> {
    "Run tree or find to rediscover the destination selector, then retry."@
}

/// How the operation names its selector in messages: `<op>` alone for its node, or
/// `<op> <word>` for its target or destination.
pub open spec fn role_phrase(op: Seq<char>, word: Seq<char>, qualified: bool) -> Seq<char> {
    if qualified {
        op + " "@ + word
    } else {
        op
    }
}

/// The wording of the selector `word` (`node`, `target` or `destination`) of the
/// operation at `index` named `op`.
pub open spec fn patch_role_spec(
    index: usize,
    op: Seq<char>,
    word: Seq<char>,
    qualified: bool,
    invalid_fix: Seq<char>,
    not_found_fix: Seq<char>,
) -> RoleSpec {
    RoleSpec {
        invalid_code: ErrorCode::InvalidPatch,
        invalid_prefix: op + " "@ + word + " selector is invalid: "@,
        invalid_fix,
        not_found_prefix: role_phrase(op, word, qualified) + " selector did not match a topic: "@,
        not_found_fix,
        ambiguous_message: role_phrase(op, word, qualified) + " selector matched multiple topics."@,
        ambiguous_fix: "Retry with a selector that resolves to exactly one topic."@,
        operation: Some((index, op)),
    }
}

fn patch_role(
    index: usize,
    op: &str,
    word: &str,
    qualified: bool,
    invalid_fix: &str,
    not_found_fix: &str,
) -> (r: SelectorRole)
    ensures
        r@ == patch_role_spec(index, op@, word@, qualified, invalid_fix@, not_found_fix@),
{
    let spaced = concat(op, " ");
    let named = concat(spaced.as_str(), word);
    let phrase = if qualified {
        concat(spaced.as_str(), word)
    } else {
        op.to_owned()
    };
    let r = SelectorRole {
        invalid_code: ErrorCode::InvalidPatch,
        invalid_prefix: concat(named.as_str(), " selector is invalid: "),
        invalid_fix: invalid_fix.to_owned(),
        not_found_prefix: concat(phrase.as_str(), " selector did not match a topic: "),
        not_found_fix: not_found_fix.to_owned(),
        ambiguous_message: concat(phrase.as_str(), " selector matched multiple topics."),
        ambiguous_fix: "Retry with a selector that resolves to exactly one topic.".to_owned(),
        operation: Some((index, op.to_owned())),
    };
    proof {
        assert(r@.invalid_prefix =~= op@ + " "@ + word@ + " selector is invalid: "@);
    }
    r
}

/// The wording of the node selector of the operation at `index` named `op`.
pub open spec fn node_role_of(index: usize, op: Seq<char>) -> RoleSpec {
    patch_role_spec(index, op, "node"@, false, any_selector_fix(), rediscover_fix())
}

fn node_role(index: usize, op: &str) -> (r: SelectorRole)
    ensures
        r@ == node_role_of(index, op@),
{
    patch_role(
        index,
        op,
        "node",
        false,
        "Use a valid selector such as root, id:<topic-id>, path:/Q2, or title:Payment.",
        "Run tree or find to rediscover the selector, then retry.",
    )
}

/// Whether the selector text `text` resolves to one topic under `root`.
pub open spec fn resolves(root: Topic, text: Seq<char>) -> bool {
    match parse_selector_spec(text) {
        Ok(sel) => resolve_spec(root, sel) is Found,
        Err(_) => false,
    }
}

/// The topic and path the selector text `text` resolves to under `root`.
pub open spec fn resolved(root: Topic, text: Seq<char>) -> Located {
    match parse_selector_spec(text) {
        Ok(sel) => match resolve_spec(root, sel) {
            ResolveSpec::Found(l) => l,
            _ => arbitrary(),
        },
        Err(_) => arbitrary(),
    }
}

/// The error reported when `text` does not resolve in the given role.
pub open spec fn role_failure(
    e: CliErrorBody,
    root: Topic,
    text: Seq<char>,
    role: RoleSpec,
    sheet: Seq<char>,
) -> bool {
    match parse_selector_spec(text) {
        Err(pe) => parse_error_matches(e, pe, role),
        Ok(sel) => resolve_failure_matches(e, root, sel, role, sheet),
    }
}

/// Resolves `text` in the given role.
fn resolve_text<'a>(root: &'a Topic, text: &str, role: &SelectorRole, sheet_title: &str) -> (r:
    Result<ResolvedTopic<'a>, CliErrorBody>)
    ensures
        if resolves(*root, text@) {
            r matches Ok(x) && located_of(x) == resolved(*root, text@)
        } else {
            r matches Err(e) && role_failure(e, *root, text@, role@, sheet_title@)
        },
{
    let selector = match parse_for_role(text, role) {
        Ok(s) => s,
        Err(e) => return Err(e),
    };
    resolve_for_role(root, &selector, role, sheet_title)
}

/// What the parent argument of `add` or `add_tree` names: the segments of an existing
/// topic's path; otherwise the error, worded for the operation `op`. A missing parent
/// topic is reported with the operation context only when `in_context` holds.
pub open spec fn parent_path_matches(
    r: Result<TopicPath, CliErrorBody>,
    root: Topic,
    index: usize,
    op: Seq<char>,
    parent: Seq<char>,
    in_context: bool,
) -> bool {
    match parse_selector_spec(parent) {
        Err(pe) => r matches Err(e) && usage_error_matches(
            e,
            index,
            op,
            op + " parent selector is invalid: "@ + selector_error_message(pe),
            "Use a parent selector like path:/Q2."@,
        ),
        Ok(SelectorSpec::Path(segs)) => if topic_at_path(root, segs) is Some {
            r matches Ok(p) && p@ == segs
        } else {
            r matches Err(e) && e.code == ErrorCode::NotFound && e.message@
                == "Parent selector did not match a topic: "@ + render_selector_spec(
                SelectorSpec::Path(segs),
            ) && e.retryable && e.suggested_fix@
                == "Run tree or find to rediscover the parent path, then retry."@ && e.selector is None
                && e.field_path is None && e.candidates@.len() == 0 && e.exit_code
                == exit_code_spec(ErrorCode::NotFound) && (if in_context {
                e.operation_index == Some(index) && e.operation is Some && e.operation->0@ == op
            } else {
                e.operation_index is None && e.operation is None
            })
        },
        Ok(_) => r matches Err(e) && usage_error_matches(
            e,
            index,
            op,
            op + " parent must be a path: selector."@,
            "Use a parent selector like path:/Q2."@,
        ),
    }
}

fn parent_path(root: &Topic, index: usize, op: &str, parent: &str, in_context: bool) -> (r: Result<
    TopicPath,
    CliErrorBody,
>)
    ensures
        parent_path_matches(r, *root, index, op@, parent@, in_context),
{
    let selector = match Selector::parse(parent) {
        Ok(s) => s,
        Err(pe) => {
            let head = concat(op, " parent selector is invalid: ");
            let msg = concat(head.as_str(), pe.message().as_str());
            return Err(
                op_error(
                    index,
                    op,
                    ErrorCode::InvalidPatch,
                    msg,
                    true,
                    "Use a parent selector like path:/Q2.",
                    None,
                ),
            );
        },
    };
    let path = match &selector {
        Selector::Path(p) => p.duplicate(),
        _ => {
            let msg = concat(op, " parent must be a path: selector.");
            return Err(
                op_error(
                    index,
                    op,
                    ErrorCode::InvalidPatch,
                    msg,
                    true,
                    "Use a parent selector like path:/Q2.",
                    None,
                ),
            );
        },
    };
    if find_topic_by_path(root, &path).is_none() {
        let msg = concat("Parent selector did not match a topic: ", selector.render().as_str());
        let e = CliErrorBody::new(
            ErrorCode::NotFound,
            msg,
            true,
            "Run tree or find to rediscover the parent path, then retry.".to_owned(),
        );
        if in_context {
            return Err(e.with_operation_context(index, op.to_owned()));
        }
        return Err(e);
    }
    Ok(path)
}

/// What `add` plans: the path of the new topic, titled by the trimmed title, under the
/// topic at a `path:` parent selector.
pub open spec fn add_matches(r: Result<String, CliErrorBody>, root: Topic, index: usize, op: PatchOpDto) -> bool {
    match (op.parent, op.title) {
        (None, _) => r matches Err(e) && field_error_matches(
            e,
            index,
            "add"@,
            "add operation is missing parent."@,
            "Add a parent selector like parent: path:/Q2."@,
            "parent"@,
        ),
        (Some(_), None) => r matches Err(e) && field_error_matches(
            e,
            index,
            "add"@,
            "add operation is missing title."@,
            "Add a non-empty title for the new topic."@,
            "title"@,
        ),
        (Some(p), Some(t)) => if trim_spec(t@).len() == 0 {
            r matches Err(e) && field_error_matches(
                e,
                index,
                "add"@,
                "add operation title must not be empty."@,
                "Add a non-empty title for the new topic."@,
                "title"@,
            )
        } else {
            match parse_selector_spec(p@) {
                Ok(SelectorSpec::Path(segs)) if topic_at_path(root, segs) is Some => r matches Ok(
                    x,
                ) && x@ == render_path_spec(segs.push(trim_spec(t@))),
                _ => r is Err && parent_path_matches(
                    match r {
                        Err(e) => Err(e),
                        Ok(_) => arbitrary(),
                    },
                    root,
                    index,
                    "add"@,
                    p@,
                    true,
                ),
            }
        },
    }
}

/// Plans an `add` operation of a patch.
pub fn plan_patch_add(root: &Topic, index: usize, op: &PatchOpDto) -> (r: Result<String, CliErrorBody>)
    ensures
        match add_result(*root, *op) {
            Some(v) => r matches Ok(x) && x@ == v,
            None => r is Err,
        },
        add_matches(r, *root, index, *op),
{
    let parent = match &op.parent {
        Some(p) => p,
        None => return Err(
            field_error(
                index,
                "add",
                "add operation is missing parent.",
                "Add a parent selector like parent: path:/Q2.",
                "parent",
            ),
        ),
    };
    let title = match &op.title {
        Some(t) => t,
        None => return Err(
            field_error(
                index,
                "add",
                "add operation is missing title.",
                "Add a non-empty title for the new topic.",
                "title",
            ),
        ),
    };
    let title_chars = chars_of(title.as_str());
    if is_blank(title_chars.as_slice()) {
        return Err(
            field_error(
                index,
                "add",
                "add operation title must not be empty.",
                "Add a non-empty title for the new topic.",
                "title",
            ),
        );
    }
    let path = match parent_path(root, index, "add", parent.as_str(), true) {
        Ok(p) => p,
        Err(e) => return Err(e),
    };
    let trimmed = trim(title_chars.as_slice());
    Ok(path.join(string_from_chars(trimmed.as_slice())).to_selector_value())
}

/// What `add_tree` plans: the paths, in pre-order, of the topics of its tree added under
/// the topic at a `path:` parent selector.
pub open spec fn add_tree_matches(
    r: Result<Vec<String>, CliErrorBody>,
    root: Topic,
    index: usize,
    op: PatchOpDto,
) -> bool {
    match (op.parent, op.tree) {
        (None, _) => r matches Err(e) && field_error_matches(
            e,
            index,
            "add_tree"@,
            "add_tree operation is missing parent."@,
            "Add a parent selector like parent: path:/Q2."@,
            "parent"@,
        ),
        (Some(_), None) => r matches Err(e) && field_error_matches(
            e,
            index,
            "add_tree"@,
            "add_tree operation is missing tree."@,
            "Add a tree object with a title."@,
            "tree"@,
        ),
        (Some(p), Some(tree)) => match parse_selector_spec(p@) {
            Ok(SelectorSpec::Path(segs)) if topic_at_path(root, segs) is Some => r matches Ok(x)
                && string_views(x@) == tree_paths(tree, segs),
            _ => r is Err && parent_path_matches(
                match r {
                    Err(e) => Err(e),
                    Ok(_) => arbitrary(),
                },
                root,
                index,
                "add_tree"@,
                p@,
                false,
            ),
        },
    }
}

/// Plans an `add_tree` operation of a patch.
pub fn plan_patch_add_tree(root: &Topic, index: usize, op: &PatchOpDto) -> (r: Result<
    Vec<String>,
    CliErrorBody,
>)
    ensures
        match add_tree_result(*root, *op) {
            Some(v) => r matches Ok(x) && string_views(x@) == v,
            None => r is Err,
        },
        add_tree_matches(r, *root, index, *op),
{
    let parent = match &op.parent {
        Some(p) => p,
        None => return Err(
            field_error(
                index,
                "add_tree",
                "add_tree operation is missing parent.",
                "Add a parent selector like parent: path:/Q2.",
                "parent",
            ),
        ),
    };
    let tree = match &op.tree {
        Some(t) => t,
        None => return Err(
            field_error(
                index,
                "add_tree",
                "add_tree operation is missing tree.",
                "Add a tree object with a title.",
                "tree",
            ),
        ),
    };
    let path = match parent_path(root, index, "add_tree", parent.as_str(), false) {
        Ok(p) => p,
        Err(e) => return Err(e),
    };
    Ok(collect_added_paths(&path, tree))
}

/// Whether a `set` field has a value of its documented type: a non-blank text title;
/// a note or hyperlink that is text or null; labels or markers that are null or a list
/// of texts; an image that is null or an object. Other fields are not supported.
pub open spec fn set_field_valid(key: Seq<char>, v: Json) -> bool {
    if key == "title"@ {
        v matches Json::String(t) && trim_spec(t).len() > 0
    } else if key == "note"@ || key == "hyperlink"@ {
        v is Null || v is String
    } else if key == "labels"@ || key == "markers"@ {
        v is Null || (v matches Json::Array(items) && forall|i: int|
            0 <= i < items.len() ==> #[trigger] items[i] is String)
    } else if key == "image"@ {
        v is Null || v is Object
    } else {
        false
    }
}

/// The first field, in order, whose value does not fit.
pub open spec fn first_invalid_field(fields: Seq<(Seq<char>, Json)>) -> Option<int> {
    if exists|i: int| 0 <= i < fields.len() && !set_field_valid(fields[i].0, fields[i].1) {
        Some(
            choose|i: int|
                0 <= i < fields.len() && !set_field_valid(fields[i].0, fields[i].1) && forall|k: int|
                    0 <= k < i ==> set_field_valid(#[trigger] fields[k].0, fields[k].1),
        )
    } else {
        None
    }
}

fn is_json_string(v: &JsonValue) -> (r: bool)
    ensures
        r == (v@ is String),
{
    match v {
        JsonValue::String(_) => true,
        _ => false,
    }
}

fn all_strings(items: &Vec<JsonValue>) -> (r: bool)
    ensures
        r == forall|i: int|
            0 <= i < json_items_view(items@).len() ==> #[trigger] json_items_view(items@)[i] is String,
{
    let ghost v = json_items_view(items@);
    proof {
        lemma_items_view_index(items@);
    }
    let mut i: usize = 0;
    while i < items.len()
        invariant
            i <= items@.len(),
            v == json_items_view(items@),
            v.len() == items@.len(),
            forall|k: int| 0 <= k < items@.len() ==> v[k] == json_view(#[trigger] items@[k]),
            forall|k: int| 0 <= k < i ==> #[trigger] v[k] is String,
        decreases items@.len() - i,
    {
        if !is_json_string(&items[i]) {
            return false;
        }
        i = i + 1;
    }
    true
}

/// The views of the items of a JSON array, one for one.
pub proof fn lemma_items_view_index(items: Seq<JsonValue>)
    ensures
        json_items_view(items).len() == items.len(),
        forall|k: int| 0 <= k < items.len() ==> json_items_view(items)[k] == json_view(#[trigger] items[k]),
    decreases items.len(),
{
    if items.len() > 0 {
        lemma_items_view_index(items.drop_last());
        assert forall|k: int| 0 <= k < items.len() implies json_items_view(items)[k] == json_view(
            #[trigger] items[k],
        ) by {
            if k < items.len() - 1 {
                assert(items[k] == items.drop_last()[k]);
            }
        }
    }
}

/// The views of the members of a JSON object, one for one.
pub proof fn lemma_members_view_index(members: Seq<JsonMember>)
    ensures
        json_members_view(members).len() == members.len(),
        forall|k: int|
            0 <= k < members.len() ==> json_members_view(members)[k] == (
                #[trigger] members[k].key@,
                json_view(members[k].value),
            ),
    decreases members.len(),
{
    if members.len() > 0 {
        lemma_members_view_index(members.drop_last());
        assert forall|k: int| 0 <= k < members.len() implies json_members_view(members)[k] == (
            #[trigger] members[k].key@,
            json_view(members[k].value),
        ) by {
            if k < members.len() - 1 {
                assert(members[k] == members.drop_last()[k]);
            }
        }
    }
}

fn set_field_ok(key: &str, value: &JsonValue) -> (r: bool)
    ensures
        r == set_field_valid(key@, value@),
{
    if str_equal(key, "title") {
        match value {
            JsonValue::String(t) => {
                let cs = chars_of(t.as_str());
                !is_blank(cs.as_slice())
            },
            _ => false,
        }
    } else if str_equal(key, "note") || str_equal(key, "hyperlink") {
        match value {
            JsonValue::Null => true,
            JsonValue::String(_) => true,
            _ => false,
        }
    } else if str_equal(key, "labels") || str_equal(key, "markers") {
        match value {
            JsonValue::Null => true,
            JsonValue::Array(items) => all_strings(items),
            _ => false,
        }
    } else if str_equal(key, "image") {
        match value {
            JsonValue::Null => true,
            JsonValue::Object(_) => true,
            _ => false,
        }
    } else {
        false
    }
}

/// Checks the fields of a `set` operation, reporting the first one whose value does not
/// fit at `ops[<index>].fields.<field>`.
pub fn validate_patch_set_fields(index: usize, op: &str, fields: &Vec<JsonMember>) -> (r: Result<
    (),
    CliErrorBody,
>)
    ensures
        match first_invalid_field(json_members_view(fields@)) {
            None => r is Ok,
            Some(i) => r matches Err(e) && field_error_matches(
                e,
                index,
                op@,
                "set operation field is invalid: "@ + json_members_view(fields@)[i].0,
                "Use supported fields with values of the documented type."@,
                "fields."@ + json_members_view(fields@)[i].0,
            ),
        },
{
    let ghost fv = json_members_view(fields@);
    proof {
        lemma_members_view_index(fields@);
    }
    let mut i: usize = 0;
    while i < fields.len()
        invariant
            i <= fields@.len(),
            fv == json_members_view(fields@),
            fv.len() == fields@.len(),
            forall|k: int|
                0 <= k < fields@.len() ==> fv[k] == (
                    #[trigger] fields@[k].key@,
                    json_view(fields@[k].value),
                ),
            forall|k: int| 0 <= k < i ==> set_field_valid(#[trigger] fv[k].0, fv[k].1),
        decreases fields@.len() - i,
    {
        let m = &fields[i];
        if !set_field_ok(m.key.as_str(), &m.value) {
            proof {
                assert(fv[i as int] == (m.key@, m.value@));
                assert(exists|j: int| 0 <= j < fv.len() && !set_field_valid(fv[j].0, fv[j].1));
                let c = choose|j: int|
                    0 <= j < fv.len() && !set_field_valid(fv[j].0, fv[j].1) && forall|k: int|
                        0 <= k < j ==> set_field_valid(#[trigger] fv[k].0, fv[k].1);
                assert(0 <= i < fv.len() && !set_field_valid(fv[i as int].0, fv[i as int].1) && forall|k: int|
                        0 <= k < i ==> set_field_valid(#[trigger] fv[k].0, fv[k].1));
                if c < i {
                    assert(set_field_valid(fv[c].0, fv[c].1));
                } else if c > i {
                    assert(set_field_valid(fv[i as int].0, fv[i as int].1));
                }
            }
            let msg = concat("set operation field is invalid: ", m.key.as_str());
            let fp = concat("fields.", m.key.as_str());
            return Err(
                field_error_owned(
                    index,
                    op,
                    msg,
                    "Use supported fields with values of the documented type.",
                    fp,
                ),
            );
        }
        i = i + 1;
    }
    Ok(())
}

fn field_error_owned(index: usize, op: &str, message: String, fix: &str, field: String) -> (r:
    CliErrorBody)
    ensures
        field_error_matches(r, index, op@, message@, fix@, field@),
{
    op_error(index, op, ErrorCode::InvalidPatch, message, true, fix, Some(field.as_str()))
}

/// The title a `set` renames to: the value of the first `title` field, when it is text.
pub open spec fn set_title_field(fields: Seq<(Seq<char>, Json)>) -> Option<Seq<char>> {
    if exists|i: int| 0 <= i < fields.len() && fields[i].0 == "title"@ {
        let i = choose|i: int|
            0 <= i < fields.len() && fields[i].0 == "title"@ && forall|k: int|
                0 <= k < i ==> #[trigger] fields[k].0 != "title"@;
        match fields[i].1 {
            Json::String(t) => Some(t),
            _ => None,
        }
    } else {
        None
    }
}

fn title_field(fields: &Vec<JsonMember>) -> (r: Option<String>)
    ensures
        match set_title_field(json_members_view(fields@)) {
            Some(t) => r matches Some(x) && x@ == t,
            None => r is None,
        },
{
    let ghost fv = json_members_view(fields@);
    proof {
        lemma_members_view_index(fields@);
    }
    let mut i: usize = 0;
    while i < fields.len()
        invariant
            i <= fields@.len(),
            fv == json_members_view(fields@),
            fv.len() == fields@.len(),
            forall|k: int|
                0 <= k < fields@.len() ==> fv[k] == (
                    #[trigger] fields@[k].key@,
                    json_view(fields@[k].value),
                ),
            forall|k: int| 0 <= k < i ==> #[trigger] fv[k].0 != "title"@,
        decreases fields@.len() - i,
    {
        let m = &fields[i];
        if str_equal(m.key.as_str(), "title") {
            proof {
                assert(fv[i as int].0 == "title"@);
                let c = choose|j: int|
                    0 <= j < fv.len() && fv[j].0 == "title"@ && forall|k: int|
                        0 <= k < j ==> #[trigger] fv[k].0 != "title"@;
                assert(0 <= i < fv.len() && fv[i as int].0 == "title"@ && forall|k: int|
                        0 <= k < i ==> #[trigger] fv[k].0 != "title"@);
                if c < i {
                    assert(fv[c].0 != "title"@);
                } else if c > i {
                    assert(fv[i as int].0 != "title"@);
                }
            }
            return match &m.value {
                JsonValue::String(t) => Some(t.clone()),
                _ => None,
            };
        }
        i = i + 1;
    }
    None
}

/// What `set` plans: the path the topic has after the change (renamed when a `title`
/// field is given).
pub open spec fn set_matches(
    r: Result<String, CliErrorBody>,
    root: Topic,
    sheet: Seq<char>,
    index: usize,
    op: PatchOpDto,
) -> bool {
    match (op.node, op.fields) {
        (None, _) => r matches Err(e) && field_error_matches(
            e,
            index,
            "set"@,
            "set operation is missing node."@,
            "Add a node selector like node: path:/Q2."@,
            "node"@,
        ),
        (Some(_), None) => r matches Err(e) && field_error_matches(
            e,
            index,
            "set"@,
            "set operation is missing fields."@,
            "Add a fields object with at least one field."@,
            "fields"@,
        ),
        (Some(node), Some(fields)) => {
            let fv = json_members_view(fields@);
            if fv.len() == 0 {
                r matches Err(e) && field_error_matches(
                    e,
                    index,
                    "set"@,
                    "set operation fields must not be empty."@,
                    "Add at least one field to update."@,
                    "fields"@,
                )
            } else if first_invalid_field(fv) is Some {
                let i = first_invalid_field(fv)->0;
                r matches Err(e) && field_error_matches(
                    e,
                    index,
                    "set"@,
                    "set operation field is invalid: "@ + fv[i].0,
                    "Use supported fields with values of the documented type."@,
                    "fields."@ + fv[i].0,
                )
            } else if !resolves(root, node@) {
                r matches Err(e) && role_failure(e, root, node@, node_role_of(index, "set"@), sheet)
            } else {
                let l = resolved(root, node@);
                r matches Ok(p) && p@ == match set_title_field(fv) {
                    Some(t) => renamed_path_spec(l.1, t),
                    None => render_path_spec(l.1),
                }
            }
        },
    }
}

/// Plans a `set` operation of a patch.
pub fn plan_patch_set(root: &Topic, sheet_title: &str, index: usize, op: &PatchOpDto) -> (r: Result<
    String,
    CliErrorBody,
>)
    ensures
        match set_result(*root, *op) {
            Some(v) => r matches Ok(x) && x@ == v,
            None => r is Err,
        },
        set_matches(r, *root, sheet_title@, index, *op),
{
    let node = match &op.node {
        Some(n) => n,
        None => return Err(
            field_error(
                index,
                "set",
                "set operation is missing node.",
                "Add a node selector like node: path:/Q2.",
                "node",
            ),
        ),
    };
    let fields = match &op.fields {
        Some(f) => f,
        None => return Err(
            field_error(
                index,
                "set",
                "set operation is missing fields.",
                "Add a fields object with at least one field.",
                "fields",
            ),
        ),
    };
    proof {
        lemma_members_view_index(fields@);
    }
    if fields.len() == 0 {
        return Err(
            field_error(
                index,
                "set",
                "set operation fields must not be empty.",
                "Add at least one field to update.",
                "fields",
            ),
        );
    }
    match validate_patch_set_fields(index, "set", fields) {
        Ok(()) => {},
        Err(e) => return Err(e),
    }
    let role = node_role(index, "set");
    let found = match resolve_text(root, node.as_str(), &role, sheet_title) {
        Ok(f) => f,
        Err(e) => return Err(e),
    };
    match title_field(fields) {
        Some(t) => Ok(renamed_path(&found.path, t.as_str())),
        None => Ok(found.path.to_selector_value()),
    }
}

/// What `replace_tree` plans: every path of the replaced subtree deleted, then every
/// path of the replacement tree added under the same parent.
pub open spec fn replace_tree_matches(
    r: Result<(Vec<String>, Vec<String>), CliErrorBody>,
    root: Topic,
    sheet: Seq<char>,
    index: usize,
    op: PatchOpDto,
) -> bool {
    match (op.node, op.tree) {
        (None, _) => r matches Err(e) && field_error_matches(
            e,
            index,
            "replace_tree"@,
            "replace_tree operation is missing node."@,
            "Add a node selector like node: path:/Q2/Payment."@,
            "node"@,
        ),
        (Some(_), None) => r matches Err(e) && field_error_matches(
            e,
            index,
            "replace_tree"@,
            "replace_tree operation is missing tree."@,
            "Add a tree object with a title."@,
            "tree"@,
        ),
        (Some(node), Some(tree)) => if trim_spec(tree.title@).len() == 0 {
            r matches Err(e) && field_error_matches(
                e,
                index,
                "replace_tree"@,
                "replace_tree operation tree title must not be empty."@,
                "Add a non-empty title for the replacement tree root."@,
                "tree.title"@,
            )
        } else if !resolves(root, node@) {
            r matches Err(e) && role_failure(e, root, node@, node_role_of(index, "replace_tree"@), sheet)
        } else {
            let l = resolved(root, node@);
            if l.1.len() == 0 {
                r matches Err(e) && usage_error_matches(
                    e,
                    index,
                    "replace_tree"@,
                    "replace_tree cannot target the root topic."@,
                    "Target a non-root topic such as path:/Q2/Payment."@,
                )
            } else {
                r matches Ok((deleted, added)) && string_views(deleted@) == rendered_paths(
                    preorder(l.0, l.1),
                ) && string_views(added@) == tree_paths(tree, l.1.drop_last())
            }
        },
    }
}

/// Plans a `replace_tree` operation of a patch.
pub fn plan_patch_replace_tree(root: &Topic, sheet_title: &str, index: usize, op: &PatchOpDto) -> (r:
    Result<(Vec<String>, Vec<String>), CliErrorBody>)
    ensures
        match replace_tree_result(*root, *op) {
            Some(v) => r matches Ok(x) && string_views(x.0@) == v.0 && string_views(x.1@) == v.1,
            None => r is Err,
        },
        replace_tree_matches(r, *root, sheet_title@, index, *op),
{
    let node = match &op.node {
        Some(n) => n,
        None => return Err(
            field_error(
                index,
                "replace_tree",
                "replace_tree operation is missing node.",
                "Add a node selector like node: path:/Q2/Payment.",
                "node",
            ),
        ),
    };
    let tree = match &op.tree {
        Some(t) => t,
        None => return Err(
            field_error(
                index,
                "replace_tree",
                "replace_tree operation is missing tree.",
                "Add a tree object with a title.",
                "tree",
            ),
        ),
    };
    let title = chars_of(tree.title.as_str());
    if is_blank(title.as_slice()) {
        return Err(
            field_error(
                index,
                "replace_tree",
                "replace_tree operation tree title must not be empty.",
                "Add a non-empty title for the replacement tree root.",
                "tree.title",
            ),
        );
    }
    let role = node_role(index, "replace_tree");
    let found = match resolve_text(root, node.as_str(), &role, sheet_title) {
        Ok(f) => f,
        Err(e) => return Err(e),
    };
    if found.path.is_root() {
        return Err(
            usage_error(
                index,
                "replace_tree",
                "replace_tree cannot target the root topic.",
                "Target a non-root topic such as path:/Q2/Payment.",
            ),
        );
    }
    let parent = found.path.parent();
    let deleted = collect_deleted_paths(found.topic, &found.path);
    let added = collect_added_paths(&parent, tree);
    Ok((deleted, added))
}

/// What an `assert_exists` or `assert_not_exists` operation decides: the first passes
/// when its selector names exactly one topic, the second when it names none.
pub open spec fn assert_matches(
    r: Result<(), CliErrorBody>,
    root: Topic,
    sheet: Seq<char>,
    index: usize,
    op_name: Seq<char>,
    op: PatchOpDto,
) -> bool {
    match op.node {
        None => r matches Err(e) && field_error_matches(
            e,
            index,
            op_name,
            op_name + " operation is missing node."@,
            "Add a node selector like node: path:/Q2."@,
            "node"@,
        ),
        Some(node) => match parse_selector_spec(node@) {
            Err(pe) => r matches Err(e) && parse_error_matches(e, pe, node_role_of(index, op_name)),
            Ok(sel) => if op_name == "assert_exists"@ {
                if resolve_spec(root, sel) is Found {
                    r is Ok
                } else {
                    r matches Err(e) && resolve_failure_matches(
                        e,
                        root,
                        sel,
                        node_role_of(index, op_name),
                        sheet,
                    )
                }
            } else if resolve_spec(root, sel) is NotFound {
                r is Ok
            } else {
                r matches Err(e) && op_error_matches(
                    e,
                    index,
                    op_name,
                    ErrorCode::PatchConflict,
                    "assert_not_exists selector matched an existing topic: "@ + render_selector_spec(sel),
                    false,
                    "Remove or update the conflicting topic, or revise the patch precondition."@,
                    None,
                ) && e.selector is Some && e.selector->0@ == render_selector_spec(sel)
            },
        },
    }
}

/// Checks an `assert_exists` or `assert_not_exists` operation of a patch.
pub fn render_patch_assert_operation(
    root: &Topic,
    sheet_title: &str,
    index: usize,
    op_name: &str,
    op: &PatchOpDto,
) -> (r: Result<(), CliErrorBody>)
    ensures
        assert_passes(*root, op_name@, *op) == (r is Ok),
        assert_matches(r, *root, sheet_title@, index, op_name@, *op),
{
    let node = match &op.node {
        Some(n) => n,
        None => {
            let msg = concat(op_name, " operation is missing node.");
            return Err(
                field_error_owned(
                    index,
                    op_name,
                    msg,
                    "Add a node selector like node: path:/Q2.",
                    "node".to_owned(),
                ),
            );
        },
    };
    let role = node_role(index, op_name);
    let selector = match parse_for_role(node.as_str(), &role) {
        Ok(s) => s,
        Err(e) => return Err(e),
    };
    if str_equal(op_name, "assert_exists") {
        return match resolve_for_role(root, &selector, &role, sheet_title) {
            Ok(_) => Ok(()),
            Err(e) => Err(e),
        };
    }
    match crate::app::resolve::resolve_topic(root, &selector) {
        crate::app::resolve::ResolveOne::NotFound => Ok(()),
        _ => {
            let rendered = selector.render();
            let msg = concat(
                "assert_not_exists selector matched an existing topic: ",
                rendered.as_str(),
            );
            let e = op_error(
                index,
                op_name,
                ErrorCode::PatchConflict,
                msg,
                false,
                "Remove or update the conflicting topic, or revise the patch precondition.",
                None,
            );
            Err(e.with_selector(rendered))
        },
    }
}

/// How many leading segments of `segs` already name topics, following from `t` the
/// first child with each title.
pub open spec fn existing_prefix_len(t: Topic, segs: Seq<Seq<char>>) -> nat
    decreases segs.len(),
{
    if segs.len() == 0 {
        0
    } else {
        match crate::app::resolve::first_child_titled(t, segs[0]) {
            Some(i) if 0 <= i < t.children@.len() => 1 + existing_prefix_len(
                t.children@[i],
                segs.drop_first(),
            ),
            _ => 0,
        }
    }
}

/// The paths `ensure_path` creates: each prefix of the target path beyond the part that
/// already exists, shortest first.
pub open spec fn missing_path_additions(root: Topic, segs: Seq<Seq<char>>) -> Seq<Seq<char>> {
    let k = existing_prefix_len(root, segs);
    Seq::new((segs.len() - k) as nat, |j: int| render_path_spec(segs.take(k + j + 1)))
}

proof fn lemma_existing_prefix_bound(t: Topic, segs: Seq<Seq<char>>)
    ensures
        existing_prefix_len(t, segs) <= segs.len(),
    decreases segs.len(),
{
    if segs.len() > 0 {
        match crate::app::resolve::first_child_titled(t, segs[0]) {
            Some(i) => if 0 <= i < t.children@.len() {
                lemma_existing_prefix_bound(t.children@[i], segs.drop_first());
            },
            None => {},
        }
    }
}

/// The paths that `ensure_path` adds for the target path `target_path`.
pub fn collect_missing_path_additions(root: &Topic, target_path: &TopicPath) -> (r: Vec<String>)
    ensures
        string_views(r@) == missing_path_additions(*root, target_path@),
{
    let n = target_path.len();
    let ghost segs = target_path@;
    let mut current: &Topic = root;
    let mut i: usize = 0;
    let mut done = false;
    proof {
        assert(segs.skip(0) =~= segs);
    }
    while i < n && !done
        invariant
            n == segs.len(),
            segs == target_path@,
            i <= n,
            existing_prefix_len(*root, segs) == i + existing_prefix_len(*current, segs.skip(i as int)),
            done ==> existing_prefix_len(*current, segs.skip(i as int)) == 0,
        decreases n - i, if done { 0int } else { 1int },
    {
        let seg = target_path.segment(i);
        proof {
            assert(segs.skip(i as int)[0] == segs[i as int]);
            assert(segs.skip(i as int).drop_first() =~= segs.skip(i + 1));
        }
        match crate::app::resolve::first_child_index(current, seg.as_str()) {
            Some(k) => {
                current = &current.children[k];
                i = i + 1;
            },
            None => {
                done = true;
            },
        }
    }
    proof {
        if !done {
            assert(segs.skip(i as int).len() == 0);
        }
        lemma_existing_prefix_bound(*root, segs);
    }
    let ghost k = i as int;
    assert(existing_prefix_len(*root, segs) == k);
    let mut out: Vec<String> = Vec::new();
    let mut j: usize = i;
    let mut partial = TopicPath::root();
    let mut m: usize = 0;
    while m < i
        invariant
            m <= i <= n,
            n == segs.len(),
            segs == target_path@,
            partial@ == segs.take(m as int),
        decreases i - m,
    {
        partial = partial.join(target_path.segment(m).clone());
        proof {
            assert(partial@ =~= segs.take(m + 1));
        }
        m = m + 1;
    }
    while j < n
        invariant
            k <= j <= n,
            n == segs.len(),
            segs == target_path@,
            partial@ == segs.take(j as int),
            k == existing_prefix_len(*root, segs),
            string_views(out@) == Seq::new((j - k) as nat, |x: int| render_path_spec(segs.take(k + x + 1))),
        decreases n - j,
    {
        partial = partial.join(target_path.segment(j).clone());
        proof {
            assert(partial@ =~= segs.take(j + 1));
        }
        let ghost before = string_views(out@);
        let rendered = partial.to_selector_value();
        out.push(rendered);
        proof {
            assert(string_views(out@) =~= before.push(rendered@));
            assert(string_views(out@) =~= Seq::new((j + 1 - k) as nat, |x: int| render_path_spec(segs.take(k + x + 1))));
        }
        j = j + 1;
    }
    out
}

/// What `ensure_path` plans: the missing topics along an absolute path.
pub open spec fn ensure_path_matches(
    r: Result<Vec<String>, CliErrorBody>,
    root: Topic,
    index: usize,
    op: PatchOpDto,
) -> bool {
    match op.path {
        None => r matches Err(e) && field_error_matches(
            e,
            index,
            "ensure_path"@,
            "ensure_path operation is missing path."@,
            "Add a canonical path like path: /Q2/Payment."@,
            "path"@,
        ),
        Some(p) => match crate::domain::path::parse_path_spec(p@) {
            Err(pe) => r matches Err(e) && field_error_matches(
                e,
                index,
                "ensure_path"@,
                "ensure_path path is invalid: "@ + crate::domain::path::path_error_message(pe),
                "Use an absolute canonical path such as /Q2/Payment, without the path: prefix."@,
                "path"@,
            ),
            Ok(segs) => r matches Ok(v) && string_views(v@) == missing_path_additions(root, segs),
        },
    }
}

/// Plans an `ensure_path` operation of a patch.
pub fn plan_patch_ensure_path(root: &Topic, index: usize, op: &PatchOpDto) -> (r: Result<
    Vec<String>,
    CliErrorBody,
>)
    ensures
        match ensure_path_result(*root, *op) {
            Some(v) => r matches Ok(x) && string_views(x@) == v,
            None => r is Err,
        },
        ensure_path_matches(r, *root, index, *op),
{
    let path = match &op.path {
        Some(p) => p,
        None => return Err(
            field_error(
                index,
                "ensure_path",
                "ensure_path operation is missing path.",
                "Add a canonical path like path: /Q2/Payment.",
                "path",
            ),
        ),
    };
    match TopicPath::parse_selector_value(path.as_str()) {
        Ok(target) => Ok(collect_missing_path_additions(root, &target)),
        Err(pe) => {
            let msg = concat("ensure_path path is invalid: ", pe.message().as_str());
            Err(
                field_error_owned(
                    index,
                    "ensure_path",
                    msg,
                    "Use an absolute canonical path such as /Q2/Payment, without the path: prefix.",
                    "path".to_owned(),
                ),
            )
        },
    }
}

/// Whether `a` comes before or equals `b`, comparing characters by code point.
pub open spec fn text_le(a: Seq<char>, b: Seq<char>) -> bool
    decreases a.len(),
{
    if a.len() == 0 {
        true
    } else if b.len() == 0 {
        false
    } else if a[0] != b[0] {
        (a[0] as int) < (b[0] as int)
    } else {
        text_le(a.drop_first(), b.drop_first())
    }
}

/// Whether `a` comes before `b` at their first difference: they agree on the first `i`
/// characters and the next character of `a` is the smaller.
pub open spec fn differs_first_below(a: Seq<char>, b: Seq<char>, i: int) -> bool {
    0 <= i < a.len() && i < b.len() && a.take(i) == b.take(i) && (a[i] as int) < (b[i] as int)
}

/// The title order is the lexicographic order of text by code point, as `String`
/// compares: `a` comes first exactly when it is a prefix of `b` or is smaller at their
/// first difference. So a prefix comes before every extension of it, any two texts are
/// ordered one way or the other, and two texts ordered both ways are equal.
pub proof fn law_text_le_is_lexicographic(a: Seq<char>, b: Seq<char>, s: Seq<char>)
    ensures
        text_le(a, b) <==> (starts_with_spec(b, a) || exists|i: int| differs_first_below(a, b, i)),
        text_le(a, a + s),
        text_le(a, b) || text_le(b, a),
        text_le(a, b) && text_le(b, a) ==> a == b,
    decreases a.len(),
{
    lemma_text_le_prefix(a, s);
    lemma_text_le_total(a, b);
    if a.len() == 0 {
        assert(b.take(0) =~= a);
    } else if b.len() == 0 {
        assert(!starts_with_spec(b, a));
        assert(!exists|i: int| differs_first_below(a, b, i));
    } else if a[0] != b[0] {
        if starts_with_spec(b, a) {
            assert(b.take(a.len() as int)[0] == b[0]);
        }
        if (a[0] as int) < (b[0] as int) {
            assert(a.take(0) =~= b.take(0));
            assert(differs_first_below(a, b, 0));
        } else {
            assert forall|i: int| !differs_first_below(a, b, i) by {
                if differs_first_below(a, b, i) && i > 0 {
                    assert(a.take(i)[0] == b.take(i)[0]);
                }
            }
        }
    } else {
        let a1 = a.drop_first();
        let b1 = b.drop_first();
        law_text_le_is_lexicographic(a1, b1, s);
        if starts_with_spec(b1, a1) {
            assert(b.take(a.len() as int) =~= seq![b[0]] + b1.take(a1.len() as int));
            assert(a =~= seq![a[0]] + a1);
        }
        if starts_with_spec(b, a) {
            assert(b1.take(a1.len() as int) =~= b.take(a.len() as int).drop_first());
            assert(a1 =~= a.drop_first());
        }
        if exists|i: int| differs_first_below(a1, b1, i) {
            let i = choose|i: int| differs_first_below(a1, b1, i);
            assert(a.take(i + 1) =~= seq![a[0]] + a1.take(i));
            assert(b.take(i + 1) =~= seq![b[0]] + b1.take(i));
            assert(differs_first_below(a, b, i + 1));
        }
        if exists|i: int| differs_first_below(a, b, i) {
            let i = choose|i: int| differs_first_below(a, b, i);
            assert(i > 0);
            assert(a1.take(i - 1) =~= a.take(i).drop_first());
            assert(b1.take(i - 1) =~= b.take(i).drop_first());
            assert(differs_first_below(a1, b1, i - 1));
        }
        if text_le(a, b) && text_le(b, a) {
            assert(a =~= seq![a[0]] + a1);
            assert(b =~= seq![b[0]] + b1);
        }
    }
}

proof fn lemma_text_le_prefix(a: Seq<char>, s: Seq<char>)
    ensures
        text_le(a, a + s),
    decreases a.len(),
{
    if a.len() > 0 {
        assert((a + s)[0] == a[0]);
        assert((a + s).drop_first() =~= a.drop_first() + s);
        lemma_text_le_prefix(a.drop_first(), s);
    }
}

proof fn lemma_text_le_total(a: Seq<char>, b: Seq<char>)
    ensures
        text_le(a, b) || text_le(b, a),
        text_le(a, b) && text_le(b, a) ==> a == b,
    decreases a.len(),
{
    if a.len() > 0 && b.len() > 0 && a[0] == b[0] {
        lemma_text_le_total(a.drop_first(), b.drop_first());
        if text_le(a, b) && text_le(b, a) {
            assert(a =~= seq![a[0]] + a.drop_first());
            assert(b =~= seq![b[0]] + b.drop_first());
        }
    } else if a.len() == 0 && b.len() == 0 {
        assert(a =~= b);
    }
}

fn text_le_exec(a: &[char], b: &[char]) -> (r: bool)
    ensures
        r == text_le(a@, b@),
{
    let mut i: usize = 0;
    proof {
        assert(a@.skip(0) =~= a@);
        assert(b@.skip(0) =~= b@);
    }
    while i < a.len() && i < b.len()
        invariant
            i <= a@.len(),
            i <= b@.len(),
            text_le(a@, b@) == text_le(a@.skip(i as int), b@.skip(i as int)),
        decreases a@.len() - i,
    {
        if a[i] != b[i] {
            proof {
                assert(a@.skip(i as int)[0] == a@[i as int]);
                assert(b@.skip(i as int)[0] == b@[i as int]);
            }
            return a[i] < b[i];
        }
        proof {
            assert(a@.skip(i as int)[0] == a@[i as int]);
            assert(b@.skip(i as int)[0] == b@[i as int]);
            assert(a@.skip(i as int).drop_first() =~= a@.skip(i + 1));
            assert(b@.skip(i as int).drop_first() =~= b@.skip(i + 1));
        }
        i = i + 1;
    }
    i == a.len()
}

/// Whether the titles are already in the requested order: ascending, or descending
/// when `desc` holds. Sorting them would then leave them as they are.
pub open spec fn titles_sorted(titles: Seq<Seq<char>>, desc: bool) -> bool {
    forall|i: int|
        0 <= i < titles.len() - 1 ==> if desc {
            text_le(#[trigger] titles[i + 1], titles[i])
        } else {
            text_le(#[trigger] titles[i], titles[i + 1])
        }
}

/// The titles of a topic's children, in order.
pub open spec fn child_titles(t: Topic) -> Seq<Seq<char>> {
    t.children@.map_values(|c: Topic| c.title@)
}

fn children_sorted(topic: &Topic, desc: bool) -> (r: bool)
    ensures
        r == titles_sorted(child_titles(*topic), desc),
{
    let ghost titles = child_titles(*topic);
    let n = topic.children.len();
    if n < 2 {
        return true;
    }
    let mut i: usize = 0;
    while i + 1 < n
        invariant
            n == topic.children@.len(),
            titles == child_titles(*topic),
            i + 1 <= n,
            forall|k: int|
                0 <= k < i ==> if desc {
                    text_le(#[trigger] titles[k + 1], titles[k])
                } else {
                    text_le(#[trigger] titles[k], titles[k + 1])
                },
        decreases n - i,
    {
        let a = chars_of(topic.children[i].title.as_str());
        let b = chars_of(topic.children[i + 1].title.as_str());
        proof {
            assert(titles[i as int] == a@);
            assert(titles[i + 1] == b@);
        }
        let ok = if desc {
            text_le_exec(b.as_slice(), a.as_slice())
        } else {
            text_le_exec(a.as_slice(), b.as_slice())
        };
        if !ok {
            proof {
                assert(!(if desc {
                    text_le(titles[i + 1], titles[i as int])
                } else {
                    text_le(titles[i as int], titles[i + 1])
                }));
            }
            return false;
        }
        i = i + 1;
    }
    true
}

/// What `sort_children` plans: the topic is updated unless its children are already in
/// the requested title order.
pub open spec fn sort_children_matches(
    r: Result<Option<String>, CliErrorBody>,
    root: Topic,
    sheet: Seq<char>,
    index: usize,
    op: PatchOpDto,
) -> bool {
    let by = match op.by {
        Some(b) => b@,
        None => "title"@,
    };
    let order = match op.order {
        Some(o) => o@,
        None => "asc"@,
    };
    if by != "title"@ {
        r matches Err(e) && field_error_matches(
            e,
            index,
            "sort_children"@,
            "sort_children by is not supported: "@ + by,
            "Use by: title."@,
            "by"@,
        )
    } else if order != "asc"@ && order != "desc"@ {
        r matches Err(e) && field_error_matches(
            e,
            index,
            "sort_children"@,
            "sort_children order is not supported: "@ + order,
            "Use order: asc or order: desc."@,
            "order"@,
        )
    } else if op.recursive == Some(true) {
        r matches Err(e) && field_error_matches(
            e,
            index,
            "sort_children"@,
            "sort_children recursive is not implemented in this slice."@,
            "Omit recursive or set recursive: false."@,
            "recursive"@,
        )
    } else {
        match op.node {
            None => r matches Err(e) && field_error_matches(
                e,
                index,
                "sort_children"@,
                "sort_children operation is missing node."@,
                "Add a node selector like node: path:/Q2."@,
                "node"@,
            ),
            Some(node) => if !resolves(root, node@) {
                r matches Err(e) && role_failure(
                    e,
                    root,
                    node@,
                    node_role_of(index, "sort_children"@),
                    sheet,
                )
            } else {
                let l = resolved(root, node@);
                if titles_sorted(child_titles(l.0), order == "desc"@) {
                    r matches Ok(None)
                } else {
                    r matches Ok(Some(p)) && p@ == render_path_spec(l.1)
                }
            },
        }
    }
}

/// Plans a `sort_children` operation of a patch.
pub fn plan_patch_sort_children(root: &Topic, sheet_title: &str, index: usize, op: &PatchOpDto) -> (r:
    Result<Option<String>, CliErrorBody>)
    ensures
        match sort_children_result(*root, *op) {
            Some(v) => r matches Ok(x) && opt_str_of(x) == v,
            None => r is Err,
        },
        sort_children_matches(r, *root, sheet_title@, index, *op),
{
    let by: &str = match &op.by {
        Some(b) => b.as_str(),
        None => "title",
    };
    if !str_equal(by, "title") {
        let msg = concat("sort_children by is not supported: ", by);
        return Err(
            field_error_owned(index, "sort_children", msg, "Use by: title.", "by".to_owned()),
        );
    }
    let order: &str = match &op.order {
        Some(o) => o.as_str(),
        None => "asc",
    };
    let desc = str_equal(order, "desc");
    if !str_equal(order, "asc") && !desc {
        let msg = concat("sort_children order is not supported: ", order);
        return Err(
            field_error_owned(
                index,
                "sort_children",
                msg,
                "Use order: asc or order: desc.",
                "order".to_owned(),
            ),
        );
    }
    let recursive = match op.recursive {
        Some(b) => b,
        None => false,
    };
    if recursive {
        return Err(
            field_error(
                index,
                "sort_children",
                "sort_children recursive is not implemented in this slice.",
                "Omit recursive or set recursive: false.",
                "recursive",
            ),
        );
    }
    let node = match &op.node {
        Some(n) => n,
        None => return Err(
            field_error(
                index,
                "sort_children",
                "sort_children operation is missing node.",
                "Add a node selector like node: path:/Q2.",
                "node",
            ),
        ),
    };
    let role = node_role(index, "sort_children");
    let found = match resolve_text(root, node.as_str(), &role, sheet_title) {
        Ok(f) => f,
        Err(e) => return Err(e),
    };
    if children_sorted(found.topic, desc) {
        Ok(None)
    } else {
        Ok(Some(found.path.to_selector_value()))
    }
}

/// Whether some of `labels` is not yet among the topic's labels.
pub open spec fn labels_missing(t: Topic, labels: Seq<Seq<char>>) -> bool {
    exists|i: int| 0 <= i < labels.len() && !string_views(t.labels@).contains(#[trigger] labels[i])
}

/// The topics that adding `labels` changes.
pub open spec fn needs_labels_pred(labels: Seq<Seq<char>>) -> spec_fn(Located) -> bool {
    |l: Located| labels_missing(l.0, labels)
}

/// The paths `set_tree_metadata` updates below and at the topic `t` at `path`: the
/// topic itself, or with `recursive` every topic of its subtree in pre-order, where some
/// label is missing.
pub open spec fn label_updates(
    t: Topic,
    path: Seq<Seq<char>>,
    labels: Seq<Seq<char>>,
    recursive: bool,
) -> Seq<Seq<char>> {
    if recursive {
        rendered_paths(crate::app::resolve::select(preorder(t, path), needs_labels_pred(labels)))
    } else if labels_missing(t, labels) {
        seq![render_path_spec(path)]
    } else {
        seq![]
    }
}

fn has_label(topic: &Topic, label: &String) -> (r: bool)
    ensures
        r == string_views(topic.labels@).contains(label@),
{
    let mut i: usize = 0;
    while i < topic.labels.len()
        invariant
            i <= topic.labels@.len(),
            forall|k: int| 0 <= k < i ==> topic.labels@[k]@ != label@,
        decreases topic.labels@.len() - i,
    {
        if str_equal(topic.labels[i].as_str(), label.as_str()) {
            proof {
                assert(string_views(topic.labels@)[i as int] == label@);
            }
            return true;
        }
        i = i + 1;
    }
    proof {
        if string_views(topic.labels@).contains(label@) {
            let k = choose|k: int| 0 <= k < string_views(topic.labels@).len() && string_views(topic.labels@)[k] == label@;
            assert(topic.labels@[k]@ == label@);
        }
    }
    false
}

fn misses_labels(topic: &Topic, labels: &Vec<String>) -> (r: bool)
    ensures
        r == labels_missing(*topic, string_views(labels@)),
{
    let ghost lv = string_views(labels@);
    let mut i: usize = 0;
    while i < labels.len()
        invariant
            i <= labels@.len(),
            lv == string_views(labels@),
            forall|k: int| 0 <= k < i ==> string_views(topic.labels@).contains(#[trigger] lv[k]),
        decreases labels@.len() - i,
    {
        if !has_label(topic, &labels[i]) {
            proof {
                assert(lv[i as int] == labels@[i as int]@);
            }
            return true;
        }
        i = i + 1;
    }
    false
}

fn push_path(out: &mut Vec<String>, path: &TopicPath)
    ensures
        string_views(final(out)@) == string_views(old(out)@).push(render_path_spec(path@)),
{
    let ghost before = string_views(out@);
    let s = path.to_selector_value();
    out.push(s);
    proof {
        assert(string_views(out@) =~= before.push(s@));
    }
}

fn push_label_updates(out: &mut Vec<String>, topic: &Topic, path: &TopicPath, labels: &Vec<String>)
    ensures
        string_views(final(out)@) == string_views(old(out)@) + rendered_paths(
            crate::app::resolve::select(preorder(*topic, path@), needs_labels_pred(string_views(labels@))),
        ),
    decreases topic,
{
    let ghost p = needs_labels_pred(string_views(labels@));
    let ghost start = string_views(out@);
    let here = misses_labels(topic, labels);
    if here {
        push_path(out, path);
    }
    proof {
        let one = seq![(*topic, path@)];
        assert(one.drop_last() =~= Seq::<Located>::empty());
        assert(one.last() == (*topic, path@));
        assert(p((*topic, path@)) == labels_missing(*topic, string_views(labels@)));
        assert(crate::app::resolve::select(one.drop_last(), p) =~= Seq::<Located>::empty());
        if here {
            assert(crate::app::resolve::select(one, p) =~= seq![(*topic, path@)]);
            assert(rendered_paths(crate::app::resolve::select(one, p)) =~= seq![render_path_spec(path@)]);
        } else {
            assert(crate::app::resolve::select(one, p) =~= Seq::<Located>::empty());
            assert(rendered_paths(crate::app::resolve::select(one, p)) =~= Seq::<Seq<char>>::empty());
        }
        assert(string_views(out@) =~= start + rendered_paths(crate::app::resolve::select(one, p)));
    }
    push_forest_label_updates(out, topic, path, labels);
    proof {
        let one = seq![(*topic, path@)];
        let rest = forest_preorder(topic.children@, path@);
        crate::app::resolve::lemma_select_concat(one, rest, p);
        assert(preorder(*topic, path@) == one + rest);
        assert(rendered_paths(crate::app::resolve::select(one, p) + crate::app::resolve::select(rest, p))
            =~= rendered_paths(crate::app::resolve::select(one, p)) + rendered_paths(
            crate::app::resolve::select(rest, p),
        ));
    }
}

fn push_forest_label_updates(
    out: &mut Vec<String>,
    topic: &Topic,
    path: &TopicPath,
    labels: &Vec<String>,
)
    ensures
        string_views(final(out)@) == string_views(old(out)@) + rendered_paths(
            crate::app::resolve::select(
                forest_preorder(topic.children@, path@),
                needs_labels_pred(string_views(labels@)),
            ),
        ),
    decreases topic, 0nat,
{
    let ghost p = needs_labels_pred(string_views(labels@));
    let ghost start = string_views(out@);
    let mut k: usize = 0;
    proof {
        assert(topic.children@.take(0) =~= Seq::<Topic>::empty());
        assert(crate::app::resolve::select(forest_preorder(Seq::<Topic>::empty(), path@), p) =~= Seq::<Located>::empty());
        assert(start =~= start + rendered_paths(Seq::<Located>::empty()));
    }
    while k < topic.children.len()
        invariant
            k <= topic.children@.len(),
            p == needs_labels_pred(string_views(labels@)),
            string_views(out@) == start + rendered_paths(
                crate::app::resolve::select(forest_preorder(topic.children@.take(k as int), path@), p),
            ),
        decreases topic.children@.len() - k,
    {
        let child = &topic.children[k];
        let child_path = path.join(child.title.clone());
        push_label_updates(out, child, &child_path, labels);
        proof {
            crate::app::resolve::lemma_forest_step(topic.children@, path@, k as int);
            let a = forest_preorder(topic.children@.take(k as int), path@);
            let b = preorder(*child, path@.push(child.title@));
            crate::app::resolve::lemma_select_concat(a, b, p);
            assert(rendered_paths(crate::app::resolve::select(a, p) + crate::app::resolve::select(b, p))
                =~= rendered_paths(crate::app::resolve::select(a, p)) + rendered_paths(
                crate::app::resolve::select(b, p),
            ));
        }
        k = k + 1;
    }
    proof {
        assert(topic.children@.take(k as int) =~= topic.children@);
    }
}

/// The paths `set_tree_metadata` updates for the topic at `path`.
pub fn collect_set_tree_metadata_updates(
    topic: &Topic,
    path: &TopicPath,
    add_labels: &Vec<String>,
    recursive: bool,
) -> (r: Vec<String>)
    ensures
        string_views(r@) == label_updates(*topic, path@, string_views(add_labels@), recursive),
{
    let mut out: Vec<String> = Vec::new();
    proof {
        assert(string_views(out@) =~= Seq::<Seq<char>>::empty());
    }
    if recursive {
        push_label_updates(&mut out, topic, path, add_labels);
        proof {
            assert(string_views(out@) =~= label_updates(*topic, path@, string_views(add_labels@), recursive));
        }
    } else if misses_labels(topic, add_labels) {
        push_path(&mut out, path);
        proof {
            assert(string_views(out@) =~= label_updates(*topic, path@, string_views(add_labels@), recursive));
        }
    }
    out
}

/// Whether a label list is empty or has a blank label.
pub open spec fn labels_unusable(labels: Seq<Seq<char>>) -> bool {
    labels.len() == 0 || exists|i: int| 0 <= i < labels.len() && trim_spec(#[trigger] labels[i]).len() == 0
}

fn any_blank(labels: &Vec<String>) -> (r: bool)
    ensures
        r == labels_unusable(string_views(labels@)),
{
    let ghost lv = string_views(labels@);
    if labels.len() == 0 {
        return true;
    }
    let mut i: usize = 0;
    while i < labels.len()
        invariant
            i <= labels@.len(),
            lv == string_views(labels@),
            lv.len() == labels@.len(),
            forall|k: int| 0 <= k < i ==> trim_spec(#[trigger] lv[k]).len() != 0,
        decreases labels@.len() - i,
    {
        let cs = chars_of(labels[i].as_str());
        if is_blank(cs.as_slice()) {
            proof {
                assert(lv[i as int] == labels@[i as int]@);
            }
            return true;
        }
        proof {
            assert(lv[i as int] == labels@[i as int]@);
        }
        i = i + 1;
    }
    false
}

/// What `set_tree_metadata` plans: the paths whose labels change when the labels are
/// added.
pub open spec fn set_tree_metadata_matches(
    r: Result<Vec<String>, CliErrorBody>,
    root: Topic,
    sheet: Seq<char>,
    index: usize,
    op: PatchOpDto,
) -> bool {
    match (op.node, op.add_labels) {
        (None, _) => r matches Err(e) && field_error_matches(
            e,
            index,
            "set_tree_metadata"@,
            "set_tree_metadata operation is missing node."@,
            "Add a node selector like node: path:/Q2."@,
            "node"@,
        ),
        (Some(_), None) => r matches Err(e) && field_error_matches(
            e,
            index,
            "set_tree_metadata"@,
            "set_tree_metadata operation is missing add_labels."@,
            "Add add_labels with one or more label values."@,
            "add_labels"@,
        ),
        (Some(node), Some(labels)) => if labels_unusable(string_views(labels@)) {
            r matches Err(e) && field_error_matches(
                e,
                index,
                "set_tree_metadata"@,
                "set_tree_metadata add_labels must contain non-empty labels."@,
                "Remove empty labels and retry."@,
                "add_labels"@,
            )
        } else if !resolves(root, node@) {
            r matches Err(e) && role_failure(
                e,
                root,
                node@,
                node_role_of(index, "set_tree_metadata"@),
                sheet,
            )
        } else {
            let l = resolved(root, node@);
            r matches Ok(v) && string_views(v@) == label_updates(
                l.0,
                l.1,
                string_views(labels@),
                op.recursive == Some(true),
            )
        },
    }
}

/// Plans a `set_tree_metadata` operation of a patch.
pub fn plan_patch_set_tree_metadata(
    root: &Topic,
    sheet_title: &str,
    index: usize,
    op: &PatchOpDto,
) -> (r: Result<Vec<String>, CliErrorBody>)
    ensures
        match set_tree_metadata_result(*root, *op) {
            Some(v) => r matches Ok(x) && string_views(x@) == v,
            None => r is Err,
        },
        set_tree_metadata_matches(r, *root, sheet_title@, index, *op),
{
    let node = match &op.node {
        Some(n) => n,
        None => return Err(
            field_error(
                index,
                "set_tree_metadata",
                "set_tree_metadata operation is missing node.",
                "Add a node selector like node: path:/Q2.",
                "node",
            ),
        ),
    };
    let labels = match &op.add_labels {
        Some(l) => l,
        None => return Err(
            field_error(
                index,
                "set_tree_metadata",
                "set_tree_metadata operation is missing add_labels.",
                "Add add_labels with one or more label values.",
                "add_labels",
            ),
        ),
    };
    if any_blank(labels) {
        return Err(
            field_error(
                index,
                "set_tree_metadata",
                "set_tree_metadata add_labels must contain non-empty labels.",
                "Remove empty labels and retry.",
                "add_labels",
            ),
        );
    }
    let role = node_role(index, "set_tree_metadata");
    let found = match resolve_text(root, node.as_str(), &role, sheet_title) {
        Ok(f) => f,
        Err(e) => return Err(e),
    };
    let recursive = match op.recursive {
        Some(b) => b,
        None => false,
    };
    Ok(collect_set_tree_metadata_updates(found.topic, &found.path, labels, recursive))
}

/// The path of the parent of the topic at `path`; the root is its own parent.
pub open spec fn parent_segs(path: Seq<Seq<char>>) -> Seq<Seq<char>> {
    if path.len() == 0 {
        path
    } else {
        path.drop_last()
    }
}

/// The moves that deleting the topic at `path` while keeping its children makes: each
/// child moves from under the topic to under the topic's parent.
pub open spec fn promoted_moves(t: Topic, path: Seq<Seq<char>>) -> Seq<(Seq<char>, Seq<char>)> {
    Seq::new(
        t.children@.len(),
        |i: int|
            (
                render_path_spec(path.push(t.children@[i].title@)),
                render_path_spec(parent_segs(path).push(t.children@[i].title@)),
            ),
    )
}

/// A list of path pairs by their views.
pub open spec fn pair_views(v: Seq<(String, String)>) -> Seq<(Seq<char>, Seq<char>)> {
    v.map_values(|p: (String, String)| (p.0@, p.1@))
}

/// The moves of the children of `topic`, at `path`, promoted to its parent.
pub fn collect_promoted_child_moves(topic: &Topic, path: &TopicPath) -> (r: Vec<(String, String)>)
    ensures
        pair_views(r@) == promoted_moves(*topic, path@),
{
    let parent = path.parent();
    let mut out: Vec<(String, String)> = Vec::new();
    let mut i: usize = 0;
    while i < topic.children.len()
        invariant
            i <= topic.children@.len(),
            parent@ == parent_segs(path@),
            pair_views(out@) == promoted_moves(*topic, path@).take(i as int),
        decreases topic.children@.len() - i,
    {
        let title = &topic.children[i].title;
        let from = path.join(title.clone()).to_selector_value();
        let to = parent.join(title.clone()).to_selector_value();
        let ghost before = out@;
        out.push((from, to));
        proof {
            assert(out@ == before.push((from, to)));
            assert(pair_views(out@) =~= pair_views(before).push((from@, to@)));
            assert(from@ == promoted_moves(*topic, path@)[i as int].0);
            assert(to@ == promoted_moves(*topic, path@)[i as int].1);
            assert(pair_views(out@) =~= promoted_moves(*topic, path@).take(i + 1));
        }
        i = i + 1;
    }
    proof {
        assert(promoted_moves(*topic, path@).take(i as int) =~= promoted_moves(*topic, path@));
    }
    out
}

/// What a `delete` plans.
pub struct PatchDeletePlan {
    pub deleted_paths: Vec<String>,
    pub moved_paths: Vec<(String, String)>,
}

/// The wording of a role's selector error for deleting, moving or copying the root.
pub open spec fn root_error_matches(
    e: CliErrorBody,
    index: usize,
    op: Seq<char>,
    message: Seq<char>,
    sel: SelectorSpec,
) -> bool {
    &&& op_error_matches(
        e,
        index,
        op,
        ErrorCode::RootOperationNotAllowed,
        message,
        true,
        "Use a non-root node selector."@,
        None,
    )
    &&& e.selector is Some
    &&& e.selector->0@ == render_selector_spec(sel)
}

fn root_error(index: usize, op: &str, message: &str, selector: &Selector) -> (r: CliErrorBody)
    ensures
        root_error_matches(r, index, op@, message@, selector@),
{
    let e = op_error(
        index,
        op,
        ErrorCode::RootOperationNotAllowed,
        message.to_owned(),
        true,
        "Use a non-root node selector.",
        None,
    );
    e.with_selector(selector.render())
}

/// What `delete` plans: the topic and its subtree are deleted; with `children_only`
/// only its descendants; with `promote_children` the topic alone, its children moving
/// up to its parent.
pub open spec fn delete_matches(
    r: Result<PatchDeletePlan, CliErrorBody>,
    root: Topic,
    sheet: Seq<char>,
    index: usize,
    op: PatchOpDto,
) -> bool {
    let children_only = op.children_only == Some(true);
    let promote = op.promote_children == Some(true);
    if children_only && promote {
        r matches Err(e) && field_error_matches(
            e,
            index,
            "delete"@,
            "delete cannot use children_only and promote_children together."@,
            "Choose one delete mode and retry."@,
            "children_only"@,
        )
    } else {
        match op.node {
            None => r matches Err(e) && field_error_matches(
                e,
                index,
                "delete"@,
                "delete operation is missing node."@,
                "Add a node selector like node: path:/Q2/Payment."@,
                "node"@,
            ),
            Some(node) => if !resolves(root, node@) {
                r matches Err(e) && role_failure(e, root, node@, node_role_of(index, "delete"@), sheet)
            } else {
                let l = resolved(root, node@);
                if l.1.len() == 0 {
                    r matches Err(e) && root_error_matches(
                        e,
                        index,
                        "delete"@,
                        "Deleting the root topic is not allowed."@,
                        parse_selector_spec(node@)->Ok_0,
                    )
                } else if children_only {
                    r matches Ok(p) && string_views(p.deleted_paths@) == rendered_paths(
                        forest_preorder(l.0.children@, l.1),
                    ) && p.moved_paths@.len() == 0
                } else if promote {
                    r matches Ok(p) && string_views(p.deleted_paths@) == seq![render_path_spec(l.1)]
                        && pair_views(p.moved_paths@) == promoted_moves(l.0, l.1)
                } else {
                    r matches Ok(p) && string_views(p.deleted_paths@) == rendered_paths(
                        preorder(l.0, l.1),
                    ) && p.moved_paths@.len() == 0
                }
            },
        }
    }
}

/// Plans a `delete` operation of a patch.
pub fn plan_patch_delete(root: &Topic, sheet_title: &str, index: usize, op: &PatchOpDto) -> (r: Result<
    PatchDeletePlan,
    CliErrorBody,
>)
    ensures
        match delete_result(*root, *op) {
            Some(v) => r matches Ok(x) && string_views(x.deleted_paths@) == v.0 && pair_views(
                x.moved_paths@,
            ) == v.1,
            None => r is Err,
        },
        delete_matches(r, *root, sheet_title@, index, *op),
{
    let children_only = match op.children_only {
        Some(b) => b,
        None => false,
    };
    let promote = match op.promote_children {
        Some(b) => b,
        None => false,
    };
    if children_only && promote {
        return Err(
            field_error(
                index,
                "delete",
                "delete cannot use children_only and promote_children together.",
                "Choose one delete mode and retry.",
                "children_only",
            ),
        );
    }
    let node = match &op.node {
        Some(n) => n,
        None => return Err(
            field_error(
                index,
                "delete",
                "delete operation is missing node.",
                "Add a node selector like node: path:/Q2/Payment.",
                "node",
            ),
        ),
    };
    let role = node_role(index, "delete");
    let selector = match parse_for_role(node.as_str(), &role) {
        Ok(s) => s,
        Err(e) => return Err(e),
    };
    let found = match resolve_for_role(root, &selector, &role, sheet_title) {
        Ok(f) => f,
        Err(e) => return Err(e),
    };
    if found.path.is_root() {
        return Err(root_error(index, "delete", "Deleting the root topic is not allowed.", &selector));
    }
    if children_only {
        Ok(
            PatchDeletePlan {
                deleted_paths: collect_descendant_paths(found.topic, &found.path),
                moved_paths: Vec::new(),
            },
        )
    } else if promote {
        let mut deleted: Vec<String> = Vec::new();
        push_path(&mut deleted, &found.path);
        proof {
            assert(string_views(deleted@) =~= seq![render_path_spec(found.path@)]);
        }
        Ok(
            PatchDeletePlan {
                deleted_paths: deleted,
                moved_paths: collect_promoted_child_moves(found.topic, &found.path),
            },
        )
    } else {
        Ok(
            PatchDeletePlan {
                deleted_paths: collect_deleted_paths(found.topic, &found.path),
                moved_paths: Vec::new(),
            },
        )
    }
}

/// Where a moved or copied topic goes among the destination's children.
#[derive(Debug, PartialEq, Eq)]
pub enum InsertPosition {
    First,
    Last,
    Before(String),
    After(String),
}

/// What a position argument reads as: `first`, `last`, `before:<selector>` or
/// `after:<selector>`; no argument means `last`.
pub open spec fn position_spec(p: Option<Seq<char>>) -> Option<InsertPosition> {
    match p {
        None => Some(InsertPosition::Last),
        Some(t) => if t == "first"@ {
            Some(InsertPosition::First)
        } else if t == "last"@ {
            Some(InsertPosition::Last)
        } else if crate::text::starts_with_spec(t, "before:"@) {
            Some(InsertPosition::Before(arbitrary()))
        } else if crate::text::starts_with_spec(t, "after:"@) {
            Some(InsertPosition::After(arbitrary()))
        } else {
            None
        },
    }
}

/// Whether a read position matches what the text says, its anchor selector included.
pub open spec fn position_matches(r: InsertPosition, p: Option<Seq<char>>) -> bool {
    match p {
        None => r == InsertPosition::Last,
        Some(t) => if t == "first"@ {
            r == InsertPosition::First
        } else if t == "last"@ {
            r == InsertPosition::Last
        } else if crate::text::starts_with_spec(t, "before:"@) {
            r matches InsertPosition::Before(a) && a@ == t.skip(7)
        } else {
            r matches InsertPosition::After(a) && a@ == t.skip(6)
        },
    }
}

/// Reads the position argument of the operation at `index` named `op`.
pub fn parse_insert_position(index: usize, op: &str, position: &Option<String>) -> (r: Result<
    InsertPosition,
    CliErrorBody,
>)
    ensures
        match position_spec(opt_str_of(*position)) {
            Some(_) => r matches Ok(p) && position_matches(p, opt_str_of(*position)) && position_anchor(p)
                == anchor_text(opt_str_of(*position)),
            None => r matches Err(e) && field_error_matches(
                e,
                index,
                op@,
                "position is not supported: "@ + opt_str_of(*position)->0,
                "Use first, last, before:<selector>, or after:<selector>."@,
                "position"@,
            ),
        },
{
    let text = match position {
        None => return Ok(InsertPosition::Last),
        Some(t) => t,
    };
    let cs = chars_of(text.as_str());
    if str_equal(text.as_str(), "first") {
        return Ok(InsertPosition::First);
    }
    if str_equal(text.as_str(), "last") {
        return Ok(InsertPosition::Last);
    }
    let before = chars_of("before:");
    let after = chars_of("after:");
    proof {
        reveal_strlit("before:");
        reveal_strlit("after:");
    }
    if crate::text::starts_with(cs.as_slice(), before.as_slice()) {
        let rest = crate::text::slice_chars(cs.as_slice(), 7, cs.len());
        proof {
            assert(rest@ =~= cs@.skip(7));
        }
        return Ok(InsertPosition::Before(string_from_chars(rest.as_slice())));
    }
    if crate::text::starts_with(cs.as_slice(), after.as_slice()) {
        let rest = crate::text::slice_chars(cs.as_slice(), 6, cs.len());
        proof {
            assert(rest@ =~= cs@.skip(6));
        }
        return Ok(InsertPosition::After(string_from_chars(rest.as_slice())));
    }
    let msg = concat("position is not supported: ", text.as_str());
    Err(
        field_error_owned(
            index,
            op,
            msg,
            "Use first, last, before:<selector>, or after:<selector>.",
            "position".to_owned(),
        ),
    )
}

/// An optional text by its view.
pub open spec fn opt_str_of(o: Option<String>) -> Option<Seq<char>> {
    match o {
        Some(s) => Some(s@),
        None => None,
    }
}

/// The wording of the anchor selector of a position.
pub open spec fn anchor_role_of(index: usize, op: Seq<char>) -> RoleSpec {
    patch_role_spec(index, op, "position anchor"@, true, any_selector_fix(), rediscover_fix())
}

fn anchor_role(index: usize, op: &str) -> (r: SelectorRole)
    ensures
        r@ == anchor_role_of(index, op@),
{
    patch_role(
        index,
        op,
        "position anchor",
        true,
        "Use a valid selector such as root, id:<topic-id>, path:/Q2, or title:Payment.",
        "Run tree or find to rediscover the selector, then retry.",
    )
}

/// Whether the topic at `anchor` is a child of the topic at `destination`.
pub open spec fn is_child_path(anchor: Seq<Seq<char>>, destination: Seq<Seq<char>>) -> bool {
    anchor.len() == destination.len() + 1 && anchor.take(destination.len() as int) == destination
}

/// What checking a position against the destination decides: `first` and `last` always
/// fit; a `before:`/`after:` anchor must resolve to a child of the destination.
pub open spec fn position_fits_matches(
    r: Result<(), CliErrorBody>,
    root: Topic,
    sheet: Seq<char>,
    index: usize,
    op: Seq<char>,
    anchor: Option<Seq<char>>,
    destination: Seq<Seq<char>>,
) -> bool {
    match anchor {
        Some(a) => if !resolves(root, a) {
            r matches Err(e) && role_failure(e, root, a, anchor_role_of(index, op), sheet)
        } else if is_child_path(resolved(root, a).1, destination) {
            r is Ok
        } else {
            r matches Err(e) && op_error_matches(
                e,
                index,
                op,
                ErrorCode::InvalidPatch,
                "position anchor must be a child of the destination: "@ + a,
                true,
                "Choose a sibling under the destination topic as the anchor."@,
                Some("position"@),
            ) && e.selector is None
        },
        None => r is Ok,
    }
}

/// The anchor selector of a position, if it has one.
pub open spec fn position_anchor(p: InsertPosition) -> Option<Seq<char>> {
    match p {
        InsertPosition::Before(a) => Some(a@),
        InsertPosition::After(a) => Some(a@),
        _ => None,
    }
}

/// The anchor selector named by a position argument.
pub open spec fn anchor_text(p: Option<Seq<char>>) -> Option<Seq<char>> {
    match p {
        Some(t) => if t == "first"@ || t == "last"@ {
            None
        } else if crate::text::starts_with_spec(t, "before:"@) {
            Some(t.skip(7))
        } else if crate::text::starts_with_spec(t, "after:"@) {
            Some(t.skip(6))
        } else {
            None
        },
        None => None,
    }
}

fn path_is_child(anchor: &TopicPath, destination: &TopicPath) -> (r: bool)
    ensures
        r == is_child_path(anchor@, destination@),
{
    if anchor.len() == 0 || anchor.len() - 1 != destination.len() {
        return false;
    }
    anchor.is_same_or_descendant_of(destination)
}

/// Checks a position against the destination of the operation at `index`.
pub fn insert_position_from_spec(
    root: &Topic,
    sheet_title: &str,
    index: usize,
    op: &str,
    position: &InsertPosition,
    destination: &TopicPath,
) -> (r: Result<(), CliErrorBody>)
    ensures
        position_fits_matches(r, *root, sheet_title@, index, op@, position_anchor(*position), destination@),
{
    let anchor = match position {
        InsertPosition::Before(a) => a,
        InsertPosition::After(a) => a,
        _ => return Ok(()),
    };
    let role = anchor_role(index, op);
    let found = match resolve_text(root, anchor.as_str(), &role, sheet_title) {
        Ok(f) => f,
        Err(e) => return Err(e),
    };
    if path_is_child(&found.path, destination) {
        Ok(())
    } else {
        let msg = concat("position anchor must be a child of the destination: ", anchor.as_str());
        Err(
            field_error_owned(
                index,
                op,
                msg,
                "Choose a sibling under the destination topic as the anchor.",
                "position".to_owned(),
            ),
        )
    }
}

/// The wording of the selector of the topic a `move` or `copy` takes.
pub open spec fn source_role_of(index: usize, op: Seq<char>) -> RoleSpec {
    patch_role_spec(index, op, "node"@, false, source_selector_fix(), rediscover_fix())
}

/// The wording of the destination selector of a `move` or `copy`.
pub open spec fn destination_role_of(index: usize, op: Seq<char>) -> RoleSpec {
    patch_role_spec(
        index,
        op,
        "destination"@,
        true,
        destination_selector_fix(),
        rediscover_destination_fix(),
    )
}

/// Why a `move` or `copy` named `op` cannot take its topic to its destination, checked
/// in order: the position, the node and destination arguments, reading both selectors,
/// the source (which must not be the root, refused with `root_message`), the
/// destination, and the position's anchor. `None` when all pass.
pub open spec fn relocation_failure(
    e: CliErrorBody,
    root: Topic,
    sheet: Seq<char>,
    index: usize,
    op: Seq<char>,
    args: PatchOpDto,
    root_message: Seq<char>,
) -> bool {
    let position = opt_str_of(args.position);
    if position_spec(position) is None {
        field_error_matches(
            e,
            index,
            op,
            "position is not supported: "@ + position->0,
            "Use first, last, before:<selector>, or after:<selector>."@,
            "position"@,
        )
    } else {
        match (args.node, args.to) {
            (None, _) => field_error_matches(
                e,
                index,
                op,
                op + " operation is missing node."@,
                "Add a node selector like node: path:/Q2/Payment."@,
                "node"@,
            ),
            (Some(_), None) => field_error_matches(
                e,
                index,
                op,
                op + " operation is missing to."@,
                "Add a destination selector like to: path:/Q3."@,
                "to"@,
            ),
            (Some(n), Some(t)) => match (parse_selector_spec(n@), parse_selector_spec(t@)) {
                (Err(pe), _) => parse_error_matches(e, pe, source_role_of(index, op)),
                (Ok(_), Err(pe)) => parse_error_matches(e, pe, destination_role_of(index, op)),
                (Ok(ns), Ok(ts)) => if !(resolve_spec(root, ns) is Found) {
                    resolve_failure_matches(e, root, ns, source_role_of(index, op), sheet)
                } else if resolved(root, n@).1.len() == 0 {
                    root_error_matches(e, index, op, root_message, ns)
                } else if !(resolve_spec(root, ts) is Found) {
                    resolve_failure_matches(e, root, ts, destination_role_of(index, op), sheet)
                } else {
                    position_fits_matches(
                        Err(e),
                        root,
                        sheet,
                        index,
                        op,
                        anchor_text(position),
                        resolved(root, t@).1,
                    )
                },
            },
        }
    }
}

/// Whether a `move` or `copy` passes all the checks of `relocation_failure`.
pub open spec fn relocation_ok(root: Topic, args: PatchOpDto) -> bool {
    &&& position_spec(opt_str_of(args.position)) is Some
    &&& args.node is Some
    &&& args.to is Some
    &&& resolves(root, args.node->0@)
    &&& resolved(root, args.node->0@).1.len() > 0
    &&& resolves(root, args.to->0@)
    &&& match anchor_text(opt_str_of(args.position)) {
        Some(a) => resolves(root, a) && is_child_path(
            resolved(root, a).1,
            resolved(root, args.to->0@).1,
        ),
        None => true,
    }
}

/// The topic a `move` or `copy` takes and where it goes.
pub struct Relocation<'a> {
    pub source: ResolvedTopic<'a>,
    pub destination: ResolvedTopic<'a>,
    pub destination_selector: Selector,
}

fn plan_relocation<'a>(
    root: &'a Topic,
    sheet_title: &str,
    index: usize,
    op_name: &str,
    op: &PatchOpDto,
    root_message: &str,
) -> (r: Result<Relocation<'a>, CliErrorBody>)
    ensures
        if relocation_ok(*root, *op) {
            r matches Ok(x) && located_of(x.source) == resolved(*root, op.node->0@) && located_of(
                x.destination,
            ) == resolved(*root, op.to->0@) && parse_selector_spec(
                op.to->0@,
            ) == Ok::<SelectorSpec, crate::domain::selector::SelectorErrorSpec>(x.destination_selector@)
        } else {
            r matches Err(e) && relocation_failure(
                e,
                *root,
                sheet_title@,
                index,
                op_name@,
                *op,
                root_message@,
            )
        },
{
    let position = match parse_insert_position(index, op_name, &op.position) {
        Ok(p) => p,
        Err(e) => return Err(e),
    };
    let node = match &op.node {
        Some(n) => n,
        None => {
            let msg = concat(op_name, " operation is missing node.");
            return Err(
                field_error_owned(
                    index,
                    op_name,
                    msg,
                    "Add a node selector like node: path:/Q2/Payment.",
                    "node".to_owned(),
                ),
            );
        },
    };
    let destination = match &op.to {
        Some(t) => t,
        None => {
            let msg = concat(op_name, " operation is missing to.");
            return Err(
                field_error_owned(
                    index,
                    op_name,
                    msg,
                    "Add a destination selector like to: path:/Q3.",
                    "to".to_owned(),
                ),
            );
        },
    };
    let source_role = patch_role(
        index,
        op_name,
        "node",
        false,
        "Use a valid selector such as id:<topic-id>, path:/Q2, or title:Payment.",
        "Run tree or find to rediscover the selector, then retry.",
    );
    let destination_role = patch_role(
        index,
        op_name,
        "destination",
        true,
        "Use a valid destination selector such as root, id:<topic-id>, or path:/Q2.",
        "Run tree or find to rediscover the destination selector, then retry.",
    );
    let selector = match parse_for_role(node.as_str(), &source_role) {
        Ok(s) => s,
        Err(e) => return Err(e),
    };
    let destination_selector = match parse_for_role(destination.as_str(), &destination_role) {
        Ok(s) => s,
        Err(e) => return Err(e),
    };
    let source = match resolve_for_role(root, &selector, &source_role, sheet_title) {
        Ok(f) => f,
        Err(e) => return Err(e),
    };
    if source.path.is_root() {
        return Err(root_error(index, op_name, root_message, &selector));
    }
    let dest = match resolve_for_role(root, &destination_selector, &destination_role, sheet_title) {
        Ok(f) => f,
        Err(e) => return Err(e),
    };
    match insert_position_from_spec(root, sheet_title, index, op_name, &position, &dest.path) {
        Ok(()) => {},
        Err(e) => return Err(e),
    }
    Ok(Relocation { source, destination: dest, destination_selector })
}

/// What `move` plans: the topic moves from its path to under the destination; the
/// destination must not be the topic or one of its descendants.
pub open spec fn move_matches(
    r: Result<(String, String), CliErrorBody>,
    root: Topic,
    sheet: Seq<char>,
    index: usize,
    op: PatchOpDto,
) -> bool {
    if !relocation_ok(root, op) {
        r matches Err(e) && relocation_failure(
            e,
            root,
            sheet,
            index,
            "move"@,
            op,
            "Moving the root topic is not allowed."@,
        )
    } else {
        let s = resolved(root, op.node->0@);
        let d = resolved(root, op.to->0@);
        if crate::domain::path::is_prefix_path(d.1, s.1) {
            r matches Err(e) && op_error_matches(
                e,
                index,
                "move"@,
                ErrorCode::PatchConflict,
                "Cannot move a topic into itself or one of its descendants."@,
                true,
                "Choose a destination outside the source subtree."@,
                None,
            ) && e.selector is Some && e.selector->0@ == render_selector_spec(
                parse_selector_spec(op.to->0@)->Ok_0,
            )
        } else {
            r matches Ok((from, to)) && from@ == render_path_spec(s.1) && to@ == render_path_spec(
                d.1.push(s.0.title@),
            )
        }
    }
}

/// Plans a `move` operation of a patch.
pub fn plan_patch_move(root: &Topic, sheet_title: &str, index: usize, op: &PatchOpDto) -> (r: Result<
    (String, String),
    CliErrorBody,
>)
    ensures
        match move_result(*root, *op) {
            Some(v) => r matches Ok(x) && x.0@ == v.0 && x.1@ == v.1,
            None => r is Err,
        },
        move_matches(r, *root, sheet_title@, index, *op),
{
    let plan = match plan_relocation(
        root,
        sheet_title,
        index,
        "move",
        op,
        "Moving the root topic is not allowed.",
    ) {
        Ok(p) => p,
        Err(e) => return Err(e),
    };
    if plan.destination.path.is_same_or_descendant_of(&plan.source.path) {
        let e = op_error(
            index,
            "move",
            ErrorCode::PatchConflict,
            "Cannot move a topic into itself or one of its descendants.".to_owned(),
            true,
            "Choose a destination outside the source subtree.",
            None,
        );
        return Err(e.with_selector(plan.destination_selector.render()));
    }
    Ok(
        (
            plan.source.path.to_selector_value(),
            plan.destination.path.join(plan.source.topic.title.clone()).to_selector_value(),
        ),
    )
}

/// What `copy` plans: the paths of the copied subtree under the destination, its root
/// titled by the given title or the source's own. Copies keep no ids.
pub open spec fn copy_matches(
    r: Result<Vec<String>, CliErrorBody>,
    root: Topic,
    sheet: Seq<char>,
    index: usize,
    op: PatchOpDto,
) -> bool {
    if op.preserve_ids == Some(true) {
        r matches Err(e) && op_error_matches(
            e,
            index,
            "copy"@,
            ErrorCode::PatchConflict,
            "copy preserve_ids would create duplicate topic ids in the same workbook."@,
            true,
            "Omit preserve_ids or set preserve_ids: false."@,
            Some("preserve_ids"@),
        ) && e.selector is None
    } else if !relocation_ok(root, op) {
        r matches Err(e) && relocation_failure(
            e,
            root,
            sheet,
            index,
            "copy"@,
            op,
            "Copying the root topic is not allowed."@,
        )
    } else {
        let s = resolved(root, op.node->0@);
        let d = resolved(root, op.to->0@);
        let title = match op.title {
            Some(t) => t@,
            None => s.0.title@,
        };
        if title.len() == 0 {
            r matches Err(e) && field_error_matches(
                e,
                index,
                "copy"@,
                "copy title cannot be empty."@,
                "Omit title or provide a non-empty title."@,
                "title"@,
            )
        } else {
            r matches Ok(v) && string_views(v@) == seq![render_path_spec(d.1.push(title))]
                + rendered_paths(forest_preorder(s.0.children@, d.1.push(title)))
        }
    }
}

/// Plans a `copy` operation of a patch.
pub fn plan_patch_copy(root: &Topic, sheet_title: &str, index: usize, op: &PatchOpDto) -> (r: Result<
    Vec<String>,
    CliErrorBody,
>)
    ensures
        match copy_result(*root, *op) {
            Some(v) => r matches Ok(x) && string_views(x@) == v,
            None => r is Err,
        },
        copy_matches(r, *root, sheet_title@, index, *op),
{
    let preserve = match op.preserve_ids {
        Some(b) => b,
        None => false,
    };
    if preserve {
        return Err(
            op_error(
                index,
                "copy",
                ErrorCode::PatchConflict,
                "copy preserve_ids would create duplicate topic ids in the same workbook.".to_owned(),
                true,
                "Omit preserve_ids or set preserve_ids: false.",
                Some("preserve_ids"),
            ),
        );
    }
    let plan = match plan_relocation(
        root,
        sheet_title,
        index,
        "copy",
        op,
        "Copying the root topic is not allowed.",
    ) {
        Ok(p) => p,
        Err(e) => return Err(e),
    };
    let title = match &op.title {
        Some(t) => t.clone(),
        None => plan.source.topic.title.clone(),
    };
    let title_chars = chars_of(title.as_str());
    if title_chars.len() == 0 {
        return Err(
            field_error(
                index,
                "copy",
                "copy title cannot be empty.",
                "Omit title or provide a non-empty title.",
                "title",
            ),
        );
    }
    Ok(collect_copied_paths(plan.source.topic, &plan.destination.path, title.as_str()))
}

/// How merge tree nodes are matched to existing children: by title (`title_path` and
/// `title`), by id, or by canonical path.
#[derive(Clone, Copy, Debug, PartialEq, Eq)]
pub enum MergeMatch {
    Title,
    Id,
    Path,
}

/// The key a merge tree node must carry under `match_by: id` (its id) or `path` (its
/// path), blank counting as missing.
pub open spec fn key_missing(tree: TopicTreeInputDto, by_id: bool) -> bool {
    let key = if by_id {
        tree.id
    } else {
        tree.path
    };
    match key {
        None => true,
        Some(k) => trim_spec(k@).len() == 0,
    }
}

/// The field path, in pre-order, of the first node of the tree without its key:
/// `<field_path>.id` or `<field_path>.path`, children at `<field_path>.children[<i>]`.
pub open spec fn first_missing_key(tree: TopicTreeInputDto, field_path: Seq<char>, by_id: bool) -> Option<
    Seq<char>,
>
    decreases tree, 1nat, 0int,
{
    if key_missing(tree, by_id) {
        Some(field_path + if by_id { ".id"@ } else { ".path"@ })
    } else {
        first_missing_key_in(tree.children@, field_path, by_id, tree.children@.len() as int)
    }
}

/// The field path of a child node.
pub open spec fn child_field_path(field_path: Seq<char>, index: nat) -> Seq<char> {
    field_path + ".children["@ + crate::text::decimal_spec(index) + "]"@
}

/// The first node without its key among the first `n` children trees.
pub open spec fn first_missing_key_in(
    children: Seq<TopicTreeInputDto>,
    field_path: Seq<char>,
    by_id: bool,
    n: int,
) -> Option<Seq<char>>
    decreases children, 0nat, n,
{
    if n <= 0 || n > children.len() {
        None
    } else {
        match first_missing_key_in(children, field_path, by_id, n - 1) {
            Some(p) => Some(p),
            None => first_missing_key(
                children[n - 1],
                child_field_path(field_path, (n - 1) as nat),
                by_id,
            ),
        }
    }
}

proof fn lemma_first_missing_stable(
    children: Seq<TopicTreeInputDto>,
    field_path: Seq<char>,
    by_id: bool,
    n: int,
    m: int,
)
    requires
        0 < n <= m <= children.len(),
        first_missing_key_in(children, field_path, by_id, n) is Some,
    ensures
        first_missing_key_in(children, field_path, by_id, m) == first_missing_key_in(
            children,
            field_path,
            by_id,
            n,
        ),
    decreases m - n,
{
    if m > n {
        lemma_first_missing_stable(children, field_path, by_id, n, m - 1);
    }
}

fn key_is_missing(tree: &TopicTreeInputDto, by_id: bool) -> (r: bool)
    ensures
        r == key_missing(*tree, by_id),
{
    let key = if by_id {
        &tree.id
    } else {
        &tree.path
    };
    match key {
        None => true,
        Some(k) => {
            let cs = chars_of(k.as_str());
            is_blank(cs.as_slice())
        },
    }
}

/// The field path of the first node of the tree, in pre-order, that lacks the key
/// `match_by: id` or `match_by: path` needs.
pub fn first_tree_missing_key_path(tree: &TopicTreeInputDto, field_path: &str, by_id: bool) -> (r:
    Option<String>)
    ensures
        match first_missing_key(*tree, field_path@, by_id) {
            Some(p) => r matches Some(x) && x@ == p,
            None => r is None,
        },
    decreases tree,
{
    if key_is_missing(tree, by_id) {
        let suffix = if by_id {
            ".id"
        } else {
            ".path"
        };
        return Some(concat(field_path, suffix));
    }
    let mut index: usize = 0;
    while index < tree.children.len()
        invariant
            index <= tree.children@.len(),
            !key_missing(*tree, by_id),
            first_missing_key_in(tree.children@, field_path@, by_id, index as int) is None,
        decreases tree.children@.len() - index,
    {
        let head = concat(field_path, ".children[");
        let digits = crate::text::decimal(index);
        let digits = string_from_chars(digits.as_slice());
        let mid = concat(head.as_str(), digits.as_str());
        let child_path = concat(mid.as_str(), "]");
        proof {
            assert(child_path@ =~= child_field_path(field_path@, index as nat));
        }
        match first_tree_missing_key_path(&tree.children[index], child_path.as_str(), by_id) {
            None => {},
            Some(p) => {
                proof {
                    lemma_first_missing_stable(
                        tree.children@,
                        field_path@,
                        by_id,
                        index + 1,
                        tree.children@.len() as int,
                    );
                }
                return Some(p);
            },
        }
        index = index + 1;
    }
    None
}

/// Whether the child topic `t` at `path` is the one the merge tree node `tree` stands
/// for.
pub open spec fn merge_child_matches(t: Topic, path: Seq<Seq<char>>, tree: TopicTreeInputDto, m: MergeMatch) -> bool {
    match m {
        MergeMatch::Id => tree.id is Some && tree.id->0@ == t.id.0@,
        MergeMatch::Path => tree.path is Some && tree.path->0@ == render_path_spec(path),
        MergeMatch::Title => t.title@ == tree.title@,
    }
}

/// Whether merging `tree` into the topic `t` changes it: a different title, or a given
/// note, non-empty labels or markers that differ, or an image.
pub open spec fn merge_updates_topic(t: Topic, tree: TopicTreeInputDto) -> bool {
    ||| t.title@ != tree.title@
    ||| (tree.note is Some && (t.note is None || t.note->0@ != tree.note->0@))
    ||| (tree.labels@.len() > 0 && string_views(t.labels@) != string_views(tree.labels@))
    ||| (tree.markers@.len() > 0 && string_views(t.markers@) != string_views(tree.markers@))
    ||| tree.image is Some
}

/// The first child of `t` (at `path`) that the merge tree node stands for.
#[verifier::opaque]
pub open spec fn merge_child_index(t: Topic, path: Seq<Seq<char>>, tree: TopicTreeInputDto, m: MergeMatch) -> Option<int> {
    if exists|i: int|
        0 <= i < t.children@.len() && merge_child_matches(
            #[trigger] t.children@[i],
            path.push(t.children@[i].title@),
            tree,
            m,
        ) {
        Some(
            choose|i: int|
                0 <= i < t.children@.len() && merge_child_matches(
                    t.children@[i],
                    path.push(t.children@[i].title@),
                    tree,
                    m,
                ) && forall|k: int|
                    0 <= k < i ==> !merge_child_matches(
                        #[trigger] t.children@[k],
                        path.push(t.children@[k].title@),
                        tree,
                        m,
                    ),
        )
    } else {
        None
    }
}

/// The updated, added and deleted paths of a merge, in the order they are found.
#[verifier::ext_equal]
pub struct MergeDiff {
    pub updated: Seq<Seq<char>>,
    pub added: Seq<Seq<char>>,
    pub deleted: Seq<Seq<char>>,
}

/// Two merge diffs, one after the other.
pub open spec fn merge_plus(a: MergeDiff, b: MergeDiff) -> MergeDiff {
    MergeDiff { updated: a.updated + b.updated, added: a.added + b.added, deleted: a.deleted + b.deleted }
}

/// An empty merge diff.
pub open spec fn merge_empty() -> MergeDiff {
    MergeDiff { updated: seq![], added: seq![], deleted: seq![] }
}

/// What merging `tree` into the topic `t` at `path` changes: the topic itself if it
/// differs; then, for each child tree in order, the merge into the child it stands for
/// or the addition of the whole child tree; then, with `prune`, the deletion of every
/// child no child tree stands for.
pub open spec fn merge_diff(
    t: Topic,
    path: Seq<Seq<char>>,
    tree: TopicTreeInputDto,
    m: MergeMatch,
    prune: bool,
) -> MergeDiff
    decreases tree, 1nat, 0int,
{
    let here = MergeDiff {
        updated: if merge_updates_topic(t, tree) {
            seq![render_path_spec(path)]
        } else {
            seq![]
        },
        added: seq![],
        deleted: seq![],
    };
    let kids = merge_children(t, path, tree.children@, m, prune, tree.children@.len() as int);
    let pruned = MergeDiff {
        updated: seq![],
        added: seq![],
        deleted: if prune {
            pruned_paths(t, path, tree.children@, m, t.children@.len() as int)
        } else {
            seq![]
        },
    };
    merge_plus(merge_plus(here, kids), pruned)
}

/// The merge diffs of the first `n` child trees into the children of `t` at `path`.
pub open spec fn merge_children(
    t: Topic,
    path: Seq<Seq<char>>,
    trees: Seq<TopicTreeInputDto>,
    m: MergeMatch,
    prune: bool,
    n: int,
) -> MergeDiff
    decreases trees, 0nat, n,
{
    if n <= 0 || n > trees.len() {
        merge_empty()
    } else {
        merge_plus(
            merge_children(t, path, trees, m, prune, n - 1),
            merge_step(t, path, trees[n - 1], m, prune),
        )
    }
}

/// What one child tree contributes: the merge into the child it stands for, or the
/// addition of the whole child tree under `t` at `path`.
pub open spec fn merge_step(
    t: Topic,
    path: Seq<Seq<char>>,
    ct: TopicTreeInputDto,
    m: MergeMatch,
    prune: bool,
) -> MergeDiff
    decreases ct, 2nat, 0int,
{
    let i = match merge_child_index(t, path, ct, m) {
        Some(i) => i,
        None => -1,
    };
    if 0 <= i < t.children@.len() {
        merge_diff(t.children@[i], path.push(t.children@[i].title@), ct, m, prune)
    } else {
        MergeDiff { updated: seq![], added: tree_paths(ct, path), deleted: seq![] }
    }
}

/// Whether some child tree stands for the child topic `c` at `cpath`.
pub open spec fn child_kept(c: Topic, cpath: Seq<Seq<char>>, trees: Seq<TopicTreeInputDto>, m: MergeMatch) -> bool {
    exists|k: int| 0 <= k < trees.len() && merge_child_matches(c, cpath, #[trigger] trees[k], m)
}

/// The paths deleted by pruning the first `n` children of `t`: the subtrees of those no
/// child tree stands for, in order.
pub open spec fn pruned_paths(
    t: Topic,
    path: Seq<Seq<char>>,
    trees: Seq<TopicTreeInputDto>,
    m: MergeMatch,
    n: int,
) -> Seq<Seq<char>>
    decreases n,
{
    if n <= 0 || n > t.children@.len() {
        seq![]
    } else {
        let c = t.children@[n - 1];
        let cpath = path.push(c.title@);
        pruned_paths(t, path, trees, m, n - 1) + if child_kept(c, cpath, trees, m) {
            seq![]
        } else {
            rendered_paths(preorder(c, cpath))
        }
    }
}

/// The paths a merge collects, as text.
pub struct MergeTreeDiffAccumulator {
    pub updated_paths: Vec<String>,
    pub added_paths: Vec<String>,
    pub deleted_paths: Vec<String>,
}

/// The accumulated paths by their views.
pub open spec fn acc_view(a: MergeTreeDiffAccumulator) -> MergeDiff {
    MergeDiff {
        updated: string_views(a.updated_paths@),
        added: string_views(a.added_paths@),
        deleted: string_views(a.deleted_paths@),
    }
}

fn push_strings(out: &mut Vec<String>, more: Vec<String>)
    ensures
        string_views(final(out)@) == string_views(old(out)@) + string_views(more@),
{
    let ghost before = string_views(out@);
    let mut i: usize = 0;
    let n = more.len();
    while i < n
        invariant
            n == more@.len(),
            i <= n,
            string_views(out@) == before + string_views(more@.take(i as int)),
        decreases n - i,
    {
        let s = more[i].clone();
        let ghost prev = out@;
        out.push(s);
        proof {
            assert(string_views(out@) =~= string_views(prev).push(more@[i as int]@));
            assert(more@.take(i + 1) =~= more@.take(i as int).push(more@[i as int]));
            assert(string_views(more@.take(i + 1)) =~= string_views(more@.take(i as int)).push(
                more@[i as int]@,
            ));
        }
        i = i + 1;
    }
    proof {
        assert(more@.take(n as int) =~= more@);
    }
}

fn tree_key_equals(key: &Option<String>, value: &str) -> (r: bool)
    ensures
        r == (key is Some && key->0@ == value@),
{
    match key {
        Some(k) => str_equal(k.as_str(), value),
        None => false,
    }
}

fn child_matches_exec(t: &Topic, path: &TopicPath, tree: &TopicTreeInputDto, m: MergeMatch) -> (r: bool)
    ensures
        r == merge_child_matches(*t, path@, *tree, m),
{
    match m {
        MergeMatch::Id => tree_key_equals(&tree.id, t.id.0.as_str()),
        MergeMatch::Path => tree_key_equals(&tree.path, path.to_selector_value().as_str()),
        MergeMatch::Title => str_equal(t.title.as_str(), tree.title.as_str()),
    }
}

fn find_merge_tree_child(t: &Topic, path: &TopicPath, tree: &TopicTreeInputDto, m: MergeMatch) -> (r:
    Option<usize>)
    ensures
        match r {
            Some(i) => merge_child_index(*t, path@, *tree, m) == Some(i as int) && i < t.children@.len(),
            None => merge_child_index(*t, path@, *tree, m) is None,
        },
{
    proof {
        reveal(merge_child_index);
    }
    let mut i: usize = 0;
    while i < t.children.len()
        invariant
            i <= t.children@.len(),
            forall|k: int|
                0 <= k < i ==> !merge_child_matches(
                    #[trigger] t.children@[k],
                    path@.push(t.children@[k].title@),
                    *tree,
                    m,
                ),
        decreases t.children@.len() - i,
    {
        let child_path = path.join(t.children[i].title.clone());
        if child_matches_exec(&t.children[i], &child_path, tree, m) {
            proof {
                reveal(merge_child_index);
                let c = choose|j: int|
                    0 <= j < t.children@.len() && merge_child_matches(
                        t.children@[j],
                        path@.push(t.children@[j].title@),
                        *tree,
                        m,
                    ) && forall|k: int|
                        0 <= k < j ==> !merge_child_matches(
                            #[trigger] t.children@[k],
                            path@.push(t.children@[k].title@),
                            *tree,
                            m,
                        );
                assert(merge_child_matches(
                    t.children@[i as int],
                    path@.push(t.children@[i as int].title@),
                    *tree,
                    m,
                ));
                if c < i {
                    assert(!merge_child_matches(
                        t.children@[c],
                        path@.push(t.children@[c].title@),
                        *tree,
                        m,
                    ));
                } else if c > i {
                    assert(!merge_child_matches(
                        t.children@[i as int],
                        path@.push(t.children@[i as int].title@),
                        *tree,
                        m,
                    ));
                }
            }
            return Some(i);
        }
        i = i + 1;
    }
    None
}

fn strings_equal(a: &Vec<String>, b: &Vec<String>) -> (r: bool)
    ensures
        r == (string_views(a@) == string_views(b@)),
{
    if a.len() != b.len() {
        proof {
            assert(string_views(a@).len() != string_views(b@).len());
        }
        return false;
    }
    let mut i: usize = 0;
    while i < a.len()
        invariant
            a@.len() == b@.len(),
            i <= a@.len(),
            forall|k: int| 0 <= k < i ==> a@[k]@ == b@[k]@,
        decreases a@.len() - i,
    {
        if !str_equal(a[i].as_str(), b[i].as_str()) {
            proof {
                assert(string_views(a@)[i as int] != string_views(b@)[i as int]);
            }
            return false;
        }
        i = i + 1;
    }
    proof {
        assert(string_views(a@) =~= string_views(b@));
    }
    true
}

fn merge_tree_updates_topic(t: &Topic, tree: &TopicTreeInputDto) -> (r: bool)
    ensures
        r == merge_updates_topic(*t, *tree),
{
    if !str_equal(t.title.as_str(), tree.title.as_str()) {
        return true;
    }
    match &tree.note {
        Some(note) => {
            let same = match &t.note {
                Some(current) => str_equal(current.as_str(), note.as_str()),
                None => false,
            };
            if !same {
                return true;
            }
        },
        None => {},
    }
    if tree.labels.len() > 0 && !strings_equal(&t.labels, &tree.labels) {
        return true;
    }
    if tree.markers.len() > 0 && !strings_equal(&t.markers, &tree.markers) {
        return true;
    }
    tree.image.is_some()
}

fn child_is_kept(c: &Topic, cpath: &TopicPath, trees: &Vec<TopicTreeInputDto>, m: MergeMatch) -> (r:
    bool)
    ensures
        r == child_kept(*c, cpath@, trees@, m),
{
    let mut k: usize = 0;
    while k < trees.len()
        invariant
            k <= trees@.len(),
            forall|j: int| 0 <= j < k ==> !merge_child_matches(*c, cpath@, #[trigger] trees@[j], m),
        decreases trees@.len() - k,
    {
        if child_matches_exec(c, cpath, &trees[k], m) {
            return true;
        }
        k = k + 1;
    }
    false
}

/// Adds to `acc` what merging `tree` into the topic `t` at `path` changes.
pub fn collect_merge_tree_diff(
    t: &Topic,
    path: &TopicPath,
    tree: &TopicTreeInputDto,
    m: MergeMatch,
    prune: bool,
    acc: &mut MergeTreeDiffAccumulator,
)
    ensures
        acc_view(*final(acc)) == merge_plus(acc_view(*old(acc)), merge_diff(*t, path@, *tree, m, prune)),
    decreases tree,
{
    let ghost start = acc_view(*acc);
    let ghost here = MergeDiff {
        updated: if merge_updates_topic(*t, *tree) {
            seq![render_path_spec(path@)]
        } else {
            seq![]
        },
        added: seq![],
        deleted: seq![],
    };
    if merge_tree_updates_topic(t, tree) {
        push_path(&mut acc.updated_paths, path);
    }
    proof {
        assert(acc_view(*acc) =~= merge_plus(start, here));
        assert(merge_plus(merge_plus(start, here), merge_children(*t, path@, tree.children@, m, prune, 0))
            =~= merge_plus(start, here));
    }
    let mut k: usize = 0;
    while k < tree.children.len()
        invariant
            k <= tree.children@.len(),
            acc_view(*acc) == merge_plus(
                merge_plus(start, here),
                merge_children(*t, path@, tree.children@, m, prune, k as int),
            ),
        decreases tree.children@.len() - k,
    {
        let ct = &tree.children[k];
        proof {
            assert(tree.children@[k as int] == *ct);
            assert(merge_children(*t, path@, tree.children@, m, prune, k + 1) == merge_plus(
                merge_children(*t, path@, tree.children@, m, prune, k as int),
                merge_step(*t, path@, *ct, m, prune),
            ));
        }
        match find_merge_tree_child(t, path, ct, m) {
            Some(i) => {
                let child = &t.children[i];
                let child_path = path.join(child.title.clone());
                proof {
                    assert(merge_child_index(*t, path@, *ct, m) == Some(i as int));
                    assert(0 <= i < t.children@.len());
                    assert(*child == t.children@[i as int]);
                    assert(child_path@ == path@.push(t.children@[i as int].title@));
                    assert(merge_step(*t, path@, *ct, m, prune) == merge_diff(
                        *child,
                        child_path@,
                        *ct,
                        m,
                        prune,
                    ));
                }
                collect_merge_tree_diff(child, &child_path, ct, m, prune, acc);
            },
            None => {
                let added = collect_added_paths(path, ct);
                push_strings(&mut acc.added_paths, added);
            },
        }
        proof {
            assert(acc_view(*acc) =~= merge_plus(
                merge_plus(start, here),
                merge_children(*t, path@, tree.children@, m, prune, k + 1),
            ));
        }
        k = k + 1;
    }
    let ghost after_kids = acc_view(*acc);
    if prune {
        let mut j: usize = 0;
        proof {
            assert(after_kids.deleted =~= after_kids.deleted + pruned_paths(*t, path@, tree.children@, m, 0));
        }
        while j < t.children.len()
            invariant
                j <= t.children@.len(),
                acc_view(*acc).updated == after_kids.updated,
                acc_view(*acc).added == after_kids.added,
                acc_view(*acc).deleted == after_kids.deleted + pruned_paths(
                    *t,
                    path@,
                    tree.children@,
                    m,
                    j as int,
                ),
            decreases t.children@.len() - j,
        {
            let c = &t.children[j];
            let cpath = path.join(c.title.clone());
            if !child_is_kept(c, &cpath, &tree.children, m) {
                let deleted = collect_deleted_paths(c, &cpath);
                push_strings(&mut acc.deleted_paths, deleted);
            }
            proof {
                assert(acc_view(*acc).deleted =~= after_kids.deleted + pruned_paths(
                    *t,
                    path@,
                    tree.children@,
                    m,
                    j + 1,
                ));
            }
            j = j + 1;
        }
    }
    proof {
        assert(acc_view(*acc) =~= merge_plus(start, merge_diff(*t, path@, *tree, m, prune)));
    }
}

/// The match mode named by a `match_by` argument, if it is supported.
pub open spec fn match_mode(m: Seq<char>) -> Option<MergeMatch> {
    if m == "title_path"@ || m == "title"@ {
        Some(MergeMatch::Title)
    } else if m == "id"@ {
        Some(MergeMatch::Id)
    } else if m == "path"@ {
        Some(MergeMatch::Path)
    } else {
        None
    }
}

/// The wording of the target selector of `merge_tree`.
pub open spec fn target_role_of(index: usize) -> RoleSpec {
    patch_role_spec(index, "merge_tree"@, "target"@, true, any_selector_fix(), rediscover_fix())
}

/// What `merge_tree` plans: the updated, added and deleted paths of merging its tree
/// into the target topic.
pub open spec fn merge_tree_matches(
    r: Result<MergeTreeDiffAccumulator, CliErrorBody>,
    root: Topic,
    sheet: Seq<char>,
    index: usize,
    op: PatchOpDto,
) -> bool {
    let match_by = match op.match_by {
        Some(m) => m@,
        None => "title_path"@,
    };
    if match_mode(match_by) is None {
        r matches Err(e) && field_error_matches(
            e,
            index,
            "merge_tree"@,
            "merge_tree match_by is not implemented: "@ + match_by,
            "Use match_by: title_path for this patch slice."@,
            "match_by"@,
        )
    } else {
        let m = match_mode(match_by)->0;
        match (op.target, op.tree) {
            (None, _) => r matches Err(e) && field_error_matches(
                e,
                index,
                "merge_tree"@,
                "merge_tree operation is missing target."@,
                "Add a target selector like target: path:/Q2/Payment."@,
                "target"@,
            ),
            (Some(_), None) => r matches Err(e) && field_error_matches(
                e,
                index,
                "merge_tree"@,
                "merge_tree operation is missing tree."@,
                "Add a tree object with a title."@,
                "tree"@,
            ),
            (Some(target), Some(tree)) => if trim_spec(tree.title@).len() == 0 {
                r matches Err(e) && field_error_matches(
                    e,
                    index,
                    "merge_tree"@,
                    "merge_tree operation tree title must not be empty."@,
                    "Add a non-empty title for the merge tree root."@,
                    "tree.title"@,
                )
            } else if m == MergeMatch::Id && first_missing_key(tree, "tree"@, true) is Some {
                r matches Err(e) && field_error_matches(
                    e,
                    index,
                    "merge_tree"@,
                    "merge_tree match_by: id requires every input tree node to include an id."@,
                    "Add id values from a prior read/export result or use match_by: title_path."@,
                    first_missing_key(tree, "tree"@, true)->0,
                )
            } else if m == MergeMatch::Path && first_missing_key(tree, "tree"@, false) is Some {
                r matches Err(e) && field_error_matches(
                    e,
                    index,
                    "merge_tree"@,
                    "merge_tree match_by: path requires every input tree node to include a path."@,
                    "Add canonical path values from a prior read/tree result or use match_by: title_path."@,
                    first_missing_key(tree, "tree"@, false)->0,
                )
            } else if !resolves(root, target@) {
                r matches Err(e) && role_failure(e, root, target@, target_role_of(index), sheet)
            } else {
                let l = resolved(root, target@);
                r matches Ok(acc) && acc_view(acc) == merge_diff(
                    l.0,
                    l.1,
                    tree,
                    m,
                    op.prune == Some(true),
                )
            },
        }
    }
}

/// Plans a `merge_tree` operation of a patch.
pub fn plan_patch_merge_tree(root: &Topic, sheet_title: &str, index: usize, op: &PatchOpDto) -> (r:
    Result<MergeTreeDiffAccumulator, CliErrorBody>)
    ensures
        match merge_tree_result(*root, *op) {
            Some(v) => r matches Ok(x) && acc_view(x) == v,
            None => r is Err,
        },
        merge_tree_matches(r, *root, sheet_title@, index, *op),
{
    let match_by: &str = match &op.match_by {
        Some(m) => m.as_str(),
        None => "title_path",
    };
    let m = if str_equal(match_by, "title_path") || str_equal(match_by, "title") {
        MergeMatch::Title
    } else if str_equal(match_by, "id") {
        MergeMatch::Id
    } else if str_equal(match_by, "path") {
        MergeMatch::Path
    } else {
        let msg = concat("merge_tree match_by is not implemented: ", match_by);
        return Err(
            field_error_owned(
                index,
                "merge_tree",
                msg,
                "Use match_by: title_path for this patch slice.",
                "match_by".to_owned(),
            ),
        );
    };
    let target = match &op.target {
        Some(t) => t,
        None => return Err(
            field_error(
                index,
                "merge_tree",
                "merge_tree operation is missing target.",
                "Add a target selector like target: path:/Q2/Payment.",
                "target",
            ),
        ),
    };
    let tree = match &op.tree {
        Some(t) => t,
        None => return Err(
            field_error(
                index,
                "merge_tree",
                "merge_tree operation is missing tree.",
                "Add a tree object with a title.",
                "tree",
            ),
        ),
    };
    let title = chars_of(tree.title.as_str());
    if is_blank(title.as_slice()) {
        return Err(
            field_error(
                index,
                "merge_tree",
                "merge_tree operation tree title must not be empty.",
                "Add a non-empty title for the merge tree root.",
                "tree.title",
            ),
        );
    }
    match m {
        MergeMatch::Id => match first_tree_missing_key_path(tree, "tree", true) {
            Some(fp) => return Err(
                field_error_owned(
                    index,
                    "merge_tree",
                    "merge_tree match_by: id requires every input tree node to include an id.".to_owned(),
                    "Add id values from a prior read/export result or use match_by: title_path.",
                    fp,
                ),
            ),
            None => {},
        },
        MergeMatch::Path => match first_tree_missing_key_path(tree, "tree", false) {
            Some(fp) => return Err(
                field_error_owned(
                    index,
                    "merge_tree",
                    "merge_tree match_by: path requires every input tree node to include a path.".to_owned(),
                    "Add canonical path values from a prior read/tree result or use match_by: title_path.",
                    fp,
                ),
            ),
            None => {},
        },
        MergeMatch::Title => {},
    }
    let role = patch_role(
        index,
        "merge_tree",
        "target",
        true,
        "Use a valid selector such as root, id:<topic-id>, path:/Q2, or title:Payment.",
        "Run tree or find to rediscover the selector, then retry.",
    );
    let found = match resolve_text(root, target.as_str(), &role, sheet_title) {
        Ok(f) => f,
        Err(e) => return Err(e),
    };
    let prune = match op.prune {
        Some(b) => b,
        None => false,
    };
    let mut acc = MergeTreeDiffAccumulator {
        updated_paths: Vec::new(),
        added_paths: Vec::new(),
        deleted_paths: Vec::new(),
    };
    proof {
        assert(acc_view(acc) =~= merge_empty());
    }
    collect_merge_tree_diff(found.topic, &found.path, tree, m, prune, &mut acc);
    proof {
        assert(acc_view(acc) =~= merge_diff(*found.topic, found.path@, *tree, m, prune));
    }
    Ok(acc)
}

/// The path `add` creates, when it succeeds.
pub open spec fn add_result(root: Topic, op: PatchOpDto) -> Option<Seq<char>> {
    match (op.parent, op.title) {
        (Some(p), Some(t)) => if trim_spec(t@).len() == 0 {
            None
        } else {
            match parse_selector_spec(p@) {
                Ok(SelectorSpec::Path(segs)) => if topic_at_path(root, segs) is Some {
                    Some(render_path_spec(segs.push(trim_spec(t@))))
                } else {
                    None
                },
                _ => None,
            }
        },
        _ => None,
    }
}

/// The paths `add_tree` creates, when it succeeds.
pub open spec fn add_tree_result(root: Topic, op: PatchOpDto) -> Option<Seq<Seq<char>>> {
    match (op.parent, op.tree) {
        (Some(p), Some(tree)) => match parse_selector_spec(p@) {
            Ok(SelectorSpec::Path(segs)) => if topic_at_path(root, segs) is Some {
                Some(tree_paths(tree, segs))
            } else {
                None
            },
            _ => None,
        },
        _ => None,
    }
}

/// The path `set` updates, when it succeeds.
pub open spec fn set_result(root: Topic, op: PatchOpDto) -> Option<Seq<char>> {
    match (op.node, op.fields) {
        (Some(node), Some(fields)) => {
            let fv = json_members_view(fields@);
            if fv.len() == 0 || first_invalid_field(fv) is Some || !resolves(root, node@) {
                None
            } else {
                let l = resolved(root, node@);
                Some(
                    match set_title_field(fv) {
                        Some(t) => renamed_path_spec(l.1, t),
                        None => render_path_spec(l.1),
                    },
                )
            }
        },
        _ => None,
    }
}

/// The deleted and added paths of `replace_tree`, when it succeeds.
pub open spec fn replace_tree_result(root: Topic, op: PatchOpDto) -> Option<
    (Seq<Seq<char>>, Seq<Seq<char>>),
> {
    match (op.node, op.tree) {
        (Some(node), Some(tree)) => if trim_spec(tree.title@).len() == 0 || !resolves(root, node@)
            || resolved(root, node@).1.len() == 0 {
            None
        } else {
            let l = resolved(root, node@);
            Some((rendered_paths(preorder(l.0, l.1)), tree_paths(tree, l.1.drop_last())))
        },
        _ => None,
    }
}

/// Whether an `assert_exists` or `assert_not_exists` operation passes.
pub open spec fn assert_passes(root: Topic, op_name: Seq<char>, op: PatchOpDto) -> bool {
    match op.node {
        Some(node) => match parse_selector_spec(node@) {
            Ok(sel) => if op_name == "assert_exists"@ {
                resolve_spec(root, sel) is Found
            } else {
                resolve_spec(root, sel) is NotFound
            },
            Err(_) => false,
        },
        None => false,
    }
}

/// The paths `ensure_path` creates, when it succeeds.
pub open spec fn ensure_path_result(root: Topic, op: PatchOpDto) -> Option<Seq<Seq<char>>> {
    match op.path {
        Some(p) => match crate::domain::path::parse_path_spec(p@) {
            Ok(segs) => Some(missing_path_additions(root, segs)),
            Err(_) => None,
        },
        None => None,
    }
}

/// Whether the arguments of `sort_children` are supported and its node resolves.
pub open spec fn sort_children_ok(root: Topic, op: PatchOpDto) -> bool {
    let by = match op.by {
        Some(b) => b@,
        None => "title"@,
    };
    let order = match op.order {
        Some(o) => o@,
        None => "asc"@,
    };
    &&& by == "title"@
    &&& (order == "asc"@ || order == "desc"@)
    &&& op.recursive != Some(true)
    &&& op.node is Some
    &&& resolves(root, op.node->0@)
}

/// The path `sort_children` updates (none when already sorted), when it succeeds.
pub open spec fn sort_children_result(root: Topic, op: PatchOpDto) -> Option<Option<Seq<char>>> {
    if sort_children_ok(root, op) {
        let l = resolved(root, op.node->0@);
        let order = match op.order {
            Some(o) => o@,
            None => "asc"@,
        };
        let desc = order == "desc"@;
        if titles_sorted(child_titles(l.0), desc) {
            Some(None)
        } else {
            Some(Some(render_path_spec(l.1)))
        }
    } else {
        None
    }
}

/// The paths `set_tree_metadata` updates, when it succeeds.
pub open spec fn set_tree_metadata_result(root: Topic, op: PatchOpDto) -> Option<Seq<Seq<char>>> {
    match (op.node, op.add_labels) {
        (Some(node), Some(labels)) => if labels_unusable(string_views(labels@)) || !resolves(
            root,
            node@,
        ) {
            None
        } else {
            let l = resolved(root, node@);
            Some(label_updates(l.0, l.1, string_views(labels@), op.recursive == Some(true)))
        },
        _ => None,
    }
}

/// The deleted paths and moves of `delete`, when it succeeds.
pub open spec fn delete_result(root: Topic, op: PatchOpDto) -> Option<
    (Seq<Seq<char>>, Seq<(Seq<char>, Seq<char>)>),
> {
    let children_only = op.children_only == Some(true);
    let promote = op.promote_children == Some(true);
    match op.node {
        Some(node) => if (children_only && promote) || !resolves(root, node@) || resolved(
            root,
            node@,
        ).1.len() == 0 {
            None
        } else {
            let l = resolved(root, node@);
            if children_only {
                Some((rendered_paths(forest_preorder(l.0.children@, l.1)), seq![]))
            } else if promote {
                Some((seq![render_path_spec(l.1)], promoted_moves(l.0, l.1)))
            } else {
                Some((rendered_paths(preorder(l.0, l.1)), seq![]))
            }
        },
        None => None,
    }
}

/// The move of `move`, when it succeeds.
pub open spec fn move_result(root: Topic, op: PatchOpDto) -> Option<(Seq<char>, Seq<char>)> {
    if !relocation_ok(root, op) {
        None
    } else {
        let s = resolved(root, op.node->0@);
        let d = resolved(root, op.to->0@);
        if crate::domain::path::is_prefix_path(d.1, s.1) {
            None
        } else {
            Some((render_path_spec(s.1), render_path_spec(d.1.push(s.0.title@))))
        }
    }
}

/// The paths `copy` creates, when it succeeds.
pub open spec fn copy_result(root: Topic, op: PatchOpDto) -> Option<Seq<Seq<char>>> {
    if op.preserve_ids == Some(true) || !relocation_ok(root, op) {
        None
    } else {
        let s = resolved(root, op.node->0@);
        let d = resolved(root, op.to->0@);
        let title = match op.title {
            Some(t) => t@,
            None => s.0.title@,
        };
        if title.len() == 0 {
            None
        } else {
            Some(
                seq![render_path_spec(d.1.push(title))] + rendered_paths(
                    forest_preorder(s.0.children@, d.1.push(title)),
                ),
            )
        }
    }
}

/// What `merge_tree` changes, when it succeeds.
pub open spec fn merge_tree_result(root: Topic, op: PatchOpDto) -> Option<MergeDiff> {
    let match_by = match op.match_by {
        Some(m) => m@,
        None => "title_path"@,
    };
    match (match_mode(match_by), op.target, op.tree) {
        (Some(m), Some(target), Some(tree)) => if trim_spec(tree.title@).len() == 0 || (m
            == MergeMatch::Id && first_missing_key(tree, "tree"@, true) is Some) || (m
            == MergeMatch::Path && first_missing_key(tree, "tree"@, false) is Some) || !resolves(
            root,
            target@,
        ) {
            None
        } else {
            let l = resolved(root, target@);
            Some(merge_diff(l.0, l.1, tree, m, op.prune == Some(true)))
        },
        _ => None,
    }
}

/// One entry of a patch's planned diff.
#[derive(Debug, PartialEq, Eq)]
pub enum PatchDiffEvent {
    Added(String),
    Updated(String),
    Deleted(String),
    Moved(String, String),
}

/// A planned diff entry as text.
pub enum PatchEventSpec {
    Added(Seq<char>),
    Updated(Seq<char>),
    Deleted(Seq<char>),
    Moved(Seq<char>, Seq<char>),
}

impl View for PatchDiffEvent {
    type V = PatchEventSpec;

    open spec fn view(&self) -> PatchEventSpec {
        match self {
            PatchDiffEvent::Added(p) => PatchEventSpec::Added(p@),
            PatchDiffEvent::Updated(p) => PatchEventSpec::Updated(p@),
            PatchDiffEvent::Deleted(p) => PatchEventSpec::Deleted(p@),
            PatchDiffEvent::Moved(f, t) => PatchEventSpec::Moved(f@, t@),
        }
    }
}

/// The events by their views.
pub open spec fn event_views(v: Seq<PatchDiffEvent>) -> Seq<PatchEventSpec> {
    v.map_values(|e: PatchDiffEvent| e@)
}

/// The kinds of path events.
#[derive(Clone, Copy)]
pub enum PathEventKind {
    Added,
    Updated,
    Deleted,
}

/// A path event of the given kind.
pub open spec fn path_event(kind: PathEventKind, p: Seq<char>) -> PatchEventSpec {
    match kind {
        PathEventKind::Added => PatchEventSpec::Added(p),
        PathEventKind::Updated => PatchEventSpec::Updated(p),
        PathEventKind::Deleted => PatchEventSpec::Deleted(p),
    }
}

/// One event of the given kind per path, in order.
pub open spec fn path_events(kind: PathEventKind, paths: Seq<Seq<char>>) -> Seq<PatchEventSpec> {
    paths.map_values(|p: Seq<char>| path_event(kind, p))
}

/// One move event per pair, in order.
pub open spec fn move_events(pairs: Seq<(Seq<char>, Seq<char>)>) -> Seq<PatchEventSpec> {
    pairs.map_values(|p: (Seq<char>, Seq<char>)| PatchEventSpec::Moved(p.0, p.1))
}

fn push_path_events(out: &mut Vec<PatchDiffEvent>, kind: PathEventKind, paths: Vec<String>)
    ensures
        event_views(final(out)@) == event_views(old(out)@) + path_events(kind, string_views(paths@)),
{
    let ghost start = event_views(out@);
    let mut i: usize = 0;
    let n = paths.len();
    while i < n
        invariant
            n == paths@.len(),
            i <= n,
            event_views(out@) == start + path_events(kind, string_views(paths@.take(i as int))),
        decreases n - i,
    {
        let p = paths[i].clone();
        let e = match kind {
            PathEventKind::Added => PatchDiffEvent::Added(p),
            PathEventKind::Updated => PatchDiffEvent::Updated(p),
            PathEventKind::Deleted => PatchDiffEvent::Deleted(p),
        };
        let ghost prev = out@;
        out.push(e);
        proof {
            assert(e@ == path_event(kind, paths@[i as int]@));
            assert(event_views(out@) =~= event_views(prev).push(e@));
            assert(paths@.take(i + 1) =~= paths@.take(i as int).push(paths@[i as int]));
            assert(path_events(kind, string_views(paths@.take(i + 1))) =~= path_events(
                kind,
                string_views(paths@.take(i as int)),
            ).push(path_event(kind, paths@[i as int]@)));
        }
        i = i + 1;
    }
    proof {
        assert(paths@.take(n as int) =~= paths@);
    }
}

fn push_move_events(out: &mut Vec<PatchDiffEvent>, pairs: Vec<(String, String)>)
    ensures
        event_views(final(out)@) == event_views(old(out)@) + move_events(pair_views(pairs@)),
{
    let ghost start = event_views(out@);
    let mut i: usize = 0;
    let n = pairs.len();
    while i < n
        invariant
            n == pairs@.len(),
            i <= n,
            event_views(out@) == start + move_events(pair_views(pairs@.take(i as int))),
        decreases n - i,
    {
        let from = pairs[i].0.clone();
        let to = pairs[i].1.clone();
        let e = PatchDiffEvent::Moved(from, to);
        let ghost prev = out@;
        out.push(e);
        proof {
            assert(event_views(out@) =~= event_views(prev).push(e@));
            assert(pairs@.take(i + 1) =~= pairs@.take(i as int).push(pairs@[i as int]));
            assert(move_events(pair_views(pairs@.take(i + 1))) =~= move_events(
                pair_views(pairs@.take(i as int)),
            ).push(e@));
        }
        i = i + 1;
    }
    proof {
        assert(pairs@.take(n as int) =~= pairs@);
    }
}

/// The operations a patch may hold.
#[derive(Clone, Copy, Debug, PartialEq, Eq)]
pub enum PatchOpKind {
    AssertExists,
    AssertNotExists,
    Add,
    SetFields,
    ReplaceTree,
    MergeTree,
    Delete,
    Move,
    Copy,
    EnsurePath,
    SortChildren,
    SetTreeMetadata,
    AddTree,
    Unsupported,
}

/// The operation an operation name stands for.
pub open spec fn op_kind(name: Seq<char>) -> PatchOpKind {
    if name == "assert_exists"@ {
        PatchOpKind::AssertExists
    } else if name == "assert_not_exists"@ {
        PatchOpKind::AssertNotExists
    } else if name == "add"@ {
        PatchOpKind::Add
    } else if name == "set"@ {
        PatchOpKind::SetFields
    } else if name == "replace_tree"@ {
        PatchOpKind::ReplaceTree
    } else if name == "merge_tree"@ {
        PatchOpKind::MergeTree
    } else if name == "delete"@ {
        PatchOpKind::Delete
    } else if name == "move"@ {
        PatchOpKind::Move
    } else if name == "copy"@ {
        PatchOpKind::Copy
    } else if name == "ensure_path"@ {
        PatchOpKind::EnsurePath
    } else if name == "sort_children"@ {
        PatchOpKind::SortChildren
    } else if name == "set_tree_metadata"@ {
        PatchOpKind::SetTreeMetadata
    } else if name == "add_tree"@ {
        PatchOpKind::AddTree
    } else {
        PatchOpKind::Unsupported
    }
}

/// The operation an operation name stands for.
pub fn op_kind_of(name: &str) -> (r: PatchOpKind)
    ensures
        r == op_kind(name@),
{
    if str_equal(name, "assert_exists") {
        PatchOpKind::AssertExists
    } else if str_equal(name, "assert_not_exists") {
        PatchOpKind::AssertNotExists
    } else if str_equal(name, "add") {
        PatchOpKind::Add
    } else if str_equal(name, "set") {
        PatchOpKind::SetFields
    } else if str_equal(name, "replace_tree") {
        PatchOpKind::ReplaceTree
    } else if str_equal(name, "merge_tree") {
        PatchOpKind::MergeTree
    } else if str_equal(name, "delete") {
        PatchOpKind::Delete
    } else if str_equal(name, "move") {
        PatchOpKind::Move
    } else if str_equal(name, "copy") {
        PatchOpKind::Copy
    } else if str_equal(name, "ensure_path") {
        PatchOpKind::EnsurePath
    } else if str_equal(name, "sort_children") {
        PatchOpKind::SortChildren
    } else if str_equal(name, "set_tree_metadata") {
        PatchOpKind::SetTreeMetadata
    } else if str_equal(name, "add_tree") {
        PatchOpKind::AddTree
    } else {
        PatchOpKind::Unsupported
    }
}

/// The events an operation contributes when it succeeds against the sheet under `root`;
/// `None` when it fails or is not supported.
#[verifier::opaque]
pub open spec fn op_events(root: Topic, op: PatchOpDto) -> Option<Seq<PatchEventSpec>> {
    let name = canonical_op_spec(op.op@);
    match op_kind(name) {
        PatchOpKind::AssertExists | PatchOpKind::AssertNotExists => if assert_passes(root, name, op) {
            Some(seq![])
        } else {
            None
        },
        PatchOpKind::Add => match add_result(root, op) {
            Some(p) => Some(seq![PatchEventSpec::Added(p)]),
            None => None,
        },
        PatchOpKind::SetFields => match set_result(root, op) {
            Some(p) => Some(seq![PatchEventSpec::Updated(p)]),
            None => None,
        },
        PatchOpKind::ReplaceTree => match replace_tree_result(root, op) {
            Some((d, a)) => Some(
                path_events(PathEventKind::Deleted, d) + path_events(PathEventKind::Added, a),
            ),
            None => None,
        },
        PatchOpKind::MergeTree => match merge_tree_result(root, op) {
            Some(m) => Some(
                path_events(PathEventKind::Updated, m.updated) + path_events(
                    PathEventKind::Added,
                    m.added,
                ) + path_events(PathEventKind::Deleted, m.deleted),
            ),
            None => None,
        },
        PatchOpKind::Delete => match delete_result(root, op) {
            Some((d, mv)) => Some(path_events(PathEventKind::Deleted, d) + move_events(mv)),
            None => None,
        },
        PatchOpKind::Move => match move_result(root, op) {
            Some((f, t)) => Some(seq![PatchEventSpec::Moved(f, t)]),
            None => None,
        },
        PatchOpKind::Copy => match copy_result(root, op) {
            Some(a) => Some(path_events(PathEventKind::Added, a)),
            None => None,
        },
        PatchOpKind::EnsurePath => match ensure_path_result(root, op) {
            Some(a) => Some(path_events(PathEventKind::Added, a)),
            None => None,
        },
        PatchOpKind::SortChildren => match sort_children_result(root, op) {
            Some(Some(p)) => Some(seq![PatchEventSpec::Updated(p)]),
            Some(None) => Some(seq![]),
            None => None,
        },
        PatchOpKind::SetTreeMetadata => match set_tree_metadata_result(root, op) {
            Some(u) => Some(path_events(PathEventKind::Updated, u)),
            None => None,
        },
        PatchOpKind::AddTree => match add_tree_result(root, op) {
            Some(a) => Some(path_events(PathEventKind::Added, a)),
            None => None,
        },
        PatchOpKind::Unsupported => None,
    }
}

/// The paths among `ps` that read as topic paths, read.
pub open spec fn parsed_paths(ps: Seq<Seq<char>>) -> Seq<Seq<Seq<char>>>
    decreases ps.len(),
{
    if ps.len() == 0 {
        seq![]
    } else {
        match crate::domain::path::parse_path_spec(ps.last()) {
            Ok(p) => parsed_paths(ps.drop_last()).push(p),
            Err(_) => parsed_paths(ps.drop_last()),
        }
    }
}

/// The deleted paths later operations may no longer reference, added by a successful
/// `delete` or `merge_tree`.
pub open spec fn deleted_refs(root: Topic, op: PatchOpDto) -> Seq<Seq<Seq<char>>> {
    match op_kind(canonical_op_spec(op.op@)) {
        PatchOpKind::Delete => match delete_result(root, op) {
            Some((d, _)) => parsed_paths(d),
            None => seq![],
        },
        PatchOpKind::MergeTree => match merge_tree_result(root, op) {
            Some(m) => parsed_paths(m.deleted),
            None => seq![],
        },
        _ => seq![],
    }
}

/// The selector arguments checked against deleted paths, in order.
pub open spec fn reference_fields(op: PatchOpDto) -> Seq<(Seq<char>, Option<String>)> {
    seq![("node"@, op.node), ("target"@, op.target), ("parent"@, op.parent), ("to"@, op.to)]
}

/// The path a selector argument names, when it is a `path:` selector at or below one of
/// the deleted paths.
pub open spec fn stale_reference(value: Option<String>, refs: Seq<Seq<Seq<char>>>) -> Option<
    Seq<Seq<char>>,
> {
    match value {
        Some(v) => match parse_selector_spec(v@) {
            Ok(SelectorSpec::Path(p)) => if exists|k: int|
                0 <= k < refs.len() && crate::domain::path::is_prefix_path(p, #[trigger] refs[k]) {
                Some(p)
            } else {
                None
            },
            _ => None,
        },
        None => None,
    }
}

/// The first selector argument, among the first `n` checked, that names a deleted
/// topic: the field and the path.
pub open spec fn first_stale(
    fields: Seq<(Seq<char>, Option<String>)>,
    refs: Seq<Seq<Seq<char>>>,
    n: int,
) -> Option<(Seq<char>, Seq<Seq<char>>)>
    decreases n,
{
    if n <= 0 || n > fields.len() {
        None
    } else {
        match first_stale(fields, refs, n - 1) {
            Some(x) => Some(x),
            None => match stale_reference(fields[n - 1].1, refs) {
                Some(p) => Some((fields[n - 1].0, p)),
                None => None,
            },
        }
    }
}

proof fn lemma_first_stale_stable(
    fields: Seq<(Seq<char>, Option<String>)>,
    refs: Seq<Seq<Seq<char>>>,
    n: int,
    m: int,
)
    requires
        0 < n <= m <= fields.len(),
        first_stale(fields, refs, n) is Some,
    ensures
        first_stale(fields, refs, m) == first_stale(fields, refs, n),
    decreases m - n,
{
    if m > n {
        lemma_first_stale_stable(fields, refs, n, m - 1);
    }
}

/// The first reference of an operation to a topic deleted earlier, if any.
pub open spec fn rejected_reference(op: PatchOpDto, refs: Seq<Seq<Seq<char>>>) -> Option<
    (Seq<char>, Seq<Seq<char>>),
> {
    first_stale(reference_fields(op), refs, 4)
}

/// The conflict reported for an operation that references a deleted topic.
pub open spec fn conflict_error_matches(
    e: CliErrorBody,
    index: usize,
    op: Seq<char>,
    field: Seq<char>,
    p: Seq<Seq<char>>,
) -> bool {
    let sel = render_selector_spec(SelectorSpec::Path(p));
    &&& op_error_matches(
        e,
        index,
        op,
        ErrorCode::PatchConflict,
        "Patch operation references a topic deleted by an earlier operation: "@ + sel,
        false,
        "Remove the later operation, or revise the earlier delete/prune operation so this path is preserved."@,
        Some(field),
    )
    &&& e.selector is Some
    &&& e.selector->0@ == sel
}

/// The topic paths by their views.
pub open spec fn path_views(v: Seq<TopicPath>) -> Seq<Seq<Seq<char>>> {
    v.map_values(|p: TopicPath| p@)
}

fn stale_path(value: &Option<String>, refs: &Vec<TopicPath>) -> (r: Option<TopicPath>)
    ensures
        match stale_reference(*value, path_views(refs@)) {
            Some(p) => r matches Some(x) && x@ == p,
            None => r is None,
        },
{
    let v = match value {
        Some(v) => v,
        None => return None,
    };
    let path = match Selector::parse(v.as_str()) {
        Ok(Selector::Path(p)) => p,
        _ => return None,
    };
    assert(parse_selector_spec(v@) == Ok::<SelectorSpec, crate::domain::selector::SelectorErrorSpec>(SelectorSpec::Path(path@)));
    let ghost rv = path_views(refs@);
    let mut k: usize = 0;
    while k < refs.len()
        invariant
            k <= refs@.len(),
            rv == path_views(refs@),
            rv.len() == refs@.len(),
            *value == Some(*v),
            parse_selector_spec(v@) == Ok::<SelectorSpec, crate::domain::selector::SelectorErrorSpec>(
                SelectorSpec::Path(path@),
            ),
            forall|j: int| 0 <= j < k ==> !crate::domain::path::is_prefix_path(path@, #[trigger] rv[j]),
        decreases refs@.len() - k,
    {
        if path.is_same_or_descendant_of(&refs[k]) {
            proof {
                assert(rv[k as int] == refs@[k as int]@);
                assert(crate::domain::path::is_prefix_path(path@, rv[k as int]));
            }
            return Some(path);
        }
        proof {
            assert(rv[k as int] == refs@[k as int]@);
        }
        k = k + 1;
    }
    None
}

/// Rejects an operation that references, through its node, target, parent or
/// destination, a topic deleted by an earlier operation.
pub fn reject_deleted_path_references(
    index: usize,
    op_name: &str,
    op: &PatchOpDto,
    refs: &Vec<TopicPath>,
) -> (r: Result<(), CliErrorBody>)
    ensures
        match rejected_reference(*op, path_views(refs@)) {
            Some((field, p)) => r matches Err(e) && conflict_error_matches(e, index, op_name@, field, p),
            None => r is Ok,
        },
{
    let ghost rv = path_views(refs@);
    let ghost fields = reference_fields(*op);
    let mut k: usize = 0;
    while k < 4
        invariant
            k <= 4,
            rv == path_views(refs@),
            fields == reference_fields(*op),
            first_stale(fields, rv, k as int) is None,
        decreases 4 - k,
    {
        let (name, value): (&str, &Option<String>) = if k == 0 {
            ("node", &op.node)
        } else if k == 1 {
            ("target", &op.target)
        } else if k == 2 {
            ("parent", &op.parent)
        } else {
            ("to", &op.to)
        };
        proof {
            assert(fields[k as int].0 == name@);
            assert(fields[k as int].1 == *value);
        }
        match stale_path(value, refs) {
            Some(p) => {
                let selector = Selector::Path(p);
                let rendered = selector.render();
                let msg = concat(
                    "Patch operation references a topic deleted by an earlier operation: ",
                    rendered.as_str(),
                );
                let e = op_error(
                    index,
                    op_name,
                    ErrorCode::PatchConflict,
                    msg,
                    false,
                    "Remove the later operation, or revise the earlier delete/prune operation so this path is preserved.",
                    Some(name),
                );
                proof {
                    assert(first_stale(fields, rv, k + 1) is Some);
                    lemma_first_stale_stable(fields, rv, k + 1, 4);
                }
                return Err(e.with_selector(rendered));
            },
            None => {},
        }
        k = k + 1;
    }
    Ok(())
}

/// The diff and the deleted paths after the first `n` operations, checked in order
/// against the sheet under `root`; `None` once one of them fails.
#[verifier::opaque]
pub open spec fn patch_state(root: Topic, ops: Seq<PatchOpDto>, n: int) -> Option<
    (Seq<PatchEventSpec>, Seq<Seq<Seq<char>>>),
>
    decreases n,
{
    if n <= 0 || n > ops.len() {
        Some((seq![], seq![]))
    } else {
        match patch_state(root, ops, n - 1) {
            None => None,
            Some((events, refs)) => {
                let op = ops[n - 1];
                if rejected_reference(op, refs) is Some {
                    None
                } else {
                    match op_events(root, op) {
                        Some(e) => Some((events + e, refs + deleted_refs(root, op))),
                        None => None,
                    }
                }
            },
        }
    }
}

/// The error an operation fails with, given the paths deleted before it: a reference
/// to a deleted topic, the operation's own error, or an unsupported operation.
pub open spec fn op_failure(
    root: Topic,
    sheet: Seq<char>,
    index: usize,
    op: PatchOpDto,
    refs: Seq<Seq<Seq<char>>>,
    e: CliErrorBody,
) -> bool {
    match rejected_reference(op, refs) {
        Some((field, p)) => conflict_error_matches(e, index, canonical_op_spec(op.op@), field, p),
        None => own_failure(root, sheet, index, op, e),
    }
}

/// The error an operation fails with by itself.
#[verifier::opaque]
pub open spec fn own_failure(
    root: Topic,
    sheet: Seq<char>,
    index: usize,
    op: PatchOpDto,
    e: CliErrorBody,
) -> bool {
    let name = canonical_op_spec(op.op@);
    match op_kind(name) {
        PatchOpKind::AssertExists | PatchOpKind::AssertNotExists => assert_matches(
            Err(e),
            root,
            sheet,
            index,
            name,
            op,
        ),
        PatchOpKind::Add => add_matches(Err(e), root, index, op),
        PatchOpKind::SetFields => set_matches(Err(e), root, sheet, index, op),
        PatchOpKind::ReplaceTree => replace_tree_matches(Err(e), root, sheet, index, op),
        PatchOpKind::MergeTree => merge_tree_matches(Err(e), root, sheet, index, op),
        PatchOpKind::Delete => delete_matches(Err(e), root, sheet, index, op),
        PatchOpKind::Move => move_matches(Err(e), root, sheet, index, op),
        PatchOpKind::Copy => copy_matches(Err(e), root, sheet, index, op),
        PatchOpKind::EnsurePath => ensure_path_matches(Err(e), root, index, op),
        PatchOpKind::SortChildren => sort_children_matches(Err(e), root, sheet, index, op),
        PatchOpKind::SetTreeMetadata => set_tree_metadata_matches(Err(e), root, sheet, index, op),
        PatchOpKind::AddTree => add_tree_matches(Err(e), root, index, op),
        PatchOpKind::Unsupported => usage_error_matches(
            e,
            index,
            name,
            "Unsupported patch operation: "@ + name,
            "Use add_tree for the current dry-run patch slice."@,
        ),
    }
}

/// The error a patch stops with: that of its first failing operation.
pub open spec fn patch_failure(root: Topic, sheet: Seq<char>, ops: Seq<PatchOpDto>, e: CliErrorBody) -> bool {
    exists|k: int|
        0 <= k < ops.len() && #[trigger] patch_state(root, ops, k) is Some && patch_state(
            root,
            ops,
            k + 1,
        ) is None && op_failure(root, sheet, k as usize, ops[k], refs_before(root, ops, k), e)
}

/// The deleted paths known before the operation at `k`.
pub open spec fn refs_before(root: Topic, ops: Seq<PatchOpDto>, k: int) -> Seq<Seq<Seq<char>>> {
    match patch_state(root, ops, k) {
        Some((_, refs)) => refs,
        None => seq![],
    }
}

/// The outcome recorded for an operation: assertions pass, edits are planned.
#[derive(Clone, Copy, Debug, PartialEq, Eq)]
pub enum PatchStatus {
    Passed,
    Planned,
}

/// The record of one checked operation.
#[derive(Debug, PartialEq, Eq)]
pub struct PatchOperationDto {
    pub index: usize,
    pub op: String,
    pub status: PatchStatus,
}

/// How many planned changes of each kind a patch holds.
#[derive(Clone, Copy, Debug, PartialEq, Eq)]
pub struct PatchSummaryDto {
    pub added: usize,
    pub updated: usize,
    pub deleted: usize,
    pub moved: usize,
}

/// The dry run of a patch: whether anything would change, the counts, each operation's
/// record and the diff.
#[derive(Debug, PartialEq, Eq)]
pub struct PatchDryRunResultDto {
    pub will_change: bool,
    pub summary: PatchSummaryDto,
    pub operations: Vec<PatchOperationDto>,
    pub diff: Vec<PatchDiffEvent>,
}

/// The record each operation gets when the whole patch passes.
pub open spec fn op_record(i: int, op: PatchOpDto) -> (int, Seq<char>, PatchStatus) {
    let name = canonical_op_spec(op.op@);
    (i, name, status_of(op_kind(name)))
}

/// The records by their views.
pub open spec fn record_views(v: Seq<PatchOperationDto>) -> Seq<(int, Seq<char>, PatchStatus)> {
    v.map_values(|o: PatchOperationDto| (o.index as int, o.op@, o.status))
}

/// The number of events satisfying `p`.
pub open spec fn count_patch_events(ev: Seq<PatchEventSpec>, p: spec_fn(PatchEventSpec) -> bool) -> nat
    decreases ev.len(),
{
    if ev.len() == 0 {
        0
    } else {
        count_patch_events(ev.drop_last(), p) + if p(ev.last()) {
            1nat
        } else {
            0nat
        }
    }
}

proof fn lemma_count_patch_events_bound(ev: Seq<PatchEventSpec>, p: spec_fn(PatchEventSpec) -> bool)
    ensures
        count_patch_events(ev, p) <= ev.len(),
    decreases ev.len(),
{
    if ev.len() > 0 {
        lemma_count_patch_events_bound(ev.drop_last(), p);
    }
}

/// Counts the events of each kind.
pub fn summarize_patch_diff(diff: &Vec<PatchDiffEvent>) -> (r: PatchSummaryDto)
    ensures
        r.added == count_patch_events(event_views(diff@), |e: PatchEventSpec| e is Added),
        r.updated == count_patch_events(event_views(diff@), |e: PatchEventSpec| e is Updated),
        r.deleted == count_patch_events(event_views(diff@), |e: PatchEventSpec| e is Deleted),
        r.moved == count_patch_events(event_views(diff@), |e: PatchEventSpec| e is Moved),
        r.added + r.updated + r.deleted + r.moved == diff@.len(),
{
    let ghost ev = event_views(diff@);
    let mut s = PatchSummaryDto { added: 0, updated: 0, deleted: 0, moved: 0 };
    let mut i: usize = 0;
    while i < diff.len()
        invariant
            i <= diff@.len(),
            ev == event_views(diff@),
            s.added == count_patch_events(ev.take(i as int), |e: PatchEventSpec| e is Added),
            s.updated == count_patch_events(ev.take(i as int), |e: PatchEventSpec| e is Updated),
            s.deleted == count_patch_events(ev.take(i as int), |e: PatchEventSpec| e is Deleted),
            s.moved == count_patch_events(ev.take(i as int), |e: PatchEventSpec| e is Moved),
            s.added + s.updated + s.deleted + s.moved == i,
        decreases diff@.len() - i,
    {
        proof {
            let t = ev.take(i + 1);
            assert(t.drop_last() == ev.take(i as int));
            assert(t.last() == diff@[i as int]@);
        }
        match &diff[i] {
            PatchDiffEvent::Added(_) => s.added = s.added + 1,
            PatchDiffEvent::Updated(_) => s.updated = s.updated + 1,
            PatchDiffEvent::Deleted(_) => s.deleted = s.deleted + 1,
            PatchDiffEvent::Moved(_, _) => s.moved = s.moved + 1,
        }
        i = i + 1;
    }
    proof {
        assert(ev.take(i as int) == ev);
    }
    s
}

fn remember_deleted_paths(refs: &mut Vec<TopicPath>, deleted: &Vec<String>)
    ensures
        path_views(final(refs)@) == path_views(old(refs)@) + parsed_paths(string_views(deleted@)),
{
    let ghost start = path_views(refs@);
    let mut i: usize = 0;
    while i < deleted.len()
        invariant
            i <= deleted@.len(),
            path_views(refs@) == start + parsed_paths(string_views(deleted@.take(i as int))),
        decreases deleted@.len() - i,
    {
        let ghost prev = refs@;
        proof {
            assert(string_views(deleted@.take(i + 1)).drop_last() =~= string_views(
                deleted@.take(i as int),
            ));
            assert(string_views(deleted@.take(i + 1)).last() == deleted@[i as int]@);
        }
        match TopicPath::parse_selector_value(deleted[i].as_str()) {
            Ok(p) => {
                refs.push(p);
                proof {
                    assert(path_views(refs@) =~= path_views(prev).push(refs@.last()@));
                }
            },
            Err(_) => {},
        }
        i = i + 1;
    }
    proof {
        assert(deleted@.take(i as int) =~= deleted@);
    }
}

/// The status recorded for an operation named `name`.
pub open spec fn status_of(kind: PatchOpKind) -> PatchStatus {
    match kind {
        PatchOpKind::AssertExists | PatchOpKind::AssertNotExists => PatchStatus::Passed,
        _ => PatchStatus::Planned,
    }
}

/// What checking one operation does to the diff `d0` and the deleted paths `f0`.
#[verifier::opaque]
pub open spec fn step_matches(
    root: Topic,
    sheet: Seq<char>,
    index: usize,
    op: PatchOpDto,
    r: Result<(), CliErrorBody>,
    d0: Seq<PatchDiffEvent>,
    d1: Seq<PatchDiffEvent>,
    f0: Seq<TopicPath>,
    f1: Seq<TopicPath>,
) -> bool {
    match op_events(root, op) {
        Some(ev) => r is Ok && event_views(d1) == event_views(d0) + ev && path_views(f1) == path_views(
            f0,
        ) + deleted_refs(root, op),
        None => r matches Err(e) && own_failure(root, sheet, index, op, e),
    }
}

fn apply_assert(root: &Topic, sheet_title: &str, index: usize, op: &PatchOpDto, name: &str, diff: &Vec<PatchDiffEvent>, refs: &Vec<TopicPath>) -> (r: Result<(), CliErrorBody>)
    requires
        name@ == canonical_op_spec(op.op@),
        op_kind(name@) == PatchOpKind::AssertExists || op_kind(name@) == PatchOpKind::AssertNotExists,
    ensures
        step_matches(*root, sheet_title@, index, *op, r, diff@, diff@, refs@, refs@),
{
    proof {
        reveal(step_matches);
        reveal(op_events);
        reveal(own_failure);
    }
    let r = render_patch_assert_operation(root, sheet_title, index, name, op);
    proof {
        assert(event_views(diff@) =~= event_views(diff@) + seq![]);
        assert(path_views(refs@) =~= path_views(refs@) + deleted_refs(*root, *op));
    }
    r
}

fn apply_add(root: &Topic, sheet_title: &str, index: usize, op: &PatchOpDto, diff: &mut Vec<PatchDiffEvent>, refs: &Vec<TopicPath>) -> (r: Result<(), CliErrorBody>)
    requires
        op_kind(canonical_op_spec(op.op@)) == PatchOpKind::Add,
    ensures
        step_matches(*root, sheet_title@, index, *op, r, old(diff)@, final(diff)@, refs@, refs@),
{
    proof {
        reveal(step_matches);
        reveal(op_events);
        reveal(own_failure);
    }
    match plan_patch_add(root, index, op) {
        Ok(p) => {
            let ghost d0 = event_views(diff@);
            diff.push(PatchDiffEvent::Added(p));
            proof {
                assert(event_views(diff@) =~= d0 + seq![PatchEventSpec::Added(p@)]);
                assert(path_views(refs@) =~= path_views(refs@) + deleted_refs(*root, *op));
            }
            Ok(())
        },
        Err(e) => Err(e),
    }
}

fn apply_set(root: &Topic, sheet_title: &str, index: usize, op: &PatchOpDto, diff: &mut Vec<PatchDiffEvent>, refs: &Vec<TopicPath>) -> (r: Result<(), CliErrorBody>)
    requires
        op_kind(canonical_op_spec(op.op@)) == PatchOpKind::SetFields,
    ensures
        step_matches(*root, sheet_title@, index, *op, r, old(diff)@, final(diff)@, refs@, refs@),
{
    proof {
        reveal(step_matches);
        reveal(op_events);
        reveal(own_failure);
    }
    match plan_patch_set(root, sheet_title, index, op) {
        Ok(p) => {
            let ghost d0 = event_views(diff@);
            diff.push(PatchDiffEvent::Updated(p));
            proof {
                assert(event_views(diff@) =~= d0 + seq![PatchEventSpec::Updated(p@)]);
                assert(path_views(refs@) =~= path_views(refs@) + deleted_refs(*root, *op));
            }
            Ok(())
        },
        Err(e) => Err(e),
    }
}

fn apply_replace_tree(root: &Topic, sheet_title: &str, index: usize, op: &PatchOpDto, diff: &mut Vec<PatchDiffEvent>, refs: &Vec<TopicPath>) -> (r: Result<(), CliErrorBody>)
    requires
        op_kind(canonical_op_spec(op.op@)) == PatchOpKind::ReplaceTree,
    ensures
        step_matches(*root, sheet_title@, index, *op, r, old(diff)@, final(diff)@, refs@, refs@),
{
    proof {
        reveal(step_matches);
        reveal(op_events);
        reveal(own_failure);
    }
    match plan_patch_replace_tree(root, sheet_title, index, op) {
        Ok((deleted, added)) => {
            let ghost d0 = event_views(diff@);
            let ghost a = path_events(PathEventKind::Deleted, string_views(deleted@));
            let ghost b = path_events(PathEventKind::Added, string_views(added@));
            push_path_events(diff, PathEventKind::Deleted, deleted);
            push_path_events(diff, PathEventKind::Added, added);
            proof {
                assert(event_views(diff@) =~= d0 + (a + b));
                assert(path_views(refs@) =~= path_views(refs@) + deleted_refs(*root, *op));
            }
            Ok(())
        },
        Err(e) => Err(e),
    }
}

fn apply_merge_tree(root: &Topic, sheet_title: &str, index: usize, op: &PatchOpDto, diff: &mut Vec<PatchDiffEvent>, refs: &mut Vec<TopicPath>) -> (r: Result<(), CliErrorBody>)
    requires
        op_kind(canonical_op_spec(op.op@)) == PatchOpKind::MergeTree,
    ensures
        step_matches(*root, sheet_title@, index, *op, r, old(diff)@, final(diff)@, old(refs)@, final(refs)@),
{
    proof {
        reveal(step_matches);
        reveal(op_events);
        reveal(own_failure);
    }
    match plan_patch_merge_tree(root, sheet_title, index, op) {
        Ok(plan) => {
            let ghost d0 = event_views(diff@);
            let ghost u = path_events(PathEventKind::Updated, string_views(plan.updated_paths@));
            let ghost a = path_events(PathEventKind::Added, string_views(plan.added_paths@));
            let ghost d = path_events(PathEventKind::Deleted, string_views(plan.deleted_paths@));
            remember_deleted_paths(refs, &plan.deleted_paths);
            push_path_events(diff, PathEventKind::Updated, plan.updated_paths);
            push_path_events(diff, PathEventKind::Added, plan.added_paths);
            push_path_events(diff, PathEventKind::Deleted, plan.deleted_paths);
            proof {
                assert(event_views(diff@) =~= d0 + (u + a + d));
            }
            Ok(())
        },
        Err(e) => Err(e),
    }
}

fn apply_delete(root: &Topic, sheet_title: &str, index: usize, op: &PatchOpDto, diff: &mut Vec<PatchDiffEvent>, refs: &mut Vec<TopicPath>) -> (r: Result<(), CliErrorBody>)
    requires
        op_kind(canonical_op_spec(op.op@)) == PatchOpKind::Delete,
    ensures
        step_matches(*root, sheet_title@, index, *op, r, old(diff)@, final(diff)@, old(refs)@, final(refs)@),
{
    proof {
        reveal(step_matches);
        reveal(op_events);
        reveal(own_failure);
    }
    match plan_patch_delete(root, sheet_title, index, op) {
        Ok(plan) => {
            let ghost d0 = event_views(diff@);
            let ghost d = path_events(PathEventKind::Deleted, string_views(plan.deleted_paths@));
            let ghost mv = move_events(pair_views(plan.moved_paths@));
            remember_deleted_paths(refs, &plan.deleted_paths);
            push_path_events(diff, PathEventKind::Deleted, plan.deleted_paths);
            push_move_events(diff, plan.moved_paths);
            proof {
                assert(event_views(diff@) =~= d0 + (d + mv));
            }
            Ok(())
        },
        Err(e) => Err(e),
    }
}

fn apply_move(root: &Topic, sheet_title: &str, index: usize, op: &PatchOpDto, diff: &mut Vec<PatchDiffEvent>, refs: &Vec<TopicPath>) -> (r: Result<(), CliErrorBody>)
    requires
        op_kind(canonical_op_spec(op.op@)) == PatchOpKind::Move,
    ensures
        step_matches(*root, sheet_title@, index, *op, r, old(diff)@, final(diff)@, refs@, refs@),
{
    proof {
        reveal(step_matches);
        reveal(op_events);
        reveal(own_failure);
    }
    match plan_patch_move(root, sheet_title, index, op) {
        Ok((from, to)) => {
            let ghost d0 = event_views(diff@);
            let ghost f = from@;
            let ghost t = to@;
            diff.push(PatchDiffEvent::Moved(from, to));
            proof {
                assert(event_views(diff@) =~= d0 + seq![PatchEventSpec::Moved(f, t)]);
                assert(path_views(refs@) =~= path_views(refs@) + deleted_refs(*root, *op));
            }
            Ok(())
        },
        Err(e) => Err(e),
    }
}

fn apply_copy(root: &Topic, sheet_title: &str, index: usize, op: &PatchOpDto, diff: &mut Vec<PatchDiffEvent>, refs: &Vec<TopicPath>) -> (r: Result<(), CliErrorBody>)
    requires
        op_kind(canonical_op_spec(op.op@)) == PatchOpKind::Copy,
    ensures
        step_matches(*root, sheet_title@, index, *op, r, old(diff)@, final(diff)@, refs@, refs@),
{
    proof {
        reveal(step_matches);
        reveal(op_events);
        reveal(own_failure);
    }
    match plan_patch_copy(root, sheet_title, index, op) {
        Ok(added) => {
            push_path_events(diff, PathEventKind::Added, added);
            proof {
                assert(path_views(refs@) =~= path_views(refs@) + deleted_refs(*root, *op));
            }
            Ok(())
        },
        Err(e) => Err(e),
    }
}

fn apply_ensure_path(root: &Topic, sheet_title: &str, index: usize, op: &PatchOpDto, diff: &mut Vec<PatchDiffEvent>, refs: &Vec<TopicPath>) -> (r: Result<(), CliErrorBody>)
    requires
        op_kind(canonical_op_spec(op.op@)) == PatchOpKind::EnsurePath,
    ensures
        step_matches(*root, sheet_title@, index, *op, r, old(diff)@, final(diff)@, refs@, refs@),
{
    proof {
        reveal(step_matches);
        reveal(op_events);
        reveal(own_failure);
    }
    match plan_patch_ensure_path(root, index, op) {
        Ok(added) => {
            push_path_events(diff, PathEventKind::Added, added);
            proof {
                assert(path_views(refs@) =~= path_views(refs@) + deleted_refs(*root, *op));
            }
            Ok(())
        },
        Err(e) => Err(e),
    }
}

fn apply_sort_children(root: &Topic, sheet_title: &str, index: usize, op: &PatchOpDto, diff: &mut Vec<PatchDiffEvent>, refs: &Vec<TopicPath>) -> (r: Result<(), CliErrorBody>)
    requires
        op_kind(canonical_op_spec(op.op@)) == PatchOpKind::SortChildren,
    ensures
        step_matches(*root, sheet_title@, index, *op, r, old(diff)@, final(diff)@, refs@, refs@),
{
    proof {
        reveal(step_matches);
        reveal(op_events);
        reveal(own_failure);
    }
    match plan_patch_sort_children(root, sheet_title, index, op) {
        Ok(updated) => {
            let ghost d0 = event_views(diff@);
            match updated {
                Some(p) => {
                    diff.push(PatchDiffEvent::Updated(p));
                    proof {
                        assert(event_views(diff@) =~= d0 + seq![PatchEventSpec::Updated(p@)]);
                    }
                },
                None => {
                    proof {
                        assert(event_views(diff@) =~= d0 + seq![]);
                    }
                },
            }
            proof {
                assert(path_views(refs@) =~= path_views(refs@) + deleted_refs(*root, *op));
            }
            Ok(())
        },
        Err(e) => Err(e),
    }
}

fn apply_set_tree_metadata(root: &Topic, sheet_title: &str, index: usize, op: &PatchOpDto, diff: &mut Vec<PatchDiffEvent>, refs: &Vec<TopicPath>) -> (r: Result<(), CliErrorBody>)
    requires
        op_kind(canonical_op_spec(op.op@)) == PatchOpKind::SetTreeMetadata,
    ensures
        step_matches(*root, sheet_title@, index, *op, r, old(diff)@, final(diff)@, refs@, refs@),
{
    proof {
        reveal(step_matches);
        reveal(op_events);
        reveal(own_failure);
    }
    match plan_patch_set_tree_metadata(root, sheet_title, index, op) {
        Ok(updated) => {
            push_path_events(diff, PathEventKind::Updated, updated);
            proof {
                assert(path_views(refs@) =~= path_views(refs@) + deleted_refs(*root, *op));
            }
            Ok(())
        },
        Err(e) => Err(e),
    }
}

fn apply_add_tree(root: &Topic, sheet_title: &str, index: usize, op: &PatchOpDto, diff: &mut Vec<PatchDiffEvent>, refs: &Vec<TopicPath>) -> (r: Result<(), CliErrorBody>)
    requires
        op_kind(canonical_op_spec(op.op@)) == PatchOpKind::AddTree,
    ensures
        step_matches(*root, sheet_title@, index, *op, r, old(diff)@, final(diff)@, refs@, refs@),
{
    proof {
        reveal(step_matches);
        reveal(op_events);
        reveal(own_failure);
    }
    match plan_patch_add_tree(root, index, op) {
        Ok(added) => {
            push_path_events(diff, PathEventKind::Added, added);
            proof {
                assert(path_views(refs@) =~= path_views(refs@) + deleted_refs(*root, *op));
            }
            Ok(())
        },
        Err(e) => Err(e),
    }
}

/// Checks one operation and adds what it plans to the diff and to the deleted paths.
fn plan_one_operation(
    root: &Topic,
    sheet_title: &str,
    index: usize,
    op: &PatchOpDto,
    diff: &mut Vec<PatchDiffEvent>,
    refs: &mut Vec<TopicPath>,
) -> (r: Result<(), CliErrorBody>)
    ensures
        step_matches(*root, sheet_title@, index, *op, r, old(diff)@, final(diff)@, old(refs)@, final(refs)@),
{
    let name = op.canonical_op();
    proof {
        reveal(step_matches);
        reveal(op_events);
        reveal(own_failure);
    }
    match op_kind_of(name) {
        PatchOpKind::AssertExists | PatchOpKind::AssertNotExists => apply_assert(
            root,
            sheet_title,
            index,
            op,
            name,
            diff,
            refs,
        ),
        PatchOpKind::Add => apply_add(root, sheet_title, index, op, diff, refs),
        PatchOpKind::SetFields => apply_set(root, sheet_title, index, op, diff, refs),
        PatchOpKind::ReplaceTree => apply_replace_tree(root, sheet_title, index, op, diff, refs),
        PatchOpKind::MergeTree => apply_merge_tree(root, sheet_title, index, op, diff, refs),
        PatchOpKind::Delete => apply_delete(root, sheet_title, index, op, diff, refs),
        PatchOpKind::Move => apply_move(root, sheet_title, index, op, diff, refs),
        PatchOpKind::Copy => apply_copy(root, sheet_title, index, op, diff, refs),
        PatchOpKind::EnsurePath => apply_ensure_path(root, sheet_title, index, op, diff, refs),
        PatchOpKind::SortChildren => apply_sort_children(root, sheet_title, index, op, diff, refs),
        PatchOpKind::SetTreeMetadata => apply_set_tree_metadata(
            root,
            sheet_title,
            index,
            op,
            diff,
            refs,
        ),
        PatchOpKind::AddTree => apply_add_tree(root, sheet_title, index, op, diff, refs),
        PatchOpKind::Unsupported => {
            let msg = concat("Unsupported patch operation: ", name);
            Err(
                op_error(
                    index,
                    name,
                    ErrorCode::InvalidPatch,
                    msg,
                    true,
                    "Use add_tree for the current dry-run patch slice.",
                    None,
                ),
            )
        },
    }
}

proof fn lemma_patch_rejected(
    root: Topic,
    sheet: Seq<char>,
    ops: Seq<PatchOpDto>,
    k: int,
    ev: Seq<PatchEventSpec>,
    refs: Seq<Seq<Seq<char>>>,
    e: CliErrorBody,
)
    requires
        0 <= k < ops.len(),
        patch_state(root, ops, k) == Some((ev, refs)),
        match rejected_reference(ops[k], refs) {
            Some((field, p)) => conflict_error_matches(
                e,
                k as usize,
                canonical_op_spec(ops[k].op@),
                field,
                p,
            ),
            None => false,
        },
    ensures
        patch_failure(root, sheet, ops, e),
        patch_state(root, ops, k + 1) is None,
{
    reveal(patch_state);
    assert(patch_state(root, ops, k + 1) is None);
    assert(refs_before(root, ops, k) == refs);
    assert(op_failure(root, sheet, k as usize, ops[k], refs_before(root, ops, k), e));
}

proof fn lemma_patch_stays_failed(root: Topic, ops: Seq<PatchOpDto>, k: int, m: int)
    requires
        0 <= k <= m <= ops.len(),
        patch_state(root, ops, k) is None,
    ensures
        patch_state(root, ops, m) is None,
    decreases m - k,
{
    reveal(patch_state);
    if m > k {
        lemma_patch_stays_failed(root, ops, k, m - 1);
    }
}

proof fn lemma_patch_step(
    root: Topic,
    sheet: Seq<char>,
    ops: Seq<PatchOpDto>,
    k: int,
    d0: Seq<PatchDiffEvent>,
    f0: Seq<TopicPath>,
    r: Result<(), CliErrorBody>,
    d1: Seq<PatchDiffEvent>,
    f1: Seq<TopicPath>,
)
    requires
        0 <= k < ops.len(),
        patch_state(root, ops, k) == Some((event_views(d0), path_views(f0))),
        rejected_reference(ops[k], path_views(f0)) is None,
        step_matches(root, sheet, k as usize, ops[k], r, d0, d1, f0, f1),
    ensures
        r is Ok ==> patch_state(root, ops, k + 1) == Some((event_views(d1), path_views(f1))),
        r matches Err(e) ==> patch_failure(root, sheet, ops, e) && patch_state(root, ops, k + 1) is None,
{
    reveal(step_matches);
    reveal(patch_state);
    match r {
        Ok(()) => {},
        Err(e) => {
            assert(patch_state(root, ops, k + 1) is None);
            assert(refs_before(root, ops, k) == path_views(f0));
            assert(op_failure(root, sheet, k as usize, ops[k], refs_before(root, ops, k), e));
        },
    }
}

/// The counts of a planned diff.
pub open spec fn summary_matches(s: PatchSummaryDto, ev: Seq<PatchEventSpec>) -> bool {
    &&& s.added == count_patch_events(ev, |e: PatchEventSpec| e is Added)
    &&& s.updated == count_patch_events(ev, |e: PatchEventSpec| e is Updated)
    &&& s.deleted == count_patch_events(ev, |e: PatchEventSpec| e is Deleted)
    &&& s.moved == count_patch_events(ev, |e: PatchEventSpec| e is Moved)
}

/// The records of the first `n` operations.
pub open spec fn op_records(ops: Seq<PatchOpDto>, n: int) -> Seq<(int, Seq<char>, PatchStatus)> {
    Seq::new(n as nat, |i: int| op_record(i, ops[i]))
}

/// Checks the operations of a patch in order against the sheet under `root` (titled
/// `sheet_title`) and plans the diff they make, each operation seeing the sheet as it is:
/// the dry run succeeds when every operation does, and otherwise reports the error of
/// the first one that fails. An operation may not reference, by a `path:` selector, a
/// topic that an earlier `delete` or pruning `merge_tree` removes.
pub fn plan_patch_operations(root: &Topic, sheet_title: &str, ops: &Vec<PatchOpDto>) -> (r: Result<
    PatchDryRunResultDto,
    CliErrorBody,
>)
    ensures
        match patch_state(*root, ops@, ops@.len() as int) {
            Some((ev, _)) => r matches Ok(plan) && event_views(plan.diff@) == ev && record_views(
                plan.operations@,
            ) == op_records(ops@, ops@.len() as int) && summary_matches(plan.summary, ev)
                && plan.will_change == (ev.len() > 0),
            None => r matches Err(e) && patch_failure(*root, sheet_title@, ops@, e),
        },
{
    let mut operations: Vec<PatchOperationDto> = Vec::new();
    let mut diff: Vec<PatchDiffEvent> = Vec::new();
    let mut refs: Vec<TopicPath> = Vec::new();
    let mut index: usize = 0;
    proof {
        reveal(patch_state);
        assert(event_views(diff@) =~= Seq::<PatchEventSpec>::empty());
        assert(path_views(refs@) =~= Seq::<Seq<Seq<char>>>::empty());
        assert(record_views(operations@) =~= op_records(ops@, 0));
    }
    while index < ops.len()
        invariant
            index <= ops@.len(),
            patch_state(*root, ops@, index as int) == Some((event_views(diff@), path_views(refs@))),
            record_views(operations@) == op_records(ops@, index as int),
        decreases ops@.len() - index,
    {
        let op = &ops[index];
        let name = op.canonical_op();
        let ghost refs0 = path_views(refs@);
        let ghost diff0 = event_views(diff@);
        match reject_deleted_path_references(index, name, op, &refs) {
            Ok(()) => {},
            Err(e) => {
                proof {
                    lemma_patch_rejected(*root, sheet_title@, ops@, index as int, diff0, refs0, e);
                    lemma_patch_stays_failed(*root, ops@, index + 1, ops@.len() as int);
                }
                return Err(e);
            },
        }
        let ghost d0 = diff@;
        let ghost f0 = refs@;
        let step = plan_one_operation(root, sheet_title, index, op, &mut diff, &mut refs);
        proof {
            lemma_patch_step(*root, sheet_title@, ops@, index as int, d0, f0, step, diff@, refs@);
        }
        match step {
            Ok(()) => {},
            Err(e) => {
                proof {
                    lemma_patch_stays_failed(*root, ops@, index + 1, ops@.len() as int);
                }
                return Err(e);
            },
        }
        let kind = op_kind_of(name);
        let status = match kind {
            PatchOpKind::AssertExists | PatchOpKind::AssertNotExists => PatchStatus::Passed,
            _ => PatchStatus::Planned,
        };
        let ghost before = operations@;
        let record = PatchOperationDto { index, op: name.to_owned(), status };
        proof {
            assert((record.index as int, record.op@, record.status) == op_record(index as int, ops@[index as int]));
        }
        operations.push(record);
        proof {
            assert(record_views(operations@) =~= record_views(before).push(op_record(index as int, ops@[index as int])));
            assert(record_views(operations@) =~= op_records(ops@, index + 1));
        }
        index = index + 1;
    }
    let summary = summarize_patch_diff(&diff);
    let will_change = diff.len() > 0;
    Ok(PatchDryRunResultDto { will_change, summary, operations, diff })
}

} // verus!

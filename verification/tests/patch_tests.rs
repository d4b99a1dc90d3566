use xmind_cli::app::patch::{
    plan_patch_operations, MergeMatch, PatchDiffEvent, PatchOpDto, PatchStatus,
};
use xmind_cli::app::tree_input::TopicTreeInputDto;
use xmind_cli::cli::output::ErrorCode;
use xmind_cli::domain::topic::{Topic, TopicId};
use xmind_cli::infra::xmind::json::{JsonMember, JsonValue};

fn topic(id: &str, title: &str, children: Vec<Topic>) -> Topic {
    Topic {
        id: TopicId(id.to_owned()),
        title: title.to_owned(),
        note: None,
        labels: Vec::new(),
        markers: Vec::new(),
        hyperlink: None,
        image: None,
        children,
    }
}

fn sample() -> Topic {
    topic(
        "root",
        "Roadmap",
        vec![
            topic(
                "q2",
                "Q2",
                vec![topic("pay", "Payment", vec![topic("ref", "Refund", vec![])]), topic("risk", "Risk", vec![])],
            ),
            topic("q3", "Q3", vec![]),
        ],
    )
}

fn op(name: &str) -> PatchOpDto {
    PatchOpDto {
        op: name.to_owned(),
        node: None,
        parent: None,
        target: None,
        to: None,
        position: None,
        path: None,
        title: None,
        fields: None,
        tree: None,
        match_by: None,
        prune: None,
        children_only: None,
        promote_children: None,
        preserve_ids: None,
        by: None,
        order: None,
        recursive: None,
        add_labels: None,
    }
}

fn added(p: &str) -> PatchDiffEvent {
    PatchDiffEvent::Added(p.to_owned())
}

fn deleted(p: &str) -> PatchDiffEvent {
    PatchDiffEvent::Deleted(p.to_owned())
}

fn updated(p: &str) -> PatchDiffEvent {
    PatchDiffEvent::Updated(p.to_owned())
}

#[test]
fn patch_plans_each_operation_in_order() {
    let root = sample();
    let mut add = op("add");
    add.parent = Some("path:/Q3".to_owned());
    add.title = Some("  Launch ".to_owned());
    let mut mv = op("move_tree");
    mv.node = Some("title:Risk".to_owned());
    mv.to = Some("path:/Q3".to_owned());
    let mut check = op("assert_exists");
    check.node = Some("id:pay".to_owned());
    let plan = plan_patch_operations(&root, "Sheet 1", &vec![add, mv, check]).expect("patch plans");
    assert_eq!(
        plan.diff,
        vec![added("/Q3/Launch"), PatchDiffEvent::Moved("/Q2/Risk".to_owned(), "/Q3/Risk".to_owned())]
    );
    assert_eq!(plan.operations.len(), 3);
    assert_eq!(plan.operations[1].op, "move");
    assert_eq!(plan.operations[1].status, PatchStatus::Planned);
    assert_eq!(plan.operations[2].status, PatchStatus::Passed);
    assert_eq!(plan.summary.added, 1);
    assert_eq!(plan.summary.moved, 1);
    assert!(plan.will_change);
}

#[test]
fn empty_patch_changes_nothing() {
    let plan = plan_patch_operations(&sample(), "Sheet 1", &vec![]).expect("patch plans");
    assert!(!plan.will_change);
    assert!(plan.diff.is_empty());
}

#[test]
fn delete_lists_subtree_and_blocks_later_references() {
    let root = sample();
    let mut del = op("delete");
    del.node = Some("path:/Q2/Payment".to_owned());
    let plan = plan_patch_operations(&root, "S", &vec![del]).expect("delete plans");
    assert_eq!(plan.diff, vec![deleted("/Q2/Payment"), deleted("/Q2/Payment/Refund")]);

    let mut del = op("delete");
    del.node = Some("path:/Q2/Payment".to_owned());
    let mut set = op("set");
    set.node = Some("path:/Q2/Payment/Refund".to_owned());
    set.fields = Some(vec![JsonMember { key: "note".to_owned(), value: JsonValue::Null }]);
    let err = plan_patch_operations(&root, "S", &vec![del, set]).expect_err("conflict");
    assert_eq!(err.code, ErrorCode::PatchConflict);
    assert_eq!(err.operation_index, Some(1));
    assert_eq!(err.field_path.as_deref(), Some("ops[1].node"));
    assert_eq!(err.selector.as_deref(), Some("path:/Q2/Payment/Refund"));
    assert!(!err.retryable);
}

#[test]
fn delete_modes_children_only_and_promote() {
    let root = sample();
    let mut del = op("delete");
    del.node = Some("path:/Q2".to_owned());
    del.children_only = Some(true);
    let plan = plan_patch_operations(&root, "S", &vec![del]).expect("plans");
    assert_eq!(
        plan.diff,
        vec![deleted("/Q2/Payment"), deleted("/Q2/Payment/Refund"), deleted("/Q2/Risk")]
    );
    let mut del = op("delete");
    del.node = Some("path:/Q2".to_owned());
    del.promote_children = Some(true);
    let plan = plan_patch_operations(&root, "S", &vec![del]).expect("plans");
    assert_eq!(
        plan.diff,
        vec![
            deleted("/Q2"),
            PatchDiffEvent::Moved("/Q2/Payment".to_owned(), "/Payment".to_owned()),
            PatchDiffEvent::Moved("/Q2/Risk".to_owned(), "/Risk".to_owned()),
        ]
    );
    let mut both = op("delete");
    both.node = Some("path:/Q2".to_owned());
    both.promote_children = Some(true);
    both.children_only = Some(true);
    let err = plan_patch_operations(&root, "S", &vec![both]).expect_err("modes conflict");
    assert_eq!(err.field_path.as_deref(), Some("ops[0].children_only"));
}

#[test]
fn root_cannot_be_deleted_moved_or_copied() {
    let root = sample();
    for name in ["delete", "move", "copy"] {
        let mut o = op(name);
        o.node = Some("root".to_owned());
        o.to = Some("path:/Q3".to_owned());
        let err = plan_patch_operations(&root, "S", &vec![o]).expect_err("root refused");
        assert_eq!(err.code, ErrorCode::RootOperationNotAllowed);
        assert_eq!(err.selector.as_deref(), Some("root"));
    }
}

#[test]
fn move_into_own_subtree_is_a_conflict() {
    let mut mv = op("move");
    mv.node = Some("path:/Q2".to_owned());
    mv.to = Some("path:/Q2/Payment".to_owned());
    let err = plan_patch_operations(&sample(), "S", &vec![mv]).expect_err("conflict");
    assert_eq!(err.code, ErrorCode::PatchConflict);
    assert_eq!(err.message, "Cannot move a topic into itself or one of its descendants.");
}

#[test]
fn copy_lists_copied_paths_and_refuses_preserved_ids() {
    let root = sample();
    let mut cp = op("clone_tree");
    cp.node = Some("path:/Q2/Payment".to_owned());
    cp.to = Some("path:/Q3".to_owned());
    cp.title = Some("Payments".to_owned());
    let plan = plan_patch_operations(&root, "S", &vec![cp]).expect("copy plans");
    assert_eq!(plan.diff, vec![added("/Q3/Payments"), added("/Q3/Payments/Refund")]);
    let mut cp = op("copy");
    cp.node = Some("path:/Q2/Payment".to_owned());
    cp.to = Some("path:/Q3".to_owned());
    cp.preserve_ids = Some(true);
    let err = plan_patch_operations(&root, "S", &vec![cp]).expect_err("ids refused");
    assert_eq!(err.field_path.as_deref(), Some("ops[0].preserve_ids"));
}

#[test]
fn position_anchor_must_be_a_child_of_the_destination() {
    let root = sample();
    let mut mv = op("move");
    mv.node = Some("path:/Q3".to_owned());
    mv.to = Some("path:/Q2".to_owned());
    mv.position = Some("before:path:/Q2/Risk".to_owned());
    assert!(plan_patch_operations(&root, "S", &vec![mv]).is_ok());
    let mut mv = op("move");
    mv.node = Some("path:/Q3".to_owned());
    mv.to = Some("path:/Q2".to_owned());
    mv.position = Some("after:path:/Q2/Payment/Refund".to_owned());
    let err = plan_patch_operations(&root, "S", &vec![mv]).expect_err("anchor elsewhere");
    assert_eq!(err.field_path.as_deref(), Some("ops[0].position"));
    let mut mv = op("move");
    mv.node = Some("path:/Q3".to_owned());
    mv.to = Some("path:/Q2".to_owned());
    mv.position = Some("middle".to_owned());
    let err = plan_patch_operations(&root, "S", &vec![mv]).expect_err("bad position");
    assert_eq!(err.message, "position is not supported: middle");
}

#[test]
fn set_renames_and_validates_fields() {
    let root = sample();
    let mut set = op("set");
    set.node = Some("title:Risk".to_owned());
    set.fields = Some(vec![JsonMember {
        key: "title".to_owned(),
        value: JsonValue::String("Risks".to_owned()),
    }]);
    let plan = plan_patch_operations(&root, "S", &vec![set]).expect("set plans");
    assert_eq!(plan.diff, vec![updated("/Q2/Risks")]);
    let mut set = op("set");
    set.node = Some("title:Risk".to_owned());
    set.fields = Some(vec![JsonMember { key: "colour".to_owned(), value: JsonValue::Null }]);
    let err = plan_patch_operations(&root, "S", &vec![set]).expect_err("unknown field");
    assert_eq!(err.message, "set operation field is invalid: colour");
    assert_eq!(err.field_path.as_deref(), Some("ops[0].fields.colour"));
}

#[test]
fn ambiguous_and_missing_selectors_report_candidates() {
    let root = topic("r", "R", vec![topic("a", "X", vec![]), topic("b", "X", vec![])]);
    let mut set = op("set");
    set.node = Some("title:X".to_owned());
    set.fields = Some(vec![JsonMember { key: "note".to_owned(), value: JsonValue::Null }]);
    let err = plan_patch_operations(&root, "Main", &vec![set]).expect_err("ambiguous");
    assert_eq!(err.code, ErrorCode::AmbiguousSelector);
    assert_eq!(err.message, "set selector matched multiple topics.");
    assert_eq!(err.candidates.len(), 2);
    assert_eq!(err.candidates[1].id, "b");
    assert_eq!(err.candidates[1].sheet.as_deref(), Some("Main"));
    let mut check = op("assert_exists");
    check.node = Some("title:Nope".to_owned());
    let err = plan_patch_operations(&root, "Main", &vec![check]).expect_err("missing");
    assert_eq!(err.code, ErrorCode::NotFound);
    assert_eq!(err.message, "assert_exists selector did not match a topic: title:Nope");
}

#[test]
fn assert_not_exists_conflicts_with_existing_topic() {
    let mut check = op("assert_not_exists");
    check.node = Some("title:Q3".to_owned());
    let err = plan_patch_operations(&sample(), "S", &vec![check]).expect_err("exists");
    assert_eq!(err.code, ErrorCode::PatchConflict);
    let mut check = op("assert_not_exists");
    check.node = Some("title:Q4".to_owned());
    assert!(plan_patch_operations(&sample(), "S", &vec![check]).is_ok());
}

#[test]
fn ensure_path_adds_only_missing_prefixes() {
    let mut ensure = op("ensure_path");
    ensure.path = Some("/Q2/Payment/Card/Visa".to_owned());
    let plan = plan_patch_operations(&sample(), "S", &vec![ensure]).expect("plans");
    assert_eq!(plan.diff, vec![added("/Q2/Payment/Card"), added("/Q2/Payment/Card/Visa")]);
    let mut ensure = op("ensure_path");
    ensure.path = Some("Q2".to_owned());
    let err = plan_patch_operations(&sample(), "S", &vec![ensure]).expect_err("relative");
    assert_eq!(err.message, "ensure_path path is invalid: topic path must be absolute");
}

#[test]
fn sort_children_updates_only_unsorted_children() {
    let mut sort = op("sort_children");
    sort.node = Some("path:/Q2".to_owned());
    let plan = plan_patch_operations(&sample(), "S", &vec![sort]).expect("plans");
    assert!(plan.diff.is_empty());
    let mut sort = op("sort_children");
    sort.node = Some("path:/Q2".to_owned());
    sort.order = Some("desc".to_owned());
    let plan = plan_patch_operations(&sample(), "S", &vec![sort]).expect("plans");
    assert_eq!(plan.diff, vec![updated("/Q2")]);
    let mut sort = op("sort_children");
    sort.node = Some("path:/Q2".to_owned());
    sort.recursive = Some(true);
    assert!(plan_patch_operations(&sample(), "S", &vec![sort]).is_err());
}

#[test]
fn set_tree_metadata_updates_topics_missing_labels() {
    let mut root = sample();
    root.children[0].labels = vec!["done".to_owned()];
    let mut meta = op("set_tree_metadata");
    meta.node = Some("path:/Q2".to_owned());
    meta.add_labels = Some(vec!["done".to_owned()]);
    meta.recursive = Some(true);
    let plan = plan_patch_operations(&root, "S", &vec![meta]).expect("plans");
    assert_eq!(
        plan.diff,
        vec![updated("/Q2/Payment"), updated("/Q2/Payment/Refund"), updated("/Q2/Risk")]
    );
    let mut meta = op("set_tree_metadata");
    meta.node = Some("path:/Q2".to_owned());
    meta.add_labels = Some(vec![" ".to_owned()]);
    assert!(plan_patch_operations(&root, "S", &vec![meta]).is_err());
}

#[test]
fn merge_tree_updates_adds_and_prunes() {
    let mut tree = TopicTreeInputDto::new("Q2".to_owned());
    let mut pay = TopicTreeInputDto::new("Payment".to_owned());
    pay.note = Some("n".to_owned());
    tree.children.push(pay);
    tree.children.push(TopicTreeInputDto::new("Billing".to_owned()));
    let mut merge = op("merge_tree");
    merge.target = Some("path:/Q2".to_owned());
    merge.tree = Some(tree);
    merge.prune = Some(true);
    let plan = plan_patch_operations(&sample(), "S", &vec![merge]).expect("merges");
    assert_eq!(
        plan.diff,
        vec![updated("/Q2/Payment"), added("/Q2/Billing"), deleted("/Q2/Payment/Refund"), deleted("/Q2/Risk")]
    );
    let _ = MergeMatch::Title;
}

#[test]
fn merge_tree_by_id_needs_every_id() {
    let mut tree = TopicTreeInputDto::new("Q2".to_owned());
    tree.id = Some("q2".to_owned());
    tree.children.push(TopicTreeInputDto::new("Payment".to_owned()));
    let mut merge = op("merge_tree");
    merge.target = Some("path:/Q2".to_owned());
    merge.tree = Some(tree);
    merge.match_by = Some("id".to_owned());
    let err = plan_patch_operations(&sample(), "S", &vec![merge]).expect_err("missing id");
    assert_eq!(err.field_path.as_deref(), Some("ops[0].tree.children[0].id"));
}

#[test]
fn replace_tree_and_add_tree_list_paths() {
    let mut replace = op("replace_tree");
    replace.node = Some("path:/Q2/Payment".to_owned());
    replace.tree = Some(TopicTreeInputDto::new("Billing".to_owned()));
    let mut add_tree = op("add_tree");
    add_tree.parent = Some("path:/Q3".to_owned());
    let mut t = TopicTreeInputDto::new("A".to_owned());
    t.children.push(TopicTreeInputDto::new("B".to_owned()));
    add_tree.tree = Some(t);
    let plan = plan_patch_operations(&sample(), "S", &vec![replace, add_tree]).expect("plans");
    assert_eq!(
        plan.diff,
        vec![
            deleted("/Q2/Payment"),
            deleted("/Q2/Payment/Refund"),
            added("/Q2/Billing"),
            added("/Q3/A"),
            added("/Q3/A/B"),
        ]
    );
    let mut add_tree = op("add_tree");
    add_tree.parent = Some("path:/Nowhere".to_owned());
    add_tree.tree = Some(TopicTreeInputDto::new("A".to_owned()));
    let err = plan_patch_operations(&sample(), "S", &vec![add_tree]).expect_err("no parent");
    assert_eq!(err.code, ErrorCode::NotFound);
    assert_eq!(err.operation_index, None);
}

#[test]
fn unknown_and_incomplete_operations_are_invalid() {
    let err = plan_patch_operations(&sample(), "S", &vec![op("rename")]).expect_err("unknown");
    assert_eq!(err.message, "Unsupported patch operation: rename");
    assert_eq!(err.code, ErrorCode::InvalidPatch);
    let err = plan_patch_operations(&sample(), "S", &vec![op("add")]).expect_err("no parent");
    assert_eq!(err.message, "add operation is missing parent.");
    assert_eq!(err.field_path.as_deref(), Some("ops[0].parent"));
    let mut add = op("add");
    add.parent = Some("title:Q2".to_owned());
    add.title = Some("X".to_owned());
    let err = plan_patch_operations(&sample(), "S", &vec![add]).expect_err("not a path");
    assert_eq!(err.message, "add parent must be a path: selector.");
}

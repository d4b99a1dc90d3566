use xmind_cli::app::topic_ids::TopicIdAllocator;
use xmind_cli::app::invocation::{Invocation, SheetSelection};
use xmind_cli::cli::commands::{ApplyMode, Command, ImportCommand};
use xmind_cli::app::resolve::{resolve_topic, ResolveOne};
use xmind_cli::app::set_plan::{apply_list_mutation, ListMutation};
use xmind_cli::domain::diff::{Diff, DiffEvent, FieldChange};
use xmind_cli::domain::mutation::{AddTopicRequest, MutationPlanner};
use xmind_cli::domain::path::TopicPath;
use xmind_cli::domain::query::QueryExpr;
use xmind_cli::domain::selector::Selector;
use xmind_cli::domain::topic::{Topic, TopicId};

fn topic(id: &str, title: &str) -> Topic {
    Topic {
        id: TopicId(id.to_owned()),
        title: title.to_owned(),
        note: None,
        labels: Vec::new(),
        markers: Vec::new(),
        hyperlink: None,
        image: None,
        children: Vec::new(),
    }
}

#[test]
fn new_diff_starts_without_events() {
    let diff = Diff::new();

    assert!(diff.is_empty());
    assert_eq!(diff.len(), 0);
    assert!(diff.events().is_empty());
}

#[test]
fn added_event_carries_topic_path() {
    let path = TopicPath::parse_selector_value("/Q2/Payment").expect("path parses");
    let diff = Diff::from_events(vec![DiffEvent::Added { path: path.clone() }]);

    assert!(!diff.is_empty());
    assert_eq!(diff.len(), 1);
    assert_eq!(diff.events(), &[DiffEvent::Added { path }]);
}

#[test]
fn removed_event_carries_topic_path() {
    let path = TopicPath::parse_selector_value("/Q2/Legacy").expect("path parses");
    let diff = Diff::from_events(vec![DiffEvent::Removed { path: path.clone() }]);

    assert_eq!(diff.events(), &[DiffEvent::Removed { path }]);
}

#[test]
fn updated_event_carries_topic_path_and_changed_fields() {
    let path = TopicPath::parse_selector_value("/Q2/Payment").expect("path parses");
    let field = FieldChange::new("title");
    let diff = Diff::from_events(vec![DiffEvent::Updated {
        path: path.clone(),
        fields: vec![field.clone()],
    }]);

    assert_eq!(
        diff.events(),
        &[DiffEvent::Updated {
            path,
            fields: vec![field]
        }]
    );
}

#[test]
fn diff_summary_counts_each_event_kind() {
    let p = |s: &str| TopicPath::parse_selector_value(s).expect("path parses");
    let diff = Diff::from_events(vec![
        DiffEvent::Added { path: p("/A") },
        DiffEvent::Added { path: p("/B") },
        DiffEvent::Removed { path: p("/C") },
        DiffEvent::Moved { from: p("/D"), to: p("/E/D") },
    ]);
    let summary = diff.summary();
    assert_eq!(summary.added, 2);
    assert_eq!(summary.updated, 0);
    assert_eq!(summary.deleted, 1);
    assert_eq!(summary.moved, 1);
}

#[test]
fn plans_add_topic_under_resolved_parent() {
    let parent = topic("topic-q2", "Q2");
    let parent_path = TopicPath::parse_selector_value("/Q2").expect("path parses");

    let plan = MutationPlanner::plan_add_topic(AddTopicRequest {
        parent: &parent,
        parent_path: &parent_path,
        title: "Refund",
        new_topic_id: "topic-refund",
    });

    assert_eq!(plan.parent_id, "topic-q2");
    assert_eq!(plan.new_topic_id, "topic-refund");
    assert_eq!(plan.created_path.to_selector_value(), "/Q2/Refund");
    assert_eq!(
        plan.diff.events(),
        &[DiffEvent::Added {
            path: TopicPath::parse_selector_value("/Q2/Refund").expect("path parses")
        }]
    );
}

#[test]
fn root_path_round_trips() {
    let path = TopicPath::parse_selector_value("/").expect("root path parses");

    assert!(path.is_root());
    assert_eq!(path.to_selector_value(), "/");
    assert_eq!(path.segments(), &[] as &[String]);
}

#[test]
fn ordinary_path_round_trips_without_root_title() {
    let path = TopicPath::parse_selector_value("/Q2/Payment").expect("ordinary path parses");

    assert!(!path.is_root());
    assert_eq!(path.segments(), &["Q2".to_owned(), "Payment".to_owned()]);
    assert_eq!(path.to_selector_value(), "/Q2/Payment");
}

#[test]
fn literal_slash_in_title_segment_round_trips() {
    let path = TopicPath::parse_selector_value(r"/API\/SDK").expect("escaped slash parses");

    assert_eq!(path.segments(), &["API/SDK".to_owned()]);
    assert_eq!(path.to_selector_value(), r"/API\/SDK");
}

#[test]
fn literal_backslash_in_title_segment_round_trips() {
    let path =
        TopicPath::parse_selector_value(r"/Windows\\Path").expect("escaped backslash parses");

    assert_eq!(path.segments(), &["Windows\\Path".to_owned()]);
    assert_eq!(path.to_selector_value(), r"/Windows\\Path");
}

#[test]
fn title_that_is_a_slash_is_not_root() {
    let path = TopicPath::parse_selector_value(r"/\/").expect("slash title parses");

    assert!(!path.is_root());
    assert_eq!(path.segments(), &["/".to_owned()]);
    assert_eq!(path.to_selector_value(), r"/\/");
}

#[test]
fn rendered_segments_parse_back_to_the_same_path() {
    let cases: Vec<Vec<&str>> = vec![
        vec![],
        vec!["a"],
        vec!["a/b", "c\\d"],
        vec!["/", "\\", "x y"],
        vec!["Q2", "Payment", "Refund"],
    ];
    for segments in cases {
        let path = TopicPath::from_segments(segments.iter().map(|s| s.to_string()).collect());
        let rendered = path.to_selector_value();
        let parsed = TopicPath::parse_selector_value(&rendered).expect("rendered path parses");
        assert_eq!(parsed, path);
    }
}

#[test]
fn path_without_leading_slash_is_rejected() {
    assert!(TopicPath::parse_selector_value("Q2/Payment").is_err());
    assert!(TopicPath::parse_selector_value("").is_err());
}

#[test]
fn path_with_dangling_escape_is_rejected_and_empty_segments_kept() {
    assert!(TopicPath::parse_selector_value("/Q2\\").is_err());
    let kept = TopicPath::parse_selector_value("/Q2//Payment").expect("path parses");
    assert_eq!(kept.segments(), &["Q2".to_owned(), "".to_owned(), "Payment".to_owned()]);
    let other = TopicPath::parse_selector_value("/Q\\x").expect("path parses");
    assert_eq!(other.segments(), &["Qx".to_owned()]);
}

#[test]
fn title_equality_matches_topic_title() {
    let expr = QueryExpr::parse(r#"title = "Payment""#).expect("query parses");
    let topic = topic("topic-payment", "Payment");

    assert!(expr.matches_topic(&topic, &TopicPath::root(), 0));
}

#[test]
fn title_inequality_rejects_matching_topic_title() {
    let expr = QueryExpr::parse(r#"title != "Payment""#).expect("query parses");
    let topic = topic("topic-payment", "Payment");

    assert!(!expr.matches_topic(&topic, &TopicPath::root(), 0));
}

#[test]
fn title_contains_matches_substring() {
    let expr = QueryExpr::parse(r#"title contains "Pay""#).expect("query parses");
    let topic = topic("topic-payment", "Payment");

    assert!(expr.matches_topic(&topic, &TopicPath::root(), 0));
}

#[test]
fn title_starts_with_matches_prefix() {
    let expr = QueryExpr::parse(r#"title starts_with "Pay""#).expect("query parses");
    let topic = topic("topic-payment", "Payment");

    assert!(expr.matches_topic(&topic, &TopicPath::root(), 0));
}

#[test]
fn unsupported_operator_is_rejected_and_escapes_are_read() {
    assert!(QueryExpr::parse(r#"title ends_with "ment""#).is_err());
    let quoted = QueryExpr::parse(r#"title = "Say \"hi\"""#).expect("query parses");
    assert!(quoted.matches_topic(&topic("t", "Say \"hi\""), &TopicPath::root(), 0));
}

#[test]
fn malformed_queries_are_rejected() {
    assert!(QueryExpr::parse(r#"note = "x""#).is_err());
    assert!(QueryExpr::parse(r#"title ~ "x""#).is_err());
    assert!(QueryExpr::parse(r#"title = "x"#).is_err());
    assert!(QueryExpr::parse(r#"title = "x" extra"#).is_err());
}

#[test]
fn parses_root_selector() {
    assert_eq!(Selector::parse("root").expect("root parses"), Selector::Root);
}

#[test]
fn parses_id_selector() {
    assert_eq!(
        Selector::parse("id:topic-123").expect("id parses"),
        Selector::Id("topic-123".to_owned())
    );
}

#[test]
fn parses_path_selector_with_escaping() {
    let selector = Selector::parse(r"path:/API\/SDK").expect("path parses");

    assert_eq!(selector.render(), r"path:/API\/SDK");
}

#[test]
fn parses_title_selector() {
    assert_eq!(
        Selector::parse("title:Payment").expect("title parses"),
        Selector::Title("Payment".to_owned())
    );
}

#[test]
fn parses_query_selector() {
    let selector = Selector::parse(r#"query:title = "Payment""#).expect("query parses");

    assert_eq!(selector.render(), r#"query:title = "Payment""#);
}

#[test]
fn rendered_selectors_parse_back() {
    for text in ["root", "id:abc", "title:Q2", "path:/A\\/B/C", r#"query:title contains "x""#] {
        let sel = Selector::parse(text).expect("selector parses");
        let again = Selector::parse(&sel.render()).expect("rendered selector parses");
        assert_eq!(again, sel);
    }
}

#[test]
fn unknown_selector_kind_is_rejected() {
    assert!(Selector::parse("name:Payment").is_err());
    assert!(Selector::parse("path:Q2").is_err());
    assert!(Selector::parse("query:title").is_err());
}

fn strings(items: &[&str]) -> Vec<String> {
    items.iter().map(|s| s.to_string()).collect()
}

#[test]
fn adding_a_label_twice_adds_it_once() {
    let current = strings(&["a", "b"]);
    let add = ListMutation::Add("c".to_owned());
    let once = apply_list_mutation(&current, &add);
    let twice = apply_list_mutation(&once, &add);
    assert_eq!(once, strings(&["a", "b", "c"]));
    assert_eq!(twice, once);
    let again = apply_list_mutation(&current, &ListMutation::Add("a".to_owned()));
    assert_eq!(again, current);
}

#[test]
fn removing_a_label_removes_every_copy_once_and_for_all() {
    let current = strings(&["x", "a", "x", "b"]);
    let remove = ListMutation::Remove("x".to_owned());
    let once = apply_list_mutation(&current, &remove);
    assert_eq!(once, strings(&["a", "b"]));
    assert_eq!(apply_list_mutation(&once, &remove), once);
    let replace = ListMutation::Replace(strings(&["z"]));
    assert_eq!(apply_list_mutation(&current, &replace), strings(&["z"]));
}

fn two_a_children() -> Topic {
    let mut root = topic("root", "Root");
    let mut first = topic("a1", "A");
    first.children.push(topic("dup", "X"));
    let mut second = topic("a2", "A");
    second.children.push(topic("dup", "Y"));
    root.children.push(first);
    root.children.push(second);
    root.children.push(topic("b", "B"));
    root
}

#[test]
fn ambiguous_path_selector_fails_with_every_match() {
    let root = two_a_children();
    let selector = Selector::parse("path:/A").expect("selector");
    match resolve_topic(&root, &selector) {
        ResolveOne::Ambiguous(matches) => {
            assert_eq!(matches.len(), 2);
            assert_eq!(matches[0].topic.id.0, "a1");
            assert_eq!(matches[1].topic.id.0, "a2");
        }
        _ => panic!("expected an ambiguous result"),
    }
    let unique = Selector::parse("path:/B").expect("selector");
    match resolve_topic(&root, &unique) {
        ResolveOne::Found(found) => assert_eq!(found.topic.id.0, "b"),
        _ => panic!("expected one topic"),
    }
    let missing = Selector::parse("path:/C").expect("selector");
    assert!(matches!(resolve_topic(&root, &missing), ResolveOne::NotFound));
}

#[test]
fn ambiguous_id_selector_fails_with_every_match() {
    let root = two_a_children();
    let selector = Selector::parse("id:dup").expect("selector");
    match resolve_topic(&root, &selector) {
        ResolveOne::Ambiguous(matches) => {
            assert_eq!(matches.len(), 2);
            assert_eq!(matches[0].topic.title, "X");
            assert_eq!(matches[1].topic.title, "Y");
            assert_eq!(matches[1].path.to_selector_value(), "/A/Y");
        }
        _ => panic!("expected an ambiguous result"),
    }
    let unique = Selector::parse("id:b").expect("selector");
    assert!(matches!(resolve_topic(&root, &unique), ResolveOne::Found(_)));
}

fn import_command(output: Option<&str>, into: Option<&str>) -> Command {
    Command::Import(ImportCommand {
        input: "outline.md".to_owned(),
        output: output.map(|s| s.to_owned()),
        into: into.map(|s| s.to_owned()),
        parent: None,
        overwrite: false,
        backup: false,
        markdown_mode: None,
        mode: ApplyMode { dry_run: true, apply: false },
    })
}

#[test]
fn import_invocation_names_the_written_workbook_or_none() {
    let sheet = SheetSelection { title: None, id: None, index: None };
    let neither = Invocation::from_command(Some(import_command(None, None)), sheet.clone(), false)
        .expect("an invocation");
    assert_eq!(neither.command, "import");
    assert_eq!(neither.workbook, "");
    assert!(!neither.applied);
    assert!(!neither.no_color);
    let into = Invocation::from_command(Some(import_command(None, Some("map.xmind"))), sheet, false)
        .expect("an invocation");
    assert_eq!(into.workbook, "map.xmind");
    assert!(into.dry_run);
}

#[test]
fn escaped_query_value_reads_back_and_each_operator_means_what_it_says() {
    let path = TopicPath::root();
    let quoted = topic("q", r#"say "hi" \ bye"#);
    let exact = QueryExpr::parse(r#"title = "say \"hi\" \\ bye""#).expect("query");
    assert!(exact.matches_topic(&quoted, &path, 0));
    assert!(exact.matches_topic(&quoted, &path.join("deep".to_owned()), 7));
    assert!(!exact.matches_topic(&topic("o", "other"), &path, 0));
    let not_equal = QueryExpr::parse(r#"title != "say \"hi\" \\ bye""#).expect("query");
    assert!(!not_equal.matches_topic(&quoted, &path, 0));
    let contains = QueryExpr::parse(r#"title contains "\"hi\"""#).expect("query");
    assert!(contains.matches_topic(&quoted, &path, 0));
    let prefix = QueryExpr::parse(r#"title starts_with "say""#).expect("query");
    assert!(prefix.matches_topic(&quoted, &path, 0));
    assert!(!prefix.matches_topic(&topic("o", "hi say"), &path, 0));
}

#[test]
fn successive_allocations_hand_out_fresh_distinct_ids() {
    let mut root = topic("root", "Root");
    root.children.push(topic("topic-launch", "Launch"));
    root.children.push(topic("topic-launch-3", "Launch again"));
    let mut allocator = TopicIdAllocator::from_root(&root);
    let first = allocator.allocate("Launch!");
    let second = allocator.allocate("launch");
    let third = allocator.allocate("Launch");
    let fresh = allocator.allocate("");
    assert_eq!(first, "topic-launch-2");
    assert_eq!(second, "topic-launch-4");
    assert_eq!(third, "topic-launch-5");
    assert_eq!(fresh, "topic-new");
    assert!(allocator.contains("topic-launch-5"));
}

use serde_json::Value;
use xmind_cli::app::markdown::{
    markdown_tree_input, parse_markdown_heading, parse_markdown_list_item, parse_markdown_outline,
    reject_inline_metadata, reject_unsupported_markdown_mode_body, split_markdown_frontmatter,
    text_lines, TopicTreeDefaultsDto,
};
use xmind_cli::app::render_json::{render_find_result, render_tree_result};
use xmind_cli::app::find::FindMatchDto;
use xmind_cli::app::tree_input::{tree_input_format, tree_input_source, TreeInputFormat, TreeInputSource};
use xmind_cli::app::tree_view::{TreeResultDto, TreeTopicDto};
use xmind_cli::cli::args::MarkdownMode;
use xmind_cli::infra::xmind::json::{JsonMember, JsonValue};
use xmind_cli::infra::xmind::validate::{
    validate_missing_content, validate_workbook_content, ValidateReadError,
};

fn from_value(v: &Value) -> JsonValue {
    match v {
        Value::Null => JsonValue::Null,
        Value::Bool(b) => JsonValue::Bool(*b),
        Value::Number(n) => JsonValue::Number(n.to_string()),
        Value::String(s) => JsonValue::String(s.clone()),
        Value::Array(items) => JsonValue::Array(items.iter().map(from_value).collect()),
        Value::Object(map) => JsonValue::Object(
            map.iter()
                .map(|(k, v)| JsonMember {
                    key: k.clone(),
                    value: from_value(v),
                })
                .collect(),
        ),
    }
}

fn to_value(j: &JsonValue) -> Value {
    match j {
        JsonValue::Null => Value::Null,
        JsonValue::Bool(b) => Value::Bool(*b),
        JsonValue::Number(n) => serde_json::from_str(n).expect("number text parses"),
        JsonValue::String(s) => Value::String(s.clone()),
        JsonValue::Array(items) => Value::Array(items.iter().map(to_value).collect()),
        JsonValue::Object(members) => {
            let mut map = serde_json::Map::new();
            for m in members {
                map.insert(m.key.clone(), to_value(&m.value));
            }
            Value::Object(map)
        }
    }
}

fn parse(text: &str) -> JsonValue {
    from_value(&serde_json::from_str::<Value>(text).expect("test JSON parses"))
}

fn codes(diags: &[xmind_cli::infra::xmind::validate::ValidationDiagnosticDto]) -> Vec<String> {
    diags.iter().map(|d| d.code.clone()).collect()
}

#[test]
fn valid_content_has_no_findings() {
    let content = parse(
        r#"[{"id":"s","title":"S","rootTopic":{"id":"r","title":"R","children":{"attached":[{"id":"a","title":"A"}]}},
            "relationships":[{"end1Id":"r","end2Id":"a"}]}]"#,
    );
    let result = validate_workbook_content(&vec!["content.json".to_owned()], &content, true);
    assert!(result.valid);
    assert!(result.errors.is_empty());
    assert!(result.warnings.is_empty());
}

#[test]
fn duplicate_ids_and_missing_fields_are_errors() {
    let content = parse(
        r#"[{"id":" ","rootTopic":{"id":"r","title":"R","children":{"attached":[{"id":"r","title":""},7]}}}]"#,
    );
    let result = validate_workbook_content(&Vec::new(), &content, false);
    assert!(!result.valid);
    assert_eq!(
        codes(&result.errors),
        vec![
            "missing_required_field",
            "missing_required_field",
            "duplicate_topic_id",
            "missing_required_field",
            "invalid_topic_order",
        ]
    );
    assert_eq!(result.errors[0].path, "content.json[0].id");
    assert_eq!(result.errors[0].message, "Missing required sheet id.");
    assert_eq!(result.errors[2].message, "Topic id `r` appears more than once.");
    assert_eq!(
        result.errors[2].path,
        "content.json[0].rootTopic.children.attached[0].id (r)"
    );
    assert_eq!(
        result.errors[2].suggested_fix,
        "Assign a unique id to this topic; first occurrence is at content.json[0].rootTopic."
    );
    assert_eq!(result.errors[4].path, "content.json[0].rootTopic.children.attached[1]");
}

#[test]
fn missing_resources_warn_and_strict_mode_fails_on_warnings() {
    let content = parse(
        r#"[{"id":"s","title":"S","rootTopic":{"id":"r","title":"R","image":{"src":"xap:resources/x.png"}}}]"#,
    );
    let lenient = validate_workbook_content(&Vec::new(), &content, false);
    assert!(lenient.valid);
    assert_eq!(codes(&lenient.warnings), vec!["missing_resource"]);
    assert_eq!(lenient.warnings[0].path, "content.json[0].rootTopic.image.src");
    let strict = validate_workbook_content(&Vec::new(), &content, true);
    assert!(!strict.valid);
    let present = validate_workbook_content(&vec!["resources/x.png".to_owned()], &content, true);
    assert!(present.valid);
}

#[test]
fn sheets_and_relationships_shape_errors() {
    let not_array = validate_workbook_content(&Vec::new(), &parse(r#"{"a":1}"#), false);
    assert_eq!(not_array.errors[0].message, "content.json must be an array of sheets.");
    let empty = validate_workbook_content(&Vec::new(), &parse("[]"), false);
    assert_eq!(empty.errors[0].message, "Workbook must contain at least one sheet.");
    let broken = validate_workbook_content(
        &Vec::new(),
        &parse(r#"[{"id":"s","title":"S","rootTopic":{"id":"r","title":"R"},"relationships":[{"end1Id":"r"},{"end1Id":"x","end2Id":"r"},3]}]"#),
        false,
    );
    assert_eq!(
        codes(&broken.errors),
        vec![
            "missing_required_field",
            "broken_relationship_reference",
            "invalid_relationships",
        ]
    );
    assert_eq!(broken.errors[0].path, "content.json[0].relationships[0].end2Id");
    assert_eq!(
        broken.errors[1].message,
        "Relationship endpoint `x` does not match any topic id."
    );
    let no_root = validate_workbook_content(&Vec::new(), &parse(r#"[{"id":"s","title":"S"}]"#), false);
    assert_eq!(no_root.errors[0].message, "Sheet is missing required rootTopic.");
}

#[test]
fn packages_without_content_json() {
    assert_eq!(
        validate_missing_content(&vec!["content.xml".to_owned()]).err(),
        Some(ValidateReadError::UnsupportedFormat)
    );
    let result = validate_missing_content(&Vec::new()).expect("a result");
    assert!(!result.valid);
    assert_eq!(result.errors[0].code, "missing_content");
}

#[test]
fn lines_follow_str_lines() {
    let text = "a\r\nb\n\nc\r";
    let lines: Vec<String> = text_lines(text).iter().map(|l| l.iter().collect()).collect();
    let expected: Vec<String> = text.lines().map(str::to_owned).collect();
    assert_eq!(lines, expected);
    assert!(text_lines("").is_empty());
    assert_eq!(text_lines("x\n").len(), 1);
}

#[test]
fn parses_headings_and_list_items() {
    let h: Vec<char> = "  ## Plan  ".chars().collect();
    let (level, title) = parse_markdown_heading(&h).expect("heading");
    assert_eq!(level, 2);
    assert_eq!(title.iter().collect::<String>(), "Plan");
    let seven: Vec<char> = "####### too deep".chars().collect();
    assert!(parse_markdown_heading(&seven).is_none());
    let task: Vec<char> = "    - [x] Done thing".chars().collect();
    let (level, node) = parse_markdown_list_item(&task).expect("item");
    assert_eq!(level, 3);
    assert_eq!(node.title, "Done thing");
    assert_eq!(node.markers, vec!["task-done".to_owned()]);
    let ordered: Vec<char> = "   12. Step".chars().collect();
    let (level, node) = parse_markdown_list_item(&ordered).expect("ordered item");
    assert_eq!(level, 2);
    assert_eq!(node.title, "Step");
    let not_item: Vec<char> = "a. b".chars().collect();
    assert!(parse_markdown_list_item(&not_item).is_none());
}

#[test]
fn outlines_become_trees_with_notes() {
    let tree = parse_markdown_outline("# Root\nintro line\n## Child\n- item one\n  - nested\nmore text\n## Second\n")
        .expect("outline parses")
        .expect("a root");
    assert_eq!(tree.title, "Root");
    assert_eq!(tree.note.as_deref(), Some("intro line"));
    assert_eq!(tree.children.len(), 2);
    let child = &tree.children[0];
    assert_eq!(child.title, "Child");
    assert_eq!(child.children[0].title, "item one");
    assert_eq!(child.children[0].children[0].title, "nested");
    assert_eq!(child.children[0].children[0].note.as_deref(), Some("more text"));
    assert_eq!(tree.children[1].title, "Second");
    assert!(parse_markdown_outline("just text\n").expect("parses").is_none());
}

#[test]
fn outline_errors_name_the_line() {
    assert_eq!(
        parse_markdown_outline("# A\n### C\n").err(),
        Some("Markdown heading levels cannot skip from 1 to 3 at line 2.".to_owned())
    );
    assert_eq!(
        parse_markdown_outline("# A\n# B\n").err(),
        Some("Markdown outline must contain one top-level root; second root starts at line 2.".to_owned())
    );
    assert_eq!(
        parse_markdown_outline("# A\n - x\n").err(),
        Some("Markdown unordered list indentation must use multiples of 2 spaces at line 2.".to_owned())
    );
    assert_eq!(
        parse_markdown_outline("# A\n- [ ]\n").err(),
        Some("Markdown list item title is empty at line 2.".to_owned())
    );
}

#[test]
fn frontmatter_and_body_checks() {
    let (front, body) = split_markdown_frontmatter("---\ntitle: T\n---\n# Body\n");
    assert_eq!(front.as_deref(), Some("title: T"));
    assert_eq!(body, "# Body\n");
    let (front, body) = split_markdown_frontmatter("# No front\n");
    assert!(front.is_none());
    assert_eq!(body, "# No front\n");
    let (_, body) = split_markdown_frontmatter("---\na: b\n---tail");
    assert_eq!(body, "");
    assert_eq!(
        reject_inline_metadata("# T {id: x}\n").err(),
        Some("Inline metadata is not supported in Markdown input.".to_owned())
    );
    assert!(reject_inline_metadata("# T {\n}\n").is_ok());
    assert_eq!(
        reject_unsupported_markdown_mode_body("# T\n- item\n", Some(MarkdownMode::Heading)).err(),
        Some("Markdown heading mode does not accept list items.".to_owned())
    );
    assert_eq!(
        reject_unsupported_markdown_mode_body("# T\n", Some(MarkdownMode::List)).err(),
        Some("Markdown list mode does not accept headings.".to_owned())
    );
    assert!(reject_unsupported_markdown_mode_body("# T\n- item\n", Some(MarkdownMode::Hybrid)).is_ok());
}

#[test]
fn frontmatter_values_fill_the_tree() {
    let defaults = TopicTreeDefaultsDto {
        id: Some("given".to_owned()),
        note: Some("front note".to_owned()),
        labels: vec!["l".to_owned()],
        ..TopicTreeDefaultsDto::default()
    };
    let tree = markdown_tree_input(defaults, "# Root\n", None).expect("tree");
    assert_eq!(tree.id.as_deref(), Some("given"));
    assert_eq!(tree.note.as_deref(), Some("front note"));
    assert_eq!(tree.labels, vec!["l".to_owned()]);
    let only_front = TopicTreeDefaultsDto {
        title: Some("From front".to_owned()),
        ..TopicTreeDefaultsDto::default()
    };
    assert_eq!(markdown_tree_input(only_front, "", None).expect("tree").title, "From front");
    assert_eq!(
        markdown_tree_input(TopicTreeDefaultsDto::default(), "", None).err(),
        Some("Markdown input must include frontmatter title or a heading outline.".to_owned())
    );
}

#[test]
fn tree_input_sources_and_formats() {
    assert_eq!(
        tree_input_source(Some("a.yaml"), None),
        Ok(TreeInputSource::Structured("a.yaml".to_owned()))
    );
    assert_eq!(
        tree_input_source(None, None),
        Err("add-tree requires --input or --from-markdown.".to_owned())
    );
    assert_eq!(
        tree_input_source(Some("a"), Some("b")),
        Err("add-tree accepts only one of --input or --from-markdown.".to_owned())
    );
    assert_eq!(tree_input_format("yml"), Ok(TreeInputFormat::Yaml));
    assert_eq!(tree_input_format("json"), Ok(TreeInputFormat::Json));
    assert_eq!(
        tree_input_format("txt"),
        Err("Tree input must use .yaml, .yml, or .json.".to_owned())
    );
}

fn tree_topic(id: &str, title: &str, children: Option<Vec<TreeTopicDto>>, count: Option<usize>) -> TreeTopicDto {
    TreeTopicDto {
        id: id.to_owned(),
        path: format!("/{title}"),
        title: title.to_owned(),
        note: None,
        labels: Vec::new(),
        markers: Vec::new(),
        hyperlink: None,
        image: None,
        children,
        children_count: count,
    }
}

#[test]
fn tree_results_render_full_or_selected_fields() {
    let result = TreeResultDto {
        sheet: "S".to_owned(),
        root: tree_topic("r", "R", Some(vec![tree_topic("a", "A", None, Some(2))]), None),
    };
    let full = to_value(&render_tree_result(&result, &Vec::new(), false));
    assert_eq!(full["sheet"], "S");
    assert_eq!(full["root"]["labels"], Value::Array(Vec::new()));
    assert!(full["root"].get("note").is_none());
    assert_eq!(full["root"]["children"][0]["children_count"], 2);
    let compact = to_value(&render_tree_result(&result, &vec!["title".to_owned(), "children".to_owned()], true));
    assert_eq!(compact["root"]["title"], "R");
    assert!(compact["root"].get("id").is_none());
    assert_eq!(compact["root"]["children"][0]["title"], "A");
}

#[test]
fn find_results_select_fields_only_in_compact_output() {
    let matches = vec![FindMatchDto {
        id: "a".to_owned(),
        path: "/A".to_owned(),
        title: "A".to_owned(),
        sheet: "S".to_owned(),
        children_count: 3,
    }];
    let full = to_value(&render_find_result(&matches, &vec!["id".to_owned()], false));
    assert_eq!(full["matches"][0]["children_count"], 3);
    assert_eq!(full["matches"][0]["sheet"], "S");
    let compact = to_value(&render_find_result(&matches, &vec!["id".to_owned()], true));
    assert_eq!(compact["matches"][0].as_object().map(|o| o.len()), Some(1));
}

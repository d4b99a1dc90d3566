use serde_json::Value;
use xmind_cli::domain::sheet::{Sheet, SheetId};
use xmind_cli::domain::topic::{AssetId, Topic, TopicId, TopicImageRef};
use xmind_cli::domain::workbook::{PreservationBag, ResourceIndex, Workbook};
use xmind_cli::infra::xmind::content::{
    delete_topic_below, find_topic_in_content, remove_topic_from_content, rewrite_copied_topic_ids,
};
use xmind_cli::infra::xmind::decode::{
    check_package_entries, is_resource_entry, workbook_from_storage, StorageChildren, StorageImage,
    StorageMarker, StorageNotes, StoragePlainNote, StorageSheet, StorageTopic, XMindReadError,
};
use xmind_cli::infra::xmind::encode::{
    append_child_topic, clear_topic_fields, copy_topic, delete_topic, delete_topic_children,
    delete_topic_promote_children, encode_workbook_content, merge_preserved_json_field, move_topic,
    parse_index, parse_indexed_part, rename_topic, set_topic_hyperlink, set_topic_image,
    set_topic_labels, set_topic_markers, set_topic_note, split_chars, temp_workbook_path,
    TopicClearField, XMindWriteError,
};
use xmind_cli::infra::xmind::json::{JsonMember, JsonValue};

fn to_value(j: &JsonValue) -> Value {
    match j {
        JsonValue::Null => Value::Null,
        JsonValue::Bool(b) => Value::Bool(*b),
        JsonValue::Number(n) => serde_json::from_str(n).expect("number text parses"),
        JsonValue::String(s) => Value::String(s.clone()),
        JsonValue::Array(items) => Value::Array(items.iter().map(to_value).collect()),
        JsonValue::Object(members) => {
            let mut map = serde_json::Map::new();
            for m in members {
                map.insert(m.key.clone(), to_value(&m.value));
            }
            Value::Object(map)
        }
    }
}

fn from_value(v: &Value) -> JsonValue {
    match v {
        Value::Null => JsonValue::Null,
        Value::Bool(b) => JsonValue::Bool(*b),
        Value::Number(n) => JsonValue::Number(n.to_string()),
        Value::String(s) => JsonValue::String(s.clone()),
        Value::Array(items) => JsonValue::Array(items.iter().map(from_value).collect()),
        Value::Object(map) => JsonValue::Object(
            map.iter()
                .map(|(k, v)| JsonMember {
                    key: k.clone(),
                    value: from_value(v),
                })
                .collect(),
        ),
    }
}

fn parse(text: &str) -> JsonValue {
    from_value(&serde_json::from_str::<Value>(text).expect("test JSON parses"))
}

fn obj(members: Vec<(&str, JsonValue)>) -> JsonValue {
    JsonValue::Object(
        members
            .into_iter()
            .map(|(k, v)| JsonMember {
                key: k.to_owned(),
                value: v,
            })
            .collect(),
    )
}

fn leaf(id: &str, title: &str) -> Topic {
    Topic {
        id: TopicId(id.to_owned()),
        title: title.to_owned(),
        note: None,
        labels: Vec::new(),
        markers: Vec::new(),
        hyperlink: None,
        image: None,
        children: Vec::new(),
    }
}

fn sample_content() -> JsonValue {
    parse(
        r#"[{"id":"sheet-1","title":"Roadmap","rootTopic":{"id":"root","title":"Roadmap","children":{"attached":[
            {"id":"q2","title":"Q2","children":{"attached":[{"id":"pay","title":"Payment","vendor":1}]}},
            {"id":"q3","title":"Q3"}
        ]}}}]"#,
    )
}

#[test]
fn encodes_domain_workbook_to_supported_storage_dtos() {
    let mut root = leaf("topic-root", "Roadmap");
    root.note = Some("Root note".to_owned());
    root.labels = vec!["plan".to_owned()];
    root.markers = vec!["priority-1".to_owned()];
    root.hyperlink = Some("https://example.com".to_owned());
    root.image = Some(TopicImageRef::new(
        AssetId::new("xap:resources/root.png".to_owned()),
        Some("Root image".to_owned()),
        Some("Root".to_owned()),
    ));
    root.children = vec![leaf("topic-payment", "Payment")];
    let workbook = Workbook {
        sheets: vec![Sheet {
            id: SheetId("sheet-roadmap".to_owned()),
            title: "Roadmap".to_owned(),
            root,
        }],
        resources: ResourceIndex::default(),
        preservation: PreservationBag::default(),
    };

    let value = to_value(&encode_workbook_content(&workbook));

    assert_eq!(value[0]["id"], "sheet-roadmap");
    assert_eq!(value[0]["title"], "Roadmap");
    assert_eq!(value[0]["rootTopic"]["id"], "topic-root");
    assert_eq!(value[0]["rootTopic"]["title"], "Roadmap");
    assert_eq!(value[0]["rootTopic"]["notes"]["plain"]["content"], "Root note");
    assert_eq!(value[0]["rootTopic"]["labels"][0], "plan");
    assert_eq!(value[0]["rootTopic"]["markers"][0]["markerId"], "priority-1");
    assert_eq!(value[0]["rootTopic"]["href"], "https://example.com");
    assert_eq!(value[0]["rootTopic"]["image"]["src"], "xap:resources/root.png");
    assert_eq!(value[0]["rootTopic"]["image"]["alt"], "Root image");
    assert_eq!(value[0]["rootTopic"]["image"]["title"], "Root");
    assert_eq!(
        value[0]["rootTopic"]["children"]["attached"][0]["id"],
        "topic-payment"
    );
}

#[test]
fn merges_preserved_unknown_json_fields_into_encoded_content() {
    let mut preservation = PreservationBag::default();
    preservation.preserve_json_field(
        "sheets[0].vendorSheet".to_owned(),
        obj(vec![("sheet", JsonValue::Bool(true))]),
    );
    preservation.preserve_json_field(
        "sheets[0].rootTopic.vendorTopic".to_owned(),
        obj(vec![("topic", JsonValue::Bool(true))]),
    );
    preservation.preserve_json_field(
        "sheets[0].rootTopic.children.attached[0].vendorChild".to_owned(),
        obj(vec![("child", JsonValue::Bool(true))]),
    );
    let mut root = leaf("topic-root", "Roadmap");
    root.children = vec![leaf("topic-payment", "Payment")];
    let workbook = Workbook {
        sheets: vec![Sheet {
            id: SheetId("sheet-roadmap".to_owned()),
            title: "Roadmap".to_owned(),
            root,
        }],
        resources: ResourceIndex::default(),
        preservation,
    };

    let value = to_value(&encode_workbook_content(&workbook));

    assert_eq!(value[0]["vendorSheet"]["sheet"], true);
    assert_eq!(value[0]["rootTopic"]["vendorTopic"]["topic"], true);
    assert_eq!(
        value[0]["rootTopic"]["children"]["attached"][0]["vendorChild"]["child"],
        true
    );
}

#[test]
fn encoded_topic_without_metadata_has_only_id_title_and_children() {
    let workbook = Workbook {
        sheets: vec![Sheet {
            id: SheetId("s".to_owned()),
            title: "S".to_owned(),
            root: leaf("r", "Root"),
        }],
        resources: ResourceIndex::default(),
        preservation: PreservationBag::default(),
    };
    let value = to_value(&encode_workbook_content(&workbook));
    let root = value[0]["rootTopic"].as_object().expect("root is an object");
    let mut keys: Vec<&String> = root.keys().collect();
    keys.sort();
    assert_eq!(keys, vec!["children", "id", "title"]);
    assert_eq!(value[0]["rootTopic"]["children"]["attached"], serde_json::Value::Array(Vec::new()));
}

#[test]
fn merge_of_a_field_under_a_missing_path_leaves_content_alone() {
    let mut content = sample_content();
    let before = to_value(&content);
    merge_preserved_json_field(&mut content, "sheets[5].vendor", JsonValue::Bool(true));
    assert_eq!(to_value(&content), before);
    merge_preserved_json_field(&mut content, "sheets[0].nothing.vendor", JsonValue::Bool(true));
    assert_eq!(to_value(&content), before);
    merge_preserved_json_field(&mut content, "sheets[0].rootTopic.vendor", JsonValue::Bool(false));
    assert_eq!(to_value(&content)[0]["rootTopic"]["vendor"], false);
}

#[test]
fn parses_indexed_path_parts_and_indexes() {
    let part: Vec<char> = "attached[12]".chars().collect();
    let (name, index) = parse_indexed_part(&part).expect("indexed part");
    assert_eq!(name.iter().collect::<String>(), "attached");
    assert_eq!(index, 12);
    let plain: Vec<char> = "rootTopic".chars().collect();
    assert!(parse_indexed_part(&plain).is_none());
    let bad: Vec<char> = "a[x]".chars().collect();
    assert!(parse_indexed_part(&bad).is_none());
    let digits: Vec<char> = "+7".chars().collect();
    assert_eq!(parse_index(&digits), Some(7));
    let empty: Vec<char> = "+".chars().collect();
    assert_eq!(parse_index(&empty), None);
    let huge: Vec<char> = "99999999999999999999999".chars().collect();
    assert_eq!(parse_index(&huge), None);
    let dotted: Vec<char> = "a..b".chars().collect();
    let parts = split_chars(&dotted, '.');
    assert_eq!(parts.len(), 3);
    assert!(parts[1].is_empty());
}

#[test]
fn rename_reads_back_and_leaves_the_rest() {
    let mut content = sample_content();
    rename_topic(&mut content, "pay", "Billing").expect("topic renamed");
    let value = to_value(&content);
    let pay = &value[0]["rootTopic"]["children"]["attached"][0]["children"]["attached"][0];
    assert_eq!(pay["title"], "Billing");
    assert_eq!(pay["vendor"], 1);
    assert_eq!(value[0]["rootTopic"]["children"]["attached"][1]["title"], "Q3");
    let found = find_topic_in_content(&content, "pay").expect("found");
    assert_eq!(to_value(found)["title"], "Billing");
}

#[test]
fn edits_of_a_missing_topic_report_it_and_change_nothing() {
    let mut content = sample_content();
    let before = to_value(&content);
    assert_eq!(
        rename_topic(&mut content, "nope", "X"),
        Err(XMindWriteError::TopicNotFound("nope".to_owned()))
    );
    assert_eq!(
        append_child_topic(&mut content, "nope", "X", "topic-x"),
        Err(XMindWriteError::ParentNotFound("nope".to_owned()))
    );
    assert_eq!(
        delete_topic(&mut content, "root"),
        Err(XMindWriteError::TopicNotFound("root".to_owned()))
    );
    assert_eq!(to_value(&content), before);
}

#[test]
fn field_edits_store_the_documented_shapes() {
    let mut content = sample_content();
    set_topic_note(&mut content, "q3", "Ship it").expect("note set");
    set_topic_labels(&mut content, "q3", &vec!["a".to_owned(), "b".to_owned()]).expect("labels");
    set_topic_markers(&mut content, "q3", &vec!["priority-1".to_owned()]).expect("markers");
    set_topic_hyperlink(&mut content, "q3", "https://x.test").expect("href");
    set_topic_image(&mut content, "q3", "xap:resources/a.png", Some("Alt"), None).expect("image");
    let q3 = to_value(&content)[0]["rootTopic"]["children"]["attached"][1].clone();
    assert_eq!(q3["notes"]["plain"]["content"], "Ship it");
    assert_eq!(q3["labels"][1], "b");
    assert_eq!(q3["markers"][0]["markerId"], "priority-1");
    assert_eq!(q3["href"], "https://x.test");
    assert_eq!(q3["image"]["src"], "xap:resources/a.png");
    assert_eq!(q3["image"]["alt"], "Alt");
    assert!(q3["image"].get("title").is_none());

    clear_topic_fields(
        &mut content,
        "q3",
        &vec![TopicClearField::Note, TopicClearField::Hyperlink, TopicClearField::Image],
    )
    .expect("cleared");
    let q3 = to_value(&content)[0]["rootTopic"]["children"]["attached"][1].clone();
    assert!(q3.get("notes").is_none());
    assert!(q3.get("href").is_none());
    assert!(q3.get("image").is_none());
    assert_eq!(q3["labels"][0], "a");
}

#[test]
fn append_child_adds_children_member_when_missing() {
    let mut content = sample_content();
    append_child_topic(&mut content, "q3", "Launch", "topic-launch").expect("appended");
    let q3 = to_value(&content)[0]["rootTopic"]["children"]["attached"][1].clone();
    assert_eq!(q3["children"]["attached"][0]["id"], "topic-launch");
    assert_eq!(q3["children"]["attached"][0]["title"], "Launch");
}

#[test]
fn delete_and_promote_and_clear_children() {
    let mut content = sample_content();
    delete_topic_promote_children(&mut content, "q2").expect("promoted");
    let value = to_value(&content);
    let attached = &value[0]["rootTopic"]["children"]["attached"];
    assert_eq!(attached[0]["id"], "pay");
    assert_eq!(attached[1]["id"], "q3");

    let mut content = sample_content();
    delete_topic(&mut content, "pay").expect("deleted");
    let value = to_value(&content);
    assert_eq!(
        value[0]["rootTopic"]["children"]["attached"][0]["children"]["attached"],
        serde_json::Value::Array(Vec::new())
    );

    let mut content = sample_content();
    delete_topic_children(&mut content, "root").expect("cleared");
    assert_eq!(
        to_value(&content)[0]["rootTopic"]["children"]["attached"],
        serde_json::Value::Array(Vec::new())
    );
}

#[test]
fn removal_below_a_topic_gives_the_topic_back() {
    let mut content = sample_content();
    let removed = remove_topic_from_content(&mut content, "q2").expect("removed");
    assert_eq!(to_value(&removed)["id"], "q2");
    assert_eq!(to_value(&removed)["children"]["attached"][0]["id"], "pay");
    assert!(find_topic_in_content(&content, "pay").is_none());

    let mut root = parse(r#"{"id":"r","children":{"attached":[{"id":"a"},{"id":"b"}]}}"#);
    assert!(delete_topic_below(&mut root, "b"));
    assert_eq!(to_value(&root)["children"]["attached"].as_array().map(|a| a.len()), Some(1));
    assert!(!delete_topic_below(&mut root, "r"));
}

#[test]
fn move_and_copy_topics() {
    let mut content = sample_content();
    move_topic(&mut content, "pay", "q3").expect("moved");
    let value = to_value(&content);
    assert_eq!(
        value[0]["rootTopic"]["children"]["attached"][1]["children"]["attached"][0]["id"],
        "pay"
    );
    assert_eq!(
        move_topic(&mut content, "pay", "missing"),
        Err(XMindWriteError::TopicNotFound("missing".to_owned()))
    );

    let mut content = sample_content();
    copy_topic(&mut content, "q2", "q3", "q2-copy-root", "Q2 copy").expect("copied");
    let value = to_value(&content);
    let copy = &value[0]["rootTopic"]["children"]["attached"][1]["children"]["attached"][0];
    assert_eq!(copy["id"], "q2-copy-root");
    assert_eq!(copy["title"], "Q2 copy");
    assert_eq!(copy["children"]["attached"][0]["id"], "pay-copy");
    assert_eq!(
        value[0]["rootTopic"]["children"]["attached"][0]["children"]["attached"][0]["id"],
        "pay"
    );
}

#[test]
fn copied_children_without_ids_get_parent_based_ids() {
    let mut topic = parse(r#"{"id":"a","title":"A","children":{"attached":[{"title":"no id"}]}}"#);
    rewrite_copied_topic_ids(&mut topic, "new", None);
    let value = to_value(&topic);
    assert_eq!(value["id"], "new");
    assert_eq!(value["title"], "A");
    assert_eq!(value["children"]["attached"][0]["id"], "a-copy-child");
}

#[test]
fn temp_path_sits_beside_the_workbook() {
    assert_eq!(temp_workbook_path("/tmp/roadmap.xmind"), "/tmp/roadmap.xmind.tmp");
}

fn storage_topic(id: &str, title: &str) -> StorageTopic {
    StorageTopic {
        id: id.to_owned(),
        title: title.to_owned(),
        notes: None,
        href: None,
        image: None,
        labels: Vec::new(),
        markers: Vec::new(),
        children: StorageChildren { attached: Vec::new() },
        unknown_fields: Vec::new(),
    }
}

#[test]
fn stored_topics_read_as_domain_topics() {
    let mut child = storage_topic("c", "Child");
    child.unknown_fields = vec![JsonMember {
        key: "vendor".to_owned(),
        value: JsonValue::Bool(true),
    }];
    let mut root = storage_topic("r", "Root");
    root.notes = Some(StorageNotes {
        plain: Some(StoragePlainNote {
            content: "note".to_owned(),
        }),
    });
    root.markers = vec![StorageMarker {
        marker_id: "m".to_owned(),
    }];
    root.image = Some(StorageImage {
        src: None,
        alt: Some("ignored".to_owned()),
        title: None,
    });
    root.children = StorageChildren { attached: vec![child] };
    let sheet = StorageSheet {
        id: "s".to_owned(),
        title: "Sheet".to_owned(),
        root_topic: root,
        unknown_fields: vec![JsonMember {
            key: "theme".to_owned(),
            value: JsonValue::String("dark".to_owned()),
        }],
    };
    let names = vec![
        "content.json".to_owned(),
        "metadata.json".to_owned(),
        "resources/a.png".to_owned(),
        "resources/".to_owned(),
    ];
    let workbook = workbook_from_storage(&names, &vec![sheet]);
    let topic = &workbook.sheets[0].root;
    assert_eq!(topic.note.as_deref(), Some("note"));
    assert_eq!(topic.markers, vec!["m".to_owned()]);
    assert!(topic.image.is_none());
    assert_eq!(topic.children[0].id.0, "c");
    assert_eq!(workbook.resources.len(), 1);
    assert!(workbook.resources.contains("xap:resources/a.png"));
    let fields = workbook.preservation.raw_json_fields();
    assert_eq!(fields.len(), 2);
    assert_eq!(fields[0].path, "sheets[0].theme");
    assert_eq!(fields[1].path, "sheets[0].rootTopic.children.attached[0].vendor");
    assert!(is_resource_entry("resources/b.jpg"));
    assert!(!is_resource_entry("resources/dir/"));
}

#[test]
fn package_entries_decide_format_errors() {
    assert_eq!(
        check_package_entries(&vec!["content.xml".to_owned()]),
        Err(XMindReadError::UnsupportedFormat)
    );
    assert_eq!(
        check_package_entries(&vec!["metadata.json".to_owned()]),
        Err(XMindReadError::MissingContent)
    );
    assert_eq!(check_package_entries(&vec!["content.json".to_owned()]), Ok(()));
    assert_eq!(
        XMindReadError::MissingContent.message(),
        "workbook package does not contain content.json"
    );
    assert_eq!(
        XMindWriteError::TopicNotFound("x".to_owned()).message(),
        "topic was not found in content.json: x"
    );
}

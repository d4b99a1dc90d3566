use xmind_cli::domain::diff::{Diff, DiffEvent, FieldChange};
use xmind_cli::domain::path::TopicPath;
use xmind_cli::infra::xmind::json::{JsonMember, JsonValue};
use xmind_cli::render::diff::{render_human_outline, render_json_diff};

fn sample_diff() -> Diff {
    Diff::from_events(vec![
        DiffEvent::Added {
            path: TopicPath::parse_selector_value("/Q2/New").expect("path parses"),
        },
        DiffEvent::Removed {
            path: TopicPath::parse_selector_value("/Q2/Old").expect("path parses"),
        },
        DiffEvent::Updated {
            path: TopicPath::parse_selector_value("/Q2/Payment").expect("path parses"),
            fields: vec![FieldChange::new("title")],
        },
        DiffEvent::Moved {
            from: TopicPath::parse_selector_value("/Q2/Risk").expect("path parses"),
            to: TopicPath::parse_selector_value("/Q3/Risk").expect("path parses"),
        },
    ])
}

fn s(text: &str) -> JsonValue {
    JsonValue::String(text.to_owned())
}

fn n(text: &str) -> JsonValue {
    JsonValue::Number(text.to_owned())
}

fn obj(members: Vec<(&str, JsonValue)>) -> JsonValue {
    JsonValue::Object(
        members
            .into_iter()
            .map(|(key, value)| JsonMember { key: key.to_owned(), value })
            .collect(),
    )
}

#[test]
fn human_outline_diff_renders_event_lines() {
    assert_eq!(
        render_human_outline(&sample_diff()),
        "+ /Q2/New\n- /Q2/Old\n~ /Q2/Payment title\n> /Q2/Risk -> /Q3/Risk"
    );
}

#[test]
fn human_outline_of_empty_diff_is_empty_and_fields_join_with_commas() {
    assert_eq!(render_human_outline(&Diff::new()), "");
    let diff = Diff::from_events(vec![DiffEvent::Updated {
        path: TopicPath::root(),
        fields: vec![FieldChange::new("title"), FieldChange::new("note")],
    }]);
    assert_eq!(render_human_outline(&diff), "~ / title,note");
}

#[test]
fn json_diff_renders_summary_and_structured_events() {
    let expected = obj(vec![
        (
            "summary",
            obj(vec![
                ("added", n("1")),
                ("updated", n("1")),
                ("deleted", n("1")),
                ("moved", n("1")),
            ]),
        ),
        (
            "changes",
            JsonValue::Array(vec![
                obj(vec![("event", s("added")), ("path", s("/Q2/New"))]),
                obj(vec![("event", s("deleted")), ("path", s("/Q2/Old"))]),
                obj(vec![
                    ("event", s("updated")),
                    ("path", s("/Q2/Payment")),
                    ("fields", JsonValue::Array(vec![s("title")])),
                ]),
                obj(vec![("event", s("moved")), ("from", s("/Q2/Risk")), ("to", s("/Q3/Risk"))]),
            ]),
        ),
    ]);
    assert_eq!(render_json_diff(&sample_diff()), expected);
}

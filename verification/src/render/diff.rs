//! Rendering a diff as a human-readable outline.
use vstd::prelude::*;
use crate::domain::diff::{Diff, DiffEvent, FieldChange};
use crate::domain::path::render_path_spec;
use crate::domain::diff::count_events;
use crate::infra::xmind::json::{
    json_count, json_items_view, json_members_view, json_string, push_item, push_member, Json,
    JsonMember, JsonValue,
};
use crate::text::{chars_of, decimal_spec, join_spec, lemma_join_step, push_all, string_from_chars};

verus! {

/// The field names of an update joined with `,`.
pub open spec fn field_list_spec(fields: Seq<FieldChange>) -> Seq<char> {
    join_spec(fields.map_values(|f: FieldChange| f@), seq![','])
}

/// The outline line of one event: `+ path`, `- path`, `~ path fields` or `> from -> to`.
pub open spec fn event_line_spec(e: DiffEvent) -> Seq<char> {
    match e {
        DiffEvent::Added { path } => seq!['+', ' '] + render_path_spec(path@),
        DiffEvent::Removed { path } => seq!['-', ' '] + render_path_spec(path@),
        DiffEvent::Updated { path, fields } => seq!['~', ' '] + render_path_spec(path@) + seq![' ']
            + field_list_spec(fields@),
        DiffEvent::Moved { from, to } => seq!['>', ' '] + render_path_spec(from@) + seq![
            ' ',
            '-',
            '>',
            ' ',
        ] + render_path_spec(to@),
    }
}

/// The outline of a diff: one line per event, in order, separated by newlines.
pub open spec fn outline_spec(events: Seq<DiffEvent>) -> Seq<char> {
    join_spec(events.map_values(|e: DiffEvent| event_line_spec(e)), seq!['\n'])
}

fn field_list(fields: &Vec<FieldChange>) -> (r: Vec<char>)
    ensures
        r@ == field_list_spec(fields@),
{
    let ghost views = fields@.map_values(|f: FieldChange| f@);
    let mut out: Vec<char> = Vec::new();
    let mut i: usize = 0;
    while i < fields.len()
        invariant
            i <= fields@.len(),
            views == fields@.map_values(|f: FieldChange| f@),
            out@ == join_spec(views.take(i as int), seq![',']),
        decreases fields@.len() - i,
    {
        proof {
            lemma_join_step(views, seq![','], i as int);
        }
        if i > 0 {
            out.push(',');
            proof {
                assert(out@ == join_spec(views.take(i as int), seq![',']) + seq![',']);
            }
        }
        let cs = fields[i].field_chars();
        push_all(&mut out, cs.as_slice());
        i = i + 1;
    }
    proof {
        assert(views.take(i as int) =~= views);
    }
    out
}

/// Renders one event as an outline line.
fn render_event(event: &DiffEvent) -> (r: Vec<char>)
    ensures
        r@ == event_line_spec(*event),
{
    let mut out: Vec<char> = Vec::new();
    match event {
        DiffEvent::Added { path } => {
            out.push('+');
            out.push(' ');
            let p = chars_of(path.to_selector_value().as_str());
            push_all(&mut out, p.as_slice());
        },
        DiffEvent::Removed { path } => {
            out.push('-');
            out.push(' ');
            let p = chars_of(path.to_selector_value().as_str());
            push_all(&mut out, p.as_slice());
        },
        DiffEvent::Updated { path, fields } => {
            out.push('~');
            out.push(' ');
            let p = chars_of(path.to_selector_value().as_str());
            push_all(&mut out, p.as_slice());
            out.push(' ');
            let f = field_list(fields);
            push_all(&mut out, f.as_slice());
        },
        DiffEvent::Moved { from, to } => {
            out.push('>');
            out.push(' ');
            let p = chars_of(from.to_selector_value().as_str());
            push_all(&mut out, p.as_slice());
            out.push(' ');
            out.push('-');
            out.push('>');
            out.push(' ');
            let q = chars_of(to.to_selector_value().as_str());
            push_all(&mut out, q.as_slice());
        },
    }
    proof {
        assert(out@ =~= event_line_spec(*event));
    }
    out
}

/// Renders a diff as outline lines joined with newlines.
pub fn render_human_outline(diff: &Diff) -> (r: String)
    ensures
        r@ == outline_spec(diff@),
{
    let events = diff.events();
    let ghost lines = events@.map_values(|e: DiffEvent| event_line_spec(e));
    let mut out: Vec<char> = Vec::new();
    let mut i: usize = 0;
    while i < events.len()
        invariant
            i <= events@.len(),
            events@ == diff@,
            lines == events@.map_values(|e: DiffEvent| event_line_spec(e)),
            out@ == join_spec(lines.take(i as int), seq!['\n']),
        decreases events@.len() - i,
    {
        proof {
            lemma_join_step(lines, seq!['\n'], i as int);
        }
        if i > 0 {
            out.push('\n');
            proof {
                assert(out@ == join_spec(lines.take(i as int), seq!['\n']) + seq!['\n']);
            }
        }
        let line = render_event(&events[i]);
        push_all(&mut out, line.as_slice());
        i = i + 1;
    }
    proof {
        assert(lines.take(i as int) =~= lines);
    }
    string_from_chars(out.as_slice())
}

/// The structured form of one event: its kind and its path, or its changed fields,
/// or where it moved from and to.
pub open spec fn json_event_spec(e: DiffEvent) -> Json {
    match e {
        DiffEvent::Added { path } => Json::Object(
            seq![
                ("event"@, Json::String("added"@)),
                ("path"@, Json::String(render_path_spec(path@))),
            ],
        ),
        DiffEvent::Removed { path } => Json::Object(
            seq![
                ("event"@, Json::String("deleted"@)),
                ("path"@, Json::String(render_path_spec(path@))),
            ],
        ),
        DiffEvent::Updated { path, fields } => Json::Object(
            seq![
                ("event"@, Json::String("updated"@)),
                ("path"@, Json::String(render_path_spec(path@))),
                ("fields"@, Json::Array(fields@.map_values(|f: FieldChange| Json::String(f@)))),
            ],
        ),
        DiffEvent::Moved { from, to } => Json::Object(
            seq![
                ("event"@, Json::String("moved"@)),
                ("from"@, Json::String(render_path_spec(from@))),
                ("to"@, Json::String(render_path_spec(to@))),
            ],
        ),
    }
}

/// A count as a JSON number.
pub open spec fn json_nat(n: nat) -> Json {
    Json::Number(decimal_spec(n))
}

/// The structured form of a diff: how many events of each kind, then every event.
pub open spec fn json_diff_spec(events: Seq<DiffEvent>) -> Json {
    Json::Object(
        seq![
            (
                "summary"@,
                Json::Object(
                    seq![
                        ("added"@, json_nat(count_events(events, |e: DiffEvent| e is Added))),
                        ("updated"@, json_nat(count_events(events, |e: DiffEvent| e is Updated))),
                        ("deleted"@, json_nat(count_events(events, |e: DiffEvent| e is Removed))),
                        ("moved"@, json_nat(count_events(events, |e: DiffEvent| e is Moved))),
                    ],
                ),
            ),
            ("changes"@, Json::Array(events.map_values(|e: DiffEvent| json_event_spec(e)))),
        ],
    )
}

fn path_json(path: &crate::domain::path::TopicPath) -> (r: JsonValue)
    ensures
        r@ == Json::String(render_path_spec(path@)),
{
    json_string(path.to_selector_value())
}

fn render_json_event(event: &DiffEvent) -> (r: JsonValue)
    ensures
        r@ == json_event_spec(*event),
{
    let mut members: Vec<JsonMember> = Vec::new();
    match event {
        DiffEvent::Added { path } => {
            push_member(&mut members, "event", json_string("added".to_string()));
            push_member(&mut members, "path", path_json(path));
        },
        DiffEvent::Removed { path } => {
            push_member(&mut members, "event", json_string("deleted".to_string()));
            push_member(&mut members, "path", path_json(path));
        },
        DiffEvent::Updated { path, fields } => {
            push_member(&mut members, "event", json_string("updated".to_string()));
            push_member(&mut members, "path", path_json(path));
            let mut items: Vec<JsonValue> = Vec::new();
            let mut i: usize = 0;
            while i < fields.len()
                invariant
                    i <= fields@.len(),
                    json_items_view(items@) == fields@.take(i as int).map_values(
                        |f: FieldChange| Json::String(f@),
                    ),
                decreases fields@.len() - i,
            {
                push_item(&mut items, json_string(fields[i].field().to_string()));
                proof {
                    assert(fields@.take(i + 1).map_values(|f: FieldChange| Json::String(f@))
                        == fields@.take(i as int).map_values(|f: FieldChange| Json::String(f@)).push(
                        Json::String(fields@[i as int]@),
                    ));
                }
                i = i + 1;
            }
            proof {
                assert(fields@.take(i as int) == fields@);
            }
            push_member(&mut members, "fields", JsonValue::Array(items));
        },
        DiffEvent::Moved { from, to } => {
            push_member(&mut members, "event", json_string("moved".to_string()));
            push_member(&mut members, "from", path_json(from));
            push_member(&mut members, "to", path_json(to));
        },
    }
    proof {
        assert(json_members_view(members@) =~= match json_event_spec(*event) {
            Json::Object(m) => m,
            _ => Seq::empty(),
        });
    }
    JsonValue::Object(members)
}

/// Renders a diff as a JSON document: a `summary` with the number of added, updated,
/// deleted and moved topics, and `changes` with one object per event.
pub fn render_json_diff(diff: &Diff) -> (r: JsonValue)
    ensures
        r@ == json_diff_spec(diff@),
{
    let summary = diff.summary();
    let mut counts: Vec<JsonMember> = Vec::new();
    push_member(&mut counts, "added", json_count(summary.added));
    push_member(&mut counts, "updated", json_count(summary.updated));
    push_member(&mut counts, "deleted", json_count(summary.deleted));
    push_member(&mut counts, "moved", json_count(summary.moved));
    let events = diff.events();
    let mut changes: Vec<JsonValue> = Vec::new();
    let mut i: usize = 0;
    while i < events.len()
        invariant
            i <= events@.len(),
            events@ == diff@,
            json_items_view(changes@) == events@.take(i as int).map_values(
                |e: DiffEvent| json_event_spec(e),
            ),
        decreases events@.len() - i,
    {
        push_item(&mut changes, render_json_event(&events[i]));
        proof {
            assert(events@.take(i + 1).map_values(|e: DiffEvent| json_event_spec(e))
                == events@.take(i as int).map_values(|e: DiffEvent| json_event_spec(e)).push(
                json_event_spec(events@[i as int]),
            ));
        }
        i = i + 1;
    }
    proof {
        assert(events@.take(i as int) == events@);
    }
    let ghost ev = diff@;
    assert(json_members_view(counts@) =~= seq![
        ("added"@, json_nat(count_events(ev, |e: DiffEvent| e is Added))),
        ("updated"@, json_nat(count_events(ev, |e: DiffEvent| e is Updated))),
        ("deleted"@, json_nat(count_events(ev, |e: DiffEvent| e is Removed))),
        ("moved"@, json_nat(count_events(ev, |e: DiffEvent| e is Moved))),
    ]);
    let summary_json = JsonValue::Object(counts);
    let changes_json = JsonValue::Array(changes);
    assert(summary_json@ == Json::Object(seq![
        ("added"@, json_nat(count_events(ev, |e: DiffEvent| e is Added))),
        ("updated"@, json_nat(count_events(ev, |e: DiffEvent| e is Updated))),
        ("deleted"@, json_nat(count_events(ev, |e: DiffEvent| e is Removed))),
        ("moved"@, json_nat(count_events(ev, |e: DiffEvent| e is Moved))),
    ]));
    assert(changes_json@ == Json::Array(ev.map_values(|e: DiffEvent| json_event_spec(e))));
    let mut top: Vec<JsonMember> = Vec::new();
    push_member(&mut top, "summary", summary_json);
    push_member(&mut top, "changes", changes_json);
    proof {
        assert(json_members_view(top@) =~= match json_diff_spec(diff@) {
            Json::Object(m) => m,
            _ => Seq::empty(),
        });
    }
    JsonValue::Object(top)
}

} // verus!

//! The structured results of the read commands as JSON: in full, or, for compact
//! output, with only the fields asked for.
use vstd::prelude::*;
use crate::app::find::FindMatchDto;
use crate::app::tree_view::{TopicImageRefDto, TreeResultDto, TreeTopicDto};
use crate::domain::topic::{count_topics, topic_count};
use crate::domain::workbook::Workbook;
use crate::infra::xmind::content::{opt_text, set_member, with_member, Members, mv};
use crate::infra::xmind::json::{
    json_count, json_items_view, json_members_view, push_item, push_member, Json, JsonMember,
    JsonValue,
};
use crate::text::{decimal_spec, str_equal};

verus! {

/// A sheet as `sheets` and `inspect` list it.
#[derive(Debug, PartialEq, Eq)]
pub struct SheetDto {
    pub id: String,
    pub index: usize,
    pub title: String,
    pub root_topic_id: String,
    pub topic_count: usize,
}

/// The result of `sheets`.
#[derive(Debug, PartialEq, Eq)]
pub struct SheetsResultDto {
    pub sheets: Vec<SheetDto>,
}

/// What `inspect` says the tool can do with a workbook.
#[derive(Debug, PartialEq, Eq)]
pub struct InspectCapabilitiesDto {
    pub can_read_topics: bool,
    pub can_preserve_unknown: bool,
}

/// The result of `inspect`.
#[derive(Debug, PartialEq, Eq)]
pub struct InspectResultDto {
    pub file: String,
    pub format: String,
    pub sheet_count: usize,
    pub sheets: Vec<SheetDto>,
    pub resources_count: usize,
    pub capabilities: InspectCapabilitiesDto,
}

/// The result of `get`.
#[derive(Debug, PartialEq, Eq)]
pub struct GetResultDto {
    pub topic: TreeTopicDto,
}

/// A JSON number of a count.
pub open spec fn count_json(n: usize) -> Json {
    Json::Number(decimal_spec(n as nat))
}

/// A JSON array of texts.
pub open spec fn texts_json(v: Seq<String>) -> Json {
    Json::Array(v.map_values(|s: String| Json::String(s@)))
}

/// An attached image as reported: its asset id, and its alternative text and title where
/// it has them.
pub open spec fn image_ref_json(i: TopicImageRefDto) -> Json {
    Json::Object(
        seq![("asset_id"@, Json::String(i.asset_id@))] + match i.alt {
            Some(a) => seq![("alt"@, Json::String(a@))],
            None => seq![],
        } + match i.title {
            Some(t) => seq![("title"@, Json::String(t@))],
            None => seq![],
        },
    )
}

/// The value a reported topic gives for a field, if it has one; its children are given
/// with the same fields.
pub open spec fn topic_field_json(d: TreeTopicDto, f: Seq<char>, fields: Seq<Seq<char>>) -> Option<Json>
    decreases d, 1nat, 0int,
{
    if f == "id"@ {
        Some(Json::String(d.id@))
    } else if f == "path"@ {
        Some(Json::String(d.path@))
    } else if f == "title"@ {
        Some(Json::String(d.title@))
    } else if f == "note"@ {
        match d.note {
            Some(n) => Some(Json::String(n@)),
            None => None,
        }
    } else if f == "labels"@ {
        Some(texts_json(d.labels@))
    } else if f == "markers"@ {
        Some(texts_json(d.markers@))
    } else if f == "hyperlink"@ {
        match d.hyperlink {
            Some(h) => Some(Json::String(h@)),
            None => None,
        }
    } else if f == "image"@ {
        match d.image {
            Some(i) => Some(image_ref_json(i)),
            None => None,
        }
    } else if f == "children_count"@ {
        match d.children_count {
            Some(c) => Some(count_json(c)),
            None => None,
        }
    } else if f == "children"@ {
        match d.children {
            Some(cs) => {
                proof {
                    assert(decreases_to!(d => d.children));
                    assert(decreases_to!(d.children => cs));
                    assert(decreases_to!(cs => cs@));
                }
                Some(Json::Array(children_json(cs@, fields, cs@.len() as int)))
            },
            None => None,
        }
    } else {
        None
    }
}

/// The members for the first `n` fields, each field that gives a value set in turn.
pub open spec fn topic_members(d: TreeTopicDto, fields: Seq<Seq<char>>, n: int) -> Members
    decreases d, 2nat, n,
{
    if n <= 0 || n > fields.len() {
        seq![]
    } else {
        let before = topic_members(d, fields, n - 1);
        match topic_field_json(d, fields[n - 1], fields) {
            Some(v) => with_member(before, fields[n - 1], v),
            None => before,
        }
    }
}

/// A reported topic with the given fields.
pub open spec fn tree_topic_json(d: TreeTopicDto, fields: Seq<Seq<char>>) -> Json
    decreases d, 3nat, 0int,
{
    Json::Object(topic_members(d, fields, fields.len() as int))
}

/// The first `m` reported children with the given fields.
pub open spec fn children_json(cs: Seq<TreeTopicDto>, fields: Seq<Seq<char>>, m: int) -> Seq<Json>
    decreases cs, 0nat, m,
{
    if m <= 0 || m > cs.len() {
        seq![]
    } else {
        children_json(cs, fields, m - 1).push(tree_topic_json(cs[m - 1], fields))
    }
}

/// Every field of a reported topic, in the order the full result has them.
pub open spec fn all_topic_fields() -> Seq<Seq<char>> {
    seq![
        "id"@,
        "path"@,
        "title"@,
        "note"@,
        "labels"@,
        "markers"@,
        "hyperlink"@,
        "image"@,
        "children"@,
        "children_count"@,
    ]
}

fn texts_value(v: &Vec<String>) -> (r: JsonValue)
    ensures
        r@ == texts_json(v@),
{
    let mut items: Vec<JsonValue> = Vec::new();
    let mut i: usize = 0;
    while i < v.len()
        invariant
            i <= v@.len(),
            json_items_view(items@) =~= v@.take(i as int).map_values(|s: String| Json::String(s@)),
        decreases v@.len() - i,
    {
        push_item(&mut items, JsonValue::String(v[i].clone()));
        proof {
            assert(v@.take(i + 1) =~= v@.take(i as int).push(v@[i as int]));
        }
        i = i + 1;
    }
    proof {
        assert(v@.take(i as int) =~= v@);
    }
    JsonValue::Array(items)
}

/// An attached image as reported.
pub fn image_ref_value(i: &TopicImageRefDto) -> (r: JsonValue)
    ensures
        r@ == image_ref_json(*i),
{
    let mut ms: Vec<JsonMember> = Vec::new();
    push_member(&mut ms, "asset_id", JsonValue::String(i.asset_id.clone()));
    let ghost m0 = json_members_view(ms@);
    match &i.alt {
        Some(a) => push_member(&mut ms, "alt", JsonValue::String(a.clone())),
        None => {},
    }
    let ghost m1 = json_members_view(ms@);
    match &i.title {
        Some(t) => push_member(&mut ms, "title", JsonValue::String(t.clone())),
        None => {},
    }
    proof {
        assert(json_members_view(ms@) =~= image_ref_json(*i)->Object_0);
    }
    JsonValue::Object(ms)
}

fn field_value(d: &TreeTopicDto, f: &str, fields: &Vec<String>) -> (r: Option<JsonValue>)
    ensures
        match topic_field_json(*d, f@, fields.deep_view()) {
            Some(v) => r matches Some(x) && x@ == v,
            None => r is None,
        },
    decreases d, 1nat,
{
    if str_equal(f, "id") {
        Some(JsonValue::String(d.id.clone()))
    } else if str_equal(f, "path") {
        Some(JsonValue::String(d.path.clone()))
    } else if str_equal(f, "title") {
        Some(JsonValue::String(d.title.clone()))
    } else if str_equal(f, "note") {
        match &d.note {
            Some(n) => Some(JsonValue::String(n.clone())),
            None => None,
        }
    } else if str_equal(f, "labels") {
        Some(texts_value(&d.labels))
    } else if str_equal(f, "markers") {
        Some(texts_value(&d.markers))
    } else if str_equal(f, "hyperlink") {
        match &d.hyperlink {
            Some(h) => Some(JsonValue::String(h.clone())),
            None => None,
        }
    } else if str_equal(f, "image") {
        match &d.image {
            Some(i) => Some(image_ref_value(i)),
            None => None,
        }
    } else if str_equal(f, "children_count") {
        match d.children_count {
            Some(c) => Some(json_count(c)),
            None => None,
        }
    } else if str_equal(f, "children") {
        match &d.children {
            Some(cs) => {
                let mut items: Vec<JsonValue> = Vec::new();
                let mut i: usize = 0;
                while i < cs.len()
                    invariant
                        i <= cs@.len(),
                        d.children == Some(*cs),
                        json_items_view(items@) == children_json(cs@, fields.deep_view(), i as int),
                    decreases cs@.len() - i,
                {
                    proof {
                        assert(decreases_to!(*d => d.children));
                        assert(decreases_to!(d.children => d.children->Some_0));
                        assert(decreases_to!(*cs => cs@));
                        assert(decreases_to!(cs@ => cs@[i as int]));
                    }
                    let v = render_tree_topic(&cs[i], fields);
                    push_item(&mut items, v);
                    i = i + 1;
                }
                Some(JsonValue::Array(items))
            },
            None => None,
        }
    } else {
        None
    }
}

/// A reported topic as compact output gives it: only the fields asked for, a field
/// without a value left out, children with the same fields.
pub fn render_tree_topic(topic: &TreeTopicDto, fields: &Vec<String>) -> (r: JsonValue)
    ensures
        r@ == tree_topic_json(*topic, fields.deep_view()),
    decreases topic, 2nat,
{
    let ghost fv = fields.deep_view();
    let mut ms: Vec<JsonMember> = Vec::new();
    let mut i: usize = 0;
    proof {
        assert(mv(ms@) =~= Seq::<(Seq<char>, Json)>::empty());
    }
    while i < fields.len()
        invariant
            i <= fields@.len(),
            fv == fields.deep_view(),
            mv(ms@) == topic_members(*topic, fv, i as int),
        decreases fields@.len() - i,
    {
        let f = fields[i].as_str();
        proof {
            assert(fv[i as int] == f@);
        }
        match field_value(topic, f, fields) {
            Some(v) => {
                set_member(&mut ms, f, v);
            },
            None => {},
        }
        i = i + 1;
    }
    JsonValue::Object(ms)
}

fn string_list(items: &[&str]) -> (r: Vec<String>)
    ensures
        r.deep_view() == items@.map_values(|s: &str| s@),
{
    let mut v: Vec<String> = Vec::new();
    let mut i: usize = 0;
    while i < items.len()
        invariant
            i <= items@.len(),
            v.deep_view() =~= items@.take(i as int).map_values(|s: &str| s@),
        decreases items@.len() - i,
    {
        let ghost before = v.deep_view();
        v.push(items[i].to_string());
        proof {
            assert(v.deep_view() =~= before.push(items@[i as int]@));
            assert(items@.take(i + 1) =~= items@.take(i as int).push(items@[i as int]));
        }
        i = i + 1;
    }
    proof {
        assert(items@.take(i as int) =~= items@);
    }
    v
}

/// The fields asked for, or the command's default ones where none were.
pub fn requested_fields(fields: &Vec<String>, defaults: &[&str]) -> (r: Vec<String>)
    ensures
        fields@.len() > 0 ==> r.deep_view() == fields.deep_view(),
        fields@.len() == 0 ==> r.deep_view() == defaults@.map_values(|s: &str| s@),
{
    if fields.len() > 0 {
        let r = crate::text::clone_strings(fields);
        proof {
            assert(r.deep_view() =~= fields.deep_view());
        }
        r
    } else {
        string_list(defaults)
    }
}

/// The result of `tree`: in full, or compact with the fields asked for (by default id,
/// path, title, children_count and children).
pub fn render_tree_result(result: &TreeResultDto, fields: &Vec<String>, compact_json: bool) -> (r: JsonValue)
    ensures
        r@ == Json::Object(
            seq![
                ("sheet"@, Json::String(result.sheet@)),
                (
                    "root"@,
                    tree_topic_json(
                        result.root,
                        if !compact_json {
                            all_topic_fields()
                        } else if fields@.len() > 0 {
                            fields.deep_view()
                        } else {
                            seq!["id"@, "path"@, "title"@, "children_count"@, "children"@]
                        },
                    ),
                ),
            ],
        ),
{
    let chosen = if !compact_json {
        string_list(&["id", "path", "title", "note", "labels", "markers", "hyperlink", "image", "children", "children_count"])
    } else {
        requested_fields(fields, &["id", "path", "title", "children_count", "children"])
    };
    proof {
        reveal_strlit("id");
        assert(chosen.deep_view() =~= if !compact_json {
            all_topic_fields()
        } else if fields@.len() > 0 {
            fields.deep_view()
        } else {
            seq!["id"@, "path"@, "title"@, "children_count"@, "children"@]
        });
    }
    let mut ms: Vec<JsonMember> = Vec::new();
    push_member(&mut ms, "sheet", JsonValue::String(result.sheet.clone()));
    push_member(&mut ms, "root", render_tree_topic(&result.root, &chosen));
    proof {
        assert(json_members_view(ms@) =~= seq![
            ("sheet"@, Json::String(result.sheet@)),
            ("root"@, tree_topic_json(result.root, chosen.deep_view())),
        ]);
    }
    JsonValue::Object(ms)
}

/// The result of `get`: the topic in full, or compact with the fields asked for (by
/// default all but its children).
pub fn render_get_result(result: &GetResultDto, fields: &Vec<String>, compact_json: bool) -> (r: JsonValue)
    ensures
        r@ == Json::Object(
            seq![
                (
                    "topic"@,
                    tree_topic_json(
                        result.topic,
                        if !compact_json {
                            all_topic_fields()
                        } else if fields@.len() > 0 {
                            fields.deep_view()
                        } else {
                            seq![
                                "id"@,
                                "path"@,
                                "title"@,
                                "note"@,
                                "labels"@,
                                "markers"@,
                                "hyperlink"@,
                                "image"@,
                                "children_count"@,
                            ]
                        },
                    ),
                ),
            ],
        ),
{
    let chosen = if !compact_json {
        string_list(&["id", "path", "title", "note", "labels", "markers", "hyperlink", "image", "children", "children_count"])
    } else {
        requested_fields(fields, &["id", "path", "title", "note", "labels", "markers", "hyperlink", "image", "children_count"])
    };
    proof {
        assert(chosen.deep_view() =~= if !compact_json {
            all_topic_fields()
        } else if fields@.len() > 0 {
            fields.deep_view()
        } else {
            seq!["id"@, "path"@, "title"@, "note"@, "labels"@, "markers"@, "hyperlink"@, "image"@, "children_count"@]
        });
    }
    let mut ms: Vec<JsonMember> = Vec::new();
    push_member(&mut ms, "topic", render_tree_topic(&result.topic, &chosen));
    proof {
        assert(json_members_view(ms@) =~= seq![("topic"@, tree_topic_json(result.topic, chosen.deep_view()))]);
    }
    JsonValue::Object(ms)
}

/// The value a found topic gives for a field.
pub open spec fn match_field_json(m: FindMatchDto, f: Seq<char>) -> Option<Json> {
    if f == "id"@ {
        Some(Json::String(m.id@))
    } else if f == "path"@ {
        Some(Json::String(m.path@))
    } else if f == "title"@ {
        Some(Json::String(m.title@))
    } else if f == "sheet"@ {
        Some(Json::String(m.sheet@))
    } else if f == "children_count"@ {
        Some(count_json(m.children_count))
    } else {
        None
    }
}

/// The members of a found topic for the first `n` fields.
pub open spec fn match_members(m: FindMatchDto, fields: Seq<Seq<char>>, n: int) -> Members
    decreases n,
{
    if n <= 0 || n > fields.len() {
        seq![]
    } else {
        let before = match_members(m, fields, n - 1);
        match match_field_json(m, fields[n - 1]) {
            Some(v) => with_member(before, fields[n - 1], v),
            None => before,
        }
    }
}

/// A found topic with the given fields.
pub fn render_find_match(m: &FindMatchDto, fields: &Vec<String>) -> (r: JsonValue)
    ensures
        r@ == Json::Object(match_members(*m, fields.deep_view(), fields@.len() as int)),
{
    let ghost fv = fields.deep_view();
    let mut ms: Vec<JsonMember> = Vec::new();
    let mut i: usize = 0;
    proof {
        assert(mv(ms@) =~= Seq::<(Seq<char>, Json)>::empty());
    }
    while i < fields.len()
        invariant
            i <= fields@.len(),
            fv == fields.deep_view(),
            mv(ms@) == match_members(*m, fv, i as int),
        decreases fields@.len() - i,
    {
        let f = fields[i].as_str();
        proof {
            assert(fv[i as int] == f@);
        }
        if str_equal(f, "id") {
            set_member(&mut ms, f, JsonValue::String(m.id.clone()));
        } else if str_equal(f, "path") {
            set_member(&mut ms, f, JsonValue::String(m.path.clone()));
        } else if str_equal(f, "title") {
            set_member(&mut ms, f, JsonValue::String(m.title.clone()));
        } else if str_equal(f, "sheet") {
            set_member(&mut ms, f, JsonValue::String(m.sheet.clone()));
        } else if str_equal(f, "children_count") {
            set_member(&mut ms, f, json_count(m.children_count));
        }
        i = i + 1;
    }
    JsonValue::Object(ms)
}

/// The fields of a found topic that `find` reports: those asked for in compact output,
/// else all five.
pub open spec fn find_fields(fields: Seq<Seq<char>>, compact_json: bool) -> Seq<Seq<char>> {
    if compact_json && fields.len() > 0 {
        fields
    } else {
        seq!["id"@, "path"@, "title"@, "sheet"@, "children_count"@]
    }
}

/// The result of `find`: the matches, each with the reported fields.
pub fn render_find_result(matches: &Vec<FindMatchDto>, fields: &Vec<String>, compact_json: bool) -> (r: JsonValue)
    ensures
        r@ == Json::Object(
            seq![
                (
                    "matches"@,
                    Json::Array(
                        Seq::new(
                            matches@.len(),
                            |i: int|
                                Json::Object(
                                    match_members(
                                        matches@[i],
                                        find_fields(fields.deep_view(), compact_json),
                                        find_fields(fields.deep_view(), compact_json).len() as int,
                                    ),
                                ),
                        ),
                    ),
                ),
            ],
        ),
{
    let chosen = if compact_json && fields.len() > 0 {
        let c = crate::text::clone_strings(fields);
        proof {
            assert(c.deep_view() =~= fields.deep_view());
        }
        c
    } else {
        string_list(&["id", "path", "title", "sheet", "children_count"])
    };
    let ghost fv = find_fields(fields.deep_view(), compact_json);
    proof {
        assert(chosen.deep_view() =~= fv);
    }
    let mut items: Vec<JsonValue> = Vec::new();
    let mut i: usize = 0;
    while i < matches.len()
        invariant
            i <= matches@.len(),
            chosen.deep_view() == fv,
            json_items_view(items@) =~= Seq::new(
                i as nat,
                |k: int| Json::Object(match_members(matches@[k], fv, fv.len() as int)),
            ),
        decreases matches@.len() - i,
    {
        push_item(&mut items, render_find_match(&matches[i], &chosen));
        i = i + 1;
    }
    let mut ms: Vec<JsonMember> = Vec::new();
    push_member(&mut ms, "matches", JsonValue::Array(items));
    proof {
        assert(json_members_view(ms@) =~= seq![
            (
                "matches"@,
                Json::Array(
                    Seq::new(matches@.len(), |k: int| Json::Object(match_members(matches@[k], fv, fv.len() as int))),
                ),
            ),
        ]);
    }
    JsonValue::Object(ms)
}

/// The value a listed sheet gives for a field.
pub open spec fn sheet_field_json(s: SheetDto, f: Seq<char>) -> Option<Json> {
    if f == "id"@ {
        Some(Json::String(s.id@))
    } else if f == "index"@ {
        Some(count_json(s.index))
    } else if f == "title"@ {
        Some(Json::String(s.title@))
    } else if f == "root_topic_id"@ {
        Some(Json::String(s.root_topic_id@))
    } else if f == "topic_count"@ {
        Some(count_json(s.topic_count))
    } else {
        None
    }
}

/// The members of a listed sheet for the first `n` fields.
pub open spec fn sheet_members(s: SheetDto, fields: Seq<Seq<char>>, n: int) -> Members
    decreases n,
{
    if n <= 0 || n > fields.len() {
        seq![]
    } else {
        let before = sheet_members(s, fields, n - 1);
        match sheet_field_json(s, fields[n - 1]) {
            Some(v) => with_member(before, fields[n - 1], v),
            None => before,
        }
    }
}

/// Every field of a listed sheet.
pub open spec fn all_sheet_fields() -> Seq<Seq<char>> {
    seq!["id"@, "index"@, "title"@, "root_topic_id"@, "topic_count"@]
}

/// A listed sheet with the given fields.
pub fn render_sheet(s: &SheetDto, fields: &Vec<String>) -> (r: JsonValue)
    ensures
        r@ == Json::Object(sheet_members(*s, fields.deep_view(), fields@.len() as int)),
{
    let ghost fv = fields.deep_view();
    let mut ms: Vec<JsonMember> = Vec::new();
    let mut i: usize = 0;
    proof {
        assert(mv(ms@) =~= Seq::<(Seq<char>, Json)>::empty());
    }
    while i < fields.len()
        invariant
            i <= fields@.len(),
            fv == fields.deep_view(),
            mv(ms@) == sheet_members(*s, fv, i as int),
        decreases fields@.len() - i,
    {
        let f = fields[i].as_str();
        proof {
            assert(fv[i as int] == f@);
        }
        if str_equal(f, "id") {
            set_member(&mut ms, f, JsonValue::String(s.id.clone()));
        } else if str_equal(f, "index") {
            set_member(&mut ms, f, json_count(s.index));
        } else if str_equal(f, "title") {
            set_member(&mut ms, f, JsonValue::String(s.title.clone()));
        } else if str_equal(f, "root_topic_id") {
            set_member(&mut ms, f, JsonValue::String(s.root_topic_id.clone()));
        } else if str_equal(f, "topic_count") {
            set_member(&mut ms, f, json_count(s.topic_count));
        }
        i = i + 1;
    }
    JsonValue::Object(ms)
}

/// The listed sheets, each with the given fields.
pub open spec fn sheets_json_with(ss: Seq<SheetDto>, fields: Seq<Seq<char>>) -> Json {
    Json::Array(Seq::new(ss.len(), |i: int| Json::Object(sheet_members(ss[i], fields, fields.len() as int))))
}

fn render_sheet_list(sheets: &Vec<SheetDto>, fields: &Vec<String>) -> (r: JsonValue)
    ensures
        r@ == sheets_json_with(sheets@, fields.deep_view()),
{
    let mut items: Vec<JsonValue> = Vec::new();
    let mut i: usize = 0;
    while i < sheets.len()
        invariant
            i <= sheets@.len(),
            json_items_view(items@) =~= Seq::new(
                i as nat,
                |k: int| Json::Object(sheet_members(sheets@[k], fields.deep_view(), fields@.len() as int)),
            ),
        decreases sheets@.len() - i,
    {
        push_item(&mut items, render_sheet(&sheets[i], fields));
        i = i + 1;
    }
    JsonValue::Array(items)
}

/// The result of `sheets`: each sheet in full, or compact with the fields asked for (by
/// default id, index, title and topic_count).
pub fn render_sheets_result(result: &SheetsResultDto, fields: &Vec<String>, compact_json: bool) -> (r: JsonValue)
    ensures
        r@ == Json::Object(
            seq![
                (
                    "sheets"@,
                    sheets_json_with(
                        result.sheets@,
                        if !compact_json {
                            all_sheet_fields()
                        } else if fields@.len() > 0 {
                            fields.deep_view()
                        } else {
                            seq!["id"@, "index"@, "title"@, "topic_count"@]
                        },
                    ),
                ),
            ],
        ),
{
    let chosen = if !compact_json {
        string_list(&["id", "index", "title", "root_topic_id", "topic_count"])
    } else {
        requested_fields(fields, &["id", "index", "title", "topic_count"])
    };
    proof {
        assert(chosen.deep_view() =~= if !compact_json {
            all_sheet_fields()
        } else if fields@.len() > 0 {
            fields.deep_view()
        } else {
            seq!["id"@, "index"@, "title"@, "topic_count"@]
        });
    }
    let mut ms: Vec<JsonMember> = Vec::new();
    push_member(&mut ms, "sheets", render_sheet_list(&result.sheets, &chosen));
    proof {
        assert(json_members_view(ms@) =~= seq![("sheets"@, sheets_json_with(result.sheets@, chosen.deep_view()))]);
    }
    JsonValue::Object(ms)
}

/// The capabilities as reported.
pub open spec fn capabilities_json(c: InspectCapabilitiesDto) -> Json {
    Json::Object(
        seq![("can_read_topics"@, Json::Bool(c.can_read_topics)), ("can_preserve_unknown"@, Json::Bool(c.can_preserve_unknown))],
    )
}

/// The value the `inspect` result gives for a field.
pub open spec fn inspect_field_json(r: InspectResultDto, f: Seq<char>) -> Option<Json> {
    if f == "file"@ {
        Some(Json::String(r.file@))
    } else if f == "format"@ {
        Some(Json::String(r.format@))
    } else if f == "sheet_count"@ {
        Some(count_json(r.sheet_count))
    } else if f == "sheets"@ {
        Some(sheets_json_with(r.sheets@, all_sheet_fields()))
    } else if f == "resources_count"@ {
        Some(count_json(r.resources_count))
    } else if f == "capabilities"@ {
        Some(capabilities_json(r.capabilities))
    } else {
        None
    }
}

/// The members of the `inspect` result for the first `n` fields.
pub open spec fn inspect_members(r: InspectResultDto, fields: Seq<Seq<char>>, n: int) -> Members
    decreases n,
{
    if n <= 0 || n > fields.len() {
        seq![]
    } else {
        let before = inspect_members(r, fields, n - 1);
        match inspect_field_json(r, fields[n - 1]) {
            Some(v) => with_member(before, fields[n - 1], v),
            None => before,
        }
    }
}

/// The result of `inspect`: in full, or compact with the fields asked for (by default
/// file, format, sheet_count, sheets and capabilities).
pub fn render_inspect_result(result: &InspectResultDto, fields: &Vec<String>, compact_json: bool) -> (r: JsonValue)
    ensures
        r@ == Json::Object(
            inspect_members(
                *result,
                if !compact_json {
                    seq!["file"@, "format"@, "sheet_count"@, "sheets"@, "resources_count"@, "capabilities"@]
                } else if fields@.len() > 0 {
                    fields.deep_view()
                } else {
                    seq!["file"@, "format"@, "sheet_count"@, "sheets"@, "capabilities"@]
                },
                if !compact_json {
                    6
                } else if fields@.len() > 0 {
                    fields@.len() as int
                } else {
                    5
                },
            ),
        ),
{
    let chosen = if !compact_json {
        string_list(&["file", "format", "sheet_count", "sheets", "resources_count", "capabilities"])
    } else {
        requested_fields(fields, &["file", "format", "sheet_count", "sheets", "capabilities"])
    };
    let ghost fv = chosen.deep_view();
    proof {
        assert(fv =~= if !compact_json {
            seq!["file"@, "format"@, "sheet_count"@, "sheets"@, "resources_count"@, "capabilities"@]
        } else if fields@.len() > 0 {
            fields.deep_view()
        } else {
            seq!["file"@, "format"@, "sheet_count"@, "sheets"@, "capabilities"@]
        });
    }
    let all = string_list(&["id", "index", "title", "root_topic_id", "topic_count"]);
    proof {
        assert(all.deep_view() =~= all_sheet_fields());
    }
    let mut ms: Vec<JsonMember> = Vec::new();
    let mut i: usize = 0;
    proof {
        assert(mv(ms@) =~= Seq::<(Seq<char>, Json)>::empty());
    }
    while i < chosen.len()
        invariant
            i <= chosen@.len(),
            fv == chosen.deep_view(),
            all.deep_view() == all_sheet_fields(),
            mv(ms@) == inspect_members(*result, fv, i as int),
        decreases chosen@.len() - i,
    {
        let f = chosen[i].as_str();
        proof {
            assert(fv[i as int] == f@);
        }
        if str_equal(f, "file") {
            set_member(&mut ms, f, JsonValue::String(result.file.clone()));
        } else if str_equal(f, "format") {
            set_member(&mut ms, f, JsonValue::String(result.format.clone()));
        } else if str_equal(f, "sheet_count") {
            set_member(&mut ms, f, json_count(result.sheet_count));
        } else if str_equal(f, "sheets") {
            set_member(&mut ms, f, render_sheet_list(&result.sheets, &all));
        } else if str_equal(f, "resources_count") {
            set_member(&mut ms, f, json_count(result.resources_count));
        } else if str_equal(f, "capabilities") {
            let mut cs: Vec<JsonMember> = Vec::new();
            push_member(&mut cs, "can_read_topics", JsonValue::Bool(result.capabilities.can_read_topics));
            push_member(&mut cs, "can_preserve_unknown", JsonValue::Bool(result.capabilities.can_preserve_unknown));
            proof {
                assert(json_members_view(cs@) =~= capabilities_json(result.capabilities)->Object_0);
            }
            set_member(&mut ms, f, JsonValue::Object(cs));
        }
        i = i + 1;
    }
    JsonValue::Object(ms)
}

/// Whether `d` lists the sheet at `index` of a workbook.
pub open spec fn sheet_listed(d: SheetDto, w: Workbook, index: int) -> bool {
    &&& d.id@ == w.sheets@[index].id.0@
    &&& d.index == index
    &&& d.title@ == w.sheets@[index].title@
    &&& d.root_topic_id@ == w.sheets@[index].root.id.0@
    &&& (topic_count(w.sheets@[index].root) <= usize::MAX ==> d.topic_count == topic_count(w.sheets@[index].root))
    &&& (topic_count(w.sheets@[index].root) > usize::MAX ==> d.topic_count == usize::MAX)
}

/// The sheets of a workbook as `sheets` and `inspect` list them, in order.
pub fn sheet_dtos(workbook: &Workbook) -> (r: Vec<SheetDto>)
    ensures
        r@.len() == workbook.sheets@.len(),
        forall|i: int| 0 <= i < r@.len() ==> sheet_listed(#[trigger] r@[i], *workbook, i),
{
    let mut out: Vec<SheetDto> = Vec::new();
    let mut i: usize = 0;
    while i < workbook.sheets.len()
        invariant
            i <= workbook.sheets@.len(),
            out@.len() == i,
            forall|k: int| 0 <= k < i ==> sheet_listed(#[trigger] out@[k], *workbook, k),
        decreases workbook.sheets@.len() - i,
    {
        let sheet = &workbook.sheets[i];
        out.push(
            SheetDto {
                id: sheet.id.0.clone(),
                index: i,
                title: sheet.title.clone(),
                root_topic_id: sheet.root.id.0.clone(),
                topic_count: count_topics(&sheet.root),
            },
        );
        i = i + 1;
    }
    out
}

/// The result of `inspect` for a workbook read from `file`.
pub fn inspect_result(workbook: &Workbook, file: String) -> (r: InspectResultDto)
    ensures
        r.file@ == file@,
        r.format@ == "xmind-zen"@,
        r.sheet_count == workbook.sheets@.len(),
        r.sheets@.len() == workbook.sheets@.len(),
        forall|i: int| 0 <= i < r.sheets@.len() ==> sheet_listed(#[trigger] r.sheets@[i], *workbook, i),
        r.resources_count == workbook.resources@.len(),
        r.capabilities.can_read_topics,
        r.capabilities.can_preserve_unknown == !(workbook.preservation.package_entries()@.len() == 0
            && workbook.preservation.json_fields().len() == 0),
{
    let sheets = sheet_dtos(workbook);
    InspectResultDto {
        file,
        format: "xmind-zen".to_string(),
        sheet_count: sheets.len(),
        sheets,
        resources_count: workbook.resources.len(),
        capabilities: InspectCapabilitiesDto {
            can_read_topics: true,
            can_preserve_unknown: !workbook.preservation.is_empty(),
        },
    }
}

} // verus!

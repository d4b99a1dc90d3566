//! Edits of `content.json`, the workbook's sheets as JSON: find a topic by its id and
//! change its fields, its children or its place, leaving every other member as it was.
use vstd::prelude::*;
use crate::infra::xmind::encode::TopicClearField;
use crate::infra::xmind::json::{
    clone_json, json_items_view, json_members_view, json_view, lemma_items_insert,
    lemma_items_remove, lemma_items_update, lemma_items_view, lemma_members_remove,
    lemma_members_update, lemma_members_view, push_item, push_member, Json, JsonMember, JsonValue,
};
use crate::text::str_equal;

verus! {

/// The members of a JSON object, as mathematics sees them.
pub type Members = Seq<(Seq<char>, Json)>;

/// The first position at or after `i` whose member has the key `k`, or -1.
pub open spec fn key_from(ms: Members, k: Seq<char>, i: int) -> int
    decreases ms.len() - i,
{
    if i < 0 || i >= ms.len() {
        -1
    } else if ms[i].0 == k {
        i
    } else {
        key_from(ms, k, i + 1)
    }
}

/// The position of the member with the key `k` (the first, should there be more), or -1.
pub open spec fn key_index(ms: Members, k: Seq<char>) -> int {
    key_from(ms, k, 0)
}

/// The value of the member `k`, if the object has one.
pub open spec fn member_value(ms: Members, k: Seq<char>) -> Option<Json> {
    let i = key_index(ms, k);
    if 0 <= i < ms.len() {
        Some(ms[i].1)
    } else {
        None
    }
}

/// The object with the member `k` set to `v`: in its place if it was there, else added
/// at the end.
pub open spec fn with_member(ms: Members, k: Seq<char>, v: Json) -> Members {
    let i = key_index(ms, k);
    if 0 <= i < ms.len() {
        ms.update(i, (k, v))
    } else {
        ms.push((k, v))
    }
}

/// The object without the member `k`.
pub open spec fn without_member(ms: Members, k: Seq<char>) -> Members {
    let i = key_index(ms, k);
    if 0 <= i < ms.len() {
        ms.remove(i)
    } else {
        ms
    }
}

/// Whether the object's `id` member is the text `id`.
pub open spec fn has_id(ms: Members, id: Seq<char>) -> bool {
    member_value(ms, "id"@) == Some(Json::String(id))
}

/// Whether the JSON value is a topic object with the id `id`.
pub open spec fn json_has_id(t: Json, id: Seq<char>) -> bool {
    match t {
        Json::Object(ms) => has_id(ms, id),
        _ => false,
    }
}

/// The topics attached under an object, from its `children.attached` array.
pub open spec fn attached_of(ms: Members) -> Option<Seq<Json>> {
    let ci = key_index(ms, "children"@);
    if 0 <= ci < ms.len() {
        match ms[ci].1 {
            Json::Object(cms) => {
                let ai = key_index(cms, "attached"@);
                if 0 <= ai < cms.len() {
                    match cms[ai].1 {
                        Json::Array(items) => Some(items),
                        _ => None,
                    }
                } else {
                    None
                }
            },
            _ => None,
        }
    } else {
        None
    }
}

/// The object with its `children.attached` array replaced by `items`.
pub open spec fn with_attached(ms: Members, items: Seq<Json>) -> Members {
    let ci = key_index(ms, "children"@);
    match ms[ci].1 {
        Json::Object(cms) => {
            let ai = key_index(cms, "attached"@);
            ms.update(ci, (ms[ci].0, Json::Object(cms.update(ai, (cms[ai].0, Json::Array(items))))))
        },
        _ => ms,
    }
}

/// Where `key_from` lands: a member with the key, with none before it, or nowhere.
pub proof fn lemma_key_from(ms: Members, k: Seq<char>, i: int)
    requires
        0 <= i,
    ensures
        key_from(ms, k, i) == -1 || (i <= key_from(ms, k, i) < ms.len() && ms[key_from(ms, k, i)].0
            == k),
        forall|j: int| i <= j < ms.len() && (key_from(ms, k, i) == -1 || j < key_from(ms, k, i)) ==> ms[j].0 != k,
    decreases ms.len() - i,
{
    if i < ms.len() && ms[i].0 != k {
        lemma_key_from(ms, k, i + 1);
    }
}

/// Adding a member at the end leaves a present key where it is, and puts a missing key
/// at the end when it is the added one.
pub proof fn lemma_key_push(ms: Members, m: (Seq<char>, Json), k: Seq<char>)
    ensures
        0 <= key_index(ms, k) ==> key_index(ms.push(m), k) == key_index(ms, k),
        key_index(ms, k) == -1 && m.0 == k ==> key_index(ms.push(m), k) == ms.len(),
        key_index(ms, k) == -1 && m.0 != k ==> key_index(ms.push(m), k) == -1,
{
    lemma_key_from(ms, k, 0);
    lemma_key_from(ms.push(m), k, 0);
    let a = key_index(ms, k);
    let b = key_index(ms.push(m), k);
    if 0 <= a {
        assert(ms.push(m)[a] == ms[a]);
        if b != a {
            if b >= 0 && b < a {
                assert(ms.push(m)[b] == ms[b]);
            }
        }
    }
    if a == -1 {
        assert(ms.push(m)[ms.len() as int] == m);
        if b >= 0 && b < ms.len() {
            assert(ms.push(m)[b] == ms[b]);
        }
    }
}

/// Lookups by key see only the keys.
pub proof fn lemma_key_from_same_keys(a: Members, b: Members, k: Seq<char>, i: int)
    requires
        a.len() == b.len(),
        forall|j: int| 0 <= j < a.len() ==> a[j].0 == b[j].0,
    ensures
        key_from(a, k, i) == key_from(b, k, i),
    decreases a.len() - i,
{
    if 0 <= i < a.len() && a[i].0 != k {
        lemma_key_from_same_keys(a, b, k, i + 1);
    }
}

/// Replacing the attached topics keeps them where they are: read back, they are the new
/// ones, and replacing twice is replacing once.
pub proof fn lemma_with_attached(ms: Members, a: Seq<Json>, b: Seq<Json>)
    requires
        attached_of(ms) is Some,
    ensures
        attached_of(with_attached(ms, a)) == Some(a),
        with_attached(with_attached(ms, a), b) == with_attached(ms, b),
        with_attached(ms, attached_of(ms)->0) == ms,
        with_attached(ms, a).len() == ms.len(),
        key_index(with_attached(ms, a), "id"@) == key_index(ms, "id"@),
        member_value(with_attached(ms, a), "id"@) == member_value(ms, "id"@),
{
    let ci = key_index(ms, "children"@);
    lemma_key_from(ms, "children"@, 0);
    let cms = ms[ci].1->Object_0;
    let ai = key_index(cms, "attached"@);
    lemma_key_from(cms, "attached"@, 0);
    let ms2 = with_attached(ms, a);
    let cms2 = cms.update(ai, (cms[ai].0, Json::Array(a)));
    lemma_key_from_same_keys(ms, ms2, "children"@, 0);
    lemma_key_from_same_keys(cms, cms2, "attached"@, 0);
    lemma_key_from_same_keys(ms, ms2, "id"@, 0);
    assert(cms2.update(ai, (cms2[ai].0, Json::Array(b))) =~= cms.update(ai, (cms[ai].0, Json::Array(b))));
    assert(with_attached(ms2, b) =~= with_attached(ms, b));
    assert(cms.update(ai, (cms[ai].0, Json::Array(attached_of(ms)->0))) =~= cms);
    assert(with_attached(ms, attached_of(ms)->0) =~= ms);
    let iid = key_index(ms, "id"@);
    lemma_key_from(ms, "id"@, 0);
    if 0 <= iid < ms.len() {
        reveal_strlit("id");
        reveal_strlit("children");
        assert("id"@.len() != "children"@.len());
        assert(ms[iid].0 != ms[ci].0);
    }
}

/// The attached topics lie inside the object that holds them.
pub proof fn lemma_attached_decreases(t: Json)
    requires
        t is Object,
        attached_of(t->Object_0) is Some,
    ensures
        decreases_to!(t => attached_of(t->Object_0)->0),
{
    let ms = t->Object_0;
    let ci = key_index(ms, "children"@);
    lemma_key_from(ms, "children"@, 0);
    let c = ms[ci].1;
    let cms = c->Object_0;
    let ai = key_index(cms, "attached"@);
    lemma_key_from(cms, "attached"@, 0);
    assert(decreases_to!(t => ms));
    assert(decreases_to!(ms => ms[ci]));
    assert(decreases_to!(ms[ci] => c));
    assert(decreases_to!(c => cms));
    assert(decreases_to!(cms => cms[ai]));
    assert(decreases_to!(cms[ai] => cms[ai].1));
    assert(decreases_to!(cms[ai].1 => cms[ai].1->Array_0));
}

/// What an edit of a topic found: the edited value, a topic with the id that could not
/// take the edit, or no topic with the id.
pub enum Outcome<T> {
    Done(T),
    Refused,
    Absent,
}

/// An edit of one topic, as mathematics sees it.
pub enum TopicEditSpec {
    Title(Seq<char>),
    Note(Seq<char>),
    Labels(Seq<Seq<char>>),
    Markers(Seq<Seq<char>>),
    Hyperlink(Seq<char>),
    Image(Seq<char>, Option<Seq<char>>, Option<Seq<char>>),
    Clear(Seq<TopicClearField>),
    AppendChild(Seq<char>, Seq<char>),
    Attach(Json),
    ClearChildren,
}

/// The key under which a clearable field is stored.
pub open spec fn clear_key(f: TopicClearField) -> Seq<char> {
    match f {
        TopicClearField::Note => "notes"@,
        TopicClearField::Labels => "labels"@,
        TopicClearField::Markers => "markers"@,
        TopicClearField::Hyperlink => "href"@,
        TopicClearField::Image => "image"@,
    }
}

/// The object with the stored keys of `fields` removed, one after the other.
pub open spec fn clear_members(ms: Members, fields: Seq<TopicClearField>) -> Members
    decreases fields.len(),
{
    if fields.len() == 0 {
        ms
    } else {
        clear_members(without_member(ms, clear_key(fields[0])), fields.drop_first())
    }
}

/// A stored plain-text note.
pub open spec fn note_json(text: Seq<char>) -> Json {
    Json::Object(seq![("plain"@, Json::Object(seq![("content"@, Json::String(text))]))])
}

/// Stored labels.
pub open spec fn labels_json(labels: Seq<Seq<char>>) -> Json {
    Json::Array(Seq::new(labels.len(), |i: int| Json::String(labels[i])))
}

/// Stored markers.
pub open spec fn markers_json(markers: Seq<Seq<char>>) -> Json {
    Json::Array(
        Seq::new(markers.len(), |i: int| Json::Object(seq![("markerId"@, Json::String(markers[i]))])),
    )
}

/// The optional member `k`: present only with a value.
pub open spec fn optional_member(k: Seq<char>, v: Option<Seq<char>>) -> Members {
    match v {
        Some(text) => seq![(k, Json::String(text))],
        None => seq![],
    }
}

/// A stored image reference.
pub open spec fn image_json(src: Seq<char>, alt: Option<Seq<char>>, title: Option<Seq<char>>) -> Json {
    Json::Object(seq![("src"@, Json::String(src))] + optional_member("alt"@, alt) + optional_member(
        "title"@,
        title,
    ))
}

/// A new stored topic with only an id and a title.
pub open spec fn new_topic_json(id: Seq<char>, title: Seq<char>) -> Json {
    Json::Object(seq![("id"@, Json::String(id)), ("title"@, Json::String(title))])
}

/// The empty `children` member that a topic without children is given.
pub open spec fn empty_children() -> (Seq<char>, Json) {
    ("children"@, Json::Object(seq![("attached"@, Json::Array(seq![]))]))
}

/// The object with `child` attached after its children, a `children` member being
/// added first where it has none; `None` where its `children` holds no `attached` array.
pub open spec fn attach_child(ms: Members, child: Json) -> Option<Members> {
    let ms1 = if 0 <= key_index(ms, "children"@) < ms.len() {
        ms
    } else {
        ms.push(empty_children())
    };
    match attached_of(ms1) {
        Some(items) => Some(with_attached(ms1, items.push(child))),
        None => None,
    }
}

/// The members of a topic after an edit, or `None` where the topic cannot take it.
pub open spec fn edit_members(e: TopicEditSpec, ms: Members) -> Option<Members> {
    match e {
        TopicEditSpec::Title(t) => Some(with_member(ms, "title"@, Json::String(t))),
        TopicEditSpec::Note(n) => Some(with_member(ms, "notes"@, note_json(n))),
        TopicEditSpec::Labels(l) => Some(with_member(ms, "labels"@, labels_json(l))),
        TopicEditSpec::Markers(m) => Some(with_member(ms, "markers"@, markers_json(m))),
        TopicEditSpec::Hyperlink(h) => Some(with_member(ms, "href"@, Json::String(h))),
        TopicEditSpec::Image(src, alt, title) => Some(
            with_member(ms, "image"@, image_json(src, alt, title)),
        ),
        TopicEditSpec::Clear(fields) => Some(clear_members(ms, fields)),
        TopicEditSpec::AppendChild(id, title) => attach_child(ms, new_topic_json(id, title)),
        TopicEditSpec::Attach(child) => attach_child(ms, child),
        TopicEditSpec::ClearChildren => Some(
            match attached_of(ms) {
                Some(_) => with_attached(ms, seq![]),
                None => ms,
            },
        ),
    }
}

/// Whether only the first topic with the id may take the edit: a topic being moved is
/// handed out once.
pub open spec fn edit_once(e: TopicEditSpec) -> bool {
    e is Attach
}

/// The edit of the first topic with the id `id` in the tree under `t`, in document order
/// (a topic before its children, children in order). Where that topic cannot take the
/// edit, the search goes on after it, unless the edit is handed out once.
pub open spec fn edit_topic(t: Json, id: Seq<char>, e: TopicEditSpec) -> Outcome<Json>
    decreases t, 0int,
{
    match t {
        Json::Object(ms) => if has_id(ms, id) {
            match edit_members(e, ms) {
                Some(ms2) => Outcome::Done(Json::Object(ms2)),
                None => Outcome::Refused,
            }
        } else {
            match attached_of(ms) {
                Some(items) => {
                    proof {
                        lemma_attached_decreases(t);
                    }
                    match edit_forest(items, id, e, 0) {
                        Outcome::Done(items2) => Outcome::Done(Json::Object(with_attached(ms, items2))),
                        Outcome::Refused => Outcome::Refused,
                        Outcome::Absent => Outcome::Absent,
                    }
                },
                None => Outcome::Absent,
            }
        },
        _ => Outcome::Absent,
    }
}

/// The edit in the trees of `items` from position `i` on, the first tree with the id
/// taking it.
pub open spec fn edit_forest(items: Seq<Json>, id: Seq<char>, e: TopicEditSpec, i: int) -> Outcome<
    Seq<Json>,
>
    decreases items, items.len() - i,
{
    if 0 <= i < items.len() {
        match edit_topic(items[i], id, e) {
            Outcome::Done(x) => Outcome::Done(items.update(i, x)),
            Outcome::Refused => if edit_once(e) {
                Outcome::Refused
            } else {
                edit_forest(items, id, e, i + 1)
            },
            Outcome::Absent => edit_forest(items, id, e, i + 1),
        }
    } else {
        Outcome::Absent
    }
}

/// The members of an object, as mathematics sees them.
pub open spec fn mv(ms: Seq<JsonMember>) -> Members {
    json_members_view(ms)
}

/// The position of the member `k`.
pub fn find_key(ms: &Vec<JsonMember>, k: &str) -> (r: Option<usize>)
    ensures
        match r {
            Some(i) => i as int == key_index(mv(ms@), k@) && i < ms@.len(),
            None => key_index(mv(ms@), k@) == -1,
        },
{
    proof {
        lemma_members_view(ms@);
    }
    let mut i: usize = 0;
    while i < ms.len()
        invariant
            i <= ms@.len(),
            mv(ms@).len() == ms@.len(),
            forall|j: int| 0 <= j < ms@.len() ==> #[trigger] mv(ms@)[j] == (ms@[j].key@, json_view(ms@[j].value)),
            key_from(mv(ms@), k@, 0) == key_from(mv(ms@), k@, i as int),
        decreases ms@.len() - i,
    {
        if str_equal(ms[i].key.as_str(), k) {
            return Some(i);
        }
        i = i + 1;
    }
    None
}

/// Whether the member `k` is the JSON string `text`.
pub fn member_is_string(ms: &Vec<JsonMember>, k: &str, text: &str) -> (r: bool)
    ensures
        r == (member_value(mv(ms@), k@) == Some(Json::String(text@))),
{
    proof {
        lemma_members_view(ms@);
    }
    match find_key(ms, k) {
        Some(i) => match &ms[i].value {
            JsonValue::String(v) => str_equal(v.as_str(), text),
            _ => false,
        },
        None => false,
    }
}

/// Sets the member `k` to `v`.
pub fn set_member(ms: &mut Vec<JsonMember>, k: &str, v: JsonValue)
    ensures
        mv(final(ms)@) == with_member(mv(old(ms)@), k@, v@),
{
    proof {
        lemma_members_view(ms@);
    }
    match find_key(ms, k) {
        Some(i) => {
            let ghost before = ms@;
            let _old_member = ms.remove(i);
            let m = JsonMember { key: k.to_string(), value: v };
            ms.insert(i, m);
            proof {
                assert(ms@ =~= before.update(i as int, m));
                lemma_members_update(before, i as int, m);
            }
        },
        None => {
            crate::infra::xmind::json::push_member(ms, k, v);
        },
    }
}

/// Removes the member `k`.
pub fn remove_member(ms: &mut Vec<JsonMember>, k: &str)
    ensures
        mv(final(ms)@) == without_member(mv(old(ms)@), k@),
{
    proof {
        lemma_members_view(ms@);
    }
    match find_key(ms, k) {
        Some(i) => {
            let ghost before = ms@;
            let _removed = ms.remove(i);
            proof {
                lemma_members_remove(before, i as int);
            }
        },
        None => {},
    }
}

/// Takes the topics attached under an object out of it, leaving an empty array in their
/// place; nothing where the object has no such array.
pub fn take_attached(ms: &mut Vec<JsonMember>) -> (r: Option<Vec<JsonValue>>)
    ensures
        match attached_of(mv(old(ms)@)) {
            Some(items) => r is Some && json_items_view(r->0@) == items && mv(final(ms)@)
                == with_attached(mv(old(ms)@), seq![]),
            None => r is None && mv(final(ms)@) == mv(old(ms)@),
        },
{
    let ghost before = ms@;
    proof {
        lemma_members_view(ms@);
        lemma_key_from(mv(ms@), "children"@, 0);
    }
    let ci = match find_key(ms, "children") {
        Some(ci) => ci,
        None => return None,
    };
    let JsonMember { key: ck, value: cv } = ms.remove(ci);
    match cv {
        JsonValue::Object(mut cms) => {
            proof {
                lemma_members_view(cms@);
                lemma_key_from(mv(cms@), "attached"@, 0);
            }
            match find_key(&cms, "attached") {
                None => {
                    ms.insert(ci, JsonMember { key: ck, value: JsonValue::Object(cms) });
                    proof {
                        assert(ms@ =~= before);
                    }
                    None
                },
                Some(ai) => {
                    let ghost cbefore = cms@;
                    let JsonMember { key: ak, value: av } = cms.remove(ai);
                    match av {
                        JsonValue::Array(items) => {
                            let empty: Vec<JsonValue> = Vec::new();
                            let am = JsonMember { key: ak, value: JsonValue::Array(empty) };
                            cms.insert(ai, am);
                            proof {
                                assert(cms@ =~= cbefore.update(ai as int, am));
                                lemma_members_update(cbefore, ai as int, am);
                                assert(json_items_view(empty@) =~= Seq::<Json>::empty());
                            }
                            let cm = JsonMember { key: ck, value: JsonValue::Object(cms) };
                            ms.insert(ci, cm);
                            proof {
                                assert(ms@ =~= before.update(ci as int, cm));
                                lemma_members_update(before, ci as int, cm);
                            }
                            Some(items)
                        },
                        other => {
                            cms.insert(ai, JsonMember { key: ak, value: other });
                            proof {
                                assert(cms@ =~= cbefore);
                            }
                            let cm = JsonMember { key: ck, value: JsonValue::Object(cms) };
                            ms.insert(ci, cm);
                            proof {
                                assert(ms@ =~= before.update(ci as int, cm));
                                lemma_members_update(before, ci as int, cm);
                                assert(mv(ms@) =~= mv(before));
                            }
                            None
                        },
                    }
                },
            }
        },
        other => {
            ms.insert(ci, JsonMember { key: ck, value: other });
            proof {
                assert(ms@ =~= before);
            }
            None
        },
    }
}

/// Puts topics under an object that has a `children.attached` array, in place of what
/// that array held.
pub fn put_attached(ms: &mut Vec<JsonMember>, items: Vec<JsonValue>)
    requires
        attached_of(mv(old(ms)@)) is Some,
    ensures
        mv(final(ms)@) == with_attached(mv(old(ms)@), json_items_view(items@)),
{
    let ghost before = ms@;
    let ghost iv = json_items_view(items@);
    proof {
        lemma_members_view(ms@);
        lemma_key_from(mv(ms@), "children"@, 0);
    }
    let ci = match find_key(ms, "children") {
        Some(ci) => ci,
        None => {
            proof {
                assert(false);
            }
            return;
        },
    };
    let JsonMember { key: ck, value: cv } = ms.remove(ci);
    match cv {
        JsonValue::Object(mut cms) => {
            proof {
                lemma_members_view(cms@);
                lemma_key_from(mv(cms@), "attached"@, 0);
            }
            let ai = match find_key(&cms, "attached") {
                Some(ai) => ai,
                None => {
                    proof {
                        assert(false);
                    }
                    return;
                },
            };
            let ghost cbefore = cms@;
            let JsonMember { key: ak, value: _av } = cms.remove(ai);
            let am = JsonMember { key: ak, value: JsonValue::Array(items) };
            cms.insert(ai, am);
            proof {
                assert(cms@ =~= cbefore.update(ai as int, am));
                lemma_members_update(cbefore, ai as int, am);
            }
            let cm = JsonMember { key: ck, value: JsonValue::Object(cms) };
            ms.insert(ci, cm);
            proof {
                assert(ms@ =~= before.update(ci as int, cm));
                lemma_members_update(before, ci as int, cm);
            }
        },
        _ => {
            proof {
                assert(false);
            }
        },
    }
}

/// An edit of one topic.
#[allow(inconsistent_fields)]
pub enum TopicEdit {
    Title(String),
    Note(String),
    Labels(Vec<String>),
    Markers(Vec<String>),
    Hyperlink(String),
    Image { src: String, alt: Option<String>, title: Option<String> },
    Clear(Vec<TopicClearField>),
    AppendChild { id: String, title: String },
    Attach(JsonValue),
    ClearChildren,
}

/// The text of an optional string.
pub open spec fn opt_text(o: Option<String>) -> Option<Seq<char>> {
    match o {
        Some(s) => Some(s@),
        None => None,
    }
}

impl View for TopicEdit {
    type V = TopicEditSpec;

    open spec fn view(&self) -> TopicEditSpec {
        match self {
            TopicEdit::Title(t) => TopicEditSpec::Title(t@),
            TopicEdit::Note(n) => TopicEditSpec::Note(n@),
            TopicEdit::Labels(l) => TopicEditSpec::Labels(l.deep_view()),
            TopicEdit::Markers(m) => TopicEditSpec::Markers(m.deep_view()),
            TopicEdit::Hyperlink(h) => TopicEditSpec::Hyperlink(h@),
            TopicEdit::Image { src, alt, title } => TopicEditSpec::Image(
                src@,
                opt_text(*alt),
                opt_text(*title),
            ),
            TopicEdit::Clear(fields) => TopicEditSpec::Clear(fields@),
            TopicEdit::AppendChild { id, title } => TopicEditSpec::AppendChild(id@, title@),
            TopicEdit::Attach(v) => TopicEditSpec::Attach(v@),
            TopicEdit::ClearChildren => TopicEditSpec::ClearChildren,
        }
    }
}

fn string_json(text: &String) -> (r: JsonValue)
    ensures
        r@ == Json::String(text@),
{
    JsonValue::String(text.clone())
}

/// A stored plain-text note.
pub fn build_note(text: &String) -> (r: JsonValue)
    ensures
        r@ == note_json(text@),
{
    let mut inner: Vec<JsonMember> = Vec::new();
    push_member(&mut inner, "content", string_json(text));
    let mut outer: Vec<JsonMember> = Vec::new();
    push_member(&mut outer, "plain", JsonValue::Object(inner));
    proof {
        assert(json_members_view(inner@) =~= seq![("content"@, Json::String(text@))]);
        assert(json_members_view(outer@) =~= seq![
            ("plain"@, Json::Object(seq![("content"@, Json::String(text@))])),
        ]);
    }
    JsonValue::Object(outer)
}

/// Stored labels.
pub fn build_labels(labels: &Vec<String>) -> (r: JsonValue)
    ensures
        r@ == labels_json(labels.deep_view()),
{
    let mut items: Vec<JsonValue> = Vec::new();
    let mut i: usize = 0;
    while i < labels.len()
        invariant
            i <= labels@.len(),
            json_items_view(items@) =~= Seq::new(i as nat, |j: int| Json::String(labels.deep_view()[j])),
        decreases labels@.len() - i,
    {
        push_item(&mut items, string_json(&labels[i]));
        i = i + 1;
    }
    JsonValue::Array(items)
}

/// Stored markers.
pub fn build_markers(markers: &Vec<String>) -> (r: JsonValue)
    ensures
        r@ == markers_json(markers.deep_view()),
{
    let mut items: Vec<JsonValue> = Vec::new();
    let mut i: usize = 0;
    while i < markers.len()
        invariant
            i <= markers@.len(),
            json_items_view(items@) =~= Seq::new(
                i as nat,
                |j: int| Json::Object(seq![("markerId"@, Json::String(markers.deep_view()[j]))]),
            ),
        decreases markers@.len() - i,
    {
        let mut m: Vec<JsonMember> = Vec::new();
        push_member(&mut m, "markerId", string_json(&markers[i]));
        proof {
            assert(json_members_view(m@) =~= seq![("markerId"@, Json::String(markers@[i as int]@))]);
        }
        push_item(&mut items, JsonValue::Object(m));
        i = i + 1;
    }
    JsonValue::Array(items)
}

fn push_optional(ms: &mut Vec<JsonMember>, k: &str, v: &Option<String>)
    ensures
        json_members_view(final(ms)@) == json_members_view(old(ms)@) + optional_member(k@, opt_text(*v)),
{
    match v {
        Some(text) => {
            push_member(ms, k, string_json(text));
        },
        None => {
            assert(json_members_view(ms@) =~= json_members_view(ms@) + Seq::<(Seq<char>, Json)>::empty());
        },
    }
}

/// A stored image reference.
pub fn build_image(src: &String, alt: &Option<String>, title: &Option<String>) -> (r: JsonValue)
    ensures
        r@ == image_json(src@, opt_text(*alt), opt_text(*title)),
{
    let mut ms: Vec<JsonMember> = Vec::new();
    push_member(&mut ms, "src", string_json(src));
    proof {
        assert(json_members_view(ms@) =~= seq![("src"@, Json::String(src@))]);
    }
    push_optional(&mut ms, "alt", alt);
    push_optional(&mut ms, "title", title);
    JsonValue::Object(ms)
}

/// A new stored topic with only an id and a title.
pub fn build_new_topic(id: &String, title: &String) -> (r: JsonValue)
    ensures
        r@ == new_topic_json(id@, title@),
{
    let mut ms: Vec<JsonMember> = Vec::new();
    push_member(&mut ms, "id", string_json(id));
    push_member(&mut ms, "title", string_json(title));
    proof {
        assert(json_members_view(ms@) =~= seq![("id"@, Json::String(id@)), ("title"@, Json::String(title@))]);
    }
    JsonValue::Object(ms)
}

fn clear_key_str(f: TopicClearField) -> (r: &'static str)
    ensures
        r@ == clear_key(f),
{
    match f {
        TopicClearField::Note => "notes",
        TopicClearField::Labels => "labels",
        TopicClearField::Markers => "markers",
        TopicClearField::Hyperlink => "href",
        TopicClearField::Image => "image",
    }
}

/// Removes the stored fields of `fields`, one after the other.
pub fn clear_fields(ms: &mut Vec<JsonMember>, fields: &Vec<TopicClearField>)
    ensures
        mv(final(ms)@) == clear_members(mv(old(ms)@), fields@),
{
    let ghost start = mv(ms@);
    let mut i: usize = 0;
    proof {
        assert(fields@.subrange(0, fields@.len() as int) =~= fields@);
    }
    while i < fields.len()
        invariant
            i <= fields@.len(),
            clear_members(mv(ms@), fields@.subrange(i as int, fields@.len() as int)) == clear_members(
                start,
                fields@,
            ),
        decreases fields@.len() - i,
    {
        let ghost cur = mv(ms@);
        remove_member(ms, clear_key_str(fields[i]));
        proof {
            assert(fields@.subrange(i as int, fields@.len() as int).drop_first() =~= fields@.subrange(
                i + 1,
                fields@.len() as int,
            ));
        }
        i = i + 1;
    }
    proof {
        assert(fields@.subrange(i as int, fields@.len() as int) =~= Seq::<TopicClearField>::empty());
    }
}

/// Attaches `child` after the object's children, adding a `children` member where it
/// has none; false, with the object unchanged, where its `children` holds no `attached`
/// array.
pub fn attach(ms: &mut Vec<JsonMember>, child: JsonValue) -> (r: bool)
    ensures
        match attach_child(mv(old(ms)@), child@) {
            Some(m2) => r && mv(final(ms)@) == m2,
            None => !r && mv(final(ms)@) == mv(old(ms)@),
        },
{
    let ghost before = mv(ms@);
    proof {
        lemma_members_view(ms@);
    }
    if find_key(ms, "children").is_none() {
        let mut attached: Vec<JsonMember> = Vec::new();
        push_member(&mut attached, "attached", JsonValue::Array(Vec::new()));
        push_member(ms, "children", JsonValue::Object(attached));
        proof {
            assert(json_items_view(Seq::<JsonValue>::empty()) =~= Seq::<Json>::empty());
            assert(json_members_view(attached@) =~= seq![("attached"@, Json::Array(seq![]))]);
            assert(mv(ms@) =~= before.push(empty_children()));
        }
    }
    let ghost ms1 = mv(ms@);
    proof {
        assert(ms1 == if 0 <= key_index(before, "children"@) < before.len() {
            before
        } else {
            before.push(empty_children())
        });
    }
    match take_attached(ms) {
        Some(mut items) => {
            let ghost iv = json_items_view(items@);
            push_item(&mut items, child);
            proof {
                lemma_with_attached(ms1, seq![], iv.push(child@));
            }
            put_attached(ms, items);
            true
        },
        None => {
            proof {
                if !(0 <= key_index(before, "children"@) < before.len()) {
                    lemma_key_from(before, "children"@, 0);
                    lemma_key_push(before, empty_children(), "children"@);
                    let inner: Members = seq![("attached"@, Json::Array(seq![]))];
                    assert(key_from(inner, "attached"@, 0) == 0);
                    assert(attached_of(ms1) is Some);
                }
            }
            false
        },
    }
}

/// Applies an edit to a topic's members; false, with them unchanged, where the topic
/// cannot take it.
pub fn apply_edit(ms: &mut Vec<JsonMember>, e: &TopicEdit) -> (r: bool)
    ensures
        match edit_members(e@, mv(old(ms)@)) {
            Some(m2) => r && mv(final(ms)@) == m2,
            None => !r && mv(final(ms)@) == mv(old(ms)@),
        },
{
    match e {
        TopicEdit::Title(t) => {
            set_member(ms, "title", string_json(t));
            true
        },
        TopicEdit::Note(n) => {
            set_member(ms, "notes", build_note(n));
            true
        },
        TopicEdit::Labels(l) => {
            set_member(ms, "labels", build_labels(l));
            true
        },
        TopicEdit::Markers(m) => {
            set_member(ms, "markers", build_markers(m));
            true
        },
        TopicEdit::Hyperlink(h) => {
            set_member(ms, "href", string_json(h));
            true
        },
        TopicEdit::Image { src, alt, title } => {
            set_member(ms, "image", build_image(src, alt, title));
            true
        },
        TopicEdit::Clear(fields) => {
            clear_fields(ms, fields);
            true
        },
        TopicEdit::AppendChild { id, title } => attach(ms, build_new_topic(id, title)),
        TopicEdit::Attach(v) => attach(ms, clone_json(v)),
        TopicEdit::ClearChildren => {
            let ghost before = mv(ms@);
            match take_attached(ms) {
                Some(_) => {},
                None => {},
            }
            true
        },
    }
}

/// How deep a JSON value nests.
pub open spec fn json_height(j: Json) -> nat
    decreases j, 1nat, 0int,
{
    match j {
        Json::Array(items) => 1 + items_height(items, items.len() as int),
        Json::Object(ms) => 1 + members_height(ms, ms.len() as int),
        _ => 0,
    }
}

/// The greatest height among the first `n` items.
pub open spec fn items_height(items: Seq<Json>, n: int) -> nat
    decreases items, 0nat, n,
{
    if n <= 0 || n > items.len() {
        0
    } else {
        let a = items_height(items, n - 1);
        let b = json_height(items[n - 1]);
        if a >= b {
            a
        } else {
            b
        }
    }
}

/// The greatest height among the values of the first `n` members.
pub open spec fn members_height(ms: Members, n: int) -> nat
    decreases ms, 0nat, n,
{
    if n <= 0 || n > ms.len() {
        0
    } else {
        let a = members_height(ms, n - 1);
        let b = json_height(ms[n - 1].1);
        if a >= b {
            a
        } else {
            b
        }
    }
}

proof fn lemma_items_height(items: Seq<Json>, n: int, i: int)
    requires
        0 <= i < n <= items.len(),
    ensures
        json_height(items[i]) <= items_height(items, n),
    decreases n,
{
    if i < n - 1 {
        lemma_items_height(items, n - 1, i);
    }
}

proof fn lemma_members_height(ms: Members, n: int, i: int)
    requires
        0 <= i < n <= ms.len(),
    ensures
        json_height(ms[i].1) <= members_height(ms, n),
    decreases n,
{
    if i < n - 1 {
        lemma_members_height(ms, n - 1, i);
    }
}

/// Each attached topic nests less deeply than the object that holds it.
pub proof fn lemma_attached_height(ms: Members)
    requires
        attached_of(ms) is Some,
    ensures
        forall|i: int|
            0 <= i < attached_of(ms)->0.len() ==> #[trigger] json_height(attached_of(ms)->0[i])
                < json_height(Json::Object(ms)),
{
    let ci = key_index(ms, "children"@);
    lemma_key_from(ms, "children"@, 0);
    let cms = ms[ci].1->Object_0;
    let ai = key_index(cms, "attached"@);
    lemma_key_from(cms, "attached"@, 0);
    let items = attached_of(ms)->0;
    lemma_members_height(ms, ms.len() as int, ci);
    lemma_members_height(cms, cms.len() as int, ai);
    assert forall|i: int| 0 <= i < items.len() implies #[trigger] json_height(items[i]) < json_height(
        Json::Object(ms),
    ) by {
        lemma_items_height(items, items.len() as int, i);
    }
}

/// What an edit came to.
#[derive(Clone, Copy, Debug, PartialEq, Eq, Structural)]
pub enum EditStatus {
    Done,
    Refused,
    Absent,
}

/// Whether a status and a value report an outcome: the edited value where it was done,
/// the value unchanged otherwise.
pub open spec fn reported<T>(status: EditStatus, after: T, before: T, o: Outcome<T>) -> bool {
    match o {
        Outcome::Done(x) => status == EditStatus::Done && after == x,
        Outcome::Refused => status == EditStatus::Refused && after == before,
        Outcome::Absent => status == EditStatus::Absent && after == before,
    }
}

/// Edits the first topic with the id `id` in the tree under `t`.
pub fn edit_topic_value(t: JsonValue, id: &str, e: &TopicEdit) -> (r: (EditStatus, JsonValue))
    ensures
        reported(r.0, r.1@, t@, edit_topic(t@, id@, e@)),
    decreases json_height(t@),
{
    let ghost t0 = t@;
    match t {
        JsonValue::Object(mut ms) => {
            if member_is_string(&ms, "id", id) {
                let ok = apply_edit(&mut ms, e);
                if ok {
                    (EditStatus::Done, JsonValue::Object(ms))
                } else {
                    (EditStatus::Refused, JsonValue::Object(ms))
                }
            } else {
                let ghost m0 = mv(ms@);
                match take_attached(&mut ms) {
                    None => (EditStatus::Absent, JsonValue::Object(ms)),
                    Some(mut items) => {
                        let ghost orig = json_items_view(items@);
                        proof {
                            lemma_attached_height(m0);
                            lemma_with_attached(m0, seq![], orig);
                            lemma_items_view(items@);
                        }
                        let mut k: usize = 0;
                        while k < items.len()
                            invariant
                                k <= items@.len(),
                                json_items_view(items@) == orig,
                                orig.len() == items@.len(),
                                t0 == Json::Object(m0),
                                t0 == t@,
                                attached_of(m0) == Some(orig),
                                mv(ms@) == with_attached(m0, seq![]),
                                forall|j: int| 0 <= j < orig.len() ==> #[trigger] json_height(orig[j]) < json_height(t0),
                                edit_topic(t0, id@, e@) == match edit_forest(orig, id@, e@, k as int) {
                                    Outcome::Done(items2) => Outcome::Done(Json::Object(with_attached(m0, items2))),
                                    Outcome::Refused => Outcome::<Json>::Refused,
                                    Outcome::Absent => Outcome::<Json>::Absent,
                                },
                            decreases items@.len() - k,
                        {
                            let ghost before_items = items@;
                            proof {
                                lemma_items_view(items@);
                            }
                            let child = items.remove(k);
                            proof {
                                assert(child@ == orig[k as int]);
                                assert(json_height(child@) < json_height(t0));
                            }
                            let (st, child2) = edit_topic_value(child, id, e);
                            items.insert(k, child2);
                            proof {
                                assert(items@ =~= before_items.update(k as int, child2));
                                lemma_items_update(before_items, k as int, child2);
                                lemma_with_attached(m0, seq![], json_items_view(items@));
                            }
                            match st {
                                EditStatus::Done => {
                                    put_attached(&mut ms, items);
                                    return (EditStatus::Done, JsonValue::Object(ms));
                                },
                                EditStatus::Refused => {
                                    if matches!(e, TopicEdit::Attach(_)) {
                                        proof {
                                            assert(json_items_view(items@) =~= orig);
                                        }
                                        put_attached(&mut ms, items);
                                        return (EditStatus::Refused, JsonValue::Object(ms));
                                    }
                                    proof {
                                        assert(json_items_view(items@) =~= orig);
                                    }
                                },
                                EditStatus::Absent => {
                                    proof {
                                        assert(json_items_view(items@) =~= orig);
                                    }
                                },
                            }
                            k = k + 1;
                        }
                        put_attached(&mut ms, items);
                        (EditStatus::Absent, JsonValue::Object(ms))
                    },
                }
            }
        },
        other => (EditStatus::Absent, other),
    }
}

/// The edit in the sheets from position `i` on: in each sheet object, its `rootTopic`
/// tree; the first sheet whose tree takes it is edited.
pub open spec fn edit_sheets(sheets: Seq<Json>, id: Seq<char>, e: TopicEditSpec, i: int) -> Outcome<
    Seq<Json>,
>
    decreases sheets.len() - i,
{
    if 0 <= i < sheets.len() {
        let next = edit_sheets(sheets, id, e, i + 1);
        match sheets[i] {
            Json::Object(sm) => {
                let ri = key_index(sm, "rootTopic"@);
                if 0 <= ri < sm.len() {
                    match edit_topic(sm[ri].1, id, e) {
                        Outcome::Done(x) => Outcome::Done(
                            sheets.update(i, Json::Object(sm.update(ri, (sm[ri].0, x)))),
                        ),
                        Outcome::Refused => if edit_once(e) {
                            Outcome::Refused
                        } else {
                            next
                        },
                        Outcome::Absent => next,
                    }
                } else {
                    next
                }
            },
            _ => next,
        }
    } else {
        Outcome::Absent
    }
}

/// The edit of the first topic with the id `id` in `content.json`, an array of sheets.
pub open spec fn edit_content(c: Json, id: Seq<char>, e: TopicEditSpec) -> Outcome<Json> {
    match c {
        Json::Array(sheets) => match edit_sheets(sheets, id, e, 0) {
            Outcome::Done(s2) => Outcome::Done(Json::Array(s2)),
            Outcome::Refused => Outcome::Refused,
            Outcome::Absent => Outcome::Absent,
        },
        _ => Outcome::Absent,
    }
}

/// Edits the first topic with the id `id` in the sheets of `content.json`.
pub fn edit_content_value(c: JsonValue, id: &str, e: &TopicEdit) -> (r: (EditStatus, JsonValue))
    ensures
        reported(r.0, r.1@, c@, edit_content(c@, id@, e@)),
{
    let ghost c0 = c@;
    match c {
        JsonValue::Array(mut sheets) => {
            let ghost orig = json_items_view(sheets@);
            proof {
                lemma_items_view(sheets@);
            }
            let mut k: usize = 0;
            while k < sheets.len()
                invariant
                    k <= sheets@.len(),
                    json_items_view(sheets@) == orig,
                    orig.len() == sheets@.len(),
                    c0 == c@,
                    c0 == Json::Array(orig),
                    edit_sheets(orig, id@, e@, 0) == edit_sheets(orig, id@, e@, k as int),
                decreases sheets@.len() - k,
            {
                let ghost before = sheets@;
                proof {
                    lemma_items_view(sheets@);
                }
                let sheet = sheets.remove(k);
                proof {
                    assert(sheet@ == orig[k as int]);
                }
                match sheet {
                    JsonValue::Object(mut sm) => {
                        let ghost sm0 = sm@;
                        proof {
                            lemma_members_view(sm@);
                        }
                        match find_key(&sm, "rootTopic") {
                            Some(ri) => {
                                let JsonMember { key, value } = sm.remove(ri);
                                let (st, v2) = edit_topic_value(value, id, e);
                                let m = JsonMember { key, value: v2 };
                                sm.insert(ri, m);
                                proof {
                                    assert(sm@ =~= sm0.update(ri as int, m));
                                    lemma_members_update(sm0, ri as int, m);
                                }
                                let sheet2 = JsonValue::Object(sm);
                                sheets.insert(k, sheet2);
                                proof {
                                    assert(sheets@ =~= before.update(k as int, sheet2));
                                    lemma_items_update(before, k as int, sheet2);
                                }
                                match st {
                                    EditStatus::Done => {
                                        return (EditStatus::Done, JsonValue::Array(sheets));
                                    },
                                    EditStatus::Refused => {
                                        proof {
                                            assert(mv(sm@) =~= mv(sm0));
                                            assert(json_items_view(sheets@) =~= orig);
                                        }
                                        if matches!(e, TopicEdit::Attach(_)) {
                                            return (EditStatus::Refused, JsonValue::Array(sheets));
                                        }
                                    },
                                    EditStatus::Absent => {
                                        proof {
                                            assert(mv(sm@) =~= mv(sm0));
                                            assert(json_items_view(sheets@) =~= orig);
                                        }
                                    },
                                }
                            },
                            None => {
                                let sheet2 = JsonValue::Object(sm);
                                sheets.insert(k, sheet2);
                                proof {
                                    assert(sheets@ =~= before.update(k as int, sheet2));
                                    lemma_items_update(before, k as int, sheet2);
                                    assert(json_items_view(sheets@) =~= orig);
                                }
                            },
                        }
                    },
                    other => {
                        sheets.insert(k, other);
                        proof {
                            assert(sheets@ =~= before);
                        }
                    },
                }
                k = k + 1;
            }
            (EditStatus::Absent, JsonValue::Array(sheets))
        },
        other => (EditStatus::Absent, other),
    }
}

/// Whether an edit in place reports its outcome: true with the edited document where it
/// was done, false with the document unchanged otherwise.
pub open spec fn applied(r: bool, after: Json, before: Json, o: Outcome<Json>) -> bool {
    match o {
        Outcome::Done(x) => r && after == x,
        _ => !r && after == before,
    }
}

/// Edits, in place, the first topic with the id `id` in the sheets of `content.json`.
pub fn edit_in_content(content: &mut JsonValue, id: &str, e: &TopicEdit) -> (r: bool)
    ensures
        applied(r, final(content)@, old(content)@, edit_content(old(content)@, id@, e@)),
{
    let mut c = JsonValue::Null;
    core::mem::swap(&mut c, content);
    let (st, c2) = edit_content_value(c, id, e);
    *content = c2;
    st == EditStatus::Done
}

/// Edits, in place, the first topic with the id `id` in the tree under `topic`.
pub fn edit_in_topic(topic: &mut JsonValue, id: &str, e: &TopicEdit) -> (r: bool)
    ensures
        applied(r, final(topic)@, old(topic)@, edit_topic(old(topic)@, id@, e@)),
{
    let mut t = JsonValue::Null;
    core::mem::swap(&mut t, topic);
    let (st, t2) = edit_topic_value(t, id, e);
    *topic = t2;
    st == EditStatus::Done
}

/// The first position at or after `i` of a topic with the id `id`, or -1.
pub open spec fn id_from(items: Seq<Json>, id: Seq<char>, i: int) -> int
    decreases items.len() - i,
{
    if i < 0 || i >= items.len() {
        -1
    } else if json_has_id(items[i], id) {
        i
    } else {
        id_from(items, id, i + 1)
    }
}

/// The topics attached under a topic, none where it has no such array.
pub open spec fn children_of(t: Json) -> Seq<Json> {
    match t {
        Json::Object(ms) => match attached_of(ms) {
            Some(items) => items,
            None => seq![],
        },
        _ => seq![],
    }
}

/// The topics with the one at `p` taken out; with `promote`, its children stand in its
/// place, in order.
pub open spec fn take_out(items: Seq<Json>, p: int, promote: bool) -> Seq<Json> {
    if promote {
        items.subrange(0, p) + children_of(items[p]) + items.subrange(p + 1, items.len() as int)
    } else {
        items.remove(p)
    }
}

/// The removal, from the tree under `t`, of the first topic with the id `id` that is a
/// child of some topic: the tree after it and the removed topic. The children of a
/// topic are looked at before the trees below them.
pub open spec fn remove_below(t: Json, id: Seq<char>, promote: bool) -> Option<(Json, Json)>
    decreases t, 0int,
{
    match t {
        Json::Object(ms) => match attached_of(ms) {
            Some(items) => {
                proof {
                    lemma_attached_decreases(t);
                }
                let p = id_from(items, id, 0);
                if 0 <= p < items.len() {
                    Some((Json::Object(with_attached(ms, take_out(items, p, promote))), items[p]))
                } else {
                    match remove_below_forest(items, id, promote, 0) {
                        Some((items2, removed)) => Some((Json::Object(with_attached(ms, items2)), removed)),
                        None => None,
                    }
                }
            },
            None => None,
        },
        _ => None,
    }
}

/// The removal in the trees of `items` from position `i` on, the first tree that has
/// such a topic giving it up.
pub open spec fn remove_below_forest(items: Seq<Json>, id: Seq<char>, promote: bool, i: int) -> Option<
    (Seq<Json>, Json),
>
    decreases items, items.len() - i,
{
    if 0 <= i < items.len() {
        match remove_below(items[i], id, promote) {
            Some((x, removed)) => Some((items.update(i, x), removed)),
            None => remove_below_forest(items, id, promote, i + 1),
        }
    } else {
        None
    }
}

/// The position of the first topic with the id `id` among `items`.
pub fn position_of_id(items: &Vec<JsonValue>, id: &str) -> (r: Option<usize>)
    ensures
        match r {
            Some(p) => p as int == id_from(json_items_view(items@), id@, 0) && p < items@.len(),
            None => id_from(json_items_view(items@), id@, 0) == -1,
        },
{
    proof {
        lemma_items_view(items@);
    }
    let mut i: usize = 0;
    while i < items.len()
        invariant
            i <= items@.len(),
            json_items_view(items@).len() == items@.len(),
            forall|j: int| 0 <= j < items@.len() ==> #[trigger] json_items_view(items@)[j] == json_view(items@[j]),
            id_from(json_items_view(items@), id@, 0) == id_from(json_items_view(items@), id@, i as int),
        decreases items@.len() - i,
    {
        let hit = match &items[i] {
            JsonValue::Object(ms) => member_is_string(ms, "id", id),
            _ => false,
        };
        if hit {
            return Some(i);
        }
        i = i + 1;
    }
    None
}

/// The topics attached under a topic, taken out of it.
fn into_children(t: JsonValue) -> (r: Vec<JsonValue>)
    ensures
        json_items_view(r@) == children_of(t@),
{
    match t {
        JsonValue::Object(mut ms) => match take_attached(&mut ms) {
            Some(items) => items,
            None => {
                let v: Vec<JsonValue> = Vec::new();
                proof {
                    assert(json_items_view(v@) =~= Seq::<Json>::empty());
                }
                v
            },
        },
        _ => {
            let v: Vec<JsonValue> = Vec::new();
            proof {
                assert(json_items_view(v@) =~= Seq::<Json>::empty());
            }
            v
        },
    }
}

proof fn lemma_items_concat(a: Seq<JsonValue>, b: Seq<JsonValue>)
    ensures
        json_items_view(a + b) == json_items_view(a) + json_items_view(b),
{
    lemma_items_view(a);
    lemma_items_view(b);
    lemma_items_view(a + b);
    assert(json_items_view(a + b) =~= json_items_view(a) + json_items_view(b));
}

proof fn lemma_items_subrange(a: Seq<JsonValue>, i: int, j: int)
    requires
        0 <= i <= j <= a.len(),
    ensures
        json_items_view(a.subrange(i, j)) == json_items_view(a).subrange(i, j),
{
    lemma_items_view(a);
    lemma_items_view(a.subrange(i, j));
    assert(json_items_view(a.subrange(i, j)) =~= json_items_view(a).subrange(i, j));
}

/// Removes, from the tree under `t`, the first topic with the id `id` that is a child of
/// some topic; with `promote`, its children take its place. Gives the removed topic back
/// when its children went with it.
pub fn remove_below_value(t: JsonValue, id: &str, promote: bool) -> (r: (bool, Option<JsonValue>, JsonValue))
    ensures
        match remove_below(t@, id@, promote) {
            Some((x, removed)) => r.0 && r.2@ == x && (!promote ==> r.1 is Some && r.1->0@ == removed),
            None => !r.0 && r.1 is None && r.2@ == t@,
        },
    decreases json_height(t@),
{
    let ghost t0 = t@;
    match t {
        JsonValue::Object(mut ms) => {
            let ghost m0 = mv(ms@);
            match take_attached(&mut ms) {
                None => (false, None, JsonValue::Object(ms)),
                Some(mut items) => {
                    let ghost orig = json_items_view(items@);
                    proof {
                        lemma_attached_height(m0);
                        lemma_items_view(items@);
                    }
                    match position_of_id(&items, id) {
                        Some(p) => {
                            let ghost before = items@;
                            let removed = items.remove(p);
                            proof {
                                assert(removed@ == orig[p as int]);
                            }
                            if promote {
                                let mut tail = items.split_off(p);
                                let mut promoted = into_children(removed);
                                let ghost ps = promoted@;
                                let ghost tv = tail@;
                                let ghost hv = items@;
                                items.append(&mut promoted);
                                items.append(&mut tail);
                                proof {
                                    assert(hv =~= before.subrange(0, p as int));
                                    assert(tv =~= before.subrange(p + 1, before.len() as int));
                                    lemma_items_subrange(before, 0, p as int);
                                    lemma_items_subrange(before, p + 1, before.len() as int);
                                    lemma_items_concat(hv, ps);
                                    lemma_items_concat(hv + ps, tv);
                                    assert(items@ =~= hv + ps + tv);
                                    lemma_with_attached(m0, seq![], json_items_view(items@));
                                }
                                put_attached(&mut ms, items);
                                (true, None, JsonValue::Object(ms))
                            } else {
                                proof {
                                    lemma_items_remove(before, p as int);
                                    lemma_with_attached(m0, seq![], json_items_view(items@));
                                }
                                put_attached(&mut ms, items);
                                (true, Some(removed), JsonValue::Object(ms))
                            }
                        },
                        None => {
                            let mut k: usize = 0;
                            while k < items.len()
                                invariant
                                    k <= items@.len(),
                                    json_items_view(items@) == orig,
                                    orig.len() == items@.len(),
                                    t0 == Json::Object(m0),
                                    t0 == t@,
                                    attached_of(m0) == Some(orig),
                                    id_from(orig, id@, 0) == -1,
                                    mv(ms@) == with_attached(m0, seq![]),
                                    forall|j: int| 0 <= j < orig.len() ==> #[trigger] json_height(orig[j]) < json_height(t0),
                                    remove_below_forest(orig, id@, promote, 0) == remove_below_forest(orig, id@, promote, k as int),
                                decreases items@.len() - k,
                            {
                                let ghost before_items = items@;
                                proof {
                                    lemma_items_view(items@);
                                }
                                let child = items.remove(k);
                                proof {
                                    assert(child@ == orig[k as int]);
                                    assert(json_height(child@) < json_height(t0));
                                }
                                let (found, removed, child2) = remove_below_value(child, id, promote);
                                items.insert(k, child2);
                                proof {
                                    assert(items@ =~= before_items.update(k as int, child2));
                                    lemma_items_update(before_items, k as int, child2);
                                    lemma_with_attached(m0, seq![], json_items_view(items@));
                                }
                                if found {
                                    put_attached(&mut ms, items);
                                    return (true, removed, JsonValue::Object(ms));
                                }
                                proof {
                                    assert(json_items_view(items@) =~= orig);
                                }
                                k = k + 1;
                            }
                            proof {
                                lemma_with_attached(m0, seq![], orig);
                            }
                            put_attached(&mut ms, items);
                            (false, None, JsonValue::Object(ms))
                        },
                    }
                },
            }
        },
        other => (false, None, other),
    }
}

/// The removal in the sheets from position `i` on: the first sheet whose `rootTopic`
/// tree has such a topic gives it up.
pub open spec fn remove_sheets(sheets: Seq<Json>, id: Seq<char>, promote: bool, i: int) -> Option<
    (Seq<Json>, Json),
>
    decreases sheets.len() - i,
{
    if 0 <= i < sheets.len() {
        let next = remove_sheets(sheets, id, promote, i + 1);
        match sheets[i] {
            Json::Object(sm) => {
                let ri = key_index(sm, "rootTopic"@);
                if 0 <= ri < sm.len() {
                    match remove_below(sm[ri].1, id, promote) {
                        Some((x, removed)) => Some(
                            (sheets.update(i, Json::Object(sm.update(ri, (sm[ri].0, x)))), removed),
                        ),
                        None => next,
                    }
                } else {
                    next
                }
            },
            _ => next,
        }
    } else {
        None
    }
}

/// The removal of the first topic with the id `id` that is a child of some topic, in
/// the sheets of `content.json`: the document after it and the removed topic.
pub open spec fn remove_in_content(c: Json, id: Seq<char>, promote: bool) -> Option<(Json, Json)> {
    match c {
        Json::Array(sheets) => match remove_sheets(sheets, id, promote, 0) {
            Some((s2, removed)) => Some((Json::Array(s2), removed)),
            None => None,
        },
        _ => None,
    }
}

/// Removes the first topic with the id `id` that is a child of some topic from the
/// sheets of `content.json`.
pub fn remove_content_value(c: JsonValue, id: &str, promote: bool) -> (r: (bool, Option<JsonValue>, JsonValue))
    ensures
        match remove_in_content(c@, id@, promote) {
            Some((x, removed)) => r.0 && r.2@ == x && (!promote ==> r.1 is Some && r.1->0@ == removed),
            None => !r.0 && r.1 is None && r.2@ == c@,
        },
{
    let ghost c0 = c@;
    match c {
        JsonValue::Array(mut sheets) => {
            let ghost orig = json_items_view(sheets@);
            proof {
                lemma_items_view(sheets@);
            }
            let mut k: usize = 0;
            while k < sheets.len()
                invariant
                    k <= sheets@.len(),
                    json_items_view(sheets@) == orig,
                    orig.len() == sheets@.len(),
                    c0 == c@,
                    c0 == Json::Array(orig),
                    remove_sheets(orig, id@, promote, 0) == remove_sheets(orig, id@, promote, k as int),
                decreases sheets@.len() - k,
            {
                let ghost before = sheets@;
                proof {
                    lemma_items_view(sheets@);
                }
                let sheet = sheets.remove(k);
                proof {
                    assert(sheet@ == orig[k as int]);
                }
                match sheet {
                    JsonValue::Object(mut sm) => {
                        let ghost sm0 = sm@;
                        proof {
                            lemma_members_view(sm@);
                        }
                        match find_key(&sm, "rootTopic") {
                            Some(ri) => {
                                let JsonMember { key, value } = sm.remove(ri);
                                let (found, removed, v2) = remove_below_value(value, id, promote);
                                let m = JsonMember { key, value: v2 };
                                sm.insert(ri, m);
                                proof {
                                    assert(sm@ =~= sm0.update(ri as int, m));
                                    lemma_members_update(sm0, ri as int, m);
                                }
                                let sheet2 = JsonValue::Object(sm);
                                sheets.insert(k, sheet2);
                                proof {
                                    assert(sheets@ =~= before.update(k as int, sheet2));
                                    lemma_items_update(before, k as int, sheet2);
                                }
                                if found {
                                    return (true, removed, JsonValue::Array(sheets));
                                }
                                proof {
                                    assert(mv(sm@) =~= mv(sm0));
                                    assert(json_items_view(sheets@) =~= orig);
                                }
                            },
                            None => {
                                let sheet2 = JsonValue::Object(sm);
                                sheets.insert(k, sheet2);
                                proof {
                                    assert(sheets@ =~= before.update(k as int, sheet2));
                                    lemma_items_update(before, k as int, sheet2);
                                    assert(json_items_view(sheets@) =~= orig);
                                }
                            },
                        }
                    },
                    other => {
                        sheets.insert(k, other);
                        proof {
                            assert(sheets@ =~= before);
                        }
                    },
                }
                k = k + 1;
            }
            (false, None, JsonValue::Array(sheets))
        },
        other => (false, None, other),
    }
}

/// Whether a removal in place reports its outcome: true with the document after it,
/// false with the document unchanged.
pub open spec fn removed_in_place(r: bool, after: Json, before: Json, o: Option<(Json, Json)>) -> bool {
    match o {
        Some((x, _)) => r && after == x,
        None => !r && after == before,
    }
}

/// Deletes, with its children, the first topic with the id `id` below the root of a
/// sheet of `content.json`.
pub fn delete_topic_in_content(content: &mut JsonValue, topic_id: &str) -> (r: bool)
    ensures
        removed_in_place(r, final(content)@, old(content)@, remove_in_content(old(content)@, topic_id@, false)),
{
    let mut c = JsonValue::Null;
    core::mem::swap(&mut c, content);
    let (found, _removed, c2) = remove_content_value(c, topic_id, false);
    *content = c2;
    found
}

/// Deletes the first topic with the id `id` below the root of a sheet of
/// `content.json`, its children taking its place.
pub fn delete_topic_promote_children_in_content(content: &mut JsonValue, topic_id: &str) -> (r: bool)
    ensures
        removed_in_place(r, final(content)@, old(content)@, remove_in_content(old(content)@, topic_id@, true)),
{
    let mut c = JsonValue::Null;
    core::mem::swap(&mut c, content);
    let (found, _removed, c2) = remove_content_value(c, topic_id, true);
    *content = c2;
    found
}

/// Takes the first topic with the id `id` below the root of a sheet out of
/// `content.json`, with its children, and gives it back.
pub fn remove_topic_from_content(content: &mut JsonValue, topic_id: &str) -> (r: Option<JsonValue>)
    ensures
        match remove_in_content(old(content)@, topic_id@, false) {
            Some((x, removed)) => r is Some && r->0@ == removed && final(content)@ == x,
            None => r is None && final(content)@ == old(content)@,
        },
{
    let mut c = JsonValue::Null;
    core::mem::swap(&mut c, content);
    let (_found, removed, c2) = remove_content_value(c, topic_id, false);
    *content = c2;
    removed
}

/// Deletes, with its children, the first topic with the id `id` that is a child of some
/// topic in the tree under `topic`.
pub fn delete_topic_below(topic: &mut JsonValue, topic_id: &str) -> (r: bool)
    ensures
        removed_in_place(r, final(topic)@, old(topic)@, remove_below(old(topic)@, topic_id@, false)),
{
    let mut t = JsonValue::Null;
    core::mem::swap(&mut t, topic);
    let (found, _removed, t2) = remove_below_value(t, topic_id, false);
    *topic = t2;
    found
}

/// Deletes the first topic with the id `id` that is a child of some topic in the tree
/// under `topic`, its children taking its place.
pub fn delete_topic_promote_children_below(topic: &mut JsonValue, topic_id: &str) -> (r: bool)
    ensures
        removed_in_place(r, final(topic)@, old(topic)@, remove_below(old(topic)@, topic_id@, true)),
{
    let mut t = JsonValue::Null;
    core::mem::swap(&mut t, topic);
    let (found, _removed, t2) = remove_below_value(t, topic_id, true);
    *topic = t2;
    found
}

/// Takes the first topic with the id `id` that is a child of some topic out of the tree
/// under `topic`, with its children, and gives it back.
pub fn remove_topic_below(topic: &mut JsonValue, topic_id: &str) -> (r: Option<JsonValue>)
    ensures
        match remove_below(old(topic)@, topic_id@, false) {
            Some((x, removed)) => r is Some && r->0@ == removed && final(topic)@ == x,
            None => r is None && final(topic)@ == old(topic)@,
        },
{
    let mut t = JsonValue::Null;
    core::mem::swap(&mut t, topic);
    let (_found, removed, t2) = remove_below_value(t, topic_id, false);
    *topic = t2;
    removed
}

/// Adds a topic with the id `new_topic_id` and the title `title` after the children of
/// the first topic with the id `parent_topic_id` in `content.json` that can take it.
pub fn append_topic_to_content(content: &mut JsonValue, parent_topic_id: &str, title: &str, new_topic_id: &str) -> (r: bool)
    ensures
        applied(
            r,
            final(content)@,
            old(content)@,
            edit_content(old(content)@, parent_topic_id@, TopicEditSpec::AppendChild(new_topic_id@, title@)),
        ),
{
    edit_in_content(content, parent_topic_id, &TopicEdit::AppendChild { id: new_topic_id.to_string(), title: title.to_string() })
}

/// Attaches `topic` after the children of the first topic with the id
/// `destination_topic_id` in `content.json`; false where that topic cannot take it.
pub fn append_existing_topic_to_content(content: &mut JsonValue, destination_topic_id: &str, topic: JsonValue) -> (r: bool)
    ensures
        applied(
            r,
            final(content)@,
            old(content)@,
            edit_content(old(content)@, destination_topic_id@, TopicEditSpec::Attach(topic@)),
        ),
{
    edit_in_content(content, destination_topic_id, &TopicEdit::Attach(topic))
}

/// Sets the title of the first topic with the id `topic_id` in `content.json`.
pub fn rename_topic_in_content(content: &mut JsonValue, topic_id: &str, new_title: &str) -> (r: bool)
    ensures
        applied(r, final(content)@, old(content)@, edit_content(old(content)@, topic_id@, TopicEditSpec::Title(new_title@))),
{
    edit_in_content(content, topic_id, &TopicEdit::Title(new_title.to_string()))
}

/// Sets the plain-text note of the first topic with the id `topic_id` in `content.json`.
pub fn set_topic_note_in_content(content: &mut JsonValue, topic_id: &str, note: &str) -> (r: bool)
    ensures
        applied(r, final(content)@, old(content)@, edit_content(old(content)@, topic_id@, TopicEditSpec::Note(note@))),
{
    edit_in_content(content, topic_id, &TopicEdit::Note(note.to_string()))
}

/// Sets the labels of the first topic with the id `topic_id` in `content.json`.
pub fn set_topic_labels_in_content(content: &mut JsonValue, topic_id: &str, labels: &Vec<String>) -> (r: bool)
    ensures
        applied(
            r,
            final(content)@,
            old(content)@,
            edit_content(old(content)@, topic_id@, TopicEditSpec::Labels(labels.deep_view())),
        ),
{
    let e = TopicEdit::Labels(crate::text::clone_strings(labels));
    proof {
        let v = e->Labels_0;
        assert(v.deep_view() =~= labels.deep_view());
    }
    edit_in_content(content, topic_id, &e)
}

/// Sets the markers of the first topic with the id `topic_id` in `content.json`.
pub fn set_topic_markers_in_content(content: &mut JsonValue, topic_id: &str, markers: &Vec<String>) -> (r: bool)
    ensures
        applied(
            r,
            final(content)@,
            old(content)@,
            edit_content(old(content)@, topic_id@, TopicEditSpec::Markers(markers.deep_view())),
        ),
{
    let e = TopicEdit::Markers(crate::text::clone_strings(markers));
    proof {
        let v = e->Markers_0;
        assert(v.deep_view() =~= markers.deep_view());
    }
    edit_in_content(content, topic_id, &e)
}

/// Sets the hyperlink of the first topic with the id `topic_id` in `content.json`.
pub fn set_topic_hyperlink_in_content(content: &mut JsonValue, topic_id: &str, hyperlink: &str) -> (r: bool)
    ensures
        applied(
            r,
            final(content)@,
            old(content)@,
            edit_content(old(content)@, topic_id@, TopicEditSpec::Hyperlink(hyperlink@)),
        ),
{
    edit_in_content(content, topic_id, &TopicEdit::Hyperlink(hyperlink.to_string()))
}

/// Sets the attached image of the first topic with the id `topic_id` in `content.json`.
pub fn set_topic_image_in_content(
    content: &mut JsonValue,
    topic_id: &str,
    src: &str,
    alt: Option<&str>,
    title: Option<&str>,
) -> (r: bool)
    ensures
        applied(
            r,
            final(content)@,
            old(content)@,
            edit_content(
                old(content)@,
                topic_id@,
                TopicEditSpec::Image(src@, crate::app::patch::opt_str(alt), crate::app::patch::opt_str(title)),
            ),
        ),
{
    let alt_owned = match alt {
        Some(a) => Some(a.to_string()),
        None => None,
    };
    let title_owned = match title {
        Some(t) => Some(t.to_string()),
        None => None,
    };
    edit_in_content(content, topic_id, &TopicEdit::Image { src: src.to_string(), alt: alt_owned, title: title_owned })
}

/// Removes the given fields of the first topic with the id `topic_id` in `content.json`.
pub fn clear_topic_fields_in_content(content: &mut JsonValue, topic_id: &str, fields: &Vec<TopicClearField>) -> (r: bool)
    ensures
        applied(r, final(content)@, old(content)@, edit_content(old(content)@, topic_id@, TopicEditSpec::Clear(fields@))),
{
    let mut copy: Vec<TopicClearField> = Vec::new();
    let mut i: usize = 0;
    while i < fields.len()
        invariant
            i <= fields@.len(),
            copy@ == fields@.take(i as int),
        decreases fields@.len() - i,
    {
        copy.push(fields[i]);
        proof {
            assert(fields@.take(i + 1) =~= fields@.take(i as int).push(fields@[i as int]));
        }
        i = i + 1;
    }
    proof {
        assert(fields@.take(i as int) =~= fields@);
    }
    edit_in_content(content, topic_id, &TopicEdit::Clear(copy))
}

/// Empties the children of the first topic with the id `topic_id` in `content.json`.
pub fn delete_topic_children_in_content(content: &mut JsonValue, topic_id: &str) -> (r: bool)
    ensures
        applied(r, final(content)@, old(content)@, edit_content(old(content)@, topic_id@, TopicEditSpec::ClearChildren)),
{
    edit_in_content(content, topic_id, &TopicEdit::ClearChildren)
}

/// The first topic with the id `id` in the tree under `t`, in document order.
pub open spec fn find_topic(t: Json, id: Seq<char>) -> Option<Json>
    decreases t, 0int,
{
    match t {
        Json::Object(ms) => if has_id(ms, id) {
            Some(t)
        } else {
            match attached_of(ms) {
                Some(items) => {
                    proof {
                        lemma_attached_decreases(t);
                    }
                    find_forest(items, id, 0)
                },
                None => None,
            }
        },
        _ => None,
    }
}

/// The first topic with the id `id` in the trees of `items` from position `i` on.
pub open spec fn find_forest(items: Seq<Json>, id: Seq<char>, i: int) -> Option<Json>
    decreases items, items.len() - i,
{
    if 0 <= i < items.len() {
        match find_topic(items[i], id) {
            Some(x) => Some(x),
            None => find_forest(items, id, i + 1),
        }
    } else {
        None
    }
}

/// The attached topics of an object, read where they stand.
pub fn attached_ref(ms: &Vec<JsonMember>) -> (r: Option<&Vec<JsonValue>>)
    ensures
        match attached_of(mv(ms@)) {
            Some(items) => r is Some && json_items_view(r->0@) == items,
            None => r is None,
        },
{
    proof {
        lemma_members_view(ms@);
        lemma_key_from(mv(ms@), "children"@, 0);
    }
    match find_key(ms, "children") {
        Some(ci) => match &ms[ci].value {
            JsonValue::Object(cms) => {
                proof {
                    lemma_members_view(cms@);
                    lemma_key_from(mv(cms@), "attached"@, 0);
                }
                match find_key(cms, "attached") {
                    Some(ai) => match &cms[ai].value {
                        JsonValue::Array(items) => Some(items),
                        _ => None,
                    },
                    None => None,
                }
            },
            _ => None,
        },
        None => None,
    }
}

/// The first topic with the id `topic_id` in the tree under `topic`.
pub fn find_topic_in_topic<'a>(topic: &'a JsonValue, topic_id: &str) -> (r: Option<&'a JsonValue>)
    ensures
        match find_topic(topic@, topic_id@) {
            Some(x) => r is Some && r->0@ == x,
            None => r is None,
        },
    decreases json_height(topic@),
{
    match topic {
        JsonValue::Object(ms) => {
            if member_is_string(ms, "id", topic_id) {
                return Some(topic);
            }
            match attached_ref(ms) {
                None => None,
                Some(items) => {
                    let ghost orig = json_items_view(items@);
                    proof {
                        lemma_attached_height(mv(ms@));
                        lemma_items_view(items@);
                    }
                    let mut k: usize = 0;
                    while k < items.len()
                        invariant
                            k <= items@.len(),
                            json_items_view(items@) == orig,
                            orig.len() == items@.len(),
                            forall|j: int| 0 <= j < items@.len() ==> #[trigger] orig[j] == json_view(items@[j]),
                            *topic == JsonValue::Object(*ms),
                            attached_of(mv(ms@)) == Some(orig),
                            !has_id(mv(ms@), topic_id@),
                            forall|j: int| 0 <= j < orig.len() ==> #[trigger] json_height(orig[j]) < json_height(topic@),
                            find_forest(orig, topic_id@, 0) == find_forest(orig, topic_id@, k as int),
                        decreases items@.len() - k,
                    {
                        proof {
                            assert(json_height(items@[k as int]@) < json_height(topic@));
                        }
                        match find_topic_in_topic(&items[k], topic_id) {
                            Some(found) => {
                                return Some(found);
                            },
                            None => {},
                        }
                        k = k + 1;
                    }
                    None
                },
            }
        },
        _ => None,
    }
}

/// The first topic with the id `id` in the sheets of `content.json`, each looked at from
/// its `rootTopic`.
pub open spec fn find_in_sheets(sheets: Seq<Json>, id: Seq<char>, i: int) -> Option<Json>
    decreases sheets.len() - i,
{
    if 0 <= i < sheets.len() {
        let next = find_in_sheets(sheets, id, i + 1);
        match sheets[i] {
            Json::Object(sm) => match member_value(sm, "rootTopic"@) {
                Some(root) => match find_topic(root, id) {
                    Some(x) => Some(x),
                    None => next,
                },
                None => next,
            },
            _ => next,
        }
    } else {
        None
    }
}

/// The first topic with the id `id` in `content.json`.
pub open spec fn find_in_content(c: Json, id: Seq<char>) -> Option<Json> {
    match c {
        Json::Array(sheets) => find_in_sheets(sheets, id, 0),
        _ => None,
    }
}

/// The first topic with the id `topic_id` in the sheets of `content.json`.
pub fn find_topic_in_content<'a>(content: &'a JsonValue, topic_id: &str) -> (r: Option<&'a JsonValue>)
    ensures
        match find_in_content(content@, topic_id@) {
            Some(x) => r is Some && r->0@ == x,
            None => r is None,
        },
{
    match content {
        JsonValue::Array(sheets) => {
            let ghost orig = json_items_view(sheets@);
            proof {
                lemma_items_view(sheets@);
            }
            let mut k: usize = 0;
            while k < sheets.len()
                invariant
                    k <= sheets@.len(),
                    json_items_view(sheets@) == orig,
                    orig.len() == sheets@.len(),
                    forall|j: int| 0 <= j < sheets@.len() ==> #[trigger] orig[j] == json_view(sheets@[j]),
                    *content == JsonValue::Array(*sheets),
                    find_in_sheets(orig, topic_id@, 0) == find_in_sheets(orig, topic_id@, k as int),
                decreases sheets@.len() - k,
            {
                match &sheets[k] {
                    JsonValue::Object(sm) => {
                        proof {
                            lemma_members_view(sm@);
                        }
                        match find_key(sm, "rootTopic") {
                            Some(ri) => match find_topic_in_topic(&sm[ri].value, topic_id) {
                                Some(found) => {
                                    return Some(found);
                                },
                                None => {},
                            },
                            None => {},
                        }
                    },
                    _ => {},
                }
                k = k + 1;
            }
            None
        },
        _ => None,
    }
}

/// Setting a member other than `children` leaves the attached topics alone.
pub proof fn lemma_with_member_attached(ms: Members, k: Seq<char>, v: Json)
    requires
        k != "children"@,
    ensures
        attached_of(with_member(ms, k, v)) == attached_of(ms),
{
    let i = key_index(ms, k);
    lemma_key_from(ms, k, 0);
    lemma_key_from(ms, "children"@, 0);
    let ms2 = with_member(ms, k, v);
    if 0 <= i < ms.len() {
        lemma_key_from_same_keys(ms, ms2, "children"@, 0);
    } else {
        lemma_key_push(ms, (k, v), "children"@);
    }
    let ci = key_index(ms, "children"@);
    if 0 <= ci < ms.len() {
        assert(ms2[ci] == ms[ci]);
    }
}

/// The id of a copied child: its own id with `-copy` after it, or, for a child without
/// one, the copied parent's original id with `-copy-child` after it.
pub open spec fn copy_child_id(child: Json, original: Seq<char>) -> Seq<char> {
    match child {
        Json::Object(cms) => match member_value(cms, "id"@) {
            Some(Json::String(s)) => s + "-copy"@,
            _ => original + "-copy-child"@,
        },
        _ => original + "-copy-child"@,
    }
}

/// A copied tree with fresh ids: the root gets `new_id` (and `new_title`, if given),
/// each child the id that `copy_child_id` gives it, all the way down.
pub open spec fn rewrite_ids(t: Json, new_id: Seq<char>, new_title: Option<Seq<char>>) -> Json
    decreases t, 0int,
{
    match t {
        Json::Object(ms) => {
            let original = match member_value(ms, "id"@) {
                Some(Json::String(s)) => s,
                _ => new_id,
            };
            let ms1 = with_member(ms, "id"@, Json::String(new_id));
            let ms2 = match new_title {
                Some(tt) => with_member(ms1, "title"@, Json::String(tt)),
                None => ms1,
            };
            match attached_of(ms) {
                Some(items) => {
                    proof {
                        lemma_attached_decreases(t);
                    }
                    Json::Object(with_attached(ms2, rewrite_forest(items, original, items.len() as int)))
                },
                None => Json::Object(ms2),
            }
        },
        _ => t,
    }
}

/// The first `n` children of a copied topic, rewritten.
pub open spec fn rewrite_forest(items: Seq<Json>, original: Seq<char>, n: int) -> Seq<Json>
    decreases items, n,
{
    if n <= 0 || n > items.len() {
        seq![]
    } else {
        rewrite_forest(items, original, n - 1).push(
            rewrite_ids(items[n - 1], copy_child_id(items[n - 1], original), None),
        )
    }
}

fn concat_str(a: &str, b: &str) -> (r: String)
    ensures
        r@ == a@ + b@,
{
    let mut cs = crate::text::chars_of(a);
    let tail = crate::text::chars_of(b);
    crate::text::push_all(&mut cs, tail.as_slice());
    crate::text::string_from_chars(cs.as_slice())
}

fn copy_id_of(child: &JsonValue, original: &String) -> (r: String)
    ensures
        r@ == copy_child_id(child@, original@),
{
    match child {
        JsonValue::Object(cms) => {
            proof {
                lemma_members_view(cms@);
            }
            match find_key(cms, "id") {
                Some(i) => match &cms[i].value {
                    JsonValue::String(s) => concat_str(s.as_str(), "-copy"),
                    _ => concat_str(original.as_str(), "-copy-child"),
                },
                None => concat_str(original.as_str(), "-copy-child"),
            }
        },
        _ => concat_str(original.as_str(), "-copy-child"),
    }
}

fn rewrite_value(t: JsonValue, new_id: &str, new_title: Option<&str>) -> (r: JsonValue)
    ensures
        r@ == rewrite_ids(t@, new_id@, crate::app::patch::opt_str(new_title)),
    decreases json_height(t@),
{
    let ghost t0 = t@;
    match t {
        JsonValue::Object(mut ms) => {
            let ghost m0 = mv(ms@);
            proof {
                lemma_members_view(ms@);
            }
            let original: String = match find_key(&ms, "id") {
                Some(i) => match &ms[i].value {
                    JsonValue::String(s) => s.clone(),
                    _ => new_id.to_string(),
                },
                None => new_id.to_string(),
            };
            set_member(&mut ms, "id", JsonValue::String(new_id.to_string()));
            proof {
                reveal_strlit("id");
                reveal_strlit("title");
                reveal_strlit("children");
                assert("id"@.len() != "children"@.len());
                assert("title"@.len() != "children"@.len());
                lemma_with_member_attached(m0, "id"@, Json::String(new_id@));
            }
            match new_title {
                Some(tt) => {
                    let ghost m1 = mv(ms@);
                    set_member(&mut ms, "title", JsonValue::String(tt.to_string()));
                    proof {
                        lemma_with_member_attached(m1, "title"@, Json::String(tt@));
                    }
                },
                None => {},
            }
            let ghost m2 = mv(ms@);
            match take_attached(&mut ms) {
                None => JsonValue::Object(ms),
                Some(mut items) => {
                    let ghost orig = json_items_view(items@);
                    proof {
                        lemma_attached_height(m0);
                        lemma_items_view(items@);
                        lemma_with_attached(m2, seq![], orig);
                        assert(orig.subrange(0, orig.len() as int) =~= orig);
                    }
                    let mut k: usize = 0;
                    while k < items.len()
                        invariant
                            k <= items@.len(),
                            orig.len() == items@.len(),
                            json_items_view(items@) == rewrite_forest(orig, original@, k as int) + orig.subrange(
                                k as int,
                                orig.len() as int,
                            ),
                            t0 == t@,
                            t0 == Json::Object(m0),
                            attached_of(m0) == Some(orig),
                            attached_of(m2) == Some(orig),
                            mv(ms@) == with_attached(m2, seq![]),
                            forall|j: int| 0 <= j < orig.len() ==> #[trigger] json_height(orig[j]) < json_height(t0),
                        decreases items@.len() - k,
                    {
                        let ghost before = items@;
                        proof {
                            lemma_items_view(items@);
                            assert(rewrite_forest(orig, original@, k as int).len() == k) by {
                                lemma_rewrite_forest_len(orig, original@, k as int);
                            }
                            assert(json_items_view(before)[k as int] == orig[k as int]);
                        }
                        let child = items.remove(k);
                        let cid = copy_id_of(&child, &original);
                        let child2 = rewrite_value(child, cid.as_str(), None);
                        items.insert(k, child2);
                        proof {
                            assert(items@ =~= before.update(k as int, child2));
                            lemma_items_update(before, k as int, child2);
                            lemma_rewrite_forest_len(orig, original@, k as int);
                            assert(json_items_view(items@) =~= rewrite_forest(orig, original@, k + 1) + orig.subrange(
                                k + 1,
                                orig.len() as int,
                            ));
                        }
                        k = k + 1;
                    }
                    proof {
                        lemma_rewrite_forest_len(orig, original@, k as int);
                        assert(json_items_view(items@) =~= rewrite_forest(orig, original@, orig.len() as int));
                        lemma_with_attached(m2, seq![], json_items_view(items@));
                    }
                    put_attached(&mut ms, items);
                    JsonValue::Object(ms)
                },
            }
        },
        other => other,
    }
}

proof fn lemma_rewrite_forest_len(items: Seq<Json>, original: Seq<char>, n: int)
    requires
        0 <= n <= items.len(),
    ensures
        rewrite_forest(items, original, n).len() == n,
    decreases n,
{
    if n > 0 {
        lemma_rewrite_forest_len(items, original, n - 1);
    }
}

/// Gives a copied tree fresh ids: the root `new_id` (and `new_title`, if given), each
/// child its own id with `-copy` after it, all the way down.
pub fn rewrite_copied_topic_ids(topic: &mut JsonValue, new_id: &str, new_title: Option<&str>)
    ensures
        final(topic)@ == rewrite_ids(old(topic)@, new_id@, crate::app::patch::opt_str(new_title)),
{
    let mut t = JsonValue::Null;
    core::mem::swap(&mut t, topic);
    *topic = rewrite_value(t, new_id, new_title);
}

/// Setting one member leaves the value of every other member as it was.
pub proof fn lemma_with_member_other(ms: Members, k: Seq<char>, v: Json, k2: Seq<char>)
    requires
        k != k2,
    ensures
        member_value(with_member(ms, k, v), k2) == member_value(ms, k2),
{
    let i = key_index(ms, k);
    lemma_key_from(ms, k, 0);
    lemma_key_from(ms, k2, 0);
    let w = with_member(ms, k, v);
    if 0 <= i < ms.len() {
        lemma_key_from_same_keys(ms, w, k2, 0);
    } else {
        lemma_key_push(ms, (k, v), k2);
    }
    let j = key_index(ms, k2);
    if 0 <= j < ms.len() {
        assert(w[j] == ms[j]);
    }
}

/// Removing one member leaves the value of every other member as it was.
pub proof fn lemma_without_member_other(ms: Members, k: Seq<char>, k2: Seq<char>)
    requires
        k != k2,
    ensures
        member_value(without_member(ms, k), k2) == member_value(ms, k2),
{
    let i = key_index(ms, k);
    lemma_key_from(ms, k, 0);
    lemma_key_from(ms, k2, 0);
    if 0 <= i < ms.len() {
        let w = ms.remove(i);
        lemma_key_from(w, k2, 0);
        let j = key_index(ms, k2);
        let r = key_index(w, k2);
        if 0 <= j < ms.len() {
            let j2 = if j < i {
                j
            } else {
                j - 1
            };
            assert(j != i);
            assert(w[j2] == ms[j]);
            if r != j2 {
                if r == -1 {
                    assert(w[j2].0 != k2);
                } else if r < j2 {
                    if r < i {
                        assert(w[r] == ms[r]);
                    } else {
                        assert(w[r] == ms[r + 1]);
                    }
                } else {
                    assert(w[j2].0 != k2);
                }
            }
        } else {
            if 0 <= r < w.len() {
                if r < i {
                    assert(w[r] == ms[r]);
                } else {
                    assert(w[r] == ms[r + 1]);
                }
            }
        }
    }
}

/// An edit that every topic takes: one that sets or clears its fields or its children.
pub open spec fn plain_edit(e: TopicEditSpec) -> bool {
    !(e is AppendChild) && !(e is Attach)
}

proof fn lemma_clear_keeps_id(ms: Members, fields: Seq<TopicClearField>)
    ensures
        member_value(clear_members(ms, fields), "id"@) == member_value(ms, "id"@),
    decreases fields.len(),
{
    if fields.len() > 0 {
        reveal_strlit("id");
        reveal_strlit("notes");
        reveal_strlit("labels");
        reveal_strlit("markers");
        reveal_strlit("href");
        reveal_strlit("image");
        let k = clear_key(fields[0]);
        assert(k.len() != 2 || k[0] != 'i' || k[1] != 'd');
        lemma_without_member_other(ms, k, "id"@);
        lemma_clear_keeps_id(without_member(ms, k), fields.drop_first());
    }
}

/// A plain edit always applies and leaves the topic's id as it was.
pub proof fn lemma_plain_edit_keeps_id(e: TopicEditSpec, ms: Members)
    requires
        plain_edit(e),
    ensures
        edit_members(e, ms) is Some,
        member_value(edit_members(e, ms)->0, "id"@) == member_value(ms, "id"@),
{
    reveal_strlit("id");
    reveal_strlit("title");
    reveal_strlit("notes");
    reveal_strlit("labels");
    reveal_strlit("markers");
    reveal_strlit("href");
    reveal_strlit("image");
    match e {
        TopicEditSpec::Title(t) => {
            assert("title"@.len() != "id"@.len());
            lemma_with_member_other(ms, "title"@, Json::String(t), "id"@);
        },
        TopicEditSpec::Note(n) => {
            assert("notes"@.len() != "id"@.len());
            lemma_with_member_other(ms, "notes"@, note_json(n), "id"@);
        },
        TopicEditSpec::Labels(l) => {
            assert("labels"@.len() != "id"@.len());
            lemma_with_member_other(ms, "labels"@, labels_json(l), "id"@);
        },
        TopicEditSpec::Markers(m) => {
            assert("markers"@.len() != "id"@.len());
            lemma_with_member_other(ms, "markers"@, markers_json(m), "id"@);
        },
        TopicEditSpec::Hyperlink(h) => {
            assert("href"@.len() != "id"@.len());
            lemma_with_member_other(ms, "href"@, Json::String(h), "id"@);
        },
        TopicEditSpec::Image(src, alt, title) => {
            assert("image"@.len() != "id"@.len());
            lemma_with_member_other(ms, "image"@, image_json(src, alt, title), "id"@);
        },
        TopicEditSpec::Clear(fields) => {
            lemma_clear_keeps_id(ms, fields);
        },
        TopicEditSpec::ClearChildren => {
            if attached_of(ms) is Some {
                lemma_with_attached(ms, seq![], seq![]);
            }
        },
        _ => {},
    }
}

proof fn lemma_edit_find_topic(t: Json, id: Seq<char>, e: TopicEditSpec)
    requires
        plain_edit(e),
    ensures
        match find_topic(t, id) {
            Some(f) => f is Object && edit_topic(t, id, e) is Done && find_topic(edit_topic(t, id, e)->Done_0, id)
                == Some(Json::Object(edit_members(e, f->Object_0)->0)),
            None => edit_topic(t, id, e) is Absent,
        },
    decreases t, 0int,
{
    match t {
        Json::Object(ms) => {
            if has_id(ms, id) {
                lemma_plain_edit_keeps_id(e, ms);
            } else {
                match attached_of(ms) {
                    Some(items) => {
                        lemma_attached_decreases(t);
                        lemma_edit_find_forest(items, id, e, 0);
                        match edit_forest(items, id, e, 0) {
                            Outcome::Done(items2) => {
                                lemma_with_attached(ms, items2, items2);
                            },
                            _ => {},
                        }
                    },
                    None => {},
                }
            }
        },
        _ => {},
    }
}

proof fn lemma_edit_find_forest(items: Seq<Json>, id: Seq<char>, e: TopicEditSpec, i: int)
    requires
        plain_edit(e),
        0 <= i,
    ensures
        match find_forest(items, id, i) {
            Some(f) => f is Object && (edit_forest(items, id, e, i) matches Outcome::Done(items2) && items2.len()
                == items.len() && (forall|j: int| 0 <= j < i ==> items2[j] == items[j]) && find_forest(
                items2,
                id,
                i,
            ) == Some(Json::Object(edit_members(e, f->Object_0)->0))),
            None => edit_forest(items, id, e, i) is Absent,
        },
    decreases items, items.len() - i,
{
    if 0 <= i < items.len() {
        lemma_edit_find_topic(items[i], id, e);
        match find_topic(items[i], id) {
            Some(f) => {},
            None => {
                lemma_edit_find_forest(items, id, e, i + 1);
                match edit_forest(items, id, e, i + 1) {
                    Outcome::Done(items2) => {
                        assert(items2[i] == items[i]);
                    },
                    _ => {},
                }
            },
        }
    }
}

proof fn lemma_edit_find_sheets(sheets: Seq<Json>, id: Seq<char>, e: TopicEditSpec, i: int)
    requires
        plain_edit(e),
        0 <= i,
    ensures
        match find_in_sheets(sheets, id, i) {
            Some(f) => f is Object && (edit_sheets(sheets, id, e, i) matches Outcome::Done(s2) && s2.len()
                == sheets.len() && (forall|j: int| 0 <= j < i ==> s2[j] == sheets[j]) && find_in_sheets(
                s2,
                id,
                i,
            ) == Some(Json::Object(edit_members(e, f->Object_0)->0))),
            None => edit_sheets(sheets, id, e, i) is Absent,
        },
    decreases sheets.len() - i,
{
    if 0 <= i < sheets.len() {
        lemma_edit_find_sheets(sheets, id, e, i + 1);
        match sheets[i] {
            Json::Object(sm) => {
                let ri = key_index(sm, "rootTopic"@);
                lemma_key_from(sm, "rootTopic"@, 0);
                if 0 <= ri < sm.len() {
                    lemma_edit_find_topic(sm[ri].1, id, e);
                    match find_topic(sm[ri].1, id) {
                        Some(f) => {
                            let x = edit_topic(sm[ri].1, id, e)->Done_0;
                            let sm2 = sm.update(ri, (sm[ri].0, x));
                            lemma_key_from_same_keys(sm, sm2, "rootTopic"@, 0);
                        },
                        None => {
                            match edit_sheets(sheets, id, e, i + 1) {
                                Outcome::Done(s2) => {
                                    assert(s2[i] == sheets[i]);
                                },
                                _ => {},
                            }
                        },
                    }
                } else {
                    match edit_sheets(sheets, id, e, i + 1) {
                        Outcome::Done(s2) => {
                            assert(s2[i] == sheets[i]);
                        },
                        _ => {},
                    }
                }
            },
            _ => {
                match edit_sheets(sheets, id, e, i + 1) {
                    Outcome::Done(s2) => {
                        assert(s2[i] == sheets[i]);
                    },
                    _ => {},
                }
            },
        }
    }
}

/// What an edit wrote reads back. An edit that sets or clears a topic's fields (its
/// title, note, labels, markers, hyperlink or image) or its children applies exactly
/// where a topic with the id is found in `content.json`, and afterwards the first topic
/// found under that id is that topic with the edit made; where no topic has the id,
/// nothing is edited.
pub proof fn law_edit_reads_back(c: Json, id: Seq<char>, e: TopicEditSpec)
    requires
        plain_edit(e),
    ensures
        match find_in_content(c, id) {
            Some(f) => f is Object && edit_content(c, id, e) is Done && find_in_content(
                edit_content(c, id, e)->Done_0,
                id,
            ) == Some(Json::Object(edit_members(e, f->Object_0)->0)),
            None => edit_content(c, id, e) is Absent,
        },
{
    match c {
        Json::Array(sheets) => {
            lemma_edit_find_sheets(sheets, id, e, 0);
        },
        _ => {},
    }
}


proof fn lemma_id_from_has_id(items: Seq<Json>, id: Seq<char>, i: int)
    ensures
        0 <= id_from(items, id, i) < items.len() ==> json_has_id(items[id_from(items, id, i)], id),
        id_from(items, id, i) == -1 || i <= id_from(items, id, i),
    decreases items.len() - i,
{
    if 0 <= i < items.len() && !json_has_id(items[i], id) {
        lemma_id_from_has_id(items, id, i + 1);
    }
}

proof fn lemma_find_forest_some(items: Seq<Json>, id: Seq<char>, i: int, j: int)
    requires
        0 <= i <= j < items.len(),
        find_topic(items[j], id) is Some,
    ensures
        find_forest(items, id, i) is Some,
    decreases j - i,
{
    if i < j && find_topic(items[i], id) is None {
        lemma_find_forest_some(items, id, i + 1, j);
    }
}

proof fn lemma_remove_below_found(t: Json, id: Seq<char>, promote: bool)
    ensures
        remove_below(t, id, promote) matches Some((after, removed)) ==> json_has_id(removed, id)
            && find_topic(t, id) is Some,
    decreases t, 0int,
{
    match t {
        Json::Object(ms) => match attached_of(ms) {
            Some(items) => {
                lemma_attached_decreases(t);
                let p = id_from(items, id, 0);
                lemma_id_from_has_id(items, id, 0);
                if 0 <= p < items.len() {
                    if !has_id(ms, id) {
                        lemma_find_forest_some(items, id, 0, p);
                    }
                } else {
                    lemma_remove_forest_found(items, id, promote, 0);
                }
            },
            None => {},
        },
        _ => {},
    }
}

proof fn lemma_remove_forest_found(items: Seq<Json>, id: Seq<char>, promote: bool, i: int)
    requires
        0 <= i,
    ensures
        remove_below_forest(items, id, promote, i) matches Some((after, removed)) ==> json_has_id(
            removed,
            id,
        ) && find_forest(items, id, i) is Some,
    decreases items, items.len() - i,
{
    if 0 <= i < items.len() {
        lemma_remove_below_found(items[i], id, promote);
        match remove_below(items[i], id, promote) {
            Some(_) => {},
            None => {
                lemma_remove_forest_found(items, id, promote, i + 1);
                if remove_below_forest(items, id, promote, i + 1) is Some {
                    if find_topic(items[i], id) is None {
                        assert(find_forest(items, id, i) == find_forest(items, id, i + 1));
                    }
                }
            },
        }
    }
}

proof fn lemma_remove_sheets_found(sheets: Seq<Json>, id: Seq<char>, promote: bool, i: int)
    requires
        0 <= i,
    ensures
        remove_sheets(sheets, id, promote, i) matches Some((after, removed)) ==> json_has_id(
            removed,
            id,
        ) && find_in_sheets(sheets, id, i) is Some,
    decreases sheets.len() - i,
{
    if 0 <= i < sheets.len() {
        lemma_remove_sheets_found(sheets, id, promote, i + 1);
        match sheets[i] {
            Json::Object(sm) => {
                let ri = key_index(sm, "rootTopic"@);
                lemma_key_from(sm, "rootTopic"@, 0);
                if 0 <= ri < sm.len() {
                    lemma_remove_below_found(sm[ri].1, id, promote);
                }
            },
            _ => {},
        }
    }
}

/// What a deletion removes is a topic with the id that was asked for, and a topic with
/// that id was found in `content.json` before it: where no topic has the id, nothing is
/// removed. This holds whether the removed topic's children go with it or move up.
pub proof fn law_removal_takes_the_topic_asked_for(c: Json, id: Seq<char>, promote: bool)
    ensures
        remove_in_content(c, id, promote) matches Some((after, removed)) ==> json_has_id(
            removed,
            id,
        ) && find_in_content(c, id) is Some,
        find_in_content(c, id) is None ==> remove_in_content(c, id, promote) is None,
{
    match c {
        Json::Array(sheets) => {
            lemma_remove_sheets_found(sheets, id, promote, 0);
        },
        _ => {},
    }
}

} // verus!

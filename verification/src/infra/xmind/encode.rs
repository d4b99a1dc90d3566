//! Writing workbooks: the stored JSON of sheets and topics, the unknown fields put back
//! where they were read, and the edits of `content.json` that each write command makes.
use vstd::prelude::*;
use crate::domain::sheet::Sheet;
use crate::domain::topic::{Topic, TopicImageRef};
use crate::domain::workbook::{PreservedJsonField, Workbook};
use crate::infra::xmind::content::{
    image_json, labels_json, markers_json, note_json, opt_text, build_image, build_labels,
    build_markers, build_note, find_key, key_index, mv, set_member, with_member, edit_content,
    remove_in_content, find_in_content, rewrite_ids, Outcome, TopicEditSpec,
    append_topic_to_content, rename_topic_in_content, set_topic_note_in_content,
    set_topic_labels_in_content, set_topic_markers_in_content, set_topic_hyperlink_in_content,
    set_topic_image_in_content, clear_topic_fields_in_content, delete_topic_in_content,
    delete_topic_children_in_content, delete_topic_promote_children_in_content,
    remove_topic_from_content, append_existing_topic_to_content, find_topic_in_content,
    rewrite_copied_topic_ids,
};
use crate::infra::fs::paths::{file_name_of, path_file_name, path_with_file_name, with_file_name_of};
use crate::infra::xmind::json::{
    clone_json, json_items_view, json_members_view, json_view, lemma_items_update,
    lemma_items_view, lemma_members_update, lemma_members_view, push_item, push_member, Json,
    JsonMember, JsonValue,
};

verus! {

/// A topic field that `set --clear` removes.
#[derive(Clone, Copy, Debug, PartialEq, Eq, Structural)]
pub enum TopicClearField {
    Note,
    Labels,
    Markers,
    Hyperlink,
    Image,
}

/// The member `(k, v)` where there is a value, nothing otherwise.
pub open spec fn member_if(present: bool, k: Seq<char>, v: Json) -> Seq<(Seq<char>, Json)> {
    if present {
        seq![(k, v)]
    } else {
        seq![]
    }
}

/// A stored image reference of a topic image.
pub open spec fn topic_image_json(i: TopicImageRef) -> Json {
    image_json(i.asset_id.0@, opt_text(i.alt), opt_text(i.title))
}

/// A topic as stored: id, title, the note, hyperlink and image it has, its labels and
/// markers where there are any, and its children.
pub open spec fn topic_json(t: Topic) -> Json
    decreases t, 1nat, 0int,
{
    Json::Object(
        seq![("id"@, Json::String(t.id.0@)), ("title"@, Json::String(t.title@))] + member_if(
            t.note is Some,
            "notes"@,
            note_json(t.note->0@),
        ) + member_if(t.hyperlink is Some, "href"@, Json::String(t.hyperlink->0@)) + member_if(
            t.image is Some,
            "image"@,
            topic_image_json(t.image->0),
        ) + member_if(t.labels@.len() > 0, "labels"@, labels_json(t.labels.deep_view()))
            + member_if(t.markers@.len() > 0, "markers"@, markers_json(t.markers.deep_view()))
            + seq![
            (
                "children"@,
                Json::Object(
                    seq![("attached"@, Json::Array(topics_json(t.children@, t.children@.len() as int)))],
                ),
            ),
        ],
    )
}

/// The first `n` topics as stored.
pub open spec fn topics_json(ts: Seq<Topic>, n: int) -> Seq<Json>
    decreases ts, 0nat, n,
{
    if n <= 0 || n > ts.len() {
        seq![]
    } else {
        topics_json(ts, n - 1).push(topic_json(ts[n - 1]))
    }
}

/// A sheet as stored.
pub open spec fn sheet_json(s: Sheet) -> Json {
    Json::Object(
        seq![
            ("id"@, Json::String(s.id.0@)),
            ("title"@, Json::String(s.title@)),
            ("rootTopic"@, topic_json(s.root)),
        ],
    )
}

/// The sheets as stored, in order.
pub open spec fn sheets_json(ss: Seq<Sheet>) -> Seq<Json> {
    Seq::new(ss.len(), |i: int| sheet_json(ss[i]))
}

fn push_member_if(ms: &mut Vec<JsonMember>, present: bool, k: &str, v: JsonValue)
    ensures
        json_members_view(final(ms)@) == json_members_view(old(ms)@) + member_if(present, k@, v@),
{
    if present {
        push_member(ms, k, v);
        proof {
            assert(json_members_view(final(ms)@) =~= json_members_view(old(ms)@) + seq![(k@, v@)]);
        }
    } else {
        proof {
            assert(json_members_view(ms@) =~= json_members_view(ms@) + Seq::<(Seq<char>, Json)>::empty());
        }
    }
}

/// A topic image as stored.
pub fn storage_image_json(image: &TopicImageRef) -> (r: JsonValue)
    ensures
        r@ == topic_image_json(*image),
{
    build_image(&image.asset_id.0, &image.alt, &image.title)
}

/// A topic as stored, its children with it.
pub fn storage_topic_json(topic: &Topic) -> (r: JsonValue)
    ensures
        r@ == topic_json(*topic),
    decreases topic,
{
    let mut ms: Vec<JsonMember> = Vec::new();
    push_member(&mut ms, "id", JsonValue::String(topic.id.0.clone()));
    push_member(&mut ms, "title", JsonValue::String(topic.title.clone()));
    proof {
        assert(json_members_view(ms@) =~= seq![
            ("id"@, Json::String(topic.id.0@)),
            ("title"@, Json::String(topic.title@)),
        ]);
    }
    let ghost m0 = json_members_view(ms@);
    let note = match &topic.note {
        Some(n) => build_note(n),
        None => JsonValue::Null,
    };
    push_member_if(&mut ms, topic.note.is_some(), "notes", note);
    let href = match &topic.hyperlink {
        Some(h) => JsonValue::String(h.clone()),
        None => JsonValue::Null,
    };
    push_member_if(&mut ms, topic.hyperlink.is_some(), "href", href);
    let image = match &topic.image {
        Some(i) => storage_image_json(i),
        None => JsonValue::Null,
    };
    push_member_if(&mut ms, topic.image.is_some(), "image", image);
    let labels = build_labels(&topic.labels);
    push_member_if(&mut ms, topic.labels.len() > 0, "labels", labels);
    let markers = build_markers(&topic.markers);
    push_member_if(&mut ms, topic.markers.len() > 0, "markers", markers);
    let mut children: Vec<JsonValue> = Vec::new();
    let mut i: usize = 0;
    while i < topic.children.len()
        invariant
            i <= topic.children@.len(),
            json_items_view(children@) == topics_json(topic.children@, i as int),
        decreases topic.children@.len() - i,
    {
        let c = storage_topic_json(&topic.children[i]);
        push_item(&mut children, c);
        i = i + 1;
    }
    let mut attached: Vec<JsonMember> = Vec::new();
    push_member(&mut attached, "attached", JsonValue::Array(children));
    push_member(&mut ms, "children", JsonValue::Object(attached));
    proof {
        assert(json_members_view(attached@) =~= seq![
            ("attached"@, Json::Array(topics_json(topic.children@, topic.children@.len() as int))),
        ]);
        assert(json_members_view(ms@) =~= topic_json(*topic)->Object_0);
    }
    JsonValue::Object(ms)
}

/// A sheet as stored.
pub fn storage_sheet_json(sheet: &Sheet) -> (r: JsonValue)
    ensures
        r@ == sheet_json(*sheet),
{
    let mut ms: Vec<JsonMember> = Vec::new();
    push_member(&mut ms, "id", JsonValue::String(sheet.id.0.clone()));
    push_member(&mut ms, "title", JsonValue::String(sheet.title.clone()));
    push_member(&mut ms, "rootTopic", storage_topic_json(&sheet.root));
    proof {
        assert(json_members_view(ms@) =~= sheet_json(*sheet)->Object_0);
    }
    JsonValue::Object(ms)
}

/// The pieces of `s` between the separators, empty ones included; one piece where there
/// is no separator.
pub open spec fn split_on(s: Seq<char>, sep: char) -> Seq<Seq<char>>
    decreases s.len(),
{
    if s.len() == 0 {
        seq![seq![]]
    } else {
        let rest = split_on(s.drop_last(), sep);
        if s.last() == sep {
            rest.push(seq![])
        } else {
            rest.update(rest.len() - 1, rest.last().push(s.last()))
        }
    }
}

pub proof fn lemma_split_on_len(s: Seq<char>, sep: char)
    ensures
        split_on(s, sep).len() >= 1,
    decreases s.len(),
{
    if s.len() > 0 {
        lemma_split_on_len(s.drop_last(), sep);
    }
}

/// The texts of a sequence of character vectors.
pub open spec fn vec_views(v: Seq<Vec<char>>) -> Seq<Seq<char>> {
    v.map_values(|x: Vec<char>| x@)
}

/// Splits text at each separator.
pub fn split_chars(s: &[char], sep: char) -> (r: Vec<Vec<char>>)
    ensures
        vec_views(r@) == split_on(s@, sep),
{
    let mut parts: Vec<Vec<char>> = Vec::new();
    parts.push(Vec::new());
    proof {
        assert(s@.take(0) =~= Seq::<char>::empty());
        assert(vec_views(parts@) =~= split_on(s@.take(0), sep));
    }
    let mut i: usize = 0;
    while i < s.len()
        invariant
            i <= s@.len(),
            vec_views(parts@) == split_on(s@.take(i as int), sep),
            parts@.len() >= 1,
        decreases s@.len() - i,
    {
        let c = s[i];
        let ghost before = vec_views(parts@);
        proof {
            assert(s@.take(i + 1).drop_last() =~= s@.take(i as int));
        }
        if c == sep {
            parts.push(Vec::new());
            proof {
                assert(vec_views(parts@) =~= before.push(seq![]));
            }
        } else {
            let mut last = parts.pop().unwrap();
            last.push(c);
            parts.push(last);
            proof {
                assert(vec_views(parts@) =~= before.update(before.len() - 1, before.last().push(c)));
            }
        }
        i = i + 1;
    }
    proof {
        assert(s@.take(i as int) =~= s@);
    }
    parts
}

/// The value of a run of decimal digits.
pub open spec fn digits_value(s: Seq<char>) -> nat
    decreases s.len(),
{
    if s.len() == 0 {
        0
    } else {
        digits_value(s.drop_last()) * 10 + (s.last() as nat - '0' as nat) as nat
    }
}

/// Whether every character is a decimal digit.
pub open spec fn all_digits(s: Seq<char>) -> bool {
    forall|i: int| 0 <= i < s.len() ==> '0' <= #[trigger] s[i] <= '9'
}

/// An index as `usize` parses it from text: an optional `+`, then one or more decimal
/// digits whose value fits.
pub open spec fn parse_index_spec(s: Seq<char>) -> Option<usize> {
    let d = if s.len() > 0 && s[0] == '+' {
        s.drop_first()
    } else {
        s
    };
    if d.len() > 0 && all_digits(d) && digits_value(d) <= usize::MAX {
        Some(digits_value(d) as usize)
    } else {
        None
    }
}

/// Parses an index as `usize` does.
pub fn parse_index(s: &[char]) -> (r: Option<usize>)
    ensures
        r == parse_index_spec(s@),
{
    let start: usize = if s.len() > 0 && s[0] == '+' {
        1
    } else {
        0
    };
    let ghost d = s@.subrange(start as int, s@.len() as int);
    proof {
        if start == 1 {
            assert(d =~= s@.drop_first());
        } else {
            assert(d =~= s@);
        }
    }
    if start >= s.len() {
        return None;
    }
    let mut value: usize = 0;
    let mut i: usize = start;
    while i < s.len()
        invariant
            start <= i <= s@.len(),
            d == s@.subrange(start as int, s@.len() as int),
            d == (if s@.len() > 0 && s@[0] == '+' {
                s@.drop_first()
            } else {
                s@
            }),
            all_digits(s@.subrange(start as int, i as int)),
            value == digits_value(s@.subrange(start as int, i as int)),
        decreases s@.len() - i,
    {
        let c = s[i];
        proof {
            assert(s@.subrange(start as int, i + 1).drop_last() =~= s@.subrange(start as int, i as int));
        }
        if !('0' <= c && c <= '9') {
            proof {
                assert(d[i - start] == c);
                assert(!all_digits(d));
            }
            return None;
        }
        let digit: usize = (c as u32 - '0' as u32) as usize;
        if value > (usize::MAX - digit) / 10 {
            proof {
                lemma_digits_value_grows(d, i - start + 1);
                assert(d.subrange(0, i - start + 1) =~= s@.subrange(start as int, i + 1));
                let p = s@.subrange(start as int, i + 1);
                assert(p.last() == c);
                assert(digits_value(p) == value * 10 + digit);
                let m = usize::MAX as int;
                assert(value * 10 + digit > m) by (nonlinear_arith)
                    requires
                        value > (m - digit) / 10,
                        0 <= digit <= 9,
                        m > 9,
                ;
            }
            return None;
        }
        value = value * 10 + digit;
        i = i + 1;
    }
    proof {
        assert(s@.subrange(start as int, i as int) =~= d);
    }
    Some(value)
}

proof fn lemma_digits_value_grows(d: Seq<char>, n: int)
    requires
        0 <= n <= d.len(),
    ensures
        digits_value(d) >= digits_value(d.subrange(0, n)),
    decreases d.len(),
{
    if n < d.len() {
        assert(d.drop_last().subrange(0, n) =~= d.subrange(0, n));
        lemma_digits_value_grows(d.drop_last(), n);
    } else {
        assert(d.subrange(0, n) =~= d);
    }
}

/// The first position at or after `i` of the character `c`, or -1.
pub open spec fn char_from(s: Seq<char>, c: char, i: int) -> int
    decreases s.len() - i,
{
    if i < 0 || i >= s.len() {
        -1
    } else if s[i] == c {
        i
    } else {
        char_from(s, c, i + 1)
    }
}

/// A path part of the form `name[index]`: the name before the first `[` and the index
/// between it and the closing `]`.
pub open spec fn parse_indexed_spec(part: Seq<char>) -> Option<(Seq<char>, usize)> {
    if part.len() > 0 && part.last() == ']' {
        let body = part.drop_last();
        let b = char_from(body, '[', 0);
        if 0 <= b < body.len() {
            match parse_index_spec(body.subrange(b + 1, body.len() as int)) {
                Some(n) => Some((body.subrange(0, b), n)),
                None => None,
            }
        } else {
            None
        }
    } else {
        None
    }
}

proof fn lemma_char_from(s: Seq<char>, c: char, i: int)
    requires
        0 <= i,
    ensures
        char_from(s, c, i) == -1 || (i <= char_from(s, c, i) < s.len()),
    decreases s.len() - i,
{
    if i < s.len() && s[i] != c {
        lemma_char_from(s, c, i + 1);
    }
}

/// Reads a path part of the form `name[index]`.
pub fn parse_indexed_part(part: &[char]) -> (r: Option<(Vec<char>, usize)>)
    ensures
        match parse_indexed_spec(part@) {
            Some((name, n)) => r matches Some((nm, k)) && nm@ == name && k == n,
            None => r is None,
        },
{
    if part.len() == 0 || part[part.len() - 1] != ']' {
        return None;
    }
    let end = part.len() - 1;
    let ghost body = part@.drop_last();
    let mut b: usize = 0;
    proof {
        lemma_char_from(body, '[', 0);
    }
    while b < end && part[b] != '['
        invariant
            b <= end,
            end == part@.len() - 1,
            body == part@.drop_last(),
            char_from(body, '[', 0) == char_from(body, '[', b as int),
        decreases end - b,
    {
        b = b + 1;
    }
    proof {
        if b < end {
            assert(body[b as int] == '[');
        }
    }
    if b >= end {
        return None;
    }
    let mut name: Vec<char> = Vec::new();
    let mut i: usize = 0;
    while i < b
        invariant
            i <= b,
            b < end,
            end == part@.len() - 1,
            name@ == part@.subrange(0, i as int),
        decreases b - i,
    {
        name.push(part[i]);
        proof {
            assert(part@.subrange(0, i + 1) =~= part@.subrange(0, i as int).push(part@[i as int]));
        }
        i = i + 1;
    }
    let digits = crate::text::copy_chars(&part[b + 1..end]);
    proof {
        assert(digits@ =~= body.subrange(b + 1, body.len() as int));
        assert(name@ =~= body.subrange(0, b as int));
    }
    match parse_index(digits.as_slice()) {
        Some(n) => Some((name, n)),
        None => None,
    }
}

/// The document with the member `field` set to `v` in the object that `parts` lead to
/// from `c`: a part `sheets[i]` picks an item of the top array, a part `name[i]` an
/// item of the array member `name`, another part the member of that name. Where the
/// parts lead nowhere, or not to an object, the document is unchanged.
pub open spec fn set_at(c: Json, parts: Seq<Seq<char>>, field: Seq<char>, v: Json) -> Json
    decreases parts.len(),
{
    if parts.len() == 0 {
        match c {
            Json::Object(ms) => Json::Object(with_member(ms, field, v)),
            _ => c,
        }
    } else {
        let part = parts[0];
        let rest = parts.drop_first();
        match parse_indexed_spec(part) {
            Some((name, idx)) => if name == "sheets"@ {
                match c {
                    Json::Array(items) => if idx < items.len() {
                        Json::Array(items.update(idx as int, set_at(items[idx as int], rest, field, v)))
                    } else {
                        c
                    },
                    _ => c,
                }
            } else {
                match c {
                    Json::Object(ms) => {
                        let k = key_index(ms, name);
                        if 0 <= k < ms.len() {
                            match ms[k].1 {
                                Json::Array(items) => if idx < items.len() {
                                    Json::Object(
                                        ms.update(
                                            k,
                                            (
                                                ms[k].0,
                                                Json::Array(
                                                    items.update(
                                                        idx as int,
                                                        set_at(items[idx as int], rest, field, v),
                                                    ),
                                                ),
                                            ),
                                        ),
                                    )
                                } else {
                                    c
                                },
                                _ => c,
                            }
                        } else {
                            c
                        }
                    },
                    _ => c,
                }
            },
            None => match c {
                Json::Object(ms) => {
                    let k = key_index(ms, part);
                    if 0 <= k < ms.len() {
                        Json::Object(ms.update(k, (ms[k].0, set_at(ms[k].1, rest, field, v))))
                    } else {
                        c
                    }
                },
                _ => c,
            },
        }
    }
}

/// Sets item `idx` of an array to what `f` makes of it... as `set_at` does below the
/// item: the array with item `idx` replaced by `set_at` of it.
fn set_in_items(items: &mut Vec<JsonValue>, idx: usize, parts: &Vec<Vec<char>>, i: usize, field: &str, v: JsonValue)
    requires
        idx < old(items)@.len(),
        i < parts.len(),
    ensures
        json_items_view(final(items)@) == json_items_view(old(items)@).update(
            idx as int,
            set_at(json_view(old(items)@[idx as int]), vec_views(parts@).subrange(i + 1, parts@.len() as int), field@, v@),
        ),
    decreases parts@.len() - i, 0nat,
{
    let ghost before = items@;
    let item = items.remove(idx);
    let item2 = set_at_value(item, parts, i + 1, field, v);
    items.insert(idx, item2);
    proof {
        assert(items@ =~= before.update(idx as int, item2));
        lemma_items_update(before, idx as int, item2);
    }
}

/// The document with `field` set to `v` where `parts[i..]` lead.
fn set_at_value(c: JsonValue, parts: &Vec<Vec<char>>, i: usize, field: &str, v: JsonValue) -> (r: JsonValue)
    requires
        i <= parts@.len(),
    ensures
        r@ == set_at(c@, vec_views(parts@).subrange(i as int, parts@.len() as int), field@, v@),
    decreases parts@.len() - i, 1nat,
{
    let ghost ps = vec_views(parts@).subrange(i as int, parts@.len() as int);
    if i == parts.len() {
        return match c {
            JsonValue::Object(mut ms) => {
                set_member(&mut ms, field, v);
                JsonValue::Object(ms)
            },
            other => other,
        };
    }
    proof {
        assert(ps[0] == parts@[i as int]@);
        assert(ps.drop_first() =~= vec_views(parts@).subrange(i + 1, parts@.len() as int));
    }
    let part = &parts[i];
    match parse_indexed_part(part.as_slice()) {
        Some((name, idx)) => {
            let sheets = crate::text::chars_of("sheets");
            if crate::text::chars_equal(name.as_slice(), sheets.as_slice()) {
                match c {
                    JsonValue::Array(mut items) => {
                        proof {
                            lemma_items_view(items@);
                        }
                        if idx < items.len() {
                            set_in_items(&mut items, idx, parts, i, field, v);
                            JsonValue::Array(items)
                        } else {
                            JsonValue::Array(items)
                        }
                    },
                    other => other,
                }
            } else {
                match c {
                    JsonValue::Object(mut ms) => {
                        let ghost m0 = ms@;
                        proof {
                            lemma_members_view(ms@);
                        }
                        let key = crate::text::string_from_chars(name.as_slice());
                        match find_key(&ms, key.as_str()) {
                            Some(k) => {
                                let JsonMember { key: mk, value: mvalue } = ms.remove(k);
                                match mvalue {
                                    JsonValue::Array(mut items) => {
                                        proof {
                                            lemma_items_view(items@);
                                        }
                                        if idx < items.len() {
                                            set_in_items(&mut items, idx, parts, i, field, v);
                                            let m = JsonMember { key: mk, value: JsonValue::Array(items) };
                                            ms.insert(k, m);
                                            proof {
                                                assert(ms@ =~= m0.update(k as int, m));
                                                lemma_members_update(m0, k as int, m);
                                            }
                                            JsonValue::Object(ms)
                                        } else {
                                            let m = JsonMember { key: mk, value: JsonValue::Array(items) };
                                            ms.insert(k, m);
                                            proof {
                                                assert(ms@ =~= m0);
                                            }
                                            JsonValue::Object(ms)
                                        }
                                    },
                                    other => {
                                        let m = JsonMember { key: mk, value: other };
                                        ms.insert(k, m);
                                        proof {
                                            assert(ms@ =~= m0);
                                        }
                                        JsonValue::Object(ms)
                                    },
                                }
                            },
                            None => JsonValue::Object(ms),
                        }
                    },
                    other => other,
                }
            }
        },
        None => match c {
            JsonValue::Object(mut ms) => {
                let ghost m0 = ms@;
                proof {
                    lemma_members_view(ms@);
                }
                let key = crate::text::string_from_chars(part.as_slice());
                match find_key(&ms, key.as_str()) {
                    Some(k) => {
                        let JsonMember { key: mk, value: mvalue } = ms.remove(k);
                        let value2 = set_at_value(mvalue, parts, i + 1, field, v);
                        let m = JsonMember { key: mk, value: value2 };
                        ms.insert(k, m);
                        proof {
                            assert(ms@ =~= m0.update(k as int, m));
                            lemma_members_update(m0, k as int, m);
                        }
                        JsonValue::Object(ms)
                    },
                    None => JsonValue::Object(ms),
                }
            },
            other => other,
        },
    }
}

/// The document with an unknown field put back: `path` is the field's dotted path,
/// its last part the field's name.
pub open spec fn merge_field(c: Json, path: Seq<char>, v: Json) -> Json {
    let parts = split_on(path, '.');
    set_at(c, parts.drop_last(), parts.last(), v)
}

/// Puts an unknown field back where its dotted path says it stood.
pub fn merge_preserved_json_field(content: &mut JsonValue, path: &str, value: JsonValue)
    ensures
        final(content)@ == merge_field(old(content)@, path@, value@),
{
    let cs = crate::text::chars_of(path);
    let mut parts = split_chars(cs.as_slice(), '.');
    proof {
        lemma_split_on_len(path@, '.');
    }
    let ghost all = vec_views(parts@);
    let field_chars = parts.pop().unwrap();
    let field = crate::text::string_from_chars(field_chars.as_slice());
    proof {
        assert(vec_views(parts@) =~= all.drop_last());
        assert(vec_views(parts@).subrange(0, parts@.len() as int) =~= vec_views(parts@));
    }
    let mut c = JsonValue::Null;
    core::mem::swap(&mut c, content);
    *content = set_at_value(c, &parts, 0, field.as_str(), value);
}

/// The document with the unknown fields put back, one after the other.
pub open spec fn merge_fields(c: Json, fields: Seq<PreservedJsonField>) -> Json
    decreases fields.len(),
{
    if fields.len() == 0 {
        c
    } else {
        merge_field(merge_fields(c, fields.drop_last()), fields.last().path@, fields.last().value@)
    }
}

/// Puts the workbook's unknown fields back into its stored sheets.
pub fn merge_preserved_json_fields(content: &mut JsonValue, workbook: &Workbook)
    ensures
        final(content)@ == merge_fields(old(content)@, workbook.preservation.json_fields()),
{
    let fields = workbook.preservation.raw_json_fields();
    let ghost start = content@;
    let mut i: usize = 0;
    while i < fields.len()
        invariant
            i <= fields@.len(),
            fields@ == workbook.preservation.json_fields(),
            content@ == merge_fields(start, fields@.take(i as int)),
        decreases fields@.len() - i,
    {
        merge_preserved_json_field(content, fields[i].path.as_str(), clone_json(&fields[i].value));
        proof {
            assert(fields@.take(i + 1).drop_last() =~= fields@.take(i as int));
        }
        i = i + 1;
    }
    proof {
        assert(fields@.take(i as int) =~= fields@);
    }
}

/// The stored `content.json` of a workbook: its sheets, with the unknown fields put back.
pub open spec fn workbook_content(w: Workbook) -> Json {
    merge_fields(Json::Array(sheets_json(w.sheets@)), w.preservation.json_fields())
}

/// The stored `content.json` of a workbook.
pub fn encode_workbook_content(workbook: &Workbook) -> (r: JsonValue)
    ensures
        r@ == workbook_content(*workbook),
{
    let mut sheets: Vec<JsonValue> = Vec::new();
    let mut i: usize = 0;
    while i < workbook.sheets.len()
        invariant
            i <= workbook.sheets@.len(),
            json_items_view(sheets@) =~= sheets_json(workbook.sheets@.take(i as int)),
        decreases workbook.sheets@.len() - i,
    {
        push_item(&mut sheets, storage_sheet_json(&workbook.sheets[i]));
        i = i + 1;
    }
    proof {
        assert(workbook.sheets@.take(i as int) =~= workbook.sheets@);
    }
    let mut content = JsonValue::Array(sheets);
    merge_preserved_json_fields(&mut content, workbook);
    content
}

/// Why a workbook could not be written.
#[derive(Debug, PartialEq, Eq)]
pub enum XMindWriteError {
    Io(String),
    Zip(String),
    MissingContent,
    Json(String),
    ParentNotFound(String),
    TopicNotFound(String),
    CandidateValidationFailed(String),
}

fn with_detail(prefix: &str, detail: &String) -> (r: String)
    ensures
        r@ == prefix@ + detail@,
{
    let mut cs = crate::text::chars_of(prefix);
    let tail = crate::text::chars_of(detail.as_str());
    crate::text::push_all(&mut cs, tail.as_slice());
    crate::text::string_from_chars(cs.as_slice())
}

impl XMindWriteError {
    /// The message that reports the error.
    pub fn message(&self) -> (r: String)
        ensures
            r@ == match self {
                XMindWriteError::Io(d) => "workbook package could not be read or written: "@ + d@,
                XMindWriteError::Zip(d) => "workbook package could not be decoded or written as zip: "@ + d@,
                XMindWriteError::MissingContent => "workbook package does not contain content.json"@,
                XMindWriteError::Json(d) => "content.json could not be decoded or encoded: "@ + d@,
                XMindWriteError::ParentNotFound(d) => "parent topic was not found in content.json: "@ + d@,
                XMindWriteError::TopicNotFound(d) => "topic was not found in content.json: "@ + d@,
                XMindWriteError::CandidateValidationFailed(d) => "candidate workbook failed validation: "@ + d@,
            },
    {
        match self {
            XMindWriteError::Io(d) => with_detail("workbook package could not be read or written: ", d),
            XMindWriteError::Zip(d) => with_detail("workbook package could not be decoded or written as zip: ", d),
            XMindWriteError::MissingContent => "workbook package does not contain content.json".to_string(),
            XMindWriteError::Json(d) => with_detail("content.json could not be decoded or encoded: ", d),
            XMindWriteError::ParentNotFound(d) => with_detail("parent topic was not found in content.json: ", d),
            XMindWriteError::TopicNotFound(d) => with_detail("topic was not found in content.json: ", d),
            XMindWriteError::CandidateValidationFailed(d) => with_detail("candidate workbook failed validation: ", d),
        }
    }
}

/// Whether `r` is the error that the topic `id` (the parent of a new topic, with
/// `parent`) was not found.
pub open spec fn not_found_error(r: Result<(), XMindWriteError>, id: Seq<char>, parent: bool) -> bool {
    match r {
        Err(XMindWriteError::ParentNotFound(p)) => parent && p@ == id,
        Err(XMindWriteError::TopicNotFound(p)) => !parent && p@ == id,
        _ => false,
    }
}

/// Whether an edit that fails with "topic not found" for `id` reports its outcome: done,
/// with the edited document, or that error with the document unchanged.
pub open spec fn edit_reported(r: Result<(), XMindWriteError>, after: Json, before: Json, o: Outcome<Json>, id: Seq<char>, parent: bool) -> bool {
    match o {
        Outcome::Done(x) => r is Ok && after == x,
        _ => after == before && not_found_error(r, id, parent),
    }
}

fn not_found(found: bool, id: &str, parent: bool) -> (r: Result<(), XMindWriteError>)
    ensures
        found ==> r is Ok,
        !found ==> not_found_error(r, id@, parent),
{
    if found {
        Ok(())
    } else if parent {
        Err(XMindWriteError::ParentNotFound(id.to_string()))
    } else {
        Err(XMindWriteError::TopicNotFound(id.to_string()))
    }
}

/// Adds a topic `new_topic_id` titled `title` after the children of the topic
/// `parent_topic_id` in `content.json`.
pub fn append_child_topic(content: &mut JsonValue, parent_topic_id: &str, title: &str, new_topic_id: &str) -> (r: Result<(), XMindWriteError>)
    ensures
        edit_reported(r, final(content)@, old(content)@, edit_content(old(content)@, parent_topic_id@, TopicEditSpec::AppendChild(new_topic_id@, title@)), parent_topic_id@, true),
{
    let found = append_topic_to_content(content, parent_topic_id, title, new_topic_id);
    not_found(found, parent_topic_id, true)
}

/// Sets the title of the topic `topic_id` in `content.json`.
pub fn rename_topic(content: &mut JsonValue, topic_id: &str, new_title: &str) -> (r: Result<(), XMindWriteError>)
    ensures
        edit_reported(r, final(content)@, old(content)@, edit_content(old(content)@, topic_id@, TopicEditSpec::Title(new_title@)), topic_id@, false),
{
    let found = rename_topic_in_content(content, topic_id, new_title);
    not_found(found, topic_id, false)
}

/// Sets the note of the topic `topic_id` in `content.json`.
pub fn set_topic_note(content: &mut JsonValue, topic_id: &str, note: &str) -> (r: Result<(), XMindWriteError>)
    ensures
        edit_reported(r, final(content)@, old(content)@, edit_content(old(content)@, topic_id@, TopicEditSpec::Note(note@)), topic_id@, false),
{
    let found = set_topic_note_in_content(content, topic_id, note);
    not_found(found, topic_id, false)
}

/// Sets the labels of the topic `topic_id` in `content.json`.
pub fn set_topic_labels(content: &mut JsonValue, topic_id: &str, labels: &Vec<String>) -> (r: Result<(), XMindWriteError>)
    ensures
        edit_reported(r, final(content)@, old(content)@, edit_content(old(content)@, topic_id@, TopicEditSpec::Labels(labels.deep_view())), topic_id@, false),
{
    let found = set_topic_labels_in_content(content, topic_id, labels);
    not_found(found, topic_id, false)
}

/// Sets the markers of the topic `topic_id` in `content.json`.
pub fn set_topic_markers(content: &mut JsonValue, topic_id: &str, markers: &Vec<String>) -> (r: Result<(), XMindWriteError>)
    ensures
        edit_reported(r, final(content)@, old(content)@, edit_content(old(content)@, topic_id@, TopicEditSpec::Markers(markers.deep_view())), topic_id@, false),
{
    let found = set_topic_markers_in_content(content, topic_id, markers);
    not_found(found, topic_id, false)
}

/// Sets the hyperlink of the topic `topic_id` in `content.json`.
pub fn set_topic_hyperlink(content: &mut JsonValue, topic_id: &str, hyperlink: &str) -> (r: Result<(), XMindWriteError>)
    ensures
        edit_reported(r, final(content)@, old(content)@, edit_content(old(content)@, topic_id@, TopicEditSpec::Hyperlink(hyperlink@)), topic_id@, false),
{
    let found = set_topic_hyperlink_in_content(content, topic_id, hyperlink);
    not_found(found, topic_id, false)
}

/// Sets the image of the topic `topic_id` in `content.json` to the asset `src`.
pub fn set_topic_image(content: &mut JsonValue, topic_id: &str, src: &str, alt: Option<&str>, title: Option<&str>) -> (r: Result<(), XMindWriteError>)
    ensures
        edit_reported(
            r,
            final(content)@,
            old(content)@,
            edit_content(old(content)@, topic_id@, TopicEditSpec::Image(src@, crate::app::patch::opt_str(alt), crate::app::patch::opt_str(title))),
            topic_id@,
            false,
        ),
{
    let found = set_topic_image_in_content(content, topic_id, src, alt, title);
    not_found(found, topic_id, false)
}

/// Removes the given fields of the topic `topic_id` in `content.json`.
pub fn clear_topic_fields(content: &mut JsonValue, topic_id: &str, fields: &Vec<TopicClearField>) -> (r: Result<(), XMindWriteError>)
    ensures
        edit_reported(r, final(content)@, old(content)@, edit_content(old(content)@, topic_id@, TopicEditSpec::Clear(fields@)), topic_id@, false),
{
    let found = clear_topic_fields_in_content(content, topic_id, fields);
    not_found(found, topic_id, false)
}

/// Empties the children of the topic `topic_id` in `content.json`.
pub fn delete_topic_children(content: &mut JsonValue, topic_id: &str) -> (r: Result<(), XMindWriteError>)
    ensures
        edit_reported(r, final(content)@, old(content)@, edit_content(old(content)@, topic_id@, TopicEditSpec::ClearChildren), topic_id@, false),
{
    let found = delete_topic_children_in_content(content, topic_id);
    not_found(found, topic_id, false)
}

/// Whether a removal that fails with "topic not found" reports its outcome.
pub open spec fn removal_reported(r: Result<(), XMindWriteError>, after: Json, before: Json, o: Option<(Json, Json)>, id: Seq<char>) -> bool {
    match o {
        Some((x, _)) => r is Ok && after == x,
        None => after == before && not_found_error(r, id, false),
    }
}

/// Deletes the topic `topic_id`, with its children, from `content.json`.
pub fn delete_topic(content: &mut JsonValue, topic_id: &str) -> (r: Result<(), XMindWriteError>)
    ensures
        removal_reported(r, final(content)@, old(content)@, remove_in_content(old(content)@, topic_id@, false), topic_id@),
{
    let found = delete_topic_in_content(content, topic_id);
    not_found(found, topic_id, false)
}

/// Deletes the topic `topic_id` from `content.json`, its children taking its place.
pub fn delete_topic_promote_children(content: &mut JsonValue, topic_id: &str) -> (r: Result<(), XMindWriteError>)
    ensures
        removal_reported(r, final(content)@, old(content)@, remove_in_content(old(content)@, topic_id@, true), topic_id@),
{
    let found = delete_topic_promote_children_in_content(content, topic_id);
    not_found(found, topic_id, false)
}

/// What moving a topic under another makes of `content.json`: the topic taken out, then
/// attached after the destination's children; otherwise the id that was not found.
pub open spec fn move_outcome(c: Json, id: Seq<char>, dest: Seq<char>) -> Result<Json, Seq<char>> {
    match remove_in_content(c, id, false) {
        None => Err(id),
        Some((c1, moved)) => match edit_content(c1, dest, TopicEditSpec::Attach(moved)) {
            Outcome::Done(c2) => Ok(c2),
            _ => Err(dest),
        },
    }
}

/// Moves the topic `topic_id`, with its children, after the children of the topic
/// `destination_topic_id`.
pub fn move_topic(content: &mut JsonValue, topic_id: &str, destination_topic_id: &str) -> (r: Result<(), XMindWriteError>)
    ensures
        match move_outcome(old(content)@, topic_id@, destination_topic_id@) {
            Ok(c2) => r is Ok && final(content)@ == c2,
            Err(missing) => not_found_error(r, missing, false),
        },
{
    let topic = match remove_topic_from_content(content, topic_id) {
        Some(t) => t,
        None => {
            return Err(XMindWriteError::TopicNotFound(topic_id.to_string()));
        },
    };
    let attached = append_existing_topic_to_content(content, destination_topic_id, topic);
    not_found(attached, destination_topic_id, false)
}

/// What copying a topic under another makes of `content.json`: a copy of the topic with
/// fresh ids, attached after the destination's children; otherwise the id that was not
/// found.
pub open spec fn copy_outcome(c: Json, source: Seq<char>, dest: Seq<char>, new_id: Seq<char>, new_title: Seq<char>) -> Result<Json, Seq<char>> {
    match find_in_content(c, source) {
        None => Err(source),
        Some(t) => match edit_content(c, dest, TopicEditSpec::Attach(rewrite_ids(t, new_id, Some(new_title)))) {
            Outcome::Done(c2) => Ok(c2),
            _ => Err(dest),
        },
    }
}

/// Copies the topic `source_topic_id`, with its children, after the children of the
/// topic `destination_topic_id`: the copy's root gets `new_root_topic_id` and
/// `new_root_title`, each copied child its own id with `-copy` after it.
pub fn copy_topic(
    content: &mut JsonValue,
    source_topic_id: &str,
    destination_topic_id: &str,
    new_root_topic_id: &str,
    new_root_title: &str,
) -> (r: Result<(), XMindWriteError>)
    ensures
        match copy_outcome(old(content)@, source_topic_id@, destination_topic_id@, new_root_topic_id@, new_root_title@) {
            Ok(c2) => r is Ok && final(content)@ == c2,
            Err(missing) => not_found_error(r, missing, false),
        },
{
    let mut copied = match find_topic_in_content(content, source_topic_id) {
        Some(source) => clone_json(source),
        None => {
            return Err(XMindWriteError::TopicNotFound(source_topic_id.to_string()));
        },
    };
    rewrite_copied_topic_ids(&mut copied, new_root_topic_id, Some(new_root_title));
    let attached = append_existing_topic_to_content(content, destination_topic_id, copied);
    not_found(attached, destination_topic_id, false)
}

/// The name of the file a write goes to before it replaces the workbook: the
/// workbook's file name (or `workbook.xmind`) with `.tmp` after it, beside it.
pub open spec fn temp_path_spec(p: Seq<char>) -> Seq<char> {
    let name = match path_file_name(p) {
        Some(n) => n,
        None => "workbook.xmind"@,
    };
    path_with_file_name(p, name + ".tmp"@)
}

/// The path a write goes to before it replaces the workbook.
pub fn temp_workbook_path(workbook_path: &str) -> (r: String)
    ensures
        r@ == temp_path_spec(workbook_path@),
{
    let name = match file_name_of(workbook_path) {
        Some(n) => n,
        None => "workbook.xmind".to_string(),
    };
    let tmp = with_detail(name.as_str(), &".tmp".to_string());
    with_file_name_of(workbook_path, tmp.as_str())
}

} // verus!

//! JSON documents as plain values: the shape of `content.json` that the workbook logic
//! reads and edits, and of the structured output.
use vstd::prelude::*;

verus! {

/// A JSON value. Numbers keep their textual form.
#[derive(Debug, PartialEq, Eq)]
pub enum JsonValue {
    Null,
    Bool(bool),
    Number(String),
    String(String),
    Array(Vec<JsonValue>),
    Object(Vec<JsonMember>),
}

/// One member of a JSON object.
#[derive(Debug, PartialEq, Eq)]
pub struct JsonMember {
    pub key: String,
    pub value: JsonValue,
}

/// A JSON value as mathematics sees it: text as character sequences, arrays and
/// objects as sequences.
pub enum Json {
    Null,
    Bool(bool),
    Number(Seq<char>),
    String(Seq<char>),
    Array(Seq<Json>),
    Object(Seq<(Seq<char>, Json)>),
}

/// The mathematical value of a JSON value.
pub open spec fn json_view(j: JsonValue) -> Json
    decreases j, 1nat,
{
    match j {
        JsonValue::Null => Json::Null,
        JsonValue::Bool(b) => Json::Bool(b),
        JsonValue::Number(n) => Json::Number(n@),
        JsonValue::String(s) => Json::String(s@),
        JsonValue::Array(items) => Json::Array(json_items_view(items@)),
        JsonValue::Object(members) => Json::Object(json_members_view(members@)),
    }
}

/// The mathematical values of a sequence of JSON values.
pub open spec fn json_items_view(items: Seq<JsonValue>) -> Seq<Json>
    decreases items, 0nat,
{
    if items.len() == 0 {
        Seq::empty()
    } else {
        json_items_view(items.drop_last()).push(json_view(items.last()))
    }
}

/// The mathematical values of the members of a JSON object.
pub open spec fn json_members_view(members: Seq<JsonMember>) -> Seq<(Seq<char>, Json)>
    decreases members, 0nat,
{
    if members.len() == 0 {
        Seq::empty()
    } else {
        json_members_view(members.drop_last()).push(
            (members.last().key@, json_view(members.last().value)),
        )
    }
}

impl View for JsonValue {
    type V = Json;

    open spec fn view(&self) -> Json {
        json_view(*self)
    }
}

/// A JSON string of the given text.
pub fn json_string(s: String) -> (r: JsonValue)
    ensures
        r@ == Json::String(s@),
{
    JsonValue::String(s)
}

/// A JSON number of a non-negative integer.
pub fn json_count(n: usize) -> (r: JsonValue)
    ensures
        r@ == Json::Number(crate::text::decimal_spec(n as nat)),
{
    let digits = crate::text::decimal(n);
    JsonValue::Number(crate::text::string_from_chars(digits.as_slice()))
}

/// A member of a JSON object.
pub fn member(key: &str, value: JsonValue) -> (r: JsonMember)
    ensures
        r.key@ == key@,
        r.value == value,
{
    JsonMember { key: key.to_string(), value }
}

/// Appends a value to a JSON array under construction.
pub fn push_item(items: &mut Vec<JsonValue>, value: JsonValue)
    ensures
        json_items_view(final(items)@) == json_items_view(old(items)@).push(value@),
{
    items.push(value);
    proof {
        assert(final(items)@.drop_last() == old(items)@);
    }
}

/// Appends a member to a JSON object under construction.
pub fn push_member(members: &mut Vec<JsonMember>, key: &str, value: JsonValue)
    ensures
        json_members_view(final(members)@) == json_members_view(old(members)@).push(
            (key@, value@),
        ),
{
    members.push(member(key, value));
    proof {
        assert(final(members)@.drop_last() == old(members)@);
    }
}

/// The view of a sequence of JSON values is taken item by item.
pub proof fn lemma_items_view(items: Seq<JsonValue>)
    ensures
        json_items_view(items).len() == items.len(),
        forall|i: int| 0 <= i < items.len() ==> #[trigger] json_items_view(items)[i] == json_view(items[i]),
    decreases items.len(),
{
    if items.len() > 0 {
        lemma_items_view(items.drop_last());
    }
}

/// The view of the members of an object is taken member by member.
pub proof fn lemma_members_view(members: Seq<JsonMember>)
    ensures
        json_members_view(members).len() == members.len(),
        forall|i: int|
            0 <= i < members.len() ==> #[trigger] json_members_view(members)[i] == (
                members[i].key@,
                json_view(members[i].value),
            ),
    decreases members.len(),
{
    if members.len() > 0 {
        lemma_members_view(members.drop_last());
    }
}

/// Changing one member changes one member of the view.
pub proof fn lemma_members_update(s: Seq<JsonMember>, i: int, m: JsonMember)
    requires
        0 <= i < s.len(),
    ensures
        json_members_view(s.update(i, m)) == json_members_view(s).update(i, (m.key@, json_view(m.value))),
{
    lemma_members_view(s);
    lemma_members_view(s.update(i, m));
    assert(json_members_view(s.update(i, m)) =~= json_members_view(s).update(
        i,
        (m.key@, json_view(m.value)),
    ));
}

/// Removing one member removes one member of the view.
pub proof fn lemma_members_remove(s: Seq<JsonMember>, i: int)
    requires
        0 <= i < s.len(),
    ensures
        json_members_view(s.remove(i)) == json_members_view(s).remove(i),
{
    lemma_members_view(s);
    lemma_members_view(s.remove(i));
    assert(json_members_view(s.remove(i)) =~= json_members_view(s).remove(i));
}

/// Changing one item changes one item of the view.
pub proof fn lemma_items_update(s: Seq<JsonValue>, i: int, v: JsonValue)
    requires
        0 <= i < s.len(),
    ensures
        json_items_view(s.update(i, v)) == json_items_view(s).update(i, json_view(v)),
{
    lemma_items_view(s);
    lemma_items_view(s.update(i, v));
    assert(json_items_view(s.update(i, v)) =~= json_items_view(s).update(i, json_view(v)));
}

/// Removing one item removes one item of the view.
pub proof fn lemma_items_remove(s: Seq<JsonValue>, i: int)
    requires
        0 <= i < s.len(),
    ensures
        json_items_view(s.remove(i)) == json_items_view(s).remove(i),
{
    lemma_items_view(s);
    lemma_items_view(s.remove(i));
    assert(json_items_view(s.remove(i)) =~= json_items_view(s).remove(i));
}

/// Inserting one item inserts one item into the view.
pub proof fn lemma_items_insert(s: Seq<JsonValue>, i: int, v: JsonValue)
    requires
        0 <= i <= s.len(),
    ensures
        json_items_view(s.insert(i, v)) == json_items_view(s).insert(i, json_view(v)),
{
    lemma_items_view(s);
    lemma_items_view(s.insert(i, v));
    assert(json_items_view(s.insert(i, v)) =~= json_items_view(s).insert(i, json_view(v)));
}

/// A copy of a JSON value.
pub fn clone_json(j: &JsonValue) -> (r: JsonValue)
    ensures
        r@ == j@,
    decreases j,
{
    match j {
        JsonValue::Null => JsonValue::Null,
        JsonValue::Bool(b) => JsonValue::Bool(*b),
        JsonValue::Number(n) => JsonValue::Number(n.clone()),
        JsonValue::String(s) => JsonValue::String(s.clone()),
        JsonValue::Array(items) => {
            let mut out: Vec<JsonValue> = Vec::new();
            let mut i: usize = 0;
            while i < items.len()
                invariant
                    i <= items@.len(),
                    *j == JsonValue::Array(*items),
                    json_items_view(out@) == json_items_view(items@.take(i as int)),
                decreases items@.len() - i,
            {
                proof {
                    assert(decreases_to!(*j => (*j)->Array_0));
                    assert(decreases_to!(*items => items@));
                    assert(decreases_to!(items@ => items@[i as int]));
                }
                let c = clone_json(&items[i]);
                push_item(&mut out, c);
                proof {
                    assert(items@.take(i + 1).drop_last() =~= items@.take(i as int));
                }
                i = i + 1;
            }
            proof {
                assert(items@.take(i as int) =~= items@);
            }
            JsonValue::Array(out)
        },
        JsonValue::Object(members) => {
            let mut out: Vec<JsonMember> = Vec::new();
            let mut i: usize = 0;
            while i < members.len()
                invariant
                    i <= members@.len(),
                    *j == JsonValue::Object(*members),
                    json_members_view(out@) == json_members_view(members@.take(i as int)),
                decreases members@.len() - i,
            {
                proof {
                    assert(decreases_to!(*j => (*j)->Object_0));
                    assert(decreases_to!(*members => members@));
                    assert(decreases_to!(members@ => members@[i as int]));
                    assert(decreases_to!(members@[i as int] => members@[i as int].value));
                }
                let c = clone_json(&members[i].value);
                push_member(&mut out, members[i].key.as_str(), c);
                proof {
                    assert(members@.take(i + 1).drop_last() =~= members@.take(i as int));
                }
                i = i + 1;
            }
            proof {
                assert(members@.take(i as int) =~= members@);
            }
            JsonValue::Object(out)
        },
    }
}

} // verus!

//! Topics: the nodes of a sheet's tree.
use vstd::prelude::*;

verus! {

/// A topic of a mind map, with its children in display order.
#[derive(Debug, PartialEq, Eq)]
pub struct Topic {
    pub id: TopicId,
    pub title: String,
    pub note: Option<String>,
    pub labels: Vec<String>,
    pub markers: Vec<String>,
    pub hyperlink: Option<String>,
    pub image: Option<TopicImageRef>,
    pub children: Vec<Topic>,
}

/// The stable identifier of a topic.
#[derive(Clone, Debug, PartialEq, Eq)]
pub struct TopicId(pub String);

/// The identifier of a package asset, such as `xap:resources/a.png`.
#[derive(Clone, Debug, PartialEq, Eq)]
pub struct AssetId(pub String);

/// An image attached to a topic.
#[derive(Clone, Debug, PartialEq, Eq)]
pub struct TopicImageRef {
    pub asset_id: AssetId,
    pub alt: Option<String>,
    pub title: Option<String>,
}

impl AssetId {
    /// The asset id with the given text.
    pub fn new(id: String) -> (r: Self)
        ensures
            r.0@ == id@,
    {
        AssetId(id)
    }

    /// The text of this asset id.
    pub fn as_str(&self) -> (r: &str)
        ensures
            r@ == self.0@,
    {
        self.0.as_str()
    }
}

impl TopicImageRef {
    /// An image reference to `asset_id` with optional alternative text and title.
    pub fn new(asset_id: AssetId, alt: Option<String>, title: Option<String>) -> (r: Self)
        ensures
            r.asset_id == asset_id,
            r.alt == alt,
            r.title == title,
    {
        TopicImageRef { asset_id, alt, title }
    }
}

/// The number of topics in the tree under `t`, `t` included.
pub open spec fn topic_count(t: Topic) -> nat
    decreases t, 1nat,
{
    1 + forest_count(t.children@)
}

/// The number of topics in the trees under each of `ts`.
pub open spec fn forest_count(ts: Seq<Topic>) -> nat
    decreases ts, 0nat,
{
    if ts.len() == 0 {
        0
    } else {
        forest_count(ts.drop_last()) + topic_count(ts.last())
    }
}

/// Counts the topics of the tree under `topic`, `topic` included; the count stops at
/// `usize::MAX`.
pub fn count_topics(topic: &Topic) -> (r: usize)
    ensures
        topic_count(*topic) <= usize::MAX ==> r == topic_count(*topic),
        topic_count(*topic) > usize::MAX ==> r == usize::MAX,
    decreases topic,
{
    let mut total: usize = 1;
    let mut i: usize = 0;
    while i < topic.children.len()
        invariant
            i <= topic.children@.len(),
            1 + forest_count(topic.children@.take(i as int)) <= usize::MAX ==> total == 1
                + forest_count(topic.children@.take(i as int)),
            1 + forest_count(topic.children@.take(i as int)) > usize::MAX ==> total == usize::MAX,
        decreases topic.children@.len() - i,
    {
        let c = count_topics(&topic.children[i]);
        proof {
            assert(topic.children@.take(i + 1).drop_last() == topic.children@.take(i as int));
        }
        if total == usize::MAX || c == usize::MAX || c > usize::MAX - total {
            total = usize::MAX;
        } else {
            total = total + c;
        }
        i = i + 1;
    }
    proof {
        assert(topic.children@.take(i as int) == topic.children@);
    }
    total
}

} // verus!

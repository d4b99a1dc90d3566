//! The topic tree as `tree` and `get` report it: limited in depth, as a structure, as
//! indented text.
use vstd::prelude::*;
use crate::app::listing::string_views;
use crate::domain::path::{render_path_spec, TopicPath};
use crate::domain::sheet::Sheet;
use crate::domain::topic::{Topic, TopicImageRef};
use crate::text::{chars_of, clone_strings, push_all};

verus! {

/// An attached image as reported.
#[derive(Debug, PartialEq, Eq)]
pub struct TopicImageRefDto {
    pub asset_id: String,
    pub alt: Option<String>,
    pub title: Option<String>,
}

/// A topic as reported, with its children down to the depth asked for; below that
/// depth only how many children it has.
#[derive(Debug, PartialEq, Eq)]
pub struct TreeTopicDto {
    pub id: String,
    pub path: String,
    pub title: String,
    pub note: Option<String>,
    pub labels: Vec<String>,
    pub markers: Vec<String>,
    pub hyperlink: Option<String>,
    pub image: Option<TopicImageRefDto>,
    pub children: Option<Vec<TreeTopicDto>>,
    pub children_count: Option<usize>,
}

/// A sheet's tree as reported.
#[derive(Debug, PartialEq, Eq)]
pub struct TreeResultDto {
    pub sheet: String,
    pub root: TreeTopicDto,
}

/// Two optional texts hold the same text.
pub open spec fn same_opt(a: Option<String>, b: Option<String>) -> bool {
    match (a, b) {
        (Some(x), Some(y)) => x@ == y@,
        (None, None) => true,
        _ => false,
    }
}

/// Whether the reported image is the topic's image.
pub open spec fn image_reported(d: Option<TopicImageRefDto>, i: Option<TopicImageRef>) -> bool {
    match (d, i) {
        (Some(d), Some(i)) => d.asset_id@ == i.asset_id.0@ && same_opt(d.alt, i.alt) && same_opt(
            d.title,
            i.title,
        ),
        (None, None) => true,
        _ => false,
    }
}

/// Whether `d` reports the topic `t` at `path` with `depth` levels of descendants
/// (all of them when `depth` is `None`): every field of the topic; children while depth
/// remains, each one level less deep; otherwise, for a topic with children, their count.
pub open spec fn reports(d: TreeTopicDto, t: Topic, path: Seq<Seq<char>>, depth: Option<usize>) -> bool
    decreases t,
{
    let expand = match depth {
        Some(k) => k > 0,
        None => true,
    };
    let next: Option<usize> = match depth {
        Some(k) => Some(if k > 0 { (k - 1) as usize } else { 0usize }),
        None => None,
    };
    &&& d.id@ == t.id.0@
    &&& d.path@ == render_path_spec(path)
    &&& d.title@ == t.title@
    &&& same_opt(d.note, t.note)
    &&& string_views(d.labels@) == string_views(t.labels@)
    &&& string_views(d.markers@) == string_views(t.markers@)
    &&& same_opt(d.hyperlink, t.hyperlink)
    &&& image_reported(d.image, t.image)
    &&& if expand {
        &&& d.children is Some
        &&& d.children->0@.len() == t.children@.len()
        &&& forall|i: int|
            0 <= i < t.children@.len() ==> reports(
                #[trigger] d.children->0@[i],
                t.children@[i],
                path.push(t.children@[i].title@),
                next,
            )
    } else {
        d.children is None
    }
    &&& d.children_count == if !expand && t.children@.len() > 0 {
        Some(t.children@.len() as usize)
    } else {
        None
    }
}

/// Whether the report shows topics at most `k` levels below its top: a report `k`
/// levels deep shows no children when `k` is 0, and otherwise each child at most
/// `k - 1` levels deep.
pub open spec fn shown_within(d: TreeTopicDto, k: nat) -> bool
    decreases d,
{
    match d.children {
        None => true,
        Some(cs) => k > 0 && forall|i: int|
            0 <= i < cs@.len() ==> {
                proof {
                    assert(decreases_to!(d => d.children->0@[i]));
                }
                shown_within(#[trigger] cs@[i], (k - 1) as nat)
            },
    }
}

/// Whether the report shows every topic of `t` that lies at most `k` levels below it:
/// the children of a topic with `k` > 0 are all shown, in order.
pub open spec fn shows_down_to(d: TreeTopicDto, t: Topic, k: nat) -> bool
    decreases t,
{
    k > 0 ==> {
        &&& d.children is Some
        &&& d.children->0@.len() == t.children@.len()
        &&& forall|i: int|
            0 <= i < t.children@.len() ==> shows_down_to(
                #[trigger] d.children->0@[i],
                t.children@[i],
                (k - 1) as nat,
            )
    }
}

/// A report limited to `k` levels shows exactly the topics at most `k` levels below the
/// reported topic: none deeper (the depth shrinks by one per level, so a report one
/// level deep shows no grandchildren), and all of those, each child in order; where no
/// level is left, a topic with children reports how many it has.
pub proof fn law_depth_limits_report(d: TreeTopicDto, t: Topic, path: Seq<Seq<char>>, k: usize)
    requires
        reports(d, t, path, Some(k)),
    ensures
        shown_within(d, k as nat),
        shows_down_to(d, t, k as nat),
        k == 0 ==> d.children is None && d.children_count == if t.children@.len() > 0 {
            Some(t.children@.len() as usize)
        } else {
            None
        },
    decreases t,
{
    if k > 0 {
        let next: usize = (k - 1) as usize;
        assert forall|i: int| 0 <= i < t.children@.len() implies shown_within(
            #[trigger] d.children->0@[i],
            (k - 1) as nat,
        ) && shows_down_to(d.children->0@[i], t.children@[i], (k - 1) as nat) by {
            law_depth_limits_report(
                d.children->0@[i],
                t.children@[i],
                path.push(t.children@[i].title@),
                next,
            );
        }
    }
}

/// Whether the report shows every topic below `t`, each child in order.
pub open spec fn shows_all(d: TreeTopicDto, t: Topic) -> bool
    decreases t,
{
    &&& d.children is Some
    &&& d.children->0@.len() == t.children@.len()
    &&& d.children_count is None
    &&& forall|i: int|
        0 <= i < t.children@.len() ==> shows_all(#[trigger] d.children->0@[i], t.children@[i])
}

/// A report without a depth limit shows the whole tree.
pub proof fn law_unlimited_report_shows_all(d: TreeTopicDto, t: Topic, path: Seq<Seq<char>>)
    requires
        reports(d, t, path, None),
    ensures
        shows_all(d, t),
    decreases t,
{
    assert forall|i: int| 0 <= i < t.children@.len() implies shows_all(
        #[trigger] d.children->0@[i],
        t.children@[i],
    ) by {
        law_unlimited_report_shows_all(d.children->0@[i], t.children@[i], path.push(t.children@[i].title@));
    }
}

fn clone_opt(o: &Option<String>) -> (r: Option<String>)
    ensures
        same_opt(r, *o),
{
    match o {
        Some(s) => Some(s.clone()),
        None => None,
    }
}

impl TopicImageRefDto {
    /// The report of an attached image.
    pub fn from_topic_image(image: &TopicImageRef) -> (r: Self)
        ensures
            image_reported(Some(r), Some(*image)),
    {
        TopicImageRefDto {
            asset_id: image.asset_id.as_str().to_owned(),
            alt: clone_opt(&image.alt),
            title: clone_opt(&image.title),
        }
    }
}

impl TreeTopicDto {
    /// The report of the topic at `path` with `remaining_depth` levels of descendants.
    pub fn from_topic(topic: &Topic, path: &TopicPath, remaining_depth: Option<usize>) -> (r: Self)
        ensures
            reports(r, *topic, path@, remaining_depth),
        decreases topic,
    {
        let expand = match remaining_depth {
            Some(k) => k > 0,
            None => true,
        };
        let next: Option<usize> = match remaining_depth {
            Some(k) => Some(if k > 0 { k - 1 } else { 0 }),
            None => None,
        };
        let children = if expand {
            let mut out: Vec<TreeTopicDto> = Vec::new();
            let mut i: usize = 0;
            while i < topic.children.len()
                invariant
                    i <= topic.children@.len(),
                    out@.len() == i,
                    forall|k: int|
                        0 <= k < i ==> reports(
                            #[trigger] out@[k],
                            topic.children@[k],
                            path@.push(topic.children@[k].title@),
                            next,
                        ),
                decreases topic.children@.len() - i,
            {
                let child = &topic.children[i];
                let child_path = path.join(child.title.clone());
                out.push(Self::from_topic(child, &child_path, next));
                i = i + 1;
            }
            Some(out)
        } else {
            None
        };
        let labels = clone_strings(&topic.labels);
        let markers = clone_strings(&topic.markers);
        proof {
            assert(string_views(labels@) =~= string_views(topic.labels@));
            assert(string_views(markers@) =~= string_views(topic.markers@));
        }
        let image = match &topic.image {
            Some(i) => Some(TopicImageRefDto::from_topic_image(i)),
            None => None,
        };
        let children_count = if !expand && topic.children.len() > 0 {
            Some(topic.children.len())
        } else {
            None
        };
        TreeTopicDto {
            id: topic.id.0.clone(),
            path: path.to_selector_value(),
            title: topic.title.clone(),
            note: clone_opt(&topic.note),
            labels,
            markers,
            hyperlink: clone_opt(&topic.hyperlink),
            image,
            children,
            children_count,
        }
    }
}

impl TreeResultDto {
    /// The report of a sheet's tree with `depth` levels below the root.
    pub fn from_sheet(sheet: &Sheet, depth: Option<usize>) -> (r: Self)
        ensures
            r.sheet@ == sheet.title@,
            reports(r.root, sheet.root, seq![], depth),
    {
        let root = TopicPath::root();
        proof {
            assert(root@ =~= seq![]);
        }
        TreeResultDto { sheet: sheet.title.clone(), root: TreeTopicDto::from_topic(&sheet.root, &root, depth) }
    }
}

/// The text outline of a reported tree: one line per topic, its title indented by two
/// spaces per level, children after their parent.
pub open spec fn tree_text_lines(d: TreeTopicDto, indent: nat) -> Seq<Seq<char>>
    decreases d, 1nat,
{
    seq![Seq::new(2 * indent, |i: int| ' ') + d.title@] + match d.children {
        Some(cs) => children_text_lines(cs@, indent + 1, cs@.len() as int),
        None => seq![],
    }
}

/// The outlines of the first `n` children, one after the other.
pub open spec fn children_text_lines(cs: Seq<TreeTopicDto>, indent: nat, n: int) -> Seq<Seq<char>>
    decreases cs, 0nat, n,
{
    if n <= 0 || n > cs.len() {
        seq![]
    } else {
        children_text_lines(cs, indent, n - 1) + tree_text_lines(cs[n - 1], indent)
    }
}

fn push_tree_text(out: &mut Vec<String>, d: &TreeTopicDto, prefix: &Vec<char>, Ghost(indent): Ghost<nat>)
    requires
        prefix@ == Seq::new(2 * indent, |i: int| ' '),
    ensures
        string_views(final(out)@) == string_views(old(out)@) + tree_text_lines(*d, indent),
    decreases d,
{
    let ghost start = string_views(out@);
    let mut line: Vec<char> = prefix.clone();
    let t = chars_of(d.title.as_str());
    push_all(&mut line, t.as_slice());
    let text = crate::text::string_from_chars(line.as_slice());
    out.push(text);
    proof {
        assert(string_views(out@) =~= start + seq![Seq::new(2 * indent, |i: int| ' ') + d.title@]);
    }
    let ghost after_self = string_views(out@);
    match &d.children {
        Some(cs) => {
            let mut deeper: Vec<char> = prefix.clone();
            deeper.push(' ');
            deeper.push(' ');
            proof {
                assert(deeper@ =~= Seq::new(2 * (indent + 1), |i: int| ' '));
                assert(after_self =~= after_self + children_text_lines(cs@, indent + 1, 0));
            }
            let mut i: usize = 0;
            while i < cs.len()
                invariant
                    i <= cs@.len(),
                    d.children == Some(*cs),
                    deeper@ == Seq::new(2 * (indent + 1), |i: int| ' '),
                    string_views(out@) == after_self + children_text_lines(cs@, indent + 1, i as int),
                decreases cs@.len() - i,
            {
                proof {
                    assert(decreases_to!(*d => d.children->0@[i as int]));
                }
                push_tree_text(out, &cs[i], &deeper, Ghost(indent + 1));
                proof {
                    assert(string_views(out@) =~= after_self + children_text_lines(cs@, indent + 1, i + 1));
                }
                i = i + 1;
            }
            proof {
                assert(string_views(out@) =~= start + tree_text_lines(*d, indent));
            }
        },
        None => {
            proof {
                assert(string_views(out@) =~= start + tree_text_lines(*d, indent));
            }
        },
    }
}

/// The text outline of a reported tree, line by line.
pub fn render_tree_text(d: &TreeTopicDto) -> (r: Vec<String>)
    ensures
        string_views(r@) == tree_text_lines(*d, 0),
{
    let mut out: Vec<String> = Vec::new();
    proof {
        assert(string_views(out@) =~= Seq::<Seq<char>>::empty());
    }
    let prefix: Vec<char> = Vec::new();
    proof {
        assert(prefix@ =~= Seq::new(2 * 0nat, |i: int| ' '));
    }
    push_tree_text(&mut out, d, &prefix, Ghost(0));
    proof {
        assert(string_views(out@) =~= tree_text_lines(*d, 0));
    }
    out
}

} // verus!

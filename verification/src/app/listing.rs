//! Paths that an edit touches, generated ids, and renamed paths.
use vstd::prelude::*;
use crate::app::resolve::{forest_preorder, lemma_forest_step, preorder, Located};
use crate::app::tree_input::TopicTreeInputDto;
use crate::domain::path::{render_path_spec, TopicPath};
use crate::domain::topic::Topic;
use crate::text::{chars_of, is_ascii_alphanumeric, is_ascii_alphanumeric_spec, push_all, string_from_chars};

verus! {

/// The rendered paths of located topics, in order.
pub open spec fn rendered_paths(ls: Seq<Located>) -> Seq<Seq<char>> {
    ls.map_values(|l: Located| render_path_spec(l.1))
}

/// The rendered paths of a list of strings.
pub open spec fn string_views(v: Seq<String>) -> Seq<Seq<char>> {
    v.map_values(|s: String| s@)
}

/// The paths, in pre-order, of the topics that adding `tree` under the topic at `parent`
/// creates.
pub open spec fn tree_paths(tree: TopicTreeInputDto, parent: Seq<Seq<char>>) -> Seq<Seq<char>>
    decreases tree, 1nat,
{
    let here = parent.push(tree.title@);
    seq![render_path_spec(here)] + trees_paths(tree.children@, here, tree.children@.len() as int)
}

/// The created paths of the first `n` child trees, under the topic at `parent`.
pub open spec fn trees_paths(ts: Seq<TopicTreeInputDto>, parent: Seq<Seq<char>>, n: int) -> Seq<
    Seq<char>,
>
    decreases ts, 0nat, n,
{
    if n <= 0 || n > ts.len() {
        seq![]
    } else {
        trees_paths(ts, parent, n - 1) + tree_paths(ts[n - 1], parent)
    }
}

fn push_rendered(out: &mut Vec<String>, path: &TopicPath)
    ensures
        string_views(final(out)@) == string_views(old(out)@).push(render_path_spec(path@)),
{
    let ghost before = string_views(out@);
    out.push(path.to_selector_value());
    proof {
        assert(string_views(out@) =~= before.push(render_path_spec(path@)));
    }
}

fn push_all_strings(out: &mut Vec<String>, more: Vec<String>)
    ensures
        string_views(final(out)@) == string_views(old(out)@) + string_views(more@),
{
    let ghost before = string_views(out@);
    let mut i: usize = 0;
    let n = more.len();
    proof {
        assert(string_views(more@.take(0)) =~= Seq::<Seq<char>>::empty());
    }
    while i < n
        invariant
            n == more@.len(),
            i <= n,
            string_views(out@) == before + string_views(more@.take(i as int)),
        decreases n - i,
    {
        let s = more[i].clone();
        let ghost prev = out@;
        out.push(s);
        proof {
            assert(out@ == prev.push(more@[i as int]));
            assert(string_views(out@) =~= string_views(prev).push(more@[i as int]@));
            assert(more@.take(i + 1) =~= more@.take(i as int).push(more@[i as int]));
            assert(string_views(out@) =~= before + string_views(more@.take(i + 1)));
        }
        i = i + 1;
    }
    proof {
        assert(more@.take(n as int) =~= more@);
    }
}

/// The paths, in pre-order, of the topics that adding `tree` under the topic at
/// `parent_path` creates.
pub fn collect_added_paths(parent_path: &TopicPath, tree: &TopicTreeInputDto) -> (r: Vec<String>)
    ensures
        string_views(r@) == tree_paths(*tree, parent_path@),
    decreases tree,
{
    let root_path = parent_path.join(tree.title.clone());
    let mut paths: Vec<String> = Vec::new();
    push_rendered(&mut paths, &root_path);
    proof {
        assert(string_views(paths@) =~= seq![render_path_spec(root_path@)]);
        assert(seq![render_path_spec(root_path@)] =~= seq![render_path_spec(root_path@)] + trees_paths(
            tree.children@,
            root_path@,
            0,
        ));
    }
    let mut i: usize = 0;
    while i < tree.children.len()
        invariant
            i <= tree.children@.len(),
            root_path@ == parent_path@.push(tree.title@),
            string_views(paths@) == seq![render_path_spec(root_path@)] + trees_paths(
                tree.children@,
                root_path@,
                i as int,
            ),
        decreases tree.children@.len() - i,
    {
        let more = collect_added_paths(&root_path, &tree.children[i]);
        push_all_strings(&mut paths, more);
        proof {
            assert(string_views(paths@) =~= seq![render_path_spec(root_path@)] + trees_paths(
                tree.children@,
                root_path@,
                i + 1,
            ));
        }
        i = i + 1;
    }
    paths
}

/// Appends the rendered paths of the pre-order listing of the tree under `topic`.
fn push_tree_paths(out: &mut Vec<String>, topic: &Topic, path: &TopicPath)
    ensures
        string_views(final(out)@) == string_views(old(out)@) + rendered_paths(
            preorder(*topic, path@),
        ),
    decreases topic,
{
    let ghost start = string_views(out@);
    push_rendered(out, path);
    proof {
        assert(topic.children@.take(0) =~= Seq::<Topic>::empty());
        assert(rendered_paths(seq![(*topic, path@)]) =~= seq![render_path_spec(path@)]);
        assert(rendered_paths(forest_preorder(Seq::<Topic>::empty(), path@)) =~= Seq::<
            Seq<char>,
        >::empty());
    }
    push_forest_paths(out, topic, path);
    proof {
        assert(rendered_paths(preorder(*topic, path@)) =~= rendered_paths(seq![(*topic, path@)])
            + rendered_paths(forest_preorder(topic.children@, path@)));
    }
}

/// Appends the rendered paths of the pre-order listings of `topic`'s children.
fn push_forest_paths(out: &mut Vec<String>, topic: &Topic, path: &TopicPath)
    ensures
        string_views(final(out)@) == string_views(old(out)@) + rendered_paths(
            forest_preorder(topic.children@, path@),
        ),
    decreases topic, 0nat,
{
    let ghost start = string_views(out@);
    let mut k: usize = 0;
    proof {
        assert(topic.children@.take(0) =~= Seq::<Topic>::empty());
        assert(start =~= start + rendered_paths(forest_preorder(Seq::<Topic>::empty(), path@)));
    }
    while k < topic.children.len()
        invariant
            k <= topic.children@.len(),
            string_views(out@) == start + rendered_paths(
                forest_preorder(topic.children@.take(k as int), path@),
            ),
        decreases topic.children@.len() - k,
    {
        let child = &topic.children[k];
        let child_path = path.join(child.title.clone());
        push_tree_paths(out, child, &child_path);
        proof {
            lemma_forest_step(topic.children@, path@, k as int);
            assert(rendered_paths(forest_preorder(topic.children@.take(k + 1), path@))
                =~= rendered_paths(forest_preorder(topic.children@.take(k as int), path@))
                + rendered_paths(preorder(*child, path@.push(child.title@))));
        }
        k = k + 1;
    }
    proof {
        assert(topic.children@.take(k as int) =~= topic.children@);
    }
}

/// The paths, in pre-order, of the topic at `path` and all its descendants: what
/// deleting it removes.
pub fn collect_deleted_paths(topic: &Topic, path: &TopicPath) -> (r: Vec<String>)
    ensures
        string_views(r@) == rendered_paths(preorder(*topic, path@)),
{
    let mut out: Vec<String> = Vec::new();
    push_tree_paths(&mut out, topic, path);
    proof {
        assert(string_views(Seq::<String>::empty()) =~= Seq::<Seq<char>>::empty());
        assert(string_views(out@) =~= rendered_paths(preorder(*topic, path@)));
    }
    out
}

/// The paths, in pre-order, of the descendants of the topic at `path`: what deleting
/// only its children removes.
pub fn collect_descendant_paths(topic: &Topic, path: &TopicPath) -> (r: Vec<String>)
    ensures
        string_views(r@) == rendered_paths(forest_preorder(topic.children@, path@)),
{
    let mut out: Vec<String> = Vec::new();
    push_forest_paths(&mut out, topic, path);
    proof {
        assert(string_views(Seq::<String>::empty()) =~= Seq::<Seq<char>>::empty());
        assert(string_views(out@) =~= rendered_paths(forest_preorder(topic.children@, path@)));
    }
    out
}

/// The paths, in pre-order, that copying `source` under the topic at
/// `destination_path` with the root titled `copied_title` creates.
pub fn collect_copied_paths(source: &Topic, destination_path: &TopicPath, copied_title: &str) -> (r:
    Vec<String>)
    ensures
        string_views(r@) == seq![render_path_spec(destination_path@.push(copied_title@))]
            + rendered_paths(
            forest_preorder(source.children@, destination_path@.push(copied_title@)),
        ),
{
    let root = destination_path.join(copied_title.to_owned());
    let mut out: Vec<String> = Vec::new();
    push_rendered(&mut out, &root);
    proof {
        assert(string_views(out@) =~= seq![render_path_spec(root@)]);
    }
    push_forest_paths(&mut out, source, &root);
    out
}

/// The lower-case ASCII form of an ASCII letter or digit.
pub open spec fn ascii_lower(c: char) -> char {
    if 'A' <= c && c <= 'Z' {
        ((c as u8) + 32) as u8 as char
    } else {
        c
    }
}

/// The ASCII letters and digits of `s`, in lower case.
pub open spec fn slug_spec(s: Seq<char>) -> Seq<char>
    decreases s.len(),
{
    if s.len() == 0 {
        seq![]
    } else if is_ascii_alphanumeric_spec(s.last()) {
        slug_spec(s.drop_last()).push(ascii_lower(s.last()))
    } else {
        slug_spec(s.drop_last())
    }
}

/// The id generated for a new topic titled `title`: `topic-` and the slug of the title,
/// or `topic-new` when the slug is empty.
pub open spec fn generated_id_spec(title: Seq<char>) -> Seq<char> {
    if slug_spec(title).len() == 0 {
        "topic-new"@
    } else {
        "topic-"@ + slug_spec(title)
    }
}

fn lower_ascii(c: char) -> (r: char)
    ensures
        r == ascii_lower(c),
{
    if 'A' <= c && c <= 'Z' {
        let b: u8 = c as u8;
        let lower: u8 = b + 32;
        lower as char
    } else {
        c
    }
}

/// The id generated for a new topic titled `title`.
pub fn generated_topic_id(title: &str) -> (r: String)
    ensures
        r@ == generated_id_spec(title@),
{
    let cs = chars_of(title);
    let mut slug: Vec<char> = Vec::new();
    let mut i: usize = 0;
    while i < cs.len()
        invariant
            i <= cs@.len(),
            slug@ == slug_spec(cs@.take(i as int)),
        decreases cs@.len() - i,
    {
        proof {
            assert(cs@.take(i + 1).drop_last() =~= cs@.take(i as int));
        }
        if is_ascii_alphanumeric(cs[i]) {
            slug.push(lower_ascii(cs[i]));
        }
        i = i + 1;
    }
    proof {
        assert(cs@.take(i as int) =~= cs@);
    }
    let mut out: Vec<char> = Vec::new();
    if slug.len() == 0 {
        let s = chars_of("topic-new");
        push_all(&mut out, s.as_slice());
    } else {
        let s = chars_of("topic-");
        push_all(&mut out, s.as_slice());
        push_all(&mut out, slug.as_slice());
    }
    string_from_chars(out.as_slice())
}

/// The path a topic at `path` has after its title becomes `title`; the root topic,
/// whose path is empty, is reported at `/<title>`.
pub open spec fn renamed_path_spec(path: Seq<Seq<char>>, title: Seq<char>) -> Seq<char> {
    if path.len() == 0 {
        render_path_spec(seq![title])
    } else {
        render_path_spec(path.update(path.len() - 1, title))
    }
}

/// The selector value of the path a topic has after being renamed to `title`.
pub fn renamed_path(path: &TopicPath, title: &str) -> (r: String)
    ensures
        r@ == renamed_path_spec(path@, title@),
{
    if path.is_root() {
        let p = TopicPath::root().join(title.to_owned());
        proof {
            assert(p@ =~= seq![title@]);
        }
        return p.to_selector_value();
    }
    let parent = path.parent();
    let p = parent.join(title.to_owned());
    proof {
        assert(p@ =~= path@.update(path@.len() - 1, title@));
    }
    p.to_selector_value()
}

} // verus!

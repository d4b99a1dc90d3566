//! Finding topics of a sheet by path, id, title or query.
use vstd::prelude::*;
use crate::domain::path::TopicPath;
use crate::domain::query::{query_matches_title, QueryExpr};
use crate::domain::selector::{Selector, SelectorSpec};
use crate::domain::query::QuerySpec;
use crate::domain::topic::Topic;
use crate::text::{chars_of, contains, contains_spec, str_equal};

verus! {

/// A topic together with its path.
pub type Located = (Topic, Seq<Seq<char>>);

/// Every topic of the tree under `t`, each with its path, in pre-order: a topic comes
/// before its children, and children in their order.
pub open spec fn preorder(t: Topic, path: Seq<Seq<char>>) -> Seq<Located>
    decreases t, 1nat,
{
    seq![(t, path)] + forest_preorder(t.children@, path)
}

/// The pre-order listings of each of `ts`, children of the topic at `parent`, one
/// after the other.
pub open spec fn forest_preorder(ts: Seq<Topic>, parent: Seq<Seq<char>>) -> Seq<Located>
    decreases ts, 0nat,
{
    if ts.len() == 0 {
        seq![]
    } else {
        forest_preorder(ts.drop_last(), parent) + preorder(ts.last(), parent.push(ts.last().title@))
    }
}

/// The elements of `s` that satisfy `p`, in order.
pub open spec fn select(s: Seq<Located>, p: spec_fn(Located) -> bool) -> Seq<Located>
    decreases s.len(),
{
    if s.len() == 0 {
        seq![]
    } else if p(s.last()) {
        select(s.drop_last(), p).push(s.last())
    } else {
        select(s.drop_last(), p)
    }
}

/// Selecting from two pieces is selecting from each.
pub proof fn lemma_select_concat(a: Seq<Located>, b: Seq<Located>, p: spec_fn(Located) -> bool)
    ensures
        select(a + b, p) == select(a, p) + select(b, p),
    decreases b.len(),
{
    if b.len() == 0 {
        assert(a + b =~= a);
        assert(select(a, p) + select(b, p) =~= select(a, p));
    } else {
        assert((a + b).drop_last() =~= a + b.drop_last());
        assert((a + b).last() == b.last());
        lemma_select_concat(a, b.drop_last(), p);
        if p(b.last()) {
            assert(select(a, p) + select(b.drop_last(), p).push(b.last()) =~= (select(a, p)
                + select(b.drop_last(), p)).push(b.last()));
        }
    }
}

/// The child of `t` with title `title` that comes first, by index.
#[verifier::opaque]
pub open spec fn first_child_titled(t: Topic, title: Seq<char>) -> Option<int> {
    if exists|i: int| 0 <= i < t.children@.len() && t.children@[i].title@ == title {
        Some(
            choose|i: int|
                0 <= i < t.children@.len() && t.children@[i].title@ == title && forall|k: int|
                    0 <= k < i ==> t.children@[k].title@ != title,
        )
    } else {
        None
    }
}

/// The topic reached from `t` by following, for each title of `segs`, the first child
/// with that title.
pub open spec fn topic_at_path(t: Topic, segs: Seq<Seq<char>>) -> Option<Topic>
    decreases segs.len(),
{
    if segs.len() == 0 {
        Some(t)
    } else {
        match first_child_titled(t, segs[0]) {
            None => None,
            Some(i) => if 0 <= i < t.children@.len() {
                topic_at_path(t.children@[i], segs.drop_first())
            } else {
                None
            },
        }
    }
}

/// A topic found by a selector, with its path.
pub struct ResolvedTopic<'a> {
    pub topic: &'a Topic,
    pub path: TopicPath,
}

/// The outcome of resolving a selector that must name one topic.
pub enum ResolveOne<'a> {
    Found(ResolvedTopic<'a>),
    NotFound,
    Ambiguous(Vec<ResolvedTopic<'a>>),
}

/// A resolved topic as a topic and its path.
pub open spec fn located_of(r: ResolvedTopic) -> Located {
    (*r.topic, r.path@)
}

/// The resolved topics as topics and paths.
pub open spec fn located_seq(v: Seq<ResolvedTopic>) -> Seq<Located> {
    v.map_values(|r: ResolvedTopic| located_of(r))
}

/// The first-match index is the only index where the title matches and no earlier
/// child matches.
pub proof fn lemma_first_child_titled(t: Topic, title: Seq<char>, j: int)
    requires
        0 <= j < t.children@.len(),
        t.children@[j].title@ == title,
        forall|k: int| 0 <= k < j ==> t.children@[k].title@ != title,
    ensures
        first_child_titled(t, title) == Some(j),
{
    reveal(first_child_titled);
    assert(exists|i: int| 0 <= i < t.children@.len() && t.children@[i].title@ == title);
    let w = choose|x: int|
        0 <= x < t.children@.len() && t.children@[x].title@ == title && forall|k: int|
            0 <= k < x ==> t.children@[k].title@ != title;
    assert(exists|x: int|
        0 <= x < t.children@.len() && t.children@[x].title@ == title && forall|k: int|
            0 <= k < x ==> t.children@[k].title@ != title);
    if w < j {
        assert(t.children@[w].title@ != title);
    } else if w > j {
        assert(t.children@[j].title@ != title);
    }
}

/// The index of the first child of `topic` titled `title`.
pub fn first_child_index(topic: &Topic, title: &str) -> (r: Option<usize>)
    ensures
        r is None <==> first_child_titled(*topic, title@) is None,
        r matches Some(i) ==> first_child_titled(*topic, title@) == Some(i as int) && i < topic.children@.len() && topic.children@[i as int].title@ == title@,
{
    let mut j: usize = 0;
    while j < topic.children.len()
        invariant
            j <= topic.children@.len(),
            forall|k: int| 0 <= k < j ==> topic.children@[k].title@ != title@,
        decreases topic.children@.len() - j,
    {
        if str_equal(topic.children[j].title.as_str(), title) {
            assert(topic.children@[j as int].title@ == title@);
            proof {
                lemma_first_child_titled(*topic, title@, j as int);
            }
            return Some(j);
        }
        j = j + 1;
    }
    proof {
        reveal(first_child_titled);
    }
    None
}

/// Finds the topic at `path` below `root` by following, for each title, the first child
/// with that title.
pub fn find_topic_by_path<'a>(root: &'a Topic, path: &TopicPath) -> (r: Option<&'a Topic>)
    ensures
        match topic_at_path(*root, path@) {
            Some(t) => r matches Some(x) && *x == t,
            None => r is None,
        },
{
    let n = path.len();
    let mut current: &'a Topic = root;
    let mut i: usize = 0;
    proof {
        assert(path@.skip(0) =~= path@);
    }
    while i < n
        invariant
            n == path@.len(),
            i <= n,
            topic_at_path(*root, path@) == topic_at_path(*current, path@.skip(i as int)),
        decreases n - i,
    {
        let seg = path.segment(i);
        let found = first_child_index(current, seg.as_str());
        proof {
            let rest = path@.skip(i as int);
            assert(rest[0] == path@[i as int]);
            assert(rest.drop_first() =~= path@.skip(i + 1));
            assert(rest.len() > 0);
            assert(topic_at_path(*current, rest) == match first_child_titled(*current, rest[0]) {
                None => None,
                Some(k) => if 0 <= k < current.children@.len() {
                    topic_at_path(current.children@[k], rest.drop_first())
                } else {
                    None
                },
            });
        }
        match found {
            None => {
                return None;
            },
            Some(j) => {
                let ghost prev = *current;
                current = &current.children[j];
                proof {
                    let rest = path@.skip(i as int);
                    assert(first_child_titled(prev, rest[0]) == Some(j as int));
                    assert(topic_at_path(prev, rest) == topic_at_path(*current, path@.skip(i + 1)));
                }
            },
        }
        i = i + 1;
    }
    proof {
        assert(path@.skip(n as int) =~= Seq::<Seq<char>>::empty());
    }
    Some(current)
}

/// What a search looks for in each topic.
pub enum FindCriterion<'a> {
    /// The title equals the text.
    TitleExact(&'a str),
    /// The title contains the text.
    TitleContains(&'a str),
    /// The title or the note contains the text.
    Contains(&'a str),
    /// The query holds.
    Query(QueryExpr),
}

/// Whether `t` satisfies the criterion.
pub open spec fn criterion_holds(c: FindCriterion, t: Topic) -> bool {
    match c {
        FindCriterion::TitleExact(s) => t.title@ == s@,
        FindCriterion::TitleContains(s) => contains_spec(t.title@, s@),
        FindCriterion::Contains(s) => contains_spec(t.title@, s@) || (t.note matches Some(n)
            && contains_spec(n@, s@)),
        FindCriterion::Query(q) => query_matches_title(q@, t.title@),
    }
}

/// The located topics that satisfy the criterion.
pub open spec fn criterion_pred(c: FindCriterion) -> spec_fn(Located) -> bool {
    |l: Located| criterion_holds(c, l.0)
}

/// The located topics with the given id.
pub open spec fn id_pred(id: Seq<char>) -> spec_fn(Located) -> bool {
    |l: Located| l.0.id.0@ == id
}

/// `--contains` searches the title and the note: a topic matches it exactly when its
/// title contains the text (what `--title-contains` looks at) or it has a note that
/// contains the text. So a topic whose note holds the text matches, whatever its title,
/// and every `--title-contains` match is a `--contains` match, as every `--title` match
/// (an equal title) is a `--title-contains` match.
pub proof fn law_contains_searches_title_and_note(s: &str, t: Topic)
    ensures
        criterion_holds(FindCriterion::Contains(s), t) <==> (criterion_holds(
            FindCriterion::TitleContains(s),
            t,
        ) || (t.note is Some && contains_spec(t.note->0@, s@))),
        (t.note is Some && contains_spec(t.note->0@, s@)) ==> criterion_holds(
            FindCriterion::Contains(s),
            t,
        ),
        criterion_holds(FindCriterion::TitleContains(s), t) ==> criterion_holds(
            FindCriterion::Contains(s),
            t,
        ),
        criterion_holds(FindCriterion::TitleContains(s), t) <==> contains_spec(t.title@, s@),
        criterion_holds(FindCriterion::TitleExact(s), t) <==> t.title@ == s@,
        criterion_holds(FindCriterion::TitleExact(s), t) ==> criterion_holds(
            FindCriterion::TitleContains(s),
            t,
        ),
{
    if t.title@ == s@ {
        let z: int = 0;
        assert(t.title@.subrange(z, z + s@.len()) =~= s@);
        assert(contains_spec(t.title@, s@));
    }
}

impl<'a> FindCriterion<'a> {
    /// Whether the topic satisfies the criterion. The topic's path and depth are passed
    /// to queries, which do not read them.
    pub fn matches_topic(&self, topic: &Topic, path: &TopicPath, depth: usize) -> (r: bool)
        ensures
            r == criterion_holds(*self, *topic),
    {
        match self {
            FindCriterion::TitleExact(expected) => str_equal(topic.title.as_str(), expected),
            FindCriterion::TitleContains(needle) => {
                let t = chars_of(topic.title.as_str());
                let n = chars_of(needle);
                contains(t.as_slice(), n.as_slice())
            },
            FindCriterion::Contains(needle) => {
                let t = chars_of(topic.title.as_str());
                let n = chars_of(needle);
                if contains(t.as_slice(), n.as_slice()) {
                    true
                } else {
                    match &topic.note {
                        Some(note) => {
                            let c = chars_of(note.as_str());
                            contains(c.as_slice(), n.as_slice())
                        },
                        None => false,
                    }
                }
            },
            FindCriterion::Query(expr) => expr.matches_topic(topic, path, depth),
        }
    }
}

pub proof fn lemma_forest_step(ts: Seq<Topic>, parent: Seq<Seq<char>>, k: int)
    requires
        0 <= k < ts.len(),
    ensures
        forest_preorder(ts.take(k + 1), parent) == forest_preorder(ts.take(k), parent) + preorder(
            ts[k],
            parent.push(ts[k].title@),
        ),
{
    let t = ts.take(k + 1);
    assert(t.drop_last() =~= ts.take(k));
    assert(t.last() == ts[k]);
}

/// Appends to `matches`, in pre-order, every topic of the tree under `topic` (whose
/// path is `path`) that satisfies the criterion.
pub fn collect_topics<'a>(
    topic: &'a Topic,
    path: &TopicPath,
    depth: usize,
    criterion: &FindCriterion,
    matches: &mut Vec<ResolvedTopic<'a>>,
)
    ensures
        located_seq(final(matches)@) == located_seq(old(matches)@) + select(
            preorder(*topic, path@),
            criterion_pred(*criterion),
        ),
    decreases topic,
{
    let ghost start = located_seq(matches@);
    let ghost p = criterion_pred(*criterion);
    proof {
        assert(select(seq![(*topic, path@)], p) == if p((*topic, path@)) {
            seq![(*topic, path@)]
        } else {
            Seq::<Located>::empty()
        }) by {
            let one = seq![(*topic, path@)];
            assert(one.drop_last() =~= Seq::<Located>::empty());
            assert(one.last() == (*topic, path@));
            assert(select(Seq::<Located>::empty(), p) == Seq::<Located>::empty());
            assert(Seq::<Located>::empty().push((*topic, path@)) =~= one);
        }
    }
    if criterion.matches_topic(topic, path, depth) {
        matches.push(ResolvedTopic { topic, path: path.duplicate() });
        proof {
            assert(located_seq(matches@) =~= start + seq![(*topic, path@)]);
        }
    } else {
        proof {
            assert(located_seq(matches@) =~= start + Seq::<Located>::empty());
        }
    }
    let ghost head = select(seq![(*topic, path@)], p);
    let child_depth: usize = if depth < usize::MAX {
        depth + 1
    } else {
        depth
    };
    let mut k: usize = 0;
    proof {
        assert(topic.children@.take(0) =~= Seq::<Topic>::empty());
        assert(start + head =~= start + head + select(Seq::<Located>::empty(), p));
    }
    while k < topic.children.len()
        invariant
            k <= topic.children@.len(),
            p == criterion_pred(*criterion),
            head == select(seq![(*topic, path@)], p),
            located_seq(matches@) == start + head + select(
                forest_preorder(topic.children@.take(k as int), path@),
                p,
            ),
        decreases topic.children@.len() - k,
    {
        let child = &topic.children[k];
        let child_path = path.join(child.title.clone());
        let ghost before = located_seq(matches@);
        collect_topics(child, &child_path, child_depth, criterion, matches);
        proof {
            lemma_forest_step(topic.children@, path@, k as int);
            lemma_select_concat(
                forest_preorder(topic.children@.take(k as int), path@),
                preorder(*child, path@.push(child.title@)),
                p,
            );
            assert(located_seq(matches@) =~= start + head + select(
                forest_preorder(topic.children@.take(k + 1), path@),
                p,
            ));
        }
        k = k + 1;
    }
    proof {
        assert(topic.children@.take(k as int) =~= topic.children@);
        lemma_select_concat(seq![(*topic, path@)], forest_preorder(topic.children@, path@), p);
        assert(start + head + select(forest_preorder(topic.children@, path@), p) =~= start
            + select(preorder(*topic, path@), p));
    }
}

/// Finds the first topic in pre-order, below and including `topic`, whose id is `id`.
pub fn find_topic_by_id<'a>(topic: &'a Topic, path: &TopicPath, id: &str) -> (r: Option<
    ResolvedTopic<'a>,
>)
    ensures
        r is None <==> select(preorder(*topic, path@), id_pred(id@)).len() == 0,
        r matches Some(x) ==> located_of(x) == select(preorder(*topic, path@), id_pred(id@))[0],
    decreases topic,
{
    let ghost p = id_pred(id@);
    let ghost one = seq![(*topic, path@)];
    proof {
        assert(one.drop_last() =~= Seq::<Located>::empty());
        assert(one.last() == (*topic, path@));
        assert(select(Seq::<Located>::empty(), p) == Seq::<Located>::empty());
        assert(Seq::<Located>::empty().push((*topic, path@)) =~= one);
        lemma_select_concat(one, forest_preorder(topic.children@, path@), p);
    }
    if str_equal(topic.id.0.as_str(), id) {
        return Some(ResolvedTopic { topic, path: path.duplicate() });
    }
    assert(select(one, p).len() == 0);
    let mut k: usize = 0;
    proof {
        assert(topic.children@.take(0) =~= Seq::<Topic>::empty());
    }
    while k < topic.children.len()
        invariant
            k <= topic.children@.len(),
            p == id_pred(id@),
            one == seq![(*topic, path@)],
            select(one, p).len() == 0,
            select(preorder(*topic, path@), p) == select(one, p) + select(
                forest_preorder(topic.children@, path@),
                p,
            ),
            select(forest_preorder(topic.children@.take(k as int), path@), p).len() == 0,
        decreases topic.children@.len() - k,
    {
        let child = &topic.children[k];
        let child_path = path.join(child.title.clone());
        let found = find_topic_by_id(child, &child_path, id);
        proof {
            lemma_forest_step(topic.children@, path@, k as int);
            lemma_select_concat(
                forest_preorder(topic.children@.take(k as int), path@),
                preorder(*child, path@.push(child.title@)),
                p,
            );
        }
        if found.is_some() {
            proof {
                lemma_select_prefix_empty_first(
                    forest_preorder(topic.children@.take(k as int), path@),
                    preorder(*child, path@.push(child.title@)),
                    forest_preorder(topic.children@, path@),
                    topic.children@,
                    path@,
                    k as int,
                    p,
                );
            }
            assert(select(one, p) + select(forest_preorder(topic.children@, path@), p) =~= select(
                forest_preorder(topic.children@, path@),
                p,
            ));
            return found;
        }
        k = k + 1;
    }
    proof {
        assert(topic.children@.take(k as int) =~= topic.children@);
    }
    None
}

/// The listing of the first `k + 1` children is a prefix of the listing of all children,
/// so a selection that finds nothing before the `k`-th child and something in it finds
/// that first.
proof fn lemma_select_prefix_empty_first(
    before: Seq<Located>,
    child: Seq<Located>,
    all: Seq<Located>,
    ts: Seq<Topic>,
    parent: Seq<Seq<char>>,
    k: int,
    p: spec_fn(Located) -> bool,
)
    requires
        0 <= k < ts.len(),
        before == forest_preorder(ts.take(k), parent),
        child == preorder(ts[k], parent.push(ts[k].title@)),
        all == forest_preorder(ts, parent),
        select(before, p).len() == 0,
        select(child, p).len() > 0,
    ensures
        select(all, p).len() > 0,
        select(all, p)[0] == select(child, p)[0],
{
    lemma_forest_prefix(ts, parent, k + 1);
    let rest = all.skip(forest_preorder(ts.take(k + 1), parent).len() as int);
    lemma_forest_step(ts, parent, k);
    lemma_select_concat(before, child, p);
    lemma_select_concat(forest_preorder(ts.take(k + 1), parent), rest, p);
    assert(select(before, p) + select(child, p) =~= select(child, p));
}

/// The listing of the first `n` children is a prefix of the listing of all of them.
proof fn lemma_forest_prefix(ts: Seq<Topic>, parent: Seq<Seq<char>>, n: int)
    requires
        0 <= n <= ts.len(),
    ensures
        forest_preorder(ts, parent) == forest_preorder(ts.take(n), parent) + forest_preorder(
            ts,
            parent,
        ).skip(forest_preorder(ts.take(n), parent).len() as int),
        forest_preorder(ts.take(n), parent).len() <= forest_preorder(ts, parent).len(),
    decreases ts.len() - n,
{
    if n == ts.len() {
        assert(ts.take(n) =~= ts);
        assert(forest_preorder(ts, parent).skip(forest_preorder(ts, parent).len() as int)
            =~= Seq::<Located>::empty());
        assert(forest_preorder(ts, parent) + Seq::<Located>::empty() =~= forest_preorder(
            ts,
            parent,
        ));
    } else {
        lemma_forest_prefix(ts, parent, n + 1);
        lemma_forest_step(ts, parent, n);
        let a = forest_preorder(ts.take(n), parent);
        let b = preorder(ts[n], parent.push(ts[n].title@));
        let all = forest_preorder(ts, parent);
        let ab = forest_preorder(ts.take(n + 1), parent);
        assert(ab == a + b);
        assert(all == ab + all.skip(ab.len() as int));
        assert(all =~= a + all.skip(a.len() as int)) by {
            assert forall|i: int| 0 <= i < all.len() implies all[i] == (a + all.skip(
                a.len() as int,
            ))[i] by {
                if i < a.len() {
                    assert(all[i] == (ab + all.skip(ab.len() as int))[i]);
                    assert(ab[i] == a[i]);
                }
            }
        }
    }
}

/// What resolving a selector against a sheet finds.
pub enum ResolveSpec {
    Found(Located),
    NotFound,
    Ambiguous(Seq<Located>),
}

/// One match is found, none is not found, and several are ambiguous.
pub open spec fn resolve_matches(all: Seq<Located>) -> ResolveSpec {
    if all.len() == 0 {
        ResolveSpec::NotFound
    } else if all.len() == 1 {
        ResolveSpec::Found(all[0])
    } else {
        ResolveSpec::Ambiguous(all)
    }
}

/// The located topics at the path `p`: those whose titles from the root, below it,
/// are `p`.
pub open spec fn path_pred(p: Seq<Seq<char>>) -> spec_fn(Located) -> bool {
    |l: Located| l.1 == p
}

/// What a selector picks out of the tree under `root`: the root itself; or all topics at
/// a path, with an id, with a title, or satisfying a query, where one match is found,
/// none is not found, and more than one is ambiguous.
pub open spec fn resolve_spec(root: Topic, sel: SelectorSpec) -> ResolveSpec {
    let all = preorder(root, seq![]);
    match sel {
        SelectorSpec::Root => ResolveSpec::Found((root, seq![])),
        SelectorSpec::Path(p) => resolve_matches(select(all, path_pred(p))),
        SelectorSpec::Id(id) => resolve_matches(select(all, id_pred(id))),
        SelectorSpec::Title(t) => resolve_matches(select(all, |l: Located| l.0.title@ == t)),
        SelectorSpec::Query { expr, .. } => resolve_matches(
            select(all, |l: Located| query_matches_title(expr, l.0.title@)),
        ),
    }
}

/// Every topic of the tree under `root`, with its path, that the selector denotes, in
/// pre-order: the root for `root`; otherwise each topic at the path, with the id, with
/// the title, or satisfying the query.
pub open spec fn selector_matches(root: Topic, sel: SelectorSpec) -> Seq<Located> {
    let all = preorder(root, seq![]);
    match sel {
        SelectorSpec::Root => seq![(root, seq![])],
        SelectorSpec::Path(p) => select(all, path_pred(p)),
        SelectorSpec::Id(id) => select(all, id_pred(id)),
        SelectorSpec::Title(t) => select(all, |l: Located| l.0.title@ == t),
        SelectorSpec::Query { expr, .. } => select(
            all,
            |l: Located| query_matches_title(expr, l.0.title@),
        ),
    }
}

/// Ambiguous selectors fail instead of guessing: whatever the selector's kind, it
/// resolves to a topic only when exactly one topic matches it, reports nothing found
/// when none does, and reports every match, as ambiguous, when more than one does.
pub proof fn law_ambiguous_selectors_fail(root: Topic, sel: SelectorSpec)
    ensures
        resolve_spec(root, sel) == resolve_matches(selector_matches(root, sel)),
        selector_matches(root, sel).len() >= 2 ==> resolve_spec(root, sel) == ResolveSpec::Ambiguous(
            selector_matches(root, sel),
        ),
        resolve_spec(root, sel) matches ResolveSpec::Found(l) ==> selector_matches(root, sel)
            == seq![l],
{
    let m = selector_matches(root, sel);
    if m.len() == 1 {
        assert(m =~= seq![m[0]]);
    }
}

/// The outcome as topics and paths.
pub open spec fn resolve_view(r: ResolveOne) -> ResolveSpec {
    match r {
        ResolveOne::Found(x) => ResolveSpec::Found(located_of(x)),
        ResolveOne::NotFound => ResolveSpec::NotFound,
        ResolveOne::Ambiguous(v) => ResolveSpec::Ambiguous(located_seq(v@)),
    }
}

/// What a path or an id selector looks for.
enum Pick<'b> {
    Id(&'b str),
    Path(&'b TopicPath),
}

spec fn pick_pred(pick: Pick) -> spec_fn(Located) -> bool {
    match pick {
        Pick::Id(id) => id_pred(id@),
        Pick::Path(p) => path_pred(p@),
    }
}

fn path_equal(a: &TopicPath, b: &TopicPath) -> (r: bool)
    ensures
        r == (a@ == b@),
{
    if a.len() != b.len() {
        return false;
    }
    let r = a.is_same_or_descendant_of(b);
    proof {
        assert(a@.take(b@.len() as int) =~= a@);
    }
    r
}

fn picks(pick: &Pick, topic: &Topic, path: &TopicPath) -> (r: bool)
    ensures
        r == pick_pred(*pick)((*topic, path@)),
{
    match pick {
        Pick::Id(id) => str_equal(topic.id.0.as_str(), id),
        Pick::Path(p) => path_equal(path, p),
    }
}

/// Appends to `matches`, in pre-order, every topic of the tree under `topic` (whose
/// path is `path`) that the pick looks for.
fn collect_picked<'a>(
    topic: &'a Topic,
    path: &TopicPath,
    pick: &Pick,
    matches: &mut Vec<ResolvedTopic<'a>>,
)
    ensures
        located_seq(final(matches)@) == located_seq(old(matches)@) + select(
            preorder(*topic, path@),
            pick_pred(*pick),
        ),
    decreases topic,
{
    let ghost start = located_seq(matches@);
    let ghost p = pick_pred(*pick);
    proof {
        assert(select(seq![(*topic, path@)], p) == if p((*topic, path@)) {
            seq![(*topic, path@)]
        } else {
            Seq::<Located>::empty()
        }) by {
            let one = seq![(*topic, path@)];
            assert(one.drop_last() =~= Seq::<Located>::empty());
            assert(one.last() == (*topic, path@));
            assert(select(Seq::<Located>::empty(), p) == Seq::<Located>::empty());
            assert(Seq::<Located>::empty().push((*topic, path@)) =~= one);
        }
    }
    if picks(pick, topic, path) {
        matches.push(ResolvedTopic { topic, path: path.duplicate() });
        proof {
            assert(located_seq(matches@) =~= start + seq![(*topic, path@)]);
        }
    } else {
        proof {
            assert(located_seq(matches@) =~= start + Seq::<Located>::empty());
        }
    }
    let ghost head = select(seq![(*topic, path@)], p);
    let mut k: usize = 0;
    proof {
        assert(topic.children@.take(0) =~= Seq::<Topic>::empty());
        assert(start + head =~= start + head + select(Seq::<Located>::empty(), p));
    }
    while k < topic.children.len()
        invariant
            k <= topic.children@.len(),
            p == pick_pred(*pick),
            head == select(seq![(*topic, path@)], p),
            located_seq(matches@) == start + head + select(
                forest_preorder(topic.children@.take(k as int), path@),
                p,
            ),
        decreases topic.children@.len() - k,
    {
        let child = &topic.children[k];
        let child_path = path.join(child.title.clone());
        collect_picked(child, &child_path, pick, matches);
        proof {
            lemma_forest_step(topic.children@, path@, k as int);
            lemma_select_concat(
                forest_preorder(topic.children@.take(k as int), path@),
                preorder(*child, path@.push(child.title@)),
                p,
            );
            assert(located_seq(matches@) =~= start + head + select(
                forest_preorder(topic.children@.take(k + 1), path@),
                p,
            ));
        }
        k = k + 1;
    }
    proof {
        assert(topic.children@.take(k as int) =~= topic.children@);
        lemma_select_concat(seq![(*topic, path@)], forest_preorder(topic.children@, path@), p);
        assert(start + head + select(forest_preorder(topic.children@, path@), p) =~= start
            + select(preorder(*topic, path@), p));
    }
}

fn resolve_picked<'a>(root: &'a Topic, pick: &Pick) -> (r: ResolveOne<'a>)
    ensures
        resolve_view(r) == resolve_matches(select(preorder(*root, seq![]), pick_pred(*pick))),
{
    let mut matches: Vec<ResolvedTopic<'a>> = Vec::new();
    let start = TopicPath::root();
    collect_picked(root, &start, pick, &mut matches);
    proof {
        assert(located_seq(Seq::<ResolvedTopic>::empty()) =~= Seq::<Located>::empty());
        assert(located_seq(matches@) =~= select(preorder(*root, seq![]), pick_pred(*pick)));
    }
    if matches.len() == 0 {
        ResolveOne::NotFound
    } else if matches.len() == 1 {
        let found = matches.pop().unwrap();
        ResolveOne::Found(found)
    } else {
        ResolveOne::Ambiguous(matches)
    }
}

fn resolve_all<'a>(root: &'a Topic, criterion: &FindCriterion) -> (r: ResolveOne<'a>)
    ensures
        resolve_view(r) == resolve_matches(
            select(preorder(*root, seq![]), criterion_pred(*criterion)),
        ),
{
    let mut matches: Vec<ResolvedTopic<'a>> = Vec::new();
    let start = TopicPath::root();
    collect_topics(root, &start, 0, criterion, &mut matches);
    proof {
        assert(located_seq(Seq::<ResolvedTopic>::empty()) =~= Seq::<Located>::empty());
        assert(located_seq(matches@) =~= select(preorder(*root, seq![]), criterion_pred(*criterion)));
    }
    if matches.len() == 0 {
        ResolveOne::NotFound
    } else if matches.len() == 1 {
        let found = matches.pop().unwrap();
        ResolveOne::Found(found)
    } else {
        ResolveOne::Ambiguous(matches)
    }
}

/// Resolves a selector against the tree under `root`.
pub fn resolve_topic<'a>(root: &'a Topic, selector: &Selector) -> (r: ResolveOne<'a>)
    ensures
        resolve_view(r) == resolve_spec(*root, selector@),
{
    match selector {
        Selector::Root => {
            let r = ResolveOne::Found(ResolvedTopic { topic: root, path: TopicPath::root() });
            proof {
                assert(resolve_view(r) == ResolveSpec::Found((*root, Seq::<Seq<char>>::empty())));
                assert(Seq::<Seq<char>>::empty() =~= seq![]);
            }
            r
        },
        Selector::Path(path) => {
            let pick = Pick::Path(path);
            let r = resolve_picked(root, &pick);
            assert(resolve_view(r) == resolve_spec(*root, selector@));
            r
        },
        Selector::Id(id) => {
            let pick = Pick::Id(id.as_str());
            let r = resolve_picked(root, &pick);
            assert(resolve_view(r) == resolve_spec(*root, selector@));
            r
        },
        Selector::Title(title) => {
            let c = FindCriterion::TitleExact(title.as_str());
            let ghost t = title@;
            proof {
                assert(criterion_pred(c) =~= (|l: Located| l.0.title@ == t));
                assert(selector@ == SelectorSpec::Title(t));
            }
            let r = resolve_all(root, &c);
            assert(resolve_view(r) == resolve_spec(*root, selector@));
            r
        },
        Selector::Query { expr, .. } => {
            let c = FindCriterion::Query(expr.duplicate());
            proof {
                assert(criterion_pred(c) =~= (|l: Located| query_matches_title(expr@, l.0.title@)));
            }
            let r = resolve_all(root, &c);
            assert(resolve_view(r) == resolve_spec(*root, selector@));
            r
        },
    }
}

} // verus!

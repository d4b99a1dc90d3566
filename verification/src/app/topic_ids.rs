//! Allocating topic ids that no topic of the workbook uses yet.
use vstd::prelude::*;
use crate::app::listing::{generated_id_spec, generated_topic_id, string_views};
use crate::app::tree_input::TopicTreeInputDto;
use crate::domain::sheet::Sheet;
use crate::domain::topic::Topic;
use crate::text::{chars_of, decimal, decimal_spec, digit_char, push_all, str_equal, string_from_chars};

verus! {

/// The ids in use, each once.
pub struct TopicIdAllocator {
    used_ids: Vec<String>,
}

impl View for TopicIdAllocator {
    type V = Set<Seq<char>>;

    closed spec fn view(&self) -> Set<Seq<char>> {
        string_views(self.used_ids@).to_set()
    }
}

/// The `suffix`-th candidate derived from a base id: `<base>-<suffix>`.
pub open spec fn candidate(base: Seq<char>, suffix: nat) -> Seq<char> {
    base + seq!['-'] + decimal_spec(suffix)
}

/// A single decimal digit is written with one character, larger numbers with more.
proof fn lemma_decimal_len(n: nat)
    ensures
        decimal_spec(n).len() >= 1,
        (decimal_spec(n).len() == 1) == (n < 10),
    decreases n,
{
    if n >= 10 {
        lemma_decimal_len(n / 10);
    }
}

proof fn lemma_digit_char_injective(a: nat, b: nat)
    requires
        a < 10,
        b < 10,
        digit_char(a) == digit_char(b),
    ensures
        a == b,
{
}

/// Different numbers are written differently.
pub proof fn lemma_decimal_injective(a: nat, b: nat)
    requires
        decimal_spec(a) == decimal_spec(b),
    ensures
        a == b,
    decreases a,
{
    lemma_decimal_len(a);
    lemma_decimal_len(b);
    if a < 10 {
        assert(b < 10);
        assert(decimal_spec(a)[0] == digit_char(a));
        assert(decimal_spec(b)[0] == digit_char(b));
        lemma_digit_char_injective(a, b);
    } else {
        assert(b >= 10);
        let da = decimal_spec(a);
        let db = decimal_spec(b);
        assert(da.last() == digit_char(a % 10));
        assert(db.last() == digit_char(b % 10));
        lemma_digit_char_injective(a % 10, b % 10);
        assert(da.drop_last() =~= decimal_spec(a / 10));
        assert(db.drop_last() =~= decimal_spec(b / 10));
        lemma_decimal_injective(a / 10, b / 10);
    }
}

/// Different suffixes give different candidates.
pub proof fn lemma_candidate_injective(base: Seq<char>, j: nat, k: nat)
    requires
        candidate(base, j) == candidate(base, k),
    ensures
        j == k,
{
    let n = (base.len() + 1) as int;
    assert(candidate(base, j).skip(n) =~= decimal_spec(j));
    assert(candidate(base, k).skip(n) =~= decimal_spec(k));
    lemma_decimal_injective(j, k);
}

/// The ids in use after the first `n` of `ids` were handed out, in order, starting from
/// the ids `used`.
pub open spec fn used_after(used: Set<Seq<char>>, ids: Seq<Seq<char>>, n: int) -> Set<Seq<char>>
    decreases n,
{
    if n <= 0 {
        used
    } else {
        used_after(used, ids, n - 1).insert(ids[n - 1])
    }
}

proof fn lemma_used_after_grows(used: Set<Seq<char>>, ids: Seq<Seq<char>>, n: int)
    requires
        0 <= n <= ids.len(),
    ensures
        used.subset_of(used_after(used, ids, n)),
        forall|i: int| 0 <= i < n ==> used_after(used, ids, n).contains(#[trigger] ids[i]),
    decreases n,
{
    if n > 0 {
        lemma_used_after_grows(used, ids, n - 1);
    }
}

/// Ids handed out by successive allocations are fresh. Each allocation hands out an id
/// not in use and records it (what `allocate` ensures), so none of the ids was in use at
/// the start, none equals an id collected from the workbook, and no two are equal.
pub proof fn law_allocated_ids_are_fresh(used: Set<Seq<char>>, ids: Seq<Seq<char>>)
    requires
        forall|i: int|
            #![trigger used_after(used, ids, i)]
            0 <= i < ids.len() ==> !used_after(used, ids, i).contains(ids[i]),
    ensures
        forall|i: int| 0 <= i < ids.len() ==> !used.contains(#[trigger] ids[i]),
        forall|i: int, j: int| 0 <= i < j < ids.len() ==> #[trigger] ids[i] != #[trigger] ids[j],
{
    assert forall|i: int| 0 <= i < ids.len() implies !used.contains(#[trigger] ids[i]) by {
        lemma_used_after_grows(used, ids, i);
        assert(!used_after(used, ids, i).contains(ids[i]));
    }
    assert forall|i: int, j: int| 0 <= i < j < ids.len() implies #[trigger] ids[i]
        != #[trigger] ids[j] by {
        lemma_used_after_grows(used, ids, j);
        assert(!used_after(used, ids, j).contains(ids[j]));
    }
}

/// The ids of every topic of the tree under `t`.
pub open spec fn tree_ids(t: Topic) -> Set<Seq<char>>
    decreases t, 1nat,
{
    set![t.id.0@].union(forest_ids(t.children@))
}

/// The ids of every topic of the trees `ts`.
pub open spec fn forest_ids(ts: Seq<Topic>) -> Set<Seq<char>>
    decreases ts, 0nat,
{
    if ts.len() == 0 {
        Set::empty()
    } else {
        forest_ids(ts.drop_last()).union(tree_ids(ts.last()))
    }
}

/// The ids of every topic of the sheets' trees.
pub open spec fn sheets_ids(sheets: Seq<Sheet>) -> Set<Seq<char>>
    decreases sheets.len(),
{
    if sheets.len() == 0 {
        Set::empty()
    } else {
        sheets_ids(sheets.drop_last()).union(tree_ids(sheets.last().root))
    }
}

/// Whether no string occurs twice.
pub open spec fn no_duplicates(s: Seq<Seq<char>>) -> bool {
    forall|i: int, j: int| 0 <= i < j < s.len() ==> s[i] != s[j]
}

impl TopicIdAllocator {
    /// The allocator's invariant: each id is recorded once.
    pub closed spec fn wf(&self) -> bool {
        no_duplicates(string_views(self.used_ids@))
    }

    /// How many ids are recorded.
    pub closed spec fn count(&self) -> nat {
        self.used_ids@.len()
    }

    /// An allocator with no ids in use.
    pub fn new() -> (r: Self)
        ensures
            r.wf(),
            r@ == Set::<Seq<char>>::empty(),
    {
        let r = TopicIdAllocator { used_ids: Vec::new() };
        proof {
            assert(string_views(r.used_ids@) =~= Seq::<Seq<char>>::empty());
            assert(r@ =~= Set::<Seq<char>>::empty());
        }
        r
    }

    /// Whether `id` is in use.
    pub fn contains(&self, id: &str) -> (r: bool)
        ensures
            r == self@.contains(id@),
    {
        let mut i: usize = 0;
        while i < self.used_ids.len()
            invariant
                i <= self.used_ids@.len(),
                forall|k: int| 0 <= k < i ==> self.used_ids@[k]@ != id@,
            decreases self.used_ids@.len() - i,
        {
            if str_equal(self.used_ids[i].as_str(), id) {
                proof {
                    assert(string_views(self.used_ids@)[i as int] == id@);
                }
                return true;
            }
            i = i + 1;
        }
        proof {
            if self@.contains(id@) {
                let k = choose|k: int|
                    0 <= k < string_views(self.used_ids@).len() && string_views(self.used_ids@)[k]
                        == id@;
                assert(self.used_ids@[k]@ == id@);
            }
        }
        false
    }

    /// Records `id` as in use.
    pub fn insert(&mut self, id: String)
        requires
            old(self).wf(),
        ensures
            final(self).wf(),
            final(self)@ == old(self)@.insert(id@),
            final(self).count() <= old(self).count() + 1,
    {
        if !self.contains(id.as_str()) {
            let ghost before = string_views(self.used_ids@);
            let ghost v = id@;
            self.used_ids.push(id);
            proof {
                broadcast use vstd::seq_lib::group_seq_properties;
                assert(string_views(self.used_ids@) =~= before.push(v));
                assert(!before.contains(v));
                assert(string_views(self.used_ids@).to_set() =~= before.to_set().insert(v));
                assert forall|i: int, j: int|
                    0 <= i < j < string_views(self.used_ids@).len() implies string_views(
                    self.used_ids@,
                )[i] != string_views(self.used_ids@)[j] by {
                    if j == before.len() {
                        assert(before.contains(before[i]));
                    }
                }
            }
        } else {
            proof {
                assert(old(self)@.insert(id@) =~= old(self)@);
            }
        }
    }

    /// Records the ids of every topic of the tree under `topic`.
    pub fn collect_topic(&mut self, topic: &Topic)
        requires
            old(self).wf(),
        ensures
            final(self).wf(),
            final(self)@ == old(self)@.union(tree_ids(*topic)),
        decreases topic,
    {
        self.insert(topic.id.0.clone());
        let mut i: usize = 0;
        proof {
            assert(topic.children@.take(0) =~= Seq::<Topic>::empty());
            assert(self@ =~= old(self)@.insert(topic.id.0@).union(forest_ids(topic.children@.take(0))));
        }
        while i < topic.children.len()
            invariant
                i <= topic.children@.len(),
                self.wf(),
                self@ == old(self)@.insert(topic.id.0@).union(forest_ids(topic.children@.take(i as int))),
            decreases topic.children@.len() - i,
        {
            let ghost before = self@;
            self.collect_topic(&topic.children[i]);
            proof {
                let t = topic.children@.take(i + 1);
                assert(t.drop_last() =~= topic.children@.take(i as int));
                assert(t.last() == topic.children@[i as int]);
                assert(self@ =~= old(self)@.insert(topic.id.0@).union(forest_ids(t)));
            }
            i = i + 1;
        }
        proof {
            assert(topic.children@.take(i as int) =~= topic.children@);
            assert(self@ =~= old(self)@.union(tree_ids(*topic)));
        }
    }

    /// An allocator that knows the ids of the tree under `root`.
    pub fn from_root(root: &Topic) -> (r: Self)
        ensures
            r.wf(),
            r@ == tree_ids(*root),
    {
        let mut allocator = Self::new();
        allocator.collect_topic(root);
        proof {
            assert(allocator@ =~= tree_ids(*root));
        }
        allocator
    }

    /// An allocator that knows the ids of every sheet's tree.
    pub fn from_workbook(sheets: &Vec<Sheet>) -> (r: Self)
        ensures
            r.wf(),
            r@ == sheets_ids(sheets@),
    {
        let mut allocator = Self::new();
        let mut i: usize = 0;
        proof {
            assert(sheets@.take(0) =~= Seq::<Sheet>::empty());
        }
        while i < sheets.len()
            invariant
                i <= sheets@.len(),
                allocator.wf(),
                allocator@ == sheets_ids(sheets@.take(i as int)),
            decreases sheets@.len() - i,
        {
            allocator.collect_topic(&sheets[i].root);
            proof {
                let t = sheets@.take(i + 1);
                assert(t.drop_last() =~= sheets@.take(i as int));
                assert(t.last() == sheets@[i as int]);
            }
            i = i + 1;
        }
        proof {
            assert(sheets@.take(i as int) =~= sheets@);
        }
        allocator
    }

    /// A fresh id for a topic titled `title`: the id generated from the title, or the
    /// first of `<id>-2`, `<id>-3`, ... that is not in use. It is recorded as in use.
    pub fn allocate(&mut self, title: &str) -> (r: String)
        requires
            old(self).wf(),
            old(self).count() + 3 < usize::MAX,
        ensures
            final(self).wf(),
            !old(self)@.contains(r@),
            final(self)@ == old(self)@.insert(r@),
            !old(self)@.contains(generated_id_spec(title@)) ==> r@ == generated_id_spec(title@),
            old(self)@.contains(generated_id_spec(title@)) ==> exists|k: nat|
                k >= 2 && r@ == candidate(generated_id_spec(title@), k) && forall|j: nat|
                    2 <= j < k ==> old(self)@.contains(#[trigger] candidate(generated_id_spec(title@), j)),
    {
        let base = generated_topic_id(title);
        if !self.contains(base.as_str()) {
            self.insert(base.clone());
            return base;
        }
        let ghost used = self@;
        let ghost b = base@;
        proof {
            string_views(self.used_ids@).unique_seq_to_set();
        }
        let ghost mut remaining: Set<Seq<char>> = used;
        let mut suffix: usize = 2;
        let base_chars = chars_of(base.as_str());
        loop
            invariant
                self@ == used,
                used == old(self)@,
                b == generated_id_spec(title@),
                self.wf(),
                self.count() + 3 < usize::MAX,
                base_chars@ == b,
                used.contains(b),
                2 <= suffix,
                used.len() == self.count(),
                used.finite(),
                remaining.finite(),
                remaining.subset_of(used),
                remaining.len() + (suffix - 2) == used.len(),
                forall|j: nat| 2 <= j < suffix ==> used.contains(#[trigger] candidate(b, j)),
                forall|x: Seq<char>|
                    #[trigger] remaining.contains(x) <==> (used.contains(x) && !exists|j: nat|
                        2 <= j < suffix && x == candidate(b, j)),
            decreases remaining.len(),
        {
            let mut cand = base_chars.clone();
            cand.push('-');
            let digits = decimal(suffix);
            push_all(&mut cand, digits.as_slice());
            let candidate_text = string_from_chars(cand.as_slice());
            proof {
                assert(candidate_text@ =~= candidate(b, suffix as nat));
            }
            if !self.contains(candidate_text.as_str()) {
                self.insert(candidate_text.clone());
                proof {
                    assert(exists|k: nat| k >= 2 && candidate_text@ == candidate(b, k) && forall|j: nat|
                        2 <= j < k ==> used.contains(#[trigger] candidate(b, j))) by {
                        assert(candidate_text@ == candidate(b, suffix as nat));
                    }
                }
                return candidate_text;
            }
            proof {
                let c = candidate(b, suffix as nat);
                assert(used.contains(c));
                assert(!exists|j: nat| 2 <= j < suffix && c == candidate(b, j)) by {
                    if exists|j: nat| 2 <= j < suffix && c == candidate(b, j) {
                        let j = choose|j: nat| 2 <= j < suffix && c == candidate(b, j);
                        lemma_candidate_injective(b, j, suffix as nat);
                    }
                }
                assert(remaining.contains(c));
                let next = remaining.remove(c);
                assert forall|x: Seq<char>| #[trigger] next.contains(x) <==> (used.contains(x)
                    && !exists|j: nat| 2 <= j < suffix + 1 && x == candidate(b, j)) by {
                    if next.contains(x) {
                        assert(remaining.contains(x) && x != c);
                        if exists|j: nat| 2 <= j < suffix + 1 && x == candidate(b, j) {
                            let j = choose|j: nat| 2 <= j < suffix + 1 && x == candidate(b, j);
                            if j < suffix {
                                assert(!remaining.contains(x));
                            }
                        }
                    }
                    if used.contains(x) && !exists|j: nat| 2 <= j < suffix + 1 && x == candidate(b, j) {
                        assert(x != c);
                        assert(!exists|j: nat| 2 <= j < suffix && x == candidate(b, j)) by {
                            if exists|j: nat| 2 <= j < suffix && x == candidate(b, j) {
                                let j = choose|j: nat| 2 <= j < suffix && x == candidate(b, j);
                                assert(2 <= j < suffix + 1 && x == candidate(b, j));
                            }
                        }
                        assert(remaining.contains(x));
                    }
                }
                remaining = next;
                assert(remaining.len() > 0 || suffix - 2 < used.len());
            }
            suffix = suffix + 1;
        }
    }

    /// The id of a topic added from tree input: its own id, recorded as in use, or a
    /// fresh id from its title.
    pub fn allocate_for_tree(&mut self, tree: &TopicTreeInputDto) -> (r: String)
        requires
            old(self).wf(),
            old(self).count() + 3 < usize::MAX,
        ensures
            final(self).wf(),
            final(self)@ == old(self)@.insert(r@),
            tree.id matches Some(id) ==> r@ == id@,
            tree.id is None ==> !old(self)@.contains(r@),
    {
        match &tree.id {
            Some(id) => {
                self.insert(id.clone());
                id.clone()
            },
            None => self.allocate(tree.title.as_str()),
        }
    }
}

} // verus!

//! Topic paths: the titles from the sheet root down to a topic, written `/A/B` with
//! `\` escaping a literal `/` or `\` inside a title.
use vstd::prelude::*;
use crate::text::{chars_of, clone_strings, push_all, string_from_chars};

verus! {

/// The chain of titles that leads from a sheet's root topic to a topic.
/// The root topic itself has the empty path.
#[derive(Clone, Debug, PartialEq, Eq)]
pub struct TopicPath {
    segments: Vec<String>,
}

/// Why a path selector value could not be read.
#[derive(Clone, Copy, Debug, PartialEq, Eq)]
pub enum PathError {
    /// The value does not start with `/`.
    MustBeAbsolute,
    /// The value ends in the middle of an escape sequence.
    IncompleteEscape,
}

impl View for TopicPath {
    type V = Seq<Seq<char>>;

    closed spec fn view(&self) -> Seq<Seq<char>> {
        self.segments.deep_view()
    }
}

/// The escaped form of one title character.
pub open spec fn escape_char_spec(c: char) -> Seq<char> {
    if c == '\\' {
        seq!['\\', '\\']
    } else if c == '/' {
        seq!['\\', '/']
    } else {
        seq![c]
    }
}

/// A title with every `\` and `/` preceded by `\`.
pub open spec fn escape_spec(seg: Seq<char>) -> Seq<char>
    decreases seg.len(),
{
    if seg.len() == 0 {
        seq![]
    } else {
        escape_spec(seg.drop_last()) + escape_char_spec(seg.last())
    }
}

/// The escaped titles of a non-empty path joined with `/`.
pub open spec fn join_escaped_spec(segs: Seq<Seq<char>>) -> Seq<char>
    decreases segs.len(),
{
    if segs.len() == 0 {
        seq![]
    } else if segs.len() == 1 {
        escape_spec(segs[0])
    } else {
        join_escaped_spec(segs.drop_last()) + seq!['/'] + escape_spec(segs.last())
    }
}

/// The selector value of a path: `/` for the root, otherwise `/` before each escaped title.
pub open spec fn render_path_spec(segs: Seq<Seq<char>>) -> Seq<char> {
    if segs.len() == 0 {
        seq!['/']
    } else {
        seq!['/'] + join_escaped_spec(segs)
    }
}

/// The reading state while splitting path text: finished titles, the title being read,
/// and whether the previous character was an unconsumed `\`.
pub type SplitState = (Seq<Seq<char>>, Seq<char>, bool);

/// The state before any character has been read.
pub open spec fn split_init() -> SplitState {
    (seq![], seq![], false)
}

/// Reads one character.
pub open spec fn split_step(st: SplitState, c: char) -> SplitState {
    if st.2 {
        (st.0, st.1.push(c), false)
    } else if c == '\\' {
        (st.0, st.1, true)
    } else if c == '/' {
        (st.0.push(st.1), seq![], false)
    } else {
        (st.0, st.1.push(c), false)
    }
}

/// Reads all characters of `s`, starting from `st`.
pub open spec fn split_run(st: SplitState, s: Seq<char>) -> SplitState
    decreases s.len(),
{
    if s.len() == 0 {
        st
    } else {
        split_step(split_run(st, s.drop_last()), s.last())
    }
}

/// The titles that path text (the part after the leading `/`) splits into.
pub open spec fn parse_segments_spec(s: Seq<char>) -> Result<Seq<Seq<char>>, PathError> {
    let st = split_run(split_init(), s);
    if st.2 {
        Err(PathError::IncompleteEscape)
    } else {
        Ok(st.0.push(st.1))
    }
}

/// What a path selector value reads as.
pub open spec fn parse_path_spec(input: Seq<char>) -> Result<Seq<Seq<char>>, PathError> {
    if input == seq!['/'] {
        Ok(seq![])
    } else if input.len() == 0 || input[0] != '/' {
        Err(PathError::MustBeAbsolute)
    } else {
        parse_segments_spec(input.drop_first())
    }
}

/// Reading text in two pieces is reading it at once.
pub proof fn lemma_split_run_concat(st: SplitState, a: Seq<char>, b: Seq<char>)
    ensures
        split_run(st, a + b) == split_run(split_run(st, a), b),
    decreases b.len(),
{
    if b.len() == 0 {
        assert(a + b =~= a);
    } else {
        assert((a + b).drop_last() =~= a + b.drop_last());
        assert((a + b).last() == b.last());
        lemma_split_run_concat(st, a, b.drop_last());
    }
}

proof fn lemma_split_run_push(st: SplitState, a: Seq<char>, c: char)
    ensures
        split_run(st, a.push(c)) == split_step(split_run(st, a), c),
{
    assert(a.push(c).drop_last() =~= a);
}

proof fn lemma_split_run_two(st: SplitState, x: char, y: char)
    ensures
        split_run(st, seq![x, y]) == split_step(split_step(st, x), y),
{
    assert(seq![x, y].drop_last() =~= seq![x]);
    assert(seq![x].drop_last() =~= Seq::<char>::empty());
    assert(split_run(st, Seq::<char>::empty()) == st);
    assert(split_run(st, seq![x]) == split_step(st, x));
    assert(split_run(st, seq![x, y]) == split_step(split_run(st, seq![x]), y));
}

/// Reading an escaped title appends that title to the one being read.
pub proof fn lemma_split_escaped(segs: Seq<Seq<char>>, cur: Seq<char>, a: Seq<char>)
    ensures
        split_run((segs, cur, false), escape_spec(a)) == (segs, cur + a, false),
    decreases a.len(),
{
    if a.len() == 0 {
        assert(cur + a =~= cur);
    } else {
        let a0 = a.drop_last();
        let c = a.last();
        lemma_split_escaped(segs, cur, a0);
        lemma_split_run_concat((segs, cur, false), escape_spec(a0), escape_char_spec(c));
        let mid = (segs, cur + a0, false);
        if c == '\\' || c == '/' {
            lemma_split_run_two(mid, '\\', c);
        } else {
            assert(seq![c].drop_last() =~= Seq::<char>::empty());
            assert(split_run(mid, Seq::<char>::empty()) == mid);
            assert(split_run(mid, seq![c]) == split_step(mid, c));
        }
        assert(escape_spec(a) == escape_spec(a0) + escape_char_spec(c));
        assert((cur + a0).push(c) =~= cur + a);
    }
}

/// Reading the joined escaped titles leaves all but the last finished and the last
/// being read.
pub proof fn lemma_split_joined(segs: Seq<Seq<char>>)
    requires
        segs.len() >= 1,
    ensures
        split_run(split_init(), join_escaped_spec(segs)) == (segs.drop_last(), segs.last(), false),
    decreases segs.len(),
{
    if segs.len() == 1 {
        lemma_split_escaped(seq![], seq![], segs[0]);
        assert(Seq::<char>::empty() + segs[0] =~= segs[0]);
        assert(segs.drop_last() =~= Seq::<Seq<char>>::empty());
    } else {
        let init = segs.drop_last();
        lemma_split_joined(init);
        let j = join_escaped_spec(init);
        lemma_split_run_concat(split_init(), j + seq!['/'], escape_spec(segs.last()));
        lemma_split_run_push(split_init(), j, '/');
        assert(j + seq!['/'] =~= j.push('/'));
        assert(init.drop_last().push(init.last()) =~= init);
        lemma_split_escaped(init, seq![], segs.last());
        assert(Seq::<char>::empty() + segs.last() =~= segs.last());
    }
}

/// An escaped title is never shorter than the title.
proof fn lemma_escape_len(seg: Seq<char>)
    ensures
        escape_spec(seg).len() >= seg.len(),
    decreases seg.len(),
{
    if seg.len() > 0 {
        lemma_escape_len(seg.drop_last());
    }
}

proof fn lemma_join_escaped_nonempty(segs: Seq<Seq<char>>)
    requires
        segs.len() >= 2 || (segs.len() == 1 && segs[0].len() > 0),
    ensures
        join_escaped_spec(segs).len() > 0,
{
    if segs.len() == 1 {
        lemma_escape_len(segs[0]);
    }
}

/// Rendering a path and reading it back gives the same titles. The one path for which
/// this fails is the path of a single empty title, which renders as `/`, the root.
pub proof fn lemma_path_round_trip(segs: Seq<Seq<char>>)
    requires
        !(segs.len() == 1 && segs[0].len() == 0),
    ensures
        parse_path_spec(render_path_spec(segs)) == Ok::<Seq<Seq<char>>, PathError>(segs),
{
    if segs.len() > 0 {
        lemma_join_escaped_nonempty(segs);
        let r = render_path_spec(segs);
        assert(r.drop_first() =~= join_escaped_spec(segs));
        assert(r[0] == '/');
        assert(r != seq!['/']) by {
            assert(r.len() > 1);
        }
        lemma_split_joined(segs);
        let st = split_run(split_init(), join_escaped_spec(segs));
        assert(segs.drop_last().push(segs.last()) =~= segs);
        assert(st.0.push(st.1) == segs);
        assert(parse_segments_spec(r.drop_first()) == Ok::<Seq<Seq<char>>, PathError>(segs));
    } else {
        assert(render_path_spec(segs) == seq!['/']);
        assert(segs =~= Seq::<Seq<char>>::empty());
    }
}

/// Reads path text (the part after the leading `/`) into titles.
fn parse_segments(cs: &[char], start: usize) -> (r: Result<Vec<String>, PathError>)
    requires
        start <= cs@.len(),
    ensures
        match (r, parse_segments_spec(cs@.skip(start as int))) {
            (Ok(v), Ok(s)) => v.deep_view() == s,
            (Err(e), Err(f)) => e == f,
            _ => false,
        },
{
    let ghost rest = cs@.skip(start as int);
    let mut segments: Vec<String> = Vec::new();
    let mut current: Vec<char> = Vec::new();
    let mut escaped = false;
    let mut i: usize = start;
    while i < cs.len()
        invariant
            start <= i <= cs@.len(),
            rest == cs@.skip(start as int),
            (segments.deep_view(), current@, escaped) == split_run(
                split_init(),
                rest.take(i - start),
            ),
        decreases cs@.len() - i,
    {
        let c = cs[i];
        proof {
            assert(rest.take(i + 1 - start) =~= rest.take(i - start).push(c));
            lemma_split_run_push(split_init(), rest.take(i - start), c);
        }
        if escaped {
            current.push(c);
            escaped = false;
        } else if c == '\\' {
            escaped = true;
        } else if c == '/' {
            let seg = string_from_chars(current.as_slice());
            let ghost before = segments.deep_view();
            segments.push(seg);
            proof {
                assert(segments.deep_view() =~= before.push(current@));
            }
            current = Vec::new();
        } else {
            current.push(c);
        }
        i = i + 1;
    }
    proof {
        assert(rest.take(i - start) =~= rest);
    }
    if escaped {
        return Err(PathError::IncompleteEscape);
    }
    let seg = string_from_chars(current.as_slice());
    let ghost before = segments.deep_view();
    segments.push(seg);
    proof {
        assert(segments.deep_view() =~= before.push(current@));
    }
    Ok(segments)
}

/// Appends the escaped form of `seg` to `out`.
fn push_escaped(out: &mut Vec<char>, seg: &str)
    ensures
        final(out)@ == old(out)@ + escape_spec(seg@),
{
    let cs = chars_of(seg);
    let mut j: usize = 0;
    while j < cs.len()
        invariant
            j <= cs@.len(),
            cs@ == seg@,
            out@ == old(out)@ + escape_spec(cs@.take(j as int)),
        decreases cs@.len() - j,
    {
        let c = cs[j];
        proof {
            assert(cs@.take(j + 1).drop_last() =~= cs@.take(j as int));
        }
        if c == '\\' {
            out.push('\\');
            out.push('\\');
        } else if c == '/' {
            out.push('\\');
            out.push('/');
        } else {
            out.push(c);
        }
        j = j + 1;
        proof {
            assert(out@ =~= old(out)@ + escape_spec(cs@.take(j as int)));
        }
    }
    proof {
        assert(cs@.take(cs@.len() as int) =~= cs@);
    }
}

impl TopicPath {
    /// The path of the sheet's root topic.
    pub fn root() -> (r: Self)
        ensures
            r@ == Seq::<Seq<char>>::empty(),
    {
        let r = TopicPath { segments: Vec::new() };
        proof {
            assert(r@ =~= Seq::<Seq<char>>::empty());
        }
        r
    }

    /// The path made of the given titles.
    pub fn from_segments(segments: Vec<String>) -> (r: Self)
        ensures
            r@ == segments.deep_view(),
    {
        TopicPath { segments }
    }

    /// Reads a path selector value such as `/Q2/Payment`.
    pub fn parse_selector_value(input: &str) -> (r: Result<Self, PathError>)
        ensures
            match (r, parse_path_spec(input@)) {
                (Ok(p), Ok(s)) => p@ == s,
                (Err(e), Err(f)) => e == f,
                _ => false,
            },
    {
        let cs = chars_of(input);
        if cs.len() == 1 && cs[0] == '/' {
            proof {
                assert(cs@ =~= seq!['/']);
            }
            return Ok(Self::root());
        }
        if cs.len() == 0 || cs[0] != '/' {
            proof {
                if cs@.len() == 0 {
                    assert(cs@ != seq!['/']);
                } else {
                    assert(cs@[0] != seq!['/'][0]);
                }
            }
            return Err(PathError::MustBeAbsolute);
        }
        proof {
            assert(cs@ != seq!['/']) by {
                assert(cs@.len() != 1);
            }
            assert(cs@.skip(1) =~= cs@.drop_first());
        }
        match parse_segments(cs.as_slice(), 1) {
            Ok(segments) => Ok(Self::from_segments(segments)),
            Err(e) => Err(e),
        }
    }

    /// The selector value of this path: `/` for the root, otherwise each title escaped
    /// and preceded by `/`.
    pub fn to_selector_value(&self) -> (r: String)
        ensures
            r@ == render_path_spec(self@),
    {
        let mut out: Vec<char> = Vec::new();
        out.push('/');
        let n = self.segments.len();
        let mut i: usize = 0;
        while i < n
            invariant
                n == self@.len(),
                n == self.segments@.len(),
                self@ == self.segments.deep_view(),
                i <= n,
                i == 0 ==> out@ == seq!['/'],
                i > 0 ==> out@ == seq!['/'] + join_escaped_spec(self@.take(i as int)),
            decreases n - i,
        {
            let ghost before = out@;
            if i > 0 {
                out.push('/');
            }
            push_escaped(&mut out, self.segments[i].as_str());
            proof {
                let t = self@.take(i + 1);
                assert(t.drop_last() =~= self@.take(i as int));
                assert(t.last() == self@[i as int]);
                assert(self@[i as int] == self.segments@[i as int]@);
                if i == 0 {
                    assert(t.len() == 1);
                    assert(out@ =~= seq!['/'] + join_escaped_spec(t));
                } else {
                    assert(out@ =~= seq!['/'] + join_escaped_spec(t));
                }
            }
            i = i + 1;
        }
        proof {
            assert(self@.take(n as int) =~= self@);
        }
        string_from_chars(out.as_slice())
    }

    /// Whether this is the root topic's path.
    pub fn is_root(&self) -> (r: bool)
        ensures
            r == (self@.len() == 0),
    {
        self.segments.len() == 0
    }

    /// The titles of this path, from the root's child down.
    pub fn segments(&self) -> (r: &[String])
        ensures
            r@.map_values(|s: String| s@) == self@,
    {
        let r = self.segments.as_slice();
        proof {
            assert(r@.map_values(|s: String| s@) =~= self@);
        }
        r
    }

    /// The number of titles in this path.
    pub fn len(&self) -> (r: usize)
        ensures
            r == self@.len(),
    {
        self.segments.len()
    }

    /// The title at position `i`.
    pub fn segment(&self, i: usize) -> (r: &String)
        requires
            i < self@.len(),
        ensures
            r@ == self@[i as int],
    {
        &self.segments[i]
    }

    /// The path of a child titled `segment` of the topic at this path.
    pub fn join(&self, segment: String) -> (r: Self)
        ensures
            r@ == self@.push(segment@),
    {
        let mut segments = clone_strings(&self.segments);
        let ghost before = segments.deep_view();
        segments.push(segment);
        let r = TopicPath { segments };
        proof {
            assert(r@ =~= before.push(segment@));
        }
        r
    }

    /// The path of the parent topic; the root is its own parent.
    pub fn parent(&self) -> (r: Self)
        ensures
            self@.len() > 0 ==> r@ == self@.drop_last(),
            self@.len() == 0 ==> r@ == self@,
    {
        let mut segments = clone_strings(&self.segments);
        if segments.len() > 0 {
            let ghost before = segments.deep_view();
            segments.pop();
            let r = TopicPath { segments };
            proof {
                assert(r@ =~= before.drop_last());
            }
            r
        } else {
            TopicPath { segments }
        }
    }

    /// A copy of this path.
    pub fn duplicate(&self) -> (r: Self)
        ensures
            r@ == self@,
    {
        TopicPath { segments: clone_strings(&self.segments) }
    }

    /// Whether this path is `ancestor` or lies below it.
    pub fn is_same_or_descendant_of(&self, ancestor: &TopicPath) -> (r: bool)
        ensures
            r == (ancestor@.len() <= self@.len() && self@.take(ancestor@.len() as int)
                == ancestor@),
    {
        let n = ancestor.segments.len();
        if n > self.segments.len() {
            return false;
        }
        let mut i: usize = 0;
        while i < n
            invariant
                n == ancestor@.len(),
                n <= self@.len(),
                ancestor@ == ancestor.segments.deep_view(),
                self@ == self.segments.deep_view(),
                i <= n,
                forall|k: int| 0 <= k < i ==> self@[k] == ancestor@[k],
            decreases n - i,
        {
            if !crate::text::str_equal(self.segments[i].as_str(), ancestor.segments[i].as_str()) {
                proof {
                    assert(self@.take(n as int)[i as int] != ancestor@[i as int]);
                }
                return false;
            }
            i = i + 1;
        }
        proof {
            assert(self@.take(n as int) =~= ancestor@);
        }
        true
    }
}

/// Whether every title of `path` is `ancestor`'s title at the same position and
/// `ancestor` is no longer than `path`.
pub open spec fn is_prefix_path(path: Seq<Seq<char>>, ancestor: Seq<Seq<char>>) -> bool {
    ancestor.len() <= path.len() && path.take(ancestor.len() as int) == ancestor
}

impl PathError {
    /// The human-readable description of this error.
    pub fn message(&self) -> (r: String)
        ensures
            r@ == path_error_message(*self),
    {
        match self {
            PathError::MustBeAbsolute => "topic path must be absolute".to_owned(),
            PathError::IncompleteEscape => "topic path contains an incomplete escape sequence".to_owned(),
        }
    }
}

/// The description of each path error.
pub open spec fn path_error_message(e: PathError) -> Seq<char> {
    match e {
        PathError::MustBeAbsolute => "topic path must be absolute"@,
        PathError::IncompleteEscape => "topic path contains an incomplete escape sequence"@,
    }
}

} // verus!

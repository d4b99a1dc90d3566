//! Markdown outlines as topic trees: headings and list items become topics, other text
//! becomes the note of the topic above it.
use vstd::prelude::*;
use crate::app::tree_input::{TopicTreeImageInputDto, TopicTreeInputDto};
use crate::cli::args::MarkdownMode;
use crate::infra::xmind::content::opt_text;
use crate::infra::xmind::encode::{split_on, split_chars, vec_views};
use crate::text::{
    chars_of, decimal, decimal_spec, ends_with_spec, leading_count, occurs_at, push_all,
    starts_with, starts_with_spec, string_from_chars, trim, trim_spec, trim_start, trim_start_spec,
    is_ascii_digit_spec, join_spec,
};

verus! {

/// The lines of a text as `str::lines` gives them: split at each `\n`, a `\r` before
/// it dropped, and no empty last line after a final `\n`.
pub open spec fn lines_spec(s: Seq<char>) -> Seq<Seq<char>> {
    let parts = split_on(s, '\n');
    let ended = parts.drop_last().map_values(
        |p: Seq<char>|
            if p.len() > 0 && p.last() == '\r' {
                p.drop_last()
            } else {
                p
            },
    );
    if parts.last().len() > 0 {
        ended.push(parts.last())
    } else {
        ended
    }
}

/// Splits a text into lines as `str::lines` does.
pub fn text_lines(s: &str) -> (r: Vec<Vec<char>>)
    ensures
        vec_views(r@) == lines_spec(s@),
{
    let cs = chars_of(s);
    let parts = split_chars(cs.as_slice(), '\n');
    proof {
        crate::infra::xmind::encode::lemma_split_on_len(s@, '\n');
    }
    let ghost pv = vec_views(parts@);
    let mut out: Vec<Vec<char>> = Vec::new();
    let n = parts.len();
    let mut i: usize = 0;
    while i + 1 < n
        invariant
            n == parts@.len(),
            n >= 1,
            i + 1 <= n,
            pv == vec_views(parts@),
            vec_views(out@) == pv.drop_last().take(i as int).map_values(
                |p: Seq<char>|
                    if p.len() > 0 && p.last() == '\r' {
                        p.drop_last()
                    } else {
                        p
                    },
            ),
        decreases n - i,
    {
        let p = &parts[i];
        let mut line: Vec<char> = crate::text::copy_chars(p.as_slice());
        if line.len() > 0 && line[line.len() - 1] == '\r' {
            line.pop();
        }
        let ghost before = vec_views(out@);
        out.push(line);
        proof {
            assert(pv[i as int] == p@);
            assert(vec_views(out@) =~= before.push(line@));
            assert(pv.drop_last().take(i + 1) =~= pv.drop_last().take(i as int).push(pv[i as int]));
        }
        i = i + 1;
    }
    proof {
        assert(pv.drop_last().take(i as int) =~= pv.drop_last());
    }
    let last = &parts[n - 1];
    if last.len() > 0 {
        let ghost before = vec_views(out@);
        out.push(crate::text::copy_chars(last.as_slice()));
        proof {
            assert(vec_views(out@) =~= before.push(pv.last()));
        }
    }
    out
}

/// The first position at or after `i` where `needle` occurs in `hay`.
pub open spec fn occurrence_from(hay: Seq<char>, needle: Seq<char>, i: int) -> Option<int>
    decreases hay.len() + 1 - i,
{
    if i < 0 || i + needle.len() > hay.len() {
        None
    } else if occurs_at(hay, needle, i) {
        Some(i)
    } else {
        occurrence_from(hay, needle, i + 1)
    }
}

proof fn lemma_occurrence_from(hay: Seq<char>, needle: Seq<char>, i: int, r: Option<int>)
    requires
        0 <= i,
        forall|k: int| 0 <= k < i ==> !occurs_at(hay, needle, k),
        match r {
            Some(p) => occurs_at(hay, needle, p) && forall|k: int| 0 <= k < p ==> !occurs_at(hay, needle, k),
            None => !crate::text::contains_spec(hay, needle),
        },
    ensures
        occurrence_from(hay, needle, i) == r,
    decreases hay.len() + 1 - i,
{
    if i + needle.len() > hay.len() {
        if let Some(p) = r {
            assert(p + needle.len() <= hay.len());
            assert(p < i);
        }
    } else if occurs_at(hay, needle, i) {
        if let Some(p) = r {
            assert(p >= i);
            assert(p <= i);
        } else {
            assert(hay.subrange(i, i + needle.len()) == needle);
        }
    } else {
        if let Some(p) = r {
            assert(p != i);
        }
        lemma_occurrence_from(hay, needle, i + 1, r);
    }
}

/// The first position of `needle` in `hay`.
pub fn find_first(hay: &[char], needle: &str) -> (r: Option<usize>)
    ensures
        match occurrence_from(hay@, needle@, 0) {
            Some(p) => r matches Some(x) && x as int == p,
            None => r is None,
        },
{
    let n = chars_of(needle);
    let r = crate::text::find(hay, n.as_slice());
    proof {
        let g: Option<int> = match r {
            Some(p) => Some(p as int),
            None => None,
        };
        lemma_occurrence_from(hay@, needle@, 0, g);
    }
    r
}

/// The number of leading spaces.
pub open spec fn spaces(l: Seq<char>) -> nat {
    leading_count(l, |c: char| c == ' ')
}

/// The position of the first `. ` in a line.
pub open spec fn dot_index(t: Seq<char>) -> Option<int> {
    occurrence_from(t, ". "@, 0)
}

/// Whether every character is an ASCII digit.
pub open spec fn all_ascii_digits(s: Seq<char>) -> bool {
    forall|i: int| 0 <= i < s.len() ==> is_ascii_digit_spec(#[trigger] s[i])
}

/// Whether a trimmed line starts an ordered list item: digits, then `. `.
pub open spec fn is_ordered(t: Seq<char>) -> bool {
    match dot_index(t) {
        Some(d) => d > 0 && all_ascii_digits(t.take(d)),
        None => false,
    }
}

/// The text after a list item's marker, if a trimmed line is a list item.
pub open spec fn list_title_text(t: Seq<char>) -> Option<Seq<char>> {
    if starts_with_spec(t, "- "@) {
        Some(t.skip(2))
    } else {
        match dot_index(t) {
            Some(d) => if is_ordered(t) {
                Some(t.skip(d + 2))
            } else {
                None
            },
            None => None,
        }
    }
}

/// A title without a leading task box.
pub open spec fn strip_task(t: Seq<char>) -> Seq<char> {
    if starts_with_spec(t, "[ ]"@) || starts_with_spec(t, "[x]"@) || starts_with_spec(t, "[X]"@) {
        t.skip(3)
    } else {
        t
    }
}

/// The error a line's indentation earns: unordered items indent by twos, ordered items
/// by threes.
pub open spec fn indent_error(l: Seq<char>, ln: nat) -> Option<Seq<char>> {
    let t = trim_start_spec(l);
    if starts_with_spec(t, "- "@) && spaces(l) % 2 != 0 {
        Some("Markdown unordered list indentation must use multiples of 2 spaces at line "@ + decimal_spec(ln) + "."@)
    } else if is_ordered(t) && spaces(l) % 3 != 0 {
        Some("Markdown ordered list indentation must use multiples of 3 spaces at line "@ + decimal_spec(ln) + "."@)
    } else {
        None
    }
}

/// The error a list item without a title earns.
pub open spec fn title_error(l: Seq<char>, ln: nat) -> Option<Seq<char>> {
    match list_title_text(trim_start_spec(l)) {
        Some(title) => if trim_spec(strip_task(trim_spec(title))).len() == 0 {
            Some("Markdown list item title is empty at line "@ + decimal_spec(ln) + "."@)
        } else {
            None
        },
        None => None,
    }
}

/// A topic of an outline: title, note, markers and children.
pub struct MdNode {
    pub title: Seq<char>,
    pub note: Option<Seq<char>>,
    pub markers: Seq<Seq<char>>,
    pub children: Seq<MdNode>,
}

/// A topic with a title and nothing else.
pub open spec fn md_leaf(title: Seq<char>, markers: Seq<Seq<char>>) -> MdNode {
    MdNode { title, note: None, markers, children: seq![] }
}

/// The topic a list item's text makes: a task box becomes a marker; no topic without a
/// title.
pub open spec fn list_topic(title: Seq<char>) -> Option<MdNode> {
    let (t, m) = if starts_with_spec(title, "[ ] "@) {
        (trim_spec(title.skip(4)), seq!["task-open"@])
    } else if starts_with_spec(title, "[x] "@) || starts_with_spec(title, "[X] "@) {
        (trim_spec(title.skip(4)), seq!["task-done"@])
    } else {
        (title, seq![])
    };
    if t.len() == 0 {
        None
    } else {
        Some(md_leaf(t, m))
    }
}

/// A list item line: its level (one more than its indent in steps of two for `- `
/// items, of three for ordered ones) and its topic.
pub open spec fn list_item(l: Seq<char>) -> Option<(nat, MdNode)> {
    let t = trim_start_spec(l);
    if starts_with_spec(t, "- "@) {
        match list_topic(trim_spec(t.skip(2))) {
            Some(node) => Some((spaces(l) / 2 + 1, node)),
            None => None,
        }
    } else {
        match dot_index(t) {
            Some(d) => if d == 0 || !all_ascii_digits(t.take(d)) {
                None
            } else {
                match list_topic(trim_spec(t.skip(d + 2))) {
                    Some(node) => Some((spaces(l) / 3 + 1, node)),
                    None => None,
                }
            },
            None => None,
        }
    }
}

/// A heading line: from one to six `#`, then a title that is not blank.
pub open spec fn heading(l: Seq<char>) -> Option<(nat, Seq<char>)> {
    let t = trim_start_spec(l);
    let lv = leading_count(t, |c: char| c == '#');
    if lv == 0 || lv > 6 {
        None
    } else {
        let title = trim_spec(t.skip(lv as int));
        if title.len() == 0 {
            None
        } else {
            Some((lv, title))
        }
    }
}

/// The number of leading characters equal to `c`.
pub fn count_leading(l: &[char], c: char) -> (r: usize)
    ensures
        r == leading_count(l@, |x: char| x == c),
{
    let mut i: usize = 0;
    while i < l.len() && l[i] == c
        invariant
            i <= l@.len(),
            forall|k: int| 0 <= k < i ==> #[trigger] l@[k] == c,
        decreases l@.len() - i,
    {
        i = i + 1;
    }
    proof {
        crate::text::lemma_leading_count_from(l@, |x: char| x == c, i as int);
    }
    i
}

fn tail_from(cs: &[char], from: usize) -> (r: Vec<char>)
    requires
        from <= cs@.len(),
    ensures
        r@ == cs@.skip(from as int),
{
    let r = crate::text::slice_chars(cs, from, cs.len());
    proof {
        assert(cs@.subrange(from as int, cs@.len() as int) =~= cs@.skip(from as int));
    }
    r
}

fn starts(cs: &[char], prefix: &str) -> (r: bool)
    ensures
        r == starts_with_spec(cs@, prefix@),
{
    let p = chars_of(prefix);
    starts_with(cs, p.as_slice())
}

fn digits_only(cs: &[char], n: usize) -> (r: bool)
    requires
        n <= cs@.len(),
    ensures
        r == all_ascii_digits(cs@.take(n as int)),
{
    let mut i: usize = 0;
    while i < n
        invariant
            i <= n <= cs@.len(),
            forall|k: int| 0 <= k < i ==> is_ascii_digit_spec(#[trigger] cs@[k]),
        decreases n - i,
    {
        if !('0' <= cs[i] && cs[i] <= '9') {
            proof {
                assert(cs@.take(n as int)[i as int] == cs@[i as int]);
            }
            return false;
        }
        i = i + 1;
    }
    proof {
        assert forall|k: int| 0 <= k < n implies is_ascii_digit_spec(#[trigger] cs@.take(n as int)[k]) by {
            assert(cs@.take(n as int)[k] == cs@[k]);
        }
    }
    true
}

proof fn lemma_dot_bound(t: Seq<char>)
    ensures
        dot_index(t) matches Some(d) ==> 0 <= d && d + 2 <= t.len(),
{
    lemma_occurrence_bound(t, ". "@, 0);
    reveal_strlit(". ");
}

proof fn lemma_occurrence_bound(hay: Seq<char>, needle: Seq<char>, i: int)
    ensures
        occurrence_from(hay, needle, i) matches Some(p) ==> i <= p && p + needle.len() <= hay.len(),
    decreases hay.len() + 1 - i,
{
    if !(i < 0 || i + needle.len() > hay.len()) && !occurs_at(hay, needle, i) {
        lemma_occurrence_bound(hay, needle, i + 1);
    }
}

/// Whether a trimmed line starts an ordered list item.
pub fn is_ordered_markdown_list_item(t: &[char]) -> (r: bool)
    ensures
        r == is_ordered(t@),
{
    proof {
        lemma_dot_bound(t@);
    }
    match find_first(t, ". ") {
        Some(d) => d > 0 && digits_only(t, d),
        None => false,
    }
}

/// The text after a list item's marker.
pub fn markdown_list_title_text(t: &[char]) -> (r: Option<Vec<char>>)
    ensures
        match list_title_text(t@) {
            Some(x) => r matches Some(v) && v@ == x,
            None => r is None,
        },
{
    proof {
        lemma_dot_bound(t@);
    }
    if starts(t, "- ") {
        proof {
            reveal_strlit("- ");
        }
        return Some(tail_from(t, 2));
    }
    let n = t.len();
    match find_first(t, ". ") {
        Some(d) => if is_ordered_markdown_list_item(t) {
            proof {
                assert(d + 2 <= n);
            }
            Some(tail_from(t, d + 2))
        } else {
            None
        },
        None => None,
    }
}

/// A title without a leading task box.
pub fn strip_markdown_task_marker(t: &[char]) -> (r: Vec<char>)
    ensures
        r@ == strip_task(t@),
{
    if starts(t, "[ ]") || starts(t, "[x]") || starts(t, "[X]") {
        proof {
            reveal_strlit("[ ]");
            reveal_strlit("[x]");
            reveal_strlit("[X]");
        }
        tail_from(t, 3)
    } else {
        crate::text::copy_chars(t)
    }
}

fn line_message(prefix: &str, ln: usize) -> (r: String)
    ensures
        r@ == prefix@ + decimal_spec(ln as nat) + "."@,
{
    let mut cs = chars_of(prefix);
    let d = decimal(ln);
    push_all(&mut cs, d.as_slice());
    let dot = chars_of(".");
    push_all(&mut cs, dot.as_slice());
    string_from_chars(cs.as_slice())
}

/// Checks a line's indentation.
pub fn validate_markdown_list_indent(line: &[char], line_number: usize) -> (r: Result<(), String>)
    ensures
        match indent_error(line@, line_number as nat) {
            Some(e) => r matches Err(m) && m@ == e,
            None => r is Ok,
        },
{
    let indent = count_leading(line, ' ');
    let t = trim_start(line);
    if starts(t.as_slice(), "- ") && indent % 2 != 0 {
        return Err(line_message("Markdown unordered list indentation must use multiples of 2 spaces at line ", line_number));
    }
    if is_ordered_markdown_list_item(t.as_slice()) && indent % 3 != 0 {
        return Err(line_message("Markdown ordered list indentation must use multiples of 3 spaces at line ", line_number));
    }
    Ok(())
}

/// Checks that a list item has a title.
pub fn validate_markdown_list_title(line: &[char], line_number: usize) -> (r: Result<(), String>)
    ensures
        match title_error(line@, line_number as nat) {
            Some(e) => r matches Err(m) && m@ == e,
            None => r is Ok,
        },
{
    let t = trim_start(line);
    match markdown_list_title_text(t.as_slice()) {
        Some(title) => {
            let a = trim(title.as_slice());
            let b = strip_markdown_task_marker(a.as_slice());
            let c = trim(b.as_slice());
            if c.len() == 0 {
                Err(line_message("Markdown list item title is empty at line ", line_number))
            } else {
                Ok(())
            }
        },
        None => Ok(()),
    }
}

/// Whether `t` is the input tree of the outline topic `n`.
pub open spec fn node_is(t: TopicTreeInputDto, n: MdNode) -> bool
    decreases t,
{
    &&& t.title@ == n.title
    &&& crate::infra::xmind::content::opt_text(t.note) == n.note
    &&& t.markers.deep_view() == n.markers
    &&& t.id is None
    &&& t.path is None
    &&& t.labels@.len() == 0
    &&& t.image is None
    &&& t.children@.len() == n.children.len()
    &&& forall|i: int| 0 <= i < t.children@.len() ==> node_is(#[trigger] t.children@[i], n.children[i])
}

fn leaf(title: Vec<char>, marker: Option<&str>) -> (r: TopicTreeInputDto)
    ensures
        node_is(r, md_leaf(title@, match marker {
            Some(m) => seq![m@],
            None => seq![],
        })),
{
    let mut node = TopicTreeInputDto::new(string_from_chars(title.as_slice()));
    match marker {
        Some(m) => {
            node.markers.push(m.to_string());
            proof {
                assert(node.markers.deep_view() =~= seq![m@]);
            }
        },
        None => {
            proof {
                assert(node.markers.deep_view() =~= Seq::<Seq<char>>::empty());
            }
        },
    }
    node
}

/// The topic a list item's text makes.
pub fn parse_markdown_list_topic(title: &[char]) -> (r: Option<TopicTreeInputDto>)
    ensures
        match list_topic(title@) {
            Some(n) => r matches Some(t) && node_is(t, n),
            None => r is None,
        },
{
    proof {
        reveal_strlit("[ ] ");
        reveal_strlit("[x] ");
        reveal_strlit("[X] ");
    }
    let (t, marker): (Vec<char>, Option<&str>) = if starts(title, "[ ] ") {
        let rest = tail_from(title, 4);
        (trim(rest.as_slice()), Some("task-open"))
    } else if starts(title, "[x] ") || starts(title, "[X] ") {
        let rest = tail_from(title, 4);
        (trim(rest.as_slice()), Some("task-done"))
    } else {
        (crate::text::copy_chars(title), None)
    };
    if t.len() == 0 {
        return None;
    }
    Some(leaf(t, marker))
}

/// A list item line: its level and topic.
pub fn parse_markdown_list_item(line: &[char]) -> (r: Option<(usize, TopicTreeInputDto)>)
    ensures
        match list_item(line@) {
            Some((lv, n)) => r matches Some((l, t)) && l == lv && node_is(t, n),
            None => r is None,
        },
{
    let indent = count_leading(line, ' ');
    proof {
        crate::text::lemma_leading_count_bound(line@, |x: char| x == ' ');
    }
    let t = trim_start(line);
    proof {
        lemma_dot_bound(t@);
        reveal_strlit("- ");
    }
    if starts(t.as_slice(), "- ") {
        let rest = tail_from(t.as_slice(), 2);
        let title = trim(rest.as_slice());
        return match parse_markdown_list_topic(title.as_slice()) {
            Some(node) => Some((indent / 2 + 1, node)),
            None => None,
        };
    }
    let d = match find_first(t.as_slice(), ". ") {
        Some(d) => d,
        None => {
            return None;
        },
    };
    if d == 0 || !digits_only(t.as_slice(), d) {
        return None;
    }
    let rest = tail_from(t.as_slice(), d + 2);
    let title = trim(rest.as_slice());
    match parse_markdown_list_topic(title.as_slice()) {
        Some(node) => Some((indent / 3 + 1, node)),
        None => None,
    }
}

/// A heading line: its level and title.
pub fn parse_markdown_heading(line: &[char]) -> (r: Option<(usize, Vec<char>)>)
    ensures
        match heading(line@) {
            Some((lv, title)) => r matches Some((l, t)) && l == lv && t@ == title,
            None => r is None,
        },
{
    let t = trim_start(line);
    let level = count_leading(t.as_slice(), '#');
    proof {
        crate::text::lemma_leading_count_bound(t@, |x: char| x == '#');
    }
    if level == 0 || level > 6 {
        return None;
    }
    let rest = tail_from(t.as_slice(), level);
    let title = trim(rest.as_slice());
    if title.len() == 0 {
        return None;
    }
    Some((level, title))
}

/// Where the outline parser stands: the open topics with their levels and line numbers,
/// the finished top-level topics with their line numbers, and the current heading level.
pub struct MdState {
    pub stack: Seq<(nat, nat, MdNode)>,
    pub roots: Seq<(nat, MdNode)>,
    pub heading: nat,
}

/// A topic with one more child.
pub open spec fn with_child(n: MdNode, c: MdNode) -> MdNode {
    MdNode { children: n.children.push(c), ..n }
}

/// The state with the innermost open topic closed: it becomes the last child of the
/// topic under it, or a top-level topic.
pub open spec fn attach_top(st: MdState) -> MdState {
    let top = st.stack.last();
    let rest = st.stack.drop_last();
    if rest.len() > 0 {
        let p = rest.last();
        MdState { stack: rest.update(rest.len() - 1, (p.0, p.1, with_child(p.2, top.2))), ..st }
    } else {
        MdState { stack: rest, roots: st.roots.push((top.1, top.2)), ..st }
    }
}

/// The state with every open topic at `level` or deeper closed.
pub open spec fn collapse(st: MdState, level: nat) -> MdState
    decreases st.stack.len(),
{
    if st.stack.len() > 0 && st.stack.last().0 >= level {
        collapse(attach_top(st), level)
    } else {
        st
    }
}

/// A topic with a line of text added to its note.
pub open spec fn with_note(n: MdNode, line: Seq<char>) -> MdNode {
    let l = trim_spec(line);
    if l.len() == 0 {
        n
    } else {
        MdNode {
            note: Some(
                match n.note {
                    Some(x) => x + "\n"@ + l,
                    None => l,
                },
            ),
            ..n
        }
    }
}

/// A topic with each of `lines` added to its note in turn.
pub open spec fn with_notes(n: MdNode, lines: Seq<Seq<char>>) -> MdNode
    decreases lines.len(),
{
    if lines.len() == 0 {
        n
    } else {
        with_note(with_notes(n, lines.drop_last()), lines.last())
    }
}

/// The lines that are not blank, each trimmed, in order.
pub open spec fn text_lines_kept(lines: Seq<Seq<char>>) -> Seq<Seq<char>>
    decreases lines.len(),
{
    if lines.len() == 0 {
        seq![]
    } else if trim_spec(lines.last()).len() == 0 {
        text_lines_kept(lines.drop_last())
    } else {
        text_lines_kept(lines.drop_last()).push(trim_spec(lines.last()))
    }
}

/// A note made of the given lines, one per line; none for no lines.
pub open spec fn note_of_lines(parts: Seq<Seq<char>>) -> Option<Seq<char>> {
    if parts.len() == 0 {
        None
    } else {
        Some(join_spec(parts, "\n"@))
    }
}

/// The lines of a note: its text as one line, or none.
pub open spec fn note_parts(note: Option<Seq<char>>) -> Seq<Seq<char>> {
    match note {
        Some(x) => seq![x],
        None => seq![],
    }
}

/// No line of text is lost from a note: after text lines are added to a topic's note,
/// the note holds the note it had, then every line that is not blank, trimmed, in the
/// order given, one per line. Blank lines add nothing, and the topic's title, markers
/// and children stay as they were.
pub proof fn law_note_keeps_every_text_line(n: MdNode, lines: Seq<Seq<char>>)
    ensures
        with_notes(n, lines).note == note_of_lines(note_parts(n.note) + text_lines_kept(lines)),
        with_notes(n, lines).title == n.title,
        with_notes(n, lines).markers == n.markers,
        with_notes(n, lines).children == n.children,
    decreases lines.len(),
{
    if lines.len() > 0 {
        let prev = lines.drop_last();
        let line = lines.last();
        law_note_keeps_every_text_line(n, prev);
        let before = note_parts(n.note) + text_lines_kept(prev);
        let l = trim_spec(line);
        if l.len() == 0 {
            assert(note_parts(n.note) + text_lines_kept(lines) == before);
        } else {
            let after = note_parts(n.note) + text_lines_kept(lines);
            assert(after =~= before.push(l));
            assert(after.drop_last() =~= before);
            if before.len() == 0 {
                assert(after =~= seq![l]);
            }
        }
    } else {
        assert(note_parts(n.note) + text_lines_kept(lines) =~= note_parts(n.note));
        if n.note is Some {
            assert(note_parts(n.note).len() == 1);
        }
    }
}

/// The state with a line of text added to the note of the innermost open topic.
pub open spec fn note_top(st: MdState, line: Seq<char>) -> MdState {
    if st.stack.len() > 0 {
        let top = st.stack.last();
        MdState { stack: st.stack.update(st.stack.len() - 1, (top.0, top.1, with_note(top.2, line))), ..st }
    } else {
        st
    }
}

/// The state with a new topic opened at `lv`, the open topics at its level or deeper
/// closed first.
pub open spec fn open_topic(st: MdState, lv: nat, ln: nat, node: MdNode) -> MdState {
    let c = collapse(st, lv);
    MdState { stack: c.stack.push((lv, ln, node)), ..c }
}

/// The error for a heading that skips levels.
pub open spec fn skip_message(from: nat, to: nat, ln: nat) -> Seq<char> {
    "Markdown heading levels cannot skip from "@ + decimal_spec(from) + " to "@ + decimal_spec(to)
        + " at line "@ + decimal_spec(ln) + "."@
}

/// One line of the outline, line number `ln`.
pub open spec fn md_step(st: MdState, line: Seq<char>, ln: nat) -> Result<MdState, Seq<char>> {
    match indent_error(line, ln) {
        Some(e) => Err(e),
        None => match title_error(line, ln) {
            Some(e) => Err(e),
            None => match heading(line) {
                Some((lv, title)) => if st.heading > 0 && lv > st.heading + 1 {
                    Err(skip_message(st.heading, lv, ln))
                } else {
                    Ok(open_topic(MdState { heading: lv, ..st }, lv, ln, md_leaf(title, seq![])))
                },
                None => match list_item(line) {
                    Some((rel, node)) => Ok(open_topic(st, st.heading + rel, ln, node)),
                    None => Ok(note_top(st, line)),
                },
            },
        },
    }
}

/// The state after the first `n` lines.
pub open spec fn md_run(lines: Seq<Seq<char>>, n: int) -> Result<MdState, Seq<char>>
    decreases n,
{
    if n <= 0 {
        Ok(MdState { stack: seq![], roots: seq![], heading: 0 })
    } else {
        match md_run(lines, n - 1) {
            Ok(st) => md_step(st, lines[n - 1], n as nat),
            Err(e) => Err(e),
        }
    }
}

/// The tree of a Markdown outline: none for an outline without topics; an error for one
/// with two top-level topics, or at the first line that breaks the rules.
pub open spec fn outline_spec(content: Seq<char>) -> Result<Option<MdNode>, Seq<char>> {
    let ls = lines_spec(content);
    match md_run(ls, ls.len() as int) {
        Err(e) => Err(e),
        Ok(st) => {
            let fin = collapse(st, 0);
            if fin.roots.len() == 0 {
                Ok(None)
            } else if fin.roots.len() == 1 {
                Ok(Some(fin.roots[0].1))
            } else {
                Err(
                    "Markdown outline must contain one top-level root; second root starts at line "@
                        + decimal_spec(fin.roots[1].0) + "."@,
                )
            }
        },
    }
}

/// Whether the parser's stack holds the open topics `ss`.
pub open spec fn stack_is(es: Seq<(usize, usize, TopicTreeInputDto)>, ss: Seq<(nat, nat, MdNode)>) -> bool {
    es.len() == ss.len() && forall|i: int|
        0 <= i < es.len() ==> (#[trigger] es[i]).0 == ss[i].0 && es[i].1 == ss[i].1 && node_is(es[i].2, ss[i].2)
}

/// Whether the parser's finished topics are `rs`.
pub open spec fn roots_is(es: Seq<(usize, TopicTreeInputDto)>, rs: Seq<(nat, MdNode)>) -> bool {
    es.len() == rs.len() && forall|i: int| 0 <= i < es.len() ==> (#[trigger] es[i]).0 == rs[i].0 && node_is(es[i].1, rs[i].1)
}

proof fn lemma_with_child(p: TopicTreeInputDto, np: MdNode, c: TopicTreeInputDto, nc: MdNode, p2: TopicTreeInputDto)
    requires
        node_is(p, np),
        node_is(c, nc),
        p2.title == p.title,
        p2.note == p.note,
        p2.markers == p.markers,
        p2.id == p.id,
        p2.path == p.path,
        p2.labels == p.labels,
        p2.image == p.image,
        p2.children@ == p.children@.push(c),
    ensures
        node_is(p2, with_child(np, nc)),
{
    assert forall|i: int| 0 <= i < p2.children@.len() implies node_is(
        #[trigger] p2.children@[i],
        with_child(np, nc).children[i],
    ) by {
        if i < p.children@.len() {
            assert(p2.children@[i] == p.children@[i]);
        }
    }
}

fn close_top(stack: &mut Vec<(usize, usize, TopicTreeInputDto)>, roots: &mut Vec<(usize, TopicTreeInputDto)>, Ghost(g): Ghost<MdState>)
    requires
        old(stack)@.len() > 0,
        stack_is(old(stack)@, g.stack),
        roots_is(old(roots)@, g.roots),
    ensures
        stack_is(final(stack)@, attach_top(g).stack),
        roots_is(final(roots)@, attach_top(g).roots),
{
    let (_lv, ln, node) = stack.pop().unwrap();
    proof {
        assert(node_is(node, g.stack.last().2));
    }
    if stack.len() > 0 {
        let (plv, pln, mut parent) = stack.pop().unwrap();
        let ghost p0 = parent;
        proof {
            assert(node_is(parent, g.stack.drop_last().last().2));
        }
        parent.children.push(node);
        proof {
            lemma_with_child(p0, g.stack.drop_last().last().2, node, g.stack.last().2, parent);
        }
        stack.push((plv, pln, parent));
        proof {
            let gs = attach_top(g).stack;
            assert forall|i: int| 0 <= i < stack@.len() implies (#[trigger] stack@[i]).0 == gs[i].0 && stack@[i].1
                == gs[i].1 && node_is(stack@[i].2, gs[i].2) by {
                if i < stack@.len() - 1 {
                    assert(stack@[i] == old(stack)@[i]);
                }
            }
        }
    } else {
        roots.push((ln, node));
        proof {
            let gr = attach_top(g).roots;
            assert forall|i: int| 0 <= i < roots@.len() implies (#[trigger] roots@[i]).0 == gr[i].0 && node_is(
                roots@[i].1,
                gr[i].1,
            ) by {
                if i < roots@.len() - 1 {
                    assert(roots@[i] == old(roots)@[i]);
                }
            }
        }
    }
}

proof fn lemma_attach_len(st: MdState)
    requires
        st.stack.len() > 0,
    ensures
        attach_top(st).stack.len() == st.stack.len() - 1,
        attach_top(st).heading == st.heading,
{
}

fn close_to(stack: &mut Vec<(usize, usize, TopicTreeInputDto)>, roots: &mut Vec<(usize, TopicTreeInputDto)>, level: usize, Ghost(g): Ghost<MdState>)
    requires
        stack_is(old(stack)@, g.stack),
        roots_is(old(roots)@, g.roots),
    ensures
        stack_is(final(stack)@, collapse(g, level as nat).stack),
        roots_is(final(roots)@, collapse(g, level as nat).roots),
        collapse(g, level as nat).heading == g.heading,
{
    let ghost mut cur = g;
    while stack.len() > 0 && stack[stack.len() - 1].0 >= level
        invariant
            stack_is(stack@, cur.stack),
            roots_is(roots@, cur.roots),
            collapse(cur, level as nat) == collapse(g, level as nat),
            cur.heading == g.heading,
        decreases stack@.len(),
    {
        proof {
            assert(stack@[stack@.len() - 1].0 == cur.stack.last().0);
            lemma_attach_len(cur);
        }
        close_top(stack, roots, Ghost(cur));
        proof {
            cur = attach_top(cur);
        }
    }
    proof {
        if stack@.len() > 0 {
            assert(stack@[stack@.len() - 1].0 == cur.stack.last().0);
        }
    }
}

/// Adds a line of text to a topic's note.
pub fn append_markdown_note(topic: &mut TopicTreeInputDto, line: &[char], Ghost(n): Ghost<MdNode>)
    requires
        node_is(*old(topic), n),
    ensures
        node_is(*final(topic), with_note(n, line@)),
{
    let t = trim(line);
    if t.len() == 0 {
        return;
    }
    let note = match &topic.note {
        Some(existing) => {
            let mut cs = chars_of(existing.as_str());
            cs.push('\n');
            push_all(&mut cs, t.as_slice());
            proof {
                reveal_strlit("\n");
                assert(cs@ =~= existing@ + "\n"@ + t@);
            }
            string_from_chars(cs.as_slice())
        },
        None => string_from_chars(t.as_slice()),
    };
    let ghost before = *topic;
    topic.note = Some(note);
    proof {
        assert forall|i: int| 0 <= i < topic.children@.len() implies node_is(
            #[trigger] topic.children@[i],
            with_note(n, line@).children[i],
        ) by {
            assert(topic.children@[i] == before.children@[i]);
        }
    }
}

proof fn lemma_run_err(lines: Seq<Seq<char>>, n: int, m: int, e: Seq<char>)
    requires
        0 <= n <= m,
        md_run(lines, n) == Err::<MdState, Seq<char>>(e),
    ensures
        md_run(lines, m) == Err::<MdState, Seq<char>>(e),
    decreases m - n,
{
    if m > n {
        lemma_run_err(lines, n, m - 1, e);
    }
}

fn digits_text(n: usize) -> (r: Vec<char>)
    ensures
        r@ == decimal_spec(n as nat),
{
    decimal(n)
}

/// Parses a Markdown outline into a topic tree.
pub fn parse_markdown_outline(content: &str) -> (r: Result<Option<TopicTreeInputDto>, String>)
    ensures
        match outline_spec(content@) {
            Ok(Some(n)) => r matches Ok(Some(t)) && node_is(t, n),
            Ok(None) => r matches Ok(None),
            Err(e) => r matches Err(m) && m@ == e,
        },
{
    let lines = text_lines(content);
    let ghost ls = lines_spec(content@);
    let mut stack: Vec<(usize, usize, TopicTreeInputDto)> = Vec::new();
    let mut roots: Vec<(usize, TopicTreeInputDto)> = Vec::new();
    let mut heading_level: usize = 0;
    let ghost mut g = MdState { stack: seq![], roots: seq![], heading: 0 };
    let mut i: usize = 0;
    while i < lines.len()
        invariant
            i <= lines@.len(),
            vec_views(lines@) == ls,
            ls == lines_spec(content@),
            ls.len() == lines@.len(),
            md_run(ls, i as int) == Ok::<MdState, Seq<char>>(g),
            stack_is(stack@, g.stack),
            roots_is(roots@, g.roots),
            heading_level == g.heading,
            heading_level <= 6,
        decreases lines@.len() - i,
    {
        let line = &lines[i];
        let ln = i + 1;
        let line_len = line.len();
        proof {
            assert(ls[i as int] == line@);
            assert(md_run(ls, i + 1) == md_step(g, line@, ln as nat));
        }
        match validate_markdown_list_indent(line.as_slice(), ln) {
            Err(e) => {
                proof {
                    lemma_run_err(ls, i + 1, ls.len() as int, e@);
                }
                return Err(e);
            },
            Ok(()) => {},
        }
        match validate_markdown_list_title(line.as_slice(), ln) {
            Err(e) => {
                proof {
                    lemma_run_err(ls, i + 1, ls.len() as int, e@);
                }
                return Err(e);
            },
            Ok(()) => {},
        }
        match parse_markdown_heading(line.as_slice()) {
            Some((level, title)) => {
                if heading_level > 0 && level > heading_level + 1 {
                    let mut msg = chars_of("Markdown heading levels cannot skip from ");
                    push_all(&mut msg, digits_text(heading_level).as_slice());
                    push_all(&mut msg, chars_of(" to ").as_slice());
                    push_all(&mut msg, digits_text(level).as_slice());
                    push_all(&mut msg, chars_of(" at line ").as_slice());
                    push_all(&mut msg, digits_text(ln).as_slice());
                    push_all(&mut msg, chars_of(".").as_slice());
                    let m = string_from_chars(msg.as_slice());
                    proof {
                        assert(m@ =~= skip_message(g.heading, level as nat, ln as nat));
                        lemma_run_err(ls, i + 1, ls.len() as int, m@);
                    }
                    return Err(m);
                }
                heading_level = level;
                let ghost gh = MdState { heading: level as nat, ..g };
                close_to(&mut stack, &mut roots, level, Ghost(gh));
                let node = leaf(title, None);
                stack.push((level, ln, node));
                proof {
                    let next = open_topic(gh, level as nat, ln as nat, md_leaf(title@, seq![]));
                    assert forall|k: int| 0 <= k < stack@.len() implies (#[trigger] stack@[k]).0 == next.stack[k].0
                        && stack@[k].1 == next.stack[k].1 && node_is(stack@[k].2, next.stack[k].2) by {}
                    g = next;
                }
            },
            None => match parse_markdown_list_item(line.as_slice()) {
                Some((rel, node)) => {
                    proof {
                        crate::text::lemma_leading_count_bound(line@, |x: char| x == ' ');
                        assert(rel <= line_len / 2 + 1);
                    }
                    let level = heading_level + rel;
                    close_to(&mut stack, &mut roots, level, Ghost(g));
                    stack.push((level, ln, node));
                    proof {
                        let item = list_item(line@)->0;
                        let next = open_topic(g, level as nat, ln as nat, item.1);
                        assert forall|k: int| 0 <= k < stack@.len() implies (#[trigger] stack@[k]).0 == next.stack[k].0
                            && stack@[k].1 == next.stack[k].1 && node_is(stack@[k].2, next.stack[k].2) by {}
                        g = next;
                    }
                },
                None => {
                    if stack.len() > 0 {
                        let (lv, sln, mut top) = stack.pop().unwrap();
                        append_markdown_note(&mut top, line.as_slice(), Ghost(g.stack.last().2));
                        stack.push((lv, sln, top));
                        proof {
                            let next = note_top(g, line@);
                            assert forall|k: int| 0 <= k < stack@.len() implies (#[trigger] stack@[k]).0
                                == next.stack[k].0 && stack@[k].1 == next.stack[k].1 && node_is(
                                stack@[k].2,
                                next.stack[k].2,
                            ) by {}
                            g = next;
                        }
                    }
                },
            },
        }
        i = i + 1;
    }
    close_to(&mut stack, &mut roots, 0, Ghost(g));
    let ghost fin = collapse(g, 0);
    if roots.len() == 0 {
        Ok(None)
    } else if roots.len() == 1 {
        let (_, root) = roots.pop().unwrap();
        Ok(Some(root))
    } else {
        let mut msg = chars_of("Markdown outline must contain one top-level root; second root starts at line ");
        push_all(&mut msg, digits_text(roots[1].0).as_slice());
        push_all(&mut msg, chars_of(".").as_slice());
        let m = string_from_chars(msg.as_slice());
        proof {
            assert(m@ =~= "Markdown outline must contain one top-level root; second root starts at line "@
                + decimal_spec(fin.roots[1].0) + "."@);
        }
        Err(m)
    }
}

/// The frontmatter and the body of a Markdown document: a first line `---`, then the
/// frontmatter up to a line that starts with `---`, the body after the line break that
/// follows it (nothing when none follows). A document without both lines is all body.
pub open spec fn frontmatter_spec(content: Seq<char>) -> (Option<Seq<char>>, Seq<char>) {
    if starts_with_spec(content, "---\n"@) {
        let rest = content.skip(4);
        match occurrence_from(rest, "\n---"@, 0) {
            Some(end) => {
                let after = rest.skip(end + 4);
                (Some(rest.take(end)), if after.len() > 0 && after[0] == '\n' {
                    after.skip(1)
                } else {
                    seq![]
                })
            },
            None => (None, content),
        }
    } else {
        (None, content)
    }
}

/// Splits a Markdown document into its frontmatter and its body.
pub fn split_markdown_frontmatter(content: &str) -> (r: (Option<String>, String))
    ensures
        opt_text(r.0) == frontmatter_spec(content@).0,
        r.1@ == frontmatter_spec(content@).1,
{
    proof {
        reveal_strlit("---\n");
        reveal_strlit("\n---");
    }
    let cs = chars_of(content);
    if !starts(cs.as_slice(), "---\n") {
        return (None, content.to_string());
    }
    let rest = tail_from(cs.as_slice(), 4);
    let rn = rest.len();
    match find_first(rest.as_slice(), "\n---") {
        Some(end) => {
            proof {
                lemma_occurrence_bound(rest@, "\n---"@, 0);
                assert(end + 4 <= rn);
            }
            let front = crate::text::slice_chars(rest.as_slice(), 0, end);
            let after = tail_from(rest.as_slice(), end + 4);
            proof {
                assert(front@ =~= rest@.take(end as int));
            }
            let body = if after.len() > 0 && after[0] == '\n' {
                tail_from(after.as_slice(), 1)
            } else {
                let v: Vec<char> = Vec::new();
                v
            };
            (Some(string_from_chars(front.as_slice())), string_from_chars(body.as_slice()))
        },
        None => (None, content.to_string()),
    }
}

/// Whether `r` is the error with the message `text`.
pub open spec fn is_err_text<T>(r: Result<T, String>, text: Seq<char>) -> bool {
    match r {
        Err(m) => m@ == text,
        Ok(_) => false,
    }
}

/// Whether `t` is the one-topic tree that the frontmatter values `d` describe.
pub open spec fn frontmatter_tree(t: TopicTreeInputDto, d: TopicTreeDefaultsDto) -> bool {
    d.title is Some && t.title == d.title->0 && t.id == d.id && t.path == d.path && t.note == d.note
        && t.labels == d.labels && t.markers == d.markers && t.image == d.image && t.children@.len() == 0
}

/// Whether some line holds both `{` and `}`.
pub open spec fn has_inline_metadata(content: Seq<char>) -> bool {
    exists|i: int|
        0 <= i < lines_spec(content).len() && (#[trigger] lines_spec(content)[i]).contains('{')
            && lines_spec(content)[i].contains('}')
}

fn has_char(cs: &[char], c: char) -> (r: bool)
    ensures
        r == cs@.contains(c),
{
    let mut i: usize = 0;
    while i < cs.len()
        invariant
            i <= cs@.len(),
            forall|k: int| 0 <= k < i ==> cs@[k] != c,
        decreases cs@.len() - i,
    {
        if cs[i] == c {
            proof {
                assert(cs@[i as int] == c);
            }
            return true;
        }
        i = i + 1;
    }
    false
}

/// Refuses Markdown with inline `{...}` metadata.
pub fn reject_inline_metadata(content: &str) -> (r: Result<(), String>)
    ensures
        has_inline_metadata(content@) ==> is_err_text(r, "Inline metadata is not supported in Markdown input."@),
        !has_inline_metadata(content@) ==> r is Ok,
{
    let lines = text_lines(content);
    let ghost ls = lines_spec(content@);
    let mut i: usize = 0;
    while i < lines.len()
        invariant
            i <= lines@.len(),
            vec_views(lines@) == ls,
            ls == lines_spec(content@),
            forall|k: int| 0 <= k < i ==> !((#[trigger] ls[k]).contains('{') && ls[k].contains('}')),
        decreases lines@.len() - i,
    {
        proof {
            assert(ls[i as int] == lines@[i as int]@);
        }
        if has_char(lines[i].as_slice(), '{') && has_char(lines[i].as_slice(), '}') {
            return Err("Inline metadata is not supported in Markdown input.".to_string());
        }
        i = i + 1;
    }
    Ok(())
}

/// The error a body earns that does not fit the Markdown mode: list items in heading
/// mode, headings in list mode.
pub open spec fn mode_error(content: Seq<char>, mode: Option<MarkdownMode>) -> Option<Seq<char>> {
    let ls = lines_spec(content);
    if mode == Some(MarkdownMode::Heading) && exists|i: int| 0 <= i < ls.len() && (#[trigger] list_item(ls[i])) is Some {
        Some("Markdown heading mode does not accept list items."@)
    } else if mode == Some(MarkdownMode::List) && exists|i: int| 0 <= i < ls.len() && (#[trigger] heading(ls[i])) is Some {
        Some("Markdown list mode does not accept headings."@)
    } else {
        None
    }
}

/// Refuses a body that does not fit the Markdown mode.
pub fn reject_unsupported_markdown_mode_body(content: &str, markdown_mode: Option<MarkdownMode>) -> (r: Result<(), String>)
    ensures
        match mode_error(content@, markdown_mode) {
            Some(e) => r matches Err(m) && m@ == e,
            None => r is Ok,
        },
{
    let lines = text_lines(content);
    let ghost ls = lines_spec(content@);
    let heading_mode = match markdown_mode {
        Some(MarkdownMode::Heading) => true,
        _ => false,
    };
    let list_mode = match markdown_mode {
        Some(MarkdownMode::List) => true,
        _ => false,
    };
    if heading_mode {
        let mut i: usize = 0;
        while i < lines.len()
            invariant
                i <= lines@.len(),
                vec_views(lines@) == ls,
                ls == lines_spec(content@),
                forall|k: int| 0 <= k < i ==> (#[trigger] list_item(ls[k])) is None,
                markdown_mode == Some(MarkdownMode::Heading),
            decreases lines@.len() - i,
        {
            proof {
                assert(ls[i as int] == lines@[i as int]@);
            }
            if parse_markdown_list_item(lines[i].as_slice()).is_some() {
                proof {
                    assert(list_item(ls[i as int]) is Some);
                }
                return Err("Markdown heading mode does not accept list items.".to_string());
            }
            i = i + 1;
        }
    }
    if list_mode {
        let mut i: usize = 0;
        while i < lines.len()
            invariant
                i <= lines@.len(),
                vec_views(lines@) == ls,
                ls == lines_spec(content@),
                forall|k: int| 0 <= k < i ==> (#[trigger] heading(ls[k])) is None,
                markdown_mode == Some(MarkdownMode::List),
            decreases lines@.len() - i,
        {
            proof {
                assert(ls[i as int] == lines@[i as int]@);
            }
            if parse_markdown_heading(lines[i].as_slice()).is_some() {
                proof {
                    assert(heading(ls[i as int]) is Some);
                }
                return Err("Markdown list mode does not accept headings.".to_string());
            }
            i = i + 1;
        }
    }
    Ok(())
}

/// What a Markdown document's frontmatter may give its topic tree.
#[derive(Debug, Default)]
pub struct TopicTreeDefaultsDto {
    pub id: Option<String>,
    pub path: Option<String>,
    pub title: Option<String>,
    pub note: Option<String>,
    pub labels: Vec<String>,
    pub markers: Vec<String>,
    pub image: Option<TopicTreeImageInputDto>,
}

impl TopicTreeDefaultsDto {
    /// The tree of one topic the frontmatter alone describes; none without a title.
    pub fn into_topic_tree(self) -> (r: Option<TopicTreeInputDto>)
        ensures
            self.title is None ==> r is None,
            self.title is Some ==> (r matches Some(t) && frontmatter_tree(t, self)),
    {
        match self.title {
            Some(title) => Some(
                TopicTreeInputDto {
                    id: self.id,
                    path: self.path,
                    title,
                    note: self.note,
                    labels: self.labels,
                    markers: self.markers,
                    image: self.image,
                    children: Vec::new(),
                },
            ),
            None => None,
        }
    }
}

/// Whether `t` is the outline topic `n` with the frontmatter's values where the outline
/// gave none: its id, note, labels, markers and image.
pub open spec fn with_defaults(t: TopicTreeInputDto, n: MdNode, d: TopicTreeDefaultsDto) -> bool {
    &&& t.title@ == n.title
    &&& t.id == d.id
    &&& t.path is None
    &&& opt_text(t.note) == (if n.note is None {
        opt_text(d.note)
    } else {
        n.note
    })
    &&& t.labels == d.labels
    &&& t.markers.deep_view() == (if n.markers.len() == 0 {
        d.markers.deep_view()
    } else {
        n.markers
    })
    &&& t.image == d.image
    &&& t.children@.len() == n.children.len()
    &&& forall|i: int| 0 <= i < t.children@.len() ==> node_is(#[trigger] t.children@[i], n.children[i])
}

/// Fills in, from the frontmatter, what the outline's root left empty.
pub fn apply_topic_tree_defaults(tree: &mut TopicTreeInputDto, defaults: TopicTreeDefaultsDto, Ghost(n): Ghost<MdNode>)
    requires
        node_is(*old(tree), n),
    ensures
        with_defaults(*final(tree), n, defaults),
{
    if tree.id.is_none() {
        tree.id = defaults.id;
    }
    if tree.note.is_none() {
        tree.note = defaults.note;
    }
    if tree.labels.len() == 0 {
        tree.labels = defaults.labels;
    }
    if tree.markers.len() == 0 {
        tree.markers = defaults.markers;
    }
    if tree.image.is_none() {
        tree.image = defaults.image;
    }
}

/// The topic tree of a Markdown document with the given frontmatter values and body:
/// the outline with the frontmatter's values filled in, or, without an outline, the one
/// topic the frontmatter describes.
pub fn markdown_tree_input(defaults: TopicTreeDefaultsDto, body: &str, markdown_mode: Option<MarkdownMode>) -> (r: Result<TopicTreeInputDto, String>)
    ensures
        has_inline_metadata(body@) ==> is_err_text(r, "Inline metadata is not supported in Markdown input."@),
        !has_inline_metadata(body@) ==> match mode_error(body@, markdown_mode) {
            Some(e) => r matches Err(m) && m@ == e,
            None => match outline_spec(body@) {
                Err(e) => r matches Err(m) && m@ == e,
                Ok(Some(n)) => r matches Ok(t) && with_defaults(t, n, defaults),
                Ok(None) => if defaults.title is Some {
                    r matches Ok(t) && frontmatter_tree(t, defaults)
                } else {
                    is_err_text(r, "Markdown input must include frontmatter title or a heading outline."@)
                },
            },
        },
{
    reject_inline_metadata(body)?;
    reject_unsupported_markdown_mode_body(body, markdown_mode)?;
    match parse_markdown_outline(body)? {
        Some(mut tree) => {
            let ghost n = outline_spec(body@)->Ok_0->Some_0;
            apply_topic_tree_defaults(&mut tree, defaults, Ghost(n));
            Ok(tree)
        },
        None => match defaults.into_topic_tree() {
            Some(t) => Ok(t),
            None => Err("Markdown input must include frontmatter title or a heading outline.".to_string()),
        },
    }
}

} // verus!

//! Character-level helpers shared by the parsers and renderers.
//!
//! Text is modelled as `Seq<char>`, the view that vstd gives `str` and `String`.
use vstd::prelude::*;

verus! {

/// Reads the characters of `s` in order.
pub fn chars_of(s: &str) -> (r: Vec<char>)
    ensures
        r@ == s@,
{
    broadcast use vstd::string::axiom_spec_iter;

    let mut out: Vec<char> = Vec::new();
    for c in it: s.chars()
        invariant
            out@ == it.seq().take(it.index() as int),
    {
        out.push(c);
    }
    out
}

/// Builds a `String` holding exactly the characters of `cs` (`FromIterator<&char>`).
#[verifier::external_body]
pub(crate) fn string_from_chars(cs: &[char]) -> (r: String)
    ensures
        r@ == cs@,
{
    cs.iter().collect()
}

/// Appends one character to a string (`String::push`).
#[verifier::external_body]
pub(crate) fn push_char(s: &mut String, c: char)
    ensures
        final(s)@ == old(s)@.push(c),
{
    s.push(c)
}

/// Appends the characters of `other` to `out`.
pub fn push_all(out: &mut Vec<char>, other: &[char])
    ensures
        final(out)@ == old(out)@ + other@,
{
    let mut i: usize = 0;
    while i < other.len()
        invariant
            i <= other@.len(),
            out@ == old(out)@ + other@.take(i as int),
        decreases other@.len() - i,
    {
        out.push(other[i]);
        i = i + 1;
        proof {
            assert(other@.take(i as int) == other@.take(i - 1).push(other@[i - 1]));
        }
    }
    proof {
        assert(other@.take(other@.len() as int) == other@);
    }
}

/// A copy of a character slice as a vector.
pub fn copy_chars(cs: &[char]) -> (r: Vec<char>)
    ensures
        r@ == cs@,
{
    let mut r: Vec<char> = Vec::new();
    push_all(&mut r, cs);
    r
}

/// A copy of a list of strings, element by element.
pub fn clone_strings(v: &Vec<String>) -> (r: Vec<String>)
    ensures
        r.deep_view() == v.deep_view(),
        r@.len() == v@.len(),
        forall|k: int| 0 <= k < v@.len() ==> #[trigger] r@[k]@ == v@[k]@,
{
    let mut r: Vec<String> = Vec::new();
    let mut i: usize = 0;
    while i < v.len()
        invariant
            i <= v@.len(),
            r@.len() == i,
            forall|k: int| 0 <= k < i ==> #[trigger] r@[k]@ == v@[k]@,
        decreases v@.len() - i,
    {
        r.push(v[i].clone());
        i = i + 1;
    }
    proof {
        assert(r.deep_view() =~= v.deep_view());
    }
    r
}

/// Whether `needle` is a prefix of `hay`.
pub open spec fn starts_with_spec(hay: Seq<char>, needle: Seq<char>) -> bool {
    needle.len() <= hay.len() && hay.take(needle.len() as int) == needle
}

/// Whether `needle` is a suffix of `hay`.
pub open spec fn ends_with_spec(hay: Seq<char>, needle: Seq<char>) -> bool {
    needle.len() <= hay.len() && hay.skip(hay.len() - needle.len()) == needle
}

/// Whether `needle` occurs somewhere in `hay` as a contiguous run.
pub open spec fn contains_spec(hay: Seq<char>, needle: Seq<char>) -> bool {
    exists|i: int|
        0 <= i && i + needle.len() <= hay.len() && #[trigger] hay.subrange(i, i + needle.len())
            == needle
}

/// Whether `needle` occurs in `hay` at position `at`.
pub open spec fn occurs_at(hay: Seq<char>, needle: Seq<char>, at: int) -> bool {
    0 <= at && at + needle.len() <= hay.len() && hay.subrange(at, at + needle.len()) == needle
}

/// Checks whether `needle` occurs in `hay` at position `at`.
pub fn matches_at(hay: &[char], needle: &[char], at: usize) -> (r: bool)
    ensures
        r == occurs_at(hay@, needle@, at as int),
{
    if needle.len() > hay.len() || at > hay.len() - needle.len() {
        return false;
    }
    let mut j: usize = 0;
    while j < needle.len()
        invariant
            at + needle@.len() <= hay@.len(),
            hay@.len() <= usize::MAX,
            j <= needle@.len(),
            forall|k: int| 0 <= k < j ==> hay@[at + k] == needle@[k],
        decreases needle@.len() - j,
    {
        if hay[at + j] != needle[j] {
            proof {
                assert(hay@.subrange(at as int, at + needle@.len())[j as int] != needle@[j as int]);
            }
            return false;
        }
        j = j + 1;
    }
    proof {
        assert(hay@.subrange(at as int, at + needle@.len()) =~= needle@);
    }
    true
}

/// Checks whether `needle` is a prefix of `hay`.
pub fn starts_with(hay: &[char], needle: &[char]) -> (r: bool)
    ensures
        r == starts_with_spec(hay@, needle@),
{
    let r = matches_at(hay, needle, 0);
    proof {
        assert(hay@.subrange(0, needle@.len() as int) == hay@.take(needle@.len() as int));
    }
    r
}

/// Checks whether `needle` is a suffix of `hay`.
pub fn ends_with(hay: &[char], needle: &[char]) -> (r: bool)
    ensures
        r == ends_with_spec(hay@, needle@),
{
    if needle.len() > hay.len() {
        return false;
    }
    let at = hay.len() - needle.len();
    let r = matches_at(hay, needle, at);
    proof {
        assert(hay@.subrange(at as int, at + needle@.len()) == hay@.skip(at as int));
    }
    r
}

/// The first position at which `needle` occurs in `hay`, if any.
pub fn find(hay: &[char], needle: &[char]) -> (r: Option<usize>)
    ensures
        match r {
            Some(i) => occurs_at(hay@, needle@, i as int) && forall|k: int|
                0 <= k < i ==> !occurs_at(hay@, needle@, k),
            None => !contains_spec(hay@, needle@),
        },
{
    if needle.len() > hay.len() {
        proof {
            assert forall|i: int| 0 <= i && i + needle@.len() <= hay@.len() implies #[trigger] hay@.subrange(i, i + needle@.len()) != needle@ by {}
        }
        return None;
    }
    let last = hay.len() - needle.len();
    let mut i: usize = 0;
    loop
        invariant
            last == hay@.len() - needle@.len(),
            i <= last,
            forall|k: int| 0 <= k < i ==> !occurs_at(hay@, needle@, k),
        ensures
            forall|k: int| 0 <= k <= last ==> !occurs_at(hay@, needle@, k),
        decreases last - i,
    {
        if matches_at(hay, needle, i) {
            return Some(i);
        }
        if i == last {
            break;
        }
        i = i + 1;
    }
    proof {
        assert forall|k: int| 0 <= k && k + needle@.len() <= hay@.len() implies #[trigger] hay@.subrange(k, k + needle@.len()) != needle@ by {
            assert(!occurs_at(hay@, needle@, k));
        }
    }
    None
}

/// Checks whether `needle` occurs anywhere in `hay`.
pub fn contains(hay: &[char], needle: &[char]) -> (r: bool)
    ensures
        r == contains_spec(hay@, needle@),
{
    match find(hay, needle) {
        Some(i) => {
            proof {
                assert(occurs_at(hay@, needle@, i as int));
                assert(hay@.subrange(i as int, i + needle@.len()) == needle@);
            }
            true
        },
        None => false,
    }
}

/// Whether `c` has the Unicode `White_Space` property, the set that `char::is_whitespace`
/// documents.
pub open spec fn is_white_space_spec(c: char) -> bool {
    ||| ('\u{9}' <= c && c <= '\u{d}')
    ||| c == ' '
    ||| c == '\u{85}'
    ||| c == '\u{a0}'
    ||| c == '\u{1680}'
    ||| ('\u{2000}' <= c && c <= '\u{200a}')
    ||| c == '\u{2028}'
    ||| c == '\u{2029}'
    ||| c == '\u{202f}'
    ||| c == '\u{205f}'
    ||| c == '\u{3000}'
}

/// Checks the Unicode `White_Space` property of `c`.
pub fn is_white_space(c: char) -> (r: bool)
    ensures
        r == is_white_space_spec(c),
{
    ('\u{9}' <= c && c <= '\u{d}') || c == ' ' || c == '\u{85}' || c == '\u{a0}' || c
        == '\u{1680}' || ('\u{2000}' <= c && c <= '\u{200a}') || c == '\u{2028}' || c
        == '\u{2029}' || c == '\u{202f}' || c == '\u{205f}' || c == '\u{3000}'
}

/// Whether `c` is an ASCII letter or digit.
pub open spec fn is_ascii_alphanumeric_spec(c: char) -> bool {
    ('0' <= c && c <= '9') || ('a' <= c && c <= 'z') || ('A' <= c && c <= 'Z')
}

/// Checks whether `c` is an ASCII letter or digit.
pub fn is_ascii_alphanumeric(c: char) -> (r: bool)
    ensures
        r == is_ascii_alphanumeric_spec(c),
{
    ('0' <= c && c <= '9') || ('a' <= c && c <= 'z') || ('A' <= c && c <= 'Z')
}

/// Whether `c` is an ASCII digit.
pub open spec fn is_ascii_digit_spec(c: char) -> bool {
    '0' <= c && c <= '9'
}

/// The number of leading characters of `s` that satisfy `p`.
pub open spec fn leading_count(s: Seq<char>, p: spec_fn(char) -> bool) -> nat
    decreases s.len(),
{
    if s.len() == 0 || !p(s[0]) {
        0
    } else {
        1 + leading_count(s.drop_first(), p)
    }
}

/// `s` without its leading white space (`str::trim_start`).
pub open spec fn trim_start_spec(s: Seq<char>) -> Seq<char> {
    s.skip(leading_count(s, |c: char| is_white_space_spec(c)) as int)
}

/// The number of trailing characters of `s` that are white space.
pub open spec fn trailing_white_count(s: Seq<char>) -> nat
    decreases s.len(),
{
    if s.len() == 0 || !is_white_space_spec(s.last()) {
        0
    } else {
        1 + trailing_white_count(s.drop_last())
    }
}

/// `s` without its trailing white space (`str::trim_end`).
pub open spec fn trim_end_spec(s: Seq<char>) -> Seq<char> {
    s.take(s.len() - trailing_white_count(s))
}

/// `s` without leading and trailing white space (`str::trim`).
pub open spec fn trim_spec(s: Seq<char>) -> Seq<char> {
    trim_end_spec(trim_start_spec(s))
}

pub proof fn lemma_leading_count_bound(s: Seq<char>, p: spec_fn(char) -> bool)
    ensures
        leading_count(s, p) <= s.len(),
        forall|k: int| 0 <= k < leading_count(s, p) ==> p(#[trigger] s[k]),
        leading_count(s, p) < s.len() ==> !p(s[leading_count(s, p) as int]),
    decreases s.len(),
{
    if s.len() > 0 && p(s[0]) {
        lemma_leading_count_bound(s.drop_first(), p);
        assert forall|k: int| 0 <= k < leading_count(s, p) implies p(#[trigger] s[k]) by {
            if k > 0 {
                assert(s[k] == s.drop_first()[k - 1]);
            }
        }
    }
}

pub proof fn lemma_leading_count_from(s: Seq<char>, p: spec_fn(char) -> bool, i: int)
    requires
        0 <= i <= s.len(),
        forall|k: int| 0 <= k < i ==> p(#[trigger] s[k]),
        i == s.len() || !p(s[i]),
    ensures
        leading_count(s, p) == i,
    decreases i,
{
    if i > 0 {
        lemma_leading_count_from(s.drop_first(), p, i - 1);
    }
}

proof fn lemma_trailing_count_from(s: Seq<char>, i: int)
    requires
        0 <= i <= s.len(),
        forall|k: int| s.len() - i <= k < s.len() ==> is_white_space_spec(#[trigger] s[k]),
        i == s.len() || !is_white_space_spec(s[s.len() - i - 1]),
    ensures
        trailing_white_count(s) == i,
    decreases i,
{
    if i > 0 {
        let t = s.drop_last();
        assert forall|k: int| t.len() - (i - 1) <= k < t.len() implies is_white_space_spec(#[trigger] t[k]) by {
            assert(t[k] == s[k]);
        }
        if i - 1 < t.len() {
            assert(t[t.len() - (i - 1) - 1] == s[s.len() - i - 1]);
        }
        lemma_trailing_count_from(t, i - 1);
    }
}

/// `cs` without leading white space.
pub fn trim_start(cs: &[char]) -> (r: Vec<char>)
    ensures
        r@ == trim_start_spec(cs@),
{
    let mut i: usize = 0;
    while i < cs.len() && is_white_space(cs[i])
        invariant
            i <= cs@.len(),
            forall|k: int| 0 <= k < i ==> is_white_space_spec(#[trigger] cs@[k]),
        decreases cs@.len() - i,
    {
        i = i + 1;
    }
    proof {
        lemma_leading_count_from(cs@, |c: char| is_white_space_spec(c), i as int);
    }
    let mut r: Vec<char> = Vec::new();
    let mut j: usize = i;
    while j < cs.len()
        invariant
            i <= j <= cs@.len(),
            r@ == cs@.subrange(i as int, j as int),
        decreases cs@.len() - j,
    {
        r.push(cs[j]);
        j = j + 1;
        proof {
            assert(cs@.subrange(i as int, j as int) == cs@.subrange(i as int, j - 1).push(cs@[j - 1]));
        }
    }
    r
}

/// `cs` without trailing white space.
pub fn trim_end(cs: &[char]) -> (r: Vec<char>)
    ensures
        r@ == trim_end_spec(cs@),
{
    let mut n: usize = cs.len();
    while n > 0 && is_white_space(cs[n - 1])
        invariant
            n <= cs@.len(),
            forall|k: int| n <= k < cs@.len() ==> is_white_space_spec(#[trigger] cs@[k]),
        decreases n,
    {
        n = n - 1;
    }
    proof {
        lemma_trailing_count_from(cs@, cs@.len() - n);
    }
    let mut r: Vec<char> = Vec::new();
    let mut j: usize = 0;
    while j < n
        invariant
            j <= n <= cs@.len(),
            r@ == cs@.take(j as int),
        decreases n - j,
    {
        r.push(cs[j]);
        j = j + 1;
        proof {
            assert(cs@.take(j as int) == cs@.take(j - 1).push(cs@[j - 1]));
        }
    }
    r
}

/// `cs` without leading and trailing white space.
pub fn trim(cs: &[char]) -> (r: Vec<char>)
    ensures
        r@ == trim_spec(cs@),
{
    let s = trim_start(cs);
    trim_end(s.as_slice())
}

/// Whether every character of `s` is white space.
pub open spec fn all_white_space(s: Seq<char>) -> bool {
    forall|k: int| 0 <= k < s.len() ==> is_white_space_spec(#[trigger] s[k])
}

/// Trimming leaves nothing exactly when the text is all white space.
pub proof fn lemma_trim_empty(s: Seq<char>)
    ensures
        (trim_spec(s).len() == 0) == all_white_space(s),
{
    lemma_leading_count_bound(s, |c: char| is_white_space_spec(c));
    let n = leading_count(s, |c: char| is_white_space_spec(c));
    let t = trim_start_spec(s);
    lemma_trailing_bound(t);
    if n < s.len() {
        assert(!is_white_space_spec(s[n as int]));
        assert(t[0] == s[n as int]);
        assert(t.len() > 0);
        if trailing_white_count(t) == t.len() {
            assert(is_white_space_spec(t[0]));
        }
    } else {
        assert forall|k: int| 0 <= k < s.len() implies is_white_space_spec(#[trigger] s[k]) by {
            let p = |c: char| is_white_space_spec(c);
            assert(p(s[k]));
        }
    }
}

proof fn lemma_trailing_bound(s: Seq<char>)
    ensures
        trailing_white_count(s) <= s.len(),
        forall|k: int|
            s.len() - trailing_white_count(s) <= k < s.len() ==> is_white_space_spec(#[trigger] s[k]),
    decreases s.len(),
{
    if s.len() > 0 && is_white_space_spec(s.last()) {
        lemma_trailing_bound(s.drop_last());
        assert forall|k: int| s.len() - trailing_white_count(s) <= k < s.len() implies is_white_space_spec(#[trigger] s[k]) by {
            if k < s.len() - 1 {
                assert(s[k] == s.drop_last()[k]);
            }
        }
    }
}

/// Checks whether every character of `cs` is white space.
pub fn is_blank(cs: &[char]) -> (r: bool)
    ensures
        r == all_white_space(cs@),
        r == (trim_spec(cs@).len() == 0),
{
    proof {
        lemma_trim_empty(cs@);
    }
    let mut i: usize = 0;
    while i < cs.len()
        invariant
            i <= cs@.len(),
            forall|k: int| 0 <= k < i ==> is_white_space_spec(#[trigger] cs@[k]),
        decreases cs@.len() - i,
    {
        if !is_white_space(cs[i]) {
            assert(!all_white_space(cs@));
            proof {
                lemma_trim_empty(cs@);
            }
            return false;
        }
        i = i + 1;
    }
    true
}

/// Whether two character sequences are equal, checked element by element.
pub fn chars_equal(a: &[char], b: &[char]) -> (r: bool)
    ensures
        r == (a@ == b@),
{
    if a.len() != b.len() {
        return false;
    }
    let r = matches_at(a, b, 0);
    proof {
        assert(a@.subrange(0, b@.len() as int) == a@);
    }
    r
}

/// Whether two strings hold the same text.
pub fn str_equal(a: &str, b: &str) -> (r: bool)
    ensures
        r == (a@ == b@),
{
    let x = chars_of(a);
    let y = chars_of(b);
    chars_equal(x.as_slice(), y.as_slice())
}

} // verus!

verus! {

/// `items` joined with `sep` between neighbours.
pub open spec fn join_spec(items: Seq<Seq<char>>, sep: Seq<char>) -> Seq<char>
    decreases items.len(),
{
    if items.len() == 0 {
        seq![]
    } else if items.len() == 1 {
        items[0]
    } else {
        join_spec(items.drop_last(), sep) + sep + items.last()
    }
}

/// One step of joining: the join of a longer list extends the join of its prefix.
pub proof fn lemma_join_step(items: Seq<Seq<char>>, sep: Seq<char>, i: int)
    requires
        0 <= i < items.len(),
    ensures
        i == 0 ==> join_spec(items.take(i + 1), sep) == items[0],
        i > 0 ==> join_spec(items.take(i + 1), sep) == join_spec(items.take(i), sep) + sep
            + items[i],
{
    let t = items.take(i + 1);
    assert(t.drop_last() =~= items.take(i));
    assert(t.last() == items[i]);
    if i == 0 {
        assert(t.len() == 1);
    }
}

/// Joins the strings of `items` with `sep`.
pub fn join_strings(items: &[String], sep: &[char]) -> (r: Vec<char>)
    ensures
        r@ == join_spec(items@.map_values(|s: String| s@), sep@),
{
    let ghost views = items@.map_values(|s: String| s@);
    let mut out: Vec<char> = Vec::new();
    let mut i: usize = 0;
    while i < items.len()
        invariant
            i <= items@.len(),
            views == items@.map_values(|s: String| s@),
            out@ == join_spec(views.take(i as int), sep@),
        decreases items@.len() - i,
    {
        proof {
            lemma_join_step(views, sep@, i as int);
        }
        if i > 0 {
            push_all(&mut out, sep);
        }
        let cs = chars_of(items[i].as_str());
        push_all(&mut out, cs.as_slice());
        i = i + 1;
    }
    proof {
        assert(views.take(i as int) =~= views);
    }
    out
}

} // verus!

verus! {

/// The position of the first character at or after `p` that is not white space.
pub open spec fn skip_ws_spec(s: Seq<char>, p: int) -> int {
    p + leading_count(s.skip(p), |c: char| is_white_space_spec(c))
}

/// Skips white space starting at position `p`.
pub fn skip_ws(cs: &[char], p: usize) -> (r: usize)
    requires
        p <= cs@.len(),
    ensures
        r == skip_ws_spec(cs@, p as int),
        p <= r <= cs@.len(),
{
    let mut i: usize = p;
    while i < cs.len() && is_white_space(cs[i])
        invariant
            p <= i <= cs@.len(),
            forall|k: int| p <= k < i ==> is_white_space_spec(#[trigger] cs@[k]),
        decreases cs@.len() - i,
    {
        i = i + 1;
    }
    proof {
        let t = cs@.skip(p as int);
        assert forall|k: int| 0 <= k < i - p implies is_white_space_spec(#[trigger] t[k]) by {
            assert(t[k] == cs@[p + k]);
        }
        if i < cs@.len() {
            assert(t[i - p] == cs@[i as int]);
        }
        lemma_leading_count_from(t, |c: char| is_white_space_spec(c), i - p);
    }
    i
}

/// The characters of `cs` from `from` up to `to`.
pub fn slice_chars(cs: &[char], from: usize, to: usize) -> (r: Vec<char>)
    requires
        from <= to <= cs@.len(),
    ensures
        r@ == cs@.subrange(from as int, to as int),
{
    let mut r: Vec<char> = Vec::new();
    let mut j: usize = from;
    while j < to
        invariant
            from <= j <= to <= cs@.len(),
            r@ == cs@.subrange(from as int, j as int),
        decreases to - j,
    {
        r.push(cs[j]);
        j = j + 1;
        proof {
            assert(cs@.subrange(from as int, j as int) =~= cs@.subrange(from as int, j - 1).push(
                cs@[j - 1],
            ));
        }
    }
    r
}

} // verus!

verus! {

/// The digit character for `d`.
pub open spec fn digit_char(d: nat) -> char {
    if d == 0 {
        '0'
    } else if d == 1 {
        '1'
    } else if d == 2 {
        '2'
    } else if d == 3 {
        '3'
    } else if d == 4 {
        '4'
    } else if d == 5 {
        '5'
    } else if d == 6 {
        '6'
    } else if d == 7 {
        '7'
    } else if d == 8 {
        '8'
    } else {
        '9'
    }
}

/// The decimal digits of `n`, most significant first, without leading zeros.
pub open spec fn decimal_spec(n: nat) -> Seq<char>
    decreases n,
{
    if n < 10 {
        seq![digit_char(n)]
    } else {
        decimal_spec(n / 10).push(digit_char(n % 10))
    }
}

fn digit(d: usize) -> (c: char)
    requires
        d < 10,
    ensures
        c == digit_char(d as nat),
{
    if d == 0 {
        '0'
    } else if d == 1 {
        '1'
    } else if d == 2 {
        '2'
    } else if d == 3 {
        '3'
    } else if d == 4 {
        '4'
    } else if d == 5 {
        '5'
    } else if d == 6 {
        '6'
    } else if d == 7 {
        '7'
    } else if d == 8 {
        '8'
    } else {
        '9'
    }
}

/// Writes `n` in decimal.
pub fn decimal(n: usize) -> (r: Vec<char>)
    ensures
        r@ == decimal_spec(n as nat),
    decreases n,
{
    if n < 10 {
        let mut v: Vec<char> = Vec::new();
        v.push(digit(n));
        proof {
            assert(v@ =~= seq![digit_char(n as nat)]);
        }
        v
    } else {
        let mut v = decimal(n / 10);
        v.push(digit(n % 10));
        v
    }
}

} // verus!

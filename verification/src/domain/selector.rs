//! Topic selectors: `root`, `id:<id>`, `path:/A/B`, `title:<title>` and `query:<query>`.
use vstd::prelude::*;
use crate::domain::path::{
    parse_path_spec, render_path_spec, split_init, split_run, split_step, PathError, TopicPath,
};
use crate::domain::query::{parse_query_spec, QueryErrorSpec, QueryExpr, QueryParseError, QuerySpec};
use crate::text::{chars_of, chars_equal, push_all, slice_chars, starts_with, starts_with_spec, string_from_chars};

verus! {

/// A way to pick topics of a sheet.
#[derive(Clone, Debug, PartialEq, Eq)]
pub enum Selector {
    Root,
    Id(String),
    Path(TopicPath),
    Title(String),
    Query { expr: QueryExpr, source: String },
}

/// Why a selector could not be read.
#[derive(Clone, Debug, PartialEq, Eq)]
pub enum SelectorParseError {
    UnknownSelector,
    InvalidPath(PathError),
    InvalidQuery(QueryParseError),
}

/// The meaning of a selector.
pub enum SelectorSpec {
    Root,
    Id(Seq<char>),
    Path(Seq<Seq<char>>),
    Title(Seq<char>),
    Query { expr: QuerySpec, source: Seq<char> },
}

/// The meaning of a selector error.
pub enum SelectorErrorSpec {
    UnknownSelector,
    InvalidPath(PathError),
    InvalidQuery(QueryErrorSpec),
}

impl View for Selector {
    type V = SelectorSpec;

    open spec fn view(&self) -> SelectorSpec {
        match self {
            Selector::Root => SelectorSpec::Root,
            Selector::Id(id) => SelectorSpec::Id(id@),
            Selector::Path(p) => SelectorSpec::Path(p@),
            Selector::Title(t) => SelectorSpec::Title(t@),
            Selector::Query { expr, source } => SelectorSpec::Query { expr: expr@, source: source@ },
        }
    }
}

impl View for SelectorParseError {
    type V = SelectorErrorSpec;

    open spec fn view(&self) -> SelectorErrorSpec {
        match self {
            SelectorParseError::UnknownSelector => SelectorErrorSpec::UnknownSelector,
            SelectorParseError::InvalidPath(e) => SelectorErrorSpec::InvalidPath(*e),
            SelectorParseError::InvalidQuery(e) => SelectorErrorSpec::InvalidQuery(e@),
        }
    }
}

/// What a selector text reads as.
pub open spec fn parse_selector_spec(s: Seq<char>) -> Result<SelectorSpec, SelectorErrorSpec> {
    if s == "root"@ {
        Ok(SelectorSpec::Root)
    } else if starts_with_spec(s, "id:"@) {
        Ok(SelectorSpec::Id(s.skip(3)))
    } else if starts_with_spec(s, "path:"@) {
        match parse_path_spec(s.skip(5)) {
            Ok(segs) => Ok(SelectorSpec::Path(segs)),
            Err(e) => Err(SelectorErrorSpec::InvalidPath(e)),
        }
    } else if starts_with_spec(s, "title:"@) {
        Ok(SelectorSpec::Title(s.skip(6)))
    } else if starts_with_spec(s, "query:"@) {
        match parse_query_spec(s.skip(6)) {
            Ok(q) => Ok(SelectorSpec::Query { expr: q, source: s.skip(6) }),
            Err(e) => Err(SelectorErrorSpec::InvalidQuery(e)),
        }
    } else {
        Err(SelectorErrorSpec::UnknownSelector)
    }
}

/// The text of a selector.
pub open spec fn render_selector_spec(sel: SelectorSpec) -> Seq<char> {
    match sel {
        SelectorSpec::Root => "root"@,
        SelectorSpec::Id(id) => "id:"@ + id,
        SelectorSpec::Path(p) => "path:"@ + render_path_spec(p),
        SelectorSpec::Title(t) => "title:"@ + t,
        SelectorSpec::Query { source, .. } => "query:"@ + source,
    }
}

/// Reading non-empty path text never leaves nothing at all: some title has been started
/// or finished, or an escape is pending.
proof fn lemma_split_nonempty_progress(s: Seq<char>)
    requires
        s.len() > 0,
    ensures
        ({
            let st = split_run(split_init(), s);
            st.0.len() > 0 || st.1.len() > 0 || st.2
        }),
    decreases s.len(),
{
    let prev = s.drop_last();
    if prev.len() > 0 {
        lemma_split_nonempty_progress(prev);
    } else {
        assert(split_run(split_init(), prev) == split_init());
    }
}

/// A path read from text is never the single empty title.
proof fn lemma_parsed_path_not_single_empty(p: Seq<char>, segs: Seq<Seq<char>>)
    requires
        parse_path_spec(p) == Ok::<Seq<Seq<char>>, PathError>(segs),
    ensures
        !(segs.len() == 1 && segs[0].len() == 0),
{
    if p != seq!['/'] {
        let rest = p.drop_first();
        if rest.len() == 0 {
            assert(p =~= seq!['/']);
        }
        lemma_split_nonempty_progress(rest);
    }
}

/// Rendering a selector that was read from text, and reading the rendering again, gives
/// the same selector.
pub proof fn lemma_selector_render_parse(s: Seq<char>)
    requires
        parse_selector_spec(s) is Ok,
    ensures
        parse_selector_spec(render_selector_spec(parse_selector_spec(s)->Ok_0)) == parse_selector_spec(
            s,
        ),
{
    reveal_strlit("root");
    reveal_strlit("id:");
    reveal_strlit("path:");
    reveal_strlit("title:");
    reveal_strlit("query:");
    let sel = parse_selector_spec(s)->Ok_0;
    let r = render_selector_spec(sel);
    match sel {
        SelectorSpec::Root => {},
        SelectorSpec::Id(id) => {
            assert(r.take(3) =~= "id:"@);
            assert(r.skip(3) =~= id);
            assert(r != "root"@) by {
                assert(r[0] != "root"@[0]);
            }
        },
        SelectorSpec::Path(segs) => {
            lemma_parsed_path_not_single_empty(s.skip(5), segs);
            crate::domain::path::lemma_path_round_trip(segs);
            assert(r.take(5) =~= "path:"@);
            assert(r.skip(5) =~= render_path_spec(segs));
            assert(r != "root"@) by {
                assert(r[0] != "root"@[0]);
            }
            assert(!starts_with_spec(r, "id:"@)) by {
                assert(r[0] != "id:"@[0]);
            }
        },
        SelectorSpec::Title(t) => {
            assert(r.take(6) =~= "title:"@);
            assert(r.skip(6) =~= t);
            assert(r != "root"@) by {
                assert(r[0] != "root"@[0]);
            }
            assert(!starts_with_spec(r, "id:"@)) by {
                assert(r[0] != "id:"@[0]);
            }
            assert(!starts_with_spec(r, "path:"@)) by {
                assert(r[0] != "path:"@[0]);
            }
        },
        SelectorSpec::Query { expr, source } => {
            assert(r.take(6) =~= "query:"@);
            assert(r.skip(6) =~= source);
            assert(r != "root"@) by {
                assert(r[0] != "root"@[0]);
            }
            assert(!starts_with_spec(r, "id:"@)) by {
                assert(r[0] != "id:"@[0]);
            }
            assert(!starts_with_spec(r, "path:"@)) by {
                assert(r[0] != "path:"@[0]);
            }
            assert(!starts_with_spec(r, "title:"@)) by {
                assert(r[0] != "title:"@[0]);
            }
        },
    }
}

impl Selector {
    /// Reads a selector: `root`, or one of the prefixes `id:`, `path:`, `title:` and
    /// `query:` followed by its value.
    pub fn parse(input: &str) -> (r: Result<Self, SelectorParseError>)
        ensures
            match (r, parse_selector_spec(input@)) {
                (Ok(sel), Ok(s)) => sel@ == s,
                (Err(e), Err(f)) => e@ == f,
                _ => false,
            },
    {
        let cs = chars_of(input);
        let root = chars_of("root");
        let id = chars_of("id:");
        let path = chars_of("path:");
        let title = chars_of("title:");
        let query = chars_of("query:");
        proof {
            reveal_strlit("root");
            reveal_strlit("id:");
            reveal_strlit("path:");
            reveal_strlit("title:");
            reveal_strlit("query:");
        }
        if chars_equal(cs.as_slice(), root.as_slice()) {
            return Ok(Selector::Root);
        }
        if starts_with(cs.as_slice(), id.as_slice()) {
            let rest = slice_chars(cs.as_slice(), 3, cs.len());
            proof {
                assert(rest@ =~= cs@.skip(3));
            }
            return Ok(Selector::Id(string_from_chars(rest.as_slice())));
        }
        if starts_with(cs.as_slice(), path.as_slice()) {
            let rest = slice_chars(cs.as_slice(), 5, cs.len());
            let rest_s = string_from_chars(rest.as_slice());
            proof {
                assert(rest@ =~= cs@.skip(5));
            }
            return match TopicPath::parse_selector_value(rest_s.as_str()) {
                Ok(p) => Ok(Selector::Path(p)),
                Err(e) => Err(SelectorParseError::InvalidPath(e)),
            };
        }
        if starts_with(cs.as_slice(), title.as_slice()) {
            let rest = slice_chars(cs.as_slice(), 6, cs.len());
            proof {
                assert(rest@ =~= cs@.skip(6));
            }
            return Ok(Selector::Title(string_from_chars(rest.as_slice())));
        }
        if starts_with(cs.as_slice(), query.as_slice()) {
            let rest = slice_chars(cs.as_slice(), 6, cs.len());
            let rest_s = string_from_chars(rest.as_slice());
            proof {
                assert(rest@ =~= cs@.skip(6));
            }
            return match QueryExpr::parse(rest_s.as_str()) {
                Ok(expr) => Ok(Selector::Query { expr, source: rest_s }),
                Err(e) => Err(SelectorParseError::InvalidQuery(e)),
            };
        }
        Err(SelectorParseError::UnknownSelector)
    }

    /// The text of this selector.
    pub fn render(&self) -> (r: String)
        ensures
            r@ == render_selector_spec(self@),
    {
        let mut out: Vec<char> = Vec::new();
        match self {
            Selector::Root => {
                let s = chars_of("root");
                push_all(&mut out, s.as_slice());
            },
            Selector::Id(id) => {
                let p = chars_of("id:");
                push_all(&mut out, p.as_slice());
                let s = chars_of(id.as_str());
                push_all(&mut out, s.as_slice());
            },
            Selector::Path(path) => {
                let p = chars_of("path:");
                push_all(&mut out, p.as_slice());
                let s = chars_of(path.to_selector_value().as_str());
                push_all(&mut out, s.as_slice());
            },
            Selector::Title(title) => {
                let p = chars_of("title:");
                push_all(&mut out, p.as_slice());
                let s = chars_of(title.as_str());
                push_all(&mut out, s.as_slice());
            },
            Selector::Query { source, .. } => {
                let p = chars_of("query:");
                push_all(&mut out, p.as_slice());
                let s = chars_of(source.as_str());
                push_all(&mut out, s.as_slice());
            },
        }
        proof {
            assert(out@ =~= render_selector_spec(self@));
        }
        string_from_chars(out.as_slice())
    }
}

impl SelectorParseError {
    /// The human-readable description of this error.
    pub fn message(&self) -> (r: String)
        ensures
            r@ == selector_error_message(self@),
    {
        let mut out: Vec<char> = Vec::new();
        match self {
            SelectorParseError::UnknownSelector => {
                let s = chars_of("selector type is not supported");
                push_all(&mut out, s.as_slice());
            },
            SelectorParseError::InvalidPath(e) => {
                let s = chars_of("path selector is invalid: ");
                push_all(&mut out, s.as_slice());
                let m = chars_of(e.message().as_str());
                push_all(&mut out, m.as_slice());
            },
            SelectorParseError::InvalidQuery(e) => {
                let s = chars_of("query selector is invalid: ");
                push_all(&mut out, s.as_slice());
                let m = chars_of(e.message().as_str());
                push_all(&mut out, m.as_slice());
            },
        }
        proof {
            assert(out@ =~= selector_error_message(self@));
        }
        string_from_chars(out.as_slice())
    }
}

/// The description of each selector error.
pub open spec fn selector_error_message(e: SelectorErrorSpec) -> Seq<char> {
    match e {
        SelectorErrorSpec::UnknownSelector => "selector type is not supported"@,
        SelectorErrorSpec::InvalidPath(p) => "path selector is invalid: "@
            + crate::domain::path::path_error_message(p),
        SelectorErrorSpec::InvalidQuery(q) => "query selector is invalid: "@
            + crate::domain::query::query_error_message(q),
    }
}

} // verus!

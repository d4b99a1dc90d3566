//! `find`: reading the search criterion and listing a page of the matching topics.
use vstd::prelude::*;
use crate::app::resolve::{
    collect_topics, criterion_pred, located_seq, preorder, select, FindCriterion, Located,
    ResolvedTopic,
};
use crate::cli::output::{CliErrorBody, ErrorCode};
use crate::domain::path::{render_path_spec, TopicPath};
use crate::domain::query::{parse_query_spec, query_error_message, QueryExpr};
use crate::domain::topic::Topic;

verus! {

/// A topic found by `find`.
#[derive(Clone, Debug, PartialEq, Eq)]
pub struct FindMatchDto {
    pub id: String,
    pub path: String,
    pub title: String,
    pub sheet: String,
    pub children_count: usize,
}

/// An optional borrowed text by its view.
pub open spec fn opt_text(o: Option<&str>) -> Option<Seq<char>> {
    match o {
        Some(s) => Some(s@),
        None => None,
    }
}

/// The error for a `find` invocation with the wrong number of criteria or a bad query.
pub open spec fn find_usage_error(e: CliErrorBody, message: Seq<char>, fix: Seq<char>) -> bool {
    &&& e.code == ErrorCode::InvalidUsage && e.exit_code == crate::cli::output::exit_code_spec(ErrorCode::InvalidUsage)
    &&& e.message@ == message
    &&& e.retryable
    &&& e.suggested_fix@ == fix
}

impl<'a> FindCriterion<'a> {
    /// The criterion named by exactly one of `--title`, `--title-contains`, `--contains`
    /// and `--query`; none, several, or a query that does not parse is an
    /// `invalid_usage` error.
    pub fn from_args(
        title: Option<&'a str>,
        title_contains: Option<&'a str>,
        contains: Option<&'a str>,
        query: Option<&'a str>,
    ) -> (r: Result<Self, CliErrorBody>)
        ensures
            match (title, title_contains, contains, query) {
                (Some(t), None, None, None) => r matches Ok(FindCriterion::TitleExact(x)) && x@ == t@,
                (None, Some(t), None, None) => r matches Ok(FindCriterion::TitleContains(x)) && x@
                    == t@,
                (None, None, Some(t), None) => r matches Ok(FindCriterion::Contains(x)) && x@ == t@,
                (None, None, None, Some(q)) => match parse_query_spec(q@) {
                    Ok(spec) => r matches Ok(FindCriterion::Query(e)) && e@ == spec,
                    Err(qe) => r matches Err(e) && find_usage_error(
                        e,
                        "find query is invalid: "@ + query_error_message(qe),
                        "Use a valid query expression such as title = \"Payment\"."@,
                    ),
                },
                (None, None, None, None) => r matches Err(e) && find_usage_error(
                    e,
                    "find requires a search criterion."@,
                    "Retry with --title, --title-contains, --contains, or --query."@,
                ),
                _ => r matches Err(e) && find_usage_error(
                    e,
                    "find accepts only one search criterion at a time."@,
                    "Retry with only one of --title, --title-contains, --contains, or --query."@,
                ),
            },
    {
        match (title, title_contains, contains, query) {
            (Some(t), None, None, None) => Ok(FindCriterion::TitleExact(t)),
            (None, Some(t), None, None) => Ok(FindCriterion::TitleContains(t)),
            (None, None, Some(t), None) => Ok(FindCriterion::Contains(t)),
            (None, None, None, Some(q)) => match QueryExpr::parse(q) {
                Ok(expr) => Ok(FindCriterion::Query(expr)),
                Err(qe) => Err(
                    CliErrorBody::new(
                        ErrorCode::InvalidUsage,
                        crate::app::select::concat("find query is invalid: ", qe.message().as_str()),
                        true,
                        "Use a valid query expression such as title = \"Payment\".".to_owned(),
                    ),
                ),
            },
            (None, None, None, None) => Err(
                CliErrorBody::new(
                    ErrorCode::InvalidUsage,
                    "find requires a search criterion.".to_owned(),
                    true,
                    "Retry with --title, --title-contains, --contains, or --query.".to_owned(),
                ),
            ),
            _ => Err(
                CliErrorBody::new(
                    ErrorCode::InvalidUsage,
                    "find accepts only one search criterion at a time.".to_owned(),
                    true,
                    "Retry with only one of --title, --title-contains, --contains, or --query.".to_owned(),
                ),
            ),
        }
    }
}

/// The page of a list: without the first `offset` items, then at most `limit` of them.
pub open spec fn page<T>(all: Seq<T>, offset: Option<usize>, limit: Option<usize>) -> Seq<T> {
    let skipped = match offset {
        Some(o) => if o < all.len() {
            all.skip(o as int)
        } else {
            seq![]
        },
        None => all,
    };
    match limit {
        Some(l) => if l < skipped.len() {
            skipped.take(l as int)
        } else {
            skipped
        },
        None => skipped,
    }
}

/// Whether a reported match describes the located topic in the sheet titled `sheet`.
pub open spec fn match_describes(m: FindMatchDto, l: Located, sheet: Seq<char>) -> bool {
    &&& m.id@ == l.0.id.0@
    &&& m.path@ == render_path_spec(l.1)
    &&& m.title@ == l.0.title@
    &&& m.sheet@ == sheet
    &&& m.children_count == l.0.children@.len()
}

/// The topics of the sheet under `root` that satisfy the criterion, in pre-order, paged
/// by `offset` and `limit`.
pub fn find_matches(
    root: &Topic,
    sheet_title: &str,
    criterion: &FindCriterion,
    offset: Option<usize>,
    limit: Option<usize>,
) -> (r: Vec<FindMatchDto>)
    ensures
        ({
            let found = page(select(preorder(*root, seq![]), criterion_pred(*criterion)), offset, limit);
            &&& r@.len() == found.len()
            &&& forall|k: int| 0 <= k < found.len() ==> match_describes(#[trigger] r@[k], found[k], sheet_title@)
        }),
{
    let mut all: Vec<ResolvedTopic> = Vec::new();
    let start = TopicPath::root();
    proof {
        assert(start@ =~= seq![]);
        assert(located_seq(all@) =~= Seq::<Located>::empty());
    }
    collect_topics(root, &start, 0, criterion, &mut all);
    let ghost every = located_seq(all@);
    assert(every =~= select(preorder(*root, seq![]), criterion_pred(*criterion)));
    let n = all.len();
    let from: usize = match offset {
        Some(o) => if o < n {
            o
        } else {
            n
        },
        None => 0,
    };
    let count: usize = match limit {
        Some(l) => if l < n - from {
            l
        } else {
            n - from
        },
        None => n - from,
    };
    let ghost found = page(every, offset, limit);
    proof {
        assert(found.len() == count);
        assert forall|k: int| 0 <= k < count implies found[k] == every[from + k] by {}
    }
    let mut out: Vec<FindMatchDto> = Vec::new();
    let mut k: usize = 0;
    while k < count
        invariant
            k <= count,
            from + count <= n,
            n == all@.len(),
            every == located_seq(all@),
            found.len() == count,
            forall|j: int| 0 <= j < count ==> found[j] == every[from + j],
            out@.len() == k,
            forall|j: int| 0 <= j < k ==> match_describes(#[trigger] out@[j], found[j], sheet_title@),
        decreases count - k,
    {
        let m = &all[from + k];
        proof {
            assert(every[from + k] == (*m.topic, m.path@));
        }
        out.push(
            FindMatchDto {
                id: m.topic.id.0.clone(),
                path: m.path.to_selector_value(),
                title: m.topic.title.clone(),
                sheet: sheet_title.to_owned(),
                children_count: m.topic.children.len(),
            },
        );
        k = k + 1;
    }
    out
}

} // verus!

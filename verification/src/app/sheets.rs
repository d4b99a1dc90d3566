//! Choosing the sheet a command works on.
use vstd::prelude::*;
use crate::app::invocation::SheetSelection;
use crate::cli::output::{CandidateDto, CliErrorBody, ErrorCode};
use crate::domain::sheet::Sheet;
use crate::infra::xmind::json::{json_count, json_string, push_member, Json, JsonMember, JsonValue};
use crate::text::str_equal;

verus! {

/// What a sheet selection finds.
pub enum SheetResolution<'a> {
    Found(&'a Sheet),
    NotFound,
    Ambiguous(Vec<&'a Sheet>),
}

/// What a sheet selection finds, by position in the workbook.
pub enum SheetChoice {
    Found(int),
    NotFound,
    Ambiguous(Seq<int>),
}

/// The positions of the sheets, among the first `n`, titled `title`.
pub open spec fn titled_sheets(sheets: Seq<Sheet>, title: Seq<char>, n: int) -> Seq<int>
    decreases n,
{
    if n <= 0 || n > sheets.len() {
        seq![]
    } else if sheets[n - 1].title@ == title {
        titled_sheets(sheets, title, n - 1).push(n - 1)
    } else {
        titled_sheets(sheets, title, n - 1)
    }
}

/// The first sheet with the id, by position.
pub open spec fn sheet_with_id(sheets: Seq<Sheet>, id: Seq<char>) -> Option<int> {
    if exists|i: int| 0 <= i < sheets.len() && sheets[i].id.0@ == id {
        Some(
            choose|i: int|
                0 <= i < sheets.len() && sheets[i].id.0@ == id && forall|k: int|
                    0 <= k < i ==> #[trigger] sheets[k].id.0@ != id,
        )
    } else {
        None
    }
}

/// What a selection picks: the sheet at an index; else the first sheet with an id;
/// else the one sheet with a title (several are ambiguous); else the first sheet.
pub open spec fn sheet_choice(sheets: Seq<Sheet>, sel: SheetSelection) -> SheetChoice {
    match (sel.index, sel.id, sel.title) {
        (Some(i), _, _) => if i < sheets.len() {
            SheetChoice::Found(i as int)
        } else {
            SheetChoice::NotFound
        },
        (None, Some(id), _) => match sheet_with_id(sheets, id@) {
            Some(i) => SheetChoice::Found(i),
            None => SheetChoice::NotFound,
        },
        (None, None, Some(t)) => {
            let m = titled_sheets(sheets, t@, sheets.len() as int);
            if m.len() == 0 {
                SheetChoice::NotFound
            } else if m.len() == 1 {
                SheetChoice::Found(m[0])
            } else {
                SheetChoice::Ambiguous(m)
            }
        },
        (None, None, None) => if sheets.len() > 0 {
            SheetChoice::Found(0)
        } else {
            SheetChoice::NotFound
        },
    }
}

/// Whether the resolution is the choice, sheet by sheet.
pub open spec fn resolution_is(r: SheetResolution, sheets: Seq<Sheet>, c: SheetChoice) -> bool {
    match (r, c) {
        (SheetResolution::Found(s), SheetChoice::Found(i)) => 0 <= i < sheets.len() && *s == sheets[i],
        (SheetResolution::NotFound, SheetChoice::NotFound) => true,
        (SheetResolution::Ambiguous(v), SheetChoice::Ambiguous(m)) => v@.len() == m.len() && forall|
            k: int,
        | 0 <= k < m.len() ==> 0 <= m[k] < sheets.len() && *v@[k] == sheets[#[trigger] m[k]],
        _ => false,
    }
}

proof fn lemma_titled_sheets_bounds(sheets: Seq<Sheet>, title: Seq<char>, n: int)
    requires
        0 <= n <= sheets.len(),
    ensures
        forall|k: int|
            0 <= k < titled_sheets(sheets, title, n).len() ==> 0 <= #[trigger] titled_sheets(
                sheets,
                title,
                n,
            )[k] < n,
    decreases n,
{
    if n > 0 {
        lemma_titled_sheets_bounds(sheets, title, n - 1);
        let prev = titled_sheets(sheets, title, n - 1);
        assert forall|k: int| 0 <= k < titled_sheets(sheets, title, n).len() implies 0
            <= #[trigger] titled_sheets(sheets, title, n)[k] < n by {
            if k < prev.len() {
                assert(titled_sheets(sheets, title, n)[k] == prev[k]);
            }
        }
    }
}

/// Resolves a sheet selection against the sheets of a workbook.
pub fn select_sheet<'a>(sheets: &'a Vec<Sheet>, selection: &SheetSelection) -> (r: SheetResolution<'a>)
    ensures
        resolution_is(r, sheets@, sheet_choice(sheets@, *selection)),
{
    if let Some(index) = selection.index {
        if index < sheets.len() {
            return SheetResolution::Found(&sheets[index]);
        }
        return SheetResolution::NotFound;
    }
    if let Some(id) = &selection.id {
        let mut i: usize = 0;
        while i < sheets.len()
            invariant
                i <= sheets@.len(),
                selection.index is None,
                selection.id == Some(*id),
                forall|k: int| 0 <= k < i ==> #[trigger] sheets@[k].id.0@ != id@,
            decreases sheets@.len() - i,
        {
            if str_equal(sheets[i].id.0.as_str(), id.as_str()) {
                proof {
                    let c = choose|j: int|
                        0 <= j < sheets@.len() && sheets@[j].id.0@ == id@ && forall|k: int|
                            0 <= k < j ==> #[trigger] sheets@[k].id.0@ != id@;
                    assert(sheets@[i as int].id.0@ == id@);
                    if c < i {
                        assert(sheets@[c].id.0@ != id@);
                    } else if c > i {
                        assert(sheets@[i as int].id.0@ != id@);
                    }
                }
                return SheetResolution::Found(&sheets[i]);
            }
            i = i + 1;
        }
        return SheetResolution::NotFound;
    }
    if let Some(title) = &selection.title {
        let mut matches: Vec<&'a Sheet> = Vec::new();
        let ghost mut positions: Seq<int> = seq![];
        let mut i: usize = 0;
        while i < sheets.len()
            invariant
                i <= sheets@.len(),
                selection.index is None,
                selection.id is None,
                selection.title == Some(*title),
                positions == titled_sheets(sheets@, title@, i as int),
                matches@.len() == positions.len(),
                forall|k: int|
                    0 <= k < positions.len() ==> 0 <= positions[k] < sheets@.len() && *matches@[k]
                        == sheets@[#[trigger] positions[k]],
            decreases sheets@.len() - i,
        {
            proof {
                lemma_titled_sheets_bounds(sheets@, title@, i as int);
            }
            if str_equal(sheets[i].title.as_str(), title.as_str()) {
                matches.push(&sheets[i]);
                proof {
                    positions = positions.push(i as int);
                }
            }
            i = i + 1;
        }
        if matches.len() == 0 {
            return SheetResolution::NotFound;
        }
        if matches.len() == 1 {
            return SheetResolution::Found(matches[0]);
        }
        return SheetResolution::Ambiguous(matches);
    }
    if sheets.len() > 0 {
        SheetResolution::Found(&sheets[0])
    } else {
        SheetResolution::NotFound
    }
}

/// The selection as error details: the index, id or title it asked for.
pub open spec fn selection_details(sel: SheetSelection) -> Json {
    match (sel.index, sel.id, sel.title) {
        (Some(i), _, _) => Json::Object(
            seq![("sheet_index"@, Json::Number(crate::text::decimal_spec(i as nat)))],
        ),
        (None, Some(id), _) => Json::Object(seq![("sheet_id"@, Json::String(id@))]),
        (None, None, Some(t)) => Json::Object(seq![("sheet"@, Json::String(t@))]),
        (None, None, None) => Json::Null,
    }
}

impl SheetSelection {
    /// The selection as error details.
    pub fn to_details(&self) -> (r: JsonValue)
        ensures
            r@ == selection_details(*self),
    {
        let mut members: Vec<JsonMember> = Vec::new();
        if let Some(index) = self.index {
            push_member(&mut members, "sheet_index", json_count(index));
        } else if let Some(id) = &self.id {
            push_member(&mut members, "sheet_id", json_string(id.clone()));
        } else if let Some(title) = &self.title {
            push_member(&mut members, "sheet", json_string(title.clone()));
        } else {
            return JsonValue::Null;
        }
        let r = JsonValue::Object(members);
        proof {
            assert(crate::infra::xmind::json::json_members_view(members@) =~= match selection_details(*self) {
                Json::Object(m) => m,
                _ => seq![],
            });
        }
        r
    }
}

/// The sheet a command works on, or the error reported: `sheet_not_found` when the
/// selection matches none, `ambiguous_sheet` with each matching sheet as a candidate
/// when a title matches several; both carry the selection as details.
pub fn select_sheet_or_error<'a>(sheets: &'a Vec<Sheet>, selection: &SheetSelection) -> (r: Result<
    &'a Sheet,
    CliErrorBody,
>)
    ensures
        match sheet_choice(sheets@, *selection) {
            SheetChoice::Found(i) => r matches Ok(s) && 0 <= i < sheets@.len() && *s == sheets@[i],
            SheetChoice::NotFound => r matches Err(e) && e.code == ErrorCode::SheetNotFound && e.exit_code == crate::cli::output::exit_code_spec(ErrorCode::SheetNotFound)
                && e.message@ == "Sheet selector did not match any sheet."@ && e.retryable
                && e.suggested_fix@
                == "Run sheets to list available sheet titles, ids, and indexes, then retry."@
                && e.details@ == selection_details(*selection) && e.candidates@.len() == 0,
            SheetChoice::Ambiguous(m) => r matches Err(e) && e.code == ErrorCode::AmbiguousSheet && e.exit_code == crate::cli::output::exit_code_spec(ErrorCode::AmbiguousSheet)
                && e.message@ == "Sheet selector matched multiple sheets."@ && e.retryable
                && e.suggested_fix@ == "Retry with one of the candidate sheet ids."@ && e.details@
                == selection_details(*selection) && e.candidates@.len() == m.len() && forall|k: int|
                0 <= k < m.len() ==> {
                    let c = #[trigger] e.candidates@[k];
                    &&& c.id@ == sheets@[m[k]].id.0@
                    &&& c.path@ == "/"@
                    &&& c.title@ == sheets@[m[k]].title@
                    &&& c.sheet is Some
                    &&& c.sheet->0@ == sheets@[m[k]].title@
                },
        },
{
    match select_sheet(sheets, selection) {
        SheetResolution::Found(s) => Ok(s),
        SheetResolution::NotFound => Err(
            CliErrorBody::new(
                ErrorCode::SheetNotFound,
                "Sheet selector did not match any sheet.".to_owned(),
                true,
                "Run sheets to list available sheet titles, ids, and indexes, then retry.".to_owned(),
            ).with_details(selection.to_details()),
        ),
        SheetResolution::Ambiguous(matches) => {
            let ghost m = match sheet_choice(sheets@, *selection) {
                SheetChoice::Ambiguous(m) => m,
                _ => seq![],
            };
            let mut candidates: Vec<CandidateDto> = Vec::new();
            let mut k: usize = 0;
            while k < matches.len()
                invariant
                    k <= matches@.len(),
                    matches@.len() == m.len(),
                    forall|j: int|
                        0 <= j < m.len() ==> 0 <= m[j] < sheets@.len() && *matches@[j]
                            == sheets@[#[trigger] m[j]],
                    candidates@.len() == k,
                    forall|j: int|
                        0 <= j < k ==> {
                            let c = #[trigger] candidates@[j];
                            &&& c.id@ == sheets@[m[j]].id.0@
                            &&& c.path@ == "/"@
                            &&& c.title@ == sheets@[m[j]].title@
                            &&& c.sheet is Some
                            &&& c.sheet->0@ == sheets@[m[j]].title@
                        },
                decreases matches@.len() - k,
            {
                let s = matches[k];
                proof {
                    assert(*s == sheets@[m[k as int]]);
                }
                candidates.push(
                    CandidateDto {
                        id: s.id.0.clone(),
                        path: "/".to_owned(),
                        title: s.title.clone(),
                        sheet: Some(s.title.clone()),
                    },
                );
                k = k + 1;
            }
            Err(
                CliErrorBody::new(
                    ErrorCode::AmbiguousSheet,
                    "Sheet selector matched multiple sheets.".to_owned(),
                    true,
                    "Retry with one of the candidate sheet ids.".to_owned(),
                ).with_details(selection.to_details()).with_candidates(candidates),
            )
        },
    }
}

} // verus!

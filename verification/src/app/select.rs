//! Resolving a selector to exactly one topic, with the error each failure is reported as.
use vstd::prelude::*;
use crate::app::resolve::{
    located_of, located_seq, resolve_spec, resolve_topic, resolve_view, Located, ResolveOne,
    ResolveSpec, ResolvedTopic,
};
use crate::cli::output::{CandidateDto, CliErrorBody, ErrorCode};
use crate::domain::path::render_path_spec;
use crate::domain::selector::{
    parse_selector_spec, render_selector_spec, selector_error_message, Selector, SelectorErrorSpec,
    SelectorSpec,
};
use crate::domain::topic::Topic;
use crate::text::{chars_of, push_all, string_from_chars};

verus! {

/// The wording of the errors for one use of a selector: the error code, message prefix
/// and fix for an unreadable selector; the message prefix and fix when nothing
/// matches; the message and fix when several topics match; and, inside a patch, the
/// index and name of the operation.
pub struct SelectorRole {
    pub invalid_code: ErrorCode,
    pub invalid_prefix: String,
    pub invalid_fix: String,
    pub not_found_prefix: String,
    pub not_found_fix: String,
    pub ambiguous_message: String,
    pub ambiguous_fix: String,
    pub operation: Option<(usize, String)>,
}

/// The wording of a role, as text.
pub struct RoleSpec {
    pub invalid_code: ErrorCode,
    pub invalid_prefix: Seq<char>,
    pub invalid_fix: Seq<char>,
    pub not_found_prefix: Seq<char>,
    pub not_found_fix: Seq<char>,
    pub ambiguous_message: Seq<char>,
    pub ambiguous_fix: Seq<char>,
    pub operation: Option<(usize, Seq<char>)>,
}

impl View for SelectorRole {
    type V = RoleSpec;

    open spec fn view(&self) -> RoleSpec {
        RoleSpec {
            invalid_code: self.invalid_code,
            invalid_prefix: self.invalid_prefix@,
            invalid_fix: self.invalid_fix@,
            not_found_prefix: self.not_found_prefix@,
            not_found_fix: self.not_found_fix@,
            ambiguous_message: self.ambiguous_message@,
            ambiguous_fix: self.ambiguous_fix@,
            operation: match self.operation {
                Some((i, op)) => Some((i, op@)),
                None => None,
            },
        }
    }
}

/// The candidate reported for a matched topic.
pub open spec fn candidate_matches(c: CandidateDto, l: Located, sheet: Seq<char>) -> bool {
    &&& c.id@ == l.0.id.0@
    &&& c.path@ == render_path_spec(l.1)
    &&& c.title@ == l.0.title@
    &&& c.sheet is Some
    &&& c.sheet->0@ == sheet
}

/// The operation context an error carries for a role.
pub open spec fn has_operation_context(e: CliErrorBody, role: RoleSpec) -> bool {
    match role.operation {
        Some((i, op)) => e.operation_index == Some(i) && e.operation is Some && e.operation->0@
            == op,
        None => e.operation_index is None && e.operation is None,
    }
}

/// What resolving `text` against the tree under `root` gives for a role: the topic
/// found, or the error reported.
pub open spec fn resolve_one_ok(root: Topic, text: Seq<char>) -> Option<Located> {
    match parse_selector_spec(text) {
        Err(_) => None,
        Ok(sel) => match resolve_spec(root, sel) {
            ResolveSpec::Found(l) => Some(l),
            _ => None,
        },
    }
}

fn add_operation_context(e: CliErrorBody, role: &SelectorRole) -> (r: CliErrorBody)
    requires
        e.operation_index is None,
        e.operation is None,
    ensures
        has_operation_context(r, role@),
        r.code == e.code,
        r.message == e.message,
        r.retryable == e.retryable,
        r.suggested_fix == e.suggested_fix,
        r.selector == e.selector,
        r.candidates == e.candidates,
        r.field_path == e.field_path,
        r.path == e.path,
        r.exit_code == e.exit_code,
        r.details == e.details,
{
    match &role.operation {
        Some((i, op)) => e.with_operation_context(*i, op.clone()),
        None => e,
    }
}

pub fn concat(a: &str, b: &str) -> (r: String)
    ensures
        r@ == a@ + b@,
{
    let mut out: Vec<char> = Vec::new();
    let x = chars_of(a);
    push_all(&mut out, x.as_slice());
    let y = chars_of(b);
    push_all(&mut out, y.as_slice());
    string_from_chars(out.as_slice())
}

/// The error reported for a selector text that does not parse: the role's code, its
/// prefix followed by what is wrong, and its fix.
pub open spec fn parse_error_matches(e: CliErrorBody, pe: SelectorErrorSpec, role: RoleSpec) -> bool {
    &&& e.retryable
    &&& has_operation_context(e, role)
    &&& e.field_path is None
    &&& e.path is None
    &&& e.exit_code == crate::cli::output::exit_code_spec(e.code)
    &&& e.code == role.invalid_code
    &&& e.message@ == role.invalid_prefix + selector_error_message(pe)
    &&& e.suggested_fix@ == role.invalid_fix
    &&& e.selector is None
    &&& e.candidates@.len() == 0
}

/// The error reported when the selector `sel` does not pick exactly one topic under
/// `root`: no match as `not_found`; several matches as `ambiguous_selector`, listing each
/// match as a candidate in the sheet titled `sheet`.
pub open spec fn resolve_failure_matches(
    e: CliErrorBody,
    root: Topic,
    sel: SelectorSpec,
    role: RoleSpec,
    sheet: Seq<char>,
) -> bool {
    &&& e.retryable
    &&& has_operation_context(e, role)
    &&& e.field_path is None
    &&& e.path is None
    &&& e.exit_code == crate::cli::output::exit_code_spec(e.code)
    &&& e.selector is Some
    &&& e.selector->0@ == render_selector_spec(sel)
    &&& match resolve_spec(root, sel) {
        ResolveSpec::Found(_) => false,
        ResolveSpec::NotFound => {
            &&& e.code == ErrorCode::NotFound
            &&& e.message@ == role.not_found_prefix + render_selector_spec(sel)
            &&& e.suggested_fix@ == role.not_found_fix
            &&& e.candidates@.len() == 0
        },
        ResolveSpec::Ambiguous(all) => {
            &&& e.code == ErrorCode::AmbiguousSelector
            &&& e.message@ == role.ambiguous_message
            &&& e.suggested_fix@ == role.ambiguous_fix
            &&& e.candidates@.len() == all.len()
            &&& forall|k: int|
                0 <= k < all.len() ==> candidate_matches(#[trigger] e.candidates@[k], all[k], sheet)
        },
    }
}

/// The error reported when `text` does not resolve to exactly one topic under `root`.
pub open spec fn resolve_error_matches(
    e: CliErrorBody,
    root: Topic,
    text: Seq<char>,
    role: RoleSpec,
    sheet: Seq<char>,
) -> bool {
    match parse_selector_spec(text) {
        Err(pe) => parse_error_matches(e, pe, role),
        Ok(sel) => resolve_failure_matches(e, root, sel, role, sheet),
    }
}

/// Reads `text` as a selector, reporting a parse failure in the role's wording.
pub fn parse_for_role(text: &str, role: &SelectorRole) -> (r: Result<Selector, CliErrorBody>)
    ensures
        match parse_selector_spec(text@) {
            Ok(sel) => r matches Ok(s) && s@ == sel,
            Err(pe) => r matches Err(e) && parse_error_matches(e, pe, role@),
        },
{
    match Selector::parse(text) {
        Ok(s) => Ok(s),
        Err(pe) => {
            let msg = concat(role.invalid_prefix.as_str(), pe.message().as_str());
            let e = CliErrorBody::new(role.invalid_code, msg, true, role.invalid_fix.clone());
            Err(add_operation_context(e, role))
        },
    }
}

/// Resolves a parsed selector to exactly one topic under `root`, reporting a failure in
/// the role's wording.
pub fn resolve_for_role<'a>(
    root: &'a Topic,
    selector: &Selector,
    role: &SelectorRole,
    sheet_title: &str,
) -> (r: Result<ResolvedTopic<'a>, CliErrorBody>)
    ensures
        match resolve_spec(*root, selector@) {
            ResolveSpec::Found(l) => r matches Ok(x) && located_of(x) == l,
            _ => r matches Err(e) && resolve_failure_matches(
                e,
                *root,
                selector@,
                role@,
                sheet_title@,
            ),
        },
{
    let rendered = selector.render();
    match resolve_topic(root, selector) {
        ResolveOne::Found(found) => Ok(found),
        ResolveOne::NotFound => {
            let msg = concat(role.not_found_prefix.as_str(), rendered.as_str());
            let e = CliErrorBody::new(ErrorCode::NotFound, msg, true, role.not_found_fix.clone());
            let e = add_operation_context(e, role);
            Err(e.with_selector(rendered))
        },
        ResolveOne::Ambiguous(matches) => {
            let ghost all = located_seq(matches@);
            let mut candidates: Vec<CandidateDto> = Vec::new();
            let mut k: usize = 0;
            while k < matches.len()
                invariant
                    k <= matches@.len(),
                    all == located_seq(matches@),
                    candidates@.len() == k,
                    forall|j: int|
                        0 <= j < k ==> candidate_matches(
                            #[trigger] candidates@[j],
                            all[j],
                            sheet_title@,
                        ),
                decreases matches@.len() - k,
            {
                let m = &matches[k];
                candidates.push(
                    CandidateDto {
                        id: m.topic.id.0.clone(),
                        path: m.path.to_selector_value(),
                        title: m.topic.title.clone(),
                        sheet: Some(sheet_title.to_owned()),
                    },
                );
                k = k + 1;
            }
            let e = CliErrorBody::new(
                ErrorCode::AmbiguousSelector,
                role.ambiguous_message.clone(),
                true,
                role.ambiguous_fix.clone(),
            );
            let e = add_operation_context(e, role);
            Err(e.with_selector(rendered).with_candidates(candidates))
        },
    }
}

/// Resolves `text` to exactly one topic of the tree under `root`.
pub fn resolve_one<'a>(root: &'a Topic, text: &str, role: &SelectorRole, sheet_title: &str) -> (r:
    Result<ResolvedTopic<'a>, CliErrorBody>)
    ensures
        match resolve_one_ok(*root, text@) {
            Some(l) => r matches Ok(x) && located_of(x) == l,
            None => r matches Err(e) && resolve_error_matches(e, *root, text@, role@, sheet_title@),
        },
{
    let selector = match parse_for_role(text, role) {
        Ok(s) => s,
        Err(e) => return Err(e),
    };
    resolve_for_role(root, &selector, role, sheet_title)
}

} // verus!

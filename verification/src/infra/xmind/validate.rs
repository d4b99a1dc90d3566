//! Structural validation of `content.json`: required fields, unique topic ids, the shape
//! of children and relationships, and images that point at resources the package lacks.
use vstd::prelude::*;
use crate::infra::xmind::content::{
    attached_of, attached_ref, find_key, key_index, lemma_attached_decreases,
    lemma_attached_height, json_height, member_value, mv, set_member, with_member, Members,
};
use crate::infra::xmind::decode::is_resource_entry;
use crate::infra::xmind::json::{
    json_items_view, json_view, lemma_items_view, lemma_members_view, Json, JsonMember, JsonValue,
};
use crate::text::{chars_of, decimal, decimal_spec, push_all, string_from_chars, trim, trim_spec};

verus! {

/// The outcome of validating a workbook.
#[derive(Debug)]
pub struct ValidateResultDto {
    pub valid: bool,
    pub warnings: Vec<ValidationDiagnosticDto>,
    pub errors: Vec<ValidationDiagnosticDto>,
}

/// One finding: what it is, what went wrong, where, and how to fix it.
#[derive(Debug)]
pub struct ValidationDiagnosticDto {
    pub code: String,
    pub message: String,
    pub path: String,
    pub suggested_fix: String,
}

/// Why a workbook could not be validated at all.
#[derive(Debug, PartialEq, Eq)]
pub enum ValidateReadError {
    Io(String),
    Zip(String),
    UnsupportedFormat,
    Json(String),
}

impl ValidateReadError {
    /// The message that reports the error.
    pub fn message(&self) -> (r: String)
        ensures
            r@ == match self {
                ValidateReadError::Io(d) => "workbook package could not be opened: "@ + d@,
                ValidateReadError::Zip(d) => "workbook package is not a readable zip archive: "@ + d@,
                ValidateReadError::UnsupportedFormat => "workbook package uses an unsupported XMind format variant"@,
                ValidateReadError::Json(d) => "content.json could not be decoded: "@ + d@,
            },
    {
        match self {
            ValidateReadError::Io(d) => cat("workbook package could not be opened: ", d.as_str()),
            ValidateReadError::Zip(d) => cat("workbook package is not a readable zip archive: ", d.as_str()),
            ValidateReadError::UnsupportedFormat => "workbook package uses an unsupported XMind format variant".to_string(),
            ValidateReadError::Json(d) => cat("content.json could not be decoded: ", d.as_str()),
        }
    }
}

/// A finding as mathematics sees it.
pub struct Diag {
    pub code: Seq<char>,
    pub message: Seq<char>,
    pub path: Seq<char>,
    pub fix: Seq<char>,
}

/// What validation has found so far: the topic ids met (each with the path where it was
/// last met), the warnings and the errors.
pub struct ValState {
    pub ids: Members,
    pub warnings: Seq<Diag>,
    pub errors: Seq<Diag>,
}

/// A finding by its texts.
pub open spec fn diag_view(d: ValidationDiagnosticDto) -> Diag {
    Diag { code: d.code@, message: d.message@, path: d.path@, fix: d.suggested_fix@ }
}

/// Findings by their texts.
pub open spec fn diags_view(ds: Seq<ValidationDiagnosticDto>) -> Seq<Diag> {
    ds.map_values(|d: ValidationDiagnosticDto| diag_view(d))
}

/// The state with an error added.
pub open spec fn err(st: ValState, code: Seq<char>, message: Seq<char>, path: Seq<char>, fix: Seq<char>) -> ValState {
    ValState { errors: st.errors.push(Diag { code, message, path, fix }), ..st }
}

/// The state with a warning added.
pub open spec fn warn(st: ValState, code: Seq<char>, message: Seq<char>, path: Seq<char>, fix: Seq<char>) -> ValState {
    ValState { warnings: st.warnings.push(Diag { code, message, path, fix }), ..st }
}

/// The text of a required field: a string that is not blank.
pub open spec fn required_text(v: Option<Json>) -> Option<Seq<char>> {
    match v {
        Some(Json::String(s)) => if trim_spec(s).len() > 0 {
            Some(s)
        } else {
            None
        },
        _ => None,
    }
}

/// The check of a required field: an error where it is missing or blank.
pub open spec fn check_required(st: ValState, v: Option<Json>, path: Seq<char>, label: Seq<char>) -> ValState {
    match required_text(v) {
        Some(_) => st,
        None => err(
            st,
            "missing_required_field"@,
            "Missing required "@ + label + "."@,
            path,
            "Open and re-save the workbook, or restore the "@ + label + "."@,
        ),
    }
}

/// The check of a topic's id: required, and recorded at `path`; an error where it was
/// met before, naming where it was last met.
pub open spec fn check_topic_id(st: ValState, ms: Members, path: Seq<char>) -> ValState {
    let v = member_value(ms, "id"@);
    match required_text(v) {
        Some(id) => {
            let st2 = ValState { ids: with_member(st.ids, id, Json::String(path)), ..st };
            match member_value(st.ids, id) {
                Some(previous) => err(
                    st2,
                    "duplicate_topic_id"@,
                    "Topic id `"@ + id + "` appears more than once."@,
                    path + ".id ("@ + id + ")"@,
                    "Assign a unique id to this topic; first occurrence is at "@ + previous->String_0 + "."@,
                ),
                None => st2,
            }
        },
        None => check_required(st, v, path + ".id"@, "topic id"@),
    }
}

/// The check of a topic's image: a warning where it points into `resources/` at an
/// asset the package does not have.
pub open spec fn check_image(st: ValState, ms: Members, path: Seq<char>, res: Seq<Seq<char>>) -> ValState {
    match member_value(ms, "image"@) {
        Some(Json::Object(ims)) => match member_value(ims, "src"@) {
            Some(Json::String(src)) => if crate::text::starts_with_spec(src, "xap:resources/"@) && !res.contains(src) {
                warn(
                    st,
                    "missing_resource"@,
                    "Topic image references missing resource `"@ + src + "`."@,
                    path + ".image.src"@,
                    "Restore the missing package resource or remove the image reference."@,
                )
            } else {
                st
            },
            _ => st,
        },
        _ => st,
    }
}

/// The value of `children.attached`, whatever it is.
pub open spec fn attached_member(ms: Members) -> Option<Json> {
    match member_value(ms, "children"@) {
        Some(Json::Object(cms)) => member_value(cms, "attached"@),
        _ => None,
    }
}

/// The check of a topic object and, in order, of the topics attached under it.
pub open spec fn check_topic(st: ValState, t: Json, path: Seq<char>, res: Seq<Seq<char>>) -> ValState
    decreases t, 1nat, 0int,
{
    match t {
        Json::Object(ms) => {
            let st1 = check_topic_id(st, ms, path);
            let st2 = check_required(st1, member_value(ms, "title"@), path + ".title"@, "topic title"@);
            let st3 = check_image(st2, ms, path, res);
            match attached_of(ms) {
                Some(items) => {
                    proof {
                        lemma_attached_decreases(t);
                    }
                    check_children(st3, items, path, res, items.len() as int)
                },
                None => if attached_member(ms) is Some {
                    err(
                        st3,
                        "invalid_topic_order"@,
                        "children.attached must be an array when present."@,
                        path + ".children.attached"@,
                        "Open and re-save the workbook, or restore attached children as an array."@,
                    )
                } else {
                    st3
                },
            }
        },
        _ => st,
    }
}

/// The path of the `i`-th attached child of the topic at `path`.
pub open spec fn attached_path(path: Seq<char>, i: nat) -> Seq<char> {
    path + ".children.attached["@ + decimal_spec(i) + "]"@
}

/// The checks of the first `n` attached children, in order.
pub open spec fn check_children(st: ValState, items: Seq<Json>, path: Seq<char>, res: Seq<Seq<char>>, n: int) -> ValState
    decreases items, 0nat, n,
{
    if n <= 0 || n > items.len() {
        st
    } else {
        let st1 = check_children(st, items, path, res, n - 1);
        let cp = attached_path(path, (n - 1) as nat);
        match items[n - 1] {
            Json::Object(_) => check_topic(st1, items[n - 1], cp, res),
            _ => err(
                st1,
                "invalid_topic_order"@,
                "Attached child topic must be an object."@,
                cp,
                "Open and re-save the workbook, or remove the invalid child entry."@,
            ),
        }
    }
}

/// The check of one relationship endpoint: it must name a topic id met so far.
pub open spec fn check_endpoint(st: ValState, rms: Members, rp: Seq<char>, endpoint: Seq<char>) -> ValState {
    let ep = rp + "."@ + endpoint;
    match member_value(rms, endpoint) {
        Some(Json::String(id)) => if member_value(st.ids, id) is Some {
            st
        } else {
            err(
                st,
                "broken_relationship_reference"@,
                "Relationship endpoint `"@ + id + "` does not match any topic id."@,
                ep,
                "Update the relationship endpoint to an existing topic id or remove the relationship."@,
            )
        },
        _ => err(
            st,
            "missing_required_field"@,
            "Relationship is missing required "@ + endpoint + "."@,
            ep,
            "Open and re-save the workbook, or restore the relationship endpoint."@,
        ),
    }
}

/// The checks of the first `n` relationships, in order.
pub open spec fn check_rels(st: ValState, items: Seq<Json>, path: Seq<char>, n: int) -> ValState
    decreases n,
{
    if n <= 0 || n > items.len() {
        st
    } else {
        let st1 = check_rels(st, items, path, n - 1);
        let rp = path + "["@ + decimal_spec((n - 1) as nat) + "]"@;
        match items[n - 1] {
            Json::Object(rms) => check_endpoint(check_endpoint(st1, rms, rp, "end1Id"@), rms, rp, "end2Id"@),
            _ => err(
                st1,
                "invalid_relationships"@,
                "Relationship entry must be an object."@,
                rp,
                "Open and re-save the workbook, or remove the invalid relationship entry."@,
            ),
        }
    }
}

/// The check of a sheet's relationships.
pub open spec fn check_relationships(st: ValState, rel: Json, path: Seq<char>) -> ValState {
    match rel {
        Json::Array(items) => check_rels(st, items, path, items.len() as int),
        _ => err(
            st,
            "invalid_relationships"@,
            "relationships must be an array when present."@,
            path,
            "Open and re-save the workbook, or remove the invalid relationships entry."@,
        ),
    }
}

/// The check of one sheet: id, title, root topic, then relationships.
pub open spec fn check_sheet(st: ValState, sheet: Json, path: Seq<char>, res: Seq<Seq<char>>) -> ValState {
    match sheet {
        Json::Object(sm) => {
            let st1 = check_required(st, member_value(sm, "id"@), path + ".id"@, "sheet id"@);
            let st2 = check_required(st1, member_value(sm, "title"@), path + ".title"@, "sheet title"@);
            let rp = path + ".rootTopic"@;
            let st3 = match member_value(sm, "rootTopic"@) {
                Some(Json::Object(rms)) => check_topic(st2, Json::Object(rms), rp, res),
                _ => err(
                    st2,
                    "missing_required_field"@,
                    "Sheet is missing required rootTopic."@,
                    rp,
                    "Open and re-save the workbook, or restore the sheet root topic."@,
                ),
            };
            match member_value(sm, "relationships"@) {
                Some(rel) => check_relationships(st3, rel, path + ".relationships"@),
                None => st3,
            }
        },
        _ => err(
            st,
            "missing_sheet"@,
            "Sheet entry must be an object."@,
            path,
            "Open and re-save the workbook, or remove the invalid sheet entry."@,
        ),
    }
}

/// The checks of the first `n` sheets, in order.
pub open spec fn check_sheets(st: ValState, sheets: Seq<Json>, res: Seq<Seq<char>>, n: int) -> ValState
    decreases n,
{
    if n <= 0 || n > sheets.len() {
        st
    } else {
        check_sheet(
            check_sheets(st, sheets, res, n - 1),
            sheets[n - 1],
            "content.json["@ + decimal_spec((n - 1) as nat) + "]"@,
            res,
        )
    }
}

/// The check of `content.json`: an array with at least one sheet, each sheet checked.
pub open spec fn check_content(st: ValState, c: Json, res: Seq<Seq<char>>) -> ValState {
    match c {
        Json::Array(sheets) => {
            let st1 = if sheets.len() == 0 {
                err(
                    st,
                    "missing_sheet"@,
                    "Workbook must contain at least one sheet."@,
                    "content.json"@,
                    "Create at least one sheet before retrying validation."@,
                )
            } else {
                st
            };
            check_sheets(st1, sheets, res, sheets.len() as int)
        },
        _ => err(
            st,
            "missing_sheet"@,
            "content.json must be an array of sheets."@,
            "content.json"@,
            "Open and re-save the workbook, or regenerate content.json as a sheet array."@,
        ),
    }
}

/// Whether every recorded id is paired with a path.
pub open spec fn ids_are_paths(ids: Members) -> bool {
    forall|i: int| 0 <= i < ids.len() ==> (#[trigger] ids[i]).1 is String
}

/// Recording an id with a path keeps every id paired with a path, and a recorded id is
/// paired with a path.
pub proof fn lemma_ids_strings(ids: Members, k: Seq<char>, v: Json)
    requires
        ids_are_paths(ids),
        v is String,
    ensures
        ids_are_paths(with_member(ids, k, v)),
        member_value(ids, k) is Some ==> member_value(ids, k)->0 is String,
{
    crate::infra::xmind::content::lemma_key_from(ids, k, 0);
    let w = with_member(ids, k, v);
    assert forall|i: int| 0 <= i < w.len() implies (#[trigger] w[i]).1 is String by {
        if i < ids.len() {
            assert(w[i] == ids[i] || w[i] == (k, v));
        }
    }
}

/// The validator: the package's resources, and what it has found so far.
pub struct StructuralValidator {
    pub resources: Vec<String>,
    pub topic_ids: Vec<JsonMember>,
    pub warnings: Vec<ValidationDiagnosticDto>,
    pub errors: Vec<ValidationDiagnosticDto>,
}

/// An optional JSON value as mathematics sees it.
pub open spec fn opt_json(v: Option<&JsonValue>) -> Option<Json> {
    match v {
        Some(j) => Some(j@),
        None => None,
    }
}

fn cat(a: &str, b: &str) -> (r: String)
    ensures
        r@ == a@ + b@,
{
    let mut cs = chars_of(a);
    let t = chars_of(b);
    push_all(&mut cs, t.as_slice());
    string_from_chars(cs.as_slice())
}

fn cat3(a: &str, b: &str, c: &str) -> (r: String)
    ensures
        r@ == a@ + b@ + c@,
{
    let ab = cat(a, b);
    cat(ab.as_str(), c)
}

fn index_text(i: usize) -> (r: String)
    ensures
        r@ == decimal_spec(i as nat),
{
    let d = decimal(i);
    string_from_chars(d.as_slice())
}

/// The value of the member `k`, where it stands.
pub fn member_ref<'a>(ms: &'a Vec<JsonMember>, k: &str) -> (r: Option<&'a JsonValue>)
    ensures
        opt_json(r) == member_value(mv(ms@), k@),
{
    proof {
        lemma_members_view(ms@);
    }
    match find_key(ms, k) {
        Some(i) => Some(&ms[i].value),
        None => None,
    }
}

/// The text of a required field, if it is a string that is not blank.
pub fn required_text_of(v: Option<&JsonValue>) -> (r: Option<String>)
    ensures
        crate::infra::xmind::content::opt_text(r) == required_text(opt_json(v)),
{
    match v {
        Some(JsonValue::String(s)) => {
            let cs = chars_of(s.as_str());
            let t = trim(cs.as_slice());
            if t.len() > 0 {
                Some(s.clone())
            } else {
                None
            }
        },
        _ => None,
    }
}

impl StructuralValidator {
    /// What the validator has found so far.
    pub open spec fn state(&self) -> ValState {
        ValState { ids: mv(self.topic_ids@), warnings: diags_view(self.warnings@), errors: diags_view(self.errors@) }
    }

    /// Every recorded id is paired with a path.
    pub open spec fn wf(&self) -> bool {
        ids_are_paths(mv(self.topic_ids@))
    }

    /// The asset ids of the package's resources.
    pub open spec fn res(&self) -> Seq<Seq<char>> {
        self.resources.deep_view()
    }

    /// A validator for a package with the given resources that has found nothing yet.
    pub fn new(resources: Vec<String>) -> (r: Self)
        ensures
            r.state() == (ValState { ids: seq![], warnings: seq![], errors: seq![] }),
            r.resources == resources,
            r.wf(),
    {
        let r = StructuralValidator { resources, topic_ids: Vec::new(), warnings: Vec::new(), errors: Vec::new() };
        proof {
            assert(mv(r.topic_ids@) =~= Seq::<(Seq<char>, Json)>::empty());
            assert(diags_view(r.warnings@) =~= Seq::<Diag>::empty());
            assert(diags_view(r.errors@) =~= Seq::<Diag>::empty());
        }
        r
    }

    fn add_error(&mut self, code: &str, message: String, path: String, fix: String)
        ensures
            final(self).state() == err(old(self).state(), code@, message@, path@, fix@),
            final(self).resources == old(self).resources,
            final(self).topic_ids == old(self).topic_ids,
    {
        let d = ValidationDiagnosticDto { code: code.to_string(), message, path, suggested_fix: fix };
        let ghost before = self.errors@;
        self.errors.push(d);
        proof {
            assert(diags_view(self.errors@) =~= diags_view(before).push(diag_view(d)));
        }
    }

    fn add_warning(&mut self, code: &str, message: String, path: String, fix: String)
        ensures
            final(self).state() == warn(old(self).state(), code@, message@, path@, fix@),
            final(self).resources == old(self).resources,
            final(self).topic_ids == old(self).topic_ids,
    {
        let d = ValidationDiagnosticDto { code: code.to_string(), message, path, suggested_fix: fix };
        let ghost before = self.warnings@;
        self.warnings.push(d);
        proof {
            assert(diags_view(self.warnings@) =~= diags_view(before).push(diag_view(d)));
        }
    }

    /// Checks a required field; gives its text where it is there.
    pub fn validate_required_string(&mut self, value: Option<&JsonValue>, path: &str, label: &str) -> (r: Option<String>)
        ensures
            final(self).state() == check_required(old(self).state(), opt_json(value), path@, label@),
            crate::infra::xmind::content::opt_text(r) == required_text(opt_json(value)),
            final(self).resources == old(self).resources,
            final(self).topic_ids == old(self).topic_ids,
    {
        match required_text_of(value) {
            Some(text) => Some(text),
            None => {
                self.add_error(
                    "missing_required_field",
                    cat3("Missing required ", label, "."),
                    path.to_string(),
                    cat3("Open and re-save the workbook, or restore the ", label, "."),
                );
                None
            },
        }
    }

    fn validate_topic_id(&mut self, ms: &Vec<JsonMember>, path: &String)
        requires
            old(self).wf(),
        ensures
            final(self).state() == check_topic_id(old(self).state(), mv(ms@), path@),
            final(self).resources == old(self).resources,
            final(self).wf(),
    {
        let idv = member_ref(ms, "id");
        let id_path = cat(path.as_str(), ".id");
        let ghost st = self.state();
        match required_text_of(idv) {
            Some(id) => {
                let previous = match member_ref(&self.topic_ids, id.as_str()) {
                    Some(JsonValue::String(p)) => Some(p.clone()),
                    _ => None,
                };
                let had = member_ref(&self.topic_ids, id.as_str()).is_some();
                set_member(&mut self.topic_ids, id.as_str(), JsonValue::String(path.clone()));
                if had {
                    let prev_text = match previous {
                        Some(p) => p,
                        None => String::new(),
                    };
                    let message = cat3("Topic id `", id.as_str(), "` appears more than once.");
                    let p1 = cat3(path.as_str(), ".id (", id.as_str());
                    let where_ = cat(p1.as_str(), ")");
                    let fix = cat3("Assign a unique id to this topic; first occurrence is at ", prev_text.as_str(), ".");
                    proof {
                        lemma_ids_strings(st.ids, id@, Json::String(path@));
                    }
                    self.add_error("duplicate_topic_id", message, where_, fix);
                }
            },
            None => {
                self.validate_required_string(idv, id_path.as_str(), "topic id");
            },
        }
    }
}

impl StructuralValidator {
    fn has_resource(&self, src: &str) -> (r: bool)
        ensures
            r == self.res().contains(src@),
    {
        let mut i: usize = 0;
        while i < self.resources.len()
            invariant
                i <= self.resources@.len(),
                forall|j: int| 0 <= j < i ==> self.res()[j] != src@,
            decreases self.resources@.len() - i,
        {
            if crate::text::str_equal(self.resources[i].as_str(), src) {
                proof {
                    assert(self.res()[i as int] == src@);
                }
                return true;
            }
            i = i + 1;
        }
        false
    }

    /// Checks a topic's image reference.
    pub fn validate_topic_image(&mut self, ms: &Vec<JsonMember>, path: &String)
        ensures
            final(self).state() == check_image(old(self).state(), mv(ms@), path@, old(self).res()),
            final(self).resources == old(self).resources,
            final(self).topic_ids == old(self).topic_ids,
    {
        match member_ref(ms, "image") {
            Some(JsonValue::Object(ims)) => match member_ref(ims, "src") {
                Some(JsonValue::String(src)) => {
                    let cs = chars_of(src.as_str());
                    let prefix = chars_of("xap:resources/");
                    if crate::text::starts_with(cs.as_slice(), prefix.as_slice()) && !self.has_resource(src.as_str()) {
                        self.add_warning(
                            "missing_resource",
                            cat3("Topic image references missing resource `", src.as_str(), "`."),
                            cat(path.as_str(), ".image.src"),
                            "Restore the missing package resource or remove the image reference.".to_string(),
                        );
                    }
                },
                _ => {},
            },
            _ => {},
        }
    }

    /// Checks a topic object and the topics attached under it.
    pub fn validate_topic(&mut self, t: &JsonValue, path: &String)
        requires
            old(self).wf(),
            t@ is Object,
        ensures
            final(self).state() == check_topic(old(self).state(), t@, path@, old(self).res()),
            final(self).resources == old(self).resources,
            final(self).wf(),
        decreases json_height(t@),
    {
        let ms = match t {
            JsonValue::Object(ms) => ms,
            _ => {
                return;
            },
        };
        let ghost res = self.res();
        self.validate_topic_id(ms, path);
        let title_path = cat(path.as_str(), ".title");
        self.validate_required_string(member_ref(ms, "title"), title_path.as_str(), "topic title");
        self.validate_topic_image(ms, path);
        let ghost st3 = self.state();
        match attached_ref(ms) {
            Some(items) => {
                let ghost iv = json_items_view(items@);
                proof {
                    lemma_attached_height(mv(ms@));
                    lemma_items_view(items@);
                }
                let mut k: usize = 0;
                while k < items.len()
                    invariant
                        k <= items@.len(),
                        iv == json_items_view(items@),
                        iv.len() == items@.len(),
                        forall|j: int| 0 <= j < items@.len() ==> #[trigger] iv[j] == json_view(items@[j]),
                        forall|j: int| 0 <= j < iv.len() ==> #[trigger] json_height(iv[j]) < json_height(t@),
                        self.res() == res,
                        self.resources == old(self).resources,
                        self.wf(),
                        self.state() == check_children(st3, iv, path@, res, k as int),
                    decreases items@.len() - k,
                {
                    let cp0 = cat(path.as_str(), ".children.attached[");
                    let idx = index_text(k);
                    let cp = cat3(cp0.as_str(), idx.as_str(), "]");
                    let child = &items[k];
                    match child {
                        JsonValue::Object(_) => {
                            proof {
                                assert(iv[k as int] == child@);
                                assert(json_height(iv[k as int]) < json_height(t@));
                            }
                            self.validate_topic(child, &cp);
                        },
                        _ => {
                            self.add_error(
                                "invalid_topic_order",
                                "Attached child topic must be an object.".to_string(),
                                cp,
                                "Open and re-save the workbook, or remove the invalid child entry.".to_string(),
                            );
                        },
                    }
                    k = k + 1;
                }
            },
            None => {
                let has_attached = match member_ref(ms, "children") {
                    Some(JsonValue::Object(cms)) => member_ref(cms, "attached").is_some(),
                    _ => false,
                };
                if has_attached {
                    self.add_error(
                        "invalid_topic_order",
                        "children.attached must be an array when present.".to_string(),
                        cat(path.as_str(), ".children.attached"),
                        "Open and re-save the workbook, or restore attached children as an array.".to_string(),
                    );
                }
            },
        }
    }

    fn validate_endpoint(&mut self, rms: &Vec<JsonMember>, rp: &String, endpoint: &str)
        ensures
            final(self).state() == check_endpoint(old(self).state(), mv(rms@), rp@, endpoint@),
            final(self).resources == old(self).resources,
            final(self).topic_ids == old(self).topic_ids,
    {
        let ep = cat3(rp.as_str(), ".", endpoint);
        match member_ref(rms, endpoint) {
            Some(JsonValue::String(id)) => {
                if member_ref(&self.topic_ids, id.as_str()).is_none() {
                    self.add_error(
                        "broken_relationship_reference",
                        cat3("Relationship endpoint `", id.as_str(), "` does not match any topic id."),
                        ep,
                        "Update the relationship endpoint to an existing topic id or remove the relationship.".to_string(),
                    );
                }
            },
            _ => {
                self.add_error(
                    "missing_required_field",
                    cat3("Relationship is missing required ", endpoint, "."),
                    ep,
                    "Open and re-save the workbook, or restore the relationship endpoint.".to_string(),
                );
            },
        }
    }

    /// Checks a sheet's relationships.
    pub fn validate_relationships(&mut self, relationships: &JsonValue, path: &String)
        ensures
            final(self).state() == check_relationships(old(self).state(), relationships@, path@),
            final(self).resources == old(self).resources,
            final(self).topic_ids == old(self).topic_ids,
    {
        match relationships {
            JsonValue::Array(items) => {
                let ghost iv = json_items_view(items@);
                let ghost st0 = self.state();
                proof {
                    lemma_items_view(items@);
                }
                let mut k: usize = 0;
                while k < items.len()
                    invariant
                        k <= items@.len(),
                        iv == json_items_view(items@),
                        iv.len() == items@.len(),
                        forall|j: int| 0 <= j < items@.len() ==> #[trigger] iv[j] == json_view(items@[j]),
                        self.resources == old(self).resources,
                        self.topic_ids == old(self).topic_ids,
                        self.state() == check_rels(st0, iv, path@, k as int),
                    decreases items@.len() - k,
                {
                    let idx = index_text(k);
                    let rp = cat3(path.as_str(), "[", idx.as_str());
                    let rp = cat(rp.as_str(), "]");
                    match &items[k] {
                        JsonValue::Object(rms) => {
                            self.validate_endpoint(rms, &rp, "end1Id");
                            self.validate_endpoint(rms, &rp, "end2Id");
                        },
                        _ => {
                            self.add_error(
                                "invalid_relationships",
                                "Relationship entry must be an object.".to_string(),
                                rp,
                                "Open and re-save the workbook, or remove the invalid relationship entry.".to_string(),
                            );
                        },
                    }
                    k = k + 1;
                }
            },
            _ => {
                self.add_error(
                    "invalid_relationships",
                    "relationships must be an array when present.".to_string(),
                    path.clone(),
                    "Open and re-save the workbook, or remove the invalid relationships entry.".to_string(),
                );
            },
        }
    }

    /// Checks one sheet.
    pub fn validate_sheet(&mut self, sheet: &JsonValue, path: &String)
        requires
            old(self).wf(),
        ensures
            final(self).state() == check_sheet(old(self).state(), sheet@, path@, old(self).res()),
            final(self).resources == old(self).resources,
            final(self).wf(),
    {
        match sheet {
            JsonValue::Object(sm) => {
                let id_path = cat(path.as_str(), ".id");
                self.validate_required_string(member_ref(sm, "id"), id_path.as_str(), "sheet id");
                let title_path = cat(path.as_str(), ".title");
                self.validate_required_string(member_ref(sm, "title"), title_path.as_str(), "sheet title");
                let root_path = cat(path.as_str(), ".rootTopic");
                match member_ref(sm, "rootTopic") {
                    Some(root) => match root {
                        JsonValue::Object(_) => {
                            self.validate_topic(root, &root_path);
                        },
                        _ => {
                            self.add_error(
                                "missing_required_field",
                                "Sheet is missing required rootTopic.".to_string(),
                                root_path,
                                "Open and re-save the workbook, or restore the sheet root topic.".to_string(),
                            );
                        },
                    },
                    None => {
                        self.add_error(
                            "missing_required_field",
                            "Sheet is missing required rootTopic.".to_string(),
                            root_path,
                            "Open and re-save the workbook, or restore the sheet root topic.".to_string(),
                        );
                    },
                }
                match member_ref(sm, "relationships") {
                    Some(rel) => {
                        let rel_path = cat(path.as_str(), ".relationships");
                        self.validate_relationships(rel, &rel_path);
                    },
                    None => {},
                }
            },
            _ => {
                self.add_error(
                    "missing_sheet",
                    "Sheet entry must be an object.".to_string(),
                    path.clone(),
                    "Open and re-save the workbook, or remove the invalid sheet entry.".to_string(),
                );
            },
        }
    }

    /// Checks `content.json`.
    pub fn validate_content(&mut self, content: &JsonValue)
        requires
            old(self).wf(),
        ensures
            final(self).state() == check_content(old(self).state(), content@, old(self).res()),
            final(self).resources == old(self).resources,
            final(self).wf(),
    {
        match content {
            JsonValue::Array(sheets) => {
                if sheets.len() == 0 {
                    self.add_error(
                        "missing_sheet",
                        "Workbook must contain at least one sheet.".to_string(),
                        "content.json".to_string(),
                        "Create at least one sheet before retrying validation.".to_string(),
                    );
                }
                let ghost iv = json_items_view(sheets@);
                let ghost st1 = self.state();
                let ghost res = self.res();
                proof {
                    lemma_items_view(sheets@);
                }
                let mut k: usize = 0;
                while k < sheets.len()
                    invariant
                        k <= sheets@.len(),
                        iv == json_items_view(sheets@),
                        iv.len() == sheets@.len(),
                        forall|j: int| 0 <= j < sheets@.len() ==> #[trigger] iv[j] == json_view(sheets@[j]),
                        self.res() == res,
                        self.resources == old(self).resources,
                        self.wf(),
                        self.state() == check_sheets(st1, iv, res, k as int),
                    decreases sheets@.len() - k,
                {
                    let idx = index_text(k);
                    let sp = cat3("content.json[", idx.as_str(), "]");
                    self.validate_sheet(&sheets[k], &sp);
                    k = k + 1;
                }
            },
            _ => {
                self.add_error(
                    "missing_sheet",
                    "content.json must be an array of sheets.".to_string(),
                    "content.json".to_string(),
                    "Open and re-save the workbook, or regenerate content.json as a sheet array.".to_string(),
                );
            },
        }
    }

    /// The outcome: valid where there is no error.
    pub fn into_result(self) -> (r: ValidateResultDto)
        ensures
            r.valid == (self.errors@.len() == 0),
            diags_view(r.warnings@) == self.state().warnings,
            diags_view(r.errors@) == self.state().errors,
    {
        let valid = self.errors.len() == 0;
        ValidateResultDto { valid, warnings: self.warnings, errors: self.errors }
    }
}

/// The asset ids of a package's resource entries.
pub open spec fn resource_set(names: Seq<Seq<char>>) -> Seq<Seq<char>>
    decreases names.len(),
{
    if names.len() == 0 {
        seq![]
    } else if crate::infra::xmind::decode::is_resource_entry_spec(names.last()) {
        resource_set(names.drop_last()).push("xap:"@ + names.last())
    } else {
        resource_set(names.drop_last())
    }
}

/// What validating `content.json` finds, starting from nothing.
pub open spec fn content_findings(names: Seq<Seq<char>>, c: Json) -> ValState {
    check_content(ValState { ids: seq![], warnings: seq![], errors: seq![] }, c, resource_set(names))
}

/// Validates the `content.json` of a package with the entries `names`: valid where
/// nothing is wrong, or, with `strict`, also nothing to warn about.
pub fn validate_workbook_content(names: &Vec<String>, content: &JsonValue, strict: bool) -> (r: ValidateResultDto)
    ensures
        diags_view(r.warnings@) == content_findings(names.deep_view(), content@).warnings,
        diags_view(r.errors@) == content_findings(names.deep_view(), content@).errors,
        r.valid == (content_findings(names.deep_view(), content@).errors.len() == 0 && !(strict
            && content_findings(names.deep_view(), content@).warnings.len() > 0)),
{
    let mut resources: Vec<String> = Vec::new();
    let mut i: usize = 0;
    while i < names.len()
        invariant
            i <= names@.len(),
            resources.deep_view() == resource_set(names.deep_view().take(i as int)),
        decreases names@.len() - i,
    {
        proof {
            assert(names.deep_view().take(i + 1).drop_last() =~= names.deep_view().take(i as int));
        }
        if is_resource_entry(names[i].as_str()) {
            let ghost before = resources.deep_view();
            resources.push(cat("xap:", names[i].as_str()));
            proof {
                assert(resources.deep_view() =~= before.push("xap:"@ + names@[i as int]@));
            }
        }
        i = i + 1;
    }
    proof {
        assert(names.deep_view().take(i as int) =~= names.deep_view());
    }
    let mut validator = StructuralValidator::new(resources);
    validator.validate_content(content);
    let mut result = validator.into_result();
    proof {
        lemma_diags_len(result.warnings@);
        lemma_diags_len(result.errors@);
    }
    if strict && result.warnings.len() > 0 {
        result.valid = false;
    }
    result
}

proof fn lemma_diags_len(ds: Seq<ValidationDiagnosticDto>)
    ensures
        diags_view(ds).len() == ds.len(),
{
}

/// Whether `r` is the outcome for a package without content: invalid, with the one
/// error that says so.
pub open spec fn missing_content_result(r: Result<ValidateResultDto, ValidateReadError>) -> bool {
    match r {
        Ok(res) => !res.valid && res.warnings@.len() == 0 && diags_view(res.errors@) == seq![
            Diag {
                code: "missing_content"@,
                message: "Workbook package does not contain content.json."@,
                path: "content.json"@,
                fix: "Open and re-save the workbook with a supported XMind version, then retry."@,
            },
        ],
        Err(_) => false,
    }
}

/// The outcome for a package without `content.json`: unreadable where it has a
/// `content.xml` (an older format), else invalid with one error.
pub fn validate_missing_content(names: &Vec<String>) -> (r: Result<ValidateResultDto, ValidateReadError>)
    ensures
        names.deep_view().contains("content.xml"@) ==> r == Err::<ValidateResultDto, ValidateReadError>(
            ValidateReadError::UnsupportedFormat,
        ),
        !names.deep_view().contains("content.xml"@) ==> missing_content_result(r),
{
    let has_xml = crate::infra::xmind::decode::contains_name(names, "content.xml");
    if has_xml {
        return Err(ValidateReadError::UnsupportedFormat);
    }
    let d = ValidationDiagnosticDto {
        code: "missing_content".to_string(),
        message: "Workbook package does not contain content.json.".to_string(),
        path: "content.json".to_string(),
        suggested_fix: "Open and re-save the workbook with a supported XMind version, then retry.".to_string(),
    };
    let mut errors: Vec<ValidationDiagnosticDto> = Vec::new();
    errors.push(d);
    proof {
        assert(diags_view(errors@) =~= seq![diag_view(d)]);
    }
    Ok(ValidateResultDto { valid: false, warnings: Vec::new(), errors })
}

} // verus!

//! Planning `set` edits of labels, markers, hyperlinks, cleared fields and images.
use vstd::prelude::*;
use crate::app::listing::string_views;
use crate::app::plan::{node_role, node_role_spec, UpdatePlan};
use crate::app::select::{concat, resolve_error_matches, resolve_one, resolve_one_ok};
use crate::cli::output::{CliErrorBody, ErrorCode};
use crate::domain::path::render_path_spec;
use crate::domain::topic::Topic;
use crate::infra::xmind::encode::TopicClearField;
use crate::text::{chars_of, contains, contains_spec, str_equal};

verus! {

/// A change to a topic's labels or markers: a new list, one item added, or every copy
/// of one item removed.
pub enum ListMutation {
    Replace(Vec<String>),
    Add(String),
    Remove(String),
}

/// A list change as text.
pub enum ListMutationSpec {
    Replace(Seq<Seq<char>>),
    Add(Seq<char>),
    Remove(Seq<char>),
}

impl View for ListMutation {
    type V = ListMutationSpec;

    open spec fn view(&self) -> ListMutationSpec {
        match self {
            ListMutation::Replace(v) => ListMutationSpec::Replace(string_views(v@)),
            ListMutation::Add(x) => ListMutationSpec::Add(x@),
            ListMutation::Remove(x) => ListMutationSpec::Remove(x@),
        }
    }
}

/// `s` without any item equal to `x`, the others in order.
pub open spec fn remove_all(s: Seq<Seq<char>>, x: Seq<char>) -> Seq<Seq<char>>
    decreases s.len(),
{
    if s.len() == 0 {
        seq![]
    } else if s.last() == x {
        remove_all(s.drop_last(), x)
    } else {
        remove_all(s.drop_last(), x).push(s.last())
    }
}

/// The list after the change: the new list; the old one with the item appended unless
/// it is already there; or the old one without the item.
pub open spec fn mutated_list(current: Seq<Seq<char>>, m: ListMutationSpec) -> Seq<Seq<char>> {
    match m {
        ListMutationSpec::Replace(v) => v,
        ListMutationSpec::Add(x) => if current.contains(x) {
            current
        } else {
            current.push(x)
        },
        ListMutationSpec::Remove(x) => remove_all(current, x),
    }
}

/// Removing every copy of `x` leaves no copy of it, and leaves a list without `x` as it was.
pub proof fn lemma_remove_all(s: Seq<Seq<char>>, x: Seq<char>)
    ensures
        !remove_all(s, x).contains(x),
        !s.contains(x) ==> remove_all(s, x) == s,
    decreases s.len(),
{
    if s.len() > 0 {
        lemma_remove_all(s.drop_last(), x);
        if !s.contains(x) {
            assert(!s.drop_last().contains(x)) by {
                if s.drop_last().contains(x) {
                    let k = choose|k: int| 0 <= k < s.drop_last().len() && s.drop_last()[k] == x;
                    assert(s[k] == x);
                }
            }
            assert(s.drop_last().push(s.last()) =~= s);
        }
        let r = remove_all(s.drop_last(), x);
        if s.last() != x {
            assert forall|k: int| 0 <= k < r.push(s.last()).len() implies r.push(s.last())[k] != x by {
                if k < r.len() {
                    assert(r[k] == r.push(s.last())[k]);
                }
            }
        }
    }
}

/// A list change made twice leaves the list as made once: an added item is there after
/// the first addition and is not added again, a removed item is gone after the first
/// removal, and a replacement gives the same list each time.
pub proof fn law_list_mutation_idempotent(current: Seq<Seq<char>>, m: ListMutationSpec)
    ensures
        mutated_list(mutated_list(current, m), m) == mutated_list(current, m),
        m matches ListMutationSpec::Add(x) ==> mutated_list(current, m).contains(x),
        m matches ListMutationSpec::Remove(x) ==> !mutated_list(current, m).contains(x),
{
    match m {
        ListMutationSpec::Replace(v) => {},
        ListMutationSpec::Add(x) => {
            if !current.contains(x) {
                assert(current.push(x)[current.len() as int] == x);
            }
        },
        ListMutationSpec::Remove(x) => {
            lemma_remove_all(current, x);
            lemma_remove_all(remove_all(current, x), x);
        },
    }
}

fn list_contains(v: &Vec<String>, x: &str) -> (r: bool)
    ensures
        r == string_views(v@).contains(x@),
{
    let mut i: usize = 0;
    while i < v.len()
        invariant
            i <= v@.len(),
            forall|k: int| 0 <= k < i ==> v@[k]@ != x@,
        decreases v@.len() - i,
    {
        if str_equal(v[i].as_str(), x) {
            proof {
                assert(string_views(v@)[i as int] == x@);
            }
            return true;
        }
        i = i + 1;
    }
    proof {
        if string_views(v@).contains(x@) {
            let k = choose|k: int| 0 <= k < string_views(v@).len() && string_views(v@)[k] == x@;
            assert(v@[k]@ == x@);
        }
    }
    false
}

/// The list `current` after the change `m`.
pub fn apply_list_mutation(current: &Vec<String>, m: &ListMutation) -> (r: Vec<String>)
    ensures
        string_views(r@) == mutated_list(string_views(current@), m@),
{
    match m {
        ListMutation::Replace(v) => {
            let out = crate::text::clone_strings(v);
            proof {
                assert(string_views(out@) =~= string_views(v@));
            }
            out
        },
        ListMutation::Add(x) => {
            let mut out = crate::text::clone_strings(current);
            proof {
                assert(string_views(out@) =~= string_views(current@));
            }
            if !list_contains(current, x.as_str()) {
                let ghost before = out@;
                out.push(x.clone());
                proof {
                    assert(string_views(out@) =~= string_views(before).push(x@));
                }
            }
            out
        },
        ListMutation::Remove(x) => {
            let mut out: Vec<String> = Vec::new();
            let mut i: usize = 0;
            proof {
                assert(current@.take(0) =~= Seq::<String>::empty());
                assert(string_views(out@) =~= remove_all(string_views(current@.take(0)), x@));
            }
            while i < current.len()
                invariant
                    i <= current@.len(),
                    string_views(out@) == remove_all(string_views(current@.take(i as int)), x@),
                decreases current@.len() - i,
            {
                let ghost before = out@;
                proof {
                    assert(string_views(current@.take(i + 1)).drop_last() =~= string_views(
                        current@.take(i as int),
                    ));
                    assert(string_views(current@.take(i + 1)).last() == current@[i as int]@);
                }
                if !str_equal(current[i].as_str(), x.as_str()) {
                    out.push(current[i].clone());
                    proof {
                        assert(string_views(out@) =~= string_views(before).push(current@[i as int]@));
                    }
                }
                i = i + 1;
            }
            proof {
                assert(current@.take(i as int) =~= current@);
            }
            out
        },
    }
}

/// The planned change of a topic's labels or markers.
pub struct ListPlan {
    pub update: UpdatePlan,
    pub new_items: Vec<String>,
}

/// The topic's labels (`markers` false) or markers (`markers` true).
pub open spec fn topic_list(t: Topic, markers: bool) -> Seq<Seq<char>> {
    if markers {
        string_views(t.markers@)
    } else {
        string_views(t.labels@)
    }
}

fn list_equal(a: &Vec<String>, b: &Vec<String>) -> (r: bool)
    ensures
        r == (string_views(a@) == string_views(b@)),
{
    if a.len() != b.len() {
        proof {
            assert(string_views(a@).len() != string_views(b@).len());
        }
        return false;
    }
    let mut i: usize = 0;
    while i < a.len()
        invariant
            a@.len() == b@.len(),
            i <= a@.len(),
            forall|k: int| 0 <= k < i ==> a@[k]@ == b@[k]@,
        decreases a@.len() - i,
    {
        if !str_equal(a[i].as_str(), b[i].as_str()) {
            proof {
                assert(string_views(a@)[i as int] != string_views(b@)[i as int]);
            }
            return false;
        }
        i = i + 1;
    }
    proof {
        assert(string_views(a@) =~= string_views(b@));
    }
    true
}

/// Plans `set --labels`/`--add-label`/`--remove-label` (or, with `markers`, the marker
/// options): the topic's new list, which changes it when it differs from the current one.
pub fn plan_set_list(
    root: &Topic,
    node: &str,
    markers: bool,
    mutation: &ListMutation,
    sheet_title: &str,
) -> (r: Result<ListPlan, CliErrorBody>)
    ensures
        match resolve_one_ok(*root, node@) {
            None => r matches Err(e) && resolve_error_matches(
                e,
                *root,
                node@,
                node_role_spec(),
                sheet_title@,
            ),
            Some(l) => r matches Ok(p) && p.update.id@ == l.0.id.0@ && p.update.path@
                == render_path_spec(l.1) && string_views(p.new_items@) == mutated_list(
                topic_list(l.0, markers),
                mutation@,
            ) && p.update.will_change == (topic_list(l.0, markers) != string_views(p.new_items@)),
        },
{
    let role = node_role();
    let found = match resolve_one(root, node, &role, sheet_title) {
        Ok(found) => found,
        Err(e) => return Err(e),
    };
    let current = if markers {
        &found.topic.markers
    } else {
        &found.topic.labels
    };
    let new_items = apply_list_mutation(current, mutation);
    let will_change = !list_equal(current, &new_items);
    Ok(ListPlan {
        update: UpdatePlan {
            id: found.topic.id.0.clone(),
            path: found.path.to_selector_value(),
            will_change,
        },
        new_items,
    })
}

/// Plans `set --hyperlink`: the topic changes unless it already links to `hyperlink`.
pub fn plan_set_hyperlink(root: &Topic, node: &str, hyperlink: &str, sheet_title: &str) -> (r:
    Result<UpdatePlan, CliErrorBody>)
    ensures
        match resolve_one_ok(*root, node@) {
            None => r matches Err(e) && resolve_error_matches(
                e,
                *root,
                node@,
                node_role_spec(),
                sheet_title@,
            ),
            Some(l) => r matches Ok(p) && p.id@ == l.0.id.0@ && p.path@ == render_path_spec(l.1)
                && p.will_change == !(l.0.hyperlink is Some && l.0.hyperlink->0@ == hyperlink@),
        },
{
    let role = node_role();
    let found = match resolve_one(root, node, &role, sheet_title) {
        Ok(found) => found,
        Err(e) => return Err(e),
    };
    let same = match &found.topic.hyperlink {
        Some(h) => str_equal(h.as_str(), hyperlink),
        None => false,
    };
    Ok(UpdatePlan { id: found.topic.id.0.clone(), path: found.path.to_selector_value(), will_change: !same })
}

/// The field a `--clear` value names, if it names one.
pub open spec fn clear_field_spec(f: Seq<char>) -> Option<TopicClearField> {
    if f == "note"@ {
        Some(TopicClearField::Note)
    } else if f == "labels"@ {
        Some(TopicClearField::Labels)
    } else if f == "markers"@ {
        Some(TopicClearField::Markers)
    } else if f == "hyperlink"@ {
        Some(TopicClearField::Hyperlink)
    } else if f == "image"@ {
        Some(TopicClearField::Image)
    } else {
        None
    }
}

/// The first `--clear` value, among the first `n`, that holds a comma or names no
/// field.
pub open spec fn first_bad_clear(fields: Seq<Seq<char>>, n: int) -> Option<int>
    decreases n,
{
    if n <= 0 || n > fields.len() {
        None
    } else {
        match first_bad_clear(fields, n - 1) {
            Some(i) => Some(i),
            None => if contains_spec(fields[n - 1], ","@) || clear_field_spec(fields[n - 1]) is None {
                Some(n - 1)
            } else {
                None
            },
        }
    }
}

/// The fields named by the first `n` values, each kept once at its first mention.
pub open spec fn clear_fields_spec(fields: Seq<Seq<char>>, n: int) -> Seq<TopicClearField>
    decreases n,
{
    if n <= 0 || n > fields.len() {
        seq![]
    } else {
        let prev = clear_fields_spec(fields, n - 1);
        let f = clear_field_spec(fields[n - 1])->0;
        if prev.contains(f) {
            prev
        } else {
            prev.push(f)
        }
    }
}

proof fn lemma_first_bad_clear_stable(fields: Seq<Seq<char>>, n: int, m: int)
    requires
        0 < n <= m <= fields.len(),
        first_bad_clear(fields, n) is Some,
    ensures
        first_bad_clear(fields, m) == first_bad_clear(fields, n),
    decreases m - n,
{
    if m > n {
        lemma_first_bad_clear_stable(fields, n, m - 1);
    }
}

fn clear_field_of(f: &str) -> (r: Option<TopicClearField>)
    ensures
        r == clear_field_spec(f@),
{
    if str_equal(f, "note") {
        Some(TopicClearField::Note)
    } else if str_equal(f, "labels") {
        Some(TopicClearField::Labels)
    } else if str_equal(f, "markers") {
        Some(TopicClearField::Markers)
    } else if str_equal(f, "hyperlink") {
        Some(TopicClearField::Hyperlink)
    } else if str_equal(f, "image") {
        Some(TopicClearField::Image)
    } else {
        None
    }
}

fn contains_field(v: &Vec<TopicClearField>, f: TopicClearField) -> (r: bool)
    ensures
        r == v@.contains(f),
{
    let mut i: usize = 0;
    while i < v.len()
        invariant
            i <= v@.len(),
            forall|k: int| 0 <= k < i ==> v@[k] != f,
        decreases v@.len() - i,
    {
        if v[i] == f {
            return true;
        }
        i = i + 1;
    }
    false
}

/// Reads the `--clear` values: each names one field (`note`, `labels`, `markers`,
/// `hyperlink` or `image`), one per flag; repeated fields count once.
pub fn parse_clear_fields(fields: Vec<String>) -> (r: Result<Vec<TopicClearField>, CliErrorBody>)
    ensures
        match first_bad_clear(string_views(fields@), fields@.len() as int) {
            None => r matches Ok(v) && v@ == clear_fields_spec(
                string_views(fields@),
                fields@.len() as int,
            ),
            Some(i) => r matches Err(e) && e.code == ErrorCode::InvalidUsage && e.exit_code == crate::cli::output::exit_code_spec(ErrorCode::InvalidUsage) && e.retryable && if contains_spec(
                fields@[i]@,
                ","@,
            ) {
                e.message@ == "Invalid --clear field: "@ + fields@[i]@ && e.suggested_fix@
                    == "Pass one field per --clear flag; comma-separated clear fields are not supported."@
            } else {
                e.message@ == "Unknown --clear field: "@ + fields@[i]@ && e.suggested_fix@
                    == "Use --clear note, --clear labels, --clear markers, --clear hyperlink, or --clear image."@
            },
        },
{
    let ghost fv = string_views(fields@);
    let mut parsed: Vec<TopicClearField> = Vec::new();
    let comma = chars_of(",");
    let mut i: usize = 0;
    while i < fields.len()
        invariant
            i <= fields@.len(),
            fv == string_views(fields@),
            comma@ == ","@,
            first_bad_clear(fv, i as int) is None,
            parsed@ == clear_fields_spec(fv, i as int),
        decreases fields@.len() - i,
    {
        let f = &fields[i];
        let cs = chars_of(f.as_str());
        proof {
            assert(fv[i as int] == f@);
        }
        if contains(cs.as_slice(), comma.as_slice()) {
            proof {
                assert(first_bad_clear(fv, i + 1) == Some(i as int));
                lemma_first_bad_clear_stable(fv, i + 1, fields@.len() as int);
            }
            return Err(
                CliErrorBody::new(
                    ErrorCode::InvalidUsage,
                    concat("Invalid --clear field: ", f.as_str()),
                    true,
                    "Pass one field per --clear flag; comma-separated clear fields are not supported.".to_owned(),
                ),
            );
        }
        let field = match clear_field_of(f.as_str()) {
            Some(x) => x,
            None => {
                proof {
                    assert(first_bad_clear(fv, i + 1) == Some(i as int));
                    lemma_first_bad_clear_stable(fv, i + 1, fields@.len() as int);
                }
                return Err(
                    CliErrorBody::new(
                        ErrorCode::InvalidUsage,
                        concat("Unknown --clear field: ", f.as_str()),
                        true,
                        "Use --clear note, --clear labels, --clear markers, --clear hyperlink, or --clear image.".to_owned(),
                    ),
                );
            },
        };
        if !contains_field(&parsed, field) {
            parsed.push(field);
        }
        i = i + 1;
    }
    Ok(parsed)
}

/// The name a cleared field is reported under.
pub open spec fn clear_field_name_spec(f: TopicClearField) -> Seq<char> {
    match f {
        TopicClearField::Note => "note"@,
        TopicClearField::Labels => "labels"@,
        TopicClearField::Markers => "markers"@,
        TopicClearField::Hyperlink => "hyperlink"@,
        TopicClearField::Image => "image"@,
    }
}

/// The name a cleared field is reported under.
pub fn clear_field_name(field: TopicClearField) -> (r: &'static str)
    ensures
        r@ == clear_field_name_spec(field),
{
    match field {
        TopicClearField::Note => "note",
        TopicClearField::Labels => "labels",
        TopicClearField::Markers => "markers",
        TopicClearField::Hyperlink => "hyperlink",
        TopicClearField::Image => "image",
    }
}

/// Whether the topic has something in the field to clear.
pub open spec fn field_is_set(t: Topic, f: TopicClearField) -> bool {
    match f {
        TopicClearField::Note => t.note is Some,
        TopicClearField::Labels => t.labels@.len() > 0,
        TopicClearField::Markers => t.markers@.len() > 0,
        TopicClearField::Hyperlink => t.hyperlink is Some,
        TopicClearField::Image => t.image is Some,
    }
}

fn is_set(t: &Topic, f: TopicClearField) -> (r: bool)
    ensures
        r == field_is_set(*t, f),
{
    match f {
        TopicClearField::Note => t.note.is_some(),
        TopicClearField::Labels => t.labels.len() > 0,
        TopicClearField::Markers => t.markers.len() > 0,
        TopicClearField::Hyperlink => t.hyperlink.is_some(),
        TopicClearField::Image => t.image.is_some(),
    }
}

/// The planned clearing of topic fields.
pub struct ClearPlan {
    pub update: UpdatePlan,
    pub changed_fields: Vec<String>,
}

/// Plans `set --clear`: the cleared fields are reported by name, in order; the topic
/// changes when one of them is set.
pub fn plan_set_clear(root: &Topic, node: &str, fields: &Vec<TopicClearField>, sheet_title: &str) -> (r:
    Result<ClearPlan, CliErrorBody>)
    ensures
        match resolve_one_ok(*root, node@) {
            None => r matches Err(e) && resolve_error_matches(
                e,
                *root,
                node@,
                node_role_spec(),
                sheet_title@,
            ),
            Some(l) => r matches Ok(p) && p.update.id@ == l.0.id.0@ && p.update.path@
                == render_path_spec(l.1) && string_views(p.changed_fields@) == fields@.map_values(
                |f: TopicClearField| clear_field_name_spec(f),
            ) && p.update.will_change == exists|i: int|
                0 <= i < fields@.len() && field_is_set(l.0, #[trigger] fields@[i]),
        },
{
    let role = node_role();
    let found = match resolve_one(root, node, &role, sheet_title) {
        Ok(found) => found,
        Err(e) => return Err(e),
    };
    let mut names: Vec<String> = Vec::new();
    let mut will_change = false;
    let mut i: usize = 0;
    while i < fields.len()
        invariant
            i <= fields@.len(),
            string_views(names@) == fields@.take(i as int).map_values(
                |f: TopicClearField| clear_field_name_spec(f),
            ),
            will_change == exists|k: int| 0 <= k < i && field_is_set(*found.topic, #[trigger] fields@[k]),
        decreases fields@.len() - i,
    {
        let ghost before = names@;
        let name = clear_field_name(fields[i]).to_owned();
        names.push(name);
        proof {
            assert(name@ == clear_field_name_spec(fields@[i as int]));
            assert(string_views(names@) =~= string_views(before).push(name@));
            assert(fields@.take(i + 1) =~= fields@.take(i as int).push(fields@[i as int]));
            assert(string_views(names@) =~= fields@.take(i + 1).map_values(
                |f: TopicClearField| clear_field_name_spec(f),
            ));
        }
        if is_set(found.topic, fields[i]) {
            will_change = true;
        }
        i = i + 1;
    }
    proof {
        assert(fields@.take(i as int) =~= fields@);
    }
    Ok(ClearPlan {
        update: UpdatePlan {
            id: found.topic.id.0.clone(),
            path: found.path.to_selector_value(),
            will_change,
        },
        changed_fields: names,
    })
}

/// Where an attached image is stored in the package: its entry name under
/// `resources/` and the asset id `xap:` that names it.
pub struct ImageAsset {
    pub entry_name: String,
    pub asset_id: String,
}

/// Names the package entry of the image file at `image_path` after its file name.
pub fn plan_image_asset(image_path: &str) -> (r: Result<ImageAsset, CliErrorBody>)
    ensures
        match crate::infra::fs::paths::path_file_name(image_path@) {
            None => r matches Err(e) && e.code == ErrorCode::InvalidUsage && e.exit_code == crate::cli::output::exit_code_spec(ErrorCode::InvalidUsage) && e.message@
                == "Image path must include a file name."@ && e.retryable && e.suggested_fix@
                == "Pass a local image file path such as ./diagram.png."@ && e.path is Some
                && e.path->0@ == image_path@,
            Some(n) => r matches Ok(a) && a.entry_name@ == "resources/"@ + n && a.asset_id@
                == "xap:resources/"@ + n,
        },
{
    let name = match crate::infra::fs::paths::file_name_of(image_path) {
        Some(n) => n,
        None => return Err(
            CliErrorBody::new(
                ErrorCode::InvalidUsage,
                "Image path must include a file name.".to_owned(),
                true,
                "Pass a local image file path such as ./diagram.png.".to_owned(),
            ).with_path(image_path.to_owned()),
        ),
    };
    let entry_name = concat("resources/", name.as_str());
    let asset_id = concat("xap:", entry_name.as_str());
    proof {
        reveal_strlit("xap:");
        reveal_strlit("resources/");
        reveal_strlit("xap:resources/");
        assert(asset_id@ =~= "xap:resources/"@ + name@);
    }
    Ok(ImageAsset { entry_name, asset_id })
}

/// Accepts image bytes only of a supported type (PNG, JPEG, GIF or SVG).
pub fn check_image_bytes(image_path: &str, bytes: &[u8]) -> (r: Result<(), CliErrorBody>)
    ensures
        r is Ok <==> crate::infra::xmind::assets::media_type_spec(bytes@) is Some,
        r matches Err(e) ==> e.code == ErrorCode::UnsupportedAssetType && e.exit_code == crate::cli::output::exit_code_spec(ErrorCode::UnsupportedAssetType) && e.message@
            == "Only PNG, JPEG, GIF, and SVG topic images are supported for attachment."@
            && !e.retryable && e.suggested_fix@ == "Convert the image to PNG or JPEG and retry."@
            && e.path is Some && e.path->0@ == image_path@,
{
    match crate::infra::xmind::assets::detect_supported_image_media_type(bytes) {
        Some(_) => Ok(()),
        None => Err(
            CliErrorBody::new(
                ErrorCode::UnsupportedAssetType,
                "Only PNG, JPEG, GIF, and SVG topic images are supported for attachment.".to_owned(),
                false,
                "Convert the image to PNG or JPEG and retry.".to_owned(),
            ).with_path(image_path.to_owned()),
        ),
    }
}

/// Plans `set --image`: attaching an image always counts as a change.
pub fn plan_set_image(root: &Topic, node: &str, sheet_title: &str) -> (r: Result<
    UpdatePlan,
    CliErrorBody,
>)
    ensures
        match resolve_one_ok(*root, node@) {
            None => r matches Err(e) && resolve_error_matches(
                e,
                *root,
                node@,
                node_role_spec(),
                sheet_title@,
            ),
            Some(l) => r matches Ok(p) && p.id@ == l.0.id.0@ && p.path@ == render_path_spec(l.1)
                && p.will_change,
        },
{
    let role = node_role();
    let found = match resolve_one(root, node, &role, sheet_title) {
        Ok(found) => found,
        Err(e) => return Err(e),
    };
    Ok(UpdatePlan { id: found.topic.id.0.clone(), path: found.path.to_selector_value(), will_change: true })
}

} // verus!

//! Reading workbooks: the stored sheets and topics as `content.json` holds them, turned
//! into the workbook model, with the package entries and the unknown JSON fields kept
//! for the next write.
use vstd::prelude::*;
use crate::domain::sheet::{Sheet, SheetId};
use crate::domain::topic::{AssetId, Topic, TopicId, TopicImageRef};
use crate::domain::workbook::{PreservationBag, PreservedJsonField, ResourceIndex, Workbook};
use crate::infra::xmind::content::{labels_json, markers_json, note_json, opt_text};
use crate::infra::xmind::encode::{topic_json, topics_json};
use crate::infra::xmind::json::{clone_json, Json, JsonMember, JsonValue};
use crate::text::{chars_of, clone_strings, decimal, decimal_spec, push_all, string_from_chars};

verus! {

/// A stored sheet: its id, title and root topic, and the members not read.
#[derive(Debug)]
pub struct StorageSheet {
    pub id: String,
    pub title: String,
    pub root_topic: StorageTopic,
    pub unknown_fields: Vec<JsonMember>,
}

/// A stored topic: the members read, and those not read.
#[derive(Debug)]
pub struct StorageTopic {
    pub id: String,
    pub title: String,
    pub notes: Option<StorageNotes>,
    pub href: Option<String>,
    pub image: Option<StorageImage>,
    pub labels: Vec<String>,
    pub markers: Vec<StorageMarker>,
    pub children: StorageChildren,
    pub unknown_fields: Vec<JsonMember>,
}

/// A stored marker.
#[derive(Debug)]
pub struct StorageMarker {
    pub marker_id: String,
}

/// A stored image reference; one without `src` is no image.
#[derive(Debug)]
pub struct StorageImage {
    pub src: Option<String>,
    pub alt: Option<String>,
    pub title: Option<String>,
}

/// Stored notes; only the plain-text one is read.
#[derive(Debug)]
pub struct StorageNotes {
    pub plain: Option<StoragePlainNote>,
}

/// A stored plain-text note.
#[derive(Debug)]
pub struct StoragePlainNote {
    pub content: String,
}

/// The stored children of a topic.
#[derive(Debug)]
pub struct StorageChildren {
    pub attached: Vec<StorageTopic>,
}

/// Why a workbook could not be read.
#[derive(Debug, PartialEq, Eq)]
pub enum XMindReadError {
    Io(String),
    Zip(String),
    MissingContent,
    UnsupportedFormat,
    Json(String),
}

fn with_detail(prefix: &str, detail: &String) -> (r: String)
    ensures
        r@ == prefix@ + detail@,
{
    let mut cs = chars_of(prefix);
    let tail = chars_of(detail.as_str());
    push_all(&mut cs, tail.as_slice());
    string_from_chars(cs.as_slice())
}

impl XMindReadError {
    /// The message that reports the error.
    pub fn message(&self) -> (r: String)
        ensures
            r@ == match self {
                XMindReadError::Io(d) => "workbook package could not be opened: "@ + d@,
                XMindReadError::Zip(d) => "workbook package is not a readable zip archive: "@ + d@,
                XMindReadError::MissingContent => "workbook package does not contain content.json"@,
                XMindReadError::UnsupportedFormat => "workbook package uses an unsupported XMind format variant"@,
                XMindReadError::Json(d) => "content.json could not be decoded: "@ + d@,
            },
    {
        match self {
            XMindReadError::Io(d) => with_detail("workbook package could not be opened: ", d),
            XMindReadError::Zip(d) => with_detail("workbook package is not a readable zip archive: ", d),
            XMindReadError::MissingContent => "workbook package does not contain content.json".to_string(),
            XMindReadError::UnsupportedFormat => "workbook package uses an unsupported XMind format variant".to_string(),
            XMindReadError::Json(d) => with_detail("content.json could not be decoded: ", d),
        }
    }
}

/// The note text that stored notes give: the plain note's content, if any.
pub open spec fn note_text(n: Option<StorageNotes>) -> Option<Seq<char>> {
    match n {
        Some(notes) => match notes.plain {
            Some(p) => Some(p.content@),
            None => None,
        },
        None => None,
    }
}

/// The marker ids of stored markers.
pub open spec fn marker_ids(ms: Seq<StorageMarker>) -> Seq<Seq<char>> {
    ms.map_values(|m: StorageMarker| m.marker_id@)
}

/// Whether a topic image is what a stored image reference reads as: present exactly
/// where the reference has a `src`.
pub open spec fn image_read(i: Option<TopicImageRef>, s: Option<StorageImage>) -> bool {
    match s {
        Some(img) => match img.src {
            Some(src) => i matches Some(t) && t.asset_id.0@ == src@ && opt_text(t.alt) == opt_text(img.alt)
                && opt_text(t.title) == opt_text(img.title),
            None => i is None,
        },
        None => i is None,
    }
}

/// Whether `t` is the topic that the stored topic `s` reads as, children included.
pub open spec fn topic_read(t: Topic, s: StorageTopic) -> bool
    decreases s,
{
    &&& t.id.0@ == s.id@
    &&& t.title@ == s.title@
    &&& opt_text(t.note) == note_text(s.notes)
    &&& t.labels.deep_view() == s.labels.deep_view()
    &&& t.markers.deep_view() == marker_ids(s.markers@)
    &&& opt_text(t.hyperlink) == opt_text(s.href)
    &&& image_read(t.image, s.image)
    &&& t.children@.len() == s.children.attached@.len()
    &&& forall|i: int|
        0 <= i < s.children.attached@.len() ==> topic_read(
            #[trigger] t.children@[i],
            s.children.attached@[i],
        )
}

proof fn lemma_topics_json(ts: Seq<Topic>, n: int)
    requires
        0 <= n <= ts.len(),
    ensures
        topics_json(ts, n).len() == n,
        forall|i: int| 0 <= i < n ==> #[trigger] topics_json(ts, n)[i] == topic_json(ts[i]),
    decreases n,
{
    if n > 0 {
        lemma_topics_json(ts, n - 1);
    }
}

/// What is read is written back: writing a topic read from storage stores the stored
/// topic's id and title, its labels and markers where it has any (and no labels where it
/// has none), its hyperlink and its note, and its children in order, each a stored child
/// as read.
pub proof fn law_read_topic_writes_back(t: Topic, s: StorageTopic)
    requires
        topic_read(t, s),
    ensures
        topic_json(t) is Object,
        topic_json(t)->Object_0.contains(("id"@, Json::String(s.id@))),
        topic_json(t)->Object_0.contains(("title"@, Json::String(s.title@))),
        s.labels@.len() > 0 ==> topic_json(t)->Object_0.contains(
            ("labels"@, labels_json(s.labels.deep_view())),
        ),
        s.labels@.len() == 0 ==> forall|j: int|
            0 <= j < topic_json(t)->Object_0.len() ==> (#[trigger] topic_json(t)->Object_0[j]).0
                != "labels"@,
        s.markers@.len() > 0 ==> topic_json(t)->Object_0.contains(
            ("markers"@, markers_json(marker_ids(s.markers@))),
        ),
        s.href is Some ==> topic_json(t)->Object_0.contains(("href"@, Json::String(s.href->0@))),
        note_text(s.notes) is Some ==> topic_json(t)->Object_0.contains(
            ("notes"@, note_json(note_text(s.notes)->0)),
        ),
        topic_json(t)->Object_0.last() == (
            "children"@,
            Json::Object(
                seq![("attached"@, Json::Array(topics_json(t.children@, t.children@.len() as int)))],
            ),
        ),
        topics_json(t.children@, t.children@.len() as int).len() == s.children.attached@.len(),
        forall|i: int|
            0 <= i < s.children.attached@.len() ==> topics_json(
                t.children@,
                t.children@.len() as int,
            )[i] == topic_json(t.children@[i]) && topic_read(
                t.children@[i],
                #[trigger] s.children.attached@[i],
            ),
{
    lemma_topics_json(t.children@, t.children@.len() as int);
    reveal_strlit("id");
    reveal_strlit("title");
    reveal_strlit("notes");
    reveal_strlit("href");
    reveal_strlit("image");
    reveal_strlit("labels");
    reveal_strlit("markers");
    reveal_strlit("children");
    let ms = topic_json(t)->Object_0;
    let head = seq![("id"@, Json::String(t.id.0@)), ("title"@, Json::String(t.title@))];
    let notes = crate::infra::xmind::encode::member_if(t.note is Some, "notes"@, note_json(t.note->0@));
    let href = crate::infra::xmind::encode::member_if(t.hyperlink is Some, "href"@, Json::String(t.hyperlink->0@));
    let image = crate::infra::xmind::encode::member_if(
        t.image is Some,
        "image"@,
        crate::infra::xmind::encode::topic_image_json(t.image->0),
    );
    let labels = crate::infra::xmind::encode::member_if(t.labels@.len() > 0, "labels"@, labels_json(t.labels.deep_view()));
    let markers = crate::infra::xmind::encode::member_if(
        t.markers@.len() > 0,
        "markers"@,
        markers_json(t.markers.deep_view()),
    );
    let rest = ms.skip((head.len() + notes.len() + href.len() + image.len() + labels.len() + markers.len()) as int);
    assert(ms =~= head + notes + href + image + labels + markers + rest);
    assert(t.labels.deep_view().len() == t.labels@.len());
    assert(s.labels.deep_view().len() == s.labels@.len());
    assert(t.markers.deep_view().len() == t.markers@.len());
    assert(ms[0] == ("id"@, Json::String(s.id@)));
    assert(ms[1] == ("title"@, Json::String(s.title@)));
    if t.note is Some {
        assert(ms[2] == ("notes"@, note_json(note_text(s.notes)->0)));
    }
    if t.hyperlink is Some {
        assert(ms[(2 + notes.len()) as int] == ("href"@, Json::String(s.href->0@)));
    }
    let li = (2 + notes.len() + href.len() + image.len()) as int;
    if s.labels@.len() > 0 {
        assert(ms[li] == ("labels"@, labels_json(s.labels.deep_view())));
    } else {
        assert forall|j: int| 0 <= j < ms.len() implies (#[trigger] ms[j]).0 != "labels"@ by {
            assert(ms[j].0.len() != 6);
        }
    }
    if s.markers@.len() > 0 {
        assert(ms[li + labels.len()] == ("markers"@, markers_json(marker_ids(s.markers@))));
    }
}

/// Whether `t` is the sheet that the stored sheet `s` reads as.
pub open spec fn sheet_read(t: Sheet, s: StorageSheet) -> bool {
    t.id.0@ == s.id@ && t.title@ == s.title@ && topic_read(t.root, s.root_topic)
}

fn clone_opt(o: &Option<String>) -> (r: Option<String>)
    ensures
        opt_text(r) == opt_text(*o),
{
    match o {
        Some(s) => Some(s.clone()),
        None => None,
    }
}

impl StorageImage {
    /// The topic image a stored reference reads as; none without a `src`.
    pub fn to_topic_image(&self) -> (r: Option<TopicImageRef>)
        ensures
            image_read(r, Some(*self)),
    {
        match &self.src {
            Some(src) => Some(
                TopicImageRef::new(AssetId::new(src.clone()), clone_opt(&self.alt), clone_opt(&self.title)),
            ),
            None => None,
        }
    }
}

impl StorageTopic {
    /// The topic this stored topic reads as, children included.
    pub fn to_topic(&self) -> (r: Topic)
        ensures
            topic_read(r, *self),
        decreases self,
    {
        let note = match &self.notes {
            Some(notes) => match &notes.plain {
                Some(p) => Some(p.content.clone()),
                None => None,
            },
            None => None,
        };
        let mut markers: Vec<String> = Vec::new();
        let mut i: usize = 0;
        while i < self.markers.len()
            invariant
                i <= self.markers@.len(),
                markers.deep_view() =~= marker_ids(self.markers@).take(i as int),
            decreases self.markers@.len() - i,
        {
            let ghost before = markers.deep_view();
            markers.push(self.markers[i].marker_id.clone());
            proof {
                assert(markers.deep_view() =~= before.push(self.markers@[i as int].marker_id@));
                assert(marker_ids(self.markers@).take(i + 1) =~= marker_ids(self.markers@).take(i as int).push(
                    self.markers@[i as int].marker_id@,
                ));
            }
            i = i + 1;
        }
        proof {
            assert(marker_ids(self.markers@).take(i as int) =~= marker_ids(self.markers@));
        }
        let labels = clone_strings(&self.labels);
        proof {
            assert(labels.deep_view() =~= self.labels.deep_view());
        }
        let image = match &self.image {
            Some(img) => img.to_topic_image(),
            None => None,
        };
        let mut children: Vec<Topic> = Vec::new();
        let mut k: usize = 0;
        while k < self.children.attached.len()
            invariant
                k <= self.children.attached@.len(),
                children@.len() == k,
                forall|j: int| 0 <= j < k ==> topic_read(#[trigger] children@[j], self.children.attached@[j]),
            decreases self.children.attached@.len() - k,
        {
            proof {
                assert(decreases_to!(*self => self.children));
                assert(decreases_to!(self.children => self.children.attached));
                assert(decreases_to!(self.children.attached => self.children.attached@));
                assert(decreases_to!(self.children.attached@ => self.children.attached@[k as int]));
            }
            let c = self.children.attached[k].to_topic();
            children.push(c);
            k = k + 1;
        }
        Topic {
            id: TopicId(self.id.clone()),
            title: self.title.clone(),
            note,
            labels,
            markers,
            hyperlink: clone_opt(&self.href),
            image,
            children,
        }
    }
}

impl StorageSheet {
    /// The sheet this stored sheet reads as.
    pub fn to_sheet(&self) -> (r: Sheet)
        ensures
            sheet_read(r, *self),
    {
        Sheet { id: SheetId(self.id.clone()), title: self.title.clone(), root: self.root_topic.to_topic() }
    }
}

/// A preserved field by its path and value.
pub open spec fn field_view(f: PreservedJsonField) -> (Seq<char>, Json) {
    (f.path@, f.value@)
}

/// Preserved fields by their paths and values.
pub open spec fn fields_view(fs: Seq<PreservedJsonField>) -> Seq<(Seq<char>, Json)> {
    fs.map_values(|f: PreservedJsonField| field_view(f))
}

/// The unknown members of an object at `path`, each under `path.name`.
pub open spec fn unknown_at(path: Seq<char>, fields: Seq<JsonMember>) -> Seq<(Seq<char>, Json)> {
    fields.map_values(|m: JsonMember| (path + "."@ + m.key@, m.value@))
}

/// The path of the `i`-th attached child of the topic at `path`.
pub open spec fn child_path(path: Seq<char>, i: nat) -> Seq<char> {
    path + ".children.attached["@ + decimal_spec(i) + "]"@
}

/// The unknown fields of a stored topic and of the topics below it, each under its
/// path: the topic's own first, then each child's in order.
pub open spec fn topic_unknowns(s: StorageTopic, path: Seq<char>) -> Seq<(Seq<char>, Json)>
    decreases s, 1nat, 0int,
{
    unknown_at(path, s.unknown_fields@) + children_unknowns(
        s.children.attached@,
        path,
        s.children.attached@.len() as int,
    )
}

/// The unknown fields of the first `n` children of the topic at `path`.
pub open spec fn children_unknowns(cs: Seq<StorageTopic>, path: Seq<char>, n: int) -> Seq<(Seq<char>, Json)>
    decreases cs, 0nat, n,
{
    if n <= 0 || n > cs.len() {
        seq![]
    } else {
        children_unknowns(cs, path, n - 1) + topic_unknowns(cs[n - 1], child_path(path, (n - 1) as nat))
    }
}

fn concat_chars(a: &[char], b: &str) -> (r: Vec<char>)
    ensures
        r@ == a@ + b@,
{
    let mut v = crate::text::copy_chars(a);
    let t = chars_of(b);
    push_all(&mut v, t.as_slice());
    v
}

/// Keeps the unknown members of an object found at `path`.
pub fn preserve_unknown_fields(preservation: &mut PreservationBag, path: &[char], fields: &Vec<JsonMember>)
    ensures
        fields_view(final(preservation).json_fields()) == fields_view(old(preservation).json_fields())
            + unknown_at(path@, fields@),
        final(preservation).package_entries() == old(preservation).package_entries(),
{
    let ghost start = fields_view(preservation.json_fields());
    let mut i: usize = 0;
    while i < fields.len()
        invariant
            i <= fields@.len(),
            fields_view(preservation.json_fields()) == start + unknown_at(path@, fields@.take(i as int)),
            preservation.package_entries() == old(preservation).package_entries(),
        decreases fields@.len() - i,
    {
        let mut p = concat_chars(path, ".");
        let key = chars_of(fields[i].key.as_str());
        push_all(&mut p, key.as_slice());
        let ghost before = preservation.json_fields();
        preservation.preserve_json_field(string_from_chars(p.as_slice()), clone_json(&fields[i].value));
        proof {
            assert(fields@.take(i + 1) =~= fields@.take(i as int).push(fields@[i as int]));
            assert(fields_view(preservation.json_fields()) =~= fields_view(before).push(
                (path@ + "."@ + fields@[i as int].key@, fields@[i as int].value@),
            ));
            assert(unknown_at(path@, fields@.take(i + 1)) =~= unknown_at(path@, fields@.take(i as int)).push(
                (path@ + "."@ + fields@[i as int].key@, fields@[i as int].value@),
            ));
        }
        i = i + 1;
    }
    proof {
        assert(fields@.take(i as int) =~= fields@);
    }
}

impl StorageTopic {
    /// Keeps the unknown fields of this topic, found at `path`, and of the topics below.
    pub fn preserve_unknown_json_fields(&self, preservation: &mut PreservationBag, path: &[char])
        ensures
            fields_view(final(preservation).json_fields()) == fields_view(old(preservation).json_fields())
                + topic_unknowns(*self, path@),
            final(preservation).package_entries() == old(preservation).package_entries(),
        decreases self,
    {
        let ghost start = fields_view(preservation.json_fields());
        preserve_unknown_fields(preservation, path, &self.unknown_fields);
        let ghost mid = fields_view(preservation.json_fields());
        let mut k: usize = 0;
        while k < self.children.attached.len()
            invariant
                k <= self.children.attached@.len(),
                mid == start + unknown_at(path@, self.unknown_fields@),
                fields_view(preservation.json_fields()) == mid + children_unknowns(
                    self.children.attached@,
                    path@,
                    k as int,
                ),
                preservation.package_entries() == old(preservation).package_entries(),
            decreases self.children.attached@.len() - k,
        {
            proof {
                assert(decreases_to!(*self => self.children));
                assert(decreases_to!(self.children => self.children.attached));
                assert(decreases_to!(self.children.attached => self.children.attached@));
                assert(decreases_to!(self.children.attached@ => self.children.attached@[k as int]));
            }
            let mut p = concat_chars(path, ".children.attached[");
            let digits = decimal(k);
            push_all(&mut p, digits.as_slice());
            let p2 = concat_chars(p.as_slice(), "]");
            let ghost before = fields_view(preservation.json_fields());
            self.children.attached[k].preserve_unknown_json_fields(preservation, p2.as_slice());
            proof {
                assert(p2@ =~= child_path(path@, k as nat));
                assert(fields_view(preservation.json_fields()) =~= mid + children_unknowns(
                    self.children.attached@,
                    path@,
                    k + 1,
                ));
            }
            k = k + 1;
        }
        proof {
            assert(fields_view(preservation.json_fields()) =~= start + topic_unknowns(*self, path@));
        }
    }
}

impl StorageSheet {
    /// Keeps the unknown fields of this sheet, found at `path`, and of its topics, the
    /// root topic's under `path.rootTopic`.
    pub fn preserve_unknown_json_fields(&self, preservation: &mut PreservationBag, path: &[char])
        ensures
            fields_view(final(preservation).json_fields()) == fields_view(old(preservation).json_fields())
                + unknown_at(path@, self.unknown_fields@) + topic_unknowns(self.root_topic, path@ + ".rootTopic"@),
            final(preservation).package_entries() == old(preservation).package_entries(),
    {
        preserve_unknown_fields(preservation, path, &self.unknown_fields);
        let p = concat_chars(path, ".rootTopic");
        self.root_topic.preserve_unknown_json_fields(preservation, p.as_slice());
    }
}

/// Whether a package entry is a resource: a file under `resources/`.
pub open spec fn is_resource_entry_spec(name: Seq<char>) -> bool {
    crate::text::starts_with_spec(name, "resources/"@) && !crate::text::ends_with_spec(name, "/"@)
}

/// Whether a package entry is a resource.
pub fn is_resource_entry(name: &str) -> (r: bool)
    ensures
        r == is_resource_entry_spec(name@),
{
    let cs = chars_of(name);
    let prefix = chars_of("resources/");
    let slash = chars_of("/");
    crate::text::starts_with(cs.as_slice(), prefix.as_slice()) && !crate::text::ends_with(
        cs.as_slice(),
        slash.as_slice(),
    )
}

/// Which entries make a package unreadable before its content is: no `content.json`
/// where there is a `content.xml` (an older format), or no `content.json` at all.
pub open spec fn package_check(names: Seq<Seq<char>>) -> Result<(), XMindReadError> {
    if !names.contains("content.json"@) && names.contains("content.xml"@) {
        Err(XMindReadError::UnsupportedFormat)
    } else if !names.contains("content.json"@) {
        Err(XMindReadError::MissingContent)
    } else {
        Ok(())
    }
}

pub fn contains_name(names: &Vec<String>, name: &str) -> (r: bool)
    ensures
        r == names.deep_view().contains(name@),
{
    let mut i: usize = 0;
    while i < names.len()
        invariant
            i <= names@.len(),
            forall|j: int| 0 <= j < i ==> names.deep_view()[j] != name@,
        decreases names@.len() - i,
    {
        if crate::text::str_equal(names[i].as_str(), name) {
            proof {
                assert(names.deep_view()[i as int] == name@);
            }
            return true;
        }
        i = i + 1;
    }
    false
}

/// Checks a package's entry names before its content is read.
pub fn check_package_entries(names: &Vec<String>) -> (r: Result<(), XMindReadError>)
    ensures
        r == package_check(names.deep_view()),
{
    let has_json = contains_name(names, "content.json");
    if !has_json && contains_name(names, "content.xml") {
        Err(XMindReadError::UnsupportedFormat)
    } else if !has_json {
        Err(XMindReadError::MissingContent)
    } else {
        Ok(())
    }
}

/// The entries kept for rewriting: all but `content.json`, in order.
pub open spec fn kept_entries(names: Seq<Seq<char>>) -> Seq<Seq<char>> {
    names.filter(|n: Seq<char>| n != "content.json"@)
}

/// The asset ids of the resource entries, each once, in the order first met.
pub open spec fn resource_ids(names: Seq<Seq<char>>) -> Seq<Seq<char>>
    decreases names.len(),
{
    if names.len() == 0 {
        seq![]
    } else {
        let before = resource_ids(names.drop_last());
        let id = "xap:"@ + names.last();
        if is_resource_entry_spec(names.last()) && !before.contains(id) {
            before.push(id)
        } else {
            before
        }
    }
}

/// The sheets read from stored ones, in order.
pub open spec fn sheets_read(ws: Seq<Sheet>, ss: Seq<StorageSheet>) -> bool {
    ws.len() == ss.len() && forall|i: int| 0 <= i < ss.len() ==> sheet_read(#[trigger] ws[i], ss[i])
}

/// The unknown fields of the stored sheets, each sheet's under `sheets[i]`.
pub open spec fn sheets_unknowns(ss: Seq<StorageSheet>, n: int) -> Seq<(Seq<char>, Json)>
    decreases n,
{
    if n <= 0 || n > ss.len() {
        seq![]
    } else {
        let path = "sheets["@ + decimal_spec((n - 1) as nat) + "]"@;
        sheets_unknowns(ss, n - 1) + unknown_at(path, ss[n - 1].unknown_fields@) + topic_unknowns(
            ss[n - 1].root_topic,
            path + ".rootTopic"@,
        )
    }
}

/// The workbook read from a package with the entries `names` and the stored sheets of
/// its `content.json`: the sheets, the resources, the entries to keep and the unknown
/// fields.
pub fn workbook_from_storage(names: &Vec<String>, sheets: &Vec<StorageSheet>) -> (r: Workbook)
    ensures
        sheets_read(r.sheets@, sheets@),
        r.resources@ == resource_ids(names.deep_view()),
        r.preservation.package_entries().deep_view() == kept_entries(names.deep_view()),
        fields_view(r.preservation.json_fields()) == sheets_unknowns(sheets@, sheets@.len() as int),
{
    let mut preservation = PreservationBag::new();
    let mut resources = ResourceIndex::new();
    proof {
        assert(preservation.package_entries().deep_view() =~= kept_entries(names.deep_view().take(0)));
        assert(resources@ =~= resource_ids(names.deep_view().take(0)));
    }
    let mut i: usize = 0;
    while i < names.len()
        invariant
            i <= names@.len(),
            preservation.package_entries().deep_view() == kept_entries(names.deep_view().take(i as int)),
            preservation.json_fields() == Seq::<PreservedJsonField>::empty(),
            resources@ == resource_ids(names.deep_view().take(i as int)),
        decreases names@.len() - i,
    {
        let name = &names[i];
        let ghost before = names.deep_view().take(i as int);
        proof {
            assert(names.deep_view().take(i + 1) =~= before.push(name@));
            assert(names.deep_view().take(i + 1).drop_last() =~= before);
            assert(before.push(name@).filter(|n: Seq<char>| n != "content.json"@) =~= if name@ != "content.json"@ {
                before.filter(|n: Seq<char>| n != "content.json"@).push(name@)
            } else {
                before.filter(|n: Seq<char>| n != "content.json"@)
            }) by {
                reveal(Seq::filter);
                assert(before.push(name@).drop_last() =~= before);
            }
        }
        if !crate::text::str_equal(name.as_str(), "content.json") {
            let ghost pe = preservation.package_entries();
            preservation.preserve_package_entry(name.clone());
            proof {
                assert(preservation.package_entries().deep_view() =~= pe.deep_view().push(name@));
            }
        }
        if is_resource_entry(name.as_str()) {
            let id = with_detail("xap:", name);
            resources.insert_asset_id(AssetId::new(id));
        }
        i = i + 1;
    }
    proof {
        assert(names.deep_view().take(i as int) =~= names.deep_view());
        assert(fields_view(preservation.json_fields()) =~= sheets_unknowns(sheets@, 0));
    }
    let mut out: Vec<Sheet> = Vec::new();
    let mut k: usize = 0;
    while k < sheets.len()
        invariant
            k <= sheets@.len(),
            out@.len() == k,
            forall|j: int| 0 <= j < k ==> sheet_read(#[trigger] out@[j], sheets@[j]),
            fields_view(preservation.json_fields()) == sheets_unknowns(sheets@, k as int),
            preservation.package_entries().deep_view() == kept_entries(names.deep_view()),
        decreases sheets@.len() - k,
    {
        let mut p = chars_of("sheets[");
        let digits = decimal(k);
        push_all(&mut p, digits.as_slice());
        let p2 = concat_chars(p.as_slice(), "]");
        proof {
            assert(p2@ =~= "sheets["@ + decimal_spec(k as nat) + "]"@);
        }
        sheets[k].preserve_unknown_json_fields(&mut preservation, p2.as_slice());
        out.push(sheets[k].to_sheet());
        proof {
            assert(fields_view(preservation.json_fields()) =~= sheets_unknowns(sheets@, k + 1));
        }
        k = k + 1;
    }
    Workbook { sheets: out, resources, preservation }
}

} // verus!

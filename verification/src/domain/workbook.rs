//! Workbooks: sheets, the package's resources, and what is kept unread for rewriting.
use vstd::prelude::*;
use crate::domain::sheet::Sheet;
use crate::domain::topic::AssetId;
use crate::infra::xmind::json::JsonValue;
use crate::text::str_equal;

verus! {

/// A decoded workbook.
#[derive(Debug, PartialEq, Eq)]
pub struct Workbook {
    pub sheets: Vec<Sheet>,
    pub resources: ResourceIndex,
    pub preservation: PreservationBag,
}

/// The asset ids of the package's resource entries, each once.
#[derive(Clone, Debug, Default, PartialEq, Eq)]
pub struct ResourceIndex {
    asset_ids: Vec<String>,
}

/// What the workbook model does not read but must write back: the names of the other
/// package entries, and unknown JSON fields under their paths in `content.json`.
#[derive(Debug, Default, PartialEq, Eq)]
pub struct PreservationBag {
    package_entries: Vec<String>,
    json_fields: Vec<PreservedJsonField>,
}

/// An unknown JSON field: where it stood and its value.
#[derive(Debug, PartialEq, Eq)]
pub struct PreservedJsonField {
    pub path: String,
    pub value: JsonValue,
}

impl View for ResourceIndex {
    type V = Seq<Seq<char>>;

    closed spec fn view(&self) -> Seq<Seq<char>> {
        self.asset_ids.deep_view()
    }
}

impl ResourceIndex {
    /// An index without resources.
    pub fn new() -> (r: Self)
        ensures
            r@ == Seq::<Seq<char>>::empty(),
    {
        let r = ResourceIndex { asset_ids: Vec::new() };
        proof {
            assert(r@ =~= Seq::<Seq<char>>::empty());
        }
        r
    }

    /// Whether the index holds `id`.
    pub fn contains(&self, id: &str) -> (r: bool)
        ensures
            r == self@.contains(id@),
    {
        let mut i: usize = 0;
        while i < self.asset_ids.len()
            invariant
                i <= self.asset_ids@.len(),
                self@ == self.asset_ids.deep_view(),
                forall|k: int| 0 <= k < i ==> self@[k] != id@,
            decreases self.asset_ids@.len() - i,
        {
            if str_equal(self.asset_ids[i].as_str(), id) {
                proof {
                    assert(self@[i as int] == id@);
                }
                return true;
            }
            i = i + 1;
        }
        false
    }

    /// Adds an asset id unless the index already holds it.
    pub fn insert_asset_id(&mut self, id: AssetId)
        ensures
            old(self)@.contains(id.0@) ==> final(self)@ == old(self)@,
            !old(self)@.contains(id.0@) ==> final(self)@ == old(self)@.push(id.0@),
    {
        if !self.contains(id.as_str()) {
            let ghost before = self@;
            self.asset_ids.push(id.0);
            proof {
                assert(self@ =~= before.push(id.0@));
            }
        }
    }

    /// The number of resources.
    pub fn len(&self) -> (r: usize)
        ensures
            r == self@.len(),
    {
        self.asset_ids.len()
    }
}

impl PreservationBag {
    /// A bag with nothing kept.
    pub fn new() -> (r: Self)
        ensures
            r.package_entries()@.len() == 0,
            r.json_field_count() == 0,
            r.json_fields() == Seq::<PreservedJsonField>::empty(),
    {
        PreservationBag { package_entries: Vec::new(), json_fields: Vec::new() }
    }

    /// The kept package entry names.
    pub closed spec fn package_entries(&self) -> Vec<String> {
        self.package_entries
    }

    /// The number of kept JSON fields.
    pub closed spec fn json_field_count(&self) -> nat {
        self.json_fields@.len()
    }

    /// The kept JSON fields, in the order they were kept.
    pub closed spec fn json_fields(&self) -> Seq<PreservedJsonField> {
        self.json_fields@
    }

    /// Keeps the name of a package entry.
    pub fn preserve_package_entry(&mut self, name: String)
        ensures
            final(self).package_entries()@ == old(self).package_entries()@.push(name),
            final(self).json_fields() == old(self).json_fields(),
    {
        self.package_entries.push(name);
    }

    /// Keeps an unknown JSON field found at `path`.
    pub fn preserve_json_field(&mut self, path: String, value: JsonValue)
        ensures
            final(self).json_fields() == old(self).json_fields().push(
                PreservedJsonField { path, value },
            ),
            final(self).package_entries() == old(self).package_entries(),
    {
        self.json_fields.push(PreservedJsonField { path, value });
    }

    /// The kept JSON fields.
    pub fn raw_json_fields(&self) -> (r: &[PreservedJsonField])
        ensures
            r@ == self.json_fields(),
    {
        self.json_fields.as_slice()
    }

    /// Whether nothing is kept.
    pub fn is_empty(&self) -> (r: bool)
        ensures
            r == (self.package_entries()@.len() == 0 && self.json_fields().len() == 0),
    {
        self.package_entries.len() == 0 && self.json_fields.len() == 0
    }
}

} // verus!

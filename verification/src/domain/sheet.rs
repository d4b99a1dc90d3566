//! Sheets: one mind map each, with a single root topic.
use vstd::prelude::*;
use crate::domain::topic::Topic;

verus! {

/// A sheet of a workbook.
#[derive(Debug, PartialEq, Eq)]
pub struct Sheet {
    pub id: SheetId,
    pub title: String,
    pub root: Topic,
}

/// The stable identifier of a sheet.
#[derive(Clone, Debug, PartialEq, Eq)]
pub struct SheetId(pub String);

} // verus!

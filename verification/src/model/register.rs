//! Entries of the register in which yanked and trashed paths are kept.
use vstd::prelude::*;
use crate::path::{is_same_path, path_components};

verus! {

/// A path kept in the register: where it came from, and where its
/// compressed copy lies.
#[derive(Clone, Debug, PartialEq, Eq)]
pub struct RegisterEntry {
    pub cache: String,
    pub id: String,
    pub path: String,
}

/// A register entry as plain values.
pub struct RegisterEntryView {
    pub cache: Seq<char>,
    pub id: Seq<char>,
    pub path: Seq<char>,
}

impl DeepView for RegisterEntry {
    type V = RegisterEntryView;

    open spec fn deep_view(&self) -> RegisterEntryView {
        RegisterEntryView { cache: self.cache@, id: self.id@, path: self.path@ }
    }
}

/// What makes a register entry the same as another: its id, and its
/// paths by their components.
pub struct RegisterEntryIdentity {
    pub cache: Seq<Seq<char>>,
    pub id: Seq<char>,
    pub path: Seq<Seq<char>>,
}

/// The identity of a register entry.
pub open spec fn entry_identity(entry: RegisterEntryView) -> RegisterEntryIdentity {
    RegisterEntryIdentity {
        cache: path_components(entry.cache),
        id: entry.id,
        path: path_components(entry.path),
    }
}

impl RegisterEntry {
    /// Whether two entries are the same: of the same id and the same paths.
    pub fn same(&self, other: &RegisterEntry) -> (same: bool)
        ensures
            same == (entry_identity(self.deep_view()) == entry_identity(other.deep_view())),
    {
        is_same_path(self.cache.as_str(), other.cache.as_str()) && self.id == other.id
            && is_same_path(self.path.as_str(), other.path.as_str())
    }
}

} // verus!

//! The version store: the single "current version" scalar and the fixed
//! candidate list.
//!
//! The store here is the in-memory model of the persisted scalar; a file
//! backend around the library mirrors it to disk.  Its view is the optional
//! character sequence it holds, `None` standing for the unset state in
//! which no value was ever persisted.

use vstd::prelude::*;

verus! {

/// Holds the current-version scalar.  A fresh store is unset; setting a
/// value overwrites the previous one and never fails.
pub struct VersionStore {
    current: Option<String>,
}

impl View for VersionStore {
    type V = Option<Seq<char>>;

    closed spec fn view(&self) -> Option<Seq<char>> {
        self.current.deep_view()
    }
}

impl VersionStore {
    /// A store with no persisted value.
    pub fn new() -> (r: VersionStore)
        ensures
            r@ == None::<Seq<char>>,
    {
        VersionStore { current: None }
    }

    /// The current version, or `None` when nothing was ever set.
    pub fn get_current_version(&self) -> (r: Option<String>)
        ensures
            r.deep_view() == self@,
    {
        match &self.current {
            Some(v) => Some(v.clone()),
            None => None,
        }
    }

    /// Overwrites the current version with `version`.
    pub fn set_current_version(&mut self, version: &str)
        ensures
            final(self)@ == Some(version@),
    {
        self.current = Some(String::from_str(version));
    }
}

/// The fixed candidate versions, newest first.
pub open spec fn version_list_spec() -> Seq<Seq<char>> {
    seq!["go1.21"@, "go1.20"@, "go1.19"@]
}

/// The fixed candidate list that the menu offers.
pub fn get_version_list() -> (r: Vec<String>)
    ensures
        r.deep_view() == version_list_spec(),
{
    let mut list: Vec<String> = Vec::new();
    list.push(String::from_str("go1.21"));
    list.push(String::from_str("go1.20"));
    list.push(String::from_str("go1.19"));
    proof {
        assert(list.deep_view() =~= version_list_spec());
    }
    list
}

} // verus!

//! Audits third-party dependency declarations found in package-overlay
//! repositories: synchronization planning, manifest scanning, declaration
//! extraction, cross-referencing against an advisory database and a registry
//! yank index, and ranking of the findings.
use vstd::prelude::*;

pub mod decl;
pub mod depspec;
pub mod errors;
pub mod extract;
pub mod manifest;
pub mod overlay;
pub mod pkgver;
pub mod rank;
pub mod status;
pub mod sync;
pub mod text;

verus! {

/// A dependency declared by a manifest: an exact package name and version.
pub struct DepInfo {
    pub name: String,
    pub ver: String,
}

impl DepInfo {
    /// The pair of views a specifier denotes.
    pub open spec fn view_pair(&self) -> (Seq<char>, Seq<char>) {
        (self.name@, self.ver@)
    }

    /// A field-preserving copy.
    pub fn duplicate(&self) -> (r: DepInfo)
        ensures
            r.name@ == self.name@ && r.ver@ == self.ver@,
    {
        DepInfo { name: self.name.clone(), ver: self.ver.clone() }
    }

    /// Whether two specifiers denote the same exact (name, version) pair.
    pub fn same(&self, other: &DepInfo) -> (r: bool)
        ensures
            r == (self.name@ == other.name@ && self.ver@ == other.ver@),
    {
        self.name == other.name && self.ver == other.ver
    }
}

/// One walked manifest: the overlay it came from and its path in the tree.
pub struct Ebuild {
    pub overlay: String,
    pub path: String,
}

impl Ebuild {
    /// The pair of views a manifest key denotes.
    pub open spec fn view_pair(&self) -> (Seq<char>, Seq<char>) {
        (self.overlay@, self.path@)
    }

    /// A field-preserving copy.
    pub fn duplicate(&self) -> (r: Ebuild)
        ensures
            r.overlay@ == self.overlay@ && r.path@ == self.path@,
    {
        Ebuild { overlay: self.overlay.clone(), path: self.path.clone() }
    }

    /// Whether two keys denote the same manifest.
    pub fn same(&self, other: &Ebuild) -> (r: bool)
        ensures
            r == (self.overlay@ == other.overlay@ && self.path@ == other.path@),
    {
        self.overlay == other.overlay && self.path == other.path
    }
}

} // verus!

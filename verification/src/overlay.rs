//! The overlay data model: a named remote package collection with its
//! classification, owners and transport sources. Values of these types are
//! supplied externally at startup and are read-only for a run.
use vstd::prelude::*;

verus! {

/// Quality classification of an overlay.
#[derive(Debug, PartialEq, Eq, Structural, Clone, Copy)]
pub enum Quality {
    Experimental,
    Testing,
    Stable,
    Core,
}

/// Whether an overlay is officially maintained.
#[derive(Debug, PartialEq, Eq, Structural, Clone, Copy)]
pub enum Status {
    Official,
    Unofficial,
}

/// Whether an overlay owner is a person or a project.
#[derive(Debug, PartialEq, Eq, Structural, Clone, Copy)]
pub enum OwnerType {
    Person,
    Project,
}

/// One owner of an overlay.
pub struct Owner {
    pub typ: OwnerType,
    pub name: Option<String>,
    pub email: String,
}

/// The transport of one overlay source.
#[derive(Debug, PartialEq, Eq, Structural, Clone, Copy)]
pub enum SourceType {
    Git,
    Rsync,
    Mercurial,
    Svn,
}

/// One source of an overlay: a transport type and a URL.
pub struct Source {
    pub typ: SourceType,
    pub url: String,
}

impl Source {
    /// The pair of values a source denotes.
    pub open spec fn view_pair(&self) -> (SourceType, Seq<char>) {
        (self.typ, self.url@)
    }

    /// A field-preserving copy.
    pub fn duplicate(&self) -> (r: Source)
        ensures
            r.view_pair() == self.view_pair(),
    {
        Source { typ: self.typ, url: self.url.clone() }
    }
}

/// One overlay: a named package collection with its sources.
pub struct Overlay {
    pub quality: Quality,
    pub status: Status,
    pub name: String,
    pub homepage: Option<String>,
    pub owners: Vec<Owner>,
    pub sources: Vec<Source>,
}

/// The externally supplied overlay list.
pub struct Meta {
    pub repo: Vec<Overlay>,
}

} // verus!

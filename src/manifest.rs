use vstd::prelude::*;
use crate::table::Table;
use crate::text::concat;

verus! {

/// The identity of a project.
#[derive(Debug, Clone)]
pub struct Project {
    pub name: String,
    pub version: String,
    pub description: String,
    /// Path of the main source file, relative to the project root.
    pub main: String,
}

/// The persisted record of a project: its identity, its declared packages
/// (name to pinned version) and its scripts (name to shell command).
#[derive(Debug, Clone)]
pub struct Manifest {
    pub project: Project,
    pub packages: Table,
    pub scripts: Table,
}

impl Manifest {
    pub open spec fn wf(&self) -> bool {
        self.packages.wf() && self.scripts.wf()
    }

    /// A manifest with no packages and no scripts.
    pub fn new(project: Project) -> (r: Manifest)
        ensures
            r.wf(),
            r.project == project,
            r.packages@ == Map::<Seq<char>, Seq<char>>::empty(),
            r.scripts@ == Map::<Seq<char>, Seq<char>>::empty(),
    {
        Manifest { project, packages: Table::new(), scripts: Table::new() }
    }
}

/// Writes the specifier `name==version`.
pub fn pinned_spec(name: &String, version: &String) -> (r: String)
    ensures
        r@ == name@ + "=="@ + version@,
{
    let head = concat(name.as_str(), "==");
    concat(head.as_str(), version.as_str())
}

} // verus!

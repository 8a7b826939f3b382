use vstd::prelude::*;
use crate::ledger::{AddPackage, Installer, RemovePackage};
use crate::manifest::Manifest;
use crate::scaffold::ProjectConf;
use crate::version::{bump_result, bump_semantic_version, VersionError};

verus! {

/// The commands of the tool.
#[derive(Debug)]
pub enum Action {
    /// Create a new project with the given name.
    New(ProjectConf),
    /// Initialise a project in the current directory.
    Init(ProjectConf),
    /// Add packages to the project.
    Add(AddPackage),
    /// Remove packages from the project.
    Rm(RemovePackage),
    /// Run a script of the manifest.
    Run(RunScript),
    /// Install the manifest's packages, or those of a requirements file.
    Install(Installer),
    /// Run the project's main file.
    Start,
    /// Write a requirements file.
    Gen,
    /// Show the manifest.
    Info,
    /// Update all packages.
    Update,
    /// Run the manifest's `build` script.
    Build(BuildProject),
    /// Bump the project's version.
    Bump(BumpVersion),
}

/// The manifest holds no script of this name.
#[derive(Debug, Clone)]
pub struct ScriptNotFound {
    pub name: String,
}

/// A script to run.
#[derive(Debug, Clone)]
pub struct RunScript {
    pub script_name: String,
}

impl RunScript {
    /// The shell command that the script stands for.
    pub fn run_script(&self, manifest: &Manifest) -> (r: Result<String, ScriptNotFound>)
        requires
            manifest.wf(),
        ensures
            r is Ok <==> manifest.scripts@.contains_key(self.script_name@),
            r matches Ok(cmd) ==> cmd@ == manifest.scripts@[self.script_name@],
            r matches Err(e) ==> e.name@ == self.script_name@,
    {
        match manifest.scripts.get(&self.script_name) {
            Some(cmd) => Ok(cmd.clone()),
            None => Err(ScriptNotFound { name: self.script_name.clone() }),
        }
    }
}

/// Builds the project with its `build` script.
#[derive(Debug, Clone)]
pub struct BuildProject;

impl BuildProject {
    /// The shell command of the `build` script, if the manifest has one.
    pub fn build_project(&self, manifest: &Manifest) -> (r: Option<String>)
        requires
            manifest.wf(),
        ensures
            r is Some <==> manifest.scripts@.contains_key("build"@),
            r matches Some(cmd) ==> cmd@ == manifest.scripts@["build"@],
    {
        let name = "build".to_owned();
        match manifest.scripts.get(&name) {
            Some(cmd) => Some(cmd.clone()),
            None => None,
        }
    }
}

/// Bumps the project's version.
#[derive(Debug, Clone)]
pub struct BumpVersion {
    /// One of `major`, `minor`, `patch`.
    pub bump_type: String,
}

impl BumpVersion {
    /// Sets the project's version to its bump; on failure the manifest is unchanged.
    pub fn bump_version(&self, manifest: &mut Manifest) -> (r: Result<String, VersionError>)
        ensures
            final(manifest).packages == old(manifest).packages,
            final(manifest).scripts == old(manifest).scripts,
            final(manifest).project.name == old(manifest).project.name,
            final(manifest).project.description == old(manifest).project.description,
            final(manifest).project.main == old(manifest).project.main,
            r matches Ok(v) ==> {
                &&& bump_result(old(manifest).project.version@, self.bump_type@) == Ok::<Seq<char>, VersionError>(v@)
                &&& final(manifest).project.version@ == v@
            },
            r matches Err(e) ==> {
                &&& bump_result(old(manifest).project.version@, self.bump_type@) == Err::<Seq<char>, VersionError>(e)
                &&& final(manifest).project.version == old(manifest).project.version
            },
    {
        let new_version = bump_semantic_version(manifest.project.version.as_str(), self.bump_type.as_str())?;
        manifest.project.version = new_version.clone();
        Ok(new_version)
    }
}

} // verus!

use vstd::prelude::*;
use crate::manifest::{Manifest, Project};
use crate::text::concat;

verus! {

/// The source file a new project starts with.
pub const STARTER_SOURCE_PY: &'static str = "
def main():
    print('Hello From PPM!')

if __name__ == '__main__':
    main()
";

/// The name of the manifest file in a project's root.
pub const CONFIG_FILE: &'static str = "project.toml";

/// The file system and tools that a new project is laid out with.
pub trait Scaffold {
    /// Whether a project already occupies the target of `name`.
    fn project_exists(&self, name: &str, is_init: bool) -> bool;

    /// Creates a directory and its parents.
    fn create_dir_all(&mut self, path: &str) -> Result<(), String>;

    /// Writes `contents` to the file at `path`.
    fn write_file(&mut self, path: &str, contents: &str) -> Result<(), String>;

    /// Initialises a git repository at `path`.
    fn git_init(&mut self, path: &str) -> Result<(), String>;

    /// Creates an isolated environment at `path`.
    fn setup_venv(&mut self, path: &str) -> Result<(), String>;

    /// Writes `manifest` to the file at `path`.
    fn write_manifest(&mut self, path: &str, manifest: &Manifest) -> Result<(), String>;
}

/// A call made to the file system and tools while laying out a project.
pub enum SiteCall {
    /// The check whether a project already occupies the target, and its answer.
    Exists(bool),
    /// A step of the given kind on a path (with the text written, for a file), and
    /// whether it succeeded.
    Ran(StepKind, Seq<char>, Seq<char>, bool),
}

/// The file system and tools a project is laid out with, with a record of every call
/// made to them, in order, and of every manifest written.
pub struct Site<F: Scaffold> {
    fs: F,
    log: Ghost<Seq<SiteCall>>,
    written: Ghost<Seq<Manifest>>,
}

impl<F: Scaffold> Site<F> {
    /// The calls made so far, in order.
    pub closed spec fn calls(&self) -> Seq<SiteCall> {
        self.log@
    }

    /// The manifests written so far, in order.
    pub closed spec fn manifests(&self) -> Seq<Manifest> {
        self.written@
    }

    /// The file system itself.
    pub closed spec fn state(&self) -> F {
        self.fs
    }

    pub fn new(fs: F) -> (r: Self)
        ensures
            r.calls() == Seq::<SiteCall>::empty(),
            r.manifests() == Seq::<Manifest>::empty(),
    {
        Site { fs, log: Ghost(Seq::empty()), written: Ghost(Seq::empty()) }
    }

    /// The file system.
    pub fn fs(&self) -> &F {
        &self.fs
    }

    pub fn project_exists(&mut self, name: &str, is_init: bool) -> (r: bool)
        ensures
            final(self).calls() == old(self).calls().push(SiteCall::Exists(r)),
            final(self).manifests() == old(self).manifests(),
            final(self).state() == old(self).state(),
    {
        let r = self.fs.project_exists(name, is_init);
        self.log = Ghost(self.log@.push(SiteCall::Exists(r)));
        r
    }

    pub fn create_dir_all(&mut self, path: &str) -> (r: Result<(), String>)
        ensures
            final(self).calls() == old(self).calls().push(
                SiteCall::Ran(StepKind::CreateDir, path@, Seq::empty(), r is Ok),
            ),
            final(self).manifests() == old(self).manifests(),
    {
        let r = self.fs.create_dir_all(path);
        self.log = Ghost(self.log@.push(SiteCall::Ran(StepKind::CreateDir, path@, Seq::empty(), r is Ok)));
        r
    }

    pub fn write_file(&mut self, path: &str, contents: &str) -> (r: Result<(), String>)
        ensures
            final(self).calls() == old(self).calls().push(
                SiteCall::Ran(StepKind::WriteFile, path@, contents@, r is Ok),
            ),
            final(self).manifests() == old(self).manifests(),
    {
        let r = self.fs.write_file(path, contents);
        self.log = Ghost(self.log@.push(SiteCall::Ran(StepKind::WriteFile, path@, contents@, r is Ok)));
        r
    }

    pub fn git_init(&mut self, path: &str) -> (r: Result<(), String>)
        ensures
            final(self).calls() == old(self).calls().push(
                SiteCall::Ran(StepKind::GitInit, path@, Seq::empty(), r is Ok),
            ),
            final(self).manifests() == old(self).manifests(),
    {
        let r = self.fs.git_init(path);
        self.log = Ghost(self.log@.push(SiteCall::Ran(StepKind::GitInit, path@, Seq::empty(), r is Ok)));
        r
    }

    pub fn setup_venv(&mut self, path: &str) -> (r: Result<(), String>)
        ensures
            final(self).calls() == old(self).calls().push(
                SiteCall::Ran(StepKind::SetupVenv, path@, Seq::empty(), r is Ok),
            ),
            final(self).manifests() == old(self).manifests(),
    {
        let r = self.fs.setup_venv(path);
        self.log = Ghost(self.log@.push(SiteCall::Ran(StepKind::SetupVenv, path@, Seq::empty(), r is Ok)));
        r
    }

    pub fn write_manifest(&mut self, path: &str, manifest: &Manifest) -> (r: Result<(), String>)
        ensures
            final(self).calls() == old(self).calls().push(
                SiteCall::Ran(StepKind::WriteManifest, path@, Seq::empty(), r is Ok),
            ),
            final(self).manifests() == old(self).manifests().push(*manifest),
    {
        let r = self.fs.write_manifest(path, manifest);
        self.log = Ghost(self.log@.push(SiteCall::Ran(StepKind::WriteManifest, path@, Seq::empty(), r is Ok)));
        self.written = Ghost(self.written@.push(*manifest));
        r
    }
}

/// Whether `e` is the error of a step of kind `k`.
pub open spec fn step_error(k: StepKind, e: ScaffoldError) -> bool {
    match (k, e) {
        (StepKind::CreateDir, ScaffoldError::DirectoryCreate(_)) => true,
        (StepKind::WriteFile, ScaffoldError::BoilerplateWrite(_)) => true,
        (StepKind::GitInit, ScaffoldError::GitInit(_)) => true,
        (StepKind::SetupVenv, ScaffoldError::EnvironmentSetup(_)) => true,
        (StepKind::WriteManifest, ScaffoldError::ManifestCreate(_)) => true,
        _ => false,
    }
}

/// The record of these steps all succeeding.
pub open spec fn ran_all(ps: Seq<(StepKind, Seq<char>, Seq<char>)>) -> Seq<SiteCall> {
    ps.map_values(|p: (StepKind, Seq<char>, Seq<char>)| SiteCall::Ran(p.0, p.1, p.2, true))
}

/// What laying out the project with settings `conf` may have recorded after the calls
/// `before`, having returned `r`: the existence check first; nothing more when the target
/// is occupied; else the planned steps in order, stopping at the first that fails, whose
/// kind gives the error.
pub open spec fn layout_ok(
    conf: ProjectConf,
    is_init: bool,
    before: Seq<SiteCall>,
    after: Seq<SiteCall>,
    r: Result<(), ScaffoldError>,
) -> bool {
    let ps = planned(conf, is_init);
    match r {
        Ok(_) => after == before.push(SiteCall::Exists(false)) + ran_all(ps),
        Err(ScaffoldError::AlreadyExists) => after == before.push(SiteCall::Exists(true)),
        Err(e) => exists|k: int|
            0 <= k < ps.len() && step_error(ps[k].0, e) && after == before.push(SiteCall::Exists(false))
                + ran_all(ps.take(k)).push(SiteCall::Ran(ps[k].0, ps[k].1, ps[k].2, false)),
    }
}

/// The step at which scaffolding stopped.
#[derive(Debug, Clone)]
pub enum ScaffoldError {
    /// A project already occupies the target; nothing was created.
    AlreadyExists,
    DirectoryCreate(String),
    BoilerplateWrite(String),
    GitInit(String),
    EnvironmentSetup(String),
    ManifestCreate(String),
}

/// What a scaffolding step does.
#[derive(Debug, Clone, Copy, PartialEq, Eq)]
pub enum StepKind {
    CreateDir,
    WriteFile,
    GitInit,
    SetupVenv,
    WriteManifest,
}

/// One step of laying out a project: its kind, the path it acts on, and the text it
/// writes (empty where it writes none).
#[derive(Debug, Clone)]
pub struct Step {
    pub kind: StepKind,
    pub path: String,
    pub contents: String,
}

impl Step {
    pub open spec fn view(&self) -> (StepKind, Seq<char>, Seq<char>) {
        (self.kind, self.path@, self.contents@)
    }
}

/// The steps that lay out a project, in order: the source directory, the main file,
/// git with its ignore file when asked for, the environment unless declined, and the manifest.
pub open spec fn planned(conf: ProjectConf, is_init: bool) -> Seq<(StepKind, Seq<char>, Seq<char>)> {
    let p = |path: Seq<char>| project_path(conf.name@, is_init, path);
    let empty = Seq::<char>::empty();
    seq![
        (StepKind::CreateDir, p("src"@), empty),
        (StepKind::WriteFile, p("src"@) + "/main.py"@, STARTER_SOURCE_PY@),
    ] + (if conf.git {
        seq![
            (StepKind::GitInit, if is_init { "."@ } else { conf.name@ }, empty),
            (StepKind::WriteFile, p(".gitignore"@), "/build\n/venv\n"@),
        ]
    } else {
        Seq::empty()
    }) + (if !conf.no_venv {
        seq![(StepKind::SetupVenv, p("venv"@), empty)]
    } else {
        Seq::empty()
    }) + seq![(StepKind::WriteManifest, p(CONFIG_FILE@), empty)]
}

/// The settings of a new project.
#[derive(Debug, Clone)]
pub struct ProjectConf {
    pub name: String,
    pub version: String,
    pub description: String,
    /// Initialise a git repository.
    pub git: bool,
    /// Do not create an isolated environment.
    pub no_venv: bool,
}

impl ProjectConf {
    /// Lays out a new project: in the current directory when `is_init`, else in a
    /// directory named after the project.
    pub fn create_project<F: Scaffold>(&self, is_init: bool, site: &mut Site<F>) -> (r: Result<(), ScaffoldError>)
        ensures
            layout_ok(*self, is_init, old(site).calls(), final(site).calls(), r),
            r matches Err(ScaffoldError::AlreadyExists) ==> final(site).state() == old(site).state()
                && final(site).manifests() == old(site).manifests(),
            r matches Err(ScaffoldError::GitInit(_)) ==> self.git,
            r matches Err(ScaffoldError::EnvironmentSetup(_)) ==> !self.no_venv,
    {
        let conf = ProjectConf {
            name: self.name.clone(),
            version: self.version.clone(),
            description: self.description.clone(),
            git: self.git,
            no_venv: self.no_venv,
        };
        let proj_creator = ProjectCreator::new(conf, is_init);
        proj_creator.create_project(site)
    }
}

/// Where a path of a project lies: as given in place, else under the project's directory.
pub open spec fn project_path(name: Seq<char>, is_init: bool, path: Seq<char>) -> Seq<char> {
    if is_init {
        path
    } else {
        name + "/"@ + path
    }
}

/// The manifest a new project starts with.
pub open spec fn initial_manifest_ok(conf: ProjectConf, is_init: bool, m: Manifest) -> bool {
    &&& m.wf()
    &&& m.project.name@ == conf.name@
    &&& m.project.version@ == conf.version@
    &&& m.project.description@ == conf.description@
    &&& m.project.main@ == (if is_init { "./main.py"@ } else { "./src/main.py"@ })
    &&& m.packages@ == Map::<Seq<char>, Seq<char>>::empty()
    &&& m.scripts@ == Map::<Seq<char>, Seq<char>>::empty().insert(
        "upgrade-pip"@,
        "python -m pip install --upgrade pip"@,
    )
}

/// Lays out a new project.
pub struct ProjectCreator {
    pub project: ProjectConf,
    pub is_init: bool,
}

impl ProjectCreator {
    pub fn new(project: ProjectConf, is_init: bool) -> (r: ProjectCreator)
        ensures
            r.project == project,
            r.is_init == is_init,
    {
        ProjectCreator { project, is_init }
    }

    /// Where `path` of the project lies.
    pub fn get_path_with(&self, path: &str) -> (r: String)
        ensures
            r@ == project_path(self.project.name@, self.is_init, path@),
    {
        if self.is_init {
            path.to_owned()
        } else {
            let dir = concat(self.project.name.as_str(), "/");
            proof {
                reveal_strlit("/");
            }
            concat(dir.as_str(), path)
        }
    }

    /// The manifest the project starts with, holding the default script.
    pub fn initial_manifest(&self) -> (r: Manifest)
        ensures
            initial_manifest_ok(self.project, self.is_init, r),
    {
        let main = if self.is_init { "./main.py".to_owned() } else { "./src/main.py".to_owned() };
        let project = Project {
            name: self.project.name.clone(),
            version: self.project.version.clone(),
            description: self.project.description.clone(),
            main,
        };
        let mut m = Manifest::new(project);
        m.scripts.insert("upgrade-pip".to_owned(), "python -m pip install --upgrade pip".to_owned());
        m
    }

    /// Writes the initial manifest into the project.
    pub fn save_config<F: Scaffold>(&self, site: &mut Site<F>) -> (r: Result<(), String>)
        ensures
            final(site).calls() == old(site).calls().push(
                SiteCall::Ran(
                    StepKind::WriteManifest,
                    project_path(self.project.name@, self.is_init, CONFIG_FILE@),
                    Seq::empty(),
                    r is Ok,
                ),
            ),
            final(site).manifests().len() == old(site).manifests().len() + 1,
            final(site).manifests().drop_last() == old(site).manifests(),
            initial_manifest_ok(self.project, self.is_init, final(site).manifests().last()),
    {
        let conf = self.initial_manifest();
        let config_path = self.get_path_with(CONFIG_FILE);
        let r = site.write_manifest(config_path.as_str(), &conf);
        assert(site.manifests().drop_last() =~= old(site).manifests());
        r
    }

    fn step(&self, kind: StepKind, path: &str, contents: &str) -> (r: Step)
        ensures
            r@ == (kind, project_path(self.project.name@, self.is_init, path@), contents@),
    {
        Step { kind, path: self.get_path_with(path), contents: contents.to_owned() }
    }

    /// The steps that lay out the project, in order.
    pub fn plan(&self) -> (r: Vec<Step>)
        ensures
            r.len() == planned(self.project, self.is_init).len(),
            forall|i: int| 0 <= i < r.len() ==> #[trigger] r[i]@ == planned(self.project, self.is_init)[i],
    {
        let mut steps: Vec<Step> = Vec::new();
        steps.push(self.step(StepKind::CreateDir, "src", ""));
        let src = self.get_path_with("src");
        let main_file_path = concat(src.as_str(), "/main.py");
        steps.push(Step { kind: StepKind::WriteFile, path: main_file_path, contents: STARTER_SOURCE_PY.to_owned() });
        if self.project.git {
            let path = if self.is_init { ".".to_owned() } else { self.project.name.clone() };
            steps.push(Step { kind: StepKind::GitInit, path, contents: "".to_owned() });
            steps.push(self.step(StepKind::WriteFile, ".gitignore", "/build\n/venv\n"));
        }
        if !self.project.no_venv {
            steps.push(self.step(StepKind::SetupVenv, "venv", ""));
        }
        steps.push(self.step(StepKind::WriteManifest, CONFIG_FILE, ""));
        proof {
            let want = planned(self.project, self.is_init);
            reveal_strlit("");
            assert(""@ =~= Seq::<char>::empty());
            assert(steps@.map_values(|s: Step| s@) =~= want);
            assert forall|i: int| 0 <= i < steps.len() implies #[trigger] steps[i]@ == want[i] by {
                assert(steps@.map_values(|s: Step| s@)[i] == steps[i]@);
            }
        }
        steps
    }

    /// Carries out one step.
    fn run_step<F: Scaffold>(&self, step: &Step, site: &mut Site<F>) -> (r: Result<(), ScaffoldError>)
        requires
            step.kind != StepKind::WriteFile ==> step.contents@ == Seq::<char>::empty(),
            step.kind == StepKind::WriteManifest ==> step.path@ == project_path(
                self.project.name@,
                self.is_init,
                CONFIG_FILE@,
            ),
        ensures
            final(site).calls() == old(site).calls().push(
                SiteCall::Ran(step.kind, step.path@, step.contents@, r is Ok),
            ),
            r matches Err(e) ==> step_error(step.kind, e),
    {
        match step.kind {
            StepKind::CreateDir => match site.create_dir_all(step.path.as_str()) {
                Ok(()) => Ok(()),
                Err(e) => Err(ScaffoldError::DirectoryCreate(e)),
            },
            StepKind::WriteFile => match site.write_file(step.path.as_str(), step.contents.as_str()) {
                Ok(()) => Ok(()),
                Err(e) => Err(ScaffoldError::BoilerplateWrite(e)),
            },
            StepKind::GitInit => match site.git_init(step.path.as_str()) {
                Ok(()) => Ok(()),
                Err(e) => Err(ScaffoldError::GitInit(e)),
            },
            StepKind::SetupVenv => match site.setup_venv(step.path.as_str()) {
                Ok(()) => Ok(()),
                Err(e) => Err(ScaffoldError::EnvironmentSetup(e)),
            },
            StepKind::WriteManifest => match self.save_config(site) {
                Ok(()) => Ok(()),
                Err(e) => Err(ScaffoldError::ManifestCreate(e)),
            },
        }
    }

    /// Lays out the project: refuses when a project already occupies the target, then
    /// carries out the planned steps in order, stopping at the first that fails.
    pub fn create_project<F: Scaffold>(&self, site: &mut Site<F>) -> (r: Result<(), ScaffoldError>)
        ensures
            layout_ok(self.project, self.is_init, old(site).calls(), final(site).calls(), r),
            r matches Err(ScaffoldError::AlreadyExists) ==> final(site).state() == old(site).state()
                && final(site).manifests() == old(site).manifests(),
            r matches Err(ScaffoldError::GitInit(_)) ==> self.project.git,
            r matches Err(ScaffoldError::EnvironmentSetup(_)) ==> !self.project.no_venv,
    {
        if site.project_exists(self.project.name.as_str(), self.is_init) {
            return Err(ScaffoldError::AlreadyExists);
        }
        let steps = self.plan();
        let ghost ps = planned(self.project, self.is_init);
        let ghost base = site.calls();
        proof {
            reveal_strlit("");
            reveal_strlit("/build\n/venv\n");
        }
        let mut i: usize = 0;
        while i < steps.len()
            invariant
                0 <= i <= steps.len(),
                steps.len() == ps.len(),
                ps == planned(self.project, self.is_init),
                forall|k: int| 0 <= k < steps.len() ==> #[trigger] steps[k]@ == ps[k],
                base == old(site).calls().push(SiteCall::Exists(false)),
                site.calls() == base + ran_all(ps.take(i as int)),
            decreases steps.len() - i,
        {
            let ghost before = site.calls();
            assert(steps[i as int]@ == ps[i as int]);
            let r = self.run_step(&steps[i], site);
            match r {
                Ok(()) => {
                    assert(ran_all(ps.take(i + 1)) =~= ran_all(ps.take(i as int)).push(
                        SiteCall::Ran(ps[i as int].0, ps[i as int].1, ps[i as int].2, true),
                    ));
                },
                Err(e) => {
                    assert(step_error(ps[i as int].0, e));
                    return Err(e);
                },
            }
            i = i + 1;
        }
        assert(ps.take(steps.len() as int) =~= ps);
        Ok(())
    }
}

} // verus!

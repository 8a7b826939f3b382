use ppm::manifest::Manifest;
use ppm::scaffold::{ProjectConf, ProjectCreator, Scaffold, ScaffoldError, Site, StepKind, STARTER_SOURCE_PY};

#[derive(Default)]
struct MockFs {
    existing: bool,
    fail_venv: bool,
    log: Vec<String>,
    manifest: Option<Manifest>,
}

impl Scaffold for MockFs {
    fn project_exists(&self, _name: &str, _is_init: bool) -> bool {
        self.existing
    }
    fn create_dir_all(&mut self, path: &str) -> Result<(), String> {
        self.log.push(format!("mkdir {}", path));
        Ok(())
    }
    fn write_file(&mut self, path: &str, _contents: &str) -> Result<(), String> {
        self.log.push(format!("write {}", path));
        Ok(())
    }
    fn git_init(&mut self, path: &str) -> Result<(), String> {
        self.log.push(format!("git {}", path));
        Ok(())
    }
    fn setup_venv(&mut self, path: &str) -> Result<(), String> {
        self.log.push(format!("venv {}", path));
        if self.fail_venv {
            Err("python not found".to_string())
        } else {
            Ok(())
        }
    }
    fn write_manifest(&mut self, path: &str, manifest: &Manifest) -> Result<(), String> {
        self.log.push(format!("manifest {}", path));
        self.manifest = Some(manifest.clone());
        Ok(())
    }
}

fn conf(git: bool, no_venv: bool) -> ProjectConf {
    ProjectConf {
        name: "demo".to_string(),
        version: "0.1.0".to_string(),
        description: "a demo".to_string(),
        git,
        no_venv,
    }
}

#[test]
fn scaffold_into_existing_project_fails() {
    let mut site = Site::new(MockFs { existing: true, ..Default::default() });
    let r = conf(true, false).create_project(false, &mut site);
    assert!(matches!(r, Err(ScaffoldError::AlreadyExists)));
    assert!(site.fs().log.is_empty());
}

#[test]
fn scaffold_new_directory() {
    let mut site = Site::new(MockFs::default());
    conf(true, false).create_project(false, &mut site).unwrap();
    assert_eq!(
        site.fs().log,
        vec![
            "mkdir demo/src",
            "write demo/src/main.py",
            "git demo",
            "write demo/.gitignore",
            "venv demo/venv",
            "manifest demo/project.toml",
        ]
    );
    let m = site.fs().manifest.clone().unwrap();
    assert_eq!(m.project.main, "./src/main.py");
    assert_eq!(m.project.description, "a demo");
    assert_eq!(
        m.scripts.get(&"upgrade-pip".to_string()),
        Some(&"python -m pip install --upgrade pip".to_string())
    );
    assert!(m.packages.is_empty());
}

#[test]
fn scaffold_in_place_without_git_or_venv() {
    let mut site = Site::new(MockFs::default());
    conf(false, true).create_project(true, &mut site).unwrap();
    assert_eq!(site.fs().log, vec!["mkdir src", "write src/main.py", "manifest project.toml"]);
    assert_eq!(site.fs().manifest.clone().unwrap().project.main, "./main.py");
}

#[test]
fn scaffold_stops_at_first_failure() {
    let mut site = Site::new(MockFs { fail_venv: true, ..Default::default() });
    let r = conf(false, false).create_project(false, &mut site);
    assert!(matches!(r, Err(ScaffoldError::EnvironmentSetup(_))));
    assert!(site.fs().manifest.is_none());
}

#[test]
fn creator_paths() {
    let c = ProjectCreator::new(conf(false, false), false);
    assert_eq!(c.get_path_with("venv"), "demo/venv");
    let c = ProjectCreator::new(conf(false, false), true);
    assert_eq!(c.get_path_with("venv"), "venv");
    assert!(STARTER_SOURCE_PY.contains("def main()"));
}

#[test]
fn save_config_writes_manifest() {
    let mut site = Site::new(MockFs::default());
    let c = ProjectCreator::new(conf(false, false), false);
    c.save_config(&mut site).unwrap();
    assert_eq!(site.fs().log, vec!["manifest demo/project.toml"]);
    assert_eq!(site.fs().manifest.clone().unwrap().project.version, "0.1.0");
}

#[test]
fn plan_lists_steps_in_order() {
    let steps = ProjectCreator::new(conf(true, false), false).plan();
    let kinds: Vec<StepKind> = steps.iter().map(|s| s.kind).collect();
    assert_eq!(
        kinds,
        vec![StepKind::CreateDir, StepKind::WriteFile, StepKind::GitInit, StepKind::WriteFile, StepKind::SetupVenv, StepKind::WriteManifest]
    );
    assert_eq!(steps[1].path, "demo/src/main.py");
    assert_eq!(steps[1].contents, STARTER_SOURCE_PY);
    assert_eq!(steps[3].contents, "/build\n/venv\n");
    let steps = ProjectCreator::new(conf(false, true), true).plan();
    let paths: Vec<&str> = steps.iter().map(|s| s.path.as_str()).collect();
    assert_eq!(paths, vec!["src", "src/main.py", "project.toml"]);
}

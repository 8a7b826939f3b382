use ppm::commands::{BuildProject, BumpVersion, RunScript};
use ppm::ledger::{
    declared_names, requirement_lines, requirements_text, AddPackage, Environment, InstallReport, Installer, ManifestStore, Outcome,
    RemovePackage, Gateway,
};
use ppm::manifest::{pinned_spec, Manifest, Project};
use ppm::table::Table;
use ppm::version::VersionError;

struct MockEnv {
    failing: Vec<String>,
    present: bool,
    calls: Vec<String>,
}

impl MockEnv {
    fn new(failing: &[&str]) -> MockEnv {
        MockEnv { failing: failing.iter().map(|s| s.to_string()).collect(), present: true, calls: Vec::new() }
    }
}

impl Environment for MockEnv {
    fn install(&mut self, spec: &str) -> Result<(), String> {
        self.calls.push(format!("install {}", spec));
        if self.failing.iter().any(|f| f == spec) {
            Err("no matching distribution".to_string())
        } else {
            Ok(())
        }
    }

    fn uninstall(&mut self, name: &str) -> Result<(), String> {
        self.calls.push(format!("uninstall {}", name));
        if self.failing.iter().any(|f| f == name) {
            Err("cannot uninstall".to_string())
        } else {
            Ok(())
        }
    }

    fn installed_version(&mut self, name: &str) -> Result<String, String> {
        self.calls.push(format!("version {}", name));
        if name == "noversion" {
            Err("not found".to_string())
        } else {
            Ok("9.9.9".to_string())
        }
    }

    fn is_present(&self) -> bool {
        self.present
    }
}

#[derive(Default)]
struct MockStore {
    writes: usize,
    fail: bool,
}

impl ManifestStore for MockStore {
    fn write(&mut self, _manifest: &Manifest) -> Result<(), String> {
        self.writes += 1;
        if self.fail {
            Err("disk full".to_string())
        } else {
            Ok(())
        }
    }
}

fn manifest() -> Manifest {
    Manifest::new(Project {
        name: "demo".to_string(),
        version: "0.1.0".to_string(),
        description: String::new(),
        main: "./src/main.py".to_string(),
    })
}

fn names(v: &[&str]) -> Vec<String> {
    v.iter().map(|s| s.to_string()).collect()
}

#[test]
fn add_batch_partial_failure() {
    let mut m = manifest();
    let mut env = MockEnv::new(&["bad_pkg"]);
    let mut store = MockStore::default();
    let mut gw = Gateway::new(env, store);
    let out = AddPackage { pkg_names: names(&["ok_pkg", "bad_pkg"]) }.add_package(&mut m, &mut gw);
    assert_eq!(out.len(), 2);
    assert!(matches!(&out[0], Outcome::Added { name, version, persist_error: None } if name == "ok_pkg" && version == "9.9.9"));
    assert!(matches!(&out[1], Outcome::InstallFailed { name, .. } if name == "bad_pkg"));
    assert_eq!(m.packages.get(&"ok_pkg".to_string()), Some(&"9.9.9".to_string()));
    assert_eq!(m.packages.get(&"bad_pkg".to_string()), None);
    assert_eq!(gw.store().writes, 1);
}

#[test]
fn add_keeps_explicit_version_without_query() {
    let mut m = manifest();
    let mut env = MockEnv::new(&[]);
    let mut store = MockStore::default();
    let mut gw = Gateway::new(env, store);
    let out = AddPackage { pkg_names: names(&["foo==1.0.0"]) }.add_package(&mut m, &mut gw);
    assert!(matches!(&out[0], Outcome::Added { name, version, .. } if name == "foo" && version == "1.0.0"));
    assert_eq!(gw.env().calls, vec!["install foo==1.0.0".to_string()]);
    assert_eq!(m.packages.get(&"foo".to_string()), Some(&"1.0.0".to_string()));
}

#[test]
fn add_without_resolved_version_is_not_recorded() {
    let mut m = manifest();
    let mut env = MockEnv::new(&[]);
    let mut store = MockStore::default();
    let mut gw = Gateway::new(env, store);
    let out = AddPackage { pkg_names: names(&["noversion"]) }.add_package(&mut m, &mut gw);
    assert!(matches!(&out[0], Outcome::VersionResolutionFailed { name, .. } if name == "noversion"));
    assert!(m.packages.is_empty());
    assert_eq!(gw.store().writes, 0);
}

#[test]
fn add_persist_failure_keeps_memory_and_goes_on() {
    let mut m = manifest();
    let mut env = MockEnv::new(&[]);
    let mut store = MockStore { writes: 0, fail: true };
    let mut gw = Gateway::new(env, store);
    let out = AddPackage { pkg_names: names(&["a==1", "b==2"]) }.add_package(&mut m, &mut gw);
    assert!(matches!(&out[0], Outcome::Added { persist_error: Some(_), .. }));
    assert!(matches!(&out[1], Outcome::Added { persist_error: Some(_), .. }));
    assert_eq!(m.packages.len(), 2);
    assert_eq!(gw.store().writes, 2);
}

#[test]
fn add_same_name_twice_overrides() {
    let mut m = manifest();
    let mut env = MockEnv::new(&[]);
    let mut store = MockStore::default();
    let mut gw = Gateway::new(env, store);
    AddPackage { pkg_names: names(&["a==1", "a==2"]) }.add_package(&mut m, &mut gw);
    assert_eq!(m.packages.len(), 1);
    assert_eq!(m.packages.get(&"a".to_string()), Some(&"2".to_string()));
}

#[test]
fn remove_undeclared_reports_not_declared() {
    let mut m = manifest();
    m.packages.insert("kept".to_string(), "1.0".to_string());
    let mut env = MockEnv::new(&[]);
    let mut store = MockStore::default();
    let mut gw = Gateway::new(env, store);
    let out = RemovePackage { pkg_names: names(&["ghost"]) }.remove_package(&mut m, &mut gw);
    assert!(matches!(&out[0], Outcome::NotDeclared { name } if name == "ghost"));
    assert!(gw.env().calls.is_empty());
    assert_eq!(gw.store().writes, 0);
    assert_eq!(m.packages.len(), 1);
    assert_eq!(m.packages.get(&"kept".to_string()), Some(&"1.0".to_string()));
}

#[test]
fn remove_declared_and_failures() {
    let mut m = manifest();
    m.packages.insert("a".to_string(), "1".to_string());
    m.packages.insert("b".to_string(), "2".to_string());
    let mut env = MockEnv::new(&["b"]);
    let mut store = MockStore::default();
    let mut gw = Gateway::new(env, store);
    let out = RemovePackage { pkg_names: names(&["a", "b", "a"]) }.remove_package(&mut m, &mut gw);
    assert!(matches!(&out[0], Outcome::Removed { name, persist_error: None } if name == "a"));
    assert!(matches!(&out[1], Outcome::UninstallFailed { name, .. } if name == "b"));
    assert!(matches!(&out[2], Outcome::NotDeclared { name } if name == "a"));
    assert_eq!(m.packages.get(&"a".to_string()), None);
    assert_eq!(m.packages.get(&"b".to_string()), Some(&"2".to_string()));
    assert_eq!(gw.store().writes, 1);
}

#[test]
fn remove_without_environment() {
    let mut m = manifest();
    m.packages.insert("a".to_string(), "1".to_string());
    let mut env = MockEnv::new(&[]);
    env.present = false;
    let mut store = MockStore::default();
    let mut gw = Gateway::new(env, store);
    let out = RemovePackage { pkg_names: names(&["a"]) }.remove_package(&mut m, &mut gw);
    assert!(matches!(&out[0], Outcome::EnvironmentMissing { name } if name == "a"));
    assert_eq!(m.packages.len(), 1);
    assert!(gw.env().calls.is_empty());
}

#[test]
fn install_from_empty_requirements() {
    let mut m = manifest();
    let mut env = MockEnv::new(&[]);
    let mut store = MockStore::default();
    let mut gw = Gateway::new(env, store);
    let inst = Installer { requirements: "requirements.txt".to_string() };
    let r = inst.install_packages("\n# only a comment\n   \n", &mut m, &mut gw);
    assert!(matches!(r, InstallReport::NoPackagesFound));
    assert!(gw.env().calls.is_empty());
    assert_eq!(gw.store().writes, 0);
    assert!(m.packages.is_empty());
}

#[test]
fn install_from_requirements_records_packages() {
    let mut m = manifest();
    let mut env = MockEnv::new(&["bad"]);
    let mut store = MockStore::default();
    let mut gw = Gateway::new(env, store);
    let inst = Installer { requirements: "req.txt".to_string() };
    let r = inst.install_packages("flask==2.0\r\n# c\nbad\nrequests\n", &mut m, &mut gw);
    match r {
        InstallReport::Done(os) => {
            assert_eq!(os.len(), 3);
            assert!(matches!(&os[1], Outcome::InstallFailed { name, .. } if name == "bad"));
        }
        _ => panic!("expected outcomes"),
    }
    assert_eq!(m.packages.get(&"flask".to_string()), Some(&"2.0".to_string()));
    assert_eq!(m.packages.get(&"requests".to_string()), Some(&"9.9.9".to_string()));
    assert_eq!(m.packages.len(), 2);
}

#[test]
fn install_from_manifest_uses_pins() {
    let mut m = manifest();
    m.packages.insert("a".to_string(), "1.0".to_string());
    m.packages.insert("b".to_string(), "2.0".to_string());
    let mut env = MockEnv::new(&["b==2.0"]);
    let mut store = MockStore::default();
    let mut gw = Gateway::new(env, store);
    let inst = Installer { requirements: String::new() };
    let r = inst.install_packages("", &mut m, &mut gw);
    match r {
        InstallReport::Done(os) => {
            assert!(matches!(&os[0], Outcome::Installed { name } if name == "a"));
            assert!(matches!(&os[1], Outcome::InstallFailed { name, .. } if name == "b"));
        }
        _ => panic!("expected outcomes"),
    }
    assert_eq!(gw.env().calls, vec!["install a==1.0".to_string(), "install b==2.0".to_string()]);
    assert_eq!(gw.store().writes, 0);
}

#[test]
fn install_from_empty_manifest() {
    let mut m = manifest();
    let mut env = MockEnv::new(&[]);
    let mut store = MockStore::default();
    let mut gw = Gateway::new(env, store);
    let r = Installer { requirements: String::new() }.install_packages("x", &mut m, &mut gw);
    assert!(matches!(r, InstallReport::NothingToInstall));
    assert!(gw.env().calls.is_empty());
}

#[test]
fn requirement_lines_filter() {
    assert_eq!(requirement_lines("a\n\n#b\n c==1 \r\nd"), vec!["a".to_string(), " c==1 ".to_string(), "d".to_string()]);
    assert_eq!(requirement_lines(" # not a comment"), vec![" # not a comment".to_string()]);
    assert!(requirement_lines("").is_empty());
}

#[test]
fn pinned_spec_joins() {
    assert_eq!(pinned_spec(&"numpy".to_string(), &"1.26.0".to_string()), "numpy==1.26.0");
}

#[test]
fn table_insert_remove() {
    let mut t = Table::new();
    t.insert("x".to_string(), "1".to_string());
    t.insert("y".to_string(), "2".to_string());
    t.insert("x".to_string(), "3".to_string());
    assert_eq!(t.len(), 2);
    assert_eq!(t.get(&"x".to_string()), Some(&"3".to_string()));
    assert!(t.remove(&"x".to_string()));
    assert!(!t.remove(&"x".to_string()));
    assert!(!t.contains(&"x".to_string()));
    assert_eq!(t.len(), 1);
}

#[test]
fn run_script_lookup() {
    let mut m = manifest();
    m.scripts.insert("test".to_string(), "pytest".to_string());
    assert_eq!(RunScript { script_name: "test".to_string() }.run_script(&m).unwrap(), "pytest");
    let e = RunScript { script_name: "nope".to_string() }.run_script(&m).unwrap_err();
    assert_eq!(e.name, "nope");
}

#[test]
fn build_script_lookup() {
    let mut m = manifest();
    assert_eq!(BuildProject.build_project(&m), None);
    m.scripts.insert("build".to_string(), "python -m build".to_string());
    assert_eq!(BuildProject.build_project(&m), Some("python -m build".to_string()));
}

#[test]
fn bump_version_updates_manifest() {
    let mut m = manifest();
    let r = BumpVersion { bump_type: "minor".to_string() }.bump_version(&mut m);
    assert_eq!(r, Ok("0.2.0".to_string()));
    assert_eq!(m.project.version, "0.2.0");
    m.project.version = "1.2".to_string();
    let r = BumpVersion { bump_type: "patch".to_string() }.bump_version(&mut m);
    assert_eq!(r, Err(VersionError::InvalidVersionFormat));
    assert_eq!(m.project.version, "1.2");
}

#[test]
fn requirements_text_pins_each_package() {
    let mut m = manifest();
    assert_eq!(requirements_text(&m), "");
    m.packages.insert("flask".to_string(), "2.0".to_string());
    m.packages.insert("numpy".to_string(), "1.26.0".to_string());
    assert_eq!(requirements_text(&m), "flask==2.0\nnumpy==1.26.0\n");
    assert_eq!(requirement_lines(&requirements_text(&m)), vec!["flask==2.0".to_string(), "numpy==1.26.0".to_string()]);
}

#[test]
fn declared_names_in_order() {
    let mut m = manifest();
    m.packages.insert("b".to_string(), "1".to_string());
    m.packages.insert("a".to_string(), "2".to_string());
    assert_eq!(declared_names(&m), vec!["b".to_string(), "a".to_string()]);
}

#[test]
fn record_add_settles_each_report() {
    let mut m = manifest();
    let o = m.record_add("x==1", Err("boom".to_string()), None);
    assert!(matches!(&o, Outcome::InstallFailed { name, reason } if name == "x" && reason == "boom"));
    assert!(m.packages.is_empty());
    let o = m.record_add("y", Ok(()), Some(Err("unknown".to_string())));
    assert!(matches!(&o, Outcome::VersionResolutionFailed { name, reason } if name == "y" && reason == "unknown"));
    assert!(m.packages.is_empty());
    let o = m.record_add("y", Ok(()), Some(Ok("3.1".to_string())));
    assert!(matches!(&o, Outcome::Added { name, version, persist_error: None } if name == "y" && version == "3.1"));
    let o = m.record_add(" z ==2.0", Ok(()), None);
    assert!(matches!(&o, Outcome::Added { name, version, .. } if name == "z" && version == "2.0"));
    assert_eq!(m.packages.get(&"y".to_string()), Some(&"3.1".to_string()));
    assert_eq!(m.packages.get(&"z".to_string()), Some(&"2.0".to_string()));
}

#[test]
fn record_remove_settles_each_report() {
    let mut m = manifest();
    m.packages.insert("a".to_string(), "1".to_string());
    let a = "a".to_string();
    assert!(matches!(m.record_remove(&"b".to_string(), true, None), Outcome::NotDeclared { .. }));
    assert!(matches!(m.record_remove(&a, false, None), Outcome::EnvironmentMissing { .. }));
    let o = m.record_remove(&a, true, Some(Err("locked".to_string())));
    assert!(matches!(&o, Outcome::UninstallFailed { reason, .. } if reason == "locked"));
    assert_eq!(m.packages.len(), 1);
    assert!(matches!(m.record_remove(&a, true, Some(Ok(()))), Outcome::Removed { persist_error: None, .. }));
    assert!(m.packages.is_empty());
}

#[test]
fn table_pairs_round_trip() {
    let mut t = Table::new();
    t.insert("b".to_string(), "2".to_string());
    t.insert("a".to_string(), "1".to_string());
    let pairs = t.to_pairs();
    assert_eq!(pairs, vec![("b".to_string(), "2".to_string()), ("a".to_string(), "1".to_string())]);
    let back = Table::from_pairs(&pairs);
    assert_eq!(back.to_pairs(), pairs);
    let dup = Table::from_pairs(&vec![("x".to_string(), "1".to_string()), ("x".to_string(), "2".to_string())]);
    assert_eq!(dup.len(), 1);
    assert_eq!(dup.get(&"x".to_string()), Some(&"2".to_string()));
}

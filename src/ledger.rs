use vstd::prelude::*;
use crate::manifest::{Manifest, pinned_spec};
use crate::text::{concat, split_on, split_chars, to_chars, from_chars, trim, trim_chars};
use crate::version::{parse_spec, spec_parts};

verus! {

/// The isolated environment that packages are installed into.
pub trait Environment {
    /// Installs a package specifier (`name` or `name==version`).
    fn install(&mut self, spec: &str) -> Result<(), String>;

    /// Uninstalls a package by name.
    fn uninstall(&mut self, name: &str) -> Result<(), String>;

    /// The version of `name` that is installed.
    fn installed_version(&mut self, name: &str) -> Result<String, String>;

    /// Whether the environment exists.
    fn is_present(&self) -> bool;
}

/// Where the manifest is written back to.
pub trait ManifestStore {
    /// Overwrites the persisted manifest with `manifest`.
    fn write(&mut self, manifest: &Manifest) -> Result<(), String>;
}

/// What became of one package of a batch.
#[derive(Debug, Clone)]
pub enum Outcome {
    /// Installed and recorded at `version`; `persist_error` holds why the write-back failed, if it did.
    Added { name: String, version: String, persist_error: Option<String> },
    /// Installed from the manifest's own pin.
    Installed { name: String },
    /// The environment refused to install it; the manifest is untouched.
    InstallFailed { name: String, reason: String },
    /// Installed, but its version could not be read, so it is not recorded.
    VersionResolutionFailed { name: String, reason: String },
    /// Uninstalled and dropped from the manifest; `persist_error` as for `Added`.
    Removed { name: String, persist_error: Option<String> },
    /// The manifest does not declare it; nothing was done.
    NotDeclared { name: String },
    /// There is no environment to uninstall it from.
    EnvironmentMissing { name: String },
    /// The environment refused to uninstall it; the manifest is untouched.
    UninstallFailed { name: String, reason: String },
}

/// What an install command did.
#[derive(Debug, Clone)]
pub enum InstallReport {
    /// The requirements text holds no significant line; nothing was installed.
    NoPackagesFound,
    /// The manifest declares no package; nothing was installed.
    NothingToInstall,
    /// One outcome per package, in order.
    Done(Vec<Outcome>),
}

impl Outcome {
    pub open spec fn name(&self) -> Seq<char> {
        match self {
            Outcome::Added { name, .. } => name@,
            Outcome::Installed { name } => name@,
            Outcome::InstallFailed { name, .. } => name@,
            Outcome::VersionResolutionFailed { name, .. } => name@,
            Outcome::Removed { name, .. } => name@,
            Outcome::NotDeclared { name } => name@,
            Outcome::EnvironmentMissing { name } => name@,
            Outcome::UninstallFailed { name, .. } => name@,
        }
    }
}

/// The declared packages after one outcome.
pub open spec fn apply_outcome(m: Map<Seq<char>, Seq<char>>, o: Outcome) -> Map<Seq<char>, Seq<char>> {
    match o {
        Outcome::Added { name, version, .. } => m.insert(name@, version@),
        Outcome::Removed { name, .. } => m.remove(name@),
        _ => m,
    }
}

/// The declared packages after a run of outcomes, in order.
pub open spec fn apply_outcomes(m: Map<Seq<char>, Seq<char>>, os: Seq<Outcome>) -> Map<Seq<char>, Seq<char>>
    decreases os.len(),
{
    if os.len() == 0 {
        m
    } else {
        apply_outcome(apply_outcomes(m, os.drop_last()), os.last())
    }
}

/// What the add protocol may report for the specifier `s`.
pub open spec fn add_outcome_ok(s: Seq<char>, o: Outcome) -> bool {
    let (name, explicit) = spec_parts(s);
    &&& o.name() == name
    &&& o is Added || o is InstallFailed || o is VersionResolutionFailed
    &&& explicit is Some ==> !(o is VersionResolutionFailed)
    &&& o matches Outcome::Added { version, .. } ==> (explicit is Some ==> explicit == Some(version@))
}

/// What the remove protocol may report for `name`, given the packages declared before it.
pub open spec fn remove_outcome_ok(m: Map<Seq<char>, Seq<char>>, name: Seq<char>, o: Outcome) -> bool {
    &&& o.name() == name
    &&& !m.contains_key(name) <==> o is NotDeclared
    &&& o is NotDeclared || o is EnvironmentMissing || o is UninstallFailed || o is Removed
}

/// Whether a line of a requirements file names a package: it is not blank and
/// does not start with `#`.
pub open spec fn significant(line: Seq<char>) -> bool {
    trim(line).len() > 0 && !(line.len() > 0 && line[0] == '#')
}

/// A line without its trailing carriage return.
pub open spec fn strip_cr(line: Seq<char>) -> Seq<char> {
    if line.len() > 0 && line.last() == '\r' {
        line.drop_last()
    } else {
        line
    }
}

/// The significant lines among `lines`, in order.
pub open spec fn significant_lines(lines: Seq<Seq<char>>) -> Seq<Seq<char>>
    decreases lines.len(),
{
    if lines.len() == 0 {
        Seq::empty()
    } else {
        let rest = significant_lines(lines.drop_last());
        let l = strip_cr(lines.last());
        if significant(l) {
            rest.push(l)
        } else {
            rest
        }
    }
}

/// The package specifiers of a requirements text.
pub open spec fn requirement_specs(text: Seq<char>) -> Seq<Seq<char>> {
    significant_lines(split_on(text, '\n'))
}

/// The package specifiers of a requirements text: its lines, without those that are
/// blank or start with `#`.
pub fn requirement_lines(text: &str) -> (r: Vec<String>)
    ensures
        r.len() == requirement_specs(text@).len(),
        forall|k: int| 0 <= k < r.len() ==> #[trigger] r[k]@ == requirement_specs(text@)[k],
{
    let chars = to_chars(text);
    let lines = split_chars(&chars, '\n');
    let ghost pieces = split_on(chars@, '\n');
    let mut out: Vec<String> = Vec::new();
    let mut i: usize = 0;
    while i < lines.len()
        invariant
            0 <= i <= lines.len(),
            lines.len() == pieces.len(),
            forall|k: int| 0 <= k < lines.len() ==> #[trigger] lines[k]@ == pieces[k],
            out.len() == significant_lines(pieces.take(i as int)).len(),
            forall|k: int|
                0 <= k < out.len() ==> #[trigger] out[k]@ == significant_lines(pieces.take(i as int))[k],
        decreases lines.len() - i,
    {
        let line = &lines[i];
        let mut end: usize = line.len();
        if end > 0 && line[end - 1] == '\r' {
            end = end - 1;
        }
        let ghost l = strip_cr(pieces[i as int]);
        assert(line@.subrange(0, end as int) =~= l);
        let trimmed = trim_chars(line, 0, end);
        let keep = trimmed.len() > 0 && !(end > 0 && line[0] == '#');
        assert(pieces.take(i + 1).drop_last() =~= pieces.take(i as int));
        let ghost prev = significant_lines(pieces.take(i as int));
        if keep {
            let mut kept: Vec<char> = Vec::new();
            let mut j: usize = 0;
            while j < end
                invariant
                    0 <= j <= end <= line.len(),
                    kept@ == line@.subrange(0, j as int),
                decreases end - j,
            {
                kept.push(line[j]);
                assert(kept@ =~= line@.subrange(0, j + 1));
                j = j + 1;
            }
            out.push(from_chars(&kept));
            proof {
                assert forall|k: int| 0 <= k < out.len() implies #[trigger] out[k]@
                    == significant_lines(pieces.take(i + 1))[k] by {
                    if k < prev.len() {
                        assert(out[k]@ == prev[k]);
                    }
                }
            }
        }
        i = i + 1;
    }
    assert(pieces.take(lines.len() as int) =~= pieces);
    out
}

impl Manifest {
    /// Settles the add protocol for `spec` from what the environment reported: whether it
    /// installed, and, when `spec` pins no version, the version that is installed.
    pub fn record_add(
        &mut self,
        spec: &str,
        installed: Result<(), String>,
        queried: Option<Result<String, String>>,
    ) -> (r: Outcome)
        requires
            old(self).wf(),
            installed is Ok && spec_parts(spec@).1 is None ==> queried is Some,
        ensures
            final(self).wf(),
            final(self).project == old(self).project,
            final(self).scripts == old(self).scripts,
            final(self).packages@ == apply_outcome(old(self).packages@, r),
            r.name() == spec_parts(spec@).0,
            installed matches Err(e) ==> (r matches Outcome::InstallFailed { reason, .. } && reason == e),
            installed is Ok ==> (spec_parts(spec@).1 matches Some(v) ==> (r matches Outcome::Added {
                version,
                persist_error,
                ..
            } && version@ == v && persist_error is None)),
            installed is Ok && spec_parts(spec@).1 is None ==> (queried matches Some(Ok(v)) ==> (
            r matches Outcome::Added { version, persist_error, .. } && version == v
                && persist_error is None)),
            installed is Ok && spec_parts(spec@).1 is None ==> (queried matches Some(Err(e)) ==> (
            r matches Outcome::VersionResolutionFailed { reason, .. } && reason == e)),
    {
        let (name, explicit) = parse_spec(spec);
        match installed {
            Err(reason) => Outcome::InstallFailed { name, reason },
            Ok(()) => {
                let version = match explicit {
                    Some(v) => v,
                    None => match queried {
                        Some(Ok(v)) => v,
                        Some(Err(reason)) => {
                            return Outcome::VersionResolutionFailed { name, reason };
                        },
                        None => {
                            return Outcome::VersionResolutionFailed { name, reason: String::new() };
                        },
                    },
                };
                self.packages.insert(name.clone(), version.clone());
                Outcome::Added { name, version, persist_error: None }
            },
        }
    }

    /// Settles the remove protocol for `name` from what the environment reported: whether
    /// it exists, and, when it does and `name` is declared, whether the uninstall worked.
    pub fn record_remove(
        &mut self,
        name: &String,
        env_present: bool,
        uninstalled: Option<Result<(), String>>,
    ) -> (r: Outcome)
        requires
            old(self).wf(),
            old(self).packages@.contains_key(name@) && env_present ==> uninstalled is Some,
        ensures
            final(self).wf(),
            final(self).project == old(self).project,
            final(self).scripts == old(self).scripts,
            final(self).packages@ == apply_outcome(old(self).packages@, r),
            r.name() == name@,
            !old(self).packages@.contains_key(name@) ==> r is NotDeclared,
            old(self).packages@.contains_key(name@) && !env_present ==> r is EnvironmentMissing,
            old(self).packages@.contains_key(name@) && env_present ==> (uninstalled matches Some(Err(e))
                ==> (r matches Outcome::UninstallFailed { reason, .. } && reason == e)),
            old(self).packages@.contains_key(name@) && env_present ==> (uninstalled matches Some(Ok(_))
                ==> (r matches Outcome::Removed { persist_error, .. } && persist_error is None)),
    {
        if !self.packages.contains(name) {
            return Outcome::NotDeclared { name: name.clone() };
        }
        if !env_present {
            return Outcome::EnvironmentMissing { name: name.clone() };
        }
        match uninstalled {
            Some(Err(reason)) => Outcome::UninstallFailed { name: name.clone(), reason },
            _ => {
                self.packages.remove(name);
                Outcome::Removed { name: name.clone(), persist_error: None }
            },
        }
    }
}

/// A call made to the environment or the store, with what it reported where the
/// protocols depend on it.
pub enum Call {
    /// `install` of a specifier, and its error if it failed.
    Install(Seq<char>, Option<Seq<char>>),
    /// `installed_version` of a name.
    Query(Seq<char>),
    /// `is_present`, and its answer.
    Present(bool),
    /// `uninstall` of a name, and its error if it failed.
    Uninstall(Seq<char>, Option<Seq<char>>),
    /// `write` of a manifest whose declared packages were these, and its error if it failed.
    Write(Map<Seq<char>, Seq<char>>, Option<Seq<char>>),
}

/// The error of a result, as text.
pub open spec fn err_of(r: Result<(), String>) -> Option<Seq<char>> {
    match r {
        Ok(_) => None,
        Err(e) => Some(e@),
    }
}

/// An optional error, as text.
pub open spec fn opt_view(e: Option<String>) -> Option<Seq<char>> {
    match e {
        Some(x) => Some(x@),
        None => None,
    }
}

/// The environment and the store that the protocols work through, with a record of
/// every call made to them, in order.
pub struct Gateway<E: Environment, S: ManifestStore> {
    env: E,
    store: S,
    log: Ghost<Seq<Call>>,
}

impl<E: Environment, S: ManifestStore> Gateway<E, S> {
    /// The calls made so far, in order.
    pub closed spec fn calls(&self) -> Seq<Call> {
        self.log@
    }

    pub fn new(env: E, store: S) -> (r: Self)
        ensures
            r.calls() == Seq::<Call>::empty(),
    {
        Gateway { env, store, log: Ghost(Seq::empty()) }
    }

    /// The environment.
    pub fn env(&self) -> &E {
        &self.env
    }

    /// The store.
    pub fn store(&self) -> &S {
        &self.store
    }

    pub fn install(&mut self, spec: &str) -> (r: Result<(), String>)
        ensures
            final(self).calls() == old(self).calls().push(Call::Install(spec@, err_of(r))),
    {
        let r = self.env.install(spec);
        self.log = Ghost(self.log@.push(Call::Install(spec@, err_of(r))));
        r
    }

    pub fn installed_version(&mut self, name: &str) -> (r: Result<String, String>)
        ensures
            final(self).calls() == old(self).calls().push(Call::Query(name@)),
    {
        let r = self.env.installed_version(name);
        self.log = Ghost(self.log@.push(Call::Query(name@)));
        r
    }

    pub fn is_present(&mut self) -> (r: bool)
        ensures
            final(self).calls() == old(self).calls().push(Call::Present(r)),
    {
        let r = self.env.is_present();
        self.log = Ghost(self.log@.push(Call::Present(r)));
        r
    }

    pub fn uninstall(&mut self, name: &str) -> (r: Result<(), String>)
        ensures
            final(self).calls() == old(self).calls().push(Call::Uninstall(name@, err_of(r))),
    {
        let r = self.env.uninstall(name);
        self.log = Ghost(self.log@.push(Call::Uninstall(name@, err_of(r))));
        r
    }

    pub fn write(&mut self, manifest: &Manifest) -> (r: Result<(), String>)
        ensures
            final(self).calls() == old(self).calls().push(Call::Write(manifest.packages@, err_of(r))),
    {
        let r = self.store.write(manifest);
        self.log = Ghost(self.log@.push(Call::Write(manifest.packages@, err_of(r))));
        r
    }
}

/// Writes the manifest back after an outcome that changed it, and notes a failure there.
fn persist<E: Environment, S: ManifestStore>(manifest: &Manifest, o: Outcome, gw: &mut Gateway<E, S>) -> (r: Outcome)
    ensures
        r.name() == o.name(),
        apply_outcome_same(o, r),
        (o is Added || o is Removed) ==> final(gw).calls() == old(gw).calls().push(
            Call::Write(manifest.packages@, persist_error_of(r)),
        ),
        !(o is Added || o is Removed) ==> final(gw).calls() == old(gw).calls(),
{
    match o {
        Outcome::Added { name, version, .. } => {
            let persist_error = match gw.write(manifest) {
                Ok(()) => None,
                Err(e) => Some(e),
            };
            Outcome::Added { name, version, persist_error }
        },
        Outcome::Removed { name, .. } => {
            let persist_error = match gw.write(manifest) {
                Ok(()) => None,
                Err(e) => Some(e),
            };
            Outcome::Removed { name, persist_error }
        },
        other => other,
    }
}

/// The write-back error an outcome carries.
pub open spec fn persist_error_of(o: Outcome) -> Option<Seq<char>> {
    match o {
        Outcome::Added { persist_error, .. } => opt_view(persist_error),
        Outcome::Removed { persist_error, .. } => opt_view(persist_error),
        _ => None,
    }
}

/// Two outcomes of the same kind that change the declared packages alike.
pub open spec fn apply_outcome_same(a: Outcome, b: Outcome) -> bool {
    match (a, b) {
        (Outcome::Added { name: n1, version: v1, .. }, Outcome::Added { name: n2, version: v2, .. }) => n1@
            == n2@ && v1@ == v2@,
        (Outcome::Removed { name: n1, .. }, Outcome::Removed { name: n2, .. }) => n1@ == n2@,
        _ => a == b,
    }
}

/// The calls the add protocol makes for the specifier `s` that ended in `o`, the
/// declared packages being `after` once it is recorded: the install, verbatim; the
/// version query, only after a successful install of an unpinned specifier; the write,
/// only once the package is recorded.
pub open spec fn add_calls(s: Seq<char>, o: Outcome, after: Map<Seq<char>, Seq<char>>) -> Seq<Call> {
    let (name, explicit) = spec_parts(s);
    match o {
        Outcome::InstallFailed { reason, .. } => seq![Call::Install(s, Some(reason@))],
        Outcome::VersionResolutionFailed { .. } => seq![Call::Install(s, None), Call::Query(name)],
        Outcome::Added { persist_error, .. } => seq![Call::Install(s, None)] + (if explicit is None {
            seq![Call::Query(name)]
        } else {
            Seq::empty()
        }) + seq![Call::Write(after, opt_view(persist_error))],
        _ => Seq::empty(),
    }
}

/// The calls of an add batch over `specs` that ended in the outcomes `os`, from the
/// declared packages `m`.
pub open spec fn add_calls_all(m: Map<Seq<char>, Seq<char>>, specs: Seq<Seq<char>>, os: Seq<Outcome>) -> Seq<Call>
    decreases os.len(),
{
    if os.len() == 0 {
        Seq::empty()
    } else {
        add_calls_all(m, specs, os.drop_last()) + add_calls(
            specs[os.len() - 1],
            os.last(),
            apply_outcomes(m, os),
        )
    }
}

/// The calls the remove protocol makes for `name` that ended in `o`: none for an
/// undeclared name; else the presence check, then the uninstall only if the
/// environment is there, then the write only once the package is dropped.
pub open spec fn remove_calls(name: Seq<char>, o: Outcome, after: Map<Seq<char>, Seq<char>>) -> Seq<Call> {
    match o {
        Outcome::NotDeclared { .. } => Seq::empty(),
        Outcome::EnvironmentMissing { .. } => seq![Call::Present(false)],
        Outcome::UninstallFailed { reason, .. } => seq![
            Call::Present(true),
            Call::Uninstall(name, Some(reason@)),
        ],
        Outcome::Removed { persist_error, .. } => seq![
            Call::Present(true),
            Call::Uninstall(name, None),
            Call::Write(after, opt_view(persist_error)),
        ],
        _ => Seq::empty(),
    }
}

/// The calls of a remove batch over `names` that ended in the outcomes `os`.
pub open spec fn remove_calls_all(m: Map<Seq<char>, Seq<char>>, names: Seq<Seq<char>>, os: Seq<Outcome>) -> Seq<Call>
    decreases os.len(),
{
    if os.len() == 0 {
        Seq::empty()
    } else {
        remove_calls_all(m, names, os.drop_last()) + remove_calls(
            names[os.len() - 1],
            os.last(),
            apply_outcomes(m, os),
        )
    }
}

/// The calls of installing the pairs `ps` at their pins that ended in the outcomes `os`.
pub open spec fn pinned_calls(ps: Seq<(Seq<char>, Seq<char>)>, os: Seq<Outcome>) -> Seq<Call>
    decreases os.len(),
{
    if os.len() == 0 {
        Seq::empty()
    } else {
        let i = os.len() - 1;
        pinned_calls(ps, os.drop_last()) + seq![Call::Install(
            ps[i].0 + "=="@ + ps[i].1,
            match os.last() {
                Outcome::InstallFailed { reason, .. } => Some(reason@),
                _ => None,
            },
        )]
    }
}

/// The views of a list of strings.
pub open spec fn views(v: Seq<String>) -> Seq<Seq<char>> {
    v.map_values(|s: String| s@)
}

/// Runs the add protocol on the specifier `spec`: install it, settle its version,
/// record it and write the manifest back.
fn add_one<E: Environment, S: ManifestStore>(
    spec: &String,
    manifest: &mut Manifest,
    gw: &mut Gateway<E, S>,
) -> (r: Outcome)
    requires
        old(manifest).wf(),
    ensures
        final(manifest).wf(),
        final(manifest).project == old(manifest).project,
        final(manifest).scripts == old(manifest).scripts,
        add_outcome_ok(spec@, r),
        final(manifest).packages@ == apply_outcome(old(manifest).packages@, r),
        final(gw).calls() == old(gw).calls() + add_calls(spec@, r, final(manifest).packages@),
{
    let (name, explicit) = parse_spec(spec.as_str());
    let installed = gw.install(spec.as_str());
    let queried = if installed.is_ok() && explicit.is_none() {
        Some(gw.installed_version(name.as_str()))
    } else {
        None
    };
    let o = manifest.record_add(spec.as_str(), installed, queried);
    let r = persist(manifest, o, gw);
    assert(final(gw).calls() =~= old(gw).calls() + add_calls(spec@, r, manifest.packages@));
    r
}

/// Runs the add protocol on each specifier of `specs`, in order, going on past failures.
#[verifier::rlimit(40)]
fn add_all<E: Environment, S: ManifestStore>(
    specs: &Vec<String>,
    manifest: &mut Manifest,
    gw: &mut Gateway<E, S>,
) -> (r: Vec<Outcome>)
    requires
        old(manifest).wf(),
    ensures
        final(manifest).wf(),
        final(manifest).project == old(manifest).project,
        final(manifest).scripts == old(manifest).scripts,
        r.len() == specs.len(),
        forall|i: int| 0 <= i < r.len() ==> add_outcome_ok(specs[i]@, #[trigger] r[i]),
        final(manifest).packages@ == apply_outcomes(old(manifest).packages@, r@),
        final(gw).calls() == old(gw).calls() + add_calls_all(old(manifest).packages@, views(specs@), r@),
{
    let ghost m0 = manifest.packages@;
    let ghost log0 = gw.calls();
    let mut out: Vec<Outcome> = Vec::new();
    let mut i: usize = 0;
    while i < specs.len()
        invariant
            0 <= i <= specs.len(),
            out.len() == i,
            manifest.wf(),
            manifest.project == old(manifest).project,
            manifest.scripts == old(manifest).scripts,
            m0 == old(manifest).packages@,
            log0 == old(gw).calls(),
            forall|k: int| 0 <= k < i ==> add_outcome_ok(specs[k]@, #[trigger] out[k]),
            manifest.packages@ == apply_outcomes(m0, out@),
            gw.calls() == log0 + add_calls_all(m0, views(specs@), out@),
        decreases specs.len() - i,
    {
        let ghost before = out@;
        let ghost before_log = gw.calls();
        let o = add_one(&specs[i], manifest, gw);
        out.push(o);
        proof {
            assert(out@.drop_last() =~= before);
            assert(views(specs@)[i as int] == specs[i as int]@);
            assert(gw.calls() =~= log0 + add_calls_all(m0, views(specs@), out@));
        }
        i = i + 1;
    }
    out
}

/// The packages to add to a project.
#[derive(Debug, Clone)]
pub struct AddPackage {
    pub pkg_names: Vec<String>,
}

impl AddPackage {
    /// Installs each specifier in turn and records it in `manifest`, writing the manifest
    /// back after each one; a failure is reported and the batch goes on.
    pub fn add_package<E: Environment, S: ManifestStore>(
        &self,
        manifest: &mut Manifest,
        gw: &mut Gateway<E, S>,
    ) -> (r: Vec<Outcome>)
        requires
            old(manifest).wf(),
        ensures
            final(manifest).wf(),
            final(manifest).project == old(manifest).project,
            final(manifest).scripts == old(manifest).scripts,
            r.len() == self.pkg_names.len(),
            forall|i: int| 0 <= i < r.len() ==> add_outcome_ok(self.pkg_names[i]@, #[trigger] r[i]),
            final(manifest).packages@ == apply_outcomes(old(manifest).packages@, r@),
            final(gw).calls() == old(gw).calls() + add_calls_all(
                old(manifest).packages@,
                views(self.pkg_names@),
                r@,
            ),
    {
        add_all(&self.pkg_names, manifest, gw)
    }
}

/// The packages to remove from a project.
#[derive(Debug, Clone)]
pub struct RemovePackage {
    pub pkg_names: Vec<String>,
}

impl RemovePackage {
    /// Runs the remove protocol on `name`.
    fn remove_one<E: Environment, S: ManifestStore>(
        &self,
        name: &String,
        manifest: &mut Manifest,
        gw: &mut Gateway<E, S>,
    ) -> (r: Outcome)
        requires
            old(manifest).wf(),
        ensures
            final(manifest).wf(),
            final(manifest).project == old(manifest).project,
            final(manifest).scripts == old(manifest).scripts,
            remove_outcome_ok(old(manifest).packages@, name@, r),
            final(manifest).packages@ == apply_outcome(old(manifest).packages@, r),
            final(gw).calls() == old(gw).calls() + remove_calls(name@, r, final(manifest).packages@),
    {
        let declared = manifest.packages.contains(name);
        let env_present = declared && gw.is_present();
        let uninstalled = if declared && env_present {
            Some(gw.uninstall(name.as_str()))
        } else {
            None
        };
        let o = manifest.record_remove(name, env_present, uninstalled);
        let r = persist(manifest, o, gw);
        assert(final(gw).calls() =~= old(gw).calls() + remove_calls(name@, r, manifest.packages@));
        r
    }

    /// Uninstalls each declared package in turn and drops it from `manifest`, writing the
    /// manifest back after each one; a name the manifest does not declare is reported
    /// and left alone, with no call made for it.
    #[verifier::rlimit(40)]
    pub fn remove_package<E: Environment, S: ManifestStore>(
        &self,
        manifest: &mut Manifest,
        gw: &mut Gateway<E, S>,
    ) -> (r: Vec<Outcome>)
        requires
            old(manifest).wf(),
        ensures
            final(manifest).wf(),
            final(manifest).project == old(manifest).project,
            final(manifest).scripts == old(manifest).scripts,
            r.len() == self.pkg_names.len(),
            forall|i: int|
                0 <= i < r.len() ==> remove_outcome_ok(
                    apply_outcomes(old(manifest).packages@, r@.take(i)),
                    self.pkg_names[i]@,
                    #[trigger] r[i],
                ),
            final(manifest).packages@ == apply_outcomes(old(manifest).packages@, r@),
            final(gw).calls() == old(gw).calls() + remove_calls_all(
                old(manifest).packages@,
                views(self.pkg_names@),
                r@,
            ),
    {
        let ghost m0 = manifest.packages@;
        let ghost log0 = gw.calls();
        let mut out: Vec<Outcome> = Vec::new();
        let mut i: usize = 0;
        while i < self.pkg_names.len()
            invariant
                0 <= i <= self.pkg_names.len(),
                out.len() == i,
                manifest.wf(),
                manifest.project == old(manifest).project,
                manifest.scripts == old(manifest).scripts,
                m0 == old(manifest).packages@,
                log0 == old(gw).calls(),
                forall|k: int|
                    0 <= k < i ==> remove_outcome_ok(
                        apply_outcomes(m0, out@.take(k)),
                        self.pkg_names[k]@,
                        #[trigger] out[k],
                    ),
                manifest.packages@ == apply_outcomes(m0, out@),
                gw.calls() == log0 + remove_calls_all(m0, views(self.pkg_names@), out@),
            decreases self.pkg_names.len() - i,
        {
            let ghost before = out@;
            let o = self.remove_one(&self.pkg_names[i], manifest, gw);
            out.push(o);
            proof {
                assert(out@.drop_last() =~= before);
                assert(out@.take(i as int) =~= before);
                assert(views(self.pkg_names@)[i as int] == self.pkg_names[i as int]@);
                assert(gw.calls() =~= log0 + remove_calls_all(m0, views(self.pkg_names@), out@));
                assert forall|k: int| 0 <= k < i + 1 implies remove_outcome_ok(
                    apply_outcomes(m0, out@.take(k)),
                    self.pkg_names[k]@,
                    #[trigger] out[k],
                ) by {
                    if k < i {
                        assert(out@.take(k) =~= before.take(k));
                    }
                }
            }
            i = i + 1;
        }
        assert(out@.take(out.len() as int) =~= out@);
        out
    }
}

/// Where an install command takes its packages from.
#[derive(Debug, Clone)]
pub struct Installer {
    /// Path of a requirements file; empty to install what the manifest declares.
    pub requirements: String,
}

impl Installer {
    /// Whether the packages come from a requirements file.
    pub fn from_requirements(&self) -> (r: bool)
        ensures
            r == (self.requirements@.len() > 0),
    {
        !self.requirements.as_str().is_empty()
    }

    /// Installs from the text of a requirements file: each significant line goes
    /// through the add protocol, so what installs is recorded in `manifest`.
    pub fn install_from_req<E: Environment, S: ManifestStore>(
        &self,
        text: &str,
        manifest: &mut Manifest,
        gw: &mut Gateway<E, S>,
    ) -> (r: InstallReport)
        requires
            old(manifest).wf(),
        ensures
            final(manifest).wf(),
            final(manifest).project == old(manifest).project,
            final(manifest).scripts == old(manifest).scripts,
            requirement_specs(text@).len() == 0 <==> r is NoPackagesFound,
            r is NoPackagesFound ==> final(manifest).packages == old(manifest).packages
                && final(gw).calls() == old(gw).calls(),
            !(r is NothingToInstall),
            r matches InstallReport::Done(os) ==> {
                &&& os.len() == requirement_specs(text@).len()
                &&& forall|i: int|
                    0 <= i < os.len() ==> add_outcome_ok(requirement_specs(text@)[i], #[trigger] os[i])
                &&& final(manifest).packages@ == apply_outcomes(old(manifest).packages@, os@)
                &&& final(gw).calls() == old(gw).calls() + add_calls_all(
                    old(manifest).packages@,
                    requirement_specs(text@),
                    os@,
                )
            },
    {
        let specs = requirement_lines(text);
        if specs.len() == 0 {
            return InstallReport::NoPackagesFound;
        }
        assert(views(specs@) =~= requirement_specs(text@));
        let os = add_all(&specs, manifest, gw);
        InstallReport::Done(os)
    }

    /// Installs what the manifest declares, each as `name==version`, in order; the
    /// manifest is not changed and nothing is written.
    pub fn install_from_manifest<E: Environment, S: ManifestStore>(
        &self,
        manifest: &Manifest,
        gw: &mut Gateway<E, S>,
    ) -> (r: InstallReport)
        requires
            manifest.wf(),
        ensures
            manifest.packages@.len() == 0 <==> r is NothingToInstall,
            r is NothingToInstall ==> final(gw).calls() == old(gw).calls(),
            !(r is NoPackagesFound),
            r matches InstallReport::Done(os) ==> {
                &&& os.len() == manifest.packages@.len()
                &&& forall|i: int| 0 <= i < os.len() ==> {
                    &&& (#[trigger] os[i]).name() == manifest.packages.pairs()[i].0
                    &&& os[i] is Installed || os[i] is InstallFailed
                }
                &&& final(gw).calls() == old(gw).calls() + pinned_calls(manifest.packages.pairs(), os@)
            },
    {
        if manifest.packages.is_empty() {
            return InstallReport::NothingToInstall;
        }
        proof {
            manifest.packages.lemma_len();
        }
        let ghost log0 = gw.calls();
        let n = manifest.packages.size();
        let mut out: Vec<Outcome> = Vec::new();
        let mut i: usize = 0;
        while i < n
            invariant
                0 <= i <= n,
                n == manifest.packages.pairs().len(),
                out.len() == i,
                log0 == old(gw).calls(),
                forall|k: int| 0 <= k < i ==> {
                    &&& (#[trigger] out[k]).name() == manifest.packages.pairs()[k].0
                    &&& out[k] is Installed || out[k] is InstallFailed
                },
                gw.calls() == log0 + pinned_calls(manifest.packages.pairs(), out@),
            decreases n - i,
        {
            let ghost before = out@;
            let (name, version) = manifest.packages.entry(i);
            let spec = pinned_spec(name, version);
            let o = match gw.install(spec.as_str()) {
                Ok(()) => Outcome::Installed { name: name.clone() },
                Err(reason) => Outcome::InstallFailed { name: name.clone(), reason },
            };
            out.push(o);
            proof {
                assert(out@.drop_last() =~= before);
                assert(gw.calls() =~= log0 + pinned_calls(manifest.packages.pairs(), out@));
            }
            i = i + 1;
        }
        InstallReport::Done(out)
    }

    /// Installs from the requirements text when a requirements file is set, else what
    /// the manifest declares.
    pub fn install_packages<E: Environment, S: ManifestStore>(
        &self,
        text: &str,
        manifest: &mut Manifest,
        gw: &mut Gateway<E, S>,
    ) -> (r: InstallReport)
        requires
            old(manifest).wf(),
        ensures
            final(manifest).wf(),
            final(manifest).project == old(manifest).project,
            final(manifest).scripts == old(manifest).scripts,
            self.requirements@.len() > 0 ==> {
                &&& (requirement_specs(text@).len() == 0 <==> r is NoPackagesFound)
                &&& r is NoPackagesFound ==> final(manifest).packages == old(manifest).packages
                    && final(gw).calls() == old(gw).calls()
                &&& !(r is NothingToInstall)
                &&& r matches InstallReport::Done(os) ==> {
                    &&& os.len() == requirement_specs(text@).len()
                    &&& forall|i: int|
                        0 <= i < os.len() ==> add_outcome_ok(requirement_specs(text@)[i], #[trigger] os[i])
                    &&& final(manifest).packages@ == apply_outcomes(old(manifest).packages@, os@)
                    &&& final(gw).calls() == old(gw).calls() + add_calls_all(
                        old(manifest).packages@,
                        requirement_specs(text@),
                        os@,
                    )
                }
            },
            self.requirements@.len() == 0 ==> {
                &&& final(manifest).packages == old(manifest).packages
                &&& (old(manifest).packages@.len() == 0 <==> r is NothingToInstall)
                &&& r is NothingToInstall ==> final(gw).calls() == old(gw).calls()
                &&& !(r is NoPackagesFound)
                &&& r matches InstallReport::Done(os) ==> {
                    &&& os.len() == old(manifest).packages@.len()
                    &&& forall|i: int| 0 <= i < os.len() ==> {
                        &&& (#[trigger] os[i]).name() == old(manifest).packages.pairs()[i].0
                        &&& os[i] is Installed || os[i] is InstallFailed
                    }
                    &&& final(gw).calls() == old(gw).calls() + pinned_calls(old(manifest).packages.pairs(), os@)
                }
            },
    {
        if self.from_requirements() {
            self.install_from_req(text, manifest, gw)
        } else {
            self.install_from_manifest(manifest, gw)
        }
    }
}

/// A requirements text that pins each pair, one `name==version` line each.
pub open spec fn requirements_of(pairs: Seq<(Seq<char>, Seq<char>)>) -> Seq<char>
    decreases pairs.len(),
{
    if pairs.len() == 0 {
        Seq::empty()
    } else {
        requirements_of(pairs.drop_last()) + pairs.last().0 + "=="@ + pairs.last().1 + "\n"@
    }
}

/// The requirements text that pins every declared package at its recorded version.
pub fn requirements_text(manifest: &Manifest) -> (r: String)
    requires
        manifest.wf(),
    ensures
        r@ == requirements_of(manifest.packages.pairs()),
{
    let n = manifest.packages.size();
    let mut out = String::new();
    let mut i: usize = 0;
    while i < n
        invariant
            0 <= i <= n,
            n == manifest.packages.pairs().len(),
            out@ == requirements_of(manifest.packages.pairs().take(i as int)),
        decreases n - i,
    {
        let (name, version) = manifest.packages.entry(i);
        let line = pinned_spec(name, version);
        let with_line = concat(out.as_str(), line.as_str());
        out = concat(with_line.as_str(), "\n");
        proof {
            let p = manifest.packages.pairs();
            assert(p.take(i + 1).drop_last() =~= p.take(i as int));
        }
        i = i + 1;
    }
    assert(manifest.packages.pairs().take(n as int) =~= manifest.packages.pairs());
    out
}

/// The names the manifest declares, in order.
pub fn declared_names(manifest: &Manifest) -> (r: Vec<String>)
    requires
        manifest.wf(),
    ensures
        r.len() == manifest.packages.pairs().len(),
        forall|i: int| 0 <= i < r.len() ==> #[trigger] r[i]@ == manifest.packages.pairs()[i].0,
{
    let n = manifest.packages.size();
    let mut out: Vec<String> = Vec::new();
    let mut i: usize = 0;
    while i < n
        invariant
            0 <= i <= n,
            n == manifest.packages.pairs().len(),
            out.len() == i,
            forall|k: int| 0 <= k < i ==> #[trigger] out[k]@ == manifest.packages.pairs()[k].0,
        decreases n - i,
    {
        let (name, _) = manifest.packages.entry(i);
        out.push(name.clone());
        i = i + 1;
    }
    out
}

} // verus!

//! Pkl projects: a `PklProject` file with its package metadata and its
//! dependencies, and the protocol message that hands a project to the
//! server.
use vstd::prelude::*;
use crate::msgapi::{
    lemma_msg_view, msg_view, Checksums, DepMsgModel, DependencyMap, ProjectOrDependency,
};
use crate::error::{PklError, PklErrorModel};
use crate::text::opt_str;
use crate::ordered::{entries_insert, entries_keys, lemma_entries_insert, sorted_keys};

verus! {

/// A loaded Pkl project, matching `pkl:Project`.
#[derive(Debug)]
pub struct Project {
    /// URI of the PklProject file.
    pub project_file_uri: String,
    /// Package metadata (if this project is a package).
    pub package: Option<ProjectPackage>,
    /// Declared dependencies.
    pub dependencies: ProjectDependencies,
}

/// Package metadata from a `PklProject`.
#[derive(Debug)]
pub struct ProjectPackage {
    pub name: String,
    pub base_uri: String,
    pub version: String,
    pub package_zip_url: String,
    pub uri: String,
}

/// Resolved project dependencies (local + remote).
#[derive(Debug)]
pub struct ProjectDependencies {
    pub local: Vec<ProjectLocalDependency>,
    pub remote: Vec<ProjectRemoteDependency>,
}

/// A local project dependency (another PklProject on disk).
#[derive(Debug)]
pub struct ProjectLocalDependency {
    pub package_uri: String,
    pub project_file_uri: String,
    pub dependencies: ProjectDependencies,
}

/// A remote package dependency.
#[derive(Debug)]
pub struct ProjectRemoteDependency {
    pub package_uri: String,
    pub checksums: Option<String>,
    pub dependencies: ProjectDependencies,
}

impl ProjectDependencies {
    /// No dependency at all.
    pub fn new() -> (r: ProjectDependencies)
        ensures
            r.local@.len() == 0,
            r.remote@.len() == 0,
    {
        ProjectDependencies { local: Vec::new(), remote: Vec::new() }
    }

    /// How many dependencies are declared, local and remote together.
    pub open spec fn count(self) -> nat {
        self.local@.len() + self.remote@.len()
    }
}

/// The message of the `i`-th dependency, counting the local ones first and
/// then the remote ones.
pub open spec fn dep_entry(d: ProjectDependencies, i: int) -> (Seq<char>, DepMsgModel)
    decreases d, 0int, 0int,
{
    if 0 <= i < d.local@.len() {
        let l = d.local@[i];
        (l.package_uri@, DepMsgModel {
            package_uri: Some(l.package_uri@),
            kind: "local"@,
            project_file_uri: Some(l.project_file_uri@),
            checksum: None,
            dependencies: deps_msg_upto(l.dependencies, l.dependencies.count() as int),
        })
    } else if d.local@.len() <= i < d.count() {
        let r = d.remote@[i - d.local@.len()];
        (r.package_uri@, DepMsgModel {
            package_uri: Some(r.package_uri@),
            kind: "remote"@,
            project_file_uri: None,
            checksum: match r.checksums {
                Some(c) => Some(c@),
                None => None,
            },
            dependencies: deps_msg_upto(r.dependencies, r.dependencies.count() as int),
        })
    } else {
        (seq![], DepMsgModel {
            package_uri: None,
            kind: seq![],
            project_file_uri: None,
            checksum: None,
            dependencies: seq![],
        })
    }
}

/// The dependency map after inserting the first `n` dependencies (local ones
/// first, then remote ones), each under its package URI: a later dependency
/// with the same URI replaces an earlier one.
pub open spec fn deps_msg_upto(d: ProjectDependencies, n: int) -> Seq<(Seq<char>, DepMsgModel)>
    decreases d, 1int, n,
{
    if n <= 0 || n > d.count() {
        seq![]
    } else {
        let e = dep_entry(d, n - 1);
        entries_insert(deps_msg_upto(d, n - 1), e.0, e.1)
    }
}

/// The dependency map of all dependencies.
pub open spec fn deps_msg(d: ProjectDependencies) -> Seq<(Seq<char>, DepMsgModel)> {
    deps_msg_upto(d, d.count() as int)
}

/// The model of the message that describes `p` to the server.
pub open spec fn project_msg(p: Project) -> DepMsgModel {
    DepMsgModel {
        package_uri: match p.package {
            Some(pk) => Some(pk.uri@),
            None => None,
        },
        kind: "project"@,
        project_file_uri: Some(p.project_file_uri@),
        checksum: None,
        dependencies: deps_msg(p.dependencies),
    }
}

/// The package URIs of the first `n` dependencies.
pub open spec fn dep_uris_upto(d: ProjectDependencies, n: int) -> Set<Seq<char>> {
    Set::new(|u: Seq<char>| exists|i: int| 0 <= i < n && #[trigger] dep_entry(d, i).0 == u)
}

/// The package URIs of all dependencies, local and remote.
pub open spec fn dep_uris(d: ProjectDependencies) -> Set<Seq<char>> {
    Set::new(
        |u: Seq<char>|
            (exists|i: int| 0 <= i < d.local@.len() && #[trigger] d.local@[i].package_uri@ == u)
                || (exists|i: int|
                0 <= i < d.remote@.len() && #[trigger] d.remote@[i].package_uri@ == u),
    )
}

proof fn lemma_deps_upto(d: ProjectDependencies, n: int)
    requires
        0 <= n <= d.count(),
    ensures
        sorted_keys(deps_msg_upto(d, n)),
        entries_keys(deps_msg_upto(d, n)) == dep_uris_upto(d, n),
    decreases n,
{
    if n == 0 {
        assert(entries_keys(deps_msg_upto(d, n)) =~= dep_uris_upto(d, n));
    } else {
        lemma_deps_upto(d, n - 1);
        let e = dep_entry(d, n - 1);
        lemma_entries_insert(deps_msg_upto(d, n - 1), e.0, e.1);
        assert forall|u: Seq<char>| #[trigger] dep_uris_upto(d, n).contains(u) <==> dep_uris_upto(
            d,
            n - 1,
        ).insert(e.0).contains(u) by {
            if dep_uris_upto(d, n).contains(u) {
                let i = choose|i: int| 0 <= i < n && #[trigger] dep_entry(d, i).0 == u;
                if i < n - 1 {
                    assert(dep_uris_upto(d, n - 1).contains(u));
                }
            }
            if dep_uris_upto(d, n - 1).contains(u) {
                let i = choose|i: int| 0 <= i < n - 1 && #[trigger] dep_entry(d, i).0 == u;
                assert(dep_entry(d, i).0 == u);
            }
        }
        assert(dep_uris_upto(d, n) =~= dep_uris_upto(d, n - 1).insert(e.0));
    }
}

/// The dependency map of a project message holds each dependency under its
/// package URI, one entry per URI, in ascending key order: its keys are
/// exactly the package URIs of the local and remote dependencies.
pub proof fn lemma_deps_msg_keys(d: ProjectDependencies)
    ensures
        sorted_keys(deps_msg(d)),
        entries_keys(deps_msg(d)) == dep_uris(d),
{
    lemma_deps_upto(d, d.count() as int);
    assert forall|u: Seq<char>| #[trigger] dep_uris(d).contains(u) <==> dep_uris_upto(
        d,
        d.count() as int,
    ).contains(u) by {
        if dep_uris_upto(d, d.count() as int).contains(u) {
            let i = choose|i: int| 0 <= i < d.count() && #[trigger] dep_entry(d, i).0 == u;
            if i < d.local@.len() {
                assert(d.local@[i].package_uri@ == u);
            } else {
                assert(d.remote@[i - d.local@.len()].package_uri@ == u);
            }
        }
        if exists|i: int| 0 <= i < d.local@.len() && #[trigger] d.local@[i].package_uri@ == u {
            let i = choose|i: int| 0 <= i < d.local@.len() && #[trigger] d.local@[i].package_uri@ == u;
            assert(dep_entry(d, i).0 == u);
        }
        if exists|i: int| 0 <= i < d.remote@.len() && #[trigger] d.remote@[i].package_uri@ == u {
            let i = choose|i: int| 0 <= i < d.remote@.len() && #[trigger] d.remote@[i].package_uri@ == u;
            assert(dep_entry(d, i + d.local@.len()).0 == u);
        }
    }
    assert(dep_uris(d) =~= dep_uris_upto(d, d.count() as int));
}

/// The message entry of one local dependency.
fn local_to_message(dep: &ProjectLocalDependency) -> (r: ProjectOrDependency)
    ensures
        msg_view(r) == (DepMsgModel {
            package_uri: Some(dep.package_uri@),
            kind: "local"@,
            project_file_uri: Some(dep.project_file_uri@),
            checksum: None,
            dependencies: deps_msg(dep.dependencies),
        }),
    decreases dep, 0int,
{
    let r = ProjectOrDependency {
        packageUri: Some(dep.package_uri.clone()),
        kind: "local".to_string(),
        projectFileUri: Some(dep.project_file_uri.clone()),
        checksums: None,
        dependencies: project_deps_to_message(&dep.dependencies),
    };
    proof {
        lemma_msg_view(r);
    }
    r
}

/// The message entry of one remote dependency.
fn remote_to_message(dep: &ProjectRemoteDependency) -> (r: ProjectOrDependency)
    ensures
        msg_view(r) == (DepMsgModel {
            package_uri: Some(dep.package_uri@),
            kind: "remote"@,
            project_file_uri: None,
            checksum: match dep.checksums {
                Some(c) => Some(c@),
                None => None,
            },
            dependencies: deps_msg(dep.dependencies),
        }),
    decreases dep, 0int,
{
    let checksums = match &dep.checksums {
        Some(c) => Some(Checksums { sha256: c.clone() }),
        None => None,
    };
    let r = ProjectOrDependency {
        packageUri: Some(dep.package_uri.clone()),
        kind: "remote".to_string(),
        projectFileUri: None,
        checksums,
        dependencies: project_deps_to_message(&dep.dependencies),
    };
    proof {
        lemma_msg_view(r);
    }
    r
}

/// The dependency map of a project message: local dependencies first, then
/// remote ones, each under its package URI.
fn project_deps_to_message(deps: &ProjectDependencies) -> (r: DependencyMap)
    ensures
        r.view_entries() == deps_msg(*deps),
    decreases deps, 1int,
{
    let mut map = DependencyMap::new();
    let nl = deps.local.len();
    let mut i: usize = 0;
    while i < nl
        invariant
            nl == deps.local@.len(),
            i <= nl,
            map.view_entries() == deps_msg_upto(*deps, i as int),
        decreases nl - i,
    {
        let dep = &deps.local[i];
        let inner = local_to_message(dep);
        let key = dep.package_uri.clone();
        assert(key@ == dep_entry(*deps, i as int).0);
        assert(msg_view(inner) == dep_entry(*deps, i as int).1);
        map.insert(key, inner);
        i = i + 1;
    }
    let nr = deps.remote.len();
    let mut j: usize = 0;
    while j < nr
        invariant
            nl == deps.local@.len(),
            nr == deps.remote@.len(),
            j <= nr,
            map.view_entries() == deps_msg_upto(*deps, nl + j),
        decreases nr - j,
    {
        let dep = &deps.remote[j];
        let inner = remote_to_message(dep);
        let key = dep.package_uri.clone();
        assert(key@ == dep_entry(*deps, nl + j).0);
        assert(msg_view(inner) == dep_entry(*deps, nl + j).1);
        map.insert(key, inner);
        j = j + 1;
    }
    map
}

/// Converts a `Project` into the protocol-level `ProjectOrDependency`
/// message: of type `project`, with the project file URI, the package URI
/// where the project is a package, no checksums, and its dependencies.
pub fn project_to_message(project: &Project) -> (r: ProjectOrDependency)
    ensures
        msg_view(r) == project_msg(*project),
{
    let deps = project_deps_to_message(&project.dependencies);
    let package_uri = match &project.package {
        Some(p) => Some(p.uri.clone()),
        None => None,
    };
    let r = ProjectOrDependency {
        packageUri: package_uri,
        kind: "project".to_string(),
        projectFileUri: Some(project.project_file_uri.clone()),
        checksums: None,
        dependencies: deps,
    };
    proof {
        lemma_msg_view(r);
    }
    r
}

// ── Reading a project from its evaluated `PklProject` ──

/// What the loader reads of one entry of a `dependencies` listing: the
/// string-valued properties it looks at (absent where the property is
/// missing or not a string), the `sha256` string of its `checksums` object,
/// and its own dependencies (absent where that property is neither an
/// object nor a mapping; an entry that is not an object there is `None`).
#[derive(Debug)]
pub struct DependencyFields {
    pub project_file_uri: Option<String>,
    pub package_uri: Option<String>,
    pub uri: Option<String>,
    pub sha256: Option<String>,
    pub dependencies: Option<Vec<Option<DependencyFields>>>,
}

/// What the loader reads of the `package` object of a `PklProject`.
#[derive(Debug)]
pub struct PackageFields {
    pub name: Option<String>,
    pub base_uri: Option<String>,
    pub version: Option<String>,
    pub package_zip_url: Option<String>,
    pub uri: Option<String>,
}

/// What the loader reads of an evaluated `PklProject` object.
#[derive(Debug)]
pub struct ProjectFields {
    pub project_file_uri: Option<String>,
    pub package: Option<PackageFields>,
    pub dependencies: Option<Vec<Option<DependencyFields>>>,
}

/// The model of a local dependency.
pub struct LocalModel {
    pub package_uri: Seq<char>,
    pub project_file_uri: Seq<char>,
    pub dependencies: DepsModel,
}

/// The model of a remote dependency.
pub struct RemoteModel {
    pub package_uri: Seq<char>,
    pub checksums: Option<Seq<char>>,
    pub dependencies: DepsModel,
}

/// The model of a project's dependencies.
pub struct DepsModel {
    pub local: Seq<LocalModel>,
    pub remote: Seq<RemoteModel>,
}


/// The model of a project's dependencies.
pub open spec fn deps_view(d: ProjectDependencies) -> DepsModel
    decreases d,
{
    DepsModel {
        local: Seq::new(
            d.local@.len(),
            |i: int|
                if 0 <= i < d.local@.len() {
                    LocalModel {
                        package_uri: d.local@[i].package_uri@,
                        project_file_uri: d.local@[i].project_file_uri@,
                        dependencies: deps_view(d.local@[i].dependencies),
                    }
                } else {
                    LocalModel { package_uri: seq![], project_file_uri: seq![], dependencies: DepsModel { local: seq![], remote: seq![] } }
                },
        ),
        remote: Seq::new(
            d.remote@.len(),
            |i: int|
                if 0 <= i < d.remote@.len() {
                    RemoteModel {
                        package_uri: d.remote@[i].package_uri@,
                        checksums: opt_str(d.remote@[i].checksums),
                        dependencies: deps_view(d.remote@[i].dependencies),
                    }
                } else {
                    RemoteModel { package_uri: seq![], checksums: None, dependencies: DepsModel { local: seq![], remote: seq![] } }
                },
        ),
    }
}

pub open spec fn no_deps() -> DepsModel {
    DepsModel { local: seq![], remote: seq![] }
}

/// The dependencies an entry lists itself; none where it lists none.
pub open spec fn nested_deps(f: DependencyFields) -> DepsModel
    decreases f, 0int, 0int,
{
    match f.dependencies {
        Some(v) => deps_of_upto(v@, v@.len() as int),
        None => no_deps(),
    }
}

/// The package URI of a local dependency: `packageUri`, else `uri`, else empty.
pub open spec fn local_package_uri(f: DependencyFields) -> Seq<char> {
    match opt_str(f.package_uri) {
        Some(u) => u,
        None => match opt_str(f.uri) {
            Some(u) => u,
            None => seq![],
        },
    }
}

/// The package URI of a remote dependency: `uri`, else `packageUri`.
pub open spec fn remote_package_uri(f: DependencyFields) -> Option<Seq<char>> {
    match opt_str(f.uri) {
        Some(u) => Some(u),
        None => opt_str(f.package_uri),
    }
}

/// The dependencies read from the first `n` entries: an entry with a
/// `projectFileUri` is local, one with a `uri` (or `packageUri`) is remote,
/// and any other entry is skipped.
pub open spec fn deps_of_upto(items: Seq<Option<DependencyFields>>, n: int) -> DepsModel
    decreases items, 1int, n,
{
    if n <= 0 || n > items.len() {
        no_deps()
    } else {
        let prev = deps_of_upto(items, n - 1);
        match items[n - 1] {
            None => prev,
            Some(f) => {
                match opt_str(f.project_file_uri) {
                    Some(pfu) => DepsModel {
                        local: prev.local.push(LocalModel {
                            package_uri: local_package_uri(f),
                            project_file_uri: pfu,
                            dependencies: nested_deps(f),
                        }),
                        remote: prev.remote,
                    },
                    None => match remote_package_uri(f) {
                        Some(pu) => DepsModel {
                            local: prev.local,
                            remote: prev.remote.push(RemoteModel {
                                package_uri: pu,
                                checksums: opt_str(f.sha256),
                                dependencies: nested_deps(f),
                            }),
                        },
                        None => prev,
                    },
                }
            },
        }
    }
}

fn clone_string_opt(o: &Option<String>) -> (r: Option<String>)
    ensures
        opt_str(r) == opt_str(*o),
{
    match o {
        Some(s) => Some(s.clone()),
        None => None,
    }
}

fn nested_dependencies(f: &DependencyFields) -> (r: ProjectDependencies)
    ensures
        deps_view(r) == nested_deps(*f),
    decreases f, 0int,
{
    match &f.dependencies {
        Some(v) => {
            match parse_dependencies(Some(v)) {
                Some(d) => d,
                None => ProjectDependencies::new(),
            }
        },
        None => {
            let d = ProjectDependencies::new();
            assert(deps_view(d).local =~= no_deps().local);
            assert(deps_view(d).remote =~= no_deps().remote);
            d
        },
    }
}

/// Reads the dependencies of a `dependencies` property: `None` where the
/// property is missing or is neither an object nor a mapping; otherwise
/// the local dependencies (entries with a `projectFileUri`) and the remote
/// ones (entries with a `uri` or `packageUri`), in order, each with its own
/// dependencies.
pub fn parse_dependencies(value: Option<&Vec<Option<DependencyFields>>>) -> (r: Option<ProjectDependencies>)
    ensures
        match value {
            None => r is None,
            Some(v) => r matches Some(d) && deps_view(d) == deps_of_upto(v@, v@.len() as int),
        },
    decreases value, 1int,
{
    let items = match value {
        Some(v) => v,
        None => return None,
    };
    let mut local: Vec<ProjectLocalDependency> = Vec::new();
    let mut remote: Vec<ProjectRemoteDependency> = Vec::new();
    let n = items.len();
    let mut i: usize = 0;
    assert(deps_view(ProjectDependencies { local, remote }).local =~= no_deps().local);
    assert(deps_view(ProjectDependencies { local, remote }).remote =~= no_deps().remote);
    while i < n
        invariant
            value == Some(items),
            n == items@.len(),
            i <= n,
            deps_view(ProjectDependencies { local, remote }) == deps_of_upto(items@, i as int),
        decreases n - i,
    {
        let ghost old_view = deps_view(ProjectDependencies { local, remote });
        match &items[i] {
            None => {},
            Some(f) => {
                proof {
                    assert(decreases_to!(value => value->0));
                    assert(value->0 == items);
                    assert(decreases_to!(*items => items@));
                    assert(decreases_to!(items@ => items@[i as int]));
                    assert(decreases_to!(items@[i as int] => *f));
                    assert(decreases_to!(value => *f));
                }
                match &f.project_file_uri {
                    Some(pfu) => {
                        let package_uri = match &f.package_uri {
                            Some(u) => u.clone(),
                            None => match &f.uri {
                                Some(u) => u.clone(),
                                None => String::new(),
                            },
                        };
                        let dep = ProjectLocalDependency {
                            package_uri,
                            project_file_uri: pfu.clone(),
                            dependencies: nested_dependencies(f),
                        };
                        let ghost lm = LocalModel {
                            package_uri: dep.package_uri@,
                            project_file_uri: dep.project_file_uri@,
                            dependencies: deps_view(dep.dependencies),
                        };
                        local.push(dep);
                        assert(deps_view(ProjectDependencies { local, remote }).local =~= old_view.local.push(lm));
                        assert(deps_view(ProjectDependencies { local, remote }).remote =~= old_view.remote);
                    },
                    None => {
                        let pu = match &f.uri {
                            Some(u) => Some(u.clone()),
                            None => match &f.package_uri {
                                Some(u) => Some(u.clone()),
                                None => None,
                            },
                        };
                        match pu {
                            Some(package_uri) => {
                                let dep = ProjectRemoteDependency {
                                    package_uri,
                                    checksums: clone_string_opt(&f.sha256),
                                    dependencies: nested_dependencies(f),
                                };
                                let ghost rm = RemoteModel {
                                    package_uri: dep.package_uri@,
                                    checksums: opt_str(dep.checksums),
                                    dependencies: deps_view(dep.dependencies),
                                };
                                remote.push(dep);
                                assert(deps_view(ProjectDependencies { local, remote }).remote =~= old_view.remote.push(rm));
                                assert(deps_view(ProjectDependencies { local, remote }).local =~= old_view.local);
                            },
                            None => {},
                        }
                    },
                }
            },
        }
        i = i + 1;
    }
    Some(ProjectDependencies { local, remote })
}

/// The model of a project read from its fields: the project file URI
/// (empty where missing), the package metadata (each missing string empty)
/// where there is a `package` object, and the dependencies (none where the
/// property is missing or unreadable).
pub open spec fn project_of_fields(f: ProjectFields) -> (Seq<char>, Option<Seq<Seq<char>>>, DepsModel) {
    (
        match opt_str(f.project_file_uri) {
            Some(u) => u,
            None => seq![],
        },
        match f.package {
            Some(p) => Some(seq![or_empty(p.name), or_empty(p.base_uri), or_empty(p.version), or_empty(p.package_zip_url), or_empty(p.uri)]),
            None => None,
        },
        match f.dependencies {
            Some(v) => deps_of_upto(v@, v@.len() as int),
            None => no_deps(),
        },
    )
}

pub open spec fn or_empty(o: Option<String>) -> Seq<char> {
    match o {
        Some(s) => s@,
        None => seq![],
    }
}

/// The model of a project: its file URI, its package metadata (name, base
/// URI, version, zip URL, URI) and its dependencies.
pub open spec fn project_view(p: Project) -> (Seq<char>, Option<Seq<Seq<char>>>, DepsModel) {
    (
        p.project_file_uri@,
        match p.package {
            Some(k) => Some(seq![k.name@, k.base_uri@, k.version@, k.package_zip_url@, k.uri@]),
            None => None,
        },
        deps_view(p.dependencies),
    )
}

fn string_or_empty(o: &Option<String>) -> (r: String)
    ensures
        r@ == or_empty(*o),
{
    match o {
        Some(s) => s.clone(),
        None => String::new(),
    }
}

/// Builds the project from the fields read off the evaluated `PklProject`;
/// `fields` is `None` where the value is not an object, which is the error
/// `expected object for Project`.
pub fn project_from_fields(fields: Option<&ProjectFields>) -> (r: Result<Project, PklError>)
    ensures
        match fields {
            None => r matches Err(e) && e@ == PklErrorModel::DecodeError("expected object for Project"@),
            Some(f) => r matches Ok(p) && project_view(p) == project_of_fields(*f),
        },
{
    let f = match fields {
        Some(f) => f,
        None => return Err(PklError::DecodeError("expected object for Project".to_string())),
    };
    let package = match &f.package {
        Some(p) => Some(ProjectPackage {
            name: string_or_empty(&p.name),
            base_uri: string_or_empty(&p.base_uri),
            version: string_or_empty(&p.version),
            package_zip_url: string_or_empty(&p.package_zip_url),
            uri: string_or_empty(&p.uri),
        }),
        None => None,
    };
    let dependencies = match &f.dependencies {
        Some(v) => match parse_dependencies(Some(v)) {
            Some(d) => d,
            None => ProjectDependencies::new(),
        },
        None => {
            let d = ProjectDependencies::new();
            assert(deps_view(d).local =~= no_deps().local);
            assert(deps_view(d).remote =~= no_deps().remote);
            d
        },
    };
    let p = Project { project_file_uri: string_or_empty(&f.project_file_uri), package, dependencies };
    assert(project_view(p).1 =~= project_of_fields(*f).1);
    Ok(p)
}

} // verus!

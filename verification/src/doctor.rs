//! `kt doctor`: the health of a project's skills, from what is declared, locked, published
//! and present on disk.

use vstd::prelude::*;
use crate::git::{join_path, join_path_spec};
use crate::install_channel::{path_components, path_components_of};
use crate::lockfile::Lockfile;
use crate::manifest::{DependencyEntry, Manifest, PublishEntry};
use crate::scan::somes;
use crate::text::{concat, decimal, u64_to_decimal};

verus! {

/// Errors and warnings found by `kt doctor`.
#[derive(Debug)]
pub struct DoctorReport {
    pub errors: Vec<String>,
    pub warnings: Vec<String>,
}

/// How reading `skills.json` went.
#[derive(Debug)]
pub enum ManifestRead {
    Missing,
    Invalid(String),
    Loaded(Manifest),
}

/// The views of a list of strings.
pub open spec fn texts(v: Seq<String>) -> Seq<Seq<char>> {
    v.map_values(|s: String| s@)
}

/// The error for publish entry `i`, given whether its path exists in the project.
pub open spec fn publish_error(deps: Map<Seq<char>, DependencyEntry>, entry: PublishEntry, path_exists: bool) -> Option<Seq<char>> {
    match entry {
        PublishEntry::Dependency(name) => {
            if !deps.contains_key(name@) {
                Some("publish entry '"@ + name@ + "' does not match a dependency; add a local dependency or use 'kt publish add "@
                    + name@ + " <path>'."@)
            } else {
                match deps[name@].path {
                    None => Some("publish entry '"@ + name@
                        + "' points to a remote dependency; publish entries must use local paths."@),
                    Some(p) => if path_exists {
                        None
                    } else {
                        Some("publish entry '"@ + name@ + "' points to missing path '"@ + p@ + "'; create it or run 'kt publish add "@
                            + name@ + " <path>'."@)
                    },
                }
            }
        },
        PublishEntry::Object(o) => if path_exists {
            None
        } else {
            Some("published skill '"@ + o.skill@ + "' points to missing path '"@ + o.path@ + "'; create it or run 'kt publish add "@
                + o.skill@ + " <path>'."@)
        },
    }
}

/// The path a publish entry points to in the project, if it names one.
pub open spec fn publish_path(deps: Map<Seq<char>, DependencyEntry>, entry: PublishEntry) -> Option<Seq<char>> {
    match entry {
        PublishEntry::Dependency(name) => if deps.contains_key(name@) {
            match deps[name@].path {
                Some(p) => Some(p@),
                None => None,
            }
        } else {
            None
        },
        PublishEntry::Object(o) => Some(o.path@),
    }
}

pub open spec fn publish_errors(m: Manifest, exists: Seq<bool>) -> Seq<Seq<char>> {
    somes(m.publish@.len() as int, |i: int| publish_error(m.deps(), m.publish@[i], exists[i]))
}

/// Checks each publish entry; `path_exists[i]` says whether the path of entry `i` exists.
pub fn check_publish_entries(manifest: &Manifest, path_exists: &Vec<bool>) -> (r: Vec<String>)
    requires manifest.wf(), path_exists@.len() == manifest.publish@.len(),
    ensures texts(r@) == publish_errors(*manifest, path_exists@),
{
    let ghost f = |i: int| publish_error(manifest.deps(), manifest.publish@[i], path_exists@[i]);
    let mut out: Vec<String> = Vec::new();
    let mut i: usize = 0;
    while i < manifest.publish.len()
        invariant
            manifest.wf(), i <= manifest.publish@.len(), path_exists@.len() == manifest.publish@.len(),
            f == (|i: int| publish_error(manifest.deps(), manifest.publish@[i], path_exists@[i])),
            texts(out@) == somes(i as int, f),
        decreases manifest.publish.len() - i,
    {
        let ghost before = out@;
        let exists = path_exists[i];
        let msg: Option<String> = match &manifest.publish[i] {
            PublishEntry::Dependency(name) => match manifest.dependencies.get(name.as_str()) {
                None => Some(concat(
                    &concat(
                        &concat(&concat("publish entry '", name.as_str()),
                            "' does not match a dependency; add a local dependency or use 'kt publish add "),
                        name.as_str(),
                    ),
                    " <path>'.",
                )),
                Some(dep) => match &dep.path {
                    None => Some(concat(
                        &concat("publish entry '", name.as_str()),
                        "' points to a remote dependency; publish entries must use local paths.",
                    )),
                    Some(p) => if exists {
                        None
                    } else {
                        Some(concat(
                            &concat(
                                &concat(
                                    &concat(&concat(&concat("publish entry '", name.as_str()), "' points to missing path '"), p.as_str()),
                                    "'; create it or run 'kt publish add ",
                                ),
                                name.as_str(),
                            ),
                            " <path>'.",
                        ))
                    },
                },
            },
            PublishEntry::Object(o) => if exists {
                None
            } else {
                Some(concat(
                    &concat(
                        &concat(
                            &concat(&concat(&concat("published skill '", o.skill.as_str()), "' points to missing path '"), o.path.as_str()),
                            "'; create it or run 'kt publish add ",
                        ),
                        o.skill.as_str(),
                    ),
                    " <path>'.",
                ))
            },
        };
        match msg {
            Some(m) => {
                out.push(m);
                assert(texts(out@) =~= texts(before).push(out@.last()@));
            },
            None => {},
        }
        i += 1;
    }
    out
}

/// The error for a declared dependency: locked but missing from disk.
pub open spec fn dependency_error(name: Seq<char>, dir_exists: bool, locked: bool) -> Option<Seq<char>> {
    if !dir_exists && locked {
        Some("skill '"@ + name + "' is locked but missing from disk; run 'kt install'."@)
    } else {
        None
    }
}

/// The warning for a declared dependency: not installed, or installed but not locked.
pub open spec fn dependency_warning(name: Seq<char>, dir_exists: bool, locked: bool) -> Option<Seq<char>> {
    if !dir_exists && locked {
        None
    } else if !dir_exists {
        Some("skill '"@ + name + "' is declared but not installed; run 'kt install'."@)
    } else if !locked {
        Some("skill '"@ + name + "' is installed but not locked; run 'kt install' or 'kt upgrade'."@)
    } else {
        None
    }
}

pub open spec fn dependency_errors(m: Manifest, l: Lockfile, exists: Seq<bool>) -> Seq<Seq<char>> {
    let keys = m.dependencies.keys_view();
    somes(keys.len() as int, |i: int| dependency_error(keys[i], exists[i], l.locked().contains_key(keys[i])))
}

pub open spec fn dependency_warnings(m: Manifest, l: Lockfile, exists: Seq<bool>) -> Seq<Seq<char>> {
    let keys = m.dependencies.keys_view();
    somes(keys.len() as int, |i: int| dependency_warning(keys[i], exists[i], l.locked().contains_key(keys[i])))
}

/// Compares declared dependencies with the lockfile and the disk; `dir_exists[i]` says
/// whether the skill directory of dependency `i` exists.
pub fn check_dependencies(manifest: &Manifest, lockfile: &Lockfile, dir_exists: &Vec<bool>) -> (r: (Vec<String>, Vec<String>))
    requires
        manifest.wf(), lockfile.wf(),
        dir_exists@.len() == manifest.dependencies.keys_view().len(),
    ensures
        texts(r.0@) == dependency_errors(*manifest, *lockfile, dir_exists@),
        texts(r.1@) == dependency_warnings(*manifest, *lockfile, dir_exists@),
{
    let ghost keys = manifest.dependencies.keys_view();
    let ghost fe = |i: int| dependency_error(keys[i], dir_exists@[i], lockfile.locked().contains_key(keys[i]));
    let ghost fw = |i: int| dependency_warning(keys[i], dir_exists@[i], lockfile.locked().contains_key(keys[i]));
    let n = manifest.dependencies.len();
    let mut errors: Vec<String> = Vec::new();
    let mut warnings: Vec<String> = Vec::new();
    let mut i: usize = 0;
    while i < n
        invariant
            manifest.wf(), lockfile.wf(), i <= n, n == keys.len(),
            keys == manifest.dependencies.keys_view(), dir_exists@.len() == n,
            fe == (|i: int| dependency_error(keys[i], dir_exists@[i], lockfile.locked().contains_key(keys[i]))),
            fw == (|i: int| dependency_warning(keys[i], dir_exists@[i], lockfile.locked().contains_key(keys[i]))),
            texts(errors@) == somes(i as int, fe),
            texts(warnings@) == somes(i as int, fw),
        decreases n - i,
    {
        let name = manifest.dependencies.key_at(i);
        let exists = dir_exists[i];
        let locked = lockfile.contains(name.as_str());
        let ghost eb = errors@;
        let ghost wb = warnings@;
        if !exists && locked {
            errors.push(concat(&concat("skill '", name.as_str()), "' is locked but missing from disk; run 'kt install'."));
            assert(texts(errors@) =~= texts(eb).push(errors@.last()@));
        } else if !exists {
            warnings.push(concat(&concat("skill '", name.as_str()), "' is declared but not installed; run 'kt install'."));
            assert(texts(warnings@) =~= texts(wb).push(warnings@.last()@));
        } else if !locked {
            warnings.push(concat(
                &concat("skill '", name.as_str()),
                "' is installed but not locked; run 'kt install' or 'kt upgrade'.",
            ));
            assert(texts(warnings@) =~= texts(wb).push(warnings@.last()@));
        }
        i += 1;
    }
    (errors, warnings)
}

/// The warning for a locked skill that is not declared.
pub open spec fn orphan_warning(name: Seq<char>, declared: bool) -> Option<Seq<char>> {
    if declared {
        None
    } else {
        Some("skill '"@ + name + "' is orphaned in skills.lock; add it to dependencies or run 'kt uninstall "@ + name + "'."@)
    }
}

pub open spec fn orphan_warnings(m: Manifest, l: Lockfile) -> Seq<Seq<char>> {
    let keys = l.entries.keys_view();
    somes(keys.len() as int, |i: int| orphan_warning(keys[i], m.deps().contains_key(keys[i])))
}

/// Locked skills that are not declared.
pub fn check_orphans(manifest: &Manifest, lockfile: &Lockfile) -> (r: Vec<String>)
    requires manifest.wf(), lockfile.wf(),
    ensures texts(r@) == orphan_warnings(*manifest, *lockfile),
{
    let ghost keys = lockfile.entries.keys_view();
    let ghost f = |i: int| orphan_warning(keys[i], manifest.deps().contains_key(keys[i]));
    let n = lockfile.entries.len();
    let mut out: Vec<String> = Vec::new();
    let mut i: usize = 0;
    while i < n
        invariant
            manifest.wf(), lockfile.wf(), i <= n, n == keys.len(),
            keys == lockfile.entries.keys_view(),
            f == (|i: int| orphan_warning(keys[i], manifest.deps().contains_key(keys[i]))),
            texts(out@) == somes(i as int, f),
        decreases n - i,
    {
        let name = lockfile.entries.key_at(i);
        let ghost before = out@;
        if !manifest.has_dependency(name.as_str()) {
            out.push(concat(
                &concat(
                    &concat(&concat("skill '", name.as_str()), "' is orphaned in skills.lock; add it to dependencies or run 'kt uninstall "),
                    name.as_str(),
                ),
                "'.",
            ));
            assert(texts(out@) =~= texts(before).push(out@.last()@));
        }
        i += 1;
    }
    out
}

/// A publish entry whose path is the project's own `.agents/skills/<name>` directory.
pub open spec fn publishes_own_dir(root: Seq<char>, deps: Map<Seq<char>, DependencyEntry>, entry: PublishEntry) -> bool {
    publish_path(deps, entry) matches Some(p) && path_components(join_path_spec(root, p))
        == path_components(join_path_spec(join_path_spec(join_path_spec(root, ".agents"@), "skills"@), entry.name_view()))
}

/// The names of the published skills that live in `.agents/skills` under their own name.
pub open spec fn published_dirs(root: Seq<char>, m: Manifest) -> Seq<Seq<char>> {
    somes(m.publish@.len() as int, |i: int| if publishes_own_dir(root, m.deps(), m.publish@[i]) {
        Some(m.publish@[i].name_view())
    } else {
        None
    })
}

fn same_path(a: &str, b: &str) -> (r: bool)
    ensures r == (path_components(a@) == path_components(b@)),
{
    let ca = path_components_of(a);
    let cb = path_components_of(b);
    let ghost va = ca@.map_values(|s: String| s@);
    let ghost vb = cb@.map_values(|s: String| s@);
    if ca.len() != cb.len() {
        assert(va.len() != vb.len());
        return false;
    }
    let mut i: usize = 0;
    while i < ca.len()
        invariant
            i <= ca@.len(), ca@.len() == cb@.len(),
            va == ca@.map_values(|s: String| s@), vb == cb@.map_values(|s: String| s@),
            va == path_components(a@), vb == path_components(b@),
            forall|k: int| 0 <= k < i ==> va[k] == vb[k],
        decreases ca.len() - i,
    {
        if !crate::text::str_eq(ca[i].as_str(), cb[i].as_str()) {
            assert(va[i as int] != vb[i as int]);
            return false;
        }
        i += 1;
    }
    assert(va =~= vb);
    true
}

pub fn published_skill_dir_names(project_root: &str, manifest: &Manifest) -> (r: Vec<String>)
    requires manifest.wf(),
    ensures texts(r@) == published_dirs(project_root@, *manifest),
{
    let ghost f = |i: int| if publishes_own_dir(project_root@, manifest.deps(), manifest.publish@[i]) {
        Some(manifest.publish@[i].name_view())
    } else {
        None
    };
    let agents = join_path(project_root, ".agents");
    let skills_root = join_path(agents.as_str(), "skills");
    let mut out: Vec<String> = Vec::new();
    let mut i: usize = 0;
    while i < manifest.publish.len()
        invariant
            manifest.wf(), i <= manifest.publish@.len(),
            skills_root@ == join_path_spec(join_path_spec(project_root@, ".agents"@), "skills"@),
            f == (|i: int| if publishes_own_dir(project_root@, manifest.deps(), manifest.publish@[i]) {
                Some(manifest.publish@[i].name_view())
            } else {
                None
            }),
            texts(out@) == somes(i as int, f),
        decreases manifest.publish.len() - i,
    {
        let entry = &manifest.publish[i];
        let name = entry.skill_name();
        let path: Option<&String> = match entry {
            PublishEntry::Dependency(n) => match manifest.dependencies.get(n.as_str()) {
                Some(dep) => match &dep.path {
                    Some(p) => Some(p),
                    None => None,
                },
                None => None,
            },
            PublishEntry::Object(o) => Some(&o.path),
        };
        let ghost before = out@;
        if let Some(p) = path {
            let published = join_path(project_root, p.as_str());
            let own = join_path(skills_root.as_str(), name);
            if same_path(published.as_str(), own.as_str()) {
                out.push(crate::text::owned(name));
                assert(texts(out@) =~= texts(before).push(out@.last()@));
            }
        }
        i += 1;
    }
    out
}

/// The warning for a skill directory that nothing tracks.
pub open spec fn untracked_warning(name: Seq<char>, known: bool) -> Option<Seq<char>> {
    if known {
        None
    } else {
        Some("installed directory '"@ + name
            + "' is untracked; run 'kt init .' to adopt it as a dependency or 'kt publish' if it should be published."@)
    }
}

/// Whether a directory name is declared, locked or published in place.
pub open spec fn is_tracked(name: Seq<char>, declared: Set<Seq<char>>, locked: Set<Seq<char>>, published: Seq<Seq<char>>) -> bool {
    declared.contains(name) || locked.contains(name) || published.contains(name)
}

pub open spec fn untracked_warnings(dirs: Seq<Seq<char>>, declared: Set<Seq<char>>, locked: Set<Seq<char>>, published: Seq<Seq<char>>) -> Seq<Seq<char>> {
    somes(dirs.len() as int, |i: int| untracked_warning(dirs[i], is_tracked(dirs[i], declared, locked, published)))
}

fn contains_name(names: &Vec<String>, name: &str) -> (r: bool)
    ensures r == texts(names@).contains(name@),
{
    let ghost v = texts(names@);
    let mut i: usize = 0;
    while i < names.len()
        invariant
            i <= names@.len(), v == texts(names@),
            forall|k: int| 0 <= k < i ==> v[k] != name@,
        decreases names.len() - i,
    {
        if crate::text::str_eq(names[i].as_str(), name) {
            assert(v[i as int] == name@);
            return true;
        }
        i += 1;
    }
    false
}

/// Warns about skill directories that are not declared, locked or published in place.
pub fn check_untracked(dirs: &Vec<String>, manifest: Option<&Manifest>, lockfile: Option<&Lockfile>, published: &Vec<String>)
    -> (r: Vec<String>)
    requires
        manifest matches Some(m) ==> m.wf(),
        lockfile matches Some(l) ==> l.wf(),
    ensures
        texts(r@) == untracked_warnings(texts(dirs@),
            match manifest { Some(m) => m.deps().dom(), None => Set::empty() },
            match lockfile { Some(l) => l.locked().dom(), None => Set::empty() },
            texts(published@)),
{
    let ghost declared = match manifest { Some(m) => m.deps().dom(), None => Set::<Seq<char>>::empty() };
    let ghost locked = match lockfile { Some(l) => l.locked().dom(), None => Set::<Seq<char>>::empty() };
    let ghost dv = texts(dirs@);
    let ghost f = |i: int| untracked_warning(dv[i], is_tracked(dv[i], declared, locked, texts(published@)));
    let mut out: Vec<String> = Vec::new();
    let mut i: usize = 0;
    while i < dirs.len()
        invariant
            i <= dirs@.len(), dv == texts(dirs@),
            manifest matches Some(m) ==> m.wf(),
            lockfile matches Some(l) ==> l.wf(),
            declared == match manifest { Some(m) => m.deps().dom(), None => Set::<Seq<char>>::empty() },
            locked == match lockfile { Some(l) => l.locked().dom(), None => Set::<Seq<char>>::empty() },
            f == (|i: int| untracked_warning(dv[i], is_tracked(dv[i], declared, locked, texts(published@)))),
            texts(out@) == somes(i as int, f),
        decreases dirs.len() - i,
    {
        let name = dirs[i].as_str();
        assert(dv[i as int] == name@);
        let declared_here = match manifest { Some(m) => m.has_dependency(name), None => false };
        let locked_here = match lockfile { Some(l) => l.contains(name), None => false };
        let known = declared_here || locked_here || contains_name(published, name);
        let ghost before = out@;
        if !known {
            out.push(concat(
                &concat("installed directory '", name),
                "' is untracked; run 'kt init .' to adopt it as a dependency or 'kt publish' if it should be published.",
            ));
            assert(texts(out@) =~= texts(before).push(out@.last()@));
        }
        i += 1;
    }
    out
}

/// What `kt doctor` looked at on disk.
#[derive(Debug)]
pub struct ProjectFacts {
    /// `git` runs.
    pub git_available: bool,
    /// `skills.json`.
    pub manifest: ManifestRead,
    /// `skills.lock`, or the reason it could not be read.
    pub lockfile: Result<Lockfile, String>,
    /// Per publish entry (of a loaded manifest), whether its path exists in the project.
    pub publish_path_exists: Vec<bool>,
    /// Per declared dependency, in order, whether its skill directory exists.
    pub skill_dir_exists: Vec<bool>,
    /// The directories in `.agents/skills`, when it exists; the reason when it cannot be read.
    pub skill_dirs: Option<Result<Vec<String>, String>>,
}

pub open spec fn facts_wf(f: ProjectFacts) -> bool {
    &&& (f.manifest matches ManifestRead::Loaded(m) ==> m.wf()
        && f.publish_path_exists@.len() == m.publish@.len()
        && f.skill_dir_exists@.len() == m.dependencies.keys_view().len())
    &&& (f.lockfile matches Ok(l) ==> l.wf())
}

/// The errors of a project, in the order they are checked.
pub open spec fn doctor_errors(root: Seq<char>, f: ProjectFacts) -> Seq<Seq<char>> {
    let git = if f.git_available { Seq::empty() } else {
        seq!["git is not available on PATH; install git before installing skills"@]
    };
    let manifest = match f.manifest {
        ManifestRead::Invalid(e) => seq!["skills.json is invalid: "@ + e@ + ". Fix the manifest JSON."@],
        _ => Seq::empty(),
    };
    let lock = match f.lockfile {
        Err(e) => seq!["skills.lock is invalid: "@ + e@ + ". Regenerate or repair it."@],
        Ok(_) => Seq::empty(),
    };
    let publish = match f.manifest {
        ManifestRead::Loaded(m) => publish_errors(m, f.publish_path_exists@),
        _ => Seq::empty(),
    };
    let deps = match (f.manifest, f.lockfile) {
        (ManifestRead::Loaded(m), Ok(l)) => dependency_errors(m, l, f.skill_dir_exists@),
        _ => Seq::empty(),
    };
    let listing = match f.skill_dirs {
        Some(Err(e)) => seq!["cannot read .agents/skills: "@ + e@ + "; check directory permissions."@],
        _ => Seq::empty(),
    };
    git + manifest + lock + publish + deps + listing
}

/// The warnings of a project, in the order they are checked.
pub open spec fn doctor_warnings(root: Seq<char>, f: ProjectFacts) -> Seq<Seq<char>> {
    let missing = match f.manifest {
        ManifestRead::Missing => seq!["skills.json is missing; run 'kt init .' to create one."@],
        _ => Seq::empty(),
    };
    let deps = match (f.manifest, f.lockfile) {
        (ManifestRead::Loaded(m), Ok(l)) => dependency_warnings(m, l, f.skill_dir_exists@) + orphan_warnings(m, l),
        _ => Seq::empty(),
    };
    let declared = match f.manifest { ManifestRead::Loaded(m) => m.deps().dom(), _ => Set::empty() };
    let locked = match f.lockfile { Ok(l) => l.locked().dom(), Err(_) => Set::empty() };
    let published = match f.manifest { ManifestRead::Loaded(m) => published_dirs(root, m), _ => Seq::empty() };
    let untracked = match f.skill_dirs {
        Some(Ok(dirs)) => untracked_warnings(texts(dirs@), declared, locked, published),
        _ => Seq::empty(),
    };
    missing + deps + untracked
}

fn push_all(out: &mut Vec<String>, more: Vec<String>)
    ensures texts(final(out)@) == texts(old(out)@) + texts(more@),
{
    let mut more = more;
    let ghost o = out@;
    let ghost m = more@;
    out.append(&mut more);
    assert(texts(out@) =~= texts(o) + texts(m));
}

/// Checks a project from what was read of it.
pub fn check_project(project_root: &str, facts: &ProjectFacts) -> (r: DoctorReport)
    requires facts_wf(*facts),
    ensures
        texts(r.errors@) == doctor_errors(project_root@, *facts),
        texts(r.warnings@) == doctor_warnings(project_root@, *facts),
{
    let mut errors: Vec<String> = Vec::new();
    let mut warnings: Vec<String> = Vec::new();
    if !facts.git_available {
        errors.push(crate::text::owned("git is not available on PATH; install git before installing skills"));
        assert(texts(errors@) =~= seq!["git is not available on PATH; install git before installing skills"@]);
    }
    match &facts.manifest {
        ManifestRead::Invalid(e) => {
            let ghost b = errors@;
            errors.push(concat(&concat("skills.json is invalid: ", e.as_str()), ". Fix the manifest JSON."));
            assert(texts(errors@) =~= texts(b).push(errors@.last()@));
        },
        ManifestRead::Missing => {
            warnings.push(crate::text::owned("skills.json is missing; run 'kt init .' to create one."));
            assert(texts(warnings@) =~= seq!["skills.json is missing; run 'kt init .' to create one."@]);
        },
        ManifestRead::Loaded(_) => {},
    }
    match &facts.lockfile {
        Err(e) => {
            let ghost b = errors@;
            errors.push(concat(&concat("skills.lock is invalid: ", e.as_str()), ". Regenerate or repair it."));
            assert(texts(errors@) =~= texts(b).push(errors@.last()@));
        },
        Ok(_) => {},
    }
    if let ManifestRead::Loaded(m) = &facts.manifest {
        let publish = check_publish_entries(m, &facts.publish_path_exists);
        push_all(&mut errors, publish);
    }
    if let (ManifestRead::Loaded(m), Ok(l)) = (&facts.manifest, &facts.lockfile) {
        let (dep_errors, dep_warnings) = check_dependencies(m, l, &facts.skill_dir_exists);
        push_all(&mut errors, dep_errors);
        push_all(&mut warnings, dep_warnings);
        let orphans = check_orphans(m, l);
        push_all(&mut warnings, orphans);
    }
    let manifest_ref: Option<&Manifest> = match &facts.manifest {
        ManifestRead::Loaded(m) => Some(m),
        _ => None,
    };
    let lockfile_ref: Option<&Lockfile> = match &facts.lockfile {
        Ok(l) => Some(l),
        Err(_) => None,
    };
    let published = match manifest_ref {
        Some(m) => published_skill_dir_names(project_root, m),
        None => Vec::new(),
    };
    assert(texts(published@) =~= match facts.manifest {
        ManifestRead::Loaded(m) => published_dirs(project_root@, m),
        _ => Seq::<Seq<char>>::empty(),
    });
    assert((match manifest_ref { Some(m) => m.deps().dom(), None => Set::<Seq<char>>::empty() })
        == (match facts.manifest { ManifestRead::Loaded(m) => m.deps().dom(), _ => Set::<Seq<char>>::empty() }));
    assert((match lockfile_ref { Some(l) => l.locked().dom(), None => Set::<Seq<char>>::empty() })
        == (match facts.lockfile { Ok(l) => l.locked().dom(), Err(_) => Set::<Seq<char>>::empty() }));
    let ghost w_before = texts(warnings@);
    assert(w_before == (match facts.manifest {
        ManifestRead::Missing => seq!["skills.json is missing; run 'kt init .' to create one."@],
        _ => Seq::<Seq<char>>::empty(),
    }) + (match (facts.manifest, facts.lockfile) {
        (ManifestRead::Loaded(m), Ok(l)) => dependency_warnings(m, l, facts.skill_dir_exists@) + orphan_warnings(m, l),
        _ => Seq::<Seq<char>>::empty(),
    }));
    match &facts.skill_dirs {
        Some(Err(e)) => {
            let ghost b = errors@;
            errors.push(concat(&concat("cannot read .agents/skills: ", e.as_str()), "; check directory permissions."));
            assert(texts(errors@) =~= texts(b).push(errors@.last()@));
        },
        Some(Ok(dirs)) => {
            let untracked = check_untracked(dirs, manifest_ref, lockfile_ref, &published);
            push_all(&mut warnings, untracked);
        },
        None => {},
    }
    proof {
        assert(texts(errors@) =~= doctor_errors(project_root@, *facts));
        assert(texts(warnings@) =~= doctor_warnings(project_root@, *facts));
    }
    DoctorReport { errors, warnings }
}

/// The report has neither errors nor warnings.
pub fn is_healthy(report: &DoctorReport) -> (r: bool)
    ensures r == (report.errors@.len() == 0 && report.warnings@.len() == 0),
{
    report.errors.len() == 0 && report.warnings.len() == 0
}

/// The title of a list of diagnostics, with its count.
pub open spec fn diagnostics_title_spec(title: Seq<char>, count: usize) -> Seq<char> {
    title + " ("@ + decimal(count as nat) + (if count == 1 { " item)"@ } else { " items)"@ })
}

pub fn diagnostics_title(title: &str, count: usize) -> (r: String)
    ensures r@ == diagnostics_title_spec(title@, count),
{
    let n = u64_to_decimal(count as u64);
    concat(&concat(&concat(title, " ("), n.as_str()), if count == 1 { " item)" } else { " items)" })
}

/// The error of an unhealthy project.
pub open spec fn unhealthy_message(errors: usize) -> Seq<char> {
    "Project has "@ + decimal(errors as nat) + " skill health error(s)"@
}

pub fn unhealthy(report: &DoctorReport) -> (r: Option<crate::error::DoctorUnhealthy>)
    ensures
        report.errors@.len() == 0 <==> r is None,
        r matches Some(e) ==> e.message@ == unhealthy_message(report.errors@.len() as usize),
{
    if report.errors.len() == 0 {
        None
    } else {
        Some(crate::error::DoctorUnhealthy::new(concat(
            &concat("Project has ", u64_to_decimal(report.errors.len() as u64).as_str()),
            " skill health error(s)",
        )))
    }
}

} // verus!

//! `kt publish`: choosing local skills to publish and recording them in the manifest.

use vstd::prelude::*;
use crate::error::{ManifestInvalidName, SkillCopyFailed};
use crate::git::{join_path, join_path_spec};
use crate::install_channel::{path_components, path_components_of};
use crate::manifest::{is_skill_name, is_skill_name_str, DependencyEntry, Manifest, PublishEntry};
use crate::scan::somes;
use crate::sort::{sort_by_key, sorted_by_key, Keyed};
use crate::text::{concat, decimal, str_eq, u64_to_decimal};
use crate::ui::{join_strings, join_with};

verus! {

/// A skill that can be published: its name and where it lies.
#[derive(Debug, Clone)]
pub struct PublishCandidate {
    pub name: String,
    pub path: String,
}

impl PublishCandidate {
    pub open spec fn view(&self) -> (Seq<char>, Seq<char>) {
        (self.name@, self.path@)
    }
}

impl Keyed for PublishCandidate {
    open spec fn key_view(&self) -> Seq<char> {
        self.name@
    }

    fn key(&self) -> (r: &str) {
        self.name.as_str()
    }
}

/// A dependency's local path, when it has a non-empty one.
pub open spec fn local_path(d: DependencyEntry) -> Option<Seq<char>> {
    match d.path {
        Some(p) if p@.len() > 0 => Some(p@),
        _ => None,
    }
}

/// The candidate of dependency `i`: a local dependency whose path exists.
pub open spec fn dependency_candidate(root: Seq<char>, m: Manifest, exists: Seq<bool>, i: int) -> Option<(Seq<char>, Seq<char>)> {
    match local_path(m.dependencies.vals_view()[i]) {
        Some(p) if exists[i] => Some((m.dependencies.keys_view()[i], join_path_spec(root, p))),
        _ => None,
    }
}

/// Adds the skill directories, in order, that have a skill name, are not declared and are
/// not already candidates.
pub open spec fn add_dir_candidates(m: Manifest, dirs: Seq<(String, String)>, start: Seq<(Seq<char>, Seq<char>)>)
    -> Seq<(Seq<char>, Seq<char>)>
    decreases dirs.len(),
{
    if dirs.len() == 0 {
        start
    } else {
        let prev = add_dir_candidates(m, dirs.drop_last(), start);
        let name = dirs.last().0@;
        if is_skill_name(name) && !m.deps().contains_key(name)
            && !prev.map_values(|c: (Seq<char>, Seq<char>)| c.0).contains(name) {
            prev.push((name, dirs.last().1@))
        } else {
            prev
        }
    }
}

/// The candidates before sorting.
pub open spec fn candidate_list(root: Seq<char>, m: Manifest, exists: Seq<bool>, dirs: Seq<(String, String)>)
    -> Seq<(Seq<char>, Seq<char>)>
{
    add_dir_candidates(m, dirs, somes(m.dependencies.keys_view().len() as int, |i: int| dependency_candidate(root, m, exists, i)))
}

/// Finds the candidates: local dependencies whose path exists (`dep_path_exists[i]` for
/// dependency `i`), then skill directories (`(name, path)`) with a skill name that are not
/// declared and not already candidates; sorted by name.
pub fn publish_candidates(project_root: &str, manifest: &Manifest, dep_path_exists: &Vec<bool>, skill_dirs: &Vec<(String, String)>)
    -> (r: Vec<PublishCandidate>)
    requires
        manifest.wf(),
        dep_path_exists@.len() == manifest.dependencies.keys_view().len(),
    ensures
        sorted_by_key(r@),
        exists|found: Seq<PublishCandidate>| #![trigger found.to_multiset()] {
            &&& r@.to_multiset() == found.to_multiset()
            &&& found.map_values(|c: PublishCandidate| c.view()) == candidate_list(project_root@, *manifest, dep_path_exists@, skill_dirs@)
        },
{
    let n = manifest.dependencies.len();
    let ghost f = |i: int| dependency_candidate(project_root@, *manifest, dep_path_exists@, i);
    let mut found: Vec<PublishCandidate> = Vec::new();
    let mut i: usize = 0;
    while i < n
        invariant
            manifest.wf(), i <= n, n == manifest.dependencies.keys_view().len(), dep_path_exists@.len() == n,
            f == (|i: int| dependency_candidate(project_root@, *manifest, dep_path_exists@, i)),
            found@.map_values(|c: PublishCandidate| c.view()) == somes(i as int, f),
        decreases n - i,
    {
        let name = manifest.dependencies.key_at(i);
        let dep = manifest.dependencies.val_at(i);
        let ghost before = found@;
        match &dep.path {
            Some(p) => {
                if !p.as_str().is_empty() && dep_path_exists[i] {
                    found.push(PublishCandidate { name: name.clone(), path: join_path(project_root, p.as_str()) });
                    assert(found@.map_values(|c: PublishCandidate| c.view())
                        =~= before.map_values(|c: PublishCandidate| c.view()).push(f(i as int)->0));
                }
            },
            None => {},
        }
        i += 1;
    }
    let ghost start = found@.map_values(|c: PublishCandidate| c.view());
    let mut j: usize = 0;
    assert(skill_dirs@.subrange(0, 0) =~= Seq::<(String, String)>::empty());
    while j < skill_dirs.len()
        invariant
            manifest.wf(), j <= skill_dirs@.len(),
            found@.map_values(|c: PublishCandidate| c.view()) == add_dir_candidates(*manifest, skill_dirs@.subrange(0, j as int), start),
        decreases skill_dirs.len() - j,
    {
        let (name, path) = &skill_dirs[j];
        let ghost views = found@.map_values(|c: PublishCandidate| c.view());
        let ghost names = views.map_values(|c: (Seq<char>, Seq<char>)| c.0);
        let mut seen = false;
        let mut k: usize = 0;
        while k < found.len()
            invariant
                k <= found@.len(),
                views == found@.map_values(|c: PublishCandidate| c.view()),
                names == views.map_values(|c: (Seq<char>, Seq<char>)| c.0),
                seen == exists|kk: int| 0 <= kk < k && #[trigger] names[kk] == name@,
            decreases found.len() - k,
        {
            assert(names[k as int] == found@[k as int].name@);
            if str_eq(found[k].name.as_str(), name.as_str()) {
                seen = true;
            }
            k += 1;
        }
        assert(seen == names.contains(name@));
        proof {
            assert(skill_dirs@.subrange(0, j + 1).drop_last() == skill_dirs@.subrange(0, j as int));
            assert(skill_dirs@.subrange(0, j + 1).last() == skill_dirs@[j as int]);
        }
        if is_skill_name_str(name.as_str()) && !manifest.has_dependency(name.as_str()) && !seen {
            let ghost before = found@;
            found.push(PublishCandidate { name: name.clone(), path: path.clone() });
            assert(found@.map_values(|c: PublishCandidate| c.view())
                =~= before.map_values(|c: PublishCandidate| c.view()).push((name@, path@)));
        }
        j += 1;
    }
    assert(skill_dirs@.subrange(0, skill_dirs@.len() as int) == skill_dirs@);
    let ghost unsorted = found@;
    let r = sort_by_key(found);
    assert(r@.to_multiset() == unsorted.to_multiset());
    r
}

/// `Path::strip_prefix` on Unix paths: the rest of `path` after `root`, when `root`'s
/// components begin `path`'s, joined with `/`.
pub open spec fn relative_to(path: Seq<char>, root: Seq<char>) -> Option<Seq<char>> {
    let a = path_components(path);
    let b = path_components(root);
    if b.len() <= a.len() && a.subrange(0, b.len() as int) == b {
        Some(join_with(a.subrange(b.len() as int, a.len() as int), "/"@))
    } else {
        None
    }
}

pub fn relative_within(path: &str, root: &str) -> (r: Option<String>)
    ensures
        match r {
            Some(rel) => relative_to(path@, root@) == Some(rel@),
            None => relative_to(path@, root@) is None,
        },
{
    let a = path_components_of(path);
    let b = path_components_of(root);
    let ghost av = a@.map_values(|s: String| s@);
    let ghost bv = b@.map_values(|s: String| s@);
    if b.len() > a.len() {
        assert(bv.len() > av.len());
        return None;
    }
    let mut i: usize = 0;
    while i < b.len()
        invariant
            i <= b@.len(), b@.len() <= a@.len(),
            av == a@.map_values(|s: String| s@), bv == b@.map_values(|s: String| s@),
            av == path_components(path@), bv == path_components(root@),
            forall|k: int| 0 <= k < i ==> av[k] == bv[k],
        decreases b.len() - i,
    {
        if !str_eq(a[i].as_str(), b[i].as_str()) {
            assert(av.subrange(0, bv.len() as int)[i as int] != bv[i as int]);
            return None;
        }
        i += 1;
    }
    assert(av.subrange(0, bv.len() as int) =~= bv);
    let rel = join_strings(&a, b.len(), "/");
    assert(a@.subrange(b@.len() as int, a@.len() as int).map_values(|s: String| s@)
        == av.subrange(bv.len() as int, av.len() as int));
    Some(rel)
}

pub open spec fn outside_project_message(path: Seq<char>) -> Seq<char> {
    "Publish path '"@ + path + "' is outside the project"@
}

/// Publishes a candidate: a local dependency is published by name; another directory is
/// first declared as a local dependency at its path relative to the project (both paths as
/// resolved on disk), and must lie inside it.
pub fn add_publish_candidate(manifest: &mut Manifest, candidate: &PublishCandidate, canonical_root: &str, canonical_path: &str)
    -> (r: Result<(), SkillCopyFailed>)
    requires old(manifest).wf(),
    ensures
        final(manifest).wf(),
        ({
            let local = old(manifest).deps().contains_key(candidate.name@)
                && old(manifest).deps()[candidate.name@].path is Some;
            if local {
                r is Ok && final(manifest).deps() == old(manifest).deps()
                    && final(manifest).publish@.len() > 0
                    && final(manifest).publish@.last() == PublishEntry::Dependency(candidate.name)
            } else {
                match relative_to(canonical_path@, canonical_root@) {
                    None => (r matches Err(e) && e.message@ == outside_project_message(candidate.path@))
                        && final(manifest).deps() == old(manifest).deps() && final(manifest).publish@ == old(manifest).publish@,
                    Some(rel) => r is Ok
                        && final(manifest).deps().contains_key(candidate.name@)
                        && final(manifest).publish@.len() > 0
                        && final(manifest).publish@.last() == PublishEntry::Dependency(candidate.name)
                        && (final(manifest).deps()[candidate.name@].path matches Some(p) && p@ == rel),
                }
            }
        }),
{
    let local = match manifest.dependencies.get(candidate.name.as_str()) {
        Some(dep) => dep.path.is_some(),
        None => false,
    };
    if !local {
        match relative_within(canonical_path, canonical_root) {
            None => {
                return Err(SkillCopyFailed::new(concat(
                    &concat("Publish path '", candidate.path.as_str()),
                    "' is outside the project",
                )));
            },
            Some(rel) => {
                manifest.add_local_dependency(candidate.name.clone(), rel);
            },
        }
    }
    manifest.add_publish_dependency(candidate.name.clone());
    Ok(())
}

pub open spec fn invalid_publish_name_message(name: Seq<char>) -> Seq<char> {
    "Invalid published skill name '"@ + name + "': must match [a-zA-Z0-9_-]+"@
}

/// `kt publish add` needs a skill name.
pub fn check_publish_name(skill: &str) -> (r: Result<(), ManifestInvalidName>)
    ensures
        r is Ok <==> is_skill_name(skill@),
        r matches Err(e) ==> e.message@ == invalid_publish_name_message(skill@),
{
    if is_skill_name_str(skill) {
        Ok(())
    } else {
        Err(ManifestInvalidName::new(concat(&concat("Invalid published skill name '", skill), "': must match [a-zA-Z0-9_-]+")))
    }
}

pub open spec fn missing_publish_path_message(path: Seq<char>) -> Seq<char> {
    "Publish path '"@ + path + "' does not exist"@
}

/// The error for a publish path that does not exist.
pub fn missing_publish_path(path: &str) -> (e: SkillCopyFailed)
    ensures e.message@ == missing_publish_path_message(path@),
{
    SkillCopyFailed::new(concat(&concat("Publish path '", path), "' does not exist"))
}

/// The path stored for `kt publish add`: the resolved path relative to the resolved project
/// root; an error when it lies outside.
pub fn relative_publish_path(path: &str, canonical_root: &str, canonical_path: &str) -> (r: Result<String, SkillCopyFailed>)
    ensures
        match r {
            Ok(rel) => relative_to(canonical_path@, canonical_root@) == Some(rel@),
            Err(e) => relative_to(canonical_path@, canonical_root@) is None && e.message@ == outside_project_message(path@),
        },
{
    match relative_within(canonical_path, canonical_root) {
        Some(rel) => Ok(rel),
        None => Err(SkillCopyFailed::new(concat(&concat("Publish path '", path), "' is outside the project"))),
    }
}

/// The message after publishing selected skills.
pub open spec fn published_message(count: usize, manifest_path: Seq<char>) -> Seq<char> {
    "Published "@ + decimal(count as nat) + (if count == 1 { " local skill"@ } else { " local skills"@ }) + " in "@ + manifest_path
}

pub fn published_summary(count: usize, manifest_path: &str) -> (r: String)
    ensures r@ == published_message(count, manifest_path@),
{
    let n = u64_to_decimal(count as u64);
    concat(
        &concat(&concat(&concat("Published ", n.as_str()), if count == 1 { " local skill" } else { " local skills" }), " in "),
        manifest_path,
    )
}

} // verus!

//! `kt list`: one status row per declared or locked skill, sorted by name.

use vstd::prelude::*;
use crate::git::{skill_dir, skill_dir_spec};
use crate::lockfile::Lockfile;
use crate::manifest::{DependencyEntry, Manifest};
use crate::sort::{sort_by_key, sorted_by_key, Keyed};
use crate::scan::somes;
use crate::text::owned;
use crate::laws::law_status_rows;

verus! {

/// The state of one skill.
#[derive(Debug, Clone)]
pub struct SkillStatus {
    pub name: String,
    pub repo: String,
    pub commit: String,
    pub path: String,
    pub status: String,
}

impl SkillStatus {
    pub open spec fn view(&self) -> (Seq<char>, Seq<char>, Seq<char>, Seq<char>, Seq<char>) {
        (self.name@, self.repo@, self.commit@, self.path@, self.status@)
    }
}

impl Keyed for SkillStatus {
    open spec fn key_view(&self) -> Seq<char> {
        self.name@
    }

    fn key(&self) -> (r: &str) {
        self.name.as_str()
    }
}

/// Where a dependency comes from: its repo, else its path, else a dash.
pub open spec fn dependency_source(d: DependencyEntry) -> Seq<char> {
    match d.repo {
        Some(r) => r@,
        None => match d.path {
            Some(p) => p@,
            None => "—"@,
        },
    }
}

/// The status of a declared skill: installed when its directory exists, else missing when
/// locked, else not locked.
pub open spec fn declared_status(dir_exists: bool, locked: bool) -> Seq<char> {
    if dir_exists { "installed"@ } else if locked { "missing"@ } else { "not locked"@ }
}

/// The row of declared dependency `i`.
pub open spec fn declared_row(root: Seq<char>, m: Manifest, l: Lockfile, i: int, dir_exists: bool)
    -> (Seq<char>, Seq<char>, Seq<char>, Seq<char>, Seq<char>)
{
    let name = m.dependencies.keys_view()[i];
    let locked = l.locked().contains_key(name);
    (name, dependency_source(m.dependencies.vals_view()[i]),
        if locked { l.locked()[name].commit@ } else { "—"@ },
        skill_dir_spec(root, name), declared_status(dir_exists, locked))
}

/// The row of a locked skill that is not declared.
pub open spec fn orphan_row(root: Seq<char>, l: Lockfile, j: int) -> (Seq<char>, Seq<char>, Seq<char>, Seq<char>, Seq<char>) {
    let name = l.entries.keys_view()[j];
    (name, l.entries.vals_view()[j].repo@, l.entries.vals_view()[j].commit@, skill_dir_spec(root, name), "orphaned"@)
}

/// The rows before sorting: each declared dependency, then each locked skill not declared.
pub open spec fn status_rows(root: Seq<char>, m: Manifest, l: Lockfile, dir_exists: Seq<bool>)
    -> Seq<(Seq<char>, Seq<char>, Seq<char>, Seq<char>, Seq<char>)>
{
    Seq::new(m.dependencies.keys_view().len(), |i: int| declared_row(root, m, l, i, dir_exists[i]))
        + somes(l.entries.keys_view().len() as int, |j: int| if m.deps().contains_key(l.entries.keys_view()[j]) {
            None
        } else {
            Some(orphan_row(root, l, j))
        })
}

/// Collects the rows, sorted by name. `dir_exists[i]` says whether dependency `i`'s
/// directory exists.
pub fn collect_statuses(project_root: &str, manifest: &Manifest, lockfile: &Lockfile, dir_exists: &Vec<bool>)
    -> (r: Vec<SkillStatus>)
    requires
        manifest.wf(), lockfile.wf(),
        dir_exists@.len() == manifest.dependencies.keys_view().len(),
    ensures
        sorted_by_key(r@),
        exists|rows: Seq<SkillStatus>| #![trigger rows.to_multiset()] {
            &&& r@.to_multiset() == rows.to_multiset()
            &&& rows.map_values(|s: SkillStatus| s.view()) == status_rows(project_root@, *manifest, *lockfile, dir_exists@)
        },
        forall|k: int| 0 <= k < r@.len() ==> {
            let s = #[trigger] r@[k];
            &&& (lockfile.locked().contains_key(s.name@) ==> s.commit@ == lockfile.locked()[s.name@].commit@)
            &&& (!lockfile.locked().contains_key(s.name@) ==> s.commit@ == "—"@ && manifest.deps().contains_key(s.name@))
            &&& (s.status@ == "orphaned"@ <==> !manifest.deps().contains_key(s.name@))
            &&& s.path@ == skill_dir_spec(project_root@, s.name@)
        },
{
    let n = manifest.dependencies.len();
    let ghost declared = Seq::new(n as nat, |i: int| declared_row(project_root@, *manifest, *lockfile, i, dir_exists@[i]));
    let ghost f = |j: int| if manifest.deps().contains_key(lockfile.entries.keys_view()[j]) {
        None
    } else {
        Some(orphan_row(project_root@, *lockfile, j))
    };
    let mut rows: Vec<SkillStatus> = Vec::new();
    let mut i: usize = 0;
    while i < n
        invariant
            manifest.wf(), lockfile.wf(), i <= n, n == manifest.dependencies.keys_view().len(),
            dir_exists@.len() == n,
            declared == Seq::new(n as nat, |i: int| declared_row(project_root@, *manifest, *lockfile, i, dir_exists@[i])),
            rows@.map_values(|s: SkillStatus| s.view()) == declared.subrange(0, i as int),
        decreases n - i,
    {
        let name = manifest.dependencies.key_at(i);
        let dep = manifest.dependencies.val_at(i);
        let lock = lockfile.entry(name.as_str());
        let repo = match &dep.repo {
            Some(r) => r.clone(),
            None => match &dep.path {
                Some(p) => p.clone(),
                None => owned("—"),
            },
        };
        let commit = match lock {
            Some(l) => l.commit.clone(),
            None => owned("—"),
        };
        let status = if dir_exists[i] {
            owned("installed")
        } else if lock.is_some() {
            owned("missing")
        } else {
            owned("not locked")
        };
        let ghost before = rows@;
        rows.push(SkillStatus { name: name.clone(), repo, commit, path: skill_dir(project_root, name.as_str()), status });
        assert(rows@.map_values(|s: SkillStatus| s.view()) =~= before.map_values(|s: SkillStatus| s.view()).push(declared[i as int]));
        assert(declared.subrange(0, i + 1) =~= declared.subrange(0, i as int).push(declared[i as int]));
        i += 1;
    }
    assert(declared.subrange(0, n as int) == declared);
    let m = lockfile.entries.len();
    let mut j: usize = 0;
    while j < m
        invariant
            manifest.wf(), lockfile.wf(), j <= m, m == lockfile.entries.keys_view().len(),
            f == (|j: int| if manifest.deps().contains_key(lockfile.entries.keys_view()[j]) {
                None
            } else {
                Some(orphan_row(project_root@, *lockfile, j))
            }),
            rows@.map_values(|s: SkillStatus| s.view()) == declared + somes(j as int, f),
        decreases m - j,
    {
        let name = lockfile.entries.key_at(j);
        let entry = lockfile.entries.val_at(j);
        proof { lockfile.entries.lemma_at(j as int); }
        if !manifest.has_dependency(name.as_str()) {
            let ghost before = rows@;
            rows.push(SkillStatus {
                name: name.clone(),
                repo: entry.repo.clone(),
                commit: entry.commit.clone(),
                path: skill_dir(project_root, name.as_str()),
                status: owned("orphaned"),
            });
            assert(rows@.map_values(|s: SkillStatus| s.view())
                =~= before.map_values(|s: SkillStatus| s.view()).push(orphan_row(project_root@, *lockfile, j as int)));
        }
        j += 1;
    }
    let ghost unsorted = rows@;
    let sorted = sort_by_key(rows);
    assert(sorted@.to_multiset() == unsorted.to_multiset());
    proof {
        let ghost all = status_rows(project_root@, *manifest, *lockfile, dir_exists@);
        assert(unsorted.map_values(|s: SkillStatus| s.view()) == all);
        law_status_rows(project_root@, *manifest, *lockfile, dir_exists@);
        unsorted.to_multiset_ensures();
        sorted@.to_multiset_ensures();
        assert forall|k: int| 0 <= k < sorted@.len() implies {
            let s = #[trigger] sorted@[k];
            &&& (lockfile.locked().contains_key(s.name@) ==> s.commit@ == lockfile.locked()[s.name@].commit@)
            &&& (!lockfile.locked().contains_key(s.name@) ==> s.commit@ == "—"@ && manifest.deps().contains_key(s.name@))
            &&& (s.status@ == "orphaned"@ <==> !manifest.deps().contains_key(s.name@))
            &&& s.path@ == skill_dir_spec(project_root@, s.name@)
        } by {
            let x = sorted@[k];
            assert(sorted@.contains(x));
            assert(unsorted.to_multiset().count(x) > 0);
            assert(unsorted.contains(x));
            let i = choose|i: int| 0 <= i < unsorted.len() && unsorted[i] == x;
            assert(unsorted.map_values(|s: SkillStatus| s.view())[i] == x.view());
            assert(all[i] == x.view());
        }
    }
    sorted
}

} // verus!

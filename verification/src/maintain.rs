//! `kt upgrade`, `kt uninstall` and `kt export`: what each changes in the manifest and the
//! lockfile.

use vstd::prelude::*;
use crate::error::SkillNotFound;
use crate::lockfile::{LockEntry, Lockfile};
use crate::manifest::Manifest;
use crate::text::{concat, decimal, owned, u64_to_decimal};

verus! {

/// The skills `kt upgrade` visits: the locked ones, or, with nothing locked, the declared ones.
pub open spec fn upgrade_names(m: Manifest, l: Lockfile) -> Seq<Seq<char>> {
    if l.entries.keys_view().len() > 0 { l.entries.keys_view() } else { m.dependencies.keys_view() }
}

pub fn upgrade_targets(manifest: &Manifest, lockfile: &Lockfile) -> (r: Vec<String>)
    requires manifest.wf(), lockfile.wf(),
    ensures r@.map_values(|s: String| s@) == upgrade_names(*manifest, *lockfile),
{
    let use_lock = lockfile.entries.len() > 0;
    let n = if use_lock { lockfile.entries.len() } else { manifest.dependencies.len() };
    let ghost names = upgrade_names(*manifest, *lockfile);
    let mut out: Vec<String> = Vec::new();
    let mut i: usize = 0;
    while i < n
        invariant
            manifest.wf(), lockfile.wf(), i <= n, n == names.len(),
            use_lock == (lockfile.entries.keys_view().len() > 0),
            names == upgrade_names(*manifest, *lockfile),
            out@.map_values(|s: String| s@) == names.subrange(0, i as int),
        decreases n - i,
    {
        let name = if use_lock { lockfile.entries.key_at(i) } else { manifest.dependencies.key_at(i) };
        let ghost before = out@;
        out.push(name.clone());
        assert(out@.map_values(|s: String| s@) =~= before.map_values(|s: String| s@).push(names[i as int]));
        assert(names.subrange(0, i + 1) =~= names.subrange(0, i as int).push(names[i as int]));
        i += 1;
    }
    assert(names.subrange(0, n as int) == names);
    out
}

/// Records the commit a skill was upgraded to; a skill that is not locked stays unlocked.
pub fn record_upgrade(lockfile: &mut Lockfile, name: &str, commit: String)
    requires old(lockfile).wf(),
    ensures
        final(lockfile).wf(),
        old(lockfile).locked().contains_key(name@) ==> final(lockfile).locked()
            == old(lockfile).locked().insert(name@, LockEntry { commit: commit, repo: old(lockfile).locked()[name@].repo }),
        !old(lockfile).locked().contains_key(name@) ==> final(lockfile).locked() == old(lockfile).locked(),
{
    let repo = match lockfile.entry(name) {
        Some(e) => Some(e.repo.clone()),
        None => None,
    };
    if let Some(repo) = repo {
        lockfile.insert(owned(name), LockEntry { commit, repo });
    }
}

pub open spec fn uninstall_missing_message(name: Seq<char>) -> Seq<char> {
    "Error: skill '"@ + name + "' not found in manifest"@
}

/// Removes a declared skill from the manifest and the lockfile; an error when it is not
/// declared, and then nothing changes.
pub fn uninstall_skill(manifest: &mut Manifest, lockfile: &mut Lockfile, name: &str) -> (r: Result<(), SkillNotFound>)
    requires old(manifest).wf(), old(lockfile).wf(),
    ensures
        final(manifest).wf(), final(lockfile).wf(),
        r is Ok <==> old(manifest).deps().contains_key(name@),
        r matches Err(e) ==> e.message@ == uninstall_missing_message(name@)
            && final(manifest).deps() == old(manifest).deps() && final(lockfile).locked() == old(lockfile).locked(),
        r is Ok ==> final(manifest).deps() == old(manifest).deps().remove(name@)
            && final(lockfile).locked() == old(lockfile).locked().remove(name@),
        final(manifest).publish@ == old(manifest).publish@,
{
    if !manifest.has_skill(name) {
        return Err(SkillNotFound::new(concat(&concat("Error: skill '", name), "' not found in manifest")));
    }
    manifest.remove_skill(name);
    lockfile.remove(name);
    Ok(())
}

/// The error when there is no manifest to uninstall from.
pub fn no_manifest_to_uninstall(name: &str) -> (e: SkillNotFound)
    ensures e.message@ == uninstall_missing_message(name@),
{
    SkillNotFound::new(concat(&concat("Error: skill '", name), "' not found in manifest"))
}

/// Whether one of the first `k` directories is named `name`.
pub open spec fn named_before(dirs: Seq<(String, String)>, k: int, name: Seq<char>) -> bool {
    exists|j: int| 0 <= j < k && #[trigger] dirs[j].0@ == name
}

/// How many of `dirs` `kt export` declares: those named neither like a skill in `known` nor
/// like an earlier directory.
pub open spec fn new_dir_count(known: Set<Seq<char>>, dirs: Seq<(String, String)>) -> nat
    decreases dirs.len(),
{
    if dirs.len() == 0 {
        0
    } else {
        let rest = new_dir_count(known, dirs.drop_last());
        let name = dirs.last().0@;
        if known.contains(name) || named_before(dirs, dirs.len() - 1, name) { rest } else { rest + 1 }
    }
}

/// `kt export`: declares every locked skill by its repo, then every skill directory not yet
/// declared by its path (the path in the place of the repo); gives how many were declared:
/// every locked skill, and each new directory name once.
pub fn export_skills(manifest: &mut Manifest, lockfile: &Lockfile, dirs: &Vec<(String, String)>) -> (count: usize)
    requires
        old(manifest).wf(), lockfile.wf(),
        lockfile.entries.keys_view().len() + dirs@.len() <= usize::MAX,
    ensures
        final(manifest).wf(),
        final(manifest).publish@ == old(manifest).publish@,
        forall|k: Seq<char>| lockfile.locked().contains_key(k) ==> #[trigger] final(manifest).deps().contains_key(k)
            && final(manifest).deps()[k].repo == Some(lockfile.locked()[k].repo),
        forall|i: int| 0 <= i < dirs@.len() ==> final(manifest).deps().contains_key(#[trigger] dirs@[i].0@),
        forall|k: Seq<char>| #[trigger] final(manifest).deps().contains_key(k) <==> old(manifest).deps().contains_key(k)
            || lockfile.locked().contains_key(k) || named_before(dirs@, dirs@.len() as int, k),
        count == lockfile.entries.keys_view().len()
            + new_dir_count(old(manifest).deps().dom() + lockfile.locked().dom(), dirs@),
{
    let mut count: usize = 0;
    let n = lockfile.entries.len();
    let ghost m0 = manifest.deps();
    let ghost known = m0.dom() + lockfile.locked().dom();
    let mut i: usize = 0;
    while i < n
        invariant
            manifest.wf(), lockfile.wf(), i <= n, n == lockfile.entries.keys_view().len(),
            manifest.publish@ == old(manifest).publish@, m0 == old(manifest).deps(),
            count == i,
            forall|j: int| 0 <= j < i ==> manifest.deps().contains_key(#[trigger] lockfile.entries.keys_view()[j])
                && manifest.deps()[lockfile.entries.keys_view()[j]].repo == Some(lockfile.entries.vals_view()[j].repo),
            forall|k: Seq<char>| #[trigger] manifest.deps().contains_key(k) <==> m0.contains_key(k)
                || exists|j: int| 0 <= j < i && lockfile.entries.keys_view()[j] == k,
        decreases n - i,
    {
        let name = lockfile.entries.key_at(i);
        let entry = lockfile.entries.val_at(i);
        proof { lockfile.entries.lemma_at(i as int); }
        manifest.add_remote_dependency(name.clone(), entry.repo.clone(), None);
        proof {
            assert forall|j: int| 0 <= j < i implies lockfile.entries.keys_view()[j] != lockfile.entries.keys_view()[i as int] by {
                lockfile.entries.lemma_at(j);
            }
        }
        count += 1;
        i += 1;
    }
    assert forall|k: Seq<char>| lockfile.locked().contains_key(k) implies #[trigger] manifest.deps().contains_key(k)
        && manifest.deps()[k].repo == Some(lockfile.locked()[k].repo) by {
        let j = lockfile.entries.keys_view().index_of(k);
        lockfile.entries.lemma_at(j);
        assert(lockfile.entries.keys_view()[j] == k);
    }
    assert forall|k: Seq<char>| #[trigger] manifest.deps().contains_key(k) <==> known.contains(k) by {
        if exists|j: int| 0 <= j < n && lockfile.entries.keys_view()[j] == k {
            let j = choose|j: int| 0 <= j < n && lockfile.entries.keys_view()[j] == k;
            lockfile.entries.lemma_at(j);
        }
    }
    assert(dirs@.subrange(0, 0) =~= Seq::<(String, String)>::empty());
    let mut d: usize = 0;
    while d < dirs.len()
        invariant
            manifest.wf(), lockfile.wf(), d <= dirs@.len(),
            manifest.publish@ == old(manifest).publish@, m0 == old(manifest).deps(),
            n == lockfile.entries.keys_view().len(),
            n + dirs@.len() <= usize::MAX,
            known == m0.dom() + lockfile.locked().dom(),
            count == n + new_dir_count(known, dirs@.subrange(0, d as int)),
            new_dir_count(known, dirs@.subrange(0, d as int)) <= d,
            forall|k: Seq<char>| lockfile.locked().contains_key(k) ==> #[trigger] manifest.deps().contains_key(k)
                && manifest.deps()[k].repo == Some(lockfile.locked()[k].repo),
            forall|j: int| 0 <= j < d ==> manifest.deps().contains_key(#[trigger] dirs@[j].0@),
            forall|k: Seq<char>| #[trigger] manifest.deps().contains_key(k) <==> known.contains(k)
                || named_before(dirs@, d as int, k),
        decreases dirs.len() - d,
    {
        let (name, path) = &dirs[d];
        let ghost sub = dirs@.subrange(0, d + 1);
        proof {
            assert(sub.drop_last() =~= dirs@.subrange(0, d as int));
            assert(sub.last() == dirs@[d as int]);
            assert(named_before(sub, d as int, name@) == named_before(dirs@, d as int, name@)) by {
                if named_before(dirs@, d as int, name@) {
                    let j = choose|j: int| 0 <= j < d && #[trigger] dirs@[j].0@ == name@;
                    assert(sub[j] == dirs@[j]);
                }
                if named_before(sub, d as int, name@) {
                    let j = choose|j: int| 0 <= j < d && #[trigger] sub[j].0@ == name@;
                    assert(sub[j] == dirs@[j]);
                }
            }
        }
        if !manifest.has_skill(name.as_str()) {
            let ghost before = manifest.deps();
            manifest.add_remote_dependency(name.clone(), path.clone(), None);
            assert forall|k: Seq<char>| lockfile.locked().contains_key(k) implies #[trigger] manifest.deps().contains_key(k)
                && manifest.deps()[k].repo == Some(lockfile.locked()[k].repo) by {
                assert(before.contains_key(k));
                assert(k != name@);
            }
            count += 1;
        }
        proof {
            assert forall|k: Seq<char>| named_before(dirs@, d + 1, k) <==> named_before(dirs@, d as int, k) || k == name@ by {
                if named_before(dirs@, d + 1, k) {
                    let j = choose|j: int| 0 <= j < d + 1 && #[trigger] dirs@[j].0@ == k;
                    if j < d { assert(named_before(dirs@, d as int, k)); }
                }
                if k == name@ { assert(dirs@[d as int].0@ == k); }
                if named_before(dirs@, d as int, k) {
                    let j = choose|j: int| 0 <= j < d && #[trigger] dirs@[j].0@ == k;
                    assert(0 <= j < d + 1);
                }
            }
        }
        d += 1;
    }
    assert(dirs@.subrange(0, dirs@.len() as int) =~= dirs@);
    count
}

/// The message after `kt export`.
pub open spec fn export_message(count: usize, manifest_path: Seq<char>) -> Seq<char> {
    if count == 0 {
        "No skills to export. Created an empty skills.json manifest."@
    } else {
        "Exported "@ + decimal(count as nat) + (if count == 1 { " skill"@ } else { " skills"@ }) + " to "@ + manifest_path
    }
}

pub fn export_summary(count: usize, manifest_path: &str) -> (r: String)
    ensures r@ == export_message(count, manifest_path@),
{
    if count == 0 {
        return owned("No skills to export. Created an empty skills.json manifest.");
    }
    let n = u64_to_decimal(count as u64);
    concat(&concat(&concat(&concat("Exported ", n.as_str()), if count == 1 { " skill" } else { " skills" }), " to "), manifest_path)
}

} // verus!

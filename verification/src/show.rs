//! `kt show <skill>`: the details of one declared or locked skill.

use vstd::prelude::*;
use crate::error::SkillNotFound;
use crate::git::{skill_dir, skill_dir_spec};
use crate::lockfile::Lockfile;
use crate::manifest::Manifest;
use crate::text::{concat, owned};

verus! {

/// The details of one skill.
#[derive(Debug, Clone)]
pub struct SkillDetails {
    pub name: String,
    pub repo: String,
    pub commit: String,
    pub path: String,
    pub status: String,
}

pub open spec fn not_found_message(name: Seq<char>) -> Seq<char> {
    "Error: skill '"@ + name + "' not found"@
}

/// The source shown: the declared repo, else the declared path, else the locked repo, else
/// a dash.
pub open spec fn shown_repo(m: Manifest, l: Lockfile, name: Seq<char>) -> Seq<char> {
    let declared = m.deps().contains_key(name);
    let locked = l.locked().contains_key(name);
    if declared && m.deps()[name].repo is Some {
        m.deps()[name].repo->0@
    } else if declared && m.deps()[name].path is Some {
        m.deps()[name].path->0@
    } else if locked {
        l.locked()[name].repo@
    } else {
        "—"@
    }
}

/// The details of `name`, given whether its directory exists; an error when it is neither
/// declared nor locked.
pub fn skill_details(project_root: &str, manifest: &Manifest, lockfile: &Lockfile, name: &str, dir_exists: bool)
    -> (r: Result<SkillDetails, SkillNotFound>)
    requires manifest.wf(), lockfile.wf(),
    ensures
        match r {
            Err(e) => !manifest.deps().contains_key(name@) && !lockfile.locked().contains_key(name@)
                && e.message@ == not_found_message(name@),
            Ok(d) => (manifest.deps().contains_key(name@) || lockfile.locked().contains_key(name@))
                && d.name@ == name@
                && d.repo@ == shown_repo(*manifest, *lockfile, name@)
                && d.commit@ == (if lockfile.locked().contains_key(name@) { lockfile.locked()[name@].commit@ } else { "—"@ })
                && d.path@ == skill_dir_spec(project_root@, name@)
                && d.status@ == (if dir_exists { "installed"@ }
                    else if lockfile.locked().contains_key(name@) { "missing"@ }
                    else { "not installed"@ }),
        },
{
    let entry = manifest.dependencies.get(name);
    let lock = lockfile.entry(name);
    if entry.is_none() && lock.is_none() {
        return Err(SkillNotFound::new(concat(&concat("Error: skill '", name), "' not found")));
    }
    let repo = match entry {
        Some(e) if e.repo.is_some() => e.repo.clone().unwrap(),
        Some(e) if e.path.is_some() => e.path.clone().unwrap(),
        _ => match lock {
            Some(l) => l.repo.clone(),
            None => owned("—"),
        },
    };
    let commit = match lock {
        Some(l) => l.commit.clone(),
        None => owned("—"),
    };
    let status = if dir_exists {
        owned("installed")
    } else if lock.is_some() {
        owned("missing")
    } else {
        owned("not installed")
    };
    Ok(SkillDetails { name: owned(name), repo, commit, path: skill_dir(project_root, name), status })
}

} // verus!

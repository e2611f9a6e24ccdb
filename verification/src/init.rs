//! `kt init`: creating a manifest and adopting the skill directories already in the project,
//! as remote dependencies when they can be traced to a repository and as local ones otherwise.

use vstd::prelude::*;
use crate::error::InitPathNotFound;
use crate::install::LOCAL_COMMIT;
use crate::install_target::path_exists;
use crate::lockfile::{is_commit_hash, is_valid_commit, LockEntry, Lockfile};
use crate::manifest::{is_skill_name, is_skill_name_str, DependencyEntry, Manifest};
use crate::skills_sh::SkillSearchResult;
use crate::text::{chars_of, concat, decimal, is_ascii_alnum, is_ascii_alnum_char, owned, push_char, str_eq, trim,
    trim_seq, u64_to_decimal, u128_to_decimal};

verus! {

/// A repository and commit found for an existing skill directory.
#[derive(Debug, Clone)]
pub struct RemoteAdoption {
    pub repo: String,
    pub commit: String,
    pub source_skill: Option<String>,
}

pub open spec fn path_missing_message(path: Seq<char>) -> Seq<char> {
    "Error: path '"@ + path + "' does not exist"@
}

/// What the lookup of the project directory gives: it goes on when the directory exists,
/// otherwise the error names the path.
pub fn init_path_outcome(path: &str, exists: bool) -> (r: Result<(), InitPathNotFound>)
    ensures
        r is Ok <==> exists,
        r matches Err(e) ==> e.message@ == path_missing_message(path@),
{
    if exists {
        Ok(())
    } else {
        Err(InitPathNotFound::new(concat(&concat("Error: path '", path), "' does not exist")))
    }
}

/// The project directory must exist (looked up on disk, see `init_path_outcome`).
pub fn check_init_path(path: &str) -> (r: Result<(), InitPathNotFound>)
    ensures r matches Err(e) ==> e.message@ == path_missing_message(path@),
{
    init_path_outcome(path, path_exists(path))
}

/// The first search result that is installable from a repository and whose skill is `name`.
pub open spec fn is_exact_match(name: Seq<char>, r: SkillSearchResult) -> bool {
    r.installable && r.repo is Some && r.skill@ == name
}

pub fn exact_installable_match<'a>(name: &str, results: &'a [SkillSearchResult]) -> (r: Option<&'a SkillSearchResult>)
    ensures
        r is None <==> forall|i: int| 0 <= i < results@.len() ==> !is_exact_match(name@, #[trigger] results@[i]),
        r matches Some(m) ==> exists|i: int| 0 <= i < results@.len() && *m == results@[i]
            && is_exact_match(name@, results@[i])
            && forall|j: int| 0 <= j < i ==> !is_exact_match(name@, #[trigger] results@[j]),
{
    let mut i: usize = 0;
    while i < results.len()
        invariant
            i <= results@.len(),
            forall|j: int| 0 <= j < i ==> !is_exact_match(name@, #[trigger] results@[j]),
        decreases results.len() - i,
    {
        let r = &results[i];
        if r.installable && r.repo.is_some() && str_eq(r.skill.as_str(), name) {
            return Some(r);
        }
        i += 1;
    }
    None
}

/// Characters of a name kept in a temporary clone folder name; others become `-`.
pub open spec fn temp_char(c: char) -> char {
    if is_ascii_alnum(c) || c == '-' || c == '_' { c } else { '-' }
}

pub fn sanitize_temp_name(name: &str) -> (r: String)
    ensures r@ == name@.map_values(|c: char| temp_char(c)),
{
    let v = chars_of(name);
    let mut out = String::new();
    let mut i: usize = 0;
    while i < v.len()
        invariant
            i <= v@.len(),
            v@ == name@,
            out@ == v@.subrange(0, i as int).map_values(|c: char| temp_char(c)),
        decreases v.len() - i,
    {
        let c = v[i];
        let d = if is_ascii_alnum_char(c) || c == '-' || c == '_' { c } else { '-' };
        push_char(&mut out, d);
        assert(v@.subrange(0, i + 1).map_values(|c: char| temp_char(c))
            == v@.subrange(0, i as int).map_values(|c: char| temp_char(c)).push(d));
        i += 1;
    }
    assert(v@.subrange(0, v@.len() as int) == v@);
    out
}

/// Nanoseconds since the Unix epoch, or 0 when the clock is before it
/// (`SystemTime::now().duration_since(UNIX_EPOCH)`); the value depends on the clock.
#[verifier::external_body]
pub fn unique_suffix() -> u128 {
    std::time::SystemTime::now()
        .duration_since(std::time::UNIX_EPOCH)
        .map(|duration| duration.as_nanos())
        .unwrap_or_default()
}

/// The name of the temporary folder a remote skill is cloned into while `kt init` adopts it.
pub open spec fn adoption_dir_spec(name: Seq<char>, process_id: u32, stamp: u128) -> Seq<char> {
    "ktesio-init-adopt-"@ + name.map_values(|c: char| temp_char(c)) + "-"@
        + decimal(process_id as nat) + "-"@ + decimal(stamp as nat)
}

/// The temporary folder a remote skill is cloned into while `kt init` adopts it: named after
/// the skill (made safe), the process and a time stamp that keep it apart from others.
pub fn adoption_clone_dir_name(name: &str, process_id: u32, stamp: u128) -> (r: String)
    ensures
        r@ == adoption_dir_spec(name@, process_id, stamp),
{
    let safe = sanitize_temp_name(name);
    let pid = u64_to_decimal(process_id as u64);
    let st = u128_to_decimal(stamp);
    concat(&concat(&concat(&concat(&concat("ktesio-init-adopt-", safe.as_str()), "-"), pid.as_str()), "-"), st.as_str())
}

/// The folder name for adopting `name` now: stamped with the current time.
pub fn adoption_clone_dir_name_now(name: &str, process_id: u32) -> (r: String)
    ensures
        exists|stamp: u128| r@ == #[trigger] adoption_dir_spec(name@, process_id, stamp),
{
    let stamp = unique_suffix();
    adoption_clone_dir_name(name, process_id, stamp)
}

/// A lock entry that records a real remote: a repository and a full commit id other than
/// the local placeholder.
pub open spec fn is_remote_lock_entry_spec(e: LockEntry) -> bool {
    trim_seq(e.repo@).len() > 0 && e.commit@ != LOCAL_COMMIT@ && is_commit_hash(e.commit@)
}

pub fn is_remote_lock_entry(entry: &LockEntry) -> (r: bool)
    ensures r == is_remote_lock_entry_spec(*entry),
{
    let repo = trim(entry.repo.as_str());
    !repo.as_str().is_empty() && !str_eq(entry.commit.as_str(), LOCAL_COMMIT) && is_valid_commit(entry.commit.as_str())
}

/// What to do with one existing skill directory.
#[derive(Debug, Clone, Copy, PartialEq, Eq, Structural)]
pub enum AdoptionPlan {
    /// Not a skill name, or already declared.
    Skip,
    /// Locked with a remote: declare it from the lockfile.
    FromLock,
    /// Look it up on skills.sh.
    Lookup,
    /// Lookups are off after an earlier failure: adopt it as a local path.
    Local,
}

/// Chooses how to adopt directory `name`.
pub fn plan_adoption(manifest: &Manifest, lockfile: &Lockfile, name: &str, remote_enabled: bool) -> (r: AdoptionPlan)
    requires manifest.wf(), lockfile.wf(),
    ensures
        r == (if !is_skill_name(name@) || manifest.deps().contains_key(name@) {
            AdoptionPlan::Skip
        } else if lockfile.locked().contains_key(name@) && is_remote_lock_entry_spec(lockfile.locked()[name@]) {
            AdoptionPlan::FromLock
        } else if remote_enabled {
            AdoptionPlan::Lookup
        } else {
            AdoptionPlan::Local
        }),
{
    if !is_skill_name_str(name) || manifest.has_dependency(name) {
        return AdoptionPlan::Skip;
    }
    if let Some(entry) = lockfile.entry(name) {
        if is_remote_lock_entry(entry) {
            return AdoptionPlan::FromLock;
        }
    }
    if remote_enabled { AdoptionPlan::Lookup } else { AdoptionPlan::Local }
}

/// Counts of an adoption run, and whether lookups are still on.
#[derive(Debug, Clone, Copy)]
pub struct AdoptionState {
    pub remote_enabled: bool,
    pub remote_adopted: u64,
    pub local_adopted: u64,
    pub lockfile_changed: bool,
}

impl AdoptionState {
    /// Before any directory: lookups on, nothing adopted.
    pub fn new() -> (s: Self)
        ensures s.remote_enabled && s.remote_adopted == 0 && s.local_adopted == 0 && !s.lockfile_changed,
    {
        AdoptionState { remote_enabled: true, remote_adopted: 0, local_adopted: 0, lockfile_changed: false }
    }
}

fn bump(n: u64) -> (r: u64)
    ensures r == (if n < u64::MAX { (n + 1) as u64 } else { n }),
{
    if n < u64::MAX { n + 1 } else { n }
}

/// The local path recorded for an adopted directory.
pub open spec fn local_skill_path(name: Seq<char>) -> Seq<char> {
    ".agents/skills/"@ + name
}

/// Adopts directory `name` from its remote lock entry.
pub fn adopt_from_lock(manifest: &mut Manifest, lockfile: &Lockfile, state: &mut AdoptionState, name: &str)
    requires
        old(manifest).wf(), lockfile.wf(),
        lockfile.locked().contains_key(name@),
    ensures
        final(manifest).wf(),
        final(manifest).deps() == old(manifest).deps().insert(name@,
            (DependencyEntry { repo: Some(lockfile.locked()[name@].repo), path: None, rev: None })),
        final(manifest).publish@ == old(manifest).publish@,
        final(state).remote_adopted == (if old(state).remote_adopted < u64::MAX { (old(state).remote_adopted + 1) as u64 } else { old(state).remote_adopted }),
        final(state).local_adopted == old(state).local_adopted,
        final(state).remote_enabled == old(state).remote_enabled,
        final(state).lockfile_changed == old(state).lockfile_changed,
{
    let entry = lockfile.entry(name).unwrap();
    manifest.add_remote_dependency(owned(name), entry.repo.clone(), None);
    state.remote_adopted = bump(state.remote_adopted);
}

/// Adopts directory `name` as a local path dependency.
pub fn adopt_local(manifest: &mut Manifest, state: &mut AdoptionState, name: &str)
    requires old(manifest).wf(),
    ensures
        final(manifest).wf(),
        final(manifest).deps().dom() == old(manifest).deps().dom().insert(name@),
        final(manifest).deps() == old(manifest).deps().insert(name@, final(manifest).deps()[name@]),
        final(manifest).deps()[name@].path matches Some(p) && p@ == local_skill_path(name@),
        final(manifest).deps()[name@].repo is None && final(manifest).deps()[name@].rev is None,
        final(manifest).publish@ == old(manifest).publish@,
        final(state).local_adopted == (if old(state).local_adopted < u64::MAX { (old(state).local_adopted + 1) as u64 } else { old(state).local_adopted }),
        final(state).remote_adopted == old(state).remote_adopted,
        final(state).remote_enabled == old(state).remote_enabled,
        final(state).lockfile_changed == old(state).lockfile_changed,
{
    manifest.add_local_dependency(owned(name), concat(".agents/skills/", name));
    state.local_adopted = bump(state.local_adopted);
}

/// What a skills.sh lookup for an existing directory gave.
#[derive(Debug)]
pub enum LookupResult {
    Found(RemoteAdoption),
    NoMatch,
    Failed(String),
}

pub open spec fn lookup_failed_message(name: Seq<char>, error: Seq<char>) -> Seq<char> {
    "Remote adoption unavailable after checking '"@ + name + "': "@ + error
        + ". Remaining existing skills will be adopted as local path dependencies."@
}

/// Adopts directory `name` after a lookup: a match with a full commit id is locked and
/// declared remote; otherwise it is adopted locally, and a failed lookup turns further
/// lookups off and gives the warning to show.
pub fn adopt_after_lookup(
    manifest: &mut Manifest,
    lockfile: &mut Lockfile,
    state: &mut AdoptionState,
    name: &str,
    lookup: LookupResult,
) -> (warning: Option<String>)
    requires old(manifest).wf(), old(lockfile).wf(),
    ensures
        final(manifest).wf(), final(lockfile).wf(),
        final(manifest).publish@ == old(manifest).publish@,
        match lookup {
            LookupResult::Found(remote) if is_commit_hash(remote.commit@) => {
                &&& final(lockfile).locked() == old(lockfile).locked().insert(name@, final(lockfile).locked()[name@])
                &&& final(lockfile).locked()[name@].commit == remote.commit
                &&& final(lockfile).locked()[name@].repo == remote.repo
                &&& final(manifest).deps() == old(manifest).deps().insert(name@,
                    (DependencyEntry { repo: Some(remote.repo), path: None, rev: None }))
                &&& final(state).lockfile_changed && final(state).remote_enabled == old(state).remote_enabled
                &&& final(state).local_adopted == old(state).local_adopted
                &&& warning is None
            },
            _ => {
                &&& final(lockfile).locked() == old(lockfile).locked()
                &&& final(manifest).deps() == old(manifest).deps().insert(name@, final(manifest).deps()[name@])
                &&& final(manifest).deps()[name@].path matches Some(p) && p@ == local_skill_path(name@)
                &&& final(manifest).deps()[name@].repo is None
                &&& final(state).lockfile_changed == old(state).lockfile_changed
                &&& final(state).remote_adopted == old(state).remote_adopted
                &&& (lookup matches LookupResult::Failed(err) ==> !final(state).remote_enabled
                    && (warning matches Some(w) && w@ == lookup_failed_message(name@, err@)))
                &&& (!(lookup is Failed) ==> warning is None && final(state).remote_enabled == old(state).remote_enabled)
            },
        },
{
    match lookup {
        LookupResult::Found(remote) => {
            if is_valid_commit(remote.commit.as_str()) {
                let repo = remote.repo;
                lockfile.insert(owned(name), LockEntry { commit: remote.commit, repo: repo.clone() });
                manifest.add_remote_dependency(owned(name), repo, None);
                state.remote_adopted = bump(state.remote_adopted);
                state.lockfile_changed = true;
                None
            } else {
                adopt_local(manifest, state, name);
                None
            }
        },
        LookupResult::NoMatch => {
            adopt_local(manifest, state, name);
            None
        },
        LookupResult::Failed(error) => {
            state.remote_enabled = false;
            let w = concat(
                &concat(&concat(&concat("Remote adoption unavailable after checking '", name), "': "), error.as_str()),
                ". Remaining existing skills will be adopted as local path dependencies.",
            );
            adopt_local(manifest, state, name);
            Some(w)
        },
    }
}

/// The closing notes of an adoption run: how many directories became remote and local
/// dependencies, each only when there were some.
pub open spec fn directories_word(n: u64) -> Seq<char> {
    if n == 1 { "directory"@ } else { "directories"@ }
}

pub open spec fn adoption_notes(s: AdoptionState) -> Seq<Seq<char>> {
    let remote = if s.remote_adopted > 0 {
        seq!["Resolved "@ + decimal(s.remote_adopted as nat) + " existing skill "@ + directories_word(s.remote_adopted)
            + " as remote dependencies."@]
    } else {
        Seq::empty()
    };
    let local = if s.local_adopted > 0 {
        seq!["Adopted "@ + decimal(s.local_adopted as nat) + " existing local skill "@ + directories_word(s.local_adopted)
            + " as dependencies."@]
    } else {
        Seq::empty()
    };
    remote + local
}

pub fn adoption_summary(state: &AdoptionState) -> (r: Vec<String>)
    ensures r@.map_values(|s: String| s@) == adoption_notes(*state),
{
    let mut out: Vec<String> = Vec::new();
    if state.remote_adopted > 0 {
        let word = if state.remote_adopted == 1 { "directory" } else { "directories" };
        out.push(concat(
            &concat(&concat(&concat("Resolved ", u64_to_decimal(state.remote_adopted).as_str()), " existing skill "), word),
            " as remote dependencies.",
        ));
    }
    let ghost first = out@;
    if state.local_adopted > 0 {
        let word = if state.local_adopted == 1 { "directory" } else { "directories" };
        out.push(concat(
            &concat(&concat(&concat("Adopted ", u64_to_decimal(state.local_adopted).as_str()), " existing local skill "), word),
            " as dependencies.",
        ));
    }
    assert(out@.map_values(|s: String| s@) =~= adoption_notes(*state));
    out
}

} // verus!

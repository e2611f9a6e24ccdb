//! `kt install`: reading the target, choosing what to install from a repository, and
//! recording what was installed in the manifest and the lockfile.

use vstd::prelude::*;
use crate::error::{InstallAlreadyExists, InstallInvalidFormat, SkillCopyFailed};
use crate::git::{join_path, join_path_spec};
use crate::install_target::{opt_view, path_exists, resolve_repo_target, resolve_spec};
use crate::lockfile::{LockEntry, Lockfile};
use crate::manifest::{is_skill_name, is_skill_name_str, parse_rev, parse_rev_spec, DependencyEntry, Manifest,
    PublishEntry, RevKind};
use crate::scan::{first_some, first_some_from, lemma_first_some_none, or_else};
use crate::sort::{lemma_lex_refl, lemma_lex_total, lemma_lex_trans, lex_le, sort_by_key, sorted_by_key, str_le, Keyed};
use crate::discovery::{is_candidate, safe_name_spec, safe_skill_name, ListedEntry};
use crate::text::{chars_of, concat, decimal, ends_with, has_prefix, is_ascii_alnum, is_ascii_alnum_char, owned, push_char,
    split_once_char, split_once_seq, starts_with, str_eq, u64_to_decimal};

verus! {

/// The commit recorded for skills installed from a local path.
pub const LOCAL_COMMIT: &'static str = "0000000000000000000000000000000000000000";
/// Where a repository without a manifest is searched for skills.
pub const FALLBACK_SKILLS_LOCATIONS: &'static str = "skills/, SKILLS/, or .agents/skills/";

/// Flags of `kt install`.
#[derive(Debug, Clone)]
pub struct InstallOptions {
    pub all: bool,
    pub yes: bool,
    pub no_input: bool,
    pub ssh: bool,
    pub skill: Option<String>,
}

impl Default for InstallOptions {
    fn default() -> (r: Self)
        ensures
            !r.all && !r.yes && !r.no_input && !r.ssh,
            r.skill is None,
    {
        InstallOptions { all: false, yes: false, no_input: false, ssh: false, skill: None }
    }
}

/// What `kt install <target>` names: a skill under a chosen name, or a repository.
#[derive(Debug)]
pub enum InstallTarget {
    Named { name: String, repo: String, source_skill: Option<String> },
    Repo { repo: String, source_skill: Option<String> },
}

impl InstallTarget {
    /// The chosen name (for a named target), the repository, and the skill inside it.
    pub open spec fn view(&self) -> (Option<Seq<char>>, Seq<char>, Option<Seq<char>>) {
        match self {
            InstallTarget::Named { name, repo, source_skill } => (Some(name@), repo@, opt_view(*source_skill)),
            InstallTarget::Repo { repo, source_skill } => (None, repo@, opt_view(*source_skill)),
        }
    }
}

/// A manifest dependency's repository after resolving shorthands.
#[derive(Debug)]
pub struct ResolvedManifestEntry {
    pub repo: String,
    pub source_skill: Option<String>,
}

/// A URL scheme or prefix that is never read as `name:url`.
pub open spec fn has_url_prefix(t: Seq<char>) -> bool {
    has_prefix(t, "http://"@) || has_prefix(t, "https://"@) || has_prefix(t, "ssh://"@) || has_prefix(t, "git@"@)
}

pub open spec fn named_format_message() -> Seq<char> {
    "Invalid format. Expected name:url (e.g., clap:https://github.com/clap-rs/clap.git)"@
}

/// `name:url`: `Ok(None)` when the target is not of that form, `Err` when the name or the
/// url is empty or the name is not a skill name.
pub open spec fn named_target_spec(t: Seq<char>) -> Result<Option<(Seq<char>, Seq<char>)>, Seq<char>> {
    if has_url_prefix(t) {
        Ok(None)
    } else {
        match split_once_seq(t, ':') {
            None => Ok(None),
            Some((name, repo)) => {
                if name.len() == 0 || repo.len() == 0 || !is_skill_name(name) {
                    Err(named_format_message())
                } else {
                    Ok(Some((name, repo)))
                }
            },
        }
    }
}

/// Reads `name:url`.
pub fn parse_named_target(target: &str) -> (r: Result<Option<(String, String)>, InstallInvalidFormat>)
    ensures
        match r {
            Ok(None) => named_target_spec(target@) == Ok::<Option<(Seq<char>, Seq<char>)>, Seq<char>>(None),
            Ok(Some(p)) => named_target_spec(target@) == Ok::<Option<(Seq<char>, Seq<char>)>, Seq<char>>(Some((p.0@, p.1@))),
            Err(e) => named_target_spec(target@) == Err::<Option<(Seq<char>, Seq<char>)>, Seq<char>>(e.message@),
        },
{
    if starts_with(target, "http://") || starts_with(target, "https://") || starts_with(target, "ssh://")
        || starts_with(target, "git@") {
        return Ok(None);
    }
    match split_once_char(target, ':') {
        None => Ok(None),
        Some((name, repo)) => {
            if name.as_str().is_empty() || repo.as_str().is_empty() || !is_skill_name_str(name.as_str()) {
                Err(InstallInvalidFormat::new(owned(
                    "Invalid format. Expected name:url (e.g., clap:https://github.com/clap-rs/clap.git)",
                )))
            } else {
                Ok(Some((name, repo)))
            }
        },
    }
}

pub open spec fn invalid_source_skill_message(skill: Seq<char>) -> Seq<char> {
    "Invalid source skill '"@ + skill + "': must match [a-zA-Z0-9_-]+"@
}

/// What a target means, given whether the repository part names an existing path.
pub open spec fn install_target_spec(target: Seq<char>, skill: Option<Seq<char>>, ssh: bool, on_disk: bool)
    -> Result<(Option<Seq<char>>, Seq<char>, Option<Seq<char>>), Seq<char>>
{
    if target.len() == 0 {
        Err("Install target cannot be empty"@)
    } else if skill is Some && !is_skill_name(skill->0) {
        Err(invalid_source_skill_message(skill->0))
    } else {
        match named_target_spec(target) {
            Err(m) => Err(m),
            Ok(Some((name, repo))) => match resolve_spec(repo, ssh, on_disk) {
                Err(m) => Err(m),
                Ok((url, found)) => Ok((Some(name), url, or_else(skill, found))),
            },
            Ok(None) => match resolve_spec(target, ssh, on_disk) {
                Err(m) => Err(m),
                Ok((url, found)) => Ok((None, url, or_else(skill, found))),
            },
        }
    }
}

/// The result of reading a target, as plain values.
pub open spec fn target_result_view(r: Result<InstallTarget, InstallInvalidFormat>)
    -> Result<(Option<Seq<char>>, Seq<char>, Option<Seq<char>>), Seq<char>>
{
    match r {
        Ok(t) => Ok(t.view()),
        Err(e) => Err(e.message@),
    }
}

/// Reads the target of `kt install`: `name:url`, or a repository (URL, path or GitHub
/// shorthand). An explicit `--skill` wins over one named by the shorthand. Whether the
/// repository part is an existing path is looked up on disk when it matters.
pub fn parse_install_target(target: &str, options: &InstallOptions) -> (r: Result<InstallTarget, InstallInvalidFormat>)
    ensures
        exists|on_disk: bool| target_result_view(r) == install_target_spec(target@, opt_view(options.skill), options.ssh, on_disk),
{
    if target.is_empty() {
        let r = Err(InstallInvalidFormat::new(owned("Install target cannot be empty")));
        assert(target_result_view(r) == install_target_spec(target@, opt_view(options.skill), options.ssh, false));
        return r;
    }
    if let Some(source_skill) = &options.skill {
        if !is_skill_name_str(source_skill.as_str()) {
            let r = Err(InstallInvalidFormat::new(concat(
                &concat("Invalid source skill '", source_skill.as_str()),
                "': must match [a-zA-Z0-9_-]+",
            )));
            assert(target_result_view(r) == install_target_spec(target@, opt_view(options.skill), options.ssh, false));
            return r;
        }
    }
    match parse_named_target(target) {
        Err(e) => {
            let r = Err(e);
            assert(target_result_view(r) == install_target_spec(target@, opt_view(options.skill), options.ssh, false));
            r
        },
        Ok(Some((name, repo))) => {
            let resolved = resolve_repo_target(repo.as_str(), options.ssh);
            let ghost w = choose|on_disk: bool| {
                &&& (resolved is Ok <==> resolve_spec(repo@, options.ssh, on_disk) is Ok)
                &&& (resolved matches Ok(t) ==> resolve_spec(repo@, options.ssh, on_disk) == Ok::<(Seq<char>, Option<Seq<char>>), Seq<char>>(t.view()))
                &&& (resolved matches Err(e) ==> resolve_spec(repo@, options.ssh, on_disk) == Err::<(Seq<char>, Option<Seq<char>>), Seq<char>>(e.message@))
            };
            match resolved {
                Err(e) => {
                    let r = Err(e);
                    assert(target_result_view(r) == install_target_spec(target@, opt_view(options.skill), options.ssh, w));
                    r
                },
                Ok(t) => {
                    let source_skill = match &options.skill {
                        Some(s) => Some(s.clone()),
                        None => t.source_skill,
                    };
                    let r = Ok(InstallTarget::Named { name, repo: t.repo, source_skill });
                    assert(target_result_view(r) == install_target_spec(target@, opt_view(options.skill), options.ssh, w));
                    r
                },
            }
        },
        Ok(None) => {
            let resolved = resolve_repo_target(target, options.ssh);
            let ghost w = choose|on_disk: bool| {
                &&& (resolved is Ok <==> resolve_spec(target@, options.ssh, on_disk) is Ok)
                &&& (resolved matches Ok(t) ==> resolve_spec(target@, options.ssh, on_disk) == Ok::<(Seq<char>, Option<Seq<char>>), Seq<char>>(t.view()))
                &&& (resolved matches Err(e) ==> resolve_spec(target@, options.ssh, on_disk) == Err::<(Seq<char>, Option<Seq<char>>), Seq<char>>(e.message@))
            };
            match resolved {
                Err(e) => {
                    let r = Err(e);
                    assert(target_result_view(r) == install_target_spec(target@, opt_view(options.skill), options.ssh, w));
                    r
                },
                Ok(t) => {
                    let source_skill = match &options.skill {
                        Some(s) => Some(s.clone()),
                        None => t.source_skill,
                    };
                    let r = Ok(InstallTarget::Repo { repo: t.repo, source_skill });
                    assert(target_result_view(r) == install_target_spec(target@, opt_view(options.skill), options.ssh, w));
                    r
                },
            }
        },
    }
}

/// A manifest dependency's repository, resolved: a recognized target is replaced by its
/// clone URL (keeping an explicit source skill over one named by the shorthand); anything
/// else is kept as written.
pub open spec fn manifest_entry_spec(repo: Seq<char>, skill: Option<Seq<char>>, on_disk: bool) -> (Seq<char>, Option<Seq<char>>) {
    match resolve_spec(repo, false, on_disk) {
        Ok((url, found)) => (url, or_else(skill, found)),
        Err(_) => (repo, skill),
    }
}

pub fn resolve_manifest_entry(repo: &str, source_skill: Option<String>) -> (e: ResolvedManifestEntry)
    ensures
        exists|on_disk: bool| (e.repo@, opt_view(e.source_skill)) == manifest_entry_spec(repo@, opt_view(source_skill), on_disk),
{
    let resolved = resolve_repo_target(repo, false);
    let ghost w = choose|on_disk: bool| {
        &&& (resolved is Ok <==> resolve_spec(repo@, false, on_disk) is Ok)
        &&& (resolved matches Ok(t) ==> resolve_spec(repo@, false, on_disk) == Ok::<(Seq<char>, Option<Seq<char>>), Seq<char>>(t.view()))
        &&& (resolved matches Err(e) ==> resolve_spec(repo@, false, on_disk) == Err::<(Seq<char>, Option<Seq<char>>), Seq<char>>(e.message@))
    };
    match resolved {
        Ok(t) => {
            let skill = match source_skill {
                Some(s) => Some(s),
                None => t.source_skill,
            };
            let e = ResolvedManifestEntry { repo: t.repo, source_skill: skill };
            assert((e.repo@, opt_view(e.source_skill)) == manifest_entry_spec(repo@, opt_view(source_skill), w));
            e
        },
        Err(_) => {
            let e = ResolvedManifestEntry { repo: owned(repo), source_skill };
            assert((e.repo@, opt_view(e.source_skill)) == manifest_entry_spec(repo@, opt_view(source_skill), w));
            e
        },
    }
}

/// A skill a repository offers: its name, where it lies in the clone, and whether it is
/// marked deprecated.
#[derive(Debug, Clone)]
pub struct SourceInstallable {
    pub name: String,
    pub path: String,
    pub deprecated: bool,
}

impl Keyed for SourceInstallable {
    open spec fn key_view(&self) -> Seq<char> {
        self.name@
    }

    fn key(&self) -> (r: &str) {
        self.name.as_str()
    }
}

/// A skill directory (or `.md` file) found in a repository without a manifest.
#[derive(Debug, Clone)]
pub struct FallbackSkillDir {
    pub name: String,
    pub path: String,
}

impl Keyed for FallbackSkillDir {
    open spec fn key_view(&self) -> Seq<char> {
        self.name@
    }

    fn key(&self) -> (r: &str) {
        self.name.as_str()
    }
}

/// Questions asked while installing from a repository without a manifest, or with several
/// skills. The terminal prompts implement it; what they answer is up to the user.
pub trait FallbackPrompter {
    /// Whether to look for skill directories in a repository without `skills.json`.
    fn confirm_missing_manifest(&self) -> Result<bool, SkillCopyFailed>;

    /// The positions of the skills chosen among `skills`.
    fn select_skill_dirs(&self, skills: &Vec<FallbackSkillDir>) -> Result<Vec<usize>, SkillCopyFailed>;
}

pub open spec fn source_skill_missing_message(skill: Seq<char>) -> Seq<char> {
    "Source skill '"@ + skill + "' was not found in the repository"@
}

pub open spec fn ambiguous_selection_message() -> Seq<char> {
    "Multiple skills are available; use --all or run interactively to select"@
}

/// The position of the first installable named `name`.
pub fn find_installable(installables: &[SourceInstallable], name: &str) -> (r: Result<usize, SkillCopyFailed>)
    ensures
        match r {
            Ok(i) => i < installables@.len() && installables@[i as int].name@ == name@
                && forall|j: int| 0 <= j < i ==> installables@[j].name@ != name@,
            Err(e) => e.message@ == source_skill_missing_message(name@)
                && forall|j: int| 0 <= j < installables@.len() ==> installables@[j].name@ != name@,
        },
{
    let mut i: usize = 0;
    while i < installables.len()
        invariant
            i <= installables@.len(),
            forall|j: int| 0 <= j < i ==> installables@[j].name@ != name@,
        decreases installables.len() - i,
    {
        if str_eq(installables[i].name.as_str(), name) {
            return Ok(i);
        }
        i += 1;
    }
    Err(SkillCopyFailed::new(concat(&concat("Source skill '", name), "' was not found in the repository")))
}

/// `0, 1, ..., n - 1`.
pub open spec fn all_positions(n: nat) -> Seq<usize> {
    Seq::new(n, |i: int| i as usize)
}

fn positions_upto(n: usize) -> (r: Vec<usize>)
    ensures r@ == all_positions(n as nat),
{
    let mut v: Vec<usize> = Vec::new();
    let mut i: usize = 0;
    while i < n
        invariant
            i <= n,
            v@ == all_positions(i as nat),
        decreases n - i,
    {
        v.push(i);
        i += 1;
        assert(v@ =~= all_positions(i as nat));
    }
    v
}

/// The skill directories offered to the user for the installables, one for each, in order.
pub open spec fn dirs_of_installables(installables: Seq<SourceInstallable>, dirs: Seq<FallbackSkillDir>) -> bool {
    &&& dirs.len() == installables.len()
    &&& forall|i: int| 0 <= i < dirs.len()
        ==> (#[trigger] dirs[i]).name@ == installables[i].name@ && dirs[i].path@ == installables[i].path@
}

pub fn installable_dirs(installables: &[SourceInstallable]) -> (r: Vec<FallbackSkillDir>)
    ensures dirs_of_installables(installables@, r@),
{
    let mut dirs: Vec<FallbackSkillDir> = Vec::new();
    let mut i: usize = 0;
    while i < installables.len()
        invariant
            i <= installables@.len(),
            dirs_of_installables(installables@.subrange(0, i as int), dirs@),
        decreases installables.len() - i,
    {
        dirs.push(FallbackSkillDir { name: installables[i].name.clone(), path: installables[i].path.clone() });
        i += 1;
    }
    assert(installables@.subrange(0, installables@.len() as int) == installables@);
    dirs
}

/// How the skills to install from a repository are chosen: already (`Chosen`), or by asking
/// the user among the given skill directories (`Ask`).
#[derive(Debug)]
pub enum RepoSelection {
    Chosen(Vec<usize>),
    Ask(Vec<FallbackSkillDir>),
}

/// Decides how to choose the skills to install from a repository: the one named by
/// `--skill`; every skill with `--all` or when there is only one; an error when `--no-input`
/// or `--yes` forbid asking; otherwise the user is asked among all of them.
pub fn repo_selection_plan(installables: &[SourceInstallable], options: &InstallOptions)
    -> (r: Result<RepoSelection, SkillCopyFailed>)
    ensures
        options.skill matches Some(s) ==> match r {
            Ok(RepoSelection::Chosen(v)) => v@.len() == 1 && v@[0] < installables@.len()
                && installables@[v@[0] as int].name@ == s@
                && forall|j: int| 0 <= j < v@[0] ==> installables@[j].name@ != s@,
            Ok(RepoSelection::Ask(_)) => false,
            Err(e) => e.message@ == source_skill_missing_message(s@)
                && forall|j: int| 0 <= j < installables@.len() ==> installables@[j].name@ != s@,
        },
        options.skill is None && (options.all || installables@.len() == 1)
            ==> (r matches Ok(RepoSelection::Chosen(v)) && v@ == all_positions(installables@.len())),
        options.skill is None && !(options.all || installables@.len() == 1) && (options.no_input || options.yes)
            ==> (r matches Err(e) && e.message@ == ambiguous_selection_message()),
        options.skill is None && !(options.all || installables@.len() == 1) && !(options.no_input || options.yes)
            ==> (r matches Ok(RepoSelection::Ask(d)) && dirs_of_installables(installables@, d@)),
{
    if let Some(source_skill) = &options.skill {
        return match find_installable(installables, source_skill.as_str()) {
            Ok(i) => {
                let mut v: Vec<usize> = Vec::new();
                v.push(i);
                Ok(RepoSelection::Chosen(v))
            },
            Err(e) => Err(e),
        };
    }
    if options.all || installables.len() == 1 {
        return Ok(RepoSelection::Chosen(positions_upto(installables.len())));
    }
    if options.no_input || options.yes {
        return Err(SkillCopyFailed::new(owned(
            "Multiple skills are available; use --all or run interactively to select",
        )));
    }
    Ok(RepoSelection::Ask(installable_dirs(installables)))
}

/// Chooses the skills to install from a repository as `repo_selection_plan` decides; when
/// the user is asked, the prompter's answer (over the directories of the plan) is the result.
pub fn select_repo_installables<P: FallbackPrompter>(
    installables: &[SourceInstallable],
    options: InstallOptions,
    prompter: &P,
) -> (r: Result<Vec<usize>, SkillCopyFailed>)
    ensures
        options.skill matches Some(s) ==> match r {
            Ok(v) => v@.len() == 1 && v@[0] < installables@.len() && installables@[v@[0] as int].name@ == s@
                && forall|j: int| 0 <= j < v@[0] ==> installables@[j].name@ != s@,
            Err(e) => e.message@ == source_skill_missing_message(s@)
                && forall|j: int| 0 <= j < installables@.len() ==> installables@[j].name@ != s@,
        },
        options.skill is None && (options.all || installables@.len() == 1)
            ==> (r matches Ok(v) && v@ == all_positions(installables@.len())),
        options.skill is None && !(options.all || installables@.len() == 1) && (options.no_input || options.yes)
            ==> (r matches Err(e) && e.message@ == ambiguous_selection_message()),
{
    match repo_selection_plan(installables, &options) {
        Err(e) => Err(e),
        Ok(RepoSelection::Chosen(v)) => Ok(v),
        Ok(RepoSelection::Ask(dirs)) => prompter.select_skill_dirs(&dirs),
    }
}

pub open spec fn no_input_fallback_message() -> Seq<char> {
    "Source repo has no skills.json and --no-input prevents fallback confirmation"@
}

pub open spec fn cancelled_fallback_message() -> Seq<char> {
    "Installation cancelled because source repo has no skills.json"@
}

/// Where the skills copied from a cloned repository come from.
#[derive(Debug, Clone, Copy, PartialEq, Eq, Structural)]
pub enum RepoContentSource {
    /// The one skill named by `--skill`, found among what the repository offers.
    ExactSkill,
    /// Every skill the repository's `skills.json` publishes.
    Published,
    /// The skill directories the user picks, once the fallback is confirmed.
    Fallback,
}

/// Chooses where the skills copied from a cloned repository come from: a named skill comes
/// first, then the repository's `skills.json`, and only without one the fallback directories.
pub fn repo_content_source(source_skill_given: bool, has_manifest: bool) -> (r: RepoContentSource)
    ensures
        r == (if source_skill_given {
            RepoContentSource::ExactSkill
        } else if has_manifest {
            RepoContentSource::Published
        } else {
            RepoContentSource::Fallback
        }),
{
    if source_skill_given {
        RepoContentSource::ExactSkill
    } else if has_manifest {
        RepoContentSource::Published
    } else {
        RepoContentSource::Fallback
    }
}

/// What the user's answer to the fallback question gives: yes goes on, no cancels, and a
/// failed prompt is passed on.
pub fn confirmation_outcome(answer: Result<bool, SkillCopyFailed>) -> (r: Result<(), SkillCopyFailed>)
    ensures
        match answer {
            Ok(true) => r is Ok,
            Ok(false) => r matches Err(e) && e.message@ == cancelled_fallback_message(),
            Err(e) => r == Err::<(), SkillCopyFailed>(e),
        },
{
    match answer {
        Ok(true) => Ok(()),
        Ok(false) => Err(SkillCopyFailed::new(owned("Installation cancelled because source repo has no skills.json"))),
        Err(e) => Err(e),
    }
}

/// Whether a repository without `skills.json` may be searched for skill directories:
/// `--yes` or `--all` allow it, `--no-input` forbids asking, otherwise the user is asked
/// (see `confirmation_outcome`).
pub fn confirm_fallback<P: FallbackPrompter>(options: &InstallOptions, prompter: &P) -> (r: Result<(), SkillCopyFailed>)
    ensures
        (options.yes || options.all) ==> r is Ok,
        (options.no_input && !options.yes && !options.all)
            ==> (r matches Err(e) && e.message@ == no_input_fallback_message()),
{
    if options.no_input && !options.yes && !options.all {
        return Err(SkillCopyFailed::new(owned(
            "Source repo has no skills.json and --no-input prevents fallback confirmation",
        )));
    }
    if !options.yes && !options.all {
        return confirmation_outcome(prompter.confirm_missing_manifest());
    }
    Ok(())
}


/// The rev of a manifest dependency as something `git checkout` takes: a commit or tag as
/// is, a branch as `origin/<branch>`.
pub open spec fn checkout_target_spec(rev: Seq<char>) -> Option<Seq<char>> {
    match parse_rev_spec(rev) {
        None => None,
        Some((RevKind::Branch, v)) => Some("origin/"@ + v),
        Some((_, v)) => Some(v),
    }
}

pub open spec fn invalid_rev_message(rev: Seq<char>) -> Seq<char> {
    "Invalid rev '"@ + rev + "'; use commit:<sha>, branch:<name>, or tag:<name>"@
}

pub fn checkout_target(rev: &str) -> (r: Result<String, SkillCopyFailed>)
    ensures
        match r {
            Ok(t) => checkout_target_spec(rev@) == Some(t@),
            Err(e) => checkout_target_spec(rev@) is None && e.message@ == invalid_rev_message(rev@),
        },
{
    match parse_rev(rev) {
        None => Err(SkillCopyFailed::new(concat(
            &concat("Invalid rev '", rev),
            "'; use commit:<sha>, branch:<name>, or tag:<name>",
        ))),
        Some((RevKind::Branch, value)) => Ok(concat("origin/", value.as_str())),
        Some((_, value)) => Ok(value),
    }
}

impl SourceInstallable {
    pub open spec fn view(&self) -> (Seq<char>, Seq<char>, bool) {
        (self.name@, self.path@, self.deprecated)
    }
}

/// What one publish entry of a source repository's manifest offers, with its path inside
/// the clone; a published dependency must be a local path dependency.
pub open spec fn published_item(deps: Map<Seq<char>, DependencyEntry>, clone_dir: Seq<char>, e: PublishEntry)
    -> Result<(Seq<char>, Seq<char>, bool), Seq<char>>
{
    match e {
        PublishEntry::Dependency(name) => {
            if !deps.contains_key(name@) {
                Err("Published skill '"@ + name@ + "' does not match a local dependency"@)
            } else {
                match deps[name@].path {
                    None => Err("Published skill '"@ + name@ + "' is not a local path dependency"@),
                    Some(p) => Ok((name@, join_path_spec(clone_dir, p@), false)),
                }
            }
        },
        PublishEntry::Object(o) => Ok((o.skill@, join_path_spec(clone_dir, o.path@), o.deprecated)),
    }
}

/// Position `i` answers with the error of publish entry `i`, if any.
pub open spec fn published_checks(deps: Map<Seq<char>, DependencyEntry>, clone_dir: Seq<char>, publish: Seq<PublishEntry>)
    -> spec_fn(int) -> Option<Seq<char>>
{
    |i: int| match published_item(deps, clone_dir, publish[i]) {
        Err(m) => Some(m),
        Ok(_) => None::<Seq<char>>,
    }
}

pub open spec fn nothing_published_message() -> Seq<char> {
    "Source skills.json does not declare any published skills"@
}

pub open spec fn invalid_published_source_message(name: Seq<char>) -> Seq<char> {
    "Source published skill name '"@ + name + "' is invalid: must match [a-zA-Z0-9_-]+"@
}

pub open spec fn missing_published_path_message(path: Seq<char>) -> Seq<char> {
    "Source published path '"@ + path + "' does not exist"@
}

/// The items a source repository's manifest publishes, in manifest order, with their
/// paths in the clone: an error when nothing is published or an entry is not usable.
pub fn published_items(manifest: &Manifest, clone_dir: &str) -> (r: Result<Vec<SourceInstallable>, SkillCopyFailed>)
    requires manifest.wf(),
    ensures
        manifest.publish@.len() == 0 ==> (r matches Err(e) && e.message@ == nothing_published_message()),
        manifest.publish@.len() > 0
            && first_some(manifest.publish@.len() as int, published_checks(manifest.deps(), clone_dir@, manifest.publish@)) is Some
            ==> (r matches Err(e) && Some(e.message@)
                == first_some(manifest.publish@.len() as int, published_checks(manifest.deps(), clone_dir@, manifest.publish@))),
        manifest.publish@.len() > 0
            && first_some(manifest.publish@.len() as int, published_checks(manifest.deps(), clone_dir@, manifest.publish@)) is None
            ==> (r matches Ok(v) && v@.len() == manifest.publish@.len()
                && forall|i: int| 0 <= i < v@.len() ==> published_item(manifest.deps(), clone_dir@, manifest.publish@[i])
                    == Ok::<(Seq<char>, Seq<char>, bool), Seq<char>>(#[trigger] v@[i].view())),
{
    let n = manifest.publish.len();
    if n == 0 {
        return Err(SkillCopyFailed::new(owned("Source skills.json does not declare any published skills")));
    }
    let ghost deps = manifest.deps();
    let ghost publish = manifest.publish@;
    let ghost checks = published_checks(deps, clone_dir@, publish);
    let mut items: Vec<SourceInstallable> = Vec::new();
    let mut i: usize = 0;
    while i < n
        invariant
            manifest.wf(), i <= n, n == publish.len(), publish == manifest.publish@, deps == manifest.deps(),
            checks == published_checks(deps, clone_dir@, publish),
            first_some(n as int, checks) == first_some_from(i as int, n as int, checks),
            items@.len() == i,
            forall|k: int| 0 <= k < i ==> published_item(deps, clone_dir@, publish[k])
                == Ok::<(Seq<char>, Seq<char>, bool), Seq<char>>(#[trigger] items@[k].view()),
        decreases n - i,
    {
        match &manifest.publish[i] {
            PublishEntry::Dependency(name) => {
                match manifest.dependencies.get(name.as_str()) {
                    None => {
                        return Err(SkillCopyFailed::new(concat(
                            &concat("Published skill '", name.as_str()),
                            "' does not match a local dependency",
                        )));
                    },
                    Some(dep) => match &dep.path {
                        None => {
                            return Err(SkillCopyFailed::new(concat(
                                &concat("Published skill '", name.as_str()),
                                "' is not a local path dependency",
                            )));
                        },
                        Some(p) => {
                            items.push(SourceInstallable {
                                name: name.clone(),
                                path: join_path(clone_dir, p.as_str()),
                                deprecated: false,
                            });
                        },
                    },
                }
            },
            PublishEntry::Object(o) => {
                items.push(SourceInstallable {
                    name: o.skill.clone(),
                    path: join_path(clone_dir, o.path.as_str()),
                    deprecated: o.deprecated,
                });
            },
        }
        i += 1;
    }
    proof { lemma_first_some_none(0, n as int, checks); }
    Ok(items)
}

/// Why a published item cannot be installed: a name that is not a skill name, or a path
/// that does not exist (`found` says whether it does).
pub open spec fn publish_failure(item: SourceInstallable, found: bool) -> Option<Seq<char>> {
    if !is_skill_name(item.name@) {
        Some(invalid_published_source_message(item.name@))
    } else if !found {
        Some(missing_published_path_message(item.path@))
    } else {
        None
    }
}

/// The outcome of checking published items whose paths were looked up (`found[i]` for item
/// `i`): all of them sorted by name when none fails; otherwise the failure of the failing
/// item that sorts first.
pub open spec fn checked_outcome(items: Seq<SourceInstallable>, found: Seq<bool>, r: Result<Vec<SourceInstallable>, SkillCopyFailed>) -> bool {
    &&& (r is Ok <==> forall|i: int| 0 <= i < items.len() ==> #[trigger] publish_failure(items[i], found[i]) is None)
    &&& (r matches Ok(v) ==> v@.to_multiset() == items.to_multiset() && sorted_by_key(v@))
    &&& (r matches Err(e) ==> exists|k: int| 0 <= k < items.len()
        && #[trigger] publish_failure(items[k], found[k]) == Some(e.message@)
        && forall|j: int| 0 <= j < items.len() && #[trigger] publish_failure(items[j], found[j]) is Some
            ==> lex_le(items[k].name@, items[j].name@))
}

/// Checks published items whose paths were looked up: each name must be a skill name and
/// each path must exist; gives the items sorted by name.
pub fn check_published(items: Vec<SourceInstallable>, found: &Vec<bool>) -> (r: Result<Vec<SourceInstallable>, SkillCopyFailed>)
    requires found@.len() == items@.len(),
    ensures checked_outcome(items@, found@, r),
{
    let ghost its = items@;
    let mut best: Option<usize> = None;
    let mut i: usize = 0;
    while i < items.len()
        invariant
            i <= items@.len(), found@.len() == items@.len(), its == items@,
            match best {
                None => forall|j: int| 0 <= j < i ==> #[trigger] publish_failure(its[j], found@[j]) is None,
                Some(b) => b < i && publish_failure(its[b as int], found@[b as int]) is Some
                    && forall|j: int| 0 <= j < i && #[trigger] publish_failure(its[j], found@[j]) is Some
                        ==> lex_le(its[b as int].name@, its[j].name@),
            },
        decreases items.len() - i,
    {
        let fails = !is_skill_name_str(items[i].name.as_str()) || !found[i];
        assert(fails == publish_failure(its[i as int], found@[i as int]) is Some);
        if fails {
            match best {
                None => {
                    proof { lemma_lex_refl(its[i as int].name@); }
                    best = Some(i);
                },
                Some(b) => {
                    if !str_le(items[b].name.as_str(), items[i].name.as_str()) {
                        proof {
                            lemma_lex_total(its[b as int].name@, its[i as int].name@);
                            lemma_lex_refl(its[i as int].name@);
                            assert forall|j: int| 0 <= j < i + 1 && #[trigger] publish_failure(its[j], found@[j]) is Some
                                implies lex_le(its[i as int].name@, its[j].name@) by {
                                if j < i {
                                    lemma_lex_trans(its[i as int].name@, its[b as int].name@, its[j].name@);
                                }
                            }
                        }
                        best = Some(i);
                    }
                },
            }
        }
        i += 1;
    }
    match best {
        Some(b) => {
            let item = &items[b];
            if !is_skill_name_str(item.name.as_str()) {
                Err(SkillCopyFailed::new(concat(
                    &concat("Source published skill name '", item.name.as_str()),
                    "' is invalid: must match [a-zA-Z0-9_-]+",
                )))
            } else {
                Err(SkillCopyFailed::new(concat(
                    &concat("Source published path '", item.path.as_str()),
                    "' does not exist",
                )))
            }
        },
        None => Ok(sort_by_key(items)),
    }
}

/// The skills a cloned repository publishes, sorted by name, from its manifest and whether
/// the path of each publish entry exists (`found[i]` for entry `i`).
pub fn published_installables_given(manifest: &Manifest, clone_dir: &str, found: &Vec<bool>)
    -> (r: Result<Vec<SourceInstallable>, SkillCopyFailed>)
    requires
        manifest.wf(),
        found@.len() == manifest.publish@.len(),
    ensures
        manifest.publish@.len() == 0 ==> (r matches Err(e) && e.message@ == nothing_published_message()),
        manifest.publish@.len() > 0
            && first_some(manifest.publish@.len() as int, published_checks(manifest.deps(), clone_dir@, manifest.publish@)) is Some
            ==> (r matches Err(e) && Some(e.message@)
                == first_some(manifest.publish@.len() as int, published_checks(manifest.deps(), clone_dir@, manifest.publish@))),
        manifest.publish@.len() > 0
            && first_some(manifest.publish@.len() as int, published_checks(manifest.deps(), clone_dir@, manifest.publish@)) is None
            ==> exists|items: Seq<SourceInstallable>| #![trigger items.to_multiset()] {
                &&& items.len() == manifest.publish@.len()
                &&& forall|i: int| 0 <= i < items.len() ==> published_item(manifest.deps(), clone_dir@, manifest.publish@[i])
                    == Ok::<(Seq<char>, Seq<char>, bool), Seq<char>>(#[trigger] items[i].view())
                &&& checked_outcome(items, found@, r)
            },
{
    match published_items(manifest, clone_dir) {
        Err(e) => Err(e),
        Ok(items) => {
            check_published(items, found)
        },
    }
}

/// The skills a cloned repository publishes, sorted by name. Each name must be a skill
/// name and each path must exist in the clone (looked up on disk, see
/// `published_installables_given`).
pub fn published_installables(manifest: &Manifest, clone_dir: &str) -> (r: Result<Vec<SourceInstallable>, SkillCopyFailed>)
    requires manifest.wf(),
    ensures
        manifest.publish@.len() == 0 ==> (r matches Err(e) && e.message@ == nothing_published_message()),
        manifest.publish@.len() > 0
            && first_some(manifest.publish@.len() as int, published_checks(manifest.deps(), clone_dir@, manifest.publish@)) is Some
            ==> (r matches Err(e) && Some(e.message@)
                == first_some(manifest.publish@.len() as int, published_checks(manifest.deps(), clone_dir@, manifest.publish@))),
        manifest.publish@.len() > 0
            && first_some(manifest.publish@.len() as int, published_checks(manifest.deps(), clone_dir@, manifest.publish@)) is None
            ==> exists|items: Seq<SourceInstallable>, found: Seq<bool>| #![trigger items.to_multiset(), found.len()] {
                &&& items.len() == manifest.publish@.len()
                &&& found.len() == items.len()
                &&& forall|i: int| 0 <= i < items.len() ==> published_item(manifest.deps(), clone_dir@, manifest.publish@[i])
                    == Ok::<(Seq<char>, Seq<char>, bool), Seq<char>>(#[trigger] items[i].view())
                &&& checked_outcome(items, found, r)
            },
{
    let items = match published_items(manifest, clone_dir) {
        Err(e) => {
            return Err(e);
        },
        Ok(items) => items,
    };
    let mut found: Vec<bool> = Vec::new();
    let mut i: usize = 0;
    while i < items.len()
        invariant
            i <= items@.len(),
            found@.len() == i,
        decreases items.len() - i,
    {
        found.push(path_exists(items[i].path.as_str()));
        i += 1;
    }
    let r = published_installables_given(manifest, clone_dir, &found);
    proof {
        if manifest.publish@.len() > 0
            && first_some(manifest.publish@.len() as int, published_checks(manifest.deps(), clone_dir@, manifest.publish@)) is None {
            let its = choose|its: Seq<SourceInstallable>| #![trigger its.to_multiset()] {
                &&& its.len() == manifest.publish@.len()
                &&& forall|i: int| 0 <= i < its.len() ==> published_item(manifest.deps(), clone_dir@, manifest.publish@[i])
                    == Ok::<(Seq<char>, Seq<char>, bool), Seq<char>>(#[trigger] its[i].view())
                &&& checked_outcome(its, found@, r)
            };
            assert(its.to_multiset() == its.to_multiset() && found@.len() == found@.len());
        }
    }
    r
}


impl FallbackSkillDir {
    pub open spec fn view(&self) -> (Seq<char>, Seq<char>) {
        (self.name@, self.path@)
    }
}

/// The skill directories of a listing, in listing order: directories and `.md` files that
/// are not hidden or build folders, named by their safe name when it is not empty.
pub open spec fn fallback_items(entries: Seq<ListedEntry>) -> Seq<(Seq<char>, Seq<char>)>
    decreases entries.len(),
{
    if entries.len() == 0 {
        Seq::empty()
    } else {
        let rest = fallback_items(entries.drop_last());
        let e = entries.last();
        if is_candidate(e) {
            rest.push((safe_name_spec(e.file_name@), e.path@))
        } else {
            rest
        }
    }
}

/// The skill directories of a repository's skills folder, sorted by name.
pub fn fallback_skill_dirs(entries: &Vec<ListedEntry>) -> (r: Vec<FallbackSkillDir>)
    ensures
        sorted_by_key(r@),
        exists|found: Seq<FallbackSkillDir>| #![trigger found.to_multiset()] {
            &&& found.map_values(|d: FallbackSkillDir| d.view()) == fallback_items(entries@)
            &&& r@.to_multiset() == found.to_multiset()
        },
{
    let mut found: Vec<FallbackSkillDir> = Vec::new();
    let mut i: usize = 0;
    while i < entries.len()
        invariant
            i <= entries@.len(),
            found@.map_values(|d: FallbackSkillDir| d.view()) == fallback_items(entries@.subrange(0, i as int)),
        decreases entries.len() - i,
    {
        let e = &entries[i];
        proof {
            assert(entries@.subrange(0, i + 1).drop_last() == entries@.subrange(0, i as int));
            assert(entries@.subrange(0, i + 1).last() == entries@[i as int]);
        }
        let readable = e.is_dir.is_some();
        let is_dir = match e.is_dir { Some(d) => d, None => false };
        if readable && !(starts_with(e.file_name.as_str(), ".") || str_eq(e.file_name.as_str(), "target")
            || str_eq(e.file_name.as_str(), "node_modules")) && (is_dir || ends_with(e.file_name.as_str(), ".md")) {
            let name = safe_skill_name(e.file_name.as_str());
            if !name.as_str().is_empty() {
                let ghost before = found@;
                found.push(FallbackSkillDir { name, path: e.path.clone() });
                assert(found@.map_values(|d: FallbackSkillDir| d.view())
                    == before.map_values(|d: FallbackSkillDir| d.view()).push((safe_name_spec(e.file_name@), e.path@)));
            }
        }
        i += 1;
    }
    assert(entries@.subrange(0, entries@.len() as int) == entries@);
    let ghost unsorted = found@;
    let r = sort_by_key(found);
    assert(r@.to_multiset() == unsorted.to_multiset());
    r
}

/// What to do for one manifest dependency during `kt install` without a target.
#[derive(Debug)]
pub enum BulkStep {
    /// Installed and locked already.
    AlreadyInstalled,
    /// A remote skill's directory exists but it is not locked.
    ExistsUnlocked,
    /// Copy from this local path.
    InstallLocal(String),
    /// Clone this repository.
    InstallRemote(ResolvedManifestEntry),
    /// The dependency declares neither repo nor path.
    MissingSource(String),
}

pub open spec fn missing_source_message(name: Seq<char>) -> Seq<char> {
    "Error installing "@ + name + ": dependency must declare repo or path"@
}

/// Decides the step for dependency `name`, given whether its skill directory exists and
/// whether it is locked.
pub fn plan_bulk_entry(name: &str, entry: &DependencyEntry, dir_exists: bool, locked: bool) -> (r: BulkStep)
    ensures
        dir_exists && locked ==> r is AlreadyInstalled,
        !(dir_exists && locked) && dir_exists && entry.repo is Some ==> r is ExistsUnlocked,
        !(dir_exists && locked) && !(dir_exists && entry.repo is Some) && entry.path is Some
            ==> (r matches BulkStep::InstallLocal(p) && p@ == entry.path->0@),
        !(dir_exists && locked) && !(dir_exists && entry.repo is Some) && entry.path is None && entry.repo is None
            ==> (r matches BulkStep::MissingSource(m) && m@ == missing_source_message(name@)),
        !(dir_exists && locked) && !(dir_exists && entry.repo is Some) && entry.path is None && entry.repo is Some
            ==> (r matches BulkStep::InstallRemote(res) && exists|on_disk: bool| (res.repo@, opt_view(res.source_skill))
                == manifest_entry_spec(entry.repo->0@, Some(name@), on_disk)),
{
    if dir_exists && locked {
        return BulkStep::AlreadyInstalled;
    }
    if dir_exists && entry.repo.is_some() {
        return BulkStep::ExistsUnlocked;
    }
    if let Some(path) = &entry.path {
        return BulkStep::InstallLocal(path.clone());
    }
    match &entry.repo {
        None => BulkStep::MissingSource(concat(&concat("Error installing ", name), ": dependency must declare repo or path")),
        Some(repo) => BulkStep::InstallRemote(resolve_manifest_entry(repo.as_str(), Some(owned(name)))),
    }
}

/// What `kt install` reports after installing every declared skill: the errors met, in
/// order, and whether the lock file and the manifest changed (and so are saved).
#[derive(Debug)]
pub struct BulkReport {
    pub errors: Vec<String>,
    pub lockfile_changed: bool,
    pub manifest_changed: bool,
}

pub open spec fn install_error_message(name: Seq<char>, reason: Seq<char>) -> Seq<char> {
    "Error installing "@ + name + ": "@ + reason
}

impl BulkReport {
    pub fn new() -> (r: Self)
        ensures
            r.errors@.len() == 0,
            !r.lockfile_changed,
            !r.manifest_changed,
    {
        BulkReport { errors: Vec::new(), lockfile_changed: false, manifest_changed: false }
    }

    /// Installing `name` failed for `reason`.
    pub fn install_failed(&mut self, name: &str, reason: &str)
        ensures
            final(self).errors@.len() == old(self).errors@.len() + 1,
            final(self).errors@.drop_last() == old(self).errors@,
            final(self).errors@.last()@ == install_error_message(name@, reason@),
            final(self).lockfile_changed == old(self).lockfile_changed,
            final(self).manifest_changed == old(self).manifest_changed,
    {
        let message = concat(&concat(&concat("Error installing ", name), ": "), reason);
        self.errors.push(message);
        assert(self.errors@.drop_last() =~= old(self).errors@);
    }

    /// A declared skill has no source to install from; `message` says why.
    pub fn source_missing(&mut self, message: String)
        ensures
            final(self).errors@ == old(self).errors@.push(message),
            final(self).lockfile_changed == old(self).lockfile_changed,
            final(self).manifest_changed == old(self).manifest_changed,
    {
        self.errors.push(message);
    }

    /// A skill was installed and locked; `declared` says whether its manifest entry changed.
    pub fn installed(&mut self, declared: bool)
        ensures
            final(self).errors@ == old(self).errors@,
            final(self).lockfile_changed,
            final(self).manifest_changed == (old(self).manifest_changed || declared),
    {
        self.lockfile_changed = true;
        self.manifest_changed = self.manifest_changed || declared;
    }
}

/// Records a skill installed from a local path: locked at the local commit, with the path
/// as its repo.
pub fn record_local_install(lockfile: &mut Lockfile, name: String, path: String)
    requires old(lockfile).wf(),
    ensures
        final(lockfile).wf(),
        final(lockfile).locked() == old(lockfile).locked().insert(name@, final(lockfile).locked()[name@]),
        final(lockfile).locked()[name@].commit@ == LOCAL_COMMIT@,
        final(lockfile).locked()[name@].repo == path,
{
    lockfile.insert(name, LockEntry { commit: owned(LOCAL_COMMIT), repo: path });
}

/// Records a skill cloned for a manifest dependency: locked at `commit` from the resolved
/// repository; when resolving changed the declared repository, the manifest is rewritten to
/// it (keeping the rev). True when the manifest changed.
pub fn record_remote_install(
    manifest: &mut Manifest,
    lockfile: &mut Lockfile,
    name: &str,
    declared_repo: &str,
    resolved_repo: &str,
    rev: Option<String>,
    commit: String,
) -> (changed: bool)
    requires old(manifest).wf(), old(lockfile).wf(),
    ensures
        final(manifest).wf(), final(lockfile).wf(),
        final(lockfile).locked() == old(lockfile).locked().insert(name@, final(lockfile).locked()[name@]),
        final(lockfile).locked()[name@].commit == commit,
        final(lockfile).locked()[name@].repo@ == resolved_repo@,
        changed == (declared_repo@ != resolved_repo@),
        changed ==> final(manifest).deps() == old(manifest).deps().insert(name@, final(manifest).deps()[name@]),
        changed ==> (final(manifest).deps()[name@].repo matches Some(r) && r@ == resolved_repo@),
        changed ==> final(manifest).deps()[name@].path is None && final(manifest).deps()[name@].rev == rev,
        !changed ==> final(manifest).deps() == old(manifest).deps(),
        final(manifest).publish@ == old(manifest).publish@,
{
    lockfile.insert(owned(name), LockEntry { commit, repo: owned(resolved_repo) });
    let changed = !str_eq(declared_repo, resolved_repo);
    if changed {
        manifest.add_remote_dependency(owned(name), owned(resolved_repo), rev);
    }
    changed
}

/// Records skills installed together from one repository at one commit: each is declared
/// as a remote dependency on the repository and locked.
pub fn record_repo_install(manifest: &mut Manifest, lockfile: &mut Lockfile, names: &Vec<String>, repo: &str, commit: &str)
    requires old(manifest).wf(), old(lockfile).wf(),
    ensures
        final(manifest).wf(), final(lockfile).wf(),
        final(manifest).publish@ == old(manifest).publish@,
        forall|k: Seq<char>| #[trigger] final(manifest).deps().contains_key(k)
            <==> old(manifest).deps().contains_key(k) || names@.map_values(|n: String| n@).contains(k),
        forall|k: Seq<char>| #[trigger] final(lockfile).locked().contains_key(k)
            <==> old(lockfile).locked().contains_key(k) || names@.map_values(|n: String| n@).contains(k),
        forall|i: int| 0 <= i < names@.len() ==> {
            &&& final(manifest).deps()[#[trigger] names@[i]@].repo matches Some(r) && r@ == repo@
            &&& final(manifest).deps()[names@[i]@].path is None
            &&& final(manifest).deps()[names@[i]@].rev is None
            &&& final(lockfile).locked()[names@[i]@].repo@ == repo@
            &&& final(lockfile).locked()[names@[i]@].commit@ == commit@
        },
        forall|k: Seq<char>| !names@.map_values(|n: String| n@).contains(k) ==> {
            &&& #[trigger] final(manifest).deps().contains_key(k) ==> final(manifest).deps()[k] == old(manifest).deps()[k]
            &&& final(lockfile).locked().contains_key(k) ==> final(lockfile).locked()[k] == old(lockfile).locked()[k]
        },
{
    let ghost m0 = manifest.deps();
    let ghost l0 = lockfile.locked();
    let ghost views = names@.map_values(|n: String| n@);
    let mut i: usize = 0;
    while i < names.len()
        invariant
            i <= names@.len(),
            manifest.wf(), lockfile.wf(),
            manifest.publish@ == old(manifest).publish@,
            m0 == old(manifest).deps(), l0 == old(lockfile).locked(),
            views == names@.map_values(|n: String| n@),
            forall|k: Seq<char>| #[trigger] manifest.deps().contains_key(k)
                <==> m0.contains_key(k) || views.subrange(0, i as int).contains(k),
            forall|k: Seq<char>| #[trigger] lockfile.locked().contains_key(k)
                <==> l0.contains_key(k) || views.subrange(0, i as int).contains(k),
            forall|j: int| 0 <= j < i ==> {
                &&& manifest.deps()[#[trigger] names@[j]@].repo matches Some(r) && r@ == repo@
                &&& manifest.deps()[names@[j]@].path is None
                &&& manifest.deps()[names@[j]@].rev is None
                &&& lockfile.locked()[names@[j]@].repo@ == repo@
                &&& lockfile.locked()[names@[j]@].commit@ == commit@
            },
            forall|k: Seq<char>| !views.subrange(0, i as int).contains(k) ==> {
                &&& #[trigger] manifest.deps().contains_key(k) ==> manifest.deps()[k] == m0[k]
                &&& lockfile.locked().contains_key(k) ==> lockfile.locked()[k] == l0[k]
            },
        decreases names.len() - i,
    {
        let ghost before_views = views.subrange(0, i as int);
        manifest.add_remote_dependency(names[i].clone(), owned(repo), None);
        lockfile.insert(names[i].clone(), LockEntry { commit: owned(commit), repo: owned(repo) });
        proof {
            assert(views[i as int] == names@[i as int]@);
            assert(views.subrange(0, i + 1) == before_views.push(names@[i as int]@));
            assert forall|k: Seq<char>| views.subrange(0, i + 1).contains(k)
                <==> before_views.contains(k) || k == names@[i as int]@ by {
                if k == names@[i as int]@ {
                    assert(views.subrange(0, i + 1)[i as int] == k);
                }
                if before_views.contains(k) {
                    let w = before_views.index_of(k);
                    assert(views.subrange(0, i + 1)[w] == k);
                }
            }
            assert forall|k: Seq<char>| !views.subrange(0, i + 1).contains(k) implies {
                &&& #[trigger] manifest.deps().contains_key(k) ==> manifest.deps()[k] == m0[k]
                &&& lockfile.locked().contains_key(k) ==> lockfile.locked()[k] == l0[k]
            } by {
                assert(views.subrange(0, i + 1)[i as int] == names@[i as int]@);
                if before_views.contains(k) {
                    let w = before_views.index_of(k);
                    assert(views.subrange(0, i + 1)[w] == k);
                }
            }
        }
        i += 1;
    }
    assert(views.subrange(0, names@.len() as int) == views);
}

/// Of the selected skills (positions in `installables`, in selection order), those that
/// `kt install <repo>` installs: the ones not declared in the manifest and whose skill
/// directory is not on disk (`on_disk[k]` for the `k`-th selected skill).
pub open spec fn repo_install_keeps(deps: Map<Seq<char>, DependencyEntry>, installables: Seq<SourceInstallable>,
    selected: Seq<usize>, on_disk: Seq<bool>) -> Seq<usize>
    decreases selected.len(),
{
    if selected.len() == 0 {
        Seq::empty()
    } else {
        let prev = repo_install_keeps(deps, installables, selected.drop_last(), on_disk.drop_last());
        let k = selected.len() - 1;
        if !deps.contains_key(installables[selected[k] as int].name@) && !on_disk[k] {
            prev.push(selected[k])
        } else {
            prev
        }
    }
}

pub open spec fn nothing_to_install_message() -> Seq<char> {
    "No selected skills can be installed because they already exist"@
}

/// Decides which selected skills of a repository are installed: those not declared yet and
/// not on disk, in selection order; an error when none is left.
pub fn plan_repo_install(manifest: &Manifest, installables: &[SourceInstallable], selected: &Vec<usize>, on_disk: &Vec<bool>)
    -> (r: Result<Vec<usize>, InstallAlreadyExists>)
    requires
        manifest.wf(),
        on_disk@.len() == selected@.len(),
        forall|k: int| 0 <= k < selected@.len() ==> #[trigger] selected@[k] < installables@.len(),
    ensures
        r is Err <==> repo_install_keeps(manifest.deps(), installables@, selected@, on_disk@).len() == 0,
        r matches Ok(v) ==> v@ == repo_install_keeps(manifest.deps(), installables@, selected@, on_disk@),
        r matches Err(e) ==> e.message@ == nothing_to_install_message(),
{
    let mut keep: Vec<usize> = Vec::new();
    let mut k: usize = 0;
    while k < selected.len()
        invariant
            manifest.wf(),
            k <= selected@.len(),
            on_disk@.len() == selected@.len(),
            forall|j: int| 0 <= j < selected@.len() ==> #[trigger] selected@[j] < installables@.len(),
            keep@ == repo_install_keeps(manifest.deps(), installables@, selected@.subrange(0, k as int), on_disk@.subrange(0, k as int)),
        decreases selected.len() - k,
    {
        proof {
            assert(selected@.subrange(0, k + 1).drop_last() =~= selected@.subrange(0, k as int));
            assert(on_disk@.subrange(0, k + 1).drop_last() =~= on_disk@.subrange(0, k as int));
        }
        let index = selected[k];
        if !manifest.has_skill(installables[index].name.as_str()) && !on_disk[k] {
            keep.push(index);
        }
        k += 1;
    }
    assert(selected@.subrange(0, selected@.len() as int) =~= selected@);
    assert(on_disk@.subrange(0, on_disk@.len() as int) =~= on_disk@);
    if keep.len() == 0 {
        return Err(InstallAlreadyExists::new(owned("No selected skills can be installed because they already exist")));
    }
    Ok(keep)
}

/// Characters of a name kept in a workspace folder name; others become `_`.
pub open spec fn safe_char(c: char) -> char {
    if is_ascii_alnum(c) || c == '_' || c == '-' { c } else { '_' }
}

/// A name made safe for a temporary folder name.
pub fn workspace_safe_name(name: &str) -> (r: String)
    ensures r@ == name@.map_values(|c: char| safe_char(c)),
{
    let v = chars_of(name);
    let mut out = String::new();
    let mut i: usize = 0;
    while i < v.len()
        invariant
            i <= v@.len(),
            v@ == name@,
            out@ == v@.subrange(0, i as int).map_values(|c: char| safe_char(c)),
        decreases v.len() - i,
    {
        let c = v[i];
        let d = if is_ascii_alnum_char(c) || c == '_' || c == '-' { c } else { '_' };
        push_char(&mut out, d);
        assert(v@.subrange(0, i + 1).map_values(|c: char| safe_char(c))
            == v@.subrange(0, i as int).map_values(|c: char| safe_char(c)).push(d));
        i += 1;
    }
    assert(v@.subrange(0, v@.len() as int) == v@);
    out
}

/// The summary after installing skills from a repository.
pub open spec fn installed_count_message(n: nat) -> Seq<char> {
    "Installed "@ + decimal(n) + (if n == 1 { " skill"@ } else { " skills"@ })
}

pub fn installed_count(n: usize) -> (r: String)
    ensures r@ == installed_count_message(n as nat),
{
    let count = u64_to_decimal(n as u64);
    concat(&concat("Installed ", count.as_str()), if n == 1 { " skill" } else { " skills" })
}


pub open spec fn invalid_index_message(index: usize) -> Seq<char> {
    "Selected skill index "@ + decimal(index as nat) + " is invalid"@
}

/// The installable at a selected position.
pub fn selected_installable(installables: &[SourceInstallable], index: usize) -> (r: Result<&SourceInstallable, SkillCopyFailed>)
    ensures
        index < installables@.len() ==> (r matches Ok(x) && *x == installables@[index as int]),
        index >= installables@.len() ==> (r matches Err(e) && e.message@ == invalid_index_message(index)),
{
    if index < installables.len() {
        Ok(&installables[index])
    } else {
        Err(SkillCopyFailed::new(concat(&concat("Selected skill index ", u64_to_decimal(index as u64).as_str()), " is invalid")))
    }
}

pub open spec fn invalid_fallback_index_message(index: usize) -> Seq<char> {
    "Selected fallback skill index "@ + decimal(index as nat) + " is invalid"@
}

/// The fallback skill directory at a selected position.
pub fn selected_fallback_dir(skills: &Vec<FallbackSkillDir>, index: usize) -> (r: Result<&FallbackSkillDir, SkillCopyFailed>)
    ensures
        index < skills@.len() ==> (r matches Ok(x) && *x == skills@[index as int]),
        index >= skills@.len() ==> (r matches Err(e) && e.message@ == invalid_fallback_index_message(index)),
{
    if index < skills.len() {
        Ok(&skills[index])
    } else {
        Err(SkillCopyFailed::new(concat(
            &concat("Selected fallback skill index ", u64_to_decimal(index as u64).as_str()),
            " is invalid",
        )))
    }
}

pub open spec fn no_skill_dirs_message() -> Seq<char> {
    "Source skills directory does not contain skill directories"@
}

pub open spec fn none_selected_message() -> Seq<char> {
    "No fallback skills selected"@
}

/// What the user's pick among fallback skill directories gives: picking nothing is an
/// error, and a failed prompt is passed on.
pub fn fallback_selection_outcome(selection: Result<Vec<usize>, SkillCopyFailed>) -> (r: Result<Vec<usize>, SkillCopyFailed>)
    ensures
        match selection {
            Ok(v) => if v@.len() == 0 {
                r matches Err(e) && e.message@ == none_selected_message()
            } else {
                r matches Ok(w) && w@ == v@
            },
            Err(e) => r == Err::<Vec<usize>, SkillCopyFailed>(e),
        },
{
    match selection {
        Err(e) => Err(e),
        Ok(v) => {
            if v.len() == 0 {
                Err(SkillCopyFailed::new(owned("No fallback skills selected")))
            } else {
                Ok(v)
            }
        },
    }
}

/// Chooses among a repository's fallback skill directories: none is an error, a single one
/// is taken, otherwise the user picks (see `fallback_selection_outcome`).
pub fn choose_fallback_dirs<P: FallbackPrompter>(skills: &Vec<FallbackSkillDir>, prompter: &P) -> (r: Result<Vec<usize>, SkillCopyFailed>)
    ensures
        skills@.len() == 0 ==> (r matches Err(e) && e.message@ == no_skill_dirs_message()),
        skills@.len() == 1 ==> (r matches Ok(v) && v@ == seq![0usize]),
        r matches Ok(v) ==> v@.len() > 0,
{
    if skills.len() == 0 {
        return Err(SkillCopyFailed::new(owned("Source skills directory does not contain skill directories")));
    }
    if skills.len() == 1 {
        let mut v: Vec<usize> = Vec::new();
        v.push(0);
        return Ok(v);
    }
    fallback_selection_outcome(prompter.select_skill_dirs(skills))
}

/// Why `kt install name:url` cannot proceed.
#[derive(Debug)]
pub enum SingleInstallProblem {
    InvalidName(InstallInvalidFormat),
    AlreadyDeclared(InstallAlreadyExists),
}

pub open spec fn invalid_skill_name_message(name: Seq<char>) -> Seq<char> {
    "Invalid skill name '"@ + name + "': must match [a-zA-Z0-9_-]+"@
}

pub open spec fn already_declared_message(name: Seq<char>) -> Seq<char> {
    "Skill '"@ + name + "' already exists in manifest, skipping"@
}

/// Checks a named install: the name must be a skill name not yet in the manifest.
pub fn check_single_install(manifest: &Manifest, name: &str) -> (r: Option<SingleInstallProblem>)
    requires manifest.wf(),
    ensures
        !is_skill_name(name@) ==> (r matches Some(SingleInstallProblem::InvalidName(e))
            && e.message@ == invalid_skill_name_message(name@)),
        is_skill_name(name@) && manifest.deps().contains_key(name@)
            ==> (r matches Some(SingleInstallProblem::AlreadyDeclared(e)) && e.message@ == already_declared_message(name@)),
        is_skill_name(name@) && !manifest.deps().contains_key(name@) ==> r is None,
{
    if !is_skill_name_str(name) {
        return Some(SingleInstallProblem::InvalidName(InstallInvalidFormat::new(concat(
            &concat("Invalid skill name '", name),
            "': must match [a-zA-Z0-9_-]+",
        ))));
    }
    if manifest.has_skill(name) {
        return Some(SingleInstallProblem::AlreadyDeclared(InstallAlreadyExists::new(concat(
            &concat("Skill '", name),
            "' already exists in manifest, skipping",
        ))));
    }
    None
}

} // verus!

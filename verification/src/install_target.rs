//! Reading install targets: git URLs, local paths and GitHub shorthands.

use vstd::prelude::*;
use crate::error::InstallInvalidFormat;
use crate::manifest::{is_skill_name, is_skill_name_str};
use crate::text::{chars_of, concat, has_prefix, has_suffix, is_ascii_alnum, is_ascii_alnum_char,
    owned, split_by, split_seq, starts_with, strip_suffix, trim, trim_seq};

verus! {

/// The view of an optional string.
pub open spec fn opt_view(o: Option<String>) -> Option<Seq<char>> {
    match o {
        Some(s) => Some(s@),
        None => None,
    }
}

/// A repository to clone, and the skill inside it when the target named one.
#[derive(Debug)]
pub struct ResolvedRepoTarget {
    pub repo: String,
    pub source_skill: Option<String>,
}

impl ResolvedRepoTarget {
    pub open spec fn view(&self) -> (Seq<char>, Option<Seq<char>>) {
        (self.repo@, opt_view(self.source_skill))
    }
}

/// Starts with a scheme or prefix that marks a full git URL.
pub open spec fn is_full_git_url(s: Seq<char>) -> bool {
    has_prefix(s, "http://"@) || has_prefix(s, "https://"@) || has_prefix(s, "ssh://"@) || has_prefix(s, "git@"@)
}

/// Starts the way a local path does.
pub open spec fn has_local_prefix(s: Seq<char>) -> bool {
    has_prefix(s, "/"@) || has_prefix(s, "./"@) || has_prefix(s, "../"@) || has_prefix(s, "~/"@)
}

/// A GitHub owner or repository name: letters, digits, `_`, `-` and `.`.
pub open spec fn is_github_component(s: Seq<char>) -> bool {
    s.len() > 0 && forall|i: int| 0 <= i < s.len() ==> {
        let c = #[trigger] s[i];
        is_ascii_alnum(c) || c == '_' || c == '-' || c == '.'
    }
}

/// The clone URL of `owner/repo` on GitHub; a `.git` ending of `repo` is not doubled.
pub open spec fn github_clone_url_spec(owner: Seq<char>, repo: Seq<char>, use_ssh: bool) -> Seq<char> {
    let r = if has_suffix(repo, ".git"@) { repo.subrange(0, repo.len() - ".git"@.len()) } else { repo };
    if use_ssh {
        "git@github.com:"@ + owner + "/"@ + r + ".git"@
    } else {
        "https://github.com/"@ + owner + "/"@ + r + ".git"@
    }
}

pub open spec fn empty_target_message() -> Seq<char> {
    "Install target cannot be empty"@
}

pub open spec fn invalid_target_message() -> Seq<char> {
    "Invalid install target. Use name:repo, a git URL, a local path, owner/repo, or owner/repo/skill."@
}

/// What a target resolves to, given whether the target names an existing path on disk.
pub open spec fn resolve_spec(input: Seq<char>, use_ssh: bool, on_disk: bool)
    -> Result<(Seq<char>, Option<Seq<char>>), Seq<char>>
{
    if trim_seq(input).len() == 0 {
        Err(empty_target_message())
    } else if is_full_git_url(input) || has_local_prefix(input) || on_disk {
        Ok((input, None))
    } else {
        let parts = split_seq(input, Some('/'));
        if parts.len() == 2 && is_github_component(parts[0]) && is_github_component(parts[1]) {
            Ok((github_clone_url_spec(parts[0], parts[1], use_ssh), None))
        } else if parts.len() == 3 && is_github_component(parts[0]) && is_github_component(parts[1])
            && is_skill_name(parts[2]) {
            Ok((github_clone_url_spec(parts[0], parts[1], use_ssh), Some(parts[2])))
        } else {
            Err(invalid_target_message())
        }
    }
}

/// Whether the path `p` exists on disk (`std::path::Path::exists`); the answer depends on the disk.
#[verifier::external_body]
pub(crate) fn path_exists(p: &str) -> bool {
    std::path::Path::new(p).exists()
}

/// A GitHub owner or repository name.
pub fn is_github_component_str(s: &str) -> (r: bool)
    ensures r == is_github_component(s@),
{
    let v = chars_of(s);
    if v.len() == 0 {
        return false;
    }
    let mut i: usize = 0;
    while i < v.len()
        invariant
            i <= v.len(), v@ == s@,
            forall|j: int| 0 <= j < i ==> {
                let c = #[trigger] v@[j];
                is_ascii_alnum(c) || c == '_' || c == '-' || c == '.'
            },
        decreases v.len() - i,
    {
        let c = v[i];
        if !(is_ascii_alnum_char(c) || c == '_' || c == '-' || c == '.') {
            assert(s@[i as int] == c);
            return false;
        }
        i += 1;
    }
    true
}

/// The clone URL of `owner/repo` on GitHub, over SSH or HTTPS.
pub fn github_clone_url(owner: &str, repo: &str, use_ssh: bool) -> (r: String)
    ensures r@ == github_clone_url_spec(owner@, repo@, use_ssh),
{
    let repo = match strip_suffix(repo, ".git") {
        Some(stripped) => stripped,
        None => owned(repo),
    };
    let head = if use_ssh { "git@github.com:" } else { "https://github.com/" };
    concat(&concat(&concat(&concat(head, owner), "/"), repo.as_str()), ".git")
}

/// Resolves a target, given whether it names an existing path on disk.
pub fn resolve_repo_target_given(input: &str, use_ssh: bool, on_disk: bool) -> (r: Result<ResolvedRepoTarget, InstallInvalidFormat>)
    ensures
        r is Ok <==> resolve_spec(input@, use_ssh, on_disk) is Ok,
        r matches Ok(t) ==> resolve_spec(input@, use_ssh, on_disk) == Ok::<(Seq<char>, Option<Seq<char>>), Seq<char>>(t.view()),
        r matches Err(e) ==> resolve_spec(input@, use_ssh, on_disk) == Err::<(Seq<char>, Option<Seq<char>>), Seq<char>>(e.message@),
{
    let trimmed = trim(input);
    if trimmed.as_str().is_empty() {
        return Err(InstallInvalidFormat::new(owned("Install target cannot be empty")));
    }
    if starts_with(input, "http://") || starts_with(input, "https://") || starts_with(input, "ssh://")
        || starts_with(input, "git@") || starts_with(input, "/") || starts_with(input, "./")
        || starts_with(input, "../") || starts_with(input, "~/") || on_disk {
        return Ok(ResolvedRepoTarget { repo: owned(input), source_skill: None });
    }
    let parts = split_by(input, Some('/'));
    proof {
        assert(parts@.len() == split_seq(input@, Some('/')).len());
        assert forall|k: int| 0 <= k < parts@.len() implies #[trigger] parts@[k]@ == split_seq(input@, Some('/'))[k] by {
            assert(parts@.map_values(|p: String| p@)[k] == parts@[k]@);
        }
    }
    if parts.len() == 2 && is_github_component_str(parts[0].as_str()) && is_github_component_str(parts[1].as_str()) {
        return Ok(ResolvedRepoTarget {
            repo: github_clone_url(parts[0].as_str(), parts[1].as_str(), use_ssh),
            source_skill: None,
        });
    }
    if parts.len() == 3 && is_github_component_str(parts[0].as_str()) && is_github_component_str(parts[1].as_str())
        && is_skill_name_str(parts[2].as_str()) {
        return Ok(ResolvedRepoTarget {
            repo: github_clone_url(parts[0].as_str(), parts[1].as_str(), use_ssh),
            source_skill: Some(owned(parts[2].as_str())),
        });
    }
    Err(InstallInvalidFormat::new(owned(
        "Invalid install target. Use name:repo, a git URL, a local path, owner/repo, or owner/repo/skill.",
    )))
}

/// Resolves an install target: a git URL or local path is kept, `owner/repo` and
/// `owner/repo/skill` become GitHub clone URLs, anything else is an error.
/// Whether the target names an existing path on disk is looked up when it matters.
pub fn resolve_repo_target(input: &str, use_ssh: bool) -> (r: Result<ResolvedRepoTarget, InstallInvalidFormat>)
    ensures
        exists|on_disk: bool| {
            &&& (r is Ok <==> resolve_spec(input@, use_ssh, on_disk) is Ok)
            &&& (r matches Ok(t) ==> resolve_spec(input@, use_ssh, on_disk) == Ok::<(Seq<char>, Option<Seq<char>>), Seq<char>>(t.view()))
            &&& (r matches Err(e) ==> resolve_spec(input@, use_ssh, on_disk) == Err::<(Seq<char>, Option<Seq<char>>), Seq<char>>(e.message@))
        },
{
    let local_prefix = starts_with(input, "/") || starts_with(input, "./") || starts_with(input, "../")
        || starts_with(input, "~/");
    let on_disk = if local_prefix { false } else { path_exists(input) };
    resolve_repo_target_given(input, use_ssh, on_disk)
}

/// The GitHub clone URL for a search result's `owner/repo` source, if it is one.
pub open spec fn github_repo_from_source_spec(source: Seq<char>, use_ssh: bool) -> Option<Seq<char>> {
    let parts = split_seq(source, Some('/'));
    if parts.len() == 2 && is_github_component(parts[0]) && is_github_component(parts[1]) {
        Some(github_clone_url_spec(parts[0], parts[1], use_ssh))
    } else {
        None
    }
}

/// The GitHub clone URL for an `owner/repo` source.
pub fn github_repo_from_source(source: &str, use_ssh: bool) -> (r: Option<String>)
    ensures opt_view(r) == github_repo_from_source_spec(source@, use_ssh),
{
    let parts = split_by(source, Some('/'));
    proof {
        assert forall|k: int| 0 <= k < parts@.len() implies #[trigger] parts@[k]@ == split_seq(source@, Some('/'))[k] by {
            assert(parts@.map_values(|p: String| p@)[k] == parts@[k]@);
        }
    }
    if parts.len() == 2 && is_github_component_str(parts[0].as_str()) && is_github_component_str(parts[1].as_str()) {
        Some(github_clone_url(parts[0].as_str(), parts[1].as_str(), use_ssh))
    } else {
        None
    }
}

/// The install target `source/skill` for a GitHub-backed search result.
pub open spec fn install_target_from_source_spec(source: Seq<char>, skill: Seq<char>) -> Option<Seq<char>> {
    if github_repo_from_source_spec(source, false) is None || !is_skill_name(skill) {
        None
    } else {
        Some(source + "/"@ + skill)
    }
}

/// The install target `source/skill`, when `source` is `owner/repo` and `skill` a skill name.
pub fn install_target_from_source(source: &str, skill: &str) -> (r: Option<String>)
    ensures opt_view(r) == install_target_from_source_spec(source@, skill@),
{
    if github_repo_from_source(source, false).is_none() || !is_skill_name_str(skill) {
        return None;
    }
    Some(concat(&concat(source, "/"), skill))
}

/// A skill name: one or more of `a-z A-Z 0-9 _ -`.
pub fn is_valid_skill_name(name: &str) -> (r: bool)
    ensures r == is_skill_name(name@),
{
    is_skill_name_str(name)
}

} // verus!

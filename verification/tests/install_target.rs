use ktesio::install_target::{github_repo_from_source, install_target_from_source, resolve_repo_target, is_valid_skill_name};

#[test]
fn test_resolve_full_urls_and_local_paths() {
    assert_eq!(
        resolve_repo_target("https://github.com/o/r.git", false).unwrap().repo,
        "https://github.com/o/r.git"
    );
    assert_eq!(
        resolve_repo_target("git@github.com:o/r.git", false).unwrap().repo,
        "git@github.com:o/r.git"
    );
    assert_eq!(
        resolve_repo_target("/tmp/local-repo", false).unwrap().repo,
        "/tmp/local-repo"
    );
}

#[test]
fn test_resolve_github_shorthand_https_and_ssh() {
    assert_eq!(
        resolve_repo_target("hashicorp/agent-skills", false).unwrap().repo,
        "https://github.com/hashicorp/agent-skills.git"
    );
    assert_eq!(
        resolve_repo_target("hashicorp/agent-skills", true).unwrap().repo,
        "git@github.com:hashicorp/agent-skills.git"
    );
}

#[test]
fn test_resolve_github_skill_shorthand() {
    let resolved = resolve_repo_target("hashicorp/agent-skills/run-acceptance-tests", false).unwrap();

    assert_eq!(resolved.repo, "https://github.com/hashicorp/agent-skills.git");
    assert_eq!(resolved.source_skill.as_deref(), Some("run-acceptance-tests"));
}

#[test]
fn test_resolve_invalid_shorthand() {
    assert!(resolve_repo_target("", false).is_err());
    assert!(resolve_repo_target("   ", false).is_err());
    assert!(resolve_repo_target("nameonly", false).is_err());
    assert!(resolve_repo_target("owner/repo/bad/name", false).is_err());
    assert!(resolve_repo_target("owner/repo/bad.name", false).is_err());
}

#[test]
fn test_search_source_helpers() {
    assert_eq!(
        github_repo_from_source("owner/repo", false).as_deref(),
        Some("https://github.com/owner/repo.git")
    );
    assert_eq!(
        install_target_from_source("owner/repo", "skill").as_deref(),
        Some("owner/repo/skill")
    );
    assert!(github_repo_from_source("owner/repo/extra", false).is_none());
    assert!(install_target_from_source("domain.com", "skill").is_none());
}

#[test]
fn test_resolve_strips_git_suffix_once() {
    assert_eq!(
        resolve_repo_target("owner/repo.git", false).unwrap().repo,
        "https://github.com/owner/repo.git"
    );
    assert_eq!(
        resolve_repo_target("", false).unwrap_err().to_string(),
        "Install target cannot be empty"
    );
}

#[test]
fn test_is_valid_skill_name_accepts_only_name_characters() {
    assert!(is_valid_skill_name("docs_v2-beta"));
    assert!(!is_valid_skill_name(""));
    assert!(!is_valid_skill_name("docs.v2"));
    assert!(!is_valid_skill_name("a/b"));
}

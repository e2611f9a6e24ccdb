use ktesio::init::{
    adopt_after_lookup, adopt_from_lock, init_path_outcome, adopt_local, adoption_summary, check_init_path, exact_installable_match,
    is_remote_lock_entry, plan_adoption, sanitize_temp_name, unique_suffix, adoption_clone_dir_name,
    adoption_clone_dir_name_now, AdoptionPlan, AdoptionState, LookupResult,
    RemoteAdoption,
};
use ktesio::lockfile::{is_valid_commit, LockEntry, Lockfile};
use ktesio::manifest::Manifest;
use ktesio::skills_sh::SkillSearchResult;

#[test]
fn test_init_path_not_found() {
    let result = check_init_path("/nonexistent/path");
    assert!(result.is_err());
    assert_eq!(result.unwrap_err().to_string(), "Error: path '/nonexistent/path' does not exist");
    assert!(check_init_path("/").is_ok());
}

#[test]
fn test_init_helpers_match_installable_results_and_sanitize_names() {
    let results = vec![
        SkillSearchResult {
            id: "one".to_string(),
            name: "one".to_string(),
            source: "example/one".to_string(),
            skill: "docs".to_string(),
            repo: None,
            installs: 0,
            url: None,
            install_target: None,
            installable: true,
        },
        SkillSearchResult {
            id: "two".to_string(),
            name: "two".to_string(),
            source: "example/two".to_string(),
            skill: "docs".to_string(),
            repo: Some("https://github.com/example/docs.git".to_string()),
            installs: 0,
            url: None,
            install_target: Some("example/docs".to_string()),
            installable: true,
        },
    ];

    let matched = exact_installable_match("docs", &results).unwrap();
    assert_eq!(matched.repo.as_deref(), Some("https://github.com/example/docs.git"));
    assert_eq!(sanitize_temp_name("bad name!"), "bad-name-");
    assert!(unique_suffix() > 0);
    assert!(is_valid_commit(&"a".repeat(40)));
    assert!(!is_valid_commit("short"));
    assert!(exact_installable_match("other", &results).is_none());
}

#[test]
fn test_init_adopts_existing_skill_from_resolver_as_remote_dependency_and_lock() {
    let mut manifest = Manifest::new();
    let mut lockfile = Lockfile::new();
    let mut state = AdoptionState::new();
    assert_eq!(plan_adoption(&manifest, &lockfile, "docs", state.remote_enabled), AdoptionPlan::Lookup);
    let warning = adopt_after_lookup(
        &mut manifest,
        &mut lockfile,
        &mut state,
        "docs",
        LookupResult::Found(RemoteAdoption {
            repo: "https://github.com/example/docs.git".to_string(),
            commit: "a".repeat(40),
            source_skill: Some("docs".to_string()),
        }),
    );
    assert!(warning.is_none());
    assert_eq!(
        manifest.dependencies.get("docs").unwrap().repo.as_deref(),
        Some("https://github.com/example/docs.git")
    );
    assert_eq!(lockfile.entry("docs").unwrap().commit, "a".repeat(40));
    assert!(state.lockfile_changed);
    assert_eq!(adoption_summary(&state), vec!["Resolved 1 existing skill directory as remote dependencies."]);
}

#[test]
fn test_init_falls_back_to_local_when_remote_commit_is_invalid() {
    let mut manifest = Manifest::new();
    let mut lockfile = Lockfile::new();
    let mut state = AdoptionState::new();
    adopt_after_lookup(
        &mut manifest,
        &mut lockfile,
        &mut state,
        "local",
        LookupResult::Found(RemoteAdoption {
            repo: "https://github.com/example/local.git".to_string(),
            commit: "not-a-commit".to_string(),
            source_skill: None,
        }),
    );
    assert_eq!(manifest.dependencies.get("local").unwrap().path.as_deref(), Some(".agents/skills/local"));
    assert!(!state.lockfile_changed);
    assert!(lockfile.entry("local").is_none());
}

#[test]
fn test_init_disables_remote_resolution_after_error() {
    let mut manifest = Manifest::new();
    let mut lockfile = Lockfile::new();
    let mut state = AdoptionState::new();
    let warning = adopt_after_lookup(
        &mut manifest,
        &mut lockfile,
        &mut state,
        "alpha",
        LookupResult::Failed("skills.sh unavailable".to_string()),
    );
    assert_eq!(
        warning.as_deref(),
        Some("Remote adoption unavailable after checking 'alpha': skills.sh unavailable. Remaining existing skills will be adopted as local path dependencies.")
    );
    assert!(!state.remote_enabled);
    assert_eq!(plan_adoption(&manifest, &lockfile, "beta", state.remote_enabled), AdoptionPlan::Local);
    adopt_local(&mut manifest, &mut state, "beta");
    assert_eq!(manifest.dependencies.get("alpha").unwrap().path.as_deref(), Some(".agents/skills/alpha"));
    assert_eq!(manifest.dependencies.get("beta").unwrap().path.as_deref(), Some(".agents/skills/beta"));
    assert_eq!(adoption_summary(&state), vec!["Adopted 2 existing local skill directories as dependencies."]);
}

#[test]
fn test_init_adopts_remote_lock_entry_without_resolver() {
    let mut manifest = Manifest::new();
    let mut lockfile = Lockfile::new();
    lockfile.insert(
        "docs".to_string(),
        LockEntry { commit: "a".repeat(40), repo: "https://github.com/example/docs.git".to_string() },
    );
    let mut state = AdoptionState::new();
    assert_eq!(plan_adoption(&manifest, &lockfile, "docs", true), AdoptionPlan::FromLock);
    adopt_from_lock(&mut manifest, &lockfile, &mut state, "docs");
    assert_eq!(
        manifest.dependencies.get("docs").unwrap().repo.as_deref(),
        Some("https://github.com/example/docs.git")
    );
    assert_eq!(state.remote_adopted, 1);
    assert!(!state.lockfile_changed);
}

#[test]
fn test_init_skips_invalid_names_and_existing_dependencies() {
    let mut manifest = Manifest::new();
    manifest.add_local_dependency("local".to_string(), ".agents/skills/local".to_string());
    let lockfile = Lockfile::new();
    assert_eq!(plan_adoption(&manifest, &lockfile, "bad name", true), AdoptionPlan::Skip);
    assert_eq!(plan_adoption(&manifest, &lockfile, "local", true), AdoptionPlan::Skip);
}

#[test]
fn test_remote_lock_entry_rules() {
    let remote = LockEntry { commit: "b".repeat(40), repo: "url".to_string() };
    let local = LockEntry { commit: "0".repeat(40), repo: "skills/x".to_string() };
    let blank = LockEntry { commit: "b".repeat(40), repo: "  ".to_string() };
    assert!(is_remote_lock_entry(&remote));
    assert!(!is_remote_lock_entry(&local));
    assert!(!is_remote_lock_entry(&blank));
}

#[test]
fn test_adoption_clone_dir_names() {
    assert_eq!(adoption_clone_dir_name("my docs", 42, 1_700_000_000_000_000_000), "ktesio-init-adopt-my-docs-42-1700000000000000000");
    assert_eq!(adoption_clone_dir_name("", 0, 0), "ktesio-init-adopt--0-0");
    assert!(adoption_clone_dir_name_now("docs", 7).starts_with("ktesio-init-adopt-docs-7-"));
}

#[test]
fn test_init_path_outcome_follows_the_lookup() {
    assert!(init_path_outcome("/p", true).is_ok());
    assert_eq!(init_path_outcome("/p", false).unwrap_err().message, "Error: path '/p' does not exist");
}

use ktesio::discovery::ListedEntry;
use ktesio::error::SkillCopyFailed;
use ktesio::install::{
    check_published, check_single_install, checkout_target, choose_fallback_dirs, confirm_fallback, confirmation_outcome,
    fallback_selection_outcome, fallback_skill_dirs,
    installed_count, parse_install_target, parse_named_target, plan_bulk_entry, plan_repo_install,
    published_installables, published_installables_given, repo_content_source, repo_selection_plan, installable_dirs,
    BulkReport, RepoContentSource, RepoSelection,
    record_remote_install, record_repo_install, resolve_manifest_entry, select_repo_installables,
    selected_installable, workspace_safe_name, BulkStep, FallbackPrompter, FallbackSkillDir, InstallOptions,
    InstallTarget, SingleInstallProblem, SourceInstallable,
};
use ktesio::lockfile::Lockfile;
use ktesio::manifest::{DependencyEntry, Manifest};

struct FakeFallbackPrompter {
    confirm: bool,
    selections: Vec<usize>,
}

impl FallbackPrompter for FakeFallbackPrompter {
    fn confirm_missing_manifest(&self) -> Result<bool, SkillCopyFailed> {
        Ok(self.confirm)
    }

    fn select_skill_dirs(&self, _skills: &Vec<FallbackSkillDir>) -> Result<Vec<usize>, SkillCopyFailed> {
        Ok(self.selections.clone())
    }
}

#[test]
fn test_parse_install_target_recognizes_named_and_repo_targets() {
    let options = InstallOptions::default();
    match parse_install_target("docs:https://example.com/repo.git", &options).unwrap() {
        InstallTarget::Named { name, repo, source_skill } => {
            assert_eq!(name, "docs");
            assert_eq!(repo, "https://example.com/repo.git");
            assert_eq!(source_skill, None);
        }
        InstallTarget::Repo { .. } => panic!("expected named target"),
    }

    match parse_install_target("https://example.com/repo.git", &options).unwrap() {
        InstallTarget::Repo { repo, source_skill } => {
            assert_eq!(repo, "https://example.com/repo.git");
            assert_eq!(source_skill, None);
        }
        InstallTarget::Named { .. } => panic!("expected repo target"),
    }

    match parse_install_target("docs:hashicorp/agent-skills/run-tests", &options).unwrap() {
        InstallTarget::Named { name, repo, source_skill } => {
            assert_eq!(name, "docs");
            assert_eq!(repo, "https://github.com/hashicorp/agent-skills.git");
            assert_eq!(source_skill.as_deref(), Some("run-tests"));
        }
        InstallTarget::Repo { .. } => panic!("expected named target"),
    }

    assert!(parse_install_target("bad name:url", &options).is_err());
    assert!(parse_install_target("name:", &options).is_err());
    assert!(parse_install_target("", &options).is_err());

    let options = InstallOptions { ssh: true, skill: Some("lint".to_string()), ..InstallOptions::default() };
    match parse_install_target("hashicorp/agent-skills", &options).unwrap() {
        InstallTarget::Repo { repo, source_skill } => {
            assert_eq!(repo, "git@github.com:hashicorp/agent-skills.git");
            assert_eq!(source_skill.as_deref(), Some("lint"));
        }
        InstallTarget::Named { .. } => panic!("expected repo target"),
    }

    let invalid_skill = InstallOptions { skill: Some("bad skill".to_string()), ..InstallOptions::default() };
    assert!(parse_install_target("hashicorp/agent-skills", &invalid_skill).is_err());
}

#[test]
fn test_parse_install_target_error_messages() {
    let options = InstallOptions::default();
    assert_eq!(
        parse_install_target("", &options).unwrap_err().to_string(),
        "Install target cannot be empty"
    );
    assert_eq!(
        parse_install_target("bad name:url", &options).unwrap_err().to_string(),
        "Invalid format. Expected name:url (e.g., clap:https://github.com/clap-rs/clap.git)"
    );
    let invalid_skill = InstallOptions { skill: Some("bad skill".to_string()), ..InstallOptions::default() };
    assert_eq!(
        parse_install_target("owner/repo", &invalid_skill).unwrap_err().to_string(),
        "Invalid source skill 'bad skill': must match [a-zA-Z0-9_-]+"
    );
}

#[test]
fn test_parse_named_target_skips_urls() {
    assert_eq!(parse_named_target("git@github.com:o/r.git").unwrap(), None);
    assert_eq!(parse_named_target("ssh://host/repo").unwrap(), None);
    assert_eq!(parse_named_target("owner/repo").unwrap(), None);
    assert_eq!(
        parse_named_target("docs:owner/repo").unwrap(),
        Some(("docs".to_string(), "owner/repo".to_string()))
    );
}

#[test]
fn test_resolve_manifest_entry_canonicalizes_github_shorthand() {
    let resolved = resolve_manifest_entry("hashicorp/agent-skills/run-tests", None);

    assert_eq!(resolved.repo, "https://github.com/hashicorp/agent-skills.git");
    assert_eq!(resolved.source_skill.as_deref(), Some("run-tests"));

    let explicit_skill = resolve_manifest_entry("hashicorp/agent-skills/run-tests", Some("lint".to_string()));
    assert_eq!(explicit_skill.source_skill.as_deref(), Some("lint"));
}

#[test]
fn test_resolve_manifest_entry_keeps_unrecognized_repo() {
    let resolved = resolve_manifest_entry("not a shorthand", Some("docs".to_string()));

    assert_eq!(resolved.repo, "not a shorthand");
    assert_eq!(resolved.source_skill.as_deref(), Some("docs"));
}

fn installable(name: &str) -> SourceInstallable {
    SourceInstallable { name: name.to_string(), path: name.to_string(), deprecated: false }
}

#[test]
fn test_select_repo_installables_handles_all_single_and_ambiguous() {
    let installables = vec![installable("alpha"), installable("beta")];
    let prompter = FakeFallbackPrompter { confirm: true, selections: vec![1] };

    let all =
        select_repo_installables(&installables, InstallOptions { all: true, ..InstallOptions::default() }, &prompter)
            .unwrap();
    assert_eq!(all, vec![0, 1]);

    let selected = select_repo_installables(&installables, InstallOptions::default(), &prompter).unwrap();
    assert_eq!(selected, vec![1]);

    let no_input = select_repo_installables(
        &installables,
        InstallOptions { no_input: true, ..InstallOptions::default() },
        &prompter,
    );
    assert!(no_input.is_err());

    let yes =
        select_repo_installables(&installables, InstallOptions { yes: true, ..InstallOptions::default() }, &prompter);
    assert!(yes.is_err());

    let single = select_repo_installables(&installables[0..1], InstallOptions::default(), &prompter).unwrap();
    assert_eq!(single, vec![0]);

    let missing_skill = select_repo_installables(
        &installables,
        InstallOptions { skill: Some("missing".to_string()), ..InstallOptions::default() },
        &prompter,
    );
    assert!(missing_skill.is_err());

    let named = select_repo_installables(
        &installables,
        InstallOptions { skill: Some("beta".to_string()), ..InstallOptions::default() },
        &prompter,
    )
    .unwrap();
    assert_eq!(named, vec![1]);
}

#[test]
fn test_confirm_fallback_follows_flags_and_answer() {
    let yes_prompter = FakeFallbackPrompter { confirm: true, selections: vec![] };
    let no_prompter = FakeFallbackPrompter { confirm: false, selections: vec![] };
    assert!(confirm_fallback(&InstallOptions::default(), &yes_prompter).is_ok());
    assert_eq!(
        confirm_fallback(&InstallOptions::default(), &no_prompter).unwrap_err().to_string(),
        "Installation cancelled because source repo has no skills.json"
    );
    assert_eq!(
        confirm_fallback(&InstallOptions { no_input: true, ..InstallOptions::default() }, &yes_prompter)
            .unwrap_err()
            .to_string(),
        "Source repo has no skills.json and --no-input prevents fallback confirmation"
    );
    assert!(confirm_fallback(&InstallOptions { no_input: true, yes: true, ..InstallOptions::default() }, &no_prompter)
        .is_ok());
}

#[test]
fn test_choose_fallback_dirs() {
    let one = vec![FallbackSkillDir { name: "only".to_string(), path: "skills/only".to_string() }];
    let two = vec![
        FallbackSkillDir { name: "alpha".to_string(), path: "skills/alpha".to_string() },
        FallbackSkillDir { name: "beta".to_string(), path: "skills/beta".to_string() },
    ];
    let picks_beta = FakeFallbackPrompter { confirm: true, selections: vec![1] };
    let picks_none = FakeFallbackPrompter { confirm: true, selections: vec![] };
    assert_eq!(choose_fallback_dirs(&one, &picks_none).unwrap(), vec![0]);
    assert_eq!(choose_fallback_dirs(&two, &picks_beta).unwrap(), vec![1]);
    assert_eq!(choose_fallback_dirs(&two, &picks_none).unwrap_err().to_string(), "No fallback skills selected");
    assert_eq!(
        choose_fallback_dirs(&Vec::new(), &picks_beta).unwrap_err().to_string(),
        "Source skills directory does not contain skill directories"
    );
}

#[test]
fn test_checkout_target_by_rev_kind() {
    assert_eq!(checkout_target("branch:main").unwrap(), "origin/main");
    assert_eq!(checkout_target("tag:v1").unwrap(), "v1");
    assert_eq!(checkout_target("commit:abc").unwrap(), "abc");
    assert_eq!(
        checkout_target("main").unwrap_err().to_string(),
        "Invalid rev 'main'; use commit:<sha>, branch:<name>, or tag:<name>"
    );
}

fn entry(name: &str, is_dir: bool) -> ListedEntry {
    ListedEntry { file_name: name.to_string(), path: format!("skills/{}", name), is_dir: Some(is_dir) }
}

#[test]
fn test_fallback_skill_dirs_filters_and_sorts() {
    let dirs = fallback_skill_dirs(&vec![
        entry("beta", true),
        entry(".hidden", true),
        entry("notes.txt", false),
        entry("alpha.md", false),
        entry("target", true),
        entry("node_modules", true),
    ]);
    let names: Vec<&str> = dirs.iter().map(|d| d.name.as_str()).collect();
    assert_eq!(names, vec!["alpha", "beta"]);
    assert_eq!(dirs[0].path, "skills/alpha.md");
}

#[test]
fn test_published_installables_rules() {
    let empty = Manifest::new();
    assert_eq!(
        published_installables(&empty, "/clone").unwrap_err().to_string(),
        "Source skills.json does not declare any published skills"
    );

    let mut remote = Manifest::new();
    remote.add_remote_dependency("docs".to_string(), "url".to_string(), None);
    remote.add_publish_dependency("docs".to_string());
    assert_eq!(
        published_installables(&remote, "/clone").unwrap_err().to_string(),
        "Published skill 'docs' is not a local path dependency"
    );

    let clone = "/".to_string();
    let mut manifest = Manifest::new();
    manifest.add_local_dependency("beta".to_string(), "tmp".to_string());
    manifest.add_publish_dependency("beta".to_string());
    manifest.add_publish_object("alpha".to_string(), "usr".to_string(), true);
    let found = published_installables(&manifest, &clone).unwrap();
    assert_eq!(found.len(), 2);
    assert_eq!(found[0].name, "alpha");
    assert!(found[0].deprecated);
    assert_eq!(found[1].path, "/tmp");

    manifest.add_publish_object("gamma".to_string(), "ktesio-missing-published-path".to_string(), false);
    assert_eq!(
        published_installables(&manifest, &clone).unwrap_err().to_string(),
        "Source published path '/ktesio-missing-published-path' does not exist"
    );

    manifest.add_publish_object("bad name".to_string(), "usr".to_string(), false);
    assert_eq!(
        published_installables(&manifest, &clone).unwrap_err().to_string(),
        "Source published skill name 'bad name' is invalid: must match [a-zA-Z0-9_-]+"
    );
}

#[test]
fn test_plan_bulk_entry_cases() {
    let remote = DependencyEntry { repo: Some("owner/repo".to_string()), path: None, rev: None };
    let local = DependencyEntry { repo: None, path: Some("skills/docs".to_string()), rev: None };
    let neither = DependencyEntry { repo: None, path: None, rev: None };
    assert!(matches!(plan_bulk_entry("docs", &remote, true, true), BulkStep::AlreadyInstalled));
    assert!(matches!(plan_bulk_entry("docs", &remote, true, false), BulkStep::ExistsUnlocked));
    match plan_bulk_entry("docs", &local, false, false) {
        BulkStep::InstallLocal(path) => assert_eq!(path, "skills/docs"),
        other => panic!("unexpected {:?}", other),
    }
    match plan_bulk_entry("docs", &neither, false, false) {
        BulkStep::MissingSource(message) => {
            assert_eq!(message, "Error installing docs: dependency must declare repo or path")
        }
        other => panic!("unexpected {:?}", other),
    }
    match plan_bulk_entry("docs", &remote, false, false) {
        BulkStep::InstallRemote(resolved) => {
            assert_eq!(resolved.repo, "https://github.com/owner/repo.git");
            assert_eq!(resolved.source_skill.as_deref(), Some("docs"));
        }
        other => panic!("unexpected {:?}", other),
    }
}

#[test]
fn test_record_remote_install_rewrites_shorthand() {
    let mut manifest = Manifest::new();
    manifest.add_remote_dependency("docs".to_string(), "owner/repo".to_string(), Some("tag:v1".to_string()));
    let mut lockfile = Lockfile::new();
    let commit = "a".repeat(40);
    let changed = record_remote_install(
        &mut manifest,
        &mut lockfile,
        "docs",
        "owner/repo",
        "https://github.com/owner/repo.git",
        Some("tag:v1".to_string()),
        commit.clone(),
    );
    assert!(changed);
    assert_eq!(lockfile.entry("docs").unwrap().commit, commit);
    let dep = manifest.dependencies.get("docs").unwrap();
    assert_eq!(dep.repo.as_deref(), Some("https://github.com/owner/repo.git"));
    assert_eq!(dep.rev.as_deref(), Some("tag:v1"));

    let unchanged = record_remote_install(
        &mut manifest,
        &mut lockfile,
        "docs",
        "https://github.com/owner/repo.git",
        "https://github.com/owner/repo.git",
        None,
        commit,
    );
    assert!(!unchanged);
}

#[test]
fn test_record_repo_install_declares_and_locks_each() {
    let mut manifest = Manifest::new();
    let mut lockfile = Lockfile::new();
    let commit = "b".repeat(40);
    record_repo_install(&mut manifest, &mut lockfile, &vec!["alpha".to_string(), "beta".to_string()], "url", &commit);
    assert!(manifest.has_skill("alpha"));
    assert!(manifest.has_skill("beta"));
    assert_eq!(lockfile.entry("beta").unwrap().repo, "url");
    assert_eq!(lockfile.entry("alpha").unwrap().commit, commit);
}

#[test]
fn test_check_single_install() {
    let mut manifest = Manifest::new();
    manifest.add_remote_dependency("test".to_string(), "url".to_string(), None);
    match check_single_install(&manifest, "bad name") {
        Some(SingleInstallProblem::InvalidName(e)) => {
            assert_eq!(e.to_string(), "Invalid skill name 'bad name': must match [a-zA-Z0-9_-]+")
        }
        other => panic!("unexpected {:?}", other),
    }
    match check_single_install(&manifest, "test") {
        Some(SingleInstallProblem::AlreadyDeclared(e)) => {
            assert_eq!(e.to_string(), "Skill 'test' already exists in manifest, skipping")
        }
        other => panic!("unexpected {:?}", other),
    }
    assert!(check_single_install(&manifest, "fresh").is_none());
}

#[test]
fn test_small_install_helpers() {
    assert_eq!(workspace_safe_name("bad name!"), "bad_name_");
    assert_eq!(installed_count(1), "Installed 1 skill");
    assert_eq!(installed_count(3), "Installed 3 skills");
    let installables = vec![installable("alpha")];
    assert_eq!(selected_installable(&installables, 0).unwrap().name, "alpha");
    assert_eq!(selected_installable(&installables, 4).unwrap_err().to_string(), "Selected skill index 4 is invalid");
}

#[test]
fn test_prompt_answers_decide_the_fallback() {
    assert!(confirmation_outcome(Ok(true)).is_ok());
    assert_eq!(
        confirmation_outcome(Ok(false)).unwrap_err().to_string(),
        "Installation cancelled because source repo has no skills.json"
    );
    assert_eq!(confirmation_outcome(Err(SkillCopyFailed::new("no tty".to_string()))).unwrap_err().to_string(), "no tty");
    assert_eq!(fallback_selection_outcome(Ok(vec![2, 0])).unwrap(), vec![2, 0]);
    assert_eq!(fallback_selection_outcome(Ok(vec![])).unwrap_err().to_string(), "No fallback skills selected");
    assert_eq!(fallback_selection_outcome(Err(SkillCopyFailed::new("no tty".to_string()))).unwrap_err().to_string(), "no tty");
}

#[test]
fn test_discover_fallback_skill_dirs_filters_and_sorts() {
    let dirs = fallback_skill_dirs(&vec![
        entry("beta", true),
        entry("alpha", true),
        entry(".hidden", true),
        entry("target", true),
        entry("node_modules", true),
        entry("gamma.md", false),
        entry("README.txt", false),
    ]);
    let names: Vec<String> = dirs.into_iter().map(|skill| skill.name).collect();
    assert_eq!(vec!["alpha".to_string(), "beta".to_string(), "gamma".to_string()], names);
}

#[test]
fn test_discover_fallback_skill_dirs_skips_empty_normalized_names() {
    let skills = fallback_skill_dirs(&vec![entry("!!!.md", false), entry("docs.md", false)]);
    assert_eq!(skills.len(), 1);
    assert_eq!(skills[0].name, "docs");
}

#[test]
fn test_discover_repo_installables_fallback_returns_safe_names() {
    let skills = fallback_skill_dirs(&vec![entry("Fancy Skill", true), entry("alpha_beta.md", false)]);
    assert_eq!(
        vec!["Fancy-Skill".to_string(), "alpha_beta".to_string()],
        skills.iter().map(|skill| skill.name.clone()).collect::<Vec<_>>()
    );
}

fn published_manifest() -> Manifest {
    let mut manifest = Manifest::new();
    manifest.add_local_dependency("beta".to_string(), "skills/beta".to_string());
    manifest.add_publish_dependency("beta".to_string());
    manifest.add_publish_object("alpha".to_string(), "skills/alpha".to_string(), true);
    manifest
}

#[test]
fn test_published_installables_given_uses_the_lookups() {
    let manifest = published_manifest();
    let all = published_installables_given(&manifest, "/clone", &vec![true, true]).unwrap();
    let names: Vec<&str> = all.iter().map(|i| i.name.as_str()).collect();
    assert_eq!(names, vec!["alpha", "beta"]);
    assert_eq!(all[0].path, "/clone/skills/alpha");
    assert!(all[0].deprecated);
    assert_eq!(all[1].path, "/clone/skills/beta");
    assert!(!all[1].deprecated);

    assert_eq!(
        published_installables_given(&manifest, "/clone", &vec![false, true]).unwrap_err().to_string(),
        "Source published path '/clone/skills/beta' does not exist"
    );
    assert_eq!(
        published_installables_given(&manifest, "/clone", &vec![false, false]).unwrap_err().to_string(),
        "Source published path '/clone/skills/alpha' does not exist"
    );
    assert_eq!(
        published_installables_given(&Manifest::new(), "/clone", &vec![]).unwrap_err().to_string(),
        "Source skills.json does not declare any published skills"
    );
}

#[test]
fn test_check_published_reports_the_first_failure_by_name() {
    let items = vec![installable("zeta"), installable("bad name"), installable("alpha")];
    assert_eq!(
        check_published(items.clone(), &vec![true, true, false]).unwrap_err().to_string(),
        "Source published path 'alpha' does not exist"
    );
    assert_eq!(
        check_published(items.clone(), &vec![true, true, true]).unwrap_err().to_string(),
        "Source published skill name 'bad name' is invalid: must match [a-zA-Z0-9_-]+"
    );
    let ok = check_published(vec![installable("zeta"), installable("alpha")], &vec![true, true]).unwrap();
    let names: Vec<&str> = ok.iter().map(|i| i.name.as_str()).collect();
    assert_eq!(names, vec!["alpha", "zeta"]);
}

#[test]
fn test_plan_repo_install_skips_declared_and_present_skills() {
    let mut manifest = Manifest::new();
    manifest.add_remote_dependency("alpha".to_string(), "url".to_string(), None);
    let installables = vec![installable("alpha"), installable("beta"), installable("gamma")];
    assert_eq!(plan_repo_install(&manifest, &installables, &vec![2, 0, 1], &vec![false, false, true]).unwrap(), vec![2]);
    assert_eq!(plan_repo_install(&manifest, &installables, &vec![1, 2], &vec![false, false]).unwrap(), vec![1, 2]);
    assert_eq!(
        plan_repo_install(&manifest, &installables, &vec![0, 1], &vec![false, true]).unwrap_err().to_string(),
        "No selected skills can be installed because they already exist"
    );
}

#[test]
fn test_repo_content_source_order() {
    assert_eq!(repo_content_source(true, true), RepoContentSource::ExactSkill);
    assert_eq!(repo_content_source(true, false), RepoContentSource::ExactSkill);
    assert_eq!(repo_content_source(false, true), RepoContentSource::Published);
    assert_eq!(repo_content_source(false, false), RepoContentSource::Fallback);
}

#[test]
fn test_repo_selection_plan_asks_among_all_installables() {
    let installables = vec![installable("alpha"), installable("beta")];
    match repo_selection_plan(&installables, &InstallOptions::default()).unwrap() {
        RepoSelection::Ask(dirs) => {
            let names: Vec<&str> = dirs.iter().map(|d| d.name.as_str()).collect();
            assert_eq!(names, vec!["alpha", "beta"]);
            assert_eq!(dirs[1].path, "beta");
        }
        RepoSelection::Chosen(_) => panic!("expected the user to be asked"),
    }
    let all = InstallOptions { all: true, ..InstallOptions::default() };
    match repo_selection_plan(&installables, &all).unwrap() {
        RepoSelection::Chosen(v) => assert_eq!(v, vec![0, 1]),
        RepoSelection::Ask(_) => panic!("expected every skill"),
    }
    let named = InstallOptions { skill: Some("beta".to_string()), ..InstallOptions::default() };
    match repo_selection_plan(&installables, &named).unwrap() {
        RepoSelection::Chosen(v) => assert_eq!(v, vec![1]),
        RepoSelection::Ask(_) => panic!("expected the named skill"),
    }
    let no_input = InstallOptions { no_input: true, ..InstallOptions::default() };
    assert_eq!(
        repo_selection_plan(&installables, &no_input).unwrap_err().to_string(),
        "Multiple skills are available; use --all or run interactively to select"
    );
    assert_eq!(installable_dirs(&installables).len(), 2);
}

#[test]
fn test_bulk_report_collects_errors_and_changes() {
    let mut report = BulkReport::new();
    assert!(report.errors.is_empty() && !report.lockfile_changed && !report.manifest_changed);
    report.install_failed("docs", "destination missing");
    report.source_missing("Skill web has no source".to_string());
    report.installed(false);
    assert!(report.lockfile_changed && !report.manifest_changed);
    report.installed(true);
    report.installed(false);
    assert!(report.manifest_changed);
    assert_eq!(report.errors, vec!["Error installing docs: destination missing".to_string(), "Skill web has no source".to_string()]);
}

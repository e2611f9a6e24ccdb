use ktesio::error::SearchFailed;
use ktesio::list::collect_statuses;
use ktesio::lockfile::{LockEntry, Lockfile};
use ktesio::maintain::{export_skills, export_summary, record_upgrade, uninstall_skill, upgrade_targets};
use ktesio::manifest::{Manifest, PublishEntry};
use ktesio::publish::{
    add_publish_candidate, check_publish_name, missing_publish_path, publish_candidates, published_summary,
    relative_publish_path, relative_within, PublishCandidate,
};
use ktesio::search::{
    check_search_options, choose_install_target, chosen_target, install_hint, selection_labels, search_install_options, SearchOptions, SearchPrompter,
};
use ktesio::show::skill_details;
use ktesio::skills_sh::SkillSearchResult;

fn lock(commit: &str, repo: &str) -> LockEntry {
    LockEntry { commit: commit.to_string(), repo: repo.to_string() }
}

#[test]
fn test_list_statuses_sorted_with_orphans() {
    let mut manifest = Manifest::new();
    manifest.add_remote_dependency("zeta".to_string(), "https://example.com/z.git".to_string(), None);
    manifest.add_local_dependency("alpha".to_string(), "skills/alpha".to_string());
    manifest.add_remote_dependency("mid".to_string(), "url".to_string(), None);
    let mut lockfile = Lockfile::new();
    lockfile.insert("zeta".to_string(), lock(&"a".repeat(40), "https://example.com/z.git"));
    lockfile.insert("beta".to_string(), lock(&"b".repeat(40), "https://example.com/b.git"));
    let rows = collect_statuses("/p", &manifest, &lockfile, &vec![false, true, false]);
    let names: Vec<&str> = rows.iter().map(|r| r.name.as_str()).collect();
    assert_eq!(names, vec!["alpha", "beta", "mid", "zeta"]);
    assert_eq!(rows[0].status, "installed");
    assert_eq!(rows[0].repo, "skills/alpha");
    assert_eq!(rows[0].commit, "—");
    assert_eq!(rows[1].status, "orphaned");
    assert_eq!(rows[1].path, "/p/.agents/skills/beta");
    assert_eq!(rows[2].status, "not locked");
    assert_eq!(rows[3].status, "missing");
}

#[test]
fn test_show_details_and_not_found() {
    let mut manifest = Manifest::new();
    manifest.add_remote_dependency("docs".to_string(), "url".to_string(), None);
    let mut lockfile = Lockfile::new();
    lockfile.insert("old".to_string(), lock(&"c".repeat(40), "old-url"));
    let details = skill_details("/p", &manifest, &lockfile, "docs", false).unwrap();
    assert_eq!(details.repo, "url");
    assert_eq!(details.commit, "—");
    assert_eq!(details.status, "not installed");
    let orphan = skill_details("/p", &manifest, &lockfile, "old", false).unwrap();
    assert_eq!(orphan.repo, "old-url");
    assert_eq!(orphan.status, "missing");
    assert_eq!(
        skill_details("/p", &manifest, &lockfile, "nope", true).unwrap_err().to_string(),
        "Error: skill 'nope' not found"
    );
}

#[test]
fn test_upgrade_targets_prefer_lockfile() {
    let mut manifest = Manifest::new();
    manifest.add_remote_dependency("declared".to_string(), "url".to_string(), None);
    let mut lockfile = Lockfile::new();
    assert_eq!(upgrade_targets(&manifest, &lockfile), vec!["declared"]);
    lockfile.insert("locked".to_string(), lock(&"a".repeat(40), "url"));
    assert_eq!(upgrade_targets(&manifest, &lockfile), vec!["locked"]);
    record_upgrade(&mut lockfile, "locked", "b".repeat(40));
    assert_eq!(lockfile.entry("locked").unwrap().commit, "b".repeat(40));
    record_upgrade(&mut lockfile, "declared", "c".repeat(40));
    assert!(lockfile.entry("declared").is_none());
}

#[test]
fn test_uninstall_removes_declared_and_locked() {
    let mut manifest = Manifest::new();
    manifest.add_remote_dependency("docs".to_string(), "url".to_string(), None);
    let mut lockfile = Lockfile::new();
    lockfile.insert("docs".to_string(), lock(&"a".repeat(40), "url"));
    assert!(uninstall_skill(&mut manifest, &mut lockfile, "docs").is_ok());
    assert!(!manifest.has_skill("docs"));
    assert!(!lockfile.contains("docs"));
    assert_eq!(
        uninstall_skill(&mut manifest, &mut lockfile, "docs").unwrap_err().to_string(),
        "Error: skill 'docs' not found in manifest"
    );
}

#[test]
fn test_export_declares_locked_and_untracked() {
    let mut manifest = Manifest::new();
    let mut lockfile = Lockfile::new();
    lockfile.insert("docs".to_string(), lock(&"a".repeat(40), "url"));
    let count = export_skills(
        &mut manifest,
        &lockfile,
        &vec![
            ("docs".to_string(), "/p/.agents/skills/docs".to_string()),
            ("extra".to_string(), "/p/.agents/skills/extra".to_string()),
        ],
    );
    assert_eq!(count, 2);
    assert_eq!(manifest.dependencies.get("docs").unwrap().repo.as_deref(), Some("url"));
    assert_eq!(export_summary(2, "skills.json"), "Exported 2 skills to skills.json");
    assert_eq!(export_summary(0, "skills.json"), "No skills to export. Created an empty skills.json manifest.");
}

#[test]
fn test_publish_candidates_filter_entries_and_include_local_dependencies() {
    let mut manifest = Manifest::new();
    manifest.add_local_dependency("local".to_string(), "skills/local".to_string());
    manifest.add_local_dependency("gone".to_string(), "skills/gone".to_string());
    manifest.add_remote_dependency("remote".to_string(), "url".to_string(), None);
    let candidates = publish_candidates(
        "/p",
        &manifest,
        &vec![true, false, true],
        &vec![
            ("remote".to_string(), "/p/.agents/skills/remote".to_string()),
            ("bad name".to_string(), "/p/.agents/skills/bad name".to_string()),
            ("adopt".to_string(), "/p/.agents/skills/adopt".to_string()),
            ("adopt".to_string(), "/p/.agents/skills/adopt2".to_string()),
        ],
    );
    let names: Vec<&str> = candidates.iter().map(|c| c.name.as_str()).collect();
    assert_eq!(names, vec!["adopt", "local"]);
    assert_eq!(candidates[1].path, "/p/skills/local");
    assert_eq!(candidates[0].path, "/p/.agents/skills/adopt");
}

#[test]
fn test_publish_candidate_adopts_and_rejects_outside() {
    let mut manifest = Manifest::new();
    let candidate = PublishCandidate { name: "docs".to_string(), path: "/p/.agents/skills/docs".to_string() };
    add_publish_candidate(&mut manifest, &candidate, "/p", "/p/.agents/skills/docs").unwrap();
    assert_eq!(manifest.dependencies.get("docs").unwrap().path.as_deref(), Some(".agents/skills/docs"));
    assert!(matches!(manifest.publish.last(), Some(PublishEntry::Dependency(name)) if name == "docs"));

    let outside = PublishCandidate { name: "far".to_string(), path: "/elsewhere/far".to_string() };
    assert_eq!(
        add_publish_candidate(&mut manifest, &outside, "/p", "/elsewhere/far").unwrap_err().to_string(),
        "Publish path '/elsewhere/far' is outside the project"
    );
}

#[test]
fn test_publish_add_helpers() {
    assert!(check_publish_name("docs").is_ok());
    assert_eq!(
        check_publish_name("bad name").unwrap_err().to_string(),
        "Invalid published skill name 'bad name': must match [a-zA-Z0-9_-]+"
    );
    assert_eq!(missing_publish_path("x").to_string(), "Publish path 'x' does not exist");
    assert_eq!(relative_publish_path("skills/a", "/p", "/p/skills/a").unwrap(), "skills/a");
    assert!(relative_publish_path("../a", "/p", "/a").is_err());
    assert_eq!(relative_within("/p", "/p").as_deref(), Some(""));
    assert_eq!(published_summary(1, "skills.json"), "Published 1 local skill in skills.json");
}

struct PickSecond;

impl SearchPrompter for PickSecond {
    fn select(&self, labels: &Vec<String>) -> Result<Option<usize>, SearchFailed> {
        assert_eq!(labels[0], "one (example/one)");
        Ok(Some(1))
    }
}

struct Cancel;

impl SearchPrompter for Cancel {
    fn select(&self, _labels: &Vec<String>) -> Result<Option<usize>, SearchFailed> {
        Ok(None)
    }
}

fn result(name: &str, target: Option<&str>) -> SkillSearchResult {
    SkillSearchResult {
        id: name.to_string(),
        name: name.to_string(),
        source: "example/x".to_string(),
        skill: name.to_string(),
        repo: None,
        installs: 0,
        url: None,
        install_target: target.map(|t| t.to_string()),
        installable: target.is_some(),
    }
}

#[test]
fn test_search_install_choice() {
    let results = vec![result("one", Some("example/one")), result("none", None), result("two", Some("example/two"))];
    assert_eq!(choose_install_target(&results, false, &PickSecond).unwrap(), "example/two");
    assert_eq!(
        choose_install_target(&results, true, &PickSecond).unwrap_err().to_string(),
        "Multiple installable skills found; rerun without --no-input to select one."
    );
    assert_eq!(choose_install_target(&results, false, &Cancel).unwrap_err().to_string(), "Installation cancelled");
    assert_eq!(choose_install_target(&vec![result("one", Some("example/one"))], true, &Cancel).unwrap(), "example/one");
    assert_eq!(
        choose_install_target(&vec![result("none", None)], false, &Cancel).unwrap_err().to_string(),
        "No installable GitHub-backed skills were found."
    );
    assert_eq!(install_hint(&results[0]), "kt install example/one");
    assert_eq!(install_hint(&results[1]), "not installable yet");
}

#[test]
fn test_search_options_checks() {
    let options = SearchOptions { json: true, install: true, ..SearchOptions::default() };
    assert_eq!(check_search_options(&options).unwrap_err().to_string(), "Cannot combine --json and --install");
    assert!(check_search_options(&SearchOptions::default()).is_ok());
    let install = search_install_options(true);
    assert!(install.yes && install.no_input && !install.all);
}

#[test]
fn test_search_selection_labels_and_choices() {
    let results = vec![result("one", Some("example/one")), result("none", None), result("two", Some("example/two"))];
    assert_eq!(selection_labels(&results), vec!["one (example/one)".to_string(), "two (example/two)".to_string()]);
    assert_eq!(chosen_target(&results, Ok(Some(0))).unwrap(), "example/one");
    assert_eq!(chosen_target(&results, Ok(Some(1))).unwrap(), "example/two");
    assert_eq!(chosen_target(&results, Ok(Some(2))).unwrap_err().to_string(), "Installation cancelled");
    assert_eq!(chosen_target(&results, Ok(None)).unwrap_err().to_string(), "Installation cancelled");
    assert_eq!(
        chosen_target(&results, Err(SearchFailed::new("terminal closed".to_string()))).unwrap_err().to_string(),
        "terminal closed"
    );
}

#[test]
fn test_export_counts_each_new_directory_once() {
    let mut manifest = Manifest::new();
    manifest.add_local_dependency("kept".to_string(), "skills/kept".to_string());
    let mut lockfile = Lockfile::new();
    lockfile.insert("locked".to_string(), lock(&"b".repeat(40), "https://example.com/locked.git"));
    let dirs = vec![
        ("kept".to_string(), "/p/.agents/skills/kept".to_string()),
        ("fresh".to_string(), "/p/.agents/skills/fresh".to_string()),
        ("fresh".to_string(), "/p/.agents/skills/fresh".to_string()),
        ("locked".to_string(), "/p/.agents/skills/locked".to_string()),
    ];
    let count = export_skills(&mut manifest, &lockfile, &dirs);
    assert_eq!(count, 2);
    assert_eq!(manifest.dependencies.get("kept").unwrap().path.as_deref(), Some("skills/kept"));
    assert_eq!(manifest.dependencies.get("fresh").unwrap().repo.as_deref(), Some("/p/.agents/skills/fresh"));
    assert_eq!(manifest.dependencies.get("locked").unwrap().repo.as_deref(), Some("https://example.com/locked.git"));
}

use ktesio::doctor::{
    check_project, diagnostics_title, is_healthy, published_skill_dir_names, unhealthy, DoctorReport, ManifestRead,
    ProjectFacts,
};
use ktesio::lockfile::{LockEntry, Lockfile};
use ktesio::manifest::Manifest;

fn facts(manifest: ManifestRead, lockfile: Result<Lockfile, String>) -> ProjectFacts {
    ProjectFacts {
        git_available: true,
        manifest,
        lockfile,
        publish_path_exists: Vec::new(),
        skill_dir_exists: Vec::new(),
        skill_dirs: None,
    }
}

fn locked(names: &[&str]) -> Lockfile {
    let mut lockfile = Lockfile::new();
    for name in names {
        lockfile.insert(name.to_string(), LockEntry { commit: "a".repeat(40), repo: "url".to_string() });
    }
    lockfile
}

#[test]
fn test_doctor_print_report_handles_errors_and_warnings() {
    let report = DoctorReport { errors: vec!["broken".to_string()], warnings: vec!["stale".to_string()] };

    assert!(!is_healthy(&report));
    assert_eq!(diagnostics_title("Errors", report.errors.len()), "Errors (1 item)");
    assert_eq!(diagnostics_title("Warnings", 2), "Warnings (2 items)");
    assert_eq!(unhealthy(&report).unwrap().to_string(), "Project has 1 skill health error(s)");
}

#[test]
fn test_doctor_healthy_empty_manifest() {
    let report = check_project("/p", &facts(ManifestRead::Loaded(Manifest::new()), Ok(Lockfile::new())));
    assert!(is_healthy(&report));
    assert!(unhealthy(&report).is_none());
}

#[test]
fn test_doctor_reports_missing_manifest_and_git() {
    let mut f = facts(ManifestRead::Missing, Ok(Lockfile::new()));
    f.git_available = false;
    let report = check_project("/p", &f);
    assert_eq!(report.errors, vec!["git is not available on PATH; install git before installing skills"]);
    assert_eq!(report.warnings, vec!["skills.json is missing; run 'kt init .' to create one."]);
}

#[test]
fn test_doctor_reports_invalid_files() {
    let report = check_project(
        "/p",
        &facts(ManifestRead::Invalid("expected value".to_string()), Err("bad commit".to_string())),
    );
    assert_eq!(
        report.errors,
        vec![
            "skills.json is invalid: expected value. Fix the manifest JSON.",
            "skills.lock is invalid: bad commit. Regenerate or repair it."
        ]
    );
}

#[test]
fn test_doctor_reports_dependency_states() {
    let mut manifest = Manifest::new();
    manifest.add_remote_dependency("missing".to_string(), "url".to_string(), None);
    manifest.add_remote_dependency("declared".to_string(), "url".to_string(), None);
    manifest.add_remote_dependency("unlocked".to_string(), "url".to_string(), None);
    manifest.add_remote_dependency("fine".to_string(), "url".to_string(), None);
    let mut f = facts(ManifestRead::Loaded(manifest), Ok(locked(&["missing", "fine", "orphan"])));
    f.skill_dir_exists = vec![false, false, true, true];
    let report = check_project("/p", &f);
    assert_eq!(report.errors, vec!["skill 'missing' is locked but missing from disk; run 'kt install'."]);
    assert_eq!(
        report.warnings,
        vec![
            "skill 'declared' is declared but not installed; run 'kt install'.",
            "skill 'unlocked' is installed but not locked; run 'kt install' or 'kt upgrade'.",
            "skill 'orphan' is orphaned in skills.lock; add it to dependencies or run 'kt uninstall orphan'."
        ]
    );
}

#[test]
fn test_doctor_reports_publish_problems() {
    let mut manifest = Manifest::new();
    manifest.add_remote_dependency("remote".to_string(), "url".to_string(), None);
    manifest.add_local_dependency("local".to_string(), "skills/local".to_string());
    manifest.add_publish_dependency("ghost".to_string());
    manifest.add_publish_dependency("remote".to_string());
    manifest.add_publish_dependency("local".to_string());
    manifest.add_publish_object("docs".to_string(), "skills/docs".to_string(), false);
    let mut f = facts(ManifestRead::Loaded(manifest), Err("x".to_string()));
    f.publish_path_exists = vec![false, false, false, false];
    let report = check_project("/p", &f);
    assert_eq!(
        report.errors[1..],
        [
            "publish entry 'ghost' does not match a dependency; add a local dependency or use 'kt publish add ghost <path>'.",
            "publish entry 'remote' points to a remote dependency; publish entries must use local paths.",
            "publish entry 'local' points to missing path 'skills/local'; create it or run 'kt publish add local <path>'.",
            "published skill 'docs' points to missing path 'skills/docs'; create it or run 'kt publish add docs <path>'."
        ]
    );
}

#[test]
fn test_doctor_reports_untracked_directory_and_listing_error() {
    let mut manifest = Manifest::new();
    manifest.add_local_dependency("own".to_string(), ".agents/skills/own".to_string());
    manifest.add_publish_dependency("own".to_string());
    manifest.add_publish_object("pub".to_string(), "./.agents/skills/pub".to_string(), false);
    let mut f = facts(ManifestRead::Loaded(manifest), Ok(locked(&["own"])));
    f.publish_path_exists = vec![true, true];
    f.skill_dir_exists = vec![true];
    f.skill_dirs = Some(Ok(vec!["own".to_string(), "pub".to_string(), "stray".to_string()]));
    let report = check_project("/p", &f);
    assert!(report.errors.is_empty());
    assert_eq!(
        report.warnings,
        vec!["installed directory 'stray' is untracked; run 'kt init .' to adopt it as a dependency or 'kt publish' if it should be published."]
    );

    let mut broken = facts(ManifestRead::Missing, Ok(Lockfile::new()));
    broken.skill_dirs = Some(Err("denied".to_string()));
    let report = check_project("/p", &broken);
    assert_eq!(report.errors, vec!["cannot read .agents/skills: denied; check directory permissions."]);
}

#[test]
fn test_doctor_published_skill_dir_names_ignores_unresolved_dependencies() {
    let mut manifest = Manifest::new();
    manifest.add_publish_dependency("ghost".to_string());
    manifest.add_publish_object("docs".to_string(), ".agents/skills/docs".to_string(), false);
    manifest.add_publish_object("other".to_string(), "skills/other".to_string(), false);
    assert_eq!(published_skill_dir_names("/p", &manifest), vec!["docs"]);
}

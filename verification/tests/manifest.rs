use ktesio::manifest::{parse_rev, DependencyEntry, Manifest, PublishEntry, RevKind};

#[test]
fn manifest_test_new() {
    let manifest = Manifest::new();
    assert!(manifest.dependencies.is_empty());
    assert!(manifest.publish.is_empty());
}

#[test]
fn manifest_test_default() {
    let manifest = Manifest::default();
    assert!(manifest.dependencies.is_empty());
    assert!(manifest.publish.is_empty());
}

#[test]
fn test_add_remote_dependency() {
    let mut manifest = Manifest::new();
    manifest.add_remote_dependency(
        "test-skill".to_string(),
        "https://github.com/test/repo.git".to_string(),
        Some("commit:a1b2".to_string()),
    );
    assert!(manifest.has_dependency("test-skill"));
    assert_eq!(manifest.dependencies.len(), 1);
}

#[test]
fn test_add_local_dependency() {
    let mut manifest = Manifest::new();
    manifest.add_local_dependency(
        "test-skill".to_string(),
        ".agents/skills/test-skill".to_string(),
    );
    assert_eq!(
        manifest.dependencies.get("test-skill").unwrap().path.as_deref(),
        Some(".agents/skills/test-skill")
    );
}

#[test]
fn test_remove_dependency() {
    let mut manifest = Manifest::new();
    manifest.add_local_dependency("test".to_string(), ".agents/skills/test".to_string());
    assert!(manifest.remove_dependency("test"));
    assert!(!manifest.has_dependency("test"));
}

#[test]
fn manifest_test_remove_nonexistent() {
    let mut manifest = Manifest::new();
    assert!(!manifest.remove_dependency("nonexistent"));
}

#[test]
fn test_parse_rev() {
    assert_eq!(parse_rev("commit:abc").unwrap().0, RevKind::Commit);
    assert_eq!(parse_rev("branch:main").unwrap().0, RevKind::Branch);
    assert_eq!(parse_rev("tag:v1").unwrap().0, RevKind::Tag);
    assert!(parse_rev("main").is_none());
    assert!(parse_rev("commit:").is_none());
    assert!(parse_rev("other:value").is_none());
}

#[test]
fn test_parse_rev_keeps_value_after_first_colon() {
    let (kind, value) = parse_rev("tag:v1:extra").unwrap();
    assert_eq!(kind, RevKind::Tag);
    assert_eq!(value, "v1:extra");
}

#[test]
fn test_validate_valid() {
    let mut manifest = Manifest::new();
    manifest.add_remote_dependency("valid_name-123".to_string(), "url".to_string(), None);
    assert!(manifest.validate().is_ok());
}

#[test]
fn test_validate_invalid_name() {
    let mut manifest = Manifest::new();
    manifest.add_remote_dependency("bad name!".to_string(), "url".to_string(), None);
    let error = manifest.validate().unwrap_err();
    assert_eq!(
        error.to_string(),
        "Invalid skill name 'bad name!': must match [a-zA-Z0-9_-]+"
    );
}

#[test]
fn test_validate_valid_names() {
    let mut manifest = Manifest::new();
    manifest.add_remote_dependency("valid_name-123".to_string(), "url".to_string(), None);
    manifest.add_remote_dependency("another-skill".to_string(), "url".to_string(), None);
    manifest.add_remote_dependency("skill123".to_string(), "url".to_string(), None);
    assert!(manifest.validate().is_ok());
}

#[test]
fn test_validate_dependency_rules() {
    let mut both = Manifest::new();
    both.dependencies.insert(
        "docs".to_string(),
        DependencyEntry { repo: Some("url".to_string()), path: Some("skills/docs".to_string()), rev: None },
    );
    assert!(both.validate().unwrap_err().to_string().contains("exactly one"));

    let mut neither = Manifest::new();
    neither.dependencies.insert("docs".to_string(), DependencyEntry { repo: None, path: None, rev: None });
    assert!(neither.validate().unwrap_err().to_string().contains("exactly one"));

    let mut local_rev = Manifest::new();
    local_rev.dependencies.insert(
        "docs".to_string(),
        DependencyEntry { repo: None, path: Some("skills/docs".to_string()), rev: Some("branch:main".to_string()) },
    );
    assert!(local_rev.validate().unwrap_err().to_string().contains("cannot use rev"));

    let mut bad_rev = Manifest::new();
    bad_rev.add_remote_dependency("docs".to_string(), "url".to_string(), Some("main".to_string()));
    assert_eq!(
        bad_rev.validate().unwrap_err().to_string(),
        "Dependency 'docs' has invalid rev 'main'; use commit:<sha>, branch:<name>, or tag:<name>"
    );
}

#[test]
fn test_validate_publish_rules() {
    let mut missing = Manifest::new();
    missing.add_publish_dependency("docs".to_string());
    assert!(missing.validate().unwrap_err().to_string().contains("must match a dependency"));

    let mut remote = Manifest::new();
    remote.add_remote_dependency("docs".to_string(), "url".to_string(), None);
    remote.add_publish_dependency("docs".to_string());
    assert!(remote.validate().unwrap_err().to_string().contains("local path dependency"));

    let mut blank = Manifest::new();
    blank.add_publish_object("docs".to_string(), "  ".to_string(), false);
    assert!(blank.validate().unwrap_err().to_string().contains("non-empty path"));

    let mut bad_name = Manifest::new();
    bad_name.add_publish_object("bad name".to_string(), "skills/docs".to_string(), false);
    assert!(bad_name.validate().unwrap_err().to_string().contains("Invalid published"));

    let mut local = Manifest::new();
    local.add_local_dependency("docs".to_string(), "skills/docs".to_string());
    local.add_publish_dependency("docs".to_string());
    assert!(local.validate().is_ok());
}

#[test]
fn test_add_publish_entries_replace_by_name() {
    let mut manifest = Manifest::new();
    manifest.add_publish_object("local".to_string(), "old".to_string(), false);
    manifest.add_publish_dependency("docs".to_string());
    manifest.add_publish_object("local".to_string(), "skills/new".to_string(), true);
    assert_eq!(manifest.publish.len(), 2);
    assert_eq!(manifest.publish[0].skill_name(), "docs");
    assert_eq!(manifest.publish[1].skill_name(), "local");
    match &manifest.publish[1] {
        PublishEntry::Object(object) => {
            assert_eq!(object.path, "skills/new");
            assert!(object.deprecated);
        }
        PublishEntry::Dependency(_) => panic!("expected an object entry"),
    }
}

#[test]
fn test_from_decoded_reports_decoder_and_rule_errors() {
    let error = Manifest::from_decoded(Err("expected value".to_string()), "test.json").unwrap_err();
    assert_eq!(error.to_string(), "Invalid skills.json at test.json: expected value");

    let mut manifest = Manifest::new();
    manifest.add_remote_dependency("has space".to_string(), "url".to_string(), None);
    let error = Manifest::from_decoded(Ok(manifest), "test.json").unwrap_err();
    assert!(error.to_string().contains("Invalid skill name 'has space'"));

    let mut manifest = Manifest::new();
    manifest.add_remote_dependency("my-skill".to_string(), "url".to_string(), None);
    let loaded = Manifest::from_decoded(Ok(manifest), "test.json").unwrap();
    assert!(loaded.has_dependency("my-skill"));
    assert_eq!(
        Manifest::not_found("/nonexistent").to_string(),
        "No skills.json found at /nonexistent. Run 'kt init .' to create one."
    );
}

#[test]
fn test_declaring_a_valid_dependency_keeps_the_manifest_valid() {
    let mut manifest = Manifest::new();
    manifest.add_local_dependency("local".to_string(), "skills/local".to_string());
    manifest.add_publish_dependency("local".to_string());
    assert!(manifest.validate().is_ok());
    manifest.add_remote_dependency("docs".to_string(), "https://example.com/docs.git".to_string(), Some("branch:main".to_string()));
    assert!(manifest.validate().is_ok());
    manifest.add_remote_dependency("bad".to_string(), "https://example.com/bad.git".to_string(), Some("main".to_string()));
    assert!(manifest.validate().is_err());
}

#[test]
fn test_add_publish_object_twice_changes_nothing() {
    let mut manifest = Manifest::new();
    manifest.add_publish_dependency("docs".to_string());
    manifest.add_publish_object("web".to_string(), "skills/web".to_string(), true);
    manifest.add_publish_object("docs".to_string(), "skills/docs".to_string(), false);
    let once: Vec<String> = manifest.publish.iter().map(|e| format!("{:?}", e)).collect();
    manifest.add_publish_object("docs".to_string(), "skills/docs".to_string(), false);
    let twice: Vec<String> = manifest.publish.iter().map(|e| format!("{:?}", e)).collect();
    assert_eq!(once, twice);
    assert_eq!(twice.len(), 2);
    match &manifest.publish[1] {
        PublishEntry::Object(o) => {
            assert_eq!(o.skill, "docs");
            assert_eq!(o.path, "skills/docs");
        }
        PublishEntry::Dependency(_) => panic!("expected an object entry"),
    }
}

#[test]
fn test_parse_rev_reads_back_its_text() {
    let (kind, value) = parse_rev("branch:release:v2").unwrap();
    assert_eq!(kind, RevKind::Branch);
    assert_eq!(value, "release:v2");
    assert_eq!(format!("branch:{}", value), "branch:release:v2");
    assert_eq!(parse_rev("tag:").map(|(k, _)| k), None);
    assert_eq!(parse_rev("v1.0").map(|(k, _)| k), None);
}

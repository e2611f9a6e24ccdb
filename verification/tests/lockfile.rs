use ktesio::lockfile::{is_valid_commit, LockEntry, Lockfile};
use ktesio::name_map::NameMap;

fn entry() -> LockEntry {
    LockEntry {
        commit: "a".repeat(40),
        repo: "url".to_string(),
    }
}

#[test]
fn lockfile_test_new() {
    let lockfile = Lockfile::new();
    assert!(lockfile.entries.is_empty());
}

#[test]
fn lockfile_test_default() {
    let lockfile = Lockfile::default();
    assert!(lockfile.entries.is_empty());
}

#[test]
fn test_entry() {
    let mut lockfile = Lockfile::new();
    lockfile.insert("s".to_string(), entry());
    assert!(lockfile.entry("s").is_some());
}

#[test]
fn test_entry_not_found() {
    assert!(Lockfile::new().entry("x").is_none());
}

#[test]
fn test_insert() {
    let mut lockfile = Lockfile::new();
    lockfile.insert("s".to_string(), entry());
    assert!(lockfile.contains("s"));
}

#[test]
fn test_remove() {
    let mut lockfile = Lockfile::new();
    lockfile.insert("s".to_string(), entry());
    assert!(lockfile.remove("s"));
    assert!(!lockfile.contains("s"));
}

#[test]
fn lockfile_test_remove_nonexistent() {
    assert!(!Lockfile::new().remove("x"));
}

#[test]
fn test_contains() {
    let mut lockfile = Lockfile::new();
    assert!(!lockfile.contains("s"));
    lockfile.insert("s".to_string(), entry());
    assert!(lockfile.contains("s"));
}

#[test]
fn test_entries() {
    let mut lockfile = Lockfile::new();
    lockfile.insert("s".to_string(), entry());
    assert_eq!(lockfile.entries().len(), 1);
}

#[test]
fn test_insert_replaces_and_keeps_order() {
    let mut lockfile = Lockfile::new();
    lockfile.insert("a".to_string(), entry());
    lockfile.insert("b".to_string(), entry());
    lockfile.insert(
        "a".to_string(),
        LockEntry { commit: "b".repeat(40), repo: "other".to_string() },
    );
    assert_eq!(lockfile.entries().len(), 2);
    assert_eq!(lockfile.entries().key_at(0), "a");
    assert_eq!(lockfile.entry("a").unwrap().repo, "other");
}

#[test]
fn test_from_decoded_blank_and_bad_commits() {
    let empty = Lockfile::from_decoded("   ", Err("ignored".to_string())).unwrap();
    assert!(empty.entries.is_empty());

    let error = Lockfile::from_decoded("not json", Err("expected value".to_string())).unwrap_err();
    assert_eq!(error.to_string(), "Invalid skills.lock: expected value");

    let mut entries = NameMap::new();
    entries.insert("s".to_string(), LockEntry { commit: "abc".to_string(), repo: "url".to_string() });
    let error = Lockfile::from_decoded("{}", Ok(entries)).unwrap_err();
    assert_eq!(
        error.to_string(),
        "Invalid commit hash for skill 's': must be 40 hex characters"
    );

    let mut entries = NameMap::new();
    entries.insert(
        "my-skill".to_string(),
        LockEntry { commit: "a1b2c3d4e5f6a1b2c3d4e5f6a1b2c3d4e5f6a1b2".to_string(), repo: "url".to_string() },
    );
    let lockfile = Lockfile::from_decoded("{}", Ok(entries)).unwrap();
    assert!(lockfile.contains("my-skill"));
}

#[test]
fn test_is_valid_commit() {
    assert!(is_valid_commit(&"a".repeat(40)));
    assert!(!is_valid_commit("short"));
    assert!(!is_valid_commit(&"z".repeat(40)));
}

#[test]
fn test_locked_installs_stay_readable() {
    let mut lockfile = Lockfile::new();
    ktesio::install::record_local_install(&mut lockfile, "local".to_string(), "skills/local".to_string());
    lockfile.insert("remote".to_string(), LockEntry { commit: "c".repeat(40), repo: "https://example.com/r.git".to_string() });
    let entries = lockfile.entries();
    let mut copy = NameMap::new();
    for i in 0..entries.len() {
        let e = entries.val_at(i);
        copy.insert(entries.key_at(i).clone(), LockEntry { commit: e.commit.clone(), repo: e.repo.clone() });
    }
    let reread = Lockfile::validated(copy);
    assert!(reread.is_ok());
    assert!(is_valid_commit(ktesio::install::LOCAL_COMMIT));
}

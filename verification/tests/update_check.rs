use std::cell::Cell;

use ktesio::update_check::{
    automatic_checks_enabled, cache_file_in, cache_is_fresh, check_for_update, is_newer_version, is_truthy_value,
    notice_for, user_cache_dir_from, user_cache_dir_on, Clock, ReleaseTransport, SystemClock, UpdateCheckCache, UpdateNotice,
    CHECK_INTERVAL_SECS,
};

struct FakeClock {
    now: u64,
}

impl Clock for FakeClock {
    fn now_unix_secs(&self) -> u64 {
        self.now
    }
}

struct FakeTransport {
    response: Result<String, String>,
    calls: Cell<usize>,
}

impl ReleaseTransport for FakeTransport {
    fn latest_release_tag(&self) -> Result<String, String> {
        self.calls.set(self.calls.get() + 1);
        self.response.clone()
    }
}

#[test]
fn test_version_comparison_handles_tags_and_prereleases() {
    assert!(is_newer_version("0.3.0", "v0.3.1"));
    assert!(is_newer_version("0.3.0", "0.4.0-rc.1"));
    assert!(!is_newer_version("0.3.0", "v0.3.0"));
    assert!(!is_newer_version("0.3.0", "v0.2.9"));
    assert!(!is_newer_version("0.4.0", "v0.4.0-rc.1"));
    assert!(!is_newer_version("not-a-version", "v0.4.0"));
    assert!(!is_newer_version("0.3.0", "not-a-version"));
}

#[test]
fn test_system_clock_returns_epoch_or_later() {
    assert!(SystemClock.now_unix_secs() > 0);
}

#[test]
fn test_cache_freshness_treats_future_cache_as_fresh() {
    assert!(cache_is_fresh(&UpdateCheckCache { checked_at_unix_secs: 200, latest_tag: None }, 100));
    assert!(cache_is_fresh(
        &UpdateCheckCache { checked_at_unix_secs: 100, latest_tag: None },
        100 + CHECK_INTERVAL_SECS - 1
    ));
    assert!(!cache_is_fresh(&UpdateCheckCache { checked_at_unix_secs: 100, latest_tag: None }, 100 + CHECK_INTERVAL_SECS));
}

#[test]
fn test_fresh_cache_skips_transport_and_reports_update() {
    let transport = FakeTransport { response: Ok("v9.9.9".to_string()), calls: Cell::new(0) };
    let cache = Some(UpdateCheckCache { checked_at_unix_secs: 100, latest_tag: Some("v0.4.0".to_string()) });
    let (notice, saved) = check_for_update(&transport, &FakeClock { now: 120 }, cache, "0.3.0");
    assert_eq!(
        notice,
        Some(UpdateNotice { current_version: "0.3.0".to_string(), latest_version: "0.4.0".to_string() })
    );
    assert!(saved.is_none());
    assert_eq!(transport.calls.get(), 0);
}

#[test]
fn test_stale_cache_fetches_and_keeps_previous_tag_on_failure() {
    let failing = FakeTransport { response: Err("offline".to_string()), calls: Cell::new(0) };
    let cache = Some(UpdateCheckCache { checked_at_unix_secs: 100, latest_tag: Some("v0.4.0".to_string()) });
    let (notice, saved) = check_for_update(&failing, &FakeClock { now: 100 + CHECK_INTERVAL_SECS }, cache, "0.3.0");
    assert_eq!(failing.calls.get(), 1);
    let saved = saved.unwrap();
    assert_eq!(saved.checked_at_unix_secs, 100 + CHECK_INTERVAL_SECS);
    assert_eq!(saved.latest_tag.as_deref(), Some("v0.4.0"));
    assert_eq!(notice.unwrap().latest_version, "0.4.0");

    let working = FakeTransport { response: Ok("v0.3.0".to_string()), calls: Cell::new(0) };
    let (notice, saved) = check_for_update(&working, &FakeClock { now: 5 }, None, "0.3.0");
    assert!(notice.is_none());
    assert_eq!(saved.unwrap().latest_tag.as_deref(), Some("v0.3.0"));
}

#[test]
fn test_notice_for_newer_tags_only() {
    assert_eq!(notice_for("0.3.0", " v0.3.1 ").unwrap().latest_version, "0.3.1");
    assert!(notice_for("0.3.1", "v0.3.1").is_none());
}

#[test]
fn test_truthy_values_and_automatic_checks() {
    assert!(is_truthy_value("1"));
    assert!(is_truthy_value(" yes "));
    assert!(!is_truthy_value("  "));
    assert!(!is_truthy_value("FALSE"));
    assert!(!is_truthy_value("off"));
    assert!(automatic_checks_enabled(None, None));
    assert!(automatic_checks_enabled(Some("0".to_string()), Some("no".to_string())));
    assert!(!automatic_checks_enabled(Some("1".to_string()), None));
    assert!(!automatic_checks_enabled(None, Some("true".to_string())));
}

#[test]
fn test_cache_location() {
    assert_eq!(user_cache_dir_from(Some("/xdg".to_string()), Some("/home/a".to_string())).as_deref(), Some("/xdg"));
    assert_eq!(user_cache_dir_from(Some(String::new()), Some("/home/a".to_string())).as_deref(), Some("/home/a/.cache"));
    assert_eq!(user_cache_dir_from(None, Some(String::new())), None);
    assert_eq!(cache_file_in("/xdg"), "/xdg/ktesio/update-check.json");
}

#[test]
fn test_cache_location_per_os() {
    let some = |s: &str| Some(s.to_string());
    assert_eq!(user_cache_dir_on("macos", Some(String::new()), some("/Users/a"), None, None).as_deref(), Some("/Users/a/Library/Caches"));
    assert_eq!(user_cache_dir_on("macos", some("/xdg"), some("/Users/a"), None, None).as_deref(), Some("/xdg"));
    assert_eq!(user_cache_dir_on("windows", None, some("/h"), Some(String::new()), some("C:/roaming")).as_deref(), Some("C:/roaming"));
    assert_eq!(user_cache_dir_on("windows", None, some("/h"), some("C:/local"), some("C:/roaming")).as_deref(), Some("C:/local"));
    assert_eq!(user_cache_dir_on("windows", None, some("/h"), None, None), None);
    assert_eq!(user_cache_dir_on("linux", None, some("/home/a"), some("x"), None).as_deref(), Some("/home/a/.cache"));
    assert_eq!(user_cache_dir_on("linux", None, None, None, None), None);
}

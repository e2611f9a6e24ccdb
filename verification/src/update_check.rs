//! The background check for a newer release: at most once an hour, remembered in a small
//! cache, and skipped when the environment turns it off.

use vstd::prelude::*;
use crate::git::{join_path, join_path_spec};
use crate::install_target::opt_view;
use crate::text::{ascii_lower_seq, owned, str_eq, to_ascii_lower, trim, trim_seq};
use crate::version::{display_version_spec, is_newer_spec};

pub use crate::version::{display_version, is_newer_version};

verus! {

/// How long a check is remembered, in seconds.
pub const CHECK_INTERVAL_SECS: u64 = 3600;

/// A newer release than the running one.
#[derive(Debug, Clone, PartialEq, Eq)]
pub struct UpdateNotice {
    pub current_version: String,
    pub latest_version: String,
}

/// The remembered result of the last check.
#[derive(Debug, Clone)]
pub struct UpdateCheckCache {
    pub checked_at_unix_secs: u64,
    pub latest_tag: Option<String>,
}

/// A check is fresh when it is from the future or less than an hour old.
pub open spec fn cache_is_fresh_spec(checked_at: u64, now: u64) -> bool {
    checked_at >= now || now - checked_at < CHECK_INTERVAL_SECS
}

pub fn cache_is_fresh(cache: &UpdateCheckCache, now: u64) -> (r: bool)
    ensures r == cache_is_fresh_spec(cache.checked_at_unix_secs, now),
{
    cache.checked_at_unix_secs >= now || now - cache.checked_at_unix_secs < CHECK_INTERVAL_SECS
}

/// The notice for a latest tag, when it is newer than the running version.
pub open spec fn notice_matches(current: Seq<char>, latest_tag: Seq<char>, r: Option<UpdateNotice>) -> bool {
    if is_newer_spec(current, latest_tag) {
        r matches Some(n) && n.current_version@ == current && n.latest_version@ == display_version_spec(latest_tag)
    } else {
        r is None
    }
}

pub fn notice_for(current_version: &str, latest_tag: &str) -> (r: Option<UpdateNotice>)
    ensures notice_matches(current_version@, latest_tag@, r),
{
    if is_newer_version(current_version, latest_tag) {
        Some(UpdateNotice { current_version: owned(current_version), latest_version: display_version(latest_tag) })
    } else {
        None
    }
}

/// Reads the clock.
pub trait Clock {
    fn now_unix_secs(&self) -> u64;
}

/// Asks the release server for the latest tag.
pub trait ReleaseTransport {
    fn latest_release_tag(&self) -> Result<String, String>;
}

/// The system clock.
pub struct SystemClock;

/// Seconds since the Unix epoch from `SystemTime::now()`, 0 before it; it depends on the clock.
#[verifier::external_body]
fn system_now_unix_secs() -> u64 {
    std::time::SystemTime::now()
        .duration_since(std::time::UNIX_EPOCH)
        .map(|duration| duration.as_secs())
        .unwrap_or(0)
}

impl Clock for SystemClock {
    fn now_unix_secs(&self) -> u64 {
        system_now_unix_secs()
    }
}

/// With a fresh cache, the notice it gives (from its remembered tag); `None` when a new
/// request is due.
pub fn cached_notice(cache: &Option<UpdateCheckCache>, now: u64, current_version: &str) -> (r: Option<Option<UpdateNotice>>)
    ensures
        match cache {
            Some(c) if cache_is_fresh_spec(c.checked_at_unix_secs, now) => r matches Some(n) && match c.latest_tag {
                Some(tag) => notice_matches(current_version@, tag@, n),
                None => n is None,
            },
            _ => r is None,
        },
{
    match cache {
        Some(c) => {
            if cache_is_fresh(c, now) {
                match &c.latest_tag {
                    Some(tag) => Some(notice_for(current_version, tag.as_str())),
                    None => Some(None),
                }
            } else {
                None
            }
        },
        None => None,
    }
}

/// After a request: the cache to save (now, and the fetched tag, or else the remembered
/// one) and the notice for that tag.
pub fn after_fetch(previous: Option<UpdateCheckCache>, fetched: Option<String>, now: u64, current_version: &str)
    -> (r: (UpdateCheckCache, Option<UpdateNotice>))
    ensures
        r.0.checked_at_unix_secs == now,
        opt_view(r.0.latest_tag) == match fetched {
            Some(t) => Some(t@),
            None => match previous {
                Some(p) => opt_view(p.latest_tag),
                None => None,
            },
        },
        match r.0.latest_tag {
            Some(tag) => notice_matches(current_version@, tag@, r.1),
            None => r.1 is None,
        },
{
    let latest = match fetched {
        Some(t) => Some(t),
        None => match previous {
            Some(p) => p.latest_tag,
            None => None,
        },
    };
    let notice = match &latest {
        Some(tag) => notice_for(current_version, tag.as_str()),
        None => None,
    };
    (UpdateCheckCache { checked_at_unix_secs: now, latest_tag: latest }, notice)
}

/// The notice for a remembered or saved tag: the notice of a newer tag, none without a tag.
pub open spec fn tag_notice_matches(current: Seq<char>, tag: Option<String>, n: Option<UpdateNotice>) -> bool {
    match tag {
        Some(t) => notice_matches(current, t@, n),
        None => n is None,
    }
}

/// What a check gives when the clock reads `now` and, if a request is made, it gives
/// `fetched` (`None` when it failed): with a cache that is fresh at `now`, the notice of the
/// remembered tag and nothing to save; otherwise the cache to save (checked at `now`, with
/// the fetched tag or else the remembered one) and the notice of that tag.
pub open spec fn update_check_outcome(cache: Option<UpdateCheckCache>, now: u64, fetched: Option<Seq<char>>,
    current: Seq<char>, r: (Option<UpdateNotice>, Option<UpdateCheckCache>)) -> bool {
    match cache {
        Some(c) if cache_is_fresh_spec(c.checked_at_unix_secs, now) =>
            r.1 is None && tag_notice_matches(current, c.latest_tag, r.0),
        _ => r.1 matches Some(saved)
            && saved.checked_at_unix_secs == now
            && opt_view(saved.latest_tag) == (match fetched {
                Some(t) => Some(t),
                None => match cache {
                    Some(p) => opt_view(p.latest_tag),
                    None => None,
                },
            })
            && tag_notice_matches(current, saved.latest_tag, r.0),
    }
}

/// Runs a check: a fresh cache answers without a request; otherwise the transport is asked
/// (a failure keeps the remembered tag). Gives the notice and the cache to save, if any.
/// The time and the reply come from the clock and the transport, so the contract holds for
/// some time `now` and some reply.
pub fn check_for_update<T: ReleaseTransport, C: Clock>(
    transport: &T,
    clock: &C,
    cache: Option<UpdateCheckCache>,
    current_version: &str,
) -> (r: (Option<UpdateNotice>, Option<UpdateCheckCache>))
    ensures
        exists|now: u64, fetched: Option<Seq<char>>| #[trigger] update_check_outcome(cache, now, fetched, current_version@, r),
        r.1 matches Some(saved) ==> tag_notice_matches(current_version@, saved.latest_tag, r.0),
        r.1 is None ==> (cache matches Some(c) && tag_notice_matches(current_version@, c.latest_tag, r.0)),
        r.1 matches Some(saved) ==> (cache matches Some(c) && c.latest_tag is Some ==> saved.latest_tag is Some),
{
    let ghost previous = cache;
    let now = clock.now_unix_secs();
    if let Some(n) = cached_notice(&cache, now, current_version) {
        let r = (n, None);
        assert(update_check_outcome(previous, now, None, current_version@, r));
        return r;
    }
    let fetched = match transport.latest_release_tag() {
        Ok(t) => Some(t),
        Err(_) => None,
    };
    let ghost fetched_view = opt_view(fetched);
    let (saved, notice) = after_fetch(cache, fetched, now, current_version);
    let r = (notice, Some(saved));
    assert(update_check_outcome(previous, now, fetched_view, current_version@, r));
    r
}

/// An environment value that turns a setting on: not empty after trimming, and not `0`,
/// `false`, `no` or `off` in any case.
pub open spec fn truthy_spec(value: Seq<char>) -> bool {
    let v = ascii_lower_seq(trim_seq(value));
    trim_seq(value).len() > 0 && v != "0"@ && v != "false"@ && v != "no"@ && v != "off"@
}

pub fn is_truthy_value(value: &str) -> (r: bool)
    ensures r == truthy_spec(value@),
{
    let t = trim(value);
    if t.as_str().is_empty() {
        return false;
    }
    let lower = to_ascii_lower(t.as_str());
    let l = lower.as_str();
    !(str_eq(l, "0") || str_eq(l, "false") || str_eq(l, "no") || str_eq(l, "off"))
}

/// Automatic checks run unless `KTESIO_NO_UPDATE_CHECK` or `CI` is truthy.
pub fn automatic_checks_enabled(no_update_check: Option<String>, ci: Option<String>) -> (r: bool)
    ensures
        r == !((no_update_check matches Some(v) && truthy_spec(v@)) || (ci matches Some(v) && truthy_spec(v@))),
{
    let off = match &no_update_check {
        Some(v) => is_truthy_value(v.as_str()),
        None => false,
    };
    let ci_on = match &ci {
        Some(v) => is_truthy_value(v.as_str()),
        None => false,
    };
    !off && !ci_on
}

/// The cache directory on Unix other than macOS: `$XDG_CACHE_HOME`, else `$HOME/.cache`,
/// each only when set and not empty.
pub open spec fn cache_dir_spec(xdg_cache_home: Option<Seq<char>>, home: Option<Seq<char>>) -> Option<Seq<char>> {
    if xdg_cache_home matches Some(x) && x.len() > 0 {
        xdg_cache_home
    } else if home matches Some(h) && h.len() > 0 {
        Some(join_path_spec(home->0, ".cache"@))
    } else {
        None
    }
}

pub fn user_cache_dir_from(xdg_cache_home: Option<String>, home: Option<String>) -> (r: Option<String>)
    ensures opt_view(r) == cache_dir_spec(opt_view(xdg_cache_home), opt_view(home)),
{
    if let Some(x) = &xdg_cache_home {
        if !x.as_str().is_empty() {
            return xdg_cache_home;
        }
    }
    if let Some(h) = &home {
        if !h.as_str().is_empty() {
            return Some(join_path(h.as_str(), ".cache"));
        }
    }
    None
}

/// A value of the environment that is set and not empty.
pub open spec fn nonempty_value(v: Option<Seq<char>>) -> bool {
    v matches Some(s) && s.len() > 0
}

/// The user's cache directory on the operating system `os` (Rust's `std::env::consts::OS`
/// name): `$XDG_CACHE_HOME` first; then `$HOME/Library/Caches` on macOS,
/// `%LOCALAPPDATA%` or else `%APPDATA%` on Windows, `$HOME/.cache` elsewhere; each only when
/// set and not empty.
pub open spec fn cache_dir_on_spec(
    os: Seq<char>,
    xdg_cache_home: Option<Seq<char>>,
    home: Option<Seq<char>>,
    local_app_data: Option<Seq<char>>,
    app_data: Option<Seq<char>>,
) -> Option<Seq<char>> {
    if nonempty_value(xdg_cache_home) {
        xdg_cache_home
    } else if os == "macos"@ {
        if nonempty_value(home) {
            Some(join_path_spec(join_path_spec(home->0, "Library"@), "Caches"@))
        } else {
            None
        }
    } else if os == "windows"@ {
        if nonempty_value(local_app_data) {
            local_app_data
        } else if nonempty_value(app_data) {
            app_data
        } else {
            None
        }
    } else {
        cache_dir_spec(xdg_cache_home, home)
    }
}

fn nonempty(v: &Option<String>) -> (r: bool)
    ensures r == nonempty_value(opt_view(*v)),
{
    match v {
        Some(s) => !s.as_str().is_empty(),
        None => false,
    }
}

pub fn user_cache_dir_on(
    os: &str,
    xdg_cache_home: Option<String>,
    home: Option<String>,
    local_app_data: Option<String>,
    app_data: Option<String>,
) -> (r: Option<String>)
    ensures
        opt_view(r) == cache_dir_on_spec(os@, opt_view(xdg_cache_home), opt_view(home),
            opt_view(local_app_data), opt_view(app_data)),
{
    proof {
        reveal_strlit("macos");
        reveal_strlit("windows");
    }
    if nonempty(&xdg_cache_home) {
        return xdg_cache_home;
    }
    if str_eq(os, "macos") {
        match &home {
            Some(h) if !h.as_str().is_empty() => {
                let lib = join_path(h.as_str(), "Library");
                Some(join_path(lib.as_str(), "Caches"))
            },
            _ => None,
        }
    } else if str_eq(os, "windows") {
        if nonempty(&local_app_data) {
            local_app_data
        } else if nonempty(&app_data) {
            app_data
        } else {
            None
        }
    } else {
        user_cache_dir_from(xdg_cache_home, home)
    }
}

/// The cache file inside a cache directory.
pub fn cache_file_in(dir: &str) -> (r: String)
    ensures r@ == join_path_spec(join_path_spec(dir@, "ktesio"@), "update-check.json"@),
{
    let d = join_path(dir, "ktesio");
    join_path(d.as_str(), "update-check.json")
}

} // verus!

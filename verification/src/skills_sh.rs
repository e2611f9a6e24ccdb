//! skills.sh search: normalizing listings, and deciding after each attempt whether to
//! return, retry after a pause, or fail.

use vstd::prelude::*;
use vstd::utf8::encode_utf8;
use crate::error::SearchFailed;
use crate::install_target::{
    github_repo_from_source, github_repo_from_source_spec, install_target_from_source, install_target_from_source_spec,
    opt_view,
};
use crate::text::{ascii_lower_seq, chars_of, concat, contains_str, decimal, occurs_in, owned, parse_u64, parse_u64_seq, split_by,
    split_seq, str_eq, to_ascii_lower, trim, trim_seq, u64_to_decimal};

verus! {

pub const BASE_PUBLIC_URL: &'static str = "https://www.skills.sh/api/search";
pub const BASE_AUTH_URL: &'static str = "https://skills.sh/api/v1/skills/search";
pub const MAX_ATTEMPTS: usize = 3;

/// One search result, normalized from either API shape.
#[derive(Debug)]
pub struct SkillSearchResult {
    pub id: String,
    pub name: String,
    pub source: String,
    pub skill: String,
    pub repo: Option<String>,
    pub installs: u64,
    pub url: Option<String>,
    pub install_target: Option<String>,
    pub installable: bool,
}

/// A listing of the public search API.
#[derive(Debug)]
pub struct PublicSkill {
    pub id: String,
    pub skill_id: Option<String>,
    pub name: String,
    pub installs: u64,
    pub source: String,
}

/// A listing of the authenticated (v1) search API.
#[derive(Debug)]
pub struct V1Skill {
    pub id: String,
    pub slug: String,
    pub name: String,
    pub source: String,
    pub installs: u64,
    pub source_type: Option<String>,
    pub url: Option<String>,
}

/// The slug of a public listing: its `skillId` when present and not empty, else the last
/// `/`-separated part of its id.
pub open spec fn public_slug(skill: PublicSkill) -> Seq<char> {
    match skill.skill_id {
        Some(s) if s@.len() > 0 => s@,
        _ => split_seq(skill.id@, Some('/')).last(),
    }
}

/// A public listing, normalized.
pub open spec fn public_result_matches(skill: PublicSkill, r: SkillSearchResult) -> bool {
    let slug = public_slug(skill);
    &&& r.id@ == skill.id@
    &&& r.name@ == skill.name@
    &&& r.source@ == skill.source@
    &&& r.skill@ == slug
    &&& opt_view(r.repo) == github_repo_from_source_spec(skill.source@, false)
    &&& r.installs == skill.installs
    &&& opt_view(r.url) == Some("https://skills.sh/"@ + skill.source@ + "/"@ + slug)
    &&& opt_view(r.install_target) == install_target_from_source_spec(skill.source@, slug)
    &&& r.installable == (r.install_target is Some)
}

/// A v1 listing is GitHub-backed when its source type says so, or, without a source type,
/// when its source reads as `owner/repo`.
pub open spec fn v1_is_github(skill: V1Skill) -> bool {
    match skill.source_type {
        Some(t) => t@ == "github"@,
        None => github_repo_from_source_spec(skill.source@, false) is Some,
    }
}

/// A v1 listing, normalized.
pub open spec fn v1_result_matches(skill: V1Skill, r: SkillSearchResult) -> bool {
    let github = v1_is_github(skill);
    &&& r.id@ == skill.id@
    &&& r.name@ == skill.name@
    &&& r.source@ == skill.source@
    &&& r.skill@ == skill.slug@
    &&& opt_view(r.repo) == (if github { github_repo_from_source_spec(skill.source@, false) } else { None })
    &&& r.installs == skill.installs
    &&& opt_view(r.url) == opt_view(skill.url)
    &&& opt_view(r.install_target)
        == (if github { install_target_from_source_spec(skill.source@, skill.slug@) } else { None })
    &&& r.installable == (r.install_target is Some)
}

/// Normalizes a public listing.
pub fn normalize_public_skill(skill: PublicSkill) -> (r: SkillSearchResult)
    ensures public_result_matches(skill, r),
{
    let ghost orig = skill;
    let slug = match &skill.skill_id {
        Some(s) if !s.as_str().is_empty() => s.clone(),
        _ => {
            let parts = split_by(skill.id.as_str(), Some('/'));
            proof {
                assert(parts@.map_values(|p: String| p@).len() > 0) by {
                    crate::text::lemma_split_nonempty(skill.id@, Some('/'));
                }
            }
            let last = parts.len() - 1;
            assert(parts@.map_values(|p: String| p@)[last as int] == parts@[last as int]@);
            parts[last].clone()
        }
    };
    let repo = github_repo_from_source(skill.source.as_str(), false);
    let install_target = install_target_from_source(skill.source.as_str(), slug.as_str());
    let installable = install_target.is_some();
    let url = concat(&concat(&concat("https://skills.sh/", skill.source.as_str()), "/"), slug.as_str());
    SkillSearchResult {
        id: skill.id,
        name: skill.name,
        source: skill.source,
        skill: slug,
        repo,
        installs: skill.installs,
        url: Some(url),
        install_target,
        installable,
    }
}

/// Normalizes a v1 listing.
pub fn normalize_v1_skill(skill: V1Skill) -> (r: SkillSearchResult)
    ensures v1_result_matches(skill, r),
{
    let is_github = match &skill.source_type {
        Some(t) => str_eq(t.as_str(), "github"),
        None => github_repo_from_source(skill.source.as_str(), false).is_some(),
    };
    let repo = if is_github { github_repo_from_source(skill.source.as_str(), false) } else { None };
    let install_target = if is_github {
        install_target_from_source(skill.source.as_str(), skill.slug.as_str())
    } else {
        None
    };
    let installable = install_target.is_some();
    SkillSearchResult {
        id: skill.id,
        name: skill.name,
        source: skill.source,
        skill: skill.slug,
        repo,
        installs: skill.installs,
        url: skill.url,
        install_target,
        installable,
    }
}

/// The page size sent: at least 1, at most 200 with an API key and 100 without.
pub open spec fn normalized_limit_spec(limit: usize, authenticated: bool) -> usize {
    let l: usize = if limit < 1 { 1 } else { limit };
    let cap: usize = if authenticated { 200 } else { 100 };
    if l > cap { cap } else { l }
}

pub fn normalized_limit(limit: usize, authenticated: bool) -> (r: usize)
    ensures r == normalized_limit_spec(limit, authenticated),
{
    let limit = if limit < 1 { 1 } else { limit };
    let cap: usize = if authenticated { 200 } else { 100 };
    if limit > cap { cap } else { limit }
}

/// Whether percent-encoding keeps a byte as it is: ASCII letters and digits, `-`, `.`, `_`
/// and `~`.
pub open spec fn url_unreserved(b: u8) -> bool {
    (48 <= b <= 57) || (65 <= b <= 90) || (97 <= b <= 122) || b == 45 || b == 46 || b == 95 || b == 126
}

/// An upper-case hex digit.
pub open spec fn upper_hex_digit(n: u8) -> char {
    if n < 10 { (48 + n) as char } else { (55 + n) as char }
}

/// Bytes percent-encoded: each kept byte as its character, every other byte as `%` and two
/// upper-case hex digits.
pub open spec fn url_encoded_bytes(bytes: Seq<u8>) -> Seq<char>
    decreases bytes.len(),
{
    if bytes.len() == 0 {
        Seq::empty()
    } else {
        let b = bytes.last();
        url_encoded_bytes(bytes.drop_last()) + if url_unreserved(b) {
            seq![b as char]
        } else {
            seq!['%', upper_hex_digit(b / 16), upper_hex_digit(b % 16)]
        }
    }
}

/// A text percent-encoded byte by byte in UTF-8 (`urlencoding::encode`).
pub open spec fn url_encoded(s: Seq<char>) -> Seq<char> {
    url_encoded_bytes(encode_utf8(s))
}

/// Percent-encodes a query (`urlencoding::encode`: every byte but ASCII letters, digits,
/// `-`, `_`, `.` and `~`, as `%` and two upper-case hex digits).
#[verifier::external_body]
fn encode_query(query: &str) -> (r: String)
    ensures r@ == url_encoded(query@),
{
    urlencoding::encode(query).into_owned()
}

/// The search URL for a query and page size.
pub open spec fn search_url_spec(query: Seq<char>, limit: usize, authenticated: bool) -> Seq<char> {
    (if authenticated { BASE_AUTH_URL@ } else { BASE_PUBLIC_URL@ }) + "?q="@ + url_encoded(query) + "&limit="@
        + decimal(limit as nat)
}

pub fn search_url(query: &str, limit: usize, authenticated: bool) -> (r: String)
    ensures r@ == search_url_spec(query@, limit, authenticated),
{
    let encoded = encode_query(query);
    let base = if authenticated { BASE_AUTH_URL } else { BASE_PUBLIC_URL };
    concat(&concat(&concat(&concat(base, "?q="), encoded.as_str()), "&limit="), u64_to_decimal(limit as u64).as_str())
}

/// A search to run: the URL to request and whether an API key is sent.
#[derive(Debug)]
pub struct SearchPlan {
    pub url: String,
    pub authenticated: bool,
}

/// Message for a query that is too short.
pub open spec fn short_query_message() -> Seq<char> {
    "Search query must be at least 2 characters"@
}

/// Whether a text takes fewer than two bytes in UTF-8: it is empty, or one ASCII character.
pub open spec fn under_two_bytes(q: Seq<char>) -> bool {
    q.len() == 0 || (q.len() == 1 && (q[0] as u32) < 128)
}

/// Plans a search: the trimmed query must take at least 2 bytes.
pub fn plan_search(query: &str, limit: usize, authenticated: bool) -> (r: Result<SearchPlan, SearchFailed>)
    ensures
        r is Err <==> under_two_bytes(trim_seq(query@)),
        r matches Err(e) ==> e.message@ == short_query_message(),
        r matches Ok(p) ==> p.authenticated == authenticated
            && p.url@ == search_url_spec(trim_seq(query@), normalized_limit_spec(limit, authenticated), authenticated),
{
    let q = trim(query);
    let chars = chars_of(q.as_str());
    if chars.len() == 0 || (chars.len() == 1 && (chars[0] as u32) < 128) {
        return Err(SearchFailed::new(owned("Search query must be at least 2 characters")));
    }
    let limit = normalized_limit(limit, authenticated);
    Ok(SearchPlan { url: search_url(q.as_str(), limit, authenticated), authenticated })
}

/// Rate limiting and temporary unavailability are retried.
pub open spec fn is_retryable_status_spec(status: u16) -> bool {
    status == 429 || status == 503
}

pub fn is_retryable_status(status: u16) -> (r: bool)
    ensures r == is_retryable_status_spec(status),
{
    status == 429 || status == 503
}

/// A pause: whole seconds plus extra milliseconds (fewer than 1000).
#[derive(Debug, Clone, Copy, PartialEq, Eq, Structural)]
pub struct Delay {
    pub secs: u64,
    pub extra_millis: u64,
}

/// The value of the first header named `name`, read as whole seconds.
pub open spec fn header_seconds_spec(headers: Seq<(String, String)>, name: Seq<char>) -> Option<u64>
    decreases headers.len(),
{
    if headers.len() == 0 {
        None
    } else if headers[0].0@ == name {
        parse_u64_seq(trim_seq(headers[0].1@))
    } else {
        header_seconds_spec(headers.drop_first(), name)
    }
}

pub fn header_seconds(headers: &Vec<(String, String)>, name: &str) -> (r: Option<u64>)
    ensures r == header_seconds_spec(headers@, name@),
{
    let mut i: usize = 0;
    assert(headers@.subrange(0, headers@.len() as int) == headers@);
    while i < headers.len()
        invariant
            i <= headers.len(),
            header_seconds_spec(headers@, name@) == header_seconds_spec(headers@.subrange(i as int, headers@.len() as int), name@),
        decreases headers.len() - i,
    {
        assert(headers@.subrange(i as int, headers@.len() as int)[0] == headers@[i as int]);
        assert(headers@.subrange(i as int, headers@.len() as int).drop_first() == headers@.subrange(i + 1, headers@.len() as int));
        if str_eq(headers[i].0.as_str(), name) {
            let value = trim(headers[i].1.as_str());
            return parse_u64(value.as_str());
        }
        i += 1;
    }
    None
}

/// Exponential backoff: 1, 2, 4, then 8 seconds, with up to 249 ms of jitter by attempt.
pub open spec fn backoff_delay_spec(attempt: usize) -> Delay {
    let s: int = if attempt == 0 { 0 } else { (attempt - 1) as u32 as int };
    let secs: u64 = if s == 0 { 1 } else if s == 1 { 2 } else if s == 2 { 4 } else { 8 };
    Delay { secs, extra_millis: ((attempt as u64 * 137) % 250) as u64 }
}

pub fn backoff_delay(attempt: usize) -> (r: Delay)
    requires attempt as u64 * 137 <= u64::MAX,
    ensures r == backoff_delay_spec(attempt),
{
    let shift: u32 = if attempt == 0 { 0 } else { #[verifier::truncate] ((attempt - 1) as u32) };
    let secs: u64 = if shift == 0 { 1 } else if shift == 1 { 2 } else if shift == 2 { 4 } else { 8 };
    Delay { secs, extra_millis: (attempt as u64 * 137) % 250 }
}

/// The pause before a retry: for 429 a `retry-after` (else `x-ratelimit-reset`) header in
/// seconds, at least one; otherwise backoff by attempt.
pub open spec fn retry_delay_spec(headers: Seq<(String, String)>, status: u16, attempt: usize) -> Delay {
    if status == 429 && header_seconds_spec(headers, "retry-after"@) is Some {
        let s = header_seconds_spec(headers, "retry-after"@)->0;
        Delay { secs: if s < 1 { 1 } else { s }, extra_millis: 0 }
    } else if status == 429 && header_seconds_spec(headers, "x-ratelimit-reset"@) is Some {
        let s = header_seconds_spec(headers, "x-ratelimit-reset"@)->0;
        Delay { secs: if s < 1 { 1 } else { s }, extra_millis: 0 }
    } else {
        backoff_delay_spec(attempt)
    }
}

pub fn retry_delay(headers: &Vec<(String, String)>, status: u16, attempt: usize) -> (r: Delay)
    requires attempt as u64 * 137 <= u64::MAX,
    ensures r == retry_delay_spec(headers@, status, attempt),
{
    if status == 429 {
        if let Some(seconds) = header_seconds(headers, "retry-after") {
            return Delay { secs: if seconds < 1 { 1 } else { seconds }, extra_millis: 0 };
        }
        if let Some(seconds) = header_seconds(headers, "x-ratelimit-reset") {
            return Delay { secs: if seconds < 1 { 1 } else { seconds }, extra_millis: 0 };
        }
    }
    backoff_delay(attempt)
}

/// Whole seconds shown for a pause, at least one.
pub open spec fn display_seconds_spec(d: Delay) -> u64 {
    if d.secs < 1 { 1 } else { d.secs }
}

pub fn display_seconds(d: Delay) -> (r: u64)
    ensures r == display_seconds_spec(d),
{
    if d.secs < 1 { 1 } else { d.secs }
}

/// The notice shown before retrying after a status.
pub open spec fn retry_message_spec(status: u16, delay: Delay, next_attempt: usize) -> Seq<char> {
    let tail = "s (attempt "@ + decimal(next_attempt as nat) + "/3)."@;
    if status == 429 {
        "skills.sh rate limit reached; retrying in "@ + decimal(display_seconds_spec(delay) as nat) + tail
    } else if status == 503 {
        "skills.sh is temporarily unavailable; retrying in "@ + decimal(display_seconds_spec(delay) as nat) + tail
    } else {
        "skills.sh search failed temporarily; retrying in "@ + decimal(display_seconds_spec(delay) as nat) + tail
    }
}

pub fn retry_message(status: u16, delay: Delay, next_attempt: usize) -> (r: String)
    ensures r@ == retry_message_spec(status, delay, next_attempt),
{
    let head = if status == 429 {
        "skills.sh rate limit reached; retrying in "
    } else if status == 503 {
        "skills.sh is temporarily unavailable; retrying in "
    } else {
        "skills.sh search failed temporarily; retrying in "
    };
    let secs = u64_to_decimal(display_seconds(delay));
    let attempt = u64_to_decimal(next_attempt as u64);
    concat(&concat(&concat(&concat(head, secs.as_str()), "s (attempt "), attempt.as_str()), "/3).")
}

/// The error after the last attempt still got a retryable status.
pub open spec fn retry_exhausted_spec(status: u16, headers: Seq<(String, String)>) -> Seq<char> {
    if status == 429 {
        "skills.sh rate limit reached after 3 attempts. Please retry in about "@
            + decimal(display_seconds_spec(retry_delay_spec(headers, status, 3)) as nat)
            + "s, search less frequently, or configure KTESIO_SKILLS_SH_API_KEY when access is available."@
    } else if status == 503 {
        "skills.sh is temporarily unavailable after 3 attempts. Please retry later."@
    } else {
        "skills.sh search failed after 3 attempts. Please retry later."@
    }
}

pub fn retry_exhausted(status: u16, headers: &Vec<(String, String)>) -> (e: SearchFailed)
    ensures e.message@ == retry_exhausted_spec(status, headers@),
{
    let hint = retry_delay(headers, status, MAX_ATTEMPTS);
    if status == 429 {
        let secs = u64_to_decimal(display_seconds(hint));
        SearchFailed::new(concat(
            &concat("skills.sh rate limit reached after 3 attempts. Please retry in about ", secs.as_str()),
            "s, search less frequently, or configure KTESIO_SKILLS_SH_API_KEY when access is available.",
        ))
    } else if status == 503 {
        SearchFailed::new(owned("skills.sh is temporarily unavailable after 3 attempts. Please retry later."))
    } else {
        SearchFailed::new(owned("skills.sh search failed after 3 attempts. Please retry later."))
    }
}

/// An HTTP response: status, the rate-limit headers (lower-case names), and body.
#[derive(Debug)]
pub struct HttpResponse {
    pub status: u16,
    pub headers: Vec<(String, String)>,
    pub body: String,
}

/// The error for a status that is not retried.
pub open spec fn non_retryable_spec(status: u16, authenticated: bool) -> Seq<char> {
    if status == 400 {
        "skills.sh rejected the search query. Try a different query or lower limit."@
    } else if status == 401 && authenticated {
        "skills.sh rejected KTESIO_SKILLS_SH_API_KEY. Check the API key or unset it to use public search."@
    } else if status == 401 {
        "skills.sh search now requires authentication. Configure KTESIO_SKILLS_SH_API_KEY after receiving API access."@
    } else if status == 403 {
        "skills.sh search access was denied. Retry later or configure KTESIO_SKILLS_SH_API_KEY when access is available."@
    } else if status == 404 {
        "skills.sh search endpoint was not found. Please update Ktesio."@
    } else {
        "skills.sh search failed with HTTP status "@ + decimal(status as nat) + "."@
    }
}

pub fn non_retryable_status(response: HttpResponse, authenticated: bool) -> (e: SearchFailed)
    ensures e.message@ == non_retryable_spec(response.status, authenticated),
{
    non_retryable_error(response.status, authenticated)
}

fn non_retryable_error(status: u16, authenticated: bool) -> (e: SearchFailed)
    ensures e.message@ == non_retryable_spec(status, authenticated),
{
    if status == 400 {
        SearchFailed::new(owned("skills.sh rejected the search query. Try a different query or lower limit."))
    } else if status == 401 && authenticated {
        SearchFailed::new(owned("skills.sh rejected KTESIO_SKILLS_SH_API_KEY. Check the API key or unset it to use public search."))
    } else if status == 401 {
        SearchFailed::new(owned("skills.sh search now requires authentication. Configure KTESIO_SKILLS_SH_API_KEY after receiving API access."))
    } else if status == 403 {
        SearchFailed::new(owned("skills.sh search access was denied. Retry later or configure KTESIO_SKILLS_SH_API_KEY when access is available."))
    } else if status == 404 {
        SearchFailed::new(owned("skills.sh search endpoint was not found. Please update Ktesio."))
    } else {
        SearchFailed::new(concat(&concat("skills.sh search failed with HTTP status ", u64_to_decimal(status as u64).as_str()), "."))
    }
}

/// What one request gave back.
#[derive(Debug)]
pub enum AttemptOutcome {
    /// The server answered.
    Response(HttpResponse),
    /// The request failed before an answer; `retryable` when the connection itself failed.
    TransportError { message: String, retryable: bool },
}

/// What to do after an attempt.
#[derive(Debug)]
pub enum AttemptDecision {
    /// The answer is a success: parse its body.
    Parse,
    /// Show `notice`, wait `delay`, and try again.
    Retry { delay: Delay, notice: String },
    /// Stop with this error.
    Fail(SearchFailed),
}

/// The notice before retrying after a connection failure.
pub open spec fn connection_retry_message(delay: Delay, next_attempt: usize) -> Seq<char> {
    "skills.sh search connection failed; retrying in "@ + decimal(display_seconds_spec(delay) as nat)
        + "s (attempt "@ + decimal(next_attempt as nat) + "/3)."@
}

/// The error when the last attempt still could not connect.
pub open spec fn unreachable_message(last_error: Seq<char>) -> Seq<char> {
    "skills.sh search could not be reached after 3 attempts. Retry later or configure KTESIO_SKILLS_SH_API_KEY when access is available. Last error: "@
        + last_error
}

/// The decision after attempt number `attempt` (counted from 1) gave `outcome`.
pub open spec fn decision_spec(attempt: usize, outcome: AttemptOutcome, authenticated: bool, d: AttemptDecision) -> bool {
    let last = attempt == MAX_ATTEMPTS;
    match outcome {
        AttemptOutcome::Response(resp) => {
            if resp.status == 200 {
                d is Parse
            } else if is_retryable_status_spec(resp.status) && last {
                d is Fail && d->Fail_0.message@ == retry_exhausted_spec(resp.status, resp.headers@)
            } else if is_retryable_status_spec(resp.status) {
                &&& d is Retry
                &&& d->delay == retry_delay_spec(resp.headers@, resp.status, attempt)
                &&& d->notice@ == retry_message_spec(resp.status, d->delay, (attempt + 1) as usize)
            } else {
                d is Fail && d->Fail_0.message@ == non_retryable_spec(resp.status, authenticated)
            }
        },
        AttemptOutcome::TransportError { message, retryable } => {
            if retryable && last {
                d is Fail && d->Fail_0.message@ == unreachable_message(message@)
            } else if retryable {
                &&& d is Retry
                &&& d->delay == backoff_delay_spec(attempt)
                &&& d->notice@ == connection_retry_message(d->delay, (attempt + 1) as usize)
            } else {
                d is Fail && d->Fail_0.message@ == "skills.sh search failed: "@ + message@
            }
        },
    }
}

/// Decides what follows attempt number `attempt` (of at most three). A success is parsed;
/// rate limiting (429), unavailability (503) and connection failures are retried while
/// attempts remain; anything else fails at once.
pub fn decide_attempt(attempt: usize, outcome: &AttemptOutcome, authenticated: bool) -> (d: AttemptDecision)
    requires 1 <= attempt <= MAX_ATTEMPTS,
    ensures decision_spec(attempt, *outcome, authenticated, d),
{
    match outcome {
        AttemptOutcome::Response(resp) => {
            if resp.status == 200 {
                AttemptDecision::Parse
            } else if is_retryable_status(resp.status) {
                if attempt == MAX_ATTEMPTS {
                    AttemptDecision::Fail(retry_exhausted(resp.status, &resp.headers))
                } else {
                    let delay = retry_delay(&resp.headers, resp.status, attempt);
                    let notice = retry_message(resp.status, delay, attempt + 1);
                    AttemptDecision::Retry { delay, notice }
                }
            } else {
                AttemptDecision::Fail(non_retryable_error(resp.status, authenticated))
            }
        },
        AttemptOutcome::TransportError { message, retryable } => {
            if *retryable {
                if attempt == MAX_ATTEMPTS {
                    AttemptDecision::Fail(SearchFailed::new(concat(
                        "skills.sh search could not be reached after 3 attempts. Retry later or configure KTESIO_SKILLS_SH_API_KEY when access is available. Last error: ",
                        message.as_str(),
                    )))
                } else {
                    let delay = backoff_delay(attempt);
                    let secs = u64_to_decimal(display_seconds(delay));
                    let next = u64_to_decimal((attempt + 1) as u64);
                    let notice = concat(
                        &concat(
                            &concat(&concat("skills.sh search connection failed; retrying in ", secs.as_str()), "s (attempt "),
                            next.as_str(),
                        ),
                        "/3).",
                    );
                    AttemptDecision::Retry { delay, notice }
                }
            } else {
                AttemptDecision::Fail(SearchFailed::new(concat("skills.sh search failed: ", message.as_str())))
            }
        },
    }
}

/// The error for a success whose body is not the expected JSON.
pub open spec fn unexpected_response_message(authenticated: bool) -> Seq<char> {
    if authenticated {
        "skills.sh returned an unexpected authenticated search response"@
    } else {
        "skills.sh returned an unexpected public search response"@
    }
}

pub fn unexpected_response(authenticated: bool) -> (e: SearchFailed)
    ensures e.message@ == unexpected_response_message(authenticated),
{
    if authenticated {
        SearchFailed::new(owned("skills.sh returned an unexpected authenticated search response"))
    } else {
        SearchFailed::new(owned("skills.sh returned an unexpected public search response"))
    }
}

/// Normalizes every listing of a public response, in order.
pub fn normalize_public_results(skills: Vec<PublicSkill>) -> (r: Vec<SkillSearchResult>)
    ensures
        r.len() == skills.len(),
        forall|i: int| 0 <= i < r.len() ==> public_result_matches(#[trigger] skills@[i], r@[i]),
{
    let mut rest = skills;
    let ghost orig = rest@;
    let mut out: Vec<SkillSearchResult> = Vec::new();
    while rest.len() > 0
        invariant
            out.len() + rest.len() == orig.len(),
            rest@ == orig.subrange(out.len() as int, orig.len() as int),
            forall|i: int| 0 <= i < out.len() ==> public_result_matches(#[trigger] orig[i], out@[i]),
        decreases rest.len(),
    {
        assert(rest@[0] == orig[out.len() as int]);
        let s = rest.remove(0);
        out.push(normalize_public_skill(s));
        assert(rest@ == orig.subrange(out.len() as int, orig.len() as int));
    }
    out
}

/// Normalizes every listing of a v1 response, in order.
pub fn normalize_v1_results(skills: Vec<V1Skill>) -> (r: Vec<SkillSearchResult>)
    ensures
        r.len() == skills.len(),
        forall|i: int| 0 <= i < r.len() ==> v1_result_matches(#[trigger] skills@[i], r@[i]),
{
    let mut rest = skills;
    let ghost orig = rest@;
    let mut out: Vec<SkillSearchResult> = Vec::new();
    while rest.len() > 0
        invariant
            out.len() + rest.len() == orig.len(),
            rest@ == orig.subrange(out.len() as int, orig.len() as int),
            forall|i: int| 0 <= i < out.len() ==> v1_result_matches(#[trigger] orig[i], out@[i]),
        decreases rest.len(),
    {
        assert(rest@[0] == orig[out.len() as int]);
        let s = rest.remove(0);
        out.push(normalize_v1_skill(s));
        assert(rest@ == orig.subrange(out.len() as int, orig.len() as int));
    }
    out
}

/// A short description of a transport error, from words in its (ASCII lower-cased) message.
pub open spec fn friendly_transport_error_spec(message: Seq<char>) -> Seq<char> {
    let lower = ascii_lower_seq(message);
    if occurs_in(lower, "dns"@) || occurs_in(lower, "resolve"@) || occurs_in(lower, "lookup"@) {
        "DNS lookup failed"@
    } else if occurs_in(lower, "timed out"@) || occurs_in(lower, "timeout"@) {
        "connection timed out"@
    } else if occurs_in(lower, "connection refused"@) {
        "connection refused"@
    } else {
        "temporary network error"@
    }
}

pub fn friendly_transport_error(message: &str) -> (r: String)
    ensures r@ == friendly_transport_error_spec(message@),
{
    let lower = to_ascii_lower(message);
    let l = lower.as_str();
    if contains_str(l, "dns") || contains_str(l, "resolve") || contains_str(l, "lookup") {
        owned("DNS lookup failed")
    } else if contains_str(l, "timed out") || contains_str(l, "timeout") {
        owned("connection timed out")
    } else if contains_str(l, "connection refused") {
        owned("connection refused")
    } else {
        owned("temporary network error")
    }
}

} // verus!

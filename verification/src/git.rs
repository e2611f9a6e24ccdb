//! Git support: where skills live, reading `git` progress output, and summarizing failures.

use vstd::prelude::*;
use crate::error::{GitCheckoutFailed, GitCloneFailed, GitFetchFailed, GitRevParseFailed};
use crate::text::{chars_of, concat, decimal, has_prefix, has_suffix, is_ascii_digit, is_ascii_digit_char,
    is_white, is_white_char, owned, parse_u64, parse_u64_seq, split_by, split_seq, starts_with, strip_prefix, trim,
    trim_end_seq, trim_seq, u64_to_decimal, push_char};

verus! {

/// `base` joined with `part` the way `Path::join` does on Unix: an absolute `part`
/// replaces `base`, otherwise a `/` separates them unless `base` is empty or ends with one.
pub open spec fn join_path_spec(base: Seq<char>, part: Seq<char>) -> Seq<char> {
    if has_prefix(part, "/"@) || base.len() == 0 {
        part
    } else if has_suffix(base, "/"@) {
        base + part
    } else {
        base + "/"@ + part
    }
}

/// Joins two path strings as `Path::join` does on Unix.
pub fn join_path(base: &str, part: &str) -> (r: String)
    ensures r@ == join_path_spec(base@, part@),
{
    if starts_with(part, "/") || base.is_empty() {
        owned(part)
    } else if crate::text::ends_with(base, "/") {
        concat(base, part)
    } else {
        concat(&concat(base, "/"), part)
    }
}

/// The install directory of skill `name`: `<project>/.agents/skills/<name>`.
pub open spec fn skill_dir_spec(project_root: Seq<char>, name: Seq<char>) -> Seq<char> {
    join_path_spec(join_path_spec(join_path_spec(project_root, ".agents"@), "skills"@), name)
}

/// The install directory of skill `name` in the project.
pub fn skill_dir(project_root: &str, name: &str) -> (r: String)
    ensures r@ == skill_dir_spec(project_root@, name@),
{
    let agents = join_path(project_root, ".agents");
    let skills = join_path(agents.as_str(), "skills");
    join_path(skills.as_str(), name)
}

/// A stage of `git clone` progress output.
#[derive(Debug, Clone, Copy, PartialEq, Eq, Structural)]
pub enum GitProgressStage {
    Counting,
    Compressing,
    Receiving,
    Resolving,
    Updating,
}

/// The label shown for a stage.
pub open spec fn stage_label(stage: GitProgressStage) -> Seq<char> {
    match stage {
        GitProgressStage::Counting => "Counting objects"@,
        GitProgressStage::Compressing => "Compressing objects"@,
        GitProgressStage::Receiving => "Receiving objects"@,
        GitProgressStage::Resolving => "Resolving deltas"@,
        GitProgressStage::Updating => "Writing files"@,
    }
}

/// The overall progress position for a stage at `percent` (capped at 100): each stage
/// owns a band of the bar, from 5 up to 95.
pub open spec fn mapped_position_spec(stage: GitProgressStage, percent: u64) -> int {
    let p: int = if percent > 100 { 100 } else { percent as int };
    match stage {
        GitProgressStage::Counting => 5 + p * 15 / 100,
        GitProgressStage::Compressing => 20 + p * 20 / 100,
        GitProgressStage::Receiving => 40 + p * 35 / 100,
        GitProgressStage::Resolving => 75 + p * 15 / 100,
        GitProgressStage::Updating => 90 + p * 5 / 100,
    }
}

impl GitProgressStage {
    /// The label shown for the stage.
    pub fn label(self) -> (r: &'static str)
        ensures r@ == stage_label(self),
    {
        match self {
            GitProgressStage::Counting => "Counting objects",
            GitProgressStage::Compressing => "Compressing objects",
            GitProgressStage::Receiving => "Receiving objects",
            GitProgressStage::Resolving => "Resolving deltas",
            GitProgressStage::Updating => "Writing files",
        }
    }

    /// The overall progress position for the stage at `percent`.
    pub fn mapped_position(self, percent: u64) -> (r: u64)
        ensures r == mapped_position_spec(self, percent),
    {
        let p = if percent > 100 { 100 } else { percent };
        match self {
            GitProgressStage::Counting => 5 + (p * 15 / 100),
            GitProgressStage::Compressing => 20 + (p * 20 / 100),
            GitProgressStage::Receiving => 40 + (p * 35 / 100),
            GitProgressStage::Resolving => 75 + (p * 15 / 100),
            GitProgressStage::Updating => 90 + (p * 5 / 100),
        }
    }
}

/// The longest run of ASCII digits at the end of `t`.
pub open spec fn digit_suffix(t: Seq<char>) -> Seq<char>
    decreases t.len(),
{
    if t.len() > 0 && is_ascii_digit(t.last()) {
        digit_suffix(t.drop_last()).push(t.last())
    } else {
        Seq::empty()
    }
}

/// The number written just before the first `%` of `line` (white space between them allowed).
pub open spec fn parse_percent_spec(line: Seq<char>) -> Option<u64> {
    let k = crate::text::find_sep(line, Some('%'));
    if k >= line.len() {
        None
    } else {
        let digits = digit_suffix(trim_end_seq(line.subrange(0, k as int)));
        if digits.len() == 0 { None } else { parse_u64_seq(digits) }
    }
}

/// The text of a progress line with white space and a `remote:` prefix removed.
pub open spec fn cleaned_progress_line(line: Seq<char>) -> Seq<char> {
    let t = trim_seq(line);
    if has_prefix(t, "remote:"@) { trim_seq(t.subrange("remote:"@.len() as int, t.len() as int)) } else { t }
}

/// The stage a cleaned progress line belongs to.
pub open spec fn stage_of(cleaned: Seq<char>) -> Option<GitProgressStage> {
    if has_prefix(cleaned, "Counting objects:"@) {
        Some(GitProgressStage::Counting)
    } else if has_prefix(cleaned, "Compressing objects:"@) {
        Some(GitProgressStage::Compressing)
    } else if has_prefix(cleaned, "Receiving objects:"@) {
        Some(GitProgressStage::Receiving)
    } else if has_prefix(cleaned, "Resolving deltas:"@) {
        Some(GitProgressStage::Resolving)
    } else if has_prefix(cleaned, "Updating files:"@) {
        Some(GitProgressStage::Updating)
    } else {
        None
    }
}

/// The stage and percentage a `git` progress line reports, if it is one.
pub open spec fn parse_git_progress_spec(line: Seq<char>) -> Option<(GitProgressStage, u64)> {
    let cleaned = cleaned_progress_line(line);
    match stage_of(cleaned) {
        None => None,
        Some(stage) => match parse_percent_spec(cleaned) {
            None => None,
            Some(p) => Some((stage, p)),
        },
    }
}

/// The number before the first `%` of a line.
pub fn parse_percent(line: &str) -> (r: Option<u64>)
    ensures r == parse_percent_spec(line@),
{
    let v = chars_of(line);
    let k = crate::text::find_sep_from(&v, 0, Some('%'));
    assert(v@.subrange(0, v@.len() as int) == v@);
    if k >= v.len() {
        return None;
    }
    let mut end = k;
    while end > 0 && is_white_char(v[end - 1])
        invariant
            end <= k < v.len(), v@ == line@,
            trim_end_seq(line@.subrange(0, k as int)) == trim_end_seq(v@.subrange(0, end as int)),
        decreases end,
    {
        assert(v@.subrange(0, end as int).drop_last() == v@.subrange(0, end - 1));
        end -= 1;
    }
    let mut start = end;
    while start > 0 && is_ascii_digit_char(v[start - 1])
        invariant
            start <= end <= k < v.len(), v@ == line@,
            trim_end_seq(line@.subrange(0, k as int)) == v@.subrange(0, end as int),
            digit_suffix(v@.subrange(0, end as int))
                == digit_suffix(v@.subrange(0, start as int)) + v@.subrange(start as int, end as int),
        decreases start,
    {
        assert(v@.subrange(0, start as int).drop_last() == v@.subrange(0, start - 1));
        assert(v@.subrange(start - 1, end as int) == seq![v@[start - 1]] + v@.subrange(start as int, end as int));
        start -= 1;
    }
    proof {
        lemma_trim_end_not_white(line@.subrange(0, k as int));
        if start > 0 {
            assert(!is_ascii_digit(v@.subrange(0, start as int).last()));
        }
        assert(digit_suffix(v@.subrange(0, start as int)) =~= Seq::<char>::empty());
    }
    if start == end {
        return None;
    }
    let digits = crate::text::string_of_range(&v, start, end);
    parse_u64(digits.as_str())
}

/// After trimming, the end is not white space.
pub proof fn lemma_trim_end_not_white(s: Seq<char>)
    ensures trim_end_seq(s).len() > 0 ==> !is_white(trim_end_seq(s).last()),
    decreases s.len(),
{
    if s.len() > 0 && is_white(s.last()) {
        lemma_trim_end_not_white(s.drop_last());
    }
}

/// The cleaned text of a progress line.
fn clean_progress_line(line: &str) -> (r: String)
    ensures r@ == cleaned_progress_line(line@),
{
    let t = trim(line);
    match strip_prefix(t.as_str(), "remote:") {
        Some(rest) => trim(rest.as_str()),
        None => t,
    }
}

/// The stage and percentage a `git` progress line reports, if it is one.
pub fn parse_git_progress(line: &str) -> (r: Option<(GitProgressStage, u64)>)
    ensures r == parse_git_progress_spec(line@),
{
    let cleaned = clean_progress_line(line);
    let c = cleaned.as_str();
    let stage = if starts_with(c, "Counting objects:") {
        GitProgressStage::Counting
    } else if starts_with(c, "Compressing objects:") {
        GitProgressStage::Compressing
    } else if starts_with(c, "Receiving objects:") {
        GitProgressStage::Receiving
    } else if starts_with(c, "Resolving deltas:") {
        GitProgressStage::Resolving
    } else if starts_with(c, "Updating files:") {
        GitProgressStage::Updating
    } else {
        return None;
    };
    match parse_percent(c) {
        Some(p) => Some((stage, p)),
        None => None,
    }
}

/// The bar position and message for a progress line, if it reports progress.
pub fn progress_update(line: &str) -> (r: Option<(u64, String)>)
    ensures
        r is Some <==> parse_git_progress_spec(line@) is Some,
        r matches Some(u) ==> {
            let (stage, p) = parse_git_progress_spec(line@)->0;
            &&& u.0 == mapped_position_spec(stage, p)
            &&& u.1@ == stage_label(stage) + " "@ + decimal(p as nat) + "%"@
        },
{
    match parse_git_progress(line) {
        None => None,
        Some((stage, p)) => {
            let text = concat(&concat(&concat(stage.label(), " "), u64_to_decimal(p).as_str()), "%");
            Some((stage.mapped_position(p), text))
        }
    }
}

/// `String::from_utf8_lossy`: the decoded text depends on the bytes alone, under this name.
pub uninterp spec fn utf8_lossy(bytes: Seq<u8>) -> Seq<char>;

/// Decodes bytes as UTF-8, replacing invalid sequences (`String::from_utf8_lossy`).
#[verifier::external_body]
pub(crate) fn from_utf8_lossy(bytes: &[u8]) -> (r: String)
    ensures r@ == utf8_lossy(bytes@),
{
    String::from_utf8_lossy(bytes).into_owned()
}

/// `\r` or `\n`: where `git` ends a line of progress output.
pub open spec fn is_line_end(c: char) -> bool {
    c == '\r' || c == '\n'
}

/// Text cut after each line end: the complete lines, each with its line end, and what follows
/// the last line end.
pub open spec fn cut_lines(s: Seq<char>) -> (Seq<Seq<char>>, Seq<char>)
    decreases s.len(),
{
    if s.len() == 0 {
        (Seq::empty(), Seq::empty())
    } else {
        let (lines, rest) = cut_lines(s.drop_last());
        let cur = rest.push(s.last());
        if is_line_end(s.last()) { (lines.push(cur), Seq::empty()) } else { (lines, cur) }
    }
}

/// The bytes `c` takes in UTF-8.
pub open spec fn utf8_width(c: char) -> int {
    let v = c as u32;
    if v < 0x80 { 1 } else if v < 0x800 { 2 } else if v < 0x10000 { 3 } else { 4 }
}

/// The bytes a text takes in UTF-8 (`str::len`).
pub open spec fn utf8_byte_len(s: Seq<char>) -> int
    decreases s.len(),
{
    if s.len() == 0 { 0 } else { utf8_byte_len(s.drop_last()) + utf8_width(s.last()) }
}

/// The most a progress buffer keeps while it waits for a line end, in UTF-8 bytes.
pub const PROGRESS_BUFFER_LIMIT: usize = 4096;

/// What a progress buffer holding `buffer` gives out when `received` arrives: its complete
/// lines, then what is left when that is longer than the limit; and what it keeps.
pub open spec fn progress_take_spec(buffer: Seq<char>, received: Seq<char>) -> (Seq<Seq<char>>, Seq<char>) {
    let (lines, rest) = cut_lines(buffer + received);
    if utf8_byte_len(rest) > PROGRESS_BUFFER_LIMIT {
        (lines.push(rest), Seq::empty())
    } else {
        (lines, rest)
    }
}

/// Adds the bytes `git` wrote (decoded as `String::from_utf8_lossy` does) to the progress
/// buffer and takes out the lines to read progress from.
pub fn take_progress_lines(buffer: &mut String, received: &[u8]) -> (lines: Vec<String>)
    ensures
        lines@.map_values(|l: String| l@) == progress_take_spec(old(buffer)@, utf8_lossy(received@)).0,
        final(buffer)@ == progress_take_spec(old(buffer)@, utf8_lossy(received@)).1,
{
    let text = from_utf8_lossy(received);
    let ghost all = buffer@ + text@;
    let mut chars = chars_of(buffer.as_str());
    let more = chars_of(text.as_str());
    let mut j: usize = 0;
    while j < more.len()
        invariant
            j <= more@.len(),
            more@ == text@,
            chars@ == buffer@ + text@.subrange(0, j as int),
        decreases more.len() - j,
    {
        chars.push(more[j]);
        j += 1;
    }
    assert(text@.subrange(0, text@.len() as int) =~= text@);
    let mut lines: Vec<String> = Vec::new();
    let mut cur = String::new();
    let mut cur_bytes: u128 = 0;
    let mut i: usize = 0;
    while i < chars.len()
        invariant
            i <= chars@.len(),
            chars@ == all,
            lines@.map_values(|l: String| l@) == cut_lines(all.subrange(0, i as int)).0,
            cur@ == cut_lines(all.subrange(0, i as int)).1,
            cur_bytes == utf8_byte_len(cur@),
            cur_bytes <= 4 * i,
        decreases chars.len() - i,
    {
        proof {
            assert(all.subrange(0, i + 1).drop_last() =~= all.subrange(0, i as int));
        }
        let c = chars[i];
        let ghost prev = cur@;
        push_char(&mut cur, c);
        assert(cur@.drop_last() =~= prev);
        let code = c as u32;
        let width: u128 = if code < 0x80 { 1 } else if code < 0x800 { 2 } else if code < 0x10000 { 3 } else { 4 };
        cur_bytes = cur_bytes + width;
        if c == '\r' || c == '\n' {
            let ghost before = lines@;
            lines.push(cur);
            assert(lines@.map_values(|l: String| l@) =~= before.map_values(|l: String| l@).push(lines@.last()@));
            cur = String::new();
            cur_bytes = 0;
        }
        i += 1;
    }
    assert(all.subrange(0, all.len() as int) =~= all);
    if cur_bytes > PROGRESS_BUFFER_LIMIT as u128 {
        let ghost before = lines@;
        lines.push(cur);
        assert(lines@.map_values(|l: String| l@) =~= before.map_values(|l: String| l@).push(lines@.last()@));
        *buffer = String::new();
    } else {
        *buffer = cur;
    }
    lines
}

/// A line of `git` error output worth showing: not empty, not progress, not `Cloning into`.
pub open spec fn is_failure_detail(line: Seq<char>) -> bool {
    line.len() > 0 && parse_git_progress_spec(line) is None && !has_prefix(line, "Cloning into "@)
}

/// `\r` read as a line break.
pub open spec fn cr_as_newline(c: char) -> char {
    if c == '\r' { '\n' } else { c }
}

/// The trimmed lines of `git` error text worth showing, in order.
pub open spec fn failure_details(text: Seq<char>) -> Seq<Seq<char>> {
    split_seq(text.map_values(|c: char| cr_as_newline(c)), Some('\n'))
        .map_values(|l: Seq<char>| trim_seq(l))
        .filter(|l: Seq<char>| is_failure_detail(l))
}

/// The last line of `git` error text worth showing, or a fixed message when there is none.
pub open spec fn summarize_spec(text: Seq<char>) -> Seq<char> {
    let details = failure_details(text);
    if details.len() > 0 { details.last() } else { "git exited without a detailed error"@ }
}

/// Sums up `git` error text by its last meaningful line.
pub fn summarize_git_text(text: &str) -> (r: String)
    ensures r@ == summarize_spec(text@),
{
    let v = chars_of(text);
    let mut normalized = String::new();
    let mut i: usize = 0;
    while i < v.len()
        invariant
            i <= v.len(), v@ == text@,
            normalized@ == v@.subrange(0, i as int).map_values(|c: char| cr_as_newline(c)),
        decreases v.len() - i,
    {
        let c = if v[i] == '\r' { '\n' } else { v[i] };
        crate::text::push_char(&mut normalized, c);
        assert(v@.subrange(0, i + 1).map_values(|c: char| cr_as_newline(c))
            == v@.subrange(0, i as int).map_values(|c: char| cr_as_newline(c)).push(c));
        i += 1;
    }
    assert(v@.subrange(0, v@.len() as int) == v@);
    let lines = split_by(normalized.as_str(), Some('\n'));
    let ghost pieces = split_seq(normalized@, Some('\n'));
    let ghost trimmed = pieces.map_values(|l: Seq<char>| trim_seq(l));
    let ghost keep = |l: Seq<char>| is_failure_detail(l);
    let mut last: Option<String> = None;
    let mut j: usize = 0;
    proof {
        reveal(Seq::filter);
        assert(trimmed.subrange(0, 0).filter(keep) =~= Seq::<Seq<char>>::empty());
    }
    while j < lines.len()
        invariant
            j <= lines.len(), lines@.len() == pieces.len(),
            forall|k: int| 0 <= k < lines@.len() ==> #[trigger] lines@[k]@ == pieces[k],
            trimmed == pieces.map_values(|l: Seq<char>| trim_seq(l)),
            keep == (|l: Seq<char>| is_failure_detail(l)),
            last is None <==> trimmed.subrange(0, j as int).filter(keep).len() == 0,
            last matches Some(l) ==> l@ == trimmed.subrange(0, j as int).filter(keep).last(),
        decreases lines.len() - j,
    {
        assert(lines@.map_values(|p: String| p@)[j as int] == lines@[j as int]@);
        let t = trim(lines[j].as_str());
        assert(trimmed.subrange(0, j + 1) == trimmed.subrange(0, j as int).push(trimmed[j as int]));
        proof { trimmed.subrange(0, j as int).lemma_filter_push(trimmed[j as int], keep); }
        if !t.as_str().is_empty() && parse_git_progress(t.as_str()).is_none() && !starts_with(t.as_str(), "Cloning into ") {
            last = Some(t);
        }
        j += 1;
    }
    assert(trimmed.subrange(0, lines@.len() as int) == trimmed);
    match last {
        Some(l) => l,
        None => owned("git exited without a detailed error"),
    }
}

/// Sums up `git` error output (bytes, decoded leniently) by its last meaningful line.
pub fn summarize_git_failure(stderr: &[u8]) -> (r: String)
    ensures r@ == summarize_spec(utf8_lossy(stderr@)),
{
    let text = from_utf8_lossy(stderr);
    summarize_git_text(text.as_str())
}

/// The branch named by `git symbolic-ref refs/remotes/origin/HEAD` output, if it names one.
pub fn branch_from_symbolic_ref(output: &str) -> (r: Option<String>)
    ensures
        r is Some <==> has_prefix(trim_seq(output@), "refs/remotes/origin/"@),
        r matches Some(b) ==> b@ == trim_seq(output@).subrange("refs/remotes/origin/"@.len() as int, trim_seq(output@).len() as int),
{
    let refname = trim(output);
    strip_prefix(refname.as_str(), "refs/remotes/origin/")
}

/// The error for a `git clone` that exited with failure.
pub fn clone_failure(url: &str, stderr: &[u8]) -> (e: GitCloneFailed)
    ensures e.message@ == "git clone failed for "@ + url@ + ": "@ + summarize_spec(utf8_lossy(stderr@)),
{
    let summary = summarize_git_failure(stderr);
    GitCloneFailed::new(concat(&concat(&concat("git clone failed for ", url), ": "), summary.as_str()))
}

/// The error for a `git fetch` that exited with failure.
pub fn fetch_failure(repo_dir: &str, stderr: &[u8]) -> (e: GitFetchFailed)
    ensures e.message@ == "git fetch failed in "@ + repo_dir@ + ": "@ + summarize_spec(utf8_lossy(stderr@)),
{
    let summary = summarize_git_failure(stderr);
    GitFetchFailed::new(concat(&concat(&concat("git fetch failed in ", repo_dir), ": "), summary.as_str()))
}

/// The error for a `git checkout <rev>` that exited with failure.
pub fn checkout_failure(rev: &str, repo_dir: &str, stderr: &[u8]) -> (e: GitCheckoutFailed)
    ensures e.message@ == "git checkout "@ + rev@ + " failed in "@ + repo_dir@ + ": "@ + summarize_spec(utf8_lossy(stderr@)),
{
    let summary = summarize_git_failure(stderr);
    GitCheckoutFailed::new(concat(
        &concat(&concat(&concat(&concat("git checkout ", rev), " failed in "), repo_dir), ": "),
        summary.as_str(),
    ))
}

/// The commit printed by `git rev-parse HEAD`, without surrounding white space.
pub fn head_from_rev_parse(stdout: &[u8]) -> (r: String)
    ensures r@ == trim_seq(utf8_lossy(stdout@)),
{
    let text = from_utf8_lossy(stdout);
    trim(text.as_str())
}

/// The error for a `git rev-parse HEAD` that exited with failure.
pub fn rev_parse_failure(repo_dir: &str) -> (e: GitRevParseFailed)
    ensures e.message@ == "git rev-parse HEAD failed in "@ + repo_dir@,
{
    GitRevParseFailed::new(concat("git rev-parse HEAD failed in ", repo_dir))
}

} // verus!

//! Properties that hold across the library's operations.

use vstd::prelude::*;
use crate::git::{cut_lines, is_line_end, mapped_position_spec, progress_take_spec, utf8_byte_len, GitProgressStage,
    PROGRESS_BUFFER_LIMIT};
use crate::install_target::{
    github_repo_from_source_spec, has_local_prefix, install_target_from_source_spec,
    is_full_git_url, is_github_component, resolve_spec,
};
use crate::install::LOCAL_COMMIT;
use crate::lockfile::{commit_checks, entries_problem, is_commit_hash, LockEntry, Lockfile};
use crate::name_map::NameMap;
use crate::scan::lemma_first_some_none;
use crate::manifest::{dependency_checks, dependency_problem, is_skill_char, is_skill_name, name_checks, parse_rev_spec,
    publish_checks, publish_problem, other_than, DependencyEntry, Manifest, PublishEntry, PublishObject, RevKind};
use crate::scan::{first_some, or_else, somes};
use crate::self_update::release_target_spec;
use crate::skills_sh::normalized_limit_spec;
use crate::install_channel::{channel_spec, in_cargo_bin, in_homebrew_cellar, path_components, path_starts_with, InstallChannel};
use crate::git::{join_path_spec, skill_dir_spec};
use crate::list::status_rows;
use crate::install::{install_target_spec, has_url_prefix};
use crate::self_update::hex_of;
use crate::skills_sh::{decision_spec, AttemptDecision, AttemptOutcome, MAX_ATTEMPTS};
use crate::text::{find_sep, has_prefix, is_sep, lemma_find_sep, split_seq, trim_seq};
use crate::update_check::{cache_is_fresh_spec, CHECK_INTERVAL_SECS};

verus! {

/// What a lockfile gives back for a name is what was last locked for it; other names keep
/// their entries.
pub proof fn law_lock_read_after_write(l: Lockfile, name: Seq<char>, e: LockEntry, other: Seq<char>)
    requires l.wf(), other != name,
    ensures
        l.locked().insert(name, e).contains_key(name),
        l.locked().insert(name, e)[name] == e,
        l.locked().insert(name, e).contains_key(other) == l.locked().contains_key(other),
        l.locked().contains_key(other) ==> l.locked().insert(name, e)[other] == l.locked()[other],
{
}

/// Locking a name that was not locked and unlocking it again leaves the lockfile as it was.
pub proof fn law_lock_insert_remove(l: Lockfile, name: Seq<char>, e: LockEntry)
    requires l.wf(), !l.locked().contains_key(name),
    ensures l.locked().insert(name, e).remove(name) == l.locked(),
{
    assert(l.locked().insert(name, e).remove(name) =~= l.locked());
}

/// Every locked commit is a full commit id.
pub open spec fn commits_ok(m: Map<Seq<char>, LockEntry>) -> bool {
    forall|k: Seq<char>| m.contains_key(k) ==> is_commit_hash(#[trigger] m[k].commit@)
}

/// The commit check of a lockfile passes exactly when every locked commit is a full commit id.
pub proof fn lemma_commit_check_passes(entries: NameMap<LockEntry>)
    requires
        entries.wf(),
    ensures
        entries_problem(entries) is None <==> commits_ok(entries.as_map()),
{
    let keys = entries.keys_view();
    let vals = entries.vals_view();
    let f = commit_checks(keys, vals);
    lemma_first_some_none(0, keys.len() as int, f);
    if entries_problem(entries) is None {
        assert forall|k: Seq<char>| entries.as_map().contains_key(k) implies is_commit_hash(#[trigger] entries.as_map()[k].commit@) by {
            let j = keys.index_of(k);
            entries.lemma_at(j);
            assert(f(j) is None);
        }
    }
    if commits_ok(entries.as_map()) {
        assert forall|j: int| 0 <= j < keys.len() implies #[trigger] f(j) is None by {
            entries.lemma_at(j);
            assert(is_commit_hash(entries.as_map()[keys[j]].commit@));
        }
    }
}

/// A lockfile stays readable as skills are locked: locking a full commit id keeps every
/// commit a full commit id, and the commit local installs are locked at is one.
pub proof fn law_locking_keeps_commits_valid(l: Lockfile, name: Seq<char>, e: LockEntry)
    requires
        l.wf(),
        entries_problem(l.entries) is None,
        is_commit_hash(e.commit@),
    ensures
        commits_ok(l.locked().insert(name, e)),
        is_commit_hash(LOCAL_COMMIT@),
{
    lemma_commit_check_passes(l.entries);
    reveal_strlit("0000000000000000000000000000000000000000");
    assert forall|i: int| 0 <= i < LOCAL_COMMIT@.len() implies crate::text::is_ascii_hex(#[trigger] LOCAL_COMMIT@[i]) by {
        assert(LOCAL_COMMIT@[i] == '0');
    }
}

/// Every dependency name is a skill name and follows the dependency rules, and every publish
/// entry follows the publish rules.
pub open spec fn manifest_ok(deps: Map<Seq<char>, DependencyEntry>, publish: Seq<PublishEntry>) -> bool {
    &&& forall|k: Seq<char>| #[trigger] deps.contains_key(k) ==> is_skill_name(k) && dependency_problem(k, deps[k]) is None
    &&& forall|i: int| 0 <= i < publish.len() ==> #[trigger] publish_problem(deps, publish[i]) is None
}

/// A manifest passes its checks exactly when its dependencies and publish entries follow the
/// rules, whatever their order.
pub proof fn lemma_manifest_check_passes(m: Manifest)
    requires
        m.wf(),
    ensures
        m.problem() is None <==> manifest_ok(m.deps(), m.publish@),
{
    let keys = m.dependencies.keys_view();
    let vals = m.dependencies.vals_view();
    let n = keys.len() as int;
    let fname = name_checks(keys);
    let fdep = dependency_checks(keys, vals);
    let fpub = publish_checks(m.deps(), m.publish@);
    lemma_first_some_none(0, n, fname);
    lemma_first_some_none(0, n, fdep);
    lemma_first_some_none(0, m.publish@.len() as int, fpub);
    if m.problem() is None {
        assert(first_some(n, fname) is None);
        assert(first_some(n, fdep) is None);
        assert(first_some(m.publish@.len() as int, fpub) is None);
        assert forall|k: Seq<char>| #[trigger] m.deps().contains_key(k)
            implies is_skill_name(k) && dependency_problem(k, m.deps()[k]) is None by {
            let j = keys.index_of(k);
            m.dependencies.lemma_at(j);
            assert(fname(j) is None);
            assert(fdep(j) is None);
        }
        assert forall|i: int| 0 <= i < m.publish@.len() implies #[trigger] publish_problem(m.deps(), m.publish@[i]) is None by {
            assert(fpub(i) is None);
        }
    }
    if manifest_ok(m.deps(), m.publish@) {
        assert forall|j: int| 0 <= j < n implies #[trigger] fname(j) is None by {
            m.dependencies.lemma_at(j);
            assert(m.deps().contains_key(keys[j]));
        }
        assert forall|j: int| 0 <= j < n implies #[trigger] fdep(j) is None by {
            m.dependencies.lemma_at(j);
            assert(m.deps().contains_key(keys[j]));
        }
        assert forall|i: int| 0 <= i < m.publish@.len() implies #[trigger] fpub(i) is None by {
            assert(publish_problem(m.deps(), m.publish@[i]) is None);
        }
    }
}

/// A valid manifest stays valid when a new dependency that follows the rules is declared
/// under a skill name.
pub proof fn law_declaring_keeps_manifest_valid(m: Manifest, name: Seq<char>, d: DependencyEntry)
    requires
        m.wf(),
        m.problem() is None,
        is_skill_name(name),
        !m.deps().contains_key(name),
        dependency_problem(name, d) is None,
    ensures
        manifest_ok(m.deps().insert(name, d), m.publish@),
{
    lemma_manifest_check_passes(m);
    let deps = m.deps();
    let deps2 = deps.insert(name, d);
    assert forall|i: int| 0 <= i < m.publish@.len() implies #[trigger] publish_problem(deps2, m.publish@[i]) is None by {
        assert(publish_problem(deps, m.publish@[i]) is None);
        match m.publish@[i] {
            PublishEntry::Dependency(n) => {
                assert(deps.contains_key(n@));
                assert(n@ != name);
            },
            PublishEntry::Object(_) => {},
        }
    }
}

/// Declaring a new dependency and removing it again leaves the dependencies as they were;
/// while declared it is a skill of the manifest.
pub proof fn law_manifest_add_remove(m: Manifest, name: Seq<char>, d: DependencyEntry)
    requires m.wf(), !m.deps().contains_key(name),
    ensures
        m.deps().insert(name, d).contains_key(name),
        m.deps().insert(name, d).remove(name) == m.deps(),
{
    assert(m.deps().insert(name, d).remove(name) =~= m.deps());
}

/// A sequence without a separator is one piece, and it comes before what follows a separator.
pub proof fn lemma_find_sep_concat(a: Seq<char>, b: Seq<char>, sep: Option<char>)
    requires forall|i: int| 0 <= i < a.len() ==> !is_sep(sep, #[trigger] a[i]),
    ensures find_sep(a + b, sep) == a.len() + find_sep(b, sep),
    decreases a.len(),
{
    if a.len() > 0 {
        assert((a + b).drop_first() == a.drop_first() + b);
        assert((a + b)[0] == a[0]);
        assert forall|i: int| 0 <= i < a.drop_first().len() implies !is_sep(sep, #[trigger] a.drop_first()[i]) by {
            assert(a.drop_first()[i] == a[i + 1]);
        }
        lemma_find_sep_concat(a.drop_first(), b, sep);
    } else {
        assert(a + b == b);
    }
}

/// Splitting `a`, a separator, then `b`, where `a` holds no separator, gives `a` then the
/// pieces of `b`.
pub proof fn lemma_split_concat(a: Seq<char>, c: char, b: Seq<char>)
    requires
        forall|i: int| 0 <= i < a.len() ==> #[trigger] a[i] != c,
    ensures
        split_seq(a + seq![c] + b, Some(c)) == seq![a] + split_seq(b, Some(c)),
{
    let s = a + seq![c] + b;
    assert forall|i: int| 0 <= i < a.len() implies !is_sep(Some(c), #[trigger] a[i]) by {}
    assert(s == a + (seq![c] + b));
    lemma_find_sep_concat(a, seq![c] + b, Some(c));
    assert((seq![c] + b)[0] == c);
    assert(find_sep(seq![c] + b, Some(c)) == 0);
    assert(find_sep(s, Some(c)) == a.len());
    assert(s.subrange(0, a.len() as int) == a);
    assert(s.subrange(a.len() + 1int, s.len() as int) == b);
}

/// A sequence without the separator is a single piece.
pub proof fn lemma_split_single(a: Seq<char>, c: char)
    requires forall|i: int| 0 <= i < a.len() ==> #[trigger] a[i] != c,
    ensures split_seq(a, Some(c)) == seq![a],
{
    assert forall|i: int| 0 <= i < a.len() implies !is_sep(Some(c), #[trigger] a[i]) by {}
    lemma_find_sep_concat(a, Seq::empty(), Some(c));
    assert(a + Seq::<char>::empty() == a);
}

/// A text that starts with a character other than white space keeps it when trimmed.
pub proof fn lemma_trim_keeps_nonwhite_start(s: Seq<char>)
    requires s.len() > 0, !crate::text::is_white(s[0]),
    ensures trim_seq(s).len() > 0,
{
    assert(crate::text::trim_start_seq(s) == s);
    lemma_trim_end_keeps_first(s);
}

proof fn lemma_trim_end_keeps_first(s: Seq<char>)
    requires s.len() > 0, !crate::text::is_white(s[0]),
    ensures crate::text::trim_end_seq(s).len() > 0,
    decreases s.len(),
{
    if s.len() > 1 && crate::text::is_white(s.last()) {
        assert(s.drop_last()[0] == s[0]);
        lemma_trim_end_keeps_first(s.drop_last());
    }
}

/// Skill names and GitHub names hold no `/` and no `:`.
pub proof fn lemma_names_have_no_separators(s: Seq<char>)
    ensures
        is_skill_name(s) ==> forall|i: int| 0 <= i < s.len() ==> #[trigger] s[i] != '/' && s[i] != ':',
        is_github_component(s) ==> forall|i: int| 0 <= i < s.len() ==> #[trigger] s[i] != '/' && s[i] != ':',
{
    if is_skill_name(s) {
        assert forall|i: int| 0 <= i < s.len() implies #[trigger] s[i] != '/' && s[i] != ':' by {
            assert(is_skill_char(s[i]));
        }
    }
}

/// The install target a search result offers installs the repository it came from, and the
/// skill it names (for an owner other than `.` and `..`, and a target that is not a path on
/// disk).
pub proof fn law_search_target_installs_its_source(source: Seq<char>, skill: Seq<char>)
    requires
        install_target_from_source_spec(source, skill) is Some,
        !has_prefix(source, "./"@) && !has_prefix(source, "../"@),
    ensures
        resolve_spec(install_target_from_source_spec(source, skill)->0, false, false)
            == Ok::<(Seq<char>, Option<Seq<char>>), Seq<char>>((github_repo_from_source_spec(source, false)->0, Some(skill))),
{
    reveal_strlit("/");
    let parts = split_seq(source, Some('/'));
    let o = parts[0];
    let r = parts[1];
    lemma_names_have_no_separators(o);
    lemma_names_have_no_separators(r);
    lemma_names_have_no_separators(skill);
    lemma_split_single(r, '/');
    lemma_split_concat(o, '/', r);
    assert(source == o + seq!['/'] + r) by {
        let k = find_sep(source, Some('/'));
        lemma_find_sep(source, Some('/'));
        assert(k < source.len());
        let rest = source.subrange(k + 1int, source.len() as int);
        assert(parts == seq![source.subrange(0, k as int)] + split_seq(rest, Some('/')));
        lemma_find_sep(rest, Some('/'));
        assert(split_seq(rest, Some('/')).len() == 1);
        if find_sep(rest, Some('/')) < rest.len() {
            let j = find_sep(rest, Some('/'));
            crate::text::lemma_split_nonempty(rest.subrange(j + 1int, rest.len() as int), Some('/'));
            assert(split_seq(rest, Some('/')).len() >= 2);
        }
        assert(split_seq(rest, Some('/')) == seq![rest]);
        assert(source =~= source.subrange(0, k as int) + seq!['/'] + rest);
    }
    let t = source + "/"@ + skill;
    assert(t == o + seq!['/'] + (r + seq!['/'] + skill));
    lemma_split_single(skill, '/');
    lemma_split_concat(r, '/', skill);
    lemma_split_concat(o, '/', r + seq!['/'] + skill);
    assert(split_seq(t, Some('/')) == seq![o, r, skill]);
    assert(trim_seq(t).len() > 0) by {
        assert(t.len() > 0);
        assert(t[0] == o[0]);
        assert(!crate::text::is_white(o[0]));
        lemma_trim_keeps_nonwhite_start(t);
    }
    assert(t =~= o + seq!['/'] + (r + "/"@ + skill));
    assert(!is_full_git_url(t)) by {
        reveal_strlit("http://");
        reveal_strlit("https://");
        reveal_strlit("ssh://");
        reveal_strlit("git@");
        lemma_no_prefix(o, r + "/"@ + skill, "http://"@, 4);
        lemma_no_prefix(o, r + "/"@ + skill, "https://"@, 5);
        lemma_no_prefix(o, r + "/"@ + skill, "ssh://"@, 3);
        lemma_no_prefix(o, r + "/"@ + skill, "git@"@, 3);
    }
    assert(!has_local_prefix(t)) by {
        reveal_strlit("./");
        reveal_strlit("../");
        reveal_strlit("~/");
        assert(t.subrange(0, source.len() as int) == source);
        assert(t[0] == o[0]);
        assert(source.len() >= 3);
        if has_prefix(t, "./"@) {
            assert(source.subrange(0, 2) == t.subrange(0, 2));
        }
        if has_prefix(t, "../"@) {
            assert(source.subrange(0, 3) == t.subrange(0, 3));
        }
        if has_prefix(t, "/"@) || has_prefix(t, "~/"@) {
            assert(t.subrange(0, 1)[0] == t[0]);
        }
    }
}

/// A GitHub name followed by `/` cannot start with a prefix whose character at `i` is
/// neither allowed in the name nor `/`, when no `/` comes before it.
proof fn lemma_no_prefix(o: Seq<char>, rest: Seq<char>, p: Seq<char>, i: int)
    requires
        is_github_component(o),
        0 <= i < p.len(),
        p[i] != '/',
        !(crate::text::is_ascii_alnum(p[i]) || p[i] == '_' || p[i] == '-' || p[i] == '.'),
        forall|j: int| 0 <= j < i ==> #[trigger] p[j] != '/',
    ensures !has_prefix(o + seq!['/'] + rest, p),
{
    let t = o + seq!['/'] + rest;
    if has_prefix(t, p) {
        assert(t.subrange(0, p.len() as int) == p);
        if i < o.len() {
            assert(t[i] == o[i]);
            assert(p[i] == t.subrange(0, p.len() as int)[i]);
        } else {
            assert(t[o.len() as int] == '/');
            assert(p[o.len() as int] == t.subrange(0, p.len() as int)[o.len() as int]);
        }
    }
}

/// A rev written as `commit:`, `branch:` or `tag:` and a value reads back as that kind and
/// value.
pub proof fn law_rev_roundtrip(kind: RevKind, value: Seq<char>)
    requires value.len() > 0,
    ensures
        parse_rev_spec((match kind {
            RevKind::Commit => "commit"@,
            RevKind::Branch => "branch"@,
            RevKind::Tag => "tag"@,
        }) + ":"@ + value) == Some((kind, value)),
{
    let k = match kind {
        RevKind::Commit => "commit"@,
        RevKind::Branch => "branch"@,
        RevKind::Tag => "tag"@,
    };
    reveal_strlit("commit");
    reveal_strlit("branch");
    reveal_strlit("tag");
    reveal_strlit(":");
    assert forall|i: int| 0 <= i < k.len() implies !is_sep(Some(':'), #[trigger] k[i]) by {}
    let s = k + ":"@ + value;
    assert(s == k + (":"@ + value));
    lemma_find_sep_concat(k, ":"@ + value, Some(':'));
    assert((":"@ + value)[0] == ':');
    assert(find_sep(s, Some(':')) == k.len());
    assert(s.subrange(0, k.len() as int) == k);
    assert(s.subrange(k.len() + 1int, s.len() as int) == value);
}

/// A rev that reads as a kind and a value is exactly that kind's word, `:` and the value,
/// and the value is not empty.
pub proof fn law_rev_read_back(rev: Seq<char>, kind: RevKind, value: Seq<char>)
    requires
        parse_rev_spec(rev) == Some((kind, value)),
    ensures
        value.len() > 0,
        rev == (match kind {
            RevKind::Commit => "commit"@,
            RevKind::Branch => "branch"@,
            RevKind::Tag => "tag"@,
        }) + ":"@ + value,
{
    reveal_strlit(":");
    lemma_find_sep(rev, Some(':'));
    let k = find_sep(rev, Some(':'));
    assert(k < rev.len());
    let word = rev.subrange(0, k as int);
    assert(rev =~= word + ":"@ + rev.subrange(k + 1int, rev.len() as int));
}

/// Filtering keeps a sequence whose entries all pass as it is.
proof fn lemma_filter_all_pass(q: Seq<PublishEntry>, f: spec_fn(PublishEntry) -> bool)
    requires
        forall|i: int| 0 <= i < q.len() ==> f(#[trigger] q[i]),
    ensures
        q.filter(f) == q,
    decreases q.len(),
{
    if q.len() == 0 {
        assert(q.filter(f) =~= q) by { reveal(Seq::filter); }
    } else {
        let init = q.drop_last();
        assert forall|i: int| 0 <= i < init.len() implies f(#[trigger] init[i]) by {
            assert(init[i] == q[i]);
        }
        lemma_filter_all_pass(init, f);
        init.lemma_filter_push(q.last(), f);
        assert(init.push(q.last()) =~= q);
    }
}

/// Publishing the same object a second time changes nothing, and the entries then hold that
/// name once: as the last entry.
pub proof fn law_publish_object_twice(publish: Seq<PublishEntry>, object: PublishObject)
    ensures
        ({
            let e = PublishEntry::Object(object);
            let once = publish.filter(other_than(object.skill@)).push(e);
            &&& once.filter(other_than(object.skill@)).push(e) == once
            &&& once.last() == e
            &&& forall|i: int| 0 <= i < once.len() - 1 ==> (#[trigger] once[i]).name_view() != object.skill@
        }),
{
    let f = other_than(object.skill@);
    let e = PublishEntry::Object(object);
    let kept = publish.filter(f);
    publish.filter_lemma(f);
    lemma_filter_all_pass(kept, f);
    kept.lemma_filter_push(e, f);
    assert(!f(e));
    let once = kept.push(e);
    assert forall|i: int| 0 <= i < once.len() - 1 implies (#[trigger] once[i]).name_view() != object.skill@ by {
        assert(once[i] == kept[i]);
        assert(f(kept[i]));
    }
}

/// A text holds no line end.
pub open spec fn no_line_end(s: Seq<char>) -> bool {
    forall|i: int| 0 <= i < s.len() ==> !is_line_end(#[trigger] s[i])
}

/// A complete line: it ends with its one line end.
pub open spec fn complete_line(l: Seq<char>) -> bool {
    l.len() > 0 && is_line_end(l.last()) && no_line_end(l.drop_last())
}

/// Cutting text into lines loses nothing: the lines and the rest make up the text, every
/// line ends with its one line end, and the rest holds none.
pub proof fn lemma_cut_lines(s: Seq<char>)
    ensures
        cut_lines(s).0.flatten() + cut_lines(s).1 == s,
        no_line_end(cut_lines(s).1),
        forall|i: int| 0 <= i < cut_lines(s).0.len() ==> complete_line(#[trigger] cut_lines(s).0[i]),
    decreases s.len(),
{
    if s.len() == 0 {
        assert(cut_lines(s).0.flatten() + cut_lines(s).1 =~= s);
    } else {
        let init = s.drop_last();
        lemma_cut_lines(init);
        let (lines, rest) = cut_lines(init);
        let cur = rest.push(s.last());
        lines.lemma_flatten_push(cur);
        assert(init.push(s.last()) =~= s);
        assert(lines.flatten() + cur =~= (lines.flatten() + rest).push(s.last()));
        if is_line_end(s.last()) {
            assert(cur.drop_last() =~= rest);
            assert(lines.push(cur).flatten() + Seq::<char>::empty() =~= lines.push(cur).flatten());
            assert forall|i: int| 0 <= i < lines.push(cur).len() implies complete_line(#[trigger] lines.push(cur)[i]) by {
                if i < lines.len() {
                    assert(lines.push(cur)[i] == lines[i]);
                }
            }
        } else {
            assert forall|i: int| 0 <= i < cur.len() implies !is_line_end(#[trigger] cur[i]) by {
                if i < rest.len() {
                    assert(cur[i] == rest[i]);
                }
            }
        }
    }
}

/// The progress buffer loses nothing and keeps little: the lines it gives out and what it
/// keeps make up what it held and what arrived; the lines it gives out are complete, but for
/// a flushed last one; and what it keeps holds no line end and at most the limit of bytes.
pub proof fn law_progress_buffer(buffer: Seq<char>, received: Seq<char>)
    ensures
        ({
            let (lines, kept) = progress_take_spec(buffer, received);
            &&& lines.flatten() + kept == buffer + received
            &&& no_line_end(kept)
            &&& utf8_byte_len(kept) <= PROGRESS_BUFFER_LIMIT
            &&& forall|i: int| 0 <= i < cut_lines(buffer + received).0.len()
                ==> #[trigger] lines[i] == cut_lines(buffer + received).0[i]
                    && complete_line(lines[i])
        }),
{
    let all = buffer + received;
    lemma_cut_lines(all);
    let (lines, rest) = cut_lines(all);
    if utf8_byte_len(rest) > PROGRESS_BUFFER_LIMIT {
        lines.lemma_flatten_push(rest);
        assert(lines.push(rest).flatten() + Seq::<char>::empty() =~= lines.flatten() + rest);
        assert forall|i: int| 0 <= i < lines.len() implies #[trigger] lines.push(rest)[i] == lines[i] by {}
    }
}

/// Feeding chunks one after the other to an empty progress buffer: the lines given out, in
/// order, and the text kept at the end.
pub open spec fn progress_run(chunks: Seq<Seq<char>>) -> (Seq<Seq<char>>, Seq<char>)
    decreases chunks.len(),
{
    if chunks.len() == 0 {
        (Seq::empty(), Seq::empty())
    } else {
        let (lines, kept) = progress_run(chunks.drop_last());
        let (more, now) = progress_take_spec(kept, chunks.last());
        (lines + more, now)
    }
}

/// Over any sequence of chunks the progress buffer loses nothing: the lines given out and
/// the text kept make up all the chunks, in order, and the kept text holds no line end and
/// at most the limit of bytes.
pub proof fn law_progress_run(chunks: Seq<Seq<char>>)
    ensures
        progress_run(chunks).0.flatten() + progress_run(chunks).1 == chunks.flatten(),
        no_line_end(progress_run(chunks).1),
        utf8_byte_len(progress_run(chunks).1) <= PROGRESS_BUFFER_LIMIT,
    decreases chunks.len(),
{
    if chunks.len() == 0 {
        assert(progress_run(chunks).0.flatten() + progress_run(chunks).1 =~= chunks.flatten());
        assert(utf8_byte_len(Seq::<char>::empty()) == 0);
    } else {
        let init = chunks.drop_last();
        law_progress_run(init);
        let (lines, kept) = progress_run(init);
        law_progress_buffer(kept, chunks.last());
        let (more, now) = progress_take_spec(kept, chunks.last());
        lemma_flatten_concat(lines, more);
        init.lemma_flatten_push(chunks.last());
        assert(init.push(chunks.last()) =~= chunks);
        assert((lines + more).flatten() + now =~= lines.flatten() + (more.flatten() + now));
        assert(lines.flatten() + (kept + chunks.last()) =~= (lines.flatten() + kept) + chunks.last());
    }
}

/// Flattening two sequences one after the other is flattening each.
proof fn lemma_flatten_concat(a: Seq<Seq<char>>, b: Seq<Seq<char>>)
    ensures
        (a + b).flatten() == a.flatten() + b.flatten(),
    decreases b.len(),
{
    if b.len() == 0 {
        assert(a + b =~= a);
        assert(a.flatten() + b.flatten() =~= a.flatten());
    } else {
        let init = b.drop_last();
        lemma_flatten_concat(a, init);
        (a + init).lemma_flatten_push(b.last());
        init.lemma_flatten_push(b.last());
        assert((a + init).push(b.last()) =~= a + b);
        assert(init.push(b.last()) =~= b);
        assert(a.flatten() + (init.flatten() + b.last()) =~= (a.flatten() + init.flatten()) + b.last());
    }
}

/// Progress never goes back within a stage, stays within its band, and the bands follow
/// one another from 5 to 95.
pub proof fn law_progress_bands(stage: GitProgressStage, p: u64, q: u64)
    requires p <= q,
    ensures
        mapped_position_spec(stage, p) <= mapped_position_spec(stage, q),
        5 <= mapped_position_spec(stage, p) <= 95,
        mapped_position_spec(GitProgressStage::Counting, 100) == mapped_position_spec(GitProgressStage::Compressing, 0),
        mapped_position_spec(GitProgressStage::Compressing, 100) == mapped_position_spec(GitProgressStage::Receiving, 0),
        mapped_position_spec(GitProgressStage::Receiving, 100) == mapped_position_spec(GitProgressStage::Resolving, 0),
        mapped_position_spec(GitProgressStage::Resolving, 100) == mapped_position_spec(GitProgressStage::Updating, 0),
{
    let a: int = if p > 100 { 100 } else { p as int };
    let b: int = if q > 100 { 100 } else { q as int };
    assert(0 <= a <= b <= 100);
    assert forall|w: int| 0 < w <= 35 implies 0 <= #[trigger] (a * w / 100) <= b * w / 100 && b * w / 100 <= w by {
        assert(0 <= a * w <= b * w <= 100 * w) by (nonlinear_arith)
            requires 0 <= a <= b <= 100, 0 < w;
        assert(0 <= a * w / 100 <= b * w / 100) by (nonlinear_arith)
            requires 0 <= a * w <= b * w;
        assert(b * w / 100 <= w) by (nonlinear_arith)
            requires b * w <= 100 * w, 0 < w;
    }
    assert(0 <= a * 15 / 100 <= b * 15 / 100 <= 15);
    assert(0 <= a * 20 / 100 <= b * 20 / 100 <= 20);
    assert(0 <= a * 35 / 100 <= b * 35 / 100 <= 35);
    assert(0 <= a * 5 / 100 <= b * 5 / 100 <= 5);
}

/// A search stops after at most three attempts: the last attempt never asks for a retry,
/// and a successful answer is always parsed.
pub proof fn law_search_attempts_bounded(outcome: AttemptOutcome, authenticated: bool, d: AttemptDecision, attempt: usize)
    requires 1 <= attempt <= MAX_ATTEMPTS, decision_spec(attempt, outcome, authenticated, d),
    ensures
        attempt == MAX_ATTEMPTS ==> !(d is Retry),
        outcome matches AttemptOutcome::Response(r) && r.status == 200 ==> d is Parse,
{
}

/// A cached check from the future, or less than an hour old, is fresh; one an hour old or
/// older is not.
pub proof fn law_cache_freshness(checked_at: u64, now: u64)
    ensures
        now <= checked_at ==> cache_is_fresh_spec(checked_at, now),
        checked_at < now && now - checked_at < CHECK_INTERVAL_SECS ==> cache_is_fresh_spec(checked_at, now),
        checked_at < now && now - checked_at >= CHECK_INTERVAL_SECS ==> !cache_is_fresh_spec(checked_at, now),
{
}

/// Bytes in hex take two digits each, so a SHA-256 digest is 64 hex digits.
pub proof fn law_hex_length(bytes: Seq<u8>)
    ensures hex_of(bytes).len() == 2 * bytes.len(),
    decreases bytes.len(),
{
    if bytes.len() > 0 {
        law_hex_length(bytes.drop_last());
    }
}


/// Every published macOS and Linux build is a `.tar.gz` archive holding `kt`; only the
/// Windows build is a `.zip` holding `kt.exe`. Each build's triple begins with the
/// architecture, and builds are published exactly for macOS on x86_64 and aarch64, and for
/// Linux and Windows on x86_64.
pub proof fn law_release_archives(os: Seq<char>, arch: Seq<char>)
    ensures
        release_target_spec(os, arch) matches Some(t) ==> (
            (os == "windows"@ ==> t.1 == "zip"@ && t.2 == "kt.exe"@)
            && (os != "windows"@ ==> t.1 == "tar.gz"@ && t.2 == "kt"@)
            && has_prefix(t.0, arch)),
        release_target_spec(os, arch) is Some <==> (
            (os == "macos"@ && (arch == "x86_64"@ || arch == "aarch64"@))
            || ((os == "linux"@ || os == "windows"@) && arch == "x86_64"@)),
{
    reveal_strlit("macos");
    reveal_strlit("linux");
    reveal_strlit("windows");
    reveal_strlit("x86_64");
    reveal_strlit("aarch64");
    reveal_strlit("x86_64-apple-darwin");
    reveal_strlit("aarch64-apple-darwin");
    reveal_strlit("x86_64-unknown-linux-gnu");
    reveal_strlit("x86_64-pc-windows-msvc");
    reveal_strlit("zip");
    reveal_strlit("tar.gz");
    reveal_strlit("kt");
    reveal_strlit("kt.exe");
    assert("macos"@ != "windows"@ && "linux"@ != "windows"@) by {
        assert("macos"@.len() == 5 && "linux"@.len() == 5 && "windows"@.len() == 7);
    }
    if os == "macos"@ && arch == "x86_64"@ {
        assert("x86_64-apple-darwin"@.subrange(0, 6) =~= "x86_64"@);
    } else if os == "macos"@ && arch == "aarch64"@ {
        assert("aarch64-apple-darwin"@.subrange(0, 7) =~= "aarch64"@);
    } else if os == "linux"@ && arch == "x86_64"@ {
        assert("x86_64-unknown-linux-gnu"@.subrange(0, 6) =~= "x86_64"@);
    } else if os == "windows"@ && arch == "x86_64"@ {
        assert("x86_64-pc-windows-msvc"@.subrange(0, 6) =~= "x86_64"@);
    }
}

/// The page size a search asks for is at least 1 and at most the cap (200 with an API key,
/// 100 without); a limit within those bounds is asked for as it is, a larger one is cut to
/// the cap, and a key never asks for fewer results than no key.
pub proof fn law_page_size(limit: usize, authenticated: bool)
    ensures
        ({
            let cap: usize = if authenticated { 200 } else { 100 };
            let n = normalized_limit_spec(limit, authenticated);
            &&& 1 <= n <= cap
            &&& (1 <= limit <= cap ==> n == limit)
            &&& (limit > cap ==> n == cap)
            &&& (limit == 0 ==> n == 1)
        }),
        normalized_limit_spec(limit, false) <= normalized_limit_spec(limit, true),
{
}

/// The values among `somes(n, f)` are answers `f(j)` for positions `j` below `n`.
proof fn lemma_somes_origin<T>(n: int, f: spec_fn(int) -> Option<T>)
    ensures
        forall|k: int| #![trigger somes(n, f)[k]] 0 <= k < somes(n, f).len()
            ==> exists|j: int| #![trigger f(j)] 0 <= j < n && f(j) == Some(somes(n, f)[k]),
    decreases n,
{
    if n > 0 {
        lemma_somes_origin(n - 1, f);
        let rest = somes(n - 1, f);
        assert forall|k: int| #![trigger somes(n, f)[k]] 0 <= k < somes(n, f).len()
            implies exists|j: int| #![trigger f(j)] 0 <= j < n && f(j) == Some(somes(n, f)[k]) by {
            if k < rest.len() {
                assert(somes(n, f)[k] == rest[k]);
                let j = choose|j: int| #![trigger f(j)] 0 <= j < n - 1 && f(j) == Some(rest[k]);
                assert(0 <= j < n && f(j) == Some(somes(n, f)[k]));
            } else {
                assert(f(n - 1) == Some(somes(n, f)[k]));
            }
        }
    }
}

/// In `kt list`, a skill that the lockfile locks is shown at its locked commit, and a dash
/// stands only for a declared skill that is not locked; a row is orphaned exactly when its
/// skill is not declared; each row's path is the skill's directory.
pub proof fn law_status_rows(root: Seq<char>, m: Manifest, l: Lockfile, dir_exists: Seq<bool>)
    requires
        m.wf(), l.wf(),
        dir_exists.len() == m.dependencies.keys_view().len(),
    ensures
        forall|k: int| 0 <= k < status_rows(root, m, l, dir_exists).len() ==> {
            let row = #[trigger] status_rows(root, m, l, dir_exists)[k];
            &&& (l.locked().contains_key(row.0) ==> row.2 == l.locked()[row.0].commit@)
            &&& (!l.locked().contains_key(row.0) ==> row.2 == "—"@ && m.deps().contains_key(row.0))
            &&& (row.4 == "orphaned"@ <==> !m.deps().contains_key(row.0))
            &&& row.3 == skill_dir_spec(root, row.0)
        },
{
    reveal_strlit("orphaned");
    reveal_strlit("installed");
    reveal_strlit("missing");
    reveal_strlit("not locked");
    let rows = status_rows(root, m, l, dir_exists);
    let n = m.dependencies.keys_view().len();
    let f = |j: int| if m.deps().contains_key(l.entries.keys_view()[j]) {
        None
    } else {
        Some(crate::list::orphan_row(root, l, j))
    };
    let tail = somes(l.entries.keys_view().len() as int, f);
    assert(rows == Seq::new(n, |i: int| crate::list::declared_row(root, m, l, i, dir_exists[i])) + tail);
    lemma_somes_origin(l.entries.keys_view().len() as int, f);
    assert forall|k: int| 0 <= k < rows.len() implies {
        let row = #[trigger] rows[k];
        &&& (l.locked().contains_key(row.0) ==> row.2 == l.locked()[row.0].commit@)
        &&& (!l.locked().contains_key(row.0) ==> row.2 == "—"@ && m.deps().contains_key(row.0))
        &&& (row.4 == "orphaned"@ <==> !m.deps().contains_key(row.0))
        &&& row.3 == skill_dir_spec(root, row.0)
    } by {
        if k < n {
            m.dependencies.lemma_at(k);
            let row = crate::list::declared_row(root, m, l, k, dir_exists[k]);
            assert(rows[k] == row);
            let name = m.dependencies.keys_view()[k];
            assert(row.0 == name);
            assert(m.deps().contains_key(name));
            assert(row.4 != "orphaned"@) by {
                assert("orphaned"@.len() == 8 && "installed"@.len() == 9 && "missing"@.len() == 7
                    && "not locked"@.len() == 10);
            }
        } else {
            assert(rows[k] == tail[k - n]);
            let j = choose|j: int| #![trigger f(j)] 0 <= j < l.entries.keys_view().len() && f(j) == Some(tail[k - n]);
            l.entries.lemma_at(j);
            let name = l.entries.keys_view()[j];
            assert(!m.deps().contains_key(name));
            assert(tail[k - n] == crate::list::orphan_row(root, l, j));
            assert(l.locked().contains_key(name));
            assert(l.locked()[name] == l.entries.vals_view()[j]);
        }
    }
}

/// An executable under `$CARGO_HOME/bin`, or under `$HOME/.cargo/bin`, is a Cargo install
/// whatever the other setting is: setting one more of them never takes Cargo away, and
/// outside a Homebrew Cellar (and with no Homebrew formula) such an install updates by
/// Cargo.
pub proof fn law_cargo_bin(exe: Seq<char>, cargo_home: Option<Seq<char>>, home: Option<Seq<char>>)
    ensures
        cargo_home matches Some(c) && path_starts_with(exe, join_path_spec(c, "bin"@)) ==> in_cargo_bin(exe, cargo_home, home),
        home matches Some(h) && path_starts_with(exe, join_path_spec(join_path_spec(h, ".cargo"@), "bin"@))
            ==> in_cargo_bin(exe, cargo_home, home),
        in_cargo_bin(exe, cargo_home, None) ==> in_cargo_bin(exe, cargo_home, home),
        in_cargo_bin(exe, None, home) ==> in_cargo_bin(exe, cargo_home, home),
        in_cargo_bin(exe, cargo_home, home) && !in_homebrew_cellar(path_components(exe))
            ==> channel_spec(exe, cargo_home, home, false) == InstallChannel::Cargo,
{
}

/// A `name:repo` target installs what the bare `repo` target installs, under the same
/// `--ssh`, `--skill` and path lookup, with `name` as the skill's name; an error of one is
/// the error of the other. (For a name that is a skill name and a `repo` that is not itself
/// read as `name:url`, and a target that does not start like a URL.)
pub proof fn law_named_target_resolves_like_bare(name: Seq<char>, repo: Seq<char>, skill: Option<Seq<char>>,
    ssh: bool, on_disk: bool)
    requires
        is_skill_name(name),
        repo.len() > 0,
        !has_url_prefix(name + ":"@ + repo),
        crate::install::named_target_spec(repo) == Ok::<Option<(Seq<char>, Seq<char>)>, Seq<char>>(None),
    ensures
        match (install_target_spec(name + ":"@ + repo, skill, ssh, on_disk), install_target_spec(repo, skill, ssh, on_disk)) {
            (Ok(a), Ok(b)) => a.0 == Some(name) && b.0 is None && a.1 == b.1 && a.2 == b.2,
            (Err(x), Err(y)) => x == y,
            _ => false,
        },
{
    reveal_strlit(":");
    let t = name + ":"@ + repo;
    assert(":"@ == seq![':']);
    lemma_names_have_no_separators(name);
    assert forall|i: int| 0 <= i < name.len() implies !is_sep(Some(':'), #[trigger] name[i]) by {}
    assert(t == name + (seq![':'] + repo));
    lemma_find_sep_concat(name, seq![':'] + repo, Some(':'));
    assert((seq![':'] + repo)[0] == ':');
    assert(find_sep(seq![':'] + repo, Some(':')) == 0);
    assert(t.subrange(0, name.len() as int) == name);
    assert(t.subrange(name.len() + 1int, t.len() as int) == repo);
    assert(crate::text::split_once_seq(t, ':') == Some((name, repo)));
}


/// For an `owner/repo` shorthand (GitHub names, not a path), `--ssh` picks the protocol:
/// with it the clone URL is `git@github.com:…`, without it `https://github.com/…`, and both
/// name the same repository path, ending in `.git`.
pub proof fn law_ssh_chooses_the_protocol(owner: Seq<char>, repo: Seq<char>)
    requires
        is_github_component(owner),
        is_github_component(repo),
        !has_local_prefix(owner + "/"@ + repo),
    ensures
        match (install_target_spec(owner + "/"@ + repo, None, true, false),
            install_target_spec(owner + "/"@ + repo, None, false, false)) {
            (Ok(a), Ok(b)) => a.0 is None && b.0 is None
                && has_prefix(a.1, "git@github.com:"@) && has_prefix(b.1, "https://github.com/"@)
                && a.1.subrange(15, a.1.len() as int) == b.1.subrange(19, b.1.len() as int)
                && crate::text::has_suffix(a.1, ".git"@),
            _ => false,
        },
{
    reveal_strlit("/");
    reveal_strlit("git@github.com:");
    reveal_strlit("https://github.com/");
    reveal_strlit(".git");
    reveal_strlit("http://");
    reveal_strlit("https://");
    reveal_strlit("ssh://");
    reveal_strlit("git@");
    let t = owner + "/"@ + repo;
    assert("/"@ == seq!['/']);
    lemma_names_have_no_separators(owner);
    lemma_names_have_no_separators(repo);
    assert forall|i: int| 0 <= i < t.len() implies #[trigger] t[i] != ':' && t[i] != '@' by {
        if i < owner.len() {
            assert(t[i] == owner[i]);
        } else if i > owner.len() {
            assert(t[i] == repo[i - owner.len() - 1]);
        }
    }
    assert(!is_full_git_url(t)) by {
        if has_prefix(t, "http://"@) { assert(t.subrange(0, 7)[4] == t[4]); }
        if has_prefix(t, "https://"@) { assert(t.subrange(0, 8)[5] == t[5]); }
        if has_prefix(t, "ssh://"@) { assert(t.subrange(0, 6)[3] == t[3]); }
        if has_prefix(t, "git@"@) { assert(t.subrange(0, 4)[3] == t[3]); }
    }
    assert(!has_url_prefix(t));
    assert forall|i: int| 0 <= i < t.len() implies !is_sep(Some(':'), #[trigger] t[i]) by {}
    lemma_find_sep_concat(t, Seq::empty(), Some(':'));
    assert(t + Seq::<char>::empty() == t);
    assert(crate::text::split_once_seq(t, ':') is None);
    assert(t[0] == owner[0]);
    lemma_trim_keeps_nonwhite_start(t);
    assert forall|i: int| 0 <= i < owner.len() implies #[trigger] owner[i] != '/' by {}
    assert forall|i: int| 0 <= i < repo.len() implies #[trigger] repo[i] != '/' by {}
    assert(t == owner + seq!['/'] + repo);
    lemma_split_concat(owner, '/', repo);
    lemma_split_single(repo, '/');
    assert(split_seq(t, Some('/')) =~= seq![owner, repo]);
    let r = if crate::text::has_suffix(repo, ".git"@) { repo.subrange(0, repo.len() - 4) } else { repo };
    let a = "git@github.com:"@ + owner + "/"@ + r + ".git"@;
    let b = "https://github.com/"@ + owner + "/"@ + r + ".git"@;
    assert(a.subrange(0, 15) =~= "git@github.com:"@);
    assert(b.subrange(0, 19) =~= "https://github.com/"@);
    assert(a.subrange(15, a.len() as int) =~= b.subrange(19, b.len() as int));
    assert(a.subrange(a.len() - 4, a.len() as int) =~= ".git"@);
}

} // verus!

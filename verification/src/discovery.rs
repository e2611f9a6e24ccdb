//! Fallback discovery of skills in a directory when a repo has no manifest.

use vstd::prelude::*;
use crate::sort::{Keyed, sort_by_key, sorted_by_key};
use crate::install_target::opt_view;
use crate::manifest::{is_skill_char, is_skill_name};
use crate::text::{chars_of, concat, ends_with, has_prefix, has_suffix, is_ascii_alnum_char, is_white, is_white_char,
    push_char, starts_with, str_eq, strip_suffix, owned};

verus! {

/// Type of discovered skill source.
#[derive(Debug, Clone, Copy, PartialEq, Eq, Structural)]
pub enum SkillType {
    /// Single `.md` file
    File,
    /// Directory containing skill files
    Directory,
}

/// A skill found during fallback discovery.
#[derive(Debug)]
pub struct DiscoveredSkill {
    /// Normalized display name (file/dir name, cleaned)
    pub name: String,
    /// Original path in the repository
    pub path: String,
    /// Whether source is file or directory
    pub skill_type: SkillType,
}

impl DiscoveredSkill {
    /// A copy with the same name, path and type.
    pub fn copy(&self) -> (r: Self)
        ensures r == *self,
    {
        DiscoveredSkill { name: self.name.clone(), path: self.path.clone(), skill_type: self.skill_type }
    }
}

impl Keyed for DiscoveredSkill {
    open spec fn key_view(&self) -> Seq<char> {
        self.name@
    }

    fn key(&self) -> (r: &str) {
        self.name.as_str()
    }
}

/// Result of the fallback discovery process.
#[derive(Debug)]
pub struct DiscoveryResult {
    /// List of discovered skills (deduplicated)
    pub skills: Vec<DiscoveredSkill>,
    /// Warnings encountered during discovery
    pub warnings: Vec<String>,
}

/// One character of a name with `-` and `_` shown as spaces.
pub open spec fn spaced(c: char) -> char {
    if c == '-' || c == '_' { ' ' } else { c }
}

/// A file or directory name as a display name: without a `.md` ending, `-` and `_` as spaces.
pub open spec fn normalize_spec(name: Seq<char>) -> Seq<char> {
    let base = if has_suffix(name, ".md"@) { name.subrange(0, name.len() - ".md"@.len()) } else { name };
    base.map_values(|c: char| spaced(c))
}

/// Normalizes a skill name from a file or directory name:
/// strips a `.md` extension and replaces hyphens and underscores with spaces.
pub fn normalize_skill_name(name: &str) -> (r: String)
    ensures r@ == normalize_spec(name@),
{
    let base = match strip_suffix(name, ".md") {
        Some(stripped) => stripped,
        None => owned(name),
    };
    let v = chars_of(base.as_str());
    let mut out = String::new();
    let mut i: usize = 0;
    while i < v.len()
        invariant
            i <= v.len(),
            out@ == v@.subrange(0, i as int).map_values(|c: char| spaced(c)),
        decreases v.len() - i,
    {
        let c = v[i];
        let d = if c == '-' || c == '_' { ' ' } else { c };
        push_char(&mut out, d);
        assert(v@.subrange(0, i + 1).map_values(|c: char| spaced(c))
            == v@.subrange(0, i as int).map_values(|c: char| spaced(c)).push(d));
        i += 1;
    }
    assert(v@.subrange(0, v@.len() as int) == v@);
    out
}

/// A file or directory name without its `.md` ending.
pub open spec fn md_stem(name: Seq<char>) -> Seq<char> {
    if has_suffix(name, ".md"@) { name.subrange(0, name.len() - ".md"@.len()) } else { name }
}

/// What one character becomes in a safe name: a skill-name character stays, white space
/// becomes `-`, anything else is dropped.
pub open spec fn safe_piece(c: char) -> Seq<char> {
    if is_skill_char(c) {
        seq![c]
    } else if is_white(c) {
        seq!['-']
    } else {
        Seq::empty()
    }
}

pub open spec fn safe_chars(s: Seq<char>) -> Seq<char>
    decreases s.len(),
{
    if s.len() == 0 { Seq::empty() } else { safe_chars(s.drop_last()) + safe_piece(s.last()) }
}

/// The name a skill found by its file or directory name is installed under: the name
/// without `.md`, white space as `-`, other characters that a skill name cannot hold left out.
pub open spec fn safe_name_spec(name: Seq<char>) -> Seq<char> {
    safe_chars(md_stem(name))
}

/// A safe name holds only skill-name characters, so when it is not empty it is a skill name.
pub proof fn lemma_safe_chars_are_skill_chars(s: Seq<char>)
    ensures
        forall|i: int| 0 <= i < safe_chars(s).len() ==> is_skill_char(#[trigger] safe_chars(s)[i]),
    decreases s.len(),
{
    if s.len() > 0 {
        lemma_safe_chars_are_skill_chars(s.drop_last());
        let prev = safe_chars(s.drop_last());
        assert forall|i: int| 0 <= i < safe_chars(s).len() implies is_skill_char(#[trigger] safe_chars(s)[i]) by {
            if i < prev.len() {
                assert(safe_chars(s)[i] == prev[i]);
            } else {
                assert(safe_chars(s)[i] == safe_piece(s.last())[i - prev.len()]);
            }
        }
    }
}

/// The safe name of a skill found by its file or directory name (see `safe_name_spec`).
pub fn safe_skill_name(name: &str) -> (r: String)
    ensures
        r@ == safe_name_spec(name@),
        r@.len() > 0 ==> is_skill_name(r@),
{
    let base = match strip_suffix(name, ".md") {
        Some(stripped) => stripped,
        None => owned(name),
    };
    let v = chars_of(base.as_str());
    let ghost stem = md_stem(name@);
    assert(v@ == stem);
    let mut out = String::new();
    let mut i: usize = 0;
    while i < v.len()
        invariant
            i <= v.len(),
            v@ == stem,
            out@ == safe_chars(v@.subrange(0, i as int)),
        decreases v.len() - i,
    {
        let c = v[i];
        assert(v@.subrange(0, i + 1).drop_last() =~= v@.subrange(0, i as int));
        if is_ascii_alnum_char(c) || c == '_' || c == '-' {
            push_char(&mut out, c);
        } else if is_white_char(c) {
            push_char(&mut out, '-');
        }
        assert(out@ =~= safe_chars(v@.subrange(0, i + 1)));
        i += 1;
    }
    assert(v@.subrange(0, v@.len() as int) =~= v@);
    proof { lemma_safe_chars_are_skill_chars(stem); }
    out
}

/// The warning for a skipped duplicate.
pub open spec fn duplicate_warning(name: Seq<char>) -> Seq<char> {
    "Duplicate skill '"@ + name + "' skipped"@
}

/// No earlier skill has the name of skill `i`.
pub open spec fn first_of_name(s: Seq<DiscoveredSkill>, i: int) -> bool {
    forall|j: int| 0 <= j < i ==> #[trigger] s[j].name@ != s[i].name@
}

/// The positions `0..n`.
pub open spec fn positions(n: nat) -> Seq<int> {
    Seq::new(n, |i: int| i)
}

/// The skills kept by deduplication: each first occurrence of a name, in order.
pub open spec fn kept_skills(s: Seq<DiscoveredSkill>) -> Seq<DiscoveredSkill> {
    positions(s.len()).filter(|i: int| first_of_name(s, i)).map_values(|i: int| s[i])
}

/// The warnings of deduplication: one per later occurrence of a name, in order.
pub open spec fn duplicate_warnings(s: Seq<DiscoveredSkill>) -> Seq<Seq<char>> {
    positions(s.len()).filter(|i: int| !first_of_name(s, i)).map_values(|i: int| duplicate_warning(s[i].name@))
}

/// Some skill before position `i` has the name of skill `i`.
fn has_earlier_name(skills: &Vec<DiscoveredSkill>, i: usize) -> (r: bool)
    requires i < skills.len(),
    ensures r == !first_of_name(skills@, i as int),
{
    let mut j: usize = 0;
    while j < i
        invariant
            j <= i < skills.len(),
            forall|k: int| 0 <= k < j ==> #[trigger] skills@[k].name@ != skills@[i as int].name@,
        decreases i - j,
    {
        if str_eq(skills[j].name.as_str(), skills[i].name.as_str()) {
            return true;
        }
        j += 1;
    }
    false
}

/// Deduplicates discovered skills by name; keeps the first occurrence and warns about the others.
pub fn deduplicate_skills(skills: Vec<DiscoveredSkill>) -> (r: DiscoveryResult)
    ensures
        r.skills@ == kept_skills(skills@),
        r.warnings@.map_values(|w: String| w@) == duplicate_warnings(skills@),
{
    let ghost s = skills@;
    let mut unique: Vec<DiscoveredSkill> = Vec::new();
    let mut warnings: Vec<String> = Vec::new();
    let mut i: usize = 0;
    let ghost keep = |k: int| first_of_name(s, k);
    let ghost drop = |k: int| !first_of_name(s, k);
    proof {
        reveal(Seq::filter);
        assert(positions(0).filter(keep) =~= Seq::<int>::empty());
        assert(positions(0).filter(drop) =~= Seq::<int>::empty());
    }
    while i < skills.len()
        invariant
            i <= skills.len(), s == skills@,
            keep == (|k: int| first_of_name(s, k)),
            drop == (|k: int| !first_of_name(s, k)),
            unique@ == positions(i as nat).filter(keep).map_values(|k: int| s[k]),
            warnings@.map_values(|w: String| w@) == positions(i as nat).filter(drop).map_values(|k: int| duplicate_warning(s[k].name@)),
        decreases skills.len() - i,
    {
        let ghost old_unique = unique@;
        let ghost old_warn = warnings@.map_values(|w: String| w@);
        assert(positions(i as nat + 1) =~= positions(i as nat).push(i as int));
        proof {
            positions(i as nat).lemma_filter_push(i as int, keep);
            positions(i as nat).lemma_filter_push(i as int, drop);
        }
        if has_earlier_name(&skills, i) {
            let msg = concat(&concat("Duplicate skill '", skills[i].name.as_str()), "' skipped");
            warnings.push(msg);
            proof {
                assert(warnings@.map_values(|w: String| w@) =~= old_warn.push(duplicate_warning(s[i as int].name@)));
                assert(positions(i as nat).filter(drop).push(i as int).map_values(|k: int| duplicate_warning(s[k].name@))
                    =~= old_warn.push(duplicate_warning(s[i as int].name@)));
            }
        } else {
            unique.push(skills[i].copy());
            proof {
                assert(unique@ =~= old_unique.push(s[i as int]));
                assert(positions(i as nat).filter(keep).push(i as int).map_values(|k: int| s[k])
                    =~= old_unique.push(s[i as int]));
                assert(warnings@.map_values(|w: String| w@) =~= old_warn);
            }
        }
        i += 1;
    }
    assert(positions(s.len()) == positions(i as nat));
    DiscoveryResult { skills: unique, warnings }
}

/// One entry of a directory listing: its name, its path, and whether it is a directory
/// (`None` when its file type could not be read).
#[derive(Debug)]
pub struct ListedEntry {
    pub file_name: String,
    pub path: String,
    pub is_dir: Option<bool>,
}

/// Hidden entries and build or dependency folders are never skills.
pub open spec fn is_ignored_name(name: Seq<char>) -> bool {
    has_prefix(name, "."@) || name == "target"@ || name == "node_modules"@
}

/// An entry that discovery considers: a readable directory, or a `.md` file, not ignored,
/// whose safe name is not empty.
pub open spec fn is_candidate(e: ListedEntry) -> bool {
    &&& e.is_dir is Some
    &&& !is_ignored_name(e.file_name@)
    &&& (e.is_dir == Some(true) || has_suffix(e.file_name@, ".md"@))
    &&& safe_name_spec(e.file_name@).len() > 0
}

/// The entries that discovery considers, in listing order.
pub open spec fn listed_candidates(entries: Seq<ListedEntry>) -> Seq<ListedEntry> {
    entries.filter(|e: ListedEntry| is_candidate(e))
}

/// The entry's safe name, its path and its type.
pub open spec fn candidate_matches(e: ListedEntry, d: DiscoveredSkill) -> bool {
    &&& d.name@ == safe_name_spec(e.file_name@)
    &&& d.path == e.path
    &&& d.skill_type == (if e.is_dir == Some(true) { SkillType::Directory } else { SkillType::File })
}

/// Whether `name` is ignored.
fn ignored_name(name: &str) -> (r: bool)
    ensures r == is_ignored_name(name@),
{
    starts_with(name, ".") || str_eq(name, "target") || str_eq(name, "node_modules")
}

/// Discovers skills in a directory from its listing: `.md` files and directories, hidden and
/// build folders skipped, named by their safe names (an empty one skipped), deduplicated
/// (first kept, later ones warned about), then sorted by name.
pub fn discover_from_entries(entries: &Vec<ListedEntry>) -> (r: DiscoveryResult)
    ensures
        exists|cands: Seq<DiscoveredSkill>| {
            &&& cands.len() == listed_candidates(entries@).len()
            &&& forall|i: int| 0 <= i < cands.len()
                ==> candidate_matches(listed_candidates(entries@)[i], #[trigger] cands[i])
            &&& r.skills@.to_multiset() == kept_skills(cands).to_multiset()
            &&& r.warnings@.map_values(|w: String| w@) == duplicate_warnings(cands)
        },
        sorted_by_key(r.skills@),
{
    let ghost pred = |e: ListedEntry| is_candidate(e);
    let mut cands: Vec<DiscoveredSkill> = Vec::new();
    let mut i: usize = 0;
    proof {
        reveal(Seq::filter);
        assert(entries@.subrange(0, 0).filter(pred) =~= Seq::<ListedEntry>::empty());
    }
    while i < entries.len()
        invariant
            i <= entries.len(),
            pred == (|e: ListedEntry| is_candidate(e)),
            cands@.len() == entries@.subrange(0, i as int).filter(pred).len(),
            forall|k: int| 0 <= k < cands@.len()
                ==> candidate_matches(#[trigger] entries@.subrange(0, i as int).filter(pred)[k], cands@[k]),
        decreases entries.len() - i,
    {
        let e = &entries[i];
        let ghost before = entries@.subrange(0, i as int).filter(pred);
        assert(entries@.subrange(0, i + 1) == entries@.subrange(0, i as int).push(entries@[i as int]));
        proof { entries@.subrange(0, i as int).lemma_filter_push(entries@[i as int], pred); }
        let name = safe_skill_name(e.file_name.as_str());
        let take = match e.is_dir {
            None => false,
            Some(d) => !ignored_name(e.file_name.as_str()) && (d || ends_with(e.file_name.as_str(), ".md"))
                && !name.as_str().is_empty(),
        };
        assert(take == is_candidate(*e));
        if take {
            let kind = match e.is_dir { Some(true) => SkillType::Directory, _ => SkillType::File };
            cands.push(DiscoveredSkill {
                name,
                path: e.path.clone(),
                skill_type: kind,
            });
            proof {
                let after = entries@.subrange(0, i + 1).filter(pred);
                assert(after == before.push(*e));
                assert forall|k: int| 0 <= k < cands@.len() implies candidate_matches(#[trigger] after[k], cands@[k]) by {
                    if k < before.len() {
                        assert(after[k] == before[k]);
                    }
                }
            }
        }
        i += 1;
    }
    assert(entries@.subrange(0, entries@.len() as int) == entries@);
    let ghost cs = cands@;
    assert(pred == (|e: ListedEntry| is_candidate(e)));
    assert(entries@.filter(pred) == listed_candidates(entries@));
    let deduped = deduplicate_skills(cands);
    let skills = sort_by_key(deduped.skills);
    DiscoveryResult { skills, warnings: deduped.warnings }
}

pub open spec fn unreadable_dir_warning(error: Seq<char>) -> Seq<char> {
    "Failed to read skills directory: "@ + error
}

/// Discovery in a skills directory that cannot be read: no skills, and one warning with the
/// reason.
pub fn discover_unreadable(error: &str) -> (r: DiscoveryResult)
    ensures
        r.skills@.len() == 0,
        r.warnings@.map_values(|w: String| w@) == seq![unreadable_dir_warning(error@)],
{
    let mut warnings: Vec<String> = Vec::new();
    warnings.push(concat("Failed to read skills directory: ", error));
    assert(warnings@.map_values(|w: String| w@) =~= seq![unreadable_dir_warning(error@)]);
    DiscoveryResult { skills: Vec::new(), warnings }
}

/// Lower-cases `s` as `str::to_lowercase` does (Unicode case mapping).
pub uninterp spec fn unicode_lowercase(s: Seq<char>) -> Seq<char>;

/// `str::to_lowercase`: its result depends on the argument alone, under the name `unicode_lowercase`.
#[verifier::external_body]
fn to_lowercase(s: &str) -> (r: String)
    ensures r@ == unicode_lowercase(s@),
{
    s.to_lowercase()
}

/// The listing entry chosen as the skills directory: the first readable directory whose
/// name lower-cases to `skills`. An entry whose type cannot be read stops the search.
pub open spec fn skills_directory_spec(entries: Seq<ListedEntry>) -> Option<int>
    decreases entries.len(),
{
    if entries.len() == 0 {
        None
    } else if entries[0].is_dir is None {
        None
    } else if entries[0].is_dir == Some(true) && unicode_lowercase(entries[0].file_name@) == "skills"@ {
        Some(0)
    } else {
        match skills_directory_spec(entries.drop_first()) {
            Some(k) => Some(k + 1),
            None => None,
        }
    }
}

/// The first entry of a listing that is a directory named exactly `name`.
pub open spec fn named_dir_spec(entries: Seq<ListedEntry>, name: Seq<char>) -> Option<int>
    decreases entries.len(),
{
    if entries.len() == 0 {
        None
    } else if entries[0].is_dir == Some(true) && entries[0].file_name@ == name {
        Some(0)
    } else {
        match named_dir_spec(entries.drop_first(), name) {
            Some(k) => Some(k + 1),
            None => None,
        }
    }
}

/// The path of the first directory named `name` in a listing.
fn named_dir(entries: &Vec<ListedEntry>, name: &str) -> (r: Option<String>)
    ensures
        r is Some <==> named_dir_spec(entries@, name@) is Some,
        r matches Some(p) ==> p == entries@[named_dir_spec(entries@, name@)->0].path,
{
    let mut i: usize = 0;
    assert(entries@.subrange(0, entries@.len() as int) == entries@);
    while i < entries.len()
        invariant
            i <= entries.len(),
            named_dir_spec(entries@, name@) == match named_dir_spec(entries@.subrange(i as int, entries@.len() as int), name@) {
                Some(k) => Some(k + i),
                None => None::<int>,
            },
        decreases entries.len() - i,
    {
        let e = &entries[i];
        let ghost rest = entries@.subrange(i as int, entries@.len() as int);
        assert(rest[0] == *e);
        assert(rest.drop_first() == entries@.subrange(i + 1, entries@.len() as int));
        if e.is_dir == Some(true) && str_eq(e.file_name.as_str(), name) {
            return Some(e.path.clone());
        }
        i += 1;
    }
    None
}

/// Where fallback discovery looks for skills in a repository root: the first directory
/// whose name lower-cases to `skills` (`skills/`, `SKILLS/`, ...); failing that,
/// `.agents/skills/`, when the root lists a `.agents` directory and `agents_entries` (the
/// listing of that directory, empty when there is none) holds a `skills` directory.
pub open spec fn skills_location_spec(entries: Seq<ListedEntry>, agents_entries: Seq<ListedEntry>) -> Option<Seq<char>> {
    match skills_directory_spec(entries) {
        Some(k) => Some(entries[k].path@),
        None => if named_dir_spec(entries, ".agents"@) is Some && named_dir_spec(agents_entries, "skills"@) is Some {
            Some(agents_entries[named_dir_spec(agents_entries, "skills"@)->0].path@)
        } else {
            None
        },
    }
}

/// Finds the skills directory of a repository root from its listing and that of its
/// `.agents` directory (see `skills_location_spec`).
pub fn find_skills_directory(entries: &Vec<ListedEntry>, agents_entries: &Vec<ListedEntry>) -> (r: Option<String>)
    ensures
        opt_view(r) == skills_location_spec(entries@, agents_entries@),
{
    match find_skills_child(entries) {
        Some(p) => Some(p),
        None => {
            if named_dir(entries, ".agents").is_some() {
                named_dir(agents_entries, "skills")
            } else {
                None
            }
        },
    }
}

/// The first directory among a root's entries whose name lower-cases to `skills`; an
/// entry whose type cannot be read stops the search.
fn find_skills_child(entries: &Vec<ListedEntry>) -> (r: Option<String>)
    ensures
        r is Some <==> skills_directory_spec(entries@) is Some,
        r matches Some(p) ==> p == entries@[skills_directory_spec(entries@)->0].path,
{
    let mut i: usize = 0;
    assert(entries@.subrange(0, entries@.len() as int) == entries@);
    while i < entries.len()
        invariant
            i <= entries.len(),
            skills_directory_spec(entries@) == match skills_directory_spec(entries@.subrange(i as int, entries@.len() as int)) {
                Some(k) => Some(k + i),
                None => None::<int>,
            },
        decreases entries.len() - i,
    {
        let e = &entries[i];
        let ghost rest = entries@.subrange(i as int, entries@.len() as int);
        assert(rest[0] == *e);
        assert(rest.drop_first() == entries@.subrange(i + 1, entries@.len() as int));
        match e.is_dir {
            None => return None,
            Some(d) => {
                if d {
                    let lower = to_lowercase(e.file_name.as_str());
                    if str_eq(lower.as_str(), "skills") {
                        return Some(e.path.clone());
                    }
                }
            }
        }
        i += 1;
    }
    None
}

} // verus!

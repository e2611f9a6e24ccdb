//! The `skills.lock` lockfile: the commit each installed skill was fetched at.

use vstd::prelude::*;
use crate::error::{LockfileInvalid, LockfileNotFound};
use crate::name_map::NameMap;
use crate::scan::{first_some, first_some_from};
use crate::text::{chars_of, concat, is_ascii_hex, is_ascii_hex_char, trim, trim_seq};

verus! {

/// A full git commit id: exactly 40 hexadecimal digits.
pub open spec fn is_commit_hash(s: Seq<char>) -> bool {
    s.len() == 40 && forall|i: int| 0 <= i < s.len() ==> is_ascii_hex(#[trigger] s[i])
}

/// Checks a full git commit id.
pub fn is_valid_commit(commit: &str) -> (r: bool)
    ensures r == is_commit_hash(commit@),
{
    let v = chars_of(commit);
    if v.len() != 40 {
        return false;
    }
    let mut i: usize = 0;
    while i < v.len()
        invariant
            i <= v.len(), v@ == commit@,
            forall|j: int| 0 <= j < i ==> is_ascii_hex(#[trigger] v@[j]),
        decreases v.len() - i,
    {
        if !is_ascii_hex_char(v[i]) {
            assert(!is_ascii_hex(commit@[i as int]));
            return false;
        }
        i += 1;
    }
    true
}

/// Where one skill was fetched from, and at which commit.
#[derive(Debug)]
pub struct LockEntry {
    pub commit: String,
    pub repo: String,
}

/// The locked skills by name.
#[derive(Debug)]
pub struct Lockfile {
    pub entries: NameMap<LockEntry>,
}

/// Message for a lock entry whose commit is not a full commit id.
pub open spec fn bad_commit_message(name: Seq<char>) -> Seq<char> {
    "Invalid commit hash for skill '"@ + name + "': must be 40 hex characters"@
}

/// Position `i` answers the commit rule for the entry at `i`.
pub open spec fn commit_checks(keys: Seq<Seq<char>>, vals: Seq<LockEntry>) -> spec_fn(int) -> Option<Seq<char>> {
    |i: int| if is_commit_hash(vals[i].commit@) { None::<Seq<char>> } else { Some(bad_commit_message(keys[i])) }
}

/// The first entry, in order, whose commit is not a full commit id.
pub open spec fn entries_problem(entries: NameMap<LockEntry>) -> Option<Seq<char>> {
    first_some(entries.keys_view().len() as int, commit_checks(entries.keys_view(), entries.vals_view()))
}

impl Lockfile {
    /// The locked entries as a map.
    pub open spec fn locked(&self) -> Map<Seq<char>, LockEntry> {
        self.entries.as_map()
    }

    pub open spec fn wf(&self) -> bool {
        self.entries.wf()
    }

    /// An empty lockfile.
    pub fn new() -> (l: Self)
        ensures
            l.wf(),
            l.locked() == Map::<Seq<char>, LockEntry>::empty(),
            l.entries.keys_view().len() == 0,
    {
        Lockfile { entries: NameMap::new() }
    }

    /// The entry for `name`, if locked.
    pub fn entry(&self, name: &str) -> (r: Option<&LockEntry>)
        requires self.wf(),
        ensures
            r is Some <==> self.locked().contains_key(name@),
            r matches Some(e) ==> *e == self.locked()[name@],
    {
        self.entries.get(name)
    }

    /// Locks `name` at `entry`, replacing an earlier entry for it.
    pub fn insert(&mut self, name: String, entry: LockEntry)
        requires old(self).wf(),
        ensures
            final(self).wf(),
            final(self).locked() == old(self).locked().insert(name@, entry),
    {
        self.entries.insert(name, entry);
    }

    /// Unlocks `name`; true when it was locked.
    pub fn remove(&mut self, name: &str) -> (r: bool)
        requires old(self).wf(),
        ensures
            final(self).wf(),
            r == old(self).locked().contains_key(name@),
            final(self).locked() == old(self).locked().remove(name@),
    {
        self.entries.remove(name).is_some()
    }

    /// `name` is locked.
    pub fn contains(&self, name: &str) -> (r: bool)
        requires self.wf(),
        ensures r == self.locked().contains_key(name@),
    {
        self.entries.contains_key(name)
    }

    /// All entries, in order.
    pub fn entries(&self) -> (r: &NameMap<LockEntry>)
        ensures r == self.entries,
    {
        &self.entries
    }

    /// Checks every commit; the error names the first entry, in order, with a bad commit.
    pub fn validated(entries: NameMap<LockEntry>) -> (r: Result<Lockfile, LockfileInvalid>)
        requires entries.wf(),
        ensures
            r is Ok <==> entries_problem(entries) is None,
            r matches Ok(l) ==> l.entries == entries,
            r matches Err(e) ==> Some(e.message@) == entries_problem(entries),
    {
        let n = entries.len();
        let ghost keys = entries.keys_view();
        let ghost vals = entries.vals_view();
        let mut i: usize = 0;
        while i < n
            invariant
                entries.wf(), i <= n, n == keys.len(),
                keys == entries.keys_view(), vals == entries.vals_view(),
                entries_problem(entries) == first_some_from(i as int, n as int, commit_checks(keys, vals)),
            decreases n - i,
        {
            let entry = entries.val_at(i);
            if !is_valid_commit(entry.commit.as_str()) {
                let name = entries.key_at(i);
                let msg = concat(&concat("Invalid commit hash for skill '", name.as_str()), "': must be 40 hex characters");
                return Err(LockfileInvalid::new(msg));
            }
            i += 1;
        }
        Ok(Lockfile { entries })
    }

    /// Finishes reading `skills.lock`: blank content is an empty lockfile; otherwise `decoded`
    /// is what decoding its JSON gave (the entries, or the decoder's message).
    pub fn from_decoded(content: &str, decoded: Result<NameMap<LockEntry>, String>) -> (r: Result<Lockfile, LockfileInvalid>)
        requires decoded matches Ok(m) ==> m.wf(),
        ensures
            trim_seq(content@).len() == 0 ==> r is Ok && r->Ok_0.locked() == Map::<Seq<char>, LockEntry>::empty(),
            trim_seq(content@).len() > 0 && decoded is Err ==> r is Err
                && r->Err_0.message@ == "Invalid skills.lock: "@ + decoded->Err_0@,
            trim_seq(content@).len() > 0 && decoded is Ok ==> (r is Ok <==> entries_problem(decoded->Ok_0) is None),
            trim_seq(content@).len() > 0 && decoded is Ok && r is Ok ==> r->Ok_0.entries == decoded->Ok_0,
            trim_seq(content@).len() > 0 && decoded is Ok && r is Err
                ==> Some(r->Err_0.message@) == entries_problem(decoded->Ok_0),
            r matches Ok(l) ==> l.wf(),
    {
        let trimmed = trim(content);
        if trimmed.as_str().is_empty() {
            return Ok(Lockfile::new());
        }
        match decoded {
            Err(message) => Err(LockfileInvalid::new(concat("Invalid skills.lock: ", message.as_str()))),
            Ok(entries) => Lockfile::validated(entries),
        }
    }

    /// The error for a lockfile that exists but cannot be read.
    pub fn unreadable(path_display: &str) -> (e: LockfileNotFound)
        ensures e.message@ == "Cannot read skills.lock at "@ + path_display@,
    {
        LockfileNotFound::new(concat("Cannot read skills.lock at ", path_display))
    }
}

impl Default for Lockfile {
    fn default() -> (l: Self)
        ensures l.wf(), l.locked() == Map::<Seq<char>, LockEntry>::empty(),
    {
        Lockfile::new()
    }
}

} // verus!

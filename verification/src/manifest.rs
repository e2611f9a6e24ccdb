//! The `skills.json` manifest: declared dependencies and published skills.

use vstd::prelude::*;
use crate::error::{ManifestInvalidName, ManifestNotFound};
use crate::name_map::NameMap;
use crate::scan::{first_some, first_some_from, or_else};
use crate::text::{chars_of, concat, is_ascii_alnum, is_ascii_alnum_char, split_once_char, split_once_seq, str_eq, trim, trim_seq};

verus! {

/// A skill name: one or more of `a-z A-Z 0-9 _ -`.
pub open spec fn is_skill_char(c: char) -> bool {
    is_ascii_alnum(c) || c == '_' || c == '-'
}

/// Every character of `s` is a skill-name character and `s` is not empty.
pub open spec fn is_skill_name(s: Seq<char>) -> bool {
    s.len() > 0 && forall|i: int| 0 <= i < s.len() ==> is_skill_char(#[trigger] s[i])
}

/// Whether `name` matches the pattern `^[a-zA-Z0-9_-]+$` (`regex::Regex::is_match`).
/// The contract states what that pattern matches: a non-empty run of those characters.
#[verifier::external_body]
fn matches_skill_name_pattern(name: &str) -> (r: bool)
    ensures r == is_skill_name(name@),
{
    regex::Regex::new(r"^[a-zA-Z0-9_-]+$").unwrap().is_match(name)
}

/// A skill name (checked character by character).
pub fn is_skill_name_str(name: &str) -> (r: bool)
    ensures r == is_skill_name(name@),
{
    let v = chars_of(name);
    if v.len() == 0 {
        return false;
    }
    let mut i: usize = 0;
    while i < v.len()
        invariant
            i <= v.len(), v@ == name@,
            forall|j: int| 0 <= j < i ==> is_skill_char(#[trigger] v@[j]),
        decreases v.len() - i,
    {
        let c = v[i];
        if !(is_ascii_alnum_char(c) || c == '_' || c == '-') {
            assert(!is_skill_char(name@[i as int]));
            return false;
        }
        i += 1;
    }
    true
}

/// One declared dependency: a remote repo (with an optional rev) or a local path.
#[derive(Debug, Clone)]
pub struct DependencyEntry {
    pub repo: Option<String>,
    pub path: Option<String>,
    pub rev: Option<String>,
}

/// A published skill given by name and path.
#[derive(Debug, Clone)]
pub struct PublishObject {
    pub skill: String,
    pub path: String,
    pub deprecated: bool,
}

/// A published skill: the name of a local dependency, or an explicit object.
#[derive(Debug, Clone)]
pub enum PublishEntry {
    Dependency(String),
    Object(PublishObject),
}

/// The kind of a dependency rev.
#[derive(Debug, Clone, Copy, PartialEq, Eq, Structural)]
pub enum RevKind {
    Commit,
    Branch,
    Tag,
}

/// The manifest: dependencies by name, and the published skills in order.
#[derive(Debug)]
pub struct Manifest {
    pub dependencies: NameMap<DependencyEntry>,
    pub publish: Vec<PublishEntry>,
}

impl PublishEntry {
    /// The skill name of the entry.
    pub open spec fn name_view(&self) -> Seq<char> {
        match self {
            PublishEntry::Dependency(name) => name@,
            PublishEntry::Object(object) => object.skill@,
        }
    }

    /// The skill name of the entry.
    pub fn skill_name(&self) -> (r: &str)
        ensures r@ == self.name_view(),
    {
        match self {
            PublishEntry::Dependency(name) => name.as_str(),
            PublishEntry::Object(object) => object.skill.as_str(),
        }
    }
}

/// `rev` read as `kind:value` with a non-empty value and a known kind.
pub open spec fn parse_rev_spec(rev: Seq<char>) -> Option<(RevKind, Seq<char>)> {
    match split_once_seq(rev, ':') {
        None => None,
        Some((kind, value)) => {
            if value.len() == 0 {
                None
            } else if kind == "commit"@ {
                Some((RevKind::Commit, value))
            } else if kind == "branch"@ {
                Some((RevKind::Branch, value))
            } else if kind == "tag"@ {
                Some((RevKind::Tag, value))
            } else {
                None
            }
        }
    }
}

/// Reads a rev of the form `commit:<sha>`, `branch:<name>` or `tag:<name>`.
pub fn parse_rev(rev: &str) -> (r: Option<(RevKind, String)>)
    ensures
        r is Some <==> parse_rev_spec(rev@) is Some,
        r matches Some(p) ==> parse_rev_spec(rev@) == Some((p.0, p.1@)),
{
    let (kind, value) = match split_once_char(rev, ':') {
        Some(p) => p,
        None => return None,
    };
    if value.as_str().is_empty() {
        return None;
    }
    if str_eq(kind.as_str(), "commit") {
        Some((RevKind::Commit, value))
    } else if str_eq(kind.as_str(), "branch") {
        Some((RevKind::Branch, value))
    } else if str_eq(kind.as_str(), "tag") {
        Some((RevKind::Tag, value))
    } else {
        None
    }
}

/// An optional string that is present and not empty.
pub open spec fn present(s: Option<String>) -> bool {
    match s {
        Some(v) => v@.len() > 0,
        None => false,
    }
}

/// Message for a dependency name that is not a skill name.
pub open spec fn invalid_name_message(name: Seq<char>) -> Seq<char> {
    "Invalid skill name '"@ + name + "': must match [a-zA-Z0-9_-]+"@
}

/// Message for a published name that is not a skill name.
pub open spec fn invalid_published_name_message(name: Seq<char>) -> Seq<char> {
    "Invalid published skill name '"@ + name + "': must match [a-zA-Z0-9_-]+"@
}

/// The rule a dependency breaks, if any.
pub open spec fn dependency_problem(name: Seq<char>, dep: DependencyEntry) -> Option<Seq<char>> {
    let has_repo = present(dep.repo);
    let has_path = present(dep.path);
    if has_repo == has_path {
        Some("Dependency '"@ + name + "' must declare exactly one of repo or path"@)
    } else if dep.rev is Some && !has_repo {
        Some("Dependency '"@ + name + "' cannot use rev with a local path"@)
    } else if dep.rev matches Some(rev) && parse_rev_spec(rev@) is None {
        Some("Dependency '"@ + name + "' has invalid rev '"@ + dep.rev->0@
            + "'; use commit:<sha>, branch:<name>, or tag:<name>"@)
    } else {
        None
    }
}

/// The rule a publish entry breaks, if any.
pub open spec fn publish_problem(deps: Map<Seq<char>, DependencyEntry>, entry: PublishEntry) -> Option<Seq<char>> {
    match entry {
        PublishEntry::Dependency(name) => {
            if !is_skill_name(name@) {
                Some(invalid_published_name_message(name@))
            } else if !deps.contains_key(name@) {
                Some("Published skill '"@ + name@
                    + "' must match a dependency or use an object publish entry with a path"@)
            } else if !present(deps[name@].path) {
                Some("Published skill '"@ + name@ + "' must reference a local path dependency"@)
            } else {
                None
            }
        }
        PublishEntry::Object(object) => {
            if !is_skill_name(object.skill@) {
                Some(invalid_published_name_message(object.skill@))
            } else if trim_seq(object.path@).len() == 0 {
                Some("Published skill '"@ + object.skill@ + "' must declare a non-empty path"@)
            } else {
                None
            }
        }
    }
}

/// Position `i` of `keys` answers the name rule.
pub open spec fn name_checks(keys: Seq<Seq<char>>) -> spec_fn(int) -> Option<Seq<char>> {
    |i: int| if is_skill_name(keys[i]) { None::<Seq<char>> } else { Some(invalid_name_message(keys[i])) }
}

/// Position `i` answers the dependency rules for `keys[i]` and `vals[i]`.
pub open spec fn dependency_checks(keys: Seq<Seq<char>>, vals: Seq<DependencyEntry>) -> spec_fn(int) -> Option<Seq<char>> {
    |i: int| dependency_problem(keys[i], vals[i])
}

/// Position `i` answers the publish rules for `publish[i]`.
pub open spec fn publish_checks(deps: Map<Seq<char>, DependencyEntry>, publish: Seq<PublishEntry>) -> spec_fn(int) -> Option<Seq<char>> {
    |i: int| publish_problem(deps, publish[i])
}

impl Manifest {
    /// The dependencies as a map.
    pub open spec fn deps(&self) -> Map<Seq<char>, DependencyEntry> {
        self.dependencies.as_map()
    }

    /// The manifest's map of dependencies is well formed.
    pub open spec fn wf(&self) -> bool {
        self.dependencies.wf()
    }

    /// The first rule the manifest breaks, in the order `validate` checks them:
    /// dependency names, then each dependency, then each publish entry.
    pub open spec fn problem(&self) -> Option<Seq<char>> {
        let keys = self.dependencies.keys_view();
        let vals = self.dependencies.vals_view();
        or_else(
            first_some(keys.len() as int, name_checks(keys)),
            or_else(
                first_some(keys.len() as int, dependency_checks(keys, vals)),
                first_some(self.publish@.len() as int, publish_checks(self.deps(), self.publish@)),
            ),
        )
    }

    /// A manifest with no dependencies and nothing published.
    pub fn new() -> (m: Self)
        ensures
            m.wf(),
            m.deps() == Map::<Seq<char>, DependencyEntry>::empty(),
            m.dependencies.keys_view().len() == 0,
            m.publish@.len() == 0,
    {
        Manifest { dependencies: NameMap::new(), publish: Vec::new() }
    }

    /// Checks the manifest rules; the error names the first rule broken.
    pub fn validate(&self) -> (r: Result<(), ManifestInvalidName>)
        requires self.wf(),
        ensures
            r is Ok <==> self.problem() is None,
            r matches Err(e) ==> Some(e.message@) == self.problem(),
    {
        let n = self.dependencies.len();
        let ghost keys = self.dependencies.keys_view();
        let ghost vals = self.dependencies.vals_view();
        let mut i: usize = 0;
        while i < n
            invariant
                self.wf(), n == keys.len(), i <= n,
                keys == self.dependencies.keys_view(),
                first_some(n as int, name_checks(keys)) == first_some_from(i as int, n as int, name_checks(keys)),
            decreases n - i,
        {
            let name = self.dependencies.key_at(i);
            if !matches_skill_name_pattern(name.as_str()) {
                let msg = concat(&concat("Invalid skill name '", name.as_str()), "': must match [a-zA-Z0-9_-]+");
                return Err(ManifestInvalidName::new(msg));
            }
            i += 1;
        }
        let mut i: usize = 0;
        while i < n
            invariant
                self.wf(), n == keys.len(), i <= n,
                keys == self.dependencies.keys_view(),
                vals == self.dependencies.vals_view(),
                first_some(n as int, name_checks(keys)) is None,
                first_some(n as int, dependency_checks(keys, vals)) == first_some_from(i as int, n as int, dependency_checks(keys, vals)),
            decreases n - i,
        {
            let name = self.dependencies.key_at(i);
            let dep = self.dependencies.val_at(i);
            let has_repo = match &dep.repo { Some(r) => !r.as_str().is_empty(), None => false };
            let has_path = match &dep.path { Some(p) => !p.as_str().is_empty(), None => false };
            proof {
                assert(has_repo == present(dep.repo));
                assert(has_path == present(dep.path));
            }
            if has_repo == has_path {
                let msg = concat(&concat("Dependency '", name.as_str()), "' must declare exactly one of repo or path");
                return Err(ManifestInvalidName::new(msg));
            }
            if dep.rev.is_some() && !has_repo {
                let msg = concat(&concat("Dependency '", name.as_str()), "' cannot use rev with a local path");
                return Err(ManifestInvalidName::new(msg));
            }
            if let Some(rev) = &dep.rev {
                if parse_rev(rev.as_str()).is_none() {
                    let msg = concat(
                        &concat(&concat(&concat("Dependency '", name.as_str()), "' has invalid rev '"), rev.as_str()),
                        "'; use commit:<sha>, branch:<name>, or tag:<name>",
                    );
                    return Err(ManifestInvalidName::new(msg));
                }
            }
            i += 1;
        }
        let m = self.publish.len();
        let mut j: usize = 0;
        while j < m
            invariant
                self.wf(), j <= m, m == self.publish@.len(), n == keys.len(),
                keys == self.dependencies.keys_view(),
                vals == self.dependencies.vals_view(),
                first_some(n as int, name_checks(keys)) is None,
                first_some(n as int, dependency_checks(keys, vals)) is None,
                first_some(m as int, publish_checks(self.deps(), self.publish@)) == first_some_from(j as int, m as int, publish_checks(self.deps(), self.publish@)),
            decreases m - j,
        {
            match &self.publish[j] {
                PublishEntry::Dependency(name) => {
                    if !matches_skill_name_pattern(name.as_str()) {
                        let msg = concat(&concat("Invalid published skill name '", name.as_str()), "': must match [a-zA-Z0-9_-]+");
                        return Err(ManifestInvalidName::new(msg));
                    }
                    match self.dependencies.get(name.as_str()) {
                        None => {
                            let msg = concat(&concat("Published skill '", name.as_str()),
                                "' must match a dependency or use an object publish entry with a path");
                            return Err(ManifestInvalidName::new(msg));
                        }
                        Some(dep) => {
                            let has_path = match &dep.path { Some(p) => !p.as_str().is_empty(), None => false };
                            if !has_path {
                                let msg = concat(&concat("Published skill '", name.as_str()),
                                    "' must reference a local path dependency");
                                return Err(ManifestInvalidName::new(msg));
                            }
                        }
                    }
                }
                PublishEntry::Object(object) => {
                    if !matches_skill_name_pattern(object.skill.as_str()) {
                        let msg = concat(&concat("Invalid published skill name '", object.skill.as_str()), "': must match [a-zA-Z0-9_-]+");
                        return Err(ManifestInvalidName::new(msg));
                    }
                    let trimmed = trim(object.path.as_str());
                    if trimmed.as_str().is_empty() {
                        let msg = concat(&concat("Published skill '", object.skill.as_str()), "' must declare a non-empty path");
                        return Err(ManifestInvalidName::new(msg));
                    }
                }
            }
            j += 1;
        }
        Ok(())
    }

    /// Declares (or redeclares) `name` as a remote dependency on `repo` at `rev`.
    pub fn add_remote_dependency(&mut self, name: String, repo: String, rev: Option<String>)
        requires old(self).wf(),
        ensures
            final(self).wf(),
            final(self).deps() == old(self).deps().insert(name@, DependencyEntry { repo: Some(repo), path: None, rev: rev }),
            final(self).publish@ == old(self).publish@,
    {
        self.dependencies.insert(name, DependencyEntry { repo: Some(repo), path: None, rev });
    }

    /// Declares (or redeclares) `name` as a local dependency at `path`.
    pub fn add_local_dependency(&mut self, name: String, path: String)
        requires old(self).wf(),
        ensures
            final(self).wf(),
            final(self).deps() == old(self).deps().insert(name@, DependencyEntry { repo: None, path: Some(path), rev: None }),
            final(self).publish@ == old(self).publish@,
    {
        self.dependencies.insert(name, DependencyEntry { repo: None, path: Some(path), rev: None });
    }

    /// Removes every publish entry named `name`, keeping the others in order.
    fn retain_other_publish(&mut self, name: &str)
        requires old(self).wf(),
        ensures
            final(self).wf(),
            final(self).deps() == old(self).deps(),
            final(self).dependencies == old(self).dependencies,
            final(self).publish@ == old(self).publish@.filter(other_than(name@)),
    {
        let ghost orig = self.publish@;
        let ghost p = other_than(name@);
        let mut i: usize = 0;
        let ghost mut k: int = 0;
        assert(orig.subrange(0, 0).filter(p) =~= Seq::<PublishEntry>::empty()) by {
            reveal(Seq::filter);
        }
        assert(orig.subrange(0, orig.len() as int) == orig);
        while i < self.publish.len()
            invariant
                0 <= k <= orig.len(),
                i == orig.subrange(0, k).filter(p).len(),
                self.publish@ == orig.subrange(0, k).filter(p) + orig.subrange(k, orig.len() as int),
                p == other_than(name@),
                orig == old(self).publish@,
                self.dependencies == old(self).dependencies,
            decreases self.publish@.len() - i,
        {
            let ghost before = orig.subrange(0, k).filter(p);
            assert(self.publish@[i as int] == orig[k]);
            assert(orig.subrange(0, k + 1) == orig.subrange(0, k).push(orig[k]));
            proof { orig.subrange(0, k).lemma_filter_push(orig[k], p); }
            if str_eq(self.publish[i].skill_name(), name) {
                self.publish.remove(i);
                assert(!p(orig[k]));
                assert(self.publish@ =~= orig.subrange(0, k + 1).filter(p) + orig.subrange(k + 1, orig.len() as int));
            } else {
                assert(p(orig[k]));
                i += 1;
                assert(self.publish@ =~= orig.subrange(0, k + 1).filter(p) + orig.subrange(k + 1, orig.len() as int));
            }
            proof { k = k + 1; }
        }
        proof { orig.subrange(0, k).lemma_filter_len(p); }
        assert(self.publish@ =~= orig.filter(p));
    }

    /// Publishes `skill` from `path`, replacing any earlier entry for that name; it goes last.
    pub fn add_publish_object(&mut self, skill: String, path: String, deprecated: bool)
        requires old(self).wf(),
        ensures
            final(self).wf(),
            final(self).dependencies == old(self).dependencies,
            final(self).publish@ == old(self).publish@.filter(other_than(skill@)).push(
                PublishEntry::Object(PublishObject { skill: skill, path: path, deprecated: deprecated })),
    {
        self.retain_other_publish(skill.as_str());
        self.publish.push(PublishEntry::Object(PublishObject { skill, path, deprecated }));
    }

    /// Publishes the local dependency `name`, replacing any earlier entry for that name; it goes last.
    pub fn add_publish_dependency(&mut self, name: String)
        requires old(self).wf(),
        ensures
            final(self).wf(),
            final(self).dependencies == old(self).dependencies,
            final(self).publish@ == old(self).publish@.filter(other_than(name@)).push(PublishEntry::Dependency(name)),
    {
        self.retain_other_publish(name.as_str());
        self.publish.push(PublishEntry::Dependency(name));
    }

    /// Removes the dependency `name`; true when it was declared.
    pub fn remove_dependency(&mut self, name: &str) -> (r: bool)
        requires old(self).wf(),
        ensures
            final(self).wf(),
            r == old(self).deps().contains_key(name@),
            final(self).deps() == old(self).deps().remove(name@),
            final(self).publish@ == old(self).publish@,
    {
        self.dependencies.remove(name).is_some()
    }

    /// `name` is declared as a dependency.
    pub fn has_dependency(&self, name: &str) -> (r: bool)
        requires self.wf(),
        ensures r == self.deps().contains_key(name@),
    {
        self.dependencies.contains_key(name)
    }

    /// Same as `remove_dependency`.
    pub fn remove_skill(&mut self, name: &str) -> (r: bool)
        requires old(self).wf(),
        ensures
            final(self).wf(),
            r == old(self).deps().contains_key(name@),
            final(self).deps() == old(self).deps().remove(name@),
            final(self).publish@ == old(self).publish@,
    {
        self.remove_dependency(name)
    }

    /// Same as `has_dependency`.
    pub fn has_skill(&self, name: &str) -> (r: bool)
        requires self.wf(),
        ensures r == self.deps().contains_key(name@),
    {
        self.has_dependency(name)
    }

    /// The error for a manifest file that cannot be read.
    pub fn not_found(path_display: &str) -> (e: ManifestNotFound)
        ensures e.message@ == "No skills.json found at "@ + path_display@ + ". Run 'kt init .' to create one."@,
    {
        ManifestNotFound::new(concat(&concat("No skills.json found at ", path_display), ". Run 'kt init .' to create one."))
    }

    /// Finishes reading `skills.json` at `path_display`: `decoded` is what decoding its JSON gave
    /// (the manifest, or the decoder's message). A decoded manifest must also pass `validate`.
    pub fn from_decoded(decoded: Result<Manifest, String>, path_display: &str) -> (r: Result<Manifest, ManifestNotFound>)
        requires decoded matches Ok(m) ==> m.wf(),
        ensures
            decoded is Err ==> r is Err && r->Err_0.message@
                == "Invalid skills.json at "@ + path_display@ + ": "@ + decoded->Err_0@,
            decoded is Ok ==> (r is Ok <==> decoded->Ok_0.problem() is None),
            decoded is Ok && r is Ok ==> r->Ok_0 == decoded->Ok_0,
            decoded is Ok && r is Err ==> Some(r->Err_0.message@) == decoded->Ok_0.problem(),
    {
        match decoded {
            Err(message) => Err(ManifestNotFound::new(concat(
                &concat(&concat("Invalid skills.json at ", path_display), ": "),
                message.as_str(),
            ))),
            Ok(manifest) => match manifest.validate() {
                Ok(()) => Ok(manifest),
                Err(e) => Err(ManifestNotFound::new(e.message)),
            },
        }
    }
}

impl Default for Manifest {
    fn default() -> (m: Self)
        ensures
            m.wf(),
            m.deps() == Map::<Seq<char>, DependencyEntry>::empty(),
            m.publish@.len() == 0,
    {
        Manifest::new()
    }
}

/// Keeps entries whose name is not `name`.
pub open spec fn other_than(name: Seq<char>) -> spec_fn(PublishEntry) -> bool {
    |e: PublishEntry| e.name_view() != name
}

} // verus!

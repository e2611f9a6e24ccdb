//! `kt search`: the checks on its flags, the install hint of each result, and choosing the
//! result to install.

use vstd::prelude::*;
use crate::error::SearchFailed;
use crate::install::InstallOptions;
use crate::install_target::opt_view;
use crate::skills_sh::SkillSearchResult;
use crate::text::{concat, owned};

verus! {

/// Flags of `kt search`.
#[derive(Debug, Clone, Copy)]
pub struct SearchOptions {
    pub json: bool,
    pub limit: usize,
    pub install: bool,
    pub no_input: bool,
}

impl Default for SearchOptions {
    fn default() -> (r: Self)
        ensures !r.json && r.limit == 0 && !r.install && !r.no_input,
    {
        SearchOptions { json: false, limit: 0, install: false, no_input: false }
    }
}

pub open spec fn json_install_message() -> Seq<char> {
    "Cannot combine --json and --install"@
}

/// `--json` and `--install` exclude each other.
pub fn check_search_options(options: &SearchOptions) -> (r: Result<(), SearchFailed>)
    ensures
        r is Err <==> options.json && options.install,
        r matches Err(e) ==> e.message@ == json_install_message(),
{
    if options.json && options.install {
        Err(SearchFailed::new(owned("Cannot combine --json and --install")))
    } else {
        Ok(())
    }
}

/// The install column of a result.
pub open spec fn install_hint_spec(r: SkillSearchResult) -> Seq<char> {
    match r.install_target {
        Some(t) => "kt install "@ + t@,
        None => "not installable yet"@,
    }
}

pub fn install_hint(result: &SkillSearchResult) -> (r: String)
    ensures r@ == install_hint_spec(*result),
{
    match &result.install_target {
        Some(t) => concat("kt install ", t.as_str()),
        None => owned("not installable yet"),
    }
}

/// Asks which of several results to install; `None` when the user cancels.
pub trait SearchPrompter {
    fn select(&self, labels: &Vec<String>) -> Result<Option<usize>, SearchFailed>;
}

/// The label of a result in the selection list.
pub open spec fn selection_label(r: SkillSearchResult) -> Seq<char> {
    r.name@ + " ("@ + (match r.install_target { Some(t) => t@, None => "not installable"@ }) + ")"@
}

/// Positions of the installable results, in order.
pub open spec fn installable_positions(results: Seq<SkillSearchResult>) -> Seq<int>
    decreases results.len(),
{
    if results.len() == 0 {
        Seq::empty()
    } else {
        let prev = installable_positions(results.drop_last());
        if results.last().installable { prev.push(results.len() - 1) } else { prev }
    }
}

proof fn lemma_installable_positions(results: Seq<SkillSearchResult>)
    ensures
        forall|k: int| 0 <= k < installable_positions(results).len() ==> 0 <= #[trigger] installable_positions(results)[k] < results.len()
            && results[installable_positions(results)[k]].installable,
    decreases results.len(),
{
    if results.len() > 0 {
        lemma_installable_positions(results.drop_last());
    }
}

pub open spec fn none_installable_message() -> Seq<char> {
    "No installable GitHub-backed skills were found."@
}

pub open spec fn several_installable_message() -> Seq<char> {
    "Multiple installable skills found; rerun without --no-input to select one."@
}

pub open spec fn cancelled_message() -> Seq<char> {
    "Installation cancelled"@
}

pub open spec fn not_installable_message() -> Seq<char> {
    "Selected skill is not installable yet"@
}

/// The install target of a result, or the error for one without a target.
pub open spec fn target_of(r: SkillSearchResult) -> Result<Seq<char>, Seq<char>> {
    match r.install_target {
        Some(t) => Ok(t@),
        None => Err(not_installable_message()),
    }
}

pub open spec fn target_view(r: Result<String, SearchFailed>) -> Result<Seq<char>, Seq<char>> {
    match r {
        Ok(s) => Ok(s@),
        Err(e) => Err(e.message@),
    }
}

/// The positions of the installable results.
fn installable_indices(results: &Vec<SkillSearchResult>) -> (idx: Vec<usize>)
    ensures
        idx@.len() == installable_positions(results@).len(),
        forall|k: int| 0 <= k < idx@.len() ==> #[trigger] idx@[k] as int == installable_positions(results@)[k]
            && idx@[k] < results@.len(),
{
    proof { lemma_installable_positions(results@); }
    let mut idx: Vec<usize> = Vec::new();
    let mut i: usize = 0;
    while i < results.len()
        invariant
            i <= results@.len(),
            idx@.len() == installable_positions(results@.subrange(0, i as int)).len(),
            forall|k: int| 0 <= k < idx@.len() ==> idx@[k] == #[trigger] installable_positions(results@.subrange(0, i as int))[k],
        decreases results.len() - i,
    {
        proof {
            assert(results@.subrange(0, i + 1).drop_last() == results@.subrange(0, i as int));
            assert(results@.subrange(0, i + 1).last() == results@[i as int]);
        }
        if results[i].installable {
            idx.push(i);
        }
        i += 1;
    }
    assert(results@.subrange(0, results@.len() as int) == results@);
    assert forall|k: int| 0 <= k < idx@.len() implies #[trigger] idx@[k] as int == installable_positions(results@)[k]
        && idx@[k] < results@.len() by {
        assert(installable_positions(results@)[k] < results@.len());
    }
    idx
}

/// The labels of the installable results, in order, as the selection list shows them.
pub fn selection_labels(results: &Vec<SkillSearchResult>) -> (labels: Vec<String>)
    ensures
        labels@.len() == installable_positions(results@).len(),
        forall|k: int| 0 <= k < labels@.len()
            ==> #[trigger] labels@[k]@ == selection_label(results@[installable_positions(results@)[k]]),
{
    let idx = installable_indices(results);
    let mut labels: Vec<String> = Vec::new();
    let mut k: usize = 0;
    while k < idx.len()
        invariant
            k <= idx@.len(),
            labels@.len() == k,
            idx@.len() == installable_positions(results@).len(),
            forall|j: int| 0 <= j < idx@.len() ==> #[trigger] idx@[j] as int == installable_positions(results@)[j]
                && idx@[j] < results@.len(),
            forall|j: int| 0 <= j < k ==> #[trigger] labels@[j]@ == selection_label(results@[installable_positions(results@)[j]]),
        decreases idx.len() - k,
    {
        let r = &results[idx[k]];
        let target = match &r.install_target {
            Some(t) => t.as_str(),
            None => "not installable",
        };
        labels.push(concat(&concat(&concat(r.name.as_str(), " ("), target), ")"));
        k += 1;
    }
    labels
}

/// What the user's choice in the selection list gives: the install target of the chosen
/// installable result; cancelling, or a choice past the end, is an error, and a failed
/// prompt is passed on.
pub fn chosen_target(results: &Vec<SkillSearchResult>, answer: Result<Option<usize>, SearchFailed>) -> (r: Result<String, SearchFailed>)
    ensures
        match answer {
            Err(e) => r == Err::<String, SearchFailed>(e),
            Ok(None) => target_view(r) == Err::<Seq<char>, Seq<char>>(cancelled_message()),
            Ok(Some(c)) => if c < installable_positions(results@).len() {
                target_view(r) == target_of(results@[installable_positions(results@)[c as int]])
            } else {
                target_view(r) == Err::<Seq<char>, Seq<char>>(cancelled_message())
            },
        },
{
    let idx = installable_indices(results);
    match answer {
        Err(e) => Err(e),
        Ok(None) => Err(SearchFailed::new(owned("Installation cancelled"))),
        Ok(Some(choice)) => {
            if choice >= idx.len() {
                return Err(SearchFailed::new(owned("Installation cancelled")));
            }
            match &results[idx[choice]].install_target {
                Some(t) => Ok(t.clone()),
                None => Err(SearchFailed::new(owned("Selected skill is not installable yet"))),
            }
        },
    }
}

/// Chooses the install target among the results: the only installable one, or the one the
/// user picks among the labels of `selection_labels` (see `chosen_target`); an error when none
/// is installable or when `--no-input` forbids picking.
pub fn choose_install_target<P: SearchPrompter>(results: &Vec<SkillSearchResult>, no_input: bool, prompter: &P)
    -> (r: Result<String, SearchFailed>)
    ensures
        installable_positions(results@).len() == 0 ==> target_view(r) == Err::<Seq<char>, Seq<char>>(none_installable_message()),
        installable_positions(results@).len() == 1 ==> target_view(r) == target_of(results@[installable_positions(results@)[0]]),
        installable_positions(results@).len() > 1 && no_input
            ==> target_view(r) == Err::<Seq<char>, Seq<char>>(several_installable_message()),
        r matches Ok(s) ==> exists|k: int| 0 <= k < installable_positions(results@).len()
            && opt_view(results@[#[trigger] installable_positions(results@)[k]].install_target) == Some(s@),
{
    let idx = installable_indices(results);
    if idx.len() == 0 {
        return Err(SearchFailed::new(owned("No installable GitHub-backed skills were found.")));
    }
    if idx.len() == 1 {
        return match &results[idx[0]].install_target {
            Some(t) => Ok(t.clone()),
            None => Err(SearchFailed::new(owned("Selected skill is not installable yet"))),
        };
    }
    if no_input {
        return Err(SearchFailed::new(owned("Multiple installable skills found; rerun without --no-input to select one.")));
    }
    let labels = selection_labels(results);
    let r = chosen_target(results, prompter.select(&labels));
    proof {
        if r is Ok {
            let s = r->Ok_0;
            assert(exists|k: int| 0 <= k < installable_positions(results@).len()
                && opt_view(results@[#[trigger] installable_positions(results@)[k]].install_target) == Some(s@));
        }
    }
    r
}

/// The flags `kt search --install` installs with.
pub fn search_install_options(no_input: bool) -> (r: InstallOptions)
    ensures r.yes && r.no_input == no_input && !r.all && !r.ssh && r.skill is None,
{
    InstallOptions { all: false, yes: true, no_input, ssh: false, skill: None }
}

} // verus!

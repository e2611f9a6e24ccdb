//! How `kt` was installed: by Homebrew, by Cargo, or by hand, read from the executable's
//! path, the Cargo directories and what Homebrew reports.

use vstd::prelude::*;
use crate::git::{join_path, join_path_spec};
use crate::text::{has_prefix, owned, split_by, split_seq, starts_with, str_eq};

verus! {

/// How `kt` was installed.
#[derive(Debug, Clone, Copy, PartialEq, Eq, Structural)]
pub enum InstallChannel {
    Cargo,
    Homebrew,
    Manual,
}

/// Asks the system about commands. The real probe looks at `PATH` and runs the command;
/// its answers depend on the machine.
pub trait CommandProbe {
    fn command_exists(&self, command: &str) -> bool;
    fn command_succeeds(&self, command: &str, args: &[&str]) -> bool;
}

/// The named components of a path: its `/`-separated parts without empty parts and `.`.
pub open spec fn normal_segments(p: Seq<char>) -> Seq<Seq<char>> {
    split_seq(p, Some('/')).filter(|s: Seq<char>| s.len() > 0 && s != "."@)
}

/// The components of a Unix path as `Path::components` gives them: the root `/` or a
/// leading `.`, then the named parts.
pub open spec fn path_components(p: Seq<char>) -> Seq<Seq<char>> {
    if has_prefix(p, "/"@) {
        seq!["/"@] + normal_segments(p)
    } else if p == "."@ || has_prefix(p, "./"@) {
        seq!["."@] + normal_segments(p)
    } else {
        normal_segments(p)
    }
}

/// The components of a path.
pub fn path_components_of(p: &str) -> (r: Vec<String>)
    ensures r@.map_values(|s: String| s@) == path_components(p@),
{
    let parts = split_by(p, Some('/'));
    let ghost pred = |s: Seq<char>| s.len() > 0 && s != "."@;
    let ghost views = parts@.map_values(|s: String| s@);
    assert(views == split_seq(p@, Some('/')));
    let mut out: Vec<String> = Vec::new();
    if starts_with(p, "/") {
        out.push(owned("/"));
    } else if str_eq(p, ".") || starts_with(p, "./") {
        out.push(owned("."));
    }
    let ghost head = out@.map_values(|s: String| s@);
    let mut i: usize = 0;
    proof {
        reveal(Seq::filter);
        assert(views.subrange(0, 0).filter(pred) =~= Seq::<Seq<char>>::empty());
        assert(out@.map_values(|s: String| s@) =~= head + views.subrange(0, 0).filter(pred));
    }
    while i < parts.len()
        invariant
            i <= parts@.len(),
            views == parts@.map_values(|s: String| s@),
            pred == (|s: Seq<char>| s.len() > 0 && s != "."@),
            out@.map_values(|s: String| s@) == head + views.subrange(0, i as int).filter(pred),
        decreases parts.len() - i,
    {
        proof {
            reveal(Seq::filter);
            assert(views.subrange(0, i + 1).drop_last() == views.subrange(0, i as int));
            assert(views[i as int] == parts@[i as int]@);
        }
        let part = &parts[i];
        let keep = !part.as_str().is_empty() && !str_eq(part.as_str(), ".");
        let ghost before = out@;
        if keep {
            out.push(part.clone());
            proof {
                assert(out@.map_values(|s: String| s@) =~= before.map_values(|s: String| s@).push(part@));
            }
        }
        i += 1;
    }
    proof {
        assert(views.subrange(0, parts@.len() as int) == views);
    }
    out
}

/// The components contain `Cellar` followed by `ktesio`: a Homebrew keg.
pub open spec fn in_homebrew_cellar(components: Seq<Seq<char>>) -> bool {
    exists|i: int| 0 <= i < components.len() - 1 && #[trigger] components[i] == "Cellar"@ && components[i + 1] == "ktesio"@
}

/// `Path::starts_with`: the components of `base` begin the components of `p`.
pub open spec fn path_starts_with(p: Seq<char>, base: Seq<char>) -> bool {
    let a = path_components(p);
    let b = path_components(base);
    b.len() <= a.len() && a.subrange(0, b.len() as int) == b
}

/// The executable lies in `$CARGO_HOME/bin` or, by default, `$HOME/.cargo/bin`.
pub open spec fn in_cargo_bin(exe: Seq<char>, cargo_home: Option<Seq<char>>, home: Option<Seq<char>>) -> bool {
    ||| (cargo_home matches Some(c) && path_starts_with(exe, join_path_spec(c, "bin"@)))
    ||| (home matches Some(h) && path_starts_with(exe, join_path_spec(join_path_spec(h, ".cargo"@), "bin"@)))
}

/// The channel, given whether Homebrew reports the formula as installed: a Cellar path or
/// the formula means Homebrew, a Cargo bin directory means Cargo, anything else is manual.
pub open spec fn channel_spec(exe: Seq<char>, cargo_home: Option<Seq<char>>, home: Option<Seq<char>>, brew_formula: bool) -> InstallChannel {
    if in_homebrew_cellar(path_components(exe)) || brew_formula {
        InstallChannel::Homebrew
    } else if in_cargo_bin(exe, cargo_home, home) {
        InstallChannel::Cargo
    } else {
        InstallChannel::Manual
    }
}

fn components_eq_prefix(a: &Vec<String>, b: &Vec<String>) -> (r: bool)
    ensures
        r == (b@.len() <= a@.len()
            && a@.map_values(|s: String| s@).subrange(0, b@.len() as int) == b@.map_values(|s: String| s@)),
{
    if b.len() > a.len() {
        return false;
    }
    let ghost av = a@.map_values(|s: String| s@);
    let ghost bv = b@.map_values(|s: String| s@);
    let mut i: usize = 0;
    while i < b.len()
        invariant
            i <= b@.len(), b@.len() <= a@.len(),
            av == a@.map_values(|s: String| s@),
            bv == b@.map_values(|s: String| s@),
            forall|k: int| 0 <= k < i ==> av[k] == bv[k],
        decreases b.len() - i,
    {
        assert(av[i as int] == a@[i as int]@ && bv[i as int] == b@[i as int]@);
        if !str_eq(a[i].as_str(), b[i].as_str()) {
            assert(av.subrange(0, bv.len() as int)[i as int] != bv[i as int]);
            return false;
        }
        i += 1;
    }
    assert(av.subrange(0, bv.len() as int) =~= bv);
    true
}

/// `Path::starts_with` on Unix paths.
pub fn starts_with_path(p: &str, base: &str) -> (r: bool)
    ensures r == path_starts_with(p@, base@),
{
    let a = path_components_of(p);
    let b = path_components_of(base);
    proof {
        assert(a@.map_values(|s: String| s@).len() == a@.len());
        assert(b@.map_values(|s: String| s@).len() == b@.len());
    }
    components_eq_prefix(&a, &b)
}

fn has_cellar(components: &Vec<String>) -> (r: bool)
    ensures r == in_homebrew_cellar(components@.map_values(|s: String| s@)),
{
    let ghost v = components@.map_values(|s: String| s@);
    let n = components.len();
    if n < 2 {
        return false;
    }
    let mut i: usize = 0;
    while i < n - 1
        invariant
            n == components@.len(), n >= 2,
            v == components@.map_values(|s: String| s@),
            i <= components@.len(),
            forall|k: int| 0 <= k < i && k < v.len() - 1 ==> !(#[trigger] v[k] == "Cellar"@ && v[k + 1] == "ktesio"@),
        decreases components.len() - i,
    {
        assert(v[i as int] == components@[i as int]@ && v[i + 1] == components@[i + 1]@);
        if str_eq(components[i].as_str(), "Cellar") && str_eq(components[i + 1].as_str(), "ktesio") {
            return true;
        }
        i += 1;
    }
    assert forall|k: int| 0 <= k < v.len() - 1 implies !(#[trigger] v[k] == "Cellar"@ && v[k + 1] == "ktesio"@) by {
        assert(k < i);
    }
    false
}

/// Whether the executable lies in a Cargo bin directory.
pub fn is_in_cargo_bin(exe: &str, cargo_home: &Option<String>, home: &Option<String>) -> (r: bool)
    ensures
        r == in_cargo_bin(exe@, match cargo_home { Some(c) => Some(c@), None => None },
            match home { Some(h) => Some(h@), None => None }),
{
    if let Some(c) = cargo_home {
        let bin = join_path(c.as_str(), "bin");
        if starts_with_path(exe, bin.as_str()) {
            return true;
        }
    }
    if let Some(h) = home {
        let cargo = join_path(h.as_str(), ".cargo");
        let bin = join_path(cargo.as_str(), "bin");
        if starts_with_path(exe, bin.as_str()) {
            return true;
        }
    }
    false
}

/// The formula names Homebrew may list `kt` under: the short name, then the tap's.
pub open spec fn brew_formula_spec(qualified: bool) -> Seq<char> {
    if qualified { "imagdy/tap/ktesio"@ } else { "ktesio"@ }
}

/// The arguments of `brew list --formula <name>` for the short (`qualified == false`) or
/// the tap's formula name.
pub open spec fn brew_list_args_spec(qualified: bool) -> Seq<Seq<char>> {
    seq!["list"@, "--formula"@, brew_formula_spec(qualified)]
}

/// The program Homebrew is run as.
pub open spec fn brew_program_spec() -> Seq<char> {
    "brew"@
}

pub fn brew_program() -> (r: &'static str)
    ensures r@ == brew_program_spec(),
{
    "brew"
}

pub fn brew_list_args(qualified: bool) -> (r: Vec<&'static str>)
    ensures r@.map_values(|s: &str| s@) == brew_list_args_spec(qualified),
{
    let mut args: Vec<&'static str> = Vec::new();
    args.push("list");
    args.push("--formula");
    if qualified {
        args.push("imagdy/tap/ktesio");
    } else {
        args.push("ktesio");
    }
    assert(args@.map_values(|s: &str| s@) =~= brew_list_args_spec(qualified));
    args
}

/// The channel once Homebrew has answered whether it lists the formula (`brew_formula`).
pub fn detect_install_channel_given(exe_path: &str, cargo_home: &Option<String>, home: &Option<String>, brew_formula: bool)
    -> (r: InstallChannel)
    ensures r == r_witness(exe_path@, *cargo_home, *home, brew_formula),
{
    let components = path_components_of(exe_path);
    if has_cellar(&components) || brew_formula {
        InstallChannel::Homebrew
    } else if is_in_cargo_bin(exe_path, cargo_home, home) {
        InstallChannel::Cargo
    } else {
        InstallChannel::Manual
    }
}

/// Detects the channel from the executable's path, `$CARGO_HOME`, `$HOME`, and, unless the
/// path is already in a Homebrew Cellar, whether Homebrew lists the formula: `brew` must
/// exist and `brew list --formula` succeed for the short or the tap's name (the arguments
/// come from `brew_list_args`).
pub fn detect_install_channel_with_env<P: CommandProbe>(
    exe_path: &str,
    cargo_home: Option<String>,
    home: Option<String>,
    command_probe: &P,
) -> (r: InstallChannel)
    ensures
        exists|brew_formula: bool| r == #[trigger] r_witness(exe_path@, cargo_home, home, brew_formula),
        in_homebrew_cellar(path_components(exe_path@)) ==> r == InstallChannel::Homebrew,
{
    let components = path_components_of(exe_path);
    if has_cellar(&components) {
        assert(r_witness(exe_path@, cargo_home, home, false) == InstallChannel::Homebrew);
        return InstallChannel::Homebrew;
    }
    let brew = brew_program();
    let brew_formula = command_probe.command_exists(brew)
        && (command_probe.command_succeeds(brew, brew_list_args(false).as_slice())
            || command_probe.command_succeeds(brew, brew_list_args(true).as_slice()));
    detect_install_channel_given(exe_path, &cargo_home, &home, brew_formula)
}

/// `channel_spec` on optional strings.
pub open spec fn r_witness(exe: Seq<char>, cargo_home: Option<String>, home: Option<String>, brew_formula: bool) -> InstallChannel {
    channel_spec(exe, match cargo_home { Some(c) => Some(c@), None => None },
        match home { Some(h) => Some(h@), None => None }, brew_formula)
}

} // verus!

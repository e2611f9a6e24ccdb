use std::cell::RefCell;
use std::collections::HashSet;

use ktesio::install_channel::{
    brew_list_args, brew_program, detect_install_channel_given, detect_install_channel_with_env, path_components_of,
    starts_with_path, CommandProbe, InstallChannel,
};

#[derive(Default)]
struct FakeProbe {
    commands: HashSet<String>,
    successes: RefCell<HashSet<String>>,
}

impl FakeProbe {
    fn with_command(mut self, command: &str) -> Self {
        self.commands.insert(command.to_string());
        self
    }

    fn with_success(self, command: &str, args: &[&str]) -> Self {
        self.successes.borrow_mut().insert(command_key(command, args));
        self
    }
}

impl CommandProbe for FakeProbe {
    fn command_exists(&self, command: &str) -> bool {
        self.commands.contains(command)
    }

    fn command_succeeds(&self, command: &str, args: &[&str]) -> bool {
        self.successes.borrow().contains(&command_key(command, args))
    }
}

fn command_key(command: &str, args: &[&str]) -> String {
    format!("{command} {}", args.join(" "))
}

#[test]
fn test_detect_install_channel_prefers_homebrew_cellar_path() {
    let channel =
        detect_install_channel_with_env("/opt/homebrew/Cellar/ktesio/0.3.1/bin/kt", None, None, &FakeProbe::default());

    assert_eq!(channel, InstallChannel::Homebrew);
}

#[test]
fn test_detect_install_channel_uses_homebrew_formula_probe() {
    let probe =
        FakeProbe::default().with_command("brew").with_success("brew", &["list", "--formula", "imagdy/tap/ktesio"]);
    let channel = detect_install_channel_with_env("/usr/local/bin/kt", None, None, &probe);

    assert_eq!(channel, InstallChannel::Homebrew);
}

#[test]
fn test_detect_install_channel_needs_brew_on_path() {
    let probe = FakeProbe::default().with_success("brew", &["list", "--formula", "ktesio"]);
    let channel = detect_install_channel_with_env("/usr/local/bin/kt", None, None, &probe);

    assert_eq!(channel, InstallChannel::Manual);
}

#[test]
fn test_detect_install_channel_uses_cargo_home_and_home_default() {
    let custom = detect_install_channel_with_env(
        "/custom/cargo/bin/kt",
        Some("/custom/cargo".to_string()),
        None,
        &FakeProbe::default(),
    );
    let default_home = detect_install_channel_with_env(
        "/Users/alice/.cargo/bin/kt",
        None,
        Some("/Users/alice".to_string()),
        &FakeProbe::default(),
    );

    assert_eq!(custom, InstallChannel::Cargo);
    assert_eq!(default_home, InstallChannel::Cargo);
}

#[test]
fn test_detect_install_channel_falls_back_to_manual() {
    let channel = detect_install_channel_with_env("/usr/local/bin/kt", None, None, &FakeProbe::default());

    assert_eq!(channel, InstallChannel::Manual);
}

#[test]
fn test_path_components_and_prefixes() {
    assert_eq!(path_components_of("/a//b/./c/"), vec!["/", "a", "b", "c"]);
    assert_eq!(path_components_of("./x"), vec![".", "x"]);
    assert_eq!(path_components_of("x/../y"), vec!["x", "..", "y"]);
    assert!(starts_with_path("/custom/cargo/bin/kt", "/custom/cargo/bin"));
    assert!(starts_with_path("/custom//cargo/bin/kt", "/custom/cargo/bin/"));
    assert!(!starts_with_path("/custom/cargo/binary/kt", "/custom/cargo/bin"));
    assert!(!starts_with_path("custom/cargo/bin/kt", "/custom/cargo/bin"));
}

#[test]
fn test_brew_probe_commands() {
    assert_eq!(brew_program(), "brew");
    assert_eq!(brew_list_args(false), vec!["list", "--formula", "ktesio"]);
    assert_eq!(brew_list_args(true), vec!["list", "--formula", "imagdy/tap/ktesio"]);
}

#[test]
fn test_detect_install_channel_given_the_formula_answer() {
    let cellar = "/opt/homebrew/Cellar/ktesio/0.3.1/bin/kt";
    assert_eq!(detect_install_channel_given(cellar, &None, &None, false), InstallChannel::Homebrew);
    assert_eq!(detect_install_channel_given("/usr/local/bin/kt", &None, &None, true), InstallChannel::Homebrew);
    assert_eq!(detect_install_channel_given("/usr/local/bin/kt", &None, &None, false), InstallChannel::Manual);
    let home = Some("/home/me".to_string());
    assert_eq!(detect_install_channel_given("/home/me/.cargo/bin/kt", &None, &home, false), InstallChannel::Cargo);
    let cargo_home = Some("/opt/cargo".to_string());
    assert_eq!(detect_install_channel_given("/opt/cargo/bin/kt", &cargo_home, &None, false), InstallChannel::Cargo);
    assert_eq!(detect_install_channel_given("/opt/cargo/bin/kt", &cargo_home, &None, true), InstallChannel::Homebrew);
}

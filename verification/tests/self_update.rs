use std::cell::RefCell;
use std::collections::{HashMap, HashSet};
use std::io::{Cursor, Write};

use ktesio::error::SelfUpdateFailed;
use ktesio::install_channel::{detect_install_channel_with_env, CommandProbe, InstallChannel};
use ktesio::self_update::{
    candidate_command_names, command_update_outcome, update_command,
    display_version, extract_binary, is_newer_version, release_assets, release_target, run_with_channel,
    sha256_hex, verify_checksum, BinaryInstaller, CommandRunner, Platform, ReleaseClient,
    ReleaseTarget, SelfUpdateOutcome, UpdateReporter, CRATE, RELEASE_BASE_URL, TAP,
};

#[derive(Default)]
struct FakeRunner {
    commands: HashSet<String>,
    failures: RefCell<HashMap<String, String>>,
    runs: RefCell<Vec<String>>,
}

impl FakeRunner {
    fn with_failure(self, command: &str, args: &[&str], message: &str) -> Self {
        self.failures.borrow_mut().insert(command_key(command, args), message.to_string());
        self
    }
}

impl CommandProbe for FakeRunner {
    fn command_exists(&self, command: &str) -> bool {
        self.commands.contains(command)
    }

    fn command_succeeds(&self, _command: &str, _args: &[&str]) -> bool {
        false
    }
}

impl CommandRunner for FakeRunner {
    fn run_command(&self, command: &str, args: &[&str]) -> Result<(), String> {
        let key = command_key(command, args);
        self.runs.borrow_mut().push(key.clone());
        self.failures.borrow().get(&key).cloned().map(Err).unwrap_or(Ok(()))
    }
}

struct FakeReleaseClient {
    latest_tag: Result<String, String>,
    downloads: RefCell<HashMap<String, Vec<u8>>>,
    urls: RefCell<Vec<String>>,
}

impl FakeReleaseClient {
    fn new(tag: &str) -> Self {
        Self { latest_tag: Ok(tag.to_string()), downloads: RefCell::new(HashMap::new()), urls: RefCell::new(Vec::new()) }
    }

    fn failing(message: &str) -> Self {
        Self {
            latest_tag: Err(message.to_string()),
            downloads: RefCell::new(HashMap::new()),
            urls: RefCell::new(Vec::new()),
        }
    }

    fn with_download(self, url: &str, bytes: Vec<u8>) -> Self {
        self.downloads.borrow_mut().insert(url.to_string(), bytes);
        self
    }
}

impl ReleaseClient for FakeReleaseClient {
    fn latest_release_tag(&self) -> Result<String, String> {
        self.latest_tag.clone()
    }

    fn download(&self, url: &str) -> Result<Vec<u8>, String> {
        self.urls.borrow_mut().push(url.to_string());
        self.downloads.borrow().get(url).cloned().ok_or_else(|| format!("missing fake download for {url}"))
    }
}

#[derive(Default)]
struct FakeBinaryInstaller {
    replacements: RefCell<Vec<(String, Vec<u8>)>>,
    failure: Option<String>,
}

impl BinaryInstaller for FakeBinaryInstaller {
    fn replace_current_exe(&self, current_exe: &str, binary: &[u8]) -> Result<(), String> {
        if let Some(failure) = &self.failure {
            return Err(failure.clone());
        }
        self.replacements.borrow_mut().push((current_exe.to_string(), binary.to_vec()));
        Ok(())
    }
}

fn tar_gz_with_binary(name: &str, bytes: &[u8]) -> Vec<u8> {
    let encoder = flate2::write::GzEncoder::new(Vec::new(), flate2::Compression::default());
    let mut archive = tar::Builder::new(encoder);
    let mut header = tar::Header::new_gnu();
    header.set_mode(0o755);
    header.set_size(bytes.len() as u64);
    header.set_cksum();
    archive.append_data(&mut header, name, Cursor::new(bytes)).unwrap();
    let encoder = archive.into_inner().unwrap();
    encoder.finish().unwrap()
}

fn zip_with_binary(name: &str, bytes: &[u8]) -> Vec<u8> {
    let cursor = Cursor::new(Vec::new());
    let mut archive = zip::ZipWriter::new(cursor);
    archive.start_file(name, zip::write::SimpleFileOptions::default()).unwrap();
    archive.write_all(bytes).unwrap();
    archive.finish().unwrap().into_inner()
}

impl FakeBinaryInstaller {
    fn failing(message: &str) -> Self {
        Self { replacements: RefCell::new(Vec::new()), failure: Some(message.to_string()) }
    }
}

#[derive(Default)]
struct FakeReporter {
    messages: RefCell<Vec<String>>,
}

impl UpdateReporter for FakeReporter {
    fn success(&self, message: &str) {
        self.messages.borrow_mut().push(message.to_string());
    }

    fn info(&self, message: &str) {
        self.messages.borrow_mut().push(message.to_string());
    }
}

fn command_key(command: &str, args: &[&str]) -> String {
    format!("{command} {}", args.join(" "))
}

fn platform(os: &str, arch: &str) -> Platform {
    Platform { os: os.to_string(), arch: arch.to_string() }
}

fn run(
    channel: InstallChannel,
    exe: &str,
    platform: &Platform,
    runner: &FakeRunner,
    release: &FakeReleaseClient,
    installer: &FakeBinaryInstaller,
) -> Result<SelfUpdateOutcome, SelfUpdateFailed> {
    run_with_channel(channel, exe, "0.3.1", platform, runner, release, installer, &FakeReporter::default())
}

#[test]
fn test_self_update_homebrew_runs_brew_upgrade() {
    let runner = FakeRunner::default();
    let release = FakeReleaseClient::new("v9.9.9");
    let installer = FakeBinaryInstaller::default();
    let exe = "/opt/homebrew/Cellar/ktesio/0.3.1/bin/kt";
    let channel = detect_install_channel_with_env(exe, None, None, &runner);

    let outcome = run(channel, exe, &platform("linux", "x86_64"), &runner, &release, &installer).unwrap();

    assert_eq!(outcome, SelfUpdateOutcome::Updated(InstallChannel::Homebrew));
    assert_eq!(runner.runs.borrow().as_slice(), &[command_key("brew", &["upgrade", TAP])]);
    assert!(installer.replacements.borrow().is_empty());
}

#[test]
fn test_self_update_cargo_runs_cargo_install_force() {
    let runner = FakeRunner::default();
    let release = FakeReleaseClient::new("v9.9.9");
    let installer = FakeBinaryInstaller::default();

    let outcome = run(
        InstallChannel::Cargo,
        "/Users/alice/.cargo/bin/kt",
        &platform("linux", "x86_64"),
        &runner,
        &release,
        &installer,
    )
    .unwrap();

    assert_eq!(outcome, SelfUpdateOutcome::Updated(InstallChannel::Cargo));
    assert_eq!(runner.runs.borrow().as_slice(), &[command_key("cargo", &["install", CRATE, "--force"])]);
}

#[test]
fn test_self_update_cargo_failure_is_returned() {
    let runner = FakeRunner::default().with_failure("cargo", &["install", CRATE, "--force"], "cargo failed");
    let error = run(
        InstallChannel::Cargo,
        "/Users/alice/.cargo/bin/kt",
        &platform("linux", "x86_64"),
        &runner,
        &FakeReleaseClient::new("v9.9.9"),
        &FakeBinaryInstaller::default(),
    )
    .unwrap_err();

    assert_eq!(error.message, "cargo failed");
}

#[test]
fn test_self_update_manual_downloads_verifies_and_replaces_binary() {
    let archive = tar_gz_with_binary("kt", b"new kt binary");
    let checksum = format!("{}  archive.tar.gz\n", sha256_hex(&archive));
    let asset_url = format!("{RELEASE_BASE_URL}/v0.4.0/ktesio-v0.4.0-x86_64-unknown-linux-gnu.tar.gz");
    let checksum_url = format!("{asset_url}.sha256");
    let release = FakeReleaseClient::new("v0.4.0")
        .with_download(&asset_url, archive)
        .with_download(&checksum_url, checksum.into_bytes());
    let installer = FakeBinaryInstaller::default();
    let reporter = FakeReporter::default();

    let outcome = run_with_channel(
        InstallChannel::Manual,
        "/usr/local/bin/kt",
        "0.3.1",
        &platform("linux", "x86_64"),
        &FakeRunner::default(),
        &release,
        &installer,
        &reporter,
    )
    .unwrap();

    assert_eq!(outcome, SelfUpdateOutcome::Updated(InstallChannel::Manual));
    assert_eq!(release.urls.borrow().as_slice(), &[asset_url, checksum_url]);
    assert_eq!(
        installer.replacements.borrow().as_slice(),
        &[("/usr/local/bin/kt".to_string(), b"new kt binary".to_vec())]
    );
    assert_eq!(
        reporter.messages.borrow().as_slice(),
        &[
            "Downloading Ktesio v0.4.0 for x86_64-unknown-linux-gnu.".to_string(),
            "Updated Ktesio to 0.4.0.".to_string()
        ]
    );
}

#[test]
fn test_self_update_manual_latest_release_failure_is_returned() {
    let error = run(
        InstallChannel::Manual,
        "/usr/local/bin/kt",
        &platform("linux", "x86_64"),
        &FakeRunner::default(),
        &FakeReleaseClient::failing("offline"),
        &FakeBinaryInstaller::default(),
    )
    .unwrap_err();

    assert_eq!(error.message, "offline");
}

#[test]
fn test_self_update_manual_download_failure_is_returned() {
    let release = FakeReleaseClient::new("v0.4.0");
    let error = run(
        InstallChannel::Manual,
        "/usr/local/bin/kt",
        &platform("linux", "x86_64"),
        &FakeRunner::default(),
        &release,
        &FakeBinaryInstaller::default(),
    )
    .unwrap_err();

    assert!(error.message.contains("missing fake download"));
}

#[test]
fn test_self_update_manual_checksum_mismatch_fails() {
    let archive = tar_gz_with_binary("kt", b"new kt binary");
    let asset_url = format!("{RELEASE_BASE_URL}/v0.4.0/ktesio-v0.4.0-x86_64-unknown-linux-gnu.tar.gz");
    let checksum_url = format!("{asset_url}.sha256");
    let release = FakeReleaseClient::new("v0.4.0")
        .with_download(&asset_url, archive)
        .with_download(&checksum_url, format!("{}  archive.tar.gz\n", "0".repeat(64)).into_bytes());

    let error = run(
        InstallChannel::Manual,
        "/usr/local/bin/kt",
        &platform("linux", "x86_64"),
        &FakeRunner::default(),
        &release,
        &FakeBinaryInstaller::default(),
    )
    .unwrap_err();

    assert!(error.message.contains("Checksum verification failed"));
}

#[test]
fn test_verify_checksum_rejects_invalid_checksum_file() {
    let error = verify_checksum(b"archive", b"not-a-sha", "ktesio.tar.gz").unwrap_err();

    assert!(error.message.contains("valid SHA-256"));
}

#[test]
fn test_verify_checksum_accepts_upper_case_first_word() {
    let digest = sha256_hex(b"archive");
    assert_eq!(digest.len(), 64);
    let file = format!("\n  {}  ktesio.tar.gz\n", digest.to_uppercase());
    assert!(verify_checksum(b"archive", file.as_bytes(), "ktesio.tar.gz").is_ok());
    assert_eq!(
        verify_checksum(b"other", file.as_bytes(), "ktesio.tar.gz").unwrap_err().message,
        "Checksum verification failed for ktesio.tar.gz."
    );
    assert!(verify_checksum(b"archive", &[0xff, 0xfe], "ktesio.tar.gz").is_err());
}

#[test]
fn test_sha256_hex_known_value() {
    assert_eq!(sha256_hex(b"abc"), "ba7816bf8f01cfea414140de5dae2223b00361a396177a9cb410ff61f20015ad");
}

#[test]
fn test_self_update_manual_unsupported_target_fails_with_cargo_hint() {
    let error = run(
        InstallChannel::Manual,
        "/usr/local/bin/kt",
        &platform("linux", "aarch64"),
        &FakeRunner::default(),
        &FakeReleaseClient::new("v0.4.0"),
        &FakeBinaryInstaller::default(),
    )
    .unwrap_err();

    assert!(error.message.contains("No prebuilt Ktesio binary"));
    assert!(error.message.contains("cargo install ktesio --force"));
}

#[test]
fn test_self_update_manual_up_to_date_skips_download_and_replace() {
    let release = FakeReleaseClient::new("v0.3.1");
    let installer = FakeBinaryInstaller::default();

    let outcome = run(
        InstallChannel::Manual,
        "/usr/local/bin/kt",
        &platform("linux", "x86_64"),
        &FakeRunner::default(),
        &release,
        &installer,
    )
    .unwrap();

    assert_eq!(outcome, SelfUpdateOutcome::AlreadyCurrent);
    assert!(release.urls.borrow().is_empty());
    assert!(installer.replacements.borrow().is_empty());
}

#[test]
fn test_version_comparison_rejects_invalid_versions() {
    assert!(!is_newer_version("not-a-version", "v0.4.0"));
    assert!(!is_newer_version("0.3.1", "not-a-version"));
}

#[test]
fn test_display_version_trims_tags_and_whitespace() {
    assert_eq!(display_version(" v0.4.0 \n"), "0.4.0");
}

#[test]
fn test_release_target_matrix() {
    assert_eq!(release_target(&platform("macos", "x86_64")).unwrap().triple, "x86_64-apple-darwin");
    assert_eq!(release_target(&platform("macos", "aarch64")).unwrap().triple, "aarch64-apple-darwin");
    assert_eq!(release_target(&platform("windows", "x86_64")).unwrap().triple, "x86_64-pc-windows-msvc");
    assert_eq!(release_target(&platform("linux", "x86_64")).unwrap().extension, "tar.gz");
    assert_eq!(release_target(&platform("windows", "x86_64")).unwrap().binary_name, "kt.exe");
}

#[test]
fn test_release_assets_urls() {
    let target = release_target(&platform("windows", "x86_64")).unwrap();
    let assets = release_assets("v0.4.0", &target);
    assert_eq!(assets.asset, "ktesio-v0.4.0-x86_64-pc-windows-msvc.zip");
    assert_eq!(assets.asset_url, format!("{RELEASE_BASE_URL}/v0.4.0/ktesio-v0.4.0-x86_64-pc-windows-msvc.zip"));
    assert_eq!(assets.checksum_url, format!("{}.sha256", assets.asset_url));
}

#[test]
fn test_extract_binary_rejects_unknown_archive_extension() {
    let error = extract_binary(
        b"archive",
        &ReleaseTarget { triple: "x86_64-example", extension: "tar.xz", binary_name: "kt" },
    )
    .unwrap_err();

    assert!(error.message.contains("Unsupported release archive extension"));
}

fn manual_release(tag: &str, triple: &str, extension: &str, archive: Vec<u8>) -> (FakeReleaseClient, String, String) {
    let checksum = format!("{}  archive.{extension}\n", sha256_hex(&archive));
    let asset_url = format!("{RELEASE_BASE_URL}/{tag}/ktesio-{tag}-{triple}.{extension}");
    let checksum_url = format!("{asset_url}.sha256");
    let release = FakeReleaseClient::new(tag)
        .with_download(&asset_url, archive)
        .with_download(&checksum_url, checksum.into_bytes());
    (release, asset_url, checksum_url)
}

#[test]
fn test_self_update_manual_windows_downloads_zip_asset() {
    let binary = b"windows kt binary";
    let (release, asset_url, checksum_url) =
        manual_release("v0.4.0", "x86_64-pc-windows-msvc", "zip", zip_with_binary("kt.exe", binary));
    let installer = FakeBinaryInstaller::default();

    let outcome = run(
        InstallChannel::Manual,
        "C:/Users/Alice/bin/kt.exe",
        &platform("windows", "x86_64"),
        &FakeRunner::default(),
        &release,
        &installer,
    )
    .unwrap();

    assert_eq!(outcome, SelfUpdateOutcome::Updated(InstallChannel::Manual));
    assert_eq!(release.urls.borrow().as_slice(), &[asset_url, checksum_url]);
    assert_eq!(installer.replacements.borrow().as_slice(), &[("C:/Users/Alice/bin/kt.exe".to_string(), binary.to_vec())]);
}

#[test]
fn test_self_update_manual_detection_wrapper_updates_binary() {
    let binary = b"new kt binary";
    let (release, _, _) = manual_release("v0.4.0", "x86_64-unknown-linux-gnu", "tar.gz", tar_gz_with_binary("kt", binary));
    let installer = FakeBinaryInstaller::default();
    let runner = FakeRunner::default();
    let exe = "/usr/local/bin/kt";
    let channel = detect_install_channel_with_env(exe, None, None, &runner);

    let outcome = run(channel, exe, &platform("linux", "x86_64"), &runner, &release, &installer).unwrap();

    assert_eq!(outcome, SelfUpdateOutcome::Updated(InstallChannel::Manual));
    assert_eq!(installer.replacements.borrow().as_slice(), &[(exe.to_string(), binary.to_vec())]);
}

#[test]
fn test_self_update_manual_replace_failure_is_returned() {
    let (release, _, _) =
        manual_release("v0.4.0", "x86_64-unknown-linux-gnu", "tar.gz", tar_gz_with_binary("kt", b"new kt binary"));

    let error = run(
        InstallChannel::Manual,
        "/usr/local/bin/kt",
        &platform("linux", "x86_64"),
        &FakeRunner::default(),
        &release,
        &FakeBinaryInstaller::failing("replace failed"),
    )
    .unwrap_err();

    assert_eq!(error.message, "replace failed");
}

#[test]
fn test_self_update_manual_newer_prerelease_updates_release() {
    let binary = b"release candidate kt binary";
    let (release, asset_url, checksum_url) =
        manual_release("v0.4.0-rc.1", "x86_64-unknown-linux-gnu", "tar.gz", tar_gz_with_binary("kt", binary));
    let installer = FakeBinaryInstaller::default();

    let outcome = run(
        InstallChannel::Manual,
        "/usr/local/bin/kt",
        &platform("linux", "x86_64"),
        &FakeRunner::default(),
        &release,
        &installer,
    )
    .unwrap();

    assert_eq!(outcome, SelfUpdateOutcome::Updated(InstallChannel::Manual));
    assert_eq!(release.urls.borrow().as_slice(), &[asset_url, checksum_url]);
    assert_eq!(installer.replacements.borrow().as_slice(), &[("/usr/local/bin/kt".to_string(), binary.to_vec())]);
}

fn linux_target() -> ReleaseTarget {
    ReleaseTarget { triple: "x86_64-unknown-linux-gnu", extension: "tar.gz", binary_name: "kt" }
}

fn windows_target() -> ReleaseTarget {
    ReleaseTarget { triple: "x86_64-pc-windows-msvc", extension: "zip", binary_name: "kt.exe" }
}

#[test]
fn test_extract_binary_reports_missing_binary() {
    let archive = tar_gz_with_binary("not-kt", b"nope");
    let error = extract_binary(&archive, &linux_target()).unwrap_err();

    assert!(error.message.contains("did not contain kt"));
}

#[test]
fn test_extract_zip_reports_missing_binary() {
    let archive = zip_with_binary("not-kt.exe", b"nope");
    let error = extract_binary(&archive, &windows_target()).unwrap_err();

    assert!(error.message.contains("did not contain kt.exe"));
}

#[test]
fn test_extract_zip_reports_invalid_archive() {
    let error = extract_binary(b"not a zip archive", &windows_target()).unwrap_err();

    assert!(error.message.contains("Could not read release archive"));
}

#[test]
fn test_extract_tar_gz_reports_invalid_archive() {
    let error = extract_binary(b"not a gzip archive", &linux_target()).unwrap_err();

    assert!(error.message.contains("Could not read release archive"));
}

#[test]
fn test_extract_binary_finds_the_binary_under_a_directory() {
    let archive = tar_gz_with_binary("ktesio-v0.4.0/kt", b"nested binary");
    assert_eq!(extract_binary(&archive, &linux_target()).unwrap(), b"nested binary".to_vec());
    let archive = zip_with_binary("ktesio/kt.exe", b"nested exe");
    assert_eq!(extract_binary(&archive, &windows_target()).unwrap(), b"nested exe".to_vec());
}

#[test]
fn test_candidate_command_names_add_path_extensions_on_windows() {
    assert_eq!(candidate_command_names("brew", false, None), vec!["brew".to_string()]);
    assert_eq!(
        candidate_command_names("cargo", true, None),
        vec!["cargo".to_string(), "cargo.EXE".to_string(), "cargo.BAT".to_string(), "cargo.CMD".to_string()]
    );
    assert_eq!(
        candidate_command_names("git", true, Some(".COM;;.EXE".to_string())),
        vec!["git".to_string(), "git.COM".to_string(), "git.EXE".to_string()]
    );
    assert_eq!(candidate_command_names("git.exe", true, None), vec!["git.exe".to_string()]);
    assert_eq!(candidate_command_names(".profile", true, Some(".X".to_string())).len(), 2);
}

#[test]
fn test_update_commands_per_channel() {
    let (program, args) = update_command(InstallChannel::Homebrew).unwrap();
    assert_eq!(program, "brew");
    assert_eq!(args, vec!["upgrade", "imagdy/tap/ktesio"]);
    let (program, args) = update_command(InstallChannel::Cargo).unwrap();
    assert_eq!(program, "cargo");
    assert_eq!(args, vec!["install", "ktesio", "--force"]);
    assert!(update_command(InstallChannel::Manual).is_none());
}

#[test]
fn test_command_update_outcome() {
    assert_eq!(
        command_update_outcome(InstallChannel::Cargo, Ok(())).unwrap(),
        SelfUpdateOutcome::Updated(InstallChannel::Cargo)
    );
    assert_eq!(
        command_update_outcome(InstallChannel::Homebrew, Err("brew failed".to_string())).unwrap_err().to_string(),
        "brew failed"
    );
}

//! `kt self-update`: upgrading through the channel `kt` was installed with, or, for a manual
//! install, downloading the release archive, checking its SHA-256 and replacing the binary.

use vstd::prelude::*;
use sha2::Digest;
use vstd::utf8::{decode_utf8, valid_utf8};
use crate::archive::{extract_from_tar_gz, extract_from_zip, failure_view, file_name, file_name_spec, tar_gz_extraction,
    zip_extraction};
use crate::install_target::opt_view;
use crate::error::SelfUpdateFailed;
use crate::install_channel::{CommandProbe, InstallChannel};
use crate::text::{ascii_lower_seq, char_from_ascii, chars_of, concat, is_ascii_hex, is_ascii_hex_char, owned, push_char,
    split_by, split_seq, str_eq, to_ascii_lower, trim, trim_seq};
use crate::version::{is_newer_spec};

pub use crate::version::{display_version, is_newer_version};

verus! {

/// The Homebrew formula.
pub const TAP: &'static str = "imagdy/tap/ktesio";
/// The crate on crates.io.
pub const CRATE: &'static str = "ktesio";
/// The GitHub API address of the latest release.
pub const LATEST_RELEASE_URL: &'static str = "https://api.github.com/repos/iMagdy/ktesio/releases/latest";
/// Where release assets are downloaded from.
pub const RELEASE_BASE_URL: &'static str = "https://github.com/iMagdy/ktesio/releases/download";

/// The operating system and architecture `kt` runs on (Rust's `std::env::consts` names).
#[derive(Debug, Clone)]
pub struct Platform {
    pub os: String,
    pub arch: String,
}

/// The release build for a platform: its target triple, archive extension and binary name.
#[derive(Debug, Clone, Copy)]
pub struct ReleaseTarget {
    pub triple: &'static str,
    pub extension: &'static str,
    pub binary_name: &'static str,
}

impl ReleaseTarget {
    pub open spec fn view(&self) -> (Seq<char>, Seq<char>, Seq<char>) {
        (self.triple@, self.extension@, self.binary_name@)
    }
}

/// What a self-update did.
#[derive(Debug, Clone, Copy, PartialEq, Eq, Structural)]
pub enum SelfUpdateOutcome {
    AlreadyCurrent,
    Updated(InstallChannel),
}

/// The release build for `os`/`arch`, when one is published.
pub open spec fn release_target_spec(os: Seq<char>, arch: Seq<char>) -> Option<(Seq<char>, Seq<char>, Seq<char>)> {
    if os == "macos"@ && arch == "x86_64"@ {
        Some(("x86_64-apple-darwin"@, "tar.gz"@, "kt"@))
    } else if os == "macos"@ && arch == "aarch64"@ {
        Some(("aarch64-apple-darwin"@, "tar.gz"@, "kt"@))
    } else if os == "linux"@ && arch == "x86_64"@ {
        Some(("x86_64-unknown-linux-gnu"@, "tar.gz"@, "kt"@))
    } else if os == "windows"@ && arch == "x86_64"@ {
        Some(("x86_64-pc-windows-msvc"@, "zip"@, "kt.exe"@))
    } else {
        None
    }
}

pub open spec fn unsupported_platform_message(os: Seq<char>, arch: Seq<char>) -> Seq<char> {
    "No prebuilt Ktesio binary is available for "@ + os + "/"@ + arch
        + ". Install Rust and run: cargo install ktesio --force"@
}

pub fn release_target(platform: &Platform) -> (r: Result<ReleaseTarget, SelfUpdateFailed>)
    ensures
        match r {
            Ok(t) => release_target_spec(platform.os@, platform.arch@) == Some(t.view()),
            Err(e) => release_target_spec(platform.os@, platform.arch@) is None
                && e.message@ == unsupported_platform_message(platform.os@, platform.arch@),
        },
{
    let os = platform.os.as_str();
    let arch = platform.arch.as_str();
    proof {
        reveal_strlit("macos");
        reveal_strlit("linux");
        reveal_strlit("windows");
        reveal_strlit("x86_64");
        reveal_strlit("aarch64");
    }
    if str_eq(os, "macos") && str_eq(arch, "x86_64") {
        Ok(ReleaseTarget { triple: "x86_64-apple-darwin", extension: "tar.gz", binary_name: "kt" })
    } else if str_eq(os, "macos") && str_eq(arch, "aarch64") {
        Ok(ReleaseTarget { triple: "aarch64-apple-darwin", extension: "tar.gz", binary_name: "kt" })
    } else if str_eq(os, "linux") && str_eq(arch, "x86_64") {
        Ok(ReleaseTarget { triple: "x86_64-unknown-linux-gnu", extension: "tar.gz", binary_name: "kt" })
    } else if str_eq(os, "windows") && str_eq(arch, "x86_64") {
        Ok(ReleaseTarget { triple: "x86_64-pc-windows-msvc", extension: "zip", binary_name: "kt.exe" })
    } else {
        Err(SelfUpdateFailed::new(concat(
            &concat(&concat(&concat("No prebuilt Ktesio binary is available for ", os), "/"), arch),
            ". Install Rust and run: cargo install ktesio --force",
        )))
    }
}

/// Whether a file name has an extension (`Path::extension` is some): it has a `.` after its
/// first character.
pub open spec fn has_extension(name: Seq<char>) -> bool {
    exists|i: int| 0 < i < name.len() && name[i] == '.'
}

/// `command` with each extension of the list that is not empty appended, in order.
pub open spec fn with_extensions(command: Seq<char>, exts: Seq<Seq<char>>) -> Seq<Seq<char>>
    decreases exts.len(),
{
    if exts.len() == 0 {
        Seq::empty()
    } else {
        let prev = with_extensions(command, exts.drop_last());
        if exts.last().len() > 0 { prev.push(command + exts.last()) } else { prev }
    }
}

/// The extensions Windows tries, from `%PATHEXT%` (`;`-separated) or its usual value.
pub open spec fn path_ext_entries(path_ext: Option<Seq<char>>) -> Seq<Seq<char>> {
    split_seq(
        match path_ext {
            Some(t) => t,
            None => ".EXE;.BAT;.CMD"@,
        },
        Some(';'),
    )
}

/// The file names a command may have on `PATH`: the command itself and, on Windows when it
/// has no extension, the command with each extension of `%PATHEXT%`.
pub open spec fn candidate_names_spec(command: Seq<char>, windows: bool, path_ext: Option<Seq<char>>) -> Seq<Seq<char>> {
    if windows && !(file_name_spec(command) matches Some(f) && has_extension(f)) {
        seq![command] + with_extensions(command, path_ext_entries(path_ext))
    } else {
        seq![command]
    }
}

fn has_extension_exec(name: &str) -> (r: bool)
    ensures r == has_extension(name@),
{
    let v = chars_of(name);
    let mut i: usize = 1;
    while i < v.len()
        invariant
            1 <= i,
            v@ == name@,
            forall|j: int| 0 < j < i && j < v@.len() ==> v@[j] != '.',
        decreases v.len() - i,
    {
        if v[i] == '.' {
            return true;
        }
        i += 1;
    }
    false
}

pub fn candidate_command_names(command: &str, windows: bool, path_ext: Option<String>) -> (r: Vec<String>)
    ensures
        r@.map_values(|s: String| s@) == candidate_names_spec(command@, windows, opt_view(path_ext)),
{
    let mut names: Vec<String> = Vec::new();
    names.push(owned(command));
    let plain = match file_name(command) {
        Some(f) => !has_extension_exec(f.as_str()),
        None => true,
    };
    if !windows || !plain {
        assert(names@.map_values(|s: String| s@) =~= seq![command@]);
        return names;
    }
    let text = match &path_ext {
        Some(t) => t.clone(),
        None => owned(".EXE;.BAT;.CMD"),
    };
    let exts = split_by(text.as_str(), Some(';'));
    let ghost views = exts@.map_values(|s: String| s@);
    assert(views == path_ext_entries(opt_view(path_ext)));
    assert(names@.map_values(|s: String| s@) =~= seq![command@] + with_extensions(command@, views.subrange(0, 0)));
    let mut i: usize = 0;
    while i < exts.len()
        invariant
            i <= exts@.len(),
            views == exts@.map_values(|s: String| s@),
            names@.map_values(|s: String| s@) == seq![command@] + with_extensions(command@, views.subrange(0, i as int)),
        decreases exts.len() - i,
    {
        proof {
            assert(views.subrange(0, i + 1).drop_last() =~= views.subrange(0, i as int));
            assert(views[i as int] == exts@[i as int]@);
        }
        let ext = &exts[i];
        if !ext.as_str().is_empty() {
            let ghost before = names@;
            names.push(concat(command, ext.as_str()));
            assert(names@.map_values(|s: String| s@) =~= before.map_values(|s: String| s@).push(command@ + ext@));
        }
        i += 1;
    }
    assert(views.subrange(0, exts@.len() as int) =~= views);
    names
}

/// Runs commands (`brew`, `cargo`); an error carries the message to report.
pub trait CommandRunner: CommandProbe {
    fn run_command(&self, command: &str, args: &[&str]) -> Result<(), String>;
}

/// Talks to the release server.
pub trait ReleaseClient {
    fn latest_release_tag(&self) -> Result<String, String>;
    fn download(&self, url: &str) -> Result<Vec<u8>, String>;
}

/// Puts the new binary in place of the running one.
pub trait BinaryInstaller {
    fn replace_current_exe(&self, current_exe: &str, binary: &[u8]) -> Result<(), String>;
}

/// Shows progress to the user.
pub trait UpdateReporter {
    fn success(&self, message: &str);
    fn info(&self, message: &str);
}

/// The first of a list of pieces that is not empty.
pub open spec fn first_nonempty(pieces: Seq<Seq<char>>) -> Option<Seq<char>>
    decreases pieces.len(),
{
    if pieces.len() == 0 {
        None
    } else if pieces[0].len() > 0 {
        Some(pieces[0])
    } else {
        first_nonempty(pieces.drop_first())
    }
}

/// The checksum a checksum file announces: its first white-space separated word, lower-cased,
/// when the file is UTF-8 and the word is 64 hex digits.
pub open spec fn expected_checksum(file: Seq<u8>) -> Option<Seq<char>> {
    if !valid_utf8(file) {
        None
    } else {
        match first_nonempty(split_seq(decode_utf8(file), None)) {
            None => None,
            Some(w) => {
                let v = ascii_lower_seq(trim_seq(w));
                if v.len() == 64 && forall|i: int| 0 <= i < v.len() ==> is_ascii_hex(#[trigger] v[i]) {
                    Some(v)
                } else {
                    None
                }
            },
        }
    }
}

/// `std::str::from_utf8`: the text of UTF-8 bytes, `None` when they are not UTF-8.
#[verifier::external_body]
fn utf8_text(bytes: &[u8]) -> (r: Option<String>)
    ensures
        r is Some <==> valid_utf8(bytes@),
        r matches Some(s) ==> s@ == decode_utf8(bytes@),
{
    std::str::from_utf8(bytes).ok().map(|s| s.to_string())
}

/// The SHA-256 digest of some bytes (`sha2::Sha256::digest`), which depends on them alone.
pub uninterp spec fn sha256(bytes: Seq<u8>) -> Seq<u8>;

/// `sha2::Sha256::digest`: 32 bytes.
#[verifier::external_body]
fn sha256_digest(bytes: &[u8]) -> (r: Vec<u8>)
    ensures
        r@ == sha256(bytes@),
        r@.len() == 32,
{
    sha2::Sha256::digest(bytes).to_vec()
}

/// A lower-case hex digit.
pub open spec fn hex_digit(n: u8) -> char {
    if n < 10 { (48 + n) as char } else { (87 + n) as char }
}

/// Bytes written as lower-case hex, two digits each.
pub open spec fn hex_of(bytes: Seq<u8>) -> Seq<char>
    decreases bytes.len(),
{
    if bytes.len() == 0 {
        Seq::empty()
    } else {
        hex_of(bytes.drop_last()) + seq![hex_digit(bytes.last() / 16), hex_digit(bytes.last() % 16)]
    }
}

fn hex_digit_char(n: u8) -> (c: char)
    requires n < 16,
    ensures c == hex_digit(n),
{
    if n < 10 {
        char_from_ascii(48 + n as u32)
    } else {
        char_from_ascii(87 + n as u32)
    }
}

pub fn hex_lower(bytes: &[u8]) -> (r: String)
    ensures r@ == hex_of(bytes@),
{
    let mut out = String::new();
    let mut i: usize = 0;
    while i < bytes.len()
        invariant
            i <= bytes@.len(),
            out@ == hex_of(bytes@.subrange(0, i as int)),
        decreases bytes.len() - i,
    {
        let b = bytes[i];
        push_char(&mut out, hex_digit_char(b / 16));
        push_char(&mut out, hex_digit_char(b % 16));
        proof {
            let s = bytes@.subrange(0, i + 1);
            assert(s.drop_last() == bytes@.subrange(0, i as int));
            assert(s.last() == b);
        }
        i += 1;
    }
    assert(bytes@.subrange(0, bytes@.len() as int) == bytes@);
    out
}

/// The SHA-256 of some bytes in lower-case hex.
pub fn sha256_hex(bytes: &[u8]) -> (r: String)
    ensures r@ == hex_of(sha256(bytes@)),
{
    let digest = sha256_digest(bytes);
    hex_lower(digest.as_slice())
}

fn first_word(text: &str) -> (r: Option<String>)
    ensures
        match r {
            Some(w) => first_nonempty(split_seq(text@, None)) == Some(w@),
            None => first_nonempty(split_seq(text@, None)) is None,
        },
{
    let pieces = split_by(text, None);
    let ghost views = pieces@.map_values(|p: String| p@);
    assert(views == split_seq(text@, None));
    assert(views.subrange(0, views.len() as int) == views);
    let mut i: usize = 0;
    while i < pieces.len()
        invariant
            i <= pieces@.len(),
            views == pieces@.map_values(|p: String| p@),
            views == split_seq(text@, None),
            first_nonempty(views) == first_nonempty(views.subrange(i as int, views.len() as int)),
        decreases pieces.len() - i,
    {
        let ghost rest = views.subrange(i as int, views.len() as int);
        assert(rest[0] == pieces@[i as int]@);
        assert(rest.drop_first() == views.subrange(i + 1, views.len() as int));
        assert(rest.len() > 0);
        if !pieces[i].as_str().is_empty() {
            assert(first_nonempty(rest) == Some(rest[0]));
            return Some(pieces[i].clone());
        }
        i += 1;
    }
    None
}

fn all_ascii_hex(v: &Vec<char>) -> (r: bool)
    ensures r == forall|i: int| 0 <= i < v@.len() ==> is_ascii_hex(#[trigger] v@[i]),
{
    let mut i: usize = 0;
    while i < v.len()
        invariant
            i <= v@.len(),
            forall|k: int| 0 <= k < i ==> is_ascii_hex(#[trigger] v@[k]),
        decreases v.len() - i,
    {
        if !is_ascii_hex_char(v[i]) {
            return false;
        }
        i += 1;
    }
    true
}

pub open spec fn invalid_checksum_file_message(asset: Seq<char>) -> Seq<char> {
    "Checksum file for "@ + asset + " did not contain a valid SHA-256 value."@
}

pub open spec fn checksum_mismatch_message(asset: Seq<char>) -> Seq<char> {
    "Checksum verification failed for "@ + asset + "."@
}

/// Checks a downloaded archive against its checksum file.
pub fn verify_checksum(archive: &[u8], checksum_file: &[u8], asset: &str) -> (r: Result<(), SelfUpdateFailed>)
    ensures
        match expected_checksum(checksum_file@) {
            None => r matches Err(e) && e.message@ == invalid_checksum_file_message(asset@),
            Some(v) => if v == hex_of(sha256(archive@)) {
                r is Ok
            } else {
                r matches Err(e) && e.message@ == checksum_mismatch_message(asset@)
            },
        },
{
    let invalid = SelfUpdateFailed::new(concat(
        &concat("Checksum file for ", asset),
        " did not contain a valid SHA-256 value.",
    ));
    let text = match utf8_text(checksum_file) {
        Some(t) => t,
        None => {
            return Err(invalid);
        },
    };
    let word = match first_word(text.as_str()) {
        Some(w) => w,
        None => {
            return Err(invalid);
        },
    };
    let trimmed = trim(word.as_str());
    let expected = to_ascii_lower(trimmed.as_str());
    let v = crate::text::chars_of(expected.as_str());
    if v.len() != 64 {
        return Err(invalid);
    }
    if !all_ascii_hex(&v) {
        return Err(invalid);
    }
    let actual = sha256_hex(archive);
    if !str_eq(expected.as_str(), actual.as_str()) {
        return Err(SelfUpdateFailed::new(concat(&concat("Checksum verification failed for ", asset), ".")));
    }
    Ok(())
}

pub open spec fn unsupported_extension_message(extension: Seq<char>) -> Seq<char> {
    "Unsupported release archive extension: "@ + extension
}

/// Takes the binary out of a release archive by its extension: `tar.gz` or `zip`.
pub fn extract_binary(archive: &[u8], target: &ReleaseTarget) -> (r: Result<Vec<u8>, SelfUpdateFailed>)
    ensures
        target.extension@ == "tar.gz"@ ==> failure_view(r) == tar_gz_extraction(archive@, target.binary_name@),
        target.extension@ == "zip"@ ==> failure_view(r) == zip_extraction(archive@, target.binary_name@),
        target.extension@ != "tar.gz"@ && target.extension@ != "zip"@
            ==> (r matches Err(e) && e.message@ == unsupported_extension_message(target.extension@)),
{
    proof {
        reveal_strlit("tar.gz");
        reveal_strlit("zip");
        assert("tar.gz"@.len() != "zip"@.len());
    }
    if str_eq(target.extension, "tar.gz") {
        extract_from_tar_gz(archive, target.binary_name)
    } else if str_eq(target.extension, "zip") {
        extract_from_zip(archive, target.binary_name)
    } else {
        Err(SelfUpdateFailed::new(concat("Unsupported release archive extension: ", target.extension)))
    }
}

/// The release asset of a tag for a target, its URL, and the URL of its checksum.
#[derive(Debug)]
pub struct ReleaseAssets {
    pub asset: String,
    pub asset_url: String,
    pub checksum_url: String,
}

pub open spec fn asset_name(tag: Seq<char>, t: (Seq<char>, Seq<char>, Seq<char>)) -> Seq<char> {
    "ktesio-"@ + tag + "-"@ + t.0 + "."@ + t.1
}

pub open spec fn asset_url(tag: Seq<char>, t: (Seq<char>, Seq<char>, Seq<char>)) -> Seq<char> {
    RELEASE_BASE_URL@ + "/"@ + tag + "/"@ + asset_name(tag, t)
}

pub fn release_assets(tag: &str, target: &ReleaseTarget) -> (r: ReleaseAssets)
    ensures
        r.asset@ == asset_name(tag@, target.view()),
        r.asset_url@ == asset_url(tag@, target.view()),
        r.checksum_url@ == asset_url(tag@, target.view()) + ".sha256"@,
{
    let asset = concat(
        &concat(&concat(&concat(&concat("ktesio-", tag), "-"), target.triple), "."),
        target.extension,
    );
    let asset_url = concat(&concat(&concat(&concat(RELEASE_BASE_URL, "/"), tag), "/"), asset.as_str());
    let checksum_url = concat(asset_url.as_str(), ".sha256");
    ReleaseAssets { asset, asset_url, checksum_url }
}

/// What a manual update does once the latest tag is known: nothing when it is not newer,
/// an error when no build is published for the platform, else the build to fetch.
pub fn plan_manual_update(current_version: &str, latest_tag: &str, platform: &Platform)
    -> (r: Result<Option<(ReleaseTarget, ReleaseAssets)>, SelfUpdateFailed>)
    ensures
        !is_newer_spec(current_version@, latest_tag@) ==> (r matches Ok(p) && p is None),
        is_newer_spec(current_version@, latest_tag@) ==> match r {
            Ok(None) => false,
            Ok(Some(p)) => release_target_spec(platform.os@, platform.arch@) == Some(p.0.view())
                && p.1.asset_url@ == asset_url(latest_tag@, p.0.view())
                && p.1.checksum_url@ == asset_url(latest_tag@, p.0.view()) + ".sha256"@
                && p.1.asset@ == asset_name(latest_tag@, p.0.view()),
            Err(e) => release_target_spec(platform.os@, platform.arch@) is None
                && e.message@ == unsupported_platform_message(platform.os@, platform.arch@),
        },
{
    if !is_newer_version(current_version, latest_tag) {
        return Ok(None);
    }
    match release_target(platform) {
        Err(e) => Err(e),
        Ok(target) => {
            let assets = release_assets(latest_tag, &target);
            Ok(Some((target, assets)))
        },
    }
}

/// What extracting the binary of the release build `target` from `archive` gives.
pub open spec fn release_extraction(target: (Seq<char>, Seq<char>, Seq<char>), archive: Seq<u8>) -> Result<Seq<u8>, Seq<char>> {
    if target.1 == "tar.gz"@ {
        tar_gz_extraction(archive, target.2)
    } else if target.1 == "zip"@ {
        zip_extraction(archive, target.2)
    } else {
        Err(unsupported_extension_message(target.1))
    }
}

/// A manual update to `tag` may replace the binary: the tag is newer than the running
/// version, a build is published for the platform, the downloaded checksum file names the
/// SHA-256 of the downloaded archive, and the binary comes out of that archive.
pub open spec fn manual_update_allowed(current: Seq<char>, os: Seq<char>, arch: Seq<char>, tag: Seq<char>,
    archive: Seq<u8>, checksum: Seq<u8>) -> bool {
    &&& is_newer_spec(current, tag)
    &&& release_target_spec(os, arch) is Some
    &&& expected_checksum(checksum) == Some(hex_of(sha256(archive)))
    &&& release_extraction(release_target_spec(os, arch).unwrap(), archive) is Ok
}

/// Updates a manually installed binary from the latest release.
pub fn update_manual_binary<C: ReleaseClient, B: BinaryInstaller, U: UpdateReporter>(
    current_exe: &str,
    current_version: &str,
    platform: &Platform,
    release_client: &C,
    installer: &B,
    reporter: &U,
) -> (r: Result<SelfUpdateOutcome, SelfUpdateFailed>)
    ensures
        r matches Ok(o) ==> (o == SelfUpdateOutcome::AlreadyCurrent || o == SelfUpdateOutcome::Updated(InstallChannel::Manual)),
        r matches Ok(SelfUpdateOutcome::Updated(_)) ==> exists|tag: Seq<char>, archive: Seq<u8>, checksum: Seq<u8>|
            #[trigger] manual_update_allowed(current_version@, platform.os@, platform.arch@, tag, archive, checksum),
{
    let latest_tag = match release_client.latest_release_tag() {
        Ok(t) => t,
        Err(e) => {
            return Err(SelfUpdateFailed::new(e));
        },
    };
    let plan = match plan_manual_update(current_version, latest_tag.as_str(), platform) {
        Err(e) => {
            return Err(e);
        },
        Ok(None) => {
            let shown = display_version(latest_tag.as_str());
            reporter.success(concat(&concat("Ktesio is already up to date (", shown.as_str()), ").").as_str());
            return Ok(SelfUpdateOutcome::AlreadyCurrent);
        },
        Ok(Some(p)) => p,
    };
    let (target, assets) = plan;
    reporter.info(concat(
        &concat(&concat(&concat("Downloading Ktesio ", latest_tag.as_str()), " for "), target.triple),
        ".",
    ).as_str());
    let archive = match release_client.download(assets.asset_url.as_str()) {
        Ok(b) => b,
        Err(e) => {
            return Err(SelfUpdateFailed::new(e));
        },
    };
    let checksum = match release_client.download(assets.checksum_url.as_str()) {
        Ok(b) => b,
        Err(e) => {
            return Err(SelfUpdateFailed::new(e));
        },
    };
    match verify_checksum(archive.as_slice(), checksum.as_slice(), assets.asset.as_str()) {
        Err(e) => {
            return Err(e);
        },
        Ok(()) => {},
    }
    let binary = match extract_binary(archive.as_slice(), &target) {
        Ok(b) => b,
        Err(e) => {
            return Err(e);
        },
    };
    proof {
        reveal_strlit("tar.gz");
        reveal_strlit("zip");
        assert(manual_update_allowed(current_version@, platform.os@, platform.arch@, latest_tag@, archive@, checksum@));
    }
    match installer.replace_current_exe(current_exe, binary.as_slice()) {
        Err(e) => {
            return Err(SelfUpdateFailed::new(e));
        },
        Ok(()) => {},
    }
    let shown = display_version(latest_tag.as_str());
    reporter.success(concat(&concat("Updated Ktesio to ", shown.as_str()), ".").as_str());
    Ok(SelfUpdateOutcome::Updated(InstallChannel::Manual))
}

/// The command that updates a Homebrew or a Cargo install, as its program and arguments:
/// `brew upgrade imagdy/tap/ktesio` and `cargo install ktesio --force`; none for a manual
/// install.
pub open spec fn update_command_spec(channel: InstallChannel) -> Option<(Seq<char>, Seq<Seq<char>>)> {
    match channel {
        InstallChannel::Homebrew => Some(("brew"@, seq!["upgrade"@, TAP@])),
        InstallChannel::Cargo => Some(("cargo"@, seq!["install"@, CRATE@, "--force"@])),
        InstallChannel::Manual => None,
    }
}

pub fn update_command(channel: InstallChannel) -> (r: Option<(&'static str, Vec<&'static str>)>)
    ensures
        match r {
            Some(c) => update_command_spec(channel) == Some((c.0@, c.1@.map_values(|s: &str| s@))),
            None => update_command_spec(channel) is None,
        },
{
    match channel {
        InstallChannel::Homebrew => {
            let mut args: Vec<&'static str> = Vec::new();
            args.push("upgrade");
            args.push(TAP);
            assert(args@.map_values(|s: &str| s@) =~= seq!["upgrade"@, TAP@]);
            Some(("brew", args))
        },
        InstallChannel::Cargo => {
            let mut args: Vec<&'static str> = Vec::new();
            args.push("install");
            args.push(CRATE);
            args.push("--force");
            assert(args@.map_values(|s: &str| s@) =~= seq!["install"@, CRATE@, "--force"@]);
            Some(("cargo", args))
        },
        InstallChannel::Manual => None,
    }
}

/// What an update by command gives once the command has run (`ran`): the channel updated,
/// or the command's failure.
pub fn command_update_outcome(channel: InstallChannel, ran: Result<(), String>) -> (r: Result<SelfUpdateOutcome, SelfUpdateFailed>)
    ensures
        match ran {
            Ok(()) => r == Ok::<SelfUpdateOutcome, SelfUpdateFailed>(SelfUpdateOutcome::Updated(channel)),
            Err(m) => r matches Err(e) && e.message@ == m@,
        },
{
    match ran {
        Ok(()) => Ok(SelfUpdateOutcome::Updated(channel)),
        Err(m) => Err(SelfUpdateFailed::new(m)),
    }
}

/// Updates through the install channel: `brew upgrade` for Homebrew, `cargo install --force`
/// for Cargo (the commands come from `update_command`, the outcome from
/// `command_update_outcome`), the release download for a manual install.
pub fn run_with_channel<R: CommandRunner, C: ReleaseClient, B: BinaryInstaller, U: UpdateReporter>(
    channel: InstallChannel,
    current_exe: &str,
    current_version: &str,
    platform: &Platform,
    runner: &R,
    release_client: &C,
    installer: &B,
    reporter: &U,
) -> (r: Result<SelfUpdateOutcome, SelfUpdateFailed>)
    ensures
        r matches Ok(o) ==> match channel {
            InstallChannel::Homebrew => o == SelfUpdateOutcome::Updated(InstallChannel::Homebrew),
            InstallChannel::Cargo => o == SelfUpdateOutcome::Updated(InstallChannel::Cargo),
            InstallChannel::Manual => o == SelfUpdateOutcome::AlreadyCurrent
                || o == SelfUpdateOutcome::Updated(InstallChannel::Manual),
        },
        channel == InstallChannel::Manual && (r matches Ok(SelfUpdateOutcome::Updated(_)))
            ==> exists|tag: Seq<char>, archive: Seq<u8>, checksum: Seq<u8>|
                #[trigger] manual_update_allowed(current_version@, platform.os@, platform.arch@, tag, archive, checksum),
{
    match update_command(channel) {
        Some((program, args)) => {
            let outcome = command_update_outcome(channel, runner.run_command(program, args.as_slice()));
            if outcome.is_ok() {
                match channel {
                    InstallChannel::Homebrew => reporter.success("Updated Ktesio with Homebrew."),
                    _ => reporter.success("Updated Ktesio with Cargo."),
                }
            }
            outcome
        },
        None => update_manual_binary(
            current_exe,
            current_version,
            platform,
            release_client,
            installer,
            reporter,
        ),
    }
}

} // verus!

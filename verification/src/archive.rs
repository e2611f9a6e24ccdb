//! Taking the `kt` binary out of a release archive (`.tar.gz` or `.zip`): the entries are
//! walked in order and the first whose file name is the binary's is read.

use vstd::prelude::*;
use crate::error::SelfUpdateFailed;
use crate::install_channel::{path_components, path_components_of};
use crate::text::{concat, str_eq};

verus! {

/// An entry of an archive as the walk meets it: its path (decoded lossily), or why it could
/// not be read.
#[derive(Debug, Clone)]
pub enum ArchiveItem {
    Entry(String),
    EntryFailed(String),
    PathFailed(String),
}

/// What walking the entries of `.tar.gz` bytes gives (`tar::Archive::entries` over
/// `flate2::read::GzDecoder`, each entry taken by `Entry::path`): the entries in order, the
/// walk ending after the first entry that fails; or why the walk could not start.
pub uninterp spec fn tar_gz_walk(archive: Seq<u8>) -> Result<Seq<ArchiveItem>, Seq<char>>;

/// The body of the `.tar.gz` entry at `index` (`Read::read_to_end`), or why it could not be
/// read; `None` when the walk has no such entry.
pub uninterp spec fn tar_gz_body(archive: Seq<u8>, index: usize) -> Option<Result<Seq<u8>, Seq<char>>>;

/// What walking the entries of `.zip` bytes gives (`zip::ZipArchive::new`, then
/// `ZipArchive::by_index` and `ZipFile::name` for each index): the entries in order, or why
/// the archive could not be opened.
pub uninterp spec fn zip_walk(archive: Seq<u8>) -> Result<Seq<ArchiveItem>, Seq<char>>;

/// The body of the `.zip` entry at `index` (`Read::read_to_end`), or why it could not be
/// read.
pub uninterp spec fn zip_body(archive: Seq<u8>, index: usize) -> Result<Seq<u8>, Seq<char>>;

pub open spec fn walk_view(r: Result<Vec<ArchiveItem>, String>) -> Result<Seq<ArchiveItem>, Seq<char>> {
    match r {
        Ok(v) => Ok(v@),
        Err(e) => Err(e@),
    }
}

pub open spec fn bytes_view(r: Result<Vec<u8>, String>) -> Result<Seq<u8>, Seq<char>> {
    match r {
        Ok(v) => Ok(v@),
        Err(e) => Err(e@),
    }
}

pub open spec fn body_view(r: Option<Result<Vec<u8>, String>>) -> Option<Result<Seq<u8>, Seq<char>>> {
    match r {
        Some(b) => Some(bytes_view(b)),
        None => None,
    }
}

/// Walks the entries of a `.tar.gz` archive (`flate2` and `tar`).
#[verifier::external_body]
fn walk_tar_gz(archive: &[u8]) -> (r: Result<Vec<ArchiveItem>, String>)
    ensures
        walk_view(r) == tar_gz_walk(archive@),
{
    let mut tar = tar::Archive::new(flate2::read::GzDecoder::new(archive));
    let entries = tar.entries().map_err(|e| e.to_string())?;
    let mut items = Vec::new();
    for entry in entries {
        items.push(match entry {
            Err(e) => ArchiveItem::EntryFailed(e.to_string()),
            Ok(entry) => match entry.path() {
                Err(e) => ArchiveItem::PathFailed(e.to_string()),
                Ok(path) => ArchiveItem::Entry(path.to_string_lossy().into_owned()),
            },
        });
    }
    Ok(items)
}

/// Reads the body of the `.tar.gz` entry at `index` (`flate2` and `tar`).
#[verifier::external_body]
fn read_tar_gz_entry(archive: &[u8], index: usize) -> (r: Option<Result<Vec<u8>, String>>)
    ensures
        body_view(r) == tar_gz_body(archive@, index),
{
    let mut tar = tar::Archive::new(flate2::read::GzDecoder::new(archive));
    let mut entries = tar.entries().ok()?;
    let mut entry = match entries.nth(index)? {
        Ok(entry) => entry,
        Err(e) => return Some(Err(e.to_string())),
    };
    let mut body = Vec::new();
    Some(std::io::Read::read_to_end(&mut entry, &mut body).map(|_| body).map_err(|e| e.to_string()))
}

/// Walks the entries of a `.zip` archive (`zip`).
#[verifier::external_body]
fn walk_zip(archive: &[u8]) -> (r: Result<Vec<ArchiveItem>, String>)
    ensures
        walk_view(r) == zip_walk(archive@),
{
    let mut zip = zip::ZipArchive::new(std::io::Cursor::new(archive)).map_err(|e| e.to_string())?;
    let mut items = Vec::new();
    for index in 0..zip.len() {
        items.push(match zip.by_index(index) {
            Err(e) => ArchiveItem::EntryFailed(e.to_string()),
            Ok(file) => ArchiveItem::Entry(file.name().to_string()),
        });
    }
    Ok(items)
}

/// Reads the body of the `.zip` entry at `index` (`zip`).
#[verifier::external_body]
fn read_zip_entry(archive: &[u8], index: usize) -> (r: Result<Vec<u8>, String>)
    ensures
        bytes_view(r) == zip_body(archive@, index),
{
    let mut zip = zip::ZipArchive::new(std::io::Cursor::new(archive)).map_err(|e| e.to_string())?;
    let mut file = zip.by_index(index).map_err(|e| e.to_string())?;
    let mut body = Vec::new();
    std::io::Read::read_to_end(&mut file, &mut body).map_err(|e| e.to_string())?;
    Ok(body)
}

/// The last component of a path as `Path::file_name` gives it on Unix: none when the path
/// is empty, a root, `.`, or ends in `..`.
pub open spec fn file_name_spec(p: Seq<char>) -> Option<Seq<char>> {
    let cs = path_components(p);
    if cs.len() == 0 || cs.last() == "/"@ || cs.last() == "."@ || cs.last() == ".."@ {
        None
    } else {
        Some(cs.last())
    }
}

pub fn file_name(p: &str) -> (r: Option<String>)
    ensures
        match r {
            Some(s) => file_name_spec(p@) == Some(s@),
            None => file_name_spec(p@) is None,
        },
{
    let cs = path_components_of(p);
    proof {
        assert(cs@.len() == path_components(p@).len());
        if cs@.len() > 0 {
            assert(cs@.last()@ == path_components(p@).last());
        }
    }
    if cs.len() == 0 {
        return None;
    }
    let last = &cs[cs.len() - 1];
    proof {
        reveal_strlit("/");
        reveal_strlit(".");
        reveal_strlit("..");
    }
    if str_eq(last.as_str(), "/") || str_eq(last.as_str(), ".") || str_eq(last.as_str(), "..") {
        None
    } else {
        Some(last.clone())
    }
}

/// Whether the walk stops at this entry: an entry that fails, or the binary.
pub open spec fn stops_at(item: ArchiveItem, name: Seq<char>) -> bool {
    match item {
        ArchiveItem::Entry(p) => file_name_spec(p@) == Some(name),
        _ => true,
    }
}

/// From `k` on, the first entry the walk stops at; the number of entries when there is none.
pub open spec fn first_stop(items: Seq<ArchiveItem>, name: Seq<char>, k: int) -> int
    decreases items.len() - k,
{
    if k < 0 || k >= items.len() {
        items.len() as int
    } else if stops_at(items[k], name) {
        k
    } else {
        first_stop(items, name, k + 1)
    }
}

pub open spec fn read_failed_message(e: Seq<char>) -> Seq<char> {
    "Could not read release archive: "@ + e
}

pub open spec fn entry_failed_message(e: Seq<char>) -> Seq<char> {
    "Could not read release archive entry: "@ + e
}

pub open spec fn path_failed_message(e: Seq<char>) -> Seq<char> {
    "Could not read release archive entry path: "@ + e
}

pub open spec fn extract_failed_message(name: Seq<char>, e: Seq<char>) -> Seq<char> {
    "Could not extract "@ + name + " from release archive: "@ + e
}

pub open spec fn missing_binary_message(name: Seq<char>) -> Seq<char> {
    "Release archive did not contain "@ + name + "."@
}

/// How the walk over `items` ends for the binary `name`: `Ok` with the position of the
/// binary, or the message it fails with.
pub open spec fn walk_outcome(items: Seq<ArchiveItem>, name: Seq<char>) -> Result<int, Seq<char>> {
    let k = first_stop(items, name, 0);
    if k >= items.len() {
        Err(missing_binary_message(name))
    } else {
        match items[k] {
            ArchiveItem::EntryFailed(e) => Err(entry_failed_message(e@)),
            ArchiveItem::PathFailed(e) => Err(path_failed_message(e@)),
            ArchiveItem::Entry(_) => Ok(k),
        }
    }
}

/// Finds the binary among the walked entries: its position, or the failure the walk stops at.
pub fn find_binary(items: &Vec<ArchiveItem>, binary_name: &str) -> (r: Result<usize, SelfUpdateFailed>)
    ensures
        match r {
            Ok(k) => walk_outcome(items@, binary_name@) == Ok::<int, Seq<char>>(k as int),
            Err(e) => walk_outcome(items@, binary_name@) == Err::<int, Seq<char>>(e.message@),
        },
{
    let mut k: usize = 0;
    while k < items.len()
        invariant
            k <= items@.len(),
            first_stop(items@, binary_name@, 0) == first_stop(items@, binary_name@, k as int),
        decreases items.len() - k,
    {
        match &items[k] {
            ArchiveItem::EntryFailed(e) => {
                return Err(SelfUpdateFailed::new(concat("Could not read release archive entry: ", e.as_str())));
            },
            ArchiveItem::PathFailed(e) => {
                return Err(SelfUpdateFailed::new(concat("Could not read release archive entry path: ", e.as_str())));
            },
            ArchiveItem::Entry(p) => {
                let matches = match file_name(p.as_str()) {
                    Some(n) => str_eq(n.as_str(), binary_name),
                    None => false,
                };
                if matches {
                    return Ok(k);
                }
            },
        }
        k += 1;
    }
    Err(SelfUpdateFailed::new(concat(&concat("Release archive did not contain ", binary_name), ".")))
}

pub open spec fn failure_view(r: Result<Vec<u8>, SelfUpdateFailed>) -> Result<Seq<u8>, Seq<char>> {
    match r {
        Ok(v) => Ok(v@),
        Err(e) => Err(e.message@),
    }
}

/// What taking `name` out of `.tar.gz` bytes gives: its body, or the failure message.
pub open spec fn tar_gz_extraction(archive: Seq<u8>, name: Seq<char>) -> Result<Seq<u8>, Seq<char>> {
    match tar_gz_walk(archive) {
        Err(e) => Err(read_failed_message(e)),
        Ok(items) => match walk_outcome(items, name) {
            Err(m) => Err(m),
            Ok(k) => match tar_gz_body(archive, k as usize) {
                None => Err(missing_binary_message(name)),
                Some(Ok(b)) => Ok(b),
                Some(Err(e)) => Err(extract_failed_message(name, e)),
            },
        },
    }
}

/// What taking `name` out of `.zip` bytes gives: its body, or the failure message.
pub open spec fn zip_extraction(archive: Seq<u8>, name: Seq<char>) -> Result<Seq<u8>, Seq<char>> {
    match zip_walk(archive) {
        Err(e) => Err(read_failed_message(e)),
        Ok(items) => match walk_outcome(items, name) {
            Err(m) => Err(m),
            Ok(k) => match zip_body(archive, k as usize) {
                Ok(b) => Ok(b),
                Err(e) => Err(extract_failed_message(name, e)),
            },
        },
    }
}

/// Takes the binary `binary_name` out of a `.tar.gz` release archive.
pub fn extract_from_tar_gz(archive: &[u8], binary_name: &str) -> (r: Result<Vec<u8>, SelfUpdateFailed>)
    ensures
        failure_view(r) == tar_gz_extraction(archive@, binary_name@),
{
    let items = match walk_tar_gz(archive) {
        Ok(items) => items,
        Err(e) => {
            return Err(SelfUpdateFailed::new(concat("Could not read release archive: ", e.as_str())));
        },
    };
    let k = match find_binary(&items, binary_name) {
        Ok(k) => k,
        Err(e) => {
            return Err(e);
        },
    };
    match read_tar_gz_entry(archive, k) {
        None => Err(SelfUpdateFailed::new(concat(&concat("Release archive did not contain ", binary_name), "."))),
        Some(Ok(body)) => Ok(body),
        Some(Err(e)) => Err(SelfUpdateFailed::new(concat(
            &concat(&concat("Could not extract ", binary_name), " from release archive: "),
            e.as_str(),
        ))),
    }
}

/// Takes the binary `binary_name` out of a `.zip` release archive.
pub fn extract_from_zip(archive: &[u8], binary_name: &str) -> (r: Result<Vec<u8>, SelfUpdateFailed>)
    ensures
        failure_view(r) == zip_extraction(archive@, binary_name@),
{
    let items = match walk_zip(archive) {
        Ok(items) => items,
        Err(e) => {
            return Err(SelfUpdateFailed::new(concat("Could not read release archive: ", e.as_str())));
        },
    };
    let k = match find_binary(&items, binary_name) {
        Ok(k) => k,
        Err(e) => {
            return Err(e);
        },
    };
    match read_zip_entry(archive, k) {
        Ok(body) => Ok(body),
        Err(e) => Err(SelfUpdateFailed::new(concat(
            &concat(&concat("Could not extract ", binary_name), " from release archive: "),
            e.as_str(),
        ))),
    }
}

} // verus!

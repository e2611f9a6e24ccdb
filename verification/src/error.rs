//! Error types; each carries the message shown to the user.

use vstd::prelude::*;

verus! {

/// The directory given to `init` does not exist.
#[derive(Debug)]
pub struct InitPathNotFound {
    pub message: String,
}

impl InitPathNotFound {
    /// An error with the given message.
    pub fn new(message: String) -> (e: Self)
        ensures e.message == message,
    {
        InitPathNotFound { message }
    }

    /// The message.
    pub fn to_string(&self) -> (r: String)
        ensures r@ == self.message@,
    {
        self.message.clone()
    }
}

/// `skills.json` is missing or cannot be decoded.
#[derive(Debug)]
pub struct ManifestNotFound {
    pub message: String,
}

impl ManifestNotFound {
    /// An error with the given message.
    pub fn new(message: String) -> (e: Self)
        ensures e.message == message,
    {
        ManifestNotFound { message }
    }

    /// The message.
    pub fn to_string(&self) -> (r: String)
        ensures r@ == self.message@,
    {
        self.message.clone()
    }
}

/// A skill name is declared twice.
#[derive(Debug)]
pub struct ManifestDuplicateName {
    pub message: String,
}

impl ManifestDuplicateName {
    /// An error with the given message.
    pub fn new(message: String) -> (e: Self)
        ensures e.message == message,
    {
        ManifestDuplicateName { message }
    }

    /// The message.
    pub fn to_string(&self) -> (r: String)
        ensures r@ == self.message@,
    {
        self.message.clone()
    }
}

/// `skills.json` breaks a manifest rule.
#[derive(Debug)]
pub struct ManifestInvalidName {
    pub message: String,
}

impl ManifestInvalidName {
    /// An error with the given message.
    pub fn new(message: String) -> (e: Self)
        ensures e.message == message,
    {
        ManifestInvalidName { message }
    }

    /// The message.
    pub fn to_string(&self) -> (r: String)
        ensures r@ == self.message@,
    {
        self.message.clone()
    }
}

/// `skills.lock` cannot be read.
#[derive(Debug)]
pub struct LockfileNotFound {
    pub message: String,
}

impl LockfileNotFound {
    /// An error with the given message.
    pub fn new(message: String) -> (e: Self)
        ensures e.message == message,
    {
        LockfileNotFound { message }
    }

    /// The message.
    pub fn to_string(&self) -> (r: String)
        ensures r@ == self.message@,
    {
        self.message.clone()
    }
}

/// `skills.lock` cannot be decoded or holds a bad commit.
#[derive(Debug)]
pub struct LockfileInvalid {
    pub message: String,
}

impl LockfileInvalid {
    /// An error with the given message.
    pub fn new(message: String) -> (e: Self)
        ensures e.message == message,
    {
        LockfileInvalid { message }
    }

    /// The message.
    pub fn to_string(&self) -> (r: String)
        ensures r@ == self.message@,
    {
        self.message.clone()
    }
}

/// `git clone` failed.
#[derive(Debug)]
pub struct GitCloneFailed {
    pub message: String,
}

impl GitCloneFailed {
    /// An error with the given message.
    pub fn new(message: String) -> (e: Self)
        ensures e.message == message,
    {
        GitCloneFailed { message }
    }

    /// The message.
    pub fn to_string(&self) -> (r: String)
        ensures r@ == self.message@,
    {
        self.message.clone()
    }
}

/// `git fetch` failed.
#[derive(Debug)]
pub struct GitFetchFailed {
    pub message: String,
}

impl GitFetchFailed {
    /// An error with the given message.
    pub fn new(message: String) -> (e: Self)
        ensures e.message == message,
    {
        GitFetchFailed { message }
    }

    /// The message.
    pub fn to_string(&self) -> (r: String)
        ensures r@ == self.message@,
    {
        self.message.clone()
    }
}

/// `git checkout` failed.
#[derive(Debug)]
pub struct GitCheckoutFailed {
    pub message: String,
}

impl GitCheckoutFailed {
    /// An error with the given message.
    pub fn new(message: String) -> (e: Self)
        ensures e.message == message,
    {
        GitCheckoutFailed { message }
    }

    /// The message.
    pub fn to_string(&self) -> (r: String)
        ensures r@ == self.message@,
    {
        self.message.clone()
    }
}

/// `git rev-parse` failed.
#[derive(Debug)]
pub struct GitRevParseFailed {
    pub message: String,
}

impl GitRevParseFailed {
    /// An error with the given message.
    pub fn new(message: String) -> (e: Self)
        ensures e.message == message,
    {
        GitRevParseFailed { message }
    }

    /// The message.
    pub fn to_string(&self) -> (r: String)
        ensures r@ == self.message@,
    {
        self.message.clone()
    }
}

/// Copying skill files failed, or the source offers nothing to copy.
#[derive(Debug)]
pub struct SkillCopyFailed {
    pub message: String,
}

impl SkillCopyFailed {
    /// An error with the given message.
    pub fn new(message: String) -> (e: Self)
        ensures e.message == message,
    {
        SkillCopyFailed { message }
    }

    /// The message.
    pub fn to_string(&self) -> (r: String)
        ensures r@ == self.message@,
    {
        self.message.clone()
    }
}

/// The named skill is not known to the project.
#[derive(Debug)]
pub struct SkillNotFound {
    pub message: String,
}

impl SkillNotFound {
    /// An error with the given message.
    pub fn new(message: String) -> (e: Self)
        ensures e.message == message,
    {
        SkillNotFound { message }
    }

    /// The message.
    pub fn to_string(&self) -> (r: String)
        ensures r@ == self.message@,
    {
        self.message.clone()
    }
}

/// An install target is malformed.
#[derive(Debug)]
pub struct InstallInvalidFormat {
    pub message: String,
}

impl InstallInvalidFormat {
    /// An error with the given message.
    pub fn new(message: String) -> (e: Self)
        ensures e.message == message,
    {
        InstallInvalidFormat { message }
    }

    /// The message.
    pub fn to_string(&self) -> (r: String)
        ensures r@ == self.message@,
    {
        self.message.clone()
    }
}

/// The skill is already declared.
#[derive(Debug)]
pub struct InstallAlreadyExists {
    pub message: String,
}

impl InstallAlreadyExists {
    /// An error with the given message.
    pub fn new(message: String) -> (e: Self)
        ensures e.message == message,
    {
        InstallAlreadyExists { message }
    }

    /// The message.
    pub fn to_string(&self) -> (r: String)
        ensures r@ == self.message@,
    {
        self.message.clone()
    }
}

/// Fallback discovery found no skill directory.
#[derive(Debug)]
pub struct DiscoveryError {
    pub message: String,
}

impl DiscoveryError {
    /// An error with the given message.
    pub fn new(message: String) -> (e: Self)
        ensures e.message == message,
    {
        DiscoveryError { message }
    }

    /// The message.
    pub fn to_string(&self) -> (r: String)
        ensures r@ == self.message@,
    {
        self.message.clone()
    }
}

/// The discovered skill directory is empty.
#[derive(Debug)]
pub struct SkillsDirectoryEmpty {
    pub message: String,
}

impl SkillsDirectoryEmpty {
    /// An error with the given message.
    pub fn new(message: String) -> (e: Self)
        ensures e.message == message,
    {
        SkillsDirectoryEmpty { message }
    }

    /// The message.
    pub fn to_string(&self) -> (r: String)
        ensures r@ == self.message@,
    {
        self.message.clone()
    }
}

/// The project failed its health check.
#[derive(Debug)]
pub struct DoctorUnhealthy {
    pub message: String,
}

impl DoctorUnhealthy {
    /// An error with the given message.
    pub fn new(message: String) -> (e: Self)
        ensures e.message == message,
    {
        DoctorUnhealthy { message }
    }

    /// The message.
    pub fn to_string(&self) -> (r: String)
        ensures r@ == self.message@,
    {
        self.message.clone()
    }
}

/// A skills.sh search failed.
#[derive(Debug)]
pub struct SearchFailed {
    pub message: String,
}

impl SearchFailed {
    /// An error with the given message.
    pub fn new(message: String) -> (e: Self)
        ensures e.message == message,
    {
        SearchFailed { message }
    }

    /// The message.
    pub fn to_string(&self) -> (r: String)
        ensures r@ == self.message@,
    {
        self.message.clone()
    }
}

/// Updating the `kt` executable failed.
#[derive(Debug)]
pub struct SelfUpdateFailed {
    pub message: String,
}

impl SelfUpdateFailed {
    /// An error with the given message.
    pub fn new(message: String) -> (e: Self)
        ensures e.message == message,
    {
        SelfUpdateFailed { message }
    }

    /// The message.
    pub fn to_string(&self) -> (r: String)
        ensures r@ == self.message@,
    {
        self.message.clone()
    }
}

} // verus!

//! The failures that the library reports.

use vstd::prelude::*;

verus! {

/// Every way an operation of this library can fail.
#[derive(Debug, PartialEq, Eq)]
pub enum GdvmError {
    /// No release or install matches the request.
    VersionNotFound,
    /// More than one install matches where exactly one is needed.
    MultipleVersionsFound,
    /// The release offers nothing for this operating system and variant.
    UnsupportedPlatform,
    /// The release offers nothing for this processor architecture.
    UnsupportedArch,
    /// The chosen binary lists no download address.
    MissingBinaryUrl,
    /// The digest of a download differs from the declared one.
    ChecksumMismatch,
    /// The declared hash is neither 64 nor 128 characters long.
    InvalidHashLength,
    /// A download answered with the given status, which is neither 200 nor 404.
    DownloadFailed(u16),
    /// A download answered 404.
    NotFound,
    /// The release host refuses further requests for now.
    RateLimited,
    /// The release host reported an error, with its message if it gave one.
    GithubApi(Option<String>),
    /// Creating the default link needs a privilege that the process lacks.
    SymlinkPrivilege,
    /// The project asks for another version than the pinned one (`pinned`)
    /// or than the one given on the command line.
    ProjectVersionMismatch { pinned: bool },
    /// No version was requested, pinned or detected, and no default is set.
    NoDefault,
    /// The text is not a version in the expected form.
    InvalidVersionString,
    /// The registry did not answer the request for its index with status 200.
    IndexFetchFailed,
    /// The registry did not answer the request for a release with status 200.
    ReleaseFetchFailed,
    /// The semantic-version requirement does not parse.
    InvalidRequirement,
    /// A published release carries no tag name.
    MissingTagName,
    /// No stable release satisfies the requirement.
    NoStableRelease,
    /// An archive member has no safe relative path.
    InvalidArchiveEntry,
    /// The install holds nothing that can be started.
    ExecutableNotFound,
    /// The engine could not be started, for the reason given.
    StartFailed(String),
    /// Something is in the place where a link is to be made.
    LinkExists,
    /// The C# install has no `GodotSharp` directory to link to.
    GodotSharpMissing,
    /// A step of a pipeline was reported out of its order.
    UnexpectedStep,
    /// Reading, writing or sending failed, for the reason given.
    Io(String),
    /// The configuration key is not a known one.
    UnknownConfigKey,
}

impl Clone for GdvmError {
    fn clone(&self) -> (r: Self)
        ensures
            r == *self,
    {
        match self {
            GdvmError::VersionNotFound => GdvmError::VersionNotFound,
            GdvmError::MultipleVersionsFound => GdvmError::MultipleVersionsFound,
            GdvmError::UnsupportedPlatform => GdvmError::UnsupportedPlatform,
            GdvmError::UnsupportedArch => GdvmError::UnsupportedArch,
            GdvmError::MissingBinaryUrl => GdvmError::MissingBinaryUrl,
            GdvmError::ChecksumMismatch => GdvmError::ChecksumMismatch,
            GdvmError::InvalidHashLength => GdvmError::InvalidHashLength,
            GdvmError::DownloadFailed(status) => GdvmError::DownloadFailed(*status),
            GdvmError::NotFound => GdvmError::NotFound,
            GdvmError::RateLimited => GdvmError::RateLimited,
            GdvmError::GithubApi(message) => GdvmError::GithubApi(
                match message {
                    Some(text) => Some(text.clone()),
                    None => None,
                },
            ),
            GdvmError::SymlinkPrivilege => GdvmError::SymlinkPrivilege,
            GdvmError::ProjectVersionMismatch { pinned } => GdvmError::ProjectVersionMismatch { pinned: *pinned },
            GdvmError::NoDefault => GdvmError::NoDefault,
            GdvmError::InvalidVersionString => GdvmError::InvalidVersionString,
            GdvmError::IndexFetchFailed => GdvmError::IndexFetchFailed,
            GdvmError::ReleaseFetchFailed => GdvmError::ReleaseFetchFailed,
            GdvmError::InvalidRequirement => GdvmError::InvalidRequirement,
            GdvmError::MissingTagName => GdvmError::MissingTagName,
            GdvmError::NoStableRelease => GdvmError::NoStableRelease,
            GdvmError::InvalidArchiveEntry => GdvmError::InvalidArchiveEntry,
            GdvmError::ExecutableNotFound => GdvmError::ExecutableNotFound,
            GdvmError::StartFailed(text) => GdvmError::StartFailed(text.clone()),
            GdvmError::LinkExists => GdvmError::LinkExists,
            GdvmError::GodotSharpMissing => GdvmError::GodotSharpMissing,
            GdvmError::UnexpectedStep => GdvmError::UnexpectedStep,
            GdvmError::Io(text) => GdvmError::Io(text.clone()),
            GdvmError::UnknownConfigKey => GdvmError::UnknownConfigKey,
        }
    }
}

/// The key of the message that tells the user about a failure.
pub open spec fn message_key_spec(error: GdvmError) -> Seq<char> {
    match error {
        GdvmError::VersionNotFound => "error-version-not-found"@,
        GdvmError::MultipleVersionsFound => "error-multiple-versions-found"@,
        GdvmError::UnsupportedPlatform => "unsupported-platform"@,
        GdvmError::UnsupportedArch => "unsupported-architecture"@,
        GdvmError::MissingBinaryUrl => "error-file-not-found"@,
        GdvmError::ChecksumMismatch => "error-checksum-mismatch"@,
        GdvmError::InvalidHashLength => "error-invalid-sha-length"@,
        GdvmError::DownloadFailed(_) => "error-download-failed"@,
        GdvmError::NotFound => "error-file-not-found"@,
        GdvmError::RateLimited => "error-github-rate-limit"@,
        GdvmError::GithubApi(_) => "error-github-api"@,
        GdvmError::SymlinkPrivilege => "error-create-symlink-windows"@,
        GdvmError::ProjectVersionMismatch { .. } => "error-project-version-mismatch"@,
        GdvmError::NoDefault => "no-default-set"@,
        GdvmError::InvalidVersionString => "error-invalid-godot-version"@,
        GdvmError::IndexFetchFailed => "error-fetching-releases"@,
        GdvmError::ReleaseFetchFailed => "error-fetching-release"@,
        GdvmError::InvalidRequirement => "error-invalid-requirement"@,
        GdvmError::MissingTagName => "error-release-missing-tag"@,
        GdvmError::NoStableRelease => "error-no-stable-releases-found"@,
        GdvmError::InvalidArchiveEntry => "error-invalid-file-name"@,
        GdvmError::ExecutableNotFound => "godot-executable-not-found"@,
        GdvmError::StartFailed(_) => "error-starting-godot"@,
        GdvmError::LinkExists => "error-link-exists"@,
        GdvmError::GodotSharpMissing => "error-link-godotsharp-missing"@,
        GdvmError::UnexpectedStep => "error-unexpected-step"@,
        GdvmError::Io(_) => "error-io"@,
        GdvmError::UnknownConfigKey => "error-unknown-config-key"@,
    }
}

impl GdvmError {
    /// The key under which the message for this failure is looked up.
    pub fn message_key(&self) -> (r: &'static str)
        ensures
            r@ == message_key_spec(*self),
    {
        match self {
            GdvmError::VersionNotFound => "error-version-not-found",
            GdvmError::MultipleVersionsFound => "error-multiple-versions-found",
            GdvmError::UnsupportedPlatform => "unsupported-platform",
            GdvmError::UnsupportedArch => "unsupported-architecture",
            GdvmError::MissingBinaryUrl => "error-file-not-found",
            GdvmError::ChecksumMismatch => "error-checksum-mismatch",
            GdvmError::InvalidHashLength => "error-invalid-sha-length",
            GdvmError::DownloadFailed(_) => "error-download-failed",
            GdvmError::NotFound => "error-file-not-found",
            GdvmError::RateLimited => "error-github-rate-limit",
            GdvmError::GithubApi(_) => "error-github-api",
            GdvmError::SymlinkPrivilege => "error-create-symlink-windows",
            GdvmError::ProjectVersionMismatch { .. } => "error-project-version-mismatch",
            GdvmError::NoDefault => "no-default-set",
            GdvmError::InvalidVersionString => "error-invalid-godot-version",
            GdvmError::IndexFetchFailed => "error-fetching-releases",
            GdvmError::ReleaseFetchFailed => "error-fetching-release",
            GdvmError::InvalidRequirement => "error-invalid-requirement",
            GdvmError::MissingTagName => "error-release-missing-tag",
            GdvmError::NoStableRelease => "error-no-stable-releases-found",
            GdvmError::InvalidArchiveEntry => "error-invalid-file-name",
            GdvmError::ExecutableNotFound => "godot-executable-not-found",
            GdvmError::StartFailed(_) => "error-starting-godot",
            GdvmError::LinkExists => "error-link-exists",
            GdvmError::GodotSharpMissing => "error-link-godotsharp-missing",
            GdvmError::UnexpectedStep => "error-unexpected-step",
            GdvmError::Io(_) => "error-io",
            GdvmError::UnknownConfigKey => "error-unknown-config-key",
        }
    }
}

} // verus!

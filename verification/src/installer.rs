//! Installing one release: what is downloaded, when it may enter the
//! archive cache, and when it is unpacked.
//!
//! The pipeline is a machine. Whoever drives it performs each action that
//! the machine asks for and reports back what happened.

use vstd::prelude::*;
use vstd::slice::slice_subrange;
use crate::checksum::{has_declared_hash, sha_type_spec, verify_sha};
use crate::error::GdvmError;
use crate::host::HostPlatform;
use crate::registry::{
    select_binary, select_binary_spec, BinarySelectionError, ReleaseMetadata,
};
use crate::text::{chars_of, last_index_of, push_str, rfind_char, string_of};
use crate::version_utils::GodotVersionDeterminate;

verus! {

/// How an install ended.
#[derive(Debug, Clone, Copy, PartialEq, Eq, Structural)]
pub enum InstallOutcome {
    Installed,
    AlreadyInstalled,
}

/// The download chosen for an install.
#[derive(Debug)]
pub struct ArchiveChoice {
    /// Where to download from.
    pub url: String,
    /// The name of the archive in the cache.
    pub archive_name: String,
    /// The declared hash.
    pub sha: String,
}

/// Where an install stands.
#[derive(Debug)]
pub enum InstallState {
    /// The install directory is being looked at.
    Start,
    /// The old install is being removed.
    Removing,
    /// The record of the release is being fetched.
    AwaitingMetadata,
    /// The archive cache is being looked at.
    AwaitingCacheCheck(ArchiveChoice),
    /// The archive is being downloaded to a temporary file.
    AwaitingDownload(ArchiveChoice),
    /// The verified download is being moved into the cache.
    AwaitingPromotion(ArchiveChoice),
    /// The archive is being unpacked.
    AwaitingExtraction,
    /// The install has ended.
    Finished,
}

/// What happened to the action last asked for.
#[derive(Debug)]
pub enum InstallEvent {
    /// Whether the install directory exists.
    InstallDir { exists: bool },
    /// The old install is gone.
    Removed,
    /// The record of the release.
    Metadata(ReleaseMetadata),
    /// Whether the archive is in the cache.
    Archive { cached: bool },
    /// The bytes that were downloaded to the temporary file.
    Downloaded(Vec<u8>),
    /// The download is in the cache.
    Promoted,
    /// The archive is unpacked.
    Extracted,
    /// The action failed.
    Failed(GdvmError),
}

/// What the driver is to do next.
#[derive(Debug)]
pub enum InstallAction {
    /// Report whether the directory of this install exists.
    CheckInstallDir { install_name: String },
    /// Remove the directory of this install, and the default if it points
    /// there.
    RemoveInstall { install_name: String },
    /// Fetch the record of the release with this registry tag.
    FetchMetadata { tag: String },
    /// Report whether this archive is in the cache.
    CheckArchive { archive_name: String },
    /// Download from `url` to the temporary file beside the installs.
    Download { url: String, temporary_name: String },
    /// Move the temporary file into the cache under the archive's name.
    Promote { temporary_name: String, archive_name: String },
    /// Create the install directory and unpack the cached archive in it.
    Extract { archive_name: String, install_name: String },
    /// Nothing more: the install ended this way.
    Finish(InstallOutcome),
    /// Nothing more: the install failed. A temporary file named here is
    /// to be deleted.
    Fail { error: GdvmError, discard: Option<String> },
}

/// One install of one version.
#[derive(Debug)]
pub struct Installer {
    pub version: GodotVersionDeterminate,
    pub host: HostPlatform,
    /// Install again over an existing install.
    pub force: bool,
    /// Download again what is cached.
    pub redownload: bool,
    pub state: InstallState,
}

/// The last segment of an address: what follows its last `/`, or all of
/// it where it has none.
pub open spec fn last_segment(url: Seq<char>) -> Seq<char> {
    url.skip(last_index_of(url, '/') + 1)
}

/// The name of the temporary file that a download for the install
/// `install_name` goes to.
pub open spec fn temporary_name_spec(install_name: Seq<char>) -> Seq<char> {
    install_name + ".zip"@
}

/// The archive that `choice` describes is the one to download for the
/// binary at `(p, a)` of the release: the first of its addresses, named
/// by the last segment of that address, with the declared hash.
pub open spec fn is_choice_of(choice: ArchiveChoice, meta: ReleaseMetadata, p: int, a: int)
    -> bool {
    let info = meta.binaries@[p].arches@[a].info;
    &&& choice.url@ == info.urls@[0]@
    &&& choice.archive_name@ == last_segment(info.urls@[0]@)
    &&& choice.sha@ == info.sha512@
}

/// The name under which the contents of an address are cached: its last
/// segment.
pub fn archive_name_of(url: &str) -> (r: String)
    ensures
        r@ == last_segment(url@),
{
    let chars = chars_of(url);
    let s = chars.as_slice();
    let len = s.len();
    let from: usize = match rfind_char(s, '/') {
        Some(i) => i + 1,
        None => 0,
    };
    assert(s@.skip(from as int) == s@.subrange(from as int, s@.len() as int));
    string_of(slice_subrange(s, from, len))
}

/// Chooses the archive to download for a version on a host.
pub fn choose_archive(meta: &ReleaseMetadata, host: HostPlatform, is_csharp: bool) -> (r: Result<
    ArchiveChoice,
    GdvmError,
>)
    ensures
        match select_binary_spec(*meta, host, is_csharp) {
            Ok((p, a)) => r is Ok && is_choice_of(r->Ok_0, *meta, p, a),
            Err(BinarySelectionError::UnsupportedPlatform) => r is Err
                && r->Err_0 is UnsupportedPlatform,
            Err(BinarySelectionError::UnsupportedArch) => r is Err && r->Err_0 is UnsupportedArch,
            Err(BinarySelectionError::MissingUrl) => r is Err && r->Err_0 is MissingBinaryUrl,
        },
{
    match select_binary(meta, host, is_csharp) {
        Ok(binary) => {
            let url = binary.urls[0].clone();
            let archive_name = archive_name_of(url.as_str());
            Ok(ArchiveChoice { url, archive_name, sha: binary.sha512.clone() })
        },
        Err(BinarySelectionError::UnsupportedPlatform) => Err(GdvmError::UnsupportedPlatform),
        Err(BinarySelectionError::UnsupportedArch) => Err(GdvmError::UnsupportedArch),
        Err(BinarySelectionError::MissingUrl) => Err(GdvmError::MissingBinaryUrl),
    }
}

/// `action` and `after` are what the machine `before` answers the event
/// with. The version, host and flags of an install never change.
///
/// - An existing install ends the pipeline as already installed, unless
///   forced: then it is removed first.
/// - With the record of the release the archive is chosen; a release
///   without a binary for the host fails.
/// - A cached archive is reused unless a fresh download is asked for.
/// - A download enters the cache only if it has the declared hash;
///   otherwise the install fails, with a checksum mismatch or, where the
///   declared hash has no valid length, with that, and the temporary
///   file is discarded.
/// - Unpacking follows the cache, and ends the install as installed.
/// - A failed action fails the install; a failed download or promotion
///   discards the temporary file. An event that the state does not wait
///   for fails the install as out of order.
pub open spec fn is_step(before: Installer, event: InstallEvent, after: Installer, action:
    InstallAction) -> bool {
    let install_name = before.version@.install_text();
    let temporary = temporary_name_spec(install_name);
    &&& after.version == before.version
    &&& after.host == before.host
    &&& after.force == before.force
    &&& after.redownload == before.redownload
    &&& match (before.state, event) {
        (InstallState::Start, InstallEvent::InstallDir { exists }) => if exists && !before.force {
            after.state is Finished && action == InstallAction::Finish(
                InstallOutcome::AlreadyInstalled,
            )
        } else if exists {
            after.state is Removing && action is RemoveInstall && action->RemoveInstall_install_name@
                == install_name
        } else {
            after.state is AwaitingMetadata && action is FetchMetadata && action->tag@
                == before.version@.remote_text()
        },
        (InstallState::Removing, InstallEvent::Removed) => after.state is AwaitingMetadata
            && action is FetchMetadata && action->tag@ == before.version@.remote_text(),
        (InstallState::AwaitingMetadata, InstallEvent::Metadata(meta)) => match select_binary_spec(
            meta,
            before.host,
            before.version@.wants_csharp(),
        ) {
            Ok((p, a)) => after.state is AwaitingCacheCheck && is_choice_of(
                after.state->AwaitingCacheCheck_0,
                meta,
                p,
                a,
            ) && action is CheckArchive && action->CheckArchive_archive_name@
                == after.state->AwaitingCacheCheck_0.archive_name@,
            Err(e) => after.state is Finished && action is Fail && action->discard is None
                && match e {
                BinarySelectionError::UnsupportedPlatform => action->error is UnsupportedPlatform,
                BinarySelectionError::UnsupportedArch => action->error is UnsupportedArch,
                BinarySelectionError::MissingUrl => action->error is MissingBinaryUrl,
            },
        },
        (InstallState::AwaitingCacheCheck(choice), InstallEvent::Archive { cached }) => if cached
            && !before.redownload {
            after.state is AwaitingExtraction && action is Extract
                && action->Extract_archive_name@ == choice.archive_name@
                && action->Extract_install_name@ == install_name
        } else {
            after.state is AwaitingDownload && after.state->AwaitingDownload_0 == choice
                && action is Download && action->url@ == choice.url@
                && action->Download_temporary_name@ == temporary
        },
        (InstallState::AwaitingDownload(choice), InstallEvent::Downloaded(bytes)) => if has_declared_hash(
            bytes@,
            choice.sha@,
        ) {
            after.state is AwaitingPromotion && after.state->AwaitingPromotion_0 == choice
                && action is Promote && action->Promote_temporary_name@ == temporary
                && action->Promote_archive_name@ == choice.archive_name@
        } else {
            after.state is Finished && action is Fail && (if sha_type_spec(choice.sha@) is None {
                action->error is InvalidHashLength
            } else {
                action->error is ChecksumMismatch
            }) && action->discard is Some && action->discard->0@ == temporary
        },
        (InstallState::AwaitingPromotion(choice), InstallEvent::Promoted) => after.state is AwaitingExtraction
            && action is Extract && action->Extract_archive_name@ == choice.archive_name@
            && action->Extract_install_name@ == install_name,
        (InstallState::AwaitingExtraction, InstallEvent::Extracted) => after.state is Finished
            && action == InstallAction::Finish(InstallOutcome::Installed),
        (InstallState::Finished, _) => after.state is Finished && action is Fail
            && action->error is UnexpectedStep && action->discard is None,
        (state, InstallEvent::Failed(error)) => after.state is Finished && action is Fail
            && action->error == error && if state is AwaitingDownload || state is AwaitingPromotion {
            action->discard is Some && action->discard->0@ == temporary
        } else {
            action->discard is None
        },
        _ => after.state is Finished && action is Fail && action->error is UnexpectedStep
            && action->discard is None,
    }
}

impl Installer {
    /// An install of `version` on `host` that has not begun.
    pub fn new(version: GodotVersionDeterminate, host: HostPlatform, force: bool, redownload: bool)
        -> (r: Self)
        ensures
            r.version == version,
            r.host == host,
            r.force == force,
            r.redownload == redownload,
            r.state is Start,
    {
        Installer { version, host, force, redownload, state: InstallState::Start }
    }

    /// The first action: to look at the install directory.
    pub fn start(&self) -> (r: InstallAction)
        ensures
            r is CheckInstallDir,
            r->CheckInstallDir_install_name@ == self.version@.install_text(),
    {
        InstallAction::CheckInstallDir { install_name: self.version.to_install_str() }
    }

    /// The name of the temporary file of this install.
    pub fn temporary_name(&self) -> (r: String)
        ensures
            r@ == temporary_name_spec(self.version@.install_text()),
    {
        let mut out = chars_of(self.version.to_install_str().as_str());
        push_str(&mut out, ".zip");
        string_of(out.as_slice())
    }

    /// Whether the install has ended.
    pub fn is_finished(&self) -> (r: bool)
        ensures
            r == self.state is Finished,
    {
        match &self.state {
            InstallState::Finished => true,
            _ => false,
        }
    }

    /// The action that asks for the record of the release.
    fn fetch_metadata(&self) -> (r: InstallAction)
        ensures
            r is FetchMetadata,
            r->tag@ == self.version@.remote_text(),
    {
        InstallAction::FetchMetadata { tag: self.version.to_remote_str() }
    }

    /// The action that unpacks the archive of the given name.
    fn extract(&self, archive_name: &String) -> (r: InstallAction)
        ensures
            r is Extract,
            r->Extract_archive_name@ == archive_name@,
            r->Extract_install_name@ == self.version@.install_text(),
    {
        InstallAction::Extract {
            archive_name: archive_name.clone(),
            install_name: self.version.to_install_str(),
        }
    }

    /// Takes what happened to the last action and says what to do next.
    pub fn step(&mut self, event: InstallEvent) -> (r: InstallAction)
        ensures
            is_step(*old(self), event, *final(self), r),
    {
        let mut state = InstallState::Finished;
        core::mem::swap(&mut self.state, &mut state);
        match (state, event) {
            (InstallState::Finished, _) => InstallAction::Fail {
                error: GdvmError::UnexpectedStep,
                discard: None,
            },
            (InstallState::AwaitingDownload(_), InstallEvent::Failed(error)) => {
                InstallAction::Fail { error, discard: Some(self.temporary_name()) }
            },
            (InstallState::AwaitingPromotion(_), InstallEvent::Failed(error)) => {
                InstallAction::Fail { error, discard: Some(self.temporary_name()) }
            },
            (_, InstallEvent::Failed(error)) => InstallAction::Fail { error, discard: None },
            (InstallState::Start, InstallEvent::InstallDir { exists }) => {
                if exists && !self.force {
                    InstallAction::Finish(InstallOutcome::AlreadyInstalled)
                } else if exists {
                    self.state = InstallState::Removing;
                    InstallAction::RemoveInstall { install_name: self.version.to_install_str() }
                } else {
                    self.state = InstallState::AwaitingMetadata;
                    self.fetch_metadata()
                }
            },
            (InstallState::Removing, InstallEvent::Removed) => {
                self.state = InstallState::AwaitingMetadata;
                self.fetch_metadata()
            },
            (InstallState::AwaitingMetadata, InstallEvent::Metadata(meta)) => {
                let wants_csharp = match self.version.is_csharp {
                    Some(flag) => flag,
                    None => false,
                };
                match choose_archive(&meta, self.host, wants_csharp) {
                    Ok(choice) => {
                        let archive_name = choice.archive_name.clone();
                        self.state = InstallState::AwaitingCacheCheck(choice);
                        InstallAction::CheckArchive { archive_name }
                    },
                    Err(error) => InstallAction::Fail { error, discard: None },
                }
            },
            (InstallState::AwaitingCacheCheck(choice), InstallEvent::Archive { cached }) => {
                if cached && !self.redownload {
                    self.state = InstallState::AwaitingExtraction;
                    self.extract(&choice.archive_name)
                } else {
                    let url = choice.url.clone();
                    self.state = InstallState::AwaitingDownload(choice);
                    InstallAction::Download { url, temporary_name: self.temporary_name() }
                }
            },
            (InstallState::AwaitingDownload(choice), InstallEvent::Downloaded(bytes)) => {
                match verify_sha(bytes.as_slice(), choice.sha.as_str()) {
                    Ok(()) => {
                        let archive_name = choice.archive_name.clone();
                        self.state = InstallState::AwaitingPromotion(choice);
                        InstallAction::Promote {
                            temporary_name: self.temporary_name(),
                            archive_name,
                        }
                    },
                    Err(error) => InstallAction::Fail {
                        error,
                        discard: Some(self.temporary_name()),
                    },
                }
            },
            (InstallState::AwaitingPromotion(choice), InstallEvent::Promoted) => {
                self.state = InstallState::AwaitingExtraction;
                self.extract(&choice.archive_name)
            },
            (InstallState::AwaitingExtraction, InstallEvent::Extracted) => {
                InstallAction::Finish(InstallOutcome::Installed)
            },
            _ => InstallAction::Fail { error: GdvmError::UnexpectedStep, discard: None },
        }
    }
}

/// A download enters the archive cache only after it was checked: the
/// machine asks to promote the temporary file only in answer to the bytes
/// of a download that have the declared hash of the chosen archive.
pub proof fn lemma_promote_only_verified(
    before: Installer,
    event: InstallEvent,
    after: Installer,
    action: InstallAction,
)
    requires
        is_step(before, event, after, action),
        action is Promote,
    ensures
        before.state is AwaitingDownload,
        event is Downloaded,
        has_declared_hash(event->Downloaded_0@, before.state->AwaitingDownload_0.sha@),
{
}

/// A download without the declared hash fails the install: the machine
/// ends, asks for the temporary file to be discarded, and promotes
/// nothing.
pub proof fn lemma_mismatch_fails(
    before: Installer,
    event: InstallEvent,
    after: Installer,
    action: InstallAction,
)
    requires
        is_step(before, event, after, action),
        before.state is AwaitingDownload,
        event is Downloaded,
        !has_declared_hash(event->Downloaded_0@, before.state->AwaitingDownload_0.sha@),
    ensures
        after.state is Finished,
        action is Fail,
        action->discard is Some,
{
}

/// Unpacking comes only after the archive is known to be in the cache:
/// by the cache check, or by a promotion that succeeded.
pub proof fn lemma_extract_after_cache(
    before: Installer,
    event: InstallEvent,
    after: Installer,
    action: InstallAction,
)
    requires
        is_step(before, event, after, action),
        action is Extract,
    ensures
        (before.state is AwaitingCacheCheck && event == (InstallEvent::Archive { cached: true }))
            || (before.state is AwaitingPromotion && event is Promoted),
{
}

/// An existing install is removed only where the install is forced, and
/// an install that is not forced leaves an existing one as it is.
pub proof fn lemma_existing_install(
    before: Installer,
    event: InstallEvent,
    after: Installer,
    action: InstallAction,
)
    requires
        is_step(before, event, after, action),
    ensures
        action is RemoveInstall ==> before.force,
        before.state is Start && event == (InstallEvent::InstallDir { exists: true })
            && !before.force ==> action == InstallAction::Finish(InstallOutcome::AlreadyInstalled),
{
}

} // verus!

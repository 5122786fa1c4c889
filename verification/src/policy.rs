//! What the privileged helper demands of files and directories before it trusts them.

use vstd::prelude::*;
use vstd::utf8::{decode_utf8, valid_utf8};

use crate::paths::{directly_in, is_directly_in, is_same_path, last_name, path_names, same_path};
use crate::semver::{is_release_name, normalized_release_name, without_v};
use crate::text::{
    byte_len, byte_length, chars_of, contains_char, has_prefix, join2, join3, same, starts_with,
    text_of,
};

verus! {

broadcast use vstd::string::group_string_axioms;

/// Installation directory.
pub const INSTALL_ROOT: &'static str = "/opt/vexa-vm";

/// Directory of the installed releases.
pub const RELEASES_ROOT: &'static str = "/opt/vexa-vm/releases";

/// Link to the active release.
pub const CURRENT_LINK: &'static str = "/opt/vexa-vm/current";

/// The database of the controller.
pub const DATABASE_PATH: &'static str = "/var/lib/vexa-vm/vexa.db";

/// Directory of everything that belongs to updates.
pub const UPDATES_ROOT: &'static str = "/var/lib/vexa-vm/updates";

/// Requests that are being executed.
pub const PROCESSING_ROOT: &'static str = "/var/lib/vexa-vm/updates/processing";

/// Requests that were executed.
pub const PROCESSED_ROOT: &'static str = "/var/lib/vexa-vm/updates/processed";

/// Private state of the helper.
pub const HELPER_STATE_ROOT: &'static str = "/var/lib/vexa-vm/update-helper";

/// The lock that admits one operation at a time.
pub const UPDATE_LOCK_PATH: &'static str = "/run/lock/vexa-vm-update.lock";

/// The marker that announces a ready executor.
pub const READY_MARKER: &'static str = "/run/vexa-vm/update-executor.ready";

/// The environment file of the controller.
pub const ENVIRONMENT_PATH: &'static str = "/etc/vexa-vm/vexa-vm.env";

/// Directory of the unit files.
pub const SYSTEMD_UNIT_ROOT: &'static str = "/etc/systemd/system";

/// The service manager.
pub const SYSTEMCTL: &'static str = "/usr/bin/systemctl";

/// The package manager.
pub const APT_GET: &'static str = "/usr/bin/apt-get";

/// The package database.
pub const DPKG_QUERY: &'static str = "/usr/bin/dpkg-query";

/// The unit of the controller.
pub const SERVICE: &'static str = "vexa-vm.service";

/// Largest receipt or journal.
pub const MAX_RECEIPT_BYTES: u64 = 65536;

/// Largest environment file.
pub const MAX_ENVIRONMENT_BYTES: u64 = 131072;

/// Largest database snapshot.
pub const MAX_DATABASE_SNAPSHOT_BYTES: u64 = 17179869184;

/// Largest unit file.
pub const MAX_UNIT_BYTES: u64 = 262144;

/// Most requests that one dispatcher run looks at.
pub const MAX_DISPATCH_REQUESTS: usize = 128;

/// What the file system says of a path, without following a link.
#[derive(Clone, Copy, Debug, PartialEq, Eq, Structural)]
pub struct FileFacts {
    pub is_file: bool,
    pub is_directory: bool,
    pub is_symlink: bool,
    pub length: u64,
    pub uid: u32,
    pub mode: u32,
}

impl FileFacts {
    /// A regular file and no link.
    pub open spec fn regular(self) -> bool {
        self.is_file && !self.is_symlink
    }

    /// A directory and no link.
    pub open spec fn directory(self) -> bool {
        self.is_directory && !self.is_symlink
    }

    /// Others than the owner can write.
    pub open spec fn writable_by_others(self) -> bool {
        self.mode & 0o022 != 0
    }

    /// Belongs to root, and nobody else can write.
    pub open spec fn root_only(self) -> bool {
        self.uid == 0 && !self.writable_by_others()
    }

    fn is_regular(&self) -> (r: bool)
        ensures
            r == self.regular(),
    {
        self.is_file && !self.is_symlink
    }

    fn is_real_directory(&self) -> (r: bool)
        ensures
            r == self.directory(),
    {
        self.is_directory && !self.is_symlink
    }

    fn is_root_only(&self) -> (r: bool)
        ensures
            r == self.root_only(),
    {
        self.uid == 0 && self.mode & 0o022 == 0
    }
}

/// Why a file or directory was not trusted.
#[derive(Clone, Copy, Debug, PartialEq, Eq, Structural)]
pub enum PolicyError {
    InputEscaped,
    InputNotRegular,
    InputSize,
    InputWritable,
    InputNotRoot,
    InputGrew,
    UnsafeMarker,
    MarkerNotRoot,
    ArchiveNotRegular,
    ArchiveNotRoot,
    PartialUnsafe,
    PartialNotRoot,
    ReplayNotFile,
    InterruptedNotFile,
    InterruptedGone,
    NotRoot,
    LockUnsafe,
    LockHeld,
    ReceiptNotRegular,
    ReceiptUnsafe,
    SnapshotEscaped,
    BackupEscaped,
    DatabaseUnsafe,
    SnapshotExists,
    SnapshotTemporaryExists,
    SnapshotSize,
    SnapshotNotRegular,
    SnapshotUnsafe,
    SnapshotEmpty,
    SnapshotChanged,
    SidecarNotRegular,
    FileSizeLimit,
    FileExceeded,
    CurrentNotLink,
    ReleaseEscaped,
    ReleaseNotDirectory,
    ReleaseUnsafe,
    ReleaseName,
    VersionedReleaseEscaped,
    RequestedReleaseEscaped,
    ActivePathNotLink,
    VersionNotUtf8,
    VersionMismatch,
    ExecutableNotAllowed,
    ExecutableUnavailable,
    ExecutableUnsafe,
}

/// The text of each refusal.
pub open spec fn policy_error_text(e: PolicyError) -> Seq<char> {
    match e {
        PolicyError::InputEscaped => "helper input escaped its configured root"@,
        PolicyError::InputNotRegular => "helper input is not a regular file"@,
        PolicyError::InputSize => "helper input is outside its size limit"@,
        PolicyError::InputWritable => "helper input must not be group/world writable"@,
        PolicyError::InputNotRoot => "helper input must be root-owned"@,
        PolicyError::InputGrew => "helper input exceeded its size limit"@,
        PolicyError::UnsafeMarker => "refusing to remove an unsafe update-executor marker"@,
        PolicyError::MarkerNotRoot => "update-executor marker is not root-owned"@,
        PolicyError::ArchiveNotRegular => "interrupted private archive is not a regular file"@,
        PolicyError::ArchiveNotRoot => "interrupted private archive is not root-owned"@,
        PolicyError::PartialUnsafe => "interrupted release extraction path is unsafe"@,
        PolicyError::PartialNotRoot => "interrupted release extraction is not root-owned"@,
        PolicyError::ReplayNotFile => "replayed request path is not a file"@,
        PolicyError::InterruptedNotFile => "interrupted request path is not a file"@,
        PolicyError::InterruptedGone => "interrupted request disappeared before quarantine"@,
        PolicyError::NotRoot => "vexa-update-helper execute/dispatch must run as root"@,
        PolicyError::LockUnsafe =>
            "update lock file must be root-owned and non-writable by other users"@,
        PolicyError::LockHeld => "another Vexa-VM update operation is running"@,
        PolicyError::ReceiptNotRegular => "activation receipt is not a safe regular file"@,
        PolicyError::ReceiptUnsafe => "activation receipt has unsafe ownership or permissions"@,
        PolicyError::SnapshotEscaped => "database snapshot escaped the fixed rollback root"@,
        PolicyError::BackupEscaped => "database snapshot path escaped the fixed rollback root"@,
        PolicyError::DatabaseUnsafe => "Vexa-VM database is not a safe regular file"@,
        PolicyError::SnapshotExists => "database rollback snapshot already exists"@,
        PolicyError::SnapshotTemporaryExists => "database backup temporary file already exists"@,
        PolicyError::SnapshotSize =>
            "created database snapshot is outside the supported size limit"@,
        PolicyError::SnapshotNotRegular => "database snapshot is not a safe regular file"@,
        PolicyError::SnapshotUnsafe => "database snapshot has unsafe ownership or permissions"@,
        PolicyError::SnapshotEmpty => "database snapshot is empty"@,
        PolicyError::SnapshotChanged => "database snapshot changed during restoration"@,
        PolicyError::SidecarNotRegular => "SQLite sidecar is not a regular file"@,
        PolicyError::FileSizeLimit => "file is outside its supported size limit"@,
        PolicyError::FileExceeded => "file exceeded its supported size limit"@,
        PolicyError::CurrentNotLink => "the active Vexa-VM path must be a symlink"@,
        PolicyError::ReleaseEscaped => "the active release escaped the fixed releases directory"@,
        PolicyError::ReleaseNotDirectory => "the active release is not a safe directory"@,
        PolicyError::ReleaseUnsafe =>
            "the active release must be root-owned and non-writable by other users"@,
        PolicyError::ReleaseName => "release version is not a safe semantic version"@,
        PolicyError::VersionedReleaseEscaped => "versioned release escaped the releases root"@,
        PolicyError::RequestedReleaseEscaped =>
            "requested release escaped the fixed releases directory"@,
        PolicyError::ActivePathNotLink =>
            "refusing to replace a non-symlink active release path"@,
        PolicyError::VersionNotUtf8 => "release VERSION file is not UTF-8"@,
        PolicyError::VersionMismatch => "release VERSION does not match its versioned directory"@,
        PolicyError::ExecutableNotAllowed =>
            "privileged executable is outside the fixed allowlist"@,
        PolicyError::ExecutableUnavailable => "fixed privileged executable is unavailable"@,
        PolicyError::ExecutableUnsafe =>
            "fixed privileged executable has unsafe ownership or permissions"@,
    }
}

impl PolicyError {
    /// The text shown to an operator.
    pub fn message(&self) -> (r: &'static str)
        ensures
            r@ == policy_error_text(*self),
    {
        match self {
            PolicyError::InputEscaped => "helper input escaped its configured root",
            PolicyError::InputNotRegular => "helper input is not a regular file",
            PolicyError::InputSize => "helper input is outside its size limit",
            PolicyError::InputWritable => "helper input must not be group/world writable",
            PolicyError::InputNotRoot => "helper input must be root-owned",
            PolicyError::InputGrew => "helper input exceeded its size limit",
            PolicyError::UnsafeMarker => "refusing to remove an unsafe update-executor marker",
            PolicyError::MarkerNotRoot => "update-executor marker is not root-owned",
            PolicyError::ArchiveNotRegular => "interrupted private archive is not a regular file",
            PolicyError::ArchiveNotRoot => "interrupted private archive is not root-owned",
            PolicyError::PartialUnsafe => "interrupted release extraction path is unsafe",
            PolicyError::PartialNotRoot => "interrupted release extraction is not root-owned",
            PolicyError::ReplayNotFile => "replayed request path is not a file",
            PolicyError::InterruptedNotFile => "interrupted request path is not a file",
            PolicyError::InterruptedGone => "interrupted request disappeared before quarantine",
            PolicyError::NotRoot => "vexa-update-helper execute/dispatch must run as root",
            PolicyError::LockUnsafe =>
                "update lock file must be root-owned and non-writable by other users",
            PolicyError::LockHeld => "another Vexa-VM update operation is running",
            PolicyError::ReceiptNotRegular => "activation receipt is not a safe regular file",
            PolicyError::ReceiptUnsafe => "activation receipt has unsafe ownership or permissions",
            PolicyError::SnapshotEscaped => "database snapshot escaped the fixed rollback root",
            PolicyError::BackupEscaped => "database snapshot path escaped the fixed rollback root",
            PolicyError::DatabaseUnsafe => "Vexa-VM database is not a safe regular file",
            PolicyError::SnapshotExists => "database rollback snapshot already exists",
            PolicyError::SnapshotTemporaryExists => "database backup temporary file already exists",
            PolicyError::SnapshotSize =>
                "created database snapshot is outside the supported size limit",
            PolicyError::SnapshotNotRegular => "database snapshot is not a safe regular file",
            PolicyError::SnapshotUnsafe => "database snapshot has unsafe ownership or permissions",
            PolicyError::SnapshotEmpty => "database snapshot is empty",
            PolicyError::SnapshotChanged => "database snapshot changed during restoration",
            PolicyError::SidecarNotRegular => "SQLite sidecar is not a regular file",
            PolicyError::FileSizeLimit => "file is outside its supported size limit",
            PolicyError::FileExceeded => "file exceeded its supported size limit",
            PolicyError::CurrentNotLink => "the active Vexa-VM path must be a symlink",
            PolicyError::ReleaseEscaped => "the active release escaped the fixed releases directory",
            PolicyError::ReleaseNotDirectory => "the active release is not a safe directory",
            PolicyError::ReleaseUnsafe =>
                "the active release must be root-owned and non-writable by other users",
            PolicyError::ReleaseName => "release version is not a safe semantic version",
            PolicyError::VersionedReleaseEscaped => "versioned release escaped the releases root",
            PolicyError::RequestedReleaseEscaped =>
                "requested release escaped the fixed releases directory",
            PolicyError::ActivePathNotLink =>
                "refusing to replace a non-symlink active release path",
            PolicyError::VersionNotUtf8 => "release VERSION file is not UTF-8",
            PolicyError::VersionMismatch => "release VERSION does not match its versioned directory",
            PolicyError::ExecutableNotAllowed =>
                "privileged executable is outside the fixed allowlist",
            PolicyError::ExecutableUnavailable => "fixed privileged executable is unavailable",
            PolicyError::ExecutableUnsafe =>
                "fixed privileged executable has unsafe ownership or permissions",
        }
    }
}

/// Why something that has a name was not trusted.
#[derive(Clone, Debug, PartialEq, Eq)]
pub enum NamedError {
    ExchangeUnsafe(String),
    ExchangeWritable(String),
    DirectoryUnsafe(String),
    DirectoryNotRoot(String),
    FixedPath(String),
    PayloadNotFile(String),
    PayloadUnsafe(String),
    PayloadNotExecutable(String),
    UnitUnsafe(String),
    UnitPermissions(String),
    UnitRootUnsafe,
    UnitRootPermissions,
}

/// Why something that has a name was not trusted, with the name as a character sequence.
pub enum NamedErrorView {
    ExchangeUnsafe(Seq<char>),
    ExchangeWritable(Seq<char>),
    DirectoryUnsafe(Seq<char>),
    DirectoryNotRoot(Seq<char>),
    FixedPath(Seq<char>),
    PayloadNotFile(Seq<char>),
    PayloadUnsafe(Seq<char>),
    PayloadNotExecutable(Seq<char>),
    UnitUnsafe(Seq<char>),
    UnitPermissions(Seq<char>),
    UnitRootUnsafe,
    UnitRootPermissions,
}

impl View for NamedError {
    type V = NamedErrorView;

    open spec fn view(&self) -> NamedErrorView {
        match *self {
            NamedError::ExchangeUnsafe(name) => NamedErrorView::ExchangeUnsafe(name@),
            NamedError::ExchangeWritable(name) => NamedErrorView::ExchangeWritable(name@),
            NamedError::DirectoryUnsafe(name) => NamedErrorView::DirectoryUnsafe(name@),
            NamedError::DirectoryNotRoot(name) => NamedErrorView::DirectoryNotRoot(name@),
            NamedError::FixedPath(name) => NamedErrorView::FixedPath(name@),
            NamedError::PayloadNotFile(name) => NamedErrorView::PayloadNotFile(name@),
            NamedError::PayloadUnsafe(name) => NamedErrorView::PayloadUnsafe(name@),
            NamedError::PayloadNotExecutable(name) => NamedErrorView::PayloadNotExecutable(name@),
            NamedError::UnitUnsafe(name) => NamedErrorView::UnitUnsafe(name@),
            NamedError::UnitPermissions(name) => NamedErrorView::UnitPermissions(name@),
            NamedError::UnitRootUnsafe => NamedErrorView::UnitRootUnsafe,
            NamedError::UnitRootPermissions => NamedErrorView::UnitRootPermissions,
        }
    }
}

/// The text of each of these refusals.
pub open spec fn named_error_text(e: NamedErrorView) -> Seq<char> {
    match e {
        NamedErrorView::ExchangeUnsafe(name) => name + " is not a safe exchange directory"@,
        NamedErrorView::ExchangeWritable(name) => name + " must not be group/world writable"@,
        NamedErrorView::DirectoryUnsafe(name) => name + " is not a safe directory"@,
        NamedErrorView::DirectoryNotRoot(name) => name + " must be root-owned"@,
        NamedErrorView::FixedPath(name) => name + " must be an absolute normalized path"@,
        NamedErrorView::PayloadNotFile(name) =>
            "release payload entry "@ + name + " is not a non-empty regular file"@,
        NamedErrorView::PayloadUnsafe(name) =>
            "release payload entry "@ + name + " has unsafe ownership or permissions"@,
        NamedErrorView::PayloadNotExecutable(name) => "release payload entry "@ + name + " is not executable"@,
        NamedErrorView::UnitUnsafe(name) => "refusing to replace unsafe systemd unit "@ + name,
        NamedErrorView::UnitPermissions(name) =>
            "installed systemd unit "@ + name + " has unsafe permissions"@,
        NamedErrorView::UnitRootUnsafe => "systemd unit root is not a safe directory"@,
        NamedErrorView::UnitRootPermissions => "systemd unit root has unsafe ownership or permissions"@,
    }
}

impl NamedError {
    /// The text shown to an operator.
    pub fn message(&self) -> (r: String)
        ensures
            r@ == named_error_text(self@),
    {
        match self {
            NamedError::ExchangeUnsafe(name) => join2(
                name.as_str(),
                " is not a safe exchange directory",
            ),
            NamedError::ExchangeWritable(name) => join2(
                name.as_str(),
                " must not be group/world writable",
            ),
            NamedError::DirectoryUnsafe(name) => join2(
                name.as_str(),
                " is not a safe directory",
            ),
            NamedError::DirectoryNotRoot(name) => join2(
                name.as_str(),
                " must be root-owned",
            ),
            NamedError::FixedPath(name) => join2(
                name.as_str(),
                " must be an absolute normalized path",
            ),
            NamedError::PayloadNotFile(name) => join3(
                "release payload entry ",
                name.as_str(),
                " is not a non-empty regular file",
            ),
            NamedError::PayloadUnsafe(name) => join3(
                "release payload entry ",
                name.as_str(),
                " has unsafe ownership or permissions",
            ),
            NamedError::PayloadNotExecutable(name) => join3(
                "release payload entry ",
                name.as_str(),
                " is not executable",
            ),
            NamedError::UnitUnsafe(name) => join2(
                "refusing to replace unsafe systemd unit ",
                name.as_str(),
            ),
            NamedError::UnitPermissions(name) => join3(
                "installed systemd unit ",
                name.as_str(),
                " has unsafe permissions",
            ),
            NamedError::UnitRootUnsafe => "systemd unit root is not a safe directory".to_owned(),
            NamedError::UnitRootPermissions => "systemd unit root has unsafe ownership or permissions".to_owned(),
        }
    }
}

/// A verdict on something that has a name, with the name as a character sequence.
pub open spec fn named_verdict(r: Result<(), NamedError>) -> Result<(), NamedErrorView> {
    match r {
        Ok(_) => Ok(()),
        Err(e) => Err(e@),
    }
}

/// Whether a helper input may be read: a regular, non-empty file within its limit that
/// only its owner can write, and that belongs to root where that is demanded.
pub fn check_helper_input(facts: FileFacts, maximum: u64, require_root_owned: bool) -> (r: Result<
    (),
    PolicyError,
>)
    ensures
        r == (if !facts.is_file {
            Err::<(), PolicyError>(PolicyError::InputNotRegular)
        } else if facts.length == 0 || facts.length > maximum {
            Err::<(), PolicyError>(PolicyError::InputSize)
        } else if facts.writable_by_others() {
            Err::<(), PolicyError>(PolicyError::InputWritable)
        } else if require_root_owned && facts.uid != 0 {
            Err::<(), PolicyError>(PolicyError::InputNotRoot)
        } else {
            Ok::<(), PolicyError>(())
        }),
{
    if !facts.is_file {
        return Err(PolicyError::InputNotRegular);
    }
    if facts.length == 0 || facts.length > maximum {
        return Err(PolicyError::InputSize);
    }
    if facts.mode & 0o022 != 0 {
        return Err(PolicyError::InputWritable);
    }
    if require_root_owned && facts.uid != 0 {
        return Err(PolicyError::InputNotRoot);
    }
    Ok(())
}

/// Whether the bytes that were read stayed within the limit.
pub fn read_fixed_file(bytes_read: u64, maximum: u64) -> (r: Result<(), PolicyError>)
    ensures
        r == (if bytes_read > maximum {
            Err::<(), PolicyError>(PolicyError::InputGrew)
        } else {
            Ok::<(), PolicyError>(())
        }),
{
    if bytes_read > maximum {
        return Err(PolicyError::InputGrew);
    }
    Ok(())
}

/// Whether a helper input lies directly in its root, both resolved.
pub fn read_confined_file(canonical_root: &str, canonical_parent: &str) -> (r: Result<
    (),
    PolicyError,
>)
    ensures
        r == (if same_path(canonical_parent@, canonical_root@) {
            Ok::<(), PolicyError>(())
        } else {
            Err::<(), PolicyError>(PolicyError::InputEscaped)
        }),
{
    if !is_same_path(canonical_parent, canonical_root) {
        return Err(PolicyError::InputEscaped);
    }
    Ok(())
}

/// Whether a fixed path is absolute and has no parent component.
pub fn validate_fixed_path(label: &str, path: &str) -> (r: Result<(), NamedError>)
    ensures
        named_verdict(r) == (if crate::archive::destination_normalized(path@) {
            Ok::<(), NamedErrorView>(())
        } else {
            Err::<(), NamedErrorView>(NamedErrorView::FixedPath(label@))
        }),
{
    if !crate::archive::destination_is_normalized(path) {
        return Err(NamedError::FixedPath(label.to_owned()));
    }
    Ok(())
}

/// What becomes of the ready marker: a missing one needs nothing, a regular file of root
/// is removed, anything else is refused.
pub fn mark_unready(marker: Option<FileFacts>) -> (r: Result<bool, PolicyError>)
    ensures
        r == match marker {
            None => Ok::<bool, PolicyError>(false),
            Some(f) => if !f.regular() {
                Err::<bool, PolicyError>(PolicyError::UnsafeMarker)
            } else if f.uid != 0 {
                Err::<bool, PolicyError>(PolicyError::MarkerNotRoot)
            } else {
                Ok::<bool, PolicyError>(true)
            },
        },
{
    match marker {
        None => Ok(false),
        Some(facts) => {
            if !facts.is_regular() {
                return Err(PolicyError::UnsafeMarker);
            }
            if facts.uid != 0 {
                return Err(PolicyError::MarkerNotRoot);
            }
            Ok(true)
        },
    }
}

/// A directory of an unfinished extraction, directly in the releases directory.
pub open spec fn direct_partial_release(path: Seq<char>) -> bool {
    let name = path_names(path).last();
    &&& directly_in(path, RELEASES_ROOT@)
    &&& starts_with(name, ".partial-"@)
    &&& byte_len(name) <= 128
}

/// Whether a path is that of an unfinished extraction.
pub fn is_direct_partial_release(path: &str) -> (r: bool)
    ensures
        r == direct_partial_release(path@),
{
    match last_name(path) {
        None => false,
        Some(name) => is_directly_in(path, RELEASES_ROOT) && has_prefix(
            name.as_str(),
            ".partial-",
        ) && byte_length(name.as_str()) <= 128,
    }
}

/// What becomes of the artifacts of an interrupted request: whether the private archive
/// and whether the unfinished extraction are removed.
pub fn cleanup_interrupted_artifacts(
    private_archive: Option<FileFacts>,
    partial_path: &str,
    partial: Option<FileFacts>,
) -> (r: Result<(bool, bool), PolicyError>)
    ensures
        r == (if private_archive matches Some(f) && !f.regular() {
            Err::<(bool, bool), PolicyError>(PolicyError::ArchiveNotRegular)
        } else if private_archive matches Some(f) && f.uid != 0 {
            Err::<(bool, bool), PolicyError>(PolicyError::ArchiveNotRoot)
        } else if partial matches Some(f) && (!direct_partial_release(partial_path@)
            || !f.directory()) {
            Err::<(bool, bool), PolicyError>(PolicyError::PartialUnsafe)
        } else if partial matches Some(f) && f.uid != 0 {
            Err::<(bool, bool), PolicyError>(PolicyError::PartialNotRoot)
        } else {
            Ok::<(bool, bool), PolicyError>((private_archive is Some, partial is Some))
        }),
{
    match private_archive {
        Some(facts) => {
            if !facts.is_regular() {
                return Err(PolicyError::ArchiveNotRegular);
            }
            if facts.uid != 0 {
                return Err(PolicyError::ArchiveNotRoot);
            }
        },
        None => {},
    }
    match partial {
        Some(facts) => {
            if !is_direct_partial_release(partial_path) || !facts.is_real_directory() {
                return Err(PolicyError::PartialUnsafe);
            }
            if facts.uid != 0 {
                return Err(PolicyError::PartialNotRoot);
            }
        },
        None => {},
    }
    Ok((private_archive.is_some(), partial.is_some()))
}

/// How a request file is moved out of the way.
#[derive(Clone, Copy, Debug, PartialEq, Eq, Structural)]
pub enum Quarantine {
    Rename,
    Remove,
}

/// Moves a request file to its quarantine name, or removes it where that name is taken
/// and the request is a file or a link.
pub fn quarantine_replay_file(target_exists: bool, source: FileFacts) -> (r: Result<
    Quarantine,
    PolicyError,
>)
    ensures
        r == (if !target_exists {
            Ok::<Quarantine, PolicyError>(Quarantine::Rename)
        } else if source.is_file || source.is_symlink {
            Ok::<Quarantine, PolicyError>(Quarantine::Remove)
        } else {
            Err::<Quarantine, PolicyError>(PolicyError::ReplayNotFile)
        }),
{
    if !target_exists {
        return Ok(Quarantine::Rename);
    }
    if !source.is_file && !source.is_symlink {
        return Err(PolicyError::ReplayNotFile);
    }
    Ok(Quarantine::Remove)
}

/// Moves a file of an interrupted request to its quarantine name, or removes it where that
/// name is taken and the file is a file or a link; nothing where it is gone.
pub fn quarantine_interrupted_file(target_exists: bool, source: Option<FileFacts>) -> (r: Result<
    Option<Quarantine>,
    PolicyError,
>)
    ensures
        r == (match source {
            None => Ok::<Option<Quarantine>, PolicyError>(None),
            Some(facts) => if !target_exists {
                Ok::<Option<Quarantine>, PolicyError>(Some(Quarantine::Rename))
            } else if facts.is_file || facts.is_symlink {
                Ok::<Option<Quarantine>, PolicyError>(Some(Quarantine::Remove))
            } else {
                Err::<Option<Quarantine>, PolicyError>(PolicyError::InterruptedNotFile)
            },
        }),
{
    match source {
        None => Ok(None),
        Some(facts) => {
            if !target_exists {
                return Ok(Some(Quarantine::Rename));
            }
            if !facts.is_file && !facts.is_symlink {
                return Err(PolicyError::InterruptedNotFile);
            }
            Ok(Some(Quarantine::Remove))
        },
    }
}

/// An interrupted request is only quarantined where one of its files was there.
pub fn quarantine_interrupted_request(
    processing: Option<Quarantine>,
    incoming: Option<Quarantine>,
) -> (r: Result<(), PolicyError>)
    ensures
        r == (if processing is None && incoming is None {
            Err::<(), PolicyError>(PolicyError::InterruptedGone)
        } else {
            Ok::<(), PolicyError>(())
        }),
{
    if processing.is_none() && incoming.is_none() {
        return Err(PolicyError::InterruptedGone);
    }
    Ok(())
}

/// Whether a directory that the unprivileged side writes to may be used.
pub fn validate_exchange_directory(path: &str, facts: FileFacts) -> (r: Result<(), NamedError>)
    ensures
        named_verdict(r) == (if !facts.directory() {
            Err::<(), NamedErrorView>(NamedErrorView::ExchangeUnsafe(path@))
        } else if facts.writable_by_others() {
            Err::<(), NamedErrorView>(NamedErrorView::ExchangeWritable(path@))
        } else {
            Ok::<(), NamedErrorView>(())
        }),
{
    if !facts.is_real_directory() {
        return Err(NamedError::ExchangeUnsafe(path.to_owned()));
    }
    if facts.mode & 0o022 != 0 {
        return Err(NamedError::ExchangeWritable(path.to_owned()));
    }
    Ok(())
}

/// Whether a private directory of the helper may be used.
pub fn ensure_root_directory(path: &str, facts: FileFacts) -> (r: Result<(), NamedError>)
    ensures
        named_verdict(r) == (if !facts.directory() {
            Err::<(), NamedErrorView>(NamedErrorView::DirectoryUnsafe(path@))
        } else if facts.uid != 0 {
            Err::<(), NamedErrorView>(NamedErrorView::DirectoryNotRoot(path@))
        } else {
            Ok::<(), NamedErrorView>(())
        }),
{
    if !facts.is_real_directory() {
        return Err(NamedError::DirectoryUnsafe(path.to_owned()));
    }
    if facts.uid != 0 {
        return Err(NamedError::DirectoryNotRoot(path.to_owned()));
    }
    Ok(())
}

/// Whether the helper runs as root.
pub fn require_root(uid: u32) -> (r: Result<(), PolicyError>)
    ensures
        r == (if uid == 0 {
            Ok::<(), PolicyError>(())
        } else {
            Err::<(), PolicyError>(PolicyError::NotRoot)
        }),
{
    if uid != 0 {
        return Err(PolicyError::NotRoot);
    }
    Ok(())
}

/// Whether the lock file is safe and the lock was obtained.
pub fn acquire_lock(facts: FileFacts, locked: bool) -> (r: Result<(), PolicyError>)
    ensures
        r == (if !facts.is_file || !facts.root_only() {
            Err::<(), PolicyError>(PolicyError::LockUnsafe)
        } else if !locked {
            Err::<(), PolicyError>(PolicyError::LockHeld)
        } else {
            Ok::<(), PolicyError>(())
        }),
{
    if !facts.is_file || !facts.is_root_only() {
        return Err(PolicyError::LockUnsafe);
    }
    if !locked {
        return Err(PolicyError::LockHeld);
    }
    Ok(())
}

/// Whether an activation receipt is removed: a missing one needs nothing, a safe regular
/// file is removed, anything else is refused.
pub fn remove_activation_receipt(receipt: Option<FileFacts>) -> (r: Result<bool, PolicyError>)
    ensures
        r == match receipt {
            None => Ok::<bool, PolicyError>(false),
            Some(f) => if !f.regular() {
                Err::<bool, PolicyError>(PolicyError::ReceiptNotRegular)
            } else if !f.root_only() {
                Err::<bool, PolicyError>(PolicyError::ReceiptUnsafe)
            } else {
                Ok::<bool, PolicyError>(true)
            },
        },
{
    match receipt {
        None => Ok(false),
        Some(facts) => {
            if !facts.is_regular() {
                return Err(PolicyError::ReceiptNotRegular);
            }
            if !facts.is_root_only() {
                return Err(PolicyError::ReceiptUnsafe);
            }
            Ok(true)
        },
    }
}

/// The database may be backed up to a new file directly in the rollback directory.
pub fn begin_backup(
    in_rollback_root: bool,
    database: FileFacts,
    destination_exists: bool,
    temporary_exists: bool,
) -> (r: Result<(), PolicyError>)
    ensures
        r == (if !in_rollback_root {
            Err::<(), PolicyError>(PolicyError::BackupEscaped)
        } else if !database.regular() || database.length > MAX_DATABASE_SNAPSHOT_BYTES {
            Err::<(), PolicyError>(PolicyError::DatabaseUnsafe)
        } else if destination_exists {
            Err::<(), PolicyError>(PolicyError::SnapshotExists)
        } else if temporary_exists {
            Err::<(), PolicyError>(PolicyError::SnapshotTemporaryExists)
        } else {
            Ok::<(), PolicyError>(())
        }),
{
    if !in_rollback_root {
        return Err(PolicyError::BackupEscaped);
    }
    if !database.is_regular() || database.length > MAX_DATABASE_SNAPSHOT_BYTES {
        return Err(PolicyError::DatabaseUnsafe);
    }
    if destination_exists {
        return Err(PolicyError::SnapshotExists);
    }
    if temporary_exists {
        return Err(PolicyError::SnapshotTemporaryExists);
    }
    Ok(())
}

/// Whether the file that a backup wrote is a snapshot.
pub fn check_created_snapshot(facts: FileFacts) -> (r: Result<(), PolicyError>)
    ensures
        r == (if !facts.regular() || facts.length == 0 || facts.length
            > MAX_DATABASE_SNAPSHOT_BYTES {
            Err::<(), PolicyError>(PolicyError::SnapshotSize)
        } else {
            Ok::<(), PolicyError>(())
        }),
{
    if !facts.is_regular() || facts.length == 0 || facts.length > MAX_DATABASE_SNAPSHOT_BYTES {
        return Err(PolicyError::SnapshotSize);
    }
    Ok(())
}

/// Whether a snapshot may be removed.
pub fn remove_database_snapshot(in_rollback_root: bool, facts: FileFacts) -> (r: Result<
    (),
    PolicyError,
>)
    ensures
        r == (if !in_rollback_root {
            Err::<(), PolicyError>(PolicyError::SnapshotEscaped)
        } else if !facts.regular() {
            Err::<(), PolicyError>(PolicyError::SnapshotNotRegular)
        } else if !facts.root_only() {
            Err::<(), PolicyError>(PolicyError::SnapshotUnsafe)
        } else {
            Ok::<(), PolicyError>(())
        }),
{
    if !in_rollback_root {
        return Err(PolicyError::SnapshotEscaped);
    }
    if !facts.is_regular() {
        return Err(PolicyError::SnapshotNotRegular);
    }
    if !facts.is_root_only() {
        return Err(PolicyError::SnapshotUnsafe);
    }
    Ok(())
}

/// Whether a snapshot may replace the database, and the permission bits that the new
/// database file gets.
pub fn restore_database(in_rollback_root: bool, snapshot_size: u64, database: FileFacts) -> (r:
    Result<u32, PolicyError>)
    ensures
        r == (if !in_rollback_root {
            Err::<u32, PolicyError>(PolicyError::SnapshotEscaped)
        } else if snapshot_size == 0 {
            Err::<u32, PolicyError>(PolicyError::SnapshotEmpty)
        } else if !database.regular() {
            Err::<u32, PolicyError>(PolicyError::DatabaseUnsafe)
        } else {
            Ok::<u32, PolicyError>(database.mode & 0o777)
        }),
{
    if !in_rollback_root {
        return Err(PolicyError::SnapshotEscaped);
    }
    if snapshot_size == 0 {
        return Err(PolicyError::SnapshotEmpty);
    }
    if !database.is_regular() {
        return Err(PolicyError::DatabaseUnsafe);
    }
    Ok(database.mode & 0o777)
}

/// Whether the copy of a snapshot is complete.
pub fn check_restored_size(copied: u64, snapshot_size: u64) -> (r: Result<(), PolicyError>)
    ensures
        r == (if copied == snapshot_size {
            Ok::<(), PolicyError>(())
        } else {
            Err::<(), PolicyError>(PolicyError::SnapshotChanged)
        }),
{
    if copied != snapshot_size {
        return Err(PolicyError::SnapshotChanged);
    }
    Ok(())
}

/// Whether a sidecar of the database is removed.
pub fn remove_sqlite_sidecar(sidecar: Option<FileFacts>) -> (r: Result<bool, PolicyError>)
    ensures
        r == match sidecar {
            None => Ok::<bool, PolicyError>(false),
            Some(f) => if !f.regular() {
                Err::<bool, PolicyError>(PolicyError::SidecarNotRegular)
            } else {
                Ok::<bool, PolicyError>(true)
            },
        },
{
    match sidecar {
        None => Ok(false),
        Some(facts) => {
            if !facts.is_regular() {
                return Err(PolicyError::SidecarNotRegular);
            }
            Ok(true)
        },
    }
}

/// Whether a file may be hashed: it is not empty and within the limit.
pub fn hash_regular_file(length: u64, maximum: u64) -> (r: Result<
    crate::digest::StreamDigest,
    PolicyError,
>)
    ensures
        r is Ok <==> length != 0 && length <= maximum,
        r matches Ok(s) ==> s.bytes() == Seq::<u8>::empty() && s.limit() == maximum,
        r matches Err(e) ==> e == PolicyError::FileSizeLimit,
{
    if length == 0 || length > maximum {
        return Err(PolicyError::FileSizeLimit);
    }
    Ok(crate::digest::StreamDigest::new(maximum))
}

/// The version of the active release: the link leads to a directory of root directly in
/// the releases directory whose name is a version.
pub fn current_release(
    link_is_symlink: bool,
    parent_is_releases_root: bool,
    facts: FileFacts,
    name: &str,
) -> (r: Result<String, PolicyError>)
    ensures
        match r {
            Ok(version) => link_is_symlink && parent_is_releases_root && facts.directory()
                && facts.root_only() && is_release_name(without_v(name@)) && version@ == without_v(
                name@,
            ),
            Err(e) => e == (if !link_is_symlink {
                PolicyError::CurrentNotLink
            } else if !parent_is_releases_root {
                PolicyError::ReleaseEscaped
            } else if !facts.directory() {
                PolicyError::ReleaseNotDirectory
            } else if !facts.root_only() {
                PolicyError::ReleaseUnsafe
            } else {
                PolicyError::ReleaseName
            }) && !(link_is_symlink && parent_is_releases_root && facts.directory()
                && facts.root_only() && is_release_name(without_v(name@))),
        },
{
    if !link_is_symlink {
        return Err(PolicyError::CurrentNotLink);
    }
    if !parent_is_releases_root {
        return Err(PolicyError::ReleaseEscaped);
    }
    if !facts.is_real_directory() {
        return Err(PolicyError::ReleaseNotDirectory);
    }
    if !facts.is_root_only() {
        return Err(PolicyError::ReleaseUnsafe);
    }
    match normalized_release_name(name) {
        Ok(version) => Ok(version),
        Err(_) => Err(PolicyError::ReleaseName),
    }
}

/// The directory of a version below the releases directory: its name is the normalized
/// version, and resolved it lies directly in the releases directory.
pub fn release_path(version: &str, parent_is_releases_root: bool) -> (r: Result<
    String,
    PolicyError,
>)
    ensures
        match r {
            Ok(name) => is_release_name(without_v(version@)) && parent_is_releases_root && name@
                == without_v(version@),
            Err(e) => if !is_release_name(without_v(version@)) {
                e == PolicyError::ReleaseName
            } else {
                !parent_is_releases_root && e == PolicyError::VersionedReleaseEscaped
            },
        },
{
    let name = match normalized_release_name(version) {
        Ok(name) => name,
        Err(_) => {
            return Err(PolicyError::ReleaseName);
        },
    };
    if !parent_is_releases_root {
        return Err(PolicyError::VersionedReleaseEscaped);
    }
    Ok(name)
}

/// What the link to the active release leads to once a release is active, relative to the
/// directory of the link: the release lies in the releases directory, its payload was
/// accepted, its directory is named after a version, and what stands at the place of the
/// link is a link or nothing.
pub fn switch_current_release(
    parent_is_releases_root: bool,
    payload: Result<(), PolicyError>,
    name: &str,
    link_is_symlink: Option<bool>,
) -> (r: Result<String, PolicyError>)
    ensures
        match r {
            Ok(target) => parent_is_releases_root && payload is Ok && is_release_name(
                without_v(name@),
            ) && link_is_symlink != Some(false) && target@ == "releases/"@ + name@,
            Err(e) => e == (if !parent_is_releases_root {
                PolicyError::RequestedReleaseEscaped
            } else if payload is Err {
                payload->Err_0
            } else if !is_release_name(without_v(name@)) {
                PolicyError::ReleaseName
            } else {
                PolicyError::ActivePathNotLink
            }) && !(parent_is_releases_root && payload is Ok && is_release_name(
                without_v(name@),
            ) && link_is_symlink != Some(false)),
        },
{
    if !parent_is_releases_root {
        return Err(PolicyError::RequestedReleaseEscaped);
    }
    match payload {
        Err(e) => {
            return Err(e);
        },
        Ok(()) => {},
    }
    if normalized_release_name(name).is_err() {
        return Err(PolicyError::ReleaseName);
    }
    match link_is_symlink {
        Some(false) => {
            return Err(PolicyError::ActivePathNotLink);
        },
        _ => {},
    }
    Ok(crate::text::join2("releases/", name))
}

/// A file of a release that must be executable.
pub open spec fn must_be_executable(relative: Seq<char>) -> bool {
    starts_with(relative, "bin/"@) || relative == "guest-tools/vexa-guest-tools-linux-x86_64"@
}

/// Whether an installed file of a release is trustworthy.
pub fn check_payload_entry(relative: &str, facts: FileFacts) -> (r: Result<(), NamedError>)
    ensures
        named_verdict(r) == (if !facts.regular() || facts.length == 0 {
            Err::<(), NamedErrorView>(NamedErrorView::PayloadNotFile(relative@))
        } else if !facts.root_only() {
            Err::<(), NamedErrorView>(NamedErrorView::PayloadUnsafe(relative@))
        } else if must_be_executable(relative@) && facts.mode & 0o111 == 0 {
            Err::<(), NamedErrorView>(NamedErrorView::PayloadNotExecutable(relative@))
        } else {
            Ok::<(), NamedErrorView>(())
        }),
{
    if !facts.is_regular() || facts.length == 0 {
        return Err(NamedError::PayloadNotFile(relative.to_owned()));
    }
    if !facts.is_root_only() {
        return Err(NamedError::PayloadUnsafe(relative.to_owned()));
    }
    if (has_prefix(relative, "bin/") || same(relative, "guest-tools/vexa-guest-tools-linux-x86_64"))
        && facts.mode & 0o111 == 0 {
        return Err(NamedError::PayloadNotExecutable(relative.to_owned()));
    }
    Ok(())
}

/// `s` without the line breaks at its back.
pub open spec fn without_line_breaks(s: Seq<char>) -> Seq<char>
    decreases s.len(),
{
    if s.len() > 0 && (s.last() == '\n' || s.last() == '\r') {
        without_line_breaks(s.drop_last())
    } else {
        s
    }
}

fn trim_line_breaks(s: &str) -> (r: String)
    ensures
        r@ == without_line_breaks(s@),
{
    let v = chars_of(s);
    let mut end: usize = v.len();
    proof {
        assert(v@.take(v@.len() as int) =~= v@);
    }
    while end > 0 && (v[end - 1] == '\n' || v[end - 1] == '\r')
        invariant
            end <= v@.len(),
            without_line_breaks(v@.take(end as int)) == without_line_breaks(v@),
        decreases end,
    {
        proof {
            assert(v@.take(end as int).drop_last() =~= v@.take(end as int - 1));
        }
        end = end - 1;
    }
    proof {
        assert(v@.subrange(0, end as int) =~= v@.take(end as int));
    }
    text_of(&v, 0, end)
}

/// The verdict on the VERSION file of an installed release.
pub open spec fn installed_version_verdict(bytes: Seq<u8>, directory: Seq<char>) -> Result<
    (),
    PolicyError,
> {
    if !valid_utf8(bytes) {
        Err(PolicyError::VersionNotUtf8)
    } else {
        let line = without_line_breaks(decode_utf8(bytes));
        if line.contains('\r') || line.contains('\n') {
            Err(PolicyError::VersionMismatch)
        } else if !is_release_name(without_v(line)) || !is_release_name(without_v(directory)) {
            Err(PolicyError::ReleaseName)
        } else if without_v(line) != without_v(directory) {
            Err(PolicyError::VersionMismatch)
        } else {
            Ok(())
        }
    }
}

/// Checks that the VERSION file of an installed release states the version that its
/// directory is named after.
pub fn require_release_payload(version_file: &[u8], directory_name: &str) -> (r: Result<
    (),
    PolicyError,
>)
    ensures
        r == installed_version_verdict(version_file@, directory_name@),
{
    let text = match core::str::from_utf8(version_file) {
        Ok(text) => text,
        Err(_) => {
            return Err(PolicyError::VersionNotUtf8);
        },
    };
    let line = trim_line_breaks(text);
    if contains_char(line.as_str(), '\r') || contains_char(line.as_str(), '\n') {
        return Err(PolicyError::VersionMismatch);
    }
    let stated = match normalized_release_name(line.as_str()) {
        Ok(name) => name,
        Err(_) => {
            return Err(PolicyError::ReleaseName);
        },
    };
    let named = match normalized_release_name(directory_name) {
        Ok(name) => name,
        Err(_) => {
            return Err(PolicyError::ReleaseName);
        },
    };
    if !same(stated.as_str(), named.as_str()) {
        return Err(PolicyError::VersionMismatch);
    }
    Ok(())
}

/// The unit files of a release, by number.
pub fn release_unit(i: usize) -> (r: &'static str)
    requires
        i < 4,
    ensures
        r@ == (if i == 0 {
            "vexa-vm.service"@
        } else if i == 1 {
            "vexa-update-executor-ready.service"@
        } else if i == 2 {
            "vexa-update-dispatch.service"@
        } else {
            "vexa-update-dispatch.path"@
        }),
{
    match i {
        0 => "vexa-vm.service",
        1 => "vexa-update-executor-ready.service",
        2 => "vexa-update-dispatch.service",
        _ => "vexa-update-dispatch.path",
    }
}

/// Whether unit files may be installed: the directory is safe, and so is the unit that
/// stands there.
pub fn install_release_units(unit: &str, root: FileFacts, target: Option<FileFacts>) -> (r: Result<
    (),
    NamedError,
>)
    ensures
        named_verdict(r) == (if !root.directory() {
            Err::<(), NamedErrorView>(NamedErrorView::UnitRootUnsafe)
        } else if !root.root_only() {
            Err::<(), NamedErrorView>(NamedErrorView::UnitRootPermissions)
        } else {
            match target {
                None => Ok::<(), NamedErrorView>(()),
                Some(f) => if !f.regular() {
                    Err::<(), NamedErrorView>(NamedErrorView::UnitUnsafe(unit@))
                } else if !f.root_only() {
                    Err::<(), NamedErrorView>(NamedErrorView::UnitPermissions(unit@))
                } else {
                    Ok::<(), NamedErrorView>(())
                },
            }
        }),
{
    if !root.is_real_directory() {
        return Err(NamedError::UnitRootUnsafe);
    }
    if !root.is_root_only() {
        return Err(NamedError::UnitRootPermissions);
    }
    match target {
        None => Ok(()),
        Some(facts) => {
            if !facts.is_regular() {
                return Err(NamedError::UnitUnsafe(unit.to_owned()));
            }
            if !facts.is_root_only() {
                return Err(NamedError::UnitPermissions(unit.to_owned()));
            }
            Ok(())
        },
    }
}

/// The programs that the helper may start.
pub open spec fn allowed_executable(path: Seq<char>) -> bool {
    path == "/usr/bin/systemctl"@ || path == "/usr/bin/apt-get"@ || path == "/usr/bin/dpkg-query"@
}

/// Whether a program is one of the fixed ones.
pub fn is_fixed_executable(path: &str) -> (r: bool)
    ensures
        r == allowed_executable(path@),
{
    same(path, "/usr/bin/systemctl") || same(path, "/usr/bin/apt-get") || same(
        path,
        "/usr/bin/dpkg-query",
    )
}

/// Whether a program may be started with the rights of root.
pub fn validate_fixed_executable(path: &str, facts: FileFacts) -> (r: Result<(), PolicyError>)
    ensures
        r == (if !allowed_executable(path@) {
            Err::<(), PolicyError>(PolicyError::ExecutableNotAllowed)
        } else if !facts.is_file {
            Err::<(), PolicyError>(PolicyError::ExecutableUnavailable)
        } else if !facts.root_only() || facts.mode & 0o111 == 0 {
            Err::<(), PolicyError>(PolicyError::ExecutableUnsafe)
        } else {
            Ok::<(), PolicyError>(())
        }),
{
    if !is_fixed_executable(path) {
        return Err(PolicyError::ExecutableNotAllowed);
    }
    if !facts.is_file {
        return Err(PolicyError::ExecutableUnavailable);
    }
    if !facts.is_root_only() || facts.mode & 0o111 == 0 {
        return Err(PolicyError::ExecutableUnsafe);
    }
    Ok(())
}

/// A temporary file that is removed unless it is kept.
pub struct TemporaryFile {
    pub path: String,
    pub retain: bool,
}

impl TemporaryFile {
    /// A file that is to be removed.
    pub fn new(path: String) -> (r: TemporaryFile)
        ensures
            r.path == path,
            !r.retain,
    {
        TemporaryFile { path, retain: false }
    }

    /// Keeps the file.
    pub fn retain(&mut self)
        ensures
            final(self).retain,
            final(self).path == old(self).path,
    {
        self.retain = true;
    }

    /// Whether the file is removed now.
    pub fn must_remove(&self) -> (r: bool)
        ensures
            r == !self.retain,
    {
        !self.retain
    }
}

/// An extraction directory that is removed unless it is kept; only a directory of an
/// unfinished extraction is ever removed.
pub struct TemporaryDirectory {
    pub path: String,
    pub retain: bool,
}

impl TemporaryDirectory {
    /// A directory that is to be removed.
    pub fn new(path: String) -> (r: TemporaryDirectory)
        ensures
            r.path == path,
            !r.retain,
    {
        TemporaryDirectory { path, retain: false }
    }

    /// Keeps the directory.
    pub fn retain(&mut self)
        ensures
            final(self).retain,
            final(self).path == old(self).path,
    {
        self.retain = true;
    }

    /// Whether the directory is removed now.
    pub fn must_remove(&self) -> (r: bool)
        ensures
            r == (!self.retain && direct_partial_release(self.path@)),
    {
        !self.retain && is_direct_partial_release(self.path.as_str())
    }
}

/// Others can write exactly where the bit of the group or that of everybody else is set; a
/// file is safe where it is root's and neither is.
pub proof fn who_can_write(f: FileFacts)
    ensures
        f.writable_by_others() <==> f.mode & 0o020 != 0 || f.mode & 0o002 != 0,
        f.root_only() <==> f.uid == 0 && f.mode & 0o020 == 0 && f.mode & 0o002 == 0,
        f.regular() ==> f.is_file && !f.is_symlink,
        f.directory() ==> f.is_directory && !f.is_symlink,
{
    let m = f.mode;
    assert((m & 0o022 != 0) <==> (m & 0o020 != 0 || m & 0o002 != 0)) by (bit_vector);
}

proof fn line_breaks_are_dropped(line: Seq<char>, ends: Seq<char>)
    requires
        line.len() > 0 ==> line.last() != '\n' && line.last() != '\r',
        forall|i: int| 0 <= i < ends.len() ==> #[trigger] ends[i] == '\n' || ends[i] == '\r',
    ensures
        without_line_breaks(line + ends) == line,
    decreases ends.len(),
{
    let s = line + ends;
    if ends.len() == 0 {
        assert(s =~= line);
    } else {
        assert(s.last() == ends[ends.len() - 1]);
        assert(s.drop_last() =~= line + ends.drop_last());
        line_breaks_are_dropped(line, ends.drop_last());
    }
}

/// The version file of a release holds the name of its directory, but for a small letter v in
/// front and for line breaks at the end.
pub proof fn the_version_of_a_directory(
    bytes: Seq<u8>,
    line: Seq<char>,
    ends: Seq<char>,
    directory: Seq<char>,
)
    requires
        valid_utf8(bytes),
        decode_utf8(bytes) == line + ends,
        line.len() > 0 ==> line.last() != '\n' && line.last() != '\r',
        forall|i: int| 0 <= i < ends.len() ==> #[trigger] ends[i] == '\n' || ends[i] == '\r',
    ensures
        installed_version_verdict(bytes, directory) is Ok <==> !line.contains('\n')
            && !line.contains('\r') && is_release_name(without_v(line)) && without_v(line)
            == without_v(directory),
{
    line_breaks_are_dropped(line, ends);
}

/// The programs that may be run are three, each under its full path.
pub proof fn programs_that_may_be_run(path: Seq<char>)
    ensures
        allowed_executable(path) <==> seq![
            "/usr/bin/systemctl"@,
            "/usr/bin/apt-get"@,
            "/usr/bin/dpkg-query"@,
        ].contains(path),
{
    let l = seq!["/usr/bin/systemctl"@, "/usr/bin/apt-get"@, "/usr/bin/dpkg-query"@];
    assert(l[0] == "/usr/bin/systemctl"@ && l[1] == "/usr/bin/apt-get"@ && l[2]
        == "/usr/bin/dpkg-query"@);
}

} // verus!

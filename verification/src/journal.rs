//! The records that make an update recoverable: receipts, journals and rollback points.

use vstd::prelude::*;

use crate::digest::{is_sha256_hex, is_sha256_text};
use crate::ids::{parse_uuid, uuid_string, uuid_text, uuid_value};
use crate::packages::{component_text, UpdateComponent};
use crate::paths::{is_same_path, same_path};
use crate::policy::MAX_DATABASE_SNAPSHOT_BYTES;
use crate::semver::{is_release_name, normalized_release_name, without_v};
use crate::status::{
    rollback_point_accepted, PublicRollbackPointStatus, PublicRollbackPointStatusView,
};
use crate::text::{join3, same, views};

verus! {

broadcast use vstd::string::group_string_axioms;

/// A set of components.
#[derive(Clone, Copy, Debug, PartialEq, Eq, Structural)]
pub struct ComponentSet {
    pub vexa_vm: bool,
    pub qemu: bool,
    pub libvirt: bool,
}

impl ComponentSet {
    /// The set that holds the application alone.
    pub open spec fn application_only() -> ComponentSet {
        ComponentSet { vexa_vm: true, qemu: false, libvirt: false }
    }

    /// Whether the set holds the application alone.
    pub fn is_application_only(&self) -> (r: bool)
        ensures
            r == (*self == ComponentSet::application_only()),
    {
        self.vexa_vm && !self.qemu && !self.libvirt
    }
}

/// The active release.
#[derive(Debug, PartialEq, Eq)]
pub struct ActiveRelease {
    pub version: String,
    pub canonical_path: String,
}

/// What a [`ActiveRelease`] holds, with texts as character sequences.
#[verifier::ext_equal]
pub struct ActiveReleaseView {
    pub version: Seq<char>,
    pub canonical_path: Seq<char>,
}

impl View for ActiveRelease {
    type V = ActiveReleaseView;

    open spec fn view(&self) -> ActiveReleaseView {
        ActiveReleaseView {
            version: self.version@,
            canonical_path: self.canonical_path@,
        }
    }
}

impl Clone for ActiveRelease {
    fn clone(&self) -> (r: ActiveRelease)
        ensures
            r@ == self@,
    {
        ActiveRelease {
            version: self.version.clone(),
            canonical_path: self.canonical_path.clone(),
        }
    }
}

/// A consistent copy of the database.
#[derive(Debug, PartialEq, Eq)]
pub struct DatabaseSnapshot {
    pub path: String,
    pub sha256: String,
    pub size_bytes: u64,
}

/// What a [`DatabaseSnapshot`] holds, with texts as character sequences.
#[verifier::ext_equal]
pub struct DatabaseSnapshotView {
    pub path: Seq<char>,
    pub sha256: Seq<char>,
    pub size_bytes: u64,
}

impl View for DatabaseSnapshot {
    type V = DatabaseSnapshotView;

    open spec fn view(&self) -> DatabaseSnapshotView {
        DatabaseSnapshotView {
            path: self.path@,
            sha256: self.sha256@,
            size_bytes: self.size_bytes,
        }
    }
}

impl Clone for DatabaseSnapshot {
    fn clone(&self) -> (r: DatabaseSnapshot)
        ensures
            r@ == self@,
    {
        DatabaseSnapshot {
            path: self.path.clone(),
            sha256: self.sha256.clone(),
            size_bytes: self.size_bytes,
        }
    }
}

/// What is needed to recover from an interrupted activation.
#[derive(Debug, PartialEq, Eq)]
pub struct ActivationRecoveryJournal {
    pub schema_version: u32,
    pub request_id: String,
    pub previous_release: String,
    pub target_release: String,
    pub manifest_sha256: String,
    pub snapshot_path: String,
    pub snapshot_sha256: String,
    pub snapshot_size_bytes: u64,
    pub packages_changed: bool,
    pub created_at: i64,
}

/// What a [`ActivationRecoveryJournal`] holds, with texts as character sequences.
#[verifier::ext_equal]
pub struct ActivationRecoveryJournalView {
    pub schema_version: u32,
    pub request_id: Seq<char>,
    pub previous_release: Seq<char>,
    pub target_release: Seq<char>,
    pub manifest_sha256: Seq<char>,
    pub snapshot_path: Seq<char>,
    pub snapshot_sha256: Seq<char>,
    pub snapshot_size_bytes: u64,
    pub packages_changed: bool,
    pub created_at: i64,
}

impl View for ActivationRecoveryJournal {
    type V = ActivationRecoveryJournalView;

    open spec fn view(&self) -> ActivationRecoveryJournalView {
        ActivationRecoveryJournalView {
            schema_version: self.schema_version,
            request_id: self.request_id@,
            previous_release: self.previous_release@,
            target_release: self.target_release@,
            manifest_sha256: self.manifest_sha256@,
            snapshot_path: self.snapshot_path@,
            snapshot_sha256: self.snapshot_sha256@,
            snapshot_size_bytes: self.snapshot_size_bytes,
            packages_changed: self.packages_changed,
            created_at: self.created_at,
        }
    }
}

impl Clone for ActivationRecoveryJournal {
    fn clone(&self) -> (r: ActivationRecoveryJournal)
        ensures
            r@ == self@,
    {
        ActivationRecoveryJournal {
            schema_version: self.schema_version,
            request_id: self.request_id.clone(),
            previous_release: self.previous_release.clone(),
            target_release: self.target_release.clone(),
            manifest_sha256: self.manifest_sha256.clone(),
            snapshot_path: self.snapshot_path.clone(),
            snapshot_sha256: self.snapshot_sha256.clone(),
            snapshot_size_bytes: self.snapshot_size_bytes,
            packages_changed: self.packages_changed,
            created_at: self.created_at,
        }
    }
}

/// What is needed to recover from an interrupted rollback.
#[derive(Debug, PartialEq, Eq)]
pub struct RollbackRecoveryJournal {
    pub schema_version: u32,
    pub request_id: String,
    pub recover_release: String,
    pub requested_release: String,
    pub snapshot_path: String,
    pub snapshot_sha256: String,
    pub snapshot_size_bytes: u64,
    pub created_at: i64,
}

/// What a [`RollbackRecoveryJournal`] holds, with texts as character sequences.
#[verifier::ext_equal]
pub struct RollbackRecoveryJournalView {
    pub schema_version: u32,
    pub request_id: Seq<char>,
    pub recover_release: Seq<char>,
    pub requested_release: Seq<char>,
    pub snapshot_path: Seq<char>,
    pub snapshot_sha256: Seq<char>,
    pub snapshot_size_bytes: u64,
    pub created_at: i64,
}

impl View for RollbackRecoveryJournal {
    type V = RollbackRecoveryJournalView;

    open spec fn view(&self) -> RollbackRecoveryJournalView {
        RollbackRecoveryJournalView {
            schema_version: self.schema_version,
            request_id: self.request_id@,
            recover_release: self.recover_release@,
            requested_release: self.requested_release@,
            snapshot_path: self.snapshot_path@,
            snapshot_sha256: self.snapshot_sha256@,
            snapshot_size_bytes: self.snapshot_size_bytes,
            created_at: self.created_at,
        }
    }
}

impl Clone for RollbackRecoveryJournal {
    fn clone(&self) -> (r: RollbackRecoveryJournal)
        ensures
            r@ == self@,
    {
        RollbackRecoveryJournal {
            schema_version: self.schema_version,
            request_id: self.request_id.clone(),
            recover_release: self.recover_release.clone(),
            requested_release: self.requested_release.clone(),
            snapshot_path: self.snapshot_path.clone(),
            snapshot_sha256: self.snapshot_sha256.clone(),
            snapshot_size_bytes: self.snapshot_size_bytes,
            created_at: self.created_at,
        }
    }
}

/// The proof that an activation was completed, and the authority to roll it back.
#[derive(Debug, PartialEq, Eq)]
pub struct HelperActivationReceipt {
    pub schema_version: u32,
    pub activation_id: String,
    pub release: String,
    pub previous_release: String,
    pub manifest_sha256: String,
    pub snapshot_path: String,
    pub snapshot_sha256: String,
    pub snapshot_size_bytes: u64,
    pub components: ComponentSet,
    pub completed_at: i64,
}

/// What a [`HelperActivationReceipt`] holds, with texts as character sequences.
#[verifier::ext_equal]
pub struct HelperActivationReceiptView {
    pub schema_version: u32,
    pub activation_id: Seq<char>,
    pub release: Seq<char>,
    pub previous_release: Seq<char>,
    pub manifest_sha256: Seq<char>,
    pub snapshot_path: Seq<char>,
    pub snapshot_sha256: Seq<char>,
    pub snapshot_size_bytes: u64,
    pub components: ComponentSet,
    pub completed_at: i64,
}

impl View for HelperActivationReceipt {
    type V = HelperActivationReceiptView;

    open spec fn view(&self) -> HelperActivationReceiptView {
        HelperActivationReceiptView {
            schema_version: self.schema_version,
            activation_id: self.activation_id@,
            release: self.release@,
            previous_release: self.previous_release@,
            manifest_sha256: self.manifest_sha256@,
            snapshot_path: self.snapshot_path@,
            snapshot_sha256: self.snapshot_sha256@,
            snapshot_size_bytes: self.snapshot_size_bytes,
            components: self.components,
            completed_at: self.completed_at,
        }
    }
}

impl Clone for HelperActivationReceipt {
    fn clone(&self) -> (r: HelperActivationReceipt)
        ensures
            r@ == self@,
    {
        HelperActivationReceipt {
            schema_version: self.schema_version,
            activation_id: self.activation_id.clone(),
            release: self.release.clone(),
            previous_release: self.previous_release.clone(),
            manifest_sha256: self.manifest_sha256.clone(),
            snapshot_path: self.snapshot_path.clone(),
            snapshot_sha256: self.snapshot_sha256.clone(),
            snapshot_size_bytes: self.snapshot_size_bytes,
            components: self.components,
            completed_at: self.completed_at,
        }
    }
}

/// Why a journal was refused.
#[derive(Clone, Copy, Debug, PartialEq, Eq, Structural)]
pub enum JournalError {
    RequestId,
    Identity,
    ReleaseName,
    Snapshot,
    SnapshotChanged,
    Exists,
    Size,
}

/// The records that make an update recoverable.
#[derive(Clone, Copy, Debug, PartialEq, Eq, Structural)]
pub enum RecordKind {
    /// The journal of an activation.
    Activation,
    /// The journal of a rollback.
    Rollback,
    /// The receipt of an activation.
    Receipt,
}

/// The text of each refusal.
pub open spec fn journal_error_text(e: JournalError, kind: RecordKind) -> Seq<char> {
    match (e, kind) {
        (JournalError::RequestId, RecordKind::Activation) =>
            "activation recovery journal request ID must be a UUID"@,
        (JournalError::RequestId, RecordKind::Rollback) =>
            "rollback recovery journal request ID must be a UUID"@,
        (JournalError::RequestId, RecordKind::Receipt) =>
            "activation receipt is invalid"@,
        (JournalError::Identity, RecordKind::Activation) =>
            "activation recovery journal identity is invalid"@,
        (JournalError::Identity, RecordKind::Rollback) =>
            "rollback recovery journal identity is invalid"@,
        (JournalError::Identity, RecordKind::Receipt) =>
            "activation receipt is invalid"@,
        (JournalError::ReleaseName, RecordKind::Activation) =>
            "release version is not a safe semantic version"@,
        (JournalError::ReleaseName, RecordKind::Rollback) =>
            "release version is not a safe semantic version"@,
        (JournalError::ReleaseName, RecordKind::Receipt) =>
            "release version is not a safe semantic version"@,
        (JournalError::Snapshot, RecordKind::Activation) =>
            "activation recovery journal snapshot is invalid"@,
        (JournalError::Snapshot, RecordKind::Rollback) =>
            "rollback recovery journal snapshot is invalid"@,
        (JournalError::Snapshot, RecordKind::Receipt) =>
            "activation receipt is invalid"@,
        (JournalError::SnapshotChanged, RecordKind::Activation) =>
            "activation recovery snapshot no longer matches its journal"@,
        (JournalError::SnapshotChanged, RecordKind::Rollback) =>
            "rollback recovery snapshot no longer matches its journal"@,
        (JournalError::SnapshotChanged, RecordKind::Receipt) =>
            "activation receipt is invalid"@,
        (JournalError::Exists, RecordKind::Activation) =>
            "activation recovery journal already exists"@,
        (JournalError::Exists, RecordKind::Rollback) =>
            "rollback recovery journal already exists"@,
        (JournalError::Exists, RecordKind::Receipt) =>
            "activation receipt already exists"@,
        (JournalError::Size, RecordKind::Activation) =>
            "activation recovery journal is outside its size limit"@,
        (JournalError::Size, RecordKind::Rollback) =>
            "rollback recovery journal is outside its size limit"@,
        (JournalError::Size, RecordKind::Receipt) =>
            "activation receipt exceeded its size limit"@,
    }
}

impl JournalError {
    /// The text shown to an operator.
    pub fn message(&self, kind: RecordKind) -> (r: &'static str)
        ensures
            r@ == journal_error_text(*self, kind),
    {
        match (*self, kind) {
            (JournalError::RequestId, RecordKind::Activation) =>
                "activation recovery journal request ID must be a UUID",
            (JournalError::RequestId, RecordKind::Rollback) =>
                "rollback recovery journal request ID must be a UUID",
            (JournalError::RequestId, RecordKind::Receipt) =>
                "activation receipt is invalid",
            (JournalError::Identity, RecordKind::Activation) =>
                "activation recovery journal identity is invalid",
            (JournalError::Identity, RecordKind::Rollback) =>
                "rollback recovery journal identity is invalid",
            (JournalError::Identity, RecordKind::Receipt) =>
                "activation receipt is invalid",
            (JournalError::ReleaseName, RecordKind::Activation) =>
                "release version is not a safe semantic version",
            (JournalError::ReleaseName, RecordKind::Rollback) =>
                "release version is not a safe semantic version",
            (JournalError::ReleaseName, RecordKind::Receipt) =>
                "release version is not a safe semantic version",
            (JournalError::Snapshot, RecordKind::Activation) =>
                "activation recovery journal snapshot is invalid",
            (JournalError::Snapshot, RecordKind::Rollback) =>
                "rollback recovery journal snapshot is invalid",
            (JournalError::Snapshot, RecordKind::Receipt) =>
                "activation receipt is invalid",
            (JournalError::SnapshotChanged, RecordKind::Activation) =>
                "activation recovery snapshot no longer matches its journal",
            (JournalError::SnapshotChanged, RecordKind::Rollback) =>
                "rollback recovery snapshot no longer matches its journal",
            (JournalError::SnapshotChanged, RecordKind::Receipt) =>
                "activation receipt is invalid",
            (JournalError::Exists, RecordKind::Activation) =>
                "activation recovery journal already exists",
            (JournalError::Exists, RecordKind::Rollback) =>
                "rollback recovery journal already exists",
            (JournalError::Exists, RecordKind::Receipt) =>
                "activation receipt already exists",
            (JournalError::Size, RecordKind::Activation) =>
                "activation recovery journal is outside its size limit",
            (JournalError::Size, RecordKind::Rollback) =>
                "rollback recovery journal is outside its size limit",
            (JournalError::Size, RecordKind::Receipt) =>
                "activation receipt exceeded its size limit",
        }
    }
}

/// Where a journal or snapshot of a request lies.
pub open spec fn request_file(root: Seq<char>, id: u128, suffix: Seq<char>) -> Seq<char> {
    root + "/"@ + (uuid_text(id) + suffix)
}

/// The path of a file that is named after a request.
pub fn request_path(root: &str, id: u128, suffix: &str) -> (r: String)
    ensures
        r@ == request_file(root@, id, suffix@),
{
    let name = uuid_string(id);
    let file = crate::text::join2(name.as_str(), suffix);
    join3(root, "/", file.as_str())
}

/// The identity part of the verdict on a journal.
pub open spec fn journal_identity(
    schema_version: u32,
    journal_id: Seq<char>,
    created_at: i64,
    request_id: u128,
) -> Result<(), JournalError> {
    if schema_version != 1 {
        Err(JournalError::Identity)
    } else {
        match uuid_value(journal_id) {
            None => Err(JournalError::RequestId),
            Some(v) => if v != request_id || created_at <= 0 {
                Err(JournalError::Identity)
            } else {
                Ok(())
            },
        }
    }
}

fn check_identity(schema_version: u32, journal_id: &str, created_at: i64, request_id: u128) -> (r:
    Result<(), JournalError>)
    ensures
        r == journal_identity(schema_version, journal_id@, created_at, request_id),
{
    if schema_version != 1 {
        return Err(JournalError::Identity);
    }
    match parse_uuid(journal_id) {
        None => Err(JournalError::RequestId),
        Some(v) => {
            if v != request_id || created_at <= 0 {
                return Err(JournalError::Identity);
            }
            Ok(())
        },
    }
}

/// The size of a snapshot is within its limits.
pub open spec fn snapshot_size_ok(size: u64) -> bool {
    0 < size <= MAX_DATABASE_SNAPSHOT_BYTES
}

/// The verdict on an activation journal, apart from the snapshot itself.
pub open spec fn activation_journal_verdict(
    j: ActivationRecoveryJournalView,
    request_id: u128,
    rollback_root: Seq<char>,
) -> Result<(), JournalError> {
    match journal_identity(j.schema_version, j.request_id, j.created_at, request_id) {
        Err(e) => Err(e),
        Ok(_) => if !is_release_name(without_v(j.previous_release)) || !is_release_name(
            without_v(j.target_release),
        ) {
            Err(JournalError::ReleaseName)
        } else if !same_path(
            j.snapshot_path,
            request_file(rollback_root, request_id, ".sqlite3"@),
        ) || !snapshot_size_ok(j.snapshot_size_bytes) || !is_sha256_text(j.snapshot_sha256)
            || !is_sha256_text(j.manifest_sha256) {
            Err(JournalError::Snapshot)
        } else {
            Ok(())
        },
    }
}

/// Checks an activation journal, apart from the snapshot itself.
pub fn validate_recovery_journal(
    request_id: u128,
    journal: &ActivationRecoveryJournal,
    rollback_root: &str,
) -> (r: Result<(), JournalError>)
    ensures
        r == activation_journal_verdict(journal@, request_id, rollback_root@),
{
    match check_identity(
        journal.schema_version,
        journal.request_id.as_str(),
        journal.created_at,
        request_id,
    ) {
        Err(e) => {
            return Err(e);
        },
        Ok(()) => {},
    }
    if normalized_release_name(journal.previous_release.as_str()).is_err()
        || normalized_release_name(journal.target_release.as_str()).is_err() {
        return Err(JournalError::ReleaseName);
    }
    let expected = request_path(rollback_root, request_id, ".sqlite3");
    if !is_same_path(journal.snapshot_path.as_str(), expected.as_str()) || journal.snapshot_size_bytes == 0
        || journal.snapshot_size_bytes > MAX_DATABASE_SNAPSHOT_BYTES || !is_sha256_hex(
        journal.snapshot_sha256.as_str(),
    ) || !is_sha256_hex(journal.manifest_sha256.as_str()) {
        return Err(JournalError::Snapshot);
    }
    Ok(())
}

/// The verdict on a rollback journal, apart from the snapshot itself.
pub open spec fn rollback_journal_verdict(
    j: RollbackRecoveryJournalView,
    request_id: u128,
    rollback_root: Seq<char>,
) -> Result<(), JournalError> {
    match journal_identity(j.schema_version, j.request_id, j.created_at, request_id) {
        Err(e) => Err(e),
        Ok(_) => if !is_release_name(without_v(j.recover_release)) || !is_release_name(
            without_v(j.requested_release),
        ) {
            Err(JournalError::ReleaseName)
        } else if !same_path(
            j.snapshot_path,
            request_file(rollback_root, request_id, ".pre-rollback.sqlite3"@),
        ) || !snapshot_size_ok(j.snapshot_size_bytes) || !is_sha256_text(j.snapshot_sha256) {
            Err(JournalError::Snapshot)
        } else {
            Ok(())
        },
    }
}

/// Checks a rollback journal, apart from the snapshot itself.
pub fn validate_rollback_recovery_journal(
    request_id: u128,
    journal: &RollbackRecoveryJournal,
    rollback_root: &str,
) -> (r: Result<(), JournalError>)
    ensures
        r == rollback_journal_verdict(journal@, request_id, rollback_root@),
{
    match check_identity(
        journal.schema_version,
        journal.request_id.as_str(),
        journal.created_at,
        request_id,
    ) {
        Err(e) => {
            return Err(e);
        },
        Ok(()) => {},
    }
    if normalized_release_name(journal.recover_release.as_str()).is_err()
        || normalized_release_name(journal.requested_release.as_str()).is_err() {
        return Err(JournalError::ReleaseName);
    }
    let expected = request_path(rollback_root, request_id, ".pre-rollback.sqlite3");
    if !is_same_path(journal.snapshot_path.as_str(), expected.as_str()) || journal.snapshot_size_bytes == 0
        || journal.snapshot_size_bytes > MAX_DATABASE_SNAPSHOT_BYTES || !is_sha256_hex(
        journal.snapshot_sha256.as_str(),
    ) {
        return Err(JournalError::Snapshot);
    }
    Ok(())
}

/// Checks a snapshot on disk against what a journal recorded of it.
pub fn check_journal_snapshot(
    recorded_size: u64,
    recorded_sha256: &str,
    size: u64,
    sha256: &str,
) -> (r: Result<(), JournalError>)
    ensures
        r == (if size == recorded_size && sha256@ == recorded_sha256@ {
            Ok::<(), JournalError>(())
        } else {
            Err::<(), JournalError>(JournalError::SnapshotChanged)
        }),
{
    if size != recorded_size || !same(sha256, recorded_sha256) {
        return Err(JournalError::SnapshotChanged);
    }
    Ok(())
}

/// Whether an encoded journal or receipt may be written to a new file.
pub fn check_new_journal(exists: bool, encoded_len: u64) -> (r: Result<(), JournalError>)
    ensures
        r == (if exists {
            Err::<(), JournalError>(JournalError::Exists)
        } else if encoded_len == 0 || encoded_len > crate::policy::MAX_RECEIPT_BYTES {
            Err::<(), JournalError>(JournalError::Size)
        } else {
            Ok::<(), JournalError>(())
        }),
{
    if exists {
        return Err(JournalError::Exists);
    }
    if encoded_len == 0 || encoded_len > crate::policy::MAX_RECEIPT_BYTES {
        return Err(JournalError::Size);
    }
    Ok(())
}

/// Whether a receipt is that of the activation that a journal describes.
pub open spec fn receipt_matches(
    j: ActivationRecoveryJournalView,
    r: HelperActivationReceiptView,
) -> Result<bool, JournalError> {
    if r.schema_version != 1 || r.activation_id != j.request_id {
        Ok(false)
    } else if !is_release_name(without_v(r.release)) || !is_release_name(
        without_v(j.target_release),
    ) {
        Err(JournalError::ReleaseName)
    } else if without_v(r.release) != without_v(j.target_release) {
        Ok(false)
    } else if !is_release_name(without_v(r.previous_release)) || !is_release_name(
        without_v(j.previous_release),
    ) {
        Err(JournalError::ReleaseName)
    } else {
        Ok(
            without_v(r.previous_release) == without_v(j.previous_release) && r.manifest_sha256
                == j.manifest_sha256 && same_path(r.snapshot_path, j.snapshot_path) && r.snapshot_sha256
                == j.snapshot_sha256 && r.snapshot_size_bytes == j.snapshot_size_bytes
                && r.components == ComponentSet::application_only(),
        )
    }
}

/// Whether a receipt is that of the activation that a journal describes; without a
/// receipt the activation was not completed.
pub fn activation_receipt_matches(
    journal: &ActivationRecoveryJournal,
    receipt: Option<&HelperActivationReceipt>,
) -> (r: Result<bool, JournalError>)
    ensures
        r == (if uuid_value(journal@.request_id) is None {
            Err::<bool, JournalError>(JournalError::RequestId)
        } else {
            match receipt {
                None => Ok::<bool, JournalError>(false),
                Some(x) => receipt_matches(journal@, x@),
            }
        }),
{
    if parse_uuid(journal.request_id.as_str()).is_none() {
        return Err(JournalError::RequestId);
    }
    let receipt = match receipt {
        None => {
            return Ok(false);
        },
        Some(receipt) => receipt,
    };
    if receipt.schema_version != 1 || !same(
        receipt.activation_id.as_str(),
        journal.request_id.as_str(),
    ) {
        return Ok(false);
    }
    let (release, target) = match (
        normalized_release_name(receipt.release.as_str()),
        normalized_release_name(journal.target_release.as_str()),
    ) {
        (Ok(a), Ok(b)) => (a, b),
        _ => {
            return Err(JournalError::ReleaseName);
        },
    };
    if !same(release.as_str(), target.as_str()) {
        return Ok(false);
    }
    let (previous, recorded) = match (
        normalized_release_name(receipt.previous_release.as_str()),
        normalized_release_name(journal.previous_release.as_str()),
    ) {
        (Ok(a), Ok(b)) => (a, b),
        _ => {
            return Err(JournalError::ReleaseName);
        },
    };
    Ok(
        same(previous.as_str(), recorded.as_str()) && same(
            receipt.manifest_sha256.as_str(),
            journal.manifest_sha256.as_str(),
        ) && is_same_path(receipt.snapshot_path.as_str(), journal.snapshot_path.as_str()) && same(
            receipt.snapshot_sha256.as_str(),
            journal.snapshot_sha256.as_str(),
        ) && receipt.snapshot_size_bytes == journal.snapshot_size_bytes
            && receipt.components.is_application_only(),
    )
}

/// The journal that is written before an activation changes the host.
pub open spec fn activation_journal_spec(
    request_id: u128,
    active: ActiveReleaseView,
    target: Seq<char>,
    manifest_sha256: Seq<char>,
    snapshot: DatabaseSnapshotView,
    packages_changed: bool,
    now: i64,
) -> ActivationRecoveryJournalView {
    ActivationRecoveryJournalView {
        schema_version: 1,
        request_id: uuid_text(request_id),
        previous_release: active.version,
        target_release: target,
        manifest_sha256,
        snapshot_path: snapshot.path,
        snapshot_sha256: snapshot.sha256,
        snapshot_size_bytes: snapshot.size_bytes,
        packages_changed,
        created_at: now,
    }
}

/// The journal that is written before an activation changes the host.
pub fn activation_journal(
    request_id: u128,
    active: &ActiveRelease,
    target: &str,
    manifest_sha256: &str,
    snapshot: &DatabaseSnapshot,
    packages_changed: bool,
    now: i64,
) -> (r: ActivationRecoveryJournal)
    ensures
        r@ == activation_journal_spec(
            request_id,
            active@,
            target@,
            manifest_sha256@,
            snapshot@,
            packages_changed,
            now,
        ),
        uuid_value(r@.request_id) == Some(request_id),
{
    ActivationRecoveryJournal {
        schema_version: 1,
        request_id: uuid_string(request_id),
        previous_release: active.version.clone(),
        target_release: target.to_owned(),
        manifest_sha256: manifest_sha256.to_owned(),
        snapshot_path: snapshot.path.clone(),
        snapshot_sha256: snapshot.sha256.clone(),
        snapshot_size_bytes: snapshot.size_bytes,
        packages_changed,
        created_at: now,
    }
}

/// The receipt that completes an activation.
pub open spec fn activation_receipt_spec(
    request_id: u128,
    release: Seq<char>,
    active: ActiveReleaseView,
    manifest_sha256: Seq<char>,
    snapshot: DatabaseSnapshotView,
    now: i64,
) -> HelperActivationReceiptView {
    HelperActivationReceiptView {
        schema_version: 1,
        activation_id: uuid_text(request_id),
        release,
        previous_release: active.version,
        manifest_sha256,
        snapshot_path: snapshot.path,
        snapshot_sha256: snapshot.sha256,
        snapshot_size_bytes: snapshot.size_bytes,
        components: ComponentSet::application_only(),
        completed_at: now,
    }
}

/// The receipt that completes an activation.
pub fn write_activation_receipt(
    request_id: u128,
    release: &str,
    active: &ActiveRelease,
    manifest_sha256: &str,
    snapshot: &DatabaseSnapshot,
    now: i64,
) -> (r: HelperActivationReceipt)
    ensures
        r@ == activation_receipt_spec(
            request_id,
            release@,
            active@,
            manifest_sha256@,
            snapshot@,
            now,
        ),
{
    HelperActivationReceipt {
        schema_version: 1,
        activation_id: uuid_string(request_id),
        release: release.to_owned(),
        previous_release: active.version.clone(),
        manifest_sha256: manifest_sha256.to_owned(),
        snapshot_path: snapshot.path.clone(),
        snapshot_sha256: snapshot.sha256.clone(),
        snapshot_size_bytes: snapshot.size_bytes,
        components: ComponentSet { vexa_vm: true, qemu: false, libvirt: false },
        completed_at: now,
    }
}

/// The rollback point that a completed activation offers.
pub open spec fn rollback_point_spec(
    activation_id: u128,
    release: Seq<char>,
    previous_release: Seq<char>,
    manifest_sha256: Seq<char>,
    snapshot_sha256: Seq<char>,
    snapshot_size_bytes: u64,
) -> PublicRollbackPointStatusView {
    PublicRollbackPointStatusView {
        activation_id: uuid_text(activation_id),
        release,
        previous_release,
        manifest_sha256,
        snapshot_sha256,
        snapshot_size_bytes,
        components: seq![component_text(UpdateComponent::VexaVm)],
    }
}

/// The rollback point that a completed activation offers.
pub fn public_rollback_point(
    activation_id: u128,
    release: &str,
    previous_release: &str,
    manifest_sha256: &str,
    snapshot_sha256: &str,
    snapshot_size_bytes: u64,
) -> (r: PublicRollbackPointStatus)
    ensures
        r@ == rollback_point_spec(
            activation_id,
            release@,
            previous_release@,
            manifest_sha256@,
            snapshot_sha256@,
            snapshot_size_bytes,
        ),
{
    let mut components: Vec<String> = Vec::new();
    components.push(UpdateComponent::VexaVm.as_str().to_owned());
    proof {
        assert(views(components@) =~= seq![component_text(UpdateComponent::VexaVm)]);
    }
    PublicRollbackPointStatus {
        activation_id: uuid_string(activation_id),
        release: release.to_owned(),
        previous_release: previous_release.to_owned(),
        manifest_sha256: manifest_sha256.to_owned(),
        snapshot_sha256: snapshot_sha256.to_owned(),
        snapshot_size_bytes,
        components,
    }
}

/// The journal that is written before a rollback changes the host.
pub fn rollback_journal(
    request_id: u128,
    active: &ActiveRelease,
    requested_release: &str,
    snapshot: &DatabaseSnapshot,
    now: i64,
) -> (r: RollbackRecoveryJournal)
    ensures
        r@ == (RollbackRecoveryJournalView {
            schema_version: 1,
            request_id: uuid_text(request_id),
            recover_release: active@.version,
            requested_release: requested_release@,
            snapshot_path: snapshot@.path,
            snapshot_sha256: snapshot@.sha256,
            snapshot_size_bytes: snapshot@.size_bytes,
            created_at: now,
        }),
        uuid_value(r@.request_id) == Some(request_id),
{
    RollbackRecoveryJournal {
        schema_version: 1,
        request_id: uuid_string(request_id),
        recover_release: active.version.clone(),
        requested_release: requested_release.to_owned(),
        snapshot_path: snapshot.path.clone(),
        snapshot_sha256: snapshot.sha256.clone(),
        snapshot_size_bytes: snapshot.size_bytes,
        created_at: now,
    }
}

/// The journal of an activation is accepted by the recovery of that activation, and the
/// receipt that the activation writes matches it.
pub proof fn journal_and_receipt_agree(
    request_id: u128,
    release: Seq<char>,
    active: ActiveReleaseView,
    manifest_sha256: Seq<char>,
    snapshot: DatabaseSnapshotView,
    packages_changed: bool,
    now: i64,
    receipt_time: i64,
    rollback_root: Seq<char>,
)
    requires
        is_release_name(without_v(release)),
        is_release_name(active.version),
        active.version == without_v(active.version),
        is_sha256_text(manifest_sha256),
        is_sha256_text(snapshot.sha256),
        snapshot_size_ok(snapshot.size_bytes),
        snapshot.path == request_file(rollback_root, request_id, ".sqlite3"@),
        now > 0,
        uuid_value(uuid_text(request_id)) == Some(request_id),
    ensures
        ({
            let journal = activation_journal_spec(
                request_id,
                active,
                without_v(release),
                manifest_sha256,
                snapshot,
                packages_changed,
                now,
            );
            let receipt = activation_receipt_spec(
                request_id,
                release,
                active,
                manifest_sha256,
                snapshot,
                receipt_time,
            );
            &&& activation_journal_verdict(journal, request_id, rollback_root) is Ok
            &&& receipt_matches(journal, receipt) == Ok::<bool, JournalError>(true)
        }),
{
    crate::semver::normalized_names_are_stable(release);
}

/// The rollback point of an activation with a valid plan is accepted by the status record.
pub proof fn rollback_point_is_accepted(
    activation_id: u128,
    release: Seq<char>,
    previous_release: Seq<char>,
    manifest_sha256: Seq<char>,
    snapshot: DatabaseSnapshotView,
)
    requires
        is_release_name(release),
        is_release_name(previous_release),
        is_sha256_text(manifest_sha256),
        is_sha256_text(snapshot.sha256),
        snapshot_size_ok(snapshot.size_bytes),
    ensures
        rollback_point_accepted(
            rollback_point_spec(
                activation_id,
                release,
                previous_release,
                manifest_sha256,
                snapshot.sha256,
                snapshot.size_bytes,
            ),
        ),
{
    crate::ids::uuid_text_shape(activation_id);
    crate::semver::semver_alphabet(release);
    crate::semver::semver_alphabet(previous_release);
    crate::digest::sha256_text_bytes(manifest_sha256);
    crate::digest::sha256_text_bytes(snapshot.sha256);
}

/// A text is a digest: sixty-four hexadecimal digits with small letters.
pub open spec fn is_digest(s: Seq<char>) -> bool {
    &&& s.len() == 64
    &&& forall|i: int| 0 <= i < 64 ==> '0' <= #[trigger] s[i] <= '9' || 'a' <= s[i] <= 'f'
}

proof fn digests(s: Seq<char>)
    ensures
        is_sha256_text(s) <==> is_digest(s),
{
    if is_sha256_text(s) {
        assert forall|i: int| 0 <= i < 64 implies '0' <= #[trigger] s[i] <= '9' || 'a' <= s[i]
            <= 'f' by {
            assert(crate::digest::is_hex_digit(s[i]));
        }
    }
    if is_digest(s) {
        assert forall|i: int| 0 <= i < s.len() implies crate::digest::is_hex_digit(
            #[trigger] s[i],
        ) by {}
    }
}

/// A journal of an activation is accepted exactly where it is of the known form, belongs to
/// the request, has a time, names two releases, and names the snapshot of the request with its
/// size and the two digests.
pub proof fn accepted_activation_journals(
    j: ActivationRecoveryJournalView,
    request_id: u128,
    rollback_root: Seq<char>,
)
    ensures
        activation_journal_verdict(j, request_id, rollback_root) is Ok <==> j.schema_version == 1
            && uuid_value(j.request_id) == Some(request_id) && j.created_at > 0 && is_release_name(
            without_v(j.previous_release),
        ) && is_release_name(without_v(j.target_release)) && same_path(
            j.snapshot_path,
            rollback_root + "/"@ + (uuid_text(request_id) + ".sqlite3"@),
        ) && j.snapshot_size_bytes > 0 && j.snapshot_size_bytes <= MAX_DATABASE_SNAPSHOT_BYTES
            && is_digest(j.snapshot_sha256) && is_digest(j.manifest_sha256),
{
    digests(j.snapshot_sha256);
    digests(j.manifest_sha256);
}

/// A journal of a rollback is accepted exactly where it is of the known form, belongs to the
/// request, has a time, names two releases, and names the snapshot that was made before the
/// rollback with its size and its digest.
pub proof fn accepted_rollback_journals(
    j: RollbackRecoveryJournalView,
    request_id: u128,
    rollback_root: Seq<char>,
)
    ensures
        rollback_journal_verdict(j, request_id, rollback_root) is Ok <==> j.schema_version == 1
            && uuid_value(j.request_id) == Some(request_id) && j.created_at > 0 && is_release_name(
            without_v(j.recover_release),
        ) && is_release_name(without_v(j.requested_release)) && same_path(
            j.snapshot_path,
            rollback_root + "/"@ + (uuid_text(request_id) + ".pre-rollback.sqlite3"@),
        ) && j.snapshot_size_bytes > 0 && j.snapshot_size_bytes <= MAX_DATABASE_SNAPSHOT_BYTES
            && is_digest(j.snapshot_sha256),
{
    digests(j.snapshot_sha256);
}

/// A receipt goes with a journal exactly where it is of the known form and of the same
/// activation, names the same two releases, the same manifest and the same snapshot, and is of
/// the application alone.
pub proof fn a_receipt_goes_with_its_journal(
    j: ActivationRecoveryJournalView,
    r: HelperActivationReceiptView,
)
    requires
        is_release_name(without_v(j.target_release)),
        is_release_name(without_v(j.previous_release)),
    ensures
        receipt_matches(j, r) == Ok::<bool, JournalError>(true) <==> r.schema_version == 1
            && r.activation_id == j.request_id && without_v(r.release) == without_v(
            j.target_release,
        ) && without_v(r.previous_release) == without_v(j.previous_release) && r.manifest_sha256
            == j.manifest_sha256 && same_path(r.snapshot_path, j.snapshot_path) && r.snapshot_sha256
            == j.snapshot_sha256 && r.snapshot_size_bytes == j.snapshot_size_bytes
            && r.components.vexa_vm && !r.components.qemu && !r.components.libvirt,
{
}

/// A journal and a receipt hold what they are made from.
pub proof fn records_hold_what_they_are_made_from(
    request_id: u128,
    active: ActiveReleaseView,
    release: Seq<char>,
    manifest_sha256: Seq<char>,
    snapshot: DatabaseSnapshotView,
    packages_changed: bool,
    now: i64,
)
    ensures
        ({
            let j = activation_journal_spec(
                request_id,
                active,
                release,
                manifest_sha256,
                snapshot,
                packages_changed,
                now,
            );
            let r = activation_receipt_spec(
                request_id,
                release,
                active,
                manifest_sha256,
                snapshot,
                now,
            );
            let p = rollback_point_spec(
                request_id,
                release,
                active.version,
                manifest_sha256,
                snapshot.sha256,
                snapshot.size_bytes,
            );
            &&& j.request_id == uuid_text(request_id) && r.activation_id == uuid_text(request_id)
                && p.activation_id == uuid_text(request_id)
            &&& j.schema_version == 1 && r.schema_version == 1
            &&& j.previous_release == active.version && r.previous_release == active.version
                && p.previous_release == active.version
            &&& j.target_release == release && r.release == release && p.release == release
            &&& j.manifest_sha256 == manifest_sha256 && r.manifest_sha256 == manifest_sha256
                && p.manifest_sha256 == manifest_sha256
            &&& j.snapshot_path == snapshot.path && r.snapshot_path == snapshot.path
            &&& j.snapshot_sha256 == snapshot.sha256 && r.snapshot_sha256 == snapshot.sha256
                && p.snapshot_sha256 == snapshot.sha256
            &&& j.snapshot_size_bytes == snapshot.size_bytes && r.snapshot_size_bytes
                == snapshot.size_bytes && p.snapshot_size_bytes == snapshot.size_bytes
            &&& j.packages_changed == packages_changed
            &&& j.created_at == now && r.completed_at == now
            &&& r.components == (ComponentSet { vexa_vm: true, qemu: false, libvirt: false })
            &&& p.components == seq!["vexa_vm"@]
        }),
{
}

} // verus!

//! What the update helper writes into the status record: every phase and every outcome,
//! with its wording.

use vstd::prelude::*;

use crate::ids::ClockError;
use crate::status::{
    finished, phase_accepted, with_operation, with_phase, with_rollback, without_rollback_point,
    DurableUpdateStatus, DurableUpdateStatusView, RollbackStatusView, StatusWriter, UpdateOutcome,
};

verus! {

broadcast use vstd::string::group_string_axioms;

/// A phase of an update.
#[derive(Clone, Copy, Debug, PartialEq, Eq, Structural)]
pub enum Phase {
    Extracting,
    Packages,
    DatabaseBackup,
    Activating,
    RecordingReceipt,
    Restarting,
    AutomaticRollback,
    RollbackBackup,
    RollingBack,
    RollbackRecovery,
    InterruptedRecovery,
    InterruptedRecoveryWithPackages,
    InterruptedRollbackRecovery,
}

/// How an update ended.
#[derive(Clone, Copy, Debug, PartialEq, Eq, Structural)]
pub enum Ending {
    Completed,
    PackageUpdateFailed,
    PostPackageBackupFailed,
    PostPackageJournalFailed,
    PostPackageHealthFailed,
    PackageSnapshotCleanupFailed,
    RolledBack,
    RolledBackWithPackages,
    RollbackFailed,
    RollbackCompleted,
    RollbackCompletedWithWarnings,
    RollbackCommitNotRecorded,
    RollbackCommitRecoveryFailed,
    RollbackFailedRecovered,
    RollbackRecoveryFailed,
    RecoveredCommitted,
    RecoveredRollback,
    Interrupted,
    InterruptedRecoveryFailed,
    RequestRejected,
    Failed,
}

/// The name of each phase.
pub open spec fn phase_name(p: Phase) -> Seq<char> {
    match p {
        Phase::Extracting => "extracting"@,
        Phase::Packages => "packages"@,
        Phase::DatabaseBackup => "database_backup"@,
        Phase::Activating => "activating"@,
        Phase::RecordingReceipt => "recording_receipt"@,
        Phase::Restarting => "restarting"@,
        Phase::AutomaticRollback => "automatic_rollback"@,
        Phase::RollbackBackup => "rollback_backup"@,
        Phase::RollingBack => "rolling_back"@,
        Phase::RollbackRecovery => "rollback_recovery"@,
        Phase::InterruptedRecovery => "interrupted_recovery"@,
        Phase::InterruptedRecoveryWithPackages => "interrupted_recovery"@,
        Phase::InterruptedRollbackRecovery => "interrupted_rollback_recovery"@,
    }
}

/// How far an update has come in each phase, in percent.
pub open spec fn phase_percent(p: Phase) -> u8 {
    match p {
        Phase::Extracting => 25,
        Phase::Packages => 45,
        Phase::DatabaseBackup => 60,
        Phase::Activating => 70,
        Phase::RecordingReceipt => 94,
        Phase::Restarting => 75,
        Phase::AutomaticRollback => 90,
        Phase::RollbackBackup => 20,
        Phase::RollingBack => 55,
        Phase::RollbackRecovery => 82,
        Phase::InterruptedRecovery => 35,
        Phase::InterruptedRecoveryWithPackages => 35,
        Phase::InterruptedRollbackRecovery => 35,
    }
}

/// The message of each phase.
pub open spec fn phase_message(p: Phase) -> Seq<char> {
    match p {
        Phase::Extracting => "Verifying and extracting the signed application archive"@,
        Phase::Packages => "Applying exact signed operating-system package versions"@,
        Phase::DatabaseBackup => "Creating a consistent pre-activation SQLite backup"@,
        Phase::Activating => "Atomically switching the active Vexa-VM release"@,
        Phase::RecordingReceipt => "Recording the immutable application rollback point"@,
        Phase::Restarting => "Restarting Vexa-VM after the approved package changes"@,
        Phase::AutomaticRollback =>
            "The new application failed readiness checks; restoring the prior release"@,
        Phase::RollbackBackup => "Backing up the currently active database before rollback"@,
        Phase::RollingBack => "Restoring the selected application release and matching database"@,
        Phase::RollbackRecovery =>
            "Rollback health checks failed; restoring the release active before this request"@,
        Phase::InterruptedRecovery =>
            "Reconciling a previously interrupted application activation"@,
        Phase::InterruptedRecoveryWithPackages =>
            "Reconciling an interrupted application activation; completed distribution package changes will remain installed"@,
        Phase::InterruptedRollbackRecovery =>
            "Restoring the application and database active before an interrupted rollback request"@,
    }
}

/// The outcome that each ending records.
pub open spec fn ending_outcome(e: Ending) -> UpdateOutcome {
    match e {
        Ending::Completed => UpdateOutcome::Succeeded,
        Ending::PackageUpdateFailed => UpdateOutcome::NeedsIntervention,
        Ending::PostPackageBackupFailed => UpdateOutcome::NeedsIntervention,
        Ending::PostPackageJournalFailed => UpdateOutcome::NeedsIntervention,
        Ending::PostPackageHealthFailed => UpdateOutcome::NeedsIntervention,
        Ending::PackageSnapshotCleanupFailed => UpdateOutcome::NeedsIntervention,
        Ending::RolledBack => UpdateOutcome::RolledBack,
        Ending::RolledBackWithPackages => UpdateOutcome::RolledBack,
        Ending::RollbackFailed => UpdateOutcome::NeedsIntervention,
        Ending::RollbackCompleted => UpdateOutcome::Succeeded,
        Ending::RollbackCompletedWithWarnings => UpdateOutcome::Succeeded,
        Ending::RollbackCommitNotRecorded => UpdateOutcome::Failed,
        Ending::RollbackCommitRecoveryFailed => UpdateOutcome::NeedsIntervention,
        Ending::RollbackFailedRecovered => UpdateOutcome::Failed,
        Ending::RollbackRecoveryFailed => UpdateOutcome::NeedsIntervention,
        Ending::RecoveredCommitted => UpdateOutcome::Succeeded,
        Ending::RecoveredRollback => UpdateOutcome::RolledBack,
        Ending::Interrupted => UpdateOutcome::NeedsIntervention,
        Ending::InterruptedRecoveryFailed => UpdateOutcome::NeedsIntervention,
        Ending::RequestRejected => UpdateOutcome::Failed,
        Ending::Failed => UpdateOutcome::Failed,
    }
}

/// The phase name that each ending records.
pub open spec fn ending_name(e: Ending) -> Seq<char> {
    match e {
        Ending::Completed => "completed"@,
        Ending::PackageUpdateFailed => "package_update_failed"@,
        Ending::PostPackageBackupFailed => "post_package_backup_failed"@,
        Ending::PostPackageJournalFailed => "post_package_journal_failed"@,
        Ending::PostPackageHealthFailed => "post_package_health_failed"@,
        Ending::PackageSnapshotCleanupFailed => "package_snapshot_cleanup_failed"@,
        Ending::RolledBack => "rolled_back"@,
        Ending::RolledBackWithPackages => "rolled_back"@,
        Ending::RollbackFailed => "rollback_failed"@,
        Ending::RollbackCompleted => "completed"@,
        Ending::RollbackCompletedWithWarnings => "completed_with_warnings"@,
        Ending::RollbackCommitNotRecorded => "rollback_commit_not_recorded"@,
        Ending::RollbackCommitRecoveryFailed => "rollback_commit_recovery_failed"@,
        Ending::RollbackFailedRecovered => "rollback_failed_recovered"@,
        Ending::RollbackRecoveryFailed => "rollback_recovery_failed"@,
        Ending::RecoveredCommitted => "recovered_committed"@,
        Ending::RecoveredRollback => "recovered_rollback"@,
        Ending::Interrupted => "interrupted"@,
        Ending::InterruptedRecoveryFailed => "interrupted_recovery_failed"@,
        Ending::RequestRejected => "request_rejected"@,
        Ending::Failed => "failed"@,
    }
}

/// The message of each ending.
pub open spec fn ending_message(e: Ending) -> Seq<char> {
    match e {
        Ending::Completed => "The approved update completed and readiness checks passed"@,
        Ending::PackageUpdateFailed =>
            "A distribution package update failed; inspect dpkg/APT before retrying"@,
        Ending::PostPackageBackupFailed =>
            "Package changes completed, but the application database backup failed"@,
        Ending::PostPackageJournalFailed =>
            "Package changes completed, but the application recovery journal could not be created"@,
        Ending::PostPackageHealthFailed =>
            "Package changes completed, but panel readiness did not recover"@,
        Ending::PackageSnapshotCleanupFailed =>
            "Package changes completed, but their temporary database snapshot requires operator cleanup"@,
        Ending::RolledBack => "The prior application and database were restored automatically"@,
        Ending::RolledBackWithPackages =>
            "The prior application and database were restored; signed package upgrades remain installed"@,
        Ending::RollbackFailed =>
            "The new release failed and automatic restoration also failed; operator intervention is required"@,
        Ending::RollbackCompleted =>
            "The prior application release and database were restored successfully"@,
        Ending::RollbackCompletedWithWarnings =>
            "The prior application release and database were restored successfully; stale rollback metadata cleanup requires operator attention"@,
        Ending::RollbackCommitNotRecorded =>
            "The rollback passed readiness but its commit status could not be recorded, so the original release was restored"@,
        Ending::RollbackCommitRecoveryFailed =>
            "Rollback status persistence and restoration of the original release both failed; operator intervention is required"@,
        Ending::RollbackFailedRecovered =>
            "The requested rollback failed, but the original release was recovered"@,
        Ending::RollbackRecoveryFailed =>
            "Rollback and recovery both failed; operator intervention is required"@,
        Ending::RecoveredCommitted =>
            "A committed activation was recovered after the helper was interrupted"@,
        Ending::RecoveredRollback =>
            "An interrupted application operation was restored to its prior application and database"@,
        Ending::Interrupted =>
            "An interrupted non-application update was quarantined; inspect package-manager state"@,
        Ending::InterruptedRecoveryFailed =>
            "An interrupted activation could not be recovered automatically"@,
        Ending::RequestRejected => "The request could not be consumed exactly once"@,
        Ending::Failed => "The update failed before activation completed"@,
    }
}

impl Phase {
    /// The name of the phase.
    pub fn name(&self) -> (r: &'static str)
        ensures
            r@ == phase_name(*self),
    {
        match self {
            Phase::Extracting => "extracting",
            Phase::Packages => "packages",
            Phase::DatabaseBackup => "database_backup",
            Phase::Activating => "activating",
            Phase::RecordingReceipt => "recording_receipt",
            Phase::Restarting => "restarting",
            Phase::AutomaticRollback => "automatic_rollback",
            Phase::RollbackBackup => "rollback_backup",
            Phase::RollingBack => "rolling_back",
            Phase::RollbackRecovery => "rollback_recovery",
            Phase::InterruptedRecovery => "interrupted_recovery",
            Phase::InterruptedRecoveryWithPackages => "interrupted_recovery",
            Phase::InterruptedRollbackRecovery => "interrupted_rollback_recovery",
        }
    }

    /// The message of the phase.
    pub fn message(&self) -> (r: &'static str)
        ensures
            r@ == phase_message(*self),
    {
        match self {
            Phase::Extracting => "Verifying and extracting the signed application archive",
            Phase::Packages => "Applying exact signed operating-system package versions",
            Phase::DatabaseBackup => "Creating a consistent pre-activation SQLite backup",
            Phase::Activating => "Atomically switching the active Vexa-VM release",
            Phase::RecordingReceipt => "Recording the immutable application rollback point",
            Phase::Restarting => "Restarting Vexa-VM after the approved package changes",
            Phase::AutomaticRollback =>
                "The new application failed readiness checks; restoring the prior release",
            Phase::RollbackBackup => "Backing up the currently active database before rollback",
            Phase::RollingBack => "Restoring the selected application release and matching database",
            Phase::RollbackRecovery =>
                "Rollback health checks failed; restoring the release active before this request",
            Phase::InterruptedRecovery =>
                "Reconciling a previously interrupted application activation",
            Phase::InterruptedRecoveryWithPackages =>
                "Reconciling an interrupted application activation; completed distribution package changes will remain installed",
            Phase::InterruptedRollbackRecovery =>
                "Restoring the application and database active before an interrupted rollback request",
        }
    }

    /// How far the update has come, in percent.
    pub fn percent(&self) -> (r: u8)
        ensures
            r == phase_percent(*self),
            r <= 100,
    {
        match self {
            Phase::Extracting => 25,
            Phase::Packages => 45,
            Phase::DatabaseBackup => 60,
            Phase::Activating => 70,
            Phase::RecordingReceipt => 94,
            Phase::Restarting => 75,
            Phase::AutomaticRollback => 90,
            Phase::RollbackBackup => 20,
            Phase::RollingBack => 55,
            Phase::RollbackRecovery => 82,
            Phase::InterruptedRecovery => 35,
            Phase::InterruptedRecoveryWithPackages => 35,
            Phase::InterruptedRollbackRecovery => 35,
        }
    }
}

impl Ending {
    /// The phase name that the ending records.
    pub fn name(&self) -> (r: &'static str)
        ensures
            r@ == ending_name(*self),
    {
        match self {
            Ending::Completed => "completed",
            Ending::PackageUpdateFailed => "package_update_failed",
            Ending::PostPackageBackupFailed => "post_package_backup_failed",
            Ending::PostPackageJournalFailed => "post_package_journal_failed",
            Ending::PostPackageHealthFailed => "post_package_health_failed",
            Ending::PackageSnapshotCleanupFailed => "package_snapshot_cleanup_failed",
            Ending::RolledBack => "rolled_back",
            Ending::RolledBackWithPackages => "rolled_back",
            Ending::RollbackFailed => "rollback_failed",
            Ending::RollbackCompleted => "completed",
            Ending::RollbackCompletedWithWarnings => "completed_with_warnings",
            Ending::RollbackCommitNotRecorded => "rollback_commit_not_recorded",
            Ending::RollbackCommitRecoveryFailed => "rollback_commit_recovery_failed",
            Ending::RollbackFailedRecovered => "rollback_failed_recovered",
            Ending::RollbackRecoveryFailed => "rollback_recovery_failed",
            Ending::RecoveredCommitted => "recovered_committed",
            Ending::RecoveredRollback => "recovered_rollback",
            Ending::Interrupted => "interrupted",
            Ending::InterruptedRecoveryFailed => "interrupted_recovery_failed",
            Ending::RequestRejected => "request_rejected",
            Ending::Failed => "failed",
        }
    }

    /// The message of the ending.
    pub fn message(&self) -> (r: &'static str)
        ensures
            r@ == ending_message(*self),
    {
        match self {
            Ending::Completed => "The approved update completed and readiness checks passed",
            Ending::PackageUpdateFailed =>
                "A distribution package update failed; inspect dpkg/APT before retrying",
            Ending::PostPackageBackupFailed =>
                "Package changes completed, but the application database backup failed",
            Ending::PostPackageJournalFailed =>
                "Package changes completed, but the application recovery journal could not be created",
            Ending::PostPackageHealthFailed =>
                "Package changes completed, but panel readiness did not recover",
            Ending::PackageSnapshotCleanupFailed =>
                "Package changes completed, but their temporary database snapshot requires operator cleanup",
            Ending::RolledBack => "The prior application and database were restored automatically",
            Ending::RolledBackWithPackages =>
                "The prior application and database were restored; signed package upgrades remain installed",
            Ending::RollbackFailed =>
                "The new release failed and automatic restoration also failed; operator intervention is required",
            Ending::RollbackCompleted =>
                "The prior application release and database were restored successfully",
            Ending::RollbackCompletedWithWarnings =>
                "The prior application release and database were restored successfully; stale rollback metadata cleanup requires operator attention",
            Ending::RollbackCommitNotRecorded =>
                "The rollback passed readiness but its commit status could not be recorded, so the original release was restored",
            Ending::RollbackCommitRecoveryFailed =>
                "Rollback status persistence and restoration of the original release both failed; operator intervention is required",
            Ending::RollbackFailedRecovered =>
                "The requested rollback failed, but the original release was recovered",
            Ending::RollbackRecoveryFailed =>
                "Rollback and recovery both failed; operator intervention is required",
            Ending::RecoveredCommitted =>
                "A committed activation was recovered after the helper was interrupted",
            Ending::RecoveredRollback =>
                "An interrupted application operation was restored to its prior application and database",
            Ending::Interrupted =>
                "An interrupted non-application update was quarantined; inspect package-manager state",
            Ending::InterruptedRecoveryFailed =>
                "An interrupted activation could not be recovered automatically",
            Ending::RequestRejected => "The request could not be consumed exactly once",
            Ending::Failed => "The update failed before activation completed",
        }
    }

    /// The outcome that the ending records.
    pub fn outcome(&self) -> (r: UpdateOutcome)
        ensures
            r == ending_outcome(*self),
    {
        match self {
            Ending::Completed => UpdateOutcome::Succeeded,
            Ending::PackageUpdateFailed => UpdateOutcome::NeedsIntervention,
            Ending::PostPackageBackupFailed => UpdateOutcome::NeedsIntervention,
            Ending::PostPackageJournalFailed => UpdateOutcome::NeedsIntervention,
            Ending::PostPackageHealthFailed => UpdateOutcome::NeedsIntervention,
            Ending::PackageSnapshotCleanupFailed => UpdateOutcome::NeedsIntervention,
            Ending::RolledBack => UpdateOutcome::RolledBack,
            Ending::RolledBackWithPackages => UpdateOutcome::RolledBack,
            Ending::RollbackFailed => UpdateOutcome::NeedsIntervention,
            Ending::RollbackCompleted => UpdateOutcome::Succeeded,
            Ending::RollbackCompletedWithWarnings => UpdateOutcome::Succeeded,
            Ending::RollbackCommitNotRecorded => UpdateOutcome::Failed,
            Ending::RollbackCommitRecoveryFailed => UpdateOutcome::NeedsIntervention,
            Ending::RollbackFailedRecovered => UpdateOutcome::Failed,
            Ending::RollbackRecoveryFailed => UpdateOutcome::NeedsIntervention,
            Ending::RecoveredCommitted => UpdateOutcome::Succeeded,
            Ending::RecoveredRollback => UpdateOutcome::RolledBack,
            Ending::Interrupted => UpdateOutcome::NeedsIntervention,
            Ending::InterruptedRecoveryFailed => UpdateOutcome::NeedsIntervention,
            Ending::RequestRejected => UpdateOutcome::Failed,
            Ending::Failed => UpdateOutcome::Failed,
        }
    }
}

/// A change of the status record.
#[derive(Clone, Copy, Debug, PartialEq, Eq, Structural)]
pub enum Report {
    /// A phase begins.
    Phase(Phase),
    /// The operation is over.
    End(Ending),
    /// The rollback section: available, attempted, succeeded.
    Rollback(bool, bool, bool),
    /// No rollback is on offer.
    NoRollback,
    /// No rollback is on offer any more.
    Withdrawn,
    /// The rollback point is withdrawn.
    ClearPoint,
    /// The operation and the release that it is for.
    Operation(Operation),
    /// The operation ended with the recorded outcome, but its request is not archived yet.
    ArchivalPending,
}

/// What an update request does.
#[derive(Clone, Copy, Debug, PartialEq, Eq, Structural)]
pub enum Operation {
    Activate,
    Rollback,
    Recover,
    RecoverRollback,
}

/// The name of each operation.
pub open spec fn operation_name(o: Operation) -> Seq<char> {
    match o {
        Operation::Activate => "activate"@,
        Operation::Rollback => "rollback"@,
        Operation::Recover => "recover"@,
        Operation::RecoverRollback => "recover_rollback"@,
    }
}

impl Operation {
    /// The name of the operation.
    pub fn name(&self) -> (r: &'static str)
        ensures
            r@ == operation_name(*self),
    {
        match self {
            Operation::Activate => "activate",
            Operation::Rollback => "rollback",
            Operation::Recover => "recover",
            Operation::RecoverRollback => "recover_rollback",
        }
    }
}

/// What the reports of an operation speak of.
pub struct ReportSubject {
    /// The release that the operation is for.
    pub release: String,
    /// The release that a rollback restores.
    pub previous_release: String,
    /// The digest of the database snapshot that a rollback restores.
    pub snapshot_sha256: String,
}

/// The record after a report.
pub open spec fn reported(
    s: DurableUpdateStatusView,
    report: Report,
    release: Seq<char>,
    previous_release: Seq<char>,
    snapshot_sha256: Seq<char>,
    now: i64,
) -> DurableUpdateStatusView {
    match report {
        Report::Phase(p) => with_phase(s, phase_name(p), phase_percent(p), phase_message(p), now),
        Report::End(e) => finished(s, ending_outcome(e), ending_name(e), ending_message(e), now),
        Report::Rollback(available, attempted, succeeded) => with_rollback(
            s,
            RollbackStatusView {
                available,
                attempted,
                succeeded,
                previous_release: Some(previous_release),
                snapshot_sha256: Some(snapshot_sha256),
            },
            now,
        ),
        Report::NoRollback | Report::Withdrawn => with_rollback(
            s,
            RollbackStatusView {
                available: false,
                attempted: false,
                succeeded: false,
                previous_release: None,
                snapshot_sha256: None,
            },
            now,
        ),
        Report::ClearPoint => without_rollback_point(s, now),
        Report::Operation(o) => with_operation(s, operation_name(o), release, now),
        Report::ArchivalPending => finished(
            s,
            s.outcome,
            "archival_pending"@,
            "The operation ended with the recorded outcome, but its consumed request still requires archival reconciliation"@,
            now,
        ),
    }
}

/// A request that could not be archived keeps its outcome and its rollback point.
pub proof fn archival_keeps_the_outcome(
    s: DurableUpdateStatusView,
    release: Seq<char>,
    previous_release: Seq<char>,
    snapshot_sha256: Seq<char>,
    now: i64,
)
    ensures
        ({
            let t = reported(
                s,
                Report::ArchivalPending,
                release,
                previous_release,
                snapshot_sha256,
                now,
            );
            &&& t.outcome == s.outcome
            &&& t.rollback_point == s.rollback_point
            &&& t.rollback == s.rollback
            &&& t.completed_at == Some(now)
        }),
{
}

proof fn phase_names_are_accepted(p: Phase)
    ensures
        phase_accepted(phase_name(p), phase_percent(p)),
{
    reveal_strlit("extracting");
    reveal_strlit("packages");
    reveal_strlit("database_backup");
    reveal_strlit("activating");
    reveal_strlit("recording_receipt");
    reveal_strlit("restarting");
    reveal_strlit("automatic_rollback");
    reveal_strlit("rollback_backup");
    reveal_strlit("rolling_back");
    reveal_strlit("rollback_recovery");
    reveal_strlit("interrupted_recovery");
    reveal_strlit("interrupted_rollback_recovery");
    let s = phase_name(p);
    assert(0 < s.len() <= 64);
    assert forall|i: int| 0 <= i < s.len() implies (#[trigger] s[i] as u32) < 0x80 by {
        match p {
            Phase::Extracting => {},
            Phase::Packages => {},
            Phase::DatabaseBackup => {},
            Phase::Activating => {},
            Phase::RecordingReceipt => {},
            Phase::Restarting => {},
            Phase::AutomaticRollback => {},
            Phase::RollbackBackup => {},
            Phase::RollingBack => {},
            Phase::RollbackRecovery => {},
            Phase::InterruptedRecovery => {},
            Phase::InterruptedRecoveryWithPackages => {},
            Phase::InterruptedRollbackRecovery => {},
        }
    }
    crate::text::byte_len_ascii(s);
}

/// The next record for a report.
pub fn apply_report(
    status: &StatusWriter,
    report: Report,
    subject: &ReportSubject,
    now: i64,
) -> (r: DurableUpdateStatus)
    ensures
        r@ == reported(
            status@,
            report,
            subject.release@,
            subject.previous_release@,
            subject.snapshot_sha256@,
            now,
        ),
{
    match report {
        Report::Phase(p) => {
            proof {
                phase_names_are_accepted(p);
            }
            match status.phase(p.name(), p.percent(), p.message(), now) {
                Ok(next) => next,
                Err(_) => status.clear_rollback_point(now),
            }
        },
        Report::End(e) => status.finish(e.outcome(), e.name(), e.message(), now),
        Report::Rollback(available, attempted, succeeded) => status.set_rollback(
            available,
            attempted,
            succeeded,
            Some(subject.previous_release.clone()),
            Some(subject.snapshot_sha256.clone()),
            now,
        ),
        Report::NoRollback | Report::Withdrawn => status.set_rollback(false, false, false, None, None, now),
        Report::ClearPoint => status.clear_rollback_point(now),
        Report::Operation(o) => status.set_operation(o.name(), subject.release.as_str(), now),
        Report::ArchivalPending => status.finish(
            status.snapshot().outcome,
            "archival_pending",
            "The operation ended with the recorded outcome, but its consumed request still requires archival reconciliation",
            now,
        ),
    }
}

/// One step of bringing a release up on the host.
#[derive(Clone, Copy, Debug, PartialEq, Eq, Structural)]
pub enum HostStep {
    Stop,
    InstallUnits,
    Reload,
    Switch,
    RestoreDatabase,
    Start,
    Health,
    Ready,
}

/// The step that follows, where the database is restored only if `restore`.
pub open spec fn following(step: HostStep, restore: bool) -> Option<HostStep> {
    match step {
        HostStep::Stop => Some(HostStep::InstallUnits),
        HostStep::InstallUnits => Some(HostStep::Reload),
        HostStep::Reload => Some(HostStep::Switch),
        HostStep::Switch => Some(
            if restore {
                HostStep::RestoreDatabase
            } else {
                HostStep::Start
            },
        ),
        HostStep::RestoreDatabase => Some(HostStep::Start),
        HostStep::Start => Some(HostStep::Health),
        HostStep::Health => Some(HostStep::Ready),
        HostStep::Ready => None,
    }
}

/// The step that follows.
pub fn next_host_step(step: HostStep, restore: bool) -> (r: Option<HostStep>)
    ensures
        r == following(step, restore),
{
    match step {
        HostStep::Stop => Some(HostStep::InstallUnits),
        HostStep::InstallUnits => Some(HostStep::Reload),
        HostStep::Reload => Some(HostStep::Switch),
        HostStep::Switch => if restore {
            Some(HostStep::RestoreDatabase)
        } else {
            Some(HostStep::Start)
        },
        HostStep::RestoreDatabase => Some(HostStep::Start),
        HostStep::Start => Some(HostStep::Health),
        HostStep::Health => Some(HostStep::Ready),
        HostStep::Ready => None,
    }
}

/// How many steps stand before a step.
pub open spec fn host_rank(step: HostStep) -> int {
    match step {
        HostStep::Stop => 0,
        HostStep::InstallUnits => 1,
        HostStep::Reload => 2,
        HostStep::Switch => 3,
        HostStep::RestoreDatabase => 4,
        HostStep::Start => 5,
        HostStep::Health => 6,
        HostStep::Ready => 7,
    }
}

/// Why something failed.
pub enum Cause {
    /// The outside work failed, with this text.
    Outside(String),
    /// The clock could not be used.
    Clock(ClockError),
}

/// Why something failed, with the text as a character sequence.
pub enum CauseView {
    Outside(Seq<char>),
    Clock(ClockError),
}

impl View for Cause {
    type V = CauseView;

    open spec fn view(&self) -> CauseView {
        match *self {
            Cause::Outside(s) => CauseView::Outside(s@),
            Cause::Clock(e) => CauseView::Clock(e),
        }
    }
}

/// The text of a cause.
pub open spec fn cause_text(c: CauseView) -> Seq<char> {
    match c {
        CauseView::Outside(s) => s,
        CauseView::Clock(ClockError::BeforeEpoch) => "system clock is before the Unix epoch"@,
        CauseView::Clock(ClockError::OutsideRange) =>
            "system clock is outside the supported range"@,
    }
}

impl Cause {
    /// The text of the cause.
    pub fn text(&self) -> (r: String)
        ensures
            r@ == cause_text(self@),
    {
        match self {
            Cause::Outside(s) => s.clone(),
            Cause::Clock(e) => e.message().to_owned(),
        }
    }

    /// What an optional cause holds.
    pub open spec fn option_view(o: Option<Cause>) -> Option<CauseView> {
        match o {
            Some(c) => Some(c@),
            None => None,
        }
    }
}

/// The time that best-effort reports carry: zero where the clock cannot be used.
pub open spec fn report_time(now: Result<i64, ClockError>) -> i64 {
    match now {
        Ok(t) => t,
        Err(_) => 0,
    }
}

/// The time that best-effort reports carry.
pub fn time_or_zero(now: Result<i64, ClockError>) -> (r: i64)
    ensures
        r == report_time(now),
{
    match now {
        Ok(t) => t,
        Err(_) => 0,
    }
}

/// What came back from outside work.
pub open spec fn reply_view(reply: Result<(), String>) -> Result<(), Seq<char>> {
    match reply {
        Ok(_) => Ok(()),
        Err(e) => Err(e@),
    }
}

/// The outcomes of the ends: where all is well or was undone as asked, where the release of
/// before is back, where nothing was changed, and where someone has to look.
pub proof fn outcomes_of_the_ends(e: Ending)
    ensures
        ending_outcome(e) == UpdateOutcome::Succeeded <==> e == Ending::Completed || e
            == Ending::RollbackCompleted || e == Ending::RollbackCompletedWithWarnings || e
            == Ending::RecoveredCommitted,
        ending_outcome(e) == UpdateOutcome::RolledBack <==> e == Ending::RolledBack || e
            == Ending::RolledBackWithPackages || e == Ending::RecoveredRollback,
        ending_outcome(e) == UpdateOutcome::Failed <==> e == Ending::RollbackCommitNotRecorded || e
            == Ending::RollbackFailedRecovered || e == Ending::RequestRejected || e
            == Ending::Failed,
        ending_outcome(e) != UpdateOutcome::Running,
{
}

/// Progress grows along an activation, and along a rollback, and no phase is the end.
pub proof fn progress_grows(p: Phase)
    ensures
        1 < phase_percent(p) < 100,
        phase_percent(Phase::Extracting) < phase_percent(Phase::Packages) < phase_percent(
            Phase::DatabaseBackup,
        ) < phase_percent(Phase::Activating) < phase_percent(Phase::AutomaticRollback),
        phase_percent(Phase::Packages) < phase_percent(Phase::Restarting),
        phase_percent(Phase::Activating) < phase_percent(Phase::RecordingReceipt),
        phase_percent(Phase::RollbackBackup) < phase_percent(Phase::RollingBack) < phase_percent(
            Phase::RollbackRecovery,
        ),
{
}

/// A report changes the record as it says: a phase and an end under their names, an operation
/// with its release, a rollback with the release and the snapshot that it goes back to, and
/// none without.
pub proof fn what_reports_change(
    s: DurableUpdateStatusView,
    p: Phase,
    e: Ending,
    o: Operation,
    available: bool,
    attempted: bool,
    succeeded: bool,
    release: Seq<char>,
    previous_release: Seq<char>,
    snapshot_sha256: Seq<char>,
    now: i64,
)
    ensures
        ({
            let phase = reported(
                s,
                Report::Phase(p),
                release,
                previous_release,
                snapshot_sha256,
                now,
            );
            let end = reported(
                s,
                Report::End(e),
                release,
                previous_release,
                snapshot_sha256,
                now,
            );
            let operation = reported(
                s,
                Report::Operation(o),
                release,
                previous_release,
                snapshot_sha256,
                now,
            );
            let rollback = reported(
                s,
                Report::Rollback(available, attempted, succeeded),
                release,
                previous_release,
                snapshot_sha256,
                now,
            );
            let none = reported(
                s,
                Report::NoRollback,
                release,
                previous_release,
                snapshot_sha256,
                now,
            );
            let withdrawn = reported(
                s,
                Report::Withdrawn,
                release,
                previous_release,
                snapshot_sha256,
                now,
            );
            let cleared = reported(
                s,
                Report::ClearPoint,
                release,
                previous_release,
                snapshot_sha256,
                now,
            );
            &&& phase.phase == phase_name(p) && phase.progress_percent == phase_percent(p)
                && phase.outcome == s.outcome && phase.completed_at == s.completed_at
            &&& end.phase == ending_name(e) && end.outcome == ending_outcome(e)
                && end.progress_percent == 100 && end.completed_at == Some(now)
            &&& operation.operation == Some(operation_name(o)) && operation.release == Some(release)
                && operation.phase == s.phase && operation.outcome == s.outcome
            &&& rollback.rollback.available == available && rollback.rollback.attempted == attempted
                && rollback.rollback.succeeded == succeeded
            &&& rollback.rollback.previous_release == Some(previous_release)
                && rollback.rollback.snapshot_sha256 == Some(snapshot_sha256)
            &&& !none.rollback.available && !none.rollback.attempted && !none.rollback.succeeded
                && none.rollback.previous_release is None && none.rollback.snapshot_sha256 is None
            &&& withdrawn == none
            &&& cleared.rollback_point is None && cleared.rollback == s.rollback
            &&& phase.updated_at == now && end.updated_at == now && operation.updated_at == now
                && rollback.updated_at == now && none.updated_at == now && cleared.updated_at == now
        }),
{
}

} // verus!

//! A requested rollback as a machine, and the checks that precede it.

use vstd::prelude::*;

use crate::activation::optional_cause_text;
use crate::ids::{parse_uuid, uuid_value, ClockError};
use crate::journal::ComponentSet;
use crate::report::{
    following, host_rank, next_host_step, reply_view, report_time, time_or_zero, Cause, CauseView,
    Ending, HostStep, Phase, Report,
};
use crate::semver::{is_release_name, normalized_release_name, without_v};
use crate::text::{equal_ignoring_case, eq_ignore_ascii_case, join2, same, view_option};

verus! {

broadcast use vstd::string::group_string_axioms;

/// Why a rollback was refused before anything was changed.
#[derive(Clone, Copy, Debug, PartialEq, Eq, Structural)]
pub enum RollbackError {
    ActivationId,
    Components,
    ReleaseName,
    Stale,
    RestoreEscaped,
    SnapshotChanged,
}

/// The text of each refusal.
pub open spec fn rollback_error_text(e: RollbackError) -> Seq<char> {
    match e {
        RollbackError::ActivationId => "rollback activation ID is invalid"@,
        RollbackError::Components =>
            "only the Vexa-VM application component supports automatic rollback"@,
        RollbackError::ReleaseName => "release version is not a safe semantic version"@,
        RollbackError::Stale =>
            "the rollback point is stale because another release is active"@,
        RollbackError::RestoreEscaped => "the requested prior release escaped the releases root"@,
        RollbackError::SnapshotChanged =>
            "rollback database snapshot changed after privileged validation"@,
    }
}

impl RollbackError {
    /// The text shown to an operator.
    pub fn message(&self) -> (r: &'static str)
        ensures
            r@ == rollback_error_text(*self),
    {
        match self {
            RollbackError::ActivationId => "rollback activation ID is invalid",
            RollbackError::Components =>
                "only the Vexa-VM application component supports automatic rollback",
            RollbackError::ReleaseName => "release version is not a safe semantic version",
            RollbackError::Stale =>
                "the rollback point is stale because another release is active",
            RollbackError::RestoreEscaped => "the requested prior release escaped the releases root",
            RollbackError::SnapshotChanged =>
                "rollback database snapshot changed after privileged validation",
        }
    }
}

/// Checks the identity and the components of a rollback, before anything is looked up.
pub fn check_rollback_request(activation_id: &str, components: ComponentSet) -> (r: Result<
    u128,
    RollbackError,
>)
    ensures
        r == match uuid_value(activation_id@) {
            None => Err::<u128, RollbackError>(RollbackError::ActivationId),
            Some(v) => if components == ComponentSet::application_only() {
                Ok::<u128, RollbackError>(v)
            } else {
                Err::<u128, RollbackError>(RollbackError::Components)
            },
        },
{
    match parse_uuid(activation_id) {
        None => Err(RollbackError::ActivationId),
        Some(v) => {
            if !components.is_application_only() {
                return Err(RollbackError::Components);
            }
            Ok(v)
        },
    }
}

/// The version to restore, while `release` is still the active one.
pub fn check_rollback_releases(active_version: &str, release: &str, restore_release: &str) -> (r:
    Result<String, RollbackError>)
    ensures
        match r {
            Ok(v) => is_release_name(without_v(release@)) && active_version@ == without_v(release@)
                && is_release_name(without_v(restore_release@)) && v@ == without_v(
                restore_release@,
            ),
            Err(e) => if !is_release_name(without_v(release@)) {
                e == RollbackError::ReleaseName
            } else if active_version@ != without_v(release@) {
                e == RollbackError::Stale
            } else {
                e == RollbackError::ReleaseName && !is_release_name(without_v(restore_release@))
            },
        },
{
    let expected = match normalized_release_name(release) {
        Ok(name) => name,
        Err(_) => {
            return Err(RollbackError::ReleaseName);
        },
    };
    if !same(active_version, expected.as_str()) {
        return Err(RollbackError::Stale);
    }
    match normalized_release_name(restore_release) {
        Ok(name) => Ok(name),
        Err(_) => Err(RollbackError::ReleaseName),
    }
}

/// Checks the snapshot of a rollback against what was approved.
pub fn check_rollback_snapshot(
    verified_size: u64,
    verified_sha256: &str,
    snapshot_size_bytes: u64,
    snapshot_sha256: &str,
) -> (r: Result<(), RollbackError>)
    ensures
        r == (if verified_size == snapshot_size_bytes && equal_ignoring_case(
            verified_sha256@,
            snapshot_sha256@,
        ) {
            Ok::<(), RollbackError>(())
        } else {
            Err::<(), RollbackError>(RollbackError::SnapshotChanged)
        }),
{
    if verified_size != snapshot_size_bytes || !eq_ignore_ascii_case(
        verified_sha256,
        snapshot_sha256,
    ) {
        return Err(RollbackError::SnapshotChanged);
    }
    Ok(())
}

/// Which release a host step is for.
#[derive(Clone, Copy, Debug, PartialEq, Eq, Structural)]
pub enum RollbackTarget {
    /// The release that the request asks for.
    Requested,
    /// The release that was active when the request came.
    Original,
}

/// What is to be done next.
#[derive(Clone, Copy, Debug, PartialEq, Eq, Structural)]
pub enum RollbackAction {
    /// Write a snapshot of the present database.
    BackupDatabase,
    /// Write the status record.
    Record(Report),
    /// Write the recovery journal.
    WriteJournal,
    /// Bring a release up, one step at a time.
    Host(HostStep, RollbackTarget),
    /// Remove the receipt of the activation that was rolled back.
    RemoveReceipt,
    /// Withdraw the rollback point of that activation.
    WithdrawPoint,
    /// The rollback succeeded.
    Succeed,
    /// The rollback failed.
    Fail,
}

/// Why the original release is being restored.
#[derive(Clone, Copy, Debug, PartialEq, Eq, Structural)]
pub enum Retreat {
    /// It is not.
    Never,
    /// The requested release did not come up.
    RollbackFailed,
    /// The requested release came up, but that could not be recorded.
    CommitNotRecorded,
}

/// A rollback.
pub struct Rollback {
    pub pending: RollbackAction,
    pub retreat: Retreat,
    pub at: i64,
    pub completion_time: i64,
    pub warned: bool,
    /// Why the rollback failed or could not be recorded.
    pub cause: Option<Cause>,
    /// Why the original release could not be restored.
    pub recovery_cause: Option<Cause>,
    /// Why the last report could not be made.
    pub reporting: Option<String>,
}

/// What a [`Rollback`] holds.
#[verifier::ext_equal]
pub struct RollbackView {
    pub pending: RollbackAction,
    pub retreat: Retreat,
    pub at: i64,
    pub completion_time: i64,
    pub warned: bool,
    pub cause: Option<CauseView>,
    pub recovery_cause: Option<CauseView>,
    pub reporting: Option<Seq<char>>,
}

impl View for Rollback {
    type V = RollbackView;

    open spec fn view(&self) -> RollbackView {
        RollbackView {
            pending: self.pending,
            retreat: self.retreat,
            at: self.at,
            completion_time: self.completion_time,
            warned: self.warned,
            cause: Cause::option_view(self.cause),
            recovery_cause: Cause::option_view(self.recovery_cause),
            reporting: view_option(self.reporting),
        }
    }
}

/// The rollback is over.
pub open spec fn rollback_failed(s: RollbackView, cause: CauseView) -> RollbackView {
    RollbackView { pending: RollbackAction::Fail, cause: Some(cause), ..s }
}

/// A report comes next, unless the clock fails the rollback.
pub open spec fn rollback_reporting(
    s: RollbackView,
    report: Report,
    now: Result<i64, ClockError>,
) -> RollbackView {
    match now {
        Ok(t) => RollbackView { pending: RollbackAction::Record(report), at: t, ..s },
        Err(e) => rollback_failed(s, CauseView::Clock(e)),
    }
}

/// How a rollback begins.
pub open spec fn rollback_begun(now: Result<i64, ClockError>) -> RollbackView {
    rollback_reporting(
        RollbackView {
            pending: RollbackAction::Fail,
            retreat: Retreat::Never,
            at: 0,
            completion_time: 0,
            warned: false,
            cause: None,
            recovery_cause: None,
            reporting: None,
        },
        Report::Phase(Phase::RollbackBackup),
        now,
    )
}

/// The requested release is up, but that could not be recorded: the original release is
/// restored.
pub open spec fn commit_not_recorded(s: RollbackView, e: Seq<char>) -> RollbackView {
    RollbackView {
        pending: RollbackAction::Host(HostStep::Stop, RollbackTarget::Original),
        retreat: Retreat::CommitNotRecorded,
        cause: Some(CauseView::Outside(e)),
        ..s
    }
}

/// How a rollback goes on while the requested release is being brought up. `fallback` is
/// the time that completes it where the clock cannot be used.
pub open spec fn advance(
    s: RollbackView,
    reply: Result<(), Seq<char>>,
    now: Result<i64, ClockError>,
    fallback: i64,
) -> RollbackView {
    match (s.pending, reply) {
        (RollbackAction::Host(_, RollbackTarget::Requested), Err(e)) => RollbackView {
            pending: RollbackAction::Record(Report::Phase(Phase::RollbackRecovery)),
            at: report_time(now),
            retreat: Retreat::RollbackFailed,
            cause: Some(CauseView::Outside(e)),
            ..s
        },
        (RollbackAction::Record(Report::Rollback(true, true, true)), Err(e)) => commit_not_recorded(
            s,
            e,
        ),
        (RollbackAction::Record(Report::End(Ending::RollbackCompleted)), Err(e)) => {
            commit_not_recorded(s, e)
        },
        (RollbackAction::RemoveReceipt, _) => RollbackView {
            pending: RollbackAction::WithdrawPoint,
            warned: s.warned || reply is Err,
            ..s
        },
        (RollbackAction::WithdrawPoint, _) => if s.warned || reply is Err {
            RollbackView {
                pending: RollbackAction::Record(Report::End(Ending::RollbackCompletedWithWarnings)),
                at: s.completion_time,
                warned: true,
                ..s
            }
        } else {
            RollbackView { pending: RollbackAction::Succeed, ..s }
        },
        (RollbackAction::Record(Report::End(Ending::RollbackCompletedWithWarnings)), _) => {
            RollbackView { pending: RollbackAction::Succeed, ..s }
        },
        (_, Err(e)) => rollback_failed(s, CauseView::Outside(e)),
        (RollbackAction::Record(Report::Phase(Phase::RollbackBackup)), Ok(_)) => RollbackView {
            pending: RollbackAction::BackupDatabase,
            ..s
        },
        (RollbackAction::BackupDatabase, Ok(_)) => rollback_reporting(
            s,
            Report::Rollback(true, true, false),
            now,
        ),
        (RollbackAction::Record(Report::Rollback(true, true, false)), Ok(_)) => match now {
            Ok(t) => RollbackView { pending: RollbackAction::WriteJournal, at: t, ..s },
            Err(e) => rollback_failed(s, CauseView::Clock(e)),
        },
        (RollbackAction::WriteJournal, Ok(_)) => rollback_reporting(
            s,
            Report::Phase(Phase::RollingBack),
            now,
        ),
        (RollbackAction::Record(Report::Phase(Phase::RollingBack)), Ok(_)) => RollbackView {
            pending: RollbackAction::Host(HostStep::Stop, RollbackTarget::Requested),
            ..s
        },
        (RollbackAction::Host(step, RollbackTarget::Requested), Ok(_)) => match following(
            step,
            true,
        ) {
            Some(next) => RollbackView {
                pending: RollbackAction::Host(next, RollbackTarget::Requested),
                ..s
            },
            None => {
                let t = match now {
                    Ok(t) => t,
                    Err(_) => fallback,
                };
                RollbackView {
                    pending: RollbackAction::Record(Report::Rollback(true, true, true)),
                    at: t,
                    completion_time: t,
                    ..s
                }
            },
        },
        (RollbackAction::Record(Report::Rollback(true, true, true)), Ok(_)) => RollbackView {
            pending: RollbackAction::Record(Report::End(Ending::RollbackCompleted)),
            at: s.completion_time,
            ..s
        },
        (RollbackAction::Record(Report::End(Ending::RollbackCompleted)), Ok(_)) => RollbackView {
            pending: RollbackAction::RemoveReceipt,
            ..s
        },
        _ => s,
    }
}

/// The report with which a retreat ends.
pub open spec fn retreat_ending(s: RollbackView, restored: bool) -> Ending {
    match (s.retreat, restored) {
        (Retreat::CommitNotRecorded, true) => Ending::RollbackCommitNotRecorded,
        (Retreat::CommitNotRecorded, false) => Ending::RollbackCommitRecoveryFailed,
        (_, true) => Ending::RollbackFailedRecovered,
        (_, false) => Ending::RollbackRecoveryFailed,
    }
}

/// How the restoration of the original release goes on.
pub open spec fn retreat_step(
    s: RollbackView,
    reply: Result<(), Seq<char>>,
    now: Result<i64, ClockError>,
) -> RollbackView {
    match s.pending {
        // The report of the failed rollback must not prevent the restoration.
        RollbackAction::Record(Report::Phase(Phase::RollbackRecovery)) => RollbackView {
            pending: RollbackAction::Host(HostStep::Stop, RollbackTarget::Original),
            ..s
        },
        RollbackAction::Host(step, RollbackTarget::Original) => match reply {
            Err(e) => RollbackView {
                pending: RollbackAction::Record(Report::End(retreat_ending(s, false))),
                at: report_time(now),
                recovery_cause: Some(CauseView::Outside(e)),
                ..s
            },
            Ok(_) => match following(step, true) {
                Some(next) => RollbackView {
                    pending: RollbackAction::Host(next, RollbackTarget::Original),
                    ..s
                },
                None => RollbackView {
                    pending: if s.retreat == Retreat::CommitNotRecorded {
                        RollbackAction::Record(Report::Rollback(true, true, false))
                    } else {
                        RollbackAction::Record(Report::End(retreat_ending(s, true)))
                    },
                    at: report_time(now),
                    ..s
                },
            },
        },
        RollbackAction::Record(Report::Rollback(true, true, false)) => match reply {
            Err(e) => RollbackView { pending: RollbackAction::Fail, reporting: Some(e), ..s },
            Ok(_) => RollbackView {
                pending: RollbackAction::Record(Report::End(retreat_ending(s, true))),
                ..s
            },
        },
        _ => RollbackView {
            pending: RollbackAction::Fail,
            reporting: match reply {
                Ok(_) => s.reporting,
                Err(e) => Some(e),
            },
            ..s
        },
    }
}

/// How a rollback goes on.
pub open spec fn rollback_machine_step(
    s: RollbackView,
    reply: Result<(), Seq<char>>,
    now: Result<i64, ClockError>,
    fallback: i64,
) -> RollbackView {
    if s.pending == RollbackAction::Succeed || s.pending == RollbackAction::Fail {
        s
    } else if s.retreat == Retreat::Never {
        advance(s, reply, now, fallback)
    } else {
        retreat_step(s, reply, now)
    }
}

impl Rollback {
    /// A rollback whose request passed every check.
    pub fn begin(now: Result<i64, ClockError>) -> (r: Rollback)
        ensures
            r@ == rollback_begun(now),
    {
        let mut r = Rollback {
            pending: RollbackAction::Fail,
            retreat: Retreat::Never,
            at: 0,
            completion_time: 0,
            warned: false,
            cause: None,
            recovery_cause: None,
            reporting: None,
        };
        r.set_report(Report::Phase(Phase::RollbackBackup), now);
        r
    }

    fn set_failed(&mut self, cause: Cause)
        ensures
            final(self)@ == rollback_failed(old(self)@, cause@),
    {
        self.pending = RollbackAction::Fail;
        self.cause = Some(cause);
    }

    fn set_report(&mut self, report: Report, now: Result<i64, ClockError>)
        ensures
            final(self)@ == rollback_reporting(old(self)@, report, now),
    {
        match now {
            Ok(t) => {
                self.pending = RollbackAction::Record(report);
                self.at = t;
            },
            Err(e) => self.set_failed(Cause::Clock(e)),
        }
    }

    fn set_commit_not_recorded(&mut self, e: String)
        ensures
            final(self)@ == commit_not_recorded(old(self)@, e@),
    {
        self.pending = RollbackAction::Host(HostStep::Stop, RollbackTarget::Original);
        self.retreat = Retreat::CommitNotRecorded;
        self.cause = Some(Cause::Outside(e));
    }

    fn go_forward(
        &mut self,
        reply: Result<(), String>,
        now: Result<i64, ClockError>,
        fallback: i64,
    )
        ensures
            final(self)@ == advance(old(self)@, reply_view(reply), now, fallback),
    {
        match (self.pending, reply) {
            (RollbackAction::Host(_, RollbackTarget::Requested), Err(e)) => {
                self.pending = RollbackAction::Record(Report::Phase(Phase::RollbackRecovery));
                self.at = time_or_zero(now);
                self.retreat = Retreat::RollbackFailed;
                self.cause = Some(Cause::Outside(e));
            },
            (RollbackAction::Record(Report::Rollback(true, true, true)), Err(e)) => {
                self.set_commit_not_recorded(e);
            },
            (RollbackAction::Record(Report::End(Ending::RollbackCompleted)), Err(e)) => {
                self.set_commit_not_recorded(e);
            },
            (RollbackAction::RemoveReceipt, reply) => {
                self.pending = RollbackAction::WithdrawPoint;
                self.warned = self.warned || reply.is_err();
            },
            (RollbackAction::WithdrawPoint, reply) => {
                if self.warned || reply.is_err() {
                    self.pending = RollbackAction::Record(
                        Report::End(Ending::RollbackCompletedWithWarnings),
                    );
                    self.at = self.completion_time;
                    self.warned = true;
                } else {
                    self.pending = RollbackAction::Succeed;
                }
            },
            (RollbackAction::Record(Report::End(Ending::RollbackCompletedWithWarnings)), _) => {
                self.pending = RollbackAction::Succeed;
            },
            (_, Err(e)) => self.set_failed(Cause::Outside(e)),
            (RollbackAction::Record(Report::Phase(Phase::RollbackBackup)), Ok(())) => {
                self.pending = RollbackAction::BackupDatabase;
            },
            (RollbackAction::BackupDatabase, Ok(())) => self.set_report(
                Report::Rollback(true, true, false),
                now,
            ),
            (RollbackAction::Record(Report::Rollback(true, true, false)), Ok(())) => {
                match now {
                    Ok(t) => {
                        self.pending = RollbackAction::WriteJournal;
                        self.at = t;
                    },
                    Err(e) => self.set_failed(Cause::Clock(e)),
                }
            },
            (RollbackAction::WriteJournal, Ok(())) => self.set_report(
                Report::Phase(Phase::RollingBack),
                now,
            ),
            (RollbackAction::Record(Report::Phase(Phase::RollingBack)), Ok(())) => {
                self.pending = RollbackAction::Host(HostStep::Stop, RollbackTarget::Requested);
            },
            (RollbackAction::Host(step, RollbackTarget::Requested), Ok(())) => {
                match next_host_step(step, true) {
                    Some(next) => {
                        self.pending = RollbackAction::Host(next, RollbackTarget::Requested);
                    },
                    None => {
                        let t: i64 = match now {
                            Ok(t) => t,
                            Err(_) => fallback,
                        };
                        self.pending = RollbackAction::Record(Report::Rollback(true, true, true));
                        self.at = t;
                        self.completion_time = t;
                    },
                }
            },
            (RollbackAction::Record(Report::Rollback(true, true, true)), Ok(())) => {
                self.pending = RollbackAction::Record(Report::End(Ending::RollbackCompleted));
                self.at = self.completion_time;
            },
            (RollbackAction::Record(Report::End(Ending::RollbackCompleted)), Ok(())) => {
                self.pending = RollbackAction::RemoveReceipt;
            },
            _ => {},
        }
    }

    fn ending_of(&self, restored: bool) -> (r: Ending)
        ensures
            r == retreat_ending(self@, restored),
    {
        match (self.retreat, restored) {
            (Retreat::CommitNotRecorded, true) => Ending::RollbackCommitNotRecorded,
            (Retreat::CommitNotRecorded, false) => Ending::RollbackCommitRecoveryFailed,
            (_, true) => Ending::RollbackFailedRecovered,
            (_, false) => Ending::RollbackRecoveryFailed,
        }
    }

    /// How the restoration of the release that was active before goes on.
    fn restore_pre_rollback_state(
        &mut self,
        reply: Result<(), String>,
        now: Result<i64, ClockError>,
    )
        ensures
            final(self)@ == retreat_step(old(self)@, reply_view(reply), now),
    {
        match self.pending {
            RollbackAction::Record(Report::Phase(Phase::RollbackRecovery)) => {
                self.pending = RollbackAction::Host(HostStep::Stop, RollbackTarget::Original);
            },
            RollbackAction::Host(step, RollbackTarget::Original) => {
                match reply {
                    Err(e) => {
                        self.pending = RollbackAction::Record(Report::End(self.ending_of(false)));
                        self.at = time_or_zero(now);
                        self.recovery_cause = Some(Cause::Outside(e));
                    },
                    Ok(()) => {
                        match next_host_step(step, true) {
                            Some(next) => {
                                self.pending = RollbackAction::Host(next, RollbackTarget::Original);
                            },
                            None => {
                                if self.retreat == Retreat::CommitNotRecorded {
                                    self.pending = RollbackAction::Record(
                                        Report::Rollback(true, true, false),
                                    );
                                } else {
                                    self.pending = RollbackAction::Record(
                                        Report::End(self.ending_of(true)),
                                    );
                                }
                                self.at = time_or_zero(now);
                            },
                        }
                    },
                }
            },
            RollbackAction::Record(Report::Rollback(true, true, false)) => {
                match reply {
                    Err(e) => {
                        self.pending = RollbackAction::Fail;
                        self.reporting = Some(e);
                    },
                    Ok(()) => {
                        self.pending = RollbackAction::Record(Report::End(self.ending_of(true)));
                    },
                }
            },
            _ => {
                self.pending = RollbackAction::Fail;
                match reply {
                    Ok(()) => {},
                    Err(e) => {
                        self.reporting = Some(e);
                    },
                }
            },
        }
    }

    /// Goes on after the pending action; `now` is what the clock says, `fallback` the later
    /// one of the times in the status record. The result is the next action.
    pub fn execute_rollback(
        &mut self,
        reply: Result<(), String>,
        now: Result<i64, ClockError>,
        fallback: i64,
    ) -> (r: RollbackAction)
        ensures
            final(self)@ == rollback_machine_step(old(self)@, reply_view(reply), now, fallback),
            r == final(self).pending,
    {
        if self.pending == RollbackAction::Succeed || self.pending == RollbackAction::Fail {
            return self.pending;
        }
        if self.retreat == Retreat::Never {
            self.go_forward(reply, now, fallback);
        } else {
            self.restore_pre_rollback_state(reply, now);
        }
        self.pending
    }

    /// The error text of a rollback that did not succeed.
    pub fn error_text(&self) -> (r: String)
        ensures
            r@ == rollback_failure_text(self@),
    {
        let cause = match &self.cause {
            Some(c) => c.text(),
            None => String::new(),
        };
        let recovery = match &self.recovery_cause {
            Some(c) => c.text(),
            None => String::new(),
        };
        proof {
            assert(self.cause is None ==> cause@ =~= Seq::<char>::empty());
            assert(self.recovery_cause is None ==> recovery@ =~= Seq::<char>::empty());
        }
        match (self.retreat, self.recovery_cause.is_some()) {
            (Retreat::Never, _) => cause,
            (Retreat::CommitNotRecorded, false) => {
                let mut r = join2(
                    "rollback commit status failed and the original release was restored: ",
                    cause.as_str(),
                );
                r.append("; status: ");
                match &self.reporting {
                    Some(e) => r.append(e.as_str()),
                    None => r.append("recovery recorded"),
                }
                r
            },
            (Retreat::CommitNotRecorded, true) => {
                let mut r = join2("rollback commit status failed: ", cause.as_str());
                r.append("; recovery failed: ");
                r.append(recovery.as_str());
                r.append("; status: ");
                match &self.reporting {
                    Some(e) => r.append(e.as_str()),
                    None => r.append("operator intervention recorded"),
                }
                r
            },
            (Retreat::RollbackFailed, false) => match &self.reporting {
                None => "requested rollback failed; original release recovered".to_owned(),
                Some(e) => {
                    let mut r = join2(
                        "requested rollback failed but the original release was recovered: ",
                        cause.as_str(),
                    );
                    r.append("; status persistence failed: ");
                    r.append(e.as_str());
                    r
                },
            },
            (Retreat::RollbackFailed, true) => {
                let mut r = join2("rollback failed: ", cause.as_str());
                r.append("; recovery failed: ");
                r.append(recovery.as_str());
                r.append("; status: ");
                match &self.reporting {
                    Some(e) => r.append(e.as_str()),
                    None => r.append("operator intervention recorded"),
                }
                r
            },
        }
    }
}

/// A text, or another where there is none.
pub open spec fn text_or(o: Option<Seq<char>>, other: Seq<char>) -> Seq<char> {
    match o {
        Some(s) => s,
        None => other,
    }
}

/// The error text of a rollback that did not succeed.
pub open spec fn rollback_failure_text(s: RollbackView) -> Seq<char> {
    let cause = optional_cause_text(s.cause);
    let recovery = optional_cause_text(s.recovery_cause);
    match (s.retreat, s.recovery_cause is Some) {
        (Retreat::Never, _) => cause,
        (Retreat::CommitNotRecorded, false) =>
            "rollback commit status failed and the original release was restored: "@ + cause
                + "; status: "@ + text_or(s.reporting, "recovery recorded"@),
        (Retreat::CommitNotRecorded, true) => "rollback commit status failed: "@ + cause
            + "; recovery failed: "@ + recovery + "; status: "@ + text_or(
            s.reporting,
            "operator intervention recorded"@,
        ),
        (Retreat::RollbackFailed, false) => match s.reporting {
            None => "requested rollback failed; original release recovered"@,
            Some(e) => "requested rollback failed but the original release was recovered: "@ + cause
                + "; status persistence failed: "@ + e,
        },
        (Retreat::RollbackFailed, true) => "rollback failed: "@ + cause + "; recovery failed: "@
            + recovery + "; status: "@ + text_or(s.reporting, "operator intervention recorded"@),
    }
}

/// The requested release may be up, and nothing has been recorded of it yet.
pub open spec fn uncommitted(s: RollbackView) -> bool {
    s.retreat == Retreat::Never && match s.pending {
        RollbackAction::Host(_, RollbackTarget::Requested) => true,
        RollbackAction::Record(Report::Rollback(true, true, true)) => true,
        RollbackAction::Record(Report::End(Ending::RollbackCompleted)) => true,
        _ => false,
    }
}

/// The rollback is recorded as complete; what is left is cleaning up.
pub open spec fn committed(s: RollbackView) -> bool {
    s.retreat == Retreat::Never && match s.pending {
        RollbackAction::RemoveReceipt => true,
        RollbackAction::WithdrawPoint => true,
        RollbackAction::Record(Report::End(Ending::RollbackCompletedWithWarnings)) => true,
        RollbackAction::Succeed => true,
        _ => false,
    }
}

/// A rollback whose host was changed either is recorded as complete or turns to the
/// restoration of the original release; it is never abandoned.
pub proof fn an_uncommitted_rollback_is_undone(
    s: RollbackView,
    reply: Result<(), Seq<char>>,
    now: Result<i64, ClockError>,
    fallback: i64,
)
    requires
        uncommitted(s),
    ensures
        ({
            let t = rollback_machine_step(s, reply, now, fallback);
            ||| uncommitted(t)
            ||| committed(t) && s.pending == RollbackAction::Record(
                Report::End(Ending::RollbackCompleted),
            ) && reply is Ok
            ||| t.retreat != Retreat::Never && reply is Err && (t.pending == RollbackAction::Host(
                HostStep::Stop,
                RollbackTarget::Original,
            ) || t.pending == RollbackAction::Record(Report::Phase(Phase::RollbackRecovery)))
        }),
{
}

/// The authority to roll back is given up only after the rollback was recorded as
/// complete, and a fault in giving it up never turns a completed rollback into a failed
/// one.
pub proof fn a_committed_rollback_stays_successful(
    s: RollbackView,
    reply: Result<(), Seq<char>>,
    now: Result<i64, ClockError>,
    fallback: i64,
)
    requires
        committed(s),
    ensures
        committed(rollback_machine_step(s, reply, now, fallback)),
{
}

/// A retreat carries the restoration through: it ends in failure only after every host
/// step for the original release succeeded, or after one failed and that was to be
/// recorded.
pub proof fn a_retreat_is_carried_through(
    s: RollbackView,
    reply: Result<(), Seq<char>>,
    now: Result<i64, ClockError>,
    fallback: i64,
)
    requires
        s.retreat != Retreat::Never,
        (s.pending matches RollbackAction::Host(_, _)) || s.pending == RollbackAction::Record(
            Report::Phase(Phase::RollbackRecovery),
        ),
        !(s.pending matches RollbackAction::Host(_, RollbackTarget::Requested)),
    ensures
        ({
            let t = rollback_machine_step(s, reply, now, fallback);
            &&& t.retreat == s.retreat
            &&& t.pending != RollbackAction::Fail
            &&& t.recovery_cause is Some && s.recovery_cause is None ==> reply is Err && t.pending
                == RollbackAction::Record(Report::End(retreat_ending(s, false)))
            &&& (t.pending matches RollbackAction::Record(_)) && t.recovery_cause is None ==> s.pending
                == RollbackAction::Host(HostStep::Ready, RollbackTarget::Original) && reply is Ok
        }),
{
}

/// How many replies a rollback can still take.
pub open spec fn rollback_rank(s: RollbackView) -> int {
    match s.pending {
        RollbackAction::Succeed | RollbackAction::Fail => 0,
        RollbackAction::Host(step, RollbackTarget::Original) => 10 - host_rank(step),
        RollbackAction::Record(Report::Phase(Phase::RollbackRecovery)) => 11,
        RollbackAction::Record(Report::End(Ending::RollbackCompletedWithWarnings)) => 1,
        RollbackAction::WithdrawPoint => 2,
        RollbackAction::RemoveReceipt => 3,
        RollbackAction::Record(Report::End(Ending::RollbackCompleted)) => 12,
        RollbackAction::Record(Report::Rollback(true, true, true)) => 13,
        RollbackAction::Host(step, RollbackTarget::Requested) => 21 - host_rank(step),
        RollbackAction::Record(Report::Phase(Phase::RollingBack)) => 22,
        RollbackAction::WriteJournal => 23,
        RollbackAction::Record(Report::Rollback(true, true, false)) => if s.retreat
            == Retreat::Never {
            24
        } else {
            2
        },
        RollbackAction::BackupDatabase => 25,
        RollbackAction::Record(Report::Phase(Phase::RollbackBackup)) => 26,
        RollbackAction::Record(_) => 1,
    }
}

/// The actions that a rollback can have pending.
pub open spec fn rollback_reachable(s: RollbackView) -> bool {
    if s.retreat == Retreat::Never {
        match s.pending {
            RollbackAction::Host(_, target) => target == RollbackTarget::Requested,
            RollbackAction::Record(Report::Phase(p)) => p == Phase::RollbackBackup || p
                == Phase::RollingBack,
            RollbackAction::Record(Report::End(e)) => e == Ending::RollbackCompleted || e
                == Ending::RollbackCompletedWithWarnings,
            RollbackAction::Record(Report::Rollback(a, b, _)) => a && b,
            RollbackAction::Record(_) => false,
            _ => true,
        }
    } else {
        match s.pending {
            RollbackAction::Host(_, target) => target == RollbackTarget::Original,
            RollbackAction::Record(Report::Phase(p)) => p == Phase::RollbackRecovery,
            RollbackAction::Record(Report::End(e)) => e == retreat_ending(s, true) || e
                == retreat_ending(s, false),
            RollbackAction::Record(Report::Rollback(a, b, c)) => a && b && !c,
            RollbackAction::Fail => true,
            _ => false,
        }
    }
}

/// Every reply brings a rollback nearer to its end.
pub proof fn rollbacks_end(
    s: RollbackView,
    reply: Result<(), Seq<char>>,
    now: Result<i64, ClockError>,
    fallback: i64,
)
    requires
        rollback_reachable(s),
        s.pending != RollbackAction::Succeed,
        s.pending != RollbackAction::Fail,
    ensures
        0 <= rollback_rank(rollback_machine_step(s, reply, now, fallback)) < rollback_rank(s),
        rollback_reachable(rollback_machine_step(s, reply, now, fallback)),
{
}

/// The steps that bring a release up on the database that belongs to it, in their order.
pub open spec fn steps_of(target: RollbackTarget) -> Seq<RollbackAction> {
    seq![
        RollbackAction::Host(HostStep::Stop, target),
        RollbackAction::Host(HostStep::InstallUnits, target),
        RollbackAction::Host(HostStep::Reload, target),
        RollbackAction::Host(HostStep::Switch, target),
        RollbackAction::Host(HostStep::RestoreDatabase, target),
        RollbackAction::Host(HostStep::Start, target),
        RollbackAction::Host(HostStep::Health, target),
        RollbackAction::Host(HostStep::Ready, target),
    ]
}

/// What comes before the host is touched.
pub open spec fn preparations() -> Seq<RollbackAction> {
    seq![
        RollbackAction::Record(Report::Phase(Phase::RollbackBackup)),
        RollbackAction::BackupDatabase,
        RollbackAction::Record(Report::Rollback(true, true, false)),
        RollbackAction::WriteJournal,
        RollbackAction::Record(Report::Phase(Phase::RollingBack)),
    ]
}

/// What comes after the requested release is up.
pub open spec fn conclusion() -> Seq<RollbackAction> {
    seq![
        RollbackAction::Record(Report::Rollback(true, true, true)),
        RollbackAction::Record(Report::End(Ending::RollbackCompleted)),
        RollbackAction::RemoveReceipt,
        RollbackAction::WithdrawPoint,
        RollbackAction::Succeed,
    ]
}

/// A rollback in which nothing fails.
pub open spec fn smooth_rollback() -> Seq<RollbackAction> {
    preparations() + steps_of(RollbackTarget::Requested) + conclusion()
}

/// What a rollback is told after each action: how it went, the clock, and the time to fall
/// back to.
pub struct Told {
    pub reply: Result<(), Seq<char>>,
    pub now: Result<i64, ClockError>,
    pub fallback: i64,
}

/// A whole run: the state after some replies, and every action that was answered, with
/// whether it succeeded.
pub open spec fn rollback_run(start: Result<i64, ClockError>, told: Seq<Told>) -> (
    RollbackView,
    Seq<(RollbackAction, bool)>,
)
    decreases told.len(),
{
    if told.len() == 0 {
        (rollback_begun(start), Seq::empty())
    } else {
        let (s, asked) = rollback_run(start, told.drop_last());
        let t = told.last();
        (
            rollback_machine_step(s, t.reply, t.now, t.fallback),
            if s.pending == RollbackAction::Succeed || s.pending == RollbackAction::Fail {
                asked
            } else {
                asked.push((s.pending, t.reply is Ok))
            },
        )
    }
}

/// Actions that were answered with success, one after the other.
pub open spec fn all_done(actions: Seq<RollbackAction>) -> Seq<(RollbackAction, bool)> {
    actions.map_values(|a: RollbackAction| (a, true))
}

/// The answers end with the whole restoration of the original release.
pub open spec fn original_is_up(asked: Seq<(RollbackAction, bool)>) -> bool {
    asked.len() >= 8 && asked.skip(asked.len() - 8) == all_done(steps_of(RollbackTarget::Original))
}

/// Some step for the requested release failed.
pub open spec fn requested_failed(asked: Seq<(RollbackAction, bool)>) -> bool {
    exists|i: int|
        0 <= i < asked.len() && (#[trigger] asked[i]).0 is Host && asked[i].0->Host_1
            == RollbackTarget::Requested && !asked[i].1
}

/// The rollback could not be recorded as complete.
pub open spec fn recording_failed(asked: Seq<(RollbackAction, bool)>) -> bool {
    exists|i: int|
        0 <= i < asked.len() && !(#[trigger] asked[i]).1 && (asked[i].0 == RollbackAction::Record(
            Report::Rollback(true, true, true),
        ) || asked[i].0 == RollbackAction::Record(Report::End(Ending::RollbackCompleted)))
}

/// The place of a host step.
spec fn place(step: HostStep) -> int {
    match step {
        HostStep::Stop => 0,
        HostStep::InstallUnits => 1,
        HostStep::Reload => 2,
        HostStep::Switch => 3,
        HostStep::RestoreDatabase => 4,
        HostStep::Start => 5,
        HostStep::Health => 6,
        HostStep::Ready => 7,
    }
}

/// The place of an action in a rollback in which nothing fails.
spec fn place_in_rollback(a: RollbackAction) -> int {
    match a {
        RollbackAction::Record(Report::Phase(Phase::RollbackBackup)) => 0,
        RollbackAction::BackupDatabase => 1,
        RollbackAction::Record(Report::Rollback(true, true, false)) => 2,
        RollbackAction::WriteJournal => 3,
        RollbackAction::Record(Report::Phase(Phase::RollingBack)) => 4,
        RollbackAction::Host(step, _) => 5 + place(step),
        RollbackAction::Record(Report::Rollback(true, true, true)) => 13,
        RollbackAction::Record(Report::End(Ending::RollbackCompleted)) => 14,
        RollbackAction::RemoveReceipt => 15,
        RollbackAction::WithdrawPoint => 16,
        _ => 17,
    }
}

/// What holds of every state of a run.
spec fn run_fits(s: RollbackView, asked: Seq<(RollbackAction, bool)>) -> bool {
    let k = place_in_rollback(s.pending);
    &&& rollback_reachable(s)
    &&& s.retreat == Retreat::Never ==> {
        &&& s.recovery_cause is None
        &&& k <= 14 ==> asked == all_done(smooth_rollback().take(k))
        &&& s.pending == RollbackAction::RemoveReceipt || s.pending == RollbackAction::WithdrawPoint
            || s.pending == RollbackAction::Succeed || s.pending == RollbackAction::Record(
            Report::End(Ending::RollbackCompletedWithWarnings),
        ) ==> asked.len() >= 15 && asked.take(15) == all_done(smooth_rollback().take(15))
    }
    &&& s.retreat == Retreat::RollbackFailed ==> requested_failed(asked)
    &&& s.retreat == Retreat::CommitNotRecorded ==> recording_failed(asked)
    &&& s.retreat != Retreat::Never ==> {
        &&& s.pending matches RollbackAction::Host(step, _) ==> {
            &&& asked.len() >= place(step)
            &&& asked.skip(asked.len() - place(step)) == all_done(
                steps_of(RollbackTarget::Original).take(place(step)),
            )
            &&& s.recovery_cause is None
        }
        &&& s.pending == RollbackAction::Record(Report::Phase(Phase::RollbackRecovery))
            ==> s.recovery_cause is None
        &&& s.pending == RollbackAction::Record(Report::Rollback(true, true, false))
            ==> s.retreat == Retreat::CommitNotRecorded && original_is_up(asked)
            && s.recovery_cause is None
        &&& s.pending == RollbackAction::Record(Report::End(Ending::RollbackFailedRecovered))
            ==> s.retreat == Retreat::RollbackFailed && original_is_up(asked)
        &&& s.pending == RollbackAction::Record(Report::End(Ending::RollbackCommitNotRecorded))
            ==> s.retreat == Retreat::CommitNotRecorded && asked.len() > 0 && original_is_up(
            asked.drop_last(),
        ) && asked.last() == (RollbackAction::Record(Report::Rollback(true, true, false)), true)
    }
}

proof fn runs_fit(start: Result<i64, ClockError>, told: Seq<Told>)
    ensures
        run_fits(rollback_run(start, told).0, rollback_run(start, told).1),
    decreases told.len(),
{
    let script = smooth_rollback();
    let (t, more) = rollback_run(start, told);
    if told.len() == 0 {
        assert(script.take(0) =~= Seq::empty());
        assert(all_done(script.take(0)) =~= Seq::empty());
    } else {
        runs_fit(start, told.drop_last());
        let (s, asked) = rollback_run(start, told.drop_last());
        let last = told.last();
        let k = place_in_rollback(s.pending);
        if s.pending != RollbackAction::Succeed && s.pending != RollbackAction::Fail {
            if s.retreat == Retreat::Never && k <= 14 {
                assert(script[k] == s.pending);
                assert(script.take(k + 1) =~= script.take(k).push(script[k]));
                assert(all_done(script.take(k + 1)) =~= all_done(script.take(k)).push(
                    (script[k], true),
                ));
                if last.reply is Ok {
                    assert(more == all_done(script.take(k + 1)));
                    assert(more.take(k + 1) =~= more);
                }
            }
            if asked.len() >= 15 {
                assert(more.take(15) =~= asked.take(15));
            }
            if requested_failed(asked) {
                let i = choose|i: int|
                    0 <= i < asked.len() && (#[trigger] asked[i]).0 is Host && asked[i].0->Host_1
                        == RollbackTarget::Requested && !asked[i].1;
                assert(more[i] == asked[i]);
            }
            if recording_failed(asked) {
                let i = choose|i: int|
                    0 <= i < asked.len() && !(#[trigger] asked[i]).1 && (asked[i].0
                        == RollbackAction::Record(Report::Rollback(true, true, true))
                        || asked[i].0 == RollbackAction::Record(
                        Report::End(Ending::RollbackCompleted),
                    ));
                assert(more[i] == asked[i]);
            }
            assert(more[more.len() - 1] == (s.pending, last.reply is Ok));
            assert(more.drop_last() =~= asked);
            let steps = steps_of(RollbackTarget::Original);
            assert(all_done(steps.take(0)) =~= Seq::empty());
            assert(more.skip(more.len() as int) =~= Seq::empty());
            assert(steps.take(8) =~= steps);
            if s.retreat != Retreat::Never {
                if let RollbackAction::Host(step, _) = s.pending {
                    let n = place(step);
                    assert(steps[n] == s.pending);
                    if last.reply is Ok {
                        assert(all_done(steps.take(n + 1)) =~= all_done(steps.take(n)).push(
                            (steps[n], true),
                        ));
                        assert(more.skip(more.len() - (n + 1)) =~= asked.skip(asked.len() - n).push(
                            (s.pending, true),
                        ));
                    }
                }
            }
        }
    }
}

/// A requested rollback is recorded as complete only after the database was backed up, the
/// journal was written, and every step for the requested release succeeded: the services
/// were stopped, the units installed and reloaded, the release switched, the approved
/// snapshot of the database restored, the services started, found healthy and marked ready;
/// each of them once, in that order, and nothing besides. Nothing failed until then.
pub proof fn completion_has_passed_every_step(start: Result<i64, ClockError>, told: Seq<Told>)
    ensures
        ({
            let (s, asked) = rollback_run(start, told);
            &&& s.pending == RollbackAction::Record(Report::Rollback(true, true, true)) ==> asked
                == all_done(preparations() + steps_of(RollbackTarget::Requested))
            &&& s.pending == RollbackAction::Record(Report::End(Ending::RollbackCompleted)) ==> asked
                == all_done(
                preparations() + steps_of(RollbackTarget::Requested) + seq![
                    RollbackAction::Record(Report::Rollback(true, true, true)),
                ],
            )
            &&& s.pending == RollbackAction::Succeed ==> asked.len() >= 15 && asked.take(15)
                == all_done(
                preparations() + steps_of(RollbackTarget::Requested) + seq![
                    RollbackAction::Record(Report::Rollback(true, true, true)),
                    RollbackAction::Record(Report::End(Ending::RollbackCompleted)),
                ],
            )
        }),
{
    runs_fit(start, told);
    let script = smooth_rollback();
    assert(script.take(13) =~= preparations() + steps_of(RollbackTarget::Requested));
    assert(script.take(14) =~= preparations() + steps_of(RollbackTarget::Requested) + seq![
        RollbackAction::Record(Report::Rollback(true, true, true)),
    ]);
    assert(script.take(15) =~= preparations() + steps_of(RollbackTarget::Requested) + seq![
        RollbackAction::Record(Report::Rollback(true, true, true)),
        RollbackAction::Record(Report::End(Ending::RollbackCompleted)),
    ]);
}

/// While every action succeeds and the clock can be read, a rollback asks for the actions of
/// a smooth one, one after the other, and then succeeds.
pub proof fn a_smooth_rollback_succeeds(start: i64, told: Seq<Told>)
    requires
        forall|i: int|
            0 <= i < told.len() ==> (#[trigger] told[i]).reply is Ok && told[i].now is Ok,
    ensures
        ({
            let (s, asked) = rollback_run(Ok(start), told);
            &&& told.len() <= 17 ==> s.pending == smooth_rollback()[told.len() as int] && asked
                == all_done(smooth_rollback().take(told.len() as int))
            &&& told.len() >= 17 ==> s.pending == RollbackAction::Succeed
            &&& s.retreat == Retreat::Never && !s.warned && s.cause is None
        }),
    decreases told.len(),
{
    let script = smooth_rollback();
    assert(script.len() == 18);
    if told.len() == 0 {
        assert(all_done(script.take(0)) =~= Seq::empty());
    } else {
        let front = told.drop_last();
        assert forall|i: int| 0 <= i < front.len() implies (#[trigger] front[i]).reply is Ok
            && front[i].now is Ok by {
            assert(front[i] == told[i]);
        }
        a_smooth_rollback_succeeds(start, front);
        assert(told[told.len() - 1] == told.last());
        let n = front.len() as int;
        if n < 17 {
            assert(all_done(script.take(n + 1)) =~= all_done(script.take(n)).push(
                (script[n], true),
            ));
        }
    }
}

/// A rollback that is reported as undone has brought the whole original release up again, on
/// the database as it was; what is reported says whether the requested release failed or
/// could not be recorded. Where the restoration itself failed, that is reported.
pub proof fn an_undone_rollback_has_restored_the_original(
    start: Result<i64, ClockError>,
    told: Seq<Told>,
)
    ensures
        ({
            let (s, asked) = rollback_run(start, told);
            &&& s.pending == RollbackAction::Record(Report::End(Ending::RollbackFailedRecovered))
                ==> original_is_up(asked) && requested_failed(asked)
            &&& s.pending == RollbackAction::Record(Report::End(Ending::RollbackCommitNotRecorded))
                ==> recording_failed(asked) && asked.last() == (
                RollbackAction::Record(Report::Rollback(true, true, false)),
                true,
            ) && original_is_up(asked.drop_last())
            &&& s.pending == RollbackAction::Record(Report::End(Ending::RollbackRecoveryFailed))
                ==> requested_failed(asked) && s.recovery_cause is Some
            &&& s.pending == RollbackAction::Record(
                Report::End(Ending::RollbackCommitRecoveryFailed),
            ) ==> recording_failed(asked) && s.recovery_cause is Some
            &&& s.retreat == Retreat::Never && s.pending is Host ==> s.pending->Host_1
                == RollbackTarget::Requested
        }),
{
    runs_fit(start, told);
    recoveries_are_told(start, told);
}

proof fn recoveries_are_told(start: Result<i64, ClockError>, told: Seq<Told>)
    ensures
        ({
            let s = rollback_run(start, told).0;
            s.pending == RollbackAction::Record(Report::End(Ending::RollbackRecoveryFailed))
                || s.pending == RollbackAction::Record(
                Report::End(Ending::RollbackCommitRecoveryFailed),
            ) ==> s.recovery_cause is Some && s.retreat == (if s.pending == RollbackAction::Record(
                Report::End(Ending::RollbackRecoveryFailed),
            ) {
                Retreat::RollbackFailed
            } else {
                Retreat::CommitNotRecorded
            })
        }),
    decreases told.len(),
{
    if told.len() > 0 {
        recoveries_are_told(start, told.drop_last());
        runs_fit(start, told.drop_last());
    }
}

/// What is reported of a rollback carries the time that the clock showed; both records of
/// its completion carry the same one, and where the clock failed, the time to fall back to.
pub proof fn rollback_reports_are_timed(
    s: RollbackView,
    reply: Result<(), Seq<char>>,
    now: Result<i64, ClockError>,
    fallback: i64,
)
    requires
        rollback_reachable(s),
        s.pending != RollbackAction::Succeed,
        s.pending != RollbackAction::Fail,
    ensures
        ({
            let t = rollback_machine_step(s, reply, now, fallback);
            &&& t.pending == RollbackAction::Record(Report::Rollback(true, true, true)) ==> t.at
                == (match now {
                Ok(c) => c,
                Err(_) => fallback,
            }) && t.completion_time == t.at
            &&& t.pending == RollbackAction::Record(Report::End(Ending::RollbackCompleted))
                || t.pending == RollbackAction::Record(
                Report::End(Ending::RollbackCompletedWithWarnings),
            ) ==> t.at == s.completion_time && t.completion_time == s.completion_time
            &&& (t.pending is Record || t.pending == RollbackAction::WriteJournal) && s.retreat
                == Retreat::Never && now is Ok && !(s.pending matches RollbackAction::Record(
                Report::Rollback(true, true, true),
            )) && s.pending != RollbackAction::WithdrawPoint ==> t.at == now->Ok_0
            &&& t.pending == RollbackAction::Fail && s.retreat == Retreat::Never ==> t.cause is Some
                && t.retreat == Retreat::Never && !(s.pending is Host)
        }),
{
}

} // verus!

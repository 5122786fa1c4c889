//! An activation as a machine: what is done next, given how the last thing went.
//!
//! The machine holds no file, service or clock. The program around it carries out the
//! pending action and reports back; the machine decides whether the activation goes on,
//! is rolled back or is over.

use vstd::prelude::*;

use crate::ids::ClockError;
use crate::report::{
    cause_text, following, host_rank, next_host_step, reply_view, report_time, time_or_zero, Cause,
    CauseView, Ending, HostStep, Phase, Report,
};
use crate::text::{join2, join3};

verus! {

broadcast use vstd::string::group_string_axioms;

/// Which release a host step is for.
#[derive(Clone, Copy, Debug, PartialEq, Eq, Structural)]
pub enum Target {
    /// The release that is being activated.
    New,
    /// The release that was active before.
    Previous,
}

/// What is to be done next.
#[derive(Clone, Copy, Debug, PartialEq, Eq, Structural)]
pub enum Action {
    /// Freeze, verify and extract the application archive.
    PrepareRelease,
    /// Run the package manager.
    ApplyPackages,
    /// Write a snapshot of the database.
    BackupDatabase,
    /// Write the status record.
    Record(Report),
    /// Write the recovery journal.
    WriteJournal,
    /// Bring a release up, one step at a time.
    Host(HostStep, Target),
    /// Restart the service.
    Restart,
    /// Wait until the service is healthy, in whatever version.
    AnyHealth,
    /// Write the ready marker.
    MarkReady,
    /// Remove the snapshot of a pure package update.
    RemoveSnapshot,
    /// Write the activation receipt.
    WriteReceipt,
    /// Stage the rollback point in the status record.
    StagePoint,
    /// Remove the activation receipt.
    RemoveReceipt,
    /// The activation succeeded.
    Succeed,
    /// The activation failed.
    Fail,
}

/// A report that could not be made during a rollback.
#[derive(Clone, Copy, Debug, PartialEq, Eq, Structural)]
pub enum FaultKind {
    Phase,
    Start,
    Receipt,
    Point,
    Completion,
    Outcome,
    Failure,
}

/// The text that introduces each fault.
pub open spec fn fault_text(k: FaultKind) -> Seq<char> {
    match k {
        FaultKind::Phase => "could not record rollback phase: "@,
        FaultKind::Start => "could not record rollback start: "@,
        FaultKind::Receipt => "could not remove activation receipt: "@,
        FaultKind::Point => "could not clear rollback point: "@,
        FaultKind::Completion => "could not record rollback completion: "@,
        FaultKind::Outcome => "could not record rollback outcome: "@,
        FaultKind::Failure => "could not record rollback failure: "@,
    }
}

impl FaultKind {
    /// The text that introduces the fault.
    pub fn text(&self) -> (r: &'static str)
        ensures
            r@ == fault_text(*self),
    {
        match self {
            FaultKind::Phase => "could not record rollback phase: ",
            FaultKind::Start => "could not record rollback start: ",
            FaultKind::Receipt => "could not remove activation receipt: ",
            FaultKind::Point => "could not clear rollback point: ",
            FaultKind::Completion => "could not record rollback completion: ",
            FaultKind::Outcome => "could not record rollback outcome: ",
            FaultKind::Failure => "could not record rollback failure: ",
        }
    }
}

/// How an activation that did not succeed ended.
#[derive(Clone, Copy, Debug, PartialEq, Eq, Structural)]
pub enum Verdict {
    /// Not over, or over with success.
    Open,
    /// It failed before the host was changed, or after a package update.
    Failed,
    /// The previous release was restored.
    RolledBack,
    /// The previous release could not be restored.
    RollbackFailed,
}

/// An activation.
pub struct Activation {
    pub pending: Action,
    pub has_application: bool,
    pub has_packages: bool,
    /// The time that the pending report carries.
    pub at: i64,
    /// When the receipt was completed.
    pub receipt_time: i64,
    pub cause: Option<Cause>,
    pub rollback_cause: Option<Cause>,
    pub faults: Vec<(FaultKind, String)>,
    pub verdict: Verdict,
}

/// What an [`Activation`] holds.
#[verifier::ext_equal]
pub struct ActivationView {
    pub pending: Action,
    pub has_application: bool,
    pub has_packages: bool,
    pub at: i64,
    pub receipt_time: i64,
    pub cause: Option<CauseView>,
    pub rollback_cause: Option<CauseView>,
    pub faults: Seq<(FaultKind, Seq<char>)>,
    pub verdict: Verdict,
}

/// What the faults hold.
pub open spec fn faults_view(faults: Seq<(FaultKind, String)>) -> Seq<(FaultKind, Seq<char>)> {
    faults.map_values(|f: (FaultKind, String)| (f.0, f.1@))
}

impl View for Activation {
    type V = ActivationView;

    open spec fn view(&self) -> ActivationView {
        ActivationView {
            pending: self.pending,
            has_application: self.has_application,
            has_packages: self.has_packages,
            at: self.at,
            receipt_time: self.receipt_time,
            cause: Cause::option_view(self.cause),
            rollback_cause: Cause::option_view(self.rollback_cause),
            faults: faults_view(self.faults@),
            verdict: self.verdict,
        }
    }
}

/// The activation is over.
pub open spec fn failed(s: ActivationView, cause: CauseView) -> ActivationView {
    ActivationView {
        pending: Action::Fail,
        cause: Some(cause),
        verdict: Verdict::Failed,
        ..s
    }
}

/// A report comes next, unless the clock fails the activation.
pub open spec fn reporting(
    s: ActivationView,
    report: Report,
    now: Result<i64, ClockError>,
) -> ActivationView {
    match now {
        Ok(t) => ActivationView { pending: Action::Record(report), at: t, ..s },
        Err(e) => failed(s, CauseView::Clock(e)),
    }
}

/// The activation ends with a recorded failure, unless the clock fails it at once.
pub open spec fn ending(
    s: ActivationView,
    end: Ending,
    error: Seq<char>,
    now: Result<i64, ClockError>,
) -> ActivationView {
    match now {
        Ok(t) => ActivationView {
            pending: Action::Record(Report::End(end)),
            at: t,
            cause: Some(CauseView::Outside(error)),
            ..s
        },
        Err(e) => failed(s, CauseView::Clock(e)),
    }
}

/// The previous release is going to be restored.
pub open spec fn rolling_back(
    s: ActivationView,
    cause: CauseView,
    now: Result<i64, ClockError>,
) -> ActivationView {
    ActivationView {
        pending: Action::Record(Report::Phase(Phase::AutomaticRollback)),
        at: report_time(now),
        cause: Some(cause),
        ..s
    }
}

/// A best-effort step of a rollback: a failure is noted, and the next action comes in any
/// case.
pub open spec fn best_effort(
    s: ActivationView,
    kind: FaultKind,
    reply: Result<(), Seq<char>>,
    pending: Action,
    now: Result<i64, ClockError>,
) -> ActivationView {
    ActivationView {
        pending,
        at: report_time(now),
        faults: match reply {
            Ok(_) => s.faults,
            Err(e) => s.faults.push((kind, e)),
        },
        ..s
    }
}

/// What comes after the archive was dealt with.
pub open spec fn packages_or_backup(
    s: ActivationView,
    now: Result<i64, ClockError>,
) -> ActivationView {
    if s.has_packages {
        reporting(s, Report::Phase(Phase::Packages), now)
    } else {
        reporting(s, Report::Phase(Phase::DatabaseBackup), now)
    }
}

/// How an activation begins.
pub open spec fn begun(
    has_application: bool,
    has_packages: bool,
    now: Result<i64, ClockError>,
) -> ActivationView {
    let s = ActivationView {
        pending: Action::Fail,
        has_application,
        has_packages,
        at: 0,
        receipt_time: 0,
        cause: None,
        rollback_cause: None,
        faults: Seq::empty(),
        verdict: Verdict::Open,
    };
    if has_application {
        reporting(s, Report::Phase(Phase::Extracting), now)
    } else {
        packages_or_backup(s, now)
    }
}

/// How an activation goes on after the pending action succeeded.
pub open spec fn after_success(s: ActivationView, now: Result<i64, ClockError>) -> ActivationView {
    match s.pending {
        Action::Record(Report::Phase(Phase::Extracting)) => ActivationView {
            pending: Action::PrepareRelease,
            ..s
        },
        Action::PrepareRelease => packages_or_backup(s, now),
        Action::Record(Report::Phase(Phase::Packages)) => ActivationView {
            pending: Action::ApplyPackages,
            ..s
        },
        Action::ApplyPackages => reporting(s, Report::Phase(Phase::DatabaseBackup), now),
        Action::Record(Report::Phase(Phase::DatabaseBackup)) => ActivationView {
            pending: Action::BackupDatabase,
            ..s
        },
        Action::BackupDatabase => if s.has_application {
            reporting(s, Report::Rollback(true, false, false), now)
        } else {
            reporting(s, Report::NoRollback, now)
        },
        // The application is activated.
        Action::Record(Report::Rollback(true, false, false)) => reporting(
            s,
            Report::Phase(Phase::Activating),
            now,
        ),
        Action::Record(Report::Phase(Phase::Activating)) => match now {
            Ok(t) => ActivationView { pending: Action::WriteJournal, at: t, ..s },
            Err(e) => failed(s, CauseView::Clock(e)),
        },
        Action::WriteJournal => ActivationView {
            pending: Action::Host(HostStep::Stop, Target::New),
            ..s
        },
        Action::Host(step, Target::New) => match following(step, false) {
            Some(next) => ActivationView { pending: Action::Host(next, Target::New), ..s },
            None => match now {
                Ok(t) => ActivationView {
                    pending: Action::Record(Report::Phase(Phase::RecordingReceipt)),
                    at: t,
                    receipt_time: t,
                    ..s
                },
                Err(e) => rolling_back(s, CauseView::Clock(e), now),
            },
        },
        Action::Record(Report::Phase(Phase::RecordingReceipt)) => ActivationView {
            pending: Action::WriteReceipt,
            ..s
        },
        Action::WriteReceipt => ActivationView { pending: Action::StagePoint, ..s },
        Action::StagePoint => match now {
            Ok(t) => ActivationView {
                pending: Action::Record(Report::End(Ending::Completed)),
                at: t,
                ..s
            },
            Err(e) => rolling_back(s, CauseView::Clock(e), now),
        },
        // Packages alone were upgraded.
        Action::Record(Report::NoRollback) => reporting(s, Report::Phase(Phase::Restarting), now),
        Action::Record(Report::Phase(Phase::Restarting)) => ActivationView {
            pending: Action::Restart,
            ..s
        },
        Action::Restart => ActivationView { pending: Action::AnyHealth, ..s },
        Action::AnyHealth => ActivationView { pending: Action::MarkReady, ..s },
        Action::MarkReady => ActivationView { pending: Action::RemoveSnapshot, ..s },
        Action::RemoveSnapshot => reporting(s, Report::Withdrawn, now),
        Action::Record(Report::Withdrawn) => reporting(s, Report::End(Ending::Completed), now),
        // The end.
        Action::Record(Report::End(Ending::Completed)) => ActivationView {
            pending: Action::Succeed,
            ..s
        },
        _ => s,
    }
}

/// How an activation goes on after the pending action failed.
pub open spec fn after_failure(
    s: ActivationView,
    e: Seq<char>,
    now: Result<i64, ClockError>,
) -> ActivationView {
    match s.pending {
        Action::ApplyPackages => ending(s, Ending::PackageUpdateFailed, e, now),
        Action::BackupDatabase => if s.has_packages {
            ending(s, Ending::PostPackageBackupFailed, e, now)
        } else {
            failed(s, CauseView::Outside(e))
        },
        Action::WriteJournal => if s.has_packages {
            ending(s, Ending::PostPackageJournalFailed, e, now)
        } else {
            failed(s, CauseView::Outside(e))
        },
        Action::Host(_, Target::New)
        | Action::Record(Report::Phase(Phase::RecordingReceipt))
        | Action::WriteReceipt
        | Action::StagePoint => rolling_back(s, CauseView::Outside(e), now),
        Action::Record(Report::End(Ending::Completed)) => if s.has_application {
            rolling_back(s, CauseView::Outside(e), now)
        } else {
            failed(s, CauseView::Outside(e))
        },
        Action::Restart | Action::AnyHealth | Action::MarkReady => ending(
            s,
            Ending::PostPackageHealthFailed,
            e,
            now,
        ),
        Action::RemoveSnapshot => ending(s, Ending::PackageSnapshotCleanupFailed, e, now),
        _ => failed(s, CauseView::Outside(e)),
    }
}

/// The report with which a completed rollback ends.
pub open spec fn rolled_back_ending(s: ActivationView) -> Ending {
    if s.has_packages {
        Ending::RolledBackWithPackages
    } else {
        Ending::RolledBack
    }
}

/// The pending action belongs to the restoration of the previous release.
pub open spec fn in_rollback(pending: Action) -> bool {
    match pending {
        Action::Record(Report::Phase(Phase::AutomaticRollback)) => true,
        Action::Record(Report::Rollback(true, true, _)) => true,
        Action::Host(_, Target::Previous) => true,
        Action::RemoveReceipt => true,
        Action::Record(Report::ClearPoint) => true,
        Action::Record(Report::End(Ending::RolledBack)) => true,
        Action::Record(Report::End(Ending::RolledBackWithPackages)) => true,
        Action::Record(Report::End(Ending::RollbackFailed)) => true,
        _ => false,
    }
}

/// The pending action records a failure that is already certain.
pub open spec fn in_ending(pending: Action) -> bool {
    match pending {
        Action::Record(Report::End(Ending::PackageUpdateFailed)) => true,
        Action::Record(Report::End(Ending::PostPackageBackupFailed)) => true,
        Action::Record(Report::End(Ending::PostPackageJournalFailed)) => true,
        Action::Record(Report::End(Ending::PostPackageHealthFailed)) => true,
        Action::Record(Report::End(Ending::PackageSnapshotCleanupFailed)) => true,
        _ => false,
    }
}

/// How the restoration of the previous release goes on.
pub open spec fn rollback_step(
    s: ActivationView,
    reply: Result<(), Seq<char>>,
    now: Result<i64, ClockError>,
) -> ActivationView {
    match s.pending {
        Action::Record(Report::Phase(Phase::AutomaticRollback)) => best_effort(
            s,
            FaultKind::Phase,
            reply,
            Action::Record(Report::Rollback(true, true, false)),
            now,
        ),
        Action::Record(Report::Rollback(true, true, false)) => best_effort(
            s,
            FaultKind::Start,
            reply,
            Action::Host(HostStep::Stop, Target::Previous),
            now,
        ),
        Action::Host(step, Target::Previous) => match reply {
            Err(e) => ActivationView {
                pending: Action::Record(Report::End(Ending::RollbackFailed)),
                at: report_time(now),
                rollback_cause: Some(CauseView::Outside(e)),
                ..s
            },
            Ok(_) => match following(step, true) {
                Some(next) => ActivationView {
                    pending: Action::Host(next, Target::Previous),
                    ..s
                },
                None => ActivationView { pending: Action::RemoveReceipt, ..s },
            },
        },
        Action::RemoveReceipt => best_effort(
            s,
            FaultKind::Receipt,
            reply,
            Action::Record(Report::ClearPoint),
            now,
        ),
        Action::Record(Report::ClearPoint) => best_effort(
            s,
            FaultKind::Point,
            reply,
            Action::Record(Report::Rollback(true, true, true)),
            now,
        ),
        Action::Record(Report::Rollback(true, true, true)) => best_effort(
            s,
            FaultKind::Completion,
            reply,
            Action::Record(Report::End(rolled_back_ending(s))),
            now,
        ),
        Action::Record(Report::End(Ending::RollbackFailed)) => ActivationView {
            verdict: Verdict::RollbackFailed,
            ..best_effort(s, FaultKind::Failure, reply, Action::Fail, now)
        },
        _ => ActivationView {
            verdict: Verdict::RolledBack,
            ..best_effort(s, FaultKind::Outcome, reply, Action::Fail, now)
        },
    }
}

/// How an activation goes on.
pub open spec fn activation_step(
    s: ActivationView,
    reply: Result<(), Seq<char>>,
    now: Result<i64, ClockError>,
) -> ActivationView {
    if s.pending == Action::Succeed || s.pending == Action::Fail {
        s
    } else if in_rollback(s.pending) {
        rollback_step(s, reply, now)
    } else if in_ending(s.pending) {
        match reply {
            Ok(_) => ActivationView {
                pending: Action::Fail,
                verdict: Verdict::Failed,
                ..s
            },
            Err(e) => failed(s, CauseView::Outside(e)),
        }
    } else {
        match reply {
            Ok(_) => after_success(s, now),
            Err(e) => after_failure(s, e, now),
        }
    }
}

impl Activation {
    /// An activation that is about to begin. `has_application` and `has_packages` say what
    /// its plan holds.
    pub fn begin(
        has_application: bool,
        has_packages: bool,
        now: Result<i64, ClockError>,
    ) -> (r: Activation)
        ensures
            r@ == begun(has_application, has_packages, now),
    {
        let mut r = Activation {
            pending: Action::Fail,
            has_application,
            has_packages,
            at: 0,
            receipt_time: 0,
            cause: None,
            rollback_cause: None,
            faults: Vec::new(),
            verdict: Verdict::Open,
        };
        proof {
            assert(faults_view(r.faults@) =~= Seq::empty());
        }
        if has_application {
            r.set_report(Report::Phase(Phase::Extracting), now);
        } else {
            r.set_packages_or_backup(now);
        }
        r
    }

    fn set_failed(&mut self, cause: Cause)
        ensures
            final(self)@ == failed(old(self)@, cause@),
    {
        self.pending = Action::Fail;
        self.cause = Some(cause);
        self.verdict = Verdict::Failed;
    }

    fn set_report(&mut self, report: Report, now: Result<i64, ClockError>)
        ensures
            final(self)@ == reporting(old(self)@, report, now),
    {
        match now {
            Ok(t) => {
                self.pending = Action::Record(report);
                self.at = t;
            },
            Err(e) => self.set_failed(Cause::Clock(e)),
        }
    }

    fn set_ending(&mut self, end: Ending, error: String, now: Result<i64, ClockError>)
        ensures
            final(self)@ == ending(old(self)@, end, error@, now),
    {
        match now {
            Ok(t) => {
                self.pending = Action::Record(Report::End(end));
                self.at = t;
                self.cause = Some(Cause::Outside(error));
            },
            Err(e) => self.set_failed(Cause::Clock(e)),
        }
    }

    fn set_rolling_back(&mut self, cause: Cause, now: Result<i64, ClockError>)
        ensures
            final(self)@ == rolling_back(old(self)@, cause@, now),
    {
        self.pending = Action::Record(Report::Phase(Phase::AutomaticRollback));
        self.at = time_or_zero(now);
        self.cause = Some(cause);
    }

    fn set_packages_or_backup(&mut self, now: Result<i64, ClockError>)
        ensures
            final(self)@ == packages_or_backup(old(self)@, now),
    {
        if self.has_packages {
            self.set_report(Report::Phase(Phase::Packages), now);
        } else {
            self.set_report(Report::Phase(Phase::DatabaseBackup), now);
        }
    }

    fn set_best_effort(
        &mut self,
        kind: FaultKind,
        reply: Result<(), String>,
        pending: Action,
        now: Result<i64, ClockError>,
    )
        ensures
            final(self)@ == best_effort(old(self)@, kind, reply_view(reply), pending, now),
    {
        self.pending = pending;
        self.at = time_or_zero(now);
        match reply {
            Ok(()) => {},
            Err(e) => {
                let ghost before = self.faults@;
                let ghost text = e@;
                self.faults.push((kind, e));
                proof {
                    assert(faults_view(self.faults@) =~= faults_view(before).push((kind, text)));
                }
            },
        }
    }

    fn succeed(&mut self, now: Result<i64, ClockError>)
        ensures
            final(self)@ == after_success(old(self)@, now),
    {
        match self.pending {
            Action::Record(Report::Phase(Phase::Extracting)) => {
                self.pending = Action::PrepareRelease;
            },
            Action::PrepareRelease => self.set_packages_or_backup(now),
            Action::Record(Report::Phase(Phase::Packages)) => {
                self.pending = Action::ApplyPackages;
            },
            Action::ApplyPackages => self.set_report(Report::Phase(Phase::DatabaseBackup), now),
            Action::Record(Report::Phase(Phase::DatabaseBackup)) => {
                self.pending = Action::BackupDatabase;
            },
            Action::BackupDatabase => {
                if self.has_application {
                    self.set_report(Report::Rollback(true, false, false), now);
                } else {
                    self.set_report(Report::NoRollback, now);
                }
            },
            Action::Record(Report::Rollback(true, false, false)) => self.set_report(
                Report::Phase(Phase::Activating),
                now,
            ),
            Action::Record(Report::Phase(Phase::Activating)) => {
                match now {
                    Ok(t) => {
                        self.pending = Action::WriteJournal;
                        self.at = t;
                    },
                    Err(e) => self.set_failed(Cause::Clock(e)),
                }
            },
            Action::WriteJournal => {
                self.pending = Action::Host(HostStep::Stop, Target::New);
            },
            Action::Host(step, Target::New) => {
                match next_host_step(step, false) {
                    Some(next) => {
                        self.pending = Action::Host(next, Target::New);
                    },
                    None => {
                        match now {
                            Ok(t) => {
                                self.pending = Action::Record(
                                    Report::Phase(Phase::RecordingReceipt),
                                );
                                self.at = t;
                                self.receipt_time = t;
                            },
                            Err(e) => self.set_rolling_back(Cause::Clock(e), now),
                        }
                    },
                }
            },
            Action::Record(Report::Phase(Phase::RecordingReceipt)) => {
                self.pending = Action::WriteReceipt;
            },
            Action::WriteReceipt => {
                self.pending = Action::StagePoint;
            },
            Action::StagePoint => {
                match now {
                    Ok(t) => {
                        self.pending = Action::Record(Report::End(Ending::Completed));
                        self.at = t;
                    },
                    Err(e) => self.set_rolling_back(Cause::Clock(e), now),
                }
            },
            Action::Record(Report::NoRollback) => self.set_report(
                Report::Phase(Phase::Restarting),
                now,
            ),
            Action::Record(Report::Phase(Phase::Restarting)) => {
                self.pending = Action::Restart;
            },
            Action::Restart => {
                self.pending = Action::AnyHealth;
            },
            Action::AnyHealth => {
                self.pending = Action::MarkReady;
            },
            Action::MarkReady => {
                self.pending = Action::RemoveSnapshot;
            },
            Action::RemoveSnapshot => self.set_report(Report::Withdrawn, now),
            Action::Record(Report::Withdrawn) => self.set_report(
                Report::End(Ending::Completed),
                now,
            ),
            Action::Record(Report::End(Ending::Completed)) => {
                self.pending = Action::Succeed;
            },
            _ => {},
        }
    }

    fn fail(&mut self, e: String, now: Result<i64, ClockError>)
        ensures
            final(self)@ == after_failure(old(self)@, e@, now),
    {
        match self.pending {
            Action::ApplyPackages => self.set_ending(Ending::PackageUpdateFailed, e, now),
            Action::BackupDatabase => {
                if self.has_packages {
                    self.set_ending(Ending::PostPackageBackupFailed, e, now);
                } else {
                    self.set_failed(Cause::Outside(e));
                }
            },
            Action::WriteJournal => {
                if self.has_packages {
                    self.set_ending(Ending::PostPackageJournalFailed, e, now);
                } else {
                    self.set_failed(Cause::Outside(e));
                }
            },
            Action::Host(_, Target::New)
            | Action::Record(Report::Phase(Phase::RecordingReceipt))
            | Action::WriteReceipt
            | Action::StagePoint => self.set_rolling_back(Cause::Outside(e), now),
            Action::Record(Report::End(Ending::Completed)) => {
                if self.has_application {
                    self.set_rolling_back(Cause::Outside(e), now);
                } else {
                    self.set_failed(Cause::Outside(e));
                }
            },
            Action::Restart | Action::AnyHealth | Action::MarkReady => self.set_ending(
                Ending::PostPackageHealthFailed,
                e,
                now,
            ),
            Action::RemoveSnapshot => self.set_ending(Ending::PackageSnapshotCleanupFailed, e, now),
            _ => self.set_failed(Cause::Outside(e)),
        }
    }

    /// How the restoration of the previous release goes on.
    fn automatic_application_rollback(
        &mut self,
        reply: Result<(), String>,
        now: Result<i64, ClockError>,
    )
        requires
            in_rollback(old(self).pending),
        ensures
            final(self)@ == rollback_step(old(self)@, reply_view(reply), now),
    {
        match self.pending {
            Action::Record(Report::Phase(Phase::AutomaticRollback)) => self.set_best_effort(
                FaultKind::Phase,
                reply,
                Action::Record(Report::Rollback(true, true, false)),
                now,
            ),
            Action::Record(Report::Rollback(true, true, false)) => self.set_best_effort(
                FaultKind::Start,
                reply,
                Action::Host(HostStep::Stop, Target::Previous),
                now,
            ),
            Action::Host(step, Target::Previous) => {
                match reply {
                    Err(e) => {
                        self.pending = Action::Record(Report::End(Ending::RollbackFailed));
                        self.at = time_or_zero(now);
                        self.rollback_cause = Some(Cause::Outside(e));
                    },
                    Ok(()) => {
                        match next_host_step(step, true) {
                            Some(next) => {
                                self.pending = Action::Host(next, Target::Previous);
                            },
                            None => {
                                self.pending = Action::RemoveReceipt;
                            },
                        }
                    },
                }
            },
            Action::RemoveReceipt => self.set_best_effort(
                FaultKind::Receipt,
                reply,
                Action::Record(Report::ClearPoint),
                now,
            ),
            Action::Record(Report::ClearPoint) => self.set_best_effort(
                FaultKind::Point,
                reply,
                Action::Record(Report::Rollback(true, true, true)),
                now,
            ),
            Action::Record(Report::Rollback(true, true, true)) => {
                let end = if self.has_packages {
                    Ending::RolledBackWithPackages
                } else {
                    Ending::RolledBack
                };
                self.set_best_effort(
                    FaultKind::Completion,
                    reply,
                    Action::Record(Report::End(end)),
                    now,
                );
            },
            Action::Record(Report::End(Ending::RollbackFailed)) => {
                self.set_best_effort(FaultKind::Failure, reply, Action::Fail, now);
                self.verdict = Verdict::RollbackFailed;
            },
            _ => {
                self.set_best_effort(FaultKind::Outcome, reply, Action::Fail, now);
                self.verdict = Verdict::RolledBack;
            },
        }
    }

    fn is_in_rollback(&self) -> (r: bool)
        ensures
            r == in_rollback(self.pending),
    {
        match self.pending {
            Action::Record(Report::Phase(Phase::AutomaticRollback)) => true,
            Action::Record(Report::Rollback(true, true, _)) => true,
            Action::Host(_, Target::Previous) => true,
            Action::RemoveReceipt => true,
            Action::Record(Report::ClearPoint) => true,
            Action::Record(Report::End(Ending::RolledBack)) => true,
            Action::Record(Report::End(Ending::RolledBackWithPackages)) => true,
            Action::Record(Report::End(Ending::RollbackFailed)) => true,
            _ => false,
        }
    }

    fn is_in_ending(&self) -> (r: bool)
        ensures
            r == in_ending(self.pending),
    {
        match self.pending {
            Action::Record(Report::End(Ending::PackageUpdateFailed)) => true,
            Action::Record(Report::End(Ending::PostPackageBackupFailed)) => true,
            Action::Record(Report::End(Ending::PostPackageJournalFailed)) => true,
            Action::Record(Report::End(Ending::PostPackageHealthFailed)) => true,
            Action::Record(Report::End(Ending::PackageSnapshotCleanupFailed)) => true,
            _ => false,
        }
    }

    /// Goes on after the pending action; `now` is what the clock says. The result is the
    /// next action.
    pub fn execute_activation(
        &mut self,
        reply: Result<(), String>,
        now: Result<i64, ClockError>,
    ) -> (r: Action)
        ensures
            final(self)@ == activation_step(old(self)@, reply_view(reply), now),
            r == final(self).pending,
    {
        if self.pending == Action::Succeed || self.pending == Action::Fail {
            return self.pending;
        }
        if self.is_in_rollback() {
            self.automatic_application_rollback(reply, now);
        } else if self.is_in_ending() {
            match reply {
                Ok(()) => {
                    self.pending = Action::Fail;
                    self.verdict = Verdict::Failed;
                },
                Err(e) => self.set_failed(Cause::Outside(e)),
            }
        } else {
            match reply {
                Ok(()) => self.succeed(now),
                Err(e) => self.fail(e, now),
            }
        }
        self.pending
    }
}

/// The faults of a rollback, one after the other.
pub open spec fn joined_faults(faults: Seq<(FaultKind, Seq<char>)>) -> Seq<char>
    decreases faults.len(),
{
    if faults.len() == 0 {
        Seq::empty()
    } else {
        let last = fault_text(faults.last().0) + faults.last().1;
        if faults.len() == 1 {
            last
        } else {
            joined_faults(faults.drop_last()) + "; "@ + last
        }
    }
}

/// The text of an optional cause.
pub open spec fn optional_cause_text(c: Option<CauseView>) -> Seq<char> {
    match c {
        Some(c) => cause_text(c),
        None => Seq::empty(),
    }
}

/// The error text of an activation that did not succeed.
pub open spec fn failure_text(s: ActivationView) -> Seq<char> {
    match s.verdict {
        Verdict::Open => Seq::empty(),
        Verdict::Failed => optional_cause_text(s.cause),
        Verdict::RolledBack => if s.faults.len() == 0 {
            "new release failed and was rolled back"@
        } else {
            "new release failed and was rolled back: "@ + optional_cause_text(s.cause)
                + "; rollback reporting requires attention: "@ + joined_faults(s.faults)
        },
        Verdict::RollbackFailed => "activation failed: "@ + optional_cause_text(s.cause)
            + "; automatic rollback failed: "@ + optional_cause_text(s.rollback_cause)
            + "; reporting: "@ + (if s.faults.len() == 0 {
            "no additional reporting error"@
        } else {
            joined_faults(s.faults)
        }),
    }
}

fn join_faults(faults: &Vec<(FaultKind, String)>) -> (r: String)
    ensures
        r@ == joined_faults(faults_view(faults@)),
{
    let ghost all = faults_view(faults@);
    let mut r: String = String::new();
    let mut i: usize = 0;
    proof {
        assert(all.take(0) =~= Seq::empty());
    }
    while i < faults.len()
        invariant
            i <= faults@.len(),
            all == faults_view(faults@),
            r@ == joined_faults(all.take(i as int)),
        decreases faults@.len() - i,
    {
        let last = join2(faults[i].0.text(), faults[i].1.as_str());
        proof {
            assert(all.take(i as int + 1).drop_last() =~= all.take(i as int));
            assert(all.take(i as int + 1).last() == (faults@[i as int].0, faults@[i as int].1@));
        }
        if i == 0 {
            r = last;
        } else {
            r = join3(r.as_str(), "; ", last.as_str());
        }
        i = i + 1;
    }
    proof {
        assert(all.take(all.len() as int) =~= all);
    }
    r
}

fn text_of_cause(c: &Option<Cause>) -> (r: String)
    ensures
        r@ == optional_cause_text(Cause::option_view(*c)),
{
    match c {
        Some(c) => c.text(),
        None => {
            let r = String::new();
            proof {
                assert(r@ =~= Seq::<char>::empty());
            }
            r
        },
    }
}

impl Activation {
    /// The error text of an activation that did not succeed.
    pub fn error_text(&self) -> (r: String)
        ensures
            r@ == failure_text(self@),
    {
        proof {
            assert(self@.faults.len() == self.faults@.len());
        }
        match self.verdict {
            Verdict::Open => String::new(),
            Verdict::Failed => text_of_cause(&self.cause),
            Verdict::RolledBack => {
                if self.faults.len() == 0 {
                    "new release failed and was rolled back".to_owned()
                } else {
                    let cause = text_of_cause(&self.cause);
                    let mut r = join2("new release failed and was rolled back: ", cause.as_str());
                    r.append("; rollback reporting requires attention: ");
                    let faults = join_faults(&self.faults);
                    r.append(faults.as_str());
                    r
                }
            },
            Verdict::RollbackFailed => {
                let cause = text_of_cause(&self.cause);
                let rollback_cause = text_of_cause(&self.rollback_cause);
                let mut r = join2("activation failed: ", cause.as_str());
                r.append("; automatic rollback failed: ");
                r.append(rollback_cause.as_str());
                r.append("; reporting: ");
                if self.faults.len() == 0 {
                    r.append("no additional reporting error");
                } else {
                    let faults = join_faults(&self.faults);
                    r.append(faults.as_str());
                }
                r
            },
        }
    }
}

/// From here on the host may run the new release: every way out leads over success or
/// over the restoration of the previous release.
pub open spec fn host_changed(s: ActivationView) -> bool {
    match s.pending {
        Action::Host(_, Target::New) => true,
        Action::Record(Report::Phase(Phase::RecordingReceipt)) => true,
        Action::WriteReceipt => true,
        Action::StagePoint => true,
        Action::Record(Report::End(Ending::Completed)) => s.has_application,
        _ => false,
    }
}

/// Once the host was changed, an activation is never abandoned: it goes on, succeeds, or
/// begins to restore the previous release. Neither a failing status record nor a failing
/// clock is a way out.
pub proof fn a_changed_host_is_not_abandoned(
    s: ActivationView,
    reply: Result<(), Seq<char>>,
    now: Result<i64, ClockError>,
)
    requires
        s.has_application,
        host_changed(s),
    ensures
        ({
            let t = activation_step(s, reply, now);
            ||| host_changed(t)
            ||| t.pending == Action::Succeed && reply is Ok
            ||| t.pending == Action::Record(Report::Phase(Phase::AutomaticRollback)) && t.cause
                is Some
        }),
{
}

/// A restoration that has begun is carried through: it ends only after every host step for
/// the previous release succeeded, or with a recorded request for intervention after one of
/// them failed. Failing reports never stop it.
pub proof fn a_rollback_is_carried_through(
    s: ActivationView,
    reply: Result<(), Seq<char>>,
    now: Result<i64, ClockError>,
)
    requires
        in_rollback(s.pending),
    ensures
        ({
            let t = activation_step(s, reply, now);
            &&& in_rollback(t.pending) || t.pending == Action::Fail
            &&& t.pending == Action::Fail ==> s.pending == Action::Record(
                Report::End(Ending::RolledBack),
            ) || s.pending == Action::Record(Report::End(Ending::RolledBackWithPackages))
                || s.pending == Action::Record(Report::End(Ending::RollbackFailed))
            &&& t.pending == Action::RemoveReceipt ==> s.pending == Action::Host(
                HostStep::Ready,
                Target::Previous,
            ) && reply is Ok
            &&& t.pending == Action::Record(Report::End(Ending::RollbackFailed)) ==> (s.pending
                matches Action::Host(_, Target::Previous) && reply is Err)
        }),
{
}

/// The host is changed only after the recovery journal was written.
pub proof fn the_journal_comes_first(
    s: ActivationView,
    reply: Result<(), Seq<char>>,
    now: Result<i64, ClockError>,
)
    requires
        s.has_application,
        plausible(s),
        !host_changed(s),
        host_changed(activation_step(s, reply, now)),
    ensures
        s.pending == Action::WriteJournal && reply is Ok,
        activation_step(s, reply, now).pending == Action::Host(HostStep::Stop, Target::New),
{
}

/// How many replies an activation can still take.
pub open spec fn activation_rank(s: ActivationView) -> int {
    match s.pending {
        Action::Succeed => 0,
        Action::Fail => 0,
        Action::Record(Report::End(Ending::RolledBack)) => 1,
        Action::Record(Report::End(Ending::RolledBackWithPackages)) => 1,
        Action::Record(Report::End(Ending::RollbackFailed)) => 1,
        Action::Record(Report::Rollback(true, true, true)) => 2,
        Action::Record(Report::ClearPoint) => 3,
        Action::RemoveReceipt => 4,
        Action::Host(step, Target::Previous) => 12 - host_rank(step),
        Action::Record(Report::Rollback(true, true, false)) => 13,
        Action::Record(Report::Phase(Phase::AutomaticRollback)) => 14,
        Action::Record(Report::End(Ending::Completed)) => 15,
        Action::StagePoint => 16,
        Action::WriteReceipt => 17,
        Action::Record(Report::Phase(Phase::RecordingReceipt)) => 18,
        Action::Host(step, Target::New) => 26 - host_rank(step),
        Action::WriteJournal => 27,
        Action::Record(Report::Phase(Phase::Activating)) => 28,
        Action::Record(Report::Rollback(true, false, false)) => 29,
        Action::Record(Report::Withdrawn) => 16,
        Action::RemoveSnapshot => 17,
        Action::MarkReady => 18,
        Action::AnyHealth => 19,
        Action::Restart => 20,
        Action::Record(Report::Phase(Phase::Restarting)) => 21,
        Action::Record(Report::NoRollback) => 22,
        Action::BackupDatabase => 30,
        Action::Record(Report::Phase(Phase::DatabaseBackup)) => 31,
        Action::ApplyPackages => 32,
        Action::Record(Report::Phase(Phase::Packages)) => 33,
        Action::PrepareRelease => 34,
        Action::Record(Report::Phase(Phase::Extracting)) => 35,
        Action::Record(_) => 2,
    }
}

/// The actions that an activation can have pending.
pub open spec fn reachable(s: ActivationView) -> bool {
    match s.pending {
        Action::Record(Report::Phase(p)) => match p {
            Phase::Extracting | Phase::Packages | Phase::DatabaseBackup | Phase::Activating
            | Phase::RecordingReceipt | Phase::Restarting | Phase::AutomaticRollback => true,
            _ => false,
        },
        Action::Record(Report::Rollback(available, attempted, succeeded)) => available && (succeeded
            ==> attempted),
        Action::Record(Report::End(_)) => s.pending == Action::Record(
            Report::End(Ending::Completed),
        ) || in_rollback(s.pending) || in_ending(s.pending),
        Action::Record(Report::Operation(_)) | Action::Record(Report::ArchivalPending) => false,
        _ => true,
    }
}

/// Every reply brings an activation nearer to its end.
pub proof fn activations_end(
    s: ActivationView,
    reply: Result<(), Seq<char>>,
    now: Result<i64, ClockError>,
)
    requires
        reachable(s),
        s.pending != Action::Succeed,
        s.pending != Action::Fail,
    ensures
        0 <= activation_rank(activation_step(s, reply, now)) < activation_rank(s),
        reachable(activation_step(s, reply, now)),
{
}

/// What an activation of an application must have done, in order.
pub open spec fn milestone(i: int) -> Action {
    if i == 0 {
        Action::PrepareRelease
    } else if i == 1 {
        Action::BackupDatabase
    } else if i == 2 {
        Action::WriteJournal
    } else if i == 3 {
        Action::Host(HostStep::Stop, Target::New)
    } else if i == 4 {
        Action::Host(HostStep::InstallUnits, Target::New)
    } else if i == 5 {
        Action::Host(HostStep::Reload, Target::New)
    } else if i == 6 {
        Action::Host(HostStep::Switch, Target::New)
    } else if i == 7 {
        Action::Host(HostStep::Start, Target::New)
    } else if i == 8 {
        Action::Host(HostStep::Health, Target::New)
    } else if i == 9 {
        Action::Host(HostStep::Ready, Target::New)
    } else if i == 10 {
        Action::WriteReceipt
    } else if i == 11 {
        Action::StagePoint
    } else {
        Action::Record(Report::End(Ending::Completed))
    }
}

/// How many milestones stand before the pending action.
pub open spec fn milestones_before(pending: Action) -> int {
    match pending {
        Action::Record(Report::Phase(Phase::Packages)) => 1,
        Action::ApplyPackages => 1,
        Action::Record(Report::Phase(Phase::DatabaseBackup)) => 1,
        Action::BackupDatabase => 1,
        Action::Record(Report::Rollback(true, false, false)) => 2,
        Action::Record(Report::Phase(Phase::Activating)) => 2,
        Action::WriteJournal => 2,
        Action::Host(HostStep::Stop, Target::New) => 3,
        Action::Host(HostStep::InstallUnits, Target::New) => 4,
        Action::Host(HostStep::Reload, Target::New) => 5,
        Action::Host(HostStep::Switch, Target::New) => 6,
        Action::Host(HostStep::Start, Target::New) => 7,
        Action::Host(HostStep::Health, Target::New) => 8,
        Action::Host(HostStep::Ready, Target::New) => 9,
        Action::Record(Report::Phase(Phase::RecordingReceipt)) => 10,
        Action::WriteReceipt => 10,
        Action::StagePoint => 11,
        Action::Record(Report::End(Ending::Completed)) => 12,
        Action::Succeed => 13,
        _ => 0,
    }
}

/// A whole run: the state after some replies, and the actions that succeeded.
pub open spec fn run(
    s: ActivationView,
    replies: Seq<(Result<(), Seq<char>>, Result<i64, ClockError>)>,
) -> (ActivationView, Seq<Action>)
    decreases replies.len(),
{
    if replies.len() == 0 {
        (s, Seq::empty())
    } else {
        let (t, done) = run(s, replies.drop_last());
        let (reply, now) = replies.last();
        (
            activation_step(t, reply, now),
            if reply is Ok {
                done.push(t.pending)
            } else {
                done
            },
        )
    }
}

/// The host step with the database restoration never comes up for the new release.
pub open spec fn plausible(s: ActivationView) -> bool {
    &&& reachable(s)
    &&& s.pending != Action::Host(HostStep::RestoreDatabase, Target::New)
    &&& s.has_application ==> s.pending != Action::Record(Report::Withdrawn) && s.pending
        != Action::Record(Report::NoRollback) && s.pending != Action::RemoveSnapshot && s.pending
        != Action::MarkReady && s.pending != Action::AnyHealth && s.pending != Action::Restart
        && s.pending != Action::Record(Report::Phase(Phase::Restarting))
}

proof fn milestones_are_kept(
    s: ActivationView,
    replies: Seq<(Result<(), Seq<char>>, Result<i64, ClockError>)>,
)
    requires
        s.has_application,
        s.pending == Action::Record(Report::Phase(Phase::Extracting)) || s.pending == Action::Fail,
    ensures
        ({
            let (t, done) = run(s, replies);
            &&& plausible(t)
            &&& t.has_application
            &&& forall|i: int|
                0 <= i < milestones_before(t.pending) ==> done.contains(#[trigger] milestone(i))
        }),
    decreases replies.len(),
{
    if replies.len() > 0 {
        milestones_are_kept(s, replies.drop_last());
        let (t, done) = run(s, replies.drop_last());
        let (u, more) = run(s, replies);
        let (reply, now) = replies.last();
        assert forall|i: int| 0 <= i < milestones_before(u.pending) implies more.contains(
            #[trigger] milestone(i),
        ) by {
            if i < milestones_before(t.pending) {
                assert(done.contains(milestone(i)));
                let k = choose|k: int| 0 <= k < done.len() && done[k] == milestone(i);
                assert(more[k] == milestone(i));
            } else {
                assert(reply is Ok);
                assert(milestone(i) == t.pending);
                assert(more[done.len() as int] == t.pending);
            }
        }
    }
}

/// An activation of an application succeeds only after the archive was extracted, the
/// database was backed up, the journal was written, the new release was installed, switched
/// to and started, became healthy and ready, and the receipt was written.
pub proof fn success_has_passed_every_milestone(
    has_packages: bool,
    start: Result<i64, ClockError>,
    replies: Seq<(Result<(), Seq<char>>, Result<i64, ClockError>)>,
)
    requires
        run(begun(true, has_packages, start), replies).0.pending == Action::Succeed,
    ensures
        forall|i: int|
            0 <= i <= 12 ==> run(begun(true, has_packages, start), replies).1.contains(
                #[trigger] milestone(i),
            ),
{
    milestones_are_kept(begun(true, has_packages, start), replies);
}

/// The steps of an activation in which nothing fails, in their order. `application` and
/// `packages` say what its plan holds.
#[verifier::opaque]
pub open spec fn smooth_activation(application: bool, packages: bool) -> Seq<Action> {
    let extraction = if application {
        seq![Action::Record(Report::Phase(Phase::Extracting)), Action::PrepareRelease]
    } else {
        Seq::empty()
    };
    let upgrade = if packages {
        seq![Action::Record(Report::Phase(Phase::Packages)), Action::ApplyPackages]
    } else {
        Seq::empty()
    };
    let rest = if application {
        seq![
            Action::Record(Report::Phase(Phase::DatabaseBackup)),
            Action::BackupDatabase,
            Action::Record(Report::Rollback(true, false, false)),
            Action::Record(Report::Phase(Phase::Activating)),
            Action::WriteJournal,
            Action::Host(HostStep::Stop, Target::New),
            Action::Host(HostStep::InstallUnits, Target::New),
            Action::Host(HostStep::Reload, Target::New),
            Action::Host(HostStep::Switch, Target::New),
            Action::Host(HostStep::Start, Target::New),
            Action::Host(HostStep::Health, Target::New),
            Action::Host(HostStep::Ready, Target::New),
            Action::Record(Report::Phase(Phase::RecordingReceipt)),
            Action::WriteReceipt,
            Action::StagePoint,
            Action::Record(Report::End(Ending::Completed)),
        ]
    } else {
        seq![
            Action::Record(Report::Phase(Phase::DatabaseBackup)),
            Action::BackupDatabase,
            Action::Record(Report::NoRollback),
            Action::Record(Report::Phase(Phase::Restarting)),
            Action::Restart,
            Action::AnyHealth,
            Action::MarkReady,
            Action::RemoveSnapshot,
            Action::Record(Report::Withdrawn),
            Action::Record(Report::End(Ending::Completed)),
        ]
    };
    extraction + upgrade + rest
}

/// The restoration of the previous release, from its announcement on.
pub open spec fn automatic_rollback() -> Seq<Action> {
    seq![
        Action::Record(Report::Phase(Phase::AutomaticRollback)),
        Action::Record(Report::Rollback(true, true, false)),
        Action::Host(HostStep::Stop, Target::Previous),
        Action::Host(HostStep::InstallUnits, Target::Previous),
        Action::Host(HostStep::Reload, Target::Previous),
        Action::Host(HostStep::Switch, Target::Previous),
        Action::Host(HostStep::RestoreDatabase, Target::Previous),
        Action::Host(HostStep::Start, Target::Previous),
        Action::Host(HostStep::Health, Target::Previous),
        Action::Host(HostStep::Ready, Target::Previous),
        Action::RemoveReceipt,
        Action::Record(Report::ClearPoint),
        Action::Record(Report::Rollback(true, true, true)),
    ]
}

/// A whole run: the state after some replies, and every action that was answered, with
/// whether it succeeded.
pub open spec fn activation_run(
    application: bool,
    packages: bool,
    start: Result<i64, ClockError>,
    told: Seq<(Result<(), Seq<char>>, Result<i64, ClockError>)>,
) -> (ActivationView, Seq<(Action, bool)>)
    decreases told.len(),
{
    if told.len() == 0 {
        (begun(application, packages, start), Seq::empty())
    } else {
        let (s, asked) = activation_run(application, packages, start, told.drop_last());
        let (reply, now) = told.last();
        (
            activation_step(s, reply, now),
            if s.pending == Action::Succeed || s.pending == Action::Fail {
                asked
            } else {
                asked.push((s.pending, reply is Ok))
            },
        )
    }
}

/// The actions were answered with success, in this order, and nothing else was asked.
pub open spec fn all_succeeded(asked: Seq<(Action, bool)>, actions: Seq<Action>) -> bool {
    asked.len() == actions.len() && forall|i: int|
        0 <= i < asked.len() ==> #[trigger] asked[i] == (actions[i], true)
}

/// The last answers are to the first actions of an automatic rollback; its steps on the host
/// succeeded.
pub open spec fn is_restoring(asked: Seq<(Action, bool)>, n: int) -> bool {
    asked.len() >= n && forall|i: int|
        0 <= i < n ==> #[trigger] automatic_rollback()[i] == asked[asked.len() - n + i].0 && (2 <= i
            < 10 ==> asked[asked.len() - n + i].1)
}

/// No step for the new release was asked for.
pub open spec fn host_is_untouched(asked: Seq<(Action, bool)>) -> bool {
    forall|i: int| 0 <= i < asked.len() ==> !((#[trigger] asked[i]).0 is Host)
}

/// The place of a host step.
spec fn place(step: HostStep) -> int {
    match step {
        HostStep::Stop => 0,
        HostStep::InstallUnits => 1,
        HostStep::Reload => 2,
        HostStep::Switch => 3,
        HostStep::RestoreDatabase => 4,
        HostStep::Start => 5,
        HostStep::Health => 6,
        HostStep::Ready => 7,
    }
}

/// The place of an action in an activation in which nothing fails, or below zero.
spec fn forward_place(a: Action, application: bool, packages: bool) -> int {
    let x: int = if application {
        2
    } else {
        0
    };
    let y: int = x + if packages {
        2int
    } else {
        0
    };
    match a {
        Action::Record(Report::Phase(Phase::Extracting)) if application => 0,
        Action::PrepareRelease if application => 1,
        Action::Record(Report::Phase(Phase::Packages)) if packages => x,
        Action::ApplyPackages if packages => x + 1,
        Action::Record(Report::Phase(Phase::DatabaseBackup)) => y,
        Action::BackupDatabase => y + 1,
        Action::Record(Report::Rollback(true, false, false)) if application => y + 2,
        Action::Record(Report::Phase(Phase::Activating)) if application => y + 3,
        Action::WriteJournal if application => y + 4,
        Action::Host(step, Target::New) if application && step != HostStep::RestoreDatabase => y + 5
            + place(step) - (if place(step) > 4 {
            1int
        } else {
            0
        }),
        Action::Record(Report::Phase(Phase::RecordingReceipt)) if application => y + 12,
        Action::WriteReceipt if application => y + 13,
        Action::StagePoint if application => y + 14,
        Action::Record(Report::End(Ending::Completed)) if application => y + 15,
        Action::Record(Report::NoRollback) if !application => y + 2,
        Action::Record(Report::Phase(Phase::Restarting)) if !application => y + 3,
        Action::Restart if !application => y + 4,
        Action::AnyHealth if !application => y + 5,
        Action::MarkReady if !application => y + 6,
        Action::RemoveSnapshot if !application => y + 7,
        Action::Record(Report::Withdrawn) if !application => y + 8,
        Action::Record(Report::End(Ending::Completed)) if !application => y + 9,
        Action::Succeed => if application {
            y + 16
        } else {
            y + 10
        },
        _ => -1,
    }
}

/// The place of an action in an automatic rollback, or below zero.
spec fn backward_place(a: Action) -> int {
    match a {
        Action::Record(Report::Phase(Phase::AutomaticRollback)) => 0,
        Action::Record(Report::Rollback(true, true, false)) => 1,
        Action::Host(step, Target::Previous) => 2 + place(step),
        Action::RemoveReceipt => 10,
        Action::Record(Report::ClearPoint) => 11,
        Action::Record(Report::Rollback(true, true, true)) => 12,
        Action::Record(Report::End(Ending::RolledBack)) => 13,
        Action::Record(Report::End(Ending::RolledBackWithPackages)) => 13,
        _ => -1,
    }
}

#[verifier::opaque]
spec fn is_forward(
    asked: Seq<(Action, bool)>,
    application: bool,
    packages: bool,
    n: int,
) -> bool {
    all_succeeded(asked, smooth_activation(application, packages).take(n))
}

#[verifier::opaque]
spec fn is_backward(asked: Seq<(Action, bool)>, n: int) -> bool {
    is_restoring(asked, n)
}

/// What failed, where a failure is recorded.
spec fn failure_fits(s: ActivationView, asked: Seq<(Action, bool)>) -> bool {
    match s.pending {
        Action::Record(Report::End(Ending::PackageUpdateFailed)) => asked.len() > 0 && asked.last()
            == (Action::ApplyPackages, false),
        Action::Record(Report::End(Ending::PostPackageBackupFailed)) => asked.len() > 0
            && s.has_packages && asked.last() == (Action::BackupDatabase, false),
        Action::Record(Report::End(Ending::PostPackageJournalFailed)) => asked.len() > 0
            && s.has_packages && asked.last() == (Action::WriteJournal, false),
        Action::Record(Report::End(Ending::PostPackageHealthFailed)) => asked.len() > 0 && (
        asked.last() == (Action::Restart, false) || asked.last() == (Action::AnyHealth, false)
            || asked.last() == (Action::MarkReady, false)),
        Action::Record(Report::End(Ending::PackageSnapshotCleanupFailed)) => asked.len() > 0
            && asked.last() == (Action::RemoveSnapshot, false),
        Action::Record(Report::End(Ending::RollbackFailed)) => asked.len() > 0 && asked.last().0
            is Host && asked.last().0->Host_1 == Target::Previous && !asked.last().1,
        _ => true,
    }
}

/// What holds of every state of a run.
spec fn activation_fits(s: ActivationView, asked: Seq<(Action, bool)>) -> bool {
    let f = forward_place(s.pending, s.has_application, s.has_packages);
    let b = backward_place(s.pending);
    &&& f >= 0 || in_rollback(s.pending) || in_ending(s.pending) || s.pending == Action::Fail
    &&& f >= 0 ==> is_forward(asked, s.has_application, s.has_packages, f) && s.verdict
        == Verdict::Open
    &&& in_rollback(s.pending) ==> s.has_application && (b >= 0 || s.pending == Action::Record(
        Report::End(Ending::RollbackFailed),
    )) && s.verdict == Verdict::Open
    &&& b >= 0 ==> is_backward(asked, b)
    &&& s.pending == Action::Record(Report::End(Ending::RolledBack)) ==> !s.has_packages
    &&& s.pending == Action::Record(Report::End(Ending::RolledBackWithPackages)) ==> s.has_packages
    &&& failure_fits(s, asked)
    &&& in_ending(s.pending) ==> host_is_untouched(asked)
    &&& s.pending == Action::Fail ==> s.verdict != Verdict::Open && (s.verdict == Verdict::Failed
        ==> host_is_untouched(asked))
}

proof fn script_places(a: Action, application: bool, packages: bool)
    ensures
        ({
            let f = forward_place(a, application, packages);
            let script = smooth_activation(application, packages);
            &&& script.len() == forward_place(Action::Succeed, application, packages)
            &&& f >= 0 && a != Action::Succeed ==> f < script.len() && script[f] == a
        }),
{
    reveal(smooth_activation);
    if application {
        if packages {
            assert(smooth_activation(true, true).len() == 20);
        } else {
            assert(smooth_activation(true, false).len() == 18);
        }
    } else {
        if packages {
            assert(smooth_activation(false, true).len() == 12);
        } else {
            assert(smooth_activation(false, false).len() == 10);
        }
    }
}

/// A success brings the next step.
proof fn forward_step(s: ActivationView, now: i64)
    requires
        forward_place(s.pending, s.has_application, s.has_packages) >= 0,
        s.pending != Action::Succeed,
    ensures
        ({
            let t = activation_step(s, Ok(()), Ok(now));
            &&& t.has_application == s.has_application && t.has_packages == s.has_packages
            &&& forward_place(t.pending, s.has_application, s.has_packages) == forward_place(
                s.pending,
                s.has_application,
                s.has_packages,
            ) + 1
            &&& t.verdict == s.verdict && t.faults == s.faults && t.cause == s.cause
        }),
{
}

proof fn forward_goes_on(asked: Seq<(Action, bool)>, application: bool, packages: bool, n: int)
    requires
        is_forward(asked, application, packages, n),
        0 <= n < smooth_activation(application, packages).len(),
    ensures
        is_forward(
            asked.push((smooth_activation(application, packages)[n], true)),
            application,
            packages,
            n + 1,
        ),
{
    reveal(is_forward);
}

proof fn backward_goes_on(asked: Seq<(Action, bool)>, n: int, succeeded: bool)
    requires
        is_backward(asked, n),
        0 <= n < 13,
        2 <= n < 10 ==> succeeded,
    ensures
        is_backward(asked.push((automatic_rollback()[n], succeeded)), n + 1),
{
    reveal(is_backward);
    let more = asked.push((automatic_rollback()[n], succeeded));
    assert forall|i: int| 0 <= i < n + 1 implies #[trigger] automatic_rollback()[i] == more[more.len()
        - (n + 1) + i].0 && (2 <= i < 10 ==> more[more.len() - (n + 1) + i].1) by {
        if i < n {
            assert(automatic_rollback()[i] == asked[asked.len() - n + i].0);
            assert(more[asked.len() - n + i] == asked[asked.len() - n + i]);
        }
    }
}

proof fn forward_is_untouched(
    asked: Seq<(Action, bool)>,
    application: bool,
    packages: bool,
    n: int,
)
    requires
        is_forward(asked, application, packages, n),
        0 <= n <= smooth_activation(application, packages).len(),
        application ==> n <= 7 + (if packages {
            2int
        } else {
            0
        }),
    ensures
        host_is_untouched(asked),
{
    reveal(is_forward);
    reveal(smooth_activation);
    let script = smooth_activation(application, packages);
    assert forall|i: int| 0 <= i < asked.len() implies !((#[trigger] asked[i]).0 is Host) by {
        assert(asked[i] == (script[i], true));
        if application {
            if packages {
                assert(!(smooth_activation(true, true)[i] is Host));
            } else {
                assert(!(smooth_activation(true, false)[i] is Host));
            }
        } else {
            if packages {
                assert(!(smooth_activation(false, true)[i] is Host));
            } else {
                assert(!(smooth_activation(false, false)[i] is Host));
            }
        }
    }
}

proof fn untouched_goes_on(asked: Seq<(Action, bool)>, a: Action, succeeded: bool)
    requires
        host_is_untouched(asked),
        !(a is Host),
    ensures
        host_is_untouched(asked.push((a, succeeded))),
{
}

proof fn backward_begins(asked: Seq<(Action, bool)>)
    ensures
        is_backward(asked, 0),
{
    reveal(is_backward);
}

proof fn successes_fit(
    s: ActivationView,
    asked: Seq<(Action, bool)>,
    now: Result<i64, ClockError>,
)
    requires
        activation_fits(s, asked),
        s.pending != Action::Succeed,
        s.pending != Action::Fail,
        !in_rollback(s.pending),
        !in_ending(s.pending),
    ensures
        activation_fits(activation_step(s, Ok(()), now), asked.push((s.pending, true))),
        activation_step(s, Ok(()), now).has_application == s.has_application,
        activation_step(s, Ok(()), now).has_packages == s.has_packages,
{
    let f = forward_place(s.pending, s.has_application, s.has_packages);
    let more = asked.push((s.pending, true));
    script_places(s.pending, s.has_application, s.has_packages);
    forward_goes_on(asked, s.has_application, s.has_packages, f);
    match now {
        Ok(c) => forward_step(s, c),
        Err(_) => {
            backward_begins(more);
            let t = activation_step(s, Ok(()), now);
            let g = forward_place(t.pending, s.has_application, s.has_packages);
            if !host_changed(s) {
                forward_is_untouched(asked, s.has_application, s.has_packages, f);
                untouched_goes_on(asked, s.pending, true);
            }
        },
    }
}

proof fn failures_fit(
    s: ActivationView,
    asked: Seq<(Action, bool)>,
    e: Seq<char>,
    now: Result<i64, ClockError>,
)
    requires
        activation_fits(s, asked),
        s.pending != Action::Succeed,
        s.pending != Action::Fail,
        !in_rollback(s.pending),
        !in_ending(s.pending),
    ensures
        activation_fits(activation_step(s, Err(e), now), asked.push((s.pending, false))),
        activation_step(s, Err(e), now).has_application == s.has_application,
        activation_step(s, Err(e), now).has_packages == s.has_packages,
{
    let f = forward_place(s.pending, s.has_application, s.has_packages);
    let more = asked.push((s.pending, false));
    script_places(s.pending, s.has_application, s.has_packages);
    assert(more.last() == (s.pending, false));
    backward_begins(more);
    if !host_changed(s) {
        forward_is_untouched(asked, s.has_application, s.has_packages, f);
        untouched_goes_on(asked, s.pending, false);
    }
}

proof fn rollback_steps_fit(
    s: ActivationView,
    asked: Seq<(Action, bool)>,
    reply: Result<(), Seq<char>>,
    now: Result<i64, ClockError>,
)
    requires
        activation_fits(s, asked),
        in_rollback(s.pending),
    ensures
        activation_fits(activation_step(s, reply, now), asked.push((s.pending, reply is Ok))),
        activation_step(s, reply, now).has_application == s.has_application,
        activation_step(s, reply, now).has_packages == s.has_packages,
{
    let b = backward_place(s.pending);
    let more = asked.push((s.pending, reply is Ok));
    assert(more.last() == (s.pending, reply is Ok));
    if 0 <= b < 13 && (2 <= b < 10 ==> reply is Ok) {
        assert(automatic_rollback()[b] == s.pending);
        backward_goes_on(asked, b, reply is Ok);
    }
}

proof fn activations_fit(
    application: bool,
    packages: bool,
    start: Result<i64, ClockError>,
    told: Seq<(Result<(), Seq<char>>, Result<i64, ClockError>)>,
)
    ensures
        ({
            let (s, asked) = activation_run(application, packages, start, told);
            activation_fits(s, asked) && s.has_application == application && s.has_packages
                == packages
        }),
    decreases told.len(),
{
    if told.len() == 0 {
        reveal(is_forward);
    } else {
        activations_fit(application, packages, start, told.drop_last());
        let (s, asked) = activation_run(application, packages, start, told.drop_last());
        let (reply, now) = told.last();
        if s.pending != Action::Succeed && s.pending != Action::Fail {
            if in_rollback(s.pending) {
                rollback_steps_fit(s, asked, reply, now);
            } else if in_ending(s.pending) {
                untouched_goes_on(asked, s.pending, reply is Ok);
            } else if reply is Ok {
                successes_fit(s, asked, now);
            } else {
                failures_fit(s, asked, reply->Err_0, now);
            }
        }
    }
}

/// An activation succeeds only after each of its steps succeeded, once and in order, and
/// nothing else was done: for an application the archive is extracted, packages are upgraded
/// where the plan has any, the database is backed up, the journal is written before the host
/// is touched, the new release is installed, switched to, started, found healthy and marked
/// ready, and the receipt and the rollback point are written; for packages alone the service
/// is restarted, found healthy and marked ready.
pub proof fn success_has_taken_every_step(
    application: bool,
    packages: bool,
    start: Result<i64, ClockError>,
    told: Seq<(Result<(), Seq<char>>, Result<i64, ClockError>)>,
)
    requires
        activation_run(application, packages, start, told).0.pending == Action::Succeed,
    ensures
        all_succeeded(
            activation_run(application, packages, start, told).1,
            smooth_activation(application, packages),
        ),
{
    reveal(is_forward);
    activations_fit(application, packages, start, told);
    script_places(Action::Succeed, application, packages);
    let script = smooth_activation(application, packages);
    assert(script.take(script.len() as int) =~= script);
}

/// While every action succeeds and the clock can be read, an activation asks for its steps
/// one after the other, and then succeeds.
pub proof fn a_smooth_activation_succeeds(
    application: bool,
    packages: bool,
    start: i64,
    told: Seq<(Result<(), Seq<char>>, Result<i64, ClockError>)>,
)
    requires
        forall|i: int| 0 <= i < told.len() ==> (#[trigger] told[i]).0 is Ok && told[i].1 is Ok,
    ensures
        ({
            let s = activation_run(application, packages, Ok(start), told).0;
            let script = smooth_activation(application, packages);
            &&& s.pending == (if told.len() < script.len() {
                script[told.len() as int]
            } else {
                Action::Succeed
            })
            &&& s.has_application == application && s.has_packages == packages
            &&& s.verdict == Verdict::Open && s.faults.len() == 0 && s.cause is None
        }),
{
    smooth_places(application, packages, start, told);
}

proof fn smooth_places(
    application: bool,
    packages: bool,
    start: i64,
    told: Seq<(Result<(), Seq<char>>, Result<i64, ClockError>)>,
)
    requires
        forall|i: int| 0 <= i < told.len() ==> (#[trigger] told[i]).0 is Ok && told[i].1 is Ok,
    ensures
        ({
            let s = activation_run(application, packages, Ok(start), told).0;
            let end = forward_place(Action::Succeed, application, packages);
            &&& s.has_application == application && s.has_packages == packages
            &&& s.verdict == Verdict::Open && s.faults.len() == 0 && s.cause is None
            &&& forward_place(s.pending, application, packages) == (if told.len() < end {
                told.len() as int
            } else {
                end
            })
            &&& told.len() >= end <==> s.pending == Action::Succeed
            &&& smooth_activation(application, packages).len() == end
            &&& told.len() < end ==> s.pending == smooth_activation(
                application,
                packages,
            )[told.len() as int]
        }),
    decreases told.len(),
{
    let s = activation_run(application, packages, Ok(start), told).0;
    if told.len() > 0 {
        let front = told.drop_last();
        assert forall|i: int| 0 <= i < front.len() implies (#[trigger] front[i]).0 is Ok
            && front[i].1 is Ok by {
            assert(front[i] == told[i]);
        }
        smooth_places(application, packages, start, front);
        assert(told[told.len() - 1] == told.last());
        let before = activation_run(application, packages, Ok(start), front).0;
        if before.pending != Action::Succeed {
            forward_step(before, told.last().1->Ok_0);
        }
    }
    script_places(s.pending, application, packages);
}

/// An activation that is reported as rolled back has restored the previous release on its
/// database, step by step, and taken the receipt and the rollback point away; the report
/// says whether packages were changed. Where a step of the restoration failed, that is
/// reported instead.
pub proof fn a_reported_rollback_has_restored_the_release(
    application: bool,
    packages: bool,
    start: Result<i64, ClockError>,
    told: Seq<(Result<(), Seq<char>>, Result<i64, ClockError>)>,
)
    ensures
        ({
            let (s, asked) = activation_run(application, packages, start, told);
            &&& s.pending == Action::Record(Report::End(Ending::RolledBack)) ==> !packages
                && is_restoring(asked, 13)
            &&& s.pending == Action::Record(Report::End(Ending::RolledBackWithPackages)) ==> packages
                && is_restoring(asked, 13)
            &&& s.pending == Action::Record(Report::End(Ending::RollbackFailed)) ==> asked.len() > 0
                && asked.last().0 is Host && asked.last().0->Host_1 == Target::Previous
                && !asked.last().1
            &&& s.pending is Host && s.pending->Host_1 == Target::Previous ==> application
        }),
{
    reveal(is_backward);
    activations_fit(application, packages, start, told);
}

/// An activation that failed without a rollback has not touched the release that runs; what
/// is reported of it is what failed last.
pub proof fn a_failure_without_rollback_left_the_host_alone(
    application: bool,
    packages: bool,
    start: Result<i64, ClockError>,
    told: Seq<(Result<(), Seq<char>>, Result<i64, ClockError>)>,
)
    ensures
        ({
            let (s, asked) = activation_run(application, packages, start, told);
            &&& s.pending == Action::Fail ==> s.verdict != Verdict::Open
            &&& s.pending == Action::Fail && s.verdict == Verdict::Failed ==> host_is_untouched(
                asked,
            )
            &&& s.pending == Action::Record(Report::End(Ending::PackageUpdateFailed)) ==> asked.len()
                > 0 && asked.last() == (Action::ApplyPackages, false)
            &&& s.pending == Action::Record(Report::End(Ending::PostPackageBackupFailed))
                ==> asked.len() > 0 && packages && asked.last() == (Action::BackupDatabase, false)
            &&& s.pending == Action::Record(Report::End(Ending::PostPackageJournalFailed))
                ==> asked.len() > 0 && packages && asked.last() == (Action::WriteJournal, false)
            &&& s.pending == Action::Record(Report::End(Ending::PostPackageHealthFailed))
                ==> asked.len() > 0 && !asked.last().1 && (asked.last().0 == Action::Restart
                || asked.last().0 == Action::AnyHealth || asked.last().0 == Action::MarkReady)
            &&& s.pending == Action::Record(Report::End(Ending::PackageSnapshotCleanupFailed))
                ==> asked.len() > 0 && asked.last() == (Action::RemoveSnapshot, false)
        }),
{
    activations_fit(application, packages, start, told);
}

/// A failed package update is reported as one, and so is what fails after packages were
/// changed; a report that fails during a rollback is noted once, with its text, and each
/// report carries the time that the clock showed.
pub proof fn failures_are_told(
    s: ActivationView,
    error: Seq<char>,
    now: i64,
)
    requires
        reachable(s),
        s.pending != Action::Succeed,
        s.pending != Action::Fail,
    ensures
        ({
            let t = activation_step(s, Err(error), Ok(now));
            &&& s.pending == Action::ApplyPackages ==> t.pending == Action::Record(
                Report::End(Ending::PackageUpdateFailed),
            )
            &&& s.pending == Action::BackupDatabase && s.has_packages ==> t.pending
                == Action::Record(Report::End(Ending::PostPackageBackupFailed))
            &&& s.pending == Action::WriteJournal && s.has_packages ==> t.pending
                == Action::Record(Report::End(Ending::PostPackageJournalFailed))
            &&& s.pending == Action::Restart || s.pending == Action::AnyHealth || s.pending
                == Action::MarkReady ==> t.pending == Action::Record(
                Report::End(Ending::PostPackageHealthFailed),
            )
            &&& s.pending == Action::RemoveSnapshot ==> t.pending == Action::Record(
                Report::End(Ending::PackageSnapshotCleanupFailed),
            )
            &&& !in_rollback(s.pending) ==> t.cause == Some(CauseView::Outside(error)) && t.faults
                == s.faults
            &&& in_rollback(s.pending) && s.pending is Host ==> t.rollback_cause == Some(
                CauseView::Outside(error),
            ) && t.faults == s.faults && t.cause == s.cause
            &&& in_rollback(s.pending) && !(s.pending is Host) ==> t.faults.len() == s.faults.len()
                + 1 && t.faults.last().1 == error && t.faults.drop_last() == s.faults && t.cause
                == s.cause && t.rollback_cause == s.rollback_cause
            &&& t.pending is Record ==> t.at == now
        }),
{
    if in_rollback(s.pending) && !(s.pending is Host) {
        let t = activation_step(s, Err(error), Ok(now));
        assert(t.faults.drop_last() =~= s.faults);
    }
}

/// A report that follows a success carries the time that the clock showed, and the receipt
/// that of its announcement; no fault and no cause is noted.
pub proof fn successes_are_timed(s: ActivationView, now: i64)
    requires
        reachable(s),
        s.pending != Action::Succeed,
        s.pending != Action::Fail,
    ensures
        ({
            let t = activation_step(s, Ok(()), Ok(now));
            &&& t.pending is Record || t.pending == Action::WriteJournal ==> t.at == now
            &&& t.pending == Action::Record(Report::Phase(Phase::RecordingReceipt)) ==> t.receipt_time
                == now
            &&& t.pending != Action::Record(Report::Phase(Phase::RecordingReceipt))
                ==> t.receipt_time == s.receipt_time
            &&& t.faults == s.faults && t.cause == s.cause && t.rollback_cause == s.rollback_cause
            &&& t.has_application == s.has_application && t.has_packages == s.has_packages
        }),
{
}

} // verus!

//! Recovery of a request whose helper was interrupted, as a machine.

use vstd::prelude::*;

use crate::ids::ClockError;
use crate::report::{
    following, host_rank, next_host_step, Cause, CauseView, HostStep, Operation, Phase, Report,
};

verus! {

broadcast use vstd::string::group_string_axioms;

/// The journal that the interrupted request left.
#[derive(Clone, Copy, Debug, PartialEq, Eq, Structural)]
pub enum Journal {
    /// An activation; whether packages were changed before.
    Activation(bool),
    /// A rollback.
    Rollback,
}

/// What is to be done next.
#[derive(Clone, Copy, Debug, PartialEq, Eq, Structural)]
pub enum RecoveryAction {
    /// Write the status record.
    Record(Report),
    /// Compare the activation receipt with the journal; the answer is whether they match.
    MatchReceipt,
    /// Look up the active release; the answer is whether it is the target.
    MatchActive,
    /// Wait until the target release is healthy.
    TargetHealth,
    /// Install the units of the active release.
    InstallActiveUnits,
    /// Reload the service manager.
    ReloadActive,
    /// Write the ready marker.
    MarkReady,
    /// Stage the rollback point.
    StagePoint,
    /// Check the release that is to be restored.
    CheckRelease,
    /// Bring the release up again, one step at a time.
    Host(HostStep),
    /// Remove the activation receipt.
    RemoveReceipt,
    /// The activation had been committed.
    Committed,
    /// The release before the request was restored.
    RolledBack,
    /// The recovery failed.
    Fail,
}

/// A recovery.
pub struct Recovery {
    pub journal: Journal,
    pub pending: RecoveryAction,
    pub at: i64,
    pub cause: Option<Cause>,
}

/// What a [`Recovery`] holds.
#[verifier::ext_equal]
pub struct RecoveryView {
    pub journal: Journal,
    pub pending: RecoveryAction,
    pub at: i64,
    pub cause: Option<CauseView>,
}

impl View for Recovery {
    type V = RecoveryView;

    open spec fn view(&self) -> RecoveryView {
        RecoveryView {
            journal: self.journal,
            pending: self.pending,
            at: self.at,
            cause: Cause::option_view(self.cause),
        }
    }
}

/// What came back: an answer, or the text of a failure.
pub open spec fn answer_view(reply: Result<bool, String>) -> Result<bool, Seq<char>> {
    match reply {
        Ok(b) => Ok(b),
        Err(e) => Err(e@),
    }
}

/// The recovery is over.
pub open spec fn recovery_failed(s: RecoveryView, cause: CauseView) -> RecoveryView {
    RecoveryView { pending: RecoveryAction::Fail, cause: Some(cause), ..s }
}

/// A report comes next, unless the clock fails the recovery.
pub open spec fn recovery_reporting(
    s: RecoveryView,
    report: Report,
    now: Result<i64, ClockError>,
) -> RecoveryView {
    match now {
        Ok(t) => RecoveryView { pending: RecoveryAction::Record(report), at: t, ..s },
        Err(e) => recovery_failed(s, CauseView::Clock(e)),
    }
}

/// The phase with which a recovery is announced.
pub open spec fn recovery_phase(journal: Journal) -> Phase {
    match journal {
        Journal::Activation(false) => Phase::InterruptedRecovery,
        Journal::Activation(true) => Phase::InterruptedRecoveryWithPackages,
        Journal::Rollback => Phase::InterruptedRollbackRecovery,
    }
}

/// How a recovery begins.
pub open spec fn recovery_begun(journal: Journal, now: Result<i64, ClockError>) -> RecoveryView {
    recovery_reporting(
        RecoveryView { journal, pending: RecoveryAction::Fail, at: 0, cause: None },
        Report::Operation(
            match journal {
                Journal::Activation(_) => Operation::Recover,
                Journal::Rollback => Operation::RecoverRollback,
            },
        ),
        now,
    )
}

/// How a recovery goes on.
pub open spec fn recovery_step(
    s: RecoveryView,
    reply: Result<bool, Seq<char>>,
    now: Result<i64, ClockError>,
) -> RecoveryView {
    match (s.pending, reply) {
        (RecoveryAction::Committed, _) => s,
        (RecoveryAction::RolledBack, _) => s,
        (RecoveryAction::Fail, _) => s,
        // Whether the activation had been committed.
        (RecoveryAction::MatchReceipt, Ok(true)) => RecoveryView {
            pending: RecoveryAction::MatchActive,
            ..s
        },
        (RecoveryAction::MatchReceipt, Ok(false)) => RecoveryView {
            pending: RecoveryAction::CheckRelease,
            ..s
        },
        (RecoveryAction::MatchActive, Ok(true)) => RecoveryView {
            pending: RecoveryAction::TargetHealth,
            ..s
        },
        (RecoveryAction::MatchActive, _) => RecoveryView {
            pending: RecoveryAction::CheckRelease,
            ..s
        },
        (RecoveryAction::TargetHealth, Ok(_)) => RecoveryView {
            pending: RecoveryAction::InstallActiveUnits,
            ..s
        },
        (RecoveryAction::TargetHealth, Err(_)) => RecoveryView {
            pending: RecoveryAction::CheckRelease,
            ..s
        },
        (_, Err(e)) => recovery_failed(s, CauseView::Outside(e)),
        (RecoveryAction::Record(Report::Operation(Operation::Activate)), Ok(_)) => {
            recovery_reporting(s, Report::Rollback(true, false, false), now)
        },
        (RecoveryAction::Record(Report::Operation(_)), Ok(_)) => recovery_reporting(
            s,
            Report::Phase(recovery_phase(s.journal)),
            now,
        ),
        (RecoveryAction::Record(Report::Phase(_)), Ok(_)) => match s.journal {
            Journal::Activation(_) => RecoveryView { pending: RecoveryAction::MatchReceipt, ..s },
            Journal::Rollback => recovery_reporting(s, Report::Rollback(true, true, false), now),
        },
        (RecoveryAction::InstallActiveUnits, Ok(_)) => RecoveryView {
            pending: RecoveryAction::ReloadActive,
            ..s
        },
        (RecoveryAction::ReloadActive, Ok(_)) => RecoveryView {
            pending: RecoveryAction::MarkReady,
            ..s
        },
        (RecoveryAction::MarkReady, Ok(_)) => recovery_reporting(
            s,
            Report::Operation(Operation::Activate),
            now,
        ),
        (RecoveryAction::Record(Report::Rollback(true, false, false)), Ok(_)) => RecoveryView {
            pending: RecoveryAction::StagePoint,
            ..s
        },
        (RecoveryAction::StagePoint, Ok(_)) => RecoveryView {
            pending: RecoveryAction::Committed,
            ..s
        },
        // The release before the request is restored.
        (RecoveryAction::CheckRelease, Ok(_)) => match s.journal {
            Journal::Activation(_) => recovery_reporting(
                s,
                Report::Rollback(true, true, false),
                now,
            ),
            Journal::Rollback => RecoveryView {
                pending: RecoveryAction::Host(HostStep::Stop),
                ..s
            },
        },
        (RecoveryAction::Record(Report::Rollback(true, true, false)), Ok(_)) => match s.journal {
            Journal::Activation(_) => RecoveryView {
                pending: RecoveryAction::Host(HostStep::Stop),
                ..s
            },
            Journal::Rollback => RecoveryView { pending: RecoveryAction::CheckRelease, ..s },
        },
        (RecoveryAction::Host(step), Ok(_)) => match following(step, true) {
            Some(next) => RecoveryView { pending: RecoveryAction::Host(next), ..s },
            None => match s.journal {
                Journal::Activation(_) => RecoveryView {
                    pending: RecoveryAction::RemoveReceipt,
                    ..s
                },
                Journal::Rollback => recovery_reporting(
                    s,
                    Report::Rollback(true, true, true),
                    now,
                ),
            },
        },
        (RecoveryAction::RemoveReceipt, Ok(_)) => recovery_reporting(s, Report::ClearPoint, now),
        (RecoveryAction::Record(Report::ClearPoint), Ok(_)) => recovery_reporting(
            s,
            Report::Rollback(true, true, true),
            now,
        ),
        (RecoveryAction::Record(_), Ok(_)) => RecoveryView {
            pending: RecoveryAction::RolledBack,
            ..s
        },
    }
}

impl Recovery {
    fn set_failed(&mut self, cause: Cause)
        ensures
            final(self)@ == recovery_failed(old(self)@, cause@),
    {
        self.pending = RecoveryAction::Fail;
        self.cause = Some(cause);
    }

    fn set_report(&mut self, report: Report, now: Result<i64, ClockError>)
        ensures
            final(self)@ == recovery_reporting(old(self)@, report, now),
    {
        match now {
            Ok(t) => {
                self.pending = RecoveryAction::Record(report);
                self.at = t;
            },
            Err(e) => self.set_failed(Cause::Clock(e)),
        }
    }

    /// A recovery from a journal that passed every check.
    pub fn begin(journal: Journal, now: Result<i64, ClockError>) -> (r: Recovery)
        ensures
            r@ == recovery_begun(journal, now),
    {
        let mut r = Recovery { journal, pending: RecoveryAction::Fail, at: 0, cause: None };
        let operation = match journal {
            Journal::Activation(_) => Operation::Recover,
            Journal::Rollback => Operation::RecoverRollback,
        };
        r.set_report(Report::Operation(operation), now);
        r
    }

    fn phase(&self) -> (r: Phase)
        ensures
            r == recovery_phase(self.journal),
    {
        match self.journal {
            Journal::Activation(packages_changed) => {
                if packages_changed {
                    Phase::InterruptedRecoveryWithPackages
                } else {
                    Phase::InterruptedRecovery
                }
            },
            Journal::Rollback => Phase::InterruptedRollbackRecovery,
        }
    }

    fn is_activation(&self) -> (r: bool)
        ensures
            r == (self.journal matches Journal::Activation(_)),
    {
        match self.journal {
            Journal::Activation(_) => true,
            Journal::Rollback => false,
        }
    }

    /// Goes on after the pending action; `now` is what the clock says. The result is the
    /// next action.
    pub fn recover_interrupted_activation(
        &mut self,
        reply: Result<bool, String>,
        now: Result<i64, ClockError>,
    ) -> (r: RecoveryAction)
        ensures
            final(self)@ == recovery_step(old(self)@, answer_view(reply), now),
            r == final(self).pending,
    {
        match (self.pending, reply) {
            (RecoveryAction::Committed, _) => {},
            (RecoveryAction::RolledBack, _) => {},
            (RecoveryAction::Fail, _) => {},
            (RecoveryAction::MatchReceipt, Ok(matches)) => {
                if matches {
                    self.pending = RecoveryAction::MatchActive;
                } else {
                    self.pending = RecoveryAction::CheckRelease;
                }
            },
            (RecoveryAction::MatchActive, Ok(true)) => {
                self.pending = RecoveryAction::TargetHealth;
            },
            (RecoveryAction::MatchActive, _) => {
                self.pending = RecoveryAction::CheckRelease;
            },
            (RecoveryAction::TargetHealth, Ok(_)) => {
                self.pending = RecoveryAction::InstallActiveUnits;
            },
            (RecoveryAction::TargetHealth, Err(_)) => {
                self.pending = RecoveryAction::CheckRelease;
            },
            (_, Err(e)) => self.set_failed(Cause::Outside(e)),
            (RecoveryAction::Record(Report::Operation(Operation::Activate)), Ok(_)) => {
                self.set_report(Report::Rollback(true, false, false), now);
            },
            (RecoveryAction::Record(Report::Operation(_)), Ok(_)) => {
                let phase = self.phase();
                self.set_report(Report::Phase(phase), now);
            },
            (RecoveryAction::Record(Report::Phase(_)), Ok(_)) => {
                if self.is_activation() {
                    self.pending = RecoveryAction::MatchReceipt;
                } else {
                    self.set_report(Report::Rollback(true, true, false), now);
                }
            },
            (RecoveryAction::InstallActiveUnits, Ok(_)) => {
                self.pending = RecoveryAction::ReloadActive;
            },
            (RecoveryAction::ReloadActive, Ok(_)) => {
                self.pending = RecoveryAction::MarkReady;
            },
            (RecoveryAction::MarkReady, Ok(_)) => {
                self.set_report(Report::Operation(Operation::Activate), now);
            },
            (RecoveryAction::Record(Report::Rollback(true, false, false)), Ok(_)) => {
                self.pending = RecoveryAction::StagePoint;
            },
            (RecoveryAction::StagePoint, Ok(_)) => {
                self.pending = RecoveryAction::Committed;
            },
            (RecoveryAction::CheckRelease, Ok(_)) => {
                if self.is_activation() {
                    self.set_report(Report::Rollback(true, true, false), now);
                } else {
                    self.pending = RecoveryAction::Host(HostStep::Stop);
                }
            },
            (RecoveryAction::Record(Report::Rollback(true, true, false)), Ok(_)) => {
                if self.is_activation() {
                    self.pending = RecoveryAction::Host(HostStep::Stop);
                } else {
                    self.pending = RecoveryAction::CheckRelease;
                }
            },
            (RecoveryAction::Host(step), Ok(_)) => {
                match next_host_step(step, true) {
                    Some(next) => {
                        self.pending = RecoveryAction::Host(next);
                    },
                    None => {
                        if self.is_activation() {
                            self.pending = RecoveryAction::RemoveReceipt;
                        } else {
                            self.set_report(Report::Rollback(true, true, true), now);
                        }
                    },
                }
            },
            (RecoveryAction::RemoveReceipt, Ok(_)) => self.set_report(Report::ClearPoint, now),
            (RecoveryAction::Record(Report::ClearPoint), Ok(_)) => {
                self.set_report(Report::Rollback(true, true, true), now);
            },
            (RecoveryAction::Record(_), Ok(_)) => {
                self.pending = RecoveryAction::RolledBack;
            },
        }
        self.pending
    }
}

/// An interrupted activation counts as committed only where its receipt matches the
/// journal, its release is the active one, and that release is healthy.
pub proof fn commitment_is_proven(
    s: RecoveryView,
    reply: Result<bool, Seq<char>>,
    now: Result<i64, ClockError>,
)
    ensures
        ({
            let t = recovery_step(s, reply, now);
            &&& t.pending == RecoveryAction::Committed && s.pending != RecoveryAction::Committed
                ==> s.pending == RecoveryAction::StagePoint && reply is Ok
            &&& t.pending == RecoveryAction::InstallActiveUnits && s.pending
                != RecoveryAction::InstallActiveUnits ==> s.pending == RecoveryAction::TargetHealth
                && reply is Ok
            &&& t.pending == RecoveryAction::TargetHealth && s.pending
                != RecoveryAction::TargetHealth ==> s.pending == RecoveryAction::MatchActive && reply
                == Ok::<bool, Seq<char>>(true)
            &&& t.pending == RecoveryAction::MatchActive && s.pending
                != RecoveryAction::MatchActive ==> s.pending == RecoveryAction::MatchReceipt && reply
                == Ok::<bool, Seq<char>>(true)
        }),
{
}

/// A recovery reports the prior release as restored only after every host step succeeded.
pub proof fn restoration_is_complete(
    s: RecoveryView,
    reply: Result<bool, Seq<char>>,
    now: Result<i64, ClockError>,
)
    ensures
        ({
            let t = recovery_step(s, reply, now);
            &&& t.pending == RecoveryAction::RemoveReceipt && s.pending
                != RecoveryAction::RemoveReceipt ==> s.pending == RecoveryAction::Host(
                HostStep::Ready,
            ) && reply is Ok
            &&& t.pending == RecoveryAction::Record(Report::ClearPoint) && s.pending
                != RecoveryAction::Record(Report::ClearPoint) ==> s.pending
                == RecoveryAction::RemoveReceipt && reply is Ok
            &&& t.pending == RecoveryAction::Record(Report::Rollback(true, true, true)) && s.pending
                != RecoveryAction::Record(Report::Rollback(true, true, true)) ==> reply is Ok && (
            s.pending == RecoveryAction::Record(Report::ClearPoint) || s.pending
                == RecoveryAction::Host(HostStep::Ready) && s.journal == Journal::Rollback)
        }),
{
}

/// How many replies a recovery can still take.
pub open spec fn recovery_rank(s: RecoveryView) -> int {
    match s.pending {
        RecoveryAction::Committed | RecoveryAction::RolledBack | RecoveryAction::Fail => 0,
        RecoveryAction::Record(Report::Rollback(true, true, true)) => 1,
        RecoveryAction::Record(Report::ClearPoint) => 2,
        RecoveryAction::RemoveReceipt => 3,
        RecoveryAction::Host(step) => 11 - host_rank(step),
        RecoveryAction::CheckRelease => if s.journal == Journal::Rollback {
            12
        } else {
            13
        },
        RecoveryAction::Record(Report::Rollback(true, true, false)) => if s.journal
            == Journal::Rollback {
            13
        } else {
            12
        },
        RecoveryAction::StagePoint => 1,
        RecoveryAction::Record(Report::Rollback(true, false, false)) => 2,
        RecoveryAction::Record(Report::Operation(Operation::Activate)) => 3,
        RecoveryAction::MarkReady => 4,
        RecoveryAction::ReloadActive => 5,
        RecoveryAction::InstallActiveUnits => 6,
        RecoveryAction::TargetHealth => 14,
        RecoveryAction::MatchActive => 15,
        RecoveryAction::MatchReceipt => 16,
        RecoveryAction::Record(Report::Phase(_)) => 17,
        RecoveryAction::Record(Report::Operation(_)) => 18,
        RecoveryAction::Record(_) => 1,
    }
}

/// Every reply brings a recovery nearer to its end.
pub proof fn recoveries_end(
    s: RecoveryView,
    reply: Result<bool, Seq<char>>,
    now: Result<i64, ClockError>,
)
    requires
        recovery_rank(s) > 0,
    ensures
        0 <= recovery_rank(recovery_step(s, reply, now)) < recovery_rank(s),
{
}

/// What proves that an interrupted activation had succeeded, and completes its record. With
/// packages or without, the phase that is recorded differs.
pub open spec fn commitment(packages: bool) -> Seq<RecoveryAction> {
    seq![
        RecoveryAction::Record(Report::Operation(Operation::Recover)),
        RecoveryAction::Record(
            Report::Phase(
                if packages {
                    Phase::InterruptedRecoveryWithPackages
                } else {
                    Phase::InterruptedRecovery
                },
            ),
        ),
        RecoveryAction::MatchReceipt,
        RecoveryAction::MatchActive,
        RecoveryAction::TargetHealth,
        RecoveryAction::InstallActiveUnits,
        RecoveryAction::ReloadActive,
        RecoveryAction::MarkReady,
        RecoveryAction::Record(Report::Operation(Operation::Activate)),
        RecoveryAction::Record(Report::Rollback(true, false, false)),
        RecoveryAction::StagePoint,
    ]
}

/// What undoes an interrupted activation.
pub open spec fn undoing() -> Seq<RecoveryAction> {
    seq![
        RecoveryAction::CheckRelease,
        RecoveryAction::Record(Report::Rollback(true, true, false)),
        RecoveryAction::Host(HostStep::Stop),
        RecoveryAction::Host(HostStep::InstallUnits),
        RecoveryAction::Host(HostStep::Reload),
        RecoveryAction::Host(HostStep::Switch),
        RecoveryAction::Host(HostStep::RestoreDatabase),
        RecoveryAction::Host(HostStep::Start),
        RecoveryAction::Host(HostStep::Health),
        RecoveryAction::Host(HostStep::Ready),
        RecoveryAction::RemoveReceipt,
        RecoveryAction::Record(Report::ClearPoint),
        RecoveryAction::Record(Report::Rollback(true, true, true)),
    ]
}

/// What undoes an interrupted rollback.
pub open spec fn retreat() -> Seq<RecoveryAction> {
    seq![
        RecoveryAction::Record(Report::Operation(Operation::RecoverRollback)),
        RecoveryAction::Record(Report::Phase(Phase::InterruptedRollbackRecovery)),
        RecoveryAction::Record(Report::Rollback(true, true, false)),
        RecoveryAction::CheckRelease,
        RecoveryAction::Host(HostStep::Stop),
        RecoveryAction::Host(HostStep::InstallUnits),
        RecoveryAction::Host(HostStep::Reload),
        RecoveryAction::Host(HostStep::Switch),
        RecoveryAction::Host(HostStep::RestoreDatabase),
        RecoveryAction::Host(HostStep::Start),
        RecoveryAction::Host(HostStep::Health),
        RecoveryAction::Host(HostStep::Ready),
        RecoveryAction::Record(Report::Rollback(true, true, true)),
    ]
}

/// A whole run: the state after some replies, and every action that was answered, with the
/// answer; none where it failed.
pub open spec fn recovery_run(
    journal: Journal,
    start: Result<i64, ClockError>,
    told: Seq<(Result<bool, Seq<char>>, Result<i64, ClockError>)>,
) -> (RecoveryView, Seq<(RecoveryAction, Option<bool>)>)
    decreases told.len(),
{
    if told.len() == 0 {
        (recovery_begun(journal, start), Seq::empty())
    } else {
        let (s, asked) = recovery_run(journal, start, told.drop_last());
        let (reply, now) = told.last();
        (
            recovery_step(s, reply, now),
            if s.pending == RecoveryAction::Committed || s.pending == RecoveryAction::RolledBack
                || s.pending == RecoveryAction::Fail {
                asked
            } else {
                asked.push(
                    (
                        s.pending,
                        match reply {
                            Ok(b) => Some(b),
                            Err(_) => None,
                        },
                    ),
                )
            },
        )
    }
}

/// The actions were answered without fault, in this order.
pub open spec fn went_well(
    asked: Seq<(RecoveryAction, Option<bool>)>,
    actions: Seq<RecoveryAction>,
) -> bool {
    asked.len() == actions.len() && forall|i: int|
        0 <= i < asked.len() ==> (#[trigger] asked[i]).0 == actions[i] && asked[i].1 is Some
}

/// The answer shows that the interrupted activation had not succeeded: its receipt does not
/// match, another release is active, or the release is not healthy.
pub open spec fn is_denial(answer: (RecoveryAction, Option<bool>)) -> bool {
    ||| answer == (RecoveryAction::MatchReceipt, Some(false))
    ||| answer.0 == RecoveryAction::MatchActive && answer.1 != Some(true)
    ||| answer == (RecoveryAction::TargetHealth, None::<bool>)
}

/// The answers so far are the first of a commitment.
#[verifier::opaque]
spec fn is_committing(
    asked: Seq<(RecoveryAction, Option<bool>)>,
    packages: bool,
    n: int,
) -> bool {
    &&& went_well(asked, commitment(packages).take(n))
    &&& n > 2 ==> asked[2].1 == Some(true)
    &&& n > 3 ==> asked[3].1 == Some(true)
}

/// After a denial, the answers so far are the first of the undoing.
#[verifier::opaque]
spec fn is_undoing(asked: Seq<(RecoveryAction, Option<bool>)>, n: int) -> bool {
    &&& asked.len() > n
    &&& is_denial(asked[asked.len() - n - 1])
    &&& went_well(asked.skip(asked.len() - n), undoing().take(n))
}

/// The answers so far are the first of a retreat.
#[verifier::opaque]
spec fn is_retreating(asked: Seq<(RecoveryAction, Option<bool>)>, n: int) -> bool {
    went_well(asked, retreat().take(n))
}

proof fn committing_goes_on(
    asked: Seq<(RecoveryAction, Option<bool>)>,
    packages: bool,
    n: int,
    answer: Option<bool>,
)
    requires
        is_committing(asked, packages, n),
        0 <= n < 11,
        answer is Some,
        n == 2 || n == 3 ==> answer == Some(true),
    ensures
        is_committing(asked.push((commitment(packages)[n], answer)), packages, n + 1),
{
    reveal(is_committing);
}

proof fn undoing_goes_on(
    asked: Seq<(RecoveryAction, Option<bool>)>,
    n: int,
    answer: Option<bool>,
)
    requires
        is_undoing(asked, n),
        0 <= n < 13,
        answer is Some,
    ensures
        is_undoing(asked.push((undoing()[n], answer)), n + 1),
{
    reveal(is_undoing);
    let more = asked.push((undoing()[n], answer));
    assert(more.skip(more.len() - (n + 1)) =~= asked.skip(asked.len() - n).push(
        (undoing()[n], answer),
    ));
}

proof fn undoing_begins(
    asked: Seq<(RecoveryAction, Option<bool>)>,
    denial: (RecoveryAction, Option<bool>),
)
    requires
        is_denial(denial),
    ensures
        is_undoing(asked.push(denial), 0),
{
    reveal(is_undoing);
}

proof fn retreat_goes_on(asked: Seq<(RecoveryAction, Option<bool>)>, n: int, answer: Option<bool>)
    requires
        is_retreating(asked, n),
        0 <= n < 13,
        answer is Some,
    ensures
        is_retreating(asked.push((retreat()[n], answer)), n + 1),
{
    reveal(is_retreating);
}

spec fn place(step: HostStep) -> int {
    match step {
        HostStep::Stop => 0,
        HostStep::InstallUnits => 1,
        HostStep::Reload => 2,
        HostStep::Switch => 3,
        HostStep::RestoreDatabase => 4,
        HostStep::Start => 5,
        HostStep::Health => 6,
        HostStep::Ready => 7,
    }
}

/// What holds of every state of a run.
spec fn recovery_fits(s: RecoveryView, asked: Seq<(RecoveryAction, Option<bool>)>) -> bool {
    match s.journal {
        Journal::Activation(packages) => match s.pending {
            RecoveryAction::Record(Report::Operation(Operation::Recover)) => is_committing(
                asked,
                packages,
                0,
            ),
            RecoveryAction::Record(Report::Phase(p)) => commitment(packages)[1] == s.pending
                && is_committing(asked, packages, 1),
            RecoveryAction::MatchReceipt => is_committing(asked, packages, 2),
            RecoveryAction::MatchActive => is_committing(asked, packages, 3),
            RecoveryAction::TargetHealth => is_committing(asked, packages, 4),
            RecoveryAction::InstallActiveUnits => is_committing(asked, packages, 5),
            RecoveryAction::ReloadActive => is_committing(asked, packages, 6),
            RecoveryAction::MarkReady => is_committing(asked, packages, 7),
            RecoveryAction::Record(Report::Operation(Operation::Activate)) => is_committing(
                asked,
                packages,
                8,
            ),
            RecoveryAction::Record(Report::Rollback(true, false, false)) => is_committing(
                asked,
                packages,
                9,
            ),
            RecoveryAction::StagePoint => is_committing(asked, packages, 10),
            RecoveryAction::Committed => is_committing(asked, packages, 11),
            RecoveryAction::CheckRelease => is_undoing(asked, 0),
            RecoveryAction::Record(Report::Rollback(true, true, false)) => is_undoing(asked, 1),
            RecoveryAction::Host(step) => is_undoing(asked, 2 + place(step)),
            RecoveryAction::RemoveReceipt => is_undoing(asked, 10),
            RecoveryAction::Record(Report::ClearPoint) => is_undoing(asked, 11),
            RecoveryAction::Record(Report::Rollback(true, true, true)) => is_undoing(asked, 12),
            RecoveryAction::RolledBack => is_undoing(asked, 13),
            RecoveryAction::Fail => true,
            _ => false,
        },
        Journal::Rollback => match s.pending {
            RecoveryAction::Record(Report::Operation(Operation::RecoverRollback)) => is_retreating(asked, 0),
            RecoveryAction::Record(Report::Phase(p)) => retreat()[1] == s.pending && is_retreating(asked, 1),
            RecoveryAction::Record(Report::Rollback(true, true, false)) => is_retreating(asked, 2),
            RecoveryAction::CheckRelease => is_retreating(asked, 3),
            RecoveryAction::Host(step) => is_retreating(asked, 4 + place(step)),
            RecoveryAction::Record(Report::Rollback(true, true, true)) => is_retreating(asked, 12),
            RecoveryAction::RolledBack => is_retreating(asked, 13),
            RecoveryAction::Fail => true,
            _ => false,
        },
    }
}

/// The action asks whether the activation had succeeded.
spec fn is_test(a: RecoveryAction) -> bool {
    a == RecoveryAction::MatchReceipt || a == RecoveryAction::MatchActive || a
        == RecoveryAction::TargetHealth
}

/// The place of an action in its list; the undoing counts from a hundred.
spec fn position(journal: Journal, a: RecoveryAction) -> int {
    match journal {
        Journal::Activation(_) => match a {
            RecoveryAction::Record(Report::Operation(Operation::Recover)) => 0,
            RecoveryAction::Record(Report::Phase(_)) => 1,
            RecoveryAction::MatchReceipt => 2,
            RecoveryAction::MatchActive => 3,
            RecoveryAction::TargetHealth => 4,
            RecoveryAction::InstallActiveUnits => 5,
            RecoveryAction::ReloadActive => 6,
            RecoveryAction::MarkReady => 7,
            RecoveryAction::Record(Report::Operation(Operation::Activate)) => 8,
            RecoveryAction::Record(Report::Rollback(true, false, false)) => 9,
            RecoveryAction::StagePoint => 10,
            RecoveryAction::CheckRelease => 100,
            RecoveryAction::Record(Report::Rollback(true, true, false)) => 101,
            RecoveryAction::Host(step) => 102 + place(step),
            RecoveryAction::RemoveReceipt => 110,
            RecoveryAction::Record(Report::ClearPoint) => 111,
            RecoveryAction::Record(Report::Rollback(true, true, true)) => 112,
            _ => 200,
        },
        Journal::Rollback => match a {
            RecoveryAction::Record(Report::Operation(Operation::RecoverRollback)) => 0,
            RecoveryAction::Record(Report::Phase(_)) => 1,
            RecoveryAction::Record(Report::Rollback(true, true, false)) => 2,
            RecoveryAction::CheckRelease => 3,
            RecoveryAction::Host(step) => 4 + place(step),
            RecoveryAction::Record(Report::Rollback(true, true, true)) => 12,
            _ => 200,
        },
    }
}

proof fn recoveries_fit(
    journal: Journal,
    start: Result<i64, ClockError>,
    told: Seq<(Result<bool, Seq<char>>, Result<i64, ClockError>)>,
)
    ensures
        recovery_fits(recovery_run(journal, start, told).0, recovery_run(journal, start, told).1),
        recovery_run(journal, start, told).0.journal == journal,
    decreases told.len(),
{
    if told.len() > 0 {
        recoveries_fit(journal, start, told.drop_last());
        let (s, asked) = recovery_run(journal, start, told.drop_last());
        let (reply, now) = told.last();
        let answer = match reply {
            Ok(b) => Some(b),
            Err(_) => None,
        };
        let n = position(s.journal, s.pending);
        match s.journal {
            Journal::Activation(packages) => {
                if is_test(s.pending) && is_denial((s.pending, answer)) {
                    undoing_begins(asked, (s.pending, answer));
                } else if 0 <= n < 11 && answer is Some {
                    assert(commitment(packages)[n] == s.pending);
                    committing_goes_on(asked, packages, n, answer);
                } else if 100 <= n < 113 && answer is Some {
                    assert(undoing()[n - 100] == s.pending);
                    undoing_goes_on(asked, n - 100, answer);
                }
            },
            Journal::Rollback => {
                if 0 <= n < 13 && answer is Some {
                    assert(retreat()[n] == s.pending);
                    retreat_goes_on(asked, n, answer);
                }
            },
        }
    } else {
        reveal(is_committing);
        reveal(is_retreating);
    }
}

/// An interrupted activation is taken for successful only where its receipt matches, its
/// release is the active one and is healthy; then the units are installed and reloaded, the
/// helper is marked ready, and the rollback point is staged, in this order and with nothing
/// besides.
pub proof fn commitment_has_passed_every_test(
    journal: Journal,
    start: Result<i64, ClockError>,
    told: Seq<(Result<bool, Seq<char>>, Result<i64, ClockError>)>,
)
    requires
        recovery_run(journal, start, told).0.pending == RecoveryAction::Committed,
    ensures
        ({
            let asked = recovery_run(journal, start, told).1;
            &&& journal is Activation
            &&& went_well(asked, commitment(journal->Activation_0))
            &&& asked[2] == (RecoveryAction::MatchReceipt, Some(true))
            &&& asked[3] == (RecoveryAction::MatchActive, Some(true))
        }),
{
    reveal(is_committing);
    recoveries_fit(journal, start, told);
    assert(commitment(true).take(11) =~= commitment(true));
    assert(commitment(false).take(11) =~= commitment(false));
}

/// A recovery reports that it rolled back only after every step of the restoration: the
/// release to restore was checked, the services were stopped, its units installed, reloaded
/// and switched to, the database restored, the services started, found healthy and marked
/// ready. An interrupted activation is undone only after something denied its success, and
/// its receipt and rollback point are taken away.
pub proof fn undoing_has_passed_every_step(
    journal: Journal,
    start: Result<i64, ClockError>,
    told: Seq<(Result<bool, Seq<char>>, Result<i64, ClockError>)>,
)
    requires
        recovery_run(journal, start, told).0.pending == RecoveryAction::RolledBack,
    ensures
        ({
            let asked = recovery_run(journal, start, told).1;
            match journal {
                Journal::Activation(_) => asked.len() > 13 && is_denial(asked[asked.len() - 14])
                    && went_well(asked.skip(asked.len() - 13), undoing()),
                Journal::Rollback => went_well(asked, retreat()),
            }
        }),
{
    reveal(is_undoing);
    reveal(is_retreating);
    recoveries_fit(journal, start, told);
    assert(undoing().take(13) =~= undoing());
    assert(retreat().take(13) =~= retreat());
}

/// A recovery in which nothing fails comes to its end: an interrupted rollback is undone,
/// and an interrupted activation is committed where its receipt matches and its release is
/// active, and undone where the receipt does not match.
pub proof fn a_smooth_recovery_ends(
    journal: Journal,
    start: i64,
    told: Seq<(Result<bool, Seq<char>>, Result<i64, ClockError>)>,
    matches: bool,
)
    requires
        forall|i: int|
            0 <= i < told.len() ==> (#[trigger] told[i]).0 == Ok::<bool, Seq<char>>(matches)
                && told[i].1 is Ok,
    ensures
        ({
            let s = recovery_run(journal, Ok(start), told).0;
            let n = told.len() as int;
            match journal {
                Journal::Rollback => s.pending == (if n < 13 {
                    retreat()[n]
                } else {
                    RecoveryAction::RolledBack
                }),
                Journal::Activation(packages) => s.pending == (if matches {
                    if n < 11 {
                        commitment(packages)[n]
                    } else {
                        RecoveryAction::Committed
                    }
                } else if n < 3 {
                    commitment(packages)[n]
                } else if n < 16 {
                    undoing()[n - 3]
                } else {
                    RecoveryAction::RolledBack
                }),
            }
        }),
        recovery_run(journal, Ok(start), told).0.journal == journal,
    decreases told.len(),
{
    if told.len() > 0 {
        let front = told.drop_last();
        assert forall|i: int| 0 <= i < front.len() implies (#[trigger] front[i]).0 == Ok::<
            bool,
            Seq<char>,
        >(matches) && front[i].1 is Ok by {
            assert(front[i] == told[i]);
        }
        a_smooth_recovery_ends(journal, start, front, matches);
        assert(told[told.len() - 1] == told.last());
    }
}

} // verus!

//! Activations, rollbacks, recoveries and requests, step by step.

use vexa_vm::activation::{Action, Activation, Target, Verdict};
use vexa_vm::health::{HealthStep, HealthWait};
use vexa_vm::ids::ClockError;
use vexa_vm::recovery::{Journal, Recovery, RecoveryAction};
use vexa_vm::report::{apply_report, Ending, HostStep, Phase, Report, ReportSubject};
use vexa_vm::request::{
    check_plan_identity, consume_request, dispatch, reconcile_completed_request, usage, Cli,
    CliError, Consumption, InterruptedRecovery, Request, RequestAction, RequestError,
    RequestReply,
};
use vexa_vm::rollback::{
    check_rollback_releases, check_rollback_request, check_rollback_snapshot, Rollback,
    RollbackAction, RollbackError, RollbackTarget,
};
use vexa_vm::status::{StatusWriter, UpdateOutcome};
use vexa_vm::text::eq_ignore_ascii_case;

const ID: &str = "11111111-2222-3333-4444-555555555555";

/// Runs an activation in which the named actions fail.
fn activate(application: bool, packages: bool, failing: &[Action]) -> (Activation, Vec<Action>) {
    let mut activation = Activation::begin(application, packages, Ok(100));
    let mut steps = Vec::new();
    let mut action = activation.pending;
    while action != Action::Succeed && action != Action::Fail {
        steps.push(action);
        let reply = if failing.contains(&action) { Err("broken".to_owned()) } else { Ok(()) };
        action = activation.execute_activation(reply, Ok(100 + steps.len() as i64));
    }
    (activation, steps)
}

fn position(steps: &[Action], action: Action) -> usize {
    steps.iter().position(|step| *step == action).unwrap()
}

#[test]
fn an_activation_passes_every_milestone() {
    let (activation, steps) = activate(true, true, &[]);
    assert_eq!(activation.pending, Action::Succeed);
    assert_eq!(activation.verdict, Verdict::Open);
    assert_eq!(activation.error_text(), "");
    let journal = position(&steps, Action::WriteJournal);
    let backup = position(&steps, Action::BackupDatabase);
    let stop = position(&steps, Action::Host(HostStep::Stop, Target::New));
    let receipt = position(&steps, Action::WriteReceipt);
    assert!(backup < journal && journal < stop && stop < receipt);
    assert_eq!(steps.last(), Some(&Action::Record(Report::End(Ending::Completed))));
}

#[test]
fn a_failed_start_restores_the_previous_release() {
    let failing = Action::Host(HostStep::Health, Target::New);
    let (activation, steps) = activate(true, false, &[failing]);
    assert_eq!(activation.pending, Action::Fail);
    assert_eq!(activation.verdict, Verdict::RolledBack);
    assert!(steps.contains(&Action::Host(HostStep::RestoreDatabase, Target::Previous)));
    assert!(steps.contains(&Action::RemoveReceipt));
    assert_eq!(steps.last(), Some(&Action::Record(Report::End(Ending::RolledBack))));
    assert_eq!(activation.error_text(), "new release failed and was rolled back");
}

#[test]
fn reports_that_fail_do_not_stop_a_rollback() {
    let (activation, steps) = activate(
        true,
        false,
        &[Action::WriteReceipt, Action::Record(Report::Rollback(true, true, false))],
    );
    assert_eq!(activation.verdict, Verdict::RolledBack);
    assert!(steps.contains(&Action::Host(HostStep::Ready, Target::Previous)));
    assert_eq!(
        activation.error_text(),
        "new release failed and was rolled back: broken; rollback reporting requires \
         attention: could not record rollback start: broken"
    );
}

#[test]
fn a_rollback_that_fails_is_said_to_need_attention() {
    let (activation, steps) = activate(
        true,
        false,
        &[
            Action::Host(HostStep::Start, Target::New),
            Action::Host(HostStep::Start, Target::Previous),
        ],
    );
    assert_eq!(activation.verdict, Verdict::RollbackFailed);
    assert_eq!(steps.last(), Some(&Action::Record(Report::End(Ending::RollbackFailed))));
    assert_eq!(
        activation.error_text(),
        "activation failed: broken; automatic rollback failed: broken; reporting: no \
         additional reporting error"
    );
}

#[test]
fn nothing_is_undone_before_the_host_was_changed() {
    let (activation, steps) = activate(true, false, &[Action::BackupDatabase]);
    assert_eq!(activation.verdict, Verdict::Failed);
    assert_eq!(activation.error_text(), "broken");
    assert_eq!(steps.last(), Some(&Action::BackupDatabase));
    let (_, steps) = activate(true, true, &[Action::WriteJournal]);
    assert_eq!(
        steps.last(),
        Some(&Action::Record(Report::End(Ending::PostPackageJournalFailed)))
    );
}

#[test]
fn packages_alone_only_restart_the_service() {
    let (activation, steps) = activate(false, true, &[]);
    assert_eq!(activation.pending, Action::Succeed);
    assert!(!steps.contains(&Action::WriteJournal));
    assert!(position(&steps, Action::Restart) < position(&steps, Action::RemoveSnapshot));
    let (_, steps) = activate(false, true, &[Action::AnyHealth]);
    assert_eq!(
        steps.last(),
        Some(&Action::Record(Report::End(Ending::PostPackageHealthFailed)))
    );
}

#[test]
fn a_broken_clock_ends_an_activation() {
    let activation = Activation::begin(true, false, Err(ClockError::BeforeEpoch));
    assert_eq!(activation.pending, Action::Fail);
    assert_eq!(activation.error_text(), "system clock is before the Unix epoch");
}

/// Runs a rollback in which the named actions fail.
fn roll_back(failing: &[RollbackAction]) -> (Rollback, Vec<RollbackAction>) {
    let mut rollback = Rollback::begin(Ok(100));
    let mut steps = Vec::new();
    let mut action = rollback.pending;
    while action != RollbackAction::Succeed && action != RollbackAction::Fail {
        steps.push(action);
        let reply = if failing.contains(&action) { Err("broken".to_owned()) } else { Ok(()) };
        action = rollback.execute_rollback(reply, Ok(200), 150);
    }
    (rollback, steps)
}

#[test]
fn a_rollback_uses_its_receipt_up() {
    let (rollback, steps) = roll_back(&[]);
    assert_eq!(rollback.pending, RollbackAction::Succeed);
    assert_eq!(
        steps[steps.len() - 2..],
        [RollbackAction::RemoveReceipt, RollbackAction::WithdrawPoint]
    );
    assert_eq!(rollback.completion_time, 200);
}

#[test]
fn a_committed_rollback_stays_successful() {
    let (rollback, steps) = roll_back(&[RollbackAction::RemoveReceipt]);
    assert_eq!(rollback.pending, RollbackAction::Succeed);
    assert_eq!(
        steps.last(),
        Some(&RollbackAction::Record(Report::End(Ending::RollbackCompletedWithWarnings)))
    );
}

#[test]
fn a_failed_rollback_returns_to_the_original_release() {
    let failing = RollbackAction::Host(HostStep::Switch, RollbackTarget::Requested);
    let (rollback, steps) = roll_back(&[failing]);
    assert_eq!(rollback.pending, RollbackAction::Fail);
    assert!(steps.contains(&RollbackAction::Host(HostStep::Ready, RollbackTarget::Original)));
    assert_eq!(
        steps.last(),
        Some(&RollbackAction::Record(Report::End(Ending::RollbackFailedRecovered)))
    );
    assert_eq!(
        rollback.error_text(),
        "requested rollback failed; original release recovered"
    );
}

#[test]
fn an_unrecorded_rollback_is_undone() {
    let failing = RollbackAction::Record(Report::End(Ending::RollbackCompleted));
    let (rollback, steps) = roll_back(&[failing]);
    assert_eq!(rollback.pending, RollbackAction::Fail);
    assert!(steps.contains(&RollbackAction::Host(HostStep::Ready, RollbackTarget::Original)));
    assert!(!steps.contains(&RollbackAction::RemoveReceipt));
    assert_eq!(
        rollback.error_text(),
        "rollback commit status failed and the original release was restored: broken; \
         status: recovery recorded"
    );
    let (rollback, _) = roll_back(&[
        RollbackAction::Host(HostStep::Stop, RollbackTarget::Requested),
        RollbackAction::Host(HostStep::Stop, RollbackTarget::Original),
    ]);
    assert_eq!(
        rollback.error_text(),
        "rollback failed: broken; recovery failed: broken; status: operator intervention recorded"
    );
}

#[test]
fn rollback_requests_are_checked() {
    assert!(eq_ignore_ascii_case("ABC", "abc"));
    assert!(!eq_ignore_ascii_case("ABC", "abd"));
    assert_eq!(check_rollback_snapshot(3, "AB", 3, "ab"), Ok(()));
    assert_eq!(check_rollback_snapshot(3, "AB", 4, "ab"), Err(RollbackError::SnapshotChanged));
    let application = vexa_vm::journal::ComponentSet { vexa_vm: true, qemu: false, libvirt: false };
    assert!(check_rollback_request(ID, application).is_ok());
    assert!(check_rollback_request("nobody", application).is_err());
    let more = vexa_vm::journal::ComponentSet { qemu: true, ..application };
    assert!(check_rollback_request(ID, more).is_err());
    assert!(check_rollback_releases("2.0.0", "2.0.0", "1.0.0").is_ok());
    assert!(check_rollback_releases("3.0.0", "2.0.0", "1.0.0").is_err());
}

/// Runs a recovery with answers by action.
fn recover(
    journal: Journal,
    answer: impl Fn(RecoveryAction) -> Result<bool, String>,
) -> (Recovery, Vec<RecoveryAction>) {
    let mut recovery = Recovery::begin(journal, Ok(100));
    let mut steps = Vec::new();
    let mut action = recovery.pending;
    while !matches!(
        action,
        RecoveryAction::Committed | RecoveryAction::RolledBack | RecoveryAction::Fail
    ) {
        steps.push(action);
        action = recovery.recover_interrupted_activation(answer(action), Ok(101));
    }
    (recovery, steps)
}

#[test]
fn a_committed_activation_is_recognized() {
    let (recovery, steps) = recover(Journal::Activation(false), |_| Ok(true));
    assert_eq!(recovery.pending, RecoveryAction::Committed);
    assert!(steps.contains(&RecoveryAction::StagePoint));
    assert!(!steps.contains(&RecoveryAction::Host(HostStep::Stop)));
}

#[test]
fn an_unproven_activation_is_undone() {
    for doubtful in [
        RecoveryAction::MatchReceipt,
        RecoveryAction::MatchActive,
    ] {
        let (recovery, steps) =
            recover(Journal::Activation(true), |action| Ok(action != doubtful));
        assert_eq!(recovery.pending, RecoveryAction::RolledBack);
        assert!(steps.contains(&RecoveryAction::Host(HostStep::RestoreDatabase)));
        assert!(steps.contains(&RecoveryAction::RemoveReceipt));
    }
    let (recovery, _) = recover(Journal::Activation(false), |action| {
        if action == RecoveryAction::TargetHealth {
            Err("not healthy".to_owned())
        } else {
            Ok(true)
        }
    });
    assert_eq!(recovery.pending, RecoveryAction::RolledBack);
}

#[test]
fn an_interrupted_rollback_is_undone() {
    let (recovery, steps) = recover(Journal::Rollback, |_| Ok(true));
    assert_eq!(recovery.pending, RecoveryAction::RolledBack);
    assert!(!steps.contains(&RecoveryAction::MatchReceipt));
    assert!(steps.contains(&RecoveryAction::Host(HostStep::Ready)));
    let (recovery, _) = recover(Journal::Rollback, |action| {
        if action == RecoveryAction::Host(HostStep::Start) {
            Err("broken".to_owned())
        } else {
            Ok(true)
        }
    });
    assert_eq!(recovery.pending, RecoveryAction::Fail);
    assert_eq!(recovery.cause.unwrap().text(), "broken");
}

#[test]
fn a_request_is_carried_out_once() {
    let mut request = Request::begin(false, false);
    assert_eq!(request.pending, RequestAction::StartStatus);
    assert_eq!(request.execute(RequestReply::Done, false, Ok(1)), RequestAction::Consume);
    assert_eq!(request.execute(RequestReply::Done, false, Ok(1)), RequestAction::Execute);
    assert_eq!(request.execute(RequestReply::Done, true, Ok(1)), RequestAction::Archive);
    assert_eq!(request.execute(RequestReply::Done, true, Ok(1)), RequestAction::Succeed);

    let mut replay = Request::begin(true, false);
    assert_eq!(replay.pending, RequestAction::Reconcile);
    assert_eq!(replay.execute(RequestReply::Done, true, Ok(1)), RequestAction::Fail);
    assert!(matches!(replay.error, Some(RequestError::AlreadyConsumed)));
}

#[test]
fn an_interrupted_request_is_recovered_and_put_aside() {
    let mut request = Request::begin(false, true);
    assert_eq!(request.execute(RequestReply::Done, false, Ok(1)), RequestAction::Recover);
    let recovered = RequestReply::Recovered(InterruptedRecovery::RolledBack);
    assert_eq!(
        request.execute(recovered, false, Ok(2)),
        RequestAction::Record(Report::End(Ending::RecoveredRollback))
    );
    assert_eq!(request.execute(RequestReply::Done, true, Ok(3)), RequestAction::CleanUp);
    assert_eq!(request.execute(RequestReply::Done, true, Ok(3)), RequestAction::Quarantine);
    assert_eq!(request.execute(RequestReply::Done, true, Ok(3)), RequestAction::Fail);
    assert!(matches!(request.error, Some(RequestError::Reconciled)));
}

#[test]
fn a_failed_request_is_recorded_and_archived() {
    let mut request = Request::begin(false, false);
    request.execute(RequestReply::Done, false, Ok(1));
    request.execute(RequestReply::Done, false, Ok(1));
    assert_eq!(
        request.execute(RequestReply::Failed("no".to_owned()), false, Ok(2)),
        RequestAction::Record(Report::End(Ending::Failed))
    );
    assert_eq!(request.execute(RequestReply::Done, true, Ok(2)), RequestAction::Archive);
    assert_eq!(
        request.execute(RequestReply::Failed("full".to_owned()), true, Ok(2)),
        RequestAction::Record(Report::ArchivalPending)
    );
    assert_eq!(request.execute(RequestReply::Done, true, Ok(2)), RequestAction::Fail);
}

#[test]
fn requests_are_taken_by_their_files() {
    assert_eq!(consume_request(true, true, false), Consumption::AlreadyProcessed);
    assert_eq!(consume_request(false, true, false), Consumption::Interrupted);
    assert_eq!(consume_request(false, false, true), Consumption::Interrupted);
    assert_eq!(consume_request(false, false, false), Consumption::Take);
    let left = reconcile_completed_request(true, false, false, true);
    assert!(left.archive && left.quarantine_replay);
    assert!(!left.quarantine_processing && !left.quarantine_incoming);
    assert!(reconcile_completed_request(true, true, false, false).quarantine_processing);
}

#[test]
fn the_queue_is_walked_in_order() {
    let low = "00000000-0000-0000-0000-000000000001.json".to_owned();
    let high = "f0000000-0000-0000-0000-000000000000.json".to_owned();
    let names = vec![high, "readme.txt".to_owned(), low, "x.json".to_owned()];
    assert_eq!(dispatch(&names), vec![1, 0xf0000000_0000_0000_0000_000000000000]);
    assert_eq!(check_plan_identity(ID, 0x11111111_2222_3333_4444_555555555555), Some(true));
    assert_eq!(check_plan_identity(ID, 1), Some(false));
    assert_eq!(check_plan_identity("none", 1), None);
}

fn command(words: &[&str]) -> Result<Cli, CliError> {
    Cli::parse(&words.iter().map(|word| (*word).to_owned()).collect())
}

#[test]
fn the_command_line_is_fixed() {
    let id = 0x11111111_2222_3333_4444_555555555555;
    assert_eq!(command(&["execute", ID]), Ok(Cli::Execute(id)));
    assert_eq!(command(&["validate", ID]), Ok(Cli::Validate(id)));
    assert_eq!(command(&["dispatch"]), Ok(Cli::Dispatch));
    assert_eq!(command(&["ready"]), Ok(Cli::Ready));
    assert_eq!(command(&["unready"]), Ok(Cli::Unready));
    assert_eq!(command(&["execute", "x"]), Err(CliError::RequestId));
    assert_eq!(command(&["execute"]), Err(CliError::Usage));
    assert_eq!(command(&["execute", ID, "more"]), Err(CliError::Usage));
    assert_eq!(command(&[]), Err(CliError::Usage));
    assert!(usage().starts_with("usage: vexa-update-helper"));
}

#[test]
fn reports_become_records() {
    let subject = ReportSubject {
        release: "2.0.0".to_owned(),
        previous_release: "1.0.0".to_owned(),
        snapshot_sha256: "a".repeat(64),
    };
    let writer = StatusWriter::start(ID, 1);
    let next = apply_report(&writer, Report::Phase(Phase::Activating), &subject, 2);
    assert_eq!(next.phase, "activating");
    assert_eq!(next.updated_at, 2);
    let next = apply_report(&writer, Report::Rollback(true, true, false), &subject, 3);
    assert!(next.rollback.available && next.rollback.attempted && !next.rollback.succeeded);
    assert_eq!(next.rollback.previous_release.as_deref(), Some("1.0.0"));
    let next = apply_report(&writer, Report::End(Ending::RolledBack), &subject, 4);
    assert_eq!(next.outcome, UpdateOutcome::RolledBack);
    assert_eq!(next.completed_at, Some(4));
}

#[test]
fn the_service_is_waited_for_while_there_is_time() {
    let mut wait = HealthWait::begin();
    assert!(matches!(wait.wait_for_health(None, true), HealthStep::Ask));
    let answer = Some(Err("starting".to_owned()));
    assert!(matches!(wait.wait_for_health(answer, true), HealthStep::Ask));
    assert!(matches!(wait.wait_for_health(Some(Ok(())), false), HealthStep::Ready));
    assert!(matches!(
        wait.wait_for_health(None, false),
        HealthStep::TimedOut(text) if text == "service readiness timed out: starting"
    ));
    assert!(matches!(
        HealthWait::begin().wait_for_health(None, false),
        HealthStep::TimedOut(text) if text == "service readiness timed out: service did not answer"
    ));
}

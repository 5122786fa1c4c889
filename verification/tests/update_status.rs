//! Status records of updates and the packages that an update may change.

use vexa_vm::package_run::{
    validate_apt_simulation, PackageAction, PackageAnswer, PackageFailure, PackageRun,
};
use vexa_vm::packages::{
    install_arguments, package_plan, query_installed_version, simulation_arguments,
    validate_apt_simulation_output, validate_package_action, validate_package_name,
    SimulationError,
    ExpectedPackage, PackageError, PackageManager, PackageUpgrade, SystemPackage, UpdateComponent,
};
use vexa_vm::status::{
    bounded_message, check_existing_record, DurableUpdateStatus, PackageChangeStatus,
    PublicRollbackPointStatus, StatusError, StatusWriter, UpdateOutcome,
};

fn expected() -> Vec<ExpectedPackage> {
    vec![
        ExpectedPackage {
            name: "qemu-system-x86".to_owned(),
            version: "1:8.2.2-1ubuntu1".to_owned(),
        },
        ExpectedPackage { name: "qemu-utils".to_owned(), version: "1:8.2.2-1ubuntu1".to_owned() },
    ]
}

#[test]
fn apt_simulation_accepts_only_the_exact_plan() {
    let expected = expected();
    let output = "Inst qemu-system-x86 [1:8.2.1] (1:8.2.2-1ubuntu1 Ubuntu [amd64])\n\
                  Inst qemu-utils [1:8.2.1] (1:8.2.2-1ubuntu1 Ubuntu [amd64])\n";
    assert!(validate_apt_simulation_output(output, &expected).is_ok());

    let dependency = format!("{output}Inst libc6 [2.39] (2.40 Ubuntu [amd64])\n");
    assert!(validate_apt_simulation_output(&dependency, &expected).is_err());
    assert!(validate_apt_simulation_output("Remv qemu-utils [1:8.2.1]\n", &expected).is_err());
}

#[test]
fn bounded_messages_never_exceed_the_public_schema_limit() {
    let ascii = bounded_message(&"a".repeat(600));
    assert_eq!(ascii.len(), 512);
    assert!(ascii.ends_with('…'));

    let unicode = bounded_message(&"🪐".repeat(200));
    assert!(unicode.len() <= 512);
    assert!(unicode.ends_with('…'));
    assert!(!unicode.chars().any(char::is_control));
}

#[test]
fn short_messages_are_cleaned_and_kept() {
    assert_eq!(bounded_message("two\nlines"), "two lines");
    assert_eq!(bounded_message("plain"), "plain");
    let once = bounded_message(&"é\t".repeat(400));
    assert_eq!(bounded_message(&once), once);
}

#[test]
fn simulations_are_refused_for_a_reason() {
    let expected = expected();
    let line = "Inst qemu-utils [1:8.2.1] (1:8.2.2-1ubuntu1 Ubuntu [amd64])\n";
    let refused = SimulationError::Refused;
    for (output, error) in [
        ("Remv qemu-utils [1:8.2.1]\n".to_owned(), refused(PackageError::SimulationRemoves)),
        ("Inst  \n".to_owned(), refused(PackageError::SimulationInvalid)),
        ("Inst qemu-utils\n".to_owned(), refused(PackageError::SimulationNoVersion)),
        (
            "Inst libc6 [2.39] (2.40 Ubuntu [amd64])\n".to_owned(),
            SimulationError::NotAllowlisted("libc6".to_owned()),
        ),
        (
            "Inst qemu-utils [1:8.2.1] (1:9.0 Ubuntu [amd64])\n".to_owned(),
            refused(PackageError::SimulationChanged),
        ),
        (line.to_owned(), refused(PackageError::SimulationIncomplete)),
    ] {
        assert_eq!(validate_apt_simulation_output(&output, &expected), Err(error), "{output}");
    }
}

fn qemu_utils(version: &str) -> PackageUpgrade {
    PackageUpgrade {
        component: UpdateComponent::Qemu,
        version: version.to_owned(),
        manager: PackageManager::Apt,
        packages: vec![SystemPackage {
            name: "qemu-utils".to_owned(),
            candidate_version: version.to_owned(),
        }],
    }
}

#[test]
fn plans_name_allowed_packages_once() {
    let plan = package_plan(&vec![qemu_utils("1:8.2.2")]).unwrap();
    assert_eq!(plan.len(), 1);
    assert_eq!(plan[0].name, "qemu-utils");
    assert_eq!(
        package_plan(&vec![qemu_utils("1:8.2.2"), qemu_utils("1:8.2.2")]),
        Err(PackageError::Duplicate)
    );
    let foreign = vec![SystemPackage {
        name: "libc6".to_owned(),
        candidate_version: "2.40".to_owned(),
    }];
    assert_eq!(
        validate_package_action(UpdateComponent::Qemu, &foreign),
        Err(PackageError::NotAllowed)
    );
    assert_eq!(
        validate_package_action(UpdateComponent::VexaVm, &qemu_utils("1").packages),
        Err(PackageError::NotThroughApt)
    );
    assert_eq!(
        validate_package_action(UpdateComponent::Qemu, &vec![]),
        Err(PackageError::ActionSize)
    );
    assert_eq!(
        validate_package_action(UpdateComponent::Qemu, &qemu_utils("bad version").packages),
        Err(PackageError::InvalidVersion)
    );
    assert_eq!(UpdateComponent::Libvirt.as_str(), "libvirt");
}

#[test]
fn commands_name_exact_versions() {
    let plan = package_plan(&vec![qemu_utils("1:8.2.2")]).unwrap();
    let install = install_arguments(&plan);
    let simulation = simulation_arguments(&plan);
    assert!(install.contains(&"qemu-utils=1:8.2.2".to_owned()));
    assert!(simulation.contains(&"qemu-utils=1:8.2.2".to_owned()));
    assert!(simulation.len() > 1 && install.len() > 1);
}

#[test]
fn installed_versions_are_read() {
    assert_eq!(query_installed_version(true, b"ii \t1:8.2.1\n"), Ok(Some("1:8.2.1".to_owned())));
    assert_eq!(query_installed_version(true, b"rc \t1:8.2.1\n"), Ok(None));
    assert_eq!(query_installed_version(false, b""), Ok(None));
    assert_eq!(query_installed_version(true, b"\xff"), Err(PackageError::QueryNotUtf8));
    assert_eq!(query_installed_version(true, b"ii"), Err(PackageError::UnexpectedQuery));
    assert_eq!(query_installed_version(true, &[b'x'; 5000]), Err(PackageError::OversizedQuery));
    assert_eq!(validate_package_name("qemu-utils"), Ok(()));
    assert_eq!(validate_package_name("Qemu"), Err(PackageError::InvalidName));
}

fn drive(run: &mut PackageRun, installs: bool) -> Vec<PackageAction> {
    let mut steps = Vec::new();
    let mut installed = false;
    let mut action = PackageAction::Query(0);
    loop {
        steps.push(action);
        let answer = match action {
            PackageAction::Query(_) => {
                let version = if installed { "1:8.2.2" } else { "1:8.2.1" };
                PackageAnswer::Version(Some(version.to_owned()))
            }
            PackageAction::Simulate => PackageAnswer::Output(
                true,
                b"Inst qemu-utils [1:8.2.1] (1:8.2.2 Ubuntu [amd64])\n".to_vec(),
            ),
            PackageAction::Install => {
                installed = installs;
                PackageAnswer::Done
            }
            PackageAction::Record | PackageAction::Update => PackageAnswer::Done,
            PackageAction::Succeed | PackageAction::Fail => return steps,
        };
        action = run.apply_package_actions(answer);
    }
}

#[test]
fn a_package_run_installs_what_was_simulated() {
    let mut run = PackageRun::begin(&vec![qemu_utils("1:8.2.2")]).unwrap();
    assert_eq!(
        drive(&mut run, true),
        vec![
            PackageAction::Query(0),
            PackageAction::Record,
            PackageAction::Update,
            PackageAction::Simulate,
            PackageAction::Install,
            PackageAction::Query(0),
            PackageAction::Record,
            PackageAction::Succeed,
        ]
    );
    assert!(run.changes[0].applied);
    assert_eq!(run.changes[0].previous_version.as_deref(), Some("1:8.2.1"));
}

#[test]
fn a_package_run_without_effect_fails() {
    let mut run = PackageRun::begin(&vec![qemu_utils("1:8.2.2")]).unwrap();
    assert_eq!(drive(&mut run, false).last(), Some(&PackageAction::Fail));
    assert_eq!(
        run.failure.unwrap().message(),
        "APT did not install the exact approved version of qemu-utils"
    );
    let proposed = SimulationError::NotAllowlisted("libc6".to_owned());
    assert_eq!(
        PackageFailure::Refused(proposed).message(),
        "APT simulation proposed changing non-allowlisted package libc6"
    );
}

#[test]
fn a_package_run_stops_at_a_failure() {
    let mut run = PackageRun::begin(&vec![qemu_utils("1:8.2.2")]).unwrap();
    let action = run.apply_package_actions(PackageAnswer::Failed("no database".to_owned()));
    assert_eq!(action, PackageAction::Fail);
    assert!(matches!(run.failure, Some(PackageFailure::Outside(text)) if text == "no database"));
    let mut run = PackageRun::begin(&vec![qemu_utils("1:8.2.2")]).unwrap();
    assert_eq!(run.apply_package_actions(PackageAnswer::Done), PackageAction::Fail);
    assert!(matches!(run.failure, Some(PackageFailure::Unexpected)));
}

#[test]
fn simulations_need_an_answer() {
    let plan = package_plan(&vec![qemu_utils("1:8.2.2")]).unwrap();
    let changes = vec![PackageChangeStatus {
        component: "qemu".to_owned(),
        package: "qemu-utils".to_owned(),
        previous_version: Some("1:8.2.1".to_owned()),
        requested_version: "1:8.2.2".to_owned(),
        applied: false,
    }];
    let line = b"Inst qemu-utils [1:8.2.1] (1:8.2.2 Ubuntu [amd64])\n".to_vec();
    assert_eq!(validate_apt_simulation(&plan, &changes, true, &line), Ok(()));
    assert_eq!(
        validate_apt_simulation(&plan, &changes, false, &line),
        Err(SimulationError::Refused(PackageError::SimulationRejected))
    );
    assert_eq!(
        validate_apt_simulation(&plan, &changes, true, &vec![0xff]),
        Err(SimulationError::Refused(PackageError::SimulationNotUtf8))
    );
    assert_eq!(
        validate_apt_simulation(&plan, &changes, true, &vec![b'x'; 3_000_000]),
        Err(SimulationError::Refused(PackageError::SimulationOversized))
    );
}

fn point() -> PublicRollbackPointStatus {
    PublicRollbackPointStatus {
        activation_id: "11111111-2222-3333-4444-555555555555".to_owned(),
        release: "2.0.0".to_owned(),
        previous_release: "1.0.0".to_owned(),
        manifest_sha256: "a".repeat(64),
        snapshot_sha256: "b".repeat(64),
        snapshot_size_bytes: 10,
        components: vec!["vexa_vm".to_owned()],
    }
}

#[test]
fn status_records_follow_the_update() {
    let mut writer = StatusWriter::start("request", 10);
    assert_eq!(writer.snapshot().outcome, UpdateOutcome::Running);
    assert_eq!(writer.snapshot().phase, "validating");
    let next = writer.set_operation("activate", "2.0.0", 11);
    writer.commit(next, true).unwrap();
    let next = writer.phase("backup", 40, "Saving\tstate", 12).unwrap();
    writer.commit(next, true).unwrap();
    assert_eq!(writer.snapshot().operation.as_deref(), Some("activate"));
    assert_eq!(writer.snapshot().progress_percent, 40);
    assert_eq!(writer.snapshot().message, "Saving state");
    assert_eq!(writer.snapshot().updated_at, 12);
    assert_eq!(writer.phase("", 40, "m", 12), Err(StatusError::InvalidPhase));
    assert_eq!(writer.phase("p", 101, "m", 12), Err(StatusError::InvalidPhase));
    let next = writer.set_rollback(true, false, false, Some("1.0.0".to_owned()), None, 13);
    assert_eq!(writer.commit(next, false), Err(StatusError::NotPersisted));
    assert!(!writer.snapshot().rollback.available);
    let next = writer.finish(UpdateOutcome::Succeeded, "completed", "Done", 14);
    writer.commit(next, true).unwrap();
    assert_eq!(writer.snapshot().completed_at, Some(14));
    assert_eq!(writer.snapshot().progress_percent, 100);
}

#[test]
fn rollback_points_are_published_with_success_alone() {
    let mut writer = StatusWriter::start("request", 10);
    writer.stage_rollback_point(point()).unwrap();
    let failed = writer.finish(UpdateOutcome::Failed, "failed", "No", 11);
    assert_eq!(StatusWriter::durable(&failed).rollback_point, None);
    let done = writer.finish(UpdateOutcome::Succeeded, "completed", "Yes", 11);
    assert_eq!(StatusWriter::durable(&done).rollback_point, Some(point()));
    let mut wrong = point();
    wrong.components = vec![];
    assert_eq!(writer.stage_rollback_point(wrong), Err(StatusError::InvalidRollbackPoint));
    let cleared = writer.clear_rollback_point(12);
    assert_eq!(cleared.rollback_point, None);
}

#[test]
fn a_used_rollback_point_is_taken_back() {
    let mut writer = StatusWriter::start("11111111-2222-3333-4444-555555555555", 10);
    let next = writer.set_operation("activate", "2.0.0", 11);
    writer.commit(next, true).unwrap();
    writer.stage_rollback_point(point()).unwrap();
    let done: DurableUpdateStatus = writer.finish(UpdateOutcome::Succeeded, "completed", "Yes", 12);
    let id = "11111111-2222-3333-4444-555555555555";
    let cleared =
        StatusWriter::clear_rollback_point_for_activation(Some(done.clone()), id, 20).unwrap();
    assert_eq!(cleared.unwrap().rollback_point, None);
    assert_eq!(StatusWriter::clear_rollback_point_for_activation(None, id, 20), Ok(None));
    assert_eq!(
        StatusWriter::clear_rollback_point_for_activation(Some(done), "other", 20),
        Err(StatusError::ActivationIdentity)
    );
}

#[test]
fn package_changes_are_few() {
    let writer = StatusWriter::start("request", 10);
    let change = PackageChangeStatus {
        component: "qemu".to_owned(),
        package: "qemu-utils".to_owned(),
        previous_version: None,
        requested_version: "1".to_owned(),
        applied: false,
    };
    let many: Vec<PackageChangeStatus> = (0..17).map(|_| change.clone()).collect();
    assert_eq!(
        writer.set_package_changes(many, 11),
        Err(StatusError::TooManyPackageChanges)
    );
    let next = writer.set_package_changes(vec![change], 11).unwrap();
    assert_eq!(next.package_changes.len(), 1);
    assert_eq!(StatusWriter::resume(next).snapshot().package_changes[0].package, "qemu-utils");
}

#[test]
fn existing_records_belong_to_root() {
    assert_eq!(check_existing_record(true, 10, 0, 0o644), Ok(()));
    assert_eq!(check_existing_record(false, 10, 0, 0o644), Err(StatusError::InvalidRecord));
    assert_eq!(check_existing_record(true, 0, 0, 0o644), Err(StatusError::InvalidRecord));
    assert_eq!(check_existing_record(true, 10, 1, 0o644), Err(StatusError::UnsafeRecord));
    assert_eq!(check_existing_record(true, 10, 0, 0o666), Err(StatusError::UnsafeRecord));
}

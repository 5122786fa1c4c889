//! What the update helper trusts, plans and writes down.

use vexa_vm::digest::StreamDigest;
use vexa_vm::health::{
    check_bind, check_body_growth, check_health_once, check_ready, fetch_local_json,
    read_loopback_bind_address, HealthError,
};
use vexa_vm::journal::{
    activation_journal, activation_receipt_matches, check_journal_snapshot, check_new_journal,
    public_rollback_point, request_path, rollback_journal, validate_recovery_journal,
    validate_rollback_recovery_journal, write_activation_receipt, ActiveRelease, DatabaseSnapshot,
    JournalError, RecordKind,
};
use vexa_vm::packages::{
    PackageError, PackageManager, PackageUpgrade, SystemPackage, UpdateComponent,
};
use vexa_vm::plan::{
    begin_freeze, check_release_targets, copy_archive_to_private_inode, plan_activation,
    prepare_application_release, ApplicationAction, ApprovedComponentAction, PlanError,
    StagedArchive, TargetError,
};
use vexa_vm::policy::{
    acquire_lock, begin_backup, check_created_snapshot, check_helper_input, check_payload_entry,
    check_restored_size, cleanup_interrupted_artifacts, current_release, ensure_root_directory,
    hash_regular_file, install_release_units, is_direct_partial_release, is_fixed_executable,
    mark_unready, quarantine_interrupted_file, quarantine_interrupted_request,
    quarantine_replay_file, read_confined_file, read_fixed_file, release_path, release_unit,
    remove_activation_receipt, remove_database_snapshot, remove_sqlite_sidecar, require_root,
    require_release_payload, restore_database, switch_current_release,
    validate_exchange_directory,
    validate_fixed_executable, validate_fixed_path, FileFacts, NamedError, PolicyError, Quarantine,
    TemporaryDirectory, TemporaryFile,
};
use vexa_vm::status::StatusWriter;

const ID: u128 = 0x11111111_2222_3333_4444_555555555555;
const ROOT: &str = "/var/lib/vexa-vm/updates/rollback";

fn file() -> FileFacts {
    FileFacts {
        is_file: true,
        is_directory: false,
        is_symlink: false,
        length: 10,
        uid: 0,
        mode: 0o600,
    }
}

fn directory() -> FileFacts {
    FileFacts { is_file: false, is_directory: true, mode: 0o755, ..file() }
}

fn link() -> FileFacts {
    FileFacts { is_file: false, is_symlink: true, ..file() }
}

#[test]
fn inputs_are_small_private_files_of_root() {
    assert_eq!(check_helper_input(file(), 10, true), Ok(()));
    let check = |facts: FileFacts| check_helper_input(facts, 10, true);
    assert_eq!(check(link()), Err(PolicyError::InputNotRegular));
    assert_eq!(check(FileFacts { length: 11, ..file() }), Err(PolicyError::InputSize));
    assert_eq!(check(FileFacts { mode: 0o666, ..file() }), Err(PolicyError::InputWritable));
    assert_eq!(check(FileFacts { uid: 5, ..file() }), Err(PolicyError::InputNotRoot));
    assert_eq!(check_helper_input(FileFacts { uid: 5, ..file() }, 10, false), Ok(()));
    assert_eq!(read_fixed_file(10, 10), Ok(()));
    assert_eq!(read_fixed_file(11, 10), Err(PolicyError::InputGrew));
    assert_eq!(read_confined_file("/a", "/a"), Ok(()));
    assert_eq!(read_confined_file("/a", "/b"), Err(PolicyError::InputEscaped));
    assert_eq!(validate_fixed_path("request root", "/etc/x"), Ok(()));
    let fault = validate_fixed_path("request root", "/etc/../x").unwrap_err();
    assert_eq!(fault, NamedError::FixedPath("request root".to_owned()));
    assert_eq!(fault.message(), "request root must be an absolute normalized path");
}

#[test]
fn markers_locks_and_directories_belong_to_root() {
    assert_eq!(mark_unready(None), Ok(false));
    assert_eq!(mark_unready(Some(file())), Ok(true));
    assert_eq!(mark_unready(Some(directory())), Err(PolicyError::UnsafeMarker));
    assert_eq!(
        mark_unready(Some(FileFacts { uid: 5, ..file() })),
        Err(PolicyError::MarkerNotRoot)
    );
    assert_eq!(require_root(0), Ok(()));
    assert_eq!(require_root(1), Err(PolicyError::NotRoot));
    assert_eq!(acquire_lock(file(), true), Ok(()));
    assert_eq!(acquire_lock(file(), false), Err(PolicyError::LockHeld));
    assert_eq!(
        acquire_lock(FileFacts { mode: 0o622, ..file() }, true),
        Err(PolicyError::LockUnsafe)
    );
    assert_eq!(ensure_root_directory("/srv", directory()), Ok(()));
    let fault = ensure_root_directory("/srv", file()).unwrap_err();
    assert_eq!(fault.message(), "/srv is not a safe directory");
    let fault = ensure_root_directory("/srv", FileFacts { uid: 5, ..directory() }).unwrap_err();
    assert_eq!(fault.message(), "/srv must be root-owned");
    assert_eq!(validate_exchange_directory("/srv", directory()), Ok(()));
    let fault = validate_exchange_directory("/srv", link()).unwrap_err();
    assert_eq!(fault.message(), "/srv is not a safe exchange directory");
    let open = FileFacts { mode: 0o777, ..directory() };
    let fault = validate_exchange_directory("/srv", open).unwrap_err();
    assert_eq!(fault.message(), "/srv must not be group/world writable");
}

#[test]
fn leftovers_are_removed_only_where_they_are_ours() {
    let partial = "/opt/vexa-vm/releases/.partial-x";
    assert!(is_direct_partial_release(partial));
    assert!(is_direct_partial_release("/opt/vexa-vm//releases/./.partial-x/"));
    assert!(!is_direct_partial_release("opt/vexa-vm/releases/.partial-x"));
    assert!(!is_direct_partial_release("/opt/vexa-vm/releases/x/.partial-x"));
    assert_eq!(
        cleanup_interrupted_artifacts(Some(file()), partial, None),
        Ok((true, false))
    );
    assert_eq!(
        cleanup_interrupted_artifacts(None, "/etc", Some(directory())),
        Err(PolicyError::PartialUnsafe)
    );
    assert_eq!(
        cleanup_interrupted_artifacts(None, partial, Some(directory())),
        Ok((false, true))
    );
    assert_eq!(
        cleanup_interrupted_artifacts(Some(link()), partial, None),
        Err(PolicyError::ArchiveNotRegular)
    );
    assert_eq!(
        cleanup_interrupted_artifacts(Some(FileFacts { uid: 5, ..file() }), partial, None),
        Err(PolicyError::ArchiveNotRoot)
    );
    assert_eq!(quarantine_replay_file(false, directory()), Ok(Quarantine::Rename));
    assert_eq!(quarantine_replay_file(true, file()), Ok(Quarantine::Remove));
    assert_eq!(quarantine_replay_file(true, directory()), Err(PolicyError::ReplayNotFile));
    assert_eq!(quarantine_interrupted_file(true, None), Ok(None));
    assert_eq!(quarantine_interrupted_file(false, Some(file())), Ok(Some(Quarantine::Rename)));
    assert_eq!(
        quarantine_interrupted_file(true, Some(directory())),
        Err(PolicyError::InterruptedNotFile)
    );
    assert_eq!(quarantine_interrupted_request(Some(Quarantine::Rename), None), Ok(()));
    assert_eq!(quarantine_interrupted_request(None, None), Err(PolicyError::InterruptedGone));
}

#[test]
fn snapshots_stay_below_their_root() {
    assert_eq!(begin_backup(true, file(), false, false), Ok(()));
    assert_eq!(begin_backup(false, file(), false, false), Err(PolicyError::BackupEscaped));
    assert_eq!(begin_backup(true, link(), false, false), Err(PolicyError::DatabaseUnsafe));
    assert_eq!(begin_backup(true, file(), true, false), Err(PolicyError::SnapshotExists));
    assert_eq!(
        begin_backup(true, file(), false, true),
        Err(PolicyError::SnapshotTemporaryExists)
    );
    assert_eq!(check_created_snapshot(file()), Ok(()));
    assert_eq!(
        check_created_snapshot(FileFacts { length: 0, ..file() }),
        Err(PolicyError::SnapshotSize)
    );
    assert_eq!(restore_database(true, 5, FileFacts { mode: 0o100640, ..file() }), Ok(0o640));
    assert_eq!(restore_database(true, 0, file()), Err(PolicyError::SnapshotEmpty));
    assert_eq!(check_restored_size(5, 5), Ok(()));
    assert_eq!(check_restored_size(4, 5), Err(PolicyError::SnapshotChanged));
    assert_eq!(remove_sqlite_sidecar(None), Ok(false));
    assert_eq!(remove_sqlite_sidecar(Some(link())), Err(PolicyError::SidecarNotRegular));
    assert!(remove_database_snapshot(true, file()).is_ok());
    assert!(remove_database_snapshot(false, file()).is_err());
    assert!(matches!(hash_regular_file(0, 5), Err(PolicyError::FileSizeLimit)));
    assert!(hash_regular_file(5, 5).is_ok());
    assert_eq!(remove_activation_receipt(None), Ok(false));
    assert_eq!(remove_activation_receipt(Some(file())), Ok(true));
    assert_eq!(
        remove_activation_receipt(Some(directory())),
        Err(PolicyError::ReceiptNotRegular)
    );
}

#[test]
fn releases_are_named_after_their_version() {
    let name = "v1.2.3";
    assert_eq!(current_release(true, true, directory(), name), Ok("1.2.3".to_owned()));
    assert_eq!(
        current_release(false, true, directory(), name),
        Err(PolicyError::CurrentNotLink)
    );
    assert_eq!(
        current_release(true, false, directory(), name),
        Err(PolicyError::ReleaseEscaped)
    );
    assert_eq!(
        current_release(true, true, link(), name),
        Err(PolicyError::ReleaseNotDirectory)
    );
    assert_eq!(
        current_release(true, true, directory(), "current"),
        Err(PolicyError::ReleaseName)
    );
    assert_eq!(release_path(name, true), Ok("1.2.3".to_owned()));
    assert_eq!(release_path(name, false), Err(PolicyError::VersionedReleaseEscaped));
    assert_eq!(release_path("../1.2.3", true), Err(PolicyError::ReleaseName));
    let target = switch_current_release(true, Ok(()), "1.2.3", Some(true));
    assert_eq!(target, Ok("releases/1.2.3".to_owned()));
    assert_eq!(
        switch_current_release(false, Ok(()), "1.2.3", None),
        Err(PolicyError::RequestedReleaseEscaped)
    );
    assert_eq!(
        switch_current_release(true, Err(PolicyError::VersionMismatch), "1.2.3", None),
        Err(PolicyError::VersionMismatch)
    );
    assert_eq!(
        switch_current_release(true, Ok(()), "current", None),
        Err(PolicyError::ReleaseName)
    );
    assert_eq!(
        switch_current_release(true, Ok(()), "1.2.3", Some(false)),
        Err(PolicyError::ActivePathNotLink)
    );
    assert_eq!(require_release_payload(b"1.2.3\n", "1.2.3"), Ok(()));
    assert_eq!(require_release_payload(b"1.2.4\n", "1.2.3"), Err(PolicyError::VersionMismatch));
    assert_eq!(require_release_payload(b"\xff", "1.2.3"), Err(PolicyError::VersionNotUtf8));
    assert_eq!(check_payload_entry("static/app.css", file()), Ok(()));
    let fault = check_payload_entry("bin/vexa-vm", file()).unwrap_err();
    assert_eq!(fault.message(), "release payload entry bin/vexa-vm is not executable");
    let fault = check_payload_entry("VERSION", FileFacts { uid: 5, ..file() }).unwrap_err();
    assert_eq!(
        fault.message(),
        "release payload entry VERSION has unsafe ownership or permissions"
    );
    assert_eq!(
        check_payload_entry("static/app.css", FileFacts { length: 0, ..file() }),
        Err(NamedError::PayloadNotFile("static/app.css".to_owned()))
    );
}

#[test]
fn units_and_programs_are_trusted_only_when_safe() {
    assert_eq!(install_release_units("a.service", directory(), None), Ok(()));
    assert_eq!(install_release_units("a.service", link(), None), Err(NamedError::UnitRootUnsafe));
    let fault = install_release_units("a.service", directory(), Some(link())).unwrap_err();
    assert_eq!(fault.message(), "refusing to replace unsafe systemd unit a.service");
    let open = FileFacts { mode: 0o666, ..file() };
    let fault = install_release_units("a.service", directory(), Some(open)).unwrap_err();
    assert_eq!(fault.message(), "installed systemd unit a.service has unsafe permissions");
    assert!(release_unit(0).ends_with(".service"));
    assert!(is_fixed_executable("/usr/bin/dpkg-query"));
    assert!(!is_fixed_executable("/bin/sh"));
    let program = FileFacts { mode: 0o755, ..file() };
    assert_eq!(validate_fixed_executable("/usr/bin/dpkg-query", program), Ok(()));
    assert_eq!(
        validate_fixed_executable("/bin/sh", program),
        Err(PolicyError::ExecutableNotAllowed)
    );
    assert_eq!(
        validate_fixed_executable("/usr/bin/dpkg-query", file()),
        Err(PolicyError::ExecutableUnsafe)
    );
    assert_eq!(
        PolicyError::ExecutableUnsafe.message(),
        "fixed privileged executable has unsafe ownership or permissions"
    );
}

#[test]
fn temporary_files_are_removed_unless_kept() {
    let mut kept = TemporaryFile::new("/tmp/a".to_owned());
    assert!(kept.must_remove());
    kept.retain();
    assert!(!kept.must_remove());
    assert!(!TemporaryDirectory::new("/tmp/b".to_owned()).must_remove());
    let mut kept = TemporaryDirectory::new("/opt/vexa-vm/releases/.partial-b".to_owned());
    assert!(kept.must_remove());
    kept.retain();
    assert!(!kept.must_remove());
}

fn archive(version: &str) -> ApprovedComponentAction {
    ApprovedComponentAction::InstallStagedArchive(StagedArchive {
        component: UpdateComponent::VexaVm,
        version: version.to_owned(),
        staged_path: "/staged".to_owned(),
        sha256: "a".repeat(64),
        size_bytes: 3,
    })
}

fn packages(manager: PackageManager, name: &str) -> ApprovedComponentAction {
    ApprovedComponentAction::UpgradeSystemPackages(PackageUpgrade {
        component: UpdateComponent::Qemu,
        version: "1".to_owned(),
        manager,
        packages: vec![SystemPackage {
            name: name.to_owned(),
            candidate_version: "1".to_owned(),
        }],
    })
}

#[test]
fn plans_are_for_one_release() {
    let plan = plan_activation(
        "1.0.0",
        "v2.0.0",
        &vec![archive("2.0.0"), packages(PackageManager::Apt, "qemu-utils")],
    )
    .unwrap();
    assert_eq!(plan.release, "2.0.0");
    assert_eq!(plan.application.unwrap().version, "2.0.0");
    assert_eq!(plan.packages.len(), 1);
    let refused = |active: &str, action| plan_activation(active, "2.0.0", &vec![action]).err();
    assert_eq!(refused("2.0.0", archive("v2.0.0")), Some(PlanError::AlreadyActive));
    assert_eq!(refused("1.0.0", archive("2.0.1")), Some(PlanError::ArchiveVersion));
    assert_eq!(
        refused("1.0.0", packages(PackageManager::Other, "qemu-utils")),
        Some(PlanError::UnsupportedManager)
    );
    assert_eq!(
        refused("1.0.0", packages(PackageManager::Apt, "bash")),
        Some(PlanError::Packages(PackageError::NotAllowed))
    );
    assert_eq!(
        plan_activation("1.0.0", "latest", &vec![]).err(),
        Some(PlanError::ReleaseName)
    );
}

#[test]
fn archives_are_frozen_before_they_are_used() {
    let action = ApplicationAction {
        version: "2.0.0".to_owned(),
        staged_path: "/staged".to_owned(),
        sha256: StreamDigest::new(3).feed(b"abc").unwrap().finish(),
        size_bytes: 3,
    };
    let stream = begin_freeze(false, 3, &action).ok().unwrap().feed(b"abc").unwrap();
    assert_eq!(copy_archive_to_private_inode(stream, &action), Ok(()));
    let stream = begin_freeze(false, 3, &action).ok().unwrap().feed(b"abd").unwrap();
    assert_eq!(
        copy_archive_to_private_inode(stream, &action),
        Err(PlanError::ArchiveChanged)
    );
    assert!(matches!(begin_freeze(true, 3, &action), Err(PlanError::ArchiveExists)));
    assert!(matches!(begin_freeze(false, 4, &action), Err(PlanError::ArchiveChangedBefore)));
    assert_eq!(check_release_targets("1.2.3", false, false), Ok(()));
    let fault = check_release_targets("1.2.3", true, false).unwrap_err();
    assert_eq!(fault, TargetError::ReleaseExists("1.2.3".to_owned()));
    assert_eq!(fault.message(), "application release 1.2.3 already exists");
    let fault = check_release_targets("1.2.3", false, true).unwrap_err();
    assert_eq!(fault.message(), "application extraction directory already exists");
    assert_eq!(prepare_application_release(&action, "v2.0.0"), Ok("2.0.0".to_owned()));
    assert_eq!(prepare_application_release(&action, "2.0.1"), Err(PlanError::VersionMismatch));
}

fn active() -> ActiveRelease {
    ActiveRelease { version: "1.0.0".to_owned(), canonical_path: "/opt/1.0.0".to_owned() }
}

fn snapshot(suffix: &str) -> DatabaseSnapshot {
    DatabaseSnapshot {
        path: request_path(ROOT, ID, suffix),
        sha256: "b".repeat(64),
        size_bytes: 9,
    }
}

#[test]
fn journals_and_receipts_agree() {
    let manifest = "c".repeat(64);
    let snapshot = snapshot(".sqlite3");
    let journal = activation_journal(ID, &active(), "2.0.0", &manifest, &snapshot, true, 50);
    assert_eq!(validate_recovery_journal(ID, &journal, ROOT), Ok(()));
    assert_eq!(validate_recovery_journal(1, &journal, ROOT), Err(JournalError::Identity));
    assert_eq!(validate_recovery_journal(ID, &journal, "/x"), Err(JournalError::Snapshot));
    let mut wrong = journal.clone();
    wrong.target_release = "x".to_owned();
    assert_eq!(validate_recovery_journal(ID, &wrong, ROOT), Err(JournalError::ReleaseName));
    wrong.request_id = "x".to_owned();
    assert_eq!(validate_recovery_journal(ID, &wrong, ROOT), Err(JournalError::RequestId));
    let receipt = write_activation_receipt(ID, "2.0.0", &active(), &manifest, &snapshot, 60);
    assert_eq!(activation_receipt_matches(&journal, Some(&receipt)), Ok(true));
    assert_eq!(activation_receipt_matches(&journal, None), Ok(false));
    let mut other = receipt.clone();
    other.snapshot_size_bytes = 8;
    assert_eq!(activation_receipt_matches(&journal, Some(&other)), Ok(false));
    let mut spelled = journal.clone();
    spelled.snapshot_path = spelled.snapshot_path.replace("/", "//");
    assert_eq!(validate_recovery_journal(ID, &spelled, ROOT), Ok(()));
    assert_eq!(activation_receipt_matches(&spelled, Some(&receipt)), Ok(true));
    spelled.snapshot_path = format!("{}x", journal.snapshot_path);
    assert_eq!(validate_recovery_journal(ID, &spelled, ROOT), Err(JournalError::Snapshot));
    let point = public_rollback_point(ID, "2.0.0", "1.0.0", &manifest, &"b".repeat(64), 9);
    assert!(StatusWriter::start("r", 1).stage_rollback_point(point).is_ok());
    assert_eq!(JournalError::Exists.message(RecordKind::Rollback), "rollback recovery journal already exists");
    assert_eq!(
        JournalError::Size.message(RecordKind::Receipt),
        "activation receipt exceeded its size limit"
    );
    assert_eq!(
        JournalError::Identity.message(RecordKind::Activation),
        "activation recovery journal identity is invalid"
    );
}

#[test]
fn rollback_journals_are_checked() {
    let journal = rollback_journal(ID, &active(), "0.9.0", &snapshot(".pre-rollback.sqlite3"), 5);
    assert_eq!(validate_rollback_recovery_journal(ID, &journal, ROOT), Ok(()));
    let mut wrong = journal.clone();
    wrong.schema_version = 2;
    assert_eq!(
        validate_rollback_recovery_journal(ID, &wrong, ROOT),
        Err(JournalError::Identity)
    );
    assert_eq!(check_journal_snapshot(9, "bb", 9, "bb"), Ok(()));
    assert_eq!(check_journal_snapshot(9, "bb", 8, "bb"), Err(JournalError::SnapshotChanged));
    assert_eq!(check_new_journal(false, 10), Ok(()));
    assert_eq!(check_new_journal(true, 10), Err(JournalError::Exists));
    assert_eq!(check_new_journal(false, 0), Err(JournalError::Size));
}

#[test]
fn the_service_answers_for_itself() {
    let any = None;
    let expected = Some("2.0.0".to_owned());
    assert_eq!(check_health_once(br#"{"ok": true}"#, &any), Ok(()));
    assert_eq!(check_health_once(br#"{"ok": true, "version": "2.0.0"}"#, &expected), Ok(()));
    assert_eq!(
        check_health_once(br#"{"ok": true, "version": "1.0.0"}"#, &expected),
        Err(HealthError::WrongVersion)
    );
    assert_eq!(check_health_once(br#"{"ok": 1}"#, &any), Err(HealthError::NotOk));
    assert_eq!(check_health_once(b"ok", &any), Err(HealthError::InvalidJson));
    assert_eq!(check_ready(br#"{"ready": false}"#), Err(HealthError::NotReady));
    assert!(fetch_local_json("/healthz", false).is_err());
    assert_eq!(check_body_growth(65536, 1), Err(HealthError::TooLarge));
    assert_eq!(check_body_growth(65535, 1), Ok(()));
}

#[test]
fn the_service_listens_on_loopback() {
    assert_eq!(
        read_loopback_bind_address(b"# comment\nVEXA_BIND=127.0.0.1:9000\n"),
        Ok("127.0.0.1:9000".to_owned())
    );
    assert_eq!(
        read_loopback_bind_address(b"VEXA_BIND=a\nVEXA_BIND=b\n"),
        Err(HealthError::DuplicateBind)
    );
    assert_eq!(read_loopback_bind_address(b"\xff"), Err(HealthError::EnvironmentNotUtf8));
    assert_eq!(check_bind(Some(true)), Ok(()));
    assert_eq!(check_bind(Some(false)), Err(HealthError::NotLoopback));
    assert_eq!(check_bind(None), Err(HealthError::InvalidBind));
}

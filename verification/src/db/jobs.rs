//! Durable jobs: how they are queued, claimed, finished, failed and cancelled.

use vstd::prelude::*;

use crate::db::rows::{
    Job, JobStatus, JobView, NewJob, NewJobView, Snapshot, SnapshotState, SnapshotView, Timestamp,
    VmRow, VmRowView, VmState, VmView,
};
use crate::db::store::{
    bounded_limit, dangling_reference, duplicate_value, earlier, empty_fault, fault_if,
    generation_fault, limit_of, option_result, plain_result, reference_error, refers_to_vm,
    row_result, settles, unique_error, validate_guest_tools_rotation_generation, validate_non_empty,
    vm_with_id, Database, DatabaseView,
};
use crate::db::admins::or_value;
use crate::db::guest_tools::{cleanup_spec, later, staged};
use crate::db::removal::{with_addresses_freed, without_vm};
use crate::db::vms::{change_vm_spec, changed, set_password_envelope_spec, with_password};
use crate::error::{conflict, not_found, validation, AppError, AppErrorView, AppResult};
use crate::json::{Document, Extract, Json};
use crate::table::{
    any, append, find, first, first_is_first, first_survives, foremost, least, least_of_some, list,
    listing, look_up, matching, model, models, occurs, others, pick, remove, revise, revised,
    select,
};
use crate::text::{copy_option, option_is, same, same_option, view_option, view_str};

verus! {

broadcast use vstd::string::group_string_axioms;

/// The member of a reinstall's payload that holds a sealed password until the guest has it.
pub open spec fn password_field() -> Seq<char> {
    "_staged_password_envelope"@
}

/// The bits of a hundred percent.
pub const FULL_PROGRESS: u64 = 0x4059_0000_0000_0000;

/// The bits of a number from zero to a hundred. Numbers that are not negative are in the
/// order of their bits; the other zero has the sign bit alone.
pub open spec fn is_percentage(bits: u64) -> bool {
    bits <= FULL_PROGRESS || bits == 0x8000_0000_0000_0000
}

/// A job with an identifier.
pub open spec fn job_with_id(id: Seq<char>) -> spec_fn(JobView) -> bool {
    |m: JobView| m.id == id
}

/// A job that was queued under a key.
pub open spec fn job_with_key(key: Seq<char>) -> spec_fn(JobView) -> bool {
    |m: JobView| m.idempotency_key == Some(key)
}

/// A job that is queued or running.
pub open spec fn is_active(m: JobView) -> bool {
    m.status == JobStatus::Queued || m.status == JobStatus::Running
}

/// An active job of a kind for a machine.
pub open spec fn active_job(kind: Seq<char>, vm_id: Seq<char>) -> spec_fn(JobView) -> bool {
    |m: JobView| m.kind == kind && m.vm_id == Some(vm_id) && is_active(m)
}

/// What a text is compared with.
pub open spec fn expectation(generation: Option<Seq<char>>) -> Extract {
    match generation {
        Some(g) => Extract::Text(g),
        None => Extract::Absent,
    }
}

/// An active start of the guest tools of a machine for a generation.
pub open spec fn active_bootstrap(vm_id: Seq<char>, generation: Option<Seq<char>>) -> spec_fn(
    JobView,
) -> bool {
    |m: JobView|
        m.kind == "vm.guest_tools.bootstrap"@ && m.vm_id == Some(vm_id) && is_active(m)
            && m.payload.extract("expected_generation"@) == expectation(generation)
}

/// Entered no later.
pub open spec fn job_entered_first() -> spec_fn(JobView, JobView) -> bool {
    |a: JobView, b: JobView| a.created_at <= b.created_at
}

/// A queued job.
pub open spec fn new_job(
    request: NewJobView,
    payload: Json,
    key: Option<Seq<char>>,
    id: Seq<char>,
    now: Timestamp,
) -> JobView {
    JobView {
        id,
        kind: request.kind,
        vm_id: request.vm_id,
        status: JobStatus::Queued,
        payload,
        result: None,
        error: None,
        progress_percent: 0,
        idempotency_key: key,
        attempts: 0,
        max_attempts: if request.max_attempts > 1 {
            request.max_attempts
        } else {
            1
        },
        run_after: or_value(request.run_after, now),
        locked_by: None,
        locked_at: None,
        actor_type: request.actor_type,
        actor_id: request.actor_id,
        created_at: now,
        updated_at: now,
        finished_at: None,
    }
}

/// A job is queued for a machine that is there.
pub open spec fn queued_job(db: DatabaseView, row: JobView) -> Result<
    (DatabaseView, JobView),
    AppErrorView,
> {
    if any(db.jobs, job_with_id(row.id)) {
        Err(unique_error("jobs.id"@))
    } else if !refers_to_vm(db, row.vm_id) {
        Err(reference_error())
    } else {
        Ok((DatabaseView { jobs: db.jobs.push(row), ..db }, row))
    }
}

/// The error of a key that stands for another request.
pub open spec fn key_conflict() -> AppErrorView {
    AppErrorView::Conflict("idempotency key was already used for a different request"@)
}

/// A payload without the sealed password.
pub open spec fn public_payload(payload: Json) -> Json {
    payload.without_member(password_field())
}

/// The same request came before under the same key: the job it made, or a conflict.
pub open spec fn replay(db: DatabaseView, request: NewJobView, private: bool) -> Option<
    Result<JobView, AppErrorView>,
> {
    match request.idempotency_key {
        None => None,
        Some(key) => match find(db.jobs, job_with_key(key)) {
            None => None,
            Some(m) => if m.kind != request.kind || m.vm_id != request.vm_id || (if private {
                public_payload(m.payload)
            } else {
                m.payload
            }) != request.payload {
                Some(Err(key_conflict()))
            } else {
                Some(Ok(m))
            },
        },
    }
}

/// A job is queued; a request that came before under its key gives the job it made.
pub open spec fn enqueue_spec(
    db: DatabaseView,
    request: NewJobView,
    id: Seq<char>,
    now: Timestamp,
) -> Result<(DatabaseView, JobView), AppErrorView> {
    match empty_fault("job kind"@, request.kind) {
        Some(e) => Err(e),
        None => match replay(db, request, false) {
            Some(Err(e)) => Err(e),
            Some(Ok(m)) => Ok((db, m)),
            None => queued_job(
                db,
                new_job(request, request.payload, request.idempotency_key, id, now),
            ),
        },
    }
}

/// A start of the guest tools is queued, unless one for the same generation is active.
pub open spec fn enqueue_bootstrap_spec(
    db: DatabaseView,
    request: NewJobView,
    id: Seq<char>,
    now: Timestamp,
) -> Result<(DatabaseView, JobView), AppErrorView> {
    if request.kind != "vm.guest_tools.bootstrap"@ {
        Err(
            AppErrorView::Validation(
                "Guest Tools bootstrap transaction requires a vm.guest_tools.bootstrap job"@,
            ),
        )
    } else if request.vm_id is None {
        Err(AppErrorView::Validation("Guest Tools bootstrap job requires vm_id"@))
    } else {
        let generation = request.payload.text_member("expected_generation"@);
        let fault = match generation {
            Some(g) => generation_fault(g),
            None => None,
        };
        match fault {
            Some(e) => Err(e),
            None => match foremost(
                db.jobs,
                active_bootstrap(request.vm_id->0, generation),
                job_entered_first(),
            ) {
                Some(m) => Ok((db, m)),
                None => queued_job(db, new_job(request, request.payload, None, id, now)),
            },
        }
    }
}

/// A removal of a machine is queued, unless one is active.
pub open spec fn enqueue_delete_spec(
    db: DatabaseView,
    request: NewJobView,
    id: Seq<char>,
    now: Timestamp,
) -> Result<(DatabaseView, JobView), AppErrorView> {
    if request.kind != "vm.delete"@ {
        Err(AppErrorView::Validation("delete transaction requires a vm.delete job"@))
    } else if request.vm_id is None {
        Err(AppErrorView::Validation("delete job requires vm_id"@))
    } else {
        match replay(db, request, false) {
            Some(Err(e)) => Err(e),
            Some(Ok(m)) => Ok((db, m)),
            None => match foremost(
                db.jobs,
                active_job("vm.delete"@, request.vm_id->0),
                job_entered_first(),
            ) {
                Some(m) => Ok((db, m)),
                None => queued_job(
                    db,
                    new_job(request, request.payload, request.idempotency_key, id, now),
                ),
            },
        }
    }
}

/// The first fault of a reinstall to be queued.
pub open spec fn reinstall_fault(request: NewJobView, envelope: Option<Seq<char>>) -> Option<
    AppErrorView,
> {
    earlier(
        earlier(
            fault_if(
                request.kind != "vm.reinstall"@,
                AppErrorView::Validation("reinstall transaction requires a vm.reinstall job"@),
            ),
            fault_if(
                request.vm_id is None,
                AppErrorView::Validation("reinstall job requires vm_id"@),
            ),
        ),
        earlier(
            earlier(
                fault_if(
                    request.payload.member(password_field()) is Some,
                    AppErrorView::Validation("reinstall payload contains a reserved field"@),
                ),
                fault_if(
                    envelope is Some && request.payload.truth_member(
                        "clear_password_after_success"@,
                    ) == Some(true),
                    AppErrorView::Validation("manual reinstall cannot stage a guest password"@),
                ),
            ),
            match envelope {
                None => None,
                Some(s) => earlier(
                    empty_fault("password envelope"@, s),
                    fault_if(
                        !(request.payload is Object),
                        AppErrorView::Validation("reinstall job payload must be an object"@),
                    ),
                ),
            },
        ),
    )
}

/// A payload with a sealed password, where there is one.
pub open spec fn with_envelope(payload: Json, envelope: Option<Seq<char>>) -> Json {
    match envelope {
        None => payload,
        Some(s) => payload.with_member(password_field(), Json::Text(s)),
    }
}

/// A machine that is being installed anew.
pub open spec fn reinstalling(desired_state: VmState, now: Timestamp) -> spec_fn(
    VmRowView,
) -> VmRowView {
    |m: VmRowView|
        VmRowView {
            vm: VmView {
                state: VmState::Reinstalling,
                desired_state,
                updated_at: now,
                ..m.vm
            },
            ..m
        }
}

/// A reinstall is queued with the sealed password that the guest is to get; a request that
/// came before under its key gives the job it made, and while a reinstall is active there
/// is no second one.
pub open spec fn enqueue_reinstall_spec(
    db: DatabaseView,
    request: NewJobView,
    envelope: Option<Seq<char>>,
    desired_state: VmState,
    id: Seq<char>,
    now: Timestamp,
) -> Result<(DatabaseView, JobView), AppErrorView> {
    match reinstall_fault(request, envelope) {
        Some(e) => Err(e),
        None => match replay(db, request, true) {
            Some(Err(e)) => Err(e),
            Some(Ok(m)) => Ok((db, m)),
            None => {
                let vm_id = request.vm_id->0;
                if any(db.jobs, active_job("vm.reinstall"@, vm_id)) {
                    Err(
                        AppErrorView::Conflict(
                            "a reinstall is already queued or running for this VM"@,
                        ),
                    )
                } else if !any(db.vms, vm_with_id(vm_id)) {
                    Err(AppErrorView::NotFound("VM"@))
                } else if any(db.jobs, job_with_id(id)) {
                    Err(unique_error("jobs.id"@))
                } else {
                    let row = new_job(
                        request,
                        with_envelope(request.payload, envelope),
                        request.idempotency_key,
                        id,
                        now,
                    );
                    Ok(
                        (
                            DatabaseView {
                                vms: revised(
                                    db.vms,
                                    vm_with_id(vm_id),
                                    reinstalling(desired_state, now),
                                ),
                                jobs: db.jobs.push(row),
                                ..db
                            },
                            row,
                        ),
                    )
                }
            },
        },
    }
}

/// A job to be listed.
pub open spec fn listed_job(status: Option<JobStatus>, vm_id: Option<Seq<char>>) -> spec_fn(
    JobView,
) -> bool {
    |m: JobView| (status is None || m.status == status->0) && (vm_id is None || m.vm_id == vm_id)
}

/// The newest jobs first.
pub open spec fn newest_job_first() -> spec_fn(JobView, JobView) -> bool {
    |a: JobView, b: JobView| a.created_at >= b.created_at
}

/// A job that may be claimed.
pub open spec fn claimable(now: Timestamp) -> spec_fn(JobView) -> bool {
    |m: JobView|
        m.status == JobStatus::Queued && m.run_after <= now && m.attempts < m.max_attempts
}

/// Due first, then entered first.
pub open spec fn due_first() -> spec_fn(JobView, JobView) -> bool {
    |a: JobView, b: JobView|
        a.run_after < b.run_after || (a.run_after == b.run_after && a.created_at <= b.created_at)
}

/// A job that a worker has claimed.
pub open spec fn claimed(m: JobView, worker: Seq<char>, now: Timestamp) -> JobView {
    JobView {
        status: JobStatus::Running,
        attempts: (m.attempts + 1) as u32,
        locked_by: Some(worker),
        locked_at: Some(now),
        updated_at: now,
        ..m
    }
}

/// The job that is due first is claimed.
pub open spec fn claim_spec(db: DatabaseView, worker: Seq<char>, now: Timestamp) -> Result<
    (DatabaseView, Option<JobView>),
    AppErrorView,
> {
    match empty_fault("worker name"@, worker) {
        Some(e) => Err(e),
        None => match least(db.jobs, claimable(now), due_first()) {
            None => Ok((db, None)),
            Some(i) => {
                let row = claimed(db.jobs[i], worker, now);
                Ok((DatabaseView { jobs: db.jobs.update(i, row), ..db }, Some(row)))
            },
        },
    }
}

/// A running job with an identifier.
pub open spec fn running_job(id: Seq<char>) -> spec_fn(JobView) -> bool {
    |m: JobView| m.id == id && m.status == JobStatus::Running
}

/// A running job is changed.
pub open spec fn change_running_spec(
    db: DatabaseView,
    id: Seq<char>,
    change: spec_fn(JobView) -> JobView,
) -> Result<(DatabaseView, ()), AppErrorView> {
    if !any(db.jobs, running_job(id)) {
        Err(AppErrorView::NotFound("running job"@))
    } else {
        Ok((DatabaseView { jobs: revised(db.jobs, running_job(id), change), ..db }, ()))
    }
}

/// A job with progress.
pub open spec fn with_progress(progress: u64, now: Timestamp) -> spec_fn(JobView) -> JobView {
    |m: JobView| JobView { progress_percent: progress, updated_at: now, ..m }
}

/// The progress of a running job is recorded.
pub open spec fn progress_spec(
    db: DatabaseView,
    id: Seq<char>,
    progress: u64,
    now: Timestamp,
) -> Result<(DatabaseView, ()), AppErrorView> {
    if !is_percentage(progress) {
        Err(AppErrorView::Validation("job progress must be between 0 and 100"@))
    } else {
        change_running_spec(db, id, with_progress(progress, now))
    }
}

/// A job that succeeded.
pub open spec fn succeeded(result: Json, now: Timestamp) -> spec_fn(JobView) -> JobView {
    |m: JobView|
        JobView {
            status: JobStatus::Succeeded,
            result: Some(result),
            error: None,
            progress_percent: FULL_PROGRESS,
            locked_by: None,
            locked_at: None,
            updated_at: now,
            finished_at: Some(now),
            payload: public_payload(m.payload),
            ..m
        }
}

/// A job that failed, and is to be tried again or not.
pub open spec fn failed(error: Seq<char>, retry_at: Option<Timestamp>, retry: bool, now: Timestamp) -> spec_fn(
    JobView,
) -> JobView {
    |m: JobView|
        JobView {
            status: if retry {
                JobStatus::Queued
            } else {
                JobStatus::Failed
            },
            error: Some(error),
            run_after: or_value(retry_at, m.run_after),
            locked_by: None,
            locked_at: None,
            updated_at: now,
            finished_at: if retry {
                None
            } else {
                Some(now)
            },
            payload: if retry {
                m.payload
            } else {
                public_payload(m.payload)
            },
            ..m
        }
}

/// A running job fails: it is queued again where a time for that is given and attempts are
/// left, else it ends and takes back what it staged.
pub open spec fn fail_spec(
    db: DatabaseView,
    id: Seq<char>,
    error: Seq<char>,
    retry_at: Option<Timestamp>,
    now: Timestamp,
) -> Result<(DatabaseView, JobView), AppErrorView> {
    match find(db.jobs, job_with_id(id)) {
        None => Err(AppErrorView::NotFound("job"@)),
        Some(m) => if m.status != JobStatus::Running {
            Err(AppErrorView::Conflict("job is not running"@))
        } else {
            let retry = retry_at is Some && m.attempts < m.max_attempts;
            let change = failed(error, retry_at, retry, now);
            Ok(
                (
                    DatabaseView {
                        guest_tools: if retry {
                            db.guest_tools
                        } else {
                            cleanup_spec(db.guest_tools, m, now)
                        },
                        jobs: revised(db.jobs, job_with_id(id), change),
                        ..db
                    },
                    change(m),
                ),
            )
        },
    }
}

/// A queued job with an identifier.
pub open spec fn queued_with_id(id: Seq<char>) -> spec_fn(JobView) -> bool {
    |m: JobView| m.id == id && m.status == JobStatus::Queued
}

/// A job that was cancelled.
pub open spec fn cancelled(now: Timestamp) -> spec_fn(JobView) -> JobView {
    |m: JobView|
        JobView {
            status: JobStatus::Cancelled,
            locked_by: None,
            locked_at: None,
            updated_at: now,
            finished_at: Some(now),
            payload: public_payload(m.payload),
            ..m
        }
}

/// A machine that the hypervisor does not know yet.
pub open spec fn provisional_vm(vm_id: Seq<char>) -> spec_fn(VmRowView) -> bool {
    |m: VmRowView|
        m.vm.id == vm_id && m.vm.state == VmState::Creating && m.vm.libvirt_uuid is None
}

/// A machine that waits for a reinstall.
pub open spec fn awaiting_reinstall(vm_id: Seq<char>) -> spec_fn(VmRowView) -> bool {
    |m: VmRowView| m.vm.id == vm_id && m.vm.state == VmState::Reinstalling
}

/// A machine in a state that was not asked for.
pub open spec fn in_state(state: VmState, now: Timestamp) -> spec_fn(VmRowView) -> VmRowView {
    |m: VmRowView| VmRowView { vm: VmView { state, updated_at: now, ..m.vm }, ..m }
}

/// A snapshot that is being made.
pub open spec fn snapshot_in_making(id: Seq<char>) -> spec_fn(SnapshotView) -> bool {
    |m: SnapshotView| m.id == id && m.state == SnapshotState::Creating
}

/// A snapshot that failed.
pub open spec fn snapshot_failed(error: Seq<char>, now: Timestamp) -> spec_fn(
    SnapshotView,
) -> SnapshotView {
    |m: SnapshotView|
        SnapshotView {
            state: SnapshotState::Error,
            updated_at: now,
            completed_at: Some(now),
            metadata: m.metadata.with_member("error"@, Json::Text(error)),
            ..m
        }
}

/// What a cancelled job leaves: a machine that was to be created goes away, one that was
/// to be installed anew is in an unknown state, and a snapshot that was to be made failed.
pub open spec fn after_cancel(db: DatabaseView, m: JobView, now: Timestamp) -> DatabaseView {
    if m.kind == "vm.create"@ && m.vm_id is Some {
        let vm_id = m.vm_id->0;
        let freed = with_addresses_freed(db, vm_id, now);
        if any(db.vms, provisional_vm(vm_id)) {
            let left = without_vm(freed, vm_id);
            DatabaseView { vms: others(db.vms, provisional_vm(vm_id)), ..left }
        } else {
            freed
        }
    } else if m.kind == "vm.reinstall"@ && m.vm_id is Some {
        DatabaseView {
            guest_tools: cleanup_spec(db.guest_tools, m, now),
            vms: revised(
                db.vms,
                awaiting_reinstall(m.vm_id->0),
                in_state(VmState::Unknown, now),
            ),
            ..db
        }
    } else if m.kind == "vm.snapshot.create"@ && m.payload.text_member("snapshot_id"@) is Some {
        DatabaseView {
            snapshots: revised(
                db.snapshots,
                snapshot_in_making(m.payload.text_member("snapshot_id"@)->0),
                snapshot_failed("job cancelled"@, now),
            ),
            ..db
        }
    } else {
        db
    }
}

/// A queued job is cancelled, and what was prepared for it is put right.
pub open spec fn cancel_spec(db: DatabaseView, id: Seq<char>, now: Timestamp) -> Result<
    (DatabaseView, ()),
    AppErrorView,
> {
    match find(db.jobs, job_with_id(id)) {
        None => Err(AppErrorView::NotFound("job"@)),
        Some(m) => if m.status != JobStatus::Queued {
            Err(AppErrorView::Conflict("only a queued job can be cancelled"@))
        } else {
            let between = DatabaseView {
                jobs: revised(db.jobs, queued_with_id(id), cancelled(now)),
                ..db
            };
            Ok((after_cancel(between, m, now), ()))
        },
    }
}

/// The password that a running reinstall carries becomes the machine's, after the
/// hypervisor has the new guest; a manual reinstall clears it, and one without a password
/// only shows that the machine is there.
pub open spec fn commit_password_spec(db: DatabaseView, job_id: Seq<char>, now: Timestamp) -> Result<
    (DatabaseView, ()),
    AppErrorView,
> {
    match find(db.jobs, job_with_id(job_id)) {
        None => Err(AppErrorView::NotFound("job"@)),
        Some(m) => {
            let envelope = m.payload.text_member(password_field());
            let clear = m.payload.truth_member("clear_password_after_success"@) == Some(true);
            if m.kind != "vm.reinstall"@ {
                Err(AppErrorView::Validation("credential commit requires a vm.reinstall job"@))
            } else if m.status != JobStatus::Running {
                Err(
                    AppErrorView::Conflict(
                        "reinstall credential can only be committed by its running worker"@,
                    ),
                )
            } else if m.vm_id is None {
                Err(AppErrorView::Conflict("reinstall job no longer owns a VM"@))
            } else if clear && envelope is Some {
                Err(AppErrorView::Validation("manual reinstall job cannot stage a guest password"@))
            } else if clear {
                change_vm_spec(db, vm_with_id(m.vm_id->0), with_password(None, now))
            } else if envelope is Some {
                set_password_envelope_spec(db, m.vm_id->0, envelope->0, now)
            } else if any(db.vms, vm_with_id(m.vm_id->0)) {
                Ok((db, ()))
            } else {
                Err(AppErrorView::Database("Query returned no rows"@))
            }
        },
    }
}

fn is_running_or_queued(row: &Job) -> (r: bool)
    ensures
        r == is_active(row@),
{
    row.status == JobStatus::Queued || row.status == JobStatus::Running
}

fn make_job(
    request: &NewJob,
    payload: Document,
    key: Option<String>,
    id: &str,
    now: Timestamp,
) -> (r: Job)
    ensures
        r@ == new_job(request@, payload@, view_option(key), id@, now),
{
    Job {
        id: id.to_owned(),
        kind: request.kind.clone(),
        vm_id: copy_option(&request.vm_id),
        status: JobStatus::Queued,
        payload,
        result: None,
        error: None,
        progress_percent: 0,
        idempotency_key: key,
        attempts: 0,
        max_attempts: if request.max_attempts > 1 {
            request.max_attempts
        } else {
            1
        },
        run_after: changed(request.run_after, now),
        locked_by: None,
        locked_at: None,
        actor_type: copy_option(&request.actor_type),
        actor_id: copy_option(&request.actor_id),
        created_at: now,
        updated_at: now,
        finished_at: None,
    }
}

/// A payload without the sealed password.
pub fn payload_without_staged_password(payload: &Document) -> (r: Document)
    ensures
        r@ == public_payload(payload@),
{
    let mut r = payload.clone();
    r.unset("_staged_password_envelope");
    r
}

impl Database {
    pub(crate) fn find_job(&self, id: &str) -> (r: Option<Job>)
        ensures
            model(r) == find(self@.jobs, job_with_id(id@)),
    {
        let test = |x: &Job| -> (b: bool)
            ensures
                b == job_with_id(id@)(x@),
            { same(x.id.as_str(), id) };
        look_up(&self.jobs, test, Ghost(job_with_id(id@)))
    }

    fn find_job_by_key(&self, key: &str) -> (r: Option<Job>)
        ensures
            model(r) == find(self@.jobs, job_with_key(key@)),
    {
        let test = |x: &Job| -> (b: bool)
            ensures
                b == job_with_key(key@)(x@),
            { option_is(&x.idempotency_key, key) };
        look_up(&self.jobs, test, Ghost(job_with_key(key@)))
    }

    fn replayed(&self, request: &NewJob, private: bool) -> (r: Option<AppResult<Job>>)
        ensures
            match r {
                None => replay(self@, request@, private) is None,
                Some(v) => replay(self@, request@, private) == Some(row_result(v)),
            },
    {
        let key = match &request.idempotency_key {
            None => {
                return None;
            },
            Some(key) => key,
        };
        match self.find_job_by_key(key.as_str()) {
            None => None,
            Some(m) => {
                let payload = if private {
                    payload_without_staged_password(&m.payload)
                } else {
                    m.payload.clone()
                };
                if !same(m.kind.as_str(), request.kind.as_str()) || !same_option(
                    &m.vm_id,
                    &request.vm_id,
                ) || !payload.same(&request.payload) {
                    Some(
                        Err(
                            conflict("idempotency key was already used for a different request"),
                        ),
                    )
                } else {
                    Some(Ok(m))
                }
            },
        }
    }

    fn push_job(&mut self, row: Job) -> (r: AppResult<Job>)
        ensures
            settles(queued_job(old(self)@, row@), old(self)@, final(self)@, row_result(r)),
    {
        let id = row.id.as_str();
        let test = |x: &Job| -> (b: bool)
            ensures
                b == job_with_id(id@)(x@),
            { same(x.id.as_str(), id) };
        if occurs(&self.jobs, test, Ghost(job_with_id(id@))) {
            return Err(duplicate_value("jobs.id"));
        }
        if !self.has_optional_vm(&row.vm_id) {
            return Err(dangling_reference());
        }
        let shown = row.clone();
        append(&mut self.jobs, row);
        Ok(shown)
    }

    /// Queues a job.
    pub fn enqueue_job(&mut self, request: &NewJob, id: &str, now: Timestamp) -> (r: AppResult<Job>)
        ensures
            settles(
                enqueue_spec(old(self)@, request@, id@, now),
                old(self)@,
                final(self)@,
                row_result(r),
            ),
    {
        match validate_non_empty("job kind", request.kind.as_str()) {
            Err(e) => {
                return Err(e);
            },
            Ok(v) => v,
        };
        match self.replayed(request, false) {
            Some(r) => {
                return r;
            },
            None => {},
        }
        let row = make_job(
            request,
            request.payload.clone(),
            copy_option(&request.idempotency_key),
            id,
            now,
        );
        self.push_job(row)
    }

    /// Queues a start of the guest tools, unless one for the same generation is active.
    pub fn enqueue_guest_tools_bootstrap_job(
        &mut self,
        request: &NewJob,
        id: &str,
        now: Timestamp,
    ) -> (r: AppResult<Job>)
        ensures
            settles(
                enqueue_bootstrap_spec(old(self)@, request@, id@, now),
                old(self)@,
                final(self)@,
                row_result(r),
            ),
    {
        if !same(request.kind.as_str(), "vm.guest_tools.bootstrap") {
            return Err(
                validation(
                    "Guest Tools bootstrap transaction requires a vm.guest_tools.bootstrap job",
                ),
            );
        }
        let vm_id = match &request.vm_id {
            None => {
                return Err(validation("Guest Tools bootstrap job requires vm_id"));
            },
            Some(v) => v.as_str(),
        };
        let generation = request.payload.text_member("expected_generation");
        match &generation {
            Some(g) => {
                match validate_guest_tools_rotation_generation(g.as_str()) {
                    Err(e) => {
                        return Err(e);
                    },
                    Ok(v) => v,
                };
            },
            None => {},
        }
        let ghost p = active_bootstrap(vm_id@, view_option(generation));
        let active = |x: &Job| -> (b: bool)
            ensures
                b == p(x@),
            {
                same(x.kind.as_str(), "vm.guest_tools.bootstrap")
                    && option_is(&x.vm_id, vm_id)
                    && is_running_or_queued(x)
                    && match &generation {
                        Some(g) => x.payload.extract_is("expected_generation", g.as_str()),
                        None => x.payload.extract_is_absent("expected_generation"),
                    }
            };
        let le = |a: &Job, c: &Job| -> (b: bool)
            ensures
                b == job_entered_first()(a@, c@),
            { a.created_at <= c.created_at };
        match pick(&self.jobs, active, le, Ghost(p), Ghost(job_entered_first())) {
            Some(i) => Ok(self.jobs[i].clone()),
            None => {
                let row = make_job(request, request.payload.clone(), None, id, now);
                self.push_job(row)
            },
        }
    }

    /// Queues the removal of a machine, unless one is active.
    pub fn enqueue_delete_job(&mut self, request: &NewJob, id: &str, now: Timestamp) -> (r: AppResult<
        Job,
    >)
        ensures
            settles(
                enqueue_delete_spec(old(self)@, request@, id@, now),
                old(self)@,
                final(self)@,
                row_result(r),
            ),
    {
        if !same(request.kind.as_str(), "vm.delete") {
            return Err(validation("delete transaction requires a vm.delete job"));
        }
        let vm_id = match &request.vm_id {
            None => {
                return Err(validation("delete job requires vm_id"));
            },
            Some(v) => v.as_str(),
        };
        match self.replayed(request, false) {
            Some(r) => {
                return r;
            },
            None => {},
        }
        let ghost p = active_job("vm.delete"@, vm_id@);
        let active = |x: &Job| -> (b: bool)
            ensures
                b == p(x@),
            {
                same(x.kind.as_str(), "vm.delete")
                    && option_is(&x.vm_id, vm_id)
                    && is_running_or_queued(x)
            };
        let le = |a: &Job, c: &Job| -> (b: bool)
            ensures
                b == job_entered_first()(a@, c@),
            { a.created_at <= c.created_at };
        match pick(&self.jobs, active, le, Ghost(p), Ghost(job_entered_first())) {
            Some(i) => Ok(self.jobs[i].clone()),
            None => {
                let row = make_job(
                    request,
                    request.payload.clone(),
                    copy_option(&request.idempotency_key),
                    id,
                    now,
                );
                self.push_job(row)
            },
        }
    }

    /// Queues a reinstall of a machine, with the sealed password that the guest is to get.
    pub fn enqueue_reinstall_job(
        &mut self,
        request: &NewJob,
        password_envelope: Option<&str>,
        desired_state: VmState,
        id: &str,
        now: Timestamp,
    ) -> (r: AppResult<Job>)
        ensures
            settles(
                enqueue_reinstall_spec(
                    old(self)@,
                    request@,
                    view_str(password_envelope),
                    desired_state,
                    id@,
                    now,
                ),
                old(self)@,
                final(self)@,
                row_result(r),
            ),
    {
        if !same(request.kind.as_str(), "vm.reinstall") {
            return Err(validation("reinstall transaction requires a vm.reinstall job"));
        }
        let vm_id = match &request.vm_id {
            None => {
                return Err(validation("reinstall job requires vm_id"));
            },
            Some(v) => v.as_str(),
        };
        if request.payload.has("_staged_password_envelope") {
            return Err(validation("reinstall payload contains a reserved field"));
        }
        let clear = match request.payload.truth_member("clear_password_after_success") {
            Some(b) => b,
            None => false,
        };
        if password_envelope.is_some() && clear {
            return Err(validation("manual reinstall cannot stage a guest password"));
        }
        let mut payload = request.payload.clone();
        match password_envelope {
            Some(envelope) => {
                match validate_non_empty("password envelope", envelope) {
                    Err(e) => {
                        return Err(e);
                    },
                    Ok(v) => v,
                };
                if !payload.is_object() {
                    return Err(validation("reinstall job payload must be an object"));
                }
                payload.set("_staged_password_envelope", Document::text(envelope));
            },
            None => {},
        }
        match self.replayed(request, true) {
            Some(r) => {
                return r;
            },
            None => {},
        }
        let ghost p = active_job("vm.reinstall"@, vm_id@);
        let active = |x: &Job| -> (b: bool)
            ensures
                b == p(x@),
            {
                same(x.kind.as_str(), "vm.reinstall")
                    && option_is(&x.vm_id, vm_id)
                    && is_running_or_queued(x)
            };
        if occurs(&self.jobs, active, Ghost(p)) {
            return Err(conflict("a reinstall is already queued or running for this VM"));
        }
        if !self.has_vm(vm_id) {
            return Err(not_found("VM"));
        }
        let taken = |x: &Job| -> (b: bool)
            ensures
                b == job_with_id(id@)(x@),
            { same(x.id.as_str(), id) };
        if occurs(&self.jobs, taken, Ghost(job_with_id(id@))) {
            return Err(duplicate_value("jobs.id"));
        }
        let row = make_job(request, payload, copy_option(&request.idempotency_key), id, now);
        let shown = row.clone();
        let ghost f = reinstalling(desired_state, now);
        let chosen = |x: &VmRow| -> (b: bool)
            ensures
                b == vm_with_id(vm_id@)(x@),
            { same(x.vm.id.as_str(), vm_id) };
        let change = |x: &VmRow| -> (y: VmRow)
            ensures
                y@ == f(x@),
            { {
            let mut y = x.clone();
            y.vm.state = VmState::Reinstalling;
            y.vm.desired_state = desired_state;
            y.vm.updated_at = now;
            y
        } };
        let _ = revise(&mut self.vms, chosen, change, Ghost(vm_with_id(vm_id@)), Ghost(f));
        append(&mut self.jobs, row);
        Ok(shown)
    }

    /// The job with an identifier.
    pub fn get_job(&self, id: &str) -> (r: AppResult<Option<Job>>)
        ensures
            option_result(r) == Ok::<Option<JobView>, AppErrorView>(
                find(self@.jobs, job_with_id(id@)),
            ),
    {
        Ok(self.find_job(id))
    }

    /// The job that was queued under a key.
    pub fn job_by_idempotency_key(&self, key: &str) -> (r: AppResult<Option<Job>>)
        ensures
            option_result(r) == Ok::<Option<JobView>, AppErrorView>(
                find(self@.jobs, job_with_key(key@)),
            ),
    {
        Ok(self.find_job_by_key(key))
    }

    /// Jobs in a state and of a machine, the newest first.
    pub fn list_jobs(&self, status: Option<JobStatus>, vm_id: Option<&str>, limit: usize) -> (r:
        AppResult<Vec<Job>>)
        ensures
            r is Ok,
            listing(
                models(r->Ok_0@),
                matching(self@.jobs, listed_job(status, view_str(vm_id))),
                newest_job_first(),
                limit_of(limit, 1000),
            ),
    {
        let n: usize = bounded_limit(limit, 1000);
        let ghost p = listed_job(status, view_str(vm_id));
        let test = |x: &Job| -> (b: bool)
            ensures
                b == p(x@),
            { (match status {
            None => true,
            Some(s) => x.status == s,
        }) && (match vm_id {
            None => true,
            Some(v) => option_is(&x.vm_id, v),
        }) };
        let rows = select(&self.jobs, test, Ghost(p));
        let le = |a: &Job, c: &Job| -> (b: bool)
            ensures
                b == newest_job_first()(a@, c@),
            { a.created_at >= c.created_at };
        Ok(list(rows, le, n, Ghost(newest_job_first())))
    }

    /// Claims the job that is due first, for a worker.
    pub fn claim_next_job(&mut self, worker: &str, now: Timestamp) -> (r: AppResult<Option<Job>>)
        ensures
            settles(
                claim_spec(old(self)@, worker@, now),
                old(self)@,
                final(self)@,
                option_result(r),
            ),
    {
        match validate_non_empty("worker name", worker) {
            Err(e) => {
                return Err(e);
            },
            Ok(v) => v,
        };
        let free = |x: &Job| -> (b: bool)
            ensures
                b == claimable(now)(x@),
            { x.status == JobStatus::Queued && x.run_after <= now && x.attempts < x.max_attempts };
        let le = |a: &Job, c: &Job| -> (b: bool)
            ensures
                b == due_first()(a@, c@),
            {
                a.run_after < c.run_after
                    || (a.run_after == c.run_after && a.created_at <= c.created_at)
            };
        match pick(&self.jobs, free, le, Ghost(claimable(now)), Ghost(due_first())) {
            None => Ok(None),
            Some(i) => {
                proof {
                    assert(self@.jobs[i as int] == self.jobs@[i as int]@);
                }
                let mut row = self.jobs[i].clone();
                row.status = JobStatus::Running;
                row.attempts = row.attempts + 1;
                row.locked_by = Some(worker.to_owned());
                row.locked_at = Some(now);
                row.updated_at = now;
                let shown = row.clone();
                let ghost before = self.jobs@;
                let ghost m = row@;
                self.jobs.set(i, row);
                proof {
                    assert(models(self.jobs@) =~= models(before).update(i as int, m));
                }
                Ok(Some(shown))
            },
        }
    }

    /// Records the progress of a running job, by the bits of its percentage.
    pub fn update_job_progress(&mut self, id: &str, progress: u64, now: Timestamp) -> (r: AppResult<
        (),
    >)
        ensures
            settles(
                progress_spec(old(self)@, id@, progress, now),
                old(self)@,
                final(self)@,
                plain_result(r),
            ),
    {
        if !(progress <= FULL_PROGRESS || progress == 0x8000_0000_0000_0000) {
            return Err(validation("job progress must be between 0 and 100"));
        }
        let chosen = |x: &Job| -> (b: bool)
            ensures
                b == running_job(id@)(x@),
            { same(x.id.as_str(), id) && x.status == JobStatus::Running };
        if !occurs(&self.jobs, chosen, Ghost(running_job(id@))) {
            return Err(not_found("running job"));
        }
        let ghost f = with_progress(progress, now);
        let change = |x: &Job| -> (y: Job)
            ensures
                y@ == f(x@),
            { {
            let mut y = x.clone();
            y.progress_percent = progress;
            y.updated_at = now;
            y
        } };
        let _ = revise(&mut self.jobs, chosen, change, Ghost(running_job(id@)), Ghost(f));
        Ok(())
    }

    /// Ends a running job with a result.
    pub fn finish_job(&mut self, id: &str, result: &Document, now: Timestamp) -> (r: AppResult<()>)
        ensures
            settles(
                change_running_spec(old(self)@, id@, succeeded(result@, now)),
                old(self)@,
                final(self)@,
                plain_result(r),
            ),
    {
        let chosen = |x: &Job| -> (b: bool)
            ensures
                b == running_job(id@)(x@),
            { same(x.id.as_str(), id) && x.status == JobStatus::Running };
        if !occurs(&self.jobs, chosen, Ghost(running_job(id@))) {
            return Err(not_found("running job"));
        }
        let ghost f = succeeded(result@, now);
        let change = |x: &Job| -> (y: Job)
            ensures
                y@ == f(x@),
            { {
            let mut y = x.clone();
            y.status = JobStatus::Succeeded;
            y.result = Some(result.clone());
            y.error = None;
            y.progress_percent = FULL_PROGRESS;
            y.locked_by = None;
            y.locked_at = None;
            y.updated_at = now;
            y.finished_at = Some(now);
            y.payload = payload_without_staged_password(&x.payload);
            y
        } };
        let _ = revise(&mut self.jobs, chosen, change, Ghost(running_job(id@)), Ghost(f));
        Ok(())
    }

    /// Records that a running job failed.
    pub fn fail_job(
        &mut self,
        id: &str,
        error: &str,
        retry_at: Option<Timestamp>,
        now: Timestamp,
    ) -> (r: AppResult<Job>)
        ensures
            settles(
                fail_spec(old(self)@, id@, error@, retry_at, now),
                old(self)@,
                final(self)@,
                row_result(r),
            ),
    {
        let job = match self.find_job(id) {
            None => {
                return Err(not_found("job"));
            },
            Some(job) => job,
        };
        if job.status != JobStatus::Running {
            return Err(conflict("job is not running"));
        }
        let retry = retry_at.is_some() && job.attempts < job.max_attempts;
        if !retry {
            self.cleanup_unarmed_reinstall_guest_tools(&job, now);
        }
        let ghost f = failed(error@, retry_at, retry, now);
        let chosen = |x: &Job| -> (b: bool)
            ensures
                b == job_with_id(id@)(x@),
            { same(x.id.as_str(), id) };
        let change = |x: &Job| -> (y: Job)
            ensures
                y@ == f(x@),
            { {
            let mut y = x.clone();
            y.status = if retry {
                JobStatus::Queued
            } else {
                JobStatus::Failed
            };
            y.error = Some(error.to_owned());
            y.run_after = changed(retry_at, x.run_after);
            y.locked_by = None;
            y.locked_at = None;
            y.updated_at = now;
            y.finished_at = if retry {
                None
            } else {
                Some(now)
            };
            if !retry {
                y.payload = payload_without_staged_password(&x.payload);
            }
            y
        } };
        let shown = change(&job);
        let _ = revise(&mut self.jobs, chosen, change, Ghost(job_with_id(id@)), Ghost(f));
        Ok(shown)
    }

    fn put_right_after_cancel(&mut self, job: &Job, now: Timestamp)
        ensures
            final(self)@ == after_cancel(old(self)@, job@, now),
    {
        let kind = job.kind.as_str();
        match &job.vm_id {
            Some(vm_id) => {
                let vm_id = vm_id.as_str();
                if same(kind, "vm.create") {
                    let ghost p = provisional_vm(vm_id@);
                    let chosen = |x: &VmRow| -> (b: bool)
                        ensures
                            b == p(x@),
                        {
                            same(x.vm.id.as_str(), vm_id)
                                && x.vm.state == VmState::Creating
                                && x.vm.libvirt_uuid.is_none()
                        };
                    let provisional = occurs(&self.vms, chosen, Ghost(p));
                    self.free_addresses(vm_id, now);
                    if provisional {
                        self.detach_vm(vm_id);
                        let _ = remove(&mut self.vms, chosen, Ghost(p));
                    }
                    return;
                }
                if same(kind, "vm.reinstall") {
                    self.cleanup_unarmed_reinstall_guest_tools(job, now);
                    let ghost p = awaiting_reinstall(vm_id@);
                    let ghost f = in_state(VmState::Unknown, now);
                    let chosen = |x: &VmRow| -> (b: bool)
                        ensures
                            b == p(x@),
                        { same(x.vm.id.as_str(), vm_id) && x.vm.state == VmState::Reinstalling };
                    let change = |x: &VmRow| -> (y: VmRow)
                        ensures
                            y@ == f(x@),
                        { {
                        let mut y = x.clone();
                        y.vm.state = VmState::Unknown;
                        y.vm.updated_at = now;
                        y
                    } };
                    let _ = revise(&mut self.vms, chosen, change, Ghost(p), Ghost(f));
                    return;
                }
            },
            None => {},
        }
        if same(kind, "vm.snapshot.create") {
            match job.payload.text_member("snapshot_id") {
                Some(snapshot_id) => {
                    let snapshot_id = snapshot_id.as_str();
                    let ghost p = snapshot_in_making(snapshot_id@);
                    let ghost f = snapshot_failed("job cancelled"@, now);
                    let chosen = |x: &Snapshot| -> (b: bool)
                        ensures
                            b == p(x@),
                        { same(x.id.as_str(), snapshot_id) && x.state == SnapshotState::Creating };
                    let change = |x: &Snapshot| -> (y: Snapshot)
                        ensures
                            y@ == f(x@),
                        { {
                        let mut y = x.clone();
                        y.state = SnapshotState::Error;
                        y.updated_at = now;
                        y.completed_at = Some(now);
                        y.metadata.set("error", Document::text("job cancelled"));
                        y
                    } };
                    let _ = revise(&mut self.snapshots, chosen, change, Ghost(p), Ghost(f));
                },
                None => {},
            }
        }
    }

    /// Cancels a queued job, and puts right what was prepared for it.
    pub fn cancel_job(&mut self, id: &str, now: Timestamp) -> (r: AppResult<()>)
        ensures
            settles(cancel_spec(old(self)@, id@, now), old(self)@, final(self)@, plain_result(r)),
    {
        let job = match self.find_job(id) {
            None => {
                return Err(not_found("job"));
            },
            Some(job) => job,
        };
        if job.status != JobStatus::Queued {
            return Err(conflict("only a queued job can be cancelled"));
        }
        let chosen = |x: &Job| -> (b: bool)
            ensures
                b == queued_with_id(id@)(x@),
            { same(x.id.as_str(), id) && x.status == JobStatus::Queued };
        let change = |x: &Job| -> (y: Job)
            ensures
                y@ == cancelled(now)(x@),
            { {
            let mut y = x.clone();
            y.status = JobStatus::Cancelled;
            y.locked_by = None;
            y.locked_at = None;
            y.updated_at = now;
            y.finished_at = Some(now);
            y.payload = payload_without_staged_password(&x.payload);
            y
        } };
        let _ = revise(&mut self.jobs, chosen, change, Ghost(queued_with_id(id@)), Ghost(cancelled(now)));
        self.put_right_after_cancel(&job, now);
        Ok(())
    }

    /// Makes the password that a running reinstall carries the machine's, after the
    /// hypervisor has the new guest.
    pub fn commit_reinstall_password_after_hypervisor(&mut self, job_id: &str, now: Timestamp) -> (r:
        AppResult<()>)
        ensures
            settles(
                commit_password_spec(old(self)@, job_id@, now),
                old(self)@,
                final(self)@,
                plain_result(r),
            ),
    {
        let job = match self.find_job(job_id) {
            None => {
                return Err(not_found("job"));
            },
            Some(job) => job,
        };
        if !same(job.kind.as_str(), "vm.reinstall") {
            return Err(validation("credential commit requires a vm.reinstall job"));
        }
        if job.status != JobStatus::Running {
            return Err(
                conflict("reinstall credential can only be committed by its running worker"),
            );
        }
        let vm_id = match &job.vm_id {
            None => {
                return Err(conflict("reinstall job no longer owns a VM"));
            },
            Some(v) => v.as_str(),
        };
        let staged = job.payload.text_member("_staged_password_envelope");
        let clear = match job.payload.truth_member("clear_password_after_success") {
            Some(b) => b,
            None => false,
        };
        if clear && staged.is_some() {
            return Err(validation("manual reinstall job cannot stage a guest password"));
        }
        if clear {
            return self.clear_vm_password(vm_id, now);
        }
        match &staged {
            Some(envelope) => self.set_vm_password_envelope(vm_id, envelope.as_str(), now),
            None => {
                if self.has_vm(vm_id) {
                    Ok(())
                } else {
                    Err(AppError::Database("Query returned no rows".to_owned()))
                }
            },
        }
    }
}

/// No job has more attempts than it may have.
pub open spec fn within_budget(jobs: Seq<JobView>) -> bool {
    forall|i: int|
        0 <= i < jobs.len() ==> (#[trigger] jobs[i]).attempts <= jobs[i].max_attempts
}

/// A job never gets more attempts than it was given, however it is queued, claimed, ended
/// or put back.
pub proof fn attempts_stay_within_budget(
    db: DatabaseView,
    request: NewJobView,
    envelope: Option<Seq<char>>,
    desired_state: VmState,
    id: Seq<char>,
    worker: Seq<char>,
    result: Json,
    error: Seq<char>,
    retry_at: Option<Timestamp>,
    now: Timestamp,
)
    requires
        within_budget(db.jobs),
    ensures
        enqueue_spec(db, request, id, now) matches Ok(done) ==> within_budget(done.0.jobs),
        enqueue_bootstrap_spec(db, request, id, now) matches Ok(done) ==> within_budget(
            done.0.jobs,
        ),
        enqueue_delete_spec(db, request, id, now) matches Ok(done) ==> within_budget(done.0.jobs),
        enqueue_reinstall_spec(db, request, envelope, desired_state, id, now) matches Ok(done)
            ==> within_budget(done.0.jobs),
        claim_spec(db, worker, now) matches Ok(done) ==> within_budget(done.0.jobs),
        change_running_spec(db, id, succeeded(result, now)) matches Ok(done) ==> within_budget(
            done.0.jobs,
        ),
        fail_spec(db, id, error, retry_at, now) matches Ok(done) ==> within_budget(done.0.jobs),
        cancel_spec(db, id, now) matches Ok(done) ==> within_budget(done.0.jobs),
{
    least_of_some(db.jobs, claimable(now), due_first());
}

/// The same request under the same key gives the same job again and changes nothing.
pub proof fn requests_are_not_done_twice(
    db: DatabaseView,
    request: NewJobView,
    envelope: Option<Seq<char>>,
    other_envelope: Option<Seq<char>>,
    desired_state: VmState,
    id: Seq<char>,
    now: Timestamp,
    other_id: Seq<char>,
    later: Timestamp,
)
    requires
        request.idempotency_key is Some,
        reinstall_fault(request, other_envelope) is None,
    ensures
        enqueue_spec(db, request, id, now) matches Ok(done) ==> enqueue_spec(
            done.0,
            request,
            other_id,
            later,
        ) == Ok::<(DatabaseView, JobView), AppErrorView>((done.0, done.1)),
        enqueue_reinstall_spec(db, request, envelope, desired_state, id, now) matches Ok(done)
            ==> enqueue_reinstall_spec(
            done.0,
            request,
            other_envelope,
            desired_state,
            other_id,
            later,
        ) == Ok::<(DatabaseView, JobView), AppErrorView>((done.0, done.1)),
{
    let key = request.idempotency_key->0;
    let p = job_with_key(key);
    first_is_first(db.jobs, p);
    let plain = enqueue_spec(db, request, id, now);
    if plain is Ok {
        let after = plain->Ok_0.0.jobs;
        first_is_first(after, p);
        if !any(db.jobs, p) {
            assert(p(after[after.len() - 1]));
            assert(first(after, p) == Some(after.len() - 1));
        }
    }
    let again = enqueue_reinstall_spec(db, request, envelope, desired_state, id, now);
    if again is Ok {
        let after = again->Ok_0.0.jobs;
        first_is_first(after, p);
        if !any(db.jobs, p) {
            assert(p(after[after.len() - 1]));
            assert(first(after, p) == Some(after.len() - 1));
            staged_password_is_not_seen(request.payload, envelope);
        }
    }
}

proof fn staged_password_is_not_seen(payload: Json, envelope: Option<Seq<char>>)
    requires
        payload.member(password_field()) is None,
    ensures
        public_payload(with_envelope(payload, envelope)) == payload,
{
    match payload {
        Json::Object(m) => {
            assert(m.remove(password_field()) =~= m);
            if envelope is Some {
                assert(m.insert(password_field(), Json::Text(envelope->0)).remove(
                    password_field(),
                ) =~= m);
            }
        },
        _ => {},
    }
}

/// There is never a second active removal or reinstall of a machine, nor a second active
/// start of its tools for a generation: where one is active, a request makes no new job.
pub proof fn one_active_job_of_a_kind(
    db: DatabaseView,
    request: NewJobView,
    envelope: Option<Seq<char>>,
    desired_state: VmState,
    id: Seq<char>,
    now: Timestamp,
)
    requires
        request.vm_id is Some,
    ensures
        any(db.jobs, active_job("vm.delete"@, request.vm_id->0)) ==> (enqueue_delete_spec(
            db,
            request,
            id,
            now,
        ) matches Ok(done) ==> done.0 == db),
        any(db.jobs, active_job("vm.reinstall"@, request.vm_id->0)) ==> (enqueue_reinstall_spec(
            db,
            request,
            envelope,
            desired_state,
            id,
            now,
        ) matches Ok(done) ==> done.0 == db),
        any(
            db.jobs,
            active_bootstrap(
                request.vm_id->0,
                request.payload.text_member("expected_generation"@),
            ),
        ) ==> (enqueue_bootstrap_spec(db, request, id, now) matches Ok(done) ==> done.0 == db),
{
    let delete = active_job("vm.delete"@, request.vm_id->0);
    first_is_first(db.jobs, delete);
    least_of_some(db.jobs, delete, job_entered_first());
    let bootstrap = active_bootstrap(
        request.vm_id->0,
        request.payload.text_member("expected_generation"@),
    );
    first_is_first(db.jobs, bootstrap);
    least_of_some(db.jobs, bootstrap, job_entered_first());
}

/// A sealed password leaves the job with its end: no job that succeeded, failed for good or
/// was cancelled carries one.
pub proof fn ended_jobs_carry_no_password(
    m: JobView,
    result: Json,
    error: Seq<char>,
    retry_at: Option<Timestamp>,
    now: Timestamp,
)
    ensures
        succeeded(result, now)(m).payload.member(password_field()) is None,
        failed(error, retry_at, false, now)(m).payload.member(password_field()) is None,
        cancelled(now)(m).payload.member(password_field()) is None,
{
}

/// No two jobs have the same identifier.
pub open spec fn jobs_are_distinct(jobs: Seq<JobView>) -> bool {
    forall|i: int, j: int|
        0 <= i < j < jobs.len() ==> (#[trigger] jobs[i]).id != (#[trigger] jobs[j]).id
}

proof fn queueing_keeps_jobs_distinct(db: DatabaseView, row: JobView)
    requires
        jobs_are_distinct(db.jobs),
    ensures
        !any(db.jobs, job_with_id(row.id)) ==> jobs_are_distinct(db.jobs.push(row)),
{
    first_is_first(db.jobs, job_with_id(row.id));
}

/// However jobs are queued, no two ever have the same identifier.
pub proof fn jobs_stay_distinct(
    db: DatabaseView,
    request: NewJobView,
    envelope: Option<Seq<char>>,
    desired_state: VmState,
    id: Seq<char>,
    now: Timestamp,
)
    requires
        jobs_are_distinct(db.jobs),
    ensures
        enqueue_spec(db, request, id, now) matches Ok(done) ==> jobs_are_distinct(done.0.jobs),
        enqueue_bootstrap_spec(db, request, id, now) matches Ok(done) ==> jobs_are_distinct(
            done.0.jobs,
        ),
        enqueue_delete_spec(db, request, id, now) matches Ok(done) ==> jobs_are_distinct(
            done.0.jobs,
        ),
        enqueue_reinstall_spec(db, request, envelope, desired_state, id, now) matches Ok(done)
            ==> jobs_are_distinct(done.0.jobs),
{
    let key = request.idempotency_key;
    queueing_keeps_jobs_distinct(db, new_job(request, request.payload, key, id, now));
    queueing_keeps_jobs_distinct(db, new_job(request, request.payload, None, id, now));
    queueing_keeps_jobs_distinct(
        db,
        new_job(request, with_envelope(request.payload, envelope), key, id, now),
    );
}

/// A job still is what it ended as.
pub open spec fn ended_alike(before: JobView, after: JobView) -> bool {
    after.id == before.id && after.kind == before.kind && after.status == before.status
        && after.payload == before.payload && after.result == before.result && after.error
        == before.error && after.finished_at == before.finished_at
}

/// What has ended stays as it ended: a job that succeeded, failed or was cancelled is not
/// claimed, ended again, put back or cancelled, whatever is asked for.
pub proof fn ended_jobs_stay_ended(
    db: DatabaseView,
    id: Seq<char>,
    worker: Seq<char>,
    progress: u64,
    result: Json,
    error: Seq<char>,
    retry_at: Option<Timestamp>,
    now: Timestamp,
    i: int,
)
    requires
        jobs_are_distinct(db.jobs),
        0 <= i < db.jobs.len(),
        !is_active(db.jobs[i]),
    ensures
        claim_spec(db, worker, now) matches Ok(done) ==> ended_alike(
            db.jobs[i],
            done.0.jobs[i],
        ),
        change_running_spec(db, id, succeeded(result, now)) matches Ok(done) ==> ended_alike(
            db.jobs[i],
            done.0.jobs[i],
        ),
        progress_spec(db, id, progress, now) matches Ok(done) ==> ended_alike(
            db.jobs[i],
            done.0.jobs[i],
        ),
        fail_spec(db, id, error, retry_at, now) matches Ok(done) ==> ended_alike(
            db.jobs[i],
            done.0.jobs[i],
        ),
        cancel_spec(db, id, now) matches Ok(done) ==> ended_alike(db.jobs[i], done.0.jobs[i]),
{
    least_of_some(db.jobs, claimable(now), due_first());
    first_is_first(db.jobs, job_with_id(id));
    if fail_spec(db, id, error, retry_at, now) is Ok {
        let k = first(db.jobs, job_with_id(id))->0;
        assert(db.jobs[k].id == id);
        assert(db.jobs[i].id != id);
    }
}

/// Committing the password of a reinstall a second time gives the same password.
pub proof fn a_password_commit_can_be_repeated(db: DatabaseView, job_id: Seq<char>, now: Timestamp)
    ensures
        commit_password_spec(db, job_id, now) matches Ok(done) ==> commit_password_spec(
            done.0,
            job_id,
            now,
        ) == Ok::<(DatabaseView, ()), AppErrorView>((done.0, ())),
{
    let once = commit_password_spec(db, job_id, now);
    if once is Ok && find(db.jobs, job_with_id(job_id))->0.vm_id is Some {
        let m = find(db.jobs, job_with_id(job_id))->0;
        let p = vm_with_id(m.vm_id->0);
        let envelope = m.payload.text_member(password_field());
        let f = with_password(envelope, now);
        let after = revised(db.vms, p, f);
        first_survives(db.vms, p, f, p);
        assert(revised(after, p, f) =~= after);
    }
}

} // verus!

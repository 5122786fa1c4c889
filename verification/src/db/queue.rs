//! What the queue of jobs is for: what is entered is claimed in the order in which it is due,
//! and ends as its worker says. Stated over the fields of the rows.

use vstd::prelude::*;

use crate::db::rows::{
    IpAddressRecordView, IpStatus, JobStatus, JobView, NewJobView, SnapshotState, SnapshotView,
    Timestamp, VmRowView, VmState, VmView,
};
use crate::db::store::{vm_with_id, DatabaseView};
use crate::db::job_recovery::{
    exhausted, exhausted_installation, exhausted_snapshot, failed_count, finalizer, recovered,
    requeued_count, requeued_finalizer, resumed_jobs,
};
use crate::db::jobs::{
    active_job, cancel_spec, change_running_spec, claim_spec, claimable, commit_password_spec,
    due_first, enqueue_delete_spec, enqueue_reinstall_spec, enqueue_spec, fail_spec, failed,
    job_entered_first, job_with_id, job_with_key, jobs_are_distinct, progress_spec, provisional_vm,
    replay, running_job, succeeded, with_progress,
};
use crate::json::{Extract, Json};
use crate::table::{
    any, first, first_is_first, least, least_comes_first, orders, others_has, revised,
};
use crate::text::trim_spec;

verus! {

broadcast use vstd::string::group_string_axioms;

/// A job waits, is due, and has an attempt left.
pub open spec fn waits(m: JobView, now: Timestamp) -> bool {
    m.status == JobStatus::Queued && m.run_after <= now && m.attempts < m.max_attempts
}

/// The job at a position waits, and of those that wait none is due earlier, nor at the same
/// time and was entered earlier.
pub open spec fn is_due_first(jobs: Seq<JobView>, i: int, now: Timestamp) -> bool {
    &&& 0 <= i < jobs.len()
    &&& waits(jobs[i], now)
    &&& forall|j: int|
        0 <= j < jobs.len() && waits(#[trigger] jobs[j], now) ==> jobs[i].run_after
            <= jobs[j].run_after && (jobs[i].run_after == jobs[j].run_after ==> jobs[i].created_at
            <= jobs[j].created_at)
}

/// The job that is claimed waited, and none that waits was due earlier, nor at the same time
/// and entered earlier. It runs for the worker with one attempt more; nothing else changes.
/// Where no job waits, none is given; where one waits, one is.
pub proof fn the_job_that_is_due_first_is_claimed(
    db: DatabaseView,
    worker: Seq<char>,
    now: Timestamp,
)
    ensures
        trim_spec(worker).len() == 0 ==> claim_spec(db, worker, now) is Err,
        trim_spec(worker).len() > 0 ==> claim_spec(db, worker, now) is Ok,
        claim_spec(db, worker, now) matches Ok(done) ==> match done.1 {
            None => done.0 == db && forall|j: int|
                0 <= j < db.jobs.len() ==> !waits(#[trigger] db.jobs[j], now),
            Some(job) => exists|i: int| #[trigger]
                is_due_first(db.jobs, i, now) && job == (JobView {
                    status: JobStatus::Running,
                    attempts: (db.jobs[i].attempts + 1) as u32,
                    locked_by: Some(worker),
                    locked_at: Some(now),
                    updated_at: now,
                    ..db.jobs[i]
                }) && done.0 == (DatabaseView { jobs: db.jobs.update(i, job), ..db }),
        },
{
    let p = claimable(now);
    let before = due_first();
    assert(orders(before)) by {
        assert forall|a: JobView, b: JobView| #[trigger] before(a, b) || before(b, a) by {}
    }
    least_comes_first(db.jobs, p, before);
    match least(db.jobs, p, before) {
        None => {
            assert forall|j: int| 0 <= j < db.jobs.len() implies !waits(
                #[trigger] db.jobs[j],
                now,
            ) by {
                assert(!p(db.jobs[j]));
            }
        },
        Some(i) => {
            assert(is_due_first(db.jobs, i, now)) by {
                assert forall|j: int|
                    0 <= j < db.jobs.len() && waits(#[trigger] db.jobs[j], now) implies db.jobs[i].run_after
                    <= db.jobs[j].run_after && (db.jobs[i].run_after == db.jobs[j].run_after
                    ==> db.jobs[i].created_at <= db.jobs[j].created_at) by {
                    assert(p(db.jobs[j]));
                    assert(before(db.jobs[i], db.jobs[j]));
                }
            }
        },
    }
}

/// What a request makes: a job that waits, with no attempt used and at least one to use, due
/// at the time that was asked for or at once.
pub open spec fn is_made_from(
    m: JobView,
    request: NewJobView,
    id: Seq<char>,
    now: Timestamp,
) -> bool {
    &&& m.id == id && m.kind == request.kind && m.vm_id == request.vm_id
    &&& m.status == JobStatus::Queued && m.attempts == 0 && m.max_attempts >= 1
    &&& request.max_attempts >= 1 ==> m.max_attempts == request.max_attempts
    &&& m.run_after == match request.run_after {
        Some(t) => t,
        None => now,
    }
    &&& m.created_at == now && m.updated_at == now && m.finished_at is None
    &&& m.locked_by is None && m.locked_at is None && m.result is None && m.error is None
    &&& m.actor_type == request.actor_type && m.actor_id == request.actor_id
    &&& m.progress_percent == 0
}

/// A job with an identifier is there.
pub open spec fn is_job(db: DatabaseView, id: Seq<char>) -> bool {
    exists|i: int| 0 <= i < db.jobs.len() && (#[trigger] db.jobs[i]).id == id
}

/// A machine with an identifier is there.
pub open spec fn is_machine_of(db: DatabaseView, id: Seq<char>) -> bool {
    exists|i: int| 0 <= i < db.vms.len() && (#[trigger] db.vms[i]).vm.id == id
}

/// Some job has a key.
pub open spec fn is_key(db: DatabaseView, key: Option<Seq<char>>) -> bool {
    key is Some && exists|i: int|
        0 <= i < db.jobs.len() && (#[trigger] db.jobs[i]).idempotency_key == key
}

/// Where nothing stands under the key of a request yet, a job is made of it and appended to
/// the queue, and nothing else changes. A request whose key is taken makes no job: it gives
/// a job with that key, of the same kind, machine and payload, or a conflict.
pub proof fn a_request_makes_a_job(
    db: DatabaseView,
    request: NewJobView,
    id: Seq<char>,
    now: Timestamp,
)
    ensures
        trim_spec(request.kind).len() == 0 ==> enqueue_spec(db, request, id, now) is Err,
        trim_spec(request.kind).len() > 0 && !is_key(db, request.idempotency_key) ==> (is_job(
            db,
            id,
        ) || (request.vm_id is Some && !is_machine_of(db, request.vm_id->0)) ==> enqueue_spec(
            db,
            request,
            id,
            now,
        ) is Err),
        trim_spec(request.kind).len() > 0 && !is_key(db, request.idempotency_key) && !is_job(db, id)
            && (request.vm_id is None || is_machine_of(db, request.vm_id->0)) ==> (enqueue_spec(
            db,
            request,
            id,
            now,
        ) matches Ok(done) && done.0 == (DatabaseView { jobs: db.jobs.push(done.1), ..db })
            && is_made_from(done.1, request, id, now) && done.1.payload == request.payload
            && done.1.idempotency_key == request.idempotency_key),
        is_key(db, request.idempotency_key) && trim_spec(request.kind).len() > 0 ==> match enqueue_spec(
            db,
            request,
            id,
            now,
        ) {
            Ok(done) => done.0 == db && db.jobs.contains(done.1) && done.1.idempotency_key
                == request.idempotency_key && done.1.kind == request.kind && done.1.vm_id
                == request.vm_id && done.1.payload == request.payload,
            Err(e) => e is Conflict && exists|i: int|
                0 <= i < db.jobs.len() && (#[trigger] db.jobs[i]).idempotency_key
                    == request.idempotency_key && (db.jobs[i].kind != request.kind
                    || db.jobs[i].vm_id != request.vm_id || db.jobs[i].payload
                    != request.payload),
        },
{
    let p = job_with_id(id);
    first_is_first(db.jobs, p);
    if request.vm_id is Some {
        first_is_first(db.vms, vm_with_id(request.vm_id->0));
        if any(db.vms, vm_with_id(request.vm_id->0)) {
            let k = first(db.vms, vm_with_id(request.vm_id->0))->0;
            assert(db.vms[k].vm.id == request.vm_id->0);
        }
    }
    if any(db.jobs, p) {
        assert(db.jobs[first(db.jobs, p)->0].id == id);
    }
    if request.idempotency_key is Some {
        let q = job_with_key(request.idempotency_key->0);
        first_is_first(db.jobs, q);
        if any(db.jobs, q) {
            let k = first(db.jobs, q)->0;
            assert(db.jobs[k].idempotency_key == request.idempotency_key);
            assert(db.jobs.contains(db.jobs[k]));
        } else if is_key(db, request.idempotency_key) {
            let k = choose|k: int|
                0 <= k < db.jobs.len() && (#[trigger] db.jobs[k]).idempotency_key
                    == request.idempotency_key;
            assert(!q(db.jobs[k]));
        }
    }
}

/// An active job of a kind for a machine is there.
pub open spec fn is_under_way(db: DatabaseView, kind: Seq<char>, vm_id: Seq<char>) -> bool {
    exists|i: int|
        0 <= i < db.jobs.len() && (#[trigger] db.jobs[i]).kind == kind && db.jobs[i].vm_id == Some(
            vm_id,
        ) && (db.jobs[i].status == JobStatus::Queued || db.jobs[i].status == JobStatus::Running)
}

/// A removal that is under way is given instead of a second one: the one that was entered
/// first. Where none is under way and the key is free, one is queued.
pub proof fn a_removal_is_queued_once(
    db: DatabaseView,
    request: NewJobView,
    id: Seq<char>,
    now: Timestamp,
)
    requires
        request.vm_id is Some,
        request.kind == "vm.delete"@,
        !is_key(db, request.idempotency_key),
    ensures
        is_under_way(db, request.kind, request.vm_id->0) ==> (enqueue_delete_spec(
            db,
            request,
            id,
            now,
        ) matches Ok(done) && done.0 == db && db.jobs.contains(done.1) && done.1.kind
            == request.kind && done.1.vm_id == request.vm_id && (done.1.status == JobStatus::Queued
            || done.1.status == JobStatus::Running) && forall|j: int|
            0 <= j < db.jobs.len() && (#[trigger] db.jobs[j]).kind == request.kind
                && db.jobs[j].vm_id == request.vm_id && (db.jobs[j].status == JobStatus::Queued
                || db.jobs[j].status == JobStatus::Running) ==> done.1.created_at
                <= db.jobs[j].created_at),
        !is_under_way(db, request.kind, request.vm_id->0) && !is_job(db, id) && is_machine_of(
            db,
            request.vm_id->0,
        ) ==> (enqueue_delete_spec(db, request, id, now) matches Ok(done) && done.0 == (
        DatabaseView { jobs: db.jobs.push(done.1), ..db }) && is_made_from(
            done.1,
            request,
            id,
            now,
        ) && done.1.payload == request.payload && done.1.idempotency_key
            == request.idempotency_key),
{
    no_replay(db, request, false);
    presence(db, request, id);
    let p = active_job(request.kind, request.vm_id->0);
    assert(orders(job_entered_first()));
    least_comes_first(db.jobs, p, job_entered_first());
    match least(db.jobs, p, job_entered_first()) {
        None => {
            assert forall|i: int| 0 <= i < db.jobs.len() implies !p(#[trigger] db.jobs[i]) by {}
            if is_under_way(db, request.kind, request.vm_id->0) {
                let i = choose|i: int|
                    0 <= i < db.jobs.len() && (#[trigger] db.jobs[i]).kind == request.kind
                        && db.jobs[i].vm_id == Some(request.vm_id->0) && (db.jobs[i].status
                        == JobStatus::Queued || db.jobs[i].status == JobStatus::Running);
                assert(p(db.jobs[i]));
            }
        },
        Some(i) => {
            assert(db.jobs[i].kind == request.kind);
            assert forall|j: int|
                0 <= j < db.jobs.len() && (#[trigger] db.jobs[j]).kind == request.kind
                    && db.jobs[j].vm_id == request.vm_id && (db.jobs[j].status == JobStatus::Queued
                    || db.jobs[j].status == JobStatus::Running) implies db.jobs[i].created_at
                <= db.jobs[j].created_at by {
                assert(p(db.jobs[j]));
                assert(job_entered_first()(db.jobs[i], db.jobs[j]));
            }
        },
    }
}

proof fn no_replay(db: DatabaseView, request: NewJobView, private: bool)
    requires
        !is_key(db, request.idempotency_key),
    ensures
        replay(db, request, private) is None,
{
    if request.idempotency_key is Some {
        let q = job_with_key(request.idempotency_key->0);
        first_is_first(db.jobs, q);
        if any(db.jobs, q) {
            let k = first(db.jobs, q)->0;
            assert(db.jobs[k].idempotency_key == request.idempotency_key);
        }
    }
}

proof fn presence(db: DatabaseView, request: NewJobView, id: Seq<char>)
    requires
        request.vm_id is Some,
    ensures
        any(db.jobs, job_with_id(id)) == is_job(db, id),
        any(db.vms, vm_with_id(request.vm_id->0)) == is_machine_of(db, request.vm_id->0),
{
    let p = job_with_id(id);
    first_is_first(db.jobs, p);
    if any(db.jobs, p) {
        assert(db.jobs[first(db.jobs, p)->0].id == id);
    } else if is_job(db, id) {
        let k = choose|k: int| 0 <= k < db.jobs.len() && (#[trigger] db.jobs[k]).id == id;
        assert(!p(db.jobs[k]));
    }
    let q = vm_with_id(request.vm_id->0);
    first_is_first(db.vms, q);
    if any(db.vms, q) {
        assert(db.vms[first(db.vms, q)->0].vm.id == request.vm_id->0);
    } else if is_machine_of(db, request.vm_id->0) {
        let k = choose|k: int|
            0 <= k < db.vms.len() && (#[trigger] db.vms[k]).vm.id == request.vm_id->0;
        assert(!q(db.vms[k]));
    }
}

/// A reinstall is refused while another is under way for the machine. Else it is queued with
/// the sealed password in its payload, and exactly its machine is marked as being installed
/// anew.
pub proof fn a_reinstall_is_queued_once(
    db: DatabaseView,
    request: NewJobView,
    envelope: Option<Seq<char>>,
    desired_state: VmState,
    id: Seq<char>,
    now: Timestamp,
)
    requires
        request.vm_id is Some,
        request.kind == "vm.reinstall"@,
        request.payload is Object,
        request.payload.member("_staged_password_envelope"@) is None,
        request.payload.truth_member("clear_password_after_success"@) is None,
        envelope is Some ==> trim_spec(envelope->0).len() > 0,
        !is_key(db, request.idempotency_key),
    ensures
        is_under_way(db, request.kind, request.vm_id->0) ==> (enqueue_reinstall_spec(
            db,
            request,
            envelope,
            desired_state,
            id,
            now,
        ) matches Err(e) && e is Conflict),
        !is_under_way(db, request.kind, request.vm_id->0) && !is_machine_of(db, request.vm_id->0)
            ==> (enqueue_reinstall_spec(
            db,
            request,
            envelope,
            desired_state,
            id,
            now,
        ) matches Err(e) && e is NotFound),
        !is_under_way(db, request.kind, request.vm_id->0) && is_machine_of(db, request.vm_id->0)
            && !is_job(db, id) ==> (enqueue_reinstall_spec(
            db,
            request,
            envelope,
            desired_state,
            id,
            now,
        ) matches Ok(done) && is_made_from(done.1, request, id, now) && done.0.jobs == db.jobs.push(
            done.1,
        ) && done.1.payload.text_member("_staged_password_envelope"@) == envelope
            && done.0.vms.len() == db.vms.len() && (forall|i: int|
            0 <= i < db.vms.len() ==> #[trigger] done.0.vms[i] == (if db.vms[i].vm.id
                == request.vm_id->0 {
                VmRowView {
                    vm: VmView {
                        state: VmState::Reinstalling,
                        desired_state,
                        updated_at: now,
                        ..db.vms[i].vm
                    },
                    ..db.vms[i]
                }
            } else {
                db.vms[i]
            }))),
{
    no_replay(db, request, true);
    presence(db, request, id);
    let p = active_job(request.kind, request.vm_id->0);
    first_is_first(db.jobs, p);
    if any(db.jobs, p) {
        let k = first(db.jobs, p)->0;
        assert(db.jobs[k].kind == request.kind);
    } else if is_under_way(db, request.kind, request.vm_id->0) {
        let i = choose|i: int|
            0 <= i < db.jobs.len() && (#[trigger] db.jobs[i]).kind == request.kind
                && db.jobs[i].vm_id == Some(request.vm_id->0) && (db.jobs[i].status
                == JobStatus::Queued || db.jobs[i].status == JobStatus::Running);
        assert(!p(db.jobs[i]));
    }
}

/// A job that does not run cannot be reported on. A running job that its worker finishes has
/// succeeded, with the result, at that time; its payload holds no sealed password any more.
/// Progress changes nothing but the progress. No other job changes.
pub proof fn a_running_job_is_finished(
    db: DatabaseView,
    id: Seq<char>,
    i: int,
    result: Json,
    progress: u64,
    now: Timestamp,
)
    requires
        jobs_are_distinct(db.jobs),
        0 <= i < db.jobs.len(),
        db.jobs[i].id == id,
    ensures
        db.jobs[i].status != JobStatus::Running ==> change_running_spec(
            db,
            id,
            succeeded(result, now),
        ) is Err && progress_spec(db, id, progress, now) is Err,
        db.jobs[i].status == JobStatus::Running ==> (change_running_spec(
            db,
            id,
            succeeded(result, now),
        ) matches Ok(done) && done.0 == (DatabaseView {
            jobs: db.jobs.update(
                i,
                JobView {
                    status: JobStatus::Succeeded,
                    result: Some(result),
                    error: None,
                    progress_percent: 0x4059_0000_0000_0000,
                    locked_by: None,
                    locked_at: None,
                    updated_at: now,
                    finished_at: Some(now),
                    payload: db.jobs[i].payload.without_member("_staged_password_envelope"@),
                    ..db.jobs[i]
                },
            ),
            ..db
        })),
        db.jobs[i].status == JobStatus::Running && progress <= 0x4059_0000_0000_0000 ==> (
        progress_spec(db, id, progress, now) matches Ok(done) && done.0 == (DatabaseView {
            jobs: db.jobs.update(
                i,
                JobView { progress_percent: progress, updated_at: now, ..db.jobs[i] },
            ),
            ..db
        })),
        0x4059_0000_0000_0000 < progress < 0x8000_0000_0000_0000 || progress
            > 0x8000_0000_0000_0000 ==> progress_spec(db, id, progress, now) is Err,
{
    let p = running_job(id);
    first_is_first(db.jobs, p);
    if any(db.jobs, p) {
        let k = first(db.jobs, p)->0;
        assert(db.jobs[k].id == id);
        assert(k == i);
    } else {
        assert(!p(db.jobs[i]));
    }
    let done = revised(db.jobs, p, succeeded(result, now));
    let moved = revised(db.jobs, p, with_progress(progress, now));
    if db.jobs[i].status == JobStatus::Running {
        assert(done =~= db.jobs.update(i, done[i]));
        assert(moved =~= db.jobs.update(i, moved[i]));
    }
}

/// A running job that its worker gives up waits again, until the time that was given, where
/// a time was given and an attempt is left; else it has failed for good. Either way it
/// keeps the error, and no other job changes.
pub proof fn a_failing_job_is_tried_again(
    db: DatabaseView,
    id: Seq<char>,
    i: int,
    error: Seq<char>,
    retry_at: Option<Timestamp>,
    now: Timestamp,
)
    requires
        jobs_are_distinct(db.jobs),
        0 <= i < db.jobs.len(),
        db.jobs[i].id == id,
    ensures
        db.jobs[i].status != JobStatus::Running ==> (fail_spec(
            db,
            id,
            error,
            retry_at,
            now,
        ) matches Err(e) && e is Conflict),
        db.jobs[i].status == JobStatus::Running && retry_at is Some && db.jobs[i].attempts
            < db.jobs[i].max_attempts ==> (fail_spec(
            db,
            id,
            error,
            retry_at,
            now,
        ) matches Ok(done) && done.1 == (JobView {
            status: JobStatus::Queued,
            run_after: retry_at->0,
            error: Some(error),
            locked_by: None,
            locked_at: None,
            updated_at: now,
            finished_at: None,
            ..db.jobs[i]
        }) && done.0 == (DatabaseView { jobs: db.jobs.update(i, done.1), ..db })),
        db.jobs[i].status == JobStatus::Running && (retry_at is None || db.jobs[i].attempts
            >= db.jobs[i].max_attempts) ==> (fail_spec(
            db,
            id,
            error,
            retry_at,
            now,
        ) matches Ok(done) && done.1 == (JobView {
            status: JobStatus::Failed,
            run_after: if retry_at is Some {
                retry_at->0
            } else {
                db.jobs[i].run_after
            },
            error: Some(error),
            locked_by: None,
            locked_at: None,
            updated_at: now,
            finished_at: Some(now),
            payload: db.jobs[i].payload.without_member("_staged_password_envelope"@),
            ..db.jobs[i]
        }) && done.0 == (DatabaseView {
            jobs: db.jobs.update(i, done.1),
            guest_tools: done.0.guest_tools,
            ..db
        })),
{
    first_is_first(db.jobs, job_with_id(id));
    assert(job_with_id(id)(db.jobs[i]));
    let k = first(db.jobs, job_with_id(id))->0;
    assert(db.jobs[k].id == id && k == i);
    let retry = retry_at is Some && db.jobs[i].attempts < db.jobs[i].max_attempts;
    let f = failed(error, retry_at, retry, now);
    let after = revised(db.jobs, job_with_id(id), f);
    assert(after =~= db.jobs.update(i, after[i]));
}

/// Only a job that waits can be cancelled; it is cancelled then, at that time and without a
/// sealed password. A job that is not there cannot be ended at all.
pub proof fn a_waiting_job_is_cancelled(db: DatabaseView, id: Seq<char>, i: int, now: Timestamp)
    requires
        jobs_are_distinct(db.jobs),
        0 <= i < db.jobs.len(),
        db.jobs[i].id == id,
    ensures
        db.jobs[i].status != JobStatus::Queued ==> (cancel_spec(db, id, now) matches Err(e) && e
            is Conflict),
        db.jobs[i].status == JobStatus::Queued ==> (cancel_spec(db, id, now) matches Ok(done)
            && done.0.jobs.len() == db.jobs.len() && done.0.jobs[i] == (JobView {
            status: JobStatus::Cancelled,
            locked_by: None,
            locked_at: None,
            updated_at: now,
            finished_at: Some(now),
            payload: db.jobs[i].payload.without_member("_staged_password_envelope"@),
            vm_id: done.0.jobs[i].vm_id,
            ..db.jobs[i]
        }) && (forall|j: int|
            0 <= j < db.jobs.len() && j != i ==> (#[trigger] done.0.jobs[j]) == (JobView {
                vm_id: done.0.jobs[j].vm_id,
                ..db.jobs[j]
            })) && (forall|j: int|
            0 <= j < db.jobs.len() && db.jobs[i].kind != "vm.create"@ ==> (
            #[trigger] done.0.jobs[j]).vm_id == db.jobs[j].vm_id)),
{
    first_is_first(db.jobs, job_with_id(id));
    assert(job_with_id(id)(db.jobs[i]));
    let k = first(db.jobs, job_with_id(id))->0;
    assert(db.jobs[k].id == id && k == i);
}

/// Cancelling a creation that has not begun takes the machine away that was to be created,
/// where the hypervisor does not know it, and frees its addresses; cancelling a reinstall
/// leaves its machine in an unknown state; cancelling a snapshot fails it.
pub proof fn cancelling_puts_right_what_was_prepared(
    db: DatabaseView,
    id: Seq<char>,
    i: int,
    now: Timestamp,
    k: int,
)
    requires
        jobs_are_distinct(db.jobs),
        0 <= i < db.jobs.len(),
        db.jobs[i].id == id,
        db.jobs[i].status == JobStatus::Queued,
    ensures
        db.jobs[i].kind == "vm.create"@ && db.jobs[i].vm_id is Some ==> (cancel_spec(
            db,
            id,
            now,
        ) matches Ok(done) && (forall|m: VmRowView| #[trigger]
            done.0.vms.contains(m) <==> db.vms.contains(m) && !(m.vm.id == db.jobs[i].vm_id->0
                && m.vm.state == VmState::Creating && m.vm.libvirt_uuid is None))
            && done.0.ip_addresses.len() == db.ip_addresses.len() && (0 <= k < db.ip_addresses.len()
            ==> done.0.ip_addresses[k] == (if db.ip_addresses[k].assigned_vm_id == db.jobs[i].vm_id {
            IpAddressRecordView {
                status: IpStatus::Free,
                assigned_vm_id: None,
                primary_for_vm: false,
                updated_at: now,
                ..db.ip_addresses[k]
            }
        } else {
            db.ip_addresses[k]
        }))),
        db.jobs[i].kind == "vm.reinstall"@ && db.jobs[i].vm_id is Some ==> (cancel_spec(
            db,
            id,
            now,
        ) matches Ok(done) && done.0 == (DatabaseView {
            jobs: done.0.jobs,
            vms: done.0.vms,
            guest_tools: done.0.guest_tools,
            ..db
        }) && done.0.vms.len() == db.vms.len() && (0 <= k < db.vms.len() ==> done.0.vms[k] == (
        if db.vms[k].vm.id == db.jobs[i].vm_id->0 && db.vms[k].vm.state == VmState::Reinstalling {
            VmRowView {
                vm: VmView { state: VmState::Unknown, updated_at: now, ..db.vms[k].vm },
                ..db.vms[k]
            }
        } else {
            db.vms[k]
        }))),
        db.jobs[i].kind == "vm.snapshot.create"@ && db.jobs[i].payload.text_member("snapshot_id"@)
            is Some ==> (cancel_spec(db, id, now) matches Ok(done) && done.0 == (DatabaseView {
            jobs: done.0.jobs,
            snapshots: done.0.snapshots,
            ..db
        }) && done.0.snapshots.len() == db.snapshots.len() && (0 <= k < db.snapshots.len()
            ==> done.0.snapshots[k] == (if db.snapshots[k].id == db.jobs[i].payload.text_member(
            "snapshot_id"@,
        )->0 && db.snapshots[k].state == SnapshotState::Creating {
            SnapshotView {
                state: SnapshotState::Error,
                updated_at: now,
                completed_at: Some(now),
                metadata: db.snapshots[k].metadata.with_member(
                    "error"@,
                    Json::Text("job cancelled"@),
                ),
                ..db.snapshots[k]
            }
        } else {
            db.snapshots[k]
        }))),
        db.jobs[i].kind != "vm.create"@ && db.jobs[i].kind != "vm.reinstall"@ && db.jobs[i].kind
            != "vm.snapshot.create"@ ==> (cancel_spec(db, id, now) matches Ok(done) && done.0 == (
        DatabaseView { jobs: done.0.jobs, ..db })),
{
    reveal_strlit("vm.create");
    reveal_strlit("vm.reinstall");
    reveal_strlit("vm.snapshot.create");
    assert("vm.create"@.len() != "vm.reinstall"@.len());
    assert("vm.create"@.len() != "vm.snapshot.create"@.len());
    assert("vm.reinstall"@.len() != "vm.snapshot.create"@.len());
    first_is_first(db.jobs, job_with_id(id));
    assert(job_with_id(id)(db.jobs[i]));
    let at = first(db.jobs, job_with_id(id))->0;
    assert(db.jobs[at].id == id && at == i);
    if db.jobs[i].kind == "vm.create"@ && db.jobs[i].vm_id is Some {
        let vm_id = db.jobs[i].vm_id->0;
        let p = provisional_vm(vm_id);
        let done = cancel_spec(db, id, now)->Ok_0.0;
        first_is_first(db.vms, p);
        assert forall|m: VmRowView| #[trigger]
            done.vms.contains(m) <==> db.vms.contains(m) && !(m.vm.id == vm_id && m.vm.state
                == VmState::Creating && m.vm.libvirt_uuid is None) by {
            others_has(db.vms, p, m);
            if db.vms.contains(m) && p(m) {
                let j = choose|j: int| 0 <= j < db.vms.len() && db.vms[j] == m;
                assert(p(db.vms[j]));
            }
        }
    }
}

/// What a recovery does to a job that ran: with an attempt left it waits again and is due at
/// once, with all it had; without one it has failed. A removal whose machine is gone already
/// always gets another attempt.
pub proof fn interrupted_jobs_are_put_back(db: DatabaseView, now: Timestamp, i: int)
    requires
        0 <= i < db.jobs.len(),
    ensures
        ({
            let before = db.jobs[i];
            let after = recovered(db, now).jobs[i];
            let only_confirms = before.kind == "vm.delete"@ && before.vm_id is None
                && before.payload.text_member("target_vm_id"@) is Some && before.payload.text_member(
                "target_vm_name"@,
            ) is Some;
            &&& before.status != JobStatus::Running ==> after == before
            &&& before.status == JobStatus::Running && before.attempts < before.max_attempts
                ==> after == (JobView {
                status: JobStatus::Queued,
                locked_by: None,
                locked_at: None,
                run_after: now,
                updated_at: now,
                ..before
            })
            &&& before.status == JobStatus::Running && before.attempts >= before.max_attempts
                && !only_confirms ==> after == (JobView {
                status: JobStatus::Failed,
                error: Some("worker interrupted before completion"@),
                locked_by: None,
                locked_at: None,
                updated_at: now,
                finished_at: Some(now),
                payload: before.payload.without_member("_staged_password_envelope"@),
                ..before
            })
            &&& before.status == JobStatus::Running && before.attempts >= before.max_attempts
                && only_confirms && before.attempts < u32::MAX ==> after == (JobView {
                status: JobStatus::Queued,
                locked_by: None,
                locked_at: None,
                run_after: now,
                updated_at: now,
                max_attempts: (before.attempts + 1) as u32,
                ..before
            })
        }),
{
}

/// A job ran and goes on after a recovery: it has an attempt left, or only has to confirm
/// that the machine which it removed is gone.
pub open spec fn goes_on(m: JobView) -> bool {
    m.status == JobStatus::Running && (m.attempts < m.max_attempts || m.kind == "vm.delete"@
        && m.vm_id is None && m.payload.text_member("target_vm_id"@) is Some
        && m.payload.text_member("target_vm_name"@) is Some)
}

/// A recovery counts each job that ran once: among those that wait again where it goes on,
/// and among those that failed where it does not.
pub proof fn a_recovery_counts_what_it_put_back(jobs: Seq<JobView>, now: Timestamp)
    ensures
        requeued_count(jobs, now) == jobs.filter(|m: JobView| goes_on(m)).len(),
        failed_count(jobs, now) == jobs.filter(
            |m: JobView| m.status == JobStatus::Running && !goes_on(m),
        ).len(),
    decreases jobs.len(),
{
    reveal(Seq::filter);
    if jobs.len() > 0 {
        let front = jobs.drop_last();
        a_recovery_counts_what_it_put_back(front, now);
        let once = revised(jobs, finalizer(), requeued_finalizer(now));
        assert(once.drop_last() =~= revised(front, finalizer(), requeued_finalizer(now)));
        let twice = resumed_jobs(jobs, now);
        assert(twice.drop_last() =~= resumed_jobs(front, now));
    }
}

/// A job was lost: it ran, has no attempt left, and is no confirmation of a removal.
pub open spec fn is_lost(m: JobView) -> bool {
    m.status == JobStatus::Running && m.attempts >= m.max_attempts
}

/// A recovery marks exactly those machines as faulty whose creation or reinstall was lost,
/// and exactly those snapshots whose making was lost; nothing else of them changes.
pub proof fn what_lost_jobs_worked_on_is_marked(db: DatabaseView, now: Timestamp, k: int)
    ensures
        recovered(db, now) == (DatabaseView {
            jobs: recovered(db, now).jobs,
            vms: recovered(db, now).vms,
            snapshots: recovered(db, now).snapshots,
            guest_tools: recovered(db, now).guest_tools,
            ..db
        }),
        recovered(db, now).jobs.len() == db.jobs.len(),
        recovered(db, now).vms.len() == db.vms.len(),
        0 <= k < db.vms.len() ==> recovered(db, now).vms[k] == (if exists|i: int|
            0 <= i < db.jobs.len() && is_lost(#[trigger] db.jobs[i]) && (db.jobs[i].kind
                == "vm.create"@ || db.jobs[i].kind == "vm.reinstall"@) && db.jobs[i].vm_id == Some(
                db.vms[k].vm.id,
            ) {
            VmRowView {
                vm: VmView { state: VmState::Error, updated_at: now, ..db.vms[k].vm },
                ..db.vms[k]
            }
        } else {
            db.vms[k]
        }),
        recovered(db, now).snapshots.len() == db.snapshots.len(),
        0 <= k < db.snapshots.len() ==> ((exists|i: int|
            0 <= i < db.jobs.len() && is_lost(#[trigger] db.jobs[i]) && db.jobs[i].kind
                == "vm.snapshot.create"@ && db.jobs[i].payload.extract("snapshot_id"@)
                == Extract::Text(db.snapshots[k].id)) ==> recovered(db, now).snapshots[k] == (
        SnapshotView {
            state: SnapshotState::Error,
            updated_at: now,
            completed_at: Some(now),
            metadata: db.snapshots[k].metadata.with_member(
                "error"@,
                Json::Text("worker interrupted before completion"@),
            ),
            ..db.snapshots[k]
        })),
        0 <= k < db.snapshots.len() ==> (!(exists|i: int|
            0 <= i < db.jobs.len() && is_lost(#[trigger] db.jobs[i]) && db.jobs[i].kind
                == "vm.snapshot.create"@ && db.jobs[i].payload.extract("snapshot_id"@)
                == Extract::Text(db.snapshots[k].id)) ==> recovered(db, now).snapshots[k]
            == db.snapshots[k]),
{
    reveal_strlit("vm.create");
    reveal_strlit("vm.reinstall");
    reveal_strlit("vm.delete");
    reveal_strlit("vm.snapshot.create");
    assert("vm.delete"@[3] == 'd' && "vm.create"@[3] == 'c');
    assert("vm.delete"@.len() != "vm.reinstall"@.len());
    assert("vm.delete"@.len() != "vm.snapshot.create"@.len());
    let jobs = resumed_jobs(db.jobs, now);
    assert forall|i: int| 0 <= i < db.jobs.len() implies (is_lost(#[trigger] db.jobs[i])
        && db.jobs[i].kind != "vm.delete"@ <==> exhausted(jobs[i]) && jobs[i].kind
        != "vm.delete"@) && jobs[i].kind == db.jobs[i].kind && jobs[i].vm_id == db.jobs[i].vm_id
        && jobs[i].payload == db.jobs[i].payload by {}
    if 0 <= k < db.vms.len() {
        let p = exhausted_installation(db.vms[k].vm.id);
        first_is_first(jobs, p);
        if any(jobs, p) {
            let i = first(jobs, p)->0;
            assert(is_lost(db.jobs[i]));
        } else {
            assert forall|i: int| 0 <= i < db.jobs.len() implies !(is_lost(#[trigger] db.jobs[i])
                && (db.jobs[i].kind == "vm.create"@ || db.jobs[i].kind == "vm.reinstall"@)
                && db.jobs[i].vm_id == Some(db.vms[k].vm.id)) by {
                assert(!p(jobs[i]));
            }
        }
    }
    if 0 <= k < db.snapshots.len() {
        let p = exhausted_snapshot(db.snapshots[k].id);
        first_is_first(jobs, p);
        if any(jobs, p) {
            let i = first(jobs, p)->0;
            assert(is_lost(db.jobs[i]));
        } else {
            assert forall|i: int| 0 <= i < db.jobs.len() implies !(is_lost(#[trigger] db.jobs[i])
                && db.jobs[i].kind == "vm.snapshot.create"@ && db.jobs[i].payload.extract(
                "snapshot_id"@,
            ) == Extract::Text(db.snapshots[k].id)) by {
                assert(!p(jobs[i]));
            }
        }
    }
}

/// The password that a running reinstall carries becomes that of its machine, and of no
/// other; a reinstall that says so clears it; one that carries none leaves it. It changes
/// nothing else.
pub proof fn a_staged_password_becomes_the_machines(
    db: DatabaseView,
    id: Seq<char>,
    i: int,
    now: Timestamp,
    k: int,
)
    requires
        jobs_are_distinct(db.jobs),
        0 <= i < db.jobs.len(),
        db.jobs[i].id == id,
    ensures
        db.jobs[i].kind != "vm.reinstall"@ || db.jobs[i].status != JobStatus::Running
            || db.jobs[i].vm_id is None ==> commit_password_spec(db, id, now) is Err,
        commit_password_spec(db, id, now) matches Ok(done) ==> {
            let envelope = db.jobs[i].payload.text_member("_staged_password_envelope"@);
            let clear = db.jobs[i].payload.truth_member("clear_password_after_success"@) == Some(
                true,
            );
            &&& done.0 == (DatabaseView { vms: done.0.vms, ..db })
            &&& done.0.vms.len() == db.vms.len()
            &&& 0 <= k < db.vms.len() ==> done.0.vms[k] == (if db.vms[k].vm.id
                == db.jobs[i].vm_id->0 && (clear || envelope is Some) {
                VmRowView {
                    password_envelope: envelope,
                    password_updated_at: if envelope is Some {
                        Some(now)
                    } else {
                        None
                    },
                    vm: VmView { updated_at: now, ..db.vms[k].vm },
                }
            } else {
                db.vms[k]
            })
        },
        db.jobs[i].kind == "vm.reinstall"@ && db.jobs[i].status == JobStatus::Running
            && db.jobs[i].vm_id is Some && is_machine_of(db, db.jobs[i].vm_id->0) && (
        db.jobs[i].payload.text_member("_staged_password_envelope"@) matches Some(s) && trim_spec(
            s,
        ).len() > 0) && db.jobs[i].payload.truth_member("clear_password_after_success"@) != Some(
            true,
        ) ==> commit_password_spec(db, id, now) is Ok,
{
    first_is_first(db.jobs, job_with_id(id));
    assert(job_with_id(id)(db.jobs[i]));
    let at = first(db.jobs, job_with_id(id))->0;
    assert(db.jobs[at].id == id && at == i);
    if db.jobs[i].vm_id is Some {
        let q = vm_with_id(db.jobs[i].vm_id->0);
        first_is_first(db.vms, q);
        if is_machine_of(db, db.jobs[i].vm_id->0) {
            let j = choose|j: int|
                0 <= j < db.vms.len() && (#[trigger] db.vms[j]).vm.id == db.jobs[i].vm_id->0;
            assert(q(db.vms[j]));
        }
    }
}

} // verus!

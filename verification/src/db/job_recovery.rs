//! What becomes of jobs whose worker was lost, and of what they worked on.

use vstd::prelude::*;

use crate::db::rows::{
    GuestToolsRow, GuestToolsRowView, GuestToolsStatus, Job, JobStatus, JobView, Snapshot,
    SnapshotState, SnapshotView, Timestamp, VmRow, VmRowView, VmState,
};
use crate::db::store::{Database, DatabaseView};
use crate::db::guest_tools::{
    armed, cleanup_keeps_armed_keys, cleanup_spec, generation_field,
    keeping_armed_keys_carries_over, keeps_armed_keys, nothing_done_keeps_armed_keys,
    revision_keeps_armed_keys, unstage, unstaged,
};
use crate::db::jobs::{
    failed, in_state, is_active, password_field, payload_without_staged_password, public_payload,
    snapshot_failed, within_budget,
};
use crate::error::AppResult;
use crate::json::{Document, Extract};
use crate::table::{any, count, models, occurs, revise, revised};
use crate::text::{option_is, same};

verus! {

broadcast use vstd::string::group_string_axioms;

/// A running job without an attempt left.
pub open spec fn exhausted(m: JobView) -> bool {
    m.status == JobStatus::Running && m.attempts >= m.max_attempts
}

/// A job that is exhausted.
pub open spec fn exhausted_job() -> spec_fn(JobView) -> bool {
    |m: JobView| exhausted(m)
}

/// An exhausted job of a kind for a machine.
pub open spec fn exhausted_for(kind: Seq<char>, vm_id: Seq<char>) -> spec_fn(JobView) -> bool {
    |m: JobView| exhausted(m) && m.kind == kind && m.vm_id == Some(vm_id)
}

/// An exhausted creation or reinstall of a machine.
pub open spec fn exhausted_installation(vm_id: Seq<char>) -> spec_fn(JobView) -> bool {
    |m: JobView|
        exhausted(m) && (m.kind == "vm.create"@ || m.kind == "vm.reinstall"@) && m.vm_id == Some(
            vm_id,
        )
}

/// An exhausted job that was to make a snapshot.
pub open spec fn exhausted_snapshot(id: Seq<char>) -> spec_fn(JobView) -> bool {
    |m: JobView|
        exhausted(m) && m.kind == "vm.snapshot.create"@ && m.payload.extract("snapshot_id"@)
            == Extract::Text(id)
}

/// A reinstall of a machine that staged the key of a generation.
pub open spec fn reinstalls_with(m: JobView, vm_id: Seq<char>, generation: Seq<char>) -> bool {
    m.kind == "vm.reinstall"@ && m.vm_id == Some(vm_id) && m.payload.extract(generation_field())
        == Extract::Text(generation)
}

/// An active reinstall with the key of a generation.
pub open spec fn active_rotation(vm_id: Seq<char>, generation: Seq<char>) -> spec_fn(
    JobView,
) -> bool {
    |m: JobView| is_active(m) && reinstalls_with(m, vm_id, generation)
}

/// An exhausted reinstall with the key of a generation.
pub open spec fn exhausted_rotation(vm_id: Seq<char>, generation: Seq<char>) -> spec_fn(
    JobView,
) -> bool {
    |m: JobView| exhausted(m) && reinstalls_with(m, vm_id, generation)
}

/// The tools answered after a worker took a job.
pub open spec fn answered(tools: GuestToolsRowView, m: JobView) -> bool {
    tools.status == GuestToolsStatus::Ready && tools.last_seen_at is Some && m.locked_at is Some
        && tools.last_seen_at->0 >= m.locked_at->0
}

/// An exhausted start of some tools that had not come to its end: of the armed key, or of
/// the active one while the tools had not answered.
pub open spec fn exhausted_start(tools: GuestToolsRowView) -> spec_fn(JobView) -> bool {
    |m: JobView|
        exhausted(m) && m.kind == "vm.guest_tools.bootstrap"@ && m.vm_id == Some(tools.vm_id) && (
        if armed(tools) {
            m.payload.extract("expected_generation"@) == Extract::Text(
                tools.pending->0.generation,
            )
        } else {
            m.payload.extract("expected_generation"@) == Extract::Absent && !answered(tools, m)
        })
}

/// A running removal whose machine is gone already: only the check that nothing is left
/// of it remains.
pub open spec fn finalizer() -> spec_fn(JobView) -> bool {
    |m: JobView|
        m.status == JobStatus::Running && m.kind == "vm.delete"@ && m.vm_id is None
            && m.payload.text_member("target_vm_id"@) is Some && m.payload.text_member(
            "target_vm_name"@,
        ) is Some
}

/// A job that is queued once more.
pub open spec fn requeued(now: Timestamp) -> spec_fn(JobView) -> JobView {
    |m: JobView|
        JobView {
            status: JobStatus::Queued,
            locked_by: None,
            locked_at: None,
            run_after: now,
            updated_at: now,
            ..m
        }
}

/// The number of attempts that leaves at least one more, as far as one can be counted.
pub open spec fn with_one_more(attempts: u32, max_attempts: u32) -> u32 {
    if max_attempts > attempts || attempts == u32::MAX {
        max_attempts
    } else {
        (attempts + 1) as u32
    }
}

/// A job that is queued once more, with at least one attempt.
pub open spec fn requeued_finalizer(now: Timestamp) -> spec_fn(JobView) -> JobView {
    |m: JobView|
        JobView {
            max_attempts: with_one_more(m.attempts, m.max_attempts),
            ..requeued(now)(m)
        }
}

/// A running job with an attempt left.
pub open spec fn resumable() -> spec_fn(JobView) -> bool {
    |m: JobView| m.status == JobStatus::Running && m.attempts < m.max_attempts
}

/// A job that ended with its worker.
pub open spec fn interrupted(now: Timestamp) -> spec_fn(JobView) -> JobView {
    |m: JobView|
        JobView {
            status: JobStatus::Failed,
            error: Some("worker interrupted before completion"@),
            locked_by: None,
            locked_at: None,
            updated_at: now,
            finished_at: Some(now),
            payload: public_payload(m.payload),
            ..m
        }
}

/// The tools after the exhausted reinstalls took back what they staged and never armed.
pub open spec fn cleaned(
    tools: Seq<GuestToolsRowView>,
    jobs: Seq<JobView>,
    now: Timestamp,
) -> Seq<GuestToolsRowView>
    decreases jobs.len(),
{
    if jobs.len() == 0 {
        tools
    } else {
        let before = cleaned(tools, jobs.drop_last(), now);
        if exhausted(jobs.last()) {
            cleanup_spec(before, jobs.last(), now)
        } else {
            before
        }
    }
}

/// Tools whose staged key is not armed and is waited for by no job.
pub open spec fn abandoned_rotation(jobs: Seq<JobView>) -> spec_fn(GuestToolsRowView) -> bool {
    |m: GuestToolsRowView|
        m.pending is Some && !m.pending->0.installed && !any(
            jobs,
            active_rotation(m.vm_id, m.pending->0.generation),
        )
}

/// Tools whose armed key an exhausted reinstall was to bring.
pub open spec fn lost_rotation(jobs: Seq<JobView>) -> spec_fn(GuestToolsRowView) -> bool {
    |m: GuestToolsRowView|
        armed(m) && any(jobs, exhausted_rotation(m.vm_id, m.pending->0.generation))
}

/// Tools of a machine whose creation was lost.
pub open spec fn lost_creation(jobs: Seq<JobView>) -> spec_fn(GuestToolsRowView) -> bool {
    |m: GuestToolsRowView| any(jobs, exhausted_for("vm.create"@, m.vm_id))
}

/// Tools whose start was lost.
pub open spec fn lost_start(jobs: Seq<JobView>) -> spec_fn(GuestToolsRowView) -> bool {
    |m: GuestToolsRowView| any(jobs, exhausted_start(m))
}

/// Tools with an error.
pub open spec fn tools_failed(error: Seq<char>, now: Timestamp) -> spec_fn(
    GuestToolsRowView,
) -> GuestToolsRowView {
    |m: GuestToolsRowView|
        GuestToolsRowView {
            status: GuestToolsStatus::Error,
            last_error: Some(error),
            updated_at: now,
            ..m
        }
}

/// A machine whose creation or reinstall was lost.
pub open spec fn lost_vm(jobs: Seq<JobView>) -> spec_fn(VmRowView) -> bool {
    |m: VmRowView| any(jobs, exhausted_installation(m.vm.id))
}

/// A snapshot whose making was lost.
pub open spec fn lost_snapshot(jobs: Seq<JobView>) -> spec_fn(SnapshotView) -> bool {
    |m: SnapshotView| any(jobs, exhausted_snapshot(m.id))
}

/// The jobs after those that can go on are queued again.
pub open spec fn resumed_jobs(jobs: Seq<JobView>, now: Timestamp) -> Seq<JobView> {
    revised(
        revised(jobs, finalizer(), requeued_finalizer(now)),
        resumable(),
        requeued(now),
    )
}

/// The tools after a recovery; `jobs` are the jobs after those that can go on are queued
/// again.
pub open spec fn recovered_tools(
    tools: Seq<GuestToolsRowView>,
    jobs: Seq<JobView>,
    now: Timestamp,
) -> Seq<GuestToolsRowView> {
    let unstaged_tools = revised(tools, abandoned_rotation(jobs), unstaged(now));
    let rotations = revised(
        unstaged_tools,
        lost_rotation(jobs),
        tools_failed("reinstall worker interrupted after Guest Tools media was armed"@, now),
    );
    let creations = revised(
        rotations,
        lost_creation(jobs),
        tools_failed("VM creation worker interrupted before Guest Tools bootstrap"@, now),
    );
    revised(
        creations,
        lost_start(jobs),
        tools_failed("Guest Tools bootstrap worker interrupted before completion"@, now),
    )
}

/// The tables after a recovery.
pub open spec fn recovered(db: DatabaseView, now: Timestamp) -> DatabaseView {
    let jobs = resumed_jobs(db.jobs, now);
    DatabaseView {
        jobs: revised(jobs, exhausted_job(), interrupted(now)),
        guest_tools: recovered_tools(cleaned(db.guest_tools, db.jobs, now), jobs, now),
        vms: revised(db.vms, lost_vm(jobs), in_state(VmState::Error, now)),
        snapshots: revised(
            db.snapshots,
            lost_snapshot(jobs),
            snapshot_failed("worker interrupted before completion"@, now),
        ),
        ..db
    }
}

/// How many jobs a recovery queues again.
pub open spec fn requeued_count(jobs: Seq<JobView>, now: Timestamp) -> nat {
    count(jobs, finalizer()) + count(
        revised(jobs, finalizer(), requeued_finalizer(now)),
        resumable(),
    )
}

/// How many jobs a recovery ends.
pub open spec fn failed_count(jobs: Seq<JobView>, now: Timestamp) -> nat {
    count(resumed_jobs(jobs, now), exhausted_job())
}

fn is_exhausted(row: &Job) -> (r: bool)
    ensures
        r == exhausted(row@),
{
    row.status == JobStatus::Running && row.attempts >= row.max_attempts
}

fn is_finalizer(row: &Job) -> (r: bool)
    ensures
        r == finalizer()(row@),
{
    row.status == JobStatus::Running && same(row.kind.as_str(), "vm.delete") && row.vm_id.is_none()
        && row.payload.text_member("target_vm_id").is_some() && row.payload.text_member(
        "target_vm_name",
    ).is_some()
}

fn requeue(row: &Job, now: Timestamp) -> (r: Job)
    ensures
        r@ == requeued(now)(row@),
{
    let mut y = row.clone();
    y.status = JobStatus::Queued;
    y.locked_by = None;
    y.locked_at = None;
    y.run_after = now;
    y.updated_at = now;
    y
}

fn more_attempts(attempts: u32, max_attempts: u32) -> (r: u32)
    ensures
        r == with_one_more(attempts, max_attempts),
{
    if max_attempts > attempts || attempts == u32::MAX {
        max_attempts
    } else {
        attempts + 1
    }
}

fn fail_tools(row: &GuestToolsRow, error: &str, now: Timestamp) -> (r: GuestToolsRow)
    ensures
        r@ == tools_failed(error@, now)(row@),
{
    let mut y = row.clone();
    y.status = GuestToolsStatus::Error;
    y.last_error = Some(error.to_owned());
    y.updated_at = now;
    y
}

fn is_reinstall_with(row: &Job, vm_id: &str, generation: &str) -> (r: bool)
    ensures
        r == reinstalls_with(row@, vm_id@, generation@),
{
    same(row.kind.as_str(), "vm.reinstall") && option_is(&row.vm_id, vm_id)
        && row.payload.extract_is("_guest_tools_rotation_generation", generation)
}

fn is_abandoned(jobs: &Vec<Job>, tools: &GuestToolsRow) -> (r: bool)
    ensures
        r == abandoned_rotation(models(jobs@))(tools@),
{
    match &tools.pending {
        None => false,
        Some(pending) => {
            if pending.installed {
                return false;
            }
            let vm_id = tools.vm_id.as_str();
            let generation = pending.generation.as_str();
            let ghost p = active_rotation(vm_id@, generation@);
            let test = |x: &Job| -> (b: bool)
                ensures
                    b == p(x@),
                {
                    (x.status == JobStatus::Queued || x.status == JobStatus::Running)
                        && is_reinstall_with(x, vm_id, generation)
                };
            !occurs(jobs, test, Ghost(p))
        },
    }
}

fn is_lost_rotation(jobs: &Vec<Job>, tools: &GuestToolsRow) -> (r: bool)
    ensures
        r == lost_rotation(models(jobs@))(tools@),
{
    match &tools.pending {
        None => false,
        Some(pending) => {
            if !pending.installed {
                return false;
            }
            let vm_id = tools.vm_id.as_str();
            let generation = pending.generation.as_str();
            let ghost p = exhausted_rotation(vm_id@, generation@);
            let test = |x: &Job| -> (b: bool)
                ensures
                    b == p(x@),
                { is_exhausted(x) && is_reinstall_with(x, vm_id, generation) };
            occurs(jobs, test, Ghost(p))
        },
    }
}

fn is_lost_creation(jobs: &Vec<Job>, tools: &GuestToolsRow) -> (r: bool)
    ensures
        r == lost_creation(models(jobs@))(tools@),
{
    let vm_id = tools.vm_id.as_str();
    let ghost p = exhausted_for("vm.create"@, vm_id@);
    let test = |x: &Job| -> (b: bool)
        ensures
            b == p(x@),
        { is_exhausted(x) && same(x.kind.as_str(), "vm.create") && option_is(&x.vm_id, vm_id) };
    occurs(jobs, test, Ghost(p))
}

fn has_answered(tools: &GuestToolsRow, row: &Job) -> (r: bool)
    ensures
        r == answered(tools@, row@),
{
    match (tools.last_seen_at, row.locked_at) {
        (Some(seen), Some(locked)) => tools.status == GuestToolsStatus::Ready && seen >= locked,
        _ => false,
    }
}

fn expects_key(tools: &GuestToolsRow, row: &Job) -> (r: bool)
    ensures
        r == (if armed(tools@) {
            row@.payload.extract("expected_generation"@) == Extract::Text(
                tools@.pending->0.generation,
            )
        } else {
            row@.payload.extract("expected_generation"@) == Extract::Absent && !answered(
                tools@,
                row@,
            )
        }),
{
    match &tools.pending {
        Some(pending) => {
            if pending.installed {
                return row.payload.extract_is("expected_generation", pending.generation.as_str());
            }
        },
        None => {},
    }
    row.payload.extract_is_absent("expected_generation") && !has_answered(tools, row)
}

fn is_lost_start(jobs: &Vec<Job>, tools: &GuestToolsRow) -> (r: bool)
    ensures
        r == lost_start(models(jobs@))(tools@),
{
    let vm_id = tools.vm_id.as_str();
    let ghost p = exhausted_start(tools@);
    let test = |x: &Job| -> (b: bool)
        ensures
            b == p(x@),
        {
            is_exhausted(x)
                && same(x.kind.as_str(), "vm.guest_tools.bootstrap")
                && option_is(&x.vm_id, vm_id)
                && expects_key(tools, x)
        };
    occurs(jobs, test, Ghost(p))
}

fn is_lost_vm(jobs: &Vec<Job>, row: &VmRow) -> (r: bool)
    ensures
        r == lost_vm(models(jobs@))(row@),
{
    let vm_id = row.vm.id.as_str();
    let ghost p = exhausted_installation(vm_id@);
    let test = |x: &Job| -> (b: bool)
        ensures
            b == p(x@),
        {
            is_exhausted(x)
                && (same(x.kind.as_str(), "vm.create") || same(x.kind.as_str(), "vm.reinstall"))
                && option_is(&x.vm_id, vm_id)
        };
    occurs(jobs, test, Ghost(p))
}

fn is_lost_snapshot(jobs: &Vec<Job>, row: &Snapshot) -> (r: bool)
    ensures
        r == lost_snapshot(models(jobs@))(row@),
{
    let id = row.id.as_str();
    let ghost p = exhausted_snapshot(id@);
    let test = |x: &Job| -> (b: bool)
        ensures
            b == p(x@),
        {
            is_exhausted(x)
                && same(x.kind.as_str(), "vm.snapshot.create")
                && x.payload.extract_is("snapshot_id", id)
        };
    occurs(jobs, test, Ghost(p))
}

/// Rows that are changed away from a condition are not counted under it again.
proof fn two_counts_fit<M>(
    rows: Seq<M>,
    p: spec_fn(M) -> bool,
    f: spec_fn(M) -> M,
    q: spec_fn(M) -> bool,
)
    requires
        forall|m: M| #[trigger] p(m) ==> !q(f(m)),
    ensures
        count(rows, p) + count(revised(rows, p, f), q) <= rows.len(),
    decreases rows.len(),
{
    if rows.len() > 0 {
        let after = revised(rows, p, f);
        two_counts_fit(rows.drop_last(), p, f, q);
        assert(after.drop_last() =~= revised(rows.drop_last(), p, f));
        assert(p(rows.last()) || !p(rows.last()));
    }
}

impl Database {
    fn clean_up_exhausted(&mut self, now: Timestamp)
        ensures
            final(self)@ == (DatabaseView {
                guest_tools: cleaned(old(self)@.guest_tools, old(self)@.jobs, now),
                ..old(self)@
            }),
    {
        let ghost start = self@;
        let ghost jobs = self@.jobs;
        let mut i: usize = 0;
        proof {
            assert(jobs.take(0) =~= Seq::<JobView>::empty());
        }
        while i < self.jobs.len()
            invariant
                i <= self.jobs@.len(),
                jobs == start.jobs,
                self@ == (DatabaseView {
                    guest_tools: cleaned(start.guest_tools, jobs.take(i as int), now),
                    ..start
                }),
            decreases self.jobs@.len() - i,
        {
            let row = self.jobs[i].clone();
            proof {
                assert(self@.jobs == jobs);
                assert(jobs[i as int] == row@);
                assert(jobs.take(i as int + 1).drop_last() =~= jobs.take(i as int));
                assert(jobs.take(i as int + 1).last() == row@);
            }
            if is_exhausted(&row) {
                self.cleanup_unarmed_reinstall_guest_tools(&row, now);
                proof {
                    assert(self@.jobs.len() == self.jobs@.len());
                }
            }
            i = i + 1;
        }
        proof {
            assert(self@.jobs == jobs);
            assert(jobs.take(jobs.len() as int) =~= jobs);
        }
    }

    fn resume_jobs(&mut self, now: Timestamp) -> (r: usize)
        ensures
            final(self)@ == (DatabaseView { jobs: resumed_jobs(old(self)@.jobs, now), ..old(self)@ }),
            r == requeued_count(old(self)@.jobs, now),
    {
        let ghost f = requeued_finalizer(now);
        proof {
            assert(self@.jobs.len() == self.jobs.len());
            two_counts_fit(self@.jobs, finalizer(), f, resumable());
        }
        let last = |x: &Job| -> (b: bool)
            ensures
                b == finalizer()(x@),
            { is_finalizer(x) };
        let once_more = |x: &Job| -> (y: Job)
            ensures
                y@ == f(x@),
            { {
            let mut y = requeue(x, now);
            y.max_attempts = more_attempts(x.attempts, x.max_attempts);
            y
        } };
        let finalizers: usize = revise(&mut self.jobs, last, once_more, Ghost(finalizer()), Ghost(f));
        let left = |x: &Job| -> (b: bool)
            ensures
                b == resumable()(x@),
            { x.status == JobStatus::Running && x.attempts < x.max_attempts };
        let again = |x: &Job| -> (y: Job)
            ensures
                y@ == requeued(now)(x@),
            { requeue(x, now) };
        let ordinary: usize = revise(&mut self.jobs, left, again, Ghost(resumable()), Ghost(requeued(now)));
        finalizers + ordinary
    }

    fn recover_tools(&mut self, now: Timestamp)
        ensures
            final(self)@ == (DatabaseView {
                guest_tools: recovered_tools(old(self)@.guest_tools, old(self)@.jobs, now),
                ..old(self)@
            }),
    {
        let jobs = &self.jobs;
        let ghost all_jobs = models(self.jobs@);
        let ghost p = abandoned_rotation(all_jobs);
        let ghost f = unstaged(now);
        let abandoned = |x: &GuestToolsRow| -> (b: bool)
            ensures
                b == p(x@),
            { is_abandoned(jobs, x) };
        let without = |x: &GuestToolsRow| -> (y: GuestToolsRow)
            ensures
                y@ == f(x@),
            { unstage(x, now) };
        let _ = revise(&mut self.guest_tools, abandoned, without, Ghost(p), Ghost(f));
        let ghost p = lost_rotation(all_jobs);
        let ghost f = tools_failed(
            "reinstall worker interrupted after Guest Tools media was armed"@,
            now,
        );
        let rotation = |x: &GuestToolsRow| -> (b: bool)
            ensures
                b == p(x@),
            { is_lost_rotation(jobs, x) };
        let failed = |x: &GuestToolsRow| -> (y: GuestToolsRow)
            ensures
                y@ == f(x@),
            {
                fail_tools(x, "reinstall worker interrupted after Guest Tools media was armed", now)
            };
        let _ = revise(&mut self.guest_tools, rotation, failed, Ghost(p), Ghost(f));
        let ghost p = lost_creation(all_jobs);
        let ghost f = tools_failed(
            "VM creation worker interrupted before Guest Tools bootstrap"@,
            now,
        );
        let creation = |x: &GuestToolsRow| -> (b: bool)
            ensures
                b == p(x@),
            { is_lost_creation(jobs, x) };
        let failed = |x: &GuestToolsRow| -> (y: GuestToolsRow)
            ensures
                y@ == f(x@),
            { fail_tools(x, "VM creation worker interrupted before Guest Tools bootstrap", now) };
        let _ = revise(&mut self.guest_tools, creation, failed, Ghost(p), Ghost(f));
        let ghost p = lost_start(all_jobs);
        let ghost f = tools_failed(
            "Guest Tools bootstrap worker interrupted before completion"@,
            now,
        );
        let start = |x: &GuestToolsRow| -> (b: bool)
            ensures
                b == p(x@),
            { is_lost_start(jobs, x) };
        let failed = |x: &GuestToolsRow| -> (y: GuestToolsRow)
            ensures
                y@ == f(x@),
            { fail_tools(x, "Guest Tools bootstrap worker interrupted before completion", now) };
        let _ = revise(&mut self.guest_tools, start, failed, Ghost(p), Ghost(f));
    }

    /// Settles the jobs whose worker was lost, and gives how many were queued again and how
    /// many ended.
    pub fn recover_interrupted_jobs(&mut self, now: Timestamp) -> (r: AppResult<(usize, usize)>)
        ensures
            final(self)@ == recovered(old(self)@, now),
            r is Ok,
            r->Ok_0.0 == requeued_count(old(self)@.jobs, now),
            r->Ok_0.1 == failed_count(old(self)@.jobs, now),
    {
        self.clean_up_exhausted(now);
        let requeued_jobs: usize = self.resume_jobs(now);
        let ghost between = models(self.jobs@);
        self.recover_tools(now);
        let jobs = &self.jobs;
        let ghost p = lost_vm(between);
        let ghost f = in_state(VmState::Error, now);
        let vm = |x: &VmRow| -> (b: bool)
            ensures
                b == p(x@),
            { is_lost_vm(jobs, x) };
        let broken = |x: &VmRow| -> (y: VmRow)
            ensures
                y@ == f(x@),
            { {
            let mut y = x.clone();
            y.vm.state = VmState::Error;
            y.vm.updated_at = now;
            y
        } };
        let _ = revise(&mut self.vms, vm, broken, Ghost(p), Ghost(f));
        let ghost p = lost_snapshot(between);
        let ghost f = snapshot_failed("worker interrupted before completion"@, now);
        let snapshot = |x: &Snapshot| -> (b: bool)
            ensures
                b == p(x@),
            { is_lost_snapshot(jobs, x) };
        let broken = |x: &Snapshot| -> (y: Snapshot)
            ensures
                y@ == f(x@),
            { {
            let mut y = x.clone();
            y.state = SnapshotState::Error;
            y.updated_at = now;
            y.completed_at = Some(now);
            y.metadata.set("error", Document::text("worker interrupted before completion"));
            y
        } };
        let _ = revise(&mut self.snapshots, snapshot, broken, Ghost(p), Ghost(f));
        let ghost f = interrupted(now);
        let spent = |x: &Job| -> (b: bool)
            ensures
                b == exhausted_job()(x@),
            { is_exhausted(x) };
        let ended = |x: &Job| -> (y: Job)
            ensures
                y@ == f(x@),
            { {
            let mut y = x.clone();
            y.status = JobStatus::Failed;
            y.error = Some("worker interrupted before completion".to_owned());
            y.locked_by = None;
            y.locked_at = None;
            y.updated_at = now;
            y.finished_at = Some(now);
            y.payload = payload_without_staged_password(&x.payload);
            y
        } };
        let failed_jobs: usize = revise(&mut self.jobs, spent, ended, Ghost(exhausted_job()), Ghost(f));
        Ok((requeued_jobs, failed_jobs))
    }
}

/// After a recovery no job is running: each that was either waits in the queue, where it
/// had an attempt left or only had to confirm a removal, or has failed without a password
/// in its payload. What was not running is as it was.
pub proof fn no_job_stays_running(db: DatabaseView, now: Timestamp, i: int)
    requires
        0 <= i < db.jobs.len(),
    ensures
        recovered(db, now).jobs.len() == db.jobs.len(),
        ({
            let before = db.jobs[i];
            let after = recovered(db, now).jobs[i];
            if before.status != JobStatus::Running {
                after == before
            } else if before.attempts < before.max_attempts || finalizer()(before) {
                after.status == JobStatus::Queued && after.locked_by is None && after.payload
                    == before.payload && after.attempts == before.attempts
            } else {
                after.status == JobStatus::Failed && after.finished_at == Some(now)
                    && after.payload.member(password_field()) is None
            }
        }),
{
}

/// A recovery keeps every job within its attempts, and leaves an attempt to each job that
/// it queues again, as long as one can be counted.
pub proof fn recovery_stays_within_budget(db: DatabaseView, now: Timestamp, i: int)
    requires
        within_budget(db.jobs),
        0 <= i < db.jobs.len(),
    ensures
        within_budget(recovered(db, now).jobs),
        db.jobs[i].status == JobStatus::Running && recovered(db, now).jobs[i].status
            == JobStatus::Queued && db.jobs[i].attempts < u32::MAX ==> recovered(
            db,
            now,
        ).jobs[i].attempts < recovered(db, now).jobs[i].max_attempts,
{
}

proof fn cleaning_keeps_armed_keys(
    tools: Seq<GuestToolsRowView>,
    jobs: Seq<JobView>,
    now: Timestamp,
)
    ensures
        keeps_armed_keys(tools, cleaned(tools, jobs, now)),
    decreases jobs.len(),
{
    nothing_done_keeps_armed_keys(tools);
    if jobs.len() > 0 {
        let before = cleaned(tools, jobs.drop_last(), now);
        cleaning_keeps_armed_keys(tools, jobs.drop_last(), now);
        cleanup_keeps_armed_keys(before, jobs.last(), now);
        keeping_armed_keys_carries_over(tools, before, cleanup_spec(before, jobs.last(), now));
    }
}

/// A recovery takes no armed key away.
pub proof fn recovery_keeps_armed_keys(db: DatabaseView, now: Timestamp)
    ensures
        keeps_armed_keys(db.guest_tools, recovered(db, now).guest_tools),
{
    let jobs = resumed_jobs(db.jobs, now);
    let t0 = db.guest_tools;
    let t1 = cleaned(t0, db.jobs, now);
    cleaning_keeps_armed_keys(t0, db.jobs, now);
    let t2 = revised(t1, abandoned_rotation(jobs), unstaged(now));
    revision_keeps_armed_keys(t1, abandoned_rotation(jobs), unstaged(now));
    keeping_armed_keys_carries_over(t0, t1, t2);
    let f3 = tools_failed(
        "reinstall worker interrupted after Guest Tools media was armed"@,
        now,
    );
    let t3 = revised(t2, lost_rotation(jobs), f3);
    revision_keeps_armed_keys(t2, lost_rotation(jobs), f3);
    keeping_armed_keys_carries_over(t0, t2, t3);
    let f4 = tools_failed("VM creation worker interrupted before Guest Tools bootstrap"@, now);
    let t4 = revised(t3, lost_creation(jobs), f4);
    revision_keeps_armed_keys(t3, lost_creation(jobs), f4);
    keeping_armed_keys_carries_over(t0, t3, t4);
    let f5 = tools_failed("Guest Tools bootstrap worker interrupted before completion"@, now);
    revision_keeps_armed_keys(t4, lost_start(jobs), f5);
    keeping_armed_keys_carries_over(t0, t4, revised(t4, lost_start(jobs), f5));
}

} // verus!

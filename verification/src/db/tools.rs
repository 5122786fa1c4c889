//! What becomes of the tools of a machine: how they are configured, what is said of them, and
//! which key is used. Stated over the fields of the rows.

use vstd::prelude::*;

use crate::db::rows::{
    GuestToolsPlatform, GuestToolsProvisioner, GuestToolsRowView, GuestToolsStatus, JobStatus,
    JobView, PendingRotationView, Timestamp, VmGuestToolsView,
};
use crate::db::store::{generation_fault, has_control, version_fault, vm_with_id, DatabaseView};
use crate::db::guest_tools::{
    any_armed_tools, armed_tools, cleanup_spec, client_key, configure_spec, delete_tools_spec,
    discard_spec, discardable_tools, enabled_tools, fingerprint_char, finished_last,
    generation_field, mark_installed_spec, origin_job, pending_tools, promote_spec, reusable_spec,
    rotating_tools, settled_tools, stage_spec, staged, tools_of, tools_shown, unarmed_rotation,
    unarmed_tools, unstaged, update_status_spec,
};
use crate::db::job_recovery::{
    abandoned_rotation, active_rotation, exhausted_for, exhausted_rotation, exhausted_start,
    lost_creation, lost_rotation, lost_start, recovered_tools, tools_failed,
};
use crate::db::queue::{is_lost, is_machine_of};
use crate::db::rotation::is_refused;
use crate::error::AppErrorView;
use crate::ids::{is_canonical_uuid, uuid_value};
use crate::json::Extract;
use crate::table::{
    any, count, count_is_any, find, first, first_is_first, least, least_of_some, others, others_has,
    revised,
};
use crate::text::{byte_len, is_control, trim_spec};

verus! {

broadcast use vstd::string::group_string_axioms;

/// The tools of a machine are the row at a place, if there are any.
pub open spec fn has_tools(db: DatabaseView, vm_id: Seq<char>, i: Option<int>) -> bool {
    &&& i is Some ==> 0 <= i->0 < db.guest_tools.len() && db.guest_tools[i->0].vm_id == vm_id
    &&& forall|j: int|
        0 <= j < db.guest_tools.len() && (#[trigger] db.guest_tools[j]).vm_id == vm_id ==> i
            == Some(j)
}

/// A text is a version: not blank, short, and printable.
pub open spec fn is_version(s: Seq<char>) -> bool {
    &&& trim_spec(s).len() > 0
    &&& byte_len(s) <= 64
    &&& forall|i: int| 0 <= i < s.len() ==> !is_control(#[trigger] s[i])
}

proof fn the_tools_are_found(
    db: DatabaseView,
    vm_id: Seq<char>,
    i: Option<int>,
    p: spec_fn(GuestToolsRowView) -> bool,
)
    requires
        has_tools(db, vm_id, i),
        forall|m: GuestToolsRowView| #[trigger] p(m) ==> m.vm_id == vm_id,
    ensures
        first(db.guest_tools, p) == (if i is Some && p(db.guest_tools[i->0]) {
            i
        } else {
            None
        }),
        i is Some && p(db.guest_tools[i->0]) ==> forall|
            f: spec_fn(GuestToolsRowView) -> GuestToolsRowView,
        |
            (#[trigger] revised(db.guest_tools, p, f)) == db.guest_tools.update(
                i->0,
                f(db.guest_tools[i->0]),
            ),
{
    let rows = db.guest_tools;
    first_is_first(rows, p);
    if i is Some && p(rows[i->0]) {
        assert(first(rows, p) is Some);
        assert forall|f: spec_fn(GuestToolsRowView) -> GuestToolsRowView|
            (#[trigger] revised(rows, p, f)) == rows.update(i->0, f(rows[i->0])) by {
            assert(revised(rows, p, f) =~= rows.update(i->0, f(rows[i->0])));
        }
    } else if first(rows, p) is Some {
        assert(rows[first(rows, p)->0].vm_id == vm_id);
    }
}

/// What is shown of tools is what their row holds, without the keys.
pub open spec fn shows(r: VmGuestToolsView, m: GuestToolsRowView) -> bool {
    &&& r.vm_id == m.vm_id
    &&& r.enabled == m.enabled
    &&& r.platform == m.platform
    &&& r.provisioner == m.provisioner
    &&& r.desired_version == m.desired_version
    &&& r.installed_version == m.installed_version
    &&& r.status == m.status
    &&& r.last_seen_at == m.last_seen_at
    &&& r.last_error == m.last_error
    &&& r.pending_rotation == m.pending is Some
    &&& r.pending_installed == (m.pending is Some && m.pending->0.installed)
    &&& r.created_at == m.created_at
    &&& r.updated_at == m.updated_at
}

/// A machine that is there gets tools as they are asked for: enabled, with the key that was
/// sealed, not installed yet, never seen, and with nothing staged. Tools that are there keep
/// when they were entered; tools with an armed key are not replaced.
pub proof fn tools_are_configured(
    db: DatabaseView,
    vm_id: Seq<char>,
    platform: GuestToolsPlatform,
    provisioner: GuestToolsProvisioner,
    secret: Seq<char>,
    desired_version: Seq<char>,
    sealed: Result<Seq<char>, AppErrorView>,
    now: Timestamp,
    i: Option<int>,
)
    requires
        has_tools(db, vm_id, i),
    ensures
        ({
            let held = i is Some && db.guest_tools[i->0].pending is Some
                && db.guest_tools[i->0].pending->0.installed;
            let fit = trim_spec(secret).len() > 0 && is_version(desired_version) && sealed is Ok
                && !held && (i is None ==> is_machine_of(db, vm_id));
            let done = configure_spec(
                db,
                vm_id,
                platform,
                provisioner,
                secret,
                desired_version,
                sealed,
                now,
            );
            let row = GuestToolsRowView {
                vm_id,
                enabled: true,
                platform,
                provisioner,
                secret_envelope: sealed->Ok_0,
                desired_version,
                installed_version: None,
                status: GuestToolsStatus::Pending,
                last_seen_at: None,
                last_error: None,
                pending: None,
                created_at: if i is Some {
                    db.guest_tools[i->0].created_at
                } else {
                    now
                },
                updated_at: now,
            };
            &&& !fit ==> is_refused(done, db)
            &&& fit ==> {
                &&& done is Ok
                &&& shows(done->Ok_0.1, row)
                &&& done->Ok_0.0 == (DatabaseView {
                    guest_tools: if i is Some {
                        db.guest_tools.update(i->0, row)
                    } else {
                        db.guest_tools.push(row)
                    },
                    ..db
                })
            }
        }),
{
    versions(desired_version);
    the_tools_are_found(db, vm_id, i, tools_of(vm_id));
    the_tools_are_found(db, vm_id, i, unarmed_tools(vm_id));
    let q = vm_with_id(vm_id);
    first_is_first(db.vms, q);
    if is_machine_of(db, vm_id) {
        let k = choose|k: int| 0 <= k < db.vms.len() && (#[trigger] db.vms[k]).vm.id == vm_id;
        assert(q(db.vms[k]));
    }
    if any(db.vms, q) {
        assert(db.vms[first(db.vms, q)->0].vm.id == vm_id);
    }
}

proof fn versions(s: Seq<char>)
    ensures
        version_fault("guest-tools version"@, s) is None <==> is_version(s),
        version_fault("installed guest-tools version"@, s) is None <==> is_version(s),
{
    if has_control(s) {
        let k = choose|k: int| 0 <= k < s.len() && is_control(#[trigger] s[k]);
        assert(is_control(s[k]));
    }
}

/// Tools are removed with all that is staged for them, unless a key is armed; after a
/// reinstall they are removed in any case. The tools of other machines stay.
pub proof fn tools_are_removed(db: DatabaseView, vm_id: Seq<char>, i: Option<int>)
    requires
        has_tools(db, vm_id, i),
    ensures
        ({
            let held = i is Some && db.guest_tools[i->0].pending is Some
                && db.guest_tools[i->0].pending->0.installed;
            let done = delete_tools_spec(db, vm_id);
            &&& i is None || held ==> is_refused(done, db)
            &&& i is Some && !held ==> {
                &&& done is Ok
                &&& done->Ok_0.0 == (DatabaseView { guest_tools: done->Ok_0.0.guest_tools, ..db })
                &&& forall|m: GuestToolsRowView| #[trigger]
                    done->Ok_0.0.guest_tools.contains(m) <==> db.guest_tools.contains(m) && m.vm_id
                        != vm_id
            }
            &&& forall|m: GuestToolsRowView| #[trigger]
                others(db.guest_tools, tools_of(vm_id)).contains(m) <==> db.guest_tools.contains(m)
                    && m.vm_id != vm_id
            &&& count(db.guest_tools, tools_of(vm_id)) > 0 <==> i is Some
        }),
{
    let rows = db.guest_tools;
    the_tools_are_found(db, vm_id, i, tools_of(vm_id));
    the_tools_are_found(db, vm_id, i, unarmed_tools(vm_id));
    count_is_any(rows, tools_of(vm_id));
    assert forall|m: GuestToolsRowView| #[trigger]
        others(rows, tools_of(vm_id)).contains(m) <==> rows.contains(m) && m.vm_id != vm_id by {
        others_has(rows, tools_of(vm_id), m);
    }
    if i is Some && unarmed_tools(vm_id)(rows[i->0]) {
        assert forall|m: GuestToolsRowView| #[trigger]
            others(rows, unarmed_tools(vm_id)).contains(m) <==> rows.contains(m) && m.vm_id
                != vm_id by {
            others_has(rows, unarmed_tools(vm_id), m);
            if rows.contains(m) && m.vm_id == vm_id {
                let k = choose|k: int| 0 <= k < rows.len() && rows[k] == m;
                assert(rows[k].vm_id == vm_id);
            }
        }
    }
}

/// A key is staged beside the active one for enabled tools that have none staged; it is not
/// armed, and nothing else of the tools changes but the time.
pub proof fn a_key_is_staged_beside(
    db: DatabaseView,
    vm_id: Seq<char>,
    platform: GuestToolsPlatform,
    provisioner: GuestToolsProvisioner,
    secret: Seq<char>,
    desired_version: Seq<char>,
    generation: Seq<char>,
    sealed: Result<Seq<char>, AppErrorView>,
    now: Timestamp,
    i: Option<int>,
)
    requires
        has_tools(db, vm_id, i),
    ensures
        ({
            let fit = trim_spec(secret).len() > 0 && is_version(desired_version) && sealed is Ok
                && i is Some && db.guest_tools[i->0].enabled && db.guest_tools[i->0].pending
                is None;
            let done = stage_spec(
                db,
                vm_id,
                platform,
                provisioner,
                secret,
                desired_version,
                generation,
                sealed,
                now,
            );
            &&& !fit ==> is_refused(done, db)
            &&& fit ==> done == Ok::<(DatabaseView, ()), AppErrorView>(
                (
                    DatabaseView {
                        guest_tools: db.guest_tools.update(
                            i->0,
                            GuestToolsRowView {
                                pending: Some(
                                    PendingRotationView {
                                        secret_envelope: sealed->Ok_0,
                                        platform,
                                        provisioner,
                                        desired_version,
                                        generation,
                                        installed: false,
                                    },
                                ),
                                updated_at: now,
                                ..db.guest_tools[i->0]
                            },
                        ),
                        ..db
                    },
                    (),
                ),
            )
        }),
{
    versions(desired_version);
    the_tools_are_found(db, vm_id, i, tools_of(vm_id));
    the_tools_are_found(db, vm_id, i, settled_tools(vm_id));
}

/// The tools of a machine are enabled, and a key of a generation is staged for them.
pub open spec fn has_staged(m: GuestToolsRowView, generation: Seq<char>) -> bool {
    m.enabled && m.pending is Some && m.pending->0.generation == generation
}

/// A staged key is armed, promoted or discarded by its generation only. Armed, it waits for
/// the guest; promoted, it is the active key of the version that was staged, and the guest was
/// seen; discarded, it is gone, which an armed key never is.
pub proof fn what_becomes_of_a_staged_key(
    db: DatabaseView,
    vm_id: Seq<char>,
    generation: Seq<char>,
    installed_version: Seq<char>,
    resealed: Result<Seq<char>, AppErrorView>,
    now: Timestamp,
    i: Option<int>,
)
    requires
        has_tools(db, vm_id, i),
        generation_fault(generation) is None,
    ensures
        ({
            let m = db.guest_tools[i->0];
            let p = m.pending->0;
            let staged = i is Some && has_staged(m, generation);
            let arm = mark_installed_spec(db, vm_id, generation, now);
            let promote = promote_spec(db, vm_id, generation, installed_version, resealed, now);
            let discard = discard_spec(db, vm_id, generation, now);
            let fit = staged && p.installed && is_version(installed_version) && installed_version
                == p.desired_version && resealed is Ok;
            let armed_row = GuestToolsRowView {
                pending: Some(PendingRotationView { installed: true, ..p }),
                status: GuestToolsStatus::Pending,
                last_error: None,
                updated_at: now,
                ..m
            };
            let promoted_row = GuestToolsRowView {
                vm_id: m.vm_id,
                enabled: true,
                platform: p.platform,
                provisioner: p.provisioner,
                secret_envelope: resealed->Ok_0,
                desired_version: p.desired_version,
                installed_version: Some(p.desired_version),
                status: GuestToolsStatus::Ready,
                last_seen_at: Some(now),
                last_error: None,
                pending: None,
                created_at: m.created_at,
                updated_at: now,
            };
            let discarded_row = GuestToolsRowView { pending: None, updated_at: now, ..m };
            &&& !staged ==> is_refused(arm, db)
            &&& staged ==> arm is Ok && shows(arm->Ok_0.1, armed_row) && arm->Ok_0.0 == (
            DatabaseView { guest_tools: db.guest_tools.update(i->0, armed_row), ..db })
            &&& !fit ==> is_refused(promote, db)
            &&& fit ==> promote is Ok && shows(promote->Ok_0.1, promoted_row) && promote->Ok_0.0
                == (DatabaseView {
                guest_tools: db.guest_tools.update(i->0, promoted_row),
                ..db
            })
            &&& !staged || p.installed ==> is_refused(discard, db)
            &&& staged && !p.installed ==> discard is Ok && shows(discard->Ok_0.1, discarded_row)
                && discard->Ok_0.0 == (DatabaseView {
                guest_tools: db.guest_tools.update(i->0, discarded_row),
                ..db
            })
        }),
{
    versions(installed_version);
    the_tools_are_found(db, vm_id, i, tools_of(vm_id));
    the_tools_are_found(db, vm_id, i, rotating_tools(vm_id, generation));
    the_tools_are_found(db, vm_id, i, armed_tools(vm_id, generation));
    the_tools_are_found(db, vm_id, i, discardable_tools(vm_id, generation));
}

/// A generation that is no identifier in its usual form is refused by every step.
pub proof fn without_a_generation_all_is_refused(
    db: DatabaseView,
    vm_id: Seq<char>,
    generation: Seq<char>,
    installed_version: Seq<char>,
    resealed: Result<Seq<char>, AppErrorView>,
    now: Timestamp,
)
    requires
        uuid_value(generation) is None || !is_canonical_uuid(generation),
    ensures
        is_refused(mark_installed_spec(db, vm_id, generation, now), db),
        is_refused(
            promote_spec(db, vm_id, generation, installed_version, resealed, now),
            db,
        ),
        is_refused(discard_spec(db, vm_id, generation, now), db),
{
}

/// What is said of enabled tools is recorded: the status, the version where one is said, when
/// they were seen, and what went wrong, cut to its first five hundred characters. While a key
/// is armed the tools are not ready, and the version that is said is not believed.
pub proof fn a_status_is_recorded(
    db: DatabaseView,
    vm_id: Seq<char>,
    status: GuestToolsStatus,
    installed_version: Option<Seq<char>>,
    last_error: Option<Seq<char>>,
    contacted: bool,
    now: Timestamp,
    i: Option<int>,
)
    requires
        has_tools(db, vm_id, i),
    ensures
        ({
            let m = db.guest_tools[i->0];
            let fit = i is Some && m.enabled && (installed_version is Some ==> is_version(
                installed_version->0,
            ));
            let held = m.pending is Some && m.pending->0.installed;
            let done = update_status_spec(
                db,
                vm_id,
                status,
                installed_version,
                last_error,
                contacted,
                now,
            );
            &&& !fit ==> is_refused(done, db)
            &&& fit ==> {
                let r = done->Ok_0.0.guest_tools[i->0];
                &&& done is Ok
                &&& done->Ok_0.0 == (DatabaseView {
                    guest_tools: db.guest_tools.update(i->0, r),
                    ..db
                })
                &&& shows(done->Ok_0.1, r)
                &&& r == (GuestToolsRowView {
                    status: r.status,
                    installed_version: r.installed_version,
                    last_seen_at: r.last_seen_at,
                    last_error: r.last_error,
                    updated_at: now,
                    ..m
                })
                &&& held && status == GuestToolsStatus::Ready ==> r.status
                    == GuestToolsStatus::Pending
                &&& !held || status != GuestToolsStatus::Ready ==> r.status == status
                &&& !held && installed_version is Some ==> r.installed_version == installed_version
                &&& held || installed_version is None ==> r.installed_version == m.installed_version
                &&& contacted ==> r.last_seen_at == Some(now)
                &&& !contacted ==> r.last_seen_at == m.last_seen_at
                &&& last_error is None ==> r.last_error is None
                &&& last_error is Some && last_error->0.len() <= 500 ==> r.last_error == last_error
                &&& last_error is Some && last_error->0.len() > 500 ==> r.last_error is Some
                    && r.last_error->0.len() == 500 && forall|k: int|
                    0 <= k < 500 ==> (#[trigger] r.last_error->0[k]) == last_error->0[k]
            }
        }),
{
    if installed_version is Some {
        versions(installed_version->0);
    }
    the_tools_are_found(db, vm_id, i, enabled_tools(vm_id));
}

/// What is read of the tools of a machine: what is shown, the active key where they are
/// enabled, the staged key where there is one, and the key that a client uses, which is the
/// staged key once it is armed and the active one before.
pub proof fn what_is_read_of_tools(db: DatabaseView, vm_id: Seq<char>, i: Option<int>)
    requires
        has_tools(db, vm_id, i),
    ensures
        ({
            let m = db.guest_tools[i->0];
            let held = m.pending is Some && m.pending->0.installed;
            &&& find(db.guest_tools, tools_of(vm_id)) == (if i is Some {
                Some(m)
            } else {
                None
            })
            &&& i is Some ==> shows(tools_shown(m), m)
            &&& find(db.guest_tools, enabled_tools(vm_id)) == (if i is Some && m.enabled {
                Some(m)
            } else {
                None
            })
            &&& find(db.guest_tools, pending_tools(vm_id)) == (if i is Some && m.enabled && m.pending
                is Some {
                Some(m)
            } else {
                None
            })
            &&& find(db.guest_tools, any_armed_tools(vm_id)) == (if i is Some && m.enabled && held {
                Some(m)
            } else {
                None
            })
            &&& held ==> client_key(m).envelope == m.pending->0.secret_envelope && client_key(
                m,
            ).desired_version == m.pending->0.desired_version && client_key(m).pending_generation
                == Some(m.pending->0.generation)
            &&& !held ==> client_key(m).envelope == m.secret_envelope && client_key(
                m,
            ).desired_version == m.desired_version && client_key(m).pending_generation is None
        }),
{
    the_tools_are_found(db, vm_id, i, tools_of(vm_id));
    the_tools_are_found(db, vm_id, i, enabled_tools(vm_id));
    the_tools_are_found(db, vm_id, i, pending_tools(vm_id));
    the_tools_are_found(db, vm_id, i, any_armed_tools(vm_id));
}

/// A job is a failed reinstall of a machine that was asked for in the same way and that
/// staged a generation.
pub open spec fn is_origin(
    j: JobView,
    vm_id: Seq<char>,
    generation: Seq<char>,
    fingerprint: Seq<char>,
) -> bool {
    &&& j.vm_id == Some(vm_id)
    &&& j.kind == "vm.reinstall"@
    &&& j.status == JobStatus::Failed
    &&& j.payload.extract("_guest_tools_rotation_generation"@) == Extract::Text(generation)
    &&& j.payload.extract("request_fingerprint"@) == Extract::Text(fingerprint)
}

/// An armed rotation is taken up again exactly where a failed reinstall of the machine, asked
/// for in the same way, staged it; what is given is what is staged.
pub proof fn an_armed_rotation_is_taken_up_again(
    db: DatabaseView,
    vm_id: Seq<char>,
    fingerprint: Seq<char>,
    i: Option<int>,
)
    requires
        has_tools(db, vm_id, i),
        fingerprint.len() == 64,
        forall|k: int|
            0 <= k < 64 ==> '0' <= #[trigger] fingerprint[k] <= '9' || 'a' <= fingerprint[k] <= 'f',
    ensures
        ({
            let m = db.guest_tools[i->0];
            let p = m.pending->0;
            let held = i is Some && m.enabled && m.pending is Some && p.installed;
            let done = reusable_spec(db, vm_id, fingerprint);
            &&& done is Ok
            &&& done->Ok_0 is Some <==> held && exists|k: int|
                0 <= k < db.jobs.len() && is_origin(
                    #[trigger] db.jobs[k],
                    vm_id,
                    p.generation,
                    fingerprint,
                )
            &&& done->Ok_0 is Some ==> {
                let r = done->Ok_0->0;
                &&& r.generation == p.generation
                &&& r.platform == p.platform
                &&& r.provisioner == p.provisioner
                &&& r.desired_version == p.desired_version
                &&& exists|k: int|
                    0 <= k < db.jobs.len() && is_origin(
                        #[trigger] db.jobs[k],
                        vm_id,
                        p.generation,
                        fingerprint,
                    ) && db.jobs[k].id == r.origin_job_id
            }
        }),
{
    the_tools_are_found(db, vm_id, i, any_armed_tools(vm_id));
    assert forall|k: int| 0 <= k < fingerprint.len() implies fingerprint_char(
        #[trigger] fingerprint[k],
    ) by {}
    if i is Some {
        let p = db.guest_tools[i->0].pending->0;
        let q = origin_job(vm_id, p.generation, fingerprint);
        least_of_some(db.jobs, q, finished_last());
        if least(db.jobs, q, finished_last()) is Some {
            let k = least(db.jobs, q, finished_last())->0;
            assert(is_origin(db.jobs[k], vm_id, p.generation, fingerprint));
        }
        if exists|k: int|
            0 <= k < db.jobs.len() && is_origin(
                #[trigger] db.jobs[k],
                vm_id,
                p.generation,
                fingerprint,
            ) {
            let k = choose|k: int|
                0 <= k < db.jobs.len() && is_origin(
                    #[trigger] db.jobs[k],
                    vm_id,
                    p.generation,
                    fingerprint,
                );
            assert(q(db.jobs[k]));
        }
    }
}

/// After a reinstall that ended without its key being armed, the key is no longer staged; where
/// the reinstall configured the tools anew, the tools are gone. Armed keys, other generations
/// and other machines are left alone, and so is everything by any other job.
pub proof fn an_unused_key_is_cleaned_up(
    tools: Seq<GuestToolsRowView>,
    job: JobView,
    now: Timestamp,
    k: int,
)
    requires
        0 <= k < tools.len(),
    ensures
        ({
            let generation = job.payload.text_member("_guest_tools_rotation_generation"@);
            let named = job.kind == "vm.reinstall"@ && job.vm_id is Some && generation is Some
                && generation->0.len() > 0 && byte_len(generation->0) <= 64;
            let anew = job.payload.truth_member("guest_tools_new_configuration"@) == Some(true);
            let m = tools[k];
            let unused = m.vm_id == job.vm_id->0 && m.pending is Some && m.pending->0.generation
                == generation->0 && !m.pending->0.installed;
            let after = cleanup_spec(tools, job, now);
            &&& !named ==> after == tools
            &&& named && anew ==> (after.contains(m) <==> !unused)
            &&& named && !anew ==> after.len() == tools.len() && after[k] == (if unused {
                GuestToolsRowView { pending: None, updated_at: now, ..m }
            } else {
                m
            })
        }),
{
    let generation = job.payload.text_member(generation_field());
    if job.vm_id is Some && generation is Some {
        others_has(tools, unarmed_rotation(job.vm_id->0, generation->0), tools[k]);
    }
}

/// Some job that waits or runs is a reinstall of a machine with the key of a generation.
pub open spec fn is_waited_for(
    jobs: Seq<JobView>,
    vm_id: Seq<char>,
    generation: Seq<char>,
) -> bool {
    exists|i: int|
        0 <= i < jobs.len() && ((#[trigger] jobs[i]).status == JobStatus::Queued || jobs[i].status
            == JobStatus::Running) && jobs[i].kind == "vm.reinstall"@ && jobs[i].vm_id == Some(vm_id)
            && jobs[i].payload.extract("_guest_tools_rotation_generation"@) == Extract::Text(
            generation,
        )
}

/// Some job was lost that was to bring the armed key of some tools.
pub open spec fn bringing_was_lost(jobs: Seq<JobView>, m: GuestToolsRowView) -> bool {
    m.pending is Some && m.pending->0.installed && exists|i: int|
        0 <= i < jobs.len() && is_lost(#[trigger] jobs[i]) && jobs[i].kind == "vm.reinstall"@
            && jobs[i].vm_id == Some(m.vm_id) && jobs[i].payload.extract(
            "_guest_tools_rotation_generation"@,
        ) == Extract::Text(m.pending->0.generation)
}

/// Some job was lost that was to create the machine of some tools.
pub open spec fn creation_was_lost(jobs: Seq<JobView>, m: GuestToolsRowView) -> bool {
    exists|i: int|
        0 <= i < jobs.len() && is_lost(#[trigger] jobs[i]) && jobs[i].kind == "vm.create"@
            && jobs[i].vm_id == Some(m.vm_id)
}

/// Some job was lost that was to start some tools: with the key that is armed, or with the
/// active one where they had not answered since.
pub open spec fn start_was_lost(jobs: Seq<JobView>, m: GuestToolsRowView) -> bool {
    exists|i: int|
        0 <= i < jobs.len() && is_lost(#[trigger] jobs[i]) && jobs[i].kind
            == "vm.guest_tools.bootstrap"@ && jobs[i].vm_id == Some(m.vm_id) && (if m.pending is Some
            && m.pending->0.installed {
            jobs[i].payload.extract("expected_generation"@) == Extract::Text(
                m.pending->0.generation,
            )
        } else {
            jobs[i].payload.extract("expected_generation"@) == Extract::Absent && !(m.status
                == GuestToolsStatus::Ready && m.last_seen_at is Some && jobs[i].locked_at is Some
                && m.last_seen_at->0 >= jobs[i].locked_at->0)
        })
}

proof fn what_was_lost(jobs: Seq<JobView>, m: GuestToolsRowView)
    ensures
        m.pending is Some ==> any(jobs, active_rotation(m.vm_id, m.pending->0.generation))
            == is_waited_for(jobs, m.vm_id, m.pending->0.generation),
        lost_rotation(jobs)(m) == bringing_was_lost(jobs, m),
        lost_creation(jobs)(m) == creation_was_lost(jobs, m),
        lost_start(jobs)(m) == start_was_lost(jobs, m),
{
    if m.pending is Some {
        let generation = m.pending->0.generation;
        let p = active_rotation(m.vm_id, generation);
        first_is_first(jobs, p);
        if any(jobs, p) {
            assert(jobs[first(jobs, p)->0].kind == "vm.reinstall"@);
        }
        if is_waited_for(jobs, m.vm_id, generation) {
            let i = choose|i: int|
                0 <= i < jobs.len() && ((#[trigger] jobs[i]).status == JobStatus::Queued
                    || jobs[i].status == JobStatus::Running) && jobs[i].kind == "vm.reinstall"@
                    && jobs[i].vm_id == Some(m.vm_id) && jobs[i].payload.extract(
                    "_guest_tools_rotation_generation"@,
                ) == Extract::Text(generation);
            assert(p(jobs[i]));
        }
        let q = exhausted_rotation(m.vm_id, generation);
        first_is_first(jobs, q);
        if any(jobs, q) {
            assert(is_lost(jobs[first(jobs, q)->0]));
        }
        if bringing_was_lost(jobs, m) {
            let i = choose|i: int|
                0 <= i < jobs.len() && is_lost(#[trigger] jobs[i]) && jobs[i].kind
                    == "vm.reinstall"@ && jobs[i].vm_id == Some(m.vm_id) && jobs[i].payload.extract(
                    "_guest_tools_rotation_generation"@,
                ) == Extract::Text(generation);
            assert(q(jobs[i]));
        }
    }
    let c = exhausted_for("vm.create"@, m.vm_id);
    first_is_first(jobs, c);
    if any(jobs, c) {
        assert(is_lost(jobs[first(jobs, c)->0]));
    }
    if creation_was_lost(jobs, m) {
        let i = choose|i: int|
            0 <= i < jobs.len() && is_lost(#[trigger] jobs[i]) && jobs[i].kind == "vm.create"@
                && jobs[i].vm_id == Some(m.vm_id);
        assert(c(jobs[i]));
    }
    let s = exhausted_start(m);
    first_is_first(jobs, s);
    if any(jobs, s) {
        assert(is_lost(jobs[first(jobs, s)->0]));
    }
    if start_was_lost(jobs, m) {
        let i = choose|i: int|
            0 <= i < jobs.len() && is_lost(#[trigger] jobs[i]) && jobs[i].kind
                == "vm.guest_tools.bootstrap"@ && jobs[i].vm_id == Some(m.vm_id) && (if m.pending
                is Some && m.pending->0.installed {
                jobs[i].payload.extract("expected_generation"@) == Extract::Text(
                    m.pending->0.generation,
                )
            } else {
                jobs[i].payload.extract("expected_generation"@) == Extract::Absent && !(m.status
                    == GuestToolsStatus::Ready && m.last_seen_at is Some && jobs[i].locked_at
                    is Some && m.last_seen_at->0 >= jobs[i].locked_at->0)
            });
        assert(s(jobs[i]));
    }
}

/// A recovery takes back a staged key that is not armed and that no job waits for, and marks
/// tools as faulty where a job was lost that was to bring their key, to create their machine or
/// to start them. Nothing else of tools changes but what is said of them last, and when.
pub proof fn what_a_recovery_makes_of_tools(
    tools: Seq<GuestToolsRowView>,
    jobs: Seq<JobView>,
    now: Timestamp,
    k: int,
)
    requires
        0 <= k < tools.len(),
    ensures
        ({
            let m = tools[k];
            let after = recovered_tools(tools, jobs, now);
            let taken = m.pending is Some && !m.pending->0.installed && !is_waited_for(
                jobs,
                m.vm_id,
                m.pending->0.generation,
            );
            let lost = bringing_was_lost(jobs, m) || creation_was_lost(jobs, m) || start_was_lost(
                jobs,
                m,
            );
            &&& after.len() == tools.len()
            &&& after[k] == (GuestToolsRowView {
                pending: if taken {
                    None
                } else {
                    m.pending
                },
                status: if lost {
                    GuestToolsStatus::Error
                } else {
                    m.status
                },
                last_error: after[k].last_error,
                updated_at: if lost || taken {
                    now
                } else {
                    m.updated_at
                },
                ..m
            })
            &&& lost ==> after[k].last_error is Some
            &&& !lost ==> after[k].last_error == m.last_error
        }),
{
    let a = revised(tools, abandoned_rotation(jobs), unstaged(now));
    let b = revised(
        a,
        lost_rotation(jobs),
        tools_failed("reinstall worker interrupted after Guest Tools media was armed"@, now),
    );
    let c = revised(
        b,
        lost_creation(jobs),
        tools_failed("VM creation worker interrupted before Guest Tools bootstrap"@, now),
    );
    what_was_lost(jobs, tools[k]);
    what_was_lost(jobs, a[k]);
    what_was_lost(jobs, b[k]);
    what_was_lost(jobs, c[k]);
    let m = tools[k];
    assert(bringing_was_lost(jobs, a[k]) == bringing_was_lost(jobs, m));
    assert(creation_was_lost(jobs, b[k]) == creation_was_lost(jobs, m));
    assert(a[k].status == m.status && a[k].last_seen_at == m.last_seen_at && a[k].vm_id == m.vm_id);
    if !bringing_was_lost(jobs, m) && !creation_was_lost(jobs, m) {
        assert(c[k] == a[k]);
        assert(start_was_lost(jobs, a[k]) == start_was_lost(jobs, m));
    }
}

} // verus!

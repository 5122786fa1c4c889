//! What becomes of a rotation of a machine's channel key: it is staged beside the active key,
//! armed, and promoted; or it is discarded before it is armed. The laws hold where a machine
//! has one row of tools.

use vstd::prelude::*;

use crate::db::rows::{
    GuestToolsRowView, GuestToolsStatus, PendingRotationView, Timestamp, VmGuestToolsView,
};
use crate::db::store::{empty_fault, generation_fault, settles, version_fault, DatabaseView};
use crate::db::guest_tools::{
    armed_tools, arming, discard_spec, discardable_tools, enabled_tools, mark_installed_spec,
    pending_tools, promote_spec, promoted, rotating_tools, settled_tools, stage_spec, staged,
    tools_of, tools_shown, unstaged,
};
use crate::db::keys::{machine_of_tools, tools_are_distinct};
use crate::error::AppErrorView;
use crate::ids::is_canonical_uuid;
use crate::table::{find, first, first_is_first, first_survives, revised, revising_keeps_distinct};

verus! {

/// The sealed active key of a machine's enabled tools.
pub open spec fn active_key(db: DatabaseView, vm_id: Seq<char>) -> Option<Seq<char>> {
    match find(db.guest_tools, enabled_tools(vm_id)) {
        Some(m) => Some(m.secret_envelope),
        None => None,
    }
}

/// The staged key of a machine's enabled tools.
pub open spec fn staged_key(db: DatabaseView, vm_id: Seq<char>) -> Option<PendingRotationView> {
    match find(db.guest_tools, pending_tools(vm_id)) {
        Some(m) => m.pending,
        None => None,
    }
}

/// An operation is refused, and the tables stay as they are.
pub open spec fn is_refused<M>(
    outcome: Result<(DatabaseView, M), AppErrorView>,
    db: DatabaseView,
) -> bool {
    &&& outcome is Err
    &&& forall|after: DatabaseView, got: Result<M, AppErrorView>| #[trigger]
        settles(outcome, db, after, got) ==> got is Err && after == db
}

/// Some tools of a machine are the tools of the machine, where they meet the condition.
proof fn tools_are_looked_up(
    rows: Seq<GuestToolsRowView>,
    vm_id: Seq<char>,
    p: spec_fn(GuestToolsRowView) -> bool,
)
    requires
        tools_are_distinct(rows),
        forall|m: GuestToolsRowView| #[trigger] p(m) ==> m.vm_id == vm_id,
    ensures
        find(rows, p) == match find(rows, tools_of(vm_id)) {
            None => None,
            Some(m) => if p(m) {
                Some(m)
            } else {
                None
            },
        },
        find(rows, tools_of(vm_id)) matches Some(m) ==> m.vm_id == vm_id,
{
    let q = tools_of(vm_id);
    first_is_first(rows, p);
    first_is_first(rows, q);
    if let Some(i) = first(rows, p) {
        assert(q(rows[i]));
        assert(first(rows, q) is Some);
        let j = first(rows, q)->0;
        assert(machine_of_tools()(rows[i]) == machine_of_tools()(rows[j]));
    }
    if let Some(j) = first(rows, q) {
        if p(rows[j]) {
            assert(first(rows, p) is Some);
            let i = first(rows, p)->0;
            assert(machine_of_tools()(rows[i]) == machine_of_tools()(rows[j]));
        }
    }
}

/// What a change of some tools of a machine leaves of them.
proof fn tools_are_changed(
    rows: Seq<GuestToolsRowView>,
    vm_id: Seq<char>,
    p: spec_fn(GuestToolsRowView) -> bool,
    f: spec_fn(GuestToolsRowView) -> GuestToolsRowView,
)
    requires
        tools_are_distinct(rows),
        forall|m: GuestToolsRowView| #[trigger] f(m).vm_id == m.vm_id,
    ensures
        tools_are_distinct(revised(rows, p, f)),
        find(revised(rows, p, f), tools_of(vm_id)) == match find(rows, tools_of(vm_id)) {
            None => None,
            Some(m) => Some(
                if p(m) {
                    f(m)
                } else {
                    m
                },
            ),
        },
{
    revising_keeps_distinct(rows, machine_of_tools(), p, f);
    assert forall|m: GuestToolsRowView| #[trigger] p(m) implies tools_of(vm_id)(f(m)) == tools_of(
        vm_id,
    )(m) by {
        assert(f(m).vm_id == m.vm_id);
    }
    first_survives(rows, p, f, tools_of(vm_id));
    first_is_first(rows, tools_of(vm_id));
}

/// The tools of a machine, and a rotation that is staged for them.
pub open spec fn rotates(
    db: DatabaseView,
    vm_id: Seq<char>,
    m: GuestToolsRowView,
    p: PendingRotationView,
) -> bool {
    &&& tools_are_distinct(db.guest_tools)
    &&& find(db.guest_tools, tools_of(vm_id)) == Some(m)
    &&& m.enabled
    &&& m.pending == Some(p)
}

/// The tools of a machine, for which no rotation is staged.
pub open spec fn is_settled(db: DatabaseView, vm_id: Seq<char>, m: GuestToolsRowView) -> bool {
    &&& tools_are_distinct(db.guest_tools)
    &&& find(db.guest_tools, tools_of(vm_id)) == Some(m)
    &&& m.enabled
    &&& m.pending is None
}

/// A key is staged for settled tools: it is the staged key then, and the active key stays.
pub proof fn a_key_is_staged(
    db: DatabaseView,
    vm_id: Seq<char>,
    m: GuestToolsRowView,
    secret: Seq<char>,
    p: PendingRotationView,
    now: Timestamp,
)
    requires
        is_settled(db, vm_id, m),
        empty_fault("guest-tools secret"@, secret) is None,
        version_fault("guest-tools version"@, p.desired_version) is None,
        !p.installed,
    ensures
        stage_spec(
            db,
            vm_id,
            p.platform,
            p.provisioner,
            secret,
            p.desired_version,
            p.generation,
            Ok(p.secret_envelope),
            now,
        ) matches Ok(done) && rotates(done.0, vm_id, staged(p, now)(m), p) && staged_key(
            done.0,
            vm_id,
        ) == Some(p) && active_key(done.0, vm_id) == active_key(db, vm_id) && active_key(db, vm_id)
            == Some(m.secret_envelope) && staged_key(db, vm_id) is None,
{
    let rows = db.guest_tools;
    let chosen = settled_tools(vm_id);
    let f = staged(p, now);
    tools_are_looked_up(rows, vm_id, chosen);
    tools_are_looked_up(rows, vm_id, pending_tools(vm_id));
    tools_are_looked_up(rows, vm_id, enabled_tools(vm_id));
    tools_are_changed(rows, vm_id, chosen, f);
    let after = revised(rows, chosen, f);
    tools_are_looked_up(after, vm_id, pending_tools(vm_id));
    tools_are_looked_up(after, vm_id, enabled_tools(vm_id));
}

/// The staged key of a generation is armed, and no other; the active key stays.
pub proof fn a_staged_key_is_armed(
    db: DatabaseView,
    vm_id: Seq<char>,
    m: GuestToolsRowView,
    p: PendingRotationView,
    generation: Seq<char>,
    now: Timestamp,
)
    requires
        rotates(db, vm_id, m, p),
    ensures
        generation == p.generation && generation_fault(generation) is None ==> (
        mark_installed_spec(db, vm_id, generation, now) matches Ok(done) && rotates(
            done.0,
            vm_id,
            arming(now)(m),
            PendingRotationView { installed: true, ..p },
        ) && done.1 == tools_shown(arming(now)(m)) && staged_key(done.0, vm_id) == Some(
            PendingRotationView { installed: true, ..p },
        ) && active_key(done.0, vm_id) == active_key(db, vm_id)),
        generation != p.generation ==> is_refused(
            mark_installed_spec(db, vm_id, generation, now),
            db,
        ),
{
    let rows = db.guest_tools;
    let chosen = rotating_tools(vm_id, generation);
    tools_are_looked_up(rows, vm_id, chosen);
    tools_are_looked_up(rows, vm_id, enabled_tools(vm_id));
    tools_are_changed(rows, vm_id, chosen, arming(now));
    let after = revised(rows, chosen, arming(now));
    tools_are_looked_up(after, vm_id, pending_tools(vm_id));
    tools_are_looked_up(after, vm_id, enabled_tools(vm_id));
}

/// What promotion with the key in an envelope leaves: the rotation is over, its version is
/// the wanted one and the installed one, and the key in the envelope is the active one.
pub open spec fn is_promoted(
    done: (DatabaseView, VmGuestToolsView),
    vm_id: Seq<char>,
    m: GuestToolsRowView,
    p: PendingRotationView,
    envelope: Seq<char>,
    now: Timestamp,
) -> bool {
    &&& done.1 == (VmGuestToolsView {
        platform: p.platform,
        provisioner: p.provisioner,
        desired_version: p.desired_version,
        installed_version: Some(p.desired_version),
        status: GuestToolsStatus::Ready,
        last_seen_at: Some(now),
        last_error: None,
        pending_rotation: false,
        pending_installed: false,
        updated_at: now,
        ..tools_shown(m)
    })
    &&& find(done.0.guest_tools, tools_of(vm_id)) matches Some(n) && is_settled(done.0, vm_id, n)
        && tools_shown(n) == done.1
    &&& active_key(done.0, vm_id) == Some(envelope)
    &&& staged_key(done.0, vm_id) is None
}

/// The armed key of exactly the named generation, whose version the guest reports, is
/// promoted. With another generation or version, before the key is armed, and where it could
/// not be sealed anew, promotion is refused.
pub proof fn an_armed_key_is_promoted(
    db: DatabaseView,
    vm_id: Seq<char>,
    m: GuestToolsRowView,
    p: PendingRotationView,
    generation: Seq<char>,
    version: Seq<char>,
    resealed: Result<Seq<char>, AppErrorView>,
    now: Timestamp,
)
    requires
        rotates(db, vm_id, m, p),
    ensures
        p.installed && generation == p.generation && version == p.desired_version
            && generation_fault(generation) is None && version_fault(
            "installed guest-tools version"@,
            version,
        ) is None && resealed is Ok ==> (promote_spec(
            db,
            vm_id,
            generation,
            version,
            resealed,
            now,
        ) matches Ok(done) && is_promoted(done, vm_id, m, p, resealed->Ok_0, now)),
        !p.installed || generation != p.generation || version != p.desired_version || resealed is Err
            ==> is_refused(promote_spec(db, vm_id, generation, version, resealed, now), db),
{
    let rows = db.guest_tools;
    let chosen = armed_tools(vm_id, generation);
    tools_are_looked_up(rows, vm_id, chosen);
    if resealed is Ok {
        let f = promoted(resealed->Ok_0, now);
        tools_are_changed(rows, vm_id, chosen, f);
        let after = revised(rows, chosen, f);
        tools_are_looked_up(after, vm_id, pending_tools(vm_id));
        tools_are_looked_up(after, vm_id, enabled_tools(vm_id));
    }
}

/// A rotation from end to end. Once its key has been staged and armed, promotion with its
/// generation and version ends it and makes its key the active one; promotion is refused
/// before the key is armed, and with another generation or version.
pub proof fn a_rotation_is_completed(
    db: DatabaseView,
    vm_id: Seq<char>,
    m: GuestToolsRowView,
    secret: Seq<char>,
    p: PendingRotationView,
    envelope: Seq<char>,
    other_generation: Seq<char>,
    other_version: Seq<char>,
    staged_at: Timestamp,
    armed_at: Timestamp,
    now: Timestamp,
)
    requires
        is_settled(db, vm_id, m),
        empty_fault("guest-tools secret"@, secret) is None,
        version_fault("guest-tools version"@, p.desired_version) is None,
        is_canonical_uuid(p.generation),
        !p.installed,
    ensures
        ({
            let start = stage_spec(
                db,
                vm_id,
                p.platform,
                p.provisioner,
                secret,
                p.desired_version,
                p.generation,
                Ok(p.secret_envelope),
                staged_at,
            );
            let arm = mark_installed_spec(start->Ok_0.0, vm_id, p.generation, armed_at);
            let done = promote_spec(
                arm->Ok_0.0,
                vm_id,
                p.generation,
                p.desired_version,
                Ok(envelope),
                now,
            );
            &&& start is Ok
            &&& is_refused(
                promote_spec(
                    start->Ok_0.0,
                    vm_id,
                    p.generation,
                    p.desired_version,
                    Ok(envelope),
                    now,
                ),
                start->Ok_0.0,
            )
            &&& arm is Ok
            &&& done is Ok
            &&& is_promoted(done->Ok_0, vm_id, m, p, envelope, now)
            &&& other_generation != p.generation ==> is_refused(
                promote_spec(
                    arm->Ok_0.0,
                    vm_id,
                    other_generation,
                    p.desired_version,
                    Ok(envelope),
                    now,
                ),
                arm->Ok_0.0,
            )
            &&& other_version != p.desired_version ==> is_refused(
                promote_spec(
                    arm->Ok_0.0,
                    vm_id,
                    p.generation,
                    other_version,
                    Ok(envelope),
                    now,
                ),
                arm->Ok_0.0,
            )
        }),
{
    let sealed = Ok::<Seq<char>, AppErrorView>(envelope);
    a_key_is_staged(db, vm_id, m, secret, p, staged_at);
    let start = stage_spec(
        db,
        vm_id,
        p.platform,
        p.provisioner,
        secret,
        p.desired_version,
        p.generation,
        Ok(p.secret_envelope),
        staged_at,
    )->Ok_0.0;
    let n = staged(p, staged_at)(m);
    an_armed_key_is_promoted(
        start,
        vm_id,
        n,
        p,
        p.generation,
        p.desired_version,
        sealed,
        now,
    );
    a_staged_key_is_armed(start, vm_id, n, p, p.generation, armed_at);
    let arm = mark_installed_spec(start, vm_id, p.generation, armed_at)->Ok_0.0;
    let q = PendingRotationView { installed: true, ..p };
    let o = arming(armed_at)(n);
    an_armed_key_is_promoted(arm, vm_id, o, q, p.generation, p.desired_version, sealed, now);
    an_armed_key_is_promoted(arm, vm_id, o, q, other_generation, p.desired_version, sealed, now);
    an_armed_key_is_promoted(arm, vm_id, o, q, p.generation, other_version, sealed, now);
}

/// The staged key of exactly the named generation is discarded, unless it is armed: then it
/// is kept, and so it is where another generation is named.
pub proof fn an_unarmed_key_is_discarded(
    db: DatabaseView,
    vm_id: Seq<char>,
    m: GuestToolsRowView,
    p: PendingRotationView,
    generation: Seq<char>,
    now: Timestamp,
)
    requires
        rotates(db, vm_id, m, p),
    ensures
        generation == p.generation && !p.installed && generation_fault(generation) is None ==> (
        discard_spec(db, vm_id, generation, now) matches Ok(done) && is_settled(
            done.0,
            vm_id,
            unstaged(now)(m),
        ) && done.1 == tools_shown(unstaged(now)(m)) && active_key(done.0, vm_id) == active_key(
            db,
            vm_id,
        ) && staged_key(done.0, vm_id) is None),
        generation == p.generation && p.installed && generation_fault(generation) is None
            ==> discard_spec(db, vm_id, generation, now) == Err::<
            (DatabaseView, VmGuestToolsView),
            AppErrorView,
        >(AppErrorView::Conflict("an armed Vexa Guest Tools rotation cannot be discarded"@)),
        generation != p.generation || p.installed ==> is_refused(
            discard_spec(db, vm_id, generation, now),
            db,
        ),
        staged_key(db, vm_id) == Some(p),
{
    let rows = db.guest_tools;
    let chosen = discardable_tools(vm_id, generation);
    tools_are_looked_up(rows, vm_id, chosen);
    tools_are_looked_up(rows, vm_id, armed_tools(vm_id, generation));
    tools_are_looked_up(rows, vm_id, enabled_tools(vm_id));
    tools_are_looked_up(rows, vm_id, pending_tools(vm_id));
    tools_are_changed(rows, vm_id, chosen, unstaged(now));
    let after = revised(rows, chosen, unstaged(now));
    tools_are_looked_up(after, vm_id, pending_tools(vm_id));
    tools_are_looked_up(after, vm_id, enabled_tools(vm_id));
}

/// Tools that were changed at a time, and not otherwise.
pub open spec fn touched(now: Timestamp) -> spec_fn(GuestToolsRowView) -> GuestToolsRowView {
    |m: GuestToolsRowView| GuestToolsRowView { updated_at: now, ..m }
}

/// To discard a key that was staged and not armed gives back all that was before it was
/// staged, but for the time of the last change. An armed key is not discarded, nor is one
/// whose generation is not named.
pub proof fn discarding_undoes_staging(
    db: DatabaseView,
    vm_id: Seq<char>,
    m: GuestToolsRowView,
    secret: Seq<char>,
    p: PendingRotationView,
    other_generation: Seq<char>,
    staged_at: Timestamp,
    armed_at: Timestamp,
    now: Timestamp,
)
    requires
        is_settled(db, vm_id, m),
        empty_fault("guest-tools secret"@, secret) is None,
        version_fault("guest-tools version"@, p.desired_version) is None,
        is_canonical_uuid(p.generation),
        !p.installed,
    ensures
        ({
            let start = stage_spec(
                db,
                vm_id,
                p.platform,
                p.provisioner,
                secret,
                p.desired_version,
                p.generation,
                Ok(p.secret_envelope),
                staged_at,
            );
            let arm = mark_installed_spec(start->Ok_0.0, vm_id, p.generation, armed_at);
            let done = discard_spec(start->Ok_0.0, vm_id, p.generation, now);
            &&& start is Ok
            &&& done is Ok
            &&& done->Ok_0.0 == (DatabaseView {
                guest_tools: revised(db.guest_tools, tools_of(vm_id), touched(now)),
                ..db
            })
            &&& done->Ok_0.1 == (VmGuestToolsView { updated_at: now, ..tools_shown(m) })
            &&& active_key(done->Ok_0.0, vm_id) == active_key(db, vm_id)
            &&& staged_key(done->Ok_0.0, vm_id) is None
            &&& arm is Ok
            &&& discard_spec(arm->Ok_0.0, vm_id, p.generation, now) == Err::<
                (DatabaseView, VmGuestToolsView),
                AppErrorView,
            >(AppErrorView::Conflict("an armed Vexa Guest Tools rotation cannot be discarded"@))
            &&& is_refused(
                discard_spec(arm->Ok_0.0, vm_id, p.generation, now),
                arm->Ok_0.0,
            )
            &&& staged_key(arm->Ok_0.0, vm_id) == Some(PendingRotationView { installed: true, ..p })
            &&& other_generation != p.generation ==> is_refused(
                discard_spec(start->Ok_0.0, vm_id, other_generation, now),
                start->Ok_0.0,
            )
            &&& staged_key(start->Ok_0.0, vm_id) == Some(p)
        }),
{
    a_key_is_staged(db, vm_id, m, secret, p, staged_at);
    let start = stage_spec(
        db,
        vm_id,
        p.platform,
        p.provisioner,
        secret,
        p.desired_version,
        p.generation,
        Ok(p.secret_envelope),
        staged_at,
    )->Ok_0.0;
    let n = staged(p, staged_at)(m);
    an_unarmed_key_is_discarded(start, vm_id, n, p, p.generation, now);
    an_unarmed_key_is_discarded(start, vm_id, n, p, other_generation, now);
    a_staged_key_is_armed(start, vm_id, n, p, p.generation, armed_at);
    let arm = mark_installed_spec(start, vm_id, p.generation, armed_at)->Ok_0.0;
    let q = PendingRotationView { installed: true, ..p };
    an_unarmed_key_is_discarded(arm, vm_id, arming(armed_at)(n), q, p.generation, now);
    let rows = db.guest_tools;
    let done = discard_spec(start, vm_id, p.generation, now)->Ok_0.0;
    let expected = revised(rows, tools_of(vm_id), touched(now));
    first_is_first(rows, tools_of(vm_id));
    let k = first(rows, tools_of(vm_id))->0;
    assert forall|i: int| 0 <= i < rows.len() implies #[trigger] done.guest_tools[i]
        == expected[i] by {
        if i != k {
            assert(machine_of_tools()(rows[i]) != machine_of_tools()(rows[k]));
        }
    }
    assert(done.guest_tools =~= expected);
}

} // verus!

//! Keys stay distinct: where no two rows of a table share a key, no operation makes two rows
//! that do. Lookups by key rely on it, and so does every row that is entered anew.

use vstd::prelude::*;

use crate::db::rows::{
    AdminAuthView, AdminRole, GuestToolsPlatform, GuestToolsProvisioner, GuestToolsRowView,
    GuestToolsStatus, HostMetricView, ImportRowView, IpAbuseRecordView, IpAddressRecordView,
    IpBlacklistEntryView, IpBlacklistPatchView, IpPoolPatchView, IpPoolView, IpStatus, IsoImageView,
    JobView, NewAuditEventView, NewIpAbuseRecordView, NewIpAddressView, NewIpBlacklistEntryView,
    NewIpPoolView, NewJobView, NewVmFirewallRuleView, NewVmView, PendingRotationView,
    SettingRecordView, SnapshotState, SnapshotView, Timestamp, VmFirewallRulePatchView,
    VmFirewallRuleView, VmMetricView, VmNetworkSecurityPatchView, VmNetworkSecurityView,
    VmPatchView, VmRowView, VmState, VmTrafficEnforcementView,
};
use crate::db::store::{empty_database, vm_called, vm_with_id, DatabaseView};
use crate::db::addresses::{
    address_called, address_is, address_of_vm, address_of_vm_and_family, address_with_id,
    assign_spec, assigned, delete_address_spec, demoted, details_of, entered, new_address,
    release_spec, set_status_spec, stored_upsert, unassigned, upsert_detected_spec, upsert_spec,
    used_address, AddressDetails,
};
use crate::db::admins::{
    admin_entered_first, admin_named, admin_with_id, admins_distinct, bootstrap_spec,
    change_admin_spec, create_admin_spec, delete_admin_spec, id_of_admin, new_admin, or_value,
    orphaned_setting, other_admin_named, setting_by, trim_option, update_access_spec,
    update_credentials_spec, with_access, with_credentials, with_enabled, with_login,
};
use crate::db::blacklist::{
    abuse_with_id, create_entry_spec, delete_entry_spec, entry_called, entry_with_id,
    patch_entry_spec, patched_entry, record_abuse_spec, resolve_abuse_spec, resolved,
};
use crate::db::guest_tools::{
    armed_tools, arming, cleanup_spec, configure_spec, configured, delete_tools_spec, discard_spec,
    discardable_tools, enabled_tools, generation_field, mark_installed_spec, new_tools,
    promote_spec, promoted, rotating_tools, settled_tools, stage_spec, staged, tools_of,
    unarmed_rotation, unarmed_tools, unstaged, update_status_spec,
};
use crate::db::history::{
    create_snapshot_spec, delete_snapshot_spec, import_of, import_spec, snapshot_in_state,
    snapshot_with_id, update_snapshot_spec,
};
use crate::db::job_recovery::{
    abandoned_rotation, cleaned, lost_creation, lost_rotation, lost_snapshot, lost_start, lost_vm,
    recovered, resumed_jobs, tools_failed,
};
use crate::db::jobs::{
    awaiting_reinstall, cancel_spec, commit_password_spec, enqueue_reinstall_spec, fail_spec,
    in_state, job_with_id, password_field, provisional_vm, reinstalling, snapshot_failed,
    snapshot_in_making,
};
use crate::db::metrics::{
    host_at, host_before, insert_host_metric_spec, insert_vm_metric_spec, vm_at, vm_before,
    with_traffic,
};
use crate::db::network_security::{
    applied, bumped, create_rule_spec, delete_rule_spec, link_of, mark_applied_spec, merged_rule,
    normalized_rule, patch_policy_spec, patch_rule_spec, patched_policy, policy_of, rule_called,
    rule_of, rule_with_id, safe_default, set_traffic_spec, untouched_preset, with_rule,
};
use crate::db::pools::{
    address_in_pool, create_pool_spec, delete_pool_spec, delete_pool_with_addresses_spec, or_option,
    patch_pool_spec, patched_pool, pool_with_id,
};
use crate::db::removal::{abuse_of_vm, delete_vm_spec, metric_of_vm, orphaned_abuse, snapshot_of_vm};
use crate::db::settings::{
    iso_with_id, reentered_iso, replaced_dns, set_network_spec, set_setting_spec, setting_with_key,
    stored_setting, upsert_iso_spec, with_value,
};
use crate::db::vms::{
    change_vm_spec, create_vm_with_password_spec, insert_vm_spec, new_network_security,
    other_vm_named, patch_vm_spec, patched_vm, reconcile_spec, saved, set_password_envelope_spec,
    set_password_spec, vm_named, with_name, with_password, with_state,
};
use crate::error::AppErrorView;
use crate::json::{texts_json, Json};
use crate::net::{
    canonical_ip_spec, canonical_optional_ip_spec, dns_addresses, ip_text, ip_value, net_value,
    AddressFamily, Ip,
};
use crate::table::{
    all, any, appending_keeps_distinct, distinct_by, find, first_is_first, least_of_some, list,
    others, others_has, removing_keeps_distinct, replaced_by, revised, revising_keeps_distinct,
};
use crate::text::{ascii_lower, equal_ignoring_case, lowercase, trim_spec};

verus! {

broadcast use vstd::string::group_string_axioms;

/// The identifier of a machine.
pub open spec fn id_of_machine() -> spec_fn(VmRowView) -> Seq<char> {
    |m: VmRowView| m.vm.id
}

/// The name of a machine, without regard to case.
pub open spec fn name_of_machine() -> spec_fn(VmRowView) -> Seq<char> {
    |m: VmRowView| lowercase(m.vm.name)
}

/// No two machines share an identifier or a name; the case of a name does not matter.
pub open spec fn machines_are_distinct(rows: Seq<VmRowView>) -> bool {
    distinct_by(rows, id_of_machine()) && distinct_by(rows, name_of_machine())
}

proof fn folded_names(a: Seq<char>, b: Seq<char>)
    ensures
        equal_ignoring_case(a, b) <==> lowercase(a) == lowercase(b),
{
    let x = lowercase(a);
    let y = lowercase(b);
    if x == y {
        assert(x.len() == a.len() && y.len() == b.len());
        assert forall|i: int| 0 <= i < a.len() implies ascii_lower(#[trigger] a[i]) == ascii_lower(
            b[i],
        ) by {
            assert(x[i] == ascii_lower(a[i]) && y[i] == ascii_lower(b[i]));
        }
    }
    if equal_ignoring_case(a, b) {
        assert(x =~= y);
    }
}

proof fn revising_keeps_machines(
    rows: Seq<VmRowView>,
    p: spec_fn(VmRowView) -> bool,
    f: spec_fn(VmRowView) -> VmRowView,
)
    requires
        machines_are_distinct(rows),
        forall|m: VmRowView| #![trigger f(m)] f(m).vm.id == m.vm.id && f(m).vm.name == m.vm.name,
    ensures
        machines_are_distinct(revised(rows, p, f)),
{
    revising_keeps_distinct(rows, id_of_machine(), p, f);
    revising_keeps_distinct(rows, name_of_machine(), p, f);
}

proof fn removing_keeps_machines(rows: Seq<VmRowView>, p: spec_fn(VmRowView) -> bool)
    requires
        machines_are_distinct(rows),
    ensures
        machines_are_distinct(others(rows, p)),
{
    removing_keeps_distinct(rows, id_of_machine(), p);
    removing_keeps_distinct(rows, name_of_machine(), p);
}

/// Entering a machine, giving it another name and changing it keep the machines distinct.
pub proof fn machines_stay_distinct(
    db: DatabaseView,
    id: Seq<char>,
    spec: NewVmView,
    envelope: Option<Seq<char>>,
    password: Seq<char>,
    sealed: Result<Seq<char>, AppErrorView>,
    name: Seq<char>,
    patch: VmPatchView,
    state: VmState,
    desired_state: Option<VmState>,
    libvirt_uuid: Option<Seq<char>>,
    vnc_display: Option<i64>,
    metric: VmMetricView,
    now: Timestamp,
)
    requires
        machines_are_distinct(db.vms),
    ensures
        machines_are_distinct(empty_database(now).vms),
        insert_vm_spec(db, id, spec, envelope, now) matches Ok(done) ==> machines_are_distinct(
            done.0.vms,
        ),
        create_vm_with_password_spec(db, spec, password, sealed, id, now) matches Ok(done)
            ==> machines_are_distinct(done.0.vms),
        reconcile_spec(db, id, name, now) matches Ok(done) ==> machines_are_distinct(done.0.vms),
        patch_vm_spec(db, id, patch, now) matches Ok(done) ==> machines_are_distinct(done.0.vms),
        change_vm_spec(
            db,
            vm_called(id),
            with_state(state, desired_state, libvirt_uuid, vnc_display, now),
        ) matches Ok(done) ==> machines_are_distinct(done.0.vms),
        change_vm_spec(db, vm_with_id(id), with_password(envelope, now)) matches Ok(done)
            ==> machines_are_distinct(done.0.vms),
        set_password_envelope_spec(db, id, password, now) matches Ok(done)
            ==> machines_are_distinct(done.0.vms),
        set_password_spec(db, id, password, sealed, now) matches Ok(done)
            ==> machines_are_distinct(done.0.vms),
        insert_vm_metric_spec(db, metric) matches Ok(done) ==> machines_are_distinct(done.0.vms),
        delete_vm_spec(db, id, now) matches Ok(done) ==> machines_are_distinct(done.0.vms),
{
    let rows = db.vms;
    inserting_keeps_machines(db, id, spec, envelope, now);
    if sealed is Ok {
        inserting_keeps_machines(db, id, spec, Some(sealed->Ok_0), now);
        revising_keeps_machines(
            rows,
            vm_with_id(id),
            with_password(Some(sealed->Ok_0), now),
        );
    }
    renaming_keeps_machines(db, id, name, now);
    if any(rows, vm_called(id)) {
        let m = find(rows, vm_called(id))->0;
        revising_keeps_machines(rows, vm_with_id(m.vm.id), saved(patched_vm(m.vm, patch, now)));
        removing_keeps_machines(rows, vm_with_id(m.vm.id));
    }
    revising_keeps_machines(
        rows,
        vm_called(id),
        with_state(state, desired_state, libvirt_uuid, vnc_display, now),
    );
    revising_keeps_machines(rows, vm_with_id(id), with_password(envelope, now));
    revising_keeps_machines(rows, vm_with_id(id), with_password(Some(password), now));
    revising_keeps_machines(
        rows,
        vm_with_id(metric.vm_id),
        with_traffic(metric.traffic_used_bytes, metric.sampled_at),
    );
}

proof fn inserting_keeps_machines(
    db: DatabaseView,
    id: Seq<char>,
    spec: NewVmView,
    envelope: Option<Seq<char>>,
    now: Timestamp,
)
    requires
        machines_are_distinct(db.vms),
    ensures
        insert_vm_spec(db, id, spec, envelope, now) matches Ok(done) ==> machines_are_distinct(
            done.0.vms,
        ),
{
    let done = insert_vm_spec(db, id, spec, envelope, now);
    if done is Ok {
        let row = done->Ok_0.0.vms.last();
        let name = trim_spec(spec.name);
        first_is_first(db.vms, vm_with_id(id));
        first_is_first(db.vms, vm_named(name));
        appending_keeps_distinct(db.vms, id_of_machine(), row);
        assert forall|i: int| 0 <= i < db.vms.len() implies name_of_machine()(
            #[trigger] db.vms[i],
        ) != name_of_machine()(row) by {
            folded_names(db.vms[i].vm.name, name);
            assert(!vm_named(name)(db.vms[i]));
        }
        appending_keeps_distinct(db.vms, name_of_machine(), row);
    }
}

proof fn renaming_keeps_machines(db: DatabaseView, id: Seq<char>, name: Seq<char>, now: Timestamp)
    requires
        machines_are_distinct(db.vms),
    ensures
        reconcile_spec(db, id, name, now) matches Ok(done) ==> machines_are_distinct(done.0.vms),
{
    let rows = db.vms;
    let p = vm_with_id(id);
    let f = with_name(trim_spec(name), now);
    if reconcile_spec(db, id, name, now) is Ok {
        let after = revised(rows, p, f);
        revising_keeps_distinct(rows, id_of_machine(), p, f);
        first_is_first(rows, other_vm_named(id, trim_spec(name)));
        assert forall|i: int, j: int| 0 <= i < j < after.len() implies name_of_machine()(
            #[trigger] after[i],
        ) != name_of_machine()(#[trigger] after[j]) by {
            assert(id_of_machine()(rows[i]) != id_of_machine()(rows[j]));
            assert(name_of_machine()(rows[i]) != name_of_machine()(rows[j]));
            folded_names(rows[i].vm.name, trim_spec(name));
            folded_names(rows[j].vm.name, trim_spec(name));
            assert(!other_vm_named(id, trim_spec(name))(rows[i]));
            assert(!other_vm_named(id, trim_spec(name))(rows[j]));
        }
    }
}

/// What jobs do to machines keeps the machines distinct.
pub proof fn jobs_keep_machines_distinct(
    db: DatabaseView,
    request: NewJobView,
    envelope: Option<Seq<char>>,
    desired_state: VmState,
    id: Seq<char>,
    now: Timestamp,
)
    requires
        machines_are_distinct(db.vms),
    ensures
        enqueue_reinstall_spec(db, request, envelope, desired_state, id, now) matches Ok(done)
            ==> machines_are_distinct(done.0.vms),
        commit_password_spec(db, id, now) matches Ok(done) ==> machines_are_distinct(done.0.vms),
        cancel_spec(db, id, now) matches Ok(done) ==> machines_are_distinct(done.0.vms),
        machines_are_distinct(recovered(db, now).vms),
{
    let rows = db.vms;
    if request.vm_id is Some {
        revising_keeps_machines(
            rows,
            vm_with_id(request.vm_id->0),
            reinstalling(desired_state, now),
        );
    }
    if any(db.jobs, job_with_id(id)) {
        let m = find(db.jobs, job_with_id(id))->0;
        if m.vm_id is Some {
            let vm_id = m.vm_id->0;
            revising_keeps_machines(rows, vm_with_id(vm_id), with_password(None, now));
            let staged = m.payload.text_member(password_field());
            if staged is Some {
                revising_keeps_machines(rows, vm_with_id(vm_id), with_password(staged, now));
            }
            removing_keeps_machines(rows, provisional_vm(vm_id));
            revising_keeps_machines(
                rows,
                awaiting_reinstall(vm_id),
                in_state(VmState::Unknown, now),
            );
        }
    }
    revising_keeps_machines(
        rows,
        lost_vm(resumed_jobs(db.jobs, now)),
        in_state(VmState::Error, now),
    );
}

/// The name of an administrator, without regard to case.
pub open spec fn name_of_admin() -> spec_fn(AdminAuthView) -> Seq<char> {
    |m: AdminAuthView| lowercase(m.admin.username)
}

/// No two administrators share an identifier or a name; the case of a name does not matter.
pub open spec fn administrators_are_distinct(rows: Seq<AdminAuthView>) -> bool {
    admins_distinct(rows) && distinct_by(rows, name_of_admin())
}

proof fn revising_keeps_administrators(
    rows: Seq<AdminAuthView>,
    p: spec_fn(AdminAuthView) -> bool,
    f: spec_fn(AdminAuthView) -> AdminAuthView,
)
    requires
        administrators_are_distinct(rows),
        forall|m: AdminAuthView|
            #![trigger f(m)]
            f(m).admin.id == m.admin.id && f(m).admin.username == m.admin.username,
    ensures
        administrators_are_distinct(revised(rows, p, f)),
{
    revising_keeps_distinct(rows, id_of_admin(), p, f);
    revising_keeps_distinct(rows, name_of_admin(), p, f);
}

/// Entering an administrator, changing one and removing one keep the administrators distinct.
pub proof fn administrators_stay_distinct(
    db: DatabaseView,
    id: Seq<char>,
    username: Seq<char>,
    password_hash: Seq<char>,
    role: AdminRole,
    new_username: Option<Seq<char>>,
    new_password_hash: Option<Seq<char>>,
    new_role: Option<AdminRole>,
    new_enabled: Option<bool>,
    enabled: bool,
    now: Timestamp,
)
    requires
        administrators_are_distinct(db.admins),
    ensures
        administrators_are_distinct(empty_database(now).admins),
        bootstrap_spec(db, username, password_hash, id, now) matches Ok(done)
            ==> administrators_are_distinct(done.0.admins),
        create_admin_spec(db, username, password_hash, role, id, now) matches Ok(done)
            ==> administrators_are_distinct(done.0.admins),
        update_credentials_spec(db, id, new_username, new_password_hash, now) matches Ok(done)
            ==> administrators_are_distinct(done.0.admins),
        update_access_spec(db, id, new_role, new_enabled, now) matches Ok(done)
            ==> administrators_are_distinct(done.0.admins),
        change_admin_spec(db, id, with_enabled(enabled, now)) matches Ok(done)
            ==> administrators_are_distinct(done.0.admins),
        change_admin_spec(db, id, with_login(now)) matches Ok(done)
            ==> administrators_are_distinct(done.0.admins),
        delete_admin_spec(db, id) matches Ok(done) ==> administrators_are_distinct(
            done.0.admins,
        ),
{
    let rows = db.admins;
    let p = admin_with_id(id);
    least_of_some(rows, all(), admin_entered_first());
    if create_admin_spec(db, username, password_hash, role, id, now) is Ok {
        let row = new_admin(id, username, password_hash, role, now);
        let name = trim_spec(username);
        first_is_first(rows, p);
        first_is_first(rows, admin_named(name));
        appending_keeps_distinct(rows, id_of_admin(), row);
        assert forall|i: int| 0 <= i < rows.len() implies name_of_admin()(#[trigger] rows[i])
            != name_of_admin()(row) by {
            folded_names(rows[i].admin.username, name);
            assert(!admin_named(name)(rows[i]));
        }
        appending_keeps_distinct(rows, name_of_admin(), row);
    }
    renaming_keeps_administrators(db, id, new_username, new_password_hash, now);
    if any(rows, p) {
        let m = find(rows, p)->0;
        revising_keeps_administrators(
            rows,
            p,
            with_access(
                or_value(new_role, m.admin.role),
                or_value(new_enabled, m.admin.enabled),
                now,
            ),
        );
    }
    revising_keeps_administrators(rows, p, with_enabled(enabled, now));
    revising_keeps_administrators(rows, p, with_login(now));
    removing_keeps_distinct(rows, id_of_admin(), p);
    removing_keeps_distinct(rows, name_of_admin(), p);
}

proof fn renaming_keeps_administrators(
    db: DatabaseView,
    id: Seq<char>,
    username: Option<Seq<char>>,
    password_hash: Option<Seq<char>>,
    now: Timestamp,
)
    requires
        administrators_are_distinct(db.admins),
    ensures
        update_credentials_spec(db, id, username, password_hash, now) matches Ok(done)
            ==> administrators_are_distinct(done.0.admins),
{
    let rows = db.admins;
    let p = admin_with_id(id);
    let name = trim_option(username);
    let f = with_credentials(name, password_hash, now);
    revising_keeps_distinct(rows, id_of_admin(), p, f);
    if name is None {
        revising_keeps_administrators(rows, p, f);
    } else if !any(rows, other_admin_named(id, name->0)) {
        let after = revised(rows, p, f);
        first_is_first(rows, other_admin_named(id, name->0));
        assert forall|i: int, j: int| 0 <= i < j < after.len() implies name_of_admin()(
            #[trigger] after[i],
        ) != name_of_admin()(#[trigger] after[j]) by {
            assert(id_of_admin()(rows[i]) != id_of_admin()(rows[j]));
            assert(name_of_admin()(rows[i]) != name_of_admin()(rows[j]));
            folded_names(rows[i].admin.username, name->0);
            folded_names(rows[j].admin.username, name->0);
            assert(!other_admin_named(id, name->0)(rows[i]));
            assert(!other_admin_named(id, name->0)(rows[j]));
        }
    }
}

/// The machine that some tools belong to.
pub open spec fn machine_of_tools() -> spec_fn(GuestToolsRowView) -> Seq<char> {
    |m: GuestToolsRowView| m.vm_id
}

/// No machine has two rows of tools.
pub open spec fn tools_are_distinct(rows: Seq<GuestToolsRowView>) -> bool {
    distinct_by(rows, machine_of_tools())
}

/// Every operation on tools keeps one row of them for each machine.
pub proof fn tools_stay_distinct(
    db: DatabaseView,
    vm_id: Seq<char>,
    platform: GuestToolsPlatform,
    provisioner: GuestToolsProvisioner,
    secret: Seq<char>,
    version: Seq<char>,
    generation: Seq<char>,
    sealed: Result<Seq<char>, AppErrorView>,
    status: GuestToolsStatus,
    installed_version: Option<Seq<char>>,
    last_error: Option<Seq<char>>,
    contacted: bool,
    now: Timestamp,
)
    requires
        tools_are_distinct(db.guest_tools),
    ensures
        tools_are_distinct(empty_database(now).guest_tools),
        configure_spec(
            db,
            vm_id,
            platform,
            provisioner,
            secret,
            version,
            sealed,
            now,
        ) matches Ok(done) ==> tools_are_distinct(done.0.guest_tools),
        delete_tools_spec(db, vm_id) matches Ok(done) ==> tools_are_distinct(done.0.guest_tools),
        stage_spec(
            db,
            vm_id,
            platform,
            provisioner,
            secret,
            version,
            generation,
            sealed,
            now,
        ) matches Ok(done) ==> tools_are_distinct(done.0.guest_tools),
        mark_installed_spec(db, vm_id, generation, now) matches Ok(done) ==> tools_are_distinct(
            done.0.guest_tools,
        ),
        promote_spec(db, vm_id, generation, version, sealed, now) matches Ok(done)
            ==> tools_are_distinct(done.0.guest_tools),
        discard_spec(db, vm_id, generation, now) matches Ok(done) ==> tools_are_distinct(
            done.0.guest_tools,
        ),
        update_status_spec(
            db,
            vm_id,
            status,
            installed_version,
            last_error,
            contacted,
            now,
        ) matches Ok(done) ==> tools_are_distinct(done.0.guest_tools),
        tools_are_distinct(others(db.guest_tools, tools_of(vm_id))),
        delete_vm_spec(db, vm_id, now) matches Ok(done) ==> tools_are_distinct(
            done.0.guest_tools,
        ),
{
    let rows = db.guest_tools;
    let key = machine_of_tools();
    first_is_first(rows, tools_of(vm_id));
    if sealed is Ok {
        let envelope = sealed->Ok_0;
        if !any(rows, tools_of(vm_id)) {
            appending_keeps_distinct(
                rows,
                key,
                new_tools(vm_id, platform, provisioner, envelope, version, now),
            );
        }
        revising_keeps_distinct(
            rows,
            key,
            unarmed_tools(vm_id),
            configured(platform, provisioner, envelope, version, now),
        );
        let pending = PendingRotationView {
            secret_envelope: envelope,
            platform,
            provisioner,
            desired_version: version,
            generation,
            installed: false,
        };
        revising_keeps_distinct(rows, key, settled_tools(vm_id), staged(pending, now));
        revising_keeps_distinct(
            rows,
            key,
            armed_tools(vm_id, generation),
            promoted(envelope, now),
        );
    }
    removing_keeps_distinct(rows, key, unarmed_tools(vm_id));
    revising_keeps_distinct(rows, key, rotating_tools(vm_id, generation), arming(now));
    revising_keeps_distinct(rows, key, discardable_tools(vm_id, generation), unstaged(now));
    revising_keeps_distinct(
        rows,
        key,
        enabled_tools(vm_id),
        crate::db::guest_tools::with_status(status, installed_version, last_error, contacted, now),
    );
    removing_keeps_distinct(rows, key, tools_of(vm_id));
    if any(db.vms, vm_called(vm_id)) {
        removing_keeps_distinct(rows, key, tools_of(find(db.vms, vm_called(vm_id))->0.vm.id));
    }
}

proof fn cleaning_keeps_tools(tools: Seq<GuestToolsRowView>, job: JobView, now: Timestamp)
    requires
        tools_are_distinct(tools),
    ensures
        tools_are_distinct(cleanup_spec(tools, job, now)),
{
    let generation = job.payload.text_member(generation_field());
    if job.vm_id is Some && generation is Some {
        let p = unarmed_rotation(job.vm_id->0, generation->0);
        removing_keeps_distinct(tools, machine_of_tools(), p);
        revising_keeps_distinct(tools, machine_of_tools(), p, unstaged(now));
    }
}

proof fn cleaning_all_keeps_tools(
    tools: Seq<GuestToolsRowView>,
    jobs: Seq<JobView>,
    now: Timestamp,
)
    requires
        tools_are_distinct(tools),
    ensures
        tools_are_distinct(cleaned(tools, jobs, now)),
    decreases jobs.len(),
{
    if jobs.len() > 0 {
        cleaning_all_keeps_tools(tools, jobs.drop_last(), now);
        cleaning_keeps_tools(cleaned(tools, jobs.drop_last(), now), jobs.last(), now);
    }
}

/// What jobs do to tools keeps one row of them for each machine.
pub proof fn jobs_keep_tools_distinct(
    db: DatabaseView,
    id: Seq<char>,
    error: Seq<char>,
    retry_at: Option<Timestamp>,
    now: Timestamp,
)
    requires
        tools_are_distinct(db.guest_tools),
    ensures
        fail_spec(db, id, error, retry_at, now) matches Ok(done) ==> tools_are_distinct(
            done.0.guest_tools,
        ),
        cancel_spec(db, id, now) matches Ok(done) ==> tools_are_distinct(done.0.guest_tools),
        tools_are_distinct(recovered(db, now).guest_tools),
{
    let rows = db.guest_tools;
    let key = machine_of_tools();
    if any(db.jobs, job_with_id(id)) {
        let m = find(db.jobs, job_with_id(id))->0;
        cleaning_keeps_tools(rows, m, now);
        if m.vm_id is Some {
            removing_keeps_distinct(rows, key, tools_of(m.vm_id->0));
        }
    }
    cleaning_all_keeps_tools(rows, db.jobs, now);
    let jobs = resumed_jobs(db.jobs, now);
    let start = cleaned(rows, db.jobs, now);
    revising_keeps_distinct(start, key, abandoned_rotation(jobs), unstaged(now));
    let unstaged_tools = revised(start, abandoned_rotation(jobs), unstaged(now));
    let lost = tools_failed(
        "reinstall worker interrupted after Guest Tools media was armed"@,
        now,
    );
    revising_keeps_distinct(unstaged_tools, key, lost_rotation(jobs), lost);
    let rotations = revised(unstaged_tools, lost_rotation(jobs), lost);
    let unmade = tools_failed(
        "VM creation worker interrupted before Guest Tools bootstrap"@,
        now,
    );
    revising_keeps_distinct(rotations, key, lost_creation(jobs), unmade);
    let creations = revised(rotations, lost_creation(jobs), unmade);
    revising_keeps_distinct(
        creations,
        key,
        lost_start(jobs),
        tools_failed("Guest Tools bootstrap worker interrupted before completion"@, now),
    );
}

/// The text of an address of the inventory.
pub open spec fn text_of_address() -> spec_fn(IpAddressRecordView) -> Seq<char> {
    |m: IpAddressRecordView| m.address
}

/// The identifier of an address of the inventory.
pub open spec fn id_of_address() -> spec_fn(IpAddressRecordView) -> Seq<char> {
    |m: IpAddressRecordView| m.id
}

/// No address stands twice in the inventory, and no identifier does.
pub open spec fn addresses_are_distinct(rows: Seq<IpAddressRecordView>) -> bool {
    distinct_by(rows, text_of_address()) && distinct_by(rows, id_of_address())
}

proof fn revising_keeps_addresses(
    rows: Seq<IpAddressRecordView>,
    p: spec_fn(IpAddressRecordView) -> bool,
    f: spec_fn(IpAddressRecordView) -> IpAddressRecordView,
)
    requires
        addresses_are_distinct(rows),
        forall|m: IpAddressRecordView|
            #![trigger f(m)]
            f(m).id == m.id && f(m).address == m.address,
    ensures
        addresses_are_distinct(revised(rows, p, f)),
{
    revising_keeps_distinct(rows, text_of_address(), p, f);
    revising_keeps_distinct(rows, id_of_address(), p, f);
}

proof fn removing_keeps_addresses(
    rows: Seq<IpAddressRecordView>,
    p: spec_fn(IpAddressRecordView) -> bool,
)
    requires
        addresses_are_distinct(rows),
    ensures
        addresses_are_distinct(others(rows, p)),
{
    removing_keeps_distinct(rows, text_of_address(), p);
    removing_keeps_distinct(rows, id_of_address(), p);
}

proof fn storing_keeps_addresses(
    db: DatabaseView,
    ip: Ip,
    spec: NewIpAddressView,
    details: AddressDetails,
    existing: Option<IpAddressRecordView>,
    id: Seq<char>,
    now: Timestamp,
)
    requires
        addresses_are_distinct(db.ip_addresses),
    ensures
        stored_upsert(db, ip, spec, details, existing, id, now) matches Ok(done)
            ==> addresses_are_distinct(done.0.ip_addresses),
{
    let rows = db.ip_addresses;
    let row_id = match existing {
        Some(m) => m.id,
        None => id,
    };
    first_is_first(rows, address_is(ip_text(ip)));
    first_is_first(rows, address_with_id(row_id));
    revising_keeps_addresses(rows, address_is(ip_text(ip)), entered(ip, spec, details, now));
    if !any(rows, address_is(ip_text(ip))) && !any(rows, address_with_id(row_id)) {
        let row = new_address(ip, spec, details, row_id, now);
        appending_keeps_distinct(rows, text_of_address(), row);
        appending_keeps_distinct(rows, id_of_address(), row);
    }
}

/// Every operation on addresses keeps them distinct.
pub proof fn addresses_stay_distinct(
    db: DatabaseView,
    spec: NewIpAddressView,
    preserve_main: bool,
    id: Seq<char>,
    address: Seq<char>,
    vm_id: Seq<char>,
    primary: bool,
    status: IpStatus,
    now: Timestamp,
)
    requires
        addresses_are_distinct(db.ip_addresses),
    ensures
        addresses_are_distinct(empty_database(now).ip_addresses),
        upsert_spec(db, spec, preserve_main, id, now) matches Ok(done) ==> addresses_are_distinct(
            done.0.ip_addresses,
        ),
        upsert_detected_spec(db, spec, id, now) matches Ok(done) ==> addresses_are_distinct(
            done.0.ip_addresses,
        ),
        delete_address_spec(db, address) matches Ok(done) ==> addresses_are_distinct(
            done.0.ip_addresses,
        ),
        assign_spec(db, address, vm_id, primary, now) matches Ok(done) ==> addresses_are_distinct(
            done.0.ip_addresses,
        ),
        release_spec(db, address, now) matches Ok(done) ==> addresses_are_distinct(
            done.0.ip_addresses,
        ),
        set_status_spec(db, address, status, now) matches Ok(done) ==> addresses_are_distinct(
            done.0.ip_addresses,
        ),
        delete_pool_with_addresses_spec(db, id) matches Ok(done) ==> addresses_are_distinct(
            done.0.ip_addresses,
        ),
        delete_vm_spec(db, vm_id, now) matches Ok(done) ==> addresses_are_distinct(
            done.0.ip_addresses,
        ),
        cancel_spec(db, id, now) matches Ok(done) ==> addresses_are_distinct(done.0.ip_addresses),
{
    let rows = db.ip_addresses;
    entering_keeps_addresses(db, spec, preserve_main, id, now);
    entering_keeps_addresses(db, spec, true, id, now);
    if any(rows, address_called(address)) {
        removing_keeps_addresses(rows, address_with_id(find(rows, address_called(address))->0.id));
    }
    if canonical_ip_spec(address) is Ok {
        let text = canonical_ip_spec(address)->Ok_0;
        if any(rows, address_called(text)) {
            let family = find(rows, address_called(text))->0.family;
            let p = address_of_vm_and_family(vm_id, family);
            revising_keeps_addresses(rows, p, demoted(now));
            let before = if primary {
                revised(rows, p, demoted(now))
            } else {
                rows
            };
            revising_keeps_addresses(before, address_is(text), assigned(vm_id, primary, now));
        }
        revising_keeps_addresses(rows, used_address(text), unassigned(IpStatus::Free, now));
        revising_keeps_addresses(rows, address_is(text), unassigned(status, now));
    }
    removing_keeps_addresses(rows, address_in_pool(id));
    if any(db.vms, vm_called(vm_id)) {
        revising_keeps_addresses(
            rows,
            address_of_vm(find(db.vms, vm_called(vm_id))->0.vm.id),
            unassigned(IpStatus::Free, now),
        );
    }
    if any(db.jobs, job_with_id(id)) && find(db.jobs, job_with_id(id))->0.vm_id is Some {
        revising_keeps_addresses(
            rows,
            address_of_vm(find(db.jobs, job_with_id(id))->0.vm_id->0),
            unassigned(IpStatus::Free, now),
        );
    }
}

proof fn entering_keeps_addresses(
    db: DatabaseView,
    spec: NewIpAddressView,
    preserve_main: bool,
    id: Seq<char>,
    now: Timestamp,
)
    requires
        addresses_are_distinct(db.ip_addresses),
    ensures
        upsert_spec(db, spec, preserve_main, id, now) matches Ok(done) ==> addresses_are_distinct(
            done.0.ip_addresses,
        ),
{
    if ip_value(spec.address) is Some {
        let ip = ip_value(spec.address)->0;
        let existing = find(db.ip_addresses, address_called(ip_text(ip)));
        let gateway = canonical_optional_ip_spec(spec.gateway, Some(AddressFamily::of(ip)));
        if gateway is Ok {
            let details = details_of(existing, spec, gateway->Ok_0, preserve_main);
            if details is Ok {
                storing_keeps_addresses(db, ip, spec, details->Ok_0, existing, id, now);
            }
        }
    }
}

/// The identifier of a firewall rule.
pub open spec fn id_of_rule() -> spec_fn(VmFirewallRuleView) -> Seq<char> {
    |m: VmFirewallRuleView| m.id
}

/// No two firewall rules share an identifier, whatever is done with the rules.
pub proof fn rules_stay_distinct(
    db: DatabaseView,
    vm_id: Seq<char>,
    spec: NewVmFirewallRuleView,
    owner_type: Seq<char>,
    owner_id: Option<Seq<char>>,
    limit: u64,
    id: Seq<char>,
    patch: VmFirewallRulePatchView,
    now: Timestamp,
)
    requires
        distinct_by(db.firewall_rules, id_of_rule()),
    ensures
        distinct_by(empty_database(now).firewall_rules, id_of_rule()),
        create_rule_spec(
            db,
            vm_id,
            spec,
            owner_type,
            owner_id,
            limit,
            id,
            now,
        ) matches Ok(done) ==> distinct_by(done.0.firewall_rules, id_of_rule()),
        patch_rule_spec(db, vm_id, id, patch, now) matches Ok(done) ==> distinct_by(
            done.0.firewall_rules,
            id_of_rule(),
        ),
        delete_rule_spec(db, vm_id, id, now) matches Ok(done) ==> distinct_by(
            done.0.firewall_rules,
            id_of_rule(),
        ),
        delete_vm_spec(db, vm_id, now) matches Ok(done) ==> distinct_by(
            done.0.firewall_rules,
            id_of_rule(),
        ),
        cancel_spec(db, id, now) matches Ok(done) ==> distinct_by(
            done.0.firewall_rules,
            id_of_rule(),
        ),
{
    let rows = db.firewall_rules;
    let key = id_of_rule();
    let made = create_rule_spec(db, vm_id, spec, owner_type, owner_id, limit, id, now);
    if made is Ok {
        first_is_first(rows, rule_with_id(id));
        appending_keeps_distinct(rows, key, made->Ok_0.1);
    }
    if any(rows, rule_called(vm_id, id)) {
        let next = normalized_rule(merged_rule(find(rows, rule_called(vm_id, id))->0, patch));
        if next is Ok {
            revising_keeps_distinct(
                rows,
                key,
                rule_called(vm_id, id),
                with_rule(next->Ok_0, now),
            );
        }
    }
    removing_keeps_distinct(rows, key, rule_called(vm_id, id));
    if any(db.vms, vm_called(vm_id)) {
        removing_keeps_distinct(rows, key, rule_of(find(db.vms, vm_called(vm_id))->0.vm.id));
    }
    if any(db.jobs, job_with_id(id)) && find(db.jobs, job_with_id(id))->0.vm_id is Some {
        removing_keeps_distinct(rows, key, rule_of(find(db.jobs, job_with_id(id))->0.vm_id->0));
    }
}

/// The identifier of a range of addresses.
pub open spec fn id_of_pool() -> spec_fn(IpPoolView) -> Seq<char> {
    |m: IpPoolView| m.id
}

/// The identifier of a barred network.
pub open spec fn id_of_entry() -> spec_fn(IpBlacklistEntryView) -> Seq<char> {
    |m: IpBlacklistEntryView| m.id
}

/// The identifier of a complaint.
pub open spec fn id_of_abuse() -> spec_fn(IpAbuseRecordView) -> Seq<char> {
    |m: IpAbuseRecordView| m.id
}

/// No two ranges, no two barred networks and no two complaints share an identifier.
pub open spec fn network_records_are_distinct(db: DatabaseView) -> bool {
    &&& distinct_by(db.ip_pools, id_of_pool())
    &&& distinct_by(db.ip_blacklist, id_of_entry())
    &&& distinct_by(db.ip_abuse, id_of_abuse())
}

/// Ranges, barred networks and complaints keep their identifiers distinct.
pub proof fn network_records_stay_distinct(
    db: DatabaseView,
    pool: NewIpPoolView,
    pool_patch: IpPoolPatchView,
    entry: NewIpBlacklistEntryView,
    entry_patch: IpBlacklistPatchView,
    abuse: NewIpAbuseRecordView,
    resolved_by: Option<Seq<char>>,
    resolution: Seq<char>,
    id: Seq<char>,
    now: Timestamp,
)
    requires
        network_records_are_distinct(db),
    ensures
        network_records_are_distinct(empty_database(now)),
        create_pool_spec(db, pool, id, now) matches Ok(done) ==> network_records_are_distinct(
            done.0,
        ),
        patch_pool_spec(db, id, pool_patch, now) matches Ok(done) ==> network_records_are_distinct(
            done.0,
        ),
        delete_pool_spec(db, id) matches Ok(done) ==> network_records_are_distinct(done.0),
        delete_pool_with_addresses_spec(db, id) matches Ok(done) ==> network_records_are_distinct(
            done.0,
        ),
        create_entry_spec(db, entry, id, now) matches Ok(done) ==> network_records_are_distinct(
            done.0,
        ),
        patch_entry_spec(db, id, entry_patch, now) matches Ok(done)
            ==> network_records_are_distinct(done.0),
        delete_entry_spec(db, id) matches Ok(done) ==> network_records_are_distinct(done.0),
        record_abuse_spec(db, abuse, id, now) matches Ok(done) ==> network_records_are_distinct(
            done.0,
        ),
        resolve_abuse_spec(db, id, resolved_by, resolution, now) matches Ok(done)
            ==> network_records_are_distinct(done.0),
        delete_vm_spec(db, id, now) matches Ok(done) ==> network_records_are_distinct(done.0),
        cancel_spec(db, id, now) matches Ok(done) ==> network_records_are_distinct(done.0),
{
    let pools = db.ip_pools;
    let made_pool = create_pool_spec(db, pool, id, now);
    if made_pool is Ok {
        first_is_first(pools, pool_with_id(id));
        appending_keeps_distinct(pools, id_of_pool(), made_pool->Ok_0.1);
    }
    if any(pools, pool_with_id(id)) {
        let m = find(pools, pool_with_id(id))->0;
        let name = trim_spec(or_value(pool_patch.name, m.name));
        if net_value(m.cidr) is Some {
            let gateway = canonical_optional_ip_spec(
                or_option(pool_patch.gateway, m.gateway),
                Some(AddressFamily::of(net_value(m.cidr)->0.ip)),
            );
            if gateway is Ok {
                let change = patched_pool(pool_patch, name, gateway->Ok_0, now);
                revising_keeps_distinct(pools, id_of_pool(), pool_with_id(id), change);
            }
        }
    }
    removing_keeps_distinct(pools, id_of_pool(), pool_with_id(id));
    let entries = db.ip_blacklist;
    let made_entry = create_entry_spec(db, entry, id, now);
    if made_entry is Ok {
        first_is_first(entries, entry_with_id(id));
        appending_keeps_distinct(entries, id_of_entry(), made_entry->Ok_0.1);
    }
    if any(entries, entry_called(id)) {
        revising_keeps_distinct(
            entries,
            id_of_entry(),
            entry_with_id(find(entries, entry_called(id))->0.id),
            patched_entry(entry_patch, now),
        );
    }
    removing_keeps_distinct(entries, id_of_entry(), entry_with_id(id));
    let complaints = db.ip_abuse;
    let made_abuse = record_abuse_spec(db, abuse, id, now);
    if made_abuse is Ok {
        first_is_first(complaints, abuse_with_id(id));
        appending_keeps_distinct(complaints, id_of_abuse(), made_abuse->Ok_0.1);
    }
    revising_keeps_distinct(
        complaints,
        id_of_abuse(),
        abuse_with_id(id),
        resolved(resolved_by, resolution, now),
    );
    if any(db.vms, vm_called(id)) {
        let vm_id = find(db.vms, vm_called(id))->0.vm.id;
        revising_keeps_distinct(complaints, id_of_abuse(), abuse_of_vm(vm_id), orphaned_abuse());
    }
    if any(db.jobs, job_with_id(id)) && find(db.jobs, job_with_id(id))->0.vm_id is Some {
        let vm_id = find(db.jobs, job_with_id(id))->0.vm_id->0;
        revising_keeps_distinct(complaints, id_of_abuse(), abuse_of_vm(vm_id), orphaned_abuse());
    }
}

/// The key of a setting.
pub open spec fn key_of_setting() -> spec_fn(SettingRecordView) -> Seq<char> {
    |m: SettingRecordView| m.key
}

/// The identifier of an installation image.
pub open spec fn id_of_iso() -> spec_fn(IsoImageView) -> Seq<char> {
    |m: IsoImageView| m.id
}

/// The update whose end an entry records.
pub open spec fn update_of_import() -> spec_fn(ImportRowView) -> Seq<char> {
    |m: ImportRowView| m.request_id
}

/// No setting, installation image or recorded end of an update stands twice.
pub open spec fn host_records_are_distinct(db: DatabaseView) -> bool {
    &&& distinct_by(db.settings, key_of_setting())
    &&& distinct_by(db.isos, id_of_iso())
    &&& distinct_by(db.imports, update_of_import())
}

/// Settings, installation images and recorded ends of updates keep their keys distinct.
pub proof fn host_records_stay_distinct(
    db: DatabaseView,
    key: Seq<char>,
    value: Json,
    encrypted: bool,
    updated_by: Option<Seq<char>>,
    addresses: Seq<Seq<char>>,
    image: IsoImageView,
    id: Seq<char>,
    outcome: Seq<char>,
    event: NewAuditEventView,
    now: Timestamp,
)
    requires
        host_records_are_distinct(db),
    ensures
        host_records_are_distinct(empty_database(now)),
        set_setting_spec(db, key, value, encrypted, updated_by, now) matches Ok(done)
            ==> host_records_are_distinct(done.0),
        set_network_spec(db, value, addresses, updated_by, now) matches Ok(done)
            ==> host_records_are_distinct(done.0),
        distinct_by(others(db.settings, setting_with_key(key)), key_of_setting()),
        delete_admin_spec(db, id) matches Ok(done) ==> host_records_are_distinct(done.0),
        upsert_iso_spec(db, image, id, now) matches Ok(done) ==> host_records_are_distinct(
            done.0,
        ),
        import_spec(db, id, outcome, event, now) matches Ok(done) ==> host_records_are_distinct(
            done.0,
        ),
{
    storing_keeps_settings(db, key, value, encrypted, updated_by, now);
    if dns_addresses(addresses) is Ok {
        let list = dns_addresses(addresses)->Ok_0;
        let between = replaced_dns(db, None, None, list);
        if between is Ok {
            storing_keeps_settings(
                between->Ok_0.0,
                "network"@,
                value.with_member("dns_servers"@, texts_json(list)),
                false,
                updated_by,
                now,
            );
        }
    }
    removing_keeps_distinct(db.settings, key_of_setting(), setting_with_key(key));
    revising_keeps_distinct(db.settings, key_of_setting(), setting_by(id), orphaned_setting());
    let made = upsert_iso_spec(db, image, id, now);
    if made is Ok {
        let row = made->Ok_0.1;
        first_is_first(db.isos, iso_with_id(row.id));
        if any(db.isos, iso_with_id(row.id)) {
            revising_keeps_distinct(
                db.isos,
                id_of_iso(),
                iso_with_id(row.id),
                reentered_iso(
                    IsoImageView {
                        created_at: if image.created_at <= 0 {
                            now
                        } else {
                            image.created_at
                        },
                        ..row
                    },
                ),
            );
        } else {
            appending_keeps_distinct(db.isos, id_of_iso(), row);
        }
    }
    first_is_first(db.imports, import_of(id));
    if !any(db.imports, import_of(id)) {
        appending_keeps_distinct(
            db.imports,
            update_of_import(),
            ImportRowView { request_id: id, outcome, imported_at: now },
        );
    }
}

proof fn storing_keeps_settings(
    db: DatabaseView,
    key: Seq<char>,
    value: Json,
    encrypted: bool,
    updated_by: Option<Seq<char>>,
    now: Timestamp,
)
    requires
        distinct_by(db.settings, key_of_setting()),
    ensures
        stored_setting(db, key, value, encrypted, updated_by, now) matches Ok(done)
            ==> distinct_by(done.0.settings, key_of_setting()),
{
    let rows = db.settings;
    first_is_first(rows, setting_with_key(key));
    revising_keeps_distinct(
        rows,
        key_of_setting(),
        setting_with_key(key),
        with_value(value, encrypted, updated_by, now),
    );
    if !any(rows, setting_with_key(key)) {
        appending_keeps_distinct(
            rows,
            key_of_setting(),
            SettingRecordView { key, value, encrypted, updated_by, updated_at: now },
        );
    }
}

/// The identifier of a snapshot.
pub open spec fn id_of_snapshot() -> spec_fn(SnapshotView) -> Seq<char> {
    |m: SnapshotView| m.id
}

/// When the host was measured.
pub open spec fn time_of_host() -> spec_fn(HostMetricView) -> Timestamp {
    |m: HostMetricView| m.sampled_at
}

/// Which machine was measured, and when.
pub open spec fn time_of_machine() -> spec_fn(VmMetricView) -> (Seq<char>, Timestamp) {
    |m: VmMetricView| (m.vm_id, m.sampled_at)
}

/// The machine that a link belongs to.
pub open spec fn machine_of_link() -> spec_fn(VmTrafficEnforcementView) -> Seq<char> {
    |m: VmTrafficEnforcementView| m.vm_id
}

/// No two snapshots share an identifier; the host is measured once at a time, and so is a
/// machine; and there is one record of the link of a machine.
pub open spec fn machine_records_are_distinct(db: DatabaseView) -> bool {
    &&& distinct_by(db.snapshots, id_of_snapshot())
    &&& distinct_by(db.host_metrics, time_of_host())
    &&& distinct_by(db.vm_metrics, time_of_machine())
    &&& distinct_by(db.traffic, machine_of_link())
}

/// Snapshots, measurements and records of links keep their keys distinct.
pub proof fn machine_records_stay_distinct(
    db: DatabaseView,
    vm_id: Seq<char>,
    name: Seq<char>,
    description: Seq<char>,
    memory_included: bool,
    metadata: Json,
    state: SnapshotState,
    disk_path: Option<Seq<char>>,
    size_bytes: Option<u64>,
    new_metadata: Option<Json>,
    host_metric: HostMetricView,
    vm_metric: VmMetricView,
    blocked: bool,
    last_error: Option<Seq<char>>,
    id: Seq<char>,
    now: Timestamp,
)
    requires
        machine_records_are_distinct(db),
    ensures
        machine_records_are_distinct(empty_database(now)),
        create_snapshot_spec(
            db,
            vm_id,
            name,
            description,
            memory_included,
            metadata,
            id,
            now,
        ) matches Ok(done) ==> machine_records_are_distinct(done.0),
        update_snapshot_spec(
            db,
            id,
            state,
            disk_path,
            size_bytes,
            new_metadata,
            now,
        ) matches Ok(done) ==> machine_records_are_distinct(done.0),
        delete_snapshot_spec(db, id) matches Ok(done) ==> machine_records_are_distinct(done.0),
        insert_host_metric_spec(db, host_metric) matches Ok(done) ==> machine_records_are_distinct(
            done.0,
        ),
        insert_vm_metric_spec(db, vm_metric) matches Ok(done) ==> machine_records_are_distinct(
            done.0,
        ),
        distinct_by(others(db.host_metrics, host_before(now)), time_of_host()),
        distinct_by(others(db.vm_metrics, vm_before(now)), time_of_machine()),
        set_traffic_spec(db, vm_id, blocked, last_error, now) matches Ok(done)
            ==> machine_records_are_distinct(done.0),
        delete_vm_spec(db, vm_id, now) matches Ok(done) ==> machine_records_are_distinct(done.0),
        cancel_spec(db, id, now) matches Ok(done) ==> machine_records_are_distinct(done.0),
        machine_records_are_distinct(recovered(db, now)),
{
    let snapshots = db.snapshots;
    let key = id_of_snapshot();
    let made = create_snapshot_spec(
        db,
        vm_id,
        name,
        description,
        memory_included,
        metadata,
        id,
        now,
    );
    if made is Ok {
        first_is_first(snapshots, snapshot_with_id(id));
        appending_keeps_distinct(snapshots, key, made->Ok_0.1);
    }
    revising_keeps_distinct(
        snapshots,
        key,
        snapshot_with_id(id),
        snapshot_in_state(state, disk_path, size_bytes, new_metadata, now),
    );
    removing_keeps_distinct(snapshots, key, snapshot_with_id(id));
    let at = host_at(host_metric.sampled_at);
    first_is_first(db.host_metrics, at);
    revising_keeps_distinct(db.host_metrics, time_of_host(), at, replaced_by(host_metric));
    if !any(db.host_metrics, at) {
        appending_keeps_distinct(db.host_metrics, time_of_host(), host_metric);
    }
    removing_keeps_distinct(db.host_metrics, time_of_host(), host_before(now));
    let of = vm_at(vm_metric.vm_id, vm_metric.sampled_at);
    first_is_first(db.vm_metrics, of);
    revising_keeps_distinct(db.vm_metrics, time_of_machine(), of, replaced_by(vm_metric));
    if !any(db.vm_metrics, of) {
        appending_keeps_distinct(db.vm_metrics, time_of_machine(), vm_metric);
    }
    removing_keeps_distinct(db.vm_metrics, time_of_machine(), vm_before(now));
    let recorded = set_traffic_spec(db, vm_id, blocked, last_error, now);
    if recorded is Ok {
        let row = recorded->Ok_0.1;
        first_is_first(db.traffic, link_of(vm_id));
        revising_keeps_distinct(db.traffic, machine_of_link(), link_of(vm_id), replaced_by(row));
        if !any(db.traffic, link_of(vm_id)) {
            appending_keeps_distinct(db.traffic, machine_of_link(), row);
        }
    }
    if any(db.vms, vm_called(vm_id)) {
        removal_keeps_machine_records(db, find(db.vms, vm_called(vm_id))->0.vm.id);
    }
    if any(db.jobs, job_with_id(id)) {
        let m = find(db.jobs, job_with_id(id))->0;
        if m.vm_id is Some {
            removal_keeps_machine_records(db, m.vm_id->0);
        }
        let snapshot_id = m.payload.text_member("snapshot_id"@);
        if snapshot_id is Some {
            revising_keeps_distinct(
                snapshots,
                key,
                snapshot_in_making(snapshot_id->0),
                snapshot_failed("job cancelled"@, now),
            );
        }
    }
    revising_keeps_distinct(
        snapshots,
        key,
        lost_snapshot(resumed_jobs(db.jobs, now)),
        snapshot_failed("worker interrupted before completion"@, now),
    );
}

proof fn removal_keeps_machine_records(db: DatabaseView, vm_id: Seq<char>)
    requires
        machine_records_are_distinct(db),
    ensures
        distinct_by(others(db.snapshots, snapshot_of_vm(vm_id)), id_of_snapshot()),
        distinct_by(others(db.vm_metrics, metric_of_vm(vm_id)), time_of_machine()),
        distinct_by(others(db.traffic, link_of(vm_id)), machine_of_link()),
{
    removing_keeps_distinct(db.snapshots, id_of_snapshot(), snapshot_of_vm(vm_id));
    removing_keeps_distinct(db.vm_metrics, time_of_machine(), metric_of_vm(vm_id));
    removing_keeps_distinct(db.traffic, machine_of_link(), link_of(vm_id));
}

/// The machine that a policy belongs to.
pub open spec fn machine_of_policy() -> spec_fn(VmNetworkSecurityView) -> Seq<char> {
    |m: VmNetworkSecurityView| m.vm_id
}

/// A machine with an identifier is there.
pub open spec fn is_machine(vms: Seq<VmRowView>, id: Seq<char>) -> bool {
    exists|i: int| 0 <= i < vms.len() && (#[trigger] vms[i]).vm.id == id
}

/// A machine has at most one policy, and every policy belongs to a machine.
pub open spec fn policies_fit(db: DatabaseView) -> bool {
    &&& distinct_by(db.network_security, machine_of_policy())
    &&& forall|i: int|
        0 <= i < db.network_security.len() ==> is_machine(
            db.vms,
            (#[trigger] db.network_security[i]).vm_id,
        )
}

proof fn changed_machines_keep_policies(
    db: DatabaseView,
    p: spec_fn(VmRowView) -> bool,
    f: spec_fn(VmRowView) -> VmRowView,
)
    requires
        policies_fit(db),
        forall|m: VmRowView| p(m) ==> (#[trigger] f(m)).vm.id == m.vm.id,
    ensures
        policies_fit(DatabaseView { vms: revised(db.vms, p, f), ..db }),
{
    let after = revised(db.vms, p, f);
    assert forall|i: int| 0 <= i < db.network_security.len() implies is_machine(
        after,
        (#[trigger] db.network_security[i]).vm_id,
    ) by {
        let id = db.network_security[i].vm_id;
        assert(is_machine(db.vms, id));
        let k = choose|k: int| 0 <= k < db.vms.len() && (#[trigger] db.vms[k]).vm.id == id;
        assert(p(db.vms[k]) ==> f(db.vms[k]).vm.id == id);
        assert(after[k].vm.id == id);
    }
}

proof fn changed_policies_fit(
    db: DatabaseView,
    p: spec_fn(VmNetworkSecurityView) -> bool,
    f: spec_fn(VmNetworkSecurityView) -> VmNetworkSecurityView,
)
    requires
        policies_fit(db),
        forall|m: VmNetworkSecurityView| (#[trigger] f(m)).vm_id == m.vm_id,
    ensures
        policies_fit(DatabaseView { network_security: revised(db.network_security, p, f), ..db }),
{
    let rows = db.network_security;
    let after = revised(rows, p, f);
    revising_keeps_distinct(rows, machine_of_policy(), p, f);
    assert forall|i: int| 0 <= i < after.len() implies is_machine(
        db.vms,
        (#[trigger] after[i]).vm_id,
    ) by {
        assert(f(rows[i]).vm_id == rows[i].vm_id);
        assert(is_machine(db.vms, rows[i].vm_id));
    }
}

proof fn removed_machines_keep_policies(
    db: DatabaseView,
    p: spec_fn(VmRowView) -> bool,
    vm_id: Seq<char>,
)
    requires
        policies_fit(db),
        forall|m: VmRowView| #[trigger] p(m) ==> m.vm.id == vm_id,
    ensures
        policies_fit(
            DatabaseView {
                vms: others(db.vms, p),
                network_security: others(db.network_security, policy_of(vm_id)),
                ..db
            },
        ),
{
    let rows = db.network_security;
    let left = others(rows, policy_of(vm_id));
    let vms = others(db.vms, p);
    removing_keeps_distinct(rows, machine_of_policy(), policy_of(vm_id));
    assert forall|i: int| 0 <= i < left.len() implies is_machine(
        vms,
        (#[trigger] left[i]).vm_id,
    ) by {
        let m = left[i];
        assert(left.contains(m));
        others_has(rows, policy_of(vm_id), m);
        let j = choose|j: int| 0 <= j < rows.len() && rows[j] == m;
        assert(is_machine(db.vms, rows[j].vm_id));
        let k = choose|k: int| 0 <= k < db.vms.len() && (#[trigger] db.vms[k]).vm.id == m.vm_id;
        assert(db.vms.contains(db.vms[k]));
        others_has(db.vms, p, db.vms[k]);
        let n = choose|n: int| 0 <= n < vms.len() && vms[n] == db.vms[k];
        assert(vms[n].vm.id == m.vm_id);
    }
}

proof fn inserting_keeps_policies(
    db: DatabaseView,
    id: Seq<char>,
    spec: NewVmView,
    envelope: Option<Seq<char>>,
    now: Timestamp,
)
    requires
        policies_fit(db),
    ensures
        insert_vm_spec(db, id, spec, envelope, now) matches Ok(done) ==> policies_fit(done.0),
{
    let done = insert_vm_spec(db, id, spec, envelope, now);
    if done is Ok {
        let after = done->Ok_0.0;
        let rows = db.network_security;
        let row = new_network_security(id, now);
        first_is_first(db.vms, vm_with_id(id));
        assert forall|i: int| 0 <= i < rows.len() implies machine_of_policy()(#[trigger] rows[i])
            != machine_of_policy()(row) by {
            assert(is_machine(db.vms, rows[i].vm_id));
            let k = choose|k: int|
                0 <= k < db.vms.len() && (#[trigger] db.vms[k]).vm.id == rows[i].vm_id;
            assert(!vm_with_id(id)(db.vms[k]));
        }
        appending_keeps_distinct(rows, machine_of_policy(), row);
        assert forall|i: int| 0 <= i < after.network_security.len() implies is_machine(
            after.vms,
            (#[trigger] after.network_security[i]).vm_id,
        ) by {
            if i < rows.len() {
                assert(is_machine(db.vms, rows[i].vm_id));
                let k = choose|k: int|
                    0 <= k < db.vms.len() && (#[trigger] db.vms[k]).vm.id == rows[i].vm_id;
                assert(after.vms[k].vm.id == rows[i].vm_id);
            } else {
                assert(after.vms[db.vms.len() as int].vm.id == id);
            }
        }
    }
}

/// A machine that is entered gets a policy, which goes with it; no operation gives a machine
/// a second one.
pub proof fn policies_keep_fitting(
    db: DatabaseView,
    id: Seq<char>,
    spec: NewVmView,
    envelope: Option<Seq<char>>,
    password: Seq<char>,
    sealed: Result<Seq<char>, AppErrorView>,
    patch: VmNetworkSecurityPatchView,
    verdict: Option<AppErrorView>,
    revision: u64,
    error: Option<Seq<char>>,
    rule: NewVmFirewallRuleView,
    owner_type: Seq<char>,
    owner_id: Option<Seq<char>>,
    limit: u64,
    rule_id: Seq<char>,
    rule_patch: VmFirewallRulePatchView,
    now: Timestamp,
)
    requires
        policies_fit(db),
    ensures
        policies_fit(empty_database(now)),
        insert_vm_spec(db, id, spec, envelope, now) matches Ok(done) ==> policies_fit(done.0),
        create_vm_with_password_spec(db, spec, password, sealed, id, now) matches Ok(done)
            ==> policies_fit(done.0),
        patch_policy_spec(db, id, patch, verdict, now) matches Ok(done) ==> policies_fit(done.0),
        mark_applied_spec(db, id, revision, error, now) matches Ok(done) ==> policies_fit(done.0),
        create_rule_spec(db, id, rule, owner_type, owner_id, limit, rule_id, now) matches Ok(done)
            ==> policies_fit(done.0),
        patch_rule_spec(db, id, rule_id, rule_patch, now) matches Ok(done) ==> policies_fit(
            done.0,
        ),
        delete_rule_spec(db, id, rule_id, now) matches Ok(done) ==> policies_fit(done.0),
        policies_fit(
            DatabaseView {
                network_security: revised(db.network_security, untouched_preset(), safe_default()),
                ..db
            },
        ),
        delete_vm_spec(db, id, now) matches Ok(done) ==> policies_fit(done.0),
{
    inserting_keeps_policies(db, id, spec, envelope, now);
    if sealed is Ok {
        inserting_keeps_policies(db, id, spec, Some(sealed->Ok_0), now);
    }
    changed_policies_fit(db, policy_of(id), patched_policy(patch, now));
    changed_policies_fit(db, policy_of(id), applied(revision, error, now));
    changed_policies_fit(db, policy_of(id), bumped(now));
    changed_policies_fit(db, untouched_preset(), safe_default());
    if any(db.vms, vm_called(id)) {
        let vm_id = find(db.vms, vm_called(id))->0.vm.id;
        removed_machines_keep_policies(db, vm_with_id(vm_id), vm_id);
    }
}

/// Changes of machines, and what jobs do to them, leave every policy with its machine.
pub proof fn changes_of_machines_keep_policies(
    db: DatabaseView,
    id: Seq<char>,
    envelope: Option<Seq<char>>,
    password: Seq<char>,
    sealed: Result<Seq<char>, AppErrorView>,
    name: Seq<char>,
    patch: VmPatchView,
    state: VmState,
    desired_state: Option<VmState>,
    libvirt_uuid: Option<Seq<char>>,
    vnc_display: Option<i64>,
    metric: VmMetricView,
    request: NewJobView,
    wanted: VmState,
    now: Timestamp,
)
    requires
        policies_fit(db),
    ensures
        reconcile_spec(db, id, name, now) matches Ok(done) ==> policies_fit(done.0),
        patch_vm_spec(db, id, patch, now) matches Ok(done) ==> policies_fit(done.0),
        change_vm_spec(
            db,
            vm_called(id),
            with_state(state, desired_state, libvirt_uuid, vnc_display, now),
        ) matches Ok(done) ==> policies_fit(done.0),
        change_vm_spec(db, vm_with_id(id), with_password(envelope, now)) matches Ok(done)
            ==> policies_fit(done.0),
        set_password_envelope_spec(db, id, password, now) matches Ok(done) ==> policies_fit(done.0),
        set_password_spec(db, id, password, sealed, now) matches Ok(done) ==> policies_fit(done.0),
        insert_vm_metric_spec(db, metric) matches Ok(done) ==> policies_fit(done.0),
        enqueue_reinstall_spec(db, request, envelope, wanted, id, now) matches Ok(done)
            ==> policies_fit(done.0),
        commit_password_spec(db, id, now) matches Ok(done) ==> policies_fit(done.0),
        cancel_spec(db, id, now) matches Ok(done) ==> policies_fit(done.0),
        policies_fit(recovered(db, now)),
{
    changed_machines_keep_policies(db, vm_with_id(id), with_name(trim_spec(name), now));
    if any(db.vms, vm_called(id)) {
        let m = find(db.vms, vm_called(id))->0;
        changed_machines_keep_policies(
            db,
            vm_with_id(m.vm.id),
            saved(patched_vm(m.vm, patch, now)),
        );
    }
    changed_machines_keep_policies(
        db,
        vm_called(id),
        with_state(state, desired_state, libvirt_uuid, vnc_display, now),
    );
    changed_machines_keep_policies(db, vm_with_id(id), with_password(envelope, now));
    changed_machines_keep_policies(db, vm_with_id(id), with_password(Some(password), now));
    if sealed is Ok {
        changed_machines_keep_policies(
            db,
            vm_with_id(id),
            with_password(Some(sealed->Ok_0), now),
        );
    }
    changed_machines_keep_policies(
        db,
        vm_with_id(metric.vm_id),
        with_traffic(metric.traffic_used_bytes, metric.sampled_at),
    );
    if request.vm_id is Some {
        changed_machines_keep_policies(
            db,
            vm_with_id(request.vm_id->0),
            reinstalling(wanted, now),
        );
    }
    if any(db.jobs, job_with_id(id)) {
        let m = find(db.jobs, job_with_id(id))->0;
        if m.vm_id is Some {
            let vm_id = m.vm_id->0;
            let staged = m.payload.text_member(password_field());
            changed_machines_keep_policies(db, vm_with_id(vm_id), with_password(None, now));
            if staged is Some {
                changed_machines_keep_policies(db, vm_with_id(vm_id), with_password(staged, now));
            }
            removed_machines_keep_policies(db, provisional_vm(vm_id), vm_id);
            changed_machines_keep_policies(
                db,
                awaiting_reinstall(vm_id),
                in_state(VmState::Unknown, now),
            );
        }
    }
    changed_machines_keep_policies(
        db,
        lost_vm(resumed_jobs(db.jobs, now)),
        in_state(VmState::Error, now),
    );
}

} // verus!

//! What becomes of a machine: how it is entered, renamed, changed and removed. Stated over
//! the fields of the rows.

use vstd::prelude::*;

use crate::db::rows::{
    CustomerTokenRowView, DnsServerView, FirewallAction, GuestToolsRowView, IpAbuseRecordView,
    IpAddressRecordView, IpStatus, JobView, NewVmView, SnapshotView, Timestamp, VmFirewallRuleView,
    VmMetricView, VmNetworkSecurityView, VmPatchView, VmRowView, VmState, VmTrafficEnforcementView,
    VmView, VncTokenRowView,
};
use crate::db::store::{
    earlier, optional_range_fault, range_fault, vm_called, vm_with_id, DatabaseView,
};
use crate::db::guest_tools::tools_of;
use crate::db::network_security::{link_of, policy_of, rule_of};
use crate::db::protection::takes;
use crate::db::queue::is_machine_of;
use crate::db::removal::{customer_of_vm, delete_vm_spec, dns_of_vm, metric_of_vm, snapshot_of_vm};
use crate::db::rotation::is_refused;
use crate::db::tokens::vnc_of_vm;
use crate::db::vms::{
    account_char, account_text, change_vm_spec, create_vm_with_password_spec, insert_vm_spec,
    other_vm_named, patch_vm_spec, reconcile_spec, set_password_envelope_spec, set_password_spec,
    vm_named, vm_spec_fault, with_name, with_password, with_state,
};
use crate::error::AppErrorView;
use crate::table::{any, find, first, first_is_first, others, others_has, revised};
use crate::text::{byte_len, equal_ignoring_case, is_alphanumeric, lowercase, trim_spec};

verus! {

broadcast use vstd::string::group_string_axioms;

/// What may be asked of a new machine.
pub open spec fn is_acceptable(spec: NewVmView) -> bool {
    &&& trim_spec(spec.name).len() > 0
    &&& trim_spec(spec.hostname).len() > 0
    &&& trim_spec(spec.disk_format).len() > 0
    &&& trim_spec(spec.root_username).len() > 0
    &&& byte_len(spec.root_username) <= 64
    &&& spec.root_username[0] != '-'
    &&& forall|i: int|
        0 <= i < spec.root_username.len() ==> is_alphanumeric(#[trigger] spec.root_username[i])
            || spec.root_username[i] == '-' || spec.root_username[i] == '_'
            || spec.root_username[i] == '.'
    &&& spec.vcpus >= 1
    &&& 256 <= spec.memory_mib <= i64::MAX
    &&& 1 <= spec.disk_gib <= i64::MAX
    &&& spec.firmware == "bios"@ || spec.firmware == "uefi"@
    &&& spec.machine_type is None || spec.machine_type == Some("q35"@) || spec.machine_type == Some(
        "i440fx"@,
    )
    &&& spec.network_limit_mbps is Some ==> 1 <= spec.network_limit_mbps->0 <= i64::MAX
    &&& spec.traffic_limit_bytes is Some ==> spec.traffic_limit_bytes->0 <= i64::MAX
}

/// Some machine has a name, whatever its case.
pub open spec fn is_machine_name(db: DatabaseView, name: Seq<char>) -> bool {
    exists|k: int|
        0 <= k < db.vms.len() && equal_ignoring_case((#[trigger] db.vms[k]).vm.name, name)
}

/// What a new machine is made of.
pub open spec fn is_made_as_asked(
    vm: VmView,
    spec: NewVmView,
    id: Seq<char>,
    now: Timestamp,
) -> bool {
    &&& vm.id == id
    &&& vm.name == trim_spec(spec.name)
    &&& vm.hostname == trim_spec(spec.hostname)
    &&& vm.description == spec.description
    &&& vm.os_family == spec.os_family
    &&& vm.iso_id == spec.iso_id
    &&& vm.state == VmState::Creating
    &&& vm.desired_state == VmState::Stopped
    &&& vm.vcpus == spec.vcpus
    &&& vm.memory_mib == spec.memory_mib
    &&& vm.disk_gib == spec.disk_gib
    &&& vm.disk_format == spec.disk_format
    &&& vm.firmware == spec.firmware
    &&& vm.machine_type == spec.machine_type
    &&& vm.bridge == spec.bridge
    &&& vm.tap_name == spec.tap_name
    &&& spec.mac_address is None ==> vm.mac_address is None
    &&& spec.mac_address is Some ==> vm.mac_address == Some(lowercase(spec.mac_address->0))
    &&& vm.network_limit_mbps == spec.network_limit_mbps
    &&& vm.traffic_limit_bytes == spec.traffic_limit_bytes
    &&& vm.traffic_used_bytes == 0
    &&& vm.root_username == spec.root_username
    &&& vm.guest_agent == spec.guest_agent
    &&& vm.autostart == spec.autostart
    &&& vm.timezone == spec.timezone
    &&& vm.libvirt_uuid is None
    &&& vm.vnc_display is None
    &&& vm.metadata == spec.metadata
    &&& vm.created_at == now
    &&& vm.updated_at == now
}

/// A policy that filters nothing and was never applied.
pub open spec fn filters_nothing(m: VmNetworkSecurityView, vm_id: Seq<char>, now: Timestamp) -> bool {
    &&& m.vm_id == vm_id
    &&& !m.firewall_enabled
    &&& !m.ddos_enabled
    &&& m.default_ingress_action == FirewallAction::Accept
    &&& m.default_egress_action == FirewallAction::Accept
    &&& m.syn_rate_limit_pps == Some(5_000u32)
    &&& m.udp_rate_limit_pps == Some(25_000u32)
    &&& m.icmp_rate_limit_pps == Some(1_000u32)
    &&& m.new_connection_limit_pps == Some(10_000u32)
    &&& m.concurrent_connection_limit is None
    &&& !m.port_scan_protection
    &&& !m.drop_invalid_packets
    &&& m.revision == 0
    &&& m.applied_revision is None
    &&& m.last_applied_at is None
    &&& m.last_error is None
    &&& m.created_at == now
    &&& m.updated_at == now
}

proof fn machine_is_known(db: DatabaseView, id: Seq<char>, name: Seq<char>)
    ensures
        any(db.vms, vm_with_id(id)) == is_machine_of(db, id),
        any(db.vms, vm_named(name)) == is_machine_name(db, name),
{
    let p = vm_with_id(id);
    let q = vm_named(name);
    first_is_first(db.vms, p);
    first_is_first(db.vms, q);
    if is_machine_of(db, id) {
        let k = choose|k: int| 0 <= k < db.vms.len() && (#[trigger] db.vms[k]).vm.id == id;
        assert(p(db.vms[k]));
    }
    if any(db.vms, p) {
        assert(db.vms[first(db.vms, p)->0].vm.id == id);
    }
    if is_machine_name(db, name) {
        let k = choose|k: int|
            0 <= k < db.vms.len() && equal_ignoring_case((#[trigger] db.vms[k]).vm.name, name);
        assert(q(db.vms[k]));
    }
    if any(db.vms, q) {
        assert(equal_ignoring_case(db.vms[first(db.vms, q)->0].vm.name, name));
    }
}

proof fn acceptance(spec: NewVmView)
    ensures
        earlier(
            vm_spec_fault(spec),
            earlier(
                earlier(
                    range_fault(spec.memory_mib, "memory_mib"@),
                    range_fault(spec.disk_gib, "disk_gib"@),
                ),
                earlier(
                    optional_range_fault(spec.network_limit_mbps, "network_limit_mbps"@),
                    optional_range_fault(spec.traffic_limit_bytes, "traffic_limit_bytes"@),
                ),
            ),
        ) is None <==> is_acceptable(spec),
{
    let name = spec.root_username;
    if trim_spec(name).len() > 0 {
        assert(name.len() > 0) by {
            if name.len() == 0 {
                assert(trim_spec(name).len() == 0);
            }
        }
    }
    if account_text(name) {
        assert forall|i: int| 0 <= i < name.len() implies is_alphanumeric(#[trigger] name[i])
            || name[i] == '-' || name[i] == '_' || name[i] == '.' by {
            assert(account_char(name[i]));
        }
    }
    if is_acceptable(spec) {
        assert forall|i: int| 0 <= i < name.len() implies account_char(#[trigger] name[i]) by {}
    }
}

/// A machine is entered as it is asked for, with its password and with a policy that filters
/// nothing, where what is asked for is acceptable and neither its identifier nor its name is
/// there; else nothing changes.
pub proof fn a_machine_is_entered(
    db: DatabaseView,
    id: Seq<char>,
    spec: NewVmView,
    password_envelope: Option<Seq<char>>,
    now: Timestamp,
)
    ensures
        ({
            let done = insert_vm_spec(db, id, spec, password_envelope, now);
            let fit = is_acceptable(spec) && !is_machine_of(db, id) && !is_machine_name(
                db,
                trim_spec(spec.name),
            );
            &&& !fit ==> is_refused(done, db)
            &&& fit ==> {
                let after = done->Ok_0.0;
                &&& done is Ok
                &&& is_made_as_asked(done->Ok_0.1, spec, id, now)
                &&& filters_nothing(after.network_security.last(), id, now)
                &&& after == (DatabaseView {
                    vms: db.vms.push(
                        VmRowView {
                            vm: done->Ok_0.1,
                            password_envelope,
                            password_updated_at: if password_envelope is Some {
                                Some(now)
                            } else {
                                None
                            },
                        },
                    ),
                    network_security: db.network_security.push(after.network_security.last()),
                    ..db
                })
            }
        }),
{
    acceptance(spec);
    machine_is_known(db, id, trim_spec(spec.name));
}

/// A machine with a password is entered as one without, and keeps what sealing gave; a blank
/// password and one that was not sealed are refused.
pub proof fn a_machine_is_entered_with_its_password(
    db: DatabaseView,
    spec: NewVmView,
    password: Seq<char>,
    sealed: Result<Seq<char>, AppErrorView>,
    id: Seq<char>,
    now: Timestamp,
)
    ensures
        trim_spec(password).len() == 0 || sealed is Err ==> is_refused(
            create_vm_with_password_spec(db, spec, password, sealed, id, now),
            db,
        ),
        trim_spec(password).len() > 0 && sealed is Ok ==> create_vm_with_password_spec(
            db,
            spec,
            password,
            sealed,
            id,
            now,
        ) == insert_vm_spec(db, id, spec, Some(sealed->Ok_0), now),
{
}

/// A text names one machine: by its identifier, or by its name, whatever the case.
pub open spec fn names_one(db: DatabaseView, id_or_name: Seq<char>, i: int) -> bool {
    &&& 0 <= i < db.vms.len()
    &&& db.vms[i].vm.id == id_or_name || equal_ignoring_case(db.vms[i].vm.name, id_or_name)
    &&& forall|j: int|
        0 <= j < db.vms.len() && ((#[trigger] db.vms[j]).vm.id == id_or_name || equal_ignoring_case(
            db.vms[j].vm.name,
            id_or_name,
        ) || db.vms[j].vm.id == db.vms[i].vm.id) ==> j == i
}

proof fn the_named_is_found(db: DatabaseView, id_or_name: Seq<char>, i: int)
    requires
        names_one(db, id_or_name, i),
    ensures
        first(db.vms, vm_called(id_or_name)) == Some(i),
        first(db.vms, vm_with_id(db.vms[i].vm.id)) == Some(i),
        forall|f: spec_fn(VmRowView) -> VmRowView|
            (#[trigger] revised(db.vms, vm_with_id(db.vms[i].vm.id), f)) == db.vms.update(
                i,
                f(db.vms[i]),
            ),
        forall|f: spec_fn(VmRowView) -> VmRowView|
            (#[trigger] revised(db.vms, vm_called(id_or_name), f)) == db.vms.update(
                i,
                f(db.vms[i]),
            ),
{
    let p = vm_called(id_or_name);
    let q = vm_with_id(db.vms[i].vm.id);
    first_is_first(db.vms, p);
    first_is_first(db.vms, q);
    assert(p(db.vms[i]) && q(db.vms[i]));
    assert forall|f: spec_fn(VmRowView) -> VmRowView|
        (#[trigger] revised(db.vms, q, f)) == db.vms.update(i, f(db.vms[i])) by {
        assert(revised(db.vms, q, f) =~= db.vms.update(i, f(db.vms[i])));
    }
    assert forall|f: spec_fn(VmRowView) -> VmRowView|
        (#[trigger] revised(db.vms, p, f)) == db.vms.update(i, f(db.vms[i])) by {
        assert(revised(db.vms, p, f) =~= db.vms.update(i, f(db.vms[i])));
    }
}

/// A machine is found by its identifier and by its name, and gives the password that is kept
/// for it.
pub proof fn a_machine_is_found(db: DatabaseView, id_or_name: Seq<char>, i: int)
    requires
        names_one(db, id_or_name, i),
    ensures
        find(db.vms, vm_called(id_or_name)) == Some(db.vms[i]),
        find(db.vms, vm_with_id(db.vms[i].vm.id)) == Some(db.vms[i]),
{
    the_named_is_found(db, id_or_name, i);
}

/// A machine takes another name, without surrounding white space, where it is a fit name that
/// no other machine has; nothing else of it changes but the time.
pub proof fn a_machine_is_renamed(
    db: DatabaseView,
    id: Seq<char>,
    name: Seq<char>,
    now: Timestamp,
    i: int,
)
    requires
        names_one(db, id, i),
        db.vms[i].vm.id == id,
        forall|j: int|
            0 <= j < db.vms.len() && j != i ==> (#[trigger] db.vms[j]).vm.id != id
                && !equal_ignoring_case(db.vms[j].vm.name, id),
    ensures
        ({
            let to = trim_spec(name);
            let sound = to.len() > 0 && byte_len(to) <= 63 && is_alphanumeric(to[0]) && forall|
                k: int,
            |
                0 <= k < to.len() ==> is_alphanumeric(#[trigger] to[k]) || to[k] == '-' || to[k]
                    == '_' || to[k] == '.';
            let taken = exists|j: int|
                0 <= j < db.vms.len() && j != i && equal_ignoring_case(
                    (#[trigger] db.vms[j]).vm.name,
                    to,
                );
            let done = reconcile_spec(db, id, name, now);
            let vm = VmView { name: to, updated_at: now, ..db.vms[i].vm };
            &&& !sound || taken ==> is_refused(done, db)
            &&& sound && !taken ==> done == Ok::<(DatabaseView, VmView), AppErrorView>(
                (
                    DatabaseView {
                        vms: db.vms.update(i, VmRowView { vm, ..db.vms[i] }),
                        ..db
                    },
                    vm,
                ),
            )
        }),
{
    the_named_is_found(db, id, i);
    let to = trim_spec(name);
    if account_text(to) {
        assert forall|k: int| 0 <= k < to.len() implies is_alphanumeric(#[trigger] to[k]) || to[k]
            == '-' || to[k] == '_' || to[k] == '.' by {
            assert(account_char(to[k]));
        }
    }
    if forall|k: int|
        0 <= k < to.len() ==> is_alphanumeric(#[trigger] to[k]) || to[k] == '-' || to[k] == '_'
            || to[k] == '.' {
        assert forall|k: int| 0 <= k < to.len() implies account_char(#[trigger] to[k]) by {}
    }
    let p = other_vm_named(id, to);
    first_is_first(db.vms, p);
    if any(db.vms, p) {
        let j = first(db.vms, p)->0;
        assert(j != i && equal_ignoring_case(db.vms[j].vm.name, to));
    }
    if exists|j: int|
        0 <= j < db.vms.len() && j != i && equal_ignoring_case((#[trigger] db.vms[j]).vm.name, to) {
        let j = choose|j: int|
            0 <= j < db.vms.len() && j != i && equal_ignoring_case(
                (#[trigger] db.vms[j]).vm.name,
                to,
            );
        assert(p(db.vms[j]));
    }
    let vm = VmView { name: to, updated_at: now, ..db.vms[i].vm };
    let after = db.vms.update(i, VmRowView { vm, ..db.vms[i] });
    assert(revised(db.vms, vm_with_id(id), with_name(to, now)) =~= after);
    let q = vm_called(id);
    first_is_first(after, q);
    assert(q(after[i]));
    assert forall|j: int| 0 <= j < after.len() && j != i implies !q(#[trigger] after[j]) by {
        assert(after[j] == db.vms[j]);
    }
}

/// A text field becomes what is given, without surrounding white space.
pub open spec fn takes_text(given: Option<Seq<char>>, before: Seq<char>, after: Seq<char>) -> bool {
    &&& given is Some ==> after == trim_spec(given->0)
    &&& given is None ==> after == before
}

/// What may be asked of a change of a machine. A disk does not shrink.
pub open spec fn is_acceptable_change(vm: VmView, patch: VmPatchView) -> bool {
    &&& patch.os_family is Some ==> trim_spec(patch.os_family->0).len() > 0
    &&& patch.root_username is Some ==> trim_spec(patch.root_username->0).len() > 0
    &&& patch.hostname is Some ==> trim_spec(patch.hostname->0).len() > 0
    &&& patch.vcpus is Some ==> patch.vcpus->0 >= 1
    &&& patch.memory_mib is Some ==> 256 <= patch.memory_mib->0 <= i64::MAX
    &&& patch.disk_gib is Some ==> vm.disk_gib <= patch.disk_gib->0 <= i64::MAX
    &&& patch.network_limit_mbps matches Some(Some(n)) ==> 1 <= n <= i64::MAX
    &&& patch.traffic_limit_bytes matches Some(Some(n)) ==> n <= i64::MAX
    &&& patch.traffic_used_bytes is Some ==> patch.traffic_used_bytes->0 <= i64::MAX
}

/// The numbers of a machine are within what the tables hold.
pub open spec fn is_storable(vm: VmView) -> bool {
    &&& vm.memory_mib <= i64::MAX
    &&& vm.disk_gib <= i64::MAX
    &&& vm.network_limit_mbps is Some ==> vm.network_limit_mbps->0 <= i64::MAX
    &&& vm.traffic_limit_bytes is Some ==> vm.traffic_limit_bytes->0 <= i64::MAX
    &&& vm.traffic_used_bytes <= i64::MAX
}

/// A machine takes every field of an acceptable change and keeps the others. What is given
/// back is the changed machine; what is stored keeps its image, its family, its account and
/// its tap. A change that is not acceptable is refused.
pub proof fn a_machine_takes_a_change(
    db: DatabaseView,
    id_or_name: Seq<char>,
    patch: VmPatchView,
    now: Timestamp,
    i: int,
)
    requires
        names_one(db, id_or_name, i),
        is_storable(db.vms[i].vm),
    ensures
        ({
            let vm = db.vms[i].vm;
            let done = patch_vm_spec(db, id_or_name, patch, now);
            &&& !is_acceptable_change(vm, patch) ==> is_refused(done, db)
            &&& is_acceptable_change(vm, patch) ==> {
                let r = done->Ok_0.1;
                &&& done is Ok
                &&& takes(patch.iso_id, vm.iso_id, r.iso_id)
                &&& takes_text(patch.os_family, vm.os_family, r.os_family)
                &&& takes_text(patch.root_username, vm.root_username, r.root_username)
                &&& takes_text(patch.hostname, vm.hostname, r.hostname)
                &&& takes(patch.description, vm.description, r.description)
                &&& takes(patch.state, vm.state, r.state)
                &&& takes(patch.desired_state, vm.desired_state, r.desired_state)
                &&& takes(patch.vcpus, vm.vcpus, r.vcpus)
                &&& takes(patch.memory_mib, vm.memory_mib, r.memory_mib)
                &&& takes(patch.disk_gib, vm.disk_gib, r.disk_gib)
                &&& takes(patch.tap_name, vm.tap_name, r.tap_name)
                &&& takes(patch.network_limit_mbps, vm.network_limit_mbps, r.network_limit_mbps)
                &&& takes(patch.traffic_limit_bytes, vm.traffic_limit_bytes, r.traffic_limit_bytes)
                &&& takes(patch.traffic_used_bytes, vm.traffic_used_bytes, r.traffic_used_bytes)
                &&& takes(patch.guest_agent, vm.guest_agent, r.guest_agent)
                &&& takes(patch.autostart, vm.autostart, r.autostart)
                &&& takes(patch.timezone, vm.timezone, r.timezone)
                &&& takes(patch.libvirt_uuid, vm.libvirt_uuid, r.libvirt_uuid)
                &&& takes(patch.vnc_display, vm.vnc_display, r.vnc_display)
                &&& takes(patch.metadata, vm.metadata, r.metadata)
                &&& r.id == vm.id
                &&& r.name == vm.name
                &&& r.disk_format == vm.disk_format
                &&& r.firmware == vm.firmware
                &&& r.machine_type == vm.machine_type
                &&& r.bridge == vm.bridge
                &&& r.mac_address == vm.mac_address
                &&& r.created_at == vm.created_at
                &&& r.updated_at == now
                &&& done->Ok_0.0 == (DatabaseView {
                    vms: db.vms.update(
                        i,
                        VmRowView {
                            vm: VmView {
                                iso_id: vm.iso_id,
                                os_family: vm.os_family,
                                root_username: vm.root_username,
                                tap_name: vm.tap_name,
                                ..r
                            },
                            ..db.vms[i]
                        },
                    ),
                    ..db
                })
            }
        }),
{
    the_named_is_found(db, id_or_name, i);
}

/// A machine is in the state that is told, and is shown where it is told; what is wanted of
/// it and what the hypervisor calls it stay where nothing is told. A machine that is not
/// there is refused.
pub proof fn a_state_is_recorded(
    db: DatabaseView,
    id_or_name: Seq<char>,
    state: VmState,
    desired_state: Option<VmState>,
    libvirt_uuid: Option<Seq<char>>,
    vnc_display: Option<i64>,
    now: Timestamp,
    i: int,
)
    requires
        names_one(db, id_or_name, i),
    ensures
        ({
            let m = db.vms[i];
            change_vm_spec(
                db,
                vm_called(id_or_name),
                with_state(state, desired_state, libvirt_uuid, vnc_display, now),
            ) == Ok::<(DatabaseView, ()), AppErrorView>(
                (
                    DatabaseView {
                        vms: db.vms.update(
                            i,
                            VmRowView {
                                vm: VmView {
                                    state,
                                    desired_state: if desired_state is Some {
                                        desired_state->0
                                    } else {
                                        m.vm.desired_state
                                    },
                                    libvirt_uuid: if libvirt_uuid is Some {
                                        libvirt_uuid
                                    } else {
                                        m.vm.libvirt_uuid
                                    },
                                    vnc_display,
                                    updated_at: now,
                                    ..m.vm
                                },
                                ..m
                            },
                        ),
                        ..db
                    },
                    (),
                ),
            )
        }),
{
    the_named_is_found(db, id_or_name, i);
}

/// The password of a machine becomes what is given, as of now, or is gone; a blank one is
/// refused.
pub proof fn a_password_is_kept(
    db: DatabaseView,
    vm_id: Seq<char>,
    envelope: Seq<char>,
    password: Seq<char>,
    sealed: Result<Seq<char>, AppErrorView>,
    now: Timestamp,
    i: int,
)
    requires
        names_one(db, vm_id, i),
        db.vms[i].vm.id == vm_id,
    ensures
        ({
            let m = db.vms[i];
            let kept = set_password_envelope_spec(db, vm_id, envelope, now);
            let cleared = change_vm_spec(db, vm_with_id(vm_id), with_password(None, now));
            &&& trim_spec(envelope).len() == 0 ==> is_refused(kept, db)
            &&& trim_spec(envelope).len() > 0 ==> kept == Ok::<(DatabaseView, ()), AppErrorView>(
                (
                    DatabaseView {
                        vms: db.vms.update(
                            i,
                            VmRowView {
                                vm: VmView { updated_at: now, ..m.vm },
                                password_envelope: Some(envelope),
                                password_updated_at: Some(now),
                            },
                        ),
                        ..db
                    },
                    (),
                ),
            )
            &&& cleared == Ok::<(DatabaseView, ()), AppErrorView>(
                (
                    DatabaseView {
                        vms: db.vms.update(
                            i,
                            VmRowView {
                                vm: VmView { updated_at: now, ..m.vm },
                                password_envelope: None,
                                password_updated_at: None,
                            },
                        ),
                        ..db
                    },
                    (),
                ),
            )
            &&& trim_spec(password).len() == 0 || sealed is Err ==> is_refused(
                set_password_spec(db, vm_id, password, sealed, now),
                db,
            )
            &&& trim_spec(password).len() > 0 && sealed is Ok ==> set_password_spec(
                db,
                vm_id,
                password,
                sealed,
                now,
            ) == set_password_envelope_spec(db, vm_id, sealed->Ok_0, now)
        }),
{
    the_named_is_found(db, vm_id, i);
}

/// Of a machine that is not there nothing is changed, kept or removed.
pub proof fn without_a_machine_all_is_refused(
    db: DatabaseView,
    id_or_name: Seq<char>,
    patch: VmPatchView,
    state: VmState,
    desired_state: Option<VmState>,
    libvirt_uuid: Option<Seq<char>>,
    vnc_display: Option<i64>,
    envelope: Seq<char>,
    name: Seq<char>,
    now: Timestamp,
)
    requires
        forall|j: int|
            0 <= j < db.vms.len() ==> (#[trigger] db.vms[j]).vm.id != id_or_name
                && !equal_ignoring_case(db.vms[j].vm.name, id_or_name),
    ensures
        find(db.vms, vm_called(id_or_name)) is None,
        find(db.vms, vm_with_id(id_or_name)) is None,
        is_refused(patch_vm_spec(db, id_or_name, patch, now), db),
        is_refused(
            change_vm_spec(
                db,
                vm_called(id_or_name),
                with_state(state, desired_state, libvirt_uuid, vnc_display, now),
            ),
            db,
        ),
        is_refused(set_password_envelope_spec(db, id_or_name, envelope, now), db),
        is_refused(change_vm_spec(db, vm_with_id(id_or_name), with_password(None, now)), db),
        is_refused(reconcile_spec(db, id_or_name, name, now), db),
        is_refused(delete_vm_spec(db, id_or_name, now), db),
{
    first_is_first(db.vms, vm_called(id_or_name));
    first_is_first(db.vms, vm_with_id(id_or_name));
}

/// With a machine goes all that belongs to it, and nothing that belongs to another.
pub proof fn what_goes_with_a_machine(
    db: DatabaseView,
    id_or_name: Seq<char>,
    now: Timestamp,
    i: int,
)
    requires
        names_one(db, id_or_name, i),
    ensures
        ({
            let id = db.vms[i].vm.id;
            let done = delete_vm_spec(db, id_or_name, now);
            let after = done->Ok_0.0;
            &&& done is Ok
            &&& forall|m: VmRowView| #[trigger]
                after.vms.contains(m) <==> db.vms.contains(m) && m.vm.id != id
            &&& forall|m: GuestToolsRowView| #[trigger]
                after.guest_tools.contains(m) <==> db.guest_tools.contains(m) && m.vm_id != id
            &&& forall|m: VmNetworkSecurityView| #[trigger]
                after.network_security.contains(m) <==> db.network_security.contains(m) && m.vm_id
                    != id
            &&& forall|m: VmFirewallRuleView| #[trigger]
                after.firewall_rules.contains(m) <==> db.firewall_rules.contains(m) && m.vm_id != id
            &&& forall|m: VmMetricView| #[trigger]
                after.vm_metrics.contains(m) <==> db.vm_metrics.contains(m) && m.vm_id != id
            &&& forall|m: VmTrafficEnforcementView| #[trigger]
                after.traffic.contains(m) <==> db.traffic.contains(m) && m.vm_id != id
            &&& forall|m: CustomerTokenRowView| #[trigger]
                after.customer_tokens.contains(m) <==> db.customer_tokens.contains(m)
                    && m.token.vm_id != id
            &&& forall|m: VncTokenRowView| #[trigger]
                after.vnc_tokens.contains(m) <==> db.vnc_tokens.contains(m) && m.token.vm_id != id
            &&& forall|m: SnapshotView| #[trigger]
                after.snapshots.contains(m) <==> db.snapshots.contains(m) && m.vm_id != id
            &&& forall|m: DnsServerView| #[trigger]
                after.dns_servers.contains(m) <==> db.dns_servers.contains(m) && m.vm_id != Some(id)
        }),
{
    let id = db.vms[i].vm.id;
    the_named_is_found(db, id_or_name, i);
    assert forall|m: VmRowView| #[trigger]
        others(db.vms, vm_with_id(id)).contains(m) <==> db.vms.contains(m) && m.vm.id != id by {
        others_has(db.vms, vm_with_id(id), m);
    }
    assert forall|m: GuestToolsRowView| #[trigger]
        others(db.guest_tools, tools_of(id)).contains(m) <==> db.guest_tools.contains(m) && m.vm_id
            != id by {
        others_has(db.guest_tools, tools_of(id), m);
    }
    assert forall|m: VmNetworkSecurityView| #[trigger]
        others(db.network_security, policy_of(id)).contains(m) <==> db.network_security.contains(m)
            && m.vm_id != id by {
        others_has(db.network_security, policy_of(id), m);
    }
    assert forall|m: VmFirewallRuleView| #[trigger]
        others(db.firewall_rules, rule_of(id)).contains(m) <==> db.firewall_rules.contains(m)
            && m.vm_id != id by {
        others_has(db.firewall_rules, rule_of(id), m);
    }
    assert forall|m: VmMetricView| #[trigger]
        others(db.vm_metrics, metric_of_vm(id)).contains(m) <==> db.vm_metrics.contains(m)
            && m.vm_id != id by {
        others_has(db.vm_metrics, metric_of_vm(id), m);
    }
    assert forall|m: VmTrafficEnforcementView| #[trigger]
        others(db.traffic, link_of(id)).contains(m) <==> db.traffic.contains(m) && m.vm_id != id by {
        others_has(db.traffic, link_of(id), m);
    }
    assert forall|m: CustomerTokenRowView| #[trigger]
        others(db.customer_tokens, customer_of_vm(id)).contains(m) <==> db.customer_tokens.contains(
            m,
        ) && m.token.vm_id != id by {
        others_has(db.customer_tokens, customer_of_vm(id), m);
    }
    assert forall|m: VncTokenRowView| #[trigger]
        others(db.vnc_tokens, vnc_of_vm(id)).contains(m) <==> db.vnc_tokens.contains(m)
            && m.token.vm_id != id by {
        others_has(db.vnc_tokens, vnc_of_vm(id), m);
    }
    assert forall|m: SnapshotView| #[trigger]
        others(db.snapshots, snapshot_of_vm(id)).contains(m) <==> db.snapshots.contains(m)
            && m.vm_id != id by {
        others_has(db.snapshots, snapshot_of_vm(id), m);
    }
    assert forall|m: DnsServerView| #[trigger]
        others(db.dns_servers, dns_of_vm(id)).contains(m) <==> db.dns_servers.contains(m) && m.vm_id
            != Some(id) by {
        others_has(db.dns_servers, dns_of_vm(id), m);
    }
}

/// What outlives a machine: its addresses, which are free, its jobs and the complaints about
/// it, which name it no longer, and all else as it was.
pub proof fn what_outlives_a_machine(
    db: DatabaseView,
    id_or_name: Seq<char>,
    now: Timestamp,
    i: int,
    k: int,
)
    requires
        names_one(db, id_or_name, i),
    ensures
        ({
            let id = db.vms[i].vm.id;
            let done = delete_vm_spec(db, id_or_name, now);
            let after = done->Ok_0.0;
            &&& done is Ok
            &&& after == (DatabaseView {
                vms: after.vms,
                guest_tools: after.guest_tools,
                network_security: after.network_security,
                firewall_rules: after.firewall_rules,
                vm_metrics: after.vm_metrics,
                traffic: after.traffic,
                customer_tokens: after.customer_tokens,
                vnc_tokens: after.vnc_tokens,
                snapshots: after.snapshots,
                dns_servers: after.dns_servers,
                ip_addresses: after.ip_addresses,
                jobs: after.jobs,
                ip_abuse: after.ip_abuse,
                ..db
            })
            &&& after.ip_addresses.len() == db.ip_addresses.len()
            &&& 0 <= k < db.ip_addresses.len() ==> after.ip_addresses[k] == (
            if db.ip_addresses[k].assigned_vm_id == Some(id) {
                IpAddressRecordView {
                    assigned_vm_id: None,
                    primary_for_vm: false,
                    status: IpStatus::Free,
                    updated_at: now,
                    ..db.ip_addresses[k]
                }
            } else {
                db.ip_addresses[k]
            })
            &&& after.jobs.len() == db.jobs.len()
            &&& 0 <= k < db.jobs.len() ==> after.jobs[k] == (JobView {
                vm_id: if db.jobs[k].vm_id == Some(id) {
                    None
                } else {
                    db.jobs[k].vm_id
                },
                ..db.jobs[k]
            })
            &&& after.ip_abuse.len() == db.ip_abuse.len()
            &&& 0 <= k < db.ip_abuse.len() ==> after.ip_abuse[k] == (IpAbuseRecordView {
                vm_id: if db.ip_abuse[k].vm_id == Some(id) {
                    None
                } else {
                    db.ip_abuse[k].vm_id
                },
                ..db.ip_abuse[k]
            })
        }),
{
    the_named_is_found(db, id_or_name, i);
}

} // verus!

//! Virtual machines.

use vstd::prelude::*;

use crate::db::rows::{
    view_text_change, FirewallAction, NewVm, NewVmView, Timestamp, Vm, VmNetworkSecurity,
    VmNetworkSecurityView, VmPatch, VmPatchView, VmRow, VmRowView, VmState, VmView,
};
use crate::db::store::{
    checked_i64, duplicate_value, earlier, empty_fault, fault_if, fault_of, folded_in_order,
    folded_le, folded_le_orders, option_result, optional_i64, optional_range_fault, plain_result,
    range_fault, row_result, settles, text_option_result, unique_error, validate_non_empty,
    vm_called, vm_with_id, Database, DatabaseView,
};
use crate::db::admins::{or_value, trim_option};
use crate::error::{not_found, validation, AppErrorView, AppResult};
use crate::json::Document;
use crate::table::{
    any, append, find, first, first_is_first, list, listing, look_up, model, models, occurs, revise,
    revised,
};
use crate::text::{
    alphanumeric, byte_len, byte_length, chars_of, copy_option, eq_ignore_ascii_case,
    equal_ignoring_case, has_prefix, is_alphanumeric, lowercase, own_option, same, starts_with,
    to_ascii_lowercase, trim, trim_spec, view_option, view_str,
};

verus! {

broadcast use vstd::string::group_string_axioms;

/// A character of a local account name.
pub open spec fn account_char(c: char) -> bool {
    is_alphanumeric(c) || c == '-' || c == '_' || c == '.'
}

/// Only characters of a local account name.
pub open spec fn account_text(s: Seq<char>) -> bool {
    forall|i: int| 0 <= i < s.len() ==> account_char(#[trigger] s[i])
}

/// The name of a local account.
pub open spec fn account_name(s: Seq<char>) -> bool {
    byte_len(s) <= 64 && !(s.len() > 0 && s[0] == '-') && account_text(s)
}

/// Whether a text has only characters of a local account name.
pub fn has_account_text(s: &str) -> (r: bool)
    ensures
        r == account_text(s@),
{
    let v = chars_of(s);
    let mut i: usize = 0;
    while i < v.len()
        invariant
            i <= v@.len(),
            v@ == s@,
            forall|j: int| 0 <= j < i ==> account_char(#[trigger] s@[j]),
        decreases v@.len() - i,
    {
        let c = v[i];
        if !(alphanumeric(c) || c == '-' || c == '_' || c == '.') {
            proof {
                assert(!account_char(s@[i as int]));
            }
            return false;
        }
        i = i + 1;
    }
    true
}

/// The first fault of a machine to be created.
pub open spec fn vm_spec_fault(spec: NewVmView) -> Option<AppErrorView> {
    earlier(
        earlier(
            earlier(empty_fault("VM name"@, spec.name), empty_fault("hostname"@, spec.hostname)),
            earlier(
                empty_fault("disk format"@, spec.disk_format),
                empty_fault("root username"@, spec.root_username),
            ),
        ),
        earlier(
            earlier(
                earlier(
                    fault_if(
                        !account_name(spec.root_username),
                        AppErrorView::Validation(
                            "root username must be a local account name containing only letters, numbers, periods, underscores, or hyphens"@,
                        ),
                    ),
                    fault_if(
                        spec.vcpus == 0,
                        AppErrorView::Validation("vcpus must be greater than zero"@),
                    ),
                ),
                earlier(
                    fault_if(
                        spec.memory_mib < 256,
                        AppErrorView::Validation("memory_mib must be at least 256"@),
                    ),
                    fault_if(
                        spec.disk_gib == 0,
                        AppErrorView::Validation("disk_gib must be greater than zero"@),
                    ),
                ),
            ),
            earlier(
                earlier(
                    fault_if(
                        spec.firmware != "bios"@ && spec.firmware != "uefi"@,
                        AppErrorView::Validation("firmware must be bios or uefi"@),
                    ),
                    fault_if(
                        spec.machine_type is Some && spec.machine_type->0 != "q35"@
                            && spec.machine_type->0 != "i440fx"@,
                        AppErrorView::Validation("machine_type must be q35 or i440fx"@),
                    ),
                ),
                fault_if(
                    spec.network_limit_mbps == Some(0u64),
                    AppErrorView::Validation("network_limit_mbps must be greater than zero"@),
                ),
            ),
        ),
    )
}

/// Refuses a machine that cannot be created.
pub fn validate_vm_spec(spec: &NewVm) -> (r: AppResult<()>)
    ensures
        fault_of(r) == vm_spec_fault(spec@),
{
    match validate_non_empty("VM name", spec.name.as_str()) {
        Err(e) => {
            return Err(e);
        },
        Ok(v) => v,
    };
    match validate_non_empty("hostname", spec.hostname.as_str()) {
        Err(e) => {
            return Err(e);
        },
        Ok(v) => v,
    };
    match validate_non_empty("disk format", spec.disk_format.as_str()) {
        Err(e) => {
            return Err(e);
        },
        Ok(v) => v,
    };
    match validate_non_empty("root username", spec.root_username.as_str()) {
        Err(e) => {
            return Err(e);
        },
        Ok(v) => v,
    };
    let account = spec.root_username.as_str();
    proof {
        reveal_strlit("-");
    }
    if byte_length(account) > 64 || has_prefix(account, "-") || !has_account_text(account) {
        proof {
            assert(starts_with(account@, "-"@) == (account@.len() > 0 && account@[0] == '-')) by {
                if starts_with(account@, "-"@) {
                    assert(account@.take(1)[0] == "-"@[0]);
                } else if account@.len() > 0 && account@[0] == '-' {
                    assert(account@.take(1) =~= "-"@);
                }
            }
        }
        return Err(
            validation(
                "root username must be a local account name containing only letters, numbers, periods, underscores, or hyphens",
            ),
        );
    }
    proof {
        if account@.len() > 0 && account@[0] == '-' {
            assert(account@.take(1) =~= "-"@);
        }
    }
    if spec.vcpus == 0 {
        return Err(validation("vcpus must be greater than zero"));
    }
    if spec.memory_mib < 256 {
        return Err(validation("memory_mib must be at least 256"));
    }
    if spec.disk_gib == 0 {
        return Err(validation("disk_gib must be greater than zero"));
    }
    if !same(spec.firmware.as_str(), "bios") && !same(spec.firmware.as_str(), "uefi") {
        return Err(validation("firmware must be bios or uefi"));
    }
    match &spec.machine_type {
        Some(t) => {
            if !same(t.as_str(), "q35") && !same(t.as_str(), "i440fx") {
                return Err(validation("machine_type must be q35 or i440fx"));
            }
        },
        None => {},
    }
    match spec.network_limit_mbps {
        Some(n) => {
            if n == 0 {
                return Err(validation("network_limit_mbps must be greater than zero"));
            }
        },
        None => {},
    }
    Ok(())
}

/// A machine with a name; its case does not matter.
pub open spec fn vm_named(name: Seq<char>) -> spec_fn(VmRowView) -> bool {
    |m: VmRowView| equal_ignoring_case(m.vm.name, name)
}

/// Another machine with a name.
pub open spec fn other_vm_named(id: Seq<char>, name: Seq<char>) -> spec_fn(VmRowView) -> bool {
    |m: VmRowView| m.vm.id != id && equal_ignoring_case(m.vm.name, name)
}

/// In the order of the names.
pub open spec fn by_vm_name() -> spec_fn(VmView, VmView) -> bool {
    |a: VmView, b: VmView| folded_le(a.name, b.name)
}

/// What is shown of some machines.
pub open spec fn vms_shown(rows: Seq<VmRowView>) -> Seq<VmView> {
    rows.map_values(|m: VmRowView| m.vm)
}

/// A new machine, which is being created.
pub open spec fn new_vm(id: Seq<char>, spec: NewVmView, now: Timestamp) -> VmView {
    VmView {
        id,
        name: trim_spec(spec.name),
        hostname: trim_spec(spec.hostname),
        description: spec.description,
        os_family: spec.os_family,
        iso_id: spec.iso_id,
        state: VmState::Creating,
        desired_state: VmState::Stopped,
        vcpus: spec.vcpus,
        memory_mib: spec.memory_mib,
        disk_gib: spec.disk_gib,
        disk_format: spec.disk_format,
        firmware: spec.firmware,
        machine_type: spec.machine_type,
        bridge: spec.bridge,
        tap_name: spec.tap_name,
        mac_address: match spec.mac_address {
            Some(s) => Some(lowercase(s)),
            None => None,
        },
        network_limit_mbps: spec.network_limit_mbps,
        traffic_limit_bytes: spec.traffic_limit_bytes,
        traffic_used_bytes: 0,
        root_username: spec.root_username,
        guest_agent: spec.guest_agent,
        autostart: spec.autostart,
        timezone: spec.timezone,
        libvirt_uuid: None,
        vnc_display: None,
        metadata: spec.metadata,
        created_at: now,
        updated_at: now,
    }
}

/// The network policy of a new machine: nothing is filtered until it is enabled.
pub open spec fn new_network_security(vm_id: Seq<char>, now: Timestamp) -> VmNetworkSecurityView {
    VmNetworkSecurityView {
        vm_id,
        firewall_enabled: false,
        ddos_enabled: false,
        default_ingress_action: FirewallAction::Accept,
        default_egress_action: FirewallAction::Accept,
        syn_rate_limit_pps: Some(5_000),
        udp_rate_limit_pps: Some(25_000),
        icmp_rate_limit_pps: Some(1_000),
        new_connection_limit_pps: Some(10_000),
        concurrent_connection_limit: None,
        port_scan_protection: false,
        drop_invalid_packets: false,
        revision: 0,
        applied_revision: None,
        last_applied_at: None,
        last_error: None,
        created_at: now,
        updated_at: now,
    }
}

/// A machine is entered with its network policy, under a name that no other has.
pub open spec fn insert_vm_spec(
    db: DatabaseView,
    id: Seq<char>,
    spec: NewVmView,
    password_envelope: Option<Seq<char>>,
    now: Timestamp,
) -> Result<(DatabaseView, VmView), AppErrorView> {
    let fault = earlier(
        vm_spec_fault(spec),
        earlier(
            earlier(
                range_fault(spec.memory_mib, "memory_mib"@),
                range_fault(spec.disk_gib, "disk_gib"@),
            ),
            earlier(
                optional_range_fault(spec.network_limit_mbps, "network_limit_mbps"@),
                optional_range_fault(spec.traffic_limit_bytes, "traffic_limit_bytes"@),
            ),
        ),
    );
    match fault {
        Some(e) => Err(e),
        None => if any(db.vms, vm_with_id(id)) {
            Err(unique_error("vms.id"@))
        } else if any(db.vms, vm_named(trim_spec(spec.name))) {
            Err(unique_error("vms.name"@))
        } else {
            let vm = new_vm(id, spec, now);
            Ok(
                (
                    DatabaseView {
                        vms: db.vms.push(
                            VmRowView {
                                vm,
                                password_envelope,
                                password_updated_at: match password_envelope {
                                    Some(_) => Some(now),
                                    None => None,
                                },
                            },
                        ),
                        network_security: db.network_security.push(new_network_security(id, now)),
                        ..db
                    },
                    vm,
                ),
            )
        },
    }
}

/// A machine is entered with a sealed password.
pub open spec fn create_vm_with_password_spec(
    db: DatabaseView,
    spec: NewVmView,
    password: Seq<char>,
    sealed: Result<Seq<char>, AppErrorView>,
    id: Seq<char>,
    now: Timestamp,
) -> Result<(DatabaseView, VmView), AppErrorView> {
    match empty_fault("VM password"@, password) {
        Some(e) => Err(e),
        None => match sealed {
            Err(e) => Err(e),
            Ok(envelope) => insert_vm_spec(db, id, spec, Some(envelope), now),
        },
    }
}

/// The name of a machine as the hypervisor may give it.
pub open spec fn inventory_name(name: Seq<char>) -> bool {
    name.len() > 0 && byte_len(name) <= 63 && is_alphanumeric(name[0]) && account_text(name)
}

/// A machine with another name.
pub open spec fn with_name(name: Seq<char>, now: Timestamp) -> spec_fn(VmRowView) -> VmRowView {
    |m: VmRowView| VmRowView { vm: VmView { name, updated_at: now, ..m.vm }, ..m }
}

/// A machine takes the name that the hypervisor has for it.
pub open spec fn reconcile_spec(
    db: DatabaseView,
    id: Seq<char>,
    name: Seq<char>,
    now: Timestamp,
) -> Result<(DatabaseView, VmView), AppErrorView> {
    let name = trim_spec(name);
    if !inventory_name(name) {
        Err(AppErrorView::Validation("reconciled VM name is invalid"@))
    } else if !any(db.vms, vm_with_id(id)) {
        Err(AppErrorView::NotFound("VM"@))
    } else if any(db.vms, other_vm_named(id, name)) {
        Err(unique_error("vms.name"@))
    } else {
        let after = revised(db.vms, vm_with_id(id), with_name(name, now));
        match find(after, vm_called(id)) {
            Some(m) => Ok((DatabaseView { vms: after, ..db }, m.vm)),
            None => Err(AppErrorView::NotFound("VM"@)),
        }
    }
}

/// The first fault of a change of a machine.
pub open spec fn vm_patch_fault(vm: VmView, patch: VmPatchView) -> Option<AppErrorView> {
    earlier(
        earlier(
            match patch.os_family {
                Some(s) => empty_fault("os_family"@, s),
                None => None,
            },
            earlier(
                match patch.root_username {
                    Some(s) => empty_fault("root_username"@, s),
                    None => None,
                },
                match patch.hostname {
                    Some(s) => empty_fault("hostname"@, s),
                    None => None,
                },
            ),
        ),
        earlier(
            earlier(
                fault_if(
                    patch.vcpus == Some(0u32),
                    AppErrorView::Validation("vcpus must be greater than zero"@),
                ),
                fault_if(
                    patch.memory_mib is Some && patch.memory_mib->0 < 256,
                    AppErrorView::Validation("memory_mib must be at least 256"@),
                ),
            ),
            earlier(
                fault_if(
                    patch.disk_gib is Some && patch.disk_gib->0 < vm.disk_gib,
                    AppErrorView::Validation("VM disks cannot be shrunk"@),
                ),
                fault_if(
                    patch.network_limit_mbps == Some(Some(0u64)),
                    AppErrorView::Validation("network_limit_mbps must be greater than zero"@),
                ),
            ),
        ),
    )
}

/// A machine with a change.
pub open spec fn patched_vm(vm: VmView, patch: VmPatchView, now: Timestamp) -> VmView {
    VmView {
        iso_id: or_value(patch.iso_id, vm.iso_id),
        os_family: or_value(trim_option(patch.os_family), vm.os_family),
        root_username: or_value(trim_option(patch.root_username), vm.root_username),
        hostname: or_value(trim_option(patch.hostname), vm.hostname),
        description: or_value(patch.description, vm.description),
        state: or_value(patch.state, vm.state),
        desired_state: or_value(patch.desired_state, vm.desired_state),
        vcpus: or_value(patch.vcpus, vm.vcpus),
        memory_mib: or_value(patch.memory_mib, vm.memory_mib),
        disk_gib: or_value(patch.disk_gib, vm.disk_gib),
        tap_name: or_value(patch.tap_name, vm.tap_name),
        network_limit_mbps: or_value(patch.network_limit_mbps, vm.network_limit_mbps),
        traffic_limit_bytes: or_value(patch.traffic_limit_bytes, vm.traffic_limit_bytes),
        traffic_used_bytes: or_value(patch.traffic_used_bytes, vm.traffic_used_bytes),
        guest_agent: or_value(patch.guest_agent, vm.guest_agent),
        autostart: or_value(patch.autostart, vm.autostart),
        timezone: or_value(patch.timezone, vm.timezone),
        libvirt_uuid: or_value(patch.libvirt_uuid, vm.libvirt_uuid),
        vnc_display: or_value(patch.vnc_display, vm.vnc_display),
        metadata: or_value(patch.metadata, vm.metadata),
        updated_at: now,
        ..vm
    }
}

/// The first number of a machine that the tables cannot hold.
pub open spec fn vm_range_fault(vm: VmView) -> Option<AppErrorView> {
    earlier(
        earlier(
            range_fault(vm.memory_mib, "memory_mib"@),
            range_fault(vm.disk_gib, "disk_gib"@),
        ),
        earlier(
            optional_range_fault(vm.network_limit_mbps, "network_limit_mbps"@),
            earlier(
                optional_range_fault(vm.traffic_limit_bytes, "traffic_limit_bytes"@),
                range_fault(vm.traffic_used_bytes, "traffic_used_bytes"@),
            ),
        ),
    )
}

/// A stored machine with what a change may alter; its image, family, account and tap stay
/// as they were entered.
pub open spec fn saved(vm: VmView) -> spec_fn(VmRowView) -> VmRowView {
    |m: VmRowView|
        VmRowView {
            vm: VmView {
                hostname: vm.hostname,
                description: vm.description,
                state: vm.state,
                desired_state: vm.desired_state,
                vcpus: vm.vcpus,
                memory_mib: vm.memory_mib,
                disk_gib: vm.disk_gib,
                network_limit_mbps: vm.network_limit_mbps,
                traffic_limit_bytes: vm.traffic_limit_bytes,
                traffic_used_bytes: vm.traffic_used_bytes,
                guest_agent: vm.guest_agent,
                autostart: vm.autostart,
                timezone: vm.timezone,
                libvirt_uuid: vm.libvirt_uuid,
                vnc_display: vm.vnc_display,
                metadata: vm.metadata,
                updated_at: vm.updated_at,
                ..m.vm
            },
            ..m
        }
}

/// A machine is changed and stored; the changed machine is given.
pub open spec fn patch_vm_spec(
    db: DatabaseView,
    id_or_name: Seq<char>,
    patch: VmPatchView,
    now: Timestamp,
) -> Result<(DatabaseView, VmView), AppErrorView> {
    match find(db.vms, vm_called(id_or_name)) {
        None => Err(AppErrorView::NotFound("VM"@)),
        Some(m) => {
            let vm = patched_vm(m.vm, patch, now);
            match earlier(vm_patch_fault(m.vm, patch), vm_range_fault(vm)) {
                Some(e) => Err(e),
                None => Ok(
                    (
                        DatabaseView {
                            vms: revised(db.vms, vm_with_id(m.vm.id), saved(vm)),
                            ..db
                        },
                        vm,
                    ),
                ),
            }
        },
    }
}

/// A machine in a state.
pub open spec fn with_state(
    state: VmState,
    desired_state: Option<VmState>,
    libvirt_uuid: Option<Seq<char>>,
    vnc_display: Option<i64>,
    now: Timestamp,
) -> spec_fn(VmRowView) -> VmRowView {
    |m: VmRowView|
        VmRowView {
            vm: VmView {
                state,
                desired_state: or_value(desired_state, m.vm.desired_state),
                libvirt_uuid: match libvirt_uuid {
                    Some(u) => Some(u),
                    None => m.vm.libvirt_uuid,
                },
                vnc_display,
                updated_at: now,
                ..m.vm
            },
            ..m
        }
}

/// A machine is changed where it is there.
pub open spec fn change_vm_spec(
    db: DatabaseView,
    p: spec_fn(VmRowView) -> bool,
    change: spec_fn(VmRowView) -> VmRowView,
) -> Result<(DatabaseView, ()), AppErrorView> {
    if !any(db.vms, p) {
        Err(AppErrorView::NotFound("VM"@))
    } else {
        Ok((DatabaseView { vms: revised(db.vms, p, change), ..db }, ()))
    }
}

/// A machine with a sealed password, or without one.
pub open spec fn with_password(envelope: Option<Seq<char>>, now: Timestamp) -> spec_fn(
    VmRowView,
) -> VmRowView {
    |m: VmRowView|
        VmRowView {
            vm: VmView { updated_at: now, ..m.vm },
            password_envelope: envelope,
            password_updated_at: match envelope {
                Some(_) => Some(now),
                None => None,
            },
        }
}

/// A machine gets a sealed password.
pub open spec fn set_password_envelope_spec(
    db: DatabaseView,
    vm_id: Seq<char>,
    envelope: Seq<char>,
    now: Timestamp,
) -> Result<(DatabaseView, ()), AppErrorView> {
    match empty_fault("password envelope"@, envelope) {
        Some(e) => Err(e),
        None => change_vm_spec(db, vm_with_id(vm_id), with_password(Some(envelope), now)),
    }
}

/// A machine gets a password, which is sealed for it.
pub open spec fn set_password_spec(
    db: DatabaseView,
    vm_id: Seq<char>,
    password: Seq<char>,
    sealed: Result<Seq<char>, AppErrorView>,
    now: Timestamp,
) -> Result<(DatabaseView, ()), AppErrorView> {
    match empty_fault("VM password"@, password) {
        Some(e) => Err(e),
        None => match sealed {
            Err(e) => Err(e),
            Ok(envelope) => set_password_envelope_spec(db, vm_id, envelope, now),
        },
    }
}

/// What sealing a secret gave.
pub open spec fn view_sealed(r: AppResult<String>) -> Result<Seq<char>, AppErrorView> {
    match r {
        Ok(s) => Ok(s@),
        Err(e) => Err(e@),
    }
}

impl Database {
    pub(crate) fn find_vm(&self, id_or_name: &str) -> (r: Option<VmRow>)
        ensures
            model(r) == find(self@.vms, vm_called(id_or_name@)),
    {
        let test = |x: &VmRow| -> (b: bool)
            ensures
                b == vm_called(id_or_name@)(x@),
            {
                same(x.vm.id.as_str(), id_or_name)
                    || eq_ignore_ascii_case(x.vm.name.as_str(), id_or_name)
            };
        look_up(&self.vms, test, Ghost(vm_called(id_or_name@)))
    }

    /// Enters a machine.
    pub fn create_vm(&mut self, spec: &NewVm, id: &str, now: Timestamp) -> (r: AppResult<Vm>)
        ensures
            settles(
                insert_vm_spec(old(self)@, id@, spec@, None, now),
                old(self)@,
                final(self)@,
                row_result(r),
            ),
    {
        self.insert_vm(id, spec, None, now)
    }

    /// Enters a machine with its password, which was sealed for the machine's identifier.
    pub fn create_vm_with_password(
        &mut self,
        spec: &NewVm,
        password: &str,
        sealed: AppResult<String>,
        id: &str,
        now: Timestamp,
    ) -> (r: AppResult<Vm>)
        ensures
            settles(
                create_vm_with_password_spec(
                    old(self)@,
                    spec@,
                    password@,
                    view_sealed(sealed),
                    id@,
                    now,
                ),
                old(self)@,
                final(self)@,
                row_result(r),
            ),
    {
        match validate_non_empty("VM password", password) {
            Err(e) => {
                return Err(e);
            },
            Ok(v) => v,
        };
        let envelope = match sealed {
            Err(e) => {
                return Err(e);
            },
            Ok(v) => v,
        };
        self.insert_vm(id, spec, Some(envelope.as_str()), now)
    }

    fn insert_vm(
        &mut self,
        id: &str,
        spec: &NewVm,
        password_envelope: Option<&str>,
        now: Timestamp,
    ) -> (r: AppResult<Vm>)
        ensures
            settles(
                insert_vm_spec(old(self)@, id@, spec@, view_str(password_envelope), now),
                old(self)@,
                final(self)@,
                row_result(r),
            ),
    {
        match validate_vm_spec(spec) {
            Err(e) => {
                return Err(e);
            },
            Ok(v) => v,
        };
        let _ = match checked_i64(spec.memory_mib, "memory_mib") {
            Err(e) => {
                return Err(e);
            },
            Ok(v) => v,
        };
        let _ = match checked_i64(spec.disk_gib, "disk_gib") {
            Err(e) => {
                return Err(e);
            },
            Ok(v) => v,
        };
        let _ = match optional_i64(spec.network_limit_mbps, "network_limit_mbps") {
            Err(e) => {
                return Err(e);
            },
            Ok(v) => v,
        };
        let _ = match optional_i64(spec.traffic_limit_bytes, "traffic_limit_bytes") {
            Err(e) => {
                return Err(e);
            },
            Ok(v) => v,
        };
        if self.has_vm(id) {
            return Err(duplicate_value("vms.id"));
        }
        let name = trim(spec.name.as_str());
        let ghost named = vm_named(name@);
        let test = |x: &VmRow| -> (b: bool)
            ensures
                b == named(x@),
            { eq_ignore_ascii_case(x.vm.name.as_str(), name.as_str()) };
        if occurs(&self.vms, test, Ghost(named)) {
            return Err(duplicate_value("vms.name"));
        }
        let vm = Vm {
            id: id.to_owned(),
            name,
            hostname: trim(spec.hostname.as_str()),
            description: spec.description.clone(),
            os_family: spec.os_family.clone(),
            iso_id: copy_option(&spec.iso_id),
            state: VmState::Creating,
            desired_state: VmState::Stopped,
            vcpus: spec.vcpus,
            memory_mib: spec.memory_mib,
            disk_gib: spec.disk_gib,
            disk_format: spec.disk_format.clone(),
            firmware: spec.firmware.clone(),
            machine_type: copy_option(&spec.machine_type),
            bridge: copy_option(&spec.bridge),
            tap_name: copy_option(&spec.tap_name),
            mac_address: match &spec.mac_address {
                Some(s) => Some(to_ascii_lowercase(s.as_str())),
                None => None,
            },
            network_limit_mbps: spec.network_limit_mbps,
            traffic_limit_bytes: spec.traffic_limit_bytes,
            traffic_used_bytes: 0,
            root_username: spec.root_username.clone(),
            guest_agent: spec.guest_agent,
            autostart: spec.autostart,
            timezone: copy_option(&spec.timezone),
            libvirt_uuid: None,
            vnc_display: None,
            metadata: spec.metadata.clone(),
            created_at: now,
            updated_at: now,
        };
        let shown = vm.clone();
        append(
            &mut self.vms,
            VmRow {
                vm,
                password_envelope: own_option(password_envelope),
                password_updated_at: match password_envelope {
                    Some(_) => Some(now),
                    None => None,
                },
            },
        );
        append(
            &mut self.network_security,
            VmNetworkSecurity {
                vm_id: id.to_owned(),
                firewall_enabled: false,
                ddos_enabled: false,
                default_ingress_action: FirewallAction::Accept,
                default_egress_action: FirewallAction::Accept,
                syn_rate_limit_pps: Some(5_000),
                udp_rate_limit_pps: Some(25_000),
                icmp_rate_limit_pps: Some(1_000),
                new_connection_limit_pps: Some(10_000),
                concurrent_connection_limit: None,
                port_scan_protection: false,
                drop_invalid_packets: false,
                revision: 0,
                applied_revision: None,
                last_applied_at: None,
                last_error: None,
                created_at: now,
                updated_at: now,
            },
        );
        Ok(shown)
    }

    /// The machine with an identifier or a name.
    pub fn get_vm(&self, id_or_name: &str) -> (r: AppResult<Option<Vm>>)
        ensures
            option_result(r) == Ok::<Option<VmView>, AppErrorView>(
                match find(self@.vms, vm_called(id_or_name@)) {
                    Some(m) => Some(m.vm),
                    None => None,
                },
            ),
    {
        match self.find_vm(id_or_name) {
            Some(row) => Ok(Some(row.vm)),
            None => Ok(None),
        }
    }

    /// All machines in the order of their names.
    pub fn list_vms(&self) -> (r: AppResult<Vec<Vm>>)
        ensures
            r is Ok,
            listing(
                models(r->Ok_0@),
                vms_shown(self@.vms),
                by_vm_name(),
                self@.vms.len() as int,
            ),
    {
        let mut rows: Vec<Vm> = Vec::new();
        let mut i: usize = 0;
        while i < self.vms.len()
            invariant
                i <= self.vms@.len(),
                rows@.len() == i,
                forall|j: int| 0 <= j < i ==> (#[trigger] rows@[j])@ == vms_shown(self@.vms)[j],
            decreases self.vms@.len() - i,
        {
            rows.push(self.vms[i].vm.clone());
            i = i + 1;
        }
        proof {
            assert(models(rows@) =~= vms_shown(self@.vms));
            folded_le_orders();
        }
        let le = |a: &Vm, c: &Vm| -> (b: bool)
            ensures
                b == by_vm_name()(a@, c@),
            { folded_in_order(a.name.as_str(), c.name.as_str()) };
        let n: usize = rows.len();
        Ok(list(rows, le, n, Ghost(by_vm_name())))
    }

    /// Takes over the name that the hypervisor has for a machine.
    pub fn reconcile_vm_name(&mut self, id: &str, name: &str, now: Timestamp) -> (r: AppResult<Vm>)
        ensures
            settles(
                reconcile_spec(old(self)@, id@, name@, now),
                old(self)@,
                final(self)@,
                row_result(r),
            ),
    {
        let name = trim(name);
        if !is_inventory_name(name.as_str()) {
            return Err(validation("reconciled VM name is invalid"));
        }
        let ghost before = self@;
        let ghost after = revised(self@.vms, vm_with_id(id@), with_name(name@, now));
        if !self.has_vm(id) {
            return Err(not_found("VM"));
        }
        let ghost named = other_vm_named(id@, name@);
        let test = |x: &VmRow| -> (b: bool)
            ensures
                b == named(x@),
            {
                !same(x.vm.id.as_str(), id)
                    && eq_ignore_ascii_case(x.vm.name.as_str(), name.as_str())
            };
        if occurs(&self.vms, test, Ghost(named)) {
            return Err(duplicate_value("vms.name"));
        }
        let chosen = |x: &VmRow| -> (b: bool)
            ensures
                b == vm_with_id(id@)(x@),
            { same(x.vm.id.as_str(), id) };
        let ghost f = with_name(name@, now);
        let change = |x: &VmRow| -> (y: VmRow)
            ensures
                y@ == f(x@),
            { {
            let mut y = x.clone();
            y.vm.name = name.clone();
            y.vm.updated_at = now;
            y
        } };
        let _ = revise(&mut self.vms, chosen, change, Ghost(vm_with_id(id@)), Ghost(f));
        proof {
            first_is_first(before.vms, vm_with_id(id@));
            first_is_first(after, vm_called(id@));
            let k = first(before.vms, vm_with_id(id@))->0;
            assert(after[k].vm.id == id@);
            assert(vm_called(id@)(after[k]));
        }
        match self.find_vm(id) {
            Some(row) => Ok(row.vm),
            None => Err(not_found("VM")),
        }
    }

    /// Changes a machine. The machine that is returned shows the whole change; what is stored
    /// keeps the image, the family, the account and the tap that were entered.
    pub fn patch_vm(&mut self, id_or_name: &str, patch: &VmPatch, now: Timestamp) -> (r: AppResult<
        Vm,
    >)
        ensures
            settles(
                patch_vm_spec(old(self)@, id_or_name@, patch@, now),
                old(self)@,
                final(self)@,
                row_result(r),
            ),
    {
        let row = match self.find_vm(id_or_name) {
            None => {
                return Err(not_found("VM"));
            },
            Some(row) => row,
        };
        match check_vm_patch(&row.vm, patch) {
            Err(e) => {
                return Err(e);
            },
            Ok(v) => v,
        };
        let vm = apply_vm_patch(&row.vm, patch, now);
        let _ = match checked_i64(vm.memory_mib, "memory_mib") {
            Err(e) => {
                return Err(e);
            },
            Ok(v) => v,
        };
        let _ = match checked_i64(vm.disk_gib, "disk_gib") {
            Err(e) => {
                return Err(e);
            },
            Ok(v) => v,
        };
        let _ = match optional_i64(vm.network_limit_mbps, "network_limit_mbps") {
            Err(e) => {
                return Err(e);
            },
            Ok(v) => v,
        };
        let _ = match optional_i64(vm.traffic_limit_bytes, "traffic_limit_bytes") {
            Err(e) => {
                return Err(e);
            },
            Ok(v) => v,
        };
        let _ = match checked_i64(vm.traffic_used_bytes, "traffic_used_bytes") {
            Err(e) => {
                return Err(e);
            },
            Ok(v) => v,
        };
        self.save_vm(&vm);
        Ok(vm)
    }

    fn save_vm(&mut self, vm: &Vm)
        ensures
            final(self)@ == (DatabaseView {
                vms: revised(old(self)@.vms, vm_with_id(vm@.id), saved(vm@)),
                ..old(self)@
            }),
    {
        let id = vm.id.as_str();
        let chosen = |x: &VmRow| -> (b: bool)
            ensures
                b == vm_with_id(id@)(x@),
            { same(x.vm.id.as_str(), id) };
        let change = |x: &VmRow| -> (y: VmRow)
            ensures
                y@ == saved(vm@)(x@),
            { {
            let mut y = x.clone();
            y.vm.hostname = vm.hostname.clone();
            y.vm.description = vm.description.clone();
            y.vm.state = vm.state;
            y.vm.desired_state = vm.desired_state;
            y.vm.vcpus = vm.vcpus;
            y.vm.memory_mib = vm.memory_mib;
            y.vm.disk_gib = vm.disk_gib;
            y.vm.network_limit_mbps = vm.network_limit_mbps;
            y.vm.traffic_limit_bytes = vm.traffic_limit_bytes;
            y.vm.traffic_used_bytes = vm.traffic_used_bytes;
            y.vm.guest_agent = vm.guest_agent;
            y.vm.autostart = vm.autostart;
            y.vm.timezone = copy_option(&vm.timezone);
            y.vm.libvirt_uuid = copy_option(&vm.libvirt_uuid);
            y.vm.vnc_display = vm.vnc_display;
            y.vm.metadata = vm.metadata.clone();
            y.vm.updated_at = vm.updated_at;
            y
        } };
        let _ = revise(&mut self.vms, chosen, change, Ghost(vm_with_id(id@)), Ghost(saved(vm@)));
    }

    /// Records the state of a machine.
    pub fn set_vm_state(
        &mut self,
        id_or_name: &str,
        state: VmState,
        desired_state: Option<VmState>,
        libvirt_uuid: Option<&str>,
        vnc_display: Option<i64>,
        now: Timestamp,
    ) -> (r: AppResult<()>)
        ensures
            settles(
                change_vm_spec(
                    old(self)@,
                    vm_called(id_or_name@),
                    with_state(state, desired_state, view_str(libvirt_uuid), vnc_display, now),
                ),
                old(self)@,
                final(self)@,
                plain_result(r),
            ),
    {
        let chosen = |x: &VmRow| -> (b: bool)
            ensures
                b == vm_called(id_or_name@)(x@),
            {
                same(x.vm.id.as_str(), id_or_name)
                    || eq_ignore_ascii_case(x.vm.name.as_str(), id_or_name)
            };
        if !occurs(&self.vms, chosen, Ghost(vm_called(id_or_name@))) {
            return Err(not_found("VM"));
        }
        let ghost f = with_state(state, desired_state, view_str(libvirt_uuid), vnc_display, now);
        let change = |x: &VmRow| -> (y: VmRow)
            ensures
                y@ == f(x@),
            { {
            let mut y = x.clone();
            y.vm.state = state;
            match desired_state {
                Some(s) => {
                    y.vm.desired_state = s;
                },
                None => {},
            }
            match libvirt_uuid {
                Some(u) => {
                    y.vm.libvirt_uuid = Some(u.to_owned());
                },
                None => {},
            }
            y.vm.vnc_display = vnc_display;
            y.vm.updated_at = now;
            y
        } };
        let _ = revise(&mut self.vms, chosen, change, Ghost(vm_called(id_or_name@)), Ghost(f));
        Ok(())
    }

    pub(crate) fn store_password(&mut self, vm_id: &str, envelope: Option<&str>, now: Timestamp) -> (r:
        AppResult<()>)
        ensures
            settles(
                change_vm_spec(
                    old(self)@,
                    vm_with_id(vm_id@),
                    with_password(view_str(envelope), now),
                ),
                old(self)@,
                final(self)@,
                plain_result(r),
            ),
    {
        if !self.has_vm(vm_id) {
            return Err(not_found("VM"));
        }
        let chosen = |x: &VmRow| -> (b: bool)
            ensures
                b == vm_with_id(vm_id@)(x@),
            { same(x.vm.id.as_str(), vm_id) };
        let ghost f = with_password(view_str(envelope), now);
        let change = |x: &VmRow| -> (y: VmRow)
            ensures
                y@ == f(x@),
            { {
            let mut y = x.clone();
            y.vm.updated_at = now;
            y.password_envelope = own_option(envelope);
            y.password_updated_at = match envelope {
                Some(_) => Some(now),
                None => None,
            };
            y
        } };
        let _ = revise(&mut self.vms, chosen, change, Ghost(vm_with_id(vm_id@)), Ghost(f));
        Ok(())
    }

    /// Stores the sealed password of a machine.
    pub fn set_vm_password_envelope(&mut self, vm_id: &str, envelope: &str, now: Timestamp) -> (r:
        AppResult<()>)
        ensures
            settles(
                set_password_envelope_spec(old(self)@, vm_id@, envelope@, now),
                old(self)@,
                final(self)@,
                plain_result(r),
            ),
    {
        match validate_non_empty("password envelope", envelope) {
            Err(e) => {
                return Err(e);
            },
            Ok(v) => v,
        };
        self.store_password(vm_id, Some(envelope), now)
    }

    /// Removes the sealed password of a machine.
    pub fn clear_vm_password(&mut self, vm_id: &str, now: Timestamp) -> (r: AppResult<()>)
        ensures
            settles(
                change_vm_spec(old(self)@, vm_with_id(vm_id@), with_password(None, now)),
                old(self)@,
                final(self)@,
                plain_result(r),
            ),
    {
        self.store_password(vm_id, None, now)
    }

    /// Stores the password of a machine, which was sealed for the machine's identifier.
    pub fn set_vm_password(
        &mut self,
        vm_id: &str,
        password: &str,
        sealed: AppResult<String>,
        now: Timestamp,
    ) -> (r: AppResult<()>)
        ensures
            settles(
                set_password_spec(old(self)@, vm_id@, password@, view_sealed(sealed), now),
                old(self)@,
                final(self)@,
                plain_result(r),
            ),
    {
        match validate_non_empty("VM password", password) {
            Err(e) => {
                return Err(e);
            },
            Ok(v) => v,
        };
        let envelope = match sealed {
            Err(e) => {
                return Err(e);
            },
            Ok(v) => v,
        };
        self.set_vm_password_envelope(vm_id, envelope.as_str(), now)
    }

    /// The sealed password of a machine.
    pub fn vm_password_envelope(&self, vm_id: &str) -> (r: AppResult<Option<String>>)
        ensures
            text_option_result(r) == Ok::<Option<Seq<char>>, AppErrorView>(
                match find(self@.vms, vm_with_id(vm_id@)) {
                    Some(m) => m.password_envelope,
                    None => None,
                },
            ),
    {
        let test = |x: &VmRow| -> (b: bool)
            ensures
                b == vm_with_id(vm_id@)(x@),
            { same(x.vm.id.as_str(), vm_id) };
        match look_up(&self.vms, test, Ghost(vm_with_id(vm_id@))) {
            Some(row) => Ok(row.password_envelope),
            None => Ok(None),
        }
    }
}

/// Whether a text is the name of a machine as the hypervisor may give it.
pub fn is_inventory_name(name: &str) -> (r: bool)
    ensures
        r == inventory_name(name@),
{
    if name.is_empty() || byte_length(name) > 63 {
        return false;
    }
    alphanumeric(name.get_char(0)) && has_account_text(name)
}

/// Refuses a change that a machine cannot take.
pub fn check_vm_patch(vm: &Vm, patch: &VmPatch) -> (r: AppResult<()>)
    ensures
        fault_of(r) == vm_patch_fault(vm@, patch@),
{
    match &patch.os_family {
        Some(s) => {
            match validate_non_empty("os_family", s.as_str()) {
                Err(e) => {
                    return Err(e);
                },
                Ok(v) => v,
            };
        },
        None => {},
    }
    match &patch.root_username {
        Some(s) => {
            match validate_non_empty("root_username", s.as_str()) {
                Err(e) => {
                    return Err(e);
                },
                Ok(v) => v,
            };
        },
        None => {},
    }
    match &patch.hostname {
        Some(s) => {
            match validate_non_empty("hostname", s.as_str()) {
                Err(e) => {
                    return Err(e);
                },
                Ok(v) => v,
            };
        },
        None => {},
    }
    match patch.vcpus {
        Some(n) => {
            if n == 0 {
                return Err(validation("vcpus must be greater than zero"));
            }
        },
        None => {},
    }
    match patch.memory_mib {
        Some(n) => {
            if n < 256 {
                return Err(validation("memory_mib must be at least 256"));
            }
        },
        None => {},
    }
    match patch.disk_gib {
        Some(n) => {
            if n < vm.disk_gib {
                return Err(validation("VM disks cannot be shrunk"));
            }
        },
        None => {},
    }
    match patch.network_limit_mbps {
        Some(Some(n)) => {
            if n == 0 {
                return Err(validation("network_limit_mbps must be greater than zero"));
            }
        },
        _ => {},
    }
    Ok(())
}

/// A value, or another where it is absent.
pub fn changed<T: Copy>(o: Option<T>, other: T) -> (r: T)
    ensures
        r == or_value(o, other),
{
    match o {
        Some(v) => v,
        None => other,
    }
}

/// A text, or another where it is absent.
pub fn changed_text(o: &Option<String>, other: &String) -> (r: String)
    ensures
        r@ == or_value(view_option(*o), other@),
{
    match o {
        Some(v) => v.clone(),
        None => other.clone(),
    }
}

/// A text without surrounding white space, or another where it is absent.
pub fn changed_trimmed(o: &Option<String>, other: &String) -> (r: String)
    ensures
        r@ == or_value(trim_option(view_option(*o)), other@),
{
    match o {
        Some(v) => trim(v.as_str()),
        None => other.clone(),
    }
}

/// An optional text, or another where no change is asked for.
pub fn changed_option(o: &Option<Option<String>>, other: &Option<String>) -> (r: Option<String>)
    ensures
        view_option(r) == or_value(view_text_change(*o), view_option(*other)),
{
    match o {
        Some(v) => copy_option(v),
        None => copy_option(other),
    }
}

/// A document, or another where it is absent.
pub fn changed_document(o: &Option<Document>, other: &Document) -> (r: Document)
    ensures
        r@ == or_value(model(*o), other@),
{
    match o {
        Some(v) => v.clone(),
        None => other.clone(),
    }
}

/// A machine with a change.
pub fn apply_vm_patch(vm: &Vm, patch: &VmPatch, now: Timestamp) -> (r: Vm)
    ensures
        r@ == patched_vm(vm@, patch@, now),
{
    Vm {
        id: vm.id.clone(),
        name: vm.name.clone(),
        hostname: changed_trimmed(&patch.hostname, &vm.hostname),
        description: changed_text(&patch.description, &vm.description),
        os_family: changed_trimmed(&patch.os_family, &vm.os_family),
        iso_id: changed_option(&patch.iso_id, &vm.iso_id),
        state: changed(patch.state, vm.state),
        desired_state: changed(patch.desired_state, vm.desired_state),
        vcpus: changed(patch.vcpus, vm.vcpus),
        memory_mib: changed(patch.memory_mib, vm.memory_mib),
        disk_gib: changed(patch.disk_gib, vm.disk_gib),
        disk_format: vm.disk_format.clone(),
        firmware: vm.firmware.clone(),
        machine_type: copy_option(&vm.machine_type),
        bridge: copy_option(&vm.bridge),
        tap_name: changed_option(&patch.tap_name, &vm.tap_name),
        mac_address: copy_option(&vm.mac_address),
        network_limit_mbps: changed(patch.network_limit_mbps, vm.network_limit_mbps),
        traffic_limit_bytes: changed(patch.traffic_limit_bytes, vm.traffic_limit_bytes),
        traffic_used_bytes: changed(patch.traffic_used_bytes, vm.traffic_used_bytes),
        root_username: changed_trimmed(&patch.root_username, &vm.root_username),
        guest_agent: changed(patch.guest_agent, vm.guest_agent),
        autostart: changed(patch.autostart, vm.autostart),
        timezone: changed_option(&patch.timezone, &vm.timezone),
        libvirt_uuid: changed_option(&patch.libvirt_uuid, &vm.libvirt_uuid),
        vnc_display: changed(patch.vnc_display, vm.vnc_display),
        metadata: changed_document(&patch.metadata, &vm.metadata),
        created_at: vm.created_at,
        updated_at: now,
    }
}

} // verus!

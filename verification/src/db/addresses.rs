//! The inventory of addresses and their assignment to machines.

use vstd::prelude::*;

use crate::db::rows::{
    IpAddressRecord, IpAddressRecordView, IpPoolView, IpScope, IpStatus, NewIpAddress,
    NewIpAddressView, Timestamp,
};
use crate::db::store::{
    dangling_reference, duplicate_value, earlier, fault_if, fault_of, option_result, plain_result,
    reference_error, row_result, settles, text_le_orders, unique_error, vm_with_id, Database,
    DatabaseView,
};
use crate::db::pools::pool_with_id;
use crate::db::blacklist::blacklisted_spec;
use crate::error::{conflict, internal, not_found, validation, AppError, AppErrorView, AppResult};
use crate::json::{Document, Json};
use crate::net::{
    canonical_ip, canonical_ip_spec, canonical_optional_ip, canonical_optional_ip_spec, contains,
    family_for_ip, family_text, ip_string, ip_text, ip_value, net_value, parse_ip, parse_net,
    validate_prefix, AddressFamily, Ip,
};
use crate::numbers::decimal_text;
use crate::table::{
    any, append, find, first, first_is_first, first_survives, list, listing, look_up, matching,
    model, models, occurs, others, remove, revise, revised, select,
};
use crate::text::{copy_option, in_order, join3, option_is, same, text_le, trim_spec, view_option};

verus! {

broadcast use vstd::string::group_string_axioms;

/// An address by its text or its identifier.
pub open spec fn address_called(address_or_id: Seq<char>) -> spec_fn(IpAddressRecordView) -> bool {
    |m: IpAddressRecordView| m.address == address_or_id || m.id == address_or_id
}

/// An address by its text.
pub open spec fn address_is(address: Seq<char>) -> spec_fn(IpAddressRecordView) -> bool {
    |m: IpAddressRecordView| m.address == address
}

/// An address by its identifier.
pub open spec fn address_with_id(id: Seq<char>) -> spec_fn(IpAddressRecordView) -> bool {
    |m: IpAddressRecordView| m.id == id
}

/// The fault of a prefix that is longer than an address of the family.
pub open spec fn prefix_fault(family: AddressFamily, prefix: u8) -> Option<AppErrorView> {
    fault_if(
        prefix > family.width(),
        AppErrorView::Validation(
            "prefix length "@ + decimal_text(prefix as nat) + " is invalid for "@ + family_text(
                family,
            ),
        ),
    )
}

/// What a stored address keeps from an import when the host is detected anew, or what is
/// entered in its place.
pub struct AddressDetails {
    pub pool_id: Option<Seq<char>>,
    pub gateway: Option<Seq<char>>,
    pub reverse_dns: Option<Seq<char>>,
    pub metadata: Json,
}

/// The fault of an address that is entered where one is stored already.
pub open spec fn existing_fault(
    existing: Option<IpAddressRecordView>,
    address: Seq<char>,
    status: IpStatus,
) -> Option<AppErrorView> {
    match existing {
        None => None,
        Some(m) => if m.assigned_vm_id is Some || m.status == IpStatus::Used {
            Some(AppErrorView::Conflict("IP address "@ + address + " is already assigned"@))
        } else if m.status == IpStatus::Main && status != IpStatus::Main {
            Some(AppErrorView::Conflict("the detected host address is protected"@))
        } else {
            None
        },
    }
}

/// The details of an address that is entered: where the host's own address is detected
/// anew, its range, gateway and name stay and the detection is merged into what is known of
/// it.
pub open spec fn details_of(
    existing: Option<IpAddressRecordView>,
    spec: NewIpAddressView,
    gateway: Option<Seq<char>>,
    preserve_main: bool,
) -> Result<AddressDetails, AppErrorView> {
    if preserve_main && existing is Some && existing->0.status == IpStatus::Main {
        let m = existing->0;
        if !(m.metadata is Object) {
            Err(
                AppErrorView::Conflict(
                    "existing main host-address metadata is not an object and cannot be safely merged"@,
                ),
            )
        } else if !(spec.metadata is Object) {
            Err(AppErrorView::Validation("detected host-address metadata must be an object"@))
        } else {
            Ok(
                AddressDetails {
                    pool_id: m.pool_id,
                    gateway: m.gateway,
                    reverse_dns: m.reverse_dns,
                    metadata: m.metadata.merged(spec.metadata),
                },
            )
        }
    } else {
        Ok(
            AddressDetails {
                pool_id: spec.pool_id,
                gateway,
                reverse_dns: spec.reverse_dns,
                metadata: spec.metadata,
            },
        )
    }
}

/// The fault of an address that does not fit its range.
pub open spec fn pool_fault(
    pools: Seq<IpPoolView>,
    pool_id: Option<Seq<char>>,
    ip: Ip,
    scope: IpScope,
    prefix: u8,
) -> Option<AppErrorView> {
    match pool_id {
        None => None,
        Some(id) => match find(pools, pool_with_id(id)) {
            None => Some(AppErrorView::NotFound("IP pool"@)),
            Some(pool) => match net_value(pool.cidr) {
                None => Some(AppErrorView::Internal("stored IP pool CIDR is invalid"@)),
                Some(net) => if pool.family != AddressFamily::of(ip) || pool.scope != scope
                    || !net.covers(ip) {
                    Some(
                        AppErrorView::Validation(
                            "address family, scope, and value must match its IP pool"@,
                        ),
                    )
                } else if prefix < net.prefix {
                    Some(
                        AppErrorView::Validation(
                            "address prefix length cannot be broader than its IP pool"@,
                        ),
                    )
                } else {
                    None
                },
            },
        },
    }
}

/// A stored address with what was entered for it.
pub open spec fn entered(
    ip: Ip,
    spec: NewIpAddressView,
    details: AddressDetails,
    now: Timestamp,
) -> spec_fn(IpAddressRecordView) -> IpAddressRecordView {
    |m: IpAddressRecordView|
        IpAddressRecordView {
            pool_id: details.pool_id,
            family: AddressFamily::of(ip),
            prefix_length: spec.prefix_length,
            scope: spec.scope,
            status: spec.status,
            gateway: details.gateway,
            assigned_vm_id: None,
            primary_for_vm: false,
            reverse_dns: details.reverse_dns,
            metadata: details.metadata,
            updated_at: now,
            ..m
        }
}

/// A new address of the inventory.
pub open spec fn new_address(
    ip: Ip,
    spec: NewIpAddressView,
    details: AddressDetails,
    id: Seq<char>,
    now: Timestamp,
) -> IpAddressRecordView {
    IpAddressRecordView {
        id,
        pool_id: details.pool_id,
        address: ip_text(ip),
        family: AddressFamily::of(ip),
        prefix_length: spec.prefix_length,
        scope: spec.scope,
        status: spec.status,
        gateway: details.gateway,
        assigned_vm_id: None,
        primary_for_vm: false,
        reverse_dns: details.reverse_dns,
        metadata: details.metadata,
        created_at: now,
        updated_at: now,
    }
}

/// An address is entered, or a stored one that is not assigned is entered anew.
pub open spec fn upsert_spec(
    db: DatabaseView,
    spec: NewIpAddressView,
    preserve_main: bool,
    id: Seq<char>,
    now: Timestamp,
) -> Result<(DatabaseView, IpAddressRecordView), AppErrorView> {
    match ip_value(spec.address) {
        None => Err(AppErrorView::Validation("IP address is invalid"@)),
        Some(ip) => {
            let family = AddressFamily::of(ip);
            let address = ip_text(ip);
            let existing = find(db.ip_addresses, address_called(address));
            match earlier(
                prefix_fault(family, spec.prefix_length),
                fault_if(
                    spec.status == IpStatus::Used,
                    AppErrorView::Validation("use assign_ip to mark an address as used"@),
                ),
            ) {
                Some(e) => Err(e),
                None => match canonical_optional_ip_spec(spec.gateway, Some(family)) {
                    Err(e) => Err(e),
                    Ok(gateway) => match existing_fault(existing, address, spec.status) {
                        Some(e) => Err(e),
                        None => match details_of(existing, spec, gateway, preserve_main) {
                            Err(e) => Err(e),
                            Ok(details) => match pool_fault(
                                db.ip_pools,
                                details.pool_id,
                                ip,
                                spec.scope,
                                spec.prefix_length,
                            ) {
                                Some(e) => Err(e),
                                None => stored_upsert(db, ip, spec, details, existing, id, now),
                            },
                        },
                    },
                },
            }
        },
    }
}

/// What is stored for an address that may be entered.
pub open spec fn stored_upsert(
    db: DatabaseView,
    ip: Ip,
    spec: NewIpAddressView,
    details: AddressDetails,
    existing: Option<IpAddressRecordView>,
    id: Seq<char>,
    now: Timestamp,
) -> Result<(DatabaseView, IpAddressRecordView), AppErrorView> {
    let address = ip_text(ip);
    let row_id = match existing {
        Some(m) => m.id,
        None => id,
    };
    match find(db.ip_addresses, address_is(address)) {
        Some(m) => {
            let change = entered(ip, spec, details, now);
            Ok(
                (
                    DatabaseView {
                        ip_addresses: revised(db.ip_addresses, address_is(address), change),
                        ..db
                    },
                    change(m),
                ),
            )
        },
        None => if any(db.ip_addresses, address_with_id(row_id)) {
            Err(unique_error("ip_addresses.id"@))
        } else {
            let row = new_address(ip, spec, details, row_id, now);
            Ok((DatabaseView { ip_addresses: db.ip_addresses.push(row), ..db }, row))
        },
    }
}

/// The host's own address is refreshed from a detection that is marked as one.
pub open spec fn upsert_detected_spec(
    db: DatabaseView,
    spec: NewIpAddressView,
    id: Seq<char>,
    now: Timestamp,
) -> Result<(DatabaseView, IpAddressRecordView), AppErrorView> {
    if spec.status != IpStatus::Main {
        Err(AppErrorView::Validation("a detected host address must have main status"@))
    } else if spec.metadata.truth_member("detected_host_address"@) != Some(true) {
        Err(
            AppErrorView::Validation(
                "detected host address metadata is missing its detection marker"@,
            ),
        )
    } else {
        upsert_spec(db, spec, true, id, now)
    }
}

/// An address to be listed.
pub open spec fn listed_address(
    family: Option<AddressFamily>,
    scope: Option<IpScope>,
    status: Option<IpStatus>,
) -> spec_fn(IpAddressRecordView) -> bool {
    |m: IpAddressRecordView|
        (family is None || m.family == family->0) && (scope is None || m.scope == scope->0) && (
        status is None || m.status == status->0)
}

/// An address of a machine.
pub open spec fn address_of_vm(vm_id: Seq<char>) -> spec_fn(IpAddressRecordView) -> bool {
    |m: IpAddressRecordView| m.assigned_vm_id == Some(vm_id)
}

/// In numeric order: version four first. What is no address comes last, in the order of its
/// text.
pub open spec fn numeric_le(a: Seq<char>, b: Seq<char>) -> bool {
    match (ip_value(a), ip_value(b)) {
        (Some(x), Some(y)) => (!x.v6 && y.v6) || (x.v6 == y.v6 && x.bits <= y.bits),
        (Some(_), None) => true,
        (None, Some(_)) => false,
        (None, None) => text_le(a, b),
    }
}

/// In numeric order.
pub open spec fn by_address() -> spec_fn(IpAddressRecordView, IpAddressRecordView) -> bool {
    |a: IpAddressRecordView, b: IpAddressRecordView| numeric_le(a.address, b.address)
}

/// Primary addresses first, then in numeric order.
pub open spec fn by_primary_and_address() -> spec_fn(
    IpAddressRecordView,
    IpAddressRecordView,
) -> bool {
    |a: IpAddressRecordView, b: IpAddressRecordView|
        (a.primary_for_vm && !b.primary_for_vm) || (a.primary_for_vm == b.primary_for_vm
            && numeric_le(a.address, b.address))
}

/// An address is removed where it is neither assigned nor the host's own.
pub open spec fn delete_address_spec(db: DatabaseView, address_or_id: Seq<char>) -> Result<
    (DatabaseView, ()),
    AppErrorView,
> {
    match find(db.ip_addresses, address_called(address_or_id)) {
        None => Err(AppErrorView::NotFound("IP address"@)),
        Some(m) => if m.status == IpStatus::Main || m.assigned_vm_id is Some {
            Err(
                AppErrorView::Conflict("assigned and detected host addresses cannot be deleted"@),
            )
        } else {
            Ok(
                (
                    DatabaseView {
                        ip_addresses: others(db.ip_addresses, address_with_id(m.id)),
                        ..db
                    },
                    (),
                ),
            )
        },
    }
}

/// An address of a machine and a family.
pub open spec fn address_of_vm_and_family(vm_id: Seq<char>, family: AddressFamily) -> spec_fn(
    IpAddressRecordView,
) -> bool {
    |m: IpAddressRecordView| m.assigned_vm_id == Some(vm_id) && m.family == family
}

/// An address that is not the primary one.
pub open spec fn demoted(now: Timestamp) -> spec_fn(IpAddressRecordView) -> IpAddressRecordView {
    |m: IpAddressRecordView| IpAddressRecordView { primary_for_vm: false, updated_at: now, ..m }
}

/// An address that is assigned to a machine.
pub open spec fn assigned(vm_id: Seq<char>, primary: bool, now: Timestamp) -> spec_fn(
    IpAddressRecordView,
) -> IpAddressRecordView {
    |m: IpAddressRecordView|
        IpAddressRecordView {
            status: IpStatus::Used,
            assigned_vm_id: Some(vm_id),
            primary_for_vm: primary,
            updated_at: now,
            ..m
        }
}

/// The fault of an assignment of an address that a machine does not have.
pub open spec fn assignment_fault(
    db: DatabaseView,
    current: IpAddressRecordView,
    address: Seq<char>,
    now: Timestamp,
) -> Option<AppErrorView> {
    earlier(
        match current.pool_id {
            None => None,
            Some(pool_id) => match find(db.ip_pools, pool_with_id(pool_id)) {
                None => Some(AppErrorView::Internal("IP address references a missing pool"@)),
                Some(pool) => fault_if(
                    !pool.enabled,
                    AppErrorView::Conflict(
                        "IP address "@ + address
                            + " belongs to a disabled pool and cannot be newly assigned"@,
                    ),
                ),
            },
        },
        match ip_value(address) {
            None => Some(AppErrorView::Validation("IP address is invalid"@)),
            Some(ip) => match blacklisted_spec(db.ip_blacklist, ip, now) {
                Err(e) => Some(e),
                Ok(true) => Some(
                    AppErrorView::Conflict(
                        "IP address "@ + address + " is blacklisted and cannot be assigned"@,
                    ),
                ),
                Ok(false) => fault_if(
                    current.status != IpStatus::Free,
                    AppErrorView::Conflict("IP address "@ + address + " is not free"@),
                ),
            },
        },
    )
}

/// The addresses after one is assigned.
pub open spec fn assigned_rows(
    rows: Seq<IpAddressRecordView>,
    address: Seq<char>,
    vm_id: Seq<char>,
    primary: bool,
    family: AddressFamily,
    now: Timestamp,
) -> Seq<IpAddressRecordView> {
    let before = if primary {
        revised(rows, address_of_vm_and_family(vm_id, family), demoted(now))
    } else {
        rows
    };
    revised(before, address_is(address), assigned(vm_id, primary, now))
}

/// An address is assigned to a machine: a free one of an enabled range that is not barred,
/// or one that the machine has already. A new primary address takes the place of the
/// machine's primary address of the family.
pub open spec fn assign_spec(
    db: DatabaseView,
    address: Seq<char>,
    vm_id: Seq<char>,
    primary: bool,
    now: Timestamp,
) -> Result<(DatabaseView, IpAddressRecordView), AppErrorView> {
    match canonical_ip_spec(address) {
        Err(e) => Err(e),
        Ok(text) => match find(db.ip_addresses, address_called(text)) {
            None => Err(AppErrorView::NotFound("IP address"@)),
            Some(current) => {
                let fault = if current.assigned_vm_id == Some(vm_id) {
                    fault_if(
                        ip_value(text) is None,
                        AppErrorView::Validation("IP address is invalid"@),
                    )
                } else {
                    assignment_fault(db, current, text, now)
                };
                match fault {
                    Some(e) => Err(e),
                    None => if !any(db.vms, vm_with_id(vm_id)) {
                        Err(reference_error())
                    } else {
                        let after = assigned_rows(
                            db.ip_addresses,
                            text,
                            vm_id,
                            primary,
                            current.family,
                            now,
                        );
                        Ok(
                            (
                                DatabaseView { ip_addresses: after, ..db },
                                find(after, address_called(text))->0,
                            ),
                        )
                    },
                }
            },
        },
    }
}

/// An address that is assigned, by its text.
pub open spec fn used_address(address: Seq<char>) -> spec_fn(IpAddressRecordView) -> bool {
    |m: IpAddressRecordView| m.address == address && m.status == IpStatus::Used
}

/// An address that is assigned to nobody and has a status.
pub open spec fn unassigned(status: IpStatus, now: Timestamp) -> spec_fn(
    IpAddressRecordView,
) -> IpAddressRecordView {
    |m: IpAddressRecordView|
        IpAddressRecordView {
            status,
            assigned_vm_id: None,
            primary_for_vm: false,
            updated_at: now,
            ..m
        }
}

/// An assigned address is released.
pub open spec fn release_spec(db: DatabaseView, address: Seq<char>, now: Timestamp) -> Result<
    (DatabaseView, IpAddressRecordView),
    AppErrorView,
> {
    match canonical_ip_spec(address) {
        Err(e) => Err(e),
        Ok(text) => if !any(db.ip_addresses, used_address(text)) {
            Err(AppErrorView::Conflict("IP address "@ + text + " is not assigned"@))
        } else {
            let after = revised(
                db.ip_addresses,
                used_address(text),
                unassigned(IpStatus::Free, now),
            );
            Ok(
                (
                    DatabaseView { ip_addresses: after, ..db },
                    find(after, address_called(text))->0,
                ),
            )
        },
    }
}

/// The status of an address is set, which releases it; the host's own address keeps its
/// status.
pub open spec fn set_status_spec(
    db: DatabaseView,
    address: Seq<char>,
    status: IpStatus,
    now: Timestamp,
) -> Result<(DatabaseView, IpAddressRecordView), AppErrorView> {
    if status == IpStatus::Used {
        Err(AppErrorView::Validation("use assign_ip to mark an address as used"@))
    } else {
        match canonical_ip_spec(address) {
            Err(e) => Err(e),
            Ok(text) => {
                let current = find(db.ip_addresses, address_called(text));
                if current is Some && current->0.status == IpStatus::Main && status
                    != IpStatus::Main {
                    Err(AppErrorView::Conflict("the detected host address is protected"@))
                } else if !any(db.ip_addresses, address_is(text)) {
                    Err(AppErrorView::NotFound("IP address"@))
                } else {
                    let after = revised(db.ip_addresses, address_is(text), unassigned(status, now));
                    Ok(
                        (
                            DatabaseView { ip_addresses: after, ..db },
                            find(after, address_called(text))->0,
                        ),
                    )
                }
            },
        }
    }
}

fn numeric_in_order(a: &str, b: &str) -> (r: bool)
    ensures
        r == numeric_le(a@, b@),
{
    match (parse_ip(a), parse_ip(b)) {
        (Some(x), Some(y)) => (!x.v6 && y.v6) || (x.v6 == y.v6 && x.bits <= y.bits),
        (Some(_), None) => true,
        (None, Some(_)) => false,
        (None, None) => in_order(a, b),
    }
}

/// What is entered for an address, with its details owned.
struct Details {
    pool_id: Option<String>,
    gateway: Option<String>,
    reverse_dns: Option<String>,
    metadata: Document,
}

impl View for Details {
    type V = AddressDetails;

    closed spec fn view(&self) -> AddressDetails {
        AddressDetails {
            pool_id: view_option(self.pool_id),
            gateway: view_option(self.gateway),
            reverse_dns: view_option(self.reverse_dns),
            metadata: self.metadata@,
        }
    }
}

fn choose_details(
    existing: &Option<IpAddressRecord>,
    spec: &NewIpAddress,
    gateway: Option<String>,
    preserve_main: bool,
) -> (r: AppResult<Details>)
    ensures
        row_result(r) == details_of(model(*existing), spec@, view_option(gateway), preserve_main),
{
    if preserve_main {
        match existing {
            Some(m) => {
                if m.status == IpStatus::Main {
                    if !m.metadata.is_object() {
                        return Err(
                            conflict(
                                "existing main host-address metadata is not an object and cannot be safely merged",
                            ),
                        );
                    }
                    if !spec.metadata.is_object() {
                        return Err(
                            validation("detected host-address metadata must be an object"),
                        );
                    }
                    let mut metadata = m.metadata.clone();
                    metadata.merge(&spec.metadata);
                    return Ok(
                        Details {
                            pool_id: copy_option(&m.pool_id),
                            gateway: copy_option(&m.gateway),
                            reverse_dns: copy_option(&m.reverse_dns),
                            metadata,
                        },
                    );
                }
            },
            None => {},
        }
    }
    Ok(
        Details {
            pool_id: copy_option(&spec.pool_id),
            gateway,
            reverse_dns: copy_option(&spec.reverse_dns),
            metadata: spec.metadata.clone(),
        },
    )
}

impl Database {
    pub(crate) fn find_address(&self, address_or_id: &str) -> (r: Option<IpAddressRecord>)
        ensures
            model(r) == find(self@.ip_addresses, address_called(address_or_id@)),
    {
        let test = |x: &IpAddressRecord| -> (b: bool)
            ensures
                b == address_called(address_or_id@)(x@),
            { same(x.address.as_str(), address_or_id) || same(x.id.as_str(), address_or_id) };
        look_up(&self.ip_addresses, test, Ghost(address_called(address_or_id@)))
    }

    fn check_pool(
        &self,
        pool_id: &Option<String>,
        ip: Ip,
        scope: IpScope,
        prefix: u8,
    ) -> (r: AppResult<()>)
        requires
            ip.wf(),
        ensures
            fault_of(r) == pool_fault(self@.ip_pools, view_option(*pool_id), ip, scope, prefix),
    {
        let id = match pool_id {
            None => {
                return Ok(());
            },
            Some(id) => id,
        };
        let pool = match self.find_pool(id.as_str()) {
            None => {
                return Err(not_found("IP pool"));
            },
            Some(pool) => pool,
        };
        match parse_net(pool.cidr.as_str()) {
            None => Err(internal("stored IP pool CIDR is invalid")),
            Some(net) => {
                if pool.family != family_for_ip(ip) || pool.scope != scope || !contains(net, ip) {
                    return Err(
                        validation("address family, scope, and value must match its IP pool"),
                    );
                }
                if prefix < net.prefix {
                    return Err(
                        validation("address prefix length cannot be broader than its IP pool"),
                    );
                }
                Ok(())
            },
        }
    }

    /// Enters an address.
    pub fn upsert_ip_address(&mut self, spec: &NewIpAddress, id: &str, now: Timestamp) -> (r:
        AppResult<IpAddressRecord>)
        ensures
            settles(
                upsert_spec(old(self)@, spec@, false, id@, now),
                old(self)@,
                final(self)@,
                row_result(r),
            ),
    {
        self.upsert_ip_address_with_policy(spec, false, id, now)
    }

    /// Refreshes the host's own address from a detection.
    pub fn upsert_detected_host_address(
        &mut self,
        spec: &NewIpAddress,
        id: &str,
        now: Timestamp,
    ) -> (r: AppResult<IpAddressRecord>)
        ensures
            settles(
                upsert_detected_spec(old(self)@, spec@, id@, now),
                old(self)@,
                final(self)@,
                row_result(r),
            ),
    {
        if spec.status != IpStatus::Main {
            return Err(validation("a detected host address must have main status"));
        }
        let detected = match spec.metadata.truth_member("detected_host_address") {
            Some(b) => b,
            None => false,
        };
        if !detected {
            return Err(
                validation("detected host address metadata is missing its detection marker"),
            );
        }
        self.upsert_ip_address_with_policy(spec, true, id, now)
    }

    fn upsert_ip_address_with_policy(
        &mut self,
        spec: &NewIpAddress,
        preserve_main: bool,
        id: &str,
        now: Timestamp,
    ) -> (r: AppResult<IpAddressRecord>)
        ensures
            settles(
                upsert_spec(old(self)@, spec@, preserve_main, id@, now),
                old(self)@,
                final(self)@,
                row_result(r),
            ),
    {
        let ip = match parse_ip(spec.address.as_str()) {
            None => {
                return Err(validation("IP address is invalid"));
            },
            Some(ip) => ip,
        };
        let family = family_for_ip(ip);
        match validate_prefix(family, spec.prefix_length) {
            Err(e) => {
                return Err(e);
            },
            Ok(v) => v,
        };
        if spec.status == IpStatus::Used {
            return Err(validation("use assign_ip to mark an address as used"));
        }
        let requested = match canonical_optional_ip(&spec.gateway, Some(family)) {
            Err(e) => {
                return Err(e);
            },
            Ok(v) => v,
        };
        let address = ip_string(ip);
        let existing = self.find_address(address.as_str());
        match &existing {
            Some(m) => {
                if m.assigned_vm_id.is_some() || m.status == IpStatus::Used {
                    return Err(
                        AppError::Conflict(
                            join3("IP address ", address.as_str(), " is already assigned"),
                        ),
                    );
                }
                if m.status == IpStatus::Main && spec.status != IpStatus::Main {
                    return Err(conflict("the detected host address is protected"));
                }
            },
            None => {},
        }
        let details = match choose_details(&existing, spec, requested, preserve_main) {
            Err(e) => {
                return Err(e);
            },
            Ok(v) => v,
        };
        match self.check_pool(&details.pool_id, ip, spec.scope, spec.prefix_length) {
            Err(e) => {
                return Err(e);
            },
            Ok(v) => v,
        };
        self.store_address(ip, address, spec, &details, existing, id, now)
    }

    fn store_address(
        &mut self,
        ip: Ip,
        address: String,
        spec: &NewIpAddress,
        details: &Details,
        existing: Option<IpAddressRecord>,
        id: &str,
        now: Timestamp,
    ) -> (r: AppResult<IpAddressRecord>)
        requires
            address@ == ip_text(ip),
        ensures
            settles(
                stored_upsert(old(self)@, ip, spec@, details@, model(existing), id@, now),
                old(self)@,
                final(self)@,
                row_result(r),
            ),
    {
        let family = family_for_ip(ip);
        let text = address.as_str();
        let chosen = |x: &IpAddressRecord| -> (b: bool)
            ensures
                b == address_is(text@)(x@),
            { same(x.address.as_str(), text) };
        match look_up(&self.ip_addresses, chosen, Ghost(address_is(text@))) {
            Some(row) => {
                let ghost f = entered(ip, spec@, details@, now);
                let change = |x: &IpAddressRecord| -> (y: IpAddressRecord)
                    ensures
                        y@ == f(x@),
                    { IpAddressRecord {
                    id: x.id.clone(),
                    pool_id: copy_option(&details.pool_id),
                    address: x.address.clone(),
                    family,
                    prefix_length: spec.prefix_length,
                    scope: spec.scope,
                    status: spec.status,
                    gateway: copy_option(&details.gateway),
                    assigned_vm_id: None,
                    primary_for_vm: false,
                    reverse_dns: copy_option(&details.reverse_dns),
                    metadata: details.metadata.clone(),
                    created_at: x.created_at,
                    updated_at: now,
                } };
                let shown = change(&row);
                let _ = revise(
                    &mut self.ip_addresses,
                    chosen,
                    change,
                    Ghost(address_is(text@)),
                    Ghost(f),
                );
                Ok(shown)
            },
            None => {
                let row_id = match existing {
                    Some(m) => m.id,
                    None => id.to_owned(),
                };
                let key = row_id.as_str();
                let test = |x: &IpAddressRecord| -> (b: bool)
                    ensures
                        b == address_with_id(key@)(x@),
                    { same(x.id.as_str(), key) };
                if occurs(&self.ip_addresses, test, Ghost(address_with_id(key@))) {
                    return Err(duplicate_value("ip_addresses.id"));
                }
                let row = IpAddressRecord {
                    id: row_id,
                    pool_id: copy_option(&details.pool_id),
                    address,
                    family,
                    prefix_length: spec.prefix_length,
                    scope: spec.scope,
                    status: spec.status,
                    gateway: copy_option(&details.gateway),
                    assigned_vm_id: None,
                    primary_for_vm: false,
                    reverse_dns: copy_option(&details.reverse_dns),
                    metadata: details.metadata.clone(),
                    created_at: now,
                    updated_at: now,
                };
                let shown = row.clone();
                append(&mut self.ip_addresses, row);
                Ok(shown)
            },
        }
    }

    /// The addresses of a family, scope and status, in numeric order.
    pub fn list_ip_addresses(
        &self,
        family: Option<AddressFamily>,
        scope: Option<IpScope>,
        status: Option<IpStatus>,
    ) -> (r: AppResult<Vec<IpAddressRecord>>)
        ensures
            r is Ok,
            listing(
                models(r->Ok_0@),
                matching(self@.ip_addresses, listed_address(family, scope, status)),
                by_address(),
                usize::MAX as int,
            ),
    {
        let ghost p = listed_address(family, scope, status);
        let test = |x: &IpAddressRecord| -> (b: bool)
            ensures
                b == p(x@),
            { (match family {
            None => true,
            Some(f) => x.family == f,
        }) && (match scope {
            None => true,
            Some(s) => x.scope == s,
        }) && (match status {
            None => true,
            Some(s) => x.status == s,
        }) };
        let rows = select(&self.ip_addresses, test, Ghost(p));
        proof {
            text_le_orders();
        }
        let le = |a: &IpAddressRecord, c: &IpAddressRecord| -> (b: bool)
            ensures
                b == by_address()(a@, c@),
            { numeric_in_order(a.address.as_str(), c.address.as_str()) };
        Ok(list(rows, le, usize::MAX, Ghost(by_address())))
    }

    /// The addresses of a machine, primary ones first, then in numeric order.
    pub fn vm_ip_addresses(&self, vm_id: &str) -> (r: AppResult<Vec<IpAddressRecord>>)
        ensures
            r is Ok,
            listing(
                models(r->Ok_0@),
                matching(self@.ip_addresses, address_of_vm(vm_id@)),
                by_primary_and_address(),
                usize::MAX as int,
            ),
    {
        let test = |x: &IpAddressRecord| -> (b: bool)
            ensures
                b == address_of_vm(vm_id@)(x@),
            { option_is(&x.assigned_vm_id, vm_id) };
        let rows = select(&self.ip_addresses, test, Ghost(address_of_vm(vm_id@)));
        proof {
            text_le_orders();
        }
        let le = |a: &IpAddressRecord, c: &IpAddressRecord| -> (b: bool)
            ensures
                b == by_primary_and_address()(a@, c@),
            {
                (a.primary_for_vm && !c.primary_for_vm)
                    || (a.primary_for_vm == c.primary_for_vm
                        && numeric_in_order(a.address.as_str(), c.address.as_str()))
            };
        Ok(list(rows, le, usize::MAX, Ghost(by_primary_and_address())))
    }

    /// The address with a text or an identifier.
    pub fn get_ip_address(&self, address_or_id: &str) -> (r: AppResult<Option<IpAddressRecord>>)
        ensures
            option_result(r) == Ok::<Option<IpAddressRecordView>, AppErrorView>(
                find(self@.ip_addresses, address_called(address_or_id@)),
            ),
    {
        Ok(self.find_address(address_or_id))
    }

    /// Removes an address.
    pub fn delete_ip_address(&mut self, address_or_id: &str) -> (r: AppResult<()>)
        ensures
            settles(
                delete_address_spec(old(self)@, address_or_id@),
                old(self)@,
                final(self)@,
                plain_result(r),
            ),
    {
        let row = match self.find_address(address_or_id) {
            None => {
                return Err(not_found("IP address"));
            },
            Some(row) => row,
        };
        if row.status == IpStatus::Main || row.assigned_vm_id.is_some() {
            return Err(conflict("assigned and detected host addresses cannot be deleted"));
        }
        let id = row.id.as_str();
        let chosen = |x: &IpAddressRecord| -> (b: bool)
            ensures
                b == address_with_id(id@)(x@),
            { same(x.id.as_str(), id) };
        let _ = remove(&mut self.ip_addresses, chosen, Ghost(address_with_id(id@)));
        Ok(())
    }

    fn check_assignment(&self, current: &IpAddressRecord, address: &str, now: Timestamp) -> (r:
        AppResult<()>)
        ensures
            fault_of(r) == assignment_fault(self@, current@, address@, now),
    {
        match &current.pool_id {
            None => {},
            Some(pool_id) => match self.find_pool(pool_id.as_str()) {
                None => {
                    return Err(internal("IP address references a missing pool"));
                },
                Some(pool) => {
                    if !pool.enabled {
                        return Err(
                            AppError::Conflict(
                                join3(
                                    "IP address ",
                                    address,
                                    " belongs to a disabled pool and cannot be newly assigned",
                                ),
                            ),
                        );
                    }
                },
            },
        }
        match parse_ip(address) {
            None => Err(validation("IP address is invalid")),
            Some(ip) => {
                let barred = match self.check_blacklist(ip, now) {
                    Err(e) => {
                        return Err(e);
                    },
                    Ok(v) => v,
                };
                if barred {
                    return Err(
                        AppError::Conflict(
                            join3(
                                "IP address ",
                                address,
                                " is blacklisted and cannot be assigned",
                            ),
                        ),
                    );
                }
                if current.status != IpStatus::Free {
                    return Err(
                        AppError::Conflict(join3("IP address ", address, " is not free")),
                    );
                }
                Ok(())
            },
        }
    }

    /// Assigns an address to a machine.
    pub fn assign_ip(&mut self, address: &str, vm_id: &str, primary: bool, now: Timestamp) -> (r:
        AppResult<IpAddressRecord>)
        ensures
            settles(
                assign_spec(old(self)@, address@, vm_id@, primary, now),
                old(self)@,
                final(self)@,
                row_result(r),
            ),
    {
        let text = match canonical_ip(address) {
            Err(e) => {
                return Err(e);
            },
            Ok(v) => v,
        };
        let text = text.as_str();
        let current = match self.find_address(text) {
            None => {
                return Err(not_found("IP address"));
            },
            Some(row) => row,
        };
        if option_is(&current.assigned_vm_id, vm_id) {
            if parse_ip(text).is_none() {
                return Err(validation("IP address is invalid"));
            }
        } else {
            match self.check_assignment(&current, text, now) {
                Err(e) => {
                    return Err(e);
                },
                Ok(v) => v,
            };
        }
        if !self.has_vm(vm_id) {
            return Err(dangling_reference());
        }
        let family = current.family;
        let ghost rows = self@.ip_addresses;
        if primary {
            let ghost p = address_of_vm_and_family(vm_id@, family);
            let others = |x: &IpAddressRecord| -> (b: bool)
                ensures
                    b == p(x@),
                { option_is(&x.assigned_vm_id, vm_id) && x.family == family };
            let change = |x: &IpAddressRecord| -> (y: IpAddressRecord)
                ensures
                    y@ == demoted(now)(x@),
                { {
                let mut y = x.clone();
                y.primary_for_vm = false;
                y.updated_at = now;
                y
            } };
            let _ = revise(&mut self.ip_addresses, others, change, Ghost(p), Ghost(demoted(now)));
        }
        let ghost between = self@.ip_addresses;
        let ghost f = assigned(vm_id@, primary, now);
        let chosen = |x: &IpAddressRecord| -> (b: bool)
            ensures
                b == address_is(text@)(x@),
            { same(x.address.as_str(), text) };
        let change = |x: &IpAddressRecord| -> (y: IpAddressRecord)
            ensures
                y@ == f(x@),
            { {
            let mut y = x.clone();
            y.status = IpStatus::Used;
            y.assigned_vm_id = Some(vm_id.to_owned());
            y.primary_for_vm = primary;
            y.updated_at = now;
            y
        } };
        let _ = revise(&mut self.ip_addresses, chosen, change, Ghost(address_is(text@)), Ghost(f));
        proof {
            first_survives(
                rows,
                address_of_vm_and_family(vm_id@, family),
                demoted(now),
                address_called(text@),
            );
            first_survives(between, address_is(text@), f, address_called(text@));
        }
        match self.find_address(text) {
            Some(row) => Ok(row),
            None => {
                proof {
                    assert(false);
                }
                Err(not_found("IP address"))
            },
        }
    }

    /// Releases an assigned address.
    pub fn release_ip(&mut self, address: &str, now: Timestamp) -> (r: AppResult<IpAddressRecord>)
        ensures
            settles(
                release_spec(old(self)@, address@, now),
                old(self)@,
                final(self)@,
                row_result(r),
            ),
    {
        let text = match canonical_ip(address) {
            Err(e) => {
                return Err(e);
            },
            Ok(v) => v,
        };
        let text = text.as_str();
        let chosen = |x: &IpAddressRecord| -> (b: bool)
            ensures
                b == used_address(text@)(x@),
            { same(x.address.as_str(), text) && x.status == IpStatus::Used };
        if !occurs(&self.ip_addresses, chosen, Ghost(used_address(text@))) {
            return Err(
                AppError::Conflict(join3("IP address ", text, " is not assigned")),
            );
        }
        let ghost rows = self@.ip_addresses;
        let ghost f = unassigned(IpStatus::Free, now);
        let change = |x: &IpAddressRecord| -> (y: IpAddressRecord)
            ensures
                y@ == f(x@),
            { {
            let mut y = x.clone();
            y.status = IpStatus::Free;
            y.assigned_vm_id = None;
            y.primary_for_vm = false;
            y.updated_at = now;
            y
        } };
        let _ = revise(&mut self.ip_addresses, chosen, change, Ghost(used_address(text@)), Ghost(f));
        proof {
            first_is_first(rows, used_address(text@));
            first_is_first(rows, address_called(text@));
            first_survives(rows, used_address(text@), f, address_called(text@));
        }
        match self.find_address(text) {
            Some(row) => Ok(row),
            None => {
                proof {
                    assert(address_called(text@)(rows[first(rows, used_address(text@))->0]));
                    assert(false);
                }
                Err(not_found("IP address"))
            },
        }
    }

    /// Sets the status of an address, which releases it.
    pub fn set_ip_status(&mut self, address: &str, status: IpStatus, now: Timestamp) -> (r:
        AppResult<IpAddressRecord>)
        ensures
            settles(
                set_status_spec(old(self)@, address@, status, now),
                old(self)@,
                final(self)@,
                row_result(r),
            ),
    {
        if status == IpStatus::Used {
            return Err(validation("use assign_ip to mark an address as used"));
        }
        let text = match canonical_ip(address) {
            Err(e) => {
                return Err(e);
            },
            Ok(v) => v,
        };
        let text = text.as_str();
        match self.find_address(text) {
            Some(row) => {
                if row.status == IpStatus::Main && status != IpStatus::Main {
                    return Err(conflict("the detected host address is protected"));
                }
            },
            None => {},
        }
        let chosen = |x: &IpAddressRecord| -> (b: bool)
            ensures
                b == address_is(text@)(x@),
            { same(x.address.as_str(), text) };
        if !occurs(&self.ip_addresses, chosen, Ghost(address_is(text@))) {
            return Err(not_found("IP address"));
        }
        let ghost rows = self@.ip_addresses;
        let ghost f = unassigned(status, now);
        let change = |x: &IpAddressRecord| -> (y: IpAddressRecord)
            ensures
                y@ == f(x@),
            { {
            let mut y = x.clone();
            y.status = status;
            y.assigned_vm_id = None;
            y.primary_for_vm = false;
            y.updated_at = now;
            y
        } };
        let _ = revise(&mut self.ip_addresses, chosen, change, Ghost(address_is(text@)), Ghost(f));
        proof {
            first_is_first(rows, address_is(text@));
            first_is_first(rows, address_called(text@));
            first_survives(rows, address_is(text@), f, address_called(text@));
        }
        match self.find_address(text) {
            Some(row) => Ok(row),
            None => {
                proof {
                    assert(address_called(text@)(rows[first(rows, address_is(text@))->0]));
                    assert(false);
                }
                Err(not_found("IP address"))
            },
        }
    }
}

/// An address is in use exactly where it is assigned to a machine.
pub open spec fn usage_is_assignment(rows: Seq<IpAddressRecordView>) -> bool {
    forall|i: int|
        0 <= i < rows.len() ==> ((#[trigger] rows[i]).status == IpStatus::Used
            <==> rows[i].assigned_vm_id is Some)
}

/// Only an assignment puts an address to use, and every way out of use takes the machine
/// away: an address is in use exactly where it is assigned.
pub proof fn use_goes_with_assignment(
    db: DatabaseView,
    spec: NewIpAddressView,
    preserve_main: bool,
    address: Seq<char>,
    vm_id: Seq<char>,
    primary: bool,
    status: IpStatus,
    id: Seq<char>,
    now: Timestamp,
)
    requires
        usage_is_assignment(db.ip_addresses),
    ensures
        upsert_spec(db, spec, preserve_main, id, now) matches Ok(done) ==> usage_is_assignment(
            done.0.ip_addresses,
        ),
        assign_spec(db, address, vm_id, primary, now) matches Ok(done) ==> usage_is_assignment(
            done.0.ip_addresses,
        ),
        release_spec(db, address, now) matches Ok(done) ==> usage_is_assignment(
            done.0.ip_addresses,
        ),
        set_status_spec(db, address, status, now) matches Ok(done) ==> usage_is_assignment(
            done.0.ip_addresses,
        ),
{
}

/// The host's own address is never turned into an ordinary one, assigned or removed.
pub proof fn the_host_address_is_protected(
    db: DatabaseView,
    spec: NewIpAddressView,
    preserve_main: bool,
    address: Seq<char>,
    vm_id: Seq<char>,
    primary: bool,
    status: IpStatus,
    id: Seq<char>,
    now: Timestamp,
    ip: Ip,
)
    requires
        ip_value(trim_spec(address)) == Some(ip),
        ip_value(spec.address) == Some(ip),
        find(db.ip_addresses, address_called(ip_text(ip))) matches Some(m) && m.status
            == IpStatus::Main && m.assigned_vm_id is None,
        ip_value(ip_text(ip)) == Some(ip),
    ensures
        spec.status != IpStatus::Main ==> upsert_spec(db, spec, preserve_main, id, now) is Err,
        assign_spec(db, address, vm_id, primary, now) is Err,
        status != IpStatus::Main ==> set_status_spec(db, address, status, now) is Err,
        delete_address_spec(db, ip_text(ip)) is Err,
{
}

/// A barred address, and an address of a disabled range, goes to no machine that does not
/// have it already.
pub proof fn barred_addresses_are_not_assigned(
    db: DatabaseView,
    address: Seq<char>,
    vm_id: Seq<char>,
    primary: bool,
    now: Timestamp,
    ip: Ip,
)
    requires
        ip_value(trim_spec(address)) == Some(ip),
        ip_value(ip_text(ip)) == Some(ip),
        find(db.ip_addresses, address_called(ip_text(ip))) matches Some(m) && m.assigned_vm_id
            != Some(vm_id) && (blacklisted_spec(db.ip_blacklist, ip, now) == Ok::<
            bool,
            AppErrorView,
        >(true) || (m.pool_id matches Some(pool_id) && find(db.ip_pools, pool_with_id(pool_id))
            matches Some(pool) && !pool.enabled)),
    ensures
        assign_spec(db, address, vm_id, primary, now) is Err,
{
}

} // verus!

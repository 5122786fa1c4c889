//! In which order rows are listed, and which rows: stated over the fields of the rows.

use vstd::prelude::*;

use crate::db::rows::{
    AdminView, ApiKeyView, AuditEventView, CustomerTokenRecordView, DnsServerView,
    FirewallDirection, HostMetricView, IpAbuseRecordView, IpAddressRecordView, IpBlacklistEntryView,
    IpPoolView, IpScope, IpStatus, IsoImageView, JobStatus, JobView, SettingRecordView,
    SnapshotView, Timestamp, VmFirewallRuleView, VmMetricView, VmView,
};
use crate::db::store::{limit_of, DatabaseView};
use crate::db::addresses::{address_of_vm, by_address, by_primary_and_address, listed_address};
use crate::db::admins::{admins_shown, by_username};
use crate::db::api_keys::{keys_shown, newest_key_first};
use crate::db::blacklist::{enabled_and_newest_first, listed_abuse, listed_entry, observed_last};
use crate::db::history::{last_entry_first, listed_audit, listed_snapshot, newest_snapshot_first};
use crate::db::jobs::{listed_job, newest_job_first};
use crate::db::metrics::{
    bucket_of, host_points, host_since, host_time, latest_first, latest_of, stands_for, vm_points,
    vm_since, vm_time,
};
use crate::db::network_security::{by_rule_order, rule_of};
use crate::db::pools::by_scope_and_name;
use crate::db::settings::{
    by_family_name_version, by_key, by_priority, dns_scope, listed_iso, listed_setting,
};
use crate::db::tokens::{customers_shown, newest_link_first, open_link_of};
use crate::db::vms::{by_vm_name, vms_shown};
use crate::net::{ip_value, AddressFamily};
use crate::table::{all, all_match, listing, listings_hold_the_first, matching};
use crate::text::{lowercase, text_le, text_le_is_total};

verus! {

broadcast use vstd::string::group_string_axioms;

/// The rules of a machine are listed in the order in which they apply: within a direction by
/// priority, and with equal priorities by the time of entry. All rules of the machine are
/// listed, and no other.
pub proof fn rules_apply_in_order(
    db: DatabaseView,
    vm_id: Seq<char>,
    result: Seq<VmFirewallRuleView>,
)
    requires
        listing(
            result,
            matching(db.firewall_rules, rule_of(vm_id)),
            by_rule_order(),
            usize::MAX as int,
        ),
    ensures
        forall|i: int, j: int|
            0 <= i < j < result.len() && (#[trigger] result[i]).direction == (
            #[trigger] result[j]).direction ==> result[i].priority <= result[j].priority,
        forall|i: int, j: int|
            0 <= i < j < result.len() && (#[trigger] result[i]).direction == (
            #[trigger] result[j]).direction && result[i].priority == result[j].priority
                ==> result[i].created_at <= result[j].created_at,
        forall|i: int, j: int|
            0 <= i < j < result.len() && (#[trigger] result[i]).direction == (
            #[trigger] result[j]).direction && result[i].priority == result[j].priority
                && result[i].created_at == result[j].created_at ==> text_le(
                result[i].id,
                result[j].id,
            ),
        forall|i: int, j: int|
            0 <= i < j < result.len() && (#[trigger] result[i]).direction
                == FirewallDirection::Ingress ==> (#[trigger] result[j]).direction
                == FirewallDirection::Ingress,
        forall|m: VmFirewallRuleView| #[trigger]
            result.contains(m) ==> db.firewall_rules.contains(m) && m.vm_id == vm_id,
        db.firewall_rules.len() <= usize::MAX ==> forall|m: VmFirewallRuleView|
            db.firewall_rules.contains(m) && m.vm_id == vm_id ==> #[trigger] result.contains(m),
{
    let p = rule_of(vm_id);
    listings_hold_the_first(
        result,
        db.firewall_rules,
        p,
        by_rule_order(),
        usize::MAX as int,
    );
    assert forall|m: VmFirewallRuleView|
        db.firewall_rules.contains(m) && m.vm_id == vm_id && db.firewall_rules.len()
            <= usize::MAX implies #[trigger] result.contains(m) by {
        assert(p(m));
    }
}

/// Jobs are listed newest first, those of the wanted state and machine; where the limit cuts
/// the list, what is left out is no newer than what is listed.
pub proof fn jobs_are_listed_newest_first(
    db: DatabaseView,
    status: Option<JobStatus>,
    vm_id: Option<Seq<char>>,
    limit: usize,
    result: Seq<JobView>,
)
    requires
        listing(
            result,
            matching(db.jobs, listed_job(status, vm_id)),
            newest_job_first(),
            limit_of(limit, 1000),
        ),
    ensures
        forall|i: int, j: int|
            0 <= i < j < result.len() ==> (#[trigger] result[i]).created_at >= (
            #[trigger] result[j]).created_at,
        forall|m: JobView| #[trigger]
            result.contains(m) ==> db.jobs.contains(m) && (status is None || Some(m.status)
                == status) && (vm_id is None || m.vm_id == vm_id),
        result.len() <= 1000,
        limit == 0 ==> result.len() <= 100,
        0 < limit ==> result.len() <= limit,
        forall|m: JobView, i: int|
            db.jobs.contains(m) && (status is None || Some(m.status) == status) && (vm_id is None
                || m.vm_id == vm_id) && !(#[trigger] result.contains(m)) && 0 <= i < result.len()
                ==> (#[trigger] result[i]).created_at >= m.created_at,
        db.jobs.len() <= 100 && (limit == 0 || limit >= 100) ==> forall|m: JobView|
            db.jobs.contains(m) && (status is None || Some(m.status) == status) && (vm_id is None
                || m.vm_id == vm_id) ==> #[trigger] result.contains(m),
{
    let p = listed_job(status, vm_id);
    let n = limit_of(limit, 1000);
    listings_hold_the_first(result, db.jobs, p, newest_job_first(), n);
    assert forall|m: JobView|
        db.jobs.contains(m) && (status is None || Some(m.status) == status) && (vm_id is None
            || m.vm_id == vm_id) && db.jobs.len() <= n implies #[trigger] result.contains(m) by {
        assert(p(m));
    }
    assert forall|m: JobView, i: int|
        db.jobs.contains(m) && (status is None || Some(m.status) == status) && (vm_id is None
            || m.vm_id == vm_id) && !(#[trigger] result.contains(m)) && 0 <= i
            < result.len() implies (#[trigger] result[i]).created_at >= m.created_at by {
        assert(p(m));
    }
}

/// Addresses are listed in numeric order, version four before version six.
pub proof fn addresses_are_listed_in_numeric_order(
    db: DatabaseView,
    family: Option<AddressFamily>,
    scope: Option<IpScope>,
    status: Option<IpStatus>,
    result: Seq<IpAddressRecordView>,
)
    requires
        listing(
            result,
            matching(db.ip_addresses, listed_address(family, scope, status)),
            by_address(),
            usize::MAX as int,
        ),
    ensures
        forall|i: int, j: int|
            0 <= i < j < result.len() && ip_value((#[trigger] result[i]).address) is Some
                && ip_value((#[trigger] result[j]).address) is Some ==> {
                let a = ip_value(result[i].address)->0;
                let b = ip_value(result[j].address)->0;
                (a.v6 ==> b.v6) && (a.v6 == b.v6 ==> a.bits <= b.bits)
            },
        forall|m: IpAddressRecordView| #[trigger]
            result.contains(m) ==> db.ip_addresses.contains(m) && (family is None || Some(m.family)
                == family) && (scope is None || Some(m.scope) == scope) && (status is None || Some(
                m.status,
            ) == status),
        db.ip_addresses.len() <= usize::MAX ==> forall|m: IpAddressRecordView|
            db.ip_addresses.contains(m) && (family is None || Some(m.family) == family) && (scope
                is None || Some(m.scope) == scope) && (status is None || Some(m.status) == status)
                ==> #[trigger] result.contains(m),
{
    let p = listed_address(family, scope, status);
    listings_hold_the_first(result, db.ip_addresses, p, by_address(), usize::MAX as int);
    assert forall|m: IpAddressRecordView|
        db.ip_addresses.contains(m) && (family is None || Some(m.family) == family) && (scope
            is None || Some(m.scope) == scope) && (status is None || Some(m.status) == status)
            && db.ip_addresses.len() <= usize::MAX implies #[trigger] result.contains(m) by {
        assert(p(m));
    }
}

/// The addresses of a machine are listed with the primary ones first, then in numeric order.
pub proof fn primary_addresses_are_listed_first(
    db: DatabaseView,
    vm_id: Seq<char>,
    result: Seq<IpAddressRecordView>,
)
    requires
        listing(
            result,
            matching(db.ip_addresses, address_of_vm(vm_id)),
            by_primary_and_address(),
            usize::MAX as int,
        ),
    ensures
        forall|i: int, j: int|
            0 <= i < j < result.len() && (#[trigger] result[j]).primary_for_vm ==> (
            #[trigger] result[i]).primary_for_vm,
        forall|i: int, j: int|
            0 <= i < j < result.len() && (#[trigger] result[i]).primary_for_vm == (
            #[trigger] result[j]).primary_for_vm && ip_value(result[i].address) is Some && ip_value(
                result[j].address,
            ) is Some ==> {
                let a = ip_value(result[i].address)->0;
                let b = ip_value(result[j].address)->0;
                (a.v6 ==> b.v6) && (a.v6 == b.v6 ==> a.bits <= b.bits)
            },
        forall|m: IpAddressRecordView| #[trigger]
            result.contains(m) ==> db.ip_addresses.contains(m) && m.assigned_vm_id == Some(vm_id),
        db.ip_addresses.len() <= usize::MAX ==> forall|m: IpAddressRecordView|
            db.ip_addresses.contains(m) && m.assigned_vm_id == Some(vm_id)
                ==> #[trigger] result.contains(m),
{
    let p = address_of_vm(vm_id);
    listings_hold_the_first(result, db.ip_addresses, p, by_primary_and_address(), usize::MAX as int);
    assert forall|m: IpAddressRecordView|
        db.ip_addresses.contains(m) && m.assigned_vm_id == Some(vm_id) && db.ip_addresses.len()
            <= usize::MAX implies #[trigger] result.contains(m) by {
        assert(p(m));
    }
}

/// All ranges are listed: private ones before public ones, then version four before version
/// six, then by name, the case of letters aside.
pub proof fn ranges_are_listed_by_scope_and_name(db: DatabaseView, result: Seq<IpPoolView>)
    requires
        listing(result, db.ip_pools, by_scope_and_name(), db.ip_pools.len() as int),
    ensures
        forall|i: int, j: int|
            0 <= i < j < result.len() && (#[trigger] result[i]).scope == IpScope::Public ==> (
            #[trigger] result[j]).scope == IpScope::Public,
        forall|i: int, j: int|
            0 <= i < j < result.len() && (#[trigger] result[i]).scope == (
            #[trigger] result[j]).scope && result[i].family == AddressFamily::V6
                ==> result[j].family == AddressFamily::V6,
        forall|i: int, j: int|
            0 <= i < j < result.len() && (#[trigger] result[i]).scope == (
            #[trigger] result[j]).scope && result[i].family == result[j].family ==> text_le(
                lowercase(result[i].name),
                lowercase(result[j].name),
            ),
        forall|m: IpPoolView| #[trigger] result.contains(m) <==> db.ip_pools.contains(m),
{
    all_match(db.ip_pools);
    listings_hold_the_first(
        result,
        db.ip_pools,
        all(),
        by_scope_and_name(),
        db.ip_pools.len() as int,
    );
    assert forall|m: IpPoolView| db.ip_pools.contains(m) implies #[trigger] result.contains(m) by {
        assert(all::<IpPoolView>()(m));
    }
}

/// The entries that bar networks are listed: enabled ones before disabled ones, then the
/// newest first; where only those in force are asked for, no disabled or expired one is
/// listed.
pub proof fn entries_are_listed_newest_first(
    db: DatabaseView,
    active_only: bool,
    now: Timestamp,
    result: Seq<IpBlacklistEntryView>,
)
    requires
        listing(
            result,
            matching(db.ip_blacklist, listed_entry(active_only, now)),
            enabled_and_newest_first(),
            usize::MAX as int,
        ),
    ensures
        forall|i: int, j: int|
            0 <= i < j < result.len() && (#[trigger] result[j]).enabled ==> (
            #[trigger] result[i]).enabled,
        forall|i: int, j: int|
            0 <= i < j < result.len() && (#[trigger] result[i]).enabled == (
            #[trigger] result[j]).enabled ==> result[i].created_at >= result[j].created_at,
        forall|m: IpBlacklistEntryView| #[trigger]
            result.contains(m) ==> db.ip_blacklist.contains(m) && (active_only ==> m.enabled && (
            m.expires_at is None || m.expires_at->0 > now)),
        db.ip_blacklist.len() <= usize::MAX ==> forall|m: IpBlacklistEntryView|
            db.ip_blacklist.contains(m) && (active_only ==> m.enabled && (m.expires_at is None
                || m.expires_at->0 > now)) ==> #[trigger] result.contains(m),
{
    let p = listed_entry(active_only, now);
    listings_hold_the_first(
        result,
        db.ip_blacklist,
        p,
        enabled_and_newest_first(),
        usize::MAX as int,
    );
    assert forall|m: IpBlacklistEntryView|
        db.ip_blacklist.contains(m) && (active_only ==> m.enabled && (m.expires_at is None
            || m.expires_at->0 > now)) && db.ip_blacklist.len()
            <= usize::MAX implies #[trigger] result.contains(m) by {
        assert(p(m));
    }
}

/// Complaints are listed with those that were observed last first, and of these the ones
/// that were reported last.
pub proof fn complaints_are_listed_latest_first(
    db: DatabaseView,
    address: Option<Seq<char>>,
    vm_id: Option<Seq<char>>,
    unresolved_only: bool,
    limit: usize,
    result: Seq<IpAbuseRecordView>,
)
    requires
        listing(
            result,
            matching(db.ip_abuse, listed_abuse(address, vm_id, unresolved_only)),
            observed_last(),
            limit_of(limit, 5000),
        ),
    ensures
        forall|i: int, j: int|
            0 <= i < j < result.len() ==> (#[trigger] result[i]).observed_at >= (
            #[trigger] result[j]).observed_at,
        forall|i: int, j: int|
            0 <= i < j < result.len() && (#[trigger] result[i]).observed_at == (
            #[trigger] result[j]).observed_at ==> result[i].reported_at >= result[j].reported_at,
        forall|m: IpAbuseRecordView| #[trigger]
            result.contains(m) ==> db.ip_abuse.contains(m) && (address is None || Some(m.address)
                == address) && (vm_id is None || m.vm_id == vm_id) && (unresolved_only
                ==> m.resolved_at is None),
        result.len() <= 5000,
        db.ip_abuse.len() <= 100 && (limit == 0 || limit >= 100) ==> forall|m: IpAbuseRecordView|
            db.ip_abuse.contains(m) && (address is None || Some(m.address) == address) && (vm_id
                is None || m.vm_id == vm_id) && (unresolved_only ==> m.resolved_at is None)
                ==> #[trigger] result.contains(m),
{
    let p = listed_abuse(address, vm_id, unresolved_only);
    let n = limit_of(limit, 5000);
    listings_hold_the_first(result, db.ip_abuse, p, observed_last(), n);
    assert forall|m: IpAbuseRecordView|
        db.ip_abuse.contains(m) && (address is None || Some(m.address) == address) && (vm_id
            is None || m.vm_id == vm_id) && (unresolved_only ==> m.resolved_at is None)
            && db.ip_abuse.len() <= n implies #[trigger] result.contains(m) by {
        assert(p(m));
    }
}

/// The snapshots of a machine are listed newest first.
pub proof fn snapshots_are_listed_newest_first(
    db: DatabaseView,
    vm_id: Seq<char>,
    result: Seq<SnapshotView>,
)
    requires
        listing(
            result,
            matching(db.snapshots, listed_snapshot(vm_id)),
            newest_snapshot_first(),
            usize::MAX as int,
        ),
    ensures
        forall|i: int, j: int|
            0 <= i < j < result.len() ==> (#[trigger] result[i]).created_at >= (
            #[trigger] result[j]).created_at,
        forall|m: SnapshotView| #[trigger]
            result.contains(m) ==> db.snapshots.contains(m) && m.vm_id == vm_id,
        db.snapshots.len() <= usize::MAX ==> forall|m: SnapshotView|
            db.snapshots.contains(m) && m.vm_id == vm_id ==> #[trigger] result.contains(m),
{
    let p = listed_snapshot(vm_id);
    listings_hold_the_first(result, db.snapshots, p, newest_snapshot_first(), usize::MAX as int);
    assert forall|m: SnapshotView|
        db.snapshots.contains(m) && m.vm_id == vm_id && db.snapshots.len()
            <= usize::MAX implies #[trigger] result.contains(m) by {
        assert(p(m));
    }
}

/// The audit trail is listed backwards, from an entry on and about a resource; what the
/// limit leaves out is older.
pub proof fn the_audit_trail_is_listed_backwards(
    db: DatabaseView,
    before_id: Option<i64>,
    resource_type: Option<Seq<char>>,
    resource_id: Option<Seq<char>>,
    limit: usize,
    result: Seq<AuditEventView>,
)
    requires
        listing(
            result,
            matching(db.audit, listed_audit(before_id, resource_type, resource_id)),
            last_entry_first(),
            limit_of(limit, 1000),
        ),
    ensures
        forall|i: int, j: int|
            0 <= i < j < result.len() ==> (#[trigger] result[i]).id >= (#[trigger] result[j]).id,
        forall|m: AuditEventView| #[trigger]
            result.contains(m) ==> db.audit.contains(m) && (before_id is None || m.id
                < before_id->0) && (resource_type is None || Some(m.resource_type)
                == resource_type) && (resource_id is None || m.resource_id == resource_id),
        result.len() <= 1000,
        forall|m: AuditEventView, i: int|
            db.audit.contains(m) && (before_id is None || m.id < before_id->0) && (resource_type
                is None || Some(m.resource_type) == resource_type) && (resource_id is None
                || m.resource_id == resource_id) && !(#[trigger] result.contains(m)) && 0 <= i
                < result.len() ==> (#[trigger] result[i]).id >= m.id,
        db.audit.len() <= 100 && (limit == 0 || limit >= 100) ==> forall|m: AuditEventView|
            db.audit.contains(m) && (before_id is None || m.id < before_id->0) && (resource_type
                is None || Some(m.resource_type) == resource_type) && (resource_id is None
                || m.resource_id == resource_id) ==> #[trigger] result.contains(m),
{
    let p = listed_audit(before_id, resource_type, resource_id);
    let n = limit_of(limit, 1000);
    listings_hold_the_first(result, db.audit, p, last_entry_first(), n);
    assert forall|m: AuditEventView|
        db.audit.contains(m) && (before_id is None || m.id < before_id->0) && (resource_type
            is None || Some(m.resource_type) == resource_type) && (resource_id is None
            || m.resource_id == resource_id) && db.audit.len()
            <= n implies #[trigger] result.contains(m) by {
        assert(p(m));
    }
    assert forall|m: AuditEventView, i: int|
        db.audit.contains(m) && (before_id is None || m.id < before_id->0) && (resource_type
            is None || Some(m.resource_type) == resource_type) && (resource_id is None
            || m.resource_id == resource_id) && !(#[trigger] result.contains(m)) && 0 <= i
            < result.len() implies (#[trigger] result[i]).id >= m.id by {
        assert(p(m));
    }
}

/// The name servers of a scope are listed by priority, then in the order of entry.
pub proof fn name_servers_are_listed_by_priority(
    db: DatabaseView,
    pool_id: Option<Seq<char>>,
    vm_id: Option<Seq<char>>,
    result: Seq<DnsServerView>,
)
    requires
        listing(
            result,
            matching(db.dns_servers, dns_scope(pool_id, vm_id)),
            by_priority(),
            usize::MAX as int,
        ),
    ensures
        forall|i: int, j: int|
            0 <= i < j < result.len() ==> (#[trigger] result[i]).priority <= (
            #[trigger] result[j]).priority && (result[i].priority == result[j].priority
                ==> result[i].id <= result[j].id),
        forall|m: DnsServerView| #[trigger]
            result.contains(m) ==> db.dns_servers.contains(m) && m.pool_id == pool_id && m.vm_id
                == vm_id,
        db.dns_servers.len() <= usize::MAX ==> forall|m: DnsServerView|
            db.dns_servers.contains(m) && m.pool_id == pool_id && m.vm_id == vm_id
                ==> #[trigger] result.contains(m),
{
    let p = dns_scope(pool_id, vm_id);
    listings_hold_the_first(result, db.dns_servers, p, by_priority(), usize::MAX as int);
    assert forall|m: DnsServerView|
        db.dns_servers.contains(m) && m.pool_id == pool_id && m.vm_id == vm_id
            && db.dns_servers.len() <= usize::MAX implies #[trigger] result.contains(m) by {
        assert(p(m));
    }
}

/// Settings are listed by key; sealed ones only where they are asked for.
pub proof fn settings_are_listed_by_key(
    db: DatabaseView,
    include_encrypted: bool,
    result: Seq<SettingRecordView>,
)
    requires
        listing(
            result,
            matching(db.settings, listed_setting(include_encrypted)),
            by_key(),
            usize::MAX as int,
        ),
    ensures
        forall|i: int, j: int|
            0 <= i < j < result.len() ==> text_le(
                (#[trigger] result[i]).key,
                (#[trigger] result[j]).key,
            ),
        forall|m: SettingRecordView| #[trigger]
            result.contains(m) ==> db.settings.contains(m) && (!include_encrypted
                ==> !m.encrypted),
        db.settings.len() <= usize::MAX ==> forall|m: SettingRecordView|
            db.settings.contains(m) && (include_encrypted || !m.encrypted)
                ==> #[trigger] result.contains(m),
{
    let p = listed_setting(include_encrypted);
    listings_hold_the_first(result, db.settings, p, by_key(), usize::MAX as int);
    assert forall|m: SettingRecordView|
        db.settings.contains(m) && (include_encrypted || !m.encrypted) && db.settings.len()
            <= usize::MAX implies #[trigger] result.contains(m) by {
        assert(p(m));
    }
}

/// Installation images are listed by family, then name, then version; disabled ones only
/// where they are asked for.
pub proof fn images_are_listed_by_family(
    db: DatabaseView,
    include_disabled: bool,
    result: Seq<IsoImageView>,
)
    requires
        listing(
            result,
            matching(db.isos, listed_iso(include_disabled)),
            by_family_name_version(),
            usize::MAX as int,
        ),
    ensures
        forall|i: int, j: int|
            0 <= i < j < result.len() ==> text_le(
                (#[trigger] result[i]).os_family,
                (#[trigger] result[j]).os_family,
            ),
        forall|i: int, j: int|
            0 <= i < j < result.len() && (#[trigger] result[i]).os_family == (
            #[trigger] result[j]).os_family ==> text_le(
                lowercase(result[i].name),
                lowercase(result[j].name),
            ),
        forall|i: int, j: int|
            0 <= i < j < result.len() && (#[trigger] result[i]).os_family == (
            #[trigger] result[j]).os_family && result[i].name == result[j].name ==> text_le(
                result[i].version,
                result[j].version,
            ),
        forall|m: IsoImageView| #[trigger]
            result.contains(m) ==> db.isos.contains(m) && (!include_disabled ==> m.enabled),
        db.isos.len() <= usize::MAX ==> forall|m: IsoImageView|
            db.isos.contains(m) && (include_disabled || m.enabled)
                ==> #[trigger] result.contains(m),
{
    let p = listed_iso(include_disabled);
    listings_hold_the_first(result, db.isos, p, by_family_name_version(), usize::MAX as int);
    assert forall|m: IsoImageView|
        db.isos.contains(m) && (include_disabled || m.enabled) && db.isos.len()
            <= usize::MAX implies #[trigger] result.contains(m) by {
        assert(p(m));
    }
    assert forall|i: int, j: int| 0 <= i < j < result.len() implies text_le(
        (#[trigger] result[i]).os_family,
        (#[trigger] result[j]).os_family,
    ) by {
        text_le_is_total(result[i].os_family, result[j].os_family);
    }
    assert forall|i: int, j: int|
        0 <= i < j < result.len() && (#[trigger] result[i]).os_family == (
        #[trigger] result[j]).os_family implies text_le(
        lowercase(result[i].name),
        lowercase(result[j].name),
    ) by {
        text_le_is_total(result[i].os_family, result[j].os_family);
        text_le_is_total(lowercase(result[i].name), lowercase(result[j].name));
    }
    assert forall|i: int, j: int|
        0 <= i < j < result.len() && (#[trigger] result[i]).os_family == (
        #[trigger] result[j]).os_family && result[i].name == result[j].name implies text_le(
        result[i].version,
        result[j].version,
    ) by {
        text_le_is_total(result[i].os_family, result[j].os_family);
        text_le_is_total(lowercase(result[i].name), lowercase(result[j].name));
    }
}

/// All administrators are listed by name, the case of letters aside; no password hash is
/// shown.
pub proof fn administrators_are_listed_by_name(db: DatabaseView, result: Seq<AdminView>)
    requires
        listing(result, admins_shown(db.admins), by_username(), db.admins.len() as int),
    ensures
        forall|i: int, j: int|
            0 <= i < j < result.len() ==> text_le(
                lowercase((#[trigger] result[i]).username),
                lowercase((#[trigger] result[j]).username),
            ),
        forall|i: int| 0 <= i < db.admins.len() ==> result.contains((#[trigger] db.admins[i]).admin),
        result.len() == db.admins.len(),
{
    let rows = admins_shown(db.admins);
    all_match(rows);
    listings_hold_the_first(result, rows, all(), by_username(), db.admins.len() as int);
    assert forall|i: int| 0 <= i < db.admins.len() implies result.contains(
        (#[trigger] db.admins[i]).admin,
    ) by {
        assert(rows[i] == db.admins[i].admin);
        assert(rows.contains(rows[i]));
        assert(all::<AdminView>()(rows[i]));
    }
}

/// All credentials are listed newest first.
pub proof fn credentials_are_listed_newest_first(db: DatabaseView, result: Seq<ApiKeyView>)
    requires
        listing(result, keys_shown(db.api_keys), newest_key_first(), db.api_keys.len() as int),
    ensures
        forall|i: int, j: int|
            0 <= i < j < result.len() ==> (#[trigger] result[i]).created_at >= (
            #[trigger] result[j]).created_at,
        forall|i: int|
            0 <= i < db.api_keys.len() ==> result.contains((#[trigger] db.api_keys[i]).key),
        result.len() == db.api_keys.len(),
{
    let rows = keys_shown(db.api_keys);
    all_match(rows);
    listings_hold_the_first(result, rows, all(), newest_key_first(), db.api_keys.len() as int);
    assert forall|i: int| 0 <= i < db.api_keys.len() implies result.contains(
        (#[trigger] db.api_keys[i]).key,
    ) by {
        assert(rows[i] == db.api_keys[i].key);
        assert(rows.contains(rows[i]));
        assert(all::<ApiKeyView>()(rows[i]));
    }
}

/// All machines are listed by name, the case of letters aside.
pub proof fn machines_are_listed_by_name(db: DatabaseView, result: Seq<VmView>)
    requires
        listing(result, vms_shown(db.vms), by_vm_name(), db.vms.len() as int),
    ensures
        forall|i: int, j: int|
            0 <= i < j < result.len() ==> text_le(
                lowercase((#[trigger] result[i]).name),
                lowercase((#[trigger] result[j]).name),
            ),
        forall|i: int| 0 <= i < db.vms.len() ==> result.contains((#[trigger] db.vms[i]).vm),
        result.len() == db.vms.len(),
{
    let rows = vms_shown(db.vms);
    all_match(rows);
    listings_hold_the_first(result, rows, all(), by_vm_name(), db.vms.len() as int);
    assert forall|i: int| 0 <= i < db.vms.len() implies result.contains(
        (#[trigger] db.vms[i]).vm,
    ) by {
        assert(rows[i] == db.vms[i].vm);
        assert(rows.contains(rows[i]));
        assert(all::<VmView>()(rows[i]));
    }
}

/// Of the links of a machine those are listed that are neither revoked nor expired, the
/// newest first.
pub proof fn open_links_are_listed_newest_first(
    db: DatabaseView,
    vm_id: Seq<char>,
    now: Timestamp,
    result: Seq<CustomerTokenRecordView>,
)
    requires
        listing(
            result,
            matching(customers_shown(db.customer_tokens), open_link_of(vm_id, now)),
            newest_link_first(),
            usize::MAX as int,
        ),
    ensures
        forall|i: int, j: int|
            0 <= i < j < result.len() ==> (#[trigger] result[i]).created_at >= (
            #[trigger] result[j]).created_at,
        forall|m: CustomerTokenRecordView| #[trigger]
            result.contains(m) ==> m.vm_id == vm_id && m.revoked_at is None && m.expires_at > now,
        db.customer_tokens.len() <= usize::MAX ==> forall|i: int|
            0 <= i < db.customer_tokens.len() && (#[trigger] db.customer_tokens[i]).token.vm_id
                == vm_id && db.customer_tokens[i].token.revoked_at is None
                && db.customer_tokens[i].token.expires_at > now ==> result.contains(
                db.customer_tokens[i].token,
            ),
{
    let rows = customers_shown(db.customer_tokens);
    let p = open_link_of(vm_id, now);
    listings_hold_the_first(result, rows, p, newest_link_first(), usize::MAX as int);
    assert forall|i: int|
        0 <= i < db.customer_tokens.len() && (#[trigger] db.customer_tokens[i]).token.vm_id
            == vm_id && db.customer_tokens[i].token.revoked_at is None
            && db.customer_tokens[i].token.expires_at > now && db.customer_tokens.len()
            <= usize::MAX implies result.contains(db.customer_tokens[i].token) by {
        assert(rows[i] == db.customer_tokens[i].token);
        assert(rows.contains(rows[i]));
        assert(p(rows[i]));
    }
}

/// Measurements are listed latest first.
pub proof fn measurements_are_listed_latest_first(
    db: DatabaseView,
    vm_id: Seq<char>,
    since: Timestamp,
    limit: usize,
    host: Seq<HostMetricView>,
    machine: Seq<VmMetricView>,
)
    requires
        listing(
            host,
            host_points(db.host_metrics, since, limit_of(limit, 10_000)),
            latest_first(host_time()),
            limit_of(limit, 10_000),
        ),
        listing(
            machine,
            vm_points(db.vm_metrics, vm_id, since, limit_of(limit, 10_000)),
            latest_first(vm_time()),
            limit_of(limit, 10_000),
        ),
    ensures
        forall|i: int, j: int|
            0 <= i < j < host.len() ==> (#[trigger] host[i]).sampled_at >= (
            #[trigger] host[j]).sampled_at,
        forall|i: int, j: int|
            0 <= i < j < machine.len() ==> (#[trigger] machine[i]).sampled_at >= (
            #[trigger] machine[j]).sampled_at,
        forall|m: HostMetricView| #[trigger]
            host.contains(m) ==> db.host_metrics.contains(m) && m.sampled_at >= since,
        forall|m: VmMetricView| #[trigger]
            machine.contains(m) ==> db.vm_metrics.contains(m) && m.vm_id == vm_id && m.sampled_at
                >= since,
{
    let n = limit_of(limit, 10_000);
    let p = stands_for(
        db.host_metrics,
        host_since(since),
        host_time(),
        since,
        bucket_of(since, latest_of(db.host_metrics, host_since(since), host_time()), n),
    );
    listings_hold_the_first(host, db.host_metrics, p, latest_first(host_time()), n);
    let q = stands_for(
        db.vm_metrics,
        vm_since(vm_id, since),
        vm_time(),
        since,
        bucket_of(since, latest_of(db.vm_metrics, vm_since(vm_id, since), vm_time()), n),
    );
    listings_hold_the_first(machine, db.vm_metrics, q, latest_first(vm_time()), n);
}

} // verus!

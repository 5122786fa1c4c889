//! How rows are looked up, and what becomes of the rows that are entered anew. Stated over the
//! fields of the rows.

use vstd::prelude::*;

use crate::db::rows::{
    AdminAuthView, IpAddressRecordView, IpPoolPatchView, IpPoolView, IpStatus, JobStatus, JobView,
    NewIpAddressView, NewJobView, Timestamp, VmFirewallRuleView, VmNetworkSecurityView,
    VmTrafficEnforcementView,
};
use crate::db::store::{generation_fault, vm_with_id, DatabaseView};
use crate::db::addresses::{
    address_called, address_is, entered, upsert_detected_spec, upsert_spec, AddressDetails,
};
use crate::db::admins::{admin_named, admin_with_id, or_value};
use crate::db::inventory::holds_address;
use crate::db::jobs::{
    active_bootstrap, enqueue_bootstrap_spec, job_entered_first, job_with_id, job_with_key,
};
use crate::db::keys::text_of_address;
use crate::db::network_security::{link_of, policy_of, rule_called};
use crate::db::pools::{patch_pool_spec, patched_pool, pool_with_id};
use crate::db::protection::takes;
use crate::db::queue::{is_job, is_machine_of, is_made_from};
use crate::db::rotation::is_refused;
use crate::error::AppErrorView;
use crate::json::Extract;
use crate::net::{ip_text, ip_value, net_value, AddressFamily, Ip, Net};
use crate::table::{
    any, find, first, first_is_first, foremost, least, least_comes_first, orders, revised,
};
use crate::text::{is_whitespace, lowercase, trim_spec};

verus! {

broadcast use vstd::string::group_string_axioms;

/// What is found by a condition is a row that meets it, the first that does; nothing is found
/// exactly where no row does.
pub proof fn what_is_found<M>(rows: Seq<M>, p: spec_fn(M) -> bool)
    ensures
        find(rows, p) is None <==> forall|k: int| 0 <= k < rows.len() ==> !p(#[trigger] rows[k]),
        find(rows, p) matches Some(m) ==> exists|k: int|
            0 <= k < rows.len() && rows[k] == m && p(#[trigger] rows[k]) && forall|j: int|
                0 <= j < k ==> !p(#[trigger] rows[j]),
        any(rows, p) <==> find(rows, p) is Some,
{
    first_is_first(rows, p);
}

/// Rows are looked up by what they are called: an administrator by an identifier or by a name,
/// whatever its case, a job by an identifier or by a key, a range by an identifier, a rule by
/// its machine and an identifier, the policy and the link of a machine by the machine, and an
/// address by its text or by an identifier.
pub proof fn what_rows_are_looked_up_by(
    admin: AdminAuthView,
    job: JobView,
    pool: IpPoolView,
    rule: VmFirewallRuleView,
    policy: VmNetworkSecurityView,
    link: VmTrafficEnforcementView,
    address: IpAddressRecordView,
    key: Seq<char>,
    id: Seq<char>,
)
    ensures
        admin_with_id(key)(admin) <==> admin.admin.id == key,
        admin_named(key)(admin) <==> lowercase(admin.admin.username) == lowercase(key),
        job_with_id(key)(job) <==> job.id == key,
        job_with_key(key)(job) <==> job.idempotency_key == Some(key),
        pool_with_id(key)(pool) <==> pool.id == key,
        rule_called(key, id)(rule) <==> rule.vm_id == key && rule.id == id,
        policy_of(key)(policy) <==> policy.vm_id == key,
        link_of(key)(link) <==> link.vm_id == key,
        address_called(key)(address) <==> address.address == key || address.id == key,
{
    crate::wording::case_is_that_of_ascii(' ', admin.admin.username, key);
}

/// A start of the tools of a machine that waits or runs for a generation, or for none.
pub open spec fn is_starting(j: JobView, vm_id: Seq<char>, generation: Option<Seq<char>>) -> bool {
    &&& j.kind == "vm.guest_tools.bootstrap"@
    &&& j.vm_id == Some(vm_id)
    &&& j.status == JobStatus::Queued || j.status == JobStatus::Running
    &&& generation is Some ==> j.payload.extract("expected_generation"@) == Extract::Text(
        generation->0,
    )
    &&& generation is None ==> j.payload.extract("expected_generation"@) == Extract::Absent
}

/// A start of the tools is queued once for each generation: one that waits or runs is given
/// again, the one that was entered first; else a job is made without a key. A request for
/// anything else, or for no machine, is refused.
pub proof fn a_start_of_the_tools_is_queued_once(
    db: DatabaseView,
    request: NewJobView,
    id: Seq<char>,
    now: Timestamp,
)
    ensures
        ({
            let done = enqueue_bootstrap_spec(db, request, id, now);
            let generation = request.payload.text_member("expected_generation"@);
            let fit = request.kind == "vm.guest_tools.bootstrap"@ && request.vm_id is Some && (
            generation is Some ==> generation_fault(generation->0) is None);
            let under_way = exists|k: int|
                0 <= k < db.jobs.len() && is_starting(
                    #[trigger] db.jobs[k],
                    request.vm_id->0,
                    generation,
                );
            &&& !fit ==> is_refused(done, db)
            &&& fit && under_way ==> {
                &&& done is Ok
                &&& done->Ok_0.0 == db
                &&& db.jobs.contains(done->Ok_0.1)
                &&& is_starting(done->Ok_0.1, request.vm_id->0, generation)
                &&& forall|k: int|
                    0 <= k < db.jobs.len() && is_starting(
                        #[trigger] db.jobs[k],
                        request.vm_id->0,
                        generation,
                    ) ==> done->Ok_0.1.created_at <= db.jobs[k].created_at
            }
            &&& fit && !under_way && (is_job(db, id) || !is_machine_of(db, request.vm_id->0))
                ==> is_refused(done, db)
            &&& fit && !under_way && !is_job(db, id) && is_machine_of(db, request.vm_id->0) ==> {
                &&& done is Ok
                &&& done->Ok_0.0 == (DatabaseView { jobs: db.jobs.push(done->Ok_0.1), ..db })
                &&& is_made_from(done->Ok_0.1, request, id, now)
                &&& done->Ok_0.1.payload == request.payload
                &&& done->Ok_0.1.idempotency_key is None
            }
        }),
{
    let generation = request.payload.text_member("expected_generation"@);
    let vm_id = request.vm_id->0;
    let p = active_bootstrap(vm_id, generation);
    assert(orders(job_entered_first()));
    least_comes_first(db.jobs, p, job_entered_first());
    assert forall|j: JobView| #[trigger] p(j) <==> is_starting(j, vm_id, generation) by {}
    if exists|k: int|
        0 <= k < db.jobs.len() && is_starting(#[trigger] db.jobs[k], vm_id, generation) {
        let k = choose|k: int|
            0 <= k < db.jobs.len() && is_starting(#[trigger] db.jobs[k], vm_id, generation);
        assert(p(db.jobs[k]));
        assert forall|k: int|
            0 <= k < db.jobs.len() && is_starting(
                #[trigger] db.jobs[k],
                vm_id,
                generation,
            ) implies foremost(db.jobs, p, job_entered_first())->0.created_at
            <= db.jobs[k].created_at by {
            assert(p(db.jobs[k]));
        }
    } else if least(db.jobs, p, job_entered_first()) is Some {
        let k = least(db.jobs, p, job_entered_first())->0;
        assert(is_starting(db.jobs[k], vm_id, generation));
    }
    let q = job_with_id(id);
    first_is_first(db.jobs, q);
    if is_job(db, id) {
        let k = choose|k: int| 0 <= k < db.jobs.len() && (#[trigger] db.jobs[k]).id == id;
        assert(q(db.jobs[k]));
    }
    if any(db.jobs, q) {
        assert(db.jobs[first(db.jobs, q)->0].id == id);
    }
    let r = vm_with_id(vm_id);
    first_is_first(db.vms, r);
    if is_machine_of(db, vm_id) {
        let k = choose|k: int| 0 <= k < db.vms.len() && (#[trigger] db.vms[k]).vm.id == vm_id;
        assert(r(db.vms[k]));
    }
    if any(db.vms, r) {
        assert(db.vms[first(db.vms, r)->0].vm.id == vm_id);
    }
}

/// A range takes every field of a change and keeps the others; what it covers stays. A blank
/// name, a gateway outside the range and a size of packets that cannot be are refused.
pub proof fn a_range_takes_a_change(
    db: DatabaseView,
    id: Seq<char>,
    patch: IpPoolPatchView,
    now: Timestamp,
    i: int,
    net: Net,
)
    requires
        0 <= i < db.ip_pools.len(),
        db.ip_pools[i].id == id,
        forall|j: int| 0 <= j < db.ip_pools.len() && (#[trigger] db.ip_pools[j]).id == id ==> j == i,
        net_value(db.ip_pools[i].cidr) == Some(net),
    ensures
        ({
            let m = db.ip_pools[i];
            let name = if patch.name is Some {
                trim_spec(patch.name->0)
            } else {
                trim_spec(m.name)
            };
            let mtu = if patch.mtu is Some {
                patch.mtu->0
            } else {
                m.mtu
            };
            let done = patch_pool_spec(db, id, patch, now);
            &&& done is Ok ==> {
                let r = done->Ok_0.1;
                &&& done->Ok_0.0 == (DatabaseView { ip_pools: db.ip_pools.update(i, r), ..db })
                &&& r.id == m.id && r.cidr == m.cidr && r.family == m.family && r.created_at
                    == m.created_at
                &&& r.name == name
                &&& takes(patch.scope, m.scope, r.scope)
                &&& r.bridge == (if patch.bridge is Some {
                    patch.bridge
                } else {
                    m.bridge
                })
                &&& r.vlan_id == (if patch.vlan_id is Some {
                    patch.vlan_id
                } else {
                    m.vlan_id
                })
                &&& r.mtu == mtu
                &&& takes(patch.enabled, m.enabled, r.enabled)
                &&& r.updated_at == now
                &&& patch.gateway is None && m.gateway is None ==> r.gateway is None
                &&& r.gateway matches Some(text) ==> (ip_value(text) matches Some(ip) && net.covers(
                    ip,
                ))
                &&& name.len() > 0 && 576 <= mtu <= 9216
            }
            &&& name.len() == 0 || mtu < 576 || mtu > 9216 ==> is_refused(done, db)
            &&& name.len() > 0 && 576 <= mtu <= 9216 && patch.gateway is None && m.gateway is None
                ==> done is Ok
        }),
{
    let p = pool_with_id(id);
    first_is_first(db.ip_pools, p);
    assert(p(db.ip_pools[i]));
    let m = db.ip_pools[i];
    let name = trim_spec(or_value(patch.name, m.name));
    trimming_twice(or_value(patch.name, m.name));
    if patch_pool_spec(db, id, patch, now) is Ok {
        let r = patch_pool_spec(db, id, patch, now)->Ok_0.1;
        let f = patched_pool(patch, name, r.gateway, now);
        assert(revised(db.ip_pools, p, f) =~= db.ip_pools.update(i, f(m)));
    }
}

proof fn trimming_twice(s: Seq<char>)
    ensures
        trim_spec(trim_spec(s)) == trim_spec(s),
{
    crate::wording::trimming_leaves_the_core(s);
    let t = trim_spec(s);
    crate::wording::trimming_leaves_the_core(t);
    let (a, b) = choose|a: int, b: int| #[trigger]
        crate::wording::is_core(s, a, b) && t == s.subrange(a, b);
    let (c, d) = choose|c: int, d: int| #[trigger]
        crate::wording::is_core(t, c, d) && trim_spec(t) == t.subrange(c, d);
    if a < b {
        assert(t[0] == s[a] && t[t.len() - 1] == s[b - 1]);
        if c > 0 {
            assert(is_whitespace(t[0]));
        }
        if d < t.len() {
            assert(is_whitespace(t[t.len() - 1]));
        }
        assert(t.subrange(0, t.len() as int) =~= t);
    } else {
        assert(t.len() == 0);
        assert(t.subrange(c, d) =~= t);
    }
}

/// An address that is free, reserved or the host's own is entered anew with what is given, in
/// its place and under its identifier; it belongs to no machine then. The host's own address
/// stays the host's own.
pub proof fn an_address_is_entered_anew(
    db: DatabaseView,
    spec: NewIpAddressView,
    ip: Ip,
    id: Seq<char>,
    now: Timestamp,
    i: int,
)
    requires
        holds_address(db.ip_addresses, i, spec.address, ip),
        ip_value(spec.address) == Some(ip),
        spec.gateway is None,
        spec.pool_id is None,
        spec.status != IpStatus::Used,
        spec.prefix_length <= (if ip.v6 {
            128int
        } else {
            32
        }),
    ensures
        ({
            let m = db.ip_addresses[i];
            let done = upsert_spec(db, spec, false, id, now);
            let fit = m.assigned_vm_id is None && m.status != IpStatus::Used && (m.status
                == IpStatus::Main ==> spec.status == IpStatus::Main);
            let row = IpAddressRecordView {
                id: m.id,
                pool_id: None,
                address: ip_text(ip),
                family: if ip.v6 {
                    AddressFamily::V6
                } else {
                    AddressFamily::V4
                },
                prefix_length: spec.prefix_length,
                scope: spec.scope,
                status: spec.status,
                gateway: None,
                assigned_vm_id: None,
                primary_for_vm: false,
                reverse_dns: spec.reverse_dns,
                metadata: spec.metadata,
                created_at: m.created_at,
                updated_at: now,
            };
            &&& !fit ==> is_refused(done, db)
            &&& fit ==> done == Ok::<(DatabaseView, IpAddressRecordView), AppErrorView>(
                (
                    DatabaseView { ip_addresses: db.ip_addresses.update(i, row), ..db },
                    row,
                ),
            )
        }),
{
    let rows = db.ip_addresses;
    let p = address_called(ip_text(ip));
    let q = address_is(ip_text(ip));
    first_is_first(rows, p);
    first_is_first(rows, q);
    assert(p(rows[i]) && q(rows[i]));
    assert forall|j: int| 0 <= j < rows.len() && (#[trigger] rows[j]).address == ip_text(
        ip,
    ) implies j == i by {
        assert(text_of_address()(rows[j]) == text_of_address()(rows[i]));
    }
    let details = AddressDetails {
        pool_id: None,
        gateway: None,
        reverse_dns: spec.reverse_dns,
        metadata: spec.metadata,
    };
    let f = entered(ip, spec, details, now);
    assert(revised(rows, q, f) =~= rows.update(i, f(rows[i])));
}

/// A detected address of the host must be told as the host's own and as detected; where the
/// host's own address is known, its range, its gateway and its name stay, and what was
/// detected is merged into what is known of it.
pub proof fn a_detected_address_keeps_what_is_known(
    db: DatabaseView,
    spec: NewIpAddressView,
    ip: Ip,
    id: Seq<char>,
    now: Timestamp,
    i: int,
)
    requires
        ip_value(spec.address) == Some(ip),
        holds_address(db.ip_addresses, i, spec.address, ip),
        db.ip_addresses[i].status == IpStatus::Main,
    ensures
        spec.status != IpStatus::Main || spec.metadata.truth_member("detected_host_address"@)
            != Some(true) ==> is_refused(upsert_detected_spec(db, spec, id, now), db),
        upsert_detected_spec(db, spec, id, now) matches Ok(done) ==> {
            let m = db.ip_addresses[i];
            &&& done.0 == (DatabaseView {
                ip_addresses: db.ip_addresses.update(i, done.1),
                ..db
            })
            &&& done.1.id == m.id && done.1.address == m.address && done.1.pool_id == m.pool_id
                && done.1.gateway == m.gateway && done.1.reverse_dns == m.reverse_dns
            &&& done.1.metadata == m.metadata.merged(spec.metadata)
            &&& done.1.status == IpStatus::Main && done.1.assigned_vm_id is None
            &&& done.1.prefix_length == spec.prefix_length && done.1.scope == spec.scope
            &&& done.1.created_at == m.created_at && done.1.updated_at == now
        },
{
    let rows = db.ip_addresses;
    let p = address_called(ip_text(ip));
    let q = address_is(ip_text(ip));
    first_is_first(rows, p);
    first_is_first(rows, q);
    assert(p(rows[i]) && q(rows[i]));
    assert forall|j: int| 0 <= j < rows.len() && (#[trigger] rows[j]).address == ip_text(
        ip,
    ) implies j == i by {
        assert(text_of_address()(rows[j]) == text_of_address()(rows[i]));
    }
    let m = rows[i];
    let details = AddressDetails {
        pool_id: m.pool_id,
        gateway: m.gateway,
        reverse_dns: m.reverse_dns,
        metadata: m.metadata.merged(spec.metadata),
    };
    let f = entered(ip, spec, details, now);
    assert(revised(rows, q, f) =~= rows.update(i, f(m)));
}

} // verus!

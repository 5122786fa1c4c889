//! How machines are protected: what a change of a policy or of a rule makes of it, and what is
//! recorded of an application. Stated over the fields of the rows.

use vstd::prelude::*;

use crate::db::rows::{
    HypervisorNetworkSecurityPatchView, HypervisorNetworkSecurityView, NewVmFirewallRuleView,
    Timestamp, VmFirewallRulePatchView, VmFirewallRuleView, VmNetworkSecurityPatchView,
    VmNetworkSecurityView,
};
use crate::db::store::{vm_with_id, DatabaseView};
use crate::db::blacklist::canonical_network_spec;
use crate::db::network_security::{
    create_rule_spec, delete_rule_spec, last_revision, link_of, mark_applied_spec,
    mark_host_applied_spec, merged_rule, normalized_rule, patch_host_spec, patch_policy_spec,
    patch_rule_spec, policy_of, rule_called, rule_of, rule_with_id, safe_default, set_traffic_spec,
    untouched_preset, with_rule,
};
use crate::db::queue::is_machine_of;
use crate::db::rotation::is_refused;
use crate::error::AppErrorView;
use crate::net::net_text;
use crate::table::{any, count, first, first_is_first, others, others_has, replaced_by, revised};

verus! {

broadcast use vstd::string::group_string_axioms;

/// A field becomes what is given, and stays where nothing is.
pub open spec fn takes<T>(given: Option<T>, before: T, after: T) -> bool {
    &&& given is Some ==> after == given->0
    &&& given is None ==> after == before
}

/// The policy of a machine is the row at a place.
pub open spec fn has_policy(db: DatabaseView, vm_id: Seq<char>, i: int) -> bool {
    &&& 0 <= i < db.network_security.len()
    &&& db.network_security[i].vm_id == vm_id
    &&& forall|j: int|
        0 <= j < db.network_security.len() && (#[trigger] db.network_security[j]).vm_id == vm_id
            ==> j == i
}

proof fn policy_is_found(db: DatabaseView, vm_id: Seq<char>, i: int)
    requires
        has_policy(db, vm_id, i),
    ensures
        first(db.network_security, policy_of(vm_id)) == Some(i),
        any(db.network_security, last_revision(vm_id)) == (db.network_security[i].revision
            >= i64::MAX),
        forall|f: spec_fn(VmNetworkSecurityView) -> VmNetworkSecurityView|
            (#[trigger] revised(db.network_security, policy_of(vm_id), f))
                == db.network_security.update(i, f(db.network_security[i])),
{
    let rows = db.network_security;
    let p = policy_of(vm_id);
    let q = last_revision(vm_id);
    first_is_first(rows, p);
    first_is_first(rows, q);
    assert(p(rows[i]));
    if rows[i].revision >= i64::MAX {
        assert(q(rows[i]));
    }
    if any(rows, q) {
        assert(rows[first(rows, q)->0].vm_id == vm_id);
    }
    assert forall|f: spec_fn(VmNetworkSecurityView) -> VmNetworkSecurityView|
        (#[trigger] revised(rows, p, f)) == rows.update(i, f(rows[i])) by {
        assert(revised(rows, p, f) =~= rows.update(i, f(rows[i])));
    }
}

/// A policy of which nothing but the revision and what was said of it last has changed.
pub open spec fn is_next_revision(
    before: VmNetworkSecurityView,
    after: VmNetworkSecurityView,
    now: Timestamp,
) -> bool {
    &&& after.revision == before.revision + 1
    &&& after.last_error is None
    &&& after.updated_at == now
    &&& after == (VmNetworkSecurityView {
        revision: after.revision,
        last_error: after.last_error,
        updated_at: after.updated_at,
        ..before
    })
}

/// A policy takes every field of a change and keeps the others; its revision grows by one,
/// its applied revision stays, and its last error is gone. A policy that is not accepted, or
/// that has no next revision, is refused.
pub proof fn a_policy_takes_a_change(
    db: DatabaseView,
    vm_id: Seq<char>,
    patch: VmNetworkSecurityPatchView,
    verdict: Option<AppErrorView>,
    now: Timestamp,
    i: int,
)
    requires
        has_policy(db, vm_id, i),
        patch.firewall_enabled is Some || patch.ddos_enabled is Some
            || patch.default_ingress_action is Some || patch.default_egress_action is Some
            || patch.syn_rate_limit_pps is Some || patch.udp_rate_limit_pps is Some
            || patch.icmp_rate_limit_pps is Some || patch.new_connection_limit_pps is Some
            || patch.concurrent_connection_limit is Some || patch.port_scan_protection is Some
            || patch.drop_invalid_packets is Some,
    ensures
        ({
            let m = db.network_security[i];
            let done = patch_policy_spec(db, vm_id, patch, verdict, now);
            &&& verdict is Some || m.revision >= i64::MAX ==> is_refused(done, db)
            &&& verdict is None && m.revision < i64::MAX ==> {
                let r = done->Ok_0.1;
                &&& done is Ok
                &&& done->Ok_0.0 == (DatabaseView {
                    network_security: db.network_security.update(i, r),
                    ..db
                })
                &&& r.vm_id == vm_id
                &&& takes(patch.firewall_enabled, m.firewall_enabled, r.firewall_enabled)
                &&& takes(patch.ddos_enabled, m.ddos_enabled, r.ddos_enabled)
                &&& takes(
                    patch.default_ingress_action,
                    m.default_ingress_action,
                    r.default_ingress_action,
                )
                &&& takes(
                    patch.default_egress_action,
                    m.default_egress_action,
                    r.default_egress_action,
                )
                &&& takes(patch.syn_rate_limit_pps, m.syn_rate_limit_pps, r.syn_rate_limit_pps)
                &&& takes(patch.udp_rate_limit_pps, m.udp_rate_limit_pps, r.udp_rate_limit_pps)
                &&& takes(patch.icmp_rate_limit_pps, m.icmp_rate_limit_pps, r.icmp_rate_limit_pps)
                &&& takes(
                    patch.new_connection_limit_pps,
                    m.new_connection_limit_pps,
                    r.new_connection_limit_pps,
                )
                &&& takes(
                    patch.concurrent_connection_limit,
                    m.concurrent_connection_limit,
                    r.concurrent_connection_limit,
                )
                &&& takes(
                    patch.port_scan_protection,
                    m.port_scan_protection,
                    r.port_scan_protection,
                )
                &&& takes(
                    patch.drop_invalid_packets,
                    m.drop_invalid_packets,
                    r.drop_invalid_packets,
                )
                &&& r.revision == m.revision + 1
                &&& r.applied_revision == m.applied_revision
                &&& r.last_applied_at == m.last_applied_at
                &&& r.last_error is None
                &&& r.created_at == m.created_at
                &&& r.updated_at == now
            }
        }),
{
    policy_is_found(db, vm_id, i);
}

/// A change of a policy that asks for nothing gives the policy as it is.
pub proof fn an_empty_change_changes_nothing(
    db: DatabaseView,
    vm_id: Seq<char>,
    patch: VmNetworkSecurityPatchView,
    verdict: Option<AppErrorView>,
    now: Timestamp,
    i: int,
)
    requires
        has_policy(db, vm_id, i),
        patch.firewall_enabled is None && patch.ddos_enabled is None
            && patch.default_ingress_action is None && patch.default_egress_action is None
            && patch.syn_rate_limit_pps is None && patch.udp_rate_limit_pps is None
            && patch.icmp_rate_limit_pps is None && patch.new_connection_limit_pps is None
            && patch.concurrent_connection_limit is None && patch.port_scan_protection is None
            && patch.drop_invalid_packets is None,
    ensures
        patch_policy_spec(db, vm_id, patch, verdict, now) == Ok::<
            (DatabaseView, VmNetworkSecurityView),
            AppErrorView,
        >((db, db.network_security[i])),
{
    policy_is_found(db, vm_id, i);
}

/// Of a machine without a policy nothing is changed, applied or ruled.
pub proof fn without_a_policy_all_is_refused(
    db: DatabaseView,
    vm_id: Seq<char>,
    patch: VmNetworkSecurityPatchView,
    verdict: Option<AppErrorView>,
    revision: u64,
    error: Option<Seq<char>>,
    spec: NewVmFirewallRuleView,
    owner_type: Seq<char>,
    owner_id: Option<Seq<char>>,
    limit: u64,
    id: Seq<char>,
    now: Timestamp,
)
    requires
        forall|j: int|
            0 <= j < db.network_security.len() ==> (#[trigger] db.network_security[j]).vm_id
                != vm_id,
    ensures
        is_refused(patch_policy_spec(db, vm_id, patch, verdict, now), db),
        is_refused(mark_applied_spec(db, vm_id, revision, error, now), db),
        is_refused(
            create_rule_spec(db, vm_id, spec, owner_type, owner_id, limit, id, now),
            db,
        ),
        is_refused(delete_rule_spec(db, vm_id, id, now), db),
{
    first_is_first(db.network_security, policy_of(vm_id));
}

/// What is recorded of an application of the current revision: where it went well, that
/// revision and when; in any case what went wrong, if anything. The policy itself stays, and
/// an application of any other revision is refused.
pub proof fn an_application_is_recorded(
    db: DatabaseView,
    vm_id: Seq<char>,
    revision: u64,
    error: Option<Seq<char>>,
    now: Timestamp,
    i: int,
)
    requires
        has_policy(db, vm_id, i),
    ensures
        ({
            let m = db.network_security[i];
            let done = mark_applied_spec(db, vm_id, revision, error, now);
            &&& revision != m.revision || revision > i64::MAX ==> is_refused(done, db)
            &&& revision == m.revision && revision <= i64::MAX ==> {
                let r = done->Ok_0.1;
                &&& done is Ok
                &&& done->Ok_0.0 == (DatabaseView {
                    network_security: db.network_security.update(i, r),
                    ..db
                })
                &&& r == (VmNetworkSecurityView {
                    applied_revision: r.applied_revision,
                    last_applied_at: r.last_applied_at,
                    last_error: error,
                    updated_at: now,
                    ..m
                })
                &&& error is None ==> r.applied_revision == Some(m.revision) && r.last_applied_at
                    == Some(now)
                &&& error is Some ==> r.applied_revision == m.applied_revision && r.last_applied_at
                    == m.last_applied_at
            }
        }),
{
    policy_is_found(db, vm_id, i);
}

/// An optional network is given in its usual form.
pub open spec fn is_usual(given: Option<Seq<char>>, kept: Option<Seq<char>>) -> bool {
    &&& given is None ==> kept is None
    &&& given is Some ==> canonical_network_spec(given->0) is Ok && kept == Some(
        net_text(canonical_network_spec(given->0)->Ok_0),
    )
}

/// Some rule has an identifier.
pub open spec fn is_rule(db: DatabaseView, id: Seq<char>) -> bool {
    exists|j: int| 0 <= j < db.firewall_rules.len() && (#[trigger] db.firewall_rules[j]).id == id
}

/// The networks of a rule can be read.
pub open spec fn networks_are_sound(spec: NewVmFirewallRuleView) -> bool {
    &&& spec.source_cidr is Some ==> canonical_network_spec(spec.source_cidr->0) is Ok
    &&& spec.destination_cidr is Some ==> canonical_network_spec(spec.destination_cidr->0) is Ok
}

/// A rule holds what was asked for, with its networks in their usual form.
pub open spec fn holds_rule(r: VmFirewallRuleView, spec: NewVmFirewallRuleView) -> bool {
    &&& r.priority == spec.priority
    &&& r.direction == spec.direction
    &&& r.action == spec.action
    &&& r.protocol == spec.protocol
    &&& is_usual(spec.source_cidr, r.source_cidr)
    &&& is_usual(spec.destination_cidr, r.destination_cidr)
    &&& r.source_ports == spec.source_ports
    &&& r.destination_ports == spec.destination_ports
    &&& r.log == spec.log
    &&& r.enabled == spec.enabled
    &&& r.description == spec.description
}

/// A rule is entered for its machine and its owner as it is asked for, last of all, and the
/// policy grows a revision. An owner of another kind, a customer's rule without an owner, a
/// network that cannot be read, an identifier that is there, one rule too many, and a policy
/// without a next revision are refused.
pub proof fn a_rule_is_entered(
    db: DatabaseView,
    vm_id: Seq<char>,
    spec: NewVmFirewallRuleView,
    owner_type: Seq<char>,
    owner_id: Option<Seq<char>>,
    limit: u64,
    id: Seq<char>,
    now: Timestamp,
    i: int,
)
    requires
        has_policy(db, vm_id, i),
    ensures
        ({
            let m = db.network_security[i];
            let known = owner_type == "admin"@ || owner_type == "customer_token"@ || owner_type
                == "system"@;
            let fit = known && (owner_type == "customer_token"@ ==> owner_id is Some)
                && networks_are_sound(spec) && db.firewall_rules.filter(
                |r: VmFirewallRuleView| r.vm_id == vm_id,
            ).len() < limit && !is_rule(db, id) && m.revision < i64::MAX;
            let done = create_rule_spec(db, vm_id, spec, owner_type, owner_id, limit, id, now);
            &&& !fit ==> is_refused(done, db)
            &&& fit ==> {
                let r = done->Ok_0.1;
                &&& done is Ok
                &&& done->Ok_0.0.firewall_rules == db.firewall_rules.push(r)
                &&& done->Ok_0.0.network_security.len() == db.network_security.len()
                &&& is_next_revision(m, done->Ok_0.0.network_security[i], now)
                &&& done->Ok_0.0 == (DatabaseView {
                    firewall_rules: db.firewall_rules.push(r),
                    network_security: db.network_security.update(
                        i,
                        done->Ok_0.0.network_security[i],
                    ),
                    ..db
                })
                &&& holds_rule(r, spec)
                &&& r.id == id
                &&& r.vm_id == vm_id
                &&& r.owner_type == owner_type
                &&& r.owner_id == owner_id
                &&& r.created_at == now
                &&& r.updated_at == now
            }
        }),
{
    policy_is_found(db, vm_id, i);
    let p = rule_with_id(id);
    first_is_first(db.firewall_rules, p);
    if any(db.firewall_rules, p) {
        assert(db.firewall_rules[first(db.firewall_rules, p)->0].id == id);
    }
    if is_rule(db, id) {
        let j = choose|j: int|
            0 <= j < db.firewall_rules.len() && (#[trigger] db.firewall_rules[j]).id == id;
        assert(p(db.firewall_rules[j]));
    }
    rules_are_counted(db.firewall_rules, vm_id);
}

proof fn rules_are_counted(rows: Seq<VmFirewallRuleView>, vm_id: Seq<char>)
    ensures
        count(rows, rule_of(vm_id)) == rows.filter(
            |r: VmFirewallRuleView| r.vm_id == vm_id,
        ).len(),
    decreases rows.len(),
{
    reveal(Seq::filter);
    if rows.len() > 0 {
        rules_are_counted(rows.drop_last(), vm_id);
    }
}

/// The rule of a machine with an identifier is the row at a place.
pub open spec fn has_rule(db: DatabaseView, vm_id: Seq<char>, id: Seq<char>, k: int) -> bool {
    &&& 0 <= k < db.firewall_rules.len()
    &&& db.firewall_rules[k].id == id
    &&& db.firewall_rules[k].vm_id == vm_id
    &&& forall|j: int|
        0 <= j < db.firewall_rules.len() && (#[trigger] db.firewall_rules[j]).id == id ==> j == k
}

/// A rule takes every field of a change and keeps the others; its machine, its owner and its
/// time of entry stay, and the policy grows a revision.
pub proof fn a_rule_takes_a_change(
    db: DatabaseView,
    vm_id: Seq<char>,
    id: Seq<char>,
    patch: VmFirewallRulePatchView,
    now: Timestamp,
    i: int,
    k: int,
)
    requires
        has_policy(db, vm_id, i),
        has_rule(db, vm_id, id, k),
        patch.priority is Some || patch.direction is Some || patch.action is Some || patch.protocol
            is Some || patch.source_cidr is Some || patch.destination_cidr is Some
            || patch.source_ports is Some || patch.destination_ports is Some || patch.log is Some
            || patch.enabled is Some || patch.description is Some,
    ensures
        ({
            let m = db.firewall_rules[k];
            let source = if patch.source_cidr is Some {
                patch.source_cidr->0
            } else {
                m.source_cidr
            };
            let destination = if patch.destination_cidr is Some {
                patch.destination_cidr->0
            } else {
                m.destination_cidr
            };
            let fit = (source is Some ==> canonical_network_spec(source->0) is Ok) && (destination
                is Some ==> canonical_network_spec(destination->0) is Ok)
                && db.network_security[i].revision < i64::MAX;
            let done = patch_rule_spec(db, vm_id, id, patch, now);
            &&& !fit ==> is_refused(done, db)
            &&& fit ==> {
                let r = done->Ok_0.1;
                &&& done is Ok
                &&& done->Ok_0.0 == (DatabaseView {
                    firewall_rules: db.firewall_rules.update(k, r),
                    network_security: db.network_security.update(
                        i,
                        done->Ok_0.0.network_security[i],
                    ),
                    ..db
                })
                &&& is_next_revision(db.network_security[i], done->Ok_0.0.network_security[i], now)
                &&& takes(patch.priority, m.priority, r.priority)
                &&& takes(patch.direction, m.direction, r.direction)
                &&& takes(patch.action, m.action, r.action)
                &&& takes(patch.protocol, m.protocol, r.protocol)
                &&& is_usual(source, r.source_cidr)
                &&& is_usual(destination, r.destination_cidr)
                &&& takes(patch.source_ports, m.source_ports, r.source_ports)
                &&& takes(patch.destination_ports, m.destination_ports, r.destination_ports)
                &&& takes(patch.log, m.log, r.log)
                &&& takes(patch.enabled, m.enabled, r.enabled)
                &&& takes(patch.description, m.description, r.description)
                &&& r.id == m.id
                &&& r.vm_id == m.vm_id
                &&& r.owner_type == m.owner_type
                &&& r.owner_id == m.owner_id
                &&& r.created_at == m.created_at
                &&& r.updated_at == now
            }
        }),
{
    policy_is_found(db, vm_id, i);
    let rows = db.firewall_rules;
    let p = rule_called(vm_id, id);
    first_is_first(rows, p);
    assert(p(rows[k]));
    let m = rows[k];
    assert(first(rows, p) == Some(k));
    if normalized_rule(merged_rule(m, patch)) is Ok {
        let f = with_rule(normalized_rule(merged_rule(m, patch))->Ok_0, now);
        assert(revised(rows, p, f) =~= rows.update(k, f(m)));
    }
}

/// A rule of a machine is removed, and no other rule; the policy grows a revision. A rule that
/// the machine does not have is refused.
pub proof fn a_rule_is_removed(
    db: DatabaseView,
    vm_id: Seq<char>,
    id: Seq<char>,
    now: Timestamp,
    i: int,
)
    requires
        has_policy(db, vm_id, i),
    ensures
        ({
            let there = exists|k: int|
                0 <= k < db.firewall_rules.len() && (#[trigger] db.firewall_rules[k]).id == id
                    && db.firewall_rules[k].vm_id == vm_id;
            let done = delete_rule_spec(db, vm_id, id, now);
            &&& !there || db.network_security[i].revision >= i64::MAX ==> is_refused(done, db)
            &&& there && db.network_security[i].revision < i64::MAX ==> {
                &&& done is Ok
                &&& done->Ok_0.0 == (DatabaseView {
                    firewall_rules: done->Ok_0.0.firewall_rules,
                    network_security: db.network_security.update(
                        i,
                        done->Ok_0.0.network_security[i],
                    ),
                    ..db
                })
                &&& is_next_revision(db.network_security[i], done->Ok_0.0.network_security[i], now)
                &&& forall|m: VmFirewallRuleView| #[trigger]
                    done->Ok_0.0.firewall_rules.contains(m) <==> db.firewall_rules.contains(m) && (
                    m.id != id || m.vm_id != vm_id)
            }
        }),
{
    policy_is_found(db, vm_id, i);
    let rows = db.firewall_rules;
    let p = rule_called(vm_id, id);
    first_is_first(rows, p);
    if any(rows, p) {
        assert(rows[first(rows, p)->0].id == id);
    }
    if exists|k: int| 0 <= k < rows.len() && (#[trigger] rows[k]).id == id && rows[k].vm_id == vm_id {
        let k = choose|k: int|
            0 <= k < rows.len() && (#[trigger] rows[k]).id == id && rows[k].vm_id == vm_id;
        assert(p(rows[k]));
    }
    assert forall|m: VmFirewallRuleView| #[trigger]
        others(rows, p).contains(m) <==> rows.contains(m) && (m.id != id || m.vm_id != vm_id) by {
        others_has(rows, p, m);
    }
}

/// The policy of the host changes where the change asks for another state than it has; the
/// revision then grows by one. An application of the current revision is recorded as for a
/// machine.
pub proof fn the_policy_of_the_host(
    db: DatabaseView,
    patch: HypervisorNetworkSecurityPatchView,
    updated_by: Option<Seq<char>>,
    revision: u64,
    error: Option<Seq<char>>,
    now: Timestamp,
)
    ensures
        ({
            let h = db.hypervisor;
            let other = patch.bcp38_enabled is Some && patch.bcp38_enabled->0 != h.bcp38_enabled;
            let done = patch_host_spec(db, patch, updated_by, now);
            let told = mark_host_applied_spec(db, revision, error, now);
            &&& !other ==> done == Ok::<
                (DatabaseView, HypervisorNetworkSecurityView),
                AppErrorView,
            >((db, h))
            &&& other && h.revision >= i64::MAX ==> is_refused(done, db)
            &&& other && h.revision < i64::MAX ==> {
                let r = done->Ok_0.1;
                &&& done is Ok
                &&& done->Ok_0.0 == (DatabaseView { hypervisor: r, ..db })
                &&& r.bcp38_enabled == !h.bcp38_enabled
                &&& r.revision == h.revision + 1
                &&& r.applied_revision == h.applied_revision
                &&& r.last_applied_at == h.last_applied_at
                &&& r.last_error is None
                &&& r.updated_by == updated_by
                &&& r.created_at == h.created_at
                &&& r.updated_at == now
            }
            &&& revision != h.revision || revision > i64::MAX ==> is_refused(told, db)
            &&& revision == h.revision && revision <= i64::MAX ==> {
                let r = told->Ok_0.1;
                &&& told is Ok
                &&& told->Ok_0.0 == (DatabaseView { hypervisor: r, ..db })
                &&& r == (HypervisorNetworkSecurityView {
                    applied_revision: r.applied_revision,
                    last_applied_at: r.last_applied_at,
                    last_error: error,
                    updated_at: now,
                    ..h
                })
                &&& error is None ==> r.applied_revision == Some(h.revision) && r.last_applied_at
                    == Some(now)
                &&& error is Some ==> r.applied_revision == h.applied_revision && r.last_applied_at
                    == h.last_applied_at
            }
        }),
{
}

/// Only a policy that nobody has edited stops dropping invalid packets.
pub proof fn only_untouched_policies_are_eased(rows: Seq<VmNetworkSecurityView>, k: int)
    requires
        0 <= k < rows.len(),
    ensures
        revised(rows, untouched_preset(), safe_default()).len() == rows.len(),
        revised(rows, untouched_preset(), safe_default())[k] == (VmNetworkSecurityView {
            drop_invalid_packets: rows[k].drop_invalid_packets && rows[k].revision > 0,
            ..rows[k]
        }),
{
    let m = rows[k];
    if !(m.revision == 0 && m.drop_invalid_packets) {
        assert(m == (VmNetworkSecurityView {
            drop_invalid_packets: m.drop_invalid_packets && m.revision > 0,
            ..m
        }));
    }
}

/// The row of the link of a machine, if there is one.
pub open spec fn has_link(db: DatabaseView, vm_id: Seq<char>, i: Option<int>) -> bool {
    &&& i is Some ==> 0 <= i->0 < db.traffic.len() && db.traffic[i->0].vm_id == vm_id
    &&& forall|j: int|
        0 <= j < db.traffic.len() && (#[trigger] db.traffic[j]).vm_id == vm_id ==> i == Some(j)
}

/// A link that is cut is recorded as cut, since when it was cut first; one that is restored as
/// not cut. A transition that failed leaves both as they were, and says what went wrong. For
/// a machine that is not there nothing is recorded.
pub proof fn a_link_is_cut_and_restored(
    db: DatabaseView,
    vm_id: Seq<char>,
    blocked: bool,
    last_error: Option<Seq<char>>,
    now: Timestamp,
    i: Option<int>,
)
    requires
        has_link(db, vm_id, i),
    ensures
        ({
            let done = set_traffic_spec(db, vm_id, blocked, last_error, now);
            &&& !is_machine_of(db, vm_id) ==> is_refused(done, db)
            &&& is_machine_of(db, vm_id) ==> {
                let r = done->Ok_0.1;
                &&& done is Ok
                &&& r.vm_id == vm_id
                &&& r.last_error == last_error
                &&& r.updated_at == now
                &&& last_error is None ==> r.blocked == blocked
                &&& last_error is None && !blocked ==> r.blocked_at is None
                &&& last_error is None && blocked ==> r.blocked_at == Some(
                    if i is Some && db.traffic[i->0].blocked_at is Some {
                        db.traffic[i->0].blocked_at->0
                    } else {
                        now
                    },
                )
                &&& last_error is Some && i is Some ==> r.blocked == db.traffic[i->0].blocked
                    && r.blocked_at == db.traffic[i->0].blocked_at
                &&& last_error is Some && i is None ==> !r.blocked && r.blocked_at is None
                &&& done->Ok_0.0 == (DatabaseView {
                    traffic: if i is Some {
                        db.traffic.update(i->0, r)
                    } else {
                        db.traffic.push(r)
                    },
                    ..db
                })
            }
        }),
{
    let p = vm_with_id(vm_id);
    first_is_first(db.vms, p);
    if is_machine_of(db, vm_id) {
        let k = choose|k: int| 0 <= k < db.vms.len() && (#[trigger] db.vms[k]).vm.id == vm_id;
        assert(p(db.vms[k]));
    }
    if any(db.vms, p) {
        assert(db.vms[first(db.vms, p)->0].vm.id == vm_id);
    }
    let q = link_of(vm_id);
    first_is_first(db.traffic, q);
    if i is Some {
        assert(q(db.traffic[i->0]));
        let r = set_traffic_spec(db, vm_id, blocked, last_error, now)->Ok_0.1;
        assert(revised(db.traffic, q, replaced_by(r)) =~= db.traffic.update(i->0, r));
    }
}

} // verus!

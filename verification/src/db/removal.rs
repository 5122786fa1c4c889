//! The removal of machines: their addresses become free, what belongs to them goes with
//! them, and the history of jobs, complaints and audit entries stays.

use vstd::prelude::*;

use crate::db::rows::{
    CustomerTokenRow, CustomerTokenRowView, DnsServer, DnsServerView, GuestToolsRow, IpAbuseRecord,
    IpAbuseRecordView, IpAddressRecord, IpStatus, Job, JobView, Snapshot, SnapshotView, Timestamp,
    VmFirewallRule, VmMetric, VmMetricView, VmNetworkSecurity, VmRow, VmTrafficEnforcement,
    VncTokenRow,
};
use crate::db::store::{plain_result, settles, vm_called, vm_with_id, Database, DatabaseView};
use crate::db::addresses::{address_of_vm, unassigned};
use crate::db::guest_tools::tools_of;
use crate::db::network_security::{link_of, policy_of, rule_of};
use crate::db::tokens::vnc_of_vm;
use crate::error::{not_found, AppErrorView, AppResult};
use crate::table::{any, find, first, first_is_first, others, others_has, remove, revise, revised};
use crate::text::{option_is, same};

verus! {

broadcast use vstd::string::group_string_axioms;

/// A job of a machine.
pub open spec fn job_of_vm(vm_id: Seq<char>) -> spec_fn(JobView) -> bool {
    |m: JobView| m.vm_id == Some(vm_id)
}

/// A job whose machine is gone.
pub open spec fn orphaned_job() -> spec_fn(JobView) -> JobView {
    |m: JobView| JobView { vm_id: None, ..m }
}

/// A complaint about a machine.
pub open spec fn abuse_of_vm(vm_id: Seq<char>) -> spec_fn(IpAbuseRecordView) -> bool {
    |m: IpAbuseRecordView| m.vm_id == Some(vm_id)
}

/// A complaint whose machine is gone.
pub open spec fn orphaned_abuse() -> spec_fn(IpAbuseRecordView) -> IpAbuseRecordView {
    |m: IpAbuseRecordView| IpAbuseRecordView { vm_id: None, ..m }
}

/// A measurement of a machine.
pub open spec fn metric_of_vm(vm_id: Seq<char>) -> spec_fn(VmMetricView) -> bool {
    |m: VmMetricView| m.vm_id == vm_id
}

/// A customer's link to a machine.
pub open spec fn customer_of_vm(vm_id: Seq<char>) -> spec_fn(CustomerTokenRowView) -> bool {
    |m: CustomerTokenRowView| m.token.vm_id == vm_id
}

/// A snapshot of a machine.
pub open spec fn snapshot_of_vm(vm_id: Seq<char>) -> spec_fn(SnapshotView) -> bool {
    |m: SnapshotView| m.vm_id == vm_id
}

/// A name server of a machine.
pub open spec fn dns_of_vm(vm_id: Seq<char>) -> spec_fn(DnsServerView) -> bool {
    |m: DnsServerView| m.vm_id == Some(vm_id)
}

/// The tables without what belongs to a machine; jobs and complaints stay without it. Which
/// rows go and which stay is a rule of the tables, which is taken as given.
pub open spec fn without_vm(db: DatabaseView, vm_id: Seq<char>) -> DatabaseView {
    DatabaseView {
        jobs: revised(db.jobs, job_of_vm(vm_id), orphaned_job()),
        ip_abuse: revised(db.ip_abuse, abuse_of_vm(vm_id), orphaned_abuse()),
        guest_tools: others(db.guest_tools, tools_of(vm_id)),
        network_security: others(db.network_security, policy_of(vm_id)),
        firewall_rules: others(db.firewall_rules, rule_of(vm_id)),
        vm_metrics: others(db.vm_metrics, metric_of_vm(vm_id)),
        traffic: others(db.traffic, link_of(vm_id)),
        customer_tokens: others(db.customer_tokens, customer_of_vm(vm_id)),
        vnc_tokens: others(db.vnc_tokens, vnc_of_vm(vm_id)),
        snapshots: others(db.snapshots, snapshot_of_vm(vm_id)),
        dns_servers: others(db.dns_servers, dns_of_vm(vm_id)),
        ..db
    }
}

/// The tables with the addresses of a machine released.
pub open spec fn with_addresses_freed(db: DatabaseView, vm_id: Seq<char>, now: Timestamp) -> DatabaseView {
    DatabaseView {
        ip_addresses: revised(
            db.ip_addresses,
            address_of_vm(vm_id),
            unassigned(IpStatus::Free, now),
        ),
        ..db
    }
}

/// A machine is removed: its addresses become free, and what belongs to it goes with it.
pub open spec fn delete_vm_spec(db: DatabaseView, id_or_name: Seq<char>, now: Timestamp) -> Result<
    (DatabaseView, ()),
    AppErrorView,
> {
    match find(db.vms, vm_called(id_or_name)) {
        None => Err(AppErrorView::NotFound("VM"@)),
        Some(m) => {
            let id = m.vm.id;
            let left = without_vm(with_addresses_freed(db, id, now), id);
            Ok((DatabaseView { vms: others(db.vms, vm_with_id(id)), ..left }, ()))
        },
    }
}

impl Database {
    pub(crate) fn free_addresses(&mut self, vm_id: &str, now: Timestamp)
        ensures
            final(self)@ == with_addresses_freed(old(self)@, vm_id@, now),
    {
        let ghost f = unassigned(IpStatus::Free, now);
        let chosen = |x: &IpAddressRecord| -> (b: bool)
            ensures
                b == address_of_vm(vm_id@)(x@),
            { option_is(&x.assigned_vm_id, vm_id) };
        let change = |x: &IpAddressRecord| -> (y: IpAddressRecord)
            ensures
                y@ == f(x@),
            { {
            let mut y = x.clone();
            y.status = IpStatus::Free;
            y.assigned_vm_id = None;
            y.primary_for_vm = false;
            y.updated_at = now;
            y
        } };
        let _ = revise(&mut self.ip_addresses, chosen, change, Ghost(address_of_vm(vm_id@)), Ghost(f));
    }

    pub(crate) fn detach_vm(&mut self, vm_id: &str)
        ensures
            final(self)@ == without_vm(old(self)@, vm_id@),
    {
        let jobs = |x: &Job| -> (b: bool)
            ensures
                b == job_of_vm(vm_id@)(x@),
            { option_is(&x.vm_id, vm_id) };
        let orphan = |x: &Job| -> (y: Job)
            ensures
                y@ == orphaned_job()(x@),
            { {
            let mut y = x.clone();
            y.vm_id = None;
            y
        } };
        let _ = revise(&mut self.jobs, jobs, orphan, Ghost(job_of_vm(vm_id@)), Ghost(orphaned_job()));
        let complaints = |x: &IpAbuseRecord| -> (b: bool)
            ensures
                b == abuse_of_vm(vm_id@)(x@),
            { option_is(&x.vm_id, vm_id) };
        let nobody = |x: &IpAbuseRecord| -> (y: IpAbuseRecord)
            ensures
                y@ == orphaned_abuse()(x@),
            { {
            let mut y = x.clone();
            y.vm_id = None;
            y
        } };
        let _ = revise(
            &mut self.ip_abuse,
            complaints,
            nobody,
            Ghost(abuse_of_vm(vm_id@)),
            Ghost(orphaned_abuse()),
        );
        let tools = |x: &GuestToolsRow| -> (b: bool)
            ensures
                b == tools_of(vm_id@)(x@),
            { same(x.vm_id.as_str(), vm_id) };
        let _ = remove(&mut self.guest_tools, tools, Ghost(tools_of(vm_id@)));
        let policy = |x: &VmNetworkSecurity| -> (b: bool)
            ensures
                b == policy_of(vm_id@)(x@),
            { same(x.vm_id.as_str(), vm_id) };
        let _ = remove(&mut self.network_security, policy, Ghost(policy_of(vm_id@)));
        let rules = |x: &VmFirewallRule| -> (b: bool)
            ensures
                b == rule_of(vm_id@)(x@),
            { same(x.vm_id.as_str(), vm_id) };
        let _ = remove(&mut self.firewall_rules, rules, Ghost(rule_of(vm_id@)));
        let metrics = |x: &VmMetric| -> (b: bool)
            ensures
                b == metric_of_vm(vm_id@)(x@),
            { same(x.vm_id.as_str(), vm_id) };
        let _ = remove(&mut self.vm_metrics, metrics, Ghost(metric_of_vm(vm_id@)));
        let link = |x: &VmTrafficEnforcement| -> (b: bool)
            ensures
                b == link_of(vm_id@)(x@),
            { same(x.vm_id.as_str(), vm_id) };
        let _ = remove(&mut self.traffic, link, Ghost(link_of(vm_id@)));
        let customers = |x: &CustomerTokenRow| -> (b: bool)
            ensures
                b == customer_of_vm(vm_id@)(x@),
            { same(x.token.vm_id.as_str(), vm_id) };
        let _ = remove(&mut self.customer_tokens, customers, Ghost(customer_of_vm(vm_id@)));
        let consoles = |x: &VncTokenRow| -> (b: bool)
            ensures
                b == vnc_of_vm(vm_id@)(x@),
            { same(x.token.vm_id.as_str(), vm_id) };
        let _ = remove(&mut self.vnc_tokens, consoles, Ghost(vnc_of_vm(vm_id@)));
        let snapshots = |x: &Snapshot| -> (b: bool)
            ensures
                b == snapshot_of_vm(vm_id@)(x@),
            { same(x.vm_id.as_str(), vm_id) };
        let _ = remove(&mut self.snapshots, snapshots, Ghost(snapshot_of_vm(vm_id@)));
        let dns = |x: &DnsServer| -> (b: bool)
            ensures
                b == dns_of_vm(vm_id@)(x@),
            { option_is(&x.vm_id, vm_id) };
        let _ = remove(&mut self.dns_servers, dns, Ghost(dns_of_vm(vm_id@)));
    }

    /// Removes a machine.
    pub fn delete_vm(&mut self, id_or_name: &str, now: Timestamp) -> (r: AppResult<()>)
        ensures
            settles(
                delete_vm_spec(old(self)@, id_or_name@, now),
                old(self)@,
                final(self)@,
                plain_result(r),
            ),
    {
        let row = match self.find_vm(id_or_name) {
            None => {
                return Err(not_found("VM"));
            },
            Some(row) => row,
        };
        let id = row.vm.id.as_str();
        self.free_addresses(id, now);
        self.detach_vm(id);
        let chosen = |x: &VmRow| -> (b: bool)
            ensures
                b == vm_with_id(id@)(x@),
            { same(x.vm.id.as_str(), id) };
        let _ = remove(&mut self.vms, chosen, Ghost(vm_with_id(id@)));
        Ok(())
    }
}

/// Removing a machine frees every address it had and keeps each address in the inventory,
/// keeps every job and every complaint, and touches no audit entry.
pub proof fn removal_frees_addresses_and_keeps_history(
    db: DatabaseView,
    id_or_name: Seq<char>,
    now: Timestamp,
)
    ensures
        delete_vm_spec(db, id_or_name, now) matches Ok(done) ==> {
            let id = find(db.vms, vm_called(id_or_name))->0.vm.id;
            &&& done.0.ip_addresses.len() == db.ip_addresses.len()
            &&& forall|i: int|
                0 <= i < db.ip_addresses.len() ==> (#[trigger] done.0.ip_addresses[i]).address
                    == db.ip_addresses[i].address && done.0.ip_addresses[i].assigned_vm_id != Some(
                    id,
                ) && (db.ip_addresses[i].assigned_vm_id == Some(id)
                    ==> done.0.ip_addresses[i].status == IpStatus::Free
                    && !done.0.ip_addresses[i].primary_for_vm)
            &&& done.0.jobs.len() == db.jobs.len()
            &&& done.0.ip_abuse.len() == db.ip_abuse.len()
            &&& done.0.audit == db.audit
            &&& !any(done.0.vms, vm_with_id(id))
        },
{
    if delete_vm_spec(db, id_or_name, now) is Ok {
        let id = find(db.vms, vm_called(id_or_name))->0.vm.id;
        let p = vm_with_id(id);
        let left = others(db.vms, p);
        first_is_first(left, p);
        if any(left, p) {
            let k = first(left, p)->0;
            assert(left.contains(left[k]));
            others_has(db.vms, p, left[k]);
        }
    }
}

} // verus!

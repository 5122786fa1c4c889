//! Measurements of the host and of machines over time.
//!
//! A chart asks for a window of time and a number of points. The window is cut into equal
//! stretches, and the newest measurement of each stands for it, so that few points still
//! show the whole window.

use vstd::prelude::*;

use crate::db::rows::{
    HostMetric, HostMetricView, Timestamp, VmMetric, VmMetricView, VmRow, VmRowView, VmView,
};
use crate::db::store::{
    bounded_limit, checked_i64, dangling_reference, earlier, limit_of, optional_i64,
    optional_range_fault, plain_result, range_fault, reference_error, settles, vm_with_id, Database,
    DatabaseView,
};
use crate::error::{AppErrorView, AppResult};
use crate::table::{
    any, any_is_some_row, append, count, every, first, first_is_first, list, listing, matching,
    matching_has, models, occurs, ordered, others, remove, replaced_by, revise, revised, select,
};
use crate::text::same;

verus! {

broadcast use vstd::string::group_string_axioms;

/// A number, or the nearest one that sixty-four bits can hold.
pub open spec fn clamped(n: int) -> int {
    if n > i64::MAX {
        i64::MAX as int
    } else if n < i64::MIN {
        i64::MIN as int
    } else {
        n
    }
}

/// The larger of two numbers.
pub open spec fn larger(a: int, b: int) -> int {
    if a >= b {
        a
    } else {
        b
    }
}

/// How many seconds one point stands for.
pub open spec fn bucket_of(since: Timestamp, latest: Option<Timestamp>, limit: int) -> int {
    let points = larger(limit, 1);
    let end: int = match latest {
        Some(t) => t as int,
        None => since as int,
    };
    let span = larger(clamped(clamped(end - since) + 1), 1);
    larger(clamped(span + (points - 1)) / points, 1)
}

/// How many seconds one point stands for, so that at most `limit` points cover the window
/// from `since` to the latest measurement.
pub fn metric_bucket_seconds(since: Timestamp, latest: Option<Timestamp>, limit: i64) -> (r: i64)
    ensures
        r == bucket_of(since, latest, limit as int),
        r >= 1,
{
    let points: i64 = if limit > 1 {
        limit
    } else {
        1
    };
    let end: i64 = match latest {
        Some(t) => t,
        None => since,
    };
    let distance: i128 = clamp(end as i128 - since as i128);
    let grown: i128 = clamp(distance + 1);
    let span: i128 = if grown > 1 {
        grown
    } else {
        1
    };
    let padded: i128 = clamp(span + (points as i128 - 1));
    let quotient: u128 = padded as u128 / points as u128;
    proof {
        let a = padded as int;
        let b = points as int;
        assert(0 <= a / b <= a) by (nonlinear_arith)
            requires
                a >= 0,
                b >= 1,
        ;
    }
    if quotient > 1 {
        quotient as i64
    } else {
        1
    }
}

fn clamp(n: i128) -> (r: i128)
    ensures
        r == clamped(n as int),
{
    if n > i64::MAX as i128 {
        i64::MAX as i128
    } else if n < i64::MIN as i128 {
        i64::MIN as i128
    } else {
        n
    }
}

/// The stretch of the window that a time lies in.
pub open spec fn stretch(t: Timestamp, since: Timestamp, bucket: int) -> int {
    (t - since) / bucket
}

fn stretch_of(t: Timestamp, since: Timestamp, bucket: i64) -> (r: u128)
    requires
        t >= since,
        bucket >= 1,
    ensures
        r == stretch(t, since, bucket as int),
{
    (t as i128 - since as i128) as u128 / bucket as u128
}

/// The latest time of the rows that meet a condition.
pub open spec fn latest_of<M>(
    rows: Seq<M>,
    p: spec_fn(M) -> bool,
    t: spec_fn(M) -> Timestamp,
) -> Option<Timestamp>
    decreases rows.len(),
{
    if rows.len() == 0 {
        None
    } else {
        let front = latest_of(rows.drop_last(), p, t);
        if !p(rows.last()) {
            front
        } else {
            match front {
                Some(best) => if t(rows.last()) > best {
                    Some(t(rows.last()))
                } else {
                    Some(best)
                },
                None => Some(t(rows.last())),
            }
        }
    }
}

/// A row of the same stretch as another one, but later.
pub open spec fn later_in_stretch<M>(
    p: spec_fn(M) -> bool,
    t: spec_fn(M) -> Timestamp,
    since: Timestamp,
    bucket: int,
    at: Timestamp,
) -> spec_fn(M) -> bool {
    |n: M| p(n) && stretch(t(n), since, bucket) == stretch(at, since, bucket) && t(n) > at
}

/// A row that stands for its stretch: the latest one in it.
pub open spec fn stands_for<M>(
    rows: Seq<M>,
    p: spec_fn(M) -> bool,
    t: spec_fn(M) -> Timestamp,
    since: Timestamp,
    bucket: int,
) -> spec_fn(M) -> bool {
    |m: M| p(m) && !any(rows, later_in_stretch(p, t, since, bucket, t(m)))
}

/// The latest first.
pub open spec fn latest_first<M>(t: spec_fn(M) -> Timestamp) -> spec_fn(M, M) -> bool {
    |a: M, b: M| t(a) >= t(b)
}

/// The time of a measurement of the host.
pub open spec fn host_time() -> spec_fn(HostMetricView) -> Timestamp {
    |m: HostMetricView| m.sampled_at
}

/// A measurement of the host in the window.
pub open spec fn host_since(since: Timestamp) -> spec_fn(HostMetricView) -> bool {
    |m: HostMetricView| m.sampled_at >= since
}

/// A measurement of the host at a time.
pub open spec fn host_at(at: Timestamp) -> spec_fn(HostMetricView) -> bool {
    |m: HostMetricView| m.sampled_at == at
}

/// A measurement of the host before a time.
pub open spec fn host_before(before: Timestamp) -> spec_fn(HostMetricView) -> bool {
    |m: HostMetricView| m.sampled_at < before
}

/// The time of a measurement of a machine.
pub open spec fn vm_time() -> spec_fn(VmMetricView) -> Timestamp {
    |m: VmMetricView| m.sampled_at
}

/// A measurement of a machine in the window.
pub open spec fn vm_since(vm_id: Seq<char>, since: Timestamp) -> spec_fn(VmMetricView) -> bool {
    |m: VmMetricView| m.vm_id == vm_id && m.sampled_at >= since
}

/// A measurement of a machine at a time.
pub open spec fn vm_at(vm_id: Seq<char>, at: Timestamp) -> spec_fn(VmMetricView) -> bool {
    |m: VmMetricView| m.vm_id == vm_id && m.sampled_at == at
}

/// A measurement of any machine before a time.
pub open spec fn vm_before(before: Timestamp) -> spec_fn(VmMetricView) -> bool {
    |m: VmMetricView| m.sampled_at < before
}

/// The first number of a measurement of the host that the tables cannot hold.
pub open spec fn host_metric_fault(m: HostMetricView) -> Option<AppErrorView> {
    earlier(
        earlier(
            earlier(
                range_fault(m.memory_total_bytes, "memory total"@),
                range_fault(m.memory_used_bytes, "memory used"@),
            ),
            earlier(
                range_fault(m.swap_total_bytes, "swap total"@),
                range_fault(m.swap_used_bytes, "swap used"@),
            ),
        ),
        earlier(
            earlier(
                range_fault(m.disk_total_bytes, "disk total"@),
                range_fault(m.disk_used_bytes, "disk used"@),
            ),
            earlier(
                earlier(
                    range_fault(m.network_rx_bytes, "network RX"@),
                    range_fault(m.network_tx_bytes, "network TX"@),
                ),
                range_fault(m.uptime_seconds, "uptime"@),
            ),
        ),
    )
}

/// A measurement of the host is recorded, in the place of one at the same time.
pub open spec fn insert_host_metric_spec(db: DatabaseView, m: HostMetricView) -> Result<
    (DatabaseView, ()),
    AppErrorView,
> {
    match host_metric_fault(m) {
        Some(e) => Err(e),
        None => Ok(
            (
                DatabaseView {
                    host_metrics: if any(db.host_metrics, host_at(m.sampled_at)) {
                        revised(db.host_metrics, host_at(m.sampled_at), replaced_by(m))
                    } else {
                        db.host_metrics.push(m)
                    },
                    ..db
                },
                (),
            ),
        ),
    }
}

/// The first number of a measurement of a machine that the tables cannot hold.
pub open spec fn vm_metric_fault(m: VmMetricView) -> Option<AppErrorView> {
    earlier(
        earlier(
            earlier(
                range_fault(m.memory_used_bytes, "VM memory used"@),
                range_fault(m.memory_total_bytes, "VM memory total"@),
            ),
            earlier(
                range_fault(m.disk_read_bytes, "VM disk read"@),
                range_fault(m.disk_write_bytes, "VM disk write"@),
            ),
        ),
        earlier(
            earlier(
                range_fault(m.network_rx_bytes, "VM network RX"@),
                range_fault(m.network_tx_bytes, "VM network TX"@),
            ),
            earlier(
                range_fault(m.traffic_used_bytes, "VM traffic used"@),
                optional_range_fault(m.traffic_limit_bytes, "VM traffic limit"@),
            ),
        ),
    )
}

/// A machine with the traffic that was measured.
pub open spec fn with_traffic(used: u64, at: Timestamp) -> spec_fn(VmRowView) -> VmRowView {
    |m: VmRowView|
        VmRowView {
            vm: VmView {
                traffic_used_bytes: used,
                updated_at: larger(m.vm.updated_at as int, at as int) as i64,
                ..m.vm
            },
            ..m
        }
}

/// A measurement of a machine is recorded, in the place of one at the same time, and with
/// it the traffic that the machine has used.
pub open spec fn insert_vm_metric_spec(db: DatabaseView, m: VmMetricView) -> Result<
    (DatabaseView, ()),
    AppErrorView,
> {
    match vm_metric_fault(m) {
        Some(e) => Err(e),
        None => if !any(db.vms, vm_with_id(m.vm_id)) {
            Err(reference_error())
        } else {
            Ok(
                (
                    DatabaseView {
                        vm_metrics: if any(db.vm_metrics, vm_at(m.vm_id, m.sampled_at)) {
                            revised(db.vm_metrics, vm_at(m.vm_id, m.sampled_at), replaced_by(m))
                        } else {
                            db.vm_metrics.push(m)
                        },
                        vms: revised(
                            db.vms,
                            vm_with_id(m.vm_id),
                            with_traffic(m.traffic_used_bytes, m.sampled_at),
                        ),
                        ..db
                    },
                    (),
                ),
            )
        },
    }
}

/// The points of a chart of the host.
pub open spec fn host_points(rows: Seq<HostMetricView>, since: Timestamp, limit: int) -> Seq<
    HostMetricView,
> {
    let p = host_since(since);
    let bucket = bucket_of(since, latest_of(rows, p, host_time()), limit);
    matching(rows, stands_for(rows, p, host_time(), since, bucket))
}

/// The points of a chart of a machine.
pub open spec fn vm_points(
    rows: Seq<VmMetricView>,
    vm_id: Seq<char>,
    since: Timestamp,
    limit: int,
) -> Seq<VmMetricView> {
    let p = vm_since(vm_id, since);
    let bucket = bucket_of(since, latest_of(rows, p, vm_time()), limit);
    matching(rows, stands_for(rows, p, vm_time(), since, bucket))
}

impl Database {
    /// Records a measurement of the host.
    pub fn insert_host_metric(&mut self, metric: &HostMetric) -> (r: AppResult<()>)
        ensures
            settles(
                insert_host_metric_spec(old(self)@, metric@),
                old(self)@,
                final(self)@,
                plain_result(r),
            ),
    {
        let _ = match checked_i64(metric.memory_total_bytes, "memory total") {
            Err(e) => {
                return Err(e);
            },
            Ok(v) => v,
        };
        let _ = match checked_i64(metric.memory_used_bytes, "memory used") {
            Err(e) => {
                return Err(e);
            },
            Ok(v) => v,
        };
        let _ = match checked_i64(metric.swap_total_bytes, "swap total") {
            Err(e) => {
                return Err(e);
            },
            Ok(v) => v,
        };
        let _ = match checked_i64(metric.swap_used_bytes, "swap used") {
            Err(e) => {
                return Err(e);
            },
            Ok(v) => v,
        };
        let _ = match checked_i64(metric.disk_total_bytes, "disk total") {
            Err(e) => {
                return Err(e);
            },
            Ok(v) => v,
        };
        let _ = match checked_i64(metric.disk_used_bytes, "disk used") {
            Err(e) => {
                return Err(e);
            },
            Ok(v) => v,
        };
        let _ = match checked_i64(metric.network_rx_bytes, "network RX") {
            Err(e) => {
                return Err(e);
            },
            Ok(v) => v,
        };
        let _ = match checked_i64(metric.network_tx_bytes, "network TX") {
            Err(e) => {
                return Err(e);
            },
            Ok(v) => v,
        };
        let _ = match checked_i64(metric.uptime_seconds, "uptime") {
            Err(e) => {
                return Err(e);
            },
            Ok(v) => v,
        };
        let at: i64 = metric.sampled_at;
        let chosen = |x: &HostMetric| -> (b: bool)
            ensures
                b == host_at(at)(x@),
            { x.sampled_at == at };
        if occurs(&self.host_metrics, chosen, Ghost(host_at(at))) {
            let ghost f = replaced_by(metric@);
            let change = |x: &HostMetric| -> (y: HostMetric)
                ensures
                    y@ == f(x@),
                { metric.clone() };
            let _ = revise(&mut self.host_metrics, chosen, change, Ghost(host_at(at)), Ghost(f));
        } else {
            append(&mut self.host_metrics, metric.clone());
        }
        Ok(())
    }

    fn latest_host_metric(&self, since: Timestamp) -> (r: Option<Timestamp>)
        ensures
            r == latest_of(self@.host_metrics, host_since(since), host_time()),
    {
        let ghost rows = self@.host_metrics;
        let mut best: Option<i64> = None;
        let mut i: usize = 0;
        proof {
            assert(rows.take(0) =~= Seq::<HostMetricView>::empty());
        }
        while i < self.host_metrics.len()
            invariant
                i <= self.host_metrics@.len(),
                rows == self@.host_metrics,
                best == latest_of(rows.take(i as int), host_since(since), host_time()),
            decreases self.host_metrics@.len() - i,
        {
            proof {
                assert(rows.take(i as int + 1).drop_last() =~= rows.take(i as int));
                assert(rows.take(i as int + 1).last() == self.host_metrics@[i as int]@);
            }
            let t: i64 = self.host_metrics[i].sampled_at;
            if t >= since {
                best = match best {
                    Some(b) => if t > b {
                        Some(t)
                    } else {
                        Some(b)
                    },
                    None => Some(t),
                };
            }
            i = i + 1;
        }
        proof {
            assert(rows.take(rows.len() as int) =~= rows);
        }
        best
    }

    fn host_metric_stands(&self, m: &HostMetric, since: Timestamp, bucket: i64) -> (r: bool)
        requires
            bucket >= 1,
        ensures
            r == stands_for(
                self@.host_metrics,
                host_since(since),
                host_time(),
                since,
                bucket as int,
            )(m@),
    {
        if m.sampled_at < since {
            return false;
        }
        let at: i64 = m.sampled_at;
        let mine: u128 = stretch_of(at, since, bucket);
        let ghost p = later_in_stretch(host_since(since), host_time(), since, bucket as int, at);
        let later = |x: &HostMetric| -> (b: bool)
            ensures
                b == p(x@),
            {
                x.sampled_at >= since
                    && stretch_of(x.sampled_at, since, bucket) == mine
                    && x.sampled_at > at
            };
        !occurs(&self.host_metrics, later, Ghost(p))
    }

    /// Measurements of the host that stand for the window since a time, the latest first.
    pub fn host_metrics(&self, since: Timestamp, limit: usize) -> (r: AppResult<Vec<HostMetric>>)
        ensures
            r is Ok,
            listing(
                models(r->Ok_0@),
                host_points(self@.host_metrics, since, limit_of(limit, 10_000)),
                latest_first(host_time()),
                limit_of(limit, 10_000),
            ),
            r->Ok_0@.len() <= limit_of(limit, 10_000),
    {
        let n: usize = bounded_limit(limit, 10_000);
        let bucket: i64 = metric_bucket_seconds(since, self.latest_host_metric(since), n as i64);
        let ghost p = stands_for(
            self@.host_metrics,
            host_since(since),
            host_time(),
            since,
            bucket as int,
        );
        let test = |x: &HostMetric| -> (b: bool)
            ensures
                b == p(x@),
            { self.host_metric_stands(x, since, bucket) };
        let rows = select(&self.host_metrics, test, Ghost(p));
        let ghost before = latest_first(host_time());
        let le = |a: &HostMetric, c: &HostMetric| -> (b: bool)
            ensures
                b == before(a@, c@),
            { a.sampled_at >= c.sampled_at };
        Ok(list(rows, le, n, Ghost(before)))
    }

    /// Records a measurement of a machine.
    pub fn insert_vm_metric(&mut self, metric: &VmMetric) -> (r: AppResult<()>)
        ensures
            settles(
                insert_vm_metric_spec(old(self)@, metric@),
                old(self)@,
                final(self)@,
                plain_result(r),
            ),
    {
        let _ = match checked_i64(metric.memory_used_bytes, "VM memory used") {
            Err(e) => {
                return Err(e);
            },
            Ok(v) => v,
        };
        let _ = match checked_i64(metric.memory_total_bytes, "VM memory total") {
            Err(e) => {
                return Err(e);
            },
            Ok(v) => v,
        };
        let _ = match checked_i64(metric.disk_read_bytes, "VM disk read") {
            Err(e) => {
                return Err(e);
            },
            Ok(v) => v,
        };
        let _ = match checked_i64(metric.disk_write_bytes, "VM disk write") {
            Err(e) => {
                return Err(e);
            },
            Ok(v) => v,
        };
        let _ = match checked_i64(metric.network_rx_bytes, "VM network RX") {
            Err(e) => {
                return Err(e);
            },
            Ok(v) => v,
        };
        let _ = match checked_i64(metric.network_tx_bytes, "VM network TX") {
            Err(e) => {
                return Err(e);
            },
            Ok(v) => v,
        };
        let _ = match checked_i64(metric.traffic_used_bytes, "VM traffic used") {
            Err(e) => {
                return Err(e);
            },
            Ok(v) => v,
        };
        let _ = match optional_i64(metric.traffic_limit_bytes, "VM traffic limit") {
            Err(e) => {
                return Err(e);
            },
            Ok(v) => v,
        };
        let vm_id = metric.vm_id.as_str();
        if !self.has_vm(vm_id) {
            return Err(dangling_reference());
        }
        let at: i64 = metric.sampled_at;
        let ghost p = vm_at(vm_id@, at);
        let chosen = |x: &VmMetric| -> (b: bool)
            ensures
                b == p(x@),
            { same(x.vm_id.as_str(), vm_id) && x.sampled_at == at };
        if occurs(&self.vm_metrics, chosen, Ghost(p)) {
            let ghost f = replaced_by(metric@);
            let change = |x: &VmMetric| -> (y: VmMetric)
                ensures
                    y@ == f(x@),
                { metric.clone() };
            let _ = revise(&mut self.vm_metrics, chosen, change, Ghost(p), Ghost(f));
        } else {
            append(&mut self.vm_metrics, metric.clone());
        }
        let used: u64 = metric.traffic_used_bytes;
        let ghost f = with_traffic(used, at);
        let owner = |x: &VmRow| -> (b: bool)
            ensures
                b == vm_with_id(vm_id@)(x@),
            { same(x.vm.id.as_str(), vm_id) };
        let change = |x: &VmRow| -> (y: VmRow)
            ensures
                y@ == f(x@),
            { {
            let mut y = x.clone();
            y.vm.traffic_used_bytes = used;
            if at > x.vm.updated_at {
                y.vm.updated_at = at;
            }
            y
        } };
        let _ = revise(&mut self.vms, owner, change, Ghost(vm_with_id(vm_id@)), Ghost(f));
        Ok(())
    }

    fn latest_vm_metric(&self, vm_id: &str, since: Timestamp) -> (r: Option<Timestamp>)
        ensures
            r == latest_of(self@.vm_metrics, vm_since(vm_id@, since), vm_time()),
    {
        let ghost rows = self@.vm_metrics;
        let mut best: Option<i64> = None;
        let mut i: usize = 0;
        proof {
            assert(rows.take(0) =~= Seq::<VmMetricView>::empty());
        }
        while i < self.vm_metrics.len()
            invariant
                i <= self.vm_metrics@.len(),
                rows == self@.vm_metrics,
                best == latest_of(rows.take(i as int), vm_since(vm_id@, since), vm_time()),
            decreases self.vm_metrics@.len() - i,
        {
            proof {
                assert(rows.take(i as int + 1).drop_last() =~= rows.take(i as int));
                assert(rows.take(i as int + 1).last() == self.vm_metrics@[i as int]@);
            }
            let t: i64 = self.vm_metrics[i].sampled_at;
            if same(self.vm_metrics[i].vm_id.as_str(), vm_id) && t >= since {
                best = match best {
                    Some(b) => if t > b {
                        Some(t)
                    } else {
                        Some(b)
                    },
                    None => Some(t),
                };
            }
            i = i + 1;
        }
        proof {
            assert(rows.take(rows.len() as int) =~= rows);
        }
        best
    }

    fn vm_metric_stands(&self, m: &VmMetric, vm_id: &str, since: Timestamp, bucket: i64) -> (r: bool)
        requires
            bucket >= 1,
        ensures
            r == stands_for(
                self@.vm_metrics,
                vm_since(vm_id@, since),
                vm_time(),
                since,
                bucket as int,
            )(m@),
    {
        if !same(m.vm_id.as_str(), vm_id) || m.sampled_at < since {
            return false;
        }
        let at: i64 = m.sampled_at;
        let mine: u128 = stretch_of(at, since, bucket);
        let ghost p = later_in_stretch(
            vm_since(vm_id@, since),
            vm_time(),
            since,
            bucket as int,
            at,
        );
        let later = |x: &VmMetric| -> (b: bool)
            ensures
                b == p(x@),
            {
                same(x.vm_id.as_str(), vm_id)
                    && x.sampled_at >= since
                    && stretch_of(x.sampled_at, since, bucket) == mine
                    && x.sampled_at > at
            };
        !occurs(&self.vm_metrics, later, Ghost(p))
    }

    /// Measurements of a machine that stand for the window since a time, the latest first.
    pub fn vm_metrics(&self, vm_id: &str, since: Timestamp, limit: usize) -> (r: AppResult<
        Vec<VmMetric>,
    >)
        ensures
            r is Ok,
            listing(
                models(r->Ok_0@),
                vm_points(self@.vm_metrics, vm_id@, since, limit_of(limit, 10_000)),
                latest_first(vm_time()),
                limit_of(limit, 10_000),
            ),
            r->Ok_0@.len() <= limit_of(limit, 10_000),
    {
        let n: usize = bounded_limit(limit, 10_000);
        let bucket: i64 = metric_bucket_seconds(
            since,
            self.latest_vm_metric(vm_id, since),
            n as i64,
        );
        let ghost p = stands_for(
            self@.vm_metrics,
            vm_since(vm_id@, since),
            vm_time(),
            since,
            bucket as int,
        );
        let test = |x: &VmMetric| -> (b: bool)
            ensures
                b == p(x@),
            { self.vm_metric_stands(x, vm_id, since, bucket) };
        let rows = select(&self.vm_metrics, test, Ghost(p));
        let ghost before = latest_first(vm_time());
        let le = |a: &VmMetric, c: &VmMetric| -> (b: bool)
            ensures
                b == before(a@, c@),
            { a.sampled_at >= c.sampled_at };
        Ok(list(rows, le, n, Ghost(before)))
    }

    /// Removes the measurements before a time, and counts those of the host and those of
    /// machines.
    pub fn prune_metrics(&mut self, before: Timestamp) -> (r: AppResult<(usize, usize)>)
        ensures
            r is Ok,
            r->Ok_0.0 == count(old(self)@.host_metrics, host_before(before)),
            r->Ok_0.1 == count(old(self)@.vm_metrics, vm_before(before)),
            final(self)@ == (DatabaseView {
                host_metrics: others(old(self)@.host_metrics, host_before(before)),
                vm_metrics: others(old(self)@.vm_metrics, vm_before(before)),
                ..old(self)@
            }),
    {
        let old_host = |x: &HostMetric| -> (b: bool)
            ensures
                b == host_before(before)(x@),
            { x.sampled_at < before };
        let old_vm = |x: &VmMetric| -> (b: bool)
            ensures
                b == vm_before(before)(x@),
            { x.sampled_at < before };
        let hosts: usize = remove(&mut self.host_metrics, old_host, Ghost(host_before(before)));
        let vms: usize = remove(&mut self.vm_metrics, old_vm, Ghost(vm_before(before)));
        Ok((hosts, vms))
    }
}

/// No two rows of the window are of the same time.
pub open spec fn times_distinct<M>(
    rows: Seq<M>,
    p: spec_fn(M) -> bool,
    t: spec_fn(M) -> Timestamp,
) -> bool {
    forall|i: int, j: int|
        0 <= i < j < rows.len() && p(rows[i]) && p(rows[j]) ==> t(#[trigger] rows[i]) != t(
            #[trigger] rows[j],
        )
}

/// Every row of the window has a row that stands for its stretch.
proof fn a_row_stands<M>(
    rows: Seq<M>,
    p: spec_fn(M) -> bool,
    t: spec_fn(M) -> Timestamp,
    since: Timestamp,
    bucket: int,
    k: int,
) -> (r: int)
    requires
        0 <= k < rows.len(),
        p(rows[k]),
    ensures
        0 <= r < rows.len(),
        stands_for(rows, p, t, since, bucket)(rows[r]),
        stretch(t(rows[r]), since, bucket) == stretch(t(rows[k]), since, bucket),
        t(rows[r]) >= t(rows[k]),
    decreases i64::MAX - t(rows[k]),
{
    let q = later_in_stretch(p, t, since, bucket, t(rows[k]));
    first_is_first(rows, q);
    if any(rows, q) {
        let n = first(rows, q)->0;
        a_row_stands(rows, p, t, since, bucket, n)
    } else {
        k
    }
}

proof fn latest_is_latest<M>(
    rows: Seq<M>,
    p: spec_fn(M) -> bool,
    t: spec_fn(M) -> Timestamp,
)
    ensures
        forall|i: int| 0 <= i < rows.len() && p(#[trigger] rows[i]) ==> latest_of(rows, p, t)
            is Some && t(rows[i]) <= latest_of(rows, p, t)->0,
        latest_of(rows, p, t) matches Some(best) ==> exists|i: int|
            0 <= i < rows.len() && p(#[trigger] rows[i]) && t(rows[i]) == best,
    decreases rows.len(),
{
    if rows.len() > 0 {
        let front = rows.drop_last();
        latest_is_latest(front, p, t);
        assert forall|i: int| 0 <= i < rows.len() && p(#[trigger] rows[i]) implies latest_of(
            rows,
            p,
            t,
        ) is Some && t(rows[i]) <= latest_of(rows, p, t)->0 by {
            if i < front.len() {
                assert(front[i] == rows[i]);
            }
        }
        if latest_of(rows, p, t) is Some {
            let best = latest_of(rows, p, t)->0;
            if p(rows.last()) && t(rows.last()) == best {
                assert(rows[rows.len() - 1] == rows.last());
            } else {
                let i = choose|i: int|
                    0 <= i < front.len() && p(#[trigger] front[i]) && t(front[i]) == best;
                assert(rows[i] == front[i]);
            }
        }
    }
}

proof fn matching_distinct<M>(
    rows: Seq<M>,
    p: spec_fn(M) -> bool,
    q: spec_fn(M) -> bool,
    t: spec_fn(M) -> Timestamp,
)
    requires
        times_distinct(rows, p, t),
        forall|m: M| #[trigger] q(m) ==> p(m),
    ensures
        matching(rows, q).no_duplicates(),
    decreases rows.len(),
{
    if rows.len() > 0 {
        let front = rows.drop_last();
        assert(times_distinct(front, p, t)) by {
            assert forall|i: int, j: int|
                0 <= i < j < front.len() && p(front[i]) && p(front[j]) implies t(
                #[trigger] front[i],
            ) != t(#[trigger] front[j]) by {
                assert(front[i] == rows[i] && front[j] == rows[j]);
            }
        }
        matching_distinct(front, p, q, t);
        let f = matching(front, q);
        if q(rows.last()) {
            let r = f.push(rows.last());
            assert forall|i: int, j: int| 0 <= i < r.len() && 0 <= j < r.len() && i != j implies r[i]
                != r[j] by {
                if i == f.len() || j == f.len() {
                    let k = if i == f.len() {
                        j
                    } else {
                        i
                    };
                    assert(f.contains(f[k]));
                    matching_has(front, q, f[k]);
                    let w = choose|w: int| 0 <= w < front.len() && front[w] == f[k];
                    assert(rows[w] == front[w]);
                    assert(rows[rows.len() - 1] == rows.last());
                    assert(p(rows[w]) && p(rows.last()));
                    assert(t(rows[w]) != t(rows[rows.len() - 1]));
                }
            }
        }
    }
}

proof fn stretches_fall(ts: Seq<Timestamp>, since: Timestamp, bucket: int, k: int)
    requires
        bucket >= 1,
        0 <= k < ts.len(),
        forall|i: int| 0 <= i < ts.len() ==> #[trigger] ts[i] >= since,
        forall|i: int, j: int|
            0 <= i < j < ts.len() ==> #[trigger] ts[i] >= #[trigger] ts[j] && stretch(
                ts[i],
                since,
                bucket,
            ) != stretch(ts[j], since, bucket),
    ensures
        stretch(ts[0], since, bucket) >= k + stretch(ts[k], since, bucket),
        stretch(ts[k], since, bucket) >= 0,
    decreases k,
{
    let x = ts[k] - since;
    assert(x / bucket >= 0) by (nonlinear_arith)
        requires
            x >= 0,
            bucket >= 1,
    ;
    if k > 0 {
        stretches_fall(ts, since, bucket, k - 1);
        let y = ts[k - 1] - since;
        assert(ts[k - 1] >= ts[k]);
        assert(y / bucket >= x / bucket) by (nonlinear_arith)
            requires
                y >= x,
                bucket >= 1,
        ;
    }
}

proof fn buckets_suffice(since: Timestamp, latest: Timestamp, limit: int)
    requires
        limit >= 1,
        latest >= since,
        latest - since + limit <= i64::MAX,
    ensures
        stretch(latest, since, bucket_of(since, Some(latest), limit)) <= limit - 1,
{
    let span = latest - since + 1;
    let bucket = bucket_of(since, Some(latest), limit);
    let padded = span + (limit - 1);
    assert(clamped(padded) == padded);
    assert(padded / limit >= 1) by (nonlinear_arith)
        requires
            padded >= limit,
            limit >= 1,
    ;
    assert(bucket == padded / limit);
    assert(bucket * limit >= span) by (nonlinear_arith)
        requires
            bucket == padded / limit,
            padded == span + limit - 1,
            limit >= 1,
    ;
    let x = span - 1;
    assert(x / bucket <= limit - 1) by (nonlinear_arith)
        requires
            0 <= x,
            x < bucket * limit,
            bucket >= 1,
            limit >= 1,
    ;
}

/// A chart shows the whole window: there are at most `limit` points, every measurement of
/// the window has a point in its stretch that is not older, and the first point is the
/// latest measurement.
pub proof fn charts_show_the_whole_window<M>(
    rows: Seq<M>,
    p: spec_fn(M) -> bool,
    t: spec_fn(M) -> Timestamp,
    since: Timestamp,
    limit: int,
    points: Seq<M>,
)
    requires
        times_distinct(rows, p, t),
        forall|m: M| #[trigger] p(m) ==> t(m) >= since,
        limit >= 1,
        latest_of(rows, p, t) matches Some(latest) ==> latest - since + limit <= i64::MAX,
        listing(
            points,
            matching(
                rows,
                stands_for(rows, p, t, since, bucket_of(since, latest_of(rows, p, t), limit)),
            ),
            latest_first(t),
            limit,
        ),
    ensures
        points.len() <= limit,
        forall|k: int|
            0 <= k < rows.len() && p(#[trigger] rows[k]) ==> exists|i: int|
                0 <= i < points.len() && t(#[trigger] points[i]) >= t(rows[k]) && stretch(
                    t(points[i]),
                    since,
                    bucket_of(since, latest_of(rows, p, t), limit),
                ) == stretch(
                    t(rows[k]),
                    since,
                    bucket_of(since, latest_of(rows, p, t), limit),
                ),
        latest_of(rows, p, t) matches Some(latest) ==> points.len() > 0 && t(points[0]) == latest,
{
    let latest = latest_of(rows, p, t);
    let bucket = bucket_of(since, latest, limit);
    let q = stands_for(rows, p, t, since, bucket);
    let chosen = matching(rows, q);
    let every = choose|every: Seq<M>|
        {
            &&& #[trigger] ordered(every, latest_first(t))
            &&& every.to_multiset() == chosen.to_multiset()
            &&& every.len() == chosen.len()
            &&& points == every.take(
                if limit < every.len() {
                    limit
                } else {
                    every.len() as int
                },
            )
        };
    latest_is_latest(rows, p, t);
    matching_distinct(rows, p, q, t);
    chosen.lemma_multiset_has_no_duplicates();
    every.lemma_multiset_has_no_duplicates_conv();
    assert forall|m: M| every.contains(m) <==> #[trigger] chosen.contains(m) by {
        broadcast use vstd::seq_lib::group_to_multiset_ensures;

        assert(every.to_multiset().contains(m) <==> every.contains(m));
        assert(chosen.to_multiset().contains(m) <==> chosen.contains(m));
    }
    let ts = Seq::new(every.len(), |i: int| t(every[i]));
    assert forall|i: int| 0 <= i < every.len() implies q(#[trigger] every[i]) && rows.contains(
        every[i],
    ) by {
        assert(every.contains(every[i]));
        assert(chosen.contains(every[i]));
        matching_has(rows, q, every[i]);
    }
    assert forall|i: int, j: int| 0 <= i < j < ts.len() implies #[trigger] ts[i] >= #[trigger] ts[j]
        && stretch(ts[i], since, bucket) != stretch(ts[j], since, bucket) by {
        assert(q(every[i]) && q(every[j]));
        assert(latest_first(t)(every[i], every[j]));
        if stretch(ts[i], since, bucket) == stretch(ts[j], since, bucket) {
            let later_i = later_in_stretch(p, t, since, bucket, ts[j]);
            any_is_some_row(rows, later_i);
            let a = choose|a: int| 0 <= a < rows.len() && rows[a] == every[i];
            let b = choose|b: int| 0 <= b < rows.len() && rows[b] == every[j];
            assert(!later_i(rows[a]));
            assert(ts[i] == ts[j]);
            assert(p(rows[a]) && p(rows[b]));
            if a < b {
                assert(t(rows[a]) != t(rows[b]));
            } else if b < a {
                assert(t(rows[b]) != t(rows[a]));
            }
            assert(every[i] == every[j]);
        }
    }
    if every.len() > 0 {
        assert(q(every[0]));
        let best = latest->0;
        let a = choose|a: int| 0 <= a < rows.len() && rows[a] == every[0];
        assert(p(rows[a]));
        buckets_suffice(since, best, limit);
        assert forall|i: int| 0 <= i < ts.len() implies #[trigger] ts[i] >= since by {
            assert(q(every[i]));
        }
        stretches_fall(ts, since, bucket, ts.len() - 1);
        let x = ts[0] - since;
        let y = best - since;
        assert(x / bucket <= y / bucket) by (nonlinear_arith)
            requires
                x <= y,
                bucket >= 1,
        ;
    }
    assert(every.len() <= limit);
    assert(points =~= every);
    assert forall|k: int| 0 <= k < rows.len() && p(#[trigger] rows[k]) implies exists|i: int|
        0 <= i < points.len() && t(#[trigger] points[i]) >= t(rows[k]) && stretch(
            t(points[i]),
            since,
            bucket,
        ) == stretch(t(rows[k]), since, bucket) by {
        let r = a_row_stands(rows, p, t, since, bucket, k);
        assert(rows.contains(rows[r]));
        matching_has(rows, q, rows[r]);
        assert(every.contains(rows[r]));
        let i = choose|i: int| 0 <= i < every.len() && every[i] == rows[r];
        assert(points[i] == rows[r]);
    }
    if latest is Some {
        let best = latest->0;
        let k = choose|k: int| 0 <= k < rows.len() && p(#[trigger] rows[k]) && t(rows[k]) == best;
        let r = a_row_stands(rows, p, t, since, bucket, k);
        assert(rows.contains(rows[r]));
        matching_has(rows, q, rows[r]);
        assert(p(rows[r]));
        assert(every.contains(rows[r]));
        let i = choose|i: int| 0 <= i < every.len() && every[i] == rows[r];
        assert(q(every[0]));
        let a = choose|a: int| 0 <= a < rows.len() && rows[a] == every[0];
        assert(p(rows[a]) && t(rows[a]) <= best);
        if i > 0 {
            assert(latest_first(t)(every[0], every[i]));
        }
    }
}

} // verus!

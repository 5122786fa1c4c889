//! Links for customers and to consoles. A link is used once: it is exchanged for a browser
//! session, which ends no later than the link.

use vstd::prelude::*;

use crate::db::rows::{
    hash_is, same_hash, CustomerTokenRecord, CustomerTokenRecordView, CustomerTokenRow,
    CustomerTokenRowView, Timestamp, VncTokenRecord, VncTokenRecordView, VncTokenRow,
    VncTokenRowView,
};
use crate::db::store::{
    dangling_reference, duplicate_value, empty_database, option_result, plain_result,
    reference_error, row_result, settles, unique_error, vm_called, vm_with_id, Database,
    DatabaseView,
};
use crate::db::admins::or_value;
use crate::db::jobs::{cancel_spec, job_with_id};
use crate::db::removal::{customer_of_vm, delete_vm_spec};
use crate::db::vms::changed;
use crate::error::{not_found, validation, AppErrorView, AppResult};
use crate::net::{canonical_optional_ip, canonical_optional_ip_spec};
use crate::table::{
    any, append, appending_keeps_distinct, count, distinct_by, every, find, first, first_is_first,
    list, listing, look_up, matching, models, occurs, only_row_is_found, others, remove,
    removing_keeps_distinct, removing_keeps_every, revise, revised, revising_keeps_distinct,
    revising_keeps_every, select,
};
use crate::text::{copy_list, own_option, same, same_option, view_option, view_str, views};

verus! {

broadcast use vstd::string::group_string_axioms;

/// A customer's link with an identifier.
pub open spec fn customer_with_id(id: Seq<char>) -> spec_fn(CustomerTokenRowView) -> bool {
    |m: CustomerTokenRowView| m.token.id == id
}

/// A customer's link with a hash.
pub open spec fn customer_with_hash(token_hash: Seq<u8>) -> spec_fn(CustomerTokenRowView) -> bool {
    |m: CustomerTokenRowView| m.token_hash == token_hash
}

/// A customer's link is entered for a machine. Its hash must be new: by the hash alone is a
/// link found.
pub open spec fn create_link_spec(
    db: DatabaseView,
    vm_id: Seq<char>,
    token_hash: Seq<u8>,
    scopes: Seq<Seq<char>>,
    bound_ip: Option<Seq<char>>,
    expires_at: Timestamp,
    id: Seq<char>,
    now: Timestamp,
) -> Result<(DatabaseView, CustomerTokenRecordView), AppErrorView> {
    if expires_at <= now {
        Err(AppErrorView::Validation("customer token expiry must be in the future"@))
    } else {
        match canonical_optional_ip_spec(bound_ip, None) {
            Err(e) => Err(e),
            Ok(bound_ip) => if any(db.customer_tokens, customer_with_id(id)) {
                Err(unique_error("customer_tokens.id"@))
            } else if any(db.customer_tokens, customer_with_hash(token_hash)) {
                Err(unique_error("customer_tokens.token_hash"@))
            } else if !any(db.vms, vm_with_id(vm_id)) {
                Err(reference_error())
            } else {
                let token = CustomerTokenRecordView {
                    id,
                    vm_id,
                    scopes,
                    bound_ip,
                    created_at: now,
                    expires_at,
                    consumed_at: None,
                    session_expires_at: None,
                    last_used_at: None,
                    revoked_at: None,
                };
                Ok(
                    (
                        DatabaseView {
                            customer_tokens: db.customer_tokens.push(
                                CustomerTokenRowView { token, token_hash, session_hash: None },
                            ),
                            ..db
                        },
                        token,
                    ),
                )
            },
        }
    }
}

/// A customer's link that can be exchanged.
pub open spec fn fresh_link(link_hash: Seq<u8>, now: Timestamp) -> spec_fn(
    CustomerTokenRowView,
) -> bool {
    |m: CustomerTokenRowView|
        m.token_hash == link_hash && m.token.consumed_at is None && m.token.revoked_at is None
            && m.token.expires_at > now
}

/// A customer's link with an identifier that was not exchanged.
pub open spec fn unconsumed_link(id: Seq<char>) -> spec_fn(CustomerTokenRowView) -> bool {
    |m: CustomerTokenRowView| m.token.id == id && m.token.consumed_at is None
}

/// When the session of a link ends: after its time to live, an hour at most, and no later
/// than the link.
pub open spec fn session_end(link_end: Timestamp, now: Timestamp, ttl: u64) -> Timestamp {
    let life: int = if ttl < 3600 {
        ttl as int
    } else {
        3600
    };
    let end = if now + life > i64::MAX {
        i64::MAX as int
    } else {
        now + life
    };
    if link_end <= end {
        link_end
    } else {
        end as i64
    }
}

/// A customer's link that was exchanged for a session.
pub open spec fn exchanged(session_hash: Seq<u8>, now: Timestamp, end: Timestamp) -> spec_fn(
    CustomerTokenRowView,
) -> CustomerTokenRowView {
    |m: CustomerTokenRowView|
        CustomerTokenRowView {
            token: CustomerTokenRecordView {
                consumed_at: Some(now),
                session_expires_at: Some(end),
                last_used_at: Some(now),
                ..m.token
            },
            session_hash: Some(session_hash),
            ..m
        }
}

/// A bound link is used from its address only.
pub open spec fn from_bound_address(bound: Option<Seq<char>>, source: Option<Seq<char>>) -> bool {
    bound is None || bound == source
}

/// A customer's link is exchanged for a session, once and from its address only.
pub open spec fn exchange_link_spec(
    db: DatabaseView,
    link_hash: Seq<u8>,
    session_hash: Seq<u8>,
    source_ip: Option<Seq<char>>,
    now: Timestamp,
    ttl: u64,
) -> Result<(DatabaseView, Option<CustomerTokenRecordView>), AppErrorView> {
    if ttl == 0 {
        Err(AppErrorView::Validation("customer session TTL must be greater than zero"@))
    } else {
        match canonical_optional_ip_spec(source_ip, None) {
            Err(e) => Err(e),
            Ok(source) => match find(db.customer_tokens, fresh_link(link_hash, now)) {
                None => Ok((db, None)),
                Some(m) => if !from_bound_address(m.token.bound_ip, source) {
                    Ok((db, None))
                } else {
                    let change = exchanged(
                        session_hash,
                        now,
                        session_end(m.token.expires_at, now, ttl),
                    );
                    Ok(
                        (
                            DatabaseView {
                                customer_tokens: revised(
                                    db.customer_tokens,
                                    unconsumed_link(m.token.id),
                                    change,
                                ),
                                ..db
                            },
                            Some(change(m).token),
                        ),
                    )
                },
            },
        }
    }
}

/// A customer's session that is let in.
pub open spec fn live_customer_session(
    session_hash: Seq<u8>,
    source: Option<Seq<char>>,
    now: Timestamp,
) -> spec_fn(CustomerTokenRowView) -> bool {
    |m: CustomerTokenRowView|
        m.session_hash == Some(session_hash) && (match m.token.session_expires_at {
            Some(t) => t > now,
            None => false,
        }) && m.token.revoked_at is None && from_bound_address(m.token.bound_ip, source)
}

/// A customer's link with a session.
pub open spec fn customer_with_session(session_hash: Seq<u8>) -> spec_fn(
    CustomerTokenRowView,
) -> bool {
    |m: CustomerTokenRowView| m.session_hash == Some(session_hash)
}

/// A customer's link that was used.
pub open spec fn token_used(now: Timestamp) -> spec_fn(
    CustomerTokenRowView,
) -> CustomerTokenRowView {
    |m: CustomerTokenRowView|
        CustomerTokenRowView {
            token: CustomerTokenRecordView { last_used_at: Some(now), ..m.token },
            ..m
        }
}

/// A customer's live session is given as it was before, and is used now.
pub open spec fn authenticate_customer_spec(
    db: DatabaseView,
    session_hash: Seq<u8>,
    source_ip: Option<Seq<char>>,
    now: Timestamp,
) -> Result<(DatabaseView, Option<CustomerTokenRecordView>), AppErrorView> {
    match canonical_optional_ip_spec(source_ip, None) {
        Err(e) => Err(e),
        Ok(source) => match find(
            db.customer_tokens,
            live_customer_session(session_hash, source, now),
        ) {
            None => Ok((db, None)),
            Some(m) => Ok(
                (
                    DatabaseView {
                        customer_tokens: revised(
                            db.customer_tokens,
                            customer_with_session(session_hash),
                            token_used(now),
                        ),
                        ..db
                    },
                    Some(m.token),
                ),
            ),
        },
    }
}

/// A customer's link of a machine that is neither revoked nor expired.
pub open spec fn open_link_of(vm_id: Seq<char>, now: Timestamp) -> spec_fn(
    CustomerTokenRecordView,
) -> bool {
    |m: CustomerTokenRecordView| m.vm_id == vm_id && m.revoked_at is None && m.expires_at > now
}

/// What is shown of some customers' links.
pub open spec fn customers_shown(rows: Seq<CustomerTokenRowView>) -> Seq<CustomerTokenRecordView> {
    rows.map_values(|m: CustomerTokenRowView| m.token)
}

/// The newest links first.
pub open spec fn newest_link_first() -> spec_fn(
    CustomerTokenRecordView,
    CustomerTokenRecordView,
) -> bool {
    |a: CustomerTokenRecordView, b: CustomerTokenRecordView| a.created_at >= b.created_at
}

/// The link of a machine with an identifier.
pub open spec fn link_of_vm(vm_id: Seq<char>, id: Seq<char>) -> spec_fn(
    CustomerTokenRowView,
) -> bool {
    |m: CustomerTokenRowView| m.token.id == id && m.token.vm_id == vm_id
}

/// A customer's link that is revoked; the time of an earlier revocation stays.
pub open spec fn link_revoked(now: Timestamp) -> spec_fn(
    CustomerTokenRowView,
) -> CustomerTokenRowView {
    |m: CustomerTokenRowView|
        CustomerTokenRowView {
            token: CustomerTokenRecordView {
                revoked_at: Some(or_value(m.token.revoked_at, now)),
                ..m.token
            },
            ..m
        }
}

/// A customer's link is revoked through its machine.
pub open spec fn revoke_link_spec(
    db: DatabaseView,
    vm_id: Seq<char>,
    id: Seq<char>,
    now: Timestamp,
) -> Result<(DatabaseView, ()), AppErrorView> {
    if !any(db.customer_tokens, link_of_vm(vm_id, id)) {
        Err(AppErrorView::NotFound("customer token"@))
    } else {
        Ok(
            (
                DatabaseView {
                    customer_tokens: revised(
                        db.customer_tokens,
                        link_of_vm(vm_id, id),
                        link_revoked(now),
                    ),
                    ..db
                },
                (),
            ),
        )
    }
}

/// A customer's session that is not revoked.
pub open spec fn unrevoked_customer_session(session_hash: Seq<u8>) -> spec_fn(
    CustomerTokenRowView,
) -> bool {
    |m: CustomerTokenRowView| m.session_hash == Some(session_hash) && m.token.revoked_at is None
}

/// A console link with an identifier.
pub open spec fn vnc_with_id(id: Seq<char>) -> spec_fn(VncTokenRowView) -> bool {
    |m: VncTokenRowView| m.token.id == id
}

/// A console link with a hash.
pub open spec fn vnc_with_hash(token_hash: Seq<u8>) -> spec_fn(VncTokenRowView) -> bool {
    |m: VncTokenRowView| m.token_hash == token_hash
}

/// A console link of ten minutes is entered for a machine. Its hash must be new.
pub open spec fn create_vnc_spec(
    db: DatabaseView,
    vm_id: Seq<char>,
    token_hash: Seq<u8>,
    bound_ip: Option<Seq<char>>,
    created_at: Timestamp,
    id: Seq<char>,
) -> Result<(DatabaseView, VncTokenRecordView), AppErrorView> {
    match canonical_optional_ip_spec(bound_ip, None) {
        Err(e) => Err(e),
        Ok(bound_ip) => if any(db.vnc_tokens, vnc_with_id(id)) {
            Err(unique_error("vnc_tokens.id"@))
        } else if any(db.vnc_tokens, vnc_with_hash(token_hash)) {
            Err(unique_error("vnc_tokens.token_hash"@))
        } else if !any(db.vms, vm_with_id(vm_id)) {
            Err(reference_error())
        } else {
            let token = VncTokenRecordView {
                id,
                vm_id,
                created_at,
                expires_at: (created_at + 600) as i64,
                consumed_at: None,
                session_expires_at: None,
                bound_ip,
                revoked_at: None,
            };
            Ok(
                (
                    DatabaseView {
                        vnc_tokens: db.vnc_tokens.push(
                            VncTokenRowView { token, token_hash, session_hash: None },
                        ),
                        ..db
                    },
                    token,
                ),
            )
        },
    }
}

/// A console link that can be exchanged.
pub open spec fn fresh_vnc(link_hash: Seq<u8>, now: Timestamp) -> spec_fn(VncTokenRowView) -> bool {
    |m: VncTokenRowView|
        m.token_hash == link_hash && m.token.consumed_at is None && m.token.revoked_at is None
            && m.token.expires_at > now
}

/// A console link with an identifier that was not exchanged.
pub open spec fn unconsumed_vnc(id: Seq<char>) -> spec_fn(VncTokenRowView) -> bool {
    |m: VncTokenRowView| m.token.id == id && m.token.consumed_at is None
}

/// A console link that was exchanged for a session.
pub open spec fn vnc_exchanged(session_hash: Seq<u8>, now: Timestamp, end: Timestamp) -> spec_fn(
    VncTokenRowView,
) -> VncTokenRowView {
    |m: VncTokenRowView|
        VncTokenRowView {
            token: VncTokenRecordView {
                consumed_at: Some(now),
                session_expires_at: Some(end),
                ..m.token
            },
            session_hash: Some(session_hash),
            ..m
        }
}

/// A console link is exchanged for a session, once and from its address only; the session
/// has what is left of the link's time.
pub open spec fn exchange_vnc_spec(
    db: DatabaseView,
    link_hash: Seq<u8>,
    session_hash: Seq<u8>,
    source_ip: Option<Seq<char>>,
    now: Timestamp,
) -> Result<(DatabaseView, Option<VncTokenRecordView>), AppErrorView> {
    match canonical_optional_ip_spec(source_ip, None) {
        Err(e) => Err(e),
        Ok(source) => match find(db.vnc_tokens, fresh_vnc(link_hash, now)) {
            None => Ok((db, None)),
            Some(m) => if !from_bound_address(m.token.bound_ip, source) {
                Ok((db, None))
            } else {
                let change = vnc_exchanged(session_hash, now, m.token.expires_at);
                Ok(
                    (
                        DatabaseView {
                            vnc_tokens: revised(
                                db.vnc_tokens,
                                unconsumed_vnc(m.token.id),
                                change,
                            ),
                            ..db
                        },
                        Some(change(m).token),
                    ),
                )
            },
        },
    }
}

/// A console session that is let in.
pub open spec fn live_vnc_session(
    session_hash: Seq<u8>,
    source: Option<Seq<char>>,
    now: Timestamp,
) -> spec_fn(VncTokenRowView) -> bool {
    |m: VncTokenRowView|
        m.session_hash == Some(session_hash) && (match m.token.session_expires_at {
            Some(t) => t > now,
            None => false,
        }) && m.token.revoked_at is None && from_bound_address(m.token.bound_ip, source)
}

/// A console link of a machine.
pub open spec fn vnc_of_vm(vm_id: Seq<char>) -> spec_fn(VncTokenRowView) -> bool {
    |m: VncTokenRowView| m.token.vm_id == vm_id
}

/// A console session that is not revoked.
pub open spec fn unrevoked_vnc_session(session_hash: Seq<u8>) -> spec_fn(VncTokenRowView) -> bool {
    |m: VncTokenRowView| m.session_hash == Some(session_hash) && m.token.revoked_at is None
}

/// A console link that is revoked; the time of an earlier revocation stays.
pub open spec fn vnc_revoked(now: Timestamp) -> spec_fn(VncTokenRowView) -> VncTokenRowView {
    |m: VncTokenRowView|
        VncTokenRowView {
            token: VncTokenRecordView {
                revoked_at: Some(or_value(m.token.revoked_at, now)),
                ..m.token
            },
            ..m
        }
}

/// A customer's link that is over.
pub open spec fn spent_link(now: Timestamp) -> spec_fn(CustomerTokenRowView) -> bool {
    |m: CustomerTokenRowView|
        or_value(m.token.session_expires_at, m.token.expires_at) <= now || m.token.revoked_at
            is Some
}

/// A console link that is over.
pub open spec fn spent_vnc(now: Timestamp) -> spec_fn(VncTokenRowView) -> bool {
    |m: VncTokenRowView|
        or_value(m.token.session_expires_at, m.token.expires_at) <= now || m.token.revoked_at
            is Some
}

fn is_from_bound_address(bound: &Option<String>, source: &Option<String>) -> (r: bool)
    ensures
        r == from_bound_address(view_option(*bound), view_option(*source)),
{
    bound.is_none() || same_option(bound, source)
}

fn end_of_session(link_end: Timestamp, now: Timestamp, ttl: u64) -> (r: Timestamp)
    ensures
        r == session_end(link_end, now, ttl),
{
    let life: i64 = if ttl < 3600 {
        ttl as i64
    } else {
        3600
    };
    let end: i64 = if now > i64::MAX - life {
        i64::MAX
    } else {
        now + life
    };
    if link_end <= end {
        link_end
    } else {
        end
    }
}

fn is_later_than(t: Option<i64>, now: Timestamp) -> (r: bool)
    ensures
        r == (match t {
            Some(x) => x > now,
            None => false,
        }),
{
    match t {
        Some(x) => x > now,
        None => false,
    }
}

impl Database {
    /// Enters a customer's link that is bound to no address.
    pub fn create_customer_token(
        &mut self,
        vm_id: &str,
        token_hash: &[u8; 32],
        scopes: &Vec<String>,
        expires_at: Timestamp,
        id: &str,
        now: Timestamp,
    ) -> (r: AppResult<CustomerTokenRecord>)
        ensures
            settles(
                create_link_spec(
                    old(self)@,
                    vm_id@,
                    token_hash@,
                    views(scopes@),
                    None,
                    expires_at,
                    id@,
                    now,
                ),
                old(self)@,
                final(self)@,
                row_result(r),
            ),
    {
        self.create_customer_link(vm_id, token_hash, scopes, None, expires_at, id, now)
    }

    /// Enters a customer's link.
    pub fn create_customer_link(
        &mut self,
        vm_id: &str,
        token_hash: &[u8; 32],
        scopes: &Vec<String>,
        bound_ip: Option<&str>,
        expires_at: Timestamp,
        id: &str,
        now: Timestamp,
    ) -> (r: AppResult<CustomerTokenRecord>)
        ensures
            settles(
                create_link_spec(
                    old(self)@,
                    vm_id@,
                    token_hash@,
                    views(scopes@),
                    view_str(bound_ip),
                    expires_at,
                    id@,
                    now,
                ),
                old(self)@,
                final(self)@,
                row_result(r),
            ),
    {
        if expires_at <= now {
            return Err(validation("customer token expiry must be in the future"));
        }
        let bound_ip = match canonical_optional_ip(&own_option(bound_ip), None) {
            Err(e) => {
                return Err(e);
            },
            Ok(v) => v,
        };
        let test = |x: &CustomerTokenRow| -> (b: bool)
            ensures
                b == customer_with_id(id@)(x@),
            { same(x.token.id.as_str(), id) };
        if occurs(&self.customer_tokens, test, Ghost(customer_with_id(id@))) {
            return Err(duplicate_value("customer_tokens.id"));
        }
        let taken = |x: &CustomerTokenRow| -> (b: bool)
            ensures
                b == customer_with_hash(token_hash@)(x@),
            { same_hash(&x.token_hash, token_hash) };
        if occurs(&self.customer_tokens, taken, Ghost(customer_with_hash(token_hash@))) {
            return Err(duplicate_value("customer_tokens.token_hash"));
        }
        if !self.has_vm(vm_id) {
            return Err(dangling_reference());
        }
        let token = CustomerTokenRecord {
            id: id.to_owned(),
            vm_id: vm_id.to_owned(),
            scopes: copy_list(scopes),
            bound_ip,
            created_at: now,
            expires_at,
            consumed_at: None,
            session_expires_at: None,
            last_used_at: None,
            revoked_at: None,
        };
        let shown = token.clone();
        append(
            &mut self.customer_tokens,
            CustomerTokenRow { token, token_hash: *token_hash, session_hash: None },
        );
        Ok(shown)
    }

    /// Exchanges a customer's link for a session, once.
    pub fn exchange_customer_link(
        &mut self,
        link_hash: &[u8; 32],
        session_hash: &[u8; 32],
        source_ip: Option<&str>,
        now: Timestamp,
        session_ttl_seconds: u64,
    ) -> (r: AppResult<Option<CustomerTokenRecord>>)
        ensures
            settles(
                exchange_link_spec(
                    old(self)@,
                    link_hash@,
                    session_hash@,
                    view_str(source_ip),
                    now,
                    session_ttl_seconds,
                ),
                old(self)@,
                final(self)@,
                option_result(r),
            ),
    {
        if session_ttl_seconds == 0 {
            return Err(validation("customer session TTL must be greater than zero"));
        }
        let source = match canonical_optional_ip(&own_option(source_ip), None) {
            Err(e) => {
                return Err(e);
            },
            Ok(v) => v,
        };
        let fresh = |x: &CustomerTokenRow| -> (b: bool)
            ensures
                b == fresh_link(link_hash@, now)(x@),
            {
                same_hash(&x.token_hash, link_hash)
                    && x.token.consumed_at.is_none()
                    && x.token.revoked_at.is_none()
                    && x.token.expires_at > now
            };
        let row = match look_up(&self.customer_tokens, fresh, Ghost(fresh_link(link_hash@, now))) {
            None => {
                return Ok(None);
            },
            Some(row) => row,
        };
        if !is_from_bound_address(&row.token.bound_ip, &source) {
            return Ok(None);
        }
        let end: i64 = end_of_session(row.token.expires_at, now, session_ttl_seconds);
        let id = row.token.id.as_str();
        let ghost f = exchanged(session_hash@, now, end);
        let chosen = |x: &CustomerTokenRow| -> (b: bool)
            ensures
                b == unconsumed_link(id@)(x@),
            { same(x.token.id.as_str(), id) && x.token.consumed_at.is_none() };
        let change = |x: &CustomerTokenRow| -> (y: CustomerTokenRow)
            ensures
                y@ == f(x@),
            { {
            let mut y = x.clone();
            y.token.consumed_at = Some(now);
            y.token.session_expires_at = Some(end);
            y.token.last_used_at = Some(now);
            y.session_hash = Some(*session_hash);
            y
        } };
        let after = change(&row);
        let _ = revise(
            &mut self.customer_tokens,
            chosen,
            change,
            Ghost(unconsumed_link(id@)),
            Ghost(f),
        );
        Ok(Some(after.token))
    }

    /// A customer's live session, which is used by this.
    pub fn authenticate_customer_session(
        &mut self,
        session_hash: &[u8; 32],
        source_ip: Option<&str>,
        now: Timestamp,
    ) -> (r: AppResult<Option<CustomerTokenRecord>>)
        ensures
            settles(
                authenticate_customer_spec(
                    old(self)@,
                    session_hash@,
                    view_str(source_ip),
                    now,
                ),
                old(self)@,
                final(self)@,
                option_result(r),
            ),
    {
        let source = match canonical_optional_ip(&own_option(source_ip), None) {
            Err(e) => {
                return Err(e);
            },
            Ok(v) => v,
        };
        let ghost p = live_customer_session(session_hash@, view_option(source), now);
        let live = |x: &CustomerTokenRow| -> (b: bool)
            ensures
                b == p(x@),
            {
                hash_is(&x.session_hash, session_hash)
                    && is_later_than(x.token.session_expires_at, now)
                    && x.token.revoked_at.is_none()
                    && is_from_bound_address(&x.token.bound_ip, &source)
            };
        let row = match look_up(&self.customer_tokens, live, Ghost(p)) {
            None => {
                return Ok(None);
            },
            Some(row) => row,
        };
        let chosen = |x: &CustomerTokenRow| -> (b: bool)
            ensures
                b == customer_with_session(session_hash@)(x@),
            { hash_is(&x.session_hash, session_hash) };
        let change = |x: &CustomerTokenRow| -> (y: CustomerTokenRow)
            ensures
                y@ == token_used(now)(x@),
            { {
            let mut y = x.clone();
            y.token.last_used_at = Some(now);
            y
        } };
        let _ = revise(
            &mut self.customer_tokens,
            chosen,
            change,
            Ghost(customer_with_session(session_hash@)),
            Ghost(token_used(now)),
        );
        Ok(Some(row.token))
    }

    /// The open links of a machine, the newest first.
    pub fn list_customer_tokens(&self, vm_id: &str, now: Timestamp) -> (r: AppResult<
        Vec<CustomerTokenRecord>,
    >)
        ensures
            r is Ok,
            listing(
                models(r->Ok_0@),
                matching(customers_shown(self@.customer_tokens), open_link_of(vm_id@, now)),
                newest_link_first(),
                usize::MAX as int,
            ),
    {
        let mut rows: Vec<CustomerTokenRecord> = Vec::new();
        let mut i: usize = 0;
        while i < self.customer_tokens.len()
            invariant
                i <= self.customer_tokens@.len(),
                rows@.len() == i,
                forall|j: int| 0 <= j < i ==> (#[trigger] rows@[j])@ == customers_shown(
                    self@.customer_tokens,
                )[j],
            decreases self.customer_tokens@.len() - i,
        {
            rows.push(self.customer_tokens[i].token.clone());
            i = i + 1;
        }
        proof {
            assert(models(rows@) =~= customers_shown(self@.customer_tokens));
        }
        let ghost p = open_link_of(vm_id@, now);
        let open = |x: &CustomerTokenRecord| -> (b: bool)
            ensures
                b == p(x@),
            { same(x.vm_id.as_str(), vm_id) && x.revoked_at.is_none() && x.expires_at > now };
        let shown = select(&rows, open, Ghost(p));
        let le = |a: &CustomerTokenRecord, c: &CustomerTokenRecord| -> (b: bool)
            ensures
                b == newest_link_first()(a@, c@),
            { a.created_at >= c.created_at };
        Ok(list(shown, le, usize::MAX, Ghost(newest_link_first())))
    }

    /// Revokes a customer's link through its machine.
    pub fn revoke_customer_token_for_vm(&mut self, vm_id: &str, id: &str, now: Timestamp) -> (r:
        AppResult<()>)
        ensures
            settles(
                revoke_link_spec(old(self)@, vm_id@, id@, now),
                old(self)@,
                final(self)@,
                plain_result(r),
            ),
    {
        let ghost p = link_of_vm(vm_id@, id@);
        let chosen = |x: &CustomerTokenRow| -> (b: bool)
            ensures
                b == p(x@),
            { same(x.token.id.as_str(), id) && same(x.token.vm_id.as_str(), vm_id) };
        if !occurs(&self.customer_tokens, chosen, Ghost(p)) {
            return Err(not_found("customer token"));
        }
        let change = |x: &CustomerTokenRow| -> (y: CustomerTokenRow)
            ensures
                y@ == link_revoked(now)(x@),
            { {
            let mut y = x.clone();
            y.token.revoked_at = Some(changed(x.token.revoked_at, now));
            y
        } };
        let _ = revise(&mut self.customer_tokens, chosen, change, Ghost(p), Ghost(link_revoked(now)));
        Ok(())
    }

    /// Revokes a customer's session, and counts the links that it had.
    pub fn revoke_customer_session(&mut self, session_hash: &[u8; 32], now: Timestamp) -> (r:
        AppResult<usize>)
        ensures
            r is Ok,
            r->Ok_0 == count(
                old(self)@.customer_tokens,
                unrevoked_customer_session(session_hash@),
            ),
            final(self)@ == (DatabaseView {
                customer_tokens: revised(
                    old(self)@.customer_tokens,
                    unrevoked_customer_session(session_hash@),
                    link_revoked(now),
                ),
                ..old(self)@
            }),
    {
        let ghost p = unrevoked_customer_session(session_hash@);
        let chosen = |x: &CustomerTokenRow| -> (b: bool)
            ensures
                b == p(x@),
            { hash_is(&x.session_hash, session_hash) && x.token.revoked_at.is_none() };
        let change = |x: &CustomerTokenRow| -> (y: CustomerTokenRow)
            ensures
                y@ == link_revoked(now)(x@),
            { {
            let mut y = x.clone();
            y.token.revoked_at = Some(changed(x.token.revoked_at, now));
            y
        } };
        Ok(revise(&mut self.customer_tokens, chosen, change, Ghost(p), Ghost(link_revoked(now))))
    }

    /// Enters a console link, which lasts ten minutes.
    pub fn create_vnc_link(
        &mut self,
        vm_id: &str,
        token_hash: &[u8; 32],
        bound_ip: Option<&str>,
        created_at: Timestamp,
        id: &str,
    ) -> (r: AppResult<VncTokenRecord>)
        requires
            created_at <= i64::MAX - 600,
        ensures
            settles(
                create_vnc_spec(
                    old(self)@,
                    vm_id@,
                    token_hash@,
                    view_str(bound_ip),
                    created_at,
                    id@,
                ),
                old(self)@,
                final(self)@,
                row_result(r),
            ),
    {
        let bound_ip = match canonical_optional_ip(&own_option(bound_ip), None) {
            Err(e) => {
                return Err(e);
            },
            Ok(v) => v,
        };
        let test = |x: &VncTokenRow| -> (b: bool)
            ensures
                b == vnc_with_id(id@)(x@),
            { same(x.token.id.as_str(), id) };
        if occurs(&self.vnc_tokens, test, Ghost(vnc_with_id(id@))) {
            return Err(duplicate_value("vnc_tokens.id"));
        }
        let taken = |x: &VncTokenRow| -> (b: bool)
            ensures
                b == vnc_with_hash(token_hash@)(x@),
            { same_hash(&x.token_hash, token_hash) };
        if occurs(&self.vnc_tokens, taken, Ghost(vnc_with_hash(token_hash@))) {
            return Err(duplicate_value("vnc_tokens.token_hash"));
        }
        if !self.has_vm(vm_id) {
            return Err(dangling_reference());
        }
        let token = VncTokenRecord {
            id: id.to_owned(),
            vm_id: vm_id.to_owned(),
            created_at,
            expires_at: created_at + 600,
            consumed_at: None,
            session_expires_at: None,
            bound_ip,
            revoked_at: None,
        };
        let shown = token.clone();
        append(
            &mut self.vnc_tokens,
            VncTokenRow { token, token_hash: *token_hash, session_hash: None },
        );
        Ok(shown)
    }

    /// Exchanges a console link for a session, once.
    pub fn exchange_vnc_link(
        &mut self,
        link_hash: &[u8; 32],
        session_hash: &[u8; 32],
        source_ip: Option<&str>,
        now: Timestamp,
    ) -> (r: AppResult<Option<VncTokenRecord>>)
        ensures
            settles(
                exchange_vnc_spec(
                    old(self)@,
                    link_hash@,
                    session_hash@,
                    view_str(source_ip),
                    now,
                ),
                old(self)@,
                final(self)@,
                option_result(r),
            ),
    {
        let source = match canonical_optional_ip(&own_option(source_ip), None) {
            Err(e) => {
                return Err(e);
            },
            Ok(v) => v,
        };
        let fresh = |x: &VncTokenRow| -> (b: bool)
            ensures
                b == fresh_vnc(link_hash@, now)(x@),
            {
                same_hash(&x.token_hash, link_hash)
                    && x.token.consumed_at.is_none()
                    && x.token.revoked_at.is_none()
                    && x.token.expires_at > now
            };
        let row = match look_up(&self.vnc_tokens, fresh, Ghost(fresh_vnc(link_hash@, now))) {
            None => {
                return Ok(None);
            },
            Some(row) => row,
        };
        if !is_from_bound_address(&row.token.bound_ip, &source) {
            return Ok(None);
        }
        let end: i64 = row.token.expires_at;
        let id = row.token.id.as_str();
        let ghost f = vnc_exchanged(session_hash@, now, end);
        let chosen = |x: &VncTokenRow| -> (b: bool)
            ensures
                b == unconsumed_vnc(id@)(x@),
            { same(x.token.id.as_str(), id) && x.token.consumed_at.is_none() };
        let change = |x: &VncTokenRow| -> (y: VncTokenRow)
            ensures
                y@ == f(x@),
            { {
            let mut y = x.clone();
            y.token.consumed_at = Some(now);
            y.token.session_expires_at = Some(end);
            y.session_hash = Some(*session_hash);
            y
        } };
        let after = change(&row);
        let _ = revise(&mut self.vnc_tokens, chosen, change, Ghost(unconsumed_vnc(id@)), Ghost(f));
        Ok(Some(after.token))
    }

    /// A live console session.
    pub fn authenticate_vnc_session(
        &self,
        session_hash: &[u8; 32],
        source_ip: Option<&str>,
        now: Timestamp,
    ) -> (r: AppResult<Option<VncTokenRecord>>)
        ensures
            option_result(r) == (match canonical_optional_ip_spec(view_str(source_ip), None) {
                Err(e) => Err(e),
                Ok(source) => Ok(
                    match find(self@.vnc_tokens, live_vnc_session(session_hash@, source, now)) {
                        Some(m) => Some(m.token),
                        None => None,
                    },
                ),
            }),
    {
        let source = match canonical_optional_ip(&own_option(source_ip), None) {
            Err(e) => {
                return Err(e);
            },
            Ok(v) => v,
        };
        let ghost p = live_vnc_session(session_hash@, view_option(source), now);
        let live = |x: &VncTokenRow| -> (b: bool)
            ensures
                b == p(x@),
            {
                hash_is(&x.session_hash, session_hash)
                    && is_later_than(x.token.session_expires_at, now)
                    && x.token.revoked_at.is_none()
                    && is_from_bound_address(&x.token.bound_ip, &source)
            };
        match look_up(&self.vnc_tokens, live, Ghost(p)) {
            None => Ok(None),
            Some(row) => Ok(Some(row.token)),
        }
    }

    /// Revokes the console links of a machine, and counts them.
    pub fn revoke_vm_vnc_tokens(&mut self, vm_id: &str, now: Timestamp) -> (r: AppResult<usize>)
        ensures
            r is Ok,
            r->Ok_0 == count(old(self)@.vnc_tokens, vnc_of_vm(vm_id@)),
            final(self)@ == (DatabaseView {
                vnc_tokens: revised(old(self)@.vnc_tokens, vnc_of_vm(vm_id@), vnc_revoked(now)),
                ..old(self)@
            }),
    {
        let chosen = |x: &VncTokenRow| -> (b: bool)
            ensures
                b == vnc_of_vm(vm_id@)(x@),
            { same(x.token.vm_id.as_str(), vm_id) };
        let change = |x: &VncTokenRow| -> (y: VncTokenRow)
            ensures
                y@ == vnc_revoked(now)(x@),
            { {
            let mut y = x.clone();
            y.token.revoked_at = Some(changed(x.token.revoked_at, now));
            y
        } };
        Ok(
            revise(
                &mut self.vnc_tokens,
                chosen,
                change,
                Ghost(vnc_of_vm(vm_id@)),
                Ghost(vnc_revoked(now)),
            ),
        )
    }

    /// Revokes a console session, and counts the links that it had.
    pub fn revoke_vnc_session(&mut self, session_hash: &[u8; 32], now: Timestamp) -> (r: AppResult<
        usize,
    >)
        ensures
            r is Ok,
            r->Ok_0 == count(old(self)@.vnc_tokens, unrevoked_vnc_session(session_hash@)),
            final(self)@ == (DatabaseView {
                vnc_tokens: revised(
                    old(self)@.vnc_tokens,
                    unrevoked_vnc_session(session_hash@),
                    vnc_revoked(now),
                ),
                ..old(self)@
            }),
    {
        let ghost p = unrevoked_vnc_session(session_hash@);
        let chosen = |x: &VncTokenRow| -> (b: bool)
            ensures
                b == p(x@),
            { hash_is(&x.session_hash, session_hash) && x.token.revoked_at.is_none() };
        let change = |x: &VncTokenRow| -> (y: VncTokenRow)
            ensures
                y@ == vnc_revoked(now)(x@),
            { {
            let mut y = x.clone();
            y.token.revoked_at = Some(changed(x.token.revoked_at, now));
            y
        } };
        Ok(revise(&mut self.vnc_tokens, chosen, change, Ghost(p), Ghost(vnc_revoked(now))))
    }

    /// Removes the links that are over, and counts those of customers and those of
    /// consoles.
    pub fn prune_expired_tokens(&mut self, now: Timestamp) -> (r: AppResult<(usize, usize)>)
        ensures
            r is Ok,
            r->Ok_0.0 == count(old(self)@.customer_tokens, spent_link(now)),
            r->Ok_0.1 == count(old(self)@.vnc_tokens, spent_vnc(now)),
            final(self)@ == (DatabaseView {
                customer_tokens: others(old(self)@.customer_tokens, spent_link(now)),
                vnc_tokens: others(old(self)@.vnc_tokens, spent_vnc(now)),
                ..old(self)@
            }),
    {
        let spent = |x: &CustomerTokenRow| -> (b: bool)
            ensures
                b == spent_link(now)(x@),
            {
                changed(x.token.session_expires_at, x.token.expires_at) <= now
                    || x.token.revoked_at.is_some()
            };
        let over = |x: &VncTokenRow| -> (b: bool)
            ensures
                b == spent_vnc(now)(x@),
            {
                changed(x.token.session_expires_at, x.token.expires_at) <= now
                    || x.token.revoked_at.is_some()
            };
        let customers: usize = remove(&mut self.customer_tokens, spent, Ghost(spent_link(now)));
        let consoles: usize = remove(&mut self.vnc_tokens, over, Ghost(spent_vnc(now)));
        Ok((customers, consoles))
    }
}

/// The hash of a customer's link.
pub open spec fn hash_of_link() -> spec_fn(CustomerTokenRowView) -> Seq<u8> {
    |m: CustomerTokenRowView| m.token_hash
}

/// A customer's link is not the one with a hash, or can no longer be exchanged.
pub open spec fn link_used_up(link_hash: Seq<u8>) -> spec_fn(CustomerTokenRowView) -> bool {
    |m: CustomerTokenRowView|
        m.token_hash == link_hash ==> m.token.consumed_at is Some || m.token.revoked_at is Some
}

/// No two customers' links have the same hash, whatever is done: in a state of which that
/// holds, every operation on links keeps it.
pub proof fn link_hashes_stay_distinct(
    db: DatabaseView,
    vm_id: Seq<char>,
    link_hash: Seq<u8>,
    session_hash: Seq<u8>,
    scopes: Seq<Seq<char>>,
    ip: Option<Seq<char>>,
    id: Seq<char>,
    time: Timestamp,
    now: Timestamp,
    ttl: u64,
)
    requires
        distinct_by(db.customer_tokens, hash_of_link()),
    ensures
        create_link_spec(db, vm_id, link_hash, scopes, ip, time, id, now) matches Ok(done)
            ==> distinct_by(done.0.customer_tokens, hash_of_link()),
        exchange_link_spec(db, link_hash, session_hash, ip, now, ttl) matches Ok(done)
            ==> distinct_by(done.0.customer_tokens, hash_of_link()),
        authenticate_customer_spec(db, session_hash, ip, now) matches Ok(done) ==> distinct_by(
            done.0.customer_tokens,
            hash_of_link(),
        ),
        revoke_link_spec(db, vm_id, id, now) matches Ok(done) ==> distinct_by(
            done.0.customer_tokens,
            hash_of_link(),
        ),
        distinct_by(
            revised(
                db.customer_tokens,
                unrevoked_customer_session(session_hash),
                link_revoked(now),
            ),
            hash_of_link(),
        ),
        distinct_by(others(db.customer_tokens, spent_link(now)), hash_of_link()),
        delete_vm_spec(db, vm_id, now) matches Ok(done) ==> distinct_by(
            done.0.customer_tokens,
            hash_of_link(),
        ),
        cancel_spec(db, id, now) matches Ok(done) ==> distinct_by(
            done.0.customer_tokens,
            hash_of_link(),
        ),
        distinct_by(empty_database(now).customer_tokens, hash_of_link()),
{
    let rows = db.customer_tokens;
    let key = hash_of_link();
    if create_link_spec(db, vm_id, link_hash, scopes, ip, time, id, now) is Ok {
        let after = create_link_spec(db, vm_id, link_hash, scopes, ip, time, id, now)->Ok_0.0;
        first_is_first(rows, customer_with_hash(link_hash));
        appending_keeps_distinct(rows, key, after.customer_tokens.last());
    }
    if any(rows, fresh_link(link_hash, now)) {
        let m = find(rows, fresh_link(link_hash, now))->0;
        let end = session_end(m.token.expires_at, now, ttl);
        revising_keeps_distinct(
            rows,
            key,
            unconsumed_link(m.token.id),
            exchanged(session_hash, now, end),
        );
    }
    revising_keeps_distinct(rows, key, customer_with_session(session_hash), token_used(now));
    revising_keeps_distinct(rows, key, link_of_vm(vm_id, id), link_revoked(now));
    revising_keeps_distinct(
        rows,
        key,
        unrevoked_customer_session(session_hash),
        link_revoked(now),
    );
    removing_keeps_distinct(rows, key, spent_link(now));
    if any(db.jobs, job_with_id(id)) && find(db.jobs, job_with_id(id))->0.vm_id is Some {
        let vm = find(db.jobs, job_with_id(id))->0.vm_id->0;
        removing_keeps_distinct(rows, key, customer_of_vm(vm));
    }
    if any(db.vms, vm_called(vm_id)) {
        removing_keeps_distinct(rows, key, customer_of_vm(find(db.vms, vm_called(vm_id))->0.vm.id));
    }
}

/// A customer's link that was just entered, for any address, is good for one session, which
/// starts when the link is exchanged and ends with the link, or with its time to live of an
/// hour at most. Once the link was exchanged, every further exchange of it gives nothing and
/// changes nothing, with whatever session, from wherever and whenever.
pub proof fn customer_links_are_good_once(
    db: DatabaseView,
    vm_id: Seq<char>,
    link_hash: Seq<u8>,
    scopes: Seq<Seq<char>>,
    expires_at: Timestamp,
    id: Seq<char>,
    entered: Timestamp,
    session_hash: Seq<u8>,
    source_ip: Option<Seq<char>>,
    now: Timestamp,
    ttl: u64,
    other_hash: Seq<u8>,
    other_ip: Option<Seq<char>>,
    later: Timestamp,
    other_ttl: u64,
)
    requires
        create_link_spec(db, vm_id, link_hash, scopes, None, expires_at, id, entered) is Ok,
        now < expires_at,
        ttl > 0,
        other_ttl > 0,
        canonical_optional_ip_spec(source_ip, None) is Ok,
        canonical_optional_ip_spec(other_ip, None) is Ok,
    ensures
        ({
            let made = create_link_spec(
                db,
                vm_id,
                link_hash,
                scopes,
                None,
                expires_at,
                id,
                entered,
            )->Ok_0.0;
            let done = exchange_link_spec(made, link_hash, session_hash, source_ip, now, ttl);
            let life: int = if ttl < 3600 {
                ttl as int
            } else {
                3600
            };
            &&& done is Ok
            &&& done->Ok_0.1 matches Some(token) && token.consumed_at == Some(now)
                && token.session_expires_at is Some && token.session_expires_at->0 == (
            if expires_at <= now + life {
                expires_at as int
            } else {
                now + life
            })
            &&& exchange_link_spec(
                done->Ok_0.0,
                link_hash,
                other_hash,
                other_ip,
                later,
                other_ttl,
            ) == Ok::<(DatabaseView, Option<CustomerTokenRecordView>), AppErrorView>(
                (done->Ok_0.0, None),
            )
        }),
{
    let made = create_link_spec(
        db,
        vm_id,
        link_hash,
        scopes,
        None,
        expires_at,
        id,
        entered,
    )->Ok_0.0.customer_tokens;
    let k = db.customer_tokens.len() as int;
    first_is_first(db.customer_tokens, customer_with_hash(link_hash));
    assert forall|j: int| 0 <= j < made.len() && hash_of_link()(#[trigger] made[j]) == hash_of_link()(
        made[k],
    ) implies j == k by {
        if j < k {
            assert(made[j] == db.customer_tokens[j]);
        }
    }
    only_row_is_found(made, hash_of_link(), k, fresh_link(link_hash, now));
    let end = session_end(expires_at, now, ttl);
    let after = revised(made, unconsumed_link(id), exchanged(session_hash, now, end));
    assert forall|j: int|
        0 <= j < after.len() && hash_of_link()(#[trigger] after[j]) == hash_of_link()(
            after[k],
        ) implies j == k by {
        assert(hash_of_link()(made[j]) == hash_of_link()(after[j]));
    }
    only_row_is_found(after, hash_of_link(), k, fresh_link(link_hash, later));
}

/// In every state in which the hashes of the customers' links are distinct, a link that gives
/// a session is used up by that, and a link that is used up gives nothing and changes
/// nothing.
pub proof fn exchanged_links_are_used_up(
    db: DatabaseView,
    link_hash: Seq<u8>,
    session_hash: Seq<u8>,
    source_ip: Option<Seq<char>>,
    now: Timestamp,
    ttl: u64,
)
    requires
        distinct_by(db.customer_tokens, hash_of_link()),
    ensures
        exchange_link_spec(db, link_hash, session_hash, source_ip, now, ttl) matches Ok(done)
            ==> done.1 is Some ==> every(done.0.customer_tokens, link_used_up(link_hash)),
        every(db.customer_tokens, link_used_up(link_hash)) ==> (exchange_link_spec(
            db,
            link_hash,
            session_hash,
            source_ip,
            now,
            ttl,
        ) matches Ok(done) ==> done == (db, None::<CustomerTokenRecordView>)),
{
    let rows = db.customer_tokens;
    let p = fresh_link(link_hash, now);
    first_is_first(rows, p);
    if any(rows, p) {
        let k = first(rows, p)->0;
        let m = rows[k];
        assert(!link_used_up(link_hash)(m));
        let end = session_end(m.token.expires_at, now, ttl);
        let change = exchanged(session_hash, now, end);
        let after = revised(rows, unconsumed_link(m.token.id), change);
        assert forall|j: int| 0 <= j < after.len() implies link_used_up(link_hash)(
            #[trigger] after[j],
        ) by {
            if j == k {
                assert(unconsumed_link(m.token.id)(rows[k]));
            } else {
                assert(hash_of_link()(rows[j]) != hash_of_link()(rows[k]));
            }
        }
    }
}

/// A customer's link that is used up stays so, whatever is done with the links, as long as it
/// is there. A link with its hash can be entered only when it was removed.
pub proof fn used_links_stay_used(
    db: DatabaseView,
    link_hash: Seq<u8>,
    vm_id: Seq<char>,
    other_hash: Seq<u8>,
    session_hash: Seq<u8>,
    scopes: Seq<Seq<char>>,
    ip: Option<Seq<char>>,
    id: Seq<char>,
    time: Timestamp,
    now: Timestamp,
    ttl: u64,
)
    requires
        every(db.customer_tokens, link_used_up(link_hash)),
        any(db.customer_tokens, customer_with_hash(link_hash)),
    ensures
        create_link_spec(db, vm_id, link_hash, scopes, ip, time, id, now) is Err,
        create_link_spec(db, vm_id, other_hash, scopes, ip, time, id, now) matches Ok(done)
            ==> every(done.0.customer_tokens, link_used_up(link_hash)),
        exchange_link_spec(db, other_hash, session_hash, ip, now, ttl) matches Ok(done)
            ==> every(done.0.customer_tokens, link_used_up(link_hash)),
        authenticate_customer_spec(db, session_hash, ip, now) matches Ok(done) ==> every(
            done.0.customer_tokens,
            link_used_up(link_hash),
        ),
        revoke_link_spec(db, vm_id, id, now) matches Ok(done) ==> every(
            done.0.customer_tokens,
            link_used_up(link_hash),
        ),
        every(
            revised(
                db.customer_tokens,
                unrevoked_customer_session(session_hash),
                link_revoked(now),
            ),
            link_used_up(link_hash),
        ),
        every(others(db.customer_tokens, spent_link(now)), link_used_up(link_hash)),
        delete_vm_spec(db, vm_id, now) matches Ok(done) ==> every(
            done.0.customer_tokens,
            link_used_up(link_hash),
        ),
        cancel_spec(db, id, now) matches Ok(done) ==> every(
            done.0.customer_tokens,
            link_used_up(link_hash),
        ),
{
    let rows = db.customer_tokens;
    let q = link_used_up(link_hash);
    if create_link_spec(db, vm_id, other_hash, scopes, ip, time, id, now) is Ok {
        assert(other_hash != link_hash);
    }
    if any(rows, fresh_link(other_hash, now)) {
        let m = find(rows, fresh_link(other_hash, now))->0;
        let end = session_end(m.token.expires_at, now, ttl);
        revising_keeps_every(
            rows,
            q,
            unconsumed_link(m.token.id),
            exchanged(session_hash, now, end),
        );
    }
    revising_keeps_every(rows, q, customer_with_session(session_hash), token_used(now));
    revising_keeps_every(rows, q, link_of_vm(vm_id, id), link_revoked(now));
    revising_keeps_every(rows, q, unrevoked_customer_session(session_hash), link_revoked(now));
    removing_keeps_every(rows, q, spent_link(now));
    if any(db.jobs, job_with_id(id)) && find(db.jobs, job_with_id(id))->0.vm_id is Some {
        let vm = find(db.jobs, job_with_id(id))->0.vm_id->0;
        removing_keeps_every(rows, q, customer_of_vm(vm));
    }
    if any(db.vms, vm_called(vm_id)) {
        removing_keeps_every(rows, q, customer_of_vm(find(db.vms, vm_called(vm_id))->0.vm.id));
    }
}

/// A customer's session ends no later than its link, and within the hour.
pub proof fn sessions_end_with_their_link(link_end: Timestamp, now: Timestamp, ttl: u64)
    ensures
        session_end(link_end, now, ttl) <= link_end,
        session_end(link_end, now, ttl) <= now + 3600,
        session_end(link_end, now, ttl) <= now + ttl,
{
}

/// The hash of a console link.
pub open spec fn hash_of_vnc() -> spec_fn(VncTokenRowView) -> Seq<u8> {
    |m: VncTokenRowView| m.token_hash
}

/// A console link is not the one with a hash, or can no longer be exchanged.
pub open spec fn vnc_used_up(link_hash: Seq<u8>) -> spec_fn(VncTokenRowView) -> bool {
    |m: VncTokenRowView|
        m.token_hash == link_hash ==> m.token.consumed_at is Some || m.token.revoked_at is Some
}

/// A console link lasts ten minutes.
pub open spec fn lasts_ten_minutes() -> spec_fn(VncTokenRowView) -> bool {
    |m: VncTokenRowView| m.token.expires_at == m.token.created_at + 600
}

/// No two console links have the same hash, and each lasts ten minutes, whatever is done: in
/// a state of which that holds, every operation on console links keeps it.
pub proof fn console_links_stay_regular(
    db: DatabaseView,
    vm_id: Seq<char>,
    link_hash: Seq<u8>,
    session_hash: Seq<u8>,
    ip: Option<Seq<char>>,
    id: Seq<char>,
    now: Timestamp,
)
    requires
        distinct_by(db.vnc_tokens, hash_of_vnc()),
        every(db.vnc_tokens, lasts_ten_minutes()),
        now <= i64::MAX - 600,
    ensures
        create_vnc_spec(db, vm_id, link_hash, ip, now, id) matches Ok(done) ==> distinct_by(
            done.0.vnc_tokens,
            hash_of_vnc(),
        ) && every(done.0.vnc_tokens, lasts_ten_minutes()),
        exchange_vnc_spec(db, link_hash, session_hash, ip, now) matches Ok(done) ==> distinct_by(
            done.0.vnc_tokens,
            hash_of_vnc(),
        ) && every(done.0.vnc_tokens, lasts_ten_minutes()),
        ({
            let after = revised(db.vnc_tokens, vnc_of_vm(vm_id), vnc_revoked(now));
            distinct_by(after, hash_of_vnc()) && every(after, lasts_ten_minutes())
        }),
        ({
            let after = revised(
                db.vnc_tokens,
                unrevoked_vnc_session(session_hash),
                vnc_revoked(now),
            );
            distinct_by(after, hash_of_vnc()) && every(after, lasts_ten_minutes())
        }),
        ({
            let after = others(db.vnc_tokens, spent_vnc(now));
            distinct_by(after, hash_of_vnc()) && every(after, lasts_ten_minutes())
        }),
        delete_vm_spec(db, vm_id, now) matches Ok(done) ==> distinct_by(
            done.0.vnc_tokens,
            hash_of_vnc(),
        ) && every(done.0.vnc_tokens, lasts_ten_minutes()),
        cancel_spec(db, id, now) matches Ok(done) ==> distinct_by(
            done.0.vnc_tokens,
            hash_of_vnc(),
        ) && every(done.0.vnc_tokens, lasts_ten_minutes()),
        distinct_by(empty_database(now).vnc_tokens, hash_of_vnc()),
        every(empty_database(now).vnc_tokens, lasts_ten_minutes()),
{
    let rows = db.vnc_tokens;
    let key = hash_of_vnc();
    let q = lasts_ten_minutes();
    if create_vnc_spec(db, vm_id, link_hash, ip, now, id) is Ok {
        let after = create_vnc_spec(db, vm_id, link_hash, ip, now, id)->Ok_0.0;
        first_is_first(rows, vnc_with_hash(link_hash));
        appending_keeps_distinct(rows, key, after.vnc_tokens.last());
    }
    if any(rows, fresh_vnc(link_hash, now)) {
        let m = find(rows, fresh_vnc(link_hash, now))->0;
        let change = vnc_exchanged(session_hash, now, m.token.expires_at);
        revising_keeps_distinct(rows, key, unconsumed_vnc(m.token.id), change);
        revising_keeps_every(rows, q, unconsumed_vnc(m.token.id), change);
    }
    revising_keeps_distinct(rows, key, vnc_of_vm(vm_id), vnc_revoked(now));
    revising_keeps_every(rows, q, vnc_of_vm(vm_id), vnc_revoked(now));
    revising_keeps_distinct(rows, key, unrevoked_vnc_session(session_hash), vnc_revoked(now));
    revising_keeps_every(rows, q, unrevoked_vnc_session(session_hash), vnc_revoked(now));
    removing_keeps_distinct(rows, key, spent_vnc(now));
    removing_keeps_every(rows, q, spent_vnc(now));
    if any(db.jobs, job_with_id(id)) && find(db.jobs, job_with_id(id))->0.vm_id is Some {
        let p = vnc_of_vm(find(db.jobs, job_with_id(id))->0.vm_id->0);
        removing_keeps_distinct(rows, key, p);
        removing_keeps_every(rows, q, p);
    }
    if any(db.vms, vm_called(vm_id)) {
        let p = vnc_of_vm(find(db.vms, vm_called(vm_id))->0.vm.id);
        removing_keeps_distinct(rows, key, p);
        removing_keeps_every(rows, q, p);
    }
}

/// A console link that was just entered, for any address, is good for one session. Within ten
/// minutes it gives one, which ends ten minutes after the link was made, however late the
/// exchange; then every further exchange gives nothing and changes nothing, from wherever
/// and whenever. After ten minutes the link gives nothing.
pub proof fn console_links_are_good_once(
    db: DatabaseView,
    vm_id: Seq<char>,
    link_hash: Seq<u8>,
    created_at: Timestamp,
    id: Seq<char>,
    session_hash: Seq<u8>,
    source_ip: Option<Seq<char>>,
    now: Timestamp,
    other_hash: Seq<u8>,
    other_ip: Option<Seq<char>>,
    later: Timestamp,
)
    requires
        created_at <= i64::MAX - 600,
        create_vnc_spec(db, vm_id, link_hash, None, created_at, id) is Ok,
        canonical_optional_ip_spec(source_ip, None) is Ok,
        canonical_optional_ip_spec(other_ip, None) is Ok,
    ensures
        ({
            let made = create_vnc_spec(db, vm_id, link_hash, None, created_at, id)->Ok_0.0;
            let done = exchange_vnc_spec(made, link_hash, session_hash, source_ip, now);
            let nothing = None::<VncTokenRecordView>;
            &&& done is Ok
            &&& now >= created_at + 600 ==> done->Ok_0 == (made, nothing)
            &&& now < created_at + 600 ==> {
                &&& done->Ok_0.1 matches Some(token) && token.consumed_at == Some(now)
                    && token.session_expires_at is Some && token.session_expires_at->0
                    == created_at + 600
                &&& exchange_vnc_spec(done->Ok_0.0, link_hash, other_hash, other_ip, later)
                    == Ok::<(DatabaseView, Option<VncTokenRecordView>), AppErrorView>(
                    (done->Ok_0.0, nothing),
                )
            }
        }),
{
    let made = create_vnc_spec(db, vm_id, link_hash, None, created_at, id)->Ok_0.0.vnc_tokens;
    let k = db.vnc_tokens.len() as int;
    first_is_first(db.vnc_tokens, vnc_with_hash(link_hash));
    assert forall|j: int| 0 <= j < made.len() && hash_of_vnc()(#[trigger] made[j]) == hash_of_vnc()(
        made[k],
    ) implies j == k by {
        if j < k {
            assert(made[j] == db.vnc_tokens[j]);
        }
    }
    only_row_is_found(made, hash_of_vnc(), k, fresh_vnc(link_hash, now));
    let end = (created_at + 600) as i64;
    let after = revised(made, unconsumed_vnc(id), vnc_exchanged(session_hash, now, end));
    assert forall|j: int|
        0 <= j < after.len() && hash_of_vnc()(#[trigger] after[j]) == hash_of_vnc()(
            after[k],
        ) implies j == k by {
        assert(hash_of_vnc()(made[j]) == hash_of_vnc()(after[j]));
    }
    only_row_is_found(after, hash_of_vnc(), k, fresh_vnc(link_hash, later));
}

/// In every state in which the console links are regular, a link that gives a session is used
/// up by that, the session ends ten minutes after the link was made, and a link that is used
/// up gives nothing and changes nothing.
pub proof fn exchanged_console_links_are_used_up(
    db: DatabaseView,
    link_hash: Seq<u8>,
    session_hash: Seq<u8>,
    source_ip: Option<Seq<char>>,
    now: Timestamp,
)
    requires
        distinct_by(db.vnc_tokens, hash_of_vnc()),
        every(db.vnc_tokens, lasts_ten_minutes()),
    ensures
        exchange_vnc_spec(db, link_hash, session_hash, source_ip, now) matches Ok(done) ==> (
        done.1 matches Some(token) ==> token.session_expires_at matches Some(end) && end
            == token.created_at + 600 && every(done.0.vnc_tokens, vnc_used_up(link_hash))),
        every(db.vnc_tokens, vnc_used_up(link_hash)) ==> (exchange_vnc_spec(
            db,
            link_hash,
            session_hash,
            source_ip,
            now,
        ) matches Ok(done) ==> done == (db, None::<VncTokenRecordView>)),
{
    let rows = db.vnc_tokens;
    let p = fresh_vnc(link_hash, now);
    first_is_first(rows, p);
    if any(rows, p) {
        let k = first(rows, p)->0;
        let m = rows[k];
        assert(!vnc_used_up(link_hash)(m));
        assert(lasts_ten_minutes()(m));
        let change = vnc_exchanged(session_hash, now, m.token.expires_at);
        let after = revised(rows, unconsumed_vnc(m.token.id), change);
        assert forall|j: int| 0 <= j < after.len() implies vnc_used_up(link_hash)(
            #[trigger] after[j],
        ) by {
            if j == k {
                assert(unconsumed_vnc(m.token.id)(rows[k]));
            } else {
                assert(hash_of_vnc()(rows[j]) != hash_of_vnc()(rows[k]));
            }
        }
    }
}

/// A console link that is used up stays so, whatever is done with the links, as long as it is
/// there. A link with its hash can be entered only when it was removed.
pub proof fn used_console_links_stay_used(
    db: DatabaseView,
    link_hash: Seq<u8>,
    vm_id: Seq<char>,
    other_hash: Seq<u8>,
    session_hash: Seq<u8>,
    ip: Option<Seq<char>>,
    id: Seq<char>,
    now: Timestamp,
)
    requires
        every(db.vnc_tokens, vnc_used_up(link_hash)),
        any(db.vnc_tokens, vnc_with_hash(link_hash)),
    ensures
        create_vnc_spec(db, vm_id, link_hash, ip, now, id) is Err,
        create_vnc_spec(db, vm_id, other_hash, ip, now, id) matches Ok(done) ==> every(
            done.0.vnc_tokens,
            vnc_used_up(link_hash),
        ),
        exchange_vnc_spec(db, other_hash, session_hash, ip, now) matches Ok(done) ==> every(
            done.0.vnc_tokens,
            vnc_used_up(link_hash),
        ),
        every(
            revised(db.vnc_tokens, vnc_of_vm(vm_id), vnc_revoked(now)),
            vnc_used_up(link_hash),
        ),
        every(
            revised(db.vnc_tokens, unrevoked_vnc_session(session_hash), vnc_revoked(now)),
            vnc_used_up(link_hash),
        ),
        every(others(db.vnc_tokens, spent_vnc(now)), vnc_used_up(link_hash)),
        delete_vm_spec(db, vm_id, now) matches Ok(done) ==> every(
            done.0.vnc_tokens,
            vnc_used_up(link_hash),
        ),
        cancel_spec(db, id, now) matches Ok(done) ==> every(
            done.0.vnc_tokens,
            vnc_used_up(link_hash),
        ),
{
    let rows = db.vnc_tokens;
    let q = vnc_used_up(link_hash);
    if create_vnc_spec(db, vm_id, other_hash, ip, now, id) is Ok {
        assert(other_hash != link_hash);
    }
    if any(rows, fresh_vnc(other_hash, now)) {
        let m = find(rows, fresh_vnc(other_hash, now))->0;
        let change = vnc_exchanged(session_hash, now, m.token.expires_at);
        revising_keeps_every(rows, q, unconsumed_vnc(m.token.id), change);
    }
    revising_keeps_every(rows, q, vnc_of_vm(vm_id), vnc_revoked(now));
    revising_keeps_every(rows, q, unrevoked_vnc_session(session_hash), vnc_revoked(now));
    removing_keeps_every(rows, q, spent_vnc(now));
    if any(db.jobs, job_with_id(id)) && find(db.jobs, job_with_id(id))->0.vm_id is Some {
        removing_keeps_every(rows, q, vnc_of_vm(find(db.jobs, job_with_id(id))->0.vm_id->0));
    }
    if any(db.vms, vm_called(vm_id)) {
        removing_keeps_every(rows, q, vnc_of_vm(find(db.vms, vm_called(vm_id))->0.vm.id));
    }
}

/// A link is revoked through its own machine only.
pub proof fn links_are_revoked_through_their_machine(
    db: DatabaseView,
    vm_id: Seq<char>,
    id: Seq<char>,
    now: Timestamp,
    i: int,
)
    requires
        0 <= i < db.customer_tokens.len(),
        db.customer_tokens[i].token.vm_id != vm_id,
    ensures
        revoke_link_spec(db, vm_id, id, now) matches Ok(done) ==> done.0.customer_tokens[i]
            == db.customer_tokens[i],
{
}

} // verus!

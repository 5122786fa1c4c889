//! What links are for: each opens one session, from the address that it is bound to, and no
//! session outlives its link. Stated over the fields of the rows.

use vstd::prelude::*;

use crate::db::rows::{
    CustomerTokenRecordView, CustomerTokenRowView, Timestamp, VncTokenRecordView, VncTokenRowView,
};
use crate::db::store::{vm_with_id, DatabaseView};
use crate::db::queue::is_machine_of;
use crate::db::rotation::is_refused;
use crate::db::tokens::{
    authenticate_customer_spec, create_link_spec, create_vnc_spec, customer_with_hash,
    customer_with_id, exchange_link_spec, exchange_vnc_spec, exchanged, fresh_link, fresh_vnc,
    link_of_vm, link_revoked, live_customer_session, live_vnc_session, revoke_link_spec,
    session_end, spent_link, spent_vnc, unconsumed_link, unconsumed_vnc, unrevoked_customer_session,
    unrevoked_vnc_session, vnc_exchanged, vnc_of_vm, vnc_revoked, vnc_with_hash, vnc_with_id,
};
use crate::net::canonical_optional_ip_spec;
use crate::table::{any, find, first, first_is_first, others, others_has, revised};

verus! {

broadcast use vstd::string::group_string_axioms;

/// Some machine has an identifier.
proof fn machine_is_found(db: DatabaseView, id: Seq<char>)
    ensures
        any(db.vms, vm_with_id(id)) == is_machine_of(db, id),
{
    let p = vm_with_id(id);
    first_is_first(db.vms, p);
    if is_machine_of(db, id) {
        let k = choose|k: int| 0 <= k < db.vms.len() && (#[trigger] db.vms[k]).vm.id == id;
        assert(p(db.vms[k]));
    }
    if any(db.vms, p) {
        assert(db.vms[first(db.vms, p)->0].vm.id == id);
    }
}

/// Some customer's link has an identifier or a hash.
pub open spec fn is_customer_link(db: DatabaseView, id: Seq<char>, token_hash: Seq<u8>) -> bool {
    exists|k: int|
        0 <= k < db.customer_tokens.len() && ((#[trigger] db.customer_tokens[k]).token.id == id
            || db.customer_tokens[k].token_hash == token_hash)
}

proof fn customer_link_is_found(db: DatabaseView, id: Seq<char>, token_hash: Seq<u8>)
    ensures
        is_customer_link(db, id, token_hash) == (any(db.customer_tokens, customer_with_id(id)) || any(
            db.customer_tokens,
            customer_with_hash(token_hash),
        )),
{
    let p = customer_with_id(id);
    let q = customer_with_hash(token_hash);
    first_is_first(db.customer_tokens, p);
    first_is_first(db.customer_tokens, q);
    if any(db.customer_tokens, p) {
        assert(db.customer_tokens[first(db.customer_tokens, p)->0].token.id == id);
    }
    if any(db.customer_tokens, q) {
        assert(db.customer_tokens[first(db.customer_tokens, q)->0].token_hash == token_hash);
    }
    if is_customer_link(db, id, token_hash) {
        let k = choose|k: int|
            0 <= k < db.customer_tokens.len() && ((#[trigger] db.customer_tokens[k]).token.id == id
                || db.customer_tokens[k].token_hash == token_hash);
        assert(p(db.customer_tokens[k]) || q(db.customer_tokens[k]));
    }
}

/// A customer's link is entered as it is given, for a machine that is there, under a new
/// identifier and a new hash, and for a time that is still to come; else nothing changes.
pub proof fn a_link_is_entered(
    db: DatabaseView,
    vm_id: Seq<char>,
    token_hash: Seq<u8>,
    scopes: Seq<Seq<char>>,
    bound_ip: Option<Seq<char>>,
    expires_at: Timestamp,
    id: Seq<char>,
    now: Timestamp,
)
    requires
        canonical_optional_ip_spec(bound_ip, None) is Ok,
    ensures
        ({
            let done = create_link_spec(
                db,
                vm_id,
                token_hash,
                scopes,
                bound_ip,
                expires_at,
                id,
                now,
            );
            let fit = expires_at > now && is_machine_of(db, vm_id) && !is_customer_link(
                db,
                id,
                token_hash,
            );
            &&& !fit ==> is_refused(done, db)
            &&& fit ==> {
                &&& done is Ok
                &&& done->Ok_0.1 == (CustomerTokenRecordView {
                    id,
                    vm_id,
                    scopes,
                    bound_ip: canonical_optional_ip_spec(bound_ip, None)->Ok_0,
                    created_at: now,
                    expires_at,
                    consumed_at: None,
                    session_expires_at: None,
                    last_used_at: None,
                    revoked_at: None,
                })
                &&& done->Ok_0.0 == (DatabaseView {
                    customer_tokens: db.customer_tokens.push(
                        CustomerTokenRowView {
                            token: done->Ok_0.1,
                            token_hash,
                            session_hash: None,
                        },
                    ),
                    ..db
                })
            }
        }),
{
    machine_is_found(db, vm_id);
    customer_link_is_found(db, id, token_hash);
}

/// No two customers' links share an identifier or a hash.
pub open spec fn links_are_distinct(rows: Seq<CustomerTokenRowView>) -> bool {
    forall|i: int, j: int|
        0 <= i < rows.len() && 0 <= j < rows.len() && i != j ==> (#[trigger] rows[i]).token.id != (
        #[trigger] rows[j]).token.id && rows[i].token_hash != rows[j].token_hash
}

/// A customer's link opens a session exactly where it was not exchanged before, is neither
/// revoked nor over, and is used from the address that it is bound to. The session ends an
/// hour from now, or earlier where less time is asked for, and never later than the link.
pub proof fn a_link_opens_a_session(
    db: DatabaseView,
    i: int,
    session_hash: Seq<u8>,
    source_ip: Option<Seq<char>>,
    now: Timestamp,
    ttl: u64,
)
    requires
        links_are_distinct(db.customer_tokens),
        0 <= i < db.customer_tokens.len(),
        canonical_optional_ip_spec(source_ip, None) is Ok,
        ttl > 0,
        now < i64::MAX - 3600,
    ensures
        ({
            let m = db.customer_tokens[i];
            let done = exchange_link_spec(db, m.token_hash, session_hash, source_ip, now, ttl);
            let fit = m.token.consumed_at is None && m.token.revoked_at is None
                && m.token.expires_at > now && (m.token.bound_ip is None || m.token.bound_ip
                == canonical_optional_ip_spec(source_ip, None)->Ok_0);
            &&& done is Ok
            &&& !fit ==> done->Ok_0 == (db, None::<CustomerTokenRecordView>)
            &&& fit ==> {
                let t = done->Ok_0.1->0;
                &&& done->Ok_0.1 is Some
                &&& t == (CustomerTokenRecordView {
                    consumed_at: Some(now),
                    session_expires_at: t.session_expires_at,
                    last_used_at: Some(now),
                    ..m.token
                })
                &&& t.session_expires_at is Some
                &&& t.session_expires_at->0 <= m.token.expires_at
                &&& t.session_expires_at->0 <= now + ttl
                &&& t.session_expires_at->0 <= now + 3600
                &&& t.session_expires_at->0 == m.token.expires_at || t.session_expires_at->0 == now
                    + ttl || t.session_expires_at->0 == now + 3600
                &&& done->Ok_0.0 == (DatabaseView {
                    customer_tokens: db.customer_tokens.update(
                        i,
                        CustomerTokenRowView {
                            token: t,
                            token_hash: m.token_hash,
                            session_hash: Some(session_hash),
                        },
                    ),
                    ..db
                })
            }
        }),
{
    let rows = db.customer_tokens;
    let m = rows[i];
    let p = fresh_link(m.token_hash, now);
    first_is_first(rows, p);
    if p(m) {
        let f = first(rows, p)->0;
        assert(rows[f].token_hash == rows[i].token_hash);
        assert(f == i);
        let change = exchanged(session_hash, now, session_end(m.token.expires_at, now, ttl));
        assert(revised(rows, unconsumed_link(m.token.id), change) =~= rows.update(i, change(m)));
    } else if first(rows, p) is Some {
        let f = first(rows, p)->0;
        assert(rows[f].token_hash == rows[i].token_hash);
    }
}

/// A session hash belongs to a customer's link whose session is not over, that is not
/// revoked, and that is used from the address that it is bound to.
pub open spec fn is_let_in(
    m: CustomerTokenRowView,
    session_hash: Seq<u8>,
    source: Option<Seq<char>>,
    now: Timestamp,
) -> bool {
    &&& m.session_hash == Some(session_hash)
    &&& m.token.session_expires_at is Some
    &&& m.token.session_expires_at->0 > now
    &&& m.token.revoked_at is None
    &&& m.token.bound_ip is None || m.token.bound_ip == source
}

/// A customer's session lets in exactly while it lasts, until its link is revoked, and from
/// the address that the link is bound to. The link is told as it was, and counts as used now.
pub proof fn a_customers_session_lets_in(
    db: DatabaseView,
    session_hash: Seq<u8>,
    source_ip: Option<Seq<char>>,
    now: Timestamp,
)
    requires
        canonical_optional_ip_spec(source_ip, None) is Ok,
    ensures
        ({
            let source = canonical_optional_ip_spec(source_ip, None)->Ok_0;
            let done = authenticate_customer_spec(db, session_hash, source_ip, now);
            &&& done is Ok
            &&& done->Ok_0.1 is Some <==> exists|k: int|
                0 <= k < db.customer_tokens.len() && is_let_in(
                    #[trigger] db.customer_tokens[k],
                    session_hash,
                    source,
                    now,
                )
            &&& done->Ok_0.1 is None ==> done->Ok_0.0 == db
            &&& done->Ok_0.1 is Some ==> {
                &&& exists|k: int|
                    0 <= k < db.customer_tokens.len() && is_let_in(
                        #[trigger] db.customer_tokens[k],
                        session_hash,
                        source,
                        now,
                    ) && db.customer_tokens[k].token == done->Ok_0.1->0
                &&& done->Ok_0.0 == (DatabaseView {
                    customer_tokens: done->Ok_0.0.customer_tokens,
                    ..db
                })
                &&& done->Ok_0.0.customer_tokens.len() == db.customer_tokens.len()
                &&& forall|k: int|
                    0 <= k < db.customer_tokens.len() ==> (
                    #[trigger] done->Ok_0.0.customer_tokens[k]) == (
                    if db.customer_tokens[k].session_hash == Some(session_hash) {
                        CustomerTokenRowView {
                            token: CustomerTokenRecordView {
                                last_used_at: Some(now),
                                ..db.customer_tokens[k].token
                            },
                            ..db.customer_tokens[k]
                        }
                    } else {
                        db.customer_tokens[k]
                    })
            }
        }),
{
    let source = canonical_optional_ip_spec(source_ip, None)->Ok_0;
    let rows = db.customer_tokens;
    let p = live_customer_session(session_hash, source, now);
    first_is_first(rows, p);
    if any(rows, p) {
        assert(is_let_in(rows[first(rows, p)->0], session_hash, source, now));
    }
    if exists|k: int|
        0 <= k < rows.len() && is_let_in(#[trigger] rows[k], session_hash, source, now) {
        let k = choose|k: int|
            0 <= k < rows.len() && is_let_in(#[trigger] rows[k], session_hash, source, now);
        assert(p(rows[k]));
    }
}

/// A customer's link that is revoked through its machine, or with its session, is revoked as
/// of now, or as of when it was before. No other link changes, and one that the machine does
/// not have is refused.
pub proof fn links_are_revoked(
    db: DatabaseView,
    vm_id: Seq<char>,
    id: Seq<char>,
    session_hash: Seq<u8>,
    now: Timestamp,
    k: int,
)
    requires
        0 <= k < db.customer_tokens.len(),
    ensures
        ({
            let m = db.customer_tokens[k];
            let there = exists|j: int|
                0 <= j < db.customer_tokens.len() && (#[trigger] db.customer_tokens[j]).token.id
                    == id && db.customer_tokens[j].token.vm_id == vm_id;
            let done = revoke_link_spec(db, vm_id, id, now);
            let closed = revised(
                db.customer_tokens,
                unrevoked_customer_session(session_hash),
                link_revoked(now),
            );
            let off = CustomerTokenRowView {
                token: CustomerTokenRecordView { revoked_at: Some(now), ..m.token },
                ..m
            };
            &&& !there ==> is_refused(done, db)
            &&& there ==> {
                &&& done is Ok
                &&& done->Ok_0.0 == (DatabaseView {
                    customer_tokens: done->Ok_0.0.customer_tokens,
                    ..db
                })
                &&& done->Ok_0.0.customer_tokens.len() == db.customer_tokens.len()
                &&& done->Ok_0.0.customer_tokens[k] == (if m.token.id == id && m.token.vm_id
                    == vm_id && m.token.revoked_at is None {
                    off
                } else {
                    m
                })
            }
            &&& closed.len() == db.customer_tokens.len()
            &&& closed[k] == (if m.session_hash == Some(session_hash) && m.token.revoked_at
                is None {
                off
            } else {
                m
            })
        }),
{
    let rows = db.customer_tokens;
    let m = rows[k];
    let p = link_of_vm(vm_id, id);
    first_is_first(rows, p);
    if any(rows, p) {
        assert(rows[first(rows, p)->0].token.id == id);
    }
    if exists|j: int|
        0 <= j < rows.len() && (#[trigger] rows[j]).token.id == id && rows[j].token.vm_id == vm_id {
        let j = choose|j: int|
            0 <= j < rows.len() && (#[trigger] rows[j]).token.id == id && rows[j].token.vm_id
                == vm_id;
        assert(p(rows[j]));
    }
    if m.token.revoked_at is Some {
        assert(link_revoked(now)(m).token == m.token);
    }
}

/// Some console link has an identifier or a hash.
pub open spec fn is_console_link(db: DatabaseView, id: Seq<char>, token_hash: Seq<u8>) -> bool {
    exists|k: int|
        0 <= k < db.vnc_tokens.len() && ((#[trigger] db.vnc_tokens[k]).token.id == id
            || db.vnc_tokens[k].token_hash == token_hash)
}

proof fn console_link_is_found(db: DatabaseView, id: Seq<char>, token_hash: Seq<u8>)
    ensures
        is_console_link(db, id, token_hash) == (any(db.vnc_tokens, vnc_with_id(id)) || any(
            db.vnc_tokens,
            vnc_with_hash(token_hash),
        )),
{
    let p = vnc_with_id(id);
    let q = vnc_with_hash(token_hash);
    first_is_first(db.vnc_tokens, p);
    first_is_first(db.vnc_tokens, q);
    if any(db.vnc_tokens, p) {
        assert(db.vnc_tokens[first(db.vnc_tokens, p)->0].token.id == id);
    }
    if any(db.vnc_tokens, q) {
        assert(db.vnc_tokens[first(db.vnc_tokens, q)->0].token_hash == token_hash);
    }
    if is_console_link(db, id, token_hash) {
        let k = choose|k: int|
            0 <= k < db.vnc_tokens.len() && ((#[trigger] db.vnc_tokens[k]).token.id == id
                || db.vnc_tokens[k].token_hash == token_hash);
        assert(p(db.vnc_tokens[k]) || q(db.vnc_tokens[k]));
    }
}

/// A console link is entered for a machine that is there, under a new identifier and a new
/// hash, and lasts ten minutes; else nothing changes.
pub proof fn a_console_link_is_entered(
    db: DatabaseView,
    vm_id: Seq<char>,
    token_hash: Seq<u8>,
    bound_ip: Option<Seq<char>>,
    created_at: Timestamp,
    id: Seq<char>,
)
    requires
        canonical_optional_ip_spec(bound_ip, None) is Ok,
        created_at <= i64::MAX - 600,
    ensures
        ({
            let done = create_vnc_spec(db, vm_id, token_hash, bound_ip, created_at, id);
            let fit = is_machine_of(db, vm_id) && !is_console_link(db, id, token_hash);
            &&& !fit ==> is_refused(done, db)
            &&& fit ==> {
                &&& done is Ok
                &&& done->Ok_0.1.expires_at - created_at == 600
                &&& done->Ok_0.1 == (VncTokenRecordView {
                    id,
                    vm_id,
                    created_at,
                    expires_at: done->Ok_0.1.expires_at,
                    consumed_at: None,
                    session_expires_at: None,
                    bound_ip: canonical_optional_ip_spec(bound_ip, None)->Ok_0,
                    revoked_at: None,
                })
                &&& done->Ok_0.0 == (DatabaseView {
                    vnc_tokens: db.vnc_tokens.push(
                        VncTokenRowView { token: done->Ok_0.1, token_hash, session_hash: None },
                    ),
                    ..db
                })
            }
        }),
{
    machine_is_found(db, vm_id);
    console_link_is_found(db, id, token_hash);
}

/// No two console links share an identifier or a hash.
pub open spec fn console_links_are_distinct(rows: Seq<VncTokenRowView>) -> bool {
    forall|i: int, j: int|
        0 <= i < rows.len() && 0 <= j < rows.len() && i != j ==> (#[trigger] rows[i]).token.id != (
        #[trigger] rows[j]).token.id && rows[i].token_hash != rows[j].token_hash
}

/// A console link opens a session exactly where it was not exchanged before, is neither
/// revoked nor over, and is used from the address that it is bound to. The session ends when
/// the link would have.
pub proof fn a_console_link_opens_a_session(
    db: DatabaseView,
    i: int,
    session_hash: Seq<u8>,
    source_ip: Option<Seq<char>>,
    now: Timestamp,
)
    requires
        console_links_are_distinct(db.vnc_tokens),
        0 <= i < db.vnc_tokens.len(),
        canonical_optional_ip_spec(source_ip, None) is Ok,
    ensures
        ({
            let m = db.vnc_tokens[i];
            let done = exchange_vnc_spec(db, m.token_hash, session_hash, source_ip, now);
            let fit = m.token.consumed_at is None && m.token.revoked_at is None
                && m.token.expires_at > now && (m.token.bound_ip is None || m.token.bound_ip
                == canonical_optional_ip_spec(source_ip, None)->Ok_0);
            &&& done is Ok
            &&& !fit ==> done->Ok_0 == (db, None::<VncTokenRecordView>)
            &&& fit ==> {
                &&& done->Ok_0.1 == Some(
                    VncTokenRecordView {
                        consumed_at: Some(now),
                        session_expires_at: Some(m.token.expires_at),
                        ..m.token
                    },
                )
                &&& done->Ok_0.0 == (DatabaseView {
                    vnc_tokens: db.vnc_tokens.update(
                        i,
                        VncTokenRowView {
                            token: done->Ok_0.1->0,
                            token_hash: m.token_hash,
                            session_hash: Some(session_hash),
                        },
                    ),
                    ..db
                })
            }
        }),
{
    let rows = db.vnc_tokens;
    let m = rows[i];
    let p = fresh_vnc(m.token_hash, now);
    first_is_first(rows, p);
    if p(m) {
        let f = first(rows, p)->0;
        assert(rows[f].token_hash == rows[i].token_hash);
        assert(f == i);
        let change = vnc_exchanged(session_hash, now, m.token.expires_at);
        assert(revised(rows, unconsumed_vnc(m.token.id), change) =~= rows.update(i, change(m)));
    } else if first(rows, p) is Some {
        let f = first(rows, p)->0;
        assert(rows[f].token_hash == rows[i].token_hash);
    }
}

/// A console session lets in exactly where some link has it, while it lasts, until the link
/// is revoked, and from the address that the link is bound to.
pub proof fn a_console_session_lets_in(
    rows: Seq<VncTokenRowView>,
    session_hash: Seq<u8>,
    source: Option<Seq<char>>,
    now: Timestamp,
)
    ensures
        ({
            let found = find(rows, live_vnc_session(session_hash, source, now));
            &&& found is Some <==> exists|k: int|
                0 <= k < rows.len() && (#[trigger] rows[k]).session_hash == Some(session_hash)
                    && rows[k].token.session_expires_at is Some
                    && rows[k].token.session_expires_at->0 > now && rows[k].token.revoked_at is None
                    && (rows[k].token.bound_ip is None || rows[k].token.bound_ip == source)
            &&& found is Some ==> rows.contains(found->0) && found->0.session_hash == Some(
                session_hash,
            ) && found->0.token.session_expires_at is Some
                && found->0.token.session_expires_at->0 > now && found->0.token.revoked_at is None
                && (found->0.token.bound_ip is None || found->0.token.bound_ip == source)
        }),
{
    let p = live_vnc_session(session_hash, source, now);
    first_is_first(rows, p);
    if any(rows, p) {
        let k = first(rows, p)->0;
        assert(rows[k].session_hash == Some(session_hash));
    }
    if exists|k: int|
        0 <= k < rows.len() && (#[trigger] rows[k]).session_hash == Some(session_hash)
            && rows[k].token.session_expires_at is Some && rows[k].token.session_expires_at->0 > now
            && rows[k].token.revoked_at is None && (rows[k].token.bound_ip is None
            || rows[k].token.bound_ip == source) {
        let k = choose|k: int|
            0 <= k < rows.len() && (#[trigger] rows[k]).session_hash == Some(session_hash)
                && rows[k].token.session_expires_at is Some
                && rows[k].token.session_expires_at->0 > now && rows[k].token.revoked_at is None
                && (rows[k].token.bound_ip is None || rows[k].token.bound_ip == source);
        assert(p(rows[k]));
    }
}

/// The console links of a machine, or of a session, are revoked as of now, or as of when they
/// were before; no other link changes.
pub proof fn console_links_are_revoked(
    rows: Seq<VncTokenRowView>,
    vm_id: Seq<char>,
    session_hash: Seq<u8>,
    now: Timestamp,
    k: int,
)
    requires
        0 <= k < rows.len(),
    ensures
        ({
            let m = rows[k];
            let off = VncTokenRowView {
                token: VncTokenRecordView { revoked_at: Some(now), ..m.token },
                ..m
            };
            &&& revised(rows, vnc_of_vm(vm_id), vnc_revoked(now))[k] == (if m.token.vm_id == vm_id
                && m.token.revoked_at is None {
                off
            } else {
                m
            })
            &&& revised(rows, unrevoked_vnc_session(session_hash), vnc_revoked(now))[k] == (
            if m.session_hash == Some(session_hash) && m.token.revoked_at is None {
                off
            } else {
                m
            })
        }),
{
    if rows[k].token.revoked_at is Some {
        assert(vnc_revoked(now)(rows[k]).token == rows[k].token);
    }
}

/// A link is removed once it is revoked, once its session is over, or once it is over itself
/// without one; every other link stays.
pub proof fn spent_links_are_removed(
    db: DatabaseView,
    now: Timestamp,
    m: CustomerTokenRowView,
    v: VncTokenRowView,
)
    ensures
        others(db.customer_tokens, spent_link(now)).contains(m) <==> db.customer_tokens.contains(m)
            && m.token.revoked_at is None && (m.token.session_expires_at is Some
            ==> m.token.session_expires_at->0 > now) && (m.token.session_expires_at is None
            ==> m.token.expires_at > now),
        others(db.vnc_tokens, spent_vnc(now)).contains(v) <==> db.vnc_tokens.contains(v)
            && v.token.revoked_at is None && (v.token.session_expires_at is Some
            ==> v.token.session_expires_at->0 > now) && (v.token.session_expires_at is None
            ==> v.token.expires_at > now),
{
    others_has(db.customer_tokens, spent_link(now), m);
    others_has(db.vnc_tokens, spent_vnc(now), v);
}

} // verus!

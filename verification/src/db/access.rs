//! Who is let in: administrators and their sessions, credentials of the programming
//! interface, and links for customers and to consoles. Stated over the fields of the rows.

use vstd::prelude::*;

use crate::db::rows::{
    AdminAuthView, AdminRole, AdminSessionView, AdminView, ApiKeyRowView, ApiKeyView,
    SessionRowView, SettingRecordView, Timestamp,
};
use crate::db::store::DatabaseView;
use crate::db::admins::{
    admin_entered_first, admin_named, admin_with_id, admins_distinct, authenticate_session_spec,
    bootstrap_spec, change_admin_spec, create_admin_spec, create_session_spec, delete_admin_spec,
    enabled_admin, expired_session, id_of_admin, live_session, live_session_with_csrf, new_admin,
    other_admin_named, other_super_admin, seen, session_of, session_with_token, update_access_spec,
    update_credentials_spec, with_enabled, with_login,
};
use crate::db::api_keys::{
    allowlist, authenticate_key_spec, create_key_spec, key_revoked, key_with_id, key_with_token,
    live_key, revoke_key_spec,
};
use crate::db::rotation::is_refused;
use crate::error::AppErrorView;
use crate::net::{net_text, net_value};
use crate::table::{
    all, any, any_is_some_row, count, count_is_any, first, first_is_first, foremost,
    least_comes_first, list, orders, others, others_has, revised,
};
use crate::text::{equal_ignoring_case, trim_spec};

verus! {

broadcast use vstd::string::group_string_axioms;

/// Some administrator with an identifier is enabled.
pub open spec fn is_enabled(db: DatabaseView, id: Seq<char>) -> bool {
    exists|a: int|
        0 <= a < db.admins.len() && (#[trigger] db.admins[a]).admin.id == id
            && db.admins[a].admin.enabled
}

/// A session has a token, has not expired, and belongs to an enabled administrator.
pub open spec fn is_open(db: DatabaseView, k: int, token_hash: Seq<u8>, now: Timestamp) -> bool {
    &&& 0 <= k < db.sessions.len()
    &&& db.sessions[k].token_hash == token_hash
    &&& db.sessions[k].expires_at > now
    &&& is_enabled(db, db.sessions[k].admin_id)
}

/// What is told of a session is what its row and the row of its administrator hold.
pub open spec fn tells_of(db: DatabaseView, k: int, s: AdminSessionView) -> bool {
    let row = db.sessions[k];
    &&& s.created_at == row.created_at
    &&& s.expires_at == row.expires_at
    &&& s.last_seen_at == row.last_seen_at
    &&& s.source_ip == row.source_ip
    &&& s.user_agent == row.user_agent
    &&& s.admin.id == row.admin_id
    &&& s.admin.enabled
    &&& exists|a: int| 0 <= a < db.admins.len() && (#[trigger] db.admins[a]).admin == s.admin
}

proof fn enabled_is_found(db: DatabaseView, id: Seq<char>)
    ensures
        any(db.admins, enabled_admin(id)) == is_enabled(db, id),
{
    let p = enabled_admin(id);
    any_is_some_row(db.admins, p);
    if is_enabled(db, id) {
        let a = choose|a: int|
            0 <= a < db.admins.len() && (#[trigger] db.admins[a]).admin.id == id
                && db.admins[a].admin.enabled;
        assert(p(db.admins[a]));
    }
    if any(db.admins, p) {
        first_is_first(db.admins, p);
        let a = first(db.admins, p)->0;
        assert(db.admins[a].admin.id == id);
    }
}

/// A token lets in exactly where some session has it, has not expired, and belongs to an
/// enabled administrator. The session is then told as it was, and counts as seen now; no
/// other session changes.
pub proof fn a_session_lets_in(db: DatabaseView, token_hash: Seq<u8>, now: Timestamp)
    ensures
        ({
            let done = authenticate_session_spec(db, token_hash, now);
            &&& done is Ok
            &&& done->Ok_0.1 is Some <==> exists|k: int| #[trigger] is_open(db, k, token_hash, now)
            &&& done->Ok_0.1 is None ==> done->Ok_0.0 == db
            &&& done->Ok_0.1 is Some ==> {
                &&& exists|k: int| #[trigger]
                    is_open(db, k, token_hash, now) && tells_of(db, k, done->Ok_0.1->0)
                &&& done->Ok_0.0 == (DatabaseView { sessions: done->Ok_0.0.sessions, ..db })
                &&& done->Ok_0.0.sessions.len() == db.sessions.len()
                &&& forall|k: int|
                    0 <= k < db.sessions.len() ==> (#[trigger] done->Ok_0.0.sessions[k]) == (
                    if db.sessions[k].token_hash == token_hash {
                        SessionRowView { last_seen_at: now, ..db.sessions[k] }
                    } else {
                        db.sessions[k]
                    })
            }
        }),
{
    let p = live_session(db.admins, token_hash, now);
    first_is_first(db.sessions, p);
    if exists|k: int| #[trigger] is_open(db, k, token_hash, now) {
        let k = choose|k: int| #[trigger] is_open(db, k, token_hash, now);
        enabled_is_found(db, db.sessions[k].admin_id);
        assert(p(db.sessions[k]));
    }
    if first(db.sessions, p) is Some {
        let k = first(db.sessions, p)->0;
        let id = db.sessions[k].admin_id;
        enabled_is_found(db, id);
        assert(is_open(db, k, token_hash, now));
        first_is_first(db.admins, enabled_admin(id));
        let a = first(db.admins, enabled_admin(id))->0;
        assert(db.admins[a].admin.id == id);
        assert(tells_of(db, k, authenticate_session_spec(db, token_hash, now)->Ok_0.1->0));
    }
}

/// A request credential is good exactly with the session that it was made for.
pub proof fn a_request_credential_goes_with_its_session(
    db: DatabaseView,
    token_hash: Seq<u8>,
    csrf_hash: Seq<u8>,
    now: Timestamp,
)
    ensures
        any(db.sessions, live_session_with_csrf(db.admins, token_hash, csrf_hash, now))
            <==> exists|k: int| #[trigger]
            is_open(db, k, token_hash, now) && db.sessions[k].csrf_hash == csrf_hash,
{
    let p = live_session_with_csrf(db.admins, token_hash, csrf_hash, now);
    first_is_first(db.sessions, p);
    if exists|k: int| #[trigger]
        is_open(db, k, token_hash, now) && db.sessions[k].csrf_hash == csrf_hash {
        let k = choose|k: int| #[trigger]
            is_open(db, k, token_hash, now) && db.sessions[k].csrf_hash == csrf_hash;
        enabled_is_found(db, db.sessions[k].admin_id);
        assert(p(db.sessions[k]));
    }
    if first(db.sessions, p) is Some {
        let k = first(db.sessions, p)->0;
        enabled_is_found(db, db.sessions[k].admin_id);
        assert(is_open(db, k, token_hash, now));
    }
}

/// Sessions end where they are revoked by their token or through their administrator, and
/// where their time is over; every other session stays.
pub proof fn sessions_end(
    db: DatabaseView,
    token_hash: Seq<u8>,
    admin_id: Seq<char>,
    now: Timestamp,
    m: SessionRowView,
)
    ensures
        others(db.sessions, session_with_token(token_hash)).contains(m) <==> db.sessions.contains(m)
            && m.token_hash != token_hash,
        others(db.sessions, session_of(admin_id)).contains(m) <==> db.sessions.contains(m)
            && m.admin_id != admin_id,
        others(db.sessions, expired_session(now)).contains(m) <==> db.sessions.contains(m)
            && m.expires_at > now,
        count(db.sessions, session_with_token(token_hash)) > 0 <==> exists|k: int|
            0 <= k < db.sessions.len() && (#[trigger] db.sessions[k]).token_hash == token_hash,
{
    let p = session_with_token(token_hash);
    others_has(db.sessions, p, m);
    others_has(db.sessions, session_of(admin_id), m);
    others_has(db.sessions, expired_session(now), m);
    count_is_any(db.sessions, p);
    first_is_first(db.sessions, p);
    if exists|k: int|
        0 <= k < db.sessions.len() && (#[trigger] db.sessions[k]).token_hash == token_hash {
        let k = choose|k: int|
            0 <= k < db.sessions.len() && (#[trigger] db.sessions[k]).token_hash == token_hash;
        assert(p(db.sessions[k]));
    }
}

/// Some row is the administrator with an identifier.
pub open spec fn is_admin(db: DatabaseView, id: Seq<char>) -> bool {
    exists|a: int| 0 <= a < db.admins.len() && (#[trigger] db.admins[a]).admin.id == id
}

/// Some administrator has a name, whatever its case.
pub open spec fn is_taken_name(db: DatabaseView, name: Seq<char>) -> bool {
    exists|a: int|
        0 <= a < db.admins.len() && equal_ignoring_case(
            (#[trigger] db.admins[a]).admin.username,
            name,
        )
}

proof fn admin_is_found(db: DatabaseView, id: Seq<char>)
    ensures
        any(db.admins, admin_with_id(id)) == is_admin(db, id),
{
    let p = admin_with_id(id);
    first_is_first(db.admins, p);
    if is_admin(db, id) {
        let a = choose|a: int| 0 <= a < db.admins.len() && (#[trigger] db.admins[a]).admin.id == id;
        assert(p(db.admins[a]));
    }
    if any(db.admins, p) {
        assert(db.admins[first(db.admins, p)->0].admin.id == id);
    }
}

/// A session is entered as it is given, for an administrator who is there and for a time that
/// is still to come; else nothing changes.
pub proof fn a_session_is_entered(db: DatabaseView, session: SessionRowView, now: Timestamp)
    ensures
        session.expires_at > now && is_admin(db, session.admin_id) ==> create_session_spec(
            db,
            session,
            now,
        ) == Ok::<(DatabaseView, ()), AppErrorView>(
            (DatabaseView { sessions: db.sessions.push(session), ..db }, ()),
        ),
        !(session.expires_at > now && is_admin(db, session.admin_id)) ==> is_refused(
            create_session_spec(db, session, now),
            db,
        ),
{
    admin_is_found(db, session.admin_id);
}

/// The row of an administrator who was just entered.
pub open spec fn is_new_admin(
    m: AdminAuthView,
    id: Seq<char>,
    username: Seq<char>,
    password_hash: Seq<char>,
    role: AdminRole,
    now: Timestamp,
) -> bool {
    &&& m.admin.id == id
    &&& m.admin.username == trim_spec(username)
    &&& m.admin.role == role
    &&& m.admin.enabled
    &&& m.admin.created_at == now
    &&& m.admin.updated_at == now
    &&& m.admin.last_login_at is None
    &&& m.password_hash == password_hash
}

/// An administrator is entered under a new identifier and a name that nobody has, enabled and
/// with the role and the password that are given; else nothing changes. The first one is a
/// super administrator, and is entered only where there is nobody.
pub proof fn an_administrator_is_entered(
    db: DatabaseView,
    username: Seq<char>,
    password_hash: Seq<char>,
    role: AdminRole,
    id: Seq<char>,
    now: Timestamp,
)
    requires
        trim_spec(username).len() > 0,
        trim_spec(password_hash).len() > 0,
    ensures
        ({
            let done = create_admin_spec(db, username, password_hash, role, id, now);
            let start = bootstrap_spec(db, username, password_hash, id, now);
            &&& !is_admin(db, id) && !is_taken_name(db, trim_spec(username)) ==> {
                &&& done is Ok
                &&& done->Ok_0.0 == (DatabaseView { admins: done->Ok_0.0.admins, ..db })
                &&& done->Ok_0.0.admins.drop_last() == db.admins
                &&& is_new_admin(
                    done->Ok_0.0.admins.last(),
                    id,
                    username,
                    password_hash,
                    role,
                    now,
                )
                &&& done->Ok_0.1 == done->Ok_0.0.admins.last().admin
            }
            &&& is_admin(db, id) || is_taken_name(db, trim_spec(username)) ==> is_refused(done, db)
            &&& start is Ok
            &&& db.admins.len() == 0 ==> {
                &&& start->Ok_0.0 == (DatabaseView { admins: start->Ok_0.0.admins, ..db })
                &&& start->Ok_0.0.admins.len() == 1
                &&& is_new_admin(
                    start->Ok_0.0.admins[0],
                    id,
                    username,
                    password_hash,
                    AdminRole::SuperAdmin,
                    now,
                )
                &&& start->Ok_0.1 == start->Ok_0.0.admins[0].admin
            }
            &&& db.admins.len() > 0 ==> {
                &&& start->Ok_0.0 == db
                &&& exists|a: int|
                    0 <= a < db.admins.len() && (#[trigger] db.admins[a]).admin == start->Ok_0.1
                &&& forall|a: int|
                    0 <= a < db.admins.len() ==> start->Ok_0.1.created_at <= (
                    #[trigger] db.admins[a]).admin.created_at
            }
        }),
{
    admin_is_found(db, id);
    let p = admin_named(trim_spec(username));
    first_is_first(db.admins, p);
    if is_taken_name(db, trim_spec(username)) {
        let a = choose|a: int|
            0 <= a < db.admins.len() && equal_ignoring_case(
                (#[trigger] db.admins[a]).admin.username,
                trim_spec(username),
            );
        assert(p(db.admins[a]));
    }
    if any(db.admins, p) {
        let a = first(db.admins, p)->0;
        assert(equal_ignoring_case(db.admins[a].admin.username, trim_spec(username)));
    }
    let row = new_admin(id, username, password_hash, role, now);
    assert(db.admins.push(row).drop_last() =~= db.admins);
    assert(orders(admin_entered_first()));
    least_comes_first(db.admins, all(), admin_entered_first());
    if db.admins.len() > 0 {
        assert(all::<AdminAuthView>()(db.admins[0]));
        assert forall|a: int| 0 <= a < db.admins.len() implies foremost(
            db.admins,
            all(),
            admin_entered_first(),
        )->0.admin.created_at <= (#[trigger] db.admins[a]).admin.created_at by {
            assert(all::<AdminAuthView>()(db.admins[a]));
        }
    }
}

/// Nothing but the administrators changed, and of these only those with an identifier.
pub open spec fn only_admin_changed(db: DatabaseView, after: DatabaseView, id: Seq<char>) -> bool {
    &&& after == (DatabaseView { admins: after.admins, ..db })
    &&& after.admins.len() == db.admins.len()
    &&& forall|k: int|
        0 <= k < db.admins.len() && db.admins[k].admin.id != id ==> (#[trigger] after.admins[k])
            == db.admins[k]
}

/// An administrator gets the name and the password that are given and keeps the others; a
/// name that another has is refused, and so is one who is not there.
pub proof fn credentials_are_replaced(
    db: DatabaseView,
    id: Seq<char>,
    username: Option<Seq<char>>,
    password_hash: Option<Seq<char>>,
    now: Timestamp,
    k: int,
)
    requires
        username is Some || password_hash is Some,
        username is Some ==> trim_spec(username->0).len() > 0,
        password_hash is Some ==> trim_spec(password_hash->0).len() > 0,
        0 <= k < db.admins.len(),
    ensures
        ({
            let done = update_credentials_spec(db, id, username, password_hash, now);
            let taken = username is Some && exists|a: int|
                0 <= a < db.admins.len() && (#[trigger] db.admins[a]).admin.id != id
                    && equal_ignoring_case(db.admins[a].admin.username, trim_spec(username->0));
            &&& !is_admin(db, id) || taken ==> is_refused(done, db)
            &&& is_admin(db, id) && !taken ==> {
                &&& done is Ok
                &&& only_admin_changed(db, done->Ok_0.0, id)
                &&& db.admins[k].admin.id == id ==> done->Ok_0.0.admins[k] == (AdminAuthView {
                    admin: AdminView {
                        username: if username is Some {
                            trim_spec(username->0)
                        } else {
                            db.admins[k].admin.username
                        },
                        updated_at: now,
                        ..db.admins[k].admin
                    },
                    password_hash: if password_hash is Some {
                        password_hash->0
                    } else {
                        db.admins[k].password_hash
                    },
                })
            }
        }),
{
    admin_is_found(db, id);
    if username is Some {
        let p = other_admin_named(id, trim_spec(username->0));
        first_is_first(db.admins, p);
        if any(db.admins, p) {
            assert(db.admins[first(db.admins, p)->0].admin.id != id);
        }
        if exists|a: int|
            0 <= a < db.admins.len() && (#[trigger] db.admins[a]).admin.id != id
                && equal_ignoring_case(db.admins[a].admin.username, trim_spec(username->0)) {
            let a = choose|a: int|
                0 <= a < db.admins.len() && (#[trigger] db.admins[a]).admin.id != id
                    && equal_ignoring_case(db.admins[a].admin.username, trim_spec(username->0));
            assert(p(db.admins[a]));
        }
    }
}

/// An administrator is enabled or not as is told, and a login is remembered; of one who is not
/// there nothing is changed.
pub proof fn an_administrator_is_changed(
    db: DatabaseView,
    id: Seq<char>,
    enabled: bool,
    now: Timestamp,
    k: int,
)
    requires
        0 <= k < db.admins.len(),
    ensures
        ({
            let switched = change_admin_spec(db, id, with_enabled(enabled, now));
            let seen = change_admin_spec(db, id, with_login(now));
            &&& !is_admin(db, id) ==> is_refused(switched, db) && is_refused(seen, db)
            &&& is_admin(db, id) ==> {
                &&& switched is Ok
                &&& only_admin_changed(db, switched->Ok_0.0, id)
                &&& db.admins[k].admin.id == id ==> switched->Ok_0.0.admins[k] == (AdminAuthView {
                    admin: AdminView { enabled, updated_at: now, ..db.admins[k].admin },
                    password_hash: db.admins[k].password_hash,
                })
                &&& seen is Ok
                &&& only_admin_changed(db, seen->Ok_0.0, id)
                &&& db.admins[k].admin.id == id ==> seen->Ok_0.0.admins[k] == (AdminAuthView {
                    admin: AdminView {
                        last_login_at: Some(now),
                        updated_at: now,
                        ..db.admins[k].admin
                    },
                    password_hash: db.admins[k].password_hash,
                })
            }
        }),
{
    admin_is_found(db, id);
}

/// Some administrator other than one is an enabled super administrator.
pub open spec fn another_is_super(db: DatabaseView, id: Seq<char>) -> bool {
    exists|a: int|
        0 <= a < db.admins.len() && (#[trigger] db.admins[a]).admin.id != id
            && db.admins[a].admin.role == AdminRole::SuperAdmin && db.admins[a].admin.enabled
}

proof fn super_is_found(db: DatabaseView, id: Seq<char>)
    ensures
        any(db.admins, other_super_admin(id)) == another_is_super(db, id),
{
    let p = other_super_admin(id);
    first_is_first(db.admins, p);
    if any(db.admins, p) {
        assert(db.admins[first(db.admins, p)->0].admin.id != id);
    }
    if another_is_super(db, id) {
        let a = choose|a: int|
            0 <= a < db.admins.len() && (#[trigger] db.admins[a]).admin.id != id
                && db.admins[a].admin.role == AdminRole::SuperAdmin && db.admins[a].admin.enabled;
        assert(p(db.admins[a]));
    }
}

/// The rights of an administrator become those that are given, and stay where none are. Only
/// the last enabled super administrator keeps theirs: they can be neither demoted, disabled
/// nor removed.
pub proof fn rights_are_changed(
    db: DatabaseView,
    id: Seq<char>,
    role: Option<AdminRole>,
    enabled: Option<bool>,
    now: Timestamp,
    k: int,
)
    requires
        admins_distinct(db.admins),
        0 <= k < db.admins.len(),
        db.admins[k].admin.id == id,
    ensures
        ({
            let before = db.admins[k].admin;
            let next = AdminView {
                role: if role is Some {
                    role->0
                } else {
                    before.role
                },
                enabled: if enabled is Some {
                    enabled->0
                } else {
                    before.enabled
                },
                updated_at: now,
                ..before
            };
            let last = before.role == AdminRole::SuperAdmin && before.enabled && !another_is_super(
                db,
                id,
            );
            let lost = next.role != AdminRole::SuperAdmin || !next.enabled;
            let done = update_access_spec(db, id, role, enabled, now);
            let gone = delete_admin_spec(db, id);
            &&& last && lost ==> is_refused(done, db)
            &&& !(last && lost) ==> {
                &&& done is Ok
                &&& only_admin_changed(db, done->Ok_0.0, id)
                &&& done->Ok_0.0.admins[k] == (AdminAuthView {
                    admin: next,
                    password_hash: db.admins[k].password_hash,
                })
                &&& done->Ok_0.1 == next
            }
            &&& last ==> is_refused(gone, db)
            &&& !last ==> {
                &&& gone is Ok
                &&& gone->Ok_0.0 == (DatabaseView {
                    admins: gone->Ok_0.0.admins,
                    sessions: gone->Ok_0.0.sessions,
                    settings: gone->Ok_0.0.settings,
                    ..db
                })
                &&& forall|m: AdminAuthView| #[trigger]
                    gone->Ok_0.0.admins.contains(m) <==> db.admins.contains(m) && m.admin.id != id
                &&& forall|m: SessionRowView| #[trigger]
                    gone->Ok_0.0.sessions.contains(m) <==> db.sessions.contains(m) && m.admin_id
                        != id
                &&& gone->Ok_0.0.settings.len() == db.settings.len()
                &&& forall|j: int|
                    0 <= j < db.settings.len() ==> (#[trigger] gone->Ok_0.0.settings[j]) == (
                    SettingRecordView {
                        updated_by: if db.settings[j].updated_by == Some(id) {
                            None
                        } else {
                            db.settings[j].updated_by
                        },
                        ..db.settings[j]
                    })
            }
        }),
{
    let p = admin_with_id(id);
    first_is_first(db.admins, p);
    assert(p(db.admins[k]));
    let a = first(db.admins, p)->0;
    assert(id_of_admin()(db.admins[a]) == id_of_admin()(db.admins[k]));
    super_is_found(db, id);
    assert forall|m: AdminAuthView| #[trigger]
        others(db.admins, p).contains(m) <==> db.admins.contains(m) && m.admin.id != id by {
        others_has(db.admins, p, m);
    }
    assert forall|m: SessionRowView| #[trigger]
        others(db.sessions, session_of(id)).contains(m) <==> db.sessions.contains(m) && m.admin_id
            != id by {
        others_has(db.sessions, session_of(id), m);
    }
}

/// Some credential has an identifier.
pub open spec fn is_api_key(db: DatabaseView, id: Seq<char>) -> bool {
    exists|k: int| 0 <= k < db.api_keys.len() && (#[trigger] db.api_keys[k]).key.id == id
}

/// Some credential has a token.
pub open spec fn is_api_token(db: DatabaseView, token_hash: Seq<u8>) -> bool {
    exists|k: int| 0 <= k < db.api_keys.len() && (#[trigger] db.api_keys[k]).token_hash == token_hash
}

proof fn api_key_is_found(db: DatabaseView, id: Seq<char>, token_hash: Seq<u8>)
    ensures
        any(db.api_keys, key_with_id(id)) == is_api_key(db, id),
        any(db.api_keys, key_with_token(token_hash)) == is_api_token(db, token_hash),
{
    let p = key_with_id(id);
    let q = key_with_token(token_hash);
    first_is_first(db.api_keys, p);
    first_is_first(db.api_keys, q);
    if any(db.api_keys, p) {
        assert(db.api_keys[first(db.api_keys, p)->0].key.id == id);
    }
    if any(db.api_keys, q) {
        assert(db.api_keys[first(db.api_keys, q)->0].token_hash == token_hash);
    }
    if is_api_key(db, id) {
        let k = choose|k: int|
            0 <= k < db.api_keys.len() && (#[trigger] db.api_keys[k]).key.id == id;
        assert(p(db.api_keys[k]));
    }
    if is_api_token(db, token_hash) {
        let k = choose|k: int|
            0 <= k < db.api_keys.len() && (#[trigger] db.api_keys[k]).token_hash == token_hash;
        assert(q(db.api_keys[k]));
    }
}

/// The networks of a credential are those that are given, in their usual form, each once; one
/// that cannot be read is refused.
pub proof fn networks_of_a_credential(cidrs: Seq<Seq<char>>)
    ensures
        ({
            let list = allowlist(cidrs);
            let sound = forall|i: int|
                0 <= i < cidrs.len() ==> net_value(trim_spec(#[trigger] cidrs[i])) is Some;
            &&& list is Ok <==> sound
            &&& list is Ok ==> {
                &&& list->Ok_0.no_duplicates()
                &&& forall|i: int|
                    0 <= i < cidrs.len() ==> list->Ok_0.contains(
                        net_text(net_value(trim_spec(#[trigger] cidrs[i]))->0),
                    )
                &&& forall|j: int|
                    0 <= j < list->Ok_0.len() ==> exists|i: int|
                        0 <= i < cidrs.len() && (#[trigger] list->Ok_0[j]) == net_text(
                            net_value(trim_spec(#[trigger] cidrs[i]))->0,
                        )
            }
        }),
    decreases cidrs.len(),
{
    if cidrs.len() > 0 {
        let rest = cidrs.drop_last();
        networks_of_a_credential(rest);
        let n = cidrs.len() - 1;
        assert(cidrs[n] == cidrs.last());
        assert forall|i: int| 0 <= i < n implies #[trigger] cidrs[i] == rest[i] by {}
        let sound = forall|i: int|
            0 <= i < cidrs.len() ==> net_value(trim_spec(#[trigger] cidrs[i])) is Some;
        if sound {
            assert forall|i: int| 0 <= i < rest.len() implies net_value(
                trim_spec(#[trigger] rest[i]),
            ) is Some by {
                assert(rest[i] == cidrs[i]);
            }
        }
        if allowlist(cidrs) is Ok {
            assert forall|i: int| 0 <= i < cidrs.len() implies net_value(
                trim_spec(#[trigger] cidrs[i]),
            ) is Some by {
                if i < n {
                    assert(cidrs[i] == rest[i]);
                }
            }
            let front = allowlist(rest)->Ok_0;
            let list = allowlist(cidrs)->Ok_0;
            let text = net_text(net_value(trim_spec(cidrs[n]))->0);
            assert forall|i: int| 0 <= i < cidrs.len() implies list.contains(
                net_text(net_value(trim_spec(#[trigger] cidrs[i]))->0),
            ) by {
                if i < n {
                    assert(cidrs[i] == rest[i]);
                    let t = net_text(net_value(trim_spec(rest[i]))->0);
                    assert(front.contains(t));
                    let j = choose|j: int| 0 <= j < front.len() && front[j] == t;
                    assert(list[j] == t);
                } else if !front.contains(text) {
                    assert(list[front.len() as int] == text);
                }
            }
            assert forall|j: int| 0 <= j < list.len() implies exists|i: int|
                0 <= i < cidrs.len() && (#[trigger] list[j]) == net_text(
                    net_value(trim_spec(#[trigger] cidrs[i]))->0,
                ) by {
                if j < front.len() {
                    assert(list[j] == front[j]);
                    let i = choose|i: int|
                        0 <= i < rest.len() && front[j] == net_text(
                            net_value(trim_spec(#[trigger] rest[i]))->0,
                        );
                    assert(cidrs[i] == rest[i]);
                } else {
                    assert(list[j] == net_text(net_value(trim_spec(cidrs[n]))->0));
                }
            }
        }
    }
}

/// A credential is entered as it is given, under a new identifier and a new token, with a
/// time that is still to come; else nothing changes.
pub proof fn a_credential_is_entered(
    db: DatabaseView,
    name: Seq<char>,
    token_hash: Seq<u8>,
    prefix: Seq<char>,
    permissions: Seq<Seq<char>>,
    networks: Seq<Seq<char>>,
    created_by: Option<Seq<char>>,
    expires_at: Option<Timestamp>,
    id: Seq<char>,
    now: Timestamp,
)
    requires
        trim_spec(name).len() > 0,
        allowlist(networks) is Ok,
    ensures
        ({
            let done = create_key_spec(
                db,
                name,
                token_hash,
                prefix,
                permissions,
                networks,
                created_by,
                expires_at,
                id,
                now,
            );
            let late = expires_at is Some && expires_at->0 <= now;
            &&& late || is_api_key(db, id) || is_api_token(db, token_hash) ==> is_refused(done, db)
            &&& !late && !is_api_key(db, id) && !is_api_token(db, token_hash) ==> {
                &&& done is Ok
                &&& done->Ok_0.1.id == id
                &&& done->Ok_0.1.name == trim_spec(name)
                &&& done->Ok_0.1.prefix == prefix
                &&& done->Ok_0.1.permissions == permissions
                &&& done->Ok_0.1.ip_allowlist == allowlist(networks)->Ok_0
                &&& done->Ok_0.1.created_by == created_by
                &&& done->Ok_0.1.created_at == now
                &&& done->Ok_0.1.expires_at == expires_at
                &&& done->Ok_0.1.last_used_at is None
                &&& done->Ok_0.1.revoked_at is None
                &&& done->Ok_0.0 == (DatabaseView {
                    api_keys: db.api_keys.push(
                        ApiKeyRowView { key: done->Ok_0.1, token_hash },
                    ),
                    ..db
                })
            }
        }),
{
    api_key_is_found(db, id, token_hash);
}

/// A credential has a token, is not revoked, and has not expired.
pub open spec fn is_good(m: ApiKeyRowView, token_hash: Seq<u8>, now: Timestamp) -> bool {
    &&& m.token_hash == token_hash
    &&& m.key.revoked_at is None
    &&& m.key.expires_at is None || m.key.expires_at->0 > now
}

/// A token of the programming interface lets in exactly where some credential has it, is not
/// revoked and has not expired. The credential is told as it was, and counts as used now.
pub proof fn a_credential_lets_in(db: DatabaseView, token_hash: Seq<u8>, now: Timestamp)
    ensures
        ({
            let done = authenticate_key_spec(db, token_hash, now);
            &&& done is Ok
            &&& done->Ok_0.1 is Some <==> exists|k: int|
                0 <= k < db.api_keys.len() && is_good(#[trigger] db.api_keys[k], token_hash, now)
            &&& done->Ok_0.1 is None ==> done->Ok_0.0 == db
            &&& done->Ok_0.1 is Some ==> {
                &&& exists|k: int|
                    0 <= k < db.api_keys.len() && is_good(
                        #[trigger] db.api_keys[k],
                        token_hash,
                        now,
                    ) && db.api_keys[k].key == done->Ok_0.1->0
                &&& done->Ok_0.0 == (DatabaseView { api_keys: done->Ok_0.0.api_keys, ..db })
                &&& done->Ok_0.0.api_keys.len() == db.api_keys.len()
                &&& forall|k: int|
                    0 <= k < db.api_keys.len() ==> (#[trigger] done->Ok_0.0.api_keys[k]) == (
                    if db.api_keys[k].token_hash == token_hash {
                        ApiKeyRowView {
                            key: ApiKeyView { last_used_at: Some(now), ..db.api_keys[k].key },
                            token_hash,
                        }
                    } else {
                        db.api_keys[k]
                    })
            }
        }),
{
    let p = live_key(token_hash, now);
    first_is_first(db.api_keys, p);
    if any(db.api_keys, p) {
        assert(is_good(db.api_keys[first(db.api_keys, p)->0], token_hash, now));
    }
    if exists|k: int|
        0 <= k < db.api_keys.len() && is_good(#[trigger] db.api_keys[k], token_hash, now) {
        let k = choose|k: int|
            0 <= k < db.api_keys.len() && is_good(#[trigger] db.api_keys[k], token_hash, now);
        assert(p(db.api_keys[k]));
    }
}

/// A credential that is there is revoked now, or stays revoked as of when it was; every other
/// one stays as it is. One that is not there is refused.
pub proof fn a_credential_is_revoked(db: DatabaseView, id: Seq<char>, now: Timestamp)
    ensures
        ({
            let done = revoke_key_spec(db, id, now);
            &&& !is_api_key(db, id) ==> is_refused(done, db)
            &&& is_api_key(db, id) ==> {
                &&& done is Ok
                &&& done->Ok_0.0 == (DatabaseView { api_keys: done->Ok_0.0.api_keys, ..db })
                &&& done->Ok_0.0.api_keys.len() == db.api_keys.len()
                &&& forall|k: int|
                    0 <= k < db.api_keys.len() ==> (#[trigger] done->Ok_0.0.api_keys[k]) == (
                    if db.api_keys[k].key.id == id && db.api_keys[k].key.revoked_at is None {
                        ApiKeyRowView {
                            key: ApiKeyView { revoked_at: Some(now), ..db.api_keys[k].key },
                            token_hash: db.api_keys[k].token_hash,
                        }
                    } else {
                        db.api_keys[k]
                    })
            }
        }),
{
    api_key_is_found(db, id, Seq::empty());
    let done = revised(db.api_keys, key_with_id(id), key_revoked(now));
    assert forall|k: int| 0 <= k < db.api_keys.len() implies (#[trigger] done[k]) == (
    if db.api_keys[k].key.id == id && db.api_keys[k].key.revoked_at is None {
        ApiKeyRowView {
            key: ApiKeyView { revoked_at: Some(now), ..db.api_keys[k].key },
            token_hash: db.api_keys[k].token_hash,
        }
    } else {
        db.api_keys[k]
    }) by {
        if db.api_keys[k].key.id == id && db.api_keys[k].key.revoked_at is Some {
            assert(done[k].key == db.api_keys[k].key);
        }
    }
}

} // verus!

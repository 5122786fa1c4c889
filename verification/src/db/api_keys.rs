//! Credentials of the programming interface.

use vstd::prelude::*;

use crate::db::rows::{same_hash, ApiKey, ApiKeyRow, ApiKeyRowView, ApiKeyView, Timestamp};
use crate::db::store::{
    duplicate_value, empty_database, empty_fault, option_result, plain_result, row_result, settles,
    unique_error, validate_non_empty, Database, DatabaseView,
};
use crate::db::admins::or_value;
use crate::error::{not_found, validation, AppError, AppErrorView, AppResult};
use crate::net::{net_string, net_text, net_value, parse_net};
use crate::table::{
    any, append, appending_keeps_distinct, distinct_by, every, find, first, first_is_first,
    first_survives, list, listing, look_up, models, occurs, revise, revised,
    revising_keeps_distinct, revising_keeps_every,
};
use crate::text::{
    copy_list, join2, list_contains, own_option, same, trim, trim_spec, view_str, views,
};

verus! {

broadcast use vstd::string::group_string_axioms;

/// A credential with an identifier.
pub open spec fn key_with_id(id: Seq<char>) -> spec_fn(ApiKeyRowView) -> bool {
    |m: ApiKeyRowView| m.key.id == id
}

/// A credential with a token.
pub open spec fn key_with_token(token_hash: Seq<u8>) -> spec_fn(ApiKeyRowView) -> bool {
    |m: ApiKeyRowView| m.token_hash == token_hash
}

/// A credential with a token that is neither revoked nor expired.
pub open spec fn live_key(token_hash: Seq<u8>, now: Timestamp) -> spec_fn(ApiKeyRowView) -> bool {
    |m: ApiKeyRowView|
        m.token_hash == token_hash && m.key.revoked_at is None && (match m.key.expires_at {
            Some(t) => t > now,
            None => true,
        })
}

/// A credential that was used.
pub open spec fn key_used(now: Timestamp) -> spec_fn(ApiKeyRowView) -> ApiKeyRowView {
    |m: ApiKeyRowView| ApiKeyRowView { key: ApiKeyView { last_used_at: Some(now), ..m.key }, ..m }
}

/// A credential that is revoked; the time of an earlier revocation stays.
pub open spec fn key_revoked(now: Timestamp) -> spec_fn(ApiKeyRowView) -> ApiKeyRowView {
    |m: ApiKeyRowView|
        ApiKeyRowView {
            key: ApiKeyView { revoked_at: Some(or_value(m.key.revoked_at, now)), ..m.key },
            ..m
        }
}

/// The newest credentials first.
pub open spec fn newest_key_first() -> spec_fn(ApiKeyView, ApiKeyView) -> bool {
    |a: ApiKeyView, b: ApiKeyView| a.created_at >= b.created_at
}

/// What is shown of some credentials.
pub open spec fn keys_shown(rows: Seq<ApiKeyRowView>) -> Seq<ApiKeyView> {
    rows.map_values(|m: ApiKeyRowView| m.key)
}

/// Networks in their usual form, each once.
pub open spec fn allowlist(cidrs: Seq<Seq<char>>) -> Result<Seq<Seq<char>>, AppErrorView>
    decreases cidrs.len(),
{
    if cidrs.len() == 0 {
        Ok(Seq::empty())
    } else {
        match allowlist(cidrs.drop_last()) {
            Err(e) => Err(e),
            Ok(front) => match net_value(trim_spec(cidrs.last())) {
                None => Err(AppErrorView::Validation("invalid API key CIDR: "@ + cidrs.last())),
                Some(net) => if front.contains(net_text(net)) {
                    Ok(front)
                } else {
                    Ok(front.push(net_text(net)))
                },
            },
        }
    }
}

/// Networks in their usual form, each once.
#[verifier::loop_isolation(false)]
fn normalize_allowlist(cidrs: &Vec<String>) -> (r: Result<Vec<String>, AppError>)
    ensures
        match r {
            Ok(list) => allowlist(views(cidrs@)) == Ok::<Seq<Seq<char>>, AppErrorView>(
                views(list@),
            ),
            Err(e) => allowlist(views(cidrs@)) == Err::<Seq<Seq<char>>, AppErrorView>(e@),
        },
{
    let ghost cs = views(cidrs@);
    let mut r: Vec<String> = Vec::new();
    let mut i: usize = 0;
    proof {
        assert(cs.take(0) =~= Seq::<Seq<char>>::empty());
        assert(views(r@) =~= Seq::<Seq<char>>::empty());
    }
    while i < cidrs.len()
        invariant
            i <= cidrs@.len(),
            allowlist(cs.take(i as int)) == Ok::<Seq<Seq<char>>, AppErrorView>(views(r@)),
        decreases cidrs@.len() - i,
    {
        proof {
            assert(cs.take(i as int + 1).drop_last() =~= cs.take(i as int));
            assert(cs.take(i as int + 1).last() == cidrs@[i as int]@);
        }
        let text = trim(cidrs[i].as_str());
        match parse_net(text.as_str()) {
            None => {
                proof {
                    allowlist_fails_early(cs, i as int + 1);
                }
                return Err(
                    AppError::Validation(join2("invalid API key CIDR: ", cidrs[i].as_str())),
                );
            },
            Some(net) => {
                let canonical = net_string(net);
                proof {
                    crate::extraction::lists_is_contains(r@, canonical@);
                }
                if !list_contains(&r, canonical.as_str()) {
                    let ghost before = r@;
                    let ghost text = canonical@;
                    r.push(canonical);
                    proof {
                        assert(views(r@) =~= views(before).push(text));
                    }
                }
            },
        }
        i = i + 1;
    }
    proof {
        assert(cs.take(cs.len() as int) =~= cs);
    }
    Ok(r)
}

proof fn allowlist_fails_early(cs: Seq<Seq<char>>, n: int)
    requires
        0 <= n <= cs.len(),
        allowlist(cs.take(n)) is Err,
    ensures
        allowlist(cs) == allowlist(cs.take(n)),
    decreases cs.len(),
{
    if n == cs.len() {
        assert(cs.take(n) =~= cs);
    } else {
        let front = cs.drop_last();
        assert(front.take(n) =~= cs.take(n));
        allowlist_fails_early(front, n);
    }
}

/// A credential is entered with the networks that it may be used from. Its token must be
/// new.
pub open spec fn create_key_spec(
    db: DatabaseView,
    name: Seq<char>,
    token_hash: Seq<u8>,
    prefix: Seq<char>,
    permissions: Seq<Seq<char>>,
    ip_allowlist: Seq<Seq<char>>,
    created_by: Option<Seq<char>>,
    expires_at: Option<Timestamp>,
    id: Seq<char>,
    now: Timestamp,
) -> Result<(DatabaseView, ApiKeyView), AppErrorView> {
    if empty_fault("API key name"@, name) is Some {
        Err(empty_fault("API key name"@, name)->0)
    } else if expires_at is Some && expires_at->0 <= now {
        Err(AppErrorView::Validation("API key expiry must be in the future"@))
    } else {
        match allowlist(ip_allowlist) {
            Err(e) => Err(e),
            Ok(list) => if any(db.api_keys, key_with_id(id)) {
                Err(unique_error("api_keys.id"@))
            } else if any(db.api_keys, key_with_token(token_hash)) {
                Err(unique_error("api_keys.token_hash"@))
            } else {
                let key = ApiKeyView {
                    id,
                    name: trim_spec(name),
                    prefix,
                    permissions,
                    ip_allowlist: list,
                    created_by,
                    created_at: now,
                    expires_at,
                    last_used_at: None,
                    revoked_at: None,
                };
                Ok(
                    (
                        DatabaseView {
                            api_keys: db.api_keys.push(ApiKeyRowView { key, token_hash }),
                            ..db
                        },
                        key,
                    ),
                )
            },
        }
    }
}

/// A live credential is given as it was before, and is used now.
pub open spec fn authenticate_key_spec(
    db: DatabaseView,
    token_hash: Seq<u8>,
    now: Timestamp,
) -> Result<(DatabaseView, Option<ApiKeyView>), AppErrorView> {
    match find(db.api_keys, live_key(token_hash, now)) {
        None => Ok((db, None)),
        Some(m) => Ok(
            (
                DatabaseView {
                    api_keys: revised(db.api_keys, key_with_token(token_hash), key_used(now)),
                    ..db
                },
                Some(m.key),
            ),
        ),
    }
}

/// A credential is revoked.
pub open spec fn revoke_key_spec(db: DatabaseView, id: Seq<char>, now: Timestamp) -> Result<
    (DatabaseView, ()),
    AppErrorView,
> {
    if !any(db.api_keys, key_with_id(id)) {
        Err(AppErrorView::NotFound("API key"@))
    } else {
        Ok(
            (
                DatabaseView {
                    api_keys: revised(db.api_keys, key_with_id(id), key_revoked(now)),
                    ..db
                },
                (),
            ),
        )
    }
}

impl Database {
    /// Enters a credential of the programming interface.
    pub fn create_api_key(
        &mut self,
        name: &str,
        token_hash: &[u8; 32],
        prefix: &str,
        permissions: &Vec<String>,
        ip_allowlist: &Vec<String>,
        created_by: Option<&str>,
        expires_at: Option<Timestamp>,
        id: &str,
        now: Timestamp,
    ) -> (r: AppResult<ApiKey>)
        ensures
            settles(
                create_key_spec(
                    old(self)@,
                    name@,
                    token_hash@,
                    prefix@,
                    views(permissions@),
                    views(ip_allowlist@),
                    view_str(created_by),
                    expires_at,
                    id@,
                    now,
                ),
                old(self)@,
                final(self)@,
                row_result(r),
            ),
    {
        match validate_non_empty("API key name", name) {
            Err(e) => {
                return Err(e);
            },
            Ok(v) => v,
        };
        match expires_at {
            Some(t) => {
                if t <= now {
                    return Err(validation("API key expiry must be in the future"));
                }
            },
            None => {},
        }
        let list = match normalize_allowlist(ip_allowlist) {
            Err(e) => {
                return Err(e);
            },
            Ok(v) => v,
        };
        let test = |x: &ApiKeyRow| -> (b: bool)
            ensures
                b == key_with_id(id@)(x@),
            { same(x.key.id.as_str(), id) };
        if occurs(&self.api_keys, test, Ghost(key_with_id(id@))) {
            return Err(duplicate_value("api_keys.id"));
        }
        let taken = |x: &ApiKeyRow| -> (b: bool)
            ensures
                b == key_with_token(token_hash@)(x@),
            { same_hash(&x.token_hash, token_hash) };
        if occurs(&self.api_keys, taken, Ghost(key_with_token(token_hash@))) {
            return Err(duplicate_value("api_keys.token_hash"));
        }
        let key = ApiKey {
            id: id.to_owned(),
            name: trim(name),
            prefix: prefix.to_owned(),
            permissions: copy_list(permissions),
            ip_allowlist: list,
            created_by: own_option(created_by),
            created_at: now,
            expires_at,
            last_used_at: None,
            revoked_at: None,
        };
        let shown = key.clone();
        append(&mut self.api_keys, ApiKeyRow { key, token_hash: *token_hash });
        Ok(shown)
    }

    /// The live credential with a token, which is used by this.
    pub fn authenticate_api_key(&mut self, token_hash: &[u8; 32], now: Timestamp) -> (r: AppResult<
        Option<ApiKey>,
    >)
        ensures
            settles(
                authenticate_key_spec(old(self)@, token_hash@, now),
                old(self)@,
                final(self)@,
                option_result(r),
            ),
    {
        let live = |x: &ApiKeyRow| -> (b: bool)
            ensures
                b == live_key(token_hash@, now)(x@),
            {
                same_hash(&x.token_hash, token_hash)
                    && x.key.revoked_at.is_none()
                    && match x.key.expires_at {
                        Some(t) => t > now,
                        None => true,
                    }
            };
        match look_up(&self.api_keys, live, Ghost(live_key(token_hash@, now))) {
            None => Ok(None),
            Some(row) => {
                let chosen = |x: &ApiKeyRow| -> (b: bool)
                    ensures
                        b == key_with_token(token_hash@)(x@),
                    { same_hash(&x.token_hash, token_hash) };
                let change = |x: &ApiKeyRow| -> (y: ApiKeyRow)
                    ensures
                        y@ == key_used(now)(x@),
                    { {
                    let mut y = x.clone();
                    y.key.last_used_at = Some(now);
                    y
                } };
                let _ = revise(
                    &mut self.api_keys,
                    chosen,
                    change,
                    Ghost(key_with_token(token_hash@)),
                    Ghost(key_used(now)),
                );
                Ok(Some(row.key))
            },
        }
    }

    /// All credentials, the newest first.
    pub fn list_api_keys(&self) -> (r: AppResult<Vec<ApiKey>>)
        ensures
            r is Ok,
            listing(
                models(r->Ok_0@),
                keys_shown(self@.api_keys),
                newest_key_first(),
                self@.api_keys.len() as int,
            ),
    {
        let mut rows: Vec<ApiKey> = Vec::new();
        let mut i: usize = 0;
        while i < self.api_keys.len()
            invariant
                i <= self.api_keys@.len(),
                rows@.len() == i,
                forall|j: int| 0 <= j < i ==> (#[trigger] rows@[j])@ == keys_shown(
                    self@.api_keys,
                )[j],
            decreases self.api_keys@.len() - i,
        {
            rows.push(self.api_keys[i].key.clone());
            i = i + 1;
        }
        proof {
            assert(models(rows@) =~= keys_shown(self@.api_keys));
        }
        let le = |a: &ApiKey, c: &ApiKey| -> (b: bool)
            ensures
                b == newest_key_first()(a@, c@),
            { a.created_at >= c.created_at };
        let n: usize = rows.len();
        Ok(list(rows, le, n, Ghost(newest_key_first())))
    }

    /// Revokes a credential.
    pub fn revoke_api_key(&mut self, id: &str, now: Timestamp) -> (r: AppResult<()>)
        ensures
            settles(
                revoke_key_spec(old(self)@, id@, now),
                old(self)@,
                final(self)@,
                plain_result(r),
            ),
    {
        let chosen = |x: &ApiKeyRow| -> (b: bool)
            ensures
                b == key_with_id(id@)(x@),
            { same(x.key.id.as_str(), id) };
        if !occurs(&self.api_keys, chosen, Ghost(key_with_id(id@))) {
            return Err(not_found("API key"));
        }
        let change = |x: &ApiKeyRow| -> (y: ApiKeyRow)
            ensures
                y@ == key_revoked(now)(x@),
            { {
            let mut y = x.clone();
            y.key.revoked_at = match x.key.revoked_at {
                Some(t) => Some(t),
                None => Some(now),
            };
            y
        } };
        let _ = revise(
            &mut self.api_keys,
            chosen,
            change,
            Ghost(key_with_id(id@)),
            Ghost(key_revoked(now)),
        );
        Ok(())
    }
}

/// The hash of a credential's token.
pub open spec fn hash_of_key() -> spec_fn(ApiKeyRowView) -> Seq<u8> {
    |m: ApiKeyRowView| m.token_hash
}

/// A credential does not have a token, or is revoked.
pub open spec fn key_shut_out(token_hash: Seq<u8>) -> spec_fn(ApiKeyRowView) -> bool {
    |m: ApiKeyRowView| m.token_hash == token_hash ==> m.key.revoked_at is Some
}

/// No two credentials have the same token, whatever is done: in a state of which that holds,
/// every operation on credentials keeps it.
pub proof fn key_tokens_stay_distinct(
    db: DatabaseView,
    name: Seq<char>,
    token_hash: Seq<u8>,
    prefix: Seq<char>,
    permissions: Seq<Seq<char>>,
    ip_allowlist: Seq<Seq<char>>,
    created_by: Option<Seq<char>>,
    expires_at: Option<Timestamp>,
    id: Seq<char>,
    now: Timestamp,
)
    requires
        distinct_by(db.api_keys, hash_of_key()),
    ensures
        create_key_spec(
            db,
            name,
            token_hash,
            prefix,
            permissions,
            ip_allowlist,
            created_by,
            expires_at,
            id,
            now,
        ) matches Ok(done) ==> distinct_by(done.0.api_keys, hash_of_key()),
        authenticate_key_spec(db, token_hash, now) matches Ok(done) ==> distinct_by(
            done.0.api_keys,
            hash_of_key(),
        ),
        revoke_key_spec(db, id, now) matches Ok(done) ==> distinct_by(
            done.0.api_keys,
            hash_of_key(),
        ),
        distinct_by(empty_database(now).api_keys, hash_of_key()),
{
    let rows = db.api_keys;
    let key = hash_of_key();
    let made = create_key_spec(
        db,
        name,
        token_hash,
        prefix,
        permissions,
        ip_allowlist,
        created_by,
        expires_at,
        id,
        now,
    );
    if made is Ok {
        first_is_first(rows, key_with_token(token_hash));
        appending_keeps_distinct(rows, key, made->Ok_0.0.api_keys.last());
    }
    revising_keeps_distinct(rows, key, key_with_token(token_hash), key_used(now));
    revising_keeps_distinct(rows, key, key_with_id(id), key_revoked(now));
}

/// A credential that is revoked is shut out by that, in every state in which the tokens of
/// the credentials are distinct; and one that is shut out is not let in, whenever it is
/// tried.
pub proof fn a_revoked_key_stays_out(
    db: DatabaseView,
    i: int,
    now: Timestamp,
    token_hash: Seq<u8>,
    later: Timestamp,
)
    requires
        distinct_by(db.api_keys, hash_of_key()),
        0 <= i < db.api_keys.len(),
        db.api_keys[i].token_hash == token_hash,
    ensures
        revoke_key_spec(db, db.api_keys[i].key.id, now) matches Ok(done) && every(
            done.0.api_keys,
            key_shut_out(token_hash),
        ),
        every(db.api_keys, key_shut_out(token_hash)) ==> authenticate_key_spec(
            db,
            token_hash,
            later,
        ) == Ok::<(DatabaseView, Option<ApiKeyView>), AppErrorView>((db, None)),
{
    let rows = db.api_keys;
    let p = key_with_id(rows[i].key.id);
    first_is_first(rows, p);
    assert(p(rows[i]));
    let after = revised(rows, p, key_revoked(now));
    assert forall|j: int| 0 <= j < after.len() implies key_shut_out(token_hash)(
        #[trigger] after[j],
    ) by {
        if j != i {
            assert(hash_of_key()(rows[j]) != hash_of_key()(rows[i]));
        }
    }
    first_is_first(rows, live_key(token_hash, later));
}

/// A credential that is shut out stays so, whatever is done with the credentials; none is
/// entered with its token.
pub proof fn keys_stay_shut_out(
    db: DatabaseView,
    shut_out: Seq<u8>,
    name: Seq<char>,
    token_hash: Seq<u8>,
    prefix: Seq<char>,
    permissions: Seq<Seq<char>>,
    ip_allowlist: Seq<Seq<char>>,
    created_by: Option<Seq<char>>,
    expires_at: Option<Timestamp>,
    id: Seq<char>,
    now: Timestamp,
)
    requires
        every(db.api_keys, key_shut_out(shut_out)),
        any(db.api_keys, key_with_token(shut_out)),
    ensures
        create_key_spec(
            db,
            name,
            token_hash,
            prefix,
            permissions,
            ip_allowlist,
            created_by,
            expires_at,
            id,
            now,
        ) matches Ok(done) ==> token_hash != shut_out && every(
            done.0.api_keys,
            key_shut_out(shut_out),
        ) && any(done.0.api_keys, key_with_token(shut_out)),
        authenticate_key_spec(db, token_hash, now) matches Ok(done) ==> every(
            done.0.api_keys,
            key_shut_out(shut_out),
        ) && any(done.0.api_keys, key_with_token(shut_out)),
        revoke_key_spec(db, id, now) matches Ok(done) ==> every(
            done.0.api_keys,
            key_shut_out(shut_out),
        ) && any(done.0.api_keys, key_with_token(shut_out)),
{
    let rows = db.api_keys;
    let q = key_shut_out(shut_out);
    let has = key_with_token(shut_out);
    let made = create_key_spec(
        db,
        name,
        token_hash,
        prefix,
        permissions,
        ip_allowlist,
        created_by,
        expires_at,
        id,
        now,
    );
    first_is_first(rows, has);
    let k = first(rows, has)->0;
    if made is Ok {
        first_is_first(made->Ok_0.0.api_keys, has);
        assert(has(made->Ok_0.0.api_keys[k]));
    }
    revising_keeps_every(rows, q, key_with_token(token_hash), key_used(now));
    first_survives(rows, key_with_token(token_hash), key_used(now), has);
    revising_keeps_every(rows, q, key_with_id(id), key_revoked(now));
    first_survives(rows, key_with_id(id), key_revoked(now), has);
}

} // verus!

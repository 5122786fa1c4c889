//! Administrators, their browser sessions, and the credentials of the programming
//! interface.

use vstd::prelude::*;

use crate::db::rows::{
    same_hash, Admin, AdminAuth, AdminAuthView, AdminRole, AdminSession, AdminSessionView,
    AdminView, SessionRow, SessionRowView, SettingRecord, SettingRecordView, Timestamp,
};
use crate::db::store::{
    dangling_reference, duplicate_value, earlier, empty_fault, folded_in_order, folded_le,
    folded_le_orders, option_result, plain_result, reference_error, row_result, settles,
    unique_error, validate_non_empty, Database, DatabaseView,
};
use crate::error::{conflict, not_found, validation, AppErrorView, AppResult};
use crate::table::{
    all, any, any_is_some_row, append, count, distinct_by, find, first, first_is_first, foremost,
    list, listing, look_up, model, models, occurs, others, others_has, pick, remove, revise,
    revised,
};
use crate::text::{
    eq_ignore_ascii_case, equal_ignoring_case, option_is, own_option, same, trim, trim_spec,
    view_option, view_str,
};

verus! {

broadcast use vstd::string::group_string_axioms;

/// An administrator with an identifier.
pub open spec fn admin_with_id(id: Seq<char>) -> spec_fn(AdminAuthView) -> bool {
    |m: AdminAuthView| m.admin.id == id
}

/// An administrator with a name; its case does not matter.
pub open spec fn admin_named(username: Seq<char>) -> spec_fn(AdminAuthView) -> bool {
    |m: AdminAuthView| equal_ignoring_case(m.admin.username, username)
}

/// Another administrator with a name.
pub open spec fn other_admin_named(id: Seq<char>, username: Seq<char>) -> spec_fn(
    AdminAuthView,
) -> bool {
    |m: AdminAuthView| m.admin.id != id && equal_ignoring_case(m.admin.username, username)
}

/// An enabled administrator with an identifier.
pub open spec fn enabled_admin(id: Seq<char>) -> spec_fn(AdminAuthView) -> bool {
    |m: AdminAuthView| m.admin.id == id && m.admin.enabled
}

/// An administrator who is an enabled super administrator.
pub open spec fn is_super(m: AdminAuthView) -> bool {
    m.admin.role == AdminRole::SuperAdmin && m.admin.enabled
}

/// An enabled super administrator other than one.
pub open spec fn other_super_admin(id: Seq<char>) -> spec_fn(AdminAuthView) -> bool {
    |m: AdminAuthView| m.admin.role == AdminRole::SuperAdmin && m.admin.enabled && m.admin.id != id
}

/// Entered no later.
pub open spec fn admin_entered_first() -> spec_fn(AdminAuthView, AdminAuthView) -> bool {
    |a: AdminAuthView, b: AdminAuthView| a.admin.created_at <= b.admin.created_at
}

/// In the order of the names.
pub open spec fn by_username() -> spec_fn(AdminView, AdminView) -> bool {
    |a: AdminView, b: AdminView| folded_le(a.username, b.username)
}

/// What is shown of some administrators.
pub open spec fn admins_shown(rows: Seq<AdminAuthView>) -> Seq<AdminView> {
    rows.map_values(|m: AdminAuthView| m.admin)
}

/// A new administrator.
pub open spec fn new_admin(
    id: Seq<char>,
    username: Seq<char>,
    password_hash: Seq<char>,
    role: AdminRole,
    now: Timestamp,
) -> AdminAuthView {
    AdminAuthView {
        admin: AdminView {
            id,
            username: trim_spec(username),
            role,
            enabled: true,
            created_at: now,
            updated_at: now,
            last_login_at: None,
        },
        password_hash,
    }
}

/// The faults of a name and a password hash.
pub open spec fn credential_fault(username: Seq<char>, password_hash: Seq<char>) -> Option<
    AppErrorView,
> {
    earlier(empty_fault("username"@, username), empty_fault("password hash"@, password_hash))
}

/// The first administrator is entered only where there is none.
pub open spec fn bootstrap_spec(
    db: DatabaseView,
    username: Seq<char>,
    password_hash: Seq<char>,
    id: Seq<char>,
    now: Timestamp,
) -> Result<(DatabaseView, AdminView), AppErrorView> {
    match credential_fault(username, password_hash) {
        Some(e) => Err(e),
        None => match foremost(db.admins, all(), admin_entered_first()) {
            Some(m) => Ok((db, m.admin)),
            None => {
                let row = new_admin(id, username, password_hash, AdminRole::SuperAdmin, now);
                Ok((DatabaseView { admins: db.admins.push(row), ..db }, row.admin))
            },
        },
    }
}

/// An administrator is entered under a name that nobody has.
pub open spec fn create_admin_spec(
    db: DatabaseView,
    username: Seq<char>,
    password_hash: Seq<char>,
    role: AdminRole,
    id: Seq<char>,
    now: Timestamp,
) -> Result<(DatabaseView, AdminView), AppErrorView> {
    match credential_fault(username, password_hash) {
        Some(e) => Err(e),
        None => if any(db.admins, admin_with_id(id)) {
            Err(unique_error("admins.id"@))
        } else if any(db.admins, admin_named(trim_spec(username))) {
            Err(unique_error("admins.username"@))
        } else {
            let row = new_admin(id, username, password_hash, role, now);
            Ok((DatabaseView { admins: db.admins.push(row), ..db }, row.admin))
        },
    }
}

/// An optional text without surrounding white space.
pub open spec fn trim_option(o: Option<Seq<char>>) -> Option<Seq<char>> {
    match o {
        Some(s) => Some(trim_spec(s)),
        None => None,
    }
}

/// A value, or another where it is absent.
pub open spec fn or_value<T>(o: Option<T>, other: T) -> T {
    match o {
        Some(v) => v,
        None => other,
    }
}

/// An administrator with other credentials.
pub open spec fn with_credentials(
    username: Option<Seq<char>>,
    password_hash: Option<Seq<char>>,
    now: Timestamp,
) -> spec_fn(AdminAuthView) -> AdminAuthView {
    |m: AdminAuthView|
        AdminAuthView {
            admin: AdminView {
                username: or_value(username, m.admin.username),
                updated_at: now,
                ..m.admin
            },
            password_hash: or_value(password_hash, m.password_hash),
        }
}

/// The credentials of an administrator are replaced where new ones are given.
pub open spec fn update_credentials_spec(
    db: DatabaseView,
    id: Seq<char>,
    username: Option<Seq<char>>,
    password_hash: Option<Seq<char>>,
    now: Timestamp,
) -> Result<(DatabaseView, ()), AppErrorView> {
    if username is None && password_hash is None {
        Ok((db, ()))
    } else {
        let fault = earlier(
            match username {
                Some(s) => empty_fault("username"@, s),
                None => None,
            },
            match password_hash {
                Some(s) => empty_fault("password hash"@, s),
                None => None,
            },
        );
        let name = trim_option(username);
        match fault {
            Some(e) => Err(e),
            None => if !any(db.admins, admin_with_id(id)) {
                Err(AppErrorView::NotFound("admin"@))
            } else if name is Some && any(db.admins, other_admin_named(id, name->0)) {
                Err(unique_error("admins.username"@))
            } else {
                Ok(
                    (
                        DatabaseView {
                            admins: revised(
                                db.admins,
                                admin_with_id(id),
                                with_credentials(name, password_hash, now),
                            ),
                            ..db
                        },
                        (),
                    ),
                )
            },
        }
    }
}

/// An administrator who is enabled or not.
pub open spec fn with_enabled(enabled: bool, now: Timestamp) -> spec_fn(
    AdminAuthView,
) -> AdminAuthView {
    |m: AdminAuthView|
        AdminAuthView { admin: AdminView { enabled, updated_at: now, ..m.admin }, ..m }
}

/// An administrator who logged in.
pub open spec fn with_login(at: Timestamp) -> spec_fn(AdminAuthView) -> AdminAuthView {
    |m: AdminAuthView|
        AdminAuthView {
            admin: AdminView { last_login_at: Some(at), updated_at: at, ..m.admin },
            ..m
        }
}

/// An administrator with other rights.
pub open spec fn with_access(role: AdminRole, enabled: bool, now: Timestamp) -> spec_fn(
    AdminAuthView,
) -> AdminAuthView {
    |m: AdminAuthView|
        AdminAuthView { admin: AdminView { role, enabled, updated_at: now, ..m.admin }, ..m }
}

/// An administrator is changed where they are there.
pub open spec fn change_admin_spec(
    db: DatabaseView,
    id: Seq<char>,
    change: spec_fn(AdminAuthView) -> AdminAuthView,
) -> Result<(DatabaseView, ()), AppErrorView> {
    if !any(db.admins, admin_with_id(id)) {
        Err(AppErrorView::NotFound("admin"@))
    } else {
        Ok((DatabaseView { admins: revised(db.admins, admin_with_id(id), change), ..db }, ()))
    }
}

/// The rights of an administrator are changed, unless no enabled super administrator
/// would remain.
pub open spec fn update_access_spec(
    db: DatabaseView,
    id: Seq<char>,
    role: Option<AdminRole>,
    enabled: Option<bool>,
    now: Timestamp,
) -> Result<(DatabaseView, AdminView), AppErrorView> {
    match find(db.admins, admin_with_id(id)) {
        None => Err(AppErrorView::NotFound("admin"@)),
        Some(current) => {
            let next_role = or_value(role, current.admin.role);
            let next_enabled = or_value(enabled, current.admin.enabled);
            if is_super(current) && (next_role != AdminRole::SuperAdmin || !next_enabled) && !any(
                db.admins,
                other_super_admin(id),
            ) {
                Err(
                    AppErrorView::Conflict(
                        "at least one enabled super administrator is required"@,
                    ),
                )
            } else {
                let change = with_access(next_role, next_enabled, now);
                Ok(
                    (
                        DatabaseView { admins: revised(db.admins, admin_with_id(id), change), ..db },
                        change(current).admin,
                    ),
                )
            }
        },
    }
}

/// A session of an administrator.
pub open spec fn session_of(admin_id: Seq<char>) -> spec_fn(SessionRowView) -> bool {
    |s: SessionRowView| s.admin_id == admin_id
}

/// A setting that an administrator changed last.
pub open spec fn setting_by(admin_id: Seq<char>) -> spec_fn(SettingRecordView) -> bool {
    |s: SettingRecordView| s.updated_by == Some(admin_id)
}

/// A setting without the administrator who changed it last.
pub open spec fn orphaned_setting() -> spec_fn(SettingRecordView) -> SettingRecordView {
    |s: SettingRecordView| SettingRecordView { updated_by: None, ..s }
}

/// An administrator and their sessions are removed, unless no enabled super administrator
/// would remain. That the sessions go and that settings stay without a name are rules of the
/// tables, which are taken as given.
pub open spec fn delete_admin_spec(db: DatabaseView, id: Seq<char>) -> Result<
    (DatabaseView, ()),
    AppErrorView,
> {
    match find(db.admins, admin_with_id(id)) {
        None => Err(AppErrorView::NotFound("admin"@)),
        Some(current) => if is_super(current) && !any(db.admins, other_super_admin(id)) {
            Err(
                AppErrorView::Conflict("the last enabled super administrator cannot be deleted"@),
            )
        } else {
            Ok(
                (
                    DatabaseView {
                        admins: others(db.admins, admin_with_id(id)),
                        sessions: others(db.sessions, session_of(id)),
                        settings: revised(db.settings, setting_by(id), orphaned_setting()),
                        ..db
                    },
                    (),
                ),
            )
        },
    }
}

/// A session is entered for an administrator who is there.
pub open spec fn create_session_spec(
    db: DatabaseView,
    session: SessionRowView,
    now: Timestamp,
) -> Result<(DatabaseView, ()), AppErrorView> {
    if session.expires_at <= now {
        Err(AppErrorView::Validation("session expiry must be in the future"@))
    } else if !any(db.admins, admin_with_id(session.admin_id)) {
        Err(reference_error())
    } else {
        Ok((DatabaseView { sessions: db.sessions.push(session), ..db }, ()))
    }
}

/// A session with a token that has not expired and whose administrator is enabled.
pub open spec fn live_session(
    admins: Seq<AdminAuthView>,
    token_hash: Seq<u8>,
    now: Timestamp,
) -> spec_fn(SessionRowView) -> bool {
    |s: SessionRowView|
        s.token_hash == token_hash && s.expires_at > now && any(admins, enabled_admin(s.admin_id))
}

/// A live session with a request credential.
pub open spec fn live_session_with_csrf(
    admins: Seq<AdminAuthView>,
    token_hash: Seq<u8>,
    csrf_hash: Seq<u8>,
    now: Timestamp,
) -> spec_fn(SessionRowView) -> bool {
    |s: SessionRowView|
        s.token_hash == token_hash && s.csrf_hash == csrf_hash && s.expires_at > now && any(
            admins,
            enabled_admin(s.admin_id),
        )
}

/// A session with a token.
pub open spec fn session_with_token(token_hash: Seq<u8>) -> spec_fn(SessionRowView) -> bool {
    |s: SessionRowView| s.token_hash == token_hash
}

/// A session that has expired.
pub open spec fn expired_session(now: Timestamp) -> spec_fn(SessionRowView) -> bool {
    |s: SessionRowView| s.expires_at <= now
}

/// A session that was seen.
pub open spec fn seen(now: Timestamp) -> spec_fn(SessionRowView) -> SessionRowView {
    |s: SessionRowView| SessionRowView { last_seen_at: now, ..s }
}

/// What is shown of a session.
pub open spec fn session_shown(s: SessionRowView, admin: AdminView) -> AdminSessionView {
    AdminSessionView {
        admin,
        created_at: s.created_at,
        expires_at: s.expires_at,
        last_seen_at: s.last_seen_at,
        source_ip: s.source_ip,
        user_agent: s.user_agent,
    }
}

/// A live session is given as it was before, and is seen now.
pub open spec fn authenticate_session_spec(
    db: DatabaseView,
    token_hash: Seq<u8>,
    now: Timestamp,
) -> Result<(DatabaseView, Option<AdminSessionView>), AppErrorView> {
    match find(db.sessions, live_session(db.admins, token_hash, now)) {
        None => Ok((db, None)),
        Some(s) => Ok(
            (
                DatabaseView {
                    sessions: revised(db.sessions, session_with_token(token_hash), seen(now)),
                    ..db
                },
                Some(session_shown(s, find(db.admins, enabled_admin(s.admin_id))->0.admin)),
            ),
        ),
    }
}

impl Database {
    fn find_admin(&self, id: &str) -> (r: Option<AdminAuth>)
        ensures
            model(r) == find(self@.admins, admin_with_id(id@)),
    {
        let test = |x: &AdminAuth| -> (b: bool)
            ensures
                b == admin_with_id(id@)(x@),
            { same(x.admin.id.as_str(), id) };
        look_up(&self.admins, test, Ghost(admin_with_id(id@)))
    }

    /// Whether there is an administrator with an identifier.
    pub fn has_admin(&self, id: &str) -> (r: bool)
        ensures
            r == any(self@.admins, admin_with_id(id@)),
    {
        let test = |x: &AdminAuth| -> (b: bool)
            ensures
                b == admin_with_id(id@)(x@),
            { same(x.admin.id.as_str(), id) };
        occurs(&self.admins, test, Ghost(admin_with_id(id@)))
    }

    /// Enters the first administrator; where there is one, gives the one who was entered
    /// first.
    pub fn bootstrap_admin(
        &mut self,
        username: &str,
        password_hash: &str,
        id: &str,
        now: Timestamp,
    ) -> (r: AppResult<Admin>)
        ensures
            settles(
                bootstrap_spec(old(self)@, username@, password_hash@, id@, now),
                old(self)@,
                final(self)@,
                row_result(r),
            ),
    {
        match validate_non_empty("username", username) {
            Err(e) => {
                return Err(e);
            },
            Ok(v) => v,
        };
        match validate_non_empty("password hash", password_hash) {
            Err(e) => {
                return Err(e);
            },
            Ok(v) => v,
        };
        let test = |x: &AdminAuth| -> (b: bool)
            ensures
                b == all::<AdminAuthView>()(x@),
            { true };
        let le = |a: &AdminAuth, c: &AdminAuth| -> (b: bool)
            ensures
                b == admin_entered_first()(a@, c@),
            { a.admin.created_at <= c.admin.created_at };
        match pick(&self.admins, test, le, Ghost(all()), Ghost(admin_entered_first())) {
            Some(i) => Ok(self.admins[i].admin.clone()),
            None => {
                let row = AdminAuth {
                    admin: Admin {
                        id: id.to_owned(),
                        username: trim(username),
                        role: AdminRole::SuperAdmin,
                        enabled: true,
                        created_at: now,
                        updated_at: now,
                        last_login_at: None,
                    },
                    password_hash: password_hash.to_owned(),
                };
                let shown = row.admin.clone();
                append(&mut self.admins, row);
                Ok(shown)
            },
        }
    }

    /// Enters an administrator.
    pub fn create_admin(
        &mut self,
        username: &str,
        password_hash: &str,
        role: AdminRole,
        id: &str,
        now: Timestamp,
    ) -> (r: AppResult<Admin>)
        ensures
            settles(
                create_admin_spec(old(self)@, username@, password_hash@, role, id@, now),
                old(self)@,
                final(self)@,
                row_result(r),
            ),
    {
        match validate_non_empty("username", username) {
            Err(e) => {
                return Err(e);
            },
            Ok(v) => v,
        };
        match validate_non_empty("password hash", password_hash) {
            Err(e) => {
                return Err(e);
            },
            Ok(v) => v,
        };
        if self.has_admin(id) {
            return Err(duplicate_value("admins.id"));
        }
        let name = trim(username);
        let test = |x: &AdminAuth| -> (b: bool)
            ensures
                b == admin_named(name@)(x@),
            { eq_ignore_ascii_case(x.admin.username.as_str(), name.as_str()) };
        if occurs(&self.admins, test, Ghost(admin_named(name@))) {
            return Err(duplicate_value("admins.username"));
        }
        let row = AdminAuth {
            admin: Admin {
                id: id.to_owned(),
                username: name,
                role,
                enabled: true,
                created_at: now,
                updated_at: now,
                last_login_at: None,
            },
            password_hash: password_hash.to_owned(),
        };
        let shown = row.admin.clone();
        append(&mut self.admins, row);
        Ok(shown)
    }

    /// The administrator with an identifier.
    pub fn admin_by_id(&self, id: &str) -> (r: AppResult<Option<Admin>>)
        ensures
            option_result(r) == Ok::<Option<AdminView>, AppErrorView>(
                match find(self@.admins, admin_with_id(id@)) {
                    Some(m) => Some(m.admin),
                    None => None,
                },
            ),
    {
        match self.find_admin(id) {
            Some(row) => Ok(Some(row.admin)),
            None => Ok(None),
        }
    }

    /// The administrator with a name, and the hash of their password.
    pub fn admin_auth_by_username(&self, username: &str) -> (r: AppResult<Option<AdminAuth>>)
        ensures
            option_result(r) == Ok::<Option<AdminAuthView>, AppErrorView>(
                find(self@.admins, admin_named(username@)),
            ),
    {
        let test = |x: &AdminAuth| -> (b: bool)
            ensures
                b == admin_named(username@)(x@),
            { eq_ignore_ascii_case(x.admin.username.as_str(), username) };
        Ok(look_up(&self.admins, test, Ghost(admin_named(username@))))
    }

    /// All administrators in the order of their names.
    pub fn list_admins(&self) -> (r: AppResult<Vec<Admin>>)
        ensures
            r is Ok,
            listing(
                models(r->Ok_0@),
                admins_shown(self@.admins),
                by_username(),
                self@.admins.len() as int,
            ),
    {
        let mut rows: Vec<Admin> = Vec::new();
        let mut i: usize = 0;
        while i < self.admins.len()
            invariant
                i <= self.admins@.len(),
                rows@.len() == i,
                forall|j: int| 0 <= j < i ==> (#[trigger] rows@[j])@ == admins_shown(
                    self@.admins,
                )[j],
            decreases self.admins@.len() - i,
        {
            rows.push(self.admins[i].admin.clone());
            i = i + 1;
        }
        proof {
            assert(models(rows@) =~= admins_shown(self@.admins));
            folded_le_orders();
        }
        let le = |a: &Admin, c: &Admin| -> (b: bool)
            ensures
                b == by_username()(a@, c@),
            { folded_in_order(a.username.as_str(), c.username.as_str()) };
        let n: usize = rows.len();
        Ok(list(rows, le, n, Ghost(by_username())))
    }

    /// Replaces the name and the password hash of an administrator where they are given.
    pub fn update_admin_credentials(
        &mut self,
        id: &str,
        username: Option<&str>,
        password_hash: Option<&str>,
        now: Timestamp,
    ) -> (r: AppResult<()>)
        ensures
            settles(
                update_credentials_spec(
                    old(self)@,
                    id@,
                    view_str(username),
                    view_str(password_hash),
                    now,
                ),
                old(self)@,
                final(self)@,
                plain_result(r),
            ),
    {
        if username.is_none() && password_hash.is_none() {
            return Ok(());
        }
        match username {
            Some(s) => {
                match validate_non_empty("username", s) {
                    Err(e) => {
                        return Err(e);
                    },
                    Ok(v) => v,
                };
            },
            None => {},
        }
        match password_hash {
            Some(s) => {
                match validate_non_empty("password hash", s) {
                    Err(e) => {
                        return Err(e);
                    },
                    Ok(v) => v,
                };
            },
            None => {},
        }
        if !self.has_admin(id) {
            return Err(not_found("admin"));
        }
        let name: Option<String> = match username {
            Some(s) => Some(trim(s)),
            None => None,
        };
        match &name {
            Some(n) => {
                let n = n.as_str();
                let test = |x: &AdminAuth| -> (b: bool)
                    ensures
                        b == other_admin_named(id@, n@)(x@),
                    {
                        !same(x.admin.id.as_str(), id)
                            && eq_ignore_ascii_case(x.admin.username.as_str(), n)
                    };
                if occurs(&self.admins, test, Ghost(other_admin_named(id@, n@))) {
                    return Err(duplicate_value("admins.username"));
                }
            },
            None => {},
        }
        let chosen = |x: &AdminAuth| -> (b: bool)
            ensures
                b == admin_with_id(id@)(x@),
            { same(x.admin.id.as_str(), id) };
        let ghost f = with_credentials(view_option(name), view_str(password_hash), now);
        let change = |x: &AdminAuth| -> (y: AdminAuth)
            ensures
                y@ == f(x@),
            { AdminAuth {
            admin: Admin {
                id: x.admin.id.clone(),
                username: match &name {
                    Some(n) => n.clone(),
                    None => x.admin.username.clone(),
                },
                role: x.admin.role,
                enabled: x.admin.enabled,
                created_at: x.admin.created_at,
                updated_at: now,
                last_login_at: x.admin.last_login_at,
            },
            password_hash: match password_hash {
                Some(h) => h.to_owned(),
                None => x.password_hash.clone(),
            },
        } };
        let _ = revise(
            &mut self.admins,
            chosen,
            change,
            Ghost(admin_with_id(id@)),
            Ghost(f),
        );
        Ok(())
    }

    /// Enables or disables an administrator.
    pub fn set_admin_enabled(&mut self, id: &str, enabled: bool, now: Timestamp) -> (r: AppResult<
        (),
    >)
        ensures
            settles(
                change_admin_spec(old(self)@, id@, with_enabled(enabled, now)),
                old(self)@,
                final(self)@,
                plain_result(r),
            ),
    {
        if !self.has_admin(id) {
            return Err(not_found("admin"));
        }
        let chosen = |x: &AdminAuth| -> (b: bool)
            ensures
                b == admin_with_id(id@)(x@),
            { same(x.admin.id.as_str(), id) };
        let change = |x: &AdminAuth| -> (y: AdminAuth)
            ensures
                y@ == with_enabled(enabled, now)(x@),
            { {
            let mut y = x.clone();
            y.admin.enabled = enabled;
            y.admin.updated_at = now;
            y
        } };
        let _ = revise(
            &mut self.admins,
            chosen,
            change,
            Ghost(admin_with_id(id@)),
            Ghost(with_enabled(enabled, now)),
        );
        Ok(())
    }

    /// Changes the role of an administrator or whether they are enabled.
    pub fn update_admin_access(
        &mut self,
        id: &str,
        role: Option<AdminRole>,
        enabled: Option<bool>,
        now: Timestamp,
    ) -> (r: AppResult<Admin>)
        ensures
            settles(
                update_access_spec(old(self)@, id@, role, enabled, now),
                old(self)@,
                final(self)@,
                row_result(r),
            ),
    {
        let current = match self.find_admin(id) {
            None => {
                return Err(not_found("admin"));
            },
            Some(row) => row,
        };
        let next_role: AdminRole = match role {
            Some(v) => v,
            None => current.admin.role,
        };
        let next_enabled: bool = match enabled {
            Some(v) => v,
            None => current.admin.enabled,
        };
        if current.admin.role == AdminRole::SuperAdmin && current.admin.enabled && (next_role
            != AdminRole::SuperAdmin || !next_enabled) {
            if !self.has_other_super_admin(id) {
                return Err(conflict("at least one enabled super administrator is required"));
            }
        }
        let chosen = |x: &AdminAuth| -> (b: bool)
            ensures
                b == admin_with_id(id@)(x@),
            { same(x.admin.id.as_str(), id) };
        let change = |x: &AdminAuth| -> (y: AdminAuth)
            ensures
                y@ == with_access(next_role, next_enabled, now)(x@),
            { {
            let mut y = x.clone();
            y.admin.role = next_role;
            y.admin.enabled = next_enabled;
            y.admin.updated_at = now;
            y
        } };
        let _ = revise(
            &mut self.admins,
            chosen,
            change,
            Ghost(admin_with_id(id@)),
            Ghost(with_access(next_role, next_enabled, now)),
        );
        let mut shown = current.admin;
        shown.role = next_role;
        shown.enabled = next_enabled;
        shown.updated_at = now;
        Ok(shown)
    }

    fn has_other_super_admin(&self, id: &str) -> (r: bool)
        ensures
            r == any(self@.admins, other_super_admin(id@)),
    {
        let test = |x: &AdminAuth| -> (b: bool)
            ensures
                b == other_super_admin(id@)(x@),
            {
                x.admin.role == AdminRole::SuperAdmin
                    && x.admin.enabled
                    && !same(x.admin.id.as_str(), id)
            };
        occurs(&self.admins, test, Ghost(other_super_admin(id@)))
    }

    /// Removes an administrator.
    pub fn delete_admin(&mut self, id: &str) -> (r: AppResult<()>)
        ensures
            settles(delete_admin_spec(old(self)@, id@), old(self)@, final(self)@, plain_result(r)),
    {
        let current = match self.find_admin(id) {
            None => {
                return Err(not_found("admin"));
            },
            Some(row) => row,
        };
        if current.admin.role == AdminRole::SuperAdmin && current.admin.enabled {
            if !self.has_other_super_admin(id) {
                return Err(conflict("the last enabled super administrator cannot be deleted"));
            }
        }
        let chosen = |x: &AdminAuth| -> (b: bool)
            ensures
                b == admin_with_id(id@)(x@),
            { same(x.admin.id.as_str(), id) };
        let _ = remove(&mut self.admins, chosen, Ghost(admin_with_id(id@)));
        let theirs = |x: &SessionRow| -> (b: bool)
            ensures
                b == session_of(id@)(x@),
            { same(x.admin_id.as_str(), id) };
        let _ = remove(&mut self.sessions, theirs, Ghost(session_of(id@)));
        let changed = |x: &SettingRecord| -> (b: bool)
            ensures
                b == setting_by(id@)(x@),
            { option_is(&x.updated_by, id) };
        let orphan = |x: &SettingRecord| -> (y: SettingRecord)
            ensures
                y@ == orphaned_setting()(x@),
            { {
            let mut y = x.clone();
            y.updated_by = None;
            y
        } };
        let _ = revise(
            &mut self.settings,
            changed,
            orphan,
            Ghost(setting_by(id@)),
            Ghost(orphaned_setting()),
        );
        Ok(())
    }

    /// Records that an administrator logged in.
    pub fn record_admin_login(&mut self, id: &str, at: Timestamp) -> (r: AppResult<()>)
        ensures
            settles(
                change_admin_spec(old(self)@, id@, with_login(at)),
                old(self)@,
                final(self)@,
                plain_result(r),
            ),
    {
        if !self.has_admin(id) {
            return Err(not_found("admin"));
        }
        let chosen = |x: &AdminAuth| -> (b: bool)
            ensures
                b == admin_with_id(id@)(x@),
            { same(x.admin.id.as_str(), id) };
        let change = |x: &AdminAuth| -> (y: AdminAuth)
            ensures
                y@ == with_login(at)(x@),
            { {
            let mut y = x.clone();
            y.admin.last_login_at = Some(at);
            y.admin.updated_at = at;
            y
        } };
        let _ = revise(
            &mut self.admins,
            chosen,
            change,
            Ghost(admin_with_id(id@)),
            Ghost(with_login(at)),
        );
        Ok(())
    }

    /// Enters a browser session.
    pub fn create_admin_session(
        &mut self,
        admin_id: &str,
        token_hash: &[u8; 32],
        csrf_hash: &[u8; 32],
        expires_at: Timestamp,
        source_ip: Option<&str>,
        user_agent: Option<&str>,
        now: Timestamp,
    ) -> (r: AppResult<()>)
        ensures
            settles(
                create_session_spec(
                    old(self)@,
                    SessionRowView {
                        token_hash: token_hash@,
                        csrf_hash: csrf_hash@,
                        admin_id: admin_id@,
                        source_ip: view_str(source_ip),
                        user_agent: view_str(user_agent),
                        created_at: now,
                        expires_at,
                        last_seen_at: now,
                    },
                    now,
                ),
                old(self)@,
                final(self)@,
                plain_result(r),
            ),
    {
        if expires_at <= now {
            return Err(validation("session expiry must be in the future"));
        }
        if !self.has_admin(admin_id) {
            return Err(dangling_reference());
        }
        append(
            &mut self.sessions,
            SessionRow {
                token_hash: *token_hash,
                csrf_hash: *csrf_hash,
                admin_id: admin_id.to_owned(),
                source_ip: own_option(source_ip),
                user_agent: own_option(user_agent),
                created_at: now,
                expires_at,
                last_seen_at: now,
            },
        );
        Ok(())
    }

    fn find_enabled_admin(&self, id: &str) -> (r: Option<AdminAuth>)
        ensures
            model(r) == find(self@.admins, enabled_admin(id@)),
    {
        let test = |x: &AdminAuth| -> (b: bool)
            ensures
                b == enabled_admin(id@)(x@),
            { same(x.admin.id.as_str(), id) && x.admin.enabled };
        look_up(&self.admins, test, Ghost(enabled_admin(id@)))
    }

    /// The live session with a token, which is seen by this.
    pub fn authenticate_admin_session(&mut self, token_hash: &[u8; 32], now: Timestamp) -> (r:
        AppResult<Option<AdminSession>>)
        ensures
            settles(
                authenticate_session_spec(old(self)@, token_hash@, now),
                old(self)@,
                final(self)@,
                option_result(r),
            ),
    {
        let db: &Database = self;
        let test = |x: &SessionRow| -> (b: bool)
            ensures
                b == live_session(db@.admins, token_hash@, now)(x@),
            {
                same_hash(&x.token_hash, token_hash)
                    && x.expires_at > now
                    && db.find_enabled_admin(x.admin_id.as_str()).is_some()
            };
        let found = look_up(
            &db.sessions,
            test,
            Ghost(live_session(db@.admins, token_hash@, now)),
        );
        let session = match found {
            None => {
                return Ok(None);
            },
            Some(s) => s,
        };
        let admin = match db.find_enabled_admin(session.admin_id.as_str()) {
            None => {
                proof {
                    first_is_first(db@.sessions, live_session(db@.admins, token_hash@, now));
                    assert(false);
                }
                return Ok(None);
            },
            Some(a) => a,
        };
        let chosen = |x: &SessionRow| -> (b: bool)
            ensures
                b == session_with_token(token_hash@)(x@),
            { same_hash(&x.token_hash, token_hash) };
        let change = |x: &SessionRow| -> (y: SessionRow)
            ensures
                y@ == seen(now)(x@),
            { {
            let mut y = x.clone();
            y.last_seen_at = now;
            y
        } };
        let _ = revise(
            &mut self.sessions,
            chosen,
            change,
            Ghost(session_with_token(token_hash@)),
            Ghost(seen(now)),
        );
        Ok(
            Some(
                AdminSession {
                    admin: admin.admin,
                    created_at: session.created_at,
                    expires_at: session.expires_at,
                    last_seen_at: session.last_seen_at,
                    source_ip: session.source_ip,
                    user_agent: session.user_agent,
                },
            ),
        )
    }

    /// Whether a request credential belongs to the live session with a token. Both values
    /// are hashes.
    pub fn verify_admin_session_csrf(
        &self,
        session_hash: &[u8; 32],
        csrf_hash: &[u8; 32],
        now: Timestamp,
    ) -> (r: AppResult<bool>)
        ensures
            plain_result(r) == Ok::<bool, AppErrorView>(
                any(
                    self@.sessions,
                    live_session_with_csrf(self@.admins, session_hash@, csrf_hash@, now),
                ),
            ),
    {
        let test = |x: &SessionRow| -> (b: bool)
            ensures
                b == live_session_with_csrf(self@.admins, session_hash@, csrf_hash@, now)(x@),
            {
                same_hash(&x.token_hash, session_hash)
                    && same_hash(&x.csrf_hash, csrf_hash)
                    && x.expires_at > now
                    && self.find_enabled_admin(x.admin_id.as_str()).is_some()
            };
        Ok(
            occurs(
                &self.sessions,
                test,
                Ghost(live_session_with_csrf(self@.admins, session_hash@, csrf_hash@, now)),
            ),
        )
    }

    /// Ends the session with a token, and says whether there was one.
    pub fn revoke_admin_session(&mut self, token_hash: &[u8; 32]) -> (r: AppResult<bool>)
        ensures
            settles(
                Ok(
                    (
                        DatabaseView {
                            sessions: others(
                                old(self)@.sessions,
                                session_with_token(token_hash@),
                            ),
                            ..old(self)@
                        },
                        count(old(self)@.sessions, session_with_token(token_hash@)) > 0,
                    ),
                ),
                old(self)@,
                final(self)@,
                plain_result(r),
            ),
    {
        let chosen = |x: &SessionRow| -> (b: bool)
            ensures
                b == session_with_token(token_hash@)(x@),
            { same_hash(&x.token_hash, token_hash) };
        let n: usize = remove(&mut self.sessions, chosen, Ghost(session_with_token(token_hash@)));
        Ok(n > 0)
    }

    /// Ends the sessions of an administrator, and counts them.
    pub fn revoke_admin_sessions(&mut self, admin_id: &str) -> (r: AppResult<usize>)
        ensures
            r is Ok,
            r->Ok_0 == count(old(self)@.sessions, session_of(admin_id@)),
            final(self)@ == (DatabaseView {
                sessions: others(old(self)@.sessions, session_of(admin_id@)),
                ..old(self)@
            }),
    {
        let chosen = |x: &SessionRow| -> (b: bool)
            ensures
                b == session_of(admin_id@)(x@),
            { same(x.admin_id.as_str(), admin_id) };
        Ok(remove(&mut self.sessions, chosen, Ghost(session_of(admin_id@))))
    }

    /// Removes the expired sessions, and counts them.
    pub fn prune_expired_sessions(&mut self, now: Timestamp) -> (r: AppResult<usize>)
        ensures
            r is Ok,
            r->Ok_0 == count(old(self)@.sessions, expired_session(now)),
            final(self)@ == (DatabaseView {
                sessions: others(old(self)@.sessions, expired_session(now)),
                ..old(self)@
            }),
    {
        let chosen = |x: &SessionRow| -> (b: bool)
            ensures
                b == expired_session(now)(x@),
            { x.expires_at <= now };
        Ok(remove(&mut self.sessions, chosen, Ghost(expired_session(now))))
    }
}

/// The identifier of an administrator.
pub open spec fn id_of_admin() -> spec_fn(AdminAuthView) -> Seq<char> {
    |m: AdminAuthView| m.admin.id
}

/// No two administrators have the same identifier.
pub open spec fn admins_distinct(rows: Seq<AdminAuthView>) -> bool {
    distinct_by(rows, id_of_admin())
}

/// Some administrator is an enabled super administrator.
pub open spec fn has_super_admin(rows: Seq<AdminAuthView>) -> bool {
    exists|i: int| 0 <= i < rows.len() && is_super(#[trigger] rows[i])
}

/// Neither a change of rights nor a removal takes away the last enabled super
/// administrator.
pub proof fn a_super_administrator_remains(
    db: DatabaseView,
    id: Seq<char>,
    role: Option<AdminRole>,
    enabled: Option<bool>,
    now: Timestamp,
)
    requires
        admins_distinct(db.admins),
        has_super_admin(db.admins),
    ensures
        update_access_spec(db, id, role, enabled, now) matches Ok(done) ==> has_super_admin(
            done.0.admins,
        ),
        delete_admin_spec(db, id) matches Ok(done) ==> has_super_admin(done.0.admins),
{
    let p = admin_with_id(id);
    first_is_first(db.admins, p);
    any_is_some_row(db.admins, other_super_admin(id));
    let k = choose|i: int| 0 <= i < db.admins.len() && is_super(#[trigger] db.admins[i]);
    if any(db.admins, p) {
        let at = first(db.admins, p)->0;
        let current = db.admins[at];
        let next_role = or_value(role, current.admin.role);
        let next_enabled = or_value(enabled, current.admin.enabled);
        let change = with_access(next_role, next_enabled, now);
        let after = revised(db.admins, p, change);
        let w: int = if any(db.admins, other_super_admin(id)) {
            choose|i: int|
                0 <= i < db.admins.len() && other_super_admin(id)(#[trigger] db.admins[i])
        } else {
            k
        };
        assert(after[w] == if p(db.admins[w]) {
            change(db.admins[w])
        } else {
            db.admins[w]
        });
        if any(db.admins, other_super_admin(id)) {
            assert(is_super(after[w]));
        } else if update_access_spec(db, id, role, enabled, now) is Ok {
            assert(other_super_admin(id)(db.admins[k]) ==> false);
            assert(k == at);
            assert(is_super(after[k]));
        }
        let left = others(db.admins, p);
        if delete_admin_spec(db, id) is Ok {
            if any(db.admins, other_super_admin(id)) {
                assert(db.admins.contains(db.admins[w]));
                others_has(db.admins, p, db.admins[w]);
                let i = choose|i: int| 0 <= i < left.len() && left[i] == db.admins[w];
                assert(is_super(left[i]));
            } else {
                assert(k == at);
            }
        }
    }
}

/// Nobody is let in by a session that has expired, or whose administrator is disabled or
/// gone.
pub proof fn only_live_sessions_are_let_in(
    db: DatabaseView,
    token_hash: Seq<u8>,
    now: Timestamp,
)
    ensures
        authenticate_session_spec(db, token_hash, now) matches Ok((_, Some(_))) ==> exists|i: int, j: int|
            #![trigger db.sessions[i], db.admins[j]]
            0 <= i < db.sessions.len() && 0 <= j < db.admins.len() && db.sessions[i].token_hash
                == token_hash && db.sessions[i].expires_at > now && db.admins[j].admin.id
                == db.sessions[i].admin_id && db.admins[j].admin.enabled,
{
    let p = live_session(db.admins, token_hash, now);
    first_is_first(db.sessions, p);
    if first(db.sessions, p) is Some {
        let i = first(db.sessions, p)->0;
        let q = enabled_admin(db.sessions[i].admin_id);
        first_is_first(db.admins, q);
        let j = first(db.admins, q)->0;
        assert(db.sessions[i].token_hash == token_hash && db.admins[j].admin.enabled);
    }
}

} // verus!

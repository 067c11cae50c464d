//! User accounts and session-based authentication: login, session
//! validation and logout, plus account administration (creation, partial
//! update, password rotation, soft deactivation).

use vstd::prelude::*;

use crate::db::{
    bcrypt_verifies, expiry_at, has_session, has_user_id, has_user_named, hash_password,
    lemma_session_unique, lemma_sessions_where, lemma_user_id_unique, lemma_user_named_unique,
    new_uuid, session_valid, session_with, sessions_distinct, sessions_view, sessions_where,
    sessions_without_token, sessions_without_user, user_id_idx, user_named, user_named_idx,
    user_with_id, users_view,
    verify_password, Database, DbV, SessV, SessionRow, UserRow, UserV, SESSION_LIFETIME_SECONDS,
};
use crate::AppError;

verus! {

/// Role of a user account: a closed set of authorization levels.
#[derive(Clone, Copy, Debug, PartialEq, Eq, Structural)]
pub enum Role {
    Admin,
    LeadInspector,
    Inspector,
    Viewer,
}

pub open spec fn role_label_spec(r: Role) -> Seq<char> {
    match r {
        Role::Admin => "admin"@,
        Role::LeadInspector => "lead_inspector"@,
        Role::Inspector => "inspector"@,
        Role::Viewer => "viewer"@,
    }
}

impl Role {
    /// The stored textual name of the role.
    pub fn label(self) -> (r: &'static str)
        ensures
            r@ == role_label_spec(self),
    {
        match self {
            Role::Admin => "admin",
            Role::LeadInspector => "lead_inspector",
            Role::Inspector => "inspector",
            Role::Viewer => "viewer",
        }
    }
}

/// Public projection of a user account: everything but the credential hash.
#[derive(Debug)]
pub struct User {
    pub id: String,
    pub username: String,
    pub full_name: String,
    pub role: Role,
    pub active: bool,
    pub created_at: i64,
    pub updated_at: i64,
}

/// What a successful login hands back: the fresh token and the account.
#[derive(Debug)]
pub struct SessionInfo {
    pub token: String,
    pub user: User,
}

#[derive(Debug)]
pub struct CreateUserRequest {
    pub username: String,
    pub full_name: String,
    pub role: Role,
    pub password: String,
}

/// A partial update: absent fields are left untouched.
#[derive(Debug)]
pub struct UpdateUserRequest {
    pub full_name: Option<String>,
    pub role: Option<Role>,
    pub active: Option<bool>,
}

// ── Lookup helpers ──

pub(crate) fn find_user_by_name(users: &Vec<UserRow>, name: &String) -> (r: Option<usize>)
    ensures
        (match r {
            Some(i) => i < users@.len() && users_view(users@)[i as int].username == name@,
            None => !has_user_named(users_view(users@), name@),
        }),
{
    let mut i: usize = 0;
    while i < users.len()
        invariant
            i <= users@.len(),
            forall|k: int| 0 <= k < i ==> users_view(users@)[k].username != name@,
        decreases users@.len() - i,
    {
        if users[i].username == *name {
            return Some(i);
        }
        i = i + 1;
    }
    proof {
        if has_user_named(users_view(users@), name@) {
            let w = choose|w: int|
                0 <= w < users_view(users@).len() && #[trigger] users_view(users@)[w].username
                    == name@;
            assert(users_view(users@)[w].username != name@);
        }
    }
    None
}

pub(crate) fn find_user_by_id(users: &Vec<UserRow>, id: &String) -> (r: Option<usize>)
    ensures
        (match r {
            Some(i) => i < users@.len() && users_view(users@)[i as int].id == id@,
            None => !has_user_id(users_view(users@), id@),
        }),
{
    let mut i: usize = 0;
    while i < users.len()
        invariant
            i <= users@.len(),
            forall|k: int| 0 <= k < i ==> users_view(users@)[k].id != id@,
        decreases users@.len() - i,
    {
        if users[i].id == *id {
            return Some(i);
        }
        i = i + 1;
    }
    proof {
        if has_user_id(users_view(users@), id@) {
            let w = choose|w: int|
                0 <= w < users_view(users@).len() && #[trigger] users_view(users@)[w].id == id@;
            assert(users_view(users@)[w].id != id@);
        }
    }
    None
}

pub(crate) fn find_session(sessions: &Vec<SessionRow>, token: &String) -> (r: Option<usize>)
    ensures
        (match r {
            Some(i) => i < sessions@.len() && sessions_view(sessions@)[i as int].token == token@,
            None => !has_session(sessions_view(sessions@), token@),
        }),
{
    let mut i: usize = 0;
    while i < sessions.len()
        invariant
            i <= sessions@.len(),
            forall|k: int| 0 <= k < i ==> sessions_view(sessions@)[k].token != token@,
        decreases sessions@.len() - i,
    {
        if sessions[i].token == *token {
            return Some(i);
        }
        i = i + 1;
    }
    proof {
        if has_session(sessions_view(sessions@), token@) {
            let w = choose|w: int|
                0 <= w < sessions_view(sessions@).len() && #[trigger] sessions_view(
                    sessions@,
                )[w].token == token@;
            assert(sessions_view(sessions@)[w].token != token@);
        }
    }
    None
}

// ── The public projection ──

/// The account `p` is the public projection of the stored row `u`.
pub open spec fn user_public(u: UserV, p: User) -> bool {
    &&& p.id@ == u.id
    &&& p.username@ == u.username
    &&& p.full_name@ == u.full_name
    &&& p.role == u.role
    &&& p.active == u.active
    &&& p.created_at as int == u.created_at
    &&& p.updated_at as int == u.updated_at
}

pub(crate) fn public_user(row: &UserRow) -> (p: User)
    ensures
        user_public(row@, p),
{
    User {
        id: row.id.clone(),
        username: row.username.clone(),
        full_name: row.full_name.clone(),
        role: row.role,
        active: row.active,
        created_at: row.created_at,
        updated_at: row.updated_at,
    }
}

// ── Login outcome predicates ──

/// No account bears the username.
pub open spec fn login_unknown(d: DbV, name: Seq<char>) -> bool {
    !has_user_named(d.users, name)
}

/// The account exists but is deactivated.
pub open spec fn login_disabled(d: DbV, name: Seq<char>) -> bool {
    has_user_named(d.users, name) && !user_named(d.users, name).active
}

/// The account exists and is active, but the password does not verify.
pub open spec fn login_wrong_password(d: DbV, name: Seq<char>, pw: Seq<char>) -> bool {
    &&& has_user_named(d.users, name)
    &&& user_named(d.users, name).active
    &&& !bcrypt_verifies(pw, user_named(d.users, name).password_hash)
}

/// The credentials are accepted: active account, verifying password.
pub open spec fn login_accepts(d: DbV, name: Seq<char>, pw: Seq<char>) -> bool {
    &&& has_user_named(d.users, name)
    &&& user_named(d.users, name).active
    &&& bcrypt_verifies(pw, user_named(d.users, name).password_hash)
}

/// Everything but the session table is unchanged.
pub open spec fn same_except_sessions(d0: DbV, d1: DbV) -> bool {
    &&& d1.clock == d0.clock
    &&& d1.users == d0.users
    &&& d1.inspections == d0.inspections
    &&& d1.responses == d0.responses
    &&& d1.audit_log == d0.audit_log
    &&& d1.next_audit_id == d0.next_audit_id
}

/// Shape of a successful login: one fresh session row appended, expiring one
/// lifetime after "now", owned by the account named; the reply carries the
/// new token and the account's public projection.
pub open spec fn login_ok_shape(d0: DbV, d1: DbV, name: Seq<char>, info: SessionInfo) -> bool {
    &&& same_except_sessions(d0, d1)
    &&& user_public(user_named(d0.users, name), info.user)
    &&& !has_session(d0.sessions, info.token@)
    &&& d1.sessions == d0.sessions.push(
        (SessV {
            token: info.token@,
            user_id: user_named(d0.users, name).id,
            created_at: d0.clock,
            expires_at: expiry_at(d0.clock),
        }),
    )
}

// ── Authentication ──

/// Verifies the credentials and, on success, issues a fresh session expiring
/// one lifetime from now. An unknown username and a wrong password are
/// deliberately indistinguishable; a deactivated account is reported as
/// such, and is checked before the password.
pub fn login(db: &mut Database, username: &str, password: &str) -> (r: Result<
    SessionInfo,
    AppError,
>)
    requires
        old(db).wf(),
    ensures
        final(db).wf(),
        login_unknown(old(db)@, username@) ==> (r matches Err(AppError::InvalidCredentials))
            && final(db)@ == old(db)@,
        login_disabled(old(db)@, username@) ==> (r matches Err(AppError::AccountDisabled))
            && final(db)@ == old(db)@,
        login_wrong_password(old(db)@, username@, password@) ==> (r matches Err(
            AppError::InvalidCredentials,
        )) && final(db)@ == old(db)@,
        login_accepts(old(db)@, username@, password@) ==> (r is Ok || ((r matches Err(
            AppError::StorageFailure,
        )) && final(db)@ == old(db)@)),
        r matches Ok(info) ==> login_accepts(old(db)@, username@, password@) && login_ok_shape(
            old(db)@,
            final(db)@,
            username@,
            info,
        ),
{
    let uname = username.to_owned();
    let idx = match find_user_by_name(&db.users, &uname) {
        None => {
            return Err(AppError::InvalidCredentials);
        },
        Some(i) => i,
    };
    proof {
        lemma_user_named_unique(old(db)@.users, username@, idx as int);
    }
    if !db.users[idx].active {
        return Err(AppError::AccountDisabled);
    }
    let pw_ok = verify_password(password, db.users[idx].password_hash.as_str());
    if !pw_ok {
        return Err(AppError::InvalidCredentials);
    }
    let token = new_uuid();
    match find_session(&db.sessions, &token) {
        Some(_) => {
            return Err(AppError::StorageFailure);
        },
        None => {},
    }
    let expires: i64 = if db.clock > i64::MAX - SESSION_LIFETIME_SECONDS {
        i64::MAX
    } else {
        db.clock + SESSION_LIFETIME_SECONDS
    };
    let srow = SessionRow {
        token: token.clone(),
        user_id: db.users[idx].id.clone(),
        created_at: db.clock,
        expires_at: expires,
    };
    let ghost sv = srow@;
    let ghost d0 = old(db)@;
    db.sessions.push(srow);
    let p = public_user(&db.users[idx]);
    proof {
        assert(db@.sessions =~= d0.sessions.push(sv));
        assert forall|i: int, j: int| 0 <= i < j < db@.sessions.len() implies (
        #[trigger] db@.sessions[i]).token != (#[trigger] db@.sessions[j]).token by {
            if j == db@.sessions.len() - 1 {
                if d0.sessions[i].token == token@ {
                    assert(has_session(d0.sessions, token@));
                }
            }
        }
        assert(db.wf());
    }
    Ok(SessionInfo { token, user: p })
}

/// Reports the owning account of a valid session; a token that is unknown,
/// expired, or whose owner is deactivated fails identically. Read-only.
pub fn validate_session(db: &Database, token: &str) -> (r: Result<User, AppError>)
    requires
        db.wf(),
    ensures
        r is Ok <==> session_valid(db@, token@),
        r matches Ok(u) ==> user_public(
            user_with_id(db@.users, session_with(db@.sessions, token@).user_id),
            u,
        ),
        r matches Err(e) ==> e matches AppError::SessionInvalid,
{
    let tok = token.to_owned();
    let sidx = match find_session(&db.sessions, &tok) {
        None => {
            return Err(AppError::SessionInvalid);
        },
        Some(i) => i,
    };
    proof {
        lemma_session_unique(db@.sessions, token@, sidx as int);
    }
    if db.sessions[sidx].expires_at <= db.clock {
        return Err(AppError::SessionInvalid);
    }
    let uidx = match find_user_by_id(&db.users, &db.sessions[sidx].user_id) {
        None => {
            return Err(AppError::SessionInvalid);
        },
        Some(j) => j,
    };
    proof {
        lemma_user_id_unique(db@.users, db@.sessions[sidx as int].user_id, uidx as int);
    }
    if !db.users[uidx].active {
        return Err(AppError::SessionInvalid);
    }
    Ok(public_user(&db.users[uidx]))
}

/// Deletes the session bearing the token; deleting an absent token is not
/// an error.
pub fn logout(db: &mut Database, token: &str) -> (r: Result<(), AppError>)
    requires
        old(db).wf(),
    ensures
        final(db).wf(),
        r is Ok,
        final(db)@ == (DbV {
            sessions: sessions_without_token(old(db)@.sessions, token@),
            ..old(db)@
        }),
{
    let tok = token.to_owned();
    let ghost all = old(db)@.sessions;
    let mut kept: Vec<SessionRow> = Vec::new();
    let mut i: usize = 0;
    while i < db.sessions.len()
        invariant
            all == sessions_view(db.sessions@),
            tok@ == token@,
            i <= db.sessions@.len(),
            sessions_view(kept@) =~= sessions_without_token(all.subrange(0, i as int), token@),
        decreases db.sessions@.len() - i,
    {
        proof {
            assert(all.subrange(0, i + 1).drop_last() =~= all.subrange(0, i as int));
            assert(all.subrange(0, i + 1).last() == all[i as int]);
        }
        if !(db.sessions[i].token == tok) {
            kept.push(db.sessions[i].clone());
        }
        i = i + 1;
    }
    proof {
        assert(all.subrange(0, all.len() as int) =~= all);
        lemma_sessions_where(all, |x: SessV| x.token != token@);
    }
    db.sessions = kept;
    proof {
        assert(db@ == (DbV { sessions: sessions_without_token(old(db)@.sessions, token@), ..old(
            db,
        )@ }));
    }
    Ok(())
}

// ── Account administration ──

/// Everything but the user table is unchanged.
pub open spec fn same_except_users(d0: DbV, d1: DbV) -> bool {
    &&& d1.clock == d0.clock
    &&& d1.sessions == d0.sessions
    &&& d1.inspections == d0.inspections
    &&& d1.responses == d0.responses
    &&& d1.audit_log == d0.audit_log
    &&& d1.next_audit_id == d0.next_audit_id
}

/// Shape of a successful account creation: one active row appended, carrying
/// the requested identity, a fresh id, and a hash the password verifies
/// against; the reply is its public projection.
pub open spec fn create_user_ok(d0: DbV, d1: DbV, req: CreateUserRequest, u: User) -> bool {
    &&& same_except_users(d0, d1)
    &&& !has_user_named(d0.users, req.username@)
    &&& d1.users.len() == d0.users.len() + 1
    &&& d1.users.drop_last() == d0.users
    &&& d1.users.last().id == u.id@
    &&& !has_user_id(d0.users, u.id@)
    &&& d1.users.last().username == req.username@
    &&& d1.users.last().full_name == req.full_name@
    &&& d1.users.last().role == req.role
    &&& d1.users.last().active
    &&& d1.users.last().created_at == d0.clock
    &&& d1.users.last().updated_at == d0.clock
    &&& bcrypt_verifies(req.password@, d1.users.last().password_hash)
    &&& user_public(d1.users.last(), u)
}

/// Creates an account with a hashed credential; the username must be free.
/// The caller is expected to have authorized an administrator first.
pub fn create_user(db: &mut Database, req: &CreateUserRequest) -> (r: Result<User, AppError>)
    requires
        old(db).wf(),
    ensures
        final(db).wf(),
        same_except_users(old(db)@, final(db)@),
        has_user_named(old(db)@.users, req.username@) ==> (r matches Err(
            AppError::DuplicateUsername,
        )) && final(db)@ == old(db)@,
        !has_user_named(old(db)@.users, req.username@) ==> (r is Ok || ((r matches Err(
            AppError::StorageFailure,
        )) && final(db)@ == old(db)@)),
        r matches Ok(u) ==> create_user_ok(old(db)@, final(db)@, *req, u),
{
    match find_user_by_name(&db.users, &req.username) {
        Some(_) => {
            return Err(AppError::DuplicateUsername);
        },
        None => {},
    }
    let hash = match hash_password(req.password.as_str(), 8) {
        Ok(h) => h,
        Err(_) => {
            return Err(AppError::StorageFailure);
        },
    };
    let id = new_uuid();
    match find_user_by_id(&db.users, &id) {
        Some(_) => {
            return Err(AppError::StorageFailure);
        },
        None => {},
    }
    let row = UserRow {
        id,
        username: req.username.clone(),
        full_name: req.full_name.clone(),
        role: req.role,
        password_hash: hash,
        active: true,
        created_at: db.clock,
        updated_at: db.clock,
    };
    let p = public_user(&row);
    let ghost uv = row@;
    db.users.push(row);
    proof {
        assert(db@.users =~= old(db)@.users.push(uv));
        assert(db@.users.drop_last() =~= old(db)@.users);
        assert forall|i: int, j: int| 0 <= i < j < db@.users.len() implies (
        #[trigger] db@.users[i]).id != (#[trigger] db@.users[j]).id && db@.users[i].username
            != db@.users[j].username by {
            if j == db@.users.len() - 1 {
                if old(db)@.users[i].id == uv.id {
                    assert(has_user_id(old(db)@.users, uv.id));
                }
                if old(db)@.users[i].username == uv.username {
                    assert(has_user_named(old(db)@.users, uv.username));
                }
            }
        }
        assert(db.wf());
    }
    Ok(p)
}

/// The request names at least one field to change.
pub open spec fn update_touches(req: UpdateUserRequest) -> bool {
    req.full_name is Some || req.role is Some || req.active is Some
}

/// The row `u` with the present fields of the request applied and the
/// update instant stamped.
pub open spec fn applied_update(u: UserV, req: UpdateUserRequest, now: int) -> UserV {
    UserV {
        full_name: (match req.full_name {
            Some(n) => n@,
            None => u.full_name,
        }),
        role: (match req.role {
            Some(ro) => ro,
            None => u.role,
        }),
        active: (match req.active {
            Some(a) => a,
            None => u.active,
        }),
        updated_at: now,
        ..u
    }
}

/// Shape of a partial account update: when the account exists and the
/// request names a field, exactly those fields change and the update
/// instant is stamped; otherwise nothing changes.
pub open spec fn user_updated(d0: DbV, d1: DbV, uid: Seq<char>, req: UpdateUserRequest) -> bool {
    &&& same_except_users(d0, d1)
    &&& !(has_user_id(d0.users, uid) && update_touches(req)) ==> d1 == d0
    &&& has_user_id(d0.users, uid) && update_touches(req) ==> d1.users == d0.users.update(
        user_id_idx(d0.users, uid),
        applied_update(user_with_id(d0.users, uid), req, d0.clock),
    )
}

/// Applies only the fields present in the request; absent fields are left
/// untouched. Updating an unknown id changes nothing and is not an error.
pub fn update_user(db: &mut Database, user_id: &str, req: &UpdateUserRequest) -> (r: Result<
    (),
    AppError,
>)
    requires
        old(db).wf(),
    ensures
        final(db).wf(),
        r is Ok,
        user_updated(old(db)@, final(db)@, user_id@, *req),
{
    let uid = user_id.to_owned();
    let idx = match find_user_by_id(&db.users, &uid) {
        None => {
            return Ok(());
        },
        Some(i) => i,
    };
    proof {
        lemma_user_id_unique(old(db)@.users, user_id@, idx as int);
    }
    let touches = req.full_name.is_some() || req.role.is_some() || req.active.is_some();
    if !touches {
        return Ok(());
    }
    let mut row = db.users.remove(idx);
    match &req.full_name {
        Some(n) => {
            row.full_name = n.clone();
        },
        None => {},
    }
    match &req.role {
        Some(ro) => {
            row.role = *ro;
        },
        None => {},
    }
    match &req.active {
        Some(a) => {
            row.active = *a;
        },
        None => {},
    }
    row.updated_at = db.clock;
    let ghost nv = row@;
    db.users.insert(idx, row);
    proof {
        let ghost prev = old(db)@.users;
        assert(nv == applied_update(user_with_id(prev, user_id@), *req, old(db)@.clock));
        assert(db@.users =~= prev.update(idx as int, nv));
        assert forall|i: int, j: int| 0 <= i < j < db@.users.len() implies (
        #[trigger] db@.users[i]).id != (#[trigger] db@.users[j]).id && db@.users[i].username
            != db@.users[j].username by {
            assert(prev[i].id != prev[j].id && prev[i].username != prev[j].username);
        }
        assert(db.wf());
    }
    Ok(())
}

/// Shape of a credential rotation: when the account exists, only its hash
/// — which the new password verifies against — and its update instant
/// change; otherwise nothing changes. Outstanding sessions are untouched.
pub open spec fn password_rotated(d0: DbV, d1: DbV, uid: Seq<char>, pw: Seq<char>) -> bool {
    &&& same_except_users(d0, d1)
    &&& !has_user_id(d0.users, uid) ==> d1 == d0
    &&& has_user_id(d0.users, uid) ==> {
        &&& d1.users.len() == d0.users.len()
        &&& bcrypt_verifies(pw, d1.users[user_id_idx(d0.users, uid)].password_hash)
        &&& d1.users == d0.users.update(
            user_id_idx(d0.users, uid),
            (UserV {
                password_hash: d1.users[user_id_idx(d0.users, uid)].password_hash,
                updated_at: d0.clock,
                ..user_with_id(d0.users, uid)
            }),
        )
    }
}

/// Re-hashes and overwrites the credential. Outstanding sessions are left
/// untouched by design. Rotating an unknown id changes nothing.
pub fn change_password(db: &mut Database, user_id: &str, new_password: &str) -> (r: Result<
    (),
    AppError,
>)
    requires
        old(db).wf(),
    ensures
        final(db).wf(),
        r matches Err(e) ==> e matches AppError::StorageFailure && final(db)@ == old(db)@,
        r is Ok ==> password_rotated(old(db)@, final(db)@, user_id@, new_password@),
{
    let hash = match hash_password(new_password, 8) {
        Ok(h) => h,
        Err(_) => {
            return Err(AppError::StorageFailure);
        },
    };
    let uid = user_id.to_owned();
    let idx = match find_user_by_id(&db.users, &uid) {
        None => {
            return Ok(());
        },
        Some(i) => i,
    };
    proof {
        lemma_user_id_unique(old(db)@.users, user_id@, idx as int);
    }
    let mut row = db.users.remove(idx);
    row.password_hash = hash;
    row.updated_at = db.clock;
    let ghost nv = row@;
    db.users.insert(idx, row);
    proof {
        let ghost prev = old(db)@.users;
        assert(db@.users =~= prev.update(idx as int, nv));
        assert forall|i: int, j: int| 0 <= i < j < db@.users.len() implies (
        #[trigger] db@.users[i]).id != (#[trigger] db@.users[j]).id && db@.users[i].username
            != db@.users[j].username by {
            assert(prev[i].id != prev[j].id && prev[i].username != prev[j].username);
        }
        assert(db.wf());
    }
    Ok(())
}

/// Returns every account, active or not, in creation order.
pub fn list_users(db: &Database) -> (r: Result<Vec<User>, AppError>)
    requires
        db.wf(),
    ensures
        r is Ok,
        r matches Ok(v) ==> v@.len() == db@.users.len() && (forall|k: int|
            0 <= k < v@.len() ==> user_public(db@.users[k], #[trigger] v@[k])),
{
    let mut v: Vec<User> = Vec::new();
    let mut i: usize = 0;
    while i < db.users.len()
        invariant
            i <= db.users@.len(),
            v@.len() == i,
            forall|k: int| 0 <= k < i ==> user_public(db@.users[k], #[trigger] v@[k]),
        decreases db.users@.len() - i,
    {
        let p = public_user(&db.users[i]);
        v.push(p);
        i = i + 1;
    }
    Ok(v)
}

/// Shape of a soft deactivation: the account (if it exists) is marked
/// inactive, and every session it owns is deleted in the same operation.
pub open spec fn deactivated(d0: DbV, d1: DbV, uid: Seq<char>) -> bool {
    &&& d1.sessions == sessions_without_user(d0.sessions, uid)
    &&& d1.users == (if has_user_id(d0.users, uid) {
        d0.users.update(
            user_id_idx(d0.users, uid),
            (UserV { active: false, updated_at: d0.clock, ..user_with_id(d0.users, uid) }),
        )
    } else {
        d0.users
    })
    &&& d1.clock == d0.clock
    &&& d1.inspections == d0.inspections
    &&& d1.responses == d0.responses
    &&& d1.audit_log == d0.audit_log
    &&& d1.next_audit_id == d0.next_audit_id
}

/// Soft-deactivates the account and deletes all its sessions in the same
/// logical operation, so no already-issued token can keep acting. The row
/// itself is never physically deleted.
pub fn delete_user(db: &mut Database, user_id: &str) -> (r: Result<(), AppError>)
    requires
        old(db).wf(),
    ensures
        final(db).wf(),
        r is Ok,
        deactivated(old(db)@, final(db)@, user_id@),
{
    let uid = user_id.to_owned();
    let ghost all = old(db)@.sessions;
    let mut kept: Vec<SessionRow> = Vec::new();
    let mut i: usize = 0;
    while i < db.sessions.len()
        invariant
            all == sessions_view(db.sessions@),
            uid@ == user_id@,
            i <= db.sessions@.len(),
            sessions_view(kept@) =~= sessions_without_user(all.subrange(0, i as int), user_id@),
        decreases db.sessions@.len() - i,
    {
        proof {
            assert(all.subrange(0, i + 1).drop_last() =~= all.subrange(0, i as int));
            assert(all.subrange(0, i + 1).last() == all[i as int]);
        }
        if !(db.sessions[i].user_id == uid) {
            kept.push(db.sessions[i].clone());
        }
        i = i + 1;
    }
    proof {
        assert(all.subrange(0, all.len() as int) =~= all);
        lemma_sessions_where(all, |x: SessV| x.user_id != user_id@);
    }
    db.sessions = kept;
    let idx = match find_user_by_id(&db.users, &uid) {
        None => {
            return Ok(());
        },
        Some(i) => i,
    };
    proof {
        lemma_user_id_unique(old(db)@.users, user_id@, idx as int);
    }
    let mut row = db.users.remove(idx);
    row.active = false;
    row.updated_at = db.clock;
    let ghost nv = row@;
    db.users.insert(idx, row);
    proof {
        let ghost prev = old(db)@.users;
        assert(db@.users =~= prev.update(idx as int, nv));
        assert forall|i: int, j: int| 0 <= i < j < db@.users.len() implies (
        #[trigger] db@.users[i]).id != (#[trigger] db@.users[j]).id && db@.users[i].username
            != db@.users[j].username by {
            assert(prev[i].id != prev[j].id && prev[i].username != prev[j].username);
        }
        assert(db.wf());
    }
    Ok(())
}

// ── Laws of authentication ──

/// For all valid credentials of an active account, a login followed
/// immediately by a session validation on the returned token yields the
/// same user identity. (At the very end of representable time a session
/// would be born expired; such a clock is excluded.)
pub proof fn lemma_login_then_validate_same_user(
    d0: DbV,
    d1: DbV,
    name: Seq<char>,
    info: SessionInfo,
)
    requires
        d0.wf(),
        d0.clock < i64::MAX as int,
        has_user_named(d0.users, name),
        user_named(d0.users, name).active,
        login_ok_shape(d0, d1, name, info),
    ensures
        session_valid(d1, info.token@),
        session_with(d1.sessions, info.token@).user_id == info.user.id@,
        user_public(user_with_id(d1.users, session_with(d1.sessions, info.token@).user_id), info.user),
{
    let sv = SessV {
        token: info.token@,
        user_id: user_named(d0.users, name).id,
        created_at: d0.clock,
        expires_at: expiry_at(d0.clock),
    };
    assert(d1.sessions == d0.sessions.push(sv));
    assert(sessions_distinct(d1.sessions)) by {
        assert forall|i: int, j: int| 0 <= i < j < d1.sessions.len() implies (
        #[trigger] d1.sessions[i]).token != (#[trigger] d1.sessions[j]).token by {
            if j == d1.sessions.len() - 1 {
                if d0.sessions[i].token == info.token@ {
                    assert(has_session(d0.sessions, info.token@));
                }
            }
        }
    }
    lemma_session_unique(d1.sessions, info.token@, d1.sessions.len() - 1);
    assert(session_with(d1.sessions, info.token@) == sv);
    let ui = user_named_idx(d0.users, name);
    assert(0 <= ui < d0.users.len() && d0.users[ui].username == name);
    lemma_user_id_unique(d1.users, user_named(d0.users, name).id, ui);
}

/// A deliberately expired token never validates, whatever the owning
/// account's active flag.
pub proof fn lemma_expired_session_invalid(d: DbV, token: Seq<char>)
    requires
        d.wf(),
        has_session(d.sessions, token),
        session_with(d.sessions, token).expires_at <= d.clock,
    ensures
        !session_valid(d, token),
{
}

/// Deactivating a user invalidates all of that user's outstanding sessions:
/// every token the account owned before the deactivation fails to validate
/// afterwards.
pub proof fn lemma_deactivation_invalidates_sessions(
    d0: DbV,
    d1: DbV,
    uid: Seq<char>,
    token: Seq<char>,
)
    requires
        d0.wf(),
        deactivated(d0, d1, uid),
        has_session(d0.sessions, token),
        session_with(d0.sessions, token).user_id == uid,
    ensures
        !session_valid(d1, token),
{
    lemma_sessions_where(d0.sessions, |x: SessV| x.user_id != uid);
    if has_session(d1.sessions, token) {
        let k = choose|k: int|
            0 <= k < d1.sessions.len() && #[trigger] d1.sessions[k].token == token;
        assert(d0.sessions.contains(d1.sessions[k]));
        let m = choose|m: int| 0 <= m < d0.sessions.len() && d0.sessions[m] == d1.sessions[k];
        lemma_session_unique(d0.sessions, token, m);
        assert(d0.sessions[m].user_id == uid);
        assert(d1.sessions[k].user_id != uid);
    }
}

} // verus!

//! The command layer every caller goes through: each operation first passes
//! the authorization chokepoint (token to user and role), then the relevant
//! component, and finally emits one audit-trail entry describing itself.

use vstd::prelude::*;

use crate::audit::{
    count_audit, log_action, log_user_action, logged, matching_rev, query_audit, query_end,
    query_start, AuditEntry, AuditFilter,
};
use crate::db::{
    has_insp, has_resp, has_user_id, has_user_named, insp_with, session_owner, session_valid,
    session_with, sessions_without_token, user_id_idx, Database, DbV,
};
use crate::grid::{total_items, GridInfo, Section};
use crate::grids;
use crate::grids::known_grid;
use crate::storage::{
    create_inspection, create_ok_shape, delete_inspection, delete_post, get_inspection,
    get_responses, insps_matching, list_inspections, meta_post, opt_str_view, resps_of,
    save_ok_shape, save_response, saved_matches, saved_resp_matches, set_status, status_post,
    update_inspection_meta, CreateInspectionRequest, SavedInspection, SavedResponse, Status,
};
use crate::users::{
    change_password, create_user, create_user_ok, deactivated, delete_user, list_users, login,
    login_accepts, login_disabled, login_ok_shape, login_unknown, login_wrong_password, logout,
    password_rotated, role_label_spec, update_user, user_public, user_updated, validate_session,
    CreateUserRequest, Role, SessionInfo, UpdateUserRequest, User,
};
use crate::AppError;

verus! {

// ── Grid summaries ──

/// Compact presentation of one grid for selection lists.
#[derive(Debug)]
pub struct GridSummary {
    pub id: String,
    pub name: String,
    pub code: String,
    pub description: String,
    pub icon: String,
    pub color: String,
    pub criteria_count: usize,
    pub section_count: usize,
}

/// Summarises every available grid.
pub fn list_grids() -> (r: Vec<GridSummary>)
    ensures
        r@.len() == 1,
        r@[0].id@ == "grossiste"@,
        r@[0].criteria_count == 100,
        r@[0].section_count == 18,
{
    let grids = grids::all();
    let g = &grids[0];
    let mut count: usize = 0;
    let mut si: usize = 0;
    while si < g.sections.len()
        invariant
            si <= g.sections@.len(),
            g.sections@.len() == 18,
            total_items(g.sections@) == 100,
            count == total_items(g.sections@.subrange(0, si as int)),
        decreases g.sections@.len() - si,
    {
        proof {
            assert(g.sections@.subrange(0, si + 1).drop_last() =~= g.sections@.subrange(
                0,
                si as int,
            ));
            assert(g.sections@.subrange(0, si + 1).last() == g.sections@[si as int]);
            crate::grid::lemma_total_items_prefix(g.sections@, si + 1);
        }
        count = count + g.sections[si].items.len();
        si = si + 1;
    }
    proof {
        assert(g.sections@.subrange(0, g.sections@.len() as int) =~= g.sections@);
    }
    let summary = GridSummary {
        id: g.id.clone(),
        name: g.name.clone(),
        code: g.code.clone(),
        description: g.description.clone(),
        icon: g.icon.clone(),
        color: g.color.clone(),
        criteria_count: count,
        section_count: g.sections.len(),
    };
    let mut r: Vec<GridSummary> = Vec::new();
    r.push(summary);
    r
}

/// Fetches one grid by identifier.
pub fn get_grid(grid_id: &str) -> (r: Option<GridInfo>)
    ensures
        r is Some <==> known_grid(grid_id@),
        r matches Some(g) ==> g.id@ == grid_id@ && g.sections@.len() == 18 && total_items(
            g.sections@,
        ) == 100,
{
    grids::find(grid_id)
}

/// The sections of one grid; an unknown grid yields none.
pub fn get_sections(grid_id: &str) -> (r: Vec<Section>)
    ensures
        known_grid(grid_id@) ==> r@.len() == 18,
        !known_grid(grid_id@) ==> r@.len() == 0,
{
    match grids::find(grid_id) {
        Some(g) => g.sections,
        None => Vec::new(),
    }
}

// ── The authorization chokepoint ──

/// Validates the session and requires the owner's role to be one of the
/// allowed set; the failure carries that set. Every administrative
/// operation goes through here.
pub fn require_role(db: &Database, token: &str, roles: &[Role]) -> (r: Result<User, AppError>)
    requires
        db.wf(),
    ensures
        r is Ok <==> session_valid(db@, token@) && roles@.contains(
            session_owner(db@, token@).role,
        ),
        r matches Ok(u) ==> user_public(session_owner(db@, token@), u),
        !session_valid(db@, token@) ==> (r matches Err(AppError::SessionInvalid)),
        session_valid(db@, token@) && !roles@.contains(session_owner(db@, token@).role) ==> (
        r matches Err(AppError::Forbidden(rs)) && rs@ == roles@),
{
    let u = match validate_session(db, token) {
        Err(e) => {
            return Err(e);
        },
        Ok(u) => u,
    };
    let mut i: usize = 0;
    while i < roles.len()
        invariant
            i <= roles@.len(),
            session_valid(db@, token@),
            user_public(session_owner(db@, token@), u),
            forall|k: int| 0 <= k < i ==> roles@[k] != u.role,
        decreases roles@.len() - i,
    {
        if roles[i] == u.role {
            proof {
                assert(roles@[i as int] == session_owner(db@, token@).role);
                assert(roles@.contains(session_owner(db@, token@).role));
            }
            return Ok(u);
        }
        i = i + 1;
    }
    proof {
        if roles@.contains(session_owner(db@, token@).role) {
            let w = choose|w: int|
                0 <= w < roles@.len() && roles@[w] == session_owner(db@, token@).role;
            assert(roles@[w] != u.role);
        }
    }
    let mut rs: Vec<Role> = Vec::new();
    let mut j: usize = 0;
    while j < roles.len()
        invariant
            j <= roles@.len(),
            session_valid(db@, token@),
            !roles@.contains(session_owner(db@, token@).role),
            rs@ =~= roles@.subrange(0, j as int),
        decreases roles@.len() - j,
    {
        rs.push(roles[j]);
        proof {
            assert(rs@ =~= roles@.subrange(0, j + 1));
        }
        j = j + 1;
    }
    proof {
        assert(rs@ =~= roles@);
    }
    Err(AppError::Forbidden(rs))
}

// ── Authentication commands ──

/// Logs in and records the event in the audit trail.
pub fn cmd_login(db: &mut Database, username: &str, password: &str) -> (r: Result<
    SessionInfo,
    AppError,
>)
    requires
        old(db).wf(),
    ensures
        final(db).wf(),
        login_unknown(old(db)@, username@) ==> (r matches Err(AppError::InvalidCredentials))
            && final(db)@ == old(db)@,
        login_disabled(old(db)@, username@) ==> (r matches Err(AppError::AccountDisabled))
            && final(db)@ == old(db)@,
        login_wrong_password(old(db)@, username@, password@) ==> (r matches Err(
            AppError::InvalidCredentials,
        )) && final(db)@ == old(db)@,
        login_accepts(old(db)@, username@, password@) ==> (r is Ok || ((r matches Err(
            AppError::StorageFailure,
        )) && final(db)@ == old(db)@)),
        r matches Ok(info) ==> login_accepts(old(db)@, username@, password@) && (exists|dmid: DbV|
            login_ok_shape(old(db)@, dmid, username@, info) && logged(
                dmid,
                final(db)@,
                Some(info.user.id@),
                Some(info.user.username@),
                "LOGIN"@,
                Some("session"@),
                Some(info.token@),
                None,
            )),
{
    let info = match login(db, username, password) {
        Err(e) => {
            return Err(e);
        },
        Ok(i) => i,
    };
    let ghost dmid = db@;
    log_action(
        db,
        Some(info.user.id.as_str()),
        Some(info.user.username.as_str()),
        "LOGIN",
        Some("session"),
        Some(info.token.as_str()),
        None,
    );
    proof {
        assert(login_ok_shape(old(db)@, dmid, username@, info) && logged(
            dmid,
            db@,
            Some(info.user.id@),
            Some(info.user.username@),
            "LOGIN"@,
            Some("session"@),
            Some(info.token@),
            None,
        ));
    }
    Ok(info)
}

/// Validates a session token and reports the owning account.
pub fn cmd_validate_session(db: &Database, token: &str) -> (r: Result<User, AppError>)
    requires
        db.wf(),
    ensures
        r is Ok <==> session_valid(db@, token@),
        r matches Ok(u) ==> user_public(session_owner(db@, token@), u),
        r matches Err(e) ==> e matches AppError::SessionInvalid,
{
    validate_session(db, token)
}

/// Logs out: if the token still names a valid session the event is recorded
/// first, then the session row is deleted either way.
pub fn cmd_logout(db: &mut Database, token: &str) -> (r: Result<(), AppError>)
    requires
        old(db).wf(),
    ensures
        final(db).wf(),
        r is Ok,
        session_valid(old(db)@, token@) ==> (exists|dmid: DbV|
            logged(
                old(db)@,
                dmid,
                Some(session_owner(old(db)@, token@).id),
                Some(session_owner(old(db)@, token@).username),
                "LOGOUT"@,
                Some("session"@),
                Some(token@),
                None,
            ) && final(db)@ == (DbV {
                sessions: sessions_without_token(dmid.sessions, token@),
                ..dmid
            })),
        !session_valid(old(db)@, token@) ==> final(db)@ == (DbV {
            sessions: sessions_without_token(old(db)@.sessions, token@),
            ..old(db)@
        }),
{
    proof {
        reveal_strlit("");
    }
    match validate_session(db, token) {
        Ok(u) => {
            log_user_action(db, u.id.as_str(), u.username.as_str(), "LOGOUT", "session", token, "");
            let ghost dmid = db@;
            let res = logout(db, token);
            proof {
                assert(logged(
                    old(db)@,
                    dmid,
                    Some(session_owner(old(db)@, token@).id),
                    Some(session_owner(old(db)@, token@).username),
                    "LOGOUT"@,
                    Some("session"@),
                    Some(token@),
                    None,
                ) && db@ == (DbV { sessions: sessions_without_token(dmid.sessions, token@), ..dmid }));
            }
            res
        },
        Err(_) => logout(db, token),
    }
}

// ── Audit detail strings ──

pub open spec fn json_bool(b: bool) -> Seq<char> {
    if b {
        "true"@
    } else {
        "false"@
    }
}

pub open spec fn json_opt_bool(c: Option<bool>) -> Seq<char> {
    match c {
        Some(b) => json_bool(b),
        None => "null"@,
    }
}

fn bool_json(b: bool) -> (r: &'static str)
    ensures
        r@ == json_bool(b),
{
    if b {
        "true"
    } else {
        "false"
    }
}

fn opt_bool_json(c: Option<bool>) -> (r: &'static str)
    ensures
        r@ == json_opt_bool(c),
{
    match c {
        Some(b) => bool_json(b),
        None => "null",
    }
}

pub open spec fn digit_seq(d: int) -> Seq<char> {
    if d == 0 {
        "0"@
    } else if d == 1 {
        "1"@
    } else if d == 2 {
        "2"@
    } else if d == 3 {
        "3"@
    } else if d == 4 {
        "4"@
    } else if d == 5 {
        "5"@
    } else if d == 6 {
        "6"@
    } else if d == 7 {
        "7"@
    } else if d == 8 {
        "8"@
    } else {
        "9"@
    }
}

/// Decimal notation of a nonnegative number.
pub open spec fn dec_seq(n: int) -> Seq<char>
    decreases n,
{
    if n < 10 {
        digit_seq(n)
    } else {
        dec_seq(n / 10) + digit_seq(n % 10)
    }
}

fn digit_str(d: u32) -> (r: &'static str)
    requires
        d < 10,
    ensures
        r@ == digit_seq(d as int),
{
    match d {
        0 => "0",
        1 => "1",
        2 => "2",
        3 => "3",
        4 => "4",
        5 => "5",
        6 => "6",
        7 => "7",
        8 => "8",
        _ => "9",
    }
}

/// Renders a number in decimal.
fn u32_to_dec(n: u32) -> (s: String)
    ensures
        s@ == dec_seq(n as int),
    decreases n,
{
    if n < 10 {
        digit_str(n).to_owned()
    } else {
        let mut s = u32_to_dec(n / 10);
        s.append(digit_str(n % 10));
        s
    }
}

/// The entity key of one response: "inspection id:criterion id".
pub open spec fn response_entity_spec(iid: Seq<char>, cid: u32) -> Seq<char> {
    iid + ":"@ + dec_seq(cid as int)
}

fn response_entity(iid: &str, cid: u32) -> (s: String)
    ensures
        s@ == response_entity_spec(iid@, cid),
{
    let mut s = iid.to_owned();
    s.append(":");
    let digits = u32_to_dec(cid);
    s.append(digits.as_str());
    s
}

pub open spec fn save_details_spec(conf: Option<bool>, has_obs: bool) -> Seq<char> {
    "{\"conforme\":"@ + json_opt_bool(conf) + ",\"has_obs\":"@ + json_bool(has_obs) + "}"@
}

fn save_details(conf: Option<bool>, has_obs: bool) -> (s: String)
    ensures
        s@ == save_details_spec(conf, has_obs),
{
    let mut s = "{\"conforme\":".to_owned();
    s.append(opt_bool_json(conf));
    s.append(",\"has_obs\":");
    s.append(bool_json(has_obs));
    s.append("}");
    s
}

pub open spec fn create_user_details_spec(username: Seq<char>, role: Role) -> Seq<char> {
    "{\"username\":\""@ + username + "\",\"role\":\""@ + role_label_spec(role) + "\"}"@
}

fn create_user_details(username: &str, role: Role) -> (s: String)
    ensures
        s@ == create_user_details_spec(username@, role),
{
    let mut s = "{\"username\":\"".to_owned();
    s.append(username);
    s.append("\",\"role\":\"");
    s.append(role.label());
    s.append("\"}");
    s
}

pub open spec fn update_user_details_spec(req: UpdateUserRequest) -> Seq<char> {
    "{\"full_name\":"@ + (match req.full_name {
        Some(n) => "\""@ + n@ + "\""@,
        None => "null"@,
    }) + ",\"role\":"@ + (match req.role {
        Some(ro) => "\""@ + role_label_spec(ro) + "\""@,
        None => "null"@,
    }) + ",\"active\":"@ + json_opt_bool(req.active) + "}"@
}

fn update_user_details(req: &UpdateUserRequest) -> (s: String)
    ensures
        s@ == update_user_details_spec(*req),
{
    let mut s = "{\"full_name\":".to_owned();
    match &req.full_name {
        Some(n) => {
            let mut q = "\"".to_owned();
            q.append(n.as_str());
            q.append("\"");
            s.append(q.as_str());
        },
        None => {
            s.append("null");
        },
    }
    s.append(",\"role\":");
    match &req.role {
        Some(ro) => {
            let mut q = "\"".to_owned();
            q.append(ro.label());
            q.append("\"");
            s.append(q.as_str());
        },
        None => {
            s.append("null");
        },
    }
    s.append(",\"active\":");
    s.append(opt_bool_json(req.active));
    s.append("}");
    s
}

pub open spec fn create_insp_details_spec(grid: Seq<char>, establishment: Seq<char>) -> Seq<char> {
    "{\"grid\":\""@ + grid + "\",\"establishment\":\""@ + establishment + "\"}"@
}

fn create_insp_details(grid: &str, establishment: &str) -> (s: String)
    ensures
        s@ == create_insp_details_spec(grid@, establishment@),
{
    let mut s = "{\"grid\":\"".to_owned();
    s.append(grid);
    s.append("\",\"establishment\":\"");
    s.append(establishment);
    s.append("\"}");
    s
}

/// The audit action label of an explicit status change.
pub open spec fn status_action_spec(st: Status) -> Seq<char> {
    match st {
        Status::Draft => "SET_STATUS_DRAFT"@,
        Status::InProgress => "SET_STATUS_IN_PROGRESS"@,
        Status::Completed => "SET_STATUS_COMPLETED"@,
        Status::Validated => "SET_STATUS_VALIDATED"@,
        Status::Archived => "SET_STATUS_ARCHIVED"@,
    }
}

fn status_action_label(st: Status) -> (r: &'static str)
    ensures
        r@ == status_action_spec(st),
{
    match st {
        Status::Draft => "SET_STATUS_DRAFT",
        Status::InProgress => "SET_STATUS_IN_PROGRESS",
        Status::Completed => "SET_STATUS_COMPLETED",
        Status::Validated => "SET_STATUS_VALIDATED",
        Status::Archived => "SET_STATUS_ARCHIVED",
    }
}

// ── User administration commands ──

/// Lists every account; reserved to administrators and lead inspectors.
pub fn cmd_list_users(db: &Database, token: &str) -> (r: Result<Vec<User>, AppError>)
    requires
        db.wf(),
    ensures
        r is Ok <==> session_valid(db@, token@) && seq![Role::Admin, Role::LeadInspector].contains(
            session_owner(db@, token@).role,
        ),
        !session_valid(db@, token@) ==> (r matches Err(AppError::SessionInvalid)),
        session_valid(db@, token@) && !seq![Role::Admin, Role::LeadInspector].contains(
            session_owner(db@, token@).role,
        ) ==> (r matches Err(AppError::Forbidden(rs)) && rs@ == seq![
            Role::Admin,
            Role::LeadInspector,
        ]),
        r matches Ok(v) ==> v@.len() == db@.users.len() && (forall|k: int|
            0 <= k < v@.len() ==> user_public(db@.users[k], #[trigger] v@[k])),
{
    let roles = vec![Role::Admin, Role::LeadInspector];
    proof {
        assert(roles@ =~= seq![Role::Admin, Role::LeadInspector]);
    }
    match require_role(db, token, roles.as_slice()) {
        Err(e) => {
            return Err(e);
        },
        Ok(_) => {},
    }
    list_users(db)
}

/// Creates an account; reserved to administrators, and recorded.
pub fn cmd_create_user(db: &mut Database, token: &str, req: &CreateUserRequest) -> (r: Result<
    User,
    AppError,
>)
    requires
        old(db).wf(),
    ensures
        final(db).wf(),
        !session_valid(old(db)@, token@) ==> (r matches Err(AppError::SessionInvalid)) && final(db)@ == old(db)@,
        session_valid(old(db)@, token@) && session_owner(old(db)@, token@).role != Role::Admin
            ==> (r matches Err(AppError::Forbidden(rs)) && rs@ == seq![Role::Admin]) && final(db)@ == old(db)@,
        session_valid(old(db)@, token@) && session_owner(old(db)@, token@).role == Role::Admin
            && has_user_named(old(db)@.users, req.username@) ==> (r matches Err(
            AppError::DuplicateUsername,
        )) && final(db)@ == old(db)@,
        r matches Ok(u) ==> (exists|dmid: DbV|
            create_user_ok(old(db)@, dmid, *req, u) && logged(
                dmid,
                final(db)@,
                Some(session_owner(old(db)@, token@).id),
                Some(session_owner(old(db)@, token@).username),
                "CREATE_USER"@,
                Some("user"@),
                Some(u.id@),
                Some(create_user_details_spec(req.username@, req.role)),
            )),
{
    let roles = vec![Role::Admin];
    proof {
        assert(roles@ =~= seq![Role::Admin]);
        assert(roles@.contains(session_owner(old(db)@, token@).role) <==> session_owner(
            old(db)@,
            token@,
        ).role == Role::Admin) by {
            if roles@.contains(session_owner(old(db)@, token@).role) {
                let w = choose|w: int|
                    0 <= w < roles@.len() && roles@[w] == session_owner(old(db)@, token@).role;
            }
        }
    }
    let admin = match require_role(db, token, roles.as_slice()) {
        Err(e) => {
            return Err(e);
        },
        Ok(u) => u,
    };
    let user = match create_user(db, req) {
        Err(e) => {
            return Err(e);
        },
        Ok(u) => u,
    };
    let details = create_user_details(user.username.as_str(), user.role);
    let ghost dmid = db@;
    proof {
        reveal_strlit("{\"username\":\"");
        assert(details@.len() > 0);
    }
    log_user_action(
        db,
        admin.id.as_str(),
        admin.username.as_str(),
        "CREATE_USER",
        "user",
        user.id.as_str(),
        details.as_str(),
    );
    proof {
        assert(create_user_ok(old(db)@, dmid, *req, user) && logged(
            dmid,
            db@,
            Some(session_owner(old(db)@, token@).id),
            Some(session_owner(old(db)@, token@).username),
            "CREATE_USER"@,
            Some("user"@),
            Some(user.id@),
            Some(create_user_details_spec(req.username@, req.role)),
        ));
    }
    Ok(user)
}

/// Applies a partial account update; reserved to administrators, and
/// recorded.
pub fn cmd_update_user(
    db: &mut Database,
    token: &str,
    user_id: &str,
    req: &UpdateUserRequest,
) -> (r: Result<(), AppError>)
    requires
        old(db).wf(),
    ensures
        final(db).wf(),
        !session_valid(old(db)@, token@) ==> (r matches Err(AppError::SessionInvalid)) && final(db)@ == old(db)@,
        session_valid(old(db)@, token@) && session_owner(old(db)@, token@).role != Role::Admin
            ==> (r matches Err(AppError::Forbidden(rs)) && rs@ == seq![Role::Admin]) && final(db)@ == old(db)@,
        session_valid(old(db)@, token@) && session_owner(old(db)@, token@).role == Role::Admin
            ==> r is Ok,
        r is Ok ==> (exists|dmid: DbV|
            user_updated(old(db)@, dmid, user_id@, *req) && logged(
                dmid,
                final(db)@,
                Some(session_owner(old(db)@, token@).id),
                Some(session_owner(old(db)@, token@).username),
                "UPDATE_USER"@,
                Some("user"@),
                Some(user_id@),
                Some(update_user_details_spec(*req)),
            )),
{
    let roles = vec![Role::Admin];
    proof {
        assert(roles@ =~= seq![Role::Admin]);
        assert(roles@.contains(session_owner(old(db)@, token@).role) <==> session_owner(
            old(db)@,
            token@,
        ).role == Role::Admin) by {
            if roles@.contains(session_owner(old(db)@, token@).role) {
                let w = choose|w: int|
                    0 <= w < roles@.len() && roles@[w] == session_owner(old(db)@, token@).role;
            }
        }
    }
    let admin = match require_role(db, token, roles.as_slice()) {
        Err(e) => {
            return Err(e);
        },
        Ok(u) => u,
    };
    match update_user(db, user_id, req) {
        Err(e) => {
            return Err(e);
        },
        Ok(_) => {},
    }
    let details = update_user_details(req);
    let ghost dmid = db@;
    proof {
        reveal_strlit("{\"full_name\":");
        assert(details@.len() > 0);
    }
    log_user_action(
        db,
        admin.id.as_str(),
        admin.username.as_str(),
        "UPDATE_USER",
        "user",
        user_id,
        details.as_str(),
    );
    proof {
        assert(user_updated(old(db)@, dmid, user_id@, *req) && logged(
            dmid,
            db@,
            Some(session_owner(old(db)@, token@).id),
            Some(session_owner(old(db)@, token@).username),
            "UPDATE_USER"@,
            Some("user"@),
            Some(user_id@),
            Some(update_user_details_spec(*req)),
        ));
    }
    Ok(())
}

/// Rotates an account's credential; reserved to administrators, and
/// recorded. Outstanding sessions stay valid by design.
pub fn cmd_change_password(
    db: &mut Database,
    token: &str,
    user_id: &str,
    new_password: &str,
) -> (r: Result<(), AppError>)
    requires
        old(db).wf(),
    ensures
        final(db).wf(),
        !session_valid(old(db)@, token@) ==> (r matches Err(AppError::SessionInvalid)) && final(db)@ == old(db)@,
        session_valid(old(db)@, token@) && session_owner(old(db)@, token@).role != Role::Admin
            ==> (r matches Err(AppError::Forbidden(rs)) && rs@ == seq![Role::Admin]) && final(db)@ == old(db)@,
        session_valid(old(db)@, token@) && session_owner(old(db)@, token@).role == Role::Admin
            ==> (r is Ok || ((r matches Err(AppError::StorageFailure)) && final(db)@ == old(db)@)),
        r is Ok ==> (exists|dmid: DbV|
            password_rotated(old(db)@, dmid, user_id@, new_password@) && logged(
                dmid,
                final(db)@,
                Some(session_owner(old(db)@, token@).id),
                Some(session_owner(old(db)@, token@).username),
                "CHANGE_PASSWORD"@,
                Some("user"@),
                Some(user_id@),
                None,
            )),
{
    let roles = vec![Role::Admin];
    proof {
        reveal_strlit("");
        assert(roles@ =~= seq![Role::Admin]);
        assert(roles@.contains(session_owner(old(db)@, token@).role) <==> session_owner(
            old(db)@,
            token@,
        ).role == Role::Admin) by {
            if roles@.contains(session_owner(old(db)@, token@).role) {
                let w = choose|w: int|
                    0 <= w < roles@.len() && roles@[w] == session_owner(old(db)@, token@).role;
            }
        }
    }
    let admin = match require_role(db, token, roles.as_slice()) {
        Err(e) => {
            return Err(e);
        },
        Ok(u) => u,
    };
    match change_password(db, user_id, new_password) {
        Err(e) => {
            return Err(e);
        },
        Ok(_) => {},
    }
    let ghost dmid = db@;
    log_user_action(
        db,
        admin.id.as_str(),
        admin.username.as_str(),
        "CHANGE_PASSWORD",
        "user",
        user_id,
        "",
    );
    proof {
        assert(password_rotated(old(db)@, dmid, user_id@, new_password@) && logged(
            dmid,
            db@,
            Some(session_owner(old(db)@, token@).id),
            Some(session_owner(old(db)@, token@).username),
            "CHANGE_PASSWORD"@,
            Some("user"@),
            Some(user_id@),
            None,
        ));
    }
    Ok(())
}

/// Soft-deactivates an account and deletes its sessions; reserved to
/// administrators, and recorded.
pub fn cmd_delete_user(db: &mut Database, token: &str, user_id: &str) -> (r: Result<(), AppError>)
    requires
        old(db).wf(),
    ensures
        final(db).wf(),
        !session_valid(old(db)@, token@) ==> (r matches Err(AppError::SessionInvalid)) && final(db)@ == old(db)@,
        session_valid(old(db)@, token@) && session_owner(old(db)@, token@).role != Role::Admin
            ==> (r matches Err(AppError::Forbidden(rs)) && rs@ == seq![Role::Admin]) && final(db)@ == old(db)@,
        session_valid(old(db)@, token@) && session_owner(old(db)@, token@).role == Role::Admin
            ==> r is Ok,
        r is Ok ==> (exists|dmid: DbV|
            deactivated(old(db)@, dmid, user_id@) && logged(
                dmid,
                final(db)@,
                Some(session_owner(old(db)@, token@).id),
                Some(session_owner(old(db)@, token@).username),
                "DEACTIVATE_USER"@,
                Some("user"@),
                Some(user_id@),
                None,
            )),
{
    let roles = vec![Role::Admin];
    proof {
        reveal_strlit("");
        assert(roles@ =~= seq![Role::Admin]);
        assert(roles@.contains(session_owner(old(db)@, token@).role) <==> session_owner(
            old(db)@,
            token@,
        ).role == Role::Admin) by {
            if roles@.contains(session_owner(old(db)@, token@).role) {
                let w = choose|w: int|
                    0 <= w < roles@.len() && roles@[w] == session_owner(old(db)@, token@).role;
            }
        }
    }
    let admin = match require_role(db, token, roles.as_slice()) {
        Err(e) => {
            return Err(e);
        },
        Ok(u) => u,
    };
    match delete_user(db, user_id) {
        Err(e) => {
            return Err(e);
        },
        Ok(_) => {},
    }
    let ghost dmid = db@;
    log_user_action(
        db,
        admin.id.as_str(),
        admin.username.as_str(),
        "DEACTIVATE_USER",
        "user",
        user_id,
        "",
    );
    proof {
        assert(deactivated(old(db)@, dmid, user_id@) && logged(
            dmid,
            db@,
            Some(session_owner(old(db)@, token@).id),
            Some(session_owner(old(db)@, token@).username),
            "DEACTIVATE_USER"@,
            Some("user"@),
            Some(user_id@),
            None,
        ));
    }
    Ok(())
}

// ── Inspection commands ──

/// The session owner of a valid session is itself a stored account.
proof fn lemma_owner_is_stored(d: DbV, token: Seq<char>)
    requires
        session_valid(d, token),
    ensures
        has_user_id(d.users, session_owner(d, token).id),
{
    let suid = session_with(d.sessions, token).user_id;
    assert(has_user_id(d.users, suid));
    let w = user_id_idx(d.users, suid);
    assert(0 <= w < d.users.len() && d.users[w].id == suid);
}

/// Creates a draft inspection owned by the session's account, and records
/// the creation.
pub fn cmd_create_inspection(db: &mut Database, token: &str, req: &CreateInspectionRequest) -> (r:
    Result<String, AppError>)
    requires
        old(db).wf(),
    ensures
        final(db).wf(),
        !session_valid(old(db)@, token@) ==> (r matches Err(AppError::SessionInvalid))
            && final(db)@ == old(db)@,
        session_valid(old(db)@, token@) ==> (r is Ok || ((r matches Err(AppError::StorageFailure))
            && final(db)@ == old(db)@)),
        r matches Ok(id) ==> session_valid(old(db)@, token@) && (exists|dmid: DbV|
            create_ok_shape(old(db)@, dmid, id@, *req, session_owner(old(db)@, token@).id)
                && logged(
                dmid,
                final(db)@,
                Some(session_owner(old(db)@, token@).id),
                Some(session_owner(old(db)@, token@).username),
                "CREATE_INSPECTION"@,
                Some("inspection"@),
                Some(id@),
                Some(create_insp_details_spec(req.grid_id@, req.establishment@)),
            )),
{
    let user = match validate_session(db, token) {
        Err(e) => {
            return Err(e);
        },
        Ok(u) => u,
    };
    proof {
        lemma_owner_is_stored(old(db)@, token@);
    }
    let id = match create_inspection(db, req, user.id.as_str()) {
        Err(e) => {
            return Err(e);
        },
        Ok(i) => i,
    };
    let details = create_insp_details(req.grid_id.as_str(), req.establishment.as_str());
    let ghost dmid = db@;
    proof {
        reveal_strlit("{\"grid\":\"");
        assert(details@.len() > 0);
    }
    log_user_action(
        db,
        user.id.as_str(),
        user.username.as_str(),
        "CREATE_INSPECTION",
        "inspection",
        id.as_str(),
        details.as_str(),
    );
    proof {
        assert(create_ok_shape(old(db)@, dmid, id@, *req, session_owner(old(db)@, token@).id)
            && logged(
            dmid,
            db@,
            Some(session_owner(old(db)@, token@).id),
            Some(session_owner(old(db)@, token@).username),
            "CREATE_INSPECTION"@,
            Some("inspection"@),
            Some(id@),
            Some(create_insp_details_spec(req.grid_id@, req.establishment@)),
        ));
    }
    Ok(id)
}

/// Lists inspections for the session's account: inspectors always see only
/// their own, others see everything unless they ask for their own.
pub fn cmd_list_inspections(
    db: &Database,
    token: &str,
    my_only: bool,
    status: Option<Status>,
) -> (r: Result<Vec<SavedInspection>, AppError>)
    requires
        db.wf(),
    ensures
        r is Ok <==> session_valid(db@, token@),
        r matches Err(e) ==> e matches AppError::SessionInvalid,
        r matches Ok(v) ==> {
            let uidf = if my_only || session_owner(db@, token@).role == Role::Inspector {
                Some(session_owner(db@, token@).id)
            } else {
                None
            };
            let flt = insps_matching(db@.inspections, uidf, status);
            &&& v@.len() == flt.len()
            &&& forall|k: int| 0 <= k < flt.len() ==> saved_matches(db@, flt[k], #[trigger] v@[k])
        },
{
    let user = match validate_session(db, token) {
        Err(e) => {
            return Err(e);
        },
        Ok(u) => u,
    };
    let is_inspector = match user.role {
        Role::Inspector => true,
        _ => false,
    };
    let uf: Option<&str> = if my_only || is_inspector {
        Some(user.id.as_str())
    } else {
        None
    };
    proof {
        assert(opt_str_view(uf) == (if my_only || session_owner(db@, token@).role
            == Role::Inspector {
            Some(session_owner(db@, token@).id)
        } else {
            None::<Seq<char>>
        }));
    }
    list_inspections(db, uf, status)
}

/// Fetches one inspection; any valid session may read.
pub fn cmd_get_inspection(db: &Database, token: &str, inspection_id: &str) -> (r: Result<
    SavedInspection,
    AppError,
>)
    requires
        db.wf(),
    ensures
        r is Ok <==> session_valid(db@, token@) && has_insp(db@.inspections, inspection_id@),
        !session_valid(db@, token@) ==> (r matches Err(AppError::SessionInvalid)),
        session_valid(db@, token@) && !has_insp(db@.inspections, inspection_id@) ==> (r matches
            Err(AppError::NotFound)),
        r matches Ok(s) ==> saved_matches(db@, insp_with(db@.inspections, inspection_id@), s),
{
    match validate_session(db, token) {
        Err(e) => {
            return Err(e);
        },
        Ok(_) => {},
    }
    get_inspection(db, inspection_id)
}

/// Loads the responses of one inspection; any valid session may read.
pub fn cmd_get_responses(db: &Database, token: &str, inspection_id: &str) -> (r: Result<
    Vec<SavedResponse>,
    AppError,
>)
    requires
        db.wf(),
    ensures
        r is Ok <==> session_valid(db@, token@),
        r matches Err(e) ==> e matches AppError::SessionInvalid,
        r matches Ok(v) ==> {
            let flt = resps_of(db@.responses, inspection_id@);
            &&& v@.len() == flt.len()
            &&& forall|k: int| 0 <= k < flt.len() ==> saved_resp_matches(flt[k], #[trigger] v@[k])
        },
{
    match validate_session(db, token) {
        Err(e) => {
            return Err(e);
        },
        Ok(_) => {},
    }
    get_responses(db, inspection_id)
}

/// Saves one response for the session's account and records the write;
/// a draft parent inspection advances to in-progress.
pub fn cmd_save_response(
    db: &mut Database,
    token: &str,
    inspection_id: &str,
    criterion_id: u32,
    conforme: Option<bool>,
    observation: &str,
) -> (r: Result<(), AppError>)
    requires
        old(db).wf(),
    ensures
        final(db).wf(),
        !session_valid(old(db)@, token@) ==> (r matches Err(AppError::SessionInvalid))
            && final(db)@ == old(db)@,
        session_valid(old(db)@, token@) && !has_insp(old(db)@.inspections, inspection_id@) ==> (
        r matches Err(AppError::NotFound)) && final(db)@ == old(db)@,
        session_valid(old(db)@, token@) && has_insp(old(db)@.inspections, inspection_id@) && (
        has_resp(old(db)@.responses, inspection_id@, criterion_id) || old(db)@.responses.len()
            < u32::MAX as int - 1) ==> r is Ok,
        r is Ok ==> session_valid(old(db)@, token@) && (exists|dmid: DbV|
            save_ok_shape(
                old(db)@,
                dmid,
                inspection_id@,
                criterion_id,
                conforme,
                observation@,
                session_owner(old(db)@, token@).id,
            ) && logged(
                dmid,
                final(db)@,
                Some(session_owner(old(db)@, token@).id),
                Some(session_owner(old(db)@, token@).username),
                "SAVE_RESPONSE"@,
                Some("response"@),
                Some(response_entity_spec(inspection_id@, criterion_id)),
                Some(save_details_spec(conforme, observation@.len() > 0)),
            )),
{
    let user = match validate_session(db, token) {
        Err(e) => {
            return Err(e);
        },
        Ok(u) => u,
    };
    proof {
        lemma_owner_is_stored(old(db)@, token@);
    }
    match save_response(db, inspection_id, criterion_id, conforme, observation, user.id.as_str()) {
        Err(e) => {
            return Err(e);
        },
        Ok(_) => {},
    }
    let has_obs = !observation.is_empty();
    let entity = response_entity(inspection_id, criterion_id);
    let details = save_details(conforme, has_obs);
    let ghost dmid = db@;
    proof {
        reveal_strlit("{\"conforme\":");
        assert(details@.len() > 0);
    }
    log_user_action(
        db,
        user.id.as_str(),
        user.username.as_str(),
        "SAVE_RESPONSE",
        "response",
        entity.as_str(),
        details.as_str(),
    );
    proof {
        assert(save_ok_shape(
            old(db)@,
            dmid,
            inspection_id@,
            criterion_id,
            conforme,
            observation@,
            session_owner(old(db)@, token@).id,
        ) && logged(
            dmid,
            db@,
            Some(session_owner(old(db)@, token@).id),
            Some(session_owner(old(db)@, token@).username),
            "SAVE_RESPONSE"@,
            Some("response"@),
            Some(response_entity_spec(inspection_id@, criterion_id)),
            Some(save_details_spec(conforme, observation@.len() > 0)),
        ));
    }
    Ok(())
}

/// Overwrites an inspection's metadata for the session's account, and
/// records the change.
pub fn cmd_update_inspection_meta(
    db: &mut Database,
    token: &str,
    inspection_id: &str,
    req: &CreateInspectionRequest,
) -> (r: Result<(), AppError>)
    requires
        old(db).wf(),
    ensures
        final(db).wf(),
        !session_valid(old(db)@, token@) ==> (r matches Err(AppError::SessionInvalid))
            && final(db)@ == old(db)@,
        session_valid(old(db)@, token@) ==> r is Ok,
        r is Ok ==> (exists|dmid: DbV|
            meta_post(old(db)@, dmid, inspection_id@, *req) && logged(
                dmid,
                final(db)@,
                Some(session_owner(old(db)@, token@).id),
                Some(session_owner(old(db)@, token@).username),
                "UPDATE_META"@,
                Some("inspection"@),
                Some(inspection_id@),
                None,
            )),
{
    proof {
        reveal_strlit("");
    }
    let user = match validate_session(db, token) {
        Err(e) => {
            return Err(e);
        },
        Ok(u) => u,
    };
    match update_inspection_meta(db, inspection_id, req) {
        Err(e) => {
            return Err(e);
        },
        Ok(_) => {},
    }
    let ghost dmid = db@;
    log_user_action(
        db,
        user.id.as_str(),
        user.username.as_str(),
        "UPDATE_META",
        "inspection",
        inspection_id,
        "",
    );
    proof {
        assert(meta_post(old(db)@, dmid, inspection_id@, *req) && logged(
            dmid,
            db@,
            Some(session_owner(old(db)@, token@).id),
            Some(session_owner(old(db)@, token@).username),
            "UPDATE_META"@,
            Some("inspection"@),
            Some(inspection_id@),
            None,
        ));
    }
    Ok(())
}

/// Changes an inspection's status and records it. Entering `validated` is
/// the one guarded edge: it is reserved to administrators and lead
/// inspectors, who are stamped as validator.
pub fn cmd_set_inspection_status(
    db: &mut Database,
    token: &str,
    inspection_id: &str,
    status: Status,
) -> (r: Result<(), AppError>)
    requires
        old(db).wf(),
    ensures
        final(db).wf(),
        !session_valid(old(db)@, token@) ==> (r matches Err(AppError::SessionInvalid))
            && final(db)@ == old(db)@,
        session_valid(old(db)@, token@) && status == Status::Validated && !seq![
            Role::Admin,
            Role::LeadInspector,
        ].contains(session_owner(old(db)@, token@).role) ==> (r matches Err(AppError::Forbidden(rs))
            && rs@ == seq![Role::Admin, Role::LeadInspector]) && final(db)@ == old(db)@,
        session_valid(old(db)@, token@) && (status != Status::Validated || seq![
            Role::Admin,
            Role::LeadInspector,
        ].contains(session_owner(old(db)@, token@).role)) ==> r is Ok,
        r is Ok ==> session_valid(old(db)@, token@) && (exists|dmid: DbV|
            status_post(
                old(db)@,
                dmid,
                inspection_id@,
                status,
                Some(session_owner(old(db)@, token@).id),
            ) && logged(
                dmid,
                final(db)@,
                Some(session_owner(old(db)@, token@).id),
                Some(session_owner(old(db)@, token@).username),
                status_action_spec(status),
                Some("inspection"@),
                Some(inspection_id@),
                None,
            )),
{
    proof {
        reveal_strlit("");
    }
    let validated = match status {
        Status::Validated => true,
        _ => false,
    };
    let user = if validated {
        let roles = vec![Role::Admin, Role::LeadInspector];
        proof {
            assert(roles@ =~= seq![Role::Admin, Role::LeadInspector]);
        }
        match require_role(db, token, roles.as_slice()) {
            Err(e) => {
                return Err(e);
            },
            Ok(u) => u,
        }
    } else {
        match validate_session(db, token) {
            Err(e) => {
                return Err(e);
            },
            Ok(u) => u,
        }
    };
    proof {
        lemma_owner_is_stored(old(db)@, token@);
    }
    match set_status(db, inspection_id, status, Some(user.id.as_str())) {
        Err(e) => {
            return Err(e);
        },
        Ok(_) => {},
    }
    let ghost dmid = db@;
    log_user_action(
        db,
        user.id.as_str(),
        user.username.as_str(),
        status_action_label(status),
        "inspection",
        inspection_id,
        "",
    );
    proof {
        assert(status_post(
            old(db)@,
            dmid,
            inspection_id@,
            status,
            Some(session_owner(old(db)@, token@).id),
        ) && logged(
            dmid,
            db@,
            Some(session_owner(old(db)@, token@).id),
            Some(session_owner(old(db)@, token@).username),
            status_action_spec(status),
            Some("inspection"@),
            Some(inspection_id@),
            None,
        ));
    }
    Ok(())
}

/// Deletes an inspection and its responses; reserved to administrators and
/// lead inspectors, and recorded.
pub fn cmd_delete_inspection(db: &mut Database, token: &str, inspection_id: &str) -> (r: Result<
    (),
    AppError,
>)
    requires
        old(db).wf(),
    ensures
        final(db).wf(),
        !session_valid(old(db)@, token@) ==> (r matches Err(AppError::SessionInvalid))
            && final(db)@ == old(db)@,
        session_valid(old(db)@, token@) && !seq![Role::Admin, Role::LeadInspector].contains(
            session_owner(old(db)@, token@).role,
        ) ==> (r matches Err(AppError::Forbidden(rs)) && rs@ == seq![
            Role::Admin,
            Role::LeadInspector,
        ]) && final(db)@ == old(db)@,
        session_valid(old(db)@, token@) && seq![Role::Admin, Role::LeadInspector].contains(
            session_owner(old(db)@, token@).role,
        ) ==> r is Ok,
        r is Ok ==> (exists|dmid: DbV|
            delete_post(old(db)@, dmid, inspection_id@) && logged(
                dmid,
                final(db)@,
                Some(session_owner(old(db)@, token@).id),
                Some(session_owner(old(db)@, token@).username),
                "DELETE_INSPECTION"@,
                Some("inspection"@),
                Some(inspection_id@),
                None,
            )),
{
    proof {
        reveal_strlit("");
    }
    let roles = vec![Role::Admin, Role::LeadInspector];
    proof {
        assert(roles@ =~= seq![Role::Admin, Role::LeadInspector]);
    }
    let user = match require_role(db, token, roles.as_slice()) {
        Err(e) => {
            return Err(e);
        },
        Ok(u) => u,
    };
    match delete_inspection(db, inspection_id) {
        Err(e) => {
            return Err(e);
        },
        Ok(_) => {},
    }
    let ghost dmid = db@;
    log_user_action(
        db,
        user.id.as_str(),
        user.username.as_str(),
        "DELETE_INSPECTION",
        "inspection",
        inspection_id,
        "",
    );
    proof {
        assert(delete_post(old(db)@, dmid, inspection_id@) && logged(
            dmid,
            db@,
            Some(session_owner(old(db)@, token@).id),
            Some(session_owner(old(db)@, token@).username),
            "DELETE_INSPECTION"@,
            Some("inspection"@),
            Some(inspection_id@),
            None,
        ));
    }
    Ok(())
}

// ── Audit commands ──

/// Queries the audit trail; reserved to administrators and lead inspectors.
pub fn cmd_query_audit(db: &Database, token: &str, filter: &AuditFilter) -> (r: Result<
    Vec<AuditEntry>,
    AppError,
>)
    requires
        db.wf(),
    ensures
        r is Ok <==> session_valid(db@, token@) && seq![Role::Admin, Role::LeadInspector].contains(
            session_owner(db@, token@).role,
        ),
        !session_valid(db@, token@) ==> (r matches Err(AppError::SessionInvalid)),
        session_valid(db@, token@) && !seq![Role::Admin, Role::LeadInspector].contains(
            session_owner(db@, token@).role,
        ) ==> (r matches Err(AppError::Forbidden(rs)) && rs@ == seq![
            Role::Admin,
            Role::LeadInspector,
        ]),
        r matches Ok(v) ==> {
            let flt = matching_rev(db@.audit_log, filter@);
            let start = query_start(filter@, flt.len() as int);
            let endx = query_end(filter@, flt.len() as int);
            &&& v@.len() == endx - start
            &&& forall|k: int| 0 <= k < v@.len() ==> (#[trigger] v@[k])@ == flt[start + k]
        },
{
    let roles = vec![Role::Admin, Role::LeadInspector];
    proof {
        assert(roles@ =~= seq![Role::Admin, Role::LeadInspector]);
    }
    match require_role(db, token, roles.as_slice()) {
        Err(e) => {
            return Err(e);
        },
        Ok(_) => {},
    }
    query_audit(db, filter)
}

/// Counts the audit entries a filter matches; reserved to administrators
/// and lead inspectors.
pub fn cmd_count_audit(db: &Database, token: &str, filter: &AuditFilter) -> (r: Result<
    u32,
    AppError,
>)
    requires
        db.wf(),
    ensures
        r is Ok <==> session_valid(db@, token@) && seq![Role::Admin, Role::LeadInspector].contains(
            session_owner(db@, token@).role,
        ),
        !session_valid(db@, token@) ==> (r matches Err(AppError::SessionInvalid)),
        session_valid(db@, token@) && !seq![Role::Admin, Role::LeadInspector].contains(
            session_owner(db@, token@).role,
        ) ==> (r matches Err(AppError::Forbidden(rs)) && rs@ == seq![
            Role::Admin,
            Role::LeadInspector,
        ]),
        r matches Ok(c) ==> c as int == matching_rev(db@.audit_log, filter@).len(),
{
    let roles = vec![Role::Admin, Role::LeadInspector];
    proof {
        assert(roles@ =~= seq![Role::Admin, Role::LeadInspector]);
    }
    match require_role(db, token, roles.as_slice()) {
        Err(e) => {
            return Err(e);
        },
        Ok(_) => {},
    }
    count_audit(db, filter)
}

} // verus!

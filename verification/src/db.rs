//! The shared datastore: one in-memory relational model behind which every
//! component works, together with its well-formedness invariant and the
//! trusted primitives (password hashing, token generation, wall clock).

use vstd::prelude::*;

use crate::audit::{AuditEntry, AuditV};
use crate::storage::Status;
use crate::users::Role;
use crate::AppError;

verus! {

/// Seconds a session stays valid after login.
pub const SESSION_LIFETIME_SECONDS: i64 = 86400;

// ── Stored rows ──

/// One row of the user table, including the credential hash.
pub struct UserRow {
    pub id: String,
    pub username: String,
    pub full_name: String,
    pub role: Role,
    pub password_hash: String,
    pub active: bool,
    pub created_at: i64,
    pub updated_at: i64,
}

/// One row of the session table.
pub struct SessionRow {
    pub token: String,
    pub user_id: String,
    pub created_at: i64,
    pub expires_at: i64,
}

/// One row of the inspection table.
pub struct InspectionRow {
    pub id: String,
    pub grid_id: String,
    pub status: Status,
    pub date_inspection: String,
    pub establishment: String,
    pub inspection_type: String,
    pub inspectors: Vec<String>,
    pub created_by: Option<String>,
    pub validated_by: Option<String>,
    pub validated_at: Option<i64>,
    pub created_at: i64,
    pub updated_at: i64,
}

/// One row of the response table; at most one row per
/// (inspection, criterion) pair.
pub struct ResponseRow {
    pub inspection_id: String,
    pub criterion_id: u32,
    pub conforme: Option<bool>,
    pub observation: String,
    pub updated_by: Option<String>,
    pub updated_at: i64,
}

// ── Mathematical views of the rows ──

pub ghost struct UserV {
    pub id: Seq<char>,
    pub username: Seq<char>,
    pub full_name: Seq<char>,
    pub role: Role,
    pub password_hash: Seq<char>,
    pub active: bool,
    pub created_at: int,
    pub updated_at: int,
}

pub ghost struct SessV {
    pub token: Seq<char>,
    pub user_id: Seq<char>,
    pub created_at: int,
    pub expires_at: int,
}

pub ghost struct InspV {
    pub id: Seq<char>,
    pub grid_id: Seq<char>,
    pub status: Status,
    pub date_inspection: Seq<char>,
    pub establishment: Seq<char>,
    pub inspection_type: Seq<char>,
    pub inspectors: Seq<Seq<char>>,
    pub created_by: Option<Seq<char>>,
    pub validated_by: Option<Seq<char>>,
    pub validated_at: Option<int>,
    pub created_at: int,
    pub updated_at: int,
}

pub ghost struct RespV {
    pub inspection_id: Seq<char>,
    pub criterion_id: u32,
    pub conforme: Option<bool>,
    pub observation: Seq<char>,
    pub updated_by: Option<Seq<char>>,
    pub updated_at: int,
}

impl View for UserRow {
    type V = UserV;

    open spec fn view(&self) -> UserV {
        UserV {
            id: self.id@,
            username: self.username@,
            full_name: self.full_name@,
            role: self.role,
            password_hash: self.password_hash@,
            active: self.active,
            created_at: self.created_at as int,
            updated_at: self.updated_at as int,
        }
    }
}

impl View for SessionRow {
    type V = SessV;

    open spec fn view(&self) -> SessV {
        SessV {
            token: self.token@,
            user_id: self.user_id@,
            created_at: self.created_at as int,
            expires_at: self.expires_at as int,
        }
    }
}

impl View for InspectionRow {
    type V = InspV;

    open spec fn view(&self) -> InspV {
        InspV {
            id: self.id@,
            grid_id: self.grid_id@,
            status: self.status,
            date_inspection: self.date_inspection@,
            establishment: self.establishment@,
            inspection_type: self.inspection_type@,
            inspectors: self.inspectors.deep_view(),
            created_by: self.created_by.deep_view(),
            validated_by: self.validated_by.deep_view(),
            validated_at: (match self.validated_at {
                Some(t) => Some(t as int),
                None => None,
            }),
            created_at: self.created_at as int,
            updated_at: self.updated_at as int,
        }
    }
}

impl View for ResponseRow {
    type V = RespV;

    open spec fn view(&self) -> RespV {
        RespV {
            inspection_id: self.inspection_id@,
            criterion_id: self.criterion_id,
            conforme: self.conforme,
            observation: self.observation@,
            updated_by: self.updated_by.deep_view(),
            updated_at: self.updated_at as int,
        }
    }
}

// ── The datastore ──

/// The whole datastore plus the wall-clock instant every timestamp-taking
/// operation reads. Inspections are kept most-recently-updated first.
pub struct Database {
    pub clock: i64,
    pub users: Vec<UserRow>,
    pub sessions: Vec<SessionRow>,
    pub inspections: Vec<InspectionRow>,
    pub responses: Vec<ResponseRow>,
    pub audit_log: Vec<AuditEntry>,
    pub next_audit_id: i64,
}

pub ghost struct DbV {
    pub clock: int,
    pub users: Seq<UserV>,
    pub sessions: Seq<SessV>,
    pub inspections: Seq<InspV>,
    pub responses: Seq<RespV>,
    pub audit_log: Seq<AuditV>,
    pub next_audit_id: int,
}

pub open spec fn users_view(s: Seq<UserRow>) -> Seq<UserV> {
    s.map_values(|u: UserRow| u@)
}

pub open spec fn sessions_view(s: Seq<SessionRow>) -> Seq<SessV> {
    s.map_values(|r: SessionRow| r@)
}

pub open spec fn insps_view(s: Seq<InspectionRow>) -> Seq<InspV> {
    s.map_values(|r: InspectionRow| r@)
}

pub open spec fn resps_view(s: Seq<ResponseRow>) -> Seq<RespV> {
    s.map_values(|r: ResponseRow| r@)
}

pub open spec fn audits_view(s: Seq<AuditEntry>) -> Seq<AuditV> {
    s.map_values(|r: AuditEntry| r@)
}

impl View for Database {
    type V = DbV;

    open spec fn view(&self) -> DbV {
        DbV {
            clock: self.clock as int,
            users: users_view(self.users@),
            sessions: sessions_view(self.sessions@),
            inspections: insps_view(self.inspections@),
            responses: resps_view(self.responses@),
            audit_log: audits_view(self.audit_log@),
            next_audit_id: self.next_audit_id as int,
        }
    }
}

// ── Lookup predicates over the model ──

pub open spec fn has_user_named(users: Seq<UserV>, name: Seq<char>) -> bool {
    exists|i: int| 0 <= i < users.len() && #[trigger] users[i].username == name
}

pub open spec fn user_named_idx(users: Seq<UserV>, name: Seq<char>) -> int {
    choose|i: int| 0 <= i < users.len() && #[trigger] users[i].username == name
}

pub open spec fn user_named(users: Seq<UserV>, name: Seq<char>) -> UserV {
    users[user_named_idx(users, name)]
}

pub open spec fn has_user_id(users: Seq<UserV>, id: Seq<char>) -> bool {
    exists|i: int| 0 <= i < users.len() && #[trigger] users[i].id == id
}

pub open spec fn user_id_idx(users: Seq<UserV>, id: Seq<char>) -> int {
    choose|i: int| 0 <= i < users.len() && #[trigger] users[i].id == id
}

pub open spec fn user_with_id(users: Seq<UserV>, id: Seq<char>) -> UserV {
    users[user_id_idx(users, id)]
}

pub open spec fn has_session(sessions: Seq<SessV>, token: Seq<char>) -> bool {
    exists|i: int| 0 <= i < sessions.len() && #[trigger] sessions[i].token == token
}

pub open spec fn session_idx(sessions: Seq<SessV>, token: Seq<char>) -> int {
    choose|i: int| 0 <= i < sessions.len() && #[trigger] sessions[i].token == token
}

pub open spec fn session_with(sessions: Seq<SessV>, token: Seq<char>) -> SessV {
    sessions[session_idx(sessions, token)]
}

pub open spec fn has_insp(inspections: Seq<InspV>, id: Seq<char>) -> bool {
    exists|i: int| 0 <= i < inspections.len() && #[trigger] inspections[i].id == id
}

pub open spec fn insp_idx(inspections: Seq<InspV>, id: Seq<char>) -> int {
    choose|i: int| 0 <= i < inspections.len() && #[trigger] inspections[i].id == id
}

pub open spec fn insp_with(inspections: Seq<InspV>, id: Seq<char>) -> InspV {
    inspections[insp_idx(inspections, id)]
}

pub open spec fn has_resp(responses: Seq<RespV>, iid: Seq<char>, cid: u32) -> bool {
    exists|i: int|
        0 <= i < responses.len() && (#[trigger] responses[i]).inspection_id == iid
            && responses[i].criterion_id == cid
}

pub open spec fn resp_idx(responses: Seq<RespV>, iid: Seq<char>, cid: u32) -> int {
    choose|i: int|
        0 <= i < responses.len() && (#[trigger] responses[i]).inspection_id == iid
            && responses[i].criterion_id == cid
}

/// The account that owns the session bearing the token.
pub open spec fn session_owner(d: DbV, token: Seq<char>) -> UserV {
    user_with_id(d.users, session_with(d.sessions, token).user_id)
}

/// A session is valid exactly when its expiry lies in the future and its
/// owning account is still active.
pub open spec fn session_valid(d: DbV, token: Seq<char>) -> bool {
    &&& has_session(d.sessions, token)
    &&& session_with(d.sessions, token).expires_at > d.clock
    &&& has_user_id(d.users, session_with(d.sessions, token).user_id)
    &&& user_with_id(d.users, session_with(d.sessions, token).user_id).active
}

/// When a session issued at `clock` expires (saturating at the end of time).
pub open spec fn expiry_at(clock: int) -> int {
    if clock + SESSION_LIFETIME_SECONDS as int <= i64::MAX as int {
        clock + SESSION_LIFETIME_SECONDS as int
    } else {
        i64::MAX as int
    }
}

/// User ids and usernames are unique.
pub open spec fn users_distinct(users: Seq<UserV>) -> bool {
    forall|i: int, j: int|
        0 <= i < j < users.len() ==> (#[trigger] users[i]).id != (#[trigger] users[j]).id
            && users[i].username != users[j].username
}

/// Session tokens are unique.
pub open spec fn sessions_distinct(sessions: Seq<SessV>) -> bool {
    forall|i: int, j: int|
        0 <= i < j < sessions.len() ==> (#[trigger] sessions[i]).token != (
        #[trigger] sessions[j]).token
}

/// Inspection ids are unique.
pub open spec fn insps_distinct(inspections: Seq<InspV>) -> bool {
    forall|i: int, j: int|
        0 <= i < j < inspections.len() ==> (#[trigger] inspections[i]).id != (
        #[trigger] inspections[j]).id
}

/// At most one response per (inspection, criterion) pair.
pub open spec fn resps_distinct(responses: Seq<RespV>) -> bool {
    forall|i: int, j: int|
        0 <= i < j < responses.len() ==> !((#[trigger] responses[i]).inspection_id == (
        #[trigger] responses[j]).inspection_id && responses[i].criterion_id
            == responses[j].criterion_id)
}

/// Every response belongs to a stored inspection.
pub open spec fn resps_reference(inspections: Seq<InspV>, responses: Seq<RespV>) -> bool {
    forall|i: int|
        0 <= i < responses.len() ==> has_insp(
            inspections,
            (#[trigger] responses[i]).inspection_id,
        )
}

/// Audit entry ids are strictly increasing and below the next id to hand out.
pub open spec fn audit_monotone(audit_log: Seq<AuditV>, next_audit_id: int) -> bool {
    &&& forall|i: int, j: int|
        0 <= i < j < audit_log.len() ==> (#[trigger] audit_log[i]).id < (
        #[trigger] audit_log[j]).id
    &&& forall|i: int| 0 <= i < audit_log.len() ==> (#[trigger] audit_log[i]).id < next_audit_id
}

impl DbV {
    /// Well-formedness of the whole store: key uniqueness per table,
    /// referential integrity of responses, monotone append-only audit ids,
    /// and the capacities that keep counts inside `u32`.
    pub open spec fn wf(self) -> bool {
        &&& users_distinct(self.users)
        &&& sessions_distinct(self.sessions)
        &&& insps_distinct(self.inspections)
        &&& resps_distinct(self.responses)
        &&& resps_reference(self.inspections, self.responses)
        &&& audit_monotone(self.audit_log, self.next_audit_id)
        &&& self.next_audit_id <= i64::MAX as int
        &&& self.responses.len() < u32::MAX as int
        &&& self.audit_log.len() < u32::MAX as int
    }
}

// ── Uniqueness of lookups in a well-formed store ──

/// In a store with unique usernames, any row whose username matches is the
/// one the lookup denotes.
pub proof fn lemma_user_named_unique(users: Seq<UserV>, name: Seq<char>, i: int)
    requires
        users_distinct(users),
        0 <= i < users.len(),
        users[i].username == name,
    ensures
        has_user_named(users, name),
        user_named_idx(users, name) == i,
        user_named(users, name) == users[i],
{
    assert(has_user_named(users, name));
    let j = user_named_idx(users, name);
    assert(0 <= j < users.len() && users[j].username == name);
    if j < i {
        assert(users[j].username != users[i].username);
    } else if i < j {
        assert(users[i].username != users[j].username);
    }
}

/// In a store with unique user ids, any row whose id matches is the one the
/// lookup denotes.
pub proof fn lemma_user_id_unique(users: Seq<UserV>, id: Seq<char>, i: int)
    requires
        users_distinct(users),
        0 <= i < users.len(),
        users[i].id == id,
    ensures
        has_user_id(users, id),
        user_id_idx(users, id) == i,
        user_with_id(users, id) == users[i],
{
    assert(has_user_id(users, id));
    let j = user_id_idx(users, id);
    assert(0 <= j < users.len() && users[j].id == id);
    if j < i {
        assert(users[j].id != users[i].id);
    } else if i < j {
        assert(users[i].id != users[j].id);
    }
}

/// In a store with unique tokens, any session whose token matches is the one
/// the lookup denotes.
pub proof fn lemma_session_unique(sessions: Seq<SessV>, token: Seq<char>, i: int)
    requires
        sessions_distinct(sessions),
        0 <= i < sessions.len(),
        sessions[i].token == token,
    ensures
        has_session(sessions, token),
        session_idx(sessions, token) == i,
        session_with(sessions, token) == sessions[i],
{
    assert(has_session(sessions, token));
    let j = session_idx(sessions, token);
    assert(0 <= j < sessions.len() && sessions[j].token == token);
    if j < i {
        assert(sessions[j].token != sessions[i].token);
    } else if i < j {
        assert(sessions[i].token != sessions[j].token);
    }
}

/// In a store with unique inspection ids, any row whose id matches is the
/// one the lookup denotes.
pub proof fn lemma_insp_unique(inspections: Seq<InspV>, id: Seq<char>, i: int)
    requires
        insps_distinct(inspections),
        0 <= i < inspections.len(),
        inspections[i].id == id,
    ensures
        has_insp(inspections, id),
        insp_idx(inspections, id) == i,
        insp_with(inspections, id) == inspections[i],
{
    assert(has_insp(inspections, id));
    let j = insp_idx(inspections, id);
    assert(0 <= j < inspections.len() && inspections[j].id == id);
    if j < i {
        assert(inspections[j].id != inspections[i].id);
    } else if i < j {
        assert(inspections[i].id != inspections[j].id);
    }
}

/// In a store with at most one response per pair, any row matching the pair
/// is the one the lookup denotes.
pub proof fn lemma_resp_unique(responses: Seq<RespV>, iid: Seq<char>, cid: u32, i: int)
    requires
        resps_distinct(responses),
        0 <= i < responses.len(),
        responses[i].inspection_id == iid,
        responses[i].criterion_id == cid,
    ensures
        has_resp(responses, iid, cid),
        resp_idx(responses, iid, cid) == i,
        responses[resp_idx(responses, iid, cid)] == responses[i],
{
    assert(has_resp(responses, iid, cid));
    let j = resp_idx(responses, iid, cid);
    assert(0 <= j < responses.len() && responses[j].inspection_id == iid
        && responses[j].criterion_id == cid);
    if j < i {
        assert(!(responses[j].inspection_id == responses[i].inspection_id
            && responses[j].criterion_id == responses[i].criterion_id));
    } else if i < j {
        assert(!(responses[i].inspection_id == responses[j].inspection_id
            && responses[i].criterion_id == responses[j].criterion_id));
    }
}

// ── Filtering sessions (row deletion) ──

/// The sessions that satisfy `keep`, in stored order.
pub open spec fn sessions_where(s: Seq<SessV>, keep: spec_fn(SessV) -> bool) -> Seq<SessV>
    decreases s.len(),
{
    if s.len() == 0 {
        s
    } else if keep(s.last()) {
        sessions_where(s.drop_last(), keep).push(s.last())
    } else {
        sessions_where(s.drop_last(), keep)
    }
}

/// Filtering sessions keeps only rows of the input sequence that satisfy
/// the predicate, and preserves token uniqueness.
pub proof fn lemma_sessions_where(s: Seq<SessV>, keep: spec_fn(SessV) -> bool)
    ensures
        sessions_where(s, keep).len() <= s.len(),
        forall|k: int|
            0 <= k < sessions_where(s, keep).len() ==> keep(
                #[trigger] sessions_where(s, keep)[k],
            ) && s.contains(sessions_where(s, keep)[k]),
        sessions_distinct(s) ==> sessions_distinct(sessions_where(s, keep)),
    decreases s.len(),
{
    if s.len() > 0 {
        let prev = s.drop_last();
        lemma_sessions_where(prev, keep);
        assert(forall|k: int| 0 <= k < prev.len() ==> prev[k] == s[k]);
        assert(forall|k: int|
            0 <= k < sessions_where(prev, keep).len() ==> s.contains(
                #[trigger] sessions_where(prev, keep)[k],
            )) by {
            assert(forall|k: int|
                0 <= k < sessions_where(prev, keep).len() ==> prev.contains(
                    #[trigger] sessions_where(prev, keep)[k],
                ));
            assert(forall|x: SessV| prev.contains(x) ==> s.contains(x));
        }
        if keep(s.last()) {
            assert(s.contains(s.last()));
            let f = sessions_where(s, keep);
            let fp = sessions_where(prev, keep);
            assert(f == fp.push(s.last()));
            if sessions_distinct(s) {
                assert(sessions_distinct(prev));
                assert forall|i: int, j: int| 0 <= i < j < f.len() implies (#[trigger] f[i]).token
                    != (#[trigger] f[j]).token by {
                    if j < f.len() - 1 {
                        assert(f[i] == fp[i] && f[j] == fp[j]);
                    } else {
                        assert(f[j] == s.last());
                        assert(prev.contains(fp[i]));
                        let m = choose|m: int| 0 <= m < prev.len() && prev[m] == fp[i];
                        assert(s[m] == fp[i]);
                        assert(s[m].token != s[s.len() - 1].token);
                    }
                }
            }
        }
    }
}

/// The sessions whose token differs from `tok`, in stored order.
pub open spec fn sessions_without_token(s: Seq<SessV>, tok: Seq<char>) -> Seq<SessV> {
    sessions_where(s, |x: SessV| x.token != tok)
}

/// The sessions not owned by `uid`, in stored order.
pub open spec fn sessions_without_user(s: Seq<SessV>, uid: Seq<char>) -> Seq<SessV> {
    sessions_where(s, |x: SessV| x.user_id != uid)
}

// ── Filtering responses (cascade deletion) ──

/// The responses that satisfy `keep`, in stored order.
pub open spec fn resps_where(s: Seq<RespV>, keep: spec_fn(RespV) -> bool) -> Seq<RespV>
    decreases s.len(),
{
    if s.len() == 0 {
        s
    } else if keep(s.last()) {
        resps_where(s.drop_last(), keep).push(s.last())
    } else {
        resps_where(s.drop_last(), keep)
    }
}

/// Filtering responses keeps only rows of the input sequence that
/// satisfy the predicate, and preserves pair uniqueness.
pub proof fn lemma_resps_where(s: Seq<RespV>, keep: spec_fn(RespV) -> bool)
    ensures
        resps_where(s, keep).len() <= s.len(),
        forall|k: int|
            0 <= k < resps_where(s, keep).len() ==> keep(#[trigger] resps_where(s, keep)[k])
                && s.contains(resps_where(s, keep)[k]),
        resps_distinct(s) ==> resps_distinct(resps_where(s, keep)),
    decreases s.len(),
{
    if s.len() > 0 {
        let prev = s.drop_last();
        lemma_resps_where(prev, keep);
        assert(forall|k: int| 0 <= k < prev.len() ==> prev[k] == s[k]);
        assert(forall|k: int|
            0 <= k < resps_where(prev, keep).len() ==> s.contains(
                #[trigger] resps_where(prev, keep)[k],
            )) by {
            assert(forall|k: int|
                0 <= k < resps_where(prev, keep).len() ==> prev.contains(
                    #[trigger] resps_where(prev, keep)[k],
                ));
            assert(forall|x: RespV| prev.contains(x) ==> s.contains(x));
        }
        if keep(s.last()) {
            assert(s.contains(s.last()));
            let f = resps_where(s, keep);
            let fp = resps_where(prev, keep);
            assert(f == fp.push(s.last()));
            if resps_distinct(s) {
                assert(resps_distinct(prev));
                assert forall|i: int, j: int| 0 <= i < j < f.len() implies !((
                #[trigger] f[i]).inspection_id == (#[trigger] f[j]).inspection_id
                    && f[i].criterion_id == f[j].criterion_id) by {
                    if j < f.len() - 1 {
                        assert(f[i] == fp[i] && f[j] == fp[j]);
                    } else {
                        assert(f[j] == s.last());
                        assert(prev.contains(fp[i]));
                        let m = choose|m: int| 0 <= m < prev.len() && prev[m] == fp[i];
                        assert(s[m] == fp[i]);
                        assert(!(s[m].inspection_id == s[s.len() - 1].inspection_id
                            && s[m].criterion_id == s[s.len() - 1].criterion_id));
                    }
                }
            }
        }
    }
}

impl Database {
    pub open spec fn wf(&self) -> bool {
        self@.wf()
    }
}

/// The responses not belonging to inspection `iid`, in stored order.
pub open spec fn resps_without_insp(s: Seq<RespV>, iid: Seq<char>) -> Seq<RespV> {
    resps_where(s, |x: RespV| x.inspection_id != iid)
}

// ── Copying rows ──

pub(crate) fn clone_opt_string(o: &Option<String>) -> (r: Option<String>)
    ensures
        r == *o,
{
    match o {
        None => None,
        Some(s) => Some(s.clone()),
    }
}

pub(crate) fn clone_string_vec(v: &Vec<String>) -> (r: Vec<String>)
    ensures
        r.deep_view() == v.deep_view(),
        r@.len() == v@.len(),
{
    let mut r: Vec<String> = Vec::new();
    let mut i: usize = 0;
    while i < v.len()
        invariant
            i <= v@.len(),
            r@.len() == i,
            forall|k: int| 0 <= k < i ==> r@[k]@ == v@[k]@,
        decreases v@.len() - i,
    {
        r.push(v[i].clone());
        i = i + 1;
    }
    proof {
        assert(r.deep_view() =~= v.deep_view());
    }
    r
}

impl Clone for UserRow {
    fn clone(&self) -> (res: Self)
        ensures
            res@ == self@,
    {
        UserRow {
            id: self.id.clone(),
            username: self.username.clone(),
            full_name: self.full_name.clone(),
            role: self.role,
            password_hash: self.password_hash.clone(),
            active: self.active,
            created_at: self.created_at,
            updated_at: self.updated_at,
        }
    }
}

impl Clone for SessionRow {
    fn clone(&self) -> (res: Self)
        ensures
            res@ == self@,
    {
        SessionRow {
            token: self.token.clone(),
            user_id: self.user_id.clone(),
            created_at: self.created_at,
            expires_at: self.expires_at,
        }
    }
}

impl Clone for ResponseRow {
    fn clone(&self) -> (res: Self)
        ensures
            res@ == self@,
    {
        ResponseRow {
            inspection_id: self.inspection_id.clone(),
            criterion_id: self.criterion_id,
            conforme: self.conforme,
            observation: self.observation.clone(),
            updated_by: clone_opt_string(&self.updated_by),
            updated_at: self.updated_at,
        }
    }
}

impl Clone for InspectionRow {
    fn clone(&self) -> (res: Self)
        ensures
            res@ == self@,
    {
        InspectionRow {
            id: self.id.clone(),
            grid_id: self.grid_id.clone(),
            status: self.status,
            date_inspection: self.date_inspection.clone(),
            establishment: self.establishment.clone(),
            inspection_type: self.inspection_type.clone(),
            inspectors: clone_string_vec(&self.inspectors),
            created_by: clone_opt_string(&self.created_by),
            validated_by: clone_opt_string(&self.validated_by),
            validated_at: self.validated_at,
            created_at: self.created_at,
            updated_at: self.updated_at,
        }
    }
}

// ── Trusted primitives ──

#[verifier::external_type_specification]
#[verifier::external_body]
pub struct ExBcryptError(bcrypt::BcryptError);

/// What `bcrypt::verify(password, hash)` reports, with a malformed hash
/// counting as a mismatch; a pure function of the two strings.
pub uninterp spec fn bcrypt_verifies(password: Seq<char>, hash: Seq<char>) -> bool;

/// Relies on `bcrypt::hash`: it salts and hashes the password at the given
/// cost, and `bcrypt::verify` accepts the password against the returned hash
/// (verification re-runs the same computation with the cost and salt carried
/// inside the hash string).
#[verifier::external_body]
pub(crate) fn hash_password(password: &str, cost: u32) -> (r: Result<String, bcrypt::BcryptError>)
    ensures
        r matches Ok(h) ==> bcrypt_verifies(password@, h@),
{
    bcrypt::hash(password, cost)
}

/// Relies on `bcrypt::verify`: whether the password matches the hash; it
/// depends only on the two strings, and a malformed hash yields an error,
/// which is reported here as a mismatch.
#[verifier::external_body]
pub(crate) fn verify_password(password: &str, hash: &str) -> (r: bool)
    ensures
        r == bcrypt_verifies(password@, hash@),
{
    bcrypt::verify(password, hash).unwrap_or(false)
}

/// Relies on `uuid::Uuid::new_v4`: a random identifier whose hyphenated
/// textual form is 36 characters. Nothing further can be promised of a
/// random value.
#[verifier::external_body]
pub(crate) fn new_uuid() -> (r: String)
    ensures
        r@.len() == 36,
{
    uuid::Uuid::new_v4().to_string()
}

/// Relies on `chrono::Local::now`: seconds since the Unix epoch as read
/// from the wall clock. Nothing can be promised of the clock's value.
#[verifier::external_body]
pub(crate) fn now_epoch() -> (r: i64) {
    chrono::Local::now().timestamp()
}

// ── Construction and the clock ──

impl Database {
    /// Creates an empty store and seeds the one default administrative
    /// account, as the schema bootstrap does on first use.
    pub fn new() -> (r: Result<Database, AppError>)
        ensures
            r matches Ok(d) ==> {
                &&& d.wf()
                &&& d@.users.len() == 1
                &&& d@.users[0].username == "admin"@
                &&& d@.users[0].role == Role::Admin
                &&& d@.users[0].active
                &&& bcrypt_verifies("admin123"@, d@.users[0].password_hash)
                &&& d@.users[0].created_at == d@.clock
                &&& d@.users[0].updated_at == d@.clock
                &&& d@.sessions.len() == 0
                &&& d@.inspections.len() == 0
                &&& d@.responses.len() == 0
                &&& d@.audit_log.len() == 0
                &&& d@.next_audit_id == 1
            },
            r matches Err(e) ==> e matches AppError::StorageFailure,
    {
        let hash = match hash_password("admin123", 8) {
            Ok(h) => h,
            Err(_) => {
                return Err(AppError::StorageFailure);
            },
        };
        let id = new_uuid();
        let now = now_epoch();
        let admin = UserRow {
            id,
            username: "admin".to_owned(),
            full_name: "Administrateur".to_owned(),
            role: Role::Admin,
            password_hash: hash,
            active: true,
            created_at: now,
            updated_at: now,
        };
        let mut users: Vec<UserRow> = Vec::new();
        users.push(admin);
        Ok(
            Database {
                clock: now,
                users,
                sessions: Vec::new(),
                inspections: Vec::new(),
                responses: Vec::new(),
                audit_log: Vec::new(),
                next_audit_id: 1,
            },
        )
    }
}

/// Sets the instant that subsequent operations treat as "now".
pub fn set_clock(db: &mut Database, now: i64)
    requires
        old(db).wf(),
    ensures
        final(db).wf(),
        final(db)@ == (DbV { clock: now as int, ..old(db)@ }),
{
    db.clock = now;
}

/// Reads the wall clock and stores it as the instant subsequent
/// operations treat as "now". Every table is left untouched.
pub fn refresh_clock(db: &mut Database)
    requires
        old(db).wf(),
    ensures
        final(db).wf(),
        final(db)@ == (DbV { clock: final(db)@.clock, ..old(db)@ }),
{
    let now = now_epoch();
    set_clock(db, now);
}

} // verus!

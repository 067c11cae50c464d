//! Inspection records: lifecycle status, metadata, per-criterion responses
//! and the derived progress counts.

use vstd::prelude::*;

use crate::db::{
    clone_opt_string, clone_string_vec, has_insp, has_resp, has_user_id, insp_idx, insp_with,
    insps_distinct, insps_view, lemma_insp_unique, lemma_resp_unique, lemma_resps_where,
    lemma_user_id_unique, new_uuid, resp_idx, resps_view, resps_where, resps_without_insp,
    user_with_id, users_distinct, users_view, Database, DbV, InspV, InspectionRow, RespV,
    ResponseRow, UserRow, UserV,
};
use crate::users::find_user_by_id;
use crate::AppError;

verus! {

/// Lifecycle status of an inspection: a closed set of states.
#[derive(Clone, Copy, Debug, PartialEq, Eq, Structural)]
pub enum Status {
    Draft,
    InProgress,
    Completed,
    Validated,
    Archived,
}

pub open spec fn status_label_spec(s: Status) -> Seq<char> {
    match s {
        Status::Draft => "draft"@,
        Status::InProgress => "in_progress"@,
        Status::Completed => "completed"@,
        Status::Validated => "validated"@,
        Status::Archived => "archived"@,
    }
}

impl Status {
    /// The stored textual name of the status.
    pub fn label(self) -> (r: &'static str)
        ensures
            r@ == status_label_spec(self),
    {
        match self {
            Status::Draft => "draft",
            Status::InProgress => "in_progress",
            Status::Completed => "completed",
            Status::Validated => "validated",
            Status::Archived => "archived",
        }
    }
}

/// Derived progress counts of one inspection; never stored, always computed.
#[derive(Clone, Copy, Debug, PartialEq, Eq, Structural)]
pub struct InspectionProgress {
    pub total: u32,
    pub answered: u32,
    pub conforme: u32,
    pub non_conforme: u32,
}

/// One inspection as handed to callers, enriched with the display names of
/// its creator and validator and a fresh progress snapshot.
#[derive(Debug)]
pub struct SavedInspection {
    pub id: String,
    pub grid_id: String,
    pub status: Status,
    pub date_inspection: String,
    pub establishment: String,
    pub inspection_type: String,
    pub inspectors: Vec<String>,
    pub created_by: Option<String>,
    pub created_by_name: Option<String>,
    pub validated_by: Option<String>,
    pub validated_by_name: Option<String>,
    pub validated_at: Option<i64>,
    pub created_at: i64,
    pub updated_at: i64,
    pub progress: InspectionProgress,
}

/// One stored response as handed to callers.
#[derive(Debug)]
pub struct SavedResponse {
    pub criterion_id: u32,
    pub conforme: Option<bool>,
    pub observation: String,
    pub updated_by: Option<String>,
    pub updated_at: i64,
}

#[derive(Debug)]
pub struct CreateInspectionRequest {
    pub grid_id: String,
    pub date_inspection: String,
    pub establishment: String,
    pub inspection_type: String,
    pub inspectors: Vec<String>,
}

// ── Progress counts ──

/// How many response rows exist for the inspection. This deliberately
/// counts rows ever written, not the catalog size.
pub open spec fn count_total(s: Seq<RespV>, iid: Seq<char>) -> int
    decreases s.len(),
{
    if s.len() == 0 {
        0
    } else {
        count_total(s.drop_last(), iid) + (if s.last().inspection_id == iid {
            1int
        } else {
            0int
        })
    }
}

/// How many rows of the inspection carry a verdict.
pub open spec fn count_answered(s: Seq<RespV>, iid: Seq<char>) -> int
    decreases s.len(),
{
    if s.len() == 0 {
        0
    } else {
        count_answered(s.drop_last(), iid) + (if s.last().inspection_id == iid
            && s.last().conforme is Some {
            1int
        } else {
            0int
        })
    }
}

/// How many rows of the inspection are marked compliant.
pub open spec fn count_conforme(s: Seq<RespV>, iid: Seq<char>) -> int
    decreases s.len(),
{
    if s.len() == 0 {
        0
    } else {
        count_conforme(s.drop_last(), iid) + (if s.last().inspection_id == iid
            && s.last().conforme == Some(true) {
            1int
        } else {
            0int
        })
    }
}

/// How many rows of the inspection are marked non-compliant.
pub open spec fn count_nonconforme(s: Seq<RespV>, iid: Seq<char>) -> int
    decreases s.len(),
{
    if s.len() == 0 {
        0
    } else {
        count_nonconforme(s.drop_last(), iid) + (if s.last().inspection_id == iid
            && s.last().conforme == Some(false) {
            1int
        } else {
            0int
        })
    }
}

/// The verdict counts partition the answered count, which never exceeds the
/// row count.
pub proof fn lemma_progress_bounds(s: Seq<RespV>, iid: Seq<char>)
    ensures
        0 <= count_conforme(s, iid),
        0 <= count_nonconforme(s, iid),
        count_answered(s, iid) == count_conforme(s, iid) + count_nonconforme(s, iid),
        count_answered(s, iid) <= count_total(s, iid),
        count_total(s, iid) <= s.len(),
    decreases s.len(),
{
    if s.len() > 0 {
        lemma_progress_bounds(s.drop_last(), iid);
        let c = s.last().conforme;
        assert(c is Some ==> c == Some(true) || c == Some(false)) by {
            if c is Some {
                if c->0 {
                    assert(c == Some(true));
                } else {
                    assert(c == Some(false));
                }
            }
        }
    }
}

/// Derives the progress counts of the inspection from the response table.
pub fn get_progress(db: &Database, inspection_id: &str) -> (r: InspectionProgress)
    requires
        db.wf(),
    ensures
        r.total as int == count_total(db@.responses, inspection_id@),
        r.answered as int == count_answered(db@.responses, inspection_id@),
        r.conforme as int == count_conforme(db@.responses, inspection_id@),
        r.non_conforme as int == count_nonconforme(db@.responses, inspection_id@),
        r.answered == r.conforme + r.non_conforme,
        r.answered <= r.total,
{
    let iid = inspection_id.to_owned();
    let ghost all = db@.responses;
    let mut total: u32 = 0;
    let mut answered: u32 = 0;
    let mut conforme: u32 = 0;
    let mut non_conforme: u32 = 0;
    let mut i: usize = 0;
    while i < db.responses.len()
        invariant
            db.wf(),
            all == db@.responses,
            iid@ == inspection_id@,
            i <= db.responses@.len(),
            total as int == count_total(all.subrange(0, i as int), inspection_id@),
            answered as int == count_answered(all.subrange(0, i as int), inspection_id@),
            conforme as int == count_conforme(all.subrange(0, i as int), inspection_id@),
            non_conforme as int == count_nonconforme(all.subrange(0, i as int), inspection_id@),
        decreases db.responses@.len() - i,
    {
        proof {
            assert(all.subrange(0, i + 1).drop_last() =~= all.subrange(0, i as int));
            assert(all.subrange(0, i + 1).last() == all[i as int]);
            lemma_progress_bounds(all.subrange(0, i + 1), inspection_id@);
            assert(all.subrange(0, i + 1).len() <= all.len());
        }
        if db.responses[i].inspection_id == iid {
            total = total + 1;
            match db.responses[i].conforme {
                Some(true) => {
                    answered = answered + 1;
                    conforme = conforme + 1;
                },
                Some(false) => {
                    answered = answered + 1;
                    non_conforme = non_conforme + 1;
                },
                None => {},
            }
        }
        i = i + 1;
    }
    proof {
        assert(all.subrange(0, all.len() as int) =~= all);
        lemma_progress_bounds(all, inspection_id@);
    }
    InspectionProgress { total, answered, conforme, non_conforme }
}

// ── Lookup helpers ──

pub(crate) fn find_insp(inspections: &Vec<InspectionRow>, id: &String) -> (r: Option<usize>)
    ensures
        (match r {
            Some(i) => i < inspections@.len() && insps_view(inspections@)[i as int].id == id@,
            None => !has_insp(insps_view(inspections@), id@),
        }),
{
    let mut i: usize = 0;
    while i < inspections.len()
        invariant
            i <= inspections@.len(),
            forall|k: int| 0 <= k < i ==> insps_view(inspections@)[k].id != id@,
        decreases inspections@.len() - i,
    {
        if inspections[i].id == *id {
            return Some(i);
        }
        i = i + 1;
    }
    proof {
        if has_insp(insps_view(inspections@), id@) {
            let w = choose|w: int|
                0 <= w < insps_view(inspections@).len() && #[trigger] insps_view(
                    inspections@,
                )[w].id == id@;
            assert(insps_view(inspections@)[w].id != id@);
        }
    }
    None
}

pub(crate) fn find_resp(responses: &Vec<ResponseRow>, iid: &String, cid: u32) -> (r: Option<usize>)
    ensures
        (match r {
            Some(i) => i < responses@.len() && resps_view(responses@)[i as int].inspection_id
                == iid@ && resps_view(responses@)[i as int].criterion_id == cid,
            None => !has_resp(resps_view(responses@), iid@, cid),
        }),
{
    let mut i: usize = 0;
    while i < responses.len()
        invariant
            i <= responses@.len(),
            forall|k: int|
                0 <= k < i ==> !((#[trigger] resps_view(responses@)[k]).inspection_id == iid@
                    && resps_view(responses@)[k].criterion_id == cid),
        decreases responses@.len() - i,
    {
        if responses[i].inspection_id == *iid && responses[i].criterion_id == cid {
            return Some(i);
        }
        i = i + 1;
    }
    proof {
        if has_resp(resps_view(responses@), iid@, cid) {
            let w = choose|w: int|
                0 <= w < resps_view(responses@).len() && (#[trigger] resps_view(
                    responses@,
                )[w]).inspection_id == iid@ && resps_view(responses@)[w].criterion_id == cid;
            assert(!(resps_view(responses@)[w].inspection_id == iid@ && resps_view(
                responses@,
            )[w].criterion_id == cid));
        }
    }
    None
}

// ── Projections handed to callers ──

pub open spec fn opt_time_view(o: Option<i64>) -> Option<int> {
    match o {
        Some(t) => Some(t as int),
        None => None,
    }
}

pub open spec fn opt_str_view(o: Option<&str>) -> Option<Seq<char>> {
    match o {
        Some(s) => Some(s@),
        None => None,
    }
}

/// The display name joined in from the user table: the full name of the
/// referenced account, absent when the reference is absent or dangling.
pub open spec fn display_name(users: Seq<UserV>, o: Option<Seq<char>>) -> Option<Seq<char>> {
    match o {
        None => None,
        Some(id) => if has_user_id(users, id) {
            Some(user_with_id(users, id).full_name)
        } else {
            None
        },
    }
}

pub(crate) fn name_of_user(users: &Vec<UserRow>, id: &Option<String>) -> (r: Option<String>)
    requires
        users_distinct(users_view(users@)),
    ensures
        r.deep_view() == display_name(users_view(users@), id.deep_view()),
{
    match id {
        None => None,
        Some(s) => {
            match find_user_by_id(users, s) {
                None => None,
                Some(j) => {
                    proof {
                        lemma_user_id_unique(users_view(users@), s@, j as int);
                    }
                    Some(users[j].full_name.clone())
                },
            }
        },
    }
}

/// `s` is the caller-facing enrichment of the stored inspection `iv`:
/// the row itself, the joined display names, and a fresh progress snapshot.
pub open spec fn saved_matches(d: DbV, iv: InspV, s: SavedInspection) -> bool {
    &&& s.id@ == iv.id
    &&& s.grid_id@ == iv.grid_id
    &&& s.status == iv.status
    &&& s.date_inspection@ == iv.date_inspection
    &&& s.establishment@ == iv.establishment
    &&& s.inspection_type@ == iv.inspection_type
    &&& s.inspectors.deep_view() == iv.inspectors
    &&& s.created_by.deep_view() == iv.created_by
    &&& s.validated_by.deep_view() == iv.validated_by
    &&& opt_time_view(s.validated_at) == iv.validated_at
    &&& s.created_at as int == iv.created_at
    &&& s.updated_at as int == iv.updated_at
    &&& s.created_by_name.deep_view() == display_name(d.users, iv.created_by)
    &&& s.validated_by_name.deep_view() == display_name(d.users, iv.validated_by)
    &&& s.progress.total as int == count_total(d.responses, iv.id)
    &&& s.progress.answered as int == count_answered(d.responses, iv.id)
    &&& s.progress.conforme as int == count_conforme(d.responses, iv.id)
    &&& s.progress.non_conforme as int == count_nonconforme(d.responses, iv.id)
}

fn build_saved(db: &Database, idx: usize) -> (s: SavedInspection)
    requires
        db.wf(),
        idx < db.inspections@.len(),
    ensures
        saved_matches(db@, db@.inspections[idx as int], s),
{
    let progress = get_progress(db, db.inspections[idx].id.as_str());
    let created_by_name = name_of_user(&db.users, &db.inspections[idx].created_by);
    let validated_by_name = name_of_user(&db.users, &db.inspections[idx].validated_by);
    let row = &db.inspections[idx];
    SavedInspection {
        id: row.id.clone(),
        grid_id: row.grid_id.clone(),
        status: row.status,
        date_inspection: row.date_inspection.clone(),
        establishment: row.establishment.clone(),
        inspection_type: row.inspection_type.clone(),
        inspectors: clone_string_vec(&row.inspectors),
        created_by: clone_opt_string(&row.created_by),
        created_by_name,
        validated_by: clone_opt_string(&row.validated_by),
        validated_by_name,
        validated_at: row.validated_at,
        created_at: row.created_at,
        updated_at: row.updated_at,
        progress,
    }
}

// ── Creating and reading inspections ──

/// Everything but the inspection table is unchanged.
pub open spec fn same_except_inspections(d0: DbV, d1: DbV) -> bool {
    &&& d1.clock == d0.clock
    &&& d1.users == d0.users
    &&& d1.sessions == d0.sessions
    &&& d1.responses == d0.responses
    &&& d1.audit_log == d0.audit_log
    &&& d1.next_audit_id == d0.next_audit_id
}

/// Shape of a successful creation: one fresh draft row at the head of the
/// recency order, owned by the creator, stamped with the current instant.
pub open spec fn create_ok_shape(
    d0: DbV,
    d1: DbV,
    id: Seq<char>,
    req: CreateInspectionRequest,
    uid: Seq<char>,
) -> bool {
    &&& same_except_inspections(d0, d1)
    &&& has_user_id(d0.users, uid)
    &&& !has_insp(d0.inspections, id)
    &&& d1.inspections == d0.inspections.insert(
        0,
        (InspV {
            id: id,
            grid_id: req.grid_id@,
            status: Status::Draft,
            date_inspection: req.date_inspection@,
            establishment: req.establishment@,
            inspection_type: req.inspection_type@,
            inspectors: req.inspectors.deep_view(),
            created_by: Some(uid),
            validated_by: None,
            validated_at: None,
            created_at: d0.clock,
            updated_at: d0.clock,
        }),
    )
}

/// Persists a fresh draft inspection owned by the creator, placed at the
/// head of the recency order.
pub fn create_inspection(db: &mut Database, req: &CreateInspectionRequest, user_id: &str) -> (r:
    Result<String, AppError>)
    requires
        old(db).wf(),
    ensures
        final(db).wf(),
        same_except_inspections(old(db)@, final(db)@),
        !has_user_id(old(db)@.users, user_id@) ==> (r matches Err(AppError::StorageFailure))
            && final(db)@ == old(db)@,
        has_user_id(old(db)@.users, user_id@) ==> (r is Ok || ((r matches Err(
            AppError::StorageFailure,
        )) && final(db)@ == old(db)@)),
        r matches Ok(id) ==> create_ok_shape(old(db)@, final(db)@, id@, *req, user_id@),
{
    let uid = user_id.to_owned();
    match find_user_by_id(&db.users, &uid) {
        None => {
            return Err(AppError::StorageFailure);
        },
        Some(_) => {},
    }
    let id = new_uuid();
    match find_insp(&db.inspections, &id) {
        Some(_) => {
            return Err(AppError::StorageFailure);
        },
        None => {},
    }
    let row = InspectionRow {
        id: id.clone(),
        grid_id: req.grid_id.clone(),
        status: Status::Draft,
        date_inspection: req.date_inspection.clone(),
        establishment: req.establishment.clone(),
        inspection_type: req.inspection_type.clone(),
        inspectors: clone_string_vec(&req.inspectors),
        created_by: Some(uid),
        validated_by: None,
        validated_at: None,
        created_at: db.clock,
        updated_at: db.clock,
    };
    let ghost nv = row@;
    let ghost prev = old(db)@.inspections;
    db.inspections.insert(0, row);
    proof {
        assert(db@.inspections =~= prev.insert(0, nv));
        prev.insert_ensures(0, nv);
        assert forall|i: int, j: int| 0 <= i < j < db@.inspections.len() implies (
        #[trigger] db@.inspections[i]).id != (#[trigger] db@.inspections[j]).id by {
            if i == 0 {
                if prev[j - 1].id == nv.id {
                    assert(has_insp(prev, nv.id));
                }
            } else {
                assert(prev[i - 1].id != prev[j - 1].id);
            }
        }
        assert forall|i: int|
            0 <= i < db@.responses.len() implies has_insp(
            db@.inspections,
            (#[trigger] db@.responses[i]).inspection_id,
        ) by {
            assert(has_insp(prev, db@.responses[i].inspection_id));
            let w = choose|w: int|
                0 <= w < prev.len() && #[trigger] prev[w].id == db@.responses[i].inspection_id;
            assert(db@.inspections[w + 1].id == db@.responses[i].inspection_id);
        }
        assert(db.wf());
    }
    Ok(id)
}

/// One inspection satisfies the optional creator and status filters.
pub open spec fn insp_matches(iv: InspV, uidf: Option<Seq<char>>, stf: Option<Status>) -> bool {
    &&& (match uidf {
        Some(u) => iv.created_by == Some(u),
        None => true,
    })
    &&& (match stf {
        Some(st) => iv.status == st,
        None => true,
    })
}

/// The inspections satisfying both optional filters, in stored (recency)
/// order.
pub open spec fn insps_matching(
    s: Seq<InspV>,
    uidf: Option<Seq<char>>,
    stf: Option<Status>,
) -> Seq<InspV>
    decreases s.len(),
{
    if s.len() == 0 {
        s
    } else if insp_matches(s.last(), uidf, stf) {
        insps_matching(s.drop_last(), uidf, stf).push(s.last())
    } else {
        insps_matching(s.drop_last(), uidf, stf)
    }
}

/// Lists inspections, optionally filtered by creator and status, most
/// recently updated first, each enriched with a fresh progress snapshot.
pub fn list_inspections(db: &Database, user_id: Option<&str>, status: Option<Status>) -> (r:
    Result<Vec<SavedInspection>, AppError>)
    requires
        db.wf(),
    ensures
        r is Ok,
        r matches Ok(v) ==> {
            let flt = insps_matching(db@.inspections, opt_str_view(user_id), status);
            &&& v@.len() == flt.len()
            &&& forall|k: int| 0 <= k < flt.len() ==> saved_matches(db@, flt[k], #[trigger] v@[k])
        },
{
    let uf: Option<String> = match user_id {
        Some(u) => Some(u.to_owned()),
        None => None,
    };
    let ghost uidf = opt_str_view(user_id);
    let ghost all = db@.inspections;
    let mut v: Vec<SavedInspection> = Vec::new();
    let mut i: usize = 0;
    while i < db.inspections.len()
        invariant
            db.wf(),
            all == db@.inspections,
            uidf == opt_str_view(user_id),
            (match uf {
                Some(ref u) => uidf == Some(u@),
                None => uidf is None,
            }),
            i <= db.inspections@.len(),
            v@.len() == insps_matching(all.subrange(0, i as int), uidf, status).len(),
            forall|k: int|
                0 <= k < v@.len() ==> saved_matches(
                    db@,
                    insps_matching(all.subrange(0, i as int), uidf, status)[k],
                    #[trigger] v@[k],
                ),
        decreases db.inspections@.len() - i,
    {
        proof {
            assert(all.subrange(0, i + 1).drop_last() =~= all.subrange(0, i as int));
            assert(all.subrange(0, i + 1).last() == all[i as int]);
        }
        let keep_user = match &uf {
            None => true,
            Some(u) => {
                match &db.inspections[i].created_by {
                    Some(c) => *c == *u,
                    None => false,
                }
            },
        };
        let keep_status = match status {
            None => true,
            Some(st) => db.inspections[i].status == st,
        };
        proof {
            assert(keep_user == (match uidf {
                Some(u) => all[i as int].created_by == Some(u),
                None => true,
            }));
        }
        if keep_user && keep_status {
            let s = build_saved(db, i);
            v.push(s);
        }
        i = i + 1;
    }
    proof {
        assert(all.subrange(0, all.len() as int) =~= all);
    }
    Ok(v)
}

/// Fetches one inspection with its display names and progress snapshot.
pub fn get_inspection(db: &Database, inspection_id: &str) -> (r: Result<
    SavedInspection,
    AppError,
>)
    requires
        db.wf(),
    ensures
        r is Ok <==> has_insp(db@.inspections, inspection_id@),
        r matches Ok(s) ==> saved_matches(db@, insp_with(db@.inspections, inspection_id@), s),
        r matches Err(e) ==> e matches AppError::NotFound,
{
    let iid = inspection_id.to_owned();
    let idx = match find_insp(&db.inspections, &iid) {
        None => {
            return Err(AppError::NotFound);
        },
        Some(i) => i,
    };
    proof {
        lemma_insp_unique(db@.inspections, inspection_id@, idx as int);
    }
    Ok(build_saved(db, idx))
}

/// One stored response as handed out, stripped of its inspection reference.
pub open spec fn saved_resp_matches(rv: RespV, s: SavedResponse) -> bool {
    &&& s.criterion_id == rv.criterion_id
    &&& s.conforme == rv.conforme
    &&& s.observation@ == rv.observation
    &&& s.updated_by.deep_view() == rv.updated_by
    &&& s.updated_at as int == rv.updated_at
}

/// The responses of one inspection, in stored order.
pub open spec fn resps_of(s: Seq<RespV>, iid: Seq<char>) -> Seq<RespV>
    decreases s.len(),
{
    if s.len() == 0 {
        s
    } else if s.last().inspection_id == iid {
        resps_of(s.drop_last(), iid).push(s.last())
    } else {
        resps_of(s.drop_last(), iid)
    }
}

/// Loads every response row of the inspection. The order carries no
/// meaning; callers reconcile against the external catalog themselves.
pub fn get_responses(db: &Database, inspection_id: &str) -> (r: Result<Vec<SavedResponse>, AppError>)
    requires
        db.wf(),
    ensures
        r is Ok,
        r matches Ok(v) ==> {
            let flt = resps_of(db@.responses, inspection_id@);
            &&& v@.len() == flt.len()
            &&& forall|k: int| 0 <= k < flt.len() ==> saved_resp_matches(flt[k], #[trigger] v@[k])
        },
{
    let iid = inspection_id.to_owned();
    let ghost all = db@.responses;
    let mut v: Vec<SavedResponse> = Vec::new();
    let mut i: usize = 0;
    while i < db.responses.len()
        invariant
            all == db@.responses,
            iid@ == inspection_id@,
            i <= db.responses@.len(),
            v@.len() == resps_of(all.subrange(0, i as int), inspection_id@).len(),
            forall|k: int|
                0 <= k < v@.len() ==> saved_resp_matches(
                    resps_of(all.subrange(0, i as int), inspection_id@)[k],
                    #[trigger] v@[k],
                ),
        decreases db.responses@.len() - i,
    {
        proof {
            assert(all.subrange(0, i + 1).drop_last() =~= all.subrange(0, i as int));
            assert(all.subrange(0, i + 1).last() == all[i as int]);
        }
        if db.responses[i].inspection_id == iid {
            let row = &db.responses[i];
            v.push(
                SavedResponse {
                    criterion_id: row.criterion_id,
                    conforme: row.conforme,
                    observation: row.observation.clone(),
                    updated_by: clone_opt_string(&row.updated_by),
                    updated_at: row.updated_at,
                },
            );
        }
        i = i + 1;
    }
    proof {
        assert(all.subrange(0, all.len() as int) =~= all);
    }
    Ok(v)
}

// ── Moving an inspection to the head of the recency order ──

/// The inspection table with the row at `k` replaced by `nv` and moved to
/// the front: every mutation makes its inspection the most recent one.
pub open spec fn moved_front(prev: Seq<InspV>, k: int, nv: InspV) -> Seq<InspV> {
    prev.remove(k).insert(0, nv)
}

pub proof fn lemma_move_front(prev: Seq<InspV>, k: int, nv: InspV)
    requires
        insps_distinct(prev),
        0 <= k < prev.len(),
        nv.id == prev[k].id,
    ensures
        moved_front(prev, k, nv).len() == prev.len(),
        moved_front(prev, k, nv)[0] == nv,
        forall|m: int| 1 <= m <= k ==> #[trigger] moved_front(prev, k, nv)[m] == prev[m - 1],
        forall|m: int| k < m < prev.len() ==> #[trigger] moved_front(prev, k, nv)[m] == prev[m],
        insps_distinct(moved_front(prev, k, nv)),
        forall|id: Seq<char>| #[trigger] has_insp(moved_front(prev, k, nv), id) <==> has_insp(
            prev,
            id,
        ),
{
    let rem = prev.remove(k);
    prev.remove_ensures(k);
    rem.insert_ensures(0, nv);
    let moved = moved_front(prev, k, nv);
    assert(forall|m: int| 0 <= m < rem.len() ==> #[trigger] moved[m + 1] == rem[m]);
    assert forall|m: int| 1 <= m <= k implies #[trigger] moved[m] == prev[m - 1] by {
        assert(moved[(m - 1) + 1] == rem[m - 1]);
    }
    assert forall|m: int| k < m < prev.len() implies #[trigger] moved[m] == prev[m] by {
        assert(moved[(m - 1) + 1] == rem[m - 1]);
        assert(rem[m - 1] == prev[m]);
    }
    assert forall|i: int, j: int| 0 <= i < j < moved.len() implies (#[trigger] moved[i]).id != (
    #[trigger] moved[j]).id by {
        let pj = if j <= k {
            j - 1
        } else {
            j
        };
        assert(moved[j] == prev[pj]);
        if i == 0 {
            assert(pj != k);
            if pj < k {
                assert(prev[pj].id != prev[k].id);
            } else {
                assert(prev[k].id != prev[pj].id);
            }
        } else {
            let pi = if i <= k {
                i - 1
            } else {
                i
            };
            assert(moved[i] == prev[pi]);
            assert(pi < pj);
            assert(prev[pi].id != prev[pj].id);
        }
    }
    assert forall|id: Seq<char>| #[trigger] has_insp(moved, id) <==> has_insp(prev, id) by {
        if has_insp(moved, id) {
            let m = choose|m: int| 0 <= m < moved.len() && #[trigger] moved[m].id == id;
            if m == 0 {
                assert(prev[k].id == id);
            } else if m <= k {
                assert(prev[m - 1].id == id);
            } else {
                assert(prev[m].id == id);
            }
        }
        if has_insp(prev, id) {
            let w = choose|w: int| 0 <= w < prev.len() && #[trigger] prev[w].id == id;
            if w == k {
                assert(moved[0].id == id);
            } else if w < k {
                assert(moved[w + 1].id == id);
            } else {
                assert(moved[w].id == id);
            }
        }
    }
}

// ── Writing a response ──

/// The row after the automatic edge of the state machine: a draft
/// inspection advances to in-progress, any other status is left untouched;
/// the update instant is stamped either way.
pub open spec fn advanced(iv: InspV, now: int) -> InspV {
    InspV {
        status: if iv.status == Status::Draft {
            Status::InProgress
        } else {
            iv.status
        },
        updated_at: now,
        ..iv
    }
}

/// The response row a save writes.
pub open spec fn new_resp(
    iid: Seq<char>,
    cid: u32,
    conf: Option<bool>,
    obs: Seq<char>,
    uid: Seq<char>,
    now: int,
) -> RespV {
    RespV {
        inspection_id: iid,
        criterion_id: cid,
        conforme: conf,
        observation: obs,
        updated_by: Some(uid),
        updated_at: now,
    }
}

/// Shape of a successful save: the (inspection, criterion) row is inserted
/// or overwritten — never duplicated — and the parent inspection is stamped,
/// advanced out of draft if it was one, and moved to the head of the
/// recency order. Nothing else changes.
pub open spec fn save_ok_shape(
    d0: DbV,
    d1: DbV,
    iid: Seq<char>,
    cid: u32,
    conf: Option<bool>,
    obs: Seq<char>,
    uid: Seq<char>,
) -> bool {
    &&& d1.clock == d0.clock
    &&& d1.users == d0.users
    &&& d1.sessions == d0.sessions
    &&& d1.audit_log == d0.audit_log
    &&& d1.next_audit_id == d0.next_audit_id
    &&& has_insp(d0.inspections, iid)
    &&& d1.inspections == moved_front(
        d0.inspections,
        insp_idx(d0.inspections, iid),
        advanced(insp_with(d0.inspections, iid), d0.clock),
    )
    &&& d1.responses == (if has_resp(d0.responses, iid, cid) {
        d0.responses.update(
            resp_idx(d0.responses, iid, cid),
            new_resp(iid, cid, conf, obs, uid, d0.clock),
        )
    } else {
        d0.responses.push(new_resp(iid, cid, conf, obs, uid, d0.clock))
    })
}

/// Upserts the (inspection, criterion) row. As a side effect — the one
/// automatic transition in the system — a draft parent advances to
/// in-progress; any other status is left untouched.
pub fn save_response(
    db: &mut Database,
    inspection_id: &str,
    criterion_id: u32,
    conforme: Option<bool>,
    observation: &str,
    user_id: &str,
) -> (r: Result<(), AppError>)
    requires
        old(db).wf(),
    ensures
        final(db).wf(),
        !has_insp(old(db)@.inspections, inspection_id@) ==> (r matches Err(AppError::NotFound))
            && final(db)@ == old(db)@,
        has_insp(old(db)@.inspections, inspection_id@) && !has_user_id(old(db)@.users, user_id@)
            ==> (r matches Err(AppError::StorageFailure)) && final(db)@ == old(db)@,
        has_insp(old(db)@.inspections, inspection_id@) && has_user_id(old(db)@.users, user_id@)
            && (has_resp(old(db)@.responses, inspection_id@, criterion_id) || old(
            db,
        )@.responses.len() < u32::MAX as int - 1) ==> r is Ok,
        r matches Err(e) ==> final(db)@ == old(db)@ && (e matches AppError::NotFound || e matches
            AppError::StorageFailure),
        r is Ok ==> has_user_id(old(db)@.users, user_id@) && save_ok_shape(
            old(db)@,
            final(db)@,
            inspection_id@,
            criterion_id,
            conforme,
            observation@,
            user_id@,
        ),
{
    let iid = inspection_id.to_owned();
    let k = match find_insp(&db.inspections, &iid) {
        None => {
            return Err(AppError::NotFound);
        },
        Some(k) => k,
    };
    proof {
        lemma_insp_unique(old(db)@.inspections, inspection_id@, k as int);
    }
    let uid = user_id.to_owned();
    match find_user_by_id(&db.users, &uid) {
        None => {
            return Err(AppError::StorageFailure);
        },
        Some(_) => {},
    }
    let jopt = find_resp(&db.responses, &iid, criterion_id);
    let nrow = ResponseRow {
        inspection_id: iid,
        criterion_id,
        conforme,
        observation: observation.to_owned(),
        updated_by: Some(uid),
        updated_at: db.clock,
    };
    let ghost nrv = nrow@;
    let ghost prev_resps = old(db)@.responses;
    match jopt {
        Some(j) => {
            proof {
                lemma_resp_unique(prev_resps, inspection_id@, criterion_id, j as int);
            }
            let _replaced = db.responses.remove(j);
            db.responses.insert(j, nrow);
            proof {
                assert(db@.responses =~= prev_resps.update(j as int, nrv)) by {
                    prev_resps.remove_ensures(j as int);
                    prev_resps.remove(j as int).insert_ensures(j as int, nrv);
                }
                assert forall|a: int, b: int| 0 <= a < b < db@.responses.len() implies !((
                #[trigger] db@.responses[a]).inspection_id == (
                #[trigger] db@.responses[b]).inspection_id && db@.responses[a].criterion_id
                    == db@.responses[b].criterion_id) by {
                    assert(!(prev_resps[a].inspection_id == prev_resps[b].inspection_id
                        && prev_resps[a].criterion_id == prev_resps[b].criterion_id));
                }
            }
        },
        None => {
            if db.responses.len() >= (u32::MAX - 1) as usize {
                return Err(AppError::StorageFailure);
            }
            db.responses.push(nrow);
            proof {
                assert(db@.responses =~= prev_resps.push(nrv));
                assert forall|a: int, b: int| 0 <= a < b < db@.responses.len() implies !((
                #[trigger] db@.responses[a]).inspection_id == (
                #[trigger] db@.responses[b]).inspection_id && db@.responses[a].criterion_id
                    == db@.responses[b].criterion_id) by {
                    if b == db@.responses.len() - 1 {
                        if prev_resps[a].inspection_id == inspection_id@ && prev_resps[a].criterion_id
                            == criterion_id {
                            assert(has_resp(prev_resps, inspection_id@, criterion_id));
                        }
                    } else {
                        assert(!(prev_resps[a].inspection_id == prev_resps[b].inspection_id
                            && prev_resps[a].criterion_id == prev_resps[b].criterion_id));
                    }
                }
            }
        },
    }
    let mut irow = db.inspections.remove(k);
    if irow.status == Status::Draft {
        irow.status = Status::InProgress;
    }
    irow.updated_at = db.clock;
    let ghost adv = irow@;
    let ghost prev_insps = old(db)@.inspections;
    db.inspections.insert(0, irow);
    proof {
        assert(adv == advanced(insp_with(prev_insps, inspection_id@), old(db)@.clock));
        lemma_move_front(prev_insps, k as int, adv);
        assert(db@.inspections =~= moved_front(prev_insps, k as int, adv)) by {
            prev_insps.remove_ensures(k as int);
            prev_insps.remove(k as int).insert_ensures(0, adv);
        }
        assert forall|i: int|
            0 <= i < db@.responses.len() implies has_insp(
            db@.inspections,
            (#[trigger] db@.responses[i]).inspection_id,
        ) by {
            if i < prev_resps.len() && db@.responses[i] == prev_resps[i] {
                assert(has_insp(prev_insps, prev_resps[i].inspection_id));
            } else {
                assert(db@.responses[i].inspection_id == inspection_id@);
                assert(has_insp(prev_insps, inspection_id@));
            }
        }
        assert(db.wf());
    }
    Ok(())
}

// ── Metadata, status, deletion ──

/// Shape of a metadata overwrite: when the inspection exists, its date,
/// establishment, type and inspector list are replaced wholesale, it is
/// stamped and moved to the head of the recency order; otherwise nothing
/// changes.
pub open spec fn meta_post(d0: DbV, d1: DbV, iid: Seq<char>, req: CreateInspectionRequest) -> bool {
    &&& same_except_inspections(d0, d1)
    &&& !has_insp(d0.inspections, iid) ==> d1 == d0
    &&& has_insp(d0.inspections, iid) ==> d1.inspections == moved_front(
        d0.inspections,
        insp_idx(d0.inspections, iid),
        (InspV {
            date_inspection: req.date_inspection@,
            establishment: req.establishment@,
            inspection_type: req.inspection_type@,
            inspectors: req.inspectors.deep_view(),
            updated_at: d0.clock,
            ..insp_with(d0.inspections, iid)
        }),
    )
}

/// Overwrites the date, establishment, type and inspector list wholesale
/// (not a partial patch); the grid reference and lifecycle state are left
/// untouched. An unknown id changes nothing and is not an error.
pub fn update_inspection_meta(
    db: &mut Database,
    inspection_id: &str,
    req: &CreateInspectionRequest,
) -> (r: Result<(), AppError>)
    requires
        old(db).wf(),
    ensures
        final(db).wf(),
        r is Ok,
        meta_post(old(db)@, final(db)@, inspection_id@, *req),
{
    let iid = inspection_id.to_owned();
    let k = match find_insp(&db.inspections, &iid) {
        None => {
            return Ok(());
        },
        Some(k) => k,
    };
    proof {
        lemma_insp_unique(old(db)@.inspections, inspection_id@, k as int);
    }
    let mut irow = db.inspections.remove(k);
    irow.date_inspection = req.date_inspection.clone();
    irow.establishment = req.establishment.clone();
    irow.inspection_type = req.inspection_type.clone();
    irow.inspectors = clone_string_vec(&req.inspectors);
    irow.updated_at = db.clock;
    let ghost nv = irow@;
    let ghost prev = old(db)@.inspections;
    db.inspections.insert(0, irow);
    proof {
        lemma_move_front(prev, k as int, nv);
        assert(db@.inspections =~= moved_front(prev, k as int, nv)) by {
            prev.remove_ensures(k as int);
            prev.remove(k as int).insert_ensures(0, nv);
        }
        assert forall|i: int|
            0 <= i < db@.responses.len() implies has_insp(
            db@.inspections,
            (#[trigger] db@.responses[i]).inspection_id,
        ) by {
            assert(has_insp(prev, db@.responses[i].inspection_id));
        }
        assert(db.wf());
    }
    Ok(())
}

/// The row after an explicit status change: entering `validated` stamps the
/// validator and the instant; any other target writes only the status.
pub open spec fn restatused(iv: InspV, st: Status, uidf: Option<Seq<char>>, now: int) -> InspV {
    if st == Status::Validated {
        InspV { status: st, validated_by: uidf, validated_at: Some(now), updated_at: now, ..iv }
    } else {
        InspV { status: st, updated_at: now, ..iv }
    }
}

/// Shape of an explicit status change: when the inspection exists it takes
/// the target status — entering `validated` also stamps the validator and
/// the instant — and moves to the head of the recency order; otherwise
/// nothing changes.
pub open spec fn status_post(
    d0: DbV,
    d1: DbV,
    iid: Seq<char>,
    st: Status,
    uidf: Option<Seq<char>>,
) -> bool {
    &&& same_except_inspections(d0, d1)
    &&& !has_insp(d0.inspections, iid) ==> d1 == d0
    &&& has_insp(d0.inspections, iid) ==> d1.inspections == moved_front(
        d0.inspections,
        insp_idx(d0.inspections, iid),
        restatused(insp_with(d0.inspections, iid), st, uidf, d0.clock),
    )
}

/// Sets the lifecycle status. The state machine is permissive by design:
/// any explicit target is accepted here; gating entry into `validated`
/// behind a role is the caller's duty, through the authorization chokepoint.
pub fn set_status(
    db: &mut Database,
    inspection_id: &str,
    status: Status,
    user_id: Option<&str>,
) -> (r: Result<(), AppError>)
    requires
        old(db).wf(),
    ensures
        final(db).wf(),
        same_except_inspections(old(db)@, final(db)@),
        !has_insp(old(db)@.inspections, inspection_id@) ==> r is Ok && final(db)@ == old(db)@,
        has_insp(old(db)@.inspections, inspection_id@) && status == Status::Validated && (match
            user_id {
            Some(u) => !has_user_id(old(db)@.users, u@),
            None => false,
        }) ==> (r matches Err(AppError::StorageFailure)) && final(db)@ == old(db)@,
        (status != Status::Validated || (match user_id {
            Some(u) => has_user_id(old(db)@.users, u@),
            None => true,
        })) ==> r is Ok && status_post(
            old(db)@,
            final(db)@,
            inspection_id@,
            status,
            opt_str_view(user_id),
        ),
{
    let iid = inspection_id.to_owned();
    let k = match find_insp(&db.inspections, &iid) {
        None => {
            return Ok(());
        },
        Some(k) => k,
    };
    proof {
        lemma_insp_unique(old(db)@.inspections, inspection_id@, k as int);
    }
    let validated = match status {
        Status::Validated => true,
        _ => false,
    };
    if validated {
        match user_id {
            Some(u) => {
                let uid = u.to_owned();
                match find_user_by_id(&db.users, &uid) {
                    None => {
                        return Err(AppError::StorageFailure);
                    },
                    Some(_) => {},
                }
            },
            None => {},
        }
    }
    let mut irow = db.inspections.remove(k);
    irow.status = status;
    if validated {
        irow.validated_by = match user_id {
            Some(u) => Some(u.to_owned()),
            None => None,
        };
        irow.validated_at = Some(db.clock);
    }
    irow.updated_at = db.clock;
    let ghost nv = irow@;
    let ghost prev = old(db)@.inspections;
    db.inspections.insert(0, irow);
    proof {
        assert(nv == restatused(
            insp_with(prev, inspection_id@),
            status,
            opt_str_view(user_id),
            old(db)@.clock,
        ));
        lemma_move_front(prev, k as int, nv);
        assert(db@.inspections =~= moved_front(prev, k as int, nv)) by {
            prev.remove_ensures(k as int);
            prev.remove(k as int).insert_ensures(0, nv);
        }
        assert forall|i: int|
            0 <= i < db@.responses.len() implies has_insp(
            db@.inspections,
            (#[trigger] db@.responses[i]).inspection_id,
        ) by {
            assert(has_insp(prev, db@.responses[i].inspection_id));
        }
        assert(db.wf());
    }
    Ok(())
}

/// Shape of a deletion: when the inspection exists its row disappears and
/// every response it owned is deleted in cascade; otherwise nothing
/// changes. No other table is touched.
pub open spec fn delete_post(d0: DbV, d1: DbV, iid: Seq<char>) -> bool {
    &&& d1.clock == d0.clock
    &&& d1.users == d0.users
    &&& d1.sessions == d0.sessions
    &&& d1.audit_log == d0.audit_log
    &&& d1.next_audit_id == d0.next_audit_id
    &&& !has_insp(d0.inspections, iid) ==> d1 == d0
    &&& has_insp(d0.inspections, iid) ==> d1.inspections == d0.inspections.remove(
        insp_idx(d0.inspections, iid),
    ) && d1.responses == resps_without_insp(d0.responses, iid)
}

/// Removes the inspection; its responses are deleted in cascade, keeping
/// the referential invariant. An unknown id changes nothing.
pub fn delete_inspection(db: &mut Database, inspection_id: &str) -> (r: Result<(), AppError>)
    requires
        old(db).wf(),
    ensures
        final(db).wf(),
        r is Ok,
        delete_post(old(db)@, final(db)@, inspection_id@),
{
    let iid = inspection_id.to_owned();
    let k = match find_insp(&db.inspections, &iid) {
        None => {
            return Ok(());
        },
        Some(k) => k,
    };
    proof {
        lemma_insp_unique(old(db)@.inspections, inspection_id@, k as int);
    }
    let ghost all = old(db)@.responses;
    let mut kept: Vec<ResponseRow> = Vec::new();
    let mut i: usize = 0;
    while i < db.responses.len()
        invariant
            all == resps_view(db.responses@),
            iid@ == inspection_id@,
            i <= db.responses@.len(),
            resps_view(kept@) =~= resps_without_insp(all.subrange(0, i as int), inspection_id@),
        decreases db.responses@.len() - i,
    {
        proof {
            assert(all.subrange(0, i + 1).drop_last() =~= all.subrange(0, i as int));
            assert(all.subrange(0, i + 1).last() == all[i as int]);
        }
        if !(db.responses[i].inspection_id == iid) {
            kept.push(db.responses[i].clone());
        }
        i = i + 1;
    }
    proof {
        assert(all.subrange(0, all.len() as int) =~= all);
        lemma_resps_where(all, |x: RespV| x.inspection_id != inspection_id@);
    }
    db.responses = kept;
    let _removed = db.inspections.remove(k);
    proof {
        let ghost prev = old(db)@.inspections;
        assert(db@.inspections =~= prev.remove(k as int)) by {
            prev.remove_ensures(k as int);
        }
        prev.remove_ensures(k as int);
        assert forall|a: int, b: int| 0 <= a < b < db@.inspections.len() implies (
        #[trigger] db@.inspections[a]).id != (#[trigger] db@.inspections[b]).id by {
            let pa = if a < k {
                a
            } else {
                a + 1
            };
            let pb = if b < k {
                b
            } else {
                b + 1
            };
            assert(db@.inspections[a] == prev[pa] && db@.inspections[b] == prev[pb]);
            assert(prev[pa].id != prev[pb].id);
        }
        assert forall|i: int|
            0 <= i < db@.responses.len() implies has_insp(
            db@.inspections,
            (#[trigger] db@.responses[i]).inspection_id,
        ) by {
            assert(all.contains(db@.responses[i]));
            let m = choose|m: int| 0 <= m < all.len() && all[m] == db@.responses[i];
            assert(has_insp(prev, all[m].inspection_id));
            let riid = all[m].inspection_id;
            let w = choose|w: int| 0 <= w < prev.len() && #[trigger] prev[w].id == riid;
            assert(db@.responses[i].inspection_id != inspection_id@);
            assert(w != k);
            if w < k {
                assert(db@.inspections[w].id == prev[w].id);
            } else {
                assert(db@.inspections[w - 1].id == prev[w].id);
            }
        }
        assert(db.wf());
    }
    Ok(())
}

// ── Laws of the response ledger ──

/// Writing a response to a draft inspection advances it to in-progress
/// exactly once: a first write advances a draft, and a write to any
/// non-draft inspection never changes its status — the transition cannot
/// regress or re-trigger.
pub proof fn lemma_save_advances_draft_once(
    d0: DbV,
    d1: DbV,
    iid: Seq<char>,
    cid: u32,
    conf: Option<bool>,
    obs: Seq<char>,
    uid: Seq<char>,
)
    requires
        d0.wf(),
        save_ok_shape(d0, d1, iid, cid, conf, obs, uid),
    ensures
        has_insp(d1.inspections, iid),
        insp_with(d0.inspections, iid).status == Status::Draft ==> insp_with(
            d1.inspections,
            iid,
        ).status == Status::InProgress,
        insp_with(d0.inspections, iid).status != Status::Draft ==> insp_with(
            d1.inspections,
            iid,
        ).status == insp_with(d0.inspections, iid).status,
{
    let k = insp_idx(d0.inspections, iid);
    assert(0 <= k < d0.inspections.len() && d0.inspections[k].id == iid);
    let adv = advanced(insp_with(d0.inspections, iid), d0.clock);
    lemma_move_front(d0.inspections, k, adv);
    lemma_insp_unique(d1.inspections, iid, 0);
}

/// Saving a response is idempotent: repeating the identical call changes
/// neither the response table nor the inspection table, the pair's row
/// exists exactly once, and the row count grows by one only when the pair
/// was new.
pub proof fn lemma_save_idempotent(
    d0: DbV,
    d1: DbV,
    d2: DbV,
    iid: Seq<char>,
    cid: u32,
    conf: Option<bool>,
    obs: Seq<char>,
    uid: Seq<char>,
)
    requires
        d0.wf(),
        d1.wf(),
        save_ok_shape(d0, d1, iid, cid, conf, obs, uid),
        save_ok_shape(d1, d2, iid, cid, conf, obs, uid),
    ensures
        d2.responses == d1.responses,
        d2.inspections == d1.inspections,
        has_resp(d1.responses, iid, cid),
        count_total(d1.responses, iid) == count_total(d0.responses, iid) + (if has_resp(
            d0.responses,
            iid,
            cid,
        ) {
            0int
        } else {
            1int
        }),
{
    let nv = new_resp(iid, cid, conf, obs, uid, d0.clock);
    if has_resp(d0.responses, iid, cid) {
        let j = resp_idx(d0.responses, iid, cid);
        assert(0 <= j < d0.responses.len() && d0.responses[j].inspection_id == iid
            && d0.responses[j].criterion_id == cid);
        assert(d1.responses == d0.responses.update(j, nv));
        assert(d1.responses[j] == nv);
        lemma_resp_unique(d1.responses, iid, cid, j);
        assert(d2.responses == d1.responses.update(j, nv));
        assert(d1.responses.update(j, nv) =~= d1.responses);
        lemma_count_total_update_same(d0.responses, j, nv, iid);
    } else {
        let ll = d0.responses.len() as int;
        assert(d1.responses == d0.responses.push(nv));
        assert(d1.responses[ll] == nv);
        lemma_resp_unique(d1.responses, iid, cid, ll);
        assert(d2.responses == d1.responses.update(ll, nv));
        assert(d1.responses.update(ll, nv) =~= d1.responses);
        assert(d1.responses.drop_last() =~= d0.responses);
        assert(count_total(d1.responses, iid) == count_total(d0.responses, iid) + 1);
    }
    let k0 = insp_idx(d0.inspections, iid);
    assert(0 <= k0 < d0.inspections.len() && d0.inspections[k0].id == iid);
    let adv0 = advanced(insp_with(d0.inspections, iid), d0.clock);
    lemma_move_front(d0.inspections, k0, adv0);
    lemma_insp_unique(d1.inspections, iid, 0);
    assert(insp_with(d1.inspections, iid) == adv0);
    assert(advanced(adv0, d1.clock) == adv0);
    assert(d2.inspections == moved_front(d1.inspections, 0, adv0));
    assert(d1.inspections.remove(0).insert(0, adv0) =~= d1.inspections) by {
        d1.inspections.remove_ensures(0);
        d1.inspections.remove(0).insert_ensures(0, adv0);
    }
}

/// Overwriting a row with one whose membership in the inspection is the
/// same leaves the row count of that inspection unchanged.
pub proof fn lemma_count_total_update_same(s: Seq<RespV>, j: int, nv: RespV, iid: Seq<char>)
    requires
        0 <= j < s.len(),
        (s[j].inspection_id == iid) == (nv.inspection_id == iid),
    ensures
        count_total(s.update(j, nv), iid) == count_total(s, iid),
    decreases s.len(),
{
    let u = s.update(j, nv);
    if j == s.len() - 1 {
        assert(u.drop_last() =~= s.drop_last());
        assert(u.last() == nv);
    } else {
        assert(u.drop_last() =~= s.drop_last().update(j, nv));
        assert(u.last() == s.last());
        lemma_count_total_update_same(s.drop_last(), j, nv, iid);
    }
}

} // verus!

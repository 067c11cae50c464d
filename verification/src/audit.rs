//! The append-only audit trail and its dynamic, multi-predicate filtered
//! query and count engine with pagination.

use vstd::prelude::*;

use crate::db::{audits_view, clone_opt_string, has_user_id, Database, DbV};
use crate::storage::opt_str_view;
use crate::users::find_user_by_id;
use crate::AppError;

verus! {

/// One entry of the append-only action log. The actor's name is a snapshot
/// taken at write time, so history survives renaming and deactivation.
#[derive(Debug)]
pub struct AuditEntry {
    pub id: i64,
    pub timestamp: i64,
    pub user_id: Option<String>,
    pub username: Option<String>,
    pub action: String,
    pub entity_type: Option<String>,
    pub entity_id: Option<String>,
    pub details: Option<String>,
}

pub ghost struct AuditV {
    pub id: int,
    pub timestamp: int,
    pub user_id: Option<Seq<char>>,
    pub username: Option<Seq<char>>,
    pub action: Seq<char>,
    pub entity_type: Option<Seq<char>>,
    pub entity_id: Option<Seq<char>>,
    pub details: Option<Seq<char>>,
}

impl View for AuditEntry {
    type V = AuditV;

    open spec fn view(&self) -> AuditV {
        AuditV {
            id: self.id as int,
            timestamp: self.timestamp as int,
            user_id: self.user_id.deep_view(),
            username: self.username.deep_view(),
            action: self.action@,
            entity_type: self.entity_type.deep_view(),
            entity_id: self.entity_id.deep_view(),
            details: self.details.deep_view(),
        }
    }
}

/// A set of independently optional predicates, combined with logical AND;
/// an omitted predicate is not applied. `limit` and `offset` paginate the
/// query results after ordering.
#[derive(Debug)]
pub struct AuditFilter {
    pub user_id: Option<String>,
    pub action: Option<String>,
    pub entity_type: Option<String>,
    pub entity_id: Option<String>,
    pub from_date: Option<i64>,
    pub to_date: Option<i64>,
    pub limit: Option<u32>,
    pub offset: Option<u32>,
}

pub ghost struct FilterV {
    pub user_id: Option<Seq<char>>,
    pub action: Option<Seq<char>>,
    pub entity_type: Option<Seq<char>>,
    pub entity_id: Option<Seq<char>>,
    pub from_date: Option<int>,
    pub to_date: Option<int>,
    pub limit: Option<u32>,
    pub offset: Option<u32>,
}

impl View for AuditFilter {
    type V = FilterV;

    open spec fn view(&self) -> FilterV {
        FilterV {
            user_id: self.user_id.deep_view(),
            action: self.action.deep_view(),
            entity_type: self.entity_type.deep_view(),
            entity_id: self.entity_id.deep_view(),
            from_date: (match self.from_date {
                Some(t) => Some(t as int),
                None => None,
            }),
            to_date: (match self.to_date {
                Some(t) => Some(t as int),
                None => None,
            }),
            limit: self.limit,
            offset: self.offset,
        }
    }
}

impl Clone for AuditEntry {
    fn clone(&self) -> (res: Self)
        ensures
            res == *self,
    {
        AuditEntry {
            id: self.id,
            timestamp: self.timestamp,
            user_id: clone_opt_string(&self.user_id),
            username: clone_opt_string(&self.username),
            action: self.action.clone(),
            entity_type: clone_opt_string(&self.entity_type),
            entity_id: clone_opt_string(&self.entity_id),
            details: clone_opt_string(&self.details),
        }
    }
}

// ── Appending to the trail ──

/// There is room to write one more entry without breaking the store's
/// capacity bounds.
pub open spec fn audit_room(d: DbV) -> bool {
    d.audit_log.len() < u32::MAX as int - 1 && d.next_audit_id < i64::MAX as int
}

/// The actor reference, when present, names a stored account.
pub open spec fn actor_ok(d: DbV, uidf: Option<Seq<char>>) -> bool {
    match uidf {
        Some(u) => has_user_id(d.users, u),
        None => true,
    }
}

/// Shape of a best-effort append: when there is room and the actor
/// reference resolves, exactly one entry is appended, stamped with the next
/// id and the current instant; otherwise the write is silently dropped.
/// Either way no other table changes.
pub open spec fn logged(
    d0: DbV,
    d1: DbV,
    uidf: Option<Seq<char>>,
    unamef: Option<Seq<char>>,
    action: Seq<char>,
    etypef: Option<Seq<char>>,
    eidf: Option<Seq<char>>,
    detf: Option<Seq<char>>,
) -> bool {
    &&& d1.clock == d0.clock
    &&& d1.users == d0.users
    &&& d1.sessions == d0.sessions
    &&& d1.inspections == d0.inspections
    &&& d1.responses == d0.responses
    &&& if audit_room(d0) && actor_ok(d0, uidf) {
        &&& d1.audit_log == d0.audit_log.push(
            (AuditV {
                id: d0.next_audit_id,
                timestamp: d0.clock,
                user_id: uidf,
                username: unamef,
                action: action,
                entity_type: etypef,
                entity_id: eidf,
                details: detf,
            }),
        )
        &&& d1.next_audit_id == d0.next_audit_id + 1
    } else {
        d1.audit_log == d0.audit_log && d1.next_audit_id == d0.next_audit_id
    }
}

fn opt_str_to_owned(o: Option<&str>) -> (r: Option<String>)
    ensures
        r.deep_view() == opt_str_view(o),
{
    match o {
        None => None,
        Some(s) => Some(s.to_owned()),
    }
}

/// Appends one entry to the trail, best-effort: a write that cannot be
/// made (no room, or a dangling actor reference) is dropped silently and
/// never fails the operation it describes.
pub fn log_action(
    db: &mut Database,
    user_id: Option<&str>,
    username: Option<&str>,
    action: &str,
    entity_type: Option<&str>,
    entity_id: Option<&str>,
    details: Option<&str>,
)
    requires
        old(db).wf(),
    ensures
        final(db).wf(),
        logged(
            old(db)@,
            final(db)@,
            opt_str_view(user_id),
            opt_str_view(username),
            action@,
            opt_str_view(entity_type),
            opt_str_view(entity_id),
            opt_str_view(details),
        ),
{
    if db.audit_log.len() >= (u32::MAX - 1) as usize {
        return ;
    }
    if db.next_audit_id >= i64::MAX {
        return ;
    }
    match user_id {
        Some(u) => {
            let uid = u.to_owned();
            match find_user_by_id(&db.users, &uid) {
                None => {
                    return ;
                },
                Some(_) => {},
            }
        },
        None => {},
    }
    let entry = AuditEntry {
        id: db.next_audit_id,
        timestamp: db.clock,
        user_id: opt_str_to_owned(user_id),
        username: opt_str_to_owned(username),
        action: action.to_owned(),
        entity_type: opt_str_to_owned(entity_type),
        entity_id: opt_str_to_owned(entity_id),
        details: opt_str_to_owned(details),
    };
    let ghost ev = entry@;
    db.audit_log.push(entry);
    db.next_audit_id = db.next_audit_id + 1;
    proof {
        assert(db@.audit_log =~= old(db)@.audit_log.push(ev));
        assert forall|i: int, j: int| 0 <= i < j < db@.audit_log.len() implies (
        #[trigger] db@.audit_log[i]).id < (#[trigger] db@.audit_log[j]).id by {
            if j < db@.audit_log.len() - 1 {
                assert(old(db)@.audit_log[i].id < old(db)@.audit_log[j].id);
            } else {
                assert(old(db)@.audit_log[i].id < old(db)@.next_audit_id);
            }
        }
        assert(db.wf());
    }
}

/// Appends one entry carrying a full user context; an empty details string
/// is stored as absent.
pub fn log_user_action(
    db: &mut Database,
    user_id: &str,
    username: &str,
    action: &str,
    entity_type: &str,
    entity_id: &str,
    details: &str,
)
    requires
        old(db).wf(),
    ensures
        final(db).wf(),
        logged(
            old(db)@,
            final(db)@,
            Some(user_id@),
            Some(username@),
            action@,
            Some(entity_type@),
            Some(entity_id@),
            (if details@.len() == 0 {
                None
            } else {
                Some(details@)
            }),
        ),
{
    let det: Option<&str> = if details.is_empty() {
        None
    } else {
        Some(details)
    };
    log_action(
        db,
        Some(user_id),
        Some(username),
        action,
        Some(entity_type),
        Some(entity_id),
        det,
    );
}

// ── The filtered query engine ──

/// One entry satisfies every active predicate of the filter; an omitted
/// predicate is not applied, and a predicate on an absent column fails.
pub open spec fn entry_matches(f: FilterV, e: AuditV) -> bool {
    &&& (match f.user_id {
        Some(u) => e.user_id == Some(u),
        None => true,
    })
    &&& (match f.action {
        Some(a) => e.action == a,
        None => true,
    })
    &&& (match f.entity_type {
        Some(t) => e.entity_type == Some(t),
        None => true,
    })
    &&& (match f.entity_id {
        Some(i) => e.entity_id == Some(i),
        None => true,
    })
    &&& (match f.from_date {
        Some(t) => e.timestamp >= t,
        None => true,
    })
    &&& (match f.to_date {
        Some(t) => e.timestamp <= t,
        None => true,
    })
}

/// The entries satisfying every active predicate, newest first (the trail
/// is append-only, so newest-first is the reverse of stored order).
pub open spec fn matching_rev(log: Seq<AuditV>, f: FilterV) -> Seq<AuditV>
    decreases log.len(),
{
    if log.len() == 0 {
        log
    } else {
        matching_rev(log.subrange(1, log.len() as int), f) + (if entry_matches(f, log[0]) {
            seq![log[0]]
        } else {
            Seq::empty()
        })
    }
}

pub proof fn lemma_matching_rev_len(log: Seq<AuditV>, f: FilterV)
    ensures
        matching_rev(log, f).len() <= log.len(),
    decreases log.len(),
{
    if log.len() > 0 {
        lemma_matching_rev_len(log.subrange(1, log.len() as int), f);
    }
}

fn entry_matches_exec(f: &AuditFilter, e: &AuditEntry) -> (r: bool)
    ensures
        r == entry_matches(f@, e@),
{
    let user_ok = match (&f.user_id, &e.user_id) {
        (None, _) => true,
        (Some(u), Some(v)) => *v == *u,
        (Some(_), None) => false,
    };
    let action_ok = match &f.action {
        None => true,
        Some(a) => e.action == *a,
    };
    let etype_ok = match (&f.entity_type, &e.entity_type) {
        (None, _) => true,
        (Some(t), Some(v)) => *v == *t,
        (Some(_), None) => false,
    };
    let eid_ok = match (&f.entity_id, &e.entity_id) {
        (None, _) => true,
        (Some(t), Some(v)) => *v == *t,
        (Some(_), None) => false,
    };
    let from_ok = match f.from_date {
        None => true,
        Some(t) => e.timestamp >= t,
    };
    let to_ok = match f.to_date {
        None => true,
        Some(t) => e.timestamp <= t,
    };
    user_ok && action_ok && etype_ok && eid_ok && from_ok && to_ok
}

/// The entry limit the query applies after ordering (100 when unset).
pub open spec fn query_limit(f: FilterV) -> int {
    match f.limit {
        Some(l) => l as int,
        None => 100,
    }
}

/// The number of leading matches the query skips (0 when unset).
pub open spec fn query_offset(f: FilterV) -> int {
    match f.offset {
        Some(o) => o as int,
        None => 0,
    }
}

/// First index of the returned window within the matching entries.
pub open spec fn query_start(f: FilterV, flen: int) -> int {
    if query_offset(f) <= flen {
        query_offset(f)
    } else {
        flen
    }
}

/// One-past-last index of the returned window within the matching entries.
pub open spec fn query_end(f: FilterV, flen: int) -> int {
    if query_offset(f) + query_limit(f) <= flen {
        query_offset(f) + query_limit(f)
    } else {
        flen
    }
}

/// Collects every entry matching the filter, newest first.
fn collect_matching(db: &Database, filter: &AuditFilter) -> (flt: Vec<AuditEntry>)
    ensures
        audits_view(flt@) == matching_rev(db@.audit_log, filter@),
{
    let ghost all = db@.audit_log;
    let mut flt: Vec<AuditEntry> = Vec::new();
    let mut i: usize = db.audit_log.len();
    while i > 0
        invariant
            all == audits_view(db.audit_log@),
            i <= db.audit_log@.len(),
            audits_view(flt@) =~= matching_rev(all.subrange(i as int, all.len() as int), filter@),
        decreases i,
    {
        i = i - 1;
        proof {
            let suf = all.subrange(i as int, all.len() as int);
            assert(suf.subrange(1, suf.len() as int) =~= all.subrange(
                i + 1,
                all.len() as int,
            ));
            assert(suf[0] == all[i as int]);
        }
        if entry_matches_exec(filter, &db.audit_log[i]) {
            flt.push(db.audit_log[i].clone());
        }
    }
    proof {
        assert(all.subrange(0, all.len() as int) =~= all);
    }
    flt
}

/// Queries the trail: every active predicate must hold, results come
/// newest-first, and `limit`/`offset` paginate after ordering.
pub fn query_audit(db: &Database, filter: &AuditFilter) -> (r: Result<Vec<AuditEntry>, AppError>)
    requires
        db.wf(),
    ensures
        r is Ok,
        r matches Ok(v) ==> {
            let flt = matching_rev(db@.audit_log, filter@);
            let start = query_start(filter@, flt.len() as int);
            let endx = query_end(filter@, flt.len() as int);
            &&& v@.len() == endx - start
            &&& forall|k: int| 0 <= k < v@.len() ==> (#[trigger] v@[k])@ == flt[start + k]
        },
{
    let limit: u32 = match filter.limit {
        Some(l) => l,
        None => 100,
    };
    let offset: u32 = match filter.offset {
        Some(o) => o,
        None => 0,
    };
    let flt = collect_matching(db, filter);
    let flen = flt.len();
    let start: usize = if (offset as usize) <= flen {
        offset as usize
    } else {
        flen
    };
    let endx: usize = if (limit as usize) <= flen - start {
        start + (limit as usize)
    } else {
        flen
    };
    proof {
        let ghost fv = matching_rev(db@.audit_log, filter@);
        assert(fv.len() == flen);
        assert(start as int == query_start(filter@, flen as int));
        assert(endx as int == query_end(filter@, flen as int));
    }
    let mut v: Vec<AuditEntry> = Vec::new();
    let mut j: usize = start;
    while j < endx
        invariant
            start <= j <= endx,
            endx <= flt@.len(),
            v@.len() == j - start,
            forall|k: int|
                0 <= k < v@.len() ==> (#[trigger] v@[k])@ == audits_view(flt@)[start + k],
        decreases endx - j,
    {
        v.push(flt[j].clone());
        j = j + 1;
    }
    Ok(v)
}

/// Counts the entries matching the filter, with the same predicate
/// semantics as the query and no pagination.
pub fn count_audit(db: &Database, filter: &AuditFilter) -> (r: Result<u32, AppError>)
    requires
        db.wf(),
    ensures
        r is Ok,
        r matches Ok(c) ==> c as int == matching_rev(db@.audit_log, filter@).len(),
{
    let ghost all = db@.audit_log;
    let mut count: u32 = 0;
    let mut i: usize = db.audit_log.len();
    while i > 0
        invariant
            db.wf(),
            all == audits_view(db.audit_log@),
            i <= db.audit_log@.len(),
            count as int == matching_rev(all.subrange(i as int, all.len() as int), filter@).len(),
        decreases i,
    {
        i = i - 1;
        proof {
            let suf = all.subrange(i as int, all.len() as int);
            assert(suf.subrange(1, suf.len() as int) =~= all.subrange(
                i + 1,
                all.len() as int,
            ));
            assert(suf[0] == all[i as int]);
            lemma_matching_rev_len(suf, filter@);
            assert(suf.len() <= all.len());
        }
        if entry_matches_exec(filter, &db.audit_log[i]) {
            count = count + 1;
        }
    }
    proof {
        assert(all.subrange(0, all.len() as int) =~= all);
    }
    Ok(count)
}

// ── Laws of the query engine ──

/// Every entry the filtered view holds satisfies every active predicate,
/// comes from the trail, and the view is ordered newest-first (strictly
/// descending entry ids when the trail's ids increase).
pub proof fn lemma_matching_rev_sound(log: Seq<AuditV>, f: FilterV)
    requires
        forall|i: int, j: int| 0 <= i < j < log.len() ==> (#[trigger] log[i]).id < (
        #[trigger] log[j]).id,
    ensures
        forall|k: int|
            0 <= k < matching_rev(log, f).len() ==> entry_matches(
                f,
                #[trigger] matching_rev(log, f)[k],
            ) && log.contains(matching_rev(log, f)[k]),
        forall|k1: int, k2: int|
            0 <= k1 < k2 < matching_rev(log, f).len() ==> (#[trigger] matching_rev(log, f)[k1]).id
                > (#[trigger] matching_rev(log, f)[k2]).id,
    decreases log.len(),
{
    if log.len() > 0 {
        let tail = log.subrange(1, log.len() as int);
        lemma_matching_rev_sound(tail, f);
        let fs = matching_rev(log, f);
        let ft = matching_rev(tail, f);
        assert(forall|m: int| 0 <= m < tail.len() ==> #[trigger] tail[m] == log[m + 1]);
        assert forall|k: int|
            0 <= k < fs.len() implies entry_matches(f, #[trigger] fs[k]) && log.contains(
            fs[k],
        ) by {
            if k < ft.len() {
                assert(fs[k] == ft[k]);
                assert(tail.contains(ft[k]));
                let m = choose|m: int| 0 <= m < tail.len() && tail[m] == ft[k];
                assert(log[m + 1] == fs[k]);
            } else {
                assert(entry_matches(f, log[0]));
                assert(fs[k] == log[0]);
            }
        }
        assert forall|k1: int, k2: int| 0 <= k1 < k2 < fs.len() implies (
        #[trigger] fs[k1]).id > (#[trigger] fs[k2]).id by {
            if k2 < ft.len() {
                assert(fs[k1] == ft[k1] && fs[k2] == ft[k2]);
            } else {
                assert(fs[k2] == log[0]);
                assert(fs[k1] == ft[k1]);
                assert(tail.contains(ft[k1]));
                let m = choose|m: int| 0 <= m < tail.len() && tail[m] == ft[k1];
                assert(log[m + 1] == fs[k1]);
                assert(log[0].id < log[m + 1].id);
            }
        }
    }
}

/// `count` with a filter equals the length of an unpaginated `query` with
/// the same predicates: with no offset and a limit at least the count, the
/// query's window spans every matching entry.
pub proof fn lemma_count_equals_unpaginated_query(d: DbV, f: FilterV)
    requires
        query_offset(f) == 0,
        query_limit(f) >= matching_rev(d.audit_log, f).len(),
    ensures
        query_start(f, matching_rev(d.audit_log, f).len() as int) == 0,
        query_end(f, matching_rev(d.audit_log, f).len() as int) == matching_rev(
            d.audit_log,
            f,
        ).len(),
{
}

} // verus!

use inspection_officine::audit::{count_audit, log_action, log_user_action, query_audit, AuditFilter};
use inspection_officine::commands::{
    cmd_count_audit, cmd_create_inspection, cmd_create_user, cmd_login, cmd_query_audit,
    cmd_save_response,
};
use inspection_officine::db::{set_clock, Database};
use inspection_officine::storage::CreateInspectionRequest;
use inspection_officine::users::{CreateUserRequest, Role};
use inspection_officine::AppError;

fn fresh_db() -> Database {
    let mut db = Database::new().unwrap();
    set_clock(&mut db, 1_000_000);
    db
}

fn no_filter() -> AuditFilter {
    AuditFilter {
        user_id: None,
        action: None,
        entity_type: None,
        entity_id: None,
        from_date: None,
        to_date: None,
        limit: None,
        offset: None,
    }
}

fn admin_id(db: &Database) -> String {
    inspection_officine::users::list_users(db)
        .unwrap()
        .into_iter()
        .find(|u| u.username == "admin")
        .unwrap()
        .id
}

#[test]
fn appended_entries_come_back_newest_first() {
    let mut db = fresh_db();
    let admin = admin_id(&db);
    set_clock(&mut db, 10);
    log_user_action(&mut db, &admin, "admin", "FIRST", "system", "e1", "");
    set_clock(&mut db, 20);
    log_user_action(&mut db, &admin, "admin", "SECOND", "system", "e2", "details here");
    let entries = query_audit(&db, &no_filter()).unwrap();
    assert_eq!(entries.len(), 2);
    assert_eq!(entries[0].action, "SECOND");
    assert_eq!(entries[1].action, "FIRST");
    assert!(entries[0].id > entries[1].id);
    assert_eq!(entries[0].timestamp, 20);
    // an empty details string is stored as absent
    assert!(entries[1].details.is_none());
    assert_eq!(entries[0].details.as_deref(), Some("details here"));
}

#[test]
fn a_dangling_actor_reference_is_dropped_silently() {
    let mut db = fresh_db();
    log_action(&mut db, Some("no-such-user"), Some("ghost"), "ACT", None, None, None);
    assert_eq!(count_audit(&db, &no_filter()).unwrap(), 0);
    // an anonymous entry is accepted
    log_action(&mut db, None, None, "ACT", Some("system"), None, None);
    assert_eq!(count_audit(&db, &no_filter()).unwrap(), 1);
}

#[test]
fn predicates_combine_with_and() {
    let mut db = fresh_db();
    let admin = admin_id(&db);
    log_user_action(&mut db, &admin, "admin", "TOUCH", "inspection", "i1", "");
    log_user_action(&mut db, &admin, "admin", "TOUCH", "user", "u1", "");
    log_action(&mut db, None, None, "TOUCH", Some("inspection"), Some("i2"), None);
    // actor and entity type must both match
    let mut f = no_filter();
    f.user_id = Some(admin.clone());
    f.entity_type = Some("inspection".to_string());
    let entries = query_audit(&db, &f).unwrap();
    assert_eq!(entries.len(), 1);
    assert_eq!(entries[0].entity_id.as_deref(), Some("i1"));
    assert_eq!(entries[0].user_id.as_deref(), Some(admin.as_str()));
    // and the count with the same filter equals the unpaginated query length
    assert_eq!(count_audit(&db, &f).unwrap() as usize, entries.len());
}

#[test]
fn timestamp_bounds_are_inclusive() {
    let mut db = fresh_db();
    for (t, name) in [(10, "a"), (20, "b"), (30, "c")] {
        set_clock(&mut db, t);
        log_action(&mut db, None, None, name, None, None, None);
    }
    let mut f = no_filter();
    f.from_date = Some(10);
    f.to_date = Some(20);
    let entries = query_audit(&db, &f).unwrap();
    let actions: Vec<String> = entries.into_iter().map(|e| e.action).collect();
    assert_eq!(actions, vec!["b".to_string(), "a".to_string()]);
}

#[test]
fn pagination_applies_after_ordering() {
    let mut db = fresh_db();
    for i in 0..5u32 {
        set_clock(&mut db, i as i64);
        log_action(&mut db, None, None, &format!("A{}", i), None, None, None);
    }
    let mut f = no_filter();
    f.limit = Some(2);
    f.offset = Some(1);
    let page = query_audit(&db, &f).unwrap();
    let actions: Vec<String> = page.into_iter().map(|e| e.action).collect();
    // newest first is A4..A0; skipping one and taking two gives A3, A2
    assert_eq!(actions, vec!["A3".to_string(), "A2".to_string()]);
    // an offset past the end yields nothing
    let mut g = no_filter();
    g.offset = Some(100);
    assert!(query_audit(&db, &g).unwrap().is_empty());
    // the count ignores pagination
    assert_eq!(count_audit(&db, &f).unwrap(), 5);
}

#[test]
fn commands_leave_an_audit_trail() {
    let mut db = fresh_db();
    let admin_token = cmd_login(&mut db, "admin", "admin123").unwrap().token;
    let req = CreateUserRequest {
        username: "alice".to_string(),
        full_name: "Alice".to_string(),
        role: Role::Inspector,
        password: "pw".to_string(),
    };
    cmd_create_user(&mut db, &admin_token, &req).unwrap();
    let t = cmd_login(&mut db, "alice", "pw").unwrap().token;
    let creq = CreateInspectionRequest {
        grid_id: "grossiste".to_string(),
        date_inspection: "2024-05-01".to_string(),
        establishment: "Pharmacie X".to_string(),
        inspection_type: "routine".to_string(),
        inspectors: vec![],
    };
    let id = cmd_create_inspection(&mut db, &t, &creq).unwrap();
    cmd_save_response(&mut db, &t, &id, 3, Some(false), "obs").unwrap();
    // the trail holds LOGIN, CREATE_USER, LOGIN, CREATE_INSPECTION, SAVE_RESPONSE
    let entries = cmd_query_audit(&db, &admin_token, &no_filter()).unwrap();
    let actions: Vec<String> = entries.iter().map(|e| e.action.clone()).collect();
    assert_eq!(
        actions,
        vec![
            "SAVE_RESPONSE".to_string(),
            "CREATE_INSPECTION".to_string(),
            "LOGIN".to_string(),
            "CREATE_USER".to_string(),
            "LOGIN".to_string(),
        ]
    );
    // the response entry carries the composite entity key and the details
    assert_eq!(entries[0].entity_id.as_deref(), Some(format!("{}:3", id).as_str()));
    assert_eq!(
        entries[0].details.as_deref(),
        Some("{\"conforme\":false,\"has_obs\":true}")
    );
    assert_eq!(
        entries[1].details.as_deref(),
        Some("{\"grid\":\"grossiste\",\"establishment\":\"Pharmacie X\"}")
    );
    assert_eq!(
        entries[3].details.as_deref(),
        Some("{\"username\":\"alice\",\"role\":\"inspector\"}")
    );
    // querying is gated: alice is no lead inspector
    assert!(matches!(cmd_query_audit(&db, &t, &no_filter()), Err(AppError::Forbidden(_))));
    assert!(matches!(cmd_count_audit(&db, &t, &no_filter()), Err(AppError::Forbidden(_))));
    assert_eq!(cmd_count_audit(&db, &admin_token, &no_filter()).unwrap(), 5);
}

#[test]
fn an_empty_observation_is_reported_as_absent() {
    let mut db = fresh_db();
    let admin_token = cmd_login(&mut db, "admin", "admin123").unwrap().token;
    let creq = CreateInspectionRequest {
        grid_id: "grossiste".to_string(),
        date_inspection: String::new(),
        establishment: "P".to_string(),
        inspection_type: String::new(),
        inspectors: vec![],
    };
    let id = cmd_create_inspection(&mut db, &admin_token, &creq).unwrap();
    cmd_save_response(&mut db, &admin_token, &id, 1, None, "").unwrap();
    let entries = cmd_query_audit(&db, &admin_token, &no_filter()).unwrap();
    assert_eq!(entries[0].action, "SAVE_RESPONSE");
    assert_eq!(
        entries[0].details.as_deref(),
        Some("{\"conforme\":null,\"has_obs\":false}")
    );
}

#[test]
fn logout_is_recorded_before_the_session_disappears() {
    let mut db = fresh_db();
    let admin_token = cmd_login(&mut db, "admin", "admin123").unwrap().token;
    inspection_officine::commands::cmd_logout(&mut db, &admin_token).unwrap();
    // the trail keeps the event although its session is gone
    let t2 = cmd_login(&mut db, "admin", "admin123").unwrap().token;
    let entries = cmd_query_audit(&db, &t2, &no_filter()).unwrap();
    let actions: Vec<String> = entries.iter().map(|e| e.action.clone()).collect();
    assert_eq!(
        actions,
        vec!["LOGIN".to_string(), "LOGOUT".to_string(), "LOGIN".to_string()]
    );
    assert_eq!(entries[1].entity_id.as_deref(), Some(admin_token.as_str()));
}

use inspection_officine::commands::{
    cmd_create_inspection, cmd_create_user, cmd_get_inspection, cmd_list_inspections, cmd_login,
    cmd_save_response, cmd_set_inspection_status, cmd_validate_session,
};
use inspection_officine::db::{set_clock, Database};
use inspection_officine::storage::{
    create_inspection, delete_inspection, get_inspection, get_progress, get_responses,
    list_inspections, save_response, set_status, update_inspection_meta, CreateInspectionRequest,
    InspectionProgress, Status,
};
use inspection_officine::users::{CreateUserRequest, Role};
use inspection_officine::AppError;

fn fresh_db() -> Database {
    let mut db = Database::new().unwrap();
    set_clock(&mut db, 1_000_000);
    db
}

fn insp_request(establishment: &str) -> CreateInspectionRequest {
    CreateInspectionRequest {
        grid_id: "grossiste".to_string(),
        date_inspection: "2024-05-01".to_string(),
        establishment: establishment.to_string(),
        inspection_type: "routine".to_string(),
        inspectors: vec!["Dr A".to_string(), "Dr B".to_string()],
    }
}

fn admin_id(db: &Database) -> String {
    inspection_officine::users::list_users(db)
        .unwrap()
        .into_iter()
        .find(|u| u.username == "admin")
        .unwrap()
        .id
}

#[test]
fn create_and_get_inspection() {
    let mut db = fresh_db();
    let admin = admin_id(&db);
    let id = create_inspection(&mut db, &insp_request("Pharmacie Centrale"), &admin).unwrap();
    let saved = get_inspection(&db, &id).unwrap();
    assert_eq!(saved.id, id);
    assert_eq!(saved.status, Status::Draft);
    assert_eq!(saved.grid_id, "grossiste");
    assert_eq!(saved.establishment, "Pharmacie Centrale");
    assert_eq!(saved.inspectors, vec!["Dr A".to_string(), "Dr B".to_string()]);
    assert_eq!(saved.created_by.as_deref(), Some(admin.as_str()));
    assert_eq!(saved.created_by_name.as_deref(), Some("Administrateur"));
    assert!(saved.validated_by.is_none());
    assert!(saved.validated_at.is_none());
    assert_eq!(
        saved.progress,
        InspectionProgress { total: 0, answered: 0, conforme: 0, non_conforme: 0 }
    );
}

#[test]
fn get_unknown_inspection_is_not_found() {
    let db = fresh_db();
    let r = get_inspection(&db, "missing");
    assert!(matches!(r, Err(AppError::NotFound)));
}

#[test]
fn first_response_advances_draft_exactly_once() {
    let mut db = fresh_db();
    let admin = admin_id(&db);
    let id = create_inspection(&mut db, &insp_request("P"), &admin).unwrap();
    save_response(&mut db, &id, 1, Some(true), "", &admin).unwrap();
    assert_eq!(get_inspection(&db, &id).unwrap().status, Status::InProgress);
    // further writes never regress or re-trigger the transition
    save_response(&mut db, &id, 2, Some(false), "obs", &admin).unwrap();
    assert_eq!(get_inspection(&db, &id).unwrap().status, Status::InProgress);
    // an explicitly completed inspection stays completed on later writes
    set_status(&mut db, &id, Status::Completed, None).unwrap();
    save_response(&mut db, &id, 3, None, "", &admin).unwrap();
    assert_eq!(get_inspection(&db, &id).unwrap().status, Status::Completed);
}

#[test]
fn save_is_an_upsert_and_progress_counts_distinct_criteria() {
    let mut db = fresh_db();
    let admin = admin_id(&db);
    let id = create_inspection(&mut db, &insp_request("P"), &admin).unwrap();
    // repeating the identical call leaves one row, matching the last write
    save_response(&mut db, &id, 7, Some(true), "ok", &admin).unwrap();
    save_response(&mut db, &id, 7, Some(true), "ok", &admin).unwrap();
    let p = get_progress(&db, &id);
    assert_eq!(p, InspectionProgress { total: 1, answered: 1, conforme: 1, non_conforme: 0 });
    // overwriting flips the verdict without duplicating the row
    save_response(&mut db, &id, 7, Some(false), "bad", &admin).unwrap();
    let p2 = get_progress(&db, &id);
    assert_eq!(p2, InspectionProgress { total: 1, answered: 1, conforme: 0, non_conforme: 1 });
    // an unanswered row counts in total only
    save_response(&mut db, &id, 8, None, "to revisit", &admin).unwrap();
    let p3 = get_progress(&db, &id);
    assert_eq!(p3, InspectionProgress { total: 2, answered: 1, conforme: 0, non_conforme: 1 });
    let rows = get_responses(&db, &id).unwrap();
    assert_eq!(rows.len(), 2);
    let seven = rows.iter().find(|r| r.criterion_id == 7).unwrap();
    assert_eq!(seven.conforme, Some(false));
    assert_eq!(seven.observation, "bad");
}

#[test]
fn save_to_unknown_inspection_is_not_found() {
    let mut db = fresh_db();
    let admin = admin_id(&db);
    let r = save_response(&mut db, "missing", 1, Some(true), "", &admin);
    assert!(matches!(r, Err(AppError::NotFound)));
}

#[test]
fn list_filters_by_creator_and_status_most_recent_first() {
    let mut db = fresh_db();
    let admin = admin_id(&db);
    let a = create_inspection(&mut db, &insp_request("A"), &admin).unwrap();
    let b = create_inspection(&mut db, &insp_request("B"), &admin).unwrap();
    // both drafts, most recently touched first
    let all = list_inspections(&db, None, None).unwrap();
    assert_eq!(all.len(), 2);
    assert_eq!(all[0].id, b);
    assert_eq!(all[1].id, a);
    // touching A moves it to the front
    save_response(&mut db, &a, 1, Some(true), "", &admin).unwrap();
    let all2 = list_inspections(&db, None, None).unwrap();
    assert_eq!(all2[0].id, a);
    assert_eq!(all2[0].progress.answered, 1);
    // status filter
    let drafts = list_inspections(&db, None, Some(Status::Draft)).unwrap();
    assert_eq!(drafts.len(), 1);
    assert_eq!(drafts[0].id, b);
    // creator filter
    let none = list_inspections(&db, Some("not-a-user"), None).unwrap();
    assert!(none.is_empty());
    let mine = list_inspections(&db, Some(&admin), None).unwrap();
    assert_eq!(mine.len(), 2);
}

#[test]
fn update_meta_overwrites_wholesale() {
    let mut db = fresh_db();
    let admin = admin_id(&db);
    let id = create_inspection(&mut db, &insp_request("Old name"), &admin).unwrap();
    let req = CreateInspectionRequest {
        grid_id: "ignored-on-update".to_string(),
        date_inspection: "2024-06-02".to_string(),
        establishment: "New name".to_string(),
        inspection_type: "follow-up".to_string(),
        inspectors: vec!["Dr C".to_string()],
    };
    update_inspection_meta(&mut db, &id, &req).unwrap();
    let saved = get_inspection(&db, &id).unwrap();
    assert_eq!(saved.establishment, "New name");
    assert_eq!(saved.date_inspection, "2024-06-02");
    assert_eq!(saved.inspection_type, "follow-up");
    assert_eq!(saved.inspectors, vec!["Dr C".to_string()]);
    // the grid reference is not part of the overwrite
    assert_eq!(saved.grid_id, "grossiste");
}

#[test]
fn validation_stamps_validator_and_instant() {
    let mut db = fresh_db();
    let admin = admin_id(&db);
    let id = create_inspection(&mut db, &insp_request("P"), &admin).unwrap();
    set_clock(&mut db, 2_000_000);
    set_status(&mut db, &id, Status::Validated, Some(&admin)).unwrap();
    let saved = get_inspection(&db, &id).unwrap();
    assert_eq!(saved.status, Status::Validated);
    assert_eq!(saved.validated_by.as_deref(), Some(admin.as_str()));
    assert_eq!(saved.validated_by_name.as_deref(), Some("Administrateur"));
    assert_eq!(saved.validated_at, Some(2_000_000));
    // a plain status change writes only the status
    set_status(&mut db, &id, Status::Archived, Some(&admin)).unwrap();
    let saved2 = get_inspection(&db, &id).unwrap();
    assert_eq!(saved2.status, Status::Archived);
    assert_eq!(saved2.validated_by.as_deref(), Some(admin.as_str()));
    assert_eq!(saved2.validated_at, Some(2_000_000));
}

#[test]
fn delete_cascades_to_responses() {
    let mut db = fresh_db();
    let admin = admin_id(&db);
    let a = create_inspection(&mut db, &insp_request("A"), &admin).unwrap();
    let b = create_inspection(&mut db, &insp_request("B"), &admin).unwrap();
    save_response(&mut db, &a, 1, Some(true), "", &admin).unwrap();
    save_response(&mut db, &b, 1, Some(false), "", &admin).unwrap();
    delete_inspection(&mut db, &a).unwrap();
    assert!(matches!(get_inspection(&db, &a), Err(AppError::NotFound)));
    assert!(get_responses(&db, &a).unwrap().is_empty());
    // the sibling inspection and its responses survive
    assert_eq!(get_responses(&db, &b).unwrap().len(), 1);
    // deleting an unknown id is not an error
    delete_inspection(&mut db, &a).unwrap();
}

#[test]
fn inspection_workflow_scenario() {
    let mut db = fresh_db();
    let admin_token = cmd_login(&mut db, "admin", "admin123").unwrap().token;
    // create user alice with role inspector
    let req = CreateUserRequest {
        username: "alice".to_string(),
        full_name: "Alice".to_string(),
        role: Role::Inspector,
        password: "alice-pw".to_string(),
    };
    cmd_create_user(&mut db, &admin_token, &req).unwrap();
    // login as alice -> token
    let t = cmd_login(&mut db, "alice", "alice-pw").unwrap().token;
    // create an inspection
    let creq = CreateInspectionRequest {
        grid_id: "officine".to_string(),
        date_inspection: "2024-05-01".to_string(),
        establishment: "Pharmacie X".to_string(),
        inspection_type: "routine".to_string(),
        inspectors: vec!["Alice".to_string()],
    };
    let id = cmd_create_inspection(&mut db, &t, &creq).unwrap();
    let saved = cmd_get_inspection(&db, &t, &id).unwrap();
    assert_eq!(saved.status, Status::Draft);
    // first response: status becomes in_progress, progress counts one row
    cmd_save_response(&mut db, &t, &id, 1, Some(true), "").unwrap();
    let saved = cmd_get_inspection(&db, &t, &id).unwrap();
    assert_eq!(saved.status, Status::InProgress);
    assert_eq!(
        saved.progress,
        InspectionProgress { total: 1, answered: 1, conforme: 1, non_conforme: 0 }
    );
    // validation as alice is forbidden; as admin it succeeds and stamps
    let r = cmd_set_inspection_status(&mut db, &t, &id, Status::Validated);
    assert!(matches!(r, Err(AppError::Forbidden(_))));
    cmd_set_inspection_status(&mut db, &admin_token, &id, Status::Validated).unwrap();
    let saved = cmd_get_inspection(&db, &t, &id).unwrap();
    assert_eq!(saved.status, Status::Validated);
    assert!(saved.validated_by.is_some());
    assert!(saved.validated_at.is_some());
    // inspectors only ever see their own inspections
    let visible = cmd_list_inspections(&db, &t, false, None).unwrap();
    assert_eq!(visible.len(), 1);
}

#[test]
fn my_only_restricts_even_administrators() {
    let mut db = fresh_db();
    let admin_token = cmd_login(&mut db, "admin", "admin123").unwrap().token;
    let req = CreateUserRequest {
        username: "alice".to_string(),
        full_name: "Alice".to_string(),
        role: Role::Inspector,
        password: "pw".to_string(),
    };
    cmd_create_user(&mut db, &admin_token, &req).unwrap();
    let t = cmd_login(&mut db, "alice", "pw").unwrap().token;
    let creq = insp_request("Chez Alice");
    cmd_create_inspection(&mut db, &t, &creq).unwrap();
    // the administrator sees everything by default, and owns nothing here
    assert_eq!(cmd_list_inspections(&db, &admin_token, false, None).unwrap().len(), 1);
    assert_eq!(cmd_list_inspections(&db, &admin_token, true, None).unwrap().len(), 0);
}

#[test]
fn deactivating_a_user_kills_their_token() {
    let mut db = fresh_db();
    let admin_token = cmd_login(&mut db, "admin", "admin123").unwrap().token;
    let req = CreateUserRequest {
        username: "alice".to_string(),
        full_name: "Alice".to_string(),
        role: Role::Inspector,
        password: "alice-pw".to_string(),
    };
    let alice = cmd_create_user(&mut db, &admin_token, &req).unwrap();
    let t = cmd_login(&mut db, "alice", "alice-pw").unwrap().token;
    assert!(cmd_validate_session(&db, &t).is_ok());
    inspection_officine::commands::cmd_delete_user(&mut db, &admin_token, &alice.id).unwrap();
    let r = cmd_validate_session(&db, &t);
    assert!(matches!(r, Err(AppError::SessionInvalid)));
}

use inspection_officine::commands::{
    cmd_change_password, cmd_create_user, cmd_delete_user, cmd_list_users, cmd_login, cmd_logout,
    cmd_validate_session, require_role,
};
use inspection_officine::db::{set_clock, Database};
use inspection_officine::users::{
    change_password, create_user, delete_user, list_users, login, logout, update_user,
    validate_session, CreateUserRequest, Role, UpdateUserRequest,
};
use inspection_officine::AppError;

fn fresh_db() -> Database {
    let mut db = Database::new().unwrap();
    set_clock(&mut db, 1_000_000);
    db
}

fn make_user(db: &mut Database, name: &str, role: Role, password: &str) {
    let req = CreateUserRequest {
        username: name.to_string(),
        full_name: format!("User {}", name),
        role,
        password: password.to_string(),
    };
    create_user(db, &req).unwrap();
}

#[test]
fn default_admin_can_login_and_validate() {
    let mut db = fresh_db();
    let info = login(&mut db, "admin", "admin123").unwrap();
    assert_eq!(info.user.username, "admin");
    assert_eq!(info.user.role, Role::Admin);
    assert!(info.user.active);
    // login followed immediately by validation yields the same identity
    let u = validate_session(&db, &info.token).unwrap();
    assert_eq!(u.id, info.user.id);
    assert_eq!(u.username, "admin");
}

#[test]
fn login_with_wrong_password_fails() {
    let mut db = fresh_db();
    let r = login(&mut db, "admin", "wrong-password");
    assert!(matches!(r, Err(AppError::InvalidCredentials)));
}

#[test]
fn login_with_unknown_user_fails_identically() {
    let mut db = fresh_db();
    let unknown = login(&mut db, "nobody", "admin123").unwrap_err();
    let wrong = login(&mut db, "admin", "bad").unwrap_err();
    // unknown user and wrong password are indistinguishable
    assert_eq!(unknown.message(), wrong.message());
    assert!(matches!(unknown, AppError::InvalidCredentials));
}

#[test]
fn session_token_is_a_hyphenated_uuid() {
    let mut db = fresh_db();
    let a = login(&mut db, "admin", "admin123").unwrap();
    let b = login(&mut db, "admin", "admin123").unwrap();
    assert_eq!(a.token.chars().count(), 36);
    assert_ne!(a.token, b.token);
}

#[test]
fn clock_comes_from_the_wall() {
    // the store is created at the real current instant
    let db = Database::new().unwrap();
    assert!(db.clock > 1_600_000_000);
}

#[test]
fn expired_session_is_rejected() {
    let mut db = fresh_db();
    let info = login(&mut db, "admin", "admin123").unwrap();
    // one second before expiry the session still validates
    set_clock(&mut db, 1_000_000 + 86_399);
    assert!(validate_session(&db, &info.token).is_ok());
    // at expiry it no longer does, whatever the account's active flag
    set_clock(&mut db, 1_000_000 + 86_400);
    let r = validate_session(&db, &info.token);
    assert!(matches!(r, Err(AppError::SessionInvalid)));
}

#[test]
fn unknown_token_is_rejected() {
    let db = fresh_db();
    let r = validate_session(&db, "no-such-token");
    assert!(matches!(r, Err(AppError::SessionInvalid)));
}

#[test]
fn logout_deletes_the_session_and_is_idempotent() {
    let mut db = fresh_db();
    let info = login(&mut db, "admin", "admin123").unwrap();
    logout(&mut db, &info.token).unwrap();
    assert!(validate_session(&db, &info.token).is_err());
    // logging out an absent token is not an error
    logout(&mut db, &info.token).unwrap();
    logout(&mut db, "never-existed").unwrap();
}

#[test]
fn deactivation_invalidates_every_outstanding_session() {
    let mut db = fresh_db();
    make_user(&mut db, "alice", Role::Inspector, "s3cret");
    let t1 = login(&mut db, "alice", "s3cret").unwrap().token;
    let t2 = login(&mut db, "alice", "s3cret").unwrap().token;
    let alice_id = validate_session(&db, &t1).unwrap().id;
    delete_user(&mut db, &alice_id).unwrap();
    assert!(matches!(validate_session(&db, &t1), Err(AppError::SessionInvalid)));
    assert!(matches!(validate_session(&db, &t2), Err(AppError::SessionInvalid)));
    // the account is kept, soft-deactivated, and can no longer log in
    let r = login(&mut db, "alice", "s3cret");
    assert!(matches!(r, Err(AppError::AccountDisabled)));
}

#[test]
fn duplicate_username_is_refused() {
    let mut db = fresh_db();
    make_user(&mut db, "alice", Role::Viewer, "pw1");
    let req = CreateUserRequest {
        username: "alice".to_string(),
        full_name: "Another Alice".to_string(),
        role: Role::Admin,
        password: "pw2".to_string(),
    };
    let r = create_user(&mut db, &req);
    assert!(matches!(r, Err(AppError::DuplicateUsername)));
}

#[test]
fn update_user_applies_only_present_fields() {
    let mut db = fresh_db();
    make_user(&mut db, "bob", Role::Inspector, "pw");
    let bob = list_users(&db)
        .unwrap()
        .into_iter()
        .find(|u| u.username == "bob")
        .unwrap();
    let req = UpdateUserRequest {
        full_name: Some("Robert".to_string()),
        role: None,
        active: None,
    };
    update_user(&mut db, &bob.id, &req).unwrap();
    let bob2 = list_users(&db)
        .unwrap()
        .into_iter()
        .find(|u| u.username == "bob")
        .unwrap();
    assert_eq!(bob2.full_name, "Robert");
    assert_eq!(bob2.role, Role::Inspector);
    assert!(bob2.active);
}

#[test]
fn update_of_unknown_user_changes_nothing() {
    let mut db = fresh_db();
    let before = list_users(&db).unwrap().len();
    let req = UpdateUserRequest {
        full_name: Some("Ghost".to_string()),
        role: Some(Role::Admin),
        active: Some(false),
    };
    update_user(&mut db, "missing-id", &req).unwrap();
    assert_eq!(list_users(&db).unwrap().len(), before);
}

#[test]
fn password_rotation_keeps_existing_sessions() {
    let mut db = fresh_db();
    make_user(&mut db, "carol", Role::LeadInspector, "old-pw");
    let session = login(&mut db, "carol", "old-pw").unwrap();
    change_password(&mut db, &session.user.id, "new-pw").unwrap();
    // the already-issued token still validates: rotation does not revoke
    assert!(validate_session(&db, &session.token).is_ok());
    // the old password no longer opens a session, the new one does
    assert!(matches!(login(&mut db, "carol", "old-pw"), Err(AppError::InvalidCredentials)));
    assert!(login(&mut db, "carol", "new-pw").is_ok());
}

#[test]
fn list_users_keeps_creation_order_and_inactive_accounts() {
    let mut db = fresh_db();
    make_user(&mut db, "u1", Role::Viewer, "p");
    make_user(&mut db, "u2", Role::Viewer, "p");
    let u1_id = list_users(&db)
        .unwrap()
        .into_iter()
        .find(|u| u.username == "u1")
        .unwrap()
        .id;
    delete_user(&mut db, &u1_id).unwrap();
    let names: Vec<String> = list_users(&db).unwrap().into_iter().map(|u| u.username).collect();
    assert_eq!(names, vec!["admin".to_string(), "u1".to_string(), "u2".to_string()]);
    let u1 = list_users(&db).unwrap().into_iter().find(|u| u.username == "u1").unwrap();
    assert!(!u1.active);
}

#[test]
fn require_role_reports_the_acceptable_roles() {
    let mut db = fresh_db();
    make_user(&mut db, "viewer", Role::Viewer, "pw");
    let t = login(&mut db, "viewer", "pw").unwrap().token;
    let r = require_role(&db, &t, &[Role::Admin, Role::LeadInspector]);
    match r {
        Err(e @ AppError::Forbidden(_)) => {
            assert_eq!(e.message(), "Accès refusé. Rôle requis : admin ou lead_inspector");
        },
        other => panic!("expected Forbidden, got {:?}", other),
    }
}

#[test]
fn error_messages_are_short_and_french() {
    assert_eq!(AppError::InvalidCredentials.message(), "Identifiants incorrects");
    assert_eq!(AppError::AccountDisabled.message(), "Compte désactivé");
    assert_eq!(AppError::SessionInvalid.message(), "Session invalide ou expirée");
    assert_eq!(AppError::Forbidden(vec![Role::Admin]).message(), "Accès refusé. Rôle requis : admin");
}

#[test]
fn admin_commands_are_gated() {
    let mut db = fresh_db();
    make_user(&mut db, "insp", Role::Inspector, "pw");
    let t = login(&mut db, "insp", "pw").unwrap().token;
    let req = CreateUserRequest {
        username: "x".to_string(),
        full_name: "X".to_string(),
        role: Role::Viewer,
        password: "pw".to_string(),
    };
    assert!(matches!(cmd_create_user(&mut db, &t, &req), Err(AppError::Forbidden(_))));
    assert!(matches!(cmd_delete_user(&mut db, &t, "some-id"), Err(AppError::Forbidden(_))));
    assert!(matches!(cmd_change_password(&mut db, &t, "some-id", "pw"), Err(AppError::Forbidden(_))));
    assert!(matches!(cmd_list_users(&db, &t), Err(AppError::Forbidden(_))));
    // and an invalid token fails earlier, as an invalid session
    assert!(matches!(cmd_list_users(&db, "bad-token"), Err(AppError::SessionInvalid)));
}

#[test]
fn cmd_login_and_logout_round_trip() {
    let mut db = fresh_db();
    let info = cmd_login(&mut db, "admin", "admin123").unwrap();
    assert!(cmd_validate_session(&db, &info.token).is_ok());
    cmd_logout(&mut db, &info.token).unwrap();
    assert!(matches!(cmd_validate_session(&db, &info.token), Err(AppError::SessionInvalid)));
}

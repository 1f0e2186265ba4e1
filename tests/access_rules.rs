use task_hub::enums::{AccessLevelEnum, TaskVisibilityEnum};
use task_hub::error::ModelError;
use task_hub::store::Store;

fn setup() -> (Store, i32, i32) {
    let mut s = Store::new();
    let admin = s.create_role("Admin".to_string()).unwrap();
    let user = s.create_role("User".to_string()).unwrap();
    s.register("u1".to_string(), "u1@example.com".to_string(), "One".to_string(), None, user.id, "vt".to_string(), 10)
        .unwrap();
    s.register("u2".to_string(), "u2@example.com".to_string(), "Two".to_string(), None, user.id, "vt".to_string(), 10)
        .unwrap();
    (s, admin.id, user.id)
}

#[test]
fn creator_gets_single_full_access_grant() {
    let (mut s, _, _) = setup();
    let t = s.add_task("u1", "Write docs".to_string(), None, 20).unwrap();
    assert_eq!(t.visibility, TaskVisibilityEnum::Private);
    let grants = s.list_for_task(t.id);
    assert_eq!(grants.len(), 1);
    assert_eq!(grants[0].accesslevel, AccessLevelEnum::FullAccess);
    assert_eq!(grants[0].user_id, s.find_user_by_pid("u1").unwrap().id);
    assert_eq!(grants[0].task_id, t.id);
}

#[test]
fn view_grant_scenario() {
    let (mut s, _, _) = setup();
    let t = s.add_task("u1", "T1".to_string(), None, 20).unwrap();
    assert_eq!(s.has_access("u1", t.id, &[AccessLevelEnum::FullAccess]), Ok(()));
    s.grant_access_as("u1", t.id, "u2@example.com", AccessLevelEnum::View, 21).unwrap();
    assert_eq!(
        s.has_access("u2", t.id, &[AccessLevelEnum::FullAccess]),
        Err(ModelError::Unauthorized)
    );
    assert_eq!(s.has_access("u2", t.id, &[AccessLevelEnum::View]), Ok(()));
}

#[test]
fn levels_are_not_ranked() {
    let (mut s, _, _) = setup();
    let t = s.add_task("u1", "T1".to_string(), None, 20).unwrap();
    s.grant_access(t.id, "u2@example.com", AccessLevelEnum::Edit, 21).unwrap();
    assert_eq!(s.has_access("u2", t.id, &[AccessLevelEnum::View]), Err(ModelError::Unauthorized));
    assert_eq!(s.has_access("u2", t.id, &[AccessLevelEnum::Edit, AccessLevelEnum::View]), Ok(()));
    assert_eq!(s.has_access("u2", t.id, &[]), Err(ModelError::Unauthorized));
}

#[test]
fn has_access_unknown_actor_or_task() {
    let (mut s, _, _) = setup();
    let t = s.add_task("u1", "T1".to_string(), None, 20).unwrap();
    assert_eq!(s.has_access("nobody", t.id, &[AccessLevelEnum::View]), Err(ModelError::NotFound));
    assert_eq!(s.has_access("u1", t.id + 100, &[AccessLevelEnum::View]), Err(ModelError::NotFound));
    assert_eq!(s.has_access("u2", t.id, &[AccessLevelEnum::View]), Err(ModelError::Unauthorized));
}

#[test]
fn grant_twice_makes_two_rows() {
    let (mut s, _, _) = setup();
    let t = s.add_task("u1", "T1".to_string(), None, 20).unwrap();
    let a = s.grant_access(t.id, "u2@example.com", AccessLevelEnum::View, 21).unwrap();
    let b = s.grant_access(t.id, "u2@example.com", AccessLevelEnum::Edit, 22).unwrap();
    assert_ne!(a.id, b.id);
    assert!(s.accesses.iter().filter(|g| g.id == b.id).count() == 1);
    assert!(s.accesses.iter().all(|g| g.id <= b.id));
    let u2 = s.find_user_by_pid("u2").unwrap().id;
    let rows: Vec<_> = s.list_for_task(t.id).into_iter().filter(|g| g.user_id == u2).collect();
    assert_eq!(rows.len(), 2);
    assert_eq!(rows[0].accesslevel, AccessLevelEnum::View);
    assert_eq!(rows[1].accesslevel, AccessLevelEnum::Edit);
}

#[test]
fn grant_errors() {
    let (mut s, _, _) = setup();
    let t = s.add_task("u1", "T1".to_string(), None, 20).unwrap();
    assert_eq!(
        s.grant_access(t.id, "ghost@example.com", AccessLevelEnum::View, 21),
        Err(ModelError::NotFound)
    );
    assert_eq!(
        s.grant_access(t.id + 7, "u2@example.com", AccessLevelEnum::View, 21),
        Err(ModelError::NotFound)
    );
    assert_eq!(
        s.grant_access_as("u2", t.id, "u2@example.com", AccessLevelEnum::FullAccess, 21),
        Err(ModelError::Unauthorized)
    );
}

#[test]
fn update_access_without_grant_is_not_found() {
    let (mut s, _, _) = setup();
    let t = s.add_task("u1", "T1".to_string(), None, 20).unwrap();
    assert_eq!(
        s.update_access(t.id, "u2", AccessLevelEnum::Edit, 21),
        Err(ModelError::NotFound)
    );
    assert_eq!(
        s.update_access_as("u1", t.id, "u2", AccessLevelEnum::Edit, 21),
        Err(ModelError::NotFound)
    );
}

#[test]
fn update_and_deny_access() {
    let (mut s, _, _) = setup();
    let t = s.add_task("u1", "T1".to_string(), None, 20).unwrap();
    s.grant_access(t.id, "u2@example.com", AccessLevelEnum::View, 21).unwrap();
    let a = s.update_access_as("u1", t.id, "u2", AccessLevelEnum::AddUser, 30).unwrap();
    assert_eq!(a.accesslevel, AccessLevelEnum::AddUser);
    assert_eq!(a.updated_at, 30);
    assert_eq!(a.created_at, 21);
    assert_eq!(s.find_by_pid(t.id, "u2").unwrap().accesslevel, AccessLevelEnum::AddUser);
    assert_eq!(s.find_by_email(t.id, "u2@example.com").unwrap().id, a.id);
    assert_eq!(s.has_access("u2", t.id, &[AccessLevelEnum::AddUser]), Ok(()));
    s.deny_access_as("u2", t.id, "u2").unwrap();
    assert_eq!(s.has_access("u2", t.id, &[AccessLevelEnum::AddUser]), Err(ModelError::Unauthorized));
    assert_eq!(s.deny_access(t.id, "u2"), Err(ModelError::NotFound));
    assert_eq!(s.find_by_pid(t.id, "u2"), Err(ModelError::NotFound));
}

#[test]
fn list_accesses_needs_manager_level() {
    let (mut s, _, _) = setup();
    let t = s.add_task("u1", "T1".to_string(), None, 20).unwrap();
    s.grant_access(t.id, "u2@example.com", AccessLevelEnum::View, 21).unwrap();
    assert_eq!(s.list_accesses("u1", t.id).unwrap().len(), 2);
    assert_eq!(s.list_accesses("u2", t.id), Err(ModelError::Unauthorized));
}

#[test]
fn removing_task_cascades() {
    let (mut s, _, _) = setup();
    let t = s.add_task("u1", "T1".to_string(), None, 20).unwrap();
    let other = s.add_task("u1", "T2".to_string(), None, 20).unwrap();
    s.grant_access(t.id, "u2@example.com", AccessLevelEnum::Edit, 21).unwrap();
    s.add_attachment("u1", t.id, task_hub::enums::AttachmentTypeEnum::Text, "x".to_string(), 22)
        .unwrap();
    assert_eq!(s.remove_task_as("u2", t.id), Err(ModelError::Unauthorized));
    s.remove_task_as("u1", t.id).unwrap();
    assert!(s.list_for_task(t.id).is_empty());
    assert_eq!(s.load_task(t.id), Err(ModelError::NotFound));
    assert_eq!(s.list_attachments(t.id), Err(ModelError::NotFound));
    assert!(s.attachments.is_empty());
    assert_eq!(s.list_for_task(other.id).len(), 1);
    assert_eq!(s.remove_task(t.id), Err(ModelError::NotFound));
}

#[test]
fn error_status_codes() {
    assert_eq!(ModelError::NotFound.status_code(), 404);
    assert_eq!(ModelError::Validation.status_code(), 400);
    assert_eq!(ModelError::Unauthorized.status_code(), 401);
    assert_eq!(ModelError::Conflict.status_code(), 409);
    assert_eq!(ModelError::Forbidden.status_code(), 403);
    assert_eq!(ModelError::Internal.status_code(), 500);
}

use task_hub::enums::{AccessLevelEnum, AttachmentTypeEnum, TaskVisibilityEnum};
use task_hub::error::ModelError;
use task_hub::settings::Settings;
use task_hub::store::Store;
use task_hub::users::{login_decision, TokenKind};
use task_hub::views::{
    access::AccessResponse, auth::CurrentResponse, auth::LoginResponse, role, task::TaskResponse,
    user,
};

fn setup() -> (Store, i32, i32) {
    let mut s = Store::new();
    let admin = s.create_role("Admin".to_string()).unwrap();
    let plain = s.create_role("User".to_string()).unwrap();
    s.register("boss".to_string(), "boss@x.io".to_string(), "Boss".to_string(), Some("h".to_string()), admin.id, "vb".to_string(), 1)
        .unwrap();
    s.register("joe".to_string(), "joe@x.io".to_string(), "Joe".to_string(), None, plain.id, "vt".to_string(), 1)
        .unwrap();
    (s, admin.id, plain.id)
}

#[test]
fn duplicate_registration_conflicts() {
    let (mut s, _, plain) = setup();
    assert_eq!(
        s.register("new".to_string(), "joe@x.io".to_string(), "J".to_string(), None, plain, "vt".to_string(), 2),
        Err(ModelError::Conflict)
    );
    assert_eq!(
        s.register("joe".to_string(), "other@x.io".to_string(), "J".to_string(), None, plain, "vt".to_string(), 2),
        Err(ModelError::Conflict)
    );
    assert_eq!(
        s.register("new".to_string(), "new@x.io".to_string(), "N".to_string(), None, 99, "vt".to_string(), 2),
        Err(ModelError::NotFound)
    );
    let u = s.register("new".to_string(), "new@x.io".to_string(), "N".to_string(), None, plain, "vt".to_string(), 2).unwrap();
    assert_eq!(u.email_verified_at, None);
    assert_eq!(u.email_verification_token, Some("vt".to_string()));
    assert_eq!(s.verify_email("vt", 3).unwrap().email_verified_at, Some(3));
    assert_eq!(s.users.len(), 3);
}

#[test]
fn admin_gate_on_roles() {
    let (mut s, admin, plain) = setup();
    assert_eq!(s.require_admin("boss"), Ok(()));
    assert_eq!(s.require_admin("joe"), Err(ModelError::Unauthorized));
    assert_eq!(s.require_admin("nobody"), Err(ModelError::NotFound));
    assert_eq!(s.add_role("joe", "Editor".to_string()), Err(ModelError::Unauthorized));
    let r = s.add_role("boss", "Editor".to_string()).unwrap();
    assert_eq!(r.name, "Editor");
    let r2 = s.update_role("boss", r.id, "Writer".to_string()).unwrap();
    assert_eq!(r2.name, "Writer");
    assert_eq!(s.update_role("boss", 77, "X".to_string()), Err(ModelError::NotFound));
    assert_eq!(s.remove_role("boss", plain), Err(ModelError::Conflict));
    assert_eq!(s.remove_role("boss", r.id), Ok(()));
    assert_eq!(s.remove_role("boss", r.id), Err(ModelError::NotFound));
    assert_eq!(s.list_roles().len(), 2);
    assert_eq!(s.list_roles()[0].id, admin);
}

#[test]
fn login_outcomes() {
    let (s, _, _) = setup();
    let (u, r) = s.find_by_email_with_role("boss@x.io").unwrap();
    assert_eq!(login_decision(&u, &r, false), Err(ModelError::Unauthorized));
    assert_eq!(login_decision(&u, &r, true), Err(ModelError::Forbidden));
    let mut verified = u;
    verified.email_verified_at = Some(5);
    let ok = login_decision(&verified, &r, true).unwrap();
    assert_eq!(
        ok,
        LoginResponse { pid: "boss".to_string(), name: "Boss".to_string(), is_verified: true, role: "Admin".to_string() }
    );
    assert_eq!(s.find_by_email_with_role("none@x.io"), Err(ModelError::NotFound));
}

#[test]
fn resend_verification_rules() {
    let (s, _, _) = setup();
    assert_eq!(s.resend_verification_check("joe@x.io").unwrap().pid, "joe");
    assert_eq!(s.resend_verification_check("x@x.io"), Err(ModelError::NotFound));
}

#[test]
fn deleting_account_cascades() {
    let (mut s, _, _) = setup();
    let t = s.add_task("boss", "shared".to_string(), Some(TaskVisibilityEnum::Public), 2).unwrap();
    s.grant_access(t.id, "joe@x.io", AccessLevelEnum::Edit, 3).unwrap();
    s.add_attachment("joe", t.id, AttachmentTypeEnum::Progress, "50%".to_string(), 4).unwrap();
    s.add_attachment("boss", t.id, AttachmentTypeEnum::Importance, "high".to_string(), 4).unwrap();
    s.delete_user("joe").unwrap();
    assert_eq!(s.find_user_by_pid("joe"), Err(ModelError::NotFound));
    assert_eq!(s.list_for_task(t.id).len(), 1);
    assert_eq!(s.list_attachments(t.id).unwrap().len(), 1);
    assert_eq!(s.delete_user("joe"), Err(ModelError::NotFound));
}

#[test]
fn views_copy_fields() {
    let (mut s, _, _) = setup();
    let t = s.add_task("boss", "view me".to_string(), None, 2).unwrap();
    let (u, r) = s.find_by_pid_with_role("boss").unwrap();
    let cur = CurrentResponse::new(&u, &r);
    assert_eq!(cur.email, "boss@x.io");
    assert_eq!(cur.role, "Admin");
    let g = user::GetResponse::new(&u, &r);
    assert!(!g.is_verified);
    assert_eq!(g.name, "Boss");
    assert_eq!(role::GetResponse::new(&r).name, "Admin");
    let tr = TaskResponse::new(s.load_task(t.id).unwrap());
    assert_eq!((tr.id, tr.name.as_str(), tr.visibility), (t.id, "view me", TaskVisibilityEnum::Private));
    assert_eq!(TaskResponse::from_vec(s.list_for_user("boss", "boss").unwrap()).len(), 1);
    let acc = AccessResponse::from_vec(s.list_for_task(t.id));
    assert_eq!(acc, vec![AccessResponse { accesslevel: AccessLevelEnum::FullAccess, user_id: u.id, task_id: t.id }]);
    s.add_attachment("boss", t.id, AttachmentTypeEnum::DueDate, "2030-01-01".to_string(), 3).unwrap();
    let full = s.get_full(t.id).unwrap();
    assert_eq!(full.owner.pid, "boss");
    assert_eq!(full.attachments.len(), 1);
    assert_eq!(full.attachments[0].data, "2030-01-01");
    assert_eq!(s.get_full(t.id + 5), Err(ModelError::NotFound));
}

#[test]
fn redirect_urls() {
    let st = Settings { frontend: "app.example.com".to_string(), backend: "api.example.com".to_string() };
    assert_eq!(st.verification_complete_url(), "https://app.example.com/auth/verification-complete");
    assert_eq!(st.login_url(), "https://app.example.com/auth/login");
}

#[test]
fn email_verification_by_token() {
    let (mut s, _, _) = setup();
    assert_eq!(s.verify_email("tok", 5), Err(ModelError::NotFound));
    let u = s.issue_token("joe@x.io", TokenKind::EmailVerification, "tok".to_string(), 4).unwrap();
    assert_eq!(u.email_verification_token, Some("tok".to_string()));
    let v = s.verify_email("tok", 5).unwrap();
    assert_eq!(v.email_verified_at, Some(5));
    let again = s.verify_email("tok", 9).unwrap();
    assert_eq!(again.email_verified_at, Some(5));
    assert_eq!(s.resend_verification_check("joe@x.io"), Err(ModelError::Conflict));
    assert_eq!(
        s.issue_token("nobody@x.io", TokenKind::MagicLink, "m".to_string(), 4),
        Err(ModelError::NotFound)
    );
}

#[test]
fn reset_and_magic_tokens_are_one_time() {
    let (mut s, _, _) = setup();
    s.issue_token("boss@x.io", TokenKind::PasswordReset, "r1".to_string(), 2).unwrap();
    let u = s.reset_password("r1", "newhash".to_string(), 3).unwrap();
    assert_eq!(u.password, Some("newhash".to_string()));
    assert_eq!(u.reset_token, None);
    assert_eq!(s.reset_password("r1", "again".to_string(), 4), Err(ModelError::NotFound));
    s.issue_token("joe@x.io", TokenKind::MagicLink, "m1".to_string(), 2).unwrap();
    assert_eq!(s.consume_magic_link("m1", 3).unwrap().pid, "joe");
    assert_eq!(s.consume_magic_link("m1", 4), Err(ModelError::NotFound));
}

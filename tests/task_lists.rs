use task_hub::enums::{AccessLevelEnum, TaskVisibilityEnum};
use task_hub::error::ModelError;
use task_hub::store::Store;
use task_hub::text::{matches_folded, name_matches};

fn setup() -> Store {
    let mut s = Store::new();
    let role = s.create_role("User".to_string()).unwrap();
    for (pid, email) in [("a", "a@x.io"), ("b", "b@x.io"), ("c", "c@x.io")] {
        s.register(pid.to_string(), email.to_string(), pid.to_string(), None, role.id, "vt".to_string(), 1).unwrap();
    }
    s
}

fn names(v: &[task_hub::models::Task]) -> Vec<String> {
    v.iter().map(|t| t.name.clone()).collect()
}

#[test]
fn task_name_needs_two_characters() {
    let mut s = setup();
    assert_eq!(s.add_task("a", "x".to_string(), None, 2), Err(ModelError::Validation));
    assert_eq!(s.add_task("a", "".to_string(), None, 2), Err(ModelError::Validation));
    assert!(s.tasks.is_empty());
    assert!(s.accesses.is_empty());
    assert_eq!(s.add_task("a", "xy".to_string(), None, 2).unwrap().name, "xy");
    assert_eq!(s.add_task("a", "éé".to_string(), None, 2).unwrap().name, "éé");
    assert_eq!(s.add_task("zz", "abc".to_string(), None, 2), Err(ModelError::NotFound));
}

#[test]
fn list_public_keeps_only_public() {
    let mut s = setup();
    s.add_task("a", "private one".to_string(), Some(TaskVisibilityEnum::Private), 2).unwrap();
    s.add_task("a", "public one".to_string(), Some(TaskVisibilityEnum::Public), 2).unwrap();
    s.add_task("a", "paid one".to_string(), Some(TaskVisibilityEnum::Paid), 2).unwrap();
    s.add_task("b", "public two".to_string(), Some(TaskVisibilityEnum::Public), 2).unwrap();
    assert_eq!(names(&s.list_public()), vec!["public one", "public two"]);
}

#[test]
fn search_union_for_user() {
    let mut s = setup();
    let secret = s.add_task("a", "Secret Plan".to_string(), None, 2).unwrap();
    s.add_task("b", "open plan".to_string(), Some(TaskVisibilityEnum::Public), 2).unwrap();
    s.add_task("b", "paid PLAN".to_string(), Some(TaskVisibilityEnum::Paid), 2).unwrap();
    s.add_task("b", "other".to_string(), Some(TaskVisibilityEnum::Public), 2).unwrap();
    s.grant_access(secret.id, "c@x.io", AccessLevelEnum::View, 3).unwrap();
    assert_eq!(names(&s.search_for_anon("plan")), vec!["open plan", "paid PLAN"]);
    assert_eq!(
        names(&s.search_for_user("c", "PLAN").unwrap()),
        vec!["Secret Plan", "open plan", "paid PLAN"]
    );
    assert_eq!(names(&s.search_for_user("b", "plan").unwrap()), vec!["open plan", "paid PLAN"]);
    assert_eq!(s.search_for_user("nobody", "plan"), Err(ModelError::NotFound));
    assert_eq!(names(&s.search(None, "plan").unwrap()), vec!["open plan", "paid PLAN"]);
    assert_eq!(s.search(Some("c"), "secret").unwrap().len(), 1);
}

#[test]
fn list_for_user_and_anon() {
    let mut s = setup();
    s.add_task("a", "mine private".to_string(), None, 2).unwrap();
    s.add_task("a", "mine public".to_string(), Some(TaskVisibilityEnum::Public), 2).unwrap();
    s.add_task("a", "mine paid".to_string(), Some(TaskVisibilityEnum::Paid), 2).unwrap();
    s.add_task("b", "not mine".to_string(), Some(TaskVisibilityEnum::Public), 2).unwrap();
    assert_eq!(
        names(&s.list_for_user("a", "a").unwrap()),
        vec!["mine private", "mine public", "mine paid"]
    );
    assert_eq!(names(&s.list_for_user("a", "b").unwrap()), vec!["mine public", "mine paid"]);
    assert_eq!(names(&s.list_for_anon("a").unwrap()), vec!["mine public", "mine paid"]);
    assert_eq!(s.list_for_anon("q"), Err(ModelError::NotFound));
    assert_eq!(s.list_for_user("q", "a"), Err(ModelError::NotFound));
}

#[test]
fn update_task_changes_given_fields() {
    let mut s = setup();
    let t = s.add_task("a", "first".to_string(), None, 2).unwrap();
    let u = s.update_task(t.id, None, Some(TaskVisibilityEnum::Paid), 9).unwrap();
    assert_eq!(u.name, "first");
    assert_eq!(u.visibility, TaskVisibilityEnum::Paid);
    assert_eq!((u.created_at, u.updated_at), (2, 9));
    assert_eq!(s.update_task(t.id, Some("z".to_string()), None, 10), Err(ModelError::Validation));
    assert_eq!(s.update_task_as("a", t.id, Some("".to_string()), None, 10), Err(ModelError::Validation));
    assert_eq!(s.load_task(t.id).unwrap(), u);
    let v = s.update_task_as("a", t.id, Some("second".to_string()), None, 11).unwrap();
    assert_eq!(v.name, "second");
    assert_eq!(v.visibility, TaskVisibilityEnum::Paid);
    assert_eq!(s.update_task(t.id + 1, None, None, 12), Err(ModelError::NotFound));
    assert_eq!(
        s.update_task_as("b", t.id, Some("third".to_string()), None, 12),
        Err(ModelError::Unauthorized)
    );
}

#[test]
fn case_insensitive_name_match() {
    assert!(name_matches("Hello World", "hello"));
    assert!(name_matches("hello world", "WORLD"));
    assert!(name_matches("anything", ""));
    assert!(!name_matches("abc", "abd"));
    assert!(!name_matches("ab", "abc"));
    assert!(matches_folded(&"abcabd".chars().collect(), &"abd".chars().collect()));
    assert!(!matches_folded(&"abc".chars().collect(), &"ABC".chars().collect()));
}

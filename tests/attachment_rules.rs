use task_hub::enums::{AccessLevelEnum, AttachmentTypeEnum};
use task_hub::error::ModelError;
use task_hub::service::{BlobKey, BlobOp, FileUpload};
use task_hub::store::Store;

fn setup() -> (Store, i32) {
    let mut s = Store::new();
    let role = s.create_role("User".to_string()).unwrap();
    s.register("a".to_string(), "a@x.io".to_string(), "A".to_string(), None, role.id, "vt".to_string(), 1).unwrap();
    s.register("b".to_string(), "b@x.io".to_string(), "B".to_string(), None, role.id, "vt".to_string(), 1).unwrap();
    let t = s.add_task("a", "task".to_string(), None, 2).unwrap();
    (s, t.id)
}

fn upload(name: Option<&str>, bytes: &[u8]) -> Option<FileUpload> {
    Some(FileUpload { file_name: name.map(|n| n.to_string()), contents: bytes.to_vec() })
}

#[test]
fn file_presence_must_match_kind() {
    let (mut s, t) = setup();
    assert_eq!(
        s.add_attachment_as("a", t, AttachmentTypeEnum::File, "ignored".to_string(), None, 3),
        Err(ModelError::Validation)
    );
    assert_eq!(
        s.add_attachment_as("a", t, AttachmentTypeEnum::Url, "http://x".to_string(), upload(Some("f.txt"), b"hi"), 3),
        Err(ModelError::Validation)
    );
    assert_eq!(
        s.add_attachment_as("a", t, AttachmentTypeEnum::File, "ignored".to_string(), upload(None, b"hi"), 3),
        Err(ModelError::Validation)
    );
    assert!(s.attachments.is_empty());
}

#[test]
fn file_attachment_upload_key() {
    let (mut s, t) = setup();
    let (a, ops) = s
        .add_attachment_as("a", t, AttachmentTypeEnum::File, "ignored".to_string(), upload(Some("f.txt"), b"hi"), 3)
        .unwrap();
    assert_eq!(a.data, "f.txt");
    assert_eq!(a.attachment_type, AttachmentTypeEnum::File);
    assert_eq!(
        ops,
        vec![BlobOp::Put {
            key: BlobKey { attachment_id: a.id, file_name: "f.txt".to_string() },
            contents: b"hi".to_vec()
        }]
    );
    let (b, ops) = s
        .add_attachment_as("a", t, AttachmentTypeEnum::Url, "http://x".to_string(), None, 3)
        .unwrap();
    assert_eq!(b.data, "http://x");
    assert!(ops.is_empty());
    assert_eq!(s.list_attachments(t).unwrap().len(), 2);
}

#[test]
fn attachment_update_replaces_blob_and_owner() {
    let (mut s, t) = setup();
    s.grant_access(t, "b@x.io", AccessLevelEnum::Edit, 3).unwrap();
    let (a, _) = s
        .add_attachment_as("a", t, AttachmentTypeEnum::File, String::new(), upload(Some("old.bin"), b"1"), 3)
        .unwrap();
    assert_eq!(
        s.update_attachment_as("b", a.id, String::new(), None, 4),
        Err(ModelError::Validation)
    );
    let (u, ops) = s
        .update_attachment_as("b", a.id, String::new(), upload(Some("new.bin"), b"2"), 5)
        .unwrap();
    assert_eq!(u.data, "new.bin");
    assert_eq!(u.owner_id, s.find_user_by_pid("b").unwrap().id);
    assert_eq!(u.updated_at, 5);
    assert_eq!(
        ops,
        vec![
            BlobOp::DeleteBestEffort { key: BlobKey { attachment_id: a.id, file_name: "old.bin".to_string() } },
            BlobOp::Put { key: BlobKey { attachment_id: a.id, file_name: "new.bin".to_string() }, contents: vec![b'2'] },
        ]
    );
    let (n, _) = s
        .add_attachment_as("a", t, AttachmentTypeEnum::Hint, "h".to_string(), None, 6)
        .unwrap();
    assert_eq!(
        s.update_attachment_as("a", n.id, "h2".to_string(), upload(Some("x"), b"x"), 7),
        Err(ModelError::Validation)
    );
    let (n2, ops) = s.update_attachment_as("a", n.id, "h2".to_string(), None, 7).unwrap();
    assert_eq!(n2.data, "h2");
    assert!(ops.is_empty());
    assert_eq!(s.update_attachment_as("a", 999, "h".to_string(), None, 7), Err(ModelError::NotFound));
}

#[test]
fn attachment_access_levels() {
    let (mut s, t) = setup();
    s.grant_access(t, "b@x.io", AccessLevelEnum::View, 3).unwrap();
    assert_eq!(s.list_attachments_as("b", t).unwrap().len(), 0);
    assert_eq!(
        s.add_attachment_as("b", t, AttachmentTypeEnum::Tip, "t".to_string(), None, 4),
        Err(ModelError::Unauthorized)
    );
    let (a, _) = s.add_attachment_as("a", t, AttachmentTypeEnum::Tip, "t".to_string(), None, 4).unwrap();
    assert_eq!(s.remove_attachment_as("b", a.id), Err(ModelError::Unauthorized));
    assert_eq!(s.attachment_has_access("b", a.id, &[AccessLevelEnum::View]), Ok(()));
    assert_eq!(s.attachment_has_access("b", a.id + 1, &[AccessLevelEnum::View]), Err(ModelError::NotFound));
}

#[test]
fn removing_file_attachment_deletes_blob() {
    let (mut s, t) = setup();
    let (a, _) = s
        .add_attachment_as("a", t, AttachmentTypeEnum::File, String::new(), upload(Some("f"), b"z"), 3)
        .unwrap();
    let (gone, ops) = s.remove_attachment_as("a", a.id).unwrap();
    assert_eq!(gone.id, a.id);
    assert_eq!(
        ops,
        vec![BlobOp::DeleteBestEffort { key: BlobKey { attachment_id: a.id, file_name: "f".to_string() } }]
    );
    assert_eq!(s.load_attachment(a.id), Err(ModelError::NotFound));
    let (b, _) = s.add_attachment_as("a", t, AttachmentTypeEnum::Text, "x".to_string(), None, 3).unwrap();
    let (_, ops) = s.remove_attachment_as("a", b.id).unwrap();
    assert!(ops.is_empty());
}

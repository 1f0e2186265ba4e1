//! Operations as the transport layer invokes them: each one first asks the
//! authorization engine, then changes the registries.
use vstd::prelude::*;

use crate::accesses::{
    deny_access_post, grant_access_post, on_task, update_access_post,
};
use crate::attachments::{
    add_attachment_post, attachment_on, remove_attachment_post, update_attachment_post,
};
use crate::authz::{access_outcome, attachment_access_outcome, attachment_row, lemma_attachment_row};
use crate::enums::{carries_file, AccessLevelEnum, AttachmentTypeEnum, TaskVisibilityEnum};
use crate::error::ModelError;
use crate::models::{Access, Attachment, Role, Task, User};
use crate::views::{attachment::AttachmentResponse, task::TaskFullResponse, user::GetResponse};
use crate::store::{email_taken, Store};
use crate::tasks::{remove_task_post, update_task_post};

verus! {

/// Bytes sent with an attachment, with the name the client gave the file.
#[derive(Debug, PartialEq, Eq)]
pub struct FileUpload {
    pub file_name: Option<String>,
    pub contents: Vec<u8>,
}

/// Where the bytes of a `File` attachment are kept: `{attachment_id}/{file_name}`.
#[derive(Debug, PartialEq, Eq)]
pub struct BlobKey {
    pub attachment_id: i32,
    pub file_name: String,
}

/// Work for the blob store, to be done after the rows have changed.
#[derive(Debug, PartialEq, Eq)]
pub enum BlobOp {
    /// Store the bytes under the key.
    Put { key: BlobKey, contents: Vec<u8> },
    /// Delete the key; a failure (a missing blob) is ignored.
    DeleteBestEffort { key: BlobKey },
}

/// Levels that may change a task or its attachments.
pub open spec fn edit_levels() -> Seq<AccessLevelEnum> {
    seq![AccessLevelEnum::FullAccess, AccessLevelEnum::AddUser, AccessLevelEnum::Edit]
}

/// Levels that may manage the grants of a task.
pub open spec fn manage_levels() -> Seq<AccessLevelEnum> {
    seq![AccessLevelEnum::FullAccess, AccessLevelEnum::AddUser]
}

/// Levels that may delete a task.
pub open spec fn owner_levels() -> Seq<AccessLevelEnum> {
    seq![AccessLevelEnum::FullAccess]
}

/// Every level: any grant at all.
pub open spec fn any_levels() -> Seq<AccessLevelEnum> {
    seq![
        AccessLevelEnum::FullAccess,
        AccessLevelEnum::AddUser,
        AccessLevelEnum::Edit,
        AccessLevelEnum::AddSolution,
        AccessLevelEnum::View,
    ]
}

pub fn edit_level_list() -> (r: Vec<AccessLevelEnum>)
    ensures
        r@ == edit_levels(),
{
    let mut v: Vec<AccessLevelEnum> = Vec::new();
    v.push(AccessLevelEnum::FullAccess);
    v.push(AccessLevelEnum::AddUser);
    v.push(AccessLevelEnum::Edit);
    assert(v@ =~= edit_levels());
    v
}

pub fn manage_level_list() -> (r: Vec<AccessLevelEnum>)
    ensures
        r@ == manage_levels(),
{
    let mut v: Vec<AccessLevelEnum> = Vec::new();
    v.push(AccessLevelEnum::FullAccess);
    v.push(AccessLevelEnum::AddUser);
    assert(v@ =~= manage_levels());
    v
}

pub fn owner_level_list() -> (r: Vec<AccessLevelEnum>)
    ensures
        r@ == owner_levels(),
{
    let mut v: Vec<AccessLevelEnum> = Vec::new();
    v.push(AccessLevelEnum::FullAccess);
    assert(v@ =~= owner_levels());
    v
}

pub fn any_level_list() -> (r: Vec<AccessLevelEnum>)
    ensures
        r@ == any_levels(),
{
    let mut v: Vec<AccessLevelEnum> = Vec::new();
    v.push(AccessLevelEnum::FullAccess);
    v.push(AccessLevelEnum::AddUser);
    v.push(AccessLevelEnum::Edit);
    v.push(AccessLevelEnum::AddSolution);
    v.push(AccessLevelEnum::View);
    assert(v@ =~= any_levels());
    v
}

/// The attachment half of a result that also carries blob work.
pub open spec fn row_of<T>(r: Result<(Attachment, T), ModelError>) -> Result<Attachment, ModelError> {
    match r {
        Ok(p) => Ok(p.0),
        Err(e) => Err(e),
    }
}

/// The name under which uploaded bytes are kept, when the upload has one.
pub open spec fn upload_name(file: Option<FileUpload>) -> Option<String> {
    match file {
        Some(f) => f.file_name,
        None => None,
    }
}

impl Store {
    /// Task update by `actor_pid`, who needs FullAccess, Edit or AddUser.
    pub fn update_task_as(
        &mut self,
        actor_pid: &str,
        task_id: i32,
        name: Option<String>,
        visibility: Option<TaskVisibilityEnum>,
        now: i64,
    ) -> (r: Result<Task, ModelError>)
        requires
            old(self).wf(),
        ensures
            final(self).wf(),
            match access_outcome(*old(self), actor_pid@, task_id, edit_levels()) {
                Err(e) => r == Err::<Task, ModelError>(e) && *final(self) == *old(self),
                Ok(_) => update_task_post(*old(self), *final(self), task_id, name, visibility, now, r),
            },
    {
        let levels = edit_level_list();
        self.has_access(actor_pid, task_id, levels.as_slice())?;
        self.update_task(task_id, name, visibility, now)
    }

    /// Task deletion by `actor_pid`, who needs FullAccess.
    pub fn remove_task_as(&mut self, actor_pid: &str, task_id: i32) -> (r: Result<(), ModelError>)
        requires
            old(self).wf(),
        ensures
            final(self).wf(),
            match access_outcome(*old(self), actor_pid@, task_id, owner_levels()) {
                Err(e) => r == Err::<(), ModelError>(e) && *final(self) == *old(self),
                Ok(_) => remove_task_post(*old(self), *final(self), task_id, r),
            },
    {
        let levels = owner_level_list();
        self.has_access(actor_pid, task_id, levels.as_slice())?;
        self.remove_task(task_id)
    }

    /// The grants on a task, for `actor_pid` holding FullAccess or AddUser.
    pub fn list_accesses(&self, actor_pid: &str, task_id: i32) -> (r: Result<Vec<Access>, ModelError>)
        requires
            self.wf(),
        ensures
            match access_outcome(*self, actor_pid@, task_id, manage_levels()) {
                Err(e) => r == Err::<Vec<Access>, ModelError>(e),
                Ok(_) => r is Ok && r.unwrap()@ == self.accesses@.filter(on_task(task_id)),
            },
    {
        let levels = manage_level_list();
        self.has_access(actor_pid, task_id, levels.as_slice())?;
        Ok(self.list_for_task(task_id))
    }

    /// Grant by `actor_pid`, who needs FullAccess or AddUser.
    pub fn grant_access_as(
        &mut self,
        actor_pid: &str,
        task_id: i32,
        email: &str,
        level: AccessLevelEnum,
        now: i64,
    ) -> (r: Result<Access, ModelError>)
        requires
            old(self).wf(),
        ensures
            final(self).wf(),
            match access_outcome(*old(self), actor_pid@, task_id, manage_levels()) {
                Err(e) => r == Err::<Access, ModelError>(e) && *final(self) == *old(self),
                Ok(_) => grant_access_post(*old(self), *final(self), task_id, email, level, now, r),
            },
            access_outcome(*old(self), actor_pid@, task_id, manage_levels()) is Ok && email_taken(
                old(self).users@,
                email@,
            ) && old(self).next_access_id < i32::MAX ==> r is Ok,
    {
        let levels = manage_level_list();
        self.has_access(actor_pid, task_id, levels.as_slice())?;
        self.grant_access(task_id, email, level, now)
    }

    /// Level change by `actor_pid`, who needs FullAccess or AddUser.
    pub fn update_access_as(
        &mut self,
        actor_pid: &str,
        task_id: i32,
        pid: &str,
        level: AccessLevelEnum,
        now: i64,
    ) -> (r: Result<Access, ModelError>)
        requires
            old(self).wf(),
        ensures
            final(self).wf(),
            match access_outcome(*old(self), actor_pid@, task_id, manage_levels()) {
                Err(e) => r == Err::<Access, ModelError>(e) && *final(self) == *old(self),
                Ok(_) => update_access_post(*old(self), *final(self), task_id, pid, level, now, r),
            },
    {
        let levels = manage_level_list();
        self.has_access(actor_pid, task_id, levels.as_slice())?;
        self.update_access(task_id, pid, level, now)
    }

    /// Revocation by `actor_pid`, who needs FullAccess or AddUser.
    pub fn deny_access_as(&mut self, actor_pid: &str, task_id: i32, pid: &str) -> (r: Result<(), ModelError>)
        requires
            old(self).wf(),
        ensures
            final(self).wf(),
            match access_outcome(*old(self), actor_pid@, task_id, manage_levels()) {
                Err(e) => r == Err::<(), ModelError>(e) && *final(self) == *old(self),
                Ok(_) => deny_access_post(*old(self), *final(self), task_id, pid, r),
            },
    {
        let levels = manage_level_list();
        self.has_access(actor_pid, task_id, levels.as_slice())?;
        self.deny_access(task_id, pid)
    }

    /// The attachments of a task, for `actor_pid` holding any grant on it.
    pub fn list_attachments_as(&self, actor_pid: &str, task_id: i32) -> (r: Result<Vec<Attachment>, ModelError>)
        requires
            self.wf(),
        ensures
            match access_outcome(*self, actor_pid@, task_id, any_levels()) {
                Err(e) => r == Err::<Vec<Attachment>, ModelError>(e),
                Ok(_) => r is Ok && r.unwrap()@ == self.attachments@.filter(attachment_on(task_id)),
            },
    {
        let levels = any_level_list();
        self.has_access(actor_pid, task_id, levels.as_slice())?;
        self.list_attachments(task_id)
    }
}

/// Blob work after an attachment was added: the upload of a `File` attachment.
pub open spec fn add_blob_ops(
    r: Result<(Attachment, Vec<BlobOp>), ModelError>,
    file: Option<FileUpload>,
) -> bool {
    r is Ok ==> r.unwrap().1@ == if r.unwrap().0.attachment_type == AttachmentTypeEnum::File {
        seq![
            BlobOp::Put {
                key: BlobKey { attachment_id: r.unwrap().0.id, file_name: r.unwrap().0.data },
                contents: file.unwrap().contents,
            },
        ]
    } else {
        Seq::empty()
    }
}

/// Effect of adding an attachment once the actor is authorized: a `File`
/// attachment needs an upload with a file name, which becomes its data; any
/// other kind must come without one.
pub open spec fn add_checked_post(
    s0: Store,
    s1: Store,
    actor_pid: &str,
    task_id: i32,
    attachment_type: AttachmentTypeEnum,
    data: String,
    file: Option<FileUpload>,
    now: i64,
    r: Result<(Attachment, Vec<BlobOp>), ModelError>,
) -> bool {
    if attachment_type == AttachmentTypeEnum::File {
        match upload_name(file) {
            None => r == Err::<(Attachment, Vec<BlobOp>), ModelError>(ModelError::Validation) && s1 == s0,
            Some(n) => add_attachment_post(s0, s1, actor_pid, task_id, attachment_type, n, now, row_of(r))
                && add_blob_ops(r, file),
        }
    } else if file is Some {
        r == Err::<(Attachment, Vec<BlobOp>), ModelError>(ModelError::Validation) && s1 == s0
    } else {
        add_attachment_post(s0, s1, actor_pid, task_id, attachment_type, data, now, row_of(r))
            && add_blob_ops(r, file)
    }
}

/// Blob work after a `File` attachment got new bytes: the old key is deleted,
/// then the new bytes are stored.
pub open spec fn replace_blob_ops(
    r: Result<(Attachment, Vec<BlobOp>), ModelError>,
    before: Attachment,
    file: Option<FileUpload>,
) -> bool {
    r is Ok ==> r.unwrap().1@ == if before.attachment_type == AttachmentTypeEnum::File {
        seq![
            BlobOp::DeleteBestEffort {
                key: BlobKey { attachment_id: before.id, file_name: before.data },
            },
            BlobOp::Put {
                key: BlobKey { attachment_id: before.id, file_name: r.unwrap().0.data },
                contents: file.unwrap().contents,
            },
        ]
    } else {
        Seq::empty()
    }
}

/// Effect of updating an attachment once the actor is authorized; the kind is
/// fixed, so the upload rule follows the stored kind.
pub open spec fn update_checked_post(
    s0: Store,
    s1: Store,
    actor_pid: &str,
    attachment_id: i32,
    data: String,
    file: Option<FileUpload>,
    now: i64,
    r: Result<(Attachment, Vec<BlobOp>), ModelError>,
) -> bool {
    let before = attachment_row(s0.attachments@, attachment_id);
    if before.attachment_type == AttachmentTypeEnum::File {
        match upload_name(file) {
            None => r == Err::<(Attachment, Vec<BlobOp>), ModelError>(ModelError::Validation) && s1 == s0,
            Some(n) => update_attachment_post(s0, s1, attachment_id, actor_pid, n, now, row_of(r))
                && replace_blob_ops(r, before, file),
        }
    } else if file is Some {
        r == Err::<(Attachment, Vec<BlobOp>), ModelError>(ModelError::Validation) && s1 == s0
    } else {
        update_attachment_post(s0, s1, attachment_id, actor_pid, data, now, row_of(r))
            && replace_blob_ops(r, before, file)
    }
}

/// Blob work after an attachment was removed: its bytes, if it had any.
pub open spec fn remove_blob_ops(r: Result<(Attachment, Vec<BlobOp>), ModelError>) -> bool {
    r is Ok ==> r.unwrap().1@ == if r.unwrap().0.attachment_type == AttachmentTypeEnum::File {
        seq![
            BlobOp::DeleteBestEffort {
                key: BlobKey { attachment_id: r.unwrap().0.id, file_name: r.unwrap().0.data },
            },
        ]
    } else {
        Seq::empty()
    }
}

impl Store {
    /// Adds an attachment for `actor_pid`, who needs FullAccess, AddUser or
    /// Edit on the task. Returns the row and the blob work to do after it.
    pub fn add_attachment_as(
        &mut self,
        actor_pid: &str,
        task_id: i32,
        attachment_type: AttachmentTypeEnum,
        data: String,
        file: Option<FileUpload>,
        now: i64,
    ) -> (r: Result<(Attachment, Vec<BlobOp>), ModelError>)
        requires
            old(self).wf(),
        ensures
            final(self).wf(),
            match access_outcome(*old(self), actor_pid@, task_id, edit_levels()) {
                Err(e) => r == Err::<(Attachment, Vec<BlobOp>), ModelError>(e) && *final(self) == *old(self),
                Ok(_) => add_checked_post(
                    *old(self),
                    *final(self),
                    actor_pid,
                    task_id,
                    attachment_type,
                    data,
                    file,
                    now,
                    r,
                ),
            },
            access_outcome(*old(self), actor_pid@, task_id, edit_levels()) is Ok && (attachment_type
                == AttachmentTypeEnum::File ==> upload_name(file) is Some) && (attachment_type
                != AttachmentTypeEnum::File ==> file is None) && old(self).next_attachment_id
                < i32::MAX ==> r is Ok,
    {
        let levels = edit_level_list();
        self.has_access(actor_pid, task_id, levels.as_slice())?;
        if carries_file(attachment_type) {
            let upload = match file {
                Some(f) => f,
                None => return Err(ModelError::Validation),
            };
            let name = match upload.file_name {
                Some(n) => n,
                None => return Err(ModelError::Validation),
            };
            let key_name = name.clone();
            let a = self.add_attachment(actor_pid, task_id, attachment_type, name, now)?;
            let mut ops: Vec<BlobOp> = Vec::new();
            ops.push(
                BlobOp::Put {
                    key: BlobKey { attachment_id: a.id, file_name: key_name },
                    contents: upload.contents,
                },
            );
            Ok((a, ops))
        } else {
            if file.is_some() {
                return Err(ModelError::Validation);
            }
            let a = self.add_attachment(actor_pid, task_id, attachment_type, data, now)?;
            Ok((a, Vec::new()))
        }
    }

    /// Updates an attachment for `actor_pid`, who needs FullAccess, AddUser or
    /// Edit on its task. Returns the row and the blob work to do after it.
    pub fn update_attachment_as(
        &mut self,
        actor_pid: &str,
        attachment_id: i32,
        data: String,
        file: Option<FileUpload>,
        now: i64,
    ) -> (r: Result<(Attachment, Vec<BlobOp>), ModelError>)
        requires
            old(self).wf(),
        ensures
            final(self).wf(),
            match attachment_access_outcome(*old(self), actor_pid@, attachment_id, edit_levels()) {
                Err(e) => r == Err::<(Attachment, Vec<BlobOp>), ModelError>(e) && *final(self) == *old(self),
                Ok(_) => update_checked_post(
                    *old(self),
                    *final(self),
                    actor_pid,
                    attachment_id,
                    data,
                    file,
                    now,
                    r,
                ),
            },
    {
        let levels = edit_level_list();
        self.attachment_has_access(actor_pid, attachment_id, levels.as_slice())?;
        let ai = match self.attachment_index(attachment_id) {
            Some(i) => i,
            None => return Err(ModelError::NotFound),
        };
        proof {
            lemma_attachment_row(self.attachments@, attachment_id, ai as int);
        }
        let before = self.attachments[ai].duplicate();
        if carries_file(before.attachment_type) {
            let upload = match file {
                Some(f) => f,
                None => return Err(ModelError::Validation),
            };
            let name = match upload.file_name {
                Some(n) => n,
                None => return Err(ModelError::Validation),
            };
            let key_name = name.clone();
            let a = self.update_attachment(attachment_id, actor_pid, name, now)?;
            let mut ops: Vec<BlobOp> = Vec::new();
            ops.push(
                BlobOp::DeleteBestEffort {
                    key: BlobKey { attachment_id: before.id, file_name: before.data },
                },
            );
            ops.push(
                BlobOp::Put {
                    key: BlobKey { attachment_id: before.id, file_name: key_name },
                    contents: upload.contents,
                },
            );
            assert(ops@ == seq![
                BlobOp::DeleteBestEffort {
                    key: BlobKey { attachment_id: before.id, file_name: before.data },
                },
                BlobOp::Put {
                    key: BlobKey { attachment_id: before.id, file_name: a.data },
                    contents: upload.contents,
                },
            ]);
            Ok((a, ops))
        } else {
            if file.is_some() {
                return Err(ModelError::Validation);
            }
            let a = self.update_attachment(attachment_id, actor_pid, data, now)?;
            Ok((a, Vec::new()))
        }
    }

    /// Removes an attachment for `actor_pid`, who needs FullAccess, AddUser or
    /// Edit on its task. Returns the removed row and the blob work.
    pub fn remove_attachment_as(&mut self, actor_pid: &str, attachment_id: i32) -> (r: Result<
        (Attachment, Vec<BlobOp>),
        ModelError,
    >)
        requires
            old(self).wf(),
        ensures
            final(self).wf(),
            match attachment_access_outcome(*old(self), actor_pid@, attachment_id, edit_levels()) {
                Err(e) => r == Err::<(Attachment, Vec<BlobOp>), ModelError>(e) && *final(self) == *old(self),
                Ok(_) => remove_attachment_post(*old(self), *final(self), attachment_id, row_of(r))
                    && remove_blob_ops(r),
            },
    {
        let levels = edit_level_list();
        self.attachment_has_access(actor_pid, attachment_id, levels.as_slice())?;
        let a = self.remove_attachment(attachment_id)?;
        let mut ops: Vec<BlobOp> = Vec::new();
        if carries_file(a.attachment_type) {
            ops.push(
                BlobOp::DeleteBestEffort {
                    key: BlobKey { attachment_id: a.id, file_name: a.data.clone() },
                },
            );
        }
        Ok((a, ops))
    }
}

/// `i` is the first FullAccess grant on the task: the task's owner.
pub open spec fn first_owner_grant(acc: Seq<Access>, task_id: i32, i: int) -> bool {
    &&& 0 <= i < acc.len()
    &&& acc[i].task_id == task_id
    &&& acc[i].accesslevel == AccessLevelEnum::FullAccess
    &&& forall|j: int|
        0 <= j < i ==> !(acc[j].task_id == task_id && acc[j].accesslevel
            == AccessLevelEnum::FullAccess)
}

/// Some grant on the task is FullAccess.
pub open spec fn has_owner(acc: Seq<Access>, task_id: i32) -> bool {
    exists|i: int|
        0 <= i < acc.len() && acc[i].task_id == task_id && acc[i].accesslevel
            == AccessLevelEnum::FullAccess
}

impl Store {
    /// Position of the first FullAccess grant on the task.
    fn owner_index(&self, task_id: i32) -> (r: Option<usize>)
        ensures
            match r {
                Some(i) => first_owner_grant(self.accesses@, task_id, i as int),
                None => !has_owner(self.accesses@, task_id),
            },
    {
        let mut i: usize = 0;
        while i < self.accesses.len()
            invariant
                0 <= i <= self.accesses@.len(),
                forall|j: int|
                    0 <= j < i ==> !(self.accesses@[j].task_id == task_id && self.accesses@[j].accesslevel
                        == AccessLevelEnum::FullAccess),
            decreases self.accesses@.len() - i,
        {
            if self.accesses[i].task_id == task_id && self.accesses[i].accesslevel
                == AccessLevelEnum::FullAccess {
                return Some(i);
            }
            i += 1;
        }
        None
    }

    /// A task with its owner (the account of its first FullAccess grant) and
    /// its attachments. Needs no grant: anyone may read it.
    pub fn get_full(&self, task_id: i32) -> (r: Result<TaskFullResponse, ModelError>)
        requires
            self.wf(),
        ensures
            match r {
                Ok(full) => exists|t: int, g: int, u: int, k: int|
                    0 <= t < self.tasks@.len() && self.tasks@[t].id == task_id && first_owner_grant(
                        self.accesses@,
                        task_id,
                        g,
                    ) && 0 <= u < self.users@.len() && self.users@[u].id == self.accesses@[g].user_id
                        && 0 <= k < self.roles@.len() && self.roles@[k].id == self.users@[u].role_id
                        && full.id == task_id && full.name == self.tasks@[t].name && full.visibility
                        == self.tasks@[t].visibility && full.owner == GetResponse::of(
                        self.users@[u],
                        self.roles@[k],
                    ) && full.attachments@.len() == self.attachments@.filter(attachment_on(task_id)).len()
                        && forall|i: int|
                        0 <= i < full.attachments@.len() ==> full.attachments@[i] == AttachmentResponse::of(
                            #[trigger] self.attachments@.filter(attachment_on(task_id))[i],
                        ),
                Err(e) => e == ModelError::NotFound && (!crate::store::has_task(self.tasks@, task_id)
                    || !has_owner(self.accesses@, task_id)),
            },
    {
        let ti = match self.task_index(task_id) {
            Some(i) => i,
            None => return Err(ModelError::NotFound),
        };
        let g = match self.owner_index(task_id) {
            Some(i) => i,
            None => return Err(ModelError::NotFound),
        };
        proof {
            assert(crate::store::has_user(self.users@, self.accesses@[g as int].user_id));
        }
        let ui = match self.user_index(self.accesses[g].user_id) {
            Some(i) => i,
            None => return Err(ModelError::NotFound),
        };
        proof {
            assert(crate::store::has_role(self.roles@, self.users@[ui as int].role_id));
        }
        let ri = match self.role_index(self.users[ui].role_id) {
            Some(i) => i,
            None => return Err(ModelError::NotFound),
        };
        let attachments = self.list_attachments(task_id)?;
        let task = self.tasks[ti].duplicate();
        let user = self.users[ui].duplicate();
        let role = self.roles[ri].duplicate();
        let full = TaskFullResponse::new(task, user, role, attachments);
        proof {
            assert(self.users@[ui as int] == user);
            assert(self.roles@[ri as int] == role);
            assert(self.tasks@[ti as int] == task);
        }
        Ok(full)
    }
}

} // verus!

use vstd::prelude::*;

use crate::enums::{AccessLevelEnum, AttachmentTypeEnum, TaskVisibilityEnum};

verus! {

/// A global permission tier ("Admin", "User", ...).
#[derive(Debug, PartialEq, Eq)]
pub struct Role {
    pub id: i32,
    pub name: String,
}

/// An account. `pid` is the identifier used in every external reference.
#[derive(Debug, PartialEq, Eq)]
pub struct User {
    pub id: i32,
    pub pid: String,
    pub email: String,
    pub name: String,
    /// Hash of the password; `None` for accounts created through OAuth.
    pub password: Option<String>,
    /// Time of e-mail verification, seconds since the epoch.
    pub email_verified_at: Option<i64>,
    pub email_verification_token: Option<String>,
    pub reset_token: Option<String>,
    pub magic_link_token: Option<String>,
    pub role_id: i32,
    pub created_at: i64,
    pub updated_at: i64,
}

/// A task and its visibility.
#[derive(Debug, PartialEq, Eq)]
pub struct Task {
    pub id: i32,
    pub name: String,
    pub visibility: TaskVisibilityEnum,
    pub created_at: i64,
    pub updated_at: i64,
}

/// One grant: `user_id` holds `accesslevel` on `task_id`.
#[derive(Debug, PartialEq, Eq)]
pub struct Access {
    pub id: i32,
    pub accesslevel: AccessLevelEnum,
    pub user_id: i32,
    pub task_id: i32,
    pub created_at: i64,
    pub updated_at: i64,
}

/// A typed piece of data under a task. For `File` attachments `data` is the
/// file name under which the bytes are kept in the blob store.
#[derive(Debug, PartialEq, Eq)]
pub struct Attachment {
    pub id: i32,
    pub data: String,
    pub attachment_type: AttachmentTypeEnum,
    pub owner_id: i32,
    pub task_id: i32,
    pub created_at: i64,
    pub updated_at: i64,
}

/// Copy of an optional string, equal to its source.
pub fn copy_opt_string(s: &Option<String>) -> (r: Option<String>)
    ensures
        r == *s,
{
    match s {
        Some(v) => Some(v.clone()),
        None => None,
    }
}

impl Role {
    pub fn duplicate(&self) -> (r: Role)
        ensures
            r == *self,
    {
        Role { id: self.id, name: self.name.clone() }
    }
}

impl User {
    pub fn duplicate(&self) -> (r: User)
        ensures
            r == *self,
    {
        User {
            id: self.id,
            pid: self.pid.clone(),
            email: self.email.clone(),
            name: self.name.clone(),
            password: copy_opt_string(&self.password),
            email_verified_at: self.email_verified_at,
            email_verification_token: copy_opt_string(&self.email_verification_token),
            reset_token: copy_opt_string(&self.reset_token),
            magic_link_token: copy_opt_string(&self.magic_link_token),
            role_id: self.role_id,
            created_at: self.created_at,
            updated_at: self.updated_at,
        }
    }
}

impl Task {
    pub fn duplicate(&self) -> (r: Task)
        ensures
            r == *self,
    {
        Task {
            id: self.id,
            name: self.name.clone(),
            visibility: self.visibility,
            created_at: self.created_at,
            updated_at: self.updated_at,
        }
    }
}

impl Access {
    pub fn duplicate(&self) -> (r: Access)
        ensures
            r == *self,
    {
        Access {
            id: self.id,
            accesslevel: self.accesslevel,
            user_id: self.user_id,
            task_id: self.task_id,
            created_at: self.created_at,
            updated_at: self.updated_at,
        }
    }
}

impl Attachment {
    pub fn duplicate(&self) -> (r: Attachment)
        ensures
            r == *self,
    {
        Attachment {
            id: self.id,
            data: self.data.clone(),
            attachment_type: self.attachment_type,
            owner_id: self.owner_id,
            task_id: self.task_id,
            created_at: self.created_at,
            updated_at: self.updated_at,
        }
    }
}

} // verus!

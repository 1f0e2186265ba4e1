use vstd::prelude::*;

use crate::enums::TaskVisibilityEnum;
use crate::models::{Attachment, Role, Task, User};
use crate::views::{attachment::AttachmentResponse, user::GetResponse};

verus! {

#[derive(Debug, PartialEq, Eq)]
pub struct TaskFullResponse {
    pub id: i32,
    pub name: String,
    pub visibility: TaskVisibilityEnum,
    pub owner: GetResponse,
    pub attachments: Vec<AttachmentResponse>,
}

#[derive(Debug, PartialEq, Eq)]
pub struct TaskResponse {
    pub id: i32,
    pub name: String,
    pub visibility: TaskVisibilityEnum,
}

impl TaskResponse {
    pub open spec fn of(task: Task) -> TaskResponse {
        TaskResponse { id: task.id, name: task.name, visibility: task.visibility }
    }

    pub fn new(task: Task) -> (r: Self)
        ensures
            r == Self::of(task),
    {
        TaskResponse { id: task.id, name: task.name, visibility: task.visibility }
    }

    pub fn from_vec(tasks: Vec<Task>) -> (r: Vec<Self>)
        ensures
            r@.len() == tasks@.len(),
            forall|i: int| 0 <= i < r@.len() ==> r@[i] == Self::of(#[trigger] tasks@[i]),
    {
        let mut out: Vec<Self> = Vec::new();
        let mut i: usize = 0;
        while i < tasks.len()
            invariant
                0 <= i <= tasks@.len(),
                out@.len() == i,
                forall|k: int| 0 <= k < i ==> out@[k] == Self::of(#[trigger] tasks@[k]),
            decreases tasks@.len() - i,
        {
            let t = &tasks[i];
            out.push(TaskResponse { id: t.id, name: t.name.clone(), visibility: t.visibility });
            i += 1;
        }
        out
    }
}

impl TaskFullResponse {
    /// A task with its owner and its attachments.
    pub fn new(task: Task, user: User, role: Role, attachments: Vec<Attachment>) -> (r: Self)
        ensures
            r.id == task.id,
            r.name == task.name,
            r.visibility == task.visibility,
            r.owner == GetResponse::of(user, role),
            r.attachments@.len() == attachments@.len(),
            forall|i: int|
                0 <= i < r.attachments@.len() ==> r.attachments@[i] == AttachmentResponse::of(
                    #[trigger] attachments@[i],
                ),
    {
        TaskFullResponse {
            id: task.id,
            name: task.name,
            visibility: task.visibility,
            owner: GetResponse::new(&user, &role),
            attachments: AttachmentResponse::from_vec(attachments),
        }
    }
}

} // verus!

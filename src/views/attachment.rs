use vstd::prelude::*;

use crate::enums::AttachmentTypeEnum;
use crate::models::Attachment;

verus! {

#[derive(Debug, PartialEq, Eq)]
pub struct AttachmentResponse {
    pub task_id: i32,
    pub attachment_type: AttachmentTypeEnum,
    pub data: String,
}

impl AttachmentResponse {
    pub open spec fn of(attachment: Attachment) -> AttachmentResponse {
        AttachmentResponse {
            task_id: attachment.task_id,
            attachment_type: attachment.attachment_type,
            data: attachment.data,
        }
    }

    pub fn new(attachment: Attachment) -> (r: Self)
        ensures
            r == Self::of(attachment),
    {
        AttachmentResponse {
            task_id: attachment.task_id,
            attachment_type: attachment.attachment_type,
            data: attachment.data,
        }
    }

    pub fn from_vec(attachments: Vec<Attachment>) -> (r: Vec<Self>)
        ensures
            r@.len() == attachments@.len(),
            forall|i: int| 0 <= i < r@.len() ==> r@[i] == Self::of(#[trigger] attachments@[i]),
    {
        let mut out: Vec<Self> = Vec::new();
        let mut i: usize = 0;
        while i < attachments.len()
            invariant
                0 <= i <= attachments@.len(),
                out@.len() == i,
                forall|k: int| 0 <= k < i ==> out@[k] == Self::of(#[trigger] attachments@[k]),
            decreases attachments@.len() - i,
        {
            let a = &attachments[i];
            out.push(
                AttachmentResponse {
                    task_id: a.task_id,
                    attachment_type: a.attachment_type,
                    data: a.data.clone(),
                },
            );
            i += 1;
        }
        out
    }
}

} // verus!

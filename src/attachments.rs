use vstd::prelude::*;

use crate::enums::AttachmentTypeEnum;
use crate::error::ModelError;
use crate::models::Attachment;
use crate::store::{
    attachment_ids_ok, has_attachment, has_task, has_user, lemma_user_of_pid, pid_taken,
    user_of_pid, Store,
};

verus! {

/// Attachments of the task `task_id`.
pub open spec fn attachment_on(task_id: i32) -> spec_fn(Attachment) -> bool {
    |a: Attachment| a.task_id == task_id
}

impl Store {
    /// The attachment with this id.
    pub fn load_attachment(&self, attachment_id: i32) -> (r: Result<Attachment, ModelError>)
        ensures
            match r {
                Ok(a) => exists|i: int|
                    0 <= i < self.attachments@.len() && self.attachments@[i] == a && a.id
                        == attachment_id,
                Err(e) => e == ModelError::NotFound && !has_attachment(
                    self.attachments@,
                    attachment_id,
                ),
            },
    {
        match self.attachment_index(attachment_id) {
            Some(i) => Ok(self.attachments[i].duplicate()),
            None => Err(ModelError::NotFound),
        }
    }

    /// All attachments of an existing task, in table order.
    pub fn list_attachments(&self, task_id: i32) -> (r: Result<Vec<Attachment>, ModelError>)
        ensures
            match r {
                Ok(v) => has_task(self.tasks@, task_id) && v@ == self.attachments@.filter(
                    attachment_on(task_id),
                ),
                Err(e) => e == ModelError::NotFound && !has_task(self.tasks@, task_id),
            },
    {
        if self.task_index(task_id).is_none() {
            return Err(ModelError::NotFound);
        }
        let mut out: Vec<Attachment> = Vec::new();
        let mut i: usize = 0;
        while i < self.attachments.len()
            invariant
                0 <= i <= self.attachments@.len(),
                out@ == self.attachments@.subrange(0, i as int).filter(attachment_on(task_id)),
            decreases self.attachments@.len() - i,
        {
            proof {
                assert(self.attachments@.subrange(0, i + 1).drop_last()
                    =~= self.attachments@.subrange(0, i as int));
            }
            if self.attachments[i].task_id == task_id {
                out.push(self.attachments[i].duplicate());
            }
            proof {
                reveal(Seq::filter);
                assert(self.attachments@.subrange(0, i + 1).last() == self.attachments@[i as int]);
            }
            i += 1;
        }
        proof {
            assert(self.attachments@.subrange(0, self.attachments@.len() as int)
                =~= self.attachments@);
        }
        Ok(out)
    }

    /// Adds an attachment to the task, owned by the account `user_pid`.
    pub fn add_attachment(
        &mut self,
        user_pid: &str,
        task_id: i32,
        attachment_type: AttachmentTypeEnum,
        data: String,
        now: i64,
    ) -> (r: Result<Attachment, ModelError>)
        requires
            old(self).wf(),
        ensures
            final(self).wf(),
            add_attachment_post(*old(self), *final(self), user_pid, task_id, attachment_type, data, now, r),
            pid_taken(old(self).users@, user_pid@) && has_task(old(self).tasks@, task_id)
                && old(self).next_attachment_id < i32::MAX ==> r is Ok,
    {
        let ui = match self.user_index_by_pid(user_pid) {
            Some(i) => i,
            None => return Err(ModelError::NotFound),
        };
        proof {
            lemma_user_of_pid(self.users@, user_pid@, ui as int);
        }
        if self.task_index(task_id).is_none() {
            return Err(ModelError::NotFound);
        }
        if self.next_attachment_id == i32::MAX {
            return Err(ModelError::Internal);
        }
        let att = Attachment {
            id: self.next_attachment_id,
            data,
            attachment_type,
            owner_id: self.users[ui].id,
            task_id,
            created_at: now,
            updated_at: now,
        };
        let out = att.duplicate();
        let ghost old_atts = self.attachments@;
        self.attachments.push(att);
        self.next_attachment_id = self.next_attachment_id + 1;
        proof {
            assert forall|k: int| 0 <= k < self.attachments@.len() implies {
                &&& has_user(self.users@, (#[trigger] self.attachments@[k]).owner_id)
                &&& has_task(self.tasks@, self.attachments@[k].task_id)
            } by {
                if k < old_atts.len() {
                    assert(old_atts[k] == self.attachments@[k]);
                }
            }
            assert forall|i: int, j: int| 0 <= i < j < self.attachments@.len() implies self.attachments@[i].id
                < self.attachments@[j].id by {
                assert(self.attachments@[i] == old_atts[i]);
                if j < old_atts.len() {
                    assert(self.attachments@[j] == old_atts[j]);
                }
            }
            assert(attachment_ids_ok(self.attachments@, self.next_attachment_id));
        }
        Ok(out)
    }

    /// Replaces the data of the attachment and makes the account `user_pid`
    /// its owner; the kind stays.
    pub fn update_attachment(
        &mut self,
        attachment_id: i32,
        user_pid: &str,
        data: String,
        now: i64,
    ) -> (r: Result<Attachment, ModelError>)
        requires
            old(self).wf(),
        ensures
            final(self).wf(),
            update_attachment_post(*old(self), *final(self), attachment_id, user_pid, data, now, r),
    {
        let ai = match self.attachment_index(attachment_id) {
            Some(i) => i,
            None => return Err(ModelError::NotFound),
        };
        let ui = match self.user_index_by_pid(user_pid) {
            Some(i) => i,
            None => return Err(ModelError::NotFound),
        };
        proof {
            lemma_user_of_pid(self.users@, user_pid@, ui as int);
        }
        let mut a = self.attachments[ai].duplicate();
        a.data = data;
        a.owner_id = self.users[ui].id;
        a.updated_at = now;
        let ghost old_atts = self.attachments@;
        self.attachments.set(ai, a.duplicate());
        proof {
            assert forall|k: int| 0 <= k < self.attachments@.len() implies {
                &&& has_user(self.users@, (#[trigger] self.attachments@[k]).owner_id)
                &&& has_task(self.tasks@, self.attachments@[k].task_id)
            } by {
                if k != ai {
                    assert(old_atts[k] == self.attachments@[k]);
                } else {
                    assert(old_atts[k].task_id == self.attachments@[k].task_id);
                }
            }
            assert forall|i: int, j: int| 0 <= i < j < self.attachments@.len() implies self.attachments@[i].id
                < self.attachments@[j].id by {
                assert(self.attachments@[i].id == old_atts[i].id);
                assert(self.attachments@[j].id == old_atts[j].id);
            }
            assert(attachment_ids_ok(self.attachments@, self.next_attachment_id));
        }
        Ok(a)
    }

    /// Deletes the attachment row.
    pub fn remove_attachment(&mut self, attachment_id: i32) -> (r: Result<Attachment, ModelError>)
        requires
            old(self).wf(),
        ensures
            final(self).wf(),
            remove_attachment_post(*old(self), *final(self), attachment_id, r),
    {
        let ai = match self.attachment_index(attachment_id) {
            Some(i) => i,
            None => return Err(ModelError::NotFound),
        };
        let ghost old_atts = self.attachments@;
        let a = self.attachments.remove(ai);
        proof {
            assert forall|k: int| 0 <= k < self.attachments@.len() implies {
                &&& has_user(self.users@, (#[trigger] self.attachments@[k]).owner_id)
                &&& has_task(self.tasks@, self.attachments@[k].task_id)
            } by {
                if k < ai {
                    assert(old_atts[k] == self.attachments@[k]);
                } else {
                    assert(old_atts[k + 1] == self.attachments@[k]);
                }
            }
            assert forall|i: int, j: int| 0 <= i < j < self.attachments@.len() implies self.attachments@[i].id
                < self.attachments@[j].id by {
                let oi = if i < ai { i } else { i + 1 };
                let oj = if j < ai { j } else { j + 1 };
                assert(self.attachments@[i] == old_atts[oi]);
                assert(self.attachments@[j] == old_atts[oj]);
            }
            assert forall|i: int| 0 <= i < self.attachments@.len() implies 1 <= #[trigger] self.attachments@[i].id
                < self.next_attachment_id by {
                let oi = if i < ai { i } else { i + 1 };
                assert(self.attachments@[i] == old_atts[oi]);
            }
        }
        Ok(a)
    }
}

/// Effect of `add_attachment`: one new attachment row owned by the account.
pub open spec fn add_attachment_post(
    s0: Store,
    s1: Store,
    user_pid: &str,
    task_id: i32,
    attachment_type: AttachmentTypeEnum,
    data: String,
    now: i64,
    r: Result<Attachment, ModelError>,
) -> bool {
    match r {
        Ok(a) => {
            &&& pid_taken(s0.users@, user_pid@)
            &&& has_task(s0.tasks@, task_id)
            &&& a == (Attachment {
                id: s0.next_attachment_id,
                data: data,
                attachment_type: attachment_type,
                owner_id: user_of_pid(s0.users@, user_pid@).id,
                task_id: task_id,
                created_at: now,
                updated_at: now,
            })
            &&& s1 == (Store {
                attachments: s1.attachments,
                next_attachment_id: (s0.next_attachment_id + 1) as i32,
                ..s0
            })
            &&& s1.attachments@ == s0.attachments@.push(a)
        },
        Err(e) => {
            &&& s1 == s0
            &&& e == if !pid_taken(s0.users@, user_pid@) || !has_task(
                s0.tasks@,
                task_id,
            ) {
                ModelError::NotFound
            } else {
                ModelError::Internal
            }
            &&& e == ModelError::Internal ==> s0.next_attachment_id == i32::MAX
        },
    }
}

/// Effect of `update_attachment`: new data, the editing account as owner, same kind.
pub open spec fn update_attachment_post(
    s0: Store,
    s1: Store,
    attachment_id: i32,
    user_pid: &str,
    data: String,
    now: i64,
    r: Result<Attachment, ModelError>,
) -> bool {
    match r {
        Ok(a) => {
            &&& pid_taken(s0.users@, user_pid@)
            &&& exists|i: int|
                0 <= i < s0.attachments@.len() && s0.attachments@[i].id
                    == attachment_id && a == (Attachment {
                    data: data,
                    owner_id: user_of_pid(s0.users@, user_pid@).id,
                    updated_at: now,
                    ..s0.attachments@[i]
                }) && s1.attachments@ == s0.attachments@.update(i, a)
            &&& s1 == (Store {
                attachments: s1.attachments,
                ..s0
            })
        },
        Err(e) => {
            &&& s1 == s0
            &&& e == ModelError::NotFound
            &&& !pid_taken(s0.users@, user_pid@) || !has_attachment(
                s0.attachments@,
                attachment_id,
            )
        },
    }
}

/// Effect of `remove_attachment`: the row is gone and handed back.
pub open spec fn remove_attachment_post(
    s0: Store,
    s1: Store,
    attachment_id: i32,
    r: Result<Attachment, ModelError>,
) -> bool {
    match r {
        Ok(a) => exists|i: int|
            0 <= i < s0.attachments@.len() && s0.attachments@[i].id
                == attachment_id && a == s0.attachments@[i]
                && s1.attachments@ == s0.attachments@.remove(i)
                && s1 == (Store { attachments: s1.attachments, ..s0 }),
        Err(e) => e == ModelError::NotFound && !has_attachment(
            s0.attachments@,
            attachment_id,
        ) && s1 == s0,
    }
}

} // verus!

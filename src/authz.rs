use vstd::prelude::*;

use crate::enums::{level_in, AccessLevelEnum};
use crate::error::ModelError;
use crate::models::{Attachment, Role, User};
use crate::store::{grant_matches, has_attachment, has_role, has_task, pid_granted, pid_taken, str_eq, Store};

verus! {

/// Name of the role that may manage roles.
pub const ADMIN_ROLE: &'static str = "Admin";

/// The account with this pid has the role named `ADMIN_ROLE`.
pub open spec fn pid_is_admin(users: Seq<User>, roles: Seq<Role>, pid: Seq<char>) -> bool {
    exists|u: int, k: int|
        0 <= u < users.len() && 0 <= k < roles.len() && users[u].pid@ == pid && roles[k].id
            == users[u].role_id && roles[k].name@ == ADMIN_ROLE@
}

/// Outcome of the authorization check: unknown account or task is
/// `NotFound`; otherwise `Ok` iff some grant of the account on the task has one
/// of `levels`, and `Unauthorized` if none has.
pub open spec fn access_outcome(
    s: Store,
    pid: Seq<char>,
    task_id: i32,
    levels: Seq<AccessLevelEnum>,
) -> Result<(), ModelError> {
    if !pid_taken(s.users@, pid) {
        Err(ModelError::NotFound)
    } else if !has_task(s.tasks@, task_id) {
        Err(ModelError::NotFound)
    } else if pid_granted(s.users@, s.accesses@, pid, task_id, levels) {
        Ok(())
    } else {
        Err(ModelError::Unauthorized)
    }
}

/// Outcome of the authorization check on the task that holds the attachment.
pub open spec fn attachment_access_outcome(
    s: Store,
    pid: Seq<char>,
    attachment_id: i32,
    levels: Seq<AccessLevelEnum>,
) -> Result<(), ModelError> {
    if !pid_taken(s.users@, pid) {
        Err(ModelError::NotFound)
    } else if !has_attachment(s.attachments@, attachment_id) {
        Err(ModelError::NotFound)
    } else {
        access_outcome(s, pid, attachment_task(s.attachments@, attachment_id), levels)
    }
}

/// The attachment with this id (meaningful when one exists).
pub open spec fn attachment_row(atts: Seq<Attachment>, attachment_id: i32) -> Attachment {
    atts[choose|a: int| 0 <= a < atts.len() && atts[a].id == attachment_id]
}

/// Attachment ids are unique, so the row found by an id is the one at its
/// position.
pub proof fn lemma_attachment_row(atts: Seq<Attachment>, attachment_id: i32, i: int)
    requires
        forall|a: int, b: int| 0 <= a < b < atts.len() ==> atts[a].id < atts[b].id,
        0 <= i < atts.len(),
        atts[i].id == attachment_id,
    ensures
        attachment_row(atts, attachment_id) == atts[i],
{
    let c = choose|a: int| 0 <= a < atts.len() && atts[a].id == attachment_id;
    if c < i {
        assert(atts[c].id < atts[i].id);
    } else if c > i {
        assert(atts[i].id < atts[c].id);
    }
}

/// The task of the attachment with this id (meaningful when one exists).
pub open spec fn attachment_task(atts: Seq<Attachment>, attachment_id: i32) -> i32 {
    attachment_row(atts, attachment_id).task_id
}

impl Store {
    /// Whether some grant of the user at position `ui` on `task_id` has one
    /// of `levels`.
    fn granted_at(&self, ui: usize, task_id: i32, levels: &[AccessLevelEnum]) -> (r: bool)
        requires
            ui < self.users@.len(),
        ensures
            r == exists|k: int|
                0 <= k < self.accesses@.len() && grant_matches(
                    #[trigger] self.accesses@[k],
                    self.users@[ui as int].id,
                    task_id,
                    levels@,
                ),
    {
        let uid = self.users[ui].id;
        let mut i: usize = 0;
        while i < self.accesses.len()
            invariant
                0 <= i <= self.accesses@.len(),
                uid == self.users@[ui as int].id,
                forall|j: int|
                    0 <= j < i ==> !grant_matches(#[trigger] self.accesses@[j], uid, task_id, levels@),
            decreases self.accesses@.len() - i,
        {
            let a = &self.accesses[i];
            if a.user_id == uid && a.task_id == task_id && level_in(levels, a.accesslevel) {
                return true;
            }
            i += 1;
        }
        false
    }

    /// Decides whether the account `user_pid` may act on the task with one of
    /// `levels`: it may iff one of its grants on the task has such a level.
    pub fn has_access(&self, user_pid: &str, task_id: i32, levels: &[AccessLevelEnum]) -> (r: Result<
        (),
        ModelError,
    >)
        requires
            self.wf(),
        ensures
            r == access_outcome(*self, user_pid@, task_id, levels@),
    {
        let ui = match self.user_index_by_pid(user_pid) {
            Some(i) => i,
            None => return Err(ModelError::NotFound),
        };
        if self.task_index(task_id).is_none() {
            return Err(ModelError::NotFound);
        }
        if self.granted_at(ui, task_id, levels) {
            Ok(())
        } else {
            proof {
                if pid_granted(self.users@, self.accesses@, user_pid@, task_id, levels@) {
                    let (u, k) = choose|u: int, k: int|
                        0 <= u < self.users@.len() && 0 <= k < self.accesses@.len()
                            && self.users@[u].pid@ == user_pid@ && grant_matches(
                            self.accesses@[k],
                            self.users@[u].id,
                            task_id,
                            levels@,
                        );
                    assert(u == ui);
                }
            }
            Err(ModelError::Unauthorized)
        }
    }

    /// `has_access` for the task that holds the attachment.
    pub fn attachment_has_access(
        &self,
        user_pid: &str,
        attachment_id: i32,
        levels: &[AccessLevelEnum],
    ) -> (r: Result<(), ModelError>)
        requires
            self.wf(),
        ensures
            r == attachment_access_outcome(*self, user_pid@, attachment_id, levels@),
    {
        if self.user_index_by_pid(user_pid).is_none() {
            return Err(ModelError::NotFound);
        }
        let ai = match self.attachment_index(attachment_id) {
            Some(i) => i,
            None => return Err(ModelError::NotFound),
        };
        proof {
            assert(has_task(self.tasks@, self.attachments@[ai as int].task_id));
            let c = choose|a: int| 0 <= a < self.attachments@.len() && self.attachments@[a].id == attachment_id;
            assert forall|a: int|
                0 <= a < self.attachments@.len() && self.attachments@[a].id
                    == attachment_id implies a == ai by {
                if a < ai {
                    assert(self.attachments@[a].id < self.attachments@[ai as int].id);
                } else if a > ai {
                    assert(self.attachments@[ai as int].id < self.attachments@[a].id);
                }
            }
            assert(c == ai);
        }
        self.has_access(user_pid, self.attachments[ai].task_id, levels)
    }

    /// Admin gate: the account `user_pid` must have the role `ADMIN_ROLE`.
    pub fn require_admin(&self, user_pid: &str) -> (r: Result<(), ModelError>)
        requires
            self.wf(),
        ensures
            !pid_taken(self.users@, user_pid@) ==> r == Err::<(), ModelError>(ModelError::NotFound),
            pid_taken(self.users@, user_pid@) ==> {
                &&& r is Ok <==> pid_is_admin(self.users@, self.roles@, user_pid@)
                &&& r is Err ==> r == Err::<(), ModelError>(ModelError::Unauthorized)
            },
    {
        let ui = match self.user_index_by_pid(user_pid) {
            Some(i) => i,
            None => return Err(ModelError::NotFound),
        };
        proof {
            assert(has_role(self.roles@, self.users@[ui as int].role_id));
        }
        let ri = match self.role_index(self.users[ui].role_id) {
            Some(i) => i,
            None => return Err(ModelError::Unauthorized),
        };
        if str_eq(self.roles[ri].name.as_str(), ADMIN_ROLE) {
            Ok(())
        } else {
            proof {
                if pid_is_admin(self.users@, self.roles@, user_pid@) {
                    let (u, k) = choose|u: int, k: int|
                        0 <= u < self.users@.len() && 0 <= k < self.roles@.len()
                            && self.users@[u].pid@ == user_pid@ && self.roles@[k].id
                            == self.users@[u].role_id && self.roles@[k].name@ == ADMIN_ROLE@;
                    assert(u == ui);
                    if k < ri {
                        assert(self.roles@[k].id < self.roles@[ri as int].id);
                    } else if k > ri {
                        assert(self.roles@[ri as int].id < self.roles@[k].id);
                    }
                }
            }
            Err(ModelError::Unauthorized)
        }
    }
}

} // verus!

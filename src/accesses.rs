use vstd::prelude::*;

use crate::enums::AccessLevelEnum;
use crate::error::ModelError;
use crate::models::{Access, User};
use crate::store::{
    email_taken, has_task, has_user, holds_any, lemma_user_of_pid, pid_taken, user_of_pid, Store,
};

verus! {

/// Grants on the task `task_id`.
pub open spec fn on_task(task_id: i32) -> spec_fn(Access) -> bool {
    |a: Access| a.task_id == task_id
}

/// Grants of the user `user_id` on the task `task_id`, whatever their level.
pub open spec fn grants_of(user_id: i32, task_id: i32) -> spec_fn(Access) -> bool {
    |a: Access| a.user_id == user_id && a.task_id == task_id
}

/// `i` is the first grant that links the user to the task.
pub open spec fn first_grant(acc: Seq<Access>, user_id: i32, task_id: i32, i: int) -> bool {
    &&& 0 <= i < acc.len()
    &&& acc[i].user_id == user_id
    &&& acc[i].task_id == task_id
    &&& forall|j: int| 0 <= j < i ==> !(acc[j].user_id == user_id && acc[j].task_id == task_id)
}

/// The account with this e-mail (meaningful when one exists).
pub open spec fn user_of_email(users: Seq<User>, email: Seq<char>) -> User {
    users[choose|u: int| 0 <= u < users.len() && users[u].email@ == email]
}

/// Which error a lookup of the grant of account `pid` on `task_id` fails with,
/// if any.
pub open spec fn grant_lookup_error(s: Store, pid: Seq<char>, task_id: i32) -> Option<ModelError> {
    if !pid_taken(s.users@, pid) {
        Some(ModelError::NotFound)
    } else if !has_task(s.tasks@, task_id) {
        Some(ModelError::NotFound)
    } else if !holds_any(s.accesses@, user_of_pid(s.users@, pid).id, task_id) {
        Some(ModelError::NotFound)
    } else {
        None
    }
}

impl Store {
    /// Position of the first grant of the account `pid` on the task.
    fn grant_position(&self, task_id: i32, pid: &str) -> (r: Result<usize, ModelError>)
        requires
            self.wf(),
        ensures
            match r {
                Ok(i) => grant_lookup_error(*self, pid@, task_id) is None && first_grant(
                    self.accesses@,
                    user_of_pid(self.users@, pid@).id,
                    task_id,
                    i as int,
                ),
                Err(e) => grant_lookup_error(*self, pid@, task_id) == Some(e),
            },
    {
        let ui = match self.user_index_by_pid(pid) {
            Some(i) => i,
            None => return Err(ModelError::NotFound),
        };
        proof {
            lemma_user_of_pid(self.users@, pid@, ui as int);
        }
        if self.task_index(task_id).is_none() {
            return Err(ModelError::NotFound);
        }
        match self.access_index(self.users[ui].id, task_id) {
            Some(i) => Ok(i),
            None => Err(ModelError::NotFound),
        }
    }

    /// The first grant of the account `pid` on the task.
    pub fn find_by_pid(&self, task_id: i32, pid: &str) -> (r: Result<Access, ModelError>)
        requires
            self.wf(),
        ensures
            match r {
                Ok(a) => grant_lookup_error(*self, pid@, task_id) is None && exists|i: int|
                    first_grant(self.accesses@, user_of_pid(self.users@, pid@).id, task_id, i)
                        && self.accesses@[i] == a,
                Err(e) => grant_lookup_error(*self, pid@, task_id) == Some(e),
            },
    {
        let i = self.grant_position(task_id, pid)?;
        Ok(self.accesses[i].duplicate())
    }

    /// The first grant of the account with this e-mail on the task.
    pub fn find_by_email(&self, task_id: i32, email: &str) -> (r: Result<Access, ModelError>)
        requires
            self.wf(),
        ensures
            match r {
                Ok(a) => {
                    &&& email_taken(self.users@, email@)
                    &&& has_task(self.tasks@, task_id)
                    &&& exists|i: int|
                        first_grant(
                            self.accesses@,
                            user_of_email(self.users@, email@).id,
                            task_id,
                            i,
                        ) && self.accesses@[i] == a
                },
                Err(e) => e == ModelError::NotFound && (!email_taken(self.users@, email@)
                    || !has_task(self.tasks@, task_id) || !holds_any(
                    self.accesses@,
                    user_of_email(self.users@, email@).id,
                    task_id,
                )),
            },
    {
        let ui = match self.user_index_by_email(email) {
            Some(i) => i,
            None => return Err(ModelError::NotFound),
        };
        proof {
            let u = choose|u: int| 0 <= u < self.users@.len() && self.users@[u].email@ == email@;
            assert(u == ui);
        }
        if self.task_index(task_id).is_none() {
            return Err(ModelError::NotFound);
        }
        match self.access_index(self.users[ui].id, task_id) {
            Some(i) => Ok(self.accesses[i].duplicate()),
            None => Err(ModelError::NotFound),
        }
    }

    /// All grants on the task, in table order. After the task is removed
    /// there are none.
    pub fn list_for_task(&self, task_id: i32) -> (r: Vec<Access>)
        ensures
            r@ == self.accesses@.filter(on_task(task_id)),
    {
        let mut out: Vec<Access> = Vec::new();
        let mut i: usize = 0;
        while i < self.accesses.len()
            invariant
                0 <= i <= self.accesses@.len(),
                out@ == self.accesses@.subrange(0, i as int).filter(on_task(task_id)),
            decreases self.accesses@.len() - i,
        {
            proof {
                assert(self.accesses@.subrange(0, i + 1).drop_last() =~= self.accesses@.subrange(0, i as int));
            }
            if self.accesses[i].task_id == task_id {
                out.push(self.accesses[i].duplicate());
            }
            proof {
                reveal(Seq::filter);
                assert(self.accesses@.subrange(0, i + 1).last() == self.accesses@[i as int]);
            }
            i += 1;
        }
        proof {
            assert(self.accesses@.subrange(0, self.accesses@.len() as int) =~= self.accesses@);
        }
        out
    }

    /// Adds a grant of `level` on the task for the account with this e-mail.
    /// An existing grant of that account on the task is kept: a second grant
    /// adds a second row.
    pub fn grant_access(
        &mut self,
        task_id: i32,
        email: &str,
        level: AccessLevelEnum,
        now: i64,
    ) -> (r: Result<Access, ModelError>)
        requires
            old(self).wf(),
        ensures
            final(self).wf(),
            grant_access_post(*old(self), *final(self), task_id, email, level, now, r),
            email_taken(old(self).users@, email@) && has_task(old(self).tasks@, task_id)
                && old(self).next_access_id < i32::MAX ==> r is Ok,
    {
        let ui = match self.user_index_by_email(email) {
            Some(i) => i,
            None => return Err(ModelError::NotFound),
        };
        proof {
            let u = choose|u: int| 0 <= u < self.users@.len() && self.users@[u].email@ == email@;
            assert(u == ui);
        }
        if self.task_index(task_id).is_none() {
            return Err(ModelError::NotFound);
        }
        if self.next_access_id == i32::MAX {
            return Err(ModelError::Internal);
        }
        let access = Access {
            id: self.next_access_id,
            accesslevel: level,
            user_id: self.users[ui].id,
            task_id,
            created_at: now,
            updated_at: now,
        };
        let out = access.duplicate();
        let ghost old_accesses = self.accesses@;
        self.accesses.push(access);
        self.next_access_id = self.next_access_id + 1;
        proof {
            assert forall|k: int| 0 <= k < self.accesses@.len() implies {
                &&& has_user(self.users@, (#[trigger] self.accesses@[k]).user_id)
                &&& has_task(self.tasks@, self.accesses@[k].task_id)
            } by {
                if k < old_accesses.len() {
                    assert(old_accesses[k] == self.accesses@[k]);
                }
            }
        }
        Ok(out)
    }

    /// Sets the level of the first grant of the account `pid` on the task.
    pub fn update_access(
        &mut self,
        task_id: i32,
        pid: &str,
        level: AccessLevelEnum,
        now: i64,
    ) -> (r: Result<Access, ModelError>)
        requires
            old(self).wf(),
        ensures
            final(self).wf(),
            update_access_post(*old(self), *final(self), task_id, pid, level, now, r),
    {
        let i = self.grant_position(task_id, pid)?;
        let mut a = self.accesses[i].duplicate();
        a.accesslevel = level;
        a.updated_at = now;
        let ghost old_accesses = self.accesses@;
        self.accesses.set(i, a.duplicate());
        proof {
            assert forall|k: int| 0 <= k < self.accesses@.len() implies {
                &&& has_user(self.users@, (#[trigger] self.accesses@[k]).user_id)
                &&& has_task(self.tasks@, self.accesses@[k].task_id)
            } by {
                assert(old_accesses[k].user_id == self.accesses@[k].user_id);
                assert(old_accesses[k].task_id == self.accesses@[k].task_id);
            }
        }
        Ok(a)
    }

    /// Deletes the first grant of the account `pid` on the task.
    pub fn deny_access(&mut self, task_id: i32, pid: &str) -> (r: Result<(), ModelError>)
        requires
            old(self).wf(),
        ensures
            final(self).wf(),
            deny_access_post(*old(self), *final(self), task_id, pid, r),
    {
        let i = self.grant_position(task_id, pid)?;
        let ghost old_accesses = self.accesses@;
        self.accesses.remove(i);
        proof {
            assert forall|k: int| 0 <= k < self.accesses@.len() implies {
                &&& has_user(self.users@, (#[trigger] self.accesses@[k]).user_id)
                &&& has_task(self.tasks@, self.accesses@[k].task_id)
            } by {
                if k < i {
                    assert(old_accesses[k] == self.accesses@[k]);
                } else {
                    assert(old_accesses[k + 1] == self.accesses@[k]);
                }
            }
        }
        Ok(())
    }
}

/// Effect of `grant_access`: one new grant row, or nothing when the account or task is unknown.
pub open spec fn grant_access_post(
    s0: Store,
    s1: Store,
    task_id: i32,
    email: &str,
    level: AccessLevelEnum,
    now: i64,
    r: Result<Access, ModelError>,
) -> bool {
    match r {
        Ok(a) => {
            &&& email_taken(s0.users@, email@)
            &&& has_task(s0.tasks@, task_id)
            &&& s0.next_access_id < i32::MAX
            &&& a == (Access {
                id: s0.next_access_id,
                accesslevel: level,
                user_id: user_of_email(s0.users@, email@).id,
                task_id: task_id,
                created_at: now,
                updated_at: now,
            })
            &&& s1 == (Store {
                accesses: s1.accesses,
                next_access_id: (s0.next_access_id + 1) as i32,
                ..s0
            })
            &&& s1.accesses@ == s0.accesses@.push(a)
            &&& forall|k: int| 0 <= k < s0.accesses@.len() ==> (#[trigger] s0.accesses@[k]).id < a.id
        },
        Err(e) => {
            &&& s1 == s0
            &&& e == if !email_taken(s0.users@, email@) || !has_task(
                s0.tasks@,
                task_id,
            ) {
                ModelError::NotFound
            } else {
                ModelError::Internal
            }
            &&& e == ModelError::Internal ==> s0.next_access_id == i32::MAX
        },
    }
}

/// Effect of `update_access`: the first grant of the account on the task gets the new level.
pub open spec fn update_access_post(
    s0: Store,
    s1: Store,
    task_id: i32,
    pid: &str,
    level: AccessLevelEnum,
    now: i64,
    r: Result<Access, ModelError>,
) -> bool {
    match r {
        Ok(a) => grant_lookup_error(s0, pid@, task_id) is None && exists|i: int|
            first_grant(s0.accesses@, user_of_pid(s0.users@, pid@).id, task_id, i)
                && a == (Access {
                accesslevel: level,
                updated_at: now,
                ..s0.accesses@[i]
            }) && s1.accesses@ == s0.accesses@.update(i, a)
                && s1 == (Store { accesses: s1.accesses, ..s0 }),
        Err(e) => grant_lookup_error(s0, pid@, task_id) == Some(e) && s1
            == s0,
    }
}

/// Effect of `deny_access`: the first grant of the account on the task is deleted.
pub open spec fn deny_access_post(
    s0: Store,
    s1: Store,
    task_id: i32,
    pid: &str,
    r: Result<(), ModelError>,
) -> bool {
    match r {
        Ok(_) => grant_lookup_error(s0, pid@, task_id) is None && exists|i: int|
            first_grant(s0.accesses@, user_of_pid(s0.users@, pid@).id, task_id, i)
                && s1.accesses@ == s0.accesses@.remove(i)
                && s1 == (Store { accesses: s1.accesses, ..s0 }),
        Err(e) => grant_lookup_error(s0, pid@, task_id) == Some(e) && s1
            == s0,
    }
}

} // verus!

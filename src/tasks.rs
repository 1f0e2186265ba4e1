use vstd::prelude::*;

use crate::enums::{is_listed, is_public_or_paid, AccessLevelEnum, TaskVisibilityEnum};
use crate::error::ModelError;
use crate::models::{Access, Attachment, Task};
use crate::store::{
    has_task, holds_any, lemma_user_of_pid, pid_taken, task_ids_ok, user_of_pid, Store,
};
use crate::text::{name_matches, name_matches_spec};

verus! {

/// Fewest characters a task name may have.
pub const MIN_NAME_LEN: usize = 2;

pub open spec fn name_valid(name: Seq<char>) -> bool {
    name.len() >= MIN_NAME_LEN
}

/// Checks a task name: at least `MIN_NAME_LEN` characters.
pub fn validate_name(name: &str) -> (r: Result<(), ModelError>)
    ensures
        r is Ok <==> name_valid(name@),
        r is Err ==> r == Err::<(), ModelError>(ModelError::Validation),
{
    if name.unicode_len() >= MIN_NAME_LEN {
        Ok(())
    } else {
        Err(ModelError::Validation)
    }
}

/// Visibility that a new task gets when none is given.
pub open spec fn visibility_or_default(v: Option<TaskVisibilityEnum>) -> TaskVisibilityEnum {
    match v {
        Some(x) => x,
        None => TaskVisibilityEnum::Private,
    }
}

/// Tasks whose visibility is exactly `Public`.
pub open spec fn public_pred() -> spec_fn(Task) -> bool {
    |t: Task| t.visibility == TaskVisibilityEnum::Public
}

/// Tasks that an anonymous search for `pattern` returns.
pub open spec fn anon_search_pred(pattern: Seq<char>) -> spec_fn(Task) -> bool {
    |t: Task| name_matches_spec(t.name@, pattern) && is_listed(t.visibility)
}

/// Tasks that a search for `pattern` by user `uid` returns: the listed ones and
/// those on which the user holds any grant.
pub open spec fn user_search_pred(acc: Seq<Access>, uid: i32, pattern: Seq<char>) -> spec_fn(
    Task,
) -> bool {
    |t: Task|
        name_matches_spec(t.name@, pattern) && (is_listed(t.visibility) || holds_any(
            acc,
            uid,
            t.id,
        ))
}

/// Tasks on which user `uid` holds a grant, Private ones only on request.
pub open spec fn held_pred(acc: Seq<Access>, uid: i32, with_private: bool) -> spec_fn(
    Task,
) -> bool {
    |t: Task| holds_any(acc, uid, t.id) && (is_listed(t.visibility) || with_private)
}

impl Store {
    /// Creates a task and, in the same step, a `FullAccess` grant on it for
    /// its creator. Either both rows are added or neither.
    pub fn add_task(
        &mut self,
        user_pid: &str,
        name: String,
        visibility: Option<TaskVisibilityEnum>,
        now: i64,
    ) -> (r: Result<Task, ModelError>)
        requires
            old(self).wf(),
        ensures
            final(self).wf(),
            add_task_post(*old(self), *final(self), user_pid, name, visibility, now, r),
            pid_taken(old(self).users@, user_pid@) && name_valid(name@) && old(self).next_task_id
                < i32::MAX && old(self).next_access_id < i32::MAX ==> r is Ok,
    {
        let ui = match self.user_index_by_pid(user_pid) {
            Some(i) => i,
            None => return Err(ModelError::NotFound),
        };
        if validate_name(name.as_str()).is_err() {
            return Err(ModelError::Validation);
        }
        if self.next_task_id == i32::MAX || self.next_access_id == i32::MAX {
            return Err(ModelError::Internal);
        }
        proof {
            lemma_user_of_pid(self.users@, user_pid@, ui as int);
        }
        let ghost old_tasks = self.tasks@;
        let ghost old_accesses = self.accesses@;
        let task = Task {
            id: self.next_task_id,
            name,
            visibility: match visibility {
                Some(v) => v,
                None => TaskVisibilityEnum::Private,
            },
            created_at: now,
            updated_at: now,
        };
        let access = Access {
            id: self.next_access_id,
            accesslevel: AccessLevelEnum::FullAccess,
            user_id: self.users[ui].id,
            task_id: task.id,
            created_at: now,
            updated_at: now,
        };
        let out = task.duplicate();
        self.tasks.push(task);
        self.accesses.push(access);
        self.next_task_id = self.next_task_id + 1;
        self.next_access_id = self.next_access_id + 1;
        proof {
            assert(has_task(self.tasks@, out.id)) by {
                assert(self.tasks@[old_tasks.len() as int] == out);
            }
            assert forall|k: int| 0 <= k < self.accesses@.len() implies {
                &&& crate::store::has_user(self.users@, (#[trigger] self.accesses@[k]).user_id)
                &&& has_task(self.tasks@, self.accesses@[k].task_id)
            } by {
                if k < old_accesses.len() {
                    assert(old_accesses[k] == self.accesses@[k]);
                    let j = choose|j: int|
                        0 <= j < old_tasks.len() && old_tasks[j].id == old_accesses[k].task_id;
                    assert(self.tasks@[j] == old_tasks[j]);
                } else {
                    assert(self.users@[ui as int].id == self.accesses@[k].user_id);
                }
            }
            assert forall|k: int| 0 <= k < self.attachments@.len() implies has_task(
                self.tasks@,
                (#[trigger] self.attachments@[k]).task_id,
            ) by {
                let j = choose|j: int|
                    0 <= j < old_tasks.len() && old_tasks[j].id == self.attachments@[k].task_id;
                assert(self.tasks@[j] == old_tasks[j]);
            }
            assert forall|i: int, j: int| 0 <= i < j < self.tasks@.len() implies self.tasks@[i].id
                < self.tasks@[j].id by {
                assert(self.tasks@[i] == old_tasks[i]);
                if j < old_tasks.len() {
                    assert(self.tasks@[j] == old_tasks[j]);
                }
            }
            assert(task_ids_ok(self.tasks@, self.next_task_id));
            assert(crate::store::accesses_linked(self.accesses@, self.users@, self.tasks@));
            assert(crate::store::attachments_linked(self.attachments@, self.users@, self.tasks@));
        }
        Ok(out)
    }
}


/// Rows that do not belong to the task `task_id` (for tasks: other tasks).
pub open spec fn not_task(task_id: i32) -> spec_fn(Task) -> bool {
    |t: Task| t.id != task_id
}

/// Tasks other than the one with id `task_id`, in their order.
fn tasks_without(v: &Vec<Task>, task_id: i32) -> (r: Vec<Task>)
    requires
        forall|i: int, j: int| 0 <= i < j < v@.len() ==> v@[i].id < v@[j].id,
    ensures
        r@ == v@.filter(not_task(task_id)),
        forall|i: int, j: int| 0 <= i < j < r@.len() ==> r@[i].id < r@[j].id,
{
    let mut out: Vec<Task> = Vec::new();
    let mut i: usize = 0;
    while i < v.len()
        invariant
            0 <= i <= v@.len(),
            forall|a: int, b: int| 0 <= a < b < v@.len() ==> v@[a].id < v@[b].id,
            out@ == v@.subrange(0, i as int).filter(not_task(task_id)),
            forall|a: int, b: int| 0 <= a < b < out@.len() ==> out@[a].id < out@[b].id,
            forall|a: int, m: int| 0 <= a < out@.len() && i <= m < v@.len() ==> out@[a].id < v@[m].id,
        decreases v@.len() - i,
    {
        proof {
            assert(v@.subrange(0, i + 1).drop_last() =~= v@.subrange(0, i as int));
        }
        if v[i].id != task_id {
            out.push(v[i].duplicate());
        }
        proof {
            reveal(Seq::filter);
            let ghost s1 = v@.subrange(0, i + 1);
            assert(s1.last() == v@[i as int]);
            assert(out@ == s1.filter(not_task(task_id)));
        }
        i += 1;
    }
    proof {
        assert(v@.subrange(0, v@.len() as int) =~= v@);
    }
    out
}

impl Store {
    /// The task with this id.
    pub fn load_task(&self, task_id: i32) -> (r: Result<Task, ModelError>)
        ensures
            match r {
                Ok(t) => exists|i: int| 0 <= i < self.tasks@.len() && self.tasks@[i] == t && t.id == task_id,
                Err(e) => e == ModelError::NotFound && !has_task(self.tasks@, task_id),
            },
    {
        match self.task_index(task_id) {
            Some(i) => Ok(self.tasks[i].duplicate()),
            None => Err(ModelError::NotFound),
        }
    }

    /// Changes the fields that are given (a name is validated first) and
    /// stamps the task as updated at `now`.
    pub fn update_task(
        &mut self,
        task_id: i32,
        name: Option<String>,
        visibility: Option<TaskVisibilityEnum>,
        now: i64,
    ) -> (r: Result<Task, ModelError>)
        requires
            old(self).wf(),
        ensures
            final(self).wf(),
            update_task_post(*old(self), *final(self), task_id, name, visibility, now, r),
    {
        let i = match self.task_index(task_id) {
            Some(i) => i,
            None => return Err(ModelError::NotFound),
        };
        let mut t = self.tasks[i].duplicate();
        match name {
            Some(n) => {
                if validate_name(n.as_str()).is_err() {
                    return Err(ModelError::Validation);
                }
                t.name = n;
            },
            None => {},
        }
        match visibility {
            Some(v) => {
                t.visibility = v;
            },
            None => {},
        }
        t.updated_at = now;
        let ghost old_tasks = self.tasks@;
        self.tasks.set(i, t.duplicate());
        proof {
            assert forall|k: int| 0 <= k < self.accesses@.len() implies has_task(
                self.tasks@,
                (#[trigger] self.accesses@[k]).task_id,
            ) by {
                let j = choose|j: int|
                    0 <= j < old_tasks.len() && old_tasks[j].id == self.accesses@[k].task_id;
                assert(self.tasks@[j].id == old_tasks[j].id);
            }
            assert forall|k: int| 0 <= k < self.attachments@.len() implies has_task(
                self.tasks@,
                (#[trigger] self.attachments@[k]).task_id,
            ) by {
                let j = choose|j: int|
                    0 <= j < old_tasks.len() && old_tasks[j].id == self.attachments@[k].task_id;
                assert(self.tasks@[j].id == old_tasks[j].id);
            }
            assert forall|a: int, b: int| 0 <= a < b < self.tasks@.len() implies self.tasks@[a].id
                < self.tasks@[b].id by {
                assert(self.tasks@[a].id == old_tasks[a].id);
                assert(self.tasks@[b].id == old_tasks[b].id);
            }
            assert(task_ids_ok(self.tasks@, self.next_task_id));
        }
        Ok(t)
    }
}

pub open spec fn access_not_on(task_id: i32) -> spec_fn(Access) -> bool {
    |a: Access| a.task_id != task_id
}

pub open spec fn attachment_not_on(task_id: i32) -> spec_fn(Attachment) -> bool {
    |a: Attachment| a.task_id != task_id
}

/// Grants on tasks other than `task_id`, in their order.
fn accesses_without_task(v: &Vec<Access>, task_id: i32) -> (r: Vec<Access>)
    requires
        forall|i: int, j: int| 0 <= i < j < v@.len() ==> v@[i].id < v@[j].id,
    ensures
        forall|i: int, j: int| 0 <= i < j < r@.len() ==> r@[i].id < r@[j].id,
        r@ == v@.filter(access_not_on(task_id)),
{
    let mut out: Vec<Access> = Vec::new();
    let mut i: usize = 0;
    while i < v.len()
        invariant
            0 <= i <= v@.len(),
            forall|a: int, b: int| 0 <= a < b < v@.len() ==> v@[a].id < v@[b].id,
            forall|a: int, b: int| 0 <= a < b < out@.len() ==> out@[a].id < out@[b].id,
            forall|a: int, m: int| 0 <= a < out@.len() && i <= m < v@.len() ==> out@[a].id < v@[m].id,
            out@ == v@.subrange(0, i as int).filter(access_not_on(task_id)),
        decreases v@.len() - i,
    {
        proof {
            assert(v@.subrange(0, i + 1).drop_last() =~= v@.subrange(0, i as int));
        }
        if v[i].task_id != task_id {
            out.push(v[i].duplicate());
        }
        proof {
            reveal(Seq::filter);
            assert(v@.subrange(0, i + 1).last() == v@[i as int]);
        }
        i += 1;
    }
    proof {
        assert(v@.subrange(0, v@.len() as int) =~= v@);
    }
    out
}

/// Attachments of tasks other than `task_id`, in their order.
fn attachments_without_task(v: &Vec<Attachment>, task_id: i32) -> (r: Vec<Attachment>)
    requires
        forall|i: int, j: int| 0 <= i < j < v@.len() ==> v@[i].id < v@[j].id,
    ensures
        r@ == v@.filter(attachment_not_on(task_id)),
        forall|i: int, j: int| 0 <= i < j < r@.len() ==> r@[i].id < r@[j].id,
{
    let mut out: Vec<Attachment> = Vec::new();
    let mut i: usize = 0;
    while i < v.len()
        invariant
            0 <= i <= v@.len(),
            forall|a: int, b: int| 0 <= a < b < v@.len() ==> v@[a].id < v@[b].id,
            out@ == v@.subrange(0, i as int).filter(attachment_not_on(task_id)),
            forall|a: int, b: int| 0 <= a < b < out@.len() ==> out@[a].id < out@[b].id,
            forall|a: int, m: int| 0 <= a < out@.len() && i <= m < v@.len() ==> out@[a].id < v@[m].id,
        decreases v@.len() - i,
    {
        proof {
            assert(v@.subrange(0, i + 1).drop_last() =~= v@.subrange(0, i as int));
        }
        if v[i].task_id != task_id {
            out.push(v[i].duplicate());
        }
        proof {
            reveal(Seq::filter);
            assert(v@.subrange(0, i + 1).last() == v@[i as int]);
        }
        i += 1;
    }
    proof {
        assert(v@.subrange(0, v@.len() as int) =~= v@);
    }
    out
}

impl Store {
    /// Deletes the task together with every grant and attachment on it.
    pub fn remove_task(&mut self, task_id: i32) -> (r: Result<(), ModelError>)
        requires
            old(self).wf(),
        ensures
            final(self).wf(),
            remove_task_post(*old(self), *final(self), task_id, r),
    {
        if self.task_index(task_id).is_none() {
            return Err(ModelError::NotFound);
        }
        let ghost old_tasks = self.tasks@;
        let ghost old_accesses = self.accesses@;
        let ghost old_attachments = self.attachments@;
        let tasks = tasks_without(&self.tasks, task_id);
        let accesses = accesses_without_task(&self.accesses, task_id);
        let attachments = attachments_without_task(&self.attachments, task_id);
        self.tasks = tasks;
        self.accesses = accesses;
        self.attachments = attachments;
        proof {
            broadcast use vstd::seq_lib::group_filter_ensures;

            assert(crate::store::accesses_linked(old_accesses, self.users@, old_tasks));
            assert(crate::store::attachments_linked(old_attachments, self.users@, old_tasks));

            assert forall|k: int| 0 <= k < self.accesses@.len() implies {
                &&& crate::store::has_user(self.users@, (#[trigger] self.accesses@[k]).user_id)
                &&& has_task(self.tasks@, self.accesses@[k].task_id)
            } by {
                let a = self.accesses@[k];
                assert(old_accesses.filter(access_not_on(task_id)).contains(a));
                old_accesses.lemma_filter_contains_rev(access_not_on(task_id), a);
                let ka = choose|ka: int| 0 <= ka < old_accesses.len() && old_accesses[ka] == a;
                assert(access_not_on(task_id)(a));
                assert(has_task(old_tasks, old_accesses[ka].task_id));
                let j = choose|j: int| 0 <= j < old_tasks.len() && old_tasks[j].id == a.task_id;
                assert(old_tasks.filter(not_task(task_id)).contains(old_tasks[j]));
            }
            assert forall|k: int| 0 <= k < self.attachments@.len() implies {
                &&& crate::store::has_user(self.users@, (#[trigger] self.attachments@[k]).owner_id)
                &&& has_task(self.tasks@, self.attachments@[k].task_id)
            } by {
                let a = self.attachments@[k];
                assert(old_attachments.filter(attachment_not_on(task_id)).contains(a));
                old_attachments.lemma_filter_contains_rev(attachment_not_on(task_id), a);
                let ka = choose|ka: int| 0 <= ka < old_attachments.len() && old_attachments[ka] == a;
                assert(attachment_not_on(task_id)(a));
                assert(has_task(old_tasks, old_attachments[ka].task_id));
                let j = choose|j: int| 0 <= j < old_tasks.len() && old_tasks[j].id == a.task_id;
                assert(old_tasks.filter(not_task(task_id)).contains(old_tasks[j]));
            }
            assert forall|k: int| 0 <= k < self.tasks@.len() implies 1 <= #[trigger] self.tasks@[k].id
                < self.next_task_id by {
                assert(old_tasks.filter(not_task(task_id)).contains(self.tasks@[k]));
                old_tasks.lemma_filter_contains_rev(not_task(task_id), self.tasks@[k]);
            }
            assert forall|k: int| 0 <= k < self.accesses@.len() implies 1
                <= #[trigger] self.accesses@[k].id < self.next_access_id by {
                assert(old_accesses.filter(access_not_on(task_id)).contains(self.accesses@[k]));
                old_accesses.lemma_filter_contains_rev(access_not_on(task_id), self.accesses@[k]);
            }
            assert forall|k: int| 0 <= k < self.attachments@.len() implies 1
                <= #[trigger] self.attachments@[k].id < self.next_attachment_id by {
                assert(old_attachments.filter(attachment_not_on(task_id)).contains(self.attachments@[k]));
                old_attachments.lemma_filter_contains_rev(attachment_not_on(task_id), self.attachments@[k]);
            }
        }
        Ok(())
    }
}

impl Store {
    /// Tasks whose visibility is exactly `Public`, in table order.
    pub fn list_public(&self) -> (r: Vec<Task>)
        ensures
            r@ == self.tasks@.filter(public_pred()),
    {
        let mut out: Vec<Task> = Vec::new();
        let mut i: usize = 0;
        while i < self.tasks.len()
            invariant
                0 <= i <= self.tasks@.len(),
                out@ == self.tasks@.subrange(0, i as int).filter(public_pred()),
            decreases self.tasks@.len() - i,
        {
            proof {
                assert(self.tasks@.subrange(0, i + 1).drop_last() =~= self.tasks@.subrange(0, i as int));
            }
            if self.tasks[i].visibility == TaskVisibilityEnum::Public {
                out.push(self.tasks[i].duplicate());
            }
            proof {
                reveal(Seq::filter);
                assert(self.tasks@.subrange(0, i + 1).last() == self.tasks@[i as int]);
            }
            i += 1;
        }
        proof {
            assert(self.tasks@.subrange(0, self.tasks@.len() as int) =~= self.tasks@);
        }
        out
    }

    /// Public and Paid tasks whose name contains `pattern`, ignoring case.
    pub fn search_for_anon(&self, pattern: &str) -> (r: Vec<Task>)
        ensures
            r@ == self.tasks@.filter(anon_search_pred(pattern@)),
    {
        let mut out: Vec<Task> = Vec::new();
        let mut i: usize = 0;
        while i < self.tasks.len()
            invariant
                0 <= i <= self.tasks@.len(),
                out@ == self.tasks@.subrange(0, i as int).filter(anon_search_pred(pattern@)),
            decreases self.tasks@.len() - i,
        {
            proof {
                assert(self.tasks@.subrange(0, i + 1).drop_last() =~= self.tasks@.subrange(0, i as int));
            }
            let t = &self.tasks[i];
            if name_matches(t.name.as_str(), pattern) && is_public_or_paid(t.visibility) {
                out.push(t.duplicate());
            }
            proof {
                reveal(Seq::filter);
                assert(self.tasks@.subrange(0, i + 1).last() == self.tasks@[i as int]);
            }
            i += 1;
        }
        proof {
            assert(self.tasks@.subrange(0, self.tasks@.len() as int) =~= self.tasks@);
        }
        out
    }

    /// Tasks whose name contains `pattern` (ignoring case) and that are
    /// Public or Paid, or on which the account `user_pid` holds any grant.
    pub fn search_for_user(&self, user_pid: &str, pattern: &str) -> (r: Result<Vec<Task>, ModelError>)
        requires
            self.wf(),
        ensures
            match r {
                Ok(v) => pid_taken(self.users@, user_pid@) && v@ == self.tasks@.filter(
                    user_search_pred(self.accesses@, user_of_pid(self.users@, user_pid@).id, pattern@),
                ),
                Err(e) => e == ModelError::NotFound && !pid_taken(self.users@, user_pid@),
            },
    {
        let ui = match self.user_index_by_pid(user_pid) {
            Some(i) => i,
            None => return Err(ModelError::NotFound),
        };
        proof {
            lemma_user_of_pid(self.users@, user_pid@, ui as int);
        }
        let uid = self.users[ui].id;
        let mut out: Vec<Task> = Vec::new();
        let mut i: usize = 0;
        while i < self.tasks.len()
            invariant
                0 <= i <= self.tasks@.len(),
                out@ == self.tasks@.subrange(0, i as int).filter(user_search_pred(self.accesses@, uid, pattern@)),
            decreases self.tasks@.len() - i,
        {
            proof {
                assert(self.tasks@.subrange(0, i + 1).drop_last() =~= self.tasks@.subrange(0, i as int));
            }
            let t = &self.tasks[i];
            if name_matches(t.name.as_str(), pattern) && (is_public_or_paid(t.visibility)
                || self.holds_any_exec(uid, t.id)) {
                out.push(t.duplicate());
            }
            proof {
                reveal(Seq::filter);
                assert(self.tasks@.subrange(0, i + 1).last() == self.tasks@[i as int]);
            }
            i += 1;
        }
        proof {
            assert(self.tasks@.subrange(0, self.tasks@.len() as int) =~= self.tasks@);
        }
        Ok(out)
    }

    /// Tasks on which user `uid` holds a grant, Private ones only when
    /// `with_private` is set.
    fn held_tasks(&self, uid: i32, with_private: bool) -> (r: Vec<Task>)
        ensures
            r@ == self.tasks@.filter(held_pred(self.accesses@, uid, with_private)),
    {
        let mut out: Vec<Task> = Vec::new();
        let mut i: usize = 0;
        while i < self.tasks.len()
            invariant
                0 <= i <= self.tasks@.len(),
                out@ == self.tasks@.subrange(0, i as int).filter(held_pred(self.accesses@, uid, with_private)),
            decreases self.tasks@.len() - i,
        {
            proof {
                assert(self.tasks@.subrange(0, i + 1).drop_last() =~= self.tasks@.subrange(0, i as int));
            }
            let t = &self.tasks[i];
            if self.holds_any_exec(uid, t.id) && (is_public_or_paid(t.visibility) || with_private) {
                out.push(t.duplicate());
            }
            proof {
                reveal(Seq::filter);
                assert(self.tasks@.subrange(0, i + 1).last() == self.tasks@[i as int]);
            }
            i += 1;
        }
        proof {
            assert(self.tasks@.subrange(0, self.tasks@.len() as int) =~= self.tasks@);
        }
        out
    }

    /// Tasks on which the account `user_pid` holds a grant, as `asked_by`
    /// sees them: Private ones only when the two are the same account.
    pub fn list_for_user(&self, user_pid: &str, asked_by: &str) -> (r: Result<Vec<Task>, ModelError>)
        requires
            self.wf(),
        ensures
            match r {
                Ok(v) => pid_taken(self.users@, user_pid@) && v@ == self.tasks@.filter(
                    held_pred(self.accesses@, user_of_pid(self.users@, user_pid@).id, user_pid@ == asked_by@),
                ),
                Err(e) => e == ModelError::NotFound && !pid_taken(self.users@, user_pid@),
            },
    {
        let ui = match self.user_index_by_pid(user_pid) {
            Some(i) => i,
            None => return Err(ModelError::NotFound),
        };
        proof {
            lemma_user_of_pid(self.users@, user_pid@, ui as int);
        }
        let own = crate::store::str_eq(user_pid, asked_by);
        Ok(self.held_tasks(self.users[ui].id, own))
    }

    /// Public and Paid tasks on which the account `user_pid` holds a grant.
    pub fn list_for_anon(&self, user_pid: &str) -> (r: Result<Vec<Task>, ModelError>)
        requires
            self.wf(),
        ensures
            match r {
                Ok(v) => pid_taken(self.users@, user_pid@) && v@ == self.tasks@.filter(
                    held_pred(self.accesses@, user_of_pid(self.users@, user_pid@).id, false),
                ),
                Err(e) => e == ModelError::NotFound && !pid_taken(self.users@, user_pid@),
            },
    {
        let ui = match self.user_index_by_pid(user_pid) {
            Some(i) => i,
            None => return Err(ModelError::NotFound),
        };
        proof {
            lemma_user_of_pid(self.users@, user_pid@, ui as int);
        }
        Ok(self.held_tasks(self.users[ui].id, false))
    }

    /// Search by name: as the signed-in account when there is one, else
    /// anonymously.
    pub fn search(&self, actor_pid: Option<&str>, pattern: &str) -> (r: Result<Vec<Task>, ModelError>)
        requires
            self.wf(),
        ensures
            match actor_pid {
                Some(p) => match r {
                    Ok(v) => pid_taken(self.users@, p@) && v@ == self.tasks@.filter(
                        user_search_pred(self.accesses@, user_of_pid(self.users@, p@).id, pattern@),
                    ),
                    Err(e) => e == ModelError::NotFound && !pid_taken(self.users@, p@),
                },
                None => r is Ok && r.unwrap()@ == self.tasks@.filter(
                    anon_search_pred(pattern@),
                ),
            },
    {
        match actor_pid {
            Some(p) => self.search_for_user(p, pattern),
            None => Ok(self.search_for_anon(pattern)),
        }
    }
}

/// Effect of `update_task`: the given fields change and the task is stamped;
/// an unknown task or an invalid name changes nothing.
pub open spec fn update_task_post(
    s0: Store,
    s1: Store,
    task_id: i32,
    name: Option<String>,
    visibility: Option<TaskVisibilityEnum>,
    now: i64,
    r: Result<Task, ModelError>,
) -> bool {
    match r {
        Ok(t) => exists|i: int|
            0 <= i < s0.tasks@.len() && s0.tasks@[i].id == task_id && t == (Task {
                id: task_id,
                name: match name {
                    Some(n) => n,
                    None => s0.tasks@[i].name,
                },
                visibility: match visibility {
                    Some(v) => v,
                    None => s0.tasks@[i].visibility,
                },
                created_at: s0.tasks@[i].created_at,
                updated_at: now,
            }) && (name is Some ==> name_valid(name.unwrap()@)) && s1 == (Store {
                tasks: s1.tasks,
                ..s0
            }) && s1.tasks@ == s0.tasks@.update(i, t),
        Err(e) => {
            &&& s1 == s0
            &&& e == if !has_task(s0.tasks@, task_id) {
                ModelError::NotFound
            } else {
                ModelError::Validation
            }
            &&& has_task(s0.tasks@, task_id) ==> name is Some && !name_valid(
                name.unwrap()@,
            )
        },
    }
}

/// Effect of `remove_task`: the task, its grants and its attachments are gone.
pub open spec fn remove_task_post(
    s0: Store,
    s1: Store,
    task_id: i32,
    r: Result<(), ModelError>,
) -> bool {
    &&& r is Ok <==> has_task(s0.tasks@, task_id)
    &&& r is Err ==> r == Err::<(), ModelError>(ModelError::NotFound) && s1 == s0
    &&& r is Ok ==> {
        &&& s1.tasks@ == s0.tasks@.filter(not_task(task_id))
        &&& s1.accesses@ == s0.accesses@.filter(access_not_on(task_id))
        &&& s1.attachments@ == s0.attachments@.filter(attachment_not_on(task_id))
        &&& s1.roles == s0.roles
        &&& s1.users == s0.users
        &&& s1.next_role_id == s0.next_role_id
        &&& s1.next_user_id == s0.next_user_id
        &&& s1.next_task_id == s0.next_task_id
        &&& s1.next_access_id == s0.next_access_id
        &&& s1.next_attachment_id == s0.next_attachment_id
    }
}

/// Effect of `add_task`: the task and a FullAccess grant for its creator, or nothing.
pub open spec fn add_task_post(
    s0: Store,
    s1: Store,
    user_pid: &str,
    name: String,
    visibility: Option<TaskVisibilityEnum>,
    now: i64,
    r: Result<Task, ModelError>,
) -> bool {
    match r {
        Ok(t) => {
            &&& pid_taken(s0.users@, user_pid@)
            &&& name_valid(name@)
            &&& t == (Task {
                id: s0.next_task_id,
                name: name,
                visibility: visibility_or_default(visibility),
                created_at: now,
                updated_at: now,
            })
            &&& s1.tasks@ == s0.tasks@.push(t)
            &&& s1.accesses@ == s0.accesses@.push(
                Access {
                    id: s0.next_access_id,
                    accesslevel: AccessLevelEnum::FullAccess,
                    user_id: user_of_pid(s0.users@, user_pid@).id,
                    task_id: t.id,
                    created_at: now,
                    updated_at: now,
                },
            )
            &&& s1.next_task_id == s0.next_task_id + 1
            &&& s1.next_access_id == s0.next_access_id + 1
            &&& s1.roles == s0.roles
            &&& s1.users == s0.users
            &&& s1.attachments == s0.attachments
            &&& s1.next_role_id == s0.next_role_id
            &&& s1.next_user_id == s0.next_user_id
            &&& s1.next_attachment_id == s0.next_attachment_id
        },
        Err(e) => {
            &&& s1 == s0
            &&& e == if !pid_taken(s0.users@, user_pid@) {
                ModelError::NotFound
            } else if !name_valid(name@) {
                ModelError::Validation
            } else {
                ModelError::Internal
            }
            &&& e == ModelError::Internal ==> s0.next_task_id == i32::MAX || s0.next_access_id
                == i32::MAX
        },
    }
}

} // verus!

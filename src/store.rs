use vstd::prelude::*;

use crate::enums::AccessLevelEnum;
use crate::models::{Access, Attachment, Role, Task, User};

verus! {

/// The persistent state: one table per entity, and the id that the next row
/// of each table receives.
pub struct Store {
    pub roles: Vec<Role>,
    pub users: Vec<User>,
    pub tasks: Vec<Task>,
    pub accesses: Vec<Access>,
    pub attachments: Vec<Attachment>,
    pub next_role_id: i32,
    pub next_user_id: i32,
    pub next_task_id: i32,
    pub next_access_id: i32,
    pub next_attachment_id: i32,
}

pub open spec fn has_role(roles: Seq<Role>, id: i32) -> bool {
    exists|j: int| 0 <= j < roles.len() && roles[j].id == id
}

pub open spec fn has_user(users: Seq<User>, id: i32) -> bool {
    exists|j: int| 0 <= j < users.len() && users[j].id == id
}

pub open spec fn has_task(tasks: Seq<Task>, id: i32) -> bool {
    exists|j: int| 0 <= j < tasks.len() && tasks[j].id == id
}

pub open spec fn has_attachment(atts: Seq<Attachment>, id: i32) -> bool {
    exists|j: int| 0 <= j < atts.len() && atts[j].id == id
}

pub open spec fn pid_taken(users: Seq<User>, pid: Seq<char>) -> bool {
    exists|j: int| 0 <= j < users.len() && users[j].pid@ == pid
}

pub open spec fn email_taken(users: Seq<User>, email: Seq<char>) -> bool {
    exists|j: int| 0 <= j < users.len() && users[j].email@ == email
}

/// Ids grow strictly along the table and stay below the next id to hand out.
pub open spec fn role_ids_ok(s: Seq<Role>, next: i32) -> bool {
    &&& 1 <= next
    &&& forall|i: int, j: int| 0 <= i < j < s.len() ==> s[i].id < s[j].id
    &&& forall|i: int| 0 <= i < s.len() ==> 1 <= #[trigger] s[i].id < next
}

pub open spec fn user_ids_ok(s: Seq<User>, next: i32) -> bool {
    &&& 1 <= next
    &&& forall|i: int, j: int| 0 <= i < j < s.len() ==> s[i].id < s[j].id
    &&& forall|i: int| 0 <= i < s.len() ==> 1 <= #[trigger] s[i].id < next
}

pub open spec fn task_ids_ok(s: Seq<Task>, next: i32) -> bool {
    &&& 1 <= next
    &&& forall|i: int, j: int| 0 <= i < j < s.len() ==> s[i].id < s[j].id
    &&& forall|i: int| 0 <= i < s.len() ==> 1 <= #[trigger] s[i].id < next
}

pub open spec fn access_ids_ok(s: Seq<Access>, next: i32) -> bool {
    &&& 1 <= next
    &&& forall|i: int, j: int| 0 <= i < j < s.len() ==> s[i].id < s[j].id
    &&& forall|i: int| 0 <= i < s.len() ==> 1 <= #[trigger] s[i].id < next
}

pub open spec fn attachment_ids_ok(s: Seq<Attachment>, next: i32) -> bool {
    &&& 1 <= next
    &&& forall|i: int, j: int| 0 <= i < j < s.len() ==> s[i].id < s[j].id
    &&& forall|i: int| 0 <= i < s.len() ==> 1 <= #[trigger] s[i].id < next
}

/// No two accounts share a pid or an e-mail.
pub open spec fn users_unique(s: Seq<User>) -> bool {
    forall|i: int, j: int|
        0 <= i < s.len() && 0 <= j < s.len() && i != j ==> s[i].pid@ != s[j].pid@ && s[i].email@
            != s[j].email@
}

/// Every grant names an existing user and an existing task.
pub open spec fn accesses_linked(acc: Seq<Access>, users: Seq<User>, tasks: Seq<Task>) -> bool {
    forall|k: int|
        0 <= k < acc.len() ==> has_user(users, (#[trigger] acc[k]).user_id) && has_task(
            tasks,
            acc[k].task_id,
        )
}

/// Every attachment names an existing owner and an existing task.
pub open spec fn attachments_linked(
    atts: Seq<Attachment>,
    users: Seq<User>,
    tasks: Seq<Task>,
) -> bool {
    forall|k: int|
        0 <= k < atts.len() ==> has_user(users, (#[trigger] atts[k]).owner_id) && has_task(
            tasks,
            atts[k].task_id,
        )
}

/// Every account has a role that exists.
pub open spec fn users_have_roles(users: Seq<User>, roles: Seq<Role>) -> bool {
    forall|k: int| 0 <= k < users.len() ==> has_role(roles, (#[trigger] users[k]).role_id)
}

/// The grant at `k` gives the user `user_id` one of `levels` on `task_id`.
pub open spec fn grant_matches(
    a: Access,
    user_id: i32,
    task_id: i32,
    levels: Seq<AccessLevelEnum>,
) -> bool {
    a.user_id == user_id && a.task_id == task_id && levels.contains(a.accesslevel)
}

/// Some grant gives the account with this pid one of `levels` on the task.
pub open spec fn pid_granted(
    users: Seq<User>,
    acc: Seq<Access>,
    pid: Seq<char>,
    task_id: i32,
    levels: Seq<AccessLevelEnum>,
) -> bool {
    exists|u: int, k: int|
        0 <= u < users.len() && 0 <= k < acc.len() && users[u].pid@ == pid && grant_matches(
            acc[k],
            users[u].id,
            task_id,
            levels,
        )
}

/// Some grant of any level links the user to the task.
pub open spec fn holds_any(acc: Seq<Access>, user_id: i32, task_id: i32) -> bool {
    exists|k: int| 0 <= k < acc.len() && acc[k].user_id == user_id && acc[k].task_id == task_id
}

impl Store {
    pub open spec fn wf(&self) -> bool {
        &&& role_ids_ok(self.roles@, self.next_role_id)
        &&& user_ids_ok(self.users@, self.next_user_id)
        &&& task_ids_ok(self.tasks@, self.next_task_id)
        &&& attachment_ids_ok(self.attachments@, self.next_attachment_id)
        &&& access_ids_ok(self.accesses@, self.next_access_id)
        &&& users_unique(self.users@)
        &&& users_have_roles(self.users@, self.roles@)
        &&& accesses_linked(self.accesses@, self.users@, self.tasks@)
        &&& attachments_linked(self.attachments@, self.users@, self.tasks@)
    }

    /// An empty store.
    pub fn new() -> (r: Store)
        ensures
            r.wf(),
            r.roles@.len() == 0,
            r.users@.len() == 0,
            r.tasks@.len() == 0,
            r.accesses@.len() == 0,
            r.attachments@.len() == 0,
            r.next_role_id == 1 && r.next_user_id == 1 && r.next_task_id == 1,
            r.next_access_id == 1 && r.next_attachment_id == 1,
    {
        Store {
            roles: Vec::new(),
            users: Vec::new(),
            tasks: Vec::new(),
            accesses: Vec::new(),
            attachments: Vec::new(),
            next_role_id: 1,
            next_user_id: 1,
            next_task_id: 1,
            next_access_id: 1,
            next_attachment_id: 1,
        }
    }

    /// Position of the role with this id.
    pub fn role_index(&self, id: i32) -> (r: Option<usize>)
        ensures
            match r {
                Some(i) => i < self.roles@.len() && self.roles@[i as int].id == id,
                None => !has_role(self.roles@, id),
            },
    {
        let mut i: usize = 0;
        while i < self.roles.len()
            invariant
                0 <= i <= self.roles@.len(),
                forall|j: int| 0 <= j < i ==> self.roles@[j].id != id,
            decreases self.roles@.len() - i,
        {
            if self.roles[i].id == id {
                return Some(i);
            }
            i += 1;
        }
        None
    }

    /// Position of the user with this id.
    pub fn user_index(&self, id: i32) -> (r: Option<usize>)
        ensures
            match r {
                Some(i) => i < self.users@.len() && self.users@[i as int].id == id,
                None => !has_user(self.users@, id),
            },
    {
        let mut i: usize = 0;
        while i < self.users.len()
            invariant
                0 <= i <= self.users@.len(),
                forall|j: int| 0 <= j < i ==> self.users@[j].id != id,
            decreases self.users@.len() - i,
        {
            if self.users[i].id == id {
                return Some(i);
            }
            i += 1;
        }
        None
    }

    /// Position of the user with this pid.
    pub fn user_index_by_pid(&self, pid: &str) -> (r: Option<usize>)
        ensures
            match r {
                Some(i) => i < self.users@.len() && self.users@[i as int].pid@ == pid@,
                None => !pid_taken(self.users@, pid@),
            },
    {
        let mut i: usize = 0;
        while i < self.users.len()
            invariant
                0 <= i <= self.users@.len(),
                forall|j: int| 0 <= j < i ==> self.users@[j].pid@ != pid@,
            decreases self.users@.len() - i,
        {
            if str_eq(self.users[i].pid.as_str(), pid) {
                return Some(i);
            }
            i += 1;
        }
        None
    }

    /// Position of the user with this e-mail.
    pub fn user_index_by_email(&self, email: &str) -> (r: Option<usize>)
        ensures
            match r {
                Some(i) => i < self.users@.len() && self.users@[i as int].email@ == email@,
                None => !email_taken(self.users@, email@),
            },
    {
        let mut i: usize = 0;
        while i < self.users.len()
            invariant
                0 <= i <= self.users@.len(),
                forall|j: int| 0 <= j < i ==> self.users@[j].email@ != email@,
            decreases self.users@.len() - i,
        {
            if str_eq(self.users[i].email.as_str(), email) {
                return Some(i);
            }
            i += 1;
        }
        None
    }

    /// Position of the task with this id.
    pub fn task_index(&self, id: i32) -> (r: Option<usize>)
        ensures
            match r {
                Some(i) => i < self.tasks@.len() && self.tasks@[i as int].id == id,
                None => !has_task(self.tasks@, id),
            },
    {
        let mut i: usize = 0;
        while i < self.tasks.len()
            invariant
                0 <= i <= self.tasks@.len(),
                forall|j: int| 0 <= j < i ==> self.tasks@[j].id != id,
            decreases self.tasks@.len() - i,
        {
            if self.tasks[i].id == id {
                return Some(i);
            }
            i += 1;
        }
        None
    }

    /// Position of the attachment with this id.
    pub fn attachment_index(&self, id: i32) -> (r: Option<usize>)
        ensures
            match r {
                Some(i) => i < self.attachments@.len() && self.attachments@[i as int].id == id,
                None => !has_attachment(self.attachments@, id),
            },
    {
        let mut i: usize = 0;
        while i < self.attachments.len()
            invariant
                0 <= i <= self.attachments@.len(),
                forall|j: int| 0 <= j < i ==> self.attachments@[j].id != id,
            decreases self.attachments@.len() - i,
        {
            if self.attachments[i].id == id {
                return Some(i);
            }
            i += 1;
        }
        None
    }

    /// Position of the first grant that links the user to the task.
    pub fn access_index(&self, user_id: i32, task_id: i32) -> (r: Option<usize>)
        ensures
            match r {
                Some(i) => {
                    &&& i < self.accesses@.len()
                    &&& self.accesses@[i as int].user_id == user_id
                    &&& self.accesses@[i as int].task_id == task_id
                    &&& forall|j: int|
                        0 <= j < i ==> !(self.accesses@[j].user_id == user_id
                            && self.accesses@[j].task_id == task_id)
                },
                None => !holds_any(self.accesses@, user_id, task_id),
            },
    {
        let mut i: usize = 0;
        while i < self.accesses.len()
            invariant
                0 <= i <= self.accesses@.len(),
                forall|j: int|
                    0 <= j < i ==> !(self.accesses@[j].user_id == user_id
                        && self.accesses@[j].task_id == task_id),
            decreases self.accesses@.len() - i,
        {
            if self.accesses[i].user_id == user_id && self.accesses[i].task_id == task_id {
                return Some(i);
            }
            i += 1;
        }
        None
    }
}

/// Character-wise equality of two strings.
pub fn str_eq(a: &str, b: &str) -> (r: bool)
    ensures
        r == (a@ == b@),
{
    let n = a.unicode_len();
    if n != b.unicode_len() {
        return false;
    }
    let mut i: usize = 0;
    while i < n
        invariant
            n == a@.len(),
            n == b@.len(),
            0 <= i <= n,
            forall|j: int| 0 <= j < i ==> a@[j] == b@[j],
        decreases n - i,
    {
        if a.get_char(i) != b.get_char(i) {
            return false;
        }
        i += 1;
    }
    assert(a@ =~= b@);
    true
}

} // verus!

verus! {

/// The account with this pid (meaningful when one exists).
pub open spec fn user_of_pid(users: Seq<User>, pid: Seq<char>) -> User {
    users[choose|u: int| 0 <= u < users.len() && users[u].pid@ == pid]
}

/// Pids are unique, so the account found by a pid is the one at its position.
pub proof fn lemma_user_of_pid(users: Seq<User>, pid: Seq<char>, ui: int)
    requires
        users_unique(users),
        0 <= ui < users.len(),
        users[ui].pid@ == pid,
    ensures
        user_of_pid(users, pid) == users[ui],
{
    let u = choose|u: int| 0 <= u < users.len() && users[u].pid@ == pid;
    assert(u == ui);
}

impl Store {
    /// Whether some grant of any level links the user to the task.
    pub fn holds_any_exec(&self, user_id: i32, task_id: i32) -> (r: bool)
        ensures
            r == holds_any(self.accesses@, user_id, task_id),
    {
        self.access_index(user_id, task_id).is_some()
    }
}

} // verus!

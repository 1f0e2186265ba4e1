//! Properties that relate several operations, proved over their contracts.
use vstd::prelude::*;

use crate::accesses::{grant_access_post, grants_of, on_task, user_of_email};
use crate::authz::access_outcome;
use crate::enums::{AccessLevelEnum, TaskVisibilityEnum};
use crate::error::ModelError;
use crate::models::{Access, Task};
use crate::store::{email_taken, has_task, holds_any, pid_taken, user_of_pid, Store};
use crate::tasks::{
    access_not_on, add_task_post, anon_search_pred, public_pred, remove_task_post, user_search_pred,
};
use crate::text::name_matches_spec;

verus! {

broadcast use vstd::seq_lib::group_filter_ensures;

/// Right after a task is created, the grants on it are exactly one row: its
/// creator with FullAccess.
pub proof fn lemma_new_task_has_one_owner_grant(
    s0: Store,
    s1: Store,
    user_pid: &str,
    name: String,
    visibility: Option<TaskVisibilityEnum>,
    now: i64,
    r: Result<Task, ModelError>,
)
    requires
        s0.wf(),
        add_task_post(s0, s1, user_pid, name, visibility, now, r),
        r is Ok,
    ensures
        s1.accesses@.filter(on_task(r.unwrap().id)) == seq![
            Access {
                id: s0.next_access_id,
                accesslevel: AccessLevelEnum::FullAccess,
                user_id: user_of_pid(s0.users@, user_pid@).id,
                task_id: r.unwrap().id,
                created_at: now,
                updated_at: now,
            },
        ],
{
    let t = r.unwrap();
    let acc = s0.accesses@;
    let f = acc.filter(on_task(t.id));
    if f.len() > 0 {
        assert(on_task(t.id)(f[0]));
        assert(f.contains(f[0]));
        acc.lemma_filter_contains_rev(on_task(t.id), f[0]);
        let k = choose|k: int| 0 <= k < acc.len() && acc[k] == f[0];
        assert(has_task(s0.tasks@, acc[k].task_id));
        let j = choose|j: int| 0 <= j < s0.tasks@.len() && s0.tasks@[j].id == acc[k].task_id;
        assert(s0.tasks@[j].id < s0.next_task_id);
    }
    assert(f =~= Seq::<Access>::empty());
    let a = s1.accesses@.last();
    assert(s1.accesses@.drop_last() =~= acc);
    reveal(Seq::filter);
    assert(s1.accesses@.filter(on_task(t.id)) =~= f.push(a));
}

/// For a known account and task the check passes exactly when one of the
/// account's grants on the task has a required level; otherwise it fails
/// with Unauthorized, also when a grant exists with another level.
pub proof fn lemma_access_iff_grant(
    s: Store,
    pid: Seq<char>,
    task_id: i32,
    levels: Seq<AccessLevelEnum>,
)
    requires
        s.wf(),
        pid_taken(s.users@, pid),
        has_task(s.tasks@, task_id),
    ensures
        access_outcome(s, pid, task_id, levels) is Ok <==> exists|k: int|
            0 <= k < s.accesses@.len() && s.accesses@[k].user_id == user_of_pid(s.users@, pid).id
                && s.accesses@[k].task_id == task_id && levels.contains(s.accesses@[k].accesslevel),
        access_outcome(s, pid, task_id, levels) is Err ==> access_outcome(s, pid, task_id, levels)
            == Err::<(), ModelError>(ModelError::Unauthorized),
{
    let ui = choose|u: int| 0 <= u < s.users@.len() && s.users@[u].pid@ == pid;
    crate::store::lemma_user_of_pid(s.users@, pid, ui);
    if crate::store::pid_granted(s.users@, s.accesses@, pid, task_id, levels) {
        let (u, k) = choose|u: int, k: int|
            0 <= u < s.users@.len() && 0 <= k < s.accesses@.len() && s.users@[u].pid@ == pid
                && crate::store::grant_matches(s.accesses@[k], s.users@[u].id, task_id, levels);
        assert(u == ui);
    }
    if exists|k: int|
        0 <= k < s.accesses@.len() && s.accesses@[k].user_id == user_of_pid(s.users@, pid).id
            && s.accesses@[k].task_id == task_id && levels.contains(s.accesses@[k].accesslevel) {
        let k = choose|k: int|
            0 <= k < s.accesses@.len() && s.accesses@[k].user_id == user_of_pid(s.users@, pid).id
                && s.accesses@[k].task_id == task_id && levels.contains(
                s.accesses@[k].accesslevel,
            );
        assert(crate::store::grant_matches(s.accesses@[k], s.users@[ui].id, task_id, levels));
    }
}

/// Granting to an account that already holds grants on the task succeeds
/// and keeps them: the rows for that account and task are the earlier ones
/// followed by the new one. Nothing is replaced or merged.
pub proof fn lemma_grant_keeps_existing_rows(
    s0: Store,
    s1: Store,
    task_id: i32,
    email: &str,
    level: AccessLevelEnum,
    now: i64,
    r: Result<Access, ModelError>,
)
    requires
        s0.wf(),
        email_taken(s0.users@, email@),
        has_task(s0.tasks@, task_id),
        s0.next_access_id < i32::MAX,
        grant_access_post(s0, s1, task_id, email, level, now, r),
    ensures
        r is Ok,
        r.unwrap().accesslevel == level,
        s1.accesses@.filter(grants_of(user_of_email(s0.users@, email@).id, task_id))
            == s0.accesses@.filter(grants_of(user_of_email(s0.users@, email@).id, task_id)).push(
            r.unwrap(),
        ),
{
    let a = r.unwrap();
    let p = grants_of(user_of_email(s0.users@, email@).id, task_id);
    s0.accesses@.lemma_filter_push(a, p);
}

/// Granting twice to one account on one task keeps both rows: the second
/// grant is appended after the first, with its own level and its own id.
pub proof fn lemma_grant_twice_keeps_both(
    s0: Store,
    s1: Store,
    s2: Store,
    task_id: i32,
    email: &str,
    first: AccessLevelEnum,
    second: AccessLevelEnum,
    now1: i64,
    now2: i64,
    r1: Result<Access, ModelError>,
    r2: Result<Access, ModelError>,
)
    requires
        s0.wf(),
        email_taken(s0.users@, email@),
        has_task(s0.tasks@, task_id),
        s0.next_access_id < i32::MAX - 1,
        grant_access_post(s0, s1, task_id, email, first, now1, r1),
        grant_access_post(s1, s2, task_id, email, second, now2, r2),
    ensures
        r1 is Ok && r2 is Ok,
        s2.accesses@ == s0.accesses@ + seq![r1.unwrap(), r2.unwrap()],
        r1.unwrap().user_id == r2.unwrap().user_id,
        r1.unwrap().user_id == user_of_email(s0.users@, email@).id,
        r1.unwrap().task_id == task_id && r2.unwrap().task_id == task_id,
        r1.unwrap().accesslevel == first && r2.unwrap().accesslevel == second,
        r1.unwrap().id != r2.unwrap().id,
{
    assert(r1 is Ok);
    assert(s1.users == s0.users && s1.tasks == s0.tasks);
    assert(r2 is Ok);
    assert(s2.accesses@ =~= s0.accesses@ + seq![r1.unwrap(), r2.unwrap()]);
}

/// Listing public tasks gives every Public task and nothing Paid or Private.
pub proof fn lemma_list_public_exact(tasks: Seq<Task>)
    ensures
        forall|i: int|
            0 <= i < tasks.filter(public_pred()).len() ==> (#[trigger] tasks.filter(
                public_pred(),
            )[i]).visibility == TaskVisibilityEnum::Public,
        forall|i: int|
            0 <= i < tasks.len() && (#[trigger] tasks[i]).visibility == TaskVisibilityEnum::Public
                ==> tasks.filter(public_pred()).contains(tasks[i]),
{
    assert forall|i: int|
        0 <= i < tasks.filter(public_pred()).len() implies (#[trigger] tasks.filter(
        public_pred(),
    )[i]).visibility == TaskVisibilityEnum::Public by {
        assert(public_pred()(tasks.filter(public_pred())[i]));
    }
    assert forall|i: int|
        0 <= i < tasks.len() && (#[trigger] tasks[i]).visibility
            == TaskVisibilityEnum::Public implies tasks.filter(public_pred()).contains(tasks[i]) by {
        assert(public_pred()(tasks[i]));
    }
}

/// A Private task whose name matches is found by a user who holds any grant
/// on it, while an anonymous search never returns it.
pub proof fn lemma_search_union(s: Store, pid: Seq<char>, pattern: Seq<char>, i: int)
    requires
        0 <= i < s.tasks@.len(),
        s.tasks@[i].visibility == TaskVisibilityEnum::Private,
        name_matches_spec(s.tasks@[i].name@, pattern),
        holds_any(s.accesses@, user_of_pid(s.users@, pid).id, s.tasks@[i].id),
    ensures
        s.tasks@.filter(user_search_pred(s.accesses@, user_of_pid(s.users@, pid).id, pattern)).contains(
            s.tasks@[i],
        ),
        !s.tasks@.filter(anon_search_pred(pattern)).contains(s.tasks@[i]),
{
    let uid = user_of_pid(s.users@, pid).id;
    assert(user_search_pred(s.accesses@, uid, pattern)(s.tasks@[i]));
    let f = s.tasks@.filter(anon_search_pred(pattern));
    if f.contains(s.tasks@[i]) {
        let k = choose|k: int| 0 <= k < f.len() && f[k] == s.tasks@[i];
        assert(anon_search_pred(pattern)(f[k]));
    }
}

/// Once a task is removed, no grant on it is left: listing its grants gives
/// nothing.
pub proof fn lemma_removed_task_has_no_grants(
    s0: Store,
    s1: Store,
    task_id: i32,
    r: Result<(), ModelError>,
)
    requires
        remove_task_post(s0, s1, task_id, r),
        r is Ok,
    ensures
        s1.accesses@.filter(on_task(task_id)).len() == 0,
{
    let f = s1.accesses@.filter(on_task(task_id));
    if f.len() > 0 {
        assert(on_task(task_id)(f[0]));
        assert(f.contains(f[0]));
        s1.accesses@.lemma_filter_contains_rev(on_task(task_id), f[0]);
        let k = choose|k: int| 0 <= k < s1.accesses@.len() && s1.accesses@[k] == f[0];
        assert(access_not_on(task_id)(s1.accesses@[k]));
    }
}

} // verus!

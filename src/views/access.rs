use vstd::prelude::*;

use crate::enums::AccessLevelEnum;
use crate::models::Access;

verus! {

#[derive(Debug, PartialEq, Eq)]
pub struct AccessResponse {
    pub accesslevel: AccessLevelEnum,
    pub user_id: i32,
    pub task_id: i32,
}

impl AccessResponse {
    pub open spec fn of(access: Access) -> AccessResponse {
        AccessResponse {
            accesslevel: access.accesslevel,
            user_id: access.user_id,
            task_id: access.task_id,
        }
    }

    pub fn new(access: Access) -> (r: Self)
        ensures
            r == Self::of(access),
    {
        AccessResponse {
            accesslevel: access.accesslevel,
            user_id: access.user_id,
            task_id: access.task_id,
        }
    }

    pub fn from_vec(accesses: Vec<Access>) -> (r: Vec<Self>)
        ensures
            r@.len() == accesses@.len(),
            forall|i: int| 0 <= i < r@.len() ==> r@[i] == Self::of(#[trigger] accesses@[i]),
    {
        let mut out: Vec<Self> = Vec::new();
        let mut i: usize = 0;
        while i < accesses.len()
            invariant
                0 <= i <= accesses@.len(),
                out@.len() == i,
                forall|k: int| 0 <= k < i ==> out@[k] == Self::of(#[trigger] accesses@[k]),
            decreases accesses@.len() - i,
        {
            let a = &accesses[i];
            out.push(
                AccessResponse { accesslevel: a.accesslevel, user_id: a.user_id, task_id: a.task_id },
            );
            i += 1;
        }
        out
    }
}

} // verus!

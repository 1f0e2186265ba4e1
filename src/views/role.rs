use vstd::prelude::*;

use crate::models::Role;

verus! {

#[derive(Debug, PartialEq, Eq)]
pub struct GetResponse {
    pub id: i32,
    pub name: String,
}

impl GetResponse {
    pub open spec fn of(role: Role) -> GetResponse {
        GetResponse { id: role.id, name: role.name }
    }

    pub fn new(role: &Role) -> (r: Self)
        ensures
            r == Self::of(*role),
    {
        GetResponse { id: role.id, name: role.name.clone() }
    }
}

} // verus!

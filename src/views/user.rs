use vstd::prelude::*;

use crate::models::{Role, User};

verus! {

#[derive(Debug, PartialEq, Eq)]
pub struct GetResponse {
    pub pid: String,
    pub email: String,
    pub name: String,
    pub role: String,
    pub is_verified: bool,
}

impl GetResponse {
    pub open spec fn of(user: User, role: Role) -> GetResponse {
        GetResponse {
            pid: user.pid,
            email: user.email,
            name: user.name,
            role: role.name,
            is_verified: user.email_verified_at is Some,
        }
    }

    pub fn new(user: &User, role: &Role) -> (r: Self)
        ensures
            r == Self::of(*user, *role),
    {
        GetResponse {
            pid: user.pid.clone(),
            email: user.email.clone(),
            name: user.name.clone(),
            role: role.name.clone(),
            is_verified: user.email_verified_at.is_some(),
        }
    }
}

} // verus!

use vstd::prelude::*;

use crate::models::{Role, User};

verus! {

#[derive(Debug, PartialEq, Eq)]
pub struct LoginResponse {
    pub pid: String,
    pub name: String,
    pub is_verified: bool,
    pub role: String,
}

impl LoginResponse {
    pub open spec fn of(user: User, role: Role) -> LoginResponse {
        LoginResponse {
            pid: user.pid,
            name: user.name,
            is_verified: user.email_verified_at is Some,
            role: role.name,
        }
    }

    pub fn new(user: &User, role: &Role) -> (r: Self)
        ensures
            r == Self::of(*user, *role),
    {
        LoginResponse {
            pid: user.pid.clone(),
            name: user.name.clone(),
            is_verified: user.email_verified_at.is_some(),
            role: role.name.clone(),
        }
    }
}

#[derive(Debug, PartialEq, Eq)]
pub struct CurrentResponse {
    pub pid: String,
    pub name: String,
    pub email: String,
    pub role: String,
}

impl CurrentResponse {
    pub open spec fn of(user: User, role: Role) -> CurrentResponse {
        CurrentResponse { pid: user.pid, name: user.name, email: user.email, role: role.name }
    }

    pub fn new(user: &User, role: &Role) -> (r: Self)
        ensures
            r == Self::of(*user, *role),
    {
        CurrentResponse {
            pid: user.pid.clone(),
            name: user.name.clone(),
            email: user.email.clone(),
            role: role.name.clone(),
        }
    }
}

} // verus!

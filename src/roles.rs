use vstd::prelude::*;

use crate::authz::pid_is_admin;
use crate::error::ModelError;
use crate::models::Role;
use crate::store::{has_role, pid_taken, role_ids_ok, Store};

verus! {

/// Which error an admin-only role operation fails with before it looks at the
/// roles: an unknown actor is `NotFound`, a non-admin `Unauthorized`.
pub open spec fn admin_error(s: Store, actor_pid: Seq<char>) -> Option<ModelError> {
    if !pid_taken(s.users@, actor_pid) {
        Some(ModelError::NotFound)
    } else if !pid_is_admin(s.users@, s.roles@, actor_pid) {
        Some(ModelError::Unauthorized)
    } else {
        None
    }
}

/// No account has the role `role_id`.
pub open spec fn role_unused(s: Store, role_id: i32) -> bool {
    forall|k: int| 0 <= k < s.users@.len() ==> (#[trigger] s.users@[k]).role_id != role_id
}

impl Store {
    /// Whether some account has the role.
    fn role_in_use(&self, role_id: i32) -> (r: bool)
        ensures
            r == !role_unused(*self, role_id),
    {
        let mut k: usize = 0;
        while k < self.users.len()
            invariant
                0 <= k <= self.users@.len(),
                forall|j: int| 0 <= j < k ==> (#[trigger] self.users@[j]).role_id != role_id,
            decreases self.users@.len() - k,
        {
            if self.users[k].role_id == role_id {
                return true;
            }
            k += 1;
        }
        false
    }

    /// All roles, in table order.
    pub fn list_roles(&self) -> (r: Vec<Role>)
        ensures
            r@ == self.roles@,
    {
        let mut out: Vec<Role> = Vec::new();
        let mut i: usize = 0;
        while i < self.roles.len()
            invariant
                0 <= i <= self.roles@.len(),
                out@ == self.roles@.subrange(0, i as int),
            decreases self.roles@.len() - i,
        {
            out.push(self.roles[i].duplicate());
            proof {
                assert(out@ =~= self.roles@.subrange(0, i + 1));
            }
            i += 1;
        }
        proof {
            assert(out@ =~= self.roles@);
        }
        out
    }

    /// Adds a role; used to set up the tiers before any account exists.
    pub fn create_role(&mut self, name: String) -> (r: Result<Role, ModelError>)
        requires
            old(self).wf(),
        ensures
            final(self).wf(),
            create_role_post(*old(self), *final(self), name, r),
    {
        if self.next_role_id == i32::MAX {
            return Err(ModelError::Internal);
        }
        let role = Role { id: self.next_role_id, name };
        let out = role.duplicate();
        let ghost old_roles = self.roles@;
        self.roles.push(role);
        self.next_role_id = self.next_role_id + 1;
        proof {
            assert forall|i: int, j: int| 0 <= i < j < self.roles@.len() implies self.roles@[i].id
                < self.roles@[j].id by {
                assert(self.roles@[i] == old_roles[i]);
                if j < old_roles.len() {
                    assert(self.roles@[j] == old_roles[j]);
                }
            }
            assert(role_ids_ok(self.roles@, self.next_role_id));
            assert forall|k: int| 0 <= k < self.users@.len() implies has_role(
                self.roles@,
                (#[trigger] self.users@[k]).role_id,
            ) by {
                let j = choose|j: int| 0 <= j < old_roles.len() && old_roles[j].id == self.users@[k].role_id;
                assert(self.roles@[j] == old_roles[j]);
            }
        }
        Ok(out)
    }

    /// Adds a role on behalf of an admin.
    pub fn add_role(&mut self, actor_pid: &str, name: String) -> (r: Result<Role, ModelError>)
        requires
            old(self).wf(),
        ensures
            final(self).wf(),
            match admin_error(*old(self), actor_pid@) {
                Some(e) => r == Err::<Role, ModelError>(e) && *final(self) == *old(self),
                None => create_role_post(*old(self), *final(self), name, r),
            },
    {
        self.require_admin(actor_pid)?;
        self.create_role(name)
    }

    /// Renames a role on behalf of an admin.
    pub fn update_role(&mut self, actor_pid: &str, role_id: i32, name: String) -> (r: Result<
        Role,
        ModelError,
    >)
        requires
            old(self).wf(),
        ensures
            final(self).wf(),
            match admin_error(*old(self), actor_pid@) {
                Some(e) => r == Err::<Role, ModelError>(e) && *final(self) == *old(self),
                None => match r {
                    Ok(role) => {
                        &&& has_role(old(self).roles@, role_id)
                        &&& role == (Role { id: role_id, name: name })
                        &&& final(self).roles@.len() == old(self).roles@.len()
                        &&& forall|k: int|
                            0 <= k < old(self).roles@.len() ==> #[trigger] final(self).roles@[k] == if old(
                                self,
                            ).roles@[k].id == role_id {
                                role
                            } else {
                                old(self).roles@[k]
                            }
                        &&& *final(self) == (Store { roles: final(self).roles, ..*old(self) })
                    },
                    Err(e) => e == ModelError::NotFound && !has_role(old(self).roles@, role_id)
                        && *final(self) == *old(self),
                },
            },
    {
        self.require_admin(actor_pid)?;
        let i = match self.role_index(role_id) {
            Some(i) => i,
            None => return Err(ModelError::NotFound),
        };
        let role = Role { id: role_id, name };
        let out = role.duplicate();
        let ghost old_roles = self.roles@;
        self.roles.set(i, role);
        proof {

            assert forall|a: int, b: int| 0 <= a < b < self.roles@.len() implies self.roles@[a].id
                < self.roles@[b].id by {
                assert(self.roles@[a].id == old_roles[a].id);
                assert(self.roles@[b].id == old_roles[b].id);
            }
            assert(role_ids_ok(self.roles@, self.next_role_id));
            assert forall|k: int| 0 <= k < self.users@.len() implies has_role(
                self.roles@,
                (#[trigger] self.users@[k]).role_id,
            ) by {
                let j = choose|j: int| 0 <= j < old_roles.len() && old_roles[j].id == self.users@[k].role_id;
                assert(self.roles@[j].id == old_roles[j].id);
            }
        }
        Ok(out)
    }

    /// Deletes a role on behalf of an admin; a role that an account still has
    /// is kept (`Conflict`).
    pub fn remove_role(&mut self, actor_pid: &str, role_id: i32) -> (r: Result<(), ModelError>)
        requires
            old(self).wf(),
        ensures
            final(self).wf(),
            match admin_error(*old(self), actor_pid@) {
                Some(e) => r == Err::<(), ModelError>(e) && *final(self) == *old(self),
                None => match r {
                    Ok(_) => role_unused(*old(self), role_id) && exists|i: int|
                        0 <= i < old(self).roles@.len() && old(self).roles@[i].id == role_id
                            && final(self).roles@ == old(self).roles@.remove(i)
                            && *final(self) == (Store { roles: final(self).roles, ..*old(self) }),
                    Err(e) => *final(self) == *old(self) && if !has_role(old(self).roles@, role_id) {
                        e == ModelError::NotFound
                    } else {
                        e == ModelError::Conflict && !role_unused(*old(self), role_id)
                    },
                },
            },
    {
        self.require_admin(actor_pid)?;
        let i = match self.role_index(role_id) {
            Some(i) => i,
            None => return Err(ModelError::NotFound),
        };
        if self.role_in_use(role_id) {
            return Err(ModelError::Conflict);
        }
        let ghost old_roles = self.roles@;
        self.roles.remove(i);
        proof {
            let n = self.roles@;
            assert forall|a: int, b: int| 0 <= a < b < n.len() implies n[a].id < n[b].id by {
                let oa = if a < i { a } else { a + 1 };
                let ob = if b < i { b } else { b + 1 };
                assert(n[a] == old_roles[oa]);
                assert(n[b] == old_roles[ob]);
            }
            assert forall|a: int| 0 <= a < n.len() implies 1 <= #[trigger] n[a].id < self.next_role_id by {
                let oa = if a < i { a } else { a + 1 };
                assert(n[a] == old_roles[oa]);
            }
            assert forall|u: int| 0 <= u < self.users@.len() implies has_role(
                n,
                (#[trigger] self.users@[u]).role_id,
            ) by {
                let j = choose|j: int| 0 <= j < old_roles.len() && old_roles[j].id == self.users@[u].role_id;
                assert(j != i);
                let nj = if j < i { j } else { j - 1 };
                assert(n[nj] == old_roles[j]);
            }
        }
        Ok(())
    }
}

/// Effect of `create_role`: one new role row, unless the role ids are used up.
pub open spec fn create_role_post(
    s0: Store,
    s1: Store,
    name: String,
    r: Result<Role, ModelError>,
) -> bool {
    match r {
        Ok(role) => {
            &&& s0.next_role_id < i32::MAX
            &&& role == (Role { id: s0.next_role_id, name: name })
            &&& s1.roles@ == s0.roles@.push(role)
            &&& s1 == (Store {
                roles: s1.roles,
                next_role_id: (s0.next_role_id + 1) as i32,
                ..s0
            })
        },
        Err(e) => e == ModelError::Internal && s0.next_role_id == i32::MAX
            && s1 == s0,
    }
}

} // verus!

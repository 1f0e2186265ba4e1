use vstd::prelude::*;

use crate::error::ModelError;
use crate::models::{Access, Attachment, Role, User};
use crate::store::{
    email_taken, has_role, has_task, has_user, lemma_user_of_pid, pid_taken, user_ids_ok,
    user_of_pid, users_unique, Store,
};
use crate::views::auth::LoginResponse;

verus! {

/// Outcome of a sign-in once the account is found and the password checked:
/// a wrong password is `Unauthorized`, an unverified e-mail `Forbidden`.
pub fn login_decision(user: &User, role: &Role, password_ok: bool) -> (r: Result<
    LoginResponse,
    ModelError,
>)
    ensures
        !password_ok ==> r == Err::<LoginResponse, ModelError>(ModelError::Unauthorized),
        password_ok && user.email_verified_at is None ==> r == Err::<LoginResponse, ModelError>(
            ModelError::Forbidden,
        ),
        password_ok && user.email_verified_at is Some ==> r == Ok::<LoginResponse, ModelError>(
            LoginResponse::of(*user, *role),
        ),
{
    if !password_ok {
        return Err(ModelError::Unauthorized);
    }
    if user.email_verified_at.is_none() {
        return Err(ModelError::Forbidden);
    }
    Ok(LoginResponse::new(user, role))
}

/// Grants held by accounts other than `user_id`.
pub open spec fn access_not_of(user_id: i32) -> spec_fn(Access) -> bool {
    |a: Access| a.user_id != user_id
}

/// Attachments owned by accounts other than `user_id`.
pub open spec fn attachment_not_of(user_id: i32) -> spec_fn(Attachment) -> bool {
    |a: Attachment| a.owner_id != user_id
}

fn accesses_without_user(v: &Vec<Access>, user_id: i32) -> (r: Vec<Access>)
    requires
        forall|i: int, j: int| 0 <= i < j < v@.len() ==> v@[i].id < v@[j].id,
    ensures
        forall|i: int, j: int| 0 <= i < j < r@.len() ==> r@[i].id < r@[j].id,
        r@ == v@.filter(access_not_of(user_id)),
{
    let mut out: Vec<Access> = Vec::new();
    let mut i: usize = 0;
    while i < v.len()
        invariant
            0 <= i <= v@.len(),
            forall|a: int, b: int| 0 <= a < b < v@.len() ==> v@[a].id < v@[b].id,
            forall|a: int, b: int| 0 <= a < b < out@.len() ==> out@[a].id < out@[b].id,
            forall|a: int, m: int| 0 <= a < out@.len() && i <= m < v@.len() ==> out@[a].id < v@[m].id,
            out@ == v@.subrange(0, i as int).filter(access_not_of(user_id)),
        decreases v@.len() - i,
    {
        proof {
            assert(v@.subrange(0, i + 1).drop_last() =~= v@.subrange(0, i as int));
        }
        if v[i].user_id != user_id {
            out.push(v[i].duplicate());
        }
        proof {
            reveal(Seq::filter);
            assert(v@.subrange(0, i + 1).last() == v@[i as int]);
        }
        i += 1;
    }
    proof {
        assert(v@.subrange(0, v@.len() as int) =~= v@);
    }
    out
}

fn attachments_without_owner(v: &Vec<Attachment>, user_id: i32) -> (r: Vec<Attachment>)
    requires
        forall|i: int, j: int| 0 <= i < j < v@.len() ==> v@[i].id < v@[j].id,
    ensures
        r@ == v@.filter(attachment_not_of(user_id)),
        forall|i: int, j: int| 0 <= i < j < r@.len() ==> r@[i].id < r@[j].id,
{
    let mut out: Vec<Attachment> = Vec::new();
    let mut i: usize = 0;
    while i < v.len()
        invariant
            0 <= i <= v@.len(),
            forall|a: int, b: int| 0 <= a < b < v@.len() ==> v@[a].id < v@[b].id,
            out@ == v@.subrange(0, i as int).filter(attachment_not_of(user_id)),
            forall|a: int, b: int| 0 <= a < b < out@.len() ==> out@[a].id < out@[b].id,
            forall|a: int, m: int| 0 <= a < out@.len() && i <= m < v@.len() ==> out@[a].id < v@[m].id,
        decreases v@.len() - i,
    {
        proof {
            assert(v@.subrange(0, i + 1).drop_last() =~= v@.subrange(0, i as int));
        }
        if v[i].owner_id != user_id {
            out.push(v[i].duplicate());
        }
        proof {
            reveal(Seq::filter);
            assert(v@.subrange(0, i + 1).last() == v@[i as int]);
        }
        i += 1;
    }
    proof {
        assert(v@.subrange(0, v@.len() as int) =~= v@);
    }
    out
}

/// Which error a registration fails with, if any: a taken e-mail or pid is a
/// `Conflict`, an unknown role `NotFound`, a full table `Internal`.
pub open spec fn register_error(s: Store, pid: Seq<char>, email: Seq<char>, role_id: i32) -> Option<
    ModelError,
> {
    if email_taken(s.users@, email) || pid_taken(s.users@, pid) {
        Some(ModelError::Conflict)
    } else if !has_role(s.roles@, role_id) {
        Some(ModelError::NotFound)
    } else if s.next_user_id == i32::MAX {
        Some(ModelError::Internal)
    } else {
        None
    }
}

impl Store {
    /// Registers an account; its e-mail is not verified yet and it holds
    /// `verification_token` for the welcome mail.
    pub fn register(
        &mut self,
        pid: String,
        email: String,
        name: String,
        password: Option<String>,
        role_id: i32,
        verification_token: String,
        now: i64,
    ) -> (r: Result<User, ModelError>)
        requires
            old(self).wf(),
        ensures
            final(self).wf(),
            match r {
                Ok(u) => {
                    &&& register_error(*old(self), pid@, email@, role_id) is None
                    &&& u == (User {
                        id: old(self).next_user_id,
                        pid: pid,
                        email: email,
                        name: name,
                        password: password,
                        email_verified_at: None,
                        email_verification_token: Some(verification_token),
                        reset_token: None,
                        magic_link_token: None,
                        role_id: role_id,
                        created_at: now,
                        updated_at: now,
                    })
                    &&& final(self).users@ == old(self).users@.push(u)
                    &&& *final(self) == (Store {
                        users: final(self).users,
                        next_user_id: (old(self).next_user_id + 1) as i32,
                        ..*old(self)
                    })
                },
                Err(e) => register_error(*old(self), pid@, email@, role_id) == Some(e)
                    && *final(self) == *old(self),
            },
    {
        if self.user_index_by_email(email.as_str()).is_some() || self.user_index_by_pid(
            pid.as_str(),
        ).is_some() {
            return Err(ModelError::Conflict);
        }
        if self.role_index(role_id).is_none() {
            return Err(ModelError::NotFound);
        }
        if self.next_user_id == i32::MAX {
            return Err(ModelError::Internal);
        }
        let user = User {
            id: self.next_user_id,
            pid,
            email,
            name,
            password,
            email_verified_at: None,
            email_verification_token: Some(verification_token),
            reset_token: None,
            magic_link_token: None,
            role_id,
            created_at: now,
            updated_at: now,
        };
        let out = user.duplicate();
        let ghost old_users = self.users@;
        self.users.push(user);
        self.next_user_id = self.next_user_id + 1;
        proof {
            assert forall|i: int, j: int|
                0 <= i < self.users@.len() && 0 <= j < self.users@.len() && i
                    != j implies self.users@[i].pid@ != self.users@[j].pid@ && self.users@[i].email@
                    != self.users@[j].email@ by {
                if i < old_users.len() {
                    assert(self.users@[i] == old_users[i]);
                }
                if j < old_users.len() {
                    assert(self.users@[j] == old_users[j]);
                }
            }
            assert forall|i: int, j: int| 0 <= i < j < self.users@.len() implies self.users@[i].id
                < self.users@[j].id by {
                assert(self.users@[i] == old_users[i]);
                if j < old_users.len() {
                    assert(self.users@[j] == old_users[j]);
                }
            }
            assert(user_ids_ok(self.users@, self.next_user_id));
            assert forall|k: int| 0 <= k < self.users@.len() implies has_role(
                self.roles@,
                (#[trigger] self.users@[k]).role_id,
            ) by {
                if k < old_users.len() {
                    assert(self.users@[k] == old_users[k]);
                }
            }
            assert forall|k: int| 0 <= k < self.accesses@.len() implies has_user(
                self.users@,
                (#[trigger] self.accesses@[k]).user_id,
            ) by {
                let j = choose|j: int| 0 <= j < old_users.len() && old_users[j].id == self.accesses@[k].user_id;
                assert(self.users@[j] == old_users[j]);
            }
            assert forall|k: int| 0 <= k < self.attachments@.len() implies has_user(
                self.users@,
                (#[trigger] self.attachments@[k]).owner_id,
            ) by {
                let j = choose|j: int|
                    0 <= j < old_users.len() && old_users[j].id == self.attachments@[k].owner_id;
                assert(self.users@[j] == old_users[j]);
            }
        }
        Ok(out)
    }

    /// The account with this pid.
    pub fn find_user_by_pid(&self, pid: &str) -> (r: Result<User, ModelError>)
        requires
            self.wf(),
        ensures
            match r {
                Ok(u) => pid_taken(self.users@, pid@) && u == user_of_pid(self.users@, pid@),
                Err(e) => e == ModelError::NotFound && !pid_taken(self.users@, pid@),
            },
    {
        match self.user_index_by_pid(pid) {
            Some(i) => {
                proof {
                    lemma_user_of_pid(self.users@, pid@, i as int);
                }
                Ok(self.users[i].duplicate())
            },
            None => Err(ModelError::NotFound),
        }
    }

    /// The account with this pid and its role.
    pub fn find_by_pid_with_role(&self, pid: &str) -> (r: Result<(User, Role), ModelError>)
        requires
            self.wf(),
        ensures
            match r {
                Ok((u, role)) => pid_taken(self.users@, pid@) && u == user_of_pid(self.users@, pid@)
                    && role.id == u.role_id && self.roles@.contains(role),
                Err(e) => e == ModelError::NotFound && !pid_taken(self.users@, pid@),
            },
    {
        let i = match self.user_index_by_pid(pid) {
            Some(i) => i,
            None => return Err(ModelError::NotFound),
        };
        proof {
            lemma_user_of_pid(self.users@, pid@, i as int);
            assert(has_role(self.roles@, self.users@[i as int].role_id));
        }
        let ri = match self.role_index(self.users[i].role_id) {
            Some(k) => k,
            None => return Err(ModelError::NotFound),
        };
        let role = self.roles[ri].duplicate();
        proof {
            assert(self.roles@[ri as int] == role);
        }
        Ok((self.users[i].duplicate(), role))
    }

    /// The account with this e-mail and its role.
    pub fn find_by_email_with_role(&self, email: &str) -> (r: Result<(User, Role), ModelError>)
        requires
            self.wf(),
        ensures
            match r {
                Ok((u, role)) => self.users@.contains(u) && u.email@ == email@ && role.id
                    == u.role_id && self.roles@.contains(role),
                Err(e) => e == ModelError::NotFound && !email_taken(self.users@, email@),
            },
    {
        let i = match self.user_index_by_email(email) {
            Some(i) => i,
            None => return Err(ModelError::NotFound),
        };
        proof {
            assert(has_role(self.roles@, self.users@[i as int].role_id));
        }
        let ri = match self.role_index(self.users[i].role_id) {
            Some(k) => k,
            None => return Err(ModelError::NotFound),
        };
        let u = self.users[i].duplicate();
        let role = self.roles[ri].duplicate();
        proof {
            assert(self.users@[i as int] == u);
            assert(self.roles@[ri as int] == role);
        }
        Ok((u, role))
    }

    /// Whether a verification e-mail may be sent again to this address: the
    /// account must exist and not be verified yet.
    pub fn resend_verification_check(&self, email: &str) -> (r: Result<User, ModelError>)
        requires
            self.wf(),
        ensures
            match r {
                Ok(u) => self.users@.contains(u) && u.email@ == email@ && u.email_verified_at is None,
                Err(e) => (e == ModelError::NotFound && !email_taken(self.users@, email@)) || (e
                    == ModelError::Conflict && exists|i: int|
                    0 <= i < self.users@.len() && self.users@[i].email@ == email@
                        && self.users@[i].email_verified_at is Some),
            },
    {
        let i = match self.user_index_by_email(email) {
            Some(i) => i,
            None => return Err(ModelError::NotFound),
        };
        if self.users[i].email_verified_at.is_some() {
            return Err(ModelError::Conflict);
        }
        let u = self.users[i].duplicate();
        proof {
            assert(self.users@[i as int] == u);
        }
        Ok(u)
    }
}

impl Store {
    /// Deletes the account together with its grants and the attachments it
    /// owns.
    pub fn delete_user(&mut self, pid: &str) -> (r: Result<(), ModelError>)
        requires
            old(self).wf(),
        ensures
            final(self).wf(),
            match r {
                Ok(_) => exists|i: int|
                    0 <= i < old(self).users@.len() && old(self).users@[i].pid@ == pid@
                        && final(self).users@ == old(self).users@.remove(i)
                        && final(self).accesses@ == old(self).accesses@.filter(
                        access_not_of(old(self).users@[i].id),
                    ) && final(self).attachments@ == old(self).attachments@.filter(
                        attachment_not_of(old(self).users@[i].id),
                    ) && *final(self) == (Store {
                        users: final(self).users,
                        accesses: final(self).accesses,
                        attachments: final(self).attachments,
                        ..*old(self)
                    }),
                Err(e) => e == ModelError::NotFound && !pid_taken(old(self).users@, pid@)
                    && *final(self) == *old(self),
            },
    {
        let ui = match self.user_index_by_pid(pid) {
            Some(i) => i,
            None => return Err(ModelError::NotFound),
        };
        let uid = self.users[ui].id;
        let ghost old_users = self.users@;
        let ghost old_accesses = self.accesses@;
        let ghost old_atts = self.attachments@;
        let accesses = accesses_without_user(&self.accesses, uid);
        let attachments = attachments_without_owner(&self.attachments, uid);
        self.accesses = accesses;
        self.attachments = attachments;
        self.users.remove(ui);
        proof {
            broadcast use vstd::seq_lib::group_filter_ensures;

            let n = self.users@;
            assert forall|k: int| 0 <= k < n.len() implies (#[trigger] n[k]) == old_users[if k
                < ui {
                k
            } else {
                k + 1
            }] by {}
            assert forall|j: int| 0 <= j < old_users.len() && j != ui implies n.contains(
                #[trigger] old_users[j],
            ) by {
                let k = if j < ui {
                    j
                } else {
                    j - 1
                };
                assert(n[k] == old_users[j]);
            }
            assert forall|a: int, b: int|
                0 <= a < n.len() && 0 <= b < n.len() && a != b implies n[a].pid@ != n[b].pid@
                && n[a].email@ != n[b].email@ by {
                let oa = if a < ui {
                    a
                } else {
                    a + 1
                };
                let ob = if b < ui {
                    b
                } else {
                    b + 1
                };
                assert(n[a] == old_users[oa]);
                assert(n[b] == old_users[ob]);
            }
            assert(users_unique(n));
            assert forall|a: int, b: int| 0 <= a < b < n.len() implies n[a].id < n[b].id by {
                let oa = if a < ui {
                    a
                } else {
                    a + 1
                };
                let ob = if b < ui {
                    b
                } else {
                    b + 1
                };
                assert(n[a] == old_users[oa]);
                assert(n[b] == old_users[ob]);
            }
            assert(user_ids_ok(n, self.next_user_id));
            assert forall|k: int| 0 <= k < self.accesses@.len() implies {
                &&& has_user(self.users@, (#[trigger] self.accesses@[k]).user_id)
                &&& has_task(self.tasks@, self.accesses@[k].task_id)
            } by {
                let a = self.accesses@[k];
                assert(old_accesses.filter(access_not_of(uid)).contains(a));
                old_accesses.lemma_filter_contains_rev(access_not_of(uid), a);
                let ka = choose|ka: int| 0 <= ka < old_accesses.len() && old_accesses[ka] == a;
                assert(access_not_of(uid)(a));
                assert(has_user(old_users, old_accesses[ka].user_id));
                let j = choose|j: int| 0 <= j < old_users.len() && old_users[j].id == a.user_id;
                assert(n.contains(old_users[j]));
            }
            assert forall|k: int| 0 <= k < self.attachments@.len() implies {
                &&& has_user(self.users@, (#[trigger] self.attachments@[k]).owner_id)
                &&& has_task(self.tasks@, self.attachments@[k].task_id)
            } by {
                let a = self.attachments@[k];
                assert(old_atts.filter(attachment_not_of(uid)).contains(a));
                old_atts.lemma_filter_contains_rev(attachment_not_of(uid), a);
                let ka = choose|ka: int| 0 <= ka < old_atts.len() && old_atts[ka] == a;
                assert(attachment_not_of(uid)(a));
                assert(has_user(old_users, old_atts[ka].owner_id));
                let j = choose|j: int| 0 <= j < old_users.len() && old_users[j].id == a.owner_id;
                assert(n.contains(old_users[j]));
            }
            assert forall|k: int| 0 <= k < self.accesses@.len() implies 1
                <= #[trigger] self.accesses@[k].id < self.next_access_id by {
                assert(old_accesses.filter(access_not_of(uid)).contains(self.accesses@[k]));
                old_accesses.lemma_filter_contains_rev(access_not_of(uid), self.accesses@[k]);
            }
            assert forall|k: int| 0 <= k < self.attachments@.len() implies 1
                <= #[trigger] self.attachments@[k].id < self.next_attachment_id by {
                assert(old_atts.filter(attachment_not_of(uid)).contains(self.attachments@[k]));
                old_atts.lemma_filter_contains_rev(attachment_not_of(uid), self.attachments@[k]);
            }
            assert forall|k: int| 0 <= k < n.len() implies has_role(
                self.roles@,
                (#[trigger] n[k]).role_id,
            ) by {
                assert(n.contains(n[k]));
            }
        }
        Ok(())
    }
}

/// The one-time tokens an account can hold.
#[derive(Clone, Copy, Debug, PartialEq, Eq, Structural)]
pub enum TokenKind {
    EmailVerification,
    PasswordReset,
    MagicLink,
}

/// The token of this kind that the account holds.
pub open spec fn token_of(u: User, kind: TokenKind) -> Option<String> {
    match kind {
        TokenKind::EmailVerification => u.email_verification_token,
        TokenKind::PasswordReset => u.reset_token,
        TokenKind::MagicLink => u.magic_link_token,
    }
}

/// The account holds `token` as its token of this kind.
pub open spec fn holds_token(u: User, kind: TokenKind, token: Seq<char>) -> bool {
    match token_of(u, kind) {
        Some(t) => t@ == token,
        None => false,
    }
}

/// `i` is the first account holding `token` as its token of this kind.
pub open spec fn first_holder(users: Seq<User>, kind: TokenKind, token: Seq<char>, i: int) -> bool {
    &&& 0 <= i < users.len()
    &&& holds_token(users[i], kind, token)
    &&& forall|j: int| 0 <= j < i ==> !holds_token(#[trigger] users[j], kind, token)
}

/// The account with the token of this kind replaced.
pub open spec fn with_token(u: User, kind: TokenKind, token: Option<String>, now: i64) -> User {
    match kind {
        TokenKind::EmailVerification => User {
            email_verification_token: token,
            updated_at: now,
            ..u
        },
        TokenKind::PasswordReset => User { reset_token: token, updated_at: now, ..u },
        TokenKind::MagicLink => User { magic_link_token: token, updated_at: now, ..u },
    }
}

fn set_token(u: &mut User, kind: TokenKind, token: Option<String>, now: i64)
    ensures
        *final(u) == with_token(*old(u), kind, token, now),
{
    match kind {
        TokenKind::EmailVerification => {
            u.email_verification_token = token;
        },
        TokenKind::PasswordReset => {
            u.reset_token = token;
        },
        TokenKind::MagicLink => {
            u.magic_link_token = token;
        },
    }
    u.updated_at = now;
}

impl Store {
    /// Puts `u` in place of the account at `i`; it keeps its id, pid, e-mail
    /// and role.
    fn replace_user(&mut self, i: usize, u: User)
        requires
            old(self).wf(),
            i < old(self).users@.len(),
            u.id == old(self).users@[i as int].id,
            u.pid@ == old(self).users@[i as int].pid@,
            u.email@ == old(self).users@[i as int].email@,
            u.role_id == old(self).users@[i as int].role_id,
        ensures
            final(self).wf(),
            final(self).users@ == old(self).users@.update(i as int, u),
            *final(self) == (Store { users: final(self).users, ..*old(self) }),
    {
        let ghost old_users = self.users@;
        self.users.set(i, u);
        proof {
            let n = self.users@;
            assert forall|a: int, b: int|
                0 <= a < n.len() && 0 <= b < n.len() && a != b implies n[a].pid@ != n[b].pid@
                && n[a].email@ != n[b].email@ by {
                assert(n[a].pid@ == old_users[a].pid@ && n[a].email@ == old_users[a].email@);
                assert(n[b].pid@ == old_users[b].pid@ && n[b].email@ == old_users[b].email@);
            }
            assert forall|a: int, b: int| 0 <= a < b < n.len() implies n[a].id < n[b].id by {
                assert(n[a].id == old_users[a].id);
                assert(n[b].id == old_users[b].id);
            }
            assert(user_ids_ok(n, self.next_user_id));
            assert forall|k: int| 0 <= k < n.len() implies has_role(self.roles@, (#[trigger] n[k]).role_id) by {
                assert(n[k].role_id == old_users[k].role_id);
            }
            assert forall|k: int| 0 <= k < self.accesses@.len() implies has_user(
                n,
                (#[trigger] self.accesses@[k]).user_id,
            ) by {
                let j = choose|j: int| 0 <= j < old_users.len() && old_users[j].id == self.accesses@[k].user_id;
                assert(n[j].id == old_users[j].id);
            }
            assert forall|k: int| 0 <= k < self.attachments@.len() implies has_user(
                n,
                (#[trigger] self.attachments@[k]).owner_id,
            ) by {
                let j = choose|j: int|
                    0 <= j < old_users.len() && old_users[j].id == self.attachments@[k].owner_id;
                assert(n[j].id == old_users[j].id);
            }
        }
    }

    /// Position of the first account that holds this token.
    fn token_holder(&self, kind: TokenKind, token: &str) -> (r: Option<usize>)
        ensures
            match r {
                Some(i) => first_holder(self.users@, kind, token@, i as int),
                None => forall|j: int|
                    0 <= j < self.users@.len() ==> !holds_token(#[trigger] self.users@[j], kind, token@),
            },
    {
        let mut i: usize = 0;
        while i < self.users.len()
            invariant
                0 <= i <= self.users@.len(),
                forall|j: int| 0 <= j < i ==> !holds_token(#[trigger] self.users@[j], kind, token@),
            decreases self.users@.len() - i,
        {
            let u = &self.users[i];
            let held = match kind {
                TokenKind::EmailVerification => &u.email_verification_token,
                TokenKind::PasswordReset => &u.reset_token,
                TokenKind::MagicLink => &u.magic_link_token,
            };
            let found = match held {
                Some(t) => crate::store::str_eq(t.as_str(), token),
                None => false,
            };
            if found {
                return Some(i);
            }
            i += 1;
        }
        None
    }

    /// Gives the account with this e-mail a fresh token of the given kind.
    pub fn issue_token(&mut self, email: &str, kind: TokenKind, token: String, now: i64) -> (r: Result<
        User,
        ModelError,
    >)
        requires
            old(self).wf(),
        ensures
            final(self).wf(),
            match r {
                Ok(u) => exists|i: int|
                    0 <= i < old(self).users@.len() && old(self).users@[i].email@ == email@ && u
                        == with_token(old(self).users@[i], kind, Some(token), now)
                        && final(self).users@ == old(self).users@.update(i, u)
                        && *final(self) == (Store { users: final(self).users, ..*old(self) }),
                Err(e) => e == ModelError::NotFound && !email_taken(old(self).users@, email@)
                    && *final(self) == *old(self),
            },
    {
        let i = match self.user_index_by_email(email) {
            Some(i) => i,
            None => return Err(ModelError::NotFound),
        };
        let mut u = self.users[i].duplicate();
        set_token(&mut u, kind, Some(token), now);
        let out = u.duplicate();
        self.replace_user(i, u);
        Ok(out)
    }

    /// Marks the e-mail of the account holding this verification token as
    /// verified at `now`; an account verified before keeps its time.
    pub fn verify_email(&mut self, token: &str, now: i64) -> (r: Result<User, ModelError>)
        requires
            old(self).wf(),
        ensures
            final(self).wf(),
            match r {
                Ok(u) => exists|i: int|
                    first_holder(old(self).users@, TokenKind::EmailVerification, token@, i) && u == (
                    User {
                        email_verified_at: match old(self).users@[i].email_verified_at {
                            Some(t) => Some(t),
                            None => Some(now),
                        },
                        ..old(self).users@[i]
                    }) && final(self).users@ == old(self).users@.update(i, u)
                        && *final(self) == (Store { users: final(self).users, ..*old(self) }),
                Err(e) => e == ModelError::NotFound && *final(self) == *old(self) && forall|j: int|
                    0 <= j < old(self).users@.len() ==> !holds_token(
                        #[trigger] old(self).users@[j],
                        TokenKind::EmailVerification,
                        token@,
                    ),
            },
    {
        let i = match self.token_holder(TokenKind::EmailVerification, token) {
            Some(i) => i,
            None => return Err(ModelError::NotFound),
        };
        let mut u = self.users[i].duplicate();
        if u.email_verified_at.is_none() {
            u.email_verified_at = Some(now);
        }
        let out = u.duplicate();
        self.replace_user(i, u);
        Ok(out)
    }

    /// Sets a new password hash for the account holding this reset token and
    /// clears the token.
    pub fn reset_password(&mut self, token: &str, password: String, now: i64) -> (r: Result<
        User,
        ModelError,
    >)
        requires
            old(self).wf(),
        ensures
            final(self).wf(),
            match r {
                Ok(u) => exists|i: int|
                    first_holder(old(self).users@, TokenKind::PasswordReset, token@, i) && u == (
                    User {
                        password: Some(password),
                        reset_token: None,
                        updated_at: now,
                        ..old(self).users@[i]
                    }) && final(self).users@ == old(self).users@.update(i, u)
                        && *final(self) == (Store { users: final(self).users, ..*old(self) }),
                Err(e) => e == ModelError::NotFound && *final(self) == *old(self) && forall|j: int|
                    0 <= j < old(self).users@.len() ==> !holds_token(
                        #[trigger] old(self).users@[j],
                        TokenKind::PasswordReset,
                        token@,
                    ),
            },
    {
        let i = match self.token_holder(TokenKind::PasswordReset, token) {
            Some(i) => i,
            None => return Err(ModelError::NotFound),
        };
        let mut u = self.users[i].duplicate();
        u.password = Some(password);
        set_token(&mut u, TokenKind::PasswordReset, None, now);
        let out = u.duplicate();
        self.replace_user(i, u);
        Ok(out)
    }

    /// Signs in by magic link: the account holding the token gets it cleared.
    pub fn consume_magic_link(&mut self, token: &str, now: i64) -> (r: Result<User, ModelError>)
        requires
            old(self).wf(),
        ensures
            final(self).wf(),
            match r {
                Ok(u) => exists|i: int|
                    first_holder(old(self).users@, TokenKind::MagicLink, token@, i) && u
                        == with_token(old(self).users@[i], TokenKind::MagicLink, None, now)
                        && final(self).users@ == old(self).users@.update(i, u)
                        && *final(self) == (Store { users: final(self).users, ..*old(self) }),
                Err(e) => e == ModelError::NotFound && *final(self) == *old(self) && forall|j: int|
                    0 <= j < old(self).users@.len() ==> !holds_token(
                        #[trigger] old(self).users@[j],
                        TokenKind::MagicLink,
                        token@,
                    ),
            },
    {
        let i = match self.token_holder(TokenKind::MagicLink, token) {
            Some(i) => i,
            None => return Err(ModelError::NotFound),
        };
        let mut u = self.users[i].duplicate();
        set_token(&mut u, TokenKind::MagicLink, None, now);
        let out = u.duplicate();
        self.replace_user(i, u);
        Ok(out)
    }
}

} // verus!

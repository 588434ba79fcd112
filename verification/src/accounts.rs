//! Accounts: registration and login. Password hashing and verification are
//! done by the argon2 collaborator behind trusted wrappers; the uniqueness
//! of account emails and the shape of what is stored are verified here.

use vstd::prelude::*;

use crate::ServiceError;
use crate::auth::{create_jwt, jwt_payload};
use crate::store::Store;
use crate::text::str_eq;
use crate::types::User;

verus! {

/// Whether a password matches a PHC hash string, as the argon2 verifier
/// decides it — a function of the password and the hash alone. What it is
/// on given values is deliberately unstated; only the trusted items below
/// speak of it.
pub uninterp spec fn argon2_matches(password: Seq<u8>, hash: Seq<char>) -> bool;

/// Relies on argon2::Argon2::hash_password: it hashes the password under a
/// freshly drawn random salt into a PHC string. The salt makes the string
/// itself unpredictable; what holds of every outcome is that verifying the
/// produced string against the same password succeeds.
#[verifier::external_body]
fn hash_password(password: &[u8]) -> (r: Result<String, ServiceError>)
    ensures
        r is Ok ==> argon2_matches(password@, (r->Ok_0)@),
        r is Err ==> r->Err_0 == ServiceError::Internal,
{
    argon2::PasswordHasher::hash_password(&argon2::Argon2::default(), password)
        .map(|h| h.to_string())
        .map_err(|_| ServiceError::Internal)
}

/// Relies on argon2::Argon2::verify_password: it recomputes the hash using
/// the salt and parameters the PHC string carries and compares.
#[verifier::external_body]
fn password_matches(password: &[u8], hash: &str) -> (r: bool)
    ensures
        r == argon2_matches(password@, hash@),
{
    argon2::PasswordVerifier::verify_password(&argon2::Argon2::default(), password, hash).is_ok()
}

/// Some account uses this email.
pub open spec fn has_user_email(s: Seq<User>, email: Seq<char>) -> bool {
    exists|i: int| 0 <= i < s.len() && (#[trigger] s[i]).email@ == email
}

/// Everything but the account table and the identifier counter is as it
/// was.
pub open spec fn user_frame(pre: Store, post: Store) -> bool {
    &&& post.invoices == pre.invoices
    &&& post.items == pre.items
    &&& post.estimates == pre.estimates
    &&& post.recurring == pre.recurring
    &&& post.clients == pre.clients
    &&& post.products == pre.products
    &&& post.companies == pre.companies
}

impl Store {
    /// The caller's account looked up by email.
    pub fn find_user(&self, email: &str) -> (r: Option<User>)
        ensures
            r matches Some(u) ==> exists|i: int|
                0 <= i < self.users@.len() && u == (#[trigger] self.users@[i]) && u.email@
                    == email@,
            r is None <==> !has_user_email(self.users@, email@),
    {
        let n = self.users.len();
        let mut k: usize = 0;
        while k < n
            invariant
                k <= n,
                n == self.users@.len(),
                forall|i: int| 0 <= i < k ==> (#[trigger] self.users@[i]).email@ != email@,
            decreases n - k,
        {
            if str_eq(self.users[k].email.as_str(), email) {
                return Some(self.users[k].clone());
            }
            k = k + 1;
        }
        None
    }

    /// Stores a new account. A duplicate email is a conflict; otherwise the
    /// account is stored with the next free identifier, failing only when
    /// the store cannot assign one.
    pub fn add_user(&mut self, email: String, password_hash: String) -> (r: Result<
        User,
        ServiceError,
    >)
        requires
            old(self).wf(),
        ensures
            final(self).wf(),
            r == Err::<User, ServiceError>(ServiceError::Conflict) <==> has_user_email(
                old(self).users@,
                email@,
            ),
            r is Ok <==> !has_user_email(old(self).users@, email@) && old(self).next_id
                < i32::MAX,
            r matches Ok(u) ==> u.id == old(self).next_id && u.email == email && u.password_hash
                == password_hash && final(self).users@ == old(self).users@.push(u)
                && final(self).next_id == old(self).next_id + 1
                && user_frame(*old(self), *final(self)),
            r is Err ==> *final(self) == *old(self) && (r == Err::<User, ServiceError>(
                ServiceError::Conflict,
            ) || r == Err::<User, ServiceError>(ServiceError::Internal)),
    {
        match self.find_user(email.as_str()) {
            Some(_) => {
                return Err(ServiceError::Conflict);
            },
            None => {},
        }
        if self.next_id >= i32::MAX {
            return Err(ServiceError::Internal);
        }
        let id = self.next_id;
        let row = User { id, email, password_hash };
        let ret = row.clone();
        self.users.push(row);
        self.next_id = id + 1;
        proof {
            let pre = *old(self);
            let post = *self;
            assert forall|i: int| 0 <= i < post.users@.len() implies 1 <= (
            #[trigger] post.users@[i]).id < post.next_id as int by {
                if i < pre.users@.len() {
                    assert(post.users@[i] == pre.users@[i]);
                }
            }
            assert forall|i: int, j: int| #![trigger post.users@[i].id, post.users@[j].id]
                0 <= i < j < post.users@.len() implies post.users@[i].id != post.users@[j].id by {
                if j < pre.users@.len() {
                    assert(pre.users@[i].id != pre.users@[j].id);
                } else {
                    assert(post.users@[i] == pre.users@[i]);
                }
            }
            assert forall|i: int, j: int| #![trigger post.users@[i].email, post.users@[j].email]
                0 <= i < j < post.users@.len() implies post.users@[i].email@
                != post.users@[j].email@ by {
                if j < pre.users@.len() {
                    assert(pre.users@[i].email@ != pre.users@[j].email@);
                } else {
                    assert(post.users@[i] == pre.users@[i]);
                }
            }
        }
        Ok(ret)
    }
}

/// Registers an account: the password is hashed by the argon2 collaborator,
/// a token is issued for the new identity, and the account is stored.
/// A duplicate email is rejected as a conflict, exactly; every failure
/// leaves the store unchanged.
pub fn register(store: &mut Store, email: String, password: &[u8], secret: &str) -> (r: Result<
    (String, User),
    ServiceError,
>)
    requires
        old(store).wf(),
    ensures
        final(store).wf(),
        r == Err::<(String, User), ServiceError>(ServiceError::Conflict) <==> has_user_email(
            old(store).users@,
            email@,
        ),
        r is Err ==> *final(store) == *old(store) && (r == Err::<(String, User), ServiceError>(
            ServiceError::Conflict,
        ) || r == Err::<(String, User), ServiceError>(ServiceError::Internal)),
        r matches Ok((t, u)) ==> !has_user_email(old(store).users@, email@)
            && u.id == old(store).next_id && u.email == email
            && argon2_matches(password@, u.password_hash@)
            && final(store).users@ == old(store).users@.push(u)
            && user_frame(*old(store), *final(store))
            && (jwt_payload(t@, secret@) matches Some(p) && p.0 == u.id as int),
{
    match store.find_user(email.as_str()) {
        Some(_) => {
            return Err(ServiceError::Conflict);
        },
        None => {},
    }
    let hash = hash_password(password)?;
    let id_if_free = store.next_id;
    let token = create_jwt(id_if_free, secret)?;
    let user = store.add_user(email, hash)?;
    Ok((token, user))
}

/// Logs an account in: an unknown email or a password the stored hash does
/// not match is `Unauthenticated` (the two are indistinguishable). A
/// matching credential is never rejected: it yields a token for the
/// account's identity, or `Internal` if the token collaborator fails.
pub fn login(store: &Store, email: &str, password: &[u8], secret: &str) -> (r: Result<
    (String, User),
    ServiceError,
>)
    requires
        store.wf(),
    ensures
        (exists|i: int|
            0 <= i < store.users@.len() && (#[trigger] store.users@[i]).email@ == email@
                && argon2_matches(password@, store.users@[i].password_hash@)) ==> !(r == Err::<
            (String, User),
            ServiceError,
        >(ServiceError::Unauthenticated)),
        !has_user_email(store.users@, email@) ==> r == Err::<(String, User), ServiceError>(
            ServiceError::Unauthenticated,
        ),
        r matches Ok((t, u)) ==> (exists|i: int|
            0 <= i < store.users@.len() && u == (#[trigger] store.users@[i]) && u.email@ == email@)
            && argon2_matches(password@, u.password_hash@) && (jwt_payload(t@, secret@) matches Some(
            p,
        ) && p.0 == u.id as int),
        r is Err ==> r == Err::<(String, User), ServiceError>(ServiceError::Unauthenticated) || r
            == Err::<(String, User), ServiceError>(ServiceError::Internal),
        r == Err::<(String, User), ServiceError>(ServiceError::Internal) ==> exists|i: int|
            0 <= i < store.users@.len() && (#[trigger] store.users@[i]).email@ == email@
                && argon2_matches(password@, store.users@[i].password_hash@),
{
    let user = match store.find_user(email) {
        None => {
            return Err(ServiceError::Unauthenticated);
        },
        Some(u) => u,
    };
    if !password_matches(password, user.password_hash.as_str()) {
        proof {
            // the account emails are unique, so the row the lookup found is
            // the only one carrying this email: no other row could match
            if exists|i: int|
                0 <= i < store.users@.len() && (#[trigger] store.users@[i]).email@ == email@
                    && argon2_matches(password@, store.users@[i].password_hash@) {
                let i = choose|i: int|
                    0 <= i < store.users@.len() && (#[trigger] store.users@[i]).email@ == email@
                        && argon2_matches(password@, store.users@[i].password_hash@);
                let j = choose|j: int|
                    0 <= j < store.users@.len() && user == (#[trigger] store.users@[j])
                        && user.email@ == email@;
                if i != j {
                    assert(store.users@[i].email@ != store.users@[j].email@);
                }
                assert(false);
            }
        }
        return Err(ServiceError::Unauthenticated);
    }
    let token = match create_jwt(user.id, secret) {
        Ok(t) => t,
        Err(_) => {
            return Err(ServiceError::Internal);
        },
    };
    Ok((token, user))
}

} // verus!

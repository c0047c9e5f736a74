//! Passwords and the tokens that stand for a visitor.

use vstd::prelude::*;
use crate::db::sessions::{get_session_user_at, session_user};
use crate::db::Db;
use crate::host::{current_timestamp, fresh_id};
use crate::models::{Timestamp, User};

verus! {

/// The cookie that carries the session token.
pub const SESSION_COOKIE: &'static str = "forge_session";

/// The cookie that carries the cart token.
pub const CART_COOKIE: &'static str = "forge_cart";

/// Whether Argon2 accepts a password for a stored hash: whether the hash is
/// a well-formed PHC string and hashing the password with the salt and the
/// parameters that it names gives the output that it holds.
pub uninterp spec fn password_verifies(password: Seq<char>, hash: Seq<char>) -> bool;

/// A salted Argon2 hash of a password, as a PHC string:
/// `argon2::PasswordHasher::hash_password` of `Argon2::default()`, with a
/// salt from `SaltString::generate` over the system's random source.
///
/// The salt is random, so the text differs from call to call and is not
/// named. What is claimed is that the password verifies against it. `None`
/// stands for the hasher's own error. The call stops the program where the
/// system's random source fails.
#[verifier::external_body]
pub fn hash_password(password: &str) -> (hash: Option<String>)
    ensures
        hash matches Some(text) ==> password_verifies(password@, text@),
{
    let salt = argon2::password_hash::SaltString::generate(&mut rand::rngs::OsRng);
    let hasher = argon2::Argon2::default();
    match argon2::PasswordHasher::hash_password(&hasher, password.as_bytes(), &salt) {
        Ok(hash) => Some(hash.to_string()),
        Err(_) => None,
    }
}

/// Whether a password verifies against a stored hash: `PasswordHash::new`,
/// then `argon2::PasswordVerifier::verify_password` of `Argon2::default()`.
/// A text that is no PHC string verifies nothing. The work, and the memory
/// taken, are those that the stored hash names.
#[verifier::external_body]
pub fn verify_password(password: &str, hash: &str) -> (ok: bool)
    ensures
        ok == password_verifies(password@, hash@),
{
    match argon2::PasswordHash::new(hash) {
        Ok(parsed) => {
            let hasher = argon2::Argon2::default();
            argon2::PasswordVerifier::verify_password(&hasher, password.as_bytes(), &parsed).is_ok()
        },
        Err(_) => false,
    }
}

/// The user behind a request at the given time: the one that the session
/// cookie's token stands for, if the request carries one that is still good.
pub open spec fn current_user(db: Db, now: Timestamp, session_cookie: Option<&str>) -> Option<
    User,
> {
    match session_cookie {
        Some(token) => session_user(db, now, token@),
        None => None,
    }
}

/// The user behind a request at the given time, if any.
pub fn get_current_user_at(db: &Db, now: Timestamp, session_cookie: Option<&str>) -> (user: Option<
    User,
>)
    requires
        db.wf(),
    ensures
        user == current_user(*db, now, session_cookie),
{
    match session_cookie {
        Some(token) => get_session_user_at(db, now, token),
        None => None,
    }
}

/// The user behind a request now, if any.
pub fn get_current_user(db: &Db, session_cookie: Option<&str>) -> (user: Option<User>)
    requires
        db.wf(),
    ensures
        exists|now: Timestamp| user == current_user(*db, now, session_cookie),
{
    let now = current_timestamp();
    let user = get_current_user_at(db, now, session_cookie);
    assert(user == current_user(*db, now, session_cookie));
    user
}

/// The cart token of a visitor: the one that the cart cookie carries, or a
/// new one where it carries none. The flag tells that the token is new and
/// the cookie has to be set.
pub fn ensure_cart_token(cart_cookie: Option<String>) -> (token: (String, bool))
    ensures
        token.1 == (cart_cookie is None),
        cart_cookie matches Some(carried) ==> token.0 == carried,
{
    match cart_cookie {
        Some(carried) => (carried, false),
        None => (fresh_id(), true),
    }
}

} // verus!

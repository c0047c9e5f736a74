//! Logging in, registering, and the profile page.

use vstd::prelude::*;
use vstd::string::StringSliceAdditionalSpecFns;
use crate::auth::{hash_password, password_verifies, verify_password};
use crate::db::listings::{get_user_listings, is_selection, owned_by, ListingOrder};
use crate::db::reads::{get_unread_count, unread_total};
use crate::db::sessions::{insert_session, session_started};
use crate::db::users::{
    get_user_by_email, get_user_by_id, insert_user, profile_updated, update_user_profile,
    user_by_email, user_written,
};
use crate::db::{has_email, has_session, has_user, user_by_id, Db, DbError};
use crate::host::{current_timestamp, fresh_id};
use crate::models::{Listing, LoginForm, ProfileForm, RegisterForm, Timestamp, User};

verus! {

/// The answer to a login.
#[derive(Debug, PartialEq, Eq)]
pub enum LoginReply {
    /// The email address is unknown or the password is wrong; the answer
    /// does not tell which.
    Invalid,
    /// Logged in: the session token to hand to the visitor.
    LoggedIn(String),
    /// The store refused the write.
    Failed(DbError),
}

/// The form names a registered email address and the password that
/// verifies against that user's stored hash.
pub open spec fn credentials_hold(db: Db, form: LoginForm) -> bool {
    has_email(db.users@, form.email@) && password_verifies(
        form.password@,
        user_by_email(db.users@, form.email@).password_hash@,
    )
}

/// What a login does, given the token and the time that a session would
/// get: where the credentials hold, a session for the user is started under
/// the token, which is handed back; otherwise nothing changes.
pub open spec fn logged_in(
    before: Db,
    after: Db,
    token: Seq<char>,
    now: Timestamp,
    form: LoginForm,
    reply: LoginReply,
) -> bool {
    if !credentials_hold(before, form) {
        after == before && reply is Invalid
    } else {
        let user_id = user_by_email(before.users@, form.email@).id@;
        match reply {
            LoginReply::LoggedIn(given) => given@ == token && session_started(
                before,
                after,
                token,
                now,
                user_id,
                Ok(()),
            ),
            LoginReply::Failed(e) => session_started(before, after, token, now, user_id, Err(e)),
            LoginReply::Invalid => false,
        }
    }
}

/// Logs a visitor in under the given session token at the given time.
pub fn login_at(db: &mut Db, token: String, now: Timestamp, form: &LoginForm) -> (reply: LoginReply)
    requires
        old(db).wf(),
    ensures
        final(db).wf(),
        logged_in(*old(db), *final(db), token@, now, *form, reply),
{
    let user = match get_user_by_email(db, form.email.as_str()) {
        Some(user) => user,
        None => {
            return LoginReply::Invalid;
        },
    };
    if !verify_password(form.password.as_str(), user.password_hash.as_str()) {
        return LoginReply::Invalid;
    }
    let given = token.clone();
    match insert_session(db, token, now, user.id.as_str()) {
        Ok(()) => LoginReply::LoggedIn(given),
        Err(e) => LoginReply::Failed(e),
    }
}

/// Logs a visitor in under a new session token.
pub fn login(db: &mut Db, form: &LoginForm) -> (reply: LoginReply)
    requires
        old(db).wf(),
    ensures
        final(db).wf(),
        exists|token: Seq<char>, now: Timestamp|
            logged_in(*old(db), *final(db), token, now, *form, reply),
{
    let token = fresh_id();
    let now = current_timestamp();
    let ghost drawn = token@;
    let reply = login_at(db, token, now, form);
    assert(logged_in(*old(db), *db, drawn, now, *form, reply));
    reply
}

/// The answer to a registration.
#[derive(Debug, PartialEq, Eq)]
pub enum RegisterReply {
    /// The password and its confirmation differ.
    PasswordsDiffer,
    /// The password has fewer than eight bytes.
    PasswordTooShort,
    /// The password could not be hashed.
    HashFailed,
    /// The store refused the write; `DuplicateEmail` where the email address
    /// is registered already.
    Failed(DbError),
    /// Registered and logged in: the new user's identifier and the session
    /// token to hand to the visitor.
    Registered { user_id: String, session: String },
}

/// The shortest password that is accepted, in bytes.
pub const MIN_PASSWORD_BYTES: usize = 8;

/// How many bytes a text takes in UTF-8, as far as the machine can count.
pub open spec fn byte_length(text: Seq<char>) -> usize {
    vstd::utf8::encode_utf8(text).len() as usize
}

/// What is wrong with the passwords of a registration form, if anything.
pub open spec fn password_problem(form: RegisterForm) -> Option<RegisterReply> {
    if form.password@ != form.password_confirm@ {
        Some(RegisterReply::PasswordsDiffer)
    } else if byte_length(form.password@) < MIN_PASSWORD_BYTES {
        Some(RegisterReply::PasswordTooShort)
    } else {
        None
    }
}

/// What is wrong with the passwords of a registration form, if anything.
pub fn check_passwords(form: &RegisterForm) -> (problem: Option<RegisterReply>)
    ensures
        problem == password_problem(*form),
{
    if !(form.password == form.password_confirm) {
        Some(RegisterReply::PasswordsDiffer)
    } else if form.password.as_str().len() < MIN_PASSWORD_BYTES {
        Some(RegisterReply::PasswordTooShort)
    } else {
        None
    }
}

/// A user was registered and logged in: the user was written with the hash
/// as the stored password, and a session for the user was started.
pub open spec fn signed_up(
    before: Db,
    after: Db,
    user_id: Seq<char>,
    session: Seq<char>,
    now: Timestamp,
    hash: Seq<char>,
    form: RegisterForm,
) -> bool {
    exists|between: Db| #[trigger]
        user_written(before, between, user_id, now, form.name@, form.email@, hash, Ok(()))
            && session_started(between, after, session, now, user_id, Ok(()))
}

/// What a registration does, given the identifier, the session token, the
/// time and the password hash that the new user would get.
///
/// Passwords that differ or are too short are refused, and so is a
/// registration whose password could not be hashed, an email address that is
/// registered already, and an identifier or a token that is taken. In each
/// of these cases nothing changes.
pub open spec fn registration_made(
    before: Db,
    after: Db,
    user_id: Seq<char>,
    session: Seq<char>,
    now: Timestamp,
    hash: Option<String>,
    form: RegisterForm,
    reply: RegisterReply,
) -> bool {
    if password_problem(form) is Some {
        after == before && reply == password_problem(form)->Some_0
    } else if hash is None {
        after == before && reply is HashFailed
    } else if has_email(before.users@, form.email@) {
        after == before && reply == RegisterReply::Failed(DbError::DuplicateEmail)
    } else if has_user(before.users@, user_id) || has_session(before.sessions@, session) {
        after == before && reply == RegisterReply::Failed(DbError::DuplicateId)
    } else {
        &&& reply matches RegisterReply::Registered { user_id: given_id, session: given_session }
        &&& given_id@ == user_id
        &&& given_session@ == session
        &&& signed_up(before, after, user_id, session, now, hash->Some_0@, form)
    }
}

/// Registers a visitor and logs them in, under the given identifier and
/// session token, at the given time, with the given hash of the password.
pub fn register_at(
    db: &mut Db,
    user_id: String,
    session: String,
    now: Timestamp,
    hash: Option<String>,
    form: &RegisterForm,
) -> (reply: RegisterReply)
    requires
        old(db).wf(),
    ensures
        final(db).wf(),
        registration_made(*old(db), *final(db), user_id@, session@, now, hash, *form, reply),
{
    match check_passwords(form) {
        Some(problem) => {
            return problem;
        },
        None => {},
    }
    let hash = match hash {
        Some(hash) => hash,
        None => {
            return RegisterReply::HashFailed;
        },
    };
    if db.find_email(form.email.as_str()).is_some() {
        return RegisterReply::Failed(DbError::DuplicateEmail);
    }
    if db.find_user(user_id.as_str()).is_some() || db.find_session(session.as_str()).is_some() {
        return RegisterReply::Failed(DbError::DuplicateId);
    }
    let given_id = user_id.clone();
    let given_session = session.clone();
    let written = insert_user(
        db,
        user_id,
        now,
        form.name.as_str(),
        form.email.as_str(),
        hash.as_str(),
    );
    assert(written == Ok::<(), DbError>(()));
    let ghost between = *db;
    proof {
        assert(db.users@.last().id@ == given_id@);
        assert(has_user(db.users@, given_id@));
    }
    let started = insert_session(db, session, now, given_id.as_str());
    assert(started == Ok::<(), DbError>(()));
    assert(user_written(
        *old(db),
        between,
        given_id@,
        now,
        form.name@,
        form.email@,
        hash@,
        Ok(()),
    ) && session_started(between, *db, given_session@, now, given_id@, Ok(())));
    RegisterReply::Registered { user_id: given_id, session: given_session }
}

/// Registers a visitor and logs them in. The password is hashed only where
/// the form's passwords are in order.
pub fn register(db: &mut Db, form: &RegisterForm) -> (reply: RegisterReply)
    requires
        old(db).wf(),
    ensures
        final(db).wf(),
        exists|user_id: Seq<char>, session: Seq<char>, now: Timestamp, hash: Option<String>|
            #[trigger] registration_made(
                *old(db),
                *final(db),
                user_id,
                session,
                now,
                hash,
                *form,
                reply,
            ) && (hash matches Some(text) ==> password_verifies(form.password@, text@)),
{
    let user_id = fresh_id();
    let session = fresh_id();
    let now = current_timestamp();
    let ghost first = user_id@;
    let ghost second = session@;
    let hash = match check_passwords(form) {
        Some(_) => None,
        None => hash_password(form.password.as_str()),
    };
    let reply = register_at(db, user_id, session, now, hash, form);
    assert(registration_made(*old(db), *db, first, second, now, hash, *form, reply) && (
    hash matches Some(text) ==> password_verifies(form.password@, text@)));
    reply
}

/// Whoever has registered with a password whose hash verifies it can log in
/// with the same email address and password.
pub proof fn lemma_registered_can_log_in(
    before: Db,
    after: Db,
    user_id: Seq<char>,
    session: Seq<char>,
    now: Timestamp,
    hash: Option<String>,
    form: RegisterForm,
    reply: RegisterReply,
    login: LoginForm,
)
    requires
        before.wf(),
        after.wf(),
        registration_made(before, after, user_id, session, now, hash, form, reply),
        reply is Registered,
        hash matches Some(text) ==> password_verifies(form.password@, text@),
        login.email@ == form.email@,
        login.password@ == form.password@,
    ensures
        credentials_hold(after, login),
{
    let between = choose|between: Db| #[trigger]
        user_written(
            before,
            between,
            user_id,
            now,
            form.name@,
            form.email@,
            hash->Some_0@,
            Ok(()),
        ) && session_started(between, after, session, now, user_id, Ok(()));
    let users = after.users@;
    let last = users.len() - 1;
    assert(users == between.users@);
    assert(users[last].email@ == form.email@);
    let k = choose|k: int| 0 <= k < users.len() && (#[trigger] users[k]).email@ == login.email@;
    if k < last {
        assert(users[k].email@ != users[last].email@);
    }
}

/// What the profile page shows: the user, their listings, newest first, and
/// how many messages they have not read.
#[derive(Debug, PartialEq, Eq)]
pub struct ProfilePage {
    pub user: User,
    pub listings: Vec<Listing>,
    pub unread_count: u64,
}

/// The answer to a request for the profile page, or to a change of the
/// profile.
#[derive(Debug, PartialEq, Eq)]
pub enum ProfileReply {
    /// Nobody is logged in: to the login page.
    Login,
    /// The page.
    Page(ProfilePage),
}

/// The profile page of a user as the store has them.
pub open spec fn is_profile_page(db: Db, user: User, page: ProfilePage) -> bool {
    &&& page.user == user
    &&& is_selection(db, owned_by(user.id@), ListingOrder::Newest, None, page.listings@)
    &&& page.unread_count == unread_total(db, user.id@)
}

/// The profile page of whoever is logged in.
pub fn profile(db: &Db, actor: &Option<User>) -> (reply: ProfileReply)
    requires
        db.wf(),
    ensures
        match *actor {
            Some(user) => reply matches ProfileReply::Page(page) && is_profile_page(
                *db,
                user,
                page,
            ),
            None => reply is Login,
        },
{
    let user = match actor {
        Some(user) => user,
        None => {
            return ProfileReply::Login;
        },
    };
    let listings = get_user_listings(db, user.id.as_str());
    let unread_count = get_unread_count(db, user.id.as_str());
    ProfileReply::Page(ProfilePage { user: user.clone(), listings, unread_count })
}

/// What changing the profile does: the user's profile becomes the form's,
/// and the page shows the user as the store then has them. Nothing changes
/// where nobody is logged in or the user is not in the store.
pub open spec fn profile_changed(
    before: Db,
    after: Db,
    actor: Option<User>,
    form: ProfileForm,
    reply: ProfileReply,
) -> bool {
    match actor {
        None => after == before && reply is Login,
        Some(user) => if has_user(before.users@, user.id@) {
            &&& profile_updated(before, after, user.id@, form, true)
            &&& reply matches ProfileReply::Page(page)
            &&& is_profile_page(after, user_by_id(after.users@, user.id@), page)
        } else {
            after == before && reply is Login
        },
    }
}

/// Changes the profile of whoever is logged in and shows the profile page.
pub fn update_profile(db: &mut Db, actor: &Option<User>, form: &ProfileForm) -> (reply: ProfileReply)
    requires
        old(db).wf(),
    ensures
        final(db).wf(),
        profile_changed(*old(db), *final(db), *actor, *form, reply),
{
    let user = match actor {
        Some(user) => user,
        None => {
            return ProfileReply::Login;
        },
    };
    if !update_user_profile(db, user.id.as_str(), form) {
        return ProfileReply::Login;
    }
    match get_user_by_id(db, user.id.as_str()) {
        Some(reloaded) => {
            let listings = get_user_listings(db, reloaded.id.as_str());
            let unread_count = get_unread_count(db, reloaded.id.as_str());
            ProfileReply::Page(ProfilePage { user: reloaded, listings, unread_count })
        },
        None => {
            proof {
                let users = old(db).users@;
                let i = choose|i: int| 0 <= i < users.len() && (#[trigger] users[i]).id@ == user.id@;
                assert(db.users@[i].id@ == user.id@);
            }
            ProfileReply::Login
        },
    }
}

} // verus!

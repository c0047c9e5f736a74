//! The identity store: registration, lookup and profile updates.

use vstd::prelude::*;
use crate::db::{
    has_email, has_user, lemma_user_by_id, lemma_users_extend, user_by_id, Db, DbError,
};
use crate::host::{current_timestamp, fresh_id};
use crate::models::{ProfileForm, Timestamp, User};

verus! {

/// `after` is `before` with one user more: the one described, with an empty
/// profile. Every other table is as it was.
pub open spec fn user_added(
    before: Db,
    after: Db,
    id: Seq<char>,
    now: Timestamp,
    name: Seq<char>,
    email: Seq<char>,
    password_hash: Seq<char>,
) -> bool {
    let added = after.users@.last();
    &&& after.users@.len() == before.users@.len() + 1
    &&& after.users@.drop_last() == before.users@
    &&& added.id@ == id
    &&& added.email@ == email
    &&& added.name@ == name
    &&& added.password_hash@ == password_hash
    &&& added.location@ == Seq::<char>::empty()
    &&& added.avatar_url@ == Seq::<char>::empty()
    &&& added.payment_info@ == Seq::<char>::empty()
    &&& added.bio@ == Seq::<char>::empty()
    &&& added.created_at == now
    &&& after.listings == before.listings
    &&& after.conversations == before.conversations
    &&& after.messages == before.messages
    &&& after.offers == before.offers
    &&& after.reads == before.reads
    &&& after.sessions == before.sessions
}

/// What writing a user does: an email address that is taken is refused, and
/// so is an identifier that is taken; nothing changes then. Otherwise the
/// user is added.
pub open spec fn user_written(
    before: Db,
    after: Db,
    id: Seq<char>,
    now: Timestamp,
    name: Seq<char>,
    email: Seq<char>,
    password_hash: Seq<char>,
    outcome: Result<(), DbError>,
) -> bool {
    if has_email(before.users@, email) {
        after == before && outcome == Err::<(), DbError>(DbError::DuplicateEmail)
    } else if has_user(before.users@, id) {
        after == before && outcome == Err::<(), DbError>(DbError::DuplicateId)
    } else {
        outcome == Ok::<(), DbError>(()) && user_added(
            before,
            after,
            id,
            now,
            name,
            email,
            password_hash,
        )
    }
}

/// Registers a user under a given identifier and registration time.
/// The email address must be new, and so must the identifier.
pub fn insert_user(
    db: &mut Db,
    id: String,
    now: Timestamp,
    name: &str,
    email: &str,
    password_hash: &str,
) -> (outcome: Result<(), DbError>)
    requires
        old(db).wf(),
    ensures
        final(db).wf(),
        user_written(
            *old(db),
            *final(db),
            id@,
            now,
            name@,
            email@,
            password_hash@,
            outcome,
        ),
{
    if db.find_email(email).is_some() {
        return Err(DbError::DuplicateEmail);
    }
    if db.find_user(id.as_str()).is_some() {
        return Err(DbError::DuplicateId);
    }
    let user = User {
        id,
        email: email.to_owned(),
        name: name.to_owned(),
        password_hash: password_hash.to_owned(),
        location: String::new(),
        avatar_url: String::new(),
        payment_info: String::new(),
        bio: String::new(),
        created_at: now,
    };
    db.users.push(user);
    proof {
        lemma_users_extend(old(db).users@, db.users@);
        assert(db.users@.drop_last() == old(db).users@);
    }
    Ok(())
}

/// What registering a user does, given the identifier and the time that
/// were drawn: an email address that is taken is refused, whatever was drawn;
/// otherwise the user is added under the identifier, which is handed back,
/// unless the identifier is taken.
pub open spec fn registered(
    before: Db,
    after: Db,
    id: Seq<char>,
    now: Timestamp,
    name: Seq<char>,
    email: Seq<char>,
    password_hash: Seq<char>,
    outcome: Result<String, DbError>,
) -> bool {
    &&& user_written(
        before,
        after,
        id,
        now,
        name,
        email,
        password_hash,
        match outcome {
            Ok(_) => Ok(()),
            Err(e) => Err(e),
        },
    )
    &&& outcome matches Ok(given) ==> given@ == id
}

/// Registers a user under a new identifier at the current time and hands the
/// identifier back. An email address can be registered once.
pub fn create_user(db: &mut Db, name: &str, email: &str, password_hash: &str) -> (outcome: Result<
    String,
    DbError,
>)
    requires
        old(db).wf(),
    ensures
        final(db).wf(),
        exists|id: Seq<char>, now: Timestamp|
            registered(*old(db), *final(db), id, now, name@, email@, password_hash@, outcome),
{
    let id = fresh_id();
    let now = current_timestamp();
    let given = id.clone();
    let outcome = match insert_user(db, id, now, name, email, password_hash) {
        Ok(()) => Ok(given),
        Err(e) => Err(e),
    };
    assert(registered(*old(db), *db, given@, now, name@, email@, password_hash@, outcome));
    outcome
}

/// The user with this identifier, if there is one.
pub fn get_user_by_id(db: &Db, id: &str) -> (found: Option<User>)
    requires
        db.wf(),
    ensures
        match found {
            Some(user) => has_user(db.users@, id@) && user == user_by_id(db.users@, id@),
            None => !has_user(db.users@, id@),
        },
{
    match db.find_user(id) {
        Some(i) => {
            proof {
                lemma_user_by_id(db.users@, i as int);
            }
            Some(db.users[i].clone())
        },
        None => None,
    }
}

/// The user registered under this email address.
pub open spec fn user_by_email(users: Seq<User>, email: Seq<char>) -> User {
    users[choose|i: int| 0 <= i < users.len() && (#[trigger] users[i]).email@ == email]
}

/// The user registered under this email address, if there is one.
pub fn get_user_by_email(db: &Db, email: &str) -> (found: Option<User>)
    requires
        db.wf(),
    ensures
        match found {
            Some(user) => has_email(db.users@, email@) && user == user_by_email(
                db.users@,
                email@,
            ),
            None => !has_email(db.users@, email@),
        },
{
    match db.find_email(email) {
        Some(i) => {
            proof {
                let users = db.users@;
                let k = choose|k: int|
                    0 <= k < users.len() && (#[trigger] users[k]).email@ == email@;
                if k < i {
                    assert(users[k].email@ != users[i as int].email@);
                } else if i < k {
                    assert(users[i as int].email@ != users[k].email@);
                }
            }
            Some(db.users[i].clone())
        },
        None => None,
    }
}

/// The user with the profile that a form gives: name, location, bio and
/// payment instructions are the form's, all else is kept.
pub open spec fn with_profile(user: User, form: ProfileForm) -> User {
    User {
        name: form.name,
        location: form.location,
        bio: form.bio,
        payment_info: form.payment_info,
        ..user
    }
}

/// What updating a profile does: the user with the identifier gets the
/// form's profile and nothing else changes; where there is no such user,
/// nothing changes at all. `updated` tells which.
pub open spec fn profile_updated(
    before: Db,
    after: Db,
    id: Seq<char>,
    form: ProfileForm,
    updated: bool,
) -> bool {
    &&& updated == has_user(before.users@, id)
    &&& if updated {
        &&& after.users@ == before.users@.map_values(
            |user: User|
                if user.id@ == id {
                    with_profile(user, form)
                } else {
                    user
                },
        )
        &&& after.listings == before.listings
        &&& after.conversations == before.conversations
        &&& after.messages == before.messages
        &&& after.offers == before.offers
        &&& after.reads == before.reads
        &&& after.sessions == before.sessions
    } else {
        after == before
    }
}

/// Replaces a user's name, location, bio and payment instructions.
pub fn update_user_profile(db: &mut Db, id: &str, form: &ProfileForm) -> (updated: bool)
    requires
        old(db).wf(),
    ensures
        final(db).wf(),
        profile_updated(*old(db), *final(db), id@, *form, updated),
{
    let ghost target = old(db).users@.map_values(
        |user: User|
            if user.id@ == id@ {
                with_profile(user, *form)
            } else {
                user
            },
    );
    match db.find_user(id) {
        Some(i) => {
            let mut user = db.users[i].clone();
            user.name = form.name.clone();
            user.location = form.location.clone();
            user.bio = form.bio.clone();
            user.payment_info = form.payment_info.clone();
            db.users.set(i, user);
            proof {
                let before = old(db).users@;
                let after = db.users@;
                assert forall|k: int| 0 <= k < after.len() implies after[k] == target[k] by {
                    if k < i {
                        assert(before[k].id@ != before[i as int].id@);
                    } else if k > i {
                        assert(before[i as int].id@ != before[k].id@);
                    }
                }
                assert(after == target);
                assert forall|a: int, b: int| 0 <= a < b < after.len() implies (
                #[trigger] after[a]).id@ != (#[trigger] after[b]).id@ && after[a].email@
                    != after[b].email@ by {
                    assert(before[a].id@ != before[b].id@);
                }
                lemma_users_extend(before, after);
            }
            true
        },
        None => false,
    }
}

} // verus!

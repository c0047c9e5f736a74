//! Login sessions: a token stands for a user until it lapses or is deleted.

use vstd::prelude::*;
use crate::db::{
    has_session, has_user, lemma_session_by_id, session_by_id, sessions_wf, user_by_id, Db,
    DbError,
};
use crate::host::{current_timestamp, fresh_id};
use crate::models::{Session, Timestamp, User};

verus! {

/// How long a session lasts: seven days, in seconds.
pub const SESSION_SECONDS: i64 = 604800;

/// When a session that starts at `now` lapses: seven days later, or at the
/// end of time where that is sooner.
pub open spec fn lapse_of(now: Timestamp) -> Timestamp {
    if now + SESSION_SECONDS <= i64::MAX {
        (now + SESSION_SECONDS) as i64
    } else {
        i64::MAX
    }
}

/// What starting a session does, given the token and the time that it would
/// get: the session is added for seven days, unless the user is unknown or
/// the token is taken; then nothing changes. No other table changes.
pub open spec fn session_started(
    before: Db,
    after: Db,
    token: Seq<char>,
    now: Timestamp,
    user_id: Seq<char>,
    outcome: Result<(), DbError>,
) -> bool {
    if !has_user(before.users@, user_id) {
        after == before && outcome == Err::<(), DbError>(DbError::UnknownUser)
    } else if has_session(before.sessions@, token) {
        after == before && outcome == Err::<(), DbError>(DbError::DuplicateId)
    } else {
        let added = after.sessions@.last();
        &&& outcome == Ok::<(), DbError>(())
        &&& after.sessions@.len() == before.sessions@.len() + 1
        &&& after.sessions@.drop_last() == before.sessions@
        &&& added.id@ == token
        &&& added.user_id@ == user_id
        &&& added.created_at == now
        &&& added.expires_at == lapse_of(now)
        &&& after.users == before.users
        &&& after.listings == before.listings
        &&& after.conversations == before.conversations
        &&& after.messages == before.messages
        &&& after.offers == before.offers
        &&& after.reads == before.reads
    }
}

/// Starts a session for a user under the given token at the given time.
pub fn insert_session(db: &mut Db, token: String, now: Timestamp, user_id: &str) -> (outcome: Result<
    (),
    DbError,
>)
    requires
        old(db).wf(),
    ensures
        final(db).wf(),
        session_started(*old(db), *final(db), token@, now, user_id@, outcome),
{
    if db.find_user(user_id).is_none() {
        return Err(DbError::UnknownUser);
    }
    if db.find_session(token.as_str()).is_some() {
        return Err(DbError::DuplicateId);
    }
    let expires_at = if now <= i64::MAX - SESSION_SECONDS {
        now + SESSION_SECONDS
    } else {
        i64::MAX
    };
    db.sessions.push(
        Session { id: token, user_id: user_id.to_owned(), created_at: now, expires_at },
    );
    proof {
        assert(db.sessions@.drop_last() == old(db).sessions@);
    }
    Ok(())
}

/// What creating a session does, given the token and the time that were
/// drawn: what starting one does, with the token handed back.
pub open spec fn session_created(
    before: Db,
    after: Db,
    token: Seq<char>,
    now: Timestamp,
    user_id: Seq<char>,
    outcome: Result<String, DbError>,
) -> bool {
    &&& session_started(
        before,
        after,
        token,
        now,
        user_id,
        match outcome {
            Ok(_) => Ok(()),
            Err(e) => Err(e),
        },
    )
    &&& outcome matches Ok(given) ==> given@ == token
}

/// Starts a session for a user under a new token at the current time, and
/// hands the token back. The session lasts seven days.
pub fn create_session(db: &mut Db, user_id: &str) -> (outcome: Result<String, DbError>)
    requires
        old(db).wf(),
    ensures
        final(db).wf(),
        exists|token: Seq<char>, now: Timestamp|
            session_created(*old(db), *final(db), token, now, user_id@, outcome),
{
    let token = fresh_id();
    let now = current_timestamp();
    let given = token.clone();
    let outcome = match insert_session(db, token, now, user_id) {
        Ok(()) => Ok(given),
        Err(e) => Err(e),
    };
    assert(session_created(*old(db), *db, given@, now, user_id@, outcome));
    outcome
}

/// The user that a token stands for at `now`: the user of the session under
/// that token, as long as the session has not lapsed.
pub open spec fn session_user(db: Db, now: Timestamp, token: Seq<char>) -> Option<User> {
    if has_session(db.sessions@, token) && session_by_id(db.sessions@, token).expires_at > now {
        Some(user_by_id(db.users@, session_by_id(db.sessions@, token).user_id@))
    } else {
        None
    }
}

/// The user that a token stands for at the given time, if any.
pub fn get_session_user_at(db: &Db, now: Timestamp, token: &str) -> (user: Option<User>)
    requires
        db.wf(),
    ensures
        user == session_user(*db, now, token@),
{
    match db.find_session(token) {
        Some(i) => {
            proof {
                lemma_session_by_id(db.sessions@, i as int);
            }
            if db.sessions[i].expires_at > now {
                Some(db.user(db.sessions[i].user_id.as_str()).clone())
            } else {
                None
            }
        },
        None => None,
    }
}

/// The user that a token stands for now, if any.
pub fn get_session_user(db: &Db, token: &str) -> (user: Option<User>)
    requires
        db.wf(),
    ensures
        exists|now: Timestamp| user == session_user(*db, now, token@),
{
    let now = current_timestamp();
    let user = get_session_user_at(db, now, token);
    assert(user == session_user(*db, now, token@));
    user
}

/// The test for the sessions under other tokens than the given one.
pub open spec fn other_than(token: Seq<char>) -> spec_fn(Session) -> bool {
    |s: Session| s.id@ != token
}

/// Taking the one session with a token out of the table leaves exactly the
/// sessions with other tokens.
proof fn lemma_without_session(before: Seq<Session>, at: int, token: Seq<char>)
    requires
        forall|a: int, b: int|
            0 <= a < b < before.len() ==> (#[trigger] before[a]).id@ != (#[trigger] before[b]).id@,
        0 <= at < before.len(),
        before[at].id@ == token,
    ensures
        before.remove(at) == before.filter(other_than(token)),
        !has_session(before.remove(at), token),
{
    let keep = other_than(token);
    assert forall|k: int| 0 <= k < before.len() && k != at implies keep(#[trigger] before[k]) by {
        if k < at {
            assert(before[k].id@ != before[at].id@);
        } else {
            assert(before[at].id@ != before[k].id@);
        }
    }
    crate::seqs::lemma_remove_is_filter(before, keep, at);
    assert forall|k: int| 0 <= k < before.remove(at).len() implies (#[trigger] before.remove(
        at,
    )[k]).id@ != token by {
        before.lemma_filter_pred(keep, k);
    }
}

/// Ends the session under a token, if there is one. Afterwards the token
/// stands for nobody; every other session is as it was.
pub fn delete_session(db: &mut Db, token: &str)
    requires
        old(db).wf(),
    ensures
        final(db).wf(),
        final(db).sessions@ == old(db).sessions@.filter(other_than(token@)),
        !has_session(final(db).sessions@, token@),
        final(db).users == old(db).users,
        final(db).listings == old(db).listings,
        final(db).conversations == old(db).conversations,
        final(db).messages == old(db).messages,
        final(db).offers == old(db).offers,
        final(db).reads == old(db).reads,
{
    match db.find_session(token) {
        Some(i) => {
            db.sessions.remove(i);
            proof {
                let before = old(db).sessions@;
                let after = db.sessions@;
                lemma_without_session(before, i as int, token@);
                assert(sessions_wf(after, db.users@)) by {
                    assert forall|a: int, b: int| 0 <= a < b < after.len() implies (
                    #[trigger] after[a]).id@ != (#[trigger] after[b]).id@ by {
                        let x = if a < i { a } else { a + 1 };
                        let y = if b < i { b } else { b + 1 };
                        assert(before[x].id@ != before[y].id@);
                    }
                    assert forall|a: int| 0 <= a < after.len() implies has_user(
                        db.users@,
                        (#[trigger] after[a]).user_id@,
                    ) by {
                        let x = if a < i { a } else { a + 1 };
                        assert(after[a] == before[x]);
                    }
                }
            }
        },
        None => {
            proof {
                crate::seqs::lemma_filter_all(db.sessions@, other_than(token@));
            }
        },
    }
}

} // verus!

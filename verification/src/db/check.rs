//! Checking a store that was put together from outside: whether its rows
//! meet the invariant that every function of the store relies on.

use vstd::prelude::*;
use crate::db::{
    conversations_wf, has_conversation, has_listing, has_user, in_time_order, listings_wf,
    messages_wf, offers_wf, reads_wf, sessions_wf, single_pending, users_wf, Db,
};
use crate::models::OfferStatus;

verus! {

/// Whether no two users share an identifier or an email address.
fn users_ok(db: &Db) -> (ok: bool)
    ensures
        ok == users_wf(db.users@),
{
    let mut j: usize = 0;
    while j < db.users.len()
        invariant
            j <= db.users@.len(),
            forall|a: int, b: int|
                0 <= a < b < j ==> (#[trigger] db.users@[a]).id@ != (#[trigger] db.users@[b]).id@
                    && db.users@[a].email@ != db.users@[b].email@,
        decreases db.users@.len() - j,
    {
        let mut i: usize = 0;
        while i < j
            invariant
                i <= j < db.users@.len(),
                forall|a: int|
                    0 <= a < i ==> (#[trigger] db.users@[a]).id@ != db.users@[j as int].id@
                        && db.users@[a].email@ != db.users@[j as int].email@,
            decreases j - i,
        {
            if db.users[i].id == db.users[j].id || db.users[i].email == db.users[j].email {
                assert(!(db.users@[i as int].id@ != db.users@[j as int].id@
                    && db.users@[i as int].email@ != db.users@[j as int].email@));
                return false;
            }
            i += 1;
        }
        j += 1;
    }
    true
}

/// Whether no two listings share an identifier and every seller is a user.
fn listings_ok(db: &Db) -> (ok: bool)
    ensures
        ok == listings_wf(db.listings@, db.users@),
{
    let mut j: usize = 0;
    while j < db.listings.len()
        invariant
            j <= db.listings@.len(),
            forall|a: int, b: int|
                0 <= a < b < j ==> (#[trigger] db.listings@[a]).id@ != (
                #[trigger] db.listings@[b]).id@,
            forall|a: int|
                0 <= a < j ==> has_user(db.users@, (#[trigger] db.listings@[a]).seller_id@),
        decreases db.listings@.len() - j,
    {
        if db.find_user(db.listings[j].seller_id.as_str()).is_none() {
            assert(!has_user(db.users@, db.listings@[j as int].seller_id@));
            return false;
        }
        let mut i: usize = 0;
        while i < j
            invariant
                i <= j < db.listings@.len(),
                forall|a: int|
                    0 <= a < i ==> (#[trigger] db.listings@[a]).id@ != db.listings@[j as int].id@,
            decreases j - i,
        {
            if db.listings[i].id == db.listings[j].id {
                assert(!(db.listings@[i as int].id@ != db.listings@[j as int].id@));
                return false;
            }
            i += 1;
        }
        j += 1;
    }
    true
}

/// Whether no two conversations share an identifier or a listing and buyer,
/// and every listing, buyer and seller exists.
fn conversations_ok(db: &Db) -> (ok: bool)
    ensures
        ok == conversations_wf(db.conversations@, db.listings@, db.users@),
{
    let mut j: usize = 0;
    while j < db.conversations.len()
        invariant
            j <= db.conversations@.len(),
            forall|a: int, b: int|
                0 <= a < b < j ==> (#[trigger] db.conversations@[a]).id@ != (
                #[trigger] db.conversations@[b]).id@,
            forall|a: int, b: int|
                0 <= a < b < j ==> !((#[trigger] db.conversations@[a]).listing_id@ == (
                #[trigger] db.conversations@[b]).listing_id@ && db.conversations@[a].buyer_id@
                    == db.conversations@[b].buyer_id@),
            forall|a: int|
                0 <= a < j ==> {
                    &&& has_listing(db.listings@, (#[trigger] db.conversations@[a]).listing_id@)
                    &&& has_user(db.users@, db.conversations@[a].buyer_id@)
                    &&& has_user(db.users@, db.conversations@[a].seller_id@)
                },
        decreases db.conversations@.len() - j,
    {
        let row = &db.conversations[j];
        if db.find_listing(row.listing_id.as_str()).is_none() || db.find_user(
            row.buyer_id.as_str(),
        ).is_none() || db.find_user(row.seller_id.as_str()).is_none() {
            assert(!(has_listing(db.listings@, db.conversations@[j as int].listing_id@)
                && has_user(db.users@, db.conversations@[j as int].buyer_id@) && has_user(
                db.users@,
                db.conversations@[j as int].seller_id@,
            )));
            return false;
        }
        let mut i: usize = 0;
        while i < j
            invariant
                i <= j < db.conversations@.len(),
                forall|a: int|
                    0 <= a < i ==> (#[trigger] db.conversations@[a]).id@
                        != db.conversations@[j as int].id@ && !(db.conversations@[a].listing_id@
                        == db.conversations@[j as int].listing_id@
                        && db.conversations@[a].buyer_id@ == db.conversations@[j as int].buyer_id@),
            decreases j - i,
        {
            let other = &db.conversations[i];
            let row = &db.conversations[j];
            if other.id == row.id {
                assert(!(db.conversations@[i as int].id@ != db.conversations@[j as int].id@));
                return false;
            }
            if other.listing_id == row.listing_id && other.buyer_id == row.buyer_id {
                assert(db.conversations@[i as int].listing_id@
                    == db.conversations@[j as int].listing_id@ && db.conversations@[i as int].buyer_id@
                    == db.conversations@[j as int].buyer_id@);
                return false;
            }
            i += 1;
        }
        j += 1;
    }
    true
}

/// Whether no two messages share an identifier, every conversation and
/// sender exists, and the ledger is in time order.
fn messages_ok(db: &Db) -> (ok: bool)
    ensures
        ok == messages_wf(db.messages@, db.conversations@, db.users@),
{
    let mut j: usize = 0;
    while j < db.messages.len()
        invariant
            j <= db.messages@.len(),
            forall|a: int, b: int|
                0 <= a < b < j ==> (#[trigger] db.messages@[a]).id@ != (
                #[trigger] db.messages@[b]).id@,
            forall|a: int|
                0 <= a < j ==> {
                    &&& has_conversation(
                        db.conversations@,
                        (#[trigger] db.messages@[a]).conversation_id@,
                    )
                    &&& has_user(db.users@, db.messages@[a].sender_id@)
                },
            forall|a: int, b: int|
                0 <= a <= b < j ==> (#[trigger] db.messages@[a]).created_at <= (
                #[trigger] db.messages@[b]).created_at,
        decreases db.messages@.len() - j,
    {
        let row = &db.messages[j];
        if db.find_conversation(row.conversation_id.as_str()).is_none() || db.find_user(
            row.sender_id.as_str(),
        ).is_none() {
            assert(!(has_conversation(db.conversations@, db.messages@[j as int].conversation_id@)
                && has_user(db.users@, db.messages@[j as int].sender_id@)));
            return false;
        }
        if j > 0 && db.messages[j - 1].created_at > row.created_at {
            assert(!(db.messages@[j - 1].created_at <= db.messages@[j as int].created_at));
            assert(!in_time_order(db.messages@));
            return false;
        }
        proof {
            assert forall|a: int| 0 <= a <= j implies (#[trigger] db.messages@[a]).created_at
                <= db.messages@[j as int].created_at by {
                if a < j {
                    assert(db.messages@[a].created_at <= db.messages@[j - 1].created_at);
                }
            }
        }
        let mut i: usize = 0;
        while i < j
            invariant
                i <= j < db.messages@.len(),
                forall|a: int|
                    0 <= a < i ==> (#[trigger] db.messages@[a]).id@ != db.messages@[j as int].id@,
            decreases j - i,
        {
            if db.messages[i].id == db.messages[j].id {
                assert(!(db.messages@[i as int].id@ != db.messages@[j as int].id@));
                return false;
            }
            i += 1;
        }
        j += 1;
    }
    true
}

/// Whether an offer is pending.
fn is_pending(status: OfferStatus) -> (pending: bool)
    ensures
        pending == (status == OfferStatus::Pending),
{
    match status {
        OfferStatus::Pending => true,
        _ => false,
    }
}

/// Whether no two offers share an identifier, every listing, conversation
/// and buyer exists, no amount is zero, and no listing and buyer have two
/// pending offers.
fn offers_ok(db: &Db) -> (ok: bool)
    ensures
        ok == offers_wf(db.offers@, db.conversations@, db.listings@, db.users@),
{
    let mut j: usize = 0;
    while j < db.offers.len()
        invariant
            j <= db.offers@.len(),
            forall|a: int, b: int|
                0 <= a < b < j ==> (#[trigger] db.offers@[a]).id@ != (#[trigger] db.offers@[b]).id@,
            forall|a: int|
                0 <= a < j ==> {
                    &&& has_listing(db.listings@, (#[trigger] db.offers@[a]).listing_id@)
                    &&& has_conversation(db.conversations@, db.offers@[a].conversation_id@)
                    &&& has_user(db.users@, db.offers@[a].buyer_id@)
                    &&& db.offers@[a].amount > 0
                },
            forall|a: int, b: int|
                0 <= a < b < j && (#[trigger] db.offers@[a]).status == OfferStatus::Pending && (
                #[trigger] db.offers@[b]).status == OfferStatus::Pending ==> !(
                db.offers@[a].listing_id@ == db.offers@[b].listing_id@ && db.offers@[a].buyer_id@
                    == db.offers@[b].buyer_id@),
        decreases db.offers@.len() - j,
    {
        let row = &db.offers[j];
        if db.find_listing(row.listing_id.as_str()).is_none() || db.find_conversation(
            row.conversation_id.as_str(),
        ).is_none() || db.find_user(row.buyer_id.as_str()).is_none() || row.amount == 0 {
            assert(!(has_listing(db.listings@, db.offers@[j as int].listing_id@)
                && has_conversation(db.conversations@, db.offers@[j as int].conversation_id@)
                && has_user(db.users@, db.offers@[j as int].buyer_id@) && db.offers@[j as int].amount
                > 0));
            return false;
        }
        let mut i: usize = 0;
        while i < j
            invariant
                i <= j < db.offers@.len(),
                forall|a: int|
                    0 <= a < i ==> (#[trigger] db.offers@[a]).id@ != db.offers@[j as int].id@,
                forall|a: int|
                    0 <= a < i && (#[trigger] db.offers@[a]).status == OfferStatus::Pending
                        && db.offers@[j as int].status == OfferStatus::Pending ==> !(
                    db.offers@[a].listing_id@ == db.offers@[j as int].listing_id@
                        && db.offers@[a].buyer_id@ == db.offers@[j as int].buyer_id@),
            decreases j - i,
        {
            let other = &db.offers[i];
            let row = &db.offers[j];
            if other.id == row.id {
                assert(!(db.offers@[i as int].id@ != db.offers@[j as int].id@));
                return false;
            }
            if is_pending(other.status) && is_pending(row.status) && other.listing_id
                == row.listing_id && other.buyer_id == row.buyer_id {
                assert(db.offers@[i as int].status == OfferStatus::Pending
                    && db.offers@[j as int].status == OfferStatus::Pending
                    && db.offers@[i as int].listing_id@ == db.offers@[j as int].listing_id@
                    && db.offers@[i as int].buyer_id@ == db.offers@[j as int].buyer_id@);
                assert(!single_pending(db.offers@));
                return false;
            }
            i += 1;
        }
        j += 1;
    }
    true
}

/// Whether no user has two markers for one conversation, and every user and
/// conversation exists.
fn reads_ok(db: &Db) -> (ok: bool)
    ensures
        ok == reads_wf(db.reads@, db.conversations@, db.users@),
{
    let mut j: usize = 0;
    while j < db.reads.len()
        invariant
            j <= db.reads@.len(),
            forall|a: int, b: int|
                0 <= a < b < j ==> !((#[trigger] db.reads@[a]).user_id@ == (
                #[trigger] db.reads@[b]).user_id@ && db.reads@[a].conversation_id@
                    == db.reads@[b].conversation_id@),
            forall|a: int|
                0 <= a < j ==> {
                    &&& has_user(db.users@, (#[trigger] db.reads@[a]).user_id@)
                    &&& has_conversation(db.conversations@, db.reads@[a].conversation_id@)
                },
        decreases db.reads@.len() - j,
    {
        let row = &db.reads[j];
        if db.find_user(row.user_id.as_str()).is_none() || db.find_conversation(
            row.conversation_id.as_str(),
        ).is_none() {
            assert(!(has_user(db.users@, db.reads@[j as int].user_id@) && has_conversation(
                db.conversations@,
                db.reads@[j as int].conversation_id@,
            )));
            return false;
        }
        let mut i: usize = 0;
        while i < j
            invariant
                i <= j < db.reads@.len(),
                forall|a: int|
                    0 <= a < i ==> !((#[trigger] db.reads@[a]).user_id@
                        == db.reads@[j as int].user_id@ && db.reads@[a].conversation_id@
                        == db.reads@[j as int].conversation_id@),
            decreases j - i,
        {
            if db.reads[i].user_id == db.reads[j].user_id && db.reads[i].conversation_id
                == db.reads[j].conversation_id {
                assert(db.reads@[i as int].user_id@ == db.reads@[j as int].user_id@
                    && db.reads@[i as int].conversation_id@ == db.reads@[j as int].conversation_id@);
                return false;
            }
            i += 1;
        }
        j += 1;
    }
    true
}

/// Whether no two sessions share a token and every user exists.
fn sessions_ok(db: &Db) -> (ok: bool)
    ensures
        ok == sessions_wf(db.sessions@, db.users@),
{
    let mut j: usize = 0;
    while j < db.sessions.len()
        invariant
            j <= db.sessions@.len(),
            forall|a: int, b: int|
                0 <= a < b < j ==> (#[trigger] db.sessions@[a]).id@ != (
                #[trigger] db.sessions@[b]).id@,
            forall|a: int|
                0 <= a < j ==> has_user(db.users@, (#[trigger] db.sessions@[a]).user_id@),
        decreases db.sessions@.len() - j,
    {
        if db.find_user(db.sessions[j].user_id.as_str()).is_none() {
            assert(!has_user(db.users@, db.sessions@[j as int].user_id@));
            return false;
        }
        let mut i: usize = 0;
        while i < j
            invariant
                i <= j < db.sessions@.len(),
                forall|a: int|
                    0 <= a < i ==> (#[trigger] db.sessions@[a]).id@ != db.sessions@[j as int].id@,
            decreases j - i,
        {
            if db.sessions[i].id == db.sessions[j].id {
                assert(!(db.sessions@[i as int].id@ != db.sessions@[j as int].id@));
                return false;
            }
            i += 1;
        }
        j += 1;
    }
    true
}

impl Db {
    /// Whether the store meets its invariant. A store that was filled
    /// through the functions of this library does; one whose tables were
    /// filled from elsewhere has to be checked before it is used.
    pub fn check(&self) -> (ok: bool)
        ensures
            ok == self.wf(),
    {
        users_ok(self) && listings_ok(self) && conversations_ok(self) && messages_ok(self)
            && offers_ok(self) && reads_ok(self) && sessions_ok(self)
    }
}

} // verus!

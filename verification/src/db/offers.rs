//! Offer negotiation: a buyer proposes a price in a conversation, the seller
//! of the listing accepts or rejects it, and a new proposal replaces the one
//! that still awaits an answer.

use vstd::prelude::*;
use vstd::string::StrSliceExecFns;
use crate::db::{
    has_conversation, has_listing, has_offer, has_user, is_pending_for, listing_by_id, offer_by_id,
    single_pending, Db, DbError,
};
use crate::host::{current_timestamp, fresh_id};
use crate::models::{Cents, Offer, OfferStatus, Timestamp};

verus! {

/// The offer in another state.
pub open spec fn with_status(offer: Offer, status: OfferStatus) -> Offer {
    Offer { status, ..offer }
}

/// The offers once a buyer's pending offers on a listing were cancelled.
pub open spec fn superseded(offers: Seq<Offer>, listing_id: Seq<char>, buyer_id: Seq<char>) -> Seq<
    Offer,
> {
    offers.map_values(
        |offer: Offer|
            if is_pending_for(offer, listing_id, buyer_id) {
                with_status(offer, OfferStatus::Cancelled)
            } else {
                offer
            },
    )
}

/// `after` is `before` with the buyer's pending offers on the listing
/// cancelled and one pending offer more: the one described. Every other table
/// is as it was.
pub open spec fn offer_added(
    before: Db,
    after: Db,
    id: Seq<char>,
    now: Timestamp,
    listing_id: Seq<char>,
    conversation_id: Seq<char>,
    buyer_id: Seq<char>,
    amount: Cents,
) -> bool {
    let added = after.offers@.last();
    &&& after.offers@.len() == before.offers@.len() + 1
    &&& after.offers@.drop_last() == superseded(before.offers@, listing_id, buyer_id)
    &&& added.id@ == id
    &&& added.listing_id@ == listing_id
    &&& added.conversation_id@ == conversation_id
    &&& added.buyer_id@ == buyer_id
    &&& added.amount == amount
    &&& added.status == OfferStatus::Pending
    &&& added.created_at == now
    &&& after.users == before.users
    &&& after.listings == before.listings
    &&& after.conversations == before.conversations
    &&& after.messages == before.messages
    &&& after.reads == before.reads
    &&& after.sessions == before.sessions
}

/// What proposing an offer does, given the identifier and the time that the
/// offer would get.
///
/// An amount of zero is skipped: nothing changes, and the answer is
/// `Ok(false)`. Otherwise the offer replaces the buyer's pending offer on the
/// listing, unless the listing, the conversation or the buyer is unknown or
/// the identifier is taken; then nothing changes either.
pub open spec fn proposed(
    before: Db,
    after: Db,
    id: Seq<char>,
    now: Timestamp,
    listing_id: Seq<char>,
    conversation_id: Seq<char>,
    buyer_id: Seq<char>,
    amount: Cents,
    outcome: Result<bool, DbError>,
) -> bool {
    if amount == 0 {
        after == before && outcome == Ok::<bool, DbError>(false)
    } else if !has_listing(before.listings@, listing_id) {
        after == before && outcome == Err::<bool, DbError>(DbError::UnknownListing)
    } else if !has_conversation(before.conversations@, conversation_id) {
        after == before && outcome == Err::<bool, DbError>(DbError::UnknownConversation)
    } else if !has_user(before.users@, buyer_id) {
        after == before && outcome == Err::<bool, DbError>(DbError::UnknownUser)
    } else if has_offer(before.offers@, id) {
        after == before && outcome == Err::<bool, DbError>(DbError::DuplicateId)
    } else {
        outcome == Ok::<bool, DbError>(true) && offer_added(
            before,
            after,
            id,
            now,
            listing_id,
            conversation_id,
            buyer_id,
            amount,
        )
    }
}

/// Proposes an offer under the given identifier at the given time: cancels
/// the buyer's pending offer on the listing, if there is one, and writes the
/// new one as pending.
pub fn propose_offer(
    db: &mut Db,
    id: String,
    now: Timestamp,
    listing_id: &str,
    conversation_id: &str,
    buyer_id: &str,
    amount: Cents,
) -> (outcome: Result<bool, DbError>)
    requires
        old(db).wf(),
    ensures
        final(db).wf(),
        proposed(
            *old(db),
            *final(db),
            id@,
            now,
            listing_id@,
            conversation_id@,
            buyer_id@,
            amount,
            outcome,
        ),
{
    if amount == 0 {
        return Ok(false);
    }
    if db.find_listing(listing_id).is_none() {
        return Err(DbError::UnknownListing);
    }
    if db.find_conversation(conversation_id).is_none() {
        return Err(DbError::UnknownConversation);
    }
    if db.find_user(buyer_id).is_none() {
        return Err(DbError::UnknownUser);
    }
    if db.find_offer(id.as_str()).is_some() {
        return Err(DbError::DuplicateId);
    }
    let listing = listing_id.to_owned();
    let buyer = buyer_id.to_owned();
    let ghost target = superseded(old(db).offers@, listing_id@, buyer_id@);
    let mut i: usize = 0;
    while i < db.offers.len()
        invariant
            i <= db.offers@.len(),
            db.offers@.len() == old(db).offers@.len(),
            listing@ == listing_id@,
            buyer@ == buyer_id@,
            target == superseded(old(db).offers@, listing_id@, buyer_id@),
            forall|k: int| 0 <= k < i ==> (#[trigger] db.offers@[k]) == target[k],
            forall|k: int| i <= k < db.offers@.len() ==> (#[trigger] db.offers@[k]) == old(
                db,
            ).offers@[k],
            db.users == old(db).users,
            db.listings == old(db).listings,
            db.conversations == old(db).conversations,
            db.messages == old(db).messages,
            db.reads == old(db).reads,
            db.sessions == old(db).sessions,
        decreases db.offers@.len() - i,
    {
        let pending = match db.offers[i].status {
            OfferStatus::Pending => true,
            _ => false,
        };
        if pending && db.offers[i].listing_id == listing && db.offers[i].buyer_id == buyer {
            let mut offer = db.offers[i].clone();
            offer.status = OfferStatus::Cancelled;
            db.offers.set(i, offer);
        }
        i += 1;
    }
    assert(db.offers@ == target);
    db.offers.push(
        Offer {
            id,
            listing_id: listing,
            conversation_id: conversation_id.to_owned(),
            buyer_id: buyer,
            amount,
            status: OfferStatus::Pending,
            created_at: now,
        },
    );
    proof {
        let before = old(db).offers@;
        let after = db.offers@;
        assert(after.drop_last() == target);
        assert forall|a: int, b: int| 0 <= a < b < after.len() implies (#[trigger] after[a]).id@ != (
        #[trigger] after[b]).id@ by {
            if b < before.len() {
                assert(before[a].id@ != before[b].id@);
            } else {
                assert(before[a].id@ != id@);
            }
        }
        assert forall|a: int| 0 <= a < after.len() implies {
            &&& has_listing(db.listings@, (#[trigger] after[a]).listing_id@)
            &&& has_conversation(db.conversations@, after[a].conversation_id@)
            &&& has_user(db.users@, after[a].buyer_id@)
            &&& after[a].amount > 0
        } by {
            if a < before.len() {
                assert(has_listing(db.listings@, before[a].listing_id@));
            }
        }
        assert forall|a: int, b: int|
            0 <= a < b < after.len() && (#[trigger] after[a]).status == OfferStatus::Pending && (
            #[trigger] after[b]).status == OfferStatus::Pending implies !(after[a].listing_id@
            == after[b].listing_id@ && after[a].buyer_id@ == after[b].buyer_id@) by {
            if b < before.len() {
                assert(before[a].status == OfferStatus::Pending);
                assert(before[b].status == OfferStatus::Pending);
                assert(!(before[a].listing_id@ == before[b].listing_id@ && before[a].buyer_id@
                    == before[b].buyer_id@));
            }
        }
    }
    Ok(true)
}

/// What creating an offer does, given the identifier and the time that were
/// drawn for it: what proposing does, with the identifier handed back where
/// the offer was written.
pub open spec fn created(
    before: Db,
    after: Db,
    id: Seq<char>,
    now: Timestamp,
    listing_id: Seq<char>,
    conversation_id: Seq<char>,
    buyer_id: Seq<char>,
    amount: Cents,
    outcome: Result<Option<String>, DbError>,
) -> bool {
    &&& proposed(
        before,
        after,
        id,
        now,
        listing_id,
        conversation_id,
        buyer_id,
        amount,
        match outcome {
            Ok(Some(_)) => Ok(true),
            Ok(None) => Ok(false),
            Err(e) => Err(e),
        },
    )
    &&& outcome matches Ok(Some(written)) ==> written@ == id
}

/// Proposes an offer under a new identifier at the current time. The answer
/// is the new offer's identifier, or `None` where the amount was zero and
/// nothing was written.
pub fn create_offer(
    db: &mut Db,
    listing_id: &str,
    conversation_id: &str,
    buyer_id: &str,
    amount: Cents,
) -> (outcome: Result<Option<String>, DbError>)
    requires
        old(db).wf(),
    ensures
        final(db).wf(),
        exists|id: Seq<char>, now: Timestamp|
            created(
                *old(db),
                *final(db),
                id,
                now,
                listing_id@,
                conversation_id@,
                buyer_id@,
                amount,
                outcome,
            ),
{
    let id = fresh_id();
    let now = current_timestamp();
    let written = id.clone();
    let outcome = match propose_offer(db, id, now, listing_id, conversation_id, buyer_id, amount) {
        Ok(true) => Ok(Some(written)),
        Ok(false) => Ok(None),
        Err(e) => Err(e),
    };
    assert(created(
        *old(db),
        *db,
        written@,
        now,
        listing_id@,
        conversation_id@,
        buyer_id@,
        amount,
        outcome,
    ));
    outcome
}

/// The state that an answer puts an offer in.
pub open spec fn answer(accept: bool) -> OfferStatus {
    if accept {
        OfferStatus::Accepted
    } else {
        OfferStatus::Rejected
    }
}

/// The user may answer the offer: the offer exists and is pending, and the
/// user is the seller of the listing that it is for.
pub open spec fn may_respond(db: Db, offer_id: Seq<char>, seller_id: Seq<char>) -> bool {
    &&& has_offer(db.offers@, offer_id)
    &&& offer_by_id(db.offers@, offer_id).status == OfferStatus::Pending
    &&& listing_by_id(db.listings@, offer_by_id(db.offers@, offer_id).listing_id@).seller_id@
        == seller_id
}

/// Whether a user may answer an offer.
pub fn can_respond(db: &Db, offer_id: &str, seller_id: &str) -> (allowed: bool)
    requires
        db.wf(),
    ensures
        allowed == may_respond(*db, offer_id@, seller_id@),
{
    let at = match db.find_offer(offer_id) {
        Some(i) => i,
        None => {
            return false;
        },
    };
    proof {
        crate::db::lemma_offer_by_id(db.offers@, at as int);
    }
    let pending = match db.offers[at].status {
        OfferStatus::Pending => true,
        _ => false,
    };
    pending && db.listing(db.offers[at].listing_id.as_str()).seller_id == seller_id.to_owned()
}

/// What answering an offer does: where the user may answer it, the offer is
/// accepted or rejected and nothing else changes; otherwise nothing changes
/// at all. `took_effect` tells which.
pub open spec fn responded(
    before: Db,
    after: Db,
    offer_id: Seq<char>,
    seller_id: Seq<char>,
    accept: bool,
    took_effect: bool,
) -> bool {
    &&& took_effect == may_respond(before, offer_id, seller_id)
    &&& if took_effect {
        &&& after.offers@ == before.offers@.map_values(
            |offer: Offer|
                if offer.id@ == offer_id {
                    with_status(offer, answer(accept))
                } else {
                    offer
                },
        )
        &&& after.users == before.users
        &&& after.listings == before.listings
        &&& after.conversations == before.conversations
        &&& after.messages == before.messages
        &&& after.reads == before.reads
        &&& after.sessions == before.sessions
    } else {
        after == before
    }
}

/// Accepts or rejects an offer on behalf of a user. It takes effect only
/// where the offer is pending and the user is the seller of its listing; the
/// answer does not tell which of the two was amiss.
pub fn respond_to_offer(db: &mut Db, offer_id: &str, seller_id: &str, accept: bool) -> (took_effect:
    bool)
    requires
        old(db).wf(),
    ensures
        final(db).wf(),
        responded(*old(db), *final(db), offer_id@, seller_id@, accept, took_effect),
{
    let at = match db.find_offer(offer_id) {
        Some(i) => i,
        None => {
            return false;
        },
    };
    proof {
        crate::db::lemma_offer_by_id(db.offers@, at as int);
    }
    let pending = match db.offers[at].status {
        OfferStatus::Pending => true,
        _ => false,
    };
    if !pending {
        return false;
    }
    let seller = seller_id.to_owned();
    let owned = db.listing(db.offers[at].listing_id.as_str()).seller_id == seller;
    if !owned {
        return false;
    }
    let mut offer = db.offers[at].clone();
    offer.status = if accept {
        OfferStatus::Accepted
    } else {
        OfferStatus::Rejected
    };
    db.offers.set(at, offer);
    proof {
        let before = old(db).offers@;
        let after = db.offers@;
        let target = before.map_values(
            |offer: Offer|
                if offer.id@ == offer_id@ {
                    with_status(offer, answer(accept))
                } else {
                    offer
                },
        );
        assert forall|k: int| 0 <= k < after.len() implies after[k] == target[k] by {
            if k < at {
                assert(before[k].id@ != before[at as int].id@);
            } else if k > at {
                assert(before[at as int].id@ != before[k].id@);
            }
        }
        assert(after == target);
        assert forall|a: int, b: int| 0 <= a < b < after.len() implies (#[trigger] after[a]).id@ != (
        #[trigger] after[b]).id@ by {
            assert(before[a].id@ != before[b].id@);
        }
        assert forall|a: int| 0 <= a < after.len() implies {
            &&& has_listing(db.listings@, (#[trigger] after[a]).listing_id@)
            &&& has_conversation(db.conversations@, after[a].conversation_id@)
            &&& has_user(db.users@, after[a].buyer_id@)
            &&& after[a].amount > 0
        } by {
            assert(has_listing(db.listings@, before[a].listing_id@));
        }
        assert forall|a: int, b: int|
            0 <= a < b < after.len() && (#[trigger] after[a]).status == OfferStatus::Pending && (
            #[trigger] after[b]).status == OfferStatus::Pending implies !(after[a].listing_id@
            == after[b].listing_id@ && after[a].buyer_id@ == after[b].buyer_id@) by {
            assert(before[a].status == OfferStatus::Pending);
            assert(before[b].status == OfferStatus::Pending);
            assert(!(before[a].listing_id@ == before[b].listing_id@ && before[a].buyer_id@
                == before[b].buyer_id@));
        }
    }
    true
}

/// The offer with this identifier, if there is one.
pub fn get_offer(db: &Db, id: &str) -> (found: Option<Offer>)
    requires
        db.wf(),
    ensures
        match found {
            Some(offer) => has_offer(db.offers@, id@) && offer == offer_by_id(db.offers@, id@),
            None => !has_offer(db.offers@, id@),
        },
{
    match db.find_offer(id) {
        Some(i) => {
            proof {
                crate::db::lemma_offer_by_id(db.offers@, i as int);
            }
            Some(db.offers[i].clone())
        },
        None => None,
    }
}

/// The offer is a pending one of the conversation.
pub open spec fn is_pending_in(offer: Offer, conversation_id: Seq<char>) -> bool {
    offer.status == OfferStatus::Pending && offer.conversation_id@ == conversation_id
}

/// The offer at `at` is the latest pending offer of the conversation: no
/// other is later, and of those written at the same time it stands last.
pub open spec fn is_latest_pending(offers: Seq<Offer>, conversation_id: Seq<char>, at: int) -> bool {
    &&& 0 <= at < offers.len()
    &&& is_pending_in(offers[at], conversation_id)
    &&& forall|k: int|
        0 <= k < offers.len() && is_pending_in(#[trigger] offers[k], conversation_id) ==> {
            ||| offers[k].created_at < offers[at].created_at
            ||| offers[k].created_at == offers[at].created_at && k <= at
        }
}

/// The latest pending offer of a conversation, if it has a pending offer.
pub open spec fn latest_pending(offers: Seq<Offer>, conversation_id: Seq<char>) -> Option<Offer> {
    if exists|at: int| is_latest_pending(offers, conversation_id, at) {
        Some(offers[choose|at: int| is_latest_pending(offers, conversation_id, at)])
    } else {
        None
    }
}

/// A conversation has one latest pending offer at most.
pub proof fn lemma_latest_pending_is_one(
    offers: Seq<Offer>,
    conversation_id: Seq<char>,
    first: int,
    second: int,
)
    requires
        is_latest_pending(offers, conversation_id, first),
        is_latest_pending(offers, conversation_id, second),
    ensures
        first == second,
{
}

/// The latest pending offer of a conversation, if it has a pending offer.
pub fn get_pending_offer(db: &Db, conversation_id: &str) -> (found: Option<Offer>)
    requires
        db.wf(),
    ensures
        found == latest_pending(db.offers@, conversation_id@),
{
    let thread = conversation_id.to_owned();
    let mut best: Option<usize> = None;
    let mut i: usize = 0;
    while i < db.offers.len()
        invariant
            i <= db.offers@.len(),
            thread@ == conversation_id@,
            match best {
                Some(at) => at < i && is_latest_pending(
                    db.offers@.take(i as int),
                    conversation_id@,
                    at as int,
                ),
                None => forall|k: int|
                    0 <= k < i ==> !is_pending_in(#[trigger] db.offers@[k], conversation_id@),
            },
        decreases db.offers@.len() - i,
    {
        let pending = match db.offers[i].status {
            OfferStatus::Pending => true,
            _ => false,
        };
        let ghost seen = db.offers@.take(i as int);
        let ghost more = db.offers@.take(i + 1);
        if pending && db.offers[i].conversation_id == thread {
            let newer = match best {
                Some(at) => db.offers[at].created_at <= db.offers[i].created_at,
                None => true,
            };
            if newer {
                proof {
                    assert forall|k: int|
                        0 <= k < more.len() && is_pending_in(
                            #[trigger] more[k],
                            conversation_id@,
                        ) implies {
                        ||| more[k].created_at < more[i as int].created_at
                        ||| more[k].created_at == more[i as int].created_at && k <= i
                    } by {
                        if k < i {
                            assert(seen[k] == more[k]);
                            assert(is_pending_in(seen[k], conversation_id@));
                        }
                    }
                }
                best = Some(i);
            } else {
                proof {
                    let at = best->Some_0 as int;
                    assert forall|k: int|
                        0 <= k < more.len() && is_pending_in(
                            #[trigger] more[k],
                            conversation_id@,
                        ) implies {
                        ||| more[k].created_at < more[at].created_at
                        ||| more[k].created_at == more[at].created_at && k <= at
                    } by {
                        if k < i {
                            assert(seen[k] == more[k]);
                            assert(is_pending_in(seen[k], conversation_id@));
                        }
                    }
                }
            }
        } else {
            proof {
                if best is Some {
                    let at = best->Some_0 as int;
                    assert forall|k: int|
                        0 <= k < more.len() && is_pending_in(
                            #[trigger] more[k],
                            conversation_id@,
                        ) implies {
                        ||| more[k].created_at < more[at].created_at
                        ||| more[k].created_at == more[at].created_at && k <= at
                    } by {
                        if k < i {
                            assert(seen[k] == more[k]);
                            assert(is_pending_in(seen[k], conversation_id@));
                        }
                    }
                }
            }
        }
        i += 1;
    }
    proof {
        assert(db.offers@.take(i as int) == db.offers@);
        match best {
            Some(at) => {
                let chosen = choose|k: int| is_latest_pending(db.offers@, conversation_id@, k);
                lemma_latest_pending_is_one(db.offers@, conversation_id@, at as int, chosen);
            },
            None => {
                assert forall|k: int| !is_latest_pending(db.offers@, conversation_id@, k) by {
                    if 0 <= k < db.offers@.len() {
                        assert(!is_pending_in(db.offers@[k], conversation_id@));
                    }
                }
            },
        }
    }
    match best {
        Some(at) => Some(db.offers[at].clone()),
        None => None,
    }
}

/// A proposal that is written cancels every offer of the buyer on the listing
/// that was pending, changes no other offer, and leaves exactly one pending
/// offer for the buyer on the listing: the new one, with the amount proposed.
pub proof fn lemma_proposal_replaces_pending(
    before: Db,
    after: Db,
    id: Seq<char>,
    now: Timestamp,
    listing_id: Seq<char>,
    conversation_id: Seq<char>,
    buyer_id: Seq<char>,
    amount: Cents,
)
    requires
        proposed(
            before,
            after,
            id,
            now,
            listing_id,
            conversation_id,
            buyer_id,
            amount,
            Ok(true),
        ),
    ensures
        after.offers@.len() == before.offers@.len() + 1,
        forall|i: int|
            0 <= i < before.offers@.len() ==> (#[trigger] after.offers@[i]) == if is_pending_for(
                before.offers@[i],
                listing_id,
                buyer_id,
            ) {
                with_status(before.offers@[i], OfferStatus::Cancelled)
            } else {
                before.offers@[i]
            },
        forall|i: int|
            0 <= i < after.offers@.len() ==> (is_pending_for(
                #[trigger] after.offers@[i],
                listing_id,
                buyer_id,
            ) <==> i == after.offers@.len() - 1),
        after.offers@.last().amount == amount,
        after.offers@.last().id@ == id,
{
    let old_offers = before.offers@;
    let new_offers = after.offers@;
    assert forall|i: int| 0 <= i < old_offers.len() implies (#[trigger] new_offers[i])
        == superseded(old_offers, listing_id, buyer_id)[i] by {
        assert(new_offers.drop_last()[i] == new_offers[i]);
    }
}

/// An answer takes effect only on a pending offer and only from the seller of
/// its listing; it then leaves the offer accepted or rejected, as asked. An
/// answer from anyone else, or on an offer that is no longer pending, changes
/// nothing.
pub proof fn lemma_response_needs_seller_and_pending(
    before: Db,
    after: Db,
    offer_id: Seq<char>,
    seller_id: Seq<char>,
    accept: bool,
    took_effect: bool,
)
    requires
        before.wf(),
        responded(before, after, offer_id, seller_id, accept, took_effect),
    ensures
        took_effect ==> {
            &&& has_offer(before.offers@, offer_id)
            &&& offer_by_id(before.offers@, offer_id).status == OfferStatus::Pending
            &&& listing_by_id(
                before.listings@,
                offer_by_id(before.offers@, offer_id).listing_id@,
            ).seller_id@ == seller_id
            &&& has_offer(after.offers@, offer_id)
            &&& offer_by_id(after.offers@, offer_id) == with_status(
                offer_by_id(before.offers@, offer_id),
                answer(accept),
            )
        },
        !took_effect ==> after == before,
        has_offer(before.offers@, offer_id) && offer_by_id(
            before.offers@,
            offer_id,
        ).status.is_terminal() ==> !took_effect,
        has_offer(before.offers@, offer_id) && listing_by_id(
            before.listings@,
            offer_by_id(before.offers@, offer_id).listing_id@,
        ).seller_id@ != seller_id ==> !took_effect,
{
    if took_effect {
        let old_offers = before.offers@;
        let new_offers = after.offers@;
        let i = choose|i: int| 0 <= i < old_offers.len() && (#[trigger] old_offers[i]).id@ == offer_id;
        crate::db::lemma_offer_by_id(old_offers, i);
        assert(new_offers[i].id@ == offer_id);
        assert forall|a: int, b: int| 0 <= a < b < new_offers.len() implies (
        #[trigger] new_offers[a]).id@ != (#[trigger] new_offers[b]).id@ by {
            assert(old_offers[a].id@ != old_offers[b].id@);
        }
        crate::db::lemma_offer_by_id(new_offers, i);
    }
}

/// Once an answer to an offer has taken effect, no further answer to it does,
/// whoever gives it: the offer stays as the first answer left it.
pub proof fn lemma_second_response_fails(
    start: Db,
    middle: Db,
    end: Db,
    offer_id: Seq<char>,
    first_seller: Seq<char>,
    first_accept: bool,
    second_seller: Seq<char>,
    second_accept: bool,
    second_took_effect: bool,
)
    requires
        start.wf(),
        responded(start, middle, offer_id, first_seller, first_accept, true),
        responded(middle, end, offer_id, second_seller, second_accept, second_took_effect),
    ensures
        !second_took_effect,
        end == middle,
{
    lemma_response_needs_seller_and_pending(
        start,
        middle,
        offer_id,
        first_seller,
        first_accept,
        true,
    );
}

/// The offer is an accepted one of the conversation.
pub open spec fn is_accepted_in(offer: Offer, conversation_id: Seq<char>) -> bool {
    offer.status == OfferStatus::Accepted && offer.conversation_id@ == conversation_id
}

/// The payment instructions of the seller of the listing that an offer is for.
pub open spec fn payment_info_for(db: Db, offer: Offer) -> String {
    crate::db::user_by_id(
        db.users@,
        listing_by_id(db.listings@, offer.listing_id@).seller_id@,
    ).payment_info
}

/// The offer at `at` is the first accepted offer of the conversation.
pub open spec fn is_first_accepted(offers: Seq<Offer>, conversation_id: Seq<char>, at: int) -> bool {
    &&& 0 <= at < offers.len()
    &&& is_accepted_in(offers[at], conversation_id)
    &&& forall|k: int| 0 <= k < at ==> !is_accepted_in(#[trigger] offers[k], conversation_id)
}

/// The seller's payment instructions, as a conversation shows them to the
/// buyer: none while it has no accepted offer; then those of the seller of
/// the listing of its first accepted offer, unless they are empty.
pub open spec fn disclosed_payment_info(db: Db, conversation_id: Seq<char>) -> Option<String> {
    if exists|at: int| is_first_accepted(db.offers@, conversation_id, at) {
        let at = choose|at: int| is_first_accepted(db.offers@, conversation_id, at);
        let info = payment_info_for(db, db.offers@[at]);
        if info@.len() == 0 {
            None
        } else {
            Some(info)
        }
    } else {
        None
    }
}

/// The seller's payment instructions, as a conversation with an accepted
/// offer shows them to the buyer: those of the seller of the listing of the
/// first accepted offer of the conversation, unless they are empty.
pub fn accepted_payment_info(db: &Db, conversation_id: &str) -> (shown: Option<String>)
    requires
        db.wf(),
    ensures
        shown == disclosed_payment_info(*db, conversation_id@),
{
    let thread = conversation_id.to_owned();
    let mut i: usize = 0;
    while i < db.offers.len()
        invariant
            db.wf(),
            i <= db.offers@.len(),
            thread@ == conversation_id@,
            forall|k: int|
                0 <= k < i ==> !is_accepted_in(#[trigger] db.offers@[k], conversation_id@),
        decreases db.offers@.len() - i,
    {
        let accepted = match db.offers[i].status {
            OfferStatus::Accepted => true,
            _ => false,
        };
        if accepted && db.offers[i].conversation_id == thread {
            let listing = db.listing(db.offers[i].listing_id.as_str());
            let seller = db.user(listing.seller_id.as_str());
            let info = seller.payment_info.clone();
            assert(info == payment_info_for(*db, db.offers@[i as int]));
            proof {
                assert(is_first_accepted(db.offers@, conversation_id@, i as int));
                let chosen = choose|at: int| is_first_accepted(db.offers@, conversation_id@, at);
                if chosen < i {
                    assert(!is_accepted_in(db.offers@[chosen], conversation_id@));
                } else if chosen > i {
                    assert(!is_accepted_in(db.offers@[i as int], conversation_id@));
                }
            }
            if info.as_str().unicode_len() == 0 {
                return None;
            }
            return Some(info);
        }
        i += 1;
    }
    proof {
        assert forall|at: int| !is_first_accepted(db.offers@, conversation_id@, at) by {
            if 0 <= at < db.offers@.len() {
                assert(!is_accepted_in(db.offers@[at], conversation_id@));
            }
        }
    }
    None
}

/// An offer that is accepted, rejected or cancelled stays as it is: neither
/// a proposal nor an answer changes it, whatever their outcome.
pub proof fn lemma_terminal_offers_stay(
    before: Db,
    after: Db,
    at: int,
    id: Seq<char>,
    now: Timestamp,
    listing_id: Seq<char>,
    conversation_id: Seq<char>,
    buyer_id: Seq<char>,
    amount: Cents,
    outcome: Result<bool, DbError>,
    seller_id: Seq<char>,
    accept: bool,
    took_effect: bool,
)
    requires
        before.wf(),
        0 <= at < before.offers@.len(),
        before.offers@[at].status.is_terminal(),
        proposed(
            before,
            after,
            id,
            now,
            listing_id,
            conversation_id,
            buyer_id,
            amount,
            outcome,
        ) || responded(before, after, id, seller_id, accept, took_effect),
    ensures
        at < after.offers@.len(),
        after.offers@[at] == before.offers@[at],
{
    if proposed(before, after, id, now, listing_id, conversation_id, buyer_id, amount, outcome) {
        if outcome == Ok::<bool, DbError>(true) {
            lemma_proposal_replaces_pending(
                before,
                after,
                id,
                now,
                listing_id,
                conversation_id,
                buyer_id,
                amount,
            );
        }
    } else if took_effect {
        crate::db::lemma_offer_by_id(before.offers@, at);
    }
}

} // verus!

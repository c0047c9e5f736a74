//! The conversation registry: one thread for each listing and buyer.

use vstd::prelude::*;
use crate::db::messages::in_thread;
use crate::db::reads::{count_unread_in, is_party, unread_in};
use crate::db::{
    conversation_by_id, has_conversation, has_listing, has_thread, has_user,
    lemma_conversation_by_id, lemma_conversations_extend, listing_by_id, user_by_id, Db, DbError,
};
use crate::host::{current_timestamp, fresh_id};
use crate::models::{Conversation, ConversationRow, Timestamp};
use crate::order::{is_stable_order, stable_order};
use crate::seqs::{lemma_filter_empty, lemma_filter_last, lemma_filter_none, lemma_filter_take_step};

verus! {

/// The identifier of the thread about this listing with this buyer.
/// There is one such thread at most in a well-formed store.
pub open spec fn thread_id(
    conversations: Seq<ConversationRow>,
    listing_id: Seq<char>,
    buyer_id: Seq<char>,
) -> Seq<char> {
    let i = choose|i: int|
        0 <= i < conversations.len() && (#[trigger] conversations[i]).listing_id@ == listing_id
            && conversations[i].buyer_id@ == buyer_id;
    conversations[i].id@
}

/// `after` is `before` with one conversation more: the one described.
/// Every other table is as it was.
pub open spec fn conversation_added(
    before: Db,
    after: Db,
    id: Seq<char>,
    now: Timestamp,
    listing_id: Seq<char>,
    buyer_id: Seq<char>,
    seller_id: Seq<char>,
) -> bool {
    let added = after.conversations@.last();
    &&& after.conversations@.len() == before.conversations@.len() + 1
    &&& after.conversations@.drop_last() == before.conversations@
    &&& added.id@ == id
    &&& added.listing_id@ == listing_id
    &&& added.buyer_id@ == buyer_id
    &&& added.seller_id@ == seller_id
    &&& added.created_at == now
    &&& after.users == before.users
    &&& after.listings == before.listings
    &&& after.messages == before.messages
    &&& after.offers == before.offers
    &&& after.reads == before.reads
    &&& after.sessions == before.sessions
}

/// What finding or opening a thread does, given the identifier and the time
/// that a new thread would get.
///
/// Where the listing and the buyer already share a thread, that thread's
/// identifier comes back and nothing changes. Otherwise the thread is opened
/// under `fresh_id`, unless the listing, the buyer or the seller is unknown or
/// the identifier is taken; then nothing changes either.
pub open spec fn opened(
    before: Db,
    after: Db,
    fresh_id: Seq<char>,
    now: Timestamp,
    listing_id: Seq<char>,
    buyer_id: Seq<char>,
    seller_id: Seq<char>,
    outcome: Result<Seq<char>, DbError>,
) -> bool {
    if has_thread(before.conversations@, listing_id, buyer_id) {
        after == before && outcome == Ok::<Seq<char>, DbError>(
            thread_id(before.conversations@, listing_id, buyer_id),
        )
    } else if !has_listing(before.listings@, listing_id) {
        after == before && outcome == Err::<Seq<char>, DbError>(DbError::UnknownListing)
    } else if !has_user(before.users@, buyer_id) || !has_user(before.users@, seller_id) {
        after == before && outcome == Err::<Seq<char>, DbError>(DbError::UnknownUser)
    } else if has_conversation(before.conversations@, fresh_id) {
        after == before && outcome == Err::<Seq<char>, DbError>(DbError::DuplicateId)
    } else {
        outcome == Ok::<Seq<char>, DbError>(fresh_id) && conversation_added(
            before,
            after,
            fresh_id,
            now,
            listing_id,
            buyer_id,
            seller_id,
        )
    }
}

/// The views of the strings in an outcome.
pub open spec fn outcome_view(outcome: Result<String, DbError>) -> Result<Seq<char>, DbError> {
    match outcome {
        Ok(id) => Ok(id@),
        Err(e) => Err(e),
    }
}

/// Finds the thread about a listing with a buyer, or opens it under the given
/// identifier at the given time, with the seller as given.
pub fn open_conversation(
    db: &mut Db,
    fresh_id: String,
    now: Timestamp,
    listing_id: &str,
    buyer_id: &str,
    seller_id: &str,
) -> (outcome: Result<String, DbError>)
    requires
        old(db).wf(),
    ensures
        final(db).wf(),
        opened(
            *old(db),
            *final(db),
            fresh_id@,
            now,
            listing_id@,
            buyer_id@,
            seller_id@,
            outcome_view(outcome),
        ),
{
    match db.find_thread(listing_id, buyer_id) {
        Some(i) => {
            proof {
                let c = db.conversations@;
                let k = choose|k: int|
                    0 <= k < c.len() && (#[trigger] c[k]).listing_id@ == listing_id@
                        && c[k].buyer_id@ == buyer_id@;
                assert(k == i) by {
                    if k < i {
                        assert(!(c[k].listing_id@ == c[i as int].listing_id@ && c[k].buyer_id@
                            == c[i as int].buyer_id@));
                    } else if i < k {
                        assert(!(c[i as int].listing_id@ == c[k].listing_id@ && c[i as int].buyer_id@
                            == c[k].buyer_id@));
                    }
                }
            }
            return Ok(db.conversations[i].id.clone());
        },
        None => {},
    }
    if db.find_listing(listing_id).is_none() {
        return Err(DbError::UnknownListing);
    }
    if db.find_user(buyer_id).is_none() || db.find_user(seller_id).is_none() {
        return Err(DbError::UnknownUser);
    }
    if db.find_conversation(fresh_id.as_str()).is_some() {
        return Err(DbError::DuplicateId);
    }
    let id = fresh_id.clone();
    db.conversations.push(
        ConversationRow {
            id: fresh_id,
            listing_id: listing_id.to_owned(),
            buyer_id: buyer_id.to_owned(),
            seller_id: seller_id.to_owned(),
            created_at: now,
        },
    );
    proof {
        lemma_conversations_extend(old(db).conversations@, db.conversations@);
        assert(db.conversations@.drop_last() == old(db).conversations@);
    }
    Ok(id)
}

/// Finds the thread about a listing with a buyer, or opens it with a new
/// identifier at the current time. Calling it again for the same listing and
/// buyer gives the same thread.
pub fn get_or_create_conversation(
    db: &mut Db,
    listing_id: &str,
    buyer_id: &str,
    seller_id: &str,
) -> (outcome: Result<String, DbError>)
    requires
        old(db).wf(),
    ensures
        final(db).wf(),
        exists|fresh_id: Seq<char>, now: Timestamp|
            opened(
                *old(db),
                *final(db),
                fresh_id,
                now,
                listing_id@,
                buyer_id@,
                seller_id@,
                outcome_view(outcome),
            ),
{
    let id = fresh_id();
    let now = current_timestamp();
    let ghost fresh = id@;
    let outcome = open_conversation(db, id, now, listing_id, buyer_id, seller_id);
    assert(opened(
        *old(db),
        *db,
        fresh,
        now,
        listing_id@,
        buyer_id@,
        seller_id@,
        outcome_view(outcome),
    ));
    outcome
}

/// Exactly one conversation is about this listing with this buyer.
pub open spec fn one_thread(
    conversations: Seq<ConversationRow>,
    listing_id: Seq<char>,
    buyer_id: Seq<char>,
) -> bool {
    exists|i: int|
        0 <= i < conversations.len() && (#[trigger] conversations[i]).listing_id@ == listing_id
            && conversations[i].buyer_id@ == buyer_id && forall|j: int|
            0 <= j < conversations.len() && (#[trigger] conversations[j]).listing_id@ == listing_id
                && conversations[j].buyer_id@ == buyer_id ==> j == i
}

/// Finding or opening a thread twice for the same listing and buyer gives the
/// same identifier both times, whatever identifier, time and seller the second
/// call brings; the second call changes nothing, and the store then holds
/// exactly one conversation for the pair.
pub proof fn lemma_find_or_create_twice(
    start: Db,
    middle: Db,
    end: Db,
    listing_id: Seq<char>,
    buyer_id: Seq<char>,
    first_fresh: Seq<char>,
    first_now: Timestamp,
    first_seller: Seq<char>,
    first: Result<Seq<char>, DbError>,
    second_fresh: Seq<char>,
    second_now: Timestamp,
    second_seller: Seq<char>,
    second: Result<Seq<char>, DbError>,
)
    requires
        start.wf(),
        middle.wf(),
        opened(start, middle, first_fresh, first_now, listing_id, buyer_id, first_seller, first),
        opened(middle, end, second_fresh, second_now, listing_id, buyer_id, second_seller, second),
        first is Ok,
    ensures
        second == first,
        end == middle,
        one_thread(end.conversations@, listing_id, buyer_id),
{
    let c = middle.conversations@;
    if has_thread(start.conversations@, listing_id, buyer_id) {
        assert(middle == start);
    } else {
        let last = c.len() - 1;
        assert(c[last].listing_id@ == listing_id && c[last].buyer_id@ == buyer_id);
    }
    assert(has_thread(c, listing_id, buyer_id));
    let i = choose|i: int|
        0 <= i < c.len() && (#[trigger] c[i]).listing_id@ == listing_id && c[i].buyer_id@
            == buyer_id;
    assert forall|j: int|
        0 <= j < c.len() && (#[trigger] c[j]).listing_id@ == listing_id && c[j].buyer_id@
            == buyer_id implies j == i by {
        if j < i {
            assert(!(c[j].listing_id@ == c[i].listing_id@ && c[j].buyer_id@ == c[i].buyer_id@));
        } else if i < j {
            assert(!(c[i].listing_id@ == c[j].listing_id@ && c[i].buyer_id@ == c[j].buyer_id@));
        }
    }
    if !has_thread(start.conversations@, listing_id, buyer_id) {
        assert(i == c.len() - 1);
    }
}

/// The test for the conversations that a user is the buyer or the seller of.
pub open spec fn party_to(user_id: Seq<char>) -> spec_fn(ConversationRow) -> bool {
    |c: ConversationRow| is_party(c, user_id)
}

/// When a conversation was last active: when its latest message was written,
/// or when it was opened where it has no message yet.
pub open spec fn last_activity(db: Db, conversation: ConversationRow) -> Timestamp {
    let thread = db.messages@.filter(in_thread(conversation.id@));
    if thread.len() > 0 {
        thread.last().created_at
    } else {
        conversation.created_at
    }
}

/// `summary` is the conversation as it is handed out: the row, the title and
/// the image of its listing, the names of both parties, the content and the
/// time of its latest message (no content, and the time at which it was
/// opened, where it has none), and the given unread count.
pub open spec fn is_summary(
    db: Db,
    conversation: ConversationRow,
    unread: nat,
    summary: Conversation,
) -> bool {
    let thread = db.messages@.filter(in_thread(conversation.id@));
    let listing = listing_by_id(db.listings@, conversation.listing_id@);
    &&& summary.id == conversation.id
    &&& summary.listing_id == conversation.listing_id
    &&& summary.listing_title == listing.title
    &&& summary.listing_image == listing.image_url
    &&& summary.buyer_id == conversation.buyer_id
    &&& summary.buyer_name == user_by_id(db.users@, conversation.buyer_id@).name
    &&& summary.seller_id == conversation.seller_id
    &&& summary.seller_name == user_by_id(db.users@, conversation.seller_id@).name
    &&& summary.last_message@ == if thread.len() > 0 {
        thread.last().content@
    } else {
        Seq::<char>::empty()
    }
    &&& summary.last_message_at == last_activity(db, conversation)
    &&& summary.unread_count == unread
}

/// Where the latest message of a conversation is kept, if it has a message.
fn latest_message(db: &Db, conversation_id: &str) -> (found: Option<usize>)
    requires
        db.wf(),
    ensures
        match found {
            Some(at) => {
                let thread = db.messages@.filter(in_thread(conversation_id@));
                at < db.messages@.len() && thread.len() > 0 && thread.last()
                    == db.messages@[at as int]
            },
            None => db.messages@.filter(in_thread(conversation_id@)).len() == 0,
        },
{
    let key = conversation_id.to_owned();
    let mut at: usize = db.messages.len();
    while at > 0
        invariant
            at <= db.messages@.len(),
            key@ == conversation_id@,
            forall|k: int|
                at <= k < db.messages@.len() ==> !in_thread(conversation_id@)(
                    #[trigger] db.messages@[k],
                ),
        decreases at,
    {
        if db.messages[at - 1].conversation_id == key {
            proof {
                lemma_filter_last(db.messages@, in_thread(conversation_id@), at - 1);
            }
            return Some(at - 1);
        }
        at -= 1;
    }
    proof {
        lemma_filter_none(db.messages@, in_thread(conversation_id@));
    }
    None
}

/// Joins a conversation with its listing, its parties and its latest message.
fn summarize(db: &Db, conversation: &ConversationRow, unread: u64) -> (summary: Conversation)
    requires
        db.wf(),
        has_listing(db.listings@, conversation.listing_id@),
        has_user(db.users@, conversation.buyer_id@),
        has_user(db.users@, conversation.seller_id@),
    ensures
        is_summary(*db, *conversation, unread as nat, summary),
{
    let listing = db.listing(conversation.listing_id.as_str());
    let buyer = db.user(conversation.buyer_id.as_str());
    let seller = db.user(conversation.seller_id.as_str());
    let (last_message, last_message_at) = match latest_message(db, conversation.id.as_str()) {
        Some(at) => (db.messages[at].content.clone(), db.messages[at].created_at),
        None => (String::new(), conversation.created_at),
    };
    Conversation {
        id: conversation.id.clone(),
        listing_id: conversation.listing_id.clone(),
        listing_title: listing.title.clone(),
        listing_image: listing.image_url.clone(),
        buyer_id: conversation.buyer_id.clone(),
        buyer_name: buyer.name.clone(),
        seller_id: conversation.seller_id.clone(),
        seller_name: seller.name.clone(),
        last_message,
        last_message_at,
        unread_count: unread,
    }
}

/// The conversation with this identifier as it is handed out, with an unread
/// count of zero, if there is one. Whether the asker is a party to it is for
/// the caller to check.
pub fn get_conversation(db: &Db, id: &str) -> (found: Option<Conversation>)
    requires
        db.wf(),
    ensures
        match found {
            Some(summary) => has_conversation(db.conversations@, id@) && is_summary(
                *db,
                conversation_by_id(db.conversations@, id@),
                0,
                summary,
            ),
            None => !has_conversation(db.conversations@, id@),
        },
{
    match db.find_conversation(id) {
        Some(i) => {
            proof {
                lemma_conversation_by_id(db.conversations@, i as int);
            }
            Some(summarize(db, &db.conversations[i], 0))
        },
        None => None,
    }
}

/// The keys by which conversations are listed latest first: the negated
/// times of their last activity.
pub open spec fn recency_keys(db: Db, conversations: Seq<ConversationRow>) -> Seq<i128> {
    conversations.map_values(|c: ConversationRow| (-(last_activity(db, c) as int)) as i128)
}

/// `inbox` lists the conversations that the user is a party to, each as it
/// is handed out with the user's unread count in it, the one that was active
/// last first; conversations that were last active at the same time stand in
/// the order in which they were opened.
pub open spec fn is_inbox(db: Db, user_id: Seq<char>, inbox: Seq<Conversation>) -> bool {
    let mine = db.conversations@.filter(party_to(user_id));
    exists|order: Seq<usize>| #[trigger]
        is_stable_order(recency_keys(db, mine), order) && inbox.len() == mine.len() && forall|
            k: int,
        |
            0 <= k < inbox.len() ==> is_summary(
                db,
                mine[order[k] as int],
                unread_in(db, user_id, mine[order[k] as int].id@),
                #[trigger] inbox[k],
            )
}

/// The conversations that a user is a party to, the one that was active last
/// first, each with its latest message and the user's unread count.
pub fn get_user_conversations(db: &Db, user_id: &str) -> (inbox: Vec<Conversation>)
    requires
        db.wf(),
    ensures
        is_inbox(*db, user_id@, inbox@),
{
    let user = user_id.to_owned();
    let ghost keep = party_to(user_id@);
    let ghost mine = db.conversations@.filter(keep);
    let mut places: Vec<usize> = Vec::new();
    let mut keys: Vec<i128> = Vec::new();
    let mut i: usize = 0;
    proof {
        lemma_filter_empty(db.conversations@.take(0), keep);
    }
    while i < db.conversations.len()
        invariant
            db.wf(),
            i <= db.conversations@.len(),
            user@ == user_id@,
            keep == party_to(user_id@),
            places@.len() == keys@.len(),
            places@.len() == db.conversations@.take(i as int).filter(keep).len(),
            forall|k: int|
                0 <= k < places@.len() ==> (#[trigger] places@[k]) < i && db.conversations@[places@[k] as int]
                    == db.conversations@.take(i as int).filter(keep)[k],
            keys@ == recency_keys(*db, db.conversations@.take(i as int).filter(keep)),
        decreases db.conversations@.len() - i,
    {
        let row = &db.conversations[i];
        proof {
            lemma_filter_take_step(db.conversations@, keep, i as int);
        }
        if row.buyer_id == user || row.seller_id == user {
            let active = match latest_message(db, row.id.as_str()) {
                Some(at) => db.messages[at].created_at,
                None => row.created_at,
            };
            assert(active == last_activity(*db, *row));
            places.push(i);
            keys.push(-(active as i128));
            proof {
                let more = db.conversations@.take(i + 1).filter(keep);
                assert(keys@ =~= recency_keys(*db, more));
            }
        }
        i += 1;
    }
    proof {
        assert(db.conversations@.take(i as int) == db.conversations@);
    }
    let order = stable_order(&keys);
    let mut inbox: Vec<Conversation> = Vec::new();
    let mut k: usize = 0;
    while k < order.len()
        invariant
            db.wf(),
            k <= order@.len(),
            mine == db.conversations@.filter(party_to(user_id@)),
            is_stable_order(keys@, order@),
            keys@.len() == places@.len(),
            places@.len() == mine.len(),
            forall|j: int|
                0 <= j < places@.len() ==> (#[trigger] places@[j]) < db.conversations@.len()
                    && db.conversations@[places@[j] as int] == mine[j],
            inbox@.len() == k,
            forall|j: int|
                0 <= j < k ==> is_summary(
                    *db,
                    mine[order@[j] as int],
                    unread_in(*db, user_id@, mine[order@[j] as int].id@),
                    #[trigger] inbox@[j],
                ),
        decreases order@.len() - k,
    {
        let place = places[order[k]];
        let row = &db.conversations[place];
        let unread = count_unread_in(db, user_id, row.id.as_str());
        let summary = summarize(db, row, unread as u64);
        inbox.push(summary);
        k += 1;
    }
    proof {
        assert(is_stable_order(recency_keys(*db, mine), order@));
    }
    inbox
}

} // verus!

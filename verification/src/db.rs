//! The relational store: seven tables held in memory, the invariant that ties
//! them together, and the lookups by key that every query starts from.

use vstd::pervasive::unreached;
use vstd::prelude::*;
use crate::models::{
    ConversationRow, ListingRow, MessageRow, Offer, OfferStatus, ReadMarker, Session, User,
};

pub mod check;
pub mod conversations;
pub mod listings;
pub mod messages;
pub mod offers;
pub mod reads;
pub mod sessions;
pub mod users;

pub use self::conversations::{
    get_conversation, get_or_create_conversation, get_user_conversations, open_conversation,
};
pub use self::listings::{
    create_listing, delete_listing, get_categories, get_listing, get_listings,
    get_seller_listings, get_user_listings, insert_listing, select_listings, update_listing,
    update_listing_status,
};
pub use self::messages::{
    append_message, get_messages, get_messages_after, send_message, write_message,
};
pub use self::offers::{
    accepted_payment_info, can_respond, create_offer, get_offer, get_pending_offer,
    propose_offer, respond_to_offer,
};
pub use self::reads::{
    count_unread_in, get_unread_count, last_read, mark_conversation_read,
    mark_conversation_read_at,
};
pub use self::sessions::{
    create_session, delete_session, get_session_user, get_session_user_at, insert_session,
};
pub use self::users::{
    create_user, get_user_by_email, get_user_by_id, insert_user, update_user_profile,
};

verus! {

/// Why the store refused a write. Nothing is changed when one is returned.
#[derive(Clone, Copy, Debug, PartialEq, Eq, Structural)]
pub enum DbError {
    /// The identifier drawn for a new row is already taken in its table.
    DuplicateId,
    /// Another user is registered under the email address.
    DuplicateEmail,
    /// No user has the identifier that the row refers to.
    UnknownUser,
    /// No listing has the identifier that the row refers to.
    UnknownListing,
    /// No conversation has the identifier that the row refers to.
    UnknownConversation,
}

/// The whole store. Rows are kept in the order in which they were written,
/// except messages, which are kept in the order of their timestamps.
pub struct Db {
    pub users: Vec<User>,
    pub listings: Vec<ListingRow>,
    pub conversations: Vec<ConversationRow>,
    pub messages: Vec<MessageRow>,
    pub offers: Vec<Offer>,
    pub reads: Vec<ReadMarker>,
    pub sessions: Vec<Session>,
}

pub open spec fn has_user(users: Seq<User>, id: Seq<char>) -> bool {
    exists|i: int| 0 <= i < users.len() && (#[trigger] users[i]).id@ == id
}

pub open spec fn has_email(users: Seq<User>, email: Seq<char>) -> bool {
    exists|i: int| 0 <= i < users.len() && (#[trigger] users[i]).email@ == email
}

pub open spec fn has_listing(listings: Seq<ListingRow>, id: Seq<char>) -> bool {
    exists|i: int| 0 <= i < listings.len() && (#[trigger] listings[i]).id@ == id
}

pub open spec fn has_conversation(conversations: Seq<ConversationRow>, id: Seq<char>) -> bool {
    exists|i: int| 0 <= i < conversations.len() && (#[trigger] conversations[i]).id@ == id
}

pub open spec fn has_message(messages: Seq<MessageRow>, id: Seq<char>) -> bool {
    exists|i: int| 0 <= i < messages.len() && (#[trigger] messages[i]).id@ == id
}

pub open spec fn has_offer(offers: Seq<Offer>, id: Seq<char>) -> bool {
    exists|i: int| 0 <= i < offers.len() && (#[trigger] offers[i]).id@ == id
}

pub open spec fn has_session(sessions: Seq<Session>, id: Seq<char>) -> bool {
    exists|i: int| 0 <= i < sessions.len() && (#[trigger] sessions[i]).id@ == id
}

/// Some conversation is about this listing with this buyer.
pub open spec fn has_thread(
    conversations: Seq<ConversationRow>,
    listing_id: Seq<char>,
    buyer_id: Seq<char>,
) -> bool {
    exists|i: int|
        0 <= i < conversations.len() && (#[trigger] conversations[i]).listing_id@ == listing_id
            && conversations[i].buyer_id@ == buyer_id
}

/// The user has a read marker for the conversation.
pub open spec fn has_read_marker(
    reads: Seq<ReadMarker>,
    user_id: Seq<char>,
    conversation_id: Seq<char>,
) -> bool {
    exists|i: int|
        0 <= i < reads.len() && (#[trigger] reads[i]).user_id@ == user_id
            && reads[i].conversation_id@ == conversation_id
}

/// The offer awaits an answer and is this buyer's on this listing.
pub open spec fn is_pending_for(offer: Offer, listing_id: Seq<char>, buyer_id: Seq<char>) -> bool {
    offer.status == OfferStatus::Pending && offer.listing_id@ == listing_id && offer.buyer_id@
        == buyer_id
}

pub open spec fn users_wf(users: Seq<User>) -> bool {
    forall|i: int, j: int|
        0 <= i < j < users.len() ==> (#[trigger] users[i]).id@ != (#[trigger] users[j]).id@
            && users[i].email@ != users[j].email@
}

pub open spec fn listings_wf(listings: Seq<ListingRow>, users: Seq<User>) -> bool {
    &&& forall|i: int, j: int|
        0 <= i < j < listings.len() ==> (#[trigger] listings[i]).id@ != (#[trigger] listings[j]).id@
    &&& forall|i: int|
        0 <= i < listings.len() ==> has_user(users, (#[trigger] listings[i]).seller_id@)
}

pub open spec fn conversations_wf(
    conversations: Seq<ConversationRow>,
    listings: Seq<ListingRow>,
    users: Seq<User>,
) -> bool {
    &&& forall|i: int, j: int|
        0 <= i < j < conversations.len() ==> (#[trigger] conversations[i]).id@ != (
        #[trigger] conversations[j]).id@
    &&& forall|i: int, j: int|
        0 <= i < j < conversations.len() ==> !((#[trigger] conversations[i]).listing_id@ == (
        #[trigger] conversations[j]).listing_id@ && conversations[i].buyer_id@
            == conversations[j].buyer_id@)
    &&& forall|i: int|
        0 <= i < conversations.len() ==> {
            &&& has_listing(listings, (#[trigger] conversations[i]).listing_id@)
            &&& has_user(users, conversations[i].buyer_id@)
            &&& has_user(users, conversations[i].seller_id@)
        }
}

/// Timestamps never fall from one message to the next.
pub open spec fn in_time_order(messages: Seq<MessageRow>) -> bool {
    forall|i: int, j: int|
        0 <= i <= j < messages.len() ==> (#[trigger] messages[i]).created_at <= (
        #[trigger] messages[j]).created_at
}

pub open spec fn messages_wf(
    messages: Seq<MessageRow>,
    conversations: Seq<ConversationRow>,
    users: Seq<User>,
) -> bool {
    &&& forall|i: int, j: int|
        0 <= i < j < messages.len() ==> (#[trigger] messages[i]).id@ != (#[trigger] messages[j]).id@
    &&& forall|i: int|
        0 <= i < messages.len() ==> {
            &&& has_conversation(conversations, (#[trigger] messages[i]).conversation_id@)
            &&& has_user(users, messages[i].sender_id@)
        }
    &&& in_time_order(messages)
}

/// No two offers await an answer for the same listing and buyer.
pub open spec fn single_pending(offers: Seq<Offer>) -> bool {
    forall|i: int, j: int|
        0 <= i < j < offers.len() && (#[trigger] offers[i]).status == OfferStatus::Pending && (
        #[trigger] offers[j]).status == OfferStatus::Pending ==> !(offers[i].listing_id@
            == offers[j].listing_id@ && offers[i].buyer_id@ == offers[j].buyer_id@)
}

pub open spec fn offers_wf(
    offers: Seq<Offer>,
    conversations: Seq<ConversationRow>,
    listings: Seq<ListingRow>,
    users: Seq<User>,
) -> bool {
    &&& forall|i: int, j: int|
        0 <= i < j < offers.len() ==> (#[trigger] offers[i]).id@ != (#[trigger] offers[j]).id@
    &&& forall|i: int|
        0 <= i < offers.len() ==> {
            &&& has_listing(listings, (#[trigger] offers[i]).listing_id@)
            &&& has_conversation(conversations, offers[i].conversation_id@)
            &&& has_user(users, offers[i].buyer_id@)
            &&& offers[i].amount > 0
        }
    &&& single_pending(offers)
}

pub open spec fn reads_wf(
    reads: Seq<ReadMarker>,
    conversations: Seq<ConversationRow>,
    users: Seq<User>,
) -> bool {
    &&& forall|i: int, j: int|
        0 <= i < j < reads.len() ==> !((#[trigger] reads[i]).user_id@ == (
        #[trigger] reads[j]).user_id@ && reads[i].conversation_id@ == reads[j].conversation_id@)
    &&& forall|i: int|
        0 <= i < reads.len() ==> {
            &&& has_user(users, (#[trigger] reads[i]).user_id@)
            &&& has_conversation(conversations, reads[i].conversation_id@)
        }
}

pub open spec fn sessions_wf(sessions: Seq<Session>, users: Seq<User>) -> bool {
    &&& forall|i: int, j: int|
        0 <= i < j < sessions.len() ==> (#[trigger] sessions[i]).id@ != (#[trigger] sessions[j]).id@
    &&& forall|i: int|
        0 <= i < sessions.len() ==> has_user(users, (#[trigger] sessions[i]).user_id@)
}

/// Every earlier user is still there once rows were added at the end.
pub proof fn lemma_users_extend(before: Seq<User>, after: Seq<User>)
    requires
        before.len() <= after.len(),
        forall|i: int| 0 <= i < before.len() ==> (#[trigger] after[i]).id@ == before[i].id@,
    ensures
        forall|id: Seq<char>| has_user(before, id) ==> has_user(after, id),
{
    assert forall|id: Seq<char>| has_user(before, id) implies has_user(after, id) by {
        let i = choose|i: int| 0 <= i < before.len() && (#[trigger] before[i]).id@ == id;
        assert(after[i].id@ == id);
    }
}

/// Every earlier listing is still there once rows were added at the end.
pub proof fn lemma_listings_extend(before: Seq<ListingRow>, after: Seq<ListingRow>)
    requires
        before.len() <= after.len(),
        forall|i: int| 0 <= i < before.len() ==> (#[trigger] after[i]).id@ == before[i].id@,
    ensures
        forall|id: Seq<char>| has_listing(before, id) ==> has_listing(after, id),
{
    assert forall|id: Seq<char>| has_listing(before, id) implies has_listing(after, id) by {
        let i = choose|i: int| 0 <= i < before.len() && (#[trigger] before[i]).id@ == id;
        assert(after[i].id@ == id);
    }
}

/// Every earlier conversation is still there once rows were added at the end.
pub proof fn lemma_conversations_extend(before: Seq<ConversationRow>, after: Seq<ConversationRow>)
    requires
        before.len() <= after.len(),
        forall|i: int| 0 <= i < before.len() ==> (#[trigger] after[i]).id@ == before[i].id@,
    ensures
        forall|id: Seq<char>| has_conversation(before, id) ==> has_conversation(after, id),
{
    assert forall|id: Seq<char>| has_conversation(before, id) implies has_conversation(
        after,
        id,
    ) by {
        let i = choose|i: int| 0 <= i < before.len() && (#[trigger] before[i]).id@ == id;
        assert(after[i].id@ == id);
    }
}

/// The user with this identifier.
pub open spec fn user_by_id(users: Seq<User>, id: Seq<char>) -> User {
    users[choose|i: int| 0 <= i < users.len() && (#[trigger] users[i]).id@ == id]
}

/// Identifiers are unique, so the user with a row's identifier is that row.
pub proof fn lemma_user_by_id(users: Seq<User>, i: int)
    requires
        forall|a: int, b: int|
            0 <= a < b < users.len() ==> (#[trigger] users[a]).id@ != (#[trigger] users[b]).id@,
        0 <= i < users.len(),
    ensures
        user_by_id(users, users[i].id@) == users[i],
{
    let k = choose|k: int| 0 <= k < users.len() && (#[trigger] users[k]).id@ == users[i].id@;
    if k < i {
        assert(users[k].id@ != users[i].id@);
    } else if i < k {
        assert(users[i].id@ != users[k].id@);
    }
}

/// The listing with this identifier.
pub open spec fn listing_by_id(listings: Seq<ListingRow>, id: Seq<char>) -> ListingRow {
    listings[choose|i: int| 0 <= i < listings.len() && (#[trigger] listings[i]).id@ == id]
}

/// Identifiers are unique, so the listing with a row's identifier is that row.
pub proof fn lemma_listing_by_id(listings: Seq<ListingRow>, i: int)
    requires
        forall|a: int, b: int|
            0 <= a < b < listings.len() ==> (#[trigger] listings[a]).id@ != (#[trigger] listings[b]).id@,
        0 <= i < listings.len(),
    ensures
        listing_by_id(listings, listings[i].id@) == listings[i],
{
    let k = choose|k: int| 0 <= k < listings.len() && (#[trigger] listings[k]).id@ == listings[i].id@;
    if k < i {
        assert(listings[k].id@ != listings[i].id@);
    } else if i < k {
        assert(listings[i].id@ != listings[k].id@);
    }
}

/// The conversation with this identifier.
pub open spec fn conversation_by_id(conversations: Seq<ConversationRow>, id: Seq<char>) -> ConversationRow {
    conversations[choose|i: int| 0 <= i < conversations.len() && (#[trigger] conversations[i]).id@ == id]
}

/// Identifiers are unique, so the conversation with a row's identifier is that row.
pub proof fn lemma_conversation_by_id(conversations: Seq<ConversationRow>, i: int)
    requires
        forall|a: int, b: int|
            0 <= a < b < conversations.len() ==> (#[trigger] conversations[a]).id@ != (#[trigger] conversations[b]).id@,
        0 <= i < conversations.len(),
    ensures
        conversation_by_id(conversations, conversations[i].id@) == conversations[i],
{
    let k = choose|k: int| 0 <= k < conversations.len() && (#[trigger] conversations[k]).id@ == conversations[i].id@;
    if k < i {
        assert(conversations[k].id@ != conversations[i].id@);
    } else if i < k {
        assert(conversations[i].id@ != conversations[k].id@);
    }
}

/// The message with this identifier.
pub open spec fn message_by_id(messages: Seq<MessageRow>, id: Seq<char>) -> MessageRow {
    messages[choose|i: int| 0 <= i < messages.len() && (#[trigger] messages[i]).id@ == id]
}

/// Identifiers are unique, so the message with a row's identifier is that row.
pub proof fn lemma_message_by_id(messages: Seq<MessageRow>, i: int)
    requires
        forall|a: int, b: int|
            0 <= a < b < messages.len() ==> (#[trigger] messages[a]).id@ != (#[trigger] messages[b]).id@,
        0 <= i < messages.len(),
    ensures
        message_by_id(messages, messages[i].id@) == messages[i],
{
    let k = choose|k: int| 0 <= k < messages.len() && (#[trigger] messages[k]).id@ == messages[i].id@;
    if k < i {
        assert(messages[k].id@ != messages[i].id@);
    } else if i < k {
        assert(messages[i].id@ != messages[k].id@);
    }
}

/// The offer with this identifier.
pub open spec fn offer_by_id(offers: Seq<Offer>, id: Seq<char>) -> Offer {
    offers[choose|i: int| 0 <= i < offers.len() && (#[trigger] offers[i]).id@ == id]
}

/// Identifiers are unique, so the offer with a row's identifier is that row.
pub proof fn lemma_offer_by_id(offers: Seq<Offer>, i: int)
    requires
        forall|a: int, b: int|
            0 <= a < b < offers.len() ==> (#[trigger] offers[a]).id@ != (#[trigger] offers[b]).id@,
        0 <= i < offers.len(),
    ensures
        offer_by_id(offers, offers[i].id@) == offers[i],
{
    let k = choose|k: int| 0 <= k < offers.len() && (#[trigger] offers[k]).id@ == offers[i].id@;
    if k < i {
        assert(offers[k].id@ != offers[i].id@);
    } else if i < k {
        assert(offers[i].id@ != offers[k].id@);
    }
}

/// The session with this identifier.
pub open spec fn session_by_id(sessions: Seq<Session>, id: Seq<char>) -> Session {
    sessions[choose|i: int| 0 <= i < sessions.len() && (#[trigger] sessions[i]).id@ == id]
}

/// Identifiers are unique, so the session with a row's identifier is that row.
pub proof fn lemma_session_by_id(sessions: Seq<Session>, i: int)
    requires
        forall|a: int, b: int|
            0 <= a < b < sessions.len() ==> (#[trigger] sessions[a]).id@ != (#[trigger] sessions[b]).id@,
        0 <= i < sessions.len(),
    ensures
        session_by_id(sessions, sessions[i].id@) == sessions[i],
{
    let k = choose|k: int| 0 <= k < sessions.len() && (#[trigger] sessions[k]).id@ == sessions[i].id@;
    if k < i {
        assert(sessions[k].id@ != sessions[i].id@);
    } else if i < k {
        assert(sessions[i].id@ != sessions[k].id@);
    }
}

impl Db {
    /// The invariant of the store: keys are unique, every reference resolves,
    /// a listing and a buyer share at most one conversation and at most one
    /// pending offer, and the ledger is in time order.
    pub open spec fn wf(&self) -> bool {
        &&& users_wf(self.users@)
        &&& listings_wf(self.listings@, self.users@)
        &&& conversations_wf(self.conversations@, self.listings@, self.users@)
        &&& messages_wf(self.messages@, self.conversations@, self.users@)
        &&& offers_wf(self.offers@, self.conversations@, self.listings@, self.users@)
        &&& reads_wf(self.reads@, self.conversations@, self.users@)
        &&& sessions_wf(self.sessions@, self.users@)
    }

    /// A store with no rows.
    pub fn new() -> (db: Db)
        ensures
            db.wf(),
            db.users@.len() == 0,
            db.listings@.len() == 0,
            db.conversations@.len() == 0,
            db.messages@.len() == 0,
            db.offers@.len() == 0,
            db.reads@.len() == 0,
            db.sessions@.len() == 0,
    {
        Db {
            users: Vec::new(),
            listings: Vec::new(),
            conversations: Vec::new(),
            messages: Vec::new(),
            offers: Vec::new(),
            reads: Vec::new(),
            sessions: Vec::new(),
        }
    }

    /// Where the user with this identifier is kept.
    pub fn find_user(&self, id: &str) -> (found: Option<usize>)
        ensures
            match found {
                Some(i) => i < self.users@.len() && self.users@[i as int].id@ == id@ && forall|
                    k: int,
                | 0 <= k < i ==> (#[trigger] self.users@[k]).id@ != id@,
                None => !has_user(self.users@, id@),
            },
    {
        let key = id.to_owned();
        let mut i: usize = 0;
        while i < self.users.len()
            invariant
                i <= self.users@.len(),
                key@ == id@,
                forall|k: int| 0 <= k < i ==> (#[trigger] self.users@[k]).id@ != id@,
            decreases self.users@.len() - i,
        {
            if self.users[i].id == key {
                return Some(i);
            }
            i += 1;
        }
        None
    }

    /// Where the user registered under this email address is kept.
    pub fn find_email(&self, email: &str) -> (found: Option<usize>)
        ensures
            match found {
                Some(i) => i < self.users@.len() && self.users@[i as int].email@ == email@ && forall|
                    k: int,
                | 0 <= k < i ==> (#[trigger] self.users@[k]).email@ != email@,
                None => !has_email(self.users@, email@),
            },
    {
        let key = email.to_owned();
        let mut i: usize = 0;
        while i < self.users.len()
            invariant
                i <= self.users@.len(),
                key@ == email@,
                forall|k: int| 0 <= k < i ==> (#[trigger] self.users@[k]).email@ != email@,
            decreases self.users@.len() - i,
        {
            if self.users[i].email == key {
                return Some(i);
            }
            i += 1;
        }
        None
    }

    /// Where the listing with this identifier is kept.
    pub fn find_listing(&self, id: &str) -> (found: Option<usize>)
        ensures
            match found {
                Some(i) => i < self.listings@.len() && self.listings@[i as int].id@ == id@ && forall|
                    k: int,
                | 0 <= k < i ==> (#[trigger] self.listings@[k]).id@ != id@,
                None => !has_listing(self.listings@, id@),
            },
    {
        let key = id.to_owned();
        let mut i: usize = 0;
        while i < self.listings.len()
            invariant
                i <= self.listings@.len(),
                key@ == id@,
                forall|k: int| 0 <= k < i ==> (#[trigger] self.listings@[k]).id@ != id@,
            decreases self.listings@.len() - i,
        {
            if self.listings[i].id == key {
                return Some(i);
            }
            i += 1;
        }
        None
    }

    /// Where the conversation with this identifier is kept.
    pub fn find_conversation(&self, id: &str) -> (found: Option<usize>)
        ensures
            match found {
                Some(i) => i < self.conversations@.len() && self.conversations@[i as int].id@ == id@ && forall|
                    k: int,
                | 0 <= k < i ==> (#[trigger] self.conversations@[k]).id@ != id@,
                None => !has_conversation(self.conversations@, id@),
            },
    {
        let key = id.to_owned();
        let mut i: usize = 0;
        while i < self.conversations.len()
            invariant
                i <= self.conversations@.len(),
                key@ == id@,
                forall|k: int| 0 <= k < i ==> (#[trigger] self.conversations@[k]).id@ != id@,
            decreases self.conversations@.len() - i,
        {
            if self.conversations[i].id == key {
                return Some(i);
            }
            i += 1;
        }
        None
    }

    /// Where the message with this identifier is kept.
    pub fn find_message(&self, id: &str) -> (found: Option<usize>)
        ensures
            match found {
                Some(i) => i < self.messages@.len() && self.messages@[i as int].id@ == id@ && forall|
                    k: int,
                | 0 <= k < i ==> (#[trigger] self.messages@[k]).id@ != id@,
                None => !has_message(self.messages@, id@),
            },
    {
        let key = id.to_owned();
        let mut i: usize = 0;
        while i < self.messages.len()
            invariant
                i <= self.messages@.len(),
                key@ == id@,
                forall|k: int| 0 <= k < i ==> (#[trigger] self.messages@[k]).id@ != id@,
            decreases self.messages@.len() - i,
        {
            if self.messages[i].id == key {
                return Some(i);
            }
            i += 1;
        }
        None
    }

    /// Where the offer with this identifier is kept.
    pub fn find_offer(&self, id: &str) -> (found: Option<usize>)
        ensures
            match found {
                Some(i) => i < self.offers@.len() && self.offers@[i as int].id@ == id@ && forall|
                    k: int,
                | 0 <= k < i ==> (#[trigger] self.offers@[k]).id@ != id@,
                None => !has_offer(self.offers@, id@),
            },
    {
        let key = id.to_owned();
        let mut i: usize = 0;
        while i < self.offers.len()
            invariant
                i <= self.offers@.len(),
                key@ == id@,
                forall|k: int| 0 <= k < i ==> (#[trigger] self.offers@[k]).id@ != id@,
            decreases self.offers@.len() - i,
        {
            if self.offers[i].id == key {
                return Some(i);
            }
            i += 1;
        }
        None
    }

    /// Where the session with this token is kept.
    pub fn find_session(&self, id: &str) -> (found: Option<usize>)
        ensures
            match found {
                Some(i) => i < self.sessions@.len() && self.sessions@[i as int].id@ == id@ && forall|
                    k: int,
                | 0 <= k < i ==> (#[trigger] self.sessions@[k]).id@ != id@,
                None => !has_session(self.sessions@, id@),
            },
    {
        let key = id.to_owned();
        let mut i: usize = 0;
        while i < self.sessions.len()
            invariant
                i <= self.sessions@.len(),
                key@ == id@,
                forall|k: int| 0 <= k < i ==> (#[trigger] self.sessions@[k]).id@ != id@,
            decreases self.sessions@.len() - i,
        {
            if self.sessions[i].id == key {
                return Some(i);
            }
            i += 1;
        }
        None
    }

    /// Where the conversation about this listing with this buyer is kept.
    pub fn find_thread(&self, listing_id: &str, buyer_id: &str) -> (found: Option<usize>)
        ensures
            match found {
                Some(i) => i < self.conversations@.len() && self.conversations@[i as int].listing_id@ == listing_id@
                    && self.conversations@[i as int].buyer_id@ == buyer_id@ && forall|k: int|
                    0 <= k < i ==> !((#[trigger] self.conversations@[k]).listing_id@ == listing_id@
                        && self.conversations@[k].buyer_id@ == buyer_id@),
                None => !has_thread(self.conversations@, listing_id@, buyer_id@),
            },
    {
        let first = listing_id.to_owned();
        let second = buyer_id.to_owned();
        let mut i: usize = 0;
        while i < self.conversations.len()
            invariant
                i <= self.conversations@.len(),
                first@ == listing_id@,
                second@ == buyer_id@,
                forall|k: int|
                    0 <= k < i ==> !((#[trigger] self.conversations@[k]).listing_id@ == listing_id@
                        && self.conversations@[k].buyer_id@ == buyer_id@),
            decreases self.conversations@.len() - i,
        {
            if self.conversations[i].listing_id == first && self.conversations[i].buyer_id == second {
                return Some(i);
            }
            i += 1;
        }
        None
    }

    /// Where this user's read marker for this conversation is kept.
    pub fn find_read_marker(&self, user_id: &str, conversation_id: &str) -> (found: Option<usize>)
        ensures
            match found {
                Some(i) => i < self.reads@.len() && self.reads@[i as int].user_id@ == user_id@
                    && self.reads@[i as int].conversation_id@ == conversation_id@ && forall|k: int|
                    0 <= k < i ==> !((#[trigger] self.reads@[k]).user_id@ == user_id@
                        && self.reads@[k].conversation_id@ == conversation_id@),
                None => !has_read_marker(self.reads@, user_id@, conversation_id@),
            },
    {
        let first = user_id.to_owned();
        let second = conversation_id.to_owned();
        let mut i: usize = 0;
        while i < self.reads.len()
            invariant
                i <= self.reads@.len(),
                first@ == user_id@,
                second@ == conversation_id@,
                forall|k: int|
                    0 <= k < i ==> !((#[trigger] self.reads@[k]).user_id@ == user_id@
                        && self.reads@[k].conversation_id@ == conversation_id@),
            decreases self.reads@.len() - i,
        {
            if self.reads[i].user_id == first && self.reads[i].conversation_id == second {
                return Some(i);
            }
            i += 1;
        }
        None
    }
    /// The user with this identifier, which must exist.
    pub fn user(&self, id: &str) -> (row: &User)
        requires
            self.wf(),
            has_user(self.users@, id@),
        ensures
            *row == user_by_id(self.users@, id@),
            row.id@ == id@,
    {
        match self.find_user(id) {
            Some(i) => {
                proof {
                    lemma_user_by_id(self.users@, i as int);
                }
                &self.users[i]
            },
            None => unreached(),
        }
    }

    /// The listing with this identifier, which must exist.
    pub fn listing(&self, id: &str) -> (row: &ListingRow)
        requires
            self.wf(),
            has_listing(self.listings@, id@),
        ensures
            *row == listing_by_id(self.listings@, id@),
            row.id@ == id@,
    {
        match self.find_listing(id) {
            Some(i) => {
                proof {
                    lemma_listing_by_id(self.listings@, i as int);
                }
                &self.listings[i]
            },
            None => unreached(),
        }
    }

    /// The conversation with this identifier, which must exist.
    pub fn conversation(&self, id: &str) -> (row: &ConversationRow)
        requires
            self.wf(),
            has_conversation(self.conversations@, id@),
        ensures
            *row == conversation_by_id(self.conversations@, id@),
            row.id@ == id@,
    {
        match self.find_conversation(id) {
            Some(i) => {
                proof {
                    lemma_conversation_by_id(self.conversations@, i as int);
                }
                &self.conversations[i]
            },
            None => unreached(),
        }
    }

    /// The message with this identifier, which must exist.
    pub fn message(&self, id: &str) -> (row: &MessageRow)
        requires
            self.wf(),
            has_message(self.messages@, id@),
        ensures
            *row == message_by_id(self.messages@, id@),
            row.id@ == id@,
    {
        match self.find_message(id) {
            Some(i) => {
                proof {
                    lemma_message_by_id(self.messages@, i as int);
                }
                &self.messages[i]
            },
            None => unreached(),
        }
    }

    /// The offer with this identifier, which must exist.
    pub fn offer(&self, id: &str) -> (row: &Offer)
        requires
            self.wf(),
            has_offer(self.offers@, id@),
        ensures
            *row == offer_by_id(self.offers@, id@),
            row.id@ == id@,
    {
        match self.find_offer(id) {
            Some(i) => {
                proof {
                    lemma_offer_by_id(self.offers@, i as int);
                }
                &self.offers[i]
            },
            None => unreached(),
        }
    }

    /// The session with this identifier, which must exist.
    pub fn session(&self, id: &str) -> (row: &Session)
        requires
            self.wf(),
            has_session(self.sessions@, id@),
        ensures
            *row == session_by_id(self.sessions@, id@),
            row.id@ == id@,
    {
        match self.find_session(id) {
            Some(i) => {
                proof {
                    lemma_session_by_id(self.sessions@, i as int);
                }
                &self.sessions[i]
            },
            None => unreached(),
        }
    }
}

} // verus!

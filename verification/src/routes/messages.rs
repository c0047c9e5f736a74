//! The inbox, a conversation's page, and what is posted to a conversation:
//! messages, offers and answers to offers.

use vstd::prelude::*;
use vstd::string::{StrSliceExecFns, StringExecFns};
use crate::db::conversations::{
    get_conversation, get_user_conversations, is_inbox, is_summary, open_conversation, opened,
};
use crate::db::listings::{found_listing, get_listing};
use crate::db::messages::{
    append_message, appended, get_messages, get_messages_after, messages_after, thread_messages,
    write_message, written,
};
use crate::db::offers::{
    accepted_payment_info, can_respond, disclosed_payment_info, get_pending_offer, latest_pending,
    may_respond, propose_offer, proposed, respond_to_offer, responded,
};
use crate::db::reads::{
    get_unread_count, is_party, mark_conversation_read_at, marked_read, unread_total,
};
use crate::db::{
    conversation_by_id, has_conversation, has_listing, has_message, has_offer,
    lemma_conversation_by_id, listing_by_id, Db, DbError,
};
use crate::host::{current_timestamp, fresh_id};
use crate::models::{
    Conversation, Listing, MakeOfferForm, Message, Offer, PollQuery, SendMessageForm, Timestamp,
    User,
};
use crate::text::{
    age_text, escaped, offered_amount, parse_offer_amount, price_text, push_escaped, push_price,
    time_ago_at, trimmed,
};

verus! {

/// What the inbox shows: the user's conversations, how long ago each was
/// last active, and how many messages the user has not read.
#[derive(Debug, PartialEq, Eq)]
pub struct InboxPage {
    pub conversations: Vec<Conversation>,
    pub ages: Vec<String>,
    pub unread_count: u64,
}

/// The answer to a request for the inbox.
#[derive(Debug, PartialEq, Eq)]
pub enum InboxReply {
    /// Nobody is logged in: to the login page.
    Login,
    /// The inbox.
    Page(InboxPage),
}

/// `ages` tells for each conversation how long before `now` it was last
/// active.
pub open spec fn are_ages(now: Timestamp, conversations: Seq<Conversation>, ages: Seq<String>) -> bool {
    &&& ages.len() == conversations.len()
    &&& forall|k: int|
        0 <= k < ages.len() ==> (#[trigger] ages[k])@ == age_text(
            now,
            conversations[k].last_message_at,
        )
}

/// The inbox of a user at a time.
pub open spec fn is_inbox_page(db: Db, now: Timestamp, user: User, page: InboxPage) -> bool {
    &&& is_inbox(db, user.id@, page.conversations@)
    &&& are_ages(now, page.conversations@, page.ages@)
    &&& page.unread_count == unread_total(db, user.id@)
}

/// The inbox of whoever is logged in, at the given time.
pub fn inbox_at(db: &Db, now: Timestamp, actor: &Option<User>) -> (reply: InboxReply)
    requires
        db.wf(),
    ensures
        match *actor {
            Some(user) => reply matches InboxReply::Page(page) && is_inbox_page(
                *db,
                now,
                user,
                page,
            ),
            None => reply is Login,
        },
{
    let user = match actor {
        Some(user) => user,
        None => {
            return InboxReply::Login;
        },
    };
    let conversations = get_user_conversations(db, user.id.as_str());
    let unread_count = get_unread_count(db, user.id.as_str());
    let mut ages: Vec<String> = Vec::new();
    let mut k: usize = 0;
    while k < conversations.len()
        invariant
            k <= conversations@.len(),
            ages@.len() == k,
            forall|j: int|
                0 <= j < k ==> (#[trigger] ages@[j])@ == age_text(
                    now,
                    conversations@[j].last_message_at,
                ),
        decreases conversations@.len() - k,
    {
        ages.push(time_ago_at(now, conversations[k].last_message_at));
        k += 1;
    }
    InboxReply::Page(InboxPage { conversations, ages, unread_count })
}

/// The inbox of whoever is logged in, now.
pub fn inbox(db: &Db, actor: &Option<User>) -> (reply: InboxReply)
    requires
        db.wf(),
    ensures
        match *actor {
            Some(user) => reply matches InboxReply::Page(page) && exists|now: Timestamp|
                is_inbox_page(*db, now, user, page),
            None => reply is Login,
        },
{
    let now = current_timestamp();
    let reply = inbox_at(db, now, actor);
    match (actor, &reply) {
        (Some(user), InboxReply::Page(page)) => {
            assert(is_inbox_page(*db, now, *user, *page));
        },
        _ => {},
    }
    reply
}

/// The user may see the conversation and post to it: it exists, and the
/// user is its buyer or its seller.
pub open spec fn may_view(db: Db, user_id: Seq<char>, conversation_id: Seq<char>) -> bool {
    has_conversation(db.conversations@, conversation_id) && is_party(
        conversation_by_id(db.conversations@, conversation_id),
        user_id,
    )
}

/// The conversation, if the user may see it.
pub fn viewable(db: &Db, user: &User, conversation_id: &str) -> (found: Option<Conversation>)
    requires
        db.wf(),
    ensures
        found is Some == may_view(*db, user.id@, conversation_id@),
        found matches Some(summary) ==> is_summary(
            *db,
            conversation_by_id(db.conversations@, conversation_id@),
            0,
            summary,
        ),
{
    match get_conversation(db, conversation_id) {
        Some(summary) => {
            if summary.buyer_id == user.id || summary.seller_id == user.id {
                Some(summary)
            } else {
                None
            }
        },
        None => None,
    }
}

/// What a conversation's page shows.
#[derive(Debug, PartialEq, Eq)]
pub struct ConversationPage {
    pub conversation: Conversation,
    pub messages: Vec<Message>,
    pub listing: Option<Listing>,
    pub pending_offer: Option<Offer>,
    pub is_seller: bool,
    pub unread_count: u64,
    pub payment_info: Option<String>,
    pub other_name: String,
    pub last_message_id: String,
}

/// The answer to a request for a conversation's page.
#[derive(Debug, PartialEq, Eq)]
pub enum ConversationReply {
    /// Nobody is logged in: to the login page.
    Login,
    /// There is no such conversation for this user: to the inbox.
    Inbox,
    /// The page.
    Page(ConversationPage),
}

/// The page of a conversation as a party to it sees it: the conversation
/// with its whole history, its listing, its latest pending offer, the
/// user's unread count over all conversations, the other party's name, and
/// the identifier of the latest message, from which polling goes on.
/// The seller's payment instructions are shown to the buyer alone, and only
/// once the conversation has an accepted offer.
pub open spec fn is_conversation_page(db: Db, user: User, id: Seq<char>, page: ConversationPage) -> bool {
    let row = conversation_by_id(db.conversations@, id);
    &&& is_summary(db, row, 0, page.conversation)
    &&& page.messages@ == thread_messages(db, id)
    &&& page.listing == found_listing(db, row.listing_id@)
    &&& page.pending_offer == latest_pending(db.offers@, id)
    &&& page.is_seller == (user.id@ == row.seller_id@)
    &&& page.unread_count == unread_total(db, user.id@)
    &&& page.payment_info == if page.is_seller {
        None
    } else {
        disclosed_payment_info(db, id)
    }
    &&& page.other_name == if page.is_seller {
        page.conversation.buyer_name
    } else {
        page.conversation.seller_name
    }
    &&& page.last_message_id@ == if page.messages@.len() > 0 {
        page.messages@.last().id@
    } else {
        Seq::<char>::empty()
    }
}

/// What asking for a conversation's page at `now` does: where the user may
/// see the conversation, it is marked as read by the user up to `now` and
/// shown as it then is; otherwise nothing changes.
pub open spec fn conversation_shown(
    before: Db,
    after: Db,
    now: Timestamp,
    actor: Option<User>,
    id: Seq<char>,
    reply: ConversationReply,
) -> bool {
    match actor {
        None => after == before && reply is Login,
        Some(user) => if may_view(before, user.id@, id) {
            &&& marked_read(before, after, now, user.id@, id, Ok(()))
            &&& reply matches ConversationReply::Page(page)
            &&& is_conversation_page(after, user, id, page)
        } else {
            after == before && reply is Inbox
        },
    }
}

/// Shows a conversation to whoever is logged in, and marks it as read by
/// them up to the given time.
pub fn conversation_at(db: &mut Db, now: Timestamp, actor: &Option<User>, id: &str) -> (reply:
    ConversationReply)
    requires
        old(db).wf(),
    ensures
        final(db).wf(),
        conversation_shown(*old(db), *final(db), now, *actor, id@, reply),
{
    let user = match actor {
        Some(user) => user,
        None => {
            return ConversationReply::Login;
        },
    };
    if viewable(db, user, id).is_none() {
        return ConversationReply::Inbox;
    }
    let marked = mark_conversation_read_at(db, now, user.id.as_str(), id);
    proof {
        let row = conversation_by_id(old(db).conversations@, id@);
        let i = choose|i: int|
            0 <= i < old(db).conversations@.len() && (#[trigger] old(db).conversations@[i]).id@
                == id@;
        lemma_conversation_by_id(old(db).conversations@, i);
        assert(crate::db::has_user(old(db).users@, user.id@));
        assert(marked == Ok::<(), DbError>(()));
    }
    let conversation = match viewable(db, user, id) {
        Some(summary) => summary,
        None => {
            return ConversationReply::Inbox;
        },
    };
    let messages = get_messages(db, id);
    let listing = get_listing(db, conversation.listing_id.as_str());
    let pending_offer = get_pending_offer(db, id);
    let is_seller = user.id == conversation.seller_id;
    let unread_count = get_unread_count(db, user.id.as_str());
    let payment_info = if !is_seller {
        accepted_payment_info(db, id)
    } else {
        None
    };
    let other_name = if is_seller {
        conversation.buyer_name.clone()
    } else {
        conversation.seller_name.clone()
    };
    let last_message_id = if messages.len() > 0 {
        messages[messages.len() - 1].id.clone()
    } else {
        String::new()
    };
    ConversationReply::Page(
        ConversationPage {
            conversation,
            messages,
            listing,
            pending_offer,
            is_seller,
            unread_count,
            payment_info,
            other_name,
            last_message_id,
        },
    )
}

/// Shows a conversation to whoever is logged in, and marks it as read by
/// them up to now.
pub fn conversation(db: &mut Db, actor: &Option<User>, id: &str) -> (reply: ConversationReply)
    requires
        old(db).wf(),
    ensures
        final(db).wf(),
        exists|now: Timestamp| conversation_shown(*old(db), *final(db), now, *actor, id@, reply),
{
    let now = current_timestamp();
    let reply = conversation_at(db, now, actor, id);
    assert(conversation_shown(*old(db), *db, now, *actor, id@, reply));
    reply
}

/// The answer to a request to contact the seller of a listing.
#[derive(Debug, PartialEq, Eq)]
pub enum StartReply {
    /// Nobody is logged in: to the login page.
    Login,
    /// There is no such listing: to the feed.
    Home,
    /// The listing is the user's own: back to the listing.
    Listing,
    /// To the conversation with this identifier.
    Conversation(String),
    /// The store refused the write.
    Failed(DbError),
}

/// What a reply tells of the registry's outcome, if the registry was asked.
pub open spec fn registry_outcome(reply: StartReply) -> Option<Result<Seq<char>, DbError>> {
    match reply {
        StartReply::Conversation(id) => Some(Ok(id@)),
        StartReply::Failed(e) => Some(Err(e)),
        _ => None,
    }
}

/// What contacting the seller of a listing does, given the identifier and
/// the time that a new conversation would get: the user's conversation about
/// the listing is found or opened, with the listing's seller as its seller.
/// Nobody can contact themselves, and nothing happens for a listing that
/// does not exist.
pub open spec fn contact_made(
    before: Db,
    after: Db,
    fresh_id: Seq<char>,
    now: Timestamp,
    actor: Option<User>,
    listing_id: Seq<char>,
    reply: StartReply,
) -> bool {
    match actor {
        None => after == before && reply is Login,
        Some(user) => if !has_listing(before.listings@, listing_id) {
            after == before && reply is Home
        } else if listing_by_id(before.listings@, listing_id).seller_id@ == user.id@ {
            after == before && reply is Listing
        } else {
            &&& registry_outcome(reply) matches Some(outcome)
            &&& opened(
                before,
                after,
                fresh_id,
                now,
                listing_id,
                user.id@,
                listing_by_id(before.listings@, listing_id).seller_id@,
                outcome,
            )
        },
    }
}

/// Finds or opens the conversation of whoever is logged in with the seller
/// of a listing, under the given identifier at the given time.
pub fn start_conversation_at(
    db: &mut Db,
    fresh_id: String,
    now: Timestamp,
    actor: &Option<User>,
    listing_id: &str,
) -> (reply: StartReply)
    requires
        old(db).wf(),
    ensures
        final(db).wf(),
        contact_made(*old(db), *final(db), fresh_id@, now, *actor, listing_id@, reply),
{
    let user = match actor {
        Some(user) => user,
        None => {
            return StartReply::Login;
        },
    };
    let listing = match get_listing(db, listing_id) {
        Some(listing) => listing,
        None => {
            return StartReply::Home;
        },
    };
    if listing.seller_id == user.id {
        return StartReply::Listing;
    }
    match open_conversation(
        db,
        fresh_id,
        now,
        listing_id,
        user.id.as_str(),
        listing.seller_id.as_str(),
    ) {
        Ok(id) => StartReply::Conversation(id),
        Err(e) => StartReply::Failed(e),
    }
}

/// Finds or opens the conversation of whoever is logged in with the seller
/// of a listing.
pub fn start_conversation(db: &mut Db, actor: &Option<User>, listing_id: &str) -> (reply: StartReply)
    requires
        old(db).wf(),
    ensures
        final(db).wf(),
        exists|fresh_id: Seq<char>, now: Timestamp|
            contact_made(*old(db), *final(db), fresh_id, now, *actor, listing_id@, reply),
{
    let id = fresh_id();
    let now = current_timestamp();
    let ghost fresh = id@;
    let reply = start_conversation_at(db, id, now, actor, listing_id);
    assert(contact_made(*old(db), *db, fresh, now, *actor, listing_id@, reply));
    reply
}

/// The answer to something posted to a conversation.
#[derive(Debug, PartialEq, Eq)]
pub enum PostReply {
    /// Nobody is logged in: to the login page.
    Login,
    /// There is no such conversation for this user: to the inbox.
    Inbox,
    /// Back to the conversation, whether or not anything was written.
    Thread,
    /// The store refused the write.
    Failed(DbError),
}

/// What posting a message does, given the identifier and the time that the
/// message would get: a party to the conversation appends it; anyone else is
/// sent to the inbox and nothing changes. A message that is empty once it is
/// trimmed is skipped without a word.
pub open spec fn message_posted(
    before: Db,
    after: Db,
    fresh_id: Seq<char>,
    now: Timestamp,
    actor: Option<User>,
    conversation_id: Seq<char>,
    content: Seq<char>,
    reply: PostReply,
) -> bool {
    match actor {
        None => after == before && reply is Login,
        Some(user) => if !may_view(before, user.id@, conversation_id) {
            after == before && reply is Inbox
        } else {
            match reply {
                PostReply::Thread => appended(
                    before,
                    after,
                    fresh_id,
                    now,
                    conversation_id,
                    user.id@,
                    content,
                    Ok(trimmed(content).len() > 0),
                ),
                PostReply::Failed(e) => appended(
                    before,
                    after,
                    fresh_id,
                    now,
                    conversation_id,
                    user.id@,
                    content,
                    Err(e),
                ),
                _ => false,
            }
        },
    }
}

/// Posts a message of whoever is logged in to a conversation, under the
/// given identifier at the given time.
pub fn send_message_at(
    db: &mut Db,
    fresh_id: String,
    now: Timestamp,
    actor: &Option<User>,
    conversation_id: &str,
    form: &SendMessageForm,
) -> (reply: PostReply)
    requires
        old(db).wf(),
    ensures
        final(db).wf(),
        message_posted(
            *old(db),
            *final(db),
            fresh_id@,
            now,
            *actor,
            conversation_id@,
            form.content@,
            reply,
        ),
{
    let user = match actor {
        Some(user) => user,
        None => {
            return PostReply::Login;
        },
    };
    if viewable(db, user, conversation_id).is_none() {
        return PostReply::Inbox;
    }
    match append_message(
        db,
        fresh_id,
        now,
        conversation_id,
        user.id.as_str(),
        form.content.as_str(),
    ) {
        Ok(done) => {
            assert(appended(
                *old(db),
                *db,
                fresh_id@,
                now,
                conversation_id@,
                user.id@,
                form.content@,
                Ok::<bool, DbError>(done),
            ));
            PostReply::Thread
        },
        Err(e) => PostReply::Failed(e),
    }
}

/// Posts a message of whoever is logged in to a conversation.
pub fn send_message(
    db: &mut Db,
    actor: &Option<User>,
    conversation_id: &str,
    form: &SendMessageForm,
) -> (reply: PostReply)
    requires
        old(db).wf(),
    ensures
        final(db).wf(),
        exists|fresh_id: Seq<char>, now: Timestamp|
            message_posted(
                *old(db),
                *final(db),
                fresh_id,
                now,
                *actor,
                conversation_id@,
                form.content@,
                reply,
            ),
{
    let id = fresh_id();
    let now = current_timestamp();
    let ghost fresh = id@;
    let reply = send_message_at(db, id, now, actor, conversation_id, form);
    assert(message_posted(
        *old(db),
        *db,
        fresh,
        now,
        *actor,
        conversation_id@,
        form.content@,
        reply,
    ));
    reply
}

/// The message that announces an offer.
pub open spec fn offer_text(amount: u64) -> Seq<char> {
    "\u{1F4B0} Offer: "@ + price_text(amount)
}

/// The user may make an offer in the conversation: it exists, and the user
/// is its buyer.
pub open spec fn may_offer(db: Db, user_id: Seq<char>, conversation_id: Seq<char>) -> bool {
    has_conversation(db.conversations@, conversation_id) && conversation_by_id(
        db.conversations@,
        conversation_id,
    ).buyer_id@ == user_id
}

/// An offer was proposed and announced: the offer replaced the buyer's
/// pending offer on the listing, and a message that names the amount was
/// written to the conversation in the buyer's name.
pub open spec fn offer_announced(
    before: Db,
    after: Db,
    offer_id: Seq<char>,
    message_id: Seq<char>,
    now: Timestamp,
    buyer_id: Seq<char>,
    conversation_id: Seq<char>,
    amount: u64,
) -> bool {
    exists|between: Db| #[trigger]
        proposed(
            before,
            between,
            offer_id,
            now,
            conversation_by_id(before.conversations@, conversation_id).listing_id@,
            conversation_id,
            buyer_id,
            amount,
            Ok(true),
        ) && written(
            between,
            after,
            message_id,
            now,
            conversation_id,
            buyer_id,
            offer_text(amount),
            Ok(()),
        )
}

/// What making an offer does, given the identifiers and the time that the
/// offer and its message would get.
///
/// Only the buyer of a conversation can make an offer in it; anyone else is
/// sent to the inbox. An amount that cannot be read, or that is zero, is
/// skipped without a word. Where an identifier is taken, nothing is written
/// at all.
pub open spec fn offer_made(
    before: Db,
    after: Db,
    offer_id: Seq<char>,
    message_id: Seq<char>,
    now: Timestamp,
    actor: Option<User>,
    conversation_id: Seq<char>,
    amount_text: Seq<char>,
    reply: PostReply,
) -> bool {
    match actor {
        None => after == before && reply is Login,
        Some(user) => if !may_offer(before, user.id@, conversation_id) {
            after == before && reply is Inbox
        } else if offered_amount(amount_text) == 0 {
            after == before && reply is Thread
        } else if has_message(before.messages@, message_id) || has_offer(
            before.offers@,
            offer_id,
        ) {
            after == before && reply == PostReply::Failed(DbError::DuplicateId)
        } else {
            reply is Thread && offer_announced(
                before,
                after,
                offer_id,
                message_id,
                now,
                user.id@,
                conversation_id,
                offered_amount(amount_text),
            )
        },
    }
}

/// Makes an offer of whoever is logged in in a conversation and announces it
/// there, under the given identifiers at the given time.
pub fn make_offer_at(
    db: &mut Db,
    offer_id: String,
    message_id: String,
    now: Timestamp,
    actor: &Option<User>,
    conversation_id: &str,
    form: &MakeOfferForm,
) -> (reply: PostReply)
    requires
        old(db).wf(),
    ensures
        final(db).wf(),
        offer_made(
            *old(db),
            *final(db),
            offer_id@,
            message_id@,
            now,
            *actor,
            conversation_id@,
            form.amount@,
            reply,
        ),
{
    let user = match actor {
        Some(user) => user,
        None => {
            return PostReply::Login;
        },
    };
    let conversation = match get_conversation(db, conversation_id) {
        Some(summary) => summary,
        None => {
            return PostReply::Inbox;
        },
    };
    if !(conversation.buyer_id == user.id) {
        return PostReply::Inbox;
    }
    let amount = parse_offer_amount(form.amount.as_str());
    if amount == 0 {
        return PostReply::Thread;
    }
    if db.find_message(message_id.as_str()).is_some() || db.find_offer(
        offer_id.as_str(),
    ).is_some() {
        return PostReply::Failed(DbError::DuplicateId);
    }
    proof {
        let rows = db.conversations@;
        let i = choose|i: int| 0 <= i < rows.len() && (#[trigger] rows[i]).id@ == conversation_id@;
        lemma_conversation_by_id(rows, i);
        assert(has_listing(db.listings@, rows[i].listing_id@));
        assert(crate::db::has_user(db.users@, rows[i].buyer_id@));
    }
    let proposal = propose_offer(
        db,
        offer_id,
        now,
        conversation.listing_id.as_str(),
        conversation_id,
        user.id.as_str(),
        amount,
    );
    assert(proposal == Ok::<bool, DbError>(true));
    let ghost between = *db;
    let mut text = "\u{1F4B0} Offer: ".to_owned();
    push_price(&mut text, amount);
    let note = write_message(db, message_id, now, conversation_id, user.id.as_str(), text.as_str());
    assert(note == Ok::<(), DbError>(()));
    assert(proposed(
        *old(db),
        between,
        offer_id@,
        now,
        conversation_by_id(old(db).conversations@, conversation_id@).listing_id@,
        conversation_id@,
        user.id@,
        amount,
        Ok(true),
    ) && written(
        between,
        *db,
        message_id@,
        now,
        conversation_id@,
        user.id@,
        offer_text(amount),
        Ok(()),
    ));
    PostReply::Thread
}

/// Makes an offer of whoever is logged in in a conversation and announces it
/// there.
pub fn make_offer(
    db: &mut Db,
    actor: &Option<User>,
    conversation_id: &str,
    form: &MakeOfferForm,
) -> (reply: PostReply)
    requires
        old(db).wf(),
    ensures
        final(db).wf(),
        exists|offer_id: Seq<char>, message_id: Seq<char>, now: Timestamp|
            offer_made(
                *old(db),
                *final(db),
                offer_id,
                message_id,
                now,
                *actor,
                conversation_id@,
                form.amount@,
                reply,
            ),
{
    let offer_id = fresh_id();
    let message_id = fresh_id();
    let now = current_timestamp();
    let ghost first = offer_id@;
    let ghost second = message_id@;
    let reply = make_offer_at(db, offer_id, message_id, now, actor, conversation_id, form);
    assert(offer_made(
        *old(db),
        *db,
        first,
        second,
        now,
        *actor,
        conversation_id@,
        form.amount@,
        reply,
    ));
    reply
}

/// The message that announces the answer to an offer.
pub open spec fn answer_text(accept: bool) -> Seq<char> {
    if accept {
        "\u{2705} Offer accepted! Check below for payment details."@
    } else {
        "\u{274C} Offer declined."@
    }
}

/// Whether a request's `accept` parameter accepts: it does where it is
/// given as `true`, and rejects otherwise.
pub open spec fn accepts(accept: Option<&str>) -> bool {
    match accept {
        Some(value) => value@ == "true"@,
        None => false,
    }
}

/// An offer was answered and the answer announced: the offer was accepted or
/// rejected, and a message that says so was written to the conversation in
/// the seller's name.
pub open spec fn answer_announced(
    before: Db,
    after: Db,
    message_id: Seq<char>,
    now: Timestamp,
    seller_id: Seq<char>,
    conversation_id: Seq<char>,
    offer_id: Seq<char>,
    accept: bool,
) -> bool {
    exists|between: Db| #[trigger]
        responded(before, between, offer_id, seller_id, accept, true) && written(
            between,
            after,
            message_id,
            now,
            conversation_id,
            seller_id,
            answer_text(accept),
            Ok(()),
        )
}

/// What answering an offer does, given the identifier and the time that the
/// announcement would get.
///
/// The answer takes effect only on a pending offer and only from the seller
/// of its listing; from anyone else, or on any other offer, nothing changes
/// and nothing tells why. Where the announcement cannot be written, the
/// offer is left as it was.
pub open spec fn offer_answered(
    before: Db,
    after: Db,
    message_id: Seq<char>,
    now: Timestamp,
    actor: Option<User>,
    conversation_id: Seq<char>,
    offer_id: Seq<char>,
    accept: bool,
    reply: PostReply,
) -> bool {
    match actor {
        None => after == before && reply is Login,
        Some(user) => if !may_respond(before, offer_id, user.id@) {
            after == before && reply is Thread
        } else if !has_conversation(before.conversations@, conversation_id) {
            after == before && reply == PostReply::Failed(DbError::UnknownConversation)
        } else if has_message(before.messages@, message_id) {
            after == before && reply == PostReply::Failed(DbError::DuplicateId)
        } else {
            reply is Thread && answer_announced(
                before,
                after,
                message_id,
                now,
                user.id@,
                conversation_id,
                offer_id,
                accept,
            )
        },
    }
}

/// Answers an offer on behalf of whoever is logged in and announces the
/// answer in the conversation, under the given identifier at the given time.
pub fn respond_offer_at(
    db: &mut Db,
    message_id: String,
    now: Timestamp,
    actor: &Option<User>,
    conversation_id: &str,
    offer_id: &str,
    accept: Option<&str>,
) -> (reply: PostReply)
    requires
        old(db).wf(),
    ensures
        final(db).wf(),
        offer_answered(
            *old(db),
            *final(db),
            message_id@,
            now,
            *actor,
            conversation_id@,
            offer_id@,
            accepts(accept),
            reply,
        ),
{
    let user = match actor {
        Some(user) => user,
        None => {
            return PostReply::Login;
        },
    };
    let accept = match accept {
        Some(value) => value.to_owned() == "true".to_owned(),
        None => false,
    };
    if !can_respond(db, offer_id, user.id.as_str()) {
        return PostReply::Thread;
    }
    if db.find_conversation(conversation_id).is_none() {
        return PostReply::Failed(DbError::UnknownConversation);
    }
    if db.find_message(message_id.as_str()).is_some() {
        return PostReply::Failed(DbError::DuplicateId);
    }
    proof {
        let offers = db.offers@;
        let i = choose|i: int| 0 <= i < offers.len() && (#[trigger] offers[i]).id@ == offer_id@;
        crate::db::lemma_offer_by_id(offers, i);
        let listings = db.listings@;
        assert(has_listing(listings, offers[i].listing_id@));
        let k = choose|k: int|
            0 <= k < listings.len() && (#[trigger] listings[k]).id@ == offers[i].listing_id@;
        crate::db::lemma_listing_by_id(listings, k);
        assert(crate::db::has_user(db.users@, listings[k].seller_id@));
    }
    let took_effect = respond_to_offer(db, offer_id, user.id.as_str(), accept);
    assert(took_effect);
    let ghost between = *db;
    let text = if accept {
        "\u{2705} Offer accepted! Check below for payment details."
    } else {
        "\u{274C} Offer declined."
    };
    let note = write_message(db, message_id, now, conversation_id, user.id.as_str(), text);
    assert(note == Ok::<(), DbError>(()));
    assert(responded(*old(db), between, offer_id@, user.id@, accept, true) && written(
        between,
        *db,
        message_id@,
        now,
        conversation_id@,
        user.id@,
        answer_text(accept),
        Ok(()),
    ));
    PostReply::Thread
}

/// Answers an offer on behalf of whoever is logged in and announces the
/// answer in the conversation.
pub fn respond_offer(
    db: &mut Db,
    actor: &Option<User>,
    conversation_id: &str,
    offer_id: &str,
    accept: Option<&str>,
) -> (reply: PostReply)
    requires
        old(db).wf(),
    ensures
        final(db).wf(),
        exists|message_id: Seq<char>, now: Timestamp|
            offer_answered(
                *old(db),
                *final(db),
                message_id,
                now,
                *actor,
                conversation_id@,
                offer_id@,
                accepts(accept),
                reply,
            ),
{
    let message_id = fresh_id();
    let now = current_timestamp();
    let ghost fresh = message_id@;
    let reply = respond_offer_at(db, message_id, now, actor, conversation_id, offer_id, accept);
    assert(offer_answered(
        *old(db),
        *db,
        fresh,
        now,
        *actor,
        conversation_id@,
        offer_id@,
        accepts(accept),
        reply,
    ));
    reply
}

/// A message as a bubble of the conversation's page: marked as the
/// reader's own or as the other party's, with its content as it stands in
/// HTML and its age in words.
pub open spec fn bubble(now: Timestamp, reader_id: Seq<char>, message: Message) -> Seq<char> {
    "<div class=\""@ + (if message.sender_id@ == reader_id {
        "message-bubble mine"@
    } else {
        "message-bubble theirs"@
    }) + "\">\n                <div class=\"message-content\">"@ + escaped(message.content@)
        + "</div>\n                <span class=\"message-time\">"@ + age_text(
        now,
        message.created_at,
    ) + "</span>\n            </div>"@
}

/// Messages as bubbles, one after the other.
pub open spec fn bubbles(now: Timestamp, reader_id: Seq<char>, messages: Seq<Message>) -> Seq<char>
    decreases messages.len(),
{
    if messages.len() == 0 {
        Seq::<char>::empty()
    } else {
        bubbles(now, reader_id, messages.drop_last()) + bubble(now, reader_id, messages.last())
    }
}

/// The element that takes the poller's place and asks for the messages
/// after the given one.
pub open spec fn poller(conversation_id: Seq<char>, last_id: Seq<char>) -> Seq<char> {
    "<div id=\"message-poller\" hx-get=\"/messages/"@ + conversation_id + "/poll?after="@
        + last_id
        + "\" hx-trigger=\"every 2s\" hx-target=\"#new-messages\" hx-swap=\"beforeend\" hx-swap-oob=\"true\"></div>"@
}

/// What a poll answers with where there is news: the new messages as
/// bubbles, and a poller that goes on from the last of them.
pub open spec fn poll_fragment(
    now: Timestamp,
    reader_id: Seq<char>,
    conversation_id: Seq<char>,
    news: Seq<Message>,
) -> Seq<char> {
    bubbles(now, reader_id, news) + poller(conversation_id, news.last().id@)
}

/// The cursor that a poll carries, if it carries one that is not empty.
pub open spec fn cursor_of(query: PollQuery) -> Option<Seq<char>> {
    match query.after {
        Some(after) => if after@.len() > 0 {
            Some(after@)
        } else {
            None
        },
        None => None,
    }
}

/// What a poll at `now` does: where a party to the conversation asks for
/// what is newer than a message and there is something, the conversation is
/// marked as read by them up to `now` and the news are answered. In every
/// other case nothing changes and the answer is empty.
pub open spec fn polled(
    before: Db,
    after: Db,
    now: Timestamp,
    actor: Option<User>,
    conversation_id: Seq<char>,
    query: PollQuery,
    html: Seq<char>,
) -> bool {
    let quiet = after == before && html.len() == 0;
    match actor {
        None => quiet,
        Some(user) => if !may_view(before, user.id@, conversation_id) {
            quiet
        } else {
            match cursor_of(query) {
                None => quiet,
                Some(cursor) => {
                    let news = messages_after(before, conversation_id, cursor);
                    if news.len() == 0 {
                        quiet
                    } else {
                        &&& marked_read(before, after, now, user.id@, conversation_id, Ok(()))
                        &&& html == poll_fragment(now, user.id@, conversation_id, news)
                    }
                },
            }
        },
    }
}

/// Writes a message as a bubble at the end of a text.
fn push_bubble(html: &mut String, now: Timestamp, reader: &User, message: &Message)
    ensures
        final(html)@ == old(html)@ + bubble(now, reader.id@, *message),
{
    html.append("<div class=\"");
    if message.sender_id == reader.id {
        html.append("message-bubble mine");
    } else {
        html.append("message-bubble theirs");
    }
    html.append("\">\n                <div class=\"message-content\">");
    push_escaped(html, message.content.as_str());
    html.append("</div>\n                <span class=\"message-time\">");
    let age = time_ago_at(now, message.created_at);
    html.append(age.as_str());
    html.append("</span>\n            </div>");
    assert(html@ == old(html)@ + bubble(now, reader.id@, *message));
}

/// Answers a poll of whoever is logged in for the messages of a
/// conversation after a given one, at the given time.
pub fn poll_messages_at(
    db: &mut Db,
    now: Timestamp,
    actor: &Option<User>,
    conversation_id: &str,
    query: &PollQuery,
) -> (html: String)
    requires
        old(db).wf(),
    ensures
        final(db).wf(),
        polled(*old(db), *final(db), now, *actor, conversation_id@, *query, html@),
{
    let user = match actor {
        Some(user) => user,
        None => {
            return String::new();
        },
    };
    if viewable(db, user, conversation_id).is_none() {
        return String::new();
    }
    let cursor = match &query.after {
        Some(after) => after,
        None => {
            return String::new();
        },
    };
    if cursor.as_str().unicode_len() == 0 {
        return String::new();
    }
    let news = get_messages_after(db, conversation_id, cursor.as_str());
    if news.len() == 0 {
        return String::new();
    }
    proof {
        let rows = db.conversations@;
        let i = choose|i: int| 0 <= i < rows.len() && (#[trigger] rows[i]).id@ == conversation_id@;
        lemma_conversation_by_id(rows, i);
        assert(crate::db::has_user(db.users@, user.id@));
    }
    let marked = mark_conversation_read_at(db, now, user.id.as_str(), conversation_id);
    assert(marked == Ok::<(), DbError>(()));
    let mut html = String::new();
    let mut k: usize = 0;
    assert(news@.take(0) == Seq::<Message>::empty());
    while k < news.len()
        invariant
            k <= news@.len(),
            html@ == bubbles(now, user.id@, news@.take(k as int)),
        decreases news@.len() - k,
    {
        proof {
            let more = news@.take(k + 1);
            assert(more.drop_last() == news@.take(k as int));
            assert(more.last() == news@[k as int]);
        }
        push_bubble(&mut html, now, user, &news[k]);
        k += 1;
    }
    assert(news@.take(k as int) == news@);
    html.append("<div id=\"message-poller\" hx-get=\"/messages/");
    html.append(conversation_id);
    html.append("/poll?after=");
    html.append(news[news.len() - 1].id.as_str());
    html.append(
        "\" hx-trigger=\"every 2s\" hx-target=\"#new-messages\" hx-swap=\"beforeend\" hx-swap-oob=\"true\"></div>",
    );
    proof {
        assert(html@ == poll_fragment(now, user.id@, conversation_id@, news@));
        assert(html@.len() > 0) by {
            reveal_strlit("/poll?after=");
        }
    }
    html
}

/// Answers a poll of whoever is logged in for the messages of a
/// conversation after a given one.
pub fn poll_messages(
    db: &mut Db,
    actor: &Option<User>,
    conversation_id: &str,
    query: &PollQuery,
) -> (html: String)
    requires
        old(db).wf(),
    ensures
        final(db).wf(),
        exists|now: Timestamp|
            polled(*old(db), *final(db), now, *actor, conversation_id@, *query, html@),
{
    let now = current_timestamp();
    let html = poll_messages_at(db, now, actor, conversation_id, query);
    assert(polled(*old(db), *db, now, *actor, conversation_id@, *query, html@));
    html
}

} // verus!

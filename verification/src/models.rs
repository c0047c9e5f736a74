//! The rows of the store and the joined records that queries hand out.

use vstd::prelude::*;

verus! {

/// Seconds since the Unix epoch, as the server's clock reports them.
pub type Timestamp = i64;

/// An amount of money in cents.
pub type Cents = u64;

/// Lifecycle of a listing.
#[derive(Clone, Copy, Debug, PartialEq, Eq, Structural)]
pub enum ListingStatus {
    Active,
    Sold,
    Removed,
}

/// State of an offer; every state but `Pending` is terminal.
#[derive(Clone, Copy, Debug, PartialEq, Eq, Structural)]
pub enum OfferStatus {
    Pending,
    Accepted,
    Rejected,
    Cancelled,
}

impl OfferStatus {
    /// No transition leaves a terminal state.
    pub open spec fn is_terminal(self) -> bool {
        self != OfferStatus::Pending
    }

    /// The name under which the state is shown and stored.
    pub fn as_str(self) -> (name: &'static str)
        ensures
            name@ == match self {
                OfferStatus::Pending => "pending"@,
                OfferStatus::Accepted => "accepted"@,
                OfferStatus::Rejected => "rejected"@,
                OfferStatus::Cancelled => "cancelled"@,
            },
    {
        match self {
            OfferStatus::Pending => "pending",
            OfferStatus::Accepted => "accepted",
            OfferStatus::Rejected => "rejected",
            OfferStatus::Cancelled => "cancelled",
        }
    }
}

impl OfferStatus {
    /// The state that a name stands for, if it is the name of a state.
    pub open spec fn named(name: Seq<char>) -> Option<OfferStatus> {
        if name == "pending"@ {
            Some(OfferStatus::Pending)
        } else if name == "accepted"@ {
            Some(OfferStatus::Accepted)
        } else if name == "rejected"@ {
            Some(OfferStatus::Rejected)
        } else if name == "cancelled"@ {
            Some(OfferStatus::Cancelled)
        } else {
            None
        }
    }

    /// The state that a name stands for, if it is the name of a state.
    pub fn from_name(name: &str) -> (status: Option<OfferStatus>)
        ensures
            status == OfferStatus::named(name@),
    {
        let name = name.to_owned();
        if name == "pending".to_owned() {
            Some(OfferStatus::Pending)
        } else if name == "accepted".to_owned() {
            Some(OfferStatus::Accepted)
        } else if name == "rejected".to_owned() {
            Some(OfferStatus::Rejected)
        } else if name == "cancelled".to_owned() {
            Some(OfferStatus::Cancelled)
        } else {
            None
        }
    }

    /// Every state is the one that its name stands for.
    pub proof fn lemma_name_round_trip(status: OfferStatus)
        ensures
            OfferStatus::named(
                match status {
                    OfferStatus::Pending => "pending"@,
                    OfferStatus::Accepted => "accepted"@,
                    OfferStatus::Rejected => "rejected"@,
                    OfferStatus::Cancelled => "cancelled"@,
                },
            ) == Some(status),
    {
        reveal_strlit("pending");
        reveal_strlit("accepted");
        reveal_strlit("rejected");
        reveal_strlit("cancelled");
        assert("pending"@.len() == 7 && "accepted"@.len() == 8 && "rejected"@.len() == 8
            && "cancelled"@.len() == 9);
        assert("accepted"@[0] == 'a' && "rejected"@[0] == 'r');
    }
}

impl ListingStatus {
    /// The status that a name stands for, if it is the name of a status.
    pub open spec fn named(name: Seq<char>) -> Option<ListingStatus> {
        if name == "active"@ {
            Some(ListingStatus::Active)
        } else if name == "sold"@ {
            Some(ListingStatus::Sold)
        } else if name == "removed"@ {
            Some(ListingStatus::Removed)
        } else {
            None
        }
    }

    /// The status that a name stands for, if it is the name of a status.
    pub fn from_name(name: &str) -> (status: Option<ListingStatus>)
        ensures
            status == ListingStatus::named(name@),
    {
        let name = name.to_owned();
        if name == "active".to_owned() {
            Some(ListingStatus::Active)
        } else if name == "sold".to_owned() {
            Some(ListingStatus::Sold)
        } else if name == "removed".to_owned() {
            Some(ListingStatus::Removed)
        } else {
            None
        }
    }

    /// Every status is the one that its name stands for.
    pub proof fn lemma_name_round_trip(status: ListingStatus)
        ensures
            ListingStatus::named(
                match status {
                    ListingStatus::Active => "active"@,
                    ListingStatus::Sold => "sold"@,
                    ListingStatus::Removed => "removed"@,
                },
            ) == Some(status),
    {
        reveal_strlit("active");
        reveal_strlit("sold");
        reveal_strlit("removed");
        assert("active"@.len() == 6 && "sold"@.len() == 4 && "removed"@.len() == 7);
    }

    /// The name under which the status is shown and stored.
    pub fn as_str(self) -> (name: &'static str)
        ensures
            name@ == match self {
                ListingStatus::Active => "active"@,
                ListingStatus::Sold => "sold"@,
                ListingStatus::Removed => "removed"@,
            },
    {
        match self {
            ListingStatus::Active => "active",
            ListingStatus::Sold => "sold",
            ListingStatus::Removed => "removed",
        }
    }
}

#[derive(Debug, PartialEq, Eq)]
pub struct User {
    pub id: String,
    pub email: String,
    pub name: String,
    pub password_hash: String,
    pub location: String,
    pub avatar_url: String,
    pub payment_info: String,
    pub bio: String,
    pub created_at: Timestamp,
}

impl Clone for User {
    fn clone(&self) -> (copy: Self)
        ensures
            copy == *self,
    {
        User {
            id: self.id.clone(),
            email: self.email.clone(),
            name: self.name.clone(),
            password_hash: self.password_hash.clone(),
            location: self.location.clone(),
            avatar_url: self.avatar_url.clone(),
            payment_info: self.payment_info.clone(),
            bio: self.bio.clone(),
            created_at: self.created_at,
        }
    }
}

/// A copy of an optional string.
pub fn clone_optional(text: &Option<String>) -> (copy: Option<String>)
    ensures
        copy == *text,
{
    match text {
        Some(s) => Some(s.clone()),
        None => None,
    }
}

/// A listing as the store keeps it.
#[derive(Debug, PartialEq, Eq)]
pub struct ListingRow {
    pub id: String,
    pub seller_id: String,
    pub title: String,
    pub description: String,
    pub price: Cents,
    pub category: String,
    pub condition: String,
    pub location: String,
    pub image_url: String,
    pub status: ListingStatus,
    pub created_at: Timestamp,
}

impl Clone for ListingRow {
    fn clone(&self) -> (copy: Self)
        ensures
            copy == *self,
    {
        ListingRow {
            id: self.id.clone(),
            seller_id: self.seller_id.clone(),
            title: self.title.clone(),
            description: self.description.clone(),
            price: self.price,
            category: self.category.clone(),
            condition: self.condition.clone(),
            location: self.location.clone(),
            image_url: self.image_url.clone(),
            status: self.status,
            created_at: self.created_at,
        }
    }
}

/// A listing joined with its seller's display name.
#[derive(Debug, PartialEq, Eq)]
pub struct Listing {
    pub id: String,
    pub seller_id: String,
    pub seller_name: String,
    pub title: String,
    pub description: String,
    pub price: Cents,
    pub category: String,
    pub condition: String,
    pub location: String,
    pub image_url: String,
    pub status: ListingStatus,
    pub created_at: Timestamp,
}

impl Clone for Listing {
    fn clone(&self) -> (copy: Self)
        ensures
            copy == *self,
    {
        Listing {
            id: self.id.clone(),
            seller_id: self.seller_id.clone(),
            seller_name: self.seller_name.clone(),
            title: self.title.clone(),
            description: self.description.clone(),
            price: self.price,
            category: self.category.clone(),
            condition: self.condition.clone(),
            location: self.location.clone(),
            image_url: self.image_url.clone(),
            status: self.status,
            created_at: self.created_at,
        }
    }
}

/// A thread between one buyer and the seller of one listing, as the store keeps it.
/// The seller is the one given when the thread was opened.
#[derive(Debug, PartialEq, Eq)]
pub struct ConversationRow {
    pub id: String,
    pub listing_id: String,
    pub buyer_id: String,
    pub seller_id: String,
    pub created_at: Timestamp,
}

impl Clone for ConversationRow {
    fn clone(&self) -> (copy: Self)
        ensures
            copy == *self,
    {
        ConversationRow {
            id: self.id.clone(),
            listing_id: self.listing_id.clone(),
            buyer_id: self.buyer_id.clone(),
            seller_id: self.seller_id.clone(),
            created_at: self.created_at,
        }
    }
}

/// A thread joined with its listing, the names of both parties, its latest
/// message and the reader's unread count.
#[derive(Debug, PartialEq, Eq)]
pub struct Conversation {
    pub id: String,
    pub listing_id: String,
    pub listing_title: String,
    pub listing_image: String,
    pub buyer_id: String,
    pub buyer_name: String,
    pub seller_id: String,
    pub seller_name: String,
    pub last_message: String,
    pub last_message_at: Timestamp,
    pub unread_count: u64,
}

impl Clone for Conversation {
    fn clone(&self) -> (copy: Self)
        ensures
            copy == *self,
    {
        Conversation {
            id: self.id.clone(),
            listing_id: self.listing_id.clone(),
            listing_title: self.listing_title.clone(),
            listing_image: self.listing_image.clone(),
            buyer_id: self.buyer_id.clone(),
            buyer_name: self.buyer_name.clone(),
            seller_id: self.seller_id.clone(),
            seller_name: self.seller_name.clone(),
            last_message: self.last_message.clone(),
            last_message_at: self.last_message_at,
            unread_count: self.unread_count,
        }
    }
}

/// A message as the ledger keeps it; never changed once written.
#[derive(Debug, PartialEq, Eq)]
pub struct MessageRow {
    pub id: String,
    pub conversation_id: String,
    pub sender_id: String,
    pub content: String,
    pub created_at: Timestamp,
}

impl Clone for MessageRow {
    fn clone(&self) -> (copy: Self)
        ensures
            copy == *self,
    {
        MessageRow {
            id: self.id.clone(),
            conversation_id: self.conversation_id.clone(),
            sender_id: self.sender_id.clone(),
            content: self.content.clone(),
            created_at: self.created_at,
        }
    }
}

/// A message joined with its sender's display name.
#[derive(Debug, PartialEq, Eq)]
pub struct Message {
    pub id: String,
    pub conversation_id: String,
    pub sender_id: String,
    pub sender_name: String,
    pub content: String,
    pub is_offer: bool,
    pub offer_amount: Option<Cents>,
    pub offer_status: Option<OfferStatus>,
    pub created_at: Timestamp,
}

impl Clone for Message {
    fn clone(&self) -> (copy: Self)
        ensures
            copy == *self,
    {
        Message {
            id: self.id.clone(),
            conversation_id: self.conversation_id.clone(),
            sender_id: self.sender_id.clone(),
            sender_name: self.sender_name.clone(),
            content: self.content.clone(),
            is_offer: self.is_offer,
            offer_amount: self.offer_amount,
            offer_status: self.offer_status,
            created_at: self.created_at,
        }
    }
}

/// A price that a buyer proposes within a conversation.
#[derive(Debug, PartialEq, Eq)]
pub struct Offer {
    pub id: String,
    pub listing_id: String,
    pub conversation_id: String,
    pub buyer_id: String,
    pub amount: Cents,
    pub status: OfferStatus,
    pub created_at: Timestamp,
}

impl Clone for Offer {
    fn clone(&self) -> (copy: Self)
        ensures
            copy == *self,
    {
        Offer {
            id: self.id.clone(),
            listing_id: self.listing_id.clone(),
            conversation_id: self.conversation_id.clone(),
            buyer_id: self.buyer_id.clone(),
            amount: self.amount,
            status: self.status,
            created_at: self.created_at,
        }
    }
}

/// The time up to which a user has read a conversation.
#[derive(Debug, PartialEq, Eq)]
pub struct ReadMarker {
    pub user_id: String,
    pub conversation_id: String,
    pub last_read_at: Timestamp,
}

impl Clone for ReadMarker {
    fn clone(&self) -> (copy: Self)
        ensures
            copy == *self,
    {
        ReadMarker {
            user_id: self.user_id.clone(),
            conversation_id: self.conversation_id.clone(),
            last_read_at: self.last_read_at,
        }
    }
}

/// A login session and the time at which it lapses.
#[derive(Debug, PartialEq, Eq)]
pub struct Session {
    pub id: String,
    pub user_id: String,
    pub created_at: Timestamp,
    pub expires_at: Timestamp,
}

impl Clone for Session {
    fn clone(&self) -> (copy: Self)
        ensures
            copy == *self,
    {
        Session {
            id: self.id.clone(),
            user_id: self.user_id.clone(),
            created_at: self.created_at,
            expires_at: self.expires_at,
        }
    }
}

/// A category with the number of active listings in it.
#[derive(Debug, PartialEq, Eq)]
pub struct Category {
    pub name: String,
    pub count: u64,
}

impl Clone for Category {
    fn clone(&self) -> (copy: Self)
        ensures
            copy == *self,
    {
        Category {
            name: self.name.clone(),
            count: self.count,
        }
    }
}

/// What the login page submits.
#[derive(Debug, PartialEq, Eq)]
pub struct LoginForm {
    pub email: String,
    pub password: String,
}

impl Clone for LoginForm {
    fn clone(&self) -> (copy: Self)
        ensures
            copy == *self,
    {
        LoginForm {
            email: self.email.clone(),
            password: self.password.clone(),
        }
    }
}

/// What the registration page submits.
#[derive(Debug, PartialEq, Eq)]
pub struct RegisterForm {
    pub name: String,
    pub email: String,
    pub password: String,
    pub password_confirm: String,
}

impl Clone for RegisterForm {
    fn clone(&self) -> (copy: Self)
        ensures
            copy == *self,
    {
        RegisterForm {
            name: self.name.clone(),
            email: self.email.clone(),
            password: self.password.clone(),
            password_confirm: self.password_confirm.clone(),
        }
    }
}

/// What the listing editor submits; the price is still text.
#[derive(Debug, PartialEq, Eq)]
pub struct ListingForm {
    pub title: String,
    pub description: String,
    pub price: String,
    pub category: String,
    pub condition: String,
    pub location: String,
}

impl Clone for ListingForm {
    fn clone(&self) -> (copy: Self)
        ensures
            copy == *self,
    {
        ListingForm {
            title: self.title.clone(),
            description: self.description.clone(),
            price: self.price.clone(),
            category: self.category.clone(),
            condition: self.condition.clone(),
            location: self.location.clone(),
        }
    }
}

/// The filters of the listing feed; every one is optional.
#[derive(Debug, PartialEq, Eq)]
pub struct SearchQuery {
    pub q: Option<String>,
    pub category: Option<String>,
    pub condition: Option<String>,
    pub min_price: Option<String>,
    pub max_price: Option<String>,
    pub sort: Option<String>,
}

impl Clone for SearchQuery {
    fn clone(&self) -> (copy: Self)
        ensures
            copy == *self,
    {
        SearchQuery {
            q: clone_optional(&self.q),
            category: clone_optional(&self.category),
            condition: clone_optional(&self.condition),
            min_price: clone_optional(&self.min_price),
            max_price: clone_optional(&self.max_price),
            sort: clone_optional(&self.sort),
        }
    }
}

/// What the message box submits.
#[derive(Debug, PartialEq, Eq)]
pub struct SendMessageForm {
    pub content: String,
}

impl Clone for SendMessageForm {
    fn clone(&self) -> (copy: Self)
        ensures
            copy == *self,
    {
        SendMessageForm {
            content: self.content.clone(),
        }
    }
}

/// What the offer box submits; the amount is still text.
#[derive(Debug, PartialEq, Eq)]
pub struct MakeOfferForm {
    pub amount: String,
}

impl Clone for MakeOfferForm {
    fn clone(&self) -> (copy: Self)
        ensures
            copy == *self,
    {
        MakeOfferForm {
            amount: self.amount.clone(),
        }
    }
}

/// What the profile editor submits.
#[derive(Debug, PartialEq, Eq)]
pub struct ProfileForm {
    pub name: String,
    pub location: String,
    pub bio: String,
    pub payment_info: String,
}

impl Clone for ProfileForm {
    fn clone(&self) -> (copy: Self)
        ensures
            copy == *self,
    {
        ProfileForm {
            name: self.name.clone(),
            location: self.location.clone(),
            bio: self.bio.clone(),
            payment_info: self.payment_info.clone(),
        }
    }
}

/// The cursor of a poll for new messages.
#[derive(Debug, PartialEq, Eq)]
pub struct PollQuery {
    pub after: Option<String>,
}

impl Clone for PollQuery {
    fn clone(&self) -> (copy: Self)
        ensures
            copy == *self,
    {
        PollQuery {
            after: clone_optional(&self.after),
        }
    }
}

} // verus!

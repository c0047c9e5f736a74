//! The feed, a listing's page, and what a seller does to a listing.

use vstd::prelude::*;
use vstd::string::{StrSliceExecFns, StringExecFns};
use crate::db::conversations::{get_user_conversations, is_inbox};
use crate::db::listings::{
    found_listing, get_categories, get_listing, get_listings, get_seller_listings,
    is_category_list, is_selection, listed, listing_deleted, listing_updated, others_by,
    search_criteria, search_order, status_updated, ListingOrder, FEED_LIMIT, SELLER_LIMIT,
};
use crate::db::reads::{get_unread_count, unread_total};
use crate::db::users::get_user_by_id;
use crate::db::{has_user, user_by_id, Db, DbError};
use crate::host::current_timestamp;
use crate::models::{
    clone_optional, Category, Conversation, Listing, ListingForm, ListingRow, ListingStatus,
    SearchQuery, Timestamp, User,
};
use crate::text::{
    age_text, decimal_digits, escaped, push_decimal, push_escaped, round_to_dollars, time_ago_at,
    whole_dollars,
};

verus! {

/// How many messages whoever is logged in has not read; none for a visitor.
pub open spec fn unread_of(db: Db, actor: Option<User>) -> nat {
    match actor {
        Some(user) => unread_total(db, user.id@),
        None => 0,
    }
}

/// How many messages whoever is logged in has not read.
pub fn count_unread(db: &Db, actor: &Option<User>) -> (count: u64)
    requires
        db.wf(),
    ensures
        count == unread_of(*db, *actor),
{
    match actor {
        Some(user) => get_unread_count(db, user.id.as_str()),
        None => 0,
    }
}

/// The text of an optional string; nothing for none.
pub open spec fn text_or_empty(text: Option<String>) -> Seq<char> {
    match text {
        Some(s) => s@,
        None => Seq::<char>::empty(),
    }
}

/// A copy of an optional string; the empty string for none.
fn copy_or_empty(text: &Option<String>) -> (copy: String)
    ensures
        copy@ == text_or_empty(*text),
{
    match text {
        Some(s) => s.clone(),
        None => String::new(),
    }
}

/// What the feed shows: the listings that the query selects, how long ago
/// each was posted, the categories, the visitor's unread count, and the
/// query's filters as they were given.
#[derive(Debug, PartialEq, Eq)]
pub struct FeedPage {
    pub listings: Vec<Listing>,
    pub ages: Vec<String>,
    pub categories: Vec<Category>,
    pub unread_count: u64,
    pub query: String,
    pub current_category: String,
    pub current_condition: String,
    pub current_sort: String,
}

/// `ages` tells for each listing how long before `now` it was posted.
pub open spec fn are_listing_ages(now: Timestamp, listings: Seq<Listing>, ages: Seq<String>) -> bool {
    &&& ages.len() == listings.len()
    &&& forall|k: int|
        0 <= k < ages.len() ==> (#[trigger] ages[k])@ == age_text(now, listings[k].created_at)
}

/// The feed for a query at a time.
pub open spec fn is_feed_page(
    db: Db,
    now: Timestamp,
    actor: Option<User>,
    query: SearchQuery,
    page: FeedPage,
) -> bool {
    &&& is_selection(
        db,
        search_criteria(query),
        search_order(query.sort),
        Some(FEED_LIMIT),
        page.listings@,
    )
    &&& are_listing_ages(now, page.listings@, page.ages@)
    &&& is_category_list(db.listings@, page.categories@)
    &&& page.unread_count == unread_of(db, actor)
    &&& page.query@ == text_or_empty(query.q)
    &&& page.current_category@ == text_or_empty(query.category)
    &&& page.current_condition@ == text_or_empty(query.condition)
    &&& page.current_sort@ == text_or_empty(query.sort)
}

/// How long before `now` each listing was posted.
fn listing_ages(now: Timestamp, listings: &Vec<Listing>) -> (ages: Vec<String>)
    ensures
        are_listing_ages(now, listings@, ages@),
{
    let mut ages: Vec<String> = Vec::new();
    let mut k: usize = 0;
    while k < listings.len()
        invariant
            k <= listings@.len(),
            ages@.len() == k,
            forall|j: int|
                0 <= j < k ==> (#[trigger] ages@[j])@ == age_text(now, listings@[j].created_at),
        decreases listings@.len() - k,
    {
        ages.push(time_ago_at(now, listings[k].created_at));
        k += 1;
    }
    ages
}

/// The feed for a query, at the given time.
pub fn feed_at(db: &Db, now: Timestamp, actor: &Option<User>, query: &SearchQuery) -> (page: FeedPage)
    requires
        db.wf(),
    ensures
        is_feed_page(*db, now, *actor, *query, page),
{
    let listings = get_listings(db, query);
    let ages = listing_ages(now, &listings);
    FeedPage {
        listings,
        ages,
        categories: get_categories(db),
        unread_count: count_unread(db, actor),
        query: copy_or_empty(&query.q),
        current_category: copy_or_empty(&query.category),
        current_condition: copy_or_empty(&query.condition),
        current_sort: copy_or_empty(&query.sort),
    }
}

/// The feed for a query, now.
pub fn feed(db: &Db, actor: &Option<User>, query: &SearchQuery) -> (page: FeedPage)
    requires
        db.wf(),
    ensures
        exists|now: Timestamp| is_feed_page(*db, now, *actor, *query, page),
{
    let now = current_timestamp();
    let page = feed_at(db, now, actor, query);
    assert(is_feed_page(*db, now, *actor, *query, page));
    page
}

/// A listing as a card of the feed: a link to its page with its image, its
/// price in whole dollars, its title and its location as they stand in HTML,
/// and its age in words.
pub open spec fn card(now: Timestamp, listing: Listing) -> Seq<char> {
    "<a href=\"/listing/"@ + listing.id@ + "\" class=\"listing-card\">\n                <div class=\"listing-image\"><img src=\""@
        + listing.image_url@ + "\" alt=\""@ + escaped(listing.title@)
        + "\" loading=\"lazy\"></div>\n                <div class=\"listing-info\">\n                    <p class=\"listing-price\">$"@
        + decimal_digits(whole_dollars(listing.price))
        + "</p>\n                    <h3 class=\"listing-title\">"@ + escaped(listing.title@)
        + "</h3>\n                    <div class=\"listing-meta\">\n                        <span class=\"listing-location\">\u{1F4CD} "@
        + escaped(listing.location@)
        + "</span>\n                        <span class=\"listing-time\">"@ + age_text(
        now,
        listing.created_at,
    )
        + "</span>\n                    </div>\n                </div>\n            </a>"@
}

/// Listings as cards, one after the other.
pub open spec fn cards(now: Timestamp, listings: Seq<Listing>) -> Seq<char>
    decreases listings.len(),
{
    if listings.len() == 0 {
        Seq::<char>::empty()
    } else {
        cards(now, listings.drop_last()) + card(now, listings.last())
    }
}

/// What the feed's fragment holds for a list of listings: a note that
/// nothing was found where there is none, and their cards otherwise.
pub open spec fn feed_fragment(now: Timestamp, listings: Seq<Listing>) -> Seq<char> {
    if listings.len() == 0 {
        "<div class=\"no-results\"><p>No listings found. Try a different search.</p></div>"@
    } else {
        cards(now, listings)
    }
}

/// Writes a listing as a card at the end of a text.
fn push_card(html: &mut String, now: Timestamp, listing: &Listing)
    ensures
        final(html)@ == old(html)@ + card(now, *listing),
{
    html.append("<a href=\"/listing/");
    html.append(listing.id.as_str());
    html.append(
        "\" class=\"listing-card\">\n                <div class=\"listing-image\"><img src=\"",
    );
    html.append(listing.image_url.as_str());
    html.append("\" alt=\"");
    push_escaped(html, listing.title.as_str());
    html.append(
        "\" loading=\"lazy\"></div>\n                <div class=\"listing-info\">\n                    <p class=\"listing-price\">$",
    );
    push_decimal(html, round_to_dollars(listing.price));
    html.append("</p>\n                    <h3 class=\"listing-title\">");
    push_escaped(html, listing.title.as_str());
    html.append(
        "</h3>\n                    <div class=\"listing-meta\">\n                        <span class=\"listing-location\">\u{1F4CD} ",
    );
    push_escaped(html, listing.location.as_str());
    html.append("</span>\n                        <span class=\"listing-time\">");
    let age = time_ago_at(now, listing.created_at);
    html.append(age.as_str());
    html.append("</span>\n                    </div>\n                </div>\n            </a>");
    assert(html@ == old(html)@ + card(now, *listing));
}

/// `html` is the feed's fragment for the listings that a query selects.
pub open spec fn is_feed_fragment(db: Db, now: Timestamp, query: SearchQuery, html: Seq<char>) -> bool {
    exists|listings: Seq<Listing>| #[trigger]
        is_selection(
            db,
            search_criteria(query),
            search_order(query.sort),
            Some(FEED_LIMIT),
            listings,
        ) && html == feed_fragment(now, listings)
}

/// The fragment that takes the feed's place when the search changes: the
/// cards of the listings that the query selects, at the given time.
pub fn feed_partial_at(db: &Db, now: Timestamp, query: &SearchQuery) -> (html: String)
    requires
        db.wf(),
    ensures
        is_feed_fragment(*db, now, *query, html@),
{
    let listings = get_listings(db, query);
    if listings.len() == 0 {
        let note =
            "<div class=\"no-results\"><p>No listings found. Try a different search.</p></div>";
        let html = note.to_owned();
        assert(is_selection(
            *db,
            search_criteria(*query),
            search_order(query.sort),
            Some(FEED_LIMIT),
            listings@,
        ) && html@ == feed_fragment(now, listings@));
        return html;
    }
    let mut html = String::new();
    let mut k: usize = 0;
    assert(listings@.take(0) == Seq::<Listing>::empty());
    while k < listings.len()
        invariant
            k <= listings@.len(),
            listings@.len() > 0,
            html@ == cards(now, listings@.take(k as int)),
        decreases listings@.len() - k,
    {
        proof {
            let more = listings@.take(k + 1);
            assert(more.drop_last() == listings@.take(k as int));
            assert(more.last() == listings@[k as int]);
        }
        push_card(&mut html, now, &listings[k]);
        k += 1;
    }
    proof {
        assert(listings@.take(k as int) == listings@);
        assert(is_selection(
            *db,
            search_criteria(*query),
            search_order(query.sort),
            Some(FEED_LIMIT),
            listings@,
        ) && html@ == feed_fragment(now, listings@));
    }
    html
}

/// The fragment that takes the feed's place when the search changes, now.
pub fn feed_partial(db: &Db, query: &SearchQuery) -> (html: String)
    requires
        db.wf(),
    ensures
        exists|now: Timestamp| is_feed_fragment(*db, now, *query, html@),
{
    let now = current_timestamp();
    let html = feed_partial_at(db, now, query);
    assert(is_feed_fragment(*db, now, *query, html@));
    html
}

/// What a listing's page shows: the listing, its seller, other listings of
/// the seller, the visitor's unread count, the listing's age in words,
/// whether the visitor is the seller, and the visitor's conversation about
/// the listing, if they have one.
#[derive(Debug, PartialEq, Eq)]
pub struct DetailPage {
    pub listing: Listing,
    pub seller: Option<User>,
    pub seller_listings: Vec<Listing>,
    pub unread_count: u64,
    pub time_ago: String,
    pub is_owner: bool,
    pub existing_convo: Option<Conversation>,
}

/// The answer to a request for a listing's page.
#[derive(Debug, PartialEq, Eq)]
pub enum DetailReply {
    /// There is no such listing.
    NotFound,
    /// The page.
    Page(DetailPage),
}

/// The first conversation of a list that is about a listing.
pub open spec fn first_about(conversations: Seq<Conversation>, listing_id: Seq<char>) -> Option<
    Conversation,
>
    decreases conversations.len(),
{
    if conversations.len() == 0 {
        None
    } else if conversations[0].listing_id@ == listing_id {
        Some(conversations[0])
    } else {
        first_about(conversations.skip(1), listing_id)
    }
}

/// The conversation about a listing that its page offers the visitor to go
/// on with: none for a visitor who is not logged in or who is the seller,
/// and else the first in the visitor's inbox that is about the listing.
pub open spec fn is_existing_conversation(
    db: Db,
    actor: Option<User>,
    listing: Listing,
    existing: Option<Conversation>,
) -> bool {
    match actor {
        Some(user) => if user.id@ == listing.seller_id@ {
            existing is None
        } else {
            exists|inbox: Seq<Conversation>| #[trigger]
                is_inbox(db, user.id@, inbox) && existing == first_about(inbox, listing.id@)
        },
        None => existing is None,
    }
}

/// The page of a listing at a time.
pub open spec fn is_detail_page(
    db: Db,
    now: Timestamp,
    actor: Option<User>,
    listing: Listing,
    page: DetailPage,
) -> bool {
    &&& page.listing == listing
    &&& page.seller == if has_user(db.users@, listing.seller_id@) {
        Some(user_by_id(db.users@, listing.seller_id@))
    } else {
        None
    }
    &&& is_selection(
        db,
        others_by(listing.seller_id@, listing.id@),
        ListingOrder::AsKept,
        Some(SELLER_LIMIT),
        page.seller_listings@,
    )
    &&& page.unread_count == unread_of(db, actor)
    &&& page.time_ago@ == age_text(now, listing.created_at)
    &&& page.is_owner == (actor matches Some(user) && user.id@ == listing.seller_id@)
    &&& is_existing_conversation(db, actor, listing, page.existing_convo)
}

/// The first conversation of a list that is about a listing.
fn find_about(conversations: Vec<Conversation>, listing_id: &String) -> (found: Option<
    Conversation,
>)
    ensures
        found == first_about(conversations@, listing_id@),
{
    let mut k: usize = 0;
    proof {
        assert(conversations@.skip(0) == conversations@);
    }
    while k < conversations.len()
        invariant
            k <= conversations@.len(),
            first_about(conversations@, listing_id@) == first_about(
                conversations@.skip(k as int),
                listing_id@,
            ),
        decreases conversations@.len() - k,
    {
        proof {
            let rest = conversations@.skip(k as int);
            assert(rest[0] == conversations@[k as int]);
            assert(rest.skip(1) == conversations@.skip(k + 1));
        }
        if conversations[k].listing_id == *listing_id {
            return Some(conversations[k].clone());
        }
        k += 1;
    }
    None
}

/// The page of a listing, at the given time.
pub fn listing_detail_at(db: &Db, now: Timestamp, actor: &Option<User>, id: &str) -> (reply:
    DetailReply)
    requires
        db.wf(),
    ensures
        match found_listing(*db, id@) {
            Some(listing) => reply matches DetailReply::Page(page) && is_detail_page(
                *db,
                now,
                *actor,
                listing,
                page,
            ),
            None => reply is NotFound,
        },
{
    let listing = match get_listing(db, id) {
        Some(listing) => listing,
        None => {
            return DetailReply::NotFound;
        },
    };
    let seller = get_user_by_id(db, listing.seller_id.as_str());
    let seller_listings = get_seller_listings(
        db,
        listing.seller_id.as_str(),
        listing.id.as_str(),
    );
    let is_owner = match actor {
        Some(user) => user.id == listing.seller_id,
        None => false,
    };
    let existing_convo = match actor {
        Some(user) => {
            if !is_owner {
                let inbox = get_user_conversations(db, user.id.as_str());
                let ghost listed = inbox@;
                let found = find_about(inbox, &listing.id);
                assert(is_inbox(*db, user.id@, listed) && found == first_about(
                    listed,
                    listing.id@,
                ));
                found
            } else {
                None
            }
        },
        None => None,
    };
    DetailReply::Page(
        DetailPage {
            time_ago: time_ago_at(now, listing.created_at),
            unread_count: count_unread(db, actor),
            listing,
            seller,
            seller_listings,
            is_owner,
            existing_convo,
        },
    )
}

/// The page of a listing, now.
pub fn listing_detail(db: &Db, actor: &Option<User>, id: &str) -> (reply: DetailReply)
    requires
        db.wf(),
    ensures
        match found_listing(*db, id@) {
            Some(listing) => reply matches DetailReply::Page(page) && exists|now: Timestamp|
                is_detail_page(*db, now, *actor, listing, page),
            None => reply is NotFound,
        },
{
    let now = current_timestamp();
    let reply = listing_detail_at(db, now, actor, id);
    proof {
        if found_listing(*db, id@) is Some {
            assert(is_detail_page(
                *db,
                now,
                *actor,
                found_listing(*db, id@)->Some_0,
                reply->Page_0,
            ));
        }
    }
    reply
}

/// One text field of a posted form: its name and what was typed.
#[derive(Debug, PartialEq, Eq)]
pub struct FormField {
    pub name: String,
    pub text: String,
}

/// The form with one field more taken in: a field named `title`,
/// `description`, `price`, `category`, `condition` or `location` replaces
/// what the form had there, and any other field is passed over.
pub open spec fn with_field(form: ListingForm, field: FormField) -> ListingForm {
    if field.name@ == "title"@ {
        ListingForm { title: field.text, ..form }
    } else if field.name@ == "description"@ {
        ListingForm { description: field.text, ..form }
    } else if field.name@ == "price"@ {
        ListingForm { price: field.text, ..form }
    } else if field.name@ == "category"@ {
        ListingForm { category: field.text, ..form }
    } else if field.name@ == "condition"@ {
        ListingForm { condition: field.text, ..form }
    } else if field.name@ == "location"@ {
        ListingForm { location: field.text, ..form }
    } else {
        form
    }
}

/// The form with a run of fields taken in, one after the other.
pub open spec fn with_fields(form: ListingForm, fields: Seq<FormField>) -> ListingForm
    decreases fields.len(),
{
    if fields.len() == 0 {
        form
    } else {
        with_field(with_fields(form, fields.drop_last()), fields.last())
    }
}

/// Whether a text is a given word.
fn is_word(text: &String, word: &str) -> (same: bool)
    ensures
        same == (text@ == word@),
{
    *text == word.to_owned()
}

/// Takes the fields of a posted form into a listing form, one after the
/// other, so that of two fields of one name the later counts.
pub fn read_listing_fields(start: ListingForm, fields: &Vec<FormField>) -> (form: ListingForm)
    ensures
        form == with_fields(start, fields@),
{
    let mut form = start;
    let mut k: usize = 0;
    assert(fields@.take(0) == Seq::<FormField>::empty());
    while k < fields.len()
        invariant
            k <= fields@.len(),
            form == with_fields(start, fields@.take(k as int)),
        decreases fields@.len() - k,
    {
        proof {
            let more = fields@.take(k + 1);
            assert(more.drop_last() == fields@.take(k as int));
            assert(more.last() == fields@[k as int]);
        }
        let field = &fields[k];
        if is_word(&field.name, "title") {
            form.title = field.text.clone();
        } else if is_word(&field.name, "description") {
            form.description = field.text.clone();
        } else if is_word(&field.name, "price") {
            form.price = field.text.clone();
        } else if is_word(&field.name, "category") {
            form.category = field.text.clone();
        } else if is_word(&field.name, "condition") {
            form.condition = field.text.clone();
        } else if is_word(&field.name, "location") {
            form.location = field.text.clone();
        }
        k += 1;
    }
    assert(fields@.take(k as int) == fields@);
    form
}

/// `form` is the form that a new listing starts from: everything empty, but
/// the condition, which is `Good`, and the location, which is the seller's
/// own.
pub open spec fn is_new_form(seller: User, form: ListingForm) -> bool {
    &&& form.title@ == Seq::<char>::empty()
    &&& form.description@ == Seq::<char>::empty()
    &&& form.price@ == Seq::<char>::empty()
    &&& form.category@ == Seq::<char>::empty()
    &&& form.condition@ == "Good"@
    &&& form.location == seller.location
}

/// `form` is the form that a change of a listing starts from: everything
/// empty, but the condition, which is `Good`.
pub open spec fn is_blank_form(form: ListingForm) -> bool {
    &&& form.title@ == Seq::<char>::empty()
    &&& form.description@ == Seq::<char>::empty()
    &&& form.price@ == Seq::<char>::empty()
    &&& form.category@ == Seq::<char>::empty()
    &&& form.condition@ == "Good"@
    &&& form.location@ == Seq::<char>::empty()
}

/// The image that a listing without an uploaded image shows.
pub const PLACEHOLDER_IMAGE: &'static str = "/static/images/placeholder.svg";

/// The answer to a seller's change to the catalog.
#[derive(Debug, PartialEq, Eq)]
pub enum ListingReply {
    /// Nobody is logged in: to the login page.
    Login,
    /// To the page of the listing with this identifier.
    Listing(String),
    /// To the profile page.
    Profile,
    /// The store refused the write.
    Failed(DbError),
}

/// The address of the image of a new listing: that of the uploaded image,
/// or of the placeholder where none was uploaded.
pub open spec fn image_or_placeholder(image_url: Option<&str>) -> Seq<char> {
    match image_url {
        Some(url) => url@,
        None => PLACEHOLDER_IMAGE@,
    }
}

/// The address of an uploaded image, if there is one.
pub open spec fn image_given(image_url: Option<&str>) -> Option<Seq<char>> {
    match image_url {
        Some(url) => Some(url@),
        None => None,
    }
}

/// The listing was written as the row described, from the form that the
/// posted fields make of the starting form.
pub open spec fn posted_as(
    before: Db,
    after: Db,
    user: User,
    fields: Seq<FormField>,
    image_url: Option<&str>,
    reply: ListingReply,
    row: ListingRow,
    start: ListingForm,
) -> bool {
    &&& is_new_form(user, start)
    &&& match reply {
        ListingReply::Listing(id) => listed(
            before,
            after,
            row,
            user.id@,
            with_fields(start, fields),
            image_or_placeholder(image_url),
            Ok(id),
        ),
        ListingReply::Failed(e) => listed(
            before,
            after,
            row,
            user.id@,
            with_fields(start, fields),
            image_or_placeholder(image_url),
            Err(e),
        ),
        _ => false,
    }
}

/// What posting a new listing does: whoever is logged in gets a listing
/// made of the posted fields, with their own location where none is posted,
/// the condition `Good` where none is posted, and the placeholder image
/// where none was uploaded.
pub open spec fn listing_posted(
    before: Db,
    after: Db,
    actor: Option<User>,
    fields: Seq<FormField>,
    image_url: Option<&str>,
    reply: ListingReply,
) -> bool {
    match actor {
        None => after == before && reply is Login,
        Some(user) => exists|row: ListingRow, start: ListingForm|
            posted_as(before, after, user, fields, image_url, reply, row, start),
    }
}

/// Posts a new listing of whoever is logged in, from the text fields of the
/// posted form and the address of the uploaded image, if there is one.
pub fn create_listing(
    db: &mut Db,
    actor: &Option<User>,
    fields: &Vec<FormField>,
    image_url: Option<&str>,
) -> (reply: ListingReply)
    requires
        old(db).wf(),
    ensures
        final(db).wf(),
        listing_posted(*old(db), *final(db), *actor, fields@, image_url, reply),
{
    let user = match actor {
        Some(user) => user,
        None => {
            return ListingReply::Login;
        },
    };
    let start = ListingForm {
        title: String::new(),
        description: String::new(),
        price: String::new(),
        category: String::new(),
        condition: "Good".to_owned(),
        location: user.location.clone(),
    };
    let ghost first = start;
    let form = read_listing_fields(start, fields);
    let image = match image_url {
        Some(url) => url,
        None => PLACEHOLDER_IMAGE,
    };
    let outcome = crate::db::listings::create_listing(db, user.id.as_str(), &form, image);
    let reply = match outcome {
        Ok(id) => ListingReply::Listing(id),
        Err(e) => ListingReply::Failed(e),
    };
    proof {
        let row = choose|row: ListingRow|
            listed(*old(db), *db, row, user.id@, form, image@, outcome);
        assert(posted_as(*old(db), *db, *user, fields@, image_url, reply, row, first));
    }
    reply
}

/// The listing was revised by the form that the posted fields make of the
/// starting form.
pub open spec fn revised_as(
    before: Db,
    after: Db,
    user: User,
    id: Seq<char>,
    fields: Seq<FormField>,
    image_url: Option<&str>,
    start: ListingForm,
) -> bool {
    &&& is_blank_form(start)
    &&& listing_updated(
        before,
        after,
        id,
        user.id@,
        with_fields(start, fields),
        image_given(image_url),
        crate::db::listings::sells(before, id, user.id@),
    )
}

/// What posting a change to a listing does: where whoever is logged in is
/// the listing's seller, the listing is revised by the posted fields, and
/// gets the uploaded image where there is one. The answer leads back to the
/// listing either way.
pub open spec fn listing_revised(
    before: Db,
    after: Db,
    actor: Option<User>,
    id: Seq<char>,
    fields: Seq<FormField>,
    image_url: Option<&str>,
    reply: ListingReply,
) -> bool {
    match actor {
        None => after == before && reply is Login,
        Some(user) => {
            &&& reply matches ListingReply::Listing(shown)
            &&& shown@ == id
            &&& exists|start: ListingForm|
                revised_as(before, after, user, id, fields, image_url, start)
        },
    }
}

/// Posts a change to a listing on behalf of whoever is logged in, from the
/// text fields of the posted form and the address of the uploaded image, if
/// there is one.
pub fn update_listing(
    db: &mut Db,
    actor: &Option<User>,
    id: &str,
    fields: &Vec<FormField>,
    image_url: Option<&str>,
) -> (reply: ListingReply)
    requires
        old(db).wf(),
    ensures
        final(db).wf(),
        listing_revised(*old(db), *final(db), *actor, id@, fields@, image_url, reply),
{
    let user = match actor {
        Some(user) => user,
        None => {
            return ListingReply::Login;
        },
    };
    let start = ListingForm {
        title: String::new(),
        description: String::new(),
        price: String::new(),
        category: String::new(),
        condition: "Good".to_owned(),
        location: String::new(),
    };
    let ghost first = start;
    let form = read_listing_fields(start, fields);
    let updated = crate::db::listings::update_listing(db, id, user.id.as_str(), &form, image_url);
    proof {
        assert(revised_as(*old(db), *db, *user, id@, fields@, image_url, first));
    }
    ListingReply::Listing(id.to_owned())
}

/// What marking a listing as sold does: where whoever is logged in is the
/// listing's seller, its status becomes `Sold`. The answer leads back to the
/// listing either way.
pub open spec fn sold_marked(
    before: Db,
    after: Db,
    actor: Option<User>,
    id: Seq<char>,
    reply: ListingReply,
) -> bool {
    match actor {
        None => after == before && reply is Login,
        Some(user) => {
            &&& reply matches ListingReply::Listing(shown)
            &&& shown@ == id
            &&& status_updated(
                before,
                after,
                id,
                user.id@,
                ListingStatus::Sold,
                crate::db::listings::sells(before, id, user.id@),
            )
        },
    }
}

/// Marks a listing as sold on behalf of whoever is logged in.
pub fn mark_sold(db: &mut Db, actor: &Option<User>, id: &str) -> (reply: ListingReply)
    requires
        old(db).wf(),
    ensures
        final(db).wf(),
        sold_marked(*old(db), *final(db), *actor, id@, reply),
{
    let user = match actor {
        Some(user) => user,
        None => {
            return ListingReply::Login;
        },
    };
    crate::db::listings::update_listing_status(db, id, user.id.as_str(), ListingStatus::Sold);
    ListingReply::Listing(id.to_owned())
}

/// What deleting a listing does: where whoever is logged in is the
/// listing's seller and nothing refers to it, it is gone. The answer leads
/// to the profile page either way.
pub open spec fn listing_removed(
    before: Db,
    after: Db,
    actor: Option<User>,
    id: Seq<char>,
    reply: ListingReply,
) -> bool {
    match actor {
        None => after == before && reply is Login,
        Some(user) => reply is Profile && listing_deleted(
            before,
            after,
            id,
            user.id@,
            crate::db::listings::sells(before, id, user.id@) && !crate::db::listings::is_referenced(
                before,
                id,
            ),
        ),
    }
}

/// Deletes a listing on behalf of whoever is logged in.
pub fn delete_listing(db: &mut Db, actor: &Option<User>, id: &str) -> (reply: ListingReply)
    requires
        old(db).wf(),
    ensures
        final(db).wf(),
        listing_removed(*old(db), *final(db), *actor, id@, reply),
{
    let user = match actor {
        Some(user) => user,
        None => {
            return ListingReply::Login;
        },
    };
    crate::db::listings::delete_listing(db, id, user.id.as_str());
    ListingReply::Profile
}

/// What the editor of a listing shows.
#[derive(Debug, PartialEq, Eq)]
pub struct EditorPage {
    /// The listing that is changed; none for a new one.
    pub listing: Option<Listing>,
    pub unread_count: u64,
    pub editing: bool,
}

/// The answer to a request for the editor of a listing.
#[derive(Debug, PartialEq, Eq)]
pub enum EditorReply {
    /// Nobody is logged in: to the login page.
    Login,
    /// The listing does not exist or is not the user's: to the feed.
    Home,
    /// The editor.
    Page(EditorPage),
}

/// The editor for a new listing of whoever is logged in.
pub fn new_listing_page(db: &Db, actor: &Option<User>) -> (reply: EditorReply)
    requires
        db.wf(),
    ensures
        match *actor {
            Some(user) => reply == EditorReply::Page(
                EditorPage {
                    listing: None,
                    unread_count: unread_total(*db, user.id@) as u64,
                    editing: false,
                },
            ),
            None => reply is Login,
        },
{
    match actor {
        Some(user) => EditorReply::Page(
            EditorPage {
                listing: None,
                unread_count: get_unread_count(db, user.id.as_str()),
                editing: false,
            },
        ),
        None => EditorReply::Login,
    }
}

/// The editor for a listing of whoever is logged in. Only its seller gets
/// it.
pub fn edit_listing_page(db: &Db, actor: &Option<User>, id: &str) -> (reply: EditorReply)
    requires
        db.wf(),
    ensures
        match *actor {
            Some(user) => match found_listing(*db, id@) {
                Some(listing) => if listing.seller_id@ == user.id@ {
                    reply == EditorReply::Page(
                        EditorPage {
                            listing: Some(listing),
                            unread_count: unread_total(*db, user.id@) as u64,
                            editing: true,
                        },
                    )
                } else {
                    reply is Home
                },
                None => reply is Home,
            },
            None => reply is Login,
        },
{
    let user = match actor {
        Some(user) => user,
        None => {
            return EditorReply::Login;
        },
    };
    match get_listing(db, id) {
        Some(listing) => {
            if listing.seller_id == user.id {
                EditorReply::Page(
                    EditorPage {
                        listing: Some(listing),
                        unread_count: get_unread_count(db, user.id.as_str()),
                        editing: true,
                    },
                )
            } else {
                EditorReply::Home
            }
        },
        None => EditorReply::Home,
    }
}

/// What follows the last point of a file name; the whole name where it has
/// no point.
pub open spec fn extension_of(name: Seq<char>) -> Seq<char>
    decreases name.len(),
{
    if name.len() == 0 {
        name
    } else if name.last() == '.' {
        Seq::<char>::empty()
    } else {
        extension_of(name.drop_last()).push(name.last())
    }
}

/// A name from `from` on has the extension of the whole name where no
/// point stands from `from` on and one stands just before, or the name
/// begins there.
proof fn lemma_extension_of(name: Seq<char>, from: int)
    requires
        0 <= from <= name.len(),
        forall|k: int| from <= k < name.len() ==> #[trigger] name[k] != '.',
        from > 0 ==> name[from - 1] == '.',
    ensures
        extension_of(name) == name.skip(from),
    decreases name.len() - from,
{
    if from < name.len() {
        let rest = name.drop_last();
        assert forall|k: int| from <= k < rest.len() implies #[trigger] rest[k] != '.' by {
            assert(rest[k] == name[k]);
        }
        if from > 0 {
            assert(rest[from - 1] == name[from - 1]);
        }
        lemma_extension_of(rest, from);
        assert(rest.skip(from).push(name.last()) == name.skip(from));
    } else {
        assert(name.skip(from) == Seq::<char>::empty());
        if name.len() > 0 {
            assert(name.last() == name[from - 1]);
        }
    }
}

/// The address under which an uploaded image is kept and shown: the images'
/// directory, an identifier, a point, and the extension of the name that
/// the file came with.
pub open spec fn image_address(id: Seq<char>, file_name: Seq<char>) -> Seq<char> {
    "/static/images/"@ + id + seq!['.'] + extension_of(file_name)
}

/// The address under which an uploaded image is kept and shown, made of the
/// given identifier.
pub fn upload_address_at(id: &str, file_name: &str) -> (address: String)
    ensures
        address@ == image_address(id@, file_name@),
{
    let n = file_name.unicode_len();
    let mut from: usize = n;
    while from > 0 && file_name.get_char(from - 1) != '.'
        invariant
            from <= n,
            n == file_name@.len(),
            forall|k: int| from <= k < n ==> #[trigger] file_name@[k] != '.',
        decreases from,
    {
        from -= 1;
    }
    proof {
        lemma_extension_of(file_name@, from as int);
    }
    let mut address = "/static/images/".to_owned();
    address.append(id);
    address.append(".");
    address.append(file_name.substring_char(from, n));
    proof {
        reveal_strlit(".");
        assert("."@ =~= seq!['.']);
        assert(file_name@.subrange(from as int, n as int) == file_name@.skip(from as int));
    }
    address
}

/// The address under which an uploaded image is kept and shown, made of a
/// new identifier.
pub fn upload_address(file_name: &str) -> (address: String)
    ensures
        exists|id: Seq<char>| address@ == image_address(id, file_name@),
{
    let id = crate::host::fresh_id();
    let address = upload_address_at(id.as_str(), file_name);
    assert(address@ == image_address(id@, file_name@));
    address
}

} // verus!

//! The listing catalog: what is for sale, by whom, and in which state.

use vstd::prelude::*;
use vstd::string::StrSliceExecFns;
use crate::db::{
    conversations_wf, has_listing, has_user, lemma_listing_by_id, lemma_listings_extend,
    listing_by_id, listings_wf, offers_wf, user_by_id, Db, DbError,
};
use crate::host::{current_timestamp, fresh_id};
use crate::models::{
    Category, Cents, Listing, ListingForm, ListingRow, ListingStatus, SearchQuery, Timestamp, User,
};
use crate::order::{is_stable_order, stable_order};
use crate::seqs::{lemma_filter_empty, lemma_filter_take_step};
use crate::text::{
    contains_chars, contains_text, lemma_precedes_total, lemma_precedes_transitive, parse_amount,
    parsed_amount, precedes, text_precedes, to_chars,
};

verus! {

/// A listing as it is handed out: the row with its seller's display name.
pub open spec fn listing_of(users: Seq<User>, row: ListingRow) -> Listing {
    Listing {
        id: row.id,
        seller_id: row.seller_id,
        seller_name: user_by_id(users, row.seller_id@).name,
        title: row.title,
        description: row.description,
        price: row.price,
        category: row.category,
        condition: row.condition,
        location: row.location,
        image_url: row.image_url,
        status: row.status,
        created_at: row.created_at,
    }
}

/// The price that a form asks: the amount that its price field writes, or
/// nothing where it writes none.
pub open spec fn asked_price(form: ListingForm) -> Cents {
    match parsed_amount(form.price@) {
        Some(cents) => cents,
        None => 0,
    }
}

/// Joins a listing with its seller's name.
fn join_listing(db: &Db, row: &ListingRow) -> (listing: Listing)
    requires
        db.wf(),
        has_user(db.users@, row.seller_id@),
    ensures
        listing == listing_of(db.users@, *row),
{
    let seller = db.user(row.seller_id.as_str());
    Listing {
        id: row.id.clone(),
        seller_id: row.seller_id.clone(),
        seller_name: seller.name.clone(),
        title: row.title.clone(),
        description: row.description.clone(),
        price: row.price,
        category: row.category.clone(),
        condition: row.condition.clone(),
        location: row.location.clone(),
        image_url: row.image_url.clone(),
        status: row.status,
        created_at: row.created_at,
    }
}

/// What writing a listing does: the row is added at the end of the catalog,
/// unless its seller is unknown or its identifier is taken; then nothing
/// changes. No other table changes.
pub open spec fn listing_written(
    before: Db,
    after: Db,
    row: ListingRow,
    outcome: Result<(), DbError>,
) -> bool {
    if !has_user(before.users@, row.seller_id@) {
        after == before && outcome == Err::<(), DbError>(DbError::UnknownUser)
    } else if has_listing(before.listings@, row.id@) {
        after == before && outcome == Err::<(), DbError>(DbError::DuplicateId)
    } else {
        &&& outcome == Ok::<(), DbError>(())
        &&& after.listings@ == before.listings@.push(row)
        &&& after.users == before.users
        &&& after.conversations == before.conversations
        &&& after.messages == before.messages
        &&& after.offers == before.offers
        &&& after.reads == before.reads
        &&& after.sessions == before.sessions
    }
}

/// Writes a listing into the catalog as it is given.
pub fn insert_listing(db: &mut Db, row: ListingRow) -> (outcome: Result<(), DbError>)
    requires
        old(db).wf(),
    ensures
        final(db).wf(),
        listing_written(*old(db), *final(db), row, outcome),
{
    if db.find_user(row.seller_id.as_str()).is_none() {
        return Err(DbError::UnknownUser);
    }
    if db.find_listing(row.id.as_str()).is_some() {
        return Err(DbError::DuplicateId);
    }
    db.listings.push(row);
    proof {
        lemma_listings_extend(old(db).listings@, db.listings@);
    }
    Ok(())
}

/// The listing that a seller's form describes, new and active.
pub open spec fn describes(
    row: ListingRow,
    id: Seq<char>,
    now: Timestamp,
    seller_id: Seq<char>,
    form: ListingForm,
    image_url: Seq<char>,
) -> bool {
    &&& row.id@ == id
    &&& row.seller_id@ == seller_id
    &&& row.title@ == form.title@
    &&& row.description@ == form.description@
    &&& row.price == asked_price(form)
    &&& row.category@ == form.category@
    &&& row.condition@ == form.condition@
    &&& row.location@ == form.location@
    &&& row.image_url@ == image_url
    &&& row.status == ListingStatus::Active
    &&& row.created_at == now
}

/// What creating a listing does, given the row that was made of the form:
/// the row is written, and where that went well it is the listing that the
/// form describes, under the identifier handed back.
pub open spec fn listed(
    before: Db,
    after: Db,
    row: ListingRow,
    seller_id: Seq<char>,
    form: ListingForm,
    image_url: Seq<char>,
    outcome: Result<String, DbError>,
) -> bool {
    &&& listing_written(
        before,
        after,
        row,
        match outcome {
            Ok(_) => Ok(()),
            Err(e) => Err(e),
        },
    )
    &&& row.seller_id@ == seller_id
    &&& outcome matches Ok(id) ==> describes(
        row,
        id@,
        row.created_at,
        seller_id,
        form,
        image_url,
    )
}

/// Puts a new listing into the catalog from a seller's form, under a new
/// identifier at the current time, and hands the identifier back. A price
/// that cannot be read counts as zero.
pub fn create_listing(db: &mut Db, seller_id: &str, form: &ListingForm, image_url: &str) -> (outcome:
    Result<String, DbError>)
    requires
        old(db).wf(),
    ensures
        final(db).wf(),
        exists|row: ListingRow|
            listed(*old(db), *final(db), row, seller_id@, *form, image_url@, outcome),
{
    let id = fresh_id();
    let now = current_timestamp();
    let price = match parse_amount(form.price.as_str()) {
        Some(cents) => cents,
        None => 0,
    };
    let row = ListingRow {
        id: id.clone(),
        seller_id: seller_id.to_owned(),
        title: form.title.clone(),
        description: form.description.clone(),
        price,
        category: form.category.clone(),
        condition: form.condition.clone(),
        location: form.location.clone(),
        image_url: image_url.to_owned(),
        status: ListingStatus::Active,
        created_at: now,
    };
    let ghost written = row;
    let outcome = match insert_listing(db, row) {
        Ok(()) => Ok(id),
        Err(e) => Err(e),
    };
    assert(listed(*old(db), *db, written, seller_id@, *form, image_url@, outcome));
    outcome
}

/// The listing with this identifier, with its seller's name, if there is one.
pub open spec fn found_listing(db: Db, id: Seq<char>) -> Option<Listing> {
    if has_listing(db.listings@, id) {
        Some(listing_of(db.users@, listing_by_id(db.listings@, id)))
    } else {
        None
    }
}

/// The listing with this identifier, with its seller's name, if there is one.
pub fn get_listing(db: &Db, id: &str) -> (found: Option<Listing>)
    requires
        db.wf(),
    ensures
        found == found_listing(*db, id@),
{
    match db.find_listing(id) {
        Some(i) => {
            proof {
                lemma_listing_by_id(db.listings@, i as int);
            }
            Some(join_listing(db, &db.listings[i]))
        },
        None => None,
    }
}

/// How a list of listings is ordered.
#[derive(Clone, Copy, Debug, PartialEq, Eq, Structural)]
pub enum ListingOrder {
    /// Latest first.
    Newest,
    /// Earliest first.
    Oldest,
    /// Lowest price first.
    Cheapest,
    /// Highest price first.
    Dearest,
    /// As the catalog keeps them.
    AsKept,
}

/// What a search asks of a listing, as plain values. A test that is `None`
/// is not made.
pub struct Criteria {
    /// Only active listings pass.
    pub active_only: bool,
    /// The listing is this seller's.
    pub seller_id: Option<Seq<char>>,
    /// The listing is not the one with this identifier.
    pub exclude_id: Option<Seq<char>>,
    /// The title or the description contains this text.
    pub text: Option<Seq<char>>,
    /// The listing is in this category.
    pub category: Option<Seq<char>>,
    /// The listing is in this condition.
    pub condition: Option<Seq<char>>,
    /// The price is this at least.
    pub min_price: Option<Cents>,
    /// The price is this at most.
    pub max_price: Option<Cents>,
}

/// What a search asks of a listing.
pub struct ListingFilter {
    pub active_only: bool,
    pub seller_id: Option<String>,
    pub exclude_id: Option<String>,
    pub text: Option<Vec<char>>,
    pub category: Option<String>,
    pub condition: Option<String>,
    pub min_price: Option<Cents>,
    pub max_price: Option<Cents>,
}

/// The text of an optional string.
pub open spec fn text_of(text: Option<String>) -> Option<Seq<char>> {
    match text {
        Some(s) => Some(s@),
        None => None,
    }
}

impl View for ListingFilter {
    type V = Criteria;

    open spec fn view(&self) -> Criteria {
        Criteria {
            active_only: self.active_only,
            seller_id: text_of(self.seller_id),
            exclude_id: text_of(self.exclude_id),
            text: match self.text {
                Some(chars) => Some(chars@),
                None => None,
            },
            category: text_of(self.category),
            condition: text_of(self.condition),
            min_price: self.min_price,
            max_price: self.max_price,
        }
    }
}

/// The listing meets the criteria.
pub open spec fn meets(criteria: Criteria, row: ListingRow) -> bool {
    &&& criteria.active_only ==> row.status == ListingStatus::Active
    &&& criteria.seller_id matches Some(seller) ==> row.seller_id@ == seller
    &&& criteria.exclude_id matches Some(id) ==> row.id@ != id
    &&& criteria.text matches Some(text) ==> contains_text(row.title@, text) || contains_text(
        row.description@,
        text,
    )
    &&& criteria.category matches Some(category) ==> row.category@ == category
    &&& criteria.condition matches Some(condition) ==> row.condition@ == condition
    &&& criteria.min_price matches Some(least) ==> row.price >= least
    &&& criteria.max_price matches Some(most) ==> row.price <= most
}

/// The test for the listings that meet the criteria.
pub open spec fn meeting(criteria: Criteria) -> spec_fn(ListingRow) -> bool {
    |row: ListingRow| meets(criteria, row)
}

/// The key by which an order sorts a listing, ascending.
pub open spec fn order_key(order: ListingOrder, row: ListingRow) -> i128 {
    match order {
        ListingOrder::Newest => (-(row.created_at as int)) as i128,
        ListingOrder::Oldest => row.created_at as i128,
        ListingOrder::Cheapest => row.price as i128,
        ListingOrder::Dearest => (-(row.price as int)) as i128,
        ListingOrder::AsKept => 0,
    }
}

/// The keys by which an order sorts listings.
pub open spec fn order_keys(order: ListingOrder, rows: Seq<ListingRow>) -> Seq<i128> {
    rows.map_values(|row: ListingRow| order_key(order, row))
}

/// How many listings a selection holds: all that meet the criteria, or as
/// many as the limit allows.
pub open spec fn limited(count: nat, limit: Option<usize>) -> nat {
    match limit {
        Some(most) => if most < count {
            most as nat
        } else {
            count
        },
        None => count,
    }
}

/// `found` lists the listings that meet the criteria, each with its seller's
/// name, in the given order and no more of them than the limit allows;
/// listings that the order does not tell apart stand as the catalog keeps
/// them.
pub open spec fn is_selection(
    db: Db,
    criteria: Criteria,
    order: ListingOrder,
    limit: Option<usize>,
    found: Seq<Listing>,
) -> bool {
    let rows = db.listings@.filter(meeting(criteria));
    exists|places: Seq<usize>| #[trigger]
        is_stable_order(order_keys(order, rows), places) && found.len() == limited(
            rows.len(),
            limit,
        ) && forall|k: int|
            0 <= k < found.len() ==> #[trigger] found[k] == listing_of(
                db.users@,
                rows[places[k] as int],
            )
}

/// Whether two texts are the same.
fn same_text(a: &String, b: &String) -> (same: bool)
    ensures
        same == (a@ == b@),
{
    *a == *b
}

impl ListingFilter {
    /// Whether a listing meets the criteria.
    pub fn admits(&self, row: &ListingRow) -> (met: bool)
        ensures
            met == meets(self@, *row),
    {
        if self.active_only {
            match row.status {
                ListingStatus::Active => {},
                _ => {
                    return false;
                },
            }
        }
        match &self.seller_id {
            Some(seller) => {
                if !same_text(&row.seller_id, seller) {
                    return false;
                }
            },
            None => {},
        }
        match &self.exclude_id {
            Some(id) => {
                if same_text(&row.id, id) {
                    return false;
                }
            },
            None => {},
        }
        match &self.text {
            Some(text) => {
                let title = to_chars(row.title.as_str());
                if !contains_chars(&title, text) {
                    let description = to_chars(row.description.as_str());
                    if !contains_chars(&description, text) {
                        return false;
                    }
                }
            },
            None => {},
        }
        match &self.category {
            Some(category) => {
                if !same_text(&row.category, category) {
                    return false;
                }
            },
            None => {},
        }
        match &self.condition {
            Some(condition) => {
                if !same_text(&row.condition, condition) {
                    return false;
                }
            },
            None => {},
        }
        match self.min_price {
            Some(least) => {
                if row.price < least {
                    return false;
                }
            },
            None => {},
        }
        match self.max_price {
            Some(most) => {
                if row.price > most {
                    return false;
                }
            },
            None => {},
        }
        true
    }
}

/// The key by which an order sorts a listing.
fn key_of(order: ListingOrder, row: &ListingRow) -> (key: i128)
    ensures
        key == order_key(order, *row),
{
    match order {
        ListingOrder::Newest => -(row.created_at as i128),
        ListingOrder::Oldest => row.created_at as i128,
        ListingOrder::Cheapest => row.price as i128,
        ListingOrder::Dearest => -(row.price as i128),
        ListingOrder::AsKept => 0,
    }
}

/// The listings that meet a filter, each with its seller's name, in the given
/// order, and no more of them than the limit allows.
pub fn select_listings(
    db: &Db,
    filter: &ListingFilter,
    order: ListingOrder,
    limit: Option<usize>,
) -> (found: Vec<Listing>)
    requires
        db.wf(),
    ensures
        is_selection(*db, filter@, order, limit, found@),
{
    let ghost keep = meeting(filter@);
    let ghost rows = db.listings@.filter(keep);
    let mut places: Vec<usize> = Vec::new();
    let mut keys: Vec<i128> = Vec::new();
    let mut i: usize = 0;
    proof {
        lemma_filter_empty(db.listings@.take(0), keep);
    }
    while i < db.listings.len()
        invariant
            i <= db.listings@.len(),
            keep == meeting(filter@),
            places@.len() == keys@.len(),
            places@.len() == db.listings@.take(i as int).filter(keep).len(),
            forall|k: int|
                0 <= k < places@.len() ==> (#[trigger] places@[k]) < i && db.listings@[places@[k] as int]
                    == db.listings@.take(i as int).filter(keep)[k],
            keys@ == order_keys(order, db.listings@.take(i as int).filter(keep)),
        decreases db.listings@.len() - i,
    {
        let row = &db.listings[i];
        proof {
            lemma_filter_take_step(db.listings@, keep, i as int);
        }
        if filter.admits(row) {
            places.push(i);
            keys.push(key_of(order, row));
            proof {
                let more = db.listings@.take(i + 1).filter(keep);
                assert(keys@ =~= order_keys(order, more));
            }
        }
        i += 1;
    }
    proof {
        assert(db.listings@.take(i as int) == db.listings@);
    }
    let sorted = stable_order(&keys);
    let count = match limit {
        Some(most) => if most < sorted.len() {
            most
        } else {
            sorted.len()
        },
        None => sorted.len(),
    };
    let mut found: Vec<Listing> = Vec::new();
    let mut k: usize = 0;
    while k < count
        invariant
            db.wf(),
            k <= count <= sorted@.len(),
            rows == db.listings@.filter(meeting(filter@)),
            is_stable_order(keys@, sorted@),
            keys@.len() == places@.len(),
            places@.len() == rows.len(),
            forall|j: int|
                0 <= j < places@.len() ==> (#[trigger] places@[j]) < db.listings@.len()
                    && db.listings@[places@[j] as int] == rows[j],
            found@.len() == k,
            forall|j: int|
                0 <= j < k ==> #[trigger] found@[j] == listing_of(
                    db.users@,
                    rows[sorted@[j] as int],
                ),
        decreases count - k,
    {
        let place = places[sorted[k]];
        let listing = join_listing(db, &db.listings[place]);
        found.push(listing);
        k += 1;
    }
    proof {
        assert(is_stable_order(order_keys(order, rows), sorted@));
    }
    found
}

/// The text of an optional string that is not empty; an empty one counts as
/// none.
pub open spec fn given(text: Option<String>) -> Option<Seq<char>> {
    match text {
        Some(s) => if s@.len() > 0 {
            Some(s@)
        } else {
            None
        },
        None => None,
    }
}

/// The amount that an optional text writes, if it writes one.
pub open spec fn price_bound(text: Option<String>) -> Option<Cents> {
    match text {
        Some(s) => parsed_amount(s@),
        None => None,
    }
}

/// What the feed's query asks of a listing: it is active, and it meets every
/// filter that the query gives. A filter that is empty, or a price that
/// cannot be read, is not applied.
pub open spec fn search_criteria(query: SearchQuery) -> Criteria {
    Criteria {
        active_only: true,
        seller_id: None,
        exclude_id: None,
        text: given(query.q),
        category: given(query.category),
        condition: given(query.condition),
        min_price: price_bound(query.min_price),
        max_price: price_bound(query.max_price),
    }
}

/// The order that the feed's query asks for: by price, ascending or
/// descending, oldest first, or else newest first.
pub open spec fn search_order(sort: Option<String>) -> ListingOrder {
    match sort {
        Some(s) => if s@ == "price_asc"@ {
            ListingOrder::Cheapest
        } else if s@ == "price_desc"@ {
            ListingOrder::Dearest
        } else if s@ == "oldest"@ {
            ListingOrder::Oldest
        } else {
            ListingOrder::Newest
        },
        None => ListingOrder::Newest,
    }
}

/// How many listings the feed shows at most.
pub const FEED_LIMIT: usize = 50;

/// How many other listings of a seller a listing's page shows at most.
pub const SELLER_LIMIT: usize = 4;

/// A copy of an optional text that is not empty.
fn copy_given(text: &Option<String>) -> (copy: Option<String>)
    ensures
        text_of(copy) == given(*text),
{
    match text {
        Some(s) => if s.as_str().unicode_len() > 0 {
            Some(s.clone())
        } else {
            None
        },
        None => None,
    }
}

/// The amount that an optional text writes.
fn read_bound(text: &Option<String>) -> (bound: Option<Cents>)
    ensures
        bound == price_bound(*text),
{
    match text {
        Some(s) => parse_amount(s.as_str()),
        None => None,
    }
}

/// The order that a query's `sort` names.
pub fn order_named(sort: &Option<String>) -> (order: ListingOrder)
    ensures
        order == search_order(*sort),
{
    match sort {
        Some(s) => {
            if same_text(s, &"price_asc".to_owned()) {
                ListingOrder::Cheapest
            } else if same_text(s, &"price_desc".to_owned()) {
                ListingOrder::Dearest
            } else if same_text(s, &"oldest".to_owned()) {
                ListingOrder::Oldest
            } else {
                ListingOrder::Newest
            }
        },
        None => ListingOrder::Newest,
    }
}

/// The feed: the active listings that meet a query's filters, in the order
/// that it asks for, fifty at most.
pub fn get_listings(db: &Db, query: &SearchQuery) -> (found: Vec<Listing>)
    requires
        db.wf(),
    ensures
        is_selection(
            *db,
            search_criteria(*query),
            search_order(query.sort),
            Some(FEED_LIMIT),
            found@,
        ),
{
    let text = match copy_given(&query.q) {
        Some(q) => Some(to_chars(q.as_str())),
        None => None,
    };
    let filter = ListingFilter {
        active_only: true,
        seller_id: None,
        exclude_id: None,
        text,
        category: copy_given(&query.category),
        condition: copy_given(&query.condition),
        min_price: read_bound(&query.min_price),
        max_price: read_bound(&query.max_price),
    };
    assert(filter@ == search_criteria(*query));
    select_listings(db, &filter, order_named(&query.sort), Some(FEED_LIMIT))
}

/// What a seller's own list asks of a listing: that it is the seller's.
pub open spec fn owned_by(seller_id: Seq<char>) -> Criteria {
    Criteria {
        active_only: false,
        seller_id: Some(seller_id),
        exclude_id: None,
        text: None,
        category: None,
        condition: None,
        min_price: None,
        max_price: None,
    }
}

/// Every listing of a seller, whatever its status, newest first.
pub fn get_user_listings(db: &Db, user_id: &str) -> (found: Vec<Listing>)
    requires
        db.wf(),
    ensures
        is_selection(*db, owned_by(user_id@), ListingOrder::Newest, None, found@),
{
    let filter = ListingFilter {
        active_only: false,
        seller_id: Some(user_id.to_owned()),
        exclude_id: None,
        text: None,
        category: None,
        condition: None,
        min_price: None,
        max_price: None,
    };
    assert(filter@ == owned_by(user_id@));
    select_listings(db, &filter, ListingOrder::Newest, None)
}

/// What a listing's page asks of the seller's other listings: that they are
/// the seller's, active, and not the listing itself.
pub open spec fn others_by(seller_id: Seq<char>, exclude_id: Seq<char>) -> Criteria {
    Criteria {
        active_only: true,
        seller_id: Some(seller_id),
        exclude_id: Some(exclude_id),
        text: None,
        category: None,
        condition: None,
        min_price: None,
        max_price: None,
    }
}

/// The other active listings of a seller, as the catalog keeps them, four at
/// most.
pub fn get_seller_listings(db: &Db, seller_id: &str, exclude_id: &str) -> (found: Vec<Listing>)
    requires
        db.wf(),
    ensures
        is_selection(
            *db,
            others_by(seller_id@, exclude_id@),
            ListingOrder::AsKept,
            Some(SELLER_LIMIT),
            found@,
        ),
{
    let filter = ListingFilter {
        active_only: true,
        seller_id: Some(seller_id.to_owned()),
        exclude_id: Some(exclude_id.to_owned()),
        text: None,
        category: None,
        condition: None,
        min_price: None,
        max_price: None,
    };
    assert(filter@ == others_by(seller_id@, exclude_id@));
    select_listings(db, &filter, ListingOrder::AsKept, Some(SELLER_LIMIT))
}

/// The user is the seller of the listing with this identifier.
pub open spec fn sells(db: Db, listing_id: Seq<char>, seller_id: Seq<char>) -> bool {
    has_listing(db.listings@, listing_id) && listing_by_id(db.listings@, listing_id).seller_id@
        == seller_id
}

/// `revised` is `row` with what a form gives: title, description, price,
/// category, condition and location are the form's, and the image is the new
/// one where there is one. All else is kept.
pub open spec fn is_revision(
    row: ListingRow,
    revised: ListingRow,
    form: ListingForm,
    image_url: Option<Seq<char>>,
) -> bool {
    &&& revised.id == row.id
    &&& revised.seller_id == row.seller_id
    &&& revised.title == form.title
    &&& revised.description == form.description
    &&& revised.price == asked_price(form)
    &&& revised.category == form.category
    &&& revised.condition == form.condition
    &&& revised.location == form.location
    &&& revised.image_url@ == match image_url {
        Some(url) => url,
        None => row.image_url@,
    }
    &&& revised.status == row.status
    &&& revised.created_at == row.created_at
}

/// What one listing's change leaves alone: every other listing and every
/// other table.
pub open spec fn only_listing_changed(before: Db, after: Db, listing_id: Seq<char>) -> bool {
    &&& after.listings@.len() == before.listings@.len()
    &&& forall|k: int|
        0 <= k < before.listings@.len() && (#[trigger] before.listings@[k]).id@ != listing_id
            ==> after.listings@[k] == before.listings@[k]
    &&& after.users == before.users
    &&& after.conversations == before.conversations
    &&& after.messages == before.messages
    &&& after.offers == before.offers
    &&& after.reads == before.reads
    &&& after.sessions == before.sessions
}

/// What updating a listing does: where the user is its seller, the listing
/// becomes its revision by the form and nothing else changes; otherwise
/// nothing changes at all. `updated` tells which.
pub open spec fn listing_updated(
    before: Db,
    after: Db,
    id: Seq<char>,
    seller_id: Seq<char>,
    form: ListingForm,
    image_url: Option<Seq<char>>,
    updated: bool,
) -> bool {
    &&& updated == sells(before, id, seller_id)
    &&& if updated {
        &&& only_listing_changed(before, after, id)
        &&& has_listing(after.listings@, id)
        &&& is_revision(
            listing_by_id(before.listings@, id),
            listing_by_id(after.listings@, id),
            form,
            image_url,
        )
    } else {
        after == before
    }
}

/// Puts a changed row in the place of a listing; identifier and seller are
/// the same.
fn replace_listing(db: &mut Db, at: usize, row: ListingRow)
    requires
        old(db).wf(),
        at < old(db).listings@.len(),
        row.id == old(db).listings@[at as int].id,
        row.seller_id == old(db).listings@[at as int].seller_id,
    ensures
        final(db).wf(),
        final(db).listings@ == old(db).listings@.update(at as int, row),
        only_listing_changed(*old(db), *final(db), row.id@),
        has_listing(final(db).listings@, row.id@),
        listing_by_id(final(db).listings@, row.id@) == row,
{
    db.listings.set(at, row);
    proof {
        let before = old(db).listings@;
        let after = db.listings@;
        assert forall|a: int, b: int| 0 <= a < b < after.len() implies (#[trigger] after[a]).id@ != (
        #[trigger] after[b]).id@ by {
            assert(before[a].id@ != before[b].id@);
        }
        assert forall|a: int| 0 <= a < after.len() implies has_user(
            db.users@,
            (#[trigger] after[a]).seller_id@,
        ) by {
            assert(has_user(db.users@, before[a].seller_id@));
        }
        lemma_listings_extend(before, after);
        assert forall|k: int|
            0 <= k < before.len() && (#[trigger] before[k]).id@ != row.id@ implies after[k]
            == before[k] by {}
        lemma_listing_by_id(after, at as int);
    }
}

/// Replaces a listing's title, description, price, category, condition and
/// location, and its image where a new one is given, on behalf of a user. It
/// takes effect only where the user is the listing's seller.
pub fn update_listing(
    db: &mut Db,
    id: &str,
    seller_id: &str,
    form: &ListingForm,
    image_url: Option<&str>,
) -> (updated: bool)
    requires
        old(db).wf(),
    ensures
        final(db).wf(),
        listing_updated(
            *old(db),
            *final(db),
            id@,
            seller_id@,
            *form,
            match image_url {
                Some(url) => Some(url@),
                None => None,
            },
            updated,
        ),
{
    let at = match db.find_listing(id) {
        Some(i) => i,
        None => {
            return false;
        },
    };
    proof {
        lemma_listing_by_id(db.listings@, at as int);
    }
    if !same_text(&db.listings[at].seller_id, &seller_id.to_owned()) {
        return false;
    }
    let price = match parse_amount(form.price.as_str()) {
        Some(cents) => cents,
        None => 0,
    };
    let kept = &db.listings[at];
    let row = ListingRow {
        id: kept.id.clone(),
        seller_id: kept.seller_id.clone(),
        title: form.title.clone(),
        description: form.description.clone(),
        price,
        category: form.category.clone(),
        condition: form.condition.clone(),
        location: form.location.clone(),
        image_url: match image_url {
            Some(url) => url.to_owned(),
            None => kept.image_url.clone(),
        },
        status: kept.status,
        created_at: kept.created_at,
    };
    replace_listing(db, at, row);
    true
}

/// What changing a listing's status does: where the user is its seller, the
/// listing gets the status and nothing else changes; otherwise nothing
/// changes at all. `updated` tells which.
pub open spec fn status_updated(
    before: Db,
    after: Db,
    id: Seq<char>,
    seller_id: Seq<char>,
    status: ListingStatus,
    updated: bool,
) -> bool {
    &&& updated == sells(before, id, seller_id)
    &&& if updated {
        &&& only_listing_changed(before, after, id)
        &&& has_listing(after.listings@, id)
        &&& listing_by_id(after.listings@, id) == (ListingRow {
            status,
            ..listing_by_id(before.listings@, id)
        })
    } else {
        after == before
    }
}

/// Sets a listing's status on behalf of a user. It takes effect only where
/// the user is the listing's seller.
pub fn update_listing_status(db: &mut Db, id: &str, seller_id: &str, status: ListingStatus) -> (updated:
    bool)
    requires
        old(db).wf(),
    ensures
        final(db).wf(),
        status_updated(*old(db), *final(db), id@, seller_id@, status, updated),
{
    let at = match db.find_listing(id) {
        Some(i) => i,
        None => {
            return false;
        },
    };
    proof {
        lemma_listing_by_id(db.listings@, at as int);
    }
    if !same_text(&db.listings[at].seller_id, &seller_id.to_owned()) {
        return false;
    }
    let mut row = db.listings[at].clone();
    row.status = status;
    replace_listing(db, at, row);
    true
}

/// A conversation or an offer refers to the listing.
pub open spec fn is_referenced(db: Db, listing_id: Seq<char>) -> bool {
    ||| exists|i: int|
        0 <= i < db.conversations@.len() && (#[trigger] db.conversations@[i]).listing_id@
            == listing_id
    ||| exists|i: int|
        0 <= i < db.offers@.len() && (#[trigger] db.offers@[i]).listing_id@ == listing_id
}

/// The test for the listings with another identifier than the given one.
pub open spec fn other_than(listing_id: Seq<char>) -> spec_fn(ListingRow) -> bool {
    |row: ListingRow| row.id@ != listing_id
}

/// What deleting a listing does: where the user is its seller and nothing
/// refers to it, the listing is gone and nothing else changes; otherwise
/// nothing changes at all. `deleted` tells which.
pub open spec fn listing_deleted(
    before: Db,
    after: Db,
    id: Seq<char>,
    seller_id: Seq<char>,
    deleted: bool,
) -> bool {
    &&& deleted == (sells(before, id, seller_id) && !is_referenced(before, id))
    &&& if deleted {
        &&& after.listings@ == before.listings@.filter(other_than(id))
        &&& after.users == before.users
        &&& after.conversations == before.conversations
        &&& after.messages == before.messages
        &&& after.offers == before.offers
        &&& after.reads == before.reads
        &&& after.sessions == before.sessions
    } else {
        after == before
    }
}

/// Whether a conversation or an offer refers to a listing.
fn referenced(db: &Db, listing_id: &str) -> (used: bool)
    ensures
        used == is_referenced(*db, listing_id@),
{
    let key = listing_id.to_owned();
    let mut i: usize = 0;
    while i < db.conversations.len()
        invariant
            i <= db.conversations@.len(),
            key@ == listing_id@,
            forall|k: int|
                0 <= k < i ==> (#[trigger] db.conversations@[k]).listing_id@ != listing_id@,
        decreases db.conversations@.len() - i,
    {
        if db.conversations[i].listing_id == key {
            return true;
        }
        i += 1;
    }
    let mut j: usize = 0;
    while j < db.offers.len()
        invariant
            j <= db.offers@.len(),
            key@ == listing_id@,
            forall|k: int|
                0 <= k < db.conversations@.len() ==> (
                #[trigger] db.conversations@[k]).listing_id@ != listing_id@,
            forall|k: int| 0 <= k < j ==> (#[trigger] db.offers@[k]).listing_id@ != listing_id@,
        decreases db.offers@.len() - j,
    {
        if db.offers[j].listing_id == key {
            return true;
        }
        j += 1;
    }
    false
}

/// Taking the one listing with an identifier out of the catalog leaves
/// exactly the listings with other identifiers.
proof fn lemma_without_listing(before: Seq<ListingRow>, at: int, id: Seq<char>)
    requires
        forall|a: int, b: int|
            0 <= a < b < before.len() ==> (#[trigger] before[a]).id@ != (#[trigger] before[b]).id@,
        0 <= at < before.len(),
        before[at].id@ == id,
    ensures
        before.remove(at) == before.filter(other_than(id)),
{
    let keep = other_than(id);
    assert forall|k: int| 0 <= k < before.len() && k != at implies keep(#[trigger] before[k]) by {
        if k < at {
            assert(before[k].id@ != before[at].id@);
        } else {
            assert(before[at].id@ != before[k].id@);
        }
    }
    crate::seqs::lemma_remove_is_filter(before, keep, at);
}

/// A listing with another identifier than the one taken out is still there.
proof fn lemma_others_stay(before: Seq<ListingRow>, at: int, other: Seq<char>)
    requires
        0 <= at < before.len(),
        before[at].id@ != other,
        has_listing(before, other),
    ensures
        has_listing(before.remove(at), other),
{
    let after = before.remove(at);
    let i = choose|i: int| 0 <= i < before.len() && (#[trigger] before[i]).id@ == other;
    if i < at {
        assert(after[i] == before[i]);
        assert(after[i].id@ == other);
    } else {
        assert(after[i - 1] == before[i]);
        assert(after[i - 1].id@ == other);
    }
}

/// Deletes a listing on behalf of a user. It takes effect only where the
/// user is the listing's seller and no conversation or offer refers to it.
pub fn delete_listing(db: &mut Db, id: &str, seller_id: &str) -> (deleted: bool)
    requires
        old(db).wf(),
    ensures
        final(db).wf(),
        listing_deleted(*old(db), *final(db), id@, seller_id@, deleted),
{
    let at = match db.find_listing(id) {
        Some(i) => i,
        None => {
            return false;
        },
    };
    proof {
        lemma_listing_by_id(db.listings@, at as int);
    }
    if !same_text(&db.listings[at].seller_id, &seller_id.to_owned()) {
        return false;
    }
    if referenced(db, id) {
        return false;
    }
    db.listings.remove(at);
    proof {
        let before = old(db).listings@;
        let after = db.listings@;
        lemma_without_listing(before, at as int, id@);
        assert(listings_wf(after, db.users@)) by {
            assert forall|a: int, b: int| 0 <= a < b < after.len() implies (
            #[trigger] after[a]).id@ != (#[trigger] after[b]).id@ by {
                let x = if a < at { a } else { a + 1 };
                let y = if b < at { b } else { b + 1 };
                assert(before[x].id@ != before[y].id@);
            }
            assert forall|a: int| 0 <= a < after.len() implies has_user(
                db.users@,
                (#[trigger] after[a]).seller_id@,
            ) by {
                let x = if a < at { a } else { a + 1 };
                assert(after[a] == before[x]);
            }
        }
        assert(conversations_wf(db.conversations@, after, db.users@)) by {
            assert forall|i: int| 0 <= i < db.conversations@.len() implies has_listing(
                after,
                (#[trigger] db.conversations@[i]).listing_id@,
            ) by {
                lemma_others_stay(before, at as int, db.conversations@[i].listing_id@);
            }
        }
        assert(offers_wf(db.offers@, db.conversations@, after, db.users@)) by {
            assert forall|i: int| 0 <= i < db.offers@.len() implies has_listing(
                after,
                (#[trigger] db.offers@[i]).listing_id@,
            ) by {
                lemma_others_stay(before, at as int, db.offers@[i].listing_id@);
            }
        }
    }
    true
}

/// The test for the active listings in a category.
pub open spec fn active_in(category: Seq<char>) -> spec_fn(ListingRow) -> bool {
    |row: ListingRow| row.status == ListingStatus::Active && row.category@ == category
}

/// `categories` lists the categories that have an active listing, each once
/// and with the number of active listings in it, in the order of their
/// names.
pub open spec fn is_category_list(listings: Seq<ListingRow>, categories: Seq<Category>) -> bool {
    &&& forall|k: int|
        0 <= k < categories.len() ==> (#[trigger] categories[k]).count > 0 && categories[k].count
            == listings.filter(active_in(categories[k].name@)).len()
    &&& forall|i: int, j: int|
        0 <= i < j < categories.len() ==> precedes(
            (#[trigger] categories[i]).name@,
            (#[trigger] categories[j]).name@,
        )
    &&& forall|r: int|
        0 <= r < listings.len() && (#[trigger] listings[r]).status == ListingStatus::Active
            ==> has_category(categories, listings[r].category@)
}

/// The category is listed.
pub open spec fn has_category(categories: Seq<Category>, name: Seq<char>) -> bool {
    exists|k: int| 0 <= k < categories.len() && (#[trigger] categories[k]).name@ == name
}

/// The name is among the names.
pub open spec fn has_name(names: Seq<Vec<char>>, name: Seq<char>) -> bool {
    exists|k: int| 0 <= k < names.len() && (#[trigger] names[k])@ == name
}

/// Some active listing among the first `upto` is in the category.
pub open spec fn is_used(listings: Seq<ListingRow>, upto: int, name: Seq<char>) -> bool {
    exists|r: int|
        0 <= r < upto && (#[trigger] listings[r]).status == ListingStatus::Active
            && listings[r].category@ == name
}

/// The names are in order, each before the next.
pub open spec fn in_name_order(names: Seq<Vec<char>>) -> bool {
    forall|i: int, j: int|
        0 <= i < j < names.len() ==> precedes((#[trigger] names[i])@, (#[trigger] names[j])@)
}

/// How many active listings a category has.
fn count_active_in(db: &Db, category: &String) -> (count: usize)
    ensures
        count == db.listings@.filter(active_in(category@)).len(),
{
    let ghost keep = active_in(category@);
    let mut count: usize = 0;
    let mut i: usize = 0;
    proof {
        lemma_filter_empty(db.listings@.take(0), keep);
    }
    while i < db.listings.len()
        invariant
            i <= db.listings@.len(),
            keep == active_in(category@),
            count == db.listings@.take(i as int).filter(keep).len(),
            count <= i,
        decreases db.listings@.len() - i,
    {
        let active = match db.listings[i].status {
            ListingStatus::Active => true,
            _ => false,
        };
        proof {
            lemma_filter_take_step(db.listings@, keep, i as int);
        }
        if active && same_text(&db.listings[i].category, category) {
            count += 1;
        }
        i += 1;
    }
    proof {
        assert(db.listings@.take(i as int) == db.listings@);
    }
    count
}

/// Puts a name at its place among names in order, unless it is there.
fn note_name(names: &mut Vec<Vec<char>>, texts: &mut Vec<String>, name: &String)
    requires
        in_name_order(old(names)@),
        old(names)@.len() == old(texts)@.len(),
        forall|k: int| 0 <= k < old(names)@.len() ==> (#[trigger] old(names)@[k])@ == old(texts)@[k]@,
    ensures
        in_name_order(final(names)@),
        final(names)@.len() == final(texts)@.len(),
        forall|k: int|
            0 <= k < final(names)@.len() ==> (#[trigger] final(names)@[k])@ == final(texts)@[k]@,
        has_name(final(names)@, name@),
        forall|other: Seq<char>| has_name(old(names)@, other) ==> has_name(final(names)@, other),
        forall|other: Seq<char>|
            has_name(final(names)@, other) ==> other == name@ || has_name(old(names)@, other),
{
    let chars = to_chars(name.as_str());
    let mut at: usize = 0;
    while at < names.len() && text_precedes(&names[at], &chars)
        invariant
            at <= names@.len(),
            names@ == old(names)@,
            forall|k: int| 0 <= k < at ==> precedes((#[trigger] names@[k])@, chars@),
        decreases names@.len() - at,
    {
        at += 1;
    }
    let ghost before = names@;
    proof {
        if at < names.len() {
            lemma_precedes_total(chars@, names@[at as int]@);
        }
    }
    if at < names.len() && !text_precedes(&chars, &names[at]) {
        assert(names@[at as int]@ == name@);
        return ;
    }
    names.insert(at, chars);
    texts.insert(at, name.clone());
    proof {
        let after = names@;
        assert forall|i: int, j: int| 0 <= i < j < after.len() implies precedes(
            (#[trigger] after[i])@,
            (#[trigger] after[j])@,
        ) by {
            let a = if i < at { i } else { i - 1 };
            let b = if j < at { j } else { j - 1 };
            if i != at && j != at {
                assert(after[i] == before[a] && after[j] == before[b]);
                assert(precedes(before[a]@, before[b]@));
            } else if j == at {
                assert(after[i] == before[i]);
            } else {
                assert(after[j] == before[j - 1]);
                if j - 1 > at {
                    assert(precedes(before[at as int]@, before[j - 1]@));
                    lemma_precedes_transitive(chars@, before[at as int]@, before[j - 1]@);
                }
            }
        }
        assert forall|k: int| 0 <= k < after.len() implies (#[trigger] after[k])@ == texts@[k]@ by {
            if k < at {
                assert(after[k] == before[k]);
            } else if k > at {
                assert(after[k] == before[k - 1]);
            }
        }
        assert(after[at as int]@ == name@);
        assert forall|other: Seq<char>| has_name(before, other) implies has_name(after, other) by {
            let k = choose|k: int| 0 <= k < before.len() && (#[trigger] before[k])@ == other;
            if k < at {
                assert(after[k]@ == other);
            } else {
                assert(after[k + 1] == before[k]);
                assert(after[k + 1]@ == other);
            }
        }
        assert forall|other: Seq<char>| has_name(after, other) implies other == name@ || has_name(
            before,
            other,
        ) by {
            let k = choose|k: int| 0 <= k < after.len() && (#[trigger] after[k])@ == other;
            if k < at {
                assert(before[k]@ == other);
            } else if k > at {
                assert(before[k - 1] == after[k]);
                assert(before[k - 1]@ == other);
            }
        }
    }
}

/// The categories that have an active listing, by name, each with the number
/// of active listings in it.
pub fn get_categories(db: &Db) -> (categories: Vec<Category>)
    requires
        db.wf(),
    ensures
        is_category_list(db.listings@, categories@),
{
    let mut names: Vec<Vec<char>> = Vec::new();
    let mut texts: Vec<String> = Vec::new();
    let mut i: usize = 0;
    while i < db.listings.len()
        invariant
            i <= db.listings@.len(),
            in_name_order(names@),
            names@.len() == texts@.len(),
            forall|k: int| 0 <= k < names@.len() ==> (#[trigger] names@[k])@ == texts@[k]@,
            forall|r: int|
                0 <= r < i && (#[trigger] db.listings@[r]).status == ListingStatus::Active
                    ==> has_name(names@, db.listings@[r].category@),
            forall|other: Seq<char>|
                has_name(names@, other) ==> #[trigger] is_used(db.listings@, i as int, other),
        decreases db.listings@.len() - i,
    {
        let active = match db.listings[i].status {
            ListingStatus::Active => true,
            _ => false,
        };
        let ghost seen = names@;
        if active {
            note_name(&mut names, &mut texts, &db.listings[i].category);
        }
        proof {
            assert forall|other: Seq<char>| has_name(names@, other) implies #[trigger] is_used(
                db.listings@,
                i + 1,
                other,
            ) by {
                if has_name(seen, other) {
                    assert(is_used(db.listings@, i as int, other));
                    let r = choose|r: int|
                        0 <= r < i && (#[trigger] db.listings@[r]).status == ListingStatus::Active
                            && db.listings@[r].category@ == other;
                    assert(db.listings@[r].category@ == other);
                } else {
                    assert(db.listings@[i as int].category@ == other);
                }
            }
        }
        i += 1;
    }
    let mut categories: Vec<Category> = Vec::new();
    let mut k: usize = 0;
    while k < texts.len()
        invariant
            k <= texts@.len(),
            names@.len() == texts@.len(),
            forall|j: int| 0 <= j < names@.len() ==> (#[trigger] names@[j])@ == texts@[j]@,
            forall|other: Seq<char>|
                has_name(names@, other) ==> #[trigger] is_used(
                    db.listings@,
                    db.listings@.len() as int,
                    other,
                ),
            categories@.len() == k,
            forall|j: int| 0 <= j < k ==> (#[trigger] categories@[j]).name@ == texts@[j]@,
            forall|j: int|
                0 <= j < k ==> (#[trigger] categories@[j]).count > 0 && categories@[j].count
                    == db.listings@.filter(active_in(categories@[j].name@)).len(),
        decreases texts@.len() - k,
    {
        let count = count_active_in(db, &texts[k]);
        proof {
            let name = texts@[k as int]@;
            assert(names@[k as int]@ == name);
            assert(has_name(names@, name));
            assert(is_used(db.listings@, db.listings@.len() as int, name));
            let r = choose|r: int|
                0 <= r < db.listings@.len() && (#[trigger] db.listings@[r]).status
                    == ListingStatus::Active && db.listings@[r].category@ == name;
            crate::seqs::lemma_filter_some(db.listings@, active_in(name), r);
        }
        categories.push(Category { name: texts[k].clone(), count: count as u64 });
        k += 1;
    }
    proof {
        assert forall|a: int, b: int| 0 <= a < b < categories@.len() implies precedes(
            (#[trigger] categories@[a]).name@,
            (#[trigger] categories@[b]).name@,
        ) by {
            assert(precedes(names@[a]@, names@[b]@));
        }
        assert forall|r: int|
            0 <= r < db.listings@.len() && (#[trigger] db.listings@[r]).status
                == ListingStatus::Active implies has_category(
            categories@,
            db.listings@[r].category@,
        ) by {
            let name = db.listings@[r].category@;
            assert(has_name(names@, name));
            let j = choose|j: int| 0 <= j < names@.len() && (#[trigger] names@[j])@ == name;
            assert(categories@[j].name@ == name);
        }
    }
    categories
}

} // verus!

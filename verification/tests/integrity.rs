use forge_commerce::db::{
    append_message, insert_listing, insert_session, insert_user, mark_conversation_read_at,
    open_conversation, propose_offer, respond_to_offer, Db,
};
use forge_commerce::models::{
    ConversationRow, ListingRow, ListingStatus, MessageRow, Offer, OfferStatus, ReadMarker,
    Session,
};

fn listing(id: &str, seller_id: &str) -> ListingRow {
    ListingRow {
        id: id.to_string(),
        seller_id: seller_id.to_string(),
        title: "Blanket".to_string(),
        description: "".to_string(),
        price: 12_000,
        category: "Home".to_string(),
        condition: "Good".to_string(),
        location: "".to_string(),
        image_url: "/img.jpg".to_string(),
        status: ListingStatus::Active,
        created_at: 50,
    }
}

fn market() -> Db {
    let mut db = Db::new();
    insert_user(&mut db, "S".to_string(), 10, "Sam", "sam@example.com", "hs").unwrap();
    insert_user(&mut db, "B".to_string(), 20, "Bea", "bea@example.com", "hb").unwrap();
    insert_listing(&mut db, listing("L", "S")).unwrap();
    insert_listing(&mut db, listing("L2", "S")).unwrap();
    open_conversation(&mut db, "C".to_string(), 100, "L", "B", "S").unwrap();
    append_message(&mut db, "m1".to_string(), 100, "C", "B", "one").unwrap();
    append_message(&mut db, "m2".to_string(), 200, "C", "S", "two").unwrap();
    propose_offer(&mut db, "o1".to_string(), 210, "L", "C", "B", 8_000).unwrap();
    propose_offer(&mut db, "o2".to_string(), 220, "L", "C", "B", 9_000).unwrap();
    respond_to_offer(&mut db, "o2", "S", true);
    propose_offer(&mut db, "o3".to_string(), 230, "L", "C", "B", 9_500).unwrap();
    mark_conversation_read_at(&mut db, 300, "S", "C").unwrap();
    insert_session(&mut db, "t".to_string(), 300, "B").unwrap();
    db
}

fn message(id: &str, conversation: &str, sender: &str, at: i64) -> MessageRow {
    MessageRow {
        id: id.to_string(),
        conversation_id: conversation.to_string(),
        sender_id: sender.to_string(),
        content: "x".to_string(),
        created_at: at,
    }
}

fn offer(id: &str, listing: &str, buyer: &str, amount: u64, status: OfferStatus) -> Offer {
    Offer {
        id: id.to_string(),
        listing_id: listing.to_string(),
        conversation_id: "C".to_string(),
        buyer_id: buyer.to_string(),
        amount,
        status,
        created_at: 400,
    }
}

#[test]
fn a_store_filled_through_the_library_is_sound() {
    assert!(Db::new().check());
    assert!(market().check());
}

#[test]
fn users_must_differ_in_identifier_and_email() {
    let mut db = market();
    let mut twin = db.users[0].clone();
    twin.email = "other@example.com".to_string();
    db.users.push(twin);
    assert!(!db.check());

    let mut db = market();
    let mut twin = db.users[0].clone();
    twin.id = "S2".to_string();
    db.users.push(twin);
    assert!(!db.check());

    let mut db = market();
    let mut third = db.users[0].clone();
    third.id = "S2".to_string();
    third.email = "other@example.com".to_string();
    db.users.push(third);
    assert!(db.check());
}

#[test]
fn listings_need_their_seller_and_an_identifier_of_their_own() {
    let mut db = market();
    db.listings.push(listing("L3", "nobody"));
    assert!(!db.check());
    let mut db = market();
    db.listings.push(listing("L", "S"));
    assert!(!db.check());
    let mut db = market();
    db.listings.push(listing("L3", "B"));
    assert!(db.check());
}

#[test]
fn a_listing_and_a_buyer_share_one_conversation() {
    let thread = |id: &str, listing: &str, buyer: &str, seller: &str| ConversationRow {
        id: id.to_string(),
        listing_id: listing.to_string(),
        buyer_id: buyer.to_string(),
        seller_id: seller.to_string(),
        created_at: 1,
    };
    let with = |row: ConversationRow| {
        let mut db = market();
        db.conversations.push(row);
        db.check()
    };
    assert!(!with(thread("C2", "L", "B", "S")));
    assert!(!with(thread("C", "L2", "B", "S")));
    assert!(!with(thread("C2", "nope", "B", "S")));
    assert!(!with(thread("C2", "L2", "nobody", "S")));
    assert!(!with(thread("C2", "L2", "B", "nobody")));
    assert!(with(thread("C2", "L2", "B", "S")));
    assert!(with(thread("C2", "L", "S", "B")));
}

#[test]
fn the_ledger_must_be_in_time_order() {
    let with = |row: MessageRow| {
        let mut db = market();
        db.messages.push(row);
        db.check()
    };
    assert!(with(message("m3", "C", "B", 200)));
    assert!(with(message("m3", "C", "B", 201)));
    assert!(!with(message("m3", "C", "B", 199)));
    assert!(!with(message("m1", "C", "B", 300)));
    assert!(!with(message("m3", "nope", "B", 300)));
    assert!(!with(message("m3", "C", "nobody", 300)));
    let mut db = market();
    db.messages.swap(0, 1);
    assert!(!db.check());
}

#[test]
fn a_listing_and_a_buyer_share_one_pending_offer() {
    let with = |row: Offer| {
        let mut db = market();
        db.offers.push(row);
        db.check()
    };
    assert!(!with(offer("o4", "L", "B", 100, OfferStatus::Pending)));
    assert!(with(offer("o4", "L", "B", 100, OfferStatus::Cancelled)));
    assert!(with(offer("o4", "L", "B", 100, OfferStatus::Accepted)));
    assert!(with(offer("o4", "L2", "B", 100, OfferStatus::Pending)));
    assert!(with(offer("o4", "L", "S", 100, OfferStatus::Pending)));
    assert!(!with(offer("o4", "L2", "B", 0, OfferStatus::Pending)));
    assert!(!with(offer("o1", "L2", "B", 100, OfferStatus::Pending)));
    assert!(!with(offer("o4", "nope", "B", 100, OfferStatus::Pending)));
    assert!(!with(offer("o4", "L2", "nobody", 100, OfferStatus::Pending)));
    let mut db = market();
    let mut stray = offer("o4", "L2", "B", 100, OfferStatus::Pending);
    stray.conversation_id = "nope".to_string();
    db.offers.push(stray);
    assert!(!db.check());
}

#[test]
fn markers_and_sessions_need_what_they_refer_to() {
    let marker = |user: &str, conversation: &str| ReadMarker {
        user_id: user.to_string(),
        conversation_id: conversation.to_string(),
        last_read_at: 5,
    };
    let with_marker = |row: ReadMarker| {
        let mut db = market();
        db.reads.push(row);
        db.check()
    };
    assert!(with_marker(marker("B", "C")));
    assert!(!with_marker(marker("S", "C")));
    assert!(!with_marker(marker("nobody", "C")));
    assert!(!with_marker(marker("B", "nope")));

    let session = |id: &str, user: &str| Session {
        id: id.to_string(),
        user_id: user.to_string(),
        created_at: 1,
        expires_at: 2,
    };
    let with_session = |row: Session| {
        let mut db = market();
        db.sessions.push(row);
        db.check()
    };
    assert!(with_session(session("t2", "B")));
    assert!(!with_session(session("t", "S")));
    assert!(!with_session(session("t2", "nobody")));
}

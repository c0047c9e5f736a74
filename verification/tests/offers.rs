use forge_commerce::db::{
    accepted_payment_info, can_respond, create_offer, get_offer, get_pending_offer,
    insert_listing, insert_user, open_conversation, propose_offer, respond_to_offer,
    update_user_profile, Db, DbError,
};
use forge_commerce::models::{ListingRow, ListingStatus, OfferStatus, ProfileForm};

fn listing(id: &str, seller_id: &str) -> ListingRow {
    ListingRow {
        id: id.to_string(),
        seller_id: seller_id.to_string(),
        title: "Chair".to_string(),
        description: "".to_string(),
        price: 45_000,
        category: "Furniture".to_string(),
        condition: "Good".to_string(),
        location: "".to_string(),
        image_url: "/img.jpg".to_string(),
        status: ListingStatus::Active,
        created_at: 50,
    }
}

fn market() -> Db {
    let mut db = Db::new();
    insert_user(&mut db, "S".to_string(), 10, "Sam", "sam@example.com", "hs").unwrap();
    insert_user(&mut db, "T".to_string(), 10, "Tess", "tess@example.com", "ht").unwrap();
    insert_user(&mut db, "B".to_string(), 20, "Bea", "bea@example.com", "hb").unwrap();
    insert_user(&mut db, "X".to_string(), 30, "Xan", "xan@example.com", "hx").unwrap();
    insert_listing(&mut db, listing("L", "S")).unwrap();
    insert_listing(&mut db, listing("L2", "T")).unwrap();
    open_conversation(&mut db, "C".to_string(), 100, "L", "B", "S").unwrap();
    open_conversation(&mut db, "CX".to_string(), 100, "L", "X", "S").unwrap();
    open_conversation(&mut db, "C2".to_string(), 100, "L2", "B", "T").unwrap();
    db
}

fn pending(db: &Db, listing: &str, buyer: &str) -> usize {
    db.offers
        .iter()
        .filter(|o| o.status == OfferStatus::Pending && o.listing_id == listing && o.buyer_id == buyer)
        .count()
}

#[test]
fn a_new_proposal_cancels_the_pending_one() {
    let mut db = market();
    assert_eq!(propose_offer(&mut db, "o1".to_string(), 200, "L", "C", "B", 8_000), Ok(true));
    assert_eq!(propose_offer(&mut db, "ox".to_string(), 210, "L", "CX", "X", 7_000), Ok(true));
    assert_eq!(propose_offer(&mut db, "o2".to_string(), 220, "L2", "C2", "B", 6_000), Ok(true));
    assert_eq!(propose_offer(&mut db, "o3".to_string(), 230, "L", "C", "B", 9_000), Ok(true));

    assert_eq!(get_offer(&db, "o1").unwrap().status, OfferStatus::Cancelled);
    assert_eq!(get_offer(&db, "o1").unwrap().amount, 8_000);
    assert_eq!(get_offer(&db, "ox").unwrap().status, OfferStatus::Pending);
    assert_eq!(get_offer(&db, "o2").unwrap().status, OfferStatus::Pending);
    assert_eq!(get_offer(&db, "o3").unwrap().status, OfferStatus::Pending);
    assert_eq!(pending(&db, "L", "B"), 1);
    assert_eq!(pending(&db, "L", "X"), 1);
    assert_eq!(pending(&db, "L2", "B"), 1);
    let latest = get_pending_offer(&db, "C").unwrap();
    assert_eq!(latest.id, "o3");
    assert_eq!(latest.amount, 9_000);
    assert_eq!(latest.created_at, 230);
    assert_eq!(latest.listing_id, "L");
    assert_eq!(latest.conversation_id, "C");
    assert_eq!(latest.buyer_id, "B");
}

#[test]
fn an_offer_of_nothing_is_skipped() {
    let mut db = market();
    assert_eq!(propose_offer(&mut db, "o1".to_string(), 200, "L", "C", "B", 8_000), Ok(true));
    assert_eq!(propose_offer(&mut db, "o2".to_string(), 210, "L", "C", "B", 0), Ok(false));
    assert_eq!(propose_offer(&mut db, "o3".to_string(), 210, "nope", "nope", "nobody", 0), Ok(false));
    assert_eq!(db.offers.len(), 1);
    assert_eq!(get_offer(&db, "o1").unwrap().status, OfferStatus::Pending);
    assert_eq!(create_offer(&mut db, "L", "C", "B", 0), Ok(None));
    assert_eq!(db.offers.len(), 1);
}

#[test]
fn an_offer_needs_its_listing_its_conversation_and_its_buyer() {
    let mut db = market();
    propose_offer(&mut db, "o1".to_string(), 200, "L", "C", "B", 8_000).unwrap();
    assert_eq!(
        propose_offer(&mut db, "o".to_string(), 1, "nope", "C", "B", 5),
        Err(DbError::UnknownListing)
    );
    assert_eq!(
        propose_offer(&mut db, "o".to_string(), 1, "L", "nope", "B", 5),
        Err(DbError::UnknownConversation)
    );
    assert_eq!(
        propose_offer(&mut db, "o".to_string(), 1, "L", "C", "nobody", 5),
        Err(DbError::UnknownUser)
    );
    assert_eq!(
        propose_offer(&mut db, "o1".to_string(), 1, "L", "C", "B", 5),
        Err(DbError::DuplicateId)
    );
    assert_eq!(db.offers.len(), 1);
    assert_eq!(get_offer(&db, "o1").unwrap().status, OfferStatus::Pending);
}

#[test]
fn creating_draws_an_identifier() {
    let mut db = market();
    let first = create_offer(&mut db, "L", "C", "B", 8_000).unwrap().unwrap();
    let second = create_offer(&mut db, "L", "C", "B", 9_000).unwrap().unwrap();
    assert_ne!(first, second);
    assert_eq!(get_offer(&db, &first).unwrap().status, OfferStatus::Cancelled);
    assert_eq!(get_offer(&db, &second).unwrap().status, OfferStatus::Pending);
    assert_eq!(get_offer(&db, &second).unwrap().amount, 9_000);
    assert_eq!(pending(&db, "L", "B"), 1);
}

#[test]
fn only_the_seller_answers_and_only_once() {
    let mut db = market();
    propose_offer(&mut db, "o1".to_string(), 200, "L", "C", "B", 8_000).unwrap();

    assert!(!can_respond(&db, "o1", "B"));
    assert!(!can_respond(&db, "o1", "T"));
    assert!(can_respond(&db, "o1", "S"));
    assert!(!can_respond(&db, "nope", "S"));

    assert!(!respond_to_offer(&mut db, "o1", "B", true));
    assert!(!respond_to_offer(&mut db, "o1", "T", true));
    assert!(!respond_to_offer(&mut db, "o1", "nobody", false));
    assert!(!respond_to_offer(&mut db, "nope", "S", true));
    assert_eq!(get_offer(&db, "o1").unwrap().status, OfferStatus::Pending);

    assert!(respond_to_offer(&mut db, "o1", "S", false));
    assert_eq!(get_offer(&db, "o1").unwrap().status, OfferStatus::Rejected);
    assert!(!can_respond(&db, "o1", "S"));
    assert!(!respond_to_offer(&mut db, "o1", "S", true));
    assert!(!respond_to_offer(&mut db, "o1", "S", false));
    assert_eq!(get_offer(&db, "o1").unwrap().status, OfferStatus::Rejected);
}

#[test]
fn a_cancelled_offer_cannot_be_answered() {
    let mut db = market();
    propose_offer(&mut db, "o1".to_string(), 200, "L", "C", "B", 8_000).unwrap();
    propose_offer(&mut db, "o2".to_string(), 210, "L", "C", "B", 9_000).unwrap();
    assert!(!respond_to_offer(&mut db, "o1", "S", true));
    assert_eq!(get_offer(&db, "o1").unwrap().status, OfferStatus::Cancelled);
    assert!(respond_to_offer(&mut db, "o2", "S", true));
    assert_eq!(get_offer(&db, "o2").unwrap().status, OfferStatus::Accepted);
    assert!(get_pending_offer(&db, "C").is_none());
}

#[test]
fn after_an_answer_a_buyer_can_propose_again() {
    let mut db = market();
    propose_offer(&mut db, "o1".to_string(), 200, "L", "C", "B", 8_000).unwrap();
    respond_to_offer(&mut db, "o1", "S", false);
    propose_offer(&mut db, "o2".to_string(), 210, "L", "C", "B", 8_500).unwrap();
    assert_eq!(get_offer(&db, "o1").unwrap().status, OfferStatus::Rejected);
    assert_eq!(get_pending_offer(&db, "C").unwrap().id, "o2");
    assert_eq!(pending(&db, "L", "B"), 1);
}

#[test]
fn payment_instructions_show_once_an_offer_is_accepted() {
    let mut db = market();
    let profile = |info: &str| ProfileForm {
        name: "Sam".to_string(),
        location: "".to_string(),
        bio: "".to_string(),
        payment_info: info.to_string(),
    };
    propose_offer(&mut db, "o1".to_string(), 200, "L", "C", "B", 8_000).unwrap();
    update_user_profile(&mut db, "S", &profile("Zelle: 555-0123"));
    assert_eq!(accepted_payment_info(&db, "C"), None);
    respond_to_offer(&mut db, "o1", "S", true);
    assert_eq!(accepted_payment_info(&db, "C"), Some("Zelle: 555-0123".to_string()));
    assert_eq!(accepted_payment_info(&db, "CX"), None);
    update_user_profile(&mut db, "S", &profile(""));
    assert_eq!(accepted_payment_info(&db, "C"), None);
}

#[test]
fn a_rejected_offer_shows_no_payment_instructions() {
    let mut db = market();
    let profile = ProfileForm {
        name: "Sam".to_string(),
        location: "".to_string(),
        bio: "".to_string(),
        payment_info: "Venmo: @sam".to_string(),
    };
    update_user_profile(&mut db, "S", &profile);
    propose_offer(&mut db, "o1".to_string(), 200, "L", "C", "B", 8_000).unwrap();
    respond_to_offer(&mut db, "o1", "S", false);
    assert_eq!(accepted_payment_info(&db, "C"), None);
}

#[test]
fn offer_states_have_their_names() {
    assert_eq!(OfferStatus::Pending.as_str(), "pending");
    assert_eq!(OfferStatus::Accepted.as_str(), "accepted");
    assert_eq!(OfferStatus::Rejected.as_str(), "rejected");
    assert_eq!(OfferStatus::Cancelled.as_str(), "cancelled");
    assert_eq!(ListingStatus::Active.as_str(), "active");
    assert_eq!(ListingStatus::Sold.as_str(), "sold");
    assert_eq!(ListingStatus::Removed.as_str(), "removed");
}

#[test]
fn no_offer_is_found_where_there_is_none() {
    let db = market();
    assert!(get_offer(&db, "o1").is_none());
    assert!(get_pending_offer(&db, "C").is_none());
    assert!(get_pending_offer(&db, "nope").is_none());
}

#[test]
fn states_are_read_back_from_their_names() {
    for status in [
        OfferStatus::Pending,
        OfferStatus::Accepted,
        OfferStatus::Rejected,
        OfferStatus::Cancelled,
    ] {
        assert_eq!(OfferStatus::from_name(status.as_str()), Some(status));
    }
    for status in [ListingStatus::Active, ListingStatus::Sold, ListingStatus::Removed] {
        assert_eq!(ListingStatus::from_name(status.as_str()), Some(status));
    }
    assert_eq!(OfferStatus::from_name("Pending"), None);
    assert_eq!(OfferStatus::from_name(""), None);
    assert_eq!(OfferStatus::from_name("sold"), None);
    assert_eq!(ListingStatus::from_name("pending"), None);
    assert_eq!(ListingStatus::from_name("active "), None);
}

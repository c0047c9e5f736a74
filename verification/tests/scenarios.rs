use forge_commerce::db::{
    accepted_payment_info, append_message, get_messages, get_messages_after, get_offer,
    get_pending_offer, insert_listing, insert_user, open_conversation, propose_offer,
    respond_to_offer, update_user_profile, Db,
};
use forge_commerce::models::{ListingRow, ListingStatus, OfferStatus, ProfileForm};

fn listing(id: &str, seller_id: &str, price: u64) -> ListingRow {
    ListingRow {
        id: id.to_string(),
        seller_id: seller_id.to_string(),
        title: "Desk lamp".to_string(),
        description: "Brass, rewired".to_string(),
        price,
        category: "Lighting".to_string(),
        condition: "Good".to_string(),
        location: "Austin, TX".to_string(),
        image_url: "/static/images/placeholder.svg".to_string(),
        status: ListingStatus::Active,
        created_at: 1_000,
    }
}

fn market() -> Db {
    let mut db = Db::new();
    insert_user(&mut db, "S".to_string(), 10, "Sam", "sam@example.com", "hash-s").unwrap();
    insert_user(&mut db, "B".to_string(), 20, "Bea", "bea@example.com", "hash-b").unwrap();
    let profile = ProfileForm {
        name: "Sam".to_string(),
        location: "Austin, TX".to_string(),
        bio: "".to_string(),
        payment_info: "Venmo: @sam-sells".to_string(),
    };
    assert!(update_user_profile(&mut db, "S", &profile));
    insert_listing(&mut db, listing("L", "S", 10_000)).unwrap();
    db
}

#[test]
fn negotiation_from_contact_to_acceptance() {
    let mut db = market();
    let c = open_conversation(&mut db, "C".to_string(), 1_100, "L", "B", "S").unwrap();
    assert_eq!(c, "C");
    assert_eq!(db.conversations.len(), 1);

    assert_eq!(propose_offer(&mut db, "O1".to_string(), 1_200, "L", "C", "B", 8_000), Ok(true));
    let pending = get_pending_offer(&db, "C").unwrap();
    assert_eq!(pending.id, "O1");
    assert_eq!(pending.amount, 8_000);
    assert_eq!(db.offers.iter().filter(|o| o.status == OfferStatus::Pending).count(), 1);

    assert_eq!(propose_offer(&mut db, "O2".to_string(), 1_300, "L", "C", "B", 9_000), Ok(true));
    assert_eq!(get_offer(&db, "O1").unwrap().status, OfferStatus::Cancelled);
    let pending = get_pending_offer(&db, "C").unwrap();
    assert_eq!(pending.id, "O2");
    assert_eq!(pending.amount, 9_000);
    assert_eq!(db.offers.iter().filter(|o| o.status == OfferStatus::Pending).count(), 1);

    assert_eq!(accepted_payment_info(&db, "C"), None);
    assert!(respond_to_offer(&mut db, "O2", "S", true));
    assert_eq!(get_offer(&db, "O2").unwrap().status, OfferStatus::Accepted);
    assert_eq!(accepted_payment_info(&db, "C"), Some("Venmo: @sam-sells".to_string()));
    assert!(get_pending_offer(&db, "C").is_none());

    assert!(!respond_to_offer(&mut db, "O2", "S", true));
    assert!(!respond_to_offer(&mut db, "O2", "S", false));
    assert_eq!(get_offer(&db, "O2").unwrap().status, OfferStatus::Accepted);
}

#[test]
fn polling_returns_only_what_is_newer() {
    let mut db = market();
    open_conversation(&mut db, "C".to_string(), 1_100, "L", "B", "S").unwrap();
    assert_eq!(
        append_message(&mut db, "M1".to_string(), 1_200, "C", "B", "Is this available?"),
        Ok(true)
    );
    assert_eq!(append_message(&mut db, "M2".to_string(), 1_201, "C", "S", "Yes"), Ok(true));

    let news = get_messages_after(&db, "C", "M1");
    assert_eq!(news.len(), 1);
    assert_eq!(news[0].content, "Yes");
    assert_eq!(news[0].sender_name, "Sam");
    assert!(get_messages_after(&db, "C", "M2").is_empty());
    assert_eq!(get_messages(&db, "C").len(), 2);
}

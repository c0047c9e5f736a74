use forge_commerce::auth::get_current_user;
use forge_commerce::db::{
    append_message, create_session, get_messages, get_offer, insert_listing, insert_user,
    last_read, open_conversation, propose_offer, Db,
};
use forge_commerce::models::{
    ListingRow, ListingStatus, MakeOfferForm, OfferStatus, PollQuery, SearchQuery,
    SendMessageForm, User,
};
use forge_commerce::routes::listings::{feed, feed_partial, listing_detail, DetailReply};
use forge_commerce::routes::messages::{
    conversation, inbox, make_offer, poll_messages, respond_offer, send_message,
    ConversationReply, InboxReply, PostReply,
};
use forge_commerce::text::time_ago;

const LONG_AGO: i64 = 1_000;

fn market() -> (Db, Option<User>, Option<User>) {
    let mut db = Db::new();
    insert_user(&mut db, "S".to_string(), 10, "Sam", "sam@example.com", "hs").unwrap();
    insert_user(&mut db, "B".to_string(), 20, "Bea", "bea@example.com", "hb").unwrap();
    let row = ListingRow {
        id: "L".to_string(),
        seller_id: "S".to_string(),
        title: "Bookshelf".to_string(),
        description: "Teak".to_string(),
        price: 28_000,
        category: "Furniture".to_string(),
        condition: "Good".to_string(),
        location: "Denver, CO".to_string(),
        image_url: "/img.jpg".to_string(),
        status: ListingStatus::Active,
        created_at: LONG_AGO,
    };
    insert_listing(&mut db, row).unwrap();
    open_conversation(&mut db, "C".to_string(), LONG_AGO, "L", "B", "S").unwrap();
    append_message(&mut db, "m1".to_string(), LONG_AGO, "C", "B", "hello").unwrap();
    let sam = db.users.iter().find(|u| u.id == "S").cloned();
    let bea = db.users.iter().find(|u| u.id == "B").cloned();
    (db, sam, bea)
}

#[test]
fn ages_go_by_the_clock() {
    let text = time_ago(LONG_AGO);
    assert!(text.ends_with("mo ago"), "{}", text);
    assert_eq!(time_ago(i64::MAX), "just now");
}

#[test]
fn the_current_user_goes_by_the_clock() {
    let (mut db, _, _) = market();
    let token = create_session(&mut db, "B").unwrap();
    assert_eq!(get_current_user(&db, Some(&token)).unwrap().id, "B");
    assert!(get_current_user(&db, None).is_none());
    db.sessions[0].expires_at = LONG_AGO;
    assert!(get_current_user(&db, Some(&token)).is_none());
}

#[test]
fn pages_go_by_the_clock() {
    let (mut db, sam, bea) = market();
    match inbox(&db, &sam) {
        InboxReply::Page(page) => {
            assert_eq!(page.conversations.len(), 1);
            assert!(page.ages[0].ends_with("mo ago"));
        }
        other => panic!("no page: {:?}", other),
    }
    match conversation(&mut db, &sam, "C") {
        ConversationReply::Page(page) => assert_eq!(page.messages.len(), 1),
        other => panic!("no page: {:?}", other),
    }
    assert!(last_read(&db, "S", "C").unwrap() > 1_600_000_000);

    let everything = SearchQuery {
        q: None,
        category: None,
        condition: None,
        min_price: None,
        max_price: None,
        sort: None,
    };
    let page = feed(&db, &bea, &everything);
    assert_eq!(page.listings.len(), 1);
    assert!(page.ages[0].ends_with("mo ago"));
    assert!(feed_partial(&db, &everything).contains("<p class=\"listing-price\">$280</p>"));
    match listing_detail(&db, &bea, "L") {
        DetailReply::Page(page) => {
            assert!(page.time_ago.ends_with("mo ago"));
            assert_eq!(page.existing_convo.unwrap().id, "C");
        }
        other => panic!("no page: {:?}", other),
    }
}

#[test]
fn posts_go_by_the_clock() {
    let (mut db, sam, bea) = market();
    let said = SendMessageForm { content: "still there?".to_string() };
    assert_eq!(send_message(&mut db, &bea, "C", &said), PostReply::Thread);
    let history = get_messages(&db, "C");
    assert_eq!(history.len(), 2);
    assert_eq!(history[1].content, "still there?");
    assert!(history[1].created_at > 1_600_000_000);

    let news = poll_messages(&mut db, &sam, "C", &PollQuery { after: Some("m1".to_string()) });
    assert!(news.contains("still there?"));
    assert!(news.contains("message-bubble theirs"));
    assert!(news.contains("just now"));
    assert!(last_read(&db, "S", "C").is_some());

    let offered = MakeOfferForm { amount: "250".to_string() };
    assert_eq!(make_offer(&mut db, &bea, "C", &offered), PostReply::Thread);
    let id = db.offers[0].id.clone();
    assert_eq!(respond_offer(&mut db, &sam, "C", &id, Some("true")), PostReply::Thread);
    assert_eq!(get_offer(&db, &id).unwrap().status, OfferStatus::Accepted);
    assert_eq!(get_messages(&db, "C").len(), 4);
    propose_offer(&mut db, "o9".to_string(), 5, "L", "C", "B", 1).unwrap();
    assert_eq!(respond_offer(&mut db, &sam, "C", "o9", None), PostReply::Thread);
    assert_eq!(get_offer(&db, "o9").unwrap().status, OfferStatus::Rejected);
}

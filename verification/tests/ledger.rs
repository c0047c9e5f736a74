use forge_commerce::db::{
    append_message, count_unread_in, get_conversation, get_messages, get_messages_after,
    get_or_create_conversation, get_unread_count, get_user_conversations, insert_listing,
    insert_user, last_read, mark_conversation_read, mark_conversation_read_at, open_conversation,
    send_message, write_message, Db, DbError,
};
use forge_commerce::models::{ListingRow, ListingStatus};

fn listing(id: &str, seller_id: &str, title: &str) -> ListingRow {
    ListingRow {
        id: id.to_string(),
        seller_id: seller_id.to_string(),
        title: title.to_string(),
        description: "".to_string(),
        price: 10_000,
        category: "Tools".to_string(),
        condition: "Good".to_string(),
        location: "".to_string(),
        image_url: "/img.jpg".to_string(),
        status: ListingStatus::Active,
        created_at: 50,
    }
}

fn market() -> Db {
    let mut db = Db::new();
    insert_user(&mut db, "S".to_string(), 10, "Sam", "sam@example.com", "hs").unwrap();
    insert_user(&mut db, "B".to_string(), 20, "Bea", "bea@example.com", "hb").unwrap();
    insert_user(&mut db, "X".to_string(), 30, "Xan", "xan@example.com", "hx").unwrap();
    insert_listing(&mut db, listing("L", "S", "Plane")).unwrap();
    insert_listing(&mut db, listing("L2", "S", "Saw")).unwrap();
    db
}

fn ids(db: &Db, conversation: &str) -> Vec<String> {
    get_messages(db, conversation).into_iter().map(|m| m.id).collect()
}

#[test]
fn finding_or_opening_twice_gives_one_conversation() {
    let mut db = market();
    let first = open_conversation(&mut db, "C1".to_string(), 100, "L", "B", "S").unwrap();
    let second = open_conversation(&mut db, "C2".to_string(), 200, "L", "B", "X").unwrap();
    assert_eq!(first, "C1");
    assert_eq!(second, "C1");
    assert_eq!(db.conversations.len(), 1);
    assert_eq!(db.conversations[0].seller_id, "S");
    assert_eq!(db.conversations[0].created_at, 100);
}

#[test]
fn finding_or_opening_with_drawn_identifiers_is_idempotent() {
    let mut db = market();
    let first = get_or_create_conversation(&mut db, "L", "B", "S").unwrap();
    let second = get_or_create_conversation(&mut db, "L", "B", "S").unwrap();
    assert_eq!(first, second);
    assert_eq!(first.len(), 36);
    assert_eq!(db.conversations.len(), 1);
    let other = get_or_create_conversation(&mut db, "L2", "B", "S").unwrap();
    assert_ne!(other, first);
    let third = get_or_create_conversation(&mut db, "L", "X", "S").unwrap();
    assert_ne!(third, first);
    assert_eq!(db.conversations.len(), 3);
}

#[test]
fn a_conversation_needs_its_listing_and_its_parties() {
    let mut db = market();
    assert_eq!(
        open_conversation(&mut db, "C".to_string(), 1, "nope", "B", "S"),
        Err(DbError::UnknownListing)
    );
    assert_eq!(
        open_conversation(&mut db, "C".to_string(), 1, "L", "nobody", "S"),
        Err(DbError::UnknownUser)
    );
    assert_eq!(
        open_conversation(&mut db, "C".to_string(), 1, "L", "B", "nobody"),
        Err(DbError::UnknownUser)
    );
    assert!(db.conversations.is_empty());
    open_conversation(&mut db, "C".to_string(), 1, "L", "B", "S").unwrap();
    assert_eq!(
        open_conversation(&mut db, "C".to_string(), 1, "L2", "B", "S"),
        Err(DbError::DuplicateId)
    );
    assert_eq!(db.conversations.len(), 1);
}

#[test]
fn the_history_is_in_time_order() {
    let mut db = market();
    open_conversation(&mut db, "C".to_string(), 100, "L", "B", "S").unwrap();
    assert_eq!(append_message(&mut db, "m3".to_string(), 300, "C", "B", "three"), Ok(true));
    assert_eq!(append_message(&mut db, "m1".to_string(), 100, "C", "S", "one"), Ok(true));
    assert_eq!(append_message(&mut db, "m2".to_string(), 200, "C", "B", "two"), Ok(true));
    assert_eq!(append_message(&mut db, "m2b".to_string(), 200, "C", "S", "two again"), Ok(true));
    assert_eq!(ids(&db, "C"), vec!["m1", "m2", "m2b", "m3"]);
    let history = get_messages(&db, "C");
    assert!(history.windows(2).all(|pair| pair[0].created_at <= pair[1].created_at));
    assert_eq!(history[0].sender_name, "Sam");
    assert_eq!(history[1].sender_name, "Bea");
    assert!(!history[0].is_offer);
    assert_eq!(history[0].offer_amount, None);
    assert_eq!(history[0].offer_status, None);
}

#[test]
fn the_messages_after_one_are_the_end_of_the_history() {
    let mut db = market();
    open_conversation(&mut db, "C".to_string(), 100, "L", "B", "S").unwrap();
    open_conversation(&mut db, "D".to_string(), 100, "L2", "B", "S").unwrap();
    for (id, at, thread) in
        [("a", 100, "C"), ("b", 200, "C"), ("x", 250, "D"), ("c", 300, "C"), ("d", 300, "C")]
    {
        assert_eq!(append_message(&mut db, id.to_string(), at, thread, "B", id), Ok(true));
    }
    let after = |id: &str| -> Vec<String> {
        get_messages_after(&db, "C", id).into_iter().map(|m| m.id).collect()
    };
    assert_eq!(after("a"), vec!["b", "c", "d"]);
    assert_eq!(after("b"), vec!["c", "d"]);
    assert_eq!(after("c"), Vec::<String>::new());
    assert_eq!(after("d"), Vec::<String>::new());
    assert_eq!(after("x"), vec!["c", "d"]);
    assert_eq!(after("unknown"), Vec::<String>::new());
    let history = ids(&db, "C");
    assert_eq!(history[history.len() - after("a").len()..], after("a")[..]);
}

#[test]
fn a_blank_message_is_skipped() {
    let mut db = market();
    open_conversation(&mut db, "C".to_string(), 100, "L", "B", "S").unwrap();
    append_message(&mut db, "m1".to_string(), 100, "C", "B", "hello").unwrap();
    assert_eq!(append_message(&mut db, "m2".to_string(), 101, "C", "B", ""), Ok(false));
    assert_eq!(append_message(&mut db, "m3".to_string(), 102, "C", "B", "  \t\n "), Ok(false));
    assert_eq!(append_message(&mut db, "m4".to_string(), 103, "nope", "nobody", " "), Ok(false));
    assert_eq!(get_messages(&db, "C").len(), 1);
    assert_eq!(send_message(&mut db, "C", "B", "   "), Ok(None));
    assert_eq!(get_messages(&db, "C").len(), 1);
}

#[test]
fn a_message_is_stored_trimmed() {
    let mut db = market();
    open_conversation(&mut db, "C".to_string(), 100, "L", "B", "S").unwrap();
    append_message(&mut db, "m1".to_string(), 100, "C", "B", "  Is this available? \n").unwrap();
    assert_eq!(get_messages(&db, "C")[0].content, "Is this available?");
    write_message(&mut db, "m2".to_string(), 101, "C", "B", " as is ").unwrap();
    assert_eq!(get_messages(&db, "C")[1].content, " as is ");
}

#[test]
fn sending_draws_an_identifier() {
    let mut db = market();
    open_conversation(&mut db, "C".to_string(), 100, "L", "B", "S").unwrap();
    let first = send_message(&mut db, "C", "B", "one").unwrap().unwrap();
    let second = send_message(&mut db, "C", "S", "two").unwrap().unwrap();
    assert_ne!(first, second);
    assert_eq!(first.len(), 36);
    let history = get_messages(&db, "C");
    assert_eq!(history.len(), 2);
    assert!(history.iter().any(|m| m.id == first && m.content == "one"));
    assert!(history.iter().any(|m| m.id == second && m.content == "two"));
}

#[test]
fn a_message_needs_its_conversation_and_its_sender() {
    let mut db = market();
    open_conversation(&mut db, "C".to_string(), 100, "L", "B", "S").unwrap();
    assert_eq!(
        append_message(&mut db, "m".to_string(), 1, "nope", "B", "hi"),
        Err(DbError::UnknownConversation)
    );
    assert_eq!(
        append_message(&mut db, "m".to_string(), 1, "C", "nobody", "hi"),
        Err(DbError::UnknownUser)
    );
    append_message(&mut db, "m".to_string(), 1, "C", "B", "hi").unwrap();
    assert_eq!(
        append_message(&mut db, "m".to_string(), 2, "C", "S", "again"),
        Err(DbError::DuplicateId)
    );
    assert_eq!(
        write_message(&mut db, "m".to_string(), 2, "C", "S", "again"),
        Err(DbError::DuplicateId)
    );
    assert_eq!(db.messages.len(), 1);
}

#[test]
fn unread_counts_follow_the_read_marker() {
    let mut db = market();
    open_conversation(&mut db, "C".to_string(), 100, "L", "B", "S").unwrap();
    append_message(&mut db, "m1".to_string(), 100, "C", "B", "one").unwrap();
    append_message(&mut db, "m2".to_string(), 110, "C", "S", "two").unwrap();
    append_message(&mut db, "m3".to_string(), 120, "C", "B", "three").unwrap();

    assert_eq!(last_read(&db, "S", "C"), None);
    assert_eq!(count_unread_in(&db, "S", "C"), 2);
    assert_eq!(count_unread_in(&db, "B", "C"), 1);
    assert_eq!(get_unread_count(&db, "S"), 2);

    assert_eq!(mark_conversation_read_at(&mut db, 120, "S", "C"), Ok(()));
    assert_eq!(last_read(&db, "S", "C"), Some(120));
    assert_eq!(count_unread_in(&db, "S", "C"), 0);
    assert_eq!(get_unread_count(&db, "S"), 0);
    assert_eq!(count_unread_in(&db, "B", "C"), 1);

    append_message(&mut db, "m4".to_string(), 130, "C", "B", "four").unwrap();
    assert_eq!(count_unread_in(&db, "S", "C"), 1);
    append_message(&mut db, "m5".to_string(), 140, "C", "S", "mine").unwrap();
    assert_eq!(count_unread_in(&db, "S", "C"), 1);
    append_message(&mut db, "m6".to_string(), 150, "C", "B", "six").unwrap();
    assert_eq!(count_unread_in(&db, "S", "C"), 2);
    assert_eq!(get_unread_count(&db, "S"), 2);
}

#[test]
fn a_message_in_the_second_of_the_marker_counts_as_read() {
    let mut db = market();
    open_conversation(&mut db, "C".to_string(), 100, "L", "B", "S").unwrap();
    mark_conversation_read_at(&mut db, 200, "S", "C").unwrap();
    append_message(&mut db, "m1".to_string(), 200, "C", "B", "same second").unwrap();
    assert_eq!(count_unread_in(&db, "S", "C"), 0);
    append_message(&mut db, "m2".to_string(), 201, "C", "B", "later").unwrap();
    assert_eq!(count_unread_in(&db, "S", "C"), 1);
}

#[test]
fn marking_again_moves_the_marker() {
    let mut db = market();
    open_conversation(&mut db, "C".to_string(), 100, "L", "B", "S").unwrap();
    mark_conversation_read_at(&mut db, 200, "S", "C").unwrap();
    mark_conversation_read_at(&mut db, 150, "S", "C").unwrap();
    mark_conversation_read_at(&mut db, 300, "B", "C").unwrap();
    assert_eq!(db.reads.len(), 2);
    assert_eq!(last_read(&db, "S", "C"), Some(150));
    assert_eq!(last_read(&db, "B", "C"), Some(300));
    assert_eq!(mark_conversation_read(&mut db, "S", "C"), Ok(()));
    assert!(last_read(&db, "S", "C").unwrap() > 1_600_000_000);
    assert_eq!(db.reads.len(), 2);
}

#[test]
fn a_marker_needs_its_user_and_its_conversation() {
    let mut db = market();
    open_conversation(&mut db, "C".to_string(), 100, "L", "B", "S").unwrap();
    assert_eq!(mark_conversation_read_at(&mut db, 1, "nobody", "C"), Err(DbError::UnknownUser));
    assert_eq!(
        mark_conversation_read_at(&mut db, 1, "S", "nope"),
        Err(DbError::UnknownConversation)
    );
    assert!(db.reads.is_empty());
}

#[test]
fn the_total_counts_only_the_users_conversations() {
    let mut db = market();
    open_conversation(&mut db, "C".to_string(), 100, "L", "B", "S").unwrap();
    open_conversation(&mut db, "D".to_string(), 100, "L2", "X", "S").unwrap();
    append_message(&mut db, "m1".to_string(), 100, "C", "B", "to sam").unwrap();
    append_message(&mut db, "m2".to_string(), 110, "D", "X", "to sam too").unwrap();
    append_message(&mut db, "m3".to_string(), 120, "D", "S", "to xan").unwrap();
    assert_eq!(get_unread_count(&db, "S"), 2);
    assert_eq!(get_unread_count(&db, "B"), 0);
    assert_eq!(get_unread_count(&db, "X"), 1);
    assert_eq!(get_unread_count(&db, "nobody"), 0);
    assert_eq!(
        get_unread_count(&db, "S"),
        (count_unread_in(&db, "S", "C") + count_unread_in(&db, "S", "D")) as u64
    );
}

#[test]
fn the_inbox_lists_the_latest_conversation_first() {
    let mut db = market();
    open_conversation(&mut db, "C".to_string(), 100, "L", "B", "S").unwrap();
    open_conversation(&mut db, "D".to_string(), 150, "L2", "X", "S").unwrap();
    open_conversation(&mut db, "E".to_string(), 150, "L2", "B", "S").unwrap();
    append_message(&mut db, "m1".to_string(), 200, "C", "B", "first").unwrap();
    append_message(&mut db, "m2".to_string(), 300, "C", "B", "latest in C").unwrap();

    let inbox = get_user_conversations(&db, "S");
    let order: Vec<&str> = inbox.iter().map(|c| c.id.as_str()).collect();
    assert_eq!(order, vec!["C", "D", "E"]);
    assert_eq!(inbox[0].last_message, "latest in C");
    assert_eq!(inbox[0].last_message_at, 300);
    assert_eq!(inbox[0].unread_count, 2);
    assert_eq!(inbox[0].listing_title, "Plane");
    assert_eq!(inbox[0].listing_image, "/img.jpg");
    assert_eq!(inbox[0].buyer_name, "Bea");
    assert_eq!(inbox[0].seller_name, "Sam");
    assert_eq!(inbox[1].last_message, "");
    assert_eq!(inbox[1].last_message_at, 150);
    assert_eq!(inbox[1].unread_count, 0);

    append_message(&mut db, "m3".to_string(), 400, "E", "S", "now E").unwrap();
    let order: Vec<String> = get_user_conversations(&db, "S").into_iter().map(|c| c.id).collect();
    assert_eq!(order, vec!["E", "C", "D"]);
    let order: Vec<String> = get_user_conversations(&db, "B").into_iter().map(|c| c.id).collect();
    assert_eq!(order, vec!["E", "C"]);
    assert_eq!(get_user_conversations(&db, "B")[0].unread_count, 1);
    assert!(get_user_conversations(&db, "nobody").is_empty());
}

#[test]
fn a_conversation_is_handed_out_with_no_unread_count() {
    let mut db = market();
    open_conversation(&mut db, "C".to_string(), 100, "L", "B", "S").unwrap();
    append_message(&mut db, "m1".to_string(), 200, "C", "B", "hello").unwrap();
    let found = get_conversation(&db, "C").unwrap();
    assert_eq!(found.id, "C");
    assert_eq!(found.listing_id, "L");
    assert_eq!(found.buyer_id, "B");
    assert_eq!(found.seller_id, "S");
    assert_eq!(found.last_message, "hello");
    assert_eq!(found.last_message_at, 200);
    assert_eq!(found.unread_count, 0);
    assert!(get_conversation(&db, "nope").is_none());
}

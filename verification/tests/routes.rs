use forge_commerce::auth::{hash_password, verify_password};
use forge_commerce::db::{
    append_message, count_unread_in, get_listing, get_messages, get_offer, get_pending_offer,
    get_session_user_at, get_user_by_email, get_user_by_id, insert_listing, insert_user, last_read,
    open_conversation, propose_offer, respond_to_offer, update_user_profile, Db, DbError,
};
use forge_commerce::models::{
    ListingForm, ListingRow, ListingStatus, LoginForm, MakeOfferForm, OfferStatus, PollQuery,
    ProfileForm, RegisterForm, SearchQuery, SendMessageForm, User,
};
use forge_commerce::routes::auth::{
    check_passwords, login, login_at, profile, register, register_at, update_profile, LoginReply,
    ProfileReply, RegisterReply, MIN_PASSWORD_BYTES,
};
use forge_commerce::routes::listings::{
    create_listing, delete_listing, edit_listing_page, feed_at, feed_partial_at,
    listing_detail_at, mark_sold, new_listing_page, read_listing_fields, update_listing,
    upload_address, upload_address_at, DetailReply, EditorReply, FormField, ListingReply,
    PLACEHOLDER_IMAGE,
};
use forge_commerce::routes::messages::{
    conversation_at, inbox_at, make_offer, make_offer_at, poll_messages_at, respond_offer_at,
    send_message_at, start_conversation, start_conversation_at, viewable, ConversationReply,
    InboxReply, PostReply, StartReply,
};

fn listing(id: &str, seller_id: &str, title: &str, price: u64, at: i64) -> ListingRow {
    ListingRow {
        id: id.to_string(),
        seller_id: seller_id.to_string(),
        title: title.to_string(),
        description: "".to_string(),
        price,
        category: "Tools".to_string(),
        condition: "Good".to_string(),
        location: "Portland <OR>".to_string(),
        image_url: "/img.jpg".to_string(),
        status: ListingStatus::Active,
        created_at: at,
    }
}

fn market() -> Db {
    let mut db = Db::new();
    insert_user(&mut db, "S".to_string(), 10, "Sam", "sam@example.com", "hs").unwrap();
    insert_user(&mut db, "B".to_string(), 20, "Bea", "bea@example.com", "hb").unwrap();
    insert_user(&mut db, "X".to_string(), 30, "Xan", "xan@example.com", "hx").unwrap();
    let profile = ProfileForm {
        name: "Sam".to_string(),
        location: "Portland, OR".to_string(),
        bio: "".to_string(),
        payment_info: "PayPal: sam@example.com".to_string(),
    };
    update_user_profile(&mut db, "S", &profile);
    insert_listing(&mut db, listing("L", "S", "Plane & Saw", 10_000, 1_000)).unwrap();
    insert_listing(&mut db, listing("L2", "S", "Apron", 3_550, 2_000)).unwrap();
    db
}

fn user(db: &Db, id: &str) -> Option<User> {
    get_user_by_id(db, id)
}

fn said(text: &str) -> SendMessageForm {
    SendMessageForm { content: text.to_string() }
}

fn offered(text: &str) -> MakeOfferForm {
    MakeOfferForm { amount: text.to_string() }
}

fn poll(after: Option<&str>) -> PollQuery {
    PollQuery { after: after.map(|s| s.to_string()) }
}

#[test]
fn contacting_a_seller_opens_one_conversation() {
    let mut db = market();
    let bea = user(&db, "B");
    let sam = user(&db, "S");
    assert_eq!(start_conversation_at(&mut db, "C".to_string(), 5, &None, "L"), StartReply::Login);
    assert_eq!(start_conversation_at(&mut db, "C".to_string(), 5, &bea, "nope"), StartReply::Home);
    assert_eq!(start_conversation_at(&mut db, "C".to_string(), 5, &sam, "L"), StartReply::Listing);
    assert!(db.conversations.is_empty());
    assert_eq!(
        start_conversation_at(&mut db, "C".to_string(), 5, &bea, "L"),
        StartReply::Conversation("C".to_string())
    );
    assert_eq!(
        start_conversation_at(&mut db, "D".to_string(), 6, &bea, "L"),
        StartReply::Conversation("C".to_string())
    );
    assert_eq!(db.conversations.len(), 1);
    assert_eq!(db.conversations[0].seller_id, "S");
    assert_eq!(db.conversations[0].buyer_id, "B");
    assert_eq!(
        start_conversation_at(&mut db, "C".to_string(), 7, &bea, "L2"),
        StartReply::Failed(DbError::DuplicateId)
    );
    let again = start_conversation(&mut db, &bea, "L");
    assert_eq!(again, StartReply::Conversation("C".to_string()));
    let stranger =
        Some(User { id: "ghost".to_string(), ..user(&db, "X").unwrap() });
    assert_eq!(
        start_conversation_at(&mut db, "G".to_string(), 8, &stranger, "L"),
        StartReply::Failed(DbError::UnknownUser)
    );
}

#[test]
fn only_the_parties_see_a_conversation() {
    let mut db = market();
    open_conversation(&mut db, "C".to_string(), 100, "L", "B", "S").unwrap();
    append_message(&mut db, "m1".to_string(), 110, "C", "B", "Is this available?").unwrap();
    let (sam, bea, xan) = (user(&db, "S"), user(&db, "B"), user(&db, "X"));

    assert!(viewable(&db, bea.as_ref().unwrap(), "C").is_some());
    assert!(viewable(&db, sam.as_ref().unwrap(), "C").is_some());
    assert!(viewable(&db, xan.as_ref().unwrap(), "C").is_none());
    assert!(viewable(&db, bea.as_ref().unwrap(), "nope").is_none());

    assert_eq!(conversation_at(&mut db, 200, &None, "C"), ConversationReply::Login);
    assert_eq!(conversation_at(&mut db, 200, &xan, "C"), ConversationReply::Inbox);
    assert_eq!(conversation_at(&mut db, 200, &sam, "nope"), ConversationReply::Inbox);
    assert!(db.reads.is_empty());
    assert_eq!(count_unread_in(&db, "S", "C"), 1);

    let page = match conversation_at(&mut db, 200, &sam, "C") {
        ConversationReply::Page(page) => page,
        other => panic!("no page: {:?}", other),
    };
    assert_eq!(last_read(&db, "S", "C"), Some(200));
    assert_eq!(page.conversation.id, "C");
    assert_eq!(page.conversation.unread_count, 0);
    assert_eq!(page.messages.len(), 1);
    assert_eq!(page.listing.unwrap().id, "L");
    assert_eq!(page.pending_offer, None);
    assert!(page.is_seller);
    assert_eq!(page.unread_count, 0);
    assert_eq!(page.payment_info, None);
    assert_eq!(page.other_name, "Bea");
    assert_eq!(page.last_message_id, "m1");
}

#[test]
fn the_buyer_sees_payment_instructions_once_an_offer_is_accepted() {
    let mut db = market();
    open_conversation(&mut db, "C".to_string(), 100, "L", "B", "S").unwrap();
    let (sam, bea) = (user(&db, "S"), user(&db, "B"));
    let page_of = |db: &mut Db, who: &Option<User>| match conversation_at(db, 500, who, "C") {
        ConversationReply::Page(page) => page,
        other => panic!("no page: {:?}", other),
    };
    let page = page_of(&mut db, &bea);
    assert_eq!(page.last_message_id, "");
    assert_eq!(page.other_name, "Sam");
    assert!(!page.is_seller);
    assert_eq!(page.payment_info, None);

    propose_offer(&mut db, "o1".to_string(), 200, "L", "C", "B", 8_000).unwrap();
    let page = page_of(&mut db, &bea);
    assert_eq!(page.pending_offer.unwrap().amount, 8_000);
    assert_eq!(page.payment_info, None);

    respond_to_offer(&mut db, "o1", "S", true);
    let page = page_of(&mut db, &bea);
    assert_eq!(page.pending_offer, None);
    assert_eq!(page.payment_info, Some("PayPal: sam@example.com".to_string()));
    let page = page_of(&mut db, &sam);
    assert_eq!(page.payment_info, None);
}

#[test]
fn posting_a_message_is_for_the_parties() {
    let mut db = market();
    open_conversation(&mut db, "C".to_string(), 100, "L", "B", "S").unwrap();
    let (bea, xan) = (user(&db, "B"), user(&db, "X"));
    assert_eq!(
        send_message_at(&mut db, "m".to_string(), 1, &None, "C", &said("hi")),
        PostReply::Login
    );
    assert_eq!(
        send_message_at(&mut db, "m".to_string(), 1, &xan, "C", &said("hi")),
        PostReply::Inbox
    );
    assert_eq!(
        send_message_at(&mut db, "m".to_string(), 1, &bea, "nope", &said("hi")),
        PostReply::Inbox
    );
    assert_eq!(
        send_message_at(&mut db, "m".to_string(), 1, &bea, "C", &said("   ")),
        PostReply::Thread
    );
    assert!(db.messages.is_empty());
    assert_eq!(
        send_message_at(&mut db, "m".to_string(), 1, &bea, "C", &said(" hi ")),
        PostReply::Thread
    );
    assert_eq!(get_messages(&db, "C")[0].content, "hi");
    assert_eq!(
        send_message_at(&mut db, "m".to_string(), 2, &bea, "C", &said("again")),
        PostReply::Failed(DbError::DuplicateId)
    );
    assert_eq!(db.messages.len(), 1);
}

#[test]
fn making_an_offer_announces_it() {
    let mut db = market();
    open_conversation(&mut db, "C".to_string(), 100, "L", "B", "S").unwrap();
    let (sam, bea) = (user(&db, "S"), user(&db, "B"));
    let offer = |db: &mut Db, who: &Option<User>, o: &str, m: &str, at: i64, text: &str| {
        make_offer_at(db, o.to_string(), m.to_string(), at, who, "C", &offered(text))
    };
    assert_eq!(offer(&mut db, &None, "o1", "m1", 200, "80"), PostReply::Login);
    assert_eq!(offer(&mut db, &sam, "o1", "m1", 200, "80"), PostReply::Inbox);
    assert_eq!(offer(&mut db, &bea, "o1", "m1", 200, "eighty"), PostReply::Thread);
    assert_eq!(offer(&mut db, &bea, "o1", "m1", 200, "0.00"), PostReply::Thread);
    assert_eq!(offer(&mut db, &bea, "o1", "m1", 200, "-80"), PostReply::Thread);
    assert!(db.offers.is_empty() && db.messages.is_empty());

    assert_eq!(offer(&mut db, &bea, "o1", "m1", 200, "$80"), PostReply::Thread);
    assert_eq!(get_pending_offer(&db, "C").unwrap().amount, 8_000);
    assert_eq!(get_messages(&db, "C")[0].content, "\u{1F4B0} Offer: $80.00");
    assert_eq!(get_messages(&db, "C")[0].sender_id, "B");

    assert_eq!(
        offer(&mut db, &bea, "o2", "m1", 210, "90"),
        PostReply::Failed(DbError::DuplicateId)
    );
    assert_eq!(
        offer(&mut db, &bea, "o1", "m2", 210, "90"),
        PostReply::Failed(DbError::DuplicateId)
    );
    assert_eq!(get_pending_offer(&db, "C").unwrap().id, "o1");
    assert_eq!(db.messages.len(), 1);

    assert_eq!(offer(&mut db, &bea, "o2", "m2", 210, "$1,090.5"), PostReply::Thread);
    assert_eq!(get_offer(&db, "o1").unwrap().status, OfferStatus::Cancelled);
    assert_eq!(get_pending_offer(&db, "C").unwrap().amount, 109_050);
    assert_eq!(get_messages(&db, "C")[1].content, "\u{1F4B0} Offer: $1090.50");

    assert_eq!(make_offer(&mut db, &bea, "C", &offered("95")), PostReply::Thread);
    assert_eq!(get_pending_offer(&db, "C").unwrap().amount, 9_500);
    assert_eq!(db.offers.len(), 3);
    assert_eq!(db.messages.len(), 3);
}

#[test]
fn answering_an_offer_announces_the_answer() {
    let mut db = market();
    open_conversation(&mut db, "C".to_string(), 100, "L", "B", "S").unwrap();
    propose_offer(&mut db, "o1".to_string(), 200, "L", "C", "B", 8_000).unwrap();
    propose_offer(&mut db, "o2".to_string(), 210, "L2", "C", "B", 3_000).unwrap();
    let (sam, bea) = (user(&db, "S"), user(&db, "B"));
    let answer = |db: &mut Db, who: &Option<User>, m: &str, thread: &str, o: &str, a: Option<&str>| {
        respond_offer_at(db, m.to_string(), 300, who, thread, o, a)
    };
    assert_eq!(answer(&mut db, &None, "m1", "C", "o1", Some("true")), PostReply::Login);
    assert_eq!(answer(&mut db, &bea, "m1", "C", "o1", Some("true")), PostReply::Thread);
    assert_eq!(answer(&mut db, &sam, "m1", "C", "nope", Some("true")), PostReply::Thread);
    assert_eq!(get_offer(&db, "o1").unwrap().status, OfferStatus::Pending);
    assert!(db.messages.is_empty());

    assert_eq!(
        answer(&mut db, &sam, "m1", "nope", "o1", Some("true")),
        PostReply::Failed(DbError::UnknownConversation)
    );
    assert_eq!(get_offer(&db, "o1").unwrap().status, OfferStatus::Pending);

    assert_eq!(answer(&mut db, &sam, "m1", "C", "o1", Some("true")), PostReply::Thread);
    assert_eq!(get_offer(&db, "o1").unwrap().status, OfferStatus::Accepted);
    assert_eq!(
        get_messages(&db, "C")[0].content,
        "\u{2705} Offer accepted! Check below for payment details."
    );
    assert_eq!(get_messages(&db, "C")[0].sender_id, "S");

    assert_eq!(answer(&mut db, &sam, "m2", "C", "o1", Some("false")), PostReply::Thread);
    assert_eq!(get_offer(&db, "o1").unwrap().status, OfferStatus::Accepted);
    assert_eq!(db.messages.len(), 1);

    assert_eq!(
        answer(&mut db, &sam, "m1", "C", "o2", None),
        PostReply::Failed(DbError::DuplicateId)
    );
    assert_eq!(get_offer(&db, "o2").unwrap().status, OfferStatus::Pending);
    assert_eq!(answer(&mut db, &sam, "m2", "C", "o2", Some("yes")), PostReply::Thread);
    assert_eq!(get_offer(&db, "o2").unwrap().status, OfferStatus::Rejected);
    assert_eq!(get_messages(&db, "C")[1].content, "\u{274C} Offer declined.");
}

#[test]
fn a_poll_answers_with_the_news_and_marks_them_read() {
    let mut db = market();
    open_conversation(&mut db, "C".to_string(), 100, "L", "B", "S").unwrap();
    append_message(&mut db, "m1".to_string(), 1_000, "C", "B", "Is this available?").unwrap();
    let (sam, bea, xan) = (user(&db, "S"), user(&db, "B"), user(&db, "X"));

    assert_eq!(poll_messages_at(&mut db, 2_000, &None, "C", &poll(Some("m1"))), "");
    assert_eq!(poll_messages_at(&mut db, 2_000, &xan, "C", &poll(Some("m1"))), "");
    assert_eq!(poll_messages_at(&mut db, 2_000, &bea, "C", &poll(None)), "");
    assert_eq!(poll_messages_at(&mut db, 2_000, &bea, "C", &poll(Some(""))), "");
    assert_eq!(poll_messages_at(&mut db, 2_000, &bea, "C", &poll(Some("m1"))), "");
    assert_eq!(poll_messages_at(&mut db, 2_000, &bea, "C", &poll(Some("nope"))), "");
    assert!(db.reads.is_empty());

    append_message(&mut db, "m2".to_string(), 1_100, "C", "S", "Yes <still> & 'ready'").unwrap();
    append_message(&mut db, "m3".to_string(), 1_940, "C", "B", "Great").unwrap();
    let html = poll_messages_at(&mut db, 2_000, &bea, "C", &poll(Some("m1")));
    let expected = [
        "<div class=\"message-bubble theirs\">\n",
        "                <div class=\"message-content\">",
        "Yes &lt;still&gt; &amp; &#x27;ready&#x27;</div>\n",
        "                <span class=\"message-time\">15m ago</span>\n",
        "            </div>",
        "<div class=\"message-bubble mine\">\n",
        "                <div class=\"message-content\">Great</div>\n",
        "                <span class=\"message-time\">1m ago</span>\n",
        "            </div>",
        "<div id=\"message-poller\" hx-get=\"/messages/C/poll?after=m3\" ",
        "hx-trigger=\"every 2s\" hx-target=\"#new-messages\" hx-swap=\"beforeend\" ",
        "hx-swap-oob=\"true\"></div>",
    ]
    .concat();
    assert_eq!(html, expected);
    assert_eq!(last_read(&db, "B", "C"), Some(2_000));
    assert_eq!(last_read(&db, "S", "C"), None);
    assert_eq!(poll_messages_at(&mut db, 2_100, &sam, "C", &poll(Some("m3"))), "");
}

#[test]
fn the_inbox_is_for_whoever_is_logged_in() {
    let mut db = market();
    open_conversation(&mut db, "C".to_string(), 100, "L", "B", "S").unwrap();
    open_conversation(&mut db, "D".to_string(), 200, "L2", "B", "S").unwrap();
    append_message(&mut db, "m1".to_string(), 1_000, "C", "B", "hello").unwrap();
    assert_eq!(inbox_at(&db, 5_000, &None), InboxReply::Login);
    let page = match inbox_at(&db, 4_600, &user(&db, "S")) {
        InboxReply::Page(page) => page,
        other => panic!("no page: {:?}", other),
    };
    assert_eq!(page.conversations.len(), 2);
    assert_eq!(page.conversations[0].id, "C");
    assert_eq!(page.ages, vec!["1h ago".to_string(), "1h ago".to_string()]);
    assert_eq!(page.unread_count, 1);
    let page = match inbox_at(&db, 1_030, &user(&db, "X")) {
        InboxReply::Page(page) => page,
        other => panic!("no page: {:?}", other),
    };
    assert!(page.conversations.is_empty() && page.ages.is_empty());
    assert_eq!(page.unread_count, 0);
}

fn registration(password: &str, confirm: &str) -> RegisterForm {
    RegisterForm {
        name: "Ann".to_string(),
        email: "ann@example.com".to_string(),
        password: password.to_string(),
        password_confirm: confirm.to_string(),
    }
}

#[test]
fn registering_checks_the_passwords_first() {
    let mut db = market();
    let hash = Some("h".to_string());
    let go = |db: &mut Db, form: &RegisterForm, hash: Option<String>| {
        register_at(db, "A".to_string(), "t".to_string(), 9, hash, form)
    };
    assert_eq!(MIN_PASSWORD_BYTES, 8);
    assert_eq!(
        check_passwords(&registration("long enough", "long enuogh")),
        Some(RegisterReply::PasswordsDiffer)
    );
    assert_eq!(check_passwords(&registration("short", "short")), Some(RegisterReply::PasswordTooShort));
    assert_eq!(check_passwords(&registration("1234567", "1234567")), Some(RegisterReply::PasswordTooShort));
    assert_eq!(check_passwords(&registration("12345678", "12345678")), None);
    assert_eq!(check_passwords(&registration("\u{e9}\u{e9}\u{e9}\u{e9}", "\u{e9}\u{e9}\u{e9}\u{e9}")), None);
    assert_eq!(check_passwords(&registration("short", "other")), Some(RegisterReply::PasswordsDiffer));

    assert_eq!(go(&mut db, &registration("a", "b"), hash.clone()), RegisterReply::PasswordsDiffer);
    assert_eq!(go(&mut db, &registration("a", "a"), hash.clone()), RegisterReply::PasswordTooShort);
    assert_eq!(go(&mut db, &registration("12345678", "12345678"), None), RegisterReply::HashFailed);
    let taken = RegisterForm { email: "sam@example.com".to_string(), ..registration("12345678", "12345678") };
    assert_eq!(go(&mut db, &taken, hash.clone()), RegisterReply::Failed(DbError::DuplicateEmail));
    assert_eq!(
        register_at(&mut db, "S".to_string(), "t".to_string(), 9, hash.clone(), &registration("12345678", "12345678")),
        RegisterReply::Failed(DbError::DuplicateId)
    );
    assert_eq!(db.users.len(), 3);
    assert!(db.sessions.is_empty());

    assert_eq!(
        go(&mut db, &registration("12345678", "12345678"), hash.clone()),
        RegisterReply::Registered { user_id: "A".to_string(), session: "t".to_string() }
    );
    assert_eq!(get_user_by_email(&db, "ann@example.com").unwrap().password_hash, "h");
    assert_eq!(get_session_user_at(&db, 10, "t").unwrap().id, "A");
    assert_eq!(
        register_at(&mut db, "A2".to_string(), "t".to_string(), 9, hash, &RegisterForm {
            email: "ann2@example.com".to_string(),
            ..registration("12345678", "12345678")
        }),
        RegisterReply::Failed(DbError::DuplicateId)
    );
    assert_eq!(db.users.len(), 4);
}

#[test]
fn whoever_registers_can_log_in() {
    let mut db = Db::new();
    let reply = register(&mut db, &registration("correct horse", "correct horse"));
    let (user_id, session) = match reply {
        RegisterReply::Registered { user_id, session } => (user_id, session),
        other => panic!("not registered: {:?}", other),
    };
    assert_ne!(user_id, session);
    let stored = get_user_by_id(&db, &user_id).unwrap();
    assert_ne!(stored.password_hash, "correct horse");
    assert!(verify_password("correct horse", &stored.password_hash));

    let form = |password: &str| LoginForm {
        email: "ann@example.com".to_string(),
        password: password.to_string(),
    };
    assert_eq!(login(&mut db, &form("wrong horse")), LoginReply::Invalid);
    assert_eq!(login_at(&mut db, "t2".to_string(), 50, &form("")), LoginReply::Invalid);
    let nobody = LoginForm { email: "bob@example.com".to_string(), password: "correct horse".to_string() };
    assert_eq!(login(&mut db, &nobody), LoginReply::Invalid);
    assert_eq!(db.sessions.len(), 1);

    assert_eq!(
        login_at(&mut db, "t2".to_string(), 50, &form("correct horse")),
        LoginReply::LoggedIn("t2".to_string())
    );
    assert_eq!(get_session_user_at(&db, 60, "t2").unwrap().id, user_id);
    assert_eq!(
        login_at(&mut db, "t2".to_string(), 70, &form("correct horse")),
        LoginReply::Failed(DbError::DuplicateId)
    );
    match login(&mut db, &form("correct horse")) {
        LoginReply::LoggedIn(token) => assert_eq!(token.len(), 36),
        other => panic!("not logged in: {:?}", other),
    }
    assert_eq!(db.sessions.len(), 3);
    assert!(register(&mut db, &registration("short", "short")) == RegisterReply::PasswordTooShort);
}

#[test]
fn a_stored_hash_decides_the_login() {
    let mut db = Db::new();
    let hash = hash_password("password123").unwrap();
    insert_user(&mut db, "U".to_string(), 1, "Al", "al@example.com", &hash).unwrap();
    insert_user(&mut db, "V".to_string(), 1, "Vi", "vi@example.com", "password123").unwrap();
    let form = |email: &str| LoginForm { email: email.to_string(), password: "password123".to_string() };
    assert_eq!(
        login_at(&mut db, "t".to_string(), 5, &form("al@example.com")),
        LoginReply::LoggedIn("t".to_string())
    );
    assert_eq!(login_at(&mut db, "t3".to_string(), 5, &form("vi@example.com")), LoginReply::Invalid);
}

#[test]
fn the_profile_page_shows_the_user_as_stored() {
    let mut db = market();
    assert_eq!(profile(&db, &None), ProfileReply::Login);
    let sam = user(&db, "S");
    let page = match profile(&db, &sam) {
        ProfileReply::Page(page) => page,
        other => panic!("no page: {:?}", other),
    };
    assert_eq!(page.user.name, "Sam");
    let ids: Vec<&str> = page.listings.iter().map(|l| l.id.as_str()).collect();
    assert_eq!(ids, vec!["L2", "L"]);
    assert_eq!(page.unread_count, 0);

    let form = ProfileForm {
        name: "Samuel".to_string(),
        location: "Salem, OR".to_string(),
        bio: "Woodworker".to_string(),
        payment_info: "cash".to_string(),
    };
    assert_eq!(update_profile(&mut db, &None, &form), ProfileReply::Login);
    let page = match update_profile(&mut db, &sam, &form) {
        ProfileReply::Page(page) => page,
        other => panic!("no page: {:?}", other),
    };
    assert_eq!(page.user.name, "Samuel");
    assert_eq!(page.user.location, "Salem, OR");
    assert_eq!(page.user.email, "sam@example.com");
    assert_eq!(page.listings.len(), 2);
    assert_eq!(page.listings[0].seller_name, "Samuel");
    let ghost = Some(User { id: "ghost".to_string(), ..sam.unwrap() });
    assert_eq!(update_profile(&mut db, &ghost, &form), ProfileReply::Login);
}

fn everything() -> SearchQuery {
    SearchQuery { q: None, category: None, condition: None, min_price: None, max_price: None, sort: None }
}

#[test]
fn the_feed_page_and_its_fragment() {
    let mut db = market();
    open_conversation(&mut db, "C".to_string(), 100, "L", "B", "S").unwrap();
    append_message(&mut db, "m1".to_string(), 1_000, "C", "B", "hello").unwrap();
    let query = SearchQuery {
        q: Some("a".to_string()),
        sort: Some("price_asc".to_string()),
        ..everything()
    };
    let page = feed_at(&db, 2_000 + 3 * 86_400, &user(&db, "S"), &query);
    let ids: Vec<&str> = page.listings.iter().map(|l| l.id.as_str()).collect();
    assert_eq!(ids, vec!["L2", "L"]);
    assert_eq!(page.ages, vec!["3d ago".to_string(), "3d ago".to_string()]);
    assert_eq!(page.categories.len(), 1);
    assert_eq!(page.categories[0].count, 2);
    assert_eq!(page.unread_count, 1);
    assert_eq!(page.query, "a");
    assert_eq!(page.current_category, "");
    assert_eq!(page.current_condition, "");
    assert_eq!(page.current_sort, "price_asc");
    assert_eq!(feed_at(&db, 0, &None, &everything()).unread_count, 0);

    let nothing = SearchQuery { q: Some("zzz".to_string()), ..everything() };
    assert_eq!(
        feed_partial_at(&db, 5_000, &nothing),
        "<div class=\"no-results\"><p>No listings found. Try a different search.</p></div>"
    );
    let one = SearchQuery { q: Some("plane".to_string()), ..everything() };
    let expected = [
        "<a href=\"/listing/L\" class=\"listing-card\">\n",
        "                <div class=\"listing-image\"><img src=\"/img.jpg\" ",
        "alt=\"Plane &amp; Saw\" loading=\"lazy\"></div>\n",
        "                <div class=\"listing-info\">\n",
        "                    <p class=\"listing-price\">$100</p>\n",
        "                    <h3 class=\"listing-title\">Plane &amp; Saw</h3>\n",
        "                    <div class=\"listing-meta\">\n",
        "                        <span class=\"listing-location\">\u{1F4CD} Portland &lt;OR&gt;</span>\n",
        "                        <span class=\"listing-time\">2h ago</span>\n",
        "                    </div>\n",
        "                </div>\n",
        "            </a>",
    ]
    .concat();
    assert_eq!(feed_partial_at(&db, 1_000 + 7_200, &one), expected);
    let both = feed_partial_at(&db, 9_000, &everything());
    assert_eq!(both.matches("listing-card").count(), 2);
    assert!(both.find("/listing/L2").unwrap() < both.find("/listing/L\"").unwrap());
    assert!(both.contains("<p class=\"listing-price\">$36</p>"));
}

#[test]
fn a_listings_page() {
    let mut db = market();
    open_conversation(&mut db, "C".to_string(), 100, "L2", "B", "S").unwrap();
    open_conversation(&mut db, "D".to_string(), 200, "L", "B", "S").unwrap();
    assert_eq!(listing_detail_at(&db, 0, &None, "nope"), DetailReply::NotFound);
    let page_of = |who: &Option<User>| match listing_detail_at(&db, 1_000 + 120, who, "L") {
        DetailReply::Page(page) => page,
        other => panic!("no page: {:?}", other),
    };
    let page = page_of(&None);
    assert_eq!(page.listing.id, "L");
    assert_eq!(page.seller.as_ref().unwrap().id, "S");
    assert_eq!(page.seller_listings.len(), 1);
    assert_eq!(page.seller_listings[0].id, "L2");
    assert_eq!(page.time_ago, "2m ago");
    assert!(!page.is_owner);
    assert_eq!(page.existing_convo, None);
    assert_eq!(page.unread_count, 0);

    let page = page_of(&user(&db, "S"));
    assert!(page.is_owner);
    assert_eq!(page.existing_convo, None);

    let page = page_of(&user(&db, "B"));
    assert!(!page.is_owner);
    assert_eq!(page.existing_convo.unwrap().id, "D");

    let page = page_of(&user(&db, "X"));
    assert_eq!(page.existing_convo, None);
}

fn field(name: &str, text: &str) -> FormField {
    FormField { name: name.to_string(), text: text.to_string() }
}

#[test]
fn posted_fields_make_the_form() {
    let start = ListingForm {
        title: "".to_string(),
        description: "".to_string(),
        price: "".to_string(),
        category: "".to_string(),
        condition: "Good".to_string(),
        location: "Home".to_string(),
    };
    let fields = vec![
        field("title", "First"),
        field("price", "12.50"),
        field("csrf", "token"),
        field("title", "Second"),
        field("category", "Tools"),
        field("description", "Sharp"),
        field("Title", "ignored"),
    ];
    let form = read_listing_fields(start, &fields);
    assert_eq!(form.title, "Second");
    assert_eq!(form.description, "Sharp");
    assert_eq!(form.price, "12.50");
    assert_eq!(form.category, "Tools");
    assert_eq!(form.condition, "Good");
    assert_eq!(form.location, "Home");
}

#[test]
fn a_seller_posts_changes_sells_and_deletes() {
    let mut db = market();
    let (sam, bea) = (user(&db, "S"), user(&db, "B"));
    let fields = vec![field("title", "Chisel"), field("price", "30"), field("category", "Tools")];
    assert_eq!(create_listing(&mut db, &None, &fields, None), ListingReply::Login);
    let id = match create_listing(&mut db, &sam, &fields, None) {
        ListingReply::Listing(id) => id,
        other => panic!("not posted: {:?}", other),
    };
    let made = get_listing(&db, &id).unwrap();
    assert_eq!(made.title, "Chisel");
    assert_eq!(made.price, 3_000);
    assert_eq!(made.condition, "Good");
    assert_eq!(made.location, "Portland, OR");
    assert_eq!(made.image_url, PLACEHOLDER_IMAGE);
    assert_eq!(made.image_url, "/static/images/placeholder.svg");
    let with_image = match create_listing(&mut db, &sam, &fields, Some("/static/images/x.png")) {
        ListingReply::Listing(id) => id,
        other => panic!("not posted: {:?}", other),
    };
    assert_eq!(get_listing(&db, &with_image).unwrap().image_url, "/static/images/x.png");
    let ghost = Some(User { id: "ghost".to_string(), ..sam.clone().unwrap() });
    assert_eq!(
        create_listing(&mut db, &ghost, &fields, None),
        ListingReply::Failed(DbError::UnknownUser)
    );

    let change = vec![field("title", "Chisel set"), field("location", "Salem")];
    assert_eq!(update_listing(&mut db, &None, &id, &change, None), ListingReply::Login);
    assert_eq!(update_listing(&mut db, &bea, &id, &change, None), ListingReply::Listing(id.clone()));
    assert_eq!(get_listing(&db, &id).unwrap().title, "Chisel");
    assert_eq!(update_listing(&mut db, &sam, &id, &change, None), ListingReply::Listing(id.clone()));
    let changed = get_listing(&db, &id).unwrap();
    assert_eq!(changed.title, "Chisel set");
    assert_eq!(changed.location, "Salem");
    assert_eq!(changed.price, 0);
    assert_eq!(changed.category, "");
    assert_eq!(changed.condition, "Good");
    assert_eq!(changed.image_url, PLACEHOLDER_IMAGE);

    assert_eq!(mark_sold(&mut db, &None, &id), ListingReply::Login);
    assert_eq!(mark_sold(&mut db, &bea, &id), ListingReply::Listing(id.clone()));
    assert_eq!(get_listing(&db, &id).unwrap().status, ListingStatus::Active);
    assert_eq!(mark_sold(&mut db, &sam, &id), ListingReply::Listing(id.clone()));
    assert_eq!(get_listing(&db, &id).unwrap().status, ListingStatus::Sold);

    assert_eq!(delete_listing(&mut db, &None, &id), ListingReply::Login);
    assert_eq!(delete_listing(&mut db, &bea, &id), ListingReply::Profile);
    assert!(get_listing(&db, &id).is_some());
    assert_eq!(delete_listing(&mut db, &sam, &id), ListingReply::Profile);
    assert!(get_listing(&db, &id).is_none());
}

#[test]
fn the_editor_is_for_the_seller() {
    let mut db = market();
    open_conversation(&mut db, "C".to_string(), 100, "L", "B", "S").unwrap();
    append_message(&mut db, "m1".to_string(), 1_000, "C", "B", "hello").unwrap();
    let (sam, bea) = (user(&db, "S"), user(&db, "B"));
    assert_eq!(new_listing_page(&db, &None), EditorReply::Login);
    match new_listing_page(&db, &sam) {
        EditorReply::Page(page) => {
            assert_eq!(page.listing, None);
            assert_eq!(page.unread_count, 1);
            assert!(!page.editing);
        }
        other => panic!("no page: {:?}", other),
    }
    assert_eq!(edit_listing_page(&db, &None, "L"), EditorReply::Login);
    assert_eq!(edit_listing_page(&db, &bea, "L"), EditorReply::Home);
    assert_eq!(edit_listing_page(&db, &sam, "nope"), EditorReply::Home);
    match edit_listing_page(&db, &sam, "L") {
        EditorReply::Page(page) => {
            assert_eq!(page.listing.unwrap().title, "Plane & Saw");
            assert!(page.editing);
        }
        other => panic!("no page: {:?}", other),
    }
}

#[test]
fn an_upload_keeps_its_extension() {
    assert_eq!(upload_address_at("abc", "lamp.png"), "/static/images/abc.png");
    assert_eq!(upload_address_at("abc", "my.lamp.JPG"), "/static/images/abc.JPG");
    assert_eq!(upload_address_at("abc", "lamp"), "/static/images/abc.lamp");
    assert_eq!(upload_address_at("abc", "lamp."), "/static/images/abc.");
    assert_eq!(upload_address_at("abc", ".hidden"), "/static/images/abc.hidden");
    assert_eq!(upload_address_at("", ""), "/static/images/.");
    let drawn = upload_address("chair.webp");
    assert!(drawn.starts_with("/static/images/") && drawn.ends_with(".webp"));
    assert_eq!(drawn.len(), "/static/images/".len() + 36 + ".webp".len());
    assert_ne!(drawn, upload_address("chair.webp"));
}

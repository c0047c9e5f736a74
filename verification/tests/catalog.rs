use forge_commerce::db::listings::{order_named, ListingFilter, ListingOrder};
use forge_commerce::db::{
    create_listing, create_user, delete_listing, get_categories, get_listing, get_listings,
    get_seller_listings, get_user_by_id, get_user_listings, insert_listing, insert_user,
    open_conversation, select_listings, update_listing, update_listing_status,
    update_user_profile, Db, DbError,
};
use forge_commerce::models::{ListingForm, ListingRow, ListingStatus, ProfileForm, SearchQuery};

fn row(id: &str, seller: &str, title: &str, price: u64, category: &str, at: i64) -> ListingRow {
    ListingRow {
        id: id.to_string(),
        seller_id: seller.to_string(),
        title: title.to_string(),
        description: format!("About the {}", title),
        price,
        category: category.to_string(),
        condition: "Good".to_string(),
        location: "Denver, CO".to_string(),
        image_url: "/img.jpg".to_string(),
        status: ListingStatus::Active,
        created_at: at,
    }
}

fn form(title: &str, price: &str, category: &str) -> ListingForm {
    ListingForm {
        title: title.to_string(),
        description: "D".to_string(),
        price: price.to_string(),
        category: category.to_string(),
        condition: "Like New".to_string(),
        location: "Austin, TX".to_string(),
    }
}

fn query() -> SearchQuery {
    SearchQuery { q: None, category: None, condition: None, min_price: None, max_price: None, sort: None }
}

fn market() -> Db {
    let mut db = Db::new();
    insert_user(&mut db, "S".to_string(), 10, "Sam", "sam@example.com", "hs").unwrap();
    insert_user(&mut db, "T".to_string(), 10, "Tess", "tess@example.com", "ht").unwrap();
    insert_listing(&mut db, row("a", "S", "Dutch Oven", 8_500, "Home & Kitchen", 100)).unwrap();
    insert_listing(&mut db, row("b", "T", "Smoothing Plane", 29_500, "Tools", 200)).unwrap();
    insert_listing(&mut db, row("c", "T", "Pull Saw", 6_500, "Tools", 300)).unwrap();
    insert_listing(&mut db, row("d", "S", "Desk Lamp", 7_500, "Lighting", 300)).unwrap();
    insert_listing(&mut db, row("e", "S", "Skillet", 6_500, "Home & Kitchen", 400)).unwrap();
    db
}

fn ids(found: Vec<forge_commerce::models::Listing>) -> Vec<String> {
    found.into_iter().map(|l| l.id).collect()
}

#[test]
fn test_get_categories() {
    let mut db = Db::new();
    insert_user(&mut db, "S".to_string(), 10, "Sam", "sam@example.com", "hs").unwrap();

    for (name, cat) in &[("A", "Alpha"), ("B", "Alpha"), ("C", "Beta")] {
        let form = ListingForm {
            title: name.to_string(),
            description: "D".to_string(),
            price: "10.00".to_string(),
            category: cat.to_string(),
            condition: "Good".to_string(),
            location: "".to_string(),
        };
        create_listing(&mut db, "S", &form, "/img.jpg").unwrap();
    }

    let cats = get_categories(&db);
    assert_eq!(cats.len(), 2);
    let alpha = cats.iter().find(|c| c.name == "Alpha").unwrap();
    assert_eq!(alpha.count, 2);
}

#[test]
fn categories_come_by_name_and_count_active_listings() {
    let mut db = market();
    let names = |db: &Db| -> Vec<(String, u64)> {
        get_categories(db).into_iter().map(|c| (c.name, c.count)).collect()
    };
    assert_eq!(
        names(&db),
        vec![
            ("Home & Kitchen".to_string(), 2),
            ("Lighting".to_string(), 1),
            ("Tools".to_string(), 2)
        ]
    );
    update_listing_status(&mut db, "d", "S", ListingStatus::Sold);
    update_listing_status(&mut db, "b", "T", ListingStatus::Removed);
    assert_eq!(names(&db), vec![("Home & Kitchen".to_string(), 2), ("Tools".to_string(), 1)]);
    assert!(get_categories(&Db::new()).is_empty());
}

#[test]
fn the_feed_shows_active_listings_newest_first() {
    let mut db = market();
    assert_eq!(ids(get_listings(&db, &query())), vec!["e", "c", "d", "b", "a"]);
    update_listing_status(&mut db, "c", "T", ListingStatus::Sold);
    assert_eq!(ids(get_listings(&db, &query())), vec!["e", "d", "b", "a"]);
    assert_eq!(get_listings(&db, &query())[0].seller_name, "Sam");
    assert_eq!(get_listings(&db, &query())[2].seller_name, "Tess");
}

#[test]
fn the_feed_sorts_as_asked() {
    let db = market();
    let sorted = |sort: &str| {
        ids(get_listings(&db, &SearchQuery { sort: Some(sort.to_string()), ..query() }))
    };
    assert_eq!(sorted("price_asc"), vec!["c", "e", "d", "a", "b"]);
    assert_eq!(sorted("price_desc"), vec!["b", "a", "d", "c", "e"]);
    assert_eq!(sorted("oldest"), vec!["a", "b", "c", "d", "e"]);
    assert_eq!(sorted("newest"), vec!["e", "c", "d", "b", "a"]);
    assert_eq!(sorted(""), vec!["e", "c", "d", "b", "a"]);
    assert_eq!(order_named(&Some("price_asc".to_string())), ListingOrder::Cheapest);
    assert_eq!(order_named(&Some("price_desc".to_string())), ListingOrder::Dearest);
    assert_eq!(order_named(&Some("oldest".to_string())), ListingOrder::Oldest);
    assert_eq!(order_named(&Some("PRICE_ASC".to_string())), ListingOrder::Newest);
    assert_eq!(order_named(&None), ListingOrder::Newest);
}

#[test]
fn the_feed_filters_as_asked() {
    let db = market();
    let some = |s: &str| Some(s.to_string());
    assert_eq!(ids(get_listings(&db, &SearchQuery { q: some("saw"), ..query() })), vec!["c"]);
    assert_eq!(
        ids(get_listings(&db, &SearchQuery { q: some("about the d"), ..query() })),
        vec!["d", "a"]
    );
    assert_eq!(ids(get_listings(&db, &SearchQuery { q: some(""), ..query() })).len(), 5);
    assert_eq!(
        ids(get_listings(&db, &SearchQuery { category: some("Tools"), ..query() })),
        vec!["c", "b"]
    );
    assert_eq!(ids(get_listings(&db, &SearchQuery { category: some("tools"), ..query() })).len(), 0);
    assert_eq!(ids(get_listings(&db, &SearchQuery { category: some(""), ..query() })).len(), 5);
    assert_eq!(
        ids(get_listings(&db, &SearchQuery { condition: some("Good"), ..query() })).len(),
        5
    );
    assert_eq!(
        ids(get_listings(&db, &SearchQuery { condition: some("New"), ..query() })).len(),
        0
    );
    assert_eq!(
        ids(get_listings(&db, &SearchQuery { min_price: some("75"), ..query() })),
        vec!["d", "b", "a"]
    );
    assert_eq!(
        ids(get_listings(&db, &SearchQuery { max_price: some("75.00"), ..query() })),
        vec!["e", "c", "d"]
    );
    assert_eq!(
        ids(get_listings(
            &db,
            &SearchQuery { min_price: some("70"), max_price: some("90"), ..query() }
        )),
        vec!["d", "a"]
    );
    assert_eq!(
        ids(get_listings(&db, &SearchQuery { min_price: some("cheap"), ..query() })).len(),
        5
    );
    assert_eq!(
        ids(get_listings(
            &db,
            &SearchQuery {
                q: some("PLANE"),
                category: some("Tools"),
                max_price: some("300"),
                sort: some("price_asc"),
                ..query()
            }
        )),
        vec!["b"]
    );
}

#[test]
fn the_feed_shows_fifty_at_most() {
    let mut db = Db::new();
    insert_user(&mut db, "S".to_string(), 10, "Sam", "sam@example.com", "hs").unwrap();
    for i in 0..60 {
        insert_listing(&mut db, row(&format!("l{}", i), "S", "Thing", 100 + i, "Misc", i as i64))
            .unwrap();
    }
    let found = get_listings(&db, &query());
    assert_eq!(found.len(), 50);
    assert_eq!(found[0].id, "l59");
    assert_eq!(found[49].id, "l10");
    assert_eq!(get_user_listings(&db, "S").len(), 60);
}

#[test]
fn a_sellers_own_list_and_other_listings() {
    let mut db = market();
    update_listing_status(&mut db, "d", "S", ListingStatus::Sold);
    assert_eq!(ids(get_user_listings(&db, "S")), vec!["e", "d", "a"]);
    assert_eq!(ids(get_user_listings(&db, "T")), vec!["c", "b"]);
    assert!(get_user_listings(&db, "nobody").is_empty());
    assert_eq!(ids(get_seller_listings(&db, "S", "a")), vec!["e"]);
    assert_eq!(ids(get_seller_listings(&db, "S", "nope")), vec!["a", "e"]);
    for i in 0..6 {
        insert_listing(&mut db, row(&format!("m{}", i), "T", "More", 1, "Misc", 500)).unwrap();
    }
    assert_eq!(ids(get_seller_listings(&db, "T", "c")), vec!["b", "m0", "m1", "m2"]);
}

#[test]
fn a_selection_can_be_made_freely() {
    let db = market();
    let filter = ListingFilter {
        active_only: false,
        seller_id: None,
        exclude_id: Some("a".to_string()),
        text: Some("s".chars().collect()),
        category: None,
        condition: None,
        min_price: Some(6_500),
        max_price: Some(7_500),
    };
    assert!(filter.admits(&db.listings[2]));
    assert!(!filter.admits(&db.listings[0]));
    assert_eq!(ids(select_listings(&db, &filter, ListingOrder::Dearest, None)), vec!["d", "c", "e"]);
    assert_eq!(ids(select_listings(&db, &filter, ListingOrder::AsKept, Some(2))), vec!["c", "d"]);
    assert_eq!(ids(select_listings(&db, &filter, ListingOrder::Oldest, Some(0))).len(), 0);
}

#[test]
fn creating_a_listing_reads_the_price() {
    let mut db = market();
    let id = create_listing(&mut db, "S", &form("Beanie", "28.00", "Apparel"), "/b.jpg").unwrap();
    let made = get_listing(&db, &id).unwrap();
    assert_eq!(made.title, "Beanie");
    assert_eq!(made.price, 2_800);
    assert_eq!(made.category, "Apparel");
    assert_eq!(made.condition, "Like New");
    assert_eq!(made.location, "Austin, TX");
    assert_eq!(made.image_url, "/b.jpg");
    assert_eq!(made.status, ListingStatus::Active);
    assert_eq!(made.seller_id, "S");
    assert_eq!(made.seller_name, "Sam");
    assert!(made.created_at > 1_600_000_000);

    let free = create_listing(&mut db, "S", &form("Odd", "a lot", "Misc"), "/o.jpg").unwrap();
    assert_eq!(get_listing(&db, &free).unwrap().price, 0);
    assert_eq!(
        create_listing(&mut db, "nobody", &form("X", "1", "Misc"), "/x.jpg"),
        Err(DbError::UnknownUser)
    );
    assert_eq!(db.listings.len(), 7);
}

#[test]
fn writing_a_listing_needs_a_seller_and_a_free_identifier() {
    let mut db = market();
    assert_eq!(
        insert_listing(&mut db, row("z", "nobody", "Z", 1, "Misc", 1)),
        Err(DbError::UnknownUser)
    );
    assert_eq!(
        insert_listing(&mut db, row("a", "S", "Z", 1, "Misc", 1)),
        Err(DbError::DuplicateId)
    );
    assert_eq!(db.listings.len(), 5);
    assert!(get_listing(&db, "z").is_none());
}

#[test]
fn only_the_seller_changes_a_listing() {
    let mut db = market();
    assert!(!update_listing(&mut db, "a", "T", &form("Hijacked", "1", "Misc"), None));
    assert!(!update_listing(&mut db, "nope", "S", &form("None", "1", "Misc"), None));
    assert_eq!(get_listing(&db, "a").unwrap().title, "Dutch Oven");

    assert!(update_listing(&mut db, "a", "S", &form("Dutch Oven 5.5qt", "80", "Kitchen"), None));
    let changed = get_listing(&db, "a").unwrap();
    assert_eq!(changed.title, "Dutch Oven 5.5qt");
    assert_eq!(changed.price, 8_000);
    assert_eq!(changed.category, "Kitchen");
    assert_eq!(changed.image_url, "/img.jpg");
    assert_eq!(changed.created_at, 100);
    assert_eq!(changed.status, ListingStatus::Active);

    assert!(update_listing(&mut db, "a", "S", &form("Dutch Oven", "x", "Kitchen"), Some("/n.jpg")));
    let changed = get_listing(&db, "a").unwrap();
    assert_eq!(changed.image_url, "/n.jpg");
    assert_eq!(changed.price, 0);
    assert_eq!(get_listing(&db, "b").unwrap().title, "Smoothing Plane");
    assert_eq!(db.listings.len(), 5);
}

#[test]
fn only_the_seller_sets_the_status() {
    let mut db = market();
    assert!(!update_listing_status(&mut db, "a", "T", ListingStatus::Sold));
    assert!(!update_listing_status(&mut db, "nope", "S", ListingStatus::Sold));
    assert_eq!(get_listing(&db, "a").unwrap().status, ListingStatus::Active);
    assert!(update_listing_status(&mut db, "a", "S", ListingStatus::Sold));
    assert_eq!(get_listing(&db, "a").unwrap().status, ListingStatus::Sold);
    assert!(update_listing_status(&mut db, "a", "S", ListingStatus::Active));
    assert_eq!(get_listing(&db, "a").unwrap().status, ListingStatus::Active);
}

#[test]
fn a_listing_that_is_referred_to_stays() {
    let mut db = market();
    insert_user(&mut db, "B".to_string(), 20, "Bea", "bea@example.com", "hb").unwrap();
    open_conversation(&mut db, "C".to_string(), 100, "a", "B", "S").unwrap();
    assert!(!delete_listing(&mut db, "a", "S"));
    assert!(!delete_listing(&mut db, "d", "T"));
    assert!(!delete_listing(&mut db, "nope", "S"));
    assert_eq!(db.listings.len(), 5);
    assert!(delete_listing(&mut db, "d", "S"));
    assert!(get_listing(&db, "d").is_none());
    let left: Vec<&str> = db.listings.iter().map(|l| l.id.as_str()).collect();
    assert_eq!(left, vec!["a", "b", "c", "e"]);
    assert!(!delete_listing(&mut db, "d", "S"));
}

#[test]
fn users_are_found_and_their_profiles_changed() {
    let mut db = Db::new();
    let id = create_user(&mut db, "Clara", "clara@example.com", "hash").unwrap();
    let user = get_user_by_id(&db, &id).unwrap();
    assert_eq!(user.email, "clara@example.com");
    assert_eq!(user.password_hash, "hash");
    assert_eq!(user.location, "");
    assert_eq!(user.payment_info, "");
    assert!(get_user_by_id(&db, "nope").is_none());

    let profile = ProfileForm {
        name: "Clara B.".to_string(),
        location: "Denver, CO".to_string(),
        bio: "Minimalist.".to_string(),
        payment_info: "Zelle: 555-0123".to_string(),
    };
    assert!(update_user_profile(&mut db, &id, &profile));
    assert!(!update_user_profile(&mut db, "nope", &profile));
    let user = get_user_by_id(&db, &id).unwrap();
    assert_eq!(user.name, "Clara B.");
    assert_eq!(user.location, "Denver, CO");
    assert_eq!(user.bio, "Minimalist.");
    assert_eq!(user.payment_info, "Zelle: 555-0123");
    assert_eq!(user.email, "clara@example.com");
    assert_eq!(user.password_hash, "hash");
}

#[test]
fn a_user_needs_a_free_identifier() {
    let mut db = Db::new();
    insert_user(&mut db, "u".to_string(), 1, "A", "a@example.com", "h").unwrap();
    assert_eq!(
        insert_user(&mut db, "u".to_string(), 2, "B", "b@example.com", "h"),
        Err(DbError::DuplicateId)
    );
    assert_eq!(
        insert_user(&mut db, "u".to_string(), 2, "B", "a@example.com", "h"),
        Err(DbError::DuplicateEmail)
    );
    assert_eq!(db.users.len(), 1);
}

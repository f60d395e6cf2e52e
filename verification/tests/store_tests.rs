use post_repo::errors::RepoError;
use post_repo::post::{JsonPost, Post};
use post_repo::store::PostStore;

fn make_post(title: &str, date: i64, author: &str, category: &str, content: &str) -> Post {
    Post {
        id: None,
        title: String::from(title),
        date,
        author: String::from(author),
        category: String::from(category),
        content: String::from(content),
        image: String::new(),
    }
}

#[test]
fn create_then_get_returns_all_fields() {
    let mut store = PostStore::new();
    let id = store.create_post(make_post("A", 1000, "Bob", "News", "body text"));
    assert!(!id.is_empty());
    assert_eq!(id.len(), 24);
    let got = store.get_post(&id).unwrap();
    assert_eq!(got.title, "A");
    assert_eq!(got.date, 1000);
    assert_eq!(got.author, "Bob");
    assert_eq!(got.category, "News");
    assert_eq!(got.content, "body text");
    assert_eq!(got.image, "");
    assert_eq!(got.id.unwrap(), id);
}

#[test]
fn created_ids_are_distinct_and_hex() {
    let mut store = PostStore::new();
    let a = store.create_post(make_post("A", 1, "x", "c", "t"));
    let b = store.create_post(make_post("B", 2, "x", "c", "t"));
    assert_ne!(a, b);
    assert!(a.chars().all(|ch| ch.is_ascii_hexdigit()));
    assert!(b.chars().all(|ch| ch.is_ascii_hexdigit()));
}

#[test]
fn create_discards_client_identifier() {
    let mut store = PostStore::new();
    let mut p = make_post("A", 1, "x", "c", "t");
    p.id = Some(String::from("ffffffffffffffffffffffff"));
    let id = store.create_post(p);
    assert_ne!(id, "ffffffffffffffffffffffff");
    assert!(store.get_post("ffffffffffffffffffffffff").is_err());
    assert!(store.get_post(&id).is_ok());
}

#[test]
fn get_post_rejects_empty_id_without_lookup() {
    let store = PostStore::new();
    assert_eq!(store.get_post("").unwrap_err(), RepoError::InvalidId);
}

#[test]
fn get_post_rejects_malformed_id() {
    let store = PostStore::new();
    assert_eq!(store.get_post("not-a-valid-id").unwrap_err(), RepoError::MalformedId);
    assert_eq!(store.get_post("abc123").unwrap_err(), RepoError::MalformedId);
}

#[test]
fn get_post_unknown_id_is_not_found() {
    let store = PostStore::new();
    assert_eq!(
        store.get_post("0123456789abcdef01234567").unwrap_err(),
        RepoError::NotFound
    );
}

#[test]
fn list_pages_are_ranked_by_date_descending() {
    let mut store = PostStore::new();
    store.create_post(make_post("oldest", 10, "a", "c", "t"));
    store.create_post(make_post("newest", 50, "a", "c", "t"));
    store.create_post(make_post("middle", 30, "a", "c", "t"));
    store.create_post(make_post("older", 20, "a", "c", "t"));
    store.create_post(make_post("newer", 40, "a", "c", "t"));

    let page1 = store.get_posts(1, 2).unwrap();
    assert_eq!(page1.len(), 2);
    assert_eq!(page1[0].title, "newest");
    assert_eq!(page1[1].title, "newer");

    let page2 = store.get_posts(2, 2).unwrap();
    assert_eq!(page2.len(), 2);
    assert_eq!(page2[0].title, "middle");
    assert_eq!(page2[1].title, "older");

    let page3 = store.get_posts(3, 2).unwrap();
    assert_eq!(page3.len(), 1);
    assert_eq!(page3[0].title, "oldest");

    let beyond = store.get_posts(4, 2).unwrap();
    assert!(beyond.is_empty());
}

#[test]
fn equal_dates_keep_insertion_order() {
    let mut store = PostStore::new();
    store.create_post(make_post("first", 5, "a", "c", "t"));
    store.create_post(make_post("second", 5, "a", "c", "t"));
    store.create_post(make_post("third", 5, "a", "c", "t"));
    let all = store.get_posts(1, 10).unwrap();
    assert_eq!(all.len(), 3);
    assert_eq!(all[0].title, "first");
    assert_eq!(all[1].title, "second");
    assert_eq!(all[2].title, "third");
}

#[test]
fn page_zero_is_rejected() {
    let store = PostStore::new();
    assert_eq!(store.get_posts(0, 10).unwrap_err(), RepoError::InvalidPage);
    assert_eq!(
        store.posts_by_category("c", 0, 10).unwrap_err(),
        RepoError::InvalidPage
    );
}

#[test]
fn negative_limit_is_rejected() {
    let store = PostStore::new();
    assert_eq!(store.get_posts(1, -1).unwrap_err(), RepoError::InvalidLimit);
    assert_eq!(
        store.posts_by_author("a", 1, -5).unwrap_err(),
        RepoError::InvalidLimit
    );
}

#[test]
fn category_prefix_filter_is_case_insensitive_and_anchored() {
    let mut store = PostStore::new();
    store.create_post(make_post("a", 1, "x", "News", "t"));
    store.create_post(make_post("b", 2, "x", "NEWSFLASH", "t"));
    store.create_post(make_post("c", 3, "x", "renewal", "t"));
    store.create_post(make_post("d", 4, "x", "finance", "t"));

    let hits = store.posts_by_category("new", 1, 10).unwrap();
    assert_eq!(hits.len(), 2);
    assert_eq!(hits[0].category, "NEWSFLASH");
    assert_eq!(hits[1].category, "News");
    assert_eq!(store.get_total_posts_category("new"), 2);
}

#[test]
fn category_scenario_news_prefix() {
    let mut store = PostStore::new();
    store.create_post(make_post("n", 100, "x", "News", "t"));
    store.create_post(make_post("f", 200, "x", "Newsflash", "t"));
    store.create_post(make_post("s", 300, "x", "Sports", "t"));

    let hits = store.posts_by_category("New", 1, 10).unwrap();
    assert_eq!(hits.len(), 2);
    assert_eq!(hits[0].category, "Newsflash");
    assert_eq!(hits[1].category, "News");
    assert_eq!(store.get_total_posts_category("New"), 2);
}

#[test]
fn author_prefix_filter() {
    let mut store = PostStore::new();
    store.create_post(make_post("a", 1, "Bob", "c", "t"));
    store.create_post(make_post("b", 2, "bobby", "c", "t"));
    store.create_post(make_post("c", 3, "Alice", "c", "t"));
    let hits = store.posts_by_author("BOB", 1, 10).unwrap();
    assert_eq!(hits.len(), 2);
    assert_eq!(hits[0].author, "bobby");
    assert_eq!(hits[1].author, "Bob");
    assert_eq!(store.get_total_posts_author("BOB"), 2);
}

#[test]
fn count_matches_full_listing_length() {
    let mut store = PostStore::new();
    store.create_post(make_post("a", 1, "x", "News", "t"));
    store.create_post(make_post("b", 2, "x", "Newsflash", "t"));
    store.create_post(make_post("c", 3, "x", "Sports", "t"));
    store.create_post(make_post("d", 4, "x", "news digest", "t"));

    let all = store.posts_by_category("new", 1, i64::MAX).unwrap();
    assert_eq!(all.len() as u64, store.get_total_posts_category("new"));
    assert_eq!(store.get_total_posts(), 4);
}

#[test]
fn search_orders_by_descending_relevance() {
    let mut store = PostStore::new();
    store.create_post(make_post("nothing here", 1, "x", "c", "plain body"));
    store.create_post(make_post("rust tips", 2, "x", "c", "more about rust"));
    store.create_post(make_post("cooking", 3, "x", "c", "a rust remover"));

    let hits = store.search_posts("rust");
    assert_eq!(hits.len(), 2);
    assert_eq!(hits[0].title, "rust tips");
    assert_eq!(hits[1].title, "cooking");
}

#[test]
fn search_is_case_insensitive_and_can_be_empty() {
    let mut store = PostStore::new();
    store.create_post(make_post("RUST inside", 1, "x", "c", "t"));
    let hits = store.search_posts("rUsT");
    assert_eq!(hits.len(), 1);
    let none = store.search_posts("absent-term");
    assert!(none.is_empty());
}

#[test]
fn list_with_total_bundles_page_and_unfiltered_count() {
    let mut store = PostStore::new();
    store.create_post(make_post("a", 1, "x", "News", "t"));
    store.create_post(make_post("b", 2, "x", "Sports", "t"));
    store.create_post(make_post("c", 3, "x", "News", "t"));
    let page = store.list_with_total(1, 2).unwrap();
    assert_eq!(page.posts.len(), 2);
    assert_eq!(page.total, 3);
    assert_eq!(page.posts[0].title, "c");
    assert_eq!(page.posts[1].title, "b");
    assert_eq!(
        store.list_with_total(0, 2).unwrap_err(),
        RepoError::InvalidPage
    );
}

#[test]
fn category_with_total_bundles_page_and_filtered_count() {
    let mut store = PostStore::new();
    store.create_post(make_post("n", 100, "x", "News", "t"));
    store.create_post(make_post("f", 200, "x", "Newsflash", "t"));
    store.create_post(make_post("s", 300, "x", "Sports", "t"));
    let page = store.category_with_total("New", 1, 10).unwrap();
    assert_eq!(page.total, 2);
    assert_eq!(page.posts.len(), 2);
    assert_eq!(page.posts[0].category, "Newsflash");
    assert_eq!(page.posts[1].category, "News");
}

#[test]
fn author_with_total_bundles_page_and_filtered_count() {
    let mut store = PostStore::new();
    store.create_post(make_post("a", 1, "Bob", "c", "t"));
    store.create_post(make_post("b", 2, "Alice", "c", "t"));
    let page = store.author_with_total("bo", 1, 10).unwrap();
    assert_eq!(page.total, 1);
    assert_eq!(page.posts.len(), 1);
    assert_eq!(page.posts[0].author, "Bob");
}

#[test]
fn wire_round_trip_preserves_fields_except_id() {
    let w = JsonPost {
        id: Some(String::from("0123456789abcdef01234567")),
        title: String::from("T"),
        date: 77,
        author: String::from("A"),
        category: String::from("C"),
        content: String::from("body"),
        image: String::from("img.png"),
    };
    let p = Post::from(w);
    assert!(p.id.is_none());
    let back = JsonPost::from(p);
    assert!(back.id.is_none());
    assert_eq!(back.title, "T");
    assert_eq!(back.date, 77);
    assert_eq!(back.author, "A");
    assert_eq!(back.category, "C");
    assert_eq!(back.content, "body");
    assert_eq!(back.image, "img.png");
}

#[test]
fn stored_to_wire_keeps_identifier() {
    let p = Post {
        id: Some(String::from("0123456789abcdef01234567")),
        title: String::from("T"),
        date: 5,
        author: String::from("A"),
        category: String::from("C"),
        content: String::from("body"),
        image: String::new(),
    };
    let w = JsonPost::from(p);
    assert_eq!(w.id.unwrap(), "0123456789abcdef01234567");
    assert_eq!(w.title, "T");
}

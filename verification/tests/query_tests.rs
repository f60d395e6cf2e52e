use post_repo::errors::RepoError;
use post_repo::ident::parse_post_id;
use post_repo::query::{
    build_author_query, build_category_query, build_list_query, build_search_query, compute_skip,
    prefix_regex_pattern, QueryFilter, QuerySort,
};
use post_repo::text::{contains_ci_x, prefix_matches_ci, str_eq};

#[test]
fn skip_arithmetic() {
    assert_eq!(compute_skip(1, 10).unwrap(), 0);
    assert_eq!(compute_skip(3, 10).unwrap(), 20);
    assert_eq!(compute_skip(7, 0).unwrap(), 0);
}

#[test]
fn skip_rejects_bad_pages() {
    assert_eq!(compute_skip(0, 10).unwrap_err(), RepoError::InvalidPage);
    assert_eq!(compute_skip(2, -1).unwrap_err(), RepoError::InvalidLimit);
    assert_eq!(compute_skip(u64::MAX, 2).unwrap_err(), RepoError::InvalidPage);
}

#[test]
fn prefix_pattern_is_anchored() {
    assert_eq!(prefix_regex_pattern("News"), "^News.*");
    assert_eq!(prefix_regex_pattern(""), "^.*");
}

#[test]
fn prefix_pattern_escapes_regex_metacharacters() {
    assert_eq!(prefix_regex_pattern("a.c"), "^a\\.c.*");
    assert_eq!(prefix_regex_pattern("c++"), "^c\\+\\+.*");
    assert_eq!(prefix_regex_pattern("x\\y"), "^x\\\\y.*");
    assert_eq!(prefix_regex_pattern("(a|b)"), "^\\(a\\|b\\).*");
}

#[test]
fn list_query_fields() {
    let q = build_list_query(2, 5).unwrap();
    assert!(matches!(q.filter, QueryFilter::All));
    assert!(matches!(q.sort, QuerySort::DateDesc));
    assert_eq!(q.skip, 5);
    assert_eq!(q.limit, Some(5));
}

#[test]
fn category_query_fields() {
    let q = build_category_query("Tech", 1, 3).unwrap();
    match q.filter {
        QueryFilter::CategoryPrefix(p) => assert_eq!(p, "^Tech.*"),
        _ => panic!("wrong filter"),
    }
    assert!(matches!(q.sort, QuerySort::DateDesc));
    assert_eq!(q.skip, 0);
    assert_eq!(q.limit, Some(3));
}

#[test]
fn author_query_fields() {
    let q = build_author_query("Bob", 4, 2).unwrap();
    match q.filter {
        QueryFilter::AuthorPrefix(p) => assert_eq!(p, "^Bob.*"),
        _ => panic!("wrong filter"),
    }
    assert_eq!(q.skip, 6);
    assert_eq!(q.limit, Some(2));
}

#[test]
fn search_query_fields() {
    let q = build_search_query("hello world");
    match q.filter {
        QueryFilter::TextSearch(t) => assert_eq!(t, "hello world"),
        _ => panic!("wrong filter"),
    }
    assert!(matches!(q.sort, QuerySort::Relevance));
    assert_eq!(q.skip, 0);
    assert_eq!(q.limit, None);
}

#[test]
fn parse_post_id_accepts_valid_object_ids() {
    let oid = parse_post_id("0123456789abcdefABCDEF01").unwrap();
    assert_eq!(oid.to_hex(), "0123456789abcdefabcdef01");
}

#[test]
fn parse_post_id_rejects_empty_and_malformed() {
    assert_eq!(parse_post_id("").unwrap_err(), RepoError::InvalidId);
    assert_eq!(parse_post_id("not-a-valid-id").unwrap_err(), RepoError::MalformedId);
    assert_eq!(
        parse_post_id("0123456789abcdef0123456").unwrap_err(),
        RepoError::MalformedId
    );
    assert_eq!(
        parse_post_id("0123456789abcdef0123456z").unwrap_err(),
        RepoError::MalformedId
    );
}

#[test]
fn text_matching() {
    assert!(prefix_matches_ci("new", "NEWSFLASH"));
    assert!(prefix_matches_ci("", "anything"));
    assert!(!prefix_matches_ci("new", "renewal"));
    assert!(!prefix_matches_ci("longer", "long"));
    assert!(contains_ci_x("a RUST remover", "rust"));
    assert!(!contains_ci_x("finance", "new"));
    assert!(contains_ci_x("anything", ""));
    assert!(str_eq("abc", "abc"));
    assert!(!str_eq("abc", "abd"));
    assert!(!str_eq("abc", "ab"));
}

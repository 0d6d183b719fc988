use blog::article::Item;
use blog::database::{changed_rows, next_article_id, next_article_id_signed, prev_article_id, prev_article_id_signed, title_or_deleted};
use blog::routes::{article_path, next_path, prev_path};
use blog::text::{decimal_string, signed_decimal_string};

#[test]
fn decimal_numbers() {
    assert_eq!(decimal_string(0), "0");
    assert_eq!(decimal_string(7), "7");
    assert_eq!(decimal_string(1234567890), "1234567890");
    assert_eq!(decimal_string(u64::MAX), u64::MAX.to_string());
    assert_eq!(signed_decimal_string(-42), "-42");
    assert_eq!(signed_decimal_string(i64::MIN), i64::MIN.to_string());
    assert_eq!(signed_decimal_string(5), "5");
}

#[test]
fn neighbour_ids() {
    assert_eq!(next_article_id(4), 5);
    assert_eq!(next_article_id(u32::MAX), u32::MAX);
    assert_eq!(prev_article_id(4), 3);
    assert_eq!(prev_article_id(0), 0);
    assert_eq!(next_article_id_signed(-1), 0);
    assert_eq!(prev_article_id_signed(0), -1);
}

#[test]
fn missing_neighbour_is_deleted() {
    assert_eq!(title_or_deleted(None), "Deleted");
    assert_eq!(title_or_deleted(Some("x".to_string())), "x");
}

#[test]
fn writes_report_changed_rows() {
    assert!(!changed_rows(0));
    assert!(changed_rows(1));
    assert!(changed_rows(7));
}

#[test]
fn trailing_slash_redirects() {
    assert_eq!(next_path(12), "/blog/next/12");
    assert_eq!(prev_path(-3), "/blog/prev/-3");
    assert_eq!(article_path("a%20b"), "/blog/a%20b");
}

#[test]
fn item_debug_form() {
    let item = Item { id: 9, title: "a\"b".to_string(), body: "üx".to_string(), is_last: true, is_first: false };
    assert_eq!(item.debug_string(), "Item { id: 9, title: \"a\\\"b\", #: 3, is_last: true, is_first: false }");
}

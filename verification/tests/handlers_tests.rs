use blog::article::{Item, ListItem};
use blog::codec::decode_body;
use blog::handlers::{
    admin_panel, article_key, authorize, create_article, created_status, delete_article, deleted_status,
    admin_panel_checked, decode_titles, get_article, get_article_checked, get_articles, get_articles_checked, next_article, prev_article, Reply, StatusCode,
};
use blog::view::Assets;

fn assets() -> Assets {
    Assets {
        favicon_svg: String::new(),
        articles_css: String::new(),
        article_css: String::new(),
        login_css: String::new(),
        admin_css: String::new(),
    }
}

#[test]
fn only_the_admin_is_authorized() {
    assert!(authorize("admin", Some("admin")));
    assert!(!authorize("admin", None));
    assert!(!authorize("admin", Some("root")));
    assert!(!authorize("root", Some("admin")));
    assert!(!authorize("", Some("")));
}

#[test]
fn create_article_requires_admin() {
    assert_eq!(create_article("t", "b", "guest", Some("admin")), Err(StatusCode::Unauthorized));
    let (key, stored) = create_article("Hello World", "**hi**", "admin", Some("admin")).unwrap();
    assert_eq!(key, "Hello%20World");
    assert_eq!(decode_body(&stored), Some("**hi**".to_string()));
}

#[test]
fn delete_article_requires_admin() {
    assert_eq!(delete_article("t", "admin", None), Err(StatusCode::Unauthorized));
    assert_eq!(delete_article("a b", "admin", Some("admin")), Ok("a%20b".to_string()));
}

#[test]
fn statuses_after_the_database() {
    assert_eq!(created_status(true), StatusCode::Created);
    assert_eq!(created_status(false), StatusCode::Conflict);
    assert_eq!(deleted_status(true), StatusCode::Success);
    assert_eq!(deleted_status(false), StatusCode::NoContent);
    assert_eq!(StatusCode::Success.code(), 200);
    assert_eq!(StatusCode::Created.code(), 201);
    assert_eq!(StatusCode::NoContent.code(), 204);
    assert_eq!(StatusCode::Unauthorized.code(), 401);
    assert_eq!(StatusCode::Conflict.code(), 409);
}

#[test]
fn missing_article_redirects_to_list() {
    assert_eq!(get_article("http://h", &assets(), None), Some(Reply::Redirect("http://h/blog".to_string())));
}

#[test]
fn present_article_is_shown() {
    let item = Item {
        id: 2,
        title: article_key("Über"),
        body: create_article("x", "text", "admin", Some("admin")).unwrap().1,
        is_last: false,
        is_first: true,
    };
    match get_article("", &assets(), Some(&item)) {
        Some(Reply::Html(page)) => assert!(page.contains("<h1>Über</h1><p>text</p>")),
        other => panic!("unexpected {:?}", other),
    }
}

#[test]
fn neighbour_redirects_to_title() {
    assert_eq!(next_article("http://h", "Next%20One"), Reply::Redirect("http://h/blog/Next%20One".to_string()));
    assert_eq!(prev_article("", "Deleted"), Reply::Redirect("/blog/Deleted".to_string()));
}

#[test]
fn titles_are_decoded_for_lists() {
    let list = vec![ListItem { id: 1, added: "2023-01-01".to_string(), title: "a%20b".to_string() }];
    let decoded = decode_titles(&list).unwrap();
    assert_eq!(decoded[0].title, "a b");
    assert_eq!(decoded[0].id, 1);
    assert!(get_articles("", &assets(), &list).contains(">2023-01-01  •  a b\n</a>"));
    assert!(admin_panel("", &assets(), &list).contains("edit"));
    assert_eq!(get_articles_checked("", &assets(), &list), Some(get_articles("", &assets(), &list)));
    assert_eq!(admin_panel_checked("", &assets(), &list), Some(admin_panel("", &assets(), &list)));
    let bad = vec![ListItem { id: 1, added: String::new(), title: "%C3".to_string() }];
    assert!(decode_titles(&bad).is_none());
    assert!(get_articles_checked("", &assets(), &bad).is_none());
    assert!(admin_panel_checked("", &assets(), &bad).is_none());
}

#[test]
fn article_key_is_percent_encoding() {
    assert_eq!(article_key("Rust & Verus"), "Rust%20%26%20Verus");
}

#[test]
fn distinct_titles_have_distinct_keys() {
    let titles = ["a b", "a%20b", "a+b", "a_b", "ä", "%C3%A4", ""];
    for (i, a) in titles.iter().enumerate() {
        for (j, b) in titles.iter().enumerate() {
            assert_eq!(article_key(a) == article_key(b), i == j);
        }
    }
}

#[test]
fn undecodable_article_is_refused() {
    let bad_body = Item { id: 3, title: "t".to_string(), body: "***".to_string(), is_last: true, is_first: true };
    assert_eq!(get_article_checked("", &assets(), Some(&bad_body)), None);
    let bad_title = Item { id: 3, title: "%FF".to_string(), body: create_article("x", "y", "admin", Some("admin")).unwrap().1, is_last: true, is_first: true };
    assert_eq!(get_article_checked("", &assets(), Some(&bad_title)), None);
    assert_eq!(get_article_checked("x", &assets(), None), Some(Reply::Redirect("x/blog".to_string())));
    let good = Item { id: 3, title: "t".to_string(), body: create_article("x", "y", "admin", Some("admin")).unwrap().1, is_last: true, is_first: true };
    assert_eq!(get_article_checked("", &assets(), Some(&good)), get_article("", &assets(), Some(&good)));
}

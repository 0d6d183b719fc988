use blog::article::{Item, ListItem};
use blog::codec::{decode_body, encode_body};
use blog::handlers::{article_key, decode_titles};
use blog::view::{article_page, Assets};

fn decode(title: &str) -> Option<String> {
    let list = vec![ListItem { id: 0, added: String::new(), title: title.to_string() }];
    decode_titles(&list).map(|d| d[0].title.clone())
}

#[test]
fn page_titles_are_escaped() {
    let assets = Assets {
        favicon_svg: String::new(),
        articles_css: String::new(),
        article_css: String::new(),
        login_css: String::new(),
        admin_css: String::new(),
    };
    let item = Item { id: 1, title: String::new(), body: String::new(), is_last: true, is_first: true };
    let page = article_page("", &assets, &item, "<a href=\"x\">&</a> 160R's", "");
    assert!(page.contains("<h1>&lt;a href=&quot;x&quot;&gt;&amp;&lt;/a&gt; 160R's</h1>"));
}

#[test]
fn keys_keep_unreserved_and_escape_the_rest() {
    assert_eq!(article_key("Hello World-_.~"), "Hello%20World-_.~");
    assert_eq!(article_key("ü"), "%C3%BC");
    assert_eq!(article_key("a/b?c"), "a%2Fb%3Fc");
}

#[test]
fn keys_decode_to_their_titles() {
    for title in ["Hello World", "ü & ö", "100% sure", ""] {
        assert_eq!(decode(&article_key(title)), Some(title.to_string()));
    }
    assert_eq!(decode("plain"), Some("plain".to_string()));
    assert_eq!(decode("a%41"), Some("aA".to_string()));
    assert_eq!(decode("%FF"), None);
}

#[test]
fn body_roundtrip() {
    let stored = encode_body("# Title\n\nsome *text* ü");
    assert_eq!(stored, "IyBUaXRsZQoKc29tZSAqdGV4dCogw7w=");
    assert_eq!(decode_body(&stored), Some("# Title\n\nsome *text* ü".to_string()));
    assert_eq!(decode_body("not base64!"), None);
    assert_eq!(decode_body("/w=="), None);
}

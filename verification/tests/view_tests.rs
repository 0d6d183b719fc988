use blog::article::{Item, ListItem};
use blog::codec::encode_body;
use blog::handlers::article_key;
use blog::view::{admin_login, admin_panel, article_page, display_article, display_articles, Assets};

fn assets() -> Assets {
    Assets {
        favicon_svg: "<svg/>".to_string(),
        articles_css: "a{}".to_string(),
        article_css: "b{}".to_string(),
        login_css: "c{}".to_string(),
        admin_css: "d{}".to_string(),
    }
}

fn entry(id: u32, added: &str, title: &str) -> ListItem {
    ListItem { id, added: added.to_string(), title: title.to_string() }
}

const ICON: &str = "<link rel=\"icon\" href=\"data:image/svg+xml,%3Csvg%2F%3E\"></link>";

#[test]
fn articles_page_lists_each_article() {
    let page = display_articles("http://h", &assets(), &vec![entry(1, "2023-01-02", "A & B"), entry(2, "2023-02-03", "x")]);
    let expected = String::new()
        + "<style>a{}</style><title>160R blog</title>"
        + ICON
        + "<body><h1>Welcome to 160R's blog!</h1><h2>Software</h2>"
        + "<a class=\"software\" href=\"https://github.com/I60R/page\">page</a>"
        + "<a class=\"software\" href=\"https://github.com/I60R/javelin\">javelin</a>"
        + "<h2>Articles</h2><main>"
        + "<a class=\"article\" href=\"http://h/blog/A &amp; B\">2023-01-02  •  A &amp; B\n</a>"
        + "<a class=\"article\" href=\"http://h/blog/x\">2023-02-03  •  x\n</a>"
        + "</main></body>";
    assert_eq!(page, expected);
}

#[test]
fn articles_page_without_articles() {
    let page = display_articles("", &assets(), &vec![]);
    assert!(page.ends_with("<h2>Articles</h2><main></main></body>"));
}

#[test]
fn article_page_links_to_neighbours() {
    let item = Item { id: 7, title: "t".to_string(), body: String::new(), is_last: false, is_first: false };
    let page = article_page("http://h", &assets(), &item, "<T>", "<p>x</p>");
    let expected = String::new()
        + "<style>b{}</style><title>&lt;T&gt;</title>"
        + ICON
        + "<body><main><h1>&lt;T&gt;</h1><p>x</p></main><footer>"
        + "<a class=\"arrow_backward\" href=\"http://h/blog/next/7\"></a>"
        + "<a href=\"http://h\">⌂</a>"
        + "<a class=\"arrow_forward\" href=\"http://h/blog/prev/7\"></a>"
        + "</footer></body>";
    assert_eq!(page, expected);
}

#[test]
fn article_page_marks_first_and_last() {
    let item = Item { id: 1, title: "t".to_string(), body: String::new(), is_last: true, is_first: true };
    let page = article_page("", &assets(), &item, "t", "");
    assert!(page.ends_with("<footer><a>⏺</a><a href=\"\">⌂</a><a>⏺</a></footer></body>"));
}

#[test]
fn display_article_decodes_title_and_body() {
    let item = Item {
        id: 3,
        title: article_key("Hello World"),
        body: encode_body("a & b"),
        is_last: true,
        is_first: false,
    };
    let page = display_article("http://h", &assets(), &item).unwrap();
    assert!(page.contains("<title>Hello World</title>"));
    assert!(page.contains("<h1>Hello World</h1><p>a &amp; b</p>\n</main>"));
}

#[test]
fn login_page_has_the_form() {
    let page = admin_login(&assets());
    let expected = String::new()
        + "<style>c{}</style><title>Login</title>"
        + ICON
        + "<body><div>username:<input></input>password:<input></input><button>Login</button></div></body>";
    assert_eq!(page, expected);
}

#[test]
fn admin_panel_has_edit_buttons_and_editor() {
    let page = admin_panel("http://h", &assets(), &vec![entry(1, "2023-01-02", "x")]);
    let expected = String::new()
        + "<style>d{}</style><title>160R blog: admin</title>"
        + ICON
        + "<body><h2>Articles</h2><main>"
        + "<div class=\"list\"><button class=\"edit\">edit</button>"
        + "<a class=\"article\" href=\"http://h/blog/x\">2023-01-02  •  x\n</a></div>"
        + "</main><div class=\"editor\"><div class=\"title\"><input class=\"name\"></input>"
        + "<button class=\"post\">post</button></div><input class=\"content\"></input></div></body>";
    assert_eq!(page, expected);
}

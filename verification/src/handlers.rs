//! What the request handlers decide: who may change articles, what the
//! answer to each request is, and the keys under which titles and bodies are
//! stored. The caller does the I/O between the steps.

use vstd::prelude::*;
use vstd::utf8::encode_utf8;
use crate::article::{Item, ListItem};
use crate::codec::{base64_encoded, encode_body, percent_encoded, url_decode, url_decoded, url_encode};
use crate::markdown::rendered_markdown;
use crate::view::{
    admin_page, admin_panel as admin_panel_page, article_page_html, articles_page, display_article,
    display_articles, article_display, Assets,
};

verus! {

/// The HTTP statuses that the handlers answer with.
#[derive(Debug, Clone, Copy, PartialEq, Eq, Structural)]
pub enum StatusCode {
    /// 200 OK.
    Success,
    Created,
    NoContent,
    Unauthorized,
    Conflict,
}

/// The number of a status.
pub open spec fn status_number(status: StatusCode) -> u16 {
    match status {
        StatusCode::Success => 200,
        StatusCode::Created => 201,
        StatusCode::NoContent => 204,
        StatusCode::Unauthorized => 401,
        StatusCode::Conflict => 409,
    }
}

impl StatusCode {
    /// The number of the status.
    pub fn code(&self) -> (n: u16)
        ensures
            n == status_number(*self),
    {
        match self {
            StatusCode::Success => 200,
            StatusCode::Created => 201,
            StatusCode::NoContent => 204,
            StatusCode::Unauthorized => 401,
            StatusCode::Conflict => 409,
        }
    }
}

/// The answer to a page request: a page, or a permanent redirect to a URL.
#[derive(Debug, PartialEq)]
pub enum Reply {
    Html(String),
    Redirect(String),
}

/// The one account that may change articles.
pub open spec fn is_admin(id: Seq<char>, password: Option<Seq<char>>) -> bool {
    id == "admin"@ && password == Some("admin"@)
}

/// Whether basic-auth credentials are the admin's.
pub fn authorize(id: &str, password: Option<&str>) -> (ok: bool)
    ensures
        ok == is_admin(id@, match password {
            Some(p) => Some(p@),
            None => None,
        }),
{
    let admin = String::from_str("admin");
    let id_ok = id.to_owned() == admin;
    match password {
        Some(p) => id_ok && p.to_owned() == admin,
        None => false,
    }
}

/// The key under which an article is stored: its title, percent-encoded.
pub fn article_key(title: &str) -> (key: String)
    ensures
        key@ == percent_encoded(encode_utf8(title@)),
        url_decoded(key@) == Some(title@),
{
    url_encode(title)
}

/// The list entries with their titles decoded; `None` where a title does not
/// decode to UTF-8.
pub fn decode_titles(articles: &Vec<ListItem>) -> (decoded: Option<Vec<ListItem>>)
    ensures
        decoded is Some <==> all_titles_decode(articles@),
        decoded matches Some(d) ==> titles_decoded(articles@, d@),
{
    let mut decoded: Vec<ListItem> = Vec::new();
    let mut k: usize = 0;
    while k < articles.len()
        invariant
            k <= articles.len(),
            decoded.len() == k,
            forall|i: int| 0 <= i < k ==> (#[trigger] url_decoded(articles@[i].title@)) is Some,
            forall|i: int|
                0 <= i < k ==> {
                    &&& (#[trigger] decoded@[i]).id == articles@[i].id
                    &&& decoded@[i].added == articles@[i].added
                    &&& url_decoded(articles@[i].title@) == Some(decoded@[i].title@)
                },
        decreases articles.len() - k,
    {
        let entry = &articles[k];
        match url_decode(entry.title.as_str()) {
            Some(title) => {
                decoded.push(ListItem { id: entry.id, added: entry.added.clone(), title });
            },
            None => {
                assert(url_decoded(articles@[k as int].title@) is None);
                return None;
            },
        }
        k = k + 1;
    }
    Some(decoded)
}

/// Whether every title of a list decodes to UTF-8.
pub open spec fn all_titles_decode(articles: Seq<ListItem>) -> bool {
    forall|i: int| 0 <= i < articles.len() ==> (#[trigger] url_decoded(articles[i].title@)) is Some
}

/// Whether `decoded` is a list with the titles of `articles` decoded: the same
/// length and order, the same ids and dates.
pub open spec fn titles_decoded(articles: Seq<ListItem>, decoded: Seq<ListItem>) -> bool {
    &&& decoded.len() == articles.len()
    &&& forall|i: int|
        0 <= i < decoded.len() ==> {
            &&& (#[trigger] decoded[i]).id == articles[i].id
            &&& decoded[i].added == articles[i].added
            &&& url_decoded(articles[i].title@) == Some(decoded[i].title@)
        }
}

/// `GET /blog`: the list of articles with their titles decoded. Every title
/// must decode to UTF-8 (the server fails otherwise; `get_articles_checked`
/// tests it first).
pub fn get_articles(addr: &str, assets: &Assets, articles: &Vec<ListItem>) -> (page: String)
    requires
        all_titles_decode(articles@),
    ensures
        exists|d: Seq<ListItem>| titles_decoded(articles@, d) && page@ == articles_page(addr@, *assets, d),
{
    match decode_titles(articles) {
        Some(d) => display_articles(addr, assets, &d),
        None => {
            assert(false);
            String::new()
        },
    }
}

/// `GET /blog` on any list: the page of `get_articles` where every title
/// decodes to UTF-8, `None` otherwise.
pub fn get_articles_checked(addr: &str, assets: &Assets, articles: &Vec<ListItem>) -> (page: Option<String>)
    ensures
        page is Some <==> all_titles_decode(articles@),
        page matches Some(p) ==> exists|d: Seq<ListItem>|
            titles_decoded(articles@, d) && p@ == articles_page(addr@, *assets, d),
{
    if decode_titles(articles).is_some() {
        Some(get_articles(addr, assets, articles))
    } else {
        None
    }
}

/// `GET /admin`: the admin panel, titles decoded. Every title must decode to
/// UTF-8 (the server fails otherwise; `admin_panel_checked` tests it first).
pub fn admin_panel(addr: &str, assets: &Assets, articles: &Vec<ListItem>) -> (page: String)
    requires
        all_titles_decode(articles@),
    ensures
        exists|d: Seq<ListItem>| titles_decoded(articles@, d) && page@ == admin_page(addr@, *assets, d),
{
    match decode_titles(articles) {
        Some(d) => admin_panel_page(addr, assets, &d),
        None => {
            assert(false);
            String::new()
        },
    }
}

/// `GET /admin` on any list: the page of `admin_panel` where every title
/// decodes to UTF-8, `None` otherwise.
pub fn admin_panel_checked(addr: &str, assets: &Assets, articles: &Vec<ListItem>) -> (page: Option<String>)
    ensures
        page is Some <==> all_titles_decode(articles@),
        page matches Some(p) ==> exists|d: Seq<ListItem>|
            titles_decoded(articles@, d) && p@ == admin_page(addr@, *assets, d),
{
    if decode_titles(articles).is_some() {
        Some(admin_panel(addr, assets, articles))
    } else {
        None
    }
}

/// The address of the list of articles.
pub open spec fn blog_url(addr: Seq<char>) -> Seq<char> {
    addr + "/blog"@
}

/// The address of an article by its stored title.
pub open spec fn article_url(addr: Seq<char>, title: Seq<char>) -> Seq<char> {
    addr + "/blog/"@ + title
}

/// Whether an article's stored title and body decode: the title to UTF-8,
/// the body as Base64 of UTF-8.
pub open spec fn article_decodes(item: Item) -> bool {
    url_decoded(item.title@) is Some && crate::codec::stored_body_text(item.body@) is Some
}

/// Tests whether an article's stored title and body decode.
pub fn decodes(item: &Item) -> (ok: bool)
    ensures
        ok == article_decodes(*item),
{
    url_decode(item.title.as_str()).is_some() && crate::codec::decode_body(item.body.as_str()).is_some()
}

/// `GET /blog/{title}`, once the article under the title's key was looked up:
/// its page, or a redirect to the list where there is none. A found article's
/// title and body must decode (the server fails otherwise;
/// `get_article_checked` tests it first). `None` where syntect fails on a code
/// block; the server fails then too.
pub fn get_article(addr: &str, assets: &Assets, article: Option<&Item>) -> (reply: Option<Reply>)
    requires
        article matches Some(item) ==> article_decodes(*item),
    ensures
        (match article {
            None => reply matches Some(Reply::Redirect(url)) && url@ == blog_url(addr@),
            Some(item) => match article_display(addr@, *assets, *item) {
                Some(page) => reply matches Some(Reply::Html(h)) && h@ == page,
                None => reply is None,
            },
        }),
{
    match article {
        Some(item) => match display_article(addr, assets, item) {
            Some(page) => Some(Reply::Html(page)),
            None => None,
        },
        None => {
            let mut url = String::from_str(addr);
            url.append("/blog");
            Some(Reply::Redirect(url))
        },
    }
}

/// `GET /blog/{title}` for any lookup result: the answer of `get_article`
/// where a found article's title and body decode, `None` otherwise.
pub fn get_article_checked(addr: &str, assets: &Assets, article: Option<&Item>) -> (reply: Option<Reply>)
    ensures
        (match article {
            None => reply matches Some(Reply::Redirect(url)) && url@ == blog_url(addr@),
            Some(item) => match article_display(addr@, *assets, *item) {
                Some(page) => reply matches Some(Reply::Html(h)) && h@ == page,
                None => reply is None,
            },
        }),
{
    match article {
        Some(item) => {
            if decodes(item) {
                get_article(addr, assets, article)
            } else {
                None
            }
        },
        None => get_article(addr, assets, article),
    }
}

fn redirect_to_article(addr: &str, title: &str) -> (reply: Reply)
    ensures
        reply matches Reply::Redirect(url) && url@ == article_url(addr@, title@),
{
    let mut url = String::from_str(addr);
    url.append("/blog/");
    url.append(title);
    Reply::Redirect(url)
}

/// `GET /blog/next/{id}`, once the title of the next article was fetched: a
/// redirect to it.
pub fn next_article(addr: &str, title: &str) -> (reply: Reply)
    ensures
        reply matches Reply::Redirect(url) && url@ == article_url(addr@, title@),
{
    redirect_to_article(addr, title)
}

/// `GET /blog/prev/{id}`, once the title of the previous article was
/// fetched: a redirect to it.
pub fn prev_article(addr: &str, title: &str) -> (reply: Reply)
    ensures
        reply matches Reply::Redirect(url) && url@ == article_url(addr@, title@),
{
    redirect_to_article(addr, title)
}

/// `POST /blog/{title}`, before the database: refused unless the credentials
/// are the admin's; otherwise the key of the title and the stored form of the
/// body.
pub fn create_article(title: &str, body: &str, id: &str, password: Option<&str>) -> (request: Result<(String, String), StatusCode>)
    ensures
        !is_admin(id@, match password {
            Some(p) => Some(p@),
            None => None,
        }) <==> request == Err::<(String, String), StatusCode>(StatusCode::Unauthorized),
        is_admin(id@, match password {
            Some(p) => Some(p@),
            None => None,
        }) ==> request is Ok,
        request matches Ok((key, stored)) ==> {
            &&& key@ == percent_encoded(encode_utf8(title@))
            &&& url_decoded(key@) == Some(title@)
            &&& stored@ == base64_encoded(encode_utf8(body@))
            &&& crate::codec::stored_body_text(stored@) == Some(body@)
        },
{
    if !authorize(id, password) {
        return Err(StatusCode::Unauthorized);
    }
    Ok((article_key(title), encode_body(body)))
}

/// `POST /blog/{title}`, after the database: created, or a conflict where an
/// article with that title was there already.
pub fn created_status(inserted: bool) -> (status: StatusCode)
    ensures
        status == (if inserted { StatusCode::Created } else { StatusCode::Conflict }),
{
    if inserted {
        StatusCode::Created
    } else {
        StatusCode::Conflict
    }
}

/// `DELETE /blog/{title}`, before the database: refused unless the
/// credentials are the admin's; otherwise the key of the title.
pub fn delete_article(title: &str, id: &str, password: Option<&str>) -> (request: Result<String, StatusCode>)
    ensures
        !is_admin(id@, match password {
            Some(p) => Some(p@),
            None => None,
        }) <==> request == Err::<String, StatusCode>(StatusCode::Unauthorized),
        is_admin(id@, match password {
            Some(p) => Some(p@),
            None => None,
        }) ==> request is Ok,
        request matches Ok(key) ==> key@ == percent_encoded(encode_utf8(title@)) && url_decoded(key@)
            == Some(title@),
{
    if !authorize(id, password) {
        return Err(StatusCode::Unauthorized);
    }
    Ok(article_key(title))
}

/// `DELETE /blog/{title}`, after the database: done, or no content where no
/// article had that title.
pub fn deleted_status(deleted: bool) -> (status: StatusCode)
    ensures
        status == (if deleted { StatusCode::Success } else { StatusCode::NoContent }),
{
    if deleted {
        StatusCode::Success
    } else {
        StatusCode::NoContent
    }
}

/// An article is shown as it was created: where its stored title decodes to
/// a title and its stored body to a text (as `create_article` makes them: the
/// key decodes to the title, the stored body to the text), the page that
/// `get_article` answers with has that title and that text rendered from
/// Markdown, and there is a page unless syntect fails on a code block.
pub proof fn law_article_shows_what_was_created(
    addr: Seq<char>,
    assets: Assets,
    item: Item,
    title: Seq<char>,
    body: Seq<char>,
)
    requires
        url_decoded(item.title@) == Some(title),
        crate::codec::stored_body_text(item.body@) == Some(body),
    ensures
        article_display(addr, assets, item) == (match rendered_markdown(body) {
            Some(body_html) => Some(article_page_html(addr, assets, item, title, body_html)),
            None => None,
        }),
        rendered_markdown(body) is Some ==> article_display(addr, assets, item) is Some,
{
}

} // verus!

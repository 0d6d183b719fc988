//! The HTML pages: the list of articles, one article, the login form and the
//! admin panel. Every value spliced into a page is escaped; stylesheets go in
//! as they are.

use vstd::prelude::*;
use vstd::utf8::encode_utf8;
use crate::article::{Item, ListItem};
use crate::codec::{
    decode_body, escape_html, html_escaped, percent_encoded, stored_body_text, url_decode,
    url_decoded, url_encode,
};
use crate::markdown::{code_blocks, rendered_markdown};
use crate::text::{decimal, decimal_string};

verus! {

/// The files that the pages embed: the site icon and one stylesheet per page.
pub struct Assets {
    pub favicon_svg: String,
    pub articles_css: String,
    pub article_css: String,
    pub login_css: String,
    pub admin_css: String,
}

/// `<style>` with a stylesheet, not escaped.
pub open spec fn style_html(css: Seq<char>) -> Seq<char> {
    "<style>"@ + css + "</style>"@
}

/// The icon link: the SVG as a percent-encoded data URL.
pub open spec fn icon_html(favicon_svg: Seq<char>) -> Seq<char> {
    "<link rel=\"icon\" href=\""@ + html_escaped(
        "data:image/svg+xml,"@ + percent_encoded(encode_utf8(favicon_svg)),
    ) + "\"></link>"@
}

/// The link to an article in the lists: `{added}  •  {title}` and a newline.
pub open spec fn entry_link_html(addr: Seq<char>, item: ListItem) -> Seq<char> {
    "<a class=\"article\" href=\""@ + html_escaped(addr + "/blog/"@ + item.title@) + "\">"@
        + html_escaped(item.added@ + "  •  "@ + item.title@ + "\n"@) + "</a>"@
}

/// The links of the article list.
pub open spec fn entries_html(addr: Seq<char>, items: Seq<ListItem>) -> Seq<char>
    decreases items.len(),
{
    if items.len() == 0 {
        Seq::empty()
    } else {
        entries_html(addr, items.drop_last()) + entry_link_html(addr, items.last())
    }
}

/// The entries of the admin panel: an edit button beside each link.
pub open spec fn admin_entries_html(addr: Seq<char>, items: Seq<ListItem>) -> Seq<char>
    decreases items.len(),
{
    if items.len() == 0 {
        Seq::empty()
    } else {
        admin_entries_html(addr, items.drop_last()) + "<div class=\"list\"><button class=\"edit\">edit</button>"@
            + entry_link_html(addr, items.last()) + "</div>"@
    }
}

/// The page that lists the articles.
pub open spec fn articles_page(addr: Seq<char>, assets: Assets, items: Seq<ListItem>) -> Seq<char> {
    style_html(assets.articles_css@) + "<title>160R blog</title>"@ + icon_html(
        assets.favicon_svg@,
    ) + "<body><h1>Welcome to 160R's blog!</h1><h2>Software</h2>"@
        + "<a class=\"software\" href=\"https://github.com/I60R/page\">page</a>"@
        + "<a class=\"software\" href=\"https://github.com/I60R/javelin\">javelin</a>"@
        + "<h2>Articles</h2><main>"@ + entries_html(addr, items) + "</main></body>"@
}

/// The footer link to the next article, or a dot on the last one.
pub open spec fn next_link_html(addr: Seq<char>, item: Item) -> Seq<char> {
    if !item.is_last {
        "<a class=\"arrow_backward\" href=\""@ + html_escaped(
            addr + "/blog/next/"@ + decimal(item.id as nat),
        ) + "\"></a>"@
    } else {
        "<a>⏺</a>"@
    }
}

/// The footer link to the previous article, or a dot on the first one.
pub open spec fn prev_link_html(addr: Seq<char>, item: Item) -> Seq<char> {
    if !item.is_first {
        "<a class=\"arrow_forward\" href=\""@ + html_escaped(
            addr + "/blog/prev/"@ + decimal(item.id as nat),
        ) + "\"></a>"@
    } else {
        "<a>⏺</a>"@
    }
}

/// The page of one article, given its decoded title and its body as HTML.
pub open spec fn article_page_html(
    addr: Seq<char>,
    assets: Assets,
    item: Item,
    title: Seq<char>,
    body_html: Seq<char>,
) -> Seq<char> {
    style_html(assets.article_css@) + "<title>"@ + html_escaped(title) + "</title>"@ + icon_html(
        assets.favicon_svg@,
    ) + "<body><main><h1>"@ + html_escaped(title) + "</h1>"@ + body_html + "</main><footer>"@
        + next_link_html(addr, item) + "<a href=\""@ + html_escaped(addr) + "\">⌂</a>"@
        + prev_link_html(addr, item) + "</footer></body>"@
}

/// The page that `display_article` gives for an item: the page of its
/// decoded title and of its decoded body rendered from Markdown; `None` where
/// the title does not decode to UTF-8, the body is not Base64 of UTF-8, or the
/// highlighting of a code block of the body fails.
pub open spec fn article_display(addr: Seq<char>, assets: Assets, item: Item) -> Option<Seq<char>> {
    match url_decoded(item.title@) {
        Some(title) => match stored_body_text(item.body@) {
            Some(body) => match rendered_markdown(body) {
                Some(body_html) => Some(article_page_html(addr, assets, item, title, body_html)),
                None => None,
            },
            None => None,
        },
        None => None,
    }
}

/// The login page.
pub open spec fn login_page(assets: Assets) -> Seq<char> {
    style_html(assets.login_css@) + "<title>Login</title>"@ + icon_html(assets.favicon_svg@)
        + "<body><div>username:<input></input>password:<input></input><button>Login</button></div></body>"@
}

/// The admin panel.
pub open spec fn admin_page(addr: Seq<char>, assets: Assets, items: Seq<ListItem>) -> Seq<char> {
    style_html(assets.admin_css@) + "<title>160R blog: admin</title>"@ + icon_html(
        assets.favicon_svg@,
    ) + "<body><h2>Articles</h2><main>"@ + admin_entries_html(addr, items)
        + "</main><div class=\"editor\"><div class=\"title\"><input class=\"name\"></input><button class=\"post\">post</button></div><input class=\"content\"></input></div></body>"@
}

fn style(css: &str) -> (html: String)
    ensures
        html@ == style_html(css@),
{
    let mut html = String::from_str("<style>");
    html.append(css);
    html.append("</style>");
    html
}

fn icon(favicon_svg: &str) -> (html: String)
    ensures
        html@ == icon_html(favicon_svg@),
{
    let mut url = String::from_str("data:image/svg+xml,");
    url.append(url_encode(favicon_svg).as_str());
    let mut html = String::from_str("<link rel=\"icon\" href=\"");
    html.append(escape_html(url.as_str()).as_str());
    html.append("\"></link>");
    html
}

fn entry_link(addr: &str, item: &ListItem) -> (html: String)
    ensures
        html@ == entry_link_html(addr@, *item),
{
    let mut href = String::from_str(addr);
    href.append("/blog/");
    href.append(item.title.as_str());
    let mut label = item.added.clone();
    label.append("  •  ");
    label.append(item.title.as_str());
    label.append("\n");
    let mut html = String::from_str("<a class=\"article\" href=\"");
    html.append(escape_html(href.as_str()).as_str());
    html.append("\">");
    html.append(escape_html(label.as_str()).as_str());
    html.append("</a>");
    assert(html@ =~= entry_link_html(addr@, *item));
    html
}

fn entries(addr: &str, items: &Vec<ListItem>, admin: bool) -> (html: String)
    ensures
        html@ == (if admin {
            admin_entries_html(addr@, items@)
        } else {
            entries_html(addr@, items@)
        }),
{
    let mut html = String::new();
    let mut k: usize = 0;
    while k < items.len()
        invariant
            k <= items.len(),
            html@ == (if admin {
                admin_entries_html(addr@, items@.take(k as int))
            } else {
                entries_html(addr@, items@.take(k as int))
            }),
        decreases items.len() - k,
    {
        proof {
            assert(items@.take(k + 1).drop_last() =~= items@.take(k as int));
        }
        if admin {
            html.append("<div class=\"list\"><button class=\"edit\">edit</button>");
            html.append(entry_link(addr, &items[k]).as_str());
            html.append("</div>");
        } else {
            html.append(entry_link(addr, &items[k]).as_str());
        }
        k = k + 1;
    }
    assert(items@.take(k as int) =~= items@);
    html
}

/// The page that lists the articles, linking each to `{addr}/blog/{title}`.
pub fn display_articles(addr: &str, assets: &Assets, articles: &Vec<ListItem>) -> (html: String)
    ensures
        html@ == articles_page(addr@, *assets, articles@),
{
    let mut html = style(assets.articles_css.as_str());
    html.append("<title>160R blog</title>");
    html.append(icon(assets.favicon_svg.as_str()).as_str());
    html.append("<body><h1>Welcome to 160R's blog!</h1><h2>Software</h2>");
    html.append("<a class=\"software\" href=\"https://github.com/I60R/page\">page</a>");
    html.append("<a class=\"software\" href=\"https://github.com/I60R/javelin\">javelin</a>");
    html.append("<h2>Articles</h2><main>");
    html.append(entries(addr, articles, false).as_str());
    html.append("</main></body>");
    assert(html@ =~= articles_page(addr@, *assets, articles@));
    html
}

fn nav_link(addr: &str, item: &Item, forward: bool) -> (html: String)
    ensures
        html@ == (if forward {
            prev_link_html(addr@, *item)
        } else {
            next_link_html(addr@, *item)
        }),
{
    let at_end = if forward { item.is_first } else { item.is_last };
    if at_end {
        String::from_str("<a>⏺</a>")
    } else {
        let mut href = String::from_str(addr);
        if forward {
            href.append("/blog/prev/");
        } else {
            href.append("/blog/next/");
        }
        href.append(decimal_string(item.id as u64).as_str());
        let mut html = if forward {
            String::from_str("<a class=\"arrow_forward\" href=\"")
        } else {
            String::from_str("<a class=\"arrow_backward\" href=\"")
        };
        html.append(escape_html(href.as_str()).as_str());
        html.append("\"></a>");
        assert(html@ =~= (if forward {
            prev_link_html(addr@, *item)
        } else {
            next_link_html(addr@, *item)
        }));
        html
    }
}

/// The page of one article, given its decoded title and its body as HTML.
pub fn article_page(addr: &str, assets: &Assets, item: &Item, title: &str, body_html: &str) -> (html: String)
    ensures
        html@ == article_page_html(addr@, *assets, *item, title@, body_html@),
{
    let escaped_title = escape_html(title);
    let mut html = style(assets.article_css.as_str());
    html.append("<title>");
    html.append(escaped_title.as_str());
    html.append("</title>");
    html.append(icon(assets.favicon_svg.as_str()).as_str());
    html.append("<body><main><h1>");
    html.append(escaped_title.as_str());
    html.append("</h1>");
    html.append(body_html);
    html.append("</main><footer>");
    html.append(nav_link(addr, item, false).as_str());
    html.append("<a href=\"");
    html.append(escape_html(addr).as_str());
    html.append("\">⌂</a>");
    html.append(nav_link(addr, item, true).as_str());
    html.append("</footer></body>");
    assert(html@ =~= article_page_html(addr@, *assets, *item, title@, body_html@));
    html
}

/// The page of one article: its title decoded, its body decoded and rendered
/// from Markdown. The title must decode to UTF-8 and the body must be Base64
/// of UTF-8 (the server fails otherwise). `None` where syntect fails on a
/// code block of the body; the server fails then too.
pub fn display_article(addr: &str, assets: &Assets, item: &Item) -> (html: Option<String>)
    requires
        url_decoded(item.title@) is Some,
        stored_body_text(item.body@) is Some,
    ensures
        (match html {
            Some(h) => article_display(addr@, *assets, *item) == Some(h@),
            None => article_display(addr@, *assets, *item) is None,
        }),
{
    let title = match url_decode(item.title.as_str()) {
        Some(title) => title,
        None => return None,
    };
    let body = match decode_body(item.body.as_str()) {
        Some(body) => body,
        None => return None,
    };
    let body_html = match code_blocks(body.as_str()) {
        Some(body_html) => body_html,
        None => return None,
    };
    let page = article_page(addr, assets, item, title.as_str(), body_html.as_str());
    Some(page)
}

/// The login page.
pub fn admin_login(assets: &Assets) -> (html: String)
    ensures
        html@ == login_page(*assets),
{
    let mut html = style(assets.login_css.as_str());
    html.append("<title>Login</title>");
    html.append(icon(assets.favicon_svg.as_str()).as_str());
    html.append(
        "<body><div>username:<input></input>password:<input></input><button>Login</button></div></body>",
    );
    assert(html@ =~= login_page(*assets));
    html
}

/// The admin panel: the articles, each with an edit button, and the editor.
pub fn admin_panel(addr: &str, assets: &Assets, articles: &Vec<ListItem>) -> (html: String)
    ensures
        html@ == admin_page(addr@, *assets, articles@),
{
    let mut html = style(assets.admin_css.as_str());
    html.append("<title>160R blog: admin</title>");
    html.append(icon(assets.favicon_svg.as_str()).as_str());
    html.append("<body><h2>Articles</h2><main>");
    html.append(entries(addr, articles, true).as_str());
    html.append(
        "</main><div class=\"editor\"><div class=\"title\"><input class=\"name\"></input><button class=\"post\">post</button></div><input class=\"content\"></input></div></body>",
    );
    assert(html@ =~= admin_page(addr@, *assets, articles@));
    html
}

/// The list of articles holds one link per article, in order: the links of
/// two lists one after the other are the links of the first list followed by
/// those of the second.
pub proof fn law_entries_concatenate(addr: Seq<char>, a: Seq<ListItem>, b: Seq<ListItem>)
    ensures
        entries_html(addr, a + b) == entries_html(addr, a) + entries_html(addr, b),
    decreases b.len(),
{
    if b.len() == 0 {
        assert(a + b =~= a);
        assert(entries_html(addr, b) =~= Seq::<char>::empty());
        assert(entries_html(addr, a) + entries_html(addr, b) =~= entries_html(addr, a));
    } else {
        assert((a + b).drop_last() =~= a + b.drop_last());
        assert((a + b).last() == b.last());
        law_entries_concatenate(addr, a, b.drop_last());
        assert(entries_html(addr, a + b) =~= entries_html(addr, a) + entries_html(addr, b));
    }
}

/// The list of one article is that article's link.
pub proof fn law_entries_single(addr: Seq<char>, item: ListItem)
    ensures
        entries_html(addr, seq![item]) == entry_link_html(addr, item),
{
    assert(seq![item].drop_last() =~= Seq::<ListItem>::empty());
    assert(entries_html(addr, Seq::<ListItem>::empty()) + entry_link_html(addr, item) =~= entry_link_html(addr, item));
}

/// The admin panel holds one entry per article, in order: the entries of two
/// lists one after the other are those of the first followed by those of the
/// second.
pub proof fn law_admin_entries_concatenate(addr: Seq<char>, a: Seq<ListItem>, b: Seq<ListItem>)
    ensures
        admin_entries_html(addr, a + b) == admin_entries_html(addr, a) + admin_entries_html(addr, b),
    decreases b.len(),
{
    if b.len() == 0 {
        assert(a + b =~= a);
        assert(admin_entries_html(addr, b) =~= Seq::<char>::empty());
        assert(admin_entries_html(addr, a) + admin_entries_html(addr, b) =~= admin_entries_html(addr, a));
    } else {
        assert((a + b).drop_last() =~= a + b.drop_last());
        assert((a + b).last() == b.last());
        law_admin_entries_concatenate(addr, a, b.drop_last());
        assert(admin_entries_html(addr, a + b) =~= admin_entries_html(addr, a) + admin_entries_html(addr, b));
    }
}

/// The admin entry of one article is its edit button and its link.
pub proof fn law_admin_entries_single(addr: Seq<char>, item: ListItem)
    ensures
        admin_entries_html(addr, seq![item]) == "<div class=\"list\"><button class=\"edit\">edit</button>"@
            + entry_link_html(addr, item) + "</div>"@,
{
    assert(seq![item].drop_last() =~= Seq::<ListItem>::empty());
    assert(admin_entries_html(addr, Seq::<ListItem>::empty()) + "<div class=\"list\"><button class=\"edit\">edit</button>"@
        + entry_link_html(addr, item) + "</div>"@ =~= "<div class=\"list\"><button class=\"edit\">edit</button>"@
        + entry_link_html(addr, item) + "</div>"@);
}

/// The footer's slot for the next article depends on whether the article is
/// the last one and on nothing else of its place: it is the dot exactly on the
/// last article, and otherwise a link to `{addr}/blog/next/{id}`.
pub proof fn law_next_link_follows_is_last(addr: Seq<char>, item: Item, other: Item)
    requires
        other.id == item.id,
        other.is_last == item.is_last,
    ensures
        next_link_html(addr, item) == next_link_html(addr, other),
        next_link_html(addr, item) == "<a>⏺</a>"@ <==> item.is_last,
        !item.is_last ==> next_link_html(addr, item) == "<a class=\"arrow_backward\" href=\""@
            + html_escaped(addr + "/blog/next/"@ + decimal(item.id as nat)) + "\"></a>"@,
{
    reveal_strlit("<a>⏺</a>");
    reveal_strlit("<a class=\"arrow_backward\" href=\"");
    if !item.is_last {
        let start = "<a class=\"arrow_backward\" href=\""@;
        let rest = html_escaped(addr + "/blog/next/"@ + decimal(item.id as nat)) + "\"></a>"@;
        let link = next_link_html(addr, item);
        assert(link =~= start + rest);
        assert(start[2] == ' ') by {
            broadcast use vstd::string::group_string_axioms;
        }
        assert(link[2] == start[2]);
        assert("<a>⏺</a>"@[2] == '>') by {
            broadcast use vstd::string::group_string_axioms;
        }
    }
}

/// The footer's slot for the previous article depends on whether the article
/// is the first one and on nothing else of its place: it is the dot exactly on
/// the first article, and otherwise a link to `{addr}/blog/prev/{id}`.
pub proof fn law_prev_link_follows_is_first(addr: Seq<char>, item: Item, other: Item)
    requires
        other.id == item.id,
        other.is_first == item.is_first,
    ensures
        prev_link_html(addr, item) == prev_link_html(addr, other),
        prev_link_html(addr, item) == "<a>⏺</a>"@ <==> item.is_first,
        !item.is_first ==> prev_link_html(addr, item) == "<a class=\"arrow_forward\" href=\""@
            + html_escaped(addr + "/blog/prev/"@ + decimal(item.id as nat)) + "\"></a>"@,
{
    reveal_strlit("<a>⏺</a>");
    reveal_strlit("<a class=\"arrow_forward\" href=\"");
    if !item.is_first {
        let start = "<a class=\"arrow_forward\" href=\""@;
        let rest = html_escaped(addr + "/blog/prev/"@ + decimal(item.id as nat)) + "\"></a>"@;
        let link = prev_link_html(addr, item);
        assert(link =~= start + rest);
        assert(start[2] == ' ') by {
            broadcast use vstd::string::group_string_axioms;
        }
        assert(link[2] == start[2]);
        assert("<a>⏺</a>"@[2] == '>') by {
            broadcast use vstd::string::group_string_axioms;
        }
    }
}

} // verus!

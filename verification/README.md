# blog

A small blog server: a list of articles, one page per article (Markdown with
Rust code blocks highlighted), and an admin login to create and delete
articles over HTTP basic auth. Articles live in MySQL; titles are stored
percent-encoded and bodies Base64-encoded.

Layout:

- `src/` — the verified library (Verus):
  - `text` — decimal numbers;
  - `codec` — HTML escaping (maud), percent-encoding (urlencoding), Base64
    (base64) and UTF-8, with the round trips that titles and bodies rely on;
  - `markdown` — Markdown rendering: code blocks gathered and highlighted
    (pulldown-cmark, syntect);
  - `view` — the HTML pages;
  - `article` — the article types;
  - `repository` — the caches in front of the database (moka);
  - `handlers` — what each request is answered with, and who may write;
  - `database` — what the database layer computes around its queries;
  - `routes` — where addresses with a trailing slash are redirected.
- `app/` — the server: axum routes and handlers, the sqlx queries, logging,
  configuration (`BLOG_ADDR`, `DATABASE_URL`) and the asset files
  (`assets/favicon.svg`, `css/*.css`).
- `tests/` — tests of the library.

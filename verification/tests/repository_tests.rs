use blog::article::{Item, ListItem};
use blog::repository::ArticlesRepository;

fn item(id: u32, title: &str) -> Item {
    Item { id, title: title.to_string(), body: "Ym9keQ==".to_string(), is_last: true, is_first: true }
}

fn same(a: &Item, b: &Item) -> bool {
    a.id == b.id && a.title == b.title && a.body == b.body && a.is_last == b.is_last && a.is_first == b.is_first
}

#[test]
fn new_repository_is_empty() {
    let repo = ArticlesRepository::new();
    assert!(repo.fetch_articles().is_none());
    assert!(repo.fetch_article("a").is_none());
}

#[test]
fn stored_article_is_read_back() {
    let mut repo = ArticlesRepository::new();
    let found = repo.store_article("a", item(1, "a")).unwrap();
    assert!(same(&found, &item(1, "a")));
    let again = repo.fetch_article("a").unwrap();
    assert!(same(&again, &item(1, "a")));
    assert!(repo.fetch_article("b").is_none());
}

#[test]
fn store_replaces_previous_article() {
    let mut repo = ArticlesRepository::new();
    repo.store_article("a", item(1, "a"));
    repo.store_article("a", item(2, "a"));
    assert_eq!(repo.fetch_article("a").unwrap().id, 2);
}

#[test]
fn forget_drops_article_and_list() {
    let mut repo = ArticlesRepository::new();
    repo.store_article("a", item(1, "a"));
    repo.store_article("b", item(2, "b"));
    repo.store_articles(vec![ListItem { id: 1, added: "2023-01-01".to_string(), title: "a".to_string() }]);
    repo.forget_article("a");
    assert!(repo.fetch_article("a").is_none());
    assert_eq!(repo.fetch_article("b").unwrap().id, 2);
    assert!(repo.fetch_articles().is_none());
}

#[test]
fn stored_list_is_kept() {
    let mut repo = ArticlesRepository::new();
    let list = repo.store_articles(vec![ListItem { id: 4, added: "2023-01-01".to_string(), title: "t".to_string() }]);
    assert_eq!(list.len(), 1);
    let kept = repo.fetch_articles().unwrap();
    assert_eq!(kept[0].id, 4);
    assert_eq!(kept[0].title, "t");
}

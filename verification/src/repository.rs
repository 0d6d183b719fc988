//! The repository in front of the database: it keeps the list of articles
//! until something changes, and single articles in a cache with a bounded
//! size and a time to live.
//!
//! The database itself is reached by the caller: each operation here is the
//! part of a request that decides, before or after the database call.

use vstd::prelude::*;
use std::sync::Arc;
use moka::sync::{Cache, CacheBuilder};
use crate::article::{Item, ListItem};

verus! {

#[verifier::external_type_specification]
#[verifier::external_body]
#[verifier::reject_recursive_types(K)]
#[verifier::reject_recursive_types(V)]
#[verifier::reject_recursive_types(S)]
pub struct ExCache<K, V, S>(moka::sync::Cache<K, V, S>);

#[verifier::external_type_specification]
#[verifier::external_body]
#[verifier::reject_recursive_types(K)]
#[verifier::reject_recursive_types(V)]
#[verifier::reject_recursive_types(C)]
pub struct ExCacheBuilder<K, V, C>(moka::sync::CacheBuilder<K, V, C>);

/// How many articles the cache holds at most.
pub const ARTICLE_CACHE_CAPACITY: u64 = 100;

/// How long, in seconds, an article stays in the cache after it was put there.
pub const ARTICLE_CACHE_TTL_SECS: u64 = 300;

/// The longest time to live that moka's builder accepts: 1000 years.
pub const MAX_TTL_SECS: u64 = 31_536_000_000;

/// The entries that a `get` on the cache can answer with: for each title, the
/// article last inserted under it and not invalidated since. An entry may be
/// gone before that (expired or evicted); a `get` then misses.
pub uninterp spec fn cache_entries(cache: Cache<String, Arc<Item>>) -> Map<Seq<char>, Item>;

/// The limits a cache builder holds: the maximum number of entries and the
/// time to live in seconds, where they were set.
pub uninterp spec fn builder_limits(builder: CacheBuilder<String, Arc<Item>, Cache<String, Arc<Item>>>) -> (Option<u64>, Option<u64>);

/// The limits a cache was built with: the maximum number of entries and the
/// time to live in seconds, where they were set.
pub uninterp spec fn cache_limits(cache: Cache<String, Arc<Item>>) -> (Option<u64>, Option<u64>);

/// Starts a cache builder for a given capacity (`CacheBuilder::new`).
/// Claimed: it holds that capacity and no time to live.
#[verifier::external_body]
fn cache_builder(max_capacity: u64) -> (builder: CacheBuilder<String, Arc<Item>, Cache<String, Arc<Item>>>)
    ensures
        builder_limits(builder) == (Some(max_capacity), None::<u64>),
{
    CacheBuilder::new(max_capacity)
}

/// Sets the time to live of a builder, in seconds (`CacheBuilder::time_to_live`).
/// Claimed: the capacity stays, the time to live is the one given.
#[verifier::external_body]
fn with_time_to_live(
    builder: CacheBuilder<String, Arc<Item>, Cache<String, Arc<Item>>>,
    secs: u64,
) -> (configured: CacheBuilder<String, Arc<Item>, Cache<String, Arc<Item>>>)
    ensures
        builder_limits(configured) == (builder_limits(builder).0, Some(secs)),
{
    builder.time_to_live(std::time::Duration::from_secs(secs))
}

/// A cache that holds nothing.
pub open spec fn no_entries() -> Map<Seq<char>, Item> {
    Map::empty()
}

/// Builds the cache (`CacheBuilder::build`). It panics on a time to live over
/// 1000 years: the `requires` leaves that out.
/// Claimed: a new cache holds nothing and has the builder's limits.
#[verifier::external_body]
fn build_cache(builder: CacheBuilder<String, Arc<Item>, Cache<String, Arc<Item>>>) -> (built: Cache<String, Arc<Item>>)
    requires
        builder_limits(builder).1 matches Some(ttl) ==> ttl <= MAX_TTL_SECS,
    ensures
        cache_entries(built) == no_entries(),
        cache_limits(built) == builder_limits(builder),
{
    builder.build()
}

/// Looks an article up by title (`Cache::get`).
/// Claimed: a hit is the article last inserted under that title and not
/// invalidated since. Whether an entry is still there (time to live, eviction)
/// is not stated.
#[verifier::external_body]
fn cache_get(cache: &Cache<String, Arc<Item>>, title: &str) -> (found: Option<Arc<Item>>)
    ensures
        found matches Some(item) ==> cache_entries(*cache).contains_key(title@) && *item
            == cache_entries(*cache)[title@],
{
    cache.get(title)
}

/// Puts an article in the cache under a title (`Cache::insert`), replacing
/// what was there.
#[verifier::external_body]
fn cache_insert(cache: &mut Cache<String, Arc<Item>>, title: String, item: Arc<Item>)
    ensures
        cache_entries(*final(cache)) == cache_entries(*old(cache)).insert(title@, *item),
        cache_limits(*final(cache)) == cache_limits(*old(cache)),
{
    cache.insert(title, item)
}

/// Drops the article under a title from the cache (`Cache::invalidate`).
#[verifier::external_body]
fn cache_invalidate(cache: &mut Cache<String, Arc<Item>>, title: &str)
    ensures
        cache_entries(*final(cache)) == cache_entries(*old(cache)).remove(title@),
        cache_limits(*final(cache)) == cache_limits(*old(cache)),
{
    cache.invalidate(title)
}

/// Another handle on shared data (`Arc::clone`).
#[verifier::external_body]
fn share<T>(shared: &Arc<T>) -> (other: Arc<T>)
    ensures
        *other == **shared,
{
    Arc::clone(shared)
}

/// The caches in front of the articles table.
pub struct ArticlesRepository {
    articles_cache: Option<Arc<Vec<ListItem>>>,
    article_cache: Cache<String, Arc<Item>>,
}

impl ArticlesRepository {
    /// The list of articles kept, if any.
    pub closed spec fn listing(&self) -> Option<Seq<ListItem>> {
        match self.articles_cache {
            Some(list) => Some((*list)@),
            None => None,
        }
    }

    /// What the cache of single articles can answer with, by title.
    pub closed spec fn stored(&self) -> Map<Seq<char>, Item> {
        cache_entries(self.article_cache)
    }

    /// The limits of the cache of single articles: its capacity and the time
    /// to live of an entry, in seconds.
    pub closed spec fn limits(&self) -> (Option<u64>, Option<u64>) {
        cache_limits(self.article_cache)
    }

    /// An empty repository: no list kept, an empty cache of at most
    /// `ARTICLE_CACHE_CAPACITY` articles that each live
    /// `ARTICLE_CACHE_TTL_SECS` seconds.
    pub fn new() -> (repo: ArticlesRepository)
        ensures
            repo.listing() is None,
            repo.stored() == Map::<Seq<char>, Item>::empty(),
            repo.limits() == (Some(ARTICLE_CACHE_CAPACITY), Some(ARTICLE_CACHE_TTL_SECS)),
    {
        let builder = cache_builder(ARTICLE_CACHE_CAPACITY);
        let builder = with_time_to_live(builder, ARTICLE_CACHE_TTL_SECS);
        ArticlesRepository { articles_cache: None, article_cache: build_cache(builder) }
    }

    /// The list of articles, if one is kept; otherwise the caller fetches it
    /// and hands it to `store_articles`.
    pub fn fetch_articles(&self) -> (list: Option<Arc<Vec<ListItem>>>)
        ensures
            match list {
                Some(l) => self.listing() == Some((*l)@),
                None => self.listing() is None,
            },
    {
        match &self.articles_cache {
            Some(list) => Some(share(list)),
            None => None,
        }
    }

    /// Keeps a list fetched from the database and gives it back.
    pub fn store_articles(&mut self, fetched: Vec<ListItem>) -> (list: Arc<Vec<ListItem>>)
        ensures
            (*list)@ == fetched@,
            final(self).listing() == Some(fetched@),
            final(self).stored() == old(self).stored(),
            final(self).limits() == old(self).limits(),
    {
        let list = Arc::new(fetched);
        self.articles_cache = Some(share(&list));
        list
    }

    /// The article under a title, if the cache has it; otherwise the caller
    /// fetches it and hands it to `store_article`.
    pub fn fetch_article(&self, title: &str) -> (found: Option<Arc<Item>>)
        ensures
            found matches Some(item) ==> self.stored().contains_key(title@) && *item
                == self.stored()[title@],
    {
        cache_get(&self.article_cache, title)
    }

    /// Keeps an article fetched from the database under its title and reads
    /// it back from the cache. The article just fetched is always given back:
    /// where the read-back misses (only if the entry expired between the two
    /// calls), it is the fetched article itself.
    pub fn store_article(&mut self, title: &str, fetched: Item) -> (found: Option<Arc<Item>>)
        ensures
            final(self).stored() == old(self).stored().insert(title@, fetched),
            final(self).listing() == old(self).listing(),
            final(self).limits() == old(self).limits(),
            found matches Some(item) && *item == fetched,
    {
        let kept = Arc::new(fetched);
        cache_insert(&mut self.article_cache, String::from_str(title), share(&kept));
        match cache_get(&self.article_cache, title) {
            Some(found) => Some(found),
            None => Some(kept),
        }
    }

    /// Forgets what a change to the article under a title makes stale: the
    /// list, and that article. The caller then makes the change in the
    /// database.
    pub fn forget_article(&mut self, title: &str)
        ensures
            final(self).listing() is None,
            final(self).stored() == old(self).stored().remove(title@),
            final(self).limits() == old(self).limits(),
    {
        self.articles_cache = None;
        cache_invalidate(&mut self.article_cache, title);
    }
}

/// A read gives back what was written: once `store_article` kept an article
/// under a title, a `fetch_article` of that title finds that article or
/// misses; it never finds another.
pub proof fn law_fetch_after_store(
    before: ArticlesRepository,
    after: ArticlesRepository,
    title: Seq<char>,
    item: Item,
    found: Option<Item>,
)
    requires
        after.stored() == before.stored().insert(title, item),
        found matches Some(f) ==> after.stored().contains_key(title) && f == after.stored()[title],
    ensures
        found matches Some(f) ==> f == item,
{
}

/// A change is never hidden by the cache: once `forget_article` ran for a
/// title, a `fetch_article` of that title misses, and the list is fetched
/// anew.
pub proof fn law_fetch_after_forget(
    before: ArticlesRepository,
    after: ArticlesRepository,
    title: Seq<char>,
    found: Option<Item>,
)
    requires
        after.stored() == before.stored().remove(title),
        found matches Some(f) ==> after.stored().contains_key(title) && f == after.stored()[title],
    ensures
        found is None,
{
}

/// Keeping or forgetting one title leaves what the cache can answer for
/// every other title as it was.
pub proof fn law_other_titles_untouched(
    before: ArticlesRepository,
    after: ArticlesRepository,
    title: Seq<char>,
    item: Item,
    other: Seq<char>,
)
    requires
        other != title,
        after.stored() == before.stored().insert(title, item) || after.stored()
            == before.stored().remove(title),
    ensures
        after.stored().contains_key(other) == before.stored().contains_key(other),
        after.stored().contains_key(other) ==> after.stored()[other] == before.stored()[other],
{
}

/// The list that `store_articles` kept is what `fetch_articles` gives until
/// `forget_article` runs.
pub proof fn law_list_after_store(after: ArticlesRepository, fetched: Seq<ListItem>, got: Option<Seq<ListItem>>)
    requires
        after.listing() == Some(fetched),
        match got {
            Some(l) => after.listing() == Some(l),
            None => after.listing() is None,
        },
    ensures
        got == Some(fetched),
{
}

} // verus!

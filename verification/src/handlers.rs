//! The decisions of the endpoints. Each step takes what the service knows
//! and what the last outside call answered, and says what to do next; the
//! caller performs that (reading or writing the cache, querying the
//! database) and reports back.
use vstd::prelude::*;
use vstd::string::*;
use crate::cache::{cache_key_text, search_cache_key, text_or, text_or_default};
use crate::catalog::{
    fallback_products, fallback_results, lemma_fallback_results_meet_the_search, sort_key, sort_order_of,
    SortOrder,
};
use crate::models::{
    hit_views, opt_text, page_number, DiscoveryResponse, IngestUpsertRequest, IngestUpsertResponse,
    ProductHit, ProductHitView, SearchMeta, SearchMetaView, SearchRequest, SearchResponse,
    SearchResponseView,
};
use crate::text::{text_equals, texts};

verus! {

/// What the service answers on its health endpoint.
#[derive(Clone, Debug, PartialEq)]
pub struct HealthReport {
    pub status: String,
    pub postgres: bool,
    pub redis: bool,
}

/// The health of the service: always `ok`, with whether a database and a
/// cache are configured.
pub fn health_report(has_database: bool, has_cache: bool) -> (h: HealthReport)
    ensures
        h.status@ == "ok"@,
        h.postgres == has_database,
        h.redis == has_cache,
{
    HealthReport { status: String::from_str("ok"), postgres: has_database, redis: has_cache }
}

/// The capabilities that the manifest announces.
pub open spec fn manifest_capabilities() -> Seq<Seq<char>> {
    seq!["search"@, "inventory-check"@, "price-history"@]
}

/// The discovery manifest for agents.
pub fn discovery_manifest() -> (d: DiscoveryResponse)
    ensures
        d.id@ == "shopwire-v1"@,
        d.name@ == "BlueShoeMart"@,
        d.version@ == "1.0"@,
        d.description@
            == "Agent-first shoe catalog. Walmart-style inventory, instant responses, redirect to Walmart for checkout."@,
        texts(d.capabilities@) == manifest_capabilities(),
        d.auth@ == "jwt-optional"@,
        d.rate_limit@ == "200/min per IP"@,
        d.schema_url@ == "/v1/schema"@,
        d.docs@ == "https://docs.blueshoemart.com/agent"@,
{
    let mut capabilities: Vec<String> = Vec::new();
    capabilities.push(String::from_str("search"));
    capabilities.push(String::from_str("inventory-check"));
    capabilities.push(String::from_str("price-history"));
    assert(texts(capabilities@) =~= manifest_capabilities());
    DiscoveryResponse {
        id: String::from_str("shopwire-v1"),
        name: String::from_str("BlueShoeMart"),
        version: String::from_str("1.0"),
        description: String::from_str(
            "Agent-first shoe catalog. Walmart-style inventory, instant responses, redirect to Walmart for checkout.",
        ),
        capabilities,
        auth: String::from_str("jwt-optional"),
        rate_limit: String::from_str("200/min per IP"),
        schema_url: String::from_str("/v1/schema"),
        docs: String::from_str("https://docs.blueshoemart.com/agent"),
    }
}

/// A search, with what the service has at hand to answer it.
#[derive(Clone, Debug, PartialEq)]
pub struct SearchSetup {
    pub request: SearchRequest,
    pub has_cache: bool,
    pub has_database: bool,
}

/// What reading the cache gave.
#[derive(Clone, Debug, PartialEq)]
pub enum CacheLookup {
    /// A stored answer.
    Hit(SearchResponse),
    /// Nothing under the key.
    Miss,
    /// The cache could not be read.
    Failed,
}

/// What the database query gave.
#[derive(Clone, Debug, PartialEq)]
pub enum DatabaseReply {
    Rows(Vec<ProductHit>),
    Failed,
}

/// The next thing a search does.
#[derive(Clone, Debug, PartialEq)]
pub enum SearchAction {
    /// Read the cache under this key.
    ReadCache(String),
    /// Run the search query against the database.
    QueryDatabase,
    /// Store this answer in the cache under this key, then give it.
    WriteCache(String, SearchResponse),
    /// Give this answer.
    Respond(SearchResponse),
}

/// The view of the next thing a search does.
pub enum SearchActionView {
    ReadCache(Seq<char>),
    QueryDatabase,
    WriteCache(Seq<char>, SearchResponseView),
    Respond(SearchResponseView),
}

impl View for SearchAction {
    type V = SearchActionView;

    open spec fn view(&self) -> SearchActionView {
        match self {
            SearchAction::ReadCache(k) => SearchActionView::ReadCache(k@),
            SearchAction::QueryDatabase => SearchActionView::QueryDatabase,
            SearchAction::WriteCache(k, r) => SearchActionView::WriteCache(k@, r@),
            SearchAction::Respond(r) => SearchActionView::Respond(r@),
        }
    }
}

/// The hint that goes with every freshly built answer.
pub open spec fn search_suggestions() -> Seq<Seq<char>> {
    seq!["Try 'navy' if no royal-blue"@]
}

/// A freshly built answer: the results, their count (as a 32-bit number),
/// the page, the time taken, where the results came from, an accuracy of
/// 0.98, and the hint.
pub open spec fn fresh_response(results: Seq<ProductHitView>, page: u32, latency_ms: u32, source: Seq<char>) -> SearchResponseView {
    SearchResponseView {
        results: results,
        meta: SearchMetaView {
            total: results.len() as u32,
            page: page,
            latency_ms: latency_ms,
            source: source,
            accuracy: 98,
        },
        suggestions: search_suggestions(),
    }
}

/// What to do with a freshly built answer: store it first when there is a
/// cache, else give it.
pub open spec fn deliver(setup: SearchSetup, response: SearchResponseView) -> SearchActionView {
    if setup.has_cache {
        SearchActionView::WriteCache(cache_key_text(setup.request), response)
    } else {
        SearchActionView::Respond(response)
    }
}

/// The answer of the built-in catalog.
pub open spec fn fallback_response(setup: SearchSetup, latency_ms: u32) -> SearchResponseView {
    fresh_response(fallback_results(setup.request), setup.request.page_number(), latency_ms, "fallback"@)
}

/// The search without the cache: ask the database when there is one, else
/// answer from the built-in catalog.
pub open spec fn uncached_search(setup: SearchSetup, latency_ms: u32) -> SearchActionView {
    if setup.has_database {
        SearchActionView::QueryDatabase
    } else {
        deliver(setup, fallback_response(setup, latency_ms))
    }
}

/// A cached answer as given again: its time taken is now, its source the
/// cache, its page the one asked for; all else as stored.
pub open spec fn from_cache(cached: SearchResponseView, page: u32, latency_ms: u32) -> SearchResponseView {
    SearchResponseView {
        meta: SearchMetaView { latency_ms: latency_ms, source: "cache"@, page: page, ..cached.meta },
        ..cached
    }
}

fn suggestions() -> (v: Vec<String>)
    ensures
        texts(v@) == search_suggestions(),
{
    let mut v: Vec<String> = Vec::new();
    v.push(String::from_str("Try 'navy' if no royal-blue"));
    assert(texts(v@) =~= search_suggestions());
    v
}

fn build_response(results: Vec<ProductHit>, page: u32, latency_ms: u32, source: &str) -> (r: SearchResponse)
    ensures
        r@ == fresh_response(hit_views(results@), page, latency_ms, source@),
        r@.results == hit_views(results@),
        r@.meta.total == results@.len() as u32,
        r@.meta.page == page,
        r@.meta.latency_ms == latency_ms,
        r@.meta.source == source@,
{
    let total = results.len() as u32;
    let r = SearchResponse {
        results,
        meta: SearchMeta {
            total,
            page,
            latency_ms,
            source: String::from_str(source),
            accuracy: 98,
        },
        suggestions: suggestions(),
    };
    assert(r@.suggestions =~= search_suggestions());
    r
}

fn deliver_response(setup: &SearchSetup, response: SearchResponse) -> (a: SearchAction)
    ensures
        a@ == deliver(*setup, response@),
{
    if setup.has_cache {
        SearchAction::WriteCache(search_cache_key(&setup.request), response)
    } else {
        SearchAction::Respond(response)
    }
}

fn search_without_cache(setup: &SearchSetup, latency_ms: u32) -> (a: SearchAction)
    ensures
        a@ == uncached_search(*setup, latency_ms),
{
    if setup.has_database {
        SearchAction::QueryDatabase
    } else {
        let results = fallback_products(&setup.request);
        let response = build_response(results, page_number(&setup.request), latency_ms, "fallback");
        deliver_response(setup, response)
    }
}

/// The answer that an action gives or stores, if it carries one.
pub open spec fn carried_response(a: SearchActionView) -> Option<SearchResponseView> {
    match a {
        SearchActionView::WriteCache(_, r) => Some(r),
        SearchActionView::Respond(r) => Some(r),
        _ => None,
    }
}

/// The first step of a search: read the cache when there is one; else go
/// without it. `latency_ms` is the time taken so far.
pub fn begin_search(setup: &SearchSetup, latency_ms: u32) -> (a: SearchAction)
    ensures
        a@ == (if setup.has_cache {
            SearchActionView::ReadCache(cache_key_text(setup.request))
        } else {
            uncached_search(*setup, latency_ms)
        }),
        setup.has_cache ==> a@ == SearchActionView::ReadCache(cache_key_text(setup.request)),
        !setup.has_cache && setup.has_database ==> a@ is QueryDatabase,
        // With neither cache nor database, the built-in catalog answers at
        // once: its products for the search, in the order it gives them.
        !setup.has_cache && !setup.has_database ==> a@ is Respond && carried_response(a@) == Some(
            SearchResponseView {
                results: fallback_results(setup.request),
                meta: SearchMetaView {
                    total: fallback_results(setup.request).len() as u32,
                    page: setup.request.page_number(),
                    latency_ms: latency_ms,
                    source: "fallback"@,
                    accuracy: 98,
                },
                suggestions: search_suggestions(),
            },
        ),
{
    if setup.has_cache {
        SearchAction::ReadCache(search_cache_key(&setup.request))
    } else {
        search_without_cache(setup, latency_ms)
    }
}

/// A search that has a cache stores its fresh answer under the very key it
/// first reads, so the next equal search finds it there.
pub proof fn lemma_search_stores_where_it_reads(setup: SearchSetup, response: SearchResponseView)
    requires
        setup.has_cache,
    ensures
        deliver(setup, response) == SearchActionView::WriteCache(cache_key_text(setup.request), response),
{
}

/// A search for the cheapest first, answered by the built-in catalog,
/// gives its products by non-decreasing price; one for the largest discount
/// first, by non-increasing discount.
pub proof fn lemma_builtin_answer_follows_the_order(setup: SearchSetup, latency_ms: u32)
    requires
        !setup.has_database,
    ensures
        ({
            let results = carried_response(uncached_search(setup, latency_ms))->0.results;
            &&& carried_response(uncached_search(setup, latency_ms)) is Some
            &&& sort_order_of(setup.request.sort_text()) == SortOrder::PriceAsc ==> forall|i: int, j: int|
                0 <= i < j < results.len() ==> (#[trigger] results[i]).price <= (#[trigger] results[j]).price
            &&& sort_order_of(setup.request.sort_text()) == SortOrder::DiscountDesc ==> forall|i: int, j: int|
                0 <= i < j < results.len() ==> (#[trigger] results[i]).discount_pct >= (#[trigger] results[j]).discount_pct
        }),
{
    lemma_fallback_results_meet_the_search(setup.request);
    let results = fallback_results(setup.request);
    let order = sort_order_of(setup.request.sort_text());
    if order == SortOrder::PriceAsc || order == SortOrder::DiscountDesc {
        assert forall|i: int, j: int| 0 <= i < j < results.len() implies sort_key(order, #[trigger] results[i])
            <= sort_key(order, #[trigger] results[j]) by {}
    }
}

/// The step after reading the cache: a stored answer is given at once,
/// marked as coming from the cache and carrying the page asked for; a miss
/// or a failed read goes on without the cache.
pub fn after_cache_lookup(setup: &SearchSetup, lookup: CacheLookup, latency_ms: u32) -> (a: SearchAction)
    ensures
        a@ == (match lookup {
            CacheLookup::Hit(cached) => SearchActionView::Respond(
                from_cache(cached@, setup.request.page_number(), latency_ms),
            ),
            _ => uncached_search(*setup, latency_ms),
        }),
        // A stored answer is given at once and as stored, except that it is
        // marked as coming from the cache, with the page asked for and the
        // time taken now.
        forall|cached: SearchResponse|
            lookup == CacheLookup::Hit(cached) ==> {
                &&& a@ is Respond
                &&& carried_response(a@)->0.results == cached@.results
                &&& carried_response(a@)->0.suggestions == cached@.suggestions
                &&& carried_response(a@)->0.meta.total == cached.meta.total
                &&& carried_response(a@)->0.meta.accuracy == cached.meta.accuracy
                &&& carried_response(a@)->0.meta.source == "cache"@
                &&& carried_response(a@)->0.meta.page == setup.request.page_number()
                &&& carried_response(a@)->0.meta.latency_ms == latency_ms
            },
        // Without a stored answer, the database is asked when there is one.
        !(lookup is Hit) && setup.has_database ==> a@ is QueryDatabase,
        !(lookup is Hit) && !setup.has_database ==> carried_response(a@) is Some && carried_response(a@)->0.results
            == fallback_results(setup.request) && carried_response(a@)->0.meta.source == "fallback"@,
{
    match lookup {
        CacheLookup::Hit(cached) => {
            let mut cached = cached;
            cached.meta.latency_ms = latency_ms;
            cached.meta.source = String::from_str("cache");
            cached.meta.page = page_number(&setup.request);
            SearchAction::Respond(cached)
        },
        _ => search_without_cache(setup, latency_ms),
    }
}

/// The step after the database query: its rows are the results, from the
/// database; when the query failed, the built-in catalog answers instead.
pub fn after_database_reply(setup: &SearchSetup, reply: DatabaseReply, latency_ms: u32) -> (a: SearchAction)
    ensures
        a@ == (match reply {
            DatabaseReply::Rows(rows) => deliver(
                *setup,
                fresh_response(hit_views(rows@), setup.request.page_number(), latency_ms, "db"@),
            ),
            DatabaseReply::Failed => deliver(*setup, fallback_response(*setup, latency_ms)),
        }),
        // The database's rows are the results, all of them, in the order
        // the query gave them; the answer is stored first when there is a
        // cache.
        forall|rows: Vec<ProductHit>|
            reply == DatabaseReply::Rows(rows) ==> {
                &&& carried_response(a@) is Some
                &&& carried_response(a@)->0.results == hit_views(rows@)
                &&& carried_response(a@)->0.meta.total == rows@.len() as u32
                &&& carried_response(a@)->0.meta.source == "db"@
                &&& carried_response(a@)->0.meta.page == setup.request.page_number()
            },
        reply == DatabaseReply::Failed ==> carried_response(a@) is Some && carried_response(a@)->0.results
            == fallback_results(setup.request),
        setup.has_cache ==> a@ is WriteCache,
        !setup.has_cache ==> a@ is Respond,
{
    let page = page_number(&setup.request);
    let response = match reply {
        DatabaseReply::Rows(rows) => build_response(rows, page, latency_ms, "db"),
        DatabaseReply::Failed => build_response(fallback_products(&setup.request), page, latency_ms, "fallback"),
    };
    deliver_response(setup, response)
}

/// The answer given after trying to store it in the cache: when it was
/// stored and its results came from the database, it is marked as both;
/// otherwise it is given as it was.
pub fn after_cache_write(response: SearchResponse, stored: bool) -> (r: SearchResponse)
    ensures
        r@ == (if stored && response@.meta.source == "db"@ {
            SearchResponseView {
                meta: SearchMetaView { source: "db+cached"@, ..response@.meta },
                ..response@
            }
        } else {
            response@
        }),
        r@.results == response@.results,
        r@.suggestions == response@.suggestions,
        r@.meta.total == response.meta.total,
        r@.meta.page == response.meta.page,
        r@.meta.latency_ms == response.meta.latency_ms,
        r@.meta.accuracy == response.meta.accuracy,
        stored && response@.meta.source == "db"@ ==> r@.meta.source == "db+cached"@,
        !(stored && response@.meta.source == "db"@) ==> r@.meta.source == response@.meta.source,
{
    let mut response = response;
    if stored && text_equals(response.meta.source.as_str(), "db") {
        response.meta.source = String::from_str("db+cached");
    }
    response
}


/// The environment variable that holds the key ingestion expects.
pub const INGEST_KEY_VARIABLE: &'static str = "INTERNAL_API_KEY";

/// The request header that carries the caller's ingestion key.
pub const INGEST_KEY_HEADER: &'static str = "x-internal-key";

/// An ingestion, with the credentials involved and what the service has at
/// hand: the key the service expects (when one is configured) and the key
/// the caller supplied (when its header holds readable text).
#[derive(Clone, Debug, PartialEq)]
pub struct IngestSetup {
    pub expected_key: Option<String>,
    pub supplied_key: Option<String>,
    pub has_database: bool,
    pub has_cache: bool,
}

/// Why an ingestion is turned down.
#[derive(Clone, Copy, Debug, PartialEq, Eq)]
pub enum IngestRejection {
    Unauthorized,
    DatabaseUnavailable,
    EmptyProducts,
    UpsertFailed,
}

impl IngestRejection {
    /// The HTTP status of the rejection.
    pub open spec fn status(self) -> u16 {
        match self {
            IngestRejection::Unauthorized => 401,
            IngestRejection::DatabaseUnavailable => 503,
            IngestRejection::EmptyProducts => 400,
            IngestRejection::UpsertFailed => 500,
        }
    }

    /// The error text of the rejection.
    pub open spec fn message(self) -> Seq<char> {
        match self {
            IngestRejection::Unauthorized => "unauthorized"@,
            IngestRejection::DatabaseUnavailable => "database unavailable"@,
            IngestRejection::EmptyProducts => "products cannot be empty"@,
            IngestRejection::UpsertFailed => "failed to upsert products"@,
        }
    }

    /// The HTTP status of the rejection.
    pub fn status_code(&self) -> (c: u16)
        ensures
            c == self.status(),
    {
        match self {
            IngestRejection::Unauthorized => 401,
            IngestRejection::DatabaseUnavailable => 503,
            IngestRejection::EmptyProducts => 400,
            IngestRejection::UpsertFailed => 500,
        }
    }

    /// The error text of the rejection.
    pub fn error_text(&self) -> (t: &'static str)
        ensures
            t@ == self.message(),
    {
        match self {
            IngestRejection::Unauthorized => "unauthorized",
            IngestRejection::DatabaseUnavailable => "database unavailable",
            IngestRejection::EmptyProducts => "products cannot be empty",
            IngestRejection::UpsertFailed => "failed to upsert products",
        }
    }
}

/// The next thing an ingestion does.
#[derive(Clone, Debug, PartialEq)]
pub enum IngestAction {
    /// Turn the ingestion down.
    Reject(IngestRejection),
    /// Store the batch, recording the run under this source.
    Upsert(String),
    /// Remove every cached search answer.
    InvalidateCache { upserted: usize, failed: usize },
    /// Give this summary.
    Respond(IngestUpsertResponse),
}

/// The view of the summary of an ingestion.
pub struct IngestSummaryView {
    pub source: Seq<char>,
    pub received: usize,
    pub upserted: usize,
    pub failed: usize,
    pub invalidated_cache_keys: usize,
}

impl View for IngestUpsertResponse {
    type V = IngestSummaryView;

    open spec fn view(&self) -> IngestSummaryView {
        IngestSummaryView {
            source: self.source@,
            received: self.received,
            upserted: self.upserted,
            failed: self.failed,
            invalidated_cache_keys: self.invalidated_cache_keys,
        }
    }
}

/// The view of the next thing an ingestion does.
pub enum IngestActionView {
    Reject(IngestRejection),
    Upsert(Seq<char>),
    InvalidateCache { upserted: usize, failed: usize },
    Respond(IngestSummaryView),
}

impl View for IngestAction {
    type V = IngestActionView;

    open spec fn view(&self) -> IngestActionView {
        match self {
            IngestAction::Reject(r) => IngestActionView::Reject(*r),
            IngestAction::Upsert(s) => IngestActionView::Upsert(s@),
            IngestAction::InvalidateCache { upserted, failed } => IngestActionView::InvalidateCache {
                upserted: *upserted,
                failed: *failed,
            },
            IngestAction::Respond(r) => IngestActionView::Respond(r@),
        }
    }
}

/// Whether the caller may ingest: when a key that is not empty is
/// configured, the supplied key (empty when none) must equal it.
pub open spec fn is_authorized(setup: IngestSetup) -> bool {
    match setup.expected_key {
        Some(e) => e@.len() == 0 || text_or(opt_text(setup.supplied_key), Seq::empty()) == e@,
        None => true,
    }
}

/// The source an ingestion is recorded under; `manual-prototype` when the
/// request names none.
pub open spec fn ingest_source_text(request: IngestUpsertRequest) -> Seq<char> {
    text_or(opt_text(request.source), "manual-prototype"@)
}

/// Whether an ingestion asks to drop the cached answers (the default) and a
/// cache is at hand.
pub open spec fn invalidation_wanted(setup: IngestSetup, request: IngestUpsertRequest) -> bool {
    &&& match request.invalidate_cache {
        Some(b) => b,
        None => true,
    }
    &&& setup.has_cache
}

/// The summary of an ingestion.
pub open spec fn ingest_summary(request: IngestUpsertRequest, upserted: usize, failed: usize, invalidated: usize) -> IngestSummaryView {
    IngestSummaryView {
        source: ingest_source_text(request),
        received: request.products@.len() as usize,
        upserted: upserted,
        failed: failed,
        invalidated_cache_keys: invalidated,
    }
}

fn source_of(request: &IngestUpsertRequest) -> (s: String)
    ensures
        s@ == ingest_source_text(*request),
{
    String::from_str(text_or_default(&request.source, "manual-prototype"))
}

fn authorized(setup: &IngestSetup) -> (b: bool)
    ensures
        b == is_authorized(*setup),
{
    proof {
        reveal_strlit("");
        assert(""@ =~= Seq::<char>::empty());
    }
    match &setup.expected_key {
        Some(e) => {
            if e.as_str().unicode_len() == 0 {
                true
            } else {
                text_equals(text_or_default(&setup.supplied_key, ""), e.as_str())
            }
        },
        None => true,
    }
}

/// The first step of an ingestion: turn it down when the caller is not
/// authorized, then when there is no database, then when the batch is
/// empty; else store the batch under its source.
pub fn begin_ingest(setup: &IngestSetup, request: &IngestUpsertRequest) -> (a: IngestAction)
    ensures
        a@ == (if !is_authorized(*setup) {
            IngestActionView::Reject(IngestRejection::Unauthorized)
        } else if !setup.has_database {
            IngestActionView::Reject(IngestRejection::DatabaseUnavailable)
        } else if request.products@.len() == 0 {
            IngestActionView::Reject(IngestRejection::EmptyProducts)
        } else {
            IngestActionView::Upsert(ingest_source_text(*request))
        }),
        // A configured key that is not empty must be supplied exactly.
        forall|e: String|
            setup.expected_key == Some(e) && e@.len() > 0 && opt_text(setup.supplied_key) != Some(e@) ==> a@
                == IngestActionView::Reject(IngestRejection::Unauthorized),
        // With no key configured (or an empty one), or the right key
        // supplied, the database and then the batch are checked.
        (setup.expected_key is None || setup.expected_key->0@.len() == 0 || opt_text(setup.supplied_key)
            == Some(setup.expected_key->0@)) ==> {
            &&& !setup.has_database ==> a@ == IngestActionView::Reject(IngestRejection::DatabaseUnavailable)
            &&& setup.has_database && request.products@.len() == 0 ==> a@ == IngestActionView::Reject(
                IngestRejection::EmptyProducts,
            )
            &&& setup.has_database && request.products@.len() > 0 ==> a@ == IngestActionView::Upsert(
                match request.source {
                    Some(t) => t@,
                    None => "manual-prototype"@,
                },
            )
        },
{
    if !authorized(setup) {
        IngestAction::Reject(IngestRejection::Unauthorized)
    } else if !setup.has_database {
        IngestAction::Reject(IngestRejection::DatabaseUnavailable)
    } else if request.products.len() == 0 {
        IngestAction::Reject(IngestRejection::EmptyProducts)
    } else {
        IngestAction::Upsert(source_of(request))
    }
}

/// The step after storing the batch: a failed store turns the ingestion
/// down; otherwise the cached answers are dropped when that is wanted, or
/// the summary is given with no keys removed.
pub fn after_upsert(setup: &IngestSetup, request: &IngestUpsertRequest, counts: Option<(usize, usize)>) -> (a: IngestAction)
    ensures
        a@ == (match counts {
            None => IngestActionView::Reject(IngestRejection::UpsertFailed),
            Some((upserted, failed)) => if invalidation_wanted(*setup, *request) {
                IngestActionView::InvalidateCache { upserted, failed }
            } else {
                IngestActionView::Respond(ingest_summary(*request, upserted, failed, 0))
            },
        }),
        // A stored batch drops the cached answers whenever a cache is at hand
        // and the request does not turn this off.
        forall|u: usize, f: usize|
            counts == Some((u, f)) && setup.has_cache && request.invalidate_cache != Some(false) ==> a@
                == (IngestActionView::InvalidateCache { upserted: u, failed: f }),
        forall|u: usize, f: usize|
            counts == Some((u, f)) && (!setup.has_cache || request.invalidate_cache == Some(false)) ==> a@
                == IngestActionView::Respond(
                IngestSummaryView {
                    source: text_or(opt_text(request.source), "manual-prototype"@),
                    received: request.products@.len() as usize,
                    upserted: u,
                    failed: f,
                    invalidated_cache_keys: 0,
                },
            ),
        counts is None ==> a@ == IngestActionView::Reject(IngestRejection::UpsertFailed),
{
    match counts {
        None => IngestAction::Reject(IngestRejection::UpsertFailed),
        Some((upserted, failed)) => {
            let wanted = match request.invalidate_cache {
                Some(b) => b,
                None => true,
            };
            if wanted && setup.has_cache {
                IngestAction::InvalidateCache { upserted, failed }
            } else {
                IngestAction::Respond(IngestUpsertResponse {
                    source: source_of(request),
                    received: request.products.len(),
                    upserted,
                    failed,
                    invalidated_cache_keys: 0,
                })
            }
        },
    }
}

/// The summary after dropping the cached answers: the number of keys
/// removed, or none when the removal failed.
pub fn after_invalidation(request: &IngestUpsertRequest, upserted: usize, failed: usize, removed: Option<usize>) -> (r: IngestUpsertResponse)
    ensures
        r@ == ingest_summary(*request, upserted, failed, match removed {
            Some(n) => n,
            None => 0,
        }),
        r.received == request.products@.len(),
        r.upserted == upserted && r.failed == failed,
        forall|n: usize| removed == Some(n) ==> r.invalidated_cache_keys == n,
        removed is None ==> r.invalidated_cache_keys == 0,
        r.source@ == (match request.source {
            Some(t) => t@,
            None => "manual-prototype"@,
        }),
{
    IngestUpsertResponse {
        source: source_of(request),
        received: request.products.len(),
        upserted,
        failed,
        invalidated_cache_keys: match removed {
            Some(n) => n,
            None => 0,
        },
    }
}

} // verus!

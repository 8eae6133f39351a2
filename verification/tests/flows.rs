use shopwire::cache::search_cache_key;
use shopwire::handlers::{
    after_cache_lookup, after_cache_write, after_database_reply, after_invalidation, after_upsert,
    begin_ingest, begin_search, CacheLookup, DatabaseReply, IngestAction, IngestRejection, IngestSetup,
    SearchAction, SearchSetup,
};
use shopwire::models::{
    IngestProduct, IngestUpsertRequest, IngestUpsertResponse, ProductHit, SearchMeta, SearchRequest,
    SearchResponse,
};

fn request(page: Option<u32>) -> SearchRequest {
    SearchRequest { query: None, filters: None, sort: None, limit: None, page }
}

fn setup(has_cache: bool, has_database: bool) -> SearchSetup {
    SearchSetup { request: request(Some(3)), has_cache, has_database }
}

fn hit(sku: &str) -> ProductHit {
    ProductHit {
        sku: sku.to_string(),
        name: "n".to_string(),
        brand: "b".to_string(),
        color: "c".to_string(),
        size: "9".to_string(),
        price: 100,
        original_price: 200,
        discount_pct: 50,
        stock: 1,
        image_url: String::new(),
        redirect_url: String::new(),
    }
}

fn stored_answer() -> SearchResponse {
    SearchResponse {
        results: vec![hit("x")],
        meta: SearchMeta { total: 1, page: 1, latency_ms: 40, source: "db".to_string(), accuracy: 77 },
        suggestions: vec![],
    }
}

#[test]
fn search_reads_the_cache_first() {
    let s = setup(true, true);
    assert_eq!(begin_search(&s, 0), SearchAction::ReadCache(search_cache_key(&s.request)));
    assert_eq!(begin_search(&setup(false, true), 0), SearchAction::QueryDatabase);
}

#[test]
fn cache_hit_is_answered_at_once() {
    let s = setup(true, true);
    match after_cache_lookup(&s, CacheLookup::Hit(stored_answer()), 5) {
        SearchAction::Respond(r) => {
            assert_eq!(r.meta.source, "cache");
            assert_eq!(r.meta.page, 3);
            assert_eq!(r.meta.latency_ms, 5);
            assert_eq!(r.meta.total, 1);
            assert_eq!(r.meta.accuracy, 77);
            assert_eq!(r.results, vec![hit("x")]);
        }
        other => panic!("unexpected {:?}", other),
    }
}

#[test]
fn cache_miss_or_failure_goes_on() {
    let s = setup(true, true);
    assert_eq!(after_cache_lookup(&s, CacheLookup::Miss, 1), SearchAction::QueryDatabase);
    assert_eq!(after_cache_lookup(&s, CacheLookup::Failed, 1), SearchAction::QueryDatabase);
    match after_cache_lookup(&setup(true, false), CacheLookup::Miss, 2) {
        SearchAction::WriteCache(key, r) => {
            assert_eq!(key, search_cache_key(&request(Some(3))));
            assert_eq!(r.meta.source, "fallback");
            assert_eq!(r.meta.total, 2);
            assert_eq!(r.meta.accuracy, 98);
            assert_eq!(r.suggestions, vec!["Try 'navy' if no royal-blue".to_string()]);
        }
        other => panic!("unexpected {:?}", other),
    }
}

#[test]
fn database_rows_are_the_results() {
    match after_database_reply(&setup(true, true), DatabaseReply::Rows(vec![hit("a"), hit("b"), hit("c")]), 9) {
        SearchAction::WriteCache(_, r) => {
            assert_eq!(r.meta.source, "db");
            assert_eq!(r.meta.total, 3);
            assert_eq!(r.meta.page, 3);
            assert_eq!(r.meta.latency_ms, 9);
            let stored = after_cache_write(r.clone(), true);
            assert_eq!(stored.meta.source, "db+cached");
            let unstored = after_cache_write(r, false);
            assert_eq!(unstored.meta.source, "db");
        }
        other => panic!("unexpected {:?}", other),
    }
    match after_database_reply(&setup(false, true), DatabaseReply::Rows(vec![]), 1) {
        SearchAction::Respond(r) => {
            assert_eq!(r.meta.source, "db");
            assert_eq!(r.meta.total, 0);
        }
        other => panic!("unexpected {:?}", other),
    }
}

#[test]
fn failed_database_falls_back() {
    match after_database_reply(&setup(true, true), DatabaseReply::Failed, 4) {
        SearchAction::WriteCache(_, r) => {
            assert_eq!(r.meta.source, "fallback");
            assert_eq!(r.results.len(), 2);
            assert_eq!(after_cache_write(r, true).meta.source, "fallback");
        }
        other => panic!("unexpected {:?}", other),
    }
}

fn product() -> IngestProduct {
    IngestProduct {
        sku: "test-1".to_string(),
        name: "Test Shoe".to_string(),
        brand: "test".to_string(),
        category: None,
        color: None,
        size: None,
        price: 1000,
        original_price: None,
        stock: None,
        image_url: None,
        walmart_url: "https://www.walmart.com/ip/1".to_string(),
        active: None,
    }
}

fn batch(n: usize, source: Option<&str>, invalidate: Option<bool>) -> IngestUpsertRequest {
    IngestUpsertRequest {
        source: source.map(|s| s.to_string()),
        products: (0..n).map(|_| product()).collect(),
        invalidate_cache: invalidate,
    }
}

fn ingest(expected: Option<&str>, supplied: Option<&str>, db: bool, cache: bool) -> IngestSetup {
    IngestSetup {
        expected_key: expected.map(|s| s.to_string()),
        supplied_key: supplied.map(|s| s.to_string()),
        has_database: db,
        has_cache: cache,
    }
}

#[test]
fn ingest_checks_key_database_and_batch_in_turn() {
    let b = batch(1, None, None);
    assert_eq!(begin_ingest(&ingest(Some("k"), Some("x"), true, true), &b), IngestAction::Reject(IngestRejection::Unauthorized));
    assert_eq!(begin_ingest(&ingest(Some("k"), None, false, true), &batch(0, None, None)), IngestAction::Reject(IngestRejection::Unauthorized));
    assert_eq!(begin_ingest(&ingest(Some("k"), Some("k"), true, true), &b), IngestAction::Upsert("manual-prototype".to_string()));
    assert_eq!(begin_ingest(&ingest(Some(""), None, true, true), &b), IngestAction::Upsert("manual-prototype".to_string()));
    assert_eq!(begin_ingest(&ingest(None, Some("x"), false, true), &b), IngestAction::Reject(IngestRejection::DatabaseUnavailable));
    let empty = begin_ingest(&ingest(None, None, true, true), &batch(0, None, None));
    assert_eq!(empty, IngestAction::Reject(IngestRejection::EmptyProducts));
    assert_eq!(IngestRejection::EmptyProducts.status_code(), 400);
    assert_eq!(IngestRejection::EmptyProducts.error_text(), "products cannot be empty");
    assert_eq!(
        begin_ingest(&ingest(None, None, true, false), &batch(2, Some("walmart-feed"), None)),
        IngestAction::Upsert("walmart-feed".to_string())
    );
}

#[test]
fn ingest_after_upsert() {
    let b = batch(3, Some("feed"), None);
    let s = ingest(None, None, true, true);
    assert_eq!(after_upsert(&s, &b, None), IngestAction::Reject(IngestRejection::UpsertFailed));
    assert_eq!(IngestRejection::UpsertFailed.status_code(), 500);
    assert_eq!(IngestRejection::UpsertFailed.error_text(), "failed to upsert products");
    assert_eq!(after_upsert(&s, &b, Some((2, 1))), IngestAction::InvalidateCache { upserted: 2, failed: 1 });
    let summary = IngestUpsertResponse {
        source: "feed".to_string(),
        received: 3,
        upserted: 2,
        failed: 1,
        invalidated_cache_keys: 0,
    };
    assert_eq!(after_upsert(&s, &batch(3, Some("feed"), Some(false)), Some((2, 1))), IngestAction::Respond(summary.clone()));
    assert_eq!(after_upsert(&ingest(None, None, true, false), &b, Some((2, 1))), IngestAction::Respond(summary.clone()));
    assert_eq!(after_invalidation(&b, 2, 1, Some(7)), IngestUpsertResponse { invalidated_cache_keys: 7, ..summary.clone() });
    assert_eq!(after_invalidation(&b, 2, 1, None), summary);
}

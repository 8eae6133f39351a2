use shopwire::handlers::{
    begin_ingest, begin_search, discovery_manifest, health_report, IngestAction, IngestRejection,
    IngestSetup, SearchAction, SearchSetup,
};
use shopwire::models::{Filters, IngestProduct, IngestUpsertRequest, PriceFilter, SearchRequest};

fn test_product() -> IngestProduct {
    IngestProduct {
        sku: "test-1".to_string(),
        name: "Test Shoe".to_string(),
        brand: "test".to_string(),
        category: None,
        color: None,
        size: None,
        price: 1000,
        original_price: None,
        stock: None,
        image_url: None,
        walmart_url: "https://www.walmart.com/ip/1".to_string(),
        active: None,
    }
}

fn test_batch() -> IngestUpsertRequest {
    IngestUpsertRequest {
        source: Some("test".to_string()),
        products: vec![test_product()],
        invalidate_cache: None,
    }
}

#[test]
fn healthz_returns_ok() {
    let report = health_report(false, false);
    assert_eq!(report.status, "ok");
    assert!(!report.postgres);
    assert!(!report.redis);
}

#[test]
fn discovery_returns_manifest() {
    let manifest = discovery_manifest();
    assert_eq!(manifest.id, "shopwire-v1");
    assert_eq!(manifest.name, "BlueShoeMart");
}

#[test]
fn search_returns_structured_results() {
    let request = SearchRequest {
        query: Some("cheap blue nike".to_string()),
        filters: Some(Filters {
            category: None,
            brand: Some(vec!["nike".to_string()]),
            color: Some("blue".to_string()),
            price: Some(PriceFilter { max: Some(6000) }),
            discount_min: None,
            size: Some("9".to_string()),
            stock_min: None,
        }),
        sort: None,
        limit: Some(10),
        page: Some(1),
    };
    let setup = SearchSetup { request, has_cache: false, has_database: false };
    match begin_search(&setup, 3) {
        SearchAction::Respond(response) => {
            assert_eq!(response.results.len(), 2);
            assert_eq!(response.meta.latency_ms, 3);
            assert_eq!(response.meta.source, "fallback");
            assert_eq!(response.meta.total, 2);
            assert_eq!(response.meta.page, 1);
        }
        other => panic!("unexpected action {:?}", other),
    }
}

#[test]
fn ingest_requires_auth_when_key_set() {
    let setup = IngestSetup {
        expected_key: Some("secret".to_string()),
        supplied_key: None,
        has_database: false,
        has_cache: false,
    };
    let action = begin_ingest(&setup, &test_batch());
    assert_eq!(action, IngestAction::Reject(IngestRejection::Unauthorized));
    if let IngestAction::Reject(r) = action {
        assert_eq!(r.status_code(), 401);
        assert_eq!(r.error_text(), "unauthorized");
    }
}

#[test]
fn ingest_requires_database() {
    let setup = IngestSetup {
        expected_key: None,
        supplied_key: None,
        has_database: false,
        has_cache: false,
    };
    let action = begin_ingest(&setup, &test_batch());
    assert_eq!(action, IngestAction::Reject(IngestRejection::DatabaseUnavailable));
    if let IngestAction::Reject(r) = action {
        assert_eq!(r.status_code(), 503);
        assert_eq!(r.error_text(), "database unavailable");
    }
}

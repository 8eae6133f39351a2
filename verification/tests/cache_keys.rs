use shopwire::cache::{invalidation_pattern, search_cache_key, SEARCH_CACHE_TTL_SECONDS};
use shopwire::models::{Filters, PriceFilter, SearchRequest};

fn empty_request() -> SearchRequest {
    SearchRequest { query: None, filters: None, sort: None, limit: None, page: None }
}

fn no_filters() -> Filters {
    Filters {
        category: None,
        brand: None,
        color: None,
        price: None,
        discount_min: None,
        size: None,
        stock_min: None,
    }
}

#[test]
fn default_request_key() {
    assert_eq!(
        search_cache_key(&empty_request()),
        "search:v1:q=:brand=:color=_:category=shoes:size=_:price_max=0:discount_min=0:stock_min=0:sort=relevance:limit=10:page=1"
    );
}

#[test]
fn smoke_request_key() {
    let request = SearchRequest {
        query: Some("cheap blue nike".to_string()),
        filters: Some(Filters {
            brand: Some(vec!["nike".to_string()]),
            color: Some("blue".to_string()),
            price: Some(PriceFilter { max: Some(6000) }),
            size: Some("9".to_string()),
            ..no_filters()
        }),
        sort: None,
        limit: Some(10),
        page: Some(1),
    };
    assert_eq!(
        search_cache_key(&request),
        "search:v1:q=cheap blue nike:brand=nike:color=blue:category=shoes:size=9:price_max=60:discount_min=0:stock_min=0:sort=relevance:limit=10:page=1"
    );
}

#[test]
fn key_is_lowercase_and_clamped() {
    let request = SearchRequest {
        query: Some("Nike AIR".to_string()),
        filters: Some(Filters {
            category: Some("SHOES".to_string()),
            brand: Some(vec!["Nike".to_string(), "ADIDAS".to_string()]),
            color: Some("Royal-Blue".to_string()),
            price: Some(PriceFilter { max: Some(4999) }),
            discount_min: Some(20),
            size: Some("10W".to_string()),
            stock_min: Some(3),
        }),
        sort: Some("PRICE_ASC".to_string()),
        limit: Some(500),
        page: Some(4),
    };
    assert_eq!(
        search_cache_key(&request),
        "search:v1:q=nike air:brand=nike,adidas:color=royal-blue:category=shoes:size=10w:price_max=49.99:discount_min=20:stock_min=3:sort=price_asc:limit=100:page=4"
    );
    let low = SearchRequest { limit: Some(0), ..empty_request() };
    let one = SearchRequest { limit: Some(1), ..empty_request() };
    assert_eq!(search_cache_key(&low), search_cache_key(&one));
    assert!(search_cache_key(&low).ends_with(":limit=1:page=1"));
}

#[test]
fn key_renders_price_bounds_as_numbers() {
    let with_max = |m: Option<i64>| SearchRequest {
        filters: Some(Filters { price: Some(PriceFilter { max: m }), ..no_filters() }),
        ..empty_request()
    };
    assert!(search_cache_key(&with_max(Some(4990))).contains(":price_max=49.9:"));
    assert!(search_cache_key(&with_max(Some(-250))).contains(":price_max=-2.5:"));
    assert!(search_cache_key(&with_max(None)).contains(":price_max=0:"));
}

#[test]
fn every_key_is_matched_by_the_invalidation_pattern() {
    let pattern = invalidation_pattern();
    assert_eq!(pattern, "search:v1:*");
    let prefix = &pattern[..pattern.len() - 1];
    assert!(search_cache_key(&empty_request()).starts_with(prefix));
    let odd = SearchRequest { query: Some("ÄÖÜ:*".to_string()), ..empty_request() };
    assert!(search_cache_key(&odd).starts_with(prefix));
    assert_eq!(SEARCH_CACHE_TTL_SECONDS, 120);
}

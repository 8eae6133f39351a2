use shopwire::cache::search_cache_key;
use shopwire::catalog::fallback_products;
use shopwire::handlers::{after_cache_lookup, begin_search, CacheLookup, SearchAction, SearchSetup};
use shopwire::models::{Filters, SearchRequest};
use shopwire::repository::{search_query, SqlPiece, SqlValue};

fn request(limit: Option<u32>, page: Option<u32>, sort: Option<&str>) -> SearchRequest {
    SearchRequest { query: None, filters: None, sort: sort.map(|s| s.to_string()), limit, page }
}

fn offset_and_limit(r: &SearchRequest) -> (i64, i64) {
    let q = search_query(r);
    let n = q.len();
    match (&q[n - 3], &q[n - 1]) {
        (SqlPiece::Bind(SqlValue::BigInt(l)), SqlPiece::Bind(SqlValue::BigInt(o))) => (*o, *l),
        other => panic!("unexpected tail {:?}", other),
    }
}

#[test]
fn different_pages_have_different_keys() {
    let k = |p: u32| search_cache_key(&request(None, Some(p), None));
    assert_ne!(k(1), k(10));
    assert_ne!(k(2), k(12));
    assert_ne!(k(21), k(1));
    assert_eq!(k(1), search_cache_key(&request(None, None, None)));
}

#[test]
fn consecutive_pages_follow_each_other() {
    for limit in [Some(0), Some(7), None, Some(100), Some(250)] {
        for page in 1..6u32 {
            let (o1, l1) = offset_and_limit(&request(limit, Some(page), None));
            let (o2, l2) = offset_and_limit(&request(limit, Some(page + 1), None));
            assert_eq!(l1, l2);
            assert_eq!(o2, o1 + l1);
        }
    }
    assert_eq!(offset_and_limit(&request(Some(10), Some(3), None)), (20, 10));
    assert_eq!(offset_and_limit(&request(Some(10), Some(0), None)), (0, 10));
}

#[test]
fn query_limit_bounds_the_builtin_answer() {
    for limit in [Some(0), Some(1), Some(2), None, Some(1000)] {
        let r = request(limit, None, None);
        let (_, l) = offset_and_limit(&r);
        assert!(fallback_products(&r).len() as i64 <= l);
    }
    assert_eq!(offset_and_limit(&request(Some(1000), None, None)).1, 100);
}

#[test]
fn every_order_breaks_ties_by_sku() {
    for sort in [None, Some("price_asc"), Some("discount_desc"), Some("newest")] {
        let q = search_query(&request(None, None, sort));
        match &q[q.len() - 5] {
            SqlPiece::Sql(clause) => {
                assert!(clause.starts_with(" ORDER BY "));
                assert!(clause.ends_with(", sku ASC"));
            }
            other => panic!("unexpected {:?}", other),
        }
    }
}

#[test]
fn search_writes_where_it_reads() {
    let setup = SearchSetup { request: request(Some(5), Some(2), Some("price_asc")), has_cache: true, has_database: false };
    let read_key = match begin_search(&setup, 0) {
        SearchAction::ReadCache(k) => k,
        other => panic!("unexpected {:?}", other),
    };
    match after_cache_lookup(&setup, CacheLookup::Miss, 1) {
        SearchAction::WriteCache(k, _) => assert_eq!(k, read_key),
        other => panic!("unexpected {:?}", other),
    }
}

#[test]
fn letter_case_does_not_change_the_key() {
    let make = |q: &str, brands: &[&str], color: &str, sort: &str| SearchRequest {
        query: Some(q.to_string()),
        filters: Some(Filters {
            category: Some("Shoes".to_string()),
            brand: Some(brands.iter().map(|b| b.to_string()).collect()),
            color: Some(color.to_string()),
            price: None,
            discount_min: None,
            size: Some("9W".to_string()),
            stock_min: None,
        }),
        sort: Some(sort.to_string()),
        limit: Some(20),
        page: Some(2),
    };
    let a = make("Blue NIKE", &["NIKE", "Adidas"], "Royal-Blue", "PRICE_ASC");
    let b = make("blue nike", &["nike", "ADIDAS"], "royal-blue", "price_asc");
    assert_eq!(search_cache_key(&a), search_cache_key(&b));
    let c = make("blue nike", &["nike", "puma"], "royal-blue", "price_asc");
    assert_ne!(search_cache_key(&a), search_cache_key(&c));
}

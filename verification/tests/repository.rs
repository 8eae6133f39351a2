use shopwire::models::{Filters, IngestProduct, PriceFilter, SearchRequest};
use shopwire::repository::{
    map_row_to_product_hit, map_rows_to_product_hits, search_query, upsert_values, PriceRecord, ProductRow,
    RunStatus, SqlPiece, SqlValue, UpsertAction, UpsertRun, INSERT_INGESTION_RUN_SQL, INSERT_PRICE_HISTORY_SQL,
    UPSERT_PRODUCT_SQL,
};

const SELECT: &str = "SELECT sku, name, brand, COALESCE(color, '') AS color, COALESCE(size, '') AS size, price::float8 AS price, COALESCE(original_price, price)::float8 AS original_price, COALESCE(discount_pct, 0) AS discount_pct, COALESCE(stock, 0) AS stock, COALESCE(image_url, '') AS image_url, walmart_url FROM products WHERE active = true";

fn empty_request() -> SearchRequest {
    SearchRequest { query: None, filters: None, sort: None, limit: None, page: None }
}

fn sql(s: &str) -> SqlPiece {
    SqlPiece::Sql(s.to_string())
}

fn text(s: &str) -> SqlPiece {
    SqlPiece::Bind(SqlValue::Text(s.to_string()))
}

#[test]
fn default_search_query() {
    assert_eq!(
        search_query(&empty_request()),
        vec![
            sql(SELECT),
            sql(" ORDER BY updated_at DESC, sku ASC"),
            sql(" LIMIT "),
            SqlPiece::Bind(SqlValue::BigInt(10)),
            sql(" OFFSET "),
            SqlPiece::Bind(SqlValue::BigInt(0)),
        ]
    );
}

#[test]
fn full_search_query() {
    let request = SearchRequest {
        query: Some("  blue nike \t".to_string()),
        filters: Some(Filters {
            category: Some("shoes".to_string()),
            brand: Some(vec!["Nike".to_string(), "ADIDAS".to_string()]),
            color: Some("blue".to_string()),
            price: Some(PriceFilter { max: Some(6000) }),
            discount_min: Some(10),
            size: Some("9".to_string()),
            stock_min: Some(u32::MAX),
        }),
        sort: Some("price_asc".to_string()),
        limit: Some(20),
        page: Some(3),
    };
    assert_eq!(
        search_query(&request),
        vec![
            sql(SELECT),
            sql(" AND (name ILIKE "),
            text("%blue nike%"),
            sql(" OR brand ILIKE "),
            text("%blue nike%"),
            sql(")"),
            sql(" AND category = "),
            text("shoes"),
            sql(" AND lower(brand) = ANY("),
            SqlPiece::Bind(SqlValue::TextList(vec!["nike".to_string(), "adidas".to_string()])),
            sql(")"),
            sql(" AND color ILIKE "),
            text("%blue%"),
            sql(" AND size = "),
            text("9"),
            sql(" AND price <= "),
            SqlPiece::Bind(SqlValue::Amount(6000)),
            sql(" AND COALESCE(discount_pct, 0) >= "),
            SqlPiece::Bind(SqlValue::Int(10)),
            sql(" AND COALESCE(stock, 0) >= "),
            SqlPiece::Bind(SqlValue::Int(-1)),
            sql(" ORDER BY price ASC, sku ASC"),
            sql(" LIMIT "),
            SqlPiece::Bind(SqlValue::BigInt(20)),
            sql(" OFFSET "),
            SqlPiece::Bind(SqlValue::BigInt(40)),
        ]
    );
}

#[test]
fn blank_query_and_empty_brands_add_no_condition() {
    let request = SearchRequest {
        query: Some("   ".to_string()),
        filters: Some(Filters {
            category: None,
            brand: Some(vec![]),
            color: None,
            price: Some(PriceFilter { max: None }),
            discount_min: None,
            size: None,
            stock_min: None,
        }),
        sort: Some("discount_desc".to_string()),
        limit: Some(0),
        page: Some(0),
    };
    assert_eq!(
        search_query(&request),
        vec![
            sql(SELECT),
            sql(" ORDER BY discount_pct DESC, sku ASC"),
            sql(" LIMIT "),
            SqlPiece::Bind(SqlValue::BigInt(1)),
            sql(" OFFSET "),
            SqlPiece::Bind(SqlValue::BigInt(0)),
        ]
    );
}

fn row(discount: i32, stock: i32) -> ProductRow {
    ProductRow {
        sku: "s".to_string(),
        name: "n".to_string(),
        brand: "b".to_string(),
        color: "c".to_string(),
        size: "9".to_string(),
        price: 4999,
        original_price: 8999,
        discount_pct: discount,
        stock,
        image_url: "i".to_string(),
        walmart_url: "https://www.walmart.com/ip/1".to_string(),
    }
}

#[test]
fn rows_become_hits() {
    let h = map_row_to_product_hit(row(-3, 7));
    assert_eq!(h.discount_pct, 0);
    assert_eq!(h.stock, 7);
    assert_eq!(h.redirect_url, "https://www.walmart.com/ip/1");
    assert_eq!(h.price, 4999);
    assert_eq!(h.original_price, 8999);
    let h = map_row_to_product_hit(row(44, -1));
    assert_eq!(h.discount_pct, 44);
    assert_eq!(h.stock, 0);
    let hs = map_rows_to_product_hits(vec![row(1, 1), row(2, 2)]);
    assert_eq!(hs.iter().map(|h| h.discount_pct).collect::<Vec<_>>(), vec![1, 2]);
}

fn snapshot() -> IngestProduct {
    IngestProduct {
        sku: "nike-pg40-royal".to_string(),
        name: "Nike Air Zoom Pegasus 40".to_string(),
        brand: "nike".to_string(),
        category: None,
        color: Some("royal-blue".to_string()),
        size: None,
        price: 4799,
        original_price: None,
        stock: None,
        image_url: None,
        walmart_url: "https://www.walmart.com/ip/456789123".to_string(),
        active: None,
    }
}

#[test]
fn upsert_values_fill_in_defaults() {
    let u = upsert_values(&snapshot());
    assert_eq!(u.category, "shoes");
    assert_eq!(u.original_price, 4799);
    assert_eq!(u.stock, 0);
    assert!(u.active);
    assert_eq!(u.color, Some("royal-blue".to_string()));
    assert_eq!(u.size, None);
    let full = IngestProduct {
        category: Some("sandals".to_string()),
        original_price: Some(8999),
        stock: Some(3_000_000_000),
        active: Some(false),
        ..snapshot()
    };
    let u = upsert_values(&full);
    assert_eq!(u.category, "sandals");
    assert_eq!(u.original_price, 8999);
    assert_eq!(u.stock, 3_000_000_000u32 as i32);
    assert!(!u.active);
    assert!(UPSERT_PRODUCT_SQL.contains("ON CONFLICT (sku) DO UPDATE SET"));
    assert!(INSERT_PRICE_HISTORY_SQL.starts_with("INSERT INTO price_history"));
    assert!(INSERT_INGESTION_RUN_SQL.starts_with("INSERT INTO ingestion_runs"));
}

#[test]
fn upsert_run_counts_every_product_once() {
    let mut run = UpsertRun::new(3);
    assert_eq!(run.next_action(), UpsertAction::UpsertProduct(0));
    assert_eq!(run.record_outcome(Some(10)), Some(PriceRecord { product_id: 10, index: 0 }));
    assert_eq!(run.next_action(), UpsertAction::UpsertProduct(1));
    assert_eq!(run.record_outcome(None), None);
    assert_eq!(run.next_action(), UpsertAction::UpsertProduct(2));
    assert_eq!(run.record_outcome(Some(12)), Some(PriceRecord { product_id: 12, index: 2 }));
    assert_eq!(
        run.next_action(),
        UpsertAction::RecordRun { status: RunStatus::Partial, upserted: 2, failed: 1 }
    );
    assert_eq!(run.record_outcome(Some(13)), None);
    assert_eq!(run.handled(), 3);
    assert_eq!((run.upserted(), run.failed()), (2, 1));
    assert_eq!(RunStatus::Partial.as_str(), "partial");
}

#[test]
fn upsert_run_without_failures_succeeds() {
    let mut run = UpsertRun::new(1);
    run.record_outcome(Some(1));
    assert_eq!(
        run.next_action(),
        UpsertAction::RecordRun { status: RunStatus::Success, upserted: 1, failed: 0 }
    );
    let empty = UpsertRun::new(0);
    assert_eq!(
        empty.next_action(),
        UpsertAction::RecordRun { status: RunStatus::Success, upserted: 0, failed: 0 }
    );
    assert_eq!(RunStatus::Success.as_str(), "success");
}

#[test]
fn query_is_trimmed_of_unicode_white_space() {
    let r = |q: &str| SearchRequest { query: Some(q.to_string()), ..empty_request() };
    let q = search_query(&r("\u{3000}\u{a0} nike\u{2009}air \n\u{85}"));
    assert_eq!(q[2], text("%nike\u{2009}air%"));
    let blank = search_query(&r("\u{2028}\t \u{202f}"));
    assert_eq!(blank.len(), 6);
    let inner = search_query(&r("x\u{200b}"));
    assert_eq!(inner[2], text("%x\u{200b}%"));
}

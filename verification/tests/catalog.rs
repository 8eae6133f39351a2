use shopwire::catalog::{fallback_products, sort_order, sort_products, SortOrder};
use shopwire::models::{Filters, PriceFilter, ProductHit, SearchRequest};

fn empty_request() -> SearchRequest {
    SearchRequest { query: None, filters: None, sort: None, limit: None, page: None }
}

fn no_filters() -> Filters {
    Filters {
        category: None,
        brand: None,
        color: None,
        price: None,
        discount_min: None,
        size: None,
        stock_min: None,
    }
}

fn with_filters(f: Filters) -> SearchRequest {
    SearchRequest { filters: Some(f), ..empty_request() }
}

fn skus(hits: &[ProductHit]) -> Vec<&str> {
    hits.iter().map(|h| h.sku.as_str()).collect()
}

#[test]
fn default_search_gives_both_builtin_products() {
    let hits = fallback_products(&empty_request());
    assert_eq!(skus(&hits), vec!["nike-pg40-royal", "nike-rev7-game"]);
    let first = &hits[0];
    assert_eq!(first.name, "Nike Air Zoom Pegasus 40");
    assert_eq!(first.brand, "nike");
    assert_eq!(first.color, "royal-blue");
    assert_eq!(first.size, "9");
    assert_eq!(first.price, 4999);
    assert_eq!(first.original_price, 8999);
    assert_eq!(first.discount_pct, 44);
    assert_eq!(first.stock, 18);
    assert_eq!(first.image_url, "https://i5.walmartimages.com/asr/example1.jpg");
    assert_eq!(first.redirect_url, "https://www.walmart.com/ip/456789123");
    let second = &hits[1];
    assert_eq!(second.name, "Nike Revolution 7");
    assert_eq!(second.color, "game-royal");
    assert_eq!(second.price, 3800);
    assert_eq!(second.original_price, 5500);
    assert_eq!(second.discount_pct, 31);
    assert_eq!(second.stock, 5);
    assert_eq!(second.image_url, "https://i5.walmartimages.com/asr/example2.jpg");
    assert_eq!(second.redirect_url, "https://www.walmart.com/ip/987654321");
}

#[test]
fn builtin_products_take_brand_color_and_size_from_the_filters() {
    let hits = fallback_products(&with_filters(Filters {
        brand: Some(vec!["Adidas".to_string(), "puma".to_string()]),
        color: Some("navy".to_string()),
        size: Some("11".to_string()),
        ..no_filters()
    }));
    assert_eq!(hits.len(), 2);
    assert_eq!(hits[0].brand, "Adidas");
    assert_eq!(hits[1].brand, "Adidas");
    assert_eq!(hits[0].color, "navy");
    assert_eq!(hits[1].color, "game-royal");
    assert_eq!(hits[0].size, "11");
    assert_eq!(hits[1].size, "11");
    let empty_brands = fallback_products(&with_filters(Filters { brand: Some(vec![]), ..no_filters() }));
    assert_eq!(empty_brands[0].brand, "nike");
}

#[test]
fn query_must_mention_nike() {
    let q = |s: &str| SearchRequest { query: Some(s.to_string()), ..empty_request() };
    assert_eq!(fallback_products(&q("cheap blue nike")).len(), 2);
    assert_eq!(fallback_products(&q("NIKE runner")).len(), 2);
    assert!(fallback_products(&q("adidas")).is_empty());
    assert!(fallback_products(&q("")).is_empty());
}

#[test]
fn category_must_be_shoes() {
    let c = |s: &str| with_filters(Filters { category: Some(s.to_string()), ..no_filters() });
    assert_eq!(fallback_products(&c("SHOES")).len(), 2);
    assert_eq!(fallback_products(&c("Shoes")).len(), 2);
    assert!(fallback_products(&c("boots")).is_empty());
}

#[test]
fn filters_bound_price_discount_and_stock() {
    let max = |m: i64| with_filters(Filters { price: Some(PriceFilter { max: Some(m) }), ..no_filters() });
    assert_eq!(skus(&fallback_products(&max(4000))), vec!["nike-rev7-game"]);
    assert_eq!(fallback_products(&max(4999)).len(), 2);
    assert_eq!(skus(&fallback_products(&max(4998))), vec!["nike-rev7-game"]);
    assert!(fallback_products(&max(3799)).is_empty());
    let no_max = with_filters(Filters { price: Some(PriceFilter { max: None }), ..no_filters() });
    assert_eq!(fallback_products(&no_max).len(), 2);
    let discount = with_filters(Filters { discount_min: Some(40), ..no_filters() });
    assert_eq!(skus(&fallback_products(&discount)), vec!["nike-pg40-royal"]);
    let stock = with_filters(Filters { stock_min: Some(6), ..no_filters() });
    assert_eq!(skus(&fallback_products(&stock)), vec!["nike-pg40-royal"]);
    let stock_all = with_filters(Filters { stock_min: Some(5), ..no_filters() });
    assert_eq!(fallback_products(&stock_all).len(), 2);
}

#[test]
fn results_follow_the_order_asked_for() {
    let s = |o: &str| SearchRequest { sort: Some(o.to_string()), ..empty_request() };
    assert_eq!(skus(&fallback_products(&s("price_asc"))), vec!["nike-rev7-game", "nike-pg40-royal"]);
    assert_eq!(skus(&fallback_products(&s("discount_desc"))), vec!["nike-pg40-royal", "nike-rev7-game"]);
    assert_eq!(skus(&fallback_products(&s("PRICE_ASC"))), vec!["nike-pg40-royal", "nike-rev7-game"]);
    assert_eq!(sort_order(&s("price_asc")), SortOrder::PriceAsc);
    assert_eq!(sort_order(&s("discount_desc")), SortOrder::DiscountDesc);
    assert_eq!(sort_order(&s("newest")), SortOrder::Relevance);
    assert_eq!(sort_order(&empty_request()), SortOrder::Relevance);
}

#[test]
fn results_are_limited() {
    let l = |n: u32| SearchRequest { limit: Some(n), ..empty_request() };
    assert_eq!(skus(&fallback_products(&l(1))), vec!["nike-pg40-royal"]);
    assert_eq!(fallback_products(&l(0)).len(), 1);
    assert_eq!(fallback_products(&l(2)).len(), 2);
    assert_eq!(fallback_products(&l(1000)).len(), 2);
}

fn hit(sku: &str, price: i64, discount: u32) -> ProductHit {
    ProductHit {
        sku: sku.to_string(),
        name: String::new(),
        brand: String::new(),
        color: String::new(),
        size: String::new(),
        price,
        original_price: price,
        discount_pct: discount,
        stock: 1,
        image_url: String::new(),
        redirect_url: String::new(),
    }
}

#[test]
fn sorting_is_stable() {
    let items = vec![hit("a", 300, 10), hit("b", 100, 20), hit("c", 300, 20), hit("d", 100, 5), hit("e", 200, 10)];
    let by_price = sort_products(items.clone(), SortOrder::PriceAsc);
    assert_eq!(skus(&by_price), vec!["b", "d", "e", "a", "c"]);
    let by_discount = sort_products(items.clone(), SortOrder::DiscountDesc);
    assert_eq!(skus(&by_discount), vec!["b", "c", "a", "e", "d"]);
    let kept = sort_products(items, SortOrder::Relevance);
    assert_eq!(skus(&kept), vec!["a", "b", "c", "d", "e"]);
    assert!(sort_products(vec![], SortOrder::PriceAsc).is_empty());
}

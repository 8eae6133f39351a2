//! The request and response values of the API, and their views.
//!
//! Amounts of money are held as whole hundredths of the currency unit
//! (`4999` stands for 49.99), and the accuracy figure of a search as
//! hundredths too (`98` stands for 0.98).
use vstd::prelude::*;
use crate::text::texts;

verus! {

/// A search over the catalog.
#[derive(Clone, Debug, PartialEq)]
pub struct SearchRequest {
    pub query: Option<String>,
    pub filters: Option<Filters>,
    pub sort: Option<String>,
    pub limit: Option<u32>,
    pub page: Option<u32>,
}

/// Narrowing conditions of a search.
#[derive(Clone, Debug, PartialEq)]
pub struct Filters {
    pub category: Option<String>,
    pub brand: Option<Vec<String>>,
    pub color: Option<String>,
    pub price: Option<PriceFilter>,
    pub discount_min: Option<u32>,
    pub size: Option<String>,
    pub stock_min: Option<u32>,
}

/// Price bound of a search, in hundredths.
#[derive(Clone, Debug, PartialEq)]
pub struct PriceFilter {
    pub max: Option<i64>,
}

/// One product in a search answer. `price` and `original_price` are in
/// hundredths.
#[derive(Clone, Debug, PartialEq)]
pub struct ProductHit {
    pub sku: String,
    pub name: String,
    pub brand: String,
    pub color: String,
    pub size: String,
    pub price: i64,
    pub original_price: i64,
    pub discount_pct: u32,
    pub stock: u32,
    pub image_url: String,
    pub redirect_url: String,
}

/// Facts about a search answer. `accuracy` is in hundredths.
#[derive(Clone, Debug, PartialEq)]
pub struct SearchMeta {
    pub total: u32,
    pub page: u32,
    pub latency_ms: u32,
    pub source: String,
    pub accuracy: u32,
}

/// The answer to a search.
#[derive(Clone, Debug, PartialEq)]
pub struct SearchResponse {
    pub results: Vec<ProductHit>,
    pub meta: SearchMeta,
    pub suggestions: Vec<String>,
}

/// The manifest that tells agents what this service offers.
#[derive(Clone, Debug, PartialEq)]
pub struct DiscoveryResponse {
    pub id: String,
    pub name: String,
    pub version: String,
    pub description: String,
    pub capabilities: Vec<String>,
    pub auth: String,
    pub rate_limit: String,
    pub schema_url: String,
    pub docs: String,
}

/// A batch of product snapshots to store.
#[derive(Clone, Debug, PartialEq)]
pub struct IngestUpsertRequest {
    pub source: Option<String>,
    pub products: Vec<IngestProduct>,
    pub invalidate_cache: Option<bool>,
}

/// One incoming product snapshot. `price` and `original_price` are in
/// hundredths.
#[derive(Clone, Debug, PartialEq)]
pub struct IngestProduct {
    pub sku: String,
    pub name: String,
    pub brand: String,
    pub category: Option<String>,
    pub color: Option<String>,
    pub size: Option<String>,
    pub price: i64,
    pub original_price: Option<i64>,
    pub stock: Option<u32>,
    pub image_url: Option<String>,
    pub walmart_url: String,
    pub active: Option<bool>,
}

/// The summary of an ingestion.
#[derive(Clone, Debug, PartialEq)]
pub struct IngestUpsertResponse {
    pub source: String,
    pub received: usize,
    pub upserted: usize,
    pub failed: usize,
    pub invalidated_cache_keys: usize,
}

/// The view of an optional string.
pub open spec fn opt_text(s: Option<String>) -> Option<Seq<char>> {
    match s {
        Some(t) => Some(t@),
        None => None,
    }
}

/// The view of a product hit.
pub struct ProductHitView {
    pub sku: Seq<char>,
    pub name: Seq<char>,
    pub brand: Seq<char>,
    pub color: Seq<char>,
    pub size: Seq<char>,
    pub price: i64,
    pub original_price: i64,
    pub discount_pct: u32,
    pub stock: u32,
    pub image_url: Seq<char>,
    pub redirect_url: Seq<char>,
}

impl View for ProductHit {
    type V = ProductHitView;

    open spec fn view(&self) -> ProductHitView {
        ProductHitView {
            sku: self.sku@,
            name: self.name@,
            brand: self.brand@,
            color: self.color@,
            size: self.size@,
            price: self.price,
            original_price: self.original_price,
            discount_pct: self.discount_pct,
            stock: self.stock,
            image_url: self.image_url@,
            redirect_url: self.redirect_url@,
        }
    }
}

/// The views of a list of product hits.
pub open spec fn hit_views(v: Seq<ProductHit>) -> Seq<ProductHitView> {
    v.map_values(|h: ProductHit| h@)
}

/// The view of the facts about a search answer.
pub struct SearchMetaView {
    pub total: u32,
    pub page: u32,
    pub latency_ms: u32,
    pub source: Seq<char>,
    pub accuracy: u32,
}

/// The view of a search answer.
pub struct SearchResponseView {
    pub results: Seq<ProductHitView>,
    pub meta: SearchMetaView,
    pub suggestions: Seq<Seq<char>>,
}

impl View for SearchResponse {
    type V = SearchResponseView;

    open spec fn view(&self) -> SearchResponseView {
        SearchResponseView {
            results: hit_views(self.results@),
            meta: SearchMetaView {
                total: self.meta.total,
                page: self.meta.page,
                latency_ms: self.meta.latency_ms,
                source: self.meta.source@,
                accuracy: self.meta.accuracy,
            },
            suggestions: self.suggestions@.map_values(|s: String| s@),
        }
    }
}

impl SearchRequest {
    /// The free-text query, if any.
    pub open spec fn query_text(self) -> Option<Seq<char>> {
        opt_text(self.query)
    }

    /// The requested order, if any.
    pub open spec fn sort_text(self) -> Option<Seq<char>> {
        opt_text(self.sort)
    }

    /// The category filter, if any.
    pub open spec fn category_filter(self) -> Option<Seq<char>> {
        match self.filters {
            Some(f) => opt_text(f.category),
            None => None,
        }
    }

    /// The brand filter, if any.
    pub open spec fn brand_filter(self) -> Option<Seq<Seq<char>>> {
        match self.filters {
            Some(f) => match f.brand {
                Some(b) => Some(texts(b@)),
                None => None,
            },
            None => None,
        }
    }

    /// The color filter, if any.
    pub open spec fn color_filter(self) -> Option<Seq<char>> {
        match self.filters {
            Some(f) => opt_text(f.color),
            None => None,
        }
    }

    /// The size filter, if any.
    pub open spec fn size_filter(self) -> Option<Seq<char>> {
        match self.filters {
            Some(f) => opt_text(f.size),
            None => None,
        }
    }

    /// The price bound, in hundredths, if any.
    pub open spec fn price_max_filter(self) -> Option<i64> {
        match self.filters {
            Some(f) => match f.price {
                Some(p) => p.max,
                None => None,
            },
            None => None,
        }
    }

    /// The least discount asked for, if any.
    pub open spec fn discount_min_filter(self) -> Option<u32> {
        match self.filters {
            Some(f) => f.discount_min,
            None => None,
        }
    }

    /// The least stock asked for, if any.
    pub open spec fn stock_min_filter(self) -> Option<u32> {
        match self.filters {
            Some(f) => f.stock_min,
            None => None,
        }
    }

    /// The page asked for; the first page when none is given.
    pub open spec fn page_number(self) -> u32 {
        match self.page {
            Some(p) => p,
            None => 1,
        }
    }

    /// The number of results asked for, 10 when none is given, brought into
    /// the range 1 to 100.
    pub open spec fn result_limit(self) -> u32 {
        let l: u32 = match self.limit {
            Some(l) => l,
            None => 10,
        };
        if l < 1 { 1 } else if l > 100 { 100 } else { l }
    }
}

/// The page asked for; the first page when none is given.
pub fn page_number(request: &SearchRequest) -> (p: u32)
    ensures
        p == request.page_number(),
        request.page is None ==> p == 1,
        forall|n: u32| request.page == Some(n) ==> p == n,
{
    match request.page {
        Some(p) => p,
        None => 1,
    }
}

/// The number of results asked for, 10 when none is given, clamped to the
/// range 1 to 100.
pub fn result_limit(request: &SearchRequest) -> (l: u32)
    ensures
        l == request.result_limit(),
        1 <= l <= 100,
        request.limit is None ==> l == 10,
        forall|n: u32| request.limit == Some(n) ==> (l == n <==> 1 <= n <= 100),
        forall|n: u32| request.limit == Some(n) && n < 1 ==> l == 1,
        forall|n: u32| request.limit == Some(n) && n > 100 ==> l == 100,
{
    let l: u32 = match request.limit {
        Some(l) => l,
        None => 10,
    };
    if l < 1 { 1 } else if l > 100 { 100 } else { l }
}

} // verus!

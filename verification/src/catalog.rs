//! The built-in catalog that answers searches when no database is at hand,
//! and the selection of offers from a list of products: filtering by price,
//! discount and stock, stable ordering, and the result limit.
use vstd::prelude::*;
use vstd::string::*;
use crate::cache::{text_or, text_or_default};
use crate::models::{hit_views, result_limit, ProductHit, ProductHitView, SearchRequest};
use crate::text::{ascii_lowercase, contains_text, eq_ignore_ascii_case, lower_text, same_ignoring_ascii_case, text_contains, lowercased};

verus! {

/// The order in which search results are given.
#[derive(Clone, Copy, Debug, PartialEq, Eq)]
pub enum SortOrder {
    /// As found (no reordering).
    Relevance,
    /// Cheapest first.
    PriceAsc,
    /// Largest discount first.
    DiscountDesc,
}

/// The order named by a search's `sort` text: `price_asc` and
/// `discount_desc` name theirs; anything else, or nothing, means relevance.
pub open spec fn sort_order_of(sort: Option<Seq<char>>) -> SortOrder {
    match sort {
        Some(s) => if s == "price_asc"@ {
            SortOrder::PriceAsc
        } else if s == "discount_desc"@ {
            SortOrder::DiscountDesc
        } else {
            SortOrder::Relevance
        },
        None => SortOrder::Relevance,
    }
}

/// The order that a search asks for.
pub fn sort_order(request: &SearchRequest) -> (o: SortOrder)
    ensures
        o == sort_order_of(request.sort_text()),
        o == SortOrder::PriceAsc <==> request.sort_text() == Some("price_asc"@),
        o == SortOrder::DiscountDesc <==> request.sort_text() == Some("discount_desc"@),
{
    proof {
        reveal_strlit("price_asc");
        reveal_strlit("discount_desc");
        assert("price_asc"@.len() != "discount_desc"@.len());
    }
    match &request.sort {
        Some(s) => if crate::text::text_equals(s.as_str(), "price_asc") {
            SortOrder::PriceAsc
        } else if crate::text::text_equals(s.as_str(), "discount_desc") {
            SortOrder::DiscountDesc
        } else {
            SortOrder::Relevance
        },
        None => SortOrder::Relevance,
    }
}

/// The number by which a product is placed, smaller first: its price for
/// `PriceAsc`, its discount negated for `DiscountDesc`, and the same for
/// every product under `Relevance`.
pub open spec fn sort_key(order: SortOrder, h: ProductHitView) -> int {
    match order {
        SortOrder::Relevance => 0,
        SortOrder::PriceAsc => h.price as int,
        SortOrder::DiscountDesc => -(h.discount_pct as int),
    }
}

fn key_of(order: SortOrder, h: &ProductHit) -> (k: i64)
    ensures
        k == sort_key(order, h@),
{
    match order {
        SortOrder::Relevance => 0,
        SortOrder::PriceAsc => h.price,
        SortOrder::DiscountDesc => -(h.discount_pct as i64),
    }
}

/// `x` placed into `s` after the last element whose key is not larger
/// than its own (and before the larger ones at the end).
pub open spec fn insert_in_order(order: SortOrder, s: Seq<ProductHitView>, x: ProductHitView) -> Seq<ProductHitView>
    decreases s.len(),
{
    if s.len() == 0 || sort_key(order, s.last()) <= sort_key(order, x) {
        s.push(x)
    } else {
        insert_in_order(order, s.drop_last(), x).push(s.last())
    }
}

/// The stable sort of `s` by key: elements with equal keys keep their
/// relative order.
pub open spec fn stable_sort(order: SortOrder, s: Seq<ProductHitView>) -> Seq<ProductHitView>
    decreases s.len(),
{
    if s.len() == 0 {
        s
    } else {
        insert_in_order(order, stable_sort(order, s.drop_last()), s.last())
    }
}

/// Whether a product is within the price bound and has at least the
/// discount and the stock asked for.
pub open spec fn is_offer(h: ProductHitView, max_price: i64, discount_min: u32, stock_min: u32) -> bool {
    &&& h.price <= max_price
    &&& h.discount_pct >= discount_min
    &&& h.stock >= stock_min
}

/// The products of `s` that are offers, in their order.
pub open spec fn offers(s: Seq<ProductHitView>, max_price: i64, discount_min: u32, stock_min: u32) -> Seq<ProductHitView>
    decreases s.len(),
{
    if s.len() == 0 {
        s
    } else {
        let rest = offers(s.drop_last(), max_price, discount_min, stock_min);
        if is_offer(s.last(), max_price, discount_min, stock_min) {
            rest.push(s.last())
        } else {
            rest
        }
    }
}

/// `s` put in the given order.
pub open spec fn arranged(order: SortOrder, s: Seq<ProductHitView>) -> Seq<ProductHitView> {
    if order == SortOrder::Relevance {
        s
    } else {
        stable_sort(order, s)
    }
}

/// The first `limit` elements of `s`, or all of them when there are fewer.
pub open spec fn at_most(s: Seq<ProductHitView>, limit: nat) -> Seq<ProductHitView> {
    if s.len() <= limit {
        s
    } else {
        s.take(limit as int)
    }
}

/// `x` placed at `j` is `x` placed in order, when all elements from `j` on
/// have larger keys and the one before `j` (if any) does not.
proof fn lemma_insert_at(order: SortOrder, s: Seq<ProductHitView>, x: ProductHitView, j: int)
    requires
        0 <= j <= s.len(),
        forall|k: int| j <= k < s.len() ==> sort_key(order, #[trigger] s[k]) > sort_key(order, x),
        j == 0 || sort_key(order, s[j - 1]) <= sort_key(order, x),
    ensures
        insert_in_order(order, s, x) == s.insert(j, x),
    decreases s.len(),
{
    if s.len() == j {
        assert(s.push(x) =~= s.insert(j, x));
    } else {
        assert(sort_key(order, s[s.len() - 1]) > sort_key(order, x));
        let d = s.drop_last();
        assert forall|k: int| j <= k < d.len() implies sort_key(order, #[trigger] d[k]) > sort_key(order, x) by {
            assert(d[k] == s[k]);
        }
        lemma_insert_at(order, d, x, j);
        assert(d.insert(j, x).push(s.last()) =~= s.insert(j, x));
    }
}

/// Moves the products that are offers into a new list, in their order.
pub fn keep_offers(items: Vec<ProductHit>, max_price: i64, discount_min: u32, stock_min: u32) -> (kept: Vec<ProductHit>)
    ensures
        hit_views(kept@) == offers(hit_views(items@), max_price, discount_min, stock_min),
        forall|i: int|
            0 <= i < kept@.len() ==> (#[trigger] kept@[i]).price <= max_price && kept@[i].discount_pct
                >= discount_min && kept@[i].stock >= stock_min && hit_views(items@).contains(kept@[i]@),
        forall|j: int|
            0 <= j < items@.len() && (#[trigger] items@[j]).price <= max_price && items@[j].discount_pct
                >= discount_min && items@[j].stock >= stock_min ==> hit_views(kept@).contains(items@[j]@),
{
    proof {
        lemma_offers_are_offers(hit_views(items@), max_price, discount_min, stock_min);
        lemma_offers_keep_every_offer(hit_views(items@), max_price, discount_min, stock_min);
        lemma_offers_are_in_list(hit_views(items@), max_price, discount_min, stock_min);
    }
    let ghost all = hit_views(items@);
    let n = items.len();
    let mut rest = items;
    let mut kept: Vec<ProductHit> = Vec::new();
    for i in 0..n
        invariant
            n == all.len(),
            all == hit_views(items@),
            rest@ == items@.skip(i as int),
            hit_views(kept@) == offers(all.take(i as int), max_price, discount_min, stock_min),
    {
        assert(all.take(i + 1).drop_last() =~= all.take(i as int));
        assert(all.take(i + 1).last() == items@[i as int]@);
        let h = rest.remove(0);
        assert(rest@ =~= items@.skip(i + 1));
        if h.price <= max_price && h.discount_pct >= discount_min && h.stock >= stock_min {
            kept.push(h);
        }
        assert(hit_views(kept@) =~= offers(all.take(i + 1), max_price, discount_min, stock_min));
    }
    assert(all.take(n as int) =~= all);
    proof {
        let o = offers(all, max_price, discount_min, stock_min);
        assert forall|i: int| 0 <= i < kept@.len() implies (#[trigger] kept@[i]).price <= max_price && kept@[i].discount_pct
            >= discount_min && kept@[i].stock >= stock_min && all.contains(kept@[i]@) by {
            assert(o[i] == kept@[i]@);
        }
        assert forall|j: int|
            0 <= j < items@.len() && (#[trigger] items@[j]).price <= max_price && items@[j].discount_pct
                >= discount_min && items@[j].stock >= stock_min implies hit_views(kept@).contains(items@[j]@) by {
            assert(all[j] == items@[j]@);
        }
    }
    kept
}

/// Sorts the products stably by the key of `order`.
pub fn sort_products(items: Vec<ProductHit>, order: SortOrder) -> (sorted: Vec<ProductHit>)
    ensures
        hit_views(sorted@) == stable_sort(order, hit_views(items@)),
        is_ordered(order, hit_views(sorted@)),
        hit_views(sorted@).to_multiset() == hit_views(items@).to_multiset(),
        forall|k: int| with_key(order, hit_views(sorted@), k) == with_key(order, hit_views(items@), k),
{
    proof {
        lemma_stable_sort_orders_and_permutes(order, hit_views(items@));
        assert forall|k: int| with_key(order, stable_sort(order, hit_views(items@)), k) == with_key(order, hit_views(items@), k) by {
            lemma_stable_sort_keeps_ties_in_order(order, hit_views(items@), k);
        }
    }
    let ghost all = hit_views(items@);
    let n = items.len();
    let mut rest = items;
    let mut sorted: Vec<ProductHit> = Vec::new();
    for i in 0..n
        invariant
            n == all.len(),
            all == hit_views(items@),
            rest@ == items@.skip(i as int),
            hit_views(sorted@) == stable_sort(order, all.take(i as int)),
    {
        assert(all.take(i + 1).drop_last() =~= all.take(i as int));
        assert(all.take(i + 1).last() == items@[i as int]@);
        let x = rest.remove(0);
        assert(rest@ =~= items@.skip(i + 1));
        let kx = key_of(order, &x);
        let mut j = sorted.len();
        while j > 0 && key_of(order, &sorted[j - 1]) > kx
            invariant
                j <= sorted@.len(),
                kx == sort_key(order, x@),
                forall|k: int| j <= k < sorted@.len() ==> sort_key(order, #[trigger] sorted@[k]@) > kx,
            decreases j,
        {
            j = j - 1;
        }
        let ghost before = hit_views(sorted@);
        proof {
            assert forall|k: int| j <= k < before.len() implies sort_key(order, #[trigger] before[k]) > sort_key(order, x@) by {
                assert(before[k] == sorted@[k]@);
            }
            if j > 0 {
                assert(before[j - 1] == sorted@[j - 1]@);
            }
            lemma_insert_at(order, before, x@, j as int);
        }
        sorted.insert(j, x);
        assert(hit_views(sorted@) =~= before.insert(j as int, x@));
    }
    assert(all.take(n as int) =~= all);
    sorted
}

/// Keeps the first `limit` products.
pub fn first_products(items: Vec<ProductHit>, limit: usize) -> (firsts: Vec<ProductHit>)
    ensures
        hit_views(firsts@) == at_most(hit_views(items@), limit as nat),
        firsts@.len() == (if items@.len() <= limit { items@.len() } else { limit as nat }),
        forall|i: int| 0 <= i < firsts@.len() ==> #[trigger] firsts@[i] == items@[i],
{
    let mut items = items;
    let ghost all = hit_views(items@);
    if items.len() > limit {
        items.truncate(limit);
        assert(hit_views(items@) =~= all.take(limit as int));
    }
    items
}


/// The brand that the built-in products are shown under: the first brand
/// of the filter, or `nike` when there is none.
pub open spec fn catalog_brand(r: SearchRequest) -> Seq<char> {
    match r.brand_filter() {
        Some(b) => if b.len() > 0 { b[0] } else { "nike"@ },
        None => "nike"@,
    }
}

/// Whether the built-in catalog answers a search: the query, if any, must
/// mention `nike` once taken to lowercase, and the category (default
/// `shoes`) must be `shoes` regardless of ASCII case.
pub open spec fn catalog_applies(r: SearchRequest) -> bool {
    &&& match r.query_text() {
        Some(q) => contains_text(lower_text(q), "nike"@),
        None => true,
    }
    &&& same_ignoring_ascii_case(text_or(r.category_filter(), "shoes"@), "shoes"@)
}

/// The first built-in product, in the brand, color and size asked for.
pub open spec fn pegasus_view(brand: Seq<char>, color: Seq<char>, size: Seq<char>) -> ProductHitView {
    ProductHitView {
        sku: "nike-pg40-royal"@,
        name: "Nike Air Zoom Pegasus 40"@,
        brand: brand,
        color: color,
        size: size,
        price: 4999,
        original_price: 8999,
        discount_pct: 44,
        stock: 18,
        image_url: "https://i5.walmartimages.com/asr/example1.jpg"@,
        redirect_url: "https://www.walmart.com/ip/456789123"@,
    }
}

/// The second built-in product, in the brand and size asked for.
pub open spec fn revolution_view(brand: Seq<char>, size: Seq<char>) -> ProductHitView {
    ProductHitView {
        sku: "nike-rev7-game"@,
        name: "Nike Revolution 7"@,
        brand: brand,
        color: "game-royal"@,
        size: size,
        price: 3800,
        original_price: 5500,
        discount_pct: 31,
        stock: 5,
        image_url: "https://i5.walmartimages.com/asr/example2.jpg"@,
        redirect_url: "https://www.walmart.com/ip/987654321"@,
    }
}

/// The built-in products that a search sees before any filtering.
pub open spec fn catalog_for(r: SearchRequest) -> Seq<ProductHitView> {
    if catalog_applies(r) {
        seq![
            pegasus_view(catalog_brand(r), text_or(r.color_filter(), "royal-blue"@), text_or(r.size_filter(), "9"@)),
            revolution_view(catalog_brand(r), text_or(r.size_filter(), "9"@)),
        ]
    } else {
        Seq::empty()
    }
}

/// The price bound of a search in hundredths; 60.00 when none is given.
pub open spec fn fallback_price_max(r: SearchRequest) -> i64 {
    match r.price_max_filter() {
        Some(m) => m,
        None => 6000,
    }
}

/// The least discount of a search; 0 when none is given.
pub open spec fn discount_floor(r: SearchRequest) -> u32 {
    match r.discount_min_filter() {
        Some(d) => d,
        None => 0,
    }
}

/// The least stock of a search; 0 when none is given.
pub open spec fn stock_floor(r: SearchRequest) -> u32 {
    match r.stock_min_filter() {
        Some(s) => s,
        None => 0,
    }
}

/// The answer of the built-in catalog to a search: its products that are
/// offers under the search's bounds, in the order asked for, at most as
/// many as the search's limit.
pub open spec fn fallback_results(r: SearchRequest) -> Seq<ProductHitView> {
    at_most(
        arranged(
            sort_order_of(r.sort_text()),
            offers(catalog_for(r), fallback_price_max(r), discount_floor(r), stock_floor(r)),
        ),
        r.result_limit() as nat,
    )
}

/// Answers a search from the built-in catalog.
pub fn fallback_products(request: &SearchRequest) -> (hits: Vec<ProductHit>)
    ensures
        hit_views(hits@) == fallback_results(*request),
        // Only shoes are in the built-in catalog, and only Nike ones.
        ascii_lowercase(text_or(request.category_filter(), "shoes"@)) != "shoes"@ ==> hits@.len() == 0,
        (match request.query_text() {
            Some(q) => !contains_text(lower_text(q), "nike"@),
            None => false,
        }) ==> hits@.len() == 0,
        ({
            let given = hit_views(hits@);
            let catalog = catalog_for(*request);
            &&& given.len() <= request.result_limit()
            &&& forall|i: int| 0 <= i < given.len() ==> within_search_bounds(#[trigger] given[i], *request) && catalog.contains(given[i])
            &&& forall|j: int|
                0 <= j < catalog.len() && within_search_bounds(#[trigger] catalog[j], *request) && !given.contains(catalog[j])
                    ==> given.len() == request.result_limit()
            &&& request.sort_text() == Some("price_asc"@) ==> forall|i: int, j: int|
                0 <= i < j < given.len() ==> (#[trigger] given[i]).price <= (#[trigger] given[j]).price
            &&& request.sort_text() == Some("discount_desc"@) ==> forall|i: int, j: int|
                0 <= i < j < given.len() ==> (#[trigger] given[i]).discount_pct >= (#[trigger] given[j]).discount_pct
        }),
        answers_with_best_offers(
            sort_order_of(request.sort_text()),
            hit_views(hits@),
            offers(catalog_for(*request), fallback_price_max(*request), discount_floor(*request), stock_floor(*request)),
            request.result_limit() as nat,
        ),
{
    proof {
        lemma_fallback_answers_with_best_offers(*request);
        lemma_fallback_answer_within_bounds(*request);
        reveal_strlit("shoes");
        assert(ascii_lowercase("shoes"@) =~= "shoes"@);
        crate::text::lemma_same_ignoring_case_is_equal_lowercase(
            text_or(request.category_filter(), "shoes"@),
            "shoes"@,
        );
        if !catalog_applies(*request) {
            assert(catalog_for(*request).len() == 0);
            assert(offers(catalog_for(*request), fallback_price_max(*request), discount_floor(*request), stock_floor(*request)).len() == 0);
        }
    }
    let limit = result_limit(request) as usize;
    let order = sort_order(request);
    let (brand, color, size, category, max_price, discount_min, stock_min) = match &request.filters {
        Some(f) => {
            let brand = match &f.brand {
                Some(b) => if b.len() > 0 {
                    b[0].clone()
                } else {
                    String::from_str("nike")
                },
                None => String::from_str("nike"),
            };
            let max_price: i64 = match &f.price {
                Some(p) => match p.max {
                    Some(m) => m,
                    None => 6000,
                },
                None => 6000,
            };
            let discount_min: u32 = match f.discount_min {
                Some(d) => d,
                None => 0,
            };
            let stock_min: u32 = match f.stock_min {
                Some(s) => s,
                None => 0,
            };
            (
                brand,
                String::from_str(text_or_default(&f.color, "royal-blue")),
                String::from_str(text_or_default(&f.size, "9")),
                text_or_default(&f.category, "shoes"),
                max_price,
                discount_min,
                stock_min,
            )
        },
        None => (
            String::from_str("nike"),
            String::from_str("royal-blue"),
            String::from_str("9"),
            "shoes",
            6000i64,
            0u32,
            0u32,
        ),
    };
    assert(brand@ == catalog_brand(*request));
    assert(color@ == text_or(request.color_filter(), "royal-blue"@));
    assert(size@ == text_or(request.size_filter(), "9"@));
    assert(category@ == text_or(request.category_filter(), "shoes"@));
    let matches_query = match &request.query {
        Some(q) => text_contains(lowercased(q.as_str()).as_str(), "nike"),
        None => true,
    };
    let mut items: Vec<ProductHit> = Vec::new();
    if matches_query && eq_ignore_ascii_case(category, "shoes") {
        items.push(ProductHit {
            sku: String::from_str("nike-pg40-royal"),
            name: String::from_str("Nike Air Zoom Pegasus 40"),
            brand: brand.clone(),
            color: color,
            size: size.clone(),
            price: 4999,
            original_price: 8999,
            discount_pct: 44,
            stock: 18,
            image_url: String::from_str("https://i5.walmartimages.com/asr/example1.jpg"),
            redirect_url: String::from_str("https://www.walmart.com/ip/456789123"),
        });
        items.push(ProductHit {
            sku: String::from_str("nike-rev7-game"),
            name: String::from_str("Nike Revolution 7"),
            brand: brand,
            color: String::from_str("game-royal"),
            size: size,
            price: 3800,
            original_price: 5500,
            discount_pct: 31,
            stock: 5,
            image_url: String::from_str("https://i5.walmartimages.com/asr/example2.jpg"),
            redirect_url: String::from_str("https://www.walmart.com/ip/987654321"),
        });
    }
    assert(hit_views(items@) =~= catalog_for(*request));
    let filtered = keep_offers(items, max_price, discount_min, stock_min);
    let ordered = match order {
        SortOrder::Relevance => filtered,
        _ => sort_products(filtered, order),
    };
    first_products(ordered, limit)
}


/// Whether `given` answers a search over `offers` with at most `limit`
/// products: as many as the limit allows, each one an offer; in the order
/// of the offers when none is asked; and, when an order is asked, in that
/// order and the first ones in it, so that no offer left out comes before
/// one that is given.
pub open spec fn answers_with_best_offers(
    order: SortOrder,
    given: Seq<ProductHitView>,
    offers: Seq<ProductHitView>,
    limit: nat,
) -> bool {
    &&& given.len() == (if offers.len() <= limit { offers.len() } else { limit })
    &&& forall|i: int| 0 <= i < given.len() ==> offers.contains(#[trigger] given[i])
    &&& order == SortOrder::Relevance ==> forall|i: int| 0 <= i < given.len() ==> #[trigger] given[i] == offers[i]
    &&& order != SortOrder::Relevance ==> {
        &&& forall|i: int, j: int|
            0 <= i < j < given.len() ==> sort_key(order, #[trigger] given[i]) <= sort_key(order, #[trigger] given[j])
        &&& forall|i: int, j: int|
            0 <= i < given.len() && 0 <= j < offers.len() && sort_key(order, #[trigger] offers[j]) < sort_key(
                order,
                #[trigger] given[i],
            ) ==> given.contains(offers[j])
    }
}

/// Whether `s` is in the given order: keys never decrease along it.
pub open spec fn is_ordered(order: SortOrder, s: Seq<ProductHitView>) -> bool {
    forall|i: int, j: int|
        0 <= i < j < s.len() ==> sort_key(order, #[trigger] s[i]) <= sort_key(order, #[trigger] s[j])
}

/// Where `insert_in_order` places `x` in `s`.
pub open spec fn insert_position(order: SortOrder, s: Seq<ProductHitView>, x: ProductHitView) -> int
    decreases s.len(),
{
    if s.len() == 0 || sort_key(order, s.last()) <= sort_key(order, x) {
        s.len() as int
    } else {
        insert_position(order, s.drop_last(), x)
    }
}

proof fn lemma_insert_position(order: SortOrder, s: Seq<ProductHitView>, x: ProductHitView)
    ensures
        0 <= insert_position(order, s, x) <= s.len(),
        forall|k: int|
            insert_position(order, s, x) <= k < s.len() ==> sort_key(order, #[trigger] s[k]) > sort_key(order, x),
        insert_position(order, s, x) == 0
            || sort_key(order, s[insert_position(order, s, x) - 1]) <= sort_key(order, x),
    decreases s.len(),
{
    if s.len() == 0 || sort_key(order, s.last()) <= sort_key(order, x) {
    } else {
        let d = s.drop_last();
        lemma_insert_position(order, d, x);
        let p = insert_position(order, s, x);
        assert forall|k: int| p <= k < s.len() implies sort_key(order, #[trigger] s[k]) > sort_key(order, x) by {
            if k < d.len() {
                assert(s[k] == d[k]);
            }
        }
        if p > 0 {
            assert(s[p - 1] == d[p - 1]);
        }
    }
}

/// A stable sort puts its input in order and keeps every element, each as
/// many times as it occurs (the result is a permutation of the input).
pub proof fn lemma_stable_sort_orders_and_permutes(order: SortOrder, s: Seq<ProductHitView>)
    ensures
        is_ordered(order, stable_sort(order, s)),
        stable_sort(order, s).to_multiset() == s.to_multiset(),
    decreases s.len(),
{
    broadcast use vstd::seq_lib::to_multiset_build, vstd::seq_lib::to_multiset_insert;

    if s.len() == 0 {
    } else {
        let d = s.drop_last();
        let x = s.last();
        lemma_stable_sort_orders_and_permutes(order, d);
        let r = stable_sort(order, d);
        lemma_insert_position(order, r, x);
        let p = insert_position(order, r, x);
        lemma_insert_at(order, r, x, p);
        let t = r.insert(p, x);
        assert(stable_sort(order, s) == t);
        assert forall|i: int, j: int| 0 <= i < j < t.len() implies
            sort_key(order, #[trigger] t[i]) <= sort_key(order, #[trigger] t[j]) by {
            if j < p {
                assert(t[i] == r[i] && t[j] == r[j]);
            } else if j == p {
                assert(t[i] == r[i]);
                assert(sort_key(order, r[p - 1]) <= sort_key(order, x));
                if i < p - 1 {
                    assert(sort_key(order, r[i]) <= sort_key(order, r[p - 1]));
                }
            } else if i < p {
                assert(t[i] == r[i] && t[j] == r[j - 1]);
                assert(sort_key(order, r[j - 1]) > sort_key(order, x));
                if p > 0 {
                    assert(sort_key(order, r[p - 1]) <= sort_key(order, x));
                }
            } else if i == p {
                assert(t[j] == r[j - 1]);
            } else {
                assert(t[i] == r[i - 1] && t[j] == r[j - 1]);
            }
        }
        assert(d.push(x) =~= s);
        assert(t.to_multiset() == r.to_multiset().insert(x));
    }
}

/// Every product that `offers` keeps is an offer, and none is added.
pub proof fn lemma_offers_are_offers(s: Seq<ProductHitView>, max_price: i64, discount_min: u32, stock_min: u32)
    ensures
        offers(s, max_price, discount_min, stock_min).len() <= s.len(),
        forall|i: int|
            0 <= i < offers(s, max_price, discount_min, stock_min).len() ==> is_offer(
                #[trigger] offers(s, max_price, discount_min, stock_min)[i],
                max_price,
                discount_min,
                stock_min,
            ),
    decreases s.len(),
{
    if s.len() > 0 {
        lemma_offers_are_offers(s.drop_last(), max_price, discount_min, stock_min);
    }
}

/// The answer of the built-in catalog holds at most as many products as the
/// search's limit, each within the search's price bound and with at least
/// the discount and stock asked for, and, when an order is asked for, in
/// that order.
pub proof fn lemma_fallback_results_meet_the_search(r: SearchRequest)
    ensures
        fallback_results(r).len() <= r.result_limit(),
        forall|i: int|
            0 <= i < fallback_results(r).len() ==> is_offer(
                #[trigger] fallback_results(r)[i],
                fallback_price_max(r),
                discount_floor(r),
                stock_floor(r),
            ),
        sort_order_of(r.sort_text()) != SortOrder::Relevance ==> is_ordered(
            sort_order_of(r.sort_text()),
            fallback_results(r),
        ),
{
    broadcast use vstd::seq_lib::to_multiset_contains;

    let order = sort_order_of(r.sort_text());
    let o = offers(catalog_for(r), fallback_price_max(r), discount_floor(r), stock_floor(r));
    lemma_offers_are_offers(catalog_for(r), fallback_price_max(r), discount_floor(r), stock_floor(r));
    let a = arranged(order, o);
    assert forall|i: int| 0 <= i < a.len() implies is_offer(
        #[trigger] a[i],
        fallback_price_max(r),
        discount_floor(r),
        stock_floor(r),
    ) by {
        if order != SortOrder::Relevance {
            lemma_stable_sort_orders_and_permutes(order, o);
            assert(a.to_multiset().count(a[i]) > 0);
            assert(o.to_multiset().count(a[i]) > 0);
            let k = choose|k: int| 0 <= k < o.len() && o[k] == a[i];
            assert(is_offer(o[k], fallback_price_max(r), discount_floor(r), stock_floor(r)));
        }
    }
    if order != SortOrder::Relevance {
        lemma_stable_sort_orders_and_permutes(order, o);
    }
    let f = fallback_results(r);
    assert forall|i: int| 0 <= i < f.len() implies is_offer(
        #[trigger] f[i],
        fallback_price_max(r),
        discount_floor(r),
        stock_floor(r),
    ) by {
        assert(f[i] == a[i]);
    }
    if order != SortOrder::Relevance {
        assert forall|i: int, j: int| 0 <= i < j < f.len() implies
            sort_key(order, #[trigger] f[i]) <= sort_key(order, #[trigger] f[j]) by {
            assert(f[i] == a[i] && f[j] == a[j]);
        }
    }
}


/// The built-in catalog answers with the best offers: as many as the limit
/// allows, and, when an order is asked, the first ones in that order among
/// all the offers (the limit is applied after ordering).
pub proof fn lemma_fallback_answers_with_best_offers(r: SearchRequest)
    ensures
        answers_with_best_offers(
            sort_order_of(r.sort_text()),
            fallback_results(r),
            offers(catalog_for(r), fallback_price_max(r), discount_floor(r), stock_floor(r)),
            r.result_limit() as nat,
        ),
{
    broadcast use vstd::seq_lib::to_multiset_contains, vstd::seq_lib::to_multiset_len;

    let order = sort_order_of(r.sort_text());
    let o = offers(catalog_for(r), fallback_price_max(r), discount_floor(r), stock_floor(r));
    let limit = r.result_limit() as nat;
    let f = fallback_results(r);
    if order == SortOrder::Relevance {
        assert forall|i: int| 0 <= i < f.len() implies o.contains(#[trigger] f[i]) by {
            assert(f[i] == o[i]);
        }
    } else {
        let s = stable_sort(order, o);
        lemma_stable_sort_orders_and_permutes(order, o);
        assert(s.len() == s.to_multiset().len());
        assert(o.len() == o.to_multiset().len());
        assert forall|i: int| 0 <= i < f.len() implies o.contains(#[trigger] f[i]) by {
            assert(f[i] == s[i]);
            assert(s.to_multiset().count(s[i]) > 0);
        }
        assert forall|i: int, j: int| 0 <= i < j < f.len() implies sort_key(order, #[trigger] f[i]) <= sort_key(
            order,
            #[trigger] f[j],
        ) by {
            assert(f[i] == s[i] && f[j] == s[j]);
        }
        assert forall|i: int, j: int|
            0 <= i < f.len() && 0 <= j < o.len() && sort_key(order, #[trigger] o[j]) < sort_key(
                order,
                #[trigger] f[i],
            ) implies f.contains(o[j]) by {
            assert(o.to_multiset().count(o[j]) > 0);
            assert(s.contains(o[j]));
            let p = choose|p: int| 0 <= p < s.len() && s[p] == o[j];
            assert(f[i] == s[i]);
            if p >= i {
                if p > i {
                    assert(sort_key(order, s[i]) <= sort_key(order, s[p]));
                }
                assert(false);
            }
            assert(f[p] == s[p]);
        }
    }
}


/// Every offer of a list is kept by `offers`.
pub proof fn lemma_offers_keep_every_offer(s: Seq<ProductHitView>, max_price: i64, discount_min: u32, stock_min: u32)
    ensures
        forall|j: int|
            0 <= j < s.len() && is_offer(#[trigger] s[j], max_price, discount_min, stock_min) ==> offers(
                s,
                max_price,
                discount_min,
                stock_min,
            ).contains(s[j]),
    decreases s.len(),
{
    if s.len() > 0 {
        let d = s.drop_last();
        lemma_offers_keep_every_offer(d, max_price, discount_min, stock_min);
        let o = offers(s, max_price, discount_min, stock_min);
        let od = offers(d, max_price, discount_min, stock_min);
        assert forall|j: int| 0 <= j < s.len() && is_offer(#[trigger] s[j], max_price, discount_min, stock_min) implies o.contains(s[j]) by {
            if j < s.len() - 1 {
                assert(d[j] == s[j]);
                let k = choose|k: int| 0 <= k < od.len() && od[k] == d[j];
                if is_offer(s.last(), max_price, discount_min, stock_min) {
                    assert(o == od.push(s.last()));
                    assert(o[k] == od[k]);
                } else {
                    assert(o == od);
                }
            } else {
                assert(o == od.push(s.last()));
                assert(o[od.len() as int] == s.last());
            }
        }
    }
}

/// Whether a product is within a search's bounds: its price at most the
/// price bound (60.00 when none is given), its discount and stock at least
/// the minimums (none when not given).
pub open spec fn within_search_bounds(h: ProductHitView, r: SearchRequest) -> bool {
    &&& h.price <= (match r.price_max_filter() {
        Some(m) => m,
        None => 6000i64,
    })
    &&& h.discount_pct >= (match r.discount_min_filter() {
        Some(d) => d,
        None => 0u32,
    })
    &&& h.stock >= (match r.stock_min_filter() {
        Some(s) => s,
        None => 0u32,
    })
}

/// The built-in answer to a search: every product given is one of the
/// catalog's, within the search's bounds; a catalog product within the
/// bounds is left out only when the answer is already as long as the
/// limit; and the products come cheapest first for `price_asc`, largest
/// discount first for `discount_desc`.
pub proof fn lemma_fallback_answer_within_bounds(r: SearchRequest)
    ensures
        ({
            let given = fallback_results(r);
            let catalog = catalog_for(r);
            &&& given.len() <= r.result_limit()
            &&& forall|i: int| 0 <= i < given.len() ==> within_search_bounds(#[trigger] given[i], r) && catalog.contains(given[i])
            &&& forall|j: int|
                0 <= j < catalog.len() && within_search_bounds(#[trigger] catalog[j], r) && !given.contains(catalog[j])
                    ==> given.len() == r.result_limit()
            &&& r.sort_text() == Some("price_asc"@) ==> forall|i: int, j: int|
                0 <= i < j < given.len() ==> (#[trigger] given[i]).price <= (#[trigger] given[j]).price
            &&& r.sort_text() == Some("discount_desc"@) ==> forall|i: int, j: int|
                0 <= i < j < given.len() ==> (#[trigger] given[i]).discount_pct >= (#[trigger] given[j]).discount_pct
        }),
{
    let given = fallback_results(r);
    let catalog = catalog_for(r);
    let (m, d, k) = (fallback_price_max(r), discount_floor(r), stock_floor(r));
    let o = offers(catalog, m, d, k);
    let order = sort_order_of(r.sort_text());
    lemma_fallback_answers_with_best_offers(r);
    lemma_offers_are_offers(catalog, m, d, k);
    lemma_offers_keep_every_offer(catalog, m, d, k);
    lemma_offers_are_in_list(catalog, m, d, k);
    assert forall|i: int| 0 <= i < given.len() implies within_search_bounds(#[trigger] given[i], r) && catalog.contains(given[i]) by {
        assert(o.contains(given[i]));
        let p = choose|p: int| 0 <= p < o.len() && o[p] == given[i];
        assert(is_offer(o[p], m, d, k));
        assert(catalog.contains(o[p]));
    }
    assert forall|j: int|
        0 <= j < catalog.len() && within_search_bounds(#[trigger] catalog[j], r) && !given.contains(catalog[j]) implies
        given.len() == r.result_limit() by {
        assert(is_offer(catalog[j], m, d, k));
        assert(o.contains(catalog[j]));
        if given.len() < r.result_limit() {
            assert(given.len() == o.len());
            let p = choose|p: int| 0 <= p < o.len() && o[p] == catalog[j];
            if order == SortOrder::Relevance {
                assert(given[p] == o[p]);
            } else {
                broadcast use vstd::seq_lib::to_multiset_contains;
                lemma_stable_sort_orders_and_permutes(order, o);
                assert(given == stable_sort(order, o));
                assert(o.to_multiset().count(o[p]) > 0);
            }
        }
    }
    reveal_strlit("price_asc");
    reveal_strlit("discount_desc");
    assert("price_asc"@.len() != "discount_desc"@.len());
    if r.sort_text() == Some("price_asc"@) {
        assert(order == SortOrder::PriceAsc);
        assert forall|i: int, j: int| 0 <= i < j < given.len() implies (#[trigger] given[i]).price
            <= (#[trigger] given[j]).price by {
            assert(sort_key(order, given[i]) <= sort_key(order, given[j]));
        }
    }
    if r.sort_text() == Some("discount_desc"@) {
        assert(order == SortOrder::DiscountDesc);
        assert forall|i: int, j: int| 0 <= i < j < given.len() implies (#[trigger] given[i]).discount_pct
            >= (#[trigger] given[j]).discount_pct by {
            assert(sort_key(order, given[i]) <= sort_key(order, given[j]));
        }
    }
}

/// Every product that `offers` keeps is one of the list.
pub proof fn lemma_offers_are_in_list(s: Seq<ProductHitView>, max_price: i64, discount_min: u32, stock_min: u32)
    ensures
        forall|i: int|
            0 <= i < offers(s, max_price, discount_min, stock_min).len() ==> s.contains(
                #[trigger] offers(s, max_price, discount_min, stock_min)[i],
            ),
    decreases s.len(),
{
    if s.len() > 0 {
        let d = s.drop_last();
        lemma_offers_are_in_list(d, max_price, discount_min, stock_min);
        let o = offers(s, max_price, discount_min, stock_min);
        let od = offers(d, max_price, discount_min, stock_min);
        assert forall|i: int| 0 <= i < o.len() implies s.contains(#[trigger] o[i]) by {
            if i < od.len() {
                assert(o[i] == od[i]);
                let k = choose|k: int| 0 <= k < d.len() && d[k] == od[i];
                assert(s[k] == d[k]);
            } else {
                assert(o[i] == s.last());
                assert(s[s.len() - 1] == s.last());
            }
        }
    }
}


/// The elements of `s` whose key is `k`, in their order.
pub open spec fn with_key(order: SortOrder, s: Seq<ProductHitView>, k: int) -> Seq<ProductHitView>
    decreases s.len(),
{
    if s.len() == 0 {
        s
    } else {
        let rest = with_key(order, s.drop_last(), k);
        if sort_key(order, s.last()) == k {
            rest.push(s.last())
        } else {
            rest
        }
    }
}

proof fn lemma_insert_keeps_ties_in_order(order: SortOrder, t: Seq<ProductHitView>, x: ProductHitView, k: int)
    ensures
        with_key(order, insert_in_order(order, t, x), k) == (if sort_key(order, x) == k {
            with_key(order, t, k).push(x)
        } else {
            with_key(order, t, k)
        }),
    decreases t.len(),
{
    if t.len() == 0 || sort_key(order, t.last()) <= sort_key(order, x) {
        assert(t.push(x).drop_last() =~= t);
    } else {
        let d = t.drop_last();
        lemma_insert_keeps_ties_in_order(order, d, x, k);
        let u = insert_in_order(order, d, x);
        assert(u.push(t.last()).drop_last() =~= u);
    }
}

/// A stable sort keeps elements with equal keys in the order they came in:
/// for every key, the elements with that key appear in the result exactly
/// as in the input.
pub proof fn lemma_stable_sort_keeps_ties_in_order(order: SortOrder, s: Seq<ProductHitView>, k: int)
    ensures
        with_key(order, stable_sort(order, s), k) == with_key(order, s, k),
    decreases s.len(),
{
    if s.len() > 0 {
        lemma_stable_sort_keeps_ties_in_order(order, s.drop_last(), k);
        lemma_insert_keeps_ties_in_order(order, stable_sort(order, s.drop_last()), s.last(), k);
    }
}

} // verus!

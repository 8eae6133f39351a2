//! What the catalog database is asked: the search query, the product rows it
//! answers with, the values of a product upsert, and the course of an
//! ingestion run.
//!
//! A query is given as the list of pieces that make it up, SQL text and
//! bound values in turn, in the order a query builder receives them; the
//! builder numbers the placeholders.
use vstd::prelude::*;
use vstd::string::*;
use crate::catalog::{sort_order, sort_order_of, SortOrder};
use crate::models::{page_number, result_limit, IngestProduct, ProductHit, ProductHitView, SearchRequest};
use crate::text::{lower_text, texts, lowercased, trim, trimmed};

verus! {

/// A value bound to a placeholder of a query. `Amount` is in hundredths.
#[derive(Clone, Debug, PartialEq)]
pub enum SqlValue {
    Text(String),
    TextList(Vec<String>),
    Int(i32),
    BigInt(i64),
    Amount(i64),
}

/// One piece of a query: SQL text, or a value bound in its place.
#[derive(Clone, Debug, PartialEq)]
pub enum SqlPiece {
    Sql(String),
    Bind(SqlValue),
}

/// The view of a bound value.
pub enum SqlValueView {
    Text(Seq<char>),
    TextList(Seq<Seq<char>>),
    Int(i32),
    BigInt(i64),
    Amount(i64),
}

/// The view of a query piece.
pub enum SqlPieceView {
    Sql(Seq<char>),
    Bind(SqlValueView),
}

impl View for SqlValue {
    type V = SqlValueView;

    open spec fn view(&self) -> SqlValueView {
        match self {
            SqlValue::Text(t) => SqlValueView::Text(t@),
            SqlValue::TextList(l) => SqlValueView::TextList(texts(l@)),
            SqlValue::Int(i) => SqlValueView::Int(*i),
            SqlValue::BigInt(i) => SqlValueView::BigInt(*i),
            SqlValue::Amount(a) => SqlValueView::Amount(*a),
        }
    }
}

impl View for SqlPiece {
    type V = SqlPieceView;

    open spec fn view(&self) -> SqlPieceView {
        match self {
            SqlPiece::Sql(t) => SqlPieceView::Sql(t@),
            SqlPiece::Bind(v) => SqlPieceView::Bind(v@),
        }
    }
}

/// The views of a list of query pieces.
pub open spec fn piece_views(v: Seq<SqlPiece>) -> Seq<SqlPieceView> {
    v.map_values(|p: SqlPiece| p@)
}

/// Each text taken to lowercase.
pub open spec fn lowercased_all(s: Seq<Seq<char>>) -> Seq<Seq<char>> {
    s.map_values(|t: Seq<char>| lower_text(t))
}

/// The text between `%` wildcards, for a pattern that finds it anywhere.
pub open spec fn anywhere_pattern(t: Seq<char>) -> Seq<char> {
    "%"@ + t + "%"@
}

/// The rows a search skips: those of the pages before the one asked for.
pub open spec fn search_offset(r: SearchRequest) -> int {
    let p = r.page_number() as int;
    (if p == 0 { 0 } else { p - 1 }) * (r.result_limit() as int)
}

/// The opening of the search query: the columns of a product hit, from the
/// active products.
pub open spec fn search_select_text() -> Seq<char> {
    "SELECT sku, name, brand, COALESCE(color, '') AS color, COALESCE(size, '') AS size, price::float8 AS price, COALESCE(original_price, price)::float8 AS original_price, COALESCE(discount_pct, 0) AS discount_pct, COALESCE(stock, 0) AS stock, COALESCE(image_url, '') AS image_url, walmart_url FROM products WHERE active = true"@
}

/// The condition on the free-text query, when it holds more than white space.
pub open spec fn query_condition(r: SearchRequest) -> Seq<SqlPieceView> {
    match r.query_text() {
        Some(q) => if trimmed(q).len() > 0 {
            seq![
                SqlPieceView::Sql(" AND (name ILIKE "@),
                SqlPieceView::Bind(SqlValueView::Text(anywhere_pattern(trimmed(q)))),
                SqlPieceView::Sql(" OR brand ILIKE "@),
                SqlPieceView::Bind(SqlValueView::Text(anywhere_pattern(trimmed(q)))),
                SqlPieceView::Sql(")"@),
            ]
        } else {
            Seq::empty()
        },
        None => Seq::empty(),
    }
}

/// The condition on the category, when one is given.
pub open spec fn category_condition(r: SearchRequest) -> Seq<SqlPieceView> {
    match r.category_filter() {
        Some(c) => seq![SqlPieceView::Sql(" AND category = "@), SqlPieceView::Bind(SqlValueView::Text(c))],
        None => Seq::empty(),
    }
}

/// The condition on the brands, when a list that is not empty is given:
/// the product's brand, in lowercase, must be one of them in lowercase.
pub open spec fn brand_condition(r: SearchRequest) -> Seq<SqlPieceView> {
    match r.brand_filter() {
        Some(b) => if b.len() > 0 {
            seq![
                SqlPieceView::Sql(" AND lower(brand) = ANY("@),
                SqlPieceView::Bind(SqlValueView::TextList(lowercased_all(b))),
                SqlPieceView::Sql(")"@),
            ]
        } else {
            Seq::empty()
        },
        None => Seq::empty(),
    }
}

/// The condition on the color, when one is given: it must occur in the
/// product's color, regardless of case.
pub open spec fn color_condition(r: SearchRequest) -> Seq<SqlPieceView> {
    match r.color_filter() {
        Some(c) => seq![
            SqlPieceView::Sql(" AND color ILIKE "@),
            SqlPieceView::Bind(SqlValueView::Text(anywhere_pattern(c))),
        ],
        None => Seq::empty(),
    }
}

/// The condition on the size, when one is given.
pub open spec fn size_condition(r: SearchRequest) -> Seq<SqlPieceView> {
    match r.size_filter() {
        Some(s) => seq![SqlPieceView::Sql(" AND size = "@), SqlPieceView::Bind(SqlValueView::Text(s))],
        None => Seq::empty(),
    }
}

/// The condition on the price, when a bound is given.
pub open spec fn price_condition(r: SearchRequest) -> Seq<SqlPieceView> {
    match r.price_max_filter() {
        Some(m) => seq![SqlPieceView::Sql(" AND price <= "@), SqlPieceView::Bind(SqlValueView::Amount(m))],
        None => Seq::empty(),
    }
}

/// The conditions on the least discount and the least stock, when given;
/// each bound is bound as a 32-bit signed number.
pub open spec fn minimum_conditions(r: SearchRequest) -> Seq<SqlPieceView> {
    (match r.discount_min_filter() {
        Some(d) => seq![
            SqlPieceView::Sql(" AND COALESCE(discount_pct, 0) >= "@),
            SqlPieceView::Bind(SqlValueView::Int(d as i32)),
        ],
        None => Seq::empty(),
    }) + (match r.stock_min_filter() {
        Some(s) => seq![
            SqlPieceView::Sql(" AND COALESCE(stock, 0) >= "@),
            SqlPieceView::Bind(SqlValueView::Int(s as i32)),
        ],
        None => Seq::empty(),
    })
}

/// The conditions of the filters, in a fixed order: category, brands,
/// color, size, price bound, least discount, least stock.
pub open spec fn filter_conditions(r: SearchRequest) -> Seq<SqlPieceView> {
    category_condition(r) + brand_condition(r) + color_condition(r) + size_condition(r)
        + price_condition(r) + minimum_conditions(r)
}

/// The ORDER BY clause of the order asked for; ties go by SKU.
pub open spec fn order_clause(order: SortOrder) -> Seq<char> {
    match order {
        SortOrder::PriceAsc => " ORDER BY price ASC, sku ASC"@,
        SortOrder::DiscountDesc => " ORDER BY discount_pct DESC, sku ASC"@,
        SortOrder::Relevance => " ORDER BY updated_at DESC, sku ASC"@,
    }
}

/// Every order the search query can take ends by SKU, so rows that tie on
/// the chosen column still come in one fixed order and pages do not
/// overlap.
pub proof fn lemma_search_order_breaks_ties_by_sku(order: SortOrder)
    ensures
        order_clause(order).len() >= 9,
        order_clause(order).skip(order_clause(order).len() - 9) == ", sku ASC"@,
{
    reveal_strlit(" ORDER BY price ASC, sku ASC");
    reveal_strlit(" ORDER BY discount_pct DESC, sku ASC");
    reveal_strlit(" ORDER BY updated_at DESC, sku ASC");
    reveal_strlit(", sku ASC");
    let c = order_clause(order);
    assert(c.skip(c.len() - 9) =~= ", sku ASC"@);
}

/// The whole search query: the opening, the conditions, the order, then the
/// page as LIMIT and OFFSET.
pub open spec fn search_query_pieces(r: SearchRequest) -> Seq<SqlPieceView> {
    seq![SqlPieceView::Sql(search_select_text())] + query_condition(r) + filter_conditions(r) + seq![
        SqlPieceView::Sql(order_clause(sort_order_of(r.sort_text()))),
        SqlPieceView::Sql(" LIMIT "@),
        SqlPieceView::Bind(SqlValueView::BigInt(r.result_limit() as i64)),
        SqlPieceView::Sql(" OFFSET "@),
        SqlPieceView::Bind(SqlValueView::BigInt(search_offset(r) as i64)),
    ]
}

/// Whether the query holds the SQL text `text` directly followed by the
/// bound value `v`.
pub open spec fn has_condition(q: Seq<SqlPieceView>, text: Seq<char>, v: SqlValueView) -> bool {
    exists|i: int|
        #![trigger q[i]]
        0 <= i && i + 1 < q.len() && q[i] == SqlPieceView::Sql(text) && q[i + 1] == SqlPieceView::Bind(v)
}

/// Every filter that a search gives shows up in the query as its own
/// condition, with its value bound, whatever the other filters are; and the
/// page shows up as LIMIT and OFFSET.
pub open spec fn query_states_search(r: SearchRequest, q: Seq<SqlPieceView>) -> bool {
    &&& (match r.query_text() {
        Some(t) => trimmed(t).len() > 0 ==> has_condition(
            q,
            " AND (name ILIKE "@,
            SqlValueView::Text("%"@ + trimmed(t) + "%"@),
        ),
        None => true,
    })
    &&& (match r.category_filter() {
        Some(c) => has_condition(q, " AND category = "@, SqlValueView::Text(c)),
        None => true,
    })
    &&& (match r.brand_filter() {
        Some(b) => b.len() > 0 ==> has_condition(
            q,
            " AND lower(brand) = ANY("@,
            SqlValueView::TextList(b.map_values(|t: Seq<char>| lower_text(t))),
        ),
        None => true,
    })
    &&& (match r.color_filter() {
        Some(c) => has_condition(q, " AND color ILIKE "@, SqlValueView::Text("%"@ + c + "%"@)),
        None => true,
    })
    &&& (match r.size_filter() {
        Some(z) => has_condition(q, " AND size = "@, SqlValueView::Text(z)),
        None => true,
    })
    &&& (match r.price_max_filter() {
        Some(m) => has_condition(q, " AND price <= "@, SqlValueView::Amount(m)),
        None => true,
    })
    &&& (match r.discount_min_filter() {
        Some(d) => has_condition(q, " AND COALESCE(discount_pct, 0) >= "@, SqlValueView::Int(d as i32)),
        None => true,
    })
    &&& (match r.stock_min_filter() {
        Some(m) => has_condition(q, " AND COALESCE(stock, 0) >= "@, SqlValueView::Int(m as i32)),
        None => true,
    })
    &&& has_condition(q, " LIMIT "@, SqlValueView::BigInt(r.result_limit() as i64))
    &&& has_condition(q, " OFFSET "@, SqlValueView::BigInt(search_offset(r) as i64))
    &&& q.contains(
        SqlPieceView::Sql(
            if r.sort_text() == Some("price_asc"@) {
                " ORDER BY price ASC, sku ASC"@
            } else if r.sort_text() == Some("discount_desc"@) {
                " ORDER BY discount_pct DESC, sku ASC"@
            } else {
                " ORDER BY updated_at DESC, sku ASC"@
            },
        ),
    )
}

proof fn lemma_has_condition_before(x: Seq<SqlPieceView>, y: Seq<SqlPieceView>, text: Seq<char>, v: SqlValueView)
    requires
        has_condition(x, text, v),
    ensures
        has_condition(x + y, text, v),
{
    let i = choose|i: int| #![trigger x[i]] 0 <= i && i + 1 < x.len() && x[i] == SqlPieceView::Sql(text) && x[i + 1] == SqlPieceView::Bind(v);
    assert((x + y)[i] == x[i]);
    assert((x + y)[i + 1] == x[i + 1]);
}

proof fn lemma_has_condition_after(x: Seq<SqlPieceView>, y: Seq<SqlPieceView>, text: Seq<char>, v: SqlValueView)
    requires
        has_condition(y, text, v),
    ensures
        has_condition(x + y, text, v),
{
    let i = choose|i: int| #![trigger y[i]] 0 <= i && i + 1 < y.len() && y[i] == SqlPieceView::Sql(text) && y[i + 1] == SqlPieceView::Bind(v);
    assert((x + y)[x.len() + i] == y[i]);
    assert((x + y)[x.len() + i + 1] == y[i + 1]);
}

proof fn lemma_pair_condition(p: Seq<SqlPieceView>, text: Seq<char>, v: SqlValueView, i: int)
    requires
        0 <= i && i + 1 < p.len(),
        p[i] == SqlPieceView::Sql(text),
        p[i + 1] == SqlPieceView::Bind(v),
    ensures
        has_condition(p, text, v),
{
}

/// A condition stated by the filters is stated by the whole query.
proof fn lemma_filters_in_query(r: SearchRequest, text: Seq<char>, v: SqlValueView)
    requires
        has_condition(filter_conditions(r), text, v),
    ensures
        has_condition(search_query_pieces(r), text, v),
{
    let head = seq![SqlPieceView::Sql(search_select_text())] + query_condition(r);
    lemma_has_condition_after(head, filter_conditions(r), text, v);
    lemma_has_condition_before(
        head + filter_conditions(r),
        seq![
            SqlPieceView::Sql(order_clause(sort_order_of(r.sort_text()))),
            SqlPieceView::Sql(" LIMIT "@),
            SqlPieceView::Bind(SqlValueView::BigInt(r.result_limit() as i64)),
            SqlPieceView::Sql(" OFFSET "@),
            SqlPieceView::Bind(SqlValueView::BigInt(search_offset(r) as i64)),
        ],
        text,
        v,
    );
}

/// A condition stated by one filter's part is stated by all the filters:
/// `k` counts the parts before it (category, brands, color, size, price,
/// then the minimums).
proof fn lemma_part_in_filters(r: SearchRequest, k: int, text: Seq<char>, v: SqlValueView)
    requires
        0 <= k < 6,
        has_condition(
            if k == 0 { category_condition(r) } else if k == 1 { brand_condition(r) } else if k == 2 {
                color_condition(r)
            } else if k == 3 { size_condition(r) } else if k == 4 { price_condition(r) } else {
                minimum_conditions(r)
            },
            text,
            v,
        ),
    ensures
        has_condition(filter_conditions(r), text, v),
{
    let c = category_condition(r);
    let b = brand_condition(r);
    let o = color_condition(r);
    let z = size_condition(r);
    let p = price_condition(r);
    let m = minimum_conditions(r);
    if k == 0 {
        lemma_has_condition_before(c, b, text, v);
        lemma_has_condition_before(c + b, o, text, v);
        lemma_has_condition_before(c + b + o, z, text, v);
        lemma_has_condition_before(c + b + o + z, p, text, v);
        lemma_has_condition_before(c + b + o + z + p, m, text, v);
    } else if k == 1 {
        lemma_has_condition_after(c, b, text, v);
        lemma_has_condition_before(c + b, o, text, v);
        lemma_has_condition_before(c + b + o, z, text, v);
        lemma_has_condition_before(c + b + o + z, p, text, v);
        lemma_has_condition_before(c + b + o + z + p, m, text, v);
    } else if k == 2 {
        lemma_has_condition_after(c + b, o, text, v);
        lemma_has_condition_before(c + b + o, z, text, v);
        lemma_has_condition_before(c + b + o + z, p, text, v);
        lemma_has_condition_before(c + b + o + z + p, m, text, v);
    } else if k == 3 {
        lemma_has_condition_after(c + b + o, z, text, v);
        lemma_has_condition_before(c + b + o + z, p, text, v);
        lemma_has_condition_before(c + b + o + z + p, m, text, v);
    } else if k == 4 {
        lemma_has_condition_after(c + b + o + z, p, text, v);
        lemma_has_condition_before(c + b + o + z + p, m, text, v);
    } else {
        lemma_has_condition_after(c + b + o + z + p, m, text, v);
    }
}

proof fn lemma_query_states_text(r: SearchRequest)
    ensures
        match r.query_text() {
            Some(t) => trimmed(t).len() > 0 ==> has_condition(
                search_query_pieces(r),
                " AND (name ILIKE "@,
                SqlValueView::Text("%"@ + trimmed(t) + "%"@),
            ),
            None => true,
        },
{
    if let Some(t) = r.query_text() {
        if trimmed(t).len() > 0 {
            let v = SqlValueView::Text("%"@ + trimmed(t) + "%"@);
            let head = seq![SqlPieceView::Sql(search_select_text())];
            lemma_pair_condition(query_condition(r), " AND (name ILIKE "@, v, 0);
            lemma_has_condition_after(head, query_condition(r), " AND (name ILIKE "@, v);
            lemma_has_condition_before(head + query_condition(r), filter_conditions(r), " AND (name ILIKE "@, v);
            lemma_has_condition_before(
                head + query_condition(r) + filter_conditions(r),
                seq![
                    SqlPieceView::Sql(order_clause(sort_order_of(r.sort_text()))),
                    SqlPieceView::Sql(" LIMIT "@),
                    SqlPieceView::Bind(SqlValueView::BigInt(r.result_limit() as i64)),
                    SqlPieceView::Sql(" OFFSET "@),
                    SqlPieceView::Bind(SqlValueView::BigInt(search_offset(r) as i64)),
                ],
                " AND (name ILIKE "@,
                v,
            );
        }
    }
}

proof fn lemma_query_states_category_and_brands(r: SearchRequest)
    ensures
        match r.category_filter() {
            Some(c) => has_condition(search_query_pieces(r), " AND category = "@, SqlValueView::Text(c)),
            None => true,
        },
        match r.brand_filter() {
            Some(b) => b.len() > 0 ==> has_condition(
                search_query_pieces(r),
                " AND lower(brand) = ANY("@,
                SqlValueView::TextList(b.map_values(|t: Seq<char>| lower_text(t))),
            ),
            None => true,
        },
{
    if let Some(c) = r.category_filter() {
        lemma_pair_condition(category_condition(r), " AND category = "@, SqlValueView::Text(c), 0);
        lemma_part_in_filters(r, 0, " AND category = "@, SqlValueView::Text(c));
        lemma_filters_in_query(r, " AND category = "@, SqlValueView::Text(c));
    }
    if let Some(b) = r.brand_filter() {
        if b.len() > 0 {
            assert(lowercased_all(b) =~= b.map_values(|t: Seq<char>| lower_text(t)));
            let v = SqlValueView::TextList(b.map_values(|t: Seq<char>| lower_text(t)));
            lemma_pair_condition(brand_condition(r), " AND lower(brand) = ANY("@, v, 0);
            lemma_part_in_filters(r, 1, " AND lower(brand) = ANY("@, v);
            lemma_filters_in_query(r, " AND lower(brand) = ANY("@, v);
        }
    }
}

proof fn lemma_query_states_color_size_price(r: SearchRequest)
    ensures
        match r.color_filter() {
            Some(c) => has_condition(search_query_pieces(r), " AND color ILIKE "@, SqlValueView::Text("%"@ + c + "%"@)),
            None => true,
        },
        match r.size_filter() {
            Some(z) => has_condition(search_query_pieces(r), " AND size = "@, SqlValueView::Text(z)),
            None => true,
        },
        match r.price_max_filter() {
            Some(m) => has_condition(search_query_pieces(r), " AND price <= "@, SqlValueView::Amount(m)),
            None => true,
        },
{
    if let Some(c) = r.color_filter() {
        lemma_pair_condition(color_condition(r), " AND color ILIKE "@, SqlValueView::Text("%"@ + c + "%"@), 0);
        lemma_part_in_filters(r, 2, " AND color ILIKE "@, SqlValueView::Text("%"@ + c + "%"@));
        lemma_filters_in_query(r, " AND color ILIKE "@, SqlValueView::Text("%"@ + c + "%"@));
    }
    if let Some(z) = r.size_filter() {
        lemma_pair_condition(size_condition(r), " AND size = "@, SqlValueView::Text(z), 0);
        lemma_part_in_filters(r, 3, " AND size = "@, SqlValueView::Text(z));
        lemma_filters_in_query(r, " AND size = "@, SqlValueView::Text(z));
    }
    if let Some(m) = r.price_max_filter() {
        lemma_pair_condition(price_condition(r), " AND price <= "@, SqlValueView::Amount(m), 0);
        lemma_part_in_filters(r, 4, " AND price <= "@, SqlValueView::Amount(m));
        lemma_filters_in_query(r, " AND price <= "@, SqlValueView::Amount(m));
    }
}

proof fn lemma_query_states_minimums_and_page(r: SearchRequest)
    ensures
        match r.discount_min_filter() {
            Some(d) => has_condition(search_query_pieces(r), " AND COALESCE(discount_pct, 0) >= "@, SqlValueView::Int(d as i32)),
            None => true,
        },
        match r.stock_min_filter() {
            Some(m) => has_condition(search_query_pieces(r), " AND COALESCE(stock, 0) >= "@, SqlValueView::Int(m as i32)),
            None => true,
        },
        has_condition(search_query_pieces(r), " LIMIT "@, SqlValueView::BigInt(r.result_limit() as i64)),
        has_condition(search_query_pieces(r), " OFFSET "@, SqlValueView::BigInt(search_offset(r) as i64)),
        search_query_pieces(r).contains(
            SqlPieceView::Sql(
                if r.sort_text() == Some("price_asc"@) {
                    " ORDER BY price ASC, sku ASC"@
                } else if r.sort_text() == Some("discount_desc"@) {
                    " ORDER BY discount_pct DESC, sku ASC"@
                } else {
                    " ORDER BY updated_at DESC, sku ASC"@
                },
            ),
        ),
{
    let dm = match r.discount_min_filter() {
        Some(d) => seq![
            SqlPieceView::Sql(" AND COALESCE(discount_pct, 0) >= "@),
            SqlPieceView::Bind(SqlValueView::Int(d as i32)),
        ],
        None => Seq::<SqlPieceView>::empty(),
    };
    let sm = match r.stock_min_filter() {
        Some(s) => seq![
            SqlPieceView::Sql(" AND COALESCE(stock, 0) >= "@),
            SqlPieceView::Bind(SqlValueView::Int(s as i32)),
        ],
        None => Seq::<SqlPieceView>::empty(),
    };
    assert(minimum_conditions(r) == dm + sm);
    if let Some(d) = r.discount_min_filter() {
        let v = SqlValueView::Int(d as i32);
        lemma_pair_condition(dm, " AND COALESCE(discount_pct, 0) >= "@, v, 0);
        lemma_has_condition_before(dm, sm, " AND COALESCE(discount_pct, 0) >= "@, v);
        lemma_part_in_filters(r, 5, " AND COALESCE(discount_pct, 0) >= "@, v);
        lemma_filters_in_query(r, " AND COALESCE(discount_pct, 0) >= "@, v);
    }
    if let Some(m) = r.stock_min_filter() {
        let v = SqlValueView::Int(m as i32);
        lemma_pair_condition(sm, " AND COALESCE(stock, 0) >= "@, v, 0);
        lemma_has_condition_after(dm, sm, " AND COALESCE(stock, 0) >= "@, v);
        lemma_part_in_filters(r, 5, " AND COALESCE(stock, 0) >= "@, v);
        lemma_filters_in_query(r, " AND COALESCE(stock, 0) >= "@, v);
    }
    let tail = seq![
        SqlPieceView::Sql(order_clause(sort_order_of(r.sort_text()))),
        SqlPieceView::Sql(" LIMIT "@),
        SqlPieceView::Bind(SqlValueView::BigInt(r.result_limit() as i64)),
        SqlPieceView::Sql(" OFFSET "@),
        SqlPieceView::Bind(SqlValueView::BigInt(search_offset(r) as i64)),
    ];
    let front = seq![SqlPieceView::Sql(search_select_text())] + query_condition(r) + filter_conditions(r);
    lemma_pair_condition(tail, " LIMIT "@, SqlValueView::BigInt(r.result_limit() as i64), 1);
    lemma_has_condition_after(front, tail, " LIMIT "@, SqlValueView::BigInt(r.result_limit() as i64));
    lemma_pair_condition(tail, " OFFSET "@, SqlValueView::BigInt(search_offset(r) as i64), 3);
    lemma_has_condition_after(front, tail, " OFFSET "@, SqlValueView::BigInt(search_offset(r) as i64));
    assert(search_query_pieces(r) == front + tail);
    assert(search_query_pieces(r)[front.len() as int] == tail[0]);
}

/// The search query states every filter of the search, each in its own
/// condition with its own value, whatever the other filters are, and the
/// page it asks for.
pub proof fn lemma_query_states_search(r: SearchRequest)
    ensures
        query_states_search(r, search_query_pieces(r)),
{
    lemma_query_states_text(r);
    lemma_query_states_category_and_brands(r);
    lemma_query_states_color_size_price(r);
    lemma_query_states_minimums_and_page(r);
}

/// Whether the offset of a search fits the 32-bit arithmetic it is computed
/// in.
pub open spec fn offset_fits(r: SearchRequest) -> bool {
    search_offset(r) <= u32::MAX
}

fn sql(text: &str) -> (p: SqlPiece)
    ensures
        p@ == SqlPieceView::Sql(text@),
{
    SqlPiece::Sql(String::from_str(text))
}

fn bind_text(t: String) -> (p: SqlPiece)
    ensures
        p@ == SqlPieceView::Bind(SqlValueView::Text(t@)),
{
    SqlPiece::Bind(SqlValue::Text(t))
}

fn anywhere(t: &str) -> (r: String)
    ensures
        r@ == anywhere_pattern(t@),
{
    let mut r = String::from_str("%");
    r.append(t);
    r.append("%");
    r
}

fn lowercase_each(list: &Vec<String>) -> (r: Vec<String>)
    ensures
        texts(r@) == lowercased_all(texts(list@)),
{
    let mut r: Vec<String> = Vec::new();
    let n = list.len();
    for i in 0..n
        invariant
            n == list@.len(),
            texts(r@) == lowercased_all(texts(list@)).take(i as int),
    {
        let l = lowercased(list[i].as_str());
        assert(texts(list@)[i as int] == list@[i as int]@);
        assert(lowercased_all(texts(list@))[i as int] == lower_text(texts(list@)[i as int]));
        let ghost mid = r@;
        r.push(l);
        assert(texts(r@) =~= texts(mid).push(l@));
        assert(texts(r@) =~= lowercased_all(texts(list@)).take(i + 1));
    }
    assert(lowercased_all(texts(list@)).take(n as int) =~= lowercased_all(texts(list@)));
    r
}

/// Appends the pieces of `more` to `pieces`.
fn push_all(pieces: &mut Vec<SqlPiece>, more: Vec<SqlPiece>)
    ensures
        piece_views(final(pieces)@) == piece_views(old(pieces)@) + piece_views(more@),
{
    let ghost start = piece_views(pieces@);
    let ghost added = piece_views(more@);
    let n = more.len();
    let mut rest = more;
    for i in 0..n
        invariant
            n == added.len(),
            rest@.len() == n - i,
            forall|k: int| 0 <= k < rest@.len() ==> #[trigger] rest@[k]@ == added[i + k],
            piece_views(pieces@) == start + added.take(i as int),
    {
        let ghost before = rest@;
        let p = rest.remove(0);
        assert(p@ == added[i as int]);
        let ghost mid = pieces@;
        pieces.push(p);
        assert(pieces@ == mid.push(p));
        assert(piece_views(pieces@) =~= piece_views(mid).push(p@));
        assert forall|k: int| 0 <= k < rest@.len() implies #[trigger] rest@[k]@ == added[i + 1 + k] by {
            assert(rest@[k] == before[k + 1]);
        }
        assert(piece_views(pieces@) =~= start + added.take(i + 1));
    }
    assert(added.take(n as int) =~= added);
}

fn query_condition_pieces(request: &SearchRequest) -> (v: Vec<SqlPiece>)
    ensures
        piece_views(v@) == query_condition(*request),
{
    let mut v: Vec<SqlPiece> = Vec::new();
    if let Some(q) = &request.query {
        if trim(q.as_str()).unicode_len() != 0 {
            v.push(sql(" AND (name ILIKE "));
            v.push(bind_text(anywhere(trim(q.as_str()))));
            v.push(sql(" OR brand ILIKE "));
            v.push(bind_text(anywhere(trim(q.as_str()))));
            v.push(sql(")"));
        }
    }
    assert(piece_views(v@) =~= query_condition(*request));
    v
}

fn category_pieces(request: &SearchRequest) -> (v: Vec<SqlPiece>)
    ensures
        piece_views(v@) == category_condition(*request),
{
    let mut v: Vec<SqlPiece> = Vec::new();
    if let Some(f) = &request.filters {
        if let Some(c) = &f.category {
            v.push(sql(" AND category = "));
            v.push(bind_text(c.clone()));
        }
    }
    assert(piece_views(v@) =~= category_condition(*request));
    v
}

fn brand_pieces(request: &SearchRequest) -> (v: Vec<SqlPiece>)
    ensures
        piece_views(v@) == brand_condition(*request),
{
    let mut v: Vec<SqlPiece> = Vec::new();
    if let Some(f) = &request.filters {
        if let Some(b) = &f.brand {
            if b.len() > 0 {
                v.push(sql(" AND lower(brand) = ANY("));
                v.push(SqlPiece::Bind(SqlValue::TextList(lowercase_each(b))));
                v.push(sql(")"));
            }
        }
    }
    assert(piece_views(v@) =~= brand_condition(*request));
    v
}

fn color_pieces(request: &SearchRequest) -> (v: Vec<SqlPiece>)
    ensures
        piece_views(v@) == color_condition(*request),
{
    let mut v: Vec<SqlPiece> = Vec::new();
    if let Some(f) = &request.filters {
        if let Some(c) = &f.color {
            v.push(sql(" AND color ILIKE "));
            v.push(bind_text(anywhere(c.as_str())));
        }
    }
    assert(piece_views(v@) =~= color_condition(*request));
    v
}

fn size_pieces(request: &SearchRequest) -> (v: Vec<SqlPiece>)
    ensures
        piece_views(v@) == size_condition(*request),
{
    let mut v: Vec<SqlPiece> = Vec::new();
    if let Some(f) = &request.filters {
        if let Some(s) = &f.size {
            v.push(sql(" AND size = "));
            v.push(bind_text(s.clone()));
        }
    }
    assert(piece_views(v@) =~= size_condition(*request));
    v
}

fn price_pieces(request: &SearchRequest) -> (v: Vec<SqlPiece>)
    ensures
        piece_views(v@) == price_condition(*request),
{
    let mut v: Vec<SqlPiece> = Vec::new();
    if let Some(f) = &request.filters {
        if let Some(p) = &f.price {
            if let Some(m) = p.max {
                v.push(sql(" AND price <= "));
                v.push(SqlPiece::Bind(SqlValue::Amount(m)));
            }
        }
    }
    assert(piece_views(v@) =~= price_condition(*request));
    v
}

fn minimum_pieces(request: &SearchRequest) -> (v: Vec<SqlPiece>)
    ensures
        piece_views(v@) == minimum_conditions(*request),
{
    let mut v: Vec<SqlPiece> = Vec::new();
    if let Some(f) = &request.filters {
        if let Some(dm) = f.discount_min {
            v.push(sql(" AND COALESCE(discount_pct, 0) >= "));
            v.push(SqlPiece::Bind(SqlValue::Int(dm as i32)));
        }
        if let Some(sm) = f.stock_min {
            v.push(sql(" AND COALESCE(stock, 0) >= "));
            v.push(SqlPiece::Bind(SqlValue::Int(sm as i32)));
        }
    }
    assert(piece_views(v@) =~= minimum_conditions(*request));
    v
}

fn filter_condition_pieces(request: &SearchRequest) -> (v: Vec<SqlPiece>)
    ensures
        piece_views(v@) == filter_conditions(*request),
{
    let mut v = category_pieces(request);
    push_all(&mut v, brand_pieces(request));
    push_all(&mut v, color_pieces(request));
    push_all(&mut v, size_pieces(request));
    push_all(&mut v, price_pieces(request));
    push_all(&mut v, minimum_pieces(request));
    v
}

/// The query that searches the catalog database for `request`: its pieces
/// in the order a query builder receives them.
pub fn search_query(request: &SearchRequest) -> (pieces: Vec<SqlPiece>)
    requires
        offset_fits(*request),
    ensures
        piece_views(pieces@) == search_query_pieces(*request),
        query_states_search(*request, piece_views(pieces@)),
{
    proof {
        lemma_query_states_search(*request);
    }
    let page = page_number(request);
    let limit = result_limit(request);
    let offset: i64 = (page.saturating_sub(1) * limit) as i64;
    assert(offset == search_offset(*request));
    let mut pieces: Vec<SqlPiece> = Vec::new();
    pieces.push(sql("SELECT sku, name, brand, COALESCE(color, '') AS color, COALESCE(size, '') AS size, price::float8 AS price, COALESCE(original_price, price)::float8 AS original_price, COALESCE(discount_pct, 0) AS discount_pct, COALESCE(stock, 0) AS stock, COALESCE(image_url, '') AS image_url, walmart_url FROM products WHERE active = true"));
    push_all(&mut pieces, query_condition_pieces(request));
    push_all(&mut pieces, filter_condition_pieces(request));
    let order = sort_order(request);
    let clause = match order {
        SortOrder::PriceAsc => " ORDER BY price ASC, sku ASC",
        SortOrder::DiscountDesc => " ORDER BY discount_pct DESC, sku ASC",
        SortOrder::Relevance => " ORDER BY updated_at DESC, sku ASC",
    };
    let mut tail: Vec<SqlPiece> = Vec::new();
    tail.push(sql(clause));
    tail.push(sql(" LIMIT "));
    tail.push(SqlPiece::Bind(SqlValue::BigInt(limit as i64)));
    tail.push(sql(" OFFSET "));
    tail.push(SqlPiece::Bind(SqlValue::BigInt(offset)));
    assert(piece_views(tail@) =~= seq![
        SqlPieceView::Sql(order_clause(sort_order_of(request.sort_text()))),
        SqlPieceView::Sql(" LIMIT "@),
        SqlPieceView::Bind(SqlValueView::BigInt(request.result_limit() as i64)),
        SqlPieceView::Sql(" OFFSET "@),
        SqlPieceView::Bind(SqlValueView::BigInt(search_offset(*request) as i64)),
    ]);
    push_all(&mut pieces, tail);
    pieces
}


/// Consecutive pages of a search follow each other: the offset of page
/// `p + 1` is that of page `p` plus the number of results per page.
pub proof fn lemma_consecutive_pages_follow_each_other(r: SearchRequest, p: u32)
    requires
        1 <= p < u32::MAX,
    ensures
        search_offset(SearchRequest { page: Some((p + 1) as u32), ..r })
            == search_offset(SearchRequest { page: Some(p), ..r }) + r.result_limit(),
        search_offset(SearchRequest { page: Some(1), ..r }) == 0,
        search_offset(SearchRequest { page: None, ..r }) == 0,
{
    let first = SearchRequest { page: Some(1), ..r };
    let none = SearchRequest { page: None, ..r };
    assert(first.page_number() == 1 && none.page_number() == 1);
    assert(0 * (r.result_limit() as int) == 0);
    assert(first.result_limit() == r.result_limit() && none.result_limit() == r.result_limit());
    let a = SearchRequest { page: Some(p), ..r };
    let b = SearchRequest { page: Some((p + 1) as u32), ..r };
    assert(a.result_limit() == r.result_limit());
    assert(b.result_limit() == r.result_limit());
    assert(search_offset(b) == (p as int) * (r.result_limit() as int));
    assert(search_offset(a) == (p as int - 1) * (r.result_limit() as int));
    assert((p as int) * (r.result_limit() as int) == (p as int - 1) * (r.result_limit() as int)
        + r.result_limit()) by (nonlinear_arith);
}

/// The database is asked for as many rows as the built-in catalog may give
/// at most: the query's LIMIT is the search's clamped limit.
pub proof fn lemma_query_limit_bounds_fallback(r: SearchRequest)
    ensures
        ({
            let q = search_query_pieces(r);
            &&& q.len() >= 3
            &&& q[q.len() - 3] == SqlPieceView::Bind(SqlValueView::BigInt(r.result_limit() as i64))
        }),
        crate::catalog::fallback_results(r).len() <= r.result_limit(),
{
    crate::catalog::lemma_fallback_results_meet_the_search(r);
    let q = search_query_pieces(r);
    let head = seq![SqlPieceView::Sql(search_select_text())] + query_condition(r) + filter_conditions(r);
    let tail = seq![
        SqlPieceView::Sql(order_clause(sort_order_of(r.sort_text()))),
        SqlPieceView::Sql(" LIMIT "@),
        SqlPieceView::Bind(SqlValueView::BigInt(r.result_limit() as i64)),
        SqlPieceView::Sql(" OFFSET "@),
        SqlPieceView::Bind(SqlValueView::BigInt(search_offset(r) as i64)),
    ];
    assert(q == head + tail);
    assert(q[q.len() - 3] == tail[2]);
}

/// A row of the search query's answer, as read from the database.
/// `price` and `original_price` are in hundredths.
#[derive(Clone, Debug, PartialEq)]
pub struct ProductRow {
    pub sku: String,
    pub name: String,
    pub brand: String,
    pub color: String,
    pub size: String,
    pub price: i64,
    pub original_price: i64,
    pub discount_pct: i32,
    pub stock: i32,
    pub image_url: String,
    pub walmart_url: String,
}

/// A count read from the database, with negative counts taken as zero.
pub open spec fn non_negative(x: i32) -> u32 {
    if x < 0 { 0 } else { x as u32 }
}

/// The product hit of a row: the same texts and prices, the Walmart link as
/// the redirect, and discount and stock no lower than zero.
pub open spec fn row_hit(row: ProductRow) -> ProductHitView {
    ProductHitView {
        sku: row.sku@,
        name: row.name@,
        brand: row.brand@,
        color: row.color@,
        size: row.size@,
        price: row.price,
        original_price: row.original_price,
        discount_pct: non_negative(row.discount_pct),
        stock: non_negative(row.stock),
        image_url: row.image_url@,
        redirect_url: row.walmart_url@,
    }
}

/// Makes a product hit of a row of the search query's answer.
pub fn map_row_to_product_hit(row: ProductRow) -> (hit: ProductHit)
    ensures
        hit@ == row_hit(row),
        hit.discount_pct as int == (if row.discount_pct < 0 { 0 } else { row.discount_pct as int }),
        hit.stock as int == (if row.stock < 0 { 0 } else { row.stock as int }),
        hit.redirect_url == row.walmart_url,
        hit.sku == row.sku && hit.name == row.name && hit.brand == row.brand,
        hit.color == row.color && hit.size == row.size && hit.image_url == row.image_url,
        hit.price == row.price && hit.original_price == row.original_price,
{
    let discount_pct: u32 = if row.discount_pct < 0 { 0 } else { row.discount_pct as u32 };
    let stock: u32 = if row.stock < 0 { 0 } else { row.stock as u32 };
    ProductHit {
        sku: row.sku,
        name: row.name,
        brand: row.brand,
        color: row.color,
        size: row.size,
        price: row.price,
        original_price: row.original_price,
        discount_pct,
        stock,
        image_url: row.image_url,
        redirect_url: row.walmart_url,
    }
}

/// Makes product hits of the rows of the search query's answer, in order.
pub fn map_rows_to_product_hits(rows: Vec<ProductRow>) -> (hits: Vec<ProductHit>)
    ensures
        hits@.len() == rows@.len(),
        forall|i: int| 0 <= i < rows@.len() ==> #[trigger] hits@[i]@ == row_hit(rows@[i]),
{
    let n = rows.len();
    let mut rest = rows;
    let mut hits: Vec<ProductHit> = Vec::new();
    for i in 0..n
        invariant
            n == rows@.len(),
            rest@ == rows@.skip(i as int),
            hits@.len() == i,
            forall|k: int| 0 <= k < i ==> #[trigger] hits@[k]@ == row_hit(rows@[k]),
    {
        let row = rest.remove(0);
        assert(rest@ =~= rows@.skip(i + 1));
        hits.push(map_row_to_product_hit(row));
    }
    hits
}

/// The statement that stores a product snapshot, inserting it or updating
/// the product with the same SKU, and returns the product's id.
pub const UPSERT_PRODUCT_SQL: &'static str = "INSERT INTO products
        (sku, name, brand, category, color, size, price, original_price, stock, image_url, walmart_url, active, updated_at)
        VALUES ($1, $2, $3, $4, $5, $6, $7, $8, $9, $10, $11, $12, NOW())
        ON CONFLICT (sku) DO UPDATE SET
          name = EXCLUDED.name,
          brand = EXCLUDED.brand,
          category = EXCLUDED.category,
          color = EXCLUDED.color,
          size = EXCLUDED.size,
          price = EXCLUDED.price,
          original_price = EXCLUDED.original_price,
          stock = EXCLUDED.stock,
          image_url = EXCLUDED.image_url,
          walmart_url = EXCLUDED.walmart_url,
          active = EXCLUDED.active,
          updated_at = NOW()
        RETURNING id";

/// The statement that records a product's price at the time of ingestion.
pub const INSERT_PRICE_HISTORY_SQL: &'static str = "INSERT INTO price_history (product_id, price) VALUES ($1, $2)";

/// The statement that records the summary of an ingestion run.
pub const INSERT_INGESTION_RUN_SQL: &'static str = "INSERT INTO ingestion_runs (source, status, records_upserted, records_failed, finished_at)
         VALUES ($1, $2, $3, $4, NOW())";

/// The values bound to the upsert statement for one product, in the order
/// of its placeholders. `price` and `original_price` are in hundredths.
#[derive(Clone, Debug, PartialEq)]
pub struct ProductUpsert {
    pub sku: String,
    pub name: String,
    pub brand: String,
    pub category: String,
    pub color: Option<String>,
    pub size: Option<String>,
    pub price: i64,
    pub original_price: i64,
    pub stock: i32,
    pub image_url: Option<String>,
    pub walmart_url: String,
    pub active: bool,
}

fn clone_opt(o: &Option<String>) -> (r: Option<String>)
    ensures
        r == *o,
{
    match o {
        Some(t) => Some(t.clone()),
        None => None,
    }
}

/// The values stored for a product snapshot: the snapshot's own values,
/// with the category `shoes`, the original price equal to the price, no
/// stock, and the product active, where the snapshot says nothing; the
/// stock is bound as a 32-bit signed number.
pub fn upsert_values(product: &IngestProduct) -> (u: ProductUpsert)
    ensures
        u.sku == product.sku,
        u.name == product.name,
        u.brand == product.brand,
        u.category@ == (match product.category {
            Some(c) => c@,
            None => "shoes"@,
        }),
        u.color == product.color,
        u.size == product.size,
        u.price == product.price,
        u.original_price == (match product.original_price {
            Some(p) => p,
            None => product.price,
        }),
        u.stock == (match product.stock {
            Some(s) => s as i32,
            None => 0,
        }),
        u.image_url == product.image_url,
        u.walmart_url == product.walmart_url,
        u.active == (match product.active {
            Some(a) => a,
            None => true,
        }),
{
    ProductUpsert {
        sku: product.sku.clone(),
        name: product.name.clone(),
        brand: product.brand.clone(),
        category: match &product.category {
            Some(c) => c.clone(),
            None => String::from_str("shoes"),
        },
        color: clone_opt(&product.color),
        size: clone_opt(&product.size),
        price: product.price,
        original_price: match product.original_price {
            Some(p) => p,
            None => product.price,
        },
        stock: match product.stock {
            Some(s) => s as i32,
            None => 0,
        },
        image_url: clone_opt(&product.image_url),
        walmart_url: product.walmart_url.clone(),
        active: match product.active {
            Some(a) => a,
            None => true,
        },
    }
}

/// How an ingestion run ended: every product stored, or some refused.
#[derive(Clone, Copy, Debug, PartialEq, Eq)]
pub enum RunStatus {
    Success,
    Partial,
}

impl RunStatus {
    /// The text recorded for the status.
    pub open spec fn text(self) -> Seq<char> {
        match self {
            RunStatus::Success => "success"@,
            RunStatus::Partial => "partial"@,
        }
    }

    /// The text recorded for the status.
    pub fn as_str(&self) -> (s: &'static str)
        ensures
            s@ == self.text(),
    {
        match self {
            RunStatus::Success => "success",
            RunStatus::Partial => "partial",
        }
    }
}

/// The next thing an ingestion run does.
#[derive(Clone, Debug, PartialEq)]
pub enum UpsertAction {
    /// Store the product at this index of the batch.
    UpsertProduct(usize),
    /// Record the run's summary, then commit.
    RecordRun { status: RunStatus, upserted: usize, failed: usize },
}

/// A price to record after a product was stored: the product's id and its
/// index in the batch.
#[derive(Clone, Copy, Debug, PartialEq, Eq)]
pub struct PriceRecord {
    pub product_id: i64,
    pub index: usize,
}

/// The progress of an ingestion run over a batch of products, one product
/// at a time.
#[derive(Debug)]
pub struct UpsertRun {
    total: usize,
    next: usize,
    upserted: usize,
    failed: usize,
}

/// The view of an ingestion run: batch size, products handled, stored,
/// refused.
pub struct UpsertRunView {
    pub total: nat,
    pub next: nat,
    pub upserted: nat,
    pub failed: nat,
}

impl View for UpsertRun {
    type V = UpsertRunView;

    closed spec fn view(&self) -> UpsertRunView {
        UpsertRunView {
            total: self.total as nat,
            next: self.next as nat,
            upserted: self.upserted as nat,
            failed: self.failed as nat,
        }
    }
}

impl UpsertRun {
    /// Every product handled so far was either stored or refused, and no
    /// more products were handled than the batch holds.
    #[verifier::type_invariant]
    spec fn consistent(self) -> bool {
        &&& self.next <= self.total
        &&& self.upserted + self.failed == self.next
    }

    /// A run over a batch of `total` products, none handled yet.
    pub fn new(total: usize) -> (run: UpsertRun)
        ensures
            run@ == (UpsertRunView { total: total as nat, next: 0, upserted: 0, failed: 0 }),
    {
        UpsertRun { total, next: 0, upserted: 0, failed: 0 }
    }

    /// The products stored so far.
    pub fn upserted(&self) -> (n: usize)
        ensures
            n == self@.upserted,
    {
        self.upserted
    }

    /// The products refused so far.
    pub fn failed(&self) -> (n: usize)
        ensures
            n == self@.failed,
    {
        self.failed
    }

    /// The products handled so far: those stored and those refused, never
    /// more than the batch.
    pub fn handled(&self) -> (n: usize)
        ensures
            n == self@.next,
            self@.upserted + self@.failed == self@.next,
            self@.next <= self@.total,
    {
        proof {
            use_type_invariant(self);
        }
        self.next
    }

    /// What the run does next: store the next product while one is left;
    /// then record the summary, a success when no product was refused.
    pub fn next_action(&self) -> (a: UpsertAction)
        ensures
            self@.next < self@.total ==> a == UpsertAction::UpsertProduct(self@.next as usize),
            self@.next >= self@.total ==> a == (UpsertAction::RecordRun {
                status: if self@.failed == 0 { RunStatus::Success } else { RunStatus::Partial },
                upserted: self@.upserted as usize,
                failed: self@.failed as usize,
            }),
            self@.next >= self@.total ==> self@.upserted + self@.failed == self@.total,
    {
        proof {
            use_type_invariant(self);
        }
        if self.next < self.total {
            UpsertAction::UpsertProduct(self.next)
        } else {
            UpsertAction::RecordRun {
                status: if self.failed == 0 { RunStatus::Success } else { RunStatus::Partial },
                upserted: self.upserted,
                failed: self.failed,
            }
        }
    }

    /// Takes the outcome of storing the next product: its id when it was
    /// stored, nothing when it was refused. A stored product is counted and
    /// its price is to be recorded; a refused one is counted as failed. When
    /// no product is left the run is unchanged.
    pub fn record_outcome(&mut self, stored: Option<i64>) -> (price: Option<PriceRecord>)
        ensures
            old(self)@.next < old(self)@.total ==> {
                &&& final(self)@.total == old(self)@.total
                &&& final(self)@.next == old(self)@.next + 1
                &&& match stored {
                    Some(id) => {
                        &&& final(self)@.upserted == old(self)@.upserted + 1
                        &&& final(self)@.failed == old(self)@.failed
                        &&& price == Some(PriceRecord { product_id: id, index: old(self)@.next as usize })
                    },
                    None => {
                        &&& final(self)@.upserted == old(self)@.upserted
                        &&& final(self)@.failed == old(self)@.failed + 1
                        &&& price == None::<PriceRecord>
                    },
                }
            },
            old(self)@.next >= old(self)@.total ==> final(self)@ == old(self)@ && price == None::<PriceRecord>,
    {
        proof {
            use_type_invariant(&*self);
        }
        if self.next >= self.total {
            return None;
        }
        let index = self.next;
        match stored {
            Some(id) => {
                *self = UpsertRun {
                    total: self.total,
                    next: self.next + 1,
                    upserted: self.upserted + 1,
                    failed: self.failed,
                };
                Some(PriceRecord { product_id: id, index })
            },
            None => {
                *self = UpsertRun {
                    total: self.total,
                    next: self.next + 1,
                    upserted: self.upserted,
                    failed: self.failed + 1,
                };
                None
            },
        }
    }
}

} // verus!

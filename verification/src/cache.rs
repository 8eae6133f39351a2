//! Keys under which search answers are cached, and the pattern that removes
//! them all.
use vstd::prelude::*;
use vstd::string::*;
use crate::models::{opt_text, Filters, PriceFilter, page_number, result_limit, SearchRequest};
use crate::text::{ascii_lowercase, contains_text, texts, is_ascii_text, decimal, digit_char, join_texts, joined, lower_text, price_text, push_decimal, push_price, lowercased};

verus! {

/// How long a cached search answer lives, in seconds.
pub const SEARCH_CACHE_TTL_SECONDS: u64 = 120;

/// The text held, or the default when there is none.
pub open spec fn text_or(o: Option<Seq<char>>, default: Seq<char>) -> Seq<char> {
    match o {
        Some(t) => t,
        None => default,
    }
}

/// The cache key of a search: its normalized query, filters, order, limit
/// and page, each after its own label, in a fixed order. Texts are taken to
/// lowercase; missing parts take their defaults.
pub open spec fn cache_key_text(r: SearchRequest) -> Seq<char> {
    "search:v1:q="@ + lower_text(text_or(r.query_text(), Seq::empty()))
        + ":brand="@ + lower_text(joined(
        match r.brand_filter() {
            Some(b) => b,
            None => Seq::empty(),
        },
        ","@,
    ))
        + ":color="@ + lower_text(text_or(r.color_filter(), "_"@))
        + ":category="@ + lower_text(text_or(r.category_filter(), "shoes"@))
        + ":size="@ + lower_text(text_or(r.size_filter(), "_"@))
        + ":price_max="@ + price_text(
        match r.price_max_filter() {
            Some(m) => m as int,
            None => 0,
        },
    )
        + ":discount_min="@ + decimal(
        match r.discount_min_filter() {
            Some(d) => d as nat,
            None => 0,
        },
    )
        + ":stock_min="@ + decimal(
        match r.stock_min_filter() {
            Some(s) => s as nat,
            None => 0,
        },
    )
        + ":sort="@ + lower_text(text_or(r.sort_text(), "relevance"@))
        + ":limit="@ + decimal(r.result_limit() as nat)
        + ":page="@ + decimal(r.page_number() as nat)
}

/// The parts of a search that its cache key records, each normalized as
/// the key holds it.
pub struct NormalizedSearch {
    pub query: Seq<char>,
    pub brands: Seq<char>,
    pub color: Seq<char>,
    pub category: Seq<char>,
    pub size: Seq<char>,
    pub price_max: Seq<char>,
    pub discount_min: Seq<char>,
    pub stock_min: Seq<char>,
    pub sort: Seq<char>,
    pub limit: u32,
    pub page: u32,
}

/// The parts of a search that its cache key records: texts in lowercase
/// with their defaults, amounts as decimal text, the clamped limit and the
/// page.
pub open spec fn normalized_search(r: SearchRequest) -> NormalizedSearch {
    NormalizedSearch {
        query: lower_text(text_or(r.query_text(), Seq::empty())),
        brands: lower_text(joined(
            match r.brand_filter() {
                Some(b) => b,
                None => Seq::empty(),
            },
            ","@,
        )),
        color: lower_text(text_or(r.color_filter(), "_"@)),
        category: lower_text(text_or(r.category_filter(), "shoes"@)),
        size: lower_text(text_or(r.size_filter(), "_"@)),
        price_max: price_text(
            match r.price_max_filter() {
                Some(m) => m as int,
                None => 0,
            },
        ),
        discount_min: decimal(
            match r.discount_min_filter() {
                Some(d) => d as nat,
                None => 0,
            },
        ),
        stock_min: decimal(
            match r.stock_min_filter() {
                Some(s) => s as nat,
                None => 0,
            },
        ),
        sort: lower_text(text_or(r.sort_text(), "relevance"@)),
        limit: r.result_limit(),
        page: r.page_number(),
    }
}

/// Searches that agree once normalized share one cache key: the key
/// depends on nothing else (so, for instance, a limit of 0 and of 1, or a
/// missing category and `shoes`, give the same key).
pub proof fn lemma_cache_key_follows_normalized_search(r1: SearchRequest, r2: SearchRequest)
    requires
        normalized_search(r1) == normalized_search(r2),
    ensures
        cache_key_text(r1) == cache_key_text(r2),
{
    let n1 = normalized_search(r1);
    let n2 = normalized_search(r2);
    assert(n1.query == n2.query && n1.brands == n2.brands && n1.color == n2.color);
    assert(n1.category == n2.category && n1.size == n2.size && n1.price_max == n2.price_max);
    assert(n1.discount_min == n2.discount_min && n1.stock_min == n2.stock_min && n1.sort == n2.sort);
    assert(n1.limit == n2.limit && n1.page == n2.page);
}

/// Each text with its ASCII capitals taken to small letters.
pub open spec fn ascii_lowercase_all(parts: Seq<Seq<char>>) -> Seq<Seq<char>> {
    parts.map_values(|p: Seq<char>| ascii_lowercase(p))
}

proof fn lemma_ascii_concat(a: Seq<char>, b: Seq<char>)
    requires
        is_ascii_text(a),
        is_ascii_text(b),
    ensures
        is_ascii_text(a + b),
        ascii_lowercase(a + b) == ascii_lowercase(a) + ascii_lowercase(b),
{
    assert forall|i: int| 0 <= i < (a + b).len() implies (#[trigger] (a + b)[i] as u32) < 128 by {
        if i < a.len() {
            assert((a + b)[i] == a[i]);
        } else {
            assert((a + b)[i] == b[i - a.len()]);
        }
    }
    assert(ascii_lowercase(a + b) =~= ascii_lowercase(a) + ascii_lowercase(b));
}

/// Joining ASCII texts with an ASCII separator gives ASCII text, and
/// lowercasing the joined text is joining the lowercased parts.
proof fn lemma_joined_ascii(parts: Seq<Seq<char>>, sep: Seq<char>)
    requires
        forall|i: int| 0 <= i < parts.len() ==> is_ascii_text(#[trigger] parts[i]),
        is_ascii_text(sep),
    ensures
        is_ascii_text(joined(parts, sep)),
        ascii_lowercase(joined(parts, sep)) == joined(ascii_lowercase_all(parts), ascii_lowercase(sep)),
    decreases parts.len(),
{
    let lp = ascii_lowercase_all(parts);
    if parts.len() == 0 {
        assert(ascii_lowercase(Seq::<char>::empty()) =~= Seq::<char>::empty());
    } else if parts.len() == 1 {
        assert(lp[0] == ascii_lowercase(parts[0]));
    } else {
        let d = parts.drop_last();
        lemma_joined_ascii(d, sep);
        assert(is_ascii_text(parts.last()));
        assert(ascii_lowercase_all(d) =~= lp.drop_last());
        lemma_ascii_concat(joined(d, sep), sep);
        lemma_ascii_concat(joined(d, sep) + sep, parts.last());
        assert(lp.last() == ascii_lowercase(parts.last()));
    }
}

/// The brand entries of a search; none when it names no brand list.
pub open spec fn brand_entries(r: SearchRequest) -> Seq<Seq<char>> {
    match r.brand_filter() {
        Some(b) => b,
        None => Seq::empty(),
    }
}

/// Letter case makes no difference to the cache key: searches whose query,
/// color, category, size and order have the same lowercase form, whose
/// ASCII brand entries have, entry by entry, the same lowercase form, and
/// whose bounds, limit and page agree, share one key.
pub proof fn lemma_cache_key_ignores_case(r1: SearchRequest, r2: SearchRequest)
    requires
        lower_text(text_or(r1.query_text(), Seq::empty())) == lower_text(text_or(r2.query_text(), Seq::empty())),
        lower_text(text_or(r1.color_filter(), "_"@)) == lower_text(text_or(r2.color_filter(), "_"@)),
        lower_text(text_or(r1.category_filter(), "shoes"@)) == lower_text(
            text_or(r2.category_filter(), "shoes"@),
        ),
        lower_text(text_or(r1.size_filter(), "_"@)) == lower_text(text_or(r2.size_filter(), "_"@)),
        lower_text(text_or(r1.sort_text(), "relevance"@)) == lower_text(text_or(r2.sort_text(), "relevance"@)),
        brand_entries(r1).len() == brand_entries(r2).len(),
        forall|i: int| 0 <= i < brand_entries(r1).len() ==> is_ascii_text(#[trigger] brand_entries(r1)[i]),
        forall|i: int| 0 <= i < brand_entries(r2).len() ==> is_ascii_text(#[trigger] brand_entries(r2)[i]),
        forall|i: int|
            0 <= i < brand_entries(r1).len() ==> lower_text(#[trigger] brand_entries(r1)[i]) == lower_text(
                brand_entries(r2)[i],
            ),
        r1.price_max_filter() == r2.price_max_filter(),
        r1.discount_min_filter() == r2.discount_min_filter(),
        r1.stock_min_filter() == r2.stock_min_filter(),
        r1.result_limit() == r2.result_limit(),
        r1.page_number() == r2.page_number(),
    ensures
        cache_key_text(r1) == cache_key_text(r2),
{
    reveal_strlit(",");
    let b1 = brand_entries(r1);
    let b2 = brand_entries(r2);
    assert(is_ascii_text(","@));
    assert(ascii_lowercase(","@) =~= ","@);
    lemma_joined_ascii(b1, ","@);
    lemma_joined_ascii(b2, ","@);
    assert(ascii_lowercase_all(b1) =~= ascii_lowercase_all(b2)) by {
        assert forall|i: int| 0 <= i < b1.len() implies ascii_lowercase_all(b1)[i] == ascii_lowercase_all(b2)[i] by {
            assert(is_ascii_text(b1[i]));
            assert(is_ascii_text(b2[i]));
            assert(lower_text(b1[i]) == lower_text(b2[i]));
        }
    }
    assert(lower_text(joined(b1, ","@)) == lower_text(joined(b2, ","@)));
    lemma_cache_key_follows_normalized_search(r1, r2);
}

/// Whether a key records each part of the search in its place: every
/// label is directly followed by its part's normalized value and then by
/// the next label, and the key ends with the page.
pub open spec fn key_states_search(r: SearchRequest, k: Seq<char>) -> bool {
    &&& contains_text(k, "search:v1:q="@ + lower_text(text_or(r.query_text(), Seq::empty())) + ":brand="@)
    &&& contains_text(k, ":brand="@ + lower_text(joined(brand_entries(r), ","@)) + ":color="@)
    &&& contains_text(k, ":color="@ + lower_text(text_or(r.color_filter(), "_"@)) + ":category="@)
    &&& contains_text(k, ":category="@ + lower_text(text_or(r.category_filter(), "shoes"@)) + ":size="@)
    &&& contains_text(k, ":size="@ + lower_text(text_or(r.size_filter(), "_"@)) + ":price_max="@)
    &&& contains_text(k, ":price_max="@ + price_text(match r.price_max_filter() { Some(m) => m as int, None => 0 }) + ":discount_min="@)
    &&& contains_text(k, ":discount_min="@ + decimal(match r.discount_min_filter() { Some(d) => d as nat, None => 0 }) + ":stock_min="@)
    &&& contains_text(k, ":stock_min="@ + decimal(match r.stock_min_filter() { Some(d) => d as nat, None => 0 }) + ":sort="@)
    &&& contains_text(k, ":sort="@ + lower_text(text_or(r.sort_text(), "relevance"@)) + ":limit="@)
    &&& contains_text(k, ":limit="@ + decimal(r.result_limit() as nat) + ":page="@)
    &&& k.len() >= (":page="@ + decimal(r.page_number() as nat)).len()
    &&& k.skip(k.len() - (":page="@ + decimal(r.page_number() as nat)).len()) == ":page="@ + decimal(r.page_number() as nat)
}

proof fn lemma_contains_before(x: Seq<char>, y: Seq<char>, pat: Seq<char>)
    requires
        contains_text(x, pat),
    ensures
        contains_text(x + y, pat),
{
    let i = choose|i: int| 0 <= i && i + pat.len() <= x.len() && #[trigger] x.subrange(i, i + pat.len()) == pat;
    assert((x + y).subrange(i, i + pat.len()) =~= x.subrange(i, i + pat.len()));
}

proof fn lemma_contains_itself(x: Seq<char>)
    ensures
        contains_text(x, x),
{
    assert(x.subrange(0, 0 + x.len() as int) =~= x);
}

proof fn lemma_window(a: Seq<char>, l: Seq<char>, c: Seq<char>, n: Seq<char>)
    ensures
        contains_text(a + l + c + n, l + c + n),
{
    let w = l + c + n;
    assert((a + l + c + n).subrange(a.len() as int, (a.len() + w.len()) as int) =~= w);
}

/// The cache key of a search records each of its parts in its place.
pub proof fn lemma_cache_key_states_search(r: SearchRequest)
    ensures
        key_states_search(r, cache_key_text(r)),
{
    let e0 = "search:v1:q="@;
    let e1 = lower_text(text_or(r.query_text(), Seq::empty()));
    let e2 = ":brand="@;
    let e3 = lower_text(joined(brand_entries(r), ","@));
    let e4 = ":color="@;
    let e5 = lower_text(text_or(r.color_filter(), "_"@));
    let e6 = ":category="@;
    let e7 = lower_text(text_or(r.category_filter(), "shoes"@));
    let e8 = ":size="@;
    let e9 = lower_text(text_or(r.size_filter(), "_"@));
    let e10 = ":price_max="@;
    let e11 = price_text(match r.price_max_filter() { Some(m) => m as int, None => 0 });
    let e12 = ":discount_min="@;
    let e13 = decimal(match r.discount_min_filter() { Some(d) => d as nat, None => 0 });
    let e14 = ":stock_min="@;
    let e15 = decimal(match r.stock_min_filter() { Some(d) => d as nat, None => 0 });
    let e16 = ":sort="@;
    let e17 = lower_text(text_or(r.sort_text(), "relevance"@));
    let e18 = ":limit="@;
    let e19 = decimal(r.result_limit() as nat);
    let e20 = ":page="@;
    let e21 = decimal(r.page_number() as nat);
    let k = cache_key_text(r);
    assert(k == e0 + e1 + e2 + e3 + e4 + e5 + e6 + e7 + e8 + e9 + e10 + e11 + e12 + e13 + e14 + e15 + e16 + e17 + e18 + e19 + e20 + e21);
    lemma_contains_itself(e0 + e1 + e2);
    lemma_contains_before(e0 + e1 + e2, e3, e0 + e1 + e2);
    lemma_contains_before(e0 + e1 + e2 + e3, e4, e0 + e1 + e2);
    lemma_contains_before(e0 + e1 + e2 + e3 + e4, e5, e0 + e1 + e2);
    lemma_contains_before(e0 + e1 + e2 + e3 + e4 + e5, e6, e0 + e1 + e2);
    lemma_contains_before(e0 + e1 + e2 + e3 + e4 + e5 + e6, e7, e0 + e1 + e2);
    lemma_contains_before(e0 + e1 + e2 + e3 + e4 + e5 + e6 + e7, e8, e0 + e1 + e2);
    lemma_contains_before(e0 + e1 + e2 + e3 + e4 + e5 + e6 + e7 + e8, e9, e0 + e1 + e2);
    lemma_contains_before(e0 + e1 + e2 + e3 + e4 + e5 + e6 + e7 + e8 + e9, e10, e0 + e1 + e2);
    lemma_contains_before(e0 + e1 + e2 + e3 + e4 + e5 + e6 + e7 + e8 + e9 + e10, e11, e0 + e1 + e2);
    lemma_contains_before(e0 + e1 + e2 + e3 + e4 + e5 + e6 + e7 + e8 + e9 + e10 + e11, e12, e0 + e1 + e2);
    lemma_contains_before(e0 + e1 + e2 + e3 + e4 + e5 + e6 + e7 + e8 + e9 + e10 + e11 + e12, e13, e0 + e1 + e2);
    lemma_contains_before(e0 + e1 + e2 + e3 + e4 + e5 + e6 + e7 + e8 + e9 + e10 + e11 + e12 + e13, e14, e0 + e1 + e2);
    lemma_contains_before(e0 + e1 + e2 + e3 + e4 + e5 + e6 + e7 + e8 + e9 + e10 + e11 + e12 + e13 + e14, e15, e0 + e1 + e2);
    lemma_contains_before(e0 + e1 + e2 + e3 + e4 + e5 + e6 + e7 + e8 + e9 + e10 + e11 + e12 + e13 + e14 + e15, e16, e0 + e1 + e2);
    lemma_contains_before(e0 + e1 + e2 + e3 + e4 + e5 + e6 + e7 + e8 + e9 + e10 + e11 + e12 + e13 + e14 + e15 + e16, e17, e0 + e1 + e2);
    lemma_contains_before(e0 + e1 + e2 + e3 + e4 + e5 + e6 + e7 + e8 + e9 + e10 + e11 + e12 + e13 + e14 + e15 + e16 + e17, e18, e0 + e1 + e2);
    lemma_contains_before(e0 + e1 + e2 + e3 + e4 + e5 + e6 + e7 + e8 + e9 + e10 + e11 + e12 + e13 + e14 + e15 + e16 + e17 + e18, e19, e0 + e1 + e2);
    lemma_contains_before(e0 + e1 + e2 + e3 + e4 + e5 + e6 + e7 + e8 + e9 + e10 + e11 + e12 + e13 + e14 + e15 + e16 + e17 + e18 + e19, e20, e0 + e1 + e2);
    lemma_contains_before(e0 + e1 + e2 + e3 + e4 + e5 + e6 + e7 + e8 + e9 + e10 + e11 + e12 + e13 + e14 + e15 + e16 + e17 + e18 + e19 + e20, e21, e0 + e1 + e2);
    lemma_window(e0 + e1, e2, e3, e4);
    lemma_contains_before(e0 + e1 + e2 + e3 + e4, e5, e2 + e3 + e4);
    lemma_contains_before(e0 + e1 + e2 + e3 + e4 + e5, e6, e2 + e3 + e4);
    lemma_contains_before(e0 + e1 + e2 + e3 + e4 + e5 + e6, e7, e2 + e3 + e4);
    lemma_contains_before(e0 + e1 + e2 + e3 + e4 + e5 + e6 + e7, e8, e2 + e3 + e4);
    lemma_contains_before(e0 + e1 + e2 + e3 + e4 + e5 + e6 + e7 + e8, e9, e2 + e3 + e4);
    lemma_contains_before(e0 + e1 + e2 + e3 + e4 + e5 + e6 + e7 + e8 + e9, e10, e2 + e3 + e4);
    lemma_contains_before(e0 + e1 + e2 + e3 + e4 + e5 + e6 + e7 + e8 + e9 + e10, e11, e2 + e3 + e4);
    lemma_contains_before(e0 + e1 + e2 + e3 + e4 + e5 + e6 + e7 + e8 + e9 + e10 + e11, e12, e2 + e3 + e4);
    lemma_contains_before(e0 + e1 + e2 + e3 + e4 + e5 + e6 + e7 + e8 + e9 + e10 + e11 + e12, e13, e2 + e3 + e4);
    lemma_contains_before(e0 + e1 + e2 + e3 + e4 + e5 + e6 + e7 + e8 + e9 + e10 + e11 + e12 + e13, e14, e2 + e3 + e4);
    lemma_contains_before(e0 + e1 + e2 + e3 + e4 + e5 + e6 + e7 + e8 + e9 + e10 + e11 + e12 + e13 + e14, e15, e2 + e3 + e4);
    lemma_contains_before(e0 + e1 + e2 + e3 + e4 + e5 + e6 + e7 + e8 + e9 + e10 + e11 + e12 + e13 + e14 + e15, e16, e2 + e3 + e4);
    lemma_contains_before(e0 + e1 + e2 + e3 + e4 + e5 + e6 + e7 + e8 + e9 + e10 + e11 + e12 + e13 + e14 + e15 + e16, e17, e2 + e3 + e4);
    lemma_contains_before(e0 + e1 + e2 + e3 + e4 + e5 + e6 + e7 + e8 + e9 + e10 + e11 + e12 + e13 + e14 + e15 + e16 + e17, e18, e2 + e3 + e4);
    lemma_contains_before(e0 + e1 + e2 + e3 + e4 + e5 + e6 + e7 + e8 + e9 + e10 + e11 + e12 + e13 + e14 + e15 + e16 + e17 + e18, e19, e2 + e3 + e4);
    lemma_contains_before(e0 + e1 + e2 + e3 + e4 + e5 + e6 + e7 + e8 + e9 + e10 + e11 + e12 + e13 + e14 + e15 + e16 + e17 + e18 + e19, e20, e2 + e3 + e4);
    lemma_contains_before(e0 + e1 + e2 + e3 + e4 + e5 + e6 + e7 + e8 + e9 + e10 + e11 + e12 + e13 + e14 + e15 + e16 + e17 + e18 + e19 + e20, e21, e2 + e3 + e4);
    lemma_window(e0 + e1 + e2 + e3, e4, e5, e6);
    lemma_contains_before(e0 + e1 + e2 + e3 + e4 + e5 + e6, e7, e4 + e5 + e6);
    lemma_contains_before(e0 + e1 + e2 + e3 + e4 + e5 + e6 + e7, e8, e4 + e5 + e6);
    lemma_contains_before(e0 + e1 + e2 + e3 + e4 + e5 + e6 + e7 + e8, e9, e4 + e5 + e6);
    lemma_contains_before(e0 + e1 + e2 + e3 + e4 + e5 + e6 + e7 + e8 + e9, e10, e4 + e5 + e6);
    lemma_contains_before(e0 + e1 + e2 + e3 + e4 + e5 + e6 + e7 + e8 + e9 + e10, e11, e4 + e5 + e6);
    lemma_contains_before(e0 + e1 + e2 + e3 + e4 + e5 + e6 + e7 + e8 + e9 + e10 + e11, e12, e4 + e5 + e6);
    lemma_contains_before(e0 + e1 + e2 + e3 + e4 + e5 + e6 + e7 + e8 + e9 + e10 + e11 + e12, e13, e4 + e5 + e6);
    lemma_contains_before(e0 + e1 + e2 + e3 + e4 + e5 + e6 + e7 + e8 + e9 + e10 + e11 + e12 + e13, e14, e4 + e5 + e6);
    lemma_contains_before(e0 + e1 + e2 + e3 + e4 + e5 + e6 + e7 + e8 + e9 + e10 + e11 + e12 + e13 + e14, e15, e4 + e5 + e6);
    lemma_contains_before(e0 + e1 + e2 + e3 + e4 + e5 + e6 + e7 + e8 + e9 + e10 + e11 + e12 + e13 + e14 + e15, e16, e4 + e5 + e6);
    lemma_contains_before(e0 + e1 + e2 + e3 + e4 + e5 + e6 + e7 + e8 + e9 + e10 + e11 + e12 + e13 + e14 + e15 + e16, e17, e4 + e5 + e6);
    lemma_contains_before(e0 + e1 + e2 + e3 + e4 + e5 + e6 + e7 + e8 + e9 + e10 + e11 + e12 + e13 + e14 + e15 + e16 + e17, e18, e4 + e5 + e6);
    lemma_contains_before(e0 + e1 + e2 + e3 + e4 + e5 + e6 + e7 + e8 + e9 + e10 + e11 + e12 + e13 + e14 + e15 + e16 + e17 + e18, e19, e4 + e5 + e6);
    lemma_contains_before(e0 + e1 + e2 + e3 + e4 + e5 + e6 + e7 + e8 + e9 + e10 + e11 + e12 + e13 + e14 + e15 + e16 + e17 + e18 + e19, e20, e4 + e5 + e6);
    lemma_contains_before(e0 + e1 + e2 + e3 + e4 + e5 + e6 + e7 + e8 + e9 + e10 + e11 + e12 + e13 + e14 + e15 + e16 + e17 + e18 + e19 + e20, e21, e4 + e5 + e6);
    lemma_window(e0 + e1 + e2 + e3 + e4 + e5, e6, e7, e8);
    lemma_contains_before(e0 + e1 + e2 + e3 + e4 + e5 + e6 + e7 + e8, e9, e6 + e7 + e8);
    lemma_contains_before(e0 + e1 + e2 + e3 + e4 + e5 + e6 + e7 + e8 + e9, e10, e6 + e7 + e8);
    lemma_contains_before(e0 + e1 + e2 + e3 + e4 + e5 + e6 + e7 + e8 + e9 + e10, e11, e6 + e7 + e8);
    lemma_contains_before(e0 + e1 + e2 + e3 + e4 + e5 + e6 + e7 + e8 + e9 + e10 + e11, e12, e6 + e7 + e8);
    lemma_contains_before(e0 + e1 + e2 + e3 + e4 + e5 + e6 + e7 + e8 + e9 + e10 + e11 + e12, e13, e6 + e7 + e8);
    lemma_contains_before(e0 + e1 + e2 + e3 + e4 + e5 + e6 + e7 + e8 + e9 + e10 + e11 + e12 + e13, e14, e6 + e7 + e8);
    lemma_contains_before(e0 + e1 + e2 + e3 + e4 + e5 + e6 + e7 + e8 + e9 + e10 + e11 + e12 + e13 + e14, e15, e6 + e7 + e8);
    lemma_contains_before(e0 + e1 + e2 + e3 + e4 + e5 + e6 + e7 + e8 + e9 + e10 + e11 + e12 + e13 + e14 + e15, e16, e6 + e7 + e8);
    lemma_contains_before(e0 + e1 + e2 + e3 + e4 + e5 + e6 + e7 + e8 + e9 + e10 + e11 + e12 + e13 + e14 + e15 + e16, e17, e6 + e7 + e8);
    lemma_contains_before(e0 + e1 + e2 + e3 + e4 + e5 + e6 + e7 + e8 + e9 + e10 + e11 + e12 + e13 + e14 + e15 + e16 + e17, e18, e6 + e7 + e8);
    lemma_contains_before(e0 + e1 + e2 + e3 + e4 + e5 + e6 + e7 + e8 + e9 + e10 + e11 + e12 + e13 + e14 + e15 + e16 + e17 + e18, e19, e6 + e7 + e8);
    lemma_contains_before(e0 + e1 + e2 + e3 + e4 + e5 + e6 + e7 + e8 + e9 + e10 + e11 + e12 + e13 + e14 + e15 + e16 + e17 + e18 + e19, e20, e6 + e7 + e8);
    lemma_contains_before(e0 + e1 + e2 + e3 + e4 + e5 + e6 + e7 + e8 + e9 + e10 + e11 + e12 + e13 + e14 + e15 + e16 + e17 + e18 + e19 + e20, e21, e6 + e7 + e8);
    lemma_window(e0 + e1 + e2 + e3 + e4 + e5 + e6 + e7, e8, e9, e10);
    lemma_contains_before(e0 + e1 + e2 + e3 + e4 + e5 + e6 + e7 + e8 + e9 + e10, e11, e8 + e9 + e10);
    lemma_contains_before(e0 + e1 + e2 + e3 + e4 + e5 + e6 + e7 + e8 + e9 + e10 + e11, e12, e8 + e9 + e10);
    lemma_contains_before(e0 + e1 + e2 + e3 + e4 + e5 + e6 + e7 + e8 + e9 + e10 + e11 + e12, e13, e8 + e9 + e10);
    lemma_contains_before(e0 + e1 + e2 + e3 + e4 + e5 + e6 + e7 + e8 + e9 + e10 + e11 + e12 + e13, e14, e8 + e9 + e10);
    lemma_contains_before(e0 + e1 + e2 + e3 + e4 + e5 + e6 + e7 + e8 + e9 + e10 + e11 + e12 + e13 + e14, e15, e8 + e9 + e10);
    lemma_contains_before(e0 + e1 + e2 + e3 + e4 + e5 + e6 + e7 + e8 + e9 + e10 + e11 + e12 + e13 + e14 + e15, e16, e8 + e9 + e10);
    lemma_contains_before(e0 + e1 + e2 + e3 + e4 + e5 + e6 + e7 + e8 + e9 + e10 + e11 + e12 + e13 + e14 + e15 + e16, e17, e8 + e9 + e10);
    lemma_contains_before(e0 + e1 + e2 + e3 + e4 + e5 + e6 + e7 + e8 + e9 + e10 + e11 + e12 + e13 + e14 + e15 + e16 + e17, e18, e8 + e9 + e10);
    lemma_contains_before(e0 + e1 + e2 + e3 + e4 + e5 + e6 + e7 + e8 + e9 + e10 + e11 + e12 + e13 + e14 + e15 + e16 + e17 + e18, e19, e8 + e9 + e10);
    lemma_contains_before(e0 + e1 + e2 + e3 + e4 + e5 + e6 + e7 + e8 + e9 + e10 + e11 + e12 + e13 + e14 + e15 + e16 + e17 + e18 + e19, e20, e8 + e9 + e10);
    lemma_contains_before(e0 + e1 + e2 + e3 + e4 + e5 + e6 + e7 + e8 + e9 + e10 + e11 + e12 + e13 + e14 + e15 + e16 + e17 + e18 + e19 + e20, e21, e8 + e9 + e10);
    lemma_window(e0 + e1 + e2 + e3 + e4 + e5 + e6 + e7 + e8 + e9, e10, e11, e12);
    lemma_contains_before(e0 + e1 + e2 + e3 + e4 + e5 + e6 + e7 + e8 + e9 + e10 + e11 + e12, e13, e10 + e11 + e12);
    lemma_contains_before(e0 + e1 + e2 + e3 + e4 + e5 + e6 + e7 + e8 + e9 + e10 + e11 + e12 + e13, e14, e10 + e11 + e12);
    lemma_contains_before(e0 + e1 + e2 + e3 + e4 + e5 + e6 + e7 + e8 + e9 + e10 + e11 + e12 + e13 + e14, e15, e10 + e11 + e12);
    lemma_contains_before(e0 + e1 + e2 + e3 + e4 + e5 + e6 + e7 + e8 + e9 + e10 + e11 + e12 + e13 + e14 + e15, e16, e10 + e11 + e12);
    lemma_contains_before(e0 + e1 + e2 + e3 + e4 + e5 + e6 + e7 + e8 + e9 + e10 + e11 + e12 + e13 + e14 + e15 + e16, e17, e10 + e11 + e12);
    lemma_contains_before(e0 + e1 + e2 + e3 + e4 + e5 + e6 + e7 + e8 + e9 + e10 + e11 + e12 + e13 + e14 + e15 + e16 + e17, e18, e10 + e11 + e12);
    lemma_contains_before(e0 + e1 + e2 + e3 + e4 + e5 + e6 + e7 + e8 + e9 + e10 + e11 + e12 + e13 + e14 + e15 + e16 + e17 + e18, e19, e10 + e11 + e12);
    lemma_contains_before(e0 + e1 + e2 + e3 + e4 + e5 + e6 + e7 + e8 + e9 + e10 + e11 + e12 + e13 + e14 + e15 + e16 + e17 + e18 + e19, e20, e10 + e11 + e12);
    lemma_contains_before(e0 + e1 + e2 + e3 + e4 + e5 + e6 + e7 + e8 + e9 + e10 + e11 + e12 + e13 + e14 + e15 + e16 + e17 + e18 + e19 + e20, e21, e10 + e11 + e12);
    lemma_window(e0 + e1 + e2 + e3 + e4 + e5 + e6 + e7 + e8 + e9 + e10 + e11, e12, e13, e14);
    lemma_contains_before(e0 + e1 + e2 + e3 + e4 + e5 + e6 + e7 + e8 + e9 + e10 + e11 + e12 + e13 + e14, e15, e12 + e13 + e14);
    lemma_contains_before(e0 + e1 + e2 + e3 + e4 + e5 + e6 + e7 + e8 + e9 + e10 + e11 + e12 + e13 + e14 + e15, e16, e12 + e13 + e14);
    lemma_contains_before(e0 + e1 + e2 + e3 + e4 + e5 + e6 + e7 + e8 + e9 + e10 + e11 + e12 + e13 + e14 + e15 + e16, e17, e12 + e13 + e14);
    lemma_contains_before(e0 + e1 + e2 + e3 + e4 + e5 + e6 + e7 + e8 + e9 + e10 + e11 + e12 + e13 + e14 + e15 + e16 + e17, e18, e12 + e13 + e14);
    lemma_contains_before(e0 + e1 + e2 + e3 + e4 + e5 + e6 + e7 + e8 + e9 + e10 + e11 + e12 + e13 + e14 + e15 + e16 + e17 + e18, e19, e12 + e13 + e14);
    lemma_contains_before(e0 + e1 + e2 + e3 + e4 + e5 + e6 + e7 + e8 + e9 + e10 + e11 + e12 + e13 + e14 + e15 + e16 + e17 + e18 + e19, e20, e12 + e13 + e14);
    lemma_contains_before(e0 + e1 + e2 + e3 + e4 + e5 + e6 + e7 + e8 + e9 + e10 + e11 + e12 + e13 + e14 + e15 + e16 + e17 + e18 + e19 + e20, e21, e12 + e13 + e14);
    lemma_window(e0 + e1 + e2 + e3 + e4 + e5 + e6 + e7 + e8 + e9 + e10 + e11 + e12 + e13, e14, e15, e16);
    lemma_contains_before(e0 + e1 + e2 + e3 + e4 + e5 + e6 + e7 + e8 + e9 + e10 + e11 + e12 + e13 + e14 + e15 + e16, e17, e14 + e15 + e16);
    lemma_contains_before(e0 + e1 + e2 + e3 + e4 + e5 + e6 + e7 + e8 + e9 + e10 + e11 + e12 + e13 + e14 + e15 + e16 + e17, e18, e14 + e15 + e16);
    lemma_contains_before(e0 + e1 + e2 + e3 + e4 + e5 + e6 + e7 + e8 + e9 + e10 + e11 + e12 + e13 + e14 + e15 + e16 + e17 + e18, e19, e14 + e15 + e16);
    lemma_contains_before(e0 + e1 + e2 + e3 + e4 + e5 + e6 + e7 + e8 + e9 + e10 + e11 + e12 + e13 + e14 + e15 + e16 + e17 + e18 + e19, e20, e14 + e15 + e16);
    lemma_contains_before(e0 + e1 + e2 + e3 + e4 + e5 + e6 + e7 + e8 + e9 + e10 + e11 + e12 + e13 + e14 + e15 + e16 + e17 + e18 + e19 + e20, e21, e14 + e15 + e16);
    lemma_window(e0 + e1 + e2 + e3 + e4 + e5 + e6 + e7 + e8 + e9 + e10 + e11 + e12 + e13 + e14 + e15, e16, e17, e18);
    lemma_contains_before(e0 + e1 + e2 + e3 + e4 + e5 + e6 + e7 + e8 + e9 + e10 + e11 + e12 + e13 + e14 + e15 + e16 + e17 + e18, e19, e16 + e17 + e18);
    lemma_contains_before(e0 + e1 + e2 + e3 + e4 + e5 + e6 + e7 + e8 + e9 + e10 + e11 + e12 + e13 + e14 + e15 + e16 + e17 + e18 + e19, e20, e16 + e17 + e18);
    lemma_contains_before(e0 + e1 + e2 + e3 + e4 + e5 + e6 + e7 + e8 + e9 + e10 + e11 + e12 + e13 + e14 + e15 + e16 + e17 + e18 + e19 + e20, e21, e16 + e17 + e18);
    lemma_window(e0 + e1 + e2 + e3 + e4 + e5 + e6 + e7 + e8 + e9 + e10 + e11 + e12 + e13 + e14 + e15 + e16 + e17, e18, e19, e20);
    lemma_contains_before(e0 + e1 + e2 + e3 + e4 + e5 + e6 + e7 + e8 + e9 + e10 + e11 + e12 + e13 + e14 + e15 + e16 + e17 + e18 + e19 + e20, e21, e18 + e19 + e20);
    assert(k.skip(k.len() - (e20 + e21).len()) =~= e20 + e21);
}

/// Searches that differ only in their category share a cache key exactly
/// when their categories (`shoes` when absent) have the same lowercase form:
/// a search for another category never gets the cached answer of this one.
#[verifier::rlimit(40)]
pub proof fn lemma_cache_key_tells_categories_apart(r: SearchRequest, f: Filters, c1: Option<String>, c2: Option<String>)
    ensures
        ({
            let r1 = SearchRequest { filters: Some(Filters { category: c1, ..f }), ..r };
            let r2 = SearchRequest { filters: Some(Filters { category: c2, ..f }), ..r };
            (cache_key_text(r1) == cache_key_text(r2)) <==> (lower_text(text_or(opt_text(c1), "shoes"@))
                == lower_text(text_or(opt_text(c2), "shoes"@)))
        }),
{
    let r1 = SearchRequest { filters: Some(Filters { category: c1, ..f }), ..r };
    let r2 = SearchRequest { filters: Some(Filters { category: c2, ..f }), ..r };
    let k1 = cache_key_text(r1);
    let k2 = cache_key_text(r2);
    let a = "search:v1:q="@ + lower_text(text_or(r1.query_text(), Seq::empty())) + ":brand="@ + lower_text(
        joined(brand_entries(r1), ","@),
    ) + ":color="@ + lower_text(text_or(r1.color_filter(), "_"@)) + ":category="@;
    let x1 = lower_text(text_or(opt_text(c1), "shoes"@));
    let x2 = lower_text(text_or(opt_text(c2), "shoes"@));
    assert(r1.category_filter() == opt_text(c1));
    assert(r2.category_filter() == opt_text(c2));
    if k1 == k2 {
        assert(k1.len() == k2.len());
        assert(x1.len() == x2.len());
        assert forall|t: int| 0 <= t < x1.len() implies x1[t] == x2[t] by {
            assert(k1[a.len() + t] == x1[t]);
            assert(k2[a.len() + t] == x2[t]);
        }
        assert(x1 =~= x2);
    }
}

/// Searches that differ only in their query text share a cache key
/// exactly when the key's form of it, the query text (empty when absent), is the same.
#[verifier::rlimit(40)]
pub proof fn lemma_cache_key_tells_query_apart(r: SearchRequest, v1: Option<String>, v2: Option<String>)
    ensures
        ({
            let r1 = SearchRequest { query: v1, ..r };
            let r2 = SearchRequest { query: v2, ..r };
            (cache_key_text(r1) == cache_key_text(r2)) <==> (lower_text(text_or(opt_text(v1), Seq::empty())) == lower_text(text_or(opt_text(v2), Seq::empty())))
        }),
{
    let r1 = SearchRequest { query: v1, ..r };
    let r2 = SearchRequest { query: v2, ..r };
    let k1 = cache_key_text(r1);
    let k2 = cache_key_text(r2);
    let a = "search:v1:q="@;
    let x1 = lower_text(text_or(opt_text(v1), Seq::empty()));
    let x2 = lower_text(text_or(opt_text(v2), Seq::empty()));
    if k1 == k2 {
        assert(k1.len() == k2.len());
        assert(x1.len() == x2.len());
        assert forall|t: int| 0 <= t < x1.len() implies x1[t] == x2[t] by {
            assert(k1[a.len() + t] == x1[t]);
            assert(k2[a.len() + t] == x2[t]);
        }
        assert(x1 =~= x2);
    }
}

/// Searches that differ only in their brand list joined with commas share a cache key
/// exactly when the key's form of it, the brand list joined with commas (empty when absent), is the same.
#[verifier::rlimit(40)]
pub proof fn lemma_cache_key_tells_brands_apart(r: SearchRequest, f: Filters, v1: Option<Vec<String>>, v2: Option<Vec<String>>)
    ensures
        ({
            let r1 = SearchRequest { filters: Some(Filters { brand: v1, ..f }), ..r };
            let r2 = SearchRequest { filters: Some(Filters { brand: v2, ..f }), ..r };
            (cache_key_text(r1) == cache_key_text(r2)) <==> (lower_text(joined(match v1 { Some(b) => texts(b@), None => Seq::empty() }, ","@)) == lower_text(joined(match v2 { Some(b) => texts(b@), None => Seq::empty() }, ","@)))
        }),
{
    let r1 = SearchRequest { filters: Some(Filters { brand: v1, ..f }), ..r };
    let r2 = SearchRequest { filters: Some(Filters { brand: v2, ..f }), ..r };
    let k1 = cache_key_text(r1);
    let k2 = cache_key_text(r2);
    let a = "search:v1:q="@ + lower_text(text_or(r1.query_text(), Seq::empty())) + ":brand="@;
    let x1 = lower_text(joined(match v1 { Some(b) => texts(b@), None => Seq::empty() }, ","@));
    let x2 = lower_text(joined(match v2 { Some(b) => texts(b@), None => Seq::empty() }, ","@));
    assert(brand_entries(r1) == match v1 { Some(b) => texts(b@), None => Seq::<Seq<char>>::empty() });
    assert(brand_entries(r2) == match v2 { Some(b) => texts(b@), None => Seq::<Seq<char>>::empty() });
    if k1 == k2 {
        assert(k1.len() == k2.len());
        assert(x1.len() == x2.len());
        assert forall|t: int| 0 <= t < x1.len() implies x1[t] == x2[t] by {
            assert(k1[a.len() + t] == x1[t]);
            assert(k2[a.len() + t] == x2[t]);
        }
        assert(x1 =~= x2);
    }
}

/// Searches that differ only in their color share a cache key
/// exactly when the key's form of it, the color (`_` when absent), is the same.
#[verifier::rlimit(40)]
pub proof fn lemma_cache_key_tells_colors_apart(r: SearchRequest, f: Filters, v1: Option<String>, v2: Option<String>)
    ensures
        ({
            let r1 = SearchRequest { filters: Some(Filters { color: v1, ..f }), ..r };
            let r2 = SearchRequest { filters: Some(Filters { color: v2, ..f }), ..r };
            (cache_key_text(r1) == cache_key_text(r2)) <==> (lower_text(text_or(opt_text(v1), "_"@)) == lower_text(text_or(opt_text(v2), "_"@)))
        }),
{
    let r1 = SearchRequest { filters: Some(Filters { color: v1, ..f }), ..r };
    let r2 = SearchRequest { filters: Some(Filters { color: v2, ..f }), ..r };
    let k1 = cache_key_text(r1);
    let k2 = cache_key_text(r2);
    let a = "search:v1:q="@ + lower_text(text_or(r1.query_text(), Seq::empty())) + ":brand="@ + lower_text(joined(brand_entries(r1), ","@)) + ":color="@;
    let x1 = lower_text(text_or(opt_text(v1), "_"@));
    let x2 = lower_text(text_or(opt_text(v2), "_"@));
    if k1 == k2 {
        assert(k1.len() == k2.len());
        assert(x1.len() == x2.len());
        assert forall|t: int| 0 <= t < x1.len() implies x1[t] == x2[t] by {
            assert(k1[a.len() + t] == x1[t]);
            assert(k2[a.len() + t] == x2[t]);
        }
        assert(x1 =~= x2);
    }
}

/// Searches that differ only in their size share a cache key
/// exactly when the key's form of it, the size (`_` when absent), is the same.
#[verifier::rlimit(40)]
pub proof fn lemma_cache_key_tells_sizes_apart(r: SearchRequest, f: Filters, v1: Option<String>, v2: Option<String>)
    ensures
        ({
            let r1 = SearchRequest { filters: Some(Filters { size: v1, ..f }), ..r };
            let r2 = SearchRequest { filters: Some(Filters { size: v2, ..f }), ..r };
            (cache_key_text(r1) == cache_key_text(r2)) <==> (lower_text(text_or(opt_text(v1), "_"@)) == lower_text(text_or(opt_text(v2), "_"@)))
        }),
{
    let r1 = SearchRequest { filters: Some(Filters { size: v1, ..f }), ..r };
    let r2 = SearchRequest { filters: Some(Filters { size: v2, ..f }), ..r };
    let k1 = cache_key_text(r1);
    let k2 = cache_key_text(r2);
    let a = "search:v1:q="@ + lower_text(text_or(r1.query_text(), Seq::empty())) + ":brand="@ + lower_text(joined(brand_entries(r1), ","@)) + ":color="@ + lower_text(text_or(r1.color_filter(), "_"@)) + ":category="@ + lower_text(text_or(r1.category_filter(), "shoes"@)) + ":size="@;
    let x1 = lower_text(text_or(opt_text(v1), "_"@));
    let x2 = lower_text(text_or(opt_text(v2), "_"@));
    if k1 == k2 {
        assert(k1.len() == k2.len());
        assert(x1.len() == x2.len());
        assert forall|t: int| 0 <= t < x1.len() implies x1[t] == x2[t] by {
            assert(k1[a.len() + t] == x1[t]);
            assert(k2[a.len() + t] == x2[t]);
        }
        assert(x1 =~= x2);
    }
}

/// Searches that differ only in their price bound as text share a cache key
/// exactly when the key's form of it, the price bound as text (0 when absent), is the same.
#[verifier::rlimit(40)]
pub proof fn lemma_cache_key_tells_price_bounds_apart(r: SearchRequest, f: Filters, v1: Option<i64>, v2: Option<i64>)
    ensures
        ({
            let r1 = SearchRequest { filters: Some(Filters { price: Some(PriceFilter { max: v1 }), ..f }), ..r };
            let r2 = SearchRequest { filters: Some(Filters { price: Some(PriceFilter { max: v2 }), ..f }), ..r };
            (cache_key_text(r1) == cache_key_text(r2)) <==> (price_text(match v1 { Some(m) => m as int, None => 0 }) == price_text(match v2 { Some(m) => m as int, None => 0 }))
        }),
{
    let r1 = SearchRequest { filters: Some(Filters { price: Some(PriceFilter { max: v1 }), ..f }), ..r };
    let r2 = SearchRequest { filters: Some(Filters { price: Some(PriceFilter { max: v2 }), ..f }), ..r };
    let k1 = cache_key_text(r1);
    let k2 = cache_key_text(r2);
    let a = "search:v1:q="@ + lower_text(text_or(r1.query_text(), Seq::empty())) + ":brand="@ + lower_text(joined(brand_entries(r1), ","@)) + ":color="@ + lower_text(text_or(r1.color_filter(), "_"@)) + ":category="@ + lower_text(text_or(r1.category_filter(), "shoes"@)) + ":size="@ + lower_text(text_or(r1.size_filter(), "_"@)) + ":price_max="@;
    let x1 = price_text(match v1 { Some(m) => m as int, None => 0 });
    let x2 = price_text(match v2 { Some(m) => m as int, None => 0 });
    if k1 == k2 {
        assert(k1.len() == k2.len());
        assert(x1.len() == x2.len());
        assert forall|t: int| 0 <= t < x1.len() implies x1[t] == x2[t] by {
            assert(k1[a.len() + t] == x1[t]);
            assert(k2[a.len() + t] == x2[t]);
        }
        assert(x1 =~= x2);
    }
}

/// Searches that differ only in their least discount as text share a cache key
/// exactly when the key's form of it, the least discount as text (0 when absent), is the same.
#[verifier::rlimit(40)]
pub proof fn lemma_cache_key_tells_discount_minimums_apart(r: SearchRequest, f: Filters, v1: Option<u32>, v2: Option<u32>)
    ensures
        ({
            let r1 = SearchRequest { filters: Some(Filters { discount_min: v1, ..f }), ..r };
            let r2 = SearchRequest { filters: Some(Filters { discount_min: v2, ..f }), ..r };
            (cache_key_text(r1) == cache_key_text(r2)) <==> (decimal(match v1 { Some(d) => d as nat, None => 0 }) == decimal(match v2 { Some(d) => d as nat, None => 0 }))
        }),
{
    let r1 = SearchRequest { filters: Some(Filters { discount_min: v1, ..f }), ..r };
    let r2 = SearchRequest { filters: Some(Filters { discount_min: v2, ..f }), ..r };
    let k1 = cache_key_text(r1);
    let k2 = cache_key_text(r2);
    let a = "search:v1:q="@ + lower_text(text_or(r1.query_text(), Seq::empty())) + ":brand="@ + lower_text(joined(brand_entries(r1), ","@)) + ":color="@ + lower_text(text_or(r1.color_filter(), "_"@)) + ":category="@ + lower_text(text_or(r1.category_filter(), "shoes"@)) + ":size="@ + lower_text(text_or(r1.size_filter(), "_"@)) + ":price_max="@ + price_text(match r1.price_max_filter() { Some(m) => m as int, None => 0 }) + ":discount_min="@;
    let x1 = decimal(match v1 { Some(d) => d as nat, None => 0 });
    let x2 = decimal(match v2 { Some(d) => d as nat, None => 0 });
    if k1 == k2 {
        assert(k1.len() == k2.len());
        assert(x1.len() == x2.len());
        assert forall|t: int| 0 <= t < x1.len() implies x1[t] == x2[t] by {
            assert(k1[a.len() + t] == x1[t]);
            assert(k2[a.len() + t] == x2[t]);
        }
        assert(x1 =~= x2);
    }
}

/// Searches that differ only in their least stock as text share a cache key
/// exactly when the key's form of it, the least stock as text (0 when absent), is the same.
#[verifier::rlimit(40)]
pub proof fn lemma_cache_key_tells_stock_minimums_apart(r: SearchRequest, f: Filters, v1: Option<u32>, v2: Option<u32>)
    ensures
        ({
            let r1 = SearchRequest { filters: Some(Filters { stock_min: v1, ..f }), ..r };
            let r2 = SearchRequest { filters: Some(Filters { stock_min: v2, ..f }), ..r };
            (cache_key_text(r1) == cache_key_text(r2)) <==> (decimal(match v1 { Some(d) => d as nat, None => 0 }) == decimal(match v2 { Some(d) => d as nat, None => 0 }))
        }),
{
    let r1 = SearchRequest { filters: Some(Filters { stock_min: v1, ..f }), ..r };
    let r2 = SearchRequest { filters: Some(Filters { stock_min: v2, ..f }), ..r };
    let k1 = cache_key_text(r1);
    let k2 = cache_key_text(r2);
    let a = "search:v1:q="@ + lower_text(text_or(r1.query_text(), Seq::empty())) + ":brand="@ + lower_text(joined(brand_entries(r1), ","@)) + ":color="@ + lower_text(text_or(r1.color_filter(), "_"@)) + ":category="@ + lower_text(text_or(r1.category_filter(), "shoes"@)) + ":size="@ + lower_text(text_or(r1.size_filter(), "_"@)) + ":price_max="@ + price_text(match r1.price_max_filter() { Some(m) => m as int, None => 0 }) + ":discount_min="@ + decimal(match r1.discount_min_filter() { Some(d) => d as nat, None => 0 }) + ":stock_min="@;
    let x1 = decimal(match v1 { Some(d) => d as nat, None => 0 });
    let x2 = decimal(match v2 { Some(d) => d as nat, None => 0 });
    if k1 == k2 {
        assert(k1.len() == k2.len());
        assert(x1.len() == x2.len());
        assert forall|t: int| 0 <= t < x1.len() implies x1[t] == x2[t] by {
            assert(k1[a.len() + t] == x1[t]);
            assert(k2[a.len() + t] == x2[t]);
        }
        assert(x1 =~= x2);
    }
}

/// Searches that differ only in their order share a cache key
/// exactly when the key's form of it, the order (`relevance` when absent), is the same.
#[verifier::rlimit(40)]
pub proof fn lemma_cache_key_tells_orders_apart(r: SearchRequest, v1: Option<String>, v2: Option<String>)
    ensures
        ({
            let r1 = SearchRequest { sort: v1, ..r };
            let r2 = SearchRequest { sort: v2, ..r };
            (cache_key_text(r1) == cache_key_text(r2)) <==> (lower_text(text_or(opt_text(v1), "relevance"@)) == lower_text(text_or(opt_text(v2), "relevance"@)))
        }),
{
    let r1 = SearchRequest { sort: v1, ..r };
    let r2 = SearchRequest { sort: v2, ..r };
    let k1 = cache_key_text(r1);
    let k2 = cache_key_text(r2);
    let a = "search:v1:q="@ + lower_text(text_or(r1.query_text(), Seq::empty())) + ":brand="@ + lower_text(joined(brand_entries(r1), ","@)) + ":color="@ + lower_text(text_or(r1.color_filter(), "_"@)) + ":category="@ + lower_text(text_or(r1.category_filter(), "shoes"@)) + ":size="@ + lower_text(text_or(r1.size_filter(), "_"@)) + ":price_max="@ + price_text(match r1.price_max_filter() { Some(m) => m as int, None => 0 }) + ":discount_min="@ + decimal(match r1.discount_min_filter() { Some(d) => d as nat, None => 0 }) + ":stock_min="@ + decimal(match r1.stock_min_filter() { Some(d) => d as nat, None => 0 }) + ":sort="@;
    let x1 = lower_text(text_or(opt_text(v1), "relevance"@));
    let x2 = lower_text(text_or(opt_text(v2), "relevance"@));
    if k1 == k2 {
        assert(k1.len() == k2.len());
        assert(x1.len() == x2.len());
        assert forall|t: int| 0 <= t < x1.len() implies x1[t] == x2[t] by {
            assert(k1[a.len() + t] == x1[t]);
            assert(k2[a.len() + t] == x2[t]);
        }
        assert(x1 =~= x2);
    }
}

/// Searches that differ only in their clamped limit share a cache key
/// exactly when the key's form of it, the clamped limit, is the same.
#[verifier::rlimit(40)]
pub proof fn lemma_cache_key_tells_limits_apart(r: SearchRequest, v1: Option<u32>, v2: Option<u32>)
    ensures
        ({
            let r1 = SearchRequest { limit: v1, ..r };
            let r2 = SearchRequest { limit: v2, ..r };
            (cache_key_text(r1) == cache_key_text(r2)) <==> (decimal(SearchRequest { limit: v1, ..r }.result_limit() as nat) == decimal(SearchRequest { limit: v2, ..r }.result_limit() as nat))
        }),
{
    let r1 = SearchRequest { limit: v1, ..r };
    let r2 = SearchRequest { limit: v2, ..r };
    let k1 = cache_key_text(r1);
    let k2 = cache_key_text(r2);
    let a = "search:v1:q="@ + lower_text(text_or(r1.query_text(), Seq::empty())) + ":brand="@ + lower_text(joined(brand_entries(r1), ","@)) + ":color="@ + lower_text(text_or(r1.color_filter(), "_"@)) + ":category="@ + lower_text(text_or(r1.category_filter(), "shoes"@)) + ":size="@ + lower_text(text_or(r1.size_filter(), "_"@)) + ":price_max="@ + price_text(match r1.price_max_filter() { Some(m) => m as int, None => 0 }) + ":discount_min="@ + decimal(match r1.discount_min_filter() { Some(d) => d as nat, None => 0 }) + ":stock_min="@ + decimal(match r1.stock_min_filter() { Some(d) => d as nat, None => 0 }) + ":sort="@ + lower_text(text_or(r1.sort_text(), "relevance"@)) + ":limit="@;
    let x1 = decimal(SearchRequest { limit: v1, ..r }.result_limit() as nat);
    let x2 = decimal(SearchRequest { limit: v2, ..r }.result_limit() as nat);
    if k1 == k2 {
        assert(k1.len() == k2.len());
        assert(x1.len() == x2.len());
        assert forall|t: int| 0 <= t < x1.len() implies x1[t] == x2[t] by {
            assert(k1[a.len() + t] == x1[t]);
            assert(k2[a.len() + t] == x2[t]);
        }
        assert(x1 =~= x2);
    }
}

/// Whether a character is a decimal digit.
pub open spec fn is_digit(c: char) -> bool {
    '0' <= c && c <= '9'
}

proof fn lemma_decimal_shape(n: nat)
    ensures
        decimal(n).len() >= 1,
        n >= 10 ==> decimal(n).len() >= 2,
        forall|i: int| 0 <= i < decimal(n).len() ==> is_digit(#[trigger] decimal(n)[i]),
    decreases n,
{
    if n >= 10 {
        lemma_decimal_shape(n / 10);
    }
}

proof fn lemma_digit_char_injective(a: nat, b: nat)
    requires
        a < 10,
        b < 10,
        digit_char(a) == digit_char(b),
    ensures
        a == b,
{
}

proof fn lemma_decimal_injective(a: nat, b: nat)
    requires
        decimal(a) == decimal(b),
    ensures
        a == b,
    decreases a,
{
    lemma_decimal_shape(a);
    lemma_decimal_shape(b);
    if a >= 10 && b >= 10 {
        assert(decimal(a) == decimal(a / 10).push(digit_char(a % 10)));
        assert(decimal(b) == decimal(b / 10).push(digit_char(b % 10)));
        assert(decimal(a).last() == digit_char(a % 10));
        assert(decimal(b).last() == digit_char(b % 10));
        assert(decimal(a).drop_last() =~= decimal(a / 10));
        assert(decimal(b).drop_last() =~= decimal(b / 10));
        lemma_decimal_injective(a / 10, b / 10);
        lemma_digit_char_injective(a % 10, b % 10);
    } else if a < 10 && b < 10 {
        assert(decimal(a) == seq![digit_char(a)]);
        assert(decimal(b) == seq![digit_char(b)]);
        assert(decimal(a)[0] == digit_char(a));
        assert(decimal(b)[0] == digit_char(b));
        lemma_digit_char_injective(a, b);
    } else {
        assert(decimal(a).len() != decimal(b).len());
    }
}

/// The cache key of a search ends with its page, after `:page=`.
proof fn lemma_cache_key_ends_with_page(r: SearchRequest)
    ensures
        ({
            let k = cache_key_text(r);
            let d = decimal(r.page_number() as nat);
            &&& k.len() > d.len()
            &&& k.skip(k.len() - d.len()) == d
            &&& k[k.len() - d.len() - 1] == '='
        }),
{
    reveal_strlit(":page=");
    let k = cache_key_text(r);
    let d = decimal(r.page_number() as nat);
    let x = k.subrange(0, k.len() - d.len());
    assert(k =~= x + d);
    assert(x.last() == '=');
    assert(k.skip(k.len() - d.len()) =~= d);
}

/// Searches for different pages never share a cache key, so a cached
/// page is never given for another.
#[verifier::rlimit(40)]
pub proof fn lemma_cache_key_tells_pages_apart(r1: SearchRequest, r2: SearchRequest)
    requires
        r1.page_number() != r2.page_number(),
    ensures
        cache_key_text(r1) != cache_key_text(r2),
{
    let d1 = decimal(r1.page_number() as nat);
    let d2 = decimal(r2.page_number() as nat);
    lemma_cache_key_ends_with_page(r1);
    lemma_cache_key_ends_with_page(r2);
    lemma_decimal_shape(r1.page_number() as nat);
    lemma_decimal_shape(r2.page_number() as nat);
    if cache_key_text(r1) == cache_key_text(r2) {
        let k = cache_key_text(r1);
        if d1.len() < d2.len() {
            let i = k.len() - d1.len() - 1;
            assert(k.skip(k.len() - d2.len())[i - (k.len() - d2.len())] == k[i]);
            assert(is_digit(d2[i - (k.len() - d2.len())]));
        } else if d2.len() < d1.len() {
            let i = k.len() - d2.len() - 1;
            assert(k.skip(k.len() - d1.len())[i - (k.len() - d1.len())] == k[i]);
            assert(is_digit(d1[i - (k.len() - d1.len())]));
        } else {
            lemma_decimal_injective(r1.page_number() as nat, r2.page_number() as nat);
        }
    }
}

/// The text of an optional string, or the default.
pub(crate) fn text_or_default<'a>(o: &'a Option<String>, default: &'a str) -> (r: &'a str)
    ensures
        r@ == text_or(opt_text(*o), default@),
{
    match o {
        Some(t) => t.as_str(),
        None => default,
    }
}

/// The key under which the answer to `request` is cached.
pub fn search_cache_key(request: &SearchRequest) -> (key: String)
    ensures
        key@ == cache_key_text(*request),
        key_states_search(*request, key@),
{
    proof {
        lemma_cache_key_states_search(*request);
    }
    let (brand, color, category, size, price_max, discount_min, stock_min) = match &request.filters {
        Some(f) => {
            let brand = match &f.brand {
                Some(b) => join_texts(b, ","),
                None => String::new(),
            };
            let price_max: i64 = match &f.price {
                Some(p) => match p.max {
                    Some(m) => m,
                    None => 0,
                },
                None => 0,
            };
            let discount_min: u32 = match f.discount_min {
                Some(d) => d,
                None => 0,
            };
            let stock_min: u32 = match f.stock_min {
                Some(s) => s,
                None => 0,
            };
            (
                brand,
                text_or_default(&f.color, "_"),
                text_or_default(&f.category, "shoes"),
                text_or_default(&f.size, "_"),
                price_max,
                discount_min,
                stock_min,
            )
        },
        None => (String::new(), "_", "shoes", "_", 0i64, 0u32, 0u32),
    };
    assert(brand@ == joined(
        match request.brand_filter() {
            Some(b) => b,
            None => Seq::empty(),
        },
        ","@,
    ));
    assert(color@ == text_or(request.color_filter(), "_"@));
    assert(category@ == text_or(request.category_filter(), "shoes"@));
    assert(size@ == text_or(request.size_filter(), "_"@));
    assert(price_max as int == match request.price_max_filter() {
        Some(m) => m as int,
        None => 0,
    });
    assert(discount_min as nat == match request.discount_min_filter() {
        Some(d) => d as nat,
        None => 0,
    });
    assert(stock_min as nat == match request.stock_min_filter() {
        Some(d) => d as nat,
        None => 0,
    });
    proof {
        reveal_strlit("");
        assert(""@ =~= Seq::<char>::empty());
    }
    let mut key = String::from_str("search:v1:q=");
    let q = lowercased(text_or_default(&request.query, ""));
    assert(q@ == lower_text(text_or(request.query_text(), Seq::empty())));
    key.append(q.as_str());
    key.append(":brand=");
    key.append(lowercased(brand.as_str()).as_str());
    key.append(":color=");
    key.append(lowercased(color).as_str());
    key.append(":category=");
    key.append(lowercased(category).as_str());
    key.append(":size=");
    key.append(lowercased(size).as_str());
    key.append(":price_max=");
    push_price(&mut key, price_max);
    key.append(":discount_min=");
    push_decimal(&mut key, discount_min as u64);
    key.append(":stock_min=");
    push_decimal(&mut key, stock_min as u64);
    key.append(":sort=");
    key.append(lowercased(text_or_default(&request.sort, "relevance")).as_str());
    key.append(":limit=");
    push_decimal(&mut key, result_limit(request) as u64);
    key.append(":page=");
    push_decimal(&mut key, page_number(request) as u64);
    assert(key@ =~= cache_key_text(*request));
    key
}

/// The text of the pattern that names every cached search answer.
pub open spec fn invalidation_pattern_text() -> Seq<char> {
    "search:v1:*"@
}

/// The pattern that names every cached search answer, for removing them.
pub fn invalidation_pattern() -> (p: &'static str)
    ensures
        p@ == invalidation_pattern_text(),
{
    "search:v1:*"
}

/// Whether a key-store glob pattern that ends in its one wildcard `*`
/// matches a key: the rest of the pattern must begin the key.
pub open spec fn prefix_glob_matches(pattern: Seq<char>, key: Seq<char>) -> bool {
    &&& pattern.len() > 0
    &&& pattern.last() == '*'
    &&& pattern.drop_last().is_prefix_of(key)
}

/// Every cache key of a search is matched by the invalidation pattern, so
/// removing the keys that the pattern names drops every cached answer.
pub proof fn lemma_cache_key_matches_invalidation_pattern(r: SearchRequest)
    ensures
        prefix_glob_matches(invalidation_pattern_text(), cache_key_text(r)),
{
    reveal_strlit("search:v1:*");
    reveal_strlit("search:v1:q=");
    let k = cache_key_text(r);
    let p = invalidation_pattern_text();
    assert(k.subrange(0, 12) =~= "search:v1:q="@);
    assert(p.drop_last() =~= k.subrange(0, 10));
}

} // verus!

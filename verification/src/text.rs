//! Text helpers: decimal rendering, price rendering, joining, searching and
//! comparing strings.
use vstd::prelude::*;
use vstd::string::*;

verus! {

/// The character of a decimal digit.
pub open spec fn digit_char(d: nat) -> char {
    if d == 0 { '0' }
    else if d == 1 { '1' }
    else if d == 2 { '2' }
    else if d == 3 { '3' }
    else if d == 4 { '4' }
    else if d == 5 { '5' }
    else if d == 6 { '6' }
    else if d == 7 { '7' }
    else if d == 8 { '8' }
    else { '9' }
}

/// Decimal notation of a natural number, most significant digit first,
/// without leading zeros.
pub open spec fn decimal(n: nat) -> Seq<char>
    decreases n,
{
    if n < 10 {
        seq![digit_char(n)]
    } else {
        decimal(n / 10).push(digit_char(n % 10))
    }
}

/// The number a digit character stands for.
pub open spec fn digit_value(c: char) -> int {
    (c as u32) as int - 48
}

/// The number that a text of decimal digits stands for, most significant
/// digit first.
pub open spec fn denoted(s: Seq<char>) -> int
    decreases s.len(),
{
    if s.len() == 0 {
        0
    } else {
        denoted(s.drop_last()) * 10 + digit_value(s.last())
    }
}

proof fn lemma_digit_value(d: nat)
    requires
        d < 10,
    ensures
        digit_value(digit_char(d)) == d,
        '0' <= digit_char(d) <= '9',
{
    assert('0' as u32 == 48);
    assert('9' as u32 == 57);
    if d == 0 { assert('0' as u32 == 48); }
    else if d == 1 { assert('1' as u32 == 49); }
    else if d == 2 { assert('2' as u32 == 50); }
    else if d == 3 { assert('3' as u32 == 51); }
    else if d == 4 { assert('4' as u32 == 52); }
    else if d == 5 { assert('5' as u32 == 53); }
    else if d == 6 { assert('6' as u32 == 54); }
    else if d == 7 { assert('7' as u32 == 55); }
    else if d == 8 { assert('8' as u32 == 56); }
    else { assert('9' as u32 == 57); }
}

/// The decimal notation of a number is made of digits, stands for that very
/// number, and has no leading zero.
pub proof fn lemma_decimal_denotes(n: nat)
    ensures
        denoted(decimal(n)) == n,
        decimal(n).len() >= 1,
        forall|i: int| 0 <= i < decimal(n).len() ==> '0' <= #[trigger] decimal(n)[i] && decimal(n)[i] <= '9',
        n >= 10 ==> decimal(n)[0] != '0',
    decreases n,
{
    if n < 10 {
        lemma_digit_value(n);
        assert(decimal(n) == seq![digit_char(n)]);
        assert(decimal(n).drop_last() =~= Seq::<char>::empty());
        assert(denoted(Seq::<char>::empty()) == 0);
        assert(decimal(n).last() == digit_char(n));
    } else {
        lemma_decimal_denotes(n / 10);
        lemma_digit_value(n % 10);
        let d = decimal(n / 10);
        assert(decimal(n) == d.push(digit_char(n % 10)));
        assert(decimal(n).drop_last() =~= d);
        assert(decimal(n).last() == digit_char(n % 10));
        assert(decimal(n)[0] == d[0]);
        assert forall|i: int| 0 <= i < decimal(n).len() implies '0' <= #[trigger] decimal(n)[i] && decimal(n)[i] <= '9' by {
            if i < d.len() {
                assert(decimal(n)[i] == d[i]);
            }
        }
    }
}

fn digit_str(d: u64) -> (s: &'static str)
    requires
        d < 10,
    ensures
        s@ == seq![digit_char(d as nat)],
{
    proof {
        reveal_strlit("0");
        reveal_strlit("1");
        reveal_strlit("2");
        reveal_strlit("3");
        reveal_strlit("4");
        reveal_strlit("5");
        reveal_strlit("6");
        reveal_strlit("7");
        reveal_strlit("8");
        reveal_strlit("9");
    }
    if d == 0 { "0" }
    else if d == 1 { "1" }
    else if d == 2 { "2" }
    else if d == 3 { "3" }
    else if d == 4 { "4" }
    else if d == 5 { "5" }
    else if d == 6 { "6" }
    else if d == 7 { "7" }
    else if d == 8 { "8" }
    else { "9" }
}

/// Appends the decimal notation of `n` to `out`.
pub fn push_decimal(out: &mut String, n: u64)
    ensures
        final(out)@ == old(out)@ + decimal(n as nat),
        denoted(final(out)@.skip(old(out)@.len() as int)) == n,
    decreases n,
{
    proof {
        lemma_decimal_denotes(n as nat);
    }
    if n >= 10 {
        push_decimal(out, n / 10);
    }
    out.append(digit_str(n % 10));
    assert(final(out)@.skip(old(out)@.len() as int) =~= decimal(n as nat));
}


/// Text of an amount given in hundredths, as the decimal number it stands
/// for: a minus sign when negative, the whole part, then a point and the
/// significant fractional digits, if any (`6000` is "60", `4990` is
/// "49.9", `4999` is "49.99", `-5` is "-0.05").
pub open spec fn price_text(cents: int) -> Seq<char> {
    let m: int = if cents < 0 { -cents } else { cents };
    let whole: nat = (m / 100) as nat;
    let frac: int = m % 100;
    let sign: Seq<char> = if cents < 0 { seq!['-'] } else { Seq::empty() };
    let tail: Seq<char> = if frac == 0 {
        Seq::empty()
    } else if frac % 10 == 0 {
        seq!['.', digit_char((frac / 10) as nat)]
    } else {
        seq!['.', digit_char((frac / 10) as nat), digit_char((frac % 10) as nat)]
    };
    sign + decimal(whole) + tail
}

/// The text of an amount in hundredths is the decimal number it stands
/// for, written without trailing zeros: a minus sign when negative, the
/// whole part, and, only when there are hundredths, a point followed by one
/// or two digits that do not end in `0` and stand for them.
pub open spec fn reads_as_amount(t: Seq<char>, cents: int) -> bool {
    let m: int = if cents < 0 { -cents } else { cents };
    let sign: Seq<char> = if cents < 0 { seq!['-'] } else { Seq::empty() };
    let whole = sign + decimal((m / 100) as nat);
    if m % 100 == 0 {
        t == whole
    } else {
        &&& t.len() > whole.len() + 1
        &&& t.subrange(0, whole.len() as int) == whole
        &&& t[whole.len() as int] == '.'
        &&& ({
            let f = t.skip((whole.len() + 1) as int);
            &&& 1 <= f.len() <= 2
            &&& forall|i: int| 0 <= i < f.len() ==> '0' <= #[trigger] f[i] && f[i] <= '9'
            &&& f.last() != '0'
            &&& denoted(f) * (if f.len() == 1 { 10int } else { 1int }) == m % 100
        })
    }
}

/// The text of every amount reads as that amount.
pub proof fn lemma_price_text_reads_as_amount(cents: int)
    ensures
        reads_as_amount(price_text(cents), cents),
{
    let m: int = if cents < 0 { -cents } else { cents };
    let frac = m % 100;
    let sign: Seq<char> = if cents < 0 { seq!['-'] } else { Seq::empty() };
    let whole = sign + decimal((m / 100) as nat);
    let t = price_text(cents);
    if frac != 0 {
        lemma_digit_value((frac / 10) as nat);
        lemma_digit_value((frac % 10) as nat);
        let d1 = digit_char((frac / 10) as nat);
        let d2 = digit_char((frac % 10) as nat);
        if frac % 10 == 0 {
            let tail = seq!['.', d1];
            assert(t == whole + tail);
            let f = t.skip((whole.len() + 1) as int);
            assert(t.subrange(0, whole.len() as int) =~= whole);
            assert(t[whole.len() as int] == '.');
            assert(f =~= seq![d1]);
            assert(f.drop_last() =~= Seq::<char>::empty());
            assert(denoted(Seq::<char>::empty()) == 0);
            assert(frac / 10 != 0);
            assert(d1 != '0');
            assert(denoted(f) == digit_value(d1));
        } else {
            let tail = seq!['.', d1, d2];
            assert(t == whole + tail);
            let f = t.skip((whole.len() + 1) as int);
            assert(t.subrange(0, whole.len() as int) =~= whole);
            assert(t[whole.len() as int] == '.');
            assert(f =~= seq![d1, d2]);
            assert(f.drop_last() =~= seq![d1]);
            assert(f.drop_last().drop_last() =~= Seq::<char>::empty());
            assert(denoted(Seq::<char>::empty()) == 0);
            assert(d2 != '0');
            assert(denoted(f.drop_last()) == digit_value(d1));
            assert(denoted(f) == digit_value(d1) * 10 + digit_value(d2));
        }
    } else {
        assert(t =~= whole);
    }
}

/// Appends the text of an amount in hundredths to `out`.
pub fn push_price(out: &mut String, cents: i64)
    ensures
        final(out)@ == old(out)@ + price_text(cents as int),
        reads_as_amount(final(out)@.skip(old(out)@.len() as int), cents as int),
{
    proof {
        lemma_price_text_reads_as_amount(cents as int);
    }
    proof {
        reveal_strlit("-");
        reveal_strlit(".");
    }
    let magnitude: u64 = if cents < 0 {
        ((-(cents + 1)) as u64) + 1
    } else {
        cents as u64
    };
    assert(magnitude as int == if cents < 0 { -(cents as int) } else { cents as int });
    if cents < 0 {
        out.append("-");
    }
    push_decimal(out, magnitude / 100);
    let frac: u64 = magnitude % 100;
    if frac != 0 {
        out.append(".");
        out.append(digit_str(frac / 10));
        if frac % 10 != 0 {
            out.append(digit_str(frac % 10));
        }
    }
    assert(final(out)@ =~= old(out)@ + price_text(cents as int));
    assert(final(out)@.skip(old(out)@.len() as int) =~= price_text(cents as int));
}

/// The parts joined into one text, with `sep` between each two neighbours.
pub open spec fn joined(parts: Seq<Seq<char>>, sep: Seq<char>) -> Seq<char>
    decreases parts.len(),
{
    if parts.len() == 0 {
        Seq::empty()
    } else if parts.len() == 1 {
        parts[0]
    } else {
        joined(parts.drop_last(), sep) + sep + parts.last()
    }
}

/// Whether no part holds the character `c`.
pub open spec fn parts_free_of(parts: Seq<Seq<char>>, c: char) -> bool {
    forall|i: int| 0 <= i < parts.len() ==> !(#[trigger] parts[i]).contains(c)
}

proof fn lemma_joined_holds_separator(parts: Seq<Seq<char>>, c: char)
    requires
        parts.len() >= 2,
    ensures
        joined(parts, seq![c]).contains(c),
{
    let d = parts.drop_last();
    let x = joined(d, seq![c]) + seq![c];
    assert(joined(parts, seq![c]) == x + parts.last());
    assert(joined(parts, seq![c])[x.len() - 1] == c);
}

/// Joining with a one-character separator loses nothing when no part holds
/// the separator: two lists of parts (each with at least one part) that
/// join to the same text are the same list.
pub proof fn lemma_joined_tells_lists_apart(p1: Seq<Seq<char>>, p2: Seq<Seq<char>>, c: char)
    requires
        p1.len() >= 1,
        p2.len() >= 1,
        parts_free_of(p1, c),
        parts_free_of(p2, c),
        joined(p1, seq![c]) == joined(p2, seq![c]),
    ensures
        p1 == p2,
    decreases p1.len(),
{
    if p1.len() == 1 && p2.len() == 1 {
        assert(p1 =~= p2);
    } else if p1.len() == 1 {
        lemma_joined_holds_separator(p2, c);
        assert(!p1[0].contains(c));
    } else if p2.len() == 1 {
        lemma_joined_holds_separator(p1, c);
        assert(!p2[0].contains(c));
    } else {
        let d1 = p1.drop_last();
        let d2 = p2.drop_last();
        let l1 = p1.last();
        let l2 = p2.last();
        let a1 = joined(d1, seq![c]) + seq![c];
        let a2 = joined(d2, seq![c]) + seq![c];
        let j = joined(p1, seq![c]);
        assert(j == a1 + l1);
        assert(j == a2 + l2);
        assert(!l1.contains(c));
        assert(!l2.contains(c));
        if l1.len() < l2.len() {
            assert(j[a1.len() - 1] == c);
            assert(j[a1.len() - 1] == l2[a1.len() - 1 - a2.len()]);
        } else if l2.len() < l1.len() {
            assert(j[a2.len() - 1] == c);
            assert(j[a2.len() - 1] == l1[a2.len() - 1 - a1.len()]);
        } else {
            assert(l1 =~= j.skip(a1.len() as int));
            assert(l2 =~= j.skip(a2.len() as int));
            assert(joined(d1, seq![c]) =~= j.take(a1.len() - 1));
            assert(joined(d2, seq![c]) =~= j.take(a2.len() - 1));
            assert forall|i: int| 0 <= i < d1.len() implies !(#[trigger] d1[i]).contains(c) by {
                assert(d1[i] == p1[i]);
            }
            assert forall|i: int| 0 <= i < d2.len() implies !(#[trigger] d2[i]).contains(c) by {
                assert(d2[i] == p2[i]);
            }
            lemma_joined_tells_lists_apart(d1, d2, c);
            assert(p1 =~= d1.push(l1));
            assert(p2 =~= d2.push(l2));
        }
    }
}

/// The views of a list of strings.
pub open spec fn texts(v: Seq<String>) -> Seq<Seq<char>> {
    v.map_values(|s: String| s@)
}

/// Joins the strings with `sep` between each two neighbours.
pub fn join_texts(parts: &Vec<String>, sep: &str) -> (res: String)
    ensures
        res@ == joined(texts(parts@), sep@),
{
    let mut res = String::new();
    let n = parts.len();
    let ghost all = texts(parts@);
    for i in 0..n
        invariant
            n == parts@.len(),
            all == texts(parts@),
            res@ == joined(all.take(i as int), sep@),
    {
        assert(all.take(i + 1).drop_last() =~= all.take(i as int));
        if i != 0 {
            res.append(sep);
        }
        res.append(parts[i].as_str());
        assert(all.take(i + 1).last() == parts@[i as int]@);
    }
    assert(all.take(n as int) =~= all);
    res
}

/// The characters of a string, one by one.
pub fn chars_of(s: &str) -> (v: Vec<char>)
    ensures
        v@ == s@,
{
    let n = s.unicode_len();
    let mut v: Vec<char> = Vec::new();
    for i in 0..n
        invariant
            n == s@.len(),
            v@ == s@.take(i as int),
    {
        v.push(s.get_char(i));
        assert(v@ =~= s@.take(i + 1));
    }
    assert(s@.take(n as int) =~= s@);
    v
}

/// Whether the text `pat` occurs in `s` as a contiguous run of characters.
pub open spec fn contains_text(s: Seq<char>, pat: Seq<char>) -> bool {
    exists|i: int|
        0 <= i && i + pat.len() <= s.len() && #[trigger] s.subrange(i, i + pat.len()) == pat
}

fn occurs_at(s: &Vec<char>, pat: &Vec<char>, at: usize) -> (b: bool)
    requires
        at + pat@.len() <= s@.len(),
    ensures
        b == (s@.subrange(at as int, at + pat@.len()) == pat@),
{
    let m = pat.len();
    let total = s.len();
    for j in 0..m
        invariant
            m == pat@.len(),
            at + m <= s@.len(),
            total == s@.len(),
            forall|k: int| 0 <= k < j ==> s@[at + k] == pat@[k],
    {
        assert(at + j < s@.len());
        if s[at + j] != pat[j] {
            assert(s@.subrange(at as int, at + m)[j as int] != pat@[j as int]);
            return false;
        }
    }
    assert(s@.subrange(at as int, at + m) =~= pat@);
    true
}

/// Whether `pat` occurs in `s`.
pub fn text_contains(s: &str, pat: &str) -> (b: bool)
    ensures
        b == contains_text(s@, pat@),
{
    let sv = chars_of(s);
    let pv = chars_of(pat);
    let n = sv.len();
    let m = pv.len();
    if m > n {
        assert forall|i: int| 0 <= i && i + pat@.len() <= s@.len() implies
            #[trigger] s@.subrange(i, i + pat@.len()) != pat@ by {}
        return false;
    }
    let last = n - m;
    let mut i: usize = 0;
    loop
        invariant
            sv@ == s@,
            pv@ == pat@,
            n == s@.len(),
            m == pat@.len(),
            last == n - m,
            i <= last,
            forall|k: int| 0 <= k < i ==> #[trigger] s@.subrange(k, k + m) != pat@,
        ensures
            forall|k: int| 0 <= k <= last ==> #[trigger] s@.subrange(k, k + m) != pat@,
        decreases last - i,
    {
        if occurs_at(&sv, &pv, i) {
            return true;
        }
        if i == last {
            break;
        }
        i = i + 1;
    }
    assert forall|i: int| 0 <= i && i + pat@.len() <= s@.len() implies
        #[trigger] s@.subrange(i, i + pat@.len()) != pat@ by {
        assert(i <= last);
    }
    false
}

/// Whether two texts are the same character for character.
pub fn text_equals(a: &str, b: &str) -> (r: bool)
    ensures
        r == (a@ == b@),
{
    let av = chars_of(a);
    let bv = chars_of(b);
    if av.len() != bv.len() {
        return false;
    }
    let n = av.len();
    for i in 0..n
        invariant
            av@ == a@,
            bv@ == b@,
            n == a@.len(),
            n == b@.len(),
            forall|k: int| 0 <= k < i ==> a@[k] == b@[k],
    {
        if av[i] != bv[i] {
            return false;
        }
    }
    assert(a@ =~= b@);
    true
}

proof fn lemma_ascii_lower_char_code(c: char)
    ensures
        ascii_lower_char(c) as u32 == ascii_folded(c),
{
    if 65 <= (c as u32) && (c as u32) <= 90 {
        let u: u32 = (c as u32 + 32) as u32;
        assert(97 <= u <= 122);
    }
}

/// Comparing without regard to ASCII case is comparing the texts with their
/// ASCII capitals taken to small letters.
pub proof fn lemma_same_ignoring_case_is_equal_lowercase(a: Seq<char>, b: Seq<char>)
    ensures
        same_ignoring_ascii_case(a, b) == (ascii_lowercase(a) == ascii_lowercase(b)),
{
    if same_ignoring_ascii_case(a, b) {
        assert forall|i: int| 0 <= i < a.len() implies ascii_lowercase(a)[i] == ascii_lowercase(b)[i] by {
            lemma_ascii_lower_char_code(a[i]);
            lemma_ascii_lower_char_code(b[i]);
            assert(ascii_folded(a[i]) == ascii_folded(b[i]));
        }
        assert(ascii_lowercase(a) =~= ascii_lowercase(b));
    }
    if ascii_lowercase(a) == ascii_lowercase(b) {
        assert(a.len() == ascii_lowercase(a).len());
        assert forall|i: int| 0 <= i < a.len() implies ascii_folded(#[trigger] a[i]) == ascii_folded(b[i]) by {
            lemma_ascii_lower_char_code(a[i]);
            lemma_ascii_lower_char_code(b[i]);
            assert(ascii_lowercase(a)[i] == ascii_lowercase(b)[i]);
        }
    }
}

/// The code of a character with ASCII capitals `A`..`Z` taken to their
/// small letters; every other character keeps its code.
pub open spec fn ascii_folded(c: char) -> u32 {
    if 65 <= (c as u32) && (c as u32) <= 90 {
        (c as u32 + 32) as u32
    } else {
        c as u32
    }
}

/// Whether two texts are equal once ASCII letters are compared without
/// regard to case.
pub open spec fn same_ignoring_ascii_case(a: Seq<char>, b: Seq<char>) -> bool {
    &&& a.len() == b.len()
    &&& forall|i: int| 0 <= i < a.len() ==> ascii_folded(#[trigger] a[i]) == ascii_folded(b[i])
}

fn fold_char(c: char) -> (r: u32)
    ensures
        r == ascii_folded(c),
{
    let code = c as u32;
    if 65 <= code && code <= 90 {
        code + 32
    } else {
        code
    }
}

/// Compares two texts, treating ASCII capitals as their small letters.
pub fn eq_ignore_ascii_case(a: &str, b: &str) -> (r: bool)
    ensures
        r == same_ignoring_ascii_case(a@, b@),
        r == (ascii_lowercase(a@) == ascii_lowercase(b@)),
{
    proof {
        lemma_same_ignoring_case_is_equal_lowercase(a@, b@);
    }
    let av = chars_of(a);
    let bv = chars_of(b);
    if av.len() != bv.len() {
        return false;
    }
    let n = av.len();
    for i in 0..n
        invariant
            av@ == a@,
            bv@ == b@,
            n == a@.len(),
            n == b@.len(),
            forall|k: int| 0 <= k < i ==> ascii_folded(#[trigger] a@[k]) == ascii_folded(b@[k]),
            same_ignoring_ascii_case(a@, b@) == (ascii_lowercase(a@) == ascii_lowercase(b@)),
    {
        if fold_char(av[i]) != fold_char(bv[i]) {
            return false;
        }
    }
    true
}

/// Whether every character of a text is ASCII.
pub open spec fn is_ascii_text(s: Seq<char>) -> bool {
    forall|i: int| 0 <= i < s.len() ==> (#[trigger] s[i] as u32) < 128
}

/// An ASCII capital `A`..`Z` taken to its small letter; every other
/// character as it is.
pub open spec fn ascii_lower_char(c: char) -> char {
    if 65 <= (c as u32) && (c as u32) <= 90 {
        ((c as u32) + 32) as char
    } else {
        c
    }
}

/// A text with its ASCII capitals taken to small letters.
pub open spec fn ascii_lowercase(s: Seq<char>) -> Seq<char> {
    s.map_values(|c: char| ascii_lower_char(c))
}

/// What `str::to_lowercase` returns for a text: its Unicode lowercase form.
pub uninterp spec fn lowercase(s: Seq<char>) -> Seq<char>;

/// Calls `str::to_lowercase`. Its documentation defines the result by the
/// Unicode `Lowercase` mapping; it depends on the text alone, and this
/// contract names it (`lowercase`). Of that mapping it states only what it
/// does to ASCII text: `A`..`Z` become `a`..`z` and every other ASCII
/// character stays.
#[verifier::external_body]
pub(crate) fn to_lowercase(s: &str) -> (r: String)
    ensures
        r@ == lowercase(s@),
        is_ascii_text(s@) ==> r@ == ascii_lowercase(s@),
{
    s.to_lowercase()
}

/// The lowercase form of a text: the ASCII one for ASCII text, the Unicode
/// one (`lowercase`) for any other.
pub open spec fn lower_text(s: Seq<char>) -> Seq<char> {
    if is_ascii_text(s) {
        ascii_lowercase(s)
    } else {
        lowercase(s)
    }
}

/// The lowercase form of a text, as `str::to_lowercase` gives it.
pub fn lowercased(s: &str) -> (r: String)
    ensures
        r@ == lower_text(s@),
        r@ == lowercase(s@),
        is_ascii_text(s@) ==> r@ == ascii_lowercase(s@),
{
    to_lowercase(s)
}

/// Whether a character has the Unicode `White_Space` property: tab, line
/// feed, vertical tab, form feed, carriage return, space, next line,
/// no-break space, ogham space mark, the spaces U+2000 to U+200A, line and
/// paragraph separators, narrow no-break space, medium mathematical space
/// and ideographic space.
pub open spec fn is_white_space(c: char) -> bool {
    let u = c as u32;
    ||| 9 <= u && u <= 13
    ||| u == 0x20
    ||| u == 0x85
    ||| u == 0xA0
    ||| u == 0x1680
    ||| 0x2000 <= u && u <= 0x200A
    ||| u == 0x2028
    ||| u == 0x2029
    ||| u == 0x202F
    ||| u == 0x205F
    ||| u == 0x3000
}

/// A text without its leading white space.
pub open spec fn trimmed_start(s: Seq<char>) -> Seq<char>
    decreases s.len(),
{
    if s.len() > 0 && is_white_space(s[0]) {
        trimmed_start(s.drop_first())
    } else {
        s
    }
}

/// A text without its trailing white space.
pub open spec fn trimmed_end(s: Seq<char>) -> Seq<char>
    decreases s.len(),
{
    if s.len() > 0 && is_white_space(s.last()) {
        trimmed_end(s.drop_last())
    } else {
        s
    }
}

/// A text without its leading and trailing white space.
pub open spec fn trimmed(s: Seq<char>) -> Seq<char> {
    trimmed_end(trimmed_start(s))
}

fn white_space(c: char) -> (b: bool)
    ensures
        b == is_white_space(c),
{
    let u = c as u32;
    (9 <= u && u <= 13) || u == 0x20 || u == 0x85 || u == 0xA0 || u == 0x1680 || (0x2000 <= u && u
        <= 0x200A) || u == 0x2028 || u == 0x2029 || u == 0x202F || u == 0x205F || u == 0x3000
}

/// A text without its leading and trailing white space, as `str::trim`
/// gives it.
pub fn trim(s: &str) -> (r: &str)
    ensures
        r@ == trimmed(s@),
        // What is left is a run of the text with only white space cut from
        // either end, and it neither starts nor ends with white space.
        exists|i: int, j: int|
            0 <= i <= j <= s@.len() && r@ == s@.subrange(i, j) && (forall|k: int|
                0 <= k < i ==> is_white_space(#[trigger] s@[k])) && (forall|k: int|
                j <= k < s@.len() ==> is_white_space(#[trigger] s@[k])),
        r@.len() > 0 ==> !is_white_space(r@[0]) && !is_white_space(r@.last()),
{
    let v = chars_of(s);
    let n = v.len();
    let mut i: usize = 0;
    assert(s@.subrange(0, n as int) =~= s@);
    while i < n && white_space(v[i])
        invariant
            v@ == s@,
            n == s@.len(),
            i <= n,
            trimmed_start(s@) == trimmed_start(s@.subrange(i as int, n as int)),
            forall|k: int| 0 <= k < i ==> is_white_space(#[trigger] s@[k]),
        decreases n - i,
    {
        assert(s@.subrange(i as int, n as int).drop_first() =~= s@.subrange(i + 1, n as int));
        i = i + 1;
    }
    assert(trimmed_start(s@) == s@.subrange(i as int, n as int));
    let mut j: usize = n;
    while j > i && white_space(v[j - 1])
        invariant
            v@ == s@,
            n == s@.len(),
            i <= j <= n,
            trimmed(s@) == trimmed_end(s@.subrange(i as int, j as int)),
            forall|k: int| 0 <= k < i ==> is_white_space(#[trigger] s@[k]),
            forall|k: int| j <= k < n ==> is_white_space(#[trigger] s@[k]),
            i < n ==> !is_white_space(s@[i as int]),
        decreases j,
    {
        assert(s@.subrange(i as int, j as int).drop_last() =~= s@.subrange(i as int, j - 1));
        j = j - 1;
    }
    let r = s.substring_char(i, j);
    assert(r@.len() > 0 ==> r@[0] == s@[i as int] && r@.last() == s@[j - 1]);
    r
}

} // verus!

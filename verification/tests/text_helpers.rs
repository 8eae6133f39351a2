use shopwire::text::{
    chars_of, eq_ignore_ascii_case, join_texts, push_decimal, push_price, text_contains, text_equals,
};

fn decimal(n: u64) -> String {
    let mut s = String::new();
    push_decimal(&mut s, n);
    s
}

fn price(c: i64) -> String {
    let mut s = String::from("p=");
    push_price(&mut s, c);
    s
}

#[test]
fn decimal_renders_numbers() {
    assert_eq!(decimal(0), "0");
    assert_eq!(decimal(7), "7");
    assert_eq!(decimal(10), "10");
    assert_eq!(decimal(4294967295), "4294967295");
    assert_eq!(decimal(u64::MAX), "18446744073709551615");
}

#[test]
fn price_renders_like_a_decimal_number() {
    assert_eq!(price(0), "p=0");
    assert_eq!(price(6000), "p=60");
    assert_eq!(price(4999), "p=49.99");
    assert_eq!(price(4990), "p=49.9");
    assert_eq!(price(5), "p=0.05");
    assert_eq!(price(-5), "p=-0.05");
    assert_eq!(price(-12345), "p=-123.45");
    assert_eq!(price(i64::MIN), "p=-92233720368547758.08");
    assert_eq!(price(i64::MAX), "p=92233720368547758.07");
}

#[test]
fn join_puts_separator_between_parts() {
    assert_eq!(join_texts(&vec![], ","), "");
    assert_eq!(join_texts(&vec!["nike".to_string()], ","), "nike");
    assert_eq!(
        join_texts(&vec!["nike".to_string(), "adidas".to_string(), "puma".to_string()], ","),
        "nike,adidas,puma"
    );
}

#[test]
fn contains_finds_runs_of_characters() {
    assert!(text_contains("cheap blue nike", "nike"));
    assert!(text_contains("nike", "nike"));
    assert!(text_contains("anything", ""));
    assert!(!text_contains("nik", "nike"));
    assert!(!text_contains("cheap blue NIKE", "nike"));
    assert!(text_contains("über nike", "nike"));
}

#[test]
fn equality_and_ascii_case() {
    assert!(text_equals("price_asc", "price_asc"));
    assert!(!text_equals("price_asc", "price_desc"));
    assert!(eq_ignore_ascii_case("SHOES", "shoes"));
    assert!(eq_ignore_ascii_case("ShOeS", "shoes"));
    assert!(!eq_ignore_ascii_case("shoe", "shoes"));
    assert!(!eq_ignore_ascii_case("ÜBER", "über"));
    assert_eq!(chars_of("héllo"), vec!['h', 'é', 'l', 'l', 'o']);
}

#[test]
fn lowercased_takes_capitals_to_small_letters() {
    assert_eq!(shopwire::text::lowercased("Nike AIR-Zoom 40"), "nike air-zoom 40");
    assert_eq!(shopwire::text::lowercased("ÜBER"), "über");
    assert_eq!(shopwire::text::lowercased(""), "");
}

#[test]
fn trim_agrees_with_std_on_every_character() {
    for code in 0u32..=0x10FFFF {
        if let Some(c) = char::from_u32(code) {
            let s = format!("{c}a{c}b{c}");
            assert_eq!(shopwire::text::trim(&s), s.trim(), "character U+{code:04X}");
        }
    }
}

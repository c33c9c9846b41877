use suspense_core::fragment::{wrap_fallback, wrap_fragment, FragmentId};
use suspense_core::text::{push_decimal, push_signed_decimal};

fn decimal(n: u64) -> String {
    let mut out = String::new();
    push_decimal(&mut out, n);
    out
}

fn signed(n: i64) -> String {
    let mut out = String::new();
    push_signed_decimal(&mut out, n);
    out
}

#[test]
fn decimal_of_single_digits() {
    assert_eq!(decimal(0), "0");
    assert_eq!(decimal(7), "7");
    assert_eq!(decimal(9), "9");
}

#[test]
fn decimal_of_longer_numbers() {
    assert_eq!(decimal(10), "10");
    assert_eq!(decimal(109), "109");
    assert_eq!(decimal(1234567890), "1234567890");
    assert_eq!(decimal(u64::MAX), "18446744073709551615");
}

#[test]
fn decimal_appends_to_what_is_there() {
    let mut out = String::from("n=");
    push_decimal(&mut out, 42);
    assert_eq!(out, "n=42");
}

#[test]
fn signed_decimal_of_both_signs() {
    assert_eq!(signed(0), "0");
    assert_eq!(signed(15), "15");
    assert_eq!(signed(-1), "-1");
    assert_eq!(signed(-120), "-120");
    assert_eq!(signed(i64::MAX), "9223372036854775807");
    assert_eq!(signed(i64::MIN), "-9223372036854775808");
}

#[test]
fn key_joins_document_and_order() {
    assert_eq!(FragmentId { document: 0, order: 0 }.key(), "0-0");
    assert_eq!(FragmentId { document: 3, order: 12 }.key(), "3-12");
    assert_eq!(
        FragmentId { document: u64::MAX, order: 1 }.key(),
        "18446744073709551615-1"
    );
}

#[test]
fn different_boundaries_have_different_keys() {
    let a = FragmentId { document: 1, order: 11 };
    let b = FragmentId { document: 11, order: 1 };
    let c = FragmentId { document: 1, order: 1 };
    assert_ne!(a.key(), b.key());
    assert_ne!(a.key(), c.key());
    assert_ne!(b.key(), c.key());
    assert_eq!(a.key(), FragmentId { document: 1, order: 11 }.key());
}

#[test]
fn fallback_container_carries_the_key() {
    assert_eq!(
        wrap_fallback("4-0", "<p>Loading</p>"),
        "<div data-fragment-id=\"4-0\"><p>Loading</p></div>"
    );
    assert_eq!(wrap_fallback("", ""), "<div data-fragment-id=\"\"></div>");
}

#[test]
fn fragment_chunk_carries_the_key() {
    assert_eq!(
        wrap_fragment("4-0", "<p>Done</p>"),
        "<template data-fragment-id=\"4-0\"><p>Done</p></template>"
    );
}

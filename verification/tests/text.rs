use caster_bridge::text::{ends_with, push_decimal, push_signed_decimal, starts_with};

fn dec(n: u64) -> String {
    let mut s = String::new();
    push_decimal(&mut s, n);
    s
}

fn sdec(n: i64) -> String {
    let mut s = String::from("x=");
    push_signed_decimal(&mut s, n);
    s
}

#[test]
fn decimal_numerals() {
    assert_eq!(dec(0), "0");
    assert_eq!(dec(7), "7");
    assert_eq!(dec(10), "10");
    assert_eq!(dec(300), "300");
    assert_eq!(dec(1725029869), "1725029869");
    assert_eq!(dec(u64::MAX), u64::MAX.to_string());
}

#[test]
fn signed_decimal_numerals() {
    assert_eq!(sdec(0), "x=0");
    assert_eq!(sdec(12), "x=12");
    assert_eq!(sdec(-5), "x=-5");
    assert_eq!(sdec(i64::MIN), format!("x={}", i64::MIN));
}

#[test]
fn suffixes_and_prefixes() {
    assert!(ends_with("logo.png", ".png"));
    assert!(!ends_with("logo.png", ".jpg"));
    assert!(!ends_with("png", ".png"));
    assert!(ends_with("", ""));
    assert!(ends_with("älogo.jpeg", ".jpeg"));
    assert!(starts_with("/logos/home_1.png", "/logos/"));
    assert!(!starts_with("/logo", "/logos/"));
    assert!(!starts_with("/other/logos/", "/logos/"));
}

// The coordinate-token grammar: JSON numbers and `null` are accepted,
// everything else is refused.

use rewind_client::num::Num;

fn accepts(s: &str) -> bool {
    Num::new(s.to_string()).is_some()
}

#[test]
fn accepts_integers() {
    assert!(accepts("0"));
    assert!(accepts("7"));
    assert!(accepts("-0"));
    assert!(accepts("-12345678901234567890"));
    assert!(accepts("4294967295"));
}

#[test]
fn accepts_fractions() {
    assert!(accepts("1.0"));
    assert!(accepts("0.5"));
    assert!(accepts("-2.25"));
    assert!(accepts("0.30000000000000004"));
}

#[test]
fn accepts_exponents() {
    assert!(accepts("1e10"));
    assert!(accepts("1E10"));
    assert!(accepts("1e+10"));
    assert!(accepts("-1.5e-10"));
    assert!(accepts("0e0"));
}

#[test]
fn accepts_null() {
    assert!(accepts("null"));
}

#[test]
fn rejects_empty_and_partial() {
    assert!(!accepts(""));
    assert!(!accepts("-"));
    assert!(!accepts("1."));
    assert!(!accepts(".5"));
    assert!(!accepts("1e"));
    assert!(!accepts("1e+"));
    assert!(!accepts("nul"));
    assert!(!accepts("nulll"));
}

#[test]
fn rejects_leading_zeros_and_junk() {
    assert!(!accepts("01"));
    assert!(!accepts("-01"));
    assert!(!accepts("+1"));
    assert!(!accepts("1,2"));
    assert!(!accepts("1.0.0"));
    assert!(!accepts("NaN"));
    assert!(!accepts("Infinity"));
    assert!(!accepts("1 "));
    assert!(!accepts(" 1"));
    assert!(!accepts("１"));
}

#[test]
fn token_text_is_kept() {
    let n = Num::new("-1.5e-10".to_string()).unwrap();
    assert_eq!(n.as_str(), "-1.5e-10");
    let m = n.clone();
    assert_eq!(m.as_str(), "-1.5e-10");
}

#[test]
fn accepted_tokens_parse_as_json() {
    // what the grammar accepts, a standard parser accepts too
    for s in ["0", "-0", "1.0", "-2.25", "1e10", "1E+10", "-1.5e-10", "null"] {
        let n = Num::new(s.to_string()).unwrap();
        let v: serde_json::Value = serde_json::from_str(n.as_str()).unwrap();
        assert!(v.is_number() || v.is_null());
    }
}

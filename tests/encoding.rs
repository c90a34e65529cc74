use gcs_signed_url::codec::{decimal_string, hex_encode, query_string};
use gcs_signed_url::ordering::{join_strings, sort_pairs_by_line, sort_pairs_unique, sort_strings};
use gcs_signed_url::text::{replace_plus, str_less};

#[test]
fn hex_of_bytes() {
    assert_eq!(hex_encode(&[0x00, 0x0f, 0xa0, 0xff]), "000fa0ff");
    assert_eq!(hex_encode(&[]), "");
}

#[test]
fn decimal_of_numbers() {
    assert_eq!(decimal_string(0), "0");
    assert_eq!(decimal_string(1700003600), "1700003600");
}

#[test]
fn query_is_form_encoded_and_plus_becomes_pct20() {
    let q = query_string(&vec![("a b".to_string(), "c+d/e".to_string())]);
    assert_eq!(q, "a+b=c%2Bd%2Fe");
    assert_eq!(replace_plus(&q), "a%20b=c%2Bd%2Fe");
}

#[test]
fn string_order() {
    assert!(str_less("a", "b"));
    assert!(str_less("a", "ab"));
    assert!(!str_less("ab", "ab"));
    assert!(!str_less("b", "a"));
}

#[test]
fn sorts() {
    let v = vec!["b".to_string(), "a".to_string(), "c".to_string()];
    let s = sort_strings(v);
    assert_eq!(join_strings(&s, ";"), "a;b;c");
    let p = vec![("k".to_string(), "2".to_string()), ("j".to_string(), "1".to_string()), ("k".to_string(), "3".to_string())];
    let u = sort_pairs_unique(&p);
    assert_eq!(u, vec![("j".to_string(), "1".to_string()), ("k".to_string(), "3".to_string())]);
    let l = sort_pairs_by_line(&p);
    assert_eq!(l[0].0, "j");
    assert_eq!(l[1].1, "2");
    assert_eq!(l[2].1, "3");
}

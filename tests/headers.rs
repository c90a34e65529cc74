use gcs_signed_url::scheme::{v2, v4};

fn pairs(v: &[(&str, &str)]) -> Vec<(String, String)> {
    v.iter().map(|(a, b)| (a.to_string(), b.to_string())).collect()
}

#[test]
fn v2_keeps_only_x_goog_headers() {
    let r = v2::sanitize_headers(&pairs(&[
        ("Content-Type", "text/plain"),
        ("X-Goog-Meta-A", " 1 "),
        ("accept", "*/*"),
    ]));
    assert_eq!(r, pairs(&[("x-goog-meta-a", "1")]));
}

#[test]
fn v2_drops_encryption_key_headers_in_any_case() {
    let r = v2::sanitize_headers(&pairs(&[
        ("  X-Goog-Encryption-Key ", "secret"),
        ("X-GOOG-ENCRYPTION-KEY-SHA-256", "digest"),
        ("x-goog-encryption-algorithm", "AES256"),
    ]));
    assert_eq!(r, pairs(&[("x-goog-encryption-algorithm", "AES256")]));
}

#[test]
fn v2_sorts_by_name_and_value_and_keeps_duplicates() {
    let r = v2::sanitize_headers(&pairs(&[
        ("x-goog-b", "2"),
        ("x-goog-a", "z"),
        ("x-goog-a", "y"),
    ]));
    assert_eq!(r, pairs(&[("x-goog-a", "y"), ("x-goog-a", "z"), ("x-goog-b", "2")]));
}

#[test]
fn v2_canonicalisation_is_idempotent() {
    let once = v2::sanitize_headers(&pairs(&[
        ("X-Goog-Meta-Z", " last "),
        ("x-goog-meta-a", "first"),
        ("Host", "example.com"),
    ]));
    let twice = v2::sanitize_headers(&once);
    assert_eq!(once, twice);
    assert_eq!(once, pairs(&[("x-goog-meta-a", "first"), ("x-goog-meta-z", "last")]));
}

#[test]
fn v2_empty_input_gives_empty_output() {
    assert!(v2::sanitize_headers(&[]).is_empty());
}

#[test]
fn v2_canonicalize_headers_filters_normalised_input() {
    let r = v2::canonicalize_headers(&pairs(&[("x-goog-z", "1"), ("content-md5", "x"), ("x-goog-a", "2")]));
    assert_eq!(r, pairs(&[("x-goog-a", "2"), ("x-goog-z", "1")]));
}

#[test]
fn v4_last_write_wins() {
    let r = v4::sanitize_headers(&pairs(&[("X-Goog-A", "1"), ("x-goog-a", " 2 ")]));
    assert_eq!(r, pairs(&[("x-goog-a", "2")]));
}

#[test]
fn v4_collapses_spaces_and_tabs() {
    let r = v4::sanitize_headers(&pairs(&[("X-Goog-Meta", "  a   b\t\t\tc  ")]));
    assert_eq!(r, pairs(&[("x-goog-meta", "a b\tc")]));
}

#[test]
fn v4_sorts_by_name_and_keeps_every_header() {
    let r = v4::sanitize_headers(&pairs(&[("Content-Type", "text/plain"), ("b", "1"), ("a", "2")]));
    assert_eq!(r, pairs(&[("a", "2"), ("b", "1"), ("content-type", "text/plain")]));
}

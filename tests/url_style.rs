use gcs_signed_url::url_style::{strip_scheme, URLStyle};

#[test]
fn path_style_default_host() {
    assert_eq!(URLStyle::Path.host(None, "b"), "storage.googleapis.com");
    assert_eq!(URLStyle::Path.host(Some(""), "b"), "storage.googleapis.com");
}

#[test]
fn path_style_custom_host_without_scheme() {
    assert_eq!(URLStyle::Path.host(Some("https://example.com"), "b"), "example.com");
    assert_eq!(URLStyle::Path.host(Some("example.com"), "b"), "example.com");
}

#[test]
fn virtual_hosted_host() {
    assert_eq!(URLStyle::VirtualHosted.host(None, "b"), "b.storage.googleapis.com");
    assert_eq!(URLStyle::VirtualHosted.host(Some("http://example.com"), "b"), "b.example.com");
}

#[test]
fn bucket_bound_host_ignores_custom_host() {
    let s = URLStyle::BucketBoundHostname { hostname: "cdn.example.com".to_string() };
    assert_eq!(s.host(Some("other.com"), "b"), "cdn.example.com");
}

#[test]
fn paths_by_style() {
    assert_eq!(URLStyle::Path.path("b", "o/x"), "b/o/x");
    assert_eq!(URLStyle::Path.path("b", ""), "b");
    assert_eq!(URLStyle::VirtualHosted.path("b", "o"), "o");
    let s = URLStyle::BucketBoundHostname { hostname: "h".to_string() };
    assert_eq!(s.path("b", "o"), "o");
}

#[test]
fn strip_scheme_cuts_at_first_separator() {
    assert_eq!(strip_scheme("a://b://c"), "b://c");
    assert_eq!(strip_scheme("plain"), "plain");
    assert_eq!(strip_scheme("://x"), "x");
}

#[test]
fn default_style_is_path() {
    assert!(matches!(URLStyle::default(), URLStyle::Path));
}

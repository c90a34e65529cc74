use gcs_signed_url::error::SignedURLOptionsBuilderError;
use gcs_signed_url::method::SignedURLMethod;
use gcs_signed_url::options::{SignedURLOptions, SignedURLOptionsBuilder};
use gcs_signed_url::scheme::SignedURLScheme;
use gcs_signed_url::url_style::URLStyle;

fn builder(expires: u64) -> SignedURLOptionsBuilder {
    SignedURLOptions::new("sa@project.iam.gserviceaccount.com".to_string(), expires)
}

#[test]
fn zero_expiry_is_refused() {
    let r = builder(0).build();
    assert!(matches!(r, Err(SignedURLOptionsBuilderError::ExpiresZero)));
}

#[test]
fn zero_expiry_is_checked_before_identity() {
    let r = SignedURLOptions::new(String::new(), 0).build();
    assert!(matches!(r, Err(SignedURLOptionsBuilderError::ExpiresZero)));
}

#[test]
fn expiry_over_a_week_is_refused() {
    let r = builder(604801).build();
    assert!(matches!(r, Err(SignedURLOptionsBuilderError::InvalidExpirationDuration)));
    let r = builder(604801).scheme(SignedURLScheme::V4).build();
    assert!(matches!(r, Err(SignedURLOptionsBuilderError::InvalidExpirationDuration)));
}

#[test]
fn expiry_of_exactly_a_week_is_accepted() {
    let o = builder(604800).build().unwrap();
    assert_eq!(o.expires(), 604800);
    let o = builder(604800).scheme(SignedURLScheme::V4).build().unwrap();
    assert_eq!(o.expires(), 604800);
}

#[test]
fn empty_access_identity_is_refused() {
    let r = SignedURLOptions::new(String::new(), 60).build();
    assert!(matches!(r, Err(SignedURLOptionsBuilderError::EmptyGoogleAccessId)));
}

#[test]
fn sixteen_byte_md5_is_accepted() {
    // 16 zero bytes.
    let o = builder(60).content_md5("AAAAAAAAAAAAAAAAAAAAAA==".to_string()).build().unwrap();
    assert_eq!(o.content_md5(), Some("AAAAAAAAAAAAAAAAAAAAAA=="));
}

#[test]
fn fifteen_byte_md5_is_refused() {
    let r = builder(60).content_md5("AAAAAAAAAAAAAAAAAAAA".to_string()).build();
    assert!(matches!(r, Err(SignedURLOptionsBuilderError::InvalidChecksum)));
}

#[test]
fn seventeen_byte_md5_is_refused() {
    let r = builder(60).content_md5("AAAAAAAAAAAAAAAAAAAAAAA=".to_string()).build();
    assert!(matches!(r, Err(SignedURLOptionsBuilderError::InvalidChecksum)));
}

#[test]
fn malformed_md5_is_a_decode_error() {
    let r = builder(60).content_md5("not base64!".to_string()).build();
    assert!(matches!(r, Err(SignedURLOptionsBuilderError::Base64DecodeError(_))));
}

#[test]
fn build_with_checksum_passes_the_decode_error_on() {
    let err = base64::DecodeError::InvalidLength(3);
    let r = builder(60)
        .content_md5("abc".to_string())
        .build_with_checksum(Some(Err(err.clone())));
    match r {
        Err(SignedURLOptionsBuilderError::Base64DecodeError(e)) => assert_eq!(e, err),
        _ => panic!("expected a decode error"),
    }
}

#[test]
fn build_with_checksum_checks_the_length() {
    let r = builder(60).content_md5("x".to_string()).build_with_checksum(Some(Ok(vec![0u8; 16])));
    assert!(r.is_ok());
    let r = builder(60).content_md5("x".to_string()).build_with_checksum(Some(Ok(vec![0u8; 15])));
    assert!(matches!(r, Err(SignedURLOptionsBuilderError::InvalidChecksum)));
}

#[test]
fn v2_refuses_virtual_hosted_style() {
    let r = builder(60).style(URLStyle::VirtualHosted).build();
    assert!(matches!(r, Err(SignedURLOptionsBuilderError::V2InvalidURLStyle)));
}

#[test]
fn v2_refuses_bucket_bound_style() {
    let r = builder(60)
        .style(URLStyle::BucketBoundHostname { hostname: "cdn.example.com".to_string() })
        .build();
    assert!(matches!(r, Err(SignedURLOptionsBuilderError::V2InvalidURLStyle)));
}

#[test]
fn v2_accepts_path_style() {
    assert!(builder(60).style(URLStyle::Path).build().is_ok());
}

#[test]
fn v4_accepts_every_style() {
    assert!(builder(60).scheme(SignedURLScheme::V4).style(URLStyle::VirtualHosted).build().is_ok());
    let bound = URLStyle::BucketBoundHostname { hostname: "cdn.example.com".to_string() };
    assert!(builder(60).scheme(SignedURLScheme::V4).style(bound).build().is_ok());
}

#[test]
fn defaults_after_build() {
    let o = builder(60).build().unwrap();
    assert_eq!(o.google_access_id(), "sa@project.iam.gserviceaccount.com");
    assert_eq!(o.start_time(), None);
    assert_eq!(o.method(), SignedURLMethod::Get);
    assert_eq!(o.expires(), 60);
    assert_eq!(o.content_type(), None);
    assert_eq!(o.content_md5(), None);
    assert!(o.headers().is_empty());
    assert!(o.query_parameters().is_empty());
    assert!(matches!(o.style(), URLStyle::Path));
    assert!(!o.insecure());
    assert_eq!(o.scheme(), SignedURLScheme::V2);
    assert_eq!(o.hostname(), None);
}

#[test]
fn setters_are_kept() {
    let o = builder(60)
        .start_time(1700000000)
        .method(SignedURLMethod::Put)
        .content_type("text/plain".to_string())
        .headers(vec![("x-goog-meta-a".to_string(), "1".to_string())])
        .query_parameters(vec![("a".to_string(), "b".to_string())])
        .insecure(true)
        .scheme(SignedURLScheme::V4)
        .hostname("example.com".to_string())
        .build()
        .unwrap();
    assert_eq!(o.start_time(), Some(1700000000));
    assert_eq!(o.method(), SignedURLMethod::Put);
    assert_eq!(o.content_type(), Some("text/plain"));
    assert_eq!(o.headers(), &[("x-goog-meta-a".to_string(), "1".to_string())]);
    assert_eq!(o.query_parameters(), &[("a".to_string(), "b".to_string())]);
    assert!(o.insecure());
    assert_eq!(o.scheme(), SignedURLScheme::V4);
    assert_eq!(o.hostname(), Some("example.com"));
}

#[test]
fn method_names() {
    assert_eq!(SignedURLMethod::Get.to_string(), "GET");
    assert_eq!(SignedURLMethod::Delete.to_string(), "DELETE");
    assert_eq!(SignedURLMethod::Head.to_string(), "HEAD");
    assert_eq!(SignedURLMethod::Put.to_string(), "PUT");
    assert_eq!(SignedURLMethod::Post.to_string(), "POST");
    assert_eq!(SignedURLMethod::default(), SignedURLMethod::Get);
    assert_eq!(SignedURLScheme::default(), SignedURLScheme::V2);
}

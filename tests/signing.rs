use gcs_signed_url::buffer::{create_signed_buffer, get_header_with_value, get_signed_headers};
use gcs_signed_url::error::SignedURLError;
use gcs_signed_url::options::{SignedURLOptions, SignedURLOptionsBuilder};
use gcs_signed_url::scheme::{self, v2, v4, SignedURLScheme};
use gcs_signed_url::url_style::URLStyle;

const ID: &str = "sa@project.iam.gserviceaccount.com";

fn builder() -> SignedURLOptionsBuilder {
    SignedURLOptions::new(ID.to_string(), 3600).start_time(1700000000)
}

#[test]
fn v2_end_to_end() {
    let o = builder().build().unwrap();
    let s = v2::string_to_sign("my-bucket", "file.txt", &o, 0).unwrap();
    assert_eq!(s, "GET\n\n\n1700003600\nhttps://storage.googleapis.com/my-bucket/file.txt");
    let u = v2::signed_url("my-bucket", "file.txt", &o, 0, &[1, 2, 3]).unwrap();
    assert_eq!(
        u,
        "https://storage.googleapis.com/my-bucket/file.txt?GoogleAccessId=sa%40project.iam.gserviceaccount.com&Expires=1700003600&Signature=AQID"
    );
}

#[test]
fn v2_uses_now_without_start_time() {
    let o = SignedURLOptions::new(ID.to_string(), 60).build().unwrap();
    let s = v2::string_to_sign("b", "o", &o, 100).unwrap();
    assert_eq!(s, "GET\n\n\n160\nhttps://storage.googleapis.com/b/o");
}

#[test]
fn v2_string_to_sign_with_headers_and_content() {
    let o = builder()
        .content_type("text/plain".to_string())
        .content_md5("AAAAAAAAAAAAAAAAAAAAAA==".to_string())
        .headers(vec![("X-Goog-Meta-B".to_string(), "2".to_string()), ("x-goog-meta-a".to_string(), "1".to_string())])
        .build()
        .unwrap();
    let s = scheme::string_to_sign("b", "o", &o, 0).unwrap();
    assert_eq!(
        s,
        "GET\nAAAAAAAAAAAAAAAAAAAAAA==\ntext/plain\n1700003600\nx-goog-meta-a:1\nx-goog-meta-b:2\nhttps://storage.googleapis.com/b/o"
    );
}

#[test]
fn v2_bad_host_is_invalid_url() {
    let o = builder().hostname("bad host".to_string()).build().unwrap();
    assert!(matches!(v2::string_to_sign("b", "o", &o, 0), Err(SignedURLError::InvalidURL)));
}

#[test]
fn v4_end_to_end() {
    let o = builder().scheme(SignedURLScheme::V4).style(URLStyle::Path).insecure(false).build().unwrap();
    let req = create_signed_buffer("my-bucket", "file.txt", &o, 0).unwrap();
    let query = "X-Goog-Algorithm=GOOG4-RSA-SHA256&X-Goog-Credential=sa%40project.iam.gserviceaccount.com%2F20231114%2Fauto%2Fstorage%2Fgoog4_request&X-Goog-Date=20231114T221320Z&X-Goog-Expires=3600&X-Goog-SignedHeaders=host";
    assert_eq!(
        req,
        format!("GET\n/my-bucket/file.txt\n{}\nhost:storage.googleapis.com\n\nhost", query)
    );
    let u = v4::signed_url("my-bucket", "file.txt", &o, 0, &[0xab, 0x01]).unwrap();
    assert_eq!(
        u,
        format!("https://storage.googleapis.com/my-bucket/file.txt?{}&X-Goog-Signature=ab01", query)
    );
    assert!(u.contains("X-Goog-Algorithm=GOOG4-RSA-SHA256"));
    assert!(u.contains("X-Goog-Credential=sa%40project.iam.gserviceaccount.com%2F20231114"));
}

#[test]
fn v4_insecure_uses_http() {
    let o = builder().scheme(SignedURLScheme::V4).insecure(true).build().unwrap();
    let u = scheme::signed_url("b", "o", &o, 0, &[1]).unwrap();
    assert!(u.starts_with("http://storage.googleapis.com/b/o?"));
}

#[test]
fn v4_generated_parameters_win_and_spaces_are_pct20() {
    let o = builder()
        .scheme(SignedURLScheme::V4)
        .query_parameters(vec![
            ("X-Goog-Expires".to_string(), "1".to_string()),
            ("a".to_string(), "x y".to_string()),
        ])
        .build()
        .unwrap();
    let u = v4::signed_url("b", "o", &o, 0, &[1]).unwrap();
    assert!(u.contains("X-Goog-Expires=3600"));
    assert!(!u.contains("X-Goog-Expires=1&"));
    assert!(u.contains("&X-Goog-SignedHeaders=host&a=x%20y&X-Goog-Signature=01"));
    let q = &u[u.find('?').unwrap()..];
    assert!(!q.contains('+'));
}

#[test]
fn v4_virtual_hosted_style() {
    let o = builder().scheme(SignedURLScheme::V4).style(URLStyle::VirtualHosted).build().unwrap();
    let u = v4::signed_url("b", "o", &o, 0, &[1]).unwrap();
    assert!(u.starts_with("https://b.storage.googleapis.com/o?"));
}

#[test]
fn v4_start_time_out_of_range() {
    let o = SignedURLOptions::new(ID.to_string(), 60).start_time(u64::MAX).scheme(SignedURLScheme::V4).build().unwrap();
    assert!(matches!(v4::signed_url("b", "o", &o, 0, &[1]), Err(SignedURLError::InvalidStartTime)));
}

#[test]
fn v4_signed_headers_and_lines() {
    let o = builder()
        .scheme(SignedURLScheme::V4)
        .content_type("text/plain".to_string())
        .build()
        .unwrap();
    let hs = vec![("x-goog-meta".to_string(), "v".to_string())];
    assert_eq!(get_signed_headers(&hs, &o), "content-type;host;x-goog-meta");
    let lines = get_header_with_value(&hs, "h".to_string(), &o);
    assert_eq!(lines, vec!["content-type:text/plain".to_string(), "host:h".to_string(), "x-goog-meta:v".to_string()]);
}

#[test]
fn v2_resource_url_is_normalised() {
    let o = builder().hostname("https://EXAMPLE.com".to_string()).build().unwrap();
    let s = v2::string_to_sign("b", "a b.txt", &o, 0).unwrap();
    assert!(s.ends_with("\nhttps://example.com/b/a%20b.txt"));
}

#[test]
fn v4_path_is_percent_encoded() {
    let o = builder().scheme(SignedURLScheme::V4).build().unwrap();
    let req = create_signed_buffer("b", "a b", &o, 0).unwrap();
    assert!(req.starts_with("GET\n/b/a%20b\n"));
}

#[test]
fn v4_host_header_is_signed_once() {
    let o = builder()
        .scheme(SignedURLScheme::V4)
        .headers(vec![("Host".to_string(), "storage.googleapis.com".to_string())])
        .build()
        .unwrap();
    let req = create_signed_buffer("b", "o", &o, 0).unwrap();
    assert!(req.ends_with("\nhost:storage.googleapis.com\n\nhost"));
    assert_eq!(req.matches("host:").count(), 1);
    let hs = v4::sanitize_headers(o.headers());
    assert_eq!(get_signed_headers(&hs, &o), "host");
    assert_eq!(get_header_with_value(&hs, "other".to_string(), &o), vec!["host:storage.googleapis.com".to_string()]);
}

#[test]
fn v4_content_type_header_is_signed_once() {
    let o = builder()
        .scheme(SignedURLScheme::V4)
        .content_type("text/plain".to_string())
        .build()
        .unwrap();
    let hs = vec![("content-type".to_string(), "text/plain".to_string())];
    assert_eq!(get_signed_headers(&hs, &o), "content-type;host");
    assert_eq!(
        get_header_with_value(&hs, "h".to_string(), &o),
        vec!["content-type:text/plain".to_string(), "host:h".to_string()]
    );
}

#[test]
fn v4_object_query_and_fragment_characters_stay_in_the_path() {
    let o = builder().scheme(SignedURLScheme::V4).build().unwrap();
    let u = v4::signed_url("b", "a?b+c#d", &o, 0, &[1]).unwrap();
    assert!(u.starts_with("https://storage.googleapis.com/b/a%3Fb+c%23d?X-Goog-Algorithm="));
    let q = &u[u.find('?').unwrap() + 1..];
    assert!(!q.contains('+'));
    let req = create_signed_buffer("b", "a?b+c#d", &o, 0).unwrap();
    assert!(req.starts_with("GET\n/b/a%3Fb%20c%23d\n"));
}

#[test]
fn v2_object_query_character_stays_in_the_path() {
    let o = builder().build().unwrap();
    let s = v2::string_to_sign("b", "a?b", &o, 0).unwrap();
    assert!(s.ends_with("\nhttps://storage.googleapis.com/b/a%3Fb"));
    let u = v2::signed_url("b", "a?b", &o, 0, &[1]).unwrap();
    assert!(u.starts_with("https://storage.googleapis.com/b/a%3Fb?GoogleAccessId="));
}

#[test]
fn host_with_a_query_is_invalid_url() {
    let o = builder().hostname("example.com?x".to_string()).build().unwrap();
    assert!(matches!(v2::signed_url("b", "o", &o, 0, &[1]), Err(SignedURLError::InvalidURL)));
    let o = builder().scheme(SignedURLScheme::V4).hostname("example.com#x".to_string()).build().unwrap();
    assert!(matches!(v4::signed_url("b", "o", &o, 0, &[1]), Err(SignedURLError::InvalidURL)));
}

#[test]
fn v4_repeated_query_names_keep_every_value() {
    let o = builder()
        .scheme(SignedURLScheme::V4)
        .query_parameters(vec![
            ("b".to_string(), "2".to_string()),
            ("a".to_string(), "1".to_string()),
            ("b".to_string(), "1".to_string()),
        ])
        .build()
        .unwrap();
    let u = v4::signed_url("x", "y", &o, 0, &[1]).unwrap();
    assert!(u.contains("&X-Goog-SignedHeaders=host&a=1&b=2&b=1&X-Goog-Signature=01"));
}

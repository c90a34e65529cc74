//! The V2 scheme: the legacy string-to-sign, signed by the access identity.
use vstd::prelude::*;
use vstd::string::*;
use crate::codec::{
    base64_encode, base64_encoded, decimal, decimal_string, escape_delims, escape_path, query_of,
    query_string, url_text_of, usable_url, usable_url_text,
};
use crate::error::SignedURLError;
use crate::options::{OptionsModel, SignedURLOptions};
use crate::ordering::{
    Pair, by_line, line_of, pair_line, pairs_view, sort_by_key, sort_pairs_by_line, sorted_by,
    lemma_sort_sorted, lemma_sort_all,
};
use crate::text::{concat2, lower_of, lowercase, push_char, starts_with, str_equal, trim, trim_of};
use crate::url_style::URLStyle;

verus! {

/// Customer-supplied encryption key: never signed.
pub const X_GOOG_ENCRYPTION_KEY_HEADER: &'static str = "x-goog-encryption-key";

/// Digest of a customer-supplied encryption key: never signed.
pub const X_GOOG_ENCRYPTION_KEY_SHA_256_HEADER: &'static str = "x-goog-encryption-key-sha-256";

/// A header with its name trimmed and lower-cased and its value trimmed.
pub open spec fn normalize(p: Pair) -> Pair {
    (lower_of(trim_of(p.0)), trim_of(p.1))
}

/// Every header normalised.
pub open spec fn normalized(s: Seq<Pair>) -> Seq<Pair> {
    s.map_values(|p: Pair| normalize(p))
}

/// A normalised header that V2 signs: an `x-goog` extension header that carries no
/// encryption key material.
pub open spec fn signed_kind(p: Pair) -> bool {
    "x-goog"@.is_prefix_of(p.0) && p.0 != X_GOOG_ENCRYPTION_KEY_HEADER@ && p.0
        != X_GOOG_ENCRYPTION_KEY_SHA_256_HEADER@
}

/// The headers of `s` that V2 signs, in their order.
pub open spec fn signed_only(s: Seq<Pair>) -> Seq<Pair>
    decreases s.len(),
{
    if s.len() == 0 {
        s
    } else if signed_kind(s.last()) {
        signed_only(s.drop_last()).push(s.last())
    } else {
        signed_only(s.drop_last())
    }
}

/// The canonical V2 headers of already normalised headers: those V2 signs, sorted by
/// `name:value`.
pub open spec fn canonical(s: Seq<Pair>) -> Seq<Pair> {
    sort_by_key(signed_only(s), by_line())
}

/// A list that canonicalisation leaves as it is: normalised, signed, sorted.
pub open spec fn is_canonical(s: Seq<Pair>) -> bool {
    &&& forall|i: int| 0 <= i < s.len() ==> normalize(#[trigger] s[i]) == s[i] && signed_kind(
        s[i],
    )
    &&& sorted_by(s, by_line())
}

/// Canonical V2 headers of headers that are already trimmed and lower-cased.
pub fn canonicalize_headers(headers: &[(String, String)]) -> (r: Vec<(String, String)>)
    ensures
        pairs_view(r@) == canonical(pairs_view(headers@)),
{
    let mut kept: Vec<(String, String)> = Vec::new();
    let mut i: usize = 0;
    proof {
        reveal_strlit("x-goog");
    }
    while i < headers.len()
        invariant
            i <= headers.len(),
            pairs_view(kept@) == signed_only(pairs_view(headers@.take(i as int))),
        decreases headers.len() - i,
    {
        let name = headers[i].0.as_str();
        let ghost p = (headers@[i as int].0@, headers@[i as int].1@);
        assert(pairs_view(headers@.take(i + 1)) =~= pairs_view(headers@.take(i as int)).push(p));
        assert(pairs_view(headers@.take(i + 1)).drop_last() =~= pairs_view(
            headers@.take(i as int),
        ));
        assert(pairs_view(headers@.take(i + 1)).last() == p);
        if starts_with(name, "x-goog") && !str_equal(name, X_GOOG_ENCRYPTION_KEY_HEADER)
            && !str_equal(name, X_GOOG_ENCRYPTION_KEY_SHA_256_HEADER) {
            let ghost before = kept@;
            kept.push((headers[i].0.clone(), headers[i].1.clone()));
            assert(pairs_view(kept@) =~= pairs_view(before).push(p));
        }
        i = i + 1;
    }
    assert(headers@.take(headers.len() as int) =~= headers@);
    sort_pairs_by_line(&kept)
}

/// The canonical V2 headers: names trimmed and lower-cased, values trimmed; only `x-goog`
/// headers kept, and never the encryption key or its digest; sorted by `name:value`.
/// Equal names with different values all stay.
pub fn sanitize_headers(headers: &[(String, String)]) -> (r: Vec<(String, String)>)
    ensures
        pairs_view(r@) == canonical(normalized(pairs_view(headers@))),
{
    let mut norm: Vec<(String, String)> = Vec::new();
    let mut i: usize = 0;
    while i < headers.len()
        invariant
            i <= headers.len(),
            pairs_view(norm@) == normalized(pairs_view(headers@.take(i as int))),
        decreases headers.len() - i,
    {
        let name = lowercase(trim(headers[i].0.as_str()));
        let value = String::from_str(trim(headers[i].1.as_str()));
        let ghost before = norm@;
        norm.push((name, value));
        assert(pairs_view(norm@) =~= normalized(pairs_view(headers@.take(i + 1)))) by {
            assert(pairs_view(norm@) =~= pairs_view(before).push((name@, value@)));
            assert(pairs_view(headers@.take(i + 1)) =~= pairs_view(headers@.take(i as int)).push(
                (headers@[i as int].0@, headers@[i as int].1@),
            ));
        }
        i = i + 1;
    }
    assert(headers@.take(headers.len() as int) =~= headers@);
    canonicalize_headers(norm.as_slice())
}

proof fn lemma_signed_only_keeps_signed(s: Seq<Pair>)
    requires
        forall|i: int| 0 <= i < s.len() ==> signed_kind(#[trigger] s[i]),
    ensures
        signed_only(s) == s,
    decreases s.len(),
{
    if s.len() > 0 {
        let t = s.drop_last();
        assert forall|i: int| 0 <= i < t.len() implies signed_kind(#[trigger] t[i]) by {
            assert(t[i] == s[i]);
        }
        lemma_signed_only_keeps_signed(t);
        assert(t.push(s.last()) =~= s);
    }
}

/// Canonicalising an already canonical list gives it back unchanged.
pub proof fn lemma_canonical_idempotent(s: Seq<Pair>)
    requires
        is_canonical(s),
    ensures
        canonical(normalized(s)) == s,
{
    assert(normalized(s) =~= s);
    lemma_signed_only_keeps_signed(s);
    lemma_sort_sorted(s, by_line());
}

/// The headers of `signed_only` are all of a kind that V2 signs.
proof fn lemma_signed_only_signed(s: Seq<Pair>)
    ensures
        forall|i: int| 0 <= i < signed_only(s).len() ==> signed_kind(#[trigger] signed_only(s)[i]),
    decreases s.len(),
{
    if s.len() > 0 {
        let t = signed_only(s.drop_last());
        lemma_signed_only_signed(s.drop_last());
        if signed_kind(s.last()) {
            assert forall|i: int| 0 <= i < signed_only(s).len() implies signed_kind(
                #[trigger] signed_only(s)[i],
            ) by {
                if i < t.len() {
                    assert(signed_only(s)[i] == t[i]);
                }
            }
        }
    }
}

/// Whatever the input, every canonical V2 header is an `x-goog` header and neither the
/// encryption key nor its digest, whatever case and white space they were given in.
pub proof fn lemma_canonical_only_signed(headers: Seq<Pair>)
    ensures
        forall|i: int|
            0 <= i < canonical(normalized(headers)).len() ==> {
                let p = #[trigger] canonical(normalized(headers))[i];
                &&& "x-goog"@.is_prefix_of(p.0)
                &&& p.0 != X_GOOG_ENCRYPTION_KEY_HEADER@
                &&& p.0 != X_GOOG_ENCRYPTION_KEY_SHA_256_HEADER@
            },
{
    let kept = signed_only(normalized(headers));
    lemma_signed_only_signed(normalized(headers));
    lemma_sort_all(kept, by_line(), |p: Pair| signed_kind(p));
}

/// The Unix second at which a V2 URL expires: the start time, or `now` without one, plus
/// the expiry.
pub open spec fn expiration(m: OptionsModel, now: u64) -> nat {
    ((match m.start_time {
        Some(t) => t,
        None => now,
    }) + m.expires) as nat
}

/// The canonical headers as `name:value` lines, each ended by a newline.
pub open spec fn headers_block(s: Seq<Pair>) -> Seq<char>
    decreases s.len(),
{
    if s.len() == 0 {
        Seq::empty()
    } else {
        headers_block(s.drop_last()) + line_of(s.last()) + seq!['\n']
    }
}

/// The URL a V2 signature covers, before parsing: always path style over https, with
/// `?` and `#` in bucket and object escaped.
pub open spec fn resource(m: OptionsModel, bucket: Seq<char>, object: Seq<char>) -> Seq<char> {
    "https://"@ + URLStyle::Path.host_spec(m.hostname, bucket) + seq!['/'] + escape_delims(bucket)
        + seq!['/'] + escape_delims(object)
}

/// An optional string, or nothing.
pub open spec fn or_empty(o: Option<Seq<char>>) -> Seq<char> {
    match o {
        Some(s) => s,
        None => Seq::empty(),
    }
}

/// The V2 string-to-sign, for the parsed resource URL `url`.
pub open spec fn payload(m: OptionsModel, now: u64, url: Seq<char>) -> Seq<char> {
    m.method.name() + seq!['\n'] + or_empty(m.content_md5) + seq!['\n'] + or_empty(
        m.content_type,
    ) + seq!['\n'] + decimal(expiration(m, now)) + seq!['\n'] + headers_block(
        canonical(normalized(m.headers)),
    ) + url
}

/// The query parameters of a V2 URL, in order.
pub open spec fn query_params(m: OptionsModel, now: u64, signature: Seq<u8>) -> Seq<Pair> {
    seq![
        ("GoogleAccessId"@, m.google_access_id),
        ("Expires"@, decimal(expiration(m, now))),
        ("Signature"@, base64_encoded(signature)),
    ]
}

fn block_of(headers: &Vec<(String, String)>) -> (r: String)
    ensures
        r@ == headers_block(pairs_view(headers@)),
{
    let mut r = String::new();
    let mut i: usize = 0;
    while i < headers.len()
        invariant
            i <= headers.len(),
            r@ == headers_block(pairs_view(headers@.take(i as int))),
        decreases headers.len() - i,
    {
        assert(pairs_view(headers@.take(i + 1)).drop_last() =~= pairs_view(
            headers@.take(i as int),
        ));
        let line = pair_line(&headers[i]);
        r.append(line.as_str());
        push_char(&mut r, '\n');
        i = i + 1;
    }
    assert(headers@.take(headers.len() as int) =~= headers@);
    r
}

fn resource_url(bucket: &str, object: &str, options: &SignedURLOptions) -> (r: Option<String>)
    ensures
        r is Some <==> usable_url(url_text_of(resource(options@, bucket@, object@))),
        r matches Some(u) ==> u@ == url_text_of(resource(options@, bucket@, object@))->0,
{
    let host = URLStyle::Path.host(options.hostname(), bucket);
    let mut s = concat2("https://", host.as_str());
    push_char(&mut s, '/');
    let b = escape_path(bucket);
    s.append(b.as_str());
    push_char(&mut s, '/');
    let o = escape_path(object);
    s.append(o.as_str());
    assert(s@ =~= resource(options@, bucket@, object@));
    usable_url_text(s.as_str())
}

fn expiration_of(options: &SignedURLOptions, now: u64) -> (r: u128)
    ensures
        r == expiration(options@, now),
{
    let start = match options.start_time() {
        Some(t) => t,
        None => now,
    };
    start as u128 + options.expires() as u128
}

/// The V2 string-to-sign for `object` in `bucket`, with `now` as the start time where the
/// options set none: method, content MD5, content type and expiry on lines of their own,
/// the canonical headers, then the resource URL.
pub fn string_to_sign(bucket: &str, object: &str, options: &SignedURLOptions, now: u64) -> (r:
    Result<String, SignedURLError>)
    ensures
        !usable_url(url_text_of(resource(options@, bucket@, object@))) <==> r is Err,
        r matches Err(e) ==> e == SignedURLError::InvalidURL,
        r matches Ok(s) ==> s@ == payload(
            options@,
            now,
            url_text_of(resource(options@, bucket@, object@))->0,
        ),
{
    let url = match resource_url(bucket, object, options) {
        Some(u) => u,
        None => {
            return Err(SignedURLError::InvalidURL);
        },
    };
    let headers = sanitize_headers(options.headers());
    let mut s = options.method().to_string();
    push_char(&mut s, '\n');
    if let Some(md5) = options.content_md5() {
        s.append(md5);
    }
    push_char(&mut s, '\n');
    if let Some(ct) = options.content_type() {
        s.append(ct);
    }
    push_char(&mut s, '\n');
    let exp = decimal_string(expiration_of(options, now));
    s.append(exp.as_str());
    push_char(&mut s, '\n');
    let block = block_of(&headers);
    s.append(block.as_str());
    s.append(url.as_str());
    assert(s@ =~= payload(options@, now, url@));
    Ok(s)
}

/// The V2 signed URL, given the signature of [`string_to_sign`]'s result: the resource
/// URL with `GoogleAccessId`, `Expires` and the base64 `Signature`, in that order.
pub fn signed_url(
    bucket: &str,
    object: &str,
    options: &SignedURLOptions,
    now: u64,
    signature: &[u8],
) -> (r: Result<String, SignedURLError>)
    ensures
        !usable_url(url_text_of(resource(options@, bucket@, object@))) <==> r is Err,
        r matches Err(e) ==> e == SignedURLError::InvalidURL,
        r matches Ok(u) ==> u@ == url_text_of(resource(options@, bucket@, object@))->0 + seq![
            '?',
        ] + query_of(query_params(options@, now, signature@)),
{
    let url = match resource_url(bucket, object, options) {
        Some(u) => u,
        None => {
            return Err(SignedURLError::InvalidURL);
        },
    };
    let mut params: Vec<(String, String)> = Vec::new();
    params.push((String::from_str("GoogleAccessId"), String::from_str(options.google_access_id())));
    params.push((String::from_str("Expires"), decimal_string(expiration_of(options, now))));
    params.push((String::from_str("Signature"), base64_encode(signature)));
    assert(pairs_view(params@) =~= query_params(options@, now, signature@));
    let query = query_string(&params);
    let mut r = url;
    push_char(&mut r, '?');
    r.append(query.as_str());
    Ok(r)
}

} // verus!

//! The V4 canonical request: signed headers, header lines, query and request text.
use vstd::prelude::*;
use vstd::string::*;
use crate::codec::{
    decimal, decimal_string, escape_delims, escape_path, query_of, query_string, url_path,
    url_path_of, url_text_of, usable_url, usable_url_text,
};
use crate::error::SignedURLError;
use crate::options::{OptionsModel, SignedURLOptions};
use crate::ordering::{
    Pair, by_self, by_name, sort_pairs_by_name, strictly_by_name, lemma_sort_no_duplicates, lemma_str_lt_irreflexive, join, join_strings, line_of, pair_line, pairs_view, sort_by_key, sort_pairs_unique,
    sort_strings, sort_unique, strings_view,
};
use crate::scheme::v4;
use crate::text::{concat2, str_equal, plus_as_pct20, push_char, replace_plus, lemma_no_plus_left};
use crate::timestamp::{utc_date, utc_date_of, utc_date_time, utc_date_time_of};

verus! {

/// The scope that follows the date in a V4 credential.
pub const CREDENTIALS_SCOPE: &'static str = "auto/storage/goog4_request";

/// The signing algorithm a V4 URL names.
pub const X_GOOG_ALGORITHM: &'static str = "GOOG4-RSA-SHA256";

/// The start of the validity window: the configured start time, else `now`.
pub open spec fn start_of(m: OptionsModel, now: u64) -> u64 {
    match m.start_time {
        Some(t) => t,
        None => now,
    }
}

/// A start time that has both calendar stamps.
pub open spec fn stamps_exist(start: u64) -> bool {
    &&& start <= i64::MAX
    &&& utc_date_of(start as int) is Some
    &&& utc_date_time_of(start as int) is Some
}

/// The names of the headers.
pub open spec fn names_of(hs: Seq<Pair>) -> Seq<Seq<char>> {
    hs.map_values(|p: Pair| p.0)
}

/// The headers as `name:value` lines.
pub open spec fn lines_of(hs: Seq<Pair>) -> Seq<Seq<char>> {
    hs.map_values(|p: Pair| line_of(p))
}

/// `item` where `wanted` holds and no header is named `name`, else nothing.
pub open spec fn unless_named(hs: Seq<Pair>, name: Seq<char>, wanted: bool, item: Seq<char>) -> Seq<
    Seq<char>,
> {
    if wanted && !names_of(hs).contains(name) {
        seq![item]
    } else {
        Seq::empty()
    }
}

/// The names of the headers a V4 request signs, before sorting: the union of the
/// canonical header names with `host`, and with `content-type` and `content-md5` where set.
pub open spec fn signed_header_names(hs: Seq<Pair>, m: OptionsModel) -> Seq<Seq<char>> {
    names_of(hs) + unless_named(hs, "host"@, true, "host"@) + unless_named(
        hs,
        "content-type"@,
        m.content_type is Some,
        "content-type"@,
    ) + unless_named(hs, "content-md5"@, m.content_md5 is Some, "content-md5"@)
}

/// Why no V4 request can be made: a start time without calendar stamps, or a base URL
/// that does not parse or that still carries a query or fragment.
pub open spec fn request_fault(m: OptionsModel, bucket: Seq<char>, object: Seq<char>, now: u64)
    -> Option<SignedURLError> {
    if !stamps_exist(start_of(m, now)) {
        Some(SignedURLError::InvalidStartTime)
    } else if !usable_url(url_text_of(base_url(m, bucket, object))) || url_path_of(
        base_url(m, bucket, object),
    ) is None {
        Some(SignedURLError::InvalidURL)
    } else {
        None
    }
}

/// The query of a V4 request, before `+` is rewritten, where its start time has stamps.
pub open spec fn request_query(m: OptionsModel, now: u64) -> Seq<char> {
    let st = start_of(m, now) as int;
    query_of(
        request_params(m, v4::canonical(m.headers), utc_date_of(st)->0, utc_date_time_of(st)->0),
    )
}

/// The canonical request of a V4 request, where it has no fault.
pub open spec fn request_text(m: OptionsModel, bucket: Seq<char>, object: Seq<char>, now: u64)
    -> Seq<char> {
    canonical_request(
        m,
        v4::canonical(m.headers),
        m.style.host_spec(m.hostname, bucket),
        url_path_of(base_url(m, bucket, object))->0,
        request_query(m, now),
    )
}

/// The signed-headers list: the names sorted and joined by `;`.
pub open spec fn signed_headers(hs: Seq<Pair>, m: OptionsModel) -> Seq<char> {
    join(sort_by_key(signed_header_names(hs, m), by_self()), seq![';'])
}

/// The `name:value` lines of the signed headers, before sorting: the host, the canonical
/// headers, then content type and content MD5 where set; a canonical header of the same
/// name takes the place of the host, content type or content MD5 line.
pub open spec fn header_lines(hs: Seq<Pair>, host: Seq<char>, m: OptionsModel) -> Seq<Seq<char>> {
    unless_named(hs, "host"@, true, "host:"@ + host) + lines_of(hs) + unless_named(
        hs,
        "content-type"@,
        m.content_type is Some,
        "content-type:"@ + or_empty(m.content_type),
    ) + unless_named(
        hs,
        "content-md5"@,
        m.content_md5 is Some,
        "content-md5:"@ + or_empty(m.content_md5),
    )
}

/// An optional string, or nothing.
pub open spec fn or_empty(o: Option<Seq<char>>) -> Seq<char> {
    match o {
        Some(s) => s,
        None => Seq::empty(),
    }
}

/// Whether a header is named `name`.
pub fn has_name(headers: &[(String, String)], name: &str) -> (r: bool)
    ensures
        r == names_of(pairs_view(headers@)).contains(name@),
{
    let ghost ns = names_of(pairs_view(headers@));
    let mut i: usize = 0;
    while i < headers.len()
        invariant
            i <= headers.len(),
            ns == names_of(pairs_view(headers@)),
            ns.len() == headers.len(),
            forall|j: int| 0 <= j < i ==> ns[j] != name@,
        decreases headers.len() - i,
    {
        assert(ns[i as int] == headers@[i as int].0@);
        if str_equal(headers[i].0.as_str(), name) {
            return true;
        }
        i = i + 1;
    }
    false
}

/// The URL a V4 request is for, before parsing: http when insecure, else https; `?` and
/// `#` in the path escaped, as setting a URL's path does.
pub open spec fn base_url(m: OptionsModel, bucket: Seq<char>, object: Seq<char>) -> Seq<char> {
    (if m.insecure {
        "http://"@
    } else {
        "https://"@
    }) + m.style.host_spec(m.hostname, bucket) + seq!['/'] + escape_delims(
        m.style.path_spec(bucket, object),
    )
}

/// `<access identity>/<date>/auto/storage/goog4_request`.
pub open spec fn credential(m: OptionsModel, date: Seq<char>) -> Seq<char> {
    m.google_access_id + seq!['/'] + date + seq!['/'] + CREDENTIALS_SCOPE@
}

/// A query parameter name that the V4 scheme generates itself.
pub open spec fn generated_name(n: Seq<char>) -> bool {
    n == "X-Goog-Credential"@ || n == "X-Goog-SignedHeaders"@ || n == "X-Goog-Date"@ || n
        == "X-Goog-Expires"@ || n == "X-Goog-Algorithm"@
}

/// The caller's query parameters but those of a generated name, in their order.
pub open spec fn caller_params(s: Seq<Pair>) -> Seq<Pair>
    decreases s.len(),
{
    if s.len() == 0 {
        s
    } else if generated_name(s.last().0) {
        caller_params(s.drop_last())
    } else {
        caller_params(s.drop_last()).push(s.last())
    }
}

/// The five query parameters the V4 scheme generates.
pub open spec fn generated_params(
    m: OptionsModel,
    hs: Seq<Pair>,
    date: Seq<char>,
    date_time: Seq<char>,
) -> Seq<Pair> {
    seq![
        ("X-Goog-Credential"@, credential(m, date)),
        ("X-Goog-SignedHeaders"@, signed_headers(hs, m)),
        ("X-Goog-Date"@, date_time),
        ("X-Goog-Expires"@, decimal(m.expires as nat)),
        ("X-Goog-Algorithm"@, X_GOOG_ALGORITHM@),
    ]
}

/// The query parameters of a V4 request, signature aside, by name: each caller parameter
/// with all its values in the order given, except where the scheme generates that name,
/// and the five generated ones.
pub open spec fn request_params(
    m: OptionsModel,
    hs: Seq<Pair>,
    date: Seq<char>,
    date_time: Seq<char>,
) -> Seq<Pair> {
    sort_by_key(
        caller_params(m.query_parameters) + generated_params(m, hs, date, date_time),
        by_name(),
    )
}

/// Whether the V4 scheme generates a query parameter of this name.
fn is_generated_name(n: &str) -> (r: bool)
    ensures
        r == generated_name(n@),
{
    str_equal(n, "X-Goog-Credential") || str_equal(n, "X-Goog-SignedHeaders") || str_equal(
        n,
        "X-Goog-Date",
    ) || str_equal(n, "X-Goog-Expires") || str_equal(n, "X-Goog-Algorithm")
}

/// The canonical request: method, path, query, header lines, a blank line, and the
/// signed-headers list; `+` written as `%20` in path and query.
pub open spec fn canonical_request(
    m: OptionsModel,
    hs: Seq<Pair>,
    host: Seq<char>,
    path: Seq<char>,
    query: Seq<char>,
) -> Seq<char> {
    m.method.name() + seq!['\n'] + plus_as_pct20(path) + seq!['\n'] + plus_as_pct20(query)
        + seq!['\n'] + join(sort_by_key(header_lines(hs, host, m), by_self()), seq!['\n'])
        + seq!['\n', '\n'] + signed_headers(hs, m)
}

/// The signed-headers list for canonical headers `headers`: their names, `host`, and
/// `content-type` and `content-md5` where set, sorted and joined by `;`.
pub fn get_signed_headers(headers: &[(String, String)], options: &SignedURLOptions) -> (r: String)
    ensures
        r@ == signed_headers(pairs_view(headers@), options@),
{
    let mut names: Vec<String> = Vec::new();
    let mut i: usize = 0;
    while i < headers.len()
        invariant
            i <= headers.len(),
            strings_view(names@) == names_of(pairs_view(headers@.take(i as int))),
        decreases headers.len() - i,
    {
        let ghost before = names@;
        names.push(headers[i].0.clone());
        assert(strings_view(names@) =~= names_of(pairs_view(headers@.take(i + 1)))) by {
            assert(strings_view(names@) =~= strings_view(before).push(headers@[i as int].0@));
            assert(pairs_view(headers@.take(i + 1)) =~= pairs_view(headers@.take(i as int)).push(
                (headers@[i as int].0@, headers@[i as int].1@),
            ));
        }
        i = i + 1;
    }
    assert(headers@.take(headers.len() as int) =~= headers@);
    let ghost base = strings_view(names@);
    if !has_name(headers, "host") {
        names.push(String::from_str("host"));
    }
    if options.content_type().is_some() && !has_name(headers, "content-type") {
        names.push(String::from_str("content-type"));
    }
    if options.content_md5().is_some() && !has_name(headers, "content-md5") {
        names.push(String::from_str("content-md5"));
    }
    assert(strings_view(names@) =~= signed_header_names(pairs_view(headers@), options@));
    let sorted = sort_strings(names);
    let r = join_strings(&sorted, ";");
    proof {
        reveal_strlit(";");
        assert(";"@ =~= seq![';']);
    }
    r
}

/// The sorted `name:value` lines of the signed headers: `host:<host>`, the canonical
/// headers, and content type and content MD5 where set.
pub fn get_header_with_value(headers: &[(String, String)], host: String, options: &SignedURLOptions)
    -> (r: Vec<String>)
    ensures
        strings_view(r@) == sort_by_key(
            header_lines(pairs_view(headers@), host@, options@),
            by_self(),
        ),
{
    let mut lines: Vec<String> = Vec::new();
    let host_given = has_name(headers, "host");
    if !host_given {
        lines.push(concat2("host:", host.as_str()));
    }
    let ghost first = strings_view(lines@);
    let ghost hs = pairs_view(headers@);
    let ghost m = options@;
    assert(first =~= unless_named(hs, "host"@, true, "host:"@ + host@));
    let mut i: usize = 0;
    while i < headers.len()
        invariant
            i <= headers.len(),
            strings_view(lines@) == first + lines_of(pairs_view(headers@.take(i as int))),
        decreases headers.len() - i,
    {
        let ghost before = lines@;
        let line = pair_line(&headers[i]);
        lines.push(line);
        assert(strings_view(lines@) =~= first + lines_of(pairs_view(headers@.take(i + 1)))) by {
            assert(strings_view(lines@) =~= strings_view(before).push(line@));
            assert(pairs_view(headers@.take(i + 1)) =~= pairs_view(headers@.take(i as int)).push(
                (headers@[i as int].0@, headers@[i as int].1@),
            ));
        }
        i = i + 1;
    }
    assert(headers@.take(headers.len() as int) =~= headers@);
    let ghost middle = strings_view(lines@);
    if let Some(ct) = options.content_type() {
        if !has_name(headers, "content-type") {
            lines.push(concat2("content-type:", ct));
        }
    }
    assert(strings_view(lines@) =~= middle + unless_named(
        hs,
        "content-type"@,
        m.content_type is Some,
        "content-type:"@ + or_empty(m.content_type),
    ));
    let ghost third = strings_view(lines@);
    if let Some(md5) = options.content_md5() {
        if !has_name(headers, "content-md5") {
            lines.push(concat2("content-md5:", md5));
        }
    }
    assert(strings_view(lines@) =~= third + unless_named(
        hs,
        "content-md5"@,
        m.content_md5 is Some,
        "content-md5:"@ + or_empty(m.content_md5),
    ));
    assert(strings_view(lines@) =~= header_lines(pairs_view(headers@), host@, options@));
    sort_strings(lines)
}

/// What a V4 signature is made over, and what the URL is built from.
pub struct V4Request {
    /// The parsed base URL.
    pub url: String,
    /// The query, `+` written as `%20`.
    pub query: String,
    /// The canonical request.
    pub canonical_request: String,
}

fn credential_of(options: &SignedURLOptions, date: &str) -> (r: String)
    ensures
        r@ == credential(options@, date@),
{
    let mut r = String::from_str(options.google_access_id());
    push_char(&mut r, '/');
    r.append(date);
    push_char(&mut r, '/');
    r.append(CREDENTIALS_SCOPE);
    r
}

fn base_url_of(bucket: &str, object: &str, options: &SignedURLOptions) -> (r: String)
    ensures
        r@ == base_url(options@, bucket@, object@),
{
    let host = options.style().host(options.hostname(), bucket);
    let path = options.style().path(bucket, object);
    let mut r = if options.insecure() {
        String::from_str("http://")
    } else {
        String::from_str("https://")
    };
    r.append(host.as_str());
    push_char(&mut r, '/');
    let escaped = escape_path(path.as_str());
    r.append(escaped.as_str());
    r
}

/// The V4 request for `object` in `bucket`, with `now` as the start time where the
/// options set none. Fails with `InvalidStartTime` where the start time has no UTC
/// calendar stamp, else with `InvalidURL` where the base URL does not parse.
pub fn v4_request(bucket: &str, object: &str, options: &SignedURLOptions, now: u64) -> (r: Result<
    V4Request,
    SignedURLError,
>)
    ensures
        match request_fault(options@, bucket@, object@, now) {
            Some(e) => r == Err::<V4Request, _>(e),
            None => r is Ok,
        },
        r matches Ok(q) ==> {
            &&& q.url@ == url_text_of(base_url(options@, bucket@, object@))->0
            &&& q.query@ == plus_as_pct20(request_query(options@, now))
            &&& q.canonical_request@ == request_text(options@, bucket@, object@, now)
        },
{
    let start = match options.start_time() {
        Some(t) => t,
        None => now,
    };
    if start > i64::MAX as u64 {
        return Err(SignedURLError::InvalidStartTime);
    }
    let date = match utc_date(start as i64) {
        Some(d) => d,
        None => {
            return Err(SignedURLError::InvalidStartTime);
        },
    };
    let date_time = match utc_date_time(start as i64) {
        Some(d) => d,
        None => {
            return Err(SignedURLError::InvalidStartTime);
        },
    };
    let base = base_url_of(bucket, object, options);
    let url = match usable_url_text(base.as_str()) {
        Some(u) => u,
        None => {
            return Err(SignedURLError::InvalidURL);
        },
    };
    let path = match url_path(base.as_str()) {
        Some(p) => p,
        None => {
            return Err(SignedURLError::InvalidURL);
        },
    };
    let headers = v4::sanitize_headers(options.headers());
    let signed = get_signed_headers(headers.as_slice(), options);

    let mut params: Vec<(String, String)> = Vec::new();
    let caller = options.query_parameters();
    let mut i: usize = 0;
    while i < caller.len()
        invariant
            i <= caller.len(),
            pairs_view(params@) == caller_params(pairs_view(caller@.take(i as int))),
        decreases caller.len() - i,
    {
        let ghost p = (caller@[i as int].0@, caller@[i as int].1@);
        assert(pairs_view(caller@.take(i + 1)) =~= pairs_view(caller@.take(i as int)).push(p));
        assert(pairs_view(caller@.take(i + 1)).drop_last() =~= pairs_view(
            caller@.take(i as int),
        ));
        assert(pairs_view(caller@.take(i + 1)).last() == p);
        if !is_generated_name(caller[i].0.as_str()) {
            let ghost before = params@;
            params.push((caller[i].0.clone(), caller[i].1.clone()));
            assert(pairs_view(params@) =~= pairs_view(before).push(p));
        }
        i = i + 1;
    }
    assert(caller@.take(caller.len() as int) =~= caller@);
    let ghost kept = pairs_view(params@);
    params.push((String::from_str("X-Goog-Credential"), credential_of(options, date.as_str())));
    params.push((String::from_str("X-Goog-SignedHeaders"), signed));
    params.push((String::from_str("X-Goog-Date"), date_time));
    params.push((String::from_str("X-Goog-Expires"), decimal_string(options.expires() as u128)));
    params.push((String::from_str("X-Goog-Algorithm"), String::from_str(X_GOOG_ALGORITHM)));
    let ghost m = options@;
    assert(pairs_view(params@) =~= kept + generated_params(
        m,
        pairs_view(headers@),
        date@,
        date_time@,
    ));
    let sorted = sort_pairs_by_name(&params);
    let raw_query = query_string(&sorted);
    let query = replace_plus(raw_query.as_str());

    let host = options.style().host(options.hostname(), bucket);
    let lines = get_header_with_value(headers.as_slice(), host, options);
    let joined = join_strings(&lines, "\n");
    let signed_again = get_signed_headers(headers.as_slice(), options);
    let mut request = options.method().to_string();
    push_char(&mut request, '\n');
    let escaped_path = replace_plus(path.as_str());
    request.append(escaped_path.as_str());
    push_char(&mut request, '\n');
    request.append(query.as_str());
    push_char(&mut request, '\n');
    request.append(joined.as_str());
    push_char(&mut request, '\n');
    push_char(&mut request, '\n');
    request.append(signed_again.as_str());
    proof {
        reveal_strlit("\n");
        assert("\n"@ =~= seq!['\n']);
    }
    assert(request@ =~= canonical_request(
        m,
        pairs_view(headers@),
        m.style.host_spec(m.hostname, bucket@),
        path@,
        raw_query@,
    ));
    Ok(V4Request { url, query, canonical_request: request })
}

/// The V4 canonical request for `object` in `bucket`: what the access identity signs.
pub fn create_signed_buffer(bucket: &str, object: &str, options: &SignedURLOptions, now: u64)
    -> (r: Result<String, SignedURLError>)
    ensures
        match request_fault(options@, bucket@, object@, now) {
            Some(e) => r == Err::<String, _>(e),
            None => r is Ok,
        },
        r matches Ok(t) ==> t@ == request_text(options@, bucket@, object@, now),
{
    match v4_request(bucket, object, options, now) {
        Ok(q) => Ok(q.canonical_request),
        Err(e) => Err(e),
    }
}

/// For headers with distinct names, such as the canonical V4 headers, the signed-headers
/// list names each header once.
pub proof fn lemma_signed_names_once(hs: Seq<Pair>, m: OptionsModel)
    requires
        strictly_by_name(hs),
    ensures
        sort_by_key(signed_header_names(hs, m), by_self()).no_duplicates(),
{
    let ns = names_of(hs);
    let all = signed_header_names(hs, m);
    reveal_strlit("host");
    reveal_strlit("content-type");
    reveal_strlit("content-md5");
    assert("host"@.len() != "content-type"@.len());
    assert("host"@.len() != "content-md5"@.len());
    assert("content-md5"@.len() != "content-type"@.len());
    let extra = all.skip(ns.len() as int);
    assert(all =~= ns + extra);
    assert forall|i: int, j: int| 0 <= i < all.len() && 0 <= j < all.len() && i != j implies all[i]
        != all[j] by {
        if i < ns.len() && j < ns.len() {
            lemma_str_lt_irreflexive(hs[i].0);
            lemma_str_lt_irreflexive(hs[j].0);
            assert(ns[i] == hs[i].0 && ns[j] == hs[j].0);
        } else if i < ns.len() {
            assert(ns.contains(ns[i]));
        } else if j < ns.len() {
            assert(ns.contains(ns[j]));
        }
    }
    lemma_sort_no_duplicates(all, by_self());
}

/// The query a V4 URL carries, and that its canonical request holds, has no `+` left.
pub proof fn lemma_query_has_no_plus(m: OptionsModel, now: u64)
    ensures
        !plus_as_pct20(request_query(m, now)).contains('+'),
{
    lemma_no_plus_left(request_query(m, now));
}

} // verus!

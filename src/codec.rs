//! Encodings: base64, hexadecimal, decimal, form-urlencoding, and URL parsing.
use vstd::prelude::*;
use vstd::string::*;
use crate::text::{push_char, concat2};
use crate::ordering::{Pair, pairs_view, join, strings_view, join_strings};
use base64::Engine;

verus! {

#[verifier::external_type_specification]
#[verifier::external_body]
pub struct ExDecodeError(base64::DecodeError);

/// The bytes that standard base64 (with padding) decodes `s` to, if it is valid.
pub uninterp spec fn base64_decoded(s: Seq<char>) -> Option<Seq<u8>>;

/// The standard base64 (with padding) encoding of `b`.
pub uninterp spec fn base64_encoded(b: Seq<u8>) -> Seq<char>;

/// Relies on base64's `STANDARD` engine `decode`: the bytes `s` stands for, or why it is
/// not valid base64.
#[verifier::external_body]
pub(crate) fn base64_decode(s: &str) -> (r: Result<Vec<u8>, base64::DecodeError>)
    ensures
        r is Ok <==> base64_decoded(s@) is Some,
        r matches Ok(v) ==> v@ == base64_decoded(s@)->0,
{
    base64::prelude::BASE64_STANDARD.decode(s)
}

/// Relies on base64's `STANDARD` engine `encode`: padded standard base64 of `b`.
#[verifier::external_body]
pub(crate) fn base64_encode(b: &[u8]) -> (r: String)
    ensures
        r@ == base64_encoded(b@),
{
    base64::prelude::BASE64_STANDARD.encode(b)
}

/// The `application/x-www-form-urlencoded` serialisation of the UTF-8 bytes of `s`.
pub uninterp spec fn form_encoded(s: Seq<char>) -> Seq<char>;

/// Relies on `form_urlencoded::byte_serialize` (re-exported by url): the form-urlencoded
/// text of the bytes of `s`.
#[verifier::external_body]
pub(crate) fn form_encode(s: &str) -> (r: String)
    ensures
        r@ == form_encoded(s@),
{
    url::form_urlencoded::byte_serialize(s.as_bytes()).collect()
}

/// The serialisation of `s` parsed as an absolute URL, if it parses.
pub uninterp spec fn url_text_of(s: Seq<char>) -> Option<Seq<char>>;

/// The path of `s` parsed as an absolute URL, if it parses.
pub uninterp spec fn url_path_of(s: Seq<char>) -> Option<Seq<char>>;

/// Relies on `url::Url::parse` and `Url::as_str`: the normalised text of an absolute URL.
#[verifier::external_body]
pub(crate) fn url_text(s: &str) -> (r: Option<String>)
    ensures
        r is Some <==> url_text_of(s@) is Some,
        r matches Some(t) ==> t@ == url_text_of(s@)->0,
{
    url::Url::parse(s).ok().map(|u| u.as_str().to_string())
}

/// Relies on `url::Url::parse` and `Url::path`: the percent-encoded path of an absolute URL.
#[verifier::external_body]
pub(crate) fn url_path(s: &str) -> (r: Option<String>)
    ensures
        r is Some <==> url_path_of(s@) is Some,
        r matches Some(t) ==> t@ == url_path_of(s@)->0,
{
    url::Url::parse(s).ok().map(|u| u.path().to_string())
}

/// The lower-case hexadecimal digit for `d`.
pub open spec fn hex_digit(d: u8) -> char {
    if d < 10 {
        (('0' as u8) + d) as char
    } else {
        (('a' as u8) + d - 10) as char
    }
}

/// Lower-case hexadecimal, two digits per byte.
pub open spec fn hex_of(b: Seq<u8>) -> Seq<char>
    decreases b.len(),
{
    if b.len() == 0 {
        Seq::empty()
    } else {
        hex_of(b.drop_last()) + seq![hex_digit(b.last() / 16), hex_digit(b.last() % 16)]
    }
}

fn hex_char(d: u8) -> (c: char)
    requires
        d < 16,
    ensures
        c == hex_digit(d),
{
    if d < 10 {
        (('0' as u8) + d) as char
    } else {
        (('a' as u8) + d - 10) as char
    }
}

/// Lower-case hexadecimal, two digits per byte.
pub fn hex_encode(b: &[u8]) -> (r: String)
    ensures
        r@ == hex_of(b@),
{
    let mut r = String::new();
    let mut i: usize = 0;
    while i < b.len()
        invariant
            i <= b.len(),
            r@ == hex_of(b@.take(i as int)),
        decreases b.len() - i,
    {
        assert(b@.take(i + 1).drop_last() =~= b@.take(i as int));
        push_char(&mut r, hex_char(b[i] / 16));
        push_char(&mut r, hex_char(b[i] % 16));
        i = i + 1;
    }
    assert(b@.take(b.len() as int) =~= b@);
    r
}

/// The decimal digit for `d`.
pub open spec fn decimal_digit(d: nat) -> char {
    (('0' as u8) + (d as u8)) as char
}

/// `n` in decimal, without leading zeros.
pub open spec fn decimal(n: nat) -> Seq<char>
    decreases n,
{
    if n < 10 {
        seq![decimal_digit(n)]
    } else {
        decimal(n / 10).push(decimal_digit(n % 10))
    }
}

/// `n` in decimal, without leading zeros.
pub fn decimal_string(n: u128) -> (r: String)
    ensures
        r@ == decimal(n as nat),
    decreases n,
{
    let d = (('0' as u8) + ((n % 10) as u8)) as char;
    if n < 10 {
        let mut r = String::new();
        push_char(&mut r, d);
        r
    } else {
        let mut r = decimal_string(n / 10);
        push_char(&mut r, d);
        r
    }
}

/// One query parameter, `name=value`, both form-urlencoded.
pub open spec fn query_item(p: Pair) -> Seq<char> {
    form_encoded(p.0) + seq!['='] + form_encoded(p.1)
}

/// Each parameter as `name=value`.
pub open spec fn query_items(s: Seq<Pair>) -> Seq<Seq<char>> {
    s.map_values(|p: Pair| query_item(p))
}

/// The form-urlencoded query string of the parameters, in their order.
pub open spec fn query_of(s: Seq<Pair>) -> Seq<char> {
    join(query_items(s), seq!['&'])
}

/// The form-urlencoded query string of the parameters, in their order.
pub fn query_string(params: &Vec<(String, String)>) -> (r: String)
    ensures
        r@ == query_of(pairs_view(params@)),
{
    let mut items: Vec<String> = Vec::new();
    let mut i: usize = 0;
    while i < params.len()
        invariant
            i <= params.len(),
            strings_view(items@) == query_items(pairs_view(params@.take(i as int))),
        decreases params.len() - i,
    {
        let k = form_encode(params[i].0.as_str());
        let with_eq = concat2(k.as_str(), "=");
        proof {
            reveal_strlit("=");
        }
        let v = form_encode(params[i].1.as_str());
        let item = concat2(with_eq.as_str(), v.as_str());
        assert("="@ =~= seq!['=']);
        assert(item@ == query_item((params@[i as int].0@, params@[i as int].1@)));
        let ghost before = items@;
        items.push(item);
        assert(strings_view(items@) =~= query_items(pairs_view(params@.take(i + 1)))) by {
            assert(strings_view(items@) =~= strings_view(before).push(item@));
            assert(pairs_view(params@.take(i + 1)) =~= pairs_view(params@.take(i as int)).push(
                (params@[i as int].0@, params@[i as int].1@),
            ));
        }
        i = i + 1;
    }
    assert(params@.take(params.len() as int) =~= params@);
    let r = join_strings(&items, "&");
    proof {
        reveal_strlit("&");
        assert("&"@ =~= seq!['&']);
    }
    r
}

/// `s` with `?` written as `%3F` and `#` as `%23`, so that as a URL path it starts no
/// query or fragment.
pub open spec fn escape_delims(s: Seq<char>) -> Seq<char>
    decreases s.len(),
{
    if s.len() == 0 {
        Seq::empty()
    } else if s.last() == '?' {
        escape_delims(s.drop_last()) + seq!['%', '3', 'F']
    } else if s.last() == '#' {
        escape_delims(s.drop_last()) + seq!['%', '2', '3']
    } else {
        escape_delims(s.drop_last()).push(s.last())
    }
}

/// Writes `?` as `%3F` and `#` as `%23`.
pub fn escape_path(s: &str) -> (r: String)
    ensures
        r@ == escape_delims(s@),
{
    let n = s.unicode_len();
    let mut r = String::new();
    let mut i: usize = 0;
    while i < n
        invariant
            n == s@.len(),
            i <= n,
            r@ == escape_delims(s@.take(i as int)),
        decreases n - i,
    {
        let c = s.get_char(i);
        assert(s@.take(i + 1).drop_last() =~= s@.take(i as int));
        if c == '?' {
            push_char(&mut r, '%');
            push_char(&mut r, '3');
            push_char(&mut r, 'F');
            assert(r@ =~= escape_delims(s@.take(i + 1)));
        } else if c == '#' {
            push_char(&mut r, '%');
            push_char(&mut r, '2');
            push_char(&mut r, '3');
            assert(r@ =~= escape_delims(s@.take(i + 1)));
        } else {
            push_char(&mut r, c);
        }
        i = i + 1;
    }
    assert(s@.take(n as int) =~= s@);
    r
}

/// Whether `s` holds the character `c`.
pub fn has_char(s: &str, c: char) -> (r: bool)
    ensures
        r == s@.contains(c),
{
    let n = s.unicode_len();
    let mut i: usize = 0;
    while i < n
        invariant
            n == s@.len(),
            i <= n,
            forall|j: int| 0 <= j < i ==> s@[j] != c,
        decreases n - i,
    {
        if s.get_char(i) == c {
            return true;
        }
        i = i + 1;
    }
    false
}

/// A parsed URL that carries neither query nor fragment, so that a query can follow it.
pub open spec fn usable_url(t: Option<Seq<char>>) -> bool {
    t matches Some(u) && !u.contains('?') && !u.contains('#')
}

/// The text of a URL that parses and carries neither query nor fragment.
pub fn usable_url_text(s: &str) -> (r: Option<String>)
    ensures
        r is Some <==> usable_url(url_text_of(s@)),
        r matches Some(t) ==> t@ == url_text_of(s@)->0,
{
    match url_text(s) {
        Some(t) => {
            if has_char(t.as_str(), '?') || has_char(t.as_str(), '#') {
                None
            } else {
                Some(t)
            }
        },
        None => None,
    }
}

/// Lower-case hexadecimal holds no `+`.
pub proof fn lemma_hex_has_no_plus(b: Seq<u8>)
    ensures
        !hex_of(b).contains('+'),
    decreases b.len(),
{
    if b.len() > 0 {
        lemma_hex_has_no_plus(b.drop_last());
        let p = hex_of(b.drop_last());
        let h = hex_of(b);
        assert forall|j: int| 0 <= j < h.len() implies h[j] != '+' by {
            if j < p.len() {
                assert(h[j] == p[j]);
            } else {
                let d = if j == p.len() { b.last() / 16 } else { b.last() % 16 };
                assert(h[j] == hex_digit(d));
            }
        }
    }
}

} // verus!

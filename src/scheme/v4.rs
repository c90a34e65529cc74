//! The V4 scheme: header canonicalisation and the signed URL.
use vstd::prelude::*;
use vstd::string::*;
use crate::buffer::{v4_request, base_url, request_fault, request_query};
use crate::codec::{hex_encode, hex_of, url_text_of, lemma_hex_has_no_plus};
use crate::error::SignedURLError;
use crate::options::SignedURLOptions;
use crate::options::OptionsModel;
use crate::text::lemma_no_plus_left;
use crate::ordering::{Pair, pairs_view, sort_unique, sort_pairs_unique, strictly_by_name, lemma_sort_unique_strict,
    lemma_sort_unique_last_wins, lemma_sort_unique_from_input, lemma_sort_unique_has_name};
use crate::text::{collapse_runs, collapse_spaces, collapse_tabs, lower_of, lowercase, plus_as_pct20,
    trim, trim_of, push_char};

verus! {

/// A header with its name trimmed and lower-cased, and its value trimmed, each run of
/// spaces made one space and then each run of tabs one tab.
pub open spec fn normalize(p: Pair) -> Pair {
    (lower_of(trim_of(p.0)), collapse_runs(collapse_runs(trim_of(p.1), ' '), '\t'))
}

/// Every header normalised.
pub open spec fn normalized(s: Seq<Pair>) -> Seq<Pair> {
    s.map_values(|p: Pair| normalize(p))
}

/// The canonical V4 headers: normalised, one per name with the last value given for it,
/// in name order.
pub open spec fn canonical(s: Seq<Pair>) -> Seq<Pair> {
    sort_unique(normalized(s))
}

/// The canonical V4 headers: normalised, one per name with the last value given for it,
/// in name order.
pub fn sanitize_headers(headers: &[(String, String)]) -> (r: Vec<(String, String)>)
    ensures
        pairs_view(r@) == canonical(pairs_view(headers@)),
{
    let mut norm: Vec<(String, String)> = Vec::new();
    let mut i: usize = 0;
    while i < headers.len()
        invariant
            i <= headers.len(),
            pairs_view(norm@) == normalized(pairs_view(headers@.take(i as int))),
        decreases headers.len() - i,
    {
        let name = lowercase(trim(headers[i].0.as_str()));
        let spaced = collapse_spaces(trim(headers[i].1.as_str()));
        let value = collapse_tabs(spaced.as_str());
        let ghost before = norm@;
        norm.push((name, value));
        assert(pairs_view(norm@) =~= normalized(pairs_view(headers@.take(i + 1)))) by {
            assert(pairs_view(norm@) =~= pairs_view(before).push((name@, value@)));
            assert(pairs_view(headers@.take(i + 1)) =~= pairs_view(headers@.take(i as int)).push(
                (headers@[i as int].0@, headers@[i as int].1@),
            ));
        }
        i = i + 1;
    }
    assert(headers@.take(headers.len() as int) =~= headers@);
    sort_pairs_unique(&norm)
}

/// Canonical V4 headers name each header once, in strictly ascending order.
pub proof fn lemma_canonical_names_unique(headers: Seq<Pair>)
    ensures
        strictly_by_name(canonical(headers)),
{
    lemma_sort_unique_strict(normalized(headers));
}

/// Of the headers that normalise to one name, the last one's value is the one kept.
pub proof fn lemma_canonical_last_wins(headers: Seq<Pair>, i: int)
    requires
        0 <= i < headers.len(),
        forall|j: int| i < j < headers.len() ==> normalize(#[trigger] headers[j]).0 != normalize(
            headers[i],
        ).0,
    ensures
        canonical(headers).contains(normalize(headers[i])),
{
    let n = normalized(headers);
    assert forall|j: int| i < j < n.len() implies (#[trigger] n[j]).0 != n[i].0 by {
        assert(n[j] == normalize(headers[j]));
    }
    lemma_sort_unique_last_wins(n, i);
}

/// The canonical V4 headers are exactly the normalised names of the input: every entry is
/// a normalised input header, and every input header's normalised name has an entry.
pub proof fn lemma_canonical_names_from_input(headers: Seq<Pair>)
    ensures
        forall|i: int|
            0 <= i < canonical(headers).len() ==> normalized(headers).contains(
                #[trigger] canonical(headers)[i],
            ),
        forall|i: int|
            #![trigger headers[i]]
            0 <= i < headers.len() ==> exists|k: int|
                0 <= k < canonical(headers).len() && (#[trigger] canonical(headers)[k]).0
                    == normalize(headers[i]).0,
{
    let n = normalized(headers);
    lemma_sort_unique_from_input(n);
    assert forall|i: int|
        #![trigger headers[i]]
        0 <= i < headers.len() implies exists|k: int|
            0 <= k < canonical(headers).len() && (#[trigger] canonical(headers)[k]).0 == normalize(
                headers[i],
            ).0 by {
        assert(n[i] == normalize(headers[i]));
        lemma_sort_unique_has_name(n, i);
        let k = choose|k: int| 0 <= k < sort_unique(n).len() && (#[trigger] sort_unique(n)[k]).0
            == n[i].0;
        assert(canonical(headers)[k].0 == normalize(headers[i]).0);
    }
}

/// The V4 signed URL, given the signature of the canonical request: the base URL, its
/// query in name order with `+` written as `%20`, then `X-Goog-Signature` in hexadecimal.
pub fn signed_url(
    bucket: &str,
    object: &str,
    options: &SignedURLOptions,
    now: u64,
    signature: &[u8],
) -> (r: Result<String, SignedURLError>)
    ensures
        match request_fault(options@, bucket@, object@, now) {
            Some(e) => r == Err::<String, _>(e),
            None => r is Ok,
        },
        r matches Ok(u) ==> u@ == url_text_of(base_url(options@, bucket@, object@))->0 + seq![
            '?',
        ] + plus_as_pct20(request_query(options@, now)) + "&X-Goog-Signature="@ + hex_of(
            signature@,
        ),
{
    let request = match v4_request(bucket, object, options, now) {
        Ok(q) => q,
        Err(e) => {
            return Err(e);
        },
    };
    let mut r = request.url;
    push_char(&mut r, '?');
    r.append(request.query.as_str());
    r.append("&X-Goog-Signature=");
    let sig = hex_encode(signature);
    r.append(sig.as_str());
    Ok(r)
}

/// Everything after the first `?` of a V4 signed URL, that is its whole query, holds no
/// `+`: the base URL carries no query, and every `+` of the query is written as `%20`.
pub proof fn lemma_signed_query_has_no_plus(
    m: OptionsModel,
    bucket: Seq<char>,
    object: Seq<char>,
    now: u64,
    signature: Seq<u8>,
)
    requires
        request_fault(m, bucket, object, now) is None,
    ensures
        ({
            let t = url_text_of(base_url(m, bucket, object))->0;
            let u = t + seq!['?'] + plus_as_pct20(request_query(m, now)) + "&X-Goog-Signature="@
                + hex_of(signature);
            &&& u[t.len() as int] == '?'
            &&& forall|j: int| 0 <= j < t.len() ==> u[j] != '?'
            &&& !u.skip(t.len() as int + 1).contains('+')
        }),
{
    let t = url_text_of(base_url(m, bucket, object))->0;
    let q = plus_as_pct20(request_query(m, now));
    let lit = "&X-Goog-Signature="@;
    let h = hex_of(signature);
    let u = t + seq!['?'] + q + lit + h;
    reveal_strlit("&X-Goog-Signature=");
    lemma_no_plus_left(request_query(m, now));
    lemma_hex_has_no_plus(signature);
    assert(!lit.contains('+'));
    assert forall|j: int| 0 <= j < t.len() implies u[j] != '?' by {
        assert(u[j] == t[j]);
        assert(t.contains(t[j]));
    }
    let rest = u.skip(t.len() as int + 1);
    assert(rest =~= q + lit + h);
    assert forall|k: int| 0 <= k < rest.len() implies rest[k] != '+' by {
        if k < q.len() {
            assert(rest[k] == q[k]);
            assert(q.contains(q[k]));
        } else if k < q.len() + lit.len() {
            assert(rest[k] == lit[k - q.len()]);
            assert(lit.contains(lit[k - q.len()]));
        } else {
            assert(rest[k] == h[k - q.len() - lit.len()]);
            assert(h.contains(h[k - q.len() - lit.len()]));
        }
    }
}

} // verus!

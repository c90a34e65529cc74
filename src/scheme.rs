//! The two signing schemes.
use vstd::prelude::*;
use crate::buffer::{base_url, create_signed_buffer, request_fault, request_query, request_text};
use crate::codec::{hex_of, query_of, url_text_of, usable_url};
use crate::error::SignedURLError;
use crate::options::SignedURLOptions;
use crate::text::plus_as_pct20;

pub mod v2;
pub mod v4;

verus! {

/// Which signing algorithm produces the URL.
#[derive(Debug, Clone, Copy, PartialEq, Eq, Structural)]
pub enum SignedURLScheme {
    V2,
    V4,
}

impl Default for SignedURLScheme {
    fn default() -> (r: Self)
        ensures
            r == SignedURLScheme::V2,
    {
        SignedURLScheme::V2
    }
}

/// What the access identity signs for `object` in `bucket` under the options' scheme, with
/// `now` as the start time where the options set none.
pub fn string_to_sign(bucket: &str, object: &str, options: &SignedURLOptions, now: u64) -> (r:
    Result<String, SignedURLError>)
    ensures
        options@.scheme == SignedURLScheme::V2 ==> {
            let url = url_text_of(v2::resource(options@, bucket@, object@));
            &&& !usable_url(url) ==> r == Err::<String, _>(SignedURLError::InvalidURL)
            &&& usable_url(url) ==> (r matches Ok(s) && s@ == v2::payload(options@, now, url->0))
        },
        options@.scheme == SignedURLScheme::V4 ==> {
            &&& request_fault(options@, bucket@, object@, now) matches Some(e) ==> r == Err::<
                String,
                _,
            >(e)
            &&& request_fault(options@, bucket@, object@, now) is None ==> (r matches Ok(s)
                && s@ == request_text(options@, bucket@, object@, now))
        },
{
    match options.scheme() {
        SignedURLScheme::V2 => v2::string_to_sign(bucket, object, options, now),
        SignedURLScheme::V4 => create_signed_buffer(bucket, object, options, now),
    }
}

/// The signed URL for `object` in `bucket` under the options' scheme, given the signature
/// of [`string_to_sign`]'s result.
pub fn signed_url(
    bucket: &str,
    object: &str,
    options: &SignedURLOptions,
    now: u64,
    signature: &[u8],
) -> (r: Result<String, SignedURLError>)
    ensures
        options@.scheme == SignedURLScheme::V2 ==> {
            let url = url_text_of(v2::resource(options@, bucket@, object@));
            &&& !usable_url(url) ==> r == Err::<String, _>(SignedURLError::InvalidURL)
            &&& usable_url(url) ==> (r matches Ok(s) && s@ == url->0 + seq!['?'] + query_of(
                v2::query_params(options@, now, signature@),
            ))
        },
        options@.scheme == SignedURLScheme::V4 ==> {
            &&& request_fault(options@, bucket@, object@, now) matches Some(e) ==> r == Err::<
                String,
                _,
            >(e)
            &&& request_fault(options@, bucket@, object@, now) is None ==> (r matches Ok(s)
                && s@ == url_text_of(base_url(options@, bucket@, object@))->0 + seq!['?']
                + plus_as_pct20(request_query(options@, now)) + "&X-Goog-Signature="@ + hex_of(
                signature@,
            ))
        },
{
    match options.scheme() {
        SignedURLScheme::V2 => v2::signed_url(bucket, object, options, now, signature),
        SignedURLScheme::V4 => v4::signed_url(bucket, object, options, now, signature),
    }
}

} // verus!

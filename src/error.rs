//! Errors of option building and of signing.
use vstd::prelude::*;

verus! {

/// Why a set of signing options was refused.
#[derive(Debug, PartialEq, Eq)]
pub enum SignedURLOptionsBuilderError {
    /// The expiry is zero.
    ExpiresZero,
    /// The expiry is over seven days for a V4 URL.
    V4ExpiresTooLong,
    /// The access identity is empty.
    EmptyGoogleAccessId,
    /// The content MD5 is not valid base64.
    Base64DecodeError(base64::DecodeError),
    /// The content MD5 does not decode to sixteen bytes.
    InvalidChecksum,
    /// A V2 URL asked for a style other than path style.
    V2InvalidURLStyle,
    /// The expiry is over seven days.
    InvalidExpirationDuration,
}

/// Why no signed URL was produced.
#[derive(Debug, PartialEq, Eq)]
pub enum SignedURLError {
    /// The options were refused.
    BuilderError(SignedURLOptionsBuilderError),
    /// Host and path do not make a URL.
    InvalidURL,
    /// The start time has no calendar date.
    InvalidStartTime,
}

} // verus!

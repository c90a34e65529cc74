//! The validated options of one signing request, and their builder.
use vstd::prelude::*;
use crate::codec::{base64_decode, base64_decoded};
use crate::error::SignedURLOptionsBuilderError;
use crate::method::SignedURLMethod;
use crate::ordering::{Pair, pairs_view};
use crate::scheme::SignedURLScheme;
use crate::url_style::URLStyle;

verus! {

/// The longest expiry, in seconds: seven days.
pub const ONE_WEEK: u64 = 604800;

/// The length of an MD5 digest, in bytes.
pub const MD5_HASH_SIZE: usize = 16;

/// What a set of options holds, as mathematical values.
pub struct OptionsModel {
    pub google_access_id: Seq<char>,
    /// Unix seconds.
    pub start_time: Option<u64>,
    pub method: SignedURLMethod,
    /// Seconds.
    pub expires: u64,
    pub content_type: Option<Seq<char>>,
    pub headers: Seq<Pair>,
    pub query_parameters: Seq<Pair>,
    pub content_md5: Option<Seq<char>>,
    pub style: URLStyle,
    pub insecure: bool,
    pub scheme: SignedURLScheme,
    pub hostname: Option<Seq<char>>,
}

/// The characters of an optional string.
pub open spec fn opt_string_view(o: Option<String>) -> Option<Seq<char>> {
    match o {
        Some(s) => Some(s@),
        None => None,
    }
}

/// The check that failed first, by kind.
pub enum BuildFault {
    ExpiresZero,
    EmptyGoogleAccessId,
    Base64DecodeError,
    InvalidChecksum,
    V2InvalidURLStyle,
    InvalidExpirationDuration,
}

impl SignedURLOptionsBuilderError {
    /// The kind of check this error reports.
    pub open spec fn fault(self) -> Option<BuildFault> {
        match self {
            SignedURLOptionsBuilderError::ExpiresZero => Some(BuildFault::ExpiresZero),
            SignedURLOptionsBuilderError::EmptyGoogleAccessId => Some(
                BuildFault::EmptyGoogleAccessId,
            ),
            SignedURLOptionsBuilderError::Base64DecodeError(_) => Some(
                BuildFault::Base64DecodeError,
            ),
            SignedURLOptionsBuilderError::InvalidChecksum => Some(BuildFault::InvalidChecksum),
            SignedURLOptionsBuilderError::V2InvalidURLStyle => Some(BuildFault::V2InvalidURLStyle),
            SignedURLOptionsBuilderError::InvalidExpirationDuration => Some(
                BuildFault::InvalidExpirationDuration,
            ),
            SignedURLOptionsBuilderError::V4ExpiresTooLong => None,
        }
    }
}

/// The first check, in order, that options `m` fail, where `checksum` is what the content
/// MD5 decodes to: `None` without one, `Some(None)` where it is not base64, else its bytes.
pub open spec fn first_fault(m: OptionsModel, checksum: Option<Option<Seq<u8>>>) -> Option<
    BuildFault,
> {
    if m.expires == 0 {
        Some(BuildFault::ExpiresZero)
    } else if m.google_access_id.len() == 0 {
        Some(BuildFault::EmptyGoogleAccessId)
    } else if checksum == Some(None::<Seq<u8>>) {
        Some(BuildFault::Base64DecodeError)
    } else if checksum matches Some(Some(b)) && b.len() != MD5_HASH_SIZE {
        Some(BuildFault::InvalidChecksum)
    } else if m.scheme == SignedURLScheme::V2 && !(m.style is Path) {
        Some(BuildFault::V2InvalidURLStyle)
    } else if m.expires > ONE_WEEK {
        Some(BuildFault::InvalidExpirationDuration)
    } else {
        None
    }
}

/// What the content MD5 of `m` decodes to.
pub open spec fn decoded_checksum(m: OptionsModel) -> Option<Option<Seq<u8>>> {
    match m.content_md5 {
        Some(s) => Some(base64_decoded(s)),
        None => None,
    }
}

/// Options that pass every check.
pub open spec fn valid_options(m: OptionsModel) -> bool {
    first_fault(m, decoded_checksum(m)) is None
}

/// The options of one signing request; made only by [`SignedURLOptionsBuilder::build`].
#[derive(Debug)]
pub struct SignedURLOptions {
    google_access_id: String,
    start_time: Option<u64>,
    method: SignedURLMethod,
    expires: u64,
    content_type: Option<String>,
    headers: Vec<(String, String)>,
    query_parameters: Vec<(String, String)>,
    content_md5: Option<String>,
    style: URLStyle,
    insecure: bool,
    scheme: SignedURLScheme,
    hostname: Option<String>,
}

/// Options under construction; each setter replaces one field.
#[derive(Debug)]
pub struct SignedURLOptionsBuilder {
    google_access_id: String,
    start_time: Option<u64>,
    method: SignedURLMethod,
    expires: u64,
    content_type: Option<String>,
    headers: Vec<(String, String)>,
    query_parameters: Vec<(String, String)>,
    content_md5: Option<String>,
    style: URLStyle,
    insecure: bool,
    scheme: SignedURLScheme,
    hostname: Option<String>,
}

impl View for SignedURLOptions {
    type V = OptionsModel;

    closed spec fn view(&self) -> OptionsModel {
        OptionsModel {
            google_access_id: self.google_access_id@,
            start_time: self.start_time,
            method: self.method,
            expires: self.expires,
            content_type: opt_string_view(self.content_type),
            headers: pairs_view(self.headers@),
            query_parameters: pairs_view(self.query_parameters@),
            content_md5: opt_string_view(self.content_md5),
            style: self.style,
            insecure: self.insecure,
            scheme: self.scheme,
            hostname: opt_string_view(self.hostname),
        }
    }
}

impl View for SignedURLOptionsBuilder {
    type V = OptionsModel;

    closed spec fn view(&self) -> OptionsModel {
        OptionsModel {
            google_access_id: self.google_access_id@,
            start_time: self.start_time,
            method: self.method,
            expires: self.expires,
            content_type: opt_string_view(self.content_type),
            headers: pairs_view(self.headers@),
            query_parameters: pairs_view(self.query_parameters@),
            content_md5: opt_string_view(self.content_md5),
            style: self.style,
            insecure: self.insecure,
            scheme: self.scheme,
            hostname: opt_string_view(self.hostname),
        }
    }
}

impl SignedURLOptions {
    /// A builder for `google_access_id` and an expiry of `expires` seconds, every other
    /// option at its default: no start time, GET, no content type or MD5, no headers or
    /// query parameters, path style, https, V2, no custom host.
    pub fn new(google_access_id: String, expires: u64) -> (r: SignedURLOptionsBuilder)
        ensures
            r@ == (OptionsModel {
                google_access_id: google_access_id@,
                start_time: None,
                method: SignedURLMethod::Get,
                expires,
                content_type: None,
                headers: Seq::empty(),
                query_parameters: Seq::empty(),
                content_md5: None,
                style: URLStyle::Path,
                insecure: false,
                scheme: SignedURLScheme::V2,
                hostname: None,
            }),
    {
        let r = SignedURLOptionsBuilder {
            google_access_id,
            start_time: None,
            method: SignedURLMethod::Get,
            expires,
            content_type: None,
            headers: Vec::new(),
            query_parameters: Vec::new(),
            content_md5: None,
            style: URLStyle::Path,
            insecure: false,
            scheme: SignedURLScheme::V2,
            hostname: None,
        };
        assert(pairs_view(r.headers@) =~= Seq::empty());
        assert(pairs_view(r.query_parameters@) =~= Seq::empty());
        r
    }

    /// The start of the validity window, in Unix seconds, if set.
    pub fn start_time(&self) -> (r: Option<u64>)
        ensures
            r == self@.start_time,
    {
        self.start_time
    }

    /// Whether a V4 URL uses `http` rather than `https`.
    pub fn insecure(&self) -> (r: bool)
        ensures
            r == self@.insecure,
    {
        self.insecure
    }

    /// How bucket and object map onto host and path.
    pub fn style(&self) -> (r: &URLStyle)
        ensures
            *r == self@.style,
    {
        &self.style
    }

    /// The custom host, if set.
    pub fn hostname(&self) -> (r: Option<&str>)
        ensures
            opt_view_str(r) == self@.hostname,
    {
        match &self.hostname {
            Some(h) => Some(h.as_str()),
            None => None,
        }
    }

    /// The signing scheme.
    pub fn scheme(&self) -> (r: SignedURLScheme)
        ensures
            r == self@.scheme,
    {
        self.scheme
    }

    /// The extension headers, as given.
    pub fn headers(&self) -> (r: &[(String, String)])
        ensures
            pairs_view(r@) == self@.headers,
    {
        self.headers.as_slice()
    }

    /// The content type, if set.
    pub fn content_type(&self) -> (r: Option<&str>)
        ensures
            opt_view_str(r) == self@.content_type,
    {
        match &self.content_type {
            Some(h) => Some(h.as_str()),
            None => None,
        }
    }

    /// The base64 MD5 digest of the content, if set.
    pub fn content_md5(&self) -> (r: Option<&str>)
        ensures
            opt_view_str(r) == self@.content_md5,
    {
        match &self.content_md5 {
            Some(h) => Some(h.as_str()),
            None => None,
        }
    }

    /// The identity that signs.
    pub fn google_access_id(&self) -> (r: &str)
        ensures
            r@ == self@.google_access_id,
    {
        self.google_access_id.as_str()
    }

    /// The expiry, in seconds.
    pub fn expires(&self) -> (r: u64)
        ensures
            r == self@.expires,
    {
        self.expires
    }

    /// The extra query parameters, as given.
    pub fn query_parameters(&self) -> (r: &[(String, String)])
        ensures
            pairs_view(r@) == self@.query_parameters,
    {
        self.query_parameters.as_slice()
    }

    /// The HTTP method.
    pub fn method(&self) -> (r: SignedURLMethod)
        ensures
            r == self@.method,
    {
        self.method
    }
}

/// The characters of an optional string slice.
pub open spec fn opt_view_str(o: Option<&str>) -> Option<Seq<char>> {
    match o {
        Some(s) => Some(s@),
        None => None,
    }
}

impl SignedURLOptionsBuilder {
    /// Sets the start of the validity window, in Unix seconds.
    pub fn start_time(self, start_time: u64) -> (r: Self)
        ensures
            r@ == (OptionsModel { start_time: Some(start_time), ..self@ }),
    {
        let mut s = self;
        s.start_time = Some(start_time);
        s
    }

    /// Sets the HTTP method.
    pub fn method(self, method: SignedURLMethod) -> (r: Self)
        ensures
            r@ == (OptionsModel { method: method, ..self@ }),
    {
        let mut s = self;
        s.method = method;
        s
    }

    /// Sets the content type that the request must carry.
    pub fn content_type(self, content_type: String) -> (r: Self)
        ensures
            r@ == (OptionsModel { content_type: Some(content_type@), ..self@ }),
    {
        let mut s = self;
        s.content_type = Some(content_type);
        s
    }

    /// Sets the extension headers that the request must carry.
    pub fn headers(self, headers: Vec<(String, String)>) -> (r: Self)
        ensures
            r@ == (OptionsModel { headers: pairs_view(headers@), ..self@ }),
    {
        let mut s = self;
        s.headers = headers;
        s
    }

    /// Sets extra query parameters.
    pub fn query_parameters(self, query_parameters: Vec<(String, String)>) -> (r: Self)
        ensures
            r@ == (OptionsModel { query_parameters: pairs_view(query_parameters@), ..self@ }),
    {
        let mut s = self;
        s.query_parameters = query_parameters;
        s
    }

    /// Sets the base64 MD5 digest that the request's content must have.
    pub fn content_md5(self, content_md5: String) -> (r: Self)
        ensures
            r@ == (OptionsModel { content_md5: Some(content_md5@), ..self@ }),
    {
        let mut s = self;
        s.content_md5 = Some(content_md5);
        s
    }

    /// Sets the URL style.
    pub fn style(self, style: URLStyle) -> (r: Self)
        ensures
            r@ == (OptionsModel { style: style, ..self@ }),
    {
        let mut s = self;
        s.style = style;
        s
    }

    /// Selects `http` over `https` for V4 URLs.
    pub fn insecure(self, insecure: bool) -> (r: Self)
        ensures
            r@ == (OptionsModel { insecure: insecure, ..self@ }),
    {
        let mut s = self;
        s.insecure = insecure;
        s
    }

    /// Sets the signing scheme.
    pub fn scheme(self, scheme: SignedURLScheme) -> (r: Self)
        ensures
            r@ == (OptionsModel { scheme: scheme, ..self@ }),
    {
        let mut s = self;
        s.scheme = scheme;
        s
    }

    /// Sets a custom host.
    pub fn hostname(self, hostname: String) -> (r: Self)
        ensures
            r@ == (OptionsModel { hostname: Some(hostname@), ..self@ }),
    {
        let mut s = self;
        s.hostname = Some(hostname);
        s
    }

    /// Checks the options in a fixed order and stops at the first that fails: a zero
    /// expiry, an empty access identity, a content MD5 that is not base64 or not sixteen
    /// bytes, a V2 scheme with a style other than path style, an expiry over seven days.
    pub fn build(self) -> (r: Result<SignedURLOptions, SignedURLOptionsBuilderError>)
        ensures
            r matches Ok(o) ==> valid_options(self@) && o@ == self@,
            r matches Err(e) ==> e.fault() == first_fault(self@, decoded_checksum(self@))
                && e.fault() is Some,
    {
        let decoded = match &self.content_md5 {
            Some(md5) => Some(base64_decode(md5.as_str())),
            None => None,
        };
        self.build_with_checksum(decoded)
    }

    /// [`Self::build`] with the content MD5 already decoded: `decoded` is `None` where
    /// there is no content MD5, else the outcome of decoding it.
    pub fn build_with_checksum(self, decoded: Option<Result<Vec<u8>, base64::DecodeError>>) -> (r:
        Result<SignedURLOptions, SignedURLOptionsBuilderError>)
        requires
            decoded is Some <==> self@.content_md5 is Some,
        ensures
            r matches Ok(o) ==> first_fault(self@, checksum_of(decoded)) is None && o@ == self@,
            r matches Err(e) ==> e.fault() == first_fault(self@, checksum_of(decoded))
                && e.fault() is Some,
            first_fault(self@, checksum_of(decoded)) is None ==> r is Ok,
            decoded matches Some(Err(d)) ==> (first_fault(self@, checksum_of(decoded)) == Some(
                BuildFault::Base64DecodeError,
            ) ==> r == Err::<SignedURLOptions, _>(
                SignedURLOptionsBuilderError::Base64DecodeError(d),
            )),
    {
        if self.expires == 0 {
            return Err(SignedURLOptionsBuilderError::ExpiresZero);
        }
        if self.google_access_id.unicode_len() == 0 {
            return Err(SignedURLOptionsBuilderError::EmptyGoogleAccessId);
        }
        match decoded {
            Some(Err(e)) => {
                return Err(SignedURLOptionsBuilderError::Base64DecodeError(e));
            },
            Some(Ok(bytes)) => {
                if bytes.len() != MD5_HASH_SIZE {
                    return Err(SignedURLOptionsBuilderError::InvalidChecksum);
                }
            },
            None => {},
        }
        if self.scheme == SignedURLScheme::V2 && !matches!(self.style, URLStyle::Path) {
            return Err(SignedURLOptionsBuilderError::V2InvalidURLStyle);
        }
        if self.expires > ONE_WEEK {
            return Err(SignedURLOptionsBuilderError::InvalidExpirationDuration);
        }
        Ok(
            SignedURLOptions {
                google_access_id: self.google_access_id,
                start_time: self.start_time,
                method: self.method,
                expires: self.expires,
                content_type: self.content_type,
                headers: self.headers,
                query_parameters: self.query_parameters,
                content_md5: self.content_md5,
                style: self.style,
                insecure: self.insecure,
                scheme: self.scheme,
                hostname: self.hostname,
            },
        )
    }
}

/// What a decoding outcome says of the checksum: its bytes, or `None` where it failed.
pub open spec fn checksum_of(decoded: Option<Result<Vec<u8>, base64::DecodeError>>) -> Option<
    Option<Seq<u8>>,
> {
    match decoded {
        Some(Ok(b)) => Some(Some(b@)),
        Some(Err(_)) => Some(None),
        None => None,
    }
}

/// With every other option valid, a zero expiry fails as `ExpiresZero`, one over seven
/// days as `InvalidExpirationDuration`, and any other, seven days included, passes.
pub proof fn lemma_expiry_window(m: OptionsModel, expires: u64)
    requires
        valid_options(m),
    ensures
        ({
            let n = OptionsModel { expires, ..m };
            &&& expires == 0 ==> first_fault(n, decoded_checksum(n)) == Some(
                BuildFault::ExpiresZero,
            )
            &&& expires > ONE_WEEK ==> first_fault(n, decoded_checksum(n)) == Some(
                BuildFault::InvalidExpirationDuration,
            )
            &&& 0 < expires <= ONE_WEEK ==> valid_options(n)
        }),
{
}

/// With every other option valid, V2 fails as `V2InvalidURLStyle` with a virtual-hosted or
/// bucket-bound style and passes with path style.
pub proof fn lemma_v2_needs_path_style(m: OptionsModel, style: URLStyle)
    requires
        valid_options(m),
        m.scheme == SignedURLScheme::V2,
    ensures
        ({
            let n = OptionsModel { style, ..m };
            &&& !(style is Path) ==> first_fault(n, decoded_checksum(n)) == Some(
                BuildFault::V2InvalidURLStyle,
            )
            &&& style is Path ==> valid_options(n)
        }),
{
}

/// With every other option valid, a content MD5 that decodes to sixteen bytes passes and
/// one that decodes to any other number fails as `InvalidChecksum`.
pub proof fn lemma_checksum_length(m: OptionsModel, md5: Seq<char>, bytes: Seq<u8>)
    requires
        valid_options(m),
        base64_decoded(md5) == Some(bytes),
    ensures
        ({
            let n = OptionsModel { content_md5: Some(md5), ..m };
            &&& bytes.len() == MD5_HASH_SIZE ==> valid_options(n)
            &&& bytes.len() != MD5_HASH_SIZE ==> first_fault(n, decoded_checksum(n)) == Some(
                BuildFault::InvalidChecksum,
            )
        }),
{
}

} // verus!

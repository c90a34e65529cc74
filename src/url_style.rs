//! Where the bucket goes in a URL: in the path, in the host, or nowhere.
use vstd::prelude::*;
use vstd::string::*;
use crate::text::concat2;

verus! {

/// The host used when no custom host is given.
pub const DEFAULT_HOST: &'static str = "storage.googleapis.com";

/// How bucket and object map onto host and path.
#[derive(Debug, Clone)]
pub enum URLStyle {
    /// `host/bucket/object`.
    Path,
    /// `bucket.host/object`.
    VirtualHosted,
    /// A host bound to the bucket: `hostname/object`.
    BucketBoundHostname { hostname: String },
}

impl Default for URLStyle {
    fn default() -> (r: Self)
        ensures
            r is Path,
    {
        URLStyle::Path
    }
}

/// The characters of an optional string.
pub open spec fn opt_view(o: Option<&str>) -> Option<Seq<char>> {
    match o {
        Some(s) => Some(s@),
        None => None,
    }
}

/// The first position at or after `from` where `://` starts.
pub open spec fn find_scheme_sep(s: Seq<char>, from: int) -> Option<int>
    decreases s.len() - from,
{
    if from < 0 || from + 3 > s.len() {
        None
    } else if s[from] == ':' && s[from + 1] == '/' && s[from + 2] == '/' {
        Some(from)
    } else {
        find_scheme_sep(s, from + 1)
    }
}

/// `s` without whatever precedes its first `://`, and that separator.
pub open spec fn strip_scheme_spec(s: Seq<char>) -> Seq<char> {
    match find_scheme_sep(s, 0) {
        Some(i) => s.skip(i + 3),
        None => s,
    }
}

/// The custom host with its scheme stripped, where one is given and not empty.
pub open spec fn custom_host(custom: Option<Seq<char>>) -> Option<Seq<char>> {
    match custom {
        Some(h) => if h.len() > 0 {
            Some(strip_scheme_spec(h))
        } else {
            None
        },
        None => None,
    }
}

/// Drops a leading `<scheme>://` from a host.
pub fn strip_scheme(host: &str) -> (r: &str)
    ensures
        r@ == strip_scheme_spec(host@),
{
    let n = host.unicode_len();
    let mut i: usize = 0;
    while n >= 3 && i <= n - 3
        invariant
            n == host@.len(),
            find_scheme_sep(host@, 0) == find_scheme_sep(host@, i as int),
        decreases n - i,
    {
        if host.get_char(i) == ':' && host.get_char(i + 1) == '/' && host.get_char(i + 2) == '/' {
            return host.substring_char(i + 3, n);
        }
        i = i + 1;
    }
    host
}

impl URLStyle {
    /// The host a URL of this style names.
    pub open spec fn host_spec(&self, custom: Option<Seq<char>>, bucket: Seq<char>) -> Seq<char> {
        match self {
            URLStyle::Path => match custom_host(custom) {
                Some(h) => h,
                None => DEFAULT_HOST@,
            },
            URLStyle::VirtualHosted => bucket + seq!['.'] + match custom_host(custom) {
                Some(h) => h,
                None => DEFAULT_HOST@,
            },
            URLStyle::BucketBoundHostname { hostname } => hostname@,
        }
    }

    /// The path, without its leading `/`, that a URL of this style names.
    pub open spec fn path_spec(&self, bucket: Seq<char>, object: Seq<char>) -> Seq<char> {
        match self {
            URLStyle::Path => if object.len() == 0 {
                bucket
            } else {
                bucket + seq!['/'] + object
            },
            _ => object,
        }
    }

    /// The host for `bucket`, with `hostname` as an optional custom host.
    pub fn host(&self, hostname: Option<&str>, bucket: &str) -> (r: String)
        ensures
            r@ == self.host_spec(opt_view(hostname), bucket@),
    {
        match self {
            URLStyle::Path => {
                if let Some(custom) = hostname {
                    if custom.unicode_len() > 0 {
                        return String::from_str(strip_scheme(custom));
                    }
                }
                String::from_str(DEFAULT_HOST)
            },
            URLStyle::VirtualHosted => {
                let with_dot = concat2(bucket, ".");
                proof {
                    reveal_strlit(".");
                }
                if let Some(custom) = hostname {
                    if custom.unicode_len() > 0 {
                        return concat2(with_dot.as_str(), strip_scheme(custom));
                    }
                }
                concat2(with_dot.as_str(), DEFAULT_HOST)
            },
            URLStyle::BucketBoundHostname { hostname } => hostname.clone(),
        }
    }

    /// The path, without its leading `/`, for `object` in `bucket`.
    pub fn path(&self, bucket: &str, object: &str) -> (r: String)
        ensures
            r@ == self.path_spec(bucket@, object@),
    {
        match self {
            URLStyle::Path => {
                if object.unicode_len() == 0 {
                    return String::from_str(bucket);
                }
                let with_slash = concat2(bucket, "/");
                proof {
                    reveal_strlit("/");
                }
                concat2(with_slash.as_str(), object)
            },
            _ => String::from_str(object),
        }
    }
}

} // verus!

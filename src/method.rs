//! The HTTP method a signed URL authorises.
use vstd::prelude::*;
use vstd::string::*;

verus! {

/// The HTTP method that a signed URL authorises.
#[derive(Debug, Clone, Copy, PartialEq, Eq, Structural)]
pub enum SignedURLMethod {
    Get,
    Delete,
    Head,
    Put,
    Post,
}

impl SignedURLMethod {
    /// The method's name as it appears on the wire.
    pub open spec fn name(self) -> Seq<char> {
        match self {
            SignedURLMethod::Get => "GET"@,
            SignedURLMethod::Delete => "DELETE"@,
            SignedURLMethod::Head => "HEAD"@,
            SignedURLMethod::Put => "PUT"@,
            SignedURLMethod::Post => "POST"@,
        }
    }

    /// The method's name as it appears on the wire.
    pub fn to_string(&self) -> (r: String)
        ensures
            r@ == self.name(),
    {
        match self {
            SignedURLMethod::Get => String::from_str("GET"),
            SignedURLMethod::Delete => String::from_str("DELETE"),
            SignedURLMethod::Head => String::from_str("HEAD"),
            SignedURLMethod::Put => String::from_str("PUT"),
            SignedURLMethod::Post => String::from_str("POST"),
        }
    }
}

impl Default for SignedURLMethod {
    fn default() -> (r: Self)
        ensures
            r == SignedURLMethod::Get,
    {
        SignedURLMethod::Get
    }
}

} // verus!

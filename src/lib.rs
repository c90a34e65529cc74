//! Pre-signed URLs for Cloud Storage objects, in the V2 and V4 signing schemes.
pub mod buffer;
pub mod codec;
pub mod error;
pub mod method;
pub mod options;
pub mod ordering;
pub mod scheme;
pub mod text;
pub mod timestamp;
pub mod url_style;

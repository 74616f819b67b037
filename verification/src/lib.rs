//! Parser for the value of the HTTP `Content-Encoding` header field: the layers of encoding
//! that were applied to a message body, as RFC 7231 section 3.1.2.2 lists them.
//!
//! Standard encodings are handed out as enum values, unknown ones as slices of the header
//! value. Nothing is copied and nothing is allocated.
//!
//! ```rust
//! use uhttp_content_encoding::{content_encodings, ContentEncoding, StdContentEncoding};
//!
//! let mut encs = content_encodings(" gzip, identity, custom-enc");
//! assert_eq!(encs.next(), Some(ContentEncoding::Other("custom-enc")));
//! assert_eq!(encs.next(), Some(ContentEncoding::Std(StdContentEncoding::Identity)));
//! assert_eq!(encs.next(), Some(ContentEncoding::Std(StdContentEncoding::Gzip)));
//! assert_eq!(encs.next(), None);
//! ```

pub mod chars;
pub mod encoding;
pub mod fields;
pub mod layers;

pub use encoding::{ContentEncoding, ContentEncodingView, StdContentEncoding};
pub use layers::{content_encodings, ContentEncodings};

//! A verified decoder for a length-prefixed streaming container of
//! geospatial features.  A container opens with a fixed 8-byte header and
//! carries framed blocks up to a zero-length sentinel; each block's payload
//! is a nested message of feature records, each with well-known-binary
//! geometry bytes and typed key/value tags.  The framing, the nested
//! message, the tag typing rules, the geometry structure check and the lazy
//! feature iterator are all specified and proved here; only lossy UTF-8
//! text decoding is taken on trust from the standard library.

pub mod framing;
pub mod geometry;
pub mod iter;
pub mod stream;
pub mod translate;
pub mod values;
pub mod wire;

pub use crate::framing::read_block;
pub use crate::framing::read_file_header;
pub use crate::iter::FeatureIterator;
pub use crate::stream::ByteStream;
pub use crate::translate::read_body;
pub use crate::translate::Feature;
pub use crate::values::Value;
pub use crate::values::ValueType;

use vstd::prelude::*;

verus! {

/// The two failure kinds of the decoder: a short or failed read of the
/// underlying bytes, and a violation of the container format itself.
#[derive(Clone, Copy, Debug, PartialEq, Eq, Structural)]
pub enum Error {
    Io,
    Format,
}

} // verus!

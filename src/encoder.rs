//! The `Encoder` capability: values that can be URL-encoded and decoded into
//! a result of type `T`.
use vstd::prelude::*;

verus! {

/// A type whose values can be URL-encoded and URL-decoded, giving a `T`.
pub trait Encoder<T = String> {
    /// Encodes the value using URL encoding.
    fn url_encode(&self) -> T;

    /// Decodes the value from URL encoding.
    fn url_decode(&self) -> T;
}

} // verus!

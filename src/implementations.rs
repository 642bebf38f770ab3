//! `Encoder` for strings and vectors of strings, by way of `encode` and
//! `decode`.
use vstd::prelude::*;

use crate::encoder::Encoder;
use crate::{decode, decoded_text, encode, encoded_text};

verus! {

impl Encoder for String {
    fn url_encode(&self) -> (r: String)
        ensures
            r@ == encoded_text(self@),
    {
        encode(self.as_str())
    }

    fn url_decode(&self) -> (r: String)
        ensures
            r@ == decoded_text(self@),
    {
        decode(self.as_str())
    }
}

impl Encoder for &str {
    fn url_encode(&self) -> (r: String)
        ensures
            r@ == encoded_text((*self)@),
    {
        encode(*self)
    }

    fn url_decode(&self) -> (r: String)
        ensures
            r@ == decoded_text((*self)@),
    {
        decode(*self)
    }
}

impl Encoder<Vec<String>> for Vec<String> {
    /// Encodes each string, keeping their order.
    fn url_encode(&self) -> (r: Vec<String>)
        ensures
            r@.len() == self@.len(),
            forall|i: int| 0 <= i < self@.len() ==> #[trigger] r@[i]@ == encoded_text(self@[i]@),
    {
        let mut out: Vec<String> = Vec::new();
        let mut i: usize = 0;
        while i < self.len()
            invariant
                0 <= i <= self@.len(),
                out@.len() == i,
                forall|j: int| 0 <= j < i ==> #[trigger] out@[j]@ == encoded_text(self@[j]@),
            decreases self@.len() - i,
        {
            out.push(encode(self[i].as_str()));
            i += 1;
        }
        out
    }

    /// Decodes each string, keeping their order.
    fn url_decode(&self) -> (r: Vec<String>)
        ensures
            r@.len() == self@.len(),
            forall|i: int| 0 <= i < self@.len() ==> #[trigger] r@[i]@ == decoded_text(self@[i]@),
    {
        let mut out: Vec<String> = Vec::new();
        let mut i: usize = 0;
        while i < self.len()
            invariant
                0 <= i <= self@.len(),
                out@.len() == i,
                forall|j: int| 0 <= j < i ==> #[trigger] out@[j]@ == decoded_text(self@[j]@),
            decreases self@.len() - i,
        {
            out.push(decode(self[i].as_str()));
            i += 1;
        }
        out
    }
}

} // verus!

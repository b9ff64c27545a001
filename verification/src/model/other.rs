//! Bytes that no decoder of this library claims.

use vstd::prelude::*;

verus! {

/// A payload kept as raw bytes, because nothing here decodes it.
pub struct Other {
    pub other: Vec<u8>,
}

impl Other {
    /// `self` holds exactly `bytes`.
    pub open spec fn parsed_from(&self, bytes: Seq<u8>) -> bool {
        self.other@ == bytes
    }

    /// Keeps a copy of all of `bytes`.
    pub fn parse(bytes: &[u8]) -> (o: Other)
        ensures
            o.parsed_from(bytes@),
    {
        Other { other: vstd::slice::slice_to_vec(bytes) }
    }
}

} // verus!

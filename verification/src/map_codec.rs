use crate::data_result::{DataResult, DataSpec};
use vstd::prelude::*;

verus! {

/// Encodes values of `Self::Value` as entries of a map: into a struct builder
/// `B`, and out of a map-like input `M`.
pub trait MapCodec<M, B> {
    type Value;

    /// The keys that this codec reads and writes.
    spec fn spec_keys(&self) -> Seq<String>;

    fn keys(&self) -> (r: Vec<String>)
        ensures
            r@ == self.spec_keys(),
    ;

    /// The builder after the entries of `input` were added to `prefix`.
    spec fn spec_encode(&self, input: Self::Value, prefix: B) -> B;

    fn encode(&self, input: &Self::Value, prefix: B) -> (r: B)
        ensures
            r == self.spec_encode(*input, prefix),
    ;

    /// What decoding the entries of `input` gives.
    spec fn spec_decode(&self, input: M) -> DataSpec<Self::Value>;

    fn decode(&self, input: &M) -> (r: DataResult<Self::Value>)
        ensures
            r@ == self.spec_decode(*input),
    ;
}

} // verus!

use crate::data_result::{DataResult, DataSpec};
use vstd::prelude::*;

verus! {

/// Encodes values of `Self::Value` into the dynamic representation `T`, and
/// decodes them back, each step described by a spec function.
pub trait Codec<T> {
    type Value;

    /// What encoding `input` onto `prefix` gives.
    spec fn spec_encode(&self, input: Self::Value, prefix: T) -> DataSpec<T>;

    fn encode(&self, input: &Self::Value, prefix: T) -> (r: DataResult<T>)
        ensures
            r@ == self.spec_encode(*input, prefix),
    ;

    /// What decoding `input` gives: the value and what is left of the input.
    spec fn spec_decode(&self, input: T) -> DataSpec<(Self::Value, T)>;

    fn decode(&self, input: &T) -> (r: DataResult<(Self::Value, T)>)
        ensures
            r@ == self.spec_decode(*input),
    ;
}

} // verus!

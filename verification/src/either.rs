use vstd::prelude::*;

verus! {

/// A value of one of two types.
#[derive(Debug, PartialEq, Eq)]
pub enum Either<L, R> {
    Left(L),
    Right(R),
}

} // verus!

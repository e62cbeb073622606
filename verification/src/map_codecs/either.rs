use crate::data_result::{DataResult, DataSpec, apply_2_keep_second, spec_apply_2, spec_map};
use crate::either::Either;
use crate::map_codec::MapCodec;
use vstd::prelude::*;

verus! {

/// A [`MapCodec`] that can serialize/deserialize one of two types, with a map
/// codec for each one.
///
/// This evaluates the left map codec first, and if the [`DataResult`] for it is
/// invalid, it evaluates the right map codec.
pub struct EitherMapCodec<L: 'static, R: 'static> {
    left_codec: &'static L,
    right_codec: &'static R,
}

impl<L, R> EitherMapCodec<L, R> {
    /// The map codec for left values.
    pub closed spec fn left(&self) -> L {
        *self.left_codec
    }

    /// The map codec for right values.
    pub closed spec fn right(&self) -> R {
        *self.right_codec
    }
}

/// Decoding with the left map codec first: its success, else the right map
/// codec's success, else both results joined, where a partial result is the
/// right one's and only where both hold one.
pub open spec fn either_map_decode<A, B>(left: DataSpec<A>, right: DataSpec<B>) -> DataSpec<
    Either<A, B>,
> {
    let l = spec_map(left, |a: A| Either::<A, B>::Left(a));
    let r = spec_map(right, |b: B| Either::<A, B>::Right(b));
    if l.is_success() {
        l
    } else if r.is_success() {
        r
    } else {
        spec_apply_2(l, r, |x: Either<A, B>, y: Either<A, B>| y)
    }
}

/// Decoding with the either map codec: a left success is that value tagged
/// left; otherwise a right success is that value tagged right; otherwise an
/// error with both messages joined by "; ", the sum of both lifecycles, and
/// the right partial result tagged right only where both sides hold a partial
/// result. So the decode succeeds exactly when one side does.
pub proof fn lemma_either_map_decode<A, B>(left: DataSpec<A>, right: DataSpec<B>)
    ensures
        either_map_decode(left, right).is_success() <==> (left.is_success()
            || right.is_success()),
        left is Success ==> either_map_decode(left, right) == (DataSpec::Success {
            result: Either::<A, B>::Left(left->Success_result),
            lifecycle: left->Success_lifecycle,
        }),
        !(left is Success) && right is Success ==> either_map_decode(left, right) == (
        DataSpec::Success {
            result: Either::<A, B>::Right(right->Success_result),
            lifecycle: right->Success_lifecycle,
        }),
        left is Error && right is Error ==> either_map_decode(left, right) == (DataSpec::Error {
            partial_result: if left->Error_partial_result is Some
                && right->Error_partial_result is Some {
                Some(Either::<A, B>::Right(right->Error_partial_result->Some_0))
            } else {
                None
            },
            message: left->Error_message + "; "@ + right->Error_message,
            lifecycle: left->Error_lifecycle.spec_add(right->Error_lifecycle),
        }),
{
}

/// The keys of the either map codec are the left codec's keys, in order,
/// followed by the right codec's.
pub proof fn lemma_either_map_keys<M, B, L: MapCodec<M, B>, R: MapCodec<M, B>>(
    codec: EitherMapCodec<L, R>,
)
    ensures
        codec.spec_keys().len() == codec.left().spec_keys().len() + codec.right().spec_keys().len(),
        codec.spec_keys().take(codec.left().spec_keys().len() as int) == codec.left().spec_keys(),
        codec.spec_keys().skip(codec.left().spec_keys().len() as int) == codec.right().spec_keys(),
{
    assert(codec.spec_keys().take(codec.left().spec_keys().len() as int) =~= codec.left().spec_keys());
    assert(codec.spec_keys().skip(codec.left().spec_keys().len() as int) =~= codec.right().spec_keys());
}

fn wrap_left<A, B>(r: DataResult<A>) -> (o: DataResult<Either<A, B>>)
    ensures
        o@ == spec_map(r@, |a: A| Either::<A, B>::Left(a)),
{
    match r {
        DataResult::Success { result, lifecycle } => DataResult::Success {
            result: Either::Left(result),
            lifecycle,
        },
        DataResult::Error { partial_result, message, lifecycle } => DataResult::Error {
            partial_result: match partial_result {
                Some(a) => Some(Either::Left(a)),
                None => None,
            },
            message,
            lifecycle,
        },
    }
}

fn wrap_right<A, B>(r: DataResult<B>) -> (o: DataResult<Either<A, B>>)
    ensures
        o@ == spec_map(r@, |b: B| Either::<A, B>::Right(b)),
{
    match r {
        DataResult::Success { result, lifecycle } => DataResult::Success {
            result: Either::Right(result),
            lifecycle,
        },
        DataResult::Error { partial_result, message, lifecycle } => DataResult::Error {
            partial_result: match partial_result {
                Some(b) => Some(Either::Right(b)),
                None => None,
            },
            message,
            lifecycle,
        },
    }
}

impl<M, B, L: MapCodec<M, B>, R: MapCodec<M, B>> MapCodec<M, B> for EitherMapCodec<L, R> {
    type Value = Either<L::Value, R::Value>;

    open spec fn spec_keys(&self) -> Seq<String> {
        self.left().spec_keys() + self.right().spec_keys()
    }

    fn keys(&self) -> (r: Vec<String>) {
        let mut keys = self.left_codec.keys();
        let mut right_keys = self.right_codec.keys();
        keys.append(&mut right_keys);
        keys
    }

    open spec fn spec_encode(&self, input: Self::Value, prefix: B) -> B {
        match input {
            Either::Left(l) => self.left().spec_encode(l, prefix),
            Either::Right(r) => self.right().spec_encode(r, prefix),
        }
    }

    fn encode(&self, input: &Self::Value, prefix: B) -> (r: B) {
        match input {
            Either::Left(l) => self.left_codec.encode(l, prefix),
            Either::Right(r) => self.right_codec.encode(r, prefix),
        }
    }

    open spec fn spec_decode(&self, input: M) -> DataSpec<Self::Value> {
        either_map_decode(self.left().spec_decode(input), self.right().spec_decode(input))
    }

    fn decode(&self, input: &M) -> (r: DataResult<Self::Value>) {
        let left = wrap_left::<L::Value, R::Value>(self.left_codec.decode(input));
        if left.is_success() {
            return left;
        }
        let right = wrap_right::<L::Value, R::Value>(self.right_codec.decode(input));
        if right.is_success() {
            return right;
        }
        apply_2_keep_second(left, right)
    }
}

/// Creates a new `EitherMapCodec` with the provided left and right codecs for
/// serializing/deserializing both possible types.
pub fn new_either_map_codec<L, R>(left_codec: &'static L, right_codec: &'static R) -> (c:
    EitherMapCodec<L, R>)
    ensures
        c.left() == *left_codec,
        c.right() == *right_codec,
{
    EitherMapCodec { left_codec, right_codec }
}

} // verus!

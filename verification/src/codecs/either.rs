use crate::codec::Codec;
use crate::data_result::{DataResult, DataSpec, spec_map};
use crate::either::Either;
use vstd::prelude::*;
use vstd::string::StringExecFns;

verus! {

/// A codec that can serialize/deserialize one of two types, with a codec for
/// each one.
///
/// This evaluates the left codec first, and if the [`DataResult`] for it is
/// invalid, it evaluates the right codec.
pub struct EitherCodec<L: 'static, R: 'static> {
    left_codec: &'static L,
    right_codec: &'static R,
}

impl<L, R> EitherCodec<L, R> {
    /// The codec for left values.
    pub closed spec fn left(&self) -> L {
        *self.left_codec
    }

    /// The codec for right values.
    pub closed spec fn right(&self) -> R {
        *self.right_codec
    }
}

/// Tags a decoded value as a left value.
pub open spec fn tag_left<A, B, T>(r: DataSpec<(A, T)>) -> DataSpec<(Either<A, B>, T)> {
    spec_map(r, |p: (A, T)| (Either::<A, B>::Left(p.0), p.1))
}

/// Tags a decoded value as a right value.
pub open spec fn tag_right<A, B, T>(r: DataSpec<(B, T)>) -> DataSpec<(Either<A, B>, T)> {
    spec_map(r, |p: (B, T)| (Either::<A, B>::Right(p.0), p.1))
}

/// The message of a decoding that neither codec could complete.
pub open spec fn either_failure_message(first: Seq<char>, second: Seq<char>) -> Seq<char> {
    "Failed to parse either. First: "@ + first + "; Second: "@ + second
}

/// Decoding with the left codec first: its success, else the right codec's
/// success, else whichever of the two (left first) holds a partial result,
/// else an error that quotes both messages.
pub open spec fn either_decode<A, B, T>(
    left: DataSpec<(A, T)>,
    right: DataSpec<(B, T)>,
) -> DataSpec<(Either<A, B>, T)> {
    let l = tag_left::<A, B, T>(left);
    let r = tag_right::<A, B, T>(right);
    if l.is_success() {
        l
    } else if r.is_success() {
        r
    } else if l.has_result_or_partial() {
        l
    } else if r.has_result_or_partial() {
        r
    } else {
        DataSpec::Error {
            partial_result: None,
            message: either_failure_message(l.message().unwrap(), r.message().unwrap()),
            lifecycle: crate::data_result::Lifecycle::Experimental,
        }
    }
}

fn tag_left_exec<A, B, T>(r: DataResult<(A, T)>) -> (o: DataResult<(Either<A, B>, T)>)
    ensures
        o@ == tag_left::<A, B, T>(r@),
{
    match r {
        DataResult::Success { result, lifecycle } => DataResult::Success {
            result: (Either::Left(result.0), result.1),
            lifecycle,
        },
        DataResult::Error { partial_result, message, lifecycle } => DataResult::Error {
            partial_result: match partial_result {
                Some(p) => Some((Either::Left(p.0), p.1)),
                None => None,
            },
            message,
            lifecycle,
        },
    }
}

fn tag_right_exec<A, B, T>(r: DataResult<(B, T)>) -> (o: DataResult<(Either<A, B>, T)>)
    ensures
        o@ == tag_right::<A, B, T>(r@),
{
    match r {
        DataResult::Success { result, lifecycle } => DataResult::Success {
            result: (Either::Right(result.0), result.1),
            lifecycle,
        },
        DataResult::Error { partial_result, message, lifecycle } => DataResult::Error {
            partial_result: match partial_result {
                Some(p) => Some((Either::Right(p.0), p.1)),
                None => None,
            },
            message,
            lifecycle,
        },
    }
}

impl<T, L: Codec<T>, R: Codec<T>> Codec<T> for EitherCodec<L, R> {
    type Value = Either<L::Value, R::Value>;

    open spec fn spec_encode(&self, input: Self::Value, prefix: T) -> DataSpec<T> {
        match input {
            Either::Left(l) => self.left().spec_encode(l, prefix),
            Either::Right(r) => self.right().spec_encode(r, prefix),
        }
    }

    fn encode(&self, input: &Self::Value, prefix: T) -> (r: DataResult<T>) {
        match input {
            Either::Left(l) => self.left_codec.encode(l, prefix),
            Either::Right(r) => self.right_codec.encode(r, prefix),
        }
    }

    open spec fn spec_decode(&self, input: T) -> DataSpec<(Self::Value, T)> {
        either_decode(self.left().spec_decode(input), self.right().spec_decode(input))
    }

    fn decode(&self, input: &T) -> (r: DataResult<(Self::Value, T)>) {
        let left = tag_left_exec::<L::Value, R::Value, T>(self.left_codec.decode(input));
        // If the left result is a success, return that.
        if left.is_success() {
            return left;
        }
        let right = tag_right_exec::<L::Value, R::Value, T>(self.right_codec.decode(input));
        // If the right result is a success, return that.
        if right.is_success() {
            return right;
        }
        // Since no result is a complete success by this point, we look for partial results.
        if left.has_result_or_partial() {
            return left;
        }
        if right.has_result_or_partial() {
            return right;
        }
        match (&left, &right) {
            (
                DataResult::Error { message: first, .. },
                DataResult::Error { message: second, .. },
            ) => {
                let mut message = String::from_str("Failed to parse either. First: ");
                message.append(first.as_str());
                message.append("; Second: ");
                message.append(second.as_str());
                DataResult::new_error(message)
            },
            _ => left,
        }
    }
}

/// Creates a new `EitherCodec` with the provided left and right codecs for
/// serializing/deserializing both possible types.
pub fn new_either_codec<L, R>(left_codec: &'static L, right_codec: &'static R) -> (c: EitherCodec<
    L,
    R,
>)
    ensures
        c.left() == *left_codec,
        c.right() == *right_codec,
{
    EitherCodec { left_codec, right_codec }
}

/// Decoding with the either codec: a left success is that value tagged left;
/// otherwise a right success is that value tagged right; otherwise a left
/// partial result (with the left message) is tagged left, else a right
/// partial result (with the right message) is tagged right; otherwise the
/// error quotes both messages. So the decode succeeds exactly when one side
/// does, and has a result or partial exactly when one side has.
pub proof fn lemma_either_decode<A, B, T>(left: DataSpec<(A, T)>, right: DataSpec<(B, T)>)
    ensures
        either_decode(left, right).is_success() <==> (left.is_success() || right.is_success()),
        either_decode(left, right).has_result_or_partial() <==> (left.has_result_or_partial()
            || right.has_result_or_partial()),
        left is Success ==> either_decode(left, right) == (DataSpec::Success {
            result: (Either::<A, B>::Left(left->Success_result.0), left->Success_result.1),
            lifecycle: left->Success_lifecycle,
        }),
        !(left is Success) && right is Success ==> either_decode(left, right) == (
        DataSpec::Success {
            result: (Either::<A, B>::Right(right->Success_result.0), right->Success_result.1),
            lifecycle: right->Success_lifecycle,
        }),
        left is Error && left->Error_partial_result is Some && !(right is Success)
            ==> either_decode(left, right) == (DataSpec::Error {
            partial_result: Some(
                (
                    Either::<A, B>::Left(left->Error_partial_result->Some_0.0),
                    left->Error_partial_result->Some_0.1,
                ),
            ),
            message: left->Error_message,
            lifecycle: left->Error_lifecycle,
        }),
        left is Error && left->Error_partial_result is None && right is Error
            && right->Error_partial_result is Some ==> either_decode(left, right) == (
        DataSpec::Error {
            partial_result: Some(
                (
                    Either::<A, B>::Right(right->Error_partial_result->Some_0.0),
                    right->Error_partial_result->Some_0.1,
                ),
            ),
            message: right->Error_message,
            lifecycle: right->Error_lifecycle,
        }),
        left is Error && left->Error_partial_result is None && right is Error
            && right->Error_partial_result is None ==> either_decode(left, right) == (DataSpec::<
            (Either<A, B>, T),
        >::Error {
            partial_result: None,
            message: "Failed to parse either. First: "@ + left->Error_message + "; Second: "@
                + right->Error_message,
            lifecycle: crate::data_result::Lifecycle::Experimental,
        }),
{
}

/// A left value that the left codec encodes and decodes back is encoded the
/// same way by the either codec and decoded back as a left value.
pub proof fn lemma_left_round_trip<T, L: Codec<T>, R: Codec<T>>(
    codec: EitherCodec<L, R>,
    value: L::Value,
    prefix: T,
    encoded: T,
    rest: T,
)
    requires
        codec.left().spec_encode(value, prefix) is Success,
        codec.left().spec_encode(value, prefix)->Success_result == encoded,
        codec.left().spec_decode(encoded) is Success,
        codec.left().spec_decode(encoded)->Success_result == (value, rest),
    ensures
        codec.spec_encode(Either::Left(value), prefix) == codec.left().spec_encode(value, prefix),
        codec.spec_decode(encoded) is Success,
        codec.spec_decode(encoded)->Success_result == (Either::<L::Value, R::Value>::Left(value), rest),
{
}

/// A right value that the right codec encodes and decodes back is decoded back
/// as a right value by the either codec, unless the left codec succeeds on
/// that encoding first.
pub proof fn lemma_right_round_trip<T, L: Codec<T>, R: Codec<T>>(
    codec: EitherCodec<L, R>,
    value: R::Value,
    prefix: T,
    encoded: T,
    rest: T,
)
    requires
        codec.right().spec_encode(value, prefix) is Success,
        codec.right().spec_encode(value, prefix)->Success_result == encoded,
        codec.right().spec_decode(encoded) is Success,
        codec.right().spec_decode(encoded)->Success_result == (value, rest),
        !(codec.left().spec_decode(encoded) is Success),
    ensures
        codec.spec_encode(Either::Right(value), prefix) == codec.right().spec_encode(value, prefix),
        codec.spec_decode(encoded) is Success,
        codec.spec_decode(encoded)->Success_result == (Either::<L::Value, R::Value>::Right(value), rest),
{
}

/// When neither codec yields a complete or partial result, decoding fails
/// with a message that starts with "Failed to parse either." and carries both
/// codecs' messages.
pub proof fn lemma_both_fail<T, L: Codec<T>, R: Codec<T>>(codec: EitherCodec<L, R>, input: T)
    requires
        !codec.left().spec_decode(input).has_result_or_partial(),
        !codec.right().spec_decode(input).has_result_or_partial(),
    ensures
        codec.spec_decode(input) is Error,
        codec.spec_decode(input)->Error_partial_result is None,
        codec.spec_decode(input)->Error_message == either_failure_message(
            codec.left().spec_decode(input).message().unwrap(),
            codec.right().spec_decode(input).message().unwrap(),
        ),
        codec.spec_decode(input)->Error_message.take(23) == "Failed to parse either."@,
{
    reveal_strlit("Failed to parse either. First: ");
    reveal_strlit("Failed to parse either.");
    let l = tag_left::<L::Value, R::Value, T>(codec.left().spec_decode(input));
    let r = tag_right::<L::Value, R::Value, T>(codec.right().spec_decode(input));
    let m = either_failure_message(l.message().unwrap(), r.message().unwrap());
    assert(m.take(23) =~= "Failed to parse either."@);
}

} // verus!

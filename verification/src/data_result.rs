use vstd::prelude::*;
use vstd::string::StringExecFns;

verus! {

/// How stable a decoded or encoded value is.
#[derive(Debug, Clone, Copy, PartialEq, Eq, Structural)]
pub enum Lifecycle {
    Stable,
    Experimental,
    Deprecated { since: i32 },
}

impl Lifecycle {
    /// The lifecycle of a value built from two values with these lifecycles.
    pub open spec fn spec_add(self, other: Lifecycle) -> Lifecycle {
        if self is Experimental || other is Experimental {
            Lifecycle::Experimental
        } else if self is Deprecated {
            if other is Deprecated && other->since < self->since {
                other
            } else {
                self
            }
        } else if other is Deprecated {
            other
        } else {
            Lifecycle::Stable
        }
    }

    /// Combines two lifecycles: experimental wins, then the oldest deprecation.
    pub fn add(self, other: Lifecycle) -> (r: Lifecycle)
        ensures
            r == self.spec_add(other),
    {
        match (self, other) {
            (Lifecycle::Experimental, _) => Lifecycle::Experimental,
            (_, Lifecycle::Experimental) => Lifecycle::Experimental,
            (Lifecycle::Deprecated { since: a }, Lifecycle::Deprecated { since: b }) => {
                if b < a {
                    other
                } else {
                    self
                }
            },
            (Lifecycle::Deprecated { .. }, _) => self,
            (_, Lifecycle::Deprecated { .. }) => other,
            _ => Lifecycle::Stable,
        }
    }
}

/// The outcome of an encoding or decoding step: a result, or an error message
/// with possibly a partial result.
pub enum DataResult<R> {
    Success { result: R, lifecycle: Lifecycle },
    Error { partial_result: Option<R>, message: String, lifecycle: Lifecycle },
}

/// What a [`DataResult`] holds, with the message as a sequence of characters.
pub ghost enum DataSpec<R> {
    Success { result: R, lifecycle: Lifecycle },
    Error { partial_result: Option<R>, message: Seq<char>, lifecycle: Lifecycle },
}

impl<R> View for DataResult<R> {
    type V = DataSpec<R>;

    open spec fn view(&self) -> DataSpec<R> {
        match self {
            DataResult::Success { result, lifecycle } => DataSpec::Success {
                result: *result,
                lifecycle: *lifecycle,
            },
            DataResult::Error { partial_result, message, lifecycle } => DataSpec::Error {
                partial_result: *partial_result,
                message: message@,
                lifecycle: *lifecycle,
            },
        }
    }
}

impl<R> DataSpec<R> {
    /// A complete result is present.
    pub open spec fn is_success(self) -> bool {
        self is Success
    }

    /// A complete or a partial result is present.
    pub open spec fn has_result_or_partial(self) -> bool {
        match self {
            DataSpec::Success { .. } => true,
            DataSpec::Error { partial_result, .. } => partial_result is Some,
        }
    }

    /// The error message, if this is an error.
    pub open spec fn message(self) -> Option<Seq<char>> {
        match self {
            DataSpec::Success { .. } => None,
            DataSpec::Error { message, .. } => Some(message),
        }
    }

    pub open spec fn lifecycle(self) -> Lifecycle {
        match self {
            DataSpec::Success { lifecycle, .. } => lifecycle,
            DataSpec::Error { lifecycle, .. } => lifecycle,
        }
    }
}

/// The message of a result that joins two errors.
pub open spec fn append_messages(first: Seq<char>, second: Seq<char>) -> Seq<char> {
    first + "; "@ + second
}

/// Combines two results with `f`: the combined value where both are present,
/// the messages of every error, and the sum of the lifecycles.
pub open spec fn spec_apply_2<A, B, C>(
    first: DataSpec<A>,
    second: DataSpec<B>,
    f: spec_fn(A, B) -> C,
) -> DataSpec<C> {
    let lifecycle = first.lifecycle().spec_add(second.lifecycle());
    match (first, second) {
        (DataSpec::Success { result: a, .. }, DataSpec::Success { result: b, .. }) => {
            DataSpec::Success { result: f(a, b), lifecycle }
        },
        (DataSpec::Success { result: a, .. }, DataSpec::Error { partial_result, message, .. }) => {
            DataSpec::Error {
                partial_result: match partial_result {
                    Some(b) => Some(f(a, b)),
                    None => None,
                },
                message,
                lifecycle,
            }
        },
        (DataSpec::Error { partial_result, message, .. }, DataSpec::Success { result: b, .. }) => {
            DataSpec::Error {
                partial_result: match partial_result {
                    Some(a) => Some(f(a, b)),
                    None => None,
                },
                message,
                lifecycle,
            }
        },
        (
            DataSpec::Error { partial_result: pa, message: ma, .. },
            DataSpec::Error { partial_result: pb, message: mb, .. },
        ) => {
            DataSpec::Error {
                partial_result: match (pa, pb) {
                    (Some(a), Some(b)) => Some(f(a, b)),
                    _ => None,
                },
                message: append_messages(ma, mb),
                lifecycle,
            }
        },
    }
}

impl<R> DataResult<R> {
    /// A successful result with a stable lifecycle.
    pub fn success(result: R) -> (r: DataResult<R>)
        ensures
            r@ == (DataSpec::Success { result, lifecycle: Lifecycle::Stable }),
    {
        DataResult::Success { result, lifecycle: Lifecycle::Stable }
    }

    /// An error with no partial result and an experimental lifecycle.
    pub fn new_error(message: String) -> (r: DataResult<R>)
        ensures
            r@ == (DataSpec::<R>::Error {
                partial_result: None,
                message: message@,
                lifecycle: Lifecycle::Experimental,
            }),
    {
        DataResult::Error { partial_result: None, message, lifecycle: Lifecycle::Experimental }
    }

    /// An error that keeps a partial result.
    pub fn new_partial_error(message: String, partial: R) -> (r: DataResult<R>)
        ensures
            r@ == (DataSpec::Error {
                partial_result: Some(partial),
                message: message@,
                lifecycle: Lifecycle::Experimental,
            }),
    {
        DataResult::Error {
            partial_result: Some(partial),
            message,
            lifecycle: Lifecycle::Experimental,
        }
    }

    pub fn is_success(&self) -> (b: bool)
        ensures
            b == self@.is_success(),
    {
        match self {
            DataResult::Success { .. } => true,
            DataResult::Error { .. } => false,
        }
    }

    pub fn has_result_or_partial(&self) -> (b: bool)
        ensures
            b == self@.has_result_or_partial(),
    {
        match self {
            DataResult::Success { .. } => true,
            DataResult::Error { partial_result, .. } => partial_result.is_some(),
        }
    }

    /// A copy of the error message, if this is an error.
    pub fn get_message(&self) -> (m: Option<String>)
        ensures
            match m {
                Some(s) => self@.message() == Some(s@),
                None => self@.message() is None,
            },
    {
        match self {
            DataResult::Success { .. } => None,
            DataResult::Error { message, .. } => Some(message.clone()),
        }
    }
}

/// Joins two error messages as `first; second`.
pub fn append_message_strings(first: &String, second: &String) -> (r: String)
    ensures
        r@ == append_messages(first@, second@),
{
    let mut r = first.clone();
    r.append("; ");
    r.append(second.as_str());
    proof {
        reveal_strlit("; ");
    }
    r
}

/// Applies a function to the complete or partial result, keeping the message
/// and the lifecycle.
pub open spec fn spec_map<A, B>(r: DataSpec<A>, f: spec_fn(A) -> B) -> DataSpec<B> {
    match r {
        DataSpec::Success { result, lifecycle } => DataSpec::Success { result: f(result), lifecycle },
        DataSpec::Error { partial_result, message, lifecycle } => DataSpec::Error {
            partial_result: match partial_result {
                Some(a) => Some(f(a)),
                None => None,
            },
            message,
            lifecycle,
        },
    }
}

/// `first.apply_2(|_, b| b, second)`: the second value where both results
/// hold one, with the messages and lifecycles of both.
pub fn apply_2_keep_second<A, B>(first: DataResult<A>, second: DataResult<B>) -> (r: DataResult<B>)
    ensures
        r@ == spec_apply_2(first@, second@, |a: A, b: B| b),
{
    let lifecycle = first.lifecycle().add(second.lifecycle());
    match first {
        DataResult::Success { .. } => match second {
            DataResult::Success { result, .. } => DataResult::Success { result, lifecycle },
            DataResult::Error { partial_result, message, .. } => DataResult::Error {
                partial_result,
                message,
                lifecycle,
            },
        },
        DataResult::Error { partial_result: pa, message: ma, .. } => match second {
            DataResult::Success { result, .. } => DataResult::Error {
                partial_result: match pa {
                    Some(_) => Some(result),
                    None => None,
                },
                message: ma,
                lifecycle,
            },
            DataResult::Error { partial_result: pb, message: mb, .. } => {
                let message = append_message_strings(&ma, &mb);
                DataResult::Error {
                    partial_result: match (pa, pb) {
                        (Some(_), Some(b)) => Some(b),
                        _ => None,
                    },
                    message,
                    lifecycle,
                }
            },
        },
    }
}

impl<R> DataResult<R> {
    pub fn lifecycle(&self) -> (l: Lifecycle)
        ensures
            l == self@.lifecycle(),
    {
        match self {
            DataResult::Success { lifecycle, .. } => *lifecycle,
            DataResult::Error { lifecycle, .. } => *lifecycle,
        }
    }
}

/// Adding lifecycles: stable changes nothing, experimental wins over
/// everything, two deprecations give the older one, and the order of the two
/// does not matter.
pub proof fn lemma_lifecycle_add(a: Lifecycle, b: Lifecycle, since: i32)
    ensures
        a.spec_add(Lifecycle::Stable) == a,
        Lifecycle::Stable.spec_add(a) == a,
        a.spec_add(Lifecycle::Experimental) == Lifecycle::Experimental,
        Lifecycle::Experimental.spec_add(a) == Lifecycle::Experimental,
        a.spec_add(b) == b.spec_add(a),
        a is Deprecated && b is Deprecated ==> a.spec_add(b) == (Lifecycle::Deprecated {
            since: if a->since <= b->since {
                a->since
            } else {
                b->since
            },
        }),
{
}

/// What the queries of a result tell: a success holds a complete result; a
/// result or partial is present for a success or an error with a partial
/// result; only an error has a message; the lifecycle is the one stored.
pub proof fn lemma_result_queries<R>(r: DataSpec<R>)
    ensures
        r.is_success() <==> r is Success,
        r.has_result_or_partial() <==> (r is Success || (r is Error && r->Error_partial_result is Some)),
        r is Success ==> r.message() is None && r.lifecycle() == r->Success_lifecycle,
        r is Error ==> r.message() == Some(r->Error_message) && r.lifecycle() == r->Error_lifecycle,
{
}

/// Joining two results: a success exactly when both are; a result or partial
/// exactly when both have one; the lifecycles added; an error keeps the
/// message of the one failing side, or both messages joined by "; ".
pub proof fn lemma_apply_2<A, B, C>(first: DataSpec<A>, second: DataSpec<B>, f: spec_fn(A, B) -> C)
    ensures
        spec_apply_2(first, second, f) is Success <==> (first is Success && second is Success),
        spec_apply_2(first, second, f).has_result_or_partial() <==> (
        first.has_result_or_partial() && second.has_result_or_partial()),
        spec_apply_2(first, second, f).lifecycle() == first.lifecycle().spec_add(
            second.lifecycle(),
        ),
        first is Success && second is Error ==> spec_apply_2(first, second, f).message()
            == Some(second->Error_message),
        first is Error && second is Success ==> spec_apply_2(first, second, f).message()
            == Some(first->Error_message),
        first is Error && second is Error ==> spec_apply_2(first, second, f).message() == Some(
            first->Error_message + "; "@ + second->Error_message,
        ),
        first is Success && second is Success ==> spec_apply_2(first, second, f)->Success_result
            == f(first->Success_result, second->Success_result),
{
}

} // verus!

use vstd::prelude::*;
use crate::provider::descriptor::{Signature, TypeDescriptor};
use crate::provider::error::ProviderError;
use crate::provider::function::{Candidate, Invoke, Outcome};
use crate::provider::resolution::{arguments, first_missing};
use crate::provider::store::stored;

verus! {

/// Why a function is not invoked, if it is not: its declared outputs are
/// not of the shape asked for, or else an input is missing, of which the
/// first is named.
pub open spec fn refusal<V, E>(
    store: Map<TypeDescriptor, V>,
    signature: Signature,
    shape_accepted: bool,
) -> Option<ProviderError<E>> {
    if !shape_accepted {
        Some(ProviderError::InvalidFunctionReturn)
    } else {
        match first_missing(store, signature.inputs@) {
            Some(ty) => Some(ProviderError::NotProvided { ty }),
            None => None,
        }
    }
}

/// What running a function for its one value reports of its outcome: an
/// outcome of another shape than declared is refused, an error is handed on
/// as it came, and otherwise the value is the result.
pub open spec fn run_conclusion<V, E>(signature: Signature, outcome: Outcome<V, E>) -> Result<
    V,
    ProviderError<E>,
> {
    if !outcome.fits(&signature) || outcome.values@.len() != 1 {
        Err(ProviderError::InvalidFunctionReturn)
    } else {
        match outcome.error {
            Some(error) => Err(ProviderError::Failed(error)),
            None => Ok(outcome.values@[0]),
        }
    }
}

/// What running a function for its effect, or to refresh instances, reports
/// of its outcome: an outcome of another shape than declared is refused, an
/// error is handed on as it came, and anything else is a success.
pub open spec fn effect_conclusion<V, E>(signature: Signature, outcome: Outcome<V, E>) -> Result<
    (),
    ProviderError<E>,
> {
    if !outcome.fits(&signature) {
        Err(ProviderError::InvalidFunctionReturn)
    } else {
        match outcome.error {
            Some(error) => Err(ProviderError::Failed(error)),
            None => Ok(()),
        }
    }
}

/// The store after a function's outcome was taken in to refresh instances:
/// the values are written under the declared output types, unless the
/// outcome has another shape than declared.
pub open spec fn refreshed<V, E>(
    store: Map<TypeDescriptor, V>,
    signature: Signature,
    outcome: Outcome<V, E>,
) -> Map<TypeDescriptor, V> {
    if outcome.fits(&signature) {
        stored(store, signature.outputs@, outcome.values@)
    } else {
        store
    }
}

/// Whether `result` is what running `function` for one value of type `ty`
/// may report where the instances are `store`. A plain value is no
/// function. A function must declare one output of type `ty`, followed by
/// the error channel, and every input must be held: else it is not invoked,
/// and the refusal is the result. Otherwise the result is concluded from an
/// outcome that the function yields on the instances of its inputs.
pub open spec fn runs<F: Invoke>(
    store: Map<TypeDescriptor, F::Value>,
    ty: TypeDescriptor,
    function: Candidate<F>,
    result: Result<F::Value, ProviderError<F::Error>>,
) -> bool {
    match function {
        Candidate::Plain(_) => result matches Err(ProviderError::NotAFunction),
        Candidate::Callable(constructor) => match refusal::<F::Value, F::Error>(
            store,
            constructor.signature,
            constructor.signature.returns_one(ty),
        ) {
            Some(error) => result matches Err(e) && e == error,
            None => exists|outcome: Outcome<F::Value, F::Error>|
                {
                    &&& #[trigger] constructor.function.yields(
                        arguments(store, constructor.signature.inputs@),
                        outcome,
                    )
                    &&& result == run_conclusion(constructor.signature, outcome)
                },
        },
    }
}

/// Whether `result` is what running `function` for its effect may report
/// where the instances are `store`. A plain value is no function. A
/// function must declare the error channel as its only output, and every
/// input must be held: else it is not invoked, and the refusal is the
/// result. Otherwise the result is concluded from an outcome that the
/// function yields on the instances of its inputs.
pub open spec fn just_runs<F: Invoke>(
    store: Map<TypeDescriptor, F::Value>,
    function: Candidate<F>,
    result: Result<(), ProviderError<F::Error>>,
) -> bool {
    match function {
        Candidate::Plain(_) => result matches Err(ProviderError::NotAFunction),
        Candidate::Callable(constructor) => match refusal::<F::Value, F::Error>(
            store,
            constructor.signature,
            constructor.signature.returns_nothing(),
        ) {
            Some(error) => result matches Err(e) && e == error,
            None => exists|outcome: Outcome<F::Value, F::Error>|
                {
                    &&& #[trigger] constructor.function.yields(
                        arguments(store, constructor.signature.inputs@),
                        outcome,
                    )
                    &&& result == effect_conclusion(constructor.signature, outcome)
                },
        },
    }
}

/// Whether refreshing instances with `function` may lead from the
/// instances `before` to the instances `after` and report `result`. A plain
/// value is no function, and a function with an input that is not held is
/// not invoked: the refusal is the result, and nothing changes. Otherwise
/// the instances are refreshed with an outcome that the function yields on
/// the instances of its inputs, and the result is concluded from it.
pub open spec fn updates<F: Invoke>(
    before: Map<TypeDescriptor, F::Value>,
    function: Candidate<F>,
    after: Map<TypeDescriptor, F::Value>,
    result: Result<(), ProviderError<F::Error>>,
) -> bool {
    match function {
        Candidate::Plain(_) => {
            &&& result matches Err(ProviderError::NotAFunction)
            &&& after == before
        },
        Candidate::Callable(constructor) => match refusal::<F::Value, F::Error>(
            before,
            constructor.signature,
            true,
        ) {
            Some(error) => {
                &&& result matches Err(e) && e == error
                &&& after == before
            },
            None => exists|outcome: Outcome<F::Value, F::Error>|
                {
                    &&& #[trigger] constructor.function.yields(
                        arguments(before, constructor.signature.inputs@),
                        outcome,
                    )
                    &&& after == refreshed(before, constructor.signature, outcome)
                    &&& result == effect_conclusion(constructor.signature, outcome)
                },
        },
    }
}

/// Concludes a run for one value from the function's outcome.
pub fn conclude_run<V, E>(signature: &Signature, outcome: Outcome<V, E>) -> (result: Result<
    V,
    ProviderError<E>,
>)
    ensures
        result == run_conclusion(*signature, outcome),
{
    if !outcome.has_shape(signature) || outcome.values.len() != 1 {
        return Err(ProviderError::InvalidFunctionReturn);
    }
    let Outcome { mut values, error } = outcome;
    match error {
        Some(error) => Err(ProviderError::Failed(error)),
        None => Ok(values.remove(0)),
    }
}

/// Concludes a run for effect from the function's outcome.
pub fn conclude_effect<V, E>(signature: &Signature, outcome: Outcome<V, E>) -> (result: Result<
    (),
    ProviderError<E>,
>)
    ensures
        result == effect_conclusion(*signature, outcome),
{
    if !outcome.has_shape(signature) {
        return Err(ProviderError::InvalidFunctionReturn);
    }
    match outcome.error {
        Some(error) => Err(ProviderError::Failed(error)),
        None => Ok(()),
    }
}

} // verus!

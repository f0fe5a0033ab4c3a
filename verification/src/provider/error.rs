use vstd::prelude::*;
use crate::provider::descriptor::TypeDescriptor;

verus! {

/// Why an operation of the container failed. `E` is the error type of the
/// functions the container invokes.
#[derive(Debug)]
pub enum ProviderError<E> {
    /// A plain value was handed over where a function was expected.
    NotAFunction,
    /// The function's outputs do not have the shape the operation asks for.
    InvalidFunctionReturn,
    /// A constructor handed back outputs of another shape than it declares.
    InvalidConstructorReturn,
    /// A declared input has no instance in the store.
    NotProvided { ty: TypeDescriptor },
    /// Resolution stalled: none of the listed constructors has all of its
    /// inputs, and none of them ran.
    MaybeCyclicDependency { stuck: Vec<u64> },
    /// The invoked function's own error, as it was handed back.
    Failed(E),
}

} // verus!

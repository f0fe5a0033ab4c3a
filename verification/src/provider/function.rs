use vstd::prelude::*;
use crate::provider::descriptor::Signature;

verus! {

/// What one invocation of a function handed back: the produced values, in
/// the order of the declared outputs, and what came over the error channel.
pub struct Outcome<V, E> {
    pub values: Vec<V>,
    pub error: Option<E>,
}

impl<V, E> Outcome<V, E> {
    /// An outcome with the given values and error.
    pub fn new(values: Vec<V>, error: Option<E>) -> (outcome: Self)
        ensures
            outcome.values == values,
            outcome.error == error,
    {
        Outcome { values, error }
    }

    /// Whether the outcome has the shape that `signature` declares: one
    /// value for each declared output, and an error only where an error
    /// channel is declared.
    pub open spec fn fits(&self, signature: &Signature) -> bool {
        &&& self.values@.len() == signature.outputs@.len()
        &&& self.error is Some ==> signature.fallible
    }

    /// Whether the outcome has the shape that `signature` declares.
    pub fn has_shape(&self, signature: &Signature) -> (fits: bool)
        ensures
            fits == self.fits(signature),
    {
        self.values.len() == signature.outputs.len() && (self.error.is_none()
            || signature.fallible)
    }
}

/// The capability of being invoked on resolved input values. The container
/// is generic over it; an application implements it once for the type that
/// stands for all of its constructors.
pub trait Invoke {
    type Value;

    type Error;

    /// What the implementor says of its own behaviour: whether an invocation
    /// on `args` may hand back `outcome`. An implementor that says nothing
    /// allows every outcome.
    open spec fn yields(
        &self,
        args: Seq<&Self::Value>,
        outcome: Outcome<Self::Value, Self::Error>,
    ) -> bool {
        true
    }

    /// Runs the function on the given values, one for each declared input
    /// and in their order.
    fn invoke(&self, args: &Vec<&Self::Value>) -> (outcome: Outcome<Self::Value, Self::Error>)
        ensures
            self.yields(args@, outcome),
    ;
}

/// A function together with its identity and its declared shape. Two
/// constructors with the same `id` are the same constructor.
pub struct Constructor<F> {
    pub id: u64,
    pub signature: Signature,
    pub function: F,
}

impl<F> Constructor<F> {
    /// The function `function` under the identity `id`, declared with
    /// `signature`.
    pub fn new(id: u64, signature: Signature, function: F) -> (constructor: Self)
        ensures
            constructor.id == id,
            constructor.signature == signature,
            constructor.function == function,
    {
        Constructor { id, signature, function }
    }
}

/// Something handed to the container where a function is expected.
pub enum Candidate<F: Invoke> {
    /// An invocable function.
    Callable(Constructor<F>),
    /// A plain value, which cannot be invoked.
    Plain(F::Value),
}

} // verus!

use vstd::prelude::*;
use crate::provider::descriptor::{Signature, TypeDescriptor};
use crate::provider::error::ProviderError;
use crate::provider::function::{Constructor, Invoke, Outcome};
use crate::provider::registry::ids_of;
use crate::provider::store::stored;

verus! {

/// Whether `store` holds an instance for every type of `inputs`.
pub open spec fn ready<V>(store: Map<TypeDescriptor, V>, inputs: Seq<TypeDescriptor>) -> bool {
    forall|i: int| 0 <= i < inputs.len() ==> store.dom().contains(#[trigger] inputs[i])
}

/// The first type of `inputs`, in their order, for which `store` holds no
/// instance.
pub open spec fn first_missing<V>(
    store: Map<TypeDescriptor, V>,
    inputs: Seq<TypeDescriptor>,
) -> Option<TypeDescriptor>
    decreases inputs.len(),
{
    if inputs.len() == 0 {
        None
    } else if !store.dom().contains(inputs[0]) {
        Some(inputs[0])
    } else {
        first_missing(store, inputs.drop_first())
    }
}

/// The instances that `store` holds for `inputs`, in their order: what a
/// function with these inputs is invoked on.
pub open spec fn arguments<'a, V>(
    store: Map<TypeDescriptor, V>,
    inputs: Seq<TypeDescriptor>,
) -> Seq<&'a V> {
    Seq::new(inputs.len(), |i: int| &store[inputs[i]])
}

/// Nothing is missing exactly when every input is held.
pub proof fn lemma_ready_iff_none_missing<V>(
    store: Map<TypeDescriptor, V>,
    inputs: Seq<TypeDescriptor>,
)
    ensures
        ready(store, inputs) <==> first_missing(store, inputs) is None,
        first_missing(store, inputs) matches Some(ty) ==> inputs.contains(ty)
            && !store.dom().contains(ty),
    decreases inputs.len(),
{
    if inputs.len() > 0 {
        let rest = inputs.drop_first();
        lemma_ready_iff_none_missing(store, rest);
        if store.dom().contains(inputs[0]) {
            if ready(store, rest) {
                assert forall|i: int| 0 <= i < inputs.len() implies store.dom().contains(
                    #[trigger] inputs[i],
                ) by {
                    if i > 0 {
                        assert(rest[i - 1] == inputs[i]);
                    }
                }
            }
            if ready(store, inputs) {
                assert forall|i: int| 0 <= i < rest.len() implies store.dom().contains(
                    #[trigger] rest[i],
                ) by {
                    assert(rest[i] == inputs[i + 1]);
                }
            }
            if first_missing(store, rest) is Some {
                let ty = first_missing(store, rest)->0;
                let k = choose|k: int| 0 <= k < rest.len() && rest[k] == ty;
                assert(inputs[k + 1] == ty);
            }
        } else {
            assert(inputs[0] == inputs[0]);
        }
    }
}

/// A function without inputs can always be invoked: nothing is missing.
pub proof fn lemma_no_inputs_ready<V>(store: Map<TypeDescriptor, V>)
    ensures
        ready(store, Seq::<TypeDescriptor>::empty()),
        first_missing(store, Seq::<TypeDescriptor>::empty()) is None,
{
}

/// The state that resolution works on: the constructors that have not run
/// yet, and the instances made so far.
pub struct Resolution<F: Invoke> {
    pub pending: Seq<Constructor<F>>,
    pub store: Map<TypeDescriptor, F::Value>,
}

/// One invocation during resolution: the position, among the pending
/// constructors, of the one that ran, and what it handed back.
pub struct Firing<F: Invoke> {
    pub position: int,
    pub outcome: Outcome<F::Value, F::Error>,
}

impl<F: Invoke> Resolution<F> {
    /// Whether `firing` may happen in this state: the constructor is pending,
    /// all of its inputs are held, and the outcome is one that the function
    /// yields on exactly those instances.
    pub open spec fn admits(self, firing: Firing<F>) -> bool {
        &&& 0 <= firing.position < self.pending.len()
        &&& ready(self.store, self.pending[firing.position].signature.inputs@)
        &&& self.pending[firing.position].function.yields(
            arguments(self.store, self.pending[firing.position].signature.inputs@),
            firing.outcome,
        )
    }

    /// Whether `firing` completes: the outcome has the declared shape and
    /// carries no error.
    pub open spec fn completes(self, firing: Firing<F>) -> bool {
        &&& firing.outcome.fits(&self.pending[firing.position].signature)
        &&& firing.outcome.error is None
    }

    /// The state after `firing`. An outcome of another shape than declared
    /// changes nothing. Otherwise the values are written to the store, and
    /// the constructor leaves the pending ones unless it reported an error.
    pub open spec fn after(self, firing: Firing<F>) -> Self {
        let signature = self.pending[firing.position].signature;
        if !firing.outcome.fits(&signature) {
            self
        } else {
            Resolution {
                pending: if firing.outcome.error is None {
                    self.pending.remove(firing.position)
                } else {
                    self.pending
                },
                store: stored(self.store, signature.outputs@, firing.outcome.values@),
            }
        }
    }

    /// The state after the firings of `trace`, one after the other.
    pub open spec fn run(self, trace: Seq<Firing<F>>) -> Self
        decreases trace.len(),
    {
        if trace.len() == 0 {
            self
        } else {
            self.run(trace.drop_last()).after(trace.last())
        }
    }

    /// Whether `trace` is a course that resolution may take from this state:
    /// every firing is admitted by the state it happens in, and every firing
    /// but the last completes.
    pub open spec fn follows(self, trace: Seq<Firing<F>>) -> bool {
        forall|k: int|
            0 <= k < trace.len() ==> {
                &&& (#[trigger] self.run(trace.take(k))).admits(trace[k])
                &&& k < trace.len() - 1 ==> self.run(trace.take(k)).completes(trace[k])
            }
    }

    /// The constructor that the firing at position `k` of `trace` invoked.
    pub open spec fn fired(self, trace: Seq<Firing<F>>, k: int) -> Constructor<F> {
        self.run(trace.take(k)).pending[trace[k].position]
    }

    /// Whether no pending constructor can run: each lacks an input.
    pub open spec fn stalled(self) -> bool {
        forall|i: int|
            0 <= i < self.pending.len() ==> !ready(
                self.store,
                (#[trigger] self.pending[i]).signature.inputs@,
            )
    }

    /// Whether the last firing of `trace`, if there is one, completed.
    pub open spec fn unbroken(self, trace: Seq<Firing<F>>) -> bool {
        trace.len() > 0 ==> self.run(trace.drop_last()).completes(trace.last())
    }
}

/// What settling a constructor's outcome reports: an outcome of another
/// shape than declared is refused, an error is handed on as it came, and
/// anything else is a success.
pub open spec fn settled<V, E>(signature: Signature, outcome: Outcome<V, E>) -> Result<
    (),
    ProviderError<E>,
> {
    if !outcome.fits(&signature) {
        Err(ProviderError::InvalidConstructorReturn)
    } else {
        match outcome.error {
            Some(error) => Err(ProviderError::Failed(error)),
            None => Ok(()),
        }
    }
}

/// Whether resolution, started in `start`, took the course `trace`, ended in
/// `end` and reported `result`. It succeeds when every firing completed and
/// no constructor is left. It reports a stall when every firing completed,
/// constructors are left, and each of them lacks an input: those are the
/// stuck ones. Otherwise the last firing did not complete, and the report
/// is that firing's error, or the refusal of its outcome's shape.
pub open spec fn resolves<F: Invoke>(
    start: Resolution<F>,
    trace: Seq<Firing<F>>,
    end: Resolution<F>,
    result: Result<(), ProviderError<F::Error>>,
) -> bool {
    &&& start.follows(trace)
    &&& end == start.run(trace)
    &&& trace.len() <= start.pending.len()
    &&& match result {
        Ok(()) => start.unbroken(trace) && end.pending.len() == 0,
        Err(ProviderError::MaybeCyclicDependency { stuck }) => {
            &&& start.unbroken(trace)
            &&& end.pending.len() > 0
            &&& end.stalled()
            &&& stuck@ == ids_of(end.pending)
        },
        Err(error) => {
            &&& trace.len() > 0
            &&& !start.run(trace.drop_last()).completes(trace.last())
            &&& Err::<(), ProviderError<F::Error>>(error) == settled(
                start.run(trace.drop_last()).pending[trace.last().position].signature,
                trace.last().outcome,
            )
        },
    }
}

/// A course that is extended by a firing which its end admits is a course
/// again, and ends where that firing leads.
pub proof fn lemma_extend<F: Invoke>(
    start: Resolution<F>,
    trace: Seq<Firing<F>>,
    firing: Firing<F>,
)
    requires
        start.follows(trace),
        start.unbroken(trace),
        start.run(trace).admits(firing),
    ensures
        start.follows(trace.push(firing)),
        start.run(trace.push(firing)) == start.run(trace).after(firing),
        start.run(trace.push(firing).drop_last()) == start.run(trace),
{
    let longer = trace.push(firing);
    assert(longer.drop_last() =~= trace);
    assert forall|k: int| 0 <= k < longer.len() implies {
        &&& (#[trigger] start.run(longer.take(k))).admits(longer[k])
        &&& k < longer.len() - 1 ==> start.run(longer.take(k)).completes(longer[k])
    } by {
        if k < trace.len() {
            assert(longer.take(k) =~= trace.take(k));
            assert(start.run(trace.take(k)).admits(trace[k]));
            if k == trace.len() - 1 {
                assert(trace.take(k) =~= trace.drop_last());
            }
        } else {
            assert(longer.take(k) =~= trace);
        }
    }
}

} // verus!

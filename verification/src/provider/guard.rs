use vstd::prelude::*;
use vstd::rwlock::{RwLock, RwLockPredicate};
use crate::provider::access::{just_runs, runs, updates};
use crate::provider::container::Provider;
use crate::provider::descriptor::TypeDescriptor;
use crate::provider::error::ProviderError;
use crate::provider::function::{Candidate, Constructor, Invoke};
use crate::provider::registry::{callable_prefix, registered};
use crate::provider::resolution::{resolves, Firing, Resolution};

verus! {

/// The state of a container with no constructor and no instance.
pub open spec fn vacant<F: Invoke>() -> Resolution<F> {
    Resolution {
        pending: Seq::<Constructor<F>>::empty(),
        store: Map::<TypeDescriptor, F::Value>::empty(),
    }
}

/// The state in which resolution starts when the seed joins `found`.
pub open spec fn seeded<F: Invoke>(
    found: Resolution<F>,
    seed_type: TypeDescriptor,
    seed: F::Value,
) -> Resolution<F> {
    Resolution { pending: found.pending, store: found.store.insert(seed_type, seed) }
}

/// Whether registering `candidates` leads from `before` to `after`: the
/// functions up to the first plain value join the pending constructors,
/// and no instance is touched.
pub open spec fn registers<F: Invoke>(
    before: Resolution<F>,
    candidates: Seq<Candidate<F>>,
    after: Resolution<F>,
) -> bool {
    &&& after.store == before.store
    &&& after.pending == registered(
        before.pending,
        candidates.take(callable_prefix(candidates)),
    )
}

/// Whether one whole operation of a writer leads from `before` to `after`:
/// a registration, a resolution from its seed to its end, or a refreshing
/// of instances with all that one function handed back.
pub open spec fn evolves<F: Invoke>(before: Resolution<F>, after: Resolution<F>) -> bool {
    ||| exists|candidates: Seq<Candidate<F>>| #[trigger] registers(before, candidates, after)
    ||| exists|
        seed_type: TypeDescriptor,
        seed: F::Value,
        trace: Seq<Firing<F>>,
        result: Result<(), ProviderError<F::Error>>,
    | #[trigger]
        resolves(seeded(before, seed_type, seed), trace, after, result)
    ||| after.pending == before.pending && exists|
        function: Candidate<F>,
        result: Result<(), ProviderError<F::Error>>,
    | #[trigger]
        updates(before.store, function, after.store, result)
}

/// Whether every state of `history` but the first comes from the one
/// before it by one whole operation of a writer.
pub open spec fn grows<F: Invoke>(history: Seq<Resolution<F>>) -> bool {
    forall|k: int| 0 <= k < history.len() - 1 ==> evolves(#[trigger] history[k], history[k + 1])
}

/// Whether `state` is `origin`, or comes from it by whole operations of
/// writers, one after the other. These are the states that a guarded
/// container is ever seen in: no state in the middle of an operation is
/// among them but by being the end of other whole operations.
pub open spec fn reaches<F: Invoke>(origin: Resolution<F>, state: Resolution<F>) -> bool {
    exists|history: Seq<Resolution<F>>|
        history.len() > 0 && history[0] == origin && history.last() == state && #[trigger] grows(
            history,
        )
}

/// Every state is reached from itself.
pub proof fn lemma_reaches_itself<F: Invoke>(origin: Resolution<F>)
    ensures
        reaches(origin, origin),
{
    let history = seq![origin];
    assert(history.len() > 0 && history[0] == origin && history.last() == origin);
    assert(grows(history));
}

/// One more whole operation leads to a state that is reached, too.
pub proof fn lemma_reaches_further<F: Invoke>(
    origin: Resolution<F>,
    state: Resolution<F>,
    next: Resolution<F>,
)
    requires
        reaches(origin, state),
        evolves(state, next),
    ensures
        reaches(origin, next),
{
    let history = choose|history: Seq<Resolution<F>>|
        history.len() > 0 && history[0] == origin && history.last() == state && #[trigger] grows(
            history,
        );
    let longer = history.push(next);
    assert forall|k: int| 0 <= k < longer.len() - 1 implies evolves(
        #[trigger] longer[k],
        longer[k + 1],
    ) by {
        if k < history.len() - 1 {
            assert(evolves(history[k], history[k + 1]));
        }
    }
    assert(longer.len() > 0 && longer[0] == origin && longer.last() == next);
    assert(grows(longer));
}

/// What the lock asks of the container it holds: that its state is
/// reached from `origin` by whole operations.
pub struct Published<F: Invoke> {
    pub origin: Resolution<F>,
}

impl<F: Invoke> RwLockPredicate<Provider<F>> for Published<F> {
    open spec fn inv(self, provider: Provider<F>) -> bool {
        reaches(self.origin, provider.state())
    }
}

/// Whether `found` is what a reader may get for `ty` where the instances
/// are `store`: a clone of the instance held, or nothing where none is
/// held.
pub open spec fn gets<V: Clone>(
    store: Map<TypeDescriptor, V>,
    ty: TypeDescriptor,
    found: Option<V>,
) -> bool {
    match found {
        Some(value) => store.dom().contains(ty) && cloned(store[ty], value),
        None => !store.dom().contains(ty),
    }
}

/// A container behind one readers-writer lock. Reading and running take
/// the lock shared; registering, constructing and updating take it alone,
/// work on the container while no one else can see it, and give it back
/// when the whole operation is over. A function that the container invokes
/// must not call back into the container it is invoked from.
pub struct SharedProvider<F: Invoke> {
    lock: RwLock<Provider<F>, Published<F>>,
}

impl<F: Invoke> SharedProvider<F> {
    /// The state that the guarded container began in. Whatever state it is
    /// found in later is reached from this one.
    pub closed spec fn origin(&self) -> Resolution<F> {
        self.lock.pred().origin
    }

    /// A guarded container that begins with no constructor and no instance.
    pub fn new() -> (shared: Self)
        ensures
            shared.origin() == vacant::<F>(),
    {
        let provider: Provider<F> = Provider::new();
        proof {
            assert(provider.state() == vacant::<F>());
            lemma_reaches_itself(vacant::<F>());
        }
        SharedProvider { lock: RwLock::new(provider, Ghost(Published { origin: vacant::<F>() })) }
    }

    /// Registers the candidates, alone on the container. The result does
    /// not depend on what the container holds: it is a failure exactly when
    /// one of the candidates is no function. The container is found in a
    /// state reached from its origin, and left in the state that
    /// registering leads to.
    pub fn register(&self, candidates: Vec<Candidate<F>>) -> (result: Result<
        (),
        ProviderError<F::Error>,
    >)
        ensures
            callable_prefix(candidates@) == candidates@.len() ==> result is Ok,
            callable_prefix(candidates@) < candidates@.len() ==> result matches Err(
                ProviderError::NotAFunction,
            ),
            exists|found: Resolution<F>, left: Resolution<F>|
                {
                    &&& reaches(self.origin(), found)
                    &&& #[trigger] registers(found, candidates@, left)
                    &&& reaches(self.origin(), left)
                },
    {
        let (mut provider, handle) = self.lock.acquire_write();
        let ghost found = provider.state();
        let result = provider.register(candidates);
        proof {
            assert(registers(found, candidates@, provider.state()));
            assert(evolves(found, provider.state()));
            lemma_reaches_further(self.origin(), found, provider.state());
        }
        handle.release_write(provider);
        result
    }

    /// Makes the instances, alone on the container: the result is that of
    /// resolution from a state reached from the origin, with the seed
    /// joined to it, and the container is left where resolution ends.
    pub fn construct(&self, seed_type: TypeDescriptor, seed: F::Value) -> (result: Result<
        (),
        ProviderError<F::Error>,
    >)
        ensures
            exists|found: Resolution<F>, trace: Seq<Firing<F>>, end: Resolution<F>|
                {
                    &&& reaches(self.origin(), found)
                    &&& #[trigger] resolves(seeded(found, seed_type, seed), trace, end, result)
                    &&& reaches(self.origin(), end)
                },
    {
        let (mut provider, handle) = self.lock.acquire_write();
        let ghost found = provider.state();
        let result = provider.construct(seed_type, seed);
        proof {
            let trace = choose|trace: Seq<Firing<F>>| #[trigger]
                resolves(
                    Resolution {
                        pending: found.pending,
                        store: found.store.insert(seed_type, seed),
                    },
                    trace,
                    provider.state(),
                    result,
                );
            assert(resolves(seeded(found, seed_type, seed), trace, provider.state(), result));
            assert(evolves(found, provider.state()));
            lemma_reaches_further(self.origin(), found, provider.state());
        }
        handle.release_write(provider);
        result
    }

    /// Refreshes instances with `function`, alone on the container: the
    /// result is that of refreshing the instances of a state reached from
    /// the origin, and the container is left with the refreshed instances
    /// and the same pending constructors.
    pub fn update(&self, function: &Candidate<F>) -> (result: Result<(), ProviderError<F::Error>>)
        ensures
            exists|found: Resolution<F>, left: Resolution<F>|
                {
                    &&& reaches(self.origin(), found)
                    &&& left.pending == found.pending
                    &&& #[trigger] updates(found.store, *function, left.store, result)
                    &&& reaches(self.origin(), left)
                },
    {
        let (mut provider, handle) = self.lock.acquire_write();
        let ghost found = provider.state();
        let result = provider.update(function);
        proof {
            assert(updates(found.store, *function, provider.state().store, result));
            assert(evolves(found, provider.state()));
            lemma_reaches_further(self.origin(), found, provider.state());
        }
        handle.release_write(provider);
        result
    }

    /// A copy of the instance of `ty`, if there is one, read while no
    /// writer is at work: what is found is a clone of what a state reached
    /// from the origin holds for `ty`, and nothing where it holds nothing.
    pub fn get(&self, ty: TypeDescriptor) -> (found: Option<F::Value>) where F::Value: Clone
        ensures
            exists|state: Resolution<F>|
                #[trigger] reaches(self.origin(), state) && gets(state.store, ty, found),
    {
        let handle = self.lock.acquire_read();
        let ghost state = handle.view().state();
        let found = match handle.borrow().get(ty) {
            Some(value) => {
                let copy = value.clone();
                proof {
                    assert(cloned(*value, copy));
                }
                Some(copy)
            },
            None => None,
        };
        proof {
            assert(reaches(self.origin(), state) && gets(state.store, ty, found));
        }
        handle.release_read();
        found
    }

    /// Runs `function` for one value of type `ty` while no writer is at
    /// work: the result is that of running it on the instances of a state
    /// reached from the origin.
    pub fn run(&self, ty: TypeDescriptor, function: &Candidate<F>) -> (result: Result<
        F::Value,
        ProviderError<F::Error>,
    >)
        ensures
            exists|state: Resolution<F>|
                #[trigger] reaches(self.origin(), state) && runs(
                    state.store,
                    ty,
                    *function,
                    result,
                ),
    {
        let handle = self.lock.acquire_read();
        let ghost state = handle.view().state();
        let result = handle.borrow().run(ty, function);
        proof {
            assert(reaches(self.origin(), state) && runs(state.store, ty, *function, result));
        }
        handle.release_read();
        result
    }

    /// Runs `function` for its effect while no writer is at work: the
    /// result is that of running it on the instances of a state reached
    /// from the origin.
    pub fn just_run(&self, function: &Candidate<F>) -> (result: Result<
        (),
        ProviderError<F::Error>,
    >)
        ensures
            exists|state: Resolution<F>|
                #[trigger] reaches(self.origin(), state) && just_runs(
                    state.store,
                    *function,
                    result,
                ),
    {
        let handle = self.lock.acquire_read();
        let ghost state = handle.view().state();
        let result = handle.borrow().just_run(function);
        proof {
            assert(reaches(self.origin(), state) && just_runs(state.store, *function, result));
        }
        handle.release_read();
        result
    }
}

} // verus!

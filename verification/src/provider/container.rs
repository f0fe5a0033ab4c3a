use vstd::prelude::*;
use crate::provider::access::{conclude_effect, conclude_run, effect_conclusion, just_runs};
use crate::provider::access::{refreshed, runs, updates};
use crate::provider::descriptor::{Signature, TypeDescriptor};
use crate::provider::error::ProviderError;
use crate::provider::function::{Candidate, Constructor, Invoke, Outcome};
use crate::provider::registry::{callable_prefix, lemma_callable_prefix, registered, Registry};
use crate::provider::resolution::{arguments, first_missing, ready, resolves, settled};
use crate::provider::resolution::{lemma_extend, lemma_ready_iff_none_missing, Firing, Resolution};
use crate::provider::store::ValueStore;

verus! {

/// The construction container: the constructors that wait to run, and the
/// one instance per type that those that ran have made.
pub struct Provider<F: Invoke> {
    registry: Registry<F>,
    store: ValueStore<F::Value>,
}

impl<F: Invoke> Provider<F> {
    /// The constructors that were registered and have not run, in the order
    /// of their registration.
    pub closed spec fn pending(&self) -> Seq<Constructor<F>> {
        self.registry@
    }

    /// The instance that the container holds for each type.
    pub closed spec fn store(&self) -> Map<TypeDescriptor, F::Value> {
        self.store@
    }

    /// The container as resolution sees it.
    pub open spec fn state(&self) -> Resolution<F> {
        Resolution { pending: self.pending(), store: self.store() }
    }

    /// A container with no constructor and no instance.
    pub fn new() -> (provider: Self)
        ensures
            provider.pending() == Seq::<Constructor<F>>::empty(),
            provider.store() == Map::<TypeDescriptor, F::Value>::empty(),
    {
        Provider { registry: Registry::new(), store: ValueStore::new() }
    }

    /// Registers the candidates in order, up to the first that is no
    /// function. A function whose identity is pending already is dropped.
    /// No function is invoked and no instance is touched.
    pub fn register(&mut self, candidates: Vec<Candidate<F>>) -> (result: Result<
        (),
        ProviderError<F::Error>,
    >)
        ensures
            final(self).store() == old(self).store(),
            final(self).pending() == registered(
                old(self).pending(),
                candidates@.take(callable_prefix(candidates@)),
            ),
            callable_prefix(candidates@) == candidates@.len() ==> result == Ok::<
                (),
                ProviderError<F::Error>,
            >(()),
            callable_prefix(candidates@) < candidates@.len() ==> result == Err::<
                (),
                ProviderError<F::Error>,
            >(ProviderError::NotAFunction),
    {
        let ghost mut n: int = 0;
        proof {
            assert(candidates@.take(0) =~= Seq::<Candidate<F>>::empty());
        }
        for candidate in it: candidates
            invariant
                it.seq() == candidates@,
                n == it.index(),
                forall|j: int| 0 <= j < n ==> candidates@[j] is Callable,
                self.store() == old(self).store(),
                self.pending() == registered(old(self).pending(), candidates@.take(n)),
        {
            match candidate {
                Candidate::Callable(constructor) => {
                    proof {
                        assert(candidates@.take(n + 1).drop_last() =~= candidates@.take(n));
                    }
                    self.registry.enlist(constructor);
                },
                Candidate::Plain(_) => {
                    proof {
                        lemma_callable_prefix(candidates@, n);
                    }
                    return Err(ProviderError::NotAFunction);
                },
            }
            proof {
                n = n + 1;
            }
        }
        proof {
            lemma_callable_prefix(candidates@, n);
            assert(candidates@.take(n) =~= candidates@);
        }
        Ok(())
    }

    /// The instance of `ty`, if there is one. Absence is no error.
    pub fn get(&self, ty: TypeDescriptor) -> (found: Option<&F::Value>)
        ensures
            found == (if self.store().dom().contains(ty) {
                Some(&self.store()[ty])
            } else {
                None
            }),
    {
        self.store.get(ty)
    }

    /// The instances held for `inputs`, in their order; or the first of
    /// `inputs` for which none is held.
    pub fn resolve<'a>(&'a self, inputs: &Vec<TypeDescriptor>) -> (result: Result<
        Vec<&'a F::Value>,
        TypeDescriptor,
    >)
        ensures
            match result {
                Ok(args) => first_missing(self.store(), inputs@) is None && args@ == arguments(
                    self.store(),
                    inputs@,
                ),
                Err(ty) => first_missing(self.store(), inputs@) == Some(ty),
            },
    {
        let mut args: Vec<&'a F::Value> = Vec::new();
        let mut i: usize = 0;
        proof {
            assert(inputs@.skip(0) =~= inputs@);
        }
        while i < inputs.len()
            invariant
                i <= inputs@.len(),
                args@ == arguments(self.store(), inputs@.take(i as int)),
                first_missing(self.store(), inputs@) == first_missing(
                    self.store(),
                    inputs@.skip(i as int),
                ),
            decreases inputs@.len() - i,
        {
            proof {
                assert(inputs@.skip(i as int).drop_first() =~= inputs@.skip(i + 1));
            }
            match self.store.get(inputs[i]) {
                Some(value) => {
                    args.push(value);
                    proof {
                        assert(args@ =~= arguments(self.store(), inputs@.take(i + 1)));
                    }
                },
                None => {
                    return Err(inputs[i]);
                },
            }
            i += 1;
        }
        proof {
            assert(inputs@.take(i as int) =~= inputs@);
        }
        Ok(args)
    }

    /// Settles what the pending constructor at `position` handed back. An
    /// outcome of another shape than the constructor declares is refused
    /// and changes nothing. Otherwise the values are stored under the
    /// declared output types; then an error is handed on and the
    /// constructor stays pending, or the constructor leaves the pending ones.
    pub fn settle(&mut self, position: usize, outcome: Outcome<F::Value, F::Error>) -> (result:
        Result<(), ProviderError<F::Error>>)
        requires
            position < old(self).pending().len(),
        ensures
            final(self).state() == old(self).state().after(
                Firing { position: position as int, outcome },
            ),
            result == settled(old(self).pending()[position as int].signature, outcome),
    {
        let signature = &self.registry.get(position).signature;
        if !outcome.has_shape(signature) {
            return Err(ProviderError::InvalidConstructorReturn);
        }
        let Outcome { values, error } = outcome;
        self.store.insert_all(&signature.outputs, values);
        match error {
            Some(error) => Err(ProviderError::Failed(error)),
            None => {
                let _ = self.registry.remove(position);
                Ok(())
            },
        }
    }

    /// Makes the instances. The seed is stored under its type. Then the
    /// pending constructors are swept, again and again: one whose inputs are
    /// all held is invoked on them and its outcome settled, one that lacks
    /// an input is passed over. Resolution ends with success when no
    /// constructor is left, with the first outcome that does not complete,
    /// or, after a sweep in which nothing ran, with the constructors that
    /// are stuck. No constructor completes twice, so there are at most as
    /// many invocations as there were constructors.
    pub fn construct(&mut self, seed_type: TypeDescriptor, seed: F::Value) -> (result: Result<
        (),
        ProviderError<F::Error>,
    >)
        ensures
            exists|trace: Seq<Firing<F>>| #[trigger]
                resolves(
                    Resolution {
                        pending: old(self).pending(),
                        store: old(self).store().insert(seed_type, seed),
                    },
                    trace,
                    final(self).state(),
                    result,
                ),
    {
        let ghost start = Resolution::<F> {
            pending: self.pending(),
            store: self.store().insert(seed_type, seed),
        };
        let ghost mut trace: Seq<Firing<F>> = Seq::empty();
        self.store.insert(seed_type, seed);
        loop
            invariant
                start == (Resolution::<F> {
                    pending: old(self).pending(),
                    store: old(self).store().insert(seed_type, seed),
                }),
                start.follows(trace),
                start.unbroken(trace),
                self.state() == start.run(trace),
                trace.len() + self.pending().len() == start.pending.len(),
            decreases self.pending().len(),
        {
            if self.registry.len() == 0 {
                proof {
                    assert(resolves(start, trace, self.state(), Ok(())));
                }
                return Ok(());
            }
            let ghost swept = self.pending().len();
            let mut progress: usize = 0;
            let mut i: usize = 0;
            while i < self.registry.len()
                invariant
                    start == (Resolution::<F> {
                        pending: old(self).pending(),
                        store: old(self).store().insert(seed_type, seed),
                    }),
                    swept <= usize::MAX,
                    start.follows(trace),
                    start.unbroken(trace),
                    self.state() == start.run(trace),
                    trace.len() + self.pending().len() == start.pending.len(),
                    i <= self.pending().len(),
                    self.pending().len() + progress == swept,
                    progress == 0 ==> forall|j: int|
                        0 <= j < i ==> !ready(
                            self.store(),
                            (#[trigger] self.pending()[j]).signature.inputs@,
                        ),
                decreases self.pending().len() - i,
            {
                let constructor = self.registry.get(i);
                proof {
                    lemma_ready_iff_none_missing(self.store(), constructor.signature.inputs@);
                }
                match self.resolve(&constructor.signature.inputs) {
                    Err(_) => {
                        i += 1;
                    },
                    Ok(args) => {
                        let outcome = constructor.function.invoke(&args);
                        let ghost firing = Firing::<F> { position: i as int, outcome };
                        proof {
                            assert(self.state().admits(firing));
                            lemma_extend(start, trace, firing);
                            trace = trace.push(firing);
                        }
                        match self.settle(i, outcome) {
                            Ok(()) => {
                                progress += 1;
                            },
                            Err(error) => {
                                proof {
                                    assert(resolves(start, trace, self.state(), Err(error)));
                                }
                                return Err(error);
                            },
                        }
                    },
                }
            }
            if progress == 0 {
                let stuck = self.registry.ids();
                proof {
                    assert(self.state().stalled());
                    assert(resolves(
                        start,
                        trace,
                        self.state(),
                        Err(ProviderError::MaybeCyclicDependency { stuck }),
                    ));
                }
                return Err(ProviderError::MaybeCyclicDependency { stuck });
            }
        }
    }

    /// Runs `function` on the instances of its inputs and hands back the
    /// value it makes. The function must declare one output of type `ty`,
    /// followed by the error channel; and an instance of every input must be
    /// held, or the function is not invoked. Nothing is stored.
    pub fn run(&self, ty: TypeDescriptor, function: &Candidate<F>) -> (result: Result<
        F::Value,
        ProviderError<F::Error>,
    >)
        ensures
            runs(self.store(), ty, *function, result),
    {
        match function {
            Candidate::Plain(_) => Err(ProviderError::NotAFunction),
            Candidate::Callable(constructor) => {
                if !constructor.signature.yields_one(ty) {
                    return Err(ProviderError::InvalidFunctionReturn);
                }
                match self.resolve(&constructor.signature.inputs) {
                    Err(missing) => Err(ProviderError::NotProvided { ty: missing }),
                    Ok(args) => {
                        let outcome = constructor.function.invoke(&args);
                        conclude_run(&constructor.signature, outcome)
                    },
                }
            },
        }
    }

    /// Runs `function` on the instances of its inputs, for its effect. The
    /// function must declare the error channel as its only output; and an
    /// instance of every input must be held, or the function is not
    /// invoked. Nothing is stored.
    pub fn just_run(&self, function: &Candidate<F>) -> (result: Result<
        (),
        ProviderError<F::Error>,
    >)
        ensures
            just_runs(self.store(), *function, result),
    {
        match function {
            Candidate::Plain(_) => Err(ProviderError::NotAFunction),
            Candidate::Callable(constructor) => {
                if !constructor.signature.yields_nothing() {
                    return Err(ProviderError::InvalidFunctionReturn);
                }
                match self.resolve(&constructor.signature.inputs) {
                    Err(missing) => Err(ProviderError::NotProvided { ty: missing }),
                    Ok(args) => {
                        let outcome = constructor.function.invoke(&args);
                        conclude_effect(&constructor.signature, outcome)
                    },
                }
            },
        }
    }

    /// Takes in what a function handed back to refresh instances: the
    /// values are stored under the declared output types, each replacing
    /// the instance held before, unless the outcome has another shape than
    /// declared. An error is handed on after the values were stored.
    pub fn refresh(&mut self, signature: &Signature, outcome: Outcome<F::Value, F::Error>) -> (result:
        Result<(), ProviderError<F::Error>>)
        ensures
            final(self).pending() == old(self).pending(),
            final(self).store() == refreshed(old(self).store(), *signature, outcome),
            result == effect_conclusion(*signature, outcome),
    {
        if !outcome.has_shape(signature) {
            return Err(ProviderError::InvalidFunctionReturn);
        }
        let Outcome { values, error } = outcome;
        self.store.insert_all(&signature.outputs, values);
        match error {
            Some(error) => Err(ProviderError::Failed(error)),
            None => Ok(()),
        }
    }

    /// Runs `function` on the instances of its inputs and stores every value
    /// it makes under its declared type, replacing the instance held before.
    /// An instance of every input must be held, or the function is not
    /// invoked and nothing changes. The pending constructors stay as they
    /// are.
    pub fn update(&mut self, function: &Candidate<F>) -> (result: Result<
        (),
        ProviderError<F::Error>,
    >)
        ensures
            final(self).pending() == old(self).pending(),
            updates(old(self).store(), *function, final(self).store(), result),
    {
        match function {
            Candidate::Plain(_) => Err(ProviderError::NotAFunction),
            Candidate::Callable(constructor) => {
                let outcome = match self.resolve(&constructor.signature.inputs) {
                    Err(missing) => {
                        return Err(ProviderError::NotProvided { ty: missing });
                    },
                    Ok(args) => constructor.function.invoke(&args),
                };
                self.refresh(&constructor.signature, outcome)
            },
        }
    }
}

} // verus!

use vstd::prelude::*;
use crate::provider::descriptor::TypeDescriptor;
use crate::provider::function::{Candidate, Constructor, Invoke};

verus! {

/// No two constructors of `pending` share an identity.
pub open spec fn distinct_ids<F>(pending: Seq<Constructor<F>>) -> bool {
    forall|i: int, j: int| 0 <= i < j < pending.len() ==> pending[i].id != pending[j].id
}

/// Whether a constructor with identity `id` is among `pending`.
pub open spec fn has_id<F>(pending: Seq<Constructor<F>>, id: u64) -> bool {
    exists|i: int| 0 <= i < pending.len() && #[trigger] pending[i].id == id
}

/// `pending` after `constructor` was registered: it joins at the end, unless
/// a constructor with its identity is there already.
pub open spec fn enlisted<F>(pending: Seq<Constructor<F>>, constructor: Constructor<F>) -> Seq<
    Constructor<F>,
> {
    if has_id(pending, constructor.id) {
        pending
    } else {
        pending.push(constructor)
    }
}

/// The identities of the constructors of `pending` that declare `ty` as an
/// input, in the order of `pending`: the bucket of `ty` in the pending index.
pub open spec fn bucket<F>(pending: Seq<Constructor<F>>, ty: TypeDescriptor) -> Seq<u64>
    decreases pending.len(),
{
    if pending.len() == 0 {
        seq![]
    } else if pending.last().signature.inputs@.contains(ty) {
        bucket(pending.drop_last(), ty).push(pending.last().id)
    } else {
        bucket(pending.drop_last(), ty)
    }
}

/// The pending index: for every type that a pending constructor declares
/// as an input, the identities of the constructors that declare it. A type
/// that no pending constructor declares has no bucket.
pub open spec fn pending_index<F>(pending: Seq<Constructor<F>>) -> Map<TypeDescriptor, Set<u64>> {
    Map::new(
        |ty: TypeDescriptor| bucket(pending, ty).len() > 0,
        |ty: TypeDescriptor| bucket(pending, ty).to_set(),
    )
}

/// A type has a bucket in the pending index exactly when a pending
/// constructor declares it as an input; so the index of no constructors is
/// empty, and a bucket whose last constructor leaves is gone.
pub proof fn lemma_index_domain<F>(pending: Seq<Constructor<F>>, ty: TypeDescriptor)
    ensures
        pending_index(pending).dom().contains(ty) <==> exists|i: int|
            0 <= i < pending.len() && (#[trigger] pending[i]).signature.inputs@.contains(ty),
    decreases pending.len(),
{
    if pending.len() > 0 {
        let front = pending.drop_last();
        lemma_index_domain(front, ty);
        if exists|i: int|
            0 <= i < pending.len() && (#[trigger] pending[i]).signature.inputs@.contains(ty) {
            let i = choose|i: int|
                0 <= i < pending.len() && (#[trigger] pending[i]).signature.inputs@.contains(ty);
            if i < pending.len() - 1 {
                assert(front[i] == pending[i]);
            }
        }
        if bucket(front, ty).len() > 0 {
            let i = choose|i: int|
                0 <= i < front.len() && (#[trigger] front[i]).signature.inputs@.contains(ty);
            assert(pending[i] == front[i]);
        }
        if pending.last().signature.inputs@.contains(ty) {
            assert(pending[pending.len() - 1] == pending.last());
        }
    }
}

/// A bucket of the pending index holds exactly the identities of the
/// constructors that declare its type as an input.
pub proof fn lemma_bucket_members<F>(pending: Seq<Constructor<F>>, ty: TypeDescriptor, id: u64)
    ensures
        bucket(pending, ty).contains(id) <==> exists|i: int|
            0 <= i < pending.len() && (#[trigger] pending[i]).id == id
                && pending[i].signature.inputs@.contains(ty),
    decreases pending.len(),
{
    if pending.len() > 0 {
        let front = pending.drop_last();
        let last = pending.last();
        lemma_bucket_members(front, ty, id);
        let held = bucket(front, ty);
        if last.signature.inputs@.contains(ty) {
            assert(held.push(last.id).last() == last.id);
            assert forall|k: int| 0 <= k < held.len() implies held.push(last.id)[k] == held[k] by {}
            if held.contains(id) {
                let k = choose|k: int| 0 <= k < held.len() && held[k] == id;
                assert(held.push(last.id)[k] == id);
            }
            if last.id == id {
                assert(held.push(last.id)[held.len() as int] == id);
                assert(pending[pending.len() - 1].id == id);
            }
        }
        if bucket(pending, ty).contains(id) {
            if held.contains(id) {
                let i = choose|i: int|
                    0 <= i < front.len() && (#[trigger] front[i]).id == id
                        && front[i].signature.inputs@.contains(ty);
                assert(pending[i] == front[i]);
            } else {
                assert(last.id == id && last.signature.inputs@.contains(ty));
                assert(pending[pending.len() - 1] == last);
            }
        }
        if exists|i: int|
            0 <= i < pending.len() && (#[trigger] pending[i]).id == id
                && pending[i].signature.inputs@.contains(ty) {
            let i = choose|i: int|
                0 <= i < pending.len() && (#[trigger] pending[i]).id == id
                    && pending[i].signature.inputs@.contains(ty);
            if i < pending.len() - 1 {
                assert(front[i] == pending[i]);
            }
        }
    }
}

/// A constructor that is registered stands in the bucket of every type
/// that it declares as an input.
pub proof fn lemma_enlisted_in_buckets<F>(
    pending: Seq<Constructor<F>>,
    constructor: Constructor<F>,
    ty: TypeDescriptor,
)
    requires
        !has_id(pending, constructor.id),
        constructor.signature.inputs@.contains(ty),
    ensures
        bucket(enlisted(pending, constructor), ty).contains(constructor.id),
{
    let longer = enlisted(pending, constructor);
    lemma_bucket_members(longer, ty, constructor.id);
    assert(longer[pending.len() as int] == constructor);
}

/// A constructor that leaves the pending ones leaves every bucket of the
/// pending index at once: its identity stands in none of them afterwards.
pub proof fn lemma_removed_from_buckets<F>(
    pending: Seq<Constructor<F>>,
    position: int,
    ty: TypeDescriptor,
)
    requires
        distinct_ids(pending),
        0 <= position < pending.len(),
    ensures
        !bucket(pending.remove(position), ty).contains(pending[position].id),
{
    let rest = pending.remove(position);
    let id = pending[position].id;
    lemma_bucket_members(rest, ty, id);
    if bucket(rest, ty).contains(id) {
        let i = choose|i: int|
            0 <= i < rest.len() && (#[trigger] rest[i]).id == id
                && rest[i].signature.inputs@.contains(ty);
        if i < position {
            assert(rest[i] == pending[i]);
        } else {
            assert(rest[i] == pending[i + 1]);
        }
        assert(false);
    }
}

/// Registering is idempotent: a constructor whose identity is pending
/// already changes nothing, so registering a constructor twice is
/// registering it once.
pub proof fn lemma_enlist_idempotent<F>(
    pending: Seq<Constructor<F>>,
    constructor: Constructor<F>,
    again: Constructor<F>,
)
    requires
        again.id == constructor.id,
    ensures
        enlisted(enlisted(pending, constructor), again) == enlisted(pending, constructor),
{
    let once = enlisted(pending, constructor);
    if !has_id(pending, constructor.id) {
        assert(once[pending.len() as int].id == again.id);
    }
    assert(has_id(once, again.id));
}

/// Registering keeps the identities apart.
pub proof fn lemma_enlist_distinct<F>(pending: Seq<Constructor<F>>, constructor: Constructor<F>)
    requires
        distinct_ids(pending),
    ensures
        distinct_ids(enlisted(pending, constructor)),
{
    if !has_id(pending, constructor.id) {
        let longer = pending.push(constructor);
        assert forall|i: int, j: int| 0 <= i < j < longer.len() implies longer[i].id
            != longer[j].id by {
            if j == pending.len() {
                assert(pending[i].id != constructor.id);
            }
        }
    }
}

/// The identities of all constructors of `pending`, in order.
pub open spec fn ids_of<F>(pending: Seq<Constructor<F>>) -> Seq<u64> {
    Seq::new(pending.len(), |i: int| pending[i].id)
}

/// The constructors that were registered and have not run yet, each
/// identity at most once.
pub struct Registry<F> {
    constructors: Vec<Constructor<F>>,
}

impl<F> View for Registry<F> {
    type V = Seq<Constructor<F>>;

    closed spec fn view(&self) -> Seq<Constructor<F>> {
        self.constructors@
    }
}

impl<F> Registry<F> {
    #[verifier::type_invariant]
    pub open spec fn well_formed(&self) -> bool {
        distinct_ids(self@)
    }

    /// A registry without constructors.
    pub fn new() -> (registry: Self)
        ensures
            registry@ == Seq::<Constructor<F>>::empty(),
    {
        Registry { constructors: Vec::new() }
    }

    /// How many constructors are pending.
    pub fn len(&self) -> (n: usize)
        ensures
            n == self@.len(),
    {
        self.constructors.len()
    }

    /// The pending constructor at `position`.
    pub fn get(&self, position: usize) -> (constructor: &Constructor<F>)
        requires
            position < self@.len(),
        ensures
            *constructor == self@[position as int],
            distinct_ids(self@),
    {
        proof {
            use_type_invariant(self);
        }
        &self.constructors[position]
    }

    /// Whether a constructor with identity `id` is pending.
    pub fn knows(&self, id: u64) -> (known: bool)
        ensures
            known == has_id(self@, id),
    {
        let mut i: usize = 0;
        while i < self.constructors.len()
            invariant
                i <= self.constructors@.len(),
                forall|j: int| 0 <= j < i ==> self.constructors@[j].id != id,
            decreases self.constructors@.len() - i,
        {
            if self.constructors[i].id == id {
                return true;
            }
            i += 1;
        }
        false
    }

    /// Registers `constructor`; a constructor whose identity is pending
    /// already is dropped.
    pub fn enlist(&mut self, constructor: Constructor<F>)
        ensures
            final(self)@ == enlisted(old(self)@, constructor),
            distinct_ids(final(self)@),
    {
        proof {
            use_type_invariant(&*self);
        }
        if !self.knows(constructor.id) {
            let mut constructors: Vec<Constructor<F>> = Vec::new();
            std::mem::swap(&mut constructors, &mut self.constructors);
            constructors.push(constructor);
            self.constructors = constructors;
        }
    }

    /// Takes the constructor at `position` out of the registry.
    pub fn remove(&mut self, position: usize) -> (constructor: Constructor<F>)
        requires
            position < old(self)@.len(),
        ensures
            constructor == old(self)@[position as int],
            final(self)@ == old(self)@.remove(position as int),
            distinct_ids(final(self)@),
    {
        proof {
            use_type_invariant(&*self);
        }
        let mut constructors: Vec<Constructor<F>> = Vec::new();
        std::mem::swap(&mut constructors, &mut self.constructors);
        let constructor = constructors.remove(position);
        self.constructors = constructors;
        constructor
    }

    /// The identities of the pending constructors, in order.
    pub fn ids(&self) -> (ids: Vec<u64>)
        ensures
            ids@ == ids_of(self@),
    {
        let mut ids: Vec<u64> = Vec::new();
        let mut i: usize = 0;
        while i < self.constructors.len()
            invariant
                i <= self.constructors@.len(),
                ids@ == ids_of(self.constructors@.take(i as int)),
            decreases self.constructors@.len() - i,
        {
            ids.push(self.constructors[i].id);
            proof {
                assert(ids@ =~= ids_of(self.constructors@.take(i + 1)));
            }
            i += 1;
        }
        proof {
            assert(self.constructors@.take(i as int) =~= self.constructors@);
        }
        ids
    }

    /// The identities of the pending constructors that consume `ty`.
    pub fn consumers(&self, ty: TypeDescriptor) -> (ids: Vec<u64>)
        ensures
            ids@ == bucket(self@, ty),
    {
        let mut ids: Vec<u64> = Vec::new();
        let mut i: usize = 0;
        while i < self.constructors.len()
            invariant
                i <= self.constructors@.len(),
                ids@ == bucket(self.constructors@.take(i as int), ty),
            decreases self.constructors@.len() - i,
        {
            proof {
                assert(self.constructors@.take(i + 1).drop_last() =~= self.constructors@.take(
                    i as int,
                ));
            }
            if declares(&self.constructors[i].signature.inputs, ty) {
                ids.push(self.constructors[i].id);
            }
            i += 1;
        }
        proof {
            assert(self.constructors@.take(i as int) =~= self.constructors@);
        }
        ids
    }
}

/// Whether `ty` is among `types`.
pub fn declares(types: &Vec<TypeDescriptor>, ty: TypeDescriptor) -> (found: bool)
    ensures
        found == types@.contains(ty),
{
    let mut i: usize = 0;
    while i < types.len()
        invariant
            i <= types@.len(),
            forall|j: int| 0 <= j < i ==> types@[j] != ty,
        decreases types@.len() - i,
    {
        if types[i] == ty {
            return true;
        }
        i += 1;
    }
    false
}

/// How many candidates stand before the first plain value.
pub open spec fn callable_prefix<F: Invoke>(candidates: Seq<Candidate<F>>) -> int
    decreases candidates.len(),
{
    if candidates.len() == 0 || candidates[0] is Plain {
        0
    } else {
        1 + callable_prefix(candidates.drop_first())
    }
}

/// `pending` after the functions among `candidates` were registered, one
/// after the other.
pub open spec fn registered<F: Invoke>(
    pending: Seq<Constructor<F>>,
    candidates: Seq<Candidate<F>>,
) -> Seq<Constructor<F>>
    decreases candidates.len(),
{
    if candidates.len() == 0 {
        pending
    } else {
        let before = registered(pending, candidates.drop_last());
        match candidates.last() {
            Candidate::Callable(constructor) => enlisted(before, constructor),
            Candidate::Plain(_) => before,
        }
    }
}

pub(crate) proof fn lemma_callable_prefix<F: Invoke>(candidates: Seq<Candidate<F>>, n: int)
    requires
        0 <= n <= candidates.len(),
        forall|j: int| 0 <= j < n ==> candidates[j] is Callable,
        n < candidates.len() ==> candidates[n] is Plain,
    ensures
        callable_prefix(candidates) == n,
    decreases candidates.len(),
{
    if n > 0 {
        let rest = candidates.drop_first();
        assert forall|j: int| 0 <= j < n - 1 implies rest[j] is Callable by {
            assert(rest[j] == candidates[j + 1]);
        }
        if n - 1 < rest.len() {
            assert(rest[n - 1] == candidates[n]);
        }
        lemma_callable_prefix(rest, n - 1);
    }
}

} // verus!

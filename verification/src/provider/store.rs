use vstd::prelude::*;
use crate::provider::descriptor::TypeDescriptor;

verus! {

struct Slot<V> {
    key: TypeDescriptor,
    value: V,
}

/// The materialized instances, at most one per type.
pub struct ValueStore<V> {
    slots: Vec<Slot<V>>,
}

spec fn distinct_keys<V>(slots: Seq<Slot<V>>) -> bool {
    forall|i: int, j: int| 0 <= i < j < slots.len() ==> slots[i].key != slots[j].key
}

spec fn as_map<V>(slots: Seq<Slot<V>>) -> Map<TypeDescriptor, V>
    decreases slots.len(),
{
    if slots.len() == 0 {
        Map::empty()
    } else {
        as_map(slots.drop_last()).insert(slots.last().key, slots.last().value)
    }
}

proof fn lemma_as_map_dom<V>(slots: Seq<Slot<V>>, key: TypeDescriptor)
    ensures
        as_map(slots).dom().contains(key) <==> exists|i: int|
            0 <= i < slots.len() && #[trigger] slots[i].key == key,
    decreases slots.len(),
{
    if slots.len() > 0 {
        let front = slots.drop_last();
        lemma_as_map_dom(front, key);
        if as_map(slots).dom().contains(key) {
            if slots.last().key == key {
                assert(slots[slots.len() - 1].key == key);
            } else {
                let i = choose|i: int| 0 <= i < front.len() && #[trigger] front[i].key == key;
                assert(slots[i].key == key);
            }
        }
        if exists|i: int| 0 <= i < slots.len() && #[trigger] slots[i].key == key {
            let i = choose|i: int| 0 <= i < slots.len() && #[trigger] slots[i].key == key;
            if i < slots.len() - 1 {
                assert(front[i].key == key);
            }
        }
    }
}

proof fn lemma_as_map_at<V>(slots: Seq<Slot<V>>, i: int)
    requires
        distinct_keys(slots),
        0 <= i < slots.len(),
    ensures
        as_map(slots).dom().contains(slots[i].key),
        as_map(slots)[slots[i].key] == slots[i].value,
    decreases slots.len(),
{
    let front = slots.drop_last();
    if i < slots.len() - 1 {
        assert(distinct_keys(front));
        lemma_as_map_at(front, i);
        assert(front[i] == slots[i]);
    }
}

proof fn lemma_as_map_overwrite<V>(slots: Seq<Slot<V>>, i: int, value: V)
    requires
        distinct_keys(slots),
        0 <= i < slots.len(),
    ensures
        distinct_keys(slots.update(i, Slot { key: slots[i].key, value })),
        as_map(slots.update(i, Slot { key: slots[i].key, value })) == as_map(slots).insert(
            slots[i].key,
            value,
        ),
    decreases slots.len(),
{
    let key = slots[i].key;
    let next = slots.update(i, Slot { key, value });
    let front = slots.drop_last();
    if i == slots.len() - 1 {
        assert(next.drop_last() =~= front);
        assert(as_map(next) =~= as_map(slots).insert(key, value));
    } else {
        assert(distinct_keys(front));
        lemma_as_map_overwrite(front, i, value);
        assert(next.drop_last() =~= front.update(i, Slot { key, value }));
        assert(next.last() == slots.last());
        assert(slots.last().key != key);
        assert(as_map(next) =~= as_map(slots).insert(key, value));
    }
}

/// `store` after `values` were written to it under the types `outputs`,
/// position by position and from the first on: a later value replaces an
/// earlier one of its type, and any instance held before. Where one of the
/// two is longer than the other, what has no partner is left out.
pub open spec fn stored<V>(
    store: Map<TypeDescriptor, V>,
    outputs: Seq<TypeDescriptor>,
    values: Seq<V>,
) -> Map<TypeDescriptor, V>
    decreases values.len(),
{
    if values.len() == 0 || outputs.len() == 0 {
        store
    } else {
        stored(store.insert(outputs[0], values[0]), outputs.drop_first(), values.drop_first())
    }
}

/// Writing never removes an entry: what was held stays held.
pub proof fn lemma_stored_keeps_entries<V>(
    store: Map<TypeDescriptor, V>,
    outputs: Seq<TypeDescriptor>,
    values: Seq<V>,
)
    ensures
        store.dom().subset_of(stored(store, outputs, values).dom()),
    decreases values.len(),
{
    if values.len() > 0 && outputs.len() > 0 {
        lemma_stored_keeps_entries(
            store.insert(outputs[0], values[0]),
            outputs.drop_first(),
            values.drop_first(),
        );
    }
}

/// Writing is whole: where there is a value for every type, every one of
/// the types is held afterwards.
pub proof fn lemma_stored_holds_all<V>(
    store: Map<TypeDescriptor, V>,
    outputs: Seq<TypeDescriptor>,
    values: Seq<V>,
)
    requires
        outputs.len() == values.len(),
    ensures
        forall|i: int|
            0 <= i < outputs.len() ==> stored(store, outputs, values).dom().contains(
                #[trigger] outputs[i],
            ),
    decreases values.len(),
{
    if values.len() > 0 {
        let first = store.insert(outputs[0], values[0]);
        let rest = outputs.drop_first();
        lemma_stored_holds_all(first, rest, values.drop_first());
        lemma_stored_keeps_entries(first, rest, values.drop_first());
        assert forall|i: int| 0 <= i < outputs.len() implies stored(
            store,
            outputs,
            values,
        ).dom().contains(#[trigger] outputs[i]) by {
            if i > 0 {
                assert(outputs[i] == rest[i - 1]);
            } else {
                assert(first.dom().contains(outputs[0]));
            }
        }
    }
}

/// Writing touches the written types only: an entry of any other type is
/// what it was.
pub proof fn lemma_stored_elsewhere<V>(
    store: Map<TypeDescriptor, V>,
    outputs: Seq<TypeDescriptor>,
    values: Seq<V>,
    ty: TypeDescriptor,
)
    requires
        !outputs.contains(ty),
    ensures
        stored(store, outputs, values).dom().contains(ty) == store.dom().contains(ty),
        stored(store, outputs, values)[ty] == store[ty],
    decreases values.len(),
{
    if values.len() > 0 && outputs.len() > 0 {
        assert(outputs[0] != ty);
        let rest = outputs.drop_first();
        assert forall|i: int| 0 <= i < rest.len() implies rest[i] != ty by {
            assert(rest[i] == outputs[i + 1]);
        }
        lemma_stored_elsewhere(store.insert(outputs[0], values[0]), rest, values.drop_first(), ty);
    }
}

impl<V> View for ValueStore<V> {
    type V = Map<TypeDescriptor, V>;

    closed spec fn view(&self) -> Map<TypeDescriptor, V> {
        as_map(self.slots@)
    }
}

impl<V> ValueStore<V> {
    #[verifier::type_invariant]
    spec fn well_formed(&self) -> bool {
        distinct_keys(self.slots@)
    }

    /// An empty store.
    pub fn new() -> (store: Self)
        ensures
            store@ == Map::<TypeDescriptor, V>::empty(),
    {
        ValueStore { slots: Vec::new() }
    }

    fn position(&self, ty: TypeDescriptor) -> (found: Option<usize>)
        ensures
            match found {
                Some(i) => i < self.slots@.len() && self.slots@[i as int].key == ty,
                None => forall|i: int| 0 <= i < self.slots@.len() ==> self.slots@[i].key != ty,
            },
    {
        let mut i: usize = 0;
        while i < self.slots.len()
            invariant
                i <= self.slots@.len(),
                forall|j: int| 0 <= j < i ==> self.slots@[j].key != ty,
            decreases self.slots@.len() - i,
        {
            if self.slots[i].key == ty {
                return Some(i);
            }
            i += 1;
        }
        None
    }

    /// Whether the store holds an instance of `ty`.
    pub fn contains(&self, ty: TypeDescriptor) -> (present: bool)
        ensures
            present == self@.dom().contains(ty),
    {
        proof {
            lemma_as_map_dom(self.slots@, ty);
        }
        self.position(ty).is_some()
    }

    /// The instance of `ty`, if the store holds one.
    pub fn get(&self, ty: TypeDescriptor) -> (found: Option<&V>)
        ensures
            found == (if self@.dom().contains(ty) {
                Some(&self@[ty])
            } else {
                None
            }),
    {
        proof {
            use_type_invariant(self);
            lemma_as_map_dom(self.slots@, ty);
        }
        match self.position(ty) {
            Some(i) => {
                proof {
                    lemma_as_map_at(self.slots@, i as int);
                }
                Some(&self.slots[i].value)
            },
            None => None,
        }
    }

    /// Stores `value` as the instance of `ty`, replacing the one held before.
    pub fn insert(&mut self, ty: TypeDescriptor, value: V)
        ensures
            final(self)@ == old(self)@.insert(ty, value),
    {
        proof {
            use_type_invariant(&*self);
        }
        let found = self.position(ty);
        let mut slots: Vec<Slot<V>> = Vec::new();
        std::mem::swap(&mut slots, &mut self.slots);
        match found {
            Some(i) => {
                proof {
                    lemma_as_map_overwrite(slots@, i as int, value);
                }
                slots.set(i, Slot { key: ty, value });
            },
            None => {
                proof {
                    assert(slots@.push(Slot { key: ty, value }).drop_last() =~= slots@);
                }
                slots.push(Slot { key: ty, value });
            },
        }
        self.slots = slots;
    }

    /// Stores each of `values` as the instance of the type at its position
    /// in `types`, from the first on.
    pub fn insert_all(&mut self, types: &Vec<TypeDescriptor>, values: Vec<V>)
        ensures
            final(self)@ == stored(old(self)@, types@, values@),
    {
        let mut k: usize = 0;
        proof {
            assert(types@.skip(0) =~= types@);
            assert(values@.skip(0) =~= values@);
        }
        for value in it: values
            invariant
                it.seq() == values@,
                k <= types@.len(),
                k <= it.index(),
                k < types@.len() ==> k == it.index(),
                stored(old(self)@, types@, values@) == stored(
                    self@,
                    types@.skip(k as int),
                    values@.skip(it.index()),
                ),
        {
            if k < types.len() {
                proof {
                    assert(types@.skip(k as int).drop_first() =~= types@.skip(k + 1));
                    assert(values@.skip(it.index()).drop_first() =~= values@.skip(it.index() + 1));
                }
                self.insert(types[k], value);
                k += 1;
            }
        }
    }
}

} // verus!

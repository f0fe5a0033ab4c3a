use vstd::prelude::*;
use crate::provider::container::Provider;
use crate::provider::descriptor::TypeDescriptor;
use crate::provider::error::ProviderError;
use crate::provider::function::{Constructor, Invoke};
use crate::provider::registry::{distinct_ids, has_id, ids_of};
use crate::provider::resolution::{resolves, Firing, Resolution};
use crate::provider::store::{lemma_stored_holds_all, lemma_stored_keeps_entries};

verus! {

/// At most one instance per type: two values that a container holds for
/// the same type are the same value.
pub proof fn lemma_singleton<F: Invoke>(
    provider: Provider<F>,
    ty: TypeDescriptor,
    first: F::Value,
    second: F::Value,
)
    requires
        provider.store().contains_pair(ty, first),
        provider.store().contains_pair(ty, second),
    ensures
        first == second,
{
}

/// A course without its last firing is a course in which every firing
/// completed, and its end admits the firing that was left out.
pub proof fn lemma_course_front<F: Invoke>(start: Resolution<F>, trace: Seq<Firing<F>>)
    requires
        start.follows(trace),
        trace.len() > 0,
    ensures
        start.follows(trace.drop_last()),
        start.unbroken(trace.drop_last()),
        start.run(trace.drop_last()).admits(trace.last()),
{
    let front = trace.drop_last();
    assert forall|k: int| 0 <= k < front.len() implies {
        &&& (#[trigger] start.run(front.take(k))).admits(front[k])
        &&& k < front.len() - 1 ==> start.run(front.take(k)).completes(front[k])
    } by {
        assert(front.take(k) =~= trace.take(k));
        assert(start.run(trace.take(k)).admits(trace[k]));
    }
    if front.len() > 0 {
        let k = front.len() - 1;
        assert(trace.take(k) =~= front.drop_last());
        assert(start.run(trace.take(k)).admits(trace[k]));
    }
    assert(trace.take(trace.len() - 1) =~= front);
    assert(start.run(trace.take(trace.len() - 1)).admits(trace[trace.len() - 1]));
}

/// Every firing that completes takes one constructor from the pending
/// ones, and nothing else does: after a course of completed firings, as
/// many constructors are gone as there were firings.
pub proof fn lemma_course_shrinks<F: Invoke>(start: Resolution<F>, trace: Seq<Firing<F>>)
    requires
        start.follows(trace),
        start.unbroken(trace),
    ensures
        start.run(trace).pending.len() + trace.len() == start.pending.len(),
    decreases trace.len(),
{
    if trace.len() > 0 {
        lemma_course_front(start, trace);
        lemma_course_shrinks(start, trace.drop_last());
    }
}

/// Resolution ends: no course has more firings than there were pending
/// constructors to begin with.
pub proof fn lemma_course_bounded<F: Invoke>(start: Resolution<F>, trace: Seq<Firing<F>>)
    requires
        start.follows(trace),
    ensures
        trace.len() <= start.pending.len(),
{
    if trace.len() > 0 {
        lemma_course_front(start, trace);
        lemma_course_shrinks(start, trace.drop_last());
    }
}

/// Resolution makes and replaces instances and never takes one away: a
/// type that was held at the start is held at the end.
pub proof fn lemma_course_keeps_entries<F: Invoke>(start: Resolution<F>, trace: Seq<Firing<F>>)
    ensures
        start.store.dom().subset_of(start.run(trace).store.dom()),
    decreases trace.len(),
{
    if trace.len() > 0 {
        lemma_course_keeps_entries(start, trace.drop_last());
        let before = start.run(trace.drop_last());
        let signature = before.pending[trace.last().position].signature;
        lemma_stored_keeps_entries(before.store, signature.outputs@, trace.last().outcome.values@);
    }
}

/// Resolution ends in one of two ways when no constructor fails: with
/// success and no constructor left, or with the report of the
/// constructors that are stuck.
pub proof fn lemma_resolution_ends<F: Invoke>(
    start: Resolution<F>,
    trace: Seq<Firing<F>>,
    end: Resolution<F>,
    result: Result<(), ProviderError<F::Error>>,
)
    requires
        resolves(start, trace, end, result),
        start.unbroken(trace),
    ensures
        match result {
            Ok(()) => end.pending.len() == 0,
            Err(ProviderError::MaybeCyclicDependency { stuck }) => end.pending.len() > 0
                && end.stalled() && stuck@ == ids_of(end.pending),
            Err(_) => false,
        },
{
}

/// Resolution that succeeds has invoked every constructor that was
/// pending, each of them once, and left none.
pub proof fn lemma_success_runs_all<F: Invoke>(
    start: Resolution<F>,
    trace: Seq<Firing<F>>,
    end: Resolution<F>,
)
    requires
        resolves(start, trace, end, Ok(())),
    ensures
        trace.len() == start.pending.len(),
        end.pending.len() == 0,
{
    lemma_course_shrinks(start, trace);
}

/// Where every pending constructor lacks an input from the start, as in a
/// cycle of constructors that wait for one another, resolution invokes
/// none of them, makes nothing, and reports all of them as stuck.
pub proof fn lemma_stalled_start<F: Invoke>(
    start: Resolution<F>,
    trace: Seq<Firing<F>>,
    end: Resolution<F>,
    result: Result<(), ProviderError<F::Error>>,
)
    requires
        start.stalled(),
        start.pending.len() > 0,
        resolves(start, trace, end, result),
    ensures
        trace.len() == 0,
        end == start,
        result matches Err(ProviderError::MaybeCyclicDependency { stuck }) && stuck@ == ids_of(
            start.pending,
        ),
{
    if trace.len() > 0 {
        assert(trace.take(0) =~= Seq::<Firing<F>>::empty());
        assert(start.run(trace.take(0)).admits(trace[0]));
        assert(false);
    }
}

/// A course can be cut anywhere: it ends where its second part ends when
/// started at the end of its first part.
pub proof fn lemma_course_split<F: Invoke>(start: Resolution<F>, trace: Seq<Firing<F>>, n: int)
    requires
        0 <= n <= trace.len(),
    ensures
        start.run(trace) == start.run(trace.take(n)).run(trace.skip(n)),
    decreases trace.len(),
{
    if n == trace.len() {
        assert(trace.take(n) =~= trace);
        assert(trace.skip(n) =~= Seq::<Firing<F>>::empty());
    } else {
        let front = trace.drop_last();
        lemma_course_split(start, front, n);
        assert(front.take(n) =~= trace.take(n));
        assert(front.skip(n) =~= trace.skip(n).drop_last());
        assert(trace.skip(n).last() == trace.last());
    }
}

/// The outputs of one invocation are there together. Once a firing whose
/// outcome has the declared shape has happened, the store holds an instance
/// for every output that the constructor declares, at the end of that
/// firing and for the rest of the course: no state between two firings
/// holds some of them and lacks others.
pub proof fn lemma_outputs_held_together<F: Invoke>(
    start: Resolution<F>,
    trace: Seq<Firing<F>>,
    k: int,
    output: int,
)
    requires
        0 <= k < trace.len(),
        trace[k].outcome.fits(&start.run(trace.take(k)).pending[trace[k].position].signature),
        0 <= output < start.run(trace.take(k)).pending[trace[k].position].signature.outputs@.len(),
    ensures
        start.run(trace).store.dom().contains(
            start.run(trace.take(k)).pending[trace[k].position].signature.outputs@[output],
        ),
{
    let before = start.run(trace.take(k));
    let signature = before.pending[trace[k].position].signature;
    assert(trace.take(k + 1).drop_last() =~= trace.take(k));
    assert(trace.take(k + 1).last() == trace[k]);
    let after = start.run(trace.take(k + 1));
    assert(after == before.after(trace[k]));
    lemma_stored_holds_all(before.store, signature.outputs@, trace[k].outcome.values@);
    assert(after.store.dom().contains(signature.outputs@[output]));
    lemma_course_split(start, trace, k + 1);
    lemma_course_keeps_entries(after, trace.skip(k + 1));
}

/// Every firing of a course in which all firings completed has an outcome
/// of the declared shape and without an error.
pub proof fn lemma_course_completes<F: Invoke>(
    start: Resolution<F>,
    trace: Seq<Firing<F>>,
    k: int,
)
    requires
        start.follows(trace),
        start.unbroken(trace),
        0 <= k < trace.len(),
    ensures
        start.run(trace.take(k)).admits(trace[k]),
        start.run(trace.take(k)).completes(trace[k]),
        start.run(trace.take(k + 1)) == start.run(trace.take(k)).after(trace[k]),
{
    if k == trace.len() - 1 {
        assert(trace.take(k) =~= trace.drop_last());
    }
    assert(trace.take(k + 1).drop_last() =~= trace.take(k));
    assert(trace.take(k + 1).last() == trace[k]);
}

/// No constructor is lost: one that was pending at the start of a course
/// in which all firings completed is pending at its end, or one of the
/// firings invoked it.
pub proof fn lemma_fired_or_left<F: Invoke>(
    start: Resolution<F>,
    trace: Seq<Firing<F>>,
    constructor: Constructor<F>,
)
    requires
        start.follows(trace),
        start.unbroken(trace),
        start.pending.contains(constructor),
    ensures
        start.run(trace).pending.contains(constructor) || exists|k: int|
            0 <= k < trace.len() && #[trigger] start.fired(trace, k) == constructor,
    decreases trace.len(),
{
    if trace.len() > 0 {
        let front = trace.drop_last();
        let last = trace.last();
        lemma_course_front(start, trace);
        lemma_fired_or_left(start, front, constructor);
        let before = start.run(front);
        if before.pending.contains(constructor) {
            let i = choose|i: int| 0 <= i < before.pending.len() && before.pending[i] == constructor;
            let after = before.pending.remove(last.position);
            if i == last.position {
                assert(trace.take(trace.len() - 1) =~= front);
                assert(start.fired(trace, trace.len() - 1) == constructor);
            } else if i < last.position {
                assert(after[i] == constructor);
            } else {
                assert(after[i - 1] == constructor);
            }
        } else {
            let k = choose|k: int|
                0 <= k < front.len() && #[trigger] start.fired(front, k) == constructor;
            assert(front.take(k) =~= trace.take(k));
            assert(start.fired(trace, k) == constructor);
        }
    }
}

/// Resolution that succeeds has made everything: the store holds an
/// instance for every output that any of the constructors declares which
/// were pending at the start.
pub proof fn lemma_success_holds_outputs<F: Invoke>(
    start: Resolution<F>,
    trace: Seq<Firing<F>>,
    end: Resolution<F>,
    i: int,
    output: int,
)
    requires
        resolves(start, trace, end, Ok(())),
        0 <= i < start.pending.len(),
        0 <= output < start.pending[i].signature.outputs@.len(),
    ensures
        end.store.dom().contains(start.pending[i].signature.outputs@[output]),
{
    let constructor = start.pending[i];
    lemma_fired_or_left(start, trace, constructor);
    let k = choose|k: int| 0 <= k < trace.len() && #[trigger] start.fired(trace, k) == constructor;
    lemma_course_completes(start, trace, k);
    lemma_outputs_held_together(start, trace, k, output);
}

/// Along a course in which all firings completed, the pending
/// constructors keep apart by identity, and no identity turns up that was
/// not pending at the start.
pub proof fn lemma_course_keeps_identities<F: Invoke>(
    start: Resolution<F>,
    trace: Seq<Firing<F>>,
    id: u64,
)
    requires
        start.follows(trace),
        start.unbroken(trace),
        distinct_ids(start.pending),
    ensures
        distinct_ids(start.run(trace).pending),
        has_id(start.run(trace).pending, id) ==> has_id(start.pending, id),
    decreases trace.len(),
{
    if trace.len() > 0 {
        let front = trace.drop_last();
        let last = trace.last();
        lemma_course_front(start, trace);
        lemma_course_keeps_identities(start, front, id);
        let before = start.run(front).pending;
        let after = before.remove(last.position);
        assert forall|a: int, b: int| 0 <= a < b < after.len() implies after[a].id
            != after[b].id by {
            let a0 = if a < last.position { a } else { a + 1 };
            let b0 = if b < last.position { b } else { b + 1 };
            assert(after[a] == before[a0]);
            assert(after[b] == before[b0]);
        }
        if has_id(after, id) {
            let a = choose|a: int| 0 <= a < after.len() && #[trigger] after[a].id == id;
            let a0 = if a < last.position { a } else { a + 1 };
            assert(before[a0].id == id);
        }
    }
}

/// A constructor that completed is gone for good: its identity is not
/// pending at any later point of the course.
pub proof fn lemma_fired_stays_out<F: Invoke>(
    start: Resolution<F>,
    trace: Seq<Firing<F>>,
    k: int,
    later: int,
)
    requires
        start.follows(trace),
        start.unbroken(trace),
        distinct_ids(start.pending),
        0 <= k < later <= trace.len(),
    ensures
        !has_id(start.run(trace.take(later)).pending, start.fired(trace, k).id),
    decreases later - k,
{
    let id = start.fired(trace, k).id;
    let before = start.run(trace.take(later - 1));
    let firing = trace[later - 1];
    lemma_course_completes(start, trace, later - 1);
    let after = before.pending.remove(firing.position);
    assert(start.run(trace.take(later)).pending == after);
    lemma_prefix_is_course(start, trace, later - 1);
    lemma_course_keeps_identities(start, trace.take(later - 1), id);
    if later - 1 == k {
        if has_id(after, id) {
            let a = choose|a: int| 0 <= a < after.len() && #[trigger] after[a].id == id;
            let a0 = if a < firing.position { a } else { a + 1 };
            assert(after[a] == before.pending[a0]);
            assert(false);
        }
    } else {
        lemma_fired_stays_out(start, trace, k, later - 1);
        if has_id(after, id) {
            let a = choose|a: int| 0 <= a < after.len() && #[trigger] after[a].id == id;
            let a0 = if a < firing.position { a } else { a + 1 };
            assert(before.pending[a0].id == id);
            assert(false);
        }
    }
}

/// The beginning of a course in which all firings completed is such a
/// course itself.
pub proof fn lemma_prefix_is_course<F: Invoke>(
    start: Resolution<F>,
    trace: Seq<Firing<F>>,
    n: int,
)
    requires
        start.follows(trace),
        start.unbroken(trace),
        0 <= n <= trace.len(),
    ensures
        start.follows(trace.take(n)),
        start.unbroken(trace.take(n)),
    decreases trace.len() - n,
{
    if n == trace.len() {
        assert(trace.take(n) =~= trace);
    } else {
        lemma_prefix_is_course(start, trace, n + 1);
        let longer = trace.take(n + 1);
        lemma_course_front(start, longer);
        assert(longer.drop_last() =~= trace.take(n));
    }
}

/// No constructor runs twice: two firings of a course in which all firings
/// completed invoke constructors of different identities.
pub proof fn lemma_fires_once<F: Invoke>(
    start: Resolution<F>,
    trace: Seq<Firing<F>>,
    first: int,
    second: int,
)
    requires
        start.follows(trace),
        start.unbroken(trace),
        distinct_ids(start.pending),
        0 <= first < second < trace.len(),
    ensures
        start.fired(trace, first).id != start.fired(trace, second).id,
{
    lemma_fired_stays_out(start, trace, first, second);
    lemma_course_completes(start, trace, second);
    let pending = start.run(trace.take(second)).pending;
    assert(pending[trace[second].position] == start.fired(trace, second));
}

} // verus!

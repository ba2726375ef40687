//! What holds of the cache over whole histories: the laws that relate its
//! operations to one another.

use crate::model::{
    lemma_begin_flush_wf, lemma_finish_flush_wf, lemma_last_written_is_record, lemma_put_wf,
    lemma_replay_lookup, last_written, replay, CacheModel,
};
use crate::store::{lookup, Key, Value};
use vstd::prelude::*;

verus! {

/// One operation on a cache.
pub enum Step {
    /// A write of a value under a key.
    Put(Key, Value),
    /// The start of a flush.
    BeginFlush,
    /// The end of the flush in flight.
    FinishFlush,
    /// A reader takes a lease on the active buffer.
    Acquire,
    /// A reader gives back a lease on the buffer with the given index.
    Release(int),
}

/// The state after one operation.
pub open spec fn step(state: CacheModel, step: Step) -> CacheModel {
    match step {
        Step::Put(key, value) => state.put(key, value),
        Step::BeginFlush => state.begin_flush(),
        Step::FinishFlush => state.finish_flush(),
        Step::Acquire => state.acquire(),
        Step::Release(index) => state.release(index),
    }
}

/// The state after the operations of `steps`, first to last.
pub open spec fn run(state: CacheModel, steps: Seq<Step>) -> CacheModel
    decreases steps.len(),
{
    if steps.len() == 0 {
        state
    } else {
        step(run(state, steps.drop_last()), steps.last())
    }
}

/// Whether one of `steps` wrote `value` under `key`.
pub open spec fn was_put(steps: Seq<Step>, key: Key, value: Value) -> bool {
    exists|i: int| 0 <= i < steps.len() && #[trigger] steps[i] == Step::Put(key, value)
}

/// Whether every entry of every buffer, and every pending record, of `state`
/// was written by one of `steps`.
pub open spec fn holds_only_writes(state: CacheModel, steps: Seq<Step>) -> bool {
    &&& forall|index: int, key: Key|
        0 <= index < 2 && #[trigger] state.buffers[index].contains_key(key) ==> was_put(
            steps,
            key,
            state.buffers[index][key],
        )
    &&& forall|i: int|
        0 <= i < state.pending.len() ==> was_put(
            steps,
            (#[trigger] state.pending[i]).0,
            state.pending[i].1,
        )
}

/// A batch of writes keeps the invariant, fills the staging buffer and the
/// log in order, and changes nothing else.
pub proof fn lemma_put_all(state: CacheModel, writes: Seq<(Key, Value)>)
    requires
        state.wf(),
    ensures
        state.put_all(writes).wf(),
        state.put_all(writes).active() == state.active(),
        state.put_all(writes).staging() == replay(state.staging(), writes),
        state.put_all(writes).pending == state.pending + writes,
        state.put_all(writes).current == state.current,
        state.put_all(writes).readers == state.readers,
        state.put_all(writes).flushing == state.flushing,
        state.put_all(writes).mark == state.mark,
    decreases writes.len(),
{
    if writes.len() == 0 {
    } else {
        let before = state.put_all(writes.drop_last());
        lemma_put_all(state, writes.drop_last());
        lemma_put_wf(before, writes.last().0, writes.last().1);
        assert((state.pending + writes.drop_last()).push(writes.last()) =~= state.pending
            + writes);
    }
}

/// Every operation keeps the invariant: it holds in every state that a
/// cache can reach.
pub proof fn law_invariant_holds(start: CacheModel, steps: Seq<Step>)
    requires
        start.wf(),
    ensures
        run(start, steps).wf(),
    decreases steps.len(),
{
    if steps.len() > 0 {
        law_invariant_holds(start, steps.drop_last());
        let before = run(start, steps.drop_last());
        match steps.last() {
            Step::Put(key, value) => lemma_put_wf(before, key, value),
            Step::BeginFlush => lemma_begin_flush_wf(before),
            Step::FinishFlush => lemma_finish_flush_wf(before),
            Step::Acquire => {},
            Step::Release(index) => {},
        }
    }
}

/// Read-after-flush completeness.  After any batch of writes and one flush,
/// a reader is told, for each key of the batch, the value that was written
/// last under it, and is still told so after a second flush.  Where no
/// reader held a lease on the buffer that was active before, both buffers
/// give that answer after the first flush and after the second.
pub proof fn law_read_after_flush(start: CacheModel, writes: Seq<(Key, Value)>, i: int)
    requires
        start.wf(),
        start.admits_flush(),
        0 <= i < writes.len(),
    ensures
        last_written(writes, writes[i].0) is Some,
        start.put_all(writes).flush().get(writes[i].0) == last_written(writes, writes[i].0),
        start.put_all(writes).flush().flush().get(writes[i].0) == last_written(
            writes,
            writes[i].0,
        ),
        start.readers[start.current] == 0 ==> forall|index: int|
            0 <= index < 2 ==> {
                &&& #[trigger] start.put_all(writes).flush().read(index, writes[i].0)
                    == last_written(writes, writes[i].0)
                &&& #[trigger] start.put_all(writes).flush().flush().read(index, writes[i].0)
                    == last_written(writes, writes[i].0)
            },
{
    let key = writes[i].0;
    let written = start.put_all(writes);
    lemma_put_all(start, writes);
    lemma_last_written_is_record(writes, key);
    lemma_replay_lookup(start.staging(), writes, key);
    lemma_begin_flush_wf(written);
    lemma_finish_flush_wf(written.begin_flush());
    let once = written.flush();
    lemma_begin_flush_wf(once);
    lemma_finish_flush_wf(once.begin_flush());
}

/// Two-flush convergence.  Where no reader holds a lease on the active
/// buffer, a flush leaves both buffers with the same entries, every accepted
/// write among them, and the log empty; a second flush with no write in
/// between changes none of that.
pub proof fn law_two_flush_convergence(start: CacheModel)
    requires
        start.wf(),
        start.admits_flush(),
        start.readers[start.current] == 0,
    ensures
        start.flush().buffers[0] == start.flush().buffers[1],
        start.flush().buffers[0] == start.latest(),
        start.flush().pending.len() == 0,
        start.flush().flush().buffers[0] == start.flush().flush().buffers[1],
        start.flush().flush().buffers[0] == start.latest(),
        start.flush().flush().pending.len() == 0,
{
    lemma_begin_flush_wf(start);
    lemma_finish_flush_wf(start.begin_flush());
    let once = start.flush();
    lemma_begin_flush_wf(once);
    lemma_finish_flush_wf(once.begin_flush());
}

/// Last write wins.  Of two writes under one key, readers are told the
/// second after the flush, never the first.
pub proof fn law_last_write_wins(start: CacheModel, key: Key, first: Value, second: Value)
    requires
        start.wf(),
        start.admits_flush(),
    ensures
        start.put(key, first).put(key, second).flush().get(key) == Some(second),
{
    let one = start.put(key, first);
    lemma_put_wf(start, key, first);
    let two = one.put(key, second);
    lemma_put_wf(one, key, second);
    lemma_begin_flush_wf(two);
    lemma_finish_flush_wf(two.begin_flush());
}

/// A write is invisible to readers until a flush: it changes nothing of
/// what they are told about any key.
pub proof fn law_put_is_staged(start: CacheModel, key: Key, value: Value, other: Key)
    requires
        start.wf(),
    ensures
        start.put(key, value).get(other) == start.get(other),
{
    lemma_put_wf(start, key, value);
}

/// Flush exclusivity.  Of two flushes that start one after the other with
/// none finished in between, the first is admitted and the second is not,
/// and the second changes nothing.  Once the first has replayed, a flush is
/// admitted again.
pub proof fn law_flush_exclusive(start: CacheModel)
    requires
        start.wf(),
        start.admits_flush(),
    ensures
        !start.begin_flush().admits_flush(),
        start.begin_flush().begin_flush() == start.begin_flush(),
        start.begin_flush().drained() ==> start.begin_flush().finish_flush().admits_flush(),
{
}

/// Empty-cache reads.  A cache that was never written to has no answer for
/// any key, in either buffer.
pub proof fn law_empty_reads(key: Key)
    ensures
        CacheModel::empty().wf(),
        CacheModel::empty().get(key) is None,
        CacheModel::empty().read(0, key) is None,
        CacheModel::empty().read(1, key) is None,
{
}

/// Whether none of `steps` starts or ends a flush: they are writes and the
/// coming and going of readers.
pub open spec fn leaves_flush_alone(steps: Seq<Step>) -> bool {
    forall|i: int|
        0 <= i < steps.len() ==> !((#[trigger] steps[i]) is BeginFlush) && !(steps[i]
            is FinishFlush)
}

/// Writes and leases change neither the active buffer nor the state of the
/// flush.
proof fn lemma_run_without_flush(start: CacheModel, steps: Seq<Step>)
    requires
        start.wf(),
        leaves_flush_alone(steps),
    ensures
        run(start, steps).wf(),
        run(start, steps).active() == start.active(),
        run(start, steps).current == start.current,
        run(start, steps).flushing == start.flushing,
    decreases steps.len(),
{
    if steps.len() > 0 {
        let earlier = steps.drop_last();
        assert(leaves_flush_alone(earlier)) by {
            assert forall|i: int| 0 <= i < earlier.len() implies earlier[i] == steps[i] by {}
        }
        lemma_run_without_flush(start, earlier);
        match steps[steps.len() - 1] {
            Step::Put(key, value) => lemma_put_wf(run(start, earlier), key, value),
            _ => {},
        }
    }
}

/// No torn reads.  Let writers write and readers come and go while one
/// flush runs.  Before its swap every answer is the one from before the
/// flush.  From its swap on every answer is already the one that readers get
/// when the flush is over, namely what was written before the swap.  No
/// answer ever lies in between.
pub proof fn law_flush_switches_once(
    start: CacheModel,
    before: Seq<Step>,
    during: Seq<Step>,
    key: Key,
)
    requires
        start.wf(),
        start.admits_flush(),
        leaves_flush_alone(before),
        leaves_flush_alone(during),
    ensures
        run(start, before).get(key) == start.get(key),
        run(run(start, before).begin_flush(), during).get(key) == run(
            run(start, before).begin_flush(),
            during,
        ).finish_flush().get(key),
        run(run(start, before).begin_flush(), during).get(key) == lookup(
            run(start, before).latest(),
            key,
        ),
{
    lemma_run_without_flush(start, before);
    let swapped = run(start, before).begin_flush();
    lemma_begin_flush_wf(run(start, before));
    lemma_run_without_flush(swapped, during);
    lemma_finish_flush_wf(run(swapped, during));
}

/// The drain barrier.  While a reader holds a lease on the buffer that
/// stopped being active, the flush in flight cannot replay: the buffer keeps
/// its entries, and so does everything else.
pub proof fn law_replay_waits_for_readers(state: CacheModel)
    requires
        state.wf(),
        state.flushing,
        state.readers[state.staging_index()] > 0,
    ensures
        state.finish_flush() == state,
{
}

/// Writes that race with a flush are not lost: the log keeps them, and the
/// next flush publishes them to both buffers.
pub proof fn law_racing_writes_are_kept(start: CacheModel, during: Seq<(Key, Value)>)
    requires
        start.wf(),
        start.admits_flush(),
        start.readers[0] == 0,
        start.readers[1] == 0,
    ensures
        start.begin_flush().put_all(during).finish_flush().pending == during,
        start.begin_flush().put_all(during).finish_flush().flush().buffers[0] == replay(
            start.latest(),
            during,
        ),
        start.begin_flush().put_all(during).finish_flush().flush().buffers[1] == replay(
            start.latest(),
            during,
        ),
{
    lemma_begin_flush_wf(start);
    let racing = start.begin_flush().put_all(during);
    lemma_put_all(start.begin_flush(), during);
    lemma_finish_flush_wf(racing);
    let done = racing.finish_flush();
    assert(done.unpublished() =~= during);
    law_two_flush_convergence(done);
}

/// A step keeps every entry and every record traceable to a write.
proof fn lemma_step_holds_only_writes(state: CacheModel, steps: Seq<Step>, next: Step)
    requires
        state.wf(),
        holds_only_writes(state, steps),
    ensures
        holds_only_writes(step(state, next), steps.push(next)),
{
    let after = step(state, next);
    let longer = steps.push(next);
    assert forall|key: Key, value: Value| was_put(steps, key, value) implies was_put(
        longer,
        key,
        value,
    ) by {
        let i = choose|i: int| 0 <= i < steps.len() && #[trigger] steps[i] == Step::Put(key, value);
        assert(longer[i] == Step::Put(key, value));
    }
    match next {
        Step::Put(key, value) => {
            assert(longer[steps.len() as int] == Step::Put(key, value));
            assert forall|index: int, other: Key|
                0 <= index < 2 && #[trigger] after.buffers[index].contains_key(
                    other,
                ) implies was_put(longer, other, after.buffers[index][other]) by {
                if !(index == state.staging_index() && other == key) {
                    assert(state.buffers[index].contains_key(other));
                }
            }
            assert forall|i: int| 0 <= i < after.pending.len() implies was_put(
                longer,
                (#[trigger] after.pending[i]).0,
                after.pending[i].1,
            ) by {
                if i < state.pending.len() {
                    assert(after.pending[i] == state.pending[i]);
                }
            }
        },
        Step::FinishFlush => {
            if state.drained() {
                assert forall|index: int, other: Key|
                    0 <= index < 2 && #[trigger] after.buffers[index].contains_key(
                        other,
                    ) implies was_put(longer, other, after.buffers[index][other]) by {
                    if index == state.staging_index() {
                        lemma_replay_lookup(state.staging(), state.pending, other);
                        lemma_last_written_is_record(state.pending, other);
                        if last_written(state.pending, other) is None {
                            assert(state.buffers[index].contains_key(other));
                        }
                    } else {
                        assert(state.buffers[index].contains_key(other));
                    }
                }
                assert forall|i: int| 0 <= i < after.pending.len() implies was_put(
                    longer,
                    (#[trigger] after.pending[i]).0,
                    after.pending[i].1,
                ) by {
                    assert(after.pending[i] == state.pending[i + state.mark]);
                }
            }
        },
        _ => {},
    }
}

/// In every state that a cache reaches from empty, each entry of each buffer
/// and each pending record was written by an earlier operation.
proof fn lemma_run_holds_only_writes(steps: Seq<Step>)
    ensures
        run(CacheModel::empty(), steps).wf(),
        holds_only_writes(run(CacheModel::empty(), steps), steps),
    decreases steps.len(),
{
    law_empty_reads(0);
    law_invariant_holds(CacheModel::empty(), steps);
    if steps.len() > 0 {
        lemma_run_holds_only_writes(steps.drop_last());
        law_invariant_holds(CacheModel::empty(), steps.drop_last());
        lemma_step_holds_only_writes(
            run(CacheModel::empty(), steps.drop_last()),
            steps.drop_last(),
            steps.last(),
        );
        assert(steps.drop_last().push(steps.last()) =~= steps);
    }
}

/// No phantom reads.  Whatever was done to a cache since it was made, in
/// whatever order, a read of either buffer finds under a key only a value
/// that was once written under that key.
pub proof fn law_reads_see_only_writes(steps: Seq<Step>, index: int, key: Key)
    requires
        0 <= index < 2,
    ensures
        match run(CacheModel::empty(), steps).read(index, key) {
            Some(value) => was_put(steps, key, value),
            None => true,
        },
        match run(CacheModel::empty(), steps).get(key) {
            Some(value) => was_put(steps, key, value),
            None => true,
        },
{
    lemma_run_holds_only_writes(steps);
    let state = run(CacheModel::empty(), steps);
    if state.buffers[index].contains_key(key) {
        assert(was_put(steps, key, state.buffers[index][key]));
    }
    if state.buffers[state.current].contains_key(key) {
        assert(was_put(steps, key, state.buffers[state.current][key]));
    }
}

} // verus!

//! Laws over whole ticks and over runs of ticks, built from the steps of a
//! tick: `begin_tick`, a chain of `process_batch` calls that ends with one
//! answering `false`, and `finish_tick`.

use crate::action::{TickAction, TickError, TickResult};
use crate::engine::{
    batch_step, begin_step, finish_step, handled_as, EngineView, TickContext,
};
use crate::tally::{
    count_deferred, count_delegated, count_escalated, count_of_type, count_processed,
    lemma_counts_concat, settles_to,
};
use crate::task::{TickTask, TickTaskType};
use vstd::prelude::*;

verus! {

/// The batches of one tick: batch `i` takes the engine from `states[i]`
/// and the result from `results[i]` to `states[i + 1]` and
/// `results[i + 1]`; every batch but the last hands tasks on, the last
/// hands on none.
pub open spec fn batch_chain<H, X>(
    states: Seq<EngineView<H, X>>,
    results: Seq<TickResult>,
    mores: Seq<bool>,
) -> bool {
    &&& mores.len() >= 1
    &&& states.len() == mores.len() + 1
    &&& results.len() == mores.len() + 1
    &&& forall|i: int|
        0 <= i < mores.len() ==> batch_step(
            states[i],
            results[i],
            states[i + 1],
            results[i + 1],
            #[trigger] mores[i],
        )
    &&& !mores.last()
}

/// What a whole tick does: one more tick, stamped into the context; the
/// queue ends empty; there is one action per task queued at the start and
/// one per delegated task; the result's counters count its actions; the
/// engine's totals grow by the result's counters, the counts per kind by
/// the result's actions of that kind, the total duration by the result's
/// duration; the handlers stay.
pub open spec fn tick_step<H, X>(before: EngineView<H, X>, after: EngineView<H, X>, r: TickResult) -> bool {
    &&& after.wf()
    &&& after.tick_count == before.tick_count + 1
    &&& r.tick == after.tick_count
    &&& after.context == (TickContext { tick: r.tick, ..before.context })
    &&& after.queue.len() == 0
    &&& r.actions@.len() == before.queue.len() + count_delegated(r.actions@)
    &&& r.tasks_processed == count_processed(r.actions@)
    &&& r.tasks_deferred == count_deferred(r.actions@)
    &&& r.tasks_escalated == count_escalated(r.actions@)
    &&& after.total_tasks_processed == before.total_tasks_processed + r.tasks_processed
    &&& after.total_escalations == before.total_escalations + r.tasks_escalated
    &&& forall|t: TickTaskType|
        #[trigger] after.type_count(t) == before.type_count(t) + count_of_type(r.actions@, t)
    &&& after.total_duration_us == before.total_duration_us + r.duration_us
    &&& after.handlers == before.handlers
    &&& after.tick_interval_ms == before.tick_interval_ms
    &&& after.start_time == before.start_time
}

proof fn lemma_chain_prefix<H, X>(
    states: Seq<EngineView<H, X>>,
    results: Seq<TickResult>,
    mores: Seq<bool>,
    k: int,
)
    requires
        batch_chain(states, results, mores),
        states[0].wf(),
        0 <= k <= mores.len(),
    ensures
        ({
            let a0 = results[0].actions@;
            let ak = results[k].actions@;
            let added = ak.skip(a0.len() as int);
            &&& ak.len() >= a0.len()
            &&& ak.take(a0.len() as int) == a0
            &&& added.len() + states[k].queue.len() == states[0].queue.len() + count_delegated(added)
            &&& results[k].tick == results[0].tick
            &&& results[k].duration_us == results[0].duration_us
            &&& results[k].tasks_processed == results[0].tasks_processed + count_processed(added)
            &&& results[k].tasks_deferred == results[0].tasks_deferred + count_deferred(added)
            &&& results[k].tasks_escalated == results[0].tasks_escalated + count_escalated(added)
            &&& states[k].total_tasks_processed == states[0].total_tasks_processed
                + count_processed(added)
            &&& states[k].total_escalations == states[0].total_escalations + count_escalated(added)
            &&& forall|t: TickTaskType|
                #[trigger] states[k].type_count(t) == states[0].type_count(t) + count_of_type(added, t)
            &&& states[k].wf()
            &&& states[k].handlers == states[0].handlers
            &&& states[k].tick_count == states[0].tick_count
            &&& states[k].total_duration_us == states[0].total_duration_us
            &&& states[k].context == states[0].context
            &&& states[k].tick_interval_ms == states[0].tick_interval_ms
            &&& states[k].start_time == states[0].start_time
        }),
    decreases k,
{
    let a0 = results[0].actions@;
    if k == 0 {
        assert(a0.skip(a0.len() as int) =~= Seq::<(TickTaskType, TickAction)>::empty());
        assert(a0.take(a0.len() as int) =~= a0);
    } else {
        let j = k - 1;
        lemma_chain_prefix(states, results, mores, j);
        assert(batch_step(states[j], results[j], states[j + 1], results[j + 1], mores[j]));
        let aj = results[j].actions@;
        let ak = results[k].actions@;
        let before_added = aj.skip(a0.len() as int);
        let batch = ak.skip(aj.len() as int);
        assert(ak.take(aj.len() as int) == aj);
        assert(ak.skip(a0.len() as int) =~= before_added + batch) by {
            assert forall|i: int| 0 <= i < ak.len() - a0.len() implies #[trigger] ak.skip(
                a0.len() as int,
            )[i] == (before_added + batch)[i] by {
                if i < before_added.len() {
                    assert(ak[a0.len() + i] == ak.take(aj.len() as int)[a0.len() + i]);
                }
            }
        }
        assert(ak.take(a0.len() as int) =~= a0) by {
            assert forall|i: int| 0 <= i < a0.len() implies #[trigger] ak.take(a0.len() as int)[i]
                == a0[i] by {
                assert(ak[i] == ak.take(aj.len() as int)[i]);
                assert(aj[i] == aj.take(a0.len() as int)[i]);
            }
        }
        lemma_counts_concat(before_added, batch);
        let added = ak.skip(a0.len() as int);
        assert forall|t: TickTaskType| #[trigger] states[k].type_count(t) == states[0].type_count(t)
            + count_of_type(added, t) by {
            assert(states[j + 1].type_count(t) == states[j].type_count(t) + count_of_type(batch, t));
            assert(states[j].type_count(t) == states[0].type_count(t) + count_of_type(before_added, t));
        }
    }
}

/// A tick's batches, taken together: when they stop, the queue is empty;
/// there is one action per task queued when the first batch began and one
/// per delegated task; the counters of the result and the totals of the
/// engine grow by the counts of all the actions recorded; nothing else of
/// the engine changes.
pub proof fn law_tick_batches<H, X>(
    states: Seq<EngineView<H, X>>,
    results: Seq<TickResult>,
    mores: Seq<bool>,
)
    requires
        batch_chain(states, results, mores),
        states[0].wf(),
    ensures
        ({
            let n = mores.len() as int;
            let a0 = results[0].actions@;
            let added = results[n].actions@.skip(a0.len() as int);
            &&& states[n].queue.len() == 0
            &&& results[n].actions@.take(a0.len() as int) == a0
            &&& added.len() == states[0].queue.len() + count_delegated(added)
            &&& results[n].tasks_processed == results[0].tasks_processed + count_processed(added)
            &&& results[n].tasks_deferred == results[0].tasks_deferred + count_deferred(added)
            &&& results[n].tasks_escalated == results[0].tasks_escalated + count_escalated(added)
            &&& states[n].total_tasks_processed == states[0].total_tasks_processed
                + count_processed(added)
            &&& states[n].total_escalations == states[0].total_escalations + count_escalated(added)
            &&& forall|t: TickTaskType|
                #[trigger] states[n].type_count(t) == states[0].type_count(t) + count_of_type(added, t)
            &&& states[n].handlers == states[0].handlers
            &&& states[n].tick_count == states[0].tick_count
            &&& states[n].context == states[0].context
        }),
{
    let n = mores.len() as int;
    lemma_chain_prefix(states, results, mores, n);
    assert(batch_step(states[n - 1], results[n - 1], states[n], results[n], mores[n - 1]));
    assert(mores[n - 1] == mores.last());
}

/// A whole tick, from `begin_tick` through its batches to `finish_tick`,
/// does what `tick_step` says.
pub proof fn law_whole_tick<H, X>(
    start: EngineView<H, X>,
    states: Seq<EngineView<H, X>>,
    results: Seq<TickResult>,
    mores: Seq<bool>,
    end: EngineView<H, X>,
    r: TickResult,
    duration_us: u64,
)
    requires
        start.wf(),
        start.tick_count < u64::MAX,
        start.total_duration_us + duration_us <= u64::MAX,
        begin_step(start, states[0], results[0]),
        batch_chain(states, results, mores),
        finish_step(states[mores.len() as int], results[mores.len() as int], end, r, duration_us),
    ensures
        tick_step(start, end, r),
{
    let n = mores.len() as int;
    law_tick_batches(states, results, mores);
    lemma_chain_prefix(states, results, mores, n);
    assert(results[0].actions@.len() == 0);
    assert(results[n].actions@.skip(0) =~= results[n].actions@);
    assert(r.actions@ == results[n].actions@);
    assert forall|t: TickTaskType| #[trigger] end.type_count(t) == start.type_count(t)
        + count_of_type(r.actions@, t) by {
        assert(states[n].type_count(t) == states[0].type_count(t) + count_of_type(
            results[n].actions@.skip(0),
            t,
        ));
    }
}

/// The sum of the tasks processed over a sequence of tick results.
pub open spec fn sum_processed(rs: Seq<TickResult>) -> nat
    decreases rs.len(),
{
    if rs.len() == 0 {
        0
    } else {
        sum_processed(rs.drop_last()) + rs.last().tasks_processed as nat
    }
}

/// The sum of the escalations over a sequence of tick results.
pub open spec fn sum_escalated(rs: Seq<TickResult>) -> nat
    decreases rs.len(),
{
    if rs.len() == 0 {
        0
    } else {
        sum_escalated(rs.drop_last()) + rs.last().tasks_escalated as nat
    }
}

/// The sum of the durations over a sequence of tick results.
pub open spec fn sum_duration(rs: Seq<TickResult>) -> nat
    decreases rs.len(),
{
    if rs.len() == 0 {
        0
    } else {
        sum_duration(rs.drop_last()) + rs.last().duration_us as nat
    }
}

/// The number of actions for tasks of kind `t` over a sequence of tick
/// results.
pub open spec fn sum_of_type(rs: Seq<TickResult>, t: TickTaskType) -> nat
    decreases rs.len(),
{
    if rs.len() == 0 {
        0
    } else {
        sum_of_type(rs.drop_last(), t) + count_of_type(rs.last().actions@, t)
    }
}

/// Between ticks, enqueuing, registering and setting the context keep the
/// tick count and the totals.
pub open spec fn same_totals<H, X>(a: EngineView<H, X>, b: EngineView<H, X>) -> bool {
    &&& a.tick_count == b.tick_count
    &&& a.total_tasks_processed == b.total_tasks_processed
    &&& a.total_escalations == b.total_escalations
    &&& a.total_duration_us == b.total_duration_us
    &&& a.by_type == b.by_type
}

/// Over a run of ticks, the engine's tick count grows by the number of
/// ticks and its totals by the sums over the ticks' results; from an engine
/// with zero totals, the mean duration is the summed duration divided by
/// the number of ticks.
pub proof fn law_ticks_sum<H, X>(pre: Seq<EngineView<H, X>>, post: Seq<EngineView<H, X>>, rs: Seq<TickResult>)
    requires
        pre.len() == rs.len(),
        post.len() == rs.len(),
        rs.len() > 0,
        forall|i: int| 0 <= i < rs.len() ==> tick_step(pre[i], #[trigger] post[i], rs[i]),
        forall|i: int| 0 <= i < rs.len() - 1 ==> same_totals(#[trigger] post[i], pre[i + 1]),
    ensures
        ({
            let k = rs.len() as int;
            let last = post[k - 1];
            &&& last.tick_count == pre[0].tick_count + k
            &&& last.total_tasks_processed == pre[0].total_tasks_processed + sum_processed(rs)
            &&& last.total_escalations == pre[0].total_escalations + sum_escalated(rs)
            &&& last.total_duration_us == pre[0].total_duration_us + sum_duration(rs)
            &&& forall|t: TickTaskType|
                #[trigger] last.type_count(t) == pre[0].type_count(t) + sum_of_type(rs, t)
            &&& (pre[0].tick_count == 0 && pre[0].total_duration_us == 0) ==> last.total_duration_us
                / last.tick_count == sum_duration(rs) as int / k
        }),
    decreases rs.len(),
{
    let k = rs.len() as int;
    assert(tick_step(pre[k - 1], post[k - 1], rs[k - 1]));
    if k > 1 {
        let pre2 = pre.drop_last();
        let post2 = post.drop_last();
        let rs2 = rs.drop_last();
        assert forall|i: int| 0 <= i < rs2.len() implies tick_step(pre2[i], #[trigger] post2[i], rs2[i]) by {
            assert(tick_step(pre[i], post[i], rs[i]));
        }
        assert forall|i: int| 0 <= i < rs2.len() - 1 implies same_totals(#[trigger] post2[i], pre2[i + 1]) by {
            assert(same_totals(post[i], pre[i + 1]));
        }
        law_ticks_sum(pre2, post2, rs2);
        assert(same_totals(post[k - 2], pre[k - 1]));
        assert(rs.last() == rs[k - 1]);
        assert(pre2[0] == pre[0]);
        assert(post2[k - 2] == post[k - 2]);

        assert forall|t: TickTaskType| #[trigger] post[k - 1].type_count(t) == pre[0].type_count(t)
            + sum_of_type(rs, t) by {
            assert(post2[k - 2].type_count(t) == pre2[0].type_count(t) + sum_of_type(rs2, t));
            assert(pre[k - 1].type_count(t) == post[k - 2].type_count(t));
        }
    } else {
        assert(rs.drop_last() =~= Seq::<TickResult>::empty());
        assert(rs.last() == rs[0]);
        assert(sum_processed(rs.drop_last()) == 0);
        assert(sum_escalated(rs.drop_last()) == 0);
        assert(sum_duration(rs.drop_last()) == 0);
        assert forall|t: TickTaskType| #[trigger] post[0].type_count(t) == pre[0].type_count(t)
            + sum_of_type(rs, t) by {
            assert(post[0].type_count(t) == pre[0].type_count(t) + count_of_type(rs[0].actions@, t));
            assert(rs.last() == rs[0]);
        assert(sum_processed(rs.drop_last()) == 0);
        assert(sum_escalated(rs.drop_last()) == 0);
        assert(sum_duration(rs.drop_last()) == 0);
            assert(sum_of_type(rs.drop_last(), t) == 0);
        }
    }
}

/// A handler registered for a kind serves the later tasks of that kind:
/// while the handlers stay as they were after the registration, every
/// action recorded for a task of that kind is what that handler returned
/// for it, or `Processed("error")` when it failed.
pub proof fn law_registered_handler_serves_kind<H, X, F>(
    registered: EngineView<H, X>,
    later: EngineView<H, X>,
    t: TickTaskType,
    h: H,
    dispatch: F,
    task: TickTask,
    a: TickAction,
)
    where
        F: Fn(&H, &TickTask, &TickContext<X>) -> Result<TickAction, TickError>,
    requires
        registered.wf(),
        registered.handler(t) == Some(h),
        later.handlers == registered.handlers,
        task.task_type == t,
        handled_as(later.handler(task.task_type), dispatch, later.context, task, a),
    ensures
        exists|out: Result<TickAction, TickError>|
            #[trigger] dispatch.ensures((&h, &task, &later.context), out) && settles_to(out, a),
{
}

} // verus!

//! The engine state: the task queue, the registered handlers, the shared
//! context and the running totals; and the steps of a tick.
//!
//! A tick is `begin_tick`, then `process_batch` until it answers `false`
//! (each batch takes every queued task in priority order, hands it to the
//! handler registered for its kind and records the action; tasks that
//! handlers delegate form the next batch), then `finish_tick`.

use crate::action::{TickAction, TickError, TickResult};
use crate::clock::now_ms;
use crate::schedule::{drain_order, lemma_best_index, lemma_drain_step, pick_best};
use crate::tally::{
    count_deferred, count_delegated, count_escalated, count_of_type, count_processed,
    delegated_tasks, is_error_record, law_counts_partition, lemma_counts_bound,
    lemma_counts_push, lemma_delegated_push, settles_to,
};
use crate::task::{
    lemma_type_at, lemma_type_index, type_at, type_index, TickTask, TickTaskType, TickTaskView,
    TASK_TYPE_COUNT,
};
use vstd::prelude::*;

verus! {

/// The context handed to handlers: the number of the current tick and the
/// rest of the shared state.
#[derive(Debug, Clone, Default)]
pub struct TickContext<X> {
    pub tick: u64,
    pub state: X,
}

/// The engine: `H` is the type of the handlers, `X` that of the shared
/// state in the context handed to them.
pub struct TickEngine<H, X> {
    pub tick_interval_ms: u64,
    pub start_time: u64,
    queue: Vec<TickTask>,
    handlers: Vec<Option<H>>,
    tick_count: u64,
    total_tasks_processed: u64,
    total_escalations: u64,
    total_duration_us: u64,
    by_type: Vec<u64>,
    context: TickContext<X>,
}

/// The state of an engine: `handlers` and `by_type` hold one entry per
/// task kind, at the kind's position.
pub struct EngineView<H, X> {
    pub tick_interval_ms: u64,
    pub start_time: u64,
    pub queue: Seq<TickTask>,
    pub handlers: Seq<Option<H>>,
    pub tick_count: u64,
    pub total_tasks_processed: u64,
    pub total_escalations: u64,
    pub total_duration_us: u64,
    pub by_type: Seq<u64>,
    pub context: TickContext<X>,
}

impl<H, X> View for TickEngine<H, X> {
    type V = EngineView<H, X>;

    closed spec fn view(&self) -> EngineView<H, X> {
        EngineView {
            tick_interval_ms: self.tick_interval_ms,
            start_time: self.start_time,
            queue: self.queue@,
            handlers: self.handlers@,
            tick_count: self.tick_count,
            total_tasks_processed: self.total_tasks_processed,
            total_escalations: self.total_escalations,
            total_duration_us: self.total_duration_us,
            by_type: self.by_type@,
            context: self.context,
        }
    }
}

impl<H, X> EngineView<H, X> {
    /// One handler slot and one counter per task kind.
    pub open spec fn wf(self) -> bool {
        &&& self.handlers.len() == TASK_TYPE_COUNT
        &&& self.by_type.len() == TASK_TYPE_COUNT
    }

    /// The handler registered for kind `t`, if any.
    pub open spec fn handler(self, t: TickTaskType) -> Option<H> {
        self.handlers[type_index(t)]
    }

    /// How many actions were recorded for tasks of kind `t`.
    pub open spec fn type_count(self, t: TickTaskType) -> u64 {
        self.by_type[type_index(t)]
    }

    /// A batch over the current queue cannot overflow any counter of the
    /// engine or of `r`, whatever the handlers answer.
    pub open spec fn batch_fits(self, r: TickResult) -> bool {
        let n = self.queue.len();
        &&& r.tasks_processed + n <= u32::MAX
        &&& r.tasks_deferred + n <= u32::MAX
        &&& r.tasks_escalated + n <= u32::MAX
        &&& self.total_tasks_processed + n <= u64::MAX
        &&& self.total_escalations + n <= u64::MAX
        &&& forall|i: int| 0 <= i < self.by_type.len() ==> #[trigger] self.by_type[i] + n <= u64::MAX
    }
}

/// How the action recorded for `task` came about: from what the handler
/// registered for its kind returned, or, with no handler for the kind, as
/// a failed task.
pub open spec fn handled_as<H, C, F: Fn(&H, &TickTask, &C) -> Result<TickAction, TickError>>(
    handler: Option<H>,
    dispatch: F,
    ctx: C,
    task: TickTask,
    a: TickAction,
) -> bool {
    match handler {
        Some(h) => exists|out: Result<TickAction, TickError>|
            #[trigger] dispatch.ensures((&h, &task, &ctx), out) && settles_to(out, a),
        None => is_error_record(a),
    }
}

/// What each task of a sequence is.
pub open spec fn task_views(s: Seq<TickTask>) -> Seq<TickTaskView> {
    s.map_values(|t: TickTask| t@)
}

/// The running totals of an engine.
#[derive(Debug)]
pub struct TickCounters {
    pub total_ticks: u64,
    pub total_tasks_processed: u64,
    pub total_escalations: u64,
    pub avg_duration_us: u64,
    pub by_type: Vec<(TickTaskType, u64)>,
}

/// The kinds among the first `n` positions whose count is not zero, with
/// their counts, in declaration order.
pub open spec fn nonzero_counts(counts: Seq<u64>, n: int) -> Seq<(TickTaskType, u64)>
    decreases n,
{
    if n <= 0 {
        Seq::empty()
    } else if counts[n - 1] > 0 {
        nonzero_counts(counts, n - 1).push((type_at(n - 1), counts[n - 1]))
    } else {
        nonzero_counts(counts, n - 1)
    }
}

/// The entries listed for the first `n` positions: each names a kind among
/// them with its count, which is not zero; kinds come in declaration order,
/// each at most once; and every kind among them with a count that is not
/// zero is listed.
pub proof fn law_nonzero_counts(counts: Seq<u64>, n: int)
    requires
        counts.len() == TASK_TYPE_COUNT,
        0 <= n <= TASK_TYPE_COUNT,
    ensures
        forall|i: int|
            0 <= i < nonzero_counts(counts, n).len() ==> {
                let e = #[trigger] nonzero_counts(counts, n)[i];
                &&& 0 <= type_index(e.0) < n
                &&& e.1 == counts[type_index(e.0)]
                &&& e.1 > 0
            },
        forall|i: int, j: int|
            0 <= i < j < nonzero_counts(counts, n).len() ==> type_index(
                (#[trigger] nonzero_counts(counts, n)[i]).0,
            ) < type_index((#[trigger] nonzero_counts(counts, n)[j]).0),
        forall|k: int|
            0 <= k < n && #[trigger] counts[k] > 0 ==> exists|i: int|
                0 <= i < nonzero_counts(counts, n).len() && (#[trigger] nonzero_counts(counts, n)[i]).0
                    == type_at(k),
    decreases n,
{
    if n > 0 {
        law_nonzero_counts(counts, n - 1);
        let p = nonzero_counts(counts, n - 1);
        let out = nonzero_counts(counts, n);
        lemma_type_at(n - 1);
        if counts[n - 1] > 0 {
            assert(out == p.push((type_at(n - 1), counts[n - 1])));
            assert forall|k: int| 0 <= k < n && #[trigger] counts[k] > 0 implies exists|i: int|
                0 <= i < out.len() && (#[trigger] out[i]).0 == type_at(k) by {
                if k == n - 1 {
                    assert(out[p.len() as int].0 == type_at(k));
                } else {
                    let i = choose|i: int| 0 <= i < p.len() && (#[trigger] p[i]).0 == type_at(k);
                    assert(out[i] == p[i]);
                }
            }
            assert forall|i: int| 0 <= i < out.len() implies {
                let e = #[trigger] out[i];
                &&& 0 <= type_index(e.0) < n
                &&& e.1 == counts[type_index(e.0)]
                &&& e.1 > 0
            } by {
                if i < p.len() {
                    assert(out[i] == p[i]);
                }
            }
            assert forall|i: int, j: int| 0 <= i < j < out.len() implies type_index(
                (#[trigger] out[i]).0,
            ) < type_index((#[trigger] out[j]).0) by {
                assert(out[i] == p[i]);
                if j < p.len() {
                    assert(out[j] == p[j]);
                }
            }
        } else {
            assert(out == p);
        }
    }
}

/// A new engine: the given interval and start time, an empty queue, no
/// handlers, zero totals and counts, and a context at tick 0.
pub open spec fn is_fresh<H, X>(e: EngineView<H, X>, interval_ms: u64, start_time: u64) -> bool {
    &&& e.wf()
    &&& e.tick_interval_ms == interval_ms
    &&& e.start_time == start_time
    &&& e.queue == Seq::<TickTask>::empty()
    &&& forall|t: TickTaskType| (#[trigger] e.handler(t)) is None
    &&& e.tick_count == 0
    &&& e.total_tasks_processed == 0
    &&& e.total_escalations == 0
    &&& e.total_duration_us == 0
    &&& forall|t: TickTaskType| #[trigger] e.type_count(t) == 0
    &&& e.context.tick == 0
}

/// What `begin_tick` does: one more tick, stamped into the context, and a
/// fresh result for it.
pub open spec fn begin_step<H, X>(before: EngineView<H, X>, after: EngineView<H, X>, r: TickResult) -> bool {
    &&& after == (EngineView {
        tick_count: (before.tick_count + 1) as u64,
        context: TickContext { tick: (before.tick_count + 1) as u64, ..before.context },
        ..before
    })
    &&& r.tick == after.tick_count
    &&& r.tasks_processed == 0
    &&& r.tasks_deferred == 0
    &&& r.tasks_escalated == 0
    &&& r.actions@.len() == 0
    &&& r.duration_us == 0
}

/// What `finish_tick` does: the duration goes into the result and into the
/// engine's total.
pub open spec fn finish_step<H, X>(
    before: EngineView<H, X>,
    r0: TickResult,
    after: EngineView<H, X>,
    r1: TickResult,
    duration_us: u64,
) -> bool {
    &&& r1 == (TickResult { duration_us, ..r0 })
    &&& after == (EngineView {
        total_duration_us: (before.total_duration_us + duration_us) as u64,
        ..before
    })
}

/// What a batch does to the counts, the queue and the result, whatever the
/// handlers answer: one action per queued task, counted by kind and
/// outcome; the delegated tasks become the queue; nothing else changes.
pub open spec fn batch_step<H, X>(
    before: EngineView<H, X>,
    r0: TickResult,
    after: EngineView<H, X>,
    r1: TickResult,
    more: bool,
) -> bool {
    let added = r1.actions@.skip(r0.actions@.len() as int);
    &&& after.wf()
    &&& r1.actions@.len() == r0.actions@.len() + before.queue.len()
    &&& r1.actions@.take(r0.actions@.len() as int) == r0.actions@
    &&& r1.tick == r0.tick
    &&& r1.duration_us == r0.duration_us
    &&& r1.tasks_processed == r0.tasks_processed + count_processed(added)
    &&& r1.tasks_deferred == r0.tasks_deferred + count_deferred(added)
    &&& r1.tasks_escalated == r0.tasks_escalated + count_escalated(added)
    &&& after.total_tasks_processed == before.total_tasks_processed + count_processed(added)
    &&& after.total_escalations == before.total_escalations + count_escalated(added)
    &&& forall|t: TickTaskType|
        #[trigger] after.type_count(t) == before.type_count(t) + count_of_type(added, t)
    &&& after.queue.len() == count_delegated(added)
    &&& more == (after.queue.len() > 0)
    &&& after.tick_interval_ms == before.tick_interval_ms
    &&& after.start_time == before.start_time
    &&& after.handlers == before.handlers
    &&& after.tick_count == before.tick_count
    &&& after.total_duration_us == before.total_duration_us
    &&& after.context == before.context
}

impl<H, X> TickEngine<H, X> {
    /// A new engine ticking every `interval_ms` milliseconds, started at
    /// `start_time`, with an empty queue, no handlers, zero totals and a
    /// context at tick 0 holding the default state.
    pub fn started_at(interval_ms: u64, start_time: u64) -> (e: Self)
        where
            X: Default,
        ensures
            is_fresh(e@, interval_ms, start_time),
            call_ensures(X::default, (), e@.context.state),
    {
        let mut handlers: Vec<Option<H>> = Vec::new();
        let mut by_type: Vec<u64> = Vec::new();
        let mut i: usize = 0;
        while i < TASK_TYPE_COUNT
            invariant
                i <= TASK_TYPE_COUNT,
                handlers@.len() == i,
                by_type@.len() == i,
                forall|j: int| 0 <= j < i ==> (#[trigger] handlers@[j]) is None,
                forall|j: int| 0 <= j < i ==> #[trigger] by_type@[j] == 0,
            decreases TASK_TYPE_COUNT - i,
        {
            handlers.push(None);
            by_type.push(0);
            i = i + 1;
        }
        let e = TickEngine {
            tick_interval_ms: interval_ms,
            start_time,
            queue: Vec::new(),
            handlers,
            tick_count: 0,
            total_tasks_processed: 0,
            total_escalations: 0,
            total_duration_us: 0,
            by_type,
            context: TickContext { tick: 0, state: X::default() },
        };
        proof {
            assert forall|t: TickTaskType| (#[trigger] e@.handler(t)) is None by {
                lemma_type_index(t);
            }
            assert forall|t: TickTaskType| #[trigger] e@.type_count(t) == 0 by {
                lemma_type_index(t);
            }
        }
        e
    }

    /// A new engine ticking every `interval_ms` milliseconds, as
    /// `started_at` makes it, started at the current time in milliseconds.
    pub fn new(interval_ms: u64) -> (e: Self)
        where
            X: Default,
        ensures
            is_fresh(e@, interval_ms, e@.start_time),
            call_ensures(X::default, (), e@.context.state),
    {
        Self::started_at(interval_ms, now_ms())
    }

    /// The tick interval in milliseconds.
    pub fn tick_interval_ms(&self) -> (ms: u64)
        ensures
            ms == self@.tick_interval_ms,
    {
        self.tick_interval_ms
    }

    /// The time the engine was started at, in milliseconds.
    pub fn start_time(&self) -> (ms: u64)
        ensures
            ms == self@.start_time,
    {
        self.start_time
    }

    /// Registers `handler` for tasks of kind `task_type`, replacing any
    /// handler registered for that kind before.
    pub fn register_handler(&mut self, task_type: TickTaskType, handler: H)
        requires
            old(self)@.wf(),
        ensures
            final(self)@ == (EngineView {
                handlers: old(self)@.handlers.update(type_index(task_type), Some(handler)),
                ..old(self)@
            }),
    {
        let i = task_type.index();
        self.handlers.set(i, Some(handler));
    }

    /// Adds `task` at the back of the queue.
    pub fn enqueue(&mut self, task: TickTask)
        ensures
            final(self)@ == (EngineView { queue: old(self)@.queue.push(task), ..old(self)@ }),
    {
        self.queue.push(task);
    }

    /// The shared context.
    pub fn context(&self) -> (c: &TickContext<X>)
        ensures
            *c == self@.context,
    {
        &self.context
    }

    /// The shared context, to change in place.
    pub fn context_mut(&mut self) -> (c: &mut TickContext<X>)
        ensures
            *c == old(self)@.context,
            final(self)@ == (EngineView { context: *final(c), ..old(self)@ }),
    {
        &mut self.context
    }

    /// Replaces the shared context.
    pub fn set_context(&mut self, ctx: TickContext<X>)
        ensures
            final(self)@ == (EngineView { context: ctx, ..old(self)@ }),
    {
        self.context = ctx;
    }

    /// The number of queued tasks.
    pub fn queue_len(&self) -> (n: usize)
        ensures
            n == self@.queue.len(),
    {
        self.queue.len()
    }

    /// The number of ticks begun so far.
    pub fn tick_count(&self) -> (n: u64)
        ensures
            n == self@.tick_count,
    {
        self.tick_count
    }

    /// The summed duration of all finished ticks, in microseconds.
    pub fn total_duration_us(&self) -> (d: u64)
        ensures
            d == self@.total_duration_us,
    {
        self.total_duration_us
    }

    /// Starts the next tick: the tick count goes up by one, the context's
    /// tick number becomes the new count, and the result of the new tick
    /// starts with zero counters, no actions and zero duration.
    pub fn begin_tick(&mut self) -> (r: TickResult)
        requires
            old(self)@.tick_count < u64::MAX,
        ensures
            begin_step(old(self)@, final(self)@, r),
    {
        self.tick_count = self.tick_count + 1;
        self.context.tick = self.tick_count;
        TickResult {
            tick: self.tick_count,
            tasks_processed: 0,
            tasks_deferred: 0,
            tasks_escalated: 0,
            actions: Vec::new(),
            duration_us: 0,
        }
    }

    /// Whether a batch over the current queue fits all counters.
    pub fn batch_fits(&self, r: &TickResult) -> (b: bool)
        requires
            self@.wf(),
        ensures
            b == self@.batch_fits(*r),
    {
        let n = self.queue.len();
        if n as u64 > u32::MAX as u64 - r.tasks_processed as u64 {
            return false;
        }
        if n as u64 > u32::MAX as u64 - r.tasks_deferred as u64 {
            return false;
        }
        if n as u64 > u32::MAX as u64 - r.tasks_escalated as u64 {
            return false;
        }
        if n as u64 > u64::MAX - self.total_tasks_processed {
            return false;
        }
        if n as u64 > u64::MAX - self.total_escalations {
            return false;
        }
        let mut i: usize = 0;
        while i < TASK_TYPE_COUNT
            invariant
                i <= TASK_TYPE_COUNT,
                self@.wf(),
                n == self@.queue.len(),
                forall|j: int| 0 <= j < i ==> #[trigger] self@.by_type[j] + n <= u64::MAX,
            decreases TASK_TYPE_COUNT - i,
        {
            if n as u64 > u64::MAX - self.by_type[i] {
                return false;
            }
            i = i + 1;
        }
        true
    }

    /// Adds the duration of a finished tick to its result and to the
    /// engine's total.
    pub fn finish_tick(&mut self, result: &mut TickResult, duration_us: u64)
        requires
            old(self)@.total_duration_us + duration_us <= u64::MAX,
        ensures
            finish_step(old(self)@, *old(result), final(self)@, *final(result), duration_us),
    {
        result.duration_us = duration_us;
        self.total_duration_us = self.total_duration_us + duration_us;
    }

    /// The running totals: ticks, tasks processed, escalations, the mean
    /// duration of a tick (0 before the first tick), and the number of
    /// actions per task kind for the kinds that have any.
    pub fn counters(&self) -> (c: TickCounters)
        requires
            self@.wf(),
        ensures
            c.total_ticks == self@.tick_count,
            c.total_tasks_processed == self@.total_tasks_processed,
            c.total_escalations == self@.total_escalations,
            c.avg_duration_us == if self@.tick_count > 0 {
                self@.total_duration_us / self@.tick_count
            } else {
                0
            },
            c.by_type@ == nonzero_counts(self@.by_type, TASK_TYPE_COUNT as int),
            forall|t: TickTaskType|
                #[trigger] self@.type_count(t) > 0 ==> exists|i: int|
                    0 <= i < c.by_type@.len() && #[trigger] c.by_type@[i] == (t, self@.type_count(t)),
            forall|i: int|
                0 <= i < c.by_type@.len() ==> (#[trigger] c.by_type@[i]).1 == self@.type_count(
                    c.by_type@[i].0,
                ) && c.by_type@[i].1 > 0,
            forall|i: int, j: int|
                0 <= i < j < c.by_type@.len() ==> (#[trigger] c.by_type@[i]).0 != (
                #[trigger] c.by_type@[j]).0,
    {
        let avg = if self.tick_count > 0 {
            self.total_duration_us / self.tick_count
        } else {
            0
        };
        let mut by_type: Vec<(TickTaskType, u64)> = Vec::new();
        let mut i: usize = 0;
        while i < TASK_TYPE_COUNT
            invariant
                i <= TASK_TYPE_COUNT,
                self@.wf(),
                by_type@ == nonzero_counts(self@.by_type, i as int),
            decreases TASK_TYPE_COUNT - i,
        {
            let n = self.by_type[i];
            if n > 0 {
                by_type.push((TickTaskType::at(i), n));
            }
            i = i + 1;
        }
        proof {
            let counts = self@.by_type;
            law_nonzero_counts(counts, TASK_TYPE_COUNT as int);
            assert forall|t: TickTaskType| #[trigger] self@.type_count(t) > 0 implies exists|i: int|
                0 <= i < by_type@.len() && #[trigger] by_type@[i] == (t, self@.type_count(t)) by {
                lemma_type_index(t);
                let k = type_index(t);
                assert(counts[k] > 0);
                let i = choose|i: int| 0 <= i < by_type@.len() && (#[trigger] by_type@[i]).0 == type_at(k);
                assert(by_type@[i].1 == counts[type_index(by_type@[i].0)]);
            }
            assert forall|i: int| 0 <= i < by_type@.len() implies (#[trigger] by_type@[i]).1
                == self@.type_count(by_type@[i].0) && by_type@[i].1 > 0 by {
                assert(by_type@[i].1 == counts[type_index(by_type@[i].0)]);
            }
            assert forall|i: int, j: int| 0 <= i < j < by_type@.len() implies (#[trigger] by_type@[i]).0
                != (#[trigger] by_type@[j]).0 by {
                assert(type_index(by_type@[i].0) < type_index(by_type@[j].0));
            }
        }
        TickCounters {
            total_ticks: self.tick_count,
            total_tasks_processed: self.total_tasks_processed,
            total_escalations: self.total_escalations,
            avg_duration_us: avg,
            by_type,
        }
    }

    /// Takes every queued task in priority order (highest rank first, the
    /// earlier queued among equal ranks), hands it with the context to the
    /// handler registered for its kind and records the action in `result`:
    /// the returned action, or `Processed("error")` when the handler fails
    /// or no handler is registered. Processed and no-op actions count as
    /// processed tasks, deferrals and escalations are counted as such, and
    /// every action counts for its task's kind. The tasks that delegations
    /// hand on become the queue, in the order they were handed on; the
    /// answer tells whether there are any.
    pub fn process_batch<F>(&mut self, result: &mut TickResult, dispatch: &F) -> (more: bool)
        where
            F: Fn(&H, &TickTask, &TickContext<X>) -> Result<TickAction, TickError>,
        requires
            old(self)@.wf(),
            old(self)@.batch_fits(*old(result)),
            forall|h: &H, t: &TickTask, c: &TickContext<X>| dispatch.requires((h, t, c)),
        ensures
            ({
                let before = old(self)@;
                let after = final(self)@;
                let order = drain_order(before.queue);
                let a0 = old(result).actions@;
                let added = final(result).actions@.skip(a0.len() as int);
                &&& after.wf()
                &&& final(result).actions@.len() == a0.len() + order.len()
                &&& final(result).actions@.take(a0.len() as int) == a0
                &&& forall|i: int|
                    0 <= i < order.len() ==> (#[trigger] added[i]).0 == order[i].task_type
                        && handled_as(
                        before.handler(order[i].task_type),
                        *dispatch,
                        before.context,
                        order[i],
                        added[i].1,
                    )
                &&& final(result).tick == old(result).tick
                &&& final(result).duration_us == old(result).duration_us
                &&& final(result).tasks_processed == old(result).tasks_processed + count_processed(added)
                &&& final(result).tasks_deferred == old(result).tasks_deferred + count_deferred(added)
                &&& final(result).tasks_escalated == old(result).tasks_escalated + count_escalated(added)
                &&& after.total_tasks_processed == before.total_tasks_processed + count_processed(added)
                &&& after.total_escalations == before.total_escalations + count_escalated(added)
                &&& forall|t: TickTaskType|
                    #[trigger] after.type_count(t) == before.type_count(t) + count_of_type(added, t)
                &&& task_views(after.queue) == task_views(delegated_tasks(added))
                &&& more == (delegated_tasks(added).len() > 0)
                &&& after.tick_interval_ms == before.tick_interval_ms
                &&& after.start_time == before.start_time
                &&& after.handlers == before.handlers
                &&& after.tick_count == before.tick_count
                &&& after.total_duration_us == before.total_duration_us
                &&& after.context == before.context
                &&& after.queue.len() == count_delegated(added)
                &&& !more ==> after.queue.len() == 0
            }),
            batch_step(old(self)@, *old(result), final(self)@, *final(result), more),
    {
        let ghost before = self@;
        let ghost order = drain_order(self.queue@);
        let ghost a0 = result.actions@;
        let ghost r0 = *result;
        let ghost mut done: Seq<TickTask> = Seq::empty();
        let mut delegated: Vec<TickTask> = Vec::new();
        while self.queue.len() > 0
            invariant
                self@.wf(),
                before.wf(),
                before.batch_fits(r0),
                forall|h: &H, t: &TickTask, c: &TickContext<X>| dispatch.requires((h, t, c)),
                order == drain_order(before.queue),
                order == done + drain_order(self.queue@),
                done.len() + self.queue@.len() == before.queue.len(),
                result.actions@.len() == a0.len() + done.len(),
                result.actions@.take(a0.len() as int) == a0,
                forall|i: int|
                    0 <= i < done.len() ==> (#[trigger] result.actions@.skip(a0.len() as int)[i]).0
                        == done[i].task_type && handled_as(
                        before.handler(done[i].task_type),
                        *dispatch,
                        before.context,
                        done[i],
                        result.actions@.skip(a0.len() as int)[i].1,
                    ),
                result.tick == r0.tick,
                result.duration_us == r0.duration_us,
                result.tasks_processed == r0.tasks_processed + count_processed(
                    result.actions@.skip(a0.len() as int),
                ),
                result.tasks_deferred == r0.tasks_deferred + count_deferred(
                    result.actions@.skip(a0.len() as int),
                ),
                result.tasks_escalated == r0.tasks_escalated + count_escalated(
                    result.actions@.skip(a0.len() as int),
                ),
                self.total_tasks_processed == before.total_tasks_processed + count_processed(
                    result.actions@.skip(a0.len() as int),
                ),
                self.total_escalations == before.total_escalations + count_escalated(
                    result.actions@.skip(a0.len() as int),
                ),
                forall|j: int|
                    0 <= j < TASK_TYPE_COUNT ==> #[trigger] self.by_type@[j] == before.by_type[j]
                        + count_of_type(result.actions@.skip(a0.len() as int), type_at(j)),
                task_views(delegated@) == task_views(
                    delegated_tasks(result.actions@.skip(a0.len() as int)),
                ),
                self.tick_interval_ms == before.tick_interval_ms,
                self.start_time == before.start_time,
                self.handlers@ == before.handlers,
                self.tick_count == before.tick_count,
                self.total_duration_us == before.total_duration_us,
                self.context == before.context,
            decreases self.queue@.len(),
        {
            let ghost added = result.actions@.skip(a0.len() as int);
            proof {
                lemma_drain_step(self.queue@);
                lemma_best_index(self.queue@);
                lemma_counts_bound(added);
            }
            let b = pick_best(&self.queue);
            let task = self.queue.remove(b);
            let task_type = task.task_type;
            let idx = task_type.index();
            proof {
                lemma_type_index(task_type);
            }
            let act = match &self.handlers[idx] {
                Some(h) => {
                    let out = dispatch(h, &task, &self.context);
                    let ghost gout = out;
                    let act = match out {
                        Ok(a) => a,
                        Err(_) => TickAction::Processed(String::from_str("error")),
                    };
                    proof {
                        reveal_strlit("error");
                        assert(settles_to(gout, act));
                        assert(handled_as(before.handler(task_type), *dispatch, before.context, task, act));
                    }
                    act
                },
                None => {
                    let act = TickAction::Processed(String::from_str("error"));
                    proof {
                        assert(handled_as(before.handler(task_type), *dispatch, before.context, task, act));
                    }
                    act
                },
            };
            let ghost entry = (task_type, act);
            proof {
                lemma_counts_push(added, entry);
                lemma_delegated_push(added, entry);
                assert forall|j: int| 0 <= j < TASK_TYPE_COUNT implies count_of_type(added.push(entry), #[trigger] type_at(j))
                    == count_of_type(added, type_at(j)) + if j == idx { 1nat } else { 0nat } by {
                    lemma_type_at(j);
                }
            }
            match &act {
                TickAction::Deferred(_) => {
                    result.tasks_deferred = result.tasks_deferred + 1;
                },
                TickAction::Escalated { .. } => {
                    result.tasks_escalated = result.tasks_escalated + 1;
                    self.total_escalations = self.total_escalations + 1;
                },
                TickAction::Delegated { task: handed_on, .. } => {
                    let copy = TickTask::clone(handed_on);
                    proof {
                        assert(task_views(delegated@.push(copy)) =~= task_views(delegated@).push(copy@));
                        assert(task_views(delegated_tasks(added).push(**handed_on)) =~= task_views(
                            delegated_tasks(added),
                        ).push(copy@));
                    }
                    delegated.push(copy);
                },
                TickAction::Processed(_) | TickAction::Noop => {
                    result.tasks_processed = result.tasks_processed + 1;
                    self.total_tasks_processed = self.total_tasks_processed + 1;
                },
            }
            let count = self.by_type[idx];
            self.by_type.set(idx, count + 1);
            result.actions.push((task_type, act));
            proof {
                assert(result.actions@.skip(a0.len() as int) =~= added.push(entry));
                assert(result.actions@.take(a0.len() as int) =~= a0);
                done = done.push(task);
                assert(order =~= done + drain_order(self.queue@));
            }
        }
        proof {
            assert(drain_order(self.queue@) =~= Seq::<TickTask>::empty());
            assert(done =~= order);
        }
        let more = delegated.len() > 0;
        self.queue = delegated;
        proof {
            let added = result.actions@.skip(a0.len() as int);
            law_counts_partition(added);
            crate::schedule::law_drain_is_permutation(before.queue);
            assert(task_views(self.queue@).len() == self.queue@.len());
            assert forall|t: TickTaskType| #[trigger] self@.type_count(t) == before.type_count(t)
                + count_of_type(added, t) by {
                lemma_type_index(t);
            }
        }
        more
    }
}

/// Every task queued when a batch starts is accounted for exactly once:
/// the processed, deferred, escalated and delegated counts of the batch's
/// actions add up to the length of the queue.
pub proof fn law_batch_accounts_for_every_task(
    q: Seq<TickTask>,
    added: Seq<(TickTaskType, TickAction)>,
)
    requires
        added.len() == drain_order(q).len(),
    ensures
        count_processed(added) + count_deferred(added) + count_escalated(added) + count_delegated(
            added,
        ) == q.len(),
{
    crate::schedule::law_drain_is_permutation(q);
    law_counts_partition(added);
}

} // verus!

//! The order in which queued tasks are taken: highest priority first, and
//! among tasks of equal priority the one queued first.

use crate::priority::rank_of;
use crate::task::TickTask;
use vstd::multiset::Multiset;
use vstd::prelude::*;

verus! {

/// The rank of a task's priority.
pub open spec fn task_rank(t: TickTask) -> int {
    rank_of(t.priority)
}

/// The position of the task taken next: the first one of highest rank.
pub open spec fn best_index(q: Seq<TickTask>) -> int
    decreases q.len(),
{
    if q.len() <= 1 {
        0
    } else {
        let b = best_index(q.drop_last());
        if task_rank(q.last()) > task_rank(q[b]) {
            q.len() - 1
        } else {
            b
        }
    }
}

/// The position chosen is in the queue, its task has the highest rank, and
/// every task before it ranks strictly lower.
pub proof fn lemma_best_index(q: Seq<TickTask>)
    requires
        q.len() > 0,
    ensures
        0 <= best_index(q) < q.len(),
        forall|j: int| 0 <= j < q.len() ==> task_rank(#[trigger] q[j]) <= task_rank(q[best_index(q)]),
        forall|j: int| 0 <= j < best_index(q) ==> task_rank(#[trigger] q[j]) < task_rank(q[best_index(q)]),
    decreases q.len(),
{
    if q.len() > 1 {
        let p = q.drop_last();
        lemma_best_index(p);
        let b = best_index(p);
        assert(p[b] == q[b]);
        assert forall|j: int| 0 <= j < q.len() - 1 implies #[trigger] q[j] == p[j] by {}
    }
}

/// The order in which the tasks of a queue are taken until it is empty.
pub open spec fn drain_order(q: Seq<TickTask>) -> Seq<TickTask>
    decreases q.len(),
{
    if q.len() == 0 {
        Seq::empty()
    } else {
        proof {
            lemma_best_index(q);
        }
        let b = best_index(q);
        seq![q[b]] + drain_order(q.remove(b))
    }
}

/// One step of the drain order: the best task, then the order of the rest.
pub proof fn lemma_drain_step(q: Seq<TickTask>)
    requires
        q.len() > 0,
    ensures
        drain_order(q) == seq![q[best_index(q)]] + drain_order(q.remove(best_index(q))),
{
    lemma_best_index(q);
}

/// Taking tasks in drain order takes every queued task exactly once.
pub proof fn law_drain_is_permutation(q: Seq<TickTask>)
    ensures
        drain_order(q).len() == q.len(),
        drain_order(q).to_multiset() == q.to_multiset(),
    decreases q.len(),
{
    broadcast use vstd::seq_lib::group_seq_properties;
    broadcast use vstd::multiset::group_multiset_axioms;

    if q.len() > 0 {
        lemma_best_index(q);
        let b = best_index(q);
        let r = q.remove(b);
        law_drain_is_permutation(r);
        vstd::seq_lib::lemma_multiset_commutative(seq![q[b]], drain_order(r));
        assert(seq![q[b]].to_multiset() =~= Multiset::empty().insert(q[b])) by {
            assert(seq![q[b]] =~= Seq::<TickTask>::empty().push(q[b]));
        }
        assert(r.to_multiset() =~= q.to_multiset().remove(q[b]));
        assert(q.to_multiset().count(q[b]) > 0) by {
            assert(q.contains(q[b]));
        }
        assert(drain_order(q).to_multiset() =~= q.to_multiset());
    }
}

proof fn lemma_drain_members(q: Seq<TickTask>, i: int)
    requires
        0 <= i < drain_order(q).len(),
    ensures
        q.contains(drain_order(q)[i]),
{
    broadcast use vstd::seq_lib::group_seq_properties;

    law_drain_is_permutation(q);
    let d = drain_order(q);
    assert(d.contains(d[i]));
    assert(d.to_multiset().count(d[i]) > 0);
}

/// Tasks are taken in order of non-increasing rank.
pub proof fn law_drain_by_priority(q: Seq<TickTask>)
    ensures
        forall|i: int, j: int|
            0 <= i < j < drain_order(q).len() ==> task_rank(#[trigger] drain_order(q)[i]) >= task_rank(
                #[trigger] drain_order(q)[j],
            ),
    decreases q.len(),
{
    if q.len() > 0 {
        lemma_best_index(q);
        let b = best_index(q);
        let r = q.remove(b);
        law_drain_by_priority(r);
        law_drain_is_permutation(r);
        let d = drain_order(q);
        let dr = drain_order(r);
        assert(d == seq![q[b]] + dr);
        assert forall|i: int, j: int| 0 <= i < j < d.len() implies task_rank(#[trigger] d[i])
            >= task_rank(#[trigger] d[j]) by {
            assert(d[j] == dr[j - 1]);
            if i == 0 {
                lemma_drain_members(r, j - 1);
                let k = choose|k: int| 0 <= k < r.len() && r[k] == dr[j - 1];
                if k < b {
                    assert(r[k] == q[k]);
                } else {
                    assert(r[k] == q[k + 1]);
                }
            } else {
                assert(d[i] == dr[i - 1]);
            }
        }
    }
}

/// The position of the task to take next from a non-empty queue.
pub fn pick_best(q: &Vec<TickTask>) -> (b: usize)
    requires
        q@.len() > 0,
    ensures
        b == best_index(q@),
{
    let mut best: usize = 0;
    let mut best_rank: u64 = q[0].priority.rank();
    let mut i: usize = 1;
    assert(q@.take(1).len() == 1);
    while i < q.len()
        invariant
            1 <= i <= q@.len(),
            best < i,
            best == best_index(q@.take(i as int)),
            best_rank == task_rank(q@[best as int]),
        decreases q@.len() - i,
    {
        let r = q[i].priority.rank();
        proof {
            let t = q@.take(i + 1);
            assert(t.drop_last() =~= q@.take(i as int));
            assert(t.last() == q@[i as int]);
            assert(t[best as int] == q@[best as int]);
        }
        if r > best_rank {
            best = i;
            best_rank = r;
        }
        i = i + 1;
    }
    assert(q@.take(q@.len() as int) =~= q@);
    best
}

} // verus!

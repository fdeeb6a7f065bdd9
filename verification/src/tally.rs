//! How the actions of a tick are counted.

use crate::action::{TickAction, TickError};
use crate::task::{TickTask, TickTaskType};
use vstd::prelude::*;

verus! {

/// Processed and no-op actions count as processed tasks.
pub open spec fn counts_as_processed(a: TickAction) -> bool {
    a is Processed || a is Noop
}

/// The number of entries that satisfy `p`.
pub open spec fn count_where(
    s: Seq<(TickTaskType, TickAction)>,
    p: spec_fn((TickTaskType, TickAction)) -> bool,
) -> nat
    decreases s.len(),
{
    if s.len() == 0 {
        0
    } else {
        count_where(s.drop_last(), p) + if p(s.last()) {
            1nat
        } else {
            0nat
        }
    }
}

/// Entries whose action counts as processed.
pub open spec fn count_processed(s: Seq<(TickTaskType, TickAction)>) -> nat {
    count_where(s, |e: (TickTaskType, TickAction)| counts_as_processed(e.1))
}

/// Entries whose action is a deferral.
pub open spec fn count_deferred(s: Seq<(TickTaskType, TickAction)>) -> nat {
    count_where(s, |e: (TickTaskType, TickAction)| e.1 is Deferred)
}

/// Entries whose action is an escalation.
pub open spec fn count_escalated(s: Seq<(TickTaskType, TickAction)>) -> nat {
    count_where(s, |e: (TickTaskType, TickAction)| e.1 is Escalated)
}

/// Entries whose action is a delegation.
pub open spec fn count_delegated(s: Seq<(TickTaskType, TickAction)>) -> nat {
    count_where(s, |e: (TickTaskType, TickAction)| e.1 is Delegated)
}

/// Entries for tasks of kind `t`.
pub open spec fn count_of_type(s: Seq<(TickTaskType, TickAction)>, t: TickTaskType) -> nat {
    count_where(s, |e: (TickTaskType, TickAction)| e.0 == t)
}

/// The tasks handed on by the delegations among the entries, in order.
pub open spec fn delegated_tasks(s: Seq<(TickTaskType, TickAction)>) -> Seq<TickTask>
    decreases s.len(),
{
    if s.len() == 0 {
        Seq::empty()
    } else {
        match s.last().1 {
            TickAction::Delegated { task, .. } => delegated_tasks(s.drop_last()).push(*task),
            _ => delegated_tasks(s.drop_last()),
        }
    }
}

/// The action recorded for what a handler returned: the action itself, or
/// `Processed("error")` for an error.
pub open spec fn settles_to(out: Result<TickAction, TickError>, a: TickAction) -> bool {
    match out {
        Ok(x) => a == x,
        Err(_) => is_error_record(a),
    }
}

/// The action recorded for a failed task: `Processed("error")`.
pub open spec fn is_error_record(a: TickAction) -> bool {
    a matches TickAction::Processed(m) && m@ == "error"@
}

/// Appending one entry adds its own share to each count.
pub proof fn lemma_counts_push(s: Seq<(TickTaskType, TickAction)>, e: (TickTaskType, TickAction))
    ensures
        count_processed(s.push(e)) == count_processed(s) + if counts_as_processed(e.1) {
            1nat
        } else {
            0nat
        },
        count_deferred(s.push(e)) == count_deferred(s) + if e.1 is Deferred {
            1nat
        } else {
            0nat
        },
        count_escalated(s.push(e)) == count_escalated(s) + if e.1 is Escalated {
            1nat
        } else {
            0nat
        },
        count_delegated(s.push(e)) == count_delegated(s) + if e.1 is Delegated {
            1nat
        } else {
            0nat
        },
        forall|t: TickTaskType|
            #[trigger] count_of_type(s.push(e), t) == count_of_type(s, t) + if e.0 == t {
                1nat
            } else {
                0nat
            },
{
    assert(s.push(e).drop_last() =~= s);
}

/// The counts of two sequences of entries add up to those of the two
/// joined.
pub proof fn lemma_counts_concat(a: Seq<(TickTaskType, TickAction)>, b: Seq<(TickTaskType, TickAction)>)
    ensures
        count_processed(a + b) == count_processed(a) + count_processed(b),
        count_deferred(a + b) == count_deferred(a) + count_deferred(b),
        count_escalated(a + b) == count_escalated(a) + count_escalated(b),
        count_delegated(a + b) == count_delegated(a) + count_delegated(b),
        forall|t: TickTaskType| #[trigger] count_of_type(a + b, t) == count_of_type(a, t) + count_of_type(b, t),
    decreases b.len(),
{
    if b.len() == 0 {
        assert(a + b =~= a);
    } else {
        lemma_counts_concat(a, b.drop_last());
        assert((a + b).drop_last() =~= a + b.drop_last());
        assert((a + b).last() == b.last());
        assert forall|t: TickTaskType| #[trigger] count_of_type(a + b, t) == count_of_type(a, t)
            + count_of_type(b, t) by {
            assert(count_of_type(a + b.drop_last(), t) == count_of_type(a, t) + count_of_type(b.drop_last(), t));
        }
    }
}

/// Each count is at most the number of entries.
pub proof fn lemma_counts_bound(s: Seq<(TickTaskType, TickAction)>)
    ensures
        count_processed(s) <= s.len(),
        count_deferred(s) <= s.len(),
        count_escalated(s) <= s.len(),
        forall|t: TickTaskType| #[trigger] count_of_type(s, t) <= s.len(),
{
    law_counts_partition(s);
    assert forall|t: TickTaskType| #[trigger] count_of_type(s, t) <= s.len() by {
        lemma_count_bound(s, |e: (TickTaskType, TickAction)| e.0 == t);
    }
}

pub proof fn lemma_count_bound(
    s: Seq<(TickTaskType, TickAction)>,
    p: spec_fn((TickTaskType, TickAction)) -> bool,
)
    ensures
        count_where(s, p) <= s.len(),
    decreases s.len(),
{
    if s.len() > 0 {
        lemma_count_bound(s.drop_last(), p);
    }
}

pub proof fn lemma_delegated_push(s: Seq<(TickTaskType, TickAction)>, e: (TickTaskType, TickAction))
    ensures
        delegated_tasks(s.push(e)) == match e.1 {
            TickAction::Delegated { task, .. } => delegated_tasks(s).push(*task),
            _ => delegated_tasks(s),
        },
{
    assert(s.push(e).drop_last() =~= s);
}

/// Every recorded action is exactly one of processed, deferred, escalated
/// or delegated, so the four counts add up to the number of actions.
pub proof fn law_counts_partition(s: Seq<(TickTaskType, TickAction)>)
    ensures
        count_processed(s) + count_deferred(s) + count_escalated(s) + count_delegated(s) == s.len(),
        count_delegated(s) == delegated_tasks(s).len(),
    decreases s.len(),
{
    if s.len() > 0 {
        law_counts_partition(s.drop_last());
    }
}

/// The counts by kind add up to the number of actions.
pub proof fn law_type_counts_partition(s: Seq<(TickTaskType, TickAction)>)
    ensures
        count_of_type(s, TickTaskType::MessageReceived) + count_of_type(s, TickTaskType::MessageRouted)
            + count_of_type(s, TickTaskType::RoomGravityUpdate) + count_of_type(
            s,
            TickTaskType::EnsignTick,
        ) + count_of_type(s, TickTaskType::DeadbandCheck) + count_of_type(
            s,
            TickTaskType::CorrelationScan,
        ) + count_of_type(s, TickTaskType::ProvenanceRecord) + count_of_type(
            s,
            TickTaskType::ConservationCheck,
        ) + count_of_type(s, TickTaskType::PhoneAFriend) + count_of_type(s, TickTaskType::StandDown)
            + count_of_type(s, TickTaskType::Escalation) + count_of_type(
            s,
            TickTaskType::BootstrapRoom,
        ) == s.len(),
    decreases s.len(),
{
    if s.len() > 0 {
        law_type_counts_partition(s.drop_last());
    }
}

} // verus!

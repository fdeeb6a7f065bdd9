//! Handler errors, the actions handlers answer with, and the result of a
//! tick.

use crate::task::{TickTask, TickTaskType};
use crate::text::{decimal_text, push_decimal};
use vstd::prelude::*;

verus! {

/// Why a handler could not act on a task.
#[derive(Debug, Clone, PartialEq)]
pub enum TickError {
    HandlerFailed(String),
    ContextMissing(String),
    BudgetExceeded(String),
    UnknownTaskType(String),
}

/// The message of an error: a fixed prefix and the detail.
pub open spec fn error_text(e: TickError) -> Seq<char> {
    match e {
        TickError::HandlerFailed(s) => "handler failed: "@ + s@,
        TickError::ContextMissing(s) => "context missing: "@ + s@,
        TickError::BudgetExceeded(s) => "budget exceeded: "@ + s@,
        TickError::UnknownTaskType(s) => "unknown task type: "@ + s@,
    }
}

impl TickError {
    /// The message of this error.
    pub fn to_string(&self) -> (s: String)
        ensures
            s@ == error_text(*self),
    {
        let (prefix, detail) = match self {
            TickError::HandlerFailed(s) => ("handler failed: ", s),
            TickError::ContextMissing(s) => ("context missing: ", s),
            TickError::BudgetExceeded(s) => ("budget exceeded: ", s),
            TickError::UnknownTaskType(s) => ("unknown task type: ", s),
        };
        let mut out = String::from_str(prefix);
        out.append(detail.as_str());
        out
    }
}

/// What a handler did with a task.
#[derive(Debug, Clone)]
pub enum TickAction {
    Processed(String),
    Delegated { to: String, task: Box<TickTask> },
    Escalated { reason: String, room: Option<String> },
    Deferred(u64),
    Noop,
}

/// The text that describes an action.
pub open spec fn describe_text(a: TickAction) -> Seq<char> {
    match a {
        TickAction::Processed(msg) => "Processed: "@ + msg@,
        TickAction::Delegated { to, .. } => "Delegated to "@ + to@,
        TickAction::Escalated { reason, room } => "Escalated: "@ + reason@ + match room {
            Some(r) => " (room: "@ + r@ + ")"@,
            None => Seq::<char>::empty(),
        },
        TickAction::Deferred(ticks) => "Deferred for "@ + decimal_text(ticks as nat) + " ticks"@,
        TickAction::Noop => "Noop"@,
    }
}

impl TickAction {
    /// A one-line description of this action.
    pub fn describe(&self) -> (s: String)
        ensures
            s@ == describe_text(*self),
    {
        match self {
            TickAction::Processed(msg) => {
                let mut s = String::from_str("Processed: ");
                s.append(msg.as_str());
                s
            },
            TickAction::Delegated { to, .. } => {
                let mut s = String::from_str("Delegated to ");
                s.append(to.as_str());
                s
            },
            TickAction::Escalated { reason, room } => {
                let mut s = String::from_str("Escalated: ");
                s.append(reason.as_str());
                match room {
                    Some(r) => {
                        s.append(" (room: ");
                        s.append(r.as_str());
                        s.append(")");
                        assert(s@ =~= describe_text(*self));
                    },
                    None => {
                        assert(s@ =~= describe_text(*self));
                    },
                }
                s
            },
            TickAction::Deferred(ticks) => {
                let mut s = String::from_str("Deferred for ");
                push_decimal(&mut s, *ticks);
                s.append(" ticks");
                s
            },
            TickAction::Noop => String::from_str("Noop"),
        }
    }
}

/// What one tick did.
#[derive(Debug, Clone)]
pub struct TickResult {
    pub tick: u64,
    pub tasks_processed: u32,
    pub tasks_deferred: u32,
    pub tasks_escalated: u32,
    pub actions: Vec<(TickTaskType, TickAction)>,
    pub duration_us: u64,
}

/// The one-line summary of a tick result.
pub open spec fn summary_text(r: TickResult) -> Seq<char> {
    "tick "@ + decimal_text(r.tick as nat) + " | processed: "@ + decimal_text(
        r.tasks_processed as nat,
    ) + " | deferred: "@ + decimal_text(r.tasks_deferred as nat) + " | escalated: "@
        + decimal_text(r.tasks_escalated as nat) + " | actions: "@ + decimal_text(
        r.actions@.len(),
    ) + " | "@ + decimal_text(r.duration_us as nat) + "µs"@
}

impl TickResult {
    /// A one-line summary of counters, number of actions and duration.
    pub fn summary(&self) -> (s: String)
        ensures
            s@ == summary_text(*self),
    {
        let mut s = String::from_str("tick ");
        push_decimal(&mut s, self.tick);
        s.append(" | processed: ");
        push_decimal(&mut s, self.tasks_processed as u64);
        s.append(" | deferred: ");
        push_decimal(&mut s, self.tasks_deferred as u64);
        s.append(" | escalated: ");
        push_decimal(&mut s, self.tasks_escalated as u64);
        s.append(" | actions: ");
        push_decimal(&mut s, self.actions.len() as u64);
        s.append(" | ");
        push_decimal(&mut s, self.duration_us);
        s.append("µs");
        assert(s@ =~= summary_text(*self));
        s
    }
}

/// The summary ends with the number of recorded actions and the duration:
/// ` | actions: `, the decimal number of actions, ` | `, the decimal
/// duration and `µs`.
pub proof fn law_summary_ends_with_actions_and_duration(r: TickResult)
    ensures
        ({
            let s = summary_text(r);
            let tail = " | actions: "@ + decimal_text(r.actions@.len()) + " | "@ + decimal_text(
                r.duration_us as nat,
            ) + "µs"@;
            &&& s.len() >= tail.len()
            &&& s.subrange(s.len() - tail.len(), s.len() as int) == tail
        }),
{
    let s = summary_text(r);
    let head = "tick "@ + decimal_text(r.tick as nat) + " | processed: "@ + decimal_text(
        r.tasks_processed as nat,
    ) + " | deferred: "@ + decimal_text(r.tasks_deferred as nat) + " | escalated: "@
        + decimal_text(r.tasks_escalated as nat);
    let tail = " | actions: "@ + decimal_text(r.actions@.len()) + " | "@ + decimal_text(
        r.duration_us as nat,
    ) + "µs"@;
    assert(s =~= head + tail);
    assert(s.subrange(s.len() - tail.len(), s.len() as int) =~= tail);
}

/// Two results that agree on the tick, the counters and the duration have
/// the same summary exactly when they hold the same number of actions.
pub proof fn law_summary_tells_action_counts_apart(r1: TickResult, r2: TickResult)
    requires
        r1.tick == r2.tick,
        r1.tasks_processed == r2.tasks_processed,
        r1.tasks_deferred == r2.tasks_deferred,
        r1.tasks_escalated == r2.tasks_escalated,
        r1.duration_us == r2.duration_us,
    ensures
        summary_text(r1) == summary_text(r2) <==> r1.actions@.len() == r2.actions@.len(),
{
    let x = "tick "@ + decimal_text(r1.tick as nat) + " | processed: "@ + decimal_text(
        r1.tasks_processed as nat,
    ) + " | deferred: "@ + decimal_text(r1.tasks_deferred as nat) + " | escalated: "@
        + decimal_text(r1.tasks_escalated as nat) + " | actions: "@;
    let t = " | "@ + decimal_text(r1.duration_us as nat) + "µs"@;
    let d1 = decimal_text(r1.actions@.len());
    let d2 = decimal_text(r2.actions@.len());
    assert(summary_text(r1) =~= x + d1 + t);
    assert(summary_text(r2) =~= x + d2 + t);
    if summary_text(r1) == summary_text(r2) {
        let s = summary_text(r1);
        assert(d1.len() == d2.len());
        assert(s.subrange(x.len() as int, (x.len() + d1.len()) as int) =~= d1);
        assert(summary_text(r2).subrange(x.len() as int, (x.len() + d2.len()) as int) =~= d2);
        crate::text::law_decimal_injective(r1.actions@.len(), r2.actions@.len());
    }
}

} // verus!

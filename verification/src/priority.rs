//! Task priorities and the order between them.

use std::cmp::Ordering;
use vstd::prelude::*;
use vstd::std_specs::cmp::{PartialOrdSpec, PartialOrdSpecImpl};

verus! {

/// Priority of a tick task. `Critical(n)` is the highest band (a larger `n`
/// ranks higher), `Background` the lowest.
#[derive(Clone, Copy, Debug, PartialEq, Eq, Hash, Structural)]
pub enum TickPriority {
    Critical(u32),
    High,
    Normal,
    Low,
    Background,
}

/// The numeric rank that orders priorities: `2000 + n` for `Critical(n)`,
/// then 1000, 500, 100 and 0.
pub open spec fn rank_of(p: TickPriority) -> int {
    match p {
        TickPriority::Critical(n) => 2000 + n,
        TickPriority::High => 1000,
        TickPriority::Normal => 500,
        TickPriority::Low => 100,
        TickPriority::Background => 0,
    }
}

/// The order between two priorities, as `partial_cmp` answers it.
pub open spec fn priority_order(a: TickPriority, b: TickPriority) -> Option<Ordering> {
    if rank_of(a) < rank_of(b) {
        Some(Ordering::Less)
    } else if rank_of(a) == rank_of(b) {
        Some(Ordering::Equal)
    } else {
        Some(Ordering::Greater)
    }
}

impl TickPriority {
    /// The rank of this priority as a `u32`. For `Critical(n)` the sum
    /// `2000 + n` must fit in a `u32`.
    pub fn order_value(&self) -> (v: u32)
        requires
            self matches TickPriority::Critical(n) ==> n <= u32::MAX - 2000,
        ensures
            v == rank_of(*self),
    {
        match self {
            TickPriority::Critical(n) => 2000 + *n,
            TickPriority::High => 1000,
            TickPriority::Normal => 500,
            TickPriority::Low => 100,
            TickPriority::Background => 0,
        }
    }

    /// The rank of this priority, wide enough for every `Critical(n)`.
    pub fn rank(&self) -> (r: u64)
        ensures
            r == rank_of(*self),
    {
        match self {
            TickPriority::Critical(n) => 2000u64 + (*n as u64),
            TickPriority::High => 1000,
            TickPriority::Normal => 500,
            TickPriority::Low => 100,
            TickPriority::Background => 0,
        }
    }
}

impl Default for TickPriority {
    /// `Normal` is the default priority.
    fn default() -> (p: Self)
        ensures
            p == TickPriority::Normal,
    {
        TickPriority::Normal
    }
}

impl PartialOrd for TickPriority {
    fn partial_cmp(&self, other: &Self) -> (r: Option<Ordering>) {
        let a = self.rank();
        let b = other.rank();
        if a < b {
            Some(Ordering::Less)
        } else if a == b {
            Some(Ordering::Equal)
        } else {
            Some(Ordering::Greater)
        }
    }
}

impl PartialOrdSpecImpl for TickPriority {
    open spec fn obeys_partial_cmp_spec() -> bool {
        true
    }

    open spec fn partial_cmp_spec(&self, other: &Self) -> Option<Ordering> {
        priority_order(*self, *other)
    }
}

/// Priorities are ordered by their ranks: one is above another exactly when
/// its rank is larger, and every `Critical` priority is above `High`, which
/// is above `Normal`, above `Low`, above `Background`.
pub proof fn law_priority_bands(n: u32)
    ensures
        rank_of(TickPriority::Critical(n)) > rank_of(TickPriority::High),
        rank_of(TickPriority::High) > rank_of(TickPriority::Normal),
        rank_of(TickPriority::Normal) > rank_of(TickPriority::Low),
        rank_of(TickPriority::Low) > rank_of(TickPriority::Background),
        forall|m: u32|
            n < m ==> rank_of(TickPriority::Critical(n)) < #[trigger] rank_of(
                TickPriority::Critical(m),
            ),
{
}

/// The order is total and antisymmetric up to rank: exactly one of less,
/// equal, greater holds, and swapping the arguments reverses it.
pub proof fn law_priority_order_total(a: TickPriority, b: TickPriority)
    ensures
        priority_order(a, b) is Some,
        priority_order(a, b) == Some(Ordering::Less) <==> priority_order(b, a) == Some(
            Ordering::Greater,
        ),
        priority_order(a, b) == Some(Ordering::Equal) <==> rank_of(a) == rank_of(b),
        rank_of(a) == rank_of(b) <==> a == b,
{
}

/// What `partial_cmp` answers for two priorities.
pub open spec fn compared(a: TickPriority, b: TickPriority) -> Option<Ordering> {
    PartialOrdSpec::partial_cmp_spec(&a, &b)
}

/// Comparing two priorities answers as the bands say: every `Critical`
/// priority is above every other, two `Critical` priorities compare by
/// their numbers, `High` is above `Normal`, `Low` and `Background`,
/// `Normal` above `Low` and `Background`, `Low` above `Background`; a
/// priority compares equal only to itself, and swapping the two reverses
/// the answer. The answer is `Less` exactly when the first rank is the
/// smaller, `Greater` exactly when it is the larger.
pub proof fn law_priority_order_follows_bands(a: TickPriority, b: TickPriority)
    ensures
        compared(a, b) is Some,
        compared(a, b) == Some(Ordering::Less) <==> rank_of(a) < rank_of(b),
        compared(a, b) == Some(Ordering::Greater) <==> rank_of(a) > rank_of(b),
        compared(a, b) == Some(Ordering::Equal) <==> a == b,
        compared(a, b) == Some(Ordering::Less) <==> compared(b, a) == Some(
            Ordering::Greater,
        ),
        (a is Critical && !(b is Critical)) ==> compared(a, b) == Some(Ordering::Greater),
        (a is Critical && b is Critical) ==> (compared(a, b) == Some(Ordering::Greater)
            <==> a->0 > b->0),
        (a == TickPriority::High && (b == TickPriority::Normal || b == TickPriority::Low || b
            == TickPriority::Background)) ==> compared(a, b) == Some(Ordering::Greater),
        (a == TickPriority::Normal && (b == TickPriority::Low || b == TickPriority::Background))
            ==> compared(a, b) == Some(Ordering::Greater),
        (a == TickPriority::Low && b == TickPriority::Background) ==> compared(a, b)
            == Some(Ordering::Greater),
{
}

} // verus!

//! Task kinds, task data and tick tasks.

use crate::clock::now_ms;
use crate::priority::{priority_order, TickPriority};
use crate::text::{decimal_text, push_decimal};
use vstd::prelude::*;
use std::cmp::Ordering;
use vstd::std_specs::cmp::{PartialEqSpecImpl, PartialOrdSpecImpl};

verus! {

/// The kinds of work a tick task stands for.
#[derive(Clone, Copy, Debug, PartialEq, Eq, Hash, Structural)]
pub enum TickTaskType {
    MessageReceived,
    MessageRouted,
    RoomGravityUpdate,
    EnsignTick,
    DeadbandCheck,
    CorrelationScan,
    ProvenanceRecord,
    ConservationCheck,
    PhoneAFriend,
    StandDown,
    Escalation,
    BootstrapRoom,
}

/// The number of task kinds.
pub const TASK_TYPE_COUNT: usize = 12;

/// The position of a task kind in declaration order.
pub open spec fn type_index(t: TickTaskType) -> int {
    match t {
        TickTaskType::MessageReceived => 0,
        TickTaskType::MessageRouted => 1,
        TickTaskType::RoomGravityUpdate => 2,
        TickTaskType::EnsignTick => 3,
        TickTaskType::DeadbandCheck => 4,
        TickTaskType::CorrelationScan => 5,
        TickTaskType::ProvenanceRecord => 6,
        TickTaskType::ConservationCheck => 7,
        TickTaskType::PhoneAFriend => 8,
        TickTaskType::StandDown => 9,
        TickTaskType::Escalation => 10,
        TickTaskType::BootstrapRoom => 11,
    }
}

/// The task kind at a position in declaration order.
pub open spec fn type_at(i: int) -> TickTaskType {
    if i == 0 {
        TickTaskType::MessageReceived
    } else if i == 1 {
        TickTaskType::MessageRouted
    } else if i == 2 {
        TickTaskType::RoomGravityUpdate
    } else if i == 3 {
        TickTaskType::EnsignTick
    } else if i == 4 {
        TickTaskType::DeadbandCheck
    } else if i == 5 {
        TickTaskType::CorrelationScan
    } else if i == 6 {
        TickTaskType::ProvenanceRecord
    } else if i == 7 {
        TickTaskType::ConservationCheck
    } else if i == 8 {
        TickTaskType::PhoneAFriend
    } else if i == 9 {
        TickTaskType::StandDown
    } else if i == 10 {
        TickTaskType::Escalation
    } else {
        TickTaskType::BootstrapRoom
    }
}

/// Positions and kinds correspond one to one.
pub proof fn lemma_type_index(t: TickTaskType)
    ensures
        0 <= type_index(t) < TASK_TYPE_COUNT,
        type_at(type_index(t)) == t,
        forall|u: TickTaskType| #[trigger] type_index(u) == type_index(t) ==> u == t,
{
}

/// Positions and kinds correspond one to one.
pub proof fn lemma_type_at(i: int)
    requires
        0 <= i < TASK_TYPE_COUNT,
    ensures
        type_index(type_at(i)) == i,
{
}

/// Positions follow declaration order: `MessageReceived` is at 0,
/// `MessageRouted` at 1, and so on to `BootstrapRoom` at 11; the kind at
/// each position is the one declared there.
pub proof fn law_kind_positions()
    ensures
        type_index(TickTaskType::MessageReceived) == 0,
        type_index(TickTaskType::MessageRouted) == 1,
        type_index(TickTaskType::RoomGravityUpdate) == 2,
        type_index(TickTaskType::EnsignTick) == 3,
        type_index(TickTaskType::DeadbandCheck) == 4,
        type_index(TickTaskType::CorrelationScan) == 5,
        type_index(TickTaskType::ProvenanceRecord) == 6,
        type_index(TickTaskType::ConservationCheck) == 7,
        type_index(TickTaskType::PhoneAFriend) == 8,
        type_index(TickTaskType::StandDown) == 9,
        type_index(TickTaskType::Escalation) == 10,
        type_index(TickTaskType::BootstrapRoom) == 11,
        forall|i: int| 0 <= i < TASK_TYPE_COUNT ==> type_index(#[trigger] type_at(i)) == i,
{
}

impl TickTaskType {
    /// Urgent kinds are `Escalation` and `MessageReceived`.
    pub fn is_urgent(&self) -> (b: bool)
        ensures
            b == (*self == TickTaskType::Escalation || *self == TickTaskType::MessageReceived),
    {
        match self {
            TickTaskType::Escalation | TickTaskType::MessageReceived => true,
            _ => false,
        }
    }

    /// The position of this kind in declaration order.
    pub fn index(&self) -> (i: usize)
        ensures
            i == type_index(*self),
            i < TASK_TYPE_COUNT,
    {
        match self {
            TickTaskType::MessageReceived => 0,
            TickTaskType::MessageRouted => 1,
            TickTaskType::RoomGravityUpdate => 2,
            TickTaskType::EnsignTick => 3,
            TickTaskType::DeadbandCheck => 4,
            TickTaskType::CorrelationScan => 5,
            TickTaskType::ProvenanceRecord => 6,
            TickTaskType::ConservationCheck => 7,
            TickTaskType::PhoneAFriend => 8,
            TickTaskType::StandDown => 9,
            TickTaskType::Escalation => 10,
            TickTaskType::BootstrapRoom => 11,
        }
    }

    /// The kind at a position in declaration order.
    pub fn at(i: usize) -> (t: TickTaskType)
        requires
            i < TASK_TYPE_COUNT,
        ensures
            t == type_at(i as int),
    {
        if i == 0 {
            TickTaskType::MessageReceived
        } else if i == 1 {
            TickTaskType::MessageRouted
        } else if i == 2 {
            TickTaskType::RoomGravityUpdate
        } else if i == 3 {
            TickTaskType::EnsignTick
        } else if i == 4 {
            TickTaskType::DeadbandCheck
        } else if i == 5 {
            TickTaskType::CorrelationScan
        } else if i == 6 {
            TickTaskType::ProvenanceRecord
        } else if i == 7 {
            TickTaskType::ConservationCheck
        } else if i == 8 {
            TickTaskType::PhoneAFriend
        } else if i == 9 {
            TickTaskType::StandDown
        } else if i == 10 {
            TickTaskType::Escalation
        } else {
            TickTaskType::BootstrapRoom
        }
    }
}

// ---------------------------------------------------------------------------
// Task data: a map from keys to values, both strings
// ---------------------------------------------------------------------------

/// The map that a list of key/value pairs stands for; a later pair wins.
pub open spec fn pairs_map(s: Seq<(String, String)>) -> Map<Seq<char>, Seq<char>>
    decreases s.len(),
{
    if s.len() == 0 {
        Map::empty()
    } else {
        pairs_map(s.drop_last()).insert(s.last().0@, s.last().1@)
    }
}

/// No key occurs twice in the list.
pub open spec fn keys_distinct(s: Seq<(String, String)>) -> bool {
    forall|i: int, j: int| 0 <= i < j < s.len() ==> #[trigger] s[i].0@ != #[trigger] s[j].0@
}

proof fn lemma_pairs_map_dom(s: Seq<(String, String)>, k: Seq<char>)
    ensures
        pairs_map(s).dom().contains(k) <==> exists|i: int| 0 <= i < s.len() && #[trigger] s[i].0@ == k,
    decreases s.len(),
{
    if s.len() > 0 {
        lemma_pairs_map_dom(s.drop_last(), k);
        if pairs_map(s).dom().contains(k) && k != s.last().0@ {
            let i = choose|i: int| 0 <= i < s.drop_last().len() && #[trigger] s.drop_last()[i].0@ == k;
            assert(s[i].0@ == k);
        }
        if exists|i: int| 0 <= i < s.len() && #[trigger] s[i].0@ == k {
            let i = choose|i: int| 0 <= i < s.len() && #[trigger] s[i].0@ == k;
            if i < s.len() - 1 {
                assert(s.drop_last()[i].0@ == k);
            }
        }
    }
}

proof fn lemma_pairs_map_value(s: Seq<(String, String)>, i: int)
    requires
        keys_distinct(s),
        0 <= i < s.len(),
    ensures
        pairs_map(s).dom().contains(s[i].0@),
        pairs_map(s)[s[i].0@] == s[i].1@,
    decreases s.len(),
{
    if i < s.len() - 1 {
        let t = s.drop_last();
        assert(t[i] == s[i]);
        assert(keys_distinct(t)) by {
            assert forall|a: int, b: int| 0 <= a < b < t.len() implies #[trigger] t[a].0@
                != #[trigger] t[b].0@ by {
                assert(s[a] == t[a] && s[b] == t[b]);
            }
        }
        lemma_pairs_map_value(t, i);
        assert(s[i].0@ != s[s.len() - 1].0@);
    }
}

proof fn lemma_pairs_map_update(s: Seq<(String, String)>, i: int, p: (String, String))
    requires
        keys_distinct(s),
        0 <= i < s.len(),
        p.0@ == s[i].0@,
    ensures
        pairs_map(s.update(i, p)) == pairs_map(s).insert(p.0@, p.1@),
        keys_distinct(s.update(i, p)),
    decreases s.len(),
{
    let u = s.update(i, p);
    assert(keys_distinct(u)) by {
        assert forall|a: int, b: int| 0 <= a < b < u.len() implies #[trigger] u[a].0@
            != #[trigger] u[b].0@ by {
            assert(u[a].0@ == s[a].0@ && u[b].0@ == s[b].0@);
        }
    }
    if i == s.len() - 1 {
        assert(u.drop_last() =~= s.drop_last());
        assert(pairs_map(u) =~= pairs_map(s).insert(p.0@, p.1@)) by {
            lemma_pairs_map_dom(s.drop_last(), p.0@);
            if pairs_map(s.drop_last()).dom().contains(p.0@) {
                let j = choose|j: int|
                    0 <= j < s.drop_last().len() && #[trigger] s.drop_last()[j].0@ == p.0@;
                assert(s[j].0@ == s[i].0@);
            }
        }
    } else {
        let t = s.drop_last();
        assert(keys_distinct(t)) by {
            assert forall|a: int, b: int| 0 <= a < b < t.len() implies #[trigger] t[a].0@
                != #[trigger] t[b].0@ by {
                assert(s[a] == t[a] && s[b] == t[b]);
            }
        }
        lemma_pairs_map_update(t, i, p);
        assert(u.drop_last() =~= t.update(i, p));
        assert(u.last() == s.last());
        assert(s.last().0@ != p.0@) by {
            assert(s[i].0@ != s[s.len() - 1].0@);
        }
        assert(pairs_map(u) =~= pairs_map(s).insert(p.0@, p.1@));
    }
}

/// The data attached to a task: string values under string keys.
#[derive(Debug)]
pub struct TaskData {
    entries: Vec<(String, String)>,
}

impl View for TaskData {
    type V = Map<Seq<char>, Seq<char>>;

    closed spec fn view(&self) -> Map<Seq<char>, Seq<char>> {
        pairs_map(self.entries@)
    }
}

impl TaskData {
    #[verifier::type_invariant]
    spec fn inv(self) -> bool {
        keys_distinct(self.entries@)
    }

    /// Empty data.
    pub fn new() -> (d: TaskData)
        ensures
            d@ == Map::<Seq<char>, Seq<char>>::empty(),
    {
        TaskData { entries: Vec::new() }
    }

    /// True when no key has a value.
    pub fn is_empty(&self) -> (b: bool)
        ensures
            b <==> self@ == Map::<Seq<char>, Seq<char>>::empty(),
    {
        if self.entries.len() == 0 {
            true
        } else {
            proof {
                let s = self.entries@;
                lemma_pairs_map_dom(s, s[0].0@);
                assert(self@.dom().contains(s[0].0@));
            }
            false
        }
    }

    /// The position of `key` among the entries, if it has one.
    fn find(&self, key: &String) -> (r: Option<usize>)
        ensures
            match r {
                Some(i) => i < self.entries@.len() && self.entries@[i as int].0@ == key@,
                None => !self@.dom().contains(key@),
            },
    {
        let mut i: usize = 0;
        while i < self.entries.len()
            invariant
                i <= self.entries@.len(),
                forall|j: int| 0 <= j < i ==> #[trigger] self.entries@[j].0@ != key@,
            decreases self.entries@.len() - i,
        {
            if self.entries[i].0 == *key {
                return Some(i);
            }
            i = i + 1;
        }
        proof {
            lemma_pairs_map_dom(self.entries@, key@);
        }
        None
    }

    /// The value under `key`, if there is one.
    pub fn get(&self, key: &str) -> (r: Option<&String>)
        ensures
            match r {
                Some(v) => self@.dom().contains(key@) && self@[key@] == v@,
                None => !self@.dom().contains(key@),
            },
    {
        proof {
            use_type_invariant(self);
        }
        let k = String::from_str(key);
        match self.find(&k) {
            Some(i) => {
                proof {
                    lemma_pairs_map_value(self.entries@, i as int);
                }
                Some(&self.entries[i].1)
            },
            None => None,
        }
    }

    /// Sets the value under `key`, replacing an earlier one.
    pub fn insert(&mut self, key: &str, value: &str)
        ensures
            final(self)@ == old(self)@.insert(key@, value@),
    {
        proof {
            use_type_invariant(&*self);
        }
        let k = String::from_str(key);
        let v = String::from_str(value);
        let found = self.find(&k);
        let mut entries: Vec<(String, String)> = Vec::new();
        std::mem::swap(&mut entries, &mut self.entries);
        match found {
            Some(i) => {
                proof {
                    lemma_pairs_map_update(entries@, i as int, (k, v));
                }
                entries.set(i, (k, v));
                self.entries = entries;
            },
            None => {
                proof {
                    let s = entries@;
                    let t = s.push((k, v));
                    assert(t.drop_last() =~= s);
                    assert(keys_distinct(t)) by {
                        assert forall|a: int, b: int| 0 <= a < b < t.len() implies #[trigger] t[a].0@
                            != #[trigger] t[b].0@ by {
                            if b == s.len() {
                                lemma_pairs_map_dom(s, k@);
                                assert(s[a].0@ != k@);
                            } else {
                                assert(t[a] == s[a] && t[b] == s[b]);
                            }
                        }
                    }
                }
                entries.push((k, v));
                self.entries = entries;
            },
        }
    }

    /// A copy of this data.
    pub fn copy(&self) -> (d: TaskData)
        ensures
            d@ == self@,
    {
        proof {
            use_type_invariant(self);
        }
        let mut entries: Vec<(String, String)> = Vec::new();
        let mut i: usize = 0;
        while i < self.entries.len()
            invariant
                i <= self.entries@.len(),
                entries@.len() == i,
                forall|j: int| 0 <= j < i ==> #[trigger] entries@[j] == self.entries@[j],
            decreases self.entries@.len() - i,
        {
            let k = self.entries[i].0.clone();
            let v = self.entries[i].1.clone();
            entries.push((k, v));
            i = i + 1;
        }
        assert(entries@ =~= self.entries@);
        TaskData { entries }
    }

    /// The key/value pairs of this data, each key once.
    pub fn pairs(&self) -> (r: Vec<(String, String)>)
        ensures
            pairs_map(r@) == self@,
            keys_distinct(r@),
    {
        proof {
            use_type_invariant(self);
        }
        let d = self.copy();
        proof {
            use_type_invariant(&d);
        }
        d.entries
    }
}

// ---------------------------------------------------------------------------
// Tick tasks
// ---------------------------------------------------------------------------

/// A unit of work for the engine.
#[derive(Debug)]
pub struct TickTask {
    pub id: String,
    pub task_type: TickTaskType,
    pub priority: TickPriority,
    pub created_at: u64,
    pub data: TaskData,
}

/// What a task is, with its data taken as a map.
pub struct TickTaskView {
    pub id: Seq<char>,
    pub task_type: TickTaskType,
    pub priority: TickPriority,
    pub created_at: u64,
    pub data: Map<Seq<char>, Seq<char>>,
}

impl View for TickTask {
    type V = TickTaskView;

    open spec fn view(&self) -> TickTaskView {
        TickTaskView {
            id: self.id@,
            task_type: self.task_type,
            priority: self.priority,
            created_at: self.created_at,
            data: self.data@,
        }
    }
}

/// The id of the task numbered `serial`: `task-` and the number.
pub open spec fn task_id_text(serial: nat) -> Seq<char> {
    "task-"@ + decimal_text(serial)
}

impl TickTask {
    /// A new task of the given kind, numbered `serial` and created at
    /// `created_at`: its id is `task-<serial>`, its priority `Normal` and
    /// its data empty.
    pub fn stamped(task_type: TickTaskType, serial: u64, created_at: u64) -> (t: TickTask)
        ensures
            t.id@ == task_id_text(serial as nat),
            t.task_type == task_type,
            t.priority == TickPriority::Normal,
            t.created_at == created_at,
            t.data@ == Map::<Seq<char>, Seq<char>>::empty(),
    {
        let mut id = String::from_str("task-");
        push_decimal(&mut id, serial);
        TickTask { id, task_type, priority: TickPriority::Normal, created_at, data: TaskData::new() }
    }

    /// A new task as `stamped` makes it, created at the current time in
    /// milliseconds.
    pub fn new(task_type: TickTaskType, serial: u64) -> (t: TickTask)
        ensures
            t.id@ == task_id_text(serial as nat),
            t.task_type == task_type,
            t.priority == TickPriority::Normal,
            t.data@ == Map::<Seq<char>, Seq<char>>::empty(),
    {
        TickTask::stamped(task_type, serial, now_ms())
    }

    /// The same task with `v` under key `k` in its data.
    pub fn with_data(self, k: &str, v: &str) -> (t: TickTask)
        ensures
            t@ == (TickTaskView { data: self@.data.insert(k@, v@), ..self@ }),
    {
        let mut t = self;
        t.data.insert(k, v);
        t
    }

    /// The same task with priority `p`.
    pub fn with_priority(self, p: TickPriority) -> (t: TickTask)
        ensures
            t@ == (TickTaskView { priority: p, ..self@ }),
    {
        let mut t = self;
        t.priority = p;
        t
    }
}

impl Clone for TickTask {
    fn clone(&self) -> (t: Self)
        ensures
            t@ == self@,
    {
        TickTask {
            id: self.id.clone(),
            task_type: self.task_type,
            priority: self.priority,
            created_at: self.created_at,
            data: self.data.copy(),
        }
    }
}

impl PartialEq for TickTask {
    /// Two tasks are equal when their ids are.
    fn eq(&self, other: &Self) -> (r: bool) {
        self.id == other.id
    }
}

impl Eq for TickTask {}

impl PartialEqSpecImpl for TickTask {
    open spec fn obeys_eq_spec() -> bool {
        true
    }

    open spec fn eq_spec(&self, other: &Self) -> bool {
        self.id@ == other.id@
    }
}

impl PartialOrd for TickTask {
    /// Tasks are ordered by their priorities.
    fn partial_cmp(&self, other: &Self) -> (r: Option<Ordering>) {
        self.priority.partial_cmp(&other.priority)
    }
}

impl PartialOrdSpecImpl for TickTask {
    open spec fn obeys_partial_cmp_spec() -> bool {
        true
    }

    open spec fn partial_cmp_spec(&self, other: &Self) -> Option<Ordering> {
        priority_order(self.priority, other.priority)
    }
}

/// Tasks numbered differently have different ids, so they are unequal.
pub proof fn law_task_ids_distinct(a: u64, b: u64)
    ensures
        a != b ==> task_id_text(a as nat) != task_id_text(b as nat),
{
    if task_id_text(a as nat) == task_id_text(b as nat) {
        let p = "task-"@;
        assert(decimal_text(a as nat) =~= task_id_text(a as nat).skip(p.len() as int));
        assert(decimal_text(b as nat) =~= task_id_text(b as nat).skip(p.len() as int));
        crate::text::law_decimal_injective(a as nat, b as nat);
    }
}

/// Reading task data after writing a key gives the written value for that
/// key and the earlier value, or none, for every other key.
pub proof fn law_data_read_after_write(
    d: Map<Seq<char>, Seq<char>>,
    k: Seq<char>,
    v: Seq<char>,
    other: Seq<char>,
)
    ensures
        d.insert(k, v).dom().contains(k),
        d.insert(k, v)[k] == v,
        other != k ==> (d.insert(k, v).dom().contains(other) <==> d.dom().contains(other)),
        other != k && d.dom().contains(other) ==> d.insert(k, v)[other] == d[other],
{
}

} // verus!

//! A bounded queue in which the newest demand for a key wins.

use crate::keyed::{KeyedList, ListKey};
use crate::runtime::cancellation::{cancel_all, CancellationSource, CancellationToken};
use crate::runtime::priority::DemandPriority;
use vstd::prelude::*;
use vstd::std_specs::cmp::PartialEqSpec;

verus! {

/// Position of a demand in the order of scheduling.
#[derive(Clone, Copy, Debug, PartialEq, Eq, PartialOrd, Ord, Hash, Structural)]
pub struct DemandRevision(pub u128);

impl DemandRevision {
    /// The numeric revision.
    pub fn get(self) -> (value: u128)
        ensures
            value == self.0,
    {
        self.0
    }
}

/// A demand handed out by the queue.
#[derive(Debug)]
pub struct ScheduledDemand<K, V> {
    pub key: K,
    pub revision: DemandRevision,
    pub priority: DemandPriority,
    pub value: V,
    pub cancellation: CancellationSource,
}

impl<K: Clone, V: Clone> Clone for ScheduledDemand<K, V> {
    /// A copy under the same flag: to cancel one is to cancel all of them.
    fn clone(&self) -> (copy: Self)
        ensures
            cloned(self.key, copy.key),
            copy.revision == self.revision,
            copy.priority == self.priority,
            cloned(self.value, copy.value),
            copy.cancellation == self.cancellation,
    {
        ScheduledDemand {
            key: self.key.clone(),
            revision: self.revision,
            priority: self.priority,
            value: self.value.clone(),
            cancellation: self.cancellation.clone(),
        }
    }
}

impl<K: PartialEq, V: PartialEq> PartialEq for ScheduledDemand<K, V> {
    fn eq(&self, other: &Self) -> (same: bool) {
        self.key == other.key && self.revision == other.revision && self.priority == other.priority
            && self.value == other.value
    }
}

impl<K: PartialEq, V: PartialEq> vstd::std_specs::cmp::PartialEqSpecImpl for ScheduledDemand<K, V> {
    open spec fn obeys_eq_spec() -> bool {
        K::obeys_eq_spec() && V::obeys_eq_spec()
    }

    open spec fn eq_spec(&self, other: &Self) -> bool {
        self.key.eq_spec(&other.key) && self.revision == other.revision && self.priority
            == other.priority && self.value.eq_spec(&other.value)
    }
}


impl<K: Eq, V: Eq> Eq for ScheduledDemand<K, V> {

}

impl<K, V> ScheduledDemand<K, V> {
    /// The key that the demand was scheduled under.
    pub fn key(&self) -> (key: &K)
        ensures
            *key == self.key,
    {
        &self.key
    }

    /// The demand's place in the order of scheduling.
    pub fn revision(&self) -> (revision: DemandRevision)
        ensures
            revision == self.revision,
    {
        self.revision
    }

    /// The demand's priority.
    pub fn priority(&self) -> (priority: DemandPriority)
        ensures
            priority == self.priority,
    {
        self.priority
    }

    /// What was asked for.
    pub fn value(&self) -> (value: &V)
        ensures
            *value == self.value,
    {
        &self.value
    }

    /// Takes what was asked for out of the demand.
    pub fn into_value(self) -> (value: V)
        ensures
            value == self.value,
    {
        self.value
    }

    /// A token over the demand's own flag, for the worker.
    pub fn cancellation(&self) -> (token: CancellationToken)
        ensures
            token.flag() == self.cancellation.flag(),
    {
        self.cancellation.token()
    }

    /// The owner side of the demand's own flag.
    pub fn cancellation_source(&self) -> (source: CancellationSource)
        ensures
            source == self.cancellation,
    {
        self.cancellation.clone()
    }

    /// Sets the demand's flag. Returns `true` to the one call that found it unset.
    pub fn cancel(&self) -> (first: bool)
        ensures
            crate::runtime::cancellation::set_when(self.cancellation.flag(), !first),
            crate::runtime::cancellation::is_set(self.cancellation.flag()),
    {
        self.cancellation.cancel()
    }

    /// Reads the demand's flag.
    pub fn is_cancelled(&self) -> (cancelled: bool)
        ensures
            crate::runtime::cancellation::seen(self.cancellation.flag(), cancelled),
    {
        self.cancellation.is_cancelled()
    }
}

/// What became of a scheduled demand.
#[derive(Debug, PartialEq, Eq)]
pub enum ScheduleOutcome<K, V> {
    /// The demand took a free place.
    Queued { revision: DemandRevision },
    /// The demand took the place of the queued one with its key.
    Replaced { revision: DemandRevision, previous: V },
    /// The demand took the place of the least urgent queued one.
    Evicted { revision: DemandRevision, evicted: ScheduledDemand<K, V> },
    /// The queue kept what it had.
    Rejected { value: V },
}

impl<K: Clone, V: Clone> Clone for ScheduleOutcome<K, V> {
    fn clone(&self) -> (copy: Self)
        ensures
            match (*self, copy) {
                (
                    ScheduleOutcome::Queued { revision },
                    ScheduleOutcome::Queued { revision: copied },
                ) => copied == revision,
                (
                    ScheduleOutcome::Replaced { revision, previous },
                    ScheduleOutcome::Replaced { revision: copied, previous: value },
                ) => copied == revision && cloned(previous, value),
                (
                    ScheduleOutcome::Evicted { revision, evicted },
                    ScheduleOutcome::Evicted { revision: copied, evicted: demand },
                ) => copied == revision && cloned(evicted, demand),
                (
                    ScheduleOutcome::Rejected { value },
                    ScheduleOutcome::Rejected { value: copied },
                ) => cloned(value, copied),
                _ => false,
            },
    {
        match self {
            ScheduleOutcome::Queued { revision } => ScheduleOutcome::Queued { revision: *revision },
            ScheduleOutcome::Replaced { revision, previous } => ScheduleOutcome::Replaced {
                revision: *revision,
                previous: previous.clone(),
            },
            ScheduleOutcome::Evicted { revision, evicted } => ScheduleOutcome::Evicted {
                revision: *revision,
                evicted: evicted.clone(),
            },
            ScheduleOutcome::Rejected { value } => ScheduleOutcome::Rejected {
                value: value.clone(),
            },
        }
    }
}

impl<K, V> ScheduleOutcome<K, V> {
    /// The revision that an accepted demand was given.
    pub fn revision(&self) -> (revision: Option<DemandRevision>)
        ensures
            revision == match *self {
                ScheduleOutcome::Queued { revision } => Some(revision),
                ScheduleOutcome::Replaced { revision, .. } => Some(revision),
                ScheduleOutcome::Evicted { revision, .. } => Some(revision),
                ScheduleOutcome::Rejected { .. } => None,
            },
    {
        match self {
            ScheduleOutcome::Queued { revision } => Some(*revision),
            ScheduleOutcome::Replaced { revision, .. } => Some(*revision),
            ScheduleOutcome::Evicted { revision, .. } => Some(*revision),
            ScheduleOutcome::Rejected { .. } => None,
        }
    }
}

/// What a worker does with a finished demand.
#[derive(Clone, Copy, Debug, PartialEq, Eq, Structural)]
pub enum CompletionDisposition {
    /// It is still the newest for its key.
    Publish,
    /// Something newer, or a cancellation, has come since.
    Stale,
    /// The queue does not have it in flight.
    Unknown,
}

/// Rejected construction: no demand could ever run.
#[derive(Clone, Copy, Debug, PartialEq, Eq, Structural)]
pub struct SchedulerError;

impl SchedulerError {
    /// The words of [`message`](Self::message).
    pub open spec fn message_text(self) -> Seq<char> {
        "maximum in-flight demand count must be non-zero"@
    }

    /// The error in words.
    pub fn message(self) -> (text: &'static str)
        ensures
            text@ == self.message_text(),
    {
        "maximum in-flight demand count must be non-zero"
    }
}

/// A demand that waits.
#[derive(Debug)]
pub struct Waiting<V> {
    pub revision: DemandRevision,
    pub priority: DemandPriority,
    pub value: V,
    pub cancellation: CancellationSource,
}

impl<V: Clone> Clone for Waiting<V> {
    fn clone(&self) -> (copy: Self)
        ensures
            copy.revision == self.revision,
            copy.priority == self.priority,
            cloned(self.value, copy.value),
            copy.cancellation == self.cancellation,
    {
        Waiting {
            revision: self.revision,
            priority: self.priority,
            value: self.value.clone(),
            cancellation: self.cancellation.clone(),
        }
    }
}

/// A demand that a worker holds.
#[derive(Debug)]
pub struct InFlight {
    pub revision: DemandRevision,
    pub cancellation: CancellationSource,
}

impl Clone for InFlight {
    fn clone(&self) -> (copy: Self)
        ensures
            copy == *self,
    {
        InFlight { revision: self.revision, cancellation: self.cancellation.clone() }
    }
}

/// A bounded queue of demands by key. One demand per key waits, and one per
/// key runs. A newer demand for a key takes the place of the waiting one and
/// turns the running one stale.
#[derive(Debug)]
pub struct LatestWinsQueue<K, V> {
    capacity: usize,
    max_in_flight: usize,
    next_revision: u128,
    waiting: KeyedList<K, Waiting<V>>,
    in_flight: KeyedList<K, InFlight>,
    latest: KeyedList<K, DemandRevision>,
}

/// Order in which demands leave: by priority, then by revision.
pub open spec fn before<V>(a: Waiting<V>, b: Waiting<V>) -> bool {
    a.priority.0 < b.priority.0 || (a.priority == b.priority && a.revision.0 <= b.revision.0)
}

/// `key` holds the demand that gives way first.
pub open spec fn gives_way<KV, V>(waiting: Map<KV, Waiting<V>>, key: KV) -> bool {
    waiting.contains_key(key) && forall|other: KV| #[trigger]
        waiting.contains_key(other) ==> before(waiting[key], waiting[other])
}

/// `key` holds the most urgent demand among those whose key is not running.
pub open spec fn goes_first<KV, V>(
    waiting: Map<KV, Waiting<V>>,
    running: Set<KV>,
    key: KV,
) -> bool {
    waiting.contains_key(key) && !running.contains(key) && forall|other: KV| #[trigger]
        waiting.contains_key(other) && !running.contains(other) ==> before(
            waiting[other],
            waiting[key],
        )
}

/// `order` names each member of `domain` once and nothing else.
pub open spec fn lists_once<KV>(order: Seq<KV>, domain: Set<KV>) -> bool {
    order.no_duplicates() && forall|key: KV| #[trigger]
        order.contains(key) <==> domain.contains(key)
}

proof fn lemma_lists_once<K: ListKey, T>(list: KeyedList<K, T>)
    requires
        list.wf(),
    ensures
        lists_once(list.entries@.map_values(|entry: (K, T)| entry.0@), list@.dom()),
{
    let order = list.entries@.map_values(|entry: (K, T)| entry.0@);
    assert forall|key: K::V| #[trigger] order.contains(key) <==> list@.dom().contains(key) by {
        if order.contains(key) {
            let i = choose|i: int| 0 <= i < order.len() && order[i] == key;
            crate::keyed::lemma_entry(list.entries@, i);
        }
        if list@.dom().contains(key) {
            let i = choose|i: int| crate::keyed::holds_at(list.entries@, key, i);
            assert(order[i] == key);
        }
    }
    assert forall|i: int, j: int| 0 <= i < order.len() && 0 <= j < order.len() && i != j implies
        order[i] != order[j] by {
        assert(list.entries@[i].0@ != list.entries@[j].0@);
    }
}

impl<K: ListKey, V: Clone> Clone for LatestWinsQueue<K, V> {
    /// A copy that goes its own way from now on. What waits and runs at the moment
    /// has the same flags in both.
    fn clone(&self) -> (copy: Self)
        ensures
            copy.bound() == self.bound(),
            copy.running_bound() == self.running_bound(),
            copy.next() == self.next(),
            self.wf() ==> {
                &&& copy.wf()
                &&& copy.running() == self.running()
                &&& copy.newest() == self.newest()
                &&& copy.waiting().dom() == self.waiting().dom()
                &&& forall|key: K::V| #[trigger]
                    self.waiting().contains_key(key) ==> {
                        let (waits, copied) = (self.waiting()[key], copy.waiting()[key]);
                        &&& copied.revision == waits.revision
                        &&& copied.priority == waits.priority
                        &&& cloned(waits.value, copied.value)
                        &&& copied.cancellation == waits.cancellation
                    }
            },
    {
        let copy = LatestWinsQueue {
            capacity: self.capacity,
            max_in_flight: self.max_in_flight,
            next_revision: self.next_revision,
            waiting: self.waiting.clone(),
            in_flight: self.in_flight.clone(),
            latest: self.latest.clone(),
        };
        proof {
            if self.wf() {
                crate::keyed::lemma_copies(self.waiting, copy.waiting);
                crate::keyed::lemma_copies(self.in_flight, copy.in_flight);
                crate::keyed::lemma_copies(self.latest, copy.latest);
                assert(copy.running() =~= self.running());
                assert(copy.newest() =~= self.newest());
                assert forall|key: K::V| #[trigger] self.waiting().contains_key(key) implies ({
                    let (waits, copied) = (self.waiting()[key], copy.waiting()[key]);
                    &&& copied.revision == waits.revision
                    &&& copied.priority == waits.priority
                    &&& cloned(waits.value, copied.value)
                    &&& copied.cancellation == waits.cancellation
                }) by {
                    assert(cloned(self.waiting@[key], copy.waiting@[key]));
                }
                assert(copy.revisions_are_distinct()) by {
                    assert forall|a: K::V, b: K::V|
                        #![trigger copy.waiting()[a], copy.waiting()[b]]
                        copy.waiting().contains_key(a) && copy.waiting().contains_key(b)
                            && copy.waiting()[a].revision
                            == copy.waiting()[b].revision implies a == b by {
                        assert(self.waiting().contains_key(a) && self.waiting().contains_key(b));
                        assert(self.waiting()[a].revision == self.waiting()[b].revision);
                    }
                    assert forall|a: K::V, b: K::V|
                        #![trigger copy.waiting()[a], copy.running()[b]]
                        copy.waiting().contains_key(a) && copy.running().contains_key(
                            b,
                        ) implies copy.waiting()[a].revision != copy.running()[b].revision by {
                        assert(self.waiting().contains_key(a));
                        assert(self.waiting()[a].revision != self.running()[b].revision);
                    }
                }
                assert forall|key: K::V| #[trigger] copy.waiting().contains_key(key) implies
                    copy.newest().contains_key(key) && copy.newest()[key]
                    == copy.waiting()[key].revision && copy.waiting()[key].revision.0
                    < copy.next() by {
                    assert(self.waiting().contains_key(key));
                }
                assert forall|key: K::V| #[trigger] copy.newest().contains_key(key) implies ({
                    ||| copy.waiting().contains_key(key) && copy.waiting()[key].revision
                        == copy.newest()[key]
                    ||| copy.running().contains_key(key) && copy.running()[key].revision
                        == copy.newest()[key]
                }) by {
                    assert(self.newest().contains_key(key));
                    if self.waiting().contains_key(key) {
                        assert(copy.waiting().contains_key(key));
                    }
                }
            }
        }
        copy
    }
}

impl<K: ListKey, V> LatestWinsQueue<K, V> {
    /// The demands that wait, by key.
    pub closed spec fn waiting(&self) -> Map<K::V, Waiting<V>> {
        self.waiting@
    }

    /// The demands that run, by key.
    pub closed spec fn running(&self) -> Map<K::V, InFlight> {
        self.in_flight@
    }

    /// The revision whose completion would be published, by key.
    pub closed spec fn newest(&self) -> Map<K::V, DemandRevision> {
        self.latest@
    }

    /// How many demands may wait.
    pub closed spec fn bound(&self) -> usize {
        self.capacity
    }

    /// How many demands may run.
    pub closed spec fn running_bound(&self) -> usize {
        self.max_in_flight
    }

    /// The revision that the next accepted demand gets.
    pub closed spec fn next(&self) -> u128 {
        self.next_revision
    }

    /// What every operation keeps.
    pub open spec fn wf(&self) -> bool {
        &&& self.lists_wf()
        &&& self.running_bound() > 0
        &&& self.waiting().dom().finite()
        &&& self.running().dom().finite()
        &&& self.waiting().dom().len() <= self.bound()
        &&& self.running().dom().len() <= self.running_bound()
        &&& self.revisions_are_spent()
        &&& self.revisions_are_distinct()
        &&& forall|key: K::V| #[trigger]
            self.waiting().contains_key(key) ==> self.newest().contains_key(key)
                && self.newest()[key] == self.waiting()[key].revision
        &&& forall|key: K::V| #[trigger]
            self.newest().contains_key(key) ==> {
                ||| self.waiting().contains_key(key) && self.waiting()[key].revision
                    == self.newest()[key]
                ||| self.running().contains_key(key) && self.running()[key].revision
                    == self.newest()[key]
            }
    }

    /// Each key occurs once in each list.
    pub closed spec fn lists_wf(&self) -> bool {
        self.waiting.wf() && self.in_flight.wf() && self.latest.wf()
    }

    /// Every revision in use was handed out before.
    pub open spec fn revisions_are_spent(&self) -> bool {
        &&& forall|key: K::V| #[trigger]
            self.waiting().contains_key(key) ==> self.waiting()[key].revision.0 < self.next()
        &&& forall|key: K::V| #[trigger]
            self.running().contains_key(key) ==> self.running()[key].revision.0 < self.next()
    }

    /// No revision is used twice.
    pub open spec fn revisions_are_distinct(&self) -> bool {
        &&& forall|a: K::V, b: K::V|
            #![trigger self.waiting()[a], self.waiting()[b]]
            self.waiting().contains_key(a) && self.waiting().contains_key(b)
                && self.waiting()[a].revision == self.waiting()[b].revision ==> a == b
        &&& forall|a: K::V, b: K::V|
            #![trigger self.waiting()[a], self.running()[b]]
            self.waiting().contains_key(a) && self.running().contains_key(b)
                ==> self.waiting()[a].revision != self.running()[b].revision
    }

    /// Creates a queue that runs one demand at a time.
    pub fn new(capacity: usize) -> (queue: Self)
        ensures
            queue.wf(),
            queue.bound() == capacity,
            queue.running_bound() == 1,
            queue.next() == 1,
            queue.waiting() == Map::<K::V, Waiting<V>>::empty(),
            queue.running() == Map::<K::V, InFlight>::empty(),
            queue.newest() == Map::<K::V, DemandRevision>::empty(),
    {
        LatestWinsQueue {
            capacity,
            max_in_flight: 1,
            next_revision: 1,
            waiting: KeyedList::new(),
            in_flight: KeyedList::new(),
            latest: KeyedList::new(),
        }
    }

    /// Creates a queue that runs up to `max_in_flight` demands at a time.
    pub fn with_max_in_flight(capacity: usize, max_in_flight: usize) -> (made: Result<
        Self,
        SchedulerError,
    >)
        ensures
            made is Err <==> max_in_flight == 0,
            made matches Ok(queue) ==> {
                &&& queue.wf()
                &&& queue.bound() == capacity
                &&& queue.running_bound() == max_in_flight
                &&& queue.next() == 1
                &&& queue.waiting() == Map::<K::V, Waiting<V>>::empty()
                &&& queue.running() == Map::<K::V, InFlight>::empty()
                &&& queue.newest() == Map::<K::V, DemandRevision>::empty()
            },
    {
        if max_in_flight == 0 {
            return Err(SchedulerError);
        }
        Ok(
            LatestWinsQueue {
                capacity,
                max_in_flight,
                next_revision: 1,
                waiting: KeyedList::new(),
                in_flight: KeyedList::new(),
                latest: KeyedList::new(),
            },
        )
    }

    /// How many demands may wait.
    pub fn capacity(&self) -> (capacity: usize)
        ensures
            capacity == self.bound(),
    {
        self.capacity
    }

    /// How many demands wait.
    pub fn len(&self) -> (count: usize)
        requires
            self.wf(),
        ensures
            count == self.waiting().dom().len(),
    {
        self.waiting.len()
    }

    /// Whether no demand waits.
    pub fn is_empty(&self) -> (empty: bool)
        requires
            self.wf(),
        ensures
            empty == (self.waiting().dom().len() == 0),
    {
        self.waiting.len() == 0
    }

    /// How many demands run.
    pub fn in_flight_len(&self) -> (count: usize)
        requires
            self.wf(),
        ensures
            count == self.running().dom().len(),
    {
        self.in_flight.len()
    }

    /// Whether a demand waits under the key.
    pub fn contains_key(&self, key: &K) -> (present: bool)
        requires
            self.wf(),
        ensures
            present == self.waiting().contains_key(key@),
    {
        self.waiting.contains_key(key)
    }

    /// Whether the demand's completion would be published.
    pub fn is_latest(&self, demand: &ScheduledDemand<K, V>) -> (latest: bool)
        requires
            self.wf(),
        ensures
            latest == (self.newest().contains_key(demand.key@) && self.newest()[demand.key@]
                == demand.revision),
    {
        match self.latest.get(&demand.key) {
            Some(revision) => *revision == demand.revision,
            None => false,
        }
    }

    /// The position of the demand that gives way first.
    fn eviction_candidate(&self) -> (at: usize)
        requires
            self.wf(),
            self.waiting.entries@.len() > 0,
        ensures
            at < self.waiting.entries@.len(),
            gives_way(self.waiting(), self.waiting.entries@[at as int].0@),
            self.waiting()[self.waiting.entries@[at as int].0@] == self.waiting.entries@[at
                as int].1,
    {
        let mut at: usize = 0;
        let mut i: usize = 1;
        while i < self.waiting.entries.len()
            invariant
                at < i <= self.waiting.entries@.len(),
                forall|j: int|
                    0 <= j < i ==> before(
                        #[trigger] self.waiting.entries@[at as int].1,
                        (#[trigger] self.waiting.entries@[j]).1,
                    ),
            decreases self.waiting.entries@.len() - i,
        {
            let lowest = &self.waiting.entries[at].1;
            let candidate = &self.waiting.entries[i].1;
            if candidate.priority.0 < lowest.priority.0 || (candidate.priority.0
                == lowest.priority.0 && candidate.revision.0 < lowest.revision.0) {
                at = i;
            }
            i += 1;
        }
        proof {
            let entries = self.waiting.entries@;
            crate::keyed::lemma_entry(entries, at as int);
            assert forall|other: K::V| #[trigger] self.waiting().contains_key(other) implies before(
                self.waiting()[entries[at as int].0@],
                self.waiting()[other],
            ) by {
                let j = choose|j: int| crate::keyed::holds_at(entries, other, j);
                crate::keyed::lemma_entry(entries, j);
            }
        }
        at
    }

    /// The position of the most urgent demand whose key is not running.
    fn next_candidate(&self) -> (found: Option<usize>)
        requires
            self.wf(),
        ensures
            match found {
                Some(at) => at < self.waiting.entries@.len() && goes_first(
                    self.waiting(),
                    self.running().dom(),
                    self.waiting.entries@[at as int].0@,
                ) && self.waiting()[self.waiting.entries@[at as int].0@]
                    == self.waiting.entries@[at as int].1,
                None => forall|key: K::V| #[trigger]
                    self.waiting().contains_key(key) ==> self.running().contains_key(key),
            },
    {
        let mut found: Option<usize> = None;
        let mut i: usize = 0;
        while i < self.waiting.entries.len()
            invariant
                self.wf(),
                i <= self.waiting.entries@.len(),
                match found {
                    Some(at) => at < i && !self.running().contains_key(
                        self.waiting.entries@[at as int].0@,
                    ) && forall|j: int|
                        0 <= j < i && !self.running().contains_key(
                            (#[trigger] self.waiting.entries@[j]).0@,
                        ) ==> before(
                            self.waiting.entries@[j].1,
                            self.waiting.entries@[at as int].1,
                        ),
                    None => forall|j: int|
                        0 <= j < i ==> self.running().contains_key(
                            (#[trigger] self.waiting.entries@[j]).0@,
                        ),
                },
            decreases self.waiting.entries@.len() - i,
        {
            if !self.in_flight.contains_key(&self.waiting.entries[i].0) {
                match found {
                    None => {
                        found = Some(i);
                    },
                    Some(at) => {
                        let highest = &self.waiting.entries[at].1;
                        let candidate = &self.waiting.entries[i].1;
                        if candidate.priority.0 > highest.priority.0 || (candidate.priority.0
                            == highest.priority.0 && candidate.revision.0 > highest.revision.0) {
                            found = Some(i);
                        }
                    },
                }
            }
            i += 1;
        }
        proof {
            let entries = self.waiting.entries@;
            if let Some(at) = found {
                crate::keyed::lemma_entry(entries, at as int);
                assert forall|other: K::V| #[trigger]
                    self.waiting().contains_key(other) && !self.running().dom().contains(
                        other,
                    ) implies before(
                    self.waiting()[other],
                    self.waiting()[entries[at as int].0@],
                ) by {
                    let j = choose|j: int| crate::keyed::holds_at(entries, other, j);
                    crate::keyed::lemma_entry(entries, j);
                }
            } else {
                assert forall|key: K::V| #[trigger]
                    self.waiting().contains_key(key) implies self.running().contains_key(key) by {
                    let j = choose|j: int| crate::keyed::holds_at(entries, key, j);
                    assert(self.running().contains_key(entries[j].0@));
                }
            }
        }
        found
    }

    /// Puts a demand in with a revision of its own. The key does not wait yet.
    fn enqueue(&mut self, key: K, priority: DemandPriority, value: V, revoked: &mut Vec<
        CancellationSource,
    >) -> (revision: DemandRevision)
        requires
            old(self).wf(),
            old(self).next() < u128::MAX,
            !old(self).waiting().contains_key(key@),
            old(self).waiting().dom().len() < old(self).bound(),
        ensures
            final(self).wf(),
            revision.0 == old(self).next(),
            final(self).accepted(*old(self), key@, priority, value),
            final(self).waiting().remove(key@) == old(self).waiting(),
            final(self).newest() == old(self).newest().insert(key@, revision),
            final(revoked)@ == old(revoked)@ + old(self).running_flag(key@),
    {
        let revision = DemandRevision(self.next_revision);
        self.next_revision = self.next_revision + 1;
        let cancellation = CancellationSource::new();
        let entry = Waiting { revision, priority, value, cancellation };
        self.waiting.insert(key.copy_key(), entry);
        if let Some(running) = self.in_flight.get(&key) {
            revoked.push(running.cancellation.clone());
        }
        self.latest.insert(key, revision);
        assert(self.waiting().remove(key@) =~= old(self).waiting());
        assert(self.waiting().dom() =~= old(self).waiting().dom().insert(key@));
        assert(self.lists_wf());
        assert(self.revisions_are_spent());
        assert(self.revisions_are_distinct());
        assert forall|other: K::V| #[trigger] self.waiting().contains_key(other) implies
            self.newest().contains_key(other) && self.newest()[other]
            == self.waiting()[other].revision by {
            assert(other != key@ ==> old(self).waiting().contains_key(other));
        }
        assert forall|other: K::V| #[trigger] self.newest().contains_key(other) implies {
            ||| self.waiting().contains_key(other) && self.waiting()[other].revision
                == self.newest()[other]
            ||| self.running().contains_key(other) && self.running()[other].revision
                == self.newest()[other]
        } by {
            assert(other != key@ ==> old(self).newest().contains_key(other));
        }
        revision
    }

    /// The flag of the running demand under a key, if there is one.
    pub open spec fn running_flag(&self, key: K::V) -> Seq<CancellationSource> {
        if self.running().contains_key(key) {
            seq![self.running()[key].cancellation]
        } else {
            Seq::empty()
        }
    }

    /// What holds after any accepted demand, of its own place and of the rest.
    pub open spec fn accepted(
        self,
        before: Self,
        key: K::V,
        priority: DemandPriority,
        value: V,
    ) -> bool {
        &&& self.waiting().contains_key(key)
        &&& self.waiting()[key].revision.0 == before.next()
        &&& self.waiting()[key].priority == priority
        &&& self.waiting()[key].value == value
        &&& crate::runtime::cancellation::made_unset(self.waiting()[key].cancellation.flag())
        &&& self.next() == before.next() + 1
        &&& self.running() == before.running()
        &&& self.bound() == before.bound()
        &&& self.running_bound() == before.running_bound()
    }

    /// Nothing of the queue has changed.
    pub open spec fn unchanged(self, before: Self) -> bool {
        &&& self.waiting() == before.waiting()
        &&& self.running() == before.running()
        &&& self.newest() == before.newest()
        &&& self.next() == before.next()
        &&& self.bound() == before.bound()
        &&& self.running_bound() == before.running_bound()
    }

    /// Schedules a demand and hands back the flags that its arrival revokes:
    /// that of the waiting demand it displaced, and that of the running demand
    /// under its key.
    pub fn schedule_deferring_cancellation(
        &mut self,
        key: K,
        priority: DemandPriority,
        value: V,
    ) -> (result: (ScheduleOutcome<K, V>, Vec<CancellationSource>))
        requires
            old(self).wf(),
            old(self).next() < u128::MAX,
        ensures
            final(self).wf(),
            match result.0 {
                ScheduleOutcome::Rejected { value: returned } => {
                    &&& returned == value
                    &&& final(self).unchanged(*old(self))
                    &&& result.1@.len() == 0
                    &&& old(self).bound() == 0 || {
                        &&& !old(self).waiting().contains_key(key@)
                        &&& old(self).waiting().dom().len() == old(self).bound()
                        &&& exists|low: K::V| #[trigger]
                            gives_way(old(self).waiting(), low) && priority.0
                                < old(self).waiting()[low].priority.0
                    }
                },
                ScheduleOutcome::Replaced { revision, previous } => {
                    &&& old(self).bound() > 0
                    &&& old(self).waiting().contains_key(key@)
                    &&& previous == old(self).waiting()[key@].value
                    &&& revision.0 == old(self).next()
                    &&& final(self).accepted(*old(self), key@, priority, value)
                    &&& final(self).waiting().remove(key@) == old(self).waiting().remove(key@)
                    &&& final(self).newest() == old(self).newest().insert(key@, revision)
                    &&& result.1@ == seq![old(self).waiting()[key@].cancellation] + old(self).running_flag(key@)
                },
                ScheduleOutcome::Evicted { revision, evicted } => {
                    &&& old(self).bound() > 0
                    &&& !old(self).waiting().contains_key(key@)
                    &&& old(self).waiting().dom().len() == old(self).bound()
                    &&& gives_way(old(self).waiting(), evicted.key@)
                    &&& priority.0 >= evicted.priority.0
                    &&& evicted.revision == old(self).waiting()[evicted.key@].revision
                    &&& evicted.priority == old(self).waiting()[evicted.key@].priority
                    &&& evicted.value == old(self).waiting()[evicted.key@].value
                    &&& evicted.cancellation == old(self).waiting()[evicted.key@].cancellation
                    &&& revision.0 == old(self).next()
                    &&& final(self).accepted(*old(self), key@, priority, value)
                    &&& final(self).waiting().remove(key@) == old(self).waiting().remove(
                        evicted.key@,
                    )
                    &&& final(self).newest() == old(self).newest().remove(evicted.key@).insert(
                        key@,
                        revision,
                    )
                    &&& result.1@ == seq![evicted.cancellation] + old(self).running_flag(key@)
                },
                ScheduleOutcome::Queued { revision } => {
                    &&& !old(self).waiting().contains_key(key@)
                    &&& old(self).waiting().dom().len() < old(self).bound()
                    &&& revision.0 == old(self).next()
                    &&& final(self).accepted(*old(self), key@, priority, value)
                    &&& final(self).waiting().remove(key@) == old(self).waiting()
                    &&& final(self).newest() == old(self).newest().insert(key@, revision)
                    &&& result.1@ == old(self).running_flag(key@)
                },
            },
    {
        let mut revoked: Vec<CancellationSource> = Vec::new();
        if self.capacity == 0 {
            return (ScheduleOutcome::Rejected { value }, revoked);
        }
        let ghost start = *self;
        if let Some(previous) = self.waiting.remove(&key) {
            revoked.push(previous.cancellation);
            self.latest.remove(&key);
            assert(self.wf());
            let revision = self.enqueue(key, priority, value, &mut revoked);
            assert(self.newest() =~= start.newest().insert(key@, revision));
            return (
                ScheduleOutcome::Replaced { revision, previous: previous.value },
                revoked,
            );
        }
        assert(self.waiting() =~= start.waiting());
        assert(self.revisions_are_spent());
        assert(self.revisions_are_distinct());
        assert(self.newest() == start.newest());
        assert(self.wf());
        if self.waiting.len() >= self.capacity {
            let at: usize = self.eviction_candidate();
            let ghost low = self.waiting.entries@[at as int].0@;
            if priority.0 < self.waiting.entries[at].1.priority.0 {
                assert(gives_way(start.waiting(), low));
                return (ScheduleOutcome::Rejected { value }, revoked);
            }
            proof {
                crate::keyed::lemma_remove(self.waiting.entries@, at as int);
            }
            let (low_key, queued) = self.waiting.entries.remove(at);
            revoked.push(queued.cancellation.clone());
            self.latest.remove(&low_key);
            assert(self.waiting() == start.waiting().remove(low));
            assert(self.wf());
            let revision = self.enqueue(key, priority, value, &mut revoked);
            let evicted = ScheduledDemand {
                key: low_key,
                revision: queued.revision,
                priority: queued.priority,
                value: queued.value,
                cancellation: queued.cancellation,
            };
            return (ScheduleOutcome::Evicted { revision, evicted }, revoked);
        }
        let revision = self.enqueue(key, priority, value, &mut revoked);
        (ScheduleOutcome::Queued { revision }, revoked)
    }

    /// Schedules a demand and sets the flags that its arrival revokes.
    pub fn schedule(&mut self, key: K, priority: DemandPriority, value: V) -> (outcome:
        ScheduleOutcome<K, V>)
        requires
            old(self).wf(),
            old(self).next() < u128::MAX,
        ensures
            final(self).wf(),
            match outcome {
                ScheduleOutcome::Rejected { value: returned } => {
                    &&& returned == value
                    &&& final(self).unchanged(*old(self))
                    &&& old(self).bound() == 0 || {
                        &&& !old(self).waiting().contains_key(key@)
                        &&& old(self).waiting().dom().len() == old(self).bound()
                        &&& exists|low: K::V| #[trigger]
                            gives_way(old(self).waiting(), low) && priority.0
                                < old(self).waiting()[low].priority.0
                    }
                },
                ScheduleOutcome::Replaced { revision, previous } => {
                    &&& old(self).bound() > 0
                    &&& old(self).waiting().contains_key(key@)
                    &&& previous == old(self).waiting()[key@].value
                    &&& revision.0 == old(self).next()
                    &&& final(self).accepted(*old(self), key@, priority, value)
                    &&& final(self).waiting().remove(key@) == old(self).waiting().remove(key@)
                    &&& final(self).newest() == old(self).newest().insert(key@, revision)
                    &&& crate::runtime::cancellation::is_set(
                        old(self).waiting()[key@].cancellation.flag(),
                    )
                    &&& crate::runtime::cancellation::all_set(old(self).running_flag(key@))
                },
                ScheduleOutcome::Evicted { revision, evicted } => {
                    &&& old(self).bound() > 0
                    &&& !old(self).waiting().contains_key(key@)
                    &&& old(self).waiting().dom().len() == old(self).bound()
                    &&& gives_way(old(self).waiting(), evicted.key@)
                    &&& priority.0 >= evicted.priority.0
                    &&& evicted.revision == old(self).waiting()[evicted.key@].revision
                    &&& evicted.priority == old(self).waiting()[evicted.key@].priority
                    &&& evicted.value == old(self).waiting()[evicted.key@].value
                    &&& evicted.cancellation == old(self).waiting()[evicted.key@].cancellation
                    &&& revision.0 == old(self).next()
                    &&& final(self).accepted(*old(self), key@, priority, value)
                    &&& final(self).waiting().remove(key@) == old(self).waiting().remove(
                        evicted.key@,
                    )
                    &&& final(self).newest() == old(self).newest().remove(evicted.key@).insert(
                        key@,
                        revision,
                    )
                    &&& crate::runtime::cancellation::is_set(evicted.cancellation.flag())
                    &&& crate::runtime::cancellation::all_set(old(self).running_flag(key@))
                },
                ScheduleOutcome::Queued { revision } => {
                    &&& !old(self).waiting().contains_key(key@)
                    &&& old(self).waiting().dom().len() < old(self).bound()
                    &&& revision.0 == old(self).next()
                    &&& final(self).accepted(*old(self), key@, priority, value)
                    &&& final(self).waiting().remove(key@) == old(self).waiting()
                    &&& final(self).newest() == old(self).newest().insert(key@, revision)
                    &&& crate::runtime::cancellation::all_set(old(self).running_flag(key@))
                },
            },
    {
        let ghost running = self.running_flag(key@);
        let (outcome, revoked) = self.schedule_deferring_cancellation(key, priority, value);
        cancel_all(&revoked);
        proof {
            let first = revoked@.len() - running.len();
            if !(outcome is Rejected) {
                assert forall|i: int| 0 <= i < running.len() implies #[trigger]
                    crate::runtime::cancellation::is_set(running[i].flag()) by {
                    assert(revoked@[first + i] == running[i]);
                }
                assert(first == 1 ==> crate::runtime::cancellation::is_set(revoked@[0].flag()));
            }
        }
        outcome
    }

    /// Hands out the most urgent demand whose key is not running.
    pub fn pop_next(&mut self) -> (popped: Option<ScheduledDemand<K, V>>)
        requires
            old(self).wf(),
        ensures
            final(self).wf(),
            match popped {
                Some(demand) => {
                    let chosen = old(self).waiting()[demand.key@];
                    &&& old(self).running().dom().len() < old(self).running_bound()
                    &&& goes_first(old(self).waiting(), old(self).running().dom(), demand.key@)
                    &&& demand.revision == chosen.revision
                    &&& demand.priority == chosen.priority
                    &&& demand.value == chosen.value
                    &&& demand.cancellation == chosen.cancellation
                    &&& final(self).waiting() == old(self).waiting().remove(demand.key@)
                    &&& final(self).running() == old(self).running().insert(
                        demand.key@,
                        InFlight { revision: chosen.revision, cancellation: chosen.cancellation },
                    )
                    &&& final(self).newest() == old(self).newest()
                    &&& final(self).next() == old(self).next()
                    &&& final(self).bound() == old(self).bound()
                    &&& final(self).running_bound() == old(self).running_bound()
                },
                None => {
                    &&& final(self).unchanged(*old(self))
                    &&& old(self).running().dom().len() == old(self).running_bound() || forall|
                        key: K::V,
                    | #[trigger]
                        old(self).waiting().contains_key(key) ==> old(self).running().contains_key(
                            key,
                        )
                },
            },
    {
        if self.in_flight.len() >= self.max_in_flight {
            return None;
        }
        let at: usize = match self.next_candidate() {
            Some(at) => at,
            None => {
                return None;
            },
        };
        let ghost start = *self;
        proof {
            crate::keyed::lemma_remove(self.waiting.entries@, at as int);
        }
        let (key, queued) = self.waiting.entries.remove(at);
        self.in_flight.insert(
            key.copy_key(),
            InFlight { revision: queued.revision, cancellation: queued.cancellation.clone() },
        );
        proof {
            assert(self.waiting() == start.waiting().remove(key@));
            assert(self.running().dom() =~= start.running().dom().insert(key@));
            assert(self.revisions_are_spent());
            assert(self.revisions_are_distinct());
            assert forall|other: K::V| #[trigger] self.newest().contains_key(other) implies {
                ||| self.waiting().contains_key(other) && self.waiting()[other].revision
                    == self.newest()[other]
                ||| self.running().contains_key(other) && self.running()[other].revision
                    == self.newest()[other]
            } by {
                assert(start.newest().contains_key(other));
            }
        }
        Some(
            ScheduledDemand {
                key,
                revision: queued.revision,
                priority: queued.priority,
                value: queued.value,
                cancellation: queued.cancellation,
            },
        )
    }

    /// Whether the queue has this demand in flight.
    pub open spec fn runs(&self, demand: ScheduledDemand<K, V>) -> bool {
        self.running().contains_key(demand.key@) && self.running()[demand.key@].revision
            == demand.revision
    }

    /// Ends a running demand and says what to do with its result.
    pub fn finish(&mut self, demand: &ScheduledDemand<K, V>) -> (disposition: CompletionDisposition)
        requires
            old(self).wf(),
        ensures
            final(self).wf(),
            disposition == if !old(self).runs(*demand) {
                CompletionDisposition::Unknown
            } else if old(self).newest().contains_key(demand.key@) && old(self).newest()[demand.key@] == demand.revision {
                CompletionDisposition::Publish
            } else {
                CompletionDisposition::Stale
            },
            disposition is Unknown ==> final(self).unchanged(*old(self)),
            disposition !is Unknown ==> final(self).running() == old(self).running().remove(
                demand.key@,
            ),
            disposition is Publish ==> final(self).newest() == old(self).newest().remove(
                demand.key@,
            ),
            disposition !is Publish ==> final(self).newest() == old(self).newest(),
            final(self).waiting() == old(self).waiting(),
            final(self).next() == old(self).next(),
            final(self).bound() == old(self).bound(),
            final(self).running_bound() == old(self).running_bound(),
    {
        let runs = match self.in_flight.get(&demand.key) {
            Some(running) => running.revision == demand.revision,
            None => false,
        };
        if !runs {
            return CompletionDisposition::Unknown;
        }
        let ghost start = *self;
        let newest = match self.latest.get(&demand.key) {
            Some(revision) => *revision == demand.revision,
            None => false,
        };
        self.in_flight.remove(&demand.key);
        if newest {
            self.latest.remove(&demand.key);
        }
        proof {
            assert(self.waiting() == start.waiting());
            assert(start.running().dom().remove(demand.key@) =~= self.running().dom());
            assert(self.revisions_are_spent());
            assert(self.revisions_are_distinct());
            assert forall|other: K::V| #[trigger] self.waiting().contains_key(other) implies
                self.newest().contains_key(other) && self.newest()[other]
                == self.waiting()[other].revision by {
                assert(start.waiting().contains_key(other));
            }
            assert forall|other: K::V| #[trigger] self.newest().contains_key(other) implies {
                ||| self.waiting().contains_key(other) && self.waiting()[other].revision
                    == self.newest()[other]
                ||| self.running().contains_key(other) && self.running()[other].revision
                    == self.newest()[other]
            } by {
                assert(start.newest().contains_key(other));
            }
        }
        if newest {
            CompletionDisposition::Publish
        } else {
            CompletionDisposition::Stale
        }
    }

    /// Drops what waits under a key, turns what runs under it stale, and hands
    /// back the flags to set: that of the running demand, then that of the
    /// waiting one.
    pub fn cancel_deferring_cancellation(&mut self, key: &K) -> (result: (
        Option<V>,
        Vec<CancellationSource>,
    ))
        requires
            old(self).wf(),
        ensures
            final(self).wf(),
            result.0 == if old(self).waiting().contains_key(key@) {
                Some(old(self).waiting()[key@].value)
            } else {
                None
            },
            final(self).waiting() == old(self).waiting().remove(key@),
            final(self).newest() == old(self).newest().remove(key@),
            final(self).running() == old(self).running(),
            final(self).next() == old(self).next(),
            final(self).bound() == old(self).bound(),
            final(self).running_bound() == old(self).running_bound(),
            result.1@ == old(self).running_flag(key@) + if old(self).waiting().contains_key(key@) {
                seq![old(self).waiting()[key@].cancellation]
            } else {
                Seq::empty()
            },
    {
        let ghost start = *self;
        let mut revoked: Vec<CancellationSource> = Vec::new();
        self.latest.remove(key);
        if let Some(running) = self.in_flight.get(key) {
            revoked.push(running.cancellation.clone());
        }
        let taken = self.waiting.remove(key);
        proof {
            assert(self.waiting() == start.waiting().remove(key@));
            assert(self.waiting().dom() =~= start.waiting().dom().remove(key@));
            assert(self.revisions_are_spent());
            assert(self.revisions_are_distinct());
            assert forall|other: K::V| #[trigger] self.newest().contains_key(other) implies {
                ||| self.waiting().contains_key(other) && self.waiting()[other].revision
                    == self.newest()[other]
                ||| self.running().contains_key(other) && self.running()[other].revision
                    == self.newest()[other]
            } by {
                assert(start.newest().contains_key(other));
            }
        }
        match taken {
            Some(queued) => {
                revoked.push(queued.cancellation);
                (Some(queued.value), revoked)
            },
            None => (None, revoked),
        }
    }

    /// Drops what waits under a key and turns what runs under it stale.
    pub fn cancel(&mut self, key: &K) -> (value: Option<V>)
        requires
            old(self).wf(),
        ensures
            final(self).wf(),
            value == if old(self).waiting().contains_key(key@) {
                Some(old(self).waiting()[key@].value)
            } else {
                None
            },
            final(self).waiting() == old(self).waiting().remove(key@),
            final(self).newest() == old(self).newest().remove(key@),
            final(self).running() == old(self).running(),
            final(self).next() == old(self).next(),
            final(self).bound() == old(self).bound(),
            final(self).running_bound() == old(self).running_bound(),
            crate::runtime::cancellation::all_set(old(self).running_flag(key@)),
            old(self).waiting().contains_key(key@) ==> crate::runtime::cancellation::is_set(
                old(self).waiting()[key@].cancellation.flag(),
            ),
    {
        let ghost running = self.running_flag(key@);
        let (value, revoked) = self.cancel_deferring_cancellation(key);
        cancel_all(&revoked);
        proof {
            assert forall|i: int| 0 <= i < running.len() implies #[trigger]
                crate::runtime::cancellation::is_set(running[i].flag()) by {
                assert(revoked@[i] == running[i]);
            }
            assert(revoked@.len() > running.len() ==> crate::runtime::cancellation::is_set(
                revoked@[running.len() as int].flag(),
            ));
        }
        value
    }

    /// Drops everything that waits, turns everything that runs stale, and
    /// hands back the flags to set: those of the running demands, then those
    /// of the waiting ones.
    pub fn clear_pending_deferring_cancellation(&mut self) -> (result: (
        Vec<V>,
        Vec<CancellationSource>,
    ))
        requires
            old(self).wf(),
        ensures
            final(self).wf(),
            final(self).waiting() == Map::<K::V, Waiting<V>>::empty(),
            final(self).newest() == Map::<K::V, DemandRevision>::empty(),
            final(self).running() == old(self).running(),
            final(self).next() == old(self).next(),
            final(self).bound() == old(self).bound(),
            final(self).running_bound() == old(self).running_bound(),
            exists|ran: Seq<K::V>, waited: Seq<K::V>|
                {
                    &&& #[trigger] lists_once(ran, old(self).running().dom())
                    &&& #[trigger] lists_once(waited, old(self).waiting().dom())
                    &&& result.0@ == waited.map_values(|key: K::V| old(self).waiting()[key].value)
                    &&& result.1@ == ran.map_values(
                        |key: K::V| old(self).running()[key].cancellation,
                    ) + waited.map_values(|key: K::V| old(self).waiting()[key].cancellation)
                },
    {
        let ghost start = *self;
        let ghost ran: Seq<K::V> = self.in_flight.entries@.map_values(|entry: (K, InFlight)| entry.0@);
        let ghost waited: Seq<K::V> = self.waiting.entries@.map_values(
            |entry: (K, Waiting<V>)| entry.0@,
        );
        let mut revoked: Vec<CancellationSource> = Vec::new();
        let mut values: Vec<V> = Vec::new();
        let mut i: usize = 0;
        while i < self.in_flight.entries.len()
            invariant
                i <= self.in_flight.entries@.len(),
                revoked@.len() == i,
                forall|j: int|
                    0 <= j < i ==> #[trigger] revoked@[j]
                        == self.in_flight.entries@[j].1.cancellation,
            decreases self.in_flight.entries@.len() - i,
        {
            revoked.push(self.in_flight.entries[i].1.cancellation.clone());
            i += 1;
        }
        self.latest.clear();
        let ghost entries = self.waiting.entries@;
        let ghost flags = revoked@;
        proof {
            assert forall|j: int| 0 <= j < flags.len() implies #[trigger] flags[j]
                == start.running()[ran[j]].cancellation by {
                crate::keyed::lemma_entry(start.in_flight.entries@, j);
            }
        }
        while self.waiting.entries.len() > 0
            invariant
                values@.len() + self.waiting.entries@.len() == entries.len(),
                revoked@.len() == flags.len() + values@.len(),
                self.waiting.entries@ == entries.skip(values@.len() as int),
                forall|j: int| 0 <= j < values@.len() ==> #[trigger] values@[j] == entries[j].1.value,
                forall|j: int| 0 <= j < flags.len() ==> #[trigger] revoked@[j] == flags[j],
                forall|j: int|
                    0 <= j < values@.len() ==> #[trigger] revoked@[flags.len() + j]
                        == entries[j].1.cancellation,
                self.in_flight == start.in_flight,
                self.latest@ == Map::<K::V, DemandRevision>::empty(),
                self.latest.wf(),
                self.capacity == start.capacity,
                self.max_in_flight == start.max_in_flight,
                self.next_revision == start.next_revision,
            decreases self.waiting.entries@.len(),
        {
            let (_, queued) = self.waiting.entries.remove(0);
            revoked.push(queued.cancellation);
            values.push(queued.value);
            assert(self.waiting.entries@ =~= entries.skip(values@.len() as int));
        }
        proof {
            assert(self.waiting() =~= Map::<K::V, Waiting<V>>::empty());
            assert(self.wf());
            lemma_lists_once(start.in_flight);
            lemma_lists_once(start.waiting);
            assert(lists_once(ran, start.running().dom()));
            assert(lists_once(waited, start.waiting().dom()));
            assert forall|j: int| 0 <= j < entries.len() implies start.waiting()[#[trigger] waited[j]]
                == entries[j].1 by {
                crate::keyed::lemma_entry(entries, j);
            }
            assert(values@ =~= waited.map_values(|key: K::V| start.waiting()[key].value));
            let tail = waited.map_values(|key: K::V| start.waiting()[key].cancellation);
            assert forall|j: int| 0 <= j < tail.len() implies #[trigger] tail[j]
                == revoked@[flags.len() + j] by {
                assert(tail[j] == start.waiting()[waited[j]].cancellation);
            }
            assert(revoked@ =~= ran.map_values(|key: K::V| start.running()[key].cancellation)
                + tail);
        }
        (values, revoked)
    }

    /// Drops everything that waits and turns everything that runs stale.
    pub fn clear_pending(&mut self) -> (values: Vec<V>)
        requires
            old(self).wf(),
        ensures
            final(self).wf(),
            final(self).waiting() == Map::<K::V, Waiting<V>>::empty(),
            final(self).newest() == Map::<K::V, DemandRevision>::empty(),
            final(self).running() == old(self).running(),
            final(self).next() == old(self).next(),
            final(self).bound() == old(self).bound(),
            final(self).running_bound() == old(self).running_bound(),
            exists|waited: Seq<K::V>|
                {
                    &&& #[trigger] lists_once(waited, old(self).waiting().dom())
                    &&& values@ == waited.map_values(|key: K::V| old(self).waiting()[key].value)
                },
            forall|key: K::V| #[trigger]
                old(self).running().contains_key(key) ==> crate::runtime::cancellation::is_set(
                    old(self).running()[key].cancellation.flag(),
                ),
            forall|key: K::V| #[trigger]
                old(self).waiting().contains_key(key) ==> crate::runtime::cancellation::is_set(
                    old(self).waiting()[key].cancellation.flag(),
                ),
    {
        let ghost start = *self;
        let (values, revoked) = self.clear_pending_deferring_cancellation();
        cancel_all(&revoked);
        proof {
            let (ran, waited) = choose|ran: Seq<K::V>, waited: Seq<K::V>|
                {
                    &&& #[trigger] lists_once(ran, start.running().dom())
                    &&& #[trigger] lists_once(waited, start.waiting().dom())
                    &&& values@ == waited.map_values(|key: K::V| start.waiting()[key].value)
                    &&& revoked@ == ran.map_values(
                        |key: K::V| start.running()[key].cancellation,
                    ) + waited.map_values(|key: K::V| start.waiting()[key].cancellation)
                };
            assert forall|key: K::V| #[trigger] start.running().contains_key(key) implies
                crate::runtime::cancellation::is_set(
                start.running()[key].cancellation.flag(),
            ) by {
                assert(ran.contains(key));
                let i = choose|i: int| 0 <= i < ran.len() && ran[i] == key;
                assert(revoked@[i] == start.running()[key].cancellation);
            }
            assert forall|key: K::V| #[trigger] start.waiting().contains_key(key) implies
                crate::runtime::cancellation::is_set(
                start.waiting()[key].cancellation.flag(),
            ) by {
                assert(waited.contains(key));
                let i = choose|i: int| 0 <= i < waited.len() && waited[i] == key;
                assert(revoked@[ran.len() + i] == start.waiting()[key].cancellation);
            }
        }
        values
    }
}

/// While a demand waits under a key, the demand that runs under it is not the
/// newest: its completion is stale.
pub proof fn law_waiting_demand_turns_the_running_one_stale<K: ListKey, V>(
    queue: LatestWinsQueue<K, V>,
    key: K::V,
)
    requires
        queue.wf(),
        queue.waiting().contains_key(key),
        queue.running().contains_key(key),
    ensures
        queue.newest()[key] != queue.running()[key].revision,
{
}

/// The queue remembers no more keys than may wait and run.
pub proof fn law_remembered_keys_are_bounded<K: ListKey, V>(queue: LatestWinsQueue<K, V>)
    requires
        queue.wf(),
    ensures
        queue.newest().dom().finite(),
        queue.newest().dom().len() <= queue.bound() + queue.running_bound(),
{
    let either = queue.waiting().dom().union(queue.running().dom());
    vstd::set_lib::lemma_set_union_finite_iff(queue.waiting().dom(), queue.running().dom());
    vstd::set_lib::lemma_len_union(queue.waiting().dom(), queue.running().dom());
    assert(queue.newest().dom().subset_of(either));
    vstd::set_lib::lemma_len_subset(queue.newest().dom(), either);
}

/// A demand that is handed out is no less urgent than any other that waits under a key
/// that does not run, and of those as urgent it came last. It waits no longer, and all
/// else waits as before.
pub proof fn law_the_most_urgent_demand_is_handed_out<K: ListKey, V>(
    before: LatestWinsQueue<K, V>,
    key: K::V,
)
    ensures
        forall|queue: &mut LatestWinsQueue<K, V>, popped: Option<ScheduledDemand<K, V>>| #[trigger]
            call_ensures(LatestWinsQueue::<K, V>::pop_next, (queue,), popped) && *queue == before
                && before.waiting().contains_key(key) && !before.running().contains_key(key) ==> {
                &&& popped is None ==> before.running().dom().len() == before.running_bound()
                &&& popped matches Some(demand) ==> {
                    &&& before.waiting()[key].priority.0 <= demand.priority.0
                    &&& before.waiting()[key].priority.0 == demand.priority.0
                        ==> before.waiting()[key].revision.0 <= demand.revision.0
                    &&& final(queue).waiting().contains_key(key) <==> key != demand.key@
                    &&& key != demand.key@ ==> final(queue).waiting()[key]
                        == before.waiting()[key]
                    &&& final(queue).running().dom() == before.running().dom().insert(
                        demand.key@,
                    )
                }
            },
{
}

/// A scheduled demand is refused only where nothing may wait, or where every place is
/// taken by a more urgent demand under another key; then nothing changes and the demand
/// comes back. Else it waits, and the newest is the one that waits. Of all others at most
/// one goes, and only if there is no place left: none of the rest is less urgent than it.
pub proof fn law_the_newest_demand_wins<K: ListKey, V>(
    before: LatestWinsQueue<K, V>,
    other: K::V,
)
    requires
        before.wf(),
    ensures
        forall|
            queue: &mut LatestWinsQueue<K, V>,
            key: K,
            priority: DemandPriority,
            value: V,
            outcome: ScheduleOutcome<K, V>,
        | #[trigger]
            call_ensures(
                LatestWinsQueue::<K, V>::schedule,
                (queue, key, priority, value),
                outcome,
            ) && *queue == before ==> {
                let after = *final(queue);
                let stays = after.waiting().contains_key(other) && after.waiting()[other]
                    == before.waiting()[other];
                &&& outcome matches ScheduleOutcome::Rejected { value: back } ==> {
                    &&& back == value
                    &&& after.waiting() == before.waiting()
                    &&& after.running() == before.running()
                    &&& after.next() == before.next()
                    &&& before.bound() == 0 || {
                        &&& !before.waiting().contains_key(key@)
                        &&& before.waiting().dom().len() == before.bound()
                        &&& before.waiting().contains_key(other)
                            ==> before.waiting()[other].priority.0 > priority.0
                    }
                }
                &&& !(outcome is Rejected) ==> {
                    &&& before.bound() > 0
                    &&& after.waiting().contains_key(key@)
                    &&& after.waiting()[key@].value == value
                    &&& after.waiting()[key@].priority == priority
                    &&& after.waiting()[key@].revision.0 == before.next()
                    &&& after.next() == before.next() + 1
                    &&& after.newest()[key@] == after.waiting()[key@].revision
                    &&& after.waiting().dom().len() <= before.bound()
                }
                &&& before.waiting().contains_key(other) && other != key@ && !stays ==> {
                    &&& outcome matches ScheduleOutcome::Evicted { evicted, .. } && evicted.key@
                        == other && evicted.value == before.waiting()[other].value
                    &&& before.waiting()[other].priority.0 <= priority.0
                    &&& before.waiting().dom().len() == before.bound()
                    &&& forall|rest: K::V| #[trigger]
                        before.waiting().contains_key(rest) ==> before.waiting()[other].priority.0
                            <= before.waiting()[rest].priority.0
                }
                &&& outcome is Replaced <==> before.bound() > 0 && before.waiting().contains_key(
                    key@,
                )
                &&& after.waiting().contains_key(other) && other != key@
                    ==> before.waiting().contains_key(other) && stays
            },
{
    assert forall|
        queue: &mut LatestWinsQueue<K, V>,
        key: K,
        priority: DemandPriority,
        value: V,
        outcome: ScheduleOutcome<K, V>,
    | #[trigger]
        call_ensures(LatestWinsQueue::<K, V>::schedule, (queue, key, priority, value), outcome)
            && *queue == before implies {
        let after = *final(queue);
        let stays = after.waiting().contains_key(other) && after.waiting()[other]
            == before.waiting()[other];
        &&& before.waiting().contains_key(other) && other != key@ && !stays ==> {
            &&& outcome matches ScheduleOutcome::Evicted { evicted, .. } && evicted.key@ == other
        }
        &&& after.waiting().contains_key(other) && other != key@ ==> before.waiting().contains_key(
            other,
        ) && stays
    } by {
        let after = *final(queue);
        assert(after.waiting().remove(key@).contains_key(other) == (after.waiting().contains_key(
            other,
        ) && other != key@));
        if after.waiting().contains_key(other) && other != key@ {
            assert(after.waiting().remove(key@)[other] == after.waiting()[other]);
        }
        match outcome {
            ScheduleOutcome::Evicted { revision, evicted } => {
                if before.waiting().contains_key(other) && other != evicted.key@ {
                    assert(before.waiting().remove(evicted.key@).contains_key(other));
                }
            },
            ScheduleOutcome::Replaced { revision, previous } => {
                if before.waiting().contains_key(other) && other != key@ {
                    assert(before.waiting().remove(key@).contains_key(other));
                }
            },
            _ => {},
        }
    }
}

/// A demand that was handed out is to be published when it is finished, unless a demand
/// under its key was scheduled since, or its key or everything was cancelled: then its
/// result is stale. A demand that does not run is unknown.
pub proof fn law_only_the_newest_result_is_published<K: ListKey, V>(
    before: LatestWinsQueue<K, V>,
    demand: ScheduledDemand<K, V>,
)
    requires
        before.wf(),
        before.running().contains_key(demand.key@),
        before.running()[demand.key@].revision == demand.revision,
    ensures
        forall|
            queue: &mut LatestWinsQueue<K, V>,
            key: K,
            priority: DemandPriority,
            value: V,
            outcome: ScheduleOutcome<K, V>,
            later: &mut LatestWinsQueue<K, V>,
            disposition: CompletionDisposition,
        |
            #![trigger
                call_ensures(LatestWinsQueue::<K, V>::schedule, (queue, key, priority, value), outcome),
                call_ensures(LatestWinsQueue::<K, V>::finish, (later, &demand), disposition)]
            call_ensures(
                LatestWinsQueue::<K, V>::schedule,
                (queue, key, priority, value),
                outcome,
            ) && *queue == before && !(outcome is Rejected) && key@ == demand.key@ && *later
                == *final(queue) && call_ensures(
                LatestWinsQueue::<K, V>::finish,
                (later, &demand),
                disposition,
            ) ==> disposition is Stale,
        forall|
            queue: &mut LatestWinsQueue<K, V>,
            value: Option<V>,
            later: &mut LatestWinsQueue<K, V>,
            disposition: CompletionDisposition,
        |
            #![trigger
                call_ensures(LatestWinsQueue::<K, V>::cancel, (queue, &demand.key), value),
                call_ensures(LatestWinsQueue::<K, V>::finish, (later, &demand), disposition)]
            call_ensures(LatestWinsQueue::<K, V>::cancel, (queue, &demand.key), value) && *queue
                == before && *later == *final(queue) && call_ensures(
                LatestWinsQueue::<K, V>::finish,
                (later, &demand),
                disposition,
            ) ==> disposition is Stale && final(later).waiting() == before.waiting().remove(
                demand.key@,
            ) && final(later).running() == before.running().remove(demand.key@),
        forall|
            queue: &mut LatestWinsQueue<K, V>,
            values: Vec<V>,
            later: &mut LatestWinsQueue<K, V>,
            disposition: CompletionDisposition,
        |
            #![trigger
                call_ensures(LatestWinsQueue::<K, V>::clear_pending, (queue,), values),
                call_ensures(LatestWinsQueue::<K, V>::finish, (later, &demand), disposition)]
            call_ensures(LatestWinsQueue::<K, V>::clear_pending, (queue,), values) && *queue
                == before && *later == *final(queue) && call_ensures(
                LatestWinsQueue::<K, V>::finish,
                (later, &demand),
                disposition,
            ) ==> disposition is Stale,
{
}

/// A demand that was handed out and is finished at once is to be published, and neither
/// runs nor waits afterwards. Finished a second time it is unknown and nothing changes.
pub proof fn law_finished_demands_are_published_once<K: ListKey, V>(
    before: LatestWinsQueue<K, V>,
    demand: ScheduledDemand<K, V>,
)
    requires
        before.wf(),
    ensures
        forall|
            queue: &mut LatestWinsQueue<K, V>,
            later: &mut LatestWinsQueue<K, V>,
            disposition: CompletionDisposition,
        |
            #![trigger
                call_ensures(LatestWinsQueue::<K, V>::pop_next, (queue,), Some(demand)),
                call_ensures(LatestWinsQueue::<K, V>::finish, (later, &demand), disposition)]
            call_ensures(LatestWinsQueue::<K, V>::pop_next, (queue,), Some(demand)) && *queue
                == before && *later == *final(queue) && call_ensures(
                LatestWinsQueue::<K, V>::finish,
                (later, &demand),
                disposition,
            ) ==> {
                &&& disposition is Publish
                &&& !final(later).running().contains_key(demand.key@)
                &&& !final(later).waiting().contains_key(demand.key@)
            },
        forall|queue: &mut LatestWinsQueue<K, V>, disposition: CompletionDisposition| #[trigger]
            call_ensures(LatestWinsQueue::<K, V>::finish, (queue, &demand), disposition) && *queue
                == before ==> {
                &&& disposition is Unknown <==> !(before.running().contains_key(demand.key@)
                    && before.running()[demand.key@].revision == demand.revision)
                &&& final(queue).waiting() == before.waiting()
                &&& !(final(queue).running().contains_key(demand.key@)
                    && final(queue).running()[demand.key@].revision == demand.revision)
            },
{
}

/// Whatever a scheduled demand takes the place of is told to stop: what waited or runs under
/// its key, and what it pushed out. To cancel a key stops what waits and runs under it, and
/// to clear the queue stops everything.
pub proof fn law_superseded_demands_are_told_to_stop<K: ListKey, V>(
    before: LatestWinsQueue<K, V>,
    other: K::V,
)
    requires
        before.wf(),
    ensures
        forall|
            queue: &mut LatestWinsQueue<K, V>,
            key: K,
            priority: DemandPriority,
            value: V,
            outcome: ScheduleOutcome<K, V>,
        | #[trigger]
            call_ensures(
                LatestWinsQueue::<K, V>::schedule,
                (queue, key, priority, value),
                outcome,
            ) && *queue == before && !(outcome is Rejected) ==> {
                &&& before.running().contains_key(key@) ==> crate::runtime::cancellation::is_set(
                    before.running()[key@].cancellation.flag(),
                )
                &&& before.waiting().contains_key(key@) ==> crate::runtime::cancellation::is_set(
                    before.waiting()[key@].cancellation.flag(),
                )
                &&& outcome matches ScheduleOutcome::Evicted { evicted, .. }
                    ==> crate::runtime::cancellation::is_set(
                    before.waiting()[evicted.key@].cancellation.flag(),
                )
                &&& crate::runtime::cancellation::made_unset(
                    final(queue).waiting()[key@].cancellation.flag(),
                )
            },
        forall|queue: &mut LatestWinsQueue<K, V>, key: &K, value: Option<V>| #[trigger]
            call_ensures(LatestWinsQueue::<K, V>::cancel, (queue, key), value) && *queue == before
                ==> {
                &&& before.running().contains_key(key@) ==> crate::runtime::cancellation::is_set(
                    before.running()[key@].cancellation.flag(),
                )
                &&& before.waiting().contains_key(key@) ==> crate::runtime::cancellation::is_set(
                    before.waiting()[key@].cancellation.flag(),
                ) && value == Some(before.waiting()[key@].value)
                &&& !final(queue).waiting().contains_key(key@)
                &&& other != key@
                    && before.waiting().contains_key(other) ==> final(queue).waiting().contains_key(other) && final(queue).waiting()[other]
                    == before.waiting()[other]
            },
        forall|queue: &mut LatestWinsQueue<K, V>, values: Vec<V>| #[trigger]
            call_ensures(LatestWinsQueue::<K, V>::clear_pending, (queue,), values) && *queue
                == before ==> {
                &&& before.running().contains_key(other) ==> crate::runtime::cancellation::is_set(
                    before.running()[other].cancellation.flag(),
                )
                &&& before.waiting().contains_key(other) ==> crate::runtime::cancellation::is_set(
                    before.waiting()[other].cancellation.flag(),
                )
                &&& !final(queue).waiting().contains_key(other)
                &&& final(queue).running() == before.running()
            },
{
    assert forall|
        queue: &mut LatestWinsQueue<K, V>,
        key: K,
        priority: DemandPriority,
        value: V,
        outcome: ScheduleOutcome<K, V>,
    | #[trigger]
        call_ensures(LatestWinsQueue::<K, V>::schedule, (queue, key, priority, value), outcome)
            && *queue == before && !(outcome is Rejected) && before.running().contains_key(
            key@,
        ) implies crate::runtime::cancellation::is_set(
        before.running()[key@].cancellation.flag(),
    ) by {
        let flags = before.running_flag(key@);
        assert(crate::runtime::cancellation::all_set(flags));
        assert(flags[0] == before.running()[key@].cancellation);
    }
    assert forall|queue: &mut LatestWinsQueue<K, V>, key: &K, value: Option<V>| #[trigger]
        call_ensures(LatestWinsQueue::<K, V>::cancel, (queue, key), value) && *queue == before
            && before.running().contains_key(key@) implies crate::runtime::cancellation::is_set(
        before.running()[key@].cancellation.flag(),
    ) by {
        let flags = before.running_flag(key@);
        assert(crate::runtime::cancellation::all_set(flags));
        assert(flags[0] == before.running()[key@].cancellation);
    }
}

/// A queue can be made if and only if something may run. A demand that is the newest and
/// runs is published when it is finished, and one that is not the newest is not. A demand
/// has a revision if and only if it was accepted.
pub proof fn law_the_newest_is_what_is_published<K: ListKey, V>(
    capacity: usize,
    running: usize,
    made: Result<LatestWinsQueue<K, V>, SchedulerError>,
    before: LatestWinsQueue<K, V>,
    demand: ScheduledDemand<K, V>,
    latest: bool,
    outcome: ScheduleOutcome<K, V>,
    revision: Option<DemandRevision>,
)
    requires
        call_ensures(LatestWinsQueue::<K, V>::with_max_in_flight, (capacity, running), made),
        call_ensures(LatestWinsQueue::<K, V>::is_latest, (&before, &demand), latest),
        call_ensures(ScheduleOutcome::<K, V>::revision, (&outcome,), revision),
    ensures
        made is Ok <==> running > 0,
        made matches Ok(queue) ==> queue.bound() == capacity && queue.running_bound() == running
            && queue.waiting().dom().len() == 0 && queue.running().dom().len() == 0,
        forall|queue: &mut LatestWinsQueue<K, V>, disposition: CompletionDisposition| #[trigger]
            call_ensures(LatestWinsQueue::<K, V>::finish, (queue, &demand), disposition) && *queue
                == before ==> (disposition is Publish ==> latest) && (disposition is Stale
                ==> !latest),
        revision is None <==> outcome is Rejected,
{
}

/// To schedule without setting flags does to the queue what scheduling does, and hands back
/// the flags that are to be set: those of what waited or runs under the key, and of what was
/// pushed out.
pub proof fn law_deferred_flags_are_handed_back<K: ListKey, V>(
    before: LatestWinsQueue<K, V>,
    other: K::V,
)
    requires
        before.wf(),
    ensures
        forall|
            queue: &mut LatestWinsQueue<K, V>,
            key: K,
            priority: DemandPriority,
            value: V,
            result: (ScheduleOutcome<K, V>, Vec<CancellationSource>),
        | #[trigger]
            call_ensures(
                LatestWinsQueue::<K, V>::schedule_deferring_cancellation,
                (queue, key, priority, value),
                result,
            ) && *queue == before ==> {
                &&& result.0 is Rejected ==> result.1@.len() == 0 && final(queue).waiting()
                    == before.waiting()
                &&& !(result.0 is Rejected) ==> {
                    &&& final(queue).waiting()[key@].value == value
                    &&& final(queue).waiting()[key@].priority == priority
                    &&& before.waiting().contains_key(key@) ==> result.1@[0]
                        == before.waiting()[key@].cancellation
                    &&& before.running().contains_key(key@) ==> result.1@.last()
                        == before.running()[key@].cancellation
                    &&& result.0 matches ScheduleOutcome::Evicted { evicted, .. } ==> result.1@[0]
                        == before.waiting()[evicted.key@].cancellation
                    &&& result.1@.len() <= 2
                }
                &&& result.0 is Rejected && before.bound() > 0 ==> (before.waiting().contains_key(
                    other,
                ) ==> priority.0 < before.waiting()[other].priority.0)
            },
{
}

} // verus!

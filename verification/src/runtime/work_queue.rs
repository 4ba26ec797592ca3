//! The work that waits for one document: at most one piece per key, bounded,
//! the least urgent of a batch giving way.

use crate::keyed::{KeyedList, ListKey};
use crate::runtime::cancellation::CancellationSource;
use crate::runtime::demand::{PreviewDemand, RenderDemand, RenderDemandKey, TextDemand};
use crate::runtime::priority::DemandPriority;
use vstd::prelude::*;

verus! {

/// The batches in which a client replaces its work. They do not touch each other:
/// a new viewport leaves text that is to be copied or searched alone, and a new
/// preview leaves tiles alone.
#[derive(Clone, Copy, Debug, PartialEq, Eq, Hash, Structural)]
pub enum WorkClass {
    RenderViewport,
    Preview,
    VisibleText,
    CopyText,
    SearchText,
    LinkResolutionText,
    DocumentAnalysisText,
}

impl View for WorkClass {
    type V = WorkClass;

    open spec fn view(&self) -> WorkClass {
        *self
    }
}

impl ListKey for WorkClass {
    fn same_key(&self, other: &Self) -> (same: bool) {
        *self == *other
    }

    fn copy_key(&self) -> (copy: Self) {
        *self
    }
}

impl WorkClass {
    /// The class takes text demands.
    pub open spec fn takes_text(self) -> bool {
        self != WorkClass::RenderViewport && self != WorkClass::Preview
    }

    /// Whether the class takes text demands.
    pub fn accepts_text(self) -> (accepts: bool)
        ensures
            accepts == self.takes_text(),
    {
        match self {
            WorkClass::VisibleText => true,
            WorkClass::CopyText => true,
            WorkClass::SearchText => true,
            WorkClass::LinkResolutionText => true,
            WorkClass::DocumentAnalysisText => true,
            WorkClass::RenderViewport => false,
            WorkClass::Preview => false,
        }
    }
}

/// One piece of work for an engine.
#[derive(Clone, Copy, Debug, PartialEq, Eq, Structural)]
pub enum Work {
    Render(RenderDemand),
    Text(TextDemand),
    Preview(PreviewDemand),
}

impl Work {
    /// The priority of the demand.
    pub open spec fn spec_priority(self) -> DemandPriority {
        match self {
            Work::Render(demand) => demand.stamp.priority,
            Work::Text(demand) => demand.stamp.priority,
            Work::Preview(demand) => demand.stamp.priority,
        }
    }

    /// The key under which the work waits. For each class a tile waits once, the
    /// text of a page once, and one preview.
    pub open spec fn spec_key(self, class: WorkClass) -> WorkKey {
        match self {
            Work::Render(demand) => WorkKey::Render(class, RenderDemandKey { tile: demand.key }),
            Work::Text(demand) => WorkKey::Text(class, demand.page),
            Work::Preview(_) => WorkKey::Preview(class),
        }
    }

    /// The priority of the demand.
    pub fn priority(&self) -> (priority: DemandPriority)
        ensures
            priority == self.spec_priority(),
    {
        match self {
            Work::Render(demand) => demand.stamp().priority(),
            Work::Text(demand) => demand.stamp().priority(),
            Work::Preview(demand) => demand.stamp().priority(),
        }
    }

    /// The key under which the work waits.
    pub fn key(&self, class: WorkClass) -> (key: WorkKey)
        ensures
            key == self.spec_key(class),
    {
        match self {
            Work::Render(demand) => WorkKey::Render(class, demand.deduplication_key()),
            Work::Text(demand) => WorkKey::Text(class, demand.page()),
            Work::Preview(_) => WorkKey::Preview(class),
        }
    }
}

/// The key under which a piece of work waits.
#[derive(Clone, Copy, Debug, PartialEq, Eq, Hash, Structural)]
pub enum WorkKey {
    Open,
    Render(WorkClass, RenderDemandKey),
    Text(WorkClass, usize),
    Preview(WorkClass),
}

impl WorkKey {
    /// The class of what waits under the key; an opening has none.
    pub open spec fn class(self) -> Option<WorkClass> {
        match self {
            WorkKey::Open => None,
            WorkKey::Render(class, _) => Some(class),
            WorkKey::Text(class, _) => Some(class),
            WorkKey::Preview(class) => Some(class),
        }
    }
}

impl View for WorkKey {
    type V = WorkKey;

    open spec fn view(&self) -> WorkKey {
        *self
    }
}

impl ListKey for WorkKey {
    fn same_key(&self, other: &Self) -> (same: bool) {
        *self == *other
    }

    fn copy_key(&self) -> (copy: Self) {
        *self
    }
}

/// What waits: an opening, or work for the open document.
#[derive(Debug)]
pub enum PendingKind<S> {
    Open(S),
    Engine(Work),
}

/// A piece of work that waits.
#[derive(Debug)]
pub struct PendingWork<S> {
    pub sequence: u128,
    pub priority: DemandPriority,
    pub class: Option<WorkClass>,
    pub cancellation: CancellationSource,
    pub kind: PendingKind<S>,
}

/// Order in which work leaves: by priority, then by arrival.
pub open spec fn no_more_urgent<S>(a: PendingWork<S>, b: PendingWork<S>) -> bool {
    a.priority.0 < b.priority.0 || (a.priority == b.priority && a.sequence <= b.sequence)
}

/// `key` holds work of a class that gives way before all other work of that class.
pub open spec fn gives_way<S>(
    pending: Map<WorkKey, PendingWork<S>>,
    class: WorkClass,
    key: WorkKey,
) -> bool {
    &&& pending.contains_key(key)
    &&& pending[key].class == Some(class)
    &&& forall|other: WorkKey| #[trigger]
        pending.contains_key(other) && pending[other].class == Some(class) ==> no_more_urgent(
            pending[key],
            pending[other],
        )
}

/// All work waits under a key of its class.
pub open spec fn classes_fit<S>(pending: Map<WorkKey, PendingWork<S>>) -> bool {
    forall|key: WorkKey| #[trigger]
        pending.contains_key(key) ==> pending[key].class == key.class()
}

/// All that is not of the class waits as it did.
pub open spec fn keeps_others<S>(
    before: Map<WorkKey, PendingWork<S>>,
    after: Map<WorkKey, PendingWork<S>>,
    class: WorkClass,
) -> bool {
    forall|key: WorkKey| #[trigger]
        before.contains_key(key) && before[key].class != Some(class) ==> after.contains_key(key)
            && after[key] == before[key]
}

/// All that is of the class has the flag.
pub open spec fn has_flag<S>(
    pending: Map<WorkKey, PendingWork<S>>,
    class: WorkClass,
    cancellation: CancellationSource,
) -> bool {
    forall|key: WorkKey| #[trigger]
        pending.contains_key(key) && pending[key].class == Some(class) ==> pending[key].cancellation
            == cancellation
}

/// The flag is that of work of the class.
pub open spec fn is_flag_of<S>(
    pending: Map<WorkKey, PendingWork<S>>,
    class: WorkClass,
    flag: CancellationSource,
) -> bool {
    exists|key: WorkKey| #[trigger]
        pending.contains_key(key) && pending[key].class == Some(class) && pending[key].cancellation
            == flag
}

/// A piece of a batch found another under its key, or no room for one more.
pub open spec fn met_another<S>(
    before: Map<WorkKey, PendingWork<S>>,
    key: WorkKey,
    capacity: usize,
) -> bool {
    before.contains_key(key) || before.dom().insert(key).len() > capacity
}

/// The flags are those of work of the class that waited before the batch and, where
/// one of its pieces met another, that of the batch. No flag of another class is
/// among them, unless the class or the batch has the same.
pub open spec fn only_own_flags<S>(
    flags: Seq<CancellationSource>,
    pending: Map<WorkKey, PendingWork<S>>,
    steps: Seq<Map<WorkKey, PendingWork<S>>>,
    work: Seq<Work>,
    class: WorkClass,
    cancellation: CancellationSource,
    capacity: usize,
) -> bool {
    forall|i: int|
        0 <= i < flags.len() ==> is_flag_of(pending, class, #[trigger] flags[i]) || (flags[i]
            == cancellation && exists|j: int|
            0 <= j < work.len() && met_another(
                #[trigger] steps[j],
                work[j].spec_key(class),
                capacity,
            ))
}

/// `key` holds work that no other is more urgent than.
pub open spec fn goes_first<S>(pending: Map<WorkKey, PendingWork<S>>, key: WorkKey) -> bool {
    pending.contains_key(key) && forall|other: WorkKey| #[trigger]
        pending.contains_key(other) ==> no_more_urgent(pending[other], pending[key])
}

/// The work that is left when a class is dropped.
pub open spec fn without_class<S>(
    pending: Map<WorkKey, PendingWork<S>>,
    class: WorkClass,
) -> Map<WorkKey, PendingWork<S>> {
    pending.restrict(
        Set::new(
            |key: WorkKey| pending.contains_key(key) && pending[key].class != Some(class),
        ),
    )
}

/// One piece of work went in under its key; if that was one too many, the work of
/// its class that gives way first went out, which may be the piece itself.
pub open spec fn took_in<S>(
    before: Map<WorkKey, PendingWork<S>>,
    after: Map<WorkKey, PendingWork<S>>,
    key: WorkKey,
    entry: PendingWork<S>,
    class: WorkClass,
    capacity: usize,
) -> bool {
    let full = before.insert(key, entry);
    if full.dom().len() <= capacity {
        after == full
    } else {
        exists|low: WorkKey| #[trigger] gives_way(full, class, low) && after == full.remove(low)
    }
}

/// How many pieces of a batch were one too many, given the queue before each.
pub open spec fn overflows<S>(
    steps: Seq<Map<WorkKey, PendingWork<S>>>,
    work: Seq<Work>,
    class: WorkClass,
    capacity: usize,
) -> int
    decreases work.len(),
{
    if work.len() == 0 {
        0
    } else {
        let before = steps[work.len() - 1];
        let key = work.last().spec_key(class);
        overflows(steps, work.drop_last(), class, capacity) + if before.dom().insert(key).len()
            > capacity {
            1int
        } else {
            0
        }
    }
}

/// `steps` are the queue before the batch, and after each piece of it.
pub open spec fn batch_steps<S>(
    steps: Seq<Map<WorkKey, PendingWork<S>>>,
    work: Seq<Work>,
    class: WorkClass,
    cancellation: CancellationSource,
    first_sequence: u128,
    capacity: usize,
) -> bool {
    &&& steps.len() == work.len() + 1
    &&& forall|i: int|
        0 <= i < work.len() ==> took_in(
            steps[i],
            #[trigger] steps[i + 1],
            work[i].spec_key(class),
            PendingWork {
                sequence: sequence_after(first_sequence, i),
                priority: work[i].spec_priority(),
                class: Some(class),
                cancellation,
                kind: PendingKind::Engine(work[i]),
            },
            class,
            capacity,
        )
}

/// A piece of a batch as it waits.
pub open spec fn batch_entry<S>(
    work: Work,
    class: WorkClass,
    cancellation: CancellationSource,
    sequence: u128,
) -> PendingWork<S> {
    PendingWork {
        sequence,
        priority: work.spec_priority(),
        class: Some(class),
        cancellation,
        kind: PendingKind::Engine(work),
    }
}

/// What waits under a key is a piece of the batch.
pub open spec fn is_piece<S>(
    pending: Map<WorkKey, PendingWork<S>>,
    key: WorkKey,
    work: Work,
    class: WorkClass,
    cancellation: CancellationSource,
    sequence: u128,
) -> bool {
    work.spec_key(class) == key && pending[key] == batch_entry::<S>(
        work,
        class,
        cancellation,
        sequence,
    )
}

/// All that waits of the class is among the first `count` pieces of the batch.
pub open spec fn of_batch<S>(
    pending: Map<WorkKey, PendingWork<S>>,
    work: Seq<Work>,
    count: int,
    class: WorkClass,
    cancellation: CancellationSource,
    first_sequence: u128,
) -> bool {
    forall|key: WorkKey| #[trigger]
        pending.contains_key(key) && pending[key].class == Some(class) ==> exists|i: int|
            0 <= i < count && is_piece(
                pending,
                key,
                #[trigger] work[i],
                class,
                cancellation,
                sequence_after(first_sequence, i),
            )
}

/// The number `count` places after a sequence number. Zero is left out when
/// the numbers start over.
pub open spec fn sequence_after(first: u128, count: int) -> u128
    decreases count,
{
    if count <= 0 {
        first
    } else {
        next_sequence(sequence_after(first, count - 1))
    }
}

/// The number after a sequence number.
pub open spec fn next_sequence(sequence: u128) -> u128 {
    if sequence == u128::MAX {
        1
    } else {
        (sequence + 1) as u128
    }
}

/// Every flag of an entry that is no longer there is in the list.
pub open spec fn covers_dropped<S>(
    flags: Seq<CancellationSource>,
    before: Map<WorkKey, PendingWork<S>>,
    after: Map<WorkKey, PendingWork<S>>,
) -> bool {
    forall|key: WorkKey| #[trigger]
        before.contains_key(key) && !(after.contains_key(key) && after[key] == before[key])
            ==> flags.contains(before[key].cancellation)
}

/// Every flag of an entry that is no longer there was set.
pub open spec fn dropped_are_cancelled<S>(
    before: Map<WorkKey, PendingWork<S>>,
    after: Map<WorkKey, PendingWork<S>>,
) -> bool {
    forall|key: WorkKey| #[trigger]
        before.contains_key(key) && !(after.contains_key(key) && after[key] == before[key])
            ==> crate::runtime::cancellation::is_set(before[key].cancellation.flag())
}

/// The flag of every entry that a piece of a batch pushed out is in the list, and so
/// is that of the batch if the piece itself found no room.
pub open spec fn covers_batch<S>(
    flags: Seq<CancellationSource>,
    steps: Seq<Map<WorkKey, PendingWork<S>>>,
    work: Seq<Work>,
    class: WorkClass,
    cancellation: CancellationSource,
) -> bool {
    forall|i: int|
        0 <= i < work.len() ==> covers_dropped(flags, steps[i], #[trigger] steps[i + 1]) && (
        !steps[i + 1].contains_key(work[i].spec_key(class)) ==> flags.contains(cancellation))
}

/// The flag of every entry that a piece of a batch pushed out was set, and so was that
/// of the batch if the piece itself found no room.
pub open spec fn pushed_out_are_cancelled<S>(
    steps: Seq<Map<WorkKey, PendingWork<S>>>,
    work: Seq<Work>,
    class: WorkClass,
    cancellation: CancellationSource,
) -> bool {
    forall|i: int|
        0 <= i < work.len() ==> dropped_are_cancelled(steps[i], #[trigger] steps[i + 1]) && (
        !steps[i + 1].contains_key(work[i].spec_key(class))
            ==> crate::runtime::cancellation::is_set(cancellation.flag()))
}

/// Once the flags of what a batch pushed out are set, all of them are.
pub proof fn lemma_pushed_out_are_cancelled<S>(
    flags: Seq<CancellationSource>,
    steps: Seq<Map<WorkKey, PendingWork<S>>>,
    work: Seq<Work>,
    class: WorkClass,
    cancellation: CancellationSource,
)
    requires
        covers_batch(flags, steps, work, class, cancellation),
        crate::runtime::cancellation::all_set(flags),
    ensures
        pushed_out_are_cancelled(steps, work, class, cancellation),
{
    assert forall|i: int| 0 <= i < work.len() implies dropped_are_cancelled(
        steps[i],
        #[trigger] steps[i + 1],
    ) && (!steps[i + 1].contains_key(work[i].spec_key(class))
        ==> crate::runtime::cancellation::is_set(cancellation.flag())) by {
        lemma_dropped_are_cancelled(flags, steps[i], steps[i + 1]);
        if !steps[i + 1].contains_key(work[i].spec_key(class)) {
            let j = choose|j: int| 0 <= j < flags.len() && flags[j] == cancellation;
            assert(crate::runtime::cancellation::is_set(flags[j].flag()));
        }
    }
}

/// Once the flags of the entries that are no longer there are set, all of them are.
pub proof fn lemma_dropped_are_cancelled<S>(
    flags: Seq<CancellationSource>,
    before: Map<WorkKey, PendingWork<S>>,
    after: Map<WorkKey, PendingWork<S>>,
)
    requires
        covers_dropped(flags, before, after),
        crate::runtime::cancellation::all_set(flags),
    ensures
        dropped_are_cancelled(before, after),
{
    assert forall|key: WorkKey| #[trigger]
        before.contains_key(key) && !(after.contains_key(key) && after[key]
            == before[key]) implies crate::runtime::cancellation::is_set(
        before[key].cancellation.flag(),
    ) by {
        assert(flags.contains(before[key].cancellation));
        let i = choose|i: int| 0 <= i < flags.len() && flags[i] == before[key].cancellation;
        assert(crate::runtime::cancellation::is_set(flags[i].flag()));
    }
}

/// The work that waits for one document.
#[derive(Debug)]
pub struct WorkQueue<S> {
    pending: KeyedList<WorkKey, PendingWork<S>>,
    next_sequence: u128,
}

impl<S> WorkQueue<S> {
    /// The work by key.
    pub closed spec fn pending(&self) -> Map<WorkKey, PendingWork<S>> {
        self.pending@
    }

    /// The sequence number of the next piece of work.
    pub closed spec fn next(&self) -> u128 {
        self.next_sequence
    }

    /// No key waits twice, and all work waits under a key of its class.
    pub closed spec fn wf(&self) -> bool {
        self.pending.wf() && classes_fit(self.pending@)
    }

    /// No work.
    pub fn new() -> (queue: WorkQueue<S>)
        ensures
            queue.wf(),
            queue.pending() == Map::<WorkKey, PendingWork<S>>::empty(),
            queue.next() == 1,
    {
        WorkQueue { pending: KeyedList::new(), next_sequence: 1 }
    }

    /// How many pieces of work wait.
    pub fn len(&self) -> (count: usize)
        requires
            self.wf(),
        ensures
            count == self.pending().dom().len(),
            self.pending().dom().finite(),
    {
        self.pending.len()
    }

    fn allocate_sequence(&mut self) -> (sequence: u128)
        ensures
            sequence == old(self).next(),
            final(self).next() == next_sequence(old(self).next()),
            final(self).pending == old(self).pending,
    {
        let sequence: u128 = self.next_sequence;
        self.next_sequence = if sequence == u128::MAX {
            1
        } else {
            sequence + 1
        };
        sequence
    }

    /// Drops all work and hands back the flags to set.
    pub fn clear(&mut self) -> (revoked: Vec<CancellationSource>)
        requires
            old(self).wf(),
        ensures
            final(self).wf(),
            final(self).pending() == Map::<WorkKey, PendingWork<S>>::empty(),
            final(self).next() == old(self).next(),
            covers_dropped(revoked@, old(self).pending(), final(self).pending()),
            revoked@.len() == old(self).pending().dom().len(),
    {
        let mut revoked: Vec<CancellationSource> = Vec::new();
        let ghost entries = self.pending.entries@;
        proof {
            crate::keyed::lemma_size(entries);
        }
        let mut i: usize = 0;
        while i < self.pending.entries.len()
            invariant
                i <= self.pending.entries@.len(),
                self.pending.entries@ == entries,
                revoked@.len() == i,
                forall|j: int|
                    0 <= j < i ==> #[trigger] revoked@[j] == entries[j].1.cancellation,
            decreases self.pending.entries@.len() - i,
        {
            revoked.push(self.pending.entries[i].1.cancellation.clone());
            i += 1;
        }
        self.pending.clear();
        proof {
            assert forall|key: WorkKey| #[trigger] old(self).pending().contains_key(key) implies
                revoked@.contains(old(self).pending()[key].cancellation) by {
                let j = choose|j: int| crate::keyed::holds_at(entries, key, j);
                crate::keyed::lemma_entry(entries, j);
                assert(revoked@[j] == entries[j].1.cancellation);
            }
        }
        revoked
    }

    /// Puts an opening in. Nothing else waits.
    pub fn push_open(&mut self, source: S, cancellation: CancellationSource)
        requires
            old(self).wf(),
            old(self).pending() == Map::<WorkKey, PendingWork<S>>::empty(),
        ensures
            final(self).wf(),
            final(self).next() == next_sequence(old(self).next()),
            final(self).pending() == Map::<WorkKey, PendingWork<S>>::empty().insert(
                WorkKey::Open,
                PendingWork {
                    sequence: old(self).next(),
                    priority: DemandPriority::interactive(),
                    class: None,
                    cancellation,
                    kind: PendingKind::Open(source),
                },
            ),
    {
        let sequence: u128 = self.allocate_sequence();
        self.pending.insert(
            WorkKey::Open,
            PendingWork {
                sequence,
                priority: DemandPriority::interactive(),
                class: None,
                cancellation,
                kind: PendingKind::Open(source),
            },
        );
    }

    /// Drops the work of a class and hands back the flags to set.
    pub fn drop_class(&mut self, class: WorkClass) -> (revoked: Vec<CancellationSource>)
        requires
            old(self).wf(),
        ensures
            final(self).wf(),
            final(self).pending() == without_class(old(self).pending(), class),
            final(self).next() == old(self).next(),
            covers_dropped(revoked@, old(self).pending(), final(self).pending()),
            forall|j: int|
                0 <= j < revoked@.len() ==> is_flag_of(
                    old(self).pending(),
                    class,
                    #[trigger] revoked@[j],
                ),
    {
        let ghost start = self.pending@;
        let mut revoked: Vec<CancellationSource> = Vec::new();
        let mut i: usize = 0;
        while i < self.pending.entries.len()
            invariant
                i <= self.pending.entries@.len(),
                self.pending.wf(),
                self.next_sequence == old(self).next_sequence,
                forall|key: WorkKey| #[trigger]
                    self.pending@.contains_key(key) ==> start.contains_key(key)
                        && self.pending@[key] == start[key],
                forall|key: WorkKey| #[trigger]
                    start.contains_key(key) && !self.pending@.contains_key(key)
                        ==> start[key].class == Some(class) && revoked@.contains(
                        start[key].cancellation,
                    ),
                forall|j: int|
                    0 <= j < i ==> (#[trigger] self.pending.entries@[j]).1.class != Some(class),
                forall|j: int|
                    0 <= j < revoked@.len() ==> is_flag_of(start, class, #[trigger] revoked@[j]),
            decreases self.pending.entries@.len() - i,
        {
            let dropped = match self.pending.entries[i].1.class {
                Some(other) => other == class,
                None => false,
            };
            if dropped {
                let ghost before = self.pending@;
                let ghost flags = revoked@;
                proof {
                    crate::keyed::lemma_entry(self.pending.entries@, i as int);
                    crate::keyed::lemma_remove(self.pending.entries@, i as int);
                }
                let (key, entry) = self.pending.entries.remove(i);
                revoked.push(entry.cancellation);
                proof {
                    assert(revoked@ == flags.push(entry.cancellation));
                    assert(before.contains_key(key) && start.contains_key(key));
                    assert(is_flag_of(start, class, entry.cancellation));
                    assert forall|j: int| 0 <= j < revoked@.len() implies is_flag_of(
                        start,
                        class,
                        #[trigger] revoked@[j],
                    ) by {
                        if j < flags.len() {
                            assert(revoked@[j] == flags[j]);
                        }
                    }
                    assert(revoked@[flags.len() as int] == entry.cancellation);
                    assert forall|other: WorkKey| #[trigger]
                        start.contains_key(other) && !self.pending@.contains_key(
                            other,
                        ) implies start[other].class == Some(class) && revoked@.contains(
                        start[other].cancellation,
                    ) by {
                        if !before.contains_key(other) {
                            let j = choose|j: int|
                                0 <= j < flags.len() && flags[j] == start[other].cancellation;
                            assert(revoked@[j] == start[other].cancellation);
                        } else {
                            assert(other == key);
                        }
                    }
                }
            } else {
                i += 1;
            }
        }
        proof {
            let kept = without_class(start, class);
            assert forall|key: WorkKey| #[trigger]
                self.pending@.contains_key(key) == kept.contains_key(key) by {
                if self.pending@.contains_key(key) {
                    let j = choose|j: int|
                        crate::keyed::holds_at(self.pending.entries@, key, j);
                    crate::keyed::lemma_entry(self.pending.entries@, j);
                }
            }
            assert(self.pending@ =~= kept);
        }
        revoked
    }

    /// The place of the work of a class that gives way before all other of it.
    fn eviction_candidate(&self, class: WorkClass) -> (found: Option<usize>)
        requires
            self.wf(),
        ensures
            match found {
                Some(at) => at < self.pending.entries@.len() && gives_way(
                    self.pending(),
                    class,
                    self.pending.entries@[at as int].0,
                ),
                None => forall|key: WorkKey| #[trigger]
                    self.pending().contains_key(key) ==> self.pending()[key].class != Some(class),
            },
    {
        let mut found: Option<usize> = None;
        let mut i: usize = 0;
        while i < self.pending.entries.len()
            invariant
                i <= self.pending.entries@.len(),
                match found {
                    Some(at) => at < i && self.pending.entries@[at as int].1.class == Some(class)
                        && forall|j: int|
                        0 <= j < i && (#[trigger] self.pending.entries@[j]).1.class == Some(class)
                            ==> no_more_urgent(
                            self.pending.entries@[at as int].1,
                            self.pending.entries@[j].1,
                        ),
                    None => forall|j: int|
                        0 <= j < i ==> (#[trigger] self.pending.entries@[j]).1.class != Some(class),
                },
            decreases self.pending.entries@.len() - i,
        {
            let own = match self.pending.entries[i].1.class {
                Some(other) => other == class,
                None => false,
            };
            if own {
                match found {
                    None => {
                        found = Some(i);
                    },
                    Some(at) => {
                        let lowest = &self.pending.entries[at].1;
                        let candidate = &self.pending.entries[i].1;
                        if candidate.priority.0 < lowest.priority.0 || (candidate.priority.0
                            == lowest.priority.0 && candidate.sequence < lowest.sequence) {
                            found = Some(i);
                        }
                    },
                }
            }
            i += 1;
        }
        proof {
            let entries = self.pending.entries@;
            if found is Some {
                let at = found->0 as int;
                crate::keyed::lemma_entry(entries, at);
                assert forall|other: WorkKey| #[trigger]
                    self.pending().contains_key(other) && self.pending()[other].class == Some(
                        class,
                    ) implies no_more_urgent(
                    self.pending()[entries[at].0],
                    self.pending()[other],
                ) by {
                    let j = choose|j: int| crate::keyed::holds_at(entries, other, j);
                    crate::keyed::lemma_entry(entries, j);
                }
            } else {
                assert forall|key: WorkKey| #[trigger]
                    self.pending().contains_key(key) implies self.pending()[key].class != Some(
                    class,
                ) by {
                    let j = choose|j: int| crate::keyed::holds_at(entries, key, j);
                    crate::keyed::lemma_entry(entries, j);
                }
            }
        }
        found
    }

    /// Puts one piece of work in and, if that was one too many, lets one of its
    /// class go. Returns how many went, and adds their flags and that of the work
    /// that was under the key to the list.
    fn take_in(
        &mut self,
        work: Work,
        class: WorkClass,
        cancellation: CancellationSource,
        capacity: usize,
        revoked: &mut Vec<CancellationSource>,
    ) -> (evicted: usize)
        requires
            old(self).wf(),
            capacity > 0,
            old(self).pending().dom().len() <= capacity,
            has_flag(old(self).pending(), class, cancellation),
        ensures
            final(self).wf(),
            final(self).next() == next_sequence(old(self).next()),
            final(self).pending().dom().finite(),
            final(self).pending().dom().len() <= capacity,
            took_in(
                old(self).pending(),
                final(self).pending(),
                work.spec_key(class),
                PendingWork {
                    sequence: old(self).next(),
                    priority: work.spec_priority(),
                    class: Some(class),
                    cancellation,
                    kind: PendingKind::Engine(work),
                },
                class,
                capacity,
            ),
            has_flag(final(self).pending(), class, cancellation),
            keeps_others(old(self).pending(), final(self).pending(), class),
            evicted == if old(self).pending().dom().insert(work.spec_key(class)).len() > capacity {
                1usize
            } else {
                0
            },
            covers_dropped(final(revoked)@, old(self).pending(), final(self).pending()),
            !final(self).pending().contains_key(work.spec_key(class))
                ==> final(revoked)@.contains(cancellation),
            extends(old(revoked)@, final(revoked)@),
            forall|j: int|
                old(revoked)@.len() <= j < final(revoked)@.len() ==> #[trigger] final(revoked)@[j]
                    == cancellation,
            final(revoked)@.len() > old(revoked)@.len() ==> met_another(
                old(self).pending(),
                work.spec_key(class),
                capacity,
            ),
    {
        let ghost start = self.pending@;
        let ghost flags = revoked@;
        proof {
            crate::keyed::lemma_size(self.pending.entries@);
        }
        let key = work.key(class);
        let priority = work.priority();
        let sequence: u128 = self.allocate_sequence();
        let entry = PendingWork {
            sequence,
            priority,
            class: Some(class),
            cancellation,
            kind: PendingKind::Engine(work),
        };
        let ghost full = start.insert(key, entry);
        if let Some(previous) = self.pending.insert(key, entry) {
            assert(start.contains_key(key) && start[key].class == Some(class));
            revoked.push(previous.cancellation);
            assert(revoked@[flags.len() as int] == start[key].cancellation);
        }
        let ghost middle = revoked@;
        proof {
            crate::keyed::lemma_size(self.pending.entries@);
            assert(full.dom() =~= start.dom().insert(key));
            assert(full.contains_key(key));
            assert(has_flag(full, class, cancellation));
            assert(keeps_others(start, full, class));
        }
        if self.pending.len() > capacity {
            if let Some(at) = self.eviction_candidate(class) {
                let ghost low = self.pending.entries@[at as int].0;
                proof {
                    assert(gives_way(full, class, low));
                    crate::keyed::lemma_entry(self.pending.entries@, at as int);
                    crate::keyed::lemma_remove(self.pending.entries@, at as int);
                }
                let (_, gone) = self.pending.entries.remove(at);
                revoked.push(gone.cancellation);
                proof {
                    assert(revoked@[middle.len() as int] == full[low].cancellation);
                    crate::keyed::lemma_size(self.pending.entries@);
                    assert(self.pending@.dom() =~= full.dom().remove(low));
                    assert forall|other: WorkKey| #[trigger]
                        start.contains_key(other) && !(self.pending@.contains_key(other)
                            && self.pending@[other] == start[other]) implies revoked@.contains(
                        start[other].cancellation,
                    ) by {
                        if other == key {
                            assert(revoked@[flags.len() as int] == start[other].cancellation);
                        } else {
                            assert(other == low);
                        }
                    }
                    assert(revoked@.take(flags.len() as int) =~= flags);
                }
                return 1;
            }
            assert(full.contains_key(key) && full[key].class == Some(class));
        }
        assert(revoked@.take(flags.len() as int) =~= flags);
        0
    }

    /// Replaces the work of a class by a batch and hands back the flags to set.
    /// Every piece of the batch has the same flag. When there is no room for a
    /// piece, the least urgent of the batch goes; the work of other classes stays
    /// as it is.
    pub fn replace_class(
        &mut self,
        class: WorkClass,
        work: Vec<Work>,
        cancellation: CancellationSource,
        capacity: usize,
    ) -> (result: (usize, Vec<CancellationSource>))
        requires
            old(self).wf(),
            capacity > 0,
            old(self).pending().dom().len() <= capacity,
        ensures
            final(self).wf(),
            final(self).pending().dom().len() <= capacity,
            final(self).next() == sequence_after(old(self).next(), work@.len() as int),
            keeps_others(old(self).pending(), final(self).pending(), class),
            of_batch(
                final(self).pending(),
                work@,
                work@.len() as int,
                class,
                cancellation,
                old(self).next(),
            ),
            covers_dropped(result.1@, old(self).pending(), final(self).pending()),
            exists|steps: Seq<Map<WorkKey, PendingWork<S>>>|
                {
                    &&& #[trigger] batch_steps(
                        steps,
                        work@,
                        class,
                        cancellation,
                        old(self).next(),
                        capacity,
                    )
                    &&& steps[0] == without_class(old(self).pending(), class)
                    &&& steps.last() == final(self).pending()
                    &&& result.0 == overflows(steps, work@, class, capacity)
                    &&& covers_dropped(result.1@, old(self).pending(), steps[0])
                    &&& covers_batch(result.1@, steps, work@, class, cancellation)
                    &&& only_own_flags(
                        result.1@,
                        old(self).pending(),
                        steps,
                        work@,
                        class,
                        cancellation,
                        capacity,
                    )
                },
    {
        let ghost start = self.pending();
        proof {
            crate::keyed::lemma_size(self.pending.entries@);
            assert(without_class(start, class).dom().subset_of(start.dom()));
            vstd::set_lib::lemma_len_subset(without_class(start, class).dom(), start.dom());
        }
        let mut revoked = self.drop_class(class);
        let mut rejected: usize = 0;
        let mut i: usize = 0;
        let ghost mut steps: Seq<Map<WorkKey, PendingWork<S>>> = seq![self.pending()];
        assert(work@.take(0).len() == 0);
        while i < work.len()
            invariant
                i <= work@.len(),
                rejected <= i,
                self.wf(),
                capacity > 0,
                self.pending().dom().len() <= capacity,
                self.next() == sequence_after(old(self).next(), i as int),
                start == old(self).pending(),
                covers_dropped(revoked@, start, self.pending()),
                batch_steps(
                    steps,
                    work@.take(i as int),
                    class,
                    cancellation,
                    old(self).next(),
                    capacity,
                ),
                steps[0] == without_class(start, class),
                steps.last() == self.pending(),
                rejected == overflows(steps, work@.take(i as int), class, capacity),
                covers_dropped(revoked@, start, steps[0]),
                covers_batch(revoked@, steps, work@.take(i as int), class, cancellation),
                has_flag(self.pending(), class, cancellation),
                keeps_others(start, self.pending(), class),
                of_batch(
                    self.pending(),
                    work@,
                    i as int,
                    class,
                    cancellation,
                    old(self).next(),
                ),
                only_own_flags(
                    revoked@,
                    start,
                    steps,
                    work@.take(i as int),
                    class,
                    cancellation,
                    capacity,
                ),
            decreases work@.len() - i,
        {
            let ghost before = self.pending();
            let ghost flags = revoked@;
            let evicted: usize = self.take_in(
                work[i],
                class,
                cancellation.clone(),
                capacity,
                &mut revoked,
            );
            proof {
                let shorter = work@.take(i as int);
                let longer = work@.take(i + 1);
                assert(longer.drop_last() =~= shorter);
                assert(longer.last() == work@[i as int]);
                let more = steps.push(self.pending());
                assert(batch_steps(
                    more,
                    longer,
                    class,
                    cancellation,
                    old(self).next(),
                    capacity,
                )) by {
                    assert forall|j: int| 0 <= j < longer.len() implies took_in(
                        more[j],
                        #[trigger] more[j + 1],
                        longer[j].spec_key(class),
                        PendingWork {
                            sequence: sequence_after(old(self).next(), j),
                            priority: longer[j].spec_priority(),
                            class: Some(class),
                            cancellation,
                            kind: PendingKind::Engine(longer[j]),
                        },
                        class,
                        capacity,
                    ) by {
                        assert(longer[j] == work@[j]);
                        if j < i {
                            assert(shorter[j] == work@[j]);
                            assert(more[j + 1] == steps[j + 1]);
                            assert(more[j] == steps[j]);
                        } else {
                            assert(more[j] == before);
                        }
                    }
                }
                lemma_overflows_prefix(steps, self.pending(), shorter, class, capacity);
                lemma_covers_chain(flags, revoked@, start, before, self.pending());
                lemma_covers_longer(flags, revoked@, start, steps[0]);
                assert(more[0] == steps[0]);
                assert(covers_batch(revoked@, more, longer, class, cancellation)) by {
                    assert forall|j: int| 0 <= j < longer.len() implies covers_dropped(
                        revoked@,
                        more[j],
                        #[trigger] more[j + 1],
                    ) && (!more[j + 1].contains_key(longer[j].spec_key(class))
                        ==> revoked@.contains(cancellation)) by {
                        assert(longer[j] == work@[j]);
                        if j < i {
                            assert(shorter[j] == work@[j]);
                            assert(more[j + 1] == steps[j + 1]);
                            assert(more[j] == steps[j]);
                            assert(covers_dropped(flags, steps[j], steps[j + 1]));
                            lemma_covers_longer(flags, revoked@, steps[j], steps[j + 1]);
                            lemma_contained_in_longer(flags, revoked@, cancellation);
                        } else {
                            assert(more[j] == before);
                        }
                    }
                }
                assert forall|key: WorkKey| #[trigger]
                    self.pending().contains_key(key) && self.pending()[key].class == Some(
                        class,
                    ) implies exists|j: int|
                    0 <= j < i + 1 && is_piece(
                        self.pending(),
                        key,
                        #[trigger] work@[j],
                        class,
                        cancellation,
                        sequence_after(old(self).next(), j),
                    ) by {
                    if key == work@[i as int].spec_key(class) {
                        assert(is_piece(
                            self.pending(),
                            key,
                            work@[i as int],
                            class,
                            cancellation,
                            sequence_after(old(self).next(), i as int),
                        ));
                    } else {
                        assert(before.contains_key(key) && before[key] == self.pending()[key]);
                        let j = choose|j: int|
                            0 <= j < i && is_piece(
                                before,
                                key,
                                #[trigger] work@[j],
                                class,
                                cancellation,
                                sequence_after(old(self).next(), j),
                            );
                        assert(is_piece(
                            self.pending(),
                            key,
                            work@[j],
                            class,
                            cancellation,
                            sequence_after(old(self).next(), j),
                        ));
                    }
                }
                assert forall|k: int| 0 <= k < revoked@.len() implies is_flag_of(
                    start,
                    class,
                    #[trigger] revoked@[k],
                ) || (revoked@[k] == cancellation && exists|j: int|
                    0 <= j < longer.len() && met_another(
                        #[trigger] more[j],
                        longer[j].spec_key(class),
                        capacity,
                    )) by {
                    if k < flags.len() {
                        assert(revoked@.take(flags.len() as int)[k] == flags[k]);
                        if !is_flag_of(start, class, flags[k]) {
                            let j = choose|j: int|
                                0 <= j < shorter.len() && met_another(
                                    #[trigger] steps[j],
                                    shorter[j].spec_key(class),
                                    capacity,
                                );
                            assert(more[j] == steps[j]);
                            assert(longer[j] == shorter[j]);
                        }
                    } else {
                        assert(more[i as int] == before);
                        assert(longer[i as int] == work@[i as int]);
                        assert(met_another(
                            more[i as int],
                            longer[i as int].spec_key(class),
                            capacity,
                        ));
                    }
                }
                steps = more;
            }
            rejected = rejected + evicted;
            i += 1;
        }
        assert(work@.take(work@.len() as int) =~= work@);
        (rejected, revoked)
    }

    /// Hands out work that no other is more urgent than.
    pub fn pop_next(&mut self) -> (popped: Option<PendingWork<S>>)
        requires
            old(self).wf(),
        ensures
            final(self).wf(),
            final(self).next() == old(self).next(),
            final(self).pending().dom().len() <= old(self).pending().dom().len(),
            match popped {
                Some(work) => exists|key: WorkKey| #[trigger]
                    goes_first(old(self).pending(), key) && work == old(self).pending()[key]
                        && final(self).pending() == old(self).pending().remove(key),
                None => old(self).pending() == Map::<WorkKey, PendingWork<S>>::empty()
                    && final(self).pending() == old(self).pending(),
            },
    {
        if self.pending.entries.len() == 0 {
            assert(self.pending@ =~= Map::<WorkKey, PendingWork<S>>::empty());
            return None;
        }
        let ghost entries = self.pending.entries@;
        let mut at: usize = 0;
        let mut i: usize = 1;
        while i < self.pending.entries.len()
            invariant
                at < i <= self.pending.entries@.len(),
                forall|j: int|
                    0 <= j < i ==> no_more_urgent(
                        (#[trigger] self.pending.entries@[j]).1,
                        self.pending.entries@[at as int].1,
                    ),
            decreases self.pending.entries@.len() - i,
        {
            let highest = &self.pending.entries[at].1;
            let candidate = &self.pending.entries[i].1;
            if candidate.priority.0 > highest.priority.0 || (candidate.priority.0
                == highest.priority.0 && candidate.sequence > highest.sequence) {
                at = i;
            }
            i += 1;
        }
        proof {
            let key = entries[at as int].0;
            crate::keyed::lemma_entry(entries, at as int);
            crate::keyed::lemma_remove(entries, at as int);
            assert forall|other: WorkKey| #[trigger]
                self.pending().contains_key(other) implies no_more_urgent(
                self.pending()[other],
                self.pending()[key],
            ) by {
                let j = choose|j: int| crate::keyed::holds_at(entries, other, j);
                crate::keyed::lemma_entry(entries, j);
            }
            assert(goes_first(self.pending(), key));
        }
        let (_, work) = self.pending.entries.remove(at);
        proof {
            crate::keyed::lemma_size(entries);
            crate::keyed::lemma_size(self.pending.entries@);
        }
        Some(work)
    }

    /// The highest priority of the work that waits.
    pub open spec fn is_highest(&self, priority: DemandPriority) -> bool {
        &&& exists|key: WorkKey| #[trigger]
            self.pending().contains_key(key) && self.pending()[key].priority == priority
        &&& forall|key: WorkKey| #[trigger]
            self.pending().contains_key(key) ==> self.pending()[key].priority.0 <= priority.0
    }

    /// The highest priority of the work that waits.
    pub fn highest_pending_priority(&self) -> (highest: Option<DemandPriority>)
        requires
            self.wf(),
        ensures
            match highest {
                Some(priority) => self.is_highest(priority),
                None => self.pending() == Map::<WorkKey, PendingWork<S>>::empty(),
            },
    {
        let mut highest: Option<DemandPriority> = None;
        let mut i: usize = 0;
        let ghost entries = self.pending.entries@;
        while i < self.pending.entries.len()
            invariant
                i <= self.pending.entries@.len(),
                entries == self.pending.entries@,
                match highest {
                    Some(priority) => (exists|j: int|
                        0 <= j < i && (#[trigger] entries[j]).1.priority == priority) && forall|
                        j: int,
                    |
                        0 <= j < i ==> (#[trigger] entries[j]).1.priority.0 <= priority.0,
                    None => i == 0,
                },
            decreases self.pending.entries@.len() - i,
        {
            let priority = self.pending.entries[i].1.priority;
            assert(entries[i as int].1.priority == priority);
            highest =
            match highest {
                None => Some(priority),
                Some(other) => if priority.0 > other.0 {
                    Some(priority)
                } else {
                    Some(other)
                },
            };
            i += 1;
        }
        proof {
            if highest is Some {
                let priority = highest->0;
                let j = choose|j: int|
                    0 <= j < entries.len() && (#[trigger] entries[j]).1.priority == priority;
                crate::keyed::lemma_entry(entries, j);
                assert(self.pending().contains_key(entries[j].0));
                assert forall|key: WorkKey| #[trigger]
                    self.pending().contains_key(key) implies self.pending()[key].priority.0
                    <= priority.0 by {
                    let k = choose|k: int| crate::keyed::holds_at(entries, key, k);
                    crate::keyed::lemma_entry(entries, k);
                }
            } else {
                assert(self.pending() =~= Map::<WorkKey, PendingWork<S>>::empty());
            }
        }
        highest
    }
}

/// One list of flags continues another.
pub open spec fn extends(shorter: Seq<CancellationSource>, longer: Seq<CancellationSource>) -> bool {
    shorter.len() <= longer.len() && longer.take(shorter.len() as int) == shorter
}

proof fn lemma_overflows_prefix<S>(
    steps: Seq<Map<WorkKey, PendingWork<S>>>,
    last: Map<WorkKey, PendingWork<S>>,
    work: Seq<Work>,
    class: WorkClass,
    capacity: usize,
)
    requires
        work.len() <= steps.len(),
    ensures
        overflows(steps.push(last), work, class, capacity) == overflows(
            steps,
            work,
            class,
            capacity,
        ),
    decreases work.len(),
{
    if work.len() > 0 {
        lemma_overflows_prefix(steps, last, work.drop_last(), class, capacity);
        assert(steps.push(last)[work.len() - 1] == steps[work.len() - 1]);
    }
}

proof fn lemma_contained_in_longer(
    shorter: Seq<CancellationSource>,
    longer: Seq<CancellationSource>,
    flag: CancellationSource,
)
    requires
        extends(shorter, longer),
    ensures
        shorter.contains(flag) ==> longer.contains(flag),
{
    if shorter.contains(flag) {
        let j = choose|j: int| 0 <= j < shorter.len() && shorter[j] == flag;
        assert(longer.take(shorter.len() as int)[j] == flag);
        assert(longer[j] == flag);
    }
}

proof fn lemma_covers_longer<S>(
    shorter: Seq<CancellationSource>,
    longer: Seq<CancellationSource>,
    before: Map<WorkKey, PendingWork<S>>,
    after: Map<WorkKey, PendingWork<S>>,
)
    requires
        covers_dropped(shorter, before, after),
        extends(shorter, longer),
    ensures
        covers_dropped(longer, before, after),
{
    assert forall|key: WorkKey| #[trigger]
        before.contains_key(key) && !(after.contains_key(key) && after[key]
            == before[key]) implies longer.contains(before[key].cancellation) by {
        lemma_contained_in_longer(shorter, longer, before[key].cancellation);
    }
}

proof fn lemma_covers_chain<S>(
    flags: Seq<CancellationSource>,
    longer: Seq<CancellationSource>,
    first: Map<WorkKey, PendingWork<S>>,
    second: Map<WorkKey, PendingWork<S>>,
    third: Map<WorkKey, PendingWork<S>>,
)
    requires
        covers_dropped(flags, first, second),
        covers_dropped(longer, second, third),
        extends(flags, longer),
    ensures
        covers_dropped(longer, first, third),
{
    assert forall|key: WorkKey| #[trigger]
        first.contains_key(key) && !(third.contains_key(key) && third[key]
            == first[key]) implies longer.contains(first[key].cancellation) by {
        if second.contains_key(key) && second[key] == first[key] {
            assert(longer.contains(second[key].cancellation));
        } else {
            let j = choose|j: int| 0 <= j < flags.len() && flags[j] == first[key].cancellation;
            assert(longer.take(flags.len() as int)[j] == flags[j]);
            assert(longer[j] == first[key].cancellation);
        }
    }
}

/// Two pieces of work wait under the same key if and only if they are of the same class
/// and for the same thing: the same tile, the text of the same page, or a preview each.
pub proof fn law_keys_tell_things_apart(a: Work, class: WorkClass, b: Work, other: WorkClass)
    ensures
        a.spec_key(class) == b.spec_key(other) <==> class == other && match (a, b) {
            (Work::Render(a), Work::Render(b)) => a.key == b.key,
            (Work::Text(a), Work::Text(b)) => a.page == b.page,
            (Work::Preview(_), Work::Preview(_)) => true,
            _ => false,
        },
        a.spec_key(class).class() == Some(class),
{
}

/// Two pieces of work are for different things.
pub open spec fn different_things(a: Work, b: Work) -> bool {
    match (a, b) {
        (Work::Render(a), Work::Render(b)) => a.key != b.key,
        (Work::Text(a), Work::Text(b)) => a.page != b.page,
        (Work::Preview(_), Work::Preview(_)) => false,
        _ => true,
    }
}

/// A batch of work for different things, for which there is room, waits afterwards whole:
/// every piece of it is there, with the priority of its demand, and all that waited of
/// other classes. No piece was one too many, and no flag is handed back but those of what
/// waited of the class before.
pub proof fn law_batches_that_fit_wait_whole<S>(
    before: WorkQueue<S>,
    after: WorkQueue<S>,
    class: WorkClass,
    work: Seq<Work>,
    cancellation: CancellationSource,
    capacity: usize,
    rejected: usize,
    revoked: Seq<CancellationSource>,
    steps: Seq<Map<WorkKey, PendingWork<S>>>,
)
    requires
        before.wf(),
        batch_steps(steps, work, class, cancellation, before.next(), capacity),
        steps[0] == without_class(before.pending(), class),
        steps.last() == after.pending(),
        rejected == overflows(steps, work, class, capacity),
        only_own_flags(
            revoked,
            before.pending(),
            steps,
            work,
            class,
            cancellation,
            capacity,
        ),
        before.pending().dom().len() + work.len() <= capacity,
        forall|i: int, j: int|
            0 <= i < j < work.len() ==> different_things(#[trigger] work[i], #[trigger] work[j]),
    ensures
        rejected == 0,
        forall|i: int|
            0 <= i < work.len() ==> after.pending().contains_key(
                (#[trigger] work[i]).spec_key(class),
            ) && {
                let waits = after.pending()[work[i].spec_key(class)];
                &&& waits.kind == PendingKind::<S>::Engine(work[i])
                &&& waits.class == Some(class)
                &&& waits.cancellation == cancellation
                &&& waits.priority == match work[i] {
                    Work::Render(demand) => demand.stamp.priority,
                    Work::Text(demand) => demand.stamp.priority,
                    Work::Preview(demand) => demand.stamp.priority,
                }
            },
        forall|key: WorkKey| #[trigger]
            before.pending().contains_key(key) && before.pending()[key].class != Some(class)
                ==> after.pending().contains_key(key) && after.pending()[key]
                == before.pending()[key],
        forall|j: int|
            0 <= j < revoked.len() ==> is_flag_of(before.pending(), class, #[trigger] revoked[j]),
{
    crate::keyed::lemma_size(before.pending.entries@);
    let start = before.pending();
    let kept = without_class(start, class);
    assert(kept.dom().subset_of(start.dom()));
    vstd::set_lib::lemma_len_subset(kept.dom(), start.dom());
    lemma_batch_waits_whole(steps, work, class, cancellation, before.next(), capacity, start);
    let count = work.len() as int;
    assert(whole_until(steps, work, class, cancellation, before.next(), start, count));
    lemma_no_overflow(steps, work, class, capacity);
    assert forall|j: int| 0 <= j < revoked.len() implies is_flag_of(
        start,
        class,
        #[trigger] revoked[j],
    ) by {
        if !is_flag_of(start, class, revoked[j]) {
            let i = choose|i: int|
                0 <= i < work.len() && met_another(
                    #[trigger] steps[i],
                    work[i].spec_key(class),
                    capacity,
                );
            assert(free_at(steps, work, class, capacity, i));
        }
    }
}

/// After so many pieces of a batch these pieces wait, and with them what is of other
/// classes, and nothing else.
spec fn whole_until<S>(
    steps: Seq<Map<WorkKey, PendingWork<S>>>,
    work: Seq<Work>,
    class: WorkClass,
    cancellation: CancellationSource,
    first_sequence: u128,
    start: Map<WorkKey, PendingWork<S>>,
    count: int,
) -> bool {
    let now = steps[count];
    &&& now.dom().finite()
    &&& now.dom().len() <= start.dom().len() + count
    &&& forall|i: int|
        0 <= i < count ==> now.contains_key((#[trigger] work[i]).spec_key(class))
            && now[work[i].spec_key(class)] == batch_entry::<S>(
            work[i],
            class,
            cancellation,
            sequence_after(first_sequence, i),
        )
    &&& forall|key: WorkKey| #[trigger]
        now.contains_key(key) && key.class() == Some(class) ==> exists|i: int|
            0 <= i < count && (#[trigger] work[i]).spec_key(class) == key
    &&& forall|key: WorkKey| #[trigger]
        start.contains_key(key) && start[key].class != Some(class) ==> now.contains_key(key)
            && now[key] == start[key]
}

/// A piece of a batch finds its key free and room for it.
spec fn free_at<S>(
    steps: Seq<Map<WorkKey, PendingWork<S>>>,
    work: Seq<Work>,
    class: WorkClass,
    capacity: usize,
    i: int,
) -> bool {
    !met_another(steps[i], work[i].spec_key(class), capacity)
}

proof fn lemma_batch_waits_whole<S>(
    steps: Seq<Map<WorkKey, PendingWork<S>>>,
    work: Seq<Work>,
    class: WorkClass,
    cancellation: CancellationSource,
    first_sequence: u128,
    capacity: usize,
    start: Map<WorkKey, PendingWork<S>>,
)
    requires
        batch_steps(steps, work, class, cancellation, first_sequence, capacity),
        classes_fit(start),
        start.dom().finite(),
        steps[0] == without_class(start, class),
        start.dom().len() + work.len() <= capacity,
        forall|i: int, j: int|
            0 <= i < j < work.len() ==> different_things(#[trigger] work[i], #[trigger] work[j]),
    ensures
        forall|count: int|
            0 <= count <= work.len() ==> #[trigger] whole_until(
                steps,
                work,
                class,
                cancellation,
                first_sequence,
                start,
                count,
            ),
        forall|i: int| 0 <= i < work.len() ==> #[trigger] free_at(steps, work, class, capacity, i),
{
    assert forall|count: int| 0 <= count <= work.len() implies #[trigger] whole_until(
        steps,
        work,
        class,
        cancellation,
        first_sequence,
        start,
        count,
    ) by {
        lemma_whole_until(
            steps,
            work,
            class,
            cancellation,
            first_sequence,
            capacity,
            start,
            count,
        );
    }
    assert forall|i: int| 0 <= i < work.len() implies #[trigger] free_at(
        steps,
        work,
        class,
        capacity,
        i,
    ) by {
        lemma_whole_until(
            steps,
            work,
            class,
            cancellation,
            first_sequence,
            capacity,
            start,
            i,
        );
        lemma_free(steps, work, class, cancellation, first_sequence, capacity, start, i);
    }
}

proof fn lemma_free<S>(
    steps: Seq<Map<WorkKey, PendingWork<S>>>,
    work: Seq<Work>,
    class: WorkClass,
    cancellation: CancellationSource,
    first_sequence: u128,
    capacity: usize,
    start: Map<WorkKey, PendingWork<S>>,
    i: int,
)
    requires
        0 <= i < work.len(),
        whole_until(steps, work, class, cancellation, first_sequence, start, i),
        start.dom().len() + work.len() <= capacity,
        forall|i: int, j: int|
            0 <= i < j < work.len() ==> different_things(#[trigger] work[i], #[trigger] work[j]),
    ensures
        free_at(steps, work, class, capacity, i),
        !steps[i].contains_key(work[i].spec_key(class)),
{
    let key = work[i].spec_key(class);
    if steps[i].contains_key(key) {
        assert(key.class() == Some(class));
        let j = choose|j: int| 0 <= j < i && (#[trigger] work[j]).spec_key(class) == key;
        assert(different_things(work[j], work[i]));
        law_keys_tell_things_apart(work[j], class, work[i], class);
    }
    vstd::set::axiom_set_insert_len(steps[i].dom(), key);
}

proof fn lemma_whole_until<S>(
    steps: Seq<Map<WorkKey, PendingWork<S>>>,
    work: Seq<Work>,
    class: WorkClass,
    cancellation: CancellationSource,
    first_sequence: u128,
    capacity: usize,
    start: Map<WorkKey, PendingWork<S>>,
    count: int,
)
    requires
        batch_steps(steps, work, class, cancellation, first_sequence, capacity),
        classes_fit(start),
        start.dom().finite(),
        steps[0] == without_class(start, class),
        start.dom().len() + work.len() <= capacity,
        0 <= count <= work.len(),
        forall|i: int, j: int|
            0 <= i < j < work.len() ==> different_things(#[trigger] work[i], #[trigger] work[j]),
    ensures
        whole_until(steps, work, class, cancellation, first_sequence, start, count),
    decreases count,
{
    if count == 0 {
        let kept = without_class(start, class);
        assert(kept.dom().subset_of(start.dom()));
        vstd::set_lib::lemma_len_subset(kept.dom(), start.dom());
        assert forall|key: WorkKey| #[trigger]
            kept.contains_key(key) && key.class() == Some(class) implies false by {
            assert(start.contains_key(key));
        }
    } else {
        let i = count - 1;
        lemma_whole_until(
            steps,
            work,
            class,
            cancellation,
            first_sequence,
            capacity,
            start,
            i,
        );
        lemma_free(steps, work, class, cancellation, first_sequence, capacity, start, i);
        let key = work[i].spec_key(class);
        let before = steps[i];
        let now = steps[i + 1];
        let entry = batch_entry::<S>(
            work[i],
            class,
            cancellation,
            sequence_after(first_sequence, i),
        );
        assert(took_in(before, now, key, entry, class, capacity));
        assert(before.insert(key, entry).dom() =~= before.dom().insert(key));
        assert(now == before.insert(key, entry));
        assert forall|j: int| 0 <= j < count implies now.contains_key(
            (#[trigger] work[j]).spec_key(class),
        ) && now[work[j].spec_key(class)] == batch_entry::<S>(
            work[j],
            class,
            cancellation,
            sequence_after(first_sequence, j),
        ) by {
            if j < i {
                assert(different_things(work[j], work[i]));
                law_keys_tell_things_apart(work[j], class, work[i], class);
            }
        }
        assert forall|other: WorkKey| #[trigger]
            now.contains_key(other) && other.class() == Some(class) implies exists|j: int|
            0 <= j < count && (#[trigger] work[j]).spec_key(class) == other by {
            if other == key {
                assert(work[i].spec_key(class) == other);
            } else {
                assert(before.contains_key(other));
                let j = choose|j: int| 0 <= j < i && (#[trigger] work[j]).spec_key(class) == other;
                assert(work[j].spec_key(class) == other);
            }
        }
        assert(key.class() == Some(class));
        assert forall|other: WorkKey| #[trigger]
            start.contains_key(other) && start[other].class != Some(
                class,
            ) implies now.contains_key(other) && now[other] == start[other] by {
            assert(other.class() != Some(class));
        }
    }
}

proof fn lemma_no_overflow<S>(
    steps: Seq<Map<WorkKey, PendingWork<S>>>,
    work: Seq<Work>,
    class: WorkClass,
    capacity: usize,
)
    requires
        forall|i: int| 0 <= i < work.len() ==> #[trigger] free_at(steps, work, class, capacity, i),
    ensures
        overflows(steps, work, class, capacity) == 0,
    decreases work.len(),
{
    if work.len() > 0 {
        let shorter = work.drop_last();
        assert forall|i: int| 0 <= i < shorter.len() implies #[trigger] free_at(
            steps,
            shorter,
            class,
            capacity,
            i,
        ) by {
            assert(free_at(steps, work, class, capacity, i));
        }
        lemma_no_overflow(steps, shorter, class, capacity);
        assert(free_at(steps, work, class, capacity, work.len() - 1));
    }
}

/// What leaves first has no less priority than anything else that waits, and of what has
/// the same priority it came last. What gives way in a class has no more priority than
/// any other work of the class, and of what has the same it came first.
pub proof fn law_urgent_work_leaves_first<S>(
    pending: Map<WorkKey, PendingWork<S>>,
    key: WorkKey,
    other: WorkKey,
    class: WorkClass,
)
    requires
        pending.contains_key(key),
        pending.contains_key(other),
    ensures
        goes_first(pending, key) ==> pending[other].priority.0 <= pending[key].priority.0 && (
        pending[other].priority.0 == pending[key].priority.0 ==> pending[other].sequence
            <= pending[key].sequence),
        gives_way(pending, class, key) ==> pending[key].class == Some(class) && (
        pending[other].class == Some(class) ==> pending[key].priority.0
            <= pending[other].priority.0 && (pending[other].priority.0 == pending[key].priority.0
            ==> pending[key].sequence <= pending[other].sequence)),
{
}

/// Numbers of arrival go up by one; after the last they start over at one, and zero is never
/// among them.
pub proof fn law_arrivals_are_numbered(sequence: u128)
    ensures
        next_sequence(sequence) != 0,
        sequence < u128::MAX ==> next_sequence(sequence) == sequence + 1,
        sequence == u128::MAX ==> next_sequence(sequence) == 1,
{
}

} // verus!

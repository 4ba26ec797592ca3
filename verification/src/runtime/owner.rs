//! The owner of an engine: many documents, one piece of work at a time.

use crate::keyed::KeyedList;
use crate::runtime::cancellation::cancel_all;
use crate::runtime::engine::{EngineCapabilities, EngineDocument, PdfEngine};
use crate::runtime::managed_document::ManagedDocument;
use crate::runtime::priority::DemandPriority;
use crate::runtime::supervisor::{
    Command, EventRoute, SupervisorDocumentId, SupervisorEvent, SupervisorPolicy,
};
use crate::runtime::work_queue::{PendingKind, PendingWork, WorkKey};
use vstd::prelude::*;

verus! {

/// The documents of an owner and the order in which they take turns.
#[derive(Debug)]
pub struct EngineOwner<D, S, E, L, R> {
    policy: SupervisorPolicy,
    capabilities: EngineCapabilities,
    documents: KeyedList<SupervisorDocumentId, ManagedDocument<D, S, E, L, R>>,
    rotation: Vec<SupervisorDocumentId>,
}

/// A list of identities without one of them.
pub open spec fn without(rotation: Seq<SupervisorDocumentId>, id: SupervisorDocumentId) -> Seq<
    SupervisorDocumentId,
>
    decreases rotation.len(),
{
    if rotation.len() == 0 {
        rotation
    } else if rotation.last() == id {
        without(rotation.drop_last(), id)
    } else {
        without(rotation.drop_last(), id).push(rotation.last())
    }
}

/// The identities of a list that are in a set.
pub open spec fn among(rotation: Seq<SupervisorDocumentId>, kept: Set<SupervisorDocumentId>) -> Seq<
    SupervisorDocumentId,
>
    decreases rotation.len(),
{
    if rotation.len() == 0 {
        rotation
    } else if kept.contains(rotation.last()) {
        among(rotation.drop_last(), kept).push(rotation.last())
    } else {
        among(rotation.drop_last(), kept)
    }
}

proof fn lemma_among_all(rotation: Seq<SupervisorDocumentId>, kept: Set<SupervisorDocumentId>)
    requires
        forall|i: int| 0 <= i < rotation.len() ==> kept.contains(#[trigger] rotation[i]),
    ensures
        among(rotation, kept) == rotation,
    decreases rotation.len(),
{
    if rotation.len() > 0 {
        assert forall|i: int| 0 <= i < rotation.drop_last().len() implies kept.contains(
            #[trigger] rotation.drop_last()[i],
        ) by {
            assert(kept.contains(rotation[i]));
        }
        lemma_among_all(rotation.drop_last(), kept);
        assert(kept.contains(rotation[rotation.len() - 1]));
        assert(rotation.drop_last().push(rotation.last()) =~= rotation);
    }
}

proof fn lemma_among_without(
    rotation: Seq<SupervisorDocumentId>,
    kept: Set<SupervisorDocumentId>,
    id: SupervisorDocumentId,
)
    ensures
        without(among(rotation, kept), id) == among(rotation, kept.remove(id)),
    decreases rotation.len(),
{
    if rotation.len() > 0 {
        lemma_among_without(rotation.drop_last(), kept, id);
        let front = among(rotation.drop_last(), kept);
        if kept.contains(rotation.last()) {
            assert(front.push(rotation.last()).drop_last() =~= front);
        }
    }
}

proof fn lemma_without_absent(rotation: Seq<SupervisorDocumentId>, id: SupervisorDocumentId)
    requires
        !rotation.contains(id),
    ensures
        without(rotation, id) == rotation,
    decreases rotation.len(),
{
    if rotation.len() > 0 {
        assert(rotation.contains(rotation.last()));
        assert forall|i: int| 0 <= i < rotation.drop_last().len() implies rotation.drop_last()[i]
            != id by {
            assert(rotation.contains(rotation[i]));
        }
        lemma_without_absent(rotation.drop_last(), id);
        assert(rotation.drop_last().push(rotation.last()) =~= rotation);
    }
}

proof fn lemma_without_one(rotation: Seq<SupervisorDocumentId>, at: int)
    requires
        rotation.no_duplicates(),
        0 <= at < rotation.len(),
    ensures
        without(rotation, rotation[at]) == rotation.remove(at),
    decreases rotation.len(),
{
    let id = rotation[at];
    let last = rotation.len() - 1;
    if at == last {
        assert forall|i: int| 0 <= i < rotation.drop_last().len() implies rotation.drop_last()[i]
            != id by {
            assert(rotation[i] != rotation[last]);
        }
        lemma_without_absent(rotation.drop_last(), id);
        assert(rotation.remove(at) =~= rotation.drop_last());
    } else {
        assert(rotation[last] != id);
        lemma_without_one(rotation.drop_last(), at);
        assert(rotation.drop_last().remove(at).push(rotation.last()) =~= rotation.remove(at));
    }
}

impl<D, S, E, L, R> EngineOwner<D, S, E, L, R> {
    /// The documents by identity.
    pub closed spec fn documents(&self) -> Map<
        SupervisorDocumentId,
        ManagedDocument<D, S, E, L, R>,
    > {
        self.documents@
    }

    /// The order in which the documents take turns.
    pub closed spec fn rotation(&self) -> Seq<SupervisorDocumentId> {
        self.rotation@
    }

    /// The bounds.
    pub closed spec fn spec_policy(&self) -> SupervisorPolicy {
        self.policy
    }

    /// What the engine can do.
    pub closed spec fn spec_capabilities(&self) -> EngineCapabilities {
        self.capabilities
    }

    /// Each document keeps its own order.
    pub closed spec fn lists_wf(&self) -> bool {
        self.documents.wf()
    }

    /// Every document takes its turn once, and each is within its bounds.
    pub open spec fn wf(&self) -> bool {
        &&& self.lists_wf()
        &&& self.spec_policy().wf()
        &&& self.rotation().no_duplicates()
        &&& forall|id: SupervisorDocumentId| #[trigger]
            self.rotation().contains(id) <==> self.documents().contains_key(id)
        &&& forall|id: SupervisorDocumentId| #[trigger]
            self.documents().contains_key(id) ==> self.documents()[id].wf(
                self.spec_policy().pending_bound(),
            )
    }

    /// The bounds and the engine are the same.
    pub open spec fn same_engine(&self, before: Self) -> bool {
        self.spec_policy() == before.spec_policy() && self.spec_capabilities()
            == before.spec_capabilities()
    }

    /// Only this document changed.
    pub open spec fn only_document(&self, before: Self, id: SupervisorDocumentId) -> bool {
        &&& self.same_engine(before)
        &&& self.rotation() == before.rotation()
        &&& self.documents().contains_key(id)
        &&& self.documents() == before.documents().insert(id, self.documents()[id])
    }

    /// Nothing changed.
    pub open spec fn unchanged(&self, before: Self) -> bool {
        &&& self.same_engine(before)
        &&& self.rotation() == before.rotation()
        &&& self.documents() == before.documents()
    }

    /// The document can take a turn: it has work, and its window has heard
    /// everything.
    pub open spec fn ready(&self, id: SupervisorDocumentId) -> bool {
        &&& self.documents().contains_key(id)
        &&& self.documents()[id].events@.len() == 0
        &&& self.documents()[id].work.pending() != Map::<WorkKey, PendingWork<S>>::empty()
    }

    /// The document can take a turn with work of this priority, its highest.
    pub open spec fn ready_at(&self, id: SupervisorDocumentId, priority: DemandPriority) -> bool {
        &&& self.documents().contains_key(id)
        &&& self.documents()[id].events@.len() == 0
        &&& self.documents()[id].work.is_highest(priority)
    }

    /// No document.
    pub fn new(policy: SupervisorPolicy, capabilities: EngineCapabilities) -> (owner: Self)
        requires
            policy.wf(),
        ensures
            owner.wf(),
            owner.spec_policy() == policy,
            owner.spec_capabilities() == capabilities,
            owner.documents() == Map::<
                SupervisorDocumentId,
                ManagedDocument<D, S, E, L, R>,
            >::empty(),
            owner.rotation().len() == 0,
    {
        EngineOwner { policy, capabilities, documents: KeyedList::new(), rotation: Vec::new() }
    }

    /// Forgets a document.
    fn forget(&mut self, id: SupervisorDocumentId)
        requires
            old(self).wf(),
        ensures
            final(self).wf(),
            final(self).same_engine(*old(self)),
            final(self).documents() == old(self).documents().remove(id),
            forall|other: SupervisorDocumentId| #[trigger]
                final(self).rotation().contains(other) <==> old(self).rotation().contains(other)
                    && other != id,
            final(self).rotation() == without(old(self).rotation(), id),
            old(self).documents().contains_key(id) ==> old(self).documents()[id].was_ended(),
    {
        let ghost start = *self;
        if let Some(document) = self.documents.remove(&id) {
            let mut document = document;
            assert(start.documents().contains_key(id));
            document.cancel_and_clear(self.policy.max_pending_per_document());
        }
        let mut at: usize = 0;
        while at < self.rotation.len() && self.rotation[at] != id
            invariant
                at <= self.rotation@.len(),
                self.rotation@ == start.rotation@,
                self.documents@ == start.documents@.remove(id),
                self.documents.wf(),
                self.policy == start.policy,
                self.capabilities == start.capabilities,
                forall|i: int| 0 <= i < at ==> self.rotation@[i] != id,
            decreases self.rotation@.len() - at,
        {
            at += 1;
        }
        if at < self.rotation.len() {
            let _ = self.rotation.remove(at);
            proof {
                let before = start.rotation@;
                let after = self.rotation@;
                lemma_without_one(before, at as int);
                assert(before.contains(id)) by {
                    assert(before[at as int] == id);
                }
                assert forall|other: SupervisorDocumentId| #[trigger]
                    after.contains(other) <==> before.contains(other) && other != id by {
                    if after.contains(other) {
                        let i = choose|i: int| 0 <= i < after.len() && after[i] == other;
                        let j = if i < at { i } else { i + 1 };
                        assert(before[j] == other);
                        assert(before[at as int] == id);
                    }
                    if before.contains(other) && other != id {
                        let i = choose|i: int| 0 <= i < before.len() && before[i] == other;
                        let j = if i < at { i } else { i - 1 };
                        assert(after[j] == other);
                    }
                }
                assert(after.no_duplicates()) by {
                    assert forall|i: int, j: int|
                        0 <= i < after.len() && 0 <= j < after.len() && i != j implies after[i]
                        != after[j] by {
                        let a = if i < at { i } else { i + 1 };
                        let b = if j < at { j } else { j + 1 };
                        assert(before[a] != before[b]);
                    }
                }
            }
        } else {
            proof {
                let before = start.rotation@;
                lemma_without_absent(before, id);
            }
        }
    }

    /// Forgets every document, as the owner stops: all that ran or waited is told
    /// to stop.
    pub fn close_all(&mut self)
        requires
            old(self).wf(),
        ensures
            final(self).wf(),
            final(self).same_engine(*old(self)),
            final(self).documents() == Map::<
                SupervisorDocumentId,
                ManagedDocument<D, S, E, L, R>,
            >::empty(),
            final(self).rotation().len() == 0,
            forall|id: SupervisorDocumentId| #[trigger]
                old(self).documents().contains_key(id) ==> old(self).documents()[id].was_ended(),
    {
        let ghost start = *self;
        while self.rotation.len() > 0
            invariant
                self.wf(),
                self.same_engine(start),
                forall|id: SupervisorDocumentId| #[trigger]
                    self.documents().contains_key(id) ==> start.documents().contains_key(id)
                        && self.documents()[id] == start.documents()[id],
                forall|id: SupervisorDocumentId| #[trigger]
                    start.documents().contains_key(id) && !self.documents().contains_key(id)
                        ==> start.documents()[id].was_ended(),
            decreases self.rotation().len(),
        {
            let ghost before = *self;
            let id = self.rotation[0];
            proof {
                assert(before.rotation().contains(before.rotation()[0]));
                lemma_without_one(before.rotation(), 0);
            }
            self.forget(id);
        }
        proof {
            assert forall|id: SupervisorDocumentId| !#[trigger] self.documents().contains_key(
                id,
            ) by {
                assert(!self.rotation().contains(id));
            }
            assert(self.documents() =~= Map::empty());
        }
    }

    /// Carries out a command. Returns whether the owner goes on.
    pub fn accept_command(&mut self, command: Command<S, R>) -> (goes_on: bool)
        requires
            old(self).wf(),
        ensures
            final(self).wf(),
            final(self).same_engine(*old(self)),
            goes_on == !(command is Shutdown),
            match command {
                Command::Attach { id, route } => if old(self).documents().contains_key(id) {
                    final(self).unchanged(*old(self))
                } else {
                    &&& final(self).rotation() == old(self).rotation().push(id)
                    &&& final(self).documents().contains_key(id)
                    &&& final(self).documents() == old(self).documents().insert(
                        id,
                        final(self).documents()[id],
                    )
                    &&& final(self).documents()[id].is_clear()
                    &&& final(self).documents()[id].sessions.next() == 1
                    &&& final(self).documents()[id].work.next() == 1
                    &&& final(self).documents()[id].route == Some(route)
                    &&& final(self).documents()[id].events@ == seq![
                        SupervisorEvent::<E, L>::Attached {
                            document: id,
                            capabilities: old(self).spec_capabilities(),
                        },
                    ]
                },
                Command::Open { id, source, cancellation } => if old(self).documents().contains_key(id) {
                    let before = old(self).documents()[id];
                    let after = final(self).documents()[id];
                    &&& final(self).only_document(*old(self), id)
                    &&& before.was_ended()
                    &&& after.sessions.active() is None
                    &&& after.sessions.next() == before.sessions.next()
                    &&& after.document is None
                    &&& after.document_handle is None
                    &&& after.descriptor is None
                    &&& after.events == before.events
                    &&& after.route == before.route
                    &&& after.work.next() == crate::runtime::work_queue::next_sequence(
                        before.work.next(),
                    )
                    &&& after.work.pending() == Map::<WorkKey, PendingWork<S>>::empty().insert(
                        WorkKey::Open,
                        PendingWork {
                            sequence: before.work.next(),
                            priority: DemandPriority::interactive(),
                            class: None,
                            cancellation,
                            kind: PendingKind::Open(source),
                        },
                    )
                } else {
                    final(self).unchanged(*old(self))
                },
                Command::Close { id } => if old(self).documents().contains_key(id) {
                    let before = old(self).documents()[id];
                    let after = final(self).documents()[id];
                    &&& final(self).only_document(*old(self), id)
                    &&& before.was_ended()
                    &&& after.is_clear()
                    &&& after.sessions.next() == before.sessions.next()
                    &&& after.work.next() == before.work.next()
                    &&& after.route == before.route
                    &&& after.events@ == before.events@.push(
                        SupervisorEvent::Closed {
                            document: id,
                            generation: crate::runtime::managed_document::current_generation(
                                before.sessions,
                            ),
                        },
                    )
                } else {
                    final(self).unchanged(*old(self))
                },
                Command::Replace { id, class, work, cancellation } => if old(self).documents().contains_key(id) {
                    let before = old(self).documents()[id];
                    let after = final(self).documents()[id];
                    let capacity = old(self).spec_policy().pending_bound();
                    &&& final(self).only_document(*old(self), id)
                    &&& after.sessions == before.sessions
                    &&& after.document == before.document
                    &&& after.document_handle == before.document_handle
                    &&& after.descriptor == before.descriptor
                    &&& after.route == before.route
                    &&& after.work.next() == crate::runtime::work_queue::sequence_after(
                        before.work.next(),
                        work@.len() as int,
                    )
                    &&& crate::runtime::work_queue::keeps_others(
                        before.work.pending(),
                        after.work.pending(),
                        class,
                    )
                    &&& crate::runtime::work_queue::of_batch(
                        after.work.pending(),
                        work@,
                        work@.len() as int,
                        class,
                        cancellation,
                        before.work.next(),
                    )
                    &&& exists|steps: Seq<Map<WorkKey, PendingWork<S>>>|
                        {
                            let rejected = crate::runtime::work_queue::overflows(
                                steps,
                                work@,
                                class,
                                capacity,
                            );
                            &&& #[trigger] crate::runtime::work_queue::batch_steps(
                                steps,
                                work@,
                                class,
                                cancellation,
                                before.work.next(),
                                capacity,
                            )
                            &&& steps[0] == crate::runtime::work_queue::without_class(
                                before.work.pending(),
                                class,
                            )
                            &&& steps.last() == after.work.pending()
                            &&& crate::runtime::work_queue::dropped_are_cancelled(
                                before.work.pending(),
                                steps[0],
                            )
                            &&& crate::runtime::work_queue::pushed_out_are_cancelled(
                                steps,
                                work@,
                                class,
                                cancellation,
                            )
                            &&& 0 <= rejected <= work@.len()
                            &&& after.events@ == if rejected > 0 {
                                before.events@.push(
                                    SupervisorEvent::WorkRejected {
                                        document: id,
                                        class,
                                        rejected: rejected as usize,
                                    },
                                )
                            } else {
                                before.events@
                            }
                        }
                } else {
                    final(self).unchanged(*old(self))
                },
                Command::CancelClass { id, class } => if old(self).documents().contains_key(id) {
                    let before = old(self).documents()[id];
                    let after = final(self).documents()[id];
                    &&& final(self).only_document(*old(self), id)
                    &&& after.sessions == before.sessions
                    &&& after.document == before.document
                    &&& after.document_handle == before.document_handle
                    &&& after.descriptor == before.descriptor
                    &&& after.route == before.route
                    &&& after.events == before.events
                    &&& after.work.next() == before.work.next()
                    &&& after.work.pending() == crate::runtime::work_queue::without_class(
                        before.work.pending(),
                        class,
                    )
                    &&& crate::runtime::work_queue::dropped_are_cancelled(
                        before.work.pending(),
                        after.work.pending(),
                    )
                } else {
                    final(self).unchanged(*old(self))
                },
                Command::Detach { id } => {
                    &&& old(self).documents().contains_key(id) ==> old(self).documents()[id].was_ended()
                    &&& final(self).documents() == old(self).documents().remove(id)
                    &&& final(self).rotation() == without(old(self).rotation(), id)
                },
                Command::Shutdown => final(self).unchanged(*old(self)),
            },
    {
        let ghost start = *self;
        let capacity: usize = self.policy.max_pending_per_document();
        match command {
            Command::Attach { id, route } => {
                if self.documents.contains_key(&id) {
                    return true;
                }
                let mut document = ManagedDocument::new(route);
                document.events.push(
                    SupervisorEvent::Attached { document: id, capabilities: self.capabilities },
                );
                assert(document.events@ =~= seq![
                    SupervisorEvent::<E, L>::Attached {
                        document: id,
                        capabilities: start.spec_capabilities(),
                    },
                ]);
                self.documents.insert(id, document);
                self.rotation.push(id);
                proof {
                    lemma_push_member(start.rotation@, id);
                    assert(self.documents() =~= start.documents().insert(
                        id,
                        self.documents()[id],
                    ));
                }
            },
            Command::Open { id, source, cancellation } => {
                if let Some(at) = self.documents.position(&id) {
                    let ghost entries = self.documents.entries@;
                    let slot = &mut self.documents.entries[at];
                    slot.1.cancel_and_clear(capacity);
                    slot.1.work.push_open(source, cancellation);
                    proof {
                        let after = self.documents.entries@[at as int].1;
                        lemma_changed(start, *self, id, at as int, after);
                        assert(after.work.pending().dom() =~= Set::<WorkKey>::empty().insert(
                            WorkKey::Open,
                        ));
                    }
                }
            },
            Command::Close { id } => {
                if let Some(at) = self.documents.position(&id) {
                    let generation = match self.documents.entries[at].1.sessions.current() {
                        Some(session) => Some(session.generation()),
                        None => None,
                    };
                    let slot = &mut self.documents.entries[at];
                    slot.1.cancel_and_clear(capacity);
                    slot.1.events.push(SupervisorEvent::Closed { document: id, generation });
                    proof {
                        let after = self.documents.entries@[at as int].1;
                        lemma_changed(start, *self, id, at as int, after);
                    }
                }
            },
            Command::Replace { id, class, work, cancellation } => {
                if let Some(at) = self.documents.position(&id) {
                    let slot = &mut self.documents.entries[at];
                    let (rejected, revoked) = slot.1.work.replace_class(
                        class,
                        work,
                        cancellation,
                        capacity,
                    );
                    if rejected > 0 {
                        slot.1.events.push(
                            SupervisorEvent::WorkRejected { document: id, class, rejected },
                        );
                    }
                    cancel_all(&revoked);
                    proof {
                        let after = self.documents.entries@[at as int].1;
                        lemma_changed(start, *self, id, at as int, after);
                        let before = start.documents()[id];
                        let steps = choose|steps: Seq<Map<WorkKey, PendingWork<S>>>|
                            {
                                &&& #[trigger] crate::runtime::work_queue::batch_steps(
                                    steps,
                                    work@,
                                    class,
                                    cancellation,
                                    before.work.next(),
                                    capacity,
                                )
                                &&& steps[0] == crate::runtime::work_queue::without_class(
                                    before.work.pending(),
                                    class,
                                )
                                &&& steps.last() == after.work.pending()
                                &&& rejected == crate::runtime::work_queue::overflows(
                                    steps,
                                    work@,
                                    class,
                                    capacity,
                                )
                                &&& crate::runtime::work_queue::covers_dropped(
                                    revoked@,
                                    before.work.pending(),
                                    steps[0],
                                )
                                &&& crate::runtime::work_queue::covers_batch(
                                    revoked@,
                                    steps,
                                    work@,
                                    class,
                                    cancellation,
                                )
                            };
                        crate::runtime::work_queue::lemma_dropped_are_cancelled(
                            revoked@,
                            before.work.pending(),
                            steps[0],
                        );
                        crate::runtime::work_queue::lemma_pushed_out_are_cancelled(
                            revoked@,
                            steps,
                            work@,
                            class,
                            cancellation,
                        );
                        lemma_overflows_bound(steps, work@, class, capacity);
                        assert(crate::runtime::work_queue::batch_steps(
                            steps,
                            work@,
                            class,
                            cancellation,
                            before.work.next(),
                            capacity,
                        ));
                    }
                }
            },
            Command::CancelClass { id, class } => {
                if let Some(at) = self.documents.position(&id) {
                    proof {
                        let before = start.documents()[id].work;
                        lemma_without_class_is_smaller(before.pending(), class);
                    }
                    let slot = &mut self.documents.entries[at];
                    let _ = slot.1.work.len();
                    let revoked = slot.1.work.drop_class(class);
                    cancel_all(&revoked);
                    proof {
                        let after = self.documents.entries@[at as int].1;
                        lemma_changed(start, *self, id, at as int, after);
                        crate::runtime::work_queue::lemma_dropped_are_cancelled(
                            revoked@,
                            start.documents()[id].work.pending(),
                            after.work.pending(),
                        );
                    }
                }
            },
            Command::Detach { id } => {
                self.forget(id);
            },
            Command::Shutdown => {
                return false;
            },
        }
        true
    }
}

/// `served` is the first in `before` that can take a turn at the priority, and
/// `after` is the order in which it and those in front of it went to the back.
pub open spec fn rotated(
    before: Seq<SupervisorDocumentId>,
    after: Seq<SupervisorDocumentId>,
    at: int,
) -> bool {
    0 <= at < before.len() && after == before.skip(at + 1) + before.take(at + 1)
}

/// What the owner did with its turn.
#[derive(Clone, Copy, Debug, PartialEq, Eq, Structural)]
pub enum Turn {
    /// It carried out work of a document.
    Worked(SupervisorDocumentId),
    /// No document could take a turn. `held_back` says whether some window has
    /// events to hear first.
    Idle { held_back: bool },
}

impl<D, S, E, L, R> EngineOwner<D, S, E, L, R> {
    /// The priority at which a document can take a turn.
    fn turn_priority(&self, id: SupervisorDocumentId) -> (priority: Option<DemandPriority>)
        requires
            self.wf(),
        ensures
            match priority {
                Some(priority) => self.ready_at(id, priority),
                None => !self.ready(id),
            },
    {
        match self.documents.get(&id) {
            Some(document) => {
                assert(self.documents().contains_key(id));
                if document.events.len() == 0 {
                    document.work.highest_pending_priority()
                } else {
                    None
                }
            },
            None => None,
        }
    }

    /// The highest priority at which some document can take a turn.
    fn highest_turn_priority(&self) -> (highest: Option<DemandPriority>)
        requires
            self.wf(),
        ensures
            match highest {
                Some(highest) => {
                    &&& exists|i: int|
                        0 <= i < self.rotation().len() && self.ready_at(
                            #[trigger] self.rotation()[i],
                            highest,
                        )
                    &&& forall|i: int, priority: DemandPriority|
                        0 <= i < self.rotation().len() && #[trigger] self.ready_at(
                            self.rotation()[i],
                            priority,
                        ) ==> priority.0 <= highest.0
                },
                None => forall|i: int|
                    0 <= i < self.rotation().len() ==> !self.ready(#[trigger] self.rotation()[i]),
            },
    {
        let mut highest: Option<DemandPriority> = None;
        let mut i: usize = 0;
        while i < self.rotation.len()
            invariant
                self.wf(),
                i <= self.rotation@.len(),
                match highest {
                    Some(highest) => {
                        &&& exists|j: int|
                            0 <= j < i && self.ready_at(#[trigger] self.rotation()[j], highest)
                        &&& forall|j: int, priority: DemandPriority|
                            0 <= j < i && #[trigger] self.ready_at(
                                self.rotation()[j],
                                priority,
                            ) ==> priority.0 <= highest.0
                    },
                    None => forall|j: int|
                        0 <= j < i ==> !self.ready(#[trigger] self.rotation()[j]),
                },
            decreases self.rotation@.len() - i,
        {
            let ghost before = highest;
            let found = self.turn_priority(self.rotation[i]);
            proof {
                let id = self.rotation()[i as int];
                assert forall|priority: DemandPriority| #[trigger]
                    self.ready_at(id, priority) implies found == Some(priority) by {
                    lemma_ready_at_means_ready(*self, id, priority);
                    if found is Some {
                        lemma_one_highest(self.documents()[id].work, priority, found->0);
                    }
                }
                if before is Some {
                    let j = choose|j: int|
                        0 <= j < i && self.ready_at(#[trigger] self.rotation()[j], before->0);
                    assert(self.ready_at(self.rotation()[j], before->0));
                } else {
                    assert forall|j: int, priority: DemandPriority|
                        0 <= j < i && #[trigger] self.ready_at(
                            self.rotation()[j],
                            priority,
                        ) implies false by {
                        lemma_ready_at_means_ready(*self, self.rotation()[j], priority);
                    }
                }
                if found is Some {
                    assert(self.ready_at(self.rotation()[i as int], found->0));
                }
            }
            match found {
                Some(priority) => {
                    highest =
                    match highest {
                        None => Some(priority),
                        Some(other) => if priority.0 > other.0 {
                            Some(priority)
                        } else {
                            Some(other)
                        },
                    };
                },
                None => {},
            }
            i += 1;
        }
        highest
    }

    /// The document at place `at` takes a turn with work of the highest
    /// priority there is, and goes to the back with those in front of it, none
    /// of which has work that urgent.
    pub open spec fn takes_turn(
        &self,
        rotation: Seq<SupervisorDocumentId>,
        id: SupervisorDocumentId,
        at: int,
        highest: DemandPriority,
    ) -> bool {
        &&& rotated(self.rotation(), rotation, at)
        &&& self.rotation()[at] == id
        &&& self.ready_at(id, highest)
        &&& forall|i: int| #![trigger self.rotation()[i]]
            0 <= i < at ==> !self.ready_at(self.rotation()[i], highest)
        &&& forall|other: SupervisorDocumentId, priority: DemandPriority| #[trigger]
            self.ready_at(other, priority) ==> priority.0 <= highest.0
    }

    /// The document takes a turn, and this is the order afterwards.
    pub open spec fn turn_goes_to(
        &self,
        rotation: Seq<SupervisorDocumentId>,
        id: SupervisorDocumentId,
    ) -> bool {
        exists|at: int, highest: DemandPriority| #[trigger]
            self.takes_turn(rotation, id, at, highest)
    }

    /// The place of the document that takes the next turn, and the priority of
    /// its work.
    fn find_turn(&self) -> (found: Option<(usize, DemandPriority)>)
        requires
            self.wf(),
        ensures
            match found {
                Some((at, highest)) => {
                    &&& at < self.rotation().len()
                    &&& self.ready_at(self.rotation()[at as int], highest)
                    &&& forall|i: int| #![trigger self.rotation()[i]]
                        0 <= i < at ==> !self.ready_at(self.rotation()[i], highest)
                    &&& forall|other: SupervisorDocumentId, priority: DemandPriority| #[trigger]
                        self.ready_at(other, priority) ==> priority.0 <= highest.0
                },
                None => forall|id: SupervisorDocumentId| !#[trigger] self.ready(id),
            },
    {
        let highest = match self.highest_turn_priority() {
            Some(highest) => highest,
            None => {
                proof {
                    assert forall|id: SupervisorDocumentId| !#[trigger] self.ready(id) by {
                        if self.ready(id) {
                            assert(self.rotation().contains(id));
                            let i = choose|i: int|
                                0 <= i < self.rotation().len() && self.rotation()[i] == id;
                            assert(!self.ready(self.rotation()[i]));
                        }
                    }
                }
                return None;
            },
        };
        proof {
            assert forall|other: SupervisorDocumentId, priority: DemandPriority| #[trigger]
                self.ready_at(other, priority) implies priority.0 <= highest.0 by {
                assert(self.rotation().contains(other));
                let k = choose|k: int|
                    0 <= k < self.rotation().len() && self.rotation()[k] == other;
                assert(self.ready_at(self.rotation()[k], priority));
            }
        }
        let mut at: usize = 0;
        while at < self.rotation.len()
            invariant
                self.wf(),
                at <= self.rotation().len(),
                exists|i: int|
                    0 <= i < self.rotation().len() && self.ready_at(
                        #[trigger] self.rotation()[i],
                        highest,
                    ),
                forall|other: SupervisorDocumentId, priority: DemandPriority| #[trigger]
                    self.ready_at(other, priority) ==> priority.0 <= highest.0,
                forall|i: int| #![trigger self.rotation()[i]]
                    0 <= i < at ==> !self.ready_at(self.rotation()[i], highest),
            decreases self.rotation().len() - at,
        {
            let id = self.rotation[at];
            let found = match self.turn_priority(id) {
                Some(priority) => priority == highest,
                None => false,
            };
            if found {
                return Some((at, highest));
            }
            proof {
                if self.ready_at(id, highest) {
                    lemma_ready_at_means_ready(*self, id, highest);
                    assert forall|priority: DemandPriority| #[trigger]
                        self.ready_at(id, priority) implies priority == highest by {
                        lemma_one_highest(self.documents()[id].work, priority, highest);
                    }
                }
            }
            at += 1;
        }
        assert(false);
        None
    }

    /// Sends the document at a place and those in front of it to the back.
    fn rotate_past(&mut self, at: usize)
        requires
            old(self).wf(),
            at < old(self).rotation().len(),
        ensures
            final(self).wf(),
            final(self).same_engine(*old(self)),
            final(self).documents() == old(self).documents(),
            rotated(old(self).rotation(), final(self).rotation(), at as int),
    {
        let ghost order = self.rotation@;
        let ghost start = *self;
        let mut rotation: Vec<SupervisorDocumentId> = Vec::new();
        assert(at < self.rotation.len());
        let mut i: usize = at + 1;
        while i < self.rotation.len()
            invariant
                order == self.rotation@,
                at < i <= order.len(),
                rotation@ == order.subrange(at + 1, i as int),
            decreases order.len() - i,
        {
            rotation.push(self.rotation[i]);
            i += 1;
            assert(rotation@ =~= order.subrange(at + 1, i as int));
        }
        assert(rotation@ =~= order.skip(at + 1));
        let mut j: usize = 0;
        while j <= at
            invariant
                order == self.rotation@,
                at < order.len(),
                at < usize::MAX,
                j <= at + 1,
                rotation@ == order.skip(at + 1) + order.take(j as int),
            decreases at + 1 - j,
        {
            rotation.push(self.rotation[j]);
            j += 1;
            assert(rotation@ =~= order.skip(at + 1) + order.take(j as int));
        }
        self.rotation = rotation;
        proof {
            lemma_rotation_keeps_members(order, at as int);
            assert forall|id: SupervisorDocumentId| #[trigger]
                self.rotation().contains(id) <==> self.documents().contains_key(id) by {
                assert(start.rotation().contains(id) <==> start.documents().contains_key(id));
            }
            assert forall|id: SupervisorDocumentId| #[trigger]
                self.documents().contains_key(id) implies self.documents()[id].wf(
                self.spec_policy().pending_bound(),
            ) by {
                assert(start.documents().contains_key(id));
            }
        }
    }

    /// Picks the document that takes the next turn: of those with the most
    /// urgent work, the one that has waited longest. It goes to the back.
    pub fn next_runnable(&mut self) -> (chosen: Option<SupervisorDocumentId>)
        requires
            old(self).wf(),
        ensures
            final(self).wf(),
            final(self).same_engine(*old(self)),
            final(self).documents() == old(self).documents(),
            match chosen {
                Some(id) => old(self).turn_goes_to(final(self).rotation(), id),
                None => {
                    &&& final(self).rotation() == old(self).rotation()
                    &&& forall|id: SupervisorDocumentId| !#[trigger] old(self).ready(id)
                },
            },
    {
        match self.find_turn() {
            Some((at, highest)) => {
                let id = self.rotation[at];
                self.rotate_past(at);
                proof {
                    assert(old(self).takes_turn(self.rotation(), id, at as int, highest));
                    assert(old(self).turn_goes_to(self.rotation(), id));
                }
                Some(id)
            },
            None => None,
        }
    }
}

impl<D, S, E, L, R: EventRoute<E, L>> EngineOwner<D, S, E, L, R> {
    /// Delivers what the windows can take, and forgets the documents of those
    /// that are gone.
    pub fn flush_pending_events(&mut self)
        requires
            old(self).wf(),
        ensures
            final(self).wf(),
            final(self).same_engine(*old(self)),
            forall|id: SupervisorDocumentId| #[trigger]
                final(self).documents().contains_key(id) ==> old(self).documents().contains_key(id)
                    && flushed(old(self).documents()[id], final(self).documents()[id]),
            forall|id: SupervisorDocumentId| #[trigger]
                old(self).documents().contains_key(id) && old(self).documents()[id].events@.len()
                    == 0 ==> final(self).documents().contains_key(id)
                    && final(self).documents()[id] == old(self).documents()[id],
            forall|id: SupervisorDocumentId| #[trigger]
                old(self).documents().contains_key(id) && !final(self).documents().contains_key(id)
                    ==> left_behind(old(self).documents()[id]),
            final(self).rotation() == among(old(self).rotation(), final(self).documents().dom()),
    {
        let ghost start = *self;
        let mut gone: Vec<SupervisorDocumentId> = Vec::new();
        let mut i: usize = 0;
        while i < self.documents.entries.len()
            invariant
                self.wf(),
                self.same_engine(start),
                self.rotation() == start.rotation(),
                i <= self.documents.entries@.len(),
                self.documents.entries@.len() == start.documents.entries@.len(),
                forall|j: int|
                    0 <= j < self.documents.entries@.len() ==> (
                    #[trigger] self.documents.entries@[j]).0 == start.documents.entries@[j].0,
                forall|j: int|
                    i <= j < self.documents.entries@.len() ==> #[trigger] self.documents.entries@[j]
                        == start.documents.entries@[j],
                forall|j: int|
                    0 <= j < i ==> gone@.contains((#[trigger] self.documents.entries@[j]).0)
                        || flushed(
                        start.documents.entries@[j].1,
                        self.documents.entries@[j].1,
                    ),
                forall|j: int|
                    0 <= j < i && (#[trigger] start.documents.entries@[j]).1.events@.len() == 0
                        ==> self.documents.entries@[j] == start.documents.entries@[j],
                forall|j: int|
                    0 <= j < i ==> (#[trigger] self.documents.entries@[j]).1.sessions
                        == start.documents.entries@[j].1.sessions
                        && self.documents.entries@[j].1.work == start.documents.entries@[j].1.work,
                forall|k: int|
                    0 <= k < gone@.len() ==> exists|j: int|
                        0 <= j < i && (#[trigger] start.documents.entries@[j]).0 == (
                        #[trigger] gone@[k]) && hung_up_on(start.documents.entries@[j].1),
                start.wf(),
            decreases self.documents.entries@.len() - i,
        {
            let ghost before = *self;
            let ghost flags = gone@;
            let id = self.documents.entries[i].0;
            proof {
                crate::keyed::lemma_entry(before.documents.entries@, i as int);
                assert(before.documents().contains_key(id));
            }
            let slot = &mut self.documents.entries[i];
            let connected = slot.1.flush_events();
            if !connected {
                gone.push(id);
            }
            proof {
                let after = self.documents.entries@[i as int].1;
                lemma_changed(before, *self, id, i as int, after);
                if !connected {
                    assert(gone@[flags.len() as int] == id);
                }
                assert forall|k: int| 0 <= k < gone@.len() implies exists|j: int|
                    0 <= j < i + 1 && (#[trigger] start.documents.entries@[j]).0 == (
                    #[trigger] gone@[k]) && hung_up_on(start.documents.entries@[j].1) by {
                    if k < flags.len() {
                        assert(gone@[k] == flags[k]);
                        let j = choose|j: int|
                            0 <= j < i && (#[trigger] start.documents.entries@[j]).0 == flags[k]
                                && hung_up_on(start.documents.entries@[j].1);
                        assert(start.documents.entries@[j].0 == gone@[k]);
                    } else {
                        assert(start.documents.entries@[i as int].0 == gone@[k]);
                    }
                }
                assert forall|j: int| 0 <= j < i + 1 implies gone@.contains(
                    (#[trigger] self.documents.entries@[j]).0,
                ) || flushed(start.documents.entries@[j].1, self.documents.entries@[j].1) by {
                    if j < i {
                        if flags.contains(before.documents.entries@[j].0) {
                            let k = choose|k: int|
                                0 <= k < flags.len() && flags[k]
                                    == before.documents.entries@[j].0;
                            assert(gone@[k] == flags[k]);
                        }
                    }
                }
            }
            i += 1;
        }
        let ghost middle = *self;
        proof {
            assert forall|i: int| 0 <= i < start.rotation().len() implies middle.documents().dom(

            ).contains(#[trigger] start.rotation()[i]) by {
                assert(middle.rotation().contains(start.rotation()[i]));
            }
            lemma_among_all(start.rotation(), middle.documents().dom());
        }
        let mut k: usize = 0;
        while k < gone.len()
            invariant
                self.wf(),
                self.same_engine(start),
                k <= gone@.len(),
                self.rotation() == among(start.rotation(), self.documents().dom()),
                forall|id: SupervisorDocumentId| #[trigger]
                    middle.documents().contains_key(id) && !gone@.contains(id)
                        ==> self.documents().contains_key(id),
                forall|id: SupervisorDocumentId| #[trigger]
                    self.documents().contains_key(id) ==> middle.documents().contains_key(id)
                        && self.documents()[id] == middle.documents()[id],
                forall|j: int|
                    0 <= j < k ==> !self.documents().contains_key(#[trigger] gone@[j]),
                forall|id: SupervisorDocumentId| #[trigger]
                    middle.documents().contains_key(id) && !self.documents().contains_key(id)
                        ==> middle.documents()[id].was_ended(),
            decreases gone@.len() - k,
        {
            proof {
                lemma_among_without(start.rotation(), self.documents().dom(), gone@[k as int]);
            }
            let ghost before = *self;
            self.forget(gone[k]);
            proof {
                assert(self.documents().dom() =~= before.documents().dom().remove(gone@[k as int]));
            }
            k += 1;
        }
        proof {
            assert forall|id: SupervisorDocumentId| #[trigger]
                start.documents().contains_key(id) && start.documents()[id].events@.len()
                    == 0 implies self.documents().contains_key(id) && self.documents()[id]
                == start.documents()[id] by {
                let j = choose|j: int|
                    crate::keyed::holds_at(start.documents.entries@, id, j);
                crate::keyed::lemma_entry(start.documents.entries@, j);
                crate::keyed::lemma_entry(middle.documents.entries@, j);
                assert(start.documents.entries@[j].1.events@.len() == 0);
                if gone@.contains(id) {
                    let k = choose|k: int| 0 <= k < gone@.len() && gone@[k] == id;
                    let m = choose|m: int|
                        0 <= m < start.documents.entries@.len() && (
                        #[trigger] start.documents.entries@[m]).0 == gone@[k]
                            && hung_up_on(start.documents.entries@[m].1);
                    crate::keyed::lemma_entry(start.documents.entries@, m);
                    assert(false);
                }
            }
            assert forall|id: SupervisorDocumentId| #[trigger]
                self.documents().contains_key(id) implies start.documents().contains_key(id)
                && flushed(start.documents()[id], self.documents()[id]) by {
                assert(middle.documents().contains_key(id));
                let j = choose|j: int|
                    crate::keyed::holds_at(middle.documents.entries@, id, j);
                crate::keyed::lemma_entry(middle.documents.entries@, j);
                crate::keyed::lemma_entry(start.documents.entries@, j);
                assert(!gone@.contains(id));
            }
            assert forall|id: SupervisorDocumentId| #[trigger]
                start.documents().contains_key(id) && !self.documents().contains_key(
                    id,
                ) implies left_behind(start.documents()[id]) by {
                let j = choose|j: int|
                    crate::keyed::holds_at(start.documents.entries@, id, j);
                crate::keyed::lemma_entry(start.documents.entries@, j);
                crate::keyed::lemma_entry(middle.documents.entries@, j);
                assert(middle.documents().contains_key(id));
                assert(gone@.contains(id));
                let k = choose|k: int| 0 <= k < gone@.len() && gone@[k] == id;
                let m = choose|m: int|
                    0 <= m < start.documents.entries@.len() && (
                    #[trigger] start.documents.entries@[m]).0 == gone@[k]
                        && hung_up_on(start.documents.entries@[m].1);
                crate::keyed::lemma_entry(start.documents.entries@, m);
            }
        }
    }

    /// Whether some window has events to hear.
    fn has_held_back_events(&self) -> (found: bool)
        requires
            self.wf(),
        ensures
            found == exists|id: SupervisorDocumentId| #[trigger]
                self.documents().contains_key(id) && self.documents()[id].events@.len() > 0,
    {
        let mut i: usize = 0;
        while i < self.documents.entries.len()
            invariant
                self.wf(),
                i <= self.documents.entries@.len(),
                forall|j: int|
                    0 <= j < i ==> (#[trigger] self.documents.entries@[j]).1.events@.len() == 0,
            decreases self.documents.entries@.len() - i,
        {
            if self.documents.entries[i].1.events.len() > 0 {
                proof {
                    crate::keyed::lemma_entry(self.documents.entries@, i as int);
                    assert(self.documents().contains_key(self.documents.entries@[i as int].0));
                }
                return true;
            }
            i += 1;
        }
        proof {
            assert forall|id: SupervisorDocumentId| #[trigger]
                self.documents().contains_key(id) implies self.documents()[id].events@.len()
                == 0 by {
                let j = choose|j: int| crate::keyed::holds_at(self.documents.entries@, id, j);
                crate::keyed::lemma_entry(self.documents.entries@, j);
            }
        }
        false
    }
}

/// Events were delivered, and nothing else happened to the document.
pub open spec fn flushed<D, S, E, L, R: EventRoute<E, L>>(
    before: ManagedDocument<D, S, E, L, R>,
    after: ManagedDocument<D, S, E, L, R>,
) -> bool {
    &&& after.sessions == before.sessions
    &&& after.document == before.document
    &&& after.document_handle == before.document_handle
    &&& after.descriptor == before.descriptor
    &&& after.work == before.work
    &&& exists|sent: int|
        0 <= sent <= before.events@.len()
            && #[trigger] crate::runtime::managed_document::remains(
            before.route->Some_0,
            after.route->Some_0,
            before.events@,
            after.events@,
            sent,
        )
}

/// The window of the document took some of its events, and was gone when it came
/// to the next.
pub open spec fn hung_up_on<D, S, E, L, R: EventRoute<E, L>>(
    document: ManagedDocument<D, S, E, L, R>,
) -> bool {
    crate::runtime::managed_document::hung_up(document.route->Some_0, document.events@)
}

/// The window of the document was found gone, and all that ran or waited for the
/// document was told to stop.
pub open spec fn left_behind<D, S, E, L, R: EventRoute<E, L>>(
    document: ManagedDocument<D, S, E, L, R>,
) -> bool {
    hung_up_on(document) && document.was_ended()
}

/// The windows were told what they could take, those that are gone were
/// forgotten, and nothing else happened.
pub open spec fn has_heard<D, S, E, L, R: EventRoute<E, L>>(
    before: EngineOwner<D, S, E, L, R>,
    after: EngineOwner<D, S, E, L, R>,
) -> bool {
    &&& after.same_engine(before)
    &&& forall|id: SupervisorDocumentId| #[trigger]
        after.documents().contains_key(id) ==> before.documents().contains_key(id) && flushed(
            before.documents()[id],
            after.documents()[id],
        )
    &&& forall|id: SupervisorDocumentId| #[trigger]
        before.documents().contains_key(id) && before.documents()[id].events@.len() == 0
            ==> after.documents().contains_key(id) && after.documents()[id]
            == before.documents()[id]
    &&& forall|id: SupervisorDocumentId| #[trigger]
        before.documents().contains_key(id) && !after.documents().contains_key(id) ==> left_behind(
            before.documents()[id],
        )
    &&& after.rotation() == among(before.rotation(), after.documents().dom())
}

/// The document whose turn it was did its most urgent work, which waited under this
/// key. There is one event, and no other document changed.
pub open spec fn worked<D, S, E, L, R>(
    before: EngineOwner<D, S, E, L, R>,
    after: EngineOwner<D, S, E, L, R>,
    id: SupervisorDocumentId,
    key: WorkKey,
) -> bool {
    let (first, last) = (before.documents()[id], after.documents()[id]);
    &&& before.turn_goes_to(after.rotation(), id)
    &&& after.documents().contains_key(id)
    &&& after.documents() == before.documents().insert(id, last)
    &&& crate::runtime::work_queue::goes_first(first.work.pending(), key)
    &&& last.work.pending() == first.work.pending().remove(key)
    &&& last.work.next() == first.work.next()
    &&& last.route == first.route
    &&& last.events@.len() == 1
}

/// To do the work that waits under a key the engine itself is asked: an opening, for
/// which a session can be started.
pub open spec fn asks_engine<D, S, E, L, R>(
    document: ManagedDocument<D, S, E, L, R>,
    key: WorkKey,
) -> bool {
    document.work.pending()[key].kind is Open && document.sessions.next() != 0
}

/// The document did the work that waited under a key, for which the engine itself is
/// not asked; the event says how it went.
pub open spec fn did<D: EngineDocument, S, R>(
    before: ManagedDocument<D, S, D::Error, D::Text, R>,
    after: ManagedDocument<D, S, D::Error, D::Text, R>,
    id: SupervisorDocumentId,
    key: WorkKey,
) -> bool {
    match before.work.pending()[key].kind {
        PendingKind::Open(_) => crate::runtime::managed_document::open_refused(before, after, id),
        PendingKind::Engine(work) => {
            &&& after.sessions == before.sessions
            &&& after.descriptor == before.descriptor
            &&& after.document_handle == before.document_handle
            &&& crate::runtime::managed_document::reports::<D>(
                before.sessions.active(),
                before.work.pending()[key].cancellation.flag(),
                before.document,
                after.document,
                before.descriptor,
                id,
                work,
                after.events@[0],
            )
        },
    }
}

impl<D: EngineDocument, S, R: EventRoute<D::Error, D::Text>> EngineOwner<
    D,
    S,
    D::Error,
    D::Text,
    R,
> {
    /// Takes one turn: delivers events, then carries out one piece of work of
    /// the document whose turn it is.
    pub fn turn<N>(&mut self, engine: &mut N) -> (turn: Turn) where
        N: PdfEngine<Source = S, Document = D, Error = D::Error, Text = D::Text>,

        requires
            old(self).wf(),
        ensures
            final(self).wf(),
            final(self).same_engine(*old(self)),
            turn matches Turn::Worked(id) ==> exists|heard: Self| #[trigger]
                has_heard(*old(self), heard) && exists|key: WorkKey|
                    {
                        let before = heard.documents()[id];
                        let after = final(self).documents()[id];
                        let pending = before.work.pending();
                        &&& #[trigger] crate::runtime::work_queue::goes_first(
                            heard.documents()[id].work.pending(),
                            key,
                        )
                        &&& worked(heard, *final(self), id, key)
                        &&& if asks_engine(before, key) {
                            exists|asked: &mut N| #[trigger]
                                crate::runtime::managed_document::stands_at(asked, *old(engine))
                                    && *final(asked) == *final(engine)
                                    && crate::runtime::managed_document::open_reported::<N, R>(
                                    before,
                                    after,
                                    id,
                                    asked,
                                    pending[key].kind->Open_0,
                                    pending[key].cancellation.flag(),
                                )
                        } else {
                            *final(engine) == *old(engine) && did(before, after, id, key)
                        }
                    },
            turn matches Turn::Idle { held_back } ==> {
                &&& *final(engine) == *old(engine)
                &&& has_heard(*old(self), *final(self))
                &&& forall|id: SupervisorDocumentId| !#[trigger] final(self).ready(id)
                &&& held_back == exists|id: SupervisorDocumentId| #[trigger]
                    final(self).documents().contains_key(id)
                        && final(self).documents()[id].events@.len() > 0
            },
    {
        self.flush_pending_events();
        let ghost flushed_owner = *self;
        assert(has_heard(*old(self), flushed_owner));
        match self.next_runnable() {
            None => {
                proof {
                    assert forall|id: SupervisorDocumentId| !#[trigger] self.ready(id) by {
                        assert(!flushed_owner.ready(id));
                    }
                    lemma_heard_unchanged(*old(self), flushed_owner, *self);
                }
                Turn::Idle { held_back: self.has_held_back_events() }
            },
            Some(id) => {
                let ghost chosen = *self;
                let capacity: usize = self.policy.max_pending_per_document();
                proof {
                    let (at, highest) = choose|at: int, highest: DemandPriority| #[trigger]
                        flushed_owner.takes_turn(chosen.rotation(), id, at, highest);
                    lemma_ready_at_means_ready(flushed_owner, id, highest);
                    assert(chosen.documents().contains_key(id));
                }
                if let Some(at) = self.documents.position(&id) {
                    let ghost first = self.documents.entries@[at as int].1;
                    proof {
                        crate::keyed::lemma_entry(self.documents.entries@, at as int);
                        assert(first == flushed_owner.documents()[id]);
                    }
                    let slot = &mut self.documents.entries[at];
                    let popped = slot.1.work.pop_next();
                    let ghost second = slot.1;
                    let ghost taken = popped;
                    if let Some(pending) = popped {
                        slot.1.process_work(engine, id, pending, capacity);
                    }
                    proof {
                        let after = self.documents.entries@[at as int].1;
                        lemma_changed(chosen, *self, id, at as int, after);
                        let key = choose|key: WorkKey| #[trigger]
                            crate::runtime::work_queue::goes_first(first.work.pending(), key)
                                && taken == Some(first.work.pending()[key])
                                && second.work.pending() == first.work.pending().remove(key);
                        assert(worked(flushed_owner, *self, id, key));
                        if asks_engine(first, key) {
                            let asked = choose|asked: &mut N| #[trigger]
                                crate::runtime::managed_document::stands_at(asked, *old(engine))
                                    && *final(asked) == *engine
                                    && crate::runtime::managed_document::open_reported::<N, R>(
                                    second,
                                    after,
                                    id,
                                    asked,
                                    first.work.pending()[key].kind->Open_0,
                                    first.work.pending()[key].cancellation.flag(),
                                );
                            assert(crate::runtime::managed_document::open_reported::<N, R>(
                                first,
                                after,
                                id,
                                asked,
                                first.work.pending()[key].kind->Open_0,
                                first.work.pending()[key].cancellation.flag(),
                            ));
                        } else {
                            assert(did(first, after, id, key));
                        }
                    }
                }
                Turn::Worked(id)
            },
        }
    }
}

proof fn lemma_heard_unchanged<D, S, E, L, R: EventRoute<E, L>>(
    before: EngineOwner<D, S, E, L, R>,
    heard: EngineOwner<D, S, E, L, R>,
    after: EngineOwner<D, S, E, L, R>,
)
    requires
        has_heard(before, heard),
        after.unchanged(heard),
    ensures
        has_heard(before, after),
{
    assert forall|id: SupervisorDocumentId| #[trigger]
        after.documents().contains_key(id) implies before.documents().contains_key(id) && flushed(
        before.documents()[id],
        after.documents()[id],
    ) by {
        assert(heard.documents().contains_key(id));
    }
}

proof fn lemma_ready_at_means_ready<D, S, E, L, R>(
    owner: EngineOwner<D, S, E, L, R>,
    id: SupervisorDocumentId,
    priority: DemandPriority,
)
    requires
        owner.ready_at(id, priority),
    ensures
        owner.ready(id),
{
    let pending = owner.documents()[id].work.pending();
    let key = choose|key: WorkKey| #[trigger]
        pending.contains_key(key) && pending[key].priority == priority;
    assert(pending.contains_key(key));
}

proof fn lemma_one_highest<S>(
    work: crate::runtime::work_queue::WorkQueue<S>,
    a: DemandPriority,
    b: DemandPriority,
)
    requires
        work.is_highest(a),
        work.is_highest(b),
    ensures
        a == b,
{
    let first = choose|key: WorkKey| #[trigger]
        work.pending().contains_key(key) && work.pending()[key].priority == a;
    let second = choose|key: WorkKey| #[trigger]
        work.pending().contains_key(key) && work.pending()[key].priority == b;
    assert(work.pending()[first].priority.0 <= b.0);
    assert(work.pending()[second].priority.0 <= a.0);
}

/// Taking a turn changes the order and not the members.
proof fn lemma_rotation_keeps_members(before: Seq<SupervisorDocumentId>, at: int)
    requires
        before.no_duplicates(),
        0 <= at < before.len(),
    ensures
        (before.skip(at + 1) + before.take(at + 1)).no_duplicates(),
        forall|id: SupervisorDocumentId| #[trigger]
            (before.skip(at + 1) + before.take(at + 1)).contains(id) <==> before.contains(id),
{
    let after = before.skip(at + 1) + before.take(at + 1);
    let tail = before.len() - at - 1;
    assert forall|i: int| 0 <= i < after.len() implies #[trigger] after[i] == before[if i < tail {
        i + at + 1
    } else {
        i - tail
    }] by {}
    assert forall|id: SupervisorDocumentId| #[trigger]
        after.contains(id) <==> before.contains(id) by {
        if after.contains(id) {
            let i = choose|i: int| 0 <= i < after.len() && after[i] == id;
            assert(before[if i < tail { i + at + 1 } else { i - tail }] == id);
        }
        if before.contains(id) {
            let i = choose|i: int| 0 <= i < before.len() && before[i] == id;
            assert(after[if i <= at { i + tail } else { i - at - 1 }] == id);
        }
    }
    assert forall|i: int, j: int|
        0 <= i < after.len() && 0 <= j < after.len() && i != j implies after[i] != after[j] by {
        let a = if i < tail { i + at + 1 } else { i - tail };
        let b = if j < tail { j + at + 1 } else { j - tail };
        assert(before[a] != before[b]);
    }
}

/// A document that took a turn is behind every other: each of the others that
/// can take a turn at the same priority comes before it does again.
pub proof fn law_the_served_document_goes_to_the_back(
    before: Seq<SupervisorDocumentId>,
    after: Seq<SupervisorDocumentId>,
    at: int,
    other: SupervisorDocumentId,
)
    requires
        before.no_duplicates(),
        rotated(before, after, at),
        before.contains(other),
        other != before[at],
    ensures
        after.last() == before[at],
        exists|i: int| 0 <= i < after.len() - 1 && after[i] == other,
{
    lemma_rotation_keeps_members(before, at);
    assert(after.last() == before[at]);
    assert(after.contains(other));
    let i = choose|i: int| 0 <= i < after.len() && after[i] == other;
    assert(i != after.len() - 1);
}

/// A document that could take the turn as well as the one that took it comes
/// nearer to its own with every turn, and so waits no longer than there are
/// documents in front of it.
pub proof fn law_waiting_documents_move_up<D, S, E, L, R>(
    owner: EngineOwner<D, S, E, L, R>,
    after: Seq<SupervisorDocumentId>,
    id: SupervisorDocumentId,
    at: int,
    highest: DemandPriority,
    place: int,
)
    requires
        owner.takes_turn(after, id, at, highest),
        0 <= place < owner.rotation().len(),
        owner.rotation()[place] != id,
        owner.ready_at(owner.rotation()[place], highest),
    ensures
        0 <= place - at - 1 < place,
        after[place - at - 1] == owner.rotation()[place],
{
    let before = owner.rotation();
    assert(before[at] == id);
    assert(place > at);
    assert(before.skip(at + 1)[place - at - 1] == before[place]);
}

proof fn lemma_push_member(rotation: Seq<SupervisorDocumentId>, id: SupervisorDocumentId)
    requires
        rotation.no_duplicates(),
        !rotation.contains(id),
    ensures
        rotation.push(id).no_duplicates(),
        forall|other: SupervisorDocumentId| #[trigger]
            rotation.push(id).contains(other) <==> rotation.contains(other) || other == id,
{
    let grown = rotation.push(id);
    assert(grown[rotation.len() as int] == id);
    assert forall|other: SupervisorDocumentId| #[trigger] grown.contains(other) <==> (
    rotation.contains(other) || other == id) by {
        if rotation.contains(other) {
            let i = choose|i: int| 0 <= i < rotation.len() && rotation[i] == other;
            assert(grown[i] == other);
        }
        if grown.contains(other) {
            let i = choose|i: int| 0 <= i < grown.len() && grown[i] == other;
            assert(i < rotation.len() ==> rotation[i] == other);
        }
    }
    assert forall|i: int, j: int|
        0 <= i < grown.len() && 0 <= j < grown.len() && i != j implies grown[i] != grown[j] by {
        if i < rotation.len() && j < rotation.len() {
            assert(rotation[i] != rotation[j]);
        } else if i < rotation.len() {
            assert(rotation.contains(rotation[i]));
        } else if j < rotation.len() {
            assert(rotation.contains(rotation[j]));
        }
    }
}

/// Changing one document in place changes the map at its identity.
proof fn lemma_changed<D, S, E, L, R>(
    before: EngineOwner<D, S, E, L, R>,
    after: EngineOwner<D, S, E, L, R>,
    id: SupervisorDocumentId,
    at: int,
    document: ManagedDocument<D, S, E, L, R>,
)
    requires
        before.wf(),
        0 <= at < before.documents.entries@.len(),
        before.documents.entries@[at].0 == id,
        after.documents.entries@ == before.documents.entries@.update(at, (id, document)),
        after.rotation == before.rotation,
        after.policy == before.policy,
        after.capabilities == before.capabilities,
    ensures
        after.only_document(before, id),
        after.documents()[id] == document,
        before.documents().contains_key(id),
        before.documents()[id] == before.documents.entries@[at].1,
        after.lists_wf(),
        document.wf(before.spec_policy().pending_bound()) ==> after.wf(),
{
    crate::keyed::lemma_entry(before.documents.entries@, at);
    crate::keyed::lemma_update(before.documents.entries@, at, document);
    assert(after.documents() == before.documents().insert(id, document));
    if document.wf(before.spec_policy().pending_bound()) {
        assert forall|other: SupervisorDocumentId| #[trigger]
            after.documents().contains_key(other) implies after.documents()[other].wf(
            after.spec_policy().pending_bound(),
        ) by {
            assert(other != id ==> before.documents().contains_key(other));
        }
        assert forall|other: SupervisorDocumentId| #[trigger]
            after.rotation().contains(other) <==> after.documents().contains_key(other) by {
            assert(before.rotation().contains(other) <==> before.documents().contains_key(other));
        }
    }
}

proof fn lemma_overflows_bound<S>(
    steps: Seq<Map<WorkKey, PendingWork<S>>>,
    work: Seq<crate::runtime::work_queue::Work>,
    class: crate::runtime::work_queue::WorkClass,
    capacity: usize,
)
    ensures
        0 <= crate::runtime::work_queue::overflows(steps, work, class, capacity) <= work.len(),
    decreases work.len(),
{
    if work.len() > 0 {
        lemma_overflows_bound(steps, work.drop_last(), class, capacity);
    }
}

proof fn lemma_without_class_is_smaller<S>(
    pending: Map<WorkKey, PendingWork<S>>,
    class: crate::runtime::work_queue::WorkClass,
)
    ensures
        pending.dom().finite() ==> crate::runtime::work_queue::without_class(
            pending,
            class,
        ).dom().len() <= pending.dom().len(),
{
    let kept = crate::runtime::work_queue::without_class(pending, class);
    if pending.dom().finite() {
        assert(kept.dom().subset_of(pending.dom()));
        vstd::set_lib::lemma_len_subset(kept.dom(), pending.dom());
    }
}

proof fn lemma_without_is_filter(rotation: Seq<SupervisorDocumentId>, id: SupervisorDocumentId)
    ensures
        without(rotation, id) == rotation.filter(|other: SupervisorDocumentId| other != id),
    decreases rotation.len(),
{
    reveal(Seq::filter);
    if rotation.len() > 0 {
        lemma_without_is_filter(rotation.drop_last(), id);
    }
}

proof fn lemma_among_is_filter(
    rotation: Seq<SupervisorDocumentId>,
    kept: Set<SupervisorDocumentId>,
)
    ensures
        among(rotation, kept) == rotation.filter(
            |other: SupervisorDocumentId| kept.contains(other),
        ),
    decreases rotation.len(),
{
    reveal(Seq::filter);
    if rotation.len() > 0 {
        lemma_among_is_filter(rotation.drop_last(), kept);
    }
}

/// When documents are forgotten the others take their turns in the order in which they
/// took them before.
pub proof fn law_forgetting_keeps_the_order(
    rotation: Seq<SupervisorDocumentId>,
    id: SupervisorDocumentId,
    kept: Set<SupervisorDocumentId>,
)
    ensures
        without(rotation, id) == rotation.filter(|other: SupervisorDocumentId| other != id),
        among(rotation, kept) == rotation.filter(
            |other: SupervisorDocumentId| kept.contains(other),
        ),
{
    lemma_without_is_filter(rotation, id);
    lemma_among_is_filter(rotation, kept);
}

/// The document that a command is for.
pub open spec fn addressed<S, R>(command: Command<S, R>) -> Option<SupervisorDocumentId> {
    match command {
        Command::Attach { id, .. } => Some(id),
        Command::Open { id, .. } => Some(id),
        Command::Close { id } => Some(id),
        Command::Replace { id, .. } => Some(id),
        Command::CancelClass { id, .. } => Some(id),
        Command::Detach { id } => Some(id),
        Command::Shutdown => None,
    }
}

/// A command changes no document but the one that it is for; the owner stops on a shutdown
/// alone. A document is there after its window attached and gone after it detached, and an
/// attached document is last to take its turn.
pub proof fn law_commands_stay_with_their_document<D, S, E, L, R>(
    before: EngineOwner<D, S, E, L, R>,
    command: Command<S, R>,
    other: SupervisorDocumentId,
)
    requires
        before.wf(),
        addressed(command) != Some(other),
    ensures
        forall|owner: &mut EngineOwner<D, S, E, L, R>, goes_on: bool| #[trigger]
            call_ensures(
                EngineOwner::<D, S, E, L, R>::accept_command,
                (owner, command),
                goes_on,
            ) && *owner == before ==> {
                let after = *final(owner);
                &&& goes_on <==> !(command is Shutdown)
                &&& after.documents().contains_key(other) == before.documents().contains_key(other)
                &&& before.documents().contains_key(other) ==> after.documents()[other]
                    == before.documents()[other]
                &&& command matches Command::Attach { id, route } ==> {
                    &&& after.documents().contains_key(id)
                    &&& before.documents().contains_key(id) ==> after.documents()[id]
                        == before.documents()[id] && after.rotation() == before.rotation()
                    &&& !before.documents().contains_key(id) ==> after.rotation()
                        == before.rotation().push(id)
                }
                &&& command matches Command::Detach { id } ==> !after.documents().contains_key(id)
                &&& !(command is Attach || command is Detach) ==> after.rotation()
                    == before.rotation()
            },
{
}

/// After a command to open or close it nothing of a document is left open, and its session
/// was told to stop. An opening is the only work that then waits, and as urgent as any. A
/// replaced or cancelled class leaves what is open and the work of other classes as it is.
pub proof fn law_commands_do_what_they_say<D, S, E, L, R>(
    before: EngineOwner<D, S, E, L, R>,
    command: Command<S, R>,
    id: SupervisorDocumentId,
    key: WorkKey,
)
    requires
        before.wf(),
        addressed(command) == Some(id),
        before.documents().contains_key(id),
    ensures
        forall|owner: &mut EngineOwner<D, S, E, L, R>, goes_on: bool| #[trigger]
            call_ensures(
                EngineOwner::<D, S, E, L, R>::accept_command,
                (owner, command),
                goes_on,
            ) && *owner == before ==> {
                let first = before.documents()[id];
                let last = final(owner).documents()[id];
                &&& command is Open || command is Close ==> {
                    &&& last.sessions.active() is None
                    &&& last.document is None
                    &&& last.descriptor is None
                    &&& last.document_handle is None
                    &&& first.sessions.active() matches Some(session)
                        ==> crate::runtime::cancellation::is_set(session.flag())
                }
                &&& command matches Command::Open { source, cancellation, .. } ==> {
                    &&& last.work.pending().contains_key(key) <==> key is Open
                    &&& key is Open ==> last.work.pending()[key].kind == PendingKind::Open(source)
                        && last.work.pending()[key].cancellation == cancellation
                        && last.work.pending()[key].priority.0 == u16::MAX
                }
                &&& command is Close ==> !last.work.pending().contains_key(key)
                    && last.events@.len() == first.events@.len() + 1 && last.events@.last() is Closed
                &&& command matches Command::Replace { class, .. } ==> {
                    &&& last.sessions == first.sessions
                    &&& last.document == first.document
                    &&& first.work.pending().contains_key(key) && first.work.pending()[key].class
                        != Some(class) ==> last.work.pending().contains_key(key)
                        && last.work.pending()[key] == first.work.pending()[key]
                }
                &&& command matches Command::CancelClass { class, .. } ==> {
                    &&& last.sessions == first.sessions
                    &&& last.document == first.document
                    &&& last.events == first.events
                    &&& last.work.pending().contains_key(key) <==> first.work.pending().contains_key(
                        key,
                    ) && first.work.pending()[key].class != Some(class)
                    &&& first.work.pending().contains_key(key) && first.work.pending()[key].class
                        == Some(class) ==> crate::runtime::cancellation::is_set(
                        first.work.pending()[key].cancellation.flag(),
                    )
                }
            },
{
}

proof fn lemma_highest_exists<S>(work: crate::runtime::work_queue::WorkQueue<S>, bound: int)
    requires
        exists|key: WorkKey| #[trigger] work.pending().contains_key(key),
        forall|key: WorkKey| #[trigger]
            work.pending().contains_key(key) ==> work.pending()[key].priority.0 <= bound,
        0 <= bound <= u16::MAX,
    ensures
        exists|priority: DemandPriority| #[trigger] work.is_highest(priority),
    decreases bound,
{
    let priority = DemandPriority(bound as u16);
    if exists|key: WorkKey| #[trigger]
        work.pending().contains_key(key) && work.pending()[key].priority == priority {
        assert(work.is_highest(priority));
    } else {
        assert forall|key: WorkKey| #[trigger]
            work.pending().contains_key(key) implies work.pending()[key].priority.0 <= bound - 1 by {
            assert(work.pending()[key].priority.0 != bound);
        }
        if bound == 0 {
            let key = choose|key: WorkKey| #[trigger] work.pending().contains_key(key);
            assert(work.pending()[key].priority.0 <= -1);
        }
        lemma_highest_exists(work, bound - 1);
    }
}

/// No document takes a turn before one whose window has heard everything and that has more
/// urgent work: what the served document does is as urgent as anything that any such
/// document has waiting.
pub proof fn law_the_most_urgent_document_is_served<D, S, E, L, R>(
    owner: EngineOwner<D, S, E, L, R>,
    rotation: Seq<SupervisorDocumentId>,
    id: SupervisorDocumentId,
    own: WorkKey,
    other: SupervisorDocumentId,
    key: WorkKey,
)
    requires
        owner.turn_goes_to(rotation, id),
        crate::runtime::work_queue::goes_first(owner.documents()[id].work.pending(), own),
        owner.documents().contains_key(other),
        owner.documents()[other].events@.len() == 0,
        owner.documents()[other].work.pending().contains_key(key),
    ensures
        owner.documents().contains_key(id),
        owner.documents()[id].events@.len() == 0,
        owner.documents()[other].work.pending()[key].priority.0
            <= owner.documents()[id].work.pending()[own].priority.0,
{
    let (at, highest) = choose|at: int, highest: DemandPriority| #[trigger]
        owner.takes_turn(rotation, id, at, highest);
    let work = owner.documents()[other].work;
    lemma_highest_exists(work, u16::MAX as int);
    let most = choose|priority: DemandPriority| #[trigger] work.is_highest(priority);
    assert(owner.ready_at(other, most));
    let mine = owner.documents()[id].work;
    let top = choose|k: WorkKey| #[trigger]
        mine.pending().contains_key(k) && mine.pending()[k].priority == highest;
    assert(crate::runtime::work_queue::no_more_urgent(mine.pending()[top], mine.pending()[own]));
}

/// A document can take a turn if and only if something waits for it and its window has
/// heard everything.
pub proof fn law_documents_with_work_can_take_a_turn<D, S, E, L, R>(
    owner: EngineOwner<D, S, E, L, R>,
    id: SupervisorDocumentId,
)
    requires
        owner.documents().contains_key(id),
    ensures
        owner.ready(id) <==> owner.documents()[id].events@.len() == 0 && exists|key: WorkKey|
            #[trigger] owner.documents()[id].work.pending().contains_key(key),
{
    let pending = owner.documents()[id].work.pending();
    if !exists|key: WorkKey| #[trigger] pending.contains_key(key) {
        assert(pending =~= Map::<WorkKey, PendingWork<S>>::empty());
    }
}

} // verus!

//! What windows ask of the owner of an engine, and what they hear back.

use crate::keyed::{KeyedList, ListKey};
use crate::runtime::cancellation::{cancel_all, CancellationSource};
use crate::runtime::demand::{PreviewDemand, RenderDemand, TextDemand};
use crate::runtime::engine::{
    DocumentDescriptor, DocumentResource, EngineCapabilities, PreviewEvent, RenderEvent,
    RuntimeFailure, TextEvent,
};
use crate::runtime::session::{take_number, DocumentGeneration, DocumentSession, ResourceHandle};
use crate::runtime::work_queue::{Work, WorkClass};
use std::sync::atomic::AtomicU64;
use vstd::prelude::*;

verus! {

/// Identity of one document at the supervisor; never zero.
#[derive(Clone, Copy, Debug, PartialEq, Eq, PartialOrd, Ord, Hash, Structural)]
pub struct SupervisorDocumentId(pub u64);

impl View for SupervisorDocumentId {
    type V = SupervisorDocumentId;

    open spec fn view(&self) -> SupervisorDocumentId {
        *self
    }
}

impl ListKey for SupervisorDocumentId {
    fn same_key(&self, other: &Self) -> (same: bool) {
        *self == *other
    }

    fn copy_key(&self) -> (copy: Self) {
        *self
    }
}

impl SupervisorDocumentId {
    /// The numeric identity.
    pub fn get(self) -> (value: u64)
        ensures
            value == self.0,
    {
        self.0
    }

    /// The identity for a number that a counter gave out.
    pub open spec fn of_number(taken: Option<u64>) -> Result<
        SupervisorDocumentId,
        SupervisorSendError,
    > {
        match taken {
            Some(value) => if value == 0 {
                Err(SupervisorSendError::DocumentIdsExhausted)
            } else {
                Ok(SupervisorDocumentId(value))
            },
            None => Err(SupervisorSendError::DocumentIdsExhausted),
        }
    }

    /// The identity for a number that a counter gave out.
    pub fn from_number(taken: Option<u64>) -> (id: Result<
        SupervisorDocumentId,
        SupervisorSendError,
    >)
        ensures
            id == SupervisorDocumentId::of_number(taken),
    {
        match taken {
            Some(value) => if value == 0 {
                Err(SupervisorSendError::DocumentIdsExhausted)
            } else {
                Ok(SupervisorDocumentId(value))
            },
            None => Err(SupervisorSendError::DocumentIdsExhausted),
        }
    }
}

/// Gives out identities of documents.
#[derive(Debug)]
pub struct SupervisorIds {
    next_document: AtomicU64,
}

impl SupervisorIds {
    /// The counter was made to start at one.
    pub closed spec fn counts_from_one(&self) -> bool {
        call_ensures(AtomicU64::new, (1,), self.next_document)
    }

    /// The counter gave out this.
    pub closed spec fn drew(&self, taken: Option<u64>) -> bool {
        call_ensures(take_number, (&self.next_document,), taken)
    }

    /// Counts from one.
    pub fn new() -> (ids: SupervisorIds)
        ensures
            ids.counts_from_one(),
    {
        SupervisorIds { next_document: AtomicU64::new(1) }
    }

    /// The next document. Which number comes depends on who asked before.
    pub fn attach(&self) -> (id: Result<SupervisorDocumentId, SupervisorSendError>)
        ensures
            exists|taken: Option<u64>| #[trigger]
                self.drew(taken) && id == SupervisorDocumentId::of_number(taken),
            id matches Ok(id) ==> 0 < id.0 < u64::MAX,
    {
        let taken = take_number(&self.next_document);
        assert(self.drew(taken));
        SupervisorDocumentId::from_number(taken)
    }
}

/// How much may wait for one document.
#[derive(Clone, Copy, Debug, PartialEq, Eq, Structural)]
pub struct SupervisorPolicy {
    max_pending_per_document: usize,
    event_channel_capacity: usize,
}

/// Why a policy was refused.
#[derive(Clone, Copy, Debug, PartialEq, Eq, Structural)]
pub enum SupervisorPolicyError {
    EmptyWorkQueue,
    EmptyEventChannel,
}

impl SupervisorPolicyError {
    /// The words of [`message`](Self::message).
    pub open spec fn message_text(self) -> Seq<char> {
        match self {
            SupervisorPolicyError::EmptyWorkQueue =>
                "supervisor work queue capacity must be non-zero"@,
            SupervisorPolicyError::EmptyEventChannel =>
                "supervisor event channel capacity must be non-zero"@,
        }
    }

    /// The error in words.
    pub fn message(self) -> (text: &'static str)
        ensures
            text@ == self.message_text(),
    {
        match self {
            SupervisorPolicyError::EmptyWorkQueue =>
                "supervisor work queue capacity must be non-zero",
            SupervisorPolicyError::EmptyEventChannel =>
                "supervisor event channel capacity must be non-zero",
        }
    }
}

impl SupervisorPolicy {
    /// The pieces of work that may wait.
    pub closed spec fn pending_bound(self) -> usize {
        self.max_pending_per_document
    }

    /// The events that may wait.
    pub closed spec fn event_bound(self) -> usize {
        self.event_channel_capacity
    }

    /// Something may wait.
    pub open spec fn wf(self) -> bool {
        self.pending_bound() > 0 && self.event_bound() > 0
    }

    /// Checks the bounds: work, then events.
    pub fn new(max_pending_per_document: usize, event_channel_capacity: usize) -> (policy: Result<
        SupervisorPolicy,
        SupervisorPolicyError,
    >)
        ensures
            if max_pending_per_document == 0 {
                policy == Err::<SupervisorPolicy, SupervisorPolicyError>(
                    SupervisorPolicyError::EmptyWorkQueue,
                )
            } else if event_channel_capacity == 0 {
                policy == Err::<SupervisorPolicy, SupervisorPolicyError>(
                    SupervisorPolicyError::EmptyEventChannel,
                )
            } else {
                policy matches Ok(policy) && policy.wf() && policy.pending_bound()
                    == max_pending_per_document && policy.event_bound() == event_channel_capacity
            },
    {
        if max_pending_per_document == 0 {
            return Err(SupervisorPolicyError::EmptyWorkQueue);
        }
        if event_channel_capacity == 0 {
            return Err(SupervisorPolicyError::EmptyEventChannel);
        }
        Ok(SupervisorPolicy { max_pending_per_document, event_channel_capacity })
    }

    /// The pieces of work that may wait.
    pub fn max_pending_per_document(self) -> (bound: usize)
        ensures
            bound == self.pending_bound(),
    {
        self.max_pending_per_document
    }

    /// The events that may wait.
    pub fn event_channel_capacity(self) -> (bound: usize)
        ensures
            bound == self.event_bound(),
    {
        self.event_channel_capacity
    }
}

impl Default for SupervisorPolicy {
    /// One event at a time: a raster can be several megabytes, and a window
    /// that does not read must not pile them up.
    fn default() -> (policy: SupervisorPolicy)
        ensures
            policy.wf(),
            policy.pending_bound() == 4_096,
            policy.event_bound() == 1,
    {
        SupervisorPolicy { max_pending_per_document: 4_096, event_channel_capacity: 1 }
    }
}

/// Why a request could not be sent.
#[derive(Clone, Copy, Debug, PartialEq, Eq, Structural)]
pub enum SupervisorSendError {
    Disconnected,
    DocumentIdsExhausted,
    InvalidWorkClass,
}

impl SupervisorSendError {
    /// The words of [`message`](Self::message).
    pub open spec fn message_text(self) -> Seq<char> {
        match self {
            SupervisorSendError::Disconnected => "PDF engine supervisor is disconnected"@,
            SupervisorSendError::DocumentIdsExhausted => "PDF document IDs are exhausted"@,
            SupervisorSendError::InvalidWorkClass =>
                "the selected work class does not accept text demands"@,
        }
    }

    /// The error in words.
    pub fn message(self) -> (text: &'static str)
        ensures
            text@ == self.message_text(),
    {
        match self {
            SupervisorSendError::Disconnected => "PDF engine supervisor is disconnected",
            SupervisorSendError::DocumentIdsExhausted => "PDF document IDs are exhausted",
            SupervisorSendError::InvalidWorkClass =>
                "the selected work class does not accept text demands",
        }
    }
}

/// What a window hears.
#[derive(Debug)]
pub enum SupervisorEvent<E, L> {
    Attached { document: SupervisorDocumentId, capabilities: EngineCapabilities },
    Opened {
        document: SupervisorDocumentId,
        session: DocumentSession,
        resource: ResourceHandle<DocumentResource>,
        descriptor: DocumentDescriptor,
    },
    OpenCancelled { document: SupervisorDocumentId, generation: DocumentGeneration },
    OpenFailed {
        document: SupervisorDocumentId,
        generation: Option<DocumentGeneration>,
        error: RuntimeFailure<E>,
    },
    Closed { document: SupervisorDocumentId, generation: Option<DocumentGeneration> },
    Rendered { document: SupervisorDocumentId, event: RenderEvent<E> },
    TextExtracted { document: SupervisorDocumentId, event: TextEvent<E, L> },
    PreviewRendered { document: SupervisorDocumentId, event: PreviewEvent<E> },
    WorkRejected { document: SupervisorDocumentId, class: WorkClass, rejected: usize },
}

/// Why an event was not delivered.
#[derive(Debug)]
pub enum SupervisorRouteError<E, L> {
    /// The window has not read what it was sent; here is the event back.
    Full(SupervisorEvent<E, L>),
    /// The window is gone.
    Disconnected,
}

/// Delivers events to one window without waiting for it.
pub trait EventRoute<E, L> {
    /// Delivers an event, or hands it back.
    fn route(&mut self, event: SupervisorEvent<E, L>) -> (delivered: Result<
        (),
        SupervisorRouteError<E, L>,
    >);
}

/// What a window asks of the owner.
#[derive(Debug)]
pub enum Command<S, R> {
    Attach { id: SupervisorDocumentId, route: R },
    Open { id: SupervisorDocumentId, source: S, cancellation: CancellationSource },
    Close { id: SupervisorDocumentId },
    Replace {
        id: SupervisorDocumentId,
        class: WorkClass,
        work: Vec<Work>,
        cancellation: CancellationSource,
    },
    CancelClass { id: SupervisorDocumentId, class: WorkClass },
    Detach { id: SupervisorDocumentId },
    Shutdown,
}

/// The flags of the work that a window has under way.
#[derive(Debug)]
pub struct ClientCancellations {
    open: Option<CancellationSource>,
    classes: KeyedList<WorkClass, CancellationSource>,
}

impl ClientCancellations {
    /// The flag of the opening.
    pub closed spec fn opening(&self) -> Option<CancellationSource> {
        self.open
    }

    /// The flags of the batches.
    pub closed spec fn batches(&self) -> Map<WorkClass, CancellationSource> {
        self.classes@
    }

    /// No class has two flags.
    pub closed spec fn wf(&self) -> bool {
        self.classes.wf()
    }

    /// The flag of the opening and those of all batches were set.
    pub open spec fn were_set(&self) -> bool {
        &&& self.opening() matches Some(open) ==> crate::runtime::cancellation::is_set(open.flag())
        &&& forall|class: WorkClass| #[trigger]
            self.batches().contains_key(class) ==> crate::runtime::cancellation::is_set(
                self.batches()[class].flag(),
            )
    }

    /// The flag of a class was set, if it had one.
    pub open spec fn was_set(&self, class: WorkClass) -> bool {
        self.batches().contains_key(class) ==> crate::runtime::cancellation::is_set(
            self.batches()[class].flag(),
        )
    }

    /// Nothing under way.
    pub fn new() -> (cancellations: Self)
        ensures
            cancellations.wf(),
            cancellations.opening() is None,
            cancellations.batches() == Map::<WorkClass, CancellationSource>::empty(),
    {
        ClientCancellations { open: None, classes: KeyedList::new() }
    }

    /// Forgets every flag and hands them back to be set.
    pub fn take_all(&mut self) -> (revoked: Vec<CancellationSource>)
        requires
            old(self).wf(),
        ensures
            final(self).wf(),
            final(self).opening() is None,
            final(self).batches() == Map::<WorkClass, CancellationSource>::empty(),
            old(self).opening() matches Some(open) ==> revoked@.contains(open),
            forall|class: WorkClass| #[trigger]
                old(self).batches().contains_key(class) ==> revoked@.contains(
                    old(self).batches()[class],
                ),
    {
        let mut revoked: Vec<CancellationSource> = Vec::new();
        let ghost entries = self.classes.entries@;
        let mut i: usize = 0;
        while i < self.classes.entries.len()
            invariant
                i <= self.classes.entries@.len(),
                self.classes.entries@ == entries,
                self.open == old(self).open,
                revoked@.len() == i,
                forall|j: int| 0 <= j < i ==> #[trigger] revoked@[j] == entries[j].1,
            decreases self.classes.entries@.len() - i,
        {
            revoked.push(self.classes.entries[i].1.clone());
            i += 1;
        }
        let ghost flags = revoked@;
        if let Some(open) = self.open.take() {
            revoked.push(open);
            assert(revoked@[flags.len() as int] == open);
        }
        self.classes.clear();
        proof {
            assert forall|class: WorkClass| #[trigger]
                old(self).batches().contains_key(class) implies revoked@.contains(
                old(self).batches()[class],
            ) by {
                let j = choose|j: int| crate::keyed::holds_at(entries, class, j);
                crate::keyed::lemma_entry(entries, j);
                assert(flags[j] == entries[j].1);
                assert(revoked@[j] == flags[j]);
            }
        }
        revoked
    }

    /// Sets and forgets every flag.
    pub fn cancel_all(&mut self)
        requires
            old(self).wf(),
        ensures
            final(self).wf(),
            final(self).opening() is None,
            final(self).batches() == Map::<WorkClass, CancellationSource>::empty(),
            old(self).were_set(),
    {
        let ghost start = *self;
        let revoked = self.take_all();
        cancel_all(&revoked);
        proof {
            if let Some(open) = start.opening() {
                let i = choose|i: int| 0 <= i < revoked@.len() && revoked@[i] == open;
                assert(crate::runtime::cancellation::is_set(revoked@[i].flag()));
            }
            assert forall|class: WorkClass| #[trigger]
                start.batches().contains_key(class) implies crate::runtime::cancellation::is_set(
                start.batches()[class].flag(),
            ) by {
                assert(revoked@.contains(start.batches()[class]));
                let i = choose|i: int|
                    0 <= i < revoked@.len() && revoked@[i] == start.batches()[class];
                assert(crate::runtime::cancellation::is_set(revoked@[i].flag()));
            }
        }
    }

    /// Sets and forgets every flag and makes one for a new opening.
    pub fn replace_open(&mut self) -> (cancellation: CancellationSource)
        requires
            old(self).wf(),
        ensures
            final(self).wf(),
            final(self).opening() == Some(cancellation),
            final(self).batches() == Map::<WorkClass, CancellationSource>::empty(),
            crate::runtime::cancellation::made_unset(cancellation.flag()),
            old(self).were_set(),
    {
        self.cancel_all();
        let cancellation = CancellationSource::new();
        self.open = Some(cancellation.clone());
        cancellation
    }

    /// Sets the flag of a class and makes one for its new batch.
    pub fn replace_class(&mut self, class: WorkClass) -> (cancellation: CancellationSource)
        requires
            old(self).wf(),
        ensures
            final(self).wf(),
            final(self).opening() == old(self).opening(),
            final(self).batches() == old(self).batches().insert(class, cancellation),
            crate::runtime::cancellation::made_unset(cancellation.flag()),
            old(self).was_set(class),
    {
        let cancellation = CancellationSource::new();
        if let Some(previous) = self.classes.insert(class, cancellation.clone()) {
            let _ = previous.cancel();
        }
        cancellation
    }

    /// Sets and forgets the flag of a class.
    pub fn cancel_class(&mut self, class: WorkClass)
        requires
            old(self).wf(),
        ensures
            final(self).wf(),
            final(self).opening() == old(self).opening(),
            final(self).batches() == old(self).batches().remove(class),
            old(self).was_set(class),
    {
        if let Some(previous) = self.classes.remove(&class) {
            let _ = previous.cancel();
        }
    }
}

/// One window's side of the supervisor: it keeps the flags of what is under
/// way and makes the commands for the owner.
#[derive(Debug)]
pub struct DocumentClient {
    id: SupervisorDocumentId,
    cancellations: ClientCancellations,
}

/// The work of a batch of tiles.
pub open spec fn render_work(demands: Seq<RenderDemand>) -> Seq<Work> {
    demands.map_values(|demand: RenderDemand| Work::Render(demand))
}

/// The work of a batch of pages.
pub open spec fn text_work(demands: Seq<TextDemand>) -> Seq<Work> {
    demands.map_values(|demand: TextDemand| Work::Text(demand))
}

impl DocumentClient {
    /// The document's identity.
    pub closed spec fn spec_id(&self) -> SupervisorDocumentId {
        self.id
    }

    /// The flags of what is under way.
    pub closed spec fn flags(&self) -> ClientCancellations {
        self.cancellations
    }

    /// The client of a document.
    pub fn new(id: SupervisorDocumentId) -> (client: DocumentClient)
        ensures
            client.spec_id() == id,
            client.flags().wf(),
            client.flags().opening() is None,
            client.flags().batches() == Map::<WorkClass, CancellationSource>::empty(),
    {
        DocumentClient { id, cancellations: ClientCancellations::new() }
    }

    /// The document's identity.
    pub fn id(&self) -> (id: SupervisorDocumentId)
        ensures
            id == self.spec_id(),
    {
        self.id
    }

    /// Asks for a document to be opened. Everything under way is cancelled.
    pub fn open<S, R>(&mut self, source: S) -> (command: Command<S, R>)
        requires
            old(self).flags().wf(),
        ensures
            final(self).spec_id() == old(self).spec_id(),
            final(self).flags().wf(),
            final(self).flags().batches() == Map::<WorkClass, CancellationSource>::empty(),
            command matches Command::Open { id, source: asked, cancellation } && id == old(self).spec_id() && asked == source && final(self).flags().opening() == Some(cancellation)
                && crate::runtime::cancellation::made_unset(cancellation.flag()),
            old(self).flags().were_set(),
    {
        let cancellation = self.cancellations.replace_open();
        Command::Open { id: self.id, source, cancellation }
    }

    /// Asks for the document to be closed. Everything under way is cancelled.
    pub fn close<S, R>(&mut self) -> (command: Command<S, R>)
        requires
            old(self).flags().wf(),
        ensures
            final(self).spec_id() == old(self).spec_id(),
            final(self).flags().wf(),
            final(self).flags().opening() is None,
            final(self).flags().batches() == Map::<WorkClass, CancellationSource>::empty(),
            command == (Command::<S, R>::Close { id: old(self).spec_id() }),
            old(self).flags().were_set(),
    {
        self.cancellations.cancel_all();
        Command::Close { id: self.id }
    }

    fn replace<S, R>(&mut self, class: WorkClass, work: Vec<Work>) -> (command: Command<S, R>)
        requires
            old(self).flags().wf(),
        ensures
            final(self).spec_id() == old(self).spec_id(),
            final(self).flags().wf(),
            final(self).flags().opening() == old(self).flags().opening(),
            command matches Command::Replace { id, class: asked, work: batch, cancellation } && id
                == old(self).spec_id() && asked == class && batch == work && final(self).flags().batches() == old(self).flags().batches().insert(class, cancellation)
                && crate::runtime::cancellation::made_unset(cancellation.flag()),
            old(self).flags().was_set(class),
    {
        let cancellation = self.cancellations.replace_class(class);
        Command::Replace { id: self.id, class, work, cancellation }
    }

    /// Asks for these tiles in place of those asked for before.
    pub fn replace_render_viewport<S, R>(&mut self, demands: Vec<RenderDemand>) -> (command:
        Command<S, R>)
        requires
            old(self).flags().wf(),
        ensures
            final(self).spec_id() == old(self).spec_id(),
            final(self).flags().wf(),
            final(self).flags().opening() == old(self).flags().opening(),
            command matches Command::Replace { id, class, work, cancellation } && id == old(self).spec_id() && class == WorkClass::RenderViewport && work@ == render_work(demands@)
                && final(self).flags().batches() == old(self).flags().batches().insert(
                class,
                cancellation,
            ) && crate::runtime::cancellation::made_unset(cancellation.flag()),
            old(self).flags().was_set(WorkClass::RenderViewport),
    {
        let mut work: Vec<Work> = Vec::new();
        let mut i: usize = 0;
        while i < demands.len()
            invariant
                i <= demands@.len(),
                work@ == render_work(demands@.take(i as int)),
            decreases demands@.len() - i,
        {
            work.push(Work::Render(demands[i]));
            i += 1;
            assert(work@ =~= render_work(demands@.take(i as int)));
        }
        assert(demands@.take(demands@.len() as int) =~= demands@);
        self.replace(WorkClass::RenderViewport, work)
    }

    /// Asks for this preview in place of the one asked for before.
    pub fn replace_preview<S, R>(&mut self, demand: Option<PreviewDemand>) -> (command: Command<
        S,
        R,
    >)
        requires
            old(self).flags().wf(),
        ensures
            final(self).spec_id() == old(self).spec_id(),
            final(self).flags().wf(),
            final(self).flags().opening() == old(self).flags().opening(),
            command matches Command::Replace { id, class, work, cancellation } && id == old(self).spec_id() && class == WorkClass::Preview && work@ == (match demand {
                Some(demand) => seq![Work::Preview(demand)],
                None => Seq::empty(),
            }) && final(self).flags().batches() == old(self).flags().batches().insert(
                class,
                cancellation,
            ) && crate::runtime::cancellation::made_unset(cancellation.flag()),
            old(self).flags().was_set(WorkClass::Preview),
    {
        let mut work: Vec<Work> = Vec::new();
        if let Some(demand) = demand {
            work.push(Work::Preview(demand));
        }
        self.replace(WorkClass::Preview, work)
    }

    /// Asks for the text of these pages in place of those asked for before in
    /// the class. Classes for rasters are refused, and nothing is cancelled.
    pub fn replace_text<S, R>(&mut self, class: WorkClass, demands: Vec<TextDemand>) -> (command:
        Result<Command<S, R>, SupervisorSendError>)
        requires
            old(self).flags().wf(),
        ensures
            final(self).spec_id() == old(self).spec_id(),
            final(self).flags().wf(),
            final(self).flags().opening() == old(self).flags().opening(),
            if class.takes_text() {
                command matches Ok(Command::Replace { id, class: asked, work, cancellation }) && id
                    == old(self).spec_id() && asked == class && work@ == text_work(demands@)
                    && final(self).flags().batches() == old(self).flags().batches().insert(
                    class,
                    cancellation,
                ) && crate::runtime::cancellation::made_unset(cancellation.flag())
                    && old(self).flags().was_set(class)
            } else {
                &&& command == Err::<Command<S, R>, SupervisorSendError>(
                    SupervisorSendError::InvalidWorkClass,
                )
                &&& *final(self) == *old(self)
            },
    {
        if !class.accepts_text() {
            return Err(SupervisorSendError::InvalidWorkClass);
        }
        let mut work: Vec<Work> = Vec::new();
        let mut i: usize = 0;
        while i < demands.len()
            invariant
                i <= demands@.len(),
                work@ == text_work(demands@.take(i as int)),
            decreases demands@.len() - i,
        {
            work.push(Work::Text(demands[i]));
            i += 1;
            assert(work@ =~= text_work(demands@.take(i as int)));
        }
        assert(demands@.take(demands@.len() as int) =~= demands@);
        Ok(self.replace(class, work))
    }

    /// Asks for the work of a class to be dropped.
    pub fn cancel<S, R>(&mut self, class: WorkClass) -> (command: Command<S, R>)
        requires
            old(self).flags().wf(),
        ensures
            final(self).spec_id() == old(self).spec_id(),
            final(self).flags().wf(),
            final(self).flags().opening() == old(self).flags().opening(),
            final(self).flags().batches() == old(self).flags().batches().remove(class),
            command == (Command::<S, R>::CancelClass { id: old(self).spec_id(), class }),
            old(self).flags().was_set(class),
    {
        self.cancellations.cancel_class(class);
        Command::CancelClass { id: self.id, class }
    }

    /// Asks to be forgotten. Everything under way is cancelled.
    pub fn detach<S, R>(self) -> (command: Command<S, R>)
        requires
            self.flags().wf(),
        ensures
            command == (Command::<S, R>::Detach { id: self.spec_id() }),
            self.flags().were_set(),
    {
        let mut cancellations = self.cancellations;
        cancellations.cancel_all();
        Command::Detach { id: self.id }
    }
}

/// A batch of demands becomes as many pieces of work, each of them one demand, in the
/// order of the demands.
pub proof fn law_batches_carry_every_demand(
    tiles: Seq<RenderDemand>,
    pages: Seq<TextDemand>,
    i: int,
)
    ensures
        render_work(tiles).len() == tiles.len(),
        text_work(pages).len() == pages.len(),
        0 <= i < tiles.len() ==> render_work(tiles)[i] == Work::Render(tiles[i]),
        0 <= i < pages.len() ==> text_work(pages)[i] == Work::Text(pages[i]),
{
}

/// Text is taken in every class but those of tiles and previews.
pub proof fn law_text_goes_to_text_classes(class: WorkClass)
    ensures
        class.takes_text() <==> match class {
            WorkClass::VisibleText => true,
            WorkClass::CopyText => true,
            WorkClass::SearchText => true,
            WorkClass::LinkResolutionText => true,
            WorkClass::DocumentAnalysisText => true,
            WorkClass::RenderViewport => false,
            WorkClass::Preview => false,
        },
{
}

/// To replace the batch of a class, or to cancel it, sets the flag of the class and leaves
/// those of all other classes and of an opening alone. A new batch has a new flag.
pub proof fn law_classes_are_cancelled_on_their_own<S, R>(
    before: DocumentClient,
    class: WorkClass,
    other: WorkClass,
)
    requires
        other != class,
    ensures
        forall|
            client: &mut DocumentClient,
            demands: Vec<TextDemand>,
            command: Result<Command<S, R>, SupervisorSendError>,
        | #[trigger]
            call_ensures(
                DocumentClient::replace_text::<S, R>,
                (client, class, demands),
                command,
            ) && *client == before ==> {
                &&& final(client).flags().opening() == before.flags().opening()
                &&& final(client).flags().batches().contains_key(other)
                    == before.flags().batches().contains_key(other)
                &&& before.flags().batches().contains_key(other) ==> final(client).flags().batches()[other] == before.flags().batches()[other]
                &&& command matches Ok(Command::Replace { id, class: asked, work, cancellation })
                    ==> id == before.spec_id() && asked == class && work@.len() == demands@.len()
                    && (forall|i: int|
                    0 <= i < work@.len() ==> #[trigger] work@[i] == Work::Text(demands@[i])) && (
                before.flags().batches().contains_key(class)
                    ==> crate::runtime::cancellation::is_set(
                    before.flags().batches()[class].flag(),
                )) && final(client).flags().batches()[class] == cancellation
            },
        forall|client: &mut DocumentClient, command: Command<S, R>| #[trigger]
            call_ensures(DocumentClient::cancel::<S, R>, (client, class), command) && *client
                == before ==> {
                &&& final(client).flags().opening() == before.flags().opening()
                &&& !final(client).flags().batches().contains_key(class)
                &&& final(client).flags().batches().contains_key(other)
                    == before.flags().batches().contains_key(other)
                &&& before.flags().batches().contains_key(other) ==> final(client).flags().batches()[other] == before.flags().batches()[other]
                &&& before.flags().batches().contains_key(class)
                    ==> crate::runtime::cancellation::is_set(
                    before.flags().batches()[class].flag(),
                )
            },
{
}

/// A document has the number that the counter gave out, unless that is zero or there was
/// none.
pub proof fn law_documents_have_the_numbers_that_were_given_out(taken: Option<u64>)
    ensures
        SupervisorDocumentId::of_number(taken) is Ok <==> (taken matches Some(value) && value > 0),
        SupervisorDocumentId::of_number(taken) matches Ok(id) ==> taken == Some(id.0),
        SupervisorDocumentId::of_number(taken) matches Err(error) ==> error
            is DocumentIdsExhausted,
{
}

/// A policy is accepted if and only if something may wait for a document and for its window,
/// as much as it says.
pub proof fn law_policies_let_something_wait(
    pending: usize,
    events: usize,
    made: Result<SupervisorPolicy, SupervisorPolicyError>,
)
    requires
        call_ensures(SupervisorPolicy::new, (pending, events), made),
    ensures
        made is Ok <==> pending > 0 && events > 0,
        made matches Ok(policy) ==> policy.pending_bound() == pending && policy.event_bound()
            == events,
        made matches Err(error) ==> (error is EmptyWorkQueue <==> pending == 0),
{
}

/// Whoever opens or closes a document, or leaves, tells all that was under way to stop.
pub proof fn law_openings_stop_what_was_under_way<S, R>(
    before: DocumentClient,
    source: S,
    class: WorkClass,
)
    ensures
        forall|client: &mut DocumentClient, command: Command<S, R>| #[trigger]
            call_ensures(DocumentClient::open::<S, R>, (client, source), command) && *client
                == before ==> {
                &&& before.flags().opening() matches Some(open)
                    ==> crate::runtime::cancellation::is_set(open.flag())
                &&& before.flags().batches().contains_key(class)
                    ==> crate::runtime::cancellation::is_set(
                    before.flags().batches()[class].flag(),
                )
                &&& !final(client).flags().batches().contains_key(class)
                &&& command matches Command::Open { id, source: asked, cancellation } && id
                    == before.spec_id() && asked == source && final(client).flags().opening()
                    == Some(cancellation)
            },
        forall|client: &mut DocumentClient, command: Command<S, R>| #[trigger]
            call_ensures(DocumentClient::close::<S, R>, (client,), command) && *client == before
                ==> {
                &&& before.flags().opening() matches Some(open)
                    ==> crate::runtime::cancellation::is_set(open.flag())
                &&& before.flags().batches().contains_key(class)
                    ==> crate::runtime::cancellation::is_set(
                    before.flags().batches()[class].flag(),
                )
                &&& final(client).flags().opening() is None
                &&& command matches Command::Close { id } && id == before.spec_id()
            },
{
}

/// New tiles are asked for in the class of the viewport and a new preview in its own, each
/// in place of what was asked for before: all tiles in their order, and one preview or none.
pub proof fn law_viewports_and_previews_are_replaced<S, R>(
    before: DocumentClient,
    tiles: Vec<RenderDemand>,
    preview: Option<PreviewDemand>,
)
    ensures
        forall|client: &mut DocumentClient, command: Command<S, R>| #[trigger]
            call_ensures(
                DocumentClient::replace_render_viewport::<S, R>,
                (client, tiles),
                command,
            ) && *client == before ==> {
                &&& command matches Command::Replace { id, class, work, cancellation } && id
                    == before.spec_id() && class is RenderViewport && work@.len() == tiles@.len()
                    && (forall|i: int|
                    0 <= i < work@.len() ==> #[trigger] work@[i] == Work::Render(tiles@[i]))
                &&& before.flags().batches().contains_key(WorkClass::RenderViewport)
                    ==> crate::runtime::cancellation::is_set(
                    before.flags().batches()[WorkClass::RenderViewport].flag(),
                )
                &&& final(client).flags().opening() == before.flags().opening()
            },
        forall|client: &mut DocumentClient, command: Command<S, R>| #[trigger]
            call_ensures(DocumentClient::replace_preview::<S, R>, (client, preview), command)
                && *client == before ==> {
                &&& command matches Command::Replace { id, class, work, cancellation } && id
                    == before.spec_id() && class is Preview && (preview is None <==> work@.len()
                    == 0) && (preview matches Some(demand) ==> work@.len() == 1 && work@[0]
                    == Work::Preview(demand))
                &&& before.flags().batches().contains_key(WorkClass::Preview)
                    ==> crate::runtime::cancellation::is_set(
                    before.flags().batches()[WorkClass::Preview].flag(),
                )
                &&& final(client).flags().opening() == before.flags().opening()
            },
{
}

} // verus!

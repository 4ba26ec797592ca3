//! One owner for the annotations of all open documents.
//!
//! Every document has a lane of its own. The owner works off one operation of
//! a lane at a time and goes on to the next lane; saves of the same opening
//! that follow each other are made into one. What a client has not taken yet
//! waits for it, up to a bound: a lane whose client is full rests meanwhile.
//!
//! Reading and writing happen elsewhere: the owner hands out a task and is told
//! how it ended.

use crate::keyed::{KeyedList, ListKey};
use crate::runtime::session::take_number;
use crate::store::annotations::AnnotationSet;
use crate::store::error::{SaveReceipt, StoreError};
use crate::store::identity::{DocumentIdentity, DocumentKey};
use crate::store::source_path::same_place;
use std::sync::atomic::AtomicU64;
use vstd::prelude::*;

verus! {

/// How many commands may wait for the owner.
pub const COMMAND_CAPACITY: usize = 256;

/// How many events a client can hold.
pub const EVENT_CAPACITY: usize = 64;

/// How many more the owner holds for it.
pub const PENDING_EVENT_CAPACITY: usize = 8;

/// A client of the owner.
#[derive(Clone, Copy, Debug, PartialEq, Eq, Hash, Structural)]
pub struct AnnotationClientId(pub u64);

impl AnnotationClientId {
    /// The number.
    pub fn get(self) -> (number: u64)
        ensures
            number == self.0,
    {
        self.0
    }
}

/// A document at the owner.
#[derive(Clone, Copy, Debug, PartialEq, Eq, Hash, Structural)]
pub struct AnnotationDocumentId(pub u64);

impl AnnotationDocumentId {
    /// The number.
    pub fn get(self) -> (number: u64)
        ensures
            number == self.0,
    {
        self.0
    }
}

/// What failed.
#[derive(Clone, Copy, Debug, PartialEq, Eq, Structural)]
pub enum AnnotationServiceOperation {
    Load,
    Save,
}

/// What happened.
#[derive(Debug)]
pub enum AnnotationServiceEventKind {
    Loaded { identity: DocumentIdentity, annotations: AnnotationSet },
    Saved { revision: u64 },
    Failed { operation: AnnotationServiceOperation, revision: Option<u64>, message: String },
}

/// What a client hears.
#[derive(Debug)]
pub struct AnnotationServiceEvent {
    pub client_id: AnnotationClientId,
    pub document_id: AnnotationDocumentId,
    pub generation: u64,
    pub kind: AnnotationServiceEventKind,
}

/// How much the owner holds.
#[derive(Clone, Copy, Debug, Default, PartialEq, Eq, Structural)]
pub struct AnnotationServiceDiagnostics {
    pub clients: usize,
    pub documents: usize,
    pub pending_operations: usize,
}

/// Why a client could not be attached.
#[derive(Clone, Copy, Debug, PartialEq, Eq, Structural)]
pub enum AnnotationServiceStartError {
    WorkerUnavailable,
    IdsExhausted,
}

impl AnnotationServiceStartError {
    /// The error in words.
    pub fn message(self) -> (text: &'static str)
        ensures
            text@ == match self {
                AnnotationServiceStartError::WorkerUnavailable =>
                    "the annotation service is unavailable"@,
                AnnotationServiceStartError::IdsExhausted =>
                    "annotation service IDs are exhausted"@,
            },
    {
        match self {
            AnnotationServiceStartError::WorkerUnavailable =>
                "the annotation service is unavailable",
            AnnotationServiceStartError::IdsExhausted => "annotation service IDs are exhausted",
        }
    }
}

/// Why an event was not delivered.
#[derive(Debug)]
pub enum AnnotationRouteError {
    /// The client can take no more now.
    Full(AnnotationServiceEvent),
    /// The client is gone.
    Disconnected,
}

/// Delivers events to one client without waiting for it.
pub trait AnnotationRoute {
    /// Delivers an event, or hands it back.
    fn try_send(&mut self, event: AnnotationServiceEvent) -> Result<(), AnnotationRouteError>;
}

/// What a client asks of the owner.
#[derive(Debug)]
pub enum Command<R> {
    Attach { client_id: AnnotationClientId, document_id: AnnotationDocumentId, route: R },
    Load {
        client_id: AnnotationClientId,
        document_id: AnnotationDocumentId,
        generation: u64,
        path: Vec<u8>,
        page_count: usize,
    },
    Save {
        client_id: AnnotationClientId,
        document_id: AnnotationDocumentId,
        generation: u64,
        path: Vec<u8>,
        identity: DocumentIdentity,
        expected_disk_revision: u64,
        annotations: AnnotationSet,
    },
    /// Nothing but to look around.
    Wake,
    Shutdown,
}

/// Gives out identities.
#[derive(Debug)]
pub struct AnnotationIds {
    next_client: AtomicU64,
    next_document: AtomicU64,
}

/// The identities for the numbers that the counters gave out.
pub fn identities_from_numbers(client: Option<u64>, document: Option<u64>) -> (identities: Result<
    (AnnotationClientId, AnnotationDocumentId),
    AnnotationServiceStartError,
>)
    ensures
        identities == match (client, document) {
            (Some(client), Some(document)) => Ok::<
                (AnnotationClientId, AnnotationDocumentId),
                AnnotationServiceStartError,
            >((AnnotationClientId(client), AnnotationDocumentId(document))),
            _ => Err(AnnotationServiceStartError::IdsExhausted),
        },
{
    match (client, document) {
        (Some(client), Some(document)) => Ok(
            (AnnotationClientId(client), AnnotationDocumentId(document)),
        ),
        _ => Err(AnnotationServiceStartError::IdsExhausted),
    }
}

impl AnnotationIds {
    /// Both counters were made to start at one.
    pub closed spec fn counts_from_one(&self) -> bool {
        call_ensures(AtomicU64::new, (1,), self.next_client) && call_ensures(
            AtomicU64::new,
            (1,),
            self.next_document,
        )
    }

    /// The counter of clients gave out this.
    pub closed spec fn drew_client(&self, taken: Option<u64>) -> bool {
        call_ensures(take_number, (&self.next_client,), taken)
    }

    /// The counter of documents gave out this.
    pub closed spec fn drew_document(&self, taken: Option<u64>) -> bool {
        call_ensures(take_number, (&self.next_document,), taken)
    }

    /// The counters, which were made to start at one, gave these out one after the
    /// other.
    pub open spec fn served(
        &self,
        clients: Seq<Option<u64>>,
        documents: Seq<Option<u64>>,
    ) -> bool {
        &&& self.counts_from_one()
        &&& crate::runtime::session::in_turn(1, clients)
        &&& crate::runtime::session::in_turn(1, documents)
        &&& forall|i: int| 0 <= i < clients.len() ==> self.drew_client(#[trigger] clients[i])
        &&& forall|i: int| 0 <= i < documents.len() ==> self.drew_document(#[trigger] documents[i])
    }

    /// Counts from one.
    pub fn new() -> (ids: AnnotationIds)
        ensures
            ids.counts_from_one(),
    {
        AnnotationIds { next_client: AtomicU64::new(1), next_document: AtomicU64::new(1) }
    }

    /// The next client and its document. No document number is used up when
    /// there is no client number. Which numbers come depends on who asked
    /// before.
    pub fn attach(&self) -> (identities: Result<
        (AnnotationClientId, AnnotationDocumentId),
        AnnotationServiceStartError,
    >)
        ensures
            match identities {
                Ok((client, document)) => {
                    &&& self.drew_client(Some(client.0))
                    &&& self.drew_document(Some(document.0))
                    &&& client.0 < u64::MAX
                    &&& document.0 < u64::MAX
                },
                Err(error) => {
                    &&& error == AnnotationServiceStartError::IdsExhausted
                    &&& self.drew_client(None) || self.drew_document(None)
                },
            },
    {
        let client = take_number(&self.next_client);
        assert(self.drew_client(client));
        if client.is_none() {
            return Err(AnnotationServiceStartError::IdsExhausted);
        }
        let document = take_number(&self.next_document);
        assert(self.drew_document(document));
        identities_from_numbers(client, document)
    }
}

/// No two clients have the same number, and no two documents.
pub proof fn law_identities_do_not_recur(
    ids: AnnotationIds,
    clients: Seq<Option<u64>>,
    documents: Seq<Option<u64>>,
    i: int,
    j: int,
)
    requires
        ids.served(clients, documents),
        0 <= i < j,
    ensures
        j < clients.len() && clients[j] is Some ==> clients[i] is Some && clients[i]->Some_0
            < clients[j]->Some_0,
        j < documents.len() && documents[j] is Some ==> documents[i] is Some
            && documents[i]->Some_0 < documents[j]->Some_0,
{
    if j < clients.len() {
        crate::runtime::session::lemma_numbers_count_up(clients, i);
        crate::runtime::session::lemma_numbers_count_up(clients, j);
    }
    if j < documents.len() {
        crate::runtime::session::lemma_numbers_count_up(documents, i);
        crate::runtime::session::lemma_numbers_count_up(documents, j);
    }
}

/// A client and its document, as the client knows them.
#[derive(Clone, Copy, Debug, PartialEq, Eq, Structural)]
pub struct AnnotationServiceClient {
    client_id: AnnotationClientId,
    document_id: AnnotationDocumentId,
}

impl AnnotationServiceClient {
    /// The client.
    pub closed spec fn spec_client(self) -> AnnotationClientId {
        self.client_id
    }

    /// Its document.
    pub closed spec fn spec_document(self) -> AnnotationDocumentId {
        self.document_id
    }

    /// A client with its document.
    pub fn new(client_id: AnnotationClientId, document_id: AnnotationDocumentId) -> (client:
        AnnotationServiceClient)
        ensures
            client.spec_client() == client_id,
            client.spec_document() == document_id,
    {
        AnnotationServiceClient { client_id, document_id }
    }

    /// The client.
    pub fn client_id(&self) -> (id: AnnotationClientId)
        ensures
            id == self.spec_client(),
    {
        self.client_id
    }

    /// Its document.
    pub fn document_id(&self) -> (id: AnnotationDocumentId)
        ensures
            id == self.spec_document(),
    {
        self.document_id
    }

    /// Asks for the annotations of a document.
    pub fn load<R>(&self, generation: u64, path: Vec<u8>, page_count: usize) -> (command: Command<
        R,
    >)
        ensures
            command == (Command::<R>::Load {
                client_id: self.spec_client(),
                document_id: self.spec_document(),
                generation,
                path,
                page_count,
            }),
    {
        Command::Load {
            client_id: self.client_id,
            document_id: self.document_id,
            generation,
            path,
            page_count,
        }
    }

    /// Asks for annotations to be saved.
    pub fn save<R>(
        &self,
        generation: u64,
        path: Vec<u8>,
        identity: DocumentIdentity,
        expected_disk_revision: u64,
        annotations: AnnotationSet,
    ) -> (command: Command<R>)
        ensures
            command == (Command::<R>::Save {
                client_id: self.spec_client(),
                document_id: self.spec_document(),
                generation,
                path,
                identity,
                expected_disk_revision,
                annotations,
            }),
    {
        Command::Save {
            client_id: self.client_id,
            document_id: self.document_id,
            generation,
            path,
            identity,
            expected_disk_revision,
            annotations,
        }
    }
}

/// Something to do for a document.
#[derive(Debug)]
pub enum Operation {
    Load { generation: u64, path: Vec<u8>, page_count: usize },
    Save {
        generation: u64,
        path: Vec<u8>,
        identity: DocumentIdentity,
        expected_disk_revision: u64,
        annotations: AnnotationSet,
    },
    Detach,
}

/// What is to be done for a document, and what is known of it.
#[derive(Debug)]
pub struct DocumentLane {
    pub client_id: AnnotationClientId,
    /// In the order in which they came.
    pub operations: Vec<Operation>,
    /// The lane waits for its turn.
    pub scheduled: bool,
    /// Its client is gone; nothing more is taken.
    pub closing: bool,
    pub active_generation: Option<u64>,
    pub active_path: Option<Vec<u8>>,
    pub observed_disk_revision: Option<u64>,
}

/// A client and what it has not taken yet.
#[derive(Debug)]
pub struct ClientSink<R> {
    pub route: R,
    pub pending: Vec<AnnotationServiceEvent>,
}

/// A path that may be missing, as a sequence of bytes.
pub open spec fn optional_path(path: Option<Vec<u8>>) -> Option<Seq<u8>> {
    match path {
        Some(path) => Some(path@),
        None => None,
    }
}

impl DocumentLane {
    /// Everything but the operations and the turn is as in another lane.
    pub open spec fn same_but_queue(self, other: DocumentLane) -> bool {
        &&& self.client_id == other.client_id
        &&& self.closing == other.closing
        &&& self.active_generation == other.active_generation
        &&& self.active_path == other.active_path
        &&& self.observed_disk_revision == other.observed_disk_revision
    }

    /// A lane on which nothing happened yet.
    pub fn new(client_id: AnnotationClientId) -> (lane: DocumentLane)
        ensures
            lane.client_id == client_id,
            lane.operations@.len() == 0,
            !lane.scheduled,
            !lane.closing,
            lane.active_generation is None,
            lane.active_path is None,
            lane.observed_disk_revision is None,
    {
        DocumentLane {
            client_id,
            operations: Vec::new(),
            scheduled: false,
            closing: false,
            active_generation: None,
            active_path: None,
            observed_disk_revision: None,
        }
    }

    /// A save of this opening takes the place of the last operation.
    pub open spec fn absorbs(self, generation: u64, path: Seq<u8>, revision: u64) -> bool {
        self.operations@.len() > 0 && (self.operations@.last() matches Operation::Save {
            generation: pending,
            path: pending_path,
            annotations,
            ..
        } && pending == generation && crate::store::source_path::place_of(
            pending_path@,
        ) == crate::store::source_path::place_of(path) && revision >= annotations@.revision)
    }

    /// The operations after a save was asked for.
    pub open spec fn operations_with_save(
        self,
        generation: u64,
        path: Vec<u8>,
        identity: DocumentIdentity,
        expected_disk_revision: u64,
        annotations: AnnotationSet,
    ) -> Seq<Operation> {
        if self.absorbs(generation, path@, annotations@.revision) {
            let pending = self.operations@.last();
            self.operations@.drop_last().push(
                Operation::Save {
                    generation: pending->Save_generation,
                    path: pending->Save_path,
                    identity,
                    expected_disk_revision: pending->expected_disk_revision,
                    annotations,
                },
            )
        } else {
            self.operations@.push(
                Operation::Save { generation, path, identity, expected_disk_revision, annotations },
            )
        }
    }

    /// Queues a save, in place of the last operation where that is a save of
    /// the same opening at no later revision.
    fn queue_save(
        &mut self,
        generation: u64,
        path: Vec<u8>,
        identity: DocumentIdentity,
        expected_disk_revision: u64,
        annotations: AnnotationSet,
    )
        ensures
            final(self).same_but_queue(*old(self)),
            final(self).scheduled == old(self).scheduled,
            final(self).operations@ == old(self).operations_with_save(
                generation,
                path,
                identity,
                expected_disk_revision,
                annotations,
            ),
    {
        let ghost start = self.operations@;
        match self.operations.pop() {
            Some(
                Operation::Save {
                    generation: pending_generation,
                    path: pending_path,
                    identity: pending_identity,
                    expected_disk_revision: pending_expected,
                    annotations: pending_annotations,
                },
            ) => {
                if pending_generation == generation && same_place(&pending_path, &path)
                    && annotations.revision() >= pending_annotations.revision() {
                    self.operations.push(
                        Operation::Save {
                            generation: pending_generation,
                            path: pending_path,
                            identity,
                            expected_disk_revision: pending_expected,
                            annotations,
                        },
                    );
                    return ;
                }
                self.operations.push(
                    Operation::Save {
                        generation: pending_generation,
                        path: pending_path,
                        identity: pending_identity,
                        expected_disk_revision: pending_expected,
                        annotations: pending_annotations,
                    },
                );
                assert(self.operations@ =~= start);
            },
            Some(other) => {
                self.operations.push(other);
                assert(self.operations@ =~= start);
            },
            None => {},
        }
        self.operations.push(
            Operation::Save { generation, path, identity, expected_disk_revision, annotations },
        );
    }
}

/// The owner of all annotations.
#[derive(Debug)]
pub struct AnnotationActor<R> {
    pub clients: KeyedList<u64, ClientSink<R>>,
    pub documents: KeyedList<u64, DocumentLane>,
    /// The lanes that wait for a turn, the next one first.
    pub ready: Vec<u64>,
    pub shutting_down: bool,
    /// The lane that had the latest turn.
    pub last_served: Option<u64>,
}

/// The clients, lanes and turns fit: a lane waits for a turn exactly while it
/// has something to do, no lane waits twice, a lane that closes has no client,
/// and no client has more waiting than the bound.
pub open spec fn sound<R>(
    clients: Map<u64, ClientSink<R>>,
    documents: Map<u64, DocumentLane>,
    ready: Seq<u64>,
) -> bool {
    &&& ready.no_duplicates()
    &&& forall|i: int|
        0 <= i < ready.len() ==> documents.contains_key(#[trigger] ready[i])
            && documents[ready[i]].scheduled
    &&& forall|id: u64| #[trigger]
        documents.contains_key(id) ==> {
            &&& documents[id].scheduled == (documents[id].operations@.len() > 0)
            &&& documents[id].scheduled ==> ready.contains(id)
            &&& documents[id].closing ==> !clients.contains_key(documents[id].client_id.0)
        }
    &&& forall|client: u64| #[trigger]
        clients.contains_key(client) ==> clients[client].pending@.len() <= PENDING_EVENT_CAPACITY
    &&& forall|a: u64, b: u64|
        documents.contains_key(a) && documents.contains_key(b) && (
        #[trigger] documents[a]).client_id == (#[trigger] documents[b]).client_id ==> a == b
}

/// A lane got something to do.
proof fn lemma_queued<R>(
    clients: Map<u64, ClientSink<R>>,
    documents: Map<u64, DocumentLane>,
    ready: Seq<u64>,
    id: u64,
    lane: DocumentLane,
)
    requires
        sound(clients, documents, ready),
        documents.contains_key(id),
        lane.client_id == documents[id].client_id,
        lane.scheduled,
        lane.operations@.len() > 0,
        lane.closing ==> !clients.contains_key(lane.client_id.0),
    ensures
        sound(
            clients,
            documents.insert(id, lane),
            if documents[id].scheduled {
                ready
            } else {
                ready.push(id)
            },
        ),
{
    let after = documents.insert(id, lane);
    if !documents[id].scheduled {
        let longer = ready.push(id);
        assert forall|i: int| 0 <= i < ready.len() implies #[trigger] ready[i] != id by {
            assert(documents[ready[i]].scheduled);
        }
        assert forall|i: int| 0 <= i < longer.len() implies after.contains_key(
            #[trigger] longer[i],
        ) && after[longer[i]].scheduled by {
            if i < ready.len() {
                assert(documents.contains_key(ready[i]));
            }
        }
        assert forall|other: u64| #[trigger] after.contains_key(other) implies {
            &&& after[other].scheduled == (after[other].operations@.len() > 0)
            &&& after[other].scheduled ==> longer.contains(other)
            &&& after[other].closing ==> !clients.contains_key(after[other].client_id.0)
        } by {
            if other == id {
                assert(longer[ready.len() as int] == id);
            } else {
                assert(documents.contains_key(other));
                if documents[other].scheduled {
                    let i = choose|i: int| 0 <= i < ready.len() && ready[i] == other;
                    assert(longer[i] == other);
                }
            }
        }
    } else {
        assert forall|i: int| 0 <= i < ready.len() implies after.contains_key(#[trigger] ready[i])
            && after[ready[i]].scheduled by {
            assert(documents.contains_key(ready[i]));
        }
        assert forall|other: u64| #[trigger] after.contains_key(other) implies {
            &&& after[other].scheduled == (after[other].operations@.len() > 0)
            &&& after[other].scheduled ==> ready.contains(other)
            &&& after[other].closing ==> !clients.contains_key(after[other].client_id.0)
        } by {
            assert(documents.contains_key(other));
        }
    }
}

/// Clients went, or had their events delivered.
proof fn lemma_fewer_clients<R>(
    clients: Map<u64, ClientSink<R>>,
    fewer: Map<u64, ClientSink<R>>,
    documents: Map<u64, DocumentLane>,
    ready: Seq<u64>,
)
    requires
        sound(clients, documents, ready),
        forall|client: u64| #[trigger]
            fewer.contains_key(client) ==> clients.contains_key(client)
                && fewer[client].pending@.len() <= PENDING_EVENT_CAPACITY,
    ensures
        sound(fewer, documents, ready),
{
    assert forall|id: u64| #[trigger] documents.contains_key(id) && documents[id].closing implies
        !fewer.contains_key(documents[id].client_id.0) by {
    }
}

/// The same lanes wait in another order.
proof fn lemma_reordered<R>(
    clients: Map<u64, ClientSink<R>>,
    documents: Map<u64, DocumentLane>,
    ready: Seq<u64>,
    other: Seq<u64>,
    by: int,
)
    requires
        sound(clients, documents, ready),
        0 <= by <= ready.len(),
        other == ready.skip(by) + ready.take(by),
    ensures
        sound(clients, documents, other),
{
    let n = ready.len() as int;
    assert forall|i: int| 0 <= i < n implies #[trigger] other[i] == ready[if i < n - by {
        i + by
    } else {
        i - (n - by)
    }] by {
    }
    assert forall|id: u64| ready.contains(id) implies #[trigger] other.contains(id) by {
        let i = choose|i: int| 0 <= i < n && ready[i] == id;
        let j = if i >= by { i - by } else { i + (n - by) };
        assert(other[j] == id);
    }
}

/// The lane whose turn it was is done with one operation.
proof fn lemma_served<R>(
    clients: Map<u64, ClientSink<R>>,
    documents: Map<u64, DocumentLane>,
    ready: Seq<u64>,
    lane: DocumentLane,
)
    requires
        sound(clients, documents, ready),
        ready.len() > 0,
        lane.client_id == documents[ready[0]].client_id,
        lane.scheduled == (lane.operations@.len() > 0),
        lane.closing ==> !clients.contains_key(lane.client_id.0),
    ensures
        sound(
            clients,
            documents.insert(ready[0], lane),
            if lane.scheduled {
                ready.skip(1).push(ready[0])
            } else {
                ready.skip(1)
            },
        ),
{
    let id = ready[0];
    let rest = ready.skip(1);
    let after = documents.insert(id, lane);
    let order = if lane.scheduled {
        rest.push(id)
    } else {
        rest
    };
    assert forall|i: int| 0 <= i < rest.len() implies #[trigger] rest[i] == ready[i + 1] && rest[i]
        != id by {
    }
    assert forall|i: int| 0 <= i < order.len() implies after.contains_key(#[trigger] order[i])
        && after[order[i]].scheduled by {
        if i < rest.len() {
            assert(order[i] == rest[i]);
            assert(documents.contains_key(ready[i + 1]));
        }
    }
    assert forall|other: u64| #[trigger] after.contains_key(other) implies {
        &&& after[other].scheduled == (after[other].operations@.len() > 0)
        &&& after[other].scheduled ==> order.contains(other)
        &&& after[other].closing ==> !clients.contains_key(after[other].client_id.0)
    } by {
        if other == id {
            if lane.scheduled {
                assert(order[rest.len() as int] == id);
            }
        } else {
            assert(documents.contains_key(other));
            if documents[other].scheduled {
                let i = choose|i: int| 0 <= i < ready.len() && ready[i] == other;
                assert(order[i - 1] == other);
            }
        }
    }
}

/// The lane whose turn it was is gone, and so is its client.
proof fn lemma_detached<R>(
    clients: Map<u64, ClientSink<R>>,
    documents: Map<u64, DocumentLane>,
    ready: Seq<u64>,
    client: u64,
)
    requires
        sound(clients, documents, ready),
        ready.len() > 0,
    ensures
        sound(clients.remove(client), documents.remove(ready[0]), ready.skip(1)),
{
    let id = ready[0];
    let rest = ready.skip(1);
    let after = documents.remove(id);
    assert forall|i: int| 0 <= i < rest.len() implies #[trigger] rest[i] == ready[i + 1] && rest[i]
        != id && documents.contains_key(ready[i + 1]) by {
    }
    assert forall|other: u64| #[trigger] after.contains_key(other) implies {
        &&& after[other].scheduled == (after[other].operations@.len() > 0)
        &&& after[other].scheduled ==> rest.contains(other)
        &&& after[other].closing ==> !clients.remove(client).contains_key(
            after[other].client_id.0,
        )
    } by {
        assert(documents.contains_key(other));
        if documents[other].scheduled {
            let i = choose|i: int| 0 <= i < ready.len() && ready[i] == other;
            assert(rest[i - 1] == other);
        }
    }
}

/// A client was attached to a lane of its own.
proof fn lemma_attached<R>(
    clients: Map<u64, ClientSink<R>>,
    documents: Map<u64, DocumentLane>,
    ready: Seq<u64>,
    client: u64,
    sink: ClientSink<R>,
    id: u64,
    lane: DocumentLane,
)
    requires
        sound(clients, documents, ready),
        !documents.contains_key(id),
        forall|other: u64| #[trigger]
            documents.contains_key(other) ==> documents[other].client_id.0 != client,
        sink.pending@.len() == 0,
        lane.client_id.0 == client,
        !lane.scheduled,
        lane.operations@.len() == 0,
        !lane.closing,
    ensures
        sound(clients.insert(client, sink), documents.insert(id, lane), ready),
{
    let after = documents.insert(id, lane);
    assert forall|i: int| 0 <= i < ready.len() implies after.contains_key(#[trigger] ready[i])
        && after[ready[i]].scheduled by {
        assert(documents.contains_key(ready[i]));
    }
    assert forall|other: u64| #[trigger] after.contains_key(other) implies {
        &&& after[other].scheduled == (after[other].operations@.len() > 0)
        &&& after[other].scheduled ==> ready.contains(other)
        &&& after[other].closing ==> !clients.insert(client, sink).contains_key(
            after[other].client_id.0,
        )
    } by {
        if other != id {
            assert(documents.contains_key(other));
        }
    }
}

/// A lane that takes no more: the last thing to do is to go.
pub open spec fn closed_lane(before: DocumentLane, after: DocumentLane) -> bool {
    &&& after.client_id == before.client_id
    &&& after.active_generation == before.active_generation
    &&& after.active_path == before.active_path
    &&& after.observed_disk_revision == before.observed_disk_revision
    &&& after.closing
    &&& after.scheduled
    &&& after.operations@ == before.operations@.push(Operation::Detach)
}

/// An operation was queued on a lane, and nothing else happened.
pub open spec fn queued_on<R>(
    before: AnnotationActor<R>,
    after: AnnotationActor<R>,
    id: u64,
    operations: Seq<Operation>,
) -> bool {
    let lane = before.documents@[id];
    &&& after.clients@ == before.clients@
    &&& after.documents@.contains_key(id)
    &&& after.documents@ == before.documents@.insert(id, after.documents@[id])
    &&& after.documents@[id].same_but_queue(lane)
    &&& after.documents@[id].scheduled
    &&& after.documents@[id].operations@ == operations
    &&& after.ready@ == if lane.scheduled {
        before.ready@
    } else {
        before.ready@.push(id)
    }
}

/// Every lane but one is as it was.
pub open spec fn same_lanes_but<R>(
    before: AnnotationActor<R>,
    after: AnnotationActor<R>,
    id: u64,
) -> bool {
    forall|other: u64|
        other != id ==> (#[trigger] after.documents@.contains_key(other)
            == before.documents@.contains_key(other)) && (before.documents@.contains_key(other)
            ==> after.documents@[other] == before.documents@[other])
}

impl<R> AnnotationActor<R> {
    /// See [`sound`].
    pub open spec fn wf(&self) -> bool {
        &&& self.clients.wf()
        &&& self.documents.wf()
        &&& sound(self.clients@, self.documents@, self.ready@)
    }

    /// An owner without clients.
    pub fn new() -> (actor: AnnotationActor<R>)
        ensures
            actor.wf(),
            actor.clients@ == Map::<u64, ClientSink<R>>::empty(),
            actor.documents@ == Map::<u64, DocumentLane>::empty(),
            actor.ready@.len() == 0,
            !actor.shutting_down,
            actor.last_served is None,
    {
        AnnotationActor {
            clients: KeyedList::new(),
            documents: KeyedList::new(),
            ready: Vec::new(),
            shutting_down: false,
            last_served: None,
        }
    }

    /// No lane has this document, and none has this client.
    pub open spec fn unknown(&self, client: AnnotationClientId, document: AnnotationDocumentId) -> bool {
        &&& !self.documents@.contains_key(document.0)
        &&& forall|id: u64| #[trigger]
            self.documents@.contains_key(id) ==> self.documents@[id].client_id != client
    }

    /// Whether no lane has this document, and none this client.
    pub fn is_unknown(&self, client: AnnotationClientId, document: AnnotationDocumentId) -> (fresh:
        bool)
        requires
            self.wf(),
        ensures
            fresh == self.unknown(client, document),
    {
        if self.documents.contains_key(&document.0) {
            return false;
        }
        let mut i: usize = 0;
        while i < self.documents.entries.len()
            invariant
                self.wf(),
                i <= self.documents.entries@.len(),
                forall|j: int|
                    0 <= j < i ==> (#[trigger] self.documents.entries@[j]).1.client_id != client,
            decreases self.documents.entries@.len() - i,
        {
            if self.documents.entries[i].1.client_id == client {
                proof {
                    crate::keyed::lemma_entry(self.documents.entries@, i as int);
                    assert(self.documents@.contains_key(self.documents.entries@[i as int].0@));
                }
                return false;
            }
            i += 1;
        }
        proof {
            assert forall|id: u64| #[trigger] self.documents@.contains_key(id) implies
                self.documents@[id].client_id != client by {
                let j = choose|j: int| crate::keyed::holds_at(self.documents.entries@, id, j);
                crate::keyed::lemma_entry(self.documents.entries@, j);
                assert(self.documents.entries@[j].1.client_id != client);
            }
        }
        true
    }

    /// The document takes operations of a client.
    pub open spec fn takes(&self, client: AnnotationClientId, document: AnnotationDocumentId) -> bool {
        self.documents@.contains_key(document.0) && self.documents@[document.0].client_id == client
            && !self.documents@[document.0].closing
    }

    fn takes_from(&self, client: AnnotationClientId, document: AnnotationDocumentId) -> (takes: bool)
        requires
            self.wf(),
        ensures
            takes == self.takes(client, document),
    {
        match self.documents.get(&document.0) {
            Some(lane) => lane.client_id == client && !lane.closing,
            None => false,
        }
    }

    /// Nothing is different from before but the turns that were taken.
    pub open spec fn unchanged(&self, before: AnnotationActor<R>) -> bool {
        &&& self.clients == before.clients
        &&& self.documents == before.documents
        &&& self.ready == before.ready
    }

    /// Puts a lane back with something to do.
    fn put_back(&mut self, id: u64, lane: DocumentLane, Ghost(before): Ghost<AnnotationActor<R>>)
        requires
            before.wf(),
            before.documents@.contains_key(id),
            old(self).clients == before.clients,
            old(self).documents.wf(),
            old(self).documents@ == before.documents@.remove(id),
            old(self).ready == before.ready,
            lane.client_id == before.documents@[id].client_id,
            lane.scheduled == before.documents@[id].scheduled,
            lane.operations@.len() > 0,
            lane.closing ==> !before.clients@.contains_key(lane.client_id.0),
        ensures
            final(self).wf(),
            final(self).clients == before.clients,
            final(self).shutting_down == old(self).shutting_down,
            final(self).last_served == old(self).last_served,
            final(self).documents@ == before.documents@.insert(
                id,
                (DocumentLane { scheduled: true, ..lane }),
            ),
            final(self).ready@ == if before.documents@[id].scheduled {
                before.ready@
            } else {
                before.ready@.push(id)
            },
    {
        let mut lane = lane;
        if !lane.scheduled {
            lane.scheduled = true;
            self.ready.push(id);
        }
        proof {
            lemma_queued(before.clients@, before.documents@, before.ready@, id, lane);
        }
        self.documents.insert(id, lane);
        assert(self.documents@ =~= before.documents@.insert(id, lane));
    }

    /// Takes a command in.
    pub fn ingest(&mut self, command: Command<R>)
        requires
            old(self).wf(),
            command matches Command::Attach { client_id, document_id, .. } ==> old(self).unknown(
                client_id,
                document_id,
            ),
        ensures
            final(self).wf(),
            final(self).last_served == old(self).last_served,
            final(self).shutting_down == (old(self).shutting_down || command is Shutdown),
            match command {
                Command::Attach { client_id, document_id, route } => {
                    &&& final(self).clients@.contains_key(client_id.0)
                    &&& final(self).clients@ == old(self).clients@.insert(
                        client_id.0,
                        final(self).clients@[client_id.0],
                    )
                    &&& final(self).clients@[client_id.0].route == route
                    &&& final(self).clients@[client_id.0].pending@.len() == 0
                    &&& final(self).documents@.contains_key(document_id.0)
                    &&& same_lanes_but(*old(self), *final(self), document_id.0)
                    &&& final(self).documents@[document_id.0].client_id == client_id
                    &&& final(self).documents@[document_id.0].operations@.len() == 0
                    &&& !final(self).documents@[document_id.0].closing
                    &&& final(self).documents@[document_id.0].active_generation is None
                    &&& final(self).documents@[document_id.0].active_path is None
                    &&& final(self).documents@[document_id.0].observed_disk_revision is None
                    &&& final(self).ready == old(self).ready
                },
                Command::Load { client_id, document_id, generation, path, page_count } => if old(self).takes(client_id, document_id) {
                    queued_on(
                        *old(self),
                        *final(self),
                        document_id.0,
                        old(self).documents@[document_id.0].operations@.push(
                            Operation::Load { generation, path, page_count },
                        ),
                    )
                } else {
                    final(self).unchanged(*old(self))
                },
                Command::Save {
                    client_id,
                    document_id,
                    generation,
                    path,
                    identity,
                    expected_disk_revision,
                    annotations,
                } => if old(self).takes(client_id, document_id) {
                    queued_on(
                        *old(self),
                        *final(self),
                        document_id.0,
                        old(self).documents@[document_id.0].operations_with_save(
                            generation,
                            path,
                            identity,
                            expected_disk_revision,
                            annotations,
                        ),
                    )
                } else {
                    final(self).unchanged(*old(self))
                },
                Command::Wake => final(self).unchanged(*old(self)),
                Command::Shutdown => {
                    &&& final(self).clients@ == Map::<u64, ClientSink<R>>::empty()
                    &&& final(self).documents@.dom() == old(self).documents@.dom()
                    &&& forall|id: u64| #[trigger]
                        old(self).documents@.contains_key(id) ==> if old(self).documents@[id].closing {
                            final(self).documents@[id] == old(self).documents@[id]
                        } else {
                            closed_lane(old(self).documents@[id], final(self).documents@[id])
                        }
                    &&& old(self).ready@.is_prefix_of(final(self).ready@)
                },
            },
    {
        let ghost start = *self;
        match command {
            Command::Attach { client_id, document_id, route } => {
                let sink = ClientSink { route, pending: Vec::new() };
                let lane = DocumentLane::new(client_id);
                proof {
                    lemma_attached(
                        start.clients@,
                        start.documents@,
                        start.ready@,
                        client_id.0,
                        sink,
                        document_id.0,
                        lane,
                    );
                }
                self.clients.insert(client_id.0, sink);
                self.documents.insert(document_id.0, lane);
                assert(self.clients@ =~= start.clients@.insert(client_id.0, sink));
            },
            Command::Load { client_id, document_id, generation, path, page_count } => {
                if self.takes_from(client_id, document_id) {
                    if let Some(lane) = self.documents.remove(&document_id.0) {
                        let mut lane = lane;
                        lane.operations.push(Operation::Load { generation, path, page_count });
                        self.put_back(document_id.0, lane, Ghost(start));
                        assert(self.documents@ =~= start.documents@.insert(
                            document_id.0,
                            self.documents@[document_id.0],
                        ));
                    }
                }
            },
            Command::Save {
                client_id,
                document_id,
                generation,
                path,
                identity,
                expected_disk_revision,
                annotations,
            } => {
                if self.takes_from(client_id, document_id) {
                    if let Some(lane) = self.documents.remove(&document_id.0) {
                        let mut lane = lane;
                        lane.queue_save(
                            generation,
                            path,
                            identity,
                            expected_disk_revision,
                            annotations,
                        );
                        self.put_back(document_id.0, lane, Ghost(start));
                        assert(self.documents@ =~= start.documents@.insert(
                            document_id.0,
                            self.documents@[document_id.0],
                        ));
                    }
                }
            },
            Command::Wake => {},
            Command::Shutdown => {
                self.shutting_down = true;
                self.clients.clear();
                proof {
                    lemma_fewer_clients(
                        start.clients@,
                        self.clients@,
                        start.documents@,
                        start.ready@,
                    );
                }
                let mut ids: Vec<u64> = Vec::new();
                let mut i: usize = 0;
                while i < self.documents.entries.len()
                    invariant
                        self.documents == start.documents,
                        i <= self.documents.entries@.len(),
                        ids@.len() == i,
                        forall|j: int|
                            0 <= j < i ==> #[trigger] ids@[j] == self.documents.entries@[j].0,
                    decreases self.documents.entries@.len() - i,
                {
                    ids.push(self.documents.entries[i].0);
                    i += 1;
                }
                self.close_lanes(&ids);
                proof {
                    assert forall|id: u64| #[trigger] start.documents@.contains_key(id) implies
                        ids@.contains(id) by {
                        let j = choose|j: int|
                            crate::keyed::holds_at(start.documents.entries@, id, j);
                        assert(ids@[j] == id);
                    }
                    assert(self.documents@.dom() =~= start.documents@.dom());
                    assert(self.clients@ =~= Map::<u64, ClientSink<R>>::empty());
                }
            },
        }
    }

    /// Closes lanes, and lets their clients go.
    fn close_lanes(&mut self, ids: &Vec<u64>)
        requires
            old(self).wf(),
        ensures
            final(self).wf(),
            final(self).last_served == old(self).last_served,
            final(self).shutting_down == old(self).shutting_down,
            final(self).documents@.dom() == old(self).documents@.dom(),
            forall|id: u64| #[trigger]
                old(self).documents@.contains_key(id) ==> if ids@.contains(id) && !old(self).documents@[id].closing {
                    closed_lane(old(self).documents@[id], final(self).documents@[id])
                } else {
                    final(self).documents@[id] == old(self).documents@[id]
                },
            forall|client: u64| #[trigger]
                final(self).clients@.contains_key(client) ==> old(self).clients@.contains_key(
                    client,
                ) && final(self).clients@[client] == old(self).clients@[client],
            forall|client: u64| #[trigger]
                old(self).clients@.contains_key(client) && !final(self).clients@.contains_key(
                    client,
                ) ==> exists|id: u64| #[trigger]
                    ids@.contains(id) && old(self).documents@.contains_key(id) && old(self).documents@[id].client_id.0 == client,
            old(self).ready@.is_prefix_of(final(self).ready@),
    {
        let ghost start = *self;
        let mut i: usize = 0;
        while i < ids.len()
            invariant
                start == *old(self),
                start.wf(),
                self.wf(),
                i <= ids@.len(),
                self.last_served == start.last_served,
                self.shutting_down == start.shutting_down,
                self.documents@.dom() == start.documents@.dom(),
                forall|id: u64| #[trigger]
                    start.documents@.contains_key(id) ==> if ids@.take(i as int).contains(id)
                        && !start.documents@[id].closing {
                        closed_lane(start.documents@[id], self.documents@[id])
                    } else {
                        self.documents@[id] == start.documents@[id]
                    },
                forall|client: u64| #[trigger]
                    self.clients@.contains_key(client) ==> start.clients@.contains_key(client)
                        && self.clients@[client] == start.clients@[client],
                forall|client: u64| #[trigger]
                    start.clients@.contains_key(client) && !self.clients@.contains_key(client)
                        ==> exists|id: u64| #[trigger]
                        ids@.contains(id) && start.documents@.contains_key(id)
                            && start.documents@[id].client_id.0 == client,
                start.ready@.is_prefix_of(self.ready@),
            decreases ids@.len() - i,
        {
            let ghost before = *self;
            let id = ids[i];
            assert(ids@.contains(id));
            let open = match self.documents.get(&id) {
                Some(lane) => !lane.closing,
                None => false,
            };
            proof {
                assert forall|other: u64| ids@.take(i + 1).contains(other) == (ids@.take(
                    i as int,
                ).contains(other) || other == id) by {
                    lemma_take_contains(ids@, i as int, other);
                }
            }
            if open {
                if let Some(lane) = self.documents.remove(&id) {
                    let mut lane = lane;
                    self.clients.remove(&lane.client_id.0);
                    let ghost middle = AnnotationActor::<R> {
                        clients: self.clients,
                        documents: before.documents,
                        ready: before.ready,
                        shutting_down: before.shutting_down,
                        last_served: before.last_served,
                    };
                    proof {
                        lemma_fewer_clients(
                            before.clients@,
                            middle.clients@,
                            before.documents@,
                            before.ready@,
                        );
                        assert(before.documents@.contains_key(id));
                        assert(start.documents@.contains_key(id));
                    }
                    lane.closing = true;
                    lane.operations.push(Operation::Detach);
                    self.put_back(id, lane, Ghost(middle));
                    proof {
                        assert(self.documents@.dom() =~= before.documents@.dom());
                        assert(before.ready@.is_prefix_of(self.ready@));
                        assert forall|client: u64| #[trigger]
                            start.clients@.contains_key(client) && !self.clients@.contains_key(
                                client,
                            ) implies exists|other: u64| #[trigger]
                            ids@.contains(other) && start.documents@.contains_key(other)
                                && start.documents@[other].client_id.0 == client by {
                            if before.clients@.contains_key(client) {
                                assert(client == lane.client_id.0);
                                assert(ids@.contains(id) && start.documents@.contains_key(id)
                                    && start.documents@[id].client_id.0 == client);
                            }
                        }
                    }
                }
            }
            i += 1;
        }
        assert(ids@.take(ids@.len() as int) =~= ids@);
    }

    /// Closes the lanes whose clients are gone.
    pub fn reap_detached(&mut self, detached: &Vec<u64>)
        requires
            old(self).wf(),
        ensures
            final(self).wf(),
            final(self).last_served == old(self).last_served,
            final(self).shutting_down == old(self).shutting_down,
            final(self).documents@.dom() == old(self).documents@.dom(),
            forall|id: u64| #[trigger]
                old(self).documents@.contains_key(id) ==> if detached@.contains(id) && !old(self).documents@[id].closing {
                    closed_lane(old(self).documents@[id], final(self).documents@[id])
                } else {
                    final(self).documents@[id] == old(self).documents@[id]
                },
            forall|client: u64| #[trigger]
                final(self).clients@.contains_key(client) ==> old(self).clients@.contains_key(
                    client,
                ) && final(self).clients@[client] == old(self).clients@[client],
            forall|client: u64| #[trigger]
                old(self).clients@.contains_key(client) && !final(self).clients@.contains_key(
                    client,
                ) ==> exists|id: u64| #[trigger]
                    detached@.contains(id) && old(self).documents@.contains_key(id) && old(self).documents@[id].client_id.0 == client,
            old(self).ready@.is_prefix_of(final(self).ready@),
    {
        self.close_lanes(detached);
    }

    /// How much the owner holds.
    pub open spec fn holds(&self, diagnostics: AnnotationServiceDiagnostics) -> bool {
        &&& diagnostics.clients == self.clients@.dom().len()
        &&& diagnostics.documents == self.documents@.dom().len()
        &&& diagnostics.pending_operations == pending_operations(self.documents.entries@)
    }

    /// How much the owner holds.
    pub fn diagnostics(&self) -> (diagnostics: AnnotationServiceDiagnostics)
        requires
            self.wf(),
        ensures
            self.holds(diagnostics),
    {
        let mut pending: usize = 0;
        let mut i: usize = 0;
        let ghost lanes = self.documents.entries@;
        assert(lanes.take(0) =~= Seq::empty());
        while i < self.documents.entries.len()
            invariant
                i <= lanes.len(),
                lanes == self.documents.entries@,
                pending == pending_operations(lanes.take(i as int)),
            decreases lanes.len() - i,
        {
            assert(lanes.take(i + 1).drop_last() =~= lanes.take(i as int));
            pending = pending.saturating_add(self.documents.entries[i].1.operations.len());
            i += 1;
        }
        assert(lanes.take(lanes.len() as int) =~= lanes);
        AnnotationServiceDiagnostics {
            clients: self.clients.len(),
            documents: self.documents.len(),
            pending_operations: pending,
        }
    }
}

proof fn lemma_take_contains(items: Seq<u64>, at: int, item: u64)
    requires
        0 <= at < items.len(),
    ensures
        items.take(at + 1).contains(item) == (items.take(at).contains(item) || item == items[at]),
{
    let shorter = items.take(at);
    let longer = items.take(at + 1);
    if longer.contains(item) {
        let i = choose|i: int| 0 <= i < longer.len() && longer[i] == item;
        if i < at {
            assert(shorter[i] == item);
        }
    }
    if shorter.contains(item) {
        let i = choose|i: int| 0 <= i < shorter.len() && shorter[i] == item;
        assert(longer[i] == item);
    }
    if item == items[at] {
        assert(longer[at] == item);
    }
}

/// How many operations the lanes have, or the greatest number that can be
/// counted.
pub open spec fn pending_operations(lanes: Seq<(u64, DocumentLane)>) -> int
    decreases lanes.len(),
{
    if lanes.len() == 0 {
        0
    } else {
        let total = pending_operations(lanes.drop_last()) + lanes.last().1.operations@.len();
        if total > usize::MAX {
            usize::MAX as int
        } else {
            total
        }
    }
}

/// What a client answered to an event, and the way to it after that.
pub struct SendStep<R> {
    pub route: R,
    pub answer: Result<(), AnnotationRouteError>,
}

/// Hands an event to a client.
pub fn hand_over<R: AnnotationRoute>(route: R, event: AnnotationServiceEvent) -> (step: SendStep<R>)
    ensures
        exists|client: &mut R, answer: Result<(), AnnotationRouteError>| #[trigger]
            call_ensures(R::try_send, (client, event), answer) && *client == route && *final(client)
                == step.route && answer == step.answer,
{
    let mut after = route;
    let answer = after.try_send(event);
    assert(exists|client: &mut R| #[trigger]
        call_ensures(R::try_send, (client, event), answer) && *client == route && *final(client)
            == after);
    SendStep { route: after, answer }
}

/// An event was handed to a client, which answered this; the way to it was one
/// before and another after that.
pub open spec fn was_sent<R: AnnotationRoute>(
    before: R,
    after: R,
    event: AnnotationServiceEvent,
    answer: Result<(), AnnotationRouteError>,
) -> bool {
    call_ensures(hand_over::<R>, (before, event), SendStep { route: after, answer })
}

/// An event was handed to a client that was gone.
pub open spec fn was_gone<R: AnnotationRoute>(client: R, event: AnnotationServiceEvent) -> bool {
    exists|after: R| #[trigger]
        was_sent(client, after, event, Err(AnnotationRouteError::Disconnected))
}

/// The client took the first `sent` events, one after the other. The states are
/// those of the way to it before each of them and after the last.
pub open spec fn delivered<R: AnnotationRoute>(
    client: R,
    states: Seq<R>,
    events: Seq<AnnotationServiceEvent>,
    sent: int,
) -> bool {
    &&& states.len() == sent + 1
    &&& states[0] == client
    &&& forall|i: int|
        0 <= i < sent ==> was_sent(states[i], states[i + 1], #[trigger] events[i], Ok(()))
}

/// What is left of a list of events when the client took `sent` of them. The
/// first of those left is what the client handed back.
pub open spec fn left_over<R: AnnotationRoute>(
    client: R,
    before: Seq<AnnotationServiceEvent>,
    later: R,
    after: Seq<AnnotationServiceEvent>,
    states: Seq<R>,
    sent: int,
) -> bool {
    &&& delivered(client, states, before, sent)
    &&& after.len() == before.len() - sent
    &&& if after.len() > 0 {
        after.skip(1) == before.skip(sent + 1) && was_sent(
            states.last(),
            later,
            before[sent],
            Err(AnnotationRouteError::Full(after[0])),
        )
    } else {
        later == states.last()
    }
}

/// Some of the events were delivered, from the first on.
pub open spec fn drained<R: AnnotationRoute>(
    client: R,
    before: Seq<AnnotationServiceEvent>,
    later: R,
    after: Seq<AnnotationServiceEvent>,
) -> bool {
    exists|states: Seq<R>, sent: int|
        0 <= sent <= before.len() && #[trigger] left_over(
            client,
            before,
            later,
            after,
            states,
            sent,
        )
}

/// Some of the events were delivered, from the first on, and at the next the
/// client was gone.
pub open spec fn cut_off<R: AnnotationRoute>(
    client: R,
    before: Seq<AnnotationServiceEvent>,
) -> bool {
    exists|states: Seq<R>, sent: int|
        0 <= sent < before.len() && #[trigger] delivered(client, states, before, sent) && was_gone(
            states.last(),
            before[sent],
        )
}

/// A client was tried once more: it took some of its events, or it was gone and is
/// forgotten. Nobody else was tried.
pub open spec fn tried<R: AnnotationRoute>(
    before: Map<u64, ClientSink<R>>,
    after: Map<u64, ClientSink<R>>,
    client: u64,
) -> bool {
    &&& after.remove(client) == before.remove(client)
    &&& after.contains_key(client) ==> before.contains_key(client) && before[client].drained_into(after[client])
    &&& before.contains_key(client) && !after.contains_key(client) ==> before[client].was_cut_off()
}

/// One of these lanes is the client's.
pub open spec fn serves(
    documents: Map<u64, DocumentLane>,
    lanes: Seq<u64>,
    client: u64,
) -> bool {
    exists|i: int| 0 <= i < lanes.len() && documents[#[trigger] lanes[i]].client_id.0 == client
}

/// The clients of these lanes were tried once more, and nobody else.
pub open spec fn clients_tried<R: AnnotationRoute>(
    before: Map<u64, ClientSink<R>>,
    after: Map<u64, ClientSink<R>>,
    documents: Map<u64, DocumentLane>,
    lanes: Seq<u64>,
) -> bool {
    &&& forall|client: u64| #[trigger]
        after.contains_key(client) ==> before.contains_key(client) && if serves(
            documents,
            lanes,
            client,
        ) {
            before[client].drained_into(after[client])
        } else {
            after[client] == before[client]
        }
    &&& forall|client: u64| #[trigger]
        before.contains_key(client) && !after.contains_key(client) ==> serves(
            documents,
            lanes,
            client,
        ) && before[client].was_cut_off()
}

/// With the lane in front one more client was tried.
proof fn lemma_front_tried<R: AnnotationRoute>(
    start: AnnotationActor<R>,
    before: AnnotationActor<R>,
    after: AnnotationActor<R>,
    order: Seq<u64>,
    passed: int,
)
    requires
        0 <= passed < order.len(),
        start.documents == before.documents,
        before.documents == after.documents,
        before.wf(),
        before.ready@ == order.skip(passed) + order.take(passed),
        clients_tried(start.clients@, before.clients@, start.documents@, order.take(passed)),
        forall|i: int| 0 <= i < passed ==> !before.has_room(#[trigger] order[i]),
        tried(
            before.clients@,
            after.clients@,
            before.documents@[order[passed]].client_id.0,
        ),
    ensures
        clients_tried(start.clients@, after.clients@, start.documents@, order.take(passed + 1)),
        forall|i: int| 0 <= i < passed ==> !after.has_room(#[trigger] order[i]),
{
    let documents = start.documents@;
    let client = documents[order[passed]].client_id.0;
    let fewer = order.take(passed);
    let more = order.take(passed + 1);
    assert(before.ready@[0] == order[passed]);
    assert forall|i: int| 0 <= i < passed implies documents.contains_key(#[trigger] order[i])
        && documents[order[i]].client_id.0 != client by {
        assert(before.ready@[order.len() - passed + i] == order[i]);
        assert(before.ready@[0] != before.ready@[order.len() - passed + i]);
        assert(documents.contains_key(order[passed]));
        if documents[order[i]].client_id.0 == client {
            assert(documents[order[i]].client_id == documents[order[passed]].client_id);
        }
    }
    assert(!serves(documents, fewer, client)) by {
        if serves(documents, fewer, client) {
            let i = choose|i: int|
                0 <= i < fewer.len() && documents[#[trigger] fewer[i]].client_id.0 == client;
            assert(fewer[i] == order[i]);
        }
    }
    assert(serves(documents, more, client)) by {
        assert(more[passed] == order[passed]);
    }
    assert forall|other: u64| other != client implies #[trigger] serves(documents, more, other)
        == serves(documents, fewer, other) by {
        if serves(documents, more, other) {
            let i = choose|i: int|
                0 <= i < more.len() && documents[#[trigger] more[i]].client_id.0 == other;
            assert(more[i] == order[i]);
            assert(fewer[i] == order[i]);
        }
        if serves(documents, fewer, other) {
            let i = choose|i: int|
                0 <= i < fewer.len() && documents[#[trigger] fewer[i]].client_id.0 == other;
            assert(fewer[i] == order[i]);
            assert(more[i] == order[i]);
        }
    }
    assert forall|other: u64| other != client implies after.clients@.contains_key(other)
        == before.clients@.contains_key(other) && (#[trigger] after.clients@.contains_key(other)
        ==> after.clients@[other] == before.clients@[other]) by {
        assert(after.clients@.remove(client).contains_key(other) == after.clients@.contains_key(
            other,
        ));
        assert(before.clients@.remove(client).contains_key(other) == before.clients@.contains_key(
            other,
        ));
        assert(after.clients@.remove(client)[other] == before.clients@.remove(client)[other]);
    }
    assert forall|i: int| 0 <= i < passed implies !after.has_room(#[trigger] order[i]) by {
        assert(!before.has_room(order[i]));
        let other = documents[order[i]].client_id.0;
        assert(after.clients@.contains_key(other) == before.clients@.contains_key(other));
    }
    assert forall|other: u64| #[trigger] after.clients@.contains_key(other) implies
        start.clients@.contains_key(other) && if serves(documents, more, other) {
        start.clients@[other].drained_into(after.clients@[other])
    } else {
        after.clients@[other] == start.clients@[other]
    } by {
        assert(before.clients@.contains_key(other));
    }
    assert forall|other: u64| #[trigger]
        start.clients@.contains_key(other) && !after.clients@.contains_key(other) implies serves(
        documents,
        more,
        other,
    ) && start.clients@[other].was_cut_off() by {
        if before.clients@.contains_key(other) {
            assert(other == client);
        } else if other != client {
            assert(serves(documents, fewer, other));
        }
    }
}

impl<R: AnnotationRoute> ClientSink<R> {
    /// Some of what waited was delivered, from the first on, and the rest waits.
    pub open spec fn drained_into(self, after: Self) -> bool {
        drained(self.route, self.pending@, after.route, after.pending@)
    }

    /// Some of what waited was delivered, from the first on, and at the next the
    /// client was gone.
    pub open spec fn was_cut_off(self) -> bool {
        cut_off(self.route, self.pending@)
    }

    /// Delivers events until one is handed back. Returns the client, or nothing
    /// where it is gone.
    pub fn flush(self) -> (kept: Option<Self>)
        ensures
            match kept {
                Some(after) => self.drained_into(after)
                    && after.pending@.len() <= self.pending@.len(),
                None => self.was_cut_off(),
            },
    {
        let ghost start = self.pending@;
        let ghost first = self.route;
        let mut route = self.route;
        let mut pending = self.pending;
        let ghost mut sent: int = 0;
        let ghost mut states: Seq<R> = seq![route];
        assert(start.skip(0) =~= start);
        while pending.len() > 0
            invariant
                0 <= sent <= start.len(),
                pending@ == start.skip(sent),
                start == self.pending@,
                first == self.route,
                delivered(first, states, start, sent),
                route == states.last(),
            decreases pending@.len(),
        {
            let event = pending.remove(0);
            let ghost handed = event;
            assert(handed == start[sent]);
            assert(pending@ =~= start.skip(sent + 1));
            let step = hand_over(route, event);
            let ghost after = step.route;
            let ghost answer = step.answer;
            assert(was_sent(states.last(), after, handed, answer));
            route = step.route;
            match step.answer {
                Ok(()) => {
                    proof {
                        assert(answer->Ok_0 == ());
                        let later = states.push(after);
                        assert forall|i: int| 0 <= i < sent + 1 implies was_sent(
                            later[i],
                            later[i + 1],
                            #[trigger] start[i],
                            Ok(()),
                        ) by {
                            if i < sent {
                                assert(was_sent(states[i], states[i + 1], start[i], Ok(())));
                            } else {
                                assert(later[i] == states.last());
                            }
                        }
                        states = later;
                        sent = sent + 1;
                    }
                },
                Err(AnnotationRouteError::Full(event)) => {
                    let ghost rest = pending@;
                    pending.insert(0, event);
                    proof {
                        assert(pending@.skip(1) =~= rest);
                        assert(left_over(first, start, after, pending@, states, sent));
                    }
                    return Some(ClientSink { route, pending });
                },
                Err(AnnotationRouteError::Disconnected) => {
                    proof {
                        assert(was_gone(states.last(), start[sent]));
                        assert(delivered(first, states, start, sent));
                    }
                    return None;
                },
            }
        }
        assert(left_over(first, start, route, pending@, states, sent));
        Some(ClientSink { route, pending })
    }
}

/// What a client has waiting after an event came for it. With nothing waiting
/// the event goes out at once, unless the client cannot take it or is gone.
pub open spec fn notified<R: AnnotationRoute>(
    before: Map<u64, ClientSink<R>>,
    after: Map<u64, ClientSink<R>>,
    client: u64,
    event: AnnotationServiceEvent,
) -> bool {
    &&& after.remove(client) == before.remove(client)
    &&& !before.contains_key(client) ==> !after.contains_key(client)
    &&& before.contains_key(client) && before[client].pending@.len() > 0 ==> {
        &&& after.contains_key(client)
        &&& after[client].pending@ == before[client].pending@.push(event)
        &&& after[client].route == before[client].route
    }
    &&& before.contains_key(client) && before[client].pending@.len() == 0 && after.contains_key(
        client,
    ) ==> drained(before[client].route, seq![event], after[client].route, after[client].pending@)
    &&& before.contains_key(client) && before[client].pending@.len() == 0 && !after.contains_key(
        client,
    ) ==> cut_off(before[client].route, seq![event])
}

/// The order in which lanes are asked: the one that had the latest turn goes
/// behind the others.
pub open spec fn asking_order(ready: Seq<u64>, last_served: Option<u64>) -> Seq<u64> {
    if ready.len() > 1 && last_served == Some(ready[0]) {
        ready.skip(1).push(ready[0])
    } else {
        ready
    }
}

/// What is to be done outside.
#[derive(Debug)]
pub enum ServiceTask {
    /// Nothing.
    Nothing,
    /// Read the document's identity and its annotations.
    Load { generation: u64, path: Vec<u8>, page_count: usize },
    /// Save annotations.
    Save { generation: u64, document: DocumentKey, expected_revision: u64, annotations: AnnotationSet },
}

/// A save is of an opening that the lane has left behind.
pub open spec fn is_stale(lane: DocumentLane, generation: u64, path: Seq<u8>) -> bool {
    ||| (lane.active_generation is Some && lane.active_generation != Some(generation))
    ||| (lane.active_path matches Some(active) && crate::store::source_path::place_of(active@)
        != crate::store::source_path::place_of(path))
}

/// A lane after one operation was taken off it.
pub open spec fn advanced(before: DocumentLane, after: DocumentLane) -> bool {
    &&& after.client_id == before.client_id
    &&& after.closing == before.closing
    &&& after.operations@ == before.operations@.skip(1)
    &&& after.scheduled == (before.operations@.len() > 1)
}

/// The lanes that wait after a lane in front had its turn.
pub open spec fn turns_after(ready: Seq<u64>, lane: DocumentLane) -> Seq<u64> {
    if lane.operations@.len() > 1 {
        ready.skip(1).push(ready[0])
    } else {
        ready.skip(1)
    }
}

impl<R> AnnotationActor<R> {
    /// The client of a document can be told one more thing, or is not there.
    pub open spec fn has_room(&self, id: u64) -> bool {
        self.documents@.contains_key(id) && self.clients@.contains_key(
            self.documents@[id].client_id.0,
        ) ==> self.clients@[self.documents@[id].client_id.0].pending@.len()
            < PENDING_EVENT_CAPACITY
    }

    /// Whether the client of a document can be told one more thing.
    pub fn can_notify(&self, document: AnnotationDocumentId) -> (room: bool)
        requires
            self.wf(),
        ensures
            room == self.has_room(document.0),
    {
        match self.documents.get(&document.0) {
            None => true,
            Some(lane) => match self.clients.get(&lane.client_id.0) {
                None => true,
                Some(sink) => sink.pending.len() < PENDING_EVENT_CAPACITY,
            },
        }
    }

    /// Something waits to be delivered.
    pub open spec fn undelivered(&self) -> bool {
        exists|client: u64| #[trigger]
            self.clients@.contains_key(client) && self.clients@[client].pending@.len() > 0
    }

    fn has_undelivered(&self) -> (waiting: bool)
        requires
            self.wf(),
        ensures
            waiting == self.undelivered(),
    {
        let mut i: usize = 0;
        while i < self.clients.entries.len()
            invariant
                self.wf(),
                i <= self.clients.entries@.len(),
                forall|j: int|
                    0 <= j < i ==> (#[trigger] self.clients.entries@[j]).1.pending@.len() == 0,
            decreases self.clients.entries@.len() - i,
        {
            if self.clients.entries[i].1.pending.len() > 0 {
                proof {
                    crate::keyed::lemma_entry(self.clients.entries@, i as int);
                    assert(self.clients@.contains_key(self.clients.entries@[i as int].0@));
                }
                return true;
            }
            i += 1;
        }
        proof {
            assert forall|client: u64| #[trigger] self.clients@.contains_key(client) implies
                self.clients@[client].pending@.len() == 0 by {
                let j = choose|j: int| crate::keyed::holds_at(self.clients.entries@, client, j);
                crate::keyed::lemma_entry(self.clients.entries@, j);
                assert(self.clients.entries@[j].1.pending@.len() == 0);
            }
        }
        false
    }

    /// Whether the owner may wait for the next command: nothing is to be done,
    /// delivered or answered.
    pub fn may_wait(&self, inspections_wait: bool, mailbox_open: bool) -> (may: bool)
        requires
            self.wf(),
        ensures
            may == (self.ready@.len() == 0 && !inspections_wait && !self.undelivered()
                && !self.shutting_down && mailbox_open),
    {
        self.ready.len() == 0 && !inspections_wait && !self.has_undelivered()
            && !self.shutting_down && mailbox_open
    }

    /// Whether the owner is to try again a little later: no lane could take a
    /// turn, and something still waits.
    pub fn must_retry(&self, mailbox_open: bool) -> (must: bool)
        requires
            self.wf(),
        ensures
            must == ((self.ready@.len() > 0 || self.undelivered()) && mailbox_open
                && !self.shutting_down),
    {
        (self.ready.len() > 0 || self.has_undelivered()) && mailbox_open && !self.shutting_down
    }

    /// Whether the owner is done.
    pub fn is_over(&self, mailbox_open: bool) -> (over: bool)
        ensures
            over == (self.shutting_down || !mailbox_open),
    {
        self.shutting_down || !mailbox_open
    }
}

impl<R: AnnotationRoute> AnnotationActor<R> {
    /// Delivers what clients can take, and forgets those that are gone.
    pub fn flush_all_clients(&mut self)
        requires
            old(self).wf(),
        ensures
            final(self).wf(),
            final(self).documents == old(self).documents,
            final(self).ready == old(self).ready,
            final(self).shutting_down == old(self).shutting_down,
            final(self).last_served == old(self).last_served,
            forall|client: u64| #[trigger]
                final(self).clients@.contains_key(client) ==> old(self).clients@.contains_key(
                    client,
                ) && old(self).clients@[client].drained_into(final(self).clients@[client]),
            forall|client: u64| #[trigger]
                old(self).clients@.contains_key(client) && !final(self).clients@.contains_key(
                    client,
                ) ==> old(self).clients@[client].was_cut_off(),
    {
        let mut ids: Vec<u64> = Vec::new();
        let mut i: usize = 0;
        while i < self.clients.entries.len()
            invariant
                i <= self.clients.entries@.len(),
                ids@.len() == i,
                forall|j: int| 0 <= j < i ==> #[trigger] ids@[j] == self.clients.entries@[j].0,
            decreases self.clients.entries@.len() - i,
        {
            ids.push(self.clients.entries[i].0);
            i += 1;
        }
        proof {
            assert forall|client: u64| #[trigger] self.clients@.contains_key(client) implies
                ids@.contains(client) by {
                let j = choose|j: int| crate::keyed::holds_at(self.clients.entries@, client, j);
                assert(ids@[j] == client);
            }
            assert(self.clients.entries@.len() == ids@.len());
            assert forall|a: int, b: int| 0 <= a < b < ids@.len() implies ids@[a] != ids@[b] by {
                assert(self.clients.entries@[a].0@ != self.clients.entries@[b].0@);
            }
            assert forall|j: int| 0 <= j < ids@.len() implies self.clients@.contains_key(
                #[trigger] ids@[j],
            ) by {
                crate::keyed::lemma_entry(self.clients.entries@, j);
            }
        }
        let ghost start = *self;
        let mut k: usize = 0;
        while k < ids.len()
            invariant
                start == *old(self),
                self.wf(),
                k <= ids@.len(),
                self.documents == start.documents,
                self.ready == start.ready,
                self.shutting_down == start.shutting_down,
                self.last_served == start.last_served,
                forall|a: int, b: int| 0 <= a < b < ids@.len() ==> ids@[a] != ids@[b],
                forall|client: u64| #[trigger]
                    start.clients@.contains_key(client) ==> ids@.contains(client),
                forall|client: u64| #[trigger]
                    self.clients@.contains_key(client) ==> start.clients@.contains_key(client),
                forall|j: int|
                    0 <= j < k && self.clients@.contains_key(#[trigger] ids@[j]) ==> start.clients@[ids@[j]].drained_into(self.clients@[ids@[j]]),
                forall|j: int|
                    k <= j < ids@.len() && self.clients@.contains_key(#[trigger] ids@[j])
                        ==> self.clients@[ids@[j]] == start.clients@[ids@[j]],
                forall|j: int|
                    k <= j < ids@.len() ==> self.clients@.contains_key(#[trigger] ids@[j]),
                forall|j: int|
                    0 <= j < k && !self.clients@.contains_key(#[trigger] ids@[j]) ==> start.clients@[ids@[j]].was_cut_off(),
            decreases ids@.len() - k,
        {
            let ghost before = *self;
            let id = ids[k];
            self.flush_client(id);
            proof {
                assert(id == ids@[k as int]);
                assert forall|j: int| 0 <= j < ids@.len() && j != k implies
                    self.clients@.contains_key(#[trigger] ids@[j]) == before.clients@.contains_key(
                    ids@[j],
                ) by {
                    assert(ids@[j] != id);
                    assert(self.clients@.remove(id).contains_key(ids@[j])
                        == before.clients@.remove(id).contains_key(ids@[j]));
                }
                assert forall|j: int|
                    0 <= j < ids@.len() && j != k && self.clients@.contains_key(
                        #[trigger] ids@[j],
                    ) implies before.clients@.contains_key(ids@[j]) && self.clients@[ids@[j]]
                    == before.clients@[ids@[j]] by {
                    assert(ids@[j] != id);
                    assert(self.clients@.remove(id).contains_key(ids@[j]));
                    assert(self.clients@.remove(id)[ids@[j]] == before.clients@.remove(
                        id,
                    )[ids@[j]]);
                }
                assert forall|client: u64| #[trigger] self.clients@.contains_key(client) implies
                    start.clients@.contains_key(client) by {
                    if client != id {
                        assert(self.clients@.remove(id).contains_key(client));
                        assert(before.clients@.contains_key(client));
                    } else {
                        assert(before.clients@.contains_key(client));
                    }
                }
            }
            k += 1;
        }
        proof {
            assert forall|client: u64| #[trigger] self.clients@.contains_key(client) implies
                start.clients@.contains_key(client) && start.clients@[client].drained_into(self.clients@[client]) by {
                assert(ids@.contains(client));
                let j = choose|j: int| 0 <= j < ids@.len() && ids@[j] == client;
                assert(self.clients@.contains_key(ids@[j]));
            }
            assert forall|client: u64| #[trigger]
                start.clients@.contains_key(client) && !self.clients@.contains_key(
                    client,
                ) implies start.clients@[client].was_cut_off() by {
                let j = choose|j: int| 0 <= j < ids@.len() && ids@[j] == client;
                assert(!self.clients@.contains_key(ids@[j]));
            }
        }
    }

    /// Delivers what one client can take, and forgets it where it is gone.
    fn flush_client(&mut self, client: u64)
        requires
            old(self).wf(),
        ensures
            final(self).wf(),
            final(self).documents == old(self).documents,
            final(self).ready == old(self).ready,
            final(self).shutting_down == old(self).shutting_down,
            final(self).last_served == old(self).last_served,
            final(self).clients@.remove(client) == old(self).clients@.remove(client),
            final(self).clients@.contains_key(client) ==> old(self).clients@.contains_key(client)
                && old(self).clients@[client].drained_into(final(self).clients@[client]),
            old(self).clients@.contains_key(client) && !final(self).clients@.contains_key(client)
                ==> old(self).clients@[client].was_cut_off(),
    {
        let ghost start = *self;
        if let Some(sink) = self.clients.remove(&client) {
            if let Some(sink) = sink.flush() {
                self.clients.insert(client, sink);
            }
        }
        assert(self.clients@.remove(client) =~= start.clients@.remove(client));
        proof {
            assert forall|other: u64| #[trigger] self.clients@.contains_key(other) implies
                start.clients@.contains_key(other) && self.clients@[other].pending@.len()
                <= PENDING_EVENT_CAPACITY by {
                if other != client {
                    assert(self.clients@.remove(client).contains_key(other));
                    assert(self.clients@[other] == start.clients@[other]);
                }
                assert(start.clients@.contains_key(other));
            }
            lemma_fewer_clients(
                start.clients@,
                self.clients@,
                self.documents@,
                self.ready@,
            );
        }
    }

    /// Tells a client something.
    fn send_event(&mut self, event: AnnotationServiceEvent)
        requires
            old(self).wf(),
            old(self).clients@.contains_key(event.client_id.0) ==> old(self).clients@[event.client_id.0].pending@.len() < PENDING_EVENT_CAPACITY,
        ensures
            final(self).wf(),
            final(self).documents == old(self).documents,
            final(self).ready == old(self).ready,
            final(self).shutting_down == old(self).shutting_down,
            final(self).last_served == old(self).last_served,
            notified(old(self).clients@, final(self).clients@, event.client_id.0, event),
    {
        let ghost start = *self;
        let client = event.client_id.0;
        if let Some(sink) = self.clients.remove(&client) {
            let mut sink = sink;
            let idle = sink.pending.len() == 0;
            sink.pending.push(event);
            if idle {
                assert(sink.pending@ =~= seq![event]);
                if let Some(sink) = sink.flush() {
                    self.clients.insert(client, sink);
                }
            } else {
                self.clients.insert(client, sink);
            }
        }
        assert(self.clients@.remove(client) =~= start.clients@.remove(client));
        proof {
            assert forall|other: u64| #[trigger] self.clients@.contains_key(other) implies
                start.clients@.contains_key(other) && self.clients@[other].pending@.len()
                <= PENDING_EVENT_CAPACITY by {
                if other != client {
                    assert(self.clients@.remove(client).contains_key(other));
                    assert(self.clients@[other] == start.clients@[other]);
                }
                assert(start.clients@.contains_key(other));
            }
            lemma_fewer_clients(
                start.clients@,
                self.clients@,
                self.documents@,
                self.ready@,
            );
        }
    }

    /// Whether the lane in front can take its turn. A client that is to be told
    /// something is tried once more first.
    fn front_is_eligible(&mut self) -> (eligible: bool)
        requires
            old(self).wf(),
            old(self).ready@.len() > 0,
        ensures
            final(self).wf(),
            final(self).documents == old(self).documents,
            final(self).ready == old(self).ready,
            final(self).shutting_down == old(self).shutting_down,
            final(self).last_served == old(self).last_served,
            tried(
                old(self).clients@,
                final(self).clients@,
                old(self).documents@[old(self).ready@[0]].client_id.0,
            ),
            eligible ==> final(self).has_room(old(self).ready@[0]),
            !eligible ==> !final(self).documents@[old(self).ready@[0]].closing && !final(self).has_room(old(self).ready@[0]),
    {
        let id = self.ready[0];
        assert(self.documents@.contains_key(self.ready@[0]));
        let (closing, client) = match self.documents.get(&id) {
            Some(lane) => (lane.closing, lane.client_id.0),
            None => {
                return true;
            },
        };
        if closing {
            assert(!self.clients@.contains_key(client));
            return true;
        }
        self.flush_client(client);
        match self.clients.get(&client) {
            None => true,
            Some(sink) => sink.pending.len() < PENDING_EVENT_CAPACITY,
        }
    }

    /// Brings a lane to the front that can take its turn. Returns whether there
    /// is one; the lanes that were passed over go behind, in the same order.
    fn bring_to_front(&mut self) -> (found: bool)
        requires
            old(self).wf(),
        ensures
            final(self).wf(),
            final(self).documents == old(self).documents,
            final(self).shutting_down == old(self).shutting_down,
            final(self).last_served == old(self).last_served,
            found ==> brought(*old(self), *final(self)),
            !found ==> none_brought(*old(self), *final(self)),
    {
        let ghost start = *self;
        let count: usize = self.ready.len();
        let repeated = match self.last_served {
            Some(last) => count > 1 && self.ready[0] == last,
            None => false,
        };
        if repeated {
            let first = self.ready.remove(0);
            self.ready.push(first);
            proof {
                let order = start.ready@.skip(1).push(start.ready@[0]);
                assert(self.ready@ =~= order);
                assert(order =~= start.ready@.skip(1) + start.ready@.take(1));
                lemma_reordered(
                    start.clients@,
                    start.documents@,
                    start.ready@,
                    order,
                    1,
                );
            }
        }
        let ghost order = self.ready@;
        assert(order == asking_order(start.ready@, start.last_served));
        let mut passed: usize = 0;
        assert(order =~= order.skip(0) + order.take(0));
        assert(self.wf());
        while passed < count
            invariant
                start == *old(self),
                self.wf(),
                count == order.len(),
                passed <= count,
                order == asking_order(start.ready@, start.last_served),
                self.ready@ == order.skip(passed as int) + order.take(passed as int),
                self.documents == start.documents,
                self.shutting_down == start.shutting_down,
                self.last_served == start.last_served,
                clients_tried(
                    start.clients@,
                    self.clients@,
                    start.documents@,
                    order.take(passed as int),
                ),
                forall|i: int| 0 <= i < passed ==> !self.has_room(#[trigger] order[i]),
            decreases count - passed,
        {
            let ghost earlier = *self;
            assert(self.ready@[0] == order[passed as int]);
            let eligible = self.front_is_eligible();
            proof {
                lemma_front_tried(start, earlier, *self, order, passed as int);
            }
            if eligible {
                assert(brought_past(start, *self, order, passed as int));
                return true;
            }
            let ghost before = *self;
            let first = self.ready.remove(0);
            self.ready.push(first);
            proof {
                let next = order.skip(passed + 1) + order.take(passed + 1);
                assert(self.ready@ =~= next);
                assert(next =~= before.ready@.skip(1) + before.ready@.take(1));
                lemma_reordered(before.clients@, before.documents@, before.ready@, next, 1);
            }
            passed += 1;
        }
        assert(order.skip(count as int) + order.take(count as int) =~= order);
        assert(order.take(count as int) =~= order);
        false
    }
}

/// The words of a save that came too late.
pub const STALE_SAVE: &'static str = "ignored a stale annotation document generation";

/// The event of a failure.
pub open spec fn tells_failure(
    event: AnnotationServiceEvent,
    client: AnnotationClientId,
    document: u64,
    generation: u64,
    operation: AnnotationServiceOperation,
    revision: Option<u64>,
    message: Seq<char>,
) -> bool {
    &&& event.client_id == client
    &&& event.document_id.0 == document
    &&& event.generation == generation
    &&& event.kind matches AnnotationServiceEventKind::Failed {
        operation: failed,
        revision: at,
        message: words,
    } && failed == operation && at == revision && words@ == message
}

/// The lane in front had its turn: this is what became of the owner, and this
/// is to be done outside.
pub open spec fn begun<R: AnnotationRoute>(
    before: AnnotationActor<R>,
    after: AnnotationActor<R>,
    task: ServiceTask,
) -> bool {
    let id = before.ready@[0];
    let lane = before.documents@[id];
    let next = after.documents@[id];
    match lane.operations@[0] {
        Operation::Detach => {
            &&& task is Nothing
            &&& after.clients@ == before.clients@.remove(lane.client_id.0)
            &&& after.documents@ == before.documents@.remove(id)
            &&& after.ready@ == before.ready@.skip(1)
        },
        Operation::Load { generation, path, page_count } => {
            &&& task == ServiceTask::Load { generation, path, page_count }
            &&& after.clients == before.clients
            &&& after.documents@ == before.documents@.insert(id, next)
            &&& advanced(lane, next)
            &&& next.active_generation == Some(generation)
            &&& optional_path(next.active_path) == Some(path@)
            &&& next.observed_disk_revision is None
            &&& after.ready@ == turns_after(before.ready@, lane)
            &&& after.has_room(id)
        },
        Operation::Save { generation, path, identity, expected_disk_revision, annotations } =>
            if is_stale(lane, generation, path@) {
                &&& task is Nothing
                &&& exists|event: AnnotationServiceEvent| #[trigger]
                    notified(before.clients@, after.clients@, lane.client_id.0, event)
                        && tells_failure(
                        event,
                        lane.client_id,
                        id,
                        generation,
                        AnnotationServiceOperation::Save,
                        Some(annotations@.revision),
                        STALE_SAVE@,
                    )
                &&& after.documents@ == before.documents@.insert(id, next)
                &&& advanced(lane, next)
                &&& next.active_generation == lane.active_generation
                &&& next.active_path == lane.active_path
                &&& next.observed_disk_revision == lane.observed_disk_revision
                &&& after.ready@ == turns_after(before.ready@, lane)
            } else {
                &&& task matches ServiceTask::Save {
                    generation: saved_generation,
                    document,
                    expected_revision,
                    annotations: saved,
                } && saved_generation == generation && document.spec_path() == path@
                    && document.spec_identity() == identity@ && saved == annotations
                    && expected_revision == match lane.observed_disk_revision {
                    Some(observed) => observed,
                    None => expected_disk_revision,
                }
                &&& after.clients == before.clients
                &&& after.documents@ == before.documents@.insert(id, next)
                &&& advanced(lane, next)
                &&& next.active_generation == Some(generation)
                &&& optional_path(next.active_path) == Some(path@)
                &&& next.observed_disk_revision == lane.observed_disk_revision
                &&& after.ready@ == turns_after(before.ready@, lane)
                &&& after.has_room(id)
            },
    }
}

/// A lane that can take its turn was brought to the front.
pub open spec fn brought<R: AnnotationRoute>(
    before: AnnotationActor<R>,
    after: AnnotationActor<R>,
) -> bool {
    let order = asking_order(before.ready@, before.last_served);
    exists|passed: int| #[trigger] brought_past(before, after, order, passed)
}

/// In this order a lane that can take its turn was brought to the front. Those that
/// it passed could not: their clients were tried once more and can still not be
/// told anything.
pub open spec fn brought_past<R: AnnotationRoute>(
    before: AnnotationActor<R>,
    after: AnnotationActor<R>,
    order: Seq<u64>,
    passed: int,
) -> bool {
    &&& 0 <= passed < order.len()
    &&& after.documents == before.documents
    &&& after.last_served == before.last_served
    &&& after.ready@ == order.skip(passed) + order.take(passed)
    &&& after.has_room(order[passed])
    &&& forall|i: int| 0 <= i < passed ==> !after.has_room(#[trigger] order[i])
    &&& clients_tried(before.clients@, after.clients@, before.documents@, order.take(passed + 1))
}

/// No lane can take its turn, though the clients of all that wait were tried once
/// more.
pub open spec fn none_brought<R: AnnotationRoute>(
    before: AnnotationActor<R>,
    after: AnnotationActor<R>,
) -> bool {
    let order = asking_order(before.ready@, before.last_served);
    &&& after.documents == before.documents
    &&& after.last_served == before.last_served
    &&& after.ready@ == order
    &&& forall|i: int| 0 <= i < order.len() ==> !after.has_room(#[trigger] order[i])
    &&& clients_tried(before.clients@, after.clients@, before.documents@, order)
}

/// A turn was taken.
pub open spec fn turn_taken<R: AnnotationRoute>(
    before: AnnotationActor<R>,
    after: AnnotationActor<R>,
    document: AnnotationDocumentId,
    task: ServiceTask,
) -> bool {
    exists|middle: AnnotationActor<R>| #[trigger]
        brought(before, middle) && begun(middle, after, task) && document.0 == middle.ready@[0]
            && after.last_served == Some(document.0)
}

impl<R: AnnotationRoute> AnnotationActor<R> {
    /// Gives the lane in front its turn.
    fn begin(&mut self) -> (task: ServiceTask)
        requires
            old(self).wf(),
            old(self).ready@.len() > 0,
            old(self).has_room(old(self).ready@[0]),
        ensures
            final(self).wf(),
            final(self).shutting_down == old(self).shutting_down,
            final(self).last_served == Some(old(self).ready@[0]),
            begun(*old(self), *final(self), task),
    {
        let ghost start = *self;
        assert(self.documents@.contains_key(self.ready@[0]));
        let id = self.ready.remove(0);
        assert(self.ready@ =~= start.ready@.skip(1));
        self.last_served = Some(id);
        let mut lane = match self.documents.remove(&id) {
            Some(lane) => lane,
            None => {
                return ServiceTask::Nothing;
            },
        };
        assert(lane.operations@.len() > 0);
        let ghost first = lane;
        let operation = lane.operations.remove(0);
        assert(lane.operations@ =~= first.operations@.skip(1));
        let more = lane.operations.len() > 0;
        lane.scheduled = more;
        match operation {
            Operation::Detach => {
                self.clients.remove(&lane.client_id.0);
                proof {
                    lemma_detached(
                        start.clients@,
                        start.documents@,
                        start.ready@,
                        lane.client_id.0,
                    );
                }
                ServiceTask::Nothing
            },
            Operation::Load { generation, path, page_count } => {
                lane.active_generation = Some(generation);
                lane.active_path = Some(path.copy_key());
                lane.observed_disk_revision = None;
                self.return_lane(id, lane, Ghost(start));
                ServiceTask::Load { generation, path, page_count }
            },
            Operation::Save { generation, path, identity, expected_disk_revision, annotations } => {
                let revision: u64 = annotations.revision();
                let client_id = lane.client_id;
                let other_generation = match lane.active_generation {
                    Some(active) => active != generation,
                    None => false,
                };
                let other_path = match &lane.active_path {
                    Some(active) => !same_place(active, &path),
                    None => false,
                };
                if other_generation || other_path {
                    self.return_lane(id, lane, Ghost(start));
                    let event = AnnotationServiceEvent {
                        client_id,
                        document_id: AnnotationDocumentId(id),
                        generation,
                        kind: AnnotationServiceEventKind::Failed {
                            operation: AnnotationServiceOperation::Save,
                            revision: Some(revision),
                            message: STALE_SAVE.to_owned(),
                        },
                    };
                    self.send_event(event);
                    assert(notified(start.clients@, self.clients@, client_id.0, event));
                    return ServiceTask::Nothing;
                }
                lane.active_generation = Some(generation);
                lane.active_path = Some(path.copy_key());
                let expected_revision: u64 = match lane.observed_disk_revision {
                    Some(observed) => observed,
                    None => expected_disk_revision,
                };
                self.return_lane(id, lane, Ghost(start));
                ServiceTask::Save {
                    generation,
                    document: DocumentKey::new(path, identity),
                    expected_revision,
                    annotations,
                }
            },
        }
    }

    /// Puts the lane that had its turn back, behind the others where it has
    /// more to do.
    fn return_lane(&mut self, id: u64, lane: DocumentLane, Ghost(before): Ghost<AnnotationActor<R>>)
        requires
            before.wf(),
            before.ready@.len() > 0,
            before.ready@[0] == id,
            before.documents@.contains_key(id),
            old(self).clients == before.clients,
            old(self).documents.wf(),
            old(self).documents@ == before.documents@.remove(id),
            old(self).ready@ == before.ready@.skip(1),
            advanced(before.documents@[id], lane),
        ensures
            final(self).wf(),
            final(self).clients == before.clients,
            final(self).shutting_down == old(self).shutting_down,
            final(self).last_served == old(self).last_served,
            final(self).documents@ == before.documents@.insert(id, lane),
            final(self).ready@ == turns_after(before.ready@, before.documents@[id]),
    {
        proof {
            lemma_served(before.clients@, before.documents@, before.ready@, lane);
        }
        if lane.operations.len() > 0 {
            self.ready.push(id);
        }
        self.documents.insert(id, lane);
        assert(self.documents@ =~= before.documents@.insert(id, lane));
    }

    /// Gives one lane its turn: the next that has something to do and whose
    /// client can be told of it.
    pub fn take_turn(&mut self) -> (turn: Option<(AnnotationDocumentId, ServiceTask)>)
        requires
            old(self).wf(),
        ensures
            final(self).wf(),
            final(self).shutting_down == old(self).shutting_down,
            match turn {
                Some((document, task)) => turn_taken(*old(self), *final(self), document, task),
                None => none_brought(*old(self), *final(self)),
            },
    {
        let ghost start = *self;
        if !self.bring_to_front() {
            return None;
        }
        let ghost middle = *self;
        proof {
            let order = asking_order(start.ready@, start.last_served);
            let passed = choose|passed: int| #[trigger]
                brought_past(start, middle, order, passed);
            assert(self.ready@[0] == order[passed]);
        }
        let id = self.ready[0];
        let task = self.begin();
        assert(brought(start, middle));
        assert(turn_taken(start, *self, AnnotationDocumentId(id), task));
        Some((AnnotationDocumentId(id), task))
    }

    /// A load has ended.
    pub fn finish_load(
        &mut self,
        document: AnnotationDocumentId,
        generation: u64,
        outcome: Result<(DocumentIdentity, AnnotationSet), StoreError>,
    )
        requires
            old(self).wf(),
            old(self).has_room(document.0),
        ensures
            final(self).wf(),
            final(self).shutting_down == old(self).shutting_down,
            final(self).last_served == old(self).last_served,
            final(self).ready@ == old(self).ready@,
            !old(self).documents@.contains_key(document.0) ==> final(self).clients@ == old(self).clients@ && final(self).documents@ == old(self).documents@,
            old(self).documents@.contains_key(document.0) ==> {
                let lane = old(self).documents@[document.0];
                match outcome {
                    Ok((identity, annotations)) => {
                        &&& final(self).documents@ == old(self).documents@.insert(
                            document.0,
                            DocumentLane {
                                observed_disk_revision: Some(annotations@.revision),
                                ..lane
                            },
                        )
                        &&& notified(
                            old(self).clients@,
                            final(self).clients@,
                            lane.client_id.0,
                            AnnotationServiceEvent {
                                client_id: lane.client_id,
                                document_id: document,
                                generation,
                                kind: AnnotationServiceEventKind::Loaded { identity, annotations },
                            },
                        )
                    },
                    Err(error) => {
                        &&& final(self).documents@ == old(self).documents@
                        &&& exists|event: AnnotationServiceEvent| #[trigger]
                            notified(
                                old(self).clients@,
                                final(self).clients@,
                                lane.client_id.0,
                                event,
                            ) && tells_failure(
                                event,
                                lane.client_id,
                                document.0,
                                generation,
                                AnnotationServiceOperation::Load,
                                None,
                                error@.message_text(),
                            )
                    },
                }
            },
    {
        match outcome {
            Ok((identity, annotations)) => {
                let revision: u64 = annotations.revision();
                let kind = AnnotationServiceEventKind::Loaded { identity, annotations };
                self.observe_and_tell(document, generation, Some(revision), kind);
            },
            Err(error) => {
                let kind = AnnotationServiceEventKind::Failed {
                    operation: AnnotationServiceOperation::Load,
                    revision: None,
                    message: error.message(),
                };
                self.observe_and_tell(document, generation, None, kind);
            },
        }
    }

    /// A save has ended.
    pub fn finish_save(
        &mut self,
        document: AnnotationDocumentId,
        generation: u64,
        revision: u64,
        outcome: Result<SaveReceipt, StoreError>,
    )
        requires
            old(self).wf(),
            old(self).has_room(document.0),
        ensures
            final(self).wf(),
            final(self).shutting_down == old(self).shutting_down,
            final(self).last_served == old(self).last_served,
            final(self).ready@ == old(self).ready@,
            !old(self).documents@.contains_key(document.0) ==> final(self).clients@ == old(self).clients@ && final(self).documents@ == old(self).documents@,
            old(self).documents@.contains_key(document.0) ==> {
                let lane = old(self).documents@[document.0];
                match outcome {
                    Ok(receipt) => {
                        &&& final(self).documents@ == old(self).documents@.insert(
                            document.0,
                            DocumentLane {
                                observed_disk_revision: Some(receipt.saved_revision),
                                ..lane
                            },
                        )
                        &&& notified(
                            old(self).clients@,
                            final(self).clients@,
                            lane.client_id.0,
                            AnnotationServiceEvent {
                                client_id: lane.client_id,
                                document_id: document,
                                generation,
                                kind: AnnotationServiceEventKind::Saved {
                                    revision: receipt.saved_revision,
                                },
                            },
                        )
                    },
                    Err(error) => {
                        &&& final(self).documents@ == old(self).documents@
                        &&& exists|event: AnnotationServiceEvent| #[trigger]
                            notified(
                                old(self).clients@,
                                final(self).clients@,
                                lane.client_id.0,
                                event,
                            ) && tells_failure(
                                event,
                                lane.client_id,
                                document.0,
                                generation,
                                AnnotationServiceOperation::Save,
                                Some(revision),
                                error@.message_text(),
                            )
                    },
                }
            },
    {
        match outcome {
            Ok(receipt) => {
                let kind = AnnotationServiceEventKind::Saved { revision: receipt.saved_revision };
                self.observe_and_tell(
                    document,
                    generation,
                    Some(receipt.saved_revision),
                    kind,
                );
            },
            Err(error) => {
                let kind = AnnotationServiceEventKind::Failed {
                    operation: AnnotationServiceOperation::Save,
                    revision: Some(revision),
                    message: error.message(),
                };
                self.observe_and_tell(document, generation, None, kind);
            },
        }
    }

    /// Notes the revision that was seen, where one was, and tells the client
    /// what happened.
    fn observe_and_tell(
        &mut self,
        document: AnnotationDocumentId,
        generation: u64,
        observed: Option<u64>,
        kind: AnnotationServiceEventKind,
    )
        requires
            old(self).wf(),
            old(self).has_room(document.0),
        ensures
            final(self).wf(),
            final(self).shutting_down == old(self).shutting_down,
            final(self).last_served == old(self).last_served,
            final(self).ready@ == old(self).ready@,
            !old(self).documents@.contains_key(document.0) ==> final(self).clients@ == old(self).clients@ && final(self).documents@ == old(self).documents@,
            old(self).documents@.contains_key(document.0) ==> {
                let lane = old(self).documents@[document.0];
                &&& final(self).documents@ == if observed is Some {
                    old(self).documents@.insert(
                        document.0,
                        DocumentLane { observed_disk_revision: observed, ..lane },
                    )
                } else {
                    old(self).documents@
                }
                &&& notified(
                    old(self).clients@,
                    final(self).clients@,
                    lane.client_id.0,
                    AnnotationServiceEvent {
                        client_id: lane.client_id,
                        document_id: document,
                        generation,
                        kind,
                    },
                )
            },
    {
        let ghost start = *self;
        if let Some(lane) = self.documents.remove(&document.0) {
            let mut lane = lane;
            let client_id = lane.client_id;
            if observed.is_some() {
                lane.observed_disk_revision = observed;
            }
            self.documents.insert(document.0, lane);
            proof {
                assert(self.documents@ =~= start.documents@.insert(document.0, lane));
                if observed is None {
                    assert(self.documents@ =~= start.documents@);
                }
                lemma_same_queues(
                    start.clients@,
                    start.documents@,
                    self.documents@,
                    start.ready@,
                );
            }
            self.send_event(
                AnnotationServiceEvent { client_id, document_id: document, generation, kind },
            );
        }
    }
}

/// Lanes that differ in nothing but what was seen of their files.
proof fn lemma_same_queues<R>(
    clients: Map<u64, ClientSink<R>>,
    documents: Map<u64, DocumentLane>,
    after: Map<u64, DocumentLane>,
    ready: Seq<u64>,
)
    requires
        sound(clients, documents, ready),
        forall|id: u64| #[trigger]
            after.contains_key(id) == documents.contains_key(id) && (documents.contains_key(id)
                ==> after[id].client_id == documents[id].client_id && after[id].closing
                == documents[id].closing && after[id].scheduled == documents[id].scheduled
                && after[id].operations == documents[id].operations),
    ensures
        sound(clients, after, ready),
{
    assert forall|i: int| 0 <= i < ready.len() implies after.contains_key(#[trigger] ready[i])
        && after[ready[i]].scheduled by {
        let id = ready[i];
        assert(documents.contains_key(id));
        assert(after.contains_key(id) == documents.contains_key(id));
    }
    assert forall|id: u64| #[trigger] after.contains_key(id) implies {
        &&& after[id].scheduled == (after[id].operations@.len() > 0)
        &&& after[id].scheduled ==> ready.contains(id)
        &&& after[id].closing ==> !clients.contains_key(after[id].client_id.0)
    } by {
        assert(documents.contains_key(id));
    }
}

/// While another lane waits, the lane that had the latest turn is not asked
/// first.
pub proof fn law_turns_go_round(ready: Seq<u64>, last_served: u64)
    requires
        ready.no_duplicates(),
        ready.len() > 1,
    ensures
        asking_order(ready, Some(last_served)).len() == ready.len(),
        asking_order(ready, Some(last_served))[0] != last_served,
{
}

/// Saves of one opening that follow each other become one, whichever way its path is
/// spelled: the snapshot is the latest, and what it is compared with is what the first
/// expected.
pub proof fn law_adjacent_saves_collapse(
    lane: DocumentLane,
    generation: u64,
    path: Vec<u8>,
    later_path: Vec<u8>,
    first_identity: DocumentIdentity,
    identity: DocumentIdentity,
    first_expected: u64,
    expected: u64,
    first: AnnotationSet,
    latest: AnnotationSet,
    queued: DocumentLane,
)
    requires
        !lane.absorbs(generation, path@, first@.revision),
        crate::store::source_path::place_of(later_path@) == crate::store::source_path::place_of(
            path@,
        ),
        first@.revision <= latest@.revision,
        queued.operations@ == lane.operations_with_save(
            generation,
            path,
            first_identity,
            first_expected,
            first,
        ),
    ensures
        queued.operations_with_save(generation, later_path, identity, expected, latest)
            == lane.operations@.push(
            Operation::Save {
                generation,
                path,
                identity,
                expected_disk_revision: first_expected,
                annotations: latest,
            },
        ),
{
    assert(queued.operations@.drop_last() =~= lane.operations@);
}

/// Everything that a lane was given is still to be done when it closes: to go
/// comes last.
pub proof fn law_closing_lanes_finish_first(before: DocumentLane, after: DocumentLane, i: int)
    requires
        closed_lane(before, after),
        0 <= i < before.operations@.len(),
    ensures
        after.operations@[i] == before.operations@[i],
        after.operations@.last() == Operation::Detach,
        after.operations@.len() == before.operations@.len() + 1,
{
}

/// A save that is asked for is the last thing to do afterwards, as it was asked for. It
/// takes the place of the operation before only if that is a save of the same opening at
/// no later revision, and then it expects the revision that the one before expected; all
/// else that was to be done stays, in its order.
pub proof fn law_saves_are_never_lost(
    lane: DocumentLane,
    generation: u64,
    path: Vec<u8>,
    identity: DocumentIdentity,
    expected_disk_revision: u64,
    annotations: AnnotationSet,
)
    ensures
        ({
            let before = lane.operations@;
            let after = lane.operations_with_save(
                generation,
                path,
                identity,
                expected_disk_revision,
                annotations,
            );
            &&& after.len() > 0
            &&& after.last() matches Operation::Save {
                generation: asked,
                path: place,
                identity: whose,
                expected_disk_revision: expected,
                annotations: kept,
            } && asked == generation && crate::store::source_path::place_of(place@)
                == crate::store::source_path::place_of(path@) && whose == identity && kept
                == annotations && (after.len() == before.len() + 1 ==> expected
                == expected_disk_revision && place == path) && (after.len() == before.len()
                ==> (before.last() matches Operation::Save {
                expected_disk_revision: first,
                annotations: older,
                generation: opened,
                path: there,
                ..
            } && first == expected && older@.revision <= annotations@.revision && opened
                == generation && crate::store::source_path::place_of(there@)
                == crate::store::source_path::place_of(path@)))
            &&& after.len() == before.len() || after.len() == before.len() + 1
            &&& after.len() == before.len() + 1 ==> after.drop_last() == before
            &&& after.len() == before.len() ==> after.drop_last() == before.drop_last()
            &&& after.len() == before.len() + 1 && before.len() > 0 ==> (
            before.last() matches Operation::Save {
                generation: opened,
                path: there,
                annotations: older,
                ..
            } ==> opened != generation || older@.revision > annotations@.revision
                || crate::store::source_path::place_of(there@)
                != crate::store::source_path::place_of(path@))
        }),
{
    let before = lane.operations@;
    let after = lane.operations_with_save(
        generation,
        path,
        identity,
        expected_disk_revision,
        annotations,
    );
    if lane.absorbs(generation, path@, annotations@.revision) {
        assert(after.drop_last() =~= before.drop_last());
    } else {
        assert(after.drop_last() =~= before);
    }
}

/// What is to be done outside for a lane is its first operation. A save goes out with the
/// revision that was seen last, where one was, and else with the one that its client
/// expects; a save of an opening that the lane has left behind goes nowhere.
pub proof fn law_turns_do_the_first_operation<R: AnnotationRoute>(
    before: AnnotationActor<R>,
    after: AnnotationActor<R>,
    task: ServiceTask,
)
    requires
        begun(before, after, task),
    ensures
        ({
            let id = before.ready@[0];
            let lane = before.documents@[id];
            match (task, lane.operations@[0]) {
                (
                    ServiceTask::Load { generation, path, page_count },
                    Operation::Load { generation: asked, path: place, page_count: pages },
                ) => {
                    &&& generation == asked && path == place && page_count == pages
                    &&& after.documents@[id].observed_disk_revision is None
                    &&& after.documents@[id].active_generation == Some(asked)
                },
                (
                    ServiceTask::Save { generation, document, expected_revision, annotations },
                    Operation::Save {
                        generation: asked,
                        path,
                        identity,
                        expected_disk_revision,
                        annotations: given,
                    },
                ) => {
                    &&& generation == asked && annotations == given
                    &&& document.spec_path() == path@ && document.spec_identity() == identity@
                    &&& lane.observed_disk_revision matches Some(seen) ==> expected_revision
                        == seen
                    &&& lane.observed_disk_revision is None ==> expected_revision
                        == expected_disk_revision
                    &&& lane.active_generation matches Some(active) ==> active == asked
                    &&& lane.active_path matches Some(active)
                        ==> crate::store::source_path::place_of(active@)
                        == crate::store::source_path::place_of(path@)
                },
                (ServiceTask::Nothing, Operation::Detach) => !after.documents@.contains_key(id),
                (
                    ServiceTask::Nothing,
                    Operation::Save { generation: asked, path, .. },
                ) => {
                    ||| lane.active_generation matches Some(active) && active != asked
                    ||| lane.active_path matches Some(active)
                        && crate::store::source_path::place_of(active@)
                        != crate::store::source_path::place_of(path@)
                },
                _ => false,
            }
        }),
        ({
            let id = before.ready@[0];
            let lane = before.documents@[id];
            after.documents@.contains_key(id) ==> {
                &&& after.documents@[id].operations@ == lane.operations@.skip(1)
                &&& after.documents@[id].client_id == lane.client_id
                &&& after.ready@ == if lane.operations@.len() > 1 {
                    before.ready@.skip(1).push(id)
                } else {
                    before.ready@.skip(1)
                }
            }
        }),
{
}

/// The lane that had the latest turn goes behind the others, and those keep their order.
pub proof fn law_asking_changes_only_the_order(ready: Seq<u64>, last_served: Option<u64>, id: u64)
    ensures
        asking_order(ready, last_served).len() == ready.len(),
        asking_order(ready, last_served).contains(id) <==> ready.contains(id),
        ready.len() > 0 && last_served != Some(ready[0]) ==> asking_order(ready, last_served)
            == ready,
        ready.len() > 1 && last_served == Some(ready[0]) ==> asking_order(ready, last_served).last()
            == ready[0] && asking_order(ready, last_served).drop_last() == ready.skip(1),
{
    let order = asking_order(ready, last_served);
    if ready.len() > 1 && last_served == Some(ready[0]) {
        assert(order.drop_last() =~= ready.skip(1));
        if ready.contains(id) {
            let i = choose|i: int| 0 <= i < ready.len() && ready[i] == id;
            if i == 0 {
                assert(order[order.len() - 1] == id);
            } else {
                assert(order[i - 1] == id);
            }
        }
        if order.contains(id) {
            let i = choose|i: int| 0 <= i < order.len() && order[i] == id;
            if i < order.len() - 1 {
                assert(ready[i + 1] == id);
            } else {
                assert(ready[0] == id);
            }
        }
    }
}

/// A client can be told one more thing if and only if fewer than eight wait for it, or it
/// is not there.
pub proof fn law_eight_events_wait_for_a_client<R>(actor: AnnotationActor<R>, id: u64)
    requires
        actor.documents@.contains_key(id),
        actor.clients@.contains_key(actor.documents@[id].client_id.0),
    ensures
        actor.has_room(id) <==> actor.clients@[actor.documents@[id].client_id.0].pending@.len()
            < 8,
{
}

/// What a client asks for changes no lane but that of its document, and nothing at all if
/// the document is not the client's or is closing. Loads are done in the order in which
/// they were asked for.
pub proof fn law_clients_reach_their_own_document_alone<R>(
    before: AnnotationActor<R>,
    command: Command<R>,
    other: u64,
)
    requires
        before.wf(),
    ensures
        forall|actor: &mut AnnotationActor<R>| #[trigger]
            call_ensures(AnnotationActor::<R>::ingest, (actor, command), ()) && *actor == before
                ==> {
                let after = *final(actor);
                &&& command matches Command::Load {
                    client_id,
                    document_id,
                    generation,
                    path,
                    page_count,
                } ==> {
                    &&& other != document_id.0 && before.documents@.contains_key(other)
                        ==> after.documents@[other] == before.documents@[other]
                    &&& !before.documents@.contains_key(document_id.0)
                        || before.documents@[document_id.0].client_id != client_id
                        || before.documents@[document_id.0].closing ==> after.documents
                        == before.documents && after.ready == before.ready
                    &&& before.documents@.contains_key(document_id.0)
                        && before.documents@[document_id.0].client_id == client_id
                        && !before.documents@[document_id.0].closing ==> {
                        let lane = after.documents@[document_id.0];
                        &&& lane.operations@ == before.documents@[document_id.0].operations@.push(
                            Operation::Load { generation, path, page_count },
                        )
                        &&& after.ready@.contains(document_id.0)
                    }
                }
                &&& command matches Command::Save {
                    client_id,
                    document_id,
                    generation,
                    annotations,
                    ..
                } ==> {
                    &&& other != document_id.0 && before.documents@.contains_key(other)
                        ==> after.documents@[other] == before.documents@[other]
                    &&& !before.documents@.contains_key(document_id.0)
                        || before.documents@[document_id.0].client_id != client_id
                        || before.documents@[document_id.0].closing ==> after.documents
                        == before.documents && after.ready == before.ready
                    &&& before.documents@.contains_key(document_id.0)
                        && before.documents@[document_id.0].client_id == client_id
                        && !before.documents@[document_id.0].closing ==> {
                        let lane = after.documents@[document_id.0];
                        &&& lane.operations@.last() matches Operation::Save {
                            generation: asked,
                            annotations: kept,
                            ..
                        } && asked == generation && kept == annotations
                        &&& after.ready@.contains(document_id.0)
                    }
                }
                &&& command is Wake ==> after.documents == before.documents && after.clients
                    == before.clients
                &&& command is Shutdown ==> after.shutting_down && (before.documents@.contains_key(
                    other,
                ) ==> after.documents@.contains_key(other) && after.documents@[other].closing)
            },
{
    assert forall|actor: &mut AnnotationActor<R>| #[trigger]
        call_ensures(AnnotationActor::<R>::ingest, (actor, command), ()) && *actor
            == before implies {
        let after = *final(actor);
        &&& command matches Command::Load { document_id, .. } ==> (
        after.documents@.contains_key(document_id.0) && after.documents@[document_id.0].scheduled
            ==> after.ready@.contains(document_id.0))
        &&& command matches Command::Save { document_id, .. } ==> (
        after.documents@.contains_key(document_id.0) && after.documents@[document_id.0].scheduled
            ==> after.ready@.contains(document_id.0))
    } by {
        let after = *final(actor);
        assert(after.wf());
    }
}

/// The owner waits only if it has nothing to do, deliver or answer, and tries again only if
/// it has: never both. It is over if and only if it was told to stop or nobody can ask it
/// any more, and then it does neither.
pub proof fn law_the_owner_waits_or_works<R>(
    actor: AnnotationActor<R>,
    inspections_wait: bool,
    mailbox_open: bool,
    may: bool,
    must: bool,
    over: bool,
)
    requires
        call_ensures(AnnotationActor::<R>::may_wait, (&actor, inspections_wait, mailbox_open), may),
        call_ensures(AnnotationActor::<R>::must_retry, (&actor, mailbox_open), must),
        call_ensures(AnnotationActor::<R>::is_over, (&actor, mailbox_open), over),
    ensures
        !(may && must),
        over ==> !may && !must,
        over <==> actor.shutting_down || !mailbox_open,
        !over && (actor.ready@.len() > 0 || actor.undelivered()) ==> must,
        !over && !must && !inspections_wait ==> may,
        may ==> actor.ready@.len() == 0 && !actor.undelivered() && !inspections_wait,
{
}

/// What was seen of a file when it was loaded or saved is what the lane goes by afterwards.
pub proof fn law_seen_revisions_are_remembered<R: AnnotationRoute>(
    before: AnnotationActor<R>,
    document: AnnotationDocumentId,
    generation: u64,
    revision: u64,
    identity: DocumentIdentity,
    annotations: AnnotationSet,
    receipt: SaveReceipt,
    error: StoreError,
)
    requires
        before.documents@.contains_key(document.0),
    ensures
        forall|actor: &mut AnnotationActor<R>| #[trigger]
            call_ensures(
                AnnotationActor::<R>::finish_load,
                (actor, document, generation, Ok((identity, annotations))),
                (),
            ) && *actor == before ==> final(actor).documents@[document.0].observed_disk_revision == Some(annotations@.revision),
        forall|actor: &mut AnnotationActor<R>| #[trigger]
            call_ensures(
                AnnotationActor::<R>::finish_save,
                (actor, document, generation, revision, Ok(receipt)),
                (),
            ) && *actor == before ==> final(actor).documents@[document.0].observed_disk_revision == Some(receipt.saved_revision),
        forall|actor: &mut AnnotationActor<R>| #[trigger]
            call_ensures(
                AnnotationActor::<R>::finish_save,
                (actor, document, generation, revision, Err(error)),
                (),
            ) && *actor == before ==> final(actor).documents@ == before.documents@,
{
}

/// A client that has events waiting hears the next one after them, and nobody else hears of
/// it.
pub proof fn law_events_wait_in_their_order<R: AnnotationRoute>(
    before: Map<u64, ClientSink<R>>,
    after: Map<u64, ClientSink<R>>,
    client: u64,
    event: AnnotationServiceEvent,
    other: u64,
)
    requires
        notified(before, after, client, event),
        other != client,
    ensures
        before.contains_key(other) <==> after.contains_key(other),
        before.contains_key(other) ==> after[other] == before[other],
        before.contains_key(client) && before[client].pending@.len() > 0 ==> {
            &&& after.contains_key(client)
            &&& after[client].pending@.len() == before[client].pending@.len() + 1
            &&& after[client].pending@.last() == event
            &&& after[client].pending@.drop_last() == before[client].pending@
        },
        !before.contains_key(client) ==> !after.contains_key(client),
{
    assert(before.remove(client).contains_key(other) == before.contains_key(other));
    assert(after.remove(client).contains_key(other) == after.contains_key(other));
    if before.contains_key(other) {
        assert(before.remove(client)[other] == before[other]);
        assert(after.remove(client)[other] == after[other]);
    }
    if before.contains_key(client) && before[client].pending@.len() > 0 {
        assert(after[client].pending@.drop_last() =~= before[client].pending@);
    }
}

/// What was loaded or saved is what the client of the document is told, under the generation
/// that it asked for.
pub proof fn law_clients_are_told_what_came_of_it<R: AnnotationRoute>(
    before: AnnotationActor<R>,
    document: AnnotationDocumentId,
    generation: u64,
    revision: u64,
    identity: DocumentIdentity,
    annotations: AnnotationSet,
    receipt: SaveReceipt,
)
    requires
        before.documents@.contains_key(document.0),
        before.clients@.contains_key(before.documents@[document.0].client_id.0),
        before.clients@[before.documents@[document.0].client_id.0].pending@.len() > 0,
    ensures
        forall|actor: &mut AnnotationActor<R>| #[trigger]
            call_ensures(
                AnnotationActor::<R>::finish_load,
                (actor, document, generation, Ok((identity, annotations))),
                (),
            ) && *actor == before ==> {
                let client = before.documents@[document.0].client_id;
                let told = final(actor).clients@[client.0].pending@.last();
                &&& told.client_id == client
                &&& told.document_id == document
                &&& told.generation == generation
                &&& told.kind matches AnnotationServiceEventKind::Loaded {
                    identity: whose,
                    annotations: which,
                } && whose == identity && which == annotations
            },
        forall|actor: &mut AnnotationActor<R>| #[trigger]
            call_ensures(
                AnnotationActor::<R>::finish_save,
                (actor, document, generation, revision, Ok(receipt)),
                (),
            ) && *actor == before ==> {
                let client = before.documents@[document.0].client_id;
                let told = final(actor).clients@[client.0].pending@.last();
                &&& told.client_id == client
                &&& told.document_id == document
                &&& told.generation == generation
                &&& told.kind matches AnnotationServiceEventKind::Saved { revision: now } && now
                    == receipt.saved_revision
            },
{
}

} // verus!

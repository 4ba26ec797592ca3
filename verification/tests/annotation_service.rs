use key_pdf::document::TextPosition;
use key_pdf::store::annotations::{AnnotationSet, HighlightColor, TextRange};
use key_pdf::store::identity::{DocumentIdentity, DocumentKey};
use key_pdf::store::memory::{AnnotationStore, MemoryAnnotationStore};
use key_pdf::store::service::{
    identities_from_numbers, AnnotationActor, AnnotationIds, AnnotationRoute,
    AnnotationRouteError, AnnotationServiceClient, AnnotationServiceDiagnostics,
    AnnotationServiceEvent, AnnotationServiceEventKind, AnnotationServiceOperation,
    AnnotationServiceStartError, Command, ServiceTask, EVENT_CAPACITY, PENDING_EVENT_CAPACITY,
};
use std::cell::{Cell, RefCell};
use std::collections::{HashMap, VecDeque};
use std::rc::Rc;

/// What a client has been told; it can hold only so much at a time.
#[derive(Clone)]
struct Inbox {
    events: Rc<RefCell<VecDeque<AnnotationServiceEvent>>>,
    open: Rc<Cell<bool>>,
}

impl AnnotationRoute for Inbox {
    fn try_send(&mut self, event: AnnotationServiceEvent) -> Result<(), AnnotationRouteError> {
        if !self.open.get() {
            return Err(AnnotationRouteError::Disconnected);
        }
        if self.events.borrow().len() >= EVENT_CAPACITY {
            return Err(AnnotationRouteError::Full(event));
        }
        self.events.borrow_mut().push_back(event);
        Ok(())
    }
}

struct Service {
    ids: AnnotationIds,
    actor: AnnotationActor<Inbox>,
    store: MemoryAnnotationStore,
    files: HashMap<Vec<u8>, DocumentIdentity>,
    trace: Vec<(Vec<u8>, AnnotationServiceOperation)>,
}

impl Service {
    fn new() -> Service {
        Service {
            ids: AnnotationIds::new(),
            actor: AnnotationActor::new(),
            store: MemoryAnnotationStore::new(),
            files: HashMap::new(),
            trace: Vec::new(),
        }
    }

    fn attach(&mut self) -> (AnnotationServiceClient, Inbox) {
        let (client_id, document_id) = self.ids.attach().unwrap();
        let inbox = Inbox {
            events: Rc::default(),
            open: Rc::new(Cell::new(true)),
        };
        assert!(self.actor.is_unknown(client_id, document_id));
        self.actor.ingest(Command::Attach {
            client_id,
            document_id,
            route: inbox.clone(),
        });
        (AnnotationServiceClient::new(client_id, document_id), inbox)
    }

    fn file(&mut self, name: &str) -> Vec<u8> {
        let path = format!("/tmp/{name}/document.pdf").into_bytes();
        let number = self.files.len() as u64;
        self.files.insert(
            path.clone(),
            DocumentIdentity::new(100 + number, 1_700_000_000, 5, 1).unwrap(),
        );
        path
    }

    fn identity(&self, path: &Vec<u8>) -> DocumentIdentity {
        self.files[path].copy()
    }

    fn load(&mut self, client: &AnnotationServiceClient, generation: u64, path: &[u8]) {
        self.actor.ingest(client.load(generation, path.to_vec(), 1));
    }

    fn save(
        &mut self,
        client: &AnnotationServiceClient,
        generation: u64,
        path: &Vec<u8>,
        annotations: AnnotationSet,
    ) {
        let identity = self.identity(path);
        self.actor
            .ingest(client.save(generation, path.clone(), identity, 0, annotations));
    }

    /// One turn. Returns whether there was one.
    fn turn(&mut self) -> bool {
        self.actor.flush_all_clients();
        let Some((document, task)) = self.actor.take_turn() else {
            return false;
        };
        match task {
            ServiceTask::Nothing => {}
            ServiceTask::Load {
                generation, path, ..
            } => {
                self.trace
                    .push((path.clone(), AnnotationServiceOperation::Load));
                let identity = self.identity(&path);
                let loaded = self
                    .store
                    .load(&DocumentKey::new(path, identity.copy()))
                    .map(|annotations| (identity, annotations));
                self.actor.finish_load(document, generation, loaded);
            }
            ServiceTask::Save {
                generation,
                document: key,
                expected_revision,
                annotations,
            } => {
                self.trace
                    .push((key.source_path().clone(), AnnotationServiceOperation::Save));
                let saved = self
                    .store
                    .compare_and_save(&key, expected_revision, &annotations);
                self.actor
                    .finish_save(document, generation, annotations.revision(), saved);
            }
        }
        true
    }

    fn settle(&mut self) {
        while self.turn() {}
        self.actor.flush_all_clients();
    }
}

fn next(inbox: &Inbox) -> AnnotationServiceEventKind {
    inbox.events.borrow_mut().pop_front().unwrap().kind
}

fn revision(color: HighlightColor) -> AnnotationSet {
    let mut annotations = AnnotationSet::new(1);
    annotations
        .add(
            TextRange::new(
                TextPosition { page: 0, index: 0 },
                TextPosition { page: 0, index: 1 },
            ),
            Some(color),
            None,
        )
        .unwrap();
    annotations
}

#[test]
fn documents_are_isolated_and_saves_advance_independently() {
    let mut service = Service::new();
    let (first, first_events) = service.attach();
    let (second, second_events) = service.attach();
    let first_path = service.file("isolation-first");
    let second_path = service.file("isolation-second");

    service.load(&first, 1, &first_path);
    service.load(&second, 2, &second_path);
    service.settle();
    assert!(matches!(
        next(&first_events),
        AnnotationServiceEventKind::Loaded { .. }
    ));
    assert!(matches!(
        next(&second_events),
        AnnotationServiceEventKind::Loaded { .. }
    ));
    service.save(&first, 1, &first_path, revision(HighlightColor::Green));
    service.save(&second, 2, &second_path, revision(HighlightColor::Purple));
    service.settle();
    assert!(matches!(
        next(&first_events),
        AnnotationServiceEventKind::Saved { revision: 1 }
    ));
    assert!(matches!(
        next(&second_events),
        AnnotationServiceEventKind::Saved { revision: 1 }
    ));
}

#[test]
fn stale_generation_is_rejected_before_it_reaches_storage() {
    let mut service = Service::new();
    let (client, events) = service.attach();
    let path = service.file("stale-generation");

    service.load(&client, 8, &path);
    service.settle();
    assert!(matches!(
        next(&events),
        AnnotationServiceEventKind::Loaded { .. }
    ));
    service.save(&client, 7, &path, revision(HighlightColor::Yellow));
    service.settle();
    match next(&events) {
        AnnotationServiceEventKind::Failed { message, .. } => {
            assert!(message.contains("stale annotation document generation"));
        }
        event => panic!("unexpected event: {event:?}"),
    }
    assert_eq!(service.trace.len(), 1);
}

#[test]
fn stale_second_writer_cannot_overwrite_the_first() {
    let mut service = Service::new();
    let (first, first_events) = service.attach();
    let (second, second_events) = service.attach();
    let path = service.file("stale-writer");

    service.load(&first, 1, &path);
    service.load(&second, 1, &path);
    service.settle();
    assert!(matches!(
        next(&first_events),
        AnnotationServiceEventKind::Loaded { .. }
    ));
    assert!(matches!(
        next(&second_events),
        AnnotationServiceEventKind::Loaded { .. }
    ));
    service.save(&first, 1, &path, revision(HighlightColor::Green));
    service.settle();
    assert!(matches!(
        next(&first_events),
        AnnotationServiceEventKind::Saved { revision: 1 }
    ));
    service.save(&second, 1, &path, revision(HighlightColor::Pink));
    service.settle();
    assert!(matches!(
        next(&second_events),
        AnnotationServiceEventKind::Failed {
            operation: AnnotationServiceOperation::Save,
            ..
        }
    ));
}

#[test]
fn ready_documents_are_served_round_robin() {
    let mut service = Service::new();
    let (first, first_events) = service.attach();
    let (second, second_events) = service.attach();
    let first_path = service.file("fair-first");
    let second_path = service.file("fair-second");

    service.load(&first, 1, &first_path);
    assert!(service.turn());
    service.save(&first, 1, &first_path, revision(HighlightColor::Green));
    service.load(&second, 2, &second_path);
    service.save(&second, 2, &second_path, revision(HighlightColor::Blue));
    service.settle();
    for events in [&first_events, &second_events] {
        assert!(matches!(
            next(events),
            AnnotationServiceEventKind::Loaded { .. }
        ));
        assert!(matches!(
            next(events),
            AnnotationServiceEventKind::Saved { .. }
        ));
    }

    assert_eq!(
        service.trace,
        vec![
            (first_path.clone(), AnnotationServiceOperation::Load),
            (second_path.clone(), AnnotationServiceOperation::Load),
            (first_path, AnnotationServiceOperation::Save),
            (second_path, AnnotationServiceOperation::Save),
        ]
    );
}

#[test]
fn saturated_event_client_does_not_drop_events_or_block_another_document() {
    let mut service = Service::new();
    let (saturated, saturated_events) = service.attach();
    let (peer, peer_events) = service.attach();
    let saturated_path = service.file("event-saturation");
    let peer_path = service.file("event-saturation-peer");
    let event_count = (EVENT_CAPACITY + PENDING_EVENT_CAPACITY + 8) as u64;

    for generation in 0..event_count {
        service.load(&saturated, generation, &saturated_path);
    }
    service.load(&peer, 999, &peer_path);
    service.settle();

    assert!(matches!(
        next(&peer_events),
        AnnotationServiceEventKind::Loaded { .. }
    ));
    assert!(service.actor.must_retry(true));

    for generation in 0..event_count {
        let event = saturated_events.events.borrow_mut().pop_front().unwrap();
        assert_eq!(event.generation, generation);
        assert!(matches!(
            event.kind,
            AnnotationServiceEventKind::Loaded { .. }
        ));
        service.settle();
    }
    assert!(saturated_events.events.borrow().is_empty());
    assert!(service.actor.may_wait(false, true));
}

#[test]
fn adjacent_saves_collapse_to_the_latest_document_snapshot() {
    let mut service = Service::new();
    let (client, events) = service.attach();
    let path = service.file("coalesce");
    let first = revision(HighlightColor::Green);
    let mut latest = first.copy();
    latest
        .add(
            TextRange::new(
                TextPosition { page: 0, index: 3 },
                TextPosition { page: 0, index: 4 },
            ),
            Some(HighlightColor::Purple),
            None,
        )
        .unwrap();

    service.load(&client, 4, &path);
    assert!(service.turn());
    service.save(&client, 4, &path, first);
    service.save(&client, 4, &path, latest);
    service.settle();

    assert!(matches!(
        next(&events),
        AnnotationServiceEventKind::Loaded { .. }
    ));
    assert!(matches!(
        next(&events),
        AnnotationServiceEventKind::Saved { revision: 2 }
    ));
    assert!(events.events.borrow().is_empty());
    assert_eq!(
        service.trace,
        vec![
            (path.clone(), AnnotationServiceOperation::Load),
            (path, AnnotationServiceOperation::Save),
        ]
    );
}

#[test]
fn detach_flushes_and_removes_client_and_document_state() {
    let mut service = Service::new();
    let (client, events) = service.attach();
    let path = service.file("detach");
    let document = DocumentKey::new(path.clone(), service.identity(&path));
    service.save(&client, 3, &path, revision(HighlightColor::Yellow));
    events.open.set(false);
    service
        .actor
        .reap_detached(&vec![client.document_id().get()]);
    service.settle();
    assert_eq!(
        service.actor.diagnostics(),
        AnnotationServiceDiagnostics::default()
    );
    assert_eq!(service.store.load(&document).unwrap().revision(), 1);
}

#[test]
fn a_shut_down_owner_is_over() {
    let mut actor = AnnotationActor::<Inbox>::new();
    assert!(!actor.is_over(true));
    assert!(actor.is_over(false));
    actor.ingest(Command::Wake);
    assert!(!actor.is_over(true));
    actor.ingest(Command::Shutdown);
    assert!(actor.is_over(true));
    assert_eq!(
        identities_from_numbers(None, Some(1)),
        Err(AnnotationServiceStartError::IdsExhausted)
    );
    assert!(!AnnotationServiceStartError::WorkerUnavailable
        .message()
        .is_empty());
}

#[test]
fn another_spelling_of_a_path_is_the_same_opening() {
    let mut service = Service::new();
    let (client, events) = service.attach();
    let path = service.file("spelled");
    let identity = service.identity(&path);
    service.load(&client, 1, &path);
    service.settle();
    assert!(matches!(
        next(&events),
        AnnotationServiceEventKind::Loaded { .. }
    ));
    let respelled = b"/tmp//spelled/./document.pdf".to_vec();
    for _ in 0..2 {
        service.actor.ingest(client.save(
            1,
            respelled.clone(),
            identity.copy(),
            0,
            revision(HighlightColor::Green),
        ));
    }
    service.save(&client, 1, &path, revision(HighlightColor::Green));
    service.settle();
    assert!(matches!(
        next(&events),
        AnnotationServiceEventKind::Saved { revision: 1 }
    ));
    assert_eq!(service.trace.len(), 2);
    assert_eq!(
        service.trace[1],
        (respelled, AnnotationServiceOperation::Save)
    );
}

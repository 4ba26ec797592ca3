use key_pdf::float_bits::FloatBits;
use key_pdf::geometry::{PixelRect, RasterSize, TileKey};
use key_pdf::runtime::cancellation::{CancellationSource, CombinedCancellation};
use key_pdf::runtime::demand::{
    ColorMode, DemandIntent, PreviewCenter, PreviewDemand, RenderDemand, TextDemand,
    TextDemandPurpose,
};
use key_pdf::runtime::engine::{
    DocumentDescriptor, EngineCapabilities, EngineDocument, EngineOutputError, PageSize, PdfEngine,
    PreviewEvent, RasterImage, RenderEvent, RuntimeFailure, TextEvent,
};
use key_pdf::runtime::managed_document::{conclude_preview, conclude_render, conclude_text};
use key_pdf::runtime::owner::{EngineOwner, Turn};
use key_pdf::runtime::priority::DemandPriority;
use key_pdf::runtime::session::DocumentSession;
use key_pdf::runtime::supervisor::{
    Command, DocumentClient, EventRoute, SupervisorDocumentId, SupervisorEvent, SupervisorIds,
    SupervisorPolicy, SupervisorPolicyError, SupervisorRouteError, SupervisorSendError,
};
use key_pdf::runtime::work_queue::WorkClass;
use std::cell::RefCell;
use std::rc::Rc;

#[derive(Clone, Copy, Debug, Eq, PartialEq)]
struct MockError;

#[derive(Clone, Debug, Eq, PartialEq)]
enum Call {
    Open(&'static str),
    Render(&'static str, u32),
    Text(&'static str, usize),
}

type Hook = Box<dyn FnOnce()>;

#[derive(Default)]
struct Probe {
    calls: RefCell<Vec<Call>>,
    during_next_render: RefCell<Option<Hook>>,
    after_next_open: RefCell<Option<Hook>>,
}

impl Probe {
    fn record(&self, call: Call) {
        self.calls.borrow_mut().push(call);
    }

    fn renders(&self) -> Vec<Call> {
        self.calls
            .borrow()
            .iter()
            .filter(|call| matches!(call, Call::Render(..)))
            .cloned()
            .collect()
    }
}

struct MockEngine {
    probe: Rc<Probe>,
}

#[derive(Debug)]
struct MockDocument {
    name: &'static str,
    probe: ProbeHandle,
    descriptor: DocumentDescriptor,
}

#[derive(Clone)]
struct ProbeHandle(Rc<Probe>);

impl std::fmt::Debug for ProbeHandle {
    fn fmt(&self, formatter: &mut std::fmt::Formatter<'_>) -> std::fmt::Result {
        formatter.write_str("probe")
    }
}

impl PdfEngine for MockEngine {
    type Source = &'static str;
    type Error = MockError;
    type Text = usize;
    type Document = MockDocument;

    fn capabilities(&self) -> EngineCapabilities {
        EngineCapabilities {
            text: true,
            previews: true,
        }
    }

    fn open(
        &mut self,
        source: &'static str,
        cancellation: &CombinedCancellation,
    ) -> Result<MockDocument, MockError> {
        self.probe.record(Call::Open(source));
        cancellation.checkpoint().map_err(|_| MockError)?;
        if let Some(hook) = self.probe.after_next_open.take() {
            hook();
        }
        Ok(MockDocument {
            name: source,
            probe: ProbeHandle(self.probe.clone()),
            descriptor: DocumentDescriptor {
                pages: vec![PageSize {
                    width: FloatBits(612.0_f32.to_bits()),
                    height: FloatBits(792.0_f32.to_bits()),
                }],
            },
        })
    }
}

impl EngineDocument for MockDocument {
    type Error = MockError;
    type Text = usize;

    fn descriptor(&self) -> &DocumentDescriptor {
        &self.descriptor
    }

    fn render(
        &mut self,
        demand: &RenderDemand,
        cancellation: &CombinedCancellation,
    ) -> Result<RasterImage, MockError> {
        self.probe
            .0
            .record(Call::Render(self.name, demand.key().column));
        if let Some(hook) = self.probe.0.during_next_render.take() {
            hook();
        }
        cancellation.checkpoint().map_err(|_| MockError)?;
        Ok(image(
            demand.render_rect().width,
            demand.render_rect().height,
        ))
    }

    fn extract_text(
        &mut self,
        demand: &TextDemand,
        cancellation: &CombinedCancellation,
    ) -> Result<usize, MockError> {
        self.probe.0.record(Call::Text(self.name, demand.page()));
        cancellation.checkpoint().map_err(|_| MockError)?;
        Ok(0)
    }

    fn render_preview(
        &mut self,
        demand: &PreviewDemand,
        cancellation: &CombinedCancellation,
    ) -> Result<RasterImage, MockError> {
        cancellation.checkpoint().map_err(|_| MockError)?;
        Ok(image(demand.region().width, demand.region().height))
    }
}

fn image(width: u32, height: u32) -> RasterImage {
    RasterImage {
        width,
        height,
        pixels: vec![0; width as usize * 4 * height as usize],
    }
}

type Event = SupervisorEvent<MockError, usize>;

#[derive(Clone, Debug)]
struct Window {
    heard: Rc<RefCell<Vec<Event>>>,
    room: usize,
}

impl EventRoute<MockError, usize> for Window {
    fn route(&mut self, event: Event) -> Result<(), SupervisorRouteError<MockError, usize>> {
        if self.heard.borrow().len() >= self.room {
            return Err(SupervisorRouteError::Full(event));
        }
        self.heard.borrow_mut().push(event);
        Ok(())
    }
}

type Owner = EngineOwner<MockDocument, &'static str, MockError, usize, Window>;
type Asked = Command<&'static str, Window>;

struct Rig {
    probe: Rc<Probe>,
    engine: MockEngine,
    owner: Owner,
    next: u64,
    room: usize,
}

impl Rig {
    fn new(policy: SupervisorPolicy) -> Rig {
        let probe = Rc::new(Probe::default());
        let engine = MockEngine {
            probe: probe.clone(),
        };
        let owner = EngineOwner::new(policy, engine.capabilities());
        Rig {
            probe,
            engine,
            owner,
            next: 1,
            room: policy.event_channel_capacity(),
        }
    }

    fn send(&mut self, command: Asked) {
        assert!(self.owner.accept_command(command));
    }

    fn turn(&mut self) -> Turn {
        self.owner.turn(&mut self.engine)
    }

    fn settle(&mut self) {
        while let Turn::Worked(_) = self.turn() {}
    }

    /// What a window hears next; the owner works on as long as it hears nothing.
    fn hear(&mut self, window: &Window) -> Event {
        loop {
            if !window.heard.borrow().is_empty() {
                return window.heard.borrow_mut().remove(0);
            }
            let turn = self.turn();
            assert!(matches!(turn, Turn::Worked(_)) || !window.heard.borrow().is_empty());
        }
    }

    fn attach_open(&mut self, name: &'static str) -> (DocumentClient, Window, DocumentSession) {
        let id = SupervisorDocumentId::from_number(Some(self.next)).unwrap();
        self.next += 1;
        let window = Window {
            heard: Rc::new(RefCell::new(Vec::new())),
            room: self.room,
        };
        let mut client = DocumentClient::new(id);
        self.send(Command::Attach {
            id,
            route: window.clone(),
        });
        self.settle();
        assert!(matches!(
            self.hear(&window),
            SupervisorEvent::Attached { document, .. } if document == client.id()
        ));
        let command = client.open(name);
        self.send(command);
        self.settle();
        let session = match self.hear(&window) {
            SupervisorEvent::Opened {
                document,
                session,
                descriptor,
                ..
            } => {
                assert_eq!(document, client.id());
                assert_eq!(descriptor.page_count(), 1);
                session
            }
            other => panic!("expected opened event, received {other:?}"),
        };
        (client, window, session)
    }
}

fn render(session: &DocumentSession, column: u32, priority: DemandPriority) -> RenderDemand {
    let whole = PixelRect {
        x: 0,
        y: 0,
        width: 16,
        height: 16,
    };
    session
        .render_demand(
            TileKey {
                page: 0,
                raster: RasterSize {
                    width: 16,
                    height: 16,
                },
                column,
                row: 0,
            },
            whole,
            whole,
            ColorMode::Original,
            priority,
            DemandIntent::Visible,
        )
        .unwrap()
}

fn expect_render_ready(rig: &mut Rig, window: &Window, column: u32) {
    match rig.hear(window) {
        SupervisorEvent::Rendered {
            event: RenderEvent::Ready { demand, .. },
            ..
        } => assert_eq!(demand.key().column, column),
        other => panic!("expected ready render {column}, received {other:?}"),
    }
}

#[test]
fn one_owner_thread_handles_multiple_non_send_documents_and_operation_types() {
    let mut rig = Rig::new(SupervisorPolicy::default());
    let (mut alpha, alpha_events, alpha_session) = rig.attach_open("alpha");
    let (mut beta, beta_events, beta_session) = rig.attach_open("beta");

    let command =
        alpha.replace_render_viewport(vec![render(&alpha_session, 1, DemandPriority::visible())]);
    rig.send(command);
    rig.settle();
    let text = beta_session
        .text_demand(
            0,
            TextDemandPurpose::Copy,
            DemandPriority::interactive(),
            DemandIntent::Explicit,
        )
        .unwrap();
    let command = beta.replace_text(WorkClass::CopyText, vec![text]).unwrap();
    rig.send(command);
    rig.settle();
    expect_render_ready(&mut rig, &alpha_events, 1);
    assert!(matches!(
        rig.hear(&beta_events),
        SupervisorEvent::TextExtracted {
            event: TextEvent::Ready { .. },
            ..
        }
    ));
    assert_eq!(
        *rig.probe.calls.borrow(),
        vec![
            Call::Open("alpha"),
            Call::Open("beta"),
            Call::Render("alpha", 1),
            Call::Text("beta", 0),
        ]
    );
}

#[test]
fn round_robin_fairness_serves_another_document_before_continuing_a_busy_one() {
    let mut rig = Rig::new(SupervisorPolicy::default());
    let (mut alpha, alpha_events, alpha_session) = rig.attach_open("alpha");
    let (mut beta, beta_events, beta_session) = rig.attach_open("beta");

    let command = alpha.replace_render_viewport(vec![
        render(&alpha_session, 1, DemandPriority::visible()),
        render(&alpha_session, 2, DemandPriority::visible()),
        render(&alpha_session, 3, DemandPriority::visible()),
    ]);
    rig.send(command);
    assert_eq!(rig.turn(), Turn::Worked(alpha.id()));
    let command =
        beta.replace_render_viewport(vec![render(&beta_session, 9, DemandPriority::visible())]);
    rig.send(command);
    rig.settle();

    for _ in 0..3 {
        let _ = rig.hear(&alpha_events);
    }
    expect_render_ready(&mut rig, &beta_events, 9);
    let renders = rig.probe.renders();
    assert_eq!(renders[0], Call::Render("alpha", 3));
    assert_eq!(renders[1], Call::Render("beta", 9));
    assert!(matches!(renders[2], Call::Render("alpha", _)));
}

#[test]
fn viewport_replacement_cancels_in_flight_work_and_only_publishes_the_latest_batch() {
    let mut rig = Rig::new(SupervisorPolicy::default());
    let (client, events, session) = rig.attach_open("alpha");
    let client = Rc::new(RefCell::new(client));

    let command = client
        .borrow_mut()
        .replace_render_viewport(vec![render(&session, 1, DemandPriority::visible())]);
    rig.send(command);
    let second = render(&session, 2, DemandPriority::visible());
    let sent: Rc<RefCell<Option<Asked>>> = Rc::new(RefCell::new(None));
    let (asking, sending) = (client.clone(), sent.clone());
    *rig.probe.during_next_render.borrow_mut() = Some(Box::new(move || {
        *sending.borrow_mut() = Some(asking.borrow_mut().replace_render_viewport(vec![second]));
    }));
    let _ = rig.turn();
    let command = sent.take().unwrap();
    rig.send(command);
    rig.settle();

    assert!(matches!(
        rig.hear(&events),
        SupervisorEvent::Rendered {
            event: RenderEvent::Cancelled { .. },
            ..
        }
    ));
    expect_render_ready(&mut rig, &events, 2);
    assert_eq!(
        rig.probe.renders(),
        vec![Call::Render("alpha", 1), Call::Render("alpha", 2)]
    );
}

#[test]
fn close_invalidates_the_generation_and_stale_demands_never_enter_the_engine() {
    let mut rig = Rig::new(SupervisorPolicy::default());
    let (mut client, events, first_session) = rig.attach_open("alpha");
    let stale = render(&first_session, 1, DemandPriority::visible());

    let command = client.close();
    rig.send(command);
    rig.settle();
    assert!(matches!(
        rig.hear(&events),
        SupervisorEvent::Closed {
            generation: Some(generation),
            ..
        } if generation == first_session.generation()
    ));
    let command = client.open("alpha-2");
    rig.send(command);
    rig.settle();
    let second_session = match rig.hear(&events) {
        SupervisorEvent::Opened { session, .. } => session,
        other => panic!("expected reopened event, received {other:?}"),
    };
    assert_ne!(first_session.generation(), second_session.generation());

    let command = client.replace_render_viewport(vec![stale]);
    rig.send(command);
    rig.settle();
    assert!(matches!(
        rig.hear(&events),
        SupervisorEvent::Rendered {
            event: RenderEvent::Discarded { .. },
            ..
        }
    ));
    assert!(rig.probe.renders().is_empty());
}

#[test]
fn an_unread_window_cannot_block_engine_work_for_another_window() {
    let mut rig = Rig::new(SupervisorPolicy::new(16, 1).unwrap());
    let (mut alpha, alpha_events, alpha_session) = rig.attach_open("alpha");
    let (mut beta, beta_events, beta_session) = rig.attach_open("beta");

    let command = alpha.replace_render_viewport(vec![
        render(&alpha_session, 1, DemandPriority::visible()),
        render(&alpha_session, 2, DemandPriority::visible()),
        render(&alpha_session, 3, DemandPriority::visible()),
    ]);
    rig.send(command);
    rig.settle();
    assert_eq!(rig.turn(), Turn::Idle { held_back: true });
    let command =
        beta.replace_render_viewport(vec![render(&beta_session, 9, DemandPriority::visible())]);
    rig.send(command);
    rig.settle();
    expect_render_ready(&mut rig, &beta_events, 9);
    assert!(matches!(
        rig.hear(&alpha_events),
        SupervisorEvent::Rendered {
            event: RenderEvent::Ready { .. },
            ..
        }
    ));
}

#[test]
fn policy_rejects_zero_sized_bounds() {
    assert_eq!(
        SupervisorPolicy::new(0, 1),
        Err(SupervisorPolicyError::EmptyWorkQueue)
    );
    assert_eq!(
        SupervisorPolicy::new(1, 0),
        Err(SupervisorPolicyError::EmptyEventChannel)
    );
}

#[test]
fn text_demands_cannot_be_sent_through_a_raster_replacement_domain() {
    let mut rig = Rig::new(SupervisorPolicy::default());
    let (mut client, _events, session) = rig.attach_open("alpha");
    let text = session
        .text_demand(
            0,
            TextDemandPurpose::Copy,
            DemandPriority::interactive(),
            DemandIntent::Explicit,
        )
        .unwrap();
    let sent: Result<Asked, SupervisorSendError> =
        client.replace_text(WorkClass::Preview, vec![text]);
    assert!(matches!(sent, Err(SupervisorSendError::InvalidWorkClass)));
}

#[test]
fn a_page_that_is_not_there_never_enters_the_engine() {
    let mut rig = Rig::new(SupervisorPolicy::default());
    let (mut client, events, session) = rig.attach_open("alpha");
    let text = session
        .text_demand(
            3,
            TextDemandPurpose::Copy,
            DemandPriority::interactive(),
            DemandIntent::Explicit,
        )
        .unwrap();
    let command = client.replace_text(WorkClass::CopyText, vec![text]).unwrap();
    rig.send(command);
    rig.settle();
    assert!(matches!(
        rig.hear(&events),
        SupervisorEvent::TextExtracted {
            event: TextEvent::Failed {
                error: RuntimeFailure::InvalidPage {
                    page: 3,
                    page_count: 1
                },
                ..
            },
            ..
        }
    ));
    assert!(!rig
        .probe
        .calls
        .borrow()
        .iter()
        .any(|call| matches!(call, Call::Text(..))));
}

#[test]
fn a_batch_that_does_not_fit_is_cancelled_as_a_whole() {
    let mut rig = Rig::new(SupervisorPolicy::new(2, 8).unwrap());
    let (mut client, events, session) = rig.attach_open("alpha");
    let command = client.replace_render_viewport(vec![
        render(&session, 1, DemandPriority::visible()),
        render(&session, 2, DemandPriority::prefetch()),
        render(&session, 3, DemandPriority::visible()),
    ]);
    rig.send(command);
    assert!(matches!(
        rig.hear(&events),
        SupervisorEvent::WorkRejected { rejected: 1, .. }
    ));
    for _ in 0..2 {
        assert!(matches!(
            rig.hear(&events),
            SupervisorEvent::Rendered {
                event: RenderEvent::Cancelled { .. },
                ..
            }
        ));
    }
    assert!(rig.probe.renders().is_empty());
}

#[test]
fn a_viewport_that_finds_no_room_leaves_text_that_is_to_be_copied_alone() {
    let mut rig = Rig::new(SupervisorPolicy::new(2, 8).unwrap());
    let (mut client, events, session) = rig.attach_open("alpha");
    let texts = vec![
        session
            .text_demand(
                0,
                TextDemandPurpose::Copy,
                DemandPriority::prefetch(),
                DemandIntent::Explicit,
            )
            .unwrap(),
    ];
    let command = client.replace_text(WorkClass::CopyText, texts).unwrap();
    rig.send(command);
    let command = client.replace_render_viewport(vec![
        render(&session, 1, DemandPriority::interactive()),
        render(&session, 2, DemandPriority::interactive()),
    ]);
    rig.send(command);
    rig.settle();
    assert!(matches!(
        rig.hear(&events),
        SupervisorEvent::WorkRejected {
            class: WorkClass::RenderViewport,
            rejected: 1,
            ..
        }
    ));
    assert!(matches!(
        rig.hear(&events),
        SupervisorEvent::Rendered {
            event: RenderEvent::Cancelled { .. },
            ..
        }
    ));
    assert!(matches!(
        rig.hear(&events),
        SupervisorEvent::TextExtracted {
            event: TextEvent::Ready { .. },
            ..
        }
    ));
}

#[test]
fn a_detached_document_is_forgotten() {
    let mut rig = Rig::new(SupervisorPolicy::default());
    let (mut client, _events, session) = rig.attach_open("alpha");
    let command =
        client.replace_render_viewport(vec![render(&session, 1, DemandPriority::visible())]);
    rig.send(command);
    let command = client.detach();
    rig.send(command);
    assert_eq!(rig.turn(), Turn::Idle { held_back: false });
    assert!(session.is_cancelled());
    assert!(rig.probe.renders().is_empty());
    assert!(!rig.owner.accept_command(Command::Shutdown));
}

#[test]
fn closing_everything_ends_every_document() {
    let mut rig = Rig::new(SupervisorPolicy::default());
    let (_alpha, _alpha_events, alpha_session) = rig.attach_open("alpha");
    let (_beta, _beta_events, beta_session) = rig.attach_open("beta");
    assert!(!alpha_session.is_cancelled());
    assert!(!beta_session.is_cancelled());
    rig.owner.close_all();
    assert!(alpha_session.is_cancelled());
    assert!(beta_session.is_cancelled());
    assert_eq!(rig.turn(), Turn::Idle { held_back: false });
}

#[test]
fn documents_are_numbered_from_one() {
    let ids = SupervisorIds::new();
    assert_eq!(ids.attach().unwrap().get(), 1);
    assert_eq!(ids.attach().unwrap().get(), 2);
}

#[test]
fn a_document_that_is_opened_in_vain_is_let_go() {
    let mut rig = Rig::new(SupervisorPolicy::default());
    let (client, events, session) = rig.attach_open("alpha");
    let client = Rc::new(RefCell::new(client));
    let command = client.borrow_mut().open("beta");
    rig.send(command);
    let asking = client.clone();
    *rig.probe.after_next_open.borrow_mut() = Some(Box::new(move || {
        let _: Asked = asking.borrow_mut().close();
    }));
    rig.settle();
    match rig.hear(&events) {
        SupervisorEvent::OpenCancelled {
            document,
            generation,
        } => {
            assert_eq!(document, client.borrow().id());
            assert_ne!(generation, session.generation());
        }
        other => panic!("expected a cancelled opening, received {other:?}"),
    }
    assert!(session.cancellation().is_cancelled());
    assert_eq!(
        *rig.probe.calls.borrow(),
        vec![Call::Open("alpha"), Call::Open("beta")]
    );
}

#[test]
fn what_the_engine_gave_is_judged_by_the_flags_as_they_are_then() {
    let mut rig = Rig::new(SupervisorPolicy::default());
    let (_, _, session) = rig.attach_open("alpha");
    let operation = CancellationSource::new();
    let both = session.cancellation().combined(&operation.token());
    let tile = || render(&session, 1, DemandPriority::visible());
    let text = || {
        session
            .text_demand(
                0,
                TextDemandPurpose::Copy,
                DemandPriority::interactive(),
                DemandIntent::Explicit,
            )
            .unwrap()
    };
    let size = RasterSize {
        width: 8,
        height: 4,
    };
    let preview = || {
        session
            .preview_demand(
                0,
                size,
                size,
                PreviewCenter::Pixel { x: 4, y: 2 },
                ColorMode::Original,
                DemandPriority::interactive(),
            )
            .unwrap()
    };

    assert!(matches!(
        conclude_render(tile(), &both, Ok::<_, MockError>(image(16, 16)), &session),
        RenderEvent::Ready { tile, .. } if tile.image == image(16, 16)
    ));
    assert!(matches!(
        conclude_render(tile(), &both, Ok::<_, MockError>(image(16, 15)), &session),
        RenderEvent::Failed {
            error: RuntimeFailure::InvalidEngineOutput(EngineOutputError::UnexpectedDimensions {
                expected_width: 16,
                expected_height: 16,
                actual_width: 16,
                actual_height: 15,
            }),
            ..
        }
    ));
    assert!(matches!(
        conclude_text(text(), &both, Ok::<usize, MockError>(7), &session),
        TextEvent::Ready { text, .. } if text.layer == 7 && text.page == 0
    ));
    assert!(matches!(
        conclude_text(text(), &both, Err::<usize, _>(MockError), &session),
        TextEvent::Failed {
            error: RuntimeFailure::Engine(MockError),
            ..
        }
    ));
    assert!(matches!(
        conclude_preview(preview(), &both, Ok::<_, MockError>(image(8, 4)), &session),
        PreviewEvent::Ready { preview, .. } if preview.image == image(8, 4)
    ));

    operation.cancel();
    assert!(matches!(
        conclude_render(tile(), &both, Ok::<_, MockError>(image(16, 16)), &session),
        RenderEvent::Cancelled { .. }
    ));
    assert!(matches!(
        conclude_text(text(), &both, Err::<usize, _>(MockError), &session),
        TextEvent::Cancelled { .. }
    ));
    assert!(matches!(
        conclude_preview(preview(), &both, Ok::<_, MockError>(image(8, 4)), &session),
        PreviewEvent::Cancelled { .. }
    ));
}

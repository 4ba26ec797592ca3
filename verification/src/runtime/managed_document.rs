//! One document at the owner of an engine: its session, its work, and the
//! events that its window has not taken yet.

use crate::runtime::cancellation::{
    cancel_all, may_go_on, CancellationSource, CancellationToken, CombinedCancellation,
};
use crate::runtime::demand::{PreviewDemand, RenderDemand, TextDemand};
use crate::runtime::engine::{
    DocumentDescriptor, DocumentResource, EngineDocument, EngineOutputError, PdfEngine,
    PreviewEvent, PreviewResource, RasterImage, RenderEvent, RenderResource, RenderedPreview,
    RenderedTile, RuntimeFailure, TextEvent, TextPage, TextResource,
};
use crate::runtime::session::{
    AllocationError, DocumentGeneration, DocumentSession, DocumentSessionManager, ResourceHandle,
    SessionError,
};
use crate::runtime::supervisor::{
    EventRoute, SupervisorDocumentId, SupervisorEvent, SupervisorRouteError,
};
use crate::runtime::work_queue::{PendingKind, PendingWork, Work, WorkKey, WorkQueue};
use std::sync::atomic::AtomicBool;
use vstd::prelude::*;

verus! {

/// One document at the owner.
#[derive(Debug)]
pub struct ManagedDocument<D, S, E, L, R> {
    pub sessions: DocumentSessionManager,
    pub document: Option<D>,
    pub document_handle: Option<ResourceHandle<DocumentResource>>,
    pub descriptor: Option<DocumentDescriptor>,
    /// The way to the window. It is there whenever nothing is on its way.
    pub route: Option<R>,
    /// In the order in which the window is to hear them.
    pub events: Vec<SupervisorEvent<E, L>>,
    pub work: WorkQueue<S>,
}

/// The generation that a document has open.
pub open spec fn current_generation(sessions: DocumentSessionManager) -> Option<
    DocumentGeneration,
> {
    match sessions.active() {
        Some(session) => Some(session.spec_generation()),
        None => None,
    }
}

impl<D, S, E, L, R> ManagedDocument<D, S, E, L, R> {
    /// A document is open whole or not at all, and only under a session; the
    /// work that waits is within its bound.
    pub open spec fn wf(&self, capacity: usize) -> bool {
        &&& self.sessions.wf()
        &&& self.work.wf()
        &&& self.route is Some
        &&& self.work.pending().dom().len() <= capacity
        &&& self.document is Some <==> self.descriptor is Some
        &&& self.document is Some <==> self.document_handle is Some
        &&& self.document_handle matches Some(handle) ==> current_generation(self.sessions)
            == Some(handle.generation)
    }

    /// Nothing is open and nothing waits.
    pub open spec fn is_clear(&self) -> bool {
        &&& self.sessions.active() is None
        &&& self.document is None
        &&& self.document_handle is None
        &&& self.descriptor is None
        &&& self.work.pending() == Map::<WorkKey, PendingWork<S>>::empty()
    }

    /// The flag of the session and those of all that waited were set.
    pub open spec fn was_ended(&self) -> bool {
        &&& self.sessions.active() matches Some(session)
            ==> crate::runtime::cancellation::is_set(session.flag())
        &&& forall|key: WorkKey| #[trigger]
            self.work.pending().contains_key(key) ==> crate::runtime::cancellation::is_set(
                self.work.pending()[key].cancellation.flag(),
            )
    }

    /// A document that was never opened.
    pub fn new(route: R) -> (document: Self)
        ensures
            document.wf(0),
            document.is_clear(),
            document.sessions.next() == 1,
            document.work.next() == 1,
            document.route == Some(route),
            document.events@.len() == 0,
    {
        ManagedDocument {
            sessions: DocumentSessionManager::new(),
            document: None,
            document_handle: None,
            descriptor: None,
            route: Some(route),
            events: Vec::new(),
            work: WorkQueue::new(),
        }
    }

    /// Ends the session, drops the work and closes the document.
    pub fn cancel_and_clear(&mut self, capacity: usize)
        requires
            old(self).wf(capacity),
        ensures
            final(self).wf(capacity),
            final(self).is_clear(),
            final(self).sessions.next() == old(self).sessions.next(),
            final(self).work.next() == old(self).work.next(),
            final(self).events == old(self).events,
            final(self).route == old(self).route,
            old(self).was_ended(),
    {
        let ghost start = *self;
        let _ = self.sessions.close();
        let revoked = self.work.clear();
        cancel_all(&revoked);
        proof {
            crate::runtime::work_queue::lemma_dropped_are_cancelled(
                revoked@,
                start.work.pending(),
                self.work.pending(),
            );
        }
        self.document = None;
        self.document_handle = None;
        self.descriptor = None;
        assert(self.work.pending().dom() =~= Set::<WorkKey>::empty());
    }

    /// The session of a generation, if it is current and was not ended.
    fn current_session(&self, generation: DocumentGeneration) -> (session: Option<DocumentSession>)
        ensures
            match self.sessions.active() {
                Some(active) => if active.spec_generation() == generation {
                    match session {
                        Some(session) => session == active && crate::runtime::cancellation::seen(
                            active.flag(),
                            false,
                        ),
                        None => crate::runtime::cancellation::seen(active.flag(), true),
                    }
                } else {
                    session is None
                },
                None => session is None,
            },
    {
        match self.sessions.current() {
            Some(session) => if session.generation() == generation && !session.is_cancelled() {
                Some(session.clone())
            } else {
                None
            },
            None => None,
        }
    }

    /// Delivers events until one is handed back. Returns whether the window is
    /// still there.
    pub fn flush_events(&mut self) -> (connected: bool) where R: EventRoute<E, L>
        requires
            old(self).route is Some,
        ensures
            final(self).route is Some,
            final(self).sessions == old(self).sessions,
            final(self).document == old(self).document,
            final(self).document_handle == old(self).document_handle,
            final(self).descriptor == old(self).descriptor,
            final(self).work == old(self).work,
            connected ==> exists|sent: int|
                0 <= sent <= old(self).events@.len() && #[trigger] remains(
                    old(self).route->Some_0,
                    final(self).route->Some_0,
                    old(self).events@,
                    final(self).events@,
                    sent,
                ),
            !connected ==> hung_up(old(self).route->Some_0, old(self).events@),
            old(self).events@.len() == 0 ==> connected && *final(self) == *old(self),
    {
        let ghost start = self.events@;
        let mut window = self.route.take().unwrap();
        let ghost first = window;
        let ghost mut sent: int = 0;
        let ghost mut windows: Seq<R> = seq![window];
        assert(start.skip(0) =~= start);
        while self.events.len() > 0
            invariant
                0 <= sent <= start.len(),
                self.events@ == start.skip(sent),
                self.sessions == old(self).sessions,
                self.document == old(self).document,
                self.document_handle == old(self).document_handle,
                self.descriptor == old(self).descriptor,
                self.work == old(self).work,
                start == old(self).events@,
                old(self).route == Some(first),
                start.len() == 0 ==> self.events == old(self).events && window == first,
                delivered(first, windows, start, sent),
                window == windows.last(),
            decreases self.events@.len(),
        {
            let event = self.events.remove(0);
            let ghost routed = event;
            assert(routed == start[sent]);
            assert(self.events@ =~= start.skip(sent + 1));
            let step = hand_over(window, event);
            let ghost after = step.route;
            let ghost answer = step.answer;
            assert(was_routed(windows.last(), after, routed, answer));
            window = step.route;
            match step.answer {
                Ok(()) => {
                    proof {
                        assert(answer->Ok_0 == ());
                        let later = windows.push(after);
                        assert forall|i: int| 0 <= i < sent + 1 implies was_routed(
                            later[i],
                            later[i + 1],
                            #[trigger] start[i],
                            Ok(()),
                        ) by {
                            if i < sent {
                                assert(was_routed(windows[i], windows[i + 1], start[i], Ok(())));
                            } else {
                                assert(later[i] == windows.last());
                            }
                        }
                        windows = later;
                        sent = sent + 1;
                    }
                },
                Err(SupervisorRouteError::Full(event)) => {
                    let ghost rest = self.events@;
                    self.events.insert(0, event);
                    self.route = Some(window);
                    proof {
                        assert(self.events@.skip(1) =~= rest);
                        assert(remains_after(
                            first,
                            after,
                            start,
                            self.events@,
                            sent,
                            windows,
                        ));
                        assert(self.route->Some_0 == after);
                        assert(remains(
                            old(self).route->Some_0,
                            self.route->Some_0,
                            old(self).events@,
                            self.events@,
                            sent,
                        ));
                    }
                    return true;
                },
                Err(SupervisorRouteError::Disconnected) => {
                    self.route = Some(window);
                    proof {
                        assert(was_gone(windows.last(), start[sent]));
                        assert(delivered(first, windows, start, sent));
                    }
                    return false;
                },
            }
        }
        let ghost last = window;
        self.route = Some(window);
        proof {
            assert(remains_after(first, last, start, self.events@, sent, windows));
            assert(self.route->Some_0 == last);
            assert(remains(
                old(self).route->Some_0,
                self.route->Some_0,
                old(self).events@,
                self.events@,
                sent,
            ));
        }
        true
    }
}

/// What a window answered to an event, and the way to it after that.
pub struct RouteStep<E, L, R> {
    pub route: R,
    pub answer: Result<(), SupervisorRouteError<E, L>>,
}

/// Hands an event to a window.
pub fn hand_over<E, L, R: EventRoute<E, L>>(route: R, event: SupervisorEvent<E, L>) -> (step:
    RouteStep<E, L, R>)
    ensures
        exists|window: &mut R, answer: Result<(), SupervisorRouteError<E, L>>| #[trigger]
            call_ensures(R::route, (window, event), answer) && *window == route && *final(window)
                == step.route && answer == step.answer,
{
    let mut after = route;
    let answer = after.route(event);
    assert(exists|window: &mut R| #[trigger]
        call_ensures(R::route, (window, event), answer) && *window == route && *final(window)
            == after);
    RouteStep { route: after, answer }
}

/// An event was handed to a window, which answered this; the way to it was one
/// before and another after that.
pub open spec fn was_routed<E, L, R: EventRoute<E, L>>(
    before: R,
    after: R,
    event: SupervisorEvent<E, L>,
    answer: Result<(), SupervisorRouteError<E, L>>,
) -> bool {
    call_ensures(hand_over::<E, L, R>, (before, event), RouteStep { route: after, answer })
}

/// An event was handed to a window that was gone.
pub open spec fn was_gone<E, L, R: EventRoute<E, L>>(
    window: R,
    event: SupervisorEvent<E, L>,
) -> bool {
    exists|after: R| #[trigger]
        was_routed(window, after, event, Err(SupervisorRouteError::Disconnected))
}

/// The window took the first `sent` events, one after the other. The states are
/// those of the way to it before each of them and after the last.
pub open spec fn delivered<E, L, R: EventRoute<E, L>>(
    window: R,
    windows: Seq<R>,
    events: Seq<SupervisorEvent<E, L>>,
    sent: int,
) -> bool {
    &&& windows.len() == sent + 1
    &&& windows[0] == window
    &&& forall|i: int|
        0 <= i < sent ==> was_routed(windows[i], windows[i + 1], #[trigger] events[i], Ok(()))
}

/// The window took some of the events, and was gone when it came to the next.
pub open spec fn hung_up<E, L, R: EventRoute<E, L>>(
    window: R,
    events: Seq<SupervisorEvent<E, L>>,
) -> bool {
    exists|sent: int, windows: Seq<R>|
        0 <= sent < events.len() && #[trigger] delivered(window, windows, events, sent) && was_gone(
            windows.last(),
            events[sent],
        )
}

/// What is left of a list of events when the window took `sent` of them. The
/// first of those left is what the window handed back.
pub open spec fn remains_after<E, L, R: EventRoute<E, L>>(
    window: R,
    final_window: R,
    before: Seq<SupervisorEvent<E, L>>,
    after: Seq<SupervisorEvent<E, L>>,
    sent: int,
    windows: Seq<R>,
) -> bool {
    &&& delivered(window, windows, before, sent)
    &&& after.len() == before.len() - sent
    &&& if after.len() > 0 {
        after.skip(1) == before.skip(sent + 1) && was_routed(
            windows.last(),
            final_window,
            before[sent],
            Err(SupervisorRouteError::Full(after[0])),
        )
    } else {
        final_window == windows.last()
    }
}

/// What is left of a list of events when the window took `sent` of them.
pub open spec fn remains<E, L, R: EventRoute<E, L>>(
    window: R,
    final_window: R,
    before: Seq<SupervisorEvent<E, L>>,
    after: Seq<SupervisorEvent<E, L>>,
    sent: int,
) -> bool {
    exists|windows: Seq<R>| #[trigger]
        remains_after(window, final_window, before, after, sent, windows)
}

/// What is wrong with the page of a demand.
pub open spec fn page_failure(descriptor: Option<DocumentDescriptor>, page: usize) -> Option<
    PageFailure,
> {
    match descriptor {
        None => Some(PageFailure::NoDocument),
        Some(descriptor) => if page >= descriptor.pages@.len() {
            Some(PageFailure::InvalidPage { page, page_count: descriptor.pages@.len() as usize })
        } else {
            None
        },
    }
}

/// The ways in which the page of a demand can be wrong.
#[derive(Clone, Copy, Debug, PartialEq, Eq, Structural)]
pub enum PageFailure {
    NoDocument,
    InvalidPage { page: usize, page_count: usize },
}

/// A wrong page as the failure that the window hears.
pub open spec fn page_runtime_failure<E>(failure: PageFailure) -> RuntimeFailure<E> {
    match failure {
        PageFailure::NoDocument => RuntimeFailure::NoDocument,
        PageFailure::InvalidPage { page, page_count } => RuntimeFailure::InvalidPage {
            page,
            page_count,
        },
    }
}

/// Checks the page of a demand.
pub fn validate_page<E>(descriptor: &Option<DocumentDescriptor>, page: usize) -> (checked: Result<
    (),
    RuntimeFailure<E>,
>)
    ensures
        match page_failure(*descriptor, page) {
            None => checked is Ok,
            Some(failure) => checked == Err::<(), RuntimeFailure<E>>(
                page_runtime_failure(failure),
            ),
        },
{
    match descriptor {
        None => Err(RuntimeFailure::NoDocument),
        Some(descriptor) => if page >= descriptor.page_count() {
            Err(RuntimeFailure::InvalidPage { page, page_count: descriptor.page_count() })
        } else {
            Ok(())
        },
    }
}

/// Checks that an image has the size that was asked for.
pub fn validate_image<E>(image: &RasterImage, width: u32, height: u32) -> (checked: Result<
    (),
    RuntimeFailure<E>,
>)
    ensures
        if image.width == width && image.height == height {
            checked is Ok
        } else {
            checked == Err::<(), RuntimeFailure<E>>(
                RuntimeFailure::InvalidEngineOutput(
                    EngineOutputError::UnexpectedDimensions {
                        expected_width: width,
                        expected_height: height,
                        actual_width: image.width,
                        actual_height: image.height,
                    },
                ),
            )
        },
{
    if image.width != width || image.height != height {
        Err(
            RuntimeFailure::InvalidEngineOutput(
                EngineOutputError::UnexpectedDimensions {
                    expected_width: width,
                    expected_height: height,
                    actual_width: image.width,
                    actual_height: image.height,
                },
            ),
        )
    } else {
        Ok(())
    }
}

/// What becomes of what the engine gave for a demand that nobody cancelled. It
/// is handed on under a handle of the session, as long as there are handles.
pub open spec fn render_verdict<E>(
    demand: RenderDemand,
    result: Result<RasterImage, E>,
    session: DocumentSession,
    event: RenderEvent<E>,
) -> bool {
    match result {
        Err(error) => event == (RenderEvent::Failed {
            stamp: demand.stamp,
            error: RuntimeFailure::Engine(error),
        }),
        Ok(image) => if image.width != demand.render_rect.width || image.height
            != demand.render_rect.height {
            event == (RenderEvent::<E>::Failed {
                stamp: demand.stamp,
                error: RuntimeFailure::InvalidEngineOutput(
                    EngineOutputError::UnexpectedDimensions {
                        expected_width: demand.render_rect.width,
                        expected_height: demand.render_rect.height,
                        actual_width: image.width,
                        actual_height: image.height,
                    },
                ),
            })
        } else {
            ||| event matches RenderEvent::Ready { demand: done, tile } && done == demand && tile.image
                == image && session.issued(Ok(tile.resource))
            ||| event == (RenderEvent::<E>::Failed {
                stamp: demand.stamp,
                error: RuntimeFailure::Allocation(AllocationError::ResourceIdsExhausted),
            }) && session.issued::<RenderResource>(
                Err(AllocationError::ResourceIdsExhausted),
            )
        },
    }
}

/// What becomes of a rendered tile, given what its flags were seen to be after
/// the engine was done and the handle that the session gave. The handle is
/// asked for only where the result can be published.
pub fn judge_render<E>(
    demand: RenderDemand,
    cancelled: bool,
    result: Result<RasterImage, E>,
    session: &DocumentSession,
) -> (event: RenderEvent<E>)
    ensures
        cancelled ==> event == (RenderEvent::<E>::Cancelled { stamp: demand.stamp }),
        !cancelled ==> render_verdict(demand, result, *session, event),
{
    let stamp = demand.stamp();
    if cancelled {
        return RenderEvent::Cancelled { stamp };
    }
    match result {
        Ok(image) => {
            let expected = demand.render_rect();
            if let Err(error) = validate_image(&image, expected.width, expected.height) {
                return RenderEvent::Failed { stamp, error };
            }
            match session.allocate_resource::<RenderResource>() {
                Ok(resource) => RenderEvent::Ready {
                    demand,
                    tile: RenderedTile { resource, image },
                },
                Err(error) => RenderEvent::Failed {
                    stamp,
                    error: RuntimeFailure::Allocation(error),
                },
            }
        },
        Err(error) => RenderEvent::Failed { stamp, error: RuntimeFailure::Engine(error) },
    }
}

/// Looks at the flags with what the engine gave in hand, and says what becomes of it.
pub fn conclude_render<E>(
    demand: RenderDemand,
    cancellation: &CombinedCancellation,
    result: Result<RasterImage, E>,
    session: &DocumentSession,
) -> (event: RenderEvent<E>)
    ensures
        exists|cancelled: bool| #[trigger]
            crate::runtime::cancellation::either_seen(
                cancellation.first.flag(),
                cancellation.second.flag(),
                cancelled,
            ) && if cancelled {
                event == (RenderEvent::<E>::Cancelled { stamp: demand.stamp })
            } else {
                render_verdict(demand, result, *session, event)
            },
{
    let cancelled = cancellation.is_cancelled();
    judge_render(demand, cancelled, result, session)
}

/// With what the engine gave in hand the flags were looked at, and this event came of it.
pub open spec fn was_concluded_render<E>(
    demand: RenderDemand,
    operation: AtomicBool,
    result: Result<RasterImage, E>,
    session: DocumentSession,
    event: RenderEvent<E>,
) -> bool {
    exists|cancellation: &CombinedCancellation| #[trigger]
        call_ensures(
            conclude_render::<E>,
            (demand, cancellation, result, &session),
            event,
        ) && cancellation.is_of(session.flag(), operation)
}

/// What becomes of what the engine gave for a demand that nobody cancelled. It
/// is handed on under a handle of the session, as long as there are handles.
pub open spec fn text_verdict<E, L>(
    demand: TextDemand,
    result: Result<L, E>,
    session: DocumentSession,
    event: TextEvent<E, L>,
) -> bool {
    match result {
        Err(error) => event == (TextEvent::<E, L>::Failed {
            stamp: demand.stamp,
            error: RuntimeFailure::Engine(error),
        }),
        Ok(layer) => {
            ||| event matches TextEvent::Ready { demand: done, text } && done == demand
                && text.layer == layer && text.page == demand.page && session.issued(
                Ok(text.resource),
            )
            ||| event == (TextEvent::<E, L>::Failed {
                stamp: demand.stamp,
                error: RuntimeFailure::Allocation(AllocationError::ResourceIdsExhausted),
            }) && session.issued::<TextResource>(
                Err(AllocationError::ResourceIdsExhausted),
            )
        },
    }
}

/// What becomes of extracted text, given what its flags were seen to be after
/// the engine was done.
pub fn judge_text<E, L>(
    demand: TextDemand,
    cancelled: bool,
    result: Result<L, E>,
    session: &DocumentSession,
) -> (event: TextEvent<E, L>)
    ensures
        cancelled ==> event == (TextEvent::<E, L>::Cancelled { stamp: demand.stamp }),
        !cancelled ==> text_verdict(demand, result, *session, event),
{
    let stamp = demand.stamp();
    if cancelled {
        return TextEvent::Cancelled { stamp };
    }
    match result {
        Ok(layer) => match session.allocate_resource::<TextResource>() {
            Ok(resource) => TextEvent::Ready {
                text: TextPage { resource, page: demand.page(), layer },
                demand,
            },
            Err(error) => TextEvent::Failed { stamp, error: RuntimeFailure::Allocation(error) },
        },
        Err(error) => TextEvent::Failed { stamp, error: RuntimeFailure::Engine(error) },
    }
}

/// Looks at the flags with what the engine gave in hand, and says what becomes of it.
pub fn conclude_text<E, L>(
    demand: TextDemand,
    cancellation: &CombinedCancellation,
    result: Result<L, E>,
    session: &DocumentSession,
) -> (event: TextEvent<E, L>)
    ensures
        exists|cancelled: bool| #[trigger]
            crate::runtime::cancellation::either_seen(
                cancellation.first.flag(),
                cancellation.second.flag(),
                cancelled,
            ) && if cancelled {
                event == (TextEvent::<E, L>::Cancelled { stamp: demand.stamp })
            } else {
                text_verdict(demand, result, *session, event)
            },
{
    let cancelled = cancellation.is_cancelled();
    judge_text(demand, cancelled, result, session)
}

/// With what the engine gave in hand the flags were looked at, and this event came of it.
pub open spec fn was_concluded_text<E, L>(
    demand: TextDemand,
    operation: AtomicBool,
    result: Result<L, E>,
    session: DocumentSession,
    event: TextEvent<E, L>,
) -> bool {
    exists|cancellation: &CombinedCancellation| #[trigger]
        call_ensures(
            conclude_text::<E, L>,
            (demand, cancellation, result, &session),
            event,
        ) && cancellation.is_of(session.flag(), operation)
}

/// What becomes of what the engine gave for a demand that nobody cancelled. It
/// is handed on under a handle of the session, as long as there are handles.
pub open spec fn preview_verdict<E>(
    demand: PreviewDemand,
    result: Result<RasterImage, E>,
    session: DocumentSession,
    event: PreviewEvent<E>,
) -> bool {
    match result {
        Err(error) => event == (PreviewEvent::Failed {
            stamp: demand.stamp,
            error: RuntimeFailure::Engine(error),
        }),
        Ok(image) => if image.width != demand.region.width || image.height
            != demand.region.height {
            event == (PreviewEvent::<E>::Failed {
                stamp: demand.stamp,
                error: RuntimeFailure::InvalidEngineOutput(
                    EngineOutputError::UnexpectedDimensions {
                        expected_width: demand.region.width,
                        expected_height: demand.region.height,
                        actual_width: image.width,
                        actual_height: image.height,
                    },
                ),
            })
        } else {
            ||| event matches PreviewEvent::Ready { demand: done, preview } && done == demand
                && preview.image == image && preview.page == demand.page
                && session.issued(Ok(preview.resource))
            ||| event == (PreviewEvent::<E>::Failed {
                stamp: demand.stamp,
                error: RuntimeFailure::Allocation(AllocationError::ResourceIdsExhausted),
            }) && session.issued::<PreviewResource>(
                Err(AllocationError::ResourceIdsExhausted),
            )
        },
    }
}

/// What becomes of a rendered preview, given what its flags were seen to be
/// after the engine was done.
pub fn judge_preview<E>(
    demand: PreviewDemand,
    cancelled: bool,
    result: Result<RasterImage, E>,
    session: &DocumentSession,
) -> (event: PreviewEvent<E>)
    ensures
        cancelled ==> event == (PreviewEvent::<E>::Cancelled { stamp: demand.stamp }),
        !cancelled ==> preview_verdict(demand, result, *session, event),
{
    let stamp = demand.stamp();
    if cancelled {
        return PreviewEvent::Cancelled { stamp };
    }
    match result {
        Ok(image) => {
            let expected = demand.region();
            if let Err(error) = validate_image(&image, expected.width, expected.height) {
                return PreviewEvent::Failed { stamp, error };
            }
            match session.allocate_resource::<PreviewResource>() {
                Ok(resource) => PreviewEvent::Ready {
                    preview: RenderedPreview { resource, page: demand.page(), image },
                    demand,
                },
                Err(error) => PreviewEvent::Failed {
                    stamp,
                    error: RuntimeFailure::Allocation(error),
                },
            }
        },
        Err(error) => PreviewEvent::Failed { stamp, error: RuntimeFailure::Engine(error) },
    }
}

/// Looks at the flags with what the engine gave in hand, and says what becomes of it.
pub fn conclude_preview<E>(
    demand: PreviewDemand,
    cancellation: &CombinedCancellation,
    result: Result<RasterImage, E>,
    session: &DocumentSession,
) -> (event: PreviewEvent<E>)
    ensures
        exists|cancelled: bool| #[trigger]
            crate::runtime::cancellation::either_seen(
                cancellation.first.flag(),
                cancellation.second.flag(),
                cancelled,
            ) && if cancelled {
                event == (PreviewEvent::<E>::Cancelled { stamp: demand.stamp })
            } else {
                preview_verdict(demand, result, *session, event)
            },
{
    let cancelled = cancellation.is_cancelled();
    judge_preview(demand, cancelled, result, session)
}

/// With what the engine gave in hand the flags were looked at, and this event came of it.
pub open spec fn was_concluded_preview<E>(
    demand: PreviewDemand,
    operation: AtomicBool,
    result: Result<RasterImage, E>,
    session: DocumentSession,
    event: PreviewEvent<E>,
) -> bool {
    exists|cancellation: &CombinedCancellation| #[trigger]
        call_ensures(
            conclude_preview::<E>,
            (demand, cancellation, result, &session),
            event,
        ) && cancellation.is_of(session.flag(), operation)
}

/// What the engine gave, and what it left of the document.
pub struct EngineStep<D, O> {
    pub document: D,
    pub result: O,
}

/// The fields that a piece of engine work leaves alone.
pub open spec fn only_engine_work<D, S, E, L, R>(
    before: ManagedDocument<D, S, E, L, R>,
    after: ManagedDocument<D, S, E, L, R>,
) -> bool {
    &&& after.sessions == before.sessions
    &&& after.document is Some <==> before.document is Some
    &&& after.document_handle == before.document_handle
    &&& after.descriptor == before.descriptor
    &&& after.route == before.route
    &&& after.events == before.events
    &&& after.work == before.work
}

/// What a render demand can come to. One of another generation is discarded;
/// one whose session or flag was cancelled says so; one for a page that is not
/// there fails; and otherwise, the flags being seen unset, the engine was asked for
/// it. Where it was not asked the document is as it was, and else what it left.
pub open spec fn render_outcome<D: EngineDocument>(
    active: Option<DocumentSession>,
    operation: AtomicBool,
    document: Option<D>,
    left: Option<D>,
    descriptor: Option<DocumentDescriptor>,
    demand: RenderDemand,
    event: RenderEvent<D::Error>,
) -> bool {
    match active {
        Some(session) => if session.spec_generation() != demand.stamp.generation {
            left == document && event == (RenderEvent::<D::Error>::Discarded { stamp: demand.stamp })
        } else {
            ||| left == document && event == (RenderEvent::<D::Error>::Discarded { stamp: demand.stamp })
                && crate::runtime::cancellation::seen(session.flag(), true)
            ||| left == document && event == (RenderEvent::<D::Error>::Cancelled { stamp: demand.stamp })
                && crate::runtime::cancellation::was_let_on(
                demand,
                session.flag(),
                operation,
                false,
            )
            ||| crate::runtime::cancellation::was_let_on(demand, session.flag(), operation, true)
                && match page_failure(descriptor, demand.key.page) {
                Some(failure) => left == document && event == (RenderEvent::<D::Error>::Failed {
                    stamp: demand.stamp,
                    error: page_runtime_failure(failure),
                }),
                None => exists|result: Result<RasterImage, D::Error>| #[trigger]
                    engine_gave_render::<D>(
                        document,
                        left,
                        session.flag(),
                        operation,
                        demand,
                        result,
                    ) && was_concluded_render(demand, operation, result, session, event),
            }
        },
        None => left == document && event == (RenderEvent::<D::Error>::Discarded { stamp: demand.stamp }),
    }
}

/// Draws a tile of a document, for a demand that neither flag was seen to cancel.
pub fn ask_render<D: EngineDocument>(
    document: D,
    demand: &RenderDemand,
    cancellation: &CombinedCancellation,
) -> (step: EngineStep<D, Result<RasterImage, D::Error>>)
    requires
        crate::runtime::cancellation::was_let_on(
            *demand,
            cancellation.first.flag(),
            cancellation.second.flag(),
            true,
        ),
    ensures
        exists|asked: &mut D, result: Result<RasterImage, D::Error>| #[trigger]
            call_ensures(D::render, (asked, demand, cancellation), result) && *asked == document
                && *final(asked) == step.document && result == step.result,
{
    let mut left = document;
    let result = left.render(demand, cancellation);
    assert(exists|asked: &mut D| #[trigger]
        call_ensures(D::render, (asked, demand, cancellation), result) && *asked == document
            && *final(asked) == left);
    EngineStep { document: left, result }
}

/// The engine was asked for this of a document, under these flags, and gave this. The
/// document was one before and another after that.
pub open spec fn engine_gave_render<D: EngineDocument>(
    asked: Option<D>,
    left: Option<D>,
    session: AtomicBool,
    operation: AtomicBool,
    demand: RenderDemand,
    result: Result<RasterImage, D::Error>,
) -> bool {
    &&& asked is Some
    &&& left is Some
    &&& exists|cancellation: &CombinedCancellation| #[trigger]
        call_ensures(
            ask_render::<D>,
            (asked->Some_0, &demand, cancellation),
            EngineStep { document: left->Some_0, result },
        ) && cancellation.is_of(session, operation)
}

/// What a text demand can come to. One of another generation is discarded;
/// one whose session or flag was cancelled says so; one for a page that is not
/// there fails; and otherwise, the flags being seen unset, the engine was asked for
/// it. Where it was not asked the document is as it was, and else what it left.
pub open spec fn text_outcome<D: EngineDocument>(
    active: Option<DocumentSession>,
    operation: AtomicBool,
    document: Option<D>,
    left: Option<D>,
    descriptor: Option<DocumentDescriptor>,
    demand: TextDemand,
    event: TextEvent<D::Error, D::Text>,
) -> bool {
    match active {
        Some(session) => if session.spec_generation() != demand.stamp.generation {
            left == document && event == (TextEvent::<D::Error, D::Text>::Discarded { stamp: demand.stamp })
        } else {
            ||| left == document && event == (TextEvent::<D::Error, D::Text>::Discarded { stamp: demand.stamp })
                && crate::runtime::cancellation::seen(session.flag(), true)
            ||| left == document && event == (TextEvent::<D::Error, D::Text>::Cancelled { stamp: demand.stamp })
                && crate::runtime::cancellation::was_let_on(
                demand,
                session.flag(),
                operation,
                false,
            )
            ||| crate::runtime::cancellation::was_let_on(demand, session.flag(), operation, true)
                && match page_failure(descriptor, demand.page) {
                Some(failure) => left == document && event == (TextEvent::<D::Error, D::Text>::Failed {
                    stamp: demand.stamp,
                    error: page_runtime_failure(failure),
                }),
                None => exists|result: Result<D::Text, D::Error>| #[trigger]
                    engine_gave_text::<D>(
                        document,
                        left,
                        session.flag(),
                        operation,
                        demand,
                        result,
                    ) && was_concluded_text(demand, operation, result, session, event),
            }
        },
        None => left == document && event == (TextEvent::<D::Error, D::Text>::Discarded { stamp: demand.stamp }),
    }
}

/// Reads the text of a page of a document, for a demand that neither flag was seen to cancel.
pub fn ask_text<D: EngineDocument>(
    document: D,
    demand: &TextDemand,
    cancellation: &CombinedCancellation,
) -> (step: EngineStep<D, Result<D::Text, D::Error>>)
    requires
        crate::runtime::cancellation::was_let_on(
            *demand,
            cancellation.first.flag(),
            cancellation.second.flag(),
            true,
        ),
    ensures
        exists|asked: &mut D, result: Result<D::Text, D::Error>| #[trigger]
            call_ensures(D::extract_text, (asked, demand, cancellation), result) && *asked == document
                && *final(asked) == step.document && result == step.result,
{
    let mut left = document;
    let result = left.extract_text(demand, cancellation);
    assert(exists|asked: &mut D| #[trigger]
        call_ensures(D::extract_text, (asked, demand, cancellation), result) && *asked == document
            && *final(asked) == left);
    EngineStep { document: left, result }
}

/// The engine was asked for this of a document, under these flags, and gave this. The
/// document was one before and another after that.
pub open spec fn engine_gave_text<D: EngineDocument>(
    asked: Option<D>,
    left: Option<D>,
    session: AtomicBool,
    operation: AtomicBool,
    demand: TextDemand,
    result: Result<D::Text, D::Error>,
) -> bool {
    &&& asked is Some
    &&& left is Some
    &&& exists|cancellation: &CombinedCancellation| #[trigger]
        call_ensures(
            ask_text::<D>,
            (asked->Some_0, &demand, cancellation),
            EngineStep { document: left->Some_0, result },
        ) && cancellation.is_of(session, operation)
}

/// What a preview demand can come to. One of another generation is discarded;
/// one whose session or flag was cancelled says so; one for a page that is not
/// there fails; and otherwise, the flags being seen unset, the engine was asked for
/// it. Where it was not asked the document is as it was, and else what it left.
pub open spec fn preview_outcome<D: EngineDocument>(
    active: Option<DocumentSession>,
    operation: AtomicBool,
    document: Option<D>,
    left: Option<D>,
    descriptor: Option<DocumentDescriptor>,
    demand: PreviewDemand,
    event: PreviewEvent<D::Error>,
) -> bool {
    match active {
        Some(session) => if session.spec_generation() != demand.stamp.generation {
            left == document && event == (PreviewEvent::<D::Error>::Discarded { stamp: demand.stamp })
        } else {
            ||| left == document && event == (PreviewEvent::<D::Error>::Discarded { stamp: demand.stamp })
                && crate::runtime::cancellation::seen(session.flag(), true)
            ||| left == document && event == (PreviewEvent::<D::Error>::Cancelled { stamp: demand.stamp })
                && crate::runtime::cancellation::was_let_on(
                demand,
                session.flag(),
                operation,
                false,
            )
            ||| crate::runtime::cancellation::was_let_on(demand, session.flag(), operation, true)
                && match page_failure(descriptor, demand.page) {
                Some(failure) => left == document && event == (PreviewEvent::<D::Error>::Failed {
                    stamp: demand.stamp,
                    error: page_runtime_failure(failure),
                }),
                None => exists|result: Result<RasterImage, D::Error>| #[trigger]
                    engine_gave_preview::<D>(
                        document,
                        left,
                        session.flag(),
                        operation,
                        demand,
                        result,
                    ) && was_concluded_preview(demand, operation, result, session, event),
            }
        },
        None => left == document && event == (PreviewEvent::<D::Error>::Discarded { stamp: demand.stamp }),
    }
}

/// Draws a preview of a page of a document, for a demand that neither flag was seen
/// to cancel.
pub fn ask_preview<D: EngineDocument>(
    document: D,
    demand: &PreviewDemand,
    cancellation: &CombinedCancellation,
) -> (step: EngineStep<D, Result<RasterImage, D::Error>>)
    requires
        crate::runtime::cancellation::was_let_on(
            *demand,
            cancellation.first.flag(),
            cancellation.second.flag(),
            true,
        ),
    ensures
        exists|asked: &mut D, result: Result<RasterImage, D::Error>| #[trigger]
            call_ensures(D::render_preview, (asked, demand, cancellation), result) && *asked == document
                && *final(asked) == step.document && result == step.result,
{
    let mut left = document;
    let result = left.render_preview(demand, cancellation);
    assert(exists|asked: &mut D| #[trigger]
        call_ensures(D::render_preview, (asked, demand, cancellation), result) && *asked == document
            && *final(asked) == left);
    EngineStep { document: left, result }
}

/// The engine was asked for this of a document, under these flags, and gave this. The
/// document was one before and another after that.
pub open spec fn engine_gave_preview<D: EngineDocument>(
    asked: Option<D>,
    left: Option<D>,
    session: AtomicBool,
    operation: AtomicBool,
    demand: PreviewDemand,
    result: Result<RasterImage, D::Error>,
) -> bool {
    &&& asked is Some
    &&& left is Some
    &&& exists|cancellation: &CombinedCancellation| #[trigger]
        call_ensures(
            ask_preview::<D>,
            (asked->Some_0, &demand, cancellation),
            EngineStep { document: left->Some_0, result },
        ) && cancellation.is_of(session, operation)
}

/// A window never hears of a result, good or bad, of a document that is not the
/// one that is open: what is ready or failed is of the generation of the session
/// that is active, what is ready is of a page that the document has, and its
/// handle is one of that generation.
pub proof fn law_stale_renders_are_never_reported<D: EngineDocument>(
    active: Option<DocumentSession>,
    operation: AtomicBool,
    document: Option<D>,
    left: Option<D>,
    descriptor: Option<DocumentDescriptor>,
    demand: RenderDemand,
    event: RenderEvent<D::Error>,
)
    requires
        render_outcome(active, operation, document, left, descriptor, demand, event),
    ensures
        event is Ready || event is Failed ==> (active matches Some(session)
            && session.spec_generation() == demand.stamp.generation),
        event matches RenderEvent::Ready { demand: done, tile } ==> {
            &&& done == demand
            &&& descriptor matches Some(descriptor) && demand.key.page < descriptor.pages@.len()
            &&& tile.resource.generation == demand.stamp.generation
            &&& tile.image.width == demand.render_rect.width
            &&& tile.image.height == demand.render_rect.height
        },
        (event is Ready || event is Failed || left != document) ==> (active matches Some(session)
            && session.spec_generation() == demand.stamp.generation
            && crate::runtime::cancellation::either_seen(session.flag(), operation, false)),
{
}

/// A window never hears of text, or of a failure to read it, of a document that
/// is not the one that is open.
pub proof fn law_stale_text_is_never_reported<D: EngineDocument>(
    active: Option<DocumentSession>,
    operation: AtomicBool,
    document: Option<D>,
    left: Option<D>,
    descriptor: Option<DocumentDescriptor>,
    demand: TextDemand,
    event: TextEvent<D::Error, D::Text>,
)
    requires
        text_outcome(active, operation, document, left, descriptor, demand, event),
    ensures
        event is Ready || event is Failed ==> (active matches Some(session)
            && session.spec_generation() == demand.stamp.generation),
        event matches TextEvent::Ready { demand: done, text } ==> {
            &&& done == demand
            &&& descriptor matches Some(descriptor) && demand.page < descriptor.pages@.len()
            &&& text.resource.generation == demand.stamp.generation
            &&& text.page == demand.page
        },
        (event is Ready || event is Failed || left != document) ==> (active matches Some(session)
            && session.spec_generation() == demand.stamp.generation
            && crate::runtime::cancellation::either_seen(session.flag(), operation, false)),
{
}

/// A window never hears of a preview, or of a failure to make it, of a document
/// that is not the one that is open.
pub proof fn law_stale_previews_are_never_reported<D: EngineDocument>(
    active: Option<DocumentSession>,
    operation: AtomicBool,
    document: Option<D>,
    left: Option<D>,
    descriptor: Option<DocumentDescriptor>,
    demand: PreviewDemand,
    event: PreviewEvent<D::Error>,
)
    requires
        preview_outcome(active, operation, document, left, descriptor, demand, event),
    ensures
        event is Ready || event is Failed ==> (active matches Some(session)
            && session.spec_generation() == demand.stamp.generation),
        event matches PreviewEvent::Ready { demand: done, preview } ==> {
            &&& done == demand
            &&& descriptor matches Some(descriptor) && demand.page < descriptor.pages@.len()
            &&& preview.resource.generation == demand.stamp.generation
            &&& preview.page == demand.page
            &&& preview.image.width == demand.region.width
            &&& preview.image.height == demand.region.height
        },
        (event is Ready || event is Failed || left != document) ==> (active matches Some(session)
            && session.spec_generation() == demand.stamp.generation
            && crate::runtime::cancellation::either_seen(session.flag(), operation, false)),
{
}

impl<D: EngineDocument, S, R> ManagedDocument<D, S, D::Error, D::Text, R> {
    /// Carries out a render demand. A demand of another generation never
    /// reaches the engine, nor does one whose flag is set or for a page that is not
    /// there.
    pub fn execute_render(&mut self, demand: RenderDemand, operation: &CancellationToken) -> (event:
        RenderEvent<D::Error>)
        requires
            old(self).document is Some <==> old(self).descriptor is Some,
        ensures
            only_engine_work(*old(self), *final(self)),
            render_outcome::<D>(
                old(self).sessions.active(),
                operation.flag(),
                old(self).document,
                final(self).document,
                old(self).descriptor,
                demand,
                event,
            ),
    {
        let stamp = demand.stamp();
        let session = match self.current_session(stamp.generation()) {
            Some(session) => session,
            None => {
                return RenderEvent::Discarded { stamp };
            },
        };
        let cancellation = session.cancellation().combined(operation);
        let going = may_go_on(&demand, &cancellation);
        assert(crate::runtime::cancellation::was_let_on(
            demand,
            session.flag(),
            operation.flag(),
            going,
        ));
        if !going {
            return RenderEvent::Cancelled { stamp };
        }
        if let Err(error) = validate_page(&self.descriptor, demand.page()) {
            return RenderEvent::Failed { stamp, error };
        }
        let document = match self.document.take() {
            Some(document) => document,
            None => {
                return RenderEvent::Failed { stamp, error: RuntimeFailure::NoDocument };
            },
        };
        let step = ask_render(document, &demand, &cancellation);
        let ghost result = step.result;
        self.document = Some(step.document);
        proof {
            assert(engine_gave_render::<D>(
                old(self).document,
                self.document,
                session.flag(),
                operation.flag(),
                demand,
                result,
            ));
        }
        let event = conclude_render(demand, &cancellation, step.result, &session);
        assert(was_concluded_render(demand, operation.flag(), result, session, event));
        event
    }

    /// Carries out a text demand. A demand of another generation never reaches
    /// the engine, nor does one whose flag is set or for a page that is not there.
    pub fn execute_text(&mut self, demand: TextDemand, operation: &CancellationToken) -> (event:
        TextEvent<D::Error, D::Text>)
        requires
            old(self).document is Some <==> old(self).descriptor is Some,
        ensures
            only_engine_work(*old(self), *final(self)),
            text_outcome::<D>(
                old(self).sessions.active(),
                operation.flag(),
                old(self).document,
                final(self).document,
                old(self).descriptor,
                demand,
                event,
            ),
    {
        let stamp = demand.stamp();
        let session = match self.current_session(stamp.generation()) {
            Some(session) => session,
            None => {
                return TextEvent::Discarded { stamp };
            },
        };
        let cancellation = session.cancellation().combined(operation);
        let going = may_go_on(&demand, &cancellation);
        assert(crate::runtime::cancellation::was_let_on(
            demand,
            session.flag(),
            operation.flag(),
            going,
        ));
        if !going {
            return TextEvent::Cancelled { stamp };
        }
        if let Err(error) = validate_page(&self.descriptor, demand.page()) {
            return TextEvent::Failed { stamp, error };
        }
        let document = match self.document.take() {
            Some(document) => document,
            None => {
                return TextEvent::Failed { stamp, error: RuntimeFailure::NoDocument };
            },
        };
        let step = ask_text(document, &demand, &cancellation);
        let ghost result = step.result;
        self.document = Some(step.document);
        proof {
            assert(engine_gave_text::<D>(
                old(self).document,
                self.document,
                session.flag(),
                operation.flag(),
                demand,
                result,
            ));
        }
        let event = conclude_text(demand, &cancellation, step.result, &session);
        assert(was_concluded_text(demand, operation.flag(), result, session, event));
        event
    }

    /// Carries out a preview demand. A demand of another generation never
    /// reaches the engine, nor does one whose flag is set or for a page that is not
    /// there.
    pub fn execute_preview(&mut self, demand: PreviewDemand, operation: &CancellationToken) -> (event:
        PreviewEvent<D::Error>)
        requires
            old(self).document is Some <==> old(self).descriptor is Some,
        ensures
            only_engine_work(*old(self), *final(self)),
            preview_outcome::<D>(
                old(self).sessions.active(),
                operation.flag(),
                old(self).document,
                final(self).document,
                old(self).descriptor,
                demand,
                event,
            ),
    {
        let stamp = demand.stamp();
        let session = match self.current_session(stamp.generation()) {
            Some(session) => session,
            None => {
                return PreviewEvent::Discarded { stamp };
            },
        };
        let cancellation = session.cancellation().combined(operation);
        let going = may_go_on(&demand, &cancellation);
        assert(crate::runtime::cancellation::was_let_on(
            demand,
            session.flag(),
            operation.flag(),
            going,
        ));
        if !going {
            return PreviewEvent::Cancelled { stamp };
        }
        if let Err(error) = validate_page(&self.descriptor, demand.page()) {
            return PreviewEvent::Failed { stamp, error };
        }
        let document = match self.document.take() {
            Some(document) => document,
            None => {
                return PreviewEvent::Failed { stamp, error: RuntimeFailure::NoDocument };
            },
        };
        let step = ask_preview(document, &demand, &cancellation);
        let ghost result = step.result;
        self.document = Some(step.document);
        proof {
            assert(engine_gave_preview::<D>(
                old(self).document,
                self.document,
                session.flag(),
                operation.flag(),
                demand,
                result,
            ));
        }
        let event = conclude_preview(demand, &cancellation, step.result, &session);
        assert(was_concluded_preview(demand, operation.flag(), result, session, event));
        event
    }
}

/// What becomes of an opening once the engine is done.
#[derive(Clone, Copy, Debug, PartialEq, Eq, Structural)]
pub enum OpenVerdict {
    /// A flag was set meanwhile; what was opened is let go.
    Cancelled,
    /// The document can be used.
    Usable,
    /// The engine failed.
    Failed,
}

/// Judges an opening by what its flags were seen to be after the engine was
/// done, and by whether the engine opened the document.
pub fn judge_open(cancelled: bool, opened: bool) -> (verdict: OpenVerdict)
    ensures
        verdict == if cancelled {
            OpenVerdict::Cancelled
        } else if opened {
            OpenVerdict::Usable
        } else {
            OpenVerdict::Failed
        },
{
    if cancelled {
        OpenVerdict::Cancelled
    } else if opened {
        OpenVerdict::Usable
    } else {
        OpenVerdict::Failed
    }
}

/// One event was added to those of a document, and its work and the way to its window
/// are as they were.
pub open spec fn one_event<D, S, E, L, R>(
    before: ManagedDocument<D, S, E, L, R>,
    after: ManagedDocument<D, S, E, L, R>,
) -> bool {
    &&& after.work == before.work
    &&& after.route == before.route
    &&& after.events@.len() == before.events@.len() + 1
    &&& after.events@.drop_last() == before.events@
}

/// No session could be started for an opening: nothing is open, and the last event
/// says so.
pub open spec fn open_refused<D, S, E, L, R>(
    before: ManagedDocument<D, S, E, L, R>,
    after: ManagedDocument<D, S, E, L, R>,
    id: SupervisorDocumentId,
) -> bool {
    &&& after.sessions == before.sessions
    &&& after.document is None
    &&& after.events@.last() == (SupervisorEvent::<E, L>::OpenFailed {
        document: id,
        generation: None,
        error: RuntimeFailure::Session(SessionError::GenerationsExhausted),
    })
}

/// What an opening under a session did to a document besides its work, by its last
/// event. It ended the session before. This engine was asked for the source, and with
/// what it gave in hand the flags were looked at: it is let go if one was seen set.
pub open spec fn open_reported<N: PdfEngine, R>(
    before: ManagedDocument<N::Document, N::Source, N::Error, N::Text, R>,
    after: ManagedDocument<N::Document, N::Source, N::Error, N::Text, R>,
    id: SupervisorDocumentId,
    engine: &mut N,
    source: N::Source,
    operation: AtomicBool,
) -> bool {
    &&& before.sessions.active() matches Some(session) ==> crate::runtime::cancellation::is_set(
        session.flag(),
    )
    &&& after.sessions.active() matches Some(session) && {
        &&& session.spec_generation().0 == before.sessions.next()
        &&& crate::runtime::cancellation::made_unset(session.flag())
        &&& session.counts_from_one()
        &&& after.sessions.next() == if before.sessions.next() == u64::MAX {
            0
        } else {
            (before.sessions.next() + 1) as u64
        }
        &&& exists|result: Result<N::Document, N::Error>| #[trigger]
            engine_gave_document::<N>(engine, source, session.flag(), operation, result)
                && was_concluded_open::<N::Document>(
                id,
                session,
                operation,
                result,
                (OpenStep {
                    document: after.document,
                    handle: after.document_handle,
                    descriptor: after.descriptor,
                    event: after.events@.last(),
                }),
            )
    }
}

/// The engine is in this state.
pub open spec fn stands_at<N>(engine: &mut N, state: N) -> bool {
    *engine == state
}

/// What an opening leaves open, and the event that says so.
pub struct OpenStep<D, E, L> {
    pub document: Option<D>,
    pub handle: Option<ResourceHandle<DocumentResource>>,
    pub descriptor: Option<DocumentDescriptor>,
    pub event: SupervisorEvent<E, L>,
}

impl<D, E, L> OpenStep<D, E, L> {
    /// Nothing is open.
    pub open spec fn is_clear(self) -> bool {
        self.document is None && self.handle is None && self.descriptor is None
    }
}

/// What becomes of what the engine gave for an opening.
pub open spec fn open_verdict<D: EngineDocument>(
    id: SupervisorDocumentId,
    opening: DocumentSession,
    result: Result<D, D::Error>,
    cancelled: bool,
    step: OpenStep<D, D::Error, D::Text>,
) -> bool {
    if cancelled {
        step.is_clear() && step.event == (SupervisorEvent::<D::Error, D::Text>::OpenCancelled {
            document: id,
            generation: opening.spec_generation(),
        })
    } else {
        match result {
            Ok(given) => {
                ||| {
                    &&& step.event matches SupervisorEvent::Opened {
                        document,
                        session,
                        resource,
                        descriptor,
                    } && {
                        &&& document == id
                        &&& session == opening
                        &&& opening.issued(Ok(resource))
                        &&& step.document == Some(given)
                        &&& step.handle == Some(resource)
                        &&& describes_itself(given, descriptor)
                        &&& step.descriptor matches Some(kept) && kept.pages@ == descriptor.pages@
                    }
                }
                ||| step.is_clear() && opening.issued::<DocumentResource>(
                    Err(AllocationError::ResourceIdsExhausted),
                ) && step.event == (SupervisorEvent::<D::Error, D::Text>::OpenFailed {
                    document: id,
                    generation: Some(opening.spec_generation()),
                    error: RuntimeFailure::Allocation(AllocationError::ResourceIdsExhausted),
                })
            },
            Err(error) => step.is_clear() && step.event == (SupervisorEvent::<
                D::Error,
                D::Text,
            >::OpenFailed {
                document: id,
                generation: Some(opening.spec_generation()),
                error: RuntimeFailure::Engine(error),
            }),
        }
    }
}

/// Looks at the flags with what the engine gave for an opening in hand, and says what
/// becomes of it.
pub fn conclude_open<D: EngineDocument>(
    id: SupervisorDocumentId,
    session: DocumentSession,
    cancellation: &CombinedCancellation,
    result: Result<D, D::Error>,
) -> (step: OpenStep<D, D::Error, D::Text>)
    ensures
        exists|cancelled: bool| #[trigger]
            crate::runtime::cancellation::either_seen(
                cancellation.first.flag(),
                cancellation.second.flag(),
                cancelled,
            ) && open_verdict(id, session, result, cancelled, step),
{
    let generation = session.generation();
    let cancelled = cancellation.is_cancelled();
    let event = match judge_open(cancelled, result.is_ok()) {
        OpenVerdict::Cancelled => SupervisorEvent::OpenCancelled { document: id, generation },
        _ => match result {
            Ok(document) => {
                let given = document.descriptor();
                let descriptor = given.copy();
                assert(describes_itself(document, descriptor));
                match session.allocate_resource::<DocumentResource>() {
                    Ok(resource) => {
                        return OpenStep {
                            document: Some(document),
                            handle: Some(resource),
                            descriptor: Some(descriptor.copy()),
                            event: SupervisorEvent::Opened {
                                document: id,
                                session,
                                resource,
                                descriptor,
                            },
                        };
                    },
                    Err(error) => SupervisorEvent::OpenFailed {
                        document: id,
                        generation: Some(generation),
                        error: RuntimeFailure::Allocation(error),
                    },
                }
            },
            Err(error) => SupervisorEvent::OpenFailed {
                document: id,
                generation: Some(generation),
                error: RuntimeFailure::Engine(error),
            },
        },
    };
    OpenStep { document: None, handle: None, descriptor: None, event }
}

/// With what the engine gave for an opening in hand the flags were looked at, and this
/// came of it.
pub open spec fn was_concluded_open<D: EngineDocument>(
    id: SupervisorDocumentId,
    session: DocumentSession,
    operation: AtomicBool,
    result: Result<D, D::Error>,
    step: OpenStep<D, D::Error, D::Text>,
) -> bool {
    exists|cancellation: &CombinedCancellation| #[trigger]
        call_ensures(
            conclude_open::<D>,
            (id, session, cancellation, result),
            step,
        ) && cancellation.is_of(session.flag(), operation)
}

/// A document is open after an opening if and only if its window hears so, and then
/// neither flag was seen set when the engine had given it. A window hears that an
/// opening was cancelled only where one of the flags was seen set.
pub proof fn law_cancelled_openings_are_let_go<D: EngineDocument>(
    id: SupervisorDocumentId,
    session: DocumentSession,
    operation: AtomicBool,
    result: Result<D, D::Error>,
    step: OpenStep<D, D::Error, D::Text>,
)
    requires
        was_concluded_open(id, session, operation, result, step),
    ensures
        step.document is Some <==> step.event is Opened,
        !step.is_clear() ==> step.document == Some(result->Ok_0) && result is Ok,
        step.event is Opened || step.event is OpenFailed
            ==> crate::runtime::cancellation::either_seen(session.flag(), operation, false),
        step.event is OpenCancelled ==> crate::runtime::cancellation::either_seen(
            session.flag(),
            operation,
            true,
        ),
{
}

/// The engine was asked to open this, under these flags, and gave this.
pub open spec fn engine_gave_document<N: PdfEngine>(
    engine: &mut N,
    source: N::Source,
    session: AtomicBool,
    operation: AtomicBool,
    result: Result<N::Document, N::Error>,
) -> bool {
    exists|cancellation: &CombinedCancellation| #[trigger]
        call_ensures(N::open, (engine, source, cancellation), result) && cancellation.is_of(
            session,
            operation,
        )
}

/// The document says this of itself.
pub open spec fn describes_itself<D: EngineDocument>(
    document: D,
    descriptor: DocumentDescriptor,
) -> bool {
    exists|given: &DocumentDescriptor| #[trigger]
        call_ensures(D::descriptor, (&document,), given) && given.pages@ == descriptor.pages@
}

impl<D: EngineDocument, S, R> ManagedDocument<D, S, D::Error, D::Text, R> {
    /// Opens a document under a session of its own.
    pub fn process_open<N>(
        &mut self,
        engine: &mut N,
        id: SupervisorDocumentId,
        source: S,
        operation: &CancellationSource,
        capacity: usize,
    ) where N: PdfEngine<Source = S, Document = D, Error = D::Error, Text = D::Text>
        requires
            old(self).wf(capacity),
        ensures
            final(self).wf(capacity),
            one_event(*old(self), *final(self)),
            if old(self).sessions.next() == 0 {
                *final(engine) == *old(engine) && open_refused(*old(self), *final(self), id)
            } else {
                exists|asked: &mut N| #[trigger]
                    stands_at(asked, *old(engine)) && *final(asked) == *final(engine)
                        && open_reported::<N, R>(
                        *old(self),
                        *final(self),
                        id,
                        asked,
                        source,
                        operation.flag(),
                    )
            },
    {
        let ghost start = *self;
        let ghost asked = source;
        self.document = None;
        self.document_handle = None;
        self.descriptor = None;
        let session = match self.sessions.begin() {
            Ok(session) => session,
            Err(error) => {
                self.events.push(
                    SupervisorEvent::OpenFailed {
                        document: id,
                        generation: None,
                        error: RuntimeFailure::Session(error),
                    },
                );
                assert(self.events@.drop_last() =~= start.events@);
                return ;
            },
        };
        let cancellation = session.cancellation().combined(&operation.token());
        let ghost untouched = *engine;
        let result = engine.open(source, &cancellation);
        let ghost given_result = result;
        let ghost opening = session;
        assert(exists|used: &mut N| #[trigger]
            call_ensures(N::open, (used, asked, &cancellation), result) && *used == untouched
                && *final(used) == *engine);
        let ghost used = choose|used: &mut N| #[trigger]
            call_ensures(N::open, (used, asked, &cancellation), result) && *used == untouched
                && *final(used) == *engine;
        assert(engine_gave_document::<N>(used, asked, opening.flag(), operation.flag(), result));
        let step = conclude_open(id, session, &cancellation, result);
        let ghost concluded = step;
        assert(was_concluded_open::<D>(
            id,
            opening,
            operation.flag(),
            given_result,
            concluded,
        ));
        self.document = step.document;
        self.document_handle = step.handle;
        self.descriptor = step.descriptor;
        self.events.push(step.event);
        assert(self.events@.drop_last() =~= start.events@);
        assert(stands_at(used, untouched));
        assert(open_reported::<N, R>(start, *self, id, used, asked, operation.flag()));
    }

    /// Carries out one piece of work. One event says how it went.
    pub fn process_work<N>(
        &mut self,
        engine: &mut N,
        id: SupervisorDocumentId,
        pending: PendingWork<S>,
        capacity: usize,
    ) where N: PdfEngine<Source = S, Document = D, Error = D::Error, Text = D::Text>
        requires
            old(self).wf(capacity),
        ensures
            final(self).wf(capacity),
            one_event(*old(self), *final(self)),
            match pending.kind {
                PendingKind::Open(source) => if old(self).sessions.next() == 0 {
                    *final(engine) == *old(engine) && open_refused(*old(self), *final(self), id)
                } else {
                    exists|asked: &mut N| #[trigger]
                        stands_at(asked, *old(engine)) && *final(asked) == *final(engine)
                            && open_reported::<N, R>(
                            *old(self),
                            *final(self),
                            id,
                            asked,
                            source,
                            pending.cancellation.flag(),
                        )
                },
                PendingKind::Engine(work) => {
                    &&& *final(engine) == *old(engine)
                    &&& final(self).sessions == old(self).sessions
                    &&& final(self).descriptor == old(self).descriptor
                    &&& final(self).document_handle == old(self).document_handle
                    &&& reports::<D>(
                        old(self).sessions.active(),
                        pending.cancellation.flag(),
                        old(self).document,
                        final(self).document,
                        old(self).descriptor,
                        id,
                        work,
                        final(self).events@.last(),
                    )
                },
            },
    {
        let ghost start = *self;
        let token = pending.cancellation.token();
        match pending.kind {
            PendingKind::Open(source) => {
                self.process_open(engine, id, source, &pending.cancellation, capacity);
            },
            PendingKind::Engine(Work::Render(demand)) => {
                let event = self.execute_render(demand, &token);
                self.events.push(SupervisorEvent::Rendered { document: id, event });
                assert(self.events@.drop_last() =~= start.events@);
            },
            PendingKind::Engine(Work::Text(demand)) => {
                let event = self.execute_text(demand, &token);
                self.events.push(SupervisorEvent::TextExtracted { document: id, event });
                assert(self.events@.drop_last() =~= start.events@);
            },
            PendingKind::Engine(Work::Preview(demand)) => {
                let event = self.execute_preview(demand, &token);
                self.events.push(SupervisorEvent::PreviewRendered { document: id, event });
                assert(self.events@.drop_last() =~= start.events@);
            },
        }
    }
}

/// The event says how this work of this document went.
pub open spec fn reports<D: EngineDocument>(
    active: Option<DocumentSession>,
    operation: AtomicBool,
    opened: Option<D>,
    left: Option<D>,
    descriptor: Option<DocumentDescriptor>,
    id: SupervisorDocumentId,
    work: Work,
    event: SupervisorEvent<D::Error, D::Text>,
) -> bool {
    match (event, work) {
        (SupervisorEvent::Rendered { document, event }, Work::Render(demand)) => document == id
            && render_outcome::<D>(active, operation, opened, left, descriptor, demand, event),
        (SupervisorEvent::TextExtracted { document, event }, Work::Text(demand)) => document == id
            && text_outcome::<D>(active, operation, opened, left, descriptor, demand, event),
        (SupervisorEvent::PreviewRendered { document, event }, Work::Preview(demand)) => document
            == id && preview_outcome::<D>(active, operation, opened, left, descriptor, demand, event),
        _ => false,
    }
}

/// A page can be asked for if and only if a document is open and has it.
pub proof fn law_only_pages_of_the_document_can_be_asked_for<E>(
    descriptor: Option<DocumentDescriptor>,
    page: usize,
    checked: Result<(), RuntimeFailure<E>>,
)
    requires
        call_ensures(validate_page::<E>, (&descriptor, page), checked),
    ensures
        checked is Ok <==> (descriptor matches Some(known) && page < known.pages@.len()),
        checked matches Err(failure) ==> match descriptor {
            None => failure is NoDocument,
            Some(known) => failure == (RuntimeFailure::<E>::InvalidPage {
                page,
                page_count: known.pages@.len() as usize,
            }),
        },
{
}

/// What the engine drew is handed on as it is if it has the size that was asked for and
/// there is a handle for it; of another size it is a failure that names both sizes. What
/// the engine says went wrong is told as it is.
pub proof fn law_good_renders_are_handed_on<E>(
    demand: RenderDemand,
    result: Result<RasterImage, E>,
    session: DocumentSession,
    event: RenderEvent<E>,
)
    requires
        render_verdict(demand, result, session, event),
    ensures
        !(event is Cancelled || event is Discarded),
        event matches RenderEvent::Ready { demand: done, tile } ==> done == demand && result == Ok::<
            RasterImage,
            E,
        >(tile.image) && tile.image.width == demand.render_rect.width && tile.image.height
            == demand.render_rect.height && tile.resource.generation == session.spec_generation(),
        event matches RenderEvent::Failed { stamp, error } ==> stamp == demand.stamp && match error {
            RuntimeFailure::Engine(told) => result == Err::<RasterImage, E>(told),
            RuntimeFailure::InvalidEngineOutput(
                EngineOutputError::UnexpectedDimensions {
                    expected_width,
                    expected_height,
                    actual_width,
                    actual_height,
                },
            ) => {
                &&& result matches Ok(image) && image.width == actual_width && image.height
                    == actual_height
                &&& expected_width == demand.render_rect.width
                    && expected_height == demand.render_rect.height
                &&& expected_width != actual_width || expected_height != actual_height
            },
            RuntimeFailure::Allocation(AllocationError::ResourceIdsExhausted) => {
                &&& session.issued::<RenderResource>(
                    Err(AllocationError::ResourceIdsExhausted),
                )
                &&& result matches Ok(image) && image.width == demand.render_rect.width && image.height
                    == demand.render_rect.height
            },
            _ => false,
        },
{
}

/// What the engine drew is handed on as it is if it has the size that was asked for and
/// there is a handle for it; of another size it is a failure that names both sizes. What
/// the engine says went wrong is told as it is.
pub proof fn law_good_previews_are_handed_on<E>(
    demand: PreviewDemand,
    result: Result<RasterImage, E>,
    session: DocumentSession,
    event: PreviewEvent<E>,
)
    requires
        preview_verdict(demand, result, session, event),
    ensures
        !(event is Cancelled || event is Discarded),
        event matches PreviewEvent::Ready { demand: done, preview } ==> done == demand && result == Ok::<
            RasterImage,
            E,
        >(preview.image) && preview.image.width == demand.region.width && preview.image.height
            == demand.region.height && preview.resource.generation == session.spec_generation(),
        event matches PreviewEvent::Failed { stamp, error } ==> stamp == demand.stamp && match error {
            RuntimeFailure::Engine(told) => result == Err::<RasterImage, E>(told),
            RuntimeFailure::InvalidEngineOutput(
                EngineOutputError::UnexpectedDimensions {
                    expected_width,
                    expected_height,
                    actual_width,
                    actual_height,
                },
            ) => {
                &&& result matches Ok(image) && image.width == actual_width && image.height
                    == actual_height
                &&& expected_width == demand.region.width && expected_height == demand.region.height
                &&& expected_width != actual_width || expected_height != actual_height
            },
            RuntimeFailure::Allocation(AllocationError::ResourceIdsExhausted) => {
                &&& session.issued::<PreviewResource>(
                    Err(AllocationError::ResourceIdsExhausted),
                )
                &&& result matches Ok(image) && image.width == demand.region.width && image.height
                    == demand.region.height
            },
            _ => false,
        },
{
}

/// What the engine read is handed on as it is, for the page that was asked for, if there
/// is a handle for it. What the engine says went wrong is told as it is.
pub proof fn law_good_text_is_handed_on<E, L>(
    demand: TextDemand,
    result: Result<L, E>,
    session: DocumentSession,
    event: TextEvent<E, L>,
)
    requires
        text_verdict(demand, result, session, event),
    ensures
        !(event is Cancelled || event is Discarded),
        event matches TextEvent::Ready { demand: done, text } ==> done == demand && result == Ok::<
            L,
            E,
        >(text.layer) && text.page == demand.page && text.resource.generation
            == session.spec_generation(),
        event matches TextEvent::Failed { stamp, error } ==> stamp == demand.stamp && match error {
            RuntimeFailure::Engine(told) => result == Err::<L, E>(told),
            RuntimeFailure::Allocation(AllocationError::ResourceIdsExhausted) => result is Ok
                && session.issued::<TextResource>(Err(AllocationError::ResourceIdsExhausted)),
            _ => false,
        },
{
}

/// A demand is discarded only if its document is no longer the one that is open or was
/// told to stop, cancelled only if one of its flags was seen set, and refused for its page
/// only if the document has no such page. The engine is asked for no other reason than
/// that none of this is so.
pub proof fn law_render_demands_are_refused_for_a_reason<D: EngineDocument>(
    active: Option<DocumentSession>,
    operation: AtomicBool,
    document: Option<D>,
    left: Option<D>,
    descriptor: Option<DocumentDescriptor>,
    demand: RenderDemand,
    event: RenderEvent<D::Error>,
)
    requires
        render_outcome(active, operation, document, left, descriptor, demand, event),
    ensures
        event is Discarded ==> left == document && (active matches Some(session)
            ==> session.spec_generation() != demand.stamp.generation
            || crate::runtime::cancellation::seen(session.flag(), true)),
        event is Cancelled ==> (active matches Some(session) && session.spec_generation()
            == demand.stamp.generation && crate::runtime::cancellation::either_seen(
            session.flag(),
            operation,
            true,
        )),
        event matches RenderEvent::Failed { stamp, error } ==> {
            &&& stamp == demand.stamp
            &&& error is NoDocument ==> descriptor is None
            &&& error matches RuntimeFailure::InvalidPage { page, page_count } ==> page
                == demand.key.page
                && (descriptor matches Some(known) && page_count == known.pages@.len() && page
                >= page_count)
        },
        left != document ==> (descriptor matches Some(known) && demand.key.page < known.pages@.len()),
{
}

/// A demand is discarded only if its document is no longer the one that is open or was
/// told to stop, cancelled only if one of its flags was seen set, and refused for its page
/// only if the document has no such page. The engine is asked for no other reason than
/// that none of this is so.
pub proof fn law_text_demands_are_refused_for_a_reason<D: EngineDocument>(
    active: Option<DocumentSession>,
    operation: AtomicBool,
    document: Option<D>,
    left: Option<D>,
    descriptor: Option<DocumentDescriptor>,
    demand: TextDemand,
    event: TextEvent<D::Error, D::Text>,
)
    requires
        text_outcome(active, operation, document, left, descriptor, demand, event),
    ensures
        event is Discarded ==> left == document && (active matches Some(session)
            ==> session.spec_generation() != demand.stamp.generation
            || crate::runtime::cancellation::seen(session.flag(), true)),
        event is Cancelled ==> (active matches Some(session) && session.spec_generation()
            == demand.stamp.generation && crate::runtime::cancellation::either_seen(
            session.flag(),
            operation,
            true,
        )),
        event matches TextEvent::Failed { stamp, error } ==> {
            &&& stamp == demand.stamp
            &&& error is NoDocument ==> descriptor is None
            &&& error matches RuntimeFailure::InvalidPage { page, page_count } ==> page == demand.page
                && (descriptor matches Some(known) && page_count == known.pages@.len() && page
                >= page_count)
        },
        left != document ==> (descriptor matches Some(known) && demand.page < known.pages@.len()),
{
}

/// A demand is discarded only if its document is no longer the one that is open or was
/// told to stop, cancelled only if one of its flags was seen set, and refused for its page
/// only if the document has no such page. The engine is asked for no other reason than
/// that none of this is so.
pub proof fn law_preview_demands_are_refused_for_a_reason<D: EngineDocument>(
    active: Option<DocumentSession>,
    operation: AtomicBool,
    document: Option<D>,
    left: Option<D>,
    descriptor: Option<DocumentDescriptor>,
    demand: PreviewDemand,
    event: PreviewEvent<D::Error>,
)
    requires
        preview_outcome(active, operation, document, left, descriptor, demand, event),
    ensures
        event is Discarded ==> left == document && (active matches Some(session)
            ==> session.spec_generation() != demand.stamp.generation
            || crate::runtime::cancellation::seen(session.flag(), true)),
        event is Cancelled ==> (active matches Some(session) && session.spec_generation()
            == demand.stamp.generation && crate::runtime::cancellation::either_seen(
            session.flag(),
            operation,
            true,
        )),
        event matches PreviewEvent::Failed { stamp, error } ==> {
            &&& stamp == demand.stamp
            &&& error is NoDocument ==> descriptor is None
            &&& error matches RuntimeFailure::InvalidPage { page, page_count } ==> page == demand.page
                && (descriptor matches Some(known) && page_count == known.pages@.len() && page
                >= page_count)
        },
        left != document ==> (descriptor matches Some(known) && demand.page < known.pages@.len()),
{
}

} // verus!

//! The client: one call is a bounded series of checked hops.

use crate::http::cancellation::{pass, CancellationToken};
use crate::http::error::{HttpError, HttpErrorView};
use crate::http::exchange::{
    append_chunk, find_target, is_redirect, pin_endpoint, redirect, validate_request_size,
    validate_response, validate_response_headers, Hop, TargetView,
};
use crate::http::network::IpAddress;
use crate::http::policy::{HttpPolicy, RateLimit};
use crate::http::rate::{one_more, RateHistory};
use crate::http::request::{
    copy_headers, HttpMethod, HttpRequest, HttpResponse, RequestView, ResponseHeader,
    ResponseView,
};
use crate::http::span::Span;
use crate::http::transport::{
    read_unless_cancelled, HttpTransport, MonotonicClock, ResolveRequest, ResolvedEndpoint,
    Resolver, ResponseBody, TransportHeader, TransportRequest, TransportResponse,
};
use crate::http::web_url::WebUrl;
use crate::text_set::TextSet;
use std::sync::Arc;
use vstd::prelude::*;
use vstd::rwlock::RwLock;

verus! {

/// What clones of a client share.
#[derive(Debug)]
pub struct ClientState {
    /// How many calls run.
    pub active: usize,
    /// When the latest hops started.
    pub history: RateHistory,
}

/// What holds of the shared state whenever nobody works on it.
pub struct StateBounds {
    pub max_concurrent: usize,
    pub rate: RateLimit,
}

impl vstd::rwlock::RwLockPredicate<ClientState> for StateBounds {
    open spec fn inv(self, state: ClientState) -> bool {
        &&& state.active <= self.max_concurrent
        &&& state.history.starts@.len() <= self.rate.requests
    }
}

/// The parts of a client that its clones share.
pub struct ClientInner<R: Resolver, T: HttpTransport, C> {
    policy: HttpPolicy,
    resolver: R,
    transport: T,
    clock: C,
    state: RwLock<ClientState, StateBounds>,
}

impl<R: Resolver, T: HttpTransport, C> ClientInner<R, T, C> {
    /// The policy is sound, the resolver and the transport are prepared for what
    /// it admits, and the lock guards its bounds.
    #[verifier::type_invariant]
    spec fn wf(&self) -> bool {
        &&& self.policy.wf()
        &&& may_work(self.policy, self.resolver, self.transport)
        &&& self.state.pred() == (StateBounds {
            max_concurrent: self.policy.spec_limits().max_concurrent,
            rate: self.policy.spec_limits().rate,
        })
    }
}

/// The resolver and the transport are prepared for all that a policy lets a client
/// ask and send.
pub open spec fn may_work<R: Resolver, T: HttpTransport>(
    policy: HttpPolicy,
    resolver: R,
    transport: T,
) -> bool {
    &&& forall|request: ResolveRequest|
        crate::http::exchange::askable(policy, request) ==> #[trigger] resolver.may_ask(request)
    &&& forall|request: TransportRequest|
        crate::http::exchange::sendable(policy, request) ==> #[trigger] transport.may_carry(request)
}

/// Allows one call until it is given back.
#[derive(Debug)]
pub struct CallPermit {}

/// A client. Clones share one budget of calls and hops.
pub struct SafeHttpClient<R: Resolver, T: HttpTransport, C> {
    inner: Arc<ClientInner<R, T, C>>,
}

/// Pieces of a body put together.
pub open spec fn joined(chunks: Seq<Vec<u8>>) -> Seq<u8>
    decreases chunks.len(),
{
    if chunks.len() == 0 {
        Seq::empty()
    } else {
        joined(chunks.drop_last()) + chunks.last()@
    }
}

/// A body gave these pieces one after the other, none of them empty, and before each of
/// them it was looked whether the caller has cancelled. The states are those of the body
/// before each piece and after the last.
pub open spec fn pieces<B: ResponseBody>(
    body: B,
    flag: std::sync::atomic::AtomicBool,
    states: Seq<B>,
    chunks: Seq<Vec<u8>>,
) -> bool {
    &&& states.len() == chunks.len() + 1
    &&& states[0] == body
    &&& forall|i: int|
        0 <= i < chunks.len() ==> (#[trigger] chunks[i])@.len() > 0
            && crate::http::transport::went_on(states[i], states[i + 1], flag, Ok(chunks[i]))
}

/// A body had no more bytes.
pub open spec fn was_at_end<B: ResponseBody>(
    body: B,
    flag: std::sync::atomic::AtomicBool,
) -> bool {
    exists|after: B, end: Vec<u8>|
        end@.len() == 0 && #[trigger] crate::http::transport::went_on(body, after, flag, Ok(end))
}

/// There was an error in place of the next bytes: one of the body, or that the caller
/// was seen to have cancelled.
pub open spec fn broke_off<B: ResponseBody>(
    body: B,
    flag: std::sync::atomic::AtomicBool,
    error: HttpErrorView,
) -> bool {
    exists|after: B, given: HttpError| #[trigger]
        crate::http::transport::went_on(body, after, flag, Err(given)) && given@ == error
}

/// A body was read to its end, which gave these bytes, and then it was looked once more
/// whether the caller has cancelled.
pub open spec fn was_read<B: ResponseBody>(
    body: B,
    flag: std::sync::atomic::AtomicBool,
    states: Seq<B>,
    chunks: Seq<Vec<u8>>,
    bytes: Vec<u8>,
    passed: Result<Vec<u8>, HttpError>,
) -> bool {
    &&& pieces(body, flag, states, chunks)
    &&& joined(chunks) == bytes@
    &&& was_at_end(states.last(), flag)
    &&& crate::http::cancellation::was_passed(bytes, flag, passed)
}

/// What reading a body to its end can come to: its pieces put together, up to
/// the limit; that the latest piece brings it over the limit; an error of the
/// body itself; or that the caller was seen to have cancelled, before a piece or after
/// the last.
pub open spec fn can_read<B: ResponseBody>(
    body: B,
    limit: usize,
    flag: std::sync::atomic::AtomicBool,
    read: Result<Seq<u8>, HttpErrorView>,
) -> bool {
    match read {
        Ok(bytes) => {
            &&& bytes.len() <= limit
            &&& exists|states: Seq<B>, chunks: Seq<Vec<u8>>, whole: Vec<u8>| #[trigger]
                was_read(body, flag, states, chunks, whole, Ok(whole)) && whole@ == bytes
        },
        Err(error) => {
            ||| exists|states: Seq<B>, chunks: Seq<Vec<u8>>| #[trigger]
                pieces(body, flag, states, chunks) && joined(chunks).len() <= limit && broke_off(
                    states.last(),
                    flag,
                    error,
                )
            ||| error == (HttpErrorView::ResponseTooLarge { limit }) && exists|
                states: Seq<B>,
                chunks: Seq<Vec<u8>>,
            | #[trigger]
                pieces(body, flag, states, chunks) && chunks.len() > 0 && joined(
                    chunks.drop_last(),
                ).len() <= limit < joined(chunks).len()
            ||| error == HttpErrorView::Cancelled && exists|
                states: Seq<B>,
                chunks: Seq<Vec<u8>>,
                whole: Vec<u8>,
            | #[trigger]
                was_read(body, flag, states, chunks, whole, Err(HttpError::Cancelled))
                    && whole@.len() <= limit
        },
    }
}

/// Bytes as they are seen, or an error as it is seen.
pub open spec fn read_view(read: Result<Vec<u8>, HttpError>) -> Result<Seq<u8>, HttpErrorView> {
    match read {
        Ok(bytes) => Ok(bytes@),
        Err(error) => Err(error@),
    }
}

/// Reads a body to its end, up to a limit.
pub fn read_bounded<B: ResponseBody>(
    body: B,
    limit: usize,
    cancellation: &CancellationToken,
) -> (read: Result<Vec<u8>, HttpError>)
    ensures
        can_read(body, limit, cancellation.flag(), read_view(read)),
{
    let ghost flag = cancellation.flag();
    let mut output: Vec<u8> = Vec::new();
    let mut rest = body;
    let ghost mut states: Seq<B> = seq![body];
    let ghost mut chunks: Seq<Vec<u8>> = Seq::empty();
    assert(joined(chunks) =~= output@);
    loop
        invariant_except_break
            flag == cancellation.flag(),
            output@.len() <= limit,
            pieces(body, flag, states, chunks),
            joined(chunks) == output@,
            rest == states.last(),
        ensures
            output@.len() <= limit,
            pieces(body, flag, states, chunks),
            joined(chunks) == output@,
            was_at_end(states.last(), flag),
        decreases limit - output@.len(),
    {
        let step = read_unless_cancelled(rest, cancellation);
        let after = step.body;
        let given = step.chunk;
        assert(crate::http::transport::went_on(states.last(), after, flag, given));
        let chunk = match given {
            Ok(chunk) => chunk,
            Err(error) => {
                assert(broke_off(states.last(), flag, error@));
                return Err(error);
            },
        };
        if chunk.len() == 0 {
            assert(was_at_end(states.last(), flag));
            break;
        }
        proof {
            let more = chunks.push(chunk);
            let later = states.push(after);
            assert(more.drop_last() =~= chunks);
            assert forall|i: int| 0 <= i < more.len() implies (#[trigger] more[i])@.len() > 0
                && crate::http::transport::went_on(later[i], later[i + 1], flag, Ok(more[i])) by {
                if i < chunks.len() {
                    assert(more[i] == chunks[i]);
                }
            }
            assert(pieces(body, flag, later, more));
            chunks = more;
            states = later;
        }
        rest = after;
        if let Err(error) = append_chunk(&mut output, &chunk, limit) {
            return Err(error);
        }
    }
    let ghost whole = output;
    let passed = pass(output, cancellation);
    assert(crate::http::cancellation::was_passed(whole, flag, passed));
    assert(was_read(body, flag, states, chunks, whole, passed));
    passed
}

/// Turns checked headers into those of the response.
fn response_headers(headers: Vec<TransportHeader>) -> (made: Vec<ResponseHeader>)
    ensures
        made@.map_values(|header: ResponseHeader| header@) == crate::http::request::lower_names(
            crate::http::transport::byte_views(headers@),
        ),
{
    let ghost views = crate::http::request::lower_names(
        crate::http::transport::byte_views(headers@),
    );
    let ghost start = headers@;
    let mut headers = headers;
    let mut made: Vec<ResponseHeader> = Vec::new();
    while headers.len() > 0
        invariant
            views == crate::http::request::lower_names(
                crate::http::transport::byte_views(start),
            ),
            made@.len() + headers@.len() == start.len(),
            headers@ == start.skip(made@.len() as int),
            forall|i: int| 0 <= i < made@.len() ==> (#[trigger] made@[i])@ == views[i],
        decreases headers@.len(),
    {
        let ghost at = made@.len() as int;
        let header = headers.remove(0);
        assert(header == start[at]);
        made.push(ResponseHeader::new(header.name, header.value));
        assert(made@[at]@ == views[at]);
        assert(headers@ =~= start.skip(made@.len() as int));
    }
    assert(made@.map_values(|header: ResponseHeader| header@) =~= views);
    made
}

impl<R: Resolver, T: HttpTransport, C> SafeHttpClient<R, T, C> {
    /// The policy of the client.
    pub closed spec fn policy(&self) -> HttpPolicy {
        self.inner.policy
    }

    /// What resolves names for the client.
    pub closed spec fn resolver(&self) -> R {
        self.inner.resolver
    }

    /// What carries out hops for the client.
    pub closed spec fn transport(&self) -> T {
        self.inner.transport
    }

    /// What tells the client the time.
    pub closed spec fn clock(&self) -> C {
        self.inner.clock
    }

    /// The shared state was taken as it was before, and put back as it is after.
    pub closed spec fn moved(&self, before: ClientState, after: ClientState) -> bool {
        crate::lock::was_swapped(self.inner.state, before, after)
    }

    /// The shared state was made with no call running and no hop started.
    pub closed spec fn made_idle(&self) -> bool {
        exists|state: ClientState| #[trigger]
            crate::lock::was_made(self.inner.state, state) && state.active == 0
                && state.history.starts@.len() == 0
    }

    /// One more call was counted.
    pub open spec fn counted(&self) -> bool {
        exists|before: ClientState, after: ClientState| #[trigger]
            self.moved(before, after) && before.active < self.policy().spec_limits().max_concurrent
                && after == (ClientState { active: (before.active + 1) as usize, ..before })
    }

    /// As many calls ran as the policy allows.
    pub open spec fn was_full(&self) -> bool {
        exists|before: ClientState, after: ClientState| #[trigger]
            self.moved(before, after) && before.active >= self.policy().spec_limits().max_concurrent
                && after == before
    }

    /// One call less was counted.
    pub open spec fn released(&self) -> bool {
        exists|before: ClientState, after: ClientState| #[trigger]
            self.moved(before, after) && after == if before.active > 0 {
                ClientState { active: (before.active - 1) as usize, ..before }
            } else {
                before
            }
    }
}

impl<R: Resolver, T: HttpTransport, C: MonotonicClock> SafeHttpClient<R, T, C> {
    /// A client over these parts. It hands the resolver and the transport nothing but
    /// what the policy admits, so that is all they have to be prepared for.
    pub fn with_components(policy: HttpPolicy, resolver: R, transport: T, clock: C) -> (client:
        Self)
        requires
            policy.wf(),
            may_work(policy, resolver, transport),
        ensures
            client.policy() == policy,
            client.resolver() == resolver,
            client.transport() == transport,
            client.clock() == clock,
            client.made_idle(),
    {
        let ghost bounds = StateBounds {
            max_concurrent: policy.spec_limits().max_concurrent,
            rate: policy.spec_limits().rate,
        };
        let idle = ClientState { active: 0, history: RateHistory::new() };
        let ghost started = idle;
        let state = RwLock::new(idle, Ghost(bounds));
        assert(crate::lock::was_made(state, started));
        let client = SafeHttpClient {
            inner: Arc::new(ClientInner { policy, resolver, transport, clock, state }),
        };
        assert(crate::lock::was_made(client.inner.state, started));
        client
    }

    /// Counts one more call, that of a request which nobody had cancelled when it was
    /// looked, unless the limit is reached.
    fn begin_call(&self, request: &HttpRequest) -> (begun: Result<CallPermit, HttpError>)
        requires
            exists|flag: std::sync::atomic::AtomicBool| #[trigger]
                crate::http::cancellation::was_passed(*request, flag, Ok(*request)),
        ensures
            match begun {
                Ok(_) => self.counted(),
                Err(error) => self.was_full() && error@ == (HttpErrorView::ConcurrencyLimit {
                    limit: self.policy().spec_limits().max_concurrent,
                }),
            },
    {
        proof {
            use_type_invariant(&*self.inner);
        }
        let limit: usize = self.inner.policy.limits().max_concurrent;
        let (mut state, handle) = self.inner.state.acquire_write();
        let ghost before = state;
        assert(crate::lock::was_taken(self.inner.state, before, handle));
        match one_more(state.active, limit) {
            Some(active) => {
                state.active = active;
                let ghost after = state;
                handle.release_write(state);
                assert(self.moved(before, after));
                Ok(CallPermit {  })
            },
            None => {
                handle.release_write(state);
                assert(self.moved(before, before));
                Err(HttpError::ConcurrencyLimit { limit })
            },
        }
    }

    /// The call of this request was to be counted, and this came of it.
    pub closed spec fn was_begun(
        &self,
        request: HttpRequest,
        begun: Result<CallPermit, HttpError>,
    ) -> bool {
        call_ensures(Self::begin_call, (self, &request), begun)
    }

    /// The call of such a request was counted, which gave this permit.
    pub open spec fn permitted(&self, start: RequestView, permit: CallPermit) -> bool {
        exists|request: HttpRequest| #[trigger]
            self.was_begun(request, Ok(permit)) && request@ == start
    }

    /// With this outcome in hand the call was counted no longer, and this is handed on.
    pub closed spec fn was_ended(
        &self,
        permit: CallPermit,
        outcome: Result<HttpResponse, HttpError>,
        handed: Result<HttpResponse, HttpError>,
    ) -> bool {
        call_ensures(Self::end_call, (self, permit, outcome), handed)
    }

    /// Counts a call no longer that has come to this outcome.
    fn end_call(&self, permit: CallPermit, outcome: Result<HttpResponse, HttpError>) -> (handed:
        Result<HttpResponse, HttpError>)
        requires
            exists|start: RequestView| self.permitted(start, permit),
        ensures
            self.released(),
            handed == outcome,
    {
        proof {
            use_type_invariant(&*self.inner);
        }
        let (mut state, handle) = self.inner.state.acquire_write();
        let ghost before = state;
        assert(crate::lock::was_taken(self.inner.state, before, handle));
        if state.active > 0 {
            state.active = state.active - 1;
        }
        let ghost after = state;
        handle.release_write(state);
        assert(self.moved(before, after));
        outcome
    }

    /// The clock told this time, and the starts that count at it were these.
    pub open spec fn told(&self, now: Span, before: ClientState, after: ClientState) -> bool {
        &&& call_ensures(C::now, (&self.clock(),), now)
        &&& self.moved(before, after)
        &&& after.active == before.active
    }

    /// A hop was started at the time that the clock told.
    pub open spec fn took_slot(&self) -> bool {
        let rate = self.policy().spec_limits().rate;
        exists|now: Span, before: ClientState, after: ClientState| #[trigger]
            self.told(now, before, after) && {
                let kept = crate::http::rate::recent(before.history.starts@, now, rate.window);
                kept.len() < rate.requests && after.history.starts@ == kept.push(now)
            }
    }

    /// No hop was started: the window was full at the time that the clock told.
    pub open spec fn had_no_slot(&self, error: HttpErrorView) -> bool {
        let rate = self.policy().spec_limits().rate;
        exists|now: Span, before: ClientState, after: ClientState| #[trigger]
            self.told(now, before, after) && {
                let kept = crate::http::rate::recent(before.history.starts@, now, rate.window);
                &&& kept.len() >= rate.requests
                &&& after.history.starts@ == kept
                &&& error matches HttpErrorView::RateLimited { retry_after }
                &&& retry_after.nanos == crate::http::rate::wait_nanos(kept, now, rate.window)
            }
    }

    /// A slot was asked for to start this hop, and this came of it.
    pub closed spec fn asked_for_slot(&self, hop: RequestView, slot: Result<(), HttpError>) -> bool {
        exists|asked: &Hop| #[trigger]
            call_ensures(Self::acquire_rate_slot, (self, asked), slot) && asked@ == hop
    }

    /// Starts a hop now that nobody had cancelled when it was looked, unless the window
    /// is full.
    fn acquire_rate_slot(&self, hop: &Hop) -> (slot: Result<(), HttpError>)
        requires
            exists|flag: std::sync::atomic::AtomicBool| #[trigger]
                hop_was_passed(hop@, flag, false),
        ensures
            match slot {
                Ok(_) => self.took_slot(),
                Err(error) => self.had_no_slot(error@),
            },
    {
        proof {
            use_type_invariant(&*self.inner);
        }
        let now = self.inner.clock.now();
        let rate = self.inner.policy.limits().rate;
        let (mut state, handle) = self.inner.state.acquire_write();
        let ghost before = state;
        assert(crate::lock::was_taken(self.inner.state, before, handle));
        let slot = state.history.acquire(now, rate);
        proof {
            lemma_recent_is_shorter(before.history.starts@, now, rate.window);
        }
        let ghost after = state;
        handle.release_write(state);
        assert(self.moved(before, after));
        assert(self.told(now, before, after));
        slot
    }

    /// Finds the addresses of a hop and checks every one of them. The hop has its slot, and
    /// nobody had cancelled it when it was looked.
    fn resolve_endpoint(&self, hop: &Hop, cancellation: &CancellationToken) -> (endpoint: Result<
        ResolvedEndpoint,
        HttpError,
    >)
        requires
            hop_was_passed(hop@, cancellation.flag(), false),
            self.asked_for_slot(hop@, Ok(())),
        ensures
            match crate::http::exchange::target(self.policy(), hop.url@) {
                Err(error) => crate::http::error::fails_with(endpoint, error),
                Ok(target) => can_resolve(
                    self.resolver(),
                    self.policy(),
                    cancellation.flag(),
                    target,
                    endpoint,
                ),
            },
    {
        proof {
            use_type_invariant(&*self.inner);
        }
        let target = match find_target(&self.inner.policy, &hop.url) {
            Ok(target) => target,
            Err(error) => {
                return Err(error);
            },
        };
        let addresses = match target.literal {
            Some(address) => {
                let mut addresses: Vec<IpAddress> = Vec::new();
                addresses.push(address);
                addresses
            },
            None => {
                let request = ResolveRequest {
                    host: target.canonical.clone(),
                    port: target.port,
                    timeout: self.inner.policy.limits().resolve_timeout,
                    cancellation: cancellation.clone(),
                };
                let ghost asked = request;
                proof {
                    assert(crate::http::exchange::target(self.policy(), hop.url@) == Ok::<
                        TargetView,
                        HttpErrorView,
                    >(target@));
                    assert(crate::http::exchange::askable(self.policy(), asked));
                    assert(self.resolver().may_ask(asked));
                    let domain = hop.url@.host->Some_0.0->Domain_0;
                    assert(crate::http::policy::canonical(domain) == Ok::<Seq<char>, HttpErrorView>(
                        asked.host@,
                    ));
                }
                let answer = self.inner.resolver.resolve(request);
                assert(was_answered(
                    self.resolver(),
                    self.policy(),
                    cancellation.flag(),
                    target@,
                    asked,
                    answer,
                ));
                match answer {
                    Ok(addresses) => addresses,
                    Err(error) => {
                        return Err(error);
                    },
                }
            },
        };
        assert(may_be_used(
            self.resolver(),
            self.policy(),
            cancellation.flag(),
            target@,
            addresses@,
        ));
        let ghost found = addresses;
        let passed = pass(addresses, cancellation);
        assert(crate::http::cancellation::was_passed(found, cancellation.flag(), passed));
        match passed {
            Ok(addresses) => pin_endpoint(&target, &addresses),
            Err(error) => Err(error),
        }
    }

    /// Carries out a request: the first hop and the redirects that follow.
    pub fn execute(&self, request: HttpRequest, cancellation: &CancellationToken) -> (outcome:
        Result<HttpResponse, HttpError>)
        ensures
            ({
                let flag = cancellation.flag();
                if outcome == Err::<HttpResponse, HttpError>(HttpError::Cancelled)
                    && crate::http::cancellation::was_passed(
                    request,
                    flag,
                    Err(HttpError::Cancelled),
                ) {
                    true
                } else {
                    &&& crate::http::cancellation::was_passed(request, flag, Ok(request))
                    &&& {
                        ||| outcome is Err && self.was_begun(request, Err(outcome->Err_0))
                            && self.was_full() && outcome->Err_0@ == (
                        HttpErrorView::ConcurrencyLimit {
                            limit: self.policy().spec_limits().max_concurrent,
                        })
                        ||| self.counted() && self.released() && exists|permit: CallPermit|
                            self.was_begun(request, Ok(permit)) && #[trigger] self.was_ended(
                                permit,
                                outcome,
                                outcome,
                            ) && can_come_to(*self, flag, request@, outcome_view(outcome))
                    }
                }
            }),
            outcome matches Ok(response) ==> acceptable(self.policy(), response@),
    {
        let ghost asked = request;
        let passed = pass(request, cancellation);
        assert(crate::http::cancellation::was_passed(asked, cancellation.flag(), passed));
        let request = match passed {
            Ok(request) => request,
            Err(error) => {
                return Err(error);
            },
        };
        let begun = self.begin_call(&request);
        assert(self.was_begun(asked, begun));
        let permit = match begun {
            Ok(permit) => permit,
            Err(error) => {
                return Err(error);
            },
        };
        let ghost given = permit;
        assert(self.permitted(asked@, given));
        let (method, url, headers, body) = request.into_parts();
        let ended = self.run(&permit, Hop { method, url, headers, body }, cancellation);
        let outcome = self.end_call(permit, ended);
        assert(self.was_ended(given, outcome, outcome));
        proof {
            use_type_invariant(&*self.inner);
            if outcome is Ok {
                let sent = choose|sent: Seq<TransportRequest>| #[trigger]
                    can_end(
                        *self,
                        cancellation.flag(),
                        request@,
                        Set::empty(),
                        0,
                        sent,
                        outcome_view(outcome),
                    );
                law_responses_are_checked(
                    *self,
                    cancellation.flag(),
                    request@,
                    Set::empty(),
                    0,
                    sent,
                    outcome->Ok_0@,
                );
            }
        }
        outcome
    }

    /// The hops of one call, which was counted before.
    fn run(&self, permit: &CallPermit, start: Hop, cancellation: &CancellationToken) -> (outcome:
        Result<HttpResponse, HttpError>)
        requires
            self.permitted(start@, *permit),
        ensures
            can_come_to(*self, cancellation.flag(), start@, outcome_view(outcome)),
    {
        proof {
            use_type_invariant(&*self.inner);
        }
        let policy = &self.inner.policy;
        let limits = *policy.limits();
        let ghost first = start@;
        let mut hop = start;
        let mut visited = TextSet::new();
        let mut hops: usize = 0;
        let ghost none: Seq<TransportRequest> = Seq::empty();
        while hops <= limits.max_redirects
            invariant
                *policy == self.policy(),
                policy.wf(),
                limits == policy.spec_limits(),
                limits.max_redirects <= 10,
                first == start@,
                none.len() == 0,
                hops <= limits.max_redirects + 1,
                visited.wf(),
                visited.in_order().len() == hops,
                may_work(*policy, self.resolver(), self.transport()),
                forall|
                    sent: Seq<TransportRequest>,
                    outcome: Result<ResponseView, HttpErrorView>,
                | #[trigger]
                    can_end(*self, cancellation.flag(), hop@, visited@, hops, sent, outcome)
                        ==> can_come_to(*self, cancellation.flag(), first, outcome),
            decreases limits.max_redirects + 1 - hops,
        {
            let ghost seen = visited@;
            let ghost current = hop@;
            let ghost held = hop;
            let passed = pass(hop, cancellation);
            let ghost checked = passed;
            assert(crate::http::cancellation::was_passed(held, cancellation.flag(), checked));
            assert(hop_was_passed(current, cancellation.flag(), checked is Err));
            hop =
            match passed {
                Ok(hop) => hop,
                Err(error) => {
                    assert(can_end(
                        *self,
                        cancellation.flag(),
                        current,
                        seen,
                        hops,
                        none,
                        Err(error@),
                    ));
                    return Err(error);
                },
            };
            if let Err(error) = validate_request_size(&hop, limits.max_request_bytes) {
                assert(can_end(
                    *self,
                    cancellation.flag(),
                    current,
                    seen,
                    hops,
                    none,
                    Err(error@),
                ));
                return Err(error);
            }
            if !visited.insert(hop.url.page.clone()) {
                let error = HttpError::Redirect("redirect loop detected".to_owned());
                assert(can_end(
                    *self,
                    cancellation.flag(),
                    current,
                    seen,
                    hops,
                    none,
                    Err(error@),
                ));
                return Err(error);
            }
            let slot = self.acquire_rate_slot(&hop);
            assert(self.asked_for_slot(current, slot));
            if let Err(error) = slot {
                assert(can_end(
                    *self,
                    cancellation.flag(),
                    current,
                    seen,
                    hops,
                    none,
                    Err(error@),
                ));
                return Err(error);
            }
            assert(slot->Ok_0 == ());
            let found = self.resolve_endpoint(&hop, cancellation);
            let endpoint = match found {
                Ok(endpoint) => endpoint,
                Err(error) => {
                    assert(can_end(
                        *self,
                        cancellation.flag(),
                        current,
                        seen,
                        hops,
                        none,
                        Err(error@),
                    ));
                    return Err(error);
                },
            };
            let request = TransportRequest {
                method: hop.method,
                url: hop.url.copy(),
                headers: copy_headers(&hop.headers),
                body: hop.body.clone(),
                endpoint,
                connect_timeout: limits.connect_timeout,
                request_timeout: limits.request_timeout,
                cancellation: cancellation.clone(),
            };
            let ghost sent = request;
            proof {
                lemma_hop_is_sendable(
                    self.resolver(),
                    self.policy(),
                    cancellation.flag(),
                    current,
                    sent,
                );
                assert(self.transport().may_carry(sent));
            }
            let answer = self.inner.transport.execute(request);
            let ghost answered = answer;
            assert(was_exchanged(
                self.resolver(),
                self.transport(),
                self.policy(),
                cancellation.flag(),
                current,
                sent,
                answered,
            ));
            let ghost one = seq![sent];
            assert(one.len() == 1 && one[0] == sent);
            let response = match answer {
                Ok(response) => response,
                Err(error) => {
                    assert(can_end(
                        *self,
                        cancellation.flag(),
                        current,
                        seen,
                        hops,
                        one,
                        Err(error@),
                    ));
                    return Err(error);
                },
            };
            let passed = pass(response, cancellation);
            let ghost checked = passed;
            assert(crate::http::cancellation::was_passed(
                answered->Ok_0,
                cancellation.flag(),
                checked,
            ));
            let response = match passed {
                Ok(response) => response,
                Err(error) => {
                    assert(can_end(
                        *self,
                        cancellation.flag(),
                        current,
                        seen,
                        hops,
                        one,
                        Err(error@),
                    ));
                    return Err(error);
                },
            };
            if let Err(error) = validate_response_headers(
                &response.headers,
                limits.max_response_header_bytes,
            ) {
                assert(can_end(
                    *self,
                    cancellation.flag(),
                    current,
                    seen,
                    hops,
                    one,
                    Err(error@),
                ));
                return Err(error);
            }
            if is_redirect(response.status) {
                hop =
                match redirect(policy, hop, response.status, &response.headers, hops) {
                    Ok(next) => next,
                    Err(error) => {
                        assert(can_end(
                            *self,
                            cancellation.flag(),
                            current,
                            seen,
                            hops,
                            one,
                            Err(error@),
                        ));
                        return Err(error);
                    },
                };
                proof {
                    assert forall|
                        rest: Seq<TransportRequest>,
                        outcome: Result<ResponseView, HttpErrorView>,
                    | #[trigger]
                        can_end(
                            *self,
                            cancellation.flag(),
                            hop@,
                            visited@,
                            (hops + 1) as usize,
                            rest,
                            outcome,
                        ) implies can_come_to(*self, cancellation.flag(), first, outcome) by {
                        lemma_redirected(
                            *self,
                            cancellation.flag(),
                            current,
                            seen,
                            hops,
                            sent,
                            answered->Ok_0,
                            hop@,
                            rest,
                            outcome,
                        );
                    }
                }
                hops = hops + 1;
                continue ;
            }
            let content_type = match validate_response(policy, &response.headers) {
                Ok(content_type) => content_type,
                Err(error) => {
                    assert(can_end(
                        *self,
                        cancellation.flag(),
                        current,
                        seen,
                        hops,
                        one,
                        Err(error@),
                    ));
                    return Err(error);
                },
            };
            let body = response.body;
            let bytes = if hop.method == HttpMethod::Head {
                let none: Vec<u8> = Vec::new();
                assert(none@ =~= Seq::<u8>::empty());
                none
            } else {
                match read_bounded(body, limits.max_response_bytes, cancellation) {
                    Ok(bytes) => bytes,
                    Err(error) => {
                        assert(can_end(
                            *self,
                            cancellation.flag(),
                            current,
                            seen,
                            hops,
                            one,
                            Err(error@),
                        ));
                        return Err(error);
                    },
                }
            };
            let headers = response_headers(response.headers);
            let made = HttpResponse::new(response.status, hop.url, content_type, headers, bytes);
            assert(can_finish(
                self.policy(),
                cancellation.flag(),
                current,
                answered->Ok_0,
                Ok(made@),
            ));
            assert(can_end(
                *self,
                cancellation.flag(),
                current,
                seen,
                hops,
                one,
                Ok(made@),
            ));
            return Ok(made);
        }
        let error = HttpError::Redirect("redirect state was exhausted".to_owned());
        assert(can_end(
            *self,
            cancellation.flag(),
            hop@,
            visited@,
            hops,
            none,
            Err(error@),
        ));
        Err(error)
    }
}

impl<R: Resolver, T: HttpTransport, C> Clone for SafeHttpClient<R, T, C> {
    fn clone(&self) -> (copy: Self)
        ensures
            copy == *self,
    {
        SafeHttpClient { inner: Arc::clone(&self.inner) }
    }
}

/// The outcome of a call as it is seen.
pub open spec fn outcome_view(outcome: Result<HttpResponse, HttpError>) -> Result<
    ResponseView,
    HttpErrorView,
> {
    match outcome {
        Ok(response) => Ok(response@),
        Err(error) => Err(error@),
    }
}

/// The resolver was asked for the host of a target, within its timeout, and
/// gave this answer.
pub open spec fn was_answered<R: Resolver>(
    resolver: R,
    policy: HttpPolicy,
    flag: std::sync::atomic::AtomicBool,
    target: TargetView,
    asked: ResolveRequest,
    answer: Result<Vec<IpAddress>, HttpError>,
) -> bool {
    &&& asked.host@ == target.canonical
    &&& asked.port == target.port
    &&& asked.timeout == policy.spec_limits().resolve_timeout
    &&& asked.cancellation.flag() == flag
    &&& call_ensures(R::resolve, (&resolver, asked), answer)
}

/// These are the addresses of a target: the one in its URL, or what the
/// resolver gave.
pub open spec fn may_be_used<R: Resolver>(
    resolver: R,
    policy: HttpPolicy,
    flag: std::sync::atomic::AtomicBool,
    target: TargetView,
    addresses: Seq<IpAddress>,
) -> bool {
    match target.literal {
        Some(address) => addresses == seq![address],
        None => exists|asked: ResolveRequest, answer: Vec<IpAddress>| #[trigger]
            was_answered(resolver, policy, flag, target, asked, Ok(answer)) && answer@ == addresses,
    }
}

/// The resolver answered with this error.
pub open spec fn could_not_resolve<R: Resolver>(
    resolver: R,
    policy: HttpPolicy,
    flag: std::sync::atomic::AtomicBool,
    target: TargetView,
    error: HttpError,
) -> bool {
    exists|asked: ResolveRequest, answer: Result<Vec<IpAddress>, HttpError>| #[trigger]
        was_answered(resolver, policy, flag, target, asked, answer) && answer == Err::<
            Vec<IpAddress>,
            HttpError,
        >(error)
}

/// What finding the endpoint of a target can come to. With the addresses in hand it is
/// looked once more whether the caller has cancelled.
pub open spec fn can_resolve<R: Resolver>(
    resolver: R,
    policy: HttpPolicy,
    flag: std::sync::atomic::AtomicBool,
    target: TargetView,
    endpoint: Result<ResolvedEndpoint, HttpError>,
) -> bool {
    ||| target.literal is None && endpoint is Err && could_not_resolve(
        resolver,
        policy,
        flag,
        target,
        endpoint->Err_0,
    )
    ||| exists|addresses: Vec<IpAddress>, passed: Result<Vec<IpAddress>, HttpError>|
        may_be_used(resolver, policy, flag, target, addresses@)
            && #[trigger] crate::http::cancellation::was_passed(addresses, flag, passed)
            && match passed {
            Ok(_) => crate::http::exchange::pinned_to(target, addresses@, endpoint),
            Err(error) => endpoint == Err::<ResolvedEndpoint, HttpError>(error),
        }
}

/// With this hop in hand it was looked whether the caller has cancelled.
pub open spec fn hop_was_passed(
    hop: RequestView,
    flag: std::sync::atomic::AtomicBool,
    cancelled: bool,
) -> bool {
    exists|held: Hop, passed: Result<Hop, HttpError>| #[trigger]
        crate::http::cancellation::was_passed(held, flag, passed) && held@ == hop && passed is Err
            == cancelled
}

/// A hop was handed to the transport: as it is, pinned to an endpoint that was
/// found for it, and within its timeouts. The transport gave this answer.
pub open spec fn was_exchanged<R: Resolver, T: HttpTransport>(
    resolver: R,
    transport: T,
    policy: HttpPolicy,
    flag: std::sync::atomic::AtomicBool,
    hop: RequestView,
    sent: TransportRequest,
    answer: Result<TransportResponse<T::Body>, HttpError>,
) -> bool {
    &&& crate::http::exchange::target(policy, hop.url) matches Ok(target) && can_resolve(
        resolver,
        policy,
        flag,
        target,
        Ok(sent.endpoint),
    )
    &&& sent.hop() == hop
    &&& sent.connect_timeout == policy.spec_limits().connect_timeout
    &&& sent.request_timeout == policy.spec_limits().request_timeout
    &&& sent.cancellation.flag() == flag
    &&& call_ensures(T::execute, (&transport, sent), answer)
}

/// What a response that is no redirect, and whose headers are within their
/// budget, can come to.
pub open spec fn can_finish<B: ResponseBody>(
    policy: HttpPolicy,
    flag: std::sync::atomic::AtomicBool,
    hop: RequestView,
    response: TransportResponse<B>,
    outcome: Result<ResponseView, HttpErrorView>,
) -> bool {
    let headers = crate::http::transport::byte_views(response.headers@);
    match crate::http::exchange::response_verdict(policy, headers) {
        Err(error) => outcome == Err::<ResponseView, HttpErrorView>(error),
        Ok(content_type) => match outcome {
            Ok(made) => {
                &&& made.status == response.status
                &&& made.final_url == hop.url
                &&& made.content_type == content_type
                &&& made.headers == crate::http::request::lower_names(headers)
                &&& if hop.method == HttpMethod::Head {
                    made.body == Seq::<u8>::empty()
                } else {
                    can_read(
                        response.body,
                        policy.spec_limits().max_response_bytes,
                        flag,
                        Ok(made.body),
                    )
                }
            },
            Err(error) => hop.method != HttpMethod::Head && can_read(
                response.body,
                policy.spec_limits().max_response_bytes,
                flag,
                Err(error),
            ),
        },
    }
}

/// What a call that stands at a hop can come to, and what it hands to the transport
/// on the way. The caller may have cancelled; a request that is too large and a URL
/// that was visited before are refused; so is every hop while the rate is used up,
/// and one whose target is not granted; and otherwise the resolver and the transport
/// decide, of whose answers nothing gets by unchecked.
pub open spec fn can_end<R: Resolver, T: HttpTransport, C: MonotonicClock>(
    client: SafeHttpClient<R, T, C>,
    flag: std::sync::atomic::AtomicBool,
    hop: RequestView,
    visited: Set<Seq<char>>,
    hops: usize,
    sent: Seq<TransportRequest>,
    outcome: Result<ResponseView, HttpErrorView>,
) -> bool
    decreases client.policy().spec_limits().max_redirects + 1 - hops,
{
    let policy = client.policy();
    let limits = policy.spec_limits();
    if hops > limits.max_redirects {
        sent.len() == 0 && outcome == Err::<ResponseView, HttpErrorView>(
            HttpErrorView::Redirect("redirect state was exhausted"@),
        )
    } else if sent.len() == 0 && outcome == Err::<ResponseView, HttpErrorView>(
        HttpErrorView::Cancelled,
    ) && hop_was_passed(hop, flag, true) {
        true
    } else if !hop_was_passed(hop, flag, false) {
        false
    } else if crate::http::exchange::request_size(hop) > limits.max_request_bytes {
        sent.len() == 0 && outcome == Err::<ResponseView, HttpErrorView>(
            HttpErrorView::RequestTooLarge { limit: limits.max_request_bytes },
        )
    } else if visited.contains(hop.url.page) {
        sent.len() == 0 && outcome == Err::<ResponseView, HttpErrorView>(
            HttpErrorView::Redirect("redirect loop detected"@),
        )
    } else if sent.len() == 0 && outcome is Err && found_no_slot(client, hop, outcome->Err_0) {
        true
    } else {
        client.took_slot() && client.asked_for_slot(hop, Ok(()))
            && match crate::http::exchange::target(policy, hop.url) {
            Err(error) => sent.len() == 0 && outcome == Err::<ResponseView, HttpErrorView>(error),
            Ok(target) => if sent.len() == 0 {
                exists|error: HttpError| #[trigger]
                    can_resolve(client.resolver(), policy, flag, target, Err(error)) && outcome
                        == Err::<ResponseView, HttpErrorView>(error@)
            } else {
                exists|answer: Result<TransportResponse<T::Body>, HttpError>| #[trigger]
                    was_exchanged(
                        client.resolver(),
                        client.transport(),
                        policy,
                        flag,
                        hop,
                        sent[0],
                        answer,
                    ) && match answer {
                        Err(error) => sent.len() == 1 && outcome == Err::<
                            ResponseView,
                            HttpErrorView,
                        >(error@),
                        Ok(response) => if sent.len() == 1 && outcome == Err::<
                            ResponseView,
                            HttpErrorView,
                        >(HttpErrorView::Cancelled) && crate::http::cancellation::was_passed(
                            response,
                            flag,
                            Err(HttpError::Cancelled),
                        ) {
                            true
                        } else if !crate::http::cancellation::was_passed(
                            response,
                            flag,
                            Ok(response),
                        ) {
                            false
                        } else {
                            let headers = crate::http::transport::byte_views(response.headers@);
                            match crate::http::exchange::headers_error(
                                headers,
                                0,
                                limits.max_response_header_bytes,
                            ) {
                                Some(error) => sent.len() == 1 && outcome == Err::<
                                    ResponseView,
                                    HttpErrorView,
                                >(error),
                                None => if !crate::http::exchange::redirects(response.status) {
                                    sent.len() == 1 && can_finish(
                                        policy,
                                        flag,
                                        hop,
                                        response,
                                        outcome,
                                    )
                                } else {
                                    match crate::http::exchange::next_hop(
                                        policy,
                                        hop,
                                        response.status,
                                        headers,
                                        hops,
                                    ) {
                                        Err(error) => sent.len() == 1 && outcome == Err::<
                                            ResponseView,
                                            HttpErrorView,
                                        >(error),
                                        Ok(next) => can_end(
                                            client,
                                            flag,
                                            next,
                                            visited.insert(hop.url.page),
                                            (hops + 1) as usize,
                                            sent.skip(1),
                                            outcome,
                                        ),
                                    }
                                },
                            }
                        },
                    }
            },
        }
    }
}

/// A slot was asked for to start the hop, and there was none.
pub open spec fn found_no_slot<R: Resolver, T: HttpTransport, C: MonotonicClock>(
    client: SafeHttpClient<R, T, C>,
    hop: RequestView,
    error: HttpErrorView,
) -> bool {
    client.had_no_slot(error) && exists|refused: HttpError| #[trigger]
        client.asked_for_slot(hop, Err(refused)) && refused@ == error
}

/// What a call can come to that starts with a hop.
pub open spec fn can_come_to<R: Resolver, T: HttpTransport, C: MonotonicClock>(
    client: SafeHttpClient<R, T, C>,
    flag: std::sync::atomic::AtomicBool,
    hop: RequestView,
    outcome: Result<ResponseView, HttpErrorView>,
) -> bool {
    exists|sent: Seq<TransportRequest>| #[trigger]
        can_end(client, flag, hop, Set::empty(), 0, sent, outcome)
}

/// What a call can come to after a redirect, it can come to before it.
proof fn lemma_redirected<R: Resolver, T: HttpTransport, C: MonotonicClock>(
    client: SafeHttpClient<R, T, C>,
    flag: std::sync::atomic::AtomicBool,
    hop: RequestView,
    visited: Set<Seq<char>>,
    hops: usize,
    sent: TransportRequest,
    response: TransportResponse<T::Body>,
    next: RequestView,
    rest: Seq<TransportRequest>,
    outcome: Result<ResponseView, HttpErrorView>,
)
    requires
        hops <= client.policy().spec_limits().max_redirects,
        hop_was_passed(hop, flag, false),
        crate::http::exchange::request_size(hop) <= client.policy().spec_limits().max_request_bytes,
        !visited.contains(hop.url.page),
        client.took_slot(),
        client.asked_for_slot(hop, Ok(())),
        was_exchanged(
            client.resolver(),
            client.transport(),
            client.policy(),
            flag,
            hop,
            sent,
            Ok(response),
        ),
        crate::http::cancellation::was_passed(response, flag, Ok(response)),
        crate::http::exchange::headers_error(
            crate::http::transport::byte_views(response.headers@),
            0,
            client.policy().spec_limits().max_response_header_bytes,
        ) is None,
        crate::http::exchange::redirects(response.status),
        crate::http::exchange::next_hop(
            client.policy(),
            hop,
            response.status,
            crate::http::transport::byte_views(response.headers@),
            hops,
        ) == Ok::<RequestView, HttpErrorView>(next),
        can_end(
            client,
            flag,
            next,
            visited.insert(hop.url.page),
            (hops + 1) as usize,
            rest,
            outcome,
        ),
    ensures
        can_end(client, flag, hop, visited, hops, seq![sent] + rest, outcome),
{
    let all = seq![sent] + rest;
    assert(all.skip(1) =~= rest);
    assert(all[0] == sent);
    assert(was_exchanged(
        client.resolver(),
        client.transport(),
        client.policy(),
        flag,
        hop,
        all[0],
        Ok(response),
    ));
}

/// A hop whose endpoint was found, and that is within its size, may be sent.
proof fn lemma_hop_is_sendable<R: Resolver>(
    resolver: R,
    policy: HttpPolicy,
    flag: std::sync::atomic::AtomicBool,
    hop: RequestView,
    sent: TransportRequest,
)
    requires
        crate::http::exchange::target(policy, hop.url) is Ok,
        can_resolve(
            resolver,
            policy,
            flag,
            crate::http::exchange::target(policy, hop.url)->Ok_0,
            Ok(sent.endpoint),
        ),
        sent.hop() == hop,
        sent.connect_timeout == policy.spec_limits().connect_timeout,
        sent.request_timeout == policy.spec_limits().request_timeout,
        crate::http::exchange::request_size(hop) <= policy.spec_limits().max_request_bytes,
    ensures
        crate::http::exchange::sendable(policy, sent),
        sent.is_checked(),
{
    let target = crate::http::exchange::target(policy, hop.url)->Ok_0;
    let (found, passed) = choose|
        found: Vec<IpAddress>,
        passed: Result<Vec<IpAddress>, HttpError>,
    |
        may_be_used(resolver, policy, flag, target, found@)
            && #[trigger] crate::http::cancellation::was_passed(found, flag, passed)
            && match passed {
            Ok(_) => crate::http::exchange::pinned_to(target, found@, Ok(sent.endpoint)),
            Err(_) => false,
        };
    let addresses = found@;
    assert(crate::http::exchange::pinned_to(target, addresses, Ok(sent.endpoint)));
    assert(addresses.contains(addresses[0]));
    assert(sent.endpoint.addresses@.contains(addresses[0]));
    if target.literal is Some {
        let address = target.literal->Some_0;
        let pinned = sent.endpoint.addresses@;
        assert forall|i: int| 0 <= i < pinned.len() implies #[trigger] pinned[i] == address by {
            assert(pinned.contains(pinned[i]));
            assert(addresses.contains(pinned[i]));
        }
        if pinned.len() > 1 {
            assert(crate::http::network::address_before(pinned[0], pinned[1]));
        }
        assert(pinned =~= seq![address]);
    }
}

/// A call that hands more than one request to the transport goes on with another hop
/// after the first.
proof fn lemma_goes_on<R: Resolver, T: HttpTransport, C: MonotonicClock>(
    client: SafeHttpClient<R, T, C>,
    flag: std::sync::atomic::AtomicBool,
    hop: RequestView,
    visited: Set<Seq<char>>,
    hops: usize,
    sent: Seq<TransportRequest>,
    outcome: Result<ResponseView, HttpErrorView>,
) -> (next: RequestView)
    requires
        can_end(client, flag, hop, visited, hops, sent, outcome),
        sent.len() > 1,
    ensures
        hops <= client.policy().spec_limits().max_redirects,
        can_end(
            client,
            flag,
            next,
            visited.insert(hop.url.page),
            (hops + 1) as usize,
            sent.skip(1),
            outcome,
        ),
{
    let policy = client.policy();
    let answer = choose|answer: Result<TransportResponse<T::Body>, HttpError>| #[trigger]
        was_exchanged(
            client.resolver(),
            client.transport(),
            policy,
            flag,
            hop,
            sent[0],
            answer,
        ) && match answer {
            Err(_) => false,
            Ok(response) => {
                let headers = crate::http::transport::byte_views(response.headers@);
                crate::http::exchange::next_hop(
                    policy,
                    hop,
                    response.status,
                    headers,
                    hops,
                ) matches Ok(next) && can_end(
                    client,
                    flag,
                    next,
                    visited.insert(hop.url.page),
                    (hops + 1) as usize,
                    sent.skip(1),
                    outcome,
                )
            },
        };
    let response = answer->Ok_0;
    let headers = crate::http::transport::byte_views(response.headers@);
    let next = crate::http::exchange::next_hop(
        policy,
        hop,
        response.status,
        headers,
        hops,
    )->Ok_0;
    next
}

/// Every request that goes to the transport, the first or one after a redirect, was
/// checked before: its URL has a granted scheme and host and no credentials, and it
/// is pinned to public addresses at the port of the URL. There are no more of them
/// than the redirects that the policy allows, and the first.
pub proof fn law_every_hop_is_checked<R: Resolver, T: HttpTransport, C: MonotonicClock>(
    client: SafeHttpClient<R, T, C>,
    flag: std::sync::atomic::AtomicBool,
    hop: RequestView,
    visited: Set<Seq<char>>,
    hops: usize,
    sent: Seq<TransportRequest>,
    outcome: Result<ResponseView, HttpErrorView>,
)
    requires
        client.policy().wf(),
        can_end(client, flag, hop, visited, hops, sent, outcome),
        hops <= client.policy().spec_limits().max_redirects + 1,
    ensures
        hops + sent.len() <= client.policy().spec_limits().max_redirects + 1,
        forall|i: int|
            0 <= i < sent.len() ==> crate::http::exchange::sendable(
                client.policy(),
                #[trigger] sent[i],
            ) && sent[i].is_checked(),
    decreases client.policy().spec_limits().max_redirects + 1 - hops,
{
    let policy = client.policy();
    if sent.len() > 0 {
        assert(hops <= policy.spec_limits().max_redirects);
        lemma_hop_is_sendable(client.resolver(), policy, flag, hop, sent[0]);
        if sent.len() > 1 {
            let next = lemma_goes_on(client, flag, hop, visited, hops, sent, outcome);
            law_every_hop_is_checked(
                client,
                flag,
                next,
                visited.insert(hop.url.page),
                (hops + 1) as usize,
                sent.skip(1),
                outcome,
            );
            assert forall|i: int| 0 <= i < sent.len() implies crate::http::exchange::sendable(
                policy,
                #[trigger] sent[i],
            ) && sent[i].is_checked() by {
                if i > 0 {
                    assert(sent.skip(1)[i - 1] == sent[i]);
                }
            }
        }
    }
}

/// Every request that goes to the transport has a slot of its own: its hop was given one
/// after it was looked whether the caller has cancelled it, and no two of them are for
/// the same page.
pub proof fn law_every_hop_has_its_slot<R: Resolver, T: HttpTransport, C: MonotonicClock>(
    client: SafeHttpClient<R, T, C>,
    flag: std::sync::atomic::AtomicBool,
    hop: RequestView,
    visited: Set<Seq<char>>,
    hops: usize,
    sent: Seq<TransportRequest>,
    outcome: Result<ResponseView, HttpErrorView>,
)
    requires
        client.policy().wf(),
        can_end(client, flag, hop, visited, hops, sent, outcome),
        hops <= client.policy().spec_limits().max_redirects + 1,
    ensures
        forall|i: int|
            0 <= i < sent.len() ==> hop_was_passed((#[trigger] sent[i]).hop(), flag, false)
                && client.asked_for_slot(sent[i].hop(), Ok(())) && !visited.contains(
                sent[i].url@.page,
            ),
        forall|i: int, j: int|
            0 <= i < j < sent.len() ==> (#[trigger] sent[i]).url@.page != (
            #[trigger] sent[j]).url@.page,
    decreases client.policy().spec_limits().max_redirects + 1 - hops,
{
    if sent.len() > 1 {
        let seen = visited.insert(hop.url.page);
        let next = lemma_goes_on(client, flag, hop, visited, hops, sent, outcome);
        let rest = sent.skip(1);
        law_every_hop_has_its_slot(client, flag, next, seen, (hops + 1) as usize, rest, outcome);
        assert forall|i: int| 0 < i < sent.len() implies hop_was_passed(
            (#[trigger] sent[i]).hop(),
            flag,
            false,
        ) && client.asked_for_slot(sent[i].hop(), Ok(())) && !seen.contains(
            sent[i].url@.page,
        ) by {
            assert(rest[i - 1] == sent[i]);
        }
        assert forall|i: int, j: int| 0 < i < j < sent.len() implies (
        #[trigger] sent[i]).url@.page != (#[trigger] sent[j]).url@.page by {
            assert(rest[i - 1] == sent[i] && rest[j - 1] == sent[j]);
        }
    }
}

/// What holds of every response that a client hands out, whatever the network
/// did: it is no redirect, its URL leads to a granted host, its headers and
/// media type passed, the names of its headers are in lower case, and its headers
/// and body are within their budgets.
pub open spec fn acceptable(policy: HttpPolicy, response: ResponseView) -> bool {
    &&& !crate::http::exchange::redirects(response.status)
    &&& crate::http::exchange::target(policy, response.final_url) is Ok
    &&& crate::http::exchange::headers_error(
        response.headers,
        0,
        policy.spec_limits().max_response_header_bytes,
    ) is None
    &&& crate::http::exchange::response_verdict(policy, response.headers) == Ok::<
        Option<Seq<char>>,
        HttpErrorView,
    >(response.content_type)
    &&& response.headers == crate::http::request::lower_names(response.headers)
    &&& response.body.len() <= policy.spec_limits().max_response_bytes
}

/// Whatever the network does, a call that comes to a response comes to one that
/// passed every check.
pub proof fn law_responses_are_checked<R: Resolver, T: HttpTransport, C: MonotonicClock>(
    client: SafeHttpClient<R, T, C>,
    flag: std::sync::atomic::AtomicBool,
    hop: RequestView,
    visited: Set<Seq<char>>,
    hops: usize,
    sent: Seq<TransportRequest>,
    response: ResponseView,
)
    requires
        client.policy().wf(),
        can_end(client, flag, hop, visited, hops, sent, Ok(response)),
    ensures
        acceptable(client.policy(), response),
    decreases client.policy().spec_limits().max_redirects + 1 - hops,
{
    let policy = client.policy();
    let limits = policy.spec_limits();
    let answer = choose|answer: Result<TransportResponse<T::Body>, HttpError>| #[trigger]
        was_exchanged(
            client.resolver(),
            client.transport(),
            policy,
            flag,
            hop,
            sent[0],
            answer,
        ) && match answer {
            Err(_) => false,
            Ok(made) => {
                let headers = crate::http::transport::byte_views(made.headers@);
                match crate::http::exchange::headers_error(
                    headers,
                    0,
                    limits.max_response_header_bytes,
                ) {
                    Some(_) => false,
                    None => if !crate::http::exchange::redirects(made.status) {
                        can_finish(policy, flag, hop, made, Ok(response))
                    } else {
                        match crate::http::exchange::next_hop(
                            policy,
                            hop,
                            made.status,
                            headers,
                            hops,
                        ) {
                            Err(_) => false,
                            Ok(next) => can_end(
                                client,
                                flag,
                                next,
                                visited.insert(hop.url.page),
                                (hops + 1) as usize,
                                sent.skip(1),
                                Ok(response),
                            ),
                        }
                    },
                }
            },
        };
    let made = answer->Ok_0;
    let headers = crate::http::transport::byte_views(made.headers@);
    if crate::http::exchange::redirects(made.status) {
        let next = crate::http::exchange::next_hop(policy, hop, made.status, headers, hops)->Ok_0;
        law_responses_are_checked(
            client,
            flag,
            next,
            visited.insert(hop.url.page),
            (hops + 1) as usize,
            sent.skip(1),
            response,
        );
    } else {
        crate::http::exchange::lemma_lower_names_pass(
            policy,
            headers,
            0,
            limits.max_response_header_bytes,
        );
        crate::http::exchange::lemma_lower_names_stay(headers);
    }
}

/// Whatever a resolver answers, the transport is given public addresses only,
/// and only for a target that the policy grants.
pub proof fn law_only_public_addresses_are_contacted<R: Resolver, T: HttpTransport>(
    resolver: R,
    transport: T,
    policy: HttpPolicy,
    flag: std::sync::atomic::AtomicBool,
    hop: RequestView,
    sent: TransportRequest,
    answer: Result<TransportResponse<T::Body>, HttpError>,
    i: int,
)
    requires
        was_exchanged(resolver, transport, policy, flag, hop, sent, answer),
        0 <= i < sent.endpoint.addresses@.len(),
    ensures
        crate::http::network::is_public(sent.endpoint.addresses@[i]),
        policy.spec_schemes().permits(sent.url@.scheme),
        crate::http::exchange::target(policy, sent.url@) is Ok,
        sent.endpoint.port == crate::http::exchange::target(policy, sent.url@)->Ok_0.port,
        crate::http::exchange::granted(
            policy,
            crate::http::exchange::target(policy, sent.url@)->Ok_0.canonical,
        ),
{
    let target = crate::http::exchange::target(policy, hop.url)->Ok_0;
    let (found, passed) = choose|
        found: Vec<IpAddress>,
        passed: Result<Vec<IpAddress>, HttpError>,
    |
        may_be_used(resolver, policy, flag, target, found@)
            && #[trigger] crate::http::cancellation::was_passed(found, flag, passed)
            && match passed {
            Ok(_) => crate::http::exchange::pinned_to(target, found@, Ok(sent.endpoint)),
            Err(_) => false,
        };
    let addresses = found@;
    assert(crate::http::exchange::pinned_to(target, addresses, Ok(sent.endpoint)));
}

proof fn lemma_recent_is_shorter(
    history: Seq<crate::http::span::Span>,
    now: crate::http::span::Span,
    window: crate::http::span::Span,
)
    ensures
        crate::http::rate::recent(history, now, window).len() <= history.len(),
    decreases history.len(),
{
    if history.len() > 0 && crate::http::rate::elapsed(now, history[0]) >= window.nanos {
        lemma_recent_is_shorter(history.skip(1), now, window);
    }
}

/// A call that comes to a response gives it as the server did: its status, its headers with
/// their names in lower case, the URL of the last hop, and as its body the pieces that came,
/// all of them in their order and no more bytes than the policy allows. A HEAD gives none.
pub proof fn law_responses_are_given_as_they_came<B: ResponseBody>(
    policy: HttpPolicy,
    flag: std::sync::atomic::AtomicBool,
    hop: RequestView,
    response: TransportResponse<B>,
    made: ResponseView,
)
    requires
        can_finish(policy, flag, hop, response, Ok(made)),
    ensures
        made.status == response.status,
        made.final_url == hop.url,
        made.headers.len() == response.headers@.len(),
        hop.method == HttpMethod::Head ==> made.body.len() == 0,
        hop.method != HttpMethod::Head ==> made.body.len()
            <= policy.spec_limits().max_response_bytes && exists|
            states: Seq<B>,
            chunks: Seq<Vec<u8>>,
        | #[trigger]
            pieces(response.body, flag, states, chunks) && joined(chunks) == made.body
                && was_at_end(states.last(), flag),
{
    if hop.method != HttpMethod::Head {
        let (states, chunks, whole) = choose|
            states: Seq<B>,
            chunks: Seq<Vec<u8>>,
            whole: Vec<u8>,
        | #[trigger]
            was_read(response.body, flag, states, chunks, whole, Ok(whole)) && whole@ == made.body;
        assert(pieces(response.body, flag, states, chunks));
    }
}

/// Pieces that are put together follow each other in their order.
pub proof fn law_pieces_are_put_together(chunks: Seq<Vec<u8>>, chunk: Vec<u8>)
    ensures
        joined(Seq::empty()).len() == 0,
        joined(chunks.push(chunk)) == joined(chunks) + chunk@,
{
    assert(chunks.push(chunk).drop_last() =~= chunks);
}

/// A call that is counted makes one more, and no more than may run; one that is no longer
/// counted makes one less. A call is refused for the others only if as many run as may.
pub proof fn law_running_calls_are_counted<R: Resolver, T: HttpTransport, C: MonotonicClock>(
    client: SafeHttpClient<R, T, C>,
)
    ensures
        client.counted() ==> exists|before: ClientState, after: ClientState| #[trigger]
            client.moved(before, after) && after.active == before.active + 1 && after.active
                <= client.policy().spec_limits().max_concurrent && after.history == before.history,
        client.released() ==> exists|before: ClientState, after: ClientState| #[trigger]
            client.moved(before, after) && after.history == before.history && (before.active > 0
                ==> after.active == before.active - 1) && (before.active == 0 ==> after.active
                == 0),
        client.was_full() ==> exists|before: ClientState, after: ClientState| #[trigger]
            client.moved(before, after) && after == before && before.active
                >= client.policy().spec_limits().max_concurrent,
{
    if client.counted() {
        let (before, after) = choose|before: ClientState, after: ClientState| #[trigger]
            client.moved(before, after) && before.active
                < client.policy().spec_limits().max_concurrent && after == (ClientState {
                active: (before.active + 1) as usize,
                ..before
            });
        assert(client.moved(before, after));
    }
    if client.released() {
        let (before, after) = choose|before: ClientState, after: ClientState| #[trigger]
            client.moved(before, after) && after == if before.active > 0 {
                ClientState { active: (before.active - 1) as usize, ..before }
            } else {
                before
            };
        assert(client.moved(before, after));
    }
}

/// A hop that took a slot is the latest start, and fewer starts than may be lie less than a
/// window before it. A hop that got none is told to wait, and leaves no start.
pub proof fn law_slots_are_taken_one_by_one<R: Resolver, T: HttpTransport, C: MonotonicClock>(
    client: SafeHttpClient<R, T, C>,
    error: HttpErrorView,
)
    ensures
        client.took_slot() ==> exists|now: Span, before: ClientState, after: ClientState| #[trigger]
            client.told(now, before, after) && after.history.starts@.len() > 0
                && after.history.starts@.last() == now && after.history.starts@.len()
                <= client.policy().spec_limits().rate.requests && after.active == before.active,
        client.had_no_slot(error) ==> error is RateLimited && exists|
            now: Span,
            before: ClientState,
            after: ClientState,
        | #[trigger]
            client.told(now, before, after) && after.history.starts@.len()
                >= client.policy().spec_limits().rate.requests && after.history.starts@.len()
                <= before.history.starts@.len() && after.active == before.active,
{
    let rate = client.policy().spec_limits().rate;
    if client.took_slot() {
        let (now, before, after) = choose|now: Span, before: ClientState, after: ClientState|
            #[trigger]
            client.told(now, before, after) && {
                let kept = crate::http::rate::recent(before.history.starts@, now, rate.window);
                kept.len() < rate.requests && after.history.starts@ == kept.push(now)
            };
        assert(client.told(now, before, after));
    }
    if client.had_no_slot(error) {
        let (now, before, after) = choose|now: Span, before: ClientState, after: ClientState|
            #[trigger]
            client.told(now, before, after) && {
                let kept = crate::http::rate::recent(before.history.starts@, now, rate.window);
                &&& kept.len() >= rate.requests
                &&& after.history.starts@ == kept
                &&& error matches HttpErrorView::RateLimited { retry_after }
                &&& retry_after.nanos == crate::http::rate::wait_nanos(kept, now, rate.window)
            };
        lemma_recent_is_shorter(before.history.starts@, now, rate.window);
        assert(client.told(now, before, after));
    }
}

/// A resolver is asked for the host that was granted, at the port of the URL and for as long
/// as the policy lets it; the transport is handed the hop as it is, for as long as the
/// policy lets it. Both can see whether the caller has cancelled.
pub proof fn law_questions_and_hops_carry_the_limits<R: Resolver, T: HttpTransport>(
    resolver: R,
    transport: T,
    policy: HttpPolicy,
    flag: std::sync::atomic::AtomicBool,
    target: TargetView,
    asked: ResolveRequest,
    answer: Result<Vec<IpAddress>, HttpError>,
    hop: RequestView,
    sent: TransportRequest,
    response: Result<TransportResponse<T::Body>, HttpError>,
)
    requires
        was_answered(resolver, policy, flag, target, asked, answer),
        was_exchanged(resolver, transport, policy, flag, hop, sent, response),
    ensures
        asked.host@ == target.canonical,
        asked.port == target.port,
        asked.timeout == policy.spec_limits().resolve_timeout,
        asked.cancellation.flag() == flag,
        sent.method == hop.method,
        sent.url@ == hop.url,
        sent.body@ == hop.body,
        crate::http::request::header_views(sent.headers@) == hop.headers,
        sent.connect_timeout == policy.spec_limits().connect_timeout,
        sent.request_timeout == policy.spec_limits().request_timeout,
        sent.cancellation.flag() == flag,
{
}

} // verus!

//! Document generations and the identities issued within one.

use crate::runtime::cancellation::{CancellationSource, CancellationToken, FlagStep};
use std::marker::PhantomData;
use std::sync::atomic::{AtomicBool, AtomicU64, Ordering};
use std::sync::Arc;
use vstd::prelude::*;

verus! {

/// Identity of one opening of a document; never zero.
#[derive(Clone, Copy, Debug, PartialEq, Eq, PartialOrd, Ord, Hash, Structural)]
pub struct DocumentGeneration(pub u64);

impl DocumentGeneration {
    /// The numeric generation.
    pub fn get(self) -> (value: u64)
        ensures
            value == self.0,
    {
        self.0
    }

    /// Wraps a non-zero number.
    pub fn from_non_zero(value: u64) -> (generation: DocumentGeneration)
        requires
            value != 0,
        ensures
            generation == DocumentGeneration(value),
    {
        DocumentGeneration(value)
    }
}

/// Identity of one request within a generation; never zero.
#[derive(Clone, Copy, Debug, PartialEq, Eq, PartialOrd, Ord, Hash, Structural)]
pub struct RequestId(pub u64);

impl RequestId {
    /// The numeric identity.
    pub fn get(self) -> (value: u64)
        ensures
            value == self.0,
    {
        self.0
    }
}

/// Identity of one resource within a generation; never zero.
#[derive(Clone, Copy, Debug, PartialEq, Eq, PartialOrd, Ord, Hash, Structural)]
pub struct ResourceId(pub u64);

impl ResourceId {
    /// The numeric identity.
    pub fn get(self) -> (value: u64)
        ensures
            value == self.0,
    {
        self.0
    }
}

/// A resource of one kind, tied to the generation that issued it.
#[derive(Debug)]
pub struct ResourceHandle<T> {
    pub generation: DocumentGeneration,
    pub id: ResourceId,
    pub marker: PhantomData<T>,
}

impl<T> ResourceHandle<T> {
    /// The generation that issued the handle.
    pub fn generation(self) -> (generation: DocumentGeneration)
        ensures
            generation == self.generation,
    {
        self.generation
    }

    /// The resource's identity.
    pub fn id(self) -> (id: ResourceId)
        ensures
            id == self.id,
    {
        self.id
    }

    /// Whether a generation issued the handle.
    pub fn belongs_to(self, generation: DocumentGeneration) -> (belongs: bool)
        ensures
            belongs == (self.generation == generation),
    {
        self.generation == generation
    }
}

impl<T> Clone for ResourceHandle<T> {
    fn clone(&self) -> (copy: Self)
        ensures
            copy == *self,
    {
        *self
    }
}

impl<T> Copy for ResourceHandle<T> {

}

/// A counter of a session ran out.
#[derive(Clone, Copy, Debug, PartialEq, Eq, Structural)]
pub enum AllocationError {
    RequestIdsExhausted,
    ResourceIdsExhausted,
}

impl AllocationError {
    /// The words of [`message`](Self::message).
    pub open spec fn message_text(self) -> Seq<char> {
        match self {
            AllocationError::RequestIdsExhausted => "document request IDs exhausted"@,
            AllocationError::ResourceIdsExhausted => "document resource IDs exhausted"@,
        }
    }

    /// The error in words.
    pub fn message(self) -> (text: &'static str)
        ensures
            text@ == self.message_text(),
    {
        match self {
            AllocationError::RequestIdsExhausted => "document request IDs exhausted",
            AllocationError::ResourceIdsExhausted => "document resource IDs exhausted",
        }
    }
}

/// No session can be started any more.
#[derive(Clone, Copy, Debug, PartialEq, Eq, Structural)]
pub enum SessionError {
    GenerationsExhausted,
}

impl SessionError {
    /// The words of [`message`](Self::message).
    pub open spec fn message_text(self) -> Seq<char> {
        "document generations exhausted"@
    }

    /// The error in words.
    pub fn message(self) -> (text: &'static str)
        ensures
            text@ == self.message_text(),
    {
        "document generations exhausted"
    }
}

#[derive(Debug)]
struct SessionState {
    generation: DocumentGeneration,
    cancellation: CancellationSource,
    next_request: AtomicU64,
    next_resource: AtomicU64,
}

/// One opening of a document. Clones share the flag and the counters.
#[derive(Debug)]
pub struct DocumentSession {
    state: Arc<SessionState>,
}

/// The number after `current`, unless there is none.
fn successor(current: u64) -> (next: Option<u64>)
    ensures
        next == if current == u64::MAX {
            None
        } else {
            Some((current + 1) as u64)
        },
{
    current.checked_add(1)
}

/// Takes the next number of a shared counter with
/// `std::sync::atomic::AtomicU64::fetch_update`, which hands back the value
/// that it replaced, or nothing when the update declined it. The number that
/// comes out depends on what other holders of the counter took before; all
/// that is stated is that a number with no successor is never handed out, so that
/// nothing comes out only where the counter stands at such a number.
#[verifier::external_body]
pub(crate) fn take_number(counter: &AtomicU64) -> (taken: Option<u64>)
    ensures
        taken matches Some(value) ==> value < u64::MAX,
{
    counter.fetch_update(Ordering::AcqRel, Ordering::Acquire, |current| successor(current)).ok()
}

/// Where a counter stood when it gave this out: at the number, or at the end.
pub open spec fn stood_at(taken: Option<u64>) -> u64 {
    match taken {
        Some(value) => value,
        None => u64::MAX,
    }
}

/// Where a counter stands after it gave this out: one further, or still at the end.
pub open spec fn stands_at(taken: Option<u64>) -> u64 {
    match taken {
        Some(value) => (value + 1) as u64,
        None => u64::MAX,
    }
}

/// A counter that was made to start at `first` gave these out one after the other:
/// each time it stood where it was left the time before.
pub open spec fn in_turn(first: u64, taken: Seq<Option<u64>>) -> bool {
    &&& taken.len() > 0 ==> stood_at(taken[0]) == first
    &&& forall|i: int|
        0 <= i < taken.len() ==> ((#[trigger] taken[i]) matches Some(value) ==> value < u64::MAX)
    &&& forall|i: int|
        0 < i < taken.len() ==> stood_at(#[trigger] taken[i]) == stands_at(taken[i - 1])
}

/// A counter from one on gives out the numbers in order, until it is at the end.
pub proof fn lemma_numbers_count_up(taken: Seq<Option<u64>>, k: int)
    requires
        in_turn(1, taken),
        0 <= k < taken.len(),
    ensures
        taken[k] == if k + 1 < u64::MAX {
            Some((k + 1) as u64)
        } else {
            None
        },
    decreases k,
{
    if k > 0 {
        lemma_numbers_count_up(taken, k - 1);
        assert(stood_at(taken[k]) == stands_at(taken[k - 1]));
    }
}

/// The request identity for a number that the counter gave out.
pub open spec fn request_of(taken: Option<u64>) -> Result<RequestId, AllocationError> {
    match taken {
        Some(value) => if value == 0 {
            Err(AllocationError::RequestIdsExhausted)
        } else {
            Ok(RequestId(value))
        },
        None => Err(AllocationError::RequestIdsExhausted),
    }
}

/// The request identity for a number that the counter gave out.
pub fn request_from_number(taken: Option<u64>) -> (request: Result<RequestId, AllocationError>)
    ensures
        request == request_of(taken),
{
    match taken {
        Some(value) => if value == 0 {
            Err(AllocationError::RequestIdsExhausted)
        } else {
            Ok(RequestId(value))
        },
        None => Err(AllocationError::RequestIdsExhausted),
    }
}

/// The resource identity for a number that the counter gave out.
pub open spec fn resource_of(taken: Option<u64>) -> Result<ResourceId, AllocationError> {
    match taken {
        Some(value) => if value == 0 {
            Err(AllocationError::ResourceIdsExhausted)
        } else {
            Ok(ResourceId(value))
        },
        None => Err(AllocationError::ResourceIdsExhausted),
    }
}

/// The resource identity for a number that the counter gave out.
pub fn resource_from_number(taken: Option<u64>) -> (resource: Result<ResourceId, AllocationError>)
    ensures
        resource == resource_of(taken),
{
    match taken {
        Some(value) => if value == 0 {
            Err(AllocationError::ResourceIdsExhausted)
        } else {
            Ok(ResourceId(value))
        },
        None => Err(AllocationError::ResourceIdsExhausted),
    }
}

impl DocumentSession {
    /// The generation of this opening.
    pub closed spec fn spec_generation(&self) -> DocumentGeneration {
        self.state.generation
    }

    /// The flag that ends this opening.
    pub closed spec fn flag(&self) -> AtomicBool {
        self.state.cancellation.flag()
    }

    /// The counter of requests gave out this.
    pub closed spec fn drew_request(&self, taken: Option<u64>) -> bool {
        call_ensures(take_number, (&self.state.next_request,), taken)
    }

    /// The counter of resources gave out this.
    pub closed spec fn drew_resource(&self, taken: Option<u64>) -> bool {
        call_ensures(take_number, (&self.state.next_resource,), taken)
    }

    /// Both counters were made to start at one.
    pub closed spec fn counts_from_one(&self) -> bool {
        call_ensures(AtomicU64::new, (1,), self.state.next_request) && call_ensures(
            AtomicU64::new,
            (1,),
            self.state.next_resource,
        )
    }

    /// The counter of requests, which was made to start at one, gave these out one
    /// after the other, to whichever clone of the session asked.
    pub open spec fn served_requests(&self, taken: Seq<Option<u64>>) -> bool {
        &&& self.counts_from_one()
        &&& in_turn(1, taken)
        &&& forall|i: int| 0 <= i < taken.len() ==> self.drew_request(#[trigger] taken[i])
    }

    /// The counter of resources, which was made to start at one, gave these out one
    /// after the other, to whichever clone of the session asked.
    pub open spec fn served_resources(&self, taken: Seq<Option<u64>>) -> bool {
        &&& self.counts_from_one()
        &&& in_turn(1, taken)
        &&& forall|i: int| 0 <= i < taken.len() ==> self.drew_resource(#[trigger] taken[i])
    }

    /// The counter of requests had nothing to give.
    pub open spec fn had_no_request(&self) -> bool {
        exists|taken: Option<u64>| #[trigger]
            self.drew_request(taken) && request_of(taken) is Err
    }

    /// The handle that the session gives for what its counter gave out.
    pub open spec fn gave<T>(
        &self,
        taken: Option<u64>,
        answer: Result<ResourceHandle<T>, AllocationError>,
    ) -> bool {
        match (answer, resource_of(taken)) {
            (Ok(handle), Ok(id)) => handle.id == id && handle.generation == self.spec_generation(),
            (Err(error), Err(expected)) => error == expected,
            _ => false,
        }
    }

    /// The session was asked for a handle and gave this.
    pub open spec fn issued<T>(&self, answer: Result<ResourceHandle<T>, AllocationError>) -> bool {
        exists|taken: Option<u64>| #[trigger]
            self.drew_resource(taken) && self.gave(taken, answer)
    }

    fn new(generation: DocumentGeneration) -> (session: Self)
        ensures
            session.spec_generation() == generation,
            crate::runtime::cancellation::made_unset(session.flag()),
            session.counts_from_one(),
    {
        DocumentSession {
            state: Arc::new(
                SessionState {
                    generation,
                    cancellation: CancellationSource::new(),
                    next_request: AtomicU64::new(1),
                    next_resource: AtomicU64::new(1),
                },
            ),
        }
    }

    /// The generation of this opening.
    pub fn generation(&self) -> (generation: DocumentGeneration)
        ensures
            generation == self.spec_generation(),
    {
        self.state.generation
    }

    /// A token over the session's flag.
    pub fn cancellation(&self) -> (token: CancellationToken)
        ensures
            token.flag() == self.flag(),
    {
        self.state.cancellation.token()
    }

    /// Ends the session for every clone of it. Returns `true` to the one call
    /// that found it running.
    pub fn cancel(&self) -> (first: bool)
        ensures
            crate::runtime::cancellation::set_when(self.flag(), !first),
            crate::runtime::cancellation::is_set(self.flag()),
    {
        self.state.cancellation.cancel()
    }

    /// Whether the session was ended.
    pub fn is_cancelled(&self) -> (cancelled: bool)
        ensures
            crate::runtime::cancellation::seen(self.flag(), cancelled),
    {
        self.state.cancellation.is_cancelled()
    }

    /// Issues the next request identity.
    pub fn next_request_id(&self) -> (request: Result<RequestId, AllocationError>)
        ensures
            exists|taken: Option<u64>| #[trigger]
                self.drew_request(taken) && request == request_of(taken),
            request matches Ok(id) ==> 0 < id.0 < u64::MAX,
            request matches Err(error) ==> error == AllocationError::RequestIdsExhausted,
    {
        let taken = take_number(&self.state.next_request);
        assert(self.drew_request(taken));
        request_from_number(taken)
    }

    /// Issues the next resource identity, tied to this generation.
    pub fn allocate_resource<T>(&self) -> (handle: Result<ResourceHandle<T>, AllocationError>)
        ensures
            self.issued(handle),
            match handle {
                Ok(handle) => handle.generation == self.spec_generation() && 0 < handle.id.0
                    < u64::MAX,
                Err(error) => error == AllocationError::ResourceIdsExhausted,
            },
    {
        let taken = take_number(&self.state.next_resource);
        assert(self.drew_resource(taken));
        match resource_from_number(taken) {
            Ok(id) => Ok(
                ResourceHandle { generation: self.generation(), id, marker: PhantomData },
            ),
            Err(error) => Err(error),
        }
    }

    /// Whether this generation issued the handle.
    pub fn owns<T>(&self, handle: ResourceHandle<T>) -> (owned: bool)
        ensures
            owned == (handle.generation == self.spec_generation()),
    {
        handle.belongs_to(self.generation())
    }
}

/// The requests of a session and its clones are counted together: the first has
/// number one, each further one the next number, and none has the number of another,
/// until the numbers are used up and every call says so.
pub proof fn law_requests_are_counted(
    session: DocumentSession,
    taken: Seq<Option<u64>>,
    k: int,
)
    requires
        session.served_requests(taken),
        0 <= k < taken.len(),
    ensures
        request_of(taken[k]) == if k + 1 < u64::MAX {
            Ok::<RequestId, AllocationError>(RequestId((k + 1) as u64))
        } else {
            Err(AllocationError::RequestIdsExhausted)
        },
{
    lemma_numbers_count_up(taken, k);
}

/// The handles of a session and its clones have ascending identities, from one on,
/// whatever they are handles of, so no two of them share one; and all are of the
/// generation of the session.
pub proof fn law_resource_ids_ascend<T, U>(
    session: DocumentSession,
    taken: Seq<Option<u64>>,
    i: int,
    j: int,
    earlier: ResourceHandle<T>,
    later: ResourceHandle<U>,
)
    requires
        session.served_resources(taken),
        0 <= i < j < taken.len(),
        session.gave(taken[i], Ok(earlier)),
        session.gave(taken[j], Ok(later)),
    ensures
        1 <= earlier.id.0 < later.id.0,
        earlier.id.0 == i + 1,
        later.id.0 == j + 1,
        earlier.generation == session.spec_generation(),
        later.generation == session.spec_generation(),
{
    lemma_numbers_count_up(taken, i);
    lemma_numbers_count_up(taken, j);
}

impl Clone for DocumentSession {
    fn clone(&self) -> (copy: Self)
        ensures
            copy == *self,
    {
        DocumentSession { state: Arc::clone(&self.state) }
    }
}

/// Starts sessions one after the other. At most one is current.
#[derive(Debug)]
pub struct DocumentSessionManager {
    next_generation: u64,
    active: Option<DocumentSession>,
}

impl DocumentSessionManager {
    /// The generation that the next session gets; zero when none is left.
    pub closed spec fn next(&self) -> u64 {
        self.next_generation
    }

    /// The session that was started last and not closed.
    pub closed spec fn active(&self) -> Option<DocumentSession> {
        self.active
    }

    /// Generations are issued in ascending order and never again.
    pub open spec fn wf(&self) -> bool {
        self.active() matches Some(session) ==> {
            &&& session.spec_generation().0 != 0
            &&& self.next() != 0 ==> session.spec_generation().0 < self.next()
        }
    }

    /// No session was started.
    pub fn new() -> (manager: Self)
        ensures
            manager.wf(),
            manager.next() == 1,
            manager.active() == None::<DocumentSession>,
    {
        DocumentSessionManager { next_generation: 1, active: None }
    }

    /// Ends the current session and starts one of a generation of its own.
    pub fn begin(&mut self) -> (started: Result<DocumentSession, SessionError>)
        requires
            old(self).wf(),
        ensures
            final(self).wf(),
            match started {
                Ok(session) => {
                    &&& old(self).next() != 0
                    &&& session.spec_generation().0 == old(self).next()
                    &&& final(self).active() == Some(session)
                    &&& final(self).next() == if old(self).next() == u64::MAX {
                        0
                    } else {
                        old(self).next() + 1
                    }
                    &&& crate::runtime::cancellation::made_unset(session.flag())
                    &&& session.counts_from_one()
                    &&& old(self).active() matches Some(previous) ==> {
                        &&& previous.spec_generation().0 < session.spec_generation().0
                        &&& crate::runtime::cancellation::is_set(previous.flag())
                    }
                },
                Err(error) => {
                    &&& error == SessionError::GenerationsExhausted
                    &&& old(self).next() == 0
                    &&& *final(self) == *old(self)
                },
            },
    {
        if self.next_generation == 0 {
            return Err(SessionError::GenerationsExhausted);
        }
        let generation = DocumentGeneration(self.next_generation);
        self.next_generation = match self.next_generation.checked_add(1) {
            Some(next) => next,
            None => 0,
        };
        let _ = self.close();
        let session = DocumentSession::new(generation);
        self.active = Some(session.clone());
        Ok(session)
    }

    /// The current session.
    pub fn current(&self) -> (session: Option<&DocumentSession>)
        ensures
            match session {
                Some(session) => self.active() == Some(*session),
                None => self.active() is None,
            },
    {
        self.active.as_ref()
    }

    /// Whether a generation is current, given what its flag was seen to be.
    pub fn is_current_given(&self, generation: DocumentGeneration, cancelled: bool) -> (current:
        bool)
        ensures
            self.answers(generation, cancelled, current),
    {
        match &self.active {
            Some(session) => session.generation() == generation && !cancelled,
            None => false,
        }
    }

    /// A generation is current or not, given what the flag of the current session was
    /// seen to be.
    pub open spec fn answers(
        &self,
        generation: DocumentGeneration,
        cancelled: bool,
        current: bool,
    ) -> bool {
        current == (!cancelled && (self.active() matches Some(session)
            && session.spec_generation() == generation))
    }

    /// Whether a generation is current and was not ended from elsewhere.
    pub fn is_current(&self, generation: DocumentGeneration) -> (current: bool)
        ensures
            match self.active() {
                Some(session) => exists|cancelled: bool| #[trigger]
                    crate::runtime::cancellation::seen(session.flag(), cancelled) && self.answers(
                        generation,
                        cancelled,
                        current,
                    ),
                None => !current,
            },
    {
        match &self.active {
            Some(session) => {
                let cancelled = session.is_cancelled();
                self.is_current_given(generation, cancelled)
            },
            None => false,
        }
    }

    /// Ends the current session and says which generation it was.
    pub fn close(&mut self) -> (closed: Option<DocumentGeneration>)
        ensures
            final(self).active() is None,
            final(self).next() == old(self).next(),
            closed == match old(self).active() {
                Some(session) => Some(session.spec_generation()),
                None => None,
            },
            old(self).active() matches Some(session) ==> crate::runtime::cancellation::is_set(
                session.flag(),
            ),
    {
        match self.active.take() {
            Some(session) => {
                let _ = session.cancel();
                Some(session.generation())
            },
            None => None,
        }
    }
}

impl Default for DocumentSessionManager {
    fn default() -> (manager: Self)
        ensures
            manager.wf(),
            manager.next() == 1,
            manager.active() == None::<DocumentSession>,
    {
        DocumentSessionManager::new()
    }
}

/// A handle issued under one session is not owned by a session that the
/// manager starts later.
pub proof fn law_new_session_disowns_old_handles<T>(
    manager: DocumentSessionManager,
    previous: DocumentSession,
    handle: ResourceHandle<T>,
    session: DocumentSession,
)
    requires
        manager.wf(),
        manager.next() != 0,
        manager.active() == Some(previous),
        handle.generation == previous.spec_generation(),
        session.spec_generation().0 == manager.next(),
    ensures
        handle.generation != session.spec_generation(),
{
}

/// The generation of a session that was started is current until the session is ended,
/// by whichever clone of it, and not after that; no other generation is current
/// meanwhile.
pub proof fn law_a_session_is_current_until_it_is_ended(
    manager: DocumentSessionManager,
    session: DocumentSession,
    generation: DocumentGeneration,
    steps: Seq<FlagStep>,
    k: int,
    current: bool,
)
    requires
        manager.active() == Some(session),
        crate::runtime::cancellation::flag_went_through(session.flag(), steps),
        0 <= k < steps.len(),
        steps[k] is Read,
        manager.answers(generation, steps[k].found(), current),
    ensures
        current == (generation == session.spec_generation()
            && !crate::runtime::cancellation::set_before(steps, k)),
{
    crate::runtime::cancellation::law_flags_stay_set(session.flag(), steps, k);
}

/// Sessions that are begun one after the other have ascending generations, the later one
/// is current and the earlier one was told to stop.
pub proof fn law_sessions_succeed_each_other(
    before: DocumentSessionManager,
    first: DocumentSession,
    second: DocumentSession,
)
    requires
        before.wf(),
    ensures
        forall|manager: &mut DocumentSessionManager, later: &mut DocumentSessionManager|
            #![trigger
                call_ensures(DocumentSessionManager::begin, (manager,), Ok(first)),
                call_ensures(DocumentSessionManager::begin, (later,), Ok(second))]
            call_ensures(DocumentSessionManager::begin, (manager,), Ok(first)) && *manager
                == before && *later == *final(manager) && call_ensures(
                DocumentSessionManager::begin,
                (later,),
                Ok(second),
            ) ==> {
                &&& second.spec_generation().0 == first.spec_generation().0 + 1
                &&& first.spec_generation().0 != 0
                &&& final(later).active() == Some(second)
                &&& crate::runtime::cancellation::is_set(first.flag())
                &&& before.active() matches Some(previous) ==> previous.spec_generation().0
                    < first.spec_generation().0 && crate::runtime::cancellation::is_set(
                    previous.flag(),
                )
            },
{
}

/// A session owns the handles that it gave out, and no session of another generation does.
pub proof fn law_handles_are_owned_by_their_session<T>(
    session: DocumentSession,
    other: DocumentSession,
    handle: ResourceHandle<T>,
    owned: bool,
    disowned: bool,
)
    requires
        session.issued(Ok(handle)),
        other.spec_generation() != session.spec_generation(),
        call_ensures(DocumentSession::owns::<T>, (&session, handle), owned),
        call_ensures(DocumentSession::owns::<T>, (&other, handle), disowned),
    ensures
        owned,
        !disowned,
        handle.id.0 != 0,
{
}

/// A manager that closed its session has none, and the one that it had was told to stop. The
/// next session has a later generation all the same.
pub proof fn law_closed_sessions_are_over(before: DocumentSessionManager)
    ensures
        forall|manager: &mut DocumentSessionManager, closed: Option<DocumentGeneration>| #[trigger]
            call_ensures(DocumentSessionManager::close, (manager,), closed) && *manager == before
                ==> {
                &&& final(manager).active() is None
                &&& final(manager).next() == before.next()
                &&& before.active() matches Some(session) ==> closed == Some(
                    session.spec_generation(),
                ) && crate::runtime::cancellation::is_set(session.flag())
                &&& before.active() is None ==> closed is None
            },
        forall|generation: DocumentGeneration, cancelled: bool, current: bool| #[trigger]
            call_ensures(
                DocumentSessionManager::is_current_given,
                (&before, generation, cancelled),
                current,
            ) ==> (current <==> !cancelled && before.active() is Some
                && before.active()->Some_0.spec_generation() == generation),
{
}

} // verus!

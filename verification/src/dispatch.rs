//! The rules by which a message is routed to its handler and answered.
//!
//! The library decides; the caller acts. A dispatch starts in the stage
//! `Routing`. Each action says what the caller is to do next, and the caller
//! reports back with the event that its work ended in, until the action is
//! `Finish`.

use crate::text::{chars_eq, chars_of};
use vstd::prelude::*;

verus! {

/// The id of a request: a number or a string.
#[derive(Debug, PartialEq, Eq)]
pub enum RequestId {
    Number(i64),
    Text(String),
}

impl RequestId {
    /// A copy of the id.
    pub fn duplicate(&self) -> (r: RequestId)
        ensures
            r == *self,
    {
        match self {
            RequestId::Number(n) => RequestId::Number(*n),
            RequestId::Text(s) => RequestId::Text(s.clone()),
        }
    }
}

/// The two kinds of handlers: one answers requests, the other takes notifications.
#[derive(Clone, Copy, Debug, PartialEq, Eq, Structural)]
pub enum HandlerKind {
    Request,
    Notification,
}

/// Why a request failed.
#[derive(Debug, PartialEq, Eq)]
pub enum Failure<E> {
    /// No handler is registered under the method of the request.
    MethodNotFound,
    /// The parameters could not be decoded; the text is the decoder's own.
    InvalidParams(String),
    /// The handler returned an error.
    Application(E),
}

/// The answer to the request with the given id.
#[derive(Debug, PartialEq, Eq)]
pub struct Response<T, E> {
    pub id: RequestId,
    pub outcome: Result<T, Failure<E>>,
}

/// What the caller is to do next.
#[derive(Debug, PartialEq, Eq)]
pub enum Action<T, E> {
    /// Decode the parameters of the message for the handler.
    Decode,
    /// Call the handler and wait for it.
    Invoke,
    /// Send the response through the writer.
    Send(Response<T, E>),
    /// Nothing is left to do.
    Finish,
    /// The event does not fit the stage: go on as before.
    Ignore,
}

/// What the caller's work ended in.
#[derive(Debug, PartialEq, Eq)]
pub enum Event<T, E> {
    /// A handler of the given kind is registered under the method; the caller holds a copy of it.
    Found(HandlerKind),
    /// No handler is registered under the method.
    NotFound,
    /// The parameters were decoded.
    Decoded,
    /// The parameters could not be decoded, for the given reason.
    DecodeFailed(String),
    /// The handler of a request returned.
    Returned(Result<T, E>),
    /// The handler of a notification returned.
    Completed,
    /// The response was sent.
    Sent,
}

#[derive(Clone, Copy, Debug, PartialEq, Eq, Structural)]
pub enum Stage {
    Routing,
    Decoding(HandlerKind),
    Running(HandlerKind),
    Sending,
    Done,
}

/// One message on its way through the dispatcher.
#[derive(Debug, PartialEq, Eq)]
pub struct Dispatch {
    /// The id of the message; a notification has none.
    pub id: Option<RequestId>,
    /// Whether there is a writer to send a response through.
    pub has_writer: bool,
    pub stage: Stage,
}

/// The outcome of a handler as it goes into a response.
pub open spec fn outcome_of<T, E>(result: Result<T, E>) -> Result<T, Failure<E>> {
    match result {
        Ok(value) => Ok(value),
        Err(error) => Err(Failure::Application(error)),
    }
}

impl Dispatch {
    /// The dispatch at another stage.
    pub open spec fn at(self, stage: Stage) -> Dispatch {
        Dispatch { id: self.id, has_writer: self.has_writer, stage }
    }

    /// Whether a response can be sent: the message has an id and there is a writer.
    pub open spec fn can_answer(self) -> bool {
        self.id is Some && self.has_writer
    }

    /// The step that answers with `outcome` where a response can be sent, and
    /// ends the dispatch where none can.
    pub open spec fn answer<T, E>(self, outcome: Result<T, Failure<E>>) -> (Dispatch, Action<T, E>) {
        if self.can_answer() {
            (self.at(Stage::Sending), Action::Send(Response { id: self.id.unwrap(), outcome }))
        } else {
            (self.at(Stage::Done), Action::Finish)
        }
    }

    /// Whether the event is one that the stage waits for.
    pub open spec fn fits<T, E>(self, event: Event<T, E>) -> bool {
        match (self.stage, event) {
            (Stage::Routing, Event::Found(_)) => true,
            (Stage::Routing, Event::NotFound) => true,
            (Stage::Decoding(_), Event::Decoded) => true,
            (Stage::Decoding(_), Event::DecodeFailed(_)) => true,
            (Stage::Running(HandlerKind::Request), Event::Returned(_)) => true,
            (Stage::Running(HandlerKind::Notification), Event::Completed) => true,
            (Stage::Sending, Event::Sent) => true,
            _ => false,
        }
    }

    /// The next stage and the action to take after an event.
    ///
    /// A method without a handler is answered with `MethodNotFound`. The
    /// handler of a request answers: with `InvalidParams` where the
    /// parameters cannot be decoded, else with what the handler returned. The
    /// handler of a notification never answers. An event that the stage does
    /// not wait for changes nothing.
    pub open spec fn next<T, E>(self, event: Event<T, E>) -> (Dispatch, Action<T, E>) {
        match (self.stage, event) {
            (Stage::Routing, Event::Found(kind)) => (self.at(Stage::Decoding(kind)), Action::Decode),
            (Stage::Routing, Event::NotFound) => self.answer(Err(Failure::MethodNotFound)),
            (Stage::Decoding(kind), Event::Decoded) => (self.at(Stage::Running(kind)), Action::Invoke),
            (Stage::Decoding(HandlerKind::Request), Event::DecodeFailed(reason)) => self.answer(
                Err(Failure::InvalidParams(reason)),
            ),
            (Stage::Decoding(HandlerKind::Notification), Event::DecodeFailed(_)) => (
                self.at(Stage::Done),
                Action::Finish,
            ),
            (Stage::Running(HandlerKind::Request), Event::Returned(result)) => self.answer(
                outcome_of(result),
            ),
            (Stage::Running(HandlerKind::Notification), Event::Completed) => (
                self.at(Stage::Done),
                Action::Finish,
            ),
            (Stage::Sending, Event::Sent) => (self.at(Stage::Done), Action::Finish),
            _ => (self, Action::Ignore),
        }
    }

    /// The dispatch of a message that has just arrived. The caller looks up
    /// the method and reports `Found` or `NotFound`.
    pub fn new(id: Option<RequestId>, has_writer: bool) -> (r: Dispatch)
        ensures
            r == (Dispatch { id, has_writer, stage: Stage::Routing }),
    {
        Dispatch { id, has_writer, stage: Stage::Routing }
    }

    fn reply<T, E>(self, outcome: Result<T, Failure<E>>) -> (r: (Dispatch, Action<T, E>))
        ensures
            r == self.answer(outcome),
    {
        if !self.has_writer {
            return (Dispatch { id: self.id, has_writer: self.has_writer, stage: Stage::Done }, Action::Finish);
        }
        match &self.id {
            Some(id) => {
                let response = Response { id: id.duplicate(), outcome };
                (
                    Dispatch { id: self.id, has_writer: self.has_writer, stage: Stage::Sending },
                    Action::Send(response),
                )
            },
            None => (
                Dispatch { id: self.id, has_writer: self.has_writer, stage: Stage::Done },
                Action::Finish,
            ),
        }
    }

    fn move_to<T, E>(self, stage: Stage, action: Action<T, E>) -> (r: (Dispatch, Action<T, E>))
        ensures
            r == (self.at(stage), action),
    {
        (Dispatch { id: self.id, has_writer: self.has_writer, stage }, action)
    }

    /// Takes an event and says what to do next.
    pub fn advance<T, E>(self, event: Event<T, E>) -> (r: (Dispatch, Action<T, E>))
        ensures
            r == self.next(event),
    {
        match self.stage {
            Stage::Routing => match event {
                Event::Found(kind) => self.move_to(Stage::Decoding(kind), Action::Decode),
                Event::NotFound => self.reply(Err(Failure::MethodNotFound)),
                _ => (self, Action::Ignore),
            },
            Stage::Decoding(kind) => match event {
                Event::Decoded => self.move_to(Stage::Running(kind), Action::Invoke),
                Event::DecodeFailed(reason) => match kind {
                    HandlerKind::Request => self.reply(Err(Failure::InvalidParams(reason))),
                    HandlerKind::Notification => self.move_to(Stage::Done, Action::Finish),
                },
                _ => (self, Action::Ignore),
            },
            Stage::Running(HandlerKind::Request) => match event {
                Event::Returned(result) => {
                    let outcome = match result {
                        Ok(value) => Ok(value),
                        Err(error) => Err(Failure::Application(error)),
                    };
                    self.reply(outcome)
                },
                _ => (self, Action::Ignore),
            },
            Stage::Running(HandlerKind::Notification) => match event {
                Event::Completed => self.move_to(Stage::Done, Action::Finish),
                _ => (self, Action::Ignore),
            },
            Stage::Sending => match event {
                Event::Sent => self.move_to(Stage::Done, Action::Finish),
                _ => (self, Action::Ignore),
            },
            Stage::Done => (self, Action::Ignore),
        }
    }
}

/// The dispatch after the first `n` events.
pub open spec fn after<T, E>(start: Dispatch, events: Seq<Event<T, E>>, n: nat) -> Dispatch
    decreases n,
{
    if n == 0 || n > events.len() {
        start
    } else {
        after(start, events, (n - 1) as nat).next(events[n - 1]).0
    }
}

/// The responses that the first `n` events made the caller send, in order.
pub open spec fn responses<T, E>(start: Dispatch, events: Seq<Event<T, E>>, n: nat) -> Seq<
    Response<T, E>,
>
    decreases n,
{
    if n == 0 || n > events.len() {
        Seq::empty()
    } else {
        let before = responses(start, events, (n - 1) as nat);
        match after(start, events, (n - 1) as nat).next(events[n - 1]).1 {
            Action::Send(response) => before.push(response),
            _ => before,
        }
    }
}

/// Whether the dispatch has sent its response or can no longer send one.
pub open spec fn answered(d: Dispatch) -> bool {
    d.stage == Stage::Sending || d.stage == Stage::Done
}

/// Whether a dispatch at this stage may still send a response.
pub open spec fn may_answer(d: Dispatch) -> bool {
    match d.stage {
        Stage::Routing => true,
        Stage::Decoding(kind) => kind == HandlerKind::Request,
        Stage::Running(kind) => kind == HandlerKind::Request,
        Stage::Sending => false,
        Stage::Done => false,
    }
}

/// The id and the writer of a dispatch never change.
pub proof fn lemma_id_is_kept<T, E>(start: Dispatch, events: Seq<Event<T, E>>, n: nat)
    requires
        n <= events.len(),
    ensures
        after(start, events, n).id == start.id,
        after(start, events, n).has_writer == start.has_writer,
    decreases n,
{
    if n > 0 {
        lemma_id_is_kept(start, events, (n - 1) as nat);
    }
}

/// At most one response is sent for a message, whatever the events, and it
/// carries the id of the message.
pub proof fn lemma_at_most_one_response<T, E>(start: Dispatch, events: Seq<Event<T, E>>, n: nat)
    requires
        start.stage == Stage::Routing,
        n <= events.len(),
    ensures
        responses(start, events, n).len() <= 1,
        responses(start, events, n).len() == 1 ==> start.id == Some(responses(start, events, n)[0].id)
            && !may_answer(after(start, events, n)),
        responses(start, events, n).len() == 0 ==> after(start, events, n).stage != Stage::Sending,
    decreases n,
{
    if n > 0 {
        lemma_at_most_one_response(start, events, (n - 1) as nat);
        lemma_id_is_kept(start, events, (n - 1) as nat);
    }
}

/// A notification is never answered: a message without an id gets no
/// response, whatever the events, a failure to decode its parameters included.
pub proof fn lemma_notification_is_never_answered<T, E>(
    start: Dispatch,
    events: Seq<Event<T, E>>,
    n: nat,
)
    requires
        start.id is None,
        n <= events.len(),
    ensures
        responses(start, events, n) == Seq::<Response<T, E>>::empty(),
    decreases n,
{
    if n > 0 {
        lemma_notification_is_never_answered(start, events, (n - 1) as nat);
        lemma_id_is_kept(start, events, (n - 1) as nat);
    }
}

/// The handler of a notification never answers: once such a handler is found,
/// no response is sent, whatever the events.
pub proof fn lemma_notification_handler_never_answers<T, E>(
    start: Dispatch,
    events: Seq<Event<T, E>>,
    n: nat,
)
    requires
        start.stage == Stage::Routing,
        0 < n <= events.len(),
        events[0] == Event::<T, E>::Found(HandlerKind::Notification),
    ensures
        responses(start, events, n) == Seq::<Response<T, E>>::empty(),
        !may_answer(after(start, events, n)),
        after(start, events, n).stage != Stage::Sending,
    decreases n,
{
    if n > 1 {
        lemma_notification_handler_never_answers(start, events, (n - 1) as nat);
    } else {
        assert(after(start, events, 0) == start);
        assert(responses(start, events, 0) == Seq::<Response<T, E>>::empty());
    }
}

/// A request that is routed to a handler for requests, or to none, is
/// answered exactly once when its dispatch is done, with its own id, whether
/// the handler succeeds, fails or is never called.
pub proof fn lemma_request_is_answered_once<T, E>(
    start: Dispatch,
    id: RequestId,
    events: Seq<Event<T, E>>,
    n: nat,
)
    requires
        start == (Dispatch { id: Some(id), has_writer: true, stage: Stage::Routing }),
        0 < n <= events.len(),
        events[0] == Event::<T, E>::Found(HandlerKind::Request) || events[0] == Event::<
            T,
            E,
        >::NotFound,
        after(start, events, n).stage == Stage::Done,
    ensures
        responses(start, events, n).len() == 1,
        responses(start, events, n)[0].id == id,
{
    lemma_request_path(start, id, events, n);
    lemma_at_most_one_response(start, events, n);
}

/// On the path of a request, the response is sent before the dispatch is
/// answered, and no stage is one of a notification.
proof fn lemma_request_path<T, E>(start: Dispatch, id: RequestId, events: Seq<Event<T, E>>, n: nat)
    requires
        start == (Dispatch { id: Some(id), has_writer: true, stage: Stage::Routing }),
        0 < n <= events.len(),
        events[0] == Event::<T, E>::Found(HandlerKind::Request) || events[0] == Event::<
            T,
            E,
        >::NotFound,
    ensures
        answered(after(start, events, n)) ==> responses(start, events, n).len() >= 1,
        may_answer(after(start, events, n)) || answered(after(start, events, n)),
        after(start, events, n).stage != Stage::Routing,
    decreases n,
{
    lemma_id_is_kept(start, events, (n - 1) as nat);
    if n > 1 {
        lemma_request_path(start, id, events, (n - 1) as nat);
    } else {
        assert(after(start, events, 0) == start);
        assert(responses(start, events, 0) == Seq::<Response<T, E>>::empty());
    }
}

/// A request for a method without a handler is answered with
/// `MethodNotFound`; a notification for such a method has no effect.
pub proof fn lemma_unregistered_method<T, E>(start: Dispatch)
    requires
        start.stage == Stage::Routing,
    ensures
        start.can_answer() ==> start.next(Event::<T, E>::NotFound) == (
            start.at(Stage::Sending),
            Action::<T, E>::Send(
                Response { id: start.id.unwrap(), outcome: Err(Failure::MethodNotFound) },
            ),
        ),
        start.id is None ==> start.next(Event::<T, E>::NotFound) == (
            start.at(Stage::Done),
            Action::<T, E>::Finish,
        ),
{
}

/// The handlers of a server: which kind of handler stands under which method.
pub struct Registry {
    handlers: Vec<(String, HandlerKind)>,
}

/// The handlers after the first `n` registrations; a later one under the same
/// method takes the place of an earlier one.
pub open spec fn registered(handlers: Seq<(String, HandlerKind)>, n: nat) -> Map<
    Seq<char>,
    HandlerKind,
>
    decreases n,
{
    if n == 0 || n > handlers.len() {
        Map::empty()
    } else {
        registered(handlers, (n - 1) as nat).insert(handlers[n - 1].0@, handlers[n - 1].1)
    }
}

/// The kind of the handler under a method, if there is one.
pub open spec fn handler_of(handlers: Map<Seq<char>, HandlerKind>, method: Seq<char>) -> Option<
    HandlerKind,
> {
    if handlers.contains_key(method) {
        Some(handlers[method])
    } else {
        None
    }
}

/// The event that a lookup ends in.
pub open spec fn lookup_event<T, E>(found: Option<HandlerKind>) -> Event<T, E> {
    match found {
        Some(kind) => Event::Found(kind),
        None => Event::NotFound,
    }
}

impl View for Registry {
    type V = Map<Seq<char>, HandlerKind>;

    closed spec fn view(&self) -> Map<Seq<char>, HandlerKind> {
        registered(self.handlers@, self.handlers.len() as nat)
    }
}

impl Registry {
    /// A registry without handlers.
    pub fn new() -> (r: Registry)
        ensures
            r@ == Map::<Seq<char>, HandlerKind>::empty(),
    {
        Registry { handlers: Vec::new() }
    }

    /// Registers a handler of the given kind under a method.
    pub fn register(&mut self, method: String, kind: HandlerKind)
        ensures
            final(self)@ == old(self)@.insert(method@, kind),
    {
        let ghost before = self.handlers@;
        self.handlers.push((method, kind));
        proof {
            lemma_registered_prefix(self.handlers@, before, before.len());
        }
    }

    /// The kind of the handler under a method, if there is one.
    pub fn lookup(&self, method: &str) -> (r: Option<HandlerKind>)
        ensures
            r == handler_of(self@, method@),
    {
        let wanted = chars_of(method);
        let mut found: Option<HandlerKind> = None;
        let mut i: usize = 0;
        while i < self.handlers.len()
            invariant
                i <= self.handlers.len(),
                wanted@ == method@,
                found == handler_of(registered(self.handlers@, i as nat), method@),
            decreases self.handlers.len() - i,
        {
            let name = chars_of(self.handlers[i].0.as_str());
            if chars_eq(&name, &wanted) {
                found = Some(self.handlers[i].1);
            }
            i += 1;
        }
        found
    }

    /// Looks a method up for a dispatch: the event to hand to it.
    pub fn route<T, E>(&self, method: &str) -> (r: Event<T, E>)
        ensures
            r == lookup_event::<T, E>(handler_of(self@, method@)),
    {
        match self.lookup(method) {
            Some(kind) => Event::Found(kind),
            None => Event::NotFound,
        }
    }
}

/// The first registrations of a list are those of each list that begins with them.
proof fn lemma_registered_prefix(
    longer: Seq<(String, HandlerKind)>,
    shorter: Seq<(String, HandlerKind)>,
    n: nat,
)
    requires
        n <= shorter.len() <= longer.len(),
        forall|i: int| 0 <= i < shorter.len() ==> longer[i] == shorter[i],
    ensures
        registered(longer, n) == registered(shorter, n),
    decreases n,
{
    if n > 0 {
        lemma_registered_prefix(longer, shorter, (n - 1) as nat);
    }
}

} // verus!

//! The client side of lomord's Unix-socket protocol: where to connect, how a
//! job's event stream is collected, and how a health reply is read. Each
//! request has a connection of its own; the caller does the socket I/O and
//! hands every received event, with its class, to these functions.

use vstd::prelude::*;

verus! {

/// Default socket path used by `lomord`.
pub const SOCKET_PATH: &'static str = "/tmp/lomord.sock";

/// Errors from the UDS client. `C` is the type of lomord's error codes, `I`
/// that of the framing layer's errors.
#[derive(Debug, PartialEq)]
pub enum UdsError<C, I> {
    /// Failed to open the Unix domain socket at `path`, with the I/O error's
    /// kind and its rendering.
    Connect { path: String, kind: std::io::ErrorKind, detail: String },
    /// IPC framing or protocol error.
    Ipc(I),
    /// lomord returned an error event.
    Remote { code: C, message: String },
    /// The job expired before it completed; the rendered expiry event.
    Expired(String),
    /// Received an unexpected event type for this request, rendered.
    UnexpectedEvent(String),
}

/// A lightweight client for a running `lomord` process: the path of the
/// socket each request connects to.
#[derive(Debug, Clone)]
pub struct LomorUdsClient {
    socket_path: String,
}

impl View for LomorUdsClient {
    type V = Seq<char>;

    /// The socket path.
    closed spec fn view(&self) -> Seq<char> {
        self.socket_path@
    }
}

impl Default for LomorUdsClient {
    /// A client for the default socket path.
    fn default() -> (client: Self)
        ensures
            client@ == SOCKET_PATH@,
    {
        LomorUdsClient { socket_path: String::from_str(SOCKET_PATH) }
    }
}

impl LomorUdsClient {
    /// Create a client pointing at a custom socket path.
    pub fn with_socket(path: &str) -> (client: Self)
        ensures
            client@ == path@,
    {
        LomorUdsClient { socket_path: String::from_str(path) }
    }

    /// The socket path each request connects to.
    pub fn socket_path(&self) -> (path: &str)
        ensures
            path@ == self@,
    {
        self.socket_path.as_str()
    }

    /// The error for a failed connection to this client's socket: the socket
    /// path, with the kind and rendering of the I/O error.
    pub fn connect_error<C, I>(&self, kind: std::io::ErrorKind, detail: String) -> (error: UdsError<C, I>)
        ensures
            error matches UdsError::Connect { path, kind: k, detail: d } && path@ == self@ && k == kind
                && d == detail,
    {
        UdsError::Connect { path: self.socket_path.clone(), kind, detail }
    }
}

/// What a received event means for the request that is reading it.
#[derive(Debug, PartialEq)]
pub enum EventClass<C> {
    /// A progress event; more follow.
    Progress,
    /// `Done`: the job completed.
    Done,
    /// `Aborted`: the job was aborted.
    Aborted,
    /// `Expired`: the job expired; the event rendered.
    Expired { rendering: String },
    /// `Error`: lomord reported an error.
    Failed { code: C, message: String },
}

/// The events of one submitted job received so far.
pub struct EventStream<E> {
    events: Vec<E>,
}

impl<E> View for EventStream<E> {
    type V = Seq<E>;

    closed spec fn view(&self) -> Seq<E> {
        self.events@
    }
}

/// What to do after an event has been accepted.
pub enum SubmitStep<E, C, I> {
    /// Read the next event into this stream.
    ReadNext(EventStream<E>),
    /// The request is over, with this result.
    Finished(Result<Vec<E>, UdsError<C, I>>),
}

/// The mathematical form of a `SubmitStep`.
pub enum StepView<E, C, I> {
    ReadNext(Seq<E>),
    Finished(Result<Seq<E>, UdsError<C, I>>),
}

impl<E, C, I> SubmitStep<E, C, I> {
    pub open spec fn view(self) -> StepView<E, C, I> {
        match self {
            SubmitStep::ReadNext(stream) => StepView::ReadNext(stream@),
            SubmitStep::Finished(Ok(events)) => StepView::Finished(Ok(events@)),
            SubmitStep::Finished(Err(e)) => StepView::Finished(Err(e)),
        }
    }
}

/// Accepting `event` of class `class` after `events`: progress is kept and
/// reading goes on; `Done` and `Aborted` end the request with every event
/// received, the terminal one included; `Expired` and `Error` end it with an
/// error.
pub open spec fn accept_spec<E, C, I>(events: Seq<E>, event: E, class: EventClass<C>) -> StepView<E, C, I> {
    match class {
        EventClass::Progress => StepView::ReadNext(events.push(event)),
        EventClass::Done => StepView::Finished(Ok(events.push(event))),
        EventClass::Aborted => StepView::Finished(Ok(events.push(event))),
        EventClass::Expired { rendering } => StepView::Finished(Err(UdsError::Expired(rendering))),
        EventClass::Failed { code, message } => StepView::Finished(Err(UdsError::Remote { code, message })),
    }
}

impl<E> EventStream<E> {
    /// An empty stream, before the first event.
    pub fn new() -> (stream: Self)
        ensures
            stream@ == Seq::<E>::empty(),
    {
        EventStream { events: Vec::new() }
    }

    /// The number of events received so far.
    pub fn len(&self) -> (n: usize)
        ensures
            n == self@.len(),
    {
        self.events.len()
    }

    /// Accepts the next event of the job.
    pub fn accept<C, I>(self, event: E, class: EventClass<C>) -> (step: SubmitStep<E, C, I>)
        ensures
            step.view() == accept_spec::<E, C, I>(self@, event, class),
    {
        let mut events = self.events;
        match class {
            EventClass::Progress => {
                events.push(event);
                SubmitStep::ReadNext(EventStream { events })
            },
            EventClass::Done => {
                events.push(event);
                SubmitStep::Finished(Ok(events))
            },
            EventClass::Aborted => {
                events.push(event);
                SubmitStep::Finished(Ok(events))
            },
            EventClass::Expired { rendering } => SubmitStep::Finished(Err(UdsError::Expired(rendering))),
            EventClass::Failed { code, message } => SubmitStep::Finished(
                Err(UdsError::Remote { code, message }),
            ),
        }
    }
}

/// Index of the first terminal event (any class but `Progress`) of `stream`.
pub open spec fn first_terminal<E, C>(stream: Seq<(E, EventClass<C>)>, from: int) -> Option<int>
    decreases stream.len() - from,
{
    if from < 0 || from >= stream.len() {
        None
    } else if !(stream[from].1 is Progress) {
        Some(from)
    } else {
        first_terminal(stream, from + 1)
    }
}

/// The events of `stream`, without their classes.
pub open spec fn events_of<E, C>(stream: Seq<(E, EventClass<C>)>) -> Seq<E> {
    stream.map_values(|p: (E, EventClass<C>)| p.0)
}

/// Where a job stands after `stream` has arrived following `received`: if a
/// terminal event came, the request is over and nothing after that event
/// matters; otherwise every event is kept and reading goes on.
pub open spec fn submit_outcome<E, C, I>(received: Seq<E>, stream: Seq<(E, EventClass<C>)>) -> StepView<E, C, I> {
    match first_terminal(stream, 0) {
        None => StepView::ReadNext(received + events_of(stream)),
        Some(t) => match stream[t].1 {
            EventClass::Expired { rendering } => StepView::Finished(Err(UdsError::Expired(rendering))),
            EventClass::Failed { code, message } => StepView::Finished(
                Err(UdsError::Remote { code, message }),
            ),
            _ => StepView::Finished(Ok(received + events_of(stream.take(t + 1)))),
        },
    }
}

/// Feeding `stream` to `accept` one event at a time, stopping once the
/// request is over.
pub open spec fn replay<E, C, I>(received: Seq<E>, stream: Seq<(E, EventClass<C>)>) -> StepView<E, C, I>
    decreases stream.len(),
{
    if stream.len() == 0 {
        StepView::ReadNext(received)
    } else {
        match accept_spec(received, stream[0].0, stream[0].1) {
            StepView::ReadNext(events) => replay(events, stream.drop_first()),
            finished => finished,
        }
    }
}

/// Accepting a job's events one by one gives what the protocol promises of
/// the whole stream: reading stops at the first terminal event; `Done` and
/// `Aborted` yield every event up to and including it, in order; `Expired`
/// and `Error` yield the matching error; with no terminal event yet, every
/// event is kept.
pub proof fn lemma_accept_collects_until_terminal<E, C, I>(received: Seq<E>, stream: Seq<(E, EventClass<C>)>)
    ensures
        replay::<E, C, I>(received, stream) == submit_outcome::<E, C, I>(received, stream),
    decreases stream.len(),
{
    if stream.len() == 0 {
        assert(events_of(stream) =~= Seq::<E>::empty());
        assert(received + events_of(stream) =~= received);
    } else {
        let rest = stream.drop_first();
        lemma_first_terminal_shift(stream);
        if stream[0].1 is Progress {
            let received2 = received.push(stream[0].0);
            lemma_accept_collects_until_terminal::<E, C, I>(received2, rest);
            assert(events_of(stream) =~= seq![stream[0].0] + events_of(rest));
            assert(received2 + events_of(rest) =~= received + events_of(stream));
            lemma_first_terminal_bounds(rest, 0);
            match first_terminal(rest, 0) {
                Some(t) => {
                    assert(rest[t] == stream[t + 1]);
                    assert(stream.take(t + 2) =~= seq![stream[0]] + rest.take(t + 1));
                    assert(events_of(stream.take(t + 2)) =~= seq![stream[0].0] + events_of(rest.take(t + 1)));
                    assert(received2 + events_of(rest.take(t + 1)) =~= received + events_of(stream.take(t + 2)));
                },
                None => {},
            }
            assert(replay::<E, C, I>(received, stream) == replay::<E, C, I>(received2, rest));
        } else {
            assert(first_terminal(stream, 0) == Some(0int));
            assert(events_of(stream.take(1)) =~= seq![stream[0].0]);
            assert(received + events_of(stream.take(1)) =~= received.push(stream[0].0));
        }
    }
}

/// `first_terminal` finds a terminal event, and only progress precedes it.
proof fn lemma_first_terminal_bounds<E, C>(stream: Seq<(E, EventClass<C>)>, from: int)
    requires
        0 <= from <= stream.len(),
    ensures
        first_terminal(stream, from) matches Some(t) ==> from <= t < stream.len() && !(stream[t].1 is Progress),
    decreases stream.len() - from,
{
    if from < stream.len() && stream[from].1 is Progress {
        lemma_first_terminal_bounds(stream, from + 1);
    }
}

/// `first_terminal` of a stream whose head is progress is that of its tail,
/// shifted by one.
proof fn lemma_first_terminal_shift<E, C>(stream: Seq<(E, EventClass<C>)>)
    requires
        stream.len() > 0,
    ensures
        stream[0].1 is Progress ==> match first_terminal(stream.drop_first(), 0) {
            Some(t) => first_terminal(stream, 0) == Some(t + 1),
            None => first_terminal(stream, 0) is None,
        },
{
    if stream[0].1 is Progress {
        lemma_first_terminal_offset(stream, 1);
    }
}

proof fn lemma_first_terminal_offset<E, C>(stream: Seq<(E, EventClass<C>)>, from: int)
    requires
        1 <= from <= stream.len(),
        forall|j: int| 0 <= j < from ==> stream[j].1 is Progress,
    ensures
        match first_terminal(stream.drop_first(), from - 1) {
            Some(t) => first_terminal(stream, 0) == Some(t + 1),
            None => first_terminal(stream, 0) is None,
        },
    decreases stream.len() - from,
{
    let rest = stream.drop_first();
    lemma_first_terminal_prefix(stream, from);
    if from < stream.len() {
        if !(stream[from].1 is Progress) {
            assert(rest[from - 1] == stream[from]);
        } else {
            assert(rest[from - 1] == stream[from]);
            lemma_first_terminal_offset(stream, from + 1);
        }
    }
}

proof fn lemma_first_terminal_prefix<E, C>(stream: Seq<(E, EventClass<C>)>, from: int)
    requires
        0 <= from <= stream.len(),
        forall|j: int| 0 <= j < from ==> stream[j].1 is Progress,
    ensures
        first_terminal(stream, 0) == first_terminal(stream, from),
    decreases from,
{
    if from > 0 {
        lemma_first_terminal_prefix(stream, from - 1);
    }
}

/// What lomord answered a health request.
#[derive(Debug, PartialEq)]
pub enum HealthReply {
    /// `Healthy`, with the loaded model's id if one is loaded.
    Healthy { model_id: Option<String> },
    /// Any other event, rendered.
    Other { rendering: String },
}

/// Reads a health reply: the responding model id (empty when none is
/// loaded), or `UnexpectedEvent` for any other event.
pub fn interpret_health<C, I>(reply: HealthReply) -> (result: Result<String, UdsError<C, I>>)
    ensures
        match reply {
            HealthReply::Healthy { model_id: Some(id) } => result == Ok::<String, UdsError<C, I>>(id),
            HealthReply::Healthy { model_id: None } => result matches Ok(id) && id@ == Seq::<char>::empty(),
            HealthReply::Other { rendering } => result == Err::<String, UdsError<C, I>>(
                UdsError::UnexpectedEvent(rendering),
            ),
        },
{
    match reply {
        HealthReply::Healthy { model_id } => match model_id {
            Some(id) => Ok(id),
            None => Ok(String::new()),
        },
        HealthReply::Other { rendering } => Err(UdsError::UnexpectedEvent(rendering)),
    }
}

} // verus!

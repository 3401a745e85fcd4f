//! The session of one topic.
//!
//! A [`Topic`] keeps what a conversation with the broker has to remember: its
//! state, the descriptor of the connection, the descriptors that the caller
//! registered and the tokens they were given, the step timeout and the
//! callback. It performs no I/O. Each operation takes what the caller has
//! learnt from the socket or the poller and returns what the caller has to do
//! next: bytes to write, a descriptor to register, a frame to read, a socket
//! to shut down.

use std::collections::HashMap;
use std::time::Duration;

use vstd::prelude::*;
use vstd::slice::slice_to_vec;
use vstd::utf8::encode_utf8;

use crate::tunnel::message::{Msg, MsgKind, MsgView};
use crate::tunnel::wire::{encode, frame_of};

verus! {

/// A file descriptor of the operating system.
pub type RawFd = i32;

/// The token of the connection to the broker. No registered descriptor
/// shares it.
pub const SERVER: usize = 0;

/// The number of readiness events that one poll may report.
pub const EVENTS_CAPACITY: usize = 128;

/// The readiness that a descriptor is watched for: any of these, and at
/// least one.
#[derive(Clone, Copy, Debug, PartialEq, Eq, Structural)]
pub struct IOInterest {
    pub readable: bool,
    pub writable: bool,
    /// Urgent data; not every poller can watch for it.
    pub priority: bool,
    /// Completion of asynchronous I/O; not every poller can watch for it.
    pub aio: bool,
    /// Completion of a list of asynchronous I/O; not every poller can watch
    /// for it.
    pub lio: bool,
}

impl IOInterest {
    /// Interest in nothing; no poller takes it.
    pub open spec fn none() -> IOInterest {
        IOInterest { readable: false, writable: false, priority: false, aio: false, lio: false }
    }

    /// Interest in input alone.
    pub open spec fn reading() -> IOInterest {
        IOInterest { readable: true, ..Self::none() }
    }

    /// Whether anything is asked for.
    pub open spec fn asks(self) -> bool {
        self.readable || self.writable || self.priority || self.aio || self.lio
    }

    /// Interest in input.
    pub fn readable() -> (interest: Self)
        ensures
            interest == Self::reading(),
    {
        IOInterest { readable: true, writable: false, priority: false, aio: false, lio: false }
    }

    /// Interest in output.
    pub fn writable() -> (interest: Self)
        ensures
            interest == (IOInterest { writable: true, ..Self::none() }),
    {
        IOInterest { readable: false, writable: true, priority: false, aio: false, lio: false }
    }

    /// Interest in urgent data.
    pub fn priority() -> (interest: Self)
        ensures
            interest == (IOInterest { priority: true, ..Self::none() }),
    {
        IOInterest { readable: false, writable: false, priority: true, aio: false, lio: false }
    }

    /// Both interests together.
    pub fn add(self, other: Self) -> (interest: Self)
        ensures
            interest == (IOInterest {
                readable: self.readable || other.readable,
                writable: self.writable || other.writable,
                priority: self.priority || other.priority,
                aio: self.aio || other.aio,
                lio: self.lio || other.lio,
            }),
    {
        IOInterest {
            readable: self.readable || other.readable,
            writable: self.writable || other.writable,
            priority: self.priority || other.priority,
            aio: self.aio || other.aio,
            lio: self.lio || other.lio,
        }
    }

    /// Whether anything is asked for.
    pub fn is_some(&self) -> (some: bool)
        ensures
            some == self.asks(),
    {
        self.readable || self.writable || self.priority || self.aio || self.lio
    }
}

/// One readiness event, as the poller reported it.
#[derive(Clone, Copy, Debug, PartialEq, Eq, Structural)]
pub struct IOEvent {
    /// The token under which the descriptor was registered.
    pub token: usize,
    pub readable: bool,
    pub writable: bool,
    pub error: bool,
    pub read_closed: bool,
    pub write_closed: bool,
    pub priority: bool,
    pub aio: bool,
    pub lio: bool,
}

/// What the callback is called with: a message from the broker, or the
/// readiness of a registered descriptor, never both.
#[derive(Clone, Copy, Debug, PartialEq, Eq)]
pub struct CallbackEvent<'c> {
    /// The descriptor that is ready, if it is still registered.
    pub fd: Option<&'c RawFd>,
    /// The readiness event of that descriptor.
    pub event: Option<&'c IOEvent>,
    /// The message that arrived.
    pub msg: Option<&'c Msg>,
}

impl<'b> CallbackEvent<'b> {
    /// An event of the given parts.
    pub fn create(fd: Option<&'b RawFd>, event: Option<&'b IOEvent>, msg: Option<&'b Msg>) -> (evt:
        Self)
        ensures
            evt.fd == fd,
            evt.event == event,
            evt.msg == msg,
    {
        CallbackEvent { fd, event, msg }
    }
}

/// The handler of a topic's events. It answers each event with the messages
/// that are to be sent to the broker, in their order, or with `None`.
pub trait Callback {
    fn handle(&mut self, evt: &CallbackEvent) -> Option<Vec<Msg>>;
}

/// One thing that the caller does to the connection.
#[derive(Clone, Debug, PartialEq, Eq)]
pub enum Action {
    /// Write these bytes, all of them.
    Write(Vec<u8>),
    /// Shut down both directions of the socket.
    Shutdown,
}

/// An action and what its failure means.
#[derive(Clone, Debug, PartialEq, Eq)]
pub struct Step {
    pub action: Action,
    /// A failure ends the run and is returned to whoever drives the topic.
    /// Where this is `false`, a failure is logged and the run goes on.
    pub required: bool,
}

/// The mathematical value of an action.
pub enum ActionView {
    Write(Seq<u8>),
    Shutdown,
}

/// The mathematical value of a step.
pub struct StepView {
    pub action: ActionView,
    pub required: bool,
}

impl View for Action {
    type V = ActionView;

    open spec fn view(&self) -> ActionView {
        match self {
            Action::Write(bytes) => ActionView::Write(bytes@),
            Action::Shutdown => ActionView::Shutdown,
        }
    }
}

impl View for Step {
    type V = StepView;

    open spec fn view(&self) -> StepView {
        StepView { action: self.action@, required: self.required }
    }
}

/// The steps of a run, each by its view.
pub open spec fn steps_view(steps: Seq<Step>) -> Seq<StepView> {
    Seq::new(steps.len(), |i: int| steps[i]@)
}

/// The messages of a list, each by its view.
pub open spec fn msgs_view(msgs: Seq<Msg>) -> Seq<MsgView> {
    Seq::new(msgs.len(), |i: int| msgs[i]@)
}

/// One write for each message, in the order of the messages.
pub open spec fn writes_of(msgs: Seq<MsgView>, required: bool) -> Seq<StepView> {
    Seq::new(
        msgs.len(),
        |i: int| StepView { action: ActionView::Write(frame_of(msgs[i])), required },
    )
}

/// The close notice: a `ChannelClose` message without payload.
pub open spec fn close_notice() -> MsgView {
    MsgView {
        kind: MsgKind::ChannelClose,
        channel_id: 0,
        client_id: 0,
        size: 0,
        data: Seq::<u8>::empty(),
    }
}

/// The steps that close a connection: the close notice, whose failure is
/// only logged, and the shutdown of the socket.
pub open spec fn closing_steps(shutdown_required: bool) -> Seq<StepView> {
    seq![
        StepView { action: ActionView::Write(frame_of(close_notice())), required: false },
        StepView { action: ActionView::Shutdown, required: shutdown_required },
    ]
}

/// The open request of a topic: a `ChannelOpen` message whose payload is the
/// name, in UTF-8.
pub open spec fn open_request(name: Seq<char>) -> MsgView {
    MsgView {
        kind: MsgKind::ChannelOpen,
        channel_id: 0,
        client_id: 0,
        size: (encode_utf8(name).len() % 0x1_0000_0000) as u32,
        data: encode_utf8(name),
    }
}

/// The message that the callback is handed when a topic is torn down.
pub open spec fn unsubscribe_all() -> MsgView {
    MsgView {
        kind: MsgKind::ChannelUnsubscribeAll,
        channel_id: 0,
        client_id: 0,
        size: 0,
        data: Seq::<u8>::empty(),
    }
}

/// What the answer of a callback asks of the connection: nothing where it
/// holds no message; else one required write for each message, in order,
/// which needs a connection.
pub open spec fn outbound_of(channel: Option<RawFd>, replies: Option<Seq<MsgView>>) -> Result<
    Seq<StepView>,
    TopicError,
> {
    match replies {
        None => Ok(Seq::empty()),
        Some(msgs) => if msgs.len() == 0 {
            Ok(Seq::empty())
        } else if channel is None {
            Err(TopicError::NotConnected)
        } else {
            Ok(writes_of(msgs, true))
        },
    }
}

/// The steps that tear a connection down after the callback has answered
/// the last event: one write for each message of the answer, in order, then
/// the close notice, then the shutdown. None of them is required, so each is
/// attempted whatever became of those before it.
pub open spec fn teardown_of(replies: Option<Seq<MsgView>>) -> Seq<StepView> {
    (match replies {
        None => Seq::empty(),
        Some(msgs) => writes_of(msgs, false),
    }) + closing_steps(false)
}

/// Whether `outcome` is what some answer of the callback asks of the
/// connection. Without a callback there is no answer.
pub open spec fn follows_some_answer(
    channel: Option<RawFd>,
    has_callback: bool,
    outcome: Result<Seq<StepView>, TopicError>,
) -> bool {
    exists|replies: Option<Seq<MsgView>>|
        (has_callback || replies is None) && #[trigger] outbound_of(channel, replies) == outcome
}

/// Whether `steps` is what tears a connection down after some answer of the
/// callback. Without a callback there is no answer.
pub open spec fn tears_down_after_some_answer(has_callback: bool, steps: Seq<StepView>) -> bool {
    exists|replies: Option<Seq<MsgView>>|
        (has_callback || replies is None) && #[trigger] teardown_of(replies) == steps
}

/// The steps of a result, each by its view.
pub open spec fn run_view(r: Result<Vec<Step>, TopicError>) -> Result<Seq<StepView>, TopicError> {
    match r {
        Ok(steps) => Ok(steps_view(steps@)),
        Err(e) => Err(e),
    }
}

/// The view of an optional list of messages.
pub open spec fn replies_view(replies: Option<Vec<Msg>>) -> Option<Seq<MsgView>> {
    match replies {
        None => None,
        Some(msgs) => Some(msgs_view(msgs@)),
    }
}

/// What the poller is to be told about a descriptor.
#[derive(Clone, Copy, Debug, PartialEq, Eq, Structural)]
pub struct Registration {
    pub token: usize,
    pub fd: RawFd,
    pub interest: IOInterest,
}

/// Where a topic stands in its life.
#[derive(Clone, Copy, Debug, PartialEq, Eq, Structural)]
pub enum TopicState {
    /// The broker has not answered yet.
    Created,
    /// The broker has acknowledged the topic, and the poller has not yet
    /// taken the connection.
    Confirmed,
    /// The broker has acknowledged the topic and the connection is watched.
    Active,
    /// The topic was closed, or the broker refused it.
    Closed,
}

/// Why an operation of a topic was refused.
#[derive(Clone, Copy, Debug, PartialEq, Eq, Structural)]
pub enum TopicError {
    /// There is no connection to the broker.
    NotConnected,
    /// The topic has left the state that the operation belongs to.
    WrongState,
    /// The broker answered the open request with this kind instead of
    /// `ChannelOk`.
    Rejected(MsgKind),
    /// Every token has been given out.
    TokensExhausted,
    /// The registration is not the one that the topic has planned.
    NotPlanned,
}

/// What the answer of the broker to the open request comes to.
#[derive(Debug, PartialEq, Eq)]
pub struct Handshake {
    /// The registration of the connection that the poller is asked for, or
    /// the refusal.
    pub result: Result<Registration, TopicError>,
    /// What the connection is owed before the result is acted upon: after a
    /// refusal the close notice and the shutdown, neither of them required;
    /// else nothing.
    pub steps: Vec<Step>,
}

/// What a readiness event asks of the caller.
#[derive(Clone, Debug, PartialEq, Eq)]
pub enum Dispatch {
    /// The connection is readable: read one frame and hand it to
    /// [`Topic::deliver`].
    ReadFrame,
    /// The callback has been called: carry out these steps, in order.
    Run(Vec<Step>),
}

/// Writes each message as a frame, in order.
pub fn write_steps(msgs: &Vec<Msg>, required: bool) -> (steps: Vec<Step>)
    ensures
        steps_view(steps@) == writes_of(msgs_view(msgs@), required),
{
    let mut steps: Vec<Step> = Vec::new();
    let mut i: usize = 0;
    while i < msgs.len()
        invariant
            i <= msgs.len(),
            steps.len() == i,
            forall|k: int|
                0 <= k < i ==> (#[trigger] steps[k])@ == (StepView {
                    action: ActionView::Write(frame_of(msgs[k]@)),
                    required,
                }),
        decreases msgs.len() - i,
    {
        let frame = encode(&msgs[i]);
        steps.push(Step { action: Action::Write(frame), required });
        i = i + 1;
    }
    assert(steps_view(steps@) =~= writes_of(msgs_view(msgs@), required));
    steps
}

/// The message that a topic hands its callback when it is torn down.
pub fn unsubscribe_all_msg() -> (msg: Msg)
    ensures
        msg@ == unsubscribe_all(),
{
    Msg::create(MsgKind::ChannelUnsubscribeAll, 0, 0, Vec::new())
}

/// The two steps that close a connection.
pub fn close_steps(shutdown_required: bool) -> (steps: Vec<Step>)
    ensures
        steps_view(steps@) == closing_steps(shutdown_required),
{
    let rq = Msg::create(MsgKind::ChannelClose, 0, 0, Vec::new());
    assert(rq@ == close_notice());
    let mut steps: Vec<Step> = Vec::new();
    steps.push(Step { action: Action::Write(encode(&rq)), required: false });
    steps.push(Step { action: Action::Shutdown, required: shutdown_required });
    assert(steps_view(steps@) =~= closing_steps(shutdown_required));
    steps
}

/// Turns the answer of a callback into the writes that it asks for.
///
/// The messages are written in the order of the answer, and each write is
/// required: the first that fails ends the run. An answer that holds a
/// message cannot be carried out without a connection.
pub fn outbound(channel: Option<RawFd>, replies: Option<Vec<Msg>>) -> (r: Result<
    Vec<Step>,
    TopicError,
>)
    ensures
        match r {
            Ok(steps) => outbound_of(channel, replies_view(replies)) == Ok::<
                Seq<StepView>,
                TopicError,
            >(steps_view(steps@)),
            Err(e) => outbound_of(channel, replies_view(replies)) == Err::<
                Seq<StepView>,
                TopicError,
            >(e),
        },
{
    match replies {
        None => {
            let steps: Vec<Step> = Vec::new();
            assert(steps_view(steps@) =~= Seq::<StepView>::empty());
            Ok(steps)
        },
        Some(msgs) => {
            if msgs.len() == 0 {
                let steps: Vec<Step> = Vec::new();
                assert(steps_view(steps@) =~= Seq::<StepView>::empty());
                Ok(steps)
            } else if channel.is_none() {
                Err(TopicError::NotConnected)
            } else {
                Ok(write_steps(&msgs, true))
            }
        },
    }
}

/// The steps that tear a connection down, given the answer of the callback
/// to the last event.
pub fn teardown_steps(replies: Option<Vec<Msg>>) -> (steps: Vec<Step>)
    ensures
        steps_view(steps@) == teardown_of(replies_view(replies)),
{
    let mut steps: Vec<Step> = match replies {
        None => Vec::new(),
        Some(msgs) => write_steps(&msgs, false),
    };
    let ghost writes = steps_view(steps@);
    assert(writes =~= match replies_view(replies) {
        None => Seq::<StepView>::empty(),
        Some(msgs) => writes_of(msgs, false),
    });
    let mut closing = close_steps(false);
    let ghost tail = steps_view(closing@);
    steps.append(&mut closing);
    assert(steps_view(steps@) =~= writes + tail);
    steps
}

/// The event that carries a message from the broker: the message, and
/// neither a descriptor nor a readiness event.
pub fn msg_event<'c>(msg: &'c Msg) -> (evt: CallbackEvent<'c>)
    ensures
        evt.fd == None::<&RawFd>,
        evt.event == None::<&IOEvent>,
        evt.msg == Some(msg),
{
    CallbackEvent::create(None, None, Some(msg))
}

/// The event for the readiness of a descriptor, looked up among `io_fds`.
fn io_event_in<'c>(io_fds: &'c HashMap<usize, RawFd>, event: &'c IOEvent) -> (evt: CallbackEvent<
    'c,
>)
    ensures
        evt.fd == (if io_fds@.contains_key(event.token) {
            Some(&io_fds@[event.token])
        } else {
            None
        }),
        evt.event == Some(event),
        evt.msg == None::<&Msg>,
{
    broadcast use vstd::std_specs::hash::group_hash_axioms;

    CallbackEvent::create(io_fds.get(&event.token), Some(event), None)
}

/// The mathematical value of a topic.
pub struct TopicView<H> {
    /// The name of the topic.
    pub name: Seq<char>,
    /// The path of the broker's socket.
    pub socket_file: Seq<char>,
    /// Where the topic stands in its life.
    pub state: TopicState,
    /// The descriptor of the connection, while there is one.
    pub channel: Option<RawFd>,
    /// The callback, if one is installed.
    pub callback: Option<H>,
    /// The descriptor behind each token.
    pub registry: Map<usize, RawFd>,
    /// The token that the next registered descriptor gets.
    pub next_token: usize,
    /// The longest that one poll may block; `None` for no limit.
    pub timeout: Option<Duration>,
}

impl<H> TopicView<H> {
    /// What holds of every topic: tokens are given out in rising order and
    /// never twice, the token of the connection is given to no other
    /// descriptor, and the connection is registered exactly while the topic
    /// is active or was so.
    pub open spec fn wf(self) -> bool {
        &&& self.next_token >= 1
        &&& forall|t: usize| #[trigger] self.registry.contains_key(t) ==> t < self.next_token
        &&& self.registry.contains_key(SERVER) ==> self.channel == Some(self.registry[SERVER])
        &&& self.state == TopicState::Active ==> self.registry.contains_key(SERVER)
        &&& self.state == TopicState::Confirmed ==> self.channel is Some
            && !self.registry.contains_key(SERVER)
        &&& self.state == TopicState::Created ==> !self.registry.contains_key(SERVER)
    }

    /// The topic after [`Topic::open`]: a topic that the broker has not
    /// answered yet takes the connection, any other is left as it is.
    pub open spec fn opened(self, fd: RawFd) -> Self {
        if self.state == TopicState::Created {
            TopicView { channel: Some(fd), ..self }
        } else {
            self
        }
    }

    /// The topic after [`Topic::confirm`]: a topic that waits for the
    /// answer of the broker is confirmed by `ChannelOk` and closed by any
    /// other kind.
    pub open spec fn confirmed(self, kind: MsgKind) -> Self {
        if self.state != TopicState::Created || self.channel is None {
            self
        } else if kind == MsgKind::ChannelOk {
            TopicView { state: TopicState::Confirmed, ..self }
        } else {
            TopicView { state: TopicState::Closed, ..self }
        }
    }

    /// The result of [`Topic::confirm`].
    pub open spec fn confirmation(self, kind: MsgKind) -> Result<Registration, TopicError> {
        if self.state != TopicState::Created {
            Err(TopicError::WrongState)
        } else if self.channel is None {
            Err(TopicError::NotConnected)
        } else if kind == MsgKind::ChannelOk {
            Ok(Registration { token: SERVER, fd: self.channel->0, interest: IOInterest::reading() })
        } else {
            Err(TopicError::Rejected(kind))
        }
    }

    /// The steps of [`Topic::confirm`]: those that close the connection,
    /// none of them required, where the broker refuses; else none.
    pub open spec fn confirmation_steps(self, kind: MsgKind) -> Seq<StepView> {
        if self.confirmation(kind) == Err::<Registration, TopicError>(TopicError::Rejected(kind)) {
            closing_steps(false)
        } else {
            Seq::empty()
        }
    }

    /// What [`Topic::register_io`] returns: the registration of the
    /// descriptor under the next token, while there is one.
    pub open spec fn registration(self, fd: RawFd, interest: IOInterest) -> Result<
        Registration,
        TopicError,
    > {
        if self.next_token < usize::MAX {
            Ok(Registration { token: self.next_token, fd, interest })
        } else {
            Err(TopicError::TokensExhausted)
        }
    }

    /// Whether a registration is one that the topic has planned and not
    /// recorded yet: that of the connection of a confirmed topic, or one
    /// under the next token.
    pub open spec fn plans(self, registration: Registration) -> bool {
        if registration.token == SERVER {
            self.state == TopicState::Confirmed && self.channel == Some(registration.fd)
        } else {
            registration.token == self.next_token && self.next_token < usize::MAX
        }
    }

    /// The topic after [`Topic::registered`]: a planned registration is
    /// recorded. That of the connection makes the topic active; any other
    /// moves the token counter past its token. A registration that was not
    /// planned changes nothing.
    pub open spec fn recorded(self, registration: Registration) -> Self {
        if !self.plans(registration) {
            self
        } else if registration.token == SERVER {
            TopicView {
                state: TopicState::Active,
                registry: self.registry.insert(SERVER, registration.fd),
                ..self
            }
        } else {
            TopicView {
                registry: self.registry.insert(registration.token, registration.fd),
                next_token: (self.next_token + 1) as usize,
                ..self
            }
        }
    }

    /// The topic after [`Topic::close`]: closed, if it has a connection.
    pub open spec fn closed(self) -> Self {
        if self.channel is Some {
            TopicView { state: TopicState::Closed, ..self }
        } else {
            self
        }
    }

    /// The topic after [`Topic::teardown`]: closed, without its callback and
    /// without its connection.
    pub open spec fn torn_down(self) -> Self {
        TopicView {
            state: TopicState::Closed,
            channel: None,
            callback: None,
            registry: self.registry.remove(SERVER),
            ..self
        }
    }
}

/// One logical conversation with the broker.
pub struct Topic<'a, H: Callback> {
    name: &'a str,
    socket_file: &'a str,
    state: TopicState,
    channel: Option<RawFd>,
    msg_handle: Option<H>,
    io_fds: HashMap<usize, RawFd>,
    stepto: Option<Duration>,
    n_token: usize,
}

impl<'a, H: Callback> View for Topic<'a, H> {
    type V = TopicView<H>;

    closed spec fn view(&self) -> TopicView<H> {
        TopicView {
            name: self.name@,
            socket_file: self.socket_file@,
            state: self.state,
            channel: self.channel,
            callback: self.msg_handle,
            registry: self.io_fds@,
            next_token: self.n_token,
            timeout: self.stepto,
        }
    }
}

impl<'a, H: Callback> Topic<'a, H> {
    /// A topic that has not been opened: no connection, no callback, no
    /// registered descriptor and no timeout. The first token that a
    /// descriptor will get is 1.
    pub fn create(name: &'a str, socket_file: &'a str) -> (topic: Self)
        ensures
            topic@.wf(),
            topic@ == (TopicView::<H> {
                name: name@,
                socket_file: socket_file@,
                state: TopicState::Created,
                channel: None,
                callback: None,
                registry: Map::empty(),
                next_token: 1,
                timeout: None,
            }),
    {
        Topic {
            name,
            socket_file,
            state: TopicState::Created,
            channel: None,
            msg_handle: None,
            io_fds: HashMap::new(),
            stepto: None,
            n_token: 1,
        }
    }

    /// Installs the callback in place of the one that was there.
    pub fn on_message(&mut self, callback: H)
        ensures
            final(self)@ == (TopicView { callback: Some(callback), ..old(self)@ }),
    {
        self.msg_handle = Some(callback);
    }

    /// Bounds the time that one poll may block.
    pub fn set_step_to(&mut self, to: Duration)
        ensures
            final(self)@ == (TopicView { timeout: Some(to), ..old(self)@ }),
    {
        self.stepto = Some(to);
    }

    /// Plans the registration of a descriptor of the caller under a fresh
    /// token.
    ///
    /// The registration is what the poller is asked for. Nothing is
    /// recorded yet: once the poller has accepted it, the registration goes
    /// to [`Topic::registered`]; if the poller refuses, the topic is as it
    /// was. The token has never been given out before and is not the token
    /// of the connection.
    pub fn register_io(&self, fd: RawFd, interest: IOInterest) -> (r: Result<
        Registration,
        TopicError,
    >)
        requires
            self@.wf(),
        ensures
            r == self@.registration(fd, interest),
            r matches Ok(registration) ==> self@.plans(registration) && registration.token
                != SERVER && !self@.registry.contains_key(registration.token),
    {
        if self.n_token == usize::MAX {
            return Err(TopicError::TokensExhausted);
        }
        Ok(Registration { token: self.n_token, fd, interest })
    }

    /// Records a registration that the poller has accepted.
    ///
    /// The registration must be the one that [`Topic::register_io`] or
    /// [`Topic::confirm`] has planned and that has not been recorded yet.
    /// The descriptor then stands under its token; with the connection of
    /// a confirmed topic the topic becomes active.
    pub fn registered(&mut self, registration: &Registration) -> (r: Result<(), TopicError>)
        requires
            old(self)@.wf(),
        ensures
            final(self)@.wf(),
            final(self)@ == old(self)@.recorded(*registration),
            r is Ok <==> old(self)@.plans(*registration),
            r matches Err(e) ==> e == TopicError::NotPlanned,
    {
        broadcast use vstd::std_specs::hash::group_hash_axioms;

        if registration.token == SERVER {
            let planned = match (self.state, self.channel) {
                (TopicState::Confirmed, Some(fd)) => fd == registration.fd,
                _ => false,
            };
            if !planned {
                return Err(TopicError::NotPlanned);
            }
            let _ = self.io_fds.insert(SERVER, registration.fd);
            self.state = TopicState::Active;
            Ok(())
        } else {
            if registration.token != self.n_token || self.n_token == usize::MAX {
                return Err(TopicError::NotPlanned);
            }
            let _ = self.io_fds.insert(registration.token, registration.fd);
            self.n_token = self.n_token + 1;
            Ok(())
        }
    }

    /// The name of the topic.
    pub fn name(&self) -> (name: &'a str)
        ensures
            name@ == self@.name,
    {
        self.name
    }

    /// The path of the broker's socket.
    pub fn socket_file(&self) -> (path: &'a str)
        ensures
            path@ == self@.socket_file,
    {
        self.socket_file
    }

    /// Where the topic stands in its life.
    pub fn state(&self) -> (state: TopicState)
        ensures
            state == self@.state,
    {
        self.state
    }

    /// The descriptor of the connection, while there is one.
    pub fn channel(&self) -> (channel: Option<RawFd>)
        ensures
            channel == self@.channel,
    {
        self.channel
    }

    /// The token that the next registered descriptor gets.
    pub fn next_token(&self) -> (token: usize)
        ensures
            token == self@.next_token,
    {
        self.n_token
    }

    /// The longest that one poll may block; `None` for no limit.
    pub fn step_timeout(&self) -> (timeout: Option<Duration>)
        ensures
            timeout == self@.timeout,
    {
        self.stepto
    }

    /// Whether a callback is installed.
    pub fn has_callback(&self) -> (installed: bool)
        ensures
            installed == self@.callback.is_some(),
    {
        self.msg_handle.is_some()
    }

    /// The descriptor that was registered under a token.
    pub fn fd_of(&self, token: usize) -> (fd: Option<RawFd>)
        ensures
            fd == (if self@.registry.contains_key(token) {
                Some(self@.registry[token])
            } else {
                None
            }),
    {
        broadcast use vstd::std_specs::hash::group_hash_axioms;

        match self.io_fds.get(&token) {
            Some(fd) => Some(*fd),
            None => None,
        }
    }

    /// Takes the connection that the caller has made and says what to send
    /// first: the open request. The answer of the broker goes to
    /// [`Topic::confirm`].
    ///
    /// Only a topic that the broker has not answered yet can be opened.
    pub fn open(&mut self, fd: RawFd) -> (r: Result<Vec<u8>, TopicError>)
        requires
            old(self)@.wf(),
        ensures
            final(self)@.wf(),
            final(self)@ == old(self)@.opened(fd),
            old(self)@.state == TopicState::Created ==> (r matches Ok(frame) && frame@ == frame_of(
                open_request(old(self)@.name),
            )),
            old(self)@.state != TopicState::Created ==> r == Err::<Vec<u8>, TopicError>(
                TopicError::WrongState,
            ),
    {
        if self.state != TopicState::Created {
            return Err(TopicError::WrongState);
        }
        self.channel = Some(fd);
        let rq = Msg::create(MsgKind::ChannelOpen, 0, 0, slice_to_vec(self.name.as_bytes()));
        assert(rq@ == open_request(self@.name));
        Ok(encode(&rq))
    }

    /// Judges the answer of the broker to the open request.
    ///
    /// `ChannelOk` confirms the topic: the connection is to be registered
    /// with the poller under the token [`SERVER`], watched for input, and
    /// the topic becomes active once [`Topic::registered`] has recorded
    /// that. Any other kind is a refusal: the topic is closed for good, and
    /// the steps close the connection before the refusal is raised.
    pub fn confirm(&mut self, response: &Msg) -> (r: Handshake)
        requires
            old(self)@.wf(),
        ensures
            final(self)@.wf(),
            final(self)@ == old(self)@.confirmed(response@.kind),
            r.result == old(self)@.confirmation(response@.kind),
            steps_view(r.steps@) == old(self)@.confirmation_steps(response@.kind),
    {
        let no_steps: Vec<Step> = Vec::new();
        assert(steps_view(no_steps@) =~= Seq::<StepView>::empty());
        if self.state != TopicState::Created {
            return Handshake { result: Err(TopicError::WrongState), steps: no_steps };
        }
        let fd: RawFd = match self.channel {
            Some(fd) => fd,
            None => {
                return Handshake { result: Err(TopicError::NotConnected), steps: no_steps };
            },
        };
        match response.kind {
            MsgKind::ChannelOk => {
                self.state = TopicState::Confirmed;
                Handshake {
                    result: Ok(
                        Registration { token: SERVER, fd, interest: IOInterest::readable() },
                    ),
                    steps: no_steps,
                }
            },
            kind => {
                self.state = TopicState::Closed;
                Handshake { result: Err(TopicError::Rejected(kind)), steps: close_steps(false) }
            },
        }
    }

    /// Closes the topic: the close notice is sent, which may fail, and the
    /// socket is shut down, which may not. Without a connection there is
    /// nothing to close, and that is an error.
    pub fn close(&mut self) -> (r: Result<Vec<Step>, TopicError>)
        requires
            old(self)@.wf(),
        ensures
            final(self)@.wf(),
            final(self)@ == old(self)@.closed(),
            old(self)@.channel is Some ==> (r matches Ok(steps) && steps_view(steps@)
                == closing_steps(true)),
            old(self)@.channel is None ==> r == Err::<Vec<Step>, TopicError>(
                TopicError::NotConnected,
            ),
    {
        if self.channel.is_none() {
            return Err(TopicError::NotConnected);
        }
        self.state = TopicState::Closed;
        Ok(close_steps(true))
    }

    /// The event that carries the readiness of a registered descriptor: the
    /// descriptor, if the token is known, and the readiness event, and no
    /// message.
    pub fn io_event<'c>(&'c self, event: &'c IOEvent) -> (evt: CallbackEvent<'c>)
        ensures
            evt.fd == (if self@.registry.contains_key(event.token) {
                Some(&self@.registry[event.token])
            } else {
                None
            }),
            evt.event == Some(event),
            evt.msg == None::<&Msg>,
    {
        io_event_in(&self.io_fds, event)
    }

    /// Takes one readiness event of a poll.
    ///
    /// An event under the token [`SERVER`] means that a frame is waiting:
    /// the caller reads it and hands it to [`Topic::deliver`]. Any other
    /// event goes to the callback, as [`Topic::io_event`] describes it, and
    /// the answer comes back as the writes of [`outbound`]. Without a
    /// callback the event is dropped.
    pub fn step(&mut self, event: &IOEvent) -> (r: Result<Dispatch, TopicError>)
        requires
            old(self)@.wf(),
        ensures
            final(self)@.wf(),
            final(self)@ == (TopicView { callback: final(self)@.callback, ..old(self)@ }),
            final(self)@.callback is Some <==> old(self)@.callback is Some,
            event.token == SERVER ==> final(self)@ == old(self)@ && (match r {
                Ok(Dispatch::ReadFrame) => old(self)@.channel is Some,
                Ok(Dispatch::Run(_)) => false,
                Err(e) => old(self)@.channel is None && e == TopicError::NotConnected,
            }),
            event.token != SERVER ==> (match r {
                Ok(Dispatch::ReadFrame) => false,
                Ok(Dispatch::Run(steps)) => follows_some_answer(
                    old(self)@.channel,
                    old(self)@.callback is Some,
                    Ok(steps_view(steps@)),
                ),
                Err(e) => follows_some_answer(
                    old(self)@.channel,
                    old(self)@.callback is Some,
                    Err(e),
                ),
            }),
    {
        if event.token == SERVER {
            return if self.channel.is_some() {
                Ok(Dispatch::ReadFrame)
            } else {
                Err(TopicError::NotConnected)
            };
        }
        let replies: Option<Vec<Msg>> = match &mut self.msg_handle {
            Some(callback) => {
                let evt = io_event_in(&self.io_fds, event);
                callback.handle(&evt)
            },
            None => None,
        };
        let run = outbound(self.channel, replies);
        assert(outbound_of(self@.channel, replies_view(replies)) == run_view(run));
        match run {
            Ok(steps) => Ok(Dispatch::Run(steps)),
            Err(e) => Err(e),
        }
    }

    /// Takes a message that was read from the connection.
    ///
    /// The callback is called with the event of [`msg_event`], and its
    /// answer comes back as the writes of [`outbound`]. Without a callback
    /// the message is dropped.
    pub fn deliver(&mut self, msg: &Msg) -> (r: Result<Vec<Step>, TopicError>)
        requires
            old(self)@.wf(),
        ensures
            final(self)@.wf(),
            final(self)@ == (TopicView { callback: final(self)@.callback, ..old(self)@ }),
            final(self)@.callback is Some <==> old(self)@.callback is Some,
            follows_some_answer(old(self)@.channel, old(self)@.callback is Some, run_view(r)),
    {
        let replies: Option<Vec<Msg>> = match &mut self.msg_handle {
            Some(callback) => {
                let evt = msg_event(msg);
                callback.handle(&evt)
            },
            None => None,
        };
        let run = outbound(self.channel, replies);
        assert(outbound_of(self@.channel, replies_view(replies)) == run_view(run));
        run
    }

    /// Ends the topic, whatever state it is in, and never fails.
    ///
    /// The callback, if there is one, is called a last time, with the
    /// message of [`unsubscribe_all_msg`] as [`msg_event`] carries it, and
    /// is then dropped. Where there is a connection, the steps are those of
    /// [`teardown_steps`] for the answer, and the connection is forgotten.
    /// Where there is none, nothing can be sent and there are no steps. To
    /// tear down twice is to tear down once.
    pub fn teardown(&mut self) -> (steps: Vec<Step>)
        requires
            old(self)@.wf(),
        ensures
            final(self)@.wf(),
            final(self)@ == old(self)@.torn_down(),
            old(self)@.channel is None ==> steps@.len() == 0,
            old(self)@.channel is Some ==> tears_down_after_some_answer(
                old(self)@.callback is Some,
                steps_view(steps@),
            ),
    {
        broadcast use vstd::std_specs::hash::group_hash_axioms;

        let replies: Option<Vec<Msg>> = match self.msg_handle.take() {
            Some(mut callback) => {
                let rq = unsubscribe_all_msg();
                let evt = msg_event(&rq);
                callback.handle(&evt)
            },
            None => None,
        };
        let connected = self.channel.is_some();
        self.channel = None;
        let _ = self.io_fds.remove(&SERVER);
        self.state = TopicState::Closed;
        if connected {
            let steps = teardown_steps(replies);
            assert(teardown_of(replies_view(replies)) == steps_view(steps@));
            steps
        } else {
            Vec::new()
        }
    }
}

/// The writes of an answer keep its order: there is one write for each
/// message, and the write in place `i` carries the message in place `i`.
pub proof fn lemma_writes_keep_order(msgs: Seq<MsgView>, required: bool)
    ensures
        writes_of(msgs, required).len() == msgs.len(),
        forall|i: int|
            0 <= i < msgs.len() ==> #[trigger] writes_of(msgs, required)[i] == (StepView {
                action: ActionView::Write(frame_of(msgs[i])),
                required,
            }),
        msgs.len() > 0 ==> forall|fd: RawFd|
            #[trigger] outbound_of(Some(fd), Some(msgs)) == Ok::<Seq<StepView>, TopicError>(
                writes_of(msgs, true),
            ),
{
}

/// Teardown drains: an answer of `n` messages makes `n` writes, in the order
/// of the answer, then one write of the close notice, then one shutdown, and
/// nothing else. No step is required, so a failure stops none of those
/// behind it.
pub proof fn lemma_teardown_drains(msgs: Seq<MsgView>)
    ensures
        ({
            let steps = teardown_of(Some(msgs));
            let n = msgs.len() as int;
            &&& steps.len() == n + 2
            &&& forall|i: int|
                0 <= i < n ==> #[trigger] steps[i] == (StepView {
                    action: ActionView::Write(frame_of(msgs[i])),
                    required: false,
                })
            &&& steps[n] == (StepView {
                action: ActionView::Write(frame_of(close_notice())),
                required: false,
            })
            &&& steps[n + 1] == (StepView { action: ActionView::Shutdown, required: false })
            &&& forall|i: int| 0 <= i < steps.len() ==> !(#[trigger] steps[i]).required
        }),
        teardown_of(None) == closing_steps(false),
{
    assert(Seq::<StepView>::empty() + closing_steps(false) =~= closing_steps(false));
}

/// The handshake: `ChannelOk` confirms a topic that waits for the broker's
/// answer, and once the poller has accepted the registration of the
/// connection the topic is active, with the connection under [`SERVER`],
/// watched for input. Any other kind closes the topic, the connection is
/// owed the close notice and the shutdown, and nothing is registered. What
/// the caller registered keeps its tokens either way.
pub proof fn lemma_handshake<H>(before: TopicView<H>, fd: RawFd, kind: MsgKind)
    requires
        before.wf(),
        before.state == TopicState::Created,
        before.channel == Some(fd),
    ensures
        ({
            let after = before.confirmed(kind);
            let result = before.confirmation(kind);
            let plan = Registration { token: SERVER, fd, interest: IOInterest::reading() };
            &&& after.wf()
            &&& after.channel == Some(fd)
            &&& after.next_token == before.next_token
            &&& after.registry == before.registry
            &&& !after.registry.contains_key(SERVER)
            &&& kind == MsgKind::ChannelOk ==> {
                &&& result == Ok::<Registration, TopicError>(plan)
                &&& before.confirmation_steps(kind) == Seq::<StepView>::empty()
                &&& after.state == TopicState::Confirmed
                &&& after.plans(plan)
                &&& after.recorded(plan).wf()
                &&& after.recorded(plan).state == TopicState::Active
                &&& after.recorded(plan).registry == before.registry.insert(SERVER, fd)
            }
            &&& kind != MsgKind::ChannelOk ==> {
                &&& result == Err::<Registration, TopicError>(TopicError::Rejected(kind))
                &&& before.confirmation_steps(kind) == closing_steps(false)
                &&& after.state == TopicState::Closed
                &&& !after.plans(plan)
            }
        }),
{
}

/// Tokens are never given out twice: a registration that is recorded has
/// the counter of the topic as its token and moves the counter past it, so
/// that every later registration gets a larger token, and none gets
/// [`SERVER`]. What was registered before stays as it was, and a
/// registration that the poller refuses leaves no trace, for planning it
/// changes nothing.
pub proof fn lemma_tokens_are_fresh<H>(before: TopicView<H>, fd: RawFd, interest: IOInterest)
    requires
        before.wf(),
        before.next_token < usize::MAX,
    ensures
        ({
            let plan = Registration { token: before.next_token, fd, interest };
            let after = before.recorded(plan);
            &&& before.registration(fd, interest) == Ok::<Registration, TopicError>(plan)
            &&& before.plans(plan)
            &&& after.wf()
            &&& before.next_token != SERVER
            &&& !before.registry.contains_key(before.next_token)
            &&& after.registry == before.registry.insert(before.next_token, fd)
            &&& after.next_token == before.next_token + 1
            &&& !after.plans(plan)
            &&& after.recorded(plan) == after
            &&& forall|t: usize| #[trigger]
                before.registry.contains_key(t) ==> after.registry.contains_key(t)
                    && after.registry[t] == before.registry[t]
        }),
{
}

/// The life of a topic runs one way. Every operation keeps a topic well
/// formed; a topic is confirmed only by `ChannelOk` and becomes active only
/// when the registration of its connection is recorded after that; a closed
/// topic stays closed; and the token counter never goes back.
pub proof fn lemma_life_runs_one_way<H>(
    before: TopicView<H>,
    fd: RawFd,
    kind: MsgKind,
    registration: Registration,
)
    requires
        before.wf(),
    ensures
        before.opened(fd).wf(),
        before.confirmed(kind).wf(),
        before.recorded(registration).wf(),
        before.closed().wf(),
        before.torn_down().wf(),
        before.state != TopicState::Active ==> {
            &&& before.opened(fd).state != TopicState::Active
            &&& before.confirmed(kind).state != TopicState::Active
            &&& before.closed().state != TopicState::Active
            &&& before.torn_down().state != TopicState::Active
            &&& before.recorded(registration).state == TopicState::Active ==> before.state
                == TopicState::Confirmed && registration.token == SERVER && before.channel == Some(
                registration.fd,
            )
        },
        before.state != TopicState::Confirmed ==> {
            &&& before.opened(fd).state != TopicState::Confirmed
            &&& before.recorded(registration).state != TopicState::Confirmed
            &&& before.closed().state != TopicState::Confirmed
            &&& before.torn_down().state != TopicState::Confirmed
            &&& before.confirmed(kind).state == TopicState::Confirmed ==> before.state
                == TopicState::Created && before.channel is Some && kind == MsgKind::ChannelOk
        },
        before.state == TopicState::Closed ==> {
            &&& before.opened(fd) == before
            &&& before.confirmed(kind) == before
            &&& before.recorded(registration).state == TopicState::Closed
            &&& before.closed().state == TopicState::Closed
            &&& before.torn_down().state == TopicState::Closed
        },
        before.opened(fd).next_token == before.next_token,
        before.confirmed(kind).next_token == before.next_token,
        before.recorded(registration).next_token >= before.next_token,
        before.closed().next_token == before.next_token,
        before.torn_down().next_token == before.next_token,
{
}

/// To tear down twice is to tear down once: a topic that was torn down has
/// no connection and no callback, and another teardown leaves it as it is.
pub proof fn lemma_teardown_is_idempotent<H>(before: TopicView<H>)
    ensures
        before.torn_down().channel is None,
        before.torn_down().callback is None,
        before.torn_down().torn_down() == before.torn_down(),
{
    assert(before.registry.remove(SERVER).remove(SERVER) =~= before.registry.remove(SERVER));
}

} // verus!

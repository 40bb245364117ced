//! The control session: what one connection may do, and when.
//!
//! A session begins when a client connects. The first frame that the client
//! sends must be the shared secret; with any other frame the session sends
//! the failure frame and is closed. With the secret it sends the success
//! frame, and once both loops run it is active: frames that come in are
//! decoded and carried out as commands, each answered by a frame, and every
//! telemetry sample goes out as a frame. A frame that cannot be decoded is
//! answered and the session goes on. When the connection fails or is closed,
//! both loops are stopped.
//!
//! The host reads and writes the connection, decodes frames and takes the
//! samples; it hands each event to [`ControlSession::handle`] and does what
//! the action says. All frames of a session go out through this one
//! function, so the host writes them one after the other.

use crate::error::Failure;
use crate::lifecycle::{Command, CommandView, Outcome};
use crate::server_config::{ServerConfig, ServerStats};
use crate::text::{same, to_chars};
use vstd::prelude::*;

verus! {

/// The time over which one telemetry sample is taken, in milliseconds.
pub const SAMPLE_WINDOW_MS: u64 = 200;

/// The time from one telemetry frame to the next, in milliseconds.
pub const SEND_INTERVAL_MS: u64 = 2000;

/// Where a session stands.
#[derive(Clone, Copy, Debug, PartialEq, Eq, Structural)]
pub enum SessionState {
    /// The client has connected; the transport is not yet upgraded.
    Connecting,
    /// The session waits for the shared secret.
    Authenticating,
    /// The secret was right; the loops are not yet running.
    Authenticated,
    /// The command loop and the telemetry loop run.
    Active,
    /// The session is over.
    Closed,
}

/// A frame that the session sends.
#[derive(Clone, Copy, Debug, PartialEq, Eq, Structural)]
pub enum Reply {
    /// The secret was right: the text `Success`.
    Welcome,
    /// One telemetry sample.
    Telemetry(ServerStats),
    /// How a command ended.
    Response(Outcome),
}

/// What happened on the connection or in the host.
#[derive(Debug, PartialEq, Eq)]
pub enum Event {
    /// The transport upgrade was accepted.
    Upgraded,
    /// A frame came in: its text, or nothing where it is no text.
    Frame(Option<String>),
    /// Both loops run.
    Started,
    /// A frame's text was decoded: the command, or nothing where the text is
    /// no command.
    Decoded(Option<Command>),
    /// A command was carried out.
    Completed(Outcome),
    /// A telemetry sample was taken.
    Sample(ServerStats),
    /// The connection failed or was closed.
    Disconnected,
}

/// The mathematical value of an [`Event`].
pub enum EventView {
    Upgraded,
    Frame(Option<Seq<char>>),
    Started,
    Decoded(Option<CommandView>),
    Completed(Outcome),
    Sample(ServerStats),
    Disconnected,
}

impl View for Event {
    type V = EventView;

    open spec fn view(&self) -> EventView {
        match self {
            Event::Upgraded => EventView::Upgraded,
            Event::Frame(Some(text)) => EventView::Frame(Some(text@)),
            Event::Frame(None) => EventView::Frame(None),
            Event::Started => EventView::Started,
            Event::Decoded(Some(command)) => EventView::Decoded(Some(command@)),
            Event::Decoded(None) => EventView::Decoded(None),
            Event::Completed(outcome) => EventView::Completed(*outcome),
            Event::Sample(stats) => EventView::Sample(*stats),
            Event::Disconnected => EventView::Disconnected,
        }
    }
}

/// What the host does about an event.
#[derive(Debug, PartialEq, Eq)]
pub enum Action {
    /// Nothing.
    Nothing,
    /// Send the frame.
    Send(Reply),
    /// Send the failure frame, the text `!Invalid master key`, then close
    /// the connection.
    Reject(Failure),
    /// Start the command loop and the telemetry loop.
    StartLoops,
    /// Decode the text as a command.
    Decode(String),
    /// Carry out the command.
    Dispatch(Command),
    /// Stop both loops and let go of the connection.
    Shutdown,
}

/// The mathematical value of an [`Action`].
pub enum ActionView {
    Nothing,
    Send(Reply),
    Reject(Failure),
    StartLoops,
    Decode(Seq<char>),
    Dispatch(CommandView),
    Shutdown,
}

impl View for Action {
    type V = ActionView;

    open spec fn view(&self) -> ActionView {
        match self {
            Action::Nothing => ActionView::Nothing,
            Action::Send(reply) => ActionView::Send(*reply),
            Action::Reject(why) => ActionView::Reject(*why),
            Action::StartLoops => ActionView::StartLoops,
            Action::Decode(text) => ActionView::Decode(text@),
            Action::Dispatch(command) => ActionView::Dispatch(command@),
            Action::Shutdown => ActionView::Shutdown,
        }
    }
}

/// The frame that answers what cannot be decoded.
pub open spec fn parse_error() -> Reply {
    Reply::Response(Outcome::Failed(Failure::Parse))
}

/// The state that follows `state` on `event`, for a session whose secret is
/// `secret`.
pub open spec fn next_state(state: SessionState, secret: Seq<char>, event: EventView)
    -> SessionState {
    match (state, event) {
        (SessionState::Closed, _) => SessionState::Closed,
        (_, EventView::Disconnected) => SessionState::Closed,
        (SessionState::Connecting, EventView::Upgraded) => SessionState::Authenticating,
        (SessionState::Authenticating, EventView::Frame(frame)) => if frame == Some(secret) {
            SessionState::Authenticated
        } else {
            SessionState::Closed
        },
        (SessionState::Authenticated, EventView::Started) => SessionState::Active,
        _ => state,
    }
}

/// What the host is to do about `event` in `state`.
pub open spec fn reaction(state: SessionState, secret: Seq<char>, event: EventView) -> ActionView {
    match (state, event) {
        (SessionState::Closed, _) => ActionView::Nothing,
        (_, EventView::Disconnected) => ActionView::Shutdown,
        (SessionState::Authenticating, EventView::Frame(frame)) => if frame == Some(secret) {
            ActionView::Send(Reply::Welcome)
        } else {
            ActionView::Reject(Failure::Auth)
        },
        (SessionState::Authenticated, EventView::Started) => ActionView::StartLoops,
        (SessionState::Active, EventView::Frame(Some(text))) => ActionView::Decode(text),
        (SessionState::Active, EventView::Frame(None)) => ActionView::Send(parse_error()),
        (SessionState::Active, EventView::Decoded(Some(command))) => ActionView::Dispatch(command),
        (SessionState::Active, EventView::Decoded(None)) => ActionView::Send(parse_error()),
        (SessionState::Active, EventView::Completed(outcome)) => ActionView::Send(
            Reply::Response(outcome),
        ),
        (SessionState::Active, EventView::Sample(stats)) => ActionView::Send(
            Reply::Telemetry(stats),
        ),
        _ => ActionView::Nothing,
    }
}

/// Where a session stands after `events`, having begun in `state`.
pub open spec fn state_after(state: SessionState, secret: Seq<char>, events: Seq<EventView>)
    -> SessionState
    decreases events.len(),
{
    if events.len() == 0 {
        state
    } else {
        next_state(state_after(state, secret, events.drop_last()), secret, events.last())
    }
}

/// What the host is told to do about the event with index `i` of `events`, in
/// a session that began in `state`.
pub open spec fn action_at(state: SessionState, secret: Seq<char>, events: Seq<EventView>, i: int)
    -> ActionView {
    reaction(state_after(state, secret, events.take(i)), secret, events[i])
}

/// Whether the client has sent the secret and the session is not over.
pub open spec fn is_authenticated(state: SessionState) -> bool {
    state == SessionState::Authenticated || state == SessionState::Active
}

/// Whether `action` serves the client: a frame for it, the start of the
/// loops, the decoding or carrying out of a command.
pub open spec fn serves(action: ActionView) -> bool {
    match action {
        ActionView::Send(_) => true,
        ActionView::StartLoops => true,
        ActionView::Decode(_) => true,
        ActionView::Dispatch(_) => true,
        _ => false,
    }
}

/// A closed session stays closed, and asks nothing of the host.
pub proof fn lemma_closed_is_final(secret: Seq<char>, events: Seq<EventView>)
    ensures
        state_after(SessionState::Closed, secret, events) == SessionState::Closed,
        forall|i: int|
            0 <= i < events.len() ==> #[trigger] action_at(SessionState::Closed, secret, events, i)
                == ActionView::Nothing,
    decreases events.len(),
{
    if events.len() > 0 {
        lemma_closed_is_final(secret, events.drop_last());
    }
    assert forall|i: int| 0 <= i < events.len() implies #[trigger] action_at(
        SessionState::Closed,
        secret,
        events,
        i,
    ) == ActionView::Nothing by {
        lemma_closed_is_final(secret, events.take(i));
    }
}

/// What came before decides what comes after: the state after `events` is
/// the state after the rest of them, begun where the first `k` left off.
pub proof fn lemma_state_after_split(
    state: SessionState,
    secret: Seq<char>,
    events: Seq<EventView>,
    k: int,
)
    requires
        0 <= k <= events.len(),
    ensures
        state_after(state, secret, events) == state_after(
            state_after(state, secret, events.take(k)),
            secret,
            events.skip(k),
        ),
    decreases events.len(),
{
    if k == events.len() {
        assert(events.take(k) =~= events);
        assert(events.skip(k) =~= Seq::<EventView>::empty());
    } else {
        lemma_state_after_split(state, secret, events.drop_last(), k);
        assert(events.drop_last().take(k) =~= events.take(k));
        assert(events.skip(k).drop_last() =~= events.drop_last().skip(k));
        assert(events.skip(k).last() == events.last());
    }
}

/// A session is served only after its secret came in: where the host is
/// told to send the success frame, a response or a telemetry frame, to start
/// the loops, or to decode or carry out a command, that frame or an earlier
/// one held the secret.
pub proof fn lemma_nothing_before_the_secret(secret: Seq<char>, events: Seq<EventView>, i: int)
    requires
        0 <= i < events.len(),
        serves(action_at(SessionState::Connecting, secret, events, i)),
    ensures
        exists|j: int| 0 <= j <= i && events[j] == EventView::Frame(Some(secret)),
{
    let before = state_after(SessionState::Connecting, secret, events.take(i));
    if is_authenticated(before) {
        lemma_authenticated_by_the_secret(secret, events.take(i));
        let j = choose|j: int|
            0 <= j < events.take(i).len() && events.take(i)[j] == EventView::Frame(Some(secret));
        assert(events[j] == EventView::Frame(Some(secret)));
    } else {
        assert(before == SessionState::Authenticating);
        assert(events[i] == EventView::Frame(Some(secret)));
    }
}

/// A session that has begun by connecting is authenticated only if a frame
/// held the secret.
pub proof fn lemma_authenticated_by_the_secret(secret: Seq<char>, events: Seq<EventView>)
    requires
        is_authenticated(state_after(SessionState::Connecting, secret, events)),
    ensures
        exists|j: int| 0 <= j < events.len() && events[j] == EventView::Frame(Some(secret)),
    decreases events.len(),
{
    if events.len() > 0 {
        let before = state_after(SessionState::Connecting, secret, events.drop_last());
        if is_authenticated(before) {
            lemma_authenticated_by_the_secret(secret, events.drop_last());
            let j = choose|j: int|
                0 <= j < events.drop_last().len() && events.drop_last()[j] == EventView::Frame(
                    Some(secret),
                );
            assert(events[j] == EventView::Frame(Some(secret)));
        } else {
            assert(events[events.len() - 1] == EventView::Frame(Some(secret)));
        }
    }
}

/// With a wrong first frame the session sends the failure frame, is closed,
/// and asks nothing of the host ever after: no command is decoded or carried
/// out, and no response or telemetry frame is sent.
pub proof fn lemma_wrong_secret(
    secret: Seq<char>,
    frame: Option<Seq<char>>,
    later: Seq<EventView>,
    i: int,
)
    requires
        frame != Some(secret),
        0 <= i < later.len(),
    ensures
        ({
            let events = seq![EventView::Upgraded, EventView::Frame(frame)] + later;
            &&& action_at(SessionState::Connecting, secret, events, 0) == ActionView::Nothing
            &&& action_at(SessionState::Connecting, secret, events, 1) == ActionView::Reject(
                Failure::Auth,
            )
            &&& action_at(SessionState::Connecting, secret, events, 2 + i) == ActionView::Nothing
            &&& state_after(SessionState::Connecting, secret, events) == SessionState::Closed
        }),
{
    let first = seq![EventView::Upgraded, EventView::Frame(frame)];
    let events = first + later;
    reveal_with_fuel(state_after, 3);
    assert(events.take(0) =~= Seq::<EventView>::empty());
    assert(events.take(1) =~= seq![EventView::Upgraded]);
    assert(seq![EventView::Upgraded].drop_last() =~= Seq::<EventView>::empty());
    assert(first.drop_last() =~= seq![EventView::Upgraded]);
    assert(state_after(SessionState::Connecting, secret, first) == SessionState::Closed);
    assert(events.take(2) =~= first);
    assert(events.skip(2) =~= later);
    lemma_state_after_split(SessionState::Connecting, secret, events, 2);
    lemma_closed_is_final(secret, later);
    let upto = events.take(2 + i);
    lemma_state_after_split(SessionState::Connecting, secret, upto, 2);
    assert(upto.take(2) =~= first);
    lemma_closed_is_final(secret, upto.skip(2));
}

/// With the secret as its first frame the session sends the success frame
/// and the loops are started; every sample that is taken from then on goes
/// out as a telemetry frame, as long as the connection holds.
pub proof fn lemma_right_secret(secret: Seq<char>, stats: ServerStats)
    ensures
        ({
            let events = seq![
                EventView::Upgraded,
                EventView::Frame(Some(secret)),
                EventView::Started,
                EventView::Sample(stats),
            ];
            &&& action_at(SessionState::Connecting, secret, events, 0) == ActionView::Nothing
            &&& action_at(SessionState::Connecting, secret, events, 1) == ActionView::Send(
                Reply::Welcome,
            )
            &&& action_at(SessionState::Connecting, secret, events, 2) == ActionView::StartLoops
            &&& action_at(SessionState::Connecting, secret, events, 3) == ActionView::Send(
                Reply::Telemetry(stats),
            )
            &&& state_after(SessionState::Connecting, secret, events) == SessionState::Active
        }),
{
    let events = seq![
        EventView::Upgraded,
        EventView::Frame(Some(secret)),
        EventView::Started,
        EventView::Sample(stats),
    ];
    reveal_with_fuel(state_after, 5);
    let e0 = events.take(0);
    let e1 = events.take(1);
    let e2 = events.take(2);
    let e3 = events.take(3);
    assert(e0 =~= Seq::<EventView>::empty());
    assert(e1.drop_last() =~= e0);
    assert(e2.drop_last() =~= e1);
    assert(e3.drop_last() =~= e2);
    assert(events.drop_last() =~= e3);
    assert(state_after(SessionState::Connecting, secret, e1) == SessionState::Authenticating);
    assert(state_after(SessionState::Connecting, secret, e2) == SessionState::Authenticated);
    assert(state_after(SessionState::Connecting, secret, e3) == SessionState::Active);
}

/// An active session stays active whatever comes in, be it a frame that
/// cannot be decoded or a command that failed, until the connection fails or
/// is closed. In every state, that ends the session and stops the loops.
pub proof fn lemma_only_the_connection_ends_a_session(secret: Seq<char>, event: EventView)
    ensures
        event != EventView::Disconnected ==> next_state(SessionState::Active, secret, event)
            == SessionState::Active,
        forall|state: SessionState|
            #![trigger next_state(state, secret, EventView::Disconnected)]
            next_state(state, secret, EventView::Disconnected) == SessionState::Closed,
        forall|state: SessionState|
            #![trigger reaction(state, secret, EventView::Disconnected)]
            state != SessionState::Closed ==> reaction(state, secret, EventView::Disconnected)
                == ActionView::Shutdown,
        reaction(SessionState::Active, secret, EventView::Decoded(None)) == ActionView::Send(
            parse_error(),
        ),
{
}

/// Of all failures only a wrong secret ends the session: the failure frame
/// is sent for nothing else, and whatever else is sent, the session goes on.
pub proof fn lemma_only_a_wrong_secret_is_fatal(
    state: SessionState,
    secret: Seq<char>,
    event: EventView,
)
    ensures
        match reaction(state, secret, event) {
            ActionView::Reject(why) => why == Failure::Auth && next_state(state, secret, event)
                == SessionState::Closed,
            ActionView::Send(_) => next_state(state, secret, event) != SessionState::Closed,
            _ => true,
        },
{
}

/// One session.
#[derive(Debug, PartialEq, Eq)]
pub struct ControlSession {
    state: SessionState,
    secret: String,
}

/// The mathematical value of a [`ControlSession`].
pub struct SessionView {
    pub state: SessionState,
    pub secret: Seq<char>,
}

impl View for ControlSession {
    type V = SessionView;

    closed spec fn view(&self) -> SessionView {
        SessionView { state: self.state, secret: self.secret@ }
    }
}

impl ControlSession {
    /// The session of a client that has just connected.
    pub fn new(config: &ServerConfig) -> (session: ControlSession)
        ensures
            session@ == (SessionView { state: SessionState::Connecting, secret: config.master_key@ }),
    {
        ControlSession { state: SessionState::Connecting, secret: config.master_key.clone() }
    }

    /// Where the session stands.
    pub fn state(&self) -> (state: SessionState)
        ensures
            state == self@.state,
    {
        self.state
    }

    /// Whether the client has sent the secret and the session is not over.
    pub fn authenticated(&self) -> (b: bool)
        ensures
            b == (self@.state == SessionState::Authenticated || self@.state
                == SessionState::Active),
    {
        match self.state {
            SessionState::Authenticated => true,
            SessionState::Active => true,
            _ => false,
        }
    }

    /// Takes in `event`: the session moves on, and the host is told what to
    /// do.
    pub fn handle(&mut self, event: Event) -> (action: Action)
        ensures
            final(self)@.secret == old(self)@.secret,
            final(self)@.state == next_state(old(self)@.state, old(self)@.secret, event@),
            action@ == reaction(old(self)@.state, old(self)@.secret, event@),
    {
        match self.state {
            SessionState::Closed => Action::Nothing,
            SessionState::Connecting => match event {
                Event::Disconnected => {
                    self.state = SessionState::Closed;
                    Action::Shutdown
                },
                Event::Upgraded => {
                    self.state = SessionState::Authenticating;
                    Action::Nothing
                },
                _ => Action::Nothing,
            },
            SessionState::Authenticating => match event {
                Event::Disconnected => {
                    self.state = SessionState::Closed;
                    Action::Shutdown
                },
                Event::Frame(frame) => {
                    let right = match frame {
                        Some(text) => same(&to_chars(text.as_str()), &to_chars(self.secret.as_str())),
                        None => false,
                    };
                    if right {
                        self.state = SessionState::Authenticated;
                        Action::Send(Reply::Welcome)
                    } else {
                        self.state = SessionState::Closed;
                        Action::Reject(Failure::Auth)
                    }
                },
                _ => Action::Nothing,
            },
            SessionState::Authenticated => match event {
                Event::Disconnected => {
                    self.state = SessionState::Closed;
                    Action::Shutdown
                },
                Event::Started => {
                    self.state = SessionState::Active;
                    Action::StartLoops
                },
                _ => Action::Nothing,
            },
            SessionState::Active => match event {
                Event::Disconnected => {
                    self.state = SessionState::Closed;
                    Action::Shutdown
                },
                Event::Frame(Some(text)) => Action::Decode(text),
                Event::Frame(None) => Action::Send(Reply::Response(Outcome::Failed(Failure::Parse))),
                Event::Decoded(Some(command)) => Action::Dispatch(command),
                Event::Decoded(None) => Action::Send(
                    Reply::Response(Outcome::Failed(Failure::Parse)),
                ),
                Event::Completed(outcome) => Action::Send(Reply::Response(outcome)),
                Event::Sample(stats) => Action::Send(Reply::Telemetry(stats)),
                _ => Action::Nothing,
            },
        }
    }
}

/// The text of the frame that answers the first frame: `Success` where the
/// secret was right, `!Invalid master key` where it was not.
pub open spec fn handshake_text(accepted: bool) -> Seq<char> {
    if accepted {
        "Success"@
    } else {
        "!Invalid master key"@
    }
}

/// The text of the frame that answers the first frame.
pub fn handshake_frame(accepted: bool) -> (text: String)
    ensures
        text@ == handshake_text(accepted),
{
    if accepted {
        "Success".to_owned()
    } else {
        "!Invalid master key".to_owned()
    }
}

} // verus!

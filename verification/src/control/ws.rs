//! The protocol of a control connection. The first message must be a
//! `hello`; afterwards each text message is dispatched to the handler,
//! while a heartbeat pings the client and drops a connection that has been
//! silent for too long. The connection's task performs the I/O; the
//! decisions are made here.

use vstd::prelude::*;

use crate::text::chars_of;
use crate::text::chars_contain;
use crate::text::contains_seq;
use crate::text::extend_chars;
use crate::text::lower_seq;
use crate::text::lower_vec;
use crate::text::string_from_chars;

verus! {

/// How long the server waits for the initial `hello`, in nanoseconds.
pub const HELLO_TIMEOUT_NS: u64 = 30_000_000_000;

/// How often the server pings the client, in nanoseconds.
pub const PING_INTERVAL_NS: u64 = 15_000_000_000;

/// Silence after which the connection counts as dead, in nanoseconds.
pub const IDLE_DEAD_NS: u64 = 45_000_000_000;

/// Where a connection stands.
#[derive(Debug, Clone, Copy, PartialEq, Eq, Structural)]
pub enum Phase {
    AwaitHello,
    Open,
    Closed,
}

/// What the connection observed.
#[derive(Debug)]
pub enum WsEvent {
    /// A text message: `Ok(true)` when it parsed as a `hello`, `Ok(false)`
    /// when it parsed as another message, `Err` with the parser's error
    /// text when it did not parse.
    Text(Result<bool, String>),
    /// A binary, ping or pong frame.
    OtherFrame,
    /// A close frame.
    CloseFrame,
    /// Receiving failed.
    RecvError,
    /// The client's side of the connection ended.
    End,
    /// No message arrived before the `hello` deadline.
    Timeout,
    /// A heartbeat tick, with the time since the last traffic.
    Tick { idle_ns: u64 },
    /// Sending a response or a ping failed.
    SendFailed,
}

/// What the connection does next.
#[derive(Debug, Clone)]
pub enum WsAction {
    /// Hand the message to the handler and send its response.
    Dispatch,
    /// Send an error frame with this code and message, then close the
    /// socket when `close` is set.
    Reply { code: String, message: String, close: bool },
    /// Send a ping.
    Ping,
    /// Nothing to do.
    Idle,
    /// End the connection; its streams are cancelled.
    Stop,
}

/// The action as the contract sees it.
pub enum ActionSpec {
    Dispatch,
    Reply(Seq<char>, Seq<char>, bool),
    Ping,
    Idle,
    Stop,
}

pub open spec fn action_spec(a: WsAction) -> ActionSpec {
    match a {
        WsAction::Dispatch => ActionSpec::Dispatch,
        WsAction::Reply { code, message, close } => ActionSpec::Reply(code@, message@, close),
        WsAction::Ping => ActionSpec::Ping,
        WsAction::Idle => ActionSpec::Idle,
        WsAction::Stop => ActionSpec::Stop,
    }
}

/// The step of the protocol: before the `hello`, a `hello` opens the
/// connection; anything else ends it, with an error frame for a message
/// that is not a `hello` (`invalid hello: ...` and `expect 'hello' first`,
/// closing the socket) or not text (`expected text message`). Once open,
/// text is dispatched (an unparsable message is answered with a
/// `bad_request` error frame), other frames are ignored, a close frame, a
/// failed receive or send, or the end of the stream ends it, and a tick
/// pings the client unless it has been silent longer than
/// [`IDLE_DEAD_NS`].
pub open spec fn ws_transition(phase: Phase, event: WsEvent) -> (Phase, ActionSpec) {
    match phase {
        Phase::AwaitHello => match event {
            WsEvent::Text(Err(e)) => (Phase::Closed, ActionSpec::Reply("proto"@, "invalid hello: "@ + e@, true)),
            WsEvent::Text(Ok(false)) => (Phase::Closed, ActionSpec::Reply("proto"@, "expect 'hello' first"@, true)),
            WsEvent::Text(Ok(true)) => (Phase::Open, ActionSpec::Dispatch),
            WsEvent::OtherFrame => (Phase::Closed, ActionSpec::Reply("proto"@, "expected text message"@, false)),
            WsEvent::CloseFrame => (Phase::Closed, ActionSpec::Reply("proto"@, "expected text message"@, false)),
            WsEvent::Tick { .. } => (Phase::AwaitHello, ActionSpec::Idle),
            _ => (Phase::Closed, ActionSpec::Stop),
        },
        Phase::Open => match event {
            WsEvent::Text(Err(e)) => (Phase::Open, ActionSpec::Reply("bad_request"@, e@, false)),
            WsEvent::Text(Ok(_)) => (Phase::Open, ActionSpec::Dispatch),
            WsEvent::OtherFrame => (Phase::Open, ActionSpec::Idle),
            WsEvent::Timeout => (Phase::Open, ActionSpec::Idle),
            WsEvent::Tick { idle_ns } => if idle_ns > IDLE_DEAD_NS {
                (Phase::Closed, ActionSpec::Stop)
            } else {
                (Phase::Open, ActionSpec::Ping)
            },
            _ => (Phase::Closed, ActionSpec::Stop),
        },
        Phase::Closed => (Phase::Closed, ActionSpec::Stop),
    }
}

fn lit(s: &str) -> (r: String)
    ensures
        r@ == s@,
{
    string_from_chars(&chars_of(s))
}

/// Takes a step of the protocol (see [`ws_transition`]).
pub fn ws_step(phase: Phase, event: WsEvent) -> (r: (Phase, WsAction))
    ensures
        r.0 == ws_transition(phase, event).0,
        action_spec(r.1) == ws_transition(phase, event).1,
{
    match phase {
        Phase::AwaitHello => match event {
            WsEvent::Text(Err(e)) => {
                let mut v = chars_of("invalid hello: ");
                let t = chars_of(e.as_str());
                extend_chars(&mut v, &t);
                (Phase::Closed, WsAction::Reply { code: lit("proto"), message: string_from_chars(&v), close: true })
            },
            WsEvent::Text(Ok(false)) => (
                Phase::Closed,
                WsAction::Reply { code: lit("proto"), message: lit("expect 'hello' first"), close: true },
            ),
            WsEvent::Text(Ok(true)) => (Phase::Open, WsAction::Dispatch),
            WsEvent::OtherFrame => (
                Phase::Closed,
                WsAction::Reply { code: lit("proto"), message: lit("expected text message"), close: false },
            ),
            WsEvent::CloseFrame => (
                Phase::Closed,
                WsAction::Reply { code: lit("proto"), message: lit("expected text message"), close: false },
            ),
            WsEvent::Tick { .. } => (Phase::AwaitHello, WsAction::Idle),
            _ => (Phase::Closed, WsAction::Stop),
        },
        Phase::Open => match event {
            WsEvent::Text(Err(e)) => (Phase::Open, WsAction::Reply { code: lit("bad_request"), message: e, close: false }),
            WsEvent::Text(Ok(_)) => (Phase::Open, WsAction::Dispatch),
            WsEvent::OtherFrame => (Phase::Open, WsAction::Idle),
            WsEvent::Timeout => (Phase::Open, WsAction::Idle),
            WsEvent::Tick { idle_ns } => if idle_ns > IDLE_DEAD_NS {
                (Phase::Closed, WsAction::Stop)
            } else {
                (Phase::Open, WsAction::Ping)
            },
            _ => (Phase::Closed, WsAction::Stop),
        },
        Phase::Closed => (Phase::Closed, WsAction::Stop),
    }
}

/// A connection that has ended stays ended: every event after it is
/// answered by stopping.
pub proof fn lemma_closed_is_final(event: WsEvent)
    ensures
        ws_transition(Phase::Closed, event).0 == Phase::Closed,
        ws_transition(Phase::Closed, event).1 matches ActionSpec::Stop,
{
}

/// Only a `hello` opens a connection: any other first event leaves it
/// waiting for a tick or ends it.
pub proof fn lemma_only_hello_opens(event: WsEvent)
    ensures
        ws_transition(Phase::AwaitHello, event).0 == Phase::Open <==> event matches WsEvent::Text(Ok(true)),
{
}

/// Whether a send error's text names a benign disconnect: a reset, a
/// broken pipe or a disconnection, in any case.
pub open spec fn benign_disconnect_spec(text: Seq<char>) -> bool {
    let s = lower_seq(text);
    contains_seq(s, "reset"@) || contains_seq(s, "broken pipe"@) || contains_seq(s, "disconnected"@)
}

/// Classifies a disconnect error by its text (see
/// [`benign_disconnect_spec`]), to log benign ones quietly.
pub fn is_benign_disconnect(text: &str) -> (r: bool)
    ensures
        r == benign_disconnect_spec(text@),
{
    let s = lower_vec(&chars_of(text));
    chars_contain(&s, &chars_of("reset")) || chars_contain(&s, &chars_of("broken pipe")) || chars_contain(
        &s,
        &chars_of("disconnected"),
    )
}

/// The host a request names, for rewriting `internal:` sources: its `Host`
/// header, or `localhost` when it has none that is text.
pub fn host_or_default(host: Option<&str>) -> (r: &str)
    ensures
        r@ == (match host {
            Some(h) => h@,
            None => "localhost"@,
        }),
{
    match host {
        Some(h) => h,
        None => "localhost",
    }
}

} // verus!

//! The traffic of one tunnel: messages of the WebSocket server become bytes for the client, and
//! bytes of the client become messages for the server.
//!
//! [`Relay`] is a state machine. Its phase says what to do next; the outcome of that
//! ([`RelayEvent`]) leads to the next state ([`Relay::advance`]).

use vstd::prelude::*;

use crate::text::{decimal, push_decimal};
use crate::units::{amount, fmt_bytes};

verus! {

/// How many bytes of the client are read at a time, at most.
pub const CLIENT_BUFFER_LEN: usize = 32768;

/// Why the traffic came to an end.
#[derive(Debug, PartialEq, Eq)]
pub enum StopReason {
    /// The client takes no more bytes.
    ClientGone,
    /// The client has sent all that it had to send.
    ClientClosed,
    /// Reading from the client failed.
    ClientFailed(String),
    /// The answer to a ping could not be sent.
    PongFailed(String),
    /// Bytes of the client could not be sent.
    SendFailed(String),
    /// The server closed the connection, perhaps with a code and a reason.
    ServerClosed(Option<(u16, String)>),
    /// The server's stream ended without a word.
    ServerDropped,
    /// Reading from the server failed.
    ServerFailed(String),
}

impl StopReason {
    /// What is worth noting of an end, in words.
    pub open spec fn words(self) -> Option<Seq<char>> {
        match self {
            StopReason::ClientGone => None,
            StopReason::ClientClosed => None,
            StopReason::ClientFailed(e) => Some("ws TCP read error: "@ + e@),
            StopReason::PongFailed(e) => Some("ws pong send failed: "@ + e@),
            StopReason::SendFailed(e) => Some("ws WS send failed: "@ + e@),
            StopReason::ServerClosed(None) => Some("ws server closed: "@ + "no reason"@),
            StopReason::ServerClosed(Some((code, reason))) => Some(
                "ws server closed: "@ + "code="@ + decimal(code as nat) + ", reason="@ + reason@,
            ),
            StopReason::ServerDropped => Some("ws stream ended (server dropped)"@),
            StopReason::ServerFailed(e) => Some("ws read error: "@ + e@),
        }
    }

    /// What is worth noting of an end, in words.
    pub fn note(&self) -> (n: Option<String>)
        ensures
            match self.words() {
                Some(words) => n matches Some(s) && s@ == words,
                None => n is None,
            },
    {
        match self {
            StopReason::ClientGone | StopReason::ClientClosed => None,
            StopReason::ClientFailed(e) => {
                let mut s = String::from_str("ws TCP read error: ");
                s.append(e.as_str());
                Some(s)
            },
            StopReason::PongFailed(e) => {
                let mut s = String::from_str("ws pong send failed: ");
                s.append(e.as_str());
                Some(s)
            },
            StopReason::SendFailed(e) => {
                let mut s = String::from_str("ws WS send failed: ");
                s.append(e.as_str());
                Some(s)
            },
            StopReason::ServerClosed(None) => {
                let mut s = String::from_str("ws server closed: ");
                s.append("no reason");
                Some(s)
            },
            StopReason::ServerClosed(Some((code, reason))) => {
                let mut s = String::from_str("ws server closed: ");
                s.append("code=");
                push_decimal(&mut s, *code as u128);
                s.append(", reason=");
                s.append(reason.as_str());
                Some(s)
            },
            StopReason::ServerDropped => Some(String::from_str("ws stream ended (server dropped)")),
            StopReason::ServerFailed(e) => {
                let mut s = String::from_str("ws read error: ");
                s.append(e.as_str());
                Some(s)
            },
        }
    }
}

/// What a relay does next.
#[derive(Debug, PartialEq, Eq)]
pub enum RelayPhase {
    /// Send the client's first packet to the server, as one binary message.
    SendInit { init: [u8; 64] },
    /// Wait for the server or the client; the server comes first if both are ready.
    Waiting,
    /// Write these bytes to the client.
    ToClient { data: Vec<u8> },
    /// Answer a ping with this payload.
    Pong { payload: Vec<u8> },
    /// Send these bytes to the server, as one binary message.
    ToServer { data: Vec<u8> },
    /// Close the connection to the server; whether that succeeds does not matter.
    Closing { reason: StopReason },
    /// Nothing is left to do.
    Finished(Result<(), String>),
}

/// How it went, or what came in.
#[derive(Debug, PartialEq, Eq)]
pub enum RelayEvent {
    /// What was to be done is done.
    Done,
    /// What was to be done failed.
    Failed(String),
    /// A binary message of the server.
    ServerBinary(Vec<u8>),
    /// A ping of the server.
    ServerPing(Vec<u8>),
    /// The server closes the connection, perhaps with a code and a reason.
    ServerClose(Option<(u16, String)>),
    /// Any other message of the server.
    ServerOther,
    /// The server's stream ended.
    ServerEnded,
    /// Reading from the server failed.
    ServerFailed(String),
    /// Bytes of the client, at most a buffer full; none means that the client has closed its side.
    ClientRead(Vec<u8>),
    /// Reading from the client failed.
    ClientFailed(String),
}

/// The state of one tunnel's traffic.
#[derive(Debug, PartialEq, Eq)]
pub struct Relay {
    /// What to do next.
    pub phase: RelayPhase,
    /// How many bytes of the client were taken, its first packet included.
    pub bytes_up: u64,
    /// How many bytes of the server were taken.
    pub bytes_down: u64,
}

/// Why the tunnel failed when its first message could not be sent.
pub open spec fn init_failure(cause: Seq<char>) -> Seq<char> {
    "WS send init packet failed: "@ + cause
}

impl Relay {
    /// A relay that starts with the client's first packet.
    pub fn new(init: [u8; 64]) -> (r: Relay)
        ensures
            r == (Relay { phase: RelayPhase::SendInit { init }, bytes_up: 64, bytes_down: 0 }),
    {
        Relay { phase: RelayPhase::SendInit { init }, bytes_up: 64, bytes_down: 0 }
    }

    /// Whether `event` can happen in this state.
    pub open spec fn awaits(self, event: RelayEvent) -> bool {
        match self.phase {
            RelayPhase::SendInit { .. }
            | RelayPhase::ToClient { .. }
            | RelayPhase::Pong { .. }
            | RelayPhase::ToServer { .. } => event is Done || event is Failed,
            RelayPhase::Waiting => match event {
                RelayEvent::Done | RelayEvent::Failed(_) => false,
                RelayEvent::ServerBinary(data) => self.bytes_down + data@.len() <= u64::MAX,
                RelayEvent::ClientRead(data) => {
                    data@.len() <= CLIENT_BUFFER_LEN && self.bytes_up + data@.len() <= u64::MAX
                },
                _ => true,
            },
            RelayPhase::Closing { .. } => event is Done,
            RelayPhase::Finished(_) => false,
        }
    }

    /// Whether `event` can happen in this state.
    pub fn expects(&self, event: &RelayEvent) -> (r: bool)
        ensures
            r == self.awaits(*event),
    {
        match &self.phase {
            RelayPhase::SendInit { .. }
            | RelayPhase::ToClient { .. }
            | RelayPhase::Pong { .. }
            | RelayPhase::ToServer { .. } => match event {
                RelayEvent::Done | RelayEvent::Failed(_) => true,
                _ => false,
            },
            RelayPhase::Waiting => match event {
                RelayEvent::Done | RelayEvent::Failed(_) => false,
                RelayEvent::ServerBinary(data) => data.len() as u64 <= u64::MAX - self.bytes_down,
                RelayEvent::ClientRead(data) => {
                    data.len() <= CLIENT_BUFFER_LEN && data.len() as u64 <= u64::MAX - self.bytes_up
                },
                _ => true,
            },
            RelayPhase::Closing { .. } => match event {
                RelayEvent::Done => true,
                _ => false,
            },
            RelayPhase::Finished(_) => false,
        }
    }

    /// The phase to which an event in the phase `Waiting` leads.
    pub open spec fn reaction(event: RelayEvent) -> RelayPhase {
        match event {
            RelayEvent::ServerBinary(data) => RelayPhase::ToClient { data },
            RelayEvent::ServerPing(payload) => RelayPhase::Pong { payload },
            RelayEvent::ServerClose(frame) => RelayPhase::Closing {
                reason: StopReason::ServerClosed(frame),
            },
            RelayEvent::ServerEnded => RelayPhase::Closing { reason: StopReason::ServerDropped },
            RelayEvent::ServerFailed(e) => RelayPhase::Closing {
                reason: StopReason::ServerFailed(e),
            },
            RelayEvent::ClientRead(data) => if data@.len() == 0 {
                RelayPhase::Closing { reason: StopReason::ClientClosed }
            } else {
                RelayPhase::ToServer { data }
            },
            RelayEvent::ClientFailed(e) => RelayPhase::Closing {
                reason: StopReason::ClientFailed(e),
            },
            _ => RelayPhase::Waiting,
        }
    }

    /// Whether `event` leads from this phase to `next`.
    pub open spec fn phase_leads_to(phase: RelayPhase, event: RelayEvent, next: RelayPhase) -> bool {
        match (phase, event) {
            (RelayPhase::SendInit { .. }, RelayEvent::Failed(e)) => {
                next matches RelayPhase::Finished(Err(text)) && text@ == init_failure(e@)
            },
            (RelayPhase::ToClient { .. }, RelayEvent::Failed(_)) => {
                next == (RelayPhase::Closing { reason: StopReason::ClientGone })
            },
            (RelayPhase::Pong { .. }, RelayEvent::Failed(e)) => {
                next == (RelayPhase::Closing { reason: StopReason::PongFailed(e) })
            },
            (RelayPhase::ToServer { .. }, RelayEvent::Failed(e)) => {
                next == (RelayPhase::Closing { reason: StopReason::SendFailed(e) })
            },
            (RelayPhase::Waiting, _) => next == Relay::reaction(event),
            (RelayPhase::Closing { .. }, RelayEvent::Done) => next == RelayPhase::Finished(Ok(())),
            (_, RelayEvent::Done) => next == RelayPhase::Waiting,
            _ => false,
        }
    }

    /// How many bytes of the server an event brings.
    pub open spec fn down_in(event: RelayEvent) -> nat {
        match event {
            RelayEvent::ServerBinary(data) => data@.len(),
            _ => 0,
        }
    }

    /// How many bytes of the client an event brings.
    pub open spec fn up_in(event: RelayEvent) -> nat {
        match event {
            RelayEvent::ClientRead(data) => data@.len(),
            _ => 0,
        }
    }

    /// Whether `event` leads from this state to `next`.
    pub open spec fn leads_to(self, event: RelayEvent, next: Relay) -> bool {
        &&& Relay::phase_leads_to(self.phase, event, next.phase)
        &&& next.bytes_up == self.bytes_up + Relay::up_in(event)
        &&& next.bytes_down == self.bytes_down + Relay::down_in(event)
    }

    /// The state to which an event leads.
    pub fn advance(self, event: RelayEvent) -> (next: Relay)
        requires
            self.awaits(event),
        ensures
            self.leads_to(event, next),
    {
        let mut bytes_up: u64 = self.bytes_up;
        let mut bytes_down: u64 = self.bytes_down;
        let phase = match (self.phase, event) {
            (RelayPhase::SendInit { .. }, RelayEvent::Failed(e)) => {
                let mut text = String::from_str("WS send init packet failed: ");
                text.append(e.as_str());
                RelayPhase::Finished(Err(text))
            },
            (RelayPhase::ToClient { .. }, RelayEvent::Failed(_)) => {
                RelayPhase::Closing { reason: StopReason::ClientGone }
            },
            (RelayPhase::Pong { .. }, RelayEvent::Failed(e)) => {
                RelayPhase::Closing { reason: StopReason::PongFailed(e) }
            },
            (RelayPhase::ToServer { .. }, RelayEvent::Failed(e)) => {
                RelayPhase::Closing { reason: StopReason::SendFailed(e) }
            },
            (RelayPhase::Waiting, RelayEvent::ServerBinary(data)) => {
                bytes_down = bytes_down + data.len() as u64;
                RelayPhase::ToClient { data }
            },
            (RelayPhase::Waiting, RelayEvent::ServerPing(payload)) => RelayPhase::Pong { payload },
            (RelayPhase::Waiting, RelayEvent::ServerClose(frame)) => {
                RelayPhase::Closing { reason: StopReason::ServerClosed(frame) }
            },
            (RelayPhase::Waiting, RelayEvent::ServerEnded) => {
                RelayPhase::Closing { reason: StopReason::ServerDropped }
            },
            (RelayPhase::Waiting, RelayEvent::ServerFailed(e)) => {
                RelayPhase::Closing { reason: StopReason::ServerFailed(e) }
            },
            (RelayPhase::Waiting, RelayEvent::ClientRead(data)) => {
                if data.len() == 0 {
                    RelayPhase::Closing { reason: StopReason::ClientClosed }
                } else {
                    bytes_up = bytes_up + data.len() as u64;
                    RelayPhase::ToServer { data }
                }
            },
            (RelayPhase::Waiting, RelayEvent::ClientFailed(e)) => {
                RelayPhase::Closing { reason: StopReason::ClientFailed(e) }
            },
            (RelayPhase::Waiting, _) => RelayPhase::Waiting,
            (RelayPhase::Closing { .. }, _) => RelayPhase::Finished(Ok(())),
            (_, _) => RelayPhase::Waiting,
        };
        Relay { phase, bytes_up, bytes_down }
    }

    /// The traffic so far, in words; `seconds` is how long it took.
    pub open spec fn traffic(self, seconds: Seq<char>) -> Seq<char> {
        "ws relay: up="@ + amount(self.bytes_up) + " down="@ + amount(self.bytes_down)
            + " duration="@ + seconds + "s"@
    }

    /// The traffic so far, in words; `seconds` is how long it took.
    pub fn summary(&self, seconds: &str) -> (s: String)
        ensures
            s@ == self.traffic(seconds@),
    {
        let mut s = String::from_str("ws relay: up=");
        s.append(fmt_bytes(self.bytes_up).as_str());
        s.append(" down=");
        s.append(fmt_bytes(self.bytes_down).as_str());
        s.append(" duration=");
        s.append(seconds);
        s.append("s");
        s
    }
}

} // verus!

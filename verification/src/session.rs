//! One client connection: from the SOCKS5 greeting to the choice between the WebSocket tunnel and
//! a direct connection.
//!
//! [`Session`] is a state machine. Its state says what to do next ([`Session::action`]); the
//! outcome of that ([`SessionEvent`]) leads to the next state ([`Session::advance`]).

use vstd::prelude::*;

use crate::obfuscated2::{
    analyze_init, decrypted, name_of_tag, raw_dc_of, tag_name, tag_of, verdict, InitResult,
};
use crate::socks5::{dest_of, parse_dest, DestError};
use crate::stats::ProxyStats;
use crate::telegram::{dc_from_host, dc_of_host, is_telegram_ip, telegram_host};
use crate::text::{
    decimal, hex_byte, hex_word, push_decimal, push_hex_byte, push_hex_word, push_signed, signed,
};

verus! {

/// Where a client wants to go.
#[derive(Debug, PartialEq, Eq)]
pub struct Dest {
    /// An address or a domain name.
    pub host: String,
    pub port: u16,
}

impl Dest {
    /// Host and port with a colon between them.
    pub open spec fn target_text(self) -> Seq<char> {
        self.host@ + ":"@ + decimal(self.port as nat)
    }

    /// Host and port with a colon between them.
    pub fn target(&self) -> (s: String)
        ensures
            s@ == self.target_text(),
    {
        let mut s = String::new();
        s.append(self.host.as_str());
        s.append(":");
        push_decimal(&mut s, self.port as u128);
        proof {
            assert(s@ =~= self.target_text());
        }
        s
    }
}

/// Why a session failed.
#[derive(Debug, PartialEq, Eq)]
pub enum SessionError {
    /// The greeting is not one of SOCKS5. `ver` is its first byte, `len` its length.
    NotSocks5 { ver: u8, len: usize },
    /// The request is not a SOCKS5 CONNECT. `ver` and `cmd` are its first two bytes, `len` its
    /// length.
    BadConnect { ver: u8, cmd: u8, len: usize },
    /// The destination cannot be read.
    Dest(DestError),
    /// Reading or writing failed.
    Io(String),
    /// The destination cannot be reached.
    Connect { dest: Dest, cause: String },
    /// The destination cannot be reached for a client that speaks another protocol.
    DirectConnect { dest: Dest, cause: String },
    /// The tunnel failed.
    Tunnel(String),
}

impl SessionError {
    /// The error in words.
    pub open spec fn words(self) -> Seq<char> {
        match self {
            SessionError::NotSocks5 { ver, len } => "Not SOCKS5 (ver=0x"@ + hex_byte(ver)
                + ", len="@ + decimal(len as nat) + ")"@,
            SessionError::BadConnect { ver, cmd, len } => "Bad CONNECT (ver=0x"@ + hex_byte(ver)
                + ", cmd=0x"@ + hex_byte(cmd) + ", len="@ + decimal(len as nat) + ")"@,
            SessionError::Dest(e) => e.words(),
            SessionError::Io(cause) => cause@,
            SessionError::Connect { dest, cause } => "TCP connect "@ + dest.target_text() + ": "@
                + cause@,
            SessionError::DirectConnect { dest, cause } => "direct TCP connect "@
                + dest.target_text() + ": "@ + cause@,
            SessionError::Tunnel(cause) => cause@,
        }
    }

    /// The error in words.
    pub fn message(&self) -> (s: String)
        ensures
            s@ == self.words(),
    {
        match self {
            SessionError::NotSocks5 { ver, len } => {
                let mut s = String::from_str("Not SOCKS5 (ver=0x");
                push_hex_byte(&mut s, *ver);
                s.append(", len=");
                push_decimal(&mut s, *len as u128);
                s.append(")");
                s
            },
            SessionError::BadConnect { ver, cmd, len } => {
                let mut s = String::from_str("Bad CONNECT (ver=0x");
                push_hex_byte(&mut s, *ver);
                s.append(", cmd=0x");
                push_hex_byte(&mut s, *cmd);
                s.append(", len=");
                push_decimal(&mut s, *len as u128);
                s.append(")");
                s
            },
            SessionError::Dest(e) => e.message(),
            SessionError::Io(cause) => String::from_str(cause.as_str()),
            SessionError::Connect { dest, cause } => {
                let mut s = String::from_str("TCP connect ");
                s.append(dest.target().as_str());
                s.append(": ");
                s.append(cause.as_str());
                s
            },
            SessionError::DirectConnect { dest, cause } => {
                let mut s = String::from_str("direct TCP connect ");
                s.append(dest.target().as_str());
                s.append(": ");
                s.append(cause.as_str());
                s
            },
            SessionError::Tunnel(cause) => String::from_str(cause.as_str()),
        }
    }

    /// What is noted of a session that failed.
    pub fn note(&self) -> (s: String)
        ensures
            s@ == "error: "@ + self.words(),
    {
        let mut s = String::from_str("error: ");
        s.append(self.message().as_str());
        s
    }
}

/// A client's connection. The state says what is to be done next.
#[derive(Debug, PartialEq, Eq)]
pub enum Session {
    /// The connection has been accepted.
    Start,
    /// The greeting is awaited.
    Greeting,
    /// The greeting is to be answered.
    GreetingReply,
    /// The request is awaited.
    Request,
    /// The request is to be refused.
    Refusal { error: SessionError },
    /// The request is to be granted. `telegram` tells whether it goes to Telegram.
    SuccessReply { dest: Dest, telegram: bool },
    /// The first packet of a client of Telegram is awaited.
    Init { dest: Dest },
    /// The tunnel to data centre `dc` is to be run, starting with the first packet. `ip_dc` is the
    /// data centre that the address suggests.
    Tunnel { dest: Dest, dc: u8, init: [u8; 64], analysis: InitResult, ip_dc: Option<u8> },
    /// The destination is to be connected for a client that speaks another protocol.
    DirectConnect { dest: Dest, init: [u8; 64], analysis: InitResult },
    /// The first packet is to be sent to the destination.
    DirectInit { init: [u8; 64] },
    /// The destination is to be connected.
    PlainConnect { dest: Dest },
    /// Bytes are to be passed between the client and the destination, unchanged. `telegram` tells
    /// whether the destination is one of Telegram.
    Passthrough { telegram: bool },
    /// Nothing is left to do.
    Finished(Result<(), SessionError>),
}

/// What is to be done next.
#[derive(Debug, PartialEq, Eq)]
pub enum SessionAction {
    /// Send small packets to the client without delay.
    NoDelay,
    /// Read from the client, once, into the buffer.
    Receive,
    /// Send these bytes to the client.
    Send(Vec<u8>),
    /// Read exactly 64 bytes from the client.
    ReceiveInit,
    /// Run the tunnel to a data centre until it ends; its first message is `init`.
    RunTunnel { dc: u8, init: [u8; 64] },
    /// Connect to this target.
    Connect(String),
    /// Send the first packet to the destination.
    Forward([u8; 64]),
    /// Pass bytes between the client and the destination until one side ends.
    Passthrough,
    /// Close the connection.
    Finish,
}

/// How it went.
#[derive(Debug, PartialEq, Eq)]
pub enum SessionEvent {
    /// What was to be done is done.
    Done,
    /// The client sent `len` bytes, which are at the start of the buffer. The rest of the buffer
    /// is as it was before: zeros at first, then bytes of the greeting.
    Received { buf: [u8; 258], len: usize },
    /// The client sent its first packet.
    ReceivedInit([u8; 64]),
    /// It failed.
    Failed(String),
}

/// Version 5, no authentication.
pub open spec fn greeting_reply() -> Seq<u8> {
    seq![5u8, 0u8]
}

/// Version 5, command not supported.
pub open spec fn refusal_reply() -> Seq<u8> {
    seq![5u8, 7u8, 0u8, 1u8, 0u8, 0u8, 0u8, 0u8, 0u8, 0u8]
}

/// Version 5, succeeded, bound to port 1080 of 127.0.0.1.
pub open spec fn success_reply() -> Seq<u8> {
    seq![5u8, 0u8, 0u8, 1u8, 127u8, 0u8, 0u8, 1u8, 4u8, 0x38u8]
}

/// Whether a greeting is one of SOCKS5.
pub open spec fn is_greeting(buf: Seq<u8>, len: usize) -> bool {
    len >= 2 && buf[0] == 5
}

/// Whether a request is a SOCKS5 CONNECT.
pub open spec fn is_connect(buf: Seq<u8>, len: usize) -> bool {
    len >= 7 && buf[0] == 5 && buf[1] == 1
}

/// The data centre to which the first packet goes: the one that it names; else, when it only
/// announces a known protocol, the one that the address suggests.
pub open spec fn chosen_dc(analysis: InitResult, ip_dc: Option<u8>) -> Option<u8> {
    match analysis {
        InitResult::Obfuscated2 { dc, .. } => Some(dc),
        InitResult::BadDc { .. } => match ip_dc {
            Some(dc) => Some(dc),
            None => Some(2),
        },
        InitResult::NotObfuscated2 { .. } => None,
    }
}

/// The state after the first packet.
pub open spec fn routed(dest: Dest, init: [u8; 64], analysis: InitResult) -> Session {
    let ip_dc = dc_of_host(dest.host@);
    match chosen_dc(analysis, ip_dc) {
        Some(dc) => Session::Tunnel { dest, dc, init, analysis, ip_dc },
        None => Session::DirectConnect { dest, init, analysis },
    }
}

/// Decides where a client of Telegram goes, given what its first packet tells.
pub fn route_init(dest: Dest, init: [u8; 64], analysis: InitResult) -> (next: Session)
    ensures
        next == routed(dest, init, analysis),
{
    let ip_dc = dc_from_host(dest.host.as_str());
    match analysis {
        InitResult::Obfuscated2 { dc, .. } => {
            Session::Tunnel { dest, dc, init, analysis, ip_dc }
        },
        InitResult::BadDc { .. } => {
            let dc: u8 = match ip_dc {
                Some(dc) => dc,
                None => 2,
            };
            Session::Tunnel { dest, dc, init, analysis, ip_dc }
        },
        InitResult::NotObfuscated2 { .. } => Session::DirectConnect { dest, init, analysis },
    }
}

impl Session {
    /// Whether `event` is an outcome of what this state asks for.
    pub open spec fn awaits(self, event: SessionEvent) -> bool {
        match event {
            SessionEvent::Done => {
                !(self is Greeting || self is Request || self is Init || self is Finished)
            },
            SessionEvent::Received { buf, len } => {
                (self is Greeting || self is Request) && len <= 258
            },
            SessionEvent::ReceivedInit(_) => self is Init,
            SessionEvent::Failed(_) => !(self is Passthrough || self is Finished),
        }
    }

    /// Whether `event` is an outcome of what this state asks for.
    pub fn expects(&self, event: &SessionEvent) -> (r: bool)
        ensures
            r == self.awaits(*event),
    {
        match event {
            SessionEvent::Done => match self {
                Session::Greeting | Session::Request => false,
                Session::Init { .. } | Session::Finished(_) => false,
                _ => true,
            },
            SessionEvent::Received { buf: _, len } => match self {
                Session::Greeting | Session::Request => *len <= 258,
                _ => false,
            },
            SessionEvent::ReceivedInit(_) => match self {
                Session::Init { .. } => true,
                _ => false,
            },
            SessionEvent::Failed(_) => match self {
                Session::Passthrough { .. } | Session::Finished(_) => false,
                _ => true,
            },
        }
    }

    /// The state after the request.
    pub open spec fn follows_request(self, buf: Seq<u8>, len: usize) -> bool {
        if !is_connect(buf, len) {
            self == Session::Refusal {
                error: SessionError::BadConnect { ver: buf[0], cmd: buf[1], len },
            }
        } else {
            match dest_of(buf.subrange(3, len as int)) {
                Err(e) => self == Session::Finished(Err(SessionError::Dest(e))),
                Ok((host, port)) => {
                    &&& self matches Session::SuccessReply { dest, telegram }
                    &&& dest.host@ == host
                    &&& dest.port == port
                    &&& telegram == telegram_host(host)
                },
            }
        }
    }

    /// Whether `event` leads from this state to `next`.
    pub open spec fn leads_to(self, event: SessionEvent, next: Session) -> bool {
        match (self, event) {
            (Session::Start, SessionEvent::Done) => next == Session::Greeting,
            (Session::Greeting, SessionEvent::Received { buf, len }) => if is_greeting(buf@, len) {
                next == Session::GreetingReply
            } else {
                next == Session::Finished(Err(SessionError::NotSocks5 { ver: buf@[0], len }))
            },
            (Session::GreetingReply, SessionEvent::Done) => next == Session::Request,
            (Session::Request, SessionEvent::Received { buf, len }) => {
                next.follows_request(buf@, len)
            },
            (Session::Refusal { error }, SessionEvent::Done) => {
                next == Session::Finished(Err(error))
            },
            (Session::SuccessReply { dest, telegram }, SessionEvent::Done) => if telegram {
                next == (Session::Init { dest })
            } else {
                next == (Session::PlainConnect { dest })
            },
            (Session::Init { dest }, SessionEvent::ReceivedInit(init)) => {
                let dec = decrypted(init@);
                next == routed(dest, init, verdict(tag_of(dec), raw_dc_of(dec)))
            },
            (Session::Tunnel { .. }, SessionEvent::Done) => next == Session::Finished(Ok(())),
            (Session::Tunnel { .. }, SessionEvent::Failed(cause)) => {
                next == Session::Finished(Err(SessionError::Tunnel(cause)))
            },
            (Session::DirectConnect { init, .. }, SessionEvent::Done) => {
                next == (Session::DirectInit { init })
            },
            (Session::DirectConnect { dest, .. }, SessionEvent::Failed(cause)) => {
                next == Session::Finished(Err(SessionError::DirectConnect { dest, cause }))
            },
            (Session::DirectInit { .. }, SessionEvent::Done) => {
                next == (Session::Passthrough { telegram: true })
            },
            (Session::PlainConnect { .. }, SessionEvent::Done) => {
                next == (Session::Passthrough { telegram: false })
            },
            (Session::PlainConnect { dest }, SessionEvent::Failed(cause)) => {
                next == Session::Finished(Err(SessionError::Connect { dest, cause }))
            },
            (Session::Passthrough { .. }, SessionEvent::Done) => next == Session::Finished(Ok(())),
            (_, SessionEvent::Failed(cause)) => {
                next == Session::Finished(Err(SessionError::Io(cause)))
            },
            _ => false,
        }
    }

    /// What is to be done in this state.
    pub fn action(&self) -> (a: SessionAction)
        ensures
            match *self {
                Session::Start => a is NoDelay,
                Session::Greeting | Session::Request => a is Receive,
                Session::GreetingReply => a matches SessionAction::Send(b) && b@
                    == greeting_reply(),
                Session::Refusal { .. } => a matches SessionAction::Send(b) && b@
                    == refusal_reply(),
                Session::SuccessReply { .. } => a matches SessionAction::Send(b) && b@
                    == success_reply(),
                Session::Init { .. } => a is ReceiveInit,
                Session::Tunnel { dc, init, .. } => a == (SessionAction::RunTunnel { dc, init }),
                Session::DirectConnect { dest, .. } => a matches SessionAction::Connect(t) && t@
                    == dest.target_text(),
                Session::DirectInit { init } => a == SessionAction::Forward(init),
                Session::PlainConnect { dest } => a matches SessionAction::Connect(t) && t@
                    == dest.target_text(),
                Session::Passthrough { .. } => a is Passthrough,
                Session::Finished(_) => a is Finish,
            },
    {
        match self {
            Session::Start => SessionAction::NoDelay,
            Session::Greeting | Session::Request => SessionAction::Receive,
            Session::GreetingReply => SessionAction::Send(vec![0x05, 0x00]),
            Session::Refusal { .. } => {
                SessionAction::Send(vec![0x05, 0x07, 0x00, 0x01, 0, 0, 0, 0, 0, 0])
            },
            Session::SuccessReply { .. } => {
                SessionAction::Send(vec![0x05, 0x00, 0x00, 0x01, 127, 0, 0, 1, 0x04, 0x38])
            },
            Session::Init { .. } => SessionAction::ReceiveInit,
            Session::Tunnel { dc, init, .. } => SessionAction::RunTunnel { dc: *dc, init: *init },
            Session::DirectConnect { dest, .. } => SessionAction::Connect(dest.target()),
            Session::DirectInit { init } => SessionAction::Forward(*init),
            Session::PlainConnect { dest } => SessionAction::Connect(dest.target()),
            Session::Passthrough { .. } => SessionAction::Passthrough,
            Session::Finished(_) => SessionAction::Finish,
        }
    }

    /// The state after the greeting.
    fn after_greeting(buf: &[u8; 258], len: usize) -> (next: Session)
        requires
            len <= 258,
        ensures
            Session::Greeting.leads_to(SessionEvent::Received { buf: *buf, len }, next),
    {
        if len < 2 || buf[0] != 0x05 {
            Session::Finished(Err(SessionError::NotSocks5 { ver: buf[0], len }))
        } else {
            Session::GreetingReply
        }
    }

    /// The state after the request.
    fn after_request(buf: &[u8; 258], len: usize) -> (next: Session)
        requires
            len <= 258,
        ensures
            next.follows_request(buf@, len),
    {
        if len < 7 || buf[0] != 0x05 || buf[1] != 0x01 {
            return Session::Refusal {
                error: SessionError::BadConnect { ver: buf[0], cmd: buf[1], len },
            };
        }
        let data = &buf[3..len];
        match parse_dest(data) {
            Err(e) => Session::Finished(Err(SessionError::Dest(e))),
            Ok((host, port)) => {
                let telegram = is_telegram_ip(host.as_str());
                Session::SuccessReply { dest: Dest { host, port }, telegram }
            },
        }
    }

    /// The state to which an outcome leads.
    pub fn advance(self, event: SessionEvent) -> (next: Session)
        requires
            self.awaits(event),
        ensures
            self.leads_to(event, next),
    {
        match (self, event) {
            (Session::Start, SessionEvent::Done) => Session::Greeting,
            (Session::Greeting, SessionEvent::Received { buf, len }) => {
                Session::after_greeting(&buf, len)
            },
            (Session::GreetingReply, SessionEvent::Done) => Session::Request,
            (Session::Request, SessionEvent::Received { buf, len }) => {
                Session::after_request(&buf, len)
            },
            (Session::Refusal { error }, SessionEvent::Done) => Session::Finished(Err(error)),
            (Session::SuccessReply { dest, telegram }, SessionEvent::Done) => {
                if telegram {
                    Session::Init { dest }
                } else {
                    Session::PlainConnect { dest }
                }
            },
            (Session::Init { dest }, SessionEvent::ReceivedInit(init)) => {
                let analysis = analyze_init(&init);
                route_init(dest, init, analysis)
            },
            (Session::Tunnel { .. }, SessionEvent::Done) => Session::Finished(Ok(())),
            (Session::Tunnel { .. }, SessionEvent::Failed(cause)) => {
                Session::Finished(Err(SessionError::Tunnel(cause)))
            },
            (Session::DirectConnect { init, .. }, SessionEvent::Done) => {
                Session::DirectInit { init }
            },
            (Session::DirectConnect { dest, .. }, SessionEvent::Failed(cause)) => {
                Session::Finished(Err(SessionError::DirectConnect { dest, cause }))
            },
            (Session::DirectInit { .. }, SessionEvent::Done) => {
                Session::Passthrough { telegram: true }
            },
            (Session::PlainConnect { .. }, SessionEvent::Done) => {
                Session::Passthrough { telegram: false }
            },
            (Session::PlainConnect { dest }, SessionEvent::Failed(cause)) => {
                Session::Finished(Err(SessionError::Connect { dest, cause }))
            },
            (Session::Passthrough { .. }, SessionEvent::Done) => Session::Finished(Ok(())),
            (_, SessionEvent::Failed(cause)) => Session::Finished(Err(SessionError::Io(cause))),
            (state, _) => state,
        }
    }

    /// The counters when this state is left for `next`: a tunnel is counted as open from the moment
    /// the session gets to it until the session leaves it.
    pub open spec fn counted(self, next: Session, stats: ProxyStats) -> ProxyStats {
        if self is Tunnel {
            stats.tunnel_closed()
        } else if next is Tunnel {
            stats.tunnel_opened()
        } else {
            stats
        }
    }

    /// The state to which an outcome leads, with the session's tunnel counted.
    pub fn advance_counted(self, stats: &mut ProxyStats, event: SessionEvent) -> (next: Session)
        requires
            self.awaits(event),
            self is Tunnel ==> old(stats).ws_active > 0,
        ensures
            self.leads_to(event, next),
            *final(stats) == self.counted(next, *old(stats)),
    {
        let was_tunnel = match &self {
            Session::Tunnel { .. } => true,
            _ => false,
        };
        let next = self.advance(event);
        if was_tunnel {
            stats.close_tunnel();
        } else {
            match &next {
                Session::Tunnel { .. } => stats.open_tunnel(),
                _ => {},
            }
        }
        next
    }

    /// What is worth noting of a session that gets to this state, in words. That a destination is
    /// not one of Telegram is noted only if every connection is reported.
    pub open spec fn words(self, verbose: bool) -> Option<Seq<char>> {
        match self {
            Session::Tunnel { dest, dc, analysis, ip_dc, .. } => match analysis {
                InitResult::Obfuscated2 { tag, raw_dc, .. } => Some(
                    "telegram "@ + dest.target_text() + " -> DC"@ + decimal(dc as nat)
                        + " (init-packet, "@ + name_of_tag(tag) + ", raw_dc="@ + signed(
                        raw_dc as int,
                    ) + ", ip_dc="@ + optional_dc(ip_dc) + ")"@,
                ),
                InitResult::BadDc { tag, raw_dc } => Some(
                    "telegram "@ + dest.target_text() + " -> DC"@ + decimal(dc as nat)
                        + " (ip-range fallback, init raw_dc="@ + signed(raw_dc as int)
                        + " out of range, tag=0x"@ + hex_word(tag) + ")"@,
                ),
                InitResult::NotObfuscated2 { .. } => None,
            },
            Session::DirectConnect { dest, analysis, .. } => match analysis {
                InitResult::NotObfuscated2 { tag, raw_dc } => Some(
                    "NOT obfuscated2 "@ + dest.target_text() + " (tag=0x"@ + hex_word(tag)
                        + ", raw_dc="@ + signed(raw_dc as int) + ") -> direct TCP"@,
                ),
                _ => None,
            },
            Session::PlainConnect { dest } => if verbose {
                Some("tcp passthrough to "@ + dest.target_text())
            } else {
                None
            },
            _ => None,
        }
    }

    /// What is worth noting of a session that gets to this state, in words.
    pub fn note(&self, verbose: bool) -> (n: Option<String>)
        ensures
            match self.words(verbose) {
                Some(words) => n matches Some(s) && s@ == words,
                None => n is None,
            },
    {
        match self {
            Session::Tunnel { dest, dc, analysis, ip_dc, .. } => match analysis {
                InitResult::Obfuscated2 { tag, raw_dc, .. } => {
                    let mut s = String::from_str("telegram ");
                    s.append(dest.target().as_str());
                    s.append(" -> DC");
                    push_decimal(&mut s, *dc as u128);
                    s.append(" (init-packet, ");
                    s.append(tag_name(*tag));
                    s.append(", raw_dc=");
                    push_signed(&mut s, *raw_dc);
                    s.append(", ip_dc=");
                    push_optional_dc(&mut s, *ip_dc);
                    s.append(")");
                    Some(s)
                },
                InitResult::BadDc { tag, raw_dc } => {
                    let mut s = String::from_str("telegram ");
                    s.append(dest.target().as_str());
                    s.append(" -> DC");
                    push_decimal(&mut s, *dc as u128);
                    s.append(" (ip-range fallback, init raw_dc=");
                    push_signed(&mut s, *raw_dc);
                    s.append(" out of range, tag=0x");
                    push_hex_word(&mut s, *tag);
                    s.append(")");
                    Some(s)
                },
                InitResult::NotObfuscated2 { .. } => None,
            },
            Session::DirectConnect { dest, analysis, .. } => match analysis {
                InitResult::NotObfuscated2 { tag, raw_dc } => {
                    let mut s = String::from_str("NOT obfuscated2 ");
                    s.append(dest.target().as_str());
                    s.append(" (tag=0x");
                    push_hex_word(&mut s, *tag);
                    s.append(", raw_dc=");
                    push_signed(&mut s, *raw_dc);
                    s.append(") -> direct TCP");
                    Some(s)
                },
                _ => None,
            },
            Session::PlainConnect { dest } => if verbose {
                let mut s = String::from_str("tcp passthrough to ");
                s.append(dest.target().as_str());
                Some(s)
            } else {
                None
            },
            _ => None,
        }
    }

    /// What is worth noting when bytes can no longer be passed on, in words: only what happens to a
    /// client of Telegram, and only if every connection is reported. `upward` tells whether the
    /// bytes were those of the client.
    pub open spec fn break_words(self, upward: bool, cause: Seq<char>, verbose: bool) -> Option<
        Seq<char>,
    > {
        if verbose && self == (Session::Passthrough { telegram: true }) {
            Some(
                if upward {
                    "tcp c->r: "@ + cause
                } else {
                    "tcp r->c: "@ + cause
                },
            )
        } else {
            None
        }
    }

    /// What is worth noting when bytes can no longer be passed on, in words.
    pub fn break_note(&self, upward: bool, cause: &str, verbose: bool) -> (n: Option<String>)
        ensures
            match self.break_words(upward, cause@, verbose) {
                Some(words) => n matches Some(s) && s@ == words,
                None => n is None,
            },
    {
        match self {
            Session::Passthrough { telegram: true } => if verbose {
                let mut s = if upward {
                    String::from_str("tcp c->r: ")
                } else {
                    String::from_str("tcp r->c: ")
                };
                s.append(cause);
                Some(s)
            } else {
                None
            },
            _ => None,
        }
    }
}

/// The data centre that an address suggests, in words.
pub open spec fn optional_dc(dc: Option<u8>) -> Seq<char> {
    match dc {
        Some(dc) => "Some("@ + decimal(dc as nat) + ")"@,
        None => "None"@,
    }
}

/// Appends the data centre that an address suggests.
fn push_optional_dc(s: &mut String, dc: Option<u8>)
    ensures
        final(s)@ == old(s)@ + optional_dc(dc),
{
    let ghost before = s@;
    match dc {
        Some(dc) => {
            s.append("Some(");
            push_decimal(s, dc as u128);
            s.append(")");
        },
        None => s.append("None"),
    }
    proof {
        assert(s@ =~= before + optional_dc(dc));
    }
}

/// How a tunnel to a data centre ended and how many are still open, in words.
pub open spec fn tunnel_end(dc: u8, result: Result<(), String>, remaining: u32) -> Seq<char> {
    "DC"@ + decimal(dc as nat) + match result {
        Ok(()) => " done"@,
        Err(cause) => " tunnel error: "@ + cause@,
    } + " (ws active: "@ + decimal(remaining as nat) + ")"@
}

/// How a tunnel to a data centre ended and how many are still open, in words.
pub fn tunnel_note(dc: u8, result: &Result<(), String>, remaining: u32) -> (s: String)
    ensures
        s@ == tunnel_end(dc, *result, remaining),
{
    let mut s = String::from_str("DC");
    push_decimal(&mut s, dc as u128);
    match result {
        Ok(()) => s.append(" done"),
        Err(cause) => {
            s.append(" tunnel error: ");
            s.append(cause.as_str());
        },
    }
    s.append(" (ws active: ");
    push_decimal(&mut s, remaining as u128);
    s.append(")");
    proof {
        assert(s@ =~= tunnel_end(dc, *result, remaining));
    }
    s
}

} // verus!

//! How the tunnel to a data centre is set up: a TCP connection to the data centre's address, TLS
//! with the name of the endpoint's host, and the WebSocket handshake.
//!
//! [`Dial`] is a state machine. Its step says what to do next; the outcome of that ([`DialEvent`])
//! leads to the next step ([`Dial::advance`]).

use vstd::prelude::*;

use crate::telegram::{address_of_dc, dc_ip, host_of_dc, url_of_dc, ws_host, ws_url};
use crate::text::{decimal, push_decimal};

verus! {

/// The port of the endpoints.
pub const WS_PORT: u16 = 443;

/// How many seconds it may take until the tunnel stands.
pub const CONNECT_TIMEOUT_SECS: u64 = 10;

/// What a tunnel connects to.
#[derive(Debug, PartialEq, Eq)]
pub struct Endpoint {
    /// The URL that the WebSocket handshake asks for.
    pub url: String,
    /// The host name for TLS.
    pub host: String,
    /// The address and the port for TCP; no name has to be resolved.
    pub target: String,
    /// The WebSocket subprotocol.
    pub protocol: &'static str,
}

/// The address and the port of a data centre.
pub open spec fn target_of_dc(dc: u8) -> Seq<char> {
    address_of_dc(dc).dotted() + ":"@ + decimal(WS_PORT as nat)
}

/// The address and the port of a data centre.
pub fn dc_target(dc: u8) -> (s: String)
    ensures
        s@ == target_of_dc(dc),
{
    let mut s = String::from_str(dc_ip(dc));
    s.append(":");
    push_decimal(&mut s, WS_PORT as u128);
    s
}

/// What the tunnel to a data centre connects to.
pub fn endpoint(dc: u8) -> (e: Endpoint)
    ensures
        e.url@ == url_of_dc(dc),
        e.host@ == host_of_dc(dc),
        e.target@ == target_of_dc(dc),
        e.protocol@ == "binary"@,
{
    Endpoint { url: ws_url(dc), host: ws_host(dc), target: dc_target(dc), protocol: "binary" }
}

impl Endpoint {
    /// What is noted before the tunnel is set up, in words, if every connection is reported.
    pub open spec fn connecting_words(self, verbose: bool) -> Option<Seq<char>> {
        if verbose {
            Some("ws connecting to "@ + self.url@ + " ("@ + self.target@ + ")..."@)
        } else {
            None
        }
    }

    /// What is noted before the tunnel is set up, in words.
    pub fn connecting_note(&self, verbose: bool) -> (n: Option<String>)
        ensures
            match self.connecting_words(verbose) {
                Some(words) => n matches Some(s) && s@ == words,
                None => n is None,
            },
    {
        if !verbose {
            return None;
        }
        let mut s = String::from_str("ws connecting to ");
        s.append(self.url.as_str());
        s.append(" (");
        s.append(self.target.as_str());
        s.append(")...");
        Some(s)
    }

    /// What is noted once the tunnel stands, in words; `status` is that of the server's answer.
    pub open spec fn connected_words(self, status: Seq<char>) -> Seq<char> {
        "ws connected "@ + self.url@ + " (status: "@ + status + ")"@
    }

    /// What is noted once the tunnel stands, in words; `status` is that of the server's answer.
    pub fn connected_note(&self, status: &str) -> (s: String)
        ensures
            s@ == self.connected_words(status@),
    {
        let mut s = String::from_str("ws connected ");
        s.append(self.url.as_str());
        s.append(" (status: ");
        s.append(status);
        s.append(")");
        s
    }
}

/// A step on the way to a tunnel.
#[derive(Debug, PartialEq, Eq)]
pub enum DialStep {
    /// Write the request for the WebSocket handshake.
    Request,
    /// Connect to the data centre's address.
    Tcp,
    /// Send small packets without delay.
    NoDelay,
    /// Set up TLS, without verification of certificates.
    TlsSetup,
    /// Go through the TLS handshake.
    TlsHandshake,
    /// Go through the WebSocket handshake.
    WsHandshake,
    /// The tunnel stands.
    Connected,
    /// There will be no tunnel; the text says why.
    Failed(String),
}

/// How a step went.
#[derive(Debug, PartialEq, Eq)]
pub enum DialEvent {
    Done,
    Failed(String),
    /// The time for all the steps after the request is over.
    TimedOut,
}

/// The way to a tunnel.
#[derive(Debug, PartialEq, Eq)]
pub struct Dial {
    pub dc: u8,
    pub step: DialStep,
}

impl Dial {
    /// The way to the tunnel to a data centre.
    pub fn new(dc: u8) -> (d: Dial)
        ensures
            d == (Dial { dc, step: DialStep::Request }),
    {
        Dial { dc, step: DialStep::Request }
    }

    /// Whether `event` can happen at this step.
    pub open spec fn awaits(self, event: DialEvent) -> bool {
        match self.step {
            DialStep::Connected | DialStep::Failed(_) => false,
            DialStep::Request => !(event is TimedOut),
            _ => true,
        }
    }

    /// Whether `event` can happen at this step.
    pub fn expects(&self, event: &DialEvent) -> (r: bool)
        ensures
            r == self.awaits(*event),
    {
        match &self.step {
            DialStep::Connected | DialStep::Failed(_) => false,
            DialStep::Request => match event {
                DialEvent::TimedOut => false,
                _ => true,
            },
            _ => true,
        }
    }

    /// The step after this one.
    pub open spec fn following(step: DialStep) -> DialStep {
        match step {
            DialStep::Request => DialStep::Tcp,
            DialStep::Tcp => DialStep::NoDelay,
            DialStep::NoDelay => DialStep::TlsSetup,
            DialStep::TlsSetup => DialStep::TlsHandshake,
            DialStep::TlsHandshake => DialStep::WsHandshake,
            _ => DialStep::Connected,
        }
    }

    /// What is said of a step that failed.
    pub open spec fn failure(self, cause: Seq<char>) -> Seq<char> {
        let failed = "WS connect to "@ + url_of_dc(self.dc) + " failed: "@;
        match self.step {
            DialStep::Request => cause,
            DialStep::Tcp => failed + "TCP "@ + target_of_dc(self.dc) + ": "@ + cause,
            DialStep::TlsSetup => failed + "TLS: "@ + cause,
            DialStep::TlsHandshake => failed + "TLS to "@ + host_of_dc(self.dc) + " ("@
                + address_of_dc(self.dc).dotted() + "): "@ + cause,
            _ => failed + cause,
        }
    }

    /// What is said when the time is over.
    pub open spec fn timeout(self) -> Seq<char> {
        "WS connect to "@ + url_of_dc(self.dc) + " timed out ("@ + decimal(
            CONNECT_TIMEOUT_SECS as nat,
        ) + "s)"@
    }

    /// Whether `event` leads from this step to `next`.
    pub open spec fn leads_to(self, event: DialEvent, next: Dial) -> bool {
        &&& next.dc == self.dc
        &&& match event {
            DialEvent::Done => next.step == Dial::following(self.step),
            DialEvent::Failed(cause) => next.step matches DialStep::Failed(text) && text@
                == self.failure(cause@),
            DialEvent::TimedOut => next.step matches DialStep::Failed(text) && text@
                == self.timeout(),
        }
    }

    /// What is said of a step that failed.
    fn failure_text(&self, cause: String) -> (s: String)
        ensures
            s@ == self.failure(cause@),
    {
        let mut s = String::from_str("WS connect to ");
        s.append(ws_url(self.dc).as_str());
        s.append(" failed: ");
        match &self.step {
            DialStep::Request => return cause,
            DialStep::Tcp => {
                s.append("TCP ");
                s.append(dc_target(self.dc).as_str());
                s.append(": ");
            },
            DialStep::TlsSetup => {
                s.append("TLS: ");
            },
            DialStep::TlsHandshake => {
                s.append("TLS to ");
                s.append(ws_host(self.dc).as_str());
                s.append(" (");
                s.append(dc_ip(self.dc));
                s.append("): ");
            },
            _ => {},
        }
        s.append(cause.as_str());
        s
    }

    /// The step to which an event leads.
    pub fn advance(self, event: DialEvent) -> (next: Dial)
        requires
            self.awaits(event),
        ensures
            self.leads_to(event, next),
    {
        let step = match event {
            DialEvent::Done => match self.step {
                DialStep::Request => DialStep::Tcp,
                DialStep::Tcp => DialStep::NoDelay,
                DialStep::NoDelay => DialStep::TlsSetup,
                DialStep::TlsSetup => DialStep::TlsHandshake,
                DialStep::TlsHandshake => DialStep::WsHandshake,
                _ => DialStep::Connected,
            },
            DialEvent::Failed(cause) => DialStep::Failed(self.failure_text(cause)),
            DialEvent::TimedOut => {
                let mut s = String::from_str("WS connect to ");
                s.append(ws_url(self.dc).as_str());
                s.append(" timed out (");
                push_decimal(&mut s, CONNECT_TIMEOUT_SECS as u128);
                s.append("s)");
                DialStep::Failed(s)
            },
        };
        Dial { dc: self.dc, step }
    }

    /// Why there is no tunnel, if a step failed.
    pub fn outcome(self) -> (r: Result<(), String>)
        ensures
            r == match self.step {
                DialStep::Failed(text) => Err::<(), String>(text),
                _ => Ok(()),
            },
    {
        match self.step {
            DialStep::Failed(text) => Err(text),
            _ => Ok(()),
        }
    }
}

/// Every failure on the way names the endpoint, but for one of the request itself.
pub proof fn lemma_failure_names_endpoint(dial: Dial, cause: Seq<char>)
    requires
        !(dial.step is Request),
    ensures
        ("WS connect to "@ + url_of_dc(dial.dc)).is_prefix_of(dial.failure(cause)),
        ("WS connect to "@ + url_of_dc(dial.dc)).is_prefix_of(dial.timeout()),
{
    let start = "WS connect to "@ + url_of_dc(dial.dc);
    assert(start =~= dial.failure(cause).subrange(0, start.len() as int));
    assert(start =~= dial.timeout().subrange(0, start.len() as int));
}

/// A tunnel connects to the very address of its data centre, at port 443, so that no name has to be
/// resolved.
pub proof fn lemma_target_is_the_data_centre(dc: u8, addr: &'static str, target: String)
    requires
        call_ensures(dc_ip, (dc,), addr),
        call_ensures(dc_target, (dc,), target),
    ensures
        call_requires(dc_target, (dc,)),
        target@ == addr@ + seq![':', '4', '4', '3'],
        target@ == address_of_dc(dc).dotted() + seq![':', '4', '4', '3'],
        target@ == target_of_dc(dc),
        WS_PORT == 443,
{
    lemma_port_text();
    assert(target@ =~= addr@ + seq![':', '4', '4', '3']);
}

/// The port as text.
proof fn lemma_port_text()
    ensures
        ":"@ + decimal(WS_PORT as nat) == seq![':', '4', '4', '3'],
{
    reveal_strlit(":");
    reveal_with_fuel(decimal, 3);
    assert(":"@ + decimal(WS_PORT as nat) =~= seq![':', '4', '4', '3']);
}

/// The targets as they are: one for each of data centres 1, 3 and 5, and one for all the rest.
pub proof fn lemma_targets(dc: u8, target: String)
    requires
        call_ensures(dc_target, (dc,), target),
    ensures
        call_requires(dc_target, (dc,)),
        dc == 1 ==> target@ == "149.154.175.50:443"@,
        dc == 3 ==> target@ == "149.154.174.100:443"@,
        dc == 5 ==> target@ == "91.108.56.190:443"@,
        dc != 1 && dc != 3 && dc != 5 ==> target@ == "149.154.167.220:443"@,
{
    lemma_port_text();
    reveal_with_fuel(decimal, 3);
    reveal_strlit("149.154.175.50:443");
    reveal_strlit("149.154.167.220:443");
    reveal_strlit("149.154.174.100:443");
    reveal_strlit("91.108.56.190:443");
    assert(target@ =~= address_of_dc(dc).dotted() + seq![':', '4', '4', '3']);
    assert("149.154.175.50:443"@ =~= address_of_dc(1).dotted() + seq![':', '4', '4', '3']);
    assert("149.154.174.100:443"@ =~= address_of_dc(3).dotted() + seq![':', '4', '4', '3']);
    assert("91.108.56.190:443"@ =~= address_of_dc(5).dotted() + seq![':', '4', '4', '3']);
    assert("149.154.167.220:443"@ =~= address_of_dc(2).dotted() + seq![':', '4', '4', '3']);
}

/// All parts of an endpoint belong to the same data centre: the host and the URL carry its number,
/// and the target is its address. The subprotocol is `binary`.
pub proof fn lemma_endpoint_is_of_one_dc(dc: u8, e: Endpoint)
    requires
        call_ensures(endpoint, (dc,), e),
    ensures
        call_requires(endpoint, (dc,)),
        e.host@ == "kws"@ + decimal(dc as nat) + ".web.telegram.org"@,
        e.url@ == "wss://kws"@ + decimal(dc as nat) + ".web.telegram.org/apiws"@,
        e.target@ == address_of_dc(dc).dotted() + seq![':', '4', '4', '3'],
        e.protocol@ == "binary"@,
{
    lemma_port_text();
    assert(e.target@ =~= address_of_dc(dc).dotted() + seq![':', '4', '4', '3']);
}

/// How many steps lie behind.
pub open spec fn steps_done(step: DialStep) -> int {
    match step {
        DialStep::Request => 0,
        DialStep::Tcp => 1,
        DialStep::NoDelay => 2,
        DialStep::TlsSetup => 3,
        DialStep::TlsHandshake => 4,
        DialStep::WsHandshake => 5,
        DialStep::Connected => 6,
        DialStep::Failed(_) => -1,
    }
}

/// The way to a tunnel starts with the request and takes the steps one after the other, none left
/// out: what is done brings it exactly one step further, to the same data centre.
pub proof fn lemma_steps_in_order(dc: u8, start: Dial, dial: Dial, next: Dial)
    requires
        call_ensures(Dial::new, (dc,), start),
        call_ensures(Dial::advance, (dial, DialEvent::Done), next),
        0 <= steps_done(dial.step) < 6,
    ensures
        call_requires(Dial::new, (dc,)),
        start.dc == dc && steps_done(start.step) == 0,
        call_requires(Dial::advance, (dial, DialEvent::Done)),
        steps_done(next.step) == steps_done(dial.step) + 1,
        next.dc == dial.dc,
{
}

/// Any step can fail, and then there is no tunnel. What is said names the endpoint, but for a failure
/// of the request itself, and what failed; it ends with the cause.
pub proof fn lemma_failed_step(dial: Dial, cause: String, next: Dial)
    requires
        call_ensures(Dial::advance, (dial, DialEvent::Failed(cause)), next),
        0 <= steps_done(dial.step) < 6,
    ensures
        call_requires(Dial::advance, (dial, DialEvent::Failed(cause))),
        next.dc == dial.dc,
        ({
            let number = decimal(dial.dc as nat);
            let failed = "WS connect to "@ + ("wss://kws"@ + number + ".web.telegram.org/apiws"@)
                + " failed: "@;
            &&& next.step matches DialStep::Failed(text)
            &&& text@ == match dial.step {
                DialStep::Request => cause@,
                DialStep::Tcp => failed + "TCP "@ + (address_of_dc(dial.dc).dotted() + seq![
                    ':',
                    '4',
                    '4',
                    '3',
                ]) + ": "@ + cause@,
                DialStep::TlsSetup => failed + "TLS: "@ + cause@,
                DialStep::TlsHandshake => failed + "TLS to "@ + ("kws"@ + number
                    + ".web.telegram.org"@) + " ("@ + address_of_dc(dial.dc).dotted() + "): "@
                    + cause@,
                _ => failed + cause@,
            }
        }),
{
    lemma_port_text();
    assert(target_of_dc(dial.dc) =~= address_of_dc(dial.dc).dotted() + seq![':', '4', '4', '3']);
}

/// All the steps after the request have ten seconds together.
pub proof fn lemma_time_is_over(dial: Dial, next: Dial)
    requires
        call_ensures(Dial::advance, (dial, DialEvent::TimedOut), next),
        1 <= steps_done(dial.step) < 6,
    ensures
        call_requires(Dial::advance, (dial, DialEvent::TimedOut)),
        next.dc == dial.dc,
        next.step matches DialStep::Failed(text) && text@ == "WS connect to "@ + ("wss://kws"@
            + decimal(dial.dc as nat) + ".web.telegram.org/apiws"@) + " timed out (10s)"@,
        CONNECT_TIMEOUT_SECS == 10,
{
    reveal_with_fuel(decimal, 2);
    reveal_strlit(" timed out (10s)");
    reveal_strlit(" timed out (");
    reveal_strlit("s)");
    let url = url_of_dc(dial.dc);
    assert("WS connect to "@ + url + " timed out (10s)"@ =~= dial.timeout());
}

/// Until there is a tunnel or a failure, the outcome of a step is awaited; the time runs from the
/// request on.
pub proof fn lemma_what_the_dial_awaits(dial: Dial, event: DialEvent, r: bool)
    requires
        call_ensures(Dial::expects, (&dial, &event), r),
    ensures
        call_requires(Dial::expects, (&dial, &event)),
        r <==> 0 <= steps_done(dial.step) < 6 && (event is TimedOut ==> steps_done(dial.step) > 0),
{
}

/// There is a reason exactly if a step failed, and it is the one that was given.
pub proof fn lemma_dial_outcome(dial: Dial, r: Result<(), String>)
    requires
        call_ensures(Dial::outcome, (dial,), r),
    ensures
        call_requires(Dial::outcome, (dial,)),
        r is Err <==> dial.step is Failed,
        dial.step matches DialStep::Failed(text) ==> r == Err::<(), String>(text),
{
}

/// What is noted of a tunnel names its endpoint: before it is set up, if every connection is
/// reported, with the target; and once it stands, with the server's status.
pub proof fn lemma_endpoint_notes(
    e: Endpoint,
    verbose: bool,
    n: Option<String>,
    status: &str,
    s: String,
)
    requires
        call_ensures(Endpoint::connecting_note, (&e, verbose), n),
        call_ensures(Endpoint::connected_note, (&e, status), s),
    ensures
        call_requires(Endpoint::connecting_note, (&e, verbose)),
        call_requires(Endpoint::connected_note, (&e, status)),
        n is Some <==> verbose,
        n matches Some(t) ==> t@ == "ws connecting to "@ + e.url@ + " ("@ + e.target@ + ")..."@,
        s@ == "ws connected "@ + e.url@ + " (status: "@ + status@ + ")"@,
{
}

} // verus!

//! The loop that accepts connections.
//!
//! [`Listener`] is a state machine over the counters of the proxy. Its state says what to do next;
//! the outcome of that ([`ListenEvent`]) leads to the next state ([`Listener::advance`]).

use vstd::prelude::*;

use crate::stats::ProxyStats;
use crate::text::{decimal, push_decimal};

verus! {

/// The address on which the proxy listens unless it is told otherwise.
pub const LOCAL_BIND: &'static str = "127.0.0.1";

/// How many milliseconds a wait for a connection takes before the proxy looks whether it is to
/// stop.
pub const ACCEPT_WAIT_MILLIS: u64 = 200;

/// The address on which the proxy listens.
pub open spec fn listen_text(bind: Seq<char>, port: u16) -> Seq<char> {
    bind + ":"@ + decimal(port as nat)
}

/// The address on which the proxy listens.
pub fn listen_target(bind: &str, port: u16) -> (s: String)
    ensures
        s@ == listen_text(bind@, port),
{
    let mut s = String::from_str(bind);
    s.append(":");
    push_decimal(&mut s, port as u128);
    s
}

/// The link with which Telegram takes the proxy into use.
pub open spec fn link_text(bind: Seq<char>, port: u16) -> Seq<char> {
    "tg://socks?server="@ + bind + "&port="@ + decimal(port as nat)
}

/// The link with which Telegram takes the proxy into use.
pub fn proxy_link(bind: &str, port: u16) -> (s: String)
    ensures
        s@ == link_text(bind@, port),
{
    let mut s = String::from_str("tg://socks?server=");
    s.append(bind);
    s.append("&port=");
    push_decimal(&mut s, port as u128);
    s
}

/// What is noted when the proxy listens on `target`; `log` is where the log is kept.
pub open spec fn listening_words(target: Seq<char>, log: Seq<char>) -> Seq<char> {
    "SOCKS5 proxy listening on "@ + target + " (direct WSS, log: "@ + log + ")"@
}

/// What is noted when the proxy listens on `target`; `log` is where the log is kept.
pub fn listening_note(target: &str, log: &str) -> (s: String)
    ensures
        s@ == listening_words(target@, log@),
{
    let mut s = String::from_str("SOCKS5 proxy listening on ");
    s.append(target);
    s.append(" (direct WSS, log: ");
    s.append(log);
    s.append(")");
    s
}

/// What is noted when a connection could not be accepted.
pub fn accept_failure_note(cause: &str) -> (s: String)
    ensures
        s@ == "accept error: "@ + cause@,
{
    let mut s = String::from_str("accept error: ");
    s.append(cause);
    s
}

/// What is said when the port cannot be had.
pub open spec fn bind_failure(port: u16, cause: Seq<char>) -> Seq<char> {
    "Не удалось занять порт "@ + decimal(port as nat) + ": "@ + cause
}

/// The state of the loop.
#[derive(Debug, PartialEq, Eq)]
pub enum Listener {
    /// The port is to be taken.
    Binding { port: u16 },
    /// A connection is awaited, for a short time.
    Accepting,
    /// The loop is over.
    Finished(Result<(), String>),
}

/// How it went.
#[derive(Debug, PartialEq, Eq)]
pub enum ListenEvent {
    /// The port is taken.
    Bound,
    /// The port cannot be had.
    BindFailed(String),
    /// A client has connected.
    Accepted,
    /// A connection could not be accepted.
    AcceptFailed(String),
    /// The time is over.
    Idle,
}

impl Listener {
    /// Whether `event` can happen in this state, with the counters as they are.
    pub open spec fn awaits(self, stats: ProxyStats, event: ListenEvent) -> bool {
        match event {
            ListenEvent::Bound | ListenEvent::BindFailed(_) => self is Binding,
            ListenEvent::Accepted => self is Accepting && stats.total_conn < u32::MAX,
            ListenEvent::AcceptFailed(_) | ListenEvent::Idle => self is Accepting,
        }
    }

    /// Whether `event` can happen in this state, with the counters as they are.
    pub fn expects(&self, stats: &ProxyStats, event: &ListenEvent) -> (r: bool)
        ensures
            r == self.awaits(*stats, *event),
    {
        match event {
            ListenEvent::Bound | ListenEvent::BindFailed(_) => match self {
                Listener::Binding { .. } => true,
                _ => false,
            },
            ListenEvent::Accepted => match self {
                Listener::Accepting => stats.total_conn < u32::MAX,
                _ => false,
            },
            ListenEvent::AcceptFailed(_) | ListenEvent::Idle => match self {
                Listener::Accepting => true,
                _ => false,
            },
        }
    }

    /// The counters after an event.
    pub open spec fn counted(stats: ProxyStats, event: ListenEvent) -> ProxyStats {
        match event {
            ListenEvent::Bound => ProxyStats { running: true, ..stats },
            ListenEvent::Accepted => stats.accepted(),
            _ => stats,
        }
    }

    /// Whether `event` leads from this state to `next`, with the counters as they are.
    pub open spec fn leads_to(self, stats: ProxyStats, event: ListenEvent, next: Listener) -> bool {
        match (self, event) {
            (Listener::Binding { port }, ListenEvent::BindFailed(cause)) => {
                next matches Listener::Finished(Err(text)) && text@ == bind_failure(port, cause@)
            },
            _ => if Listener::counted(stats, event).running {
                next == Listener::Accepting
            } else {
                next == Listener::Finished(Ok(()))
            },
        }
    }

    /// Counts an event and gives the state to which it leads: the loop goes on until the proxy is
    /// told to stop. For a connection that was accepted, its number comes with it.
    pub fn advance(self, stats: &mut ProxyStats, event: ListenEvent) -> (r: (
        Listener,
        Option<u32>,
    ))
        requires
            self.awaits(*old(stats), event),
        ensures
            self.leads_to(*old(stats), event, r.0),
            *final(stats) == Listener::counted(*old(stats), event),
            r.0 == Listener::Finished(Ok(())) ==> !final(stats).running,
            r.1 == if event is Accepted {
                Some((old(stats).total_conn + 1) as u32)
            } else {
                None::<u32>
            },
    {
        let mut conn_id: Option<u32> = None;
        match (self, event) {
            (Listener::Binding { port }, ListenEvent::BindFailed(cause)) => {
                let mut s = String::from_str("Не удалось занять порт ");
                push_decimal(&mut s, port as u128);
                s.append(": ");
                s.append(cause.as_str());
                return (Listener::Finished(Err(s)), None);
            },
            (_, ListenEvent::Bound) => {
                stats.running = true;
            },
            (_, ListenEvent::Accepted) => {
                conn_id = Some(stats.accept());
            },
            _ => {},
        }
        let next = if stats.running {
            Listener::Accepting
        } else {
            Listener::Finished(Ok(()))
        };
        (next, conn_id)
    }
}

/// A proxy that is told to stop stops, and only then: whatever happens while a connection is
/// awaited, be it that nothing happens for a while, the loop goes on exactly if the proxy is running.
pub proof fn lemma_told_to_stop(
    stats: &mut ProxyStats,
    event: ListenEvent,
    r: (Listener, Option<u32>),
)
    requires
        call_ensures(Listener::advance, (Listener::Accepting, stats, event), r),
        event is Accepted || event is AcceptFailed || event is Idle,
    ensures
        old(stats).running ==> r.0 == Listener::Accepting,
        !old(stats).running ==> r.0 == Listener::Finished(Ok(())),
        final(stats).running == old(stats).running,
        ACCEPT_WAIT_MILLIS == 200,
{
}

/// A connection that comes in is counted and gets the next number, also if it is the last one; when
/// none comes in, nothing is counted and no number given.
pub proof fn lemma_connections_are_numbered(
    stats: &mut ProxyStats,
    event: ListenEvent,
    r: (Listener, Option<u32>),
)
    requires
        call_ensures(Listener::advance, (Listener::Accepting, stats, event), r),
        event is Accepted ==> old(stats).total_conn < u32::MAX,
    ensures
        event is Accepted ==> {
            &&& r.1 matches Some(conn_id)
            &&& conn_id == old(stats).total_conn + 1
            &&& final(stats).total_conn == conn_id
            &&& final(stats).active_conn == (old(stats).active_conn + 1) % 0x1_0000_0000
        },
        !(event is Accepted) ==> {
            &&& r.1 is None
            &&& final(stats).total_conn == old(stats).total_conn
            &&& final(stats).active_conn == old(stats).active_conn
        },
        final(stats).ws_active == old(stats).ws_active,
        final(stats).verbose == old(stats).verbose,
{
}

/// A proxy that has its port runs and accepts connections. One that cannot have it ends with the
/// reason, and its counters are untouched.
pub proof fn lemma_port_is_taken_or_not(
    port: u16,
    stats: &mut ProxyStats,
    event: ListenEvent,
    r: (Listener, Option<u32>),
)
    requires
        call_ensures(Listener::advance, (Listener::Binding { port }, stats, event), r),
        event is Bound || event is BindFailed,
    ensures
        r.1 is None,
        event is Bound ==> r.0 == Listener::Accepting && final(stats).running,
        event matches ListenEvent::BindFailed(cause) ==> {
            &&& r.0 matches Listener::Finished(Err(text))
            &&& text@ == "Не удалось занять порт "@ + decimal(port as nat) + ": "@ + cause@
            &&& final(stats).running == old(stats).running
        },
        final(stats).total_conn == old(stats).total_conn,
        final(stats).active_conn == old(stats).active_conn,
        final(stats).ws_active == old(stats).ws_active,
        final(stats).verbose == old(stats).verbose,
{
}

/// The outcome of taking the port is awaited at first, and everything else after that; a connection
/// can be accepted as long as there is a number for it. A loop that is over awaits nothing.
pub proof fn lemma_what_the_listener_awaits(
    listener: Listener,
    stats: &mut ProxyStats,
    event: ListenEvent,
    r: bool,
)
    requires
        call_ensures(Listener::expects, (&listener, old(stats), &event), r),
    ensures
        r ==> call_requires(Listener::advance, (listener, stats, event)),
        listener is Binding ==> (r <==> event is Bound || event is BindFailed),
        listener is Accepting ==> (r <==> event is AcceptFailed || event is Idle || (event is Accepted
            && old(stats).total_conn < u32::MAX)),
        listener is Finished ==> !r,
{
}

/// Where the proxy is found: its address is the bound one and the port with a colon between them,
/// and the link for Telegram names both. Unless it is told otherwise, only this machine finds it.
pub proof fn lemma_where_the_proxy_is_found(bind: &str, port: u16, target: String, link: String)
    requires
        call_ensures(listen_target, (bind, port), target),
        call_ensures(proxy_link, (bind, port), link),
    ensures
        call_requires(listen_target, (bind, port)),
        call_requires(proxy_link, (bind, port)),
        target@ == bind@ + seq![':'] + decimal(port as nat),
        link@ == "tg://socks?server="@ + bind@ + "&port="@ + decimal(port as nat),
        LOCAL_BIND@ == "127.0.0.1"@,
{
    reveal_strlit(":");
    assert(":"@ =~= seq![':']);
}

/// What is noted of the loop names where the proxy listens and where the log is, or why a connection
/// could not be accepted.
pub proof fn lemma_listener_notes(target: &str, log: &str, s: String, cause: &str, t: String)
    requires
        call_ensures(listening_note, (target, log), s),
        call_ensures(accept_failure_note, (cause,), t),
    ensures
        call_requires(listening_note, (target, log)),
        call_requires(accept_failure_note, (cause,)),
        s@ == "SOCKS5 proxy listening on "@ + target@ + " (direct WSS, log: "@ + log@ + ")"@,
        t@ == "accept error: "@ + cause@,
{
}

} // verus!

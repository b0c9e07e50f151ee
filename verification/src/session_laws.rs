//! What holds of every session from its start to its end.

use vstd::prelude::*;
use vstd::utf8::{decode_utf8, valid_utf8};

use crate::ipv4::Ipv4Addr;
use crate::ipv6::{ipv6_of_text, ipv6_text, lemma_ipv6_is_not_ipv4, lemma_ipv6_text_reads_back};
use crate::obfuscated2::{
    announcement, known_tag, lemma_announcement_is_understood, lemma_spelled_is_read, name_of_tag,
    opened, sealed, spells, InitResult,
};
use crate::session::{
    chosen_dc, greeting_reply, is_connect, refusal_reply, route_init, success_reply, tunnel_note,
    Dest, Session, SessionAction, SessionError, SessionEvent,
};
use crate::socks5::{dest_of, segments, DestError};
use crate::stats::ProxyStats;
use crate::telegram::{
    dc_of_host, lemma_spelled_host_is_telegram, lemma_telegram_host_has_dc, lemma_telegram_octets,
    telegram_host,
};
use crate::text::{decimal, hex_byte, hex_word, signed};
use crate::utf8::{bad_sequence_len, lemma_valid_start};

verus! {

/// Whether a session goes through these states by these events.
pub open spec fn is_run(states: Seq<Session>, events: Seq<SessionEvent>) -> bool {
    &&& states.len() == events.len() + 1
    &&& states[0] == Session::Start
    &&& forall|i: int|
        0 <= i < events.len() ==> states[i].awaits(#[trigger] events[i]) && states[i].leads_to(
            events[i],
            states[i + 1],
        )
}

/// What a state sends to the client.
pub open spec fn answer(state: Session) -> Seq<u8> {
    match state {
        Session::GreetingReply => greeting_reply(),
        Session::Refusal { .. } => refusal_reply(),
        Session::SuccessReply { .. } => success_reply(),
        _ => seq![],
    }
}

/// All that the session itself has sent to the client.
pub open spec fn sent(states: Seq<Session>, events: Seq<SessionEvent>) -> Seq<u8>
    decreases events.len(),
{
    if events.len() == 0 {
        seq![]
    } else {
        let n = events.len() - 1;
        sent(states.drop_last(), events.drop_last()) + if events[n] is Done {
            answer(states[n])
        } else {
            seq![]
        }
    }
}

/// Whether the client asked for this destination.
pub open spec fn asked(events: Seq<SessionEvent>, dest: Dest) -> bool {
    exists|i: int|
        0 <= i < events.len() && {
            &&& #[trigger] events[i] matches SessionEvent::Received { buf, len }
            &&& is_connect(buf@, len)
            &&& dest_of(buf@.subrange(3, len as int)) == Ok::<(Seq<char>, u16), DestError>(
                (dest.host@, dest.port),
            )
        }
}

/// Whether the client sent this first packet.
pub open spec fn sent_init(events: Seq<SessionEvent>, init: [u8; 64]) -> bool {
    exists|i: int| 0 <= i < events.len() && #[trigger] events[i] == SessionEvent::ReceivedInit(init)
}

/// The answers that a client has when its session is in `state`.
pub open spec fn answers_in(state: Session, bytes: Seq<u8>) -> bool {
    match state {
        Session::Start | Session::Greeting | Session::GreetingReply => bytes == Seq::<u8>::empty(),
        Session::Request | Session::Refusal { .. } | Session::SuccessReply { .. } => {
            bytes == greeting_reply()
        },
        Session::Init { .. }
        | Session::Tunnel { .. }
        | Session::DirectConnect { .. }
        | Session::DirectInit { .. }
        | Session::PlainConnect { .. }
        | Session::Passthrough { .. } => bytes == greeting_reply() + success_reply(),
        Session::Finished(Err(SessionError::NotSocks5 { .. })) => bytes == Seq::<u8>::empty(),
        Session::Finished(Err(SessionError::BadConnect { .. })) => {
            bytes == greeting_reply() + refusal_reply()
        },
        Session::Finished(Err(SessionError::Dest(_))) => bytes == greeting_reply(),
        Session::Finished(Err(SessionError::Io(_))) => {
            ||| bytes == Seq::<u8>::empty()
            ||| bytes == greeting_reply()
            ||| bytes == greeting_reply() + success_reply()
        },
        Session::Finished(_) => bytes == greeting_reply() + success_reply(),
    }
}

/// Where the data of a state come from, and what is known of its destination.
pub open spec fn honest(state: Session, events: Seq<SessionEvent>) -> bool {
    match state {
        Session::Refusal { error } => error is BadConnect,
        Session::SuccessReply { dest, telegram } => {
            asked(events, dest) && telegram == telegram_host(dest.host@)
        },
        Session::Init { dest } => asked(events, dest) && telegram_host(dest.host@),
        Session::Tunnel { dest, dc, init, ip_dc, .. } => {
            &&& asked(events, dest)
            &&& telegram_host(dest.host@)
            &&& sent_init(events, init)
            &&& 1 <= dc <= 5
            &&& ip_dc is Some
        },
        Session::DirectConnect { dest, init, .. } => {
            asked(events, dest) && telegram_host(dest.host@) && sent_init(events, init)
        },
        Session::DirectInit { init } => sent_init(events, init),
        Session::PlainConnect { dest } => asked(events, dest) && !telegram_host(dest.host@),
        _ => true,
    }
}

/// How far a session has come.
pub open spec fn progress(state: Session) -> nat {
    match state {
        Session::Start => 0,
        Session::Greeting => 1,
        Session::GreetingReply => 2,
        Session::Request => 3,
        Session::Refusal { .. } => 4,
        Session::SuccessReply { .. } => 4,
        Session::Init { .. } => 5,
        Session::Tunnel { .. } => 6,
        Session::DirectConnect { .. } => 6,
        Session::DirectInit { .. } => 7,
        Session::PlainConnect { .. } => 5,
        Session::Passthrough { .. } => 8,
        Session::Finished(_) => 9,
    }
}

/// The part of a run before its last event is a run.
proof fn lemma_run_before(states: Seq<Session>, events: Seq<SessionEvent>)
    requires
        is_run(states, events),
        events.len() > 0,
    ensures
        is_run(states.drop_last(), events.drop_last()),
        states.drop_last().last() == states[events.len() - 1],
        states[events.len() - 1].awaits(events.last()),
        states[events.len() - 1].leads_to(events.last(), states.last()),
{
    let n = events.len() - 1;
    assert(events[n] == events.last());
    assert forall|i: int| 0 <= i < n implies states.drop_last()[i].awaits(
        #[trigger] events.drop_last()[i],
    ) && states.drop_last()[i].leads_to(events.drop_last()[i], states.drop_last()[i + 1]) by {
        assert(events.drop_last()[i] == events[i]);
    }
}

/// What a client is answered. A client that does not speak SOCKS5 gets no answer. A request that is
/// no CONNECT is answered that the command is not supported. A request whose destination cannot be
/// read gets no answer beyond that to the greeting. Every other client has been told that its
/// request is granted by the time its destination is connected.
pub proof fn lemma_answers(states: Seq<Session>, events: Seq<SessionEvent>)
    requires
        is_run(states, events),
    ensures
        answers_in(states.last(), sent(states, events)),
    decreases events.len(),
{
    if events.len() > 0 {
        lemma_run_before(states, events);
        lemma_answers(states.drop_last(), events.drop_last());
        lemma_honest(states.drop_last(), events.drop_last());
        let n = events.len() - 1;
        let before = sent(states.drop_last(), events.drop_last());
        assert(before + Seq::<u8>::empty() =~= before);
        assert(Seq::<u8>::empty() + greeting_reply() =~= greeting_reply());
        assert(answer(states[n]).len() == 0 ==> answer(states[n]) =~= Seq::<u8>::empty());
    }
}

/// A destination stays asked for, and a first packet sent, when more happens.
proof fn lemma_more_events(events: Seq<SessionEvent>, event: SessionEvent)
    ensures
        forall|dest: Dest| asked(events, dest) ==> #[trigger] asked(events.push(event), dest),
        forall|init: [u8; 64]|
            sent_init(events, init) ==> #[trigger] sent_init(events.push(event), init),
{
    let more = events.push(event);
    assert(forall|i: int| 0 <= i < events.len() ==> events[i] == #[trigger] more[i]);
    assert forall|dest: Dest| asked(events, dest) implies #[trigger] asked(more, dest) by {
        let i = choose|i: int|
            0 <= i < events.len() && {
                &&& #[trigger] events[i] matches SessionEvent::Received { buf, len }
                &&& is_connect(buf@, len)
                &&& dest_of(buf@.subrange(3, len as int)) == Ok::<(Seq<char>, u16), DestError>(
                    (dest.host@, dest.port),
                )
            };
        assert(more[i] == events[i]);
    }
    assert forall|init: [u8; 64]| sent_init(events, init) implies #[trigger] sent_init(
        more,
        init,
    ) by {
        let i = choose|i: int|
            0 <= i < events.len() && #[trigger] events[i] == SessionEvent::ReceivedInit(init);
        assert(more[i] == events[i]);
    }
}

/// A session goes only where its client asked to go, and hands on the client's first packet as it
/// is. The tunnel is for destinations of Telegram alone and leads to a data centre from 1 to 5,
/// which the address can always suggest; no other destination waits for a first packet.
pub proof fn lemma_honest(states: Seq<Session>, events: Seq<SessionEvent>)
    requires
        is_run(states, events),
    ensures
        honest(states.last(), events),
    decreases events.len(),
{
    if events.len() > 0 {
        lemma_run_before(states, events);
        lemma_honest(states.drop_last(), events.drop_last());
        let before = events.drop_last();
        let state = states.drop_last().last();
        let event = events.last();
        lemma_more_events(before, event);
        assert(before.push(event) =~= events);
        assert(events[events.len() - 1] == event);
        if let Session::Init { dest } = state {
            lemma_telegram_host_has_dc(dest.host@);
        }
    }
}

/// Every event brings a session further, so that it ends after nine of them at the latest.
pub proof fn lemma_session_ends(states: Seq<Session>, events: Seq<SessionEvent>)
    requires
        is_run(states, events),
    ensures
        events.len() <= progress(states.last()) <= 9,
        events.len() == 9 ==> states.last() is Finished,
    decreases events.len(),
{
    if events.len() > 0 {
        lemma_run_before(states, events);
        lemma_session_ends(states.drop_last(), events.drop_last());
    }
}

/// A session that has not ended can always go on: some event is awaited in its state.
pub proof fn lemma_session_goes_on(state: Session)
    requires
        !(state is Finished),
    ensures
        exists|event: SessionEvent| #[trigger] state.awaits(event),
{
    if state is Greeting || state is Request {
        let buf: [u8; 258] = arbitrary();
        assert(state.awaits(SessionEvent::Received { buf, len: 0 }));
    } else if state is Init {
        let init: [u8; 64] = arbitrary();
        assert(state.awaits(SessionEvent::ReceivedInit(init)));
    } else {
        assert(state.awaits(SessionEvent::Done));
    }
}

/// A later state is further on.
proof fn lemma_progress_grows(states: Seq<Session>, events: Seq<SessionEvent>, i: int, j: int)
    requires
        is_run(states, events),
        0 <= i < j < states.len(),
    ensures
        progress(states[i]) < progress(states[j]),
    decreases j - i,
{
    assert(states[j - 1].leads_to(events[j - 1], states[j]));
    if i < j - 1 {
        lemma_progress_grows(states, events, i, j - 1);
    }
}

/// A session has at most one tunnel, and ends with it: what is counted as opened is counted as
/// closed before the connection is.
pub proof fn lemma_one_tunnel(states: Seq<Session>, events: Seq<SessionEvent>, i: int)
    requires
        is_run(states, events),
        0 <= i < states.len(),
        states[i] is Tunnel,
    ensures
        forall|j: int| 0 <= j < states.len() && j != i ==> !(#[trigger] states[j] is Tunnel),
        i + 1 < states.len() ==> states[i + 1] is Finished,
{
    assert forall|j: int| 0 <= j < states.len() && j != i implies !(#[trigger] states[j] is Tunnel) by {
        if j < i {
            lemma_progress_grows(states, events, j, i);
        } else {
            lemma_progress_grows(states, events, i, j);
        }
    }
    if i + 1 < states.len() {
        assert(states[i].leads_to(events[i], states[i + 1]));
    }
}

/// Whether a session goes through these states by these events, with the counters beside each state
/// and no other session at work on them.
pub open spec fn is_counted_run(
    states: Seq<Session>,
    events: Seq<SessionEvent>,
    counters: Seq<ProxyStats>,
) -> bool {
    &&& is_run(states, events)
    &&& counters.len() == states.len()
    &&& forall|i: int|
        #![trigger events[i]]
        0 <= i < events.len() ==> counters[i + 1] == states[i].counted(states[i + 1], counters[i])
}

/// The number of open tunnels is one higher exactly while a session is in its tunnel, and as before
/// at all other times: at the end, well or not, all the counters are as they were at the start. A
/// session that leaves its tunnel finds it counted.
pub proof fn lemma_tunnel_is_counted(
    states: Seq<Session>,
    events: Seq<SessionEvent>,
    counters: Seq<ProxyStats>,
    i: int,
)
    requires
        is_counted_run(states, events, counters),
        counters[0].ws_active < u32::MAX,
        0 <= i < states.len(),
    ensures
        counters[i].ws_active == counters[0].ws_active + if states[i] is Tunnel {
            1int
        } else {
            0int
        },
        counters[i] == (ProxyStats { ws_active: counters[i].ws_active, ..counters[0] }),
        states[i] is Finished ==> counters[i] == counters[0],
        states[i] is Tunnel ==> counters[i].ws_active > 0,
    decreases i,
{
    if i > 0 {
        lemma_tunnel_is_counted(states, events, counters, i - 1);
        assert(states[i - 1].leads_to(events[i - 1], states[i]));
        assert(counters[i] == states[i - 1].counted(states[i], counters[i - 1]));
    }
}

/// A client of Telegram that announces a known protocol and a data centre from 1 to 5, or its
/// negation, gets the tunnel to that data centre, with the very packet that it sent.
pub proof fn lemma_announced_dc_is_reached(
    dest: Dest,
    head: Seq<u8>,
    tag: u32,
    raw_dc: i16,
    pad: (u8, u8),
    init: [u8; 64],
    next: Session,
)
    requires
        head.len() == 56,
        init@ == sealed(head, announcement(tag, raw_dc, pad)),
        known_tag(tag),
        1 <= raw_dc <= 5 || -5 <= raw_dc <= -1,
        (Session::Init { dest }).leads_to(SessionEvent::ReceivedInit(init), next),
    ensures
        next matches Session::Tunnel { dest: d, dc, init: packet, .. } && d == dest && packet == init
            && (dc == raw_dc || dc == -raw_dc),
{
    lemma_announcement_is_understood(head, tag, raw_dc, pad);
}

/// A client of Telegram that announces a known protocol and any other number gets the tunnel to the
/// data centre that the address suggests, or to the second one where the address suggests none;
/// every address of Telegram suggests one. The packet is the very one that the client sent.
pub proof fn lemma_other_dc_is_guessed(
    dest: Dest,
    head: Seq<u8>,
    tag: u32,
    raw_dc: i16,
    pad: (u8, u8),
    init: [u8; 64],
    next: Session,
)
    requires
        head.len() == 56,
        init@ == sealed(head, announcement(tag, raw_dc, pad)),
        known_tag(tag),
        raw_dc == 0 || raw_dc > 5 || raw_dc < -5,
        (Session::Init { dest }).leads_to(SessionEvent::ReceivedInit(init), next),
    ensures
        next matches Session::Tunnel { dest: d, dc, init: packet, .. } && d == dest && packet == init
            && match dc_of_host(dest.host@) {
            Some(guess) => dc == guess,
            None => dc == 2,
        },
        telegram_host(dest.host@) ==> dc_of_host(dest.host@) is Some,
{
    lemma_announcement_is_understood(head, tag, raw_dc, pad);
    if telegram_host(dest.host@) {
        lemma_telegram_host_has_dc(dest.host@);
    }
}

/// A client of Telegram whose first packet announces no known protocol gets no tunnel: it is
/// connected to the destination that it asked for, where the very packet that it sent comes first.
pub proof fn lemma_other_protocol_goes_direct(
    dest: Dest,
    head: Seq<u8>,
    tag: u32,
    raw_dc: i16,
    pad: (u8, u8),
    init: [u8; 64],
    next: Session,
)
    requires
        head.len() == 56,
        init@ == sealed(head, announcement(tag, raw_dc, pad)),
        !known_tag(tag),
        (Session::Init { dest }).leads_to(SessionEvent::ReceivedInit(init), next),
    ensures
        next matches Session::DirectConnect { dest: d, init: packet, .. } && d == dest && packet
            == init,
{
    lemma_announcement_is_understood(head, tag, raw_dc, pad);
}

/// The address is only a fallback: where the packet names a data centre, the address has no say.
pub proof fn lemma_address_is_a_fallback(analysis: InitResult, x: Option<u8>, y: Option<u8>)
    requires
        analysis is Obfuscated2,
    ensures
        chosen_dc(analysis, x) == chosen_dc(analysis, y),
        chosen_dc(analysis, x) == Some(analysis->dc),
{
}

/// A greeting of at least two bytes whose first is 5 is taken, however many methods it offers and
/// whatever they are; any other ends the session.
pub proof fn lemma_greeting(buf: [u8; 258], len: usize, next: Session)
    requires
        call_ensures(
            Session::advance,
            (Session::Greeting, SessionEvent::Received { buf, len }),
            next,
        ),
        len <= 258,
    ensures
        call_requires(
            Session::advance,
            (Session::Greeting, SessionEvent::Received { buf, len }),
        ),
        len >= 2 && buf@[0] == 5 ==> next == Session::GreetingReply,
        len < 2 || buf@[0] != 5 ==> next == Session::Finished(
            Err(SessionError::NotSocks5 { ver: buf@[0], len }),
        ),
{
}

/// A client that offers `n` methods, of any kind, is answered 5, 0: no authentication.
pub proof fn lemma_methods_do_not_matter(
    n: u8,
    buf: [u8; 258],
    next: Session,
    answer: SessionAction,
)
    requires
        call_ensures(
            Session::advance,
            (Session::Greeting, SessionEvent::Received { buf, len: (2 + n) as usize }),
            next,
        ),
        buf@[0] == 5,
        buf@[1] == n,
        call_ensures(Session::action, (&next,), answer),
    ensures
        call_requires(Session::action, (&next,)),
        answer matches SessionAction::Send(bytes) && bytes@ == seq![5u8, 0u8],
{
}

/// A session begins with the greeting, and once that is answered the request comes.
pub proof fn lemma_session_begins(state: Session, next: Session)
    requires
        call_ensures(Session::advance, (state, SessionEvent::Done), next),
        state is Start || state is GreetingReply,
    ensures
        call_requires(Session::advance, (state, SessionEvent::Done)),
        state is Start ==> next == Session::Greeting,
        state is GreetingReply ==> next == Session::Request,
{
}

/// A request is refused exactly if it has fewer than seven bytes or is no CONNECT of version 5; the
/// reason shows its first two bytes and its length, and the session ends with it.
pub proof fn lemma_refusal(buf: [u8; 258], len: usize, next: Session, end: Session)
    requires
        call_ensures(
            Session::advance,
            (Session::Request, SessionEvent::Received { buf, len }),
            next,
        ),
        len <= 258,
        call_ensures(Session::advance, (next, SessionEvent::Done), end),
    ensures
        call_requires(
            Session::advance,
            (Session::Request, SessionEvent::Received { buf, len }),
        ),
        next is Refusal <==> len < 7 || buf@[0] != 5 || buf@[1] != 1,
        next matches Session::Refusal { error } ==> {
            &&& error == (SessionError::BadConnect { ver: buf@[0], cmd: buf@[1], len })
            &&& end == Session::Finished(Err(error))
        },
{
}

/// A request for an IPv4 address is granted for just that address and port, and goes to Telegram
/// exactly if the address is one of Telegram's. One that ends before the port is short.
pub proof fn lemma_request_for_ipv4(buf: [u8; 258], len: usize, next: Session)
    requires
        call_ensures(
            Session::advance,
            (Session::Request, SessionEvent::Received { buf, len }),
            next,
        ),
        7 <= len <= 258,
        buf@[0] == 5 && buf@[1] == 1 && buf@[3] == 1,
    ensures
        len < 10 ==> next == Session::Finished(Err(SessionError::Dest(DestError::Short))),
        len >= 10 ==> {
            let (a, b, c, d) = (buf@[4], buf@[5], buf@[6], buf@[7]);
            &&& next matches Session::SuccessReply { dest, telegram }
            &&& dest.host@ == (Ipv4Addr { a, b, c, d }).dotted()
            &&& dest.port == 256 * buf@[8] + buf@[9]
            &&& telegram <==> {
                ||| a == 149 && b == 154 && 160 <= c <= 175
                ||| a == 91 && b == 108 && (4 <= c <= 23 || 56 <= c <= 59)
                ||| a == 185 && b == 76 && c == 151
            }
        },
{
    let data = buf@.subrange(3, len as int);
    let ip = Ipv4Addr { a: buf@[4], b: buf@[5], c: buf@[6], d: buf@[7] };
    assert(data.len() == len - 3 && data[0] == buf@[3]);
    if len >= 10 {
        assert(data[1] == ip.a && data[2] == ip.b && data[3] == ip.c && data[4] == ip.d);
        assert(data[5] == buf@[8] && data[6] == buf@[9]);
        lemma_spelled_host_is_telegram(ip);
        lemma_telegram_octets(ip);
    }
}

/// A request for a name is granted for just that name and port; it goes to Telegram exactly if the
/// name spells an address of Telegram. One that ends before the port is short, and a name that is not
/// UTF-8 is refused without an answer.
pub proof fn lemma_request_for_name(buf: [u8; 258], len: usize, next: Session)
    requires
        call_ensures(
            Session::advance,
            (Session::Request, SessionEvent::Received { buf, len }),
            next,
        ),
        7 <= len <= 258,
        buf@[0] == 5 && buf@[1] == 1 && buf@[3] == 3,
    ensures
        ({
            let n = buf@[4] as int;
            let name = buf@.subrange(5, 5 + n);
            &&& len < 7 + n ==> next == Session::Finished(
                Err(SessionError::Dest(DestError::Short)),
            )
            &&& len >= 7 + n && valid_utf8(name) ==> {
                &&& next matches Session::SuccessReply { dest, telegram }
                &&& dest.host@ == decode_utf8(name)
                &&& dest.port == 256 * buf@[5 + n] + buf@[6 + n]
                &&& telegram <==> telegram_host(decode_utf8(name))
            }
            &&& len >= 7 + n && !valid_utf8(name) ==> {
                &&& next matches Session::Finished(Err(SessionError::Dest(DestError::NotUtf8(f))))
                &&& f.valid_up_to < n
                &&& f.error_len == bad_sequence_len(name)
                &&& valid_utf8(name.subrange(0, f.valid_up_to as int))
                &&& forall|m: int|
                    f.valid_up_to < m <= n ==> !#[trigger] valid_utf8(name.subrange(0, m))
            }
        }),
{
    let data = buf@.subrange(3, len as int);
    let n = buf@[4] as int;
    assert(data.len() == len - 3 && data[0] == buf@[3] && data[1] == buf@[4]);
    if len >= 7 + n {
        let name = buf@.subrange(5, 5 + n);
        assert(data.subrange(2, 2 + n) =~= name);
        assert(data[2 + n] == buf@[5 + n] && data[3 + n] == buf@[6 + n]);
        lemma_valid_start(name, name.len());
        assert(name.subrange(0, n) =~= name);
    }
}

/// A request for an IPv6 address is granted for just that address and port, and never goes to
/// Telegram. One that ends before the port is short.
pub proof fn lemma_request_for_ipv6(buf: [u8; 258], len: usize, next: Session)
    requires
        call_ensures(
            Session::advance,
            (Session::Request, SessionEvent::Received { buf, len }),
            next,
        ),
        7 <= len <= 258,
        buf@[0] == 5 && buf@[1] == 1 && buf@[3] == 4,
    ensures
        len < 22 ==> next == Session::Finished(Err(SessionError::Dest(DestError::Short))),
        len >= 22 ==> {
            let address = Seq::new(8, |i: int| (256 * buf@[4 + 2 * i] + buf@[5 + 2 * i]) as u16);
            &&& next matches Session::SuccessReply { dest, telegram }
            &&& dest.host@ == ipv6_text(address)
            &&& ipv6_of_text(dest.host@) == Some(address)
            &&& dest.port == 256 * buf@[20] + buf@[21]
            &&& !telegram
        },
{
    let data = buf@.subrange(3, len as int);
    assert(data.len() == len - 3 && data[0] == buf@[3]);
    if len >= 22 {
        let address = Seq::new(8, |i: int| (256 * buf@[4 + 2 * i] + buf@[5 + 2 * i]) as u16);
        let bytes = data.subrange(1, 17);
        assert forall|i: int| 0 <= i < 8 implies segments(bytes)[i] == address[i] by {
            assert(bytes[2 * i] == buf@[4 + 2 * i] && bytes[2 * i + 1] == buf@[5 + 2 * i]);
        }
        assert(segments(bytes) =~= address);
        assert(data[17] == buf@[20] && data[18] == buf@[21]);
        lemma_ipv6_text_reads_back(address);
        assert forall|ip: Ipv4Addr| ipv6_text(address) != #[trigger] ip.dotted() by {
            lemma_ipv6_is_not_ipv4(address, ip);
        }
    }
}

/// A request for an address of any other type is refused without an answer.
pub proof fn lemma_request_for_unknown(buf: [u8; 258], len: usize, next: Session)
    requires
        call_ensures(
            Session::advance,
            (Session::Request, SessionEvent::Received { buf, len }),
            next,
        ),
        7 <= len <= 258,
        buf@[0] == 5 && buf@[1] == 1,
        buf@[3] != 1 && buf@[3] != 3 && buf@[3] != 4,
    ensures
        next == Session::Finished(Err(SessionError::Dest(DestError::UnknownAddrType))),
{
    assert(buf@.subrange(3, len as int)[0] == buf@[3]);
}

/// Once its request is granted, a client of Telegram is asked for its first packet, and any other is
/// connected to where it wants to go.
pub proof fn lemma_granted(dest: Dest, telegram: bool, next: Session)
    requires
        call_ensures(
            Session::advance,
            (Session::SuccessReply { dest, telegram }, SessionEvent::Done),
            next,
        ),
    ensures
        call_requires(
            Session::advance,
            (Session::SuccessReply { dest, telegram }, SessionEvent::Done),
        ),
        telegram ==> next == (Session::Init { dest }),
        !telegram ==> next == (Session::PlainConnect { dest }),
{
}

/// Where the first packet leads. With a known tag it is the tunnel: to the data centre that the
/// packet names, or that it names by the negation, if that is one from 1 to 5; else to the one that
/// the address suggests, or to the second where it suggests none. With any other tag it is a direct
/// connection. The packet and the destination are handed on as they are, with what the packet told.
pub proof fn lemma_first_packet_leads(
    dest: Dest,
    init: [u8; 64],
    tag: u32,
    raw_dc: i16,
    next: Session,
)
    requires
        call_ensures(
            Session::advance,
            (Session::Init { dest }, SessionEvent::ReceivedInit(init)),
            next,
        ),
        spells(
            (opened(init@, 56), opened(init@, 57), opened(init@, 58), opened(init@, 59)),
            (opened(init@, 60), opened(init@, 61)),
            tag,
            raw_dc,
        ),
    ensures
        call_requires(
            Session::advance,
            (Session::Init { dest }, SessionEvent::ReceivedInit(init)),
        ),
        ({
            let known = tag == 0xefefefef || tag == 0xeeeeeeee || tag == 0xdddddddd;
            let named = 1 <= raw_dc <= 5 || -5 <= raw_dc <= -1;
            let ip_dc = dc_of_host(dest.host@);
            &&& known && named ==> {
                let dc = if raw_dc > 0 {
                    raw_dc as u8
                } else {
                    (-raw_dc) as u8
                };
                let analysis = InitResult::Obfuscated2 { dc, tag, raw_dc };
                next == (Session::Tunnel { dest, dc, init, analysis, ip_dc })
            }
            &&& known && !named ==> {
                let dc = if ip_dc is Some {
                    ip_dc->0
                } else {
                    2u8
                };
                let analysis = InitResult::BadDc { tag, raw_dc };
                next == (Session::Tunnel { dest, dc, init, analysis, ip_dc })
            }
            &&& !known ==> next == (Session::DirectConnect {
                dest,
                init,
                analysis: InitResult::NotObfuscated2 { tag, raw_dc },
            })
        }),
{
    let dec = crate::obfuscated2::decrypted(init@);
    assert(forall|i: int| 0 <= i < 64 ==> #[trigger] dec[i] == opened(init@, i));
    lemma_spelled_is_read(dec, tag, raw_dc);
}

/// The route depends on the analysis in the same way, whoever made it.
pub proof fn lemma_route(dest: Dest, init: [u8; 64], analysis: InitResult, next: Session)
    requires
        call_ensures(route_init, (dest, init, analysis), next),
    ensures
        call_requires(route_init, (dest, init, analysis)),
        ({
            let ip_dc = dc_of_host(dest.host@);
            match analysis {
                InitResult::Obfuscated2 { dc, .. } => {
                    next == (Session::Tunnel { dest, dc, init, analysis, ip_dc })
                },
                InitResult::BadDc { .. } => {
                    &&& next matches Session::Tunnel { dest: d, dc, init: i, analysis: a, ip_dc: g }
                    &&& d == dest && i == init && a == analysis && g == ip_dc
                    &&& ip_dc is Some ==> Some(dc) == ip_dc
                    &&& ip_dc is None ==> dc == 2
                },
                InitResult::NotObfuscated2 { .. } => {
                    next == (Session::DirectConnect { dest, init, analysis })
                },
            }
        }),
{
}

/// The way from a connection to its end, if nothing fails. A direct connection of a client of
/// Telegram starts with its first packet; then bytes are passed between the client and the
/// destination until one side ends. A session ends well with its tunnel or when nothing is left to
/// pass.
pub proof fn lemma_connected(state: Session, next: Session)
    requires
        call_ensures(Session::advance, (state, SessionEvent::Done), next),
        state is DirectConnect || state is DirectInit || state is PlainConnect
            || state is Passthrough || state is Tunnel,
    ensures
        call_requires(Session::advance, (state, SessionEvent::Done)),
        state matches Session::DirectConnect { init, .. } ==> next == (Session::DirectInit { init }),
        state is DirectInit ==> next == (Session::Passthrough { telegram: true }),
        state is PlainConnect ==> next == (Session::Passthrough { telegram: false }),
        state is Passthrough || state is Tunnel ==> next == Session::Finished(Ok(())),
{
}

/// Every failure ends the session at once, and the error keeps the cause. It says what failed: a
/// connection, with its destination; the tunnel; or else reading and writing.
pub proof fn lemma_failure_ends_a_session(state: Session, cause: String, next: Session)
    requires
        call_ensures(Session::advance, (state, SessionEvent::Failed(cause)), next),
        !(state is Passthrough) && !(state is Finished),
    ensures
        call_requires(Session::advance, (state, SessionEvent::Failed(cause))),
        next matches Session::Finished(Err(error)) && match error {
            SessionError::Tunnel(c) => state is Tunnel && c == cause,
            SessionError::Connect { dest, cause: c } => {
                state == (Session::PlainConnect { dest }) && c == cause
            },
            SessionError::DirectConnect { dest, cause: c } => {
                &&& state matches Session::DirectConnect { dest: d, .. }
                &&& d == dest
                &&& c == cause
            },
            SessionError::Io(c) => {
                &&& !(state is Tunnel) && !(state is PlainConnect) && !(state is DirectConnect)
                &&& c == cause
            },
            _ => false,
        },
{
}

/// What a state asks for. The answers are those of SOCKS5: no authentication; command not supported;
/// succeeded, with the port 1080 of 127.0.0.1. A tunnel is asked for with the session's own data
/// centre and packet, and a connection with the session's own destination.
pub proof fn lemma_what_a_session_asks_for(state: Session, action: SessionAction)
    requires
        call_ensures(Session::action, (&state,), action),
    ensures
        match action {
            SessionAction::NoDelay => state is Start,
            SessionAction::Receive => state is Greeting || state is Request,
            SessionAction::Send(bytes) => {
                ||| state is GreetingReply && bytes@ == seq![5u8, 0u8]
                ||| state is Refusal && bytes@ == seq![
                    5u8,
                    7u8,
                    0u8,
                    1u8,
                    0u8,
                    0u8,
                    0u8,
                    0u8,
                    0u8,
                    0u8,
                ]
                ||| state is SuccessReply && bytes@ == seq![
                    5u8,
                    0u8,
                    0u8,
                    1u8,
                    127u8,
                    0u8,
                    0u8,
                    1u8,
                    4u8,
                    56u8,
                ]
            },
            SessionAction::ReceiveInit => state is Init,
            SessionAction::RunTunnel { dc, init } => {
                &&& state matches Session::Tunnel { dc: d, init: i, .. }
                &&& dc == d
                &&& init == i
            },
            SessionAction::Connect(target) => match state {
                Session::DirectConnect { dest, .. } | Session::PlainConnect { dest } => {
                    target@ == dest.host@ + seq![':'] + decimal(dest.port as nat)
                },
                _ => false,
            },
            SessionAction::Forward(init) => state == (Session::DirectInit { init }),
            SessionAction::Passthrough => state is Passthrough,
            SessionAction::Finish => state is Finished,
        },
        call_requires(Session::action, (&state,)),
{
    reveal_strlit(":");
    assert(":"@ =~= seq![':']);
}

/// A destination as text is the host, a colon and the port.
pub proof fn lemma_target(dest: Dest, s: String)
    requires
        call_ensures(Dest::target, (&dest,), s),
    ensures
        call_requires(Dest::target, (&dest,)),
        s@ == dest.host@ + seq![':'] + decimal(dest.port as nat),
{
    reveal_strlit(":");
    assert(":"@ =~= seq![':']);
}

/// What a state waits for: bytes of at most a buffer full while the greeting or the request is
/// awaited, the first packet while that is, and that it is done everywhere else. All of that can
/// fail, but for the passing of bytes, which only ends. A session that is finished waits for nothing.
pub proof fn lemma_what_a_session_awaits(state: Session, event: SessionEvent, r: bool)
    requires
        call_ensures(Session::expects, (&state, &event), r),
    ensures
        call_requires(Session::expects, (&state, &event)),
        r ==> call_requires(Session::advance, (state, event)),
        match event {
            SessionEvent::Received { buf, len } => {
                r <==> (state is Greeting || state is Request) && len <= 258
            },
            SessionEvent::ReceivedInit(_) => r <==> state is Init,
            SessionEvent::Failed(_) => r <==> !(state is Passthrough) && !(state is Finished),
            SessionEvent::Done => r <==> !(state is Greeting) && !(state is Request) && !(
            state is Init) && !(state is Finished),
        },
{
}

/// To count is no part of the way: the state is the same with and without it. A session that gets to
/// its tunnel makes one more of them, one that leaves it one less, and every other step leaves the
/// counters alone.
pub proof fn lemma_counted_step(
    state: Session,
    stats: &mut ProxyStats,
    event: SessionEvent,
    next: Session,
)
    requires
        call_ensures(Session::advance_counted, (state, stats, event), next),
        state.awaits(event),
        state is Tunnel ==> old(stats).ws_active > 0,
    ensures
        call_requires(Session::advance_counted, (state, stats, event)),
        state.leads_to(event, next),
        state is Tunnel ==> final(stats).ws_active == old(stats).ws_active - 1,
        next is Tunnel ==> final(stats).ws_active == (old(stats).ws_active + 1) % 0x1_0000_0000,
        !(state is Tunnel) && !(next is Tunnel) ==> final(stats).ws_active == old(stats).ws_active,
        final(stats).active_conn == old(stats).active_conn,
        final(stats).total_conn == old(stats).total_conn,
        final(stats).running == old(stats).running,
        final(stats).verbose == old(stats).verbose,
{
}

/// A whole session of a client of Telegram. It greets with any methods, asks for an IPv4 address of
/// Telegram, and sends a packet with a known tag and a data centre from 1 to 5. If nothing fails it
/// is in the tunnel to that data centre after six events, with the very packet that it sent.
pub proof fn lemma_client_of_telegram_gets_its_tunnel(
    states: Seq<Session>,
    events: Seq<SessionEvent>,
    greeting: ([u8; 258], usize),
    request: ([u8; 258], usize),
    init: [u8; 64],
    tag: u32,
    dc: u8,
)
    requires
        is_run(states, events),
        events.len() == 6,
        events[0] is Done && events[2] is Done && events[4] is Done,
        events[1] == (SessionEvent::Received { buf: greeting.0, len: greeting.1 }),
        greeting.1 >= 2 && greeting.0@[0] == 5,
        events[3] == (SessionEvent::Received { buf: request.0, len: request.1 }),
        request.1 >= 10,
        request.0@.subrange(0, 2) == seq![5u8, 1u8] && request.0@[3] == 1,
        request.0@[4] == 149 && request.0@[5] == 154 && 160 <= request.0@[6] <= 175,
        events[5] == SessionEvent::ReceivedInit(init),
        spells(
            (opened(init@, 56), opened(init@, 57), opened(init@, 58), opened(init@, 59)),
            (opened(init@, 60), opened(init@, 61)),
            tag,
            dc as i16,
        ),
        tag == 0xefefefef || tag == 0xeeeeeeee || tag == 0xdddddddd,
        1 <= dc <= 5,
    ensures
        states[6] matches Session::Tunnel { dest, dc: d, init: packet, .. } && d == dc && packet
            == init && dest.port == 256 * request.0@[8] + request.0@[9],
{
    let buf = request.0@;
    let data = buf.subrange(3, request.1 as int);
    let ip = Ipv4Addr { a: buf[4], b: buf[5], c: buf[6], d: buf[7] };
    assert(states[0].leads_to(events[0], states[1]));
    assert(states[1].leads_to(events[1], states[2]));
    assert(states[2].leads_to(events[2], states[3]));
    assert(states[3].awaits(events[3]) && states[3].leads_to(events[3], states[4]));
    assert(states[4].leads_to(events[4], states[5]));
    assert(states[5].leads_to(events[5], states[6]));
    assert(buf.subrange(0, 2)[0] == buf[0] && buf.subrange(0, 2)[1] == buf[1]);
    assert(data[0] == buf[3] && data[1] == ip.a && data[2] == ip.b && data[3] == ip.c && data[4]
        == ip.d && data[5] == buf[8] && data[6] == buf[9]);
    lemma_spelled_host_is_telegram(ip);
    lemma_telegram_octets(ip);
    let dec = crate::obfuscated2::decrypted(init@);
    assert(forall|i: int| 0 <= i < 64 ==> #[trigger] dec[i] == opened(init@, i));
    lemma_spelled_is_read(dec, tag, dc as i16);
}

/// What is said of a session that failed.
pub proof fn lemma_session_error_in_words(error: SessionError, s: String, n: String)
    requires
        call_ensures(SessionError::message, (&error,), s),
        call_ensures(SessionError::note, (&error,), n),
    ensures
        call_requires(SessionError::message, (&error,)),
        call_requires(SessionError::note, (&error,)),
        n@ == "error: "@ + s@,
        match error {
            SessionError::NotSocks5 { ver, len } => s@ == "Not SOCKS5 (ver=0x"@ + hex_byte(ver)
                + ", len="@ + decimal(len as nat) + ")"@,
            SessionError::BadConnect { ver, cmd, len } => s@ == "Bad CONNECT (ver=0x"@ + hex_byte(
                ver,
            ) + ", cmd=0x"@ + hex_byte(cmd) + ", len="@ + decimal(len as nat) + ")"@,
            SessionError::Dest(e) => s@ == e.words(),
            SessionError::Io(cause) => s@ == cause@,
            SessionError::Connect { dest, cause } => s@ == "TCP connect "@ + (dest.host@ + seq![':']
                + decimal(dest.port as nat)) + ": "@ + cause@,
            SessionError::DirectConnect { dest, cause } => s@ == "direct TCP connect "@ + (dest.host@
                + seq![':'] + decimal(dest.port as nat)) + ": "@ + cause@,
            SessionError::Tunnel(cause) => s@ == cause@,
        },
{
    reveal_strlit(":");
    assert(":"@ =~= seq![':']);
}

/// What is noted of a session's way: where the tunnel leads and why, or that there is none. Of
/// destinations that are not Telegram's only the connection is noted, and only if every connection
/// is reported.
pub proof fn lemma_way_in_words(state: Session, verbose: bool, n: Option<String>)
    requires
        call_ensures(Session::note, (&state, verbose), n),
    ensures
        call_requires(Session::note, (&state, verbose)),
        match state {
            Session::Tunnel {
                dest,
                dc,
                analysis: InitResult::Obfuscated2 { tag, raw_dc, .. },
                ip_dc,
                ..
            } => n matches Some(s) && s@ == "telegram "@ + (dest.host@ + seq![':'] + decimal(
                dest.port as nat,
            )) + " -> DC"@ + decimal(dc as nat) + " (init-packet, "@ + name_of_tag(tag)
                + ", raw_dc="@ + signed(raw_dc as int) + ", ip_dc="@ + (if ip_dc is Some {
                "Some("@ + decimal(ip_dc->0 as nat) + ")"@
            } else {
                "None"@
            }) + ")"@,
            Session::Tunnel { dest, dc, analysis: InitResult::BadDc { tag, raw_dc }, .. } => {
                n matches Some(s) && s@ == "telegram "@ + (dest.host@ + seq![':'] + decimal(
                    dest.port as nat,
                )) + " -> DC"@ + decimal(dc as nat) + " (ip-range fallback, init raw_dc="@ + signed(
                    raw_dc as int,
                ) + " out of range, tag=0x"@ + hex_word(tag) + ")"@
            },
            Session::DirectConnect {
                dest,
                analysis: InitResult::NotObfuscated2 { tag, raw_dc },
                ..
            } => {
                n matches Some(s) && s@ == "NOT obfuscated2 "@ + (dest.host@ + seq![':'] + decimal(
                    dest.port as nat,
                )) + " (tag=0x"@ + hex_word(tag) + ", raw_dc="@ + signed(raw_dc as int)
                    + ") -> direct TCP"@
            },
            Session::PlainConnect { dest } => {
                &&& n is Some <==> verbose
                &&& n matches Some(s) ==> s@ == "tcp passthrough to "@ + (dest.host@ + seq![':']
                    + decimal(dest.port as nat))
            },
            _ => n is None,
        },
{
    reveal_strlit(":");
    assert(":"@ =~= seq![':']);
}

/// That bytes can no longer be passed on is noted only of a client of Telegram, and only if every
/// connection is reported; the note tells which way they went, and why.
pub proof fn lemma_break_in_words(
    state: Session,
    upward: bool,
    cause: &str,
    verbose: bool,
    n: Option<String>,
)
    requires
        call_ensures(Session::break_note, (&state, upward, cause, verbose), n),
    ensures
        call_requires(Session::break_note, (&state, upward, cause, verbose)),
        n is Some <==> verbose && state == (Session::Passthrough { telegram: true }),
        n matches Some(s) ==> s@ == (if upward {
            "tcp c->r: "@
        } else {
            "tcp r->c: "@
        }) + cause@,
{
}

/// The end of a tunnel is noted with its data centre, the error if it failed, and the number of
/// those that are still open.
pub proof fn lemma_tunnel_end_in_words(dc: u8, result: Result<(), String>, remaining: u32, s: String)
    requires
        call_ensures(tunnel_note, (dc, &result, remaining), s),
    ensures
        call_requires(tunnel_note, (dc, &result, remaining)),
        result is Ok ==> s@ == "DC"@ + decimal(dc as nat) + " done (ws active: "@ + decimal(
            remaining as nat,
        ) + ")"@,
        result matches Err(cause) ==> s@ == "DC"@ + decimal(dc as nat) + " tunnel error: "@ + cause@
            + " (ws active: "@ + decimal(remaining as nat) + ")"@,
{
    reveal_strlit(" done");
    reveal_strlit(" (ws active: ");
    reveal_strlit(" done (ws active: ");
    assert(" done"@ + " (ws active: "@ =~= " done (ws active: "@);
    if result is Ok {
        assert(s@ =~= "DC"@ + decimal(dc as nat) + " done (ws active: "@ + decimal(remaining as nat)
            + ")"@);
    } else {
        assert(s@ =~= "DC"@ + decimal(dc as nat) + " tunnel error: "@ + result->Err_0@
            + " (ws active: "@ + decimal(remaining as nat) + ")"@);
    }
}

} // verus!

//! What holds of the traffic of every tunnel.

use vstd::prelude::*;

use crate::relay::{Relay, RelayEvent, RelayPhase, StopReason, CLIENT_BUFFER_LEN};
use crate::text::decimal;
use crate::units::amount;

verus! {

/// Whether a relay that starts with `init` goes through these states by these events.
pub open spec fn is_relay_run(
    init: [u8; 64],
    states: Seq<Relay>,
    events: Seq<RelayEvent>,
) -> bool {
    &&& states.len() == events.len() + 1
    &&& states[0] == (Relay { phase: RelayPhase::SendInit { init }, bytes_up: 64, bytes_down: 0 })
    &&& forall|i: int|
        0 <= i < events.len() ==> states[i].awaits(#[trigger] events[i]) && states[i].leads_to(
            events[i],
            states[i + 1],
        )
}

/// The binary messages of the server, in the order in which they came.
pub open spec fn server_messages(events: Seq<RelayEvent>) -> Seq<Seq<u8>>
    decreases events.len(),
{
    if events.len() == 0 {
        seq![]
    } else {
        let before = server_messages(events.drop_last());
        match events.last() {
            RelayEvent::ServerBinary(data) => before.push(data@),
            _ => before,
        }
    }
}

/// The payloads of the server's pings, in the order in which they came.
pub open spec fn server_pings(events: Seq<RelayEvent>) -> Seq<Seq<u8>>
    decreases events.len(),
{
    if events.len() == 0 {
        seq![]
    } else {
        let before = server_pings(events.drop_last());
        match events.last() {
            RelayEvent::ServerPing(payload) => before.push(payload@),
            _ => before,
        }
    }
}

/// The pieces in which the client's bytes were read, in the order in which they came.
pub open spec fn client_pieces(events: Seq<RelayEvent>) -> Seq<Seq<u8>>
    decreases events.len(),
{
    if events.len() == 0 {
        seq![]
    } else {
        let before = client_pieces(events.drop_last());
        match events.last() {
            RelayEvent::ClientRead(data) => if data@.len() > 0 {
                before.push(data@)
            } else {
                before
            },
            _ => before,
        }
    }
}

/// What was given to the client, piece by piece; the last piece may still be on its way.
pub open spec fn given_to_client(states: Seq<Relay>) -> Seq<Seq<u8>>
    decreases states.len(),
{
    if states.len() == 0 {
        seq![]
    } else {
        let before = given_to_client(states.drop_last());
        match states.last().phase {
            RelayPhase::ToClient { data } => before.push(data@),
            _ => before,
        }
    }
}

/// The payloads of the pongs for the server; the last one may still be on its way.
pub open spec fn pongs_for_server(states: Seq<Relay>) -> Seq<Seq<u8>>
    decreases states.len(),
{
    if states.len() == 0 {
        seq![]
    } else {
        let before = pongs_for_server(states.drop_last());
        match states.last().phase {
            RelayPhase::Pong { payload } => before.push(payload@),
            _ => before,
        }
    }
}

/// The binary messages for the server; the last one may still be on its way.
pub open spec fn given_to_server(states: Seq<Relay>) -> Seq<Seq<u8>>
    decreases states.len(),
{
    if states.len() == 0 {
        seq![]
    } else {
        let before = given_to_server(states.drop_last());
        match states.last().phase {
            RelayPhase::SendInit { init } => before.push(init@),
            RelayPhase::ToServer { data } => before.push(data@),
            _ => before,
        }
    }
}

/// How many bytes the pieces have together.
pub open spec fn total(pieces: Seq<Seq<u8>>) -> nat
    decreases pieces.len(),
{
    if pieces.len() == 0 {
        0
    } else {
        total(pieces.drop_last()) + pieces.last().len()
    }
}

/// One more piece adds its own bytes.
proof fn lemma_total_push(pieces: Seq<Seq<u8>>, piece: Seq<u8>)
    ensures
        total(pieces.push(piece)) == total(pieces) + piece.len(),
{
    assert(pieces.push(piece).drop_last() =~= pieces);
}

/// The part of a run before its last event is a run.
proof fn lemma_run_before(init: [u8; 64], states: Seq<Relay>, events: Seq<RelayEvent>)
    requires
        is_relay_run(init, states, events),
        events.len() > 0,
    ensures
        is_relay_run(init, states.drop_last(), events.drop_last()),
        states.drop_last().last() == states[events.len() - 1],
        states[events.len() - 1].awaits(events.last()),
        states[events.len() - 1].leads_to(events.last(), states.last()),
{
    let n = events.len() - 1;
    assert(events[n] == events.last());
    assert forall|i: int| 0 <= i < n implies states.drop_last()[i].awaits(
        #[trigger] events.drop_last()[i],
    ) && states.drop_last()[i].leads_to(events.drop_last()[i], states.drop_last()[i + 1]) by {
        assert(events.drop_last()[i] == events[i]);
    }
}

/// A tunnel carries bytes, nothing more: every binary message of the server reaches the client as
/// it is and in its place; the server gets the client's first packet and then every piece of the
/// client's bytes, each as one message, in their order; and every ping is answered with its own
/// payload.
pub proof fn lemma_traffic_is_carried(
    init: [u8; 64],
    states: Seq<Relay>,
    events: Seq<RelayEvent>,
)
    requires
        is_relay_run(init, states, events),
    ensures
        given_to_client(states) == server_messages(events),
        given_to_server(states) == seq![init@] + client_pieces(events),
        pongs_for_server(states) == server_pings(events),
    decreases events.len(),
{
    if events.len() == 0 {
        reveal_with_fuel(given_to_client, 2);
        reveal_with_fuel(given_to_server, 2);
        reveal_with_fuel(pongs_for_server, 2);
        assert(given_to_server(states) =~= seq![init@] + client_pieces(events));
    } else {
        lemma_run_before(init, states, events);
        lemma_traffic_is_carried(init, states.drop_last(), events.drop_last());
        assert(given_to_server(states) =~= seq![init@] + client_pieces(events));
    }
}

/// The first message for the server is the client's first packet, of 64 bytes; every later one has
/// at least one byte and at most a buffer full.
pub proof fn lemma_messages_fit(init: [u8; 64], states: Seq<Relay>, events: Seq<RelayEvent>)
    requires
        is_relay_run(init, states, events),
    ensures
        given_to_server(states).len() >= 1,
        given_to_server(states)[0] == init@,
        init@.len() == 64,
        forall|i: int|
            1 <= i < given_to_server(states).len() ==> 1 <= (
            #[trigger] given_to_server(states)[i]).len() <= CLIENT_BUFFER_LEN,
    decreases events.len(),
{
    if events.len() == 0 {
        reveal_with_fuel(given_to_server, 2);
        assert(given_to_server(states) =~= seq![init@]);
    } else {
        lemma_run_before(init, states, events);
        lemma_messages_fit(init, states.drop_last(), events.drop_last());
    }
}

/// The counters are true: they are the numbers of bytes that were carried each way.
pub proof fn lemma_traffic_is_counted(
    init: [u8; 64],
    states: Seq<Relay>,
    events: Seq<RelayEvent>,
)
    requires
        is_relay_run(init, states, events),
    ensures
        states.last().bytes_down == total(given_to_client(states)),
        states.last().bytes_up == total(given_to_server(states)),
    decreases events.len(),
{
    if events.len() == 0 {
        reveal_with_fuel(given_to_client, 2);
        reveal_with_fuel(given_to_server, 2);
        lemma_total_push(seq![], init@);
        assert(given_to_server(states) =~= Seq::<Seq<u8>>::empty().push(init@));
    } else {
        lemma_run_before(init, states, events);
        lemma_traffic_is_counted(init, states.drop_last(), events.drop_last());
        let (down, up) = (
            given_to_client(states.drop_last()),
            given_to_server(states.drop_last()),
        );
        match states.last().phase {
            RelayPhase::ToClient { data } => lemma_total_push(down, data@),
            RelayPhase::ToServer { data } => lemma_total_push(up, data@),
            _ => {},
        }
    }
}

/// A tunnel fails only if its first message cannot be sent, and then nothing was carried. In every
/// other case it ends well, after the connection to the server was closed.
pub proof fn lemma_tunnel_ends(init: [u8; 64], states: Seq<Relay>, events: Seq<RelayEvent>)
    requires
        is_relay_run(init, states, events),
        states.last().phase is Finished,
    ensures
        states.last().phase matches RelayPhase::Finished(Err(_)) ==> events.len() == 1
            && events[0] is Failed && given_to_client(states).len() == 0,
        states.last().phase matches RelayPhase::Finished(Ok(_)) ==> states.len() >= 2
            && states[states.len() - 2].phase is Closing,
{
    lemma_run_before(init, states, events);
    lemma_traffic_is_carried(init, states, events);
    if events.len() > 1 {
        lemma_not_first_again(init, states.drop_last(), events.drop_last());
    } else {
        reveal_with_fuel(server_messages, 2);
    }
}

/// The first packet is sent once.
proof fn lemma_not_first_again(init: [u8; 64], states: Seq<Relay>, events: Seq<RelayEvent>)
    requires
        is_relay_run(init, states, events),
        events.len() > 0,
    ensures
        !(states.last().phase is SendInit),
{
    lemma_run_before(init, states, events);
}

/// A tunnel starts with the client's first packet, which is counted from the start, all 64 bytes of
/// it.
pub proof fn lemma_new_relay(init: [u8; 64], relay: Relay)
    requires
        call_ensures(Relay::new, (init,), relay),
    ensures
        call_requires(Relay::new, (init,)),
        relay.phase matches RelayPhase::SendInit { init: packet } && packet == init,
        relay.bytes_up == 64,
        relay.bytes_down == 0,
        is_relay_run(init, seq![relay], seq![]),
{
}

/// Whether an event gives cause to close a tunnel: a failure, the end of one side, or a server that
/// closes the connection.
pub open spec fn gives_cause(event: RelayEvent) -> bool {
    match event {
        RelayEvent::Failed(_) | RelayEvent::ServerFailed(_) | RelayEvent::ClientFailed(_) => true,
        RelayEvent::ServerClose(_) | RelayEvent::ServerEnded => true,
        RelayEvent::ClientRead(data) => data@.len() == 0,
        RelayEvent::Done | RelayEvent::ServerBinary(_) | RelayEvent::ServerPing(_) => false,
        RelayEvent::ServerOther => false,
    }
}

/// A tunnel closes only for a cause, and is open until there is one: in every run, what happened
/// just before the closing gives cause for it, and nothing before that did.
pub proof fn lemma_tunnel_closes_for_a_cause(
    init: [u8; 64],
    states: Seq<Relay>,
    events: Seq<RelayEvent>,
    i: int,
)
    requires
        is_relay_run(init, states, events),
        0 <= i < states.len(),
        states[i].phase is Closing,
    ensures
        i > 0,
        gives_cause(events[i - 1]),
        forall|j: int| 0 <= j < i - 1 ==> !gives_cause(#[trigger] events[j]),
{
    assert(states[i - 1].leads_to(events[i - 1], states[i]));
    assert forall|j: int| 0 <= j < i - 1 implies !gives_cause(#[trigger] events[j]) by {
        if gives_cause(events[j]) {
            assert(states[j].leads_to(events[j], states[j + 1]));
            lemma_over_stays_over(init, states, events, j + 1, i);
        }
    }
}

/// A tunnel that is closing does not go on: it is over after that.
proof fn lemma_over_stays_over(
    init: [u8; 64],
    states: Seq<Relay>,
    events: Seq<RelayEvent>,
    i: int,
    j: int,
)
    requires
        is_relay_run(init, states, events),
        0 <= i < j < states.len(),
        states[i].phase is Closing || states[i].phase is Finished,
    ensures
        states[j].phase is Finished,
    decreases j - i,
{
    assert(states[j - 1].awaits(events[j - 1]));
    assert(states[j - 1].leads_to(events[j - 1], states[j]));
    if i < j - 1 {
        lemma_over_stays_over(init, states, events, i, j - 1);
    }
}

/// Whatever was sent or delivered, the tunnel stays open afterwards for the next bytes of either
/// side; so it does after messages that carry nothing.
pub proof fn lemma_tunnel_stays_open(relay: Relay, event: RelayEvent, next: Relay)
    requires
        call_ensures(Relay::advance, (relay, event), next),
        event is Done && !(relay.phase is Closing) && !(relay.phase is Waiting) && !(
        relay.phase is Finished) || event is ServerOther && relay.phase is Waiting,
    ensures
        call_requires(Relay::advance, (relay, event)),
        next.phase == RelayPhase::Waiting,
        next.bytes_up == relay.bytes_up,
        next.bytes_down == relay.bytes_down,
{
}

/// What the server sends reaches the client as it is, and is counted; a ping is answered with its
/// own payload.
pub proof fn lemma_server_is_heard(relay: Relay, event: RelayEvent, next: Relay)
    requires
        call_ensures(Relay::advance, (relay, event), next),
        relay.phase is Waiting,
    ensures
        event matches RelayEvent::ServerBinary(data) ==> {
            &&& next.phase == (RelayPhase::ToClient { data })
            &&& next.bytes_down == relay.bytes_down + data@.len()
            &&& next.bytes_up == relay.bytes_up
            &&& relay.bytes_down + data@.len() <= u64::MAX ==> call_requires(
                Relay::advance,
                (relay, event),
            )
        },
        event matches RelayEvent::ServerPing(data) ==> {
            &&& next == (Relay { phase: RelayPhase::Pong { payload: data }, ..relay })
            &&& call_requires(Relay::advance, (relay, event))
        },
{
}

/// What the client sends goes to the server as one message, as it is, and is counted. A client that
/// has nothing more to send ends the tunnel.
pub proof fn lemma_client_is_heard(relay: Relay, data: Vec<u8>, next: Relay)
    requires
        call_ensures(Relay::advance, (relay, RelayEvent::ClientRead(data)), next),
        relay.phase is Waiting,
    ensures
        data@.len() > 0 ==> next.phase == (RelayPhase::ToServer { data }),
        data@.len() == 0 ==> next.phase == (RelayPhase::Closing { reason: StopReason::ClientClosed }),
        next.bytes_up == relay.bytes_up + data@.len(),
        next.bytes_down == relay.bytes_down,
        data@.len() <= 32768 && relay.bytes_up + data@.len() <= u64::MAX ==> call_requires(
            Relay::advance,
            (relay, RelayEvent::ClientRead(data)),
        ),
{
}

/// Whether a reason to close is the one that an event gives in a phase.
pub open spec fn reason_of(phase: RelayPhase, event: RelayEvent, reason: StopReason) -> bool {
    match reason {
        StopReason::ClientGone => phase is ToClient && event is Failed,
        StopReason::ClientClosed => {
            &&& phase is Waiting
            &&& event matches RelayEvent::ClientRead(data)
            &&& data@.len() == 0
        },
        StopReason::ClientFailed(e) => phase is Waiting && event == RelayEvent::ClientFailed(e),
        StopReason::PongFailed(e) => phase is Pong && event == RelayEvent::Failed(e),
        StopReason::SendFailed(e) => phase is ToServer && event == RelayEvent::Failed(e),
        StopReason::ServerClosed(f) => phase is Waiting && event == RelayEvent::ServerClose(f),
        StopReason::ServerDropped => phase is Waiting && event is ServerEnded,
        StopReason::ServerFailed(e) => phase is Waiting && event == RelayEvent::ServerFailed(e),
    }
}

/// Every cause closes a running tunnel at once, and the reason that is kept tells what the cause
/// was. Only the first message is different: if it cannot be sent, there never was a tunnel, and it
/// fails. No bytes are counted.
pub proof fn lemma_every_cause_closes(relay: Relay, event: RelayEvent, next: Relay)
    requires
        call_ensures(Relay::advance, (relay, event), next),
        gives_cause(event),
        event is Failed <==> !(relay.phase is Waiting),
        !(relay.phase is Closing) && !(relay.phase is Finished),
        event matches RelayEvent::ClientRead(data) ==> relay.bytes_up + data@.len() <= u64::MAX,
    ensures
        call_requires(Relay::advance, (relay, event)),
        relay.phase is SendInit ==> {
            &&& next.phase matches RelayPhase::Finished(Err(text))
            &&& text@ == "WS send init packet failed: "@ + event->Failed_0@
        },
        !(relay.phase is SendInit) ==> {
            &&& next.phase matches RelayPhase::Closing { reason }
            &&& reason_of(relay.phase, event, reason)
        },
        next.bytes_up == relay.bytes_up,
        next.bytes_down == relay.bytes_down,
{
}

/// A tunnel that was closed has ended well, whatever the reason.
pub proof fn lemma_closed_is_finished(relay: Relay, next: Relay)
    requires
        call_ensures(Relay::advance, (relay, RelayEvent::Done), next),
        relay.phase is Closing,
    ensures
        call_requires(Relay::advance, (relay, RelayEvent::Done)),
        next == (Relay { phase: RelayPhase::Finished(Ok(())), ..relay }),
{
}

/// While something is sent, its outcome is awaited; otherwise whatever comes from either side, as
/// far as it can be counted. Closing does not fail, and after it nothing is awaited.
pub proof fn lemma_what_the_relay_awaits(relay: Relay, event: RelayEvent, r: bool)
    requires
        call_ensures(Relay::expects, (&relay, &event), r),
    ensures
        call_requires(Relay::expects, (&relay, &event)),
        r ==> call_requires(Relay::advance, (relay, event)),
        relay.phase is SendInit || relay.phase is ToClient || relay.phase is Pong
            || relay.phase is ToServer ==> (r <==> event is Done || event is Failed),
        relay.phase is Closing ==> (r <==> event is Done),
        relay.phase is Finished ==> !r,
        relay.phase is Waiting ==> (r <==> match event {
            RelayEvent::Done | RelayEvent::Failed(_) => false,
            RelayEvent::ServerBinary(data) => data@.len() <= u64::MAX - relay.bytes_down,
            RelayEvent::ClientRead(data) => data@.len() <= 32768 && data@.len() <= u64::MAX
                - relay.bytes_up,
            _ => true,
        }),
        CLIENT_BUFFER_LEN == 32768,
{
}

/// The end of a tunnel is noted with its cause, but for a client that has gone or has closed its
/// side.
pub proof fn lemma_end_in_words(reason: StopReason, n: Option<String>)
    requires
        call_ensures(StopReason::note, (&reason,), n),
    ensures
        call_requires(StopReason::note, (&reason,)),
        n is None <==> reason is ClientGone || reason is ClientClosed,
        n matches Some(s) ==> match reason {
            StopReason::ClientFailed(e) => s@ == "ws TCP read error: "@ + e@,
            StopReason::PongFailed(e) => s@ == "ws pong send failed: "@ + e@,
            StopReason::SendFailed(e) => s@ == "ws WS send failed: "@ + e@,
            StopReason::ServerClosed(Some((code, why))) => s@ == "ws server closed: code="@
                + decimal(code as nat) + ", reason="@ + why@,
            StopReason::ServerClosed(None) => s@ == "ws server closed: no reason"@,
            StopReason::ServerDropped => s@ == "ws stream ended (server dropped)"@,
            StopReason::ServerFailed(e) => s@ == "ws read error: "@ + e@,
            _ => false,
        },
{
    reveal_strlit("ws server closed: ");
    reveal_strlit("code=");
    reveal_strlit("no reason");
    reveal_strlit("ws server closed: code=");
    reveal_strlit("ws server closed: no reason");
    assert("ws server closed: "@ + "code="@ =~= "ws server closed: code="@);
    assert("ws server closed: "@ + "no reason"@ =~= "ws server closed: no reason"@);
}

/// The summary shows the bytes of the client, then those of the server, then how long it took.
pub proof fn lemma_traffic_in_words(relay: Relay, seconds: &str, s: String)
    requires
        call_ensures(Relay::summary, (&relay, seconds), s),
    ensures
        call_requires(Relay::summary, (&relay, seconds)),
        s@ == "ws relay: up="@ + amount(relay.bytes_up) + " down="@ + amount(relay.bytes_down)
            + " duration="@ + seconds@ + "s"@,
{
}

} // verus!

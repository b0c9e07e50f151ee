use tg_unblock::relay::{Relay, RelayEvent, RelayPhase, StopReason, CLIENT_BUFFER_LEN};
use tg_unblock::tunnel::{endpoint, Dial, DialEvent, DialStep};

fn text(s: &str) -> String {
    s.to_string()
}

fn step(relay: Relay, event: RelayEvent) -> Relay {
    assert!(relay.expects(&event));
    relay.advance(event)
}

fn running() -> Relay {
    step(Relay::new([9; 64]), RelayEvent::Done)
}

#[test]
fn the_first_packet_goes_first() {
    let relay = Relay::new([9; 64]);
    assert_eq!(relay.phase, RelayPhase::SendInit { init: [9; 64] });
    let relay = step(relay, RelayEvent::Done);
    assert_eq!(relay, Relay { phase: RelayPhase::Waiting, bytes_up: 64, bytes_down: 0 });
}

#[test]
fn a_first_packet_that_cannot_be_sent() {
    let relay = step(Relay::new([9; 64]), RelayEvent::Failed(text("gone")));
    assert_eq!(relay.phase, RelayPhase::Finished(Err(text("WS send init packet failed: gone"))));
}

#[test]
fn bytes_are_carried_and_counted() {
    let relay = step(running(), RelayEvent::ServerBinary(vec![1, 2, 3]));
    assert_eq!(relay.phase, RelayPhase::ToClient { data: vec![1, 2, 3] });
    let relay = step(relay, RelayEvent::Done);
    let relay = step(relay, RelayEvent::ClientRead(vec![4; 2000]));
    assert_eq!(relay.phase, RelayPhase::ToServer { data: vec![4; 2000] });
    let relay = step(relay, RelayEvent::Done);
    let relay = step(relay, RelayEvent::ServerBinary(Vec::new()));
    assert_eq!(relay.phase, RelayPhase::ToClient { data: Vec::new() });
    let relay = step(relay, RelayEvent::Done);
    let relay = step(relay, RelayEvent::ServerOther);
    assert_eq!(relay, Relay { phase: RelayPhase::Waiting, bytes_up: 2064, bytes_down: 3 });
    assert_eq!(relay.summary("12.5"), "ws relay: up=2.0KB down=3B duration=12.5s");
}

#[test]
fn pings_are_answered() {
    let relay = step(running(), RelayEvent::ServerPing(vec![8, 8]));
    assert_eq!(relay.phase, RelayPhase::Pong { payload: vec![8, 8] });
    assert_eq!(step(relay, RelayEvent::Done), running());
    let relay = step(running(), RelayEvent::ServerPing(vec![8, 8]));
    let relay = step(relay, RelayEvent::Failed(text("late")));
    assert_eq!(relay.phase, RelayPhase::Closing { reason: StopReason::PongFailed(text("late")) });
}

#[test]
fn every_end_closes_the_tunnel() {
    let ends = [
        (RelayEvent::ClientRead(Vec::new()), StopReason::ClientClosed, None),
        (
            RelayEvent::ClientFailed(text("e")),
            StopReason::ClientFailed(text("e")),
            Some("ws TCP read error: e"),
        ),
        (
            RelayEvent::ServerClose(None),
            StopReason::ServerClosed(None),
            Some("ws server closed: no reason"),
        ),
        (
            RelayEvent::ServerClose(Some((1001, text("bye")))),
            StopReason::ServerClosed(Some((1001, text("bye")))),
            Some("ws server closed: code=1001, reason=bye"),
        ),
        (
            RelayEvent::ServerEnded,
            StopReason::ServerDropped,
            Some("ws stream ended (server dropped)"),
        ),
        (
            RelayEvent::ServerFailed(text("e")),
            StopReason::ServerFailed(text("e")),
            Some("ws read error: e"),
        ),
    ];
    for (event, reason, note) in ends {
        let relay = step(running(), event);
        assert_eq!(reason.note(), note.map(|n| n.to_string()));
        assert_eq!(relay.phase, RelayPhase::Closing { reason });
        assert_eq!((relay.bytes_up, relay.bytes_down), (64, 0));
        assert!(!relay.expects(&RelayEvent::Failed(String::new())));
        let relay = step(relay, RelayEvent::Done);
        assert_eq!(relay.phase, RelayPhase::Finished(Ok(())));
        assert!(!relay.expects(&RelayEvent::Done));
    }
}

#[test]
fn bytes_that_cannot_be_delivered_end_the_tunnel() {
    let relay = step(running(), RelayEvent::ServerBinary(vec![1, 2, 3]));
    let relay = step(relay, RelayEvent::Failed(text("closed")));
    assert_eq!(relay.phase, RelayPhase::Closing { reason: StopReason::ClientGone });
    assert_eq!(relay.bytes_down, 3);
    assert_eq!(StopReason::ClientGone.note(), None);

    let relay = step(running(), RelayEvent::ClientRead(vec![1]));
    let relay = step(relay, RelayEvent::Failed(text("closed")));
    let reason = StopReason::SendFailed(text("closed"));
    assert_eq!(reason.note(), Some(text("ws WS send failed: closed")));
    assert_eq!(relay.phase, RelayPhase::Closing { reason });
    assert_eq!(relay.bytes_up, 65);
    assert_eq!(
        StopReason::PongFailed(text("x")).note(),
        Some(text("ws pong send failed: x"))
    );
}

#[test]
fn counters_do_not_overflow() {
    let relay = Relay { phase: RelayPhase::Waiting, bytes_up: u64::MAX - 1, bytes_down: u64::MAX };
    assert!(relay.expects(&RelayEvent::ClientRead(vec![1])));
    assert!(!relay.expects(&RelayEvent::ClientRead(vec![1, 2])));
    assert!(!relay.expects(&RelayEvent::ServerBinary(vec![1])));
    assert!(relay.expects(&RelayEvent::ServerBinary(Vec::new())));
}

#[test]
fn the_client_is_read_a_buffer_at_a_time() {
    assert_eq!(CLIENT_BUFFER_LEN, 32768);
    let relay = step(running(), RelayEvent::ClientRead(vec![4; 32768]));
    assert_eq!(relay.phase, RelayPhase::ToServer { data: vec![4; 32768] });
    assert!(!running().expects(&RelayEvent::ClientRead(vec![4; 32769])));
    // messages of the server have no such limit
    assert!(running().expects(&RelayEvent::ServerBinary(vec![4; 40000])));
}

#[test]
fn what_is_noted_of_an_endpoint() {
    let e = endpoint(1);
    assert_eq!(
        e.connecting_note(true).unwrap(),
        "ws connecting to wss://kws1.web.telegram.org/apiws (149.154.175.50:443)..."
    );
    assert_eq!(e.connecting_note(false), None);
    assert_eq!(
        e.connected_note("101 Switching Protocols"),
        "ws connected wss://kws1.web.telegram.org/apiws (status: 101 Switching Protocols)"
    );
}

#[test]
fn what_a_tunnel_connects_to() {
    let e = endpoint(5);
    assert_eq!(e.url, "wss://kws5.web.telegram.org/apiws");
    assert_eq!(e.host, "kws5.web.telegram.org");
    assert_eq!(e.target, "91.108.56.190:443");
    assert_eq!(e.protocol, "binary");
}

/// The way to a tunnel after `n` steps.
fn dialled(dc: u8, n: usize) -> Dial {
    let mut dial = Dial::new(dc);
    for _ in 0..n {
        assert!(dial.expects(&DialEvent::Done));
        dial = dial.advance(DialEvent::Done);
    }
    dial
}

#[test]
fn steps_to_a_tunnel() {
    let steps = [
        DialStep::Request,
        DialStep::Tcp,
        DialStep::NoDelay,
        DialStep::TlsSetup,
        DialStep::TlsHandshake,
        DialStep::WsHandshake,
        DialStep::Connected,
    ];
    for (n, s) in steps.into_iter().enumerate() {
        assert_eq!(dialled(2, n), Dial { dc: 2, step: s });
    }
    assert!(!dialled(2, 6).expects(&DialEvent::Done));
    assert!(!dialled(2, 0).expects(&DialEvent::TimedOut));
    assert!(dialled(2, 1).expects(&DialEvent::TimedOut));
}

#[test]
fn failures_on_the_way_to_a_tunnel() {
    let failed = "WS connect to wss://kws3.web.telegram.org/apiws failed: ";
    let texts = [
        text("e"),
        format!("{}TCP 149.154.174.100:443: e", failed),
        format!("{}e", failed),
        format!("{}TLS: e", failed),
        format!("{}TLS to kws3.web.telegram.org (149.154.174.100): e", failed),
        format!("{}e", failed),
    ];
    for (n, t) in texts.into_iter().enumerate() {
        let dial = dialled(3, n).advance(DialEvent::Failed(text("e")));
        assert_eq!(dial.step, DialStep::Failed(t.clone()));
        assert!(!dial.expects(&DialEvent::Done));
        assert_eq!(dial.outcome(), Err(t));
        assert_eq!(dialled(3, n).outcome(), Ok(()));
    }
    assert_eq!(
        dialled(3, 4).advance(DialEvent::TimedOut).step,
        DialStep::Failed(text("WS connect to wss://kws3.web.telegram.org/apiws timed out (10s)"))
    );
}

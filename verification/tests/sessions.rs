use tg_unblock::obfuscated2::{InitResult, TAG_ABRIDGED};
use tg_unblock::session::{
    route_init, tunnel_note, Dest, Session, SessionAction, SessionError, SessionEvent,
};
use tg_unblock::socks5::DestError;
use tg_unblock::stats::ProxyStats;

fn received(bytes: &[u8]) -> SessionEvent {
    let mut buf = [0u8; 258];
    buf[..bytes.len()].copy_from_slice(bytes);
    SessionEvent::Received { buf, len: bytes.len() }
}

fn step(session: Session, event: SessionEvent) -> Session {
    assert!(session.expects(&event));
    session.advance(event)
}

/// A session that awaits its request.
fn greeted() -> Session {
    let s = step(Session::Start, SessionEvent::Done);
    assert_eq!(s.action(), SessionAction::Receive);
    let s = step(s, received(&[5, 1, 0]));
    assert_eq!(s.action(), SessionAction::Send(vec![5, 0]));
    let s = step(s, SessionEvent::Done);
    assert_eq!(s.action(), SessionAction::Receive);
    s
}

fn dest(host: &str, port: u16) -> Dest {
    Dest { host: host.to_string(), port }
}

/// A session that awaits the first packet of a client of Telegram.
fn at_init() -> Session {
    let s = step(greeted(), received(&[5, 1, 0, 1, 91, 108, 56, 130, 0x01, 0xbb]));
    assert_eq!(s.action(), SessionAction::Send(vec![5, 0, 0, 1, 127, 0, 0, 1, 4, 0x38]));
    let s = step(s, SessionEvent::Done);
    assert_eq!(s.action(), SessionAction::ReceiveInit);
    s
}

/// Key and counter block of the AES-256-CTR example in NIST SP 800-38A, F.5.5, with eight bytes
/// under bytes 56 to 63 of its keystream.
fn packet(plain: [u8; 8]) -> [u8; 64] {
    let mut packet = [0u8; 64];
    packet[8..40].copy_from_slice(&[
        0x60, 0x3d, 0xeb, 0x10, 0x15, 0xca, 0x71, 0xbe, 0x2b, 0x73, 0xae, 0xf0, 0x85, 0x7d, 0x77,
        0x81, 0x1f, 0x35, 0x2c, 0x07, 0x3b, 0x61, 0x08, 0xd7, 0x2d, 0x98, 0x10, 0xa3, 0x09, 0x14,
        0xdf, 0xf4,
    ]);
    for i in 0..16 {
        packet[40 + i] = 0xf0 + i as u8;
    }
    let keystream = [0xbe, 0xe9, 0x9c, 0x73, 0xa3, 0x15, 0x76, 0xb6];
    for i in 0..8 {
        packet[56 + i] = plain[i] ^ keystream[i];
    }
    packet
}

#[test]
fn a_session_starts_without_delay() {
    assert_eq!(Session::Start.action(), SessionAction::NoDelay);
    assert_eq!(
        step(Session::Start, SessionEvent::Failed("no".to_string())),
        Session::Finished(Err(SessionError::Io("no".to_string())))
    );
}

#[test]
fn a_greeting_of_another_protocol() {
    for (bytes, text) in [
        (&[4u8, 1, 0][..], "Not SOCKS5 (ver=0x04, len=3)"),
        (&[5u8][..], "Not SOCKS5 (ver=0x05, len=1)"),
        (&[][..], "Not SOCKS5 (ver=0x00, len=0)"),
        (&b"GET / HTTP/1.1"[..], "Not SOCKS5 (ver=0x47, len=14)"),
    ] {
        let s = step(Session::Greeting, received(bytes));
        match s {
            Session::Finished(Err(e)) => assert_eq!(e.message(), text),
            _ => panic!("{:?}", s),
        }
    }
}

#[test]
fn a_request_that_is_no_connect_is_refused() {
    for bytes in [
        &[5u8, 2, 0, 1, 1, 2, 3, 4, 0, 80][..],
        &[4u8, 1, 0, 1, 1, 2, 3, 4, 0, 80][..],
        &[5u8, 1, 0, 1, 1, 2][..],
    ] {
        let s = step(greeted(), received(bytes));
        assert_eq!(s.action(), SessionAction::Send(vec![5, 7, 0, 1, 0, 0, 0, 0, 0, 0]));
        assert_eq!(
            step(s, SessionEvent::Done),
            Session::Finished(Err(SessionError::BadConnect {
                ver: bytes[0],
                cmd: bytes[1],
                len: bytes.len(),
            }))
        );
    }
    let error = SessionError::BadConnect { ver: 5, cmd: 0x1f, len: 10 };
    assert_eq!(error.message(), "Bad CONNECT (ver=0x05, cmd=0x1f, len=10)");
}

#[test]
fn a_refusal_that_cannot_be_sent() {
    let s = step(greeted(), received(&[5, 2, 0, 1, 1, 2, 3, 4, 0, 80]));
    assert_eq!(
        step(s, SessionEvent::Failed("reset".to_string())),
        Session::Finished(Err(SessionError::Io("reset".to_string())))
    );
}

#[test]
fn a_short_request_shows_what_the_buffer_held() {
    let mut buf = [0u8; 258];
    buf[..3].copy_from_slice(&[5, 9, 0]);
    let s = step(greeted(), SessionEvent::Received { buf, len: 0 });
    assert_eq!(
        step(s, SessionEvent::Done),
        Session::Finished(Err(SessionError::BadConnect { ver: 5, cmd: 9, len: 0 }))
    );
}

#[test]
fn a_destination_that_cannot_be_read_gets_no_answer() {
    let s = step(greeted(), received(&[5, 1, 0, 9, 1, 2, 3, 4, 0, 80]));
    assert_eq!(s, Session::Finished(Err(SessionError::Dest(DestError::UnknownAddrType))));
    assert_eq!(s.action(), SessionAction::Finish);
    let s = step(greeted(), received(&[5, 1, 0, 4, 1, 2, 3, 4, 0, 80]));
    assert_eq!(s, Session::Finished(Err(SessionError::Dest(DestError::Short))));
}

#[test]
fn other_destinations_are_connected_directly() {
    let s = step(greeted(), received(b"\x05\x01\x00\x03\x0bexample.org\x00\x50"));
    assert_eq!(s, Session::SuccessReply { dest: dest("example.org", 80), telegram: false });
    assert_eq!(s.action(), SessionAction::Send(vec![5, 0, 0, 1, 127, 0, 0, 1, 4, 0x38]));
    let s = step(s, SessionEvent::Done);
    assert_eq!(s.action(), SessionAction::Connect("example.org:80".to_string()));
    let s = step(s, SessionEvent::Done);
    assert_eq!(s.action(), SessionAction::Passthrough);
    assert!(!s.expects(&SessionEvent::Failed(String::new())));
    assert_eq!(step(s, SessionEvent::Done), Session::Finished(Ok(())));
}

#[test]
fn a_destination_that_cannot_be_reached() {
    let s = step(
        Session::PlainConnect { dest: dest("example.org", 80) },
        SessionEvent::Failed("refused".to_string()),
    );
    match s {
        Session::Finished(Err(e)) => {
            assert_eq!(e.message(), "TCP connect example.org:80: refused");
        }
        _ => panic!("{:?}", s),
    }
}

#[test]
fn telegram_goes_through_the_tunnel_that_the_packet_names() {
    let init = packet([0xef, 0xef, 0xef, 0xef, 0xfd, 0xff, 1, 2]);
    let s = step(at_init(), SessionEvent::ReceivedInit(init));
    assert_eq!(
        s,
        Session::Tunnel {
            dest: dest("91.108.56.130", 443),
            dc: 3,
            init,
            analysis: InitResult::Obfuscated2 { dc: 3, tag: TAG_ABRIDGED, raw_dc: -3 },
            ip_dc: Some(5),
        }
    );
    assert_eq!(s.action(), SessionAction::RunTunnel { dc: 3, init });
    assert_eq!(step(s, SessionEvent::Done), Session::Finished(Ok(())));
}

#[test]
fn telegram_goes_through_the_tunnel_that_the_address_suggests() {
    let init = packet([0xef, 0xef, 0xef, 0xef, 9, 0, 0, 0]);
    let s = step(at_init(), SessionEvent::ReceivedInit(init));
    assert_eq!(s.action(), SessionAction::RunTunnel { dc: 5, init });
    let s = step(s, SessionEvent::Failed("timed out".to_string()));
    assert_eq!(s, Session::Finished(Err(SessionError::Tunnel("timed out".to_string()))));
}

#[test]
fn telegram_with_another_protocol_is_connected_directly() {
    let init = packet([1, 2, 3, 4, 2, 0, 0, 0]);
    let s = step(at_init(), SessionEvent::ReceivedInit(init));
    assert_eq!(s.action(), SessionAction::Connect("91.108.56.130:443".to_string()));
    let s = step(s, SessionEvent::Done);
    assert_eq!(s.action(), SessionAction::Forward(init));
    let s = step(s, SessionEvent::Done);
    assert_eq!(s.action(), SessionAction::Passthrough);
    assert_eq!(step(s, SessionEvent::Done), Session::Finished(Ok(())));

    let s = step(at_init(), SessionEvent::ReceivedInit(init));
    let s = step(s, SessionEvent::Failed("unreachable".to_string()));
    match s {
        Session::Finished(Err(e)) => {
            assert_eq!(e.message(), "direct TCP connect 91.108.56.130:443: unreachable");
        }
        _ => panic!("{:?}", s),
    }
}

#[test]
fn routes_by_what_the_packet_tells() {
    let init = [7u8; 64];
    let bad = InitResult::BadDc { tag: TAG_ABRIDGED, raw_dc: 0 };
    assert_eq!(
        route_init(dest("example.org", 443), init, bad),
        Session::Tunnel { dest: dest("example.org", 443), dc: 2, init, analysis: bad, ip_dc: None }
    );
    assert_eq!(
        route_init(dest("149.154.171.5", 443), init, bad),
        Session::Tunnel {
            dest: dest("149.154.171.5", 443),
            dc: 3,
            init,
            analysis: bad,
            ip_dc: Some(3),
        }
    );
    let other = InitResult::NotObfuscated2 { tag: 1, raw_dc: 2 };
    assert_eq!(
        route_init(dest("149.154.171.5", 443), init, other),
        Session::DirectConnect { dest: dest("149.154.171.5", 443), init, analysis: other }
    );
}

#[test]
fn a_failure_to_read_ends_the_session() {
    for s in [Session::Greeting, greeted(), at_init()] {
        assert_eq!(
            step(s, SessionEvent::Failed("broken".to_string())),
            Session::Finished(Err(SessionError::Io("broken".to_string())))
        );
    }
    assert_eq!(SessionError::Io("broken".to_string()).message(), "broken");
    assert_eq!(SessionError::Io("broken".to_string()).note(), "error: broken");
    assert_eq!(
        SessionError::NotSocks5 { ver: 4, len: 3 }.note(),
        "error: Not SOCKS5 (ver=0x04, len=3)"
    );
}

#[test]
fn the_longest_session_takes_nine_events() {
    let mut session = Session::Start;
    let events = [
        SessionEvent::Done,
        received(&[5, 1, 0]),
        SessionEvent::Done,
        received(&[5, 1, 0, 1, 149, 154, 167, 50, 0, 80]),
        SessionEvent::Done,
        SessionEvent::ReceivedInit(packet([1, 2, 3, 4, 2, 0, 0, 0])),
        SessionEvent::Done,
        SessionEvent::Done,
        SessionEvent::Done,
    ];
    for event in events {
        assert_ne!(session, Session::Finished(Ok(())));
        session = step(session, event);
    }
    assert_eq!(session, Session::Finished(Ok(())));
}

#[test]
fn events_out_of_place_are_not_expected() {
    assert!(!Session::Greeting.expects(&SessionEvent::Done));
    assert!(!Session::Start.expects(&received(&[5, 1, 0])));
    assert!(!Session::Greeting.expects(&SessionEvent::ReceivedInit([0; 64])));
    assert!(!Session::Greeting.expects(&SessionEvent::Received { buf: [0; 258], len: 259 }));
    assert!(!Session::Finished(Ok(())).expects(&SessionEvent::Done));
}

#[test]
fn a_number_beyond_the_data_centres_is_no_name() {
    // 257 and -259: the address suggests the fifth data centre
    for bytes in [[0x01, 0x01], [0xfd, 0xfe]] {
        let init = packet([0xef, 0xef, 0xef, 0xef, bytes[0], bytes[1], 0, 0]);
        let s = step(at_init(), SessionEvent::ReceivedInit(init));
        assert_eq!(s.action(), SessionAction::RunTunnel { dc: 5, init });
    }
}

#[test]
fn a_tunnel_is_counted_while_it_runs() {
    for end in [SessionEvent::Done, SessionEvent::Failed("reset".to_string())] {
        let start = ProxyStats { ws_active: 3, active_conn: 9, total_conn: 12, ..ProxyStats::new() };
        let mut stats = start;
        let events = [
            SessionEvent::Done,
            received(&[5, 1, 0]),
            SessionEvent::Done,
            received(&[5, 1, 0, 1, 149, 154, 167, 50, 0, 80]),
            SessionEvent::Done,
            SessionEvent::ReceivedInit(packet([0xee, 0xee, 0xee, 0xee, 1, 0, 0, 0])),
            end,
        ];
        let mut session = Session::Start;
        for event in events {
            assert!(session.expects(&event));
            session = session.advance_counted(&mut stats, event);
            let open = if matches!(session, Session::Tunnel { .. }) { 4 } else { 3 };
            assert_eq!(stats, ProxyStats { ws_active: open, ..start });
        }
        assert!(matches!(session, Session::Finished(_)));
        assert_eq!(stats, start);
    }
}

#[test]
fn other_sessions_do_not_count_as_tunnels() {
    let mut stats = ProxyStats::new();
    let mut session = Session::Start;
    for event in [
        SessionEvent::Done,
        received(&[5, 1, 0]),
        SessionEvent::Done,
        received(b"\x05\x01\x00\x03\x0bexample.org\x00\x50"),
        SessionEvent::Done,
        SessionEvent::Done,
        SessionEvent::Done,
    ] {
        session = session.advance_counted(&mut stats, event);
        assert_eq!(stats, ProxyStats::new());
    }
    assert_eq!(session, Session::Finished(Ok(())));
}

#[test]
fn what_is_noted_of_a_session() {
    let init = [0u8; 64];
    let named = InitResult::Obfuscated2 { dc: 3, tag: TAG_ABRIDGED, raw_dc: -3 };
    let bad = InitResult::BadDc { tag: 0xdddddddd, raw_dc: -32768 };
    let other = InitResult::NotObfuscated2 { tag: 0x0102_03ff, raw_dc: 258 };
    for verbose in [false, true] {
        assert_eq!(
            route_init(dest("91.108.56.130", 443), init, named).note(verbose).unwrap(),
            "telegram 91.108.56.130:443 -> DC3 (init-packet, abridged, raw_dc=-3, ip_dc=Some(5))"
        );
        assert_eq!(
            route_init(dest("example.org", 1), init, named).note(verbose).unwrap(),
            "telegram example.org:1 -> DC3 (init-packet, abridged, raw_dc=-3, ip_dc=None)"
        );
        assert_eq!(
            route_init(dest("91.108.56.130", 443), init, bad).note(verbose).unwrap(),
            "telegram 91.108.56.130:443 -> DC5 (ip-range fallback, init raw_dc=-32768 out of range, tag=0xdddddddd)"
        );
        assert_eq!(
            route_init(dest("149.154.167.50", 80), init, other).note(verbose).unwrap(),
            "NOT obfuscated2 149.154.167.50:80 (tag=0x010203ff, raw_dc=258) -> direct TCP"
        );
        let plain = Session::PlainConnect { dest: dest("example.org", 80) };
        assert_eq!(
            plain.note(verbose),
            if verbose { Some("tcp passthrough to example.org:80".to_string()) } else { None }
        );
        assert_eq!(Session::Request.note(verbose), None);
        assert_eq!(Session::Finished(Ok(())).note(verbose), None);
    }
}

#[test]
fn what_is_noted_of_a_break() {
    let telegram = Session::Passthrough { telegram: true };
    assert_eq!(telegram.break_note(true, "reset", true).unwrap(), "tcp c->r: reset");
    assert_eq!(telegram.break_note(false, "reset", true).unwrap(), "tcp r->c: reset");
    assert_eq!(telegram.break_note(true, "reset", false), None);
    let other = Session::Passthrough { telegram: false };
    assert_eq!(other.break_note(true, "reset", true), None);
}

#[test]
fn what_is_noted_of_the_end_of_a_tunnel() {
    assert_eq!(tunnel_note(4, &Ok(()), 0), "DC4 done (ws active: 0)");
    assert_eq!(
        tunnel_note(2, &Err("timed out".to_string()), 17),
        "DC2 tunnel error: timed out (ws active: 17)"
    );
}

use tg_unblock::dns::{DnsEvent, DnsSwitch, PRIMARY_DNS, SECONDARY_DNS};
use tg_unblock::listener::{
    accept_failure_note, listen_target, listening_note, proxy_link, ListenEvent, Listener,
};
use tg_unblock::stats::ProxyStats;
use tg_unblock::text::{conn_line, log_line};

fn text(s: &str) -> String {
    s.to_string()
}

#[test]
fn counters_start_at_zero() {
    let stats = ProxyStats::new();
    assert!(!stats.running);
    assert!(!stats.verbose);
    assert_eq!((stats.active_conn, stats.total_conn, stats.ws_active), (0, 0, 0));
}

#[test]
fn connections_are_numbered_and_counted() {
    let mut stats = ProxyStats::new();
    assert_eq!(stats.accept(), 1);
    assert_eq!(stats.accept(), 2);
    stats.open_tunnel();
    assert_eq!((stats.active_conn, stats.total_conn, stats.ws_active), (2, 2, 1));
    assert_eq!(stats.close(), 1);
    assert_eq!(stats.accept(), 3);
    stats.open_tunnel();
    assert_eq!(stats.close_tunnel(), 1);
    assert_eq!(stats.close_tunnel(), 0);
    assert_eq!((stats.active_conn, stats.total_conn, stats.ws_active), (2, 3, 0));
    assert_eq!(stats.close(), 1);
    assert_eq!(stats.close(), 0);
    assert_eq!(stats, ProxyStats { total_conn: 3, ..ProxyStats::new() });
}

#[test]
fn counters_go_on_from_wherever_they_are() {
    let mut stats = ProxyStats { active_conn: 2, total_conn: 40, ..ProxyStats::new() };
    assert_eq!(stats.accept(), 41);
    assert_eq!(stats.close(), 2);
    assert_eq!(stats.accept(), 42);
    assert_eq!((stats.active_conn, stats.total_conn), (3, 42));
}

#[test]
fn what_is_noted_of_a_connection() {
    let mut stats = ProxyStats { active_conn: 2, ..ProxyStats::new() };
    assert_eq!(stats.accept_note("127.0.0.1:5000"), None);
    assert_eq!(stats.close_note(), None);
    stats.verbose = true;
    assert_eq!(stats.accept_note("127.0.0.1:5000").unwrap(), "accept from 127.0.0.1:5000 (active: 2)");
    assert_eq!(stats.close_note().unwrap(), "closed (active: 2)");
    assert_eq!(conn_line(12, "closed"), "#12 closed");
    assert_eq!(log_line("12:00:00.000", "#12 closed"), "[12:00:00.000] #12 closed\n");
}

#[test]
fn an_opened_tunnel_is_closed_again() {
    let before = ProxyStats { ws_active: 7, active_conn: 9, total_conn: 20, ..ProxyStats::new() };
    let mut stats = before;
    stats.open_tunnel();
    assert_ne!(stats, before);
    stats.close_tunnel();
    assert_eq!(stats, before);
}

#[test]
fn open_ones_add_up_from_any_start() {
    let start = ProxyStats {
        running: true,
        active_conn: 1000,
        total_conn: 5,
        ws_active: 70,
        verbose: true,
    };
    let mut stats = start;
    for i in 0..10 {
        stats.accept();
        stats.open_tunnel();
        if i % 2 == 0 {
            stats.close_tunnel();
        }
        if i % 5 == 0 {
            stats.close();
        }
    }
    // ten accepted and two closed; ten tunnels opened and five closed
    assert_eq!(
        stats,
        ProxyStats { active_conn: 1008, total_conn: 15, ws_active: 75, ..start }
    );
}

#[test]
fn numbers_of_open_ones_wrap_around() {
    let mut stats = ProxyStats { active_conn: u32::MAX, ws_active: u32::MAX, ..ProxyStats::new() };
    stats.accept();
    stats.open_tunnel();
    assert_eq!((stats.active_conn, stats.ws_active), (0, 0));
}

#[test]
fn the_proxy_listens_until_it_is_told_to_stop() {
    let mut stats = ProxyStats::new();
    let listener = Listener::Binding { port: 1080 };
    assert!(listener.expects(&stats, &ListenEvent::Bound));
    let (listener, id) = listener.advance(&mut stats, ListenEvent::Bound);
    assert_eq!((&listener, id), (&Listener::Accepting, None));
    assert!(stats.running);
    let (listener, id) = listener.advance(&mut stats, ListenEvent::Accepted);
    assert_eq!((&listener, id), (&Listener::Accepting, Some(1)));
    let (listener, id) = listener.advance(&mut stats, ListenEvent::AcceptFailed(text("e")));
    assert_eq!((&listener, id), (&Listener::Accepting, None));
    let (listener, id) = listener.advance(&mut stats, ListenEvent::Idle);
    assert_eq!((&listener, id), (&Listener::Accepting, None));
    stats.running = false;
    let (listener, id) = listener.advance(&mut stats, ListenEvent::Accepted);
    assert_eq!((&listener, id), (&Listener::Finished(Ok(())), Some(2)));
    assert!(!listener.expects(&stats, &ListenEvent::Idle));
    assert!(!stats.running);
}

#[test]
fn a_port_that_cannot_be_had() {
    let mut stats = ProxyStats::new();
    let (listener, id) = Listener::Binding { port: 1080 }
        .advance(&mut stats, ListenEvent::BindFailed(text("in use")));
    assert_eq!(listener, Listener::Finished(Err(text("Не удалось занять порт 1080: in use"))));
    assert_eq!(id, None);
    assert_eq!(stats, ProxyStats::new());
}

#[test]
fn connections_cannot_be_numbered_without_end() {
    let stats = ProxyStats { total_conn: u32::MAX, ..ProxyStats::new() };
    assert!(!Listener::Accepting.expects(&stats, &ListenEvent::Accepted));
    assert!(Listener::Accepting.expects(&stats, &ListenEvent::Idle));
    assert!(!Listener::Accepting.expects(&stats, &ListenEvent::Bound));
}

#[test]
fn where_the_proxy_is_found() {
    assert_eq!(listen_target("127.0.0.1", 1080), "127.0.0.1:1080");
    assert_eq!(proxy_link("127.0.0.1", 1080), "tg://socks?server=127.0.0.1&port=1080");
}

#[test]
fn what_is_noted_of_the_listener() {
    assert_eq!(
        listening_note("127.0.0.1:1080", "/tmp/tglock.log"),
        "SOCKS5 proxy listening on 127.0.0.1:1080 (direct WSS, log: /tmp/tglock.log)"
    );
    assert_eq!(accept_failure_note("too many files"), "accept error: too many files");
}

#[test]
fn dns_is_switched_and_reset() {
    assert_eq!((PRIMARY_DNS, SECONDARY_DNS), ("1.1.1.1", "1.0.0.1"));
    let dns = DnsSwitch::new(true, true);
    let event = DnsEvent::Detected(Some(text("eth0")));
    assert!(dns.expects(&event));
    let dns = dns.advance(event);
    assert_eq!(dns, DnsSwitch::Setting { adapter: text("eth0") });
    assert_eq!(dns.adapter_to_reset(), None);
    let dns = dns.advance(DnsEvent::Applied);
    assert_eq!(dns.adapter_to_reset(), Some("eth0"));
    assert_eq!(dns.notice(), Some(text("[+] DNS -> Cloudflare 1.1.1.1 (адаптер: eth0)")));
}

#[test]
fn dns_stays_as_it_is() {
    let cases = [
        (DnsSwitch::new(false, true), None),
        (
            DnsSwitch::new(true, false),
            Some("[!] Для смены DNS нужны права root/администратора"),
        ),
        (
            DnsSwitch::new(true, true).advance(DnsEvent::Detected(None)),
            Some("[!] Не удалось определить сетевой адаптер"),
        ),
        (
            DnsSwitch::Setting { adapter: text("eth0") }.advance(DnsEvent::Refused(text("e"))),
            Some("[!] Не удалось сменить DNS: e"),
        ),
    ];
    for (dns, notice) in cases {
        assert_eq!(dns.notice(), notice.map(|n| n.to_string()));
        assert_eq!(dns.adapter_to_reset(), None);
        assert!(!dns.expects(&DnsEvent::Applied));
    }
}

//! A local SOCKS5 proxy that carries Telegram connections through a WebSocket tunnel.
//!
//! The library holds the decisions of the proxy; sockets, TLS and the clock stay with the
//! program that drives it.

pub mod dns;
pub mod ipv4;
pub mod ipv6;
pub mod listener;
pub mod obfuscated2;
pub mod relay;
pub mod relay_laws;
pub mod session;
pub mod session_laws;
pub mod socks5;
pub mod stats;
pub mod stats_laws;
pub mod telegram;
pub mod text;
pub mod tunnel;
pub mod units;
pub mod utf8;

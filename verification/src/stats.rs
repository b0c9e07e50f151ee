//! The counters of the proxy.

use vstd::prelude::*;

use crate::text::{decimal, push_decimal};

verus! {

/// What the proxy is doing. One value is shared by all connections; each operation on it is done
/// by one of them at a time.
#[derive(Clone, Copy, Debug, PartialEq, Eq, Structural)]
pub struct ProxyStats {
    /// Whether the proxy accepts connections.
    pub running: bool,
    /// How many connections are open.
    pub active_conn: u32,
    /// How many connections were accepted.
    pub total_conn: u32,
    /// How many tunnels are open.
    pub ws_active: u32,
    /// Whether every connection is reported.
    pub verbose: bool,
}

impl ProxyStats {
    /// The counters of a proxy that has not started.
    pub fn new() -> (s: ProxyStats)
        ensures
            s == (ProxyStats {
                running: false,
                active_conn: 0,
                total_conn: 0,
                ws_active: 0,
                verbose: false,
            }),
    {
        ProxyStats { running: false, active_conn: 0, total_conn: 0, ws_active: 0, verbose: false }
    }

    /// One connection more. The number of open ones starts again at zero after the largest number.
    pub open spec fn accepted(self) -> ProxyStats {
        ProxyStats {
            total_conn: (self.total_conn + 1) as u32,
            active_conn: ((self.active_conn + 1) % 0x1_0000_0000) as u32,
            ..self
        }
    }

    /// One open connection less. Below zero comes the largest number.
    pub open spec fn closed(self) -> ProxyStats {
        ProxyStats { active_conn: ((self.active_conn - 1) % 0x1_0000_0000) as u32, ..self }
    }

    /// One open tunnel more. Their number starts again at zero after the largest number.
    pub open spec fn tunnel_opened(self) -> ProxyStats {
        ProxyStats { ws_active: ((self.ws_active + 1) % 0x1_0000_0000) as u32, ..self }
    }

    /// One open tunnel less. Below zero comes the largest number.
    pub open spec fn tunnel_closed(self) -> ProxyStats {
        ProxyStats { ws_active: ((self.ws_active - 1) % 0x1_0000_0000) as u32, ..self }
    }

    /// Counts a connection that was accepted, and gives its number: the first one has number 1.
    pub fn accept(&mut self) -> (conn_id: u32)
        requires
            old(self).total_conn < u32::MAX,
        ensures
            conn_id == old(self).total_conn + 1,
            *final(self) == old(self).accepted(),
    {
        self.total_conn = self.total_conn + 1;
        self.active_conn = self.active_conn.wrapping_add(1);
        self.total_conn
    }

    /// Counts a connection that was closed, and gives the number of those that are still open.
    pub fn close(&mut self) -> (remaining: u32)
        requires
            old(self).active_conn > 0,
        ensures
            remaining == old(self).active_conn - 1,
            *final(self) == old(self).closed(),
    {
        self.active_conn = self.active_conn - 1;
        self.active_conn
    }

    /// Counts a tunnel that is opened.
    pub fn open_tunnel(&mut self)
        ensures
            *final(self) == old(self).tunnel_opened(),
    {
        self.ws_active = self.ws_active.wrapping_add(1);
    }

    /// Counts a tunnel that was closed, and gives the number of those that are still open.
    pub fn close_tunnel(&mut self) -> (remaining: u32)
        requires
            old(self).ws_active > 0,
        ensures
            remaining == old(self).ws_active - 1,
            *final(self) == old(self).tunnel_closed(),
    {
        self.ws_active = self.ws_active - 1;
        self.ws_active
    }

    /// What is noted of a connection from `peer` that was counted, in words, if every connection is
    /// reported.
    pub open spec fn accept_words(self, peer: Seq<char>) -> Option<Seq<char>> {
        if self.verbose {
            Some("accept from "@ + peer + " (active: "@ + decimal(self.active_conn as nat) + ")"@)
        } else {
            None
        }
    }

    /// What is noted of a connection from `peer` that was counted, in words.
    pub fn accept_note(&self, peer: &str) -> (n: Option<String>)
        ensures
            match self.accept_words(peer@) {
                Some(words) => n matches Some(s) && s@ == words,
                None => n is None,
            },
    {
        if !self.verbose {
            return None;
        }
        let mut s = String::from_str("accept from ");
        s.append(peer);
        s.append(" (active: ");
        push_decimal(&mut s, self.active_conn as u128);
        s.append(")");
        Some(s)
    }

    /// What is noted of a connection that was counted as closed, in words, if every connection is
    /// reported.
    pub open spec fn close_words(self) -> Option<Seq<char>> {
        if self.verbose {
            Some("closed (active: "@ + decimal(self.active_conn as nat) + ")"@)
        } else {
            None
        }
    }

    /// What is noted of a connection that was counted as closed, in words.
    pub fn close_note(&self) -> (n: Option<String>)
        ensures
            match self.close_words() {
                Some(words) => n matches Some(s) && s@ == words,
                None => n is None,
            },
    {
        if !self.verbose {
            return None;
        }
        let mut s = String::from_str("closed (active: ");
        push_decimal(&mut s, self.active_conn as u128);
        s.append(")");
        Some(s)
    }
}

} // verus!

//! What the counters mean: they agree with the connections and tunnels that are open.

use vstd::prelude::*;

use crate::session::{Session, SessionEvent};
use crate::stats::ProxyStats;
use crate::text::decimal;

verus! {

/// The counters beside what they count: the numbers of the open connections, and of those among
/// them that have a tunnel.
pub struct Ledger {
    pub stats: ProxyStats,
    pub open: Set<u32>,
    pub tunnels: Set<u32>,
}

/// What happens to a connection; all but the first tell its number.
pub enum Incident {
    Accepted,
    TunnelOpened(u32),
    TunnelClosed(u32),
    Closed(u32),
}

impl Ledger {
    /// Nothing has happened yet.
    pub open spec fn blank(self) -> bool {
        &&& self.stats.active_conn == 0
        &&& self.stats.total_conn == 0
        &&& self.stats.ws_active == 0
        &&& self.open == Set::<u32>::empty()
        &&& self.tunnels == Set::<u32>::empty()
    }

    /// Whether an incident can happen: a connection is open from its acceptance until it is closed,
    /// and has at most one tunnel at a time, which is closed before it.
    pub open spec fn possible(self, incident: Incident) -> bool {
        match incident {
            Incident::Accepted => self.stats.total_conn < u32::MAX,
            Incident::TunnelOpened(id) => self.open.contains(id) && !self.tunnels.contains(id),
            Incident::TunnelClosed(id) => self.tunnels.contains(id),
            Incident::Closed(id) => self.open.contains(id) && !self.tunnels.contains(id),
        }
    }

    /// The ledger after an incident, the counters as the operations on them leave them.
    pub open spec fn after(self, incident: Incident) -> Ledger {
        match incident {
            Incident::Accepted => Ledger {
                stats: self.stats.accepted(),
                open: self.open.insert(self.stats.accepted().total_conn),
                tunnels: self.tunnels,
            },
            Incident::TunnelOpened(id) => Ledger {
                stats: self.stats.tunnel_opened(),
                open: self.open,
                tunnels: self.tunnels.insert(id),
            },
            Incident::TunnelClosed(id) => Ledger {
                stats: self.stats.tunnel_closed(),
                open: self.open,
                tunnels: self.tunnels.remove(id),
            },
            Incident::Closed(id) => Ledger {
                stats: self.stats.closed(),
                open: self.open.remove(id),
                tunnels: self.tunnels,
            },
        }
    }

    /// The counters are right: as many connections are open as they say, and as many tunnels; the
    /// numbers of the connections go from 1 to their total; a tunnel belongs to an open connection.
    pub open spec fn right(self) -> bool {
        &&& self.open.finite()
        &&& self.tunnels.finite()
        &&& self.stats.active_conn == self.open.len()
        &&& self.stats.ws_active == self.tunnels.len()
        &&& self.tunnels.subset_of(self.open)
        &&& forall|id: u32| #[trigger]
            self.open.contains(id) ==> 1 <= id <= self.stats.total_conn
        &&& self.stats.ws_active <= self.stats.active_conn <= self.stats.total_conn
    }
}

/// The ledger after a series of incidents.
pub open spec fn history(start: Ledger, incidents: Seq<Incident>) -> Ledger
    decreases incidents.len(),
{
    if incidents.len() == 0 {
        start
    } else {
        history(start, incidents.drop_last()).after(incidents.last())
    }
}

/// Whether a series of incidents can happen.
pub open spec fn possible_history(start: Ledger, incidents: Seq<Incident>) -> bool
    decreases incidents.len(),
{
    incidents.len() == 0 || {
        &&& possible_history(start, incidents.drop_last())
        &&& history(start, incidents.drop_last()).possible(incidents.last())
    }
}

/// An incident leaves right counters right.
pub proof fn lemma_counters_stay_right(ledger: Ledger, incident: Incident)
    requires
        ledger.right(),
        ledger.possible(incident),
    ensures
        ledger.after(incident).right(),
{
    let next = ledger.after(incident);
    broadcast use vstd::set_lib::group_set_lib_default;

    match incident {
        Incident::Accepted => {
            assert(!ledger.open.contains(next.stats.total_conn));
        },
        Incident::TunnelOpened(id) => {
            vstd::set_lib::lemma_len_subset(next.tunnels, next.open);
        },
        Incident::TunnelClosed(id) => {},
        Incident::Closed(id) => {
            vstd::set_lib::lemma_len_subset(next.tunnels, next.open);
        },
    }
}

/// The counters are right before anything happens.
pub proof fn lemma_blank_is_right(ledger: Ledger)
    requires
        ledger.blank(),
    ensures
        ledger.right(),
{
}

/// Counters that are right stay right at all times, whatever the order in which connections come
/// and go. They need not start at zero: a proxy may go on with the counters of an earlier one.
pub proof fn lemma_counters_are_right(start: Ledger, incidents: Seq<Incident>)
    requires
        start.right(),
        possible_history(start, incidents),
    ensures
        history(start, incidents).right(),
    decreases incidents.len(),
{
    if incidents.len() > 0 {
        lemma_counters_are_right(start, incidents.drop_last());
        lemma_counters_stay_right(history(start, incidents.drop_last()), incidents.last());
    }
}

/// A connection that is accepted gets a number that no open connection has.
pub proof fn lemma_numbers_are_fresh(ledger: Ledger)
    requires
        ledger.right(),
        ledger.possible(Incident::Accepted),
    ensures
        !ledger.open.contains(ledger.stats.accepted().total_conn),
{
}

/// How many connections a series of incidents brings.
pub open spec fn acceptances(incidents: Seq<Incident>) -> nat
    decreases incidents.len(),
{
    if incidents.len() == 0 {
        0
    } else {
        acceptances(incidents.drop_last()) + if incidents.last() is Accepted {
            1nat
        } else {
            0nat
        }
    }
}

/// Connections are numbered one after the other, from wherever the counting starts: the total, which
/// is the number of the latest connection, has grown by the number of those that were accepted.
pub proof fn lemma_numbers_count_up(start: Ledger, incidents: Seq<Incident>)
    requires
        possible_history(start, incidents),
    ensures
        history(start, incidents).stats.total_conn == start.stats.total_conn + acceptances(incidents),
    decreases incidents.len(),
{
    if incidents.len() > 0 {
        lemma_numbers_count_up(start, incidents.drop_last());
    }
}

/// How many connections a series of incidents takes away.
pub open spec fn closings(incidents: Seq<Incident>) -> nat
    decreases incidents.len(),
{
    if incidents.len() == 0 {
        0
    } else {
        closings(incidents.drop_last()) + if incidents.last() is Closed {
            1nat
        } else {
            0nat
        }
    }
}

/// How many tunnels a series of incidents brings.
pub open spec fn tunnel_openings(incidents: Seq<Incident>) -> nat
    decreases incidents.len(),
{
    if incidents.len() == 0 {
        0
    } else {
        tunnel_openings(incidents.drop_last()) + if incidents.last() is TunnelOpened {
            1nat
        } else {
            0nat
        }
    }
}

/// How many tunnels a series of incidents takes away.
pub open spec fn tunnel_closings(incidents: Seq<Incident>) -> nat
    decreases incidents.len(),
{
    if incidents.len() == 0 {
        0
    } else {
        tunnel_closings(incidents.drop_last()) + if incidents.last() is TunnelClosed {
            1nat
        } else {
            0nat
        }
    }
}

/// One more, or one less, than a number that was cut to 32 bits, cut again.
proof fn lemma_cut(n: int)
    ensures
        (n % 0x1_0000_0000 + 1) % 0x1_0000_0000 == (n + 1) % 0x1_0000_0000,
        (n % 0x1_0000_0000 - 1) % 0x1_0000_0000 == (n - 1) % 0x1_0000_0000,
        0 <= n % 0x1_0000_0000 <= u32::MAX,
        0 <= n <= u32::MAX ==> n % 0x1_0000_0000 == n,
{
}

/// The number of open connections is what it was at the start, and those that were accepted, less
/// those that were closed, from whatever start and in whatever order; that of open tunnels likewise.
/// A number that does not fit into 32 bits is cut to them.
pub proof fn lemma_open_ones_add_up(start: Ledger, incidents: Seq<Incident>)
    ensures
        ({
            let end = history(start, incidents).stats;
            let conns = start.stats.active_conn + acceptances(incidents) - closings(incidents);
            let tunnels = start.stats.ws_active + tunnel_openings(incidents) - tunnel_closings(
                incidents,
            );
            &&& end.active_conn == conns % 0x1_0000_0000
            &&& 0 <= conns <= u32::MAX ==> end.active_conn == conns
            &&& end.ws_active == tunnels % 0x1_0000_0000
            &&& 0 <= tunnels <= u32::MAX ==> end.ws_active == tunnels
        }),
    decreases incidents.len(),
{
    lemma_cut(start.stats.active_conn + acceptances(incidents) - closings(incidents));
    lemma_cut(start.stats.ws_active + tunnel_openings(incidents) - tunnel_closings(incidents));
    if incidents.len() > 0 {
        let before = incidents.drop_last();
        lemma_open_ones_add_up(start, before);
        lemma_cut(start.stats.active_conn + acceptances(before) - closings(before));
        lemma_cut(start.stats.ws_active + tunnel_openings(before) - tunnel_closings(before));
    }
}

/// Incidents change nothing but the numbers: whether the proxy runs and what it reports stay as they
/// were.
pub proof fn lemma_incidents_only_count(start: Ledger, incidents: Seq<Incident>)
    ensures
        history(start, incidents).stats.running == start.stats.running,
        history(start, incidents).stats.verbose == start.stats.verbose,
    decreases incidents.len(),
{
    if incidents.len() > 0 {
        lemma_incidents_only_count(start, incidents.drop_last());
    }
}

/// Where a connection or a tunnel is open, its counter is not zero, so that it can be counted as
/// closed.
pub proof fn lemma_open_is_counted(ledger: Ledger, id: u32)
    requires
        ledger.right(),
    ensures
        ledger.open.contains(id) ==> ledger.stats.active_conn > 0,
        ledger.tunnels.contains(id) ==> ledger.stats.ws_active > 0,
{
    if ledger.open.contains(id) {
        assert(ledger.open.len() > 0);
    }
    if ledger.tunnels.contains(id) {
        assert(ledger.tunnels.len() > 0);
    }
}

/// To close a connection undoes what its acceptance did to the number of open ones.
pub proof fn lemma_close_undoes_accept(stats: ProxyStats)
    ensures
        stats.accepted().closed().active_conn == stats.active_conn,
{
}

/// To close a tunnel undoes its opening.
pub proof fn lemma_close_undoes_open(stats: ProxyStats)
    ensures
        stats.tunnel_opened().tunnel_closed() == stats,
{
}

/// What a session's step from `state` to `next` means to the connection number `id`, if anything.
pub open spec fn incident_of(state: Session, next: Session, id: u32) -> Option<Incident> {
    if state is Tunnel {
        Some(Incident::TunnelClosed(id))
    } else if next is Tunnel {
        Some(Incident::TunnelOpened(id))
    } else {
        None
    }
}

/// The ledger after a session's step.
pub open spec fn after_step(ledger: Ledger, state: Session, next: Session, id: u32) -> Ledger {
    match incident_of(state, next, id) {
        Some(incident) => ledger.after(incident),
        None => ledger,
    }
}

/// Whatever other sessions do to the counters in between, a session's own steps keep them right: an
/// open connection has a tunnel exactly while its session is in its tunnel, and the counters become
/// those that the step gives them.
pub proof fn lemma_session_keeps_counters_right(
    ledger: Ledger,
    id: u32,
    state: Session,
    event: SessionEvent,
    next: Session,
)
    requires
        ledger.right(),
        ledger.open.contains(id),
        ledger.tunnels.contains(id) <==> state is Tunnel,
        state.awaits(event),
        state.leads_to(event, next),
    ensures
        state is Tunnel ==> ledger.stats.ws_active > 0,
        after_step(ledger, state, next, id).right(),
        after_step(ledger, state, next, id).stats == state.counted(next, ledger.stats),
        after_step(ledger, state, next, id).open == ledger.open,
        after_step(ledger, state, next, id).tunnels.contains(id) <==> next is Tunnel,
        forall|other: u32|
            other != id ==> (#[trigger] after_step(ledger, state, next, id).tunnels.contains(other)
                <==> ledger.tunnels.contains(other)),
{
    lemma_open_is_counted(ledger, id);
    match incident_of(state, next, id) {
        Some(incident) => lemma_counters_stay_right(ledger, incident),
        None => {},
    }
}

/// Before anything happens nothing is counted, nothing runs, and nothing is reported.
pub proof fn lemma_new_counters(stats: ProxyStats)
    requires
        call_ensures(ProxyStats::new, (), stats),
    ensures
        call_requires(ProxyStats::new, ()),
        stats.active_conn == 0 && stats.total_conn == 0 && stats.ws_active == 0,
        !stats.running && !stats.verbose,
{
}

/// An accepted connection is one more, in all and among the open ones, and its number is how many
/// there have been with it. Nothing else changes.
pub proof fn lemma_acceptance(stats: &mut ProxyStats, conn_id: u32)
    requires
        call_ensures(ProxyStats::accept, (stats,), conn_id),
        old(stats).total_conn < u32::MAX,
    ensures
        call_requires(ProxyStats::accept, (stats,)),
        conn_id == old(stats).total_conn + 1,
        final(stats).total_conn == conn_id,
        final(stats).active_conn == if old(stats).active_conn == u32::MAX {
            0
        } else {
            old(stats).active_conn + 1
        },
        final(stats).ws_active == old(stats).ws_active,
        final(stats).running == old(stats).running,
        final(stats).verbose == old(stats).verbose,
{
}

/// A closed connection is one less among the open ones, and what is given is how many are left.
/// Nothing else changes.
pub proof fn lemma_closing(stats: &mut ProxyStats, remaining: u32)
    requires
        call_ensures(ProxyStats::close, (stats,), remaining),
        old(stats).active_conn > 0,
    ensures
        call_requires(ProxyStats::close, (stats,)),
        remaining + 1 == old(stats).active_conn,
        final(stats).active_conn == remaining,
        final(stats).total_conn == old(stats).total_conn,
        final(stats).ws_active == old(stats).ws_active,
        final(stats).running == old(stats).running,
        final(stats).verbose == old(stats).verbose,
{
}

/// An opened tunnel is one more, and nothing else changes.
pub proof fn lemma_tunnel_opening(stats: &mut ProxyStats)
    requires
        call_ensures(ProxyStats::open_tunnel, (stats,), ()),
    ensures
        call_requires(ProxyStats::open_tunnel, (stats,)),
        final(stats).ws_active == if old(stats).ws_active == u32::MAX {
            0
        } else {
            old(stats).ws_active + 1
        },
        final(stats).active_conn == old(stats).active_conn,
        final(stats).total_conn == old(stats).total_conn,
        final(stats).running == old(stats).running,
        final(stats).verbose == old(stats).verbose,
{
}

/// A closed tunnel is one less, what is given is how many are left, and nothing else changes.
pub proof fn lemma_tunnel_closing(stats: &mut ProxyStats, remaining: u32)
    requires
        call_ensures(ProxyStats::close_tunnel, (stats,), remaining),
        old(stats).ws_active > 0,
    ensures
        call_requires(ProxyStats::close_tunnel, (stats,)),
        remaining + 1 == old(stats).ws_active,
        final(stats).ws_active == remaining,
        final(stats).active_conn == old(stats).active_conn,
        final(stats).total_conn == old(stats).total_conn,
        final(stats).running == old(stats).running,
        final(stats).verbose == old(stats).verbose,
{
}

/// Connections are noted, with the number of the open ones, exactly if every one is reported.
pub proof fn lemma_connection_notes(
    stats: ProxyStats,
    peer: &str,
    opening: Option<String>,
    closing: Option<String>,
)
    requires
        call_ensures(ProxyStats::accept_note, (&stats, peer), opening),
        call_ensures(ProxyStats::close_note, (&stats,), closing),
    ensures
        call_requires(ProxyStats::accept_note, (&stats, peer)),
        call_requires(ProxyStats::close_note, (&stats,)),
        opening is Some <==> stats.verbose,
        closing is Some <==> stats.verbose,
        opening matches Some(s) ==> s@ == "accept from "@ + peer@ + " (active: "@ + decimal(
            stats.active_conn as nat,
        ) + ")"@,
        closing matches Some(s) ==> s@ == "closed (active: "@ + decimal(stats.active_conn as nat)
            + ")"@,
{
}

} // verus!

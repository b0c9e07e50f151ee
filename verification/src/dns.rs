//! The switch of the system's DNS servers while the proxy runs.
//!
//! [`DnsSwitch`] is a state machine. Its state says what to do next; the outcome of that
//! ([`DnsEvent`]) leads to the next state ([`DnsSwitch::advance`]).

use vstd::prelude::*;

verus! {

/// The DNS server that is asked first.
pub const PRIMARY_DNS: &'static str = "1.1.1.1";

/// The DNS server that is asked if the first one does not answer.
pub const SECONDARY_DNS: &'static str = "1.0.0.1";

/// How far the switch has come.
#[derive(Debug, PartialEq, Eq)]
pub enum DnsSwitch {
    /// The servers stay as they are: no switch is wanted.
    Unwanted,
    /// The servers stay as they are: the rights are missing.
    Forbidden,
    /// The network adapter is to be found out.
    Detecting,
    /// The servers stay as they are: no adapter was found.
    NoAdapter,
    /// The servers of this adapter are to be set.
    Setting { adapter: String },
    /// The servers stay as they are: they could not be set.
    Failed { cause: String },
    /// The servers of this adapter are set.
    Switched { adapter: String },
}

/// How it went.
#[derive(Debug, PartialEq, Eq)]
pub enum DnsEvent {
    /// The adapter, if one was found.
    Detected(Option<String>),
    /// The servers are set.
    Applied,
    /// The servers could not be set.
    Refused(String),
}

impl DnsSwitch {
    /// Decides whether the servers are to be switched.
    pub fn new(wanted: bool, is_admin: bool) -> (s: DnsSwitch)
        ensures
            s == if !wanted {
                DnsSwitch::Unwanted
            } else if !is_admin {
                DnsSwitch::Forbidden
            } else {
                DnsSwitch::Detecting
            },
    {
        if !wanted {
            DnsSwitch::Unwanted
        } else if !is_admin {
            DnsSwitch::Forbidden
        } else {
            DnsSwitch::Detecting
        }
    }

    /// Whether `event` can happen in this state.
    pub open spec fn awaits(self, event: DnsEvent) -> bool {
        match event {
            DnsEvent::Detected(_) => self is Detecting,
            DnsEvent::Applied | DnsEvent::Refused(_) => self is Setting,
        }
    }

    /// Whether `event` can happen in this state.
    pub fn expects(&self, event: &DnsEvent) -> (r: bool)
        ensures
            r == self.awaits(*event),
    {
        match event {
            DnsEvent::Detected(_) => match self {
                DnsSwitch::Detecting => true,
                _ => false,
            },
            DnsEvent::Applied | DnsEvent::Refused(_) => match self {
                DnsSwitch::Setting { .. } => true,
                _ => false,
            },
        }
    }

    /// The state to which an event leads.
    pub open spec fn after(self, event: DnsEvent) -> DnsSwitch {
        match (self, event) {
            (_, DnsEvent::Detected(Some(adapter))) => DnsSwitch::Setting { adapter },
            (_, DnsEvent::Detected(None)) => DnsSwitch::NoAdapter,
            (DnsSwitch::Setting { adapter }, DnsEvent::Applied) => DnsSwitch::Switched { adapter },
            (_, DnsEvent::Refused(cause)) => DnsSwitch::Failed { cause },
            _ => self,
        }
    }

    /// The state to which an event leads.
    pub fn advance(self, event: DnsEvent) -> (next: DnsSwitch)
        requires
            self.awaits(event),
        ensures
            next == self.after(event),
    {
        match (self, event) {
            (_, DnsEvent::Detected(Some(adapter))) => DnsSwitch::Setting { adapter },
            (_, DnsEvent::Detected(None)) => DnsSwitch::NoAdapter,
            (DnsSwitch::Setting { adapter }, DnsEvent::Applied) => DnsSwitch::Switched { adapter },
            (_, DnsEvent::Refused(cause)) => DnsSwitch::Failed { cause },
            (state, _) => state,
        }
    }

    /// The adapter whose servers have to be reset when the proxy stops.
    pub open spec fn to_reset(self) -> Option<Seq<char>> {
        match self {
            DnsSwitch::Switched { adapter } => Some(adapter@),
            _ => None,
        }
    }

    /// The adapter whose servers have to be reset when the proxy stops, if they were switched.
    pub fn adapter_to_reset(&self) -> (r: Option<&str>)
        ensures
            match self.to_reset() {
                Some(adapter) => r matches Some(a) && a@ == adapter,
                None => r is None,
            },
    {
        match self {
            DnsSwitch::Switched { adapter } => Some(adapter.as_str()),
            _ => None,
        }
    }

    /// What the user is told of the switch.
    pub open spec fn words(self) -> Option<Seq<char>> {
        match self {
            DnsSwitch::Forbidden => Some("[!] Для смены DNS нужны права root/администратора"@),
            DnsSwitch::NoAdapter => Some("[!] Не удалось определить сетевой адаптер"@),
            DnsSwitch::Failed { cause } => Some("[!] Не удалось сменить DNS: "@ + cause@),
            DnsSwitch::Switched { adapter } => Some(
                "[+] DNS -> Cloudflare 1.1.1.1 (адаптер: "@ + adapter@ + ")"@,
            ),
            _ => None,
        }
    }

    /// What the user is told of the switch.
    pub fn notice(&self) -> (n: Option<String>)
        ensures
            match self.words() {
                Some(words) => n matches Some(s) && s@ == words,
                None => n is None,
            },
    {
        match self {
            DnsSwitch::Forbidden => Some(
                String::from_str("[!] Для смены DNS нужны права root/администратора"),
            ),
            DnsSwitch::NoAdapter => Some(
                String::from_str("[!] Не удалось определить сетевой адаптер"),
            ),
            DnsSwitch::Failed { cause } => {
                let mut s = String::from_str("[!] Не удалось сменить DNS: ");
                s.append(cause.as_str());
                Some(s)
            },
            DnsSwitch::Switched { adapter } => {
                let mut s = String::from_str("[+] DNS -> Cloudflare 1.1.1.1 (адаптер: ");
                s.append(adapter.as_str());
                s.append(")");
                Some(s)
            },
            _ => None,
        }
    }
}

/// The servers are reset exactly for the adapter that was found and whose servers were set;
/// whatever else happens, there is nothing to reset.
pub proof fn lemma_reset_what_was_set(found: Option<String>, outcome: DnsEvent)
    requires
        !(outcome is Detected),
    ensures
        ({
            let found_state = DnsSwitch::Detecting.after(DnsEvent::Detected(found));
            let end = if found_state.awaits(outcome) {
                found_state.after(outcome)
            } else {
                found_state
            };
            match found {
                Some(adapter) if outcome is Applied => end.to_reset() == Some(adapter@),
                _ => end.to_reset() is None,
            }
        }),
{
}

/// The servers are switched only if that is wanted and the rights are there.
pub proof fn lemma_switch_is_wanted_and_allowed(wanted: bool, is_admin: bool, s: DnsSwitch)
    requires
        call_ensures(DnsSwitch::new, (wanted, is_admin), s),
    ensures
        call_requires(DnsSwitch::new, (wanted, is_admin)),
        s is Detecting <==> wanted && is_admin,
        s is Unwanted <==> !wanted,
        s is Forbidden <==> wanted && !is_admin,
        PRIMARY_DNS@ == "1.1.1.1"@,
        SECONDARY_DNS@ == "1.0.0.1"@,
{
}

/// The adapter that is found is the one whose servers are set; without one there is nothing to set.
pub proof fn lemma_found_adapter_is_set(found: Option<String>, next: DnsSwitch)
    requires
        call_ensures(DnsSwitch::advance, (DnsSwitch::Detecting, DnsEvent::Detected(found)), next),
    ensures
        call_requires(DnsSwitch::advance, (DnsSwitch::Detecting, DnsEvent::Detected(found))),
        found matches Some(name) ==> next == (DnsSwitch::Setting { adapter: name }),
        found is None ==> next is NoAdapter,
{
}

/// The switch ends with the adapter whose servers were set, or with the reason why they were not.
pub proof fn lemma_setting_succeeds_or_not(adapter: String, event: DnsEvent, next: DnsSwitch)
    requires
        call_ensures(DnsSwitch::advance, (DnsSwitch::Setting { adapter }, event), next),
        event is Applied || event is Refused,
    ensures
        call_requires(DnsSwitch::advance, (DnsSwitch::Setting { adapter }, event)),
        event is Applied ==> next == (DnsSwitch::Switched { adapter }),
        event matches DnsEvent::Refused(why) ==> next == (DnsSwitch::Failed { cause: why }),
{
}

/// An adapter is given its own servers back exactly if they were switched.
pub proof fn lemma_switched_is_reset(s: DnsSwitch, r: Option<&str>)
    requires
        call_ensures(DnsSwitch::adapter_to_reset, (&s,), r),
    ensures
        call_requires(DnsSwitch::adapter_to_reset, (&s,)),
        r is Some <==> s is Switched,
        s matches DnsSwitch::Switched { adapter } ==> r matches Some(name) && name@ == adapter@,
{
}

/// An outcome is awaited only of what is being done.
pub proof fn lemma_what_the_switch_awaits(s: DnsSwitch, event: DnsEvent, r: bool)
    requires
        call_ensures(DnsSwitch::expects, (&s, &event), r),
    ensures
        call_requires(DnsSwitch::expects, (&s, &event)),
        s is Detecting ==> (r <==> event is Detected),
        s is Setting ==> (r <==> event is Applied || event is Refused),
        !(s is Detecting) && !(s is Setting) ==> !r,
{
}

/// The user is told how the switch ended, unless none was wanted.
pub proof fn lemma_switch_in_words(s: DnsSwitch, n: Option<String>)
    requires
        call_ensures(DnsSwitch::notice, (&s,), n),
    ensures
        call_requires(DnsSwitch::notice, (&s,)),
        n is None <==> s is Unwanted || s is Detecting || s is Setting,
        n matches Some(text) ==> match s {
            DnsSwitch::Forbidden => text@ == "[!] Для смены DNS нужны права root/администратора"@,
            DnsSwitch::NoAdapter => text@ == "[!] Не удалось определить сетевой адаптер"@,
            DnsSwitch::Failed { cause } => text@ == "[!] Не удалось сменить DNS: "@ + cause@,
            DnsSwitch::Switched { adapter } => {
                text@ == "[+] DNS -> Cloudflare 1.1.1.1 (адаптер: "@ + adapter@ + ")"@
            },
            _ => false,
        },
{
}

} // verus!

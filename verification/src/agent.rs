use vstd::prelude::*;

use crate::addr::{parse_endpoint, spec_parse_endpoint, Ipv4Endpoint};
use crate::cfg::CfgMulticastGroup;
use crate::errors::RelayError;

verus! {

/// The destination an agent task sends to, fixed once at startup: either
/// the group's own multicast address, or a unicast redirection taken from
/// the configured map.
#[derive(Clone, Copy, Debug, PartialEq, Eq, Structural)]
pub enum ResolvedDest {
    Multicast(Ipv4Endpoint),
    Unicast(Ipv4Endpoint),
}

/// The destination string a key maps to in an association list: the value
/// of the first entry whose key matches, if any.
pub open spec fn spec_lookup(m: Seq<(String, String)>, key: Seq<char>) -> Option<Seq<char>>
    decreases m.len(),
{
    if m.len() == 0 {
        None
    } else if m[0].0@ == key {
        Some(m[0].1@)
    } else {
        spec_lookup(m.skip(1), key)
    }
}

/// Looks a group address up in the unicast map; the first entry with a
/// matching key counts.
pub fn lookup_addr<'a>(m: &'a Vec<(String, String)>, key: &String) -> (r: Option<&'a String>)
    ensures
        (match r {
            Some(v) => spec_lookup(m@, key@) == Some(v@),
            None => spec_lookup(m@, key@) is None,
        }),
{
    proof {
        assert(m@.skip(0) =~= m@);
    }
    let mut i: usize = 0;
    while i < m.len()
        invariant
            i <= m.len(),
            spec_lookup(m@, key@) == spec_lookup(m@.skip(i as int), key@),
        decreases m.len() - i,
    {
        proof {
            assert(m@.skip(i as int)[0] == m@[i as int]);
        }
        if m[i].0 == *key {
            return Some(&m[i].1);
        }
        proof {
            assert(m@.skip(i as int).skip(1) =~= m@.skip(i + 1));
        }
        i += 1;
    }
    None
}

/// The addressing-mode decision for one group, made once at task startup.
/// With unicast sending off the destination is the group's own multicast
/// address. With it on, the map must exist and hold an entry for the
/// group — otherwise the configuration error — and that entry must parse
/// as `ip:port` — otherwise the parse error.
pub open spec fn spec_resolve_destination(
    addr: Seq<char>,
    send_as_unicast: bool,
    unicast_addrs: Option<Vec<(String, String)>>,
) -> Result<ResolvedDest, RelayError> {
    if !send_as_unicast {
        match spec_parse_endpoint(addr) {
            Some(e) => Ok(ResolvedDest::Multicast(e)),
            None => Err(RelayError::AddressParseError),
        }
    } else {
        match unicast_addrs {
            None => Err(RelayError::ConfigurationError),
            Some(m) => match spec_lookup(m@, addr) {
                None => Err(RelayError::ConfigurationError),
                Some(dest) => match spec_parse_endpoint(dest) {
                    Some(e) => Ok(ResolvedDest::Unicast(e)),
                    None => Err(RelayError::AddressParseError),
                },
            },
        }
    }
}

/// Resolves the destination for one group, exactly as
/// `spec_resolve_destination` gives it.
pub fn resolve_destination(
    grp: &CfgMulticastGroup,
    send_as_unicast: bool,
    unicast_addrs: &Option<Vec<(String, String)>>,
) -> (r: Result<ResolvedDest, RelayError>)
    ensures
        r == spec_resolve_destination(grp.multicast_addr@, send_as_unicast, *unicast_addrs),
{
    if !send_as_unicast {
        match parse_endpoint(grp.multicast_addr.as_str()) {
            Some(e) => Ok(ResolvedDest::Multicast(e)),
            None => Err(RelayError::AddressParseError),
        }
    } else {
        match unicast_addrs {
            None => Err(RelayError::ConfigurationError),
            Some(m) => match lookup_addr(m, &grp.multicast_addr) {
                None => Err(RelayError::ConfigurationError),
                Some(dest) => match parse_endpoint(dest.as_str()) {
                    Some(e) => Ok(ResolvedDest::Unicast(e)),
                    None => Err(RelayError::AddressParseError),
                },
            },
        }
    }
}

/// What an agent task's loop can observe at one blocking point: a bus
/// message, the end of the subscription stream, a failed send, or the
/// cancellation signal.
#[derive(Debug, PartialEq, Eq)]
pub enum AgentEvent {
    BusMessage(Vec<u8>),
    StreamClosed,
    SendFailure,
    Cancelled,
}

/// What the loop does in reply: write one datagram, or stop with the
/// task's outcome.
#[derive(Debug, PartialEq, Eq)]
pub enum AgentAction {
    SendDatagram(Vec<u8>),
    Finish(Result<(), RelayError>),
}

/// One turn of the agent loop. A bus payload is re-emitted verbatim — the
/// agent direction trusts the bus payload length completely. Stream end
/// and cancellation are clean terminations; a failed send is fatal.
pub fn agent_step(ev: AgentEvent) -> (a: AgentAction)
    ensures
        (match ev {
            AgentEvent::BusMessage(p) => (match a {
                AgentAction::SendDatagram(q) => q@ == p@,
                _ => false,
            }),
            AgentEvent::StreamClosed => a == AgentAction::Finish(Ok::<(), RelayError>(())),
            AgentEvent::SendFailure => a == AgentAction::Finish(
                Err::<(), RelayError>(RelayError::SendError),
            ),
            AgentEvent::Cancelled => a == AgentAction::Finish(Ok::<(), RelayError>(())),
        }),
{
    match ev {
        AgentEvent::BusMessage(p) => AgentAction::SendDatagram(p),
        AgentEvent::StreamClosed => AgentAction::Finish(Ok(())),
        AgentEvent::SendFailure => AgentAction::Finish(Err(RelayError::SendError)),
        AgentEvent::Cancelled => AgentAction::Finish(Ok(())),
    }
}

/// The payload a bus-message event carries.
pub open spec fn agent_payload(ev: AgentEvent) -> Seq<u8> {
    match ev {
        AgentEvent::BusMessage(p) => p@,
        _ => Seq::empty(),
    }
}

/// The datagrams an agent task emits over a trace of loop events: one per
/// bus message, verbatim and in order, up to the first terminating event.
pub open spec fn agent_outputs(events: Seq<AgentEvent>) -> Seq<Seq<u8>>
    decreases events.len(),
{
    if events.len() == 0 {
        Seq::empty()
    } else {
        match events[0] {
            AgentEvent::BusMessage(p) => seq![p@] + agent_outputs(events.skip(1)),
            _ => Seq::empty(),
        }
    }
}

/// Within one group the agent forwards payloads in arrival order: a trace
/// of bus messages yields one datagram per message, in the same order,
/// each payload verbatim.
pub proof fn lemma_agent_preserves_order(events: Seq<AgentEvent>)
    requires
        forall|i: int| 0 <= i < events.len() ==> events[i] is BusMessage,
    ensures
        agent_outputs(events).len() == events.len(),
        forall|i: int|
            0 <= i < events.len() ==> agent_outputs(events)[i] == agent_payload(events[i]),
    decreases events.len(),
{
    if events.len() > 0 {
        assert(forall|i: int|
            0 <= i < events.skip(1).len() ==> events.skip(1)[i] == events[i + 1]);
        lemma_agent_preserves_order(events.skip(1));
    }
}

/// From any terminating event on — cancellation, stream end, or a failed
/// send — the agent task emits nothing further.
pub proof fn lemma_agent_stops_on_terminal(events: Seq<AgentEvent>)
    requires
        events.len() > 0,
        !(events[0] is BusMessage),
    ensures
        agent_outputs(events) == Seq::<Seq<u8>>::empty(),
{
}

/// The datagrams one whole agent task emits, startup included: a task
/// whose destination does not resolve never reaches its loop.
pub open spec fn agent_task_outputs(
    addr: Seq<char>,
    send_as_unicast: bool,
    unicast_addrs: Option<Vec<(String, String)>>,
    events: Seq<AgentEvent>,
) -> Seq<Seq<u8>> {
    if spec_resolve_destination(addr, send_as_unicast, unicast_addrs) is Err {
        Seq::empty()
    } else {
        agent_outputs(events)
    }
}

/// When unicast sending is on and the map has no entry for the group — or
/// there is no map at all — startup fails with the configuration error,
/// and no datagram is ever sent for the group, whatever traffic arrives.
pub proof fn lemma_missing_unicast_entry_sends_nothing(
    addr: Seq<char>,
    unicast_addrs: Option<Vec<(String, String)>>,
    events: Seq<AgentEvent>,
)
    requires
        (match unicast_addrs {
            None => true,
            Some(m) => spec_lookup(m@, addr) is None,
        }),
    ensures
        spec_resolve_destination(addr, true, unicast_addrs) == Err::<ResolvedDest, RelayError>(
            RelayError::ConfigurationError,
        ),
        agent_task_outputs(addr, true, unicast_addrs, events) == Seq::<Seq<u8>>::empty(),
{
}

/// With unicast sending off the resolved destination is always the
/// group's own multicast address — never a value from the unicast map,
/// even if one is present: the map plays no part in the outcome.
pub proof fn lemma_multicast_destination_ignores_map(
    addr: Seq<char>,
    ua1: Option<Vec<(String, String)>>,
    ua2: Option<Vec<(String, String)>>,
)
    ensures
        spec_resolve_destination(addr, false, ua1) == spec_resolve_destination(addr, false, ua2),
        (match spec_parse_endpoint(addr) {
            Some(e) => spec_resolve_destination(addr, false, ua1) == Ok::<
                ResolvedDest,
                RelayError,
            >(ResolvedDest::Multicast(e)),
            None => spec_resolve_destination(addr, false, ua1) == Err::<ResolvedDest, RelayError>(
                RelayError::AddressParseError,
            ),
        }),
{
}

} // verus!

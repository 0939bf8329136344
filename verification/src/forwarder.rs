use vstd::prelude::*;

use crate::addr::{parse_endpoint, spec_parse_endpoint, Ipv4Address, Ipv4Endpoint};
use crate::cfg::CfgMulticastGroup;
use crate::errors::RelayError;
use crate::netif::{find_interface_ip, interface_ipv4, spec_find_interface_ip, NetInterface};

verus! {

/// Everything a forwarder task fixes before its loop: the group endpoint
/// it binds to (whose address is also the multicast group to join) and
/// the local interface address to join on.
#[derive(Clone, Copy, Debug, PartialEq, Eq, Structural)]
pub struct ForwarderSetup {
    pub endpoint: Ipv4Endpoint,
    pub interface_ip: Ipv4Address,
}

/// The startup decision of a forwarder task against a given interface
/// list: the group address must parse — otherwise the parse error — and
/// the interface name must resolve — otherwise the not-found error.
pub open spec fn spec_forwarder_setup(
    grp: CfgMulticastGroup,
    ifs: Seq<NetInterface>,
) -> Result<ForwarderSetup, RelayError> {
    match spec_parse_endpoint(grp.multicast_addr@) {
        None => Err(RelayError::AddressParseError),
        Some(e) => match spec_find_interface_ip(ifs, grp.interface@) {
            None => Err(RelayError::InterfaceNotFoundError),
            Some(ip) => Ok(ForwarderSetup { endpoint: e, interface_ip: ip }),
        },
    }
}

/// Makes the forwarder startup decision for one group against a given
/// interface list, exactly as `spec_forwarder_setup` gives it.
pub fn forwarder_setup(grp: &CfgMulticastGroup, ifs: &Vec<NetInterface>) -> (r: Result<
    ForwarderSetup,
    RelayError,
>)
    ensures
        r == spec_forwarder_setup(*grp, ifs@),
{
    let endpoint = match parse_endpoint(grp.multicast_addr.as_str()) {
        None => { return Err(RelayError::AddressParseError); },
        Some(e) => e,
    };
    match find_interface_ip(ifs, &grp.interface) {
        Err(e) => Err(e),
        Ok(ip) => Ok(ForwarderSetup { endpoint, interface_ip: ip }),
    }
}

/// Makes the forwarder startup decision against the machine's interfaces
/// as they are right now. The interface list is machine state, so what is
/// pinned is what depends on the group alone: a malformed address fails
/// with the parse error whatever the machine holds, and otherwise the
/// endpoint of any successful outcome is the parsed group address and the
/// only possible failure is the not-found error.
pub fn forwarder_setup_live(grp: &CfgMulticastGroup) -> (r: Result<ForwarderSetup, RelayError>)
    ensures
        (match spec_parse_endpoint(grp.multicast_addr@) {
            None => r == Err::<ForwarderSetup, RelayError>(RelayError::AddressParseError),
            Some(e) => (match r {
                Ok(s) => s.endpoint == e,
                Err(err) => err == RelayError::InterfaceNotFoundError,
            }),
        }),
{
    let endpoint = match parse_endpoint(grp.multicast_addr.as_str()) {
        None => { return Err(RelayError::AddressParseError); },
        Some(e) => e,
    };
    match interface_ipv4(&grp.interface) {
        Err(e) => Err(e),
        Ok(ip) => Ok(ForwarderSetup { endpoint, interface_ip: ip }),
    }
}

/// What a datagram leaves in a receive buffer of `max` bytes: the
/// underlying transport silently truncates anything longer.
pub open spec fn spec_truncated(payload: Seq<u8>, max: nat) -> Seq<u8> {
    if payload.len() <= max {
        payload
    } else {
        payload.take(max as int)
    }
}

/// What a forwarder task's loop can observe at one blocking point: a
/// datagram, a failed receive, a failed publish, or the cancellation
/// signal.
#[derive(Debug, PartialEq, Eq)]
pub enum ForwarderEvent {
    Datagram(Vec<u8>),
    RecvFailure,
    PublishFailure,
    Cancelled,
}

/// What the loop does in reply: publish one payload to the group's
/// subject, or stop with the task's outcome.
#[derive(Debug, PartialEq, Eq)]
pub enum ForwarderAction {
    Publish(Vec<u8>),
    Finish(Result<(), RelayError>),
}

/// One turn of the forwarder loop. A datagram is published truncated to
/// the packet-size bound — longer input is cut, never an error. A failed
/// receive or publish is fatal; cancellation is a clean termination.
pub fn forwarder_step(ev: ForwarderEvent, max_packet_size: usize) -> (a: ForwarderAction)
    ensures
        (match ev {
            ForwarderEvent::Datagram(d) => (match a {
                ForwarderAction::Publish(p) => p@ == spec_truncated(d@, max_packet_size as nat),
                _ => false,
            }),
            ForwarderEvent::RecvFailure => a == ForwarderAction::Finish(
                Err::<(), RelayError>(RelayError::ReceiveError),
            ),
            ForwarderEvent::PublishFailure => a == ForwarderAction::Finish(
                Err::<(), RelayError>(RelayError::PublishError),
            ),
            ForwarderEvent::Cancelled => a == ForwarderAction::Finish(Ok::<(), RelayError>(())),
        }),
{
    match ev {
        ForwarderEvent::Datagram(mut d) => {
            d.truncate(max_packet_size);
            ForwarderAction::Publish(d)
        },
        ForwarderEvent::RecvFailure => ForwarderAction::Finish(Err(RelayError::ReceiveError)),
        ForwarderEvent::PublishFailure => ForwarderAction::Finish(Err(RelayError::PublishError)),
        ForwarderEvent::Cancelled => ForwarderAction::Finish(Ok(())),
    }
}

/// The payload a datagram event carries.
pub open spec fn datagram_payload(ev: ForwarderEvent) -> Seq<u8> {
    match ev {
        ForwarderEvent::Datagram(d) => d@,
        _ => Seq::empty(),
    }
}

/// The payloads a forwarder task publishes over a trace of loop events:
/// one per datagram, truncated to the bound and in order, up to the first
/// terminating event.
pub open spec fn forwarder_outputs(events: Seq<ForwarderEvent>, max: nat) -> Seq<Seq<u8>>
    decreases events.len(),
{
    if events.len() == 0 {
        Seq::empty()
    } else {
        match events[0] {
            ForwarderEvent::Datagram(d) => seq![spec_truncated(d@, max)] + forwarder_outputs(
                events.skip(1),
                max,
            ),
            _ => Seq::empty(),
        }
    }
}

/// Within one group the forwarder publishes payloads in arrival order: a
/// trace of datagrams yields one publish per datagram, in the same order,
/// each truncated to the bound.
pub proof fn lemma_forwarder_preserves_order(events: Seq<ForwarderEvent>, max: nat)
    requires
        forall|i: int| 0 <= i < events.len() ==> events[i] is Datagram,
    ensures
        forwarder_outputs(events, max).len() == events.len(),
        forall|i: int|
            0 <= i < events.len() ==> forwarder_outputs(events, max)[i] == spec_truncated(
                datagram_payload(events[i]),
                max,
            ),
    decreases events.len(),
{
    if events.len() > 0 {
        assert(forall|i: int|
            0 <= i < events.skip(1).len() ==> events.skip(1)[i] == events[i + 1]);
        lemma_forwarder_preserves_order(events.skip(1), max);
    }
}

/// An oversized datagram is cut to exactly the bound, not rejected: with
/// a positive overshoot the published payload is the datagram's first
/// `max` bytes.
pub proof fn lemma_truncation_boundary(payload: Seq<u8>, max: nat)
    requires
        payload.len() > max,
    ensures
        spec_truncated(payload, max) == payload.take(max as int),
        spec_truncated(payload, max).len() == max,
{
}

/// From any terminating event on — cancellation or a failure — the
/// forwarder task publishes nothing further.
pub proof fn lemma_forwarder_stops_on_terminal(events: Seq<ForwarderEvent>, max: nat)
    requires
        events.len() > 0,
        !(events[0] is Datagram),
    ensures
        forwarder_outputs(events, max) == Seq::<Seq<u8>>::empty(),
{
}

} // verus!

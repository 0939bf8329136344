use vstd::prelude::*;

use crate::addr::Ipv4Address;
use crate::errors::RelayError;

verus! {

/// One network interface as the lookup logic sees it: its system name and
/// its assigned IPv4 addresses.
#[derive(Debug)]
pub struct NetInterface {
    pub name: String,
    pub ipv4: Vec<Ipv4Address>,
}

/// The IPv4 address a name resolves to in a given interface list: the
/// first address of the first interface with that name, or nothing when
/// the name is unknown or that interface has no IPv4 address.
pub open spec fn spec_find_interface_ip(ifs: Seq<NetInterface>, name: Seq<char>) -> Option<
    Ipv4Address,
>
    decreases ifs.len(),
{
    if ifs.len() == 0 {
        None
    } else if ifs[0].name@ == name {
        if ifs[0].ipv4.len() > 0 {
            Some(ifs[0].ipv4[0])
        } else {
            None
        }
    } else {
        spec_find_interface_ip(ifs.skip(1), name)
    }
}

/// Resolves an interface name to its first IPv4 address within a given
/// interface list; an unknown name, or one without an IPv4 address, is an
/// `InterfaceNotFoundError`.
pub fn find_interface_ip(ifs: &Vec<NetInterface>, name: &String) -> (r: Result<
    Ipv4Address,
    RelayError,
>)
    ensures
        (match spec_find_interface_ip(ifs@, name@) {
            Some(ip) => r == Ok::<Ipv4Address, RelayError>(ip),
            None => r == Err::<Ipv4Address, RelayError>(RelayError::InterfaceNotFoundError),
        }),
{
    proof {
        assert(ifs@.skip(0) =~= ifs@);
    }
    let mut i: usize = 0;
    while i < ifs.len()
        invariant
            i <= ifs.len(),
            spec_find_interface_ip(ifs@, name@) == spec_find_interface_ip(
                ifs@.skip(i as int),
                name@,
            ),
        decreases ifs.len() - i,
    {
        proof {
            assert(ifs@.skip(i as int)[0] == ifs@[i as int]);
        }
        if ifs[i].name == *name {
            if ifs[i].ipv4.len() > 0 {
                return Ok(ifs[i].ipv4[0]);
            }
            return Err(RelayError::InterfaceNotFoundError);
        }
        proof {
            assert(ifs@.skip(i as int).skip(1) =~= ifs@.skip(i + 1));
        }
        i += 1;
    }
    Err(RelayError::InterfaceNotFoundError)
}

/// Relies on netdev::get_interfaces: a snapshot of the machine's network
/// interfaces, each with its system name and its IPv4 addresses. Which
/// interfaces come back depends on the machine at that moment, so nothing
/// is promised of the result; callers take the list as it comes.
#[verifier::external_body]
fn system_interfaces() -> Vec<NetInterface> {
    netdev::get_interfaces()
        .into_iter()
        .map(|itf| {
            let ipv4 = itf
                .ipv4
                .iter()
                .map(|n| {
                    let o = n.addr().octets();
                    Ipv4Address::from_octets(o[0], o[1], o[2], o[3])
                })
                .collect();
            NetInterface { name: itf.name, ipv4 }
        })
        .collect()
}

/// Resolves an interface name against the machine's interfaces as they are
/// right now. The list itself is machine state, so all that is promised is
/// the shape of the outcome: a failure can only be the not-found error.
pub fn interface_ipv4(name: &String) -> (r: Result<Ipv4Address, RelayError>)
    ensures
        r is Err ==> r == Err::<Ipv4Address, RelayError>(RelayError::InterfaceNotFoundError),
{
    let ifs = system_interfaces();
    find_interface_ip(&ifs, name)
}

} // verus!

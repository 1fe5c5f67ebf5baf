//! The name-server inventory: which servers exist, their names and addresses.

use vstd::prelude::*;

verus! {

/// An IPv4 address, held as its four octets.
#[derive(Clone, Copy, PartialEq, Eq, Structural, Debug)]
pub struct Ipv4 {
    pub octet0: u8,
    pub octet1: u8,
    pub octet2: u8,
    pub octet3: u8,
}

impl Ipv4 {
    pub fn new(octet0: u8, octet1: u8, octet2: u8, octet3: u8) -> (r: Ipv4)
        ensures
            r == (Ipv4 { octet0, octet1, octet2, octet3 }),
    {
        Ipv4 { octet0, octet1, octet2, octet3 }
    }
}

/// One authoritative name server: the address it answers on, and the
/// fully-qualified domain name of its own A record.
pub struct NameServer {
    pub address: Ipv4,
    pub name: String,
}

/// The fixed inventory this mesh currently runs: two name servers, each
/// expected to resolve every server's record (including its own).
pub fn get_name_servers() -> (r: Vec<NameServer>)
    ensures
        r@.len() == 2,
        r@[0].name@ == "ns1.rhiyo.com."@,
        r@[0].address == (Ipv4 { octet0: 173, octet1: 255, octet2: 245, octet3: 83 }),
        r@[1].name@ == "ns2.rhiyo.com."@,
        r@[1].address == (Ipv4 { octet0: 212, octet1: 71, octet2: 246, octet3: 209 }),
{
    let ns1 = NameServer {
        address: Ipv4::new(173, 255, 245, 83),
        name: String::from_str("ns1.rhiyo.com."),
    };
    let ns2 = NameServer {
        address: Ipv4::new(212, 71, 246, 209),
        name: String::from_str("ns2.rhiyo.com."),
    };
    let mut servers: Vec<NameServer> = Vec::new();
    servers.push(ns1);
    servers.push(ns2);
    servers
}

} // verus!

use vstd::prelude::*;

pub mod client;
pub mod http_helper;
pub mod laws;
pub mod message;
pub mod service;

verus! {

/// Port assigned by IANA for SSDP.
pub const SSDP_PORT: u16 = 1900;

/// An IPv4 address as four octets, most significant first.
#[derive(Clone, Copy, PartialEq, Eq, Structural, Debug)]
pub struct V4Address {
    pub octet0: u8,
    pub octet1: u8,
    pub octet2: u8,
    pub octet3: u8,
}

/// An IPv6 address as eight 16-bit segments, most significant first.
#[derive(Clone, Copy, PartialEq, Eq, Structural, Debug)]
pub struct V6Address {
    pub seg0: u16,
    pub seg1: u16,
    pub seg2: u16,
    pub seg3: u16,
    pub seg4: u16,
    pub seg5: u16,
    pub seg6: u16,
    pub seg7: u16,
}

/// Either family of IP address.
#[derive(Clone, Copy, PartialEq, Eq, Structural, Debug)]
pub enum IpAddress {
    V4(V4Address),
    V6(V6Address),
}

/// The multicast address in use.
///
/// This uses officially assigned addresses by IANA.
#[derive(Clone, Copy, PartialEq, Eq, Structural, Debug)]
pub enum MulticastAddr {
    /// The IPv4 multicast address: `239.255.255.250`
    V4,
    /// The IPv6 multicast address: `ff02::c` (link-local)
    V6LinkLocal,
    /// The IPv6 multicast address: `ff05::c` (site-local)
    V6SiteLocal,
    /// Used only for test purposes or a local setup.
    ///
    /// Multicast is not redirected to the originating host, so a Service and
    /// a Client on the same device exchange plain unicast instead.
    Loopback,
}

impl MulticastAddr {
    /// The textual form of the variant's address, as it stands in a `Host`
    /// header.
    pub open spec fn addr_text(self) -> Seq<char> {
        match self {
            MulticastAddr::V4 => "239.255.255.250"@,
            MulticastAddr::V6LinkLocal => "ff02::c"@,
            MulticastAddr::V6SiteLocal => "ff05::c"@,
            MulticastAddr::Loopback => "127.0.0.1"@,
        }
    }

    /// Returns the textual form of the variant's address.
    pub fn ip_text(&self) -> (r: &'static str)
        ensures
            r@ == self.addr_text(),
    {
        match self {
            MulticastAddr::V4 => "239.255.255.250",
            MulticastAddr::V6LinkLocal => "ff02::c",
            MulticastAddr::V6SiteLocal => "ff05::c",
            MulticastAddr::Loopback => "127.0.0.1",
        }
    }

    /// The fixed IP address for the variant.
    pub open spec fn spec_ip(self) -> IpAddress {
        match self {
            MulticastAddr::V4 => IpAddress::V4(
                V4Address { octet0: 239, octet1: 255, octet2: 255, octet3: 250 },
            ),
            MulticastAddr::V6LinkLocal => IpAddress::V6(
                V6Address {
                    seg0: 0xFF02,
                    seg1: 0,
                    seg2: 0,
                    seg3: 0,
                    seg4: 0,
                    seg5: 0,
                    seg6: 0,
                    seg7: 0xC,
                },
            ),
            MulticastAddr::V6SiteLocal => IpAddress::V6(
                V6Address {
                    seg0: 0xFF05,
                    seg1: 0,
                    seg2: 0,
                    seg3: 0,
                    seg4: 0,
                    seg5: 0,
                    seg6: 0,
                    seg7: 0xC,
                },
            ),
            MulticastAddr::Loopback => IpAddress::V4(
                V4Address { octet0: 127, octet1: 0, octet2: 0, octet3: 1 },
            ),
        }
    }

    /// Returns the IP address for the given enum value.
    pub fn get_ip(&self) -> (r: IpAddress)
        ensures
            r == self.spec_ip(),
    {
        match self {
            MulticastAddr::V4 => IpAddress::V4(
                V4Address { octet0: 239, octet1: 255, octet2: 255, octet3: 250 },
            ),
            MulticastAddr::V6LinkLocal => IpAddress::V6(
                V6Address {
                    seg0: 0xFF02,
                    seg1: 0,
                    seg2: 0,
                    seg3: 0,
                    seg4: 0,
                    seg5: 0,
                    seg6: 0,
                    seg7: 0xC,
                },
            ),
            MulticastAddr::V6SiteLocal => IpAddress::V6(
                V6Address {
                    seg0: 0xFF05,
                    seg1: 0,
                    seg2: 0,
                    seg3: 0,
                    seg4: 0,
                    seg5: 0,
                    seg6: 0,
                    seg7: 0xC,
                },
            ),
            MulticastAddr::Loopback => IpAddress::V4(
                V4Address { octet0: 127, octet1: 0, octet2: 0, octet3: 1 },
            ),
        }
    }

    /// Returns `true` if the enum value is IPv4, `false` if it is IPv6.
    pub fn is_v4(&self) -> (r: bool)
        ensures
            r == (self.spec_ip() is V4),
    {
        match self {
            MulticastAddr::V4 => true,
            MulticastAddr::V6LinkLocal => false,
            MulticastAddr::V6SiteLocal => false,
            MulticastAddr::Loopback => true,
        }
    }

    /// Returns the IPv4 addr if the enum is an IPv4 addr.
    pub fn get_v4(&self) -> (r: Option<V4Address>)
        ensures
            match self.spec_ip() {
                IpAddress::V4(a) => r == Some(a),
                IpAddress::V6(_) => r is None,
            },
    {
        match self.get_ip() {
            IpAddress::V4(a) => Some(a),
            IpAddress::V6(_) => None,
        }
    }

    /// Returns the IPv6 addr if the enum is an IPv6 addr.
    pub fn get_v6(&self) -> (r: Option<V6Address>)
        ensures
            match self.spec_ip() {
                IpAddress::V6(a) => r == Some(a),
                IpAddress::V4(_) => r is None,
            },
    {
        match self.get_ip() {
            IpAddress::V6(a) => Some(a),
            IpAddress::V4(_) => None,
        }
    }
}

} // verus!

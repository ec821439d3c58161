//! IP allow-list of the admin port: networks (CIDR blocks or single
//! addresses) and whether an address falls into one of them.
use vstd::prelude::*;
use crate::utils::text::{concat2, contains_char};

verus! {

/// An IP address, as its bits.
#[derive(Debug, Clone, Copy, PartialEq, Eq, Structural)]
pub enum IpAddress {
    V4(u32),
    V6(u128),
}

/// An IP network: an address and the length of its prefix.
#[derive(Debug, Clone, Copy, PartialEq, Eq, Structural)]
pub enum IpNetwork {
    V4 { addr: u32, prefix: u8 },
    V6 { addr: u128, prefix: u8 },
}

impl IpNetwork {
    /// The prefix fits the address width.
    pub open spec fn well_formed(self) -> bool {
        match self {
            IpNetwork::V4 { prefix, .. } => prefix <= 32,
            IpNetwork::V6 { prefix, .. } => prefix <= 128,
        }
    }

    /// `ip` lies in this network: same family, and its first `prefix` bits
    /// are those of the network address.
    pub open spec fn holds(self, ip: IpAddress) -> bool {
        match (self, ip) {
            (IpNetwork::V4 { addr, prefix }, IpAddress::V4(a)) => (a as nat) / vstd::arithmetic::power2::pow2(
                (32 - prefix) as nat,
            ) == (addr as nat) / vstd::arithmetic::power2::pow2((32 - prefix) as nat),
            (IpNetwork::V6 { addr, prefix }, IpAddress::V6(a)) => (a as nat) / vstd::arithmetic::power2::pow2(
                (128 - prefix) as nat,
            ) == (addr as nat) / vstd::arithmetic::power2::pow2((128 - prefix) as nat),
            _ => false,
        }
    }

    /// The network of a single address (`/32` or `/128`).
    pub fn host(ip: IpAddress) -> (n: IpNetwork)
        ensures
            n.well_formed(),
            n == host_network(ip),
    {
        match ip {
            IpAddress::V4(a) => IpNetwork::V4 { addr: a, prefix: 32 },
            IpAddress::V6(a) => IpNetwork::V6 { addr: a, prefix: 128 },
        }
    }

    /// Whether `ip` lies in this network.
    pub fn contains(&self, ip: IpAddress) -> (b: bool)
        requires
            self.well_formed(),
        ensures
            b == self.holds(ip),
    {
        match (*self, ip) {
            (IpNetwork::V4 { addr, prefix }, IpAddress::V4(a)) => {
                let shift: u32 = 32 - prefix as u32;
                proof {
                    vstd::bits::lemma_u64_shr_is_div(a as u64, shift as u64);
                    vstd::bits::lemma_u64_shr_is_div(addr as u64, shift as u64);
                }
                (a as u64) >> (shift as u64) == (addr as u64) >> (shift as u64)
            },
            (IpNetwork::V6 { addr, prefix }, IpAddress::V6(a)) => {
                if prefix == 0 {
                    proof {
                        vstd::arithmetic::power2::lemma_pow2_adds(64, 64);
                        vstd::arithmetic::power2::lemma2_to64_rest();
                        assert(vstd::arithmetic::power2::pow2(128) == 0x1_0000_0000_0000_0000 * 0x1_0000_0000_0000_0000);
                        lemma_div_below(a as nat, 128);
                        lemma_div_below(addr as nat, 128);
                    }
                    true
                } else {
                    let shift: u32 = 128 - prefix as u32;
                    proof {
                        lemma_u128_shr_is_div(a, shift);
                        lemma_u128_shr_is_div(addr, shift);
                    }
                    (a >> shift) == (addr >> shift)
                }
            },
            _ => false,
        }
    }
}

/// The network of a single address admits that address and no other.
pub proof fn law_host_admits_only_itself(ip: IpAddress, other: IpAddress)
    ensures
        host_network(ip).holds(ip),
        host_network(ip).holds(other) ==> other == ip,
{
    vstd::arithmetic::power2::lemma2_to64();
    assert(vstd::arithmetic::power2::pow2(0) == 1);
    match (ip, other) {
        (IpAddress::V4(a), IpAddress::V4(b)) => {
            assert((a as nat) / 1 == a as nat) by (nonlinear_arith);
            assert((b as nat) / 1 == b as nat) by (nonlinear_arith);
        },
        (IpAddress::V6(a), IpAddress::V6(b)) => {
            assert((a as nat) / 1 == a as nat) by (nonlinear_arith);
            assert((b as nat) / 1 == b as nat) by (nonlinear_arith);
        },
        (IpAddress::V4(a), _) => {
            assert((a as nat) / 1 == a as nat) by (nonlinear_arith);
        },
        (IpAddress::V6(a), _) => {
            assert((a as nat) / 1 == a as nat) by (nonlinear_arith);
        },
    }
}

proof fn lemma_div_below(x: nat, w: nat)
    requires
        x < vstd::arithmetic::power2::pow2(w),
    ensures
        x / vstd::arithmetic::power2::pow2(w) == 0,
{
    vstd::arithmetic::power2::lemma_pow2_pos(w);
    vstd::arithmetic::div_mod::lemma_basic_div(x as int, vstd::arithmetic::power2::pow2(w) as int);
}

proof fn lemma_u128_shr_is_div(x: u128, shift: u32)
    requires
        shift < 128,
    ensures
        (x >> shift) as nat == (x as nat) / vstd::arithmetic::power2::pow2(shift as nat),
{
    vstd::bits::lemma_u128_shr_is_div(x, shift as u128);
}

/// What `ipnet::IpNet`'s `FromStr` makes of a text (`addr/prefix`).
pub uninterp spec fn cidr_parse(text: Seq<char>) -> Option<IpNetwork>;

/// What std's `FromStr` for IP addresses makes of a text.
pub uninterp spec fn host_parse(text: Seq<char>) -> Option<IpAddress>;

/// Parses a CIDR block with `ipnet::IpNet`'s `FromStr`. Its parser reads
/// at most 32 (IPv4) or 128 (IPv6) as the prefix length, so a network it
/// returns is well formed; which texts it accepts is left to `cidr_parse`.
#[verifier::external_body]
fn parse_cidr(text: &str) -> (r: Option<IpNetwork>)
    ensures
        r == cidr_parse(text@),
        r is Some ==> r->0.well_formed(),
{
    match text.parse::<ipnet::IpNet>() {
        Ok(ipnet::IpNet::V4(n)) => Some(IpNetwork::V4 { addr: u32::from(n.addr()), prefix: n.prefix_len() }),
        Ok(ipnet::IpNet::V6(n)) => Some(IpNetwork::V6 { addr: u128::from(n.addr()), prefix: n.prefix_len() }),
        Err(_) => None,
    }
}

/// Parses a single IP address with std's `FromStr`; `ipnet::IpNet::new`
/// with prefix 0, which keeps the address as given, tells the family.
/// Which texts it accepts is left to `host_parse`.
#[verifier::external_body]
pub(crate) fn parse_host(text: &str) -> (r: Option<IpAddress>)
    ensures
        r == host_parse(text@),
{
    let ip = text.parse().ok()?;
    match ipnet::IpNet::new(ip, 0).ok()? {
        ipnet::IpNet::V4(n) => Some(IpAddress::V4(u32::from(n.addr()))),
        ipnet::IpNet::V6(n) => Some(IpAddress::V6(u128::from(n.addr()))),
    }
}

/// The network an allow-list entry stands for: a CIDR block when it holds
/// a `/`, else the single address.
pub open spec fn entry_network(e: Seq<char>) -> Option<IpNetwork> {
    if e.contains('/') {
        cidr_parse(e)
    } else {
        match host_parse(e) {
            Some(ip) => Some(host_network(ip)),
            None => None,
        }
    }
}

/// The network of one address.
pub open spec fn host_network(ip: IpAddress) -> IpNetwork {
    match ip {
        IpAddress::V4(a) => IpNetwork::V4 { addr: a, prefix: 32 },
        IpAddress::V6(a) => IpNetwork::V6 { addr: a, prefix: 128 },
    }
}

/// The complaint about an entry that does not parse.
pub open spec fn entry_error(e: Seq<char>) -> Seq<char> {
    if e.contains('/') {
        "非法 CIDR: "@ + e
    } else {
        "非法 IP: "@ + e
    }
}

/// The networks the admin port accepts requests from.
#[derive(Debug)]
pub struct IpWhitelist {
    nets: Vec<IpNetwork>,
}

impl IpWhitelist {
    #[verifier::type_invariant]
    spec fn inv(self) -> bool {
        forall|i: int| 0 <= i < self.nets@.len() ==> (#[trigger] self.nets@[i]).well_formed()
    }

    /// The networks.
    pub closed spec fn networks(self) -> Seq<IpNetwork> {
        self.nets@
    }

    /// An allow-list of the given networks; `None` when a prefix is longer than its address.
    pub fn new(nets: Vec<IpNetwork>) -> (r: Option<IpWhitelist>)
        ensures
            match r {
                Some(w) => w.networks() == nets@,
                None => exists|i: int| 0 <= i < nets@.len() && !(#[trigger] nets@[i]).well_formed(),
            },
    {
        let mut i: usize = 0;
        while i < nets.len()
            invariant
                i <= nets.len(),
                forall|j: int| 0 <= j < i ==> (#[trigger] nets@[j]).well_formed(),
            decreases nets.len() - i,
        {
            let ok = match nets[i] {
                IpNetwork::V4 { prefix, .. } => prefix <= 32,
                IpNetwork::V6 { prefix, .. } => prefix <= 128,
            };
            if !ok {
                return None;
            }
            i += 1;
        }
        Some(IpWhitelist { nets })
    }

    /// The allow-list of the given entries, each a CIDR block or a single
    /// address; the first entry that does not parse is refused with its text.
    pub fn parse(entries: &Vec<String>) -> (r: Result<IpWhitelist, String>)
        ensures
            match r {
                Ok(w) => w.networks().len() == entries@.len() && forall|i: int|
                    0 <= i < entries@.len() ==> entry_network(#[trigger] entries@[i]@) == Some(w.networks()[i]),
                Err(msg) => exists|i: int|
                    0 <= i < entries@.len() && entry_network(#[trigger] entries@[i]@) is None && msg@ == entry_error(
                        entries@[i]@,
                    ) && forall|j: int| 0 <= j < i ==> entry_network(#[trigger] entries@[j]@) is Some,
            },
            (r is Ok) == forall|i: int| 0 <= i < entries@.len() ==> entry_network(#[trigger] entries@[i]@) is Some,
    {
        let mut nets: Vec<IpNetwork> = Vec::new();
        let mut i: usize = 0;
        while i < entries.len()
            invariant
                i <= entries.len(),
                nets@.len() == i,
                forall|j: int| 0 <= j < i ==> entry_network(#[trigger] entries@[j]@) == Some(nets@[j]),
                forall|j: int| 0 <= j < i ==> (#[trigger] nets@[j]).well_formed(),
            decreases entries.len() - i,
        {
            let e = entries[i].as_str();
            if contains_char(e, '/') {
                match parse_cidr(e) {
                    Some(n) => nets.push(n),
                    None => {
                        return Err(concat2("非法 CIDR: ", e));
                    },
                }
            } else {
                match parse_host(e) {
                    Some(ip) => nets.push(IpNetwork::host(ip)),
                    None => {
                        return Err(concat2("非法 IP: ", e));
                    },
                }
            }
            i += 1;
        }
        Ok(IpWhitelist { nets })
    }

    /// Why a request from `ip` (`None` when its source is unknown) is
    /// refused, if it is: an unknown source, or one outside every network.
    pub fn refusal(&self, ip: Option<IpAddress>) -> (r: Option<&'static str>)
        ensures
            match ip {
                None => r matches Some(m) && m@ == "Forbidden: 无法确定来源 IP"@,
                Some(a) => if exists|i: int| 0 <= i < self.networks().len() && (#[trigger] self.networks()[i]).holds(a) {
                    r is None
                } else {
                    r matches Some(m) && m@ == "Forbidden: IP 不在白名单"@
                },
            },
    {
        match ip {
            None => Some("Forbidden: 无法确定来源 IP"),
            Some(a) => if self.allows(a) {
                None
            } else {
                Some("Forbidden: IP 不在白名单")
            },
        }
    }

    /// Whether `ip` lies in one of the networks.
    pub fn allows(&self, ip: IpAddress) -> (b: bool)
        ensures
            b == exists|i: int| 0 <= i < self.networks().len() && (#[trigger] self.networks()[i]).holds(ip),
    {
        proof {
            use_type_invariant(self);
        }
        let mut i: usize = 0;
        while i < self.nets.len()
            invariant
                i <= self.nets.len(),
                forall|j: int| 0 <= j < self.nets@.len() ==> (#[trigger] self.nets@[j]).well_formed(),
                forall|j: int| 0 <= j < i ==> !(#[trigger] self.nets@[j]).holds(ip),
            decreases self.nets.len() - i,
        {
            if self.nets[i].contains(ip) {
                assert(self.networks()[i as int].holds(ip));
                return true;
            }
            i += 1;
        }
        false
    }
}

} // verus!

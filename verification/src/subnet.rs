//! The IPv4 network that one gateway owns.

use vstd::arithmetic::div_mod::{lemma_basic_div, lemma_div_basics};
use vstd::arithmetic::power2::{lemma2_to64, lemma_pow2_pos, pow2};
use vstd::bits::{lemma_u32_pow2_no_overflow, lemma_u32_shl_is_mul, lemma_u32_shr_is_div};
use vstd::prelude::*;

verus! {

/// What `ipnet` makes of `text` read as an IPv4 network in the form
/// `a.b.c.d/n`: the four bytes of the address and the prefix length, or
/// nothing where `text` is no such network.
pub uninterp spec fn parsed_ipv4_net(text: Seq<char>) -> Option<([u8; 4], u8)>;

/// Calls `str::parse::<ipnet::Ipv4Net>`, which runs the parser of `ipnet`.
///
/// Trusted: the outcome depends on the text alone. On success the address
/// and the prefix length of the parsed network are handed out as they are.
#[verifier::external_body]
fn parse_ipv4_net(text: &str) -> (parsed: Option<([u8; 4], u8)>)
    ensures
        parsed == parsed_ipv4_net(text@),
{
    match text.parse::<ipnet::Ipv4Net>() {
        Ok(net) => Some((net.addr().octets(), net.prefix_len())),
        Err(_) => None,
    }
}

/// The network that `text` stands for: what `ipnet` reads from it, as long
/// as the prefix is no longer than an address.
pub open spec fn network_text(text: Seq<char>) -> Option<([u8; 4], u8)> {
    match parsed_ipv4_net(text) {
        Some((addr, prefix_len)) => if prefix_len <= 32 {
            Some((addr, prefix_len))
        } else {
            None
        },
        None => None,
    }
}

/// The address `a` as one number, the first byte counting most.
pub open spec fn address_value(a: Seq<u8>) -> nat {
    (a[0] as nat) * 0x100_0000 + (a[1] as nat) * 0x1_0000 + (a[2] as nat) * 0x100 + (a[3] as nat)
}

/// Whether `ip` lies in the network of `addr` with `prefix_len` leading
/// network bits: the two agree once the host bits are dropped.
pub open spec fn in_network(addr: Seq<u8>, prefix_len: u8, ip: Seq<u8>) -> bool {
    address_value(ip) / pow2((32 - prefix_len) as nat) == address_value(addr) / pow2(
        (32 - prefix_len) as nat,
    )
}

/// The number whose `prefix_len` leading bits, of 32, are set.
pub open spec fn netmask_value(prefix_len: u8) -> int {
    pow2(32) - pow2((32 - prefix_len) as nat)
}

/// The address `a` as one number.
fn value_of(a: [u8; 4]) -> (v: u32)
    ensures
        v == address_value(a@),
{
    (a[0] as u32) * 0x100_0000 + (a[1] as u32) * 0x1_0000 + (a[2] as u32) * 0x100 + (a[3] as u32)
}

/// The address whose number is `v`.
#[verifier::rlimit(50)]
fn address_of(v: u32) -> (a: [u8; 4])
    ensures
        address_value(a@) == v,
{
    [(v / 0x100_0000) as u8, ((v / 0x1_0000) % 0x100) as u8, ((v / 0x100) % 0x100) as u8, (v
        % 0x100) as u8]
}

/// An IPv4 network: an address inside it and the length of its prefix. A
/// gateway takes the address for its interface and answers for the whole
/// network.
#[derive(Clone, Copy, Debug)]
pub struct VirtualSubnet {
    addr: [u8; 4],
    prefix_len: u8,
}

impl VirtualSubnet {
    #[verifier::type_invariant]
    spec fn prefix_fits(self) -> bool {
        self.prefix_len <= 32
    }

    /// The address that the network was given with.
    pub closed spec fn spec_addr(self) -> [u8; 4] {
        self.addr
    }

    /// The number of leading bits that make up the network part.
    pub closed spec fn spec_prefix_len(self) -> u8 {
        self.prefix_len
    }

    /// Whether `ip` lies in this network.
    pub open spec fn spec_contains(self, ip: Seq<u8>) -> bool {
        in_network(self.spec_addr()@, self.spec_prefix_len(), ip)
    }

    /// The network of `addr` with `prefix_len` leading network bits; none
    /// where `prefix_len` is above 32.
    pub fn new(addr: [u8; 4], prefix_len: u8) -> (net: Option<Self>)
        ensures
            net is Some <==> prefix_len <= 32,
            net matches Some(n) ==> n.spec_addr() == addr && n.spec_prefix_len() == prefix_len,
    {
        if prefix_len <= 32 {
            Some(VirtualSubnet { addr, prefix_len })
        } else {
            None
        }
    }

    /// Reads a network written as `a.b.c.d/n`.
    pub fn parse(text: &str) -> (net: Option<Self>)
        ensures
            net is Some <==> network_text(text@) is Some,
            net matches Some(n) ==> network_text(text@) == Some(
                (n.spec_addr(), n.spec_prefix_len()),
            ),
    {
        match parse_ipv4_net(text) {
            Some((addr, prefix_len)) => Self::new(addr, prefix_len),
            None => None,
        }
    }

    /// The address that the network was given with.
    #[verifier::when_used_as_spec(spec_addr)]
    pub fn addr(self) -> (addr: [u8; 4])
        ensures
            addr == self.spec_addr(),
    {
        self.addr
    }

    /// The number of leading bits that make up the network part, at most 32.
    #[verifier::when_used_as_spec(spec_prefix_len)]
    pub fn prefix_len(self) -> (prefix_len: u8)
        ensures
            prefix_len == self.spec_prefix_len(),
            prefix_len <= 32,
    {
        proof {
            use_type_invariant(&self);
        }
        self.prefix_len
    }

    /// The network mask: the address whose leading `prefix_len` bits are set.
    pub fn netmask(self) -> (mask: [u8; 4])
        ensures
            address_value(mask@) == netmask_value(self.spec_prefix_len()),
    {
        proof {
            use_type_invariant(&self);
            lemma2_to64();
        }
        let shift: u32 = 32 - self.prefix_len as u32;
        let value: u32 = if shift >= 32 {
            0
        } else {
            proof {
                lemma_u32_pow2_no_overflow(shift as nat);
                lemma_pow2_pos(shift as nat);
                lemma_u32_shl_is_mul(1, shift);
            }
            let host: u32 = 1u32 << shift;
            u32::MAX - (host - 1)
        };
        address_of(value)
    }

    /// Whether `ip` lies in this network.
    pub fn contains(self, ip: [u8; 4]) -> (inside: bool)
        ensures
            inside == self.spec_contains(ip@),
    {
        proof {
            use_type_invariant(&self);
            lemma2_to64();
        }
        let shift: u32 = 32 - self.prefix_len as u32;
        let a: u32 = value_of(self.addr);
        let b: u32 = value_of(ip);
        if shift >= 32 {
            proof {
                lemma_basic_div(a as int, pow2(32) as int);
                lemma_basic_div(b as int, pow2(32) as int);
            }
            true
        } else {
            proof {
                lemma_u32_shr_is_div(a, shift);
                lemma_u32_shr_is_div(b, shift);
            }
            (a >> shift) == (b >> shift)
        }
    }
}

/// The first address of the network of `addr` with `prefix_len` leading
/// network bits, as a number: the address with its host bits cleared.
pub open spec fn network_value(addr: Seq<u8>, prefix_len: u8) -> int {
    address_value(addr) - address_value(addr) % pow2((32 - prefix_len) as nat)
}

/// The last address of the network of `addr` with `prefix_len` leading
/// network bits, as a number: the address with its host bits set.
pub open spec fn broadcast_value(addr: Seq<u8>, prefix_len: u8) -> int {
    network_value(addr, prefix_len) + pow2((32 - prefix_len) as nat) - 1
}

/// A network is a range: an address lies in it exactly when it is neither
/// below the first address of the network nor above the last.
pub proof fn lemma_network_is_a_range(addr: Seq<u8>, prefix_len: u8, ip: Seq<u8>)
    requires
        prefix_len <= 32,
    ensures
        in_network(addr, prefix_len, ip) <==> network_value(addr, prefix_len) <= address_value(ip)
            <= broadcast_value(addr, prefix_len),
{
    let d = pow2((32 - prefix_len) as nat) as int;
    let a = address_value(addr) as int;
    let b = address_value(ip) as int;
    lemma_pow2_pos((32 - prefix_len) as nat);
    lemma_same_quotient(a, b, d);
}

/// Two numbers have the same quotient by `d` exactly when the second lies
/// in the stretch of `d` numbers that starts at the first less its
/// remainder.
proof fn lemma_same_quotient(a: int, b: int, d: int)
    by (nonlinear_arith)
    requires
        0 <= a,
        0 <= b,
        0 < d,
    ensures
        a / d == b / d <==> a - a % d <= b <= a - a % d + d - 1,
{
}

/// A network holds its own address.
pub proof fn lemma_contains_own_address(net: VirtualSubnet)
    ensures
        net.spec_contains(net.spec_addr()@),
{
}

/// A network whose prefix is empty holds every address.
pub proof fn lemma_empty_prefix_contains_all(net: VirtualSubnet, ip: Seq<u8>)
    requires
        net.spec_prefix_len() == 0,
    ensures
        net.spec_contains(ip),
{
    lemma2_to64();
    lemma_basic_div(address_value(ip) as int, pow2(32) as int);
    lemma_basic_div(address_value(net.spec_addr()@) as int, pow2(32) as int);
}

/// A network whose prefix is the whole address holds that address only.
pub proof fn lemma_full_prefix_contains_one(net: VirtualSubnet, ip: Seq<u8>)
    requires
        net.spec_prefix_len() == 32,
    ensures
        net.spec_contains(ip) <==> address_value(ip) == address_value(net.spec_addr()@),
{
    lemma2_to64();
    lemma_div_basics(address_value(ip) as int);
    lemma_div_basics(address_value(net.spec_addr()@) as int);
}

} // verus!

//! Network addresses and address ranges.

use vstd::arithmetic::div_mod::lemma_basic_div;
use vstd::arithmetic::power2::{lemma2_to64, lemma_pow2_adds, pow2};
use vstd::bits::{lemma_u128_shr_is_div, lemma_u32_shr_is_div};
use vstd::prelude::*;

verus! {

#[derive(Debug, Clone, Copy, PartialEq, Eq, Structural)]
pub enum IpAddr {
    V4(u32),
    V6(u128),
}

#[derive(Debug, Clone, Copy, PartialEq, Eq, Structural)]
pub struct SocketAddr {
    pub ip: IpAddr,
    pub port: u16,
}

impl SocketAddr {
    /// The address that stands for none: `0.0.0.0` and port 0.
    #[verifier::allow_in_spec]
    pub fn unspecified() -> SocketAddr
        returns
            (SocketAddr { ip: IpAddr::V4(0), port: 0 }),
    {
        SocketAddr { ip: IpAddr::V4(0), port: 0 }
    }

    /// The loopback address with port 0.
    #[verifier::allow_in_spec]
    pub fn loopback() -> SocketAddr
        returns
            (SocketAddr { ip: IpAddr::V4(0x7f00_0001), port: 0 }),
    {
        SocketAddr { ip: IpAddr::V4(0x7f00_0001), port: 0 }
    }
}

/// A range of addresses: those that agree with `addr` in its first `prefix_len` bits.
#[derive(Debug, Clone, Copy, PartialEq, Eq, Structural)]
pub struct IpNet {
    pub addr: IpAddr,
    pub prefix_len: u8,
}

impl IpNet {
    /// Whether an address lies in the range. The ranges of one family hold no
    /// address of the other.
    pub open spec fn spec_contains(self, ip: IpAddr) -> bool {
        match (self.addr, ip) {
            (IpAddr::V4(net), IpAddr::V4(a)) => {
                ||| self.prefix_len == 0
                ||| self.prefix_len <= 32 && (net >> ((32 - self.prefix_len) as u32)) == (a >> ((32
                    - self.prefix_len) as u32))
            },
            (IpAddr::V6(net), IpAddr::V6(a)) => {
                ||| self.prefix_len == 0
                ||| self.prefix_len <= 128 && (net >> ((128 - self.prefix_len) as u32)) == (a >> ((128
                    - self.prefix_len) as u32))
            },
            _ => false,
        }
    }

    pub fn contains(&self, ip: IpAddr) -> (yes: bool)
        ensures
            yes == self.spec_contains(ip),
    {
        match (self.addr, ip) {
            (IpAddr::V4(net), IpAddr::V4(a)) => {
                if self.prefix_len == 0 {
                    true
                } else if self.prefix_len <= 32 {
                    let shift: u32 = (32 - self.prefix_len) as u32;
                    (net >> shift) == (a >> shift)
                } else {
                    false
                }
            },
            (IpAddr::V6(net), IpAddr::V6(a)) => {
                if self.prefix_len == 0 {
                    true
                } else if self.prefix_len <= 128 {
                    let shift: u32 = (128 - self.prefix_len) as u32;
                    (net >> shift) == (a >> shift)
                } else {
                    false
                }
            },
            _ => false,
        }
    }
}

/// An address lies in a range exactly when the two agree in the leading bits:
/// when both, without the bits behind the prefix, are the same number.
pub proof fn law_range_is_by_leading_bits(net: IpNet, ip: IpAddr)
    ensures
        match (net.addr, ip) {
            (IpAddr::V4(n), IpAddr::V4(a)) => net.prefix_len <= 32 ==> (net.spec_contains(ip) <==> n as nat / pow2(
                (32 - net.prefix_len) as nat,
            ) == a as nat / pow2((32 - net.prefix_len) as nat)),
            (IpAddr::V6(n), IpAddr::V6(a)) => net.prefix_len <= 128 ==> (net.spec_contains(ip) <==> n as nat / pow2(
                (128 - net.prefix_len) as nat,
            ) == a as nat / pow2((128 - net.prefix_len) as nat)),
            _ => !net.spec_contains(ip),
        },
{
    match (net.addr, ip) {
        (IpAddr::V4(n), IpAddr::V4(a)) => {
            if 0 < net.prefix_len <= 32 {
                lemma_u32_shr_is_div(n, (32 - net.prefix_len) as u32);
                lemma_u32_shr_is_div(a, (32 - net.prefix_len) as u32);
            } else if net.prefix_len == 0 {
                lemma2_to64();
                lemma_basic_div(n as int, pow2(32) as int);
                lemma_basic_div(a as int, pow2(32) as int);
            }
        },
        (IpAddr::V6(n), IpAddr::V6(a)) => {
            if 0 < net.prefix_len <= 128 {
                lemma_u128_shr_is_div(n, (128 - net.prefix_len) as u128);
                lemma_u128_shr_is_div(a, (128 - net.prefix_len) as u128);
            } else if net.prefix_len == 0 {
                lemma2_to64();
                lemma_pow2_adds(64, 64);
                assert(pow2(128) == 0x1_0000_0000_0000_0000 * 0x1_0000_0000_0000_0000);
                lemma_basic_div(n as int, pow2(128) as int);
                lemma_basic_div(a as int, pow2(128) as int);
            }
        },
        _ => {},
    }
}

/// A range of full length holds exactly its own address.
pub proof fn law_full_prefix_is_one_address(net: u32, a: u32)
    ensures
        (IpNet { addr: IpAddr::V4(net), prefix_len: 32 }).spec_contains(IpAddr::V4(a)) <==> a == net,
{
    assert(net >> 0u32 == net) by (bit_vector);
    assert(a >> 0u32 == a) by (bit_vector);
}

} // verus!

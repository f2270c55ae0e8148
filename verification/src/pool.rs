//! Candidate endpoint generation.
//!
//! The candidate universe is eight fixed /24 address blocks; a candidate set
//! of `count` endpoints samples `count` distinct addresses uniformly from the
//! universe, then draws each endpoint's port independently from a fixed list
//! of service ports.

use crate::Endpoint;
use vstd::prelude::*;

verus! {

/// 162.159.192.0/24
pub const CIDR_BASE_0: u32 = 162 * 0x1000000 + 159 * 0x10000 + 192 * 0x100;

/// 162.159.193.0/24
pub const CIDR_BASE_1: u32 = 162 * 0x1000000 + 159 * 0x10000 + 193 * 0x100;

/// 162.159.195.0/24
pub const CIDR_BASE_2: u32 = 162 * 0x1000000 + 159 * 0x10000 + 195 * 0x100;

/// 162.159.204.0/24
pub const CIDR_BASE_3: u32 = 162 * 0x1000000 + 159 * 0x10000 + 204 * 0x100;

/// 188.114.96.0/24
pub const CIDR_BASE_4: u32 = 188 * 0x1000000 + 114 * 0x10000 + 96 * 0x100;

/// 188.114.97.0/24
pub const CIDR_BASE_5: u32 = 188 * 0x1000000 + 114 * 0x10000 + 97 * 0x100;

/// 188.114.98.0/24
pub const CIDR_BASE_6: u32 = 188 * 0x1000000 + 114 * 0x10000 + 98 * 0x100;

/// 188.114.99.0/24
pub const CIDR_BASE_7: u32 = 188 * 0x1000000 + 114 * 0x10000 + 99 * 0x100;

/// The 256 addresses of the /24 block at `base`, ascending.
pub open spec fn block_ips(base: u32) -> Seq<u32> {
    Seq::new(256, |i: int| (base + i) as u32)
}

/// The whole candidate address universe: the eight blocks, in order.
pub open spec fn universe() -> Seq<u32> {
    block_ips(CIDR_BASE_0) + block_ips(CIDR_BASE_1) + block_ips(CIDR_BASE_2) + block_ips(
        CIDR_BASE_3,
    ) + block_ips(CIDR_BASE_4) + block_ips(CIDR_BASE_5) + block_ips(CIDR_BASE_6) + block_ips(
        CIDR_BASE_7,
    )
}

/// The universe is strictly ascending, so its addresses are pairwise
/// distinct.
pub proof fn lemma_universe_increasing()
    ensures
        universe().len() == 2048,
        forall|a: int, b: int| 0 <= a < b < universe().len() ==> universe()[a] < universe()[b],
{
}

/// The fixed UDP service ports a candidate may be probed on.
pub open spec fn port_list() -> Seq<u16> {
    seq![
        500u16, 854, 859, 864, 878, 880, 890, 891, 894, 903, 908, 928, 934, 939, 942, 943, 945,
        946, 955, 968, 987, 988, 1002, 1010, 1014, 1018, 1070, 1074, 1180, 1387, 1701, 2408, 4500,
        5050, 5242, 6515, 7103, 7152, 7156, 7281, 7559, 8319, 8742, 8854, 8886,
    ]
}

/// The port list as a vector.
fn port_vec() -> (r: Vec<u16>)
    ensures
        r@ == port_list(),
{
    let r: Vec<u16> = vec![
        500u16, 854, 859, 864, 878, 880, 890, 891, 894, 903, 908, 928, 934, 939, 942, 943, 945,
        946, 955, 968, 987, 988, 1002, 1010, 1014, 1018, 1070, 1074, 1180, 1387, 1701, 2408, 4500,
        5050, 5242, 6515, 7103, 7152, 7156, 7281, 7559, 8319, 8742, 8854, 8886,
    ];
    proof {
        assert(r@ =~= port_list());
    }
    r
}

/// Relies on ipnetwork::Ipv4Network::new and iter (ipnetwork 0.21): a /24
/// network whose host octet is zero iterates exactly its 256 addresses in
/// ascending order.
#[verifier::external_body]
fn expand_block(base: u32) -> (r: Vec<u32>)
    requires
        base % 256 == 0,
    ensures
        r@ =~= block_ips(base),
{
    let network = ipnetwork::Ipv4Network::new(base.into(), 24).expect("a /24 prefix is valid");
    network.iter().map(u32::from).collect()
}

/// The candidate address universe, materialised: every address of every
/// configured block, ascending.
pub fn build_universe() -> (r: Vec<u32>)
    ensures
        r@ == universe(),
{
    let mut r: Vec<u32> = expand_block(CIDR_BASE_0);
    let mut b1 = expand_block(CIDR_BASE_1);
    let mut b2 = expand_block(CIDR_BASE_2);
    let mut b3 = expand_block(CIDR_BASE_3);
    let mut b4 = expand_block(CIDR_BASE_4);
    let mut b5 = expand_block(CIDR_BASE_5);
    let mut b6 = expand_block(CIDR_BASE_6);
    let mut b7 = expand_block(CIDR_BASE_7);
    r.append(&mut b1);
    r.append(&mut b2);
    r.append(&mut b3);
    r.append(&mut b4);
    r.append(&mut b5);
    r.append(&mut b6);
    r.append(&mut b7);
    proof {
        assert(r@ =~= universe());
    }
    r
}

/// Relies on rand::seq::index::sample (rand 0.10): exactly `amount`
/// distinct indices drawn uniformly from `0..length`.
#[verifier::external_body]
fn sample_distinct_indices(length: usize, amount: usize) -> (r: Vec<usize>)
    requires
        amount <= length,
    ensures
        r@.len() == amount,
        forall|i: int| 0 <= i < r@.len() ==> (#[trigger] r@[i]) < length,
        forall|i: int, j: int| 0 <= i < j < r@.len() ==> r@[i] != r@[j],
{
    rand::seq::index::sample(&mut rand::rng(), length, amount).into_vec()
}

/// Relies on rand::random_range (rand 0.10): a uniform draw from a
/// non-empty range.
#[verifier::external_body]
fn rand_index(bound: usize) -> (r: usize)
    requires
        bound >= 1,
    ensures
        r < bound,
{
    rand::random_range(0..bound)
}

/// Which address family to generate candidates for.
#[derive(Clone, Copy, PartialEq, Eq, Structural, Debug)]
pub enum AddressFamily {
    V4,
    V6,
}

/// A configuration fault found before any probing begins.
#[derive(Clone, Copy, PartialEq, Eq, Structural, Debug)]
pub enum ConfigError {
    /// Candidate generation for this address family is not implemented.
    UnsupportedFamily,
    /// More candidates were requested than the universe holds.
    PoolExhausted,
}

/// Generate `count` candidate endpoints: `count` distinct addresses sampled
/// from the universe, each paired with a port drawn independently from the
/// port list.
///
/// Fails, before any probing could begin, when the address family is not
/// supported or the universe cannot supply `count` distinct addresses.
pub fn generate(family: AddressFamily, count: usize) -> (r: Result<Vec<Endpoint>, ConfigError>)
    ensures
        (r matches Err(e) ==> (if family is V6 {
            e == ConfigError::UnsupportedFamily
        } else {
            e == ConfigError::PoolExhausted && count > universe().len()
        })),
        r is Ok <==> family is V4 && count <= universe().len(),
        (r matches Ok(v) ==> v@.len() == count && (forall|a: int, b: int|
            0 <= a < b < v@.len() ==> (#[trigger] v@[a]).ip != (#[trigger] v@[b]).ip) && (
        forall|k: int| 0 <= k < v@.len() ==> universe().contains((#[trigger] v@[k]).ip)) && (
        forall|k: int| 0 <= k < v@.len() ==> port_list().contains((#[trigger] v@[k]).port))),
{
    match family {
        AddressFamily::V6 => {
            return Err(ConfigError::UnsupportedFamily);
        },
        AddressFamily::V4 => {},
    }
    let universe_ips = build_universe();
    proof {
        lemma_universe_increasing();
    }
    if count > universe_ips.len() {
        return Err(ConfigError::PoolExhausted);
    }
    let indices = sample_distinct_indices(universe_ips.len(), count);
    let ports = port_vec();
    let mut out: Vec<Endpoint> = Vec::new();
    let mut i: usize = 0;
    while i < count
        invariant
            0 <= i <= count,
            out@.len() == i,
            universe_ips@ == universe(),
            indices@.len() == count,
            forall|k: int| 0 <= k < indices@.len() ==> (#[trigger] indices@[k]) < universe().len(),
            forall|a: int, b: int| 0 <= a < b < indices@.len() ==> indices@[a] != indices@[b],
            ports@ == port_list(),
            forall|k: int|
                0 <= k < i ==> (#[trigger] out@[k]).ip == universe()[indices@[k] as int],
            forall|k: int| 0 <= k < i ==> port_list().contains((#[trigger] out@[k]).port),
        decreases count - i,
    {
        let ip = universe_ips[indices[i]];
        let port = ports[rand_index(ports.len())];
        out.push(Endpoint { ip, port });
        i = i + 1;
    }
    proof {
        lemma_universe_increasing();
        assert forall|a: int, b: int| 0 <= a < b < out@.len() implies (#[trigger] out@[a]).ip != (
        #[trigger] out@[b]).ip by {
            let ia = indices@[a] as int;
            let ib = indices@[b] as int;
            if ia < ib {
                assert(universe()[ia] < universe()[ib]);
            } else {
                assert(universe()[ib] < universe()[ia]);
            }
        }
        assert forall|k: int| 0 <= k < out@.len() implies universe().contains(
            (#[trigger] out@[k]).ip,
        ) by {
            assert(universe()[indices@[k] as int] == out@[k].ip);
        }
    }
    Ok(out)
}

} // verus!

//! The prime table used to diffuse the generator state.

use vstd::prelude::*;

verus! {

/// Number of entries in the prime table.
pub const PRIME_COUNT: usize = 16;

/// The prime table used to diffuse the generator state: sixteen odd 64-bit
/// primes.
pub open spec fn prime_at(i: int) -> u64 {
    if i == 0 {
        0x9e3779b97f4a7c55u64
    } else if i == 1 {
        0xbf58476d1ce4e5ffu64
    } else if i == 2 {
        0x94d049bb13311243u64
    } else if i == 3 {
        0xc2b2ae3d27d4eb4fu64
    } else if i == 4 {
        0x165667b19e3779f9u64
    } else if i == 5 {
        0xd6e8feb86659fd99u64
    } else if i == 6 {
        0xff51afd7ed558ccdu64
    } else if i == 7 {
        0xc4ceb9fe1a85eccdu64
    } else if i == 8 {
        0x87c37b911142540du64
    } else if i == 9 {
        0x4cf5ad43274593b9u64
    } else if i == 10 {
        0xa0761d6478bd642fu64
    } else if i == 11 {
        0xe7037ed1a0b428dbu64
    } else if i == 12 {
        0x8ebc6af09c88c6e3u64
    } else if i == 13 {
        0x589965cc75374cc3u64
    } else if i == 14 {
        0x1d8e4e27c47d124fu64
    } else {
        0xd3833e804f4c5791u64
    }
}

/// Looks up entry `i` of the prime table.
pub fn prime(i: usize) -> (p: u64)
    requires
        i < PRIME_COUNT,
    ensures
        p == prime_at(i as int),
{
    match i {
        0 => 0x9e3779b97f4a7c55u64,
        1 => 0xbf58476d1ce4e5ffu64,
        2 => 0x94d049bb13311243u64,
        3 => 0xc2b2ae3d27d4eb4fu64,
        4 => 0x165667b19e3779f9u64,
        5 => 0xd6e8feb86659fd99u64,
        6 => 0xff51afd7ed558ccdu64,
        7 => 0xc4ceb9fe1a85eccdu64,
        8 => 0x87c37b911142540du64,
        9 => 0x4cf5ad43274593b9u64,
        10 => 0xa0761d6478bd642fu64,
        11 => 0xe7037ed1a0b428dbu64,
        12 => 0x8ebc6af09c88c6e3u64,
        13 => 0x589965cc75374cc3u64,
        14 => 0x1d8e4e27c47d124fu64,
        _ => 0xd3833e804f4c5791u64,
    }
}

} // verus!

//! Who a request comes from.
//!
//! The limiter tells clients apart by the address of the peer.  An address
//! becomes a key, a number of 128 bits; a peer without a usable address
//! shares one key with all others of its kind.

use vstd::prelude::*;

verus! {

/// The identity of a client: a number derived from the address of its peer.
#[derive(Debug, Clone, Copy, PartialEq, Eq, Hash, Structural)]
pub struct ClientKey(pub u128);

/// The key of the clients whose peer address is not known or not well
/// formed.  It is the number of the unspecified address, which no peer has.
pub const FALLBACK_KEY: u128 = 0;

/// The number that a run of octets denotes, read most significant first.
pub open spec fn big_endian(octets: Seq<u8>) -> nat
    decreases octets.len(),
{
    if octets.len() == 0 {
        0
    } else {
        big_endian(octets.drop_last()) * 256 + octets.last() as nat
    }
}

/// The key of the client behind the peer address `octets`.
///
/// Sixteen octets are an IPv6 address and denote their own number.  Four
/// octets are an IPv4 address and denote the number of the IPv6 address
/// that it is mapped to.  Anything else is no address, and all such peers
/// share one key.
pub open spec fn key_of(octets: Seq<u8>) -> u128 {
    if octets.len() == 16 {
        big_endian(octets) as u128
    } else if octets.len() == 4 {
        (0xFFFF_0000_0000 + big_endian(octets)) as u128
    } else {
        FALLBACK_KEY
    }
}

/// 256 to the power of `n`.
pub open spec fn octet_span(n: nat) -> nat
    decreases n,
{
    if n == 0 {
        1
    } else {
        256 * octet_span((n - 1) as nat)
    }
}

/// A run of `n` octets denotes a number below 256 to the power of `n`.
pub proof fn lemma_big_endian_bound(octets: Seq<u8>)
    ensures
        big_endian(octets) < octet_span(octets.len()),
    decreases octets.len(),
{
    if octets.len() > 0 {
        lemma_big_endian_bound(octets.drop_last());
    }
}

/// Runs of octets of one length that denote one number are one run: no two
/// addresses of one kind share a key.
pub proof fn lemma_big_endian_injective(a: Seq<u8>, b: Seq<u8>)
    requires
        a.len() == b.len(),
        big_endian(a) == big_endian(b),
    ensures
        a == b,
    decreases a.len(),
{
    if a.len() > 0 {
        lemma_big_endian_injective(a.drop_last(), b.drop_last());
        assert(a =~= a.drop_last().push(a.last()));
    }
}

/// The key of the client behind the peer address `peer`.
pub fn client_key(peer: &[u8]) -> (key: ClientKey)
    ensures
        key.0 == key_of(peer@),
{
    let n = peer.len();
    if n != 4 && n != 16 {
        return ClientKey(FALLBACK_KEY);
    }
    let mut number: u128 = 0;
    let mut i: usize = 0;
    while i < n
        invariant
            i <= n,
            n == peer@.len(),
            n <= 16,
            number == big_endian(peer@.subrange(0, i as int)),
        decreases n - i,
    {
        proof {
            let shorter = peer@.subrange(0, i as int);
            let longer = peer@.subrange(0, i + 1);
            assert(longer.drop_last() =~= shorter);
            lemma_big_endian_bound(shorter);
            lemma_octet_span_grows(i as nat, 15);
            lemma_octet_span_values();
        }
        number = number * 256 + peer[i] as u128;
        i = i + 1;
    }
    proof {
        assert(peer@.subrange(0, n as int) =~= peer@);
        lemma_big_endian_bound(peer@);
        lemma_octet_span_values();
    }
    if n == 4 {
        ClientKey(0xFFFF_0000_0000 + number)
    } else {
        ClientKey(number)
    }
}

/// The spans of four, fifteen and sixteen octets.
proof fn lemma_octet_span_values()
    ensures
        octet_span(4) == 0x1_0000_0000,
        octet_span(15) == 0x1_00_0000_0000_0000_0000_0000_0000_0000,
        octet_span(16) == 0x1_0000_0000_0000_0000_0000_0000_0000_0000,
{
    reveal_with_fuel(octet_span, 17);
}

/// The span of a shorter run of octets is no larger.
proof fn lemma_octet_span_grows(a: nat, b: nat)
    requires
        a <= b,
    ensures
        octet_span(a) <= octet_span(b),
    decreases b,
{
    if a < b {
        lemma_octet_span_grows(a, (b - 1) as nat);
    }
}

} // verus!

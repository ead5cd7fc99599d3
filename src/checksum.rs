//! Additive 16-bit checksum of the packet protocol.

use vstd::prelude::*;

verus! {

/// The sum of all bytes of `s`, as an unbounded natural number.
pub open spec fn byte_sum(s: Seq<u8>) -> nat
    decreases s.len(),
{
    if s.len() == 0 {
        0
    } else {
        byte_sum(s.drop_last()) + s.last() as nat
    }
}

/// The sum of all bytes of `s`, truncated to 16 bits.
pub open spec fn checksum_of(s: Seq<u8>) -> u16 {
    (byte_sum(s) % 0x1_0000) as u16
}

/// Sums `bytes` with 16-bit wraparound. Any length is accepted.
pub fn checksum(bytes: &[u8]) -> (r: u16)
    ensures
        r == checksum_of(bytes@),
{
    let mut sum: u16 = 0;
    let mut i: usize = 0;
    while i < bytes.len()
        invariant
            i <= bytes@.len(),
            sum as nat == byte_sum(bytes@.take(i as int)) % 0x1_0000,
        decreases bytes@.len() - i,
    {
        let b = bytes[i];
        proof {
            let t = bytes@.take(i as int + 1);
            assert(t.drop_last() =~= bytes@.take(i as int));
            assert(byte_sum(t) == byte_sum(bytes@.take(i as int)) + b as nat);
            vstd::arithmetic::div_mod::lemma_add_mod_noop(
                byte_sum(bytes@.take(i as int)) as int,
                b as int,
                0x1_0000,
            );
            vstd::arithmetic::div_mod::lemma_mod_twice(b as int, 0x1_0000);
        }
        sum = sum.wrapping_add(b as u16);
        i = i + 1;
    }
    assert(bytes@.take(bytes@.len() as int) =~= bytes@);
    sum
}

} // verus!

//! The bus sampler: one read of the 16 bus lines, assembled into a `u16`.
//!
//! The bus is handed in as 16 booleans in the fixed configuration order,
//! index 0 first. The address is built by shifting the accumulator left and
//! adding the next line's bit, so line index 0 lands in bit 15 and line
//! index 15 in bit 0. That ordering is part of the contract: callers depend
//! on index 0 being the most significant bit.

use vstd::prelude::*;

verus! {

/// Bit `k` of `v`, as a boolean.
pub open spec fn bit_of(v: u16, k: u16) -> bool {
    (v >> k) & 1 == 1
}

/// The address that a sequence of line states denotes: accumulate from the
/// front, doubling and adding one for each high line.
pub open spec fn bus_value(lines: Seq<bool>) -> int
    decreases lines.len(),
{
    if lines.len() == 0 {
        0
    } else {
        2 * bus_value(lines.drop_last()) + (if lines.last() {
            1int
        } else {
            0
        })
    }
}

/// Reads one stable bus state. Bit `15 - i` of the result is the state of
/// line `i`, and the result is the accumulated `bus_value` of the lines.
pub fn sample(pins: &[bool; 16]) -> (address: u16)
    ensures
        address == bus_value(pins@),
        forall|i: int| 0 <= i < 16 ==> bit_of(address, (15 - i) as u16) == pins@[i],
{
    let mut address: u16 = 0;
    let mut i: usize = 0;
    proof {
        vstd::arithmetic::power2::lemma2_to64();
    }
    while i < 16
        invariant
            i <= 16,
            address == bus_value(pins@.take(i as int)),
            address < vstd::arithmetic::power2::pow2(i as nat),
            forall|j: int| 0 <= j < i ==> bit_of(address, (i - 1 - j) as u16) == pins@[j],
        decreases 16 - i,
    {
        let bit: u16 = if pins[i] {
            1
        } else {
            0
        };
        proof {
            vstd::arithmetic::power2::lemma2_to64();
            if i < 15 {
                vstd::arithmetic::power2::lemma_pow2_strictly_increases(i as nat, 15);
            }
            assert(pins@.take(i + 1).drop_last() =~= pins@.take(i as int));
            assert(pins@.take(i + 1).last() == pins@[i as int]);
            let na: u16 = ((address << 1) + bit) as u16;
            assert((address << 1) + bit < 0x10000 && na == 2 * address + bit && bit_of(na, 0) == (
            bit == 1)) by (bit_vector)
                requires
                    address < 0x8000,
                    bit <= 1,
                    na == ((address << 1) + bit) as u16,
            ;
            assert(forall|k: u16| 1 <= k < 16 ==> #[trigger] bit_of(na, k) == bit_of(
                address,
                (k - 1) as u16,
            )) by (bit_vector)
                requires
                    bit <= 1,
                    na == ((address << 1) + bit) as u16,
            ;
            vstd::arithmetic::power2::lemma_pow2_unfold((i + 1) as nat);
        }
        address = (address << 1) + bit;
        i = i + 1;
    }
    proof {
        assert(pins@.take(16) =~= pins@);
    }
    address
}

} // verus!

//! Gene mixing: a bitwise multiplexer over the sixteen bytes of a payload.

use vstd::prelude::*;

verus! {

/// One byte of a child: wherever a bit of `selector` is set the bit of `dna1`
/// is taken, elsewhere the bit of `dna2`.
pub open spec fn spec_combine_dna(dna1: u8, dna2: u8, selector: u8) -> u8 {
    (selector & dna1) | (!selector & dna2)
}

/// Mixes one byte of each parent under a selector mask.
pub fn combine_dna(dna1: u8, dna2: u8, selector: u8) -> (child: u8)
    ensures
        child == spec_combine_dna(dna1, dna2, selector),
{
    (selector & dna1) | (!selector & dna2)
}

/// The child of two payloads under a selector: byte by byte the mix of the
/// parents' bytes under the selector's byte.
pub open spec fn spec_combine(dna1: Seq<u8>, dna2: Seq<u8>, selector: Seq<u8>) -> Seq<u8> {
    Seq::new(16, |i: int| spec_combine_dna(dna1[i], dna2[i], selector[i]))
}

/// Mixes the payloads of two parents under a selector of sixteen bytes.
pub fn combine(dna1: &[u8; 16], dna2: &[u8; 16], selector: &[u8; 16]) -> (child: [u8; 16])
    ensures
        child@ == spec_combine(dna1@, dna2@, selector@),
{
    let mut new_dna = [0u8; 16];
    let mut i: usize = 0;
    while i < 16
        invariant
            i <= 16,
            forall|j: int| 0 <= j < i ==> new_dna@[j] == spec_combine_dna(dna1@[j], dna2@[j], selector@[j]),
        decreases 16 - i,
    {
        new_dna[i] = combine_dna(dna1[i], dna2[i], selector[i]);
        i += 1;
    }
    assert(new_dna@ =~= spec_combine(dna1@, dna2@, selector@));
    new_dna
}

/// Every bit of a mixed byte is the bit of the first parent where the
/// selector's bit is set, and the bit of the second parent where it is not.
pub proof fn lemma_combine_selects_bits(dna1: u8, dna2: u8, selector: u8, bit: u8)
    requires
        bit < 8,
    ensures
        (spec_combine_dna(dna1, dna2, selector) >> bit) & 1 == if (selector >> bit) & 1 == 1 {
            (dna1 >> bit) & 1
        } else {
            (dna2 >> bit) & 1
        },
{
    assert((((selector & dna1) | (!selector & dna2)) >> bit) & 1 == if (selector >> bit) & 1 == 1 {
        (dna1 >> bit) & 1
    } else {
        (dna2 >> bit) & 1
    }) by (bit_vector)
        requires
            bit < 8,
    ;
}

} // verus!

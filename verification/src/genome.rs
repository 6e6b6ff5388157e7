//! How a child's genome is made from a selector and its parents' genomes.

use vstd::prelude::*;

verus! {

/// One byte of a child: where the selector has a 0 bit the child has a 0
/// bit; where it has a 1 bit the child has a 1 bit if either parent has.
pub open spec fn combine_byte(selector: u8, a: u8, b: u8) -> u8 {
    (selector & a) | (selector & b)
}

/// The child's genome, byte by byte.
pub open spec fn combine(selector: Seq<u8>, a: Seq<u8>, b: Seq<u8>) -> Seq<u8> {
    Seq::new(16, |i: int| combine_byte(selector[i], a[i], b[i]))
}

/// Computes the child's genome from the selector and both parents.
pub fn combine_dna(selector: &[u8; 16], dna_1: &[u8; 16], dna_2: &[u8; 16]) -> (child: [u8; 16])
    ensures
        child@ == combine(selector@, dna_1@, dna_2@),
        (forall|i: int| 0 <= i < 16 ==> selector@[i] == 0xffu8) ==> child@ == Seq::new(
            16,
            |i: int| dna_1@[i] | dna_2@[i],
        ),
        (forall|i: int| 0 <= i < 16 ==> selector@[i] == 0u8) ==> child@ == Seq::new(
            16,
            |i: int| 0u8,
        ),
{
    proof {
        if forall|i: int| 0 <= i < 16 ==> selector@[i] == 0xffu8 {
            lemma_combine_all_ones(selector@, dna_1@, dna_2@);
        }
        if forall|i: int| 0 <= i < 16 ==> selector@[i] == 0u8 {
            lemma_combine_all_zeros(selector@, dna_1@, dna_2@);
        }
    }
    let mut new_dna = [0u8; 16];
    let mut i: usize = 0;
    while i < 16
        invariant
            i <= 16,
            forall|j: int| 0 <= j < i ==> new_dna@[j] == combine_byte(selector@[j], dna_1@[j], dna_2@[j]),
        decreases 16 - i,
    {
        new_dna[i] = (selector[i] & dna_1[i]) | (selector[i] & dna_2[i]);
        i += 1;
    }
    new_dna
}

/// With a selector of all 1 bits the child is the bytewise OR of its parents.
pub proof fn lemma_combine_all_ones(selector: Seq<u8>, a: Seq<u8>, b: Seq<u8>)
    requires
        selector.len() == 16,
        forall|i: int| 0 <= i < 16 ==> selector[i] == 0xffu8,
    ensures
        combine(selector, a, b) == Seq::new(16, |i: int| a[i] | b[i]),
{
    assert forall|i: int| 0 <= i < 16 implies combine(selector, a, b)[i] == a[i] | b[i] by {
        let x = a[i];
        let y = b[i];
        assert((0xffu8 & x) | (0xffu8 & y) == x | y) by (bit_vector);
    }
}

/// With a selector of all 0 bits the child's genome is all zero.
pub proof fn lemma_combine_all_zeros(selector: Seq<u8>, a: Seq<u8>, b: Seq<u8>)
    requires
        selector.len() == 16,
        forall|i: int| 0 <= i < 16 ==> selector[i] == 0u8,
    ensures
        combine(selector, a, b) == Seq::new(16, |i: int| 0u8),
{
    assert forall|i: int| 0 <= i < 16 implies combine(selector, a, b)[i] == 0u8 by {
        let x = a[i];
        let y = b[i];
        assert((0u8 & x) | (0u8 & y) == 0u8) by (bit_vector);
    }
}

/// Bit by bit: a child's bit is set exactly where the selector's bit is set
/// and at least one parent's bit is.
pub proof fn lemma_combine_byte_bits(selector: u8, a: u8, b: u8)
    ensures
        combine_byte(selector, a, b) == selector & (a | b),
{
    assert((selector & a) | (selector & b) == selector & (a | b)) by (bit_vector);
}

} // verus!

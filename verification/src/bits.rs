//! Trusted boundary around `fixedbitset::FixedBitSet`, the bit-packed
//! cell buffer. Each wrapper's contract states what the corresponding
//! `fixedbitset` method does to the bits, phrased over `fbs_bits`.

use vstd::prelude::*;
use fixedbitset::FixedBitSet;

verus! {

#[verifier::external_type_specification]
#[verifier::external_body]
pub struct ExFixedBitSet(FixedBitSet);

/// The bits a `FixedBitSet` holds, in index order; its length is the
/// set's fixed capacity in bits.
pub uninterp spec fn fbs_bits(s: FixedBitSet) -> Seq<bool>;

/// Relies on `FixedBitSet::with_capacity`: a fresh set of `bits` bits,
/// all initially clear.
#[verifier::external_body]
pub(crate) fn fbs_new(bits: usize) -> (r: FixedBitSet)
    ensures
        fbs_bits(r) == Seq::new(bits as nat, |i: int| false),
{
    FixedBitSet::with_capacity(bits)
}

/// Relies on `FixedBitSet::contains`: reads one bit (never panics; the
/// precondition keeps the read inside the capacity, where the bit is
/// stored rather than defaulted).
#[verifier::external_body]
pub(crate) fn fbs_get(s: &FixedBitSet, bit: usize) -> (r: bool)
    requires
        bit < fbs_bits(*s).len(),
    ensures
        r == fbs_bits(*s)[bit as int],
{
    s.contains(bit)
}

/// Relies on `FixedBitSet::set`: writes one bit in place, leaving the
/// capacity and every other bit unchanged (panics only out of bounds,
/// which the precondition rules out).
#[verifier::external_body]
pub(crate) fn fbs_set(s: &mut FixedBitSet, bit: usize, enabled: bool)
    requires
        bit < fbs_bits(*old(s)).len(),
    ensures
        fbs_bits(*final(s)) == fbs_bits(*old(s)).update(bit as int, enabled),
{
    s.set(bit, enabled)
}

/// Relies on `FixedBitSet::toggle`: inverts one bit in place, leaving
/// the capacity and every other bit unchanged (panics only out of
/// bounds, which the precondition rules out).
#[verifier::external_body]
pub(crate) fn fbs_toggle(s: &mut FixedBitSet, bit: usize)
    requires
        bit < fbs_bits(*old(s)).len(),
    ensures
        fbs_bits(*final(s)) == fbs_bits(*old(s)).update(bit as int, !fbs_bits(*old(s))[bit as int]),
{
    s.toggle(bit)
}

/// Relies on `FixedBitSet::clear`: disables every bit, keeping the
/// capacity.
#[verifier::external_body]
pub(crate) fn fbs_clear(s: &mut FixedBitSet)
    ensures
        fbs_bits(*final(s)) == Seq::new(fbs_bits(*old(s)).len(), |i: int| false),
{
    s.clear()
}

} // verus!

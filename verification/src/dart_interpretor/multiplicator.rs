use vstd::prelude::*;

verus! {

/// The scoring ring of the board that a dart landed in.
#[derive(Debug, Clone, Copy, PartialEq, Eq)]
pub enum MultiplierKind {
    /// Off the board.
    Zero,
    Single,
    Double,
    Triple,
    /// The black border around the double ring, which scores nothing.
    BlackBorder,
}

/// The score multiplier of a ring.
pub open spec fn ring_multiplier(kind: MultiplierKind) -> u32 {
    match kind {
        MultiplierKind::Zero | MultiplierKind::BlackBorder => 0,
        MultiplierKind::Single => 1,
        MultiplierKind::Double => 2,
        MultiplierKind::Triple => 3,
    }
}

/// Off the board and on the black border a dart scores nothing; the single,
/// double and triple rings multiply the sector by 1, 2 and 3.
pub proof fn lemma_ring_multipliers()
    ensures
        ring_multiplier(MultiplierKind::Zero) == 0,
        ring_multiplier(MultiplierKind::BlackBorder) == 0,
        ring_multiplier(MultiplierKind::Single) == 1,
        ring_multiplier(MultiplierKind::Double) == 2 * ring_multiplier(MultiplierKind::Single),
        ring_multiplier(MultiplierKind::Triple) == 3 * ring_multiplier(MultiplierKind::Single),
{
}

/// Converts a ring into its score multiplier: 0 off the board and on the
/// black border, 1, 2 and 3 on the single, double and triple rings.
pub fn multiplier_from_kind(kind: MultiplierKind) -> (m: u32)
    ensures
        m == ring_multiplier(kind),
        m <= 3,
{
    match kind {
        MultiplierKind::Zero | MultiplierKind::BlackBorder => 0,
        MultiplierKind::Single => 1,
        MultiplierKind::Double => 2,
        MultiplierKind::Triple => 3,
    }
}

} // verus!

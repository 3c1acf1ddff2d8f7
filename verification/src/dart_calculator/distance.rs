use vstd::prelude::*;

verus! {

/// Something that can report its distances to the board sensors.
///
/// It is implemented by the acquisition models (simulated timings, guessed
/// impact points); the distances themselves are measured in millimetres.
pub trait DistanceCalculation {
    type Output;

    fn get_distances(&self) -> Self::Output;
}

} // verus!

pub mod distance;

pub use distance::DistanceCalculation;

pub mod multiplicator;
pub mod zone;

pub mod beagle;
pub mod pound;

pub use beagle::Beagle;
pub use beagle::Sex;
pub use pound::Pound;

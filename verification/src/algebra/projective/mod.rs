pub mod morphism;
pub mod point;
pub mod scheme;

pub use morphism::ProjectiveMorphism;
pub use point::ProjectivePoint;
pub use scheme::ProjectiveScheme;

pub mod arithmetic;
pub mod errors;
pub mod field;
pub mod function;
pub mod graded_ring;
pub mod group;
pub mod module;
pub mod monoid;
pub mod polynomials;
pub mod projective;
pub mod ring;
pub mod set;

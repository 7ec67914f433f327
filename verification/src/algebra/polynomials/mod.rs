pub mod homogeneous_polynomial;
pub mod monomial;
pub mod polynomial;

pub use homogeneous_polynomial::HomogeneousPolynomial;
pub use monomial::Monomial;
pub use polynomial::Polynomial;

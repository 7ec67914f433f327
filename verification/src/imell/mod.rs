pub mod deduction;
pub mod errors;
pub mod formula;

pub mod errors;
pub mod formula;
pub mod preformula;
pub mod proof_tree;
pub mod sequent;

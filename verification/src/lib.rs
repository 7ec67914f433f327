pub mod algebra;
pub mod common;
pub mod imell;
pub mod mell;
pub mod mll;
pub mod proof_net;

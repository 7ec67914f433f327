pub mod cut_reduction;
pub mod directed_multigraph;
pub mod errors;
pub mod laws;
pub mod links;
pub mod net_view;
pub mod proof2net;
pub mod proof_structure;

pub mod definitions;
pub mod sequences;

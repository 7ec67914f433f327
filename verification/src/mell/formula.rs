pub use crate::mll::formula::{Formula, FormulaView};

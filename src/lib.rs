pub mod csv;
pub mod eval;
pub mod pipeline;
pub mod process;
pub mod value;
pub mod rule;

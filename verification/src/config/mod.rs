pub mod env;
pub mod number;

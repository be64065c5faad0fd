pub mod cache;
pub mod loader;

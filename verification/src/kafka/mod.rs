pub mod consumer;
pub mod updates;

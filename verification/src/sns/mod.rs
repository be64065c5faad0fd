pub mod client;
pub mod dispatcher;
pub mod metrics;
pub mod models;
pub mod publisher;

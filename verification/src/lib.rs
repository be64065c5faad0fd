//! Core logic of the alert distributor: configuration parsing, permission and
//! device caches, the websocket connection registry and alert fan-out, and the
//! SNS notification pipeline.

pub mod config;
pub mod ids;
pub mod text;
pub mod kafka;
pub mod keyed;
pub mod ordered;
pub mod errors;
pub mod external;
pub mod models;
pub mod websocket;
pub mod sns;
pub mod permissions;

pub mod auth;
pub mod dispatcher;
pub mod handler;
pub mod registry;

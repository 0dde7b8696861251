pub mod models;
pub mod store;
pub mod registry;
pub mod chat;
pub mod auth;

//! HTTP route logic, one module per resource.
pub mod articles;
pub mod chat;
pub mod sessions;
pub mod system;

//! The application core: domain types, configuration rules, chat-session
//! bookkeeping, ingest helpers and the agent's tool plumbing.
pub mod config;
pub mod db;
pub mod feed_guard;
pub mod fetchers;
pub mod ingest;
pub mod llm;
pub mod repository;
pub mod tools;
pub mod types;

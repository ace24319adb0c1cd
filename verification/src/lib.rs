//! Verified core of the buoya news agent: configuration rules, chat-session
//! and tool-call bookkeeping, the agent loop's decisions, ingest and feed
//! parsing, the HTTP and MCP request rules, and the terminal chat screen with
//! its Markdown renderer.
pub mod agent;
pub mod config;
pub mod domain;
pub mod error;
pub mod llm;
pub mod server;
pub mod text;
pub mod tui;
pub mod types;

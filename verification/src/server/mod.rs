//! The HTTP backend's logic: request bodies, their validation, error
//! envelopes, the documented route table and the bearer-token gate.
pub mod error;
pub mod mcp;
pub mod openapi;
pub mod routes;

use vstd::prelude::*;

verus! {

/// `serve` subcommand options.
pub struct ServeArgs {
    /// Address to bind the HTTP server to.
    pub host: String,
    /// Port to listen on.
    pub port: u16,
}

impl Default for ServeArgs {
    /// Loopback on port 8080.
    fn default() -> (a: ServeArgs)
        ensures
            a.host@ == "127.0.0.1"@,
            a.port == 8080,
    {
        ServeArgs { host: String::from_str("127.0.0.1"), port: 8080 }
    }
}

} // verus!

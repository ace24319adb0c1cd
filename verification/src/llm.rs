//! Chat-completion plumbing that does not depend on the transport: the events a
//! streamed reply produces.
use vstd::prelude::*;

verus! {

/// Events emitted while an assistant response streams in. The reply task never
/// panics; it reports failures as `Error`.
pub enum StreamEvent {
    /// A chunk of generated text to append to the in-progress reply.
    Token(String),
    /// The assistant invoked a tool; carries its display label.
    ToolCall(String),
    /// The stream finished successfully.
    Done,
    /// The request failed; carries a human-readable message.
    Error(String),
}

} // verus!

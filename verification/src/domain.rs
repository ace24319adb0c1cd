//! Core domain types shared across fetchers, pipeline, and tools.
use vstd::prelude::*;

verus! {

/// Topic of an article or feed.
#[derive(Clone, Copy, Debug, PartialEq, Eq, Structural)]
pub enum Category {
    Crypto,
    Ai,
    Security,
    Market,
}

} // verus!

//! The MCP endpoint's request gate and header bridge.
//!
//! When a bearer token is configured every request must carry
//! `Authorization: Bearer <token>`; without one the endpoint is open.
use vstd::prelude::*;

use crate::agent::types::str_eq;
use crate::text::{chars_of, is_blank, is_blank_chars, slice_chars, starts_with, string_of};

verus! {

/// The header value that presents `token`.
pub open spec fn bearer(token: Seq<char>) -> Seq<char> {
    "Bearer "@ + token
}

/// Whether a request with this `Authorization` header value may pass: always
/// when no token is configured, otherwise exactly when the header is
/// `Bearer ` followed by the token.
pub fn authorized(expected: &Option<String>, presented: Option<&str>) -> (ok: bool)
    ensures
        ok == match expected {
            None => true,
            Some(t) => presented matches Some(h) && h@ == bearer(t@),
        },
{
    match expected {
        None => true,
        Some(t) => match presented {
            None => false,
            Some(h) => {
                let hc = chars_of(h);
                let prefix = chars_of("Bearer ");
                if !starts_with(&hc, &prefix) {
                    proof {
                        reveal_strlit("Bearer ");
                        if h@ == bearer(t@) {
                            assert(hc@.take(prefix@.len() as int) =~= prefix@);
                        }
                    }
                    return false;
                }
                let rest = slice_chars(&hc, prefix.len(), hc.len());
                let rest_s = string_of(&rest);
                let same = str_eq(rest_s.as_str(), t.as_str());
                proof {
                    reveal_strlit("Bearer ");
                    assert(hc@ =~= prefix@ + rest@);
                    if h@ == bearer(t@) {
                        assert(rest@ =~= t@);
                    }
                }
                same
            },
        },
    }
}

/// Whether a response header is copied to the client. The body is streamed,
/// so framing is left to the server: `content-length` and
/// `transfer-encoding` are dropped.
pub fn forward_header(name: &str) -> (r: bool)
    ensures
        r == (name@ != "content-length"@ && name@ != "transfer-encoding"@),
{
    !str_eq(name, "content-length") && !str_eq(name, "transfer-encoding")
}

/// The bearer token the endpoint requires, from the `MCP_AUTH_TOKEN` value:
/// unset or blank leaves the endpoint open; otherwise the value as given.
pub fn mcp_token(raw: Option<String>) -> (t: Option<String>)
    ensures
        match raw {
            Some(v) => if is_blank(v@) {
                t is None
            } else {
                t == Some(v)
            },
            None => t is None,
        },
{
    match raw {
        Some(v) => {
            let c = chars_of(v.as_str());
            if is_blank_chars(&c) {
                None
            } else {
                Some(v)
            }
        },
        None => None,
    }
}

} // verus!

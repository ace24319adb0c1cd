//! Session routes: the rules for creating and renaming chat sessions.
use vstd::prelude::*;

use crate::agent::db::DEFAULT_SESSION_TITLE;
use crate::server::error::{bad_request, ApiError};
use crate::text::{chars_of, is_blank, is_blank_chars, string_of, trim, trim_spec};

verus! {

/// Body for `POST /sessions`.
pub struct CreateSessionRequest {
    /// Optional initial title. Defaults to `"New chat"` when omitted or blank.
    pub title: Option<String>,
}

/// Body for `PATCH /sessions/{id}`.
pub struct RenameSessionRequest {
    /// The new session title. Must not be blank.
    pub title: String,
}

impl CreateSessionRequest {
    /// The title a new session gets: the requested one unless it is absent or
    /// blank, then the default.
    pub fn initial_title(self) -> (t: String)
        ensures
            match self.title {
                Some(s) => if is_blank(s@) {
                    t@ == "New chat"@
                } else {
                    t == s
                },
                None => t@ == "New chat"@,
            },
    {
        proof {
            reveal_strlit("New chat");
        }
        match self.title {
            Some(s) => {
                let c = chars_of(s.as_str());
                if is_blank_chars(&c) {
                    String::from_str(DEFAULT_SESSION_TITLE)
                } else {
                    s
                }
            },
            None => String::from_str(DEFAULT_SESSION_TITLE),
        }
    }
}

impl RenameSessionRequest {
    /// The new title, trimmed; a blank one is a 400.
    pub fn validated_title(&self) -> (r: Result<String, ApiError>)
        ensures
            match r {
                Ok(t) => !is_blank(self.title@) && t@ == trim_spec(self.title@),
                Err(e) => is_blank(self.title@) && e.status == 400 && e.body.error@
                    == "title must not be blank"@,
            },
    {
        let c = chars_of(self.title.as_str());
        if is_blank_chars(&c) {
            return Err(bad_request(String::from_str("title must not be blank")));
        }
        Ok(string_of(&trim(&c)))
    }
}

/// The 404 for an unknown session.
pub fn missing_session(id: &str) -> (e: ApiError)
    ensures
        e.status == 404,
        e.body.error@ == "no session with id "@ + id@,
{
    crate::server::error::not_found(String::from_str("no session with id ").concat(id))
}

} // verus!

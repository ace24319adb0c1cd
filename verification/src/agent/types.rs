//! Core domain types shared across fetchers, pipeline, and tools.
use vstd::prelude::*;

use crate::text::chars_of;

verus! {

/// Topic of an article or feed.
#[derive(Clone, Copy, Debug, PartialEq, Eq, Structural)]
pub enum Category {
    Crypto,
    Ai,
    Security,
    Market,
    Defi,
}

/// Author of a chat message. Persisted as a lowercase string in `chat_messages.role`.
#[derive(Clone, Copy, Debug, PartialEq, Eq, Structural)]
pub enum Role {
    System,
    User,
    Assistant,
}

/// Whether two strings hold the same chars.
pub fn str_eq(a: &str, b: &str) -> (r: bool)
    ensures
        r == (a@ == b@),
{
    let x = chars_of(a);
    let y = chars_of(b);
    if x.len() != y.len() {
        return false;
    }
    let mut i: usize = 0;
    while i < x.len()
        invariant
            i <= x.len() == y.len(),
            x@ == a@,
            y@ == b@,
            forall|k: int| 0 <= k < i ==> x@[k] == y@[k],
        decreases x.len() - i,
    {
        if x[i] != y[i] {
            assert(x@[i as int] != y@[i as int]);
            return false;
        }
        i += 1;
    }
    assert(x@ =~= y@);
    true
}

impl Role {
    /// The stored name of the role.
    pub open spec fn name(self) -> Seq<char> {
        match self {
            Role::System => "system"@,
            Role::User => "user"@,
            Role::Assistant => "assistant"@,
        }
    }

    /// The lowercase name the role is stored under.
    pub fn as_str(&self) -> (s: &'static str)
        ensures
            s@ == self.name(),
    {
        match self {
            Role::System => "system",
            Role::User => "user",
            Role::Assistant => "assistant",
        }
    }

    /// The role stored under the name `s`, if any.
    pub open spec fn named(s: Seq<char>) -> Option<Role> {
        if s == "system"@ {
            Some(Role::System)
        } else if s == "user"@ {
            Some(Role::User)
        } else if s == "assistant"@ {
            Some(Role::Assistant)
        } else {
            None
        }
    }

    /// The role stored under `s`, or an error naming the unknown value.
    pub fn parse(s: &str) -> (r: Result<Role, String>)
        ensures
            match Role::named(s@) {
                Some(role) => r == Ok::<Role, String>(role),
                None => r matches Err(msg) && msg@ == "unknown role: "@ + s@,
            },
    {
        if str_eq(s, "system") {
            Ok(Role::System)
        } else if str_eq(s, "user") {
            Ok(Role::User)
        } else if str_eq(s, "assistant") {
            Ok(Role::Assistant)
        } else {
            let msg = String::from_str("unknown role: ");
            Err(msg.concat(s))
        }
    }
}

impl std::str::FromStr for Role {
    type Err = String;

    fn from_str(s: &str) -> (r: Result<Role, String>)
        ensures
            match Role::named(s@) {
                Some(role) => r == Ok::<Role, String>(role),
                None => r matches Err(msg) && msg@ == "unknown role: "@ + s@,
            },
    {
        Role::parse(s)
    }
}

/// A saved chat conversation. One row in `chat_sessions`.
#[derive(Clone, Debug)]
pub struct ChatSession {
    pub id: String,
    pub title: String,
    pub created_at: String,
    pub updated_at: String,
}

/// A single message within a session. One row in `chat_messages`.
#[derive(Clone, Debug)]
pub struct ChatMessage {
    pub id: i64,
    pub session_id: String,
    pub role: Role,
    pub content: String,
    pub created_at: String,
    /// Human-readable labels for any tools the assistant invoked while producing
    /// this message.
    pub tools_used: Vec<String>,
}

/// A role is read back as the role whose name was stored: names are
/// distinct, so persisting a message keeps its author.
pub proof fn law_role_name_round_trip(r: Role)
    ensures
        Role::named(r.name()) == Some(r),
{
    reveal_strlit("system");
    reveal_strlit("user");
    reveal_strlit("assistant");
    assert("system"@ != "user"@) by {
        assert("system"@.len() != "user"@.len());
    }
    assert("system"@ != "assistant"@) by {
        assert("system"@[0] != "assistant"@[0]);
    }
    assert("user"@ != "assistant"@) by {
        assert("user"@.len() != "assistant"@.len());
    }
}

} // verus!

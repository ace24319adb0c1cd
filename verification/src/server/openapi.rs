//! The OpenAPI document's contents: every documented route and the schemas
//! they reference. The HTTP layer registers and documents exactly these.
use vstd::prelude::*;

use crate::agent::types::str_eq;

verus! {

/// The documented routes, as the OpenAPI `paths` keys.
pub open spec fn api_paths() -> Seq<Seq<char>> {
    seq![
        "/health"@,
        "/articles"@,
        "/articles/search"@,
        "/articles/{id}"@,
        "/market/snapshot"@,
        "/sessions"@,
        "/sessions/{id}"@,
        "/sessions/{id}/messages"@,
        "/sessions/{id}/chat"@,
        "/chat"@,
    ]
}

/// The schemas the routes reference, as the OpenAPI component names.
pub open spec fn api_schemas() -> Seq<Seq<char>> {
    seq![
        "ArticleSummary"@,
        "Article"@,
        "SnapshotItem"@,
        "ChatSession"@,
        "ChatMessage"@,
        "Role"@,
        "HealthResponse"@,
        "ErrorResponse"@,
        "ChatRequest"@,
        "ChatTurn"@,
        "SessionChatRequest"@,
        "CreateSessionRequest"@,
        "RenameSessionRequest"@,
    ]
}

/// The OpenAPI document of the HTTP backend.
pub struct ApiDoc;

/// What the document lists: route paths and component schema names.
pub struct ApiDocument {
    pub paths: Vec<&'static str>,
    pub schemas: Vec<&'static str>,
}

/// The text of each entry.
pub open spec fn strs_view(v: Seq<&'static str>) -> Seq<Seq<char>> {
    v.map_values(|s: &'static str| s@)
}

impl ApiDoc {
    /// The document: every documented path and schema, in declaration order.
    pub fn openapi() -> (d: ApiDocument)
        ensures
            strs_view(d.paths@) == api_paths(),
            strs_view(d.schemas@) == api_schemas(),
    {
        let mut paths: Vec<&'static str> = Vec::new();
        paths.push("/health");
        paths.push("/articles");
        paths.push("/articles/search");
        paths.push("/articles/{id}");
        paths.push("/market/snapshot");
        paths.push("/sessions");
        paths.push("/sessions/{id}");
        paths.push("/sessions/{id}/messages");
        paths.push("/sessions/{id}/chat");
        paths.push("/chat");
        let mut schemas: Vec<&'static str> = Vec::new();
        schemas.push("ArticleSummary");
        schemas.push("Article");
        schemas.push("SnapshotItem");
        schemas.push("ChatSession");
        schemas.push("ChatMessage");
        schemas.push("Role");
        schemas.push("HealthResponse");
        schemas.push("ErrorResponse");
        schemas.push("ChatRequest");
        schemas.push("ChatTurn");
        schemas.push("SessionChatRequest");
        schemas.push("CreateSessionRequest");
        schemas.push("RenameSessionRequest");
        let d = ApiDocument { paths, schemas };
        assert(strs_view(d.paths@) =~= api_paths());
        assert(strs_view(d.schemas@) =~= api_schemas());
        d
    }
}

/// Whether one of `v` reads `s`.
fn contains_str(v: &Vec<&'static str>, s: &str) -> (r: bool)
    ensures
        r == strs_view(v@).contains(s@),
{
    let mut i: usize = 0;
    while i < v.len()
        invariant
            i <= v.len(),
            forall|k: int| 0 <= k < i ==> v@[k]@ != s@,
        decreases v.len() - i,
    {
        if str_eq(v[i], s) {
            assert(strs_view(v@)[i as int] == s@);
            return true;
        }
        i += 1;
    }
    assert(!strs_view(v@).contains(s@)) by {
        if strs_view(v@).contains(s@) {
            let k = choose|k: int| 0 <= k < strs_view(v@).len() && strs_view(v@)[k] == s@;
            assert(v@[k]@ == s@);
        }
    }
    false
}

impl ApiDocument {
    /// Whether `path` is documented.
    pub fn contains_path(&self, path: &str) -> (r: bool)
        ensures
            r == strs_view(self.paths@).contains(path@),
    {
        contains_str(&self.paths, path)
    }

    /// Whether `schema` is a component.
    pub fn contains_schema(&self, schema: &str) -> (r: bool)
        ensures
            r == strs_view(self.schemas@).contains(schema@),
    {
        contains_str(&self.schemas, schema)
    }
}

} // verus!

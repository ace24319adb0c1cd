use buoya_news_agent::server::openapi::ApiDoc;

/// The OpenAPI document covers every documented route and resolves the
/// schemas they reference.
#[test]
fn openapi_document_lists_all_routes() {
    let doc = ApiDoc::openapi();

    for expected in [
        "/health",
        "/articles",
        "/articles/search",
        "/articles/{id}",
        "/market/snapshot",
        "/sessions",
        "/sessions/{id}",
        "/sessions/{id}/messages",
        "/sessions/{id}/chat",
        "/chat",
    ] {
        assert!(doc.contains_path(expected), "missing path: {expected}");
    }

    assert!(!doc.schemas.is_empty(), "components block should be present");
    for schema in [
        "ChatSession",
        "ChatMessage",
        "ArticleSummary",
        "Article",
        "SnapshotItem",
        "SessionChatRequest",
        "CreateSessionRequest",
    ] {
        assert!(doc.contains_schema(schema), "missing schema: {schema}");
    }
}

#[test]
fn openapi_document_has_no_unknown_route() {
    let doc = ApiDoc::openapi();
    assert!(!doc.contains_path("/mcp"));
    assert!(!doc.contains_path("/articles/"));
    assert!(!doc.contains_schema("Nope"));
    assert_eq!(doc.paths.len(), 10);
    assert_eq!(doc.schemas.len(), 13);
}

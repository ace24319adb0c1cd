use buoya_news_agent::agent::tools::ToolQuery;
use buoya_news_agent::agent::types::{ChatMessage, Role};
use buoya_news_agent::llm::StreamEvent;
use buoya_news_agent::server::error::{bad_request, internal, not_found, ErrorResponse};
use buoya_news_agent::server::mcp::{authorized, forward_header, mcp_token};
use buoya_news_agent::server::routes::articles::{missing_article, resolve_limit, ListQuery, SearchQuery};
use buoya_news_agent::server::routes::chat::{opening_title, sse_event, ChatRequest, ChatTurn, Relay, SessionChatRequest};
use buoya_news_agent::server::routes::sessions::{missing_session, CreateSessionRequest, RenameSessionRequest};
use buoya_news_agent::server::routes::system::health;
use buoya_news_agent::server::ServeArgs;

#[test]
fn errors_carry_status_and_message() {
    assert_eq!(ErrorResponse::new("x".to_string()).error, "x");
    let e = not_found("gone".to_string());
    assert_eq!((e.status, e.body.error.as_str()), (404, "gone"));
    let e = bad_request("bad".to_string());
    assert_eq!((e.status, e.body.error.as_str()), (400, "bad"));
    let e = missing_session("abc");
    assert_eq!((e.status, e.body.error.as_str()), (404, "no session with id abc"));
    let e = missing_article(-3);
    assert_eq!((e.status, e.body.error.as_str()), (404, "no article with id -3"));
}

#[test]
fn serve_defaults_to_loopback() {
    let a = ServeArgs::default();
    assert_eq!(a.host, "127.0.0.1");
    assert_eq!(a.port, 8080);
}

#[test]
fn route_limits_are_clamped() {
    assert_eq!(resolve_limit(None), 20);
    assert_eq!(resolve_limit(Some(0)), 1);
    assert_eq!(resolve_limit(Some(51)), 50);
}

#[test]
fn article_routes_pick_their_query() {
    let q = ListQuery { category: Some("ai".into()), limit: None };
    match q.to_query() {
        ToolQuery::ListRecent { category, limit } => {
            assert_eq!(category, Some("ai".to_string()));
            assert_eq!(limit, 20);
        }
        _ => panic!("expected a list query"),
    }
    let s = SearchQuery { q: "eth".into(), semantic: true, limit: Some(3) };
    assert!(matches!(s.to_query(), ToolQuery::SemanticSearch { limit: 3, .. }));
    let s = SearchQuery { q: "eth".into(), semantic: false, limit: Some(300) };
    match s.to_query() {
        ToolQuery::KeywordSearch { query, limit } => {
            assert_eq!(query, "eth");
            assert_eq!(limit, 50);
        }
        _ => panic!("expected a keyword search"),
    }
}

#[test]
fn session_titles_default_and_must_not_be_blank() {
    assert_eq!(CreateSessionRequest { title: None }.initial_title(), "New chat");
    assert_eq!(CreateSessionRequest { title: Some(" ".into()) }.initial_title(), "New chat");
    assert_eq!(CreateSessionRequest { title: Some("Mine".into()) }.initial_title(), "Mine");
    assert_eq!(RenameSessionRequest { title: "  Renamed ".into() }.validated_title().ok(), Some("Renamed".to_string()));
    let e = RenameSessionRequest { title: "  ".into() }.validated_title().err().unwrap();
    assert_eq!((e.status, e.body.error.as_str()), (400, "title must not be blank"));
}

#[test]
fn chat_content_is_trimmed_and_required() {
    let ok = SessionChatRequest { content: " hi ".into() }.validated_content();
    assert_eq!(ok.ok(), Some("hi".to_string()));
    let e = SessionChatRequest { content: "\n".into() }.validated_content().err().unwrap();
    assert_eq!((e.status, e.body.error.as_str()), (400, "message content must not be empty"));
}

#[test]
fn stateless_history_keeps_roles_and_order() {
    let req = ChatRequest {
        messages: vec![
            ChatTurn { role: Role::User, content: "q".into() },
            ChatTurn { role: Role::Assistant, content: "a".into() },
        ],
    };
    let h = req.into_history();
    assert_eq!(h.len(), 2);
    assert_eq!((h[0].role, h[0].content.as_str()), (Role::User, "q"));
    assert_eq!((h[1].role, h[1].content.as_str()), (Role::Assistant, "a"));
    assert!(h.iter().all(|m| m.id == 0 && m.session_id.is_empty() && m.tools_used.is_empty()));
}

#[test]
fn first_message_names_the_session() {
    assert_eq!(opening_title(&[], "  Hello there \nmore"), Some("Hello there".to_string()));
    let existing = vec![ChatMessage {
        id: 1,
        session_id: "s".into(),
        role: Role::User,
        content: "earlier".into(),
        created_at: String::new(),
        tools_used: Vec::new(),
    }];
    assert_eq!(opening_title(&existing, "Hello"), None);
}

#[test]
fn relay_persists_non_blank_replies_at_the_end() {
    let mut r = Relay::new();
    assert!(r.on_event(&StreamEvent::Token("Hel".into())).is_none());
    assert!(r.on_event(&StreamEvent::ToolCall("search".into())).is_none());
    assert!(r.on_event(&StreamEvent::Token("lo".into())).is_none());
    let (content, tools) = r.on_event(&StreamEvent::Done).unwrap();
    assert_eq!(content, "Hello");
    assert_eq!(tools, vec!["search".to_string()]);

    let mut blank = Relay::new();
    blank.on_event(&StreamEvent::Token("  ".into()));
    assert!(blank.on_event(&StreamEvent::Error("x".into())).is_none());
}

#[test]
fn mcp_gate_checks_bearer_token() {
    assert!(authorized(&None, None));
    let token = Some("s3cret".to_string());
    assert!(authorized(&token, Some("Bearer s3cret")));
    assert!(!authorized(&token, Some("Bearer wrong")));
    assert!(!authorized(&token, Some("s3cret")));
    assert!(!authorized(&token, None));
}

#[test]
fn mcp_drops_framing_headers() {
    assert!(forward_header("content-type"));
    assert!(!forward_header("content-length"));
    assert!(!forward_header("transfer-encoding"));
}

#[test]
fn health_reports_ok() {
    assert_eq!(health().status, "ok");
}

#[test]
fn blank_mcp_token_leaves_endpoint_open() {
    assert_eq!(mcp_token(None), None);
    assert_eq!(mcp_token(Some("  ".into())), None);
    assert_eq!(mcp_token(Some(" t0k ".into())), Some(" t0k ".to_string()));
}

#[test]
fn stream_events_map_to_named_sse_events() {
    assert_eq!(sse_event(&StreamEvent::Token("a".into())), ("token", "a".to_string()));
    assert_eq!(sse_event(&StreamEvent::ToolCall("t".into())), ("tool", "t".to_string()));
    assert_eq!(sse_event(&StreamEvent::Done), ("done", String::new()));
    assert_eq!(sse_event(&StreamEvent::Error("e".into())), ("error", "e".to_string()));
}

#[test]
fn internal_errors_are_500() {
    let e = internal("db down".into());
    assert_eq!((e.status, e.body.error.as_str()), (500, "db down"));
}

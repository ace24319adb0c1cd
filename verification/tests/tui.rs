use buoya_news_agent::agent::llm::StreamEvent;
use buoya_news_agent::agent::types::{ChatMessage, ChatSession, Role};
use buoya_news_agent::tui::app::{Command, Focus, Key, KeyCode, ScreenState, Status};
use buoya_news_agent::tui::style::{Color, Modifier, Style};
use buoya_news_agent::tui::ui::{
    border_color, cursor_position, history_lines, history_scroll, input_cursor, pane_title,
    push_message, selection_style, status_line, visible, wrap,
};

fn key(code: KeyCode) -> Key {
    Key { code, ctrl: false, alt: false }
}

fn ctrl(c: char) -> Key {
    Key { code: KeyCode::Char(c), ctrl: true, alt: false }
}

fn session(id: &str, title: &str) -> ChatSession {
    ChatSession {
        id: id.to_string(),
        title: title.to_string(),
        created_at: String::new(),
        updated_at: String::new(),
    }
}

fn message(role: Role, content: &str) -> ChatMessage {
    ChatMessage {
        id: 1,
        session_id: "s1".to_string(),
        role,
        content: content.to_string(),
        created_at: String::new(),
        tools_used: Vec::new(),
    }
}

#[test]
fn wrap_breaks_between_words() {
    assert_eq!(wrap("the quick brown fox", 10), vec!["the quick", "brown fox"]);
    assert_eq!(wrap("abc", 10), vec!["abc"]);
    assert_eq!(wrap("", 5), vec![""]);
}

#[test]
fn wrap_hard_splits_long_words() {
    assert_eq!(wrap("abcdefghij", 4), vec!["abcd", "efgh", "ij"]);
    assert_eq!(wrap("hi abcdefghij", 4), vec!["hi", "abcd", "efgh", "ij"]);
}

#[test]
fn wrap_width_zero_keeps_text_whole() {
    assert_eq!(wrap("a b c", 0), vec!["a b c"]);
}

#[test]
fn wrapped_lines_fit_width() {
    let text = "lorem ipsum dolor sit amet consectetur adipiscing elit sed do";
    for width in 1..20 {
        for line in wrap(text, width) {
            assert!(line.chars().count() <= width);
        }
    }
}

#[test]
fn cursor_moves_to_next_row_at_newline_and_edge() {
    assert_eq!(cursor_position("hello", 5, 20), (5, 0));
    assert_eq!(cursor_position("ab\ncd", 4, 20), (1, 1));
    assert_eq!(cursor_position("abcdef", 6, 4), (2, 1));
    assert_eq!(cursor_position("abc", 99, 10), (3, 0));
}

#[test]
fn cursor_stays_inside_box() {
    let input = "some text\nwith lines and more text than fits";
    for width in 1..12 {
        for n in 0..input.chars().count() {
            let (col, _) = cursor_position(input, n, width);
            assert!(col < width);
        }
    }
}

#[test]
fn history_scroll_follows_newest_page() {
    assert_eq!(history_scroll(30, 10, true, 0), 20);
    assert_eq!(history_scroll(30, 10, false, 5), 5);
    assert_eq!(history_scroll(30, 10, false, 99), 20);
    assert_eq!(history_scroll(4, 10, true, 3), 0);
}

#[test]
fn visible_takes_one_page_after_skip() {
    let mut lines = Vec::new();
    for i in 0..5 {
        push_message(&mut lines, Role::User, &format!("m{i}"), 20);
    }
    assert_eq!(lines.len(), 15);
    let shown = visible(lines, 3, 4);
    let texts: Vec<String> = shown.iter().map(|l| l.text()).collect();
    assert_eq!(texts, vec!["You", "m1", "", "You"]);
    let mut lines = Vec::new();
    push_message(&mut lines, Role::User, "x", 20);
    assert_eq!(visible(lines, 7, 4).len(), 0);
}

#[test]
fn push_message_adds_header_body_and_blank() {
    let mut lines = Vec::new();
    push_message(&mut lines, Role::User, "hi there\n\nbye", 80);
    let texts: Vec<String> = lines.iter().map(|l| l.text()).collect();
    assert_eq!(texts, vec!["You", "hi there", "", "bye", ""]);
    assert_eq!(lines[0].spans[0].style.fg, Some(Color::Green));
    assert!(lines[0].spans[0].style.add_modifier.contains(Modifier::bold()));

    let mut lines = Vec::new();
    push_message(&mut lines, Role::Assistant, "**ok**", 80);
    let texts: Vec<String> = lines.iter().map(|l| l.text()).collect();
    assert_eq!(texts, vec!["Assistant", "ok", ""]);
    assert_eq!(lines[0].spans[0].style.fg, Some(Color::Cyan));
}

#[test]
fn history_shows_streaming_reply() {
    let msgs = vec![message(Role::User, "question")];
    let idle = history_lines(&msgs, &Status::Idle, 40);
    assert_eq!(idle.len(), 3);
    let waiting = Status::Streaming { partial: String::new(), spinner_idx: 0, tools: Vec::new() };
    let lines = history_lines(&msgs, &waiting, 40);
    let texts: Vec<String> = lines.iter().map(|l| l.text()).collect();
    assert_eq!(texts, vec!["You", "question", "", "Assistant", "…", ""]);
    let partial = Status::Streaming { partial: "half".to_string(), spinner_idx: 0, tools: Vec::new() };
    let lines = history_lines(&msgs, &partial, 40);
    assert_eq!(lines[4].text(), "half");
}

#[test]
fn status_line_prefers_error_then_spinner_then_help() {
    let streaming = Status::Streaming { partial: String::new(), spinner_idx: 11, tools: Vec::new() };
    let err = status_line(&Some("boom".to_string()), &streaming);
    assert_eq!(err.text(), " error: boom");
    assert_eq!(err.spans[0].style.fg, Some(Color::Red));
    let spin = status_line(&None, &streaming);
    assert_eq!(spin.text(), " ⠙ thinking…");
    assert_eq!(spin.spans[0].style.fg, Some(Color::Yellow));
    let help = status_line(&None, &Status::Idle);
    assert_eq!(help.text(), " Tab switch pane · PgUp/PgDn scroll · Ctrl+Q quit");
    assert_eq!(help.spans[0].style.fg, Some(Color::DarkGray));
}

#[test]
fn panes_show_focus() {
    assert_eq!(border_color(true), Color::Cyan);
    assert_eq!(border_color(false), Color::DarkGray);
    let t = pane_title("Conversation");
    assert_eq!(t.content, " Conversation ");
    assert_eq!(t.style.fg, Some(Color::White));
    let s = selection_style();
    assert_eq!(s, Style::new().fg(Color::Black).bg(Color::Cyan).add_modifier(Modifier::bold()));
}

#[test]
fn input_cursor_is_clamped_to_box() {
    assert_eq!(input_cursor(2, 3, 10, 3, 4, 1), (6, 4));
    assert_eq!(input_cursor(2, 3, 10, 3, 40, 9), (11, 5));
    assert_eq!(input_cursor(0, 0, 0, 0, 5, 5), (0, 0));
}

#[test]
fn typing_and_editing_the_input() {
    let mut s = ScreenState::new();
    for c in "hey".chars() {
        s.handle_key(key(KeyCode::Char(c)));
    }
    assert_eq!(s.input, "hey");
    assert_eq!(s.cursor, 3);
    s.handle_key(key(KeyCode::Left));
    s.handle_key(key(KeyCode::Backspace));
    assert_eq!(s.input, "hy");
    assert_eq!(s.cursor, 1);
    s.handle_key(key(KeyCode::End));
    s.handle_key(Key { code: KeyCode::Enter, ctrl: false, alt: true });
    assert_eq!(s.input, "hy\n");
    s.handle_key(key(KeyCode::Home));
    assert_eq!(s.cursor, 0);
}

#[test]
fn global_keys_quit_switch_and_create() {
    let mut s = ScreenState::new();
    assert!(matches!(s.handle_key(ctrl('n')), Command::NewSession));
    s.handle_key(key(KeyCode::Tab));
    assert_eq!(s.focus, Focus::Sidebar);
    s.handle_key(key(KeyCode::Tab));
    assert_eq!(s.focus, Focus::Input);
    s.handle_key(key(KeyCode::PageUp));
    assert!(!s.follow);
    s.handle_key(key(KeyCode::PageDown));
    assert_eq!(s.scroll, 5);
    s.handle_key(ctrl('q'));
    assert!(s.should_quit);
}

#[test]
fn sidebar_moves_selection_and_opens() {
    let mut s = ScreenState::new();
    assert!(!s.sessions_loaded(vec![session("a", "A"), session("b", "B")]));
    s.handle_key(key(KeyCode::Tab));
    s.handle_key(key(KeyCode::Down));
    s.handle_key(key(KeyCode::Down));
    assert_eq!(s.selected, 1);
    assert_eq!(s.selected_session_id(), Some("b".to_string()));
    assert!(matches!(s.handle_key(key(KeyCode::Enter)), Command::OpenSelected));
    s.handle_key(key(KeyCode::Up));
    s.handle_key(key(KeyCode::Up));
    assert_eq!(s.selected, 0);
    s.handle_key(key(KeyCode::Char('q')));
    assert!(s.should_quit);
}

#[test]
fn submit_sends_trimmed_text_and_titles_first_message() {
    let mut s = ScreenState::new();
    // No open session: Enter does nothing.
    s.handle_key(key(KeyCode::Char('x')));
    assert!(matches!(s.handle_key(key(KeyCode::Enter)), Command::Nothing));
    s.opened("s1".to_string(), Vec::new(), true);
    for c in "  hello world ".chars() {
        s.handle_key(key(KeyCode::Char(c)));
    }
    match s.handle_key(key(KeyCode::Enter)) {
        Command::Submit(sub) => {
            assert_eq!(sub.session_id, "s1");
            assert_eq!(sub.text, "x  hello world");
            assert_eq!(sub.title, Some("x  hello world".to_string()));
            assert_eq!(s.input, "");
            assert_eq!(s.cursor, 0);
            s.submitted(&sub, message(Role::User, "x  hello world"));
        }
        _ => panic!("expected a submission"),
    }
    assert_eq!(s.messages.len(), 1);
    // While a reply streams, Enter does not send.
    s.handle_key(key(KeyCode::Char('y')));
    assert!(matches!(s.handle_key(key(KeyCode::Enter)), Command::Nothing));
}

#[test]
fn stream_events_build_and_finish_the_reply() {
    let mut s = ScreenState::new();
    s.sessions_loaded(vec![session("s1", "New chat")]);
    s.opened("s1".to_string(), Vec::new(), true);
    for c in "hi".chars() {
        s.handle_key(key(KeyCode::Char(c)));
    }
    let sub = match s.handle_key(key(KeyCode::Enter)) {
        Command::Submit(sub) => sub,
        _ => panic!("expected a submission"),
    };
    s.submitted(&sub, message(Role::User, "hi"));
    assert_eq!(s.sessions[0].title, "hi");
    s.on_tick();
    assert_eq!(s.handle_stream_event(StreamEvent::Token("Hel".to_string())).0, false);
    s.handle_stream_event(StreamEvent::ToolCall("search".to_string()));
    s.handle_stream_event(StreamEvent::Token("lo".to_string()));
    let (done, reply) = s.handle_stream_event(StreamEvent::Done);
    assert!(done);
    let reply = reply.expect("a reply to store");
    assert_eq!(reply.session_id, "s1");
    assert_eq!(reply.content, "Hello");
    assert_eq!(reply.tools, vec!["search".to_string()]);
    assert!(matches!(s.status, Status::Idle));
    assert!(s.error.is_none());
}

#[test]
fn stream_error_is_shown_and_blank_reply_dropped() {
    let mut s = ScreenState::new();
    s.opened("s1".to_string(), Vec::new(), true);
    s.handle_key(key(KeyCode::Char('q')));
    let sub = match s.handle_key(key(KeyCode::Enter)) {
        Command::Submit(sub) => sub,
        _ => panic!("expected a submission"),
    };
    s.submitted(&sub, message(Role::User, "q"));
    s.handle_stream_event(StreamEvent::Token("  ".to_string()));
    let (done, reply) = s.handle_stream_event(StreamEvent::Error("request failed".to_string()));
    assert!(done);
    assert!(reply.is_none());
    assert_eq!(s.error, Some("request failed".to_string()));
}

#[test]
fn typing_then_backspace_restores_input() {
    let mut s = ScreenState::new();
    for c in "abc".chars() {
        s.handle_key(key(KeyCode::Char(c)));
    }
    s.handle_key(key(KeyCode::Left));
    let (input, cursor) = (s.input.clone(), s.cursor);
    s.handle_key(key(KeyCode::Char('é')));
    assert_eq!(s.input, "abéc");
    s.handle_key(key(KeyCode::Backspace));
    assert_eq!(s.input, input);
    assert_eq!(s.cursor, cursor);
}

#[test]
fn wrap_keeps_all_but_spaces() {
    for (text, width) in [("the quick brown fox", 7), ("a  b   c", 2), ("abcdefghij klm", 3), ("", 4), (" lead", 3)] {
        let lines = wrap(text, width);
        assert!(!lines.is_empty());
        let kept: String = lines.concat().chars().filter(|c| *c != ' ').collect();
        let want: String = text.chars().filter(|c| *c != ' ').collect();
        assert_eq!(kept, want);
    }
    assert_eq!(wrap("one two three", 9).join(" "), "one two three");
}

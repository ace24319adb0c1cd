//! The chat screen's state and how it reacts to keys and to a streamed reply.
//!
//! Everything here is decided without touching the database or the model: a
//! key or stream event updates the screen state and, where persistence or a
//! request is needed, returns what the event loop has to do. The loop reports
//! back with the stored rows.
use vstd::prelude::*;

use crate::agent::db::title_from;
use crate::agent::types::{ChatMessage, ChatSession, Role};
use crate::text::{chars_of, is_blank, is_blank_chars, string_of, trim, trim_spec};

verus! {

/// Which pane currently receives navigation keys.
#[derive(Clone, Copy, Debug, PartialEq, Eq, Structural)]
pub enum Focus {
    Sidebar,
    Input,
}

/// Whether the agent is currently producing a reply.
pub enum Status {
    Idle,
    /// A reply is streaming in; `partial` is the text received so far and
    /// `tools` lists any tools the assistant has invoked this turn.
    Streaming { partial: String, spinner_idx: usize, tools: Vec<String> },
}

/// The mathematical value of a [`Status`].
pub enum StatusView {
    Idle,
    Streaming { partial: Seq<char>, spinner_idx: usize, tools: Seq<String> },
}

impl View for Status {
    type V = StatusView;

    open spec fn view(&self) -> StatusView {
        match self {
            Status::Idle => StatusView::Idle,
            Status::Streaming { partial, spinner_idx, tools } => StatusView::Streaming {
                partial: partial@,
                spinner_idx: *spinner_idx,
                tools: tools@,
            },
        }
    }
}

/// A key press, as the screen sees it.
#[derive(Clone, Copy, Debug, PartialEq, Eq, Structural)]
pub enum KeyCode {
    Char(char),
    Tab,
    PageUp,
    PageDown,
    Up,
    Down,
    Left,
    Right,
    Home,
    End,
    Enter,
    Esc,
    Backspace,
    Other,
}

/// A key press with the modifiers the screen cares about.
#[derive(Clone, Copy, Debug, PartialEq, Eq, Structural)]
pub struct Key {
    pub code: KeyCode,
    pub ctrl: bool,
    pub alt: bool,
}

/// A typed message ready to be sent: persist it as a user message in
/// `session_id`, rename the session to `title` when there is one (the
/// session's opening message), then start the reply.
pub struct Submission {
    pub session_id: String,
    pub text: String,
    pub title: Option<String>,
}

/// What the event loop must do after a key.
pub enum Command {
    /// Nothing beyond the state change.
    Nothing,
    /// Create a new session, then report it with `session_created` and load it.
    NewSession,
    /// Load the messages of the highlighted session, then report them with `opened`.
    OpenSelected,
    /// Persist and send a message, then report it with `submitted`.
    Submit(Submission),
}

/// A finished reply to persist as an assistant message.
pub struct Reply {
    pub session_id: String,
    pub content: String,
    pub tools: Vec<String>,
}

/// The chat screen: sessions, the open conversation, the input box and the
/// reply in progress.
pub struct ScreenState {
    pub sessions: Vec<ChatSession>,
    /// Index into `sessions` highlighted in the sidebar.
    pub selected: usize,
    pub current_session_id: Option<String>,
    pub messages: Vec<ChatMessage>,
    pub input: String,
    /// Cursor position within `input`, measured in characters.
    pub cursor: usize,
    pub focus: Focus,
    /// Scroll offset (in display lines) for the chat history.
    pub scroll: u16,
    /// When true the history sticks to the newest message.
    pub follow: bool,
    pub status: Status,
    pub error: Option<String>,
    pub should_quit: bool,
}

/// The mathematical value of a [`ScreenState`].
pub struct ScreenView {
    pub sessions: Seq<ChatSession>,
    pub selected: usize,
    pub current_session_id: Option<String>,
    pub messages: Seq<ChatMessage>,
    pub input: Seq<char>,
    pub cursor: usize,
    pub focus: Focus,
    pub scroll: u16,
    pub follow: bool,
    pub status: StatusView,
    pub error: Option<String>,
    pub should_quit: bool,
}

impl View for ScreenState {
    type V = ScreenView;

    open spec fn view(&self) -> ScreenView {
        ScreenView {
            sessions: self.sessions@,
            selected: self.selected,
            current_session_id: self.current_session_id,
            messages: self.messages@,
            input: self.input@,
            cursor: self.cursor,
            focus: self.focus,
            scroll: self.scroll,
            follow: self.follow,
            status: self.status@,
            error: self.error,
            should_quit: self.should_quit,
        }
    }
}

/// Lines scrolled by one PageUp/PageDown.
pub open spec fn page() -> u16 {
    5
}

impl ScreenView {
    /// The cursor never passes the end of the input.
    pub open spec fn wf(self) -> bool {
        self.cursor <= self.input.len()
    }

    /// Typing `c` at the cursor (a full input box is left as it is).
    pub open spec fn insert_spec(self, c: char) -> ScreenView {
        if self.input.len() < usize::MAX {
            ScreenView { input: self.input.insert(self.cursor as int, c), cursor: (self.cursor + 1) as usize, ..self }
        } else {
            self
        }
    }

    /// Deleting the char before the cursor.
    pub open spec fn backspace_spec(self) -> ScreenView {
        if self.cursor == 0 {
            self
        } else {
            ScreenView { input: self.input.remove(self.cursor - 1), cursor: (self.cursor - 1) as usize, ..self }
        }
    }

    /// The text a submit would send: the input, trimmed.
    pub open spec fn submit_text(self) -> Seq<char> {
        trim_spec(self.input)
    }

    /// Whether Enter in the input box sends a message: nothing is streaming,
    /// the trimmed input is not empty and a session is open.
    pub open spec fn can_submit(self) -> bool {
        &&& self.status matches StatusView::Idle
        &&& !is_blank(self.input)
        &&& self.current_session_id is Some
    }

    /// The screen once a message is sent: error cleared, input emptied, cursor
    /// home, history following.
    pub open spec fn after_submit(self) -> ScreenView {
        ScreenView { error: None, input: Seq::empty(), cursor: 0, follow: true, ..self }
    }

    /// How a key changes the screen, and what the loop must do (`0` nothing,
    /// `1` create a session, `2` open the highlighted one, `3` send the input).
    /// Ctrl+Q quits, Ctrl+N asks for a new session, Tab switches panes,
    /// PageUp/PageDown scroll by five lines (PageUp unpins the history); other
    /// keys go to the focused pane.
    pub open spec fn key_spec(self, k: Key) -> (ScreenView, int) {
        match k.code {
            KeyCode::Char('q') if k.ctrl => (ScreenView { should_quit: true, ..self }, 0),
            KeyCode::Char('n') if k.ctrl => (self, 1),
            KeyCode::Tab => (
                ScreenView {
                    focus: match self.focus {
                        Focus::Sidebar => Focus::Input,
                        Focus::Input => Focus::Sidebar,
                    },
                    ..self
                },
                0,
            ),
            KeyCode::PageUp => (
                ScreenView {
                    follow: false,
                    scroll: if self.scroll >= page() {
                        (self.scroll - page()) as u16
                    } else {
                        0
                    },
                    ..self
                },
                0,
            ),
            KeyCode::PageDown => (
                ScreenView {
                    scroll: if self.scroll + page() <= u16::MAX {
                        (self.scroll + page()) as u16
                    } else {
                        u16::MAX
                    },
                    ..self
                },
                0,
            ),
            _ => match self.focus {
                Focus::Sidebar => match k.code {
                    KeyCode::Up => (
                        ScreenView {
                            selected: if self.selected >= 1 {
                                (self.selected - 1) as usize
                            } else {
                                0
                            },
                            ..self
                        },
                        0,
                    ),
                    KeyCode::Down => (
                        ScreenView {
                            selected: if self.selected + 1 < self.sessions.len() {
                                (self.selected + 1) as usize
                            } else {
                                self.selected
                            },
                            ..self
                        },
                        0,
                    ),
                    KeyCode::Enter => (self, 2),
                    KeyCode::Esc => (ScreenView { should_quit: true, ..self }, 0),
                    KeyCode::Char('q') => (ScreenView { should_quit: true, ..self }, 0),
                    _ => (self, 0),
                },
                Focus::Input => match k.code {
                    KeyCode::Esc => (ScreenView { focus: Focus::Sidebar, ..self }, 0),
                    KeyCode::Enter => if k.alt {
                        (self.insert_spec('\n'), 0)
                    } else if self.can_submit() {
                        (self.after_submit(), 3)
                    } else {
                        (self, 0)
                    },
                    KeyCode::Backspace => (self.backspace_spec(), 0),
                    KeyCode::Left => (
                        ScreenView {
                            cursor: if self.cursor >= 1 {
                                (self.cursor - 1) as usize
                            } else {
                                0
                            },
                            ..self
                        },
                        0,
                    ),
                    KeyCode::Right => (
                        ScreenView {
                            cursor: if self.cursor < self.input.len() {
                                (self.cursor + 1) as usize
                            } else {
                                self.cursor
                            },
                            ..self
                        },
                        0,
                    ),
                    KeyCode::Home => (ScreenView { cursor: 0, ..self }, 0),
                    KeyCode::End => (ScreenView { cursor: self.input.len() as usize, ..self }, 0),
                    KeyCode::Char(c) => (self.insert_spec(c), 0),
                    _ => (self, 0),
                },
            },
        }
    }
}

/// The number a command is reported as in [`ScreenView::key_spec`].
pub open spec fn command_code(c: Command) -> int {
    match c {
        Command::Nothing => 0,
        Command::NewSession => 1,
        Command::OpenSelected => 2,
        Command::Submit(_) => 3,
    }
}

impl ScreenState {
    /// A fresh screen: no sessions yet, input focused, history following.
    pub fn new() -> (s: ScreenState)
        ensures
            s@.sessions.len() == 0,
            s@.selected == 0,
            s@.current_session_id is None,
            s@.messages.len() == 0,
            s@.input.len() == 0,
            s@.cursor == 0,
            s@.focus == Focus::Input,
            s@.scroll == 0,
            s@.follow,
            s@.status matches StatusView::Idle,
            s@.error is None,
            !s@.should_quit,
            s@.wf(),
    {
        ScreenState {
            sessions: Vec::new(),
            selected: 0,
            current_session_id: None,
            messages: Vec::new(),
            input: String::new(),
            cursor: 0,
            focus: Focus::Input,
            scroll: 0,
            follow: true,
            status: Status::Idle,
            error: None,
            should_quit: false,
        }
    }

    /// Install the sessions read at startup (newest first) and highlight the
    /// first. Returns whether there are none, in which case the loop creates
    /// one and reports it with `session_created`.
    pub fn sessions_loaded(&mut self, sessions: Vec<ChatSession>) -> (empty: bool)
        requires
            old(self)@.wf(),
        ensures
            final(self)@ == (ScreenView { sessions: sessions@, selected: 0, ..old(self)@ }),
            empty == (sessions@.len() == 0),
    {
        let empty = sessions.len() == 0;
        self.sessions = sessions;
        self.selected = 0;
        empty
    }

    /// The id of the highlighted session, if any.
    pub fn selected_session_id(&self) -> (id: Option<String>)
        ensures
            id matches Some(i) ==> self.selected < self@.sessions.len() && i == self@.sessions[self.selected as int].id,
            id is None <==> self.selected >= self@.sessions.len(),
    {
        if self.selected < self.sessions.len() {
            Some(self.sessions[self.selected].id.clone())
        } else {
            None
        }
    }

    /// A new session was created: it goes on top, highlighted, and the input
    /// takes focus. Returns its id for the loop to open.
    pub fn session_created(&mut self, session: ChatSession) -> (id: String)
        requires
            old(self)@.wf(),
        ensures
            final(self)@ == (ScreenView {
                sessions: old(self)@.sessions.insert(0, session),
                selected: 0,
                focus: Focus::Input,
                ..old(self)@
            }),
            id == session.id,
    {
        let id = session.id.clone();
        self.sessions.insert(0, session);
        self.selected = 0;
        self.focus = Focus::Input;
        id
    }

    /// The messages of session `id` were loaded: it becomes the open session,
    /// shown from its newest message. `focus_input` moves focus to the input,
    /// as opening from the sidebar does.
    pub fn opened(&mut self, id: String, messages: Vec<ChatMessage>, focus_input: bool)
        requires
            old(self)@.wf(),
        ensures
            final(self)@ == (ScreenView {
                current_session_id: Some(id),
                messages: messages@,
                follow: true,
                scroll: 0,
                focus: if focus_input {
                    Focus::Input
                } else {
                    old(self)@.focus
                },
                ..old(self)@
            }),
    {
        self.messages = messages;
        self.current_session_id = Some(id);
        self.follow = true;
        self.scroll = 0;
        if focus_input {
            self.focus = Focus::Input;
        }
    }

    /// Advance the spinner; called on every UI tick.
    pub fn on_tick(&mut self)
        requires
            old(self)@.wf(),
        ensures
            final(self)@ == (ScreenView {
                status: match old(self)@.status {
                    StatusView::Streaming { partial, spinner_idx, tools } => StatusView::Streaming {
                        partial,
                        spinner_idx: if spinner_idx < usize::MAX {
                            (spinner_idx + 1) as usize
                        } else {
                            0
                        },
                        tools,
                    },
                    StatusView::Idle => StatusView::Idle,
                },
                ..old(self)@
            }),
    {
        if let Status::Streaming { spinner_idx, .. } = &mut self.status {
            *spinner_idx = if *spinner_idx < usize::MAX {
                *spinner_idx + 1
            } else {
                0
            };
        }
    }

    fn insert_char(&mut self, c: char)
        requires
            old(self)@.wf(),
        ensures
            final(self)@ == old(self)@.insert_spec(c),
            final(self)@.wf(),
    {
        let chars = chars_of(self.input.as_str());
        if chars.len() == usize::MAX {
            return;
        }
        let mut out: Vec<char> = Vec::new();
        let mut i: usize = 0;
        while i < chars.len()
            invariant
                i <= chars.len(),
                self.cursor <= chars.len(),
                out@ == if i <= self.cursor {
                    chars@.take(i as int)
                } else {
                    chars@.insert(self.cursor as int, c).take(i + 1)
                },
            decreases chars.len() - i,
        {
            if i == self.cursor {
                out.push(c);
            }
            out.push(chars[i]);
            proof {
                let ins = chars@.insert(self.cursor as int, c);
                if i < self.cursor {
                    assert(out@ =~= chars@.take(i + 1));
                } else {
                    assert(out@ =~= ins.take(i + 2));
                }
            }
            i += 1;
        }
        if self.cursor == chars.len() {
            out.push(c);
        }
        assert(out@ =~= chars@.insert(self.cursor as int, c));
        self.input = string_of(&out);
        self.cursor = self.cursor + 1;
    }

    fn backspace(&mut self)
        requires
            old(self)@.wf(),
        ensures
            final(self)@ == old(self)@.backspace_spec(),
            final(self)@.wf(),
    {
        if self.cursor == 0 {
            return;
        }
        let chars = chars_of(self.input.as_str());
        let remove_at = self.cursor - 1;
        let mut out: Vec<char> = Vec::new();
        let mut i: usize = 0;
        while i < chars.len()
            invariant
                i <= chars.len(),
                remove_at < chars.len(),
                out@ == if i <= remove_at {
                    chars@.take(i as int)
                } else {
                    chars@.remove(remove_at as int).take(i - 1)
                },
            decreases chars.len() - i,
        {
            if i != remove_at {
                out.push(chars[i]);
            }
            proof {
                let rem = chars@.remove(remove_at as int);
                if i < remove_at {
                    assert(out@ =~= chars@.take(i + 1));
                } else if i == remove_at {
                    assert(out@ =~= rem.take(i as int));
                } else {
                    assert(out@ =~= rem.take(i as int));
                }
            }
            i += 1;
        }
        assert(out@ =~= chars@.remove(remove_at as int));
        self.input = string_of(&out);
        self.cursor = remove_at;
    }

    /// Apply a key press. See [`ScreenView::key_spec`]; a submit hands back the
    /// trimmed text, the open session and, for the session's first message, the
    /// title it takes from that message.
    pub fn handle_key(&mut self, key: Key) -> (cmd: Command)
        requires
            old(self)@.wf(),
        ensures
            final(self)@.wf(),
            (final(self)@, command_code(cmd)) == old(self)@.key_spec(key),
            cmd matches Command::Submit(s) ==> {
                &&& Some(s.session_id) == old(self)@.current_session_id
                &&& s.text@ == old(self)@.submit_text()
                &&& if old(self)@.messages.len() == 0 {
                    s.title matches Some(t) && t@ == crate::agent::db::title_spec(s.text@)
                } else {
                    s.title is None
                }
            },
    {
        match key.code {
            KeyCode::Char('q') if key.ctrl => {
                self.should_quit = true;
                return Command::Nothing;
            },
            KeyCode::Char('n') if key.ctrl => {
                return Command::NewSession;
            },
            KeyCode::Tab => {
                self.focus = match self.focus {
                    Focus::Sidebar => Focus::Input,
                    Focus::Input => Focus::Sidebar,
                };
                return Command::Nothing;
            },
            KeyCode::PageUp => {
                self.follow = false;
                self.scroll = if self.scroll >= 5 {
                    self.scroll - 5
                } else {
                    0
                };
                return Command::Nothing;
            },
            KeyCode::PageDown => {
                self.scroll = if self.scroll <= u16::MAX - 5 {
                    self.scroll + 5
                } else {
                    u16::MAX
                };
                return Command::Nothing;
            },
            _ => {},
        }
        match self.focus {
            Focus::Sidebar => match key.code {
                KeyCode::Up => {
                    self.selected = if self.selected >= 1 {
                        self.selected - 1
                    } else {
                        0
                    };
                    Command::Nothing
                },
                KeyCode::Down => {
                    if self.selected < self.sessions.len() && self.selected + 1 < self.sessions.len() {
                        self.selected += 1;
                    }
                    Command::Nothing
                },
                KeyCode::Enter => Command::OpenSelected,
                KeyCode::Esc => {
                    self.should_quit = true;
                    Command::Nothing
                },
                KeyCode::Char('q') => {
                    self.should_quit = true;
                    Command::Nothing
                },
                _ => Command::Nothing,
            },
            Focus::Input => match key.code {
                KeyCode::Esc => {
                    self.focus = Focus::Sidebar;
                    Command::Nothing
                },
                KeyCode::Enter => {
                    if key.alt {
                        self.insert_char('\n');
                        Command::Nothing
                    } else {
                        self.submit()
                    }
                },
                KeyCode::Backspace => {
                    self.backspace();
                    Command::Nothing
                },
                KeyCode::Left => {
                    self.cursor = if self.cursor >= 1 {
                        self.cursor - 1
                    } else {
                        0
                    };
                    Command::Nothing
                },
                KeyCode::Right => {
                    let n = chars_of(self.input.as_str()).len();
                    if self.cursor < n {
                        self.cursor += 1;
                    }
                    Command::Nothing
                },
                KeyCode::Home => {
                    self.cursor = 0;
                    Command::Nothing
                },
                KeyCode::End => {
                    self.cursor = chars_of(self.input.as_str()).len();
                    Command::Nothing
                },
                KeyCode::Char(c) => {
                    self.insert_char(c);
                    Command::Nothing
                },
                _ => Command::Nothing,
            },
        }
    }

    /// Take the typed message for sending, when it may be sent.
    fn submit(&mut self) -> (cmd: Command)
        requires
            old(self)@.wf(),
        ensures
            final(self)@.wf(),
            old(self)@.can_submit() ==> final(self)@ == old(self)@.after_submit() && cmd is Submit,
            !old(self)@.can_submit() ==> final(self)@ == old(self)@ && cmd is Nothing,
            cmd matches Command::Submit(s) ==> {
                &&& Some(s.session_id) == old(self)@.current_session_id
                &&& s.text@ == old(self)@.submit_text()
                &&& if old(self)@.messages.len() == 0 {
                    s.title matches Some(t) && t@ == crate::agent::db::title_spec(s.text@)
                } else {
                    s.title is None
                }
            },
    {
        if let Status::Streaming { .. } = self.status {
            return Command::Nothing;
        }
        let chars = chars_of(self.input.as_str());
        if is_blank_chars(&chars) {
            return Command::Nothing;
        }
        let session_id = match &self.current_session_id {
            Some(id) => id.clone(),
            None => {
                return Command::Nothing;
            },
        };
        let text = string_of(&trim(&chars));
        self.error = None;
        self.input = String::new();
        self.cursor = 0;
        self.follow = true;
        let title = if self.messages.len() == 0 {
            Some(title_from(text.as_str()))
        } else {
            None
        };
        Command::Submit(Submission { session_id, text, title })
    }

    /// The submitted message was stored as `user_msg`: show it, give its
    /// session the submission's title if it has one, and start waiting for
    /// the reply.
    pub fn submitted(&mut self, submission: &Submission, user_msg: ChatMessage)
        requires
            old(self)@.wf(),
        ensures
            final(self)@.wf(),
            final(self)@.messages == old(self)@.messages.push(user_msg),
            final(self)@.status == (StatusView::Streaming {
                partial: Seq::empty(),
                spinner_idx: 0,
                tools: Seq::empty(),
            }),
            final(self)@.sessions.len() == old(self)@.sessions.len(),
            forall|i: int|
                0 <= i < old(self)@.sessions.len() ==> {
                    let s = #[trigger] final(self)@.sessions[i];
                    let o = old(self)@.sessions[i];
                    &&& s.id == o.id
                    &&& s.created_at == o.created_at
                    &&& s.updated_at == o.updated_at
                    &&& s.title == match submission.title {
                        Some(t) => if o.id@ == submission.session_id@ {
                            t
                        } else {
                            o.title
                        },
                        None => o.title,
                    }
                },
            final(self)@ == (ScreenView {
                messages: final(self)@.messages,
                status: final(self)@.status,
                sessions: final(self)@.sessions,
                ..old(self)@
            }),
    {
        self.messages.push(user_msg);
        if let Some(title) = &submission.title {
            let mut sessions: Vec<ChatSession> = Vec::new();
            let mut i: usize = 0;
            let ghost olds = self.sessions@;
            while i < self.sessions.len()
                invariant
                    i <= self.sessions.len(),
                    self.sessions@ == olds,
                    sessions@.len() == i,
                    forall|k: int|
                        0 <= k < i ==> {
                            let s = #[trigger] sessions@[k];
                            let o = olds[k];
                            &&& s.id == o.id
                            &&& s.created_at == o.created_at
                            &&& s.updated_at == o.updated_at
                            &&& s.title == if o.id@ == submission.session_id@ {
                                *title
                            } else {
                                o.title
                            }
                        },
                decreases self.sessions.len() - i,
            {
                let o = &self.sessions[i];
                let same = crate::agent::types::str_eq(o.id.as_str(), submission.session_id.as_str());
                let t = if same {
                    title.clone()
                } else {
                    o.title.clone()
                };
                sessions.push(
                    ChatSession {
                        id: o.id.clone(),
                        title: t,
                        created_at: o.created_at.clone(),
                        updated_at: o.updated_at.clone(),
                    },
                );
                i += 1;
            }
            self.sessions = sessions;
        }
        self.status = Status::Streaming { partial: String::new(), spinner_idx: 0, tools: Vec::new() };
    }

    /// Apply one streaming event. Tokens extend the reply and tool calls are
    /// listed; `Done` or `Error` ends the turn: the status returns to idle, the
    /// error (if any) is shown, the history follows, and a reply that is not
    /// blank is handed back for storing in the open session. Returns whether
    /// the stream has ended.
    pub fn handle_stream_event(&mut self, event: crate::agent::llm::StreamEvent) -> (r: (bool, Option<Reply>))
        requires
            old(self)@.wf(),
        ensures
            final(self)@.wf(),
            match event {
                crate::agent::llm::StreamEvent::Token(t) => r.0 == false && r.1 is None && final(self)@ == (ScreenView {
                    status: match old(self)@.status {
                        StatusView::Streaming { partial, spinner_idx, tools } => StatusView::Streaming {
                            partial: partial + t@,
                            spinner_idx,
                            tools,
                        },
                        StatusView::Idle => StatusView::Idle,
                    },
                    ..old(self)@
                }),
                crate::agent::llm::StreamEvent::ToolCall(label) => r.0 == false && r.1 is None && final(self)@ == (ScreenView {
                    status: match old(self)@.status {
                        StatusView::Streaming { partial, spinner_idx, tools } => StatusView::Streaming {
                            partial,
                            spinner_idx,
                            tools: tools.push(label),
                        },
                        StatusView::Idle => StatusView::Idle,
                    },
                    ..old(self)@
                }),
                crate::agent::llm::StreamEvent::Done => r.0 && finished(old(self)@, final(self)@, r.1, None),
                crate::agent::llm::StreamEvent::Error(m) => r.0 && finished(old(self)@, final(self)@, r.1, Some(m)),
            },
    {
        match event {
            crate::agent::llm::StreamEvent::Token(token) => {
                if let Status::Streaming { partial, .. } = &mut self.status {
                    partial.append(token.as_str());
                }
                (false, None)
            },
            crate::agent::llm::StreamEvent::ToolCall(label) => {
                if let Status::Streaming { tools, .. } = &mut self.status {
                    tools.push(label);
                }
                (false, None)
            },
            crate::agent::llm::StreamEvent::Done => (true, self.finish_stream(None)),
            crate::agent::llm::StreamEvent::Error(message) => (true, self.finish_stream(Some(message))),
        }
    }

    fn finish_stream(&mut self, error: Option<String>) -> (reply: Option<Reply>)
        requires
            old(self)@.wf(),
        ensures
            final(self)@.wf(),
            finished(old(self)@, final(self)@, reply, error),
    {
        let mut old_status = Status::Idle;
        std::mem::swap(&mut old_status, &mut self.status);
        let (partial, tools) = match old_status {
            Status::Streaming { partial, tools, .. } => (partial, tools),
            Status::Idle => (String::new(), Vec::new()),
        };
        let reply = match &self.current_session_id {
            Some(id) => {
                let chars = chars_of(partial.as_str());
                if is_blank_chars(&chars) {
                    None
                } else {
                    Some(Reply { session_id: id.clone(), content: partial, tools })
                }
            },
            None => None,
        };
        self.error = error;
        self.follow = true;
        reply
    }

    /// The stored assistant message for a handed-back reply: show it.
    pub fn reply_saved(&mut self, msg: ChatMessage)
        requires
            old(self)@.wf(),
        ensures
            final(self)@ == (ScreenView { messages: old(self)@.messages.push(msg), ..old(self)@ }),
    {
        self.messages.push(msg);
    }
}

/// The end of a turn: status idle, `error` shown, history following, and the
/// reply handed back exactly when a session is open and the streamed text is
/// not blank.
pub open spec fn finished(old: ScreenView, new: ScreenView, reply: Option<Reply>, error: Option<String>) -> bool {
    let (partial, tools) = match old.status {
        StatusView::Streaming { partial, tools, .. } => (partial, tools),
        StatusView::Idle => (Seq::<char>::empty(), Seq::<String>::empty()),
    };
    &&& new == (ScreenView { status: StatusView::Idle, error, follow: true, ..old })
    &&& match reply {
        Some(r) => old.current_session_id == Some(r.session_id) && !is_blank(partial) && r.content@ == partial && r.tools@ == tools,
        None => old.current_session_id is None || is_blank(partial),
    }
}

/// The cursor stays within the input whatever key is pressed.
pub proof fn law_keys_keep_cursor_in_input(v: ScreenView, k: Key)
    requires
        v.wf(),
    ensures
        v.key_spec(k).0.wf(),
{
}

/// Typing a char and then deleting it with Backspace gives back the input and
/// the cursor as they were (on an input box that is not full).
pub proof fn law_backspace_undoes_insert(v: ScreenView, c: char)
    requires
        v.wf(),
        v.input.len() < usize::MAX,
    ensures
        v.insert_spec(c).backspace_spec() == v,
{
    let w = v.insert_spec(c);
    assert(w.input.remove(v.cursor as int) =~= v.input);
}

/// The same through the keyboard: in the input box, a char typed without
/// Ctrl and then Backspace leave the screen as it was (on an input box that
/// is not full).
pub proof fn law_typing_then_backspace_restores(v: ScreenView, typed: Key, back: Key)
    requires
        v.wf(),
        v.focus == Focus::Input,
        v.input.len() < usize::MAX,
        typed.code is Char,
        !typed.ctrl,
        back.code == KeyCode::Backspace,
    ensures
        v.key_spec(typed).0.key_spec(back).0 == v,
{
    law_backspace_undoes_insert(v, typed.code->0);
}

/// The cursor keys in the focused input box move only the cursor: Right one
/// char forward but not past the end, Left one char back but not before the
/// start, Home to the start, End to the end; the input, the focus and the
/// rest of the screen stay as they were, and no command is asked for. (An
/// input holds at most `usize::MAX` chars.)
pub proof fn law_cursor_keys(v: ScreenView, k: Key)
    requires
        v.wf(),
        v.focus == Focus::Input,
        v.input.len() <= usize::MAX,
        k.code == KeyCode::Right || k.code == KeyCode::Left || k.code == KeyCode::Home || k.code == KeyCode::End,
    ensures
        v.key_spec(k).1 == 0,
        v.key_spec(k).0 == (ScreenView { cursor: v.key_spec(k).0.cursor, ..v }),
        k.code == KeyCode::Right ==> v.key_spec(k).0.cursor == if v.cursor < v.input.len() {
            v.cursor + 1
        } else {
            v.input.len() as int
        },
        k.code == KeyCode::Left ==> v.key_spec(k).0.cursor == if v.cursor > 0 {
            v.cursor - 1
        } else {
            0
        },
        k.code == KeyCode::Home ==> v.key_spec(k).0.cursor == 0,
        k.code == KeyCode::End ==> v.key_spec(k).0.cursor == v.input.len(),
{
}

/// Right then Left, from anywhere short of the end of the input, and Left
/// then Right, from anywhere past its start, bring the cursor back.
pub proof fn law_left_right_undo(v: ScreenView, right: Key, left: Key)
    requires
        v.wf(),
        v.focus == Focus::Input,
        v.input.len() <= usize::MAX,
        right.code == KeyCode::Right,
        left.code == KeyCode::Left,
    ensures
        v.cursor < v.input.len() ==> v.key_spec(right).0.key_spec(left).0 == v,
        v.cursor > 0 ==> v.key_spec(left).0.key_spec(right).0 == v,
{
}

/// In the session list, Up and Down move the highlight one session, never
/// before the first nor past the last; Tab switches between the list and the
/// input box; none of them touches the input or asks for a command.
pub proof fn law_sidebar_and_tab_keys(v: ScreenView, k: Key)
    requires
        k.code == KeyCode::Up || k.code == KeyCode::Down || k.code == KeyCode::Tab,
        v.selected < v.sessions.len() || v.sessions.len() == 0,
        v.sessions.len() <= usize::MAX,
    ensures
        v.key_spec(k).1 == 0,
        v.key_spec(k).0.input == v.input && v.key_spec(k).0.cursor == v.cursor,
        k.code == KeyCode::Tab ==> v.key_spec(k).0.focus != v.focus && v.key_spec(k).0 == (ScreenView {
            focus: v.key_spec(k).0.focus,
            ..v
        }),
        k.code == KeyCode::Up && v.focus == Focus::Sidebar ==> v.key_spec(k).0 == (ScreenView {
            selected: if v.selected > 0 { (v.selected - 1) as usize } else { 0 },
            ..v
        }),
        k.code == KeyCode::Down && v.focus == Focus::Sidebar ==> v.key_spec(k).0.selected == (if v.selected + 1
            < v.sessions.len() {
            v.selected + 1
        } else {
            v.selected as int
        }) && v.key_spec(k).0 == (ScreenView { selected: v.key_spec(k).0.selected, ..v }),
        k.code == KeyCode::Down && v.focus == Focus::Sidebar && v.sessions.len() > 0 ==> v.key_spec(k).0.selected
            < v.sessions.len(),
{
}

} // verus!

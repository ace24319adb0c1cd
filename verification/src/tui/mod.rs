//! Terminal chat interface: styled text, Markdown rendering, layout and the
//! chat screen's state machine.
pub mod style;
pub mod markdown;
pub mod bullets;
pub mod ui;
pub mod app;

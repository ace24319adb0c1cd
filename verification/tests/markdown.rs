use buoya_news_agent::tui::markdown::{code_bg, inline_code_fg, render};
use buoya_news_agent::tui::style::{Color, Line, Modifier, Style};

fn text(line: &Line) -> String {
    line.text()
}

/// Find the span containing `needle` and return its style.
fn style_of(line: &Line, needle: &str) -> Style {
    line.spans
        .iter()
        .find(|s| s.content.contains(needle))
        .map(|s| s.style)
        .unwrap()
}

#[test]
fn bold_and_italic_become_modifiers() {
    let lines = render("**bold** and *soft*", 80);
    assert_eq!(text(&lines[0]), "bold and soft");
    assert!(style_of(&lines[0], "bold").add_modifier.contains(Modifier::bold()));
    assert!(style_of(&lines[0], "soft").add_modifier.contains(Modifier::italic()));
}

#[test]
fn inline_code_is_recolored() {
    let lines = render("run `cargo build` now", 80);
    assert_eq!(text(&lines[0]), "run cargo build now");
    assert_eq!(style_of(&lines[0], "cargo build").fg, Some(inline_code_fg()));
}

#[test]
fn heading_strips_hashes_and_emphasizes() {
    let lines = render("## Section title", 80);
    assert_eq!(text(&lines[0]), "Section title");
    assert!(style_of(&lines[0], "Section").add_modifier.contains(Modifier::bold()));
}

#[test]
fn bullets_and_numbers_get_markers() {
    let bullet = render("- first", 80);
    assert_eq!(text(&bullet[0]), "• first");
    let numbered = render("1. first", 80);
    assert_eq!(text(&numbered[0]), "1. first");
}

#[test]
fn snake_case_is_not_italicized() {
    let lines = render("call read_to_string(path)", 80);
    assert_eq!(text(&lines[0]), "call read_to_string(path)");
    assert!(
        !style_of(&lines[0], "read_to_string")
            .add_modifier
            .contains(Modifier::italic())
    );
}

#[test]
fn fenced_code_block_uses_background() {
    let lines = render("```rust\nlet x = 1;\n```", 80);
    assert!(lines.iter().any(|l| text(l).starts_with("let x = 1;")));
    let code = lines.iter().find(|l| text(l).contains("let x")).unwrap();
    assert_eq!(code.spans[0].style.bg, Some(code_bg()));
}

#[test]
fn long_lines_wrap_to_width() {
    let lines = render("word word word word word word", 11);
    assert!(lines.len() > 1);
    assert!(lines.iter().all(|l| text(l).chars().count() <= 11));
}

#[test]
fn plain_text_renders_literally() {
    let lines = render("nothing special here", 80);
    assert_eq!(lines.len(), 1);
    assert_eq!(text(&lines[0]), "nothing special here");
    assert!(lines[0].spans.iter().all(|s| s.style == Style::new()));
}

#[test]
fn rendered_lines_never_exceed_width() {
    let src = "# A heading that is rather long\n> a quoted line that also goes on and on\n- a bullet with **bold** words and `code` spans in it\n12. numbered item with enough words to wrap\n\n```\nfn main() { println!(\"a very long code line indeed\"); }\n```";
    for width in [5usize, 9, 14, 30] {
        let lines = render(src, width);
        assert!(!lines.is_empty());
        for l in &lines {
            assert!(text(l).chars().count() <= width, "width {width}: {:?}", text(l));
        }
    }
}

#[test]
fn code_colors_are_fixed() {
    assert_eq!(code_bg(), Color::Rgb(40, 44, 52));
    assert_eq!(inline_code_fg(), Color::Rgb(229, 192, 123));
}

#[test]
fn narrow_panes_still_fit_quotes_and_bullets() {
    let lines = render("> a quoted remark\n- item with words\n---", 3);
    for l in &lines {
        assert!(text(l).chars().count() <= 3, "{:?}", text(l));
    }
    assert_eq!(text(&lines[0]), "│ a");
    assert_eq!(text(lines.last().unwrap()), "───");
}

#[test]
fn emphasis_closes_only_on_an_exact_run() {
    let lines = render("**a***", 80);
    assert_eq!(text(&lines[0]), "**a***");
    let lines = render("**b** and ***", 80);
    assert_eq!(text(&lines[0]), "b and ***");
    assert!(style_of(&lines[0], "b").add_modifier.contains(Modifier::bold()));
}

#[test]
fn wrapped_paragraph_keeps_its_words_and_starts_lines_plainly() {
    let src = "alpha beta   gamma delta epsilon zeta";
    let lines = render(src, 12);
    assert!(lines.len() > 1);
    for l in &lines {
        let t = text(l);
        assert!(!t.is_empty());
        assert!(!t.starts_with(' '));
    }
    let kept: String = lines.iter().map(text).collect::<String>().chars().filter(|c| *c != ' ').collect();
    let want: String = src.chars().filter(|c| *c != ' ').collect();
    assert_eq!(kept, want);
}

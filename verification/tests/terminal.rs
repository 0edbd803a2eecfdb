use hummingbird::tui::{
    ansi_write, changelog, pad_right, repeat_str, trust_width, welcome_screen, welcome_widths, TrustAction, TrustKey,
    TrustPrompt,
};

#[test]
fn trust_prompt_keys() {
    let mut p = TrustPrompt::new();
    assert_eq!(p.selected, 0);
    assert_eq!(p.on_key(TrustKey::Down), TrustAction::Redraw);
    assert_eq!(p.selected, 1);
    assert_eq!(p.on_key(TrustKey::Char('j')), TrustAction::Redraw);
    assert_eq!(p.selected, 1);
    assert_eq!(p.on_key(TrustKey::Enter), TrustAction::Decided(false));
    assert_eq!(p.on_key(TrustKey::Up), TrustAction::Redraw);
    assert_eq!(p.selected, 0);
    assert_eq!(p.on_key(TrustKey::Char('k')), TrustAction::Redraw);
    assert_eq!(p.selected, 0);
    assert_eq!(p.on_key(TrustKey::Enter), TrustAction::Decided(true));
    assert_eq!(p.on_key(TrustKey::Escape), TrustAction::Decided(false));
    assert_eq!(p.on_key(TrustKey::Char('q')), TrustAction::Decided(false));
    assert_eq!(p.on_key(TrustKey::Other), TrustAction::Redraw);
}

#[test]
fn widths() {
    assert_eq!(trust_width(Some(100)), 76);
    assert_eq!(trust_width(Some(40)), 40);
    assert_eq!(trust_width(None), 76);
    assert_eq!(welcome_widths(200), (58, 50));
    assert_eq!(welcome_widths(80), (58, 19));
    assert_eq!(welcome_widths(50), (58, 0));
}

#[test]
fn text_helpers() {
    assert_eq!(ansi_write("1", "x"), "\x1b[1mx\x1b[0m");
    assert_eq!(pad_right("ab", 4), "ab  ");
    assert_eq!(pad_right("abcdef", 4), "abcdef");
    assert_eq!(repeat_str("=", 3), "===");
    assert_eq!(changelog().len(), 6);
}

#[test]
fn welcome_screen_mentions_the_session() {
    let s = welcome_screen("Ada", "qwen3:30b", "ollama", "/work", "v0.1.0", 120);
    assert!(s.contains("Welcome back, Ada!"));
    assert!(s.contains("qwen3:30b via ollama"));
    assert!(s.contains("/work"));
    assert!(s.contains("Hummingbird v0.1.0"));
}

#[test]
fn trust_footer_hint_row_resets_twice() {
    let footer = hummingbird::tui::trust_footer(60);
    let row = footer.lines().nth(1).unwrap();
    assert!(row.contains("Enter to confirm"));
    assert_eq!(row.trim_start_matches("\x1b[0m").matches("\x1b[0m").count(), 2);
    assert_eq!(row.matches('\u{2551}').count(), 2);
}

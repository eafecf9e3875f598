use calendar_tui::auth::Tokens;

#[test]
fn test_tokens_module_accessible() {
    let tokens = Tokens::new("test".to_string(), "test".to_string());
    assert_eq!(tokens.access_token, "test");
}

#[test]
fn test_tokens_new() {
    let tokens = Tokens::new("access123".to_string(), "refresh456".to_string());

    assert_eq!(tokens.access_token, "access123");
    assert_eq!(tokens.refresh_token, "refresh456");
}

#[test]
fn refresh_without_a_new_refresh_token_keeps_the_old_one() {
    let mut tokens = Tokens::new("a1".to_string(), "r1".to_string());
    tokens.apply_refresh("a2".to_string(), None);
    assert_eq!(tokens, Tokens::new("a2".to_string(), "r1".to_string()));
}

#[test]
fn refresh_with_a_new_refresh_token_replaces_both() {
    let mut tokens = Tokens::new("a1".to_string(), "r1".to_string());
    tokens.apply_refresh("a2".to_string(), Some("r2".to_string()));
    assert_eq!(tokens, Tokens::new("a2".to_string(), "r2".to_string()));
}

#[test]
fn duplicate_is_equal() {
    let tokens = Tokens::new("a1".to_string(), "r1".to_string());
    assert_eq!(tokens.duplicate(), tokens);
}

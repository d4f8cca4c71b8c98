use marbles::{is_play_request, starts_with};

#[test]
fn play_prefix_is_recognised() {
    assert!(is_play_request("!play"));
    assert!(is_play_request("!play >:("));
    assert!(is_play_request("!player one"));
}

#[test]
fn other_messages_are_not_requests() {
    assert!(!is_play_request(""));
    assert!(!is_play_request("!pla"));
    assert!(!is_play_request(" !play"));
    assert!(!is_play_request("!Play"));
    assert!(!is_play_request("play"));
    assert!(!is_play_request("let us !play"));
}

#[test]
fn prefix_is_compared_by_characters() {
    assert!(starts_with("żółw biegnie", "żół"));
    assert!(!starts_with("zolw", "żół"));
    assert!(!starts_with("é", "e"));
    assert!(starts_with("日本語", "日本"));
    assert!(!starts_with("日本", "日本語"));
}

#[test]
fn empty_prefix_starts_everything() {
    assert!(starts_with("", ""));
    assert!(starts_with("abc", ""));
    assert!(starts_with("abc", "abc"));
    assert!(!starts_with("", "a"));
}

#[test]
fn agrees_with_the_standard_library() {
    let texts = ["", "!", "!play", "!plays", "x!play", "!plaY", "¡play", "!play\u{301}"];
    let prefixes = ["", "!", "!play", "¡", "!play\u{301}"];
    for text in texts {
        for prefix in prefixes {
            assert_eq!(starts_with(text, prefix), text.starts_with(prefix));
        }
    }
}

use cunzhi::codex_thread::{
    fallback_codex_thread_id, given_codex_thread_id, newest_codex_thread, CodexThreadCandidate,
};

fn candidate(thread_id: &str, updated_at_ms: i64) -> CodexThreadCandidate {
    CodexThreadCandidate { thread_id: thread_id.to_string(), updated_at_ms }
}

#[test]
fn the_first_given_thread_id_wins() {
    assert_eq!(
        given_codex_thread_id(Some("a".to_string()), Some("b".to_string()), Some("c".to_string())),
        Some("a".to_string())
    );
    assert_eq!(
        given_codex_thread_id(None, Some("b".to_string()), Some("c".to_string())),
        Some("b".to_string())
    );
    assert_eq!(given_codex_thread_id(None, None, Some("c".to_string())), Some("c".to_string()));
    assert_eq!(given_codex_thread_id(None, None, None), None);
}

#[test]
fn the_newest_recorded_thread_is_the_fallback() {
    let found = vec![candidate("t-1", 100), candidate("t-3", 200), candidate("t-2", 200)];
    assert_eq!(newest_codex_thread(&found), Some(1));
    assert_eq!(fallback_codex_thread_id(&found), Some("t-3".to_string()));
    let tie = vec![candidate("t-1", 5), candidate("t-1", 5)];
    assert_eq!(newest_codex_thread(&tie), Some(0));
    assert_eq!(fallback_codex_thread_id(&vec![]), None);
}

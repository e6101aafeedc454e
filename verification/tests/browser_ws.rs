use cunzhi::browser_ws::{
    browser_ws_client_hello_message, browser_ws_client_proof, browser_ws_client_proof_matches,
    browser_ws_client_proof_message, browser_ws_constant_time_eq, browser_ws_new_nonce,
    browser_ws_nonce_from_value, browser_ws_origin_is_trusted,
    browser_ws_pairing_token_from_sources, browser_ws_pairing_token_in_config,
    browser_ws_server_hello_message, browser_ws_server_proof, browser_ws_server_proof_matches,
    browser_ws_validate_origin_request, check_auth_ok, check_server_hello,
    ensure_browser_ws_pairing_token, ensure_browser_ws_pairing_token_in_config, BrowserMessage,
    BrowserWsConfig, BrowserWsFrame, ClientRead, OriginHeader, WsConnection, WsEffect, WsEvent,
    WsReply,
};

fn frame(kind: &str) -> BrowserWsFrame {
    BrowserWsFrame {
        frame_type: Some(kind.to_string()),
        client_nonce: None,
        server_nonce: None,
        client_proof: None,
        server_proof: None,
        message: None,
        ai_response: None,
        url: None,
        title: None,
        site_name: None,
        run_time: None,
        think_time: None,
        image_generated: None,
        new_images: None,
    }
}

#[test]
fn browser_ws_token_source_prefers_env_and_falls_back_to_config() {
    let mut config = BrowserWsConfig { token: "stored-browser-token".to_string() };
    assert_eq!(
        browser_ws_pairing_token_from_sources(Some(" env-browser-token "), &config).unwrap(),
        "env-browser-token"
    );
    assert_eq!(
        browser_ws_pairing_token_from_sources(None, &config).unwrap(),
        "stored-browser-token"
    );
    config.token.clear();
    assert!(browser_ws_pairing_token_from_sources(None, &config).is_err());
}

#[test]
fn browser_ws_pairing_token_generation_persists_in_config() {
    let mut config = BrowserWsConfig { token: String::new() };
    assert!(browser_ws_pairing_token_in_config(&config).is_none());

    let first = ensure_browser_ws_pairing_token_in_config(&mut config).unwrap();
    assert!(first.starts_with("bwst_"));
    assert_eq!(first.len(), 69);
    assert!(first[5..].chars().all(|c| c.is_ascii_digit() || ('a'..='f').contains(&c)));
    assert_eq!(
        browser_ws_pairing_token_in_config(&config).as_deref(),
        Some(first.as_str())
    );

    let second = ensure_browser_ws_pairing_token_in_config(&mut config).unwrap();
    assert_eq!(second, first);
}

#[test]
fn pairing_token_is_made_only_when_missing() {
    let mut config = BrowserWsConfig { token: "  kept ".to_string() };
    assert_eq!(ensure_browser_ws_pairing_token(None, &mut config), ("kept".to_string(), false));
    assert_eq!(
        ensure_browser_ws_pairing_token(Some("env"), &mut config),
        ("env".to_string(), false)
    );
    let mut empty = BrowserWsConfig { token: " ".to_string() };
    let (token, changed) = ensure_browser_ws_pairing_token(None, &mut empty);
    assert!(changed);
    assert_eq!(token.len(), 69);
    assert_eq!(empty.token, token);
    assert_eq!(ensure_browser_ws_pairing_token(None, &mut empty), (token.clone(), false));
    assert_eq!(empty.token, token);
}

#[test]
fn browser_ws_client_proof_rejects_missing_and_wrong_values() {
    let token = "shared-secret";
    let client_nonce = "client-nonce-123456";
    let server_nonce = "server-nonce-123456";

    let mut f = frame("auth_client_proof");
    f.client_nonce = Some(client_nonce.to_string());
    f.server_nonce = Some(server_nonce.to_string());
    assert!(!browser_ws_client_proof_matches(&f, token, client_nonce, server_nonce));

    f.client_proof = Some("not-the-proof".to_string());
    assert!(!browser_ws_client_proof_matches(&f, token, client_nonce, server_nonce));
}

#[test]
fn browser_ws_client_proof_accepts_matching_hmac() {
    let token = "shared-secret";
    let client_nonce = "client-nonce-123456";
    let server_nonce = "server-nonce-123456";
    let proof = browser_ws_client_proof(token, client_nonce, server_nonce);

    let mut f = frame("auth_client_proof");
    f.client_nonce = Some(client_nonce.to_string());
    f.server_nonce = Some(server_nonce.to_string());
    f.client_proof = Some(proof);
    assert!(browser_ws_client_proof_matches(&f, token, client_nonce, server_nonce));
}

#[test]
fn browser_ws_server_proof_binds_both_nonces() {
    let token = "shared-secret";
    let client_nonce = "client-nonce-123456";
    let server_nonce = "server-nonce-123456";
    let proof = browser_ws_server_proof(token, client_nonce, server_nonce);

    assert!(browser_ws_server_proof_matches(&proof, token, client_nonce, server_nonce));
    assert!(!browser_ws_server_proof_matches(&proof, token, "other-client-nonce", server_nonce));
    assert!(!browser_ws_server_proof_matches(&proof, token, client_nonce, "other-server-nonce"));
}

#[test]
fn browser_ws_origin_policy_rejects_web_page_origins() {
    assert!(browser_ws_origin_is_trusted(None));
    assert!(browser_ws_origin_is_trusted(Some("chrome-extension://abcdefghijklmnop")));
    assert!(browser_ws_origin_is_trusted(Some(
        "moz-extension://12345678-1234-1234-1234-123456789abc"
    )));
    assert!(!browser_ws_origin_is_trusted(Some("https://chatgpt.com")));
    assert!(!browser_ws_origin_is_trusted(Some("http://127.0.0.1:3000")));
    assert!(!browser_ws_origin_is_trusted(Some("null")));
}

#[test]
fn unreadable_origin_is_refused() {
    assert!(!browser_ws_validate_origin_request(&OriginHeader::Unreadable));
    assert!(browser_ws_validate_origin_request(&OriginHeader::Missing));
    assert!(!browser_ws_validate_origin_request(&OriginHeader::Value(
        "https://chatgpt.com".to_string()
    )));
}

#[test]
fn proofs_are_hex_hmac_sha256() {
    let proof = browser_ws_server_proof("key", "The quick brown fox jumps over the lazy dog", "x");
    assert_eq!(proof.len(), 64);
    assert!(proof.chars().all(|c| c.is_ascii_hexdigit() && !c.is_ascii_uppercase()));
    assert_ne!(proof, browser_ws_client_proof("key", "The quick brown fox jumps over the lazy dog", "x"));
}

#[test]
fn nonces_are_checked_by_length_and_alphabet() {
    assert_eq!(
        browser_ws_nonce_from_value(Some("client-nonce-123456")),
        Some("client-nonce-123456".to_string())
    );
    assert_eq!(browser_ws_nonce_from_value(Some("short")), None);
    assert_eq!(browser_ws_nonce_from_value(Some("has space in it 123")), None);
    assert_eq!(browser_ws_nonce_from_value(Some(&"a".repeat(129))), None);
    assert!(browser_ws_nonce_from_value(Some(&"a".repeat(128))).is_some());
    assert_eq!(browser_ws_nonce_from_value(None), None);
    let fresh = browser_ws_new_nonce();
    assert_eq!(browser_ws_nonce_from_value(Some(&fresh)), Some(fresh.clone()));
}

#[test]
fn constant_time_eq_compares_whole_strings() {
    assert!(browser_ws_constant_time_eq("abc", "abc"));
    assert!(!browser_ws_constant_time_eq("abc", "abd"));
    assert!(!browser_ws_constant_time_eq("abc", "ab"));
}

#[test]
fn browser_ws_unauthenticated_ping_does_not_install_browser_sender() {
    let mut conn = WsConnection::new("test-browser-ws-token");
    let step = conn.step(WsEvent::Text(Some(frame("ping"))), "fresh-nonce-000000");
    assert!(matches!(step.reply, Some(WsReply::AuthRequired)));
    assert!(!step.install_browser_sender);
    assert!(!conn.authenticated);
    assert!(!conn.on_close());
}

#[test]
fn browser_ws_authenticated_ping_installs_browser_sender() {
    let token = "test-browser-ws-token";
    let client_nonce = "client-nonce-123456";
    let server_nonce = "server-nonce-abcdef";
    let mut conn = WsConnection::new(token);

    let mut hello = frame("auth_client_hello");
    hello.client_nonce = Some(browser_ws_client_hello_message(client_nonce).client_nonce);
    let step = conn.step(WsEvent::Text(Some(hello)), server_nonce);
    let (sn, sp) = match step.reply {
        Some(WsReply::ServerHello { client_nonce: c, server_nonce: s, server_proof: p }) => {
            assert_eq!(c, client_nonce);
            (s, p)
        }
        other => panic!("unexpected {other:?}"),
    };
    assert_eq!(sn, server_nonce);
    assert!(browser_ws_server_proof_matches(&sp, token, client_nonce, &sn));

    let answer = browser_ws_client_proof_message(token, client_nonce, &sn);
    let mut proof = frame("auth_client_proof");
    proof.client_nonce = Some(answer.client_nonce);
    proof.server_nonce = Some(answer.server_nonce);
    proof.client_proof = Some(answer.client_proof);
    let step = conn.step(WsEvent::Text(Some(proof)), "unused-nonce-00000");
    assert!(matches!(step.reply, Some(WsReply::AuthOk)));
    assert!(conn.authenticated);

    let step = conn.step(WsEvent::Text(Some(frame("ping"))), "unused-nonce-00000");
    assert!(step.install_browser_sender);
    assert!(matches!(step.reply, Some(WsReply::StatusOk)));
    assert!(conn.on_close());
}

#[test]
fn a_wrong_proof_closes_the_connection() {
    let mut conn = WsConnection::new("token");
    let mut hello = frame("auth_client_hello");
    hello.client_nonce = Some("client-nonce-123456".to_string());
    let _ = conn.step(WsEvent::Text(Some(hello)), "server-nonce-123456");
    let mut proof = frame("auth_client_proof");
    proof.client_nonce = Some("client-nonce-123456".to_string());
    proof.server_nonce = Some("server-nonce-123456".to_string());
    proof.client_proof = Some("0".repeat(64));
    let step = conn.step(WsEvent::Text(Some(proof)), "x");
    assert!(matches!(step.reply, Some(WsReply::AuthFailed(ref r)) if r == "invalid_client_proof"));
    assert!(step.stop);
    assert!(!conn.authenticated);
}

#[test]
fn a_proof_without_a_challenge_is_refused() {
    let mut conn = WsConnection::new("token");
    let step = conn.step(WsEvent::Text(Some(frame("auth_client_proof"))), "x");
    assert!(matches!(step.reply, Some(WsReply::AuthFailed(ref r)) if r == "missing_challenge"));
    assert!(step.stop);
    let mut bad = frame("auth_client_hello");
    bad.client_nonce = Some("short".to_string());
    let step = conn.step(WsEvent::Text(Some(bad)), "x");
    assert!(matches!(step.reply, Some(WsReply::AuthFailed(ref r)) if r == "invalid_client_nonce"));
}

#[test]
fn outgoing_messages_wait_for_authentication() {
    let mut conn = WsConnection::new("token");
    let msg = BrowserMessage {
        message_type: "send_message".to_string(),
        message: "hi".to_string(),
        tab_id: None,
    };
    let step = conn.step(WsEvent::Outgoing(msg), "x");
    assert!(step.reply.is_none());
    assert!(!step.stop);
    let step = conn.step(WsEvent::Close, "x");
    assert!(step.stop);
}

#[test]
fn authenticated_completions_are_published() {
    let mut conn = WsConnection::new("t");
    conn.authenticated = true;
    let mut done = frame("ai_completed");
    done.url = Some("https://chatgpt.com/c/1".to_string());
    done.run_time = Some(12);
    let step = conn.step(WsEvent::Text(Some(done)), "x");
    match step.effect {
        WsEffect::EmitAiCompleted(c) => {
            assert_eq!(c.url, "https://chatgpt.com/c/1");
            assert_eq!(c.site_name, "Unknown");
            assert_eq!(c.run_time, Some(12));
            assert!(!c.image_generated);
        }
        other => panic!("unexpected {other:?}"),
    }
    let mut relay = frame("send_message");
    relay.message = Some("hello".to_string());
    let step = conn.step(WsEvent::Text(Some(relay)), "x");
    assert!(matches!(step.effect, WsEffect::ForwardToBrowser(ref m) if m == "hello"));
    let step = conn.step(WsEvent::Text(None), "x");
    assert!(matches!(step.reply, Some(WsReply::StatusOk)));
}

#[test]
fn the_client_checks_the_server_challenge() {
    let token = "tok";
    let c = "client-nonce-123456";
    let s = "server-nonce-123456";
    let hello = match browser_ws_server_hello_message(token, c, s) {
        WsReply::ServerHello { client_nonce, server_nonce, server_proof } => {
            let mut f = frame("auth_server_hello");
            f.client_nonce = Some(client_nonce);
            f.server_nonce = Some(server_nonce);
            f.server_proof = Some(server_proof);
            f
        }
        other => panic!("unexpected {other:?}"),
    };
    assert_eq!(check_server_hello(&ClientRead::Message(hello), token, c).unwrap(), s);
    assert_eq!(
        check_server_hello(&ClientRead::Message(frame("auth_ok")), token, c).unwrap_err(),
        "WebSocket 服务器未返回认证 challenge"
    );
    assert_eq!(
        check_server_hello(&ClientRead::Closed, token, c).unwrap_err(),
        "WebSocket 服务器在认证前关闭连接"
    );
    let mut forged = frame("auth_server_hello");
    forged.client_nonce = Some(c.to_string());
    forged.server_nonce = Some(s.to_string());
    forged.server_proof = Some("00".to_string());
    assert_eq!(
        check_server_hello(&ClientRead::Message(forged), token, c).unwrap_err(),
        "WebSocket 服务器身份认证失败"
    );
    assert!(check_auth_ok(&ClientRead::Message(frame("auth_ok"))).is_ok());
    assert_eq!(
        check_auth_ok(&ClientRead::Message(frame("auth_failed"))).unwrap_err(),
        "WebSocket 服务器拒绝认证"
    );
}

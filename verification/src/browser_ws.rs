//! The local WebSocket that the browser extension talks to: the pairing token, the
//! origins that may connect, the nonces and HMAC proofs of the mutual challenge, and the
//! life of one connection as a state machine.
use vstd::prelude::*;

use crate::checkpoint_run::{is_lower_hex, new_uuid_simple};
use crate::text::{
    append_str, chars_eq, chars_of, is_ascii_alnum, starts_with, starts_with_str, string_from,
    trim, trim_chars, trim_end, trim_start,
};

verus! {

broadcast use vstd::string::group_string_axioms;

// ---------------------------------------------------------------------------
// The pairing token
// ---------------------------------------------------------------------------

/// The settings of the browser WebSocket that are kept in the configuration file.
#[derive(Debug)]
pub struct BrowserWsConfig {
    pub token: String,
}

/// A token as given, trimmed, unless it is blank.
pub open spec fn normalized_token(value: Seq<char>) -> Option<Seq<char>> {
    if trim(value).len() == 0 {
        None
    } else {
        Some(trim(value))
    }
}

/// The view of an optional `String`.
pub open spec fn string_opt(o: Option<String>) -> Option<Seq<char>> {
    match o {
        Some(s) => Some(s@),
        None => None,
    }
}

/// A token as given, trimmed, unless it is blank.
pub fn browser_ws_normalized_token(value: &str) -> (res: Option<String>)
    ensures
        string_opt(res) == normalized_token(value@),
{
    let t = trim_chars(&chars_of(value));
    if t.len() == 0 {
        None
    } else {
        Some(string_from(&t))
    }
}

/// The pairing token kept in the configuration, if one is set.
pub fn browser_ws_pairing_token_in_config(config: &BrowserWsConfig) -> (res: Option<String>)
    ensures
        string_opt(res) == normalized_token(config.token@),
{
    browser_ws_normalized_token(config.token.as_str())
}

/// The error when neither the environment nor the configuration holds a token.
pub open spec fn missing_token_message() -> Seq<char> {
    "ITERATE_BROWSER_WS_TOKEN 未配置，且本地 Browser WebSocket 配对密钥为空"@
}

/// The pairing token: the one from the environment when it is set and not blank, else
/// the one in the configuration; an error when there is neither.
pub fn browser_ws_pairing_token_from_sources(env_token: Option<&str>, config: &BrowserWsConfig) -> (res:
    Result<String, String>)
    ensures
        match (match env_token {
            Some(e) => normalized_token(e@),
            None => None,
        }) {
            Some(t) => (res matches Ok(r) && r@ == t),
            None => match normalized_token(config.token@) {
                Some(t) => (res matches Ok(r) && r@ == t),
                None => (res matches Err(m) && m@ == missing_token_message()),
            },
        },
{
    match env_token {
        Some(e) => match browser_ws_normalized_token(e) {
            Some(t) => {
                return Ok(t);
            },
            None => {},
        },
        None => {},
    }
    match browser_ws_pairing_token_in_config(config) {
        Some(t) => Ok(t),
        None => Err(
            string_from(
                &chars_of("ITERATE_BROWSER_WS_TOKEN 未配置，且本地 Browser WebSocket 配对密钥为空"),
            ),
        ),
    }
}

/// The shape of a fresh pairing token: `bwst_` and 64 lowercase hexadecimal digits.
pub open spec fn fresh_token_shape(t: Seq<char>) -> bool {
    &&& starts_with(t, "bwst_"@)
    &&& t.len() == 69
    &&& forall|i: int| 5 <= i < 69 ==> is_lower_hex(#[trigger] t[i])
}

/// A fresh pairing token: `bwst_` and two random UUIDs in simple form.
pub fn browser_ws_new_pairing_token() -> (res: String)
    ensures
        starts_with(res@, "bwst_"@),
        res@.len() == 69,
        forall|i: int| 5 <= i < 69 ==> is_lower_hex(#[trigger] res@[i]),
        fresh_token_shape(res@),
{
    let mut t = chars_of("bwst_");
    proof {
        reveal_strlit("bwst_");
    }
    let a = new_uuid_simple();
    let b = new_uuid_simple();
    append_str(&mut t, a.as_str());
    append_str(&mut t, b.as_str());
    assert(t@.take(5) =~= "bwst_"@);
    assert forall|i: int| 5 <= i < 69 implies is_lower_hex(#[trigger] t@[i]) by {
        if i < 37 {
            assert(t@[i] == a@[i - 5]);
        } else {
            assert(t@[i] == b@[i - 37]);
        }
    }
    string_from(&t)
}

/// The token of the configuration; a new one is made and kept there when it has none.
pub fn ensure_browser_ws_pairing_token_in_config(config: &mut BrowserWsConfig) -> (res: Result<
    String,
    String,
>)
    ensures
        match normalized_token(old(config).token@) {
            Some(t) => (res matches Ok(r) && r@ == t) && final(config).token@ == old(config).token@,
            None => (res matches Ok(r) && r@ == final(config).token@ && fresh_token_shape(r@)
                && normalized_token(r@) == Some(r@)),
        },
{
    match browser_ws_pairing_token_in_config(config) {
        Some(t) => Ok(t),
        None => {
            let token = browser_ws_new_pairing_token();
            proof {
                assert(is_lower_hex(token@[68]));
                lemma_token_has_no_blank(token@);
            }
            config.token = string_from(&chars_of(token.as_str()));
            Ok(token)
        },
    }
}

/// A fresh token has no whitespace at its ends: it starts with `bwst_` and ends with a
/// hexadecimal digit.
proof fn lemma_token_has_no_blank(t: Seq<char>)
    requires
        starts_with(t, "bwst_"@),
        t.len() == 69,
        is_lower_hex(t[68]),
    ensures
        normalized_token(t) == Some(t),
{
    reveal_strlit("bwst_");
    assert(t[0] == "bwst_"@[0]);
    assert(trim_start(t) == t);
    assert(t.last() == t[68]);
    assert(trim_end(t) == t);
}

/// The token of an environment variable, when it is set and not blank.
pub open spec fn env_token_of(env_token: Option<Seq<char>>) -> Option<Seq<char>> {
    match env_token {
        Some(e) => normalized_token(e),
        None => None,
    }
}

/// The view of an optional string slice.
pub open spec fn str_opt(o: Option<&str>) -> Option<Seq<char>> {
    match o {
        Some(s) => Some(s@),
        None => None,
    }
}

/// What ensuring the pairing token gives: the environment's token, else the configured
/// one, both leaving the configuration as it was; else a fresh token (`bwst_` and 64
/// lowercase hexadecimal digits), kept in the configuration as it is, with the report that
/// the configuration changed.
pub open spec fn pairing_token_ensured(
    env_token: Option<Seq<char>>,
    before: Seq<char>,
    token: Seq<char>,
    changed: bool,
    after: Seq<char>,
) -> bool {
    match env_token_of(env_token) {
        Some(t) => token == t && !changed && after == before,
        None => match normalized_token(before) {
            Some(t) => token == t && !changed && after == before,
            None => changed && token == after && fresh_token_shape(token) && normalized_token(token)
                == Some(token),
        },
    }
}

/// What a connection needs of the pairing token: the one from the environment when it is
/// set and not blank, else the one in the configuration, made and kept there when
/// missing. Gives the token and whether the configuration changed and must be saved.
pub fn ensure_browser_ws_pairing_token(env_token: Option<&str>, config: &mut BrowserWsConfig) -> (res: (
    String,
    bool,
))
    ensures
        pairing_token_ensured(str_opt(env_token), old(config).token@, res.0@, res.1, final(config).token@),
{
    match browser_ws_pairing_token_from_sources(env_token, config) {
        Ok(t) => (t, false),
        Err(_) => {
            let t = match ensure_browser_ws_pairing_token_in_config(config) {
                Ok(t) => t,
                Err(e) => e,
            };
            (t, true)
        },
    }
}

/// Ensuring the pairing token twice changes nothing the second time: the same token comes
/// back and the configuration stays as the first call left it.
pub proof fn law_pairing_token_is_stable(
    env_token: Option<Seq<char>>,
    before: Seq<char>,
    first: Seq<char>,
    first_changed: bool,
    between: Seq<char>,
    second: Seq<char>,
    second_changed: bool,
    after: Seq<char>,
)
    requires
        pairing_token_ensured(env_token, before, first, first_changed, between),
        pairing_token_ensured(env_token, between, second, second_changed, after),
    ensures
        second == first,
        !second_changed,
        after == between,
{
}

// ---------------------------------------------------------------------------
// Who may connect
// ---------------------------------------------------------------------------

/// An origin of a browser extension.
pub open spec fn extension_origin(o: Seq<char>) -> bool {
    ||| starts_with(o, "chrome-extension://"@)
    ||| starts_with(o, "moz-extension://"@)
    ||| starts_with(o, "safari-web-extension://"@)
}

/// Whether a handshake's `Origin` may connect: a missing origin (a local process) may,
/// and so may a browser extension's; a web page may not.
pub open spec fn origin_trusted(origin: Option<Seq<char>>) -> bool {
    match origin {
        None => true,
        Some(o) => trim(o).len() > 0 && extension_origin(trim(o)),
    }
}

/// Whether a handshake's `Origin` may connect.
pub fn browser_ws_origin_is_trusted(origin: Option<&str>) -> (res: bool)
    ensures
        res == origin_trusted(crate::checkpoint::opt_view(origin)),
{
    match origin {
        None => true,
        Some(o) => {
            let t = trim_chars(&chars_of(o));
            t.len() > 0 && (starts_with_str(&t, "chrome-extension://") || starts_with_str(
                &t,
                "moz-extension://",
            ) || starts_with_str(&t, "safari-web-extension://"))
        },
    }
}

/// The `Origin` header of a handshake request.
#[derive(Debug)]
pub enum OriginHeader {
    /// The request carries none.
    Missing,
    /// Its value is not visible ASCII text.
    Unreadable,
    /// Its value.
    Value(String),
}

/// Whether a handshake may go on: an unreadable `Origin` is refused (with 403), and
/// otherwise the origin must be trusted.
pub fn browser_ws_validate_origin_request(origin: &OriginHeader) -> (res: bool)
    ensures
        res == match origin {
            OriginHeader::Missing => true,
            OriginHeader::Unreadable => false,
            OriginHeader::Value(v) => origin_trusted(Some(v@)),
        },
{
    match origin {
        OriginHeader::Missing => browser_ws_origin_is_trusted(None),
        OriginHeader::Unreadable => false,
        OriginHeader::Value(v) => browser_ws_origin_is_trusted(Some(v.as_str())),
    }
}

// ---------------------------------------------------------------------------
// Nonces and proofs
// ---------------------------------------------------------------------------

/// A character that a nonce may hold: an ASCII letter or digit, `-` or `_`.
pub open spec fn nonce_char(c: char) -> bool {
    is_ascii_alnum(c) || c == '-' || c == '_'
}

/// A valid nonce: 16 to 128 bytes, each an ASCII letter or digit, `-` or `_`.
pub open spec fn valid_nonce(n: Seq<char>) -> bool {
    &&& 16 <= n.len() <= 128
    &&& forall|i: int| 0 <= i < n.len() ==> nonce_char(#[trigger] n[i])
}

/// The nonce a message field carries, when it is a valid one.
pub open spec fn nonce_of(field: Option<Seq<char>>) -> Option<Seq<char>> {
    match field {
        Some(n) => if valid_nonce(n) {
            Some(n)
        } else {
            None
        },
        None => None,
    }
}

/// The nonce in a string field of a message, when it is valid: 16 to 128 bytes of ASCII
/// letters, digits, `-` and `_`.
pub fn browser_ws_nonce_from_value(field: Option<&str>) -> (res: Option<String>)
    ensures
        string_opt(res) == nonce_of(crate::checkpoint::opt_view(field)),
{
    let n = match field {
        Some(f) => chars_of(f),
        None => {
            return None;
        },
    };
    let mut i: usize = 0;
    while i < n.len()
        invariant
            i <= n.len(),
            crate::checkpoint::opt_view(field) == Some(n@),
            forall|j: int| 0 <= j < i ==> nonce_char(#[trigger] n@[j]),
        decreases n.len() - i,
    {
        let c = n[i];
        if !(('0' <= c && c <= '9') || ('a' <= c && c <= 'z') || ('A' <= c && c <= 'Z') || c == '-'
            || c == '_') {
            assert(!nonce_char(n@[i as int]));
            return None;
        }
        i += 1;
    }
    if n.len() < 16 || n.len() > 128 {
        return None;
    }
    Some(string_from(&n))
}

/// HMAC-SHA256 of `msg` under `key`.
pub uninterp spec fn hmac_sha256(key: Seq<u8>, msg: Seq<u8>) -> Seq<u8>;

/// The largest input that SHA-256 takes is far beyond this.
pub open spec fn hmac_input_fits(n: nat) -> bool {
    n < 0x1000_0000_0000_0000
}

/// `ring::hmac::sign` under `ring::hmac::Key::new(ring::hmac::HMAC_SHA256, key)`: the tag's
/// bytes, which are the 32 bytes of HMAC-SHA256 of `msg` under `key`. Both inputs stay
/// below the length at which the crate's digest refuses its input.
#[verifier::external_body]
fn hmac_sha256_sign(key: &[u8], msg: &[u8]) -> (res: Vec<u8>)
    requires
        hmac_input_fits(key@.len()),
        hmac_input_fits(msg@.len()),
    ensures
        res@ == hmac_sha256(key@, msg@),
        res@.len() == 32,
{
    let key = ring::hmac::Key::new(ring::hmac::HMAC_SHA256, key);
    ring::hmac::sign(&key, msg).as_ref().to_vec()
}

/// A hexadecimal digit in lowercase.
pub open spec fn hex_digit(d: u8) -> char {
    if d < 10 {
        (('0' as u8) + d) as char
    } else {
        (('a' as u8) + d - 10) as char
    }
}

/// The lowercase hexadecimal text of bytes, two digits per byte, the high one first.
pub open spec fn hex_lower(bytes: Seq<u8>) -> Seq<char>
    decreases bytes.len(),
{
    if bytes.len() == 0 {
        seq![]
    } else {
        hex_lower(bytes.drop_last()) + seq![hex_digit(bytes.last() / 16), hex_digit(bytes.last() % 16)]
    }
}

/// `hex::encode`: the lowercase hexadecimal text of the bytes, two digits per byte, the
/// high one first.
#[verifier::external_body]
pub(crate) fn hex_encode(bytes: &[u8]) -> (res: String)
    ensures
        res@ == hex_lower(bytes@),
{
    hex::encode(bytes)
}

/// What an HMAC proof signs: the purpose and both nonces, separated by `:`.
pub open spec fn proof_payload(purpose: Seq<char>, client_nonce: Seq<char>, server_nonce: Seq<char>) -> Seq<char> {
    purpose + ":"@ + client_nonce + ":"@ + server_nonce
}

/// The proof for a purpose: the hexadecimal HMAC-SHA256, under the token, of the
/// purpose and both nonces.
pub open spec fn hmac_proof(
    token: Seq<char>,
    purpose: Seq<char>,
    client_nonce: Seq<char>,
    server_nonce: Seq<char>,
) -> Seq<char> {
    hex_lower(
        hmac_sha256(
            vstd::utf8::encode_utf8(token),
            vstd::utf8::encode_utf8(proof_payload(purpose, client_nonce, server_nonce)),
        ),
    )
}

/// The inputs of a proof are small enough to sign.
pub open spec fn proof_inputs_fit(token: Seq<char>, client_nonce: Seq<char>, server_nonce: Seq<char>) -> bool {
    &&& token.len() < 0x100_0000_0000_0000
    &&& client_nonce.len() < 0x100_0000_0000_0000
    &&& server_nonce.len() < 0x100_0000_0000_0000
}

/// UTF-8 takes at most four bytes a character.
pub proof fn lemma_utf8_len_bound(s: Seq<char>)
    ensures
        vstd::utf8::encode_utf8(s).len() <= 4 * s.len(),
    decreases s.len(),
{
    if s.len() > 0 {
        lemma_utf8_len_bound(s.drop_first());
    }
}

/// The hexadecimal HMAC-SHA256 proof of `purpose` and both nonces under the token.
fn browser_ws_hmac_hex(token: &str, purpose: &str, client_nonce: &str, server_nonce: &str) -> (res: String)
    requires
        proof_inputs_fit(token@, client_nonce@, server_nonce@),
        purpose@.len() <= 6,
    ensures
        res@ == hmac_proof(token@, purpose@, client_nonce@, server_nonce@),
{
    let mut payload = chars_of(purpose);
    append_str(&mut payload, ":");
    append_str(&mut payload, client_nonce);
    append_str(&mut payload, ":");
    append_str(&mut payload, server_nonce);
    let payload_text = string_from(&payload);
    proof {
        reveal_strlit(":");
        lemma_utf8_len_bound(token@);
        lemma_utf8_len_bound(payload_text@);
    }
    let tag = hmac_sha256_sign(token.as_bytes(), payload_text.as_str().as_bytes());
    hex_encode(tag.as_slice())
}

/// The proof that the server knows the token: its HMAC of `server`, both nonces.
pub fn browser_ws_server_proof(token: &str, client_nonce: &str, server_nonce: &str) -> (res: String)
    requires
        proof_inputs_fit(token@, client_nonce@, server_nonce@),
    ensures
        res@ == hmac_proof(token@, "server"@, client_nonce@, server_nonce@),
{
    proof {
        reveal_strlit("server");
    }
    browser_ws_hmac_hex(token, "server", client_nonce, server_nonce)
}

/// The proof that the client knows the token: its HMAC of `client`, both nonces.
pub fn browser_ws_client_proof(token: &str, client_nonce: &str, server_nonce: &str) -> (res: String)
    requires
        proof_inputs_fit(token@, client_nonce@, server_nonce@),
    ensures
        res@ == hmac_proof(token@, "client"@, client_nonce@, server_nonce@),
{
    proof {
        reveal_strlit("client");
    }
    browser_ws_hmac_hex(token, "client", client_nonce, server_nonce)
}

/// Compares two strings byte by byte without stopping at the first difference: equal
/// exactly when they are.
pub fn browser_ws_constant_time_eq(expected: &str, actual: &str) -> (res: bool)
    ensures
        res == (expected@ == actual@),
{
    let a = expected.as_bytes();
    let b = actual.as_bytes();
    if a.len() != b.len() {
        return false;
    }
    let mut diff: u8 = 0;
    let mut i: usize = 0;
    while i < a.len()
        invariant
            a@.len() == b@.len(),
            i <= a@.len(),
            (diff == 0) == (forall|j: int| 0 <= j < i ==> a@[j] == b@[j]),
        decreases a@.len() - i,
    {
        let l = a[i];
        let r = b[i];
        assert(((diff | (l ^ r)) == 0) == (diff == 0 && l == r)) by (bit_vector);
        diff = diff | (l ^ r);
        i += 1;
    }
    proof {
        vstd::utf8::encode_utf8_decode_utf8(expected@);
        vstd::utf8::encode_utf8_decode_utf8(actual@);
        if diff == 0 {
            assert(a@ =~= b@);
        }
    }
    diff == 0
}

/// Whether a server's proof is the one the token gives for both nonces.
pub fn browser_ws_server_proof_matches(proof: &str, token: &str, client_nonce: &str, server_nonce: &str) -> (res:
    bool)
    requires
        proof_inputs_fit(token@, client_nonce@, server_nonce@),
    ensures
        res == (proof@ == hmac_proof(token@, "server"@, client_nonce@, server_nonce@)),
{
    let expected = browser_ws_server_proof(token, client_nonce, server_nonce);
    browser_ws_constant_time_eq(expected.as_str(), proof)
}

// ---------------------------------------------------------------------------
// Messages
// ---------------------------------------------------------------------------

/// The fields of a JSON message that the connection reads; a field is present when the
/// message holds it with a value of the expected kind.
#[derive(Debug)]
pub struct BrowserWsFrame {
    pub frame_type: Option<String>,
    pub client_nonce: Option<String>,
    pub server_nonce: Option<String>,
    pub client_proof: Option<String>,
    pub server_proof: Option<String>,
    pub message: Option<String>,
    pub ai_response: Option<String>,
    pub url: Option<String>,
    pub title: Option<String>,
    pub site_name: Option<String>,
    pub run_time: Option<u64>,
    pub think_time: Option<u64>,
    pub image_generated: Option<bool>,
    pub new_images: Option<u64>,
}

/// The `type` of a message: empty when it has none.
pub open spec fn type_of(f: BrowserWsFrame) -> Seq<char> {
    match f.frame_type {
        Some(t) => t@,
        None => seq![],
    }
}

fn type_chars(f: &BrowserWsFrame) -> (res: Vec<char>)
    ensures
        res@ == type_of(*f),
{
    match &f.frame_type {
        Some(t) => chars_of(t.as_str()),
        None => Vec::new(),
    }
}

/// Whether a client's proof message answers the challenge: it is a client proof that
/// names both nonces of the challenge and carries the proof that the token gives for them.
pub open spec fn client_proof_valid(f: BrowserWsFrame, token: Seq<char>, client_nonce: Seq<char>, server_nonce: Seq<char>) -> bool {
    &&& type_of(f) == "auth_client_proof"@
    &&& nonce_of(string_opt(f.client_nonce)) == Some(client_nonce)
    &&& nonce_of(string_opt(f.server_nonce)) == Some(server_nonce)
    &&& f.client_proof matches Some(p) && p@ == hmac_proof(token, "client"@, client_nonce, server_nonce)
}

/// Whether a client's proof message answers the challenge of `client_nonce` and
/// `server_nonce` under the token.
pub fn browser_ws_client_proof_matches(
    data: &BrowserWsFrame,
    token: &str,
    expected_client_nonce: &str,
    expected_server_nonce: &str,
) -> (res: bool)
    requires
        proof_inputs_fit(token@, expected_client_nonce@, expected_server_nonce@),
    ensures
        res == client_proof_valid(*data, token@, expected_client_nonce@, expected_server_nonce@),
{
    if !crate::text::chars_eq_str(&type_chars(data), "auth_client_proof") {
        return false;
    }
    let c = match &data.client_nonce {
        Some(v) => browser_ws_nonce_from_value(Some(v.as_str())),
        None => None,
    };
    match c {
        Some(v) => {
            if !crate::text::chars_eq_str(&chars_of(v.as_str()), expected_client_nonce) {
                return false;
            }
        },
        None => {
            return false;
        },
    }
    let s = match &data.server_nonce {
        Some(v) => browser_ws_nonce_from_value(Some(v.as_str())),
        None => None,
    };
    match s {
        Some(v) => {
            if !crate::text::chars_eq_str(&chars_of(v.as_str()), expected_server_nonce) {
                return false;
            }
        },
        None => {
            return false;
        },
    }
    let proof = match &data.client_proof {
        Some(p) => p,
        None => {
            return false;
        },
    };
    let expected = browser_ws_client_proof(token, expected_client_nonce, expected_server_nonce);
    browser_ws_constant_time_eq(expected.as_str(), proof.as_str())
}

/// A message sent to the browser extension.
#[derive(Debug)]
pub struct BrowserMessage {
    pub message_type: String,
    pub message: String,
    pub tab_id: Option<u32>,
}

/// The client's opening of the challenge: `{"type": "auth_client_hello", "clientNonce"}`.
#[derive(Debug)]
pub struct ClientHello {
    pub client_nonce: String,
}

/// The client's answer to the challenge:
/// `{"type": "auth_client_proof", "clientNonce", "serverNonce", "clientProof"}`.
#[derive(Debug)]
pub struct ClientProof {
    pub client_nonce: String,
    pub server_nonce: String,
    pub client_proof: String,
}

/// A message that the server writes on a connection.
#[derive(Debug)]
pub enum WsReply {
    /// `{"type": "auth_failed", "reason"}`
    AuthFailed(String),
    /// `{"type": "auth_server_hello", "clientNonce", "serverNonce", "serverProof"}`
    ServerHello { client_nonce: String, server_nonce: String, server_proof: String },
    /// `{"type": "auth_ok"}`
    AuthOk,
    /// `{"type": "auth_required"}`
    AuthRequired,
    /// `{"status": "ok"}`
    StatusOk,
    /// `{"type", "message", "tabId"}` of a message for the extension.
    Outgoing(BrowserMessage),
    /// A pong frame with the ping's data.
    Pong(Vec<u8>),
}

/// The client's opening of the challenge.
pub fn browser_ws_client_hello_message(client_nonce: &str) -> (res: ClientHello)
    ensures
        res.client_nonce@ == client_nonce@,
{
    ClientHello { client_nonce: string_from(&chars_of(client_nonce)) }
}

/// The server's challenge: both nonces and the server's proof.
pub fn browser_ws_server_hello_message(token: &str, client_nonce: &str, server_nonce: &str) -> (res:
    WsReply)
    requires
        proof_inputs_fit(token@, client_nonce@, server_nonce@),
    ensures
        res matches WsReply::ServerHello { client_nonce: c, server_nonce: s, server_proof: p } && c@
            == client_nonce@ && s@ == server_nonce@ && p@ == hmac_proof(
            token@,
            "server"@,
            client_nonce@,
            server_nonce@,
        ),
{
    WsReply::ServerHello {
        client_nonce: string_from(&chars_of(client_nonce)),
        server_nonce: string_from(&chars_of(server_nonce)),
        server_proof: browser_ws_server_proof(token, client_nonce, server_nonce),
    }
}

/// The client's answer: both nonces and the client's proof.
pub fn browser_ws_client_proof_message(token: &str, client_nonce: &str, server_nonce: &str) -> (res:
    ClientProof)
    requires
        proof_inputs_fit(token@, client_nonce@, server_nonce@),
    ensures
        res.client_nonce@ == client_nonce@,
        res.server_nonce@ == server_nonce@,
        res.client_proof@ == hmac_proof(token@, "client"@, client_nonce@, server_nonce@),
{
    ClientProof {
        client_nonce: string_from(&chars_of(client_nonce)),
        server_nonce: string_from(&chars_of(server_nonce)),
        client_proof: browser_ws_client_proof(token, client_nonce, server_nonce),
    }
}

/// A fresh nonce: a random UUID in simple form, 32 lowercase hexadecimal digits.
pub fn browser_ws_new_nonce() -> (res: String)
    ensures
        valid_nonce(res@),
        res@.len() == 32,
{
    let n = new_uuid_simple();
    assert forall|i: int| 0 <= i < n@.len() implies nonce_char(#[trigger] n@[i]) by {
        assert(is_lower_hex(n@[i]));
    }
    n
}

// ---------------------------------------------------------------------------
// One connection
// ---------------------------------------------------------------------------

/// What happened on a connection.
#[derive(Debug)]
pub enum WsEvent {
    /// A text frame: its message when it is JSON, nothing when it is not.
    Text(Option<BrowserWsFrame>),
    /// A ping frame with its data.
    Ping(Vec<u8>),
    /// A close frame.
    Close,
    /// Reading failed.
    Failed,
    /// The stream ended.
    Ended,
    /// A frame of another kind.
    OtherFrame,
    /// A message for the extension, from the channel of this connection.
    Outgoing(BrowserMessage),
}

/// An AI answer that the extension saw completed.
#[derive(Debug)]
pub struct AiCompletion {
    pub url: String,
    pub title: String,
    pub site_name: String,
    pub message_preview: String,
    pub run_time: Option<u32>,
    pub think_time: Option<u32>,
    pub image_generated: bool,
    pub new_images: Option<u32>,
}

/// What a message asks of the application besides the reply.
#[derive(Debug)]
pub enum WsEffect {
    NoEffect,
    /// Publish the completion to the application.
    EmitAiCompleted(AiCompletion),
    /// Forward the text to the extension's connection.
    ForwardToBrowser(String),
}

/// What the caller does after an event, in this order: make this connection the one that
/// messages for the extension go to, carry out the effect, write the reply (and close if
/// writing it fails and that is asked), and close when asked.
#[derive(Debug)]
pub struct WsStep {
    pub install_browser_sender: bool,
    pub effect: WsEffect,
    pub reply: Option<WsReply>,
    pub stop_if_reply_fails: bool,
    pub stop: bool,
}

/// The state of one connection.
pub struct WsConnection {
    pub token: String,
    pub authenticated: bool,
    pub is_browser_extension: bool,
    pub client_nonce: Option<String>,
    pub server_nonce: Option<String>,
}

/// A string field or a default.
pub open spec fn field_or(f: Option<String>, default: Seq<char>) -> Seq<char> {
    match f {
        Some(s) => s@,
        None => default,
    }
}

/// An integer field read as a `u32` (`as u32`, which keeps the low 32 bits).
pub open spec fn u32_field(f: Option<u64>) -> Option<u32> {
    match f {
        Some(v) => Some(v as u32),
        None => None,
    }
}

/// The completion that an `ai_completed` message describes.
pub open spec fn completion_of(c: AiCompletion, f: BrowserWsFrame) -> bool {
    &&& c.url@ == field_or(f.url, seq![])
    &&& c.title@ == field_or(f.title, seq![])
    &&& c.site_name@ == field_or(f.site_name, "Unknown"@)
    &&& c.message_preview@ == field_or(f.ai_response, seq![])
    &&& c.run_time == u32_field(f.run_time)
    &&& c.think_time == u32_field(f.think_time)
    &&& c.image_generated == match f.image_generated {
        Some(b) => b,
        None => false,
    }
    &&& c.new_images == u32_field(f.new_images)
}

/// Is the reply the refusal with `reason`, after which the connection closes?
pub open spec fn refuses(st: WsStep, reason: Seq<char>) -> bool {
    &&& st.reply matches Some(WsReply::AuthFailed(r)) && r@ == reason
    &&& st.stop
    &&& !st.install_browser_sender
    &&& st.effect is NoEffect
}

/// Is the step just the reply `r`, closing when writing it fails?
pub open spec fn answers(st: WsStep, r: WsReply) -> bool {
    &&& st.reply == Some(r)
    &&& st.stop_if_reply_fails
    &&& !st.stop
    &&& !st.install_browser_sender
    &&& st.effect is NoEffect
}

/// Is the step nothing at all?
pub open spec fn ignores(st: WsStep) -> bool {
    &&& st.reply is None
    &&& !st.stop
    &&& !st.install_browser_sender
    &&& st.effect is NoEffect
}

/// The challenge nonces and token of a connection stay as they were.
pub open spec fn same_challenge(a: WsConnection, b: WsConnection) -> bool {
    &&& b.token@ == a.token@
    &&& string_opt(b.client_nonce) == string_opt(a.client_nonce)
    &&& string_opt(b.server_nonce) == string_opt(a.server_nonce)
}

/// A message on a connection that has not authenticated yet: only the challenge is
/// answered, everything else is asked to authenticate first.
pub open spec fn unauthenticated_text(before: WsConnection, after: WsConnection, f: BrowserWsFrame, fresh: Seq<char>, st: WsStep) -> bool {
    &&& !after.is_browser_extension == !before.is_browser_extension
    &&& if type_of(f) == "auth_client_hello"@ {
        match nonce_of(string_opt(f.client_nonce)) {
            None => refuses(st, "invalid_client_nonce"@) && !after.authenticated && same_challenge(
                before,
                after,
            ),
            Some(c) => {
                &&& !after.authenticated
                &&& after.token@ == before.token@
                &&& string_opt(after.client_nonce) == Some(c)
                &&& string_opt(after.server_nonce) == Some(fresh)
                &&& st.reply matches Some(WsReply::ServerHello { client_nonce: rc, server_nonce: rs, server_proof: rp })
                    && rc@ == c && rs@ == fresh && rp@ == hmac_proof(before.token@, "server"@, c, fresh)
                &&& st.stop_if_reply_fails && !st.stop && !st.install_browser_sender && st.effect is NoEffect
            },
        }
    } else if type_of(f) == "auth_client_proof"@ {
        &&& same_challenge(before, after)
        &&& match (string_opt(before.client_nonce), string_opt(before.server_nonce)) {
            (Some(c), Some(s)) => if client_proof_valid(f, before.token@, c, s) {
                after.authenticated && answers(st, WsReply::AuthOk)
            } else {
                !after.authenticated && refuses(st, "invalid_client_proof"@)
            },
            _ => !after.authenticated && refuses(st, "missing_challenge"@),
        }
    } else {
        !after.authenticated && same_challenge(before, after) && answers(st, WsReply::AuthRequired)
    }
}

/// A message on an authenticated connection: heartbeats and completions mark the
/// connection as the extension's and make it the one messages for the extension go to;
/// completions are published, relay requests forwarded; every message is acknowledged.
pub open spec fn authenticated_text(before: WsConnection, after: WsConnection, f: BrowserWsFrame, st: WsStep) -> bool {
    let t = type_of(f);
    let marks = t == "ai_completed"@ || t == "ping"@;
    &&& after.authenticated
    &&& same_challenge(before, after)
    &&& after.is_browser_extension == (before.is_browser_extension || marks)
    &&& st.install_browser_sender == marks
    &&& st.reply == Some(WsReply::StatusOk)
    &&& st.stop_if_reply_fails
    &&& !st.stop
    &&& if t == "ai_completed"@ {
        st.effect matches WsEffect::EmitAiCompleted(c) && completion_of(c, f)
    } else if t == "send_message"@ {
        match f.message {
            Some(m) => st.effect matches WsEffect::ForwardToBrowser(x) && x@ == m@,
            None => st.effect is NoEffect,
        }
    } else {
        st.effect is NoEffect
    }
}

/// One step of a connection: from `before`, given an event (and a fresh nonce for a
/// challenge), to `after` and what the caller does.
pub open spec fn connection_step(before: WsConnection, after: WsConnection, e: WsEvent, fresh: Seq<char>, st: WsStep) -> bool {
    match e {
        WsEvent::Text(None) => {
            &&& after.authenticated == before.authenticated
            &&& after.is_browser_extension == before.is_browser_extension
            &&& same_challenge(before, after)
            &&& answers(st, WsReply::StatusOk)
        },
        WsEvent::Text(Some(f)) => if before.authenticated {
            authenticated_text(before, after, f, st)
        } else {
            unauthenticated_text(before, after, f, fresh, st)
        },
        WsEvent::Ping(d) => {
            &&& after.authenticated == before.authenticated
            &&& after.is_browser_extension == before.is_browser_extension
            &&& same_challenge(before, after)
            &&& st.reply matches Some(WsReply::Pong(p)) && p@ == d@
            &&& !st.stop_if_reply_fails && !st.stop && !st.install_browser_sender && st.effect is NoEffect
        },
        WsEvent::Outgoing(m) => {
            &&& after.authenticated == before.authenticated
            &&& after.is_browser_extension == before.is_browser_extension
            &&& same_challenge(before, after)
            &&& if before.authenticated {
                &&& st.reply matches Some(WsReply::Outgoing(o)) && o.message_type@ == m.message_type@
                    && o.message@ == m.message@ && o.tab_id == m.tab_id
                &&& st.stop_if_reply_fails && !st.stop && !st.install_browser_sender && st.effect is NoEffect
            } else {
                ignores(st)
            }
        },
        WsEvent::OtherFrame => {
            &&& after.authenticated == before.authenticated
            &&& after.is_browser_extension == before.is_browser_extension
            &&& same_challenge(before, after)
            &&& ignores(st)
        },
        _ => {
            &&& after.authenticated == before.authenticated
            &&& after.is_browser_extension == before.is_browser_extension
            &&& same_challenge(before, after)
            &&& st.reply is None && st.stop && !st.install_browser_sender && st.effect is NoEffect
        },
    }
}

/// A string field or a default.
fn field_or_default(f: &Option<String>, default: &str) -> (res: String)
    ensures
        res@ == field_or(*f, default@),
{
    match f {
        Some(s) => string_from(&chars_of(s.as_str())),
        None => string_from(&chars_of(default)),
    }
}

/// An integer field as a `u32`.
fn u32_of(f: Option<u64>) -> (res: Option<u32>)
    ensures
        res == u32_field(f),
{
    match f {
        Some(v) => Some(v as u32),
        None => None,
    }
}

/// The connection's state is one the machine can reach: the challenge nonces are valid
/// or fresh, and the token is small enough to sign with.
pub open spec fn connection_wf(c: WsConnection) -> bool {
    &&& c.token@.len() < 0x100_0000_0000_0000
    &&& c.client_nonce matches Some(n) ==> n@.len() < 0x100_0000_0000_0000
    &&& c.server_nonce matches Some(n) ==> n@.len() < 0x100_0000_0000_0000
}

fn step_result(reply: Option<WsReply>, stop_if_reply_fails: bool, stop: bool) -> (res: WsStep)
    ensures
        res.reply == reply,
        res.stop_if_reply_fails == stop_if_reply_fails,
        res.stop == stop,
        !res.install_browser_sender,
        res.effect is NoEffect,
{
    WsStep { install_browser_sender: false, effect: WsEffect::NoEffect, reply, stop_if_reply_fails, stop }
}

fn refusal(reason: &str) -> (res: WsStep)
    ensures
        refuses(res, reason@),
{
    step_result(Some(WsReply::AuthFailed(string_from(&chars_of(reason)))), false, true)
}

impl WsConnection {
    /// A connection that has not authenticated yet, checked against `token`.
    pub fn new(token: &str) -> (res: WsConnection)
        requires
            token@.len() < 0x100_0000_0000_0000,
        ensures
            connection_wf(res),
            res.token@ == token@,
            !res.authenticated,
            !res.is_browser_extension,
            res.client_nonce is None,
            res.server_nonce is None,
    {
        WsConnection {
            token: string_from(&chars_of(token)),
            authenticated: false,
            is_browser_extension: false,
            client_nonce: None,
            server_nonce: None,
        }
    }

    /// Handles one event; `fresh_nonce` is the server nonce of a challenge, should the
    /// event open one.
    pub fn step(&mut self, event: WsEvent, fresh_nonce: &str) -> (res: WsStep)
        requires
            connection_wf(*old(self)),
            fresh_nonce@.len() < 0x100_0000_0000_0000,
        ensures
            connection_wf(*final(self)),
            connection_step(*old(self), *final(self), event, fresh_nonce@, res),
            res.install_browser_sender ==> old(self).authenticated,
            !(res.effect is NoEffect) ==> old(self).authenticated,
            res.reply matches Some(WsReply::Outgoing(_)) ==> old(self).authenticated,
            old(self).authenticated ==> final(self).authenticated,
    {
        match event {
            WsEvent::Text(None) => step_result(Some(WsReply::StatusOk), true, false),
            WsEvent::Text(Some(f)) => {
                if self.authenticated {
                    self.authenticated_message(&f)
                } else {
                    self.unauthenticated_message(&f, fresh_nonce)
                }
            },
            WsEvent::Ping(d) => step_result(Some(WsReply::Pong(d)), false, false),
            WsEvent::Outgoing(m) => {
                if self.authenticated {
                    step_result(Some(WsReply::Outgoing(m)), true, false)
                } else {
                    step_result(None, false, false)
                }
            },
            WsEvent::OtherFrame => step_result(None, false, false),
            _ => step_result(None, false, true),
        }
    }

    fn unauthenticated_message(&mut self, f: &BrowserWsFrame, fresh_nonce: &str) -> (res: WsStep)
        requires
            connection_wf(*old(self)),
            !old(self).authenticated,
            fresh_nonce@.len() < 0x100_0000_0000_0000,
        ensures
            connection_wf(*final(self)),
            unauthenticated_text(*old(self), *final(self), *f, fresh_nonce@, res),
    {
        let t = type_chars(f);
        if crate::text::chars_eq_str(&t, "auth_client_hello") {
            let c = match &f.client_nonce {
                Some(v) => browser_ws_nonce_from_value(Some(v.as_str())),
                None => None,
            };
            match c {
                None => refusal("invalid_client_nonce"),
                Some(c) => {
                    let hello = browser_ws_server_hello_message(
                        self.token.as_str(),
                        c.as_str(),
                        fresh_nonce,
                    );
                    self.client_nonce = Some(c);
                    self.server_nonce = Some(string_from(&chars_of(fresh_nonce)));
                    step_result(Some(hello), true, false)
                },
            }
        } else if crate::text::chars_eq_str(&t, "auth_client_proof") {
            let c = match &self.client_nonce {
                Some(c) => c,
                None => {
                    return refusal("missing_challenge");
                },
            };
            let s = match &self.server_nonce {
                Some(s) => s,
                None => {
                    return refusal("missing_challenge");
                },
            };
            if !browser_ws_client_proof_matches(f, self.token.as_str(), c.as_str(), s.as_str()) {
                return refusal("invalid_client_proof");
            }
            self.authenticated = true;
            step_result(Some(WsReply::AuthOk), true, false)
        } else {
            step_result(Some(WsReply::AuthRequired), true, false)
        }
    }

    fn authenticated_message(&mut self, f: &BrowserWsFrame) -> (res: WsStep)
        requires
            old(self).authenticated,
        ensures
            final(self).token@ == old(self).token@,
            string_opt(final(self).client_nonce) == string_opt(old(self).client_nonce),
            string_opt(final(self).server_nonce) == string_opt(old(self).server_nonce),
            authenticated_text(*old(self), *final(self), *f, res),
    {
        proof {
            reveal_strlit("");
            assert(""@ =~= Seq::<char>::empty());
        }
        let t = type_chars(f);
        let is_completion = crate::text::chars_eq_str(&t, "ai_completed");
        let marks = is_completion || crate::text::chars_eq_str(&t, "ping");
        if marks {
            self.is_browser_extension = true;
        }
        let effect = if is_completion {
            WsEffect::EmitAiCompleted(
                AiCompletion {
                    url: field_or_default(&f.url, ""),
                    title: field_or_default(&f.title, ""),
                    site_name: field_or_default(&f.site_name, "Unknown"),
                    message_preview: field_or_default(&f.ai_response, ""),
                    run_time: u32_of(f.run_time),
                    think_time: u32_of(f.think_time),
                    image_generated: match f.image_generated {
                        Some(b) => b,
                        None => false,
                    },
                    new_images: u32_of(f.new_images),
                },
            )
        } else if crate::text::chars_eq_str(&t, "send_message") {
            match &f.message {
                Some(m) => WsEffect::ForwardToBrowser(string_from(&chars_of(m.as_str()))),
                None => WsEffect::NoEffect,
            }
        } else {
            WsEffect::NoEffect
        };
        WsStep {
            install_browser_sender: marks,
            effect,
            reply: Some(WsReply::StatusOk),
            stop_if_reply_fails: true,
            stop: false,
        }
    }

    /// Whether closing this connection must clear the channel to the extension: when it
    /// was the extension's.
    pub fn on_close(&self) -> (res: bool)
        ensures
            res == self.is_browser_extension,
    {
        self.is_browser_extension
    }
}

/// A connection authenticates only by answering its own challenge: the step that makes it
/// authenticated handles a client proof that is valid for the nonces of the challenge
/// the connection issued.
pub proof fn law_authentication_needs_the_challenge(
    before: WsConnection,
    after: WsConnection,
    e: WsEvent,
    fresh: Seq<char>,
    st: WsStep,
)
    requires
        connection_step(before, after, e, fresh, st),
        !before.authenticated,
        after.authenticated,
    ensures
        e matches WsEvent::Text(Some(f)) && before.client_nonce matches Some(c)
            && before.server_nonce matches Some(s) && client_proof_valid(f, before.token@, c@, s@),
{
    reveal_strlit("auth_client_hello");
    reveal_strlit("auth_client_proof");
}

// ---------------------------------------------------------------------------
// The client side
// ---------------------------------------------------------------------------

/// What a client read from the server while authenticating.
#[derive(Debug)]
pub enum ClientRead {
    /// The server closed the connection.
    Closed,
    /// Reading failed, with the error's text.
    ReadFailed(String),
    /// A frame that is not text.
    NotText,
    /// A text frame that is not JSON, with the parser's error.
    Unparsable(String),
    /// A JSON message.
    Message(BrowserWsFrame),
}

/// The errors of the first answer, before the challenge itself is checked.
pub open spec fn hello_read_error(r: ClientRead) -> Option<Seq<char>> {
    match r {
        ClientRead::Closed => Some("WebSocket 服务器在认证前关闭连接"@),
        ClientRead::ReadFailed(e) => Some("读取 WebSocket 认证响应失败: "@ + e@),
        ClientRead::NotText => Some("WebSocket 服务器返回了非文本认证响应"@),
        ClientRead::Unparsable(e) => Some("解析 WebSocket 认证响应失败: "@ + e@),
        ClientRead::Message(_) => None,
    }
}

/// What the client makes of the server's challenge: the server nonce when the challenge
/// names the client's nonce and the server proves it holds the token, else the error.
pub open spec fn server_hello_result(r: ClientRead, token: Seq<char>, client_nonce: Seq<char>) -> Result<Seq<char>, Seq<char>> {
    match hello_read_error(r) {
        Some(e) => Err(e),
        None => {
            let f = r->Message_0;
            if type_of(f) != "auth_server_hello"@ {
                Err("WebSocket 服务器未返回认证 challenge"@)
            } else if nonce_of(string_opt(f.client_nonce)) != Some(client_nonce) {
                Err("WebSocket 认证 challenge 的 clientNonce 不匹配"@)
            } else {
                match nonce_of(string_opt(f.server_nonce)) {
                    None => Err("WebSocket 认证 challenge 缺少 serverNonce"@),
                    Some(s) => if field_or(f.server_proof, seq![]) == hmac_proof(
                        token,
                        "server"@,
                        client_nonce,
                        s,
                    ) {
                        Ok(s)
                    } else {
                        Err("WebSocket 服务器身份认证失败"@)
                    },
                }
            }
        },
    }
}

fn error_text(prefix: &str, e: &String) -> (res: String)
    ensures
        res@ == prefix@ + e@,
{
    let mut m = chars_of(prefix);
    append_str(&mut m, e.as_str());
    string_from(&m)
}

fn text(s: &str) -> (res: String)
    ensures
        res@ == s@,
{
    string_from(&chars_of(s))
}

/// Checks the server's challenge on the client side; gives the server nonce to answer.
pub fn check_server_hello(read: &ClientRead, token: &str, client_nonce: &str) -> (res: Result<String, String>)
    requires
        token@.len() < 0x100_0000_0000_0000,
        client_nonce@.len() < 0x100_0000_0000_0000,
    ensures
        match server_hello_result(*read, token@, client_nonce@) {
            Ok(s) => (res matches Ok(r) && r@ == s),
            Err(e) => (res matches Err(m) && m@ == e),
        },
{
    proof {
        reveal_strlit("");
        assert(""@ =~= Seq::<char>::empty());
    }
    let f = match read {
        ClientRead::Closed => {
            return Err(text("WebSocket 服务器在认证前关闭连接"));
        },
        ClientRead::ReadFailed(e) => {
            return Err(error_text("读取 WebSocket 认证响应失败: ", e));
        },
        ClientRead::NotText => {
            return Err(text("WebSocket 服务器返回了非文本认证响应"));
        },
        ClientRead::Unparsable(e) => {
            return Err(error_text("解析 WebSocket 认证响应失败: ", e));
        },
        ClientRead::Message(f) => f,
    };
    if !crate::text::chars_eq_str(&type_chars(f), "auth_server_hello") {
        return Err(text("WebSocket 服务器未返回认证 challenge"));
    }
    let c = match &f.client_nonce {
        Some(v) => browser_ws_nonce_from_value(Some(v.as_str())),
        None => None,
    };
    let same = match &c {
        Some(v) => crate::text::chars_eq_str(&chars_of(v.as_str()), client_nonce),
        None => false,
    };
    if !same {
        return Err(text("WebSocket 认证 challenge 的 clientNonce 不匹配"));
    }
    let s = match &f.server_nonce {
        Some(v) => browser_ws_nonce_from_value(Some(v.as_str())),
        None => None,
    };
    let s = match s {
        Some(s) => s,
        None => {
            return Err(text("WebSocket 认证 challenge 缺少 serverNonce"));
        },
    };
    let proof = field_or_default(&f.server_proof, "");
    if !browser_ws_server_proof_matches(proof.as_str(), token, client_nonce, s.as_str()) {
        return Err(text("WebSocket 服务器身份认证失败"));
    }
    Ok(s)
}

/// What the client makes of the server's answer to its proof.
pub open spec fn auth_ok_result(r: ClientRead) -> Option<Seq<char>> {
    match r {
        ClientRead::Closed => Some("WebSocket 服务器在认证确认前关闭连接"@),
        ClientRead::ReadFailed(e) => Some("读取 WebSocket 认证确认失败: "@ + e@),
        ClientRead::NotText => Some("WebSocket 服务器返回了非文本认证确认"@),
        ClientRead::Unparsable(e) => Some("解析 WebSocket 认证确认失败: "@ + e@),
        ClientRead::Message(f) => if type_of(f) == "auth_ok"@ {
            None
        } else {
            Some("WebSocket 服务器拒绝认证"@)
        },
    }
}

/// Checks that the server accepted the client's proof.
pub fn check_auth_ok(read: &ClientRead) -> (res: Result<(), String>)
    ensures
        match auth_ok_result(*read) {
            None => res is Ok,
            Some(e) => (res matches Err(m) && m@ == e),
        },
{
    match read {
        ClientRead::Closed => Err(text("WebSocket 服务器在认证确认前关闭连接")),
        ClientRead::ReadFailed(e) => Err(error_text("读取 WebSocket 认证确认失败: ", e)),
        ClientRead::NotText => Err(text("WebSocket 服务器返回了非文本认证确认")),
        ClientRead::Unparsable(e) => Err(error_text("解析 WebSocket 认证确认失败: ", e)),
        ClientRead::Message(f) => {
            if crate::text::chars_eq_str(&type_chars(f), "auth_ok") {
                Ok(())
            } else {
                Err(text("WebSocket 服务器拒绝认证"))
            }
        },
    }
}

} // verus!

use ironclaw::channels::feishu::{
    default_api_base, extract_text_content, get_valid_token, handle_message_event,
    is_authenticated_webhook, obtain_tenant_token, on_http_request, on_start, pairing_text,
    read_api_reply, request_verification_token, resume_message_event, send_message, send_reply,
    token_obtained, FeishuConfig, FeishuEvent, FeishuEventHeader, FeishuIntake, FeishuMention,
    FeishuMessage, FeishuState, MessageReceiveEvent, TenantAccessTokenResponse, TextContent,
};
use ironclaw::channels::host::HttpReply;

fn parsed(text: &[u8]) -> serde_json::Value {
    serde_json::from_slice(text).unwrap()
}

fn event(text: &str) -> FeishuEvent {
    let v: serde_json::Value = serde_json::from_str(text).unwrap();
    let field = |v: &serde_json::Value, k: &str| v[k].as_str().map(|s| s.to_string());
    FeishuEvent {
        schema: field(&v, "schema"),
        header: v.get("header").map(|h| FeishuEventHeader {
            event_id: field(h, "event_id").unwrap(),
            event_type: field(h, "event_type").unwrap(),
            create_time: None,
            app_id: None,
            tenant_key: None,
            token: field(h, "token"),
        }),
        message: None,
        challenge: field(&v, "challenge"),
        token: field(&v, "token"),
        event_type: field(&v, "type"),
    }
}

#[test]
fn webhook_auth_requires_host_auth_or_matching_verification_token() {
    assert!(
        !is_authenticated_webhook(false, None, Some("token")),
        "requests without any configured verification mechanism must be rejected"
    );
    assert!(
        !is_authenticated_webhook(false, Some("expected"), None),
        "requests missing the Feishu token must be rejected when host auth did not pass"
    );
    assert!(
        !is_authenticated_webhook(false, Some("expected"), Some("wrong")),
        "requests with the wrong Feishu token must be rejected"
    );
    assert!(
        is_authenticated_webhook(false, Some("expected"), Some("expected")),
        "matching Feishu verification token should authenticate the request"
    );
    assert!(
        is_authenticated_webhook(true, None, None),
        "host-authenticated requests should still be accepted"
    );
    assert!(
        is_authenticated_webhook(true, Some("expected"), Some("wrong")),
        "host authentication should take precedence over body token checks"
    );
}

#[test]
fn tokens_of_equal_length_are_told_apart() {
    assert!(!is_authenticated_webhook(false, Some("expected"), Some("expecteD")));
    assert!(!is_authenticated_webhook(false, Some("expected"), Some("expected ")));
}

#[test]
fn request_verification_token_prefers_v2_header_token() {
    let event = event(
        r#"{
            "schema": "2.0",
            "header": {
                "event_id": "evt_123",
                "event_type": "im.message.receive_v1",
                "token": "header-token"
            },
            "event": {}
        }"#,
    );
    assert_eq!(request_verification_token(&event), Some("header-token"));
}

#[test]
fn request_verification_token_falls_back_to_top_level_token() {
    let event = event(
        r#"{
            "type": "url_verification",
            "challenge": "abc",
            "token": "top-level-token"
        }"#,
    );
    assert_eq!(request_verification_token(&event), Some("top-level-token"));
}

fn message(text: &str) -> MessageReceiveEvent {
    MessageReceiveEvent {
        open_id: Some("ou_1".to_string()),
        message: FeishuMessage {
            message_id: "om_1".to_string(),
            parent_id: Some("om_parent".to_string()),
            root_id: None,
            chat_id: "oc_1".to_string(),
            chat_type: Some("group".to_string()),
            message_type: "text".to_string(),
            content: Some(TextContent { text: text.to_string() }),
            mentions: None,
        },
    }
}

fn open_state() -> FeishuState {
    FeishuState {
        verification_token: Some("tok".to_string()),
        owner_id: Some(String::new()),
        allow_from: Some("[]".to_string()),
        dm_policy: Some("pairing".to_string()),
    }
}

#[test]
fn mentions_are_named_in_the_text() {
    let mut m = message(" @_user_1 ask @_user_2 ");
    m.message.mentions = Some(vec![
        FeishuMention { key: "@_user_1".into(), name: "Bot".into() },
        FeishuMention { key: "@_user_2".into(), name: "Ann".into() },
    ]);
    assert_eq!(extract_text_content(&m.message), "Bot ask Ann");
    m.message.message_type = "image".into();
    assert_eq!(extract_text_content(&m.message), "");
    let mut unread = message("");
    unread.message.content = None;
    assert_eq!(extract_text_content(&unread.message), "");
    assert_eq!(extract_text_content(&message("  ").message), "");
}

#[test]
fn group_messages_are_handed_on() {
    match handle_message_event(&message("hello"), &open_state()) {
        FeishuIntake::Emit(m) => {
            assert_eq!(m.user_id, "ou_1");
            assert_eq!(m.content, "hello");
            assert_eq!(m.thread_id, Some("om_parent".to_string()));
            assert_eq!(m.metadata.chat_type, "group");
        }
        other => panic!("{other:?}"),
    }
    assert_eq!(
        handle_message_event(&message("  "), &open_state()),
        FeishuIntake::Ignore
    );
}

#[test]
fn only_listed_users_are_let_through() {
    let mut s = open_state();
    s.allow_from = Some(r#"["ou_2"]"#.to_string());
    assert_eq!(handle_message_event(&message("x"), &s), FeishuIntake::Ignore);
    let mut owned = open_state();
    owned.owner_id = Some("ou_9".to_string());
    assert_eq!(handle_message_event(&message("x"), &owned), FeishuIntake::Ignore);
}

#[test]
fn direct_messages_need_pairing() {
    let mut m = message("x");
    m.message.chat_type = Some("p2p".to_string());
    assert_eq!(
        handle_message_event(&m, &open_state()),
        FeishuIntake::Resolve("ou_1".to_string())
    );
    match resume_message_event(&m, Ok(Some("owner".to_string()))) {
        FeishuIntake::Emit(e) => assert_eq!(e.user_id, "owner"),
        other => panic!("{other:?}"),
    }
    assert_eq!(
        resume_message_event(&m, Ok(None)),
        FeishuIntake::Pair {
            sender_id: "ou_1".to_string(),
            meta: r#"{"chat_id":"oc_1","chat_type":"p2p","sender_id":"ou_1"}"#.to_string(),
        }
    );
    assert_eq!(resume_message_event(&m, Err("down".to_string())), FeishuIntake::Ignore);
    assert_eq!(
        pairing_text("C1"),
        "Enter this code in IronClaw to pair your feishu account: `C1`. \
         CLI fallback: `ironclaw pairing approve feishu C1`"
    );
}

#[test]
fn requests_are_answered() {
    let s = open_state();
    let (bad, _) = on_http_request(&vec![0xc3, 0x28], None, true, &s);
    assert_eq!(bad.status, 400);
    let (unread, _) = on_http_request(&b"{".to_vec(), None, true, &s);
    assert_eq!((unread.status, unread.body), (200, b"{}".to_vec()));
    let challenge = event(r#"{"type": "url_verification", "challenge": "abc", "token": "no"}"#);
    let (refused, intake) = on_http_request(&b"{}".to_vec(), Some(&challenge), false, &s);
    assert_eq!(refused.status, 401);
    assert_eq!(intake, FeishuIntake::Ignore);
    let (verified, _) = on_http_request(&b"{}".to_vec(), Some(&challenge), true, &s);
    assert_eq!(parsed(&verified.body)["challenge"], "abc");
    let mut received = event(
        r#"{"header": {"event_id": "e", "event_type": "im.message.receive_v1", "token": "tok"}}"#,
    );
    received.message = Some(message("hello"));
    let (done, intake) = on_http_request(&b"{}".to_vec(), Some(&received), false, &s);
    assert_eq!((done.status, done.body), (200, b"{}".to_vec()));
    assert!(matches!(intake, FeishuIntake::Emit(_)));
}

#[test]
fn replies_carry_the_token() {
    let call = send_reply("https://x", "t", "om_1", "say \"hi\"");
    assert_eq!(call.url, "https://x/open-apis/im/v1/messages/om_1/reply");
    assert_eq!(parsed(call.headers_json.as_bytes())["Authorization"], "Bearer t");
    let body = parsed(&call.body.unwrap());
    assert_eq!(body["msg_type"], "text");
    assert_eq!(parsed(body["content"].as_str().unwrap().as_bytes())["text"], "say \"hi\"");
    let sent = send_message("https://x", "t", "ou_1", "open_id", "hi");
    assert_eq!(sent.url, "https://x/open-apis/im/v1/messages?receive_id_type=open_id");
    assert_eq!(
        sent.body.unwrap(),
        br#"{"receive_id":"ou_1","msg_type":"text","content":"{\"text\":\"hi\"}"}"#.to_vec()
    );
}

fn ok() -> Result<HttpReply, String> {
    Ok(HttpReply { status: 200, body: b"{}".to_vec() })
}

#[test]
fn answers_of_the_api_are_checked() {
    assert_eq!(read_api_reply(ok(), None), Ok(()));
    assert_eq!(read_api_reply(ok(), Some((0, "ok".into()))), Ok(()));
    assert_eq!(
        read_api_reply(ok(), Some((-3, "no".into()))),
        Err("Feishu API error -3: no".to_string())
    );
    assert_eq!(
        read_api_reply(Ok(HttpReply { status: 500, body: b"oops".to_vec() }), None),
        Err("Feishu API returned 500: oops".to_string())
    );
    assert_eq!(
        read_api_reply(Err("down".into()), None),
        Err("HTTP request failed: down".to_string())
    );
}

#[test]
fn tokens_are_renewed_in_time() {
    let kept = |now: u64| get_valid_token(Some("t"), Some("1000000"), now);
    assert_eq!(kept(699_999), Some("t".to_string()));
    assert_eq!(kept(700_000), None);
    assert_eq!(get_valid_token(Some(""), Some("1000000"), 0), None);
    assert_eq!(get_valid_token(Some("t"), Some("soon"), 0), None);
    assert_eq!(get_valid_token(None, None, 0), None);
}

fn granted(code: i32, token: &str, expire: i64) -> Result<TenantAccessTokenResponse, String> {
    Ok(TenantAccessTokenResponse {
        code,
        msg: "m".to_string(),
        tenant_access_token: token.to_string(),
        expire,
    })
}

#[test]
fn tokens_are_obtained() {
    let call = obtain_tenant_token("https://x", Some("id"), Some("s")).unwrap();
    assert_eq!(call.url, "https://x/open-apis/auth/v3/tenant_access_token/internal");
    assert_eq!(call.body.unwrap(), br#"{"app_id":"id","app_secret":"s"}"#.to_vec());
    assert_eq!(
        obtain_tenant_token("https://x", Some(""), Some("s")),
        Err("app_id not configured (missing from workspace)".to_string())
    );
    assert_eq!(
        obtain_tenant_token("https://x", Some("id"), None),
        Err("app_secret not configured (missing from workspace)".to_string())
    );
    let grant = token_obtained(ok(), granted(0, "t-abc123", 7200), 1_000).unwrap();
    assert_eq!(grant.token, "t-abc123");
    assert_eq!(grant.writes[0].value, "t-abc123");
    assert_eq!(grant.writes[1].value, "7201000");
    let far = token_obtained(ok(), granted(0, "t", i64::MAX), 1_000).unwrap();
    assert_eq!(far.writes[1].value, u64::MAX.to_string());
    let failed = |answer| token_obtained(ok(), answer, 0).unwrap_err();
    assert_eq!(failed(granted(10003, "", 0)), "Token exchange error 10003: m");
    assert_eq!(failed(granted(0, "", 1)), "Token response missing tenant_access_token");
    assert_eq!(failed(granted(0, "t", -1)), "Token response has invalid expire value: -1");
    assert_eq!(failed(Err("eof".into())), "Failed to parse token response: eof");
    assert_eq!(
        token_obtained(Err("down".into()), Err("".into()), 0).unwrap_err(),
        "Token exchange request failed: down"
    );
    assert_eq!(
        token_obtained(Ok(HttpReply { status: 403, body: vec![] }), Err("".into()), 0).unwrap_err(),
        "Token exchange returned 403: "
    );
}

#[test]
fn channel_starts_with_its_credentials_kept() {
    assert_eq!(default_api_base(), "https://open.feishu.cn");
    let start = on_start(&FeishuConfig {
        app_id: Some("id".into()),
        app_secret: Some("s".into()),
        verification_token: None,
        api_base: "https://open.larksuite.com//".into(),
        owner_id: None,
        dm_policy: None,
        allow_from: None,
    });
    assert!(start.has_credentials);
    let kept: Vec<(&str, &str)> =
        start.writes.iter().map(|w| (w.path.as_str(), w.value.as_str())).collect();
    assert_eq!(
        kept,
        vec![
            ("api_base", "https://open.larksuite.com"),
            ("app_id", "id"),
            ("app_secret", "s"),
            ("owner_id", ""),
            ("dm_policy", "pairing"),
            ("allow_from", "[]"),
        ]
    );
    assert!(!start.config.http_endpoints[0].require_secret);
}

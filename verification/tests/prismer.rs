use ironclaw::channels::host::HttpReply;
use ironclaw::channels::prismer::{
    answered, attempt_re_register, begin_poll, cursor_key, default_agent_type, default_base_url,
    default_capabilities, default_description, default_display_name, default_dm_policy,
    default_poll_interval, ensure_jwt, fetch_messages, jwt_validated, kept_jwt, listed,
    on_http_request, on_respond, on_start, poll_conversation, read_config, registered, reply_answered, IMConversation,
    IMMessage, JwtStep, PollStep, PrismerConfig, RegisterData, RegisterResult, ReplyStep,
    WebhookConversation, WebhookMessage, WebhookPayload, WebhookSender,
};

fn parsed(text: &[u8]) -> serde_json::Value {
    serde_json::from_slice(text).unwrap()
}

fn reply(status: u16, body: &str) -> Result<HttpReply, String> {
    Ok(HttpReply { status, body: body.as_bytes().to_vec() })
}

fn config() -> PrismerConfig {
    read_config(None)
}

#[test]
fn test_skip_self_message() {
    let my_id = "iu_bot";
    let sender_id = "iu_bot";
    assert_eq!(my_id, sender_id, "Self-messages should be skipped");
    let (response, message) = on_http_request(true, Ok(payload(sender_id, "hello")), Some(my_id));
    assert_eq!(response.status, 200);
    assert_eq!(parsed(&response.body)["skipped"], "self");
    assert_eq!(message, None);
}

#[test]
fn defaults_are_those_of_the_network() {
    let c = config();
    assert_eq!(c.base_url, "https://prismer.cloud");
    assert_eq!(c.display_name, "IronClaw Agent");
    assert_eq!(c.agent_type, "assistant");
    assert_eq!(c.capabilities, vec!["chat", "code", "memory", "tools"]);
    assert!(c.agent_name.is_none());
    assert!(c.tunnel_url.is_none());
    assert!(!c.polling_enabled);
    assert_eq!(c.poll_interval_ms, 30000);
    assert_eq!(default_base_url(), c.base_url);
    assert_eq!(default_display_name(), c.display_name);
    assert_eq!(default_agent_type(), c.agent_type);
    assert_eq!(default_capabilities(), c.capabilities);
    assert_eq!(default_description(), c.description);
    assert_eq!(default_poll_interval(), c.poll_interval_ms);
    assert_eq!(default_dm_policy(), c.dm_policy);
}

#[test]
fn test_build_send_payload() {
    let call = on_respond(Some("jwt"), &config(), "conv", "Hello **world**").unwrap();
    assert_eq!(call.url, "https://prismer.cloud/api/im/messages/conv");
    let body = parsed(&call.body.unwrap());
    let obj = body.as_object().unwrap();
    assert_eq!(obj.get("content").unwrap(), "Hello **world**");
    assert_eq!(obj.get("type").unwrap(), "markdown");
    assert_eq!(
        on_respond(Some(""), &config(), "conv", "x"),
        Err("No JWT token available".to_string())
    );
}

fn payload(sender: &str, content: &str) -> WebhookPayload {
    WebhookPayload {
        source: "prismer_im".into(),
        event: "message.new".into(),
        timestamp: Some(1741334400),
        message: WebhookMessage {
            id: "msg_001".into(),
            msg_type: "text".into(),
            content: content.into(),
            sender_id: sender.into(),
            conversation_id: "conv_abc".into(),
            parent_id: None,
            created_at: None,
        },
        sender: WebhookSender {
            id: sender.into(),
            username: "william".into(),
            display_name: "William".into(),
            role: "human".into(),
        },
        conversation: WebhookConversation {
            id: "conv_abc".into(),
            conv_type: "direct".into(),
            title: None,
        },
    }
}

#[test]
fn webhooks_are_answered() {
    let (unsigned, m) = on_http_request(false, Ok(payload("u", "hi")), None);
    assert_eq!((unsigned.status, m), (401, None));
    let (unread, _) = on_http_request(true, Err("missing field".into()), None);
    assert_eq!(unread.status, 400);
    assert_eq!(parsed(&unread.body)["error"], "missing field");
    let mut other = payload("u", "hi");
    other.source = "other_system".into();
    let (refused, _) = on_http_request(true, Ok(other), None);
    assert_eq!(parsed(&refused.body)["error"], "Unknown source");
    let mut edited = payload("u", "hi");
    edited.event = "message.edited".into();
    let (ignored, m) = on_http_request(true, Ok(edited), None);
    assert_eq!((ignored.status, m), (200, None));
    let (empty, m) = on_http_request(true, Ok(payload("u", "  ")), None);
    assert_eq!(parsed(&empty.body)["skipped"], "empty");
    assert_eq!(m, None);
    let (done, m) = on_http_request(true, Ok(payload("u", " hi ")), Some("me"));
    assert_eq!(done.headers_json, r#"{"Content-Type":"application/json"}"#);
    let m = m.unwrap();
    assert_eq!(m.user_id, "u");
    assert_eq!(m.user_name, Some("William".to_string()));
    assert_eq!(m.content, "hi");
    assert_eq!(m.thread_id, Some("conv_abc".to_string()));
    assert_eq!(m.metadata.message_id, "msg_001");
}

#[test]
fn agent_registers_with_the_key_of_the_host() {
    let call = attempt_re_register(None);
    assert_eq!(call.url, "https://prismer.cloud/api/im/register");
    assert_eq!(
        parsed(call.headers_json.as_bytes())["Authorization"],
        "Bearer {PRISMER_API_KEY}"
    );
    let body = parsed(&call.body.unwrap());
    assert_eq!(body["username"], "ironclaw");
    assert_eq!(body["type"], "agent");
    assert!(body["endpoint"].is_null());
    assert_eq!(body["capabilities"][3], "tools");
}

#[test]
fn registration_is_kept() {
    let data = || RegisterData {
        im_user_id: "iu_xxx".into(),
        token: "jwt_abc".into(),
        expires_in: Some("24h".into()),
    };
    let answer = |ok, data| Ok(RegisterResult { ok, error: "None".into(), data });
    let r = registered(reply(200, ""), answer(true, Some(Ok(data())))).unwrap();
    assert_eq!(r.token, "jwt_abc");
    assert_eq!(r.writes[0].path, "jwt");
    assert_eq!(r.writes[1].value, "iu_xxx");
    let failed = |x, a| registered(x, a).unwrap_err();
    assert_eq!(
        failed(reply(500, "oops"), answer(true, None)),
        "Register failed (HTTP 500): oops"
    );
    assert_eq!(failed(reply(200, ""), answer(false, None)), "Register returned ok=false: None");
    assert_eq!(failed(reply(200, ""), answer(true, None)), "Register response missing data");
    assert_eq!(
        failed(reply(200, ""), answer(true, Some(Err("bad".into())))),
        "Failed to parse register data: bad"
    );
    assert_eq!(
        failed(reply(200, ""), Err("eof".into())),
        "Failed to parse register response: eof"
    );
    assert_eq!(failed(Err("down".into()), answer(true, None)), "HTTP request failed: down");
}

#[test]
fn kept_token_is_tried_first() {
    match ensure_jwt(Some("old"), &config()) {
        JwtStep::Validate(call) => assert_eq!(call.url, "https://prismer.cloud/api/im/me"),
        other => panic!("{other:?}"),
    }
    assert!(matches!(ensure_jwt(Some(""), &config()), JwtStep::Register(_)));
    assert_eq!(
        jwt_validated("old", reply(200, ""), &config()),
        Ok(JwtStep::Keep("old".to_string()))
    );
    assert!(matches!(
        jwt_validated("old", reply(401, ""), &config()),
        Ok(JwtStep::Register(_))
    ));
    assert!(jwt_validated("old", Err("down".into()), &config()).is_err());
}

#[test]
fn webhook_mode_needs_a_tunnel() {
    let polled = on_start(&config(), false);
    assert_eq!(polled.config.poll.unwrap().interval_ms, 30000);
    assert!(polled.writes.is_empty());
    let mut c = config();
    c.tunnel_url = Some("https://abc.ngrok.io".into());
    let hooked = on_start(&c, true);
    assert_eq!(hooked.config.poll, None);
    assert!(hooked.config.http_endpoints[0].require_secret);
    assert_eq!(hooked.writes[0].value, "https://abc.ngrok.io/webhook/prismer");
}

fn conversation(unread: Option<i32>) -> IMConversation {
    IMConversation {
        id: "conv".into(),
        conv_type: "direct".into(),
        title: None,
        unread_count: unread,
    }
}

fn im(id: &str, sender: &str, content: &str) -> IMMessage {
    IMMessage {
        id: id.into(),
        content: content.into(),
        msg_type: "text".into(),
        sender_id: sender.into(),
        created_at: None,
    }
}

#[test]
fn unread_messages_are_polled() {
    assert_eq!(begin_poll(None, &config()), None);
    assert_eq!(
        begin_poll(Some("jwt"), &config()).unwrap().url,
        "https://prismer.cloud/api/im/conversations?withUnread=true"
    );
    assert_eq!(fetch_messages(&conversation(Some(0)), "", &config(), "jwt"), None);
    assert_eq!(
        fetch_messages(&conversation(Some(2)), "7", &config(), "jwt").unwrap().url,
        "https://prismer.cloud/api/im/messages/conv?offset=7"
    );
    let messages = vec![im("1", "u", " hi "), im("2", "me", "mine"), im("3", "u", " ")];
    let poll =
        poll_conversation(&conversation(Some(3)), &messages, Some("me"), "7", &config(), "jwt");
    assert_eq!(poll.messages.len(), 1);
    assert_eq!(poll.messages[0].content, "hi");
    assert_eq!(poll.writes.len(), 1);
    assert_eq!(poll.writes[0].path, cursor_key("conv"));
    assert_eq!(poll.writes[0].value, "10");
    assert_eq!(poll.mark_read.url, "https://prismer.cloud/api/im/conversations/conv/read");
    let none = poll_conversation(&conversation(None), &vec![], None, "x", &config(), "jwt");
    assert!(none.writes.is_empty());
}

#[test]
fn refused_token_is_renewed_once() {
    assert_eq!(answered(Some(200), false), PollStep::Read);
    assert_eq!(answered(Some(401), false), PollStep::ReRegister);
    assert_eq!(answered(Some(401), true), PollStep::Stop);
    assert_eq!(answered(Some(500), false), PollStep::Stop);
    assert_eq!(answered(None, false), PollStep::Stop);
    assert_eq!(reply_answered(reply(201, ""), false), ReplyStep::Sent);
    assert_eq!(reply_answered(reply(401, ""), false), ReplyStep::ReRegister);
    assert_eq!(
        reply_answered(reply(401, "no"), true),
        ReplyStep::Failed("Send failed after re-register (HTTP 401): no".to_string())
    );
    assert_eq!(
        reply_answered(reply(500, "no"), false),
        ReplyStep::Failed("Send failed (HTTP 500): no".to_string())
    );
    assert_eq!(
        reply_answered(Err("down".into()), true),
        ReplyStep::Failed("HTTP request failed: down".to_string())
    );
}

#[test]
fn lists_are_taken_from_answers() {
    assert_eq!(listed(Ok(Some(Ok(vec![1u8, 2])))), Some(vec![1u8, 2]));
    assert_eq!(listed::<u8>(Ok(Some(Err("no list".to_string())))), Some(vec![]));
    assert_eq!(listed::<u8>(Ok(None)), None);
    assert_eq!(listed::<u8>(Err("no answer".to_string())), None);
}

#[test]
fn empty_tokens_are_none() {
    assert_eq!(kept_jwt(Some("t")), Some("t".to_string()));
    assert_eq!(kept_jwt(Some("")), None);
    assert_eq!(kept_jwt(None), None);
}

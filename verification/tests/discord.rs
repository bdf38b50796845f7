use std::cmp::Ordering;

use ironclaw::channels::discord::{
    build_discord_reply_plan, next_multipart_boundary, response_route_for_metadata,
    send_discord_request, truncate_message, typing_request_url_for_update, DiscordMessageMetadata,
    DiscordReplyPlan, DiscordResponseRoute, DISCORD_API_BASE, DISCORD_ATTACHMENT_NOTICE,
    DISCORD_MULTIPART_BOUNDARY,
};
use ironclaw::channels::discord_access::{
    check_sender_permission, default_poll_interval_ms, emit_gateway_message,
    gateway_content_for_agent, gateway_frames, has_gateway_events, on_start, pairing_reply_route,
    parse_gateway_event_queue, send_pairing_reply, should_apply_dm_pairing, DiscordConfig,
    DiscordGatewayAuthor, DiscordGatewayEvent, DiscordGatewayMessageCreate, GatewayPollResult,
    PairingReplyCtx, ParsedGatewayMessage, Permission, PermissionSource, PermissionState,
};
use ironclaw::channels::discord_interact::{
    broadcast_dm, discord_auth_headers_json, dm_channel_opened, fallback_result, on_http_request,
    on_respond, on_status, open_dm_channel, DiscordCommandData, DiscordCommandOption,
    DiscordInteraction, DiscordMember, DiscordUser, Intake,
};
use ironclaw::channels::discord_poll::{
    begin_channel_poll, bot_id_in_reply, compare_message_ids, cursor_path, dedup_ids_path,
    fetch_bot_id, fetch_latest_message_id, fetch_messages_after, is_new_message, keep_poll,
    kept_bot_id, latest_id_in_reply, message_mentions_bot, next_page, poll_channel_mentions,
    polling_enabled, remember_processed_id, strip_bot_mention, ChannelStep,
    DiscordChannelAuthor, DiscordChannelMessage, MentionPoll, DEDUP_CAP,
};
use ironclaw::channels::host::{succeeded, AgentResponse, HttpReply, StatusType};
use ironclaw::json::Json;

fn parsed(text: &[u8]) -> serde_json::Value {
    serde_json::from_slice(text).unwrap()
}

// ── replies ─────────────────────────────────────────────

#[test]
fn test_truncate_message() {
    let short = "Hello world";
    assert_eq!(truncate_message(short), short);

    let long = "a".repeat(2005);
    let truncated = truncate_message(&long);
    assert_eq!(truncated.chars().count(), 2000);
    assert!(truncated.ends_with("\n... (truncated)"));

    let multi = "€".repeat(2005);
    let truncated_multi = truncate_message(&multi);

    assert_eq!(truncated_multi.chars().count(), 2000);
    assert!(truncated_multi.ends_with("\n... (truncated)"));

    let content_part = &truncated_multi[..truncated_multi.len() - 16];
    assert!(content_part.chars().all(|c| c == '€'));
}

fn test_response(metadata_json: String, content: String) -> AgentResponse {
    AgentResponse {
        message_id: "msg-1".to_string(),
        content,
        thread_id: None,
        metadata_json,
    }
}

fn test_metadata_json() -> String {
    r#"{
        "channel_id": "chan-1",
        "interaction_id": "int-1",
        "token": "tok-1",
        "application_id": "app-1",
        "thread_id": null,
        "embeds": [{"title": "embed title"}]
    }"#
    .to_string()
}

fn plan(content: String, counter: u64) -> DiscordReplyPlan {
    build_discord_reply_plan(
        &test_response(test_metadata_json(), content),
        &next_multipart_boundary(1_700_000_000_000_000_000, counter),
    )
}

#[test]
fn test_reply_plan_uses_character_count_for_attachment_threshold() {
    assert!(matches!(plan("€".repeat(2000), 0), DiscordReplyPlan::Inline(_)));
}

#[test]
fn test_reply_plan_threshold_uses_attachment_only_above_2000_chars() {
    assert!(matches!(plan("a".repeat(2000), 0), DiscordReplyPlan::Inline(_)));
    assert!(matches!(plan("a".repeat(2001), 0), DiscordReplyPlan::Attachment { .. }));
}

#[test]
fn test_reply_plan_preserves_short_message_content_and_embeds() {
    let DiscordReplyPlan::Inline(request) = plan("short reply".to_string(), 0) else {
        panic!("expected inline plan");
    };
    assert_eq!(
        request.headers_json,
        r#"{"Content-Type":"application/json"}"#
    );
    let payload = parsed(&request.body);
    assert_eq!(payload["content"], "short reply");
    assert_eq!(payload["embeds"][0]["title"], "embed title");
}

#[test]
fn test_reply_plan_builds_markdown_attachment_multipart_payload() {
    let content = "# Heading\n\nA long markdown reply".repeat(80);
    let DiscordReplyPlan::Attachment { upload, .. } = plan(content.clone(), 0) else {
        panic!("expected attachment plan");
    };
    assert!(upload
        .headers_json
        .contains("multipart/form-data; boundary="));

    let body = String::from_utf8(upload.body).unwrap();
    assert!(body.contains("name=\"payload_json\""));
    assert!(body.contains("filename=\"response.md\""));
    assert!(body.contains("Content-Type: text/markdown"));
    assert!(body.contains(DISCORD_ATTACHMENT_NOTICE));
    assert!(body.contains("embed title"));
    assert!(body.contains(&content));
}

#[test]
fn test_reply_plan_uses_dynamic_multipart_boundary() {
    let content = "# Heading\n\nA long markdown reply".repeat(80);
    let DiscordReplyPlan::Attachment { upload: first_upload, .. } = plan(content.clone(), 0) else {
        panic!("expected attachment plan");
    };
    let DiscordReplyPlan::Attachment { upload: second_upload, .. } = plan(content, 1) else {
        panic!("expected attachment plan");
    };

    let first_headers = parsed(first_upload.headers_json.as_bytes());
    let second_headers = parsed(second_upload.headers_json.as_bytes());

    let first_boundary = first_headers["Content-Type"]
        .as_str()
        .unwrap()
        .strip_prefix("multipart/form-data; boundary=")
        .unwrap();
    let second_boundary = second_headers["Content-Type"]
        .as_str()
        .unwrap()
        .strip_prefix("multipart/form-data; boundary=")
        .unwrap();

    assert!(first_boundary.starts_with(DISCORD_MULTIPART_BOUNDARY));
    assert!(second_boundary.starts_with(DISCORD_MULTIPART_BOUNDARY));
    assert_ne!(first_boundary, second_boundary);

    let first_body = String::from_utf8(first_upload.body).unwrap();
    let second_body = String::from_utf8(second_upload.body).unwrap();
    assert!(first_body.contains(&format!("--{first_boundary}\r\n")));
    assert!(second_body.contains(&format!("--{second_boundary}\r\n")));
}

#[test]
fn boundaries_are_written_in_hexadecimal() {
    assert_eq!(
        next_multipart_boundary(255, 16),
        format!("{DISCORD_MULTIPART_BOUNDARY}-ff-10")
    );
}

#[test]
fn test_reply_plan_includes_truncated_text_fallback_for_attachment_failures() {
    let content = "a".repeat(2400);
    let DiscordReplyPlan::Attachment { fallback, .. } = plan(content.clone(), 0) else {
        panic!("expected attachment plan");
    };
    let payload = parsed(&fallback.body);
    assert_eq!(payload["content"], truncate_message(&content));
    assert_eq!(payload["embeds"][0]["title"], "embed title");
}

fn metadata(channel: &str, interaction: &str, token: &str, app: &str) -> DiscordMessageMetadata {
    DiscordMessageMetadata {
        channel_id: channel.into(),
        interaction_id: interaction.into(),
        token: token.into(),
        application_id: app.into(),
        source_message_id: None,
        thread_id: None,
    }
}

#[test]
fn test_response_route_uses_webhook_for_interactions() {
    let metadata = metadata("123", "456", "tok", "app");
    assert_eq!(
        response_route_for_metadata(&metadata),
        DiscordResponseRoute::InteractionWebhook(
            format!("{DISCORD_API_BASE}/webhooks/app/tok/messages/@original")
        )
    );
}

#[test]
fn test_response_route_uses_channel_messages_for_gateway_metadata() {
    let metadata = metadata("chan-1", "", "", "");
    assert_eq!(
        response_route_for_metadata(&metadata),
        DiscordResponseRoute::ChannelMessage(
            format!("{DISCORD_API_BASE}/channels/chan-1/messages")
        )
    );
}

#[test]
fn test_typing_request_url_uses_channel_id_for_thinking_status() {
    let metadata = metadata("chan-42", "", "", "");
    assert_eq!(
        typing_request_url_for_update(StatusType::Thinking, Some(&metadata)),
        Some(format!("{DISCORD_API_BASE}/channels/chan-42/typing"))
    );
    let call = on_status(StatusType::Thinking, Some(&metadata)).unwrap();
    assert_eq!(call.method, "POST");
    assert_eq!(call.url, format!("{DISCORD_API_BASE}/channels/chan-42/typing"));
}

#[test]
fn test_typing_request_url_ignores_non_thinking_status() {
    let metadata = metadata("chan-42", "", "", "");
    assert_eq!(typing_request_url_for_update(StatusType::Done, Some(&metadata)), None);
}

#[test]
fn test_typing_request_url_ignores_invalid_metadata() {
    assert_eq!(typing_request_url_for_update(StatusType::Thinking, None), None);
}

#[test]
fn replies_go_by_their_route() {
    let response = test_response(test_metadata_json(), "hi".to_string());
    let webhook = on_respond(&metadata("c", "i", "tok", "app"), &response, "b");
    assert_eq!(webhook.method, "PATCH");
    let message = on_respond(&metadata("c", "", "", ""), &response, "b");
    assert_eq!(message.method, "POST");
    assert_eq!(message.url, format!("{DISCORD_API_BASE}/channels/c/messages"));
}

#[test]
fn failed_replies_are_told() {
    assert_eq!(send_discord_request(Ok(HttpReply { status: 204, body: vec![] })), Ok(()));
    let failed =
        send_discord_request(Ok(HttpReply { status: 500, body: vec![b'n', 0xff] })).unwrap_err();
    assert!(failed.contains("500"), "{failed}");
    assert!(failed.contains("n\u{fffd}"), "{failed}");
    assert!(send_discord_request(Err("down".to_string())).unwrap_err().contains("down"));
    assert_eq!(fallback_result("first", Ok(())), Ok(()));
    let both = fallback_result("first", Err("second".to_string())).unwrap_err();
    assert!(both.contains("first") && both.contains("second"), "{both}");
}

// ── the gateway ─────────────────────────────────────────

fn author(v: &serde_json::Value) -> DiscordGatewayAuthor {
    DiscordGatewayAuthor {
        id: v["id"].as_str().unwrap().to_string(),
        username: v["username"].as_str().unwrap().to_string(),
        global_name: v["global_name"].as_str().map(|s| s.to_string()),
        bot: v["bot"].as_bool().unwrap_or(false),
    }
}

fn events(queue_json: &str) -> Vec<DiscordGatewayEvent> {
    gateway_frames(queue_json)
        .unwrap()
        .iter()
        .map(|frame| {
            let v: serde_json::Value = serde_json::from_str(frame).unwrap();
            let d = &v["d"];
            DiscordGatewayEvent {
                op: v["op"].as_u64().unwrap(),
                t: v["t"].as_str().map(|s| s.to_string()),
                ready: d.get("user").map(author),
                message: d.get("author").map(|a| DiscordGatewayMessageCreate {
                    channel_id: d["channel_id"].as_str().unwrap().to_string(),
                    guild_id: d["guild_id"].as_str().map(|s| s.to_string()),
                    content: d["content"].as_str().unwrap().to_string(),
                    author: author(a),
                }),
            }
        })
        .collect()
}

fn queue(frames: &[&str]) -> String {
    let frames: Vec<serde_json::Value> =
        frames.iter().map(|f| serde_json::Value::String(f.to_string())).collect();
    serde_json::Value::Array(frames).to_string()
}

fn parse_queue(queue_json: &str, known: Option<&str>) -> GatewayPollResult {
    parse_gateway_event_queue(Some(&events(queue_json)), known)
}

#[test]
fn test_parse_gateway_event_queue_emits_message_create_after_ready() {
    let queue_json = queue(&[
        r#"{"op": 0, "t": "READY", "d": {"user": {
            "id": "bot-1", "username": "ironclaw", "global_name": "IronClaw", "bot": true}}}"#,
        r#"{"op": 0, "t": "MESSAGE_CREATE", "d": {
            "channel_id": "chan-1",
            "guild_id": "guild-1",
            "content": "<@bot-1> hello from discord",
            "author": {
                "id": "user-1", "username": "alice", "global_name": "Alice", "bot": false}}}"#,
    ]);
    let result = parse_queue(&queue_json, None);
    assert_eq!(result.bot_user_id.as_deref(), Some("bot-1"));
    assert_eq!(
        result.messages,
        vec![ParsedGatewayMessage {
            user_id: "user-1".to_string(),
            user_name: "Alice".to_string(),
            channel_id: "chan-1".to_string(),
            content: "hello from discord".to_string(),
            is_dm: false,
        }]
    );
}

#[test]
fn test_parse_gateway_event_queue_ignores_bot_and_unmentioned_guild_messages() {
    let queue_json = queue(&[
        r#"{"op": 0, "t": "MESSAGE_CREATE", "d": {
            "channel_id": "chan-1",
            "guild_id": "guild-1",
            "content": "this should not trigger",
            "author": {
                "id": "user-1", "username": "alice", "global_name": "Alice", "bot": false}}}"#,
        r#"{"op": 0, "t": "MESSAGE_CREATE", "d": {
            "channel_id": "dm-1",
            "content": "bot echo",
            "author": {
                "id": "bot-1", "username": "ironclaw", "global_name": "IronClaw", "bot": true}}}"#,
        r#"{"op": 0, "t": "MESSAGE_CREATE", "d": {
            "channel_id": "dm-2",
            "content": "direct message",
            "author": {
                "id": "user-2", "username": "bob", "global_name": null, "bot": false}}}"#,
    ]);
    let result = parse_queue(&queue_json, Some("bot-1"));
    assert_eq!(result.bot_user_id.as_deref(), Some("bot-1"));
    assert_eq!(
        result.messages,
        vec![ParsedGatewayMessage {
            user_id: "user-2".to_string(),
            user_name: "bob".to_string(),
            channel_id: "dm-2".to_string(),
            content: "direct message".to_string(),
            is_dm: true,
        }]
    );
}

#[test]
fn queues_are_told_apart_from_nothing() {
    assert!(!has_gateway_events("[]"));
    assert!(has_gateway_events(r#"["x"]"#));
    assert_eq!(gateway_frames("no json"), None);
    assert_eq!(gateway_frames(r#"["a", 1]"#), None);
    assert_eq!(gateway_frames("[]"), Some(vec![]));
    assert_eq!(gateway_frames(r#"["a", "b"]"#), Some(vec!["a".to_string(), "b".to_string()]));
}

#[test]
fn an_unreadable_queue_names_no_bot() {
    let unread = parse_gateway_event_queue(None, Some("7"));
    assert_eq!(unread.bot_user_id, None);
    assert!(unread.messages.is_empty());
    let empty = parse_gateway_event_queue(Some(&vec![]), Some("7"));
    assert_eq!(empty.bot_user_id, Some("7".to_string()));
    assert!(empty.messages.is_empty());
}

#[test]
fn servers_must_mention_the_bot() {
    assert_eq!(
        gateway_content_for_agent("<@!7> do it", Some("7"), false),
        Some("do it".to_string())
    );
    assert_eq!(gateway_content_for_agent("do it", Some("7"), false), None);
    assert_eq!(gateway_content_for_agent("  do it ", Some("7"), true), Some("do it".to_string()));
    assert_eq!(gateway_content_for_agent("   ", None, true), None);
}

#[test]
fn gateway_messages_are_handed_on() {
    let m = emit_gateway_message(ParsedGatewayMessage {
        user_id: "u".into(),
        user_name: "U".into(),
        channel_id: "c".into(),
        content: "hi".into(),
        is_dm: true,
    });
    assert_eq!(m.user_id, "u");
    assert_eq!(m.user_name, Some("U".to_string()));
    assert_eq!(m.content, "hi");
    assert_eq!(m.metadata.channel_id, "c");
    assert_eq!(m.metadata.token, "");
}

// ── who may talk to the bot ─────────────────────────────

#[test]
fn test_non_gateway_dm_pairing_behavior_is_unchanged() {
    assert!(should_apply_dm_pairing(PermissionSource::Webhook, true));
    assert!(!should_apply_dm_pairing(PermissionSource::Webhook, false));
}

#[test]
fn test_gateway_dm_pairing_behavior_matches_webhook_dm() {
    assert!(should_apply_dm_pairing(PermissionSource::Gateway, true));
    assert!(!should_apply_dm_pairing(PermissionSource::Gateway, false));
}

#[test]
fn test_pairing_reply_route_uses_channel_messages_for_gateway_metadata() {
    let route = pairing_reply_route(&PairingReplyCtx {
        channel_id: "chan-1".to_string(),
        application_id: String::new(),
        token: String::new(),
    });
    assert_eq!(
        route,
        DiscordResponseRoute::ChannelMessage(
            format!("{DISCORD_API_BASE}/channels/chan-1/messages")
        )
    );
}

#[test]
fn test_pairing_reply_route_uses_webhook_for_interactions() {
    let route = pairing_reply_route(&PairingReplyCtx {
        channel_id: "chan-1".to_string(),
        application_id: "app-1".to_string(),
        token: "tok-1".to_string(),
    });
    assert_eq!(
        route,
        DiscordResponseRoute::InteractionWebhook(
            format!("{DISCORD_API_BASE}/webhooks/app-1/tok-1")
        )
    );
}

fn state(owner: Option<&str>, policy: Option<&str>, allow: Option<&str>) -> PermissionState {
    PermissionState {
        owner_id: owner.map(|s| s.to_string()),
        dm_policy: policy.map(|s| s.to_string()),
        allow_from: allow.map(|s| s.to_string()),
        paired: Some(vec!["friend".to_string()]),
    }
}

#[test]
fn only_the_owner_is_allowed_where_there_is_one() {
    let s = state(Some("me"), None, None);
    let ask = |user: &str| {
        check_sender_permission(&s, user, None, true, PermissionSource::Gateway)
    };
    assert_eq!(ask("me"), Permission::Allowed);
    assert_eq!(ask("friend"), Permission::Denied);
}

#[test]
fn unknown_senders_must_pair() {
    let s = state(None, None, None);
    let ask = |user: &str| {
        check_sender_permission(&s, user, Some("name"), true, PermissionSource::Gateway)
    };
    assert_eq!(ask("friend"), Permission::Allowed);
    match ask("stranger") {
        Permission::Pairing(meta) => {
            let meta = parsed(meta.as_bytes());
            assert_eq!(meta["user_id"], "stranger");
            assert_eq!(meta["username"], "name");
        }
        other => panic!("{other:?}"),
    }
    let open = state(None, Some("open"), None);
    assert_eq!(
        check_sender_permission(&open, "stranger", None, true, PermissionSource::Webhook),
        Permission::Allowed
    );
    let listed = state(None, None, Some(r#"["stranger"]"#));
    assert_eq!(
        check_sender_permission(&listed, "stranger", None, true, PermissionSource::Webhook),
        Permission::Allowed
    );
}

#[test]
fn pairing_codes_are_sent_by_their_route() {
    let call = send_pairing_reply(
        &PairingReplyCtx {
            channel_id: "chan-1".to_string(),
            application_id: String::new(),
            token: String::new(),
        },
        "ABC123",
    );
    assert_eq!(call.url, format!("{DISCORD_API_BASE}/channels/chan-1/messages"));
    let body = parsed(&call.body.unwrap());
    assert!(body["content"].as_str().unwrap().contains("ABC123"));
}

#[test]
fn channel_starts_with_its_settings_kept() {
    let (writes, config) = on_start(&DiscordConfig {
        require_signature_verification: true,
        owner_id: Some("me".to_string()),
        dm_policy: None,
        allow_from: Some(vec!["a".to_string()]),
        polling_enabled: true,
        poll_interval_ms: 5,
        mention_channel_ids: vec!["c1".to_string()],
    });
    let value = |path: &str| {
        writes.iter().find(|w| w.path == path).map(|w| w.value.as_str().to_string())
    };
    assert_eq!(value("state/owner_id"), Some("me".to_string()));
    assert_eq!(value("state/dm_policy"), Some("pairing".to_string()));
    assert_eq!(value("state/allow_from"), Some(r#"["a"]"#.to_string()));
    assert_eq!(value("state/mention_channel_ids"), Some(r#"["c1"]"#.to_string()));
    assert_eq!(config.display_name, "Discord");
    assert_eq!(config.poll.unwrap().interval_ms, 30_000);
    assert_eq!(default_poll_interval_ms(), 30_000);
}

// ── interactions ────────────────────────────────────────

fn interaction(kind: u8, data: Option<DiscordCommandData>) -> DiscordInteraction {
    DiscordInteraction {
        interaction_type: kind,
        id: "int_1".into(),
        application_id: "app_1".into(),
        guild_id: None,
        channel_id: Some("ch_1".into()),
        member: Some(DiscordMember {
            user: DiscordUser {
                id: "user_1".into(),
                username: "testuser".into(),
                global_name: Some("Test User".into()),
            },
            nick: None,
        }),
        user: None,
        data,
        message: None,
        token: "token_abc".into(),
    }
}

#[test]
fn pings_are_answered() {
    let body = b"{}".to_vec();
    let s = state(None, Some("open"), None);
    let (response, intake) = on_http_request(&body, Some(&interaction(1, None)), &s);
    assert_eq!(response.status, 200);
    assert_eq!(parsed(&response.body)["type"], 1);
    assert_eq!(intake, Intake::Ignore);
    let (bad, _) = on_http_request(&vec![0xff], None, &s);
    assert_eq!(bad.status, 400);
}

#[test]
fn commands_are_handed_on() {
    let command = DiscordCommandData {
        id: "cmd_1".into(),
        name: "ask".into(),
        options: Some(vec![DiscordCommandOption {
            name: "question".into(),
            value: Json::Str("What is rust?".into()),
        }]),
    };
    let s = state(None, Some("open"), None);
    let (response, intake) =
        on_http_request(&b"{}".to_vec(), Some(&interaction(2, Some(command))), &s);
    assert_eq!(parsed(&response.body)["type"], 5);
    match intake {
        Intake::Emit(m) => {
            assert_eq!(m.user_id, "user_1");
            assert!(m.content.contains("What is rust?"), "{}", m.content);
            assert_eq!(m.metadata.token, "token_abc");
        }
        other => panic!("{other:?}"),
    }
}

#[test]
fn test_discord_auth_headers_json_shape() {
    let with_ct = discord_auth_headers_json(true);
    assert_eq!(parsed(with_ct.as_bytes())["Content-Type"], "application/json");

    let without_ct = discord_auth_headers_json(false);
    assert!(parsed(without_ct.as_bytes()).get("Content-Type").is_none());
}

#[test]
fn direct_messages_open_a_channel_first() {
    assert!(open_dm_channel("").is_err());
    assert_eq!(
        open_dm_channel("not-a-user"),
        Err("Invalid Discord user ID: 'not-a-user'".to_string())
    );
    let call = open_dm_channel("123456789012345678").unwrap();
    assert_eq!(call.url, format!("{DISCORD_API_BASE}/users/@me/channels"));
    assert_eq!(parsed(&call.body.unwrap())["recipient_id"], "123456789012345678");
    let opened = dm_channel_opened(Ok(HttpReply { status: 200, body: b"{}".to_vec() }));
    assert_eq!(opened, Ok(b"{}".to_vec()));
    assert!(dm_channel_opened(Ok(HttpReply { status: 403, body: vec![] })).is_err());
    let sent = broadcast_dm("dm", "hello");
    assert_eq!(sent.url, format!("{DISCORD_API_BASE}/channels/dm/messages"));
    assert_eq!(parsed(&sent.body.unwrap())["content"], "hello");
}

// ── mentions that are polled ────────────────────────────

#[test]
fn test_is_new_message() {
    assert!(is_new_message("100", "200"));
    assert!(!is_new_message("200", "100"));
    assert!(!is_new_message("100", "100"));
    assert!(is_new_message("1234567890123456789", "1234567890123456790"));
    assert!(!is_new_message(
        "1234567890123456790",
        "1234567890123456789"
    ));
}

#[test]
fn test_strip_bot_mention() {
    assert_eq!(
        strip_bot_mention("<@bot-123> hello world", "bot-123"),
        "hello world"
    );
    assert_eq!(
        strip_bot_mention("<@!bot-123> hi there", "bot-123"),
        "hi there"
    );
    assert_eq!(
        strip_bot_mention("no mention here", "bot-123"),
        "no mention here"
    );
    assert_eq!(strip_bot_mention("<@bot-123>", "bot-123"), "");
    assert_eq!(strip_bot_mention("<@bot-123>   ", "bot-123"), "");
}

fn channel_message(id: &str, content: &str, mentions: Vec<DiscordUser>) -> DiscordChannelMessage {
    DiscordChannelMessage {
        id: id.to_string(),
        content: content.to_string(),
        channel_id: "ch-1".to_string(),
        author: DiscordChannelAuthor {
            id: "user-1".to_string(),
            username: "alice".to_string(),
            global_name: None,
            bot: false,
        },
        mentions,
        webhook_id: None,
    }
}

#[test]
fn test_message_mentions_bot() {
    let msg = channel_message(
        "1",
        "hello",
        vec![DiscordUser {
            id: "bot-1".to_string(),
            username: "ironclaw".to_string(),
            global_name: None,
        }],
    );
    assert!(message_mentions_bot(&msg, "bot-1"));
    assert!(!message_mentions_bot(&msg, "other-bot"));

    let msg2 = channel_message("2", "<@bot-2> do something", vec![]);
    assert!(message_mentions_bot(&msg2, "bot-2"));
    assert!(!message_mentions_bot(&msg2, "other-bot"));
}

#[test]
fn test_compare_message_ids() {
    assert_eq!(compare_message_ids("100", "200"), Ordering::Less);
    assert_eq!(compare_message_ids("200", "100"), Ordering::Greater);
    assert_eq!(compare_message_ids("100", "100"), Ordering::Equal);
    assert_eq!(compare_message_ids("abc", "abd"), Ordering::Less);
    assert_eq!(compare_message_ids("abd", "abc"), Ordering::Greater);
}

#[test]
fn test_remember_processed_id_dedup_and_cap() {
    let mut ids = Vec::new();

    remember_processed_id("msg-1", &mut ids);
    assert_eq!(ids, vec!["msg-1".to_string()]);

    remember_processed_id("msg-1", &mut ids);
    assert_eq!(ids.len(), 1);

    for i in 2..=(DEDUP_CAP + 5) {
        remember_processed_id(&format!("msg-{}", i), &mut ids);
    }
    assert_eq!(ids.len(), DEDUP_CAP);
    assert!(!ids.contains(&"msg-1".to_string()));
    assert!(ids.contains(&format!("msg-{}", DEDUP_CAP + 5)));
}

#[test]
fn mentions_are_handed_on_once() {
    let s = state(None, Some("open"), None);
    let mut from_bot = channel_message("12", "<@7> loop", vec![]);
    from_bot.author.bot = true;
    let messages = vec![
        channel_message("10", "<@7> first", vec![]),
        channel_message("11", "no mention", vec![]),
        from_bot,
    ];
    let poll = poll_channel_mentions(&messages, "9", vec![], "7", &s);
    assert_eq!(poll.emitted.len(), 1);
    assert_eq!(poll.emitted[0].content, "first");
    assert_eq!(poll.emitted[0].metadata.source_message_id, Some("10".to_string()));
    assert_eq!(poll.cursor, "10");
    let again = poll_channel_mentions(&messages, "9", poll.processed, "7", &s);
    assert!(again.emitted.is_empty());
    let later = poll_channel_mentions(&messages, "12", vec![], "7", &s);
    assert!(later.emitted.is_empty());
}

#[test]
fn identities_are_read_from_replies() {
    assert_eq!(fetch_bot_id().url, format!("{DISCORD_API_BASE}/users/@me"));
    let reply = |status: u16, body: &str| HttpReply { status, body: body.as_bytes().to_vec() };
    assert_eq!(bot_id_in_reply(&reply(200, r#"{"id": "7"}"#)), Some("7".to_string()));
    assert_eq!(bot_id_in_reply(&reply(401, r#"{"id": "7"}"#)), None);
    assert_eq!(latest_id_in_reply(&reply(200, r#"[{"id": "9"}]"#)), Some("9".to_string()));
    assert_eq!(latest_id_in_reply(&reply(200, "[]")), None);
    assert_eq!(
        fetch_latest_message_id("c").url,
        format!("{DISCORD_API_BASE}/channels/c/messages?limit=1")
    );
    assert!(fetch_messages_after("c", "5").url.contains("after=5"));
    assert!(polling_enabled(Some("true")));
    assert!(!polling_enabled(None));
    assert!(succeeded(200) && succeeded(299));
    assert!(!succeeded(199) && !succeeded(300));
    assert_ne!(dedup_ids_path("c"), cursor_path("c"));
}

#[test]
fn the_bot_is_known_where_it_is_kept() {
    assert_eq!(kept_bot_id(Some("7")), Some("7".to_string()));
    assert_eq!(kept_bot_id(Some("")), None);
    assert_eq!(kept_bot_id(None), None);
}

#[test]
fn a_channel_without_a_cursor_starts_at_its_newest_message() {
    assert_eq!(
        begin_channel_poll("c", ""),
        ChannelStep::Start(fetch_latest_message_id("c"))
    );
    assert_eq!(
        begin_channel_poll("c", "5"),
        ChannelStep::Look(fetch_messages_after("c", "5"))
    );
}

#[test]
fn a_cursor_is_kept_where_it_moved() {
    let poll = |cursor: &str| MentionPoll {
        emitted: vec![],
        cursor: cursor.to_string(),
        processed: vec!["9".to_string(), "10".to_string()],
    };
    let still = keep_poll("c", "9", &poll("9"));
    assert_eq!(still.len(), 1);
    assert_eq!(still[0].path, "state/mention_dedup/c");
    assert_eq!(still[0].value, r#"["9","10"]"#);
    let moved = keep_poll("c", "9", &poll("10"));
    assert_eq!(moved.len(), 2);
    assert_eq!(moved[0].path, "state/mention_cursor/c");
    assert_eq!(moved[0].value, "10");
    assert_eq!(moved[1], still[0]);
}

#[test]
fn pages_are_fetched_while_they_are_full() {
    let full: Vec<DiscordChannelMessage> =
        (1..=100).map(|i| channel_message(&i.to_string(), "x", vec![])).collect();
    assert_eq!(next_page(&full, "0", 1), Some("100".to_string()));
    assert_eq!(next_page(&full, "0", 5), None);
    assert_eq!(next_page(&full[..3].iter().map(|m| channel_message(&m.id, "x", vec![])).collect(), "0", 1), None);
}

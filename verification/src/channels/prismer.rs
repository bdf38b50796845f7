//! Prismer: messages that come in by webhook or by polling, replies that go out, and
//! the registration that both need.

use vstd::prelude::*;

use crate::channels::host::{
    emitted_views, failed_status, is_config, json_bytes, make_config, render_bytes, strings_array,
    strings_json, tell_failed_status, text2, text3, write_to, write_views, CallView,
    ChannelConfig, EmittedMessage, EmittedView, HttpCall, HttpReply, OutgoingHttpResponse,
    PollConfig, ResponseView, WorkspaceWrite,
};
use crate::executor::calls::object;
use crate::json::{field_of, fields, json_str, json_text, one_field, render, Json, JsonView};
use crate::number::{decimal, decimal_reads_back, parse_usize, parsed, usize_to_string};
use crate::text::{opt_text, str_eq, texts, trim, trimmed};

verus! {

/// Where the token of the agent is kept.
pub const JWT_PATH: &'static str = "jwt";

/// Where the identity of the agent is kept.
pub const IM_USER_ID_PATH: &'static str = "im_user_id";

/// Where the configuration is kept.
pub const CONFIG_PATH: &'static str = "config";

/// Where the address of the webhook is kept.
pub const WEBHOOK_REGISTERED_PATH: &'static str = "webhook_registered";

/// How often the service is polled at most, in milliseconds.
pub const MIN_POLL_INTERVAL_MS: u32 = 30000;

/// The address of the service, where that is not configured.
pub fn default_base_url() -> (r: String)
    ensures
        r@ == "https://prismer.cloud"@,
{
    "https://prismer.cloud".to_owned()
}

/// The name that is shown, where none is configured.
pub fn default_display_name() -> (r: String)
    ensures
        r@ == "IronClaw Agent"@,
{
    "IronClaw Agent".to_owned()
}

/// The type of the agent, where none is configured.
pub fn default_agent_type() -> (r: String)
    ensures
        r@ == "assistant"@,
{
    "assistant".to_owned()
}

/// What the agent can do, where that is not configured.
pub fn default_capabilities() -> (r: Vec<String>)
    ensures
        texts(r@) == seq!["chat"@, "code"@, "memory"@, "tools"@],
{
    let mut v: Vec<String> = Vec::new();
    v.push("chat".to_owned());
    v.push("code".to_owned());
    v.push("memory".to_owned());
    v.push("tools".to_owned());
    assert(texts(v@) =~= seq!["chat"@, "code"@, "memory"@, "tools"@]);
    v
}

/// The description of the agent, where none is configured.
pub fn default_description() -> (r: String)
    ensures
        r@ == "IronClaw AI assistant on Prismer network"@,
{
    "IronClaw AI assistant on Prismer network".to_owned()
}

/// How often the service is polled, where that is not configured, in milliseconds.
pub fn default_poll_interval() -> (r: u32)
    ensures
        r == 30000,
{
    30000
}

/// The policy for direct messages, where none is configured.
pub fn default_dm_policy() -> (r: String)
    ensures
        r@ == "open"@,
{
    "open".to_owned()
}

/// How the channel is configured.
#[derive(Debug, PartialEq, Eq)]
pub struct PrismerConfig {
    pub base_url: String,
    pub agent_name: Option<String>,
    pub display_name: String,
    pub agent_type: String,
    pub capabilities: Vec<String>,
    pub description: String,
    pub polling_enabled: bool,
    pub poll_interval_ms: u32,
    pub dm_policy: String,
    /// Where requests from outside reach the host, if they do.
    pub tunnel_url: Option<String>,
}

/// What a configuration holds.
pub struct PrismerConfigView {
    pub base_url: Seq<char>,
    pub agent_name: Option<Seq<char>>,
    pub display_name: Seq<char>,
    pub agent_type: Seq<char>,
    pub capabilities: Seq<Seq<char>>,
    pub description: Seq<char>,
    pub polling_enabled: bool,
    pub poll_interval_ms: u32,
    pub dm_policy: Seq<char>,
    pub tunnel_url: Option<Seq<char>>,
}

impl View for PrismerConfig {
    type V = PrismerConfigView;

    open spec fn view(&self) -> PrismerConfigView {
        PrismerConfigView {
            base_url: self.base_url@,
            agent_name: opt_text(self.agent_name),
            display_name: self.display_name@,
            agent_type: self.agent_type@,
            capabilities: texts(self.capabilities@),
            description: self.description@,
            polling_enabled: self.polling_enabled,
            poll_interval_ms: self.poll_interval_ms,
            dm_policy: self.dm_policy@,
            tunnel_url: opt_text(self.tunnel_url),
        }
    }
}

/// The configuration of a channel of which nothing is configured.
pub open spec fn default_config() -> PrismerConfigView {
    PrismerConfigView {
        base_url: "https://prismer.cloud"@,
        agent_name: None,
        display_name: "IronClaw Agent"@,
        agent_type: "assistant"@,
        capabilities: seq!["chat"@, "code"@, "memory"@, "tools"@],
        description: "IronClaw AI assistant on Prismer network"@,
        polling_enabled: false,
        poll_interval_ms: 30000,
        dm_policy: "open"@,
        tunnel_url: None,
    }
}

/// The configuration that is kept, where it could be read.
pub open spec fn kept_config(kept: Option<PrismerConfig>) -> PrismerConfigView {
    match kept {
        Some(c) => c@,
        None => default_config(),
    }
}

/// Takes the configuration that is kept, where it could be read, and the defaults where
/// not.
pub fn read_config(kept: Option<PrismerConfig>) -> (r: PrismerConfig)
    ensures
        r@ == kept_config(kept),
{
    match kept {
        Some(c) => c,
        None => PrismerConfig {
            base_url: default_base_url(),
            agent_name: None,
            display_name: default_display_name(),
            agent_type: default_agent_type(),
            capabilities: default_capabilities(),
            description: default_description(),
            polling_enabled: false,
            poll_interval_ms: default_poll_interval(),
            dm_policy: default_dm_policy(),
            tunnel_url: None,
        },
    }
}

/// A JSON response.
pub open spec fn response_view(status: u16, body: JsonView) -> ResponseView {
    ResponseView {
        status,
        headers: "{\"Content-Type\":\"application/json\"}"@,
        body: json_bytes(body),
    }
}

/// Makes a JSON response.
pub fn respond_json(status: u16, body: Json) -> (r: OutgoingHttpResponse)
    ensures
        r@ == response_view(status, body@),
{
    OutgoingHttpResponse {
        status,
        headers_json: "{\"Content-Type\":\"application/json\"}".to_owned(),
        body: render_bytes(&body),
    }
}

/// The headers of a request with a token.
pub open spec fn request_headers(token: Seq<char>, has_body: bool) -> JsonView {
    let bearer = ("Authorization"@, JsonView::Str("Bearer "@ + token));
    JsonView::Object(
        if has_body {
            seq![bearer, ("Content-Type"@, JsonView::Str("application/json"@))]
        } else {
            seq![bearer]
        },
    )
}

/// A request to the service.
pub open spec fn request_view(
    method: Seq<char>,
    url: Seq<char>,
    token: Seq<char>,
    body: Option<JsonView>,
) -> CallView {
    CallView {
        method,
        url,
        headers: json_text(request_headers(token, body is Some)),
        body: match body {
            Some(b) => Some(json_bytes(b)),
            None => None,
        },
        timeout_ms: None,
    }
}

/// What an optional value holds.
pub open spec fn opt_json(o: Option<Json>) -> Option<JsonView> {
    match o {
        Some(j) => Some(j@),
        None => None,
    }
}

/// Makes a request to the service.
pub fn api_request(method: &str, url: &str, token: &str, body: Option<Json>) -> (r: HttpCall)
    ensures
        r@ == request_view(method@, url@, token@, opt_json(body)),
{
    let mut v: Vec<(String, Json)> = Vec::new();
    v.push(("Authorization".to_owned(), Json::Str(text2("Bearer ", token))));
    let ghost has_body = body is Some;
    let bytes = match body {
        Some(b) => {
            v.push(("Content-Type".to_owned(), json_str("application/json")));
            Some(render_bytes(&b))
        },
        None => None,
    };
    assert(fields(v@) =~= request_headers(token@, has_body)->Object_0);
    HttpCall {
        method: method.to_owned(),
        url: url.to_owned(),
        headers_json: render(&object(v)),
        body: bytes,
        timeout_ms: None,
    }
}

/// How it is told that a request could not be sent.
pub open spec fn request_failed(e: Seq<char>) -> Seq<char> {
    "HTTP request failed: "@ + e
}

/// What the service is told of the agent.
pub open spec fn registration(c: PrismerConfigView) -> JsonView {
    JsonView::Object(
        seq![
            ("agentType"@, JsonView::Str(c.agent_type)),
            ("capabilities"@, strings_json(c.capabilities)),
            ("description"@, JsonView::Str(c.description)),
            ("displayName"@, JsonView::Str(c.display_name)),
            (
                "endpoint"@,
                match c.tunnel_url {
                    Some(t) => JsonView::Str(t),
                    None => JsonView::Null,
                },
            ),
            ("type"@, JsonView::Str("agent"@)),
            (
                "username"@,
                JsonView::Str(
                    match c.agent_name {
                        Some(n) => n,
                        None => "ironclaw"@,
                    },
                ),
            ),
        ],
    )
}

/// The request that registers the agent. The host puts the key in place of the token.
pub open spec fn register_view(c: PrismerConfigView) -> CallView {
    request_view(
        "POST"@,
        c.base_url + "/api/im/register"@,
        "{PRISMER_API_KEY}"@,
        Some(registration(c)),
    )
}

/// Makes the request that registers the agent.
pub fn register_agent(config: &PrismerConfig) -> (r: HttpCall)
    ensures
        r@ == register_view(config@),
{
    let endpoint = match &config.tunnel_url {
        Some(t) => json_str(t.as_str()),
        None => Json::Null,
    };
    let username = match &config.agent_name {
        Some(n) => n.as_str(),
        None => "ironclaw",
    };
    let mut v: Vec<(String, Json)> = Vec::new();
    v.push(("agentType".to_owned(), json_str(config.agent_type.as_str())));
    v.push(("capabilities".to_owned(), strings_array(&config.capabilities)));
    v.push(("description".to_owned(), json_str(config.description.as_str())));
    v.push(("displayName".to_owned(), json_str(config.display_name.as_str())));
    v.push(("endpoint".to_owned(), endpoint));
    v.push(("type".to_owned(), json_str("agent")));
    v.push(("username".to_owned(), json_str(username)));
    assert(fields(v@) =~= registration(config@)->Object_0);
    api_request(
        "POST",
        text2(config.base_url.as_str(), "/api/im/register").as_str(),
        "{PRISMER_API_KEY}",
        Some(object(v)),
    )
}

/// Makes the request that registers the agent anew, with the configuration that is kept.
pub fn attempt_re_register(kept: Option<PrismerConfig>) -> (r: HttpCall)
    ensures
        r@ == register_view(kept_config(kept)),
{
    register_agent(&read_config(kept))
}

/// Who the agent was registered as.
#[derive(Debug, PartialEq, Eq)]
pub struct RegisterData {
    pub im_user_id: String,
    pub token: String,
    pub expires_in: Option<String>,
}

/// The answer to a registration, read as far as it could be.
#[derive(Debug, PartialEq, Eq)]
pub struct RegisterResult {
    pub ok: bool,
    /// The error in the answer, as it is shown.
    pub error: String,
    /// The data in the answer, or why they could not be read.
    pub data: Option<Result<RegisterData, String>>,
}

/// What a registration comes to: the token and the identity, or what went wrong.
pub open spec fn register_outcome(
    reply: Result<HttpReply, String>,
    answer: Result<RegisterResult, String>,
) -> Result<(Seq<char>, Seq<char>), Seq<char>> {
    match reply {
        Err(e) => Err(request_failed(e@)),
        Ok(x) => if x.status >= 300 {
            Err(failed_status("Register failed (HTTP "@, x.status, "): "@, x.body@))
        } else {
            match answer {
                Err(e) => Err("Failed to parse register response: "@ + e@),
                Ok(a) => if !a.ok {
                    Err("Register returned ok=false: "@ + a.error@)
                } else {
                    match a.data {
                        None => Err("Register response missing data"@),
                        Some(Err(e)) => Err("Failed to parse register data: "@ + e@),
                        Some(Ok(d)) => Ok((d.token@, d.im_user_id@)),
                    }
                },
            }
        },
    }
}

/// A registration, and what is to be kept of it.
#[derive(Debug, PartialEq, Eq)]
pub struct Registration {
    pub token: String,
    pub im_user_id: String,
    pub writes: Vec<WorkspaceWrite>,
}

/// Takes the answer to a registration in.
pub fn registered(reply: Result<HttpReply, String>, answer: Result<RegisterResult, String>) -> (r:
    Result<Registration, String>)
    ensures
        match r {
            Ok(g) => register_outcome(reply, answer) matches Ok((token, id)) && g.token@ == token
                && g.im_user_id@ == id && write_views(g.writes@) == seq![
                (JWT_PATH@, token),
                (IM_USER_ID_PATH@, id),
            ],
            Err(e) => register_outcome(reply, answer) == Err::<
                (Seq<char>, Seq<char>),
                Seq<char>,
            >(e@),
        },
{
    let x = match reply {
        Ok(x) => x,
        Err(e) => {
            return Err(text2("HTTP request failed: ", e.as_str()));
        },
    };
    if x.status >= 300 {
        return Err(tell_failed_status("Register failed (HTTP ", x.status, "): ", &x.body));
    }
    let a = match answer {
        Ok(a) => a,
        Err(e) => {
            return Err(text2("Failed to parse register response: ", e.as_str()));
        },
    };
    if !a.ok {
        return Err(text2("Register returned ok=false: ", a.error.as_str()));
    }
    match a.data {
        None => Err("Register response missing data".to_owned()),
        Some(Err(e)) => Err(text2("Failed to parse register data: ", e.as_str())),
        Some(Ok(d)) => {
            let mut writes: Vec<WorkspaceWrite> = Vec::new();
            writes.push(write_to(JWT_PATH, d.token.as_str()));
            writes.push(write_to(IM_USER_ID_PATH, d.im_user_id.as_str()));
            assert(write_views(writes@) =~= seq![
                (JWT_PATH@, d.token@),
                (IM_USER_ID_PATH@, d.im_user_id@),
            ]);
            Ok(Registration { token: d.token, im_user_id: d.im_user_id, writes })
        },
    }
}

/// A token that is kept, where there is one.
pub open spec fn kept_token(cached: Option<&str>) -> Option<Seq<char>> {
    match cached {
        Some(t) if t@.len() > 0 => Some(t@),
        _ => None,
    }
}

/// Finds the token that is kept.
pub fn kept_jwt(cached: Option<&str>) -> (r: Option<String>)
    ensures
        opt_text(r) == kept_token(cached),
{
    match cached {
        Some(t) => if t.is_empty() {
            None
        } else {
            Some(t.to_owned())
        },
        None => None,
    }
}

/// The list in an answer that was read as far as it could be: the answer, the data in
/// it, and the list in the data. `None` where there is nothing to go on with: the answer
/// could not be read, or holds no data. Data that could not be read are an empty list.
pub fn listed<T>(answer: Result<Option<Result<Vec<T>, String>>, String>) -> (r: Option<Vec<T>>)
    ensures
        match answer {
            Ok(Some(Ok(v))) => r == Some(v),
            Ok(Some(Err(_))) => r matches Some(v) && v@.len() == 0,
            Ok(None) => r is None,
            Err(_) => r is None,
        },
{
    match answer {
        Ok(Some(Ok(v))) => Some(v),
        Ok(Some(Err(_))) => Some(Vec::new()),
        Ok(None) => None,
        Err(_) => None,
    }
}

/// How the agent comes by a token.
#[derive(Debug, PartialEq, Eq)]
pub enum JwtStep {
    /// The token that is kept is tried with this request.
    Validate(HttpCall),
    /// The agent is registered with this request.
    Register(HttpCall),
    /// The token that is kept is good.
    Keep(String),
}

/// Begins to find a token: the one that is kept is tried before the agent is registered.
pub fn ensure_jwt(cached: Option<&str>, config: &PrismerConfig) -> (r: JwtStep)
    ensures
        match kept_token(cached) {
            Some(t) => r matches JwtStep::Validate(c) && c@ == request_view(
                "GET"@,
                config.base_url@ + "/api/im/me"@,
                t,
                None,
            ),
            None => r matches JwtStep::Register(c) && c@ == register_view(config@),
        },
{
    if let Some(t) = cached {
        if !t.is_empty() {
            return JwtStep::Validate(
                api_request("GET", text2(config.base_url.as_str(), "/api/im/me").as_str(), t, None),
            );
        }
    }
    JwtStep::Register(register_agent(config))
}

/// Goes on after the token that is kept was tried: it is kept where the service took it,
/// and the agent is registered where not.
pub fn jwt_validated(cached: &str, reply: Result<HttpReply, String>, config: &PrismerConfig) -> (r:
    Result<JwtStep, String>)
    ensures
        match reply {
            Err(e) => r matches Err(x) && x@ == request_failed(e@),
            Ok(x) => if x.status < 300 {
                r matches Ok(JwtStep::Keep(t)) && t@ == cached@
            } else {
                r matches Ok(JwtStep::Register(c)) && c@ == register_view(config@)
            },
        },
{
    match reply {
        Err(e) => Err(text2("HTTP request failed: ", e.as_str())),
        Ok(x) => if x.status < 300 {
            Ok(JwtStep::Keep(cached.to_owned()))
        } else {
            Ok(JwtStep::Register(register_agent(config)))
        },
    }
}

/// What the start of the channel comes to.
#[derive(Debug, PartialEq, Eq)]
pub struct PrismerStart {
    pub writes: Vec<WorkspaceWrite>,
    pub config: ChannelConfig,
}

/// How the channel is polled: not at all where requests from outside reach the host.
pub open spec fn poll_of(c: PrismerConfigView) -> Option<PollConfig> {
    if c.tunnel_url is Some {
        None
    } else {
        Some(
            PollConfig {
                interval_ms: if c.poll_interval_ms > MIN_POLL_INTERVAL_MS {
                    c.poll_interval_ms
                } else {
                    MIN_POLL_INTERVAL_MS
                },
                enabled: true,
            },
        )
    }
}

/// Starts the channel, once it has a token: by webhook where requests from outside reach
/// the host, by polling where not.
pub fn on_start(config: &PrismerConfig, has_webhook_secret: bool) -> (r: PrismerStart)
    ensures
        write_views(r.writes@) == match config@.tunnel_url {
            Some(t) => seq![(WEBHOOK_REGISTERED_PATH@, t + "/webhook/prismer"@)],
            None => Seq::empty(),
        },
        is_config(
            r.config,
            "Prismer"@,
            "/webhook/prismer"@,
            has_webhook_secret,
            poll_of(config@),
        ),
{
    let mut writes: Vec<WorkspaceWrite> = Vec::new();
    let poll = match &config.tunnel_url {
        Some(t) => {
            let address = text2(t.as_str(), "/webhook/prismer");
            writes.push(write_to(WEBHOOK_REGISTERED_PATH, address.as_str()));
            assert(write_views(writes@) =~= seq![(WEBHOOK_REGISTERED_PATH@, address@)]);
            None
        },
        None => {
            assert(write_views(writes@) =~= Seq::empty());
            let interval_ms: u32 = if config.poll_interval_ms > MIN_POLL_INTERVAL_MS {
                config.poll_interval_ms
            } else {
                MIN_POLL_INTERVAL_MS
            };
            Some(PollConfig { interval_ms, enabled: true })
        },
    };
    PrismerStart {
        writes,
        config: make_config("Prismer", "/webhook/prismer", has_webhook_secret, poll),
    }
}

/// A message in a webhook.
#[derive(Debug, PartialEq, Eq)]
pub struct WebhookMessage {
    pub id: String,
    pub msg_type: String,
    pub content: String,
    pub sender_id: String,
    pub conversation_id: String,
    pub parent_id: Option<String>,
    pub created_at: Option<String>,
}

/// Who sent a message.
#[derive(Debug, PartialEq, Eq)]
pub struct WebhookSender {
    pub id: String,
    pub username: String,
    pub display_name: String,
    pub role: String,
}

/// The conversation that a message belongs to.
#[derive(Debug, PartialEq, Eq)]
pub struct WebhookConversation {
    pub id: String,
    pub conv_type: String,
    pub title: Option<String>,
}

/// What a webhook tells.
#[derive(Debug, PartialEq, Eq)]
pub struct WebhookPayload {
    pub source: String,
    pub event: String,
    pub timestamp: Option<i64>,
    pub message: WebhookMessage,
    pub sender: WebhookSender,
    pub conversation: WebhookConversation,
}

/// What a reply needs.
#[derive(Debug, PartialEq, Eq)]
pub struct PrismerMetadata {
    pub conversation_id: String,
    pub conversation_type: String,
    pub sender_id: String,
    pub sender_username: String,
    pub message_id: String,
}

/// What the metadata hold.
pub struct PrismerMetadataView {
    pub conversation_id: Seq<char>,
    pub conversation_type: Seq<char>,
    pub sender_id: Seq<char>,
    pub sender_username: Seq<char>,
    pub message_id: Seq<char>,
}

impl View for PrismerMetadata {
    type V = PrismerMetadataView;

    open spec fn view(&self) -> PrismerMetadataView {
        PrismerMetadataView {
            conversation_id: self.conversation_id@,
            conversation_type: self.conversation_type@,
            sender_id: self.sender_id@,
            sender_username: self.sender_username@,
            message_id: self.message_id@,
        }
    }
}

/// What an optional message holds.
pub open spec fn opt_emitted(o: Option<EmittedMessage<PrismerMetadata>>) -> Option<
    EmittedView<PrismerMetadataView>,
> {
    match o {
        Some(m) => Some(m@),
        None => None,
    }
}

/// What a message in a webhook is handed on as.
pub open spec fn webhook_message(p: WebhookPayload) -> EmittedView<PrismerMetadataView> {
    EmittedView {
        user_id: p.sender.id@,
        user_name: Some(p.sender.display_name@),
        content: trimmed(p.message.content@),
        thread_id: Some(p.conversation.id@),
        metadata: PrismerMetadataView {
            conversation_id: p.conversation.id@,
            conversation_type: p.conversation.conv_type@,
            sender_id: p.sender.id@,
            sender_username: p.sender.username@,
            message_id: p.message.id@,
        },
    }
}

/// A response that says all is well.
pub open spec fn ok_json() -> JsonView {
    JsonView::Object(seq![("ok"@, JsonView::Bool(true))])
}

/// A response that says why a message was passed over.
pub open spec fn skipped_json(why: Seq<char>) -> JsonView {
    JsonView::Object(seq![("ok"@, JsonView::Bool(true)), ("skipped"@, JsonView::Str(why))])
}

/// A response that tells of an error.
pub open spec fn error_body(e: Seq<char>) -> JsonView {
    JsonView::Object(seq![("error"@, JsonView::Str(e))])
}

/// The identity of the agent; empty where none is kept.
pub open spec fn own_id(kept: Option<&str>) -> Seq<char> {
    match kept {
        Some(s) => s@,
        None => ""@,
    }
}

/// The response to a webhook, and the message that is handed on.
pub open spec fn webhook_result(
    secret_validated: bool,
    payload: Result<WebhookPayload, String>,
    my_id: Seq<char>,
) -> (ResponseView, Option<EmittedView<PrismerMetadataView>>) {
    if !secret_validated {
        (response_view(401, error_body("Invalid signature"@)), None)
    } else {
        match payload {
            Err(e) => (response_view(400, error_body(e@)), None),
            Ok(p) => if p.source@ != "prismer_im"@ {
                (response_view(400, error_body("Unknown source"@)), None)
            } else if p.sender.id@ == my_id {
                (response_view(200, skipped_json("self"@)), None)
            } else if p.event@ != "message.new"@ {
                (response_view(200, ok_json()), None)
            } else if trimmed(p.message.content@).len() == 0 {
                (response_view(200, skipped_json("empty"@)), None)
            } else {
                (response_view(200, ok_json()), Some(webhook_message(p)))
            },
        }
    }
}

fn ok_response() -> (r: OutgoingHttpResponse)
    ensures
        r@ == response_view(200, ok_json()),
{
    respond_json(200, one_field("ok", Json::Bool(true)))
}

fn skipped_response(why: &str) -> (r: OutgoingHttpResponse)
    ensures
        r@ == response_view(200, skipped_json(why@)),
{
    let mut v: Vec<(String, Json)> = Vec::new();
    v.push(("ok".to_owned(), Json::Bool(true)));
    v.push(("skipped".to_owned(), json_str(why)));
    assert(fields(v@) =~= skipped_json(why@)->Object_0);
    respond_json(200, object(v))
}

fn error_out(status: u16, e: &str) -> (r: OutgoingHttpResponse)
    ensures
        r@ == response_view(status, error_body(e@)),
{
    respond_json(status, one_field("error", json_str(e)))
}

/// Answers a webhook. `payload` is what it tells, or why that could not be read; `my_id`
/// is the identity of the agent, where one is kept.
pub fn on_http_request(
    secret_validated: bool,
    payload: Result<WebhookPayload, String>,
    my_id: Option<&str>,
) -> (r: (OutgoingHttpResponse, Option<EmittedMessage<PrismerMetadata>>))
    ensures
        ({
            let x = webhook_result(secret_validated, payload, own_id(my_id));
            r.0@ == x.0 && opt_emitted(r.1) == x.1
        }),
{
    if !secret_validated {
        return (error_out(401, "Invalid signature"), None);
    }
    let p = match payload {
        Ok(p) => p,
        Err(e) => {
            return (error_out(400, e.as_str()), None);
        },
    };
    if !str_eq(p.source.as_str(), "prismer_im") {
        return (error_out(400, "Unknown source"), None);
    }
    let me = match my_id {
        Some(s) => s,
        None => "",
    };
    if str_eq(p.sender.id.as_str(), me) {
        return (skipped_response("self"), None);
    }
    if !str_eq(p.event.as_str(), "message.new") {
        return (ok_response(), None);
    }
    let content = trim(p.message.content.as_str());
    if content.is_empty() {
        return (skipped_response("empty"), None);
    }
    let m = EmittedMessage {
        user_id: p.sender.id.clone(),
        user_name: Some(p.sender.display_name.clone()),
        content: content.to_owned(),
        thread_id: Some(p.conversation.id.clone()),
        metadata: PrismerMetadata {
            conversation_id: p.conversation.id.clone(),
            conversation_type: p.conversation.conv_type.clone(),
            sender_id: p.sender.id.clone(),
            sender_username: p.sender.username.clone(),
            message_id: p.message.id.clone(),
        },
    };
    (ok_response(), Some(m))
}

/// The agent does not answer itself: what it sent is not handed on, whatever else a
/// webhook tells.
pub proof fn own_webhooks_are_passed_over(secret_validated: bool, p: WebhookPayload, my_id: Seq<char>)
    requires
        p.sender.id@ == my_id,
    ensures
        webhook_result(secret_validated, Ok(p), my_id).1 is None,
{
}

/// Nothing is handed on of a webhook that is not signed.
pub proof fn unsigned_webhooks_are_refused(payload: Result<WebhookPayload, String>, my_id: Seq<char>)
    ensures
        webhook_result(false, payload, my_id).0.status == 401,
        webhook_result(false, payload, my_id).1 is None,
{
}

/// Begins a poll: asks for the conversations with unread messages, where there is a
/// token.
pub fn begin_poll(jwt: Option<&str>, config: &PrismerConfig) -> (r: Option<HttpCall>)
    ensures
        match kept_token(jwt) {
            Some(t) => r matches Some(c) && c@ == request_view(
                "GET"@,
                config.base_url@ + "/api/im/conversations?withUnread=true"@,
                t,
                None,
            ),
            None => r is None,
        },
{
    match jwt {
        Some(t) => if t.is_empty() {
            None
        } else {
            Some(
                api_request(
                    "GET",
                    text2(
                        config.base_url.as_str(),
                        "/api/im/conversations?withUnread=true",
                    ).as_str(),
                    t,
                    None,
                ),
            )
        },
        None => None,
    }
}

/// What is done after an answer of the service.
#[derive(Debug, Clone, Copy, PartialEq, Eq, Structural)]
pub enum PollStep {
    /// The answer is read.
    Read,
    /// The agent is registered anew.
    ReRegister,
    /// Nothing more.
    Stop,
}

/// What is done after an answer: a refused token is renewed, but only once.
pub open spec fn step_after(status: Option<u16>, renewed: bool) -> PollStep {
    match status {
        Some(s) => if s == 401 && !renewed {
            PollStep::ReRegister
        } else if s >= 300 {
            PollStep::Stop
        } else {
            PollStep::Read
        },
        None => PollStep::Stop,
    }
}

/// Decides what is done after an answer; `None` where none came. `renewed` tells
/// whether the token was renewed already.
pub fn answered(status: Option<u16>, renewed: bool) -> (r: PollStep)
    ensures
        r == step_after(status, renewed),
{
    match status {
        Some(s) => if s == 401 && !renewed {
            PollStep::ReRegister
        } else if s >= 300 {
            PollStep::Stop
        } else {
            PollStep::Read
        },
        None => PollStep::Stop,
    }
}

/// A conversation.
#[derive(Debug, PartialEq, Eq)]
pub struct IMConversation {
    pub id: String,
    pub conv_type: String,
    pub title: Option<String>,
    pub unread_count: Option<i32>,
}

/// A message of a conversation.
#[derive(Debug, PartialEq, Eq)]
pub struct IMMessage {
    pub id: String,
    pub content: String,
    pub msg_type: String,
    pub sender_id: String,
    pub created_at: Option<String>,
}

/// Whether a conversation has messages that were not read.
pub open spec fn has_unread(c: IMConversation) -> bool {
    c.unread_count matches Some(n) && n > 0
}

/// Where the offset of a conversation is kept.
pub fn cursor_key(conversation_id: &str) -> (r: String)
    ensures
        r@ == "cursor_"@ + conversation_id@,
{
    text2("cursor_", conversation_id)
}

/// Where the messages of a conversation are, from an offset on.
pub open spec fn messages_url(base: Seq<char>, id: Seq<char>, cursor: Seq<char>) -> Seq<char> {
    let url = base + "/api/im/messages/"@ + id;
    if cursor.len() == 0 {
        url
    } else {
        url + "?offset="@ + cursor
    }
}

/// Asks for the messages of a conversation from the offset that is kept on; `None` where
/// all of them were read.
pub fn fetch_messages(
    conversation: &IMConversation,
    cursor: &str,
    config: &PrismerConfig,
    jwt: &str,
) -> (r: Option<HttpCall>)
    ensures
        if has_unread(*conversation) {
            r matches Some(c) && c@ == request_view(
                "GET"@,
                messages_url(config.base_url@, conversation.id@, cursor@),
                jwt@,
                None,
            )
        } else {
            r is None
        },
{
    let unread = match conversation.unread_count {
        Some(n) => n > 0,
        None => false,
    };
    if !unread {
        return None;
    }
    let mut url = text3(config.base_url.as_str(), "/api/im/messages/", conversation.id.as_str());
    if !cursor.is_empty() {
        url.append("?offset=");
        url.append(cursor);
    }
    Some(api_request("GET", url.as_str(), jwt, None))
}

/// What a message of a conversation is handed on as.
pub open spec fn polled_message(c: IMConversation, m: IMMessage) -> EmittedView<
    PrismerMetadataView,
> {
    EmittedView {
        user_id: m.sender_id@,
        user_name: None,
        content: trimmed(m.content@),
        thread_id: Some(c.id@),
        metadata: PrismerMetadataView {
            conversation_id: c.id@,
            conversation_type: c.conv_type@,
            sender_id: m.sender_id@,
            sender_username: ""@,
            message_id: m.id@,
        },
    }
}

/// Whether a message is handed on: the agent did not send it, and it says something.
pub open spec fn is_handed_on(m: IMMessage, my_id: Seq<char>) -> bool {
    m.sender_id@ != my_id && trimmed(m.content@).len() > 0
}

/// The messages of a conversation that are handed on, in their order.
pub open spec fn handed_on(c: IMConversation, messages: Seq<IMMessage>, my_id: Seq<char>) -> Seq<
    EmittedView<PrismerMetadataView>,
>
    decreases messages.len(),
{
    if messages.len() == 0 {
        Seq::empty()
    } else {
        let before = handed_on(c, messages.drop_last(), my_id);
        if is_handed_on(messages.last(), my_id) {
            before.push(polled_message(c, messages.last()))
        } else {
            before
        }
    }
}

/// The offset that is kept; zero where it cannot be read.
pub open spec fn offset_of(cursor: Seq<char>) -> nat {
    match parsed(cursor, usize::MAX as nat) {
        Some(n) => n,
        None => 0,
    }
}

/// What the messages of a conversation come to.
#[derive(Debug, PartialEq, Eq)]
pub struct ConversationPoll {
    pub messages: Vec<EmittedMessage<PrismerMetadata>>,
    pub writes: Vec<WorkspaceWrite>,
    /// The request that marks the conversation as read.
    pub mark_read: HttpCall,
}

/// What is kept after some messages of a conversation were read.
pub open spec fn cursor_writes(id: Seq<char>, cursor: Seq<char>, n: nat) -> Seq<
    (Seq<char>, Seq<char>),
> {
    if n == 0 {
        Seq::empty()
    } else {
        seq![("cursor_"@ + id, decimal(offset_of(cursor) + n))]
    }
}

fn hand_on(conversation: &IMConversation, messages: &Vec<IMMessage>, my_id: &str) -> (r: Vec<
    EmittedMessage<PrismerMetadata>,
>)
    ensures
        emitted_views(r@) == handed_on(*conversation, messages@, my_id@),
{
    let mut out: Vec<EmittedMessage<PrismerMetadata>> = Vec::new();
    let mut i: usize = 0;
    assert(messages@.take(0) =~= Seq::<IMMessage>::empty());
    assert(emitted_views(out@) =~= Seq::empty());
    while i < messages.len()
        invariant
            i <= messages@.len(),
            emitted_views(out@) == handed_on(*conversation, messages@.take(i as int), my_id@),
        decreases messages@.len() - i,
    {
        let m = &messages[i];
        let ghost before = out@;
        assert(messages@.take(i + 1).drop_last() =~= messages@.take(i as int));
        assert(messages@.take(i + 1).last() == messages@[i as int]);
        let content = trim(m.content.as_str());
        if !str_eq(m.sender_id.as_str(), my_id) && !content.is_empty() {
            out.push(
                EmittedMessage {
                    user_id: m.sender_id.clone(),
                    user_name: None,
                    content: content.to_owned(),
                    thread_id: Some(conversation.id.clone()),
                    metadata: PrismerMetadata {
                        conversation_id: conversation.id.clone(),
                        conversation_type: conversation.conv_type.clone(),
                        sender_id: m.sender_id.clone(),
                        sender_username: "".to_owned(),
                        message_id: m.id.clone(),
                    },
                },
            );
            assert(emitted_views(out@) =~= emitted_views(before).push(
                polled_message(*conversation, *m),
            ));
        }
        i = i + 1;
    }
    assert(messages@.take(messages@.len() as int) =~= messages@);
    out
}

/// Takes the messages of a conversation in: those that others sent and that say
/// something are handed on, the offset goes on by the number of messages, and the
/// conversation is marked as read.
pub fn poll_conversation(
    conversation: &IMConversation,
    messages: &Vec<IMMessage>,
    my_id: Option<&str>,
    cursor: &str,
    config: &PrismerConfig,
    jwt: &str,
) -> (r: ConversationPoll)
    requires
        offset_of(cursor@) + messages@.len() <= usize::MAX,
    ensures
        emitted_views(r.messages@) == handed_on(*conversation, messages@, own_id(my_id)),
        write_views(r.writes@) == cursor_writes(conversation.id@, cursor@, messages@.len()),
        r.mark_read@ == request_view(
            "POST"@,
            config.base_url@ + "/api/im/conversations/"@ + conversation.id@ + "/read"@,
            jwt@,
            None,
        ),
{
    let me = match my_id {
        Some(s) => s,
        None => "",
    };
    let mut writes: Vec<WorkspaceWrite> = Vec::new();
    if messages.len() > 0 {
        let offset: usize = match parse_usize(cursor) {
            Some(n) => n,
            None => 0,
        };
        let key = cursor_key(conversation.id.as_str());
        let next: usize = offset + messages.len();
        writes.push(write_to(key.as_str(), usize_to_string(next).as_str()));
    }
    assert(write_views(writes@) =~= cursor_writes(conversation.id@, cursor@, messages@.len()));
    let mut url = text3(
        config.base_url.as_str(),
        "/api/im/conversations/",
        conversation.id.as_str(),
    );
    url.append("/read");
    ConversationPoll {
        messages: hand_on(conversation, messages, me),
        writes,
        mark_read: api_request("POST", url.as_str(), jwt, None),
    }
}

/// The agent does not answer itself: no message that is handed on has it as the sender.
pub proof fn own_messages_are_passed_over(c: IMConversation, messages: Seq<IMMessage>, my_id: Seq<char>)
    ensures
        forall|i: int|
            0 <= i < handed_on(c, messages, my_id).len() ==> (#[trigger] handed_on(
                c,
                messages,
                my_id,
            )[i]).user_id != my_id,
    decreases messages.len(),
{
    if messages.len() > 0 {
        own_messages_are_passed_over(c, messages.drop_last(), my_id);
        let before = handed_on(c, messages.drop_last(), my_id);
        let all = handed_on(c, messages, my_id);
        assert forall|i: int| 0 <= i < all.len() implies (#[trigger] all[i]).user_id != my_id by {
            if i < before.len() {
                assert(all[i] == before[i]);
            }
        }
    }
}

/// The offset that is kept after messages were read is read back as the old one and the
/// number of messages.
pub proof fn offset_goes_on_by_the_messages(id: Seq<char>, cursor: Seq<char>, n: nat)
    requires
        n > 0,
        offset_of(cursor) + n <= usize::MAX,
    ensures
        offset_of(cursor_writes(id, cursor, n)[0].1) == offset_of(cursor) + n,
{
    decimal_reads_back(offset_of(cursor) + n, usize::MAX as nat);
}

/// A reply, as the service is told it.
pub open spec fn reply_json(content: Seq<char>) -> JsonView {
    JsonView::Object(
        seq![("content"@, JsonView::Str(content)), ("type"@, JsonView::Str("markdown"@))],
    )
}

/// The request that sends a reply to a conversation.
pub open spec fn reply_view(
    base: Seq<char>,
    conversation_id: Seq<char>,
    content: Seq<char>,
    jwt: Seq<char>,
) -> CallView {
    request_view(
        "POST"@,
        base + "/api/im/messages/"@ + conversation_id,
        jwt,
        Some(reply_json(content)),
    )
}

/// Makes the request that sends a reply to a conversation, where there is a token.
pub fn on_respond(
    jwt: Option<&str>,
    config: &PrismerConfig,
    conversation_id: &str,
    content: &str,
) -> (r: Result<HttpCall, String>)
    ensures
        match kept_token(jwt) {
            Some(t) => r matches Ok(c) && c@ == reply_view(
                config.base_url@,
                conversation_id@,
                content@,
                t,
            ),
            None => r matches Err(e) && e@ == "No JWT token available"@,
        },
{
    let t = match jwt {
        Some(t) => t,
        None => {
            return Err("No JWT token available".to_owned());
        },
    };
    if t.is_empty() {
        return Err("No JWT token available".to_owned());
    }
    let mut v: Vec<(String, Json)> = Vec::new();
    v.push(("content".to_owned(), json_str(content)));
    v.push(("type".to_owned(), json_str("markdown")));
    assert(fields(v@) =~= reply_json(content@)->Object_0);
    Ok(
        api_request(
            "POST",
            text3(config.base_url.as_str(), "/api/im/messages/", conversation_id).as_str(),
            t,
            Some(object(v)),
        ),
    )
}

/// What became of a reply.
#[derive(Debug, PartialEq, Eq)]
pub enum ReplyStep {
    /// It was sent.
    Sent,
    /// The agent is registered anew, and the reply is sent again.
    ReRegister,
    /// It could not be sent.
    Failed(String),
}

/// Goes on after a reply was sent: a refused token is renewed, but only once.
pub fn reply_answered(reply: Result<HttpReply, String>, renewed: bool) -> (r: ReplyStep)
    ensures
        match reply {
            Err(e) => r matches ReplyStep::Failed(x) && x@ == request_failed(e@),
            Ok(x) => if x.status < 300 {
                r is Sent
            } else if renewed {
                r matches ReplyStep::Failed(e) && e@ == failed_status(
                    "Send failed after re-register (HTTP "@,
                    x.status,
                    "): "@,
                    x.body@,
                )
            } else if x.status == 401 {
                r is ReRegister
            } else {
                r matches ReplyStep::Failed(e) && e@ == failed_status(
                    "Send failed (HTTP "@,
                    x.status,
                    "): "@,
                    x.body@,
                )
            },
        },
{
    match reply {
        Err(e) => ReplyStep::Failed(text2("HTTP request failed: ", e.as_str())),
        Ok(x) => if x.status < 300 {
            ReplyStep::Sent
        } else if renewed {
            ReplyStep::Failed(
                tell_failed_status(
                    "Send failed after re-register (HTTP ",
                    x.status,
                    "): ",
                    &x.body,
                ),
            )
        } else if x.status == 401 {
            ReplyStep::ReRegister
        } else {
            ReplyStep::Failed(
                tell_failed_status("Send failed (HTTP ", x.status, "): ", &x.body),
            )
        },
    }
}

/// A message of someone else that comes in by a signed webhook is handed on, with its
/// sender as the user, its text without the white space around it, and its conversation as
/// the thread; only a blank one is not.
pub proof fn webhooks_of_others_are_handed_on(p: WebhookPayload, my_id: Seq<char>)
    requires
        p.source@ == "prismer_im"@,
        p.event@ == "message.new"@,
        p.sender.id@ != my_id,
    ensures
        webhook_result(true, Ok(p), my_id).0.status == 200,
        trimmed(p.message.content@).len() == 0 ==> webhook_result(true, Ok(p), my_id).1 is None,
        trimmed(p.message.content@).len() > 0 ==> (webhook_result(true, Ok(p), my_id).1 matches Some(
            v,
        ) && v.user_id == p.sender.id@ && v.content == trimmed(p.message.content@) && v.thread_id
            == Some(p.conversation.id@) && v.metadata.conversation_id == p.conversation.id@
            && v.metadata.message_id == p.message.id@ && v.metadata.sender_id == p.sender.id@
            && v.user_name == Some(p.sender.display_name@)),
{
}

/// A webhook that cannot be read, or is from elsewhere, is refused; and nothing is handed
/// on of one that tells of something else than a new message.
pub proof fn other_webhooks_are_not_handed_on(p: WebhookPayload, e: String, my_id: Seq<char>)
    ensures
        webhook_result(true, Err(e), my_id).0.status == 400,
        webhook_result(true, Err(e), my_id).1 is None,
        p.source@ != "prismer_im"@ ==> webhook_result(true, Ok(p), my_id).0.status == 400,
        p.source@ != "prismer_im"@ || p.event@ != "message.new"@ ==> webhook_result(
            true,
            Ok(p),
            my_id,
        ).1 is None,
{
}

/// Every message of someone else that says something is handed on, in whatever place it
/// stands, with its sender and its text, and two of them in their order.
pub proof fn messages_of_others_are_handed_on(
    c: IMConversation,
    messages: Seq<IMMessage>,
    my_id: Seq<char>,
    i: int,
    j: int,
) -> (at: (int, int))
    requires
        0 <= i <= j < messages.len(),
        messages[i].sender_id@ != my_id,
        messages[j].sender_id@ != my_id,
        trimmed(messages[i].content@).len() > 0,
        trimmed(messages[j].content@).len() > 0,
    ensures
        ({
            let all = handed_on(c, messages, my_id);
            let is = |k: int, m: IMMessage|
                0 <= k < all.len() && all[k].user_id == m.sender_id@ && all[k].content == trimmed(
                    m.content@,
                ) && all[k].thread_id == Some(c.id@) && all[k].metadata.message_id == m.id@
                    && all[k].metadata.conversation_id == c.id@;
            &&& is(at.0, messages[i])
            &&& is(at.1, messages[j])
            &&& at.0 <= at.1
            &&& i < j ==> at.0 < at.1
        }),
    decreases messages.len(),
{
    let rest = messages.drop_last();
    let before = handed_on(c, rest, my_id);
    let n = messages.len() - 1;
    if j < n {
        messages_of_others_are_handed_on(c, rest, my_id, i, j)
    } else if i < n {
        let at = messages_of_others_are_handed_on(c, rest, my_id, i, i);
        (at.0, before.len() as int)
    } else {
        (before.len() as int, before.len() as int)
    }
}

/// Nothing is handed on that is not a message of the conversation.
pub proof fn only_messages_are_handed_on(
    c: IMConversation,
    messages: Seq<IMMessage>,
    my_id: Seq<char>,
    k: int,
) -> (i: int)
    requires
        0 <= k < handed_on(c, messages, my_id).len(),
    ensures
        0 <= i < messages.len(),
        handed_on(c, messages, my_id)[k].metadata.message_id == messages[i].id@,
        handed_on(c, messages, my_id)[k].content == trimmed(messages[i].content@),
        handed_on(c, messages, my_id)[k].user_id == messages[i].sender_id@,
        handed_on(c, messages, my_id).len() <= messages.len(),
    decreases messages.len(),
{
    let rest = messages.drop_last();
    let before = handed_on(c, rest, my_id);
    if before.len() > 0 {
        let _ = only_messages_are_handed_on(c, rest, my_id, 0);
    }
    if k < before.len() {
        only_messages_are_handed_on(c, rest, my_id, k)
    } else {
        messages.len() - 1
    }
}

/// A registration succeeds exactly where it was answered with success and with data that
/// could be read, and gives the token and the identity in them.
pub proof fn registration_gives_the_token(
    reply: Result<HttpReply, String>,
    answer: Result<RegisterResult, String>,
)
    ensures
        register_outcome(reply, answer) is Ok <==> (reply matches Ok(x) && x.status < 300 && (
        answer matches Ok(a) && a.ok && (a.data matches Some(d) && d is Ok))),
        (reply matches Ok(x) && x.status < 300 && (answer matches Ok(a) && a.ok && (
        a.data matches Some(d) && d is Ok))) ==> register_outcome(reply, answer) == Ok::<
            (Seq<char>, Seq<char>),
            Seq<char>,
        >((answer->Ok_0.data->0->Ok_0.token@, answer->Ok_0.data->0->Ok_0.im_user_id@)),
{
}

/// Every request goes to its address with its method and its body, and carries the token.
pub proof fn requests_carry_the_token(
    method: Seq<char>,
    url: Seq<char>,
    token: Seq<char>,
    body: Option<JsonView>,
)
    ensures
        ({
            let r = request_view(method, url, token, body);
            &&& r.method == method
            &&& r.url == url
            &&& body matches Some(b) ==> r.body == Some(json_bytes(b))
            &&& body is None ==> r.body is None
            &&& r.headers == json_text(request_headers(token, body is Some))
            &&& request_headers(token, body is Some).get("Authorization"@) == Some(
                JsonView::Str("Bearer "@ + token),
            )
        }),
{
    reveal_with_fuel(field_of, 2);
}

/// A reply goes to its conversation and holds its text.
pub proof fn replies_hold_their_text(
    base: Seq<char>,
    conversation_id: Seq<char>,
    content: Seq<char>,
    jwt: Seq<char>,
)
    ensures
        reply_view(base, conversation_id, content, jwt).url == base + "/api/im/messages/"@
            + conversation_id,
        reply_view(base, conversation_id, content, jwt).method == "POST"@,
        reply_view(base, conversation_id, content, jwt).body == Some(
            json_bytes(reply_json(content)),
        ),
        reply_view(base, conversation_id, content, jwt).headers == json_text(
            request_headers(jwt, true),
        ),
        reply_json(content).get("content"@) == Some(JsonView::Str(content)),
        reply_json(content).get("type"@) == Some(JsonView::Str("markdown"@)),
{
    reveal_with_fuel(field_of, 3);
    reveal_strlit("content");
    reveal_strlit("type");
    assert("content"@.len() != "type"@.len());
    let f = reply_json(content)->Object_0;
    assert(f.drop_first()[0] == f[1]);
}

/// An answer is read where it tells of success; a refused token is renewed, but only once;
/// everything else ends the poll.
pub proof fn answers_are_acted_on(status: u16, renewed: bool)
    ensures
        status < 300 ==> step_after(Some(status), renewed) == PollStep::Read,
        status == 401 && !renewed ==> step_after(Some(status), renewed) == PollStep::ReRegister,
        status == 401 && renewed ==> step_after(Some(status), renewed) == PollStep::Stop,
        status >= 300 && status != 401 ==> step_after(Some(status), renewed) == PollStep::Stop,
        step_after(None, renewed) == PollStep::Stop,
{
}

/// Messages are asked for from the offset that is kept on, of conversations in which some
/// were not read.
pub proof fn unread_messages_are_asked_for(c: IMConversation, base: Seq<char>, cursor: Seq<char>)
    ensures
        c.unread_count is None ==> !has_unread(c),
        c.unread_count matches Some(n) ==> has_unread(c) == (n > 0),
        cursor.len() == 0 ==> messages_url(base, c.id@, cursor) == base + "/api/im/messages/"@
            + c.id@,
        cursor.len() > 0 ==> messages_url(base, c.id@, cursor) == base + "/api/im/messages/"@
            + c.id@ + "?offset="@ + cursor,
{
}

/// The channel is polled exactly where no request from outside reaches the host, as often
/// as is configured but not more often than is allowed.
pub proof fn polling_is_bounded(c: PrismerConfigView)
    ensures
        poll_of(c) is None <==> c.tunnel_url is Some,
        poll_of(c) matches Some(p) ==> p.enabled && p.interval_ms >= MIN_POLL_INTERVAL_MS
            && p.interval_ms >= c.poll_interval_ms && (p.interval_ms == c.poll_interval_ms
            || p.interval_ms == MIN_POLL_INTERVAL_MS),
{
}

/// The service is told what is configured of the agent.
pub proof fn registration_tells_of_the_agent(c: PrismerConfigView)
    ensures
        registration(c).get("agentType"@) == Some(JsonView::Str(c.agent_type)),
        registration(c).get("capabilities"@) == Some(strings_json(c.capabilities)),
        registration(c).get("description"@) == Some(JsonView::Str(c.description)),
        registration(c).get("displayName"@) == Some(JsonView::Str(c.display_name)),
        c.tunnel_url matches Some(t) ==> registration(c).get("endpoint"@) == Some(
            JsonView::Str(t),
        ),
        c.agent_name matches Some(n) ==> registration(c).get("username"@) == Some(
            JsonView::Str(n),
        ),
        c.agent_name is None ==> registration(c).get("username"@) == Some(
            JsonView::Str("ironclaw"@),
        ),
{
    reveal_with_fuel(field_of, 8);
    reveal_strlit("agentType");
    reveal_strlit("capabilities");
    reveal_strlit("description");
    reveal_strlit("displayName");
    reveal_strlit("endpoint");
    reveal_strlit("type");
    reveal_strlit("username");
    assert("agentType"@.len() == 9 && "capabilities"@.len() == 12 && "description"@.len() == 11
        && "displayName"@.len() == 11 && "endpoint"@.len() == 8 && "type"@.len() == 4
        && "username"@.len() == 8);
    assert("description"@[1] == 'e' && "displayName"@[1] == 'i');
    assert("endpoint"@[0] == 'e' && "username"@[0] == 'u');
    let f = registration(c)->Object_0;
    let f1 = f.drop_first();
    let f2 = f1.drop_first();
    let f3 = f2.drop_first();
    let f4 = f3.drop_first();
    let f5 = f4.drop_first();
    let f6 = f5.drop_first();
    assert(f1[0] == f[1] && f2[0] == f[2] && f3[0] == f[3] && f4[0] == f[4] && f5[0] == f[5]
        && f6[0] == f[6]);
}

/// The offset is kept exactly where messages were read.
pub proof fn offset_is_kept_for_its_conversation(id: Seq<char>, cursor: Seq<char>, n: nat)
    ensures
        n == 0 ==> cursor_writes(id, cursor, n).len() == 0,
        n > 0 ==> cursor_writes(id, cursor, n).len() == 1 && cursor_writes(id, cursor, n)[0].0
            == "cursor_"@ + id,
{
}

} // verus!

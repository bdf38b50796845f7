//! Discord: interactions that come in, and what is sent out.

use vstd::prelude::*;
use vstd::utf8::valid_utf8;

use crate::channels::discord::{
    build_discord_reply_plan, channel_url, cut_short, embeds_from_metadata_json, embeds_of,
    err_text, reply_plan, response_route_for_metadata, route_of, sent, truncate_message,
    typing_request_url_for_update, typing_url, DiscordHttpRequest, DiscordMessageMetadata,
    DiscordReplyPlan, DiscordResponseRoute, MetadataView, PlanView, RequestView, RouteView,
    DISCORD_API_BASE,
};
use crate::channels::discord_access::{
    check_sender_permission, emit_gateway_message, gateway_metadata, permission, GatewayMessageView,
    PairingReplyCtx, ParsedGatewayMessage, Permission, PermissionSource, PermissionState,
    PermissionView,
};
use crate::channels::host::{
    error_response, json_bytes, json_content_type, json_headers, json_out, json_response,
    render_bytes, text2, text3, utf8_text, AgentResponse, CallView, EmittedMessage, EmittedView,
    HttpCall, HttpReply, OutgoingHttpResponse, ResponseView, StatusType, failed_status,
    is_success, tell_failed_status,
};
use crate::executor::calls::object;
use crate::json::{
    field_of, fields, json_parsed, json_str, json_text, one_field, render, Json, JsonView,
};
use crate::number::{all_digits, ascii_digit};
use crate::text::{
    chars_of, join, joined, occurs_at, parts_stand_in_their_order, start_of, starts_go_up, texts,
};
use crate::types::event::opt_value;

verus! {

/// A user.
#[derive(Debug, PartialEq, Eq)]
pub struct DiscordUser {
    pub id: String,
    pub username: String,
    pub global_name: Option<String>,
}

/// A user as a member of a server.
#[derive(Debug, PartialEq, Eq)]
pub struct DiscordMember {
    pub user: DiscordUser,
    pub nick: Option<String>,
}

/// An option of a command.
#[derive(Debug, PartialEq, Eq)]
pub struct DiscordCommandOption {
    pub name: String,
    pub value: Json,
}

/// A command.
#[derive(Debug, PartialEq, Eq)]
pub struct DiscordCommandData {
    pub id: String,
    pub name: String,
    pub options: Option<Vec<DiscordCommandOption>>,
}

/// A message.
#[derive(Debug, PartialEq, Eq)]
pub struct DiscordMessage {
    pub id: String,
    pub content: String,
    pub channel_id: String,
    pub author: DiscordUser,
}

/// An interaction.
#[derive(Debug, PartialEq, Eq)]
pub struct DiscordInteraction {
    /// 1 is a ping, 2 a command, 3 a component of a message.
    pub interaction_type: u8,
    pub id: String,
    pub application_id: String,
    pub guild_id: Option<String>,
    pub channel_id: Option<String>,
    /// The sender, in a server.
    pub member: Option<DiscordMember>,
    /// The sender, in a direct message.
    pub user: Option<DiscordUser>,
    pub data: Option<DiscordCommandData>,
    pub message: Option<DiscordMessage>,
    pub token: String,
}

/// Who sent an interaction.
pub open spec fn sender_of(i: DiscordInteraction) -> Option<DiscordUser> {
    match i.member {
        Some(m) => Some(m.user),
        None => i.user,
    }
}

/// The identity of the sender, empty where there is none.
pub open spec fn sender_id(i: DiscordInteraction) -> Seq<char> {
    match sender_of(i) {
        Some(u) => u.id@,
        None => Seq::empty(),
    }
}

/// The name of the sender, empty where there is none.
pub open spec fn sender_name(i: DiscordInteraction) -> Seq<char> {
    match sender_of(i) {
        Some(u) => match u.global_name {
            Some(n) if n@.len() > 0 => n@,
            _ => u.username@,
        },
        None => Seq::empty(),
    }
}

fn find_sender(i: &DiscordInteraction) -> (r: (String, String))
    ensures
        r.0@ == sender_id(*i),
        r.1@ == sender_name(*i),
{
    let user = match &i.member {
        Some(m) => Some(&m.user),
        None => match &i.user {
            Some(u) => Some(u),
            None => None,
        },
    };
    match user {
        Some(u) => {
            let name = match &u.global_name {
                Some(n) => if n.as_str().is_empty() {
                    u.username.clone()
                } else {
                    n.clone()
                },
                None => u.username.clone(),
            };
            (u.id.clone(), name)
        },
        None => (String::new(), String::new()),
    }
}

/// The channel of an interaction, empty where it is not known.
pub open spec fn channel_of(i: DiscordInteraction) -> Seq<char> {
    match i.channel_id {
        Some(c) => c@,
        None => Seq::empty(),
    }
}

/// An option of a command, as the agent is told.
pub open spec fn option_text(o: DiscordCommandOption) -> Seq<char> {
    o.name@ + ": "@ + json_text(o.value@)
}

/// A command, as the agent is told.
pub open spec fn command_text(data: Option<DiscordCommandData>) -> Seq<char> {
    match data {
        Some(d) => match d.options {
            Some(v) => "/"@ + d.name@ + " "@ + joined(
                v@.map_values(|o: DiscordCommandOption| option_text(o)),
                ", "@,
            ),
            None => "/"@ + d.name@,
        },
        None => "/"@,
    }
}

fn tell_options(v: &Vec<DiscordCommandOption>) -> (r: String)
    ensures
        r@ == joined(v@.map_values(|o: DiscordCommandOption| option_text(o)), ", "@),
{
    let ghost all = v@.map_values(|o: DiscordCommandOption| option_text(o));
    let mut parts: Vec<String> = Vec::new();
    let mut i: usize = 0;
    assert(texts(parts@) =~= all.take(0));
    while i < v.len()
        invariant
            i <= v@.len(),
            all == v@.map_values(|o: DiscordCommandOption| option_text(o)),
            texts(parts@) == all.take(i as int),
        decreases v@.len() - i,
    {
        let ghost before = parts@;
        let mut s = text2(v[i].name.as_str(), ": ");
        s.append(render(&v[i].value).as_str());
        parts.push(s);
        assert(texts(parts@) =~= texts(before).push(all[i as int]));
        assert(all.take(i + 1) =~= all.take(i as int).push(all[i as int]));
        i = i + 1;
    }
    assert(all.take(all.len() as int) =~= all);
    join(&parts, ", ")
}

fn tell_command(data: &Option<DiscordCommandData>) -> (r: String)
    ensures
        r@ == command_text(*data),
{
    match data {
        Some(d) => {
            let mut s = text2("/", d.name.as_str());
            if let Some(v) = &d.options {
                s.append(" ");
                s.append(tell_options(v).as_str());
            }
            s
        },
        None => "/".to_owned(),
    }
}

/// The metadata of a message that came from an interaction.
pub open spec fn interaction_metadata(i: DiscordInteraction, channel: Seq<char>) -> MetadataView {
    MetadataView {
        channel_id: channel,
        interaction_id: i.id@,
        token: i.token@,
        application_id: i.application_id@,
        source_message_id: None,
        thread_id: None,
    }
}

fn make_metadata(i: &DiscordInteraction, channel: &str) -> (r: DiscordMessageMetadata)
    ensures
        r@ == interaction_metadata(*i, channel@),
{
    DiscordMessageMetadata {
        channel_id: channel.to_owned(),
        interaction_id: i.id.clone(),
        token: i.token.clone(),
        application_id: i.application_id.clone(),
        source_message_id: None,
        thread_id: None,
    }
}

/// A pairing request that is to be made, with where its code is sent, if anywhere.
#[derive(Debug, PartialEq, Eq)]
pub struct PairingRequest {
    pub user_id: String,
    pub meta: String,
    pub reply: Option<PairingReplyCtx>,
}

/// What a pairing request holds.
pub struct PairingView {
    pub user_id: Seq<char>,
    pub meta: Seq<char>,
    pub reply: Option<(Seq<char>, Seq<char>, Seq<char>)>,
}

impl View for PairingRequest {
    type V = PairingView;

    open spec fn view(&self) -> PairingView {
        PairingView {
            user_id: self.user_id@,
            meta: self.meta@,
            reply: match self.reply {
                Some(c) => Some((c.channel_id@, c.application_id@, c.token@)),
                None => None,
            },
        }
    }
}

/// What is done with an interaction beside the response to it.
#[derive(Debug, PartialEq, Eq)]
pub enum Intake {
    /// Nothing.
    Ignore,
    /// The agent gets a message.
    Emit(EmittedMessage<DiscordMessageMetadata>),
    /// The sender gets a pairing code.
    Pair(PairingRequest),
}

/// What an intake holds.
pub enum IntakeView {
    Ignore,
    Emit(EmittedView<MetadataView>),
    Pair(PairingView),
}

impl View for Intake {
    type V = IntakeView;

    open spec fn view(&self) -> IntakeView {
        match self {
            Intake::Ignore => IntakeView::Ignore,
            Intake::Emit(m) => IntakeView::Emit(m@),
            Intake::Pair(p) => IntakeView::Pair(p@),
        }
    }
}

/// What is done with a command: the agent gets it where the sender is allowed.
pub open spec fn command_intake(i: DiscordInteraction, s: PermissionState) -> IntakeView {
    match permission(s, sender_id(i), Some(sender_name(i)), i.member is None) {
        PermissionView::Allowed => IntakeView::Emit(
            EmittedView {
                user_id: sender_id(i),
                user_name: Some(sender_name(i)),
                content: command_text(i.data),
                thread_id: None,
                metadata: interaction_metadata(i, channel_of(i)),
            },
        ),
        PermissionView::Denied => IntakeView::Ignore,
        PermissionView::Pairing(meta) => IntakeView::Pair(
            PairingView {
                user_id: sender_id(i),
                meta,
                reply: Some((channel_of(i), i.application_id@, i.token@)),
            },
        ),
    }
}

/// What is done with a component of a message: the agent is told of it where the sender
/// is allowed.
pub open spec fn component_intake(i: DiscordInteraction, m: DiscordMessage, s: PermissionState) -> IntakeView {
    match permission(s, sender_id(i), Some(sender_name(i)), i.member is None) {
        PermissionView::Allowed => IntakeView::Emit(
            EmittedView {
                user_id: sender_id(i),
                user_name: Some(sender_name(i)),
                content: "[Button clicked] "@ + m.content@,
                thread_id: None,
                metadata: interaction_metadata(i, m.channel_id@),
            },
        ),
        PermissionView::Denied => IntakeView::Ignore,
        PermissionView::Pairing(meta) => IntakeView::Pair(
            PairingView { user_id: sender_id(i), meta, reply: None },
        ),
    }
}

/// Takes a command in.
pub fn handle_slash_command(i: &DiscordInteraction, state: &PermissionState) -> (r: Intake)
    ensures
        r@ == command_intake(*i, *state),
{
    let (user_id, user_name) = find_sender(i);
    let channel = match &i.channel_id {
        Some(c) => c.clone(),
        None => String::new(),
    };
    let is_dm = i.member.is_none();
    match check_sender_permission(
        state,
        user_id.as_str(),
        Some(user_name.as_str()),
        is_dm,
        PermissionSource::Webhook,
    ) {
        Permission::Allowed => Intake::Emit(
            EmittedMessage {
                user_id,
                user_name: Some(user_name),
                content: tell_command(&i.data),
                thread_id: None,
                metadata: make_metadata(i, channel.as_str()),
            },
        ),
        Permission::Denied => Intake::Ignore,
        Permission::Pairing(meta) => Intake::Pair(
            PairingRequest {
                user_id,
                meta,
                reply: Some(
                    PairingReplyCtx {
                        channel_id: channel,
                        application_id: i.application_id.clone(),
                        token: i.token.clone(),
                    },
                ),
            },
        ),
    }
}

/// Takes a component of a message in.
pub fn handle_message_component(
    i: &DiscordInteraction,
    message: &DiscordMessage,
    state: &PermissionState,
) -> (r: Intake)
    ensures
        r@ == component_intake(*i, *message, *state),
{
    let (user_id, user_name) = find_sender(i);
    let is_dm = i.member.is_none();
    match check_sender_permission(
        state,
        user_id.as_str(),
        Some(user_name.as_str()),
        is_dm,
        PermissionSource::Webhook,
    ) {
        Permission::Allowed => Intake::Emit(
            EmittedMessage {
                user_id,
                user_name: Some(user_name),
                content: text2("[Button clicked] ", message.content.as_str()),
                thread_id: None,
                metadata: make_metadata(i, message.channel_id.as_str()),
            },
        ),
        Permission::Denied => Intake::Ignore,
        Permission::Pairing(meta) => Intake::Pair(PairingRequest { user_id, meta, reply: None }),
    }
}

/// A response of a type to an interaction.
pub open spec fn typed_json(n: u64) -> JsonView {
    JsonView::Object(seq![("type"@, JsonView::Uint(n))])
}

/// The response to a sender who is not allowed: only the sender sees it.
pub open spec fn refusal_json() -> JsonView {
    JsonView::Object(
        seq![
            (
                "data"@,
                JsonView::Object(
                    seq![
                        (
                            "content"@,
                            JsonView::Str("You are not authorized to use this bot."@),
                        ),
                        ("flags"@, JsonView::Uint(64)),
                    ],
                ),
            ),
            ("type"@, JsonView::Uint(4)),
        ],
    )
}

fn refusal() -> (r: Json)
    ensures
        r@ == refusal_json(),
{
    let mut d: Vec<(String, Json)> = Vec::new();
    d.push(("content".to_owned(), json_str("You are not authorized to use this bot.")));
    d.push(("flags".to_owned(), Json::Uint(64)));
    assert(fields(d@) =~= refusal_json()->Object_0[0].1->Object_0);
    let mut v: Vec<(String, Json)> = Vec::new();
    v.push(("data".to_owned(), object(d)));
    v.push(("type".to_owned(), Json::Uint(4)));
    assert(fields(v@) =~= refusal_json()->Object_0);
    object(v)
}

/// The response to a request, and what is done beside it. `interaction` is the body of
/// the request, where it could be read.
pub open spec fn http_result(
    body: Seq<u8>,
    interaction: Option<DiscordInteraction>,
    s: PermissionState,
) -> (ResponseView, IntakeView) {
    if !valid_utf8(body) {
        (
            json_out(
                400,
                JsonView::Object(seq![("error"@, JsonView::Str("Invalid UTF-8 body"@))]),
            ),
            IntakeView::Ignore,
        )
    } else {
        match interaction {
            None => (
                json_out(
                    400,
                    JsonView::Object(seq![("error"@, JsonView::Str("Invalid interaction"@))]),
                ),
                IntakeView::Ignore,
            ),
            Some(i) => if i.interaction_type == 1 {
                (json_out(200, typed_json(1)), IntakeView::Ignore)
            } else if i.interaction_type == 2 {
                let x = command_intake(i, s);
                (
                    json_out(
                        200,
                        if x is Emit {
                            typed_json(5)
                        } else {
                            refusal_json()
                        },
                    ),
                    x,
                )
            } else if i.interaction_type == 3 {
                (
                    json_out(200, typed_json(6)),
                    match i.message {
                        Some(m) => component_intake(i, m, s),
                        None => IntakeView::Ignore,
                    },
                )
            } else {
                (json_out(200, typed_json(6)), IntakeView::Ignore)
            },
        }
    }
}

/// Answers a request of Discord: a ping at once, a command with a deferred reply where
/// its sender is allowed, and a component with an acknowledgement.
pub fn on_http_request(
    body: &Vec<u8>,
    interaction: Option<&DiscordInteraction>,
    state: &PermissionState,
) -> (r: (OutgoingHttpResponse, Intake))
    ensures
        ({
            let x = http_result(
                body@,
                match interaction {
                    Some(i) => Some(*i),
                    None => None,
                },
                *state,
            );
            r.0@ == x.0 && r.1@ == x.1
        }),
{
    if utf8_text(body).is_none() {
        return (error_response(400, "Invalid UTF-8 body"), Intake::Ignore);
    }
    let i = match interaction {
        Some(i) => i,
        None => {
            return (error_response(400, "Invalid interaction"), Intake::Ignore);
        },
    };
    if i.interaction_type == 1 {
        (json_response(200, one_field("type", Json::Uint(1))), Intake::Ignore)
    } else if i.interaction_type == 2 {
        let x = handle_slash_command(i, state);
        let taken = match &x {
            Intake::Emit(_) => true,
            _ => false,
        };
        if taken {
            (json_response(200, one_field("type", Json::Uint(5))), x)
        } else {
            (json_response(200, refusal()), x)
        }
    } else if i.interaction_type == 3 {
        let x = match &i.message {
            Some(m) => handle_message_component(i, m, state),
            None => Intake::Ignore,
        };
        (json_response(200, one_field("type", Json::Uint(6))), x)
    } else {
        (json_response(200, one_field("type", Json::Uint(6))), Intake::Ignore)
    }
}

/// What is done with a message of the gateway.
pub open spec fn gateway_intake(m: GatewayMessageView, s: PermissionState) -> IntakeView {
    match permission(s, m.user_id, Some(m.user_name), m.is_dm) {
        PermissionView::Allowed => IntakeView::Emit(
            EmittedView {
                user_id: m.user_id,
                user_name: Some(m.user_name),
                content: m.content,
                thread_id: None,
                metadata: gateway_metadata(m.channel_id),
            },
        ),
        PermissionView::Denied => IntakeView::Ignore,
        PermissionView::Pairing(meta) => IntakeView::Pair(
            PairingView {
                user_id: m.user_id,
                meta,
                reply: Some((m.channel_id, Seq::empty(), Seq::empty())),
            },
        ),
    }
}

/// Takes a message of the gateway in.
pub fn take_gateway_message(m: ParsedGatewayMessage, state: &PermissionState) -> (r: Intake)
    ensures
        r@ == gateway_intake(m@, *state),
{
    match check_sender_permission(
        state,
        m.user_id.as_str(),
        Some(m.user_name.as_str()),
        m.is_dm,
        PermissionSource::Gateway,
    ) {
        Permission::Allowed => Intake::Emit(emit_gateway_message(m)),
        Permission::Denied => Intake::Ignore,
        Permission::Pairing(meta) => Intake::Pair(
            PairingRequest {
                user_id: m.user_id,
                meta,
                reply: Some(
                    PairingReplyCtx {
                        channel_id: m.channel_id,
                        application_id: String::new(),
                        token: String::new(),
                    },
                ),
            },
        ),
    }
}

/// The headers of a request: with the type of its body, where it has one.
pub open spec fn auth_headers(include_content_type: bool) -> JsonView {
    if include_content_type {
        json_content_type()
    } else {
        JsonView::Object(Seq::empty())
    }
}

/// Writes the headers of a request. The host adds the credentials.
pub fn discord_auth_headers_json(include_content_type: bool) -> (r: String)
    ensures
        r@ == json_text(auth_headers(include_content_type)),
{
    if include_content_type {
        json_headers()
    } else {
        let v: Vec<(String, Json)> = Vec::new();
        assert(fields(v@) =~= Seq::empty());
        render(&object(v))
    }
}

/// The payload of a reply to a message that was found by polling: Discord shows it as a
/// reply to that message.
pub open spec fn mention_reply_json(
    content: Seq<char>,
    source: Seq<char>,
    embeds: Option<JsonView>,
) -> JsonView {
    let head = seq![
        (
            "allowed_mentions"@,
            JsonView::Object(seq![("replied_user"@, JsonView::Bool(true))]),
        ),
        ("content"@, JsonView::Str(content)),
    ];
    let tail = seq![
        ("message_reference"@, JsonView::Object(seq![("message_id"@, JsonView::Str(source))])),
    ];
    match embeds {
        Some(e) => JsonView::Object(head + seq![("embeds"@, e)] + tail),
        None => JsonView::Object(head + tail),
    }
}

fn make_mention_reply(content: &str, source: &str, embeds: Option<Json>) -> (r: Json)
    ensures
        r@ == mention_reply_json(content@, source@, opt_value(embeds)),
{
    let ghost e = opt_value(embeds);
    let mut v: Vec<(String, Json)> = Vec::new();
    v.push(("allowed_mentions".to_owned(), one_field("replied_user", Json::Bool(true))));
    v.push(("content".to_owned(), json_str(content)));
    if let Some(x) = embeds {
        v.push(("embeds".to_owned(), x));
    }
    v.push(("message_reference".to_owned(), one_field("message_id", json_str(source))));
    assert(fields(v@) =~= mention_reply_json(content@, source@, e)->Object_0);
    object(v)
}

/// What is sent as a reply, where, and how.
#[derive(Debug, PartialEq, Eq)]
pub struct ResponsePlan {
    pub method: String,
    pub url: String,
    pub plan: DiscordReplyPlan,
}

/// What a reply needs to be sent.
pub open spec fn response_plan(
    m: MetadataView,
    content: Seq<char>,
    embeds: Option<JsonView>,
    boundary: Seq<char>,
) -> (Seq<char>, Seq<char>, PlanView) {
    match (m.source_message_id, route_of(m)) {
        (Some(source), RouteView::ChannelMessage(url)) => (
            "POST"@,
            url,
            PlanView::Inline(
                RequestView {
                    headers: json_text(json_content_type()),
                    body: json_bytes(mention_reply_json(cut_short(content), source, embeds)),
                },
            ),
        ),
        (_, RouteView::ChannelMessage(url)) => (
            "POST"@,
            url,
            reply_plan(content, embeds, boundary),
        ),
        (_, RouteView::InteractionWebhook(url)) => (
            "PATCH"@,
            url,
            reply_plan(content, embeds, boundary),
        ),
    }
}

/// Plans a reply of the agent: as a reply to the message, where it was found by polling,
/// and cut short then; otherwise by the route of the message.
pub fn on_respond(metadata: &DiscordMessageMetadata, response: &AgentResponse, boundary: &str) -> (r:
    ResponsePlan)
    ensures
        ({
            let x = response_plan(
                metadata@,
                response.content@,
                embeds_of(json_parsed(response.metadata_json@)),
                boundary@,
            );
            r.method@ == x.0 && r.url@ == x.1 && r.plan@ == x.2
        }),
{
    let route = response_route_for_metadata(metadata);
    match route {
        DiscordResponseRoute::ChannelMessage(url) => {
            if let Some(source) = &metadata.source_message_id {
                let embeds = embeds_from_metadata_json(response.metadata_json.as_str());
                let content = truncate_message(response.content.as_str());
                let payload = make_mention_reply(content.as_str(), source.as_str(), embeds);
                return ResponsePlan {
                    method: "POST".to_owned(),
                    url,
                    plan: DiscordReplyPlan::Inline(
                        DiscordHttpRequest {
                            headers_json: discord_auth_headers_json(true),
                            body: render_bytes(&payload),
                        },
                    ),
                };
            }
            ResponsePlan {
                method: "POST".to_owned(),
                url,
                plan: build_discord_reply_plan(response, boundary),
            }
        },
        DiscordResponseRoute::InteractionWebhook(url) => ResponsePlan {
            method: "PATCH".to_owned(),
            url,
            plan: build_discord_reply_plan(response, boundary),
        },
    }
}

/// What came of a file upload and of the reply that was sent in its place.
pub fn fallback_result(upload_error: &str, fallback: Result<(), String>) -> (r: Result<(), String>)
    ensures
        err_text(r) == match fallback {
            Ok(_) => Ok(()),
            Err(e) => Err(
                "Discord attachment upload failed: "@ + upload_error@ + "; fallback also failed: "@
                    + e@,
            ),
        },
{
    match fallback {
        Ok(_) => Ok(()),
        Err(e) => {
            let mut s = text3(
                "Discord attachment upload failed: ",
                upload_error,
                "; fallback also failed: ",
            );
            s.append(e.as_str());
            Err(s)
        },
    }
}

/// Makes the request that shows the bot as typing, where one is due.
pub fn on_status(status: StatusType, metadata: Option<&DiscordMessageMetadata>) -> (r: Option<
    HttpCall,
>)
    ensures
        ({
            let url = typing_url(
                status,
                match metadata {
                    Some(m) => Some(m@),
                    None => None,
                },
            );
            match r {
                Some(c) => url is Some && c@ == (CallView {
                    method: "POST"@,
                    url: url->0,
                    headers: json_text(json_content_type()),
                    body: None,
                    timeout_ms: None,
                }),
                None => url is None,
            }
        }),
{
    match typing_request_url_for_update(status, metadata) {
        Some(url) => Some(
            HttpCall {
                method: "POST".to_owned(),
                url,
                headers_json: json_headers(),
                body: None,
                timeout_ms: None,
            },
        ),
        None => None,
    }
}

/// Whether a text can be the identity of a user: 17 to 20 digits.
pub open spec fn plausible_id(id: Seq<char>) -> bool {
    all_digits(id) && 17 <= id.len() <= 20
}

/// Makes the request that opens a channel for direct messages with a user. The identity
/// is checked first, so that nothing else is put into the request.
pub fn open_dm_channel(user_id: &str) -> (r: Result<HttpCall, String>)
    ensures
        if plausible_id(user_id@) {
            r matches Ok(c) && c@ == (CallView {
                method: "POST"@,
                url: DISCORD_API_BASE@ + "/users/@me/channels"@,
                headers: json_text(json_content_type()),
                body: Some(
                    json_bytes(
                        JsonView::Object(seq![("recipient_id"@, JsonView::Str(user_id@))]),
                    ),
                ),
                timeout_ms: Some(10_000),
            })
        } else {
            r matches Err(e) && e@ == "Invalid Discord user ID: '"@ + user_id@ + "'"@
        },
{
    let chars = chars_of(user_id);
    let mut digits = true;
    let mut i: usize = 0;
    while i < chars.len()
        invariant
            i <= chars@.len(),
            chars@ == user_id@,
            digits == all_digits(user_id@.take(i as int)),
        decreases chars@.len() - i,
    {
        let ghost t = user_id@.take(i as int);
        assert(user_id@.take(i + 1) =~= t.push(chars@[i as int]));
        assert(user_id@.take(i + 1)[i as int] == chars@[i as int]);
        assert(all_digits(user_id@.take(i + 1)) == (all_digits(t) && '0' <= chars@[i as int]
            <= '9')) by {
            let u = user_id@.take(i + 1);
            if all_digits(u) {
                assert forall|k: int| 0 <= k < t.len() implies ascii_digit(
                    #[trigger] t[k],
                ) by {
                    assert(u[k] == t[k]);
                }
                assert(ascii_digit(u[i as int]));
            }
            if all_digits(t) && '0' <= chars@[i as int] <= '9' {
                assert forall|k: int| 0 <= k < u.len() implies ascii_digit(
                    #[trigger] u[k],
                ) by {
                    if k < i {
                        assert(u[k] == t[k]);
                    }
                }
            }
        }
        if !('0' <= chars[i] && chars[i] <= '9') {
            digits = false;
        }
        i = i + 1;
    }
    assert(user_id@.take(user_id@.len() as int) =~= user_id@);
    if !digits || chars.len() < 17 || chars.len() > 20 {
        return Err(text3("Invalid Discord user ID: '", user_id, "'"));
    }
    Ok(
        HttpCall {
            method: "POST".to_owned(),
            url: text2(DISCORD_API_BASE, "/users/@me/channels"),
            headers_json: discord_auth_headers_json(true),
            body: Some(render_bytes(&one_field("recipient_id", json_str(user_id)))),
            timeout_ms: Some(10_000),
        },
    )
}

/// Takes the answer to the request for a channel in: the body of the answer, or how it
/// failed.
pub fn dm_channel_opened(reply: Result<HttpReply, String>) -> (r: Result<Vec<u8>, String>)
    ensures
        match reply {
            Ok(x) => if is_success(x.status) {
                r matches Ok(b) && b@ == x.body@
            } else {
                r matches Err(e) && e@ == failed_status(
                    "Discord create-DM failed: "@,
                    x.status,
                    " - "@,
                    x.body@,
                )
            },
            Err(why) => r matches Err(e) && e@ == "Failed to create DM channel: "@ + why@,
        },
{
    match reply {
        Ok(x) => if x.status >= 200 && x.status < 300 {
            Ok(x.body)
        } else {
            Err(tell_failed_status("Discord create-DM failed: ", x.status, " - ", &x.body))
        },
        Err(why) => Err(text2("Failed to create DM channel: ", why.as_str())),
    }
}

/// Makes the request that sends a direct message, cut short where it is too long.
pub fn broadcast_dm(channel_id: &str, content: &str) -> (r: HttpCall)
    ensures
        r@ == (CallView {
            method: "POST"@,
            url: channel_url(channel_id@),
            headers: json_text(json_content_type()),
            body: Some(
                json_bytes(
                    JsonView::Object(seq![("content"@, JsonView::Str(cut_short(content@)))]),
                ),
            ),
            timeout_ms: None,
        }),
{
    let mut url = text3(DISCORD_API_BASE, "/channels/", channel_id);
    url.append("/messages");
    let short = truncate_message(content);
    HttpCall {
        method: "POST".to_owned(),
        url,
        headers_json: discord_auth_headers_json(true),
        body: Some(render_bytes(&one_field("content", json_str(short.as_str())))),
        timeout_ms: None,
    }
}

/// A command of a member is handed on where no owner is set or the member is the owner:
/// with the member as its user, the command as its text, and what a reply needs.
pub proof fn commands_are_handed_on(i: DiscordInteraction, s: PermissionState, m: DiscordMember)
    requires
        i.interaction_type == 2,
        i.member == Some(m),
        s.owner_id matches Some(o) ==> o@.len() == 0 || o@ == m.user.id@,
    ensures
        command_intake(i, s) matches IntakeView::Emit(v) && v.user_id == m.user.id@ && v.content
            == command_text(i.data) && v.metadata.interaction_id == i.id@ && v.metadata.token
            == i.token@ && v.metadata.application_id == i.application_id@ && (
        i.channel_id matches Some(c) ==> v.metadata.channel_id == c@) && (
        m.user.global_name matches Some(n) ==> n@.len() > 0 ==> v.user_name == Some(n@)) && (
        m.user.global_name is None ==> v.user_name == Some(m.user.username@)),
{
}

/// Who is not the owner gets no command through to a bot that has one, and is told so.
pub proof fn commands_of_others_are_refused(
    body: Seq<u8>,
    i: DiscordInteraction,
    s: PermissionState,
    owner: String,
)
    requires
        valid_utf8(body),
        i.interaction_type == 2,
        s.owner_id == Some(owner),
        owner@.len() > 0,
        match i.member {
            Some(m) => m.user.id@ != owner@,
            None => (i.user matches Some(u) ==> u.id@ != owner@) && (i.user is None ==> owner@.len()
                > 0),
        },
    ensures
        http_result(body, Some(i), s).1 is Ignore,
        http_result(body, Some(i), s).0 == json_out(200, refusal_json()),
{
}

/// A request is answered by what it is: a ping with a ping, a command that is handed on
/// with the word that an answer will come, a component with an acknowledgement; and what
/// cannot be read is refused.
pub proof fn requests_are_answered(
    body: Seq<u8>,
    i: DiscordInteraction,
    s: PermissionState,
)
    ensures
        !valid_utf8(body) ==> http_result(body, Some(i), s).0.status == 400 && http_result(
            body,
            Some(i),
            s,
        ).1 is Ignore,
        valid_utf8(body) ==> http_result(body, None, s).0.status == 400 && http_result(
            body,
            None,
            s,
        ).1 is Ignore,
        valid_utf8(body) && i.interaction_type == 1 ==> http_result(body, Some(i), s) == (
            json_out(200, JsonView::Object(seq![("type"@, JsonView::Uint(1))])),
            IntakeView::Ignore,
        ),
        valid_utf8(body) && i.interaction_type == 2 ==> http_result(body, Some(i), s).1
            == command_intake(i, s),
        valid_utf8(body) && i.interaction_type == 2 && command_intake(i, s) is Emit ==> http_result(
            body,
            Some(i),
            s,
        ).0 == json_out(200, JsonView::Object(seq![("type"@, JsonView::Uint(5))])),
        valid_utf8(body) && i.interaction_type == 3 ==> (i.message matches Some(m) ==> http_result(
            body,
            Some(i),
            s,
        ).1 == component_intake(i, m, s)),
        valid_utf8(body) && i.interaction_type > 3 ==> http_result(body, Some(i), s).1 is Ignore,
{
}

/// The agent is told the name of a command and every option of it with its value, in
/// their order.
pub proof fn options_of_commands_are_told(
    data: DiscordCommandData,
    v: Vec<DiscordCommandOption>,
    k: int,
    l: int,
) -> (at: (int, int))
    requires
        data.options == Some(v),
        0 <= k <= l < v@.len(),
    ensures
        ({
            let t = command_text(Some(data));
            let shown = |o: DiscordCommandOption| o.name@ + ": "@ + json_text(o.value@);
            &&& occurs_at(t, "/"@ + data.name@ + " "@, 0)
            &&& occurs_at(t, shown(v@[k]), at.0)
            &&& occurs_at(t, shown(v@[l]), at.1)
            &&& k < l ==> at.0 + shown(v@[k]).len() <= at.1
        }),
{
    let head = "/"@ + data.name@ + " "@;
    let parts = v@.map_values(|o: DiscordCommandOption| option_text(o));
    let rest = joined(parts, ", "@);
    let t = command_text(Some(data));
    assert(t == head + rest);
    assert(t.subrange(0, head.len() as int) =~= head);
    parts_stand_in_their_order(parts, ", "@, k);
    parts_stand_in_their_order(parts, ", "@, l);
    let a = start_of(parts, ", "@, k);
    let b = start_of(parts, ", "@, l);
    if k < l {
        starts_go_up(parts, ", "@, k, l);
    }
    let h = head.len() as int;
    assert(t.subrange(h + a, h + a + parts[k].len()) =~= rest.subrange(a, a + parts[k].len()));
    assert(t.subrange(h + b, h + b + parts[l].len()) =~= rest.subrange(b, b + parts[l].len()));
    (h + a, h + b)
}

/// A command without options is told by its name.
pub proof fn commands_are_told_by_their_name(data: DiscordCommandData)
    requires
        data.options is None,
    ensures
        command_text(Some(data)) == "/"@ + data.name@,
{
}

/// A component that someone uses in a server is told to the agent with the text of its
/// message, where no owner is set or the owner uses it.
pub proof fn components_are_told(
    i: DiscordInteraction,
    m: DiscordMessage,
    s: PermissionState,
    who: DiscordMember,
)
    requires
        i.member == Some(who),
        s.owner_id matches Some(o) ==> o@.len() == 0 || o@ == who.user.id@,
    ensures
        component_intake(i, m, s) matches IntakeView::Emit(v) && v.user_id == who.user.id@
            && v.content == "[Button clicked] "@ + m.content@ && v.metadata.channel_id
            == m.channel_id@ && v.metadata.token == i.token@,
{
}

/// A message of the gateway is handed on as it was told, where its sender is allowed: in a
/// channel everyone is where no owner is set.
pub proof fn gateway_messages_are_handed_on(m: GatewayMessageView, s: PermissionState)
    requires
        !m.is_dm,
        s.owner_id matches Some(o) ==> o@.len() == 0 || o@ == m.user_id,
    ensures
        gateway_intake(m, s) matches IntakeView::Emit(v) && v.user_id == m.user_id && v.content
            == m.content && v.user_name == Some(m.user_name) && v.metadata.channel_id
            == m.channel_id,
{
}

/// What is said by a sender who must pair first is kept from the agent; the sender gets a
/// pairing code where the message came from.
pub proof fn who_must_pair_is_told_so(m: GatewayMessageView, s: PermissionState)
    requires
        m.is_dm,
        s.owner_id is None,
        s.dm_policy is None,
        s.allow_from is None,
        s.paired is None,
    ensures
        gateway_intake(m, s) matches IntakeView::Pair(p) && p.user_id == m.user_id && (
        p.reply matches Some(r) && r.0 == m.channel_id),
{
    reveal_strlit("open");
    reveal_strlit("pairing");
    assert("open"@.len() != "pairing"@.len());
}

/// A reply to a message that was found by polling is shown as a reply to it, in its
/// channel, with the text cut where it is too long.
pub proof fn mentions_are_replied_to(
    m: MetadataView,
    source: Seq<char>,
    content: Seq<char>,
    embeds: Option<JsonView>,
    boundary: Seq<char>,
)
    requires
        m.source_message_id == Some(source),
        m.token.len() == 0,
    ensures
        ({
            let r = response_plan(m, content, embeds, boundary);
            &&& r.0 == "POST"@
            &&& r.1 == DISCORD_API_BASE@ + "/channels/"@ + m.channel_id + "/messages"@
            &&& r.2 matches PlanView::Inline(q) && q.body == json_bytes(
                mention_reply_json(cut_short(content), source, embeds),
            )
        }),
        mention_reply_json(content, source, embeds).get("content"@) == Some(
            JsonView::Str(content),
        ),
        mention_reply_json(content, source, embeds).get("message_reference"@) == Some(
            JsonView::Object(seq![("message_id"@, JsonView::Str(source))]),
        ),
        mention_reply_json(content, source, embeds).get("embeds"@) == embeds,
{
    reveal_with_fuel(field_of, 5);
    reveal_strlit("allowed_mentions");
    reveal_strlit("content");
    reveal_strlit("embeds");
    reveal_strlit("message_reference");
    assert("allowed_mentions"@.len() == 16 && "content"@.len() == 7 && "embeds"@.len() == 6
        && "message_reference"@.len() == 17);
    let f = mention_reply_json(content, source, embeds)->Object_0;
    let f1 = f.drop_first();
    let f2 = f1.drop_first();
    assert(f1[0] == f[1] && f2[0] == f[2]);
    if embeds is Some {
        let f3 = f2.drop_first();
        assert(f3[0] == f[3]);
    }
}

/// Any other reply goes by its route: to the webhook of an interaction it is an edit of
/// the answer that was promised, to a channel a new message.
pub proof fn other_replies_go_by_their_route(
    m: MetadataView,
    content: Seq<char>,
    embeds: Option<JsonView>,
    boundary: Seq<char>,
)
    ensures
        m.application_id.len() > 0 && m.token.len() > 0 ==> response_plan(
            m,
            content,
            embeds,
            boundary,
        ) == (
            "PATCH"@,
            DISCORD_API_BASE@ + "/webhooks/"@ + m.application_id + "/"@ + m.token
                + "/messages/@original"@,
            reply_plan(content, embeds, boundary),
        ),
        m.token.len() == 0 && m.source_message_id is None ==> response_plan(
            m,
            content,
            embeds,
            boundary,
        ) == (
            "POST"@,
            DISCORD_API_BASE@ + "/channels/"@ + m.channel_id + "/messages"@,
            reply_plan(content, embeds, boundary),
        ),
{
}

} // verus!

//! Feishu and Lark: webhooks that come in, replies that go out, and the token that
//! replies are sent with.

use vstd::prelude::*;
use vstd::utf8::{encode_utf8, encode_utf8_decode_utf8, valid_utf8};

use crate::channels::host::{
    bytes_of, error_response, json_out, json_response, kept_strings, make_config,
    read_kept_strings, tell_failed_status, text2, text3, utf8_text, write_kept_strings, write_to,
    write_views, CallView, ChannelConfig, EmittedMessage, EmittedView, HttpCall, HttpReply,
    OutgoingHttpResponse, ResponseView, WorkspaceWrite, failed_status, is_config, strings_json,
};
use crate::executor::calls::object;
use crate::json::{fields, json_parsed, json_str, json_text, one_field, render, Json, JsonView};
use crate::number::{
    decimal, decimal_int, decimal_reads_back, i64_to_string, parse_u64, parsed, u64_to_string,
};
use crate::text::{
    chars_of, contains_string, first_occurrence_is_replaced, has_substring, middle_is_found,
    occurs_at, opt_text, replace_all, replaced, str_eq, string_of, texts, trim,
    trimmed,
};
use crate::types::capability::lemma_holds_texts;

verus! {

/// Where the owner of the bot is kept.
pub const OWNER_ID_PATH: &'static str = "owner_id";

/// Where the policy for direct messages is kept.
pub const DM_POLICY_PATH: &'static str = "dm_policy";

/// Where the users that may talk to the bot are kept.
pub const ALLOW_FROM_PATH: &'static str = "allow_from";

/// Where the address of the API is kept.
pub const API_BASE_PATH: &'static str = "api_base";

/// Where the identity of the app is kept.
pub const APP_ID_PATH: &'static str = "app_id";

/// Where the credential of the app is kept.
pub const APP_SECRET_PATH: &'static str = "app_secret";

/// Where the token that requests are checked by is kept.
pub const VERIFICATION_TOKEN_PATH: &'static str = "verification_token";

/// Where the token that replies are sent with is kept.
pub const TOKEN_PATH: &'static str = "tenant_access_token";

/// Where it is kept when that token expires.
pub const TOKEN_EXPIRY_PATH: &'static str = "token_expiry";

/// How long before its end a token is renewed, in milliseconds.
pub const TOKEN_MARGIN_MS: u64 = 300_000;

/// Where the API is, where that is not configured.
pub fn default_api_base() -> (r: String)
    ensures
        r@ == "https://open.feishu.cn"@,
{
    "https://open.feishu.cn".to_owned()
}

/// How the channel is configured.
#[derive(Debug, PartialEq, Eq)]
pub struct FeishuConfig {
    pub app_id: Option<String>,
    pub app_secret: Option<String>,
    pub verification_token: Option<String>,
    pub api_base: String,
    pub owner_id: Option<String>,
    pub dm_policy: Option<String>,
    pub allow_from: Option<Vec<String>>,
}

/// A text without the slashes that it ends with.
pub open spec fn without_slashes(s: Seq<char>) -> Seq<char>
    decreases s.len(),
{
    if s.len() > 0 && s.last() == '/' {
        without_slashes(s.drop_last())
    } else {
        s
    }
}

/// Takes the slashes that a text ends with away.
pub fn strip_slashes(s: &str) -> (r: String)
    ensures
        r@ == without_slashes(s@),
{
    let chars = chars_of(s);
    let mut n: usize = chars.len();
    assert(s@.take(n as int) =~= s@);
    while n > 0 && chars[n - 1] == '/'
        invariant
            n <= chars@.len(),
            chars@ == s@,
            without_slashes(s@.take(n as int)) == without_slashes(s@),
        decreases n,
    {
        assert(s@.take(n as int).drop_last() =~= s@.take(n - 1));
        n = n - 1;
    }
    assert(chars@.subrange(0, n as int) =~= s@.take(n as int));
    string_of(&chars, 0, n)
}

/// A value that is written only where there is one.
pub open spec fn if_given(path: Seq<char>, value: Option<String>) -> Seq<(Seq<char>, Seq<char>)> {
    match value {
        Some(v) => seq![(path, v@)],
        None => Seq::empty(),
    }
}

/// What the start of the channel leaves in its workspace.
pub open spec fn start_writes(c: FeishuConfig) -> Seq<(Seq<char>, Seq<char>)> {
    seq![(API_BASE_PATH@, without_slashes(c.api_base@))] + if_given(APP_ID_PATH@, c.app_id)
        + if_given(APP_SECRET_PATH@, c.app_secret) + if_given(
        VERIFICATION_TOKEN_PATH@,
        c.verification_token,
    ) + seq![
        (
            OWNER_ID_PATH@,
            match c.owner_id {
                Some(o) => o@,
                None => ""@,
            },
        ),
        (
            DM_POLICY_PATH@,
            match c.dm_policy {
                Some(p) => p@,
                None => "pairing"@,
            },
        ),
        (
            ALLOW_FROM_PATH@,
            json_text(
                strings_json(
                    match c.allow_from {
                        Some(v) => texts(v@),
                        None => Seq::empty(),
                    },
                ),
            ),
        ),
    ]
}

fn write_given(v: &mut Vec<WorkspaceWrite>, path: &str, value: &Option<String>)
    ensures
        write_views(final(v)@) == write_views(old(v)@) + if_given(path@, *value),
{
    let ghost before = v@;
    if let Some(x) = value {
        v.push(write_to(path, x.as_str()));
    }
    assert(write_views(v@) =~= write_views(before) + if_given(path@, *value));
}

/// What the start of the channel comes to.
pub struct FeishuStart {
    pub writes: Vec<WorkspaceWrite>,
    pub config: ChannelConfig,
    /// Whether a token is to be obtained at once.
    pub has_credentials: bool,
}

/// Starts the channel: what is to be kept, what the host is told, and whether a token
/// can be obtained.
pub fn on_start(config: &FeishuConfig) -> (r: FeishuStart)
    ensures
        write_views(r.writes@) == start_writes(*config),
        is_config(r.config, "Feishu"@, "/webhook/feishu"@, false, None),
        r.has_credentials == (config.app_id is Some && config.app_secret is Some),
{
    let base = strip_slashes(config.api_base.as_str());
    let owner = match &config.owner_id {
        Some(o) => o.as_str(),
        None => "",
    };
    let policy = match &config.dm_policy {
        Some(p) => p.as_str(),
        None => "pairing",
    };
    let allowed = match &config.allow_from {
        Some(v) => write_kept_strings(v),
        None => {
            let none: Vec<String> = Vec::new();
            assert(texts(none@) =~= Seq::empty());
            write_kept_strings(&none)
        },
    };
    let mut v: Vec<WorkspaceWrite> = Vec::new();
    v.push(write_to(API_BASE_PATH, base.as_str()));
    assert(write_views(v@) =~= seq![(API_BASE_PATH@, base@)]);
    write_given(&mut v, APP_ID_PATH, &config.app_id);
    write_given(&mut v, APP_SECRET_PATH, &config.app_secret);
    write_given(&mut v, VERIFICATION_TOKEN_PATH, &config.verification_token);
    let ghost before = write_views(v@);
    v.push(write_to(OWNER_ID_PATH, owner));
    v.push(write_to(DM_POLICY_PATH, policy));
    v.push(write_to(ALLOW_FROM_PATH, allowed.as_str()));
    assert(write_views(v@) =~= before + seq![
        (OWNER_ID_PATH@, owner@),
        (DM_POLICY_PATH@, policy@),
        (ALLOW_FROM_PATH@, allowed@),
    ]);
    FeishuStart {
        writes: v,
        config: make_config("Feishu", "/webhook/feishu", false, None),
        has_credentials: config.app_id.is_some() && config.app_secret.is_some(),
    }
}

/// The header of an event.
#[derive(Debug, PartialEq, Eq)]
pub struct FeishuEventHeader {
    pub event_id: String,
    pub event_type: String,
    pub create_time: Option<String>,
    pub app_id: Option<String>,
    pub tenant_key: Option<String>,
    pub token: Option<String>,
}

/// A mention in a message: the placeholder in the text, and the name it stands for.
#[derive(Debug, PartialEq, Eq)]
pub struct FeishuMention {
    pub key: String,
    pub name: String,
}

/// The content of a text message.
#[derive(Debug, PartialEq, Eq)]
pub struct TextContent {
    pub text: String,
}

/// A message.
#[derive(Debug, PartialEq, Eq)]
pub struct FeishuMessage {
    pub message_id: String,
    pub parent_id: Option<String>,
    pub root_id: Option<String>,
    pub chat_id: String,
    pub chat_type: Option<String>,
    pub message_type: String,
    /// The content, where it could be read as that of a text message.
    pub content: Option<TextContent>,
    pub mentions: Option<Vec<FeishuMention>>,
}

/// A message that came in, with the identity of its sender where that is known.
#[derive(Debug, PartialEq, Eq)]
pub struct MessageReceiveEvent {
    pub open_id: Option<String>,
    pub message: FeishuMessage,
}

/// An event.
#[derive(Debug, PartialEq, Eq)]
pub struct FeishuEvent {
    pub schema: Option<String>,
    pub header: Option<FeishuEventHeader>,
    /// The message in the event, where it could be read as one.
    pub message: Option<MessageReceiveEvent>,
    pub challenge: Option<String>,
    pub token: Option<String>,
    pub event_type: Option<String>,
}

/// What a reply needs.
#[derive(Debug, PartialEq, Eq)]
pub struct FeishuMessageMetadata {
    pub chat_id: String,
    pub message_id: String,
    pub chat_type: String,
}

/// What the metadata hold.
pub struct FeishuMetadataView {
    pub chat_id: Seq<char>,
    pub message_id: Seq<char>,
    pub chat_type: Seq<char>,
}

impl View for FeishuMessageMetadata {
    type V = FeishuMetadataView;

    open spec fn view(&self) -> FeishuMetadataView {
        FeishuMetadataView {
            chat_id: self.chat_id@,
            message_id: self.message_id@,
            chat_type: self.chat_type@,
        }
    }
}

/// Compares bytes with `subtle`'s `ConstantTimeEq::ct_eq` for slices, in a time that
/// does not depend on what they hold: whether they are equal.
#[verifier::external_body]
fn equal_in_constant_time(a: &[u8], b: &[u8]) -> (r: bool)
    ensures
        r == (a@ == b@),
{
    bool::from(<[u8] as subtle::ConstantTimeEq>::ct_eq(a, b))
}

/// What an optional text holds.
pub open spec fn ref_text(o: Option<&str>) -> Option<Seq<char>> {
    match o {
        Some(s) => Some(s@),
        None => None,
    }
}

/// Whether a request is authentic: the host checked it, or it carries the token that is
/// configured.
pub open spec fn is_authentic(
    secret_validated: bool,
    configured: Option<Seq<char>>,
    given: Option<Seq<char>>,
) -> bool {
    secret_validated || (configured is Some && configured == given)
}

/// Decides whether a request is authentic.
pub fn is_authenticated_webhook(
    secret_validated: bool,
    configured_token: Option<&str>,
    request_token: Option<&str>,
) -> (r: bool)
    ensures
        r == is_authentic(secret_validated, ref_text(configured_token), ref_text(request_token)),
{
    if secret_validated {
        return true;
    }
    match (configured_token, request_token) {
        (Some(expected), Some(provided)) => {
            proof {
                encode_utf8_decode_utf8(expected@);
                encode_utf8_decode_utf8(provided@);
            }
            equal_in_constant_time(expected.as_bytes(), provided.as_bytes())
        },
        _ => false,
    }
}

/// The token that an event carries: that of its header before that of its envelope.
pub open spec fn token_of(e: FeishuEvent) -> Option<Seq<char>> {
    match e.header {
        Some(h) => match h.token {
            Some(t) => Some(t@),
            None => opt_text(e.token),
        },
        None => opt_text(e.token),
    }
}

/// Finds the token that an event carries.
pub fn request_verification_token(event: &FeishuEvent) -> (r: Option<&str>)
    ensures
        ref_text(r) == token_of(*event),
{
    if let Some(h) = &event.header {
        if let Some(t) = &h.token {
            return Some(t.as_str());
        }
    }
    match &event.token {
        Some(t) => Some(t.as_str()),
        None => None,
    }
}

/// A text with the placeholders of mentions replaced by the names, one after the other.
pub open spec fn with_names(text: Seq<char>, mentions: Seq<FeishuMention>) -> Seq<char>
    decreases mentions.len(),
{
    if mentions.len() == 0 {
        text
    } else {
        replaced(
            with_names(text, mentions.drop_last()),
            mentions.last().key@,
            mentions.last().name@,
        )
    }
}

/// The text of a message; empty where it has none, or is of another type.
pub open spec fn message_text(m: FeishuMessage) -> Seq<char> {
    if m.message_type@ == "text"@ {
        match m.content {
            Some(c) => trimmed(
                match m.mentions {
                    Some(v) => with_names(c.text@, v@),
                    None => c.text@,
                },
            ),
            None => Seq::empty(),
        }
    } else {
        Seq::empty()
    }
}

fn name_mentions(text: &str, mentions: &Vec<FeishuMention>) -> (r: String)
    ensures
        r@ == with_names(text@, mentions@),
{
    let mut out = text.to_owned();
    let mut i: usize = 0;
    assert(mentions@.take(0) =~= Seq::<FeishuMention>::empty());
    while i < mentions.len()
        invariant
            i <= mentions@.len(),
            out@ == with_names(text@, mentions@.take(i as int)),
        decreases mentions@.len() - i,
    {
        assert(mentions@.take(i + 1).drop_last() =~= mentions@.take(i as int));
        assert(mentions@.take(i + 1).last() == mentions@[i as int]);
        out = replace_all(out.as_str(), mentions[i].key.as_str(), mentions[i].name.as_str());
        i = i + 1;
    }
    assert(mentions@.take(mentions@.len() as int) =~= mentions@);
    out
}

/// Finds the text of a message; empty where it has none, or is of another type.
pub fn extract_text_content(message: &FeishuMessage) -> (r: String)
    ensures
        r@ == message_text(*message),
{
    if !str_eq(message.message_type.as_str(), "text") {
        return String::new();
    }
    match &message.content {
        Some(c) => {
            let named = match &message.mentions {
                Some(v) => name_mentions(c.text.as_str(), v),
                None => c.text.clone(),
            };
            trim(named.as_str()).to_owned()
        },
        None => String::new(),
    }
}

/// What is kept of who may talk to the bot, and how requests are checked.
#[derive(Debug, PartialEq, Eq)]
pub struct FeishuState {
    pub verification_token: Option<String>,
    pub owner_id: Option<String>,
    /// The users that may talk to the bot, as JSON text.
    pub allow_from: Option<String>,
    pub dm_policy: Option<String>,
}

/// The sender of a message.
pub open spec fn sender_of(e: MessageReceiveEvent) -> Seq<char> {
    match e.open_id {
        Some(s) => s@,
        None => "unknown"@,
    }
}

/// The kind of chat that a message is from.
pub open spec fn chat_type_of(e: MessageReceiveEvent) -> Seq<char> {
    match e.message.chat_type {
        Some(c) => c@,
        None => "unknown"@,
    }
}

/// Whether the owner and the list of users let a sender through: where there is an
/// owner, only the owner; where the list can be read and is not empty, only those on it.
pub open spec fn is_let_through(sender: Seq<char>, s: FeishuState) -> bool {
    &&& (s.owner_id matches Some(o) ==> o@.len() == 0 || o@ == sender)
    &&& (kept_strings(opt_text(s.allow_from)).len() == 0 || kept_strings(
        opt_text(s.allow_from),
    ).contains(sender))
}

/// Whether the sender of a direct message must have paired.
pub open spec fn needs_pairing(e: MessageReceiveEvent, s: FeishuState) -> bool {
    chat_type_of(e) == "p2p"@ && match s.dm_policy {
        Some(p) => p@ == "pairing"@,
        None => true,
    }
}

/// What a message is handed on as, for a user.
pub open spec fn message_view(e: MessageReceiveEvent, user: Seq<char>) -> EmittedView<
    FeishuMetadataView,
> {
    EmittedView {
        user_id: user,
        user_name: None,
        content: message_text(e.message),
        thread_id: match e.message.root_id {
            Some(r) => Some(r@),
            None => opt_text(e.message.parent_id),
        },
        metadata: FeishuMetadataView {
            chat_id: e.message.chat_id@,
            message_id: e.message.message_id@,
            chat_type: chat_type_of(e),
        },
    }
}

/// What is done with a message.
#[derive(Debug, PartialEq, Eq)]
pub enum FeishuIntake {
    /// Nothing.
    Ignore,
    /// The agent gets it.
    Emit(EmittedMessage<FeishuMessageMetadata>),
    /// It must first be found out whom this sender has paired with.
    Resolve(String),
    /// The sender gets a pairing code; the request has this description.
    Pair { sender_id: String, meta: String },
}

/// What an intake holds.
pub enum FeishuIntakeView {
    Ignore,
    Emit(EmittedView<FeishuMetadataView>),
    Resolve(Seq<char>),
    Pair { sender_id: Seq<char>, meta: Seq<char> },
}

impl View for FeishuIntake {
    type V = FeishuIntakeView;

    open spec fn view(&self) -> FeishuIntakeView {
        match self {
            FeishuIntake::Ignore => FeishuIntakeView::Ignore,
            FeishuIntake::Emit(m) => FeishuIntakeView::Emit(m@),
            FeishuIntake::Resolve(s) => FeishuIntakeView::Resolve(s@),
            FeishuIntake::Pair { sender_id, meta } => FeishuIntakeView::Pair {
                sender_id: sender_id@,
                meta: meta@,
            },
        }
    }
}

/// What is done with a message for a user: it is handed on where it says something.
pub open spec fn delivered(e: MessageReceiveEvent, user: Seq<char>) -> FeishuIntakeView {
    if message_text(e.message).len() == 0 {
        FeishuIntakeView::Ignore
    } else {
        FeishuIntakeView::Emit(message_view(e, user))
    }
}

/// What is done with a message that came in.
pub open spec fn message_intake(e: MessageReceiveEvent, s: FeishuState) -> FeishuIntakeView {
    if !is_let_through(sender_of(e), s) {
        FeishuIntakeView::Ignore
    } else if needs_pairing(e, s) {
        FeishuIntakeView::Resolve(sender_of(e))
    } else {
        delivered(e, sender_of(e))
    }
}

fn find_sender(e: &MessageReceiveEvent) -> (r: &str)
    ensures
        r@ == sender_of(*e),
{
    match &e.open_id {
        Some(s) => s.as_str(),
        None => "unknown",
    }
}

fn find_chat_type(e: &MessageReceiveEvent) -> (r: &str)
    ensures
        r@ == chat_type_of(*e),
{
    match &e.message.chat_type {
        Some(c) => c.as_str(),
        None => "unknown",
    }
}

fn deliver(e: &MessageReceiveEvent, user: &str) -> (r: FeishuIntake)
    ensures
        r@ == delivered(*e, user@),
{
    let content = extract_text_content(&e.message);
    if content.as_str().is_empty() {
        return FeishuIntake::Ignore;
    }
    let thread_id = match &e.message.root_id {
        Some(r) => Some(r.clone()),
        None => match &e.message.parent_id {
            Some(p) => Some(p.clone()),
            None => None,
        },
    };
    FeishuIntake::Emit(
        EmittedMessage {
            user_id: user.to_owned(),
            user_name: None,
            content,
            thread_id,
            metadata: FeishuMessageMetadata {
                chat_id: e.message.chat_id.clone(),
                message_id: e.message.message_id.clone(),
                chat_type: find_chat_type(e).to_owned(),
            },
        },
    )
}

/// Takes a message in.
pub fn handle_message_event(e: &MessageReceiveEvent, state: &FeishuState) -> (r: FeishuIntake)
    ensures
        r@ == message_intake(*e, *state),
{
    let sender = find_sender(e);
    if let Some(o) = &state.owner_id {
        if !o.as_str().is_empty() && !str_eq(o.as_str(), sender) {
            return FeishuIntake::Ignore;
        }
    }
    let allow_from = match &state.allow_from {
        Some(t) => Some(t.as_str()),
        None => None,
    };
    let allowed = read_kept_strings(allow_from);
    proof {
        lemma_holds_texts(allowed@, sender@);
    }
    if allowed.len() > 0 && !contains_string(&allowed, sender) {
        return FeishuIntake::Ignore;
    }
    let pairing = match &state.dm_policy {
        Some(p) => str_eq(p.as_str(), "pairing"),
        None => true,
    };
    if str_eq(find_chat_type(e), "p2p") && pairing {
        return FeishuIntake::Resolve(sender.to_owned());
    }
    deliver(e, sender)
}

/// The description of a pairing request.
pub open spec fn pairing_meta(e: MessageReceiveEvent) -> JsonView {
    JsonView::Object(
        seq![
            ("chat_id"@, JsonView::Str(e.message.chat_id@)),
            ("chat_type"@, JsonView::Str(chat_type_of(e))),
            ("sender_id"@, JsonView::Str(sender_of(e))),
        ],
    )
}

/// Goes on with a message whose sender had to be found: one who has paired speaks for
/// the user that was paired with; an unknown one gets a pairing code.
pub fn resume_message_event(e: &MessageReceiveEvent, identity: Result<Option<String>, String>) -> (r:
    FeishuIntake)
    ensures
        r@ == match identity {
            Ok(Some(owner)) => delivered(*e, owner@),
            Ok(None) => FeishuIntakeView::Pair {
                sender_id: sender_of(*e),
                meta: json_text(pairing_meta(*e)),
            },
            Err(_) => FeishuIntakeView::Ignore,
        },
{
    match identity {
        Ok(Some(owner)) => deliver(e, owner.as_str()),
        Ok(None) => {
            let mut v: Vec<(String, Json)> = Vec::new();
            v.push(("chat_id".to_owned(), json_str(e.message.chat_id.as_str())));
            v.push(("chat_type".to_owned(), json_str(find_chat_type(e))));
            v.push(("sender_id".to_owned(), json_str(find_sender(e))));
            assert(fields(v@) =~= pairing_meta(*e)->Object_0);
            FeishuIntake::Pair {
                sender_id: find_sender(e).to_owned(),
                meta: render(&object(v)),
            }
        },
        Err(_) => FeishuIntake::Ignore,
    }
}

/// What a sender is told of a pairing code.
pub fn pairing_text(code: &str) -> (r: String)
    ensures
        r@ == "Enter this code in IronClaw to pair your feishu account: `"@ + code@
            + "`. CLI fallback: `ironclaw pairing approve feishu "@ + code@ + "`"@,
{
    let mut s = text3(
        "Enter this code in IronClaw to pair your feishu account: `",
        code,
        "`. CLI fallback: `ironclaw pairing approve feishu ",
    );
    s.append(code);
    s.append("`");
    s
}

/// The token that requests are checked by, where one is set.
pub open spec fn configured_token(s: FeishuState) -> Option<Seq<char>> {
    match s.verification_token {
        Some(t) if t@.len() > 0 => Some(t@),
        _ => None,
    }
}

/// The message in an event that tells of one.
pub open spec fn message_of(e: FeishuEvent) -> Option<MessageReceiveEvent> {
    match e.header {
        Some(h) if h.event_type@ == "im.message.receive_v1"@ => e.message,
        _ => None,
    }
}

/// An empty JSON object.
pub open spec fn nothing_json() -> JsonView {
    JsonView::Object(Seq::empty())
}

/// The response to a request, and what is done beside it. `event` is the body of the
/// request, where it could be read.
pub open spec fn http_result(
    body: Seq<u8>,
    event: Option<FeishuEvent>,
    secret_validated: bool,
    s: FeishuState,
) -> (ResponseView, FeishuIntakeView) {
    let nothing = FeishuIntakeView::Ignore;
    if !valid_utf8(body) {
        (
            json_out(
                400,
                JsonView::Object(seq![("error"@, JsonView::Str("Invalid UTF-8 body"@))]),
            ),
            nothing,
        )
    } else {
        match event {
            None => (json_out(200, nothing_json()), nothing),
            Some(e) => if !is_authentic(secret_validated, configured_token(s), token_of(e)) {
                (
                    json_out(
                        401,
                        JsonView::Object(
                            seq![("error"@, JsonView::Str("Webhook authentication failed"@))],
                        ),
                    ),
                    nothing,
                )
            } else if opt_text(e.event_type) == Some("url_verification"@) && e.challenge is Some {
                (
                    json_out(
                        200,
                        JsonView::Object(seq![("challenge"@, JsonView::Str(e.challenge->0@))]),
                    ),
                    nothing,
                )
            } else {
                (
                    json_out(200, nothing_json()),
                    match message_of(e) {
                        Some(m) => message_intake(m, s),
                        None => nothing,
                    },
                )
            },
        }
    }
}

fn empty_response() -> (r: OutgoingHttpResponse)
    ensures
        r@ == json_out(200, nothing_json()),
{
    let v: Vec<(String, Json)> = Vec::new();
    assert(fields(v@) =~= Seq::empty());
    json_response(200, object(v))
}

/// Answers a request of Feishu. What is not authentic is refused before anything else
/// is looked at.
pub fn on_http_request(
    body: &Vec<u8>,
    event: Option<&FeishuEvent>,
    secret_validated: bool,
    state: &FeishuState,
) -> (r: (OutgoingHttpResponse, FeishuIntake))
    ensures
        ({
            let x = http_result(
                body@,
                match event {
                    Some(e) => Some(*e),
                    None => None,
                },
                secret_validated,
                *state,
            );
            r.0@ == x.0 && r.1@ == x.1
        }),
{
    if utf8_text(body).is_none() {
        return (error_response(400, "Invalid UTF-8 body"), FeishuIntake::Ignore);
    }
    let e = match event {
        Some(e) => e,
        None => {
            return (empty_response(), FeishuIntake::Ignore);
        },
    };
    let configured = match &state.verification_token {
        Some(t) => if t.as_str().is_empty() {
            None
        } else {
            Some(t.as_str())
        },
        None => None,
    };
    if !is_authenticated_webhook(secret_validated, configured, request_verification_token(e)) {
        return (error_response(401, "Webhook authentication failed"), FeishuIntake::Ignore);
    }
    if let Some(t) = &e.event_type {
        if str_eq(t.as_str(), "url_verification") {
            if let Some(c) = &e.challenge {
                return (
                    json_response(200, one_field("challenge", json_str(c.as_str()))),
                    FeishuIntake::Ignore,
                );
            }
        }
    }
    if let Some(h) = &e.header {
        if str_eq(h.event_type.as_str(), "im.message.receive_v1") {
            if let Some(m) = &e.message {
                return (empty_response(), handle_message_event(m, state));
            }
        }
    }
    (empty_response(), FeishuIntake::Ignore)
}

/// A text message, as its content is sent.
pub open spec fn content_json(content: Seq<char>) -> Seq<char> {
    json_text(JsonView::Object(seq![("text"@, JsonView::Str(content))]))
}

/// The headers of a request with a token.
pub open spec fn token_headers(token: Seq<char>) -> JsonView {
    JsonView::Object(
        seq![
            ("Authorization"@, JsonView::Str("Bearer "@ + token)),
            ("Content-Type"@, JsonView::Str("application/json; charset=utf-8"@)),
        ],
    )
}

fn make_headers(token: &str) -> (r: String)
    ensures
        r@ == json_text(token_headers(token@)),
{
    let bearer = text2("Bearer ", token);
    let mut v: Vec<(String, Json)> = Vec::new();
    v.push(("Authorization".to_owned(), Json::Str(bearer)));
    v.push(("Content-Type".to_owned(), json_str("application/json; charset=utf-8")));
    assert(fields(v@) =~= token_headers(token@)->Object_0);
    render(&object(v))
}

/// A text as a JSON string.
pub open spec fn quoted(s: Seq<char>) -> Seq<char> {
    json_text(JsonView::Str(s))
}

/// The body of a reply.
pub open spec fn reply_body(content: Seq<char>) -> Seq<char> {
    "{\"msg_type\":"@ + quoted("text"@) + ",\"content\":"@ + quoted(content_json(content)) + "}"@
}

/// The body of a message to a receiver.
pub open spec fn message_body(receiver: Seq<char>, content: Seq<char>) -> Seq<char> {
    "{\"receive_id\":"@ + quoted(receiver) + ",\"msg_type\":"@ + quoted("text"@)
        + ",\"content\":"@ + quoted(content_json(content)) + "}"@
}

fn quote(s: &str) -> (r: String)
    ensures
        r@ == quoted(s@),
{
    render(&json_str(s))
}

/// Makes the request that replies to a message.
pub fn send_reply(api_base: &str, token: &str, message_id: &str, content: &str) -> (r: HttpCall)
    ensures
        r@ == (CallView {
            method: "POST"@,
            url: api_base@ + "/open-apis/im/v1/messages/"@ + message_id@ + "/reply"@,
            headers: json_text(token_headers(token@)),
            body: Some(encode_utf8(reply_body(content@))),
            timeout_ms: Some(10_000),
        }),
{
    let inner = render(&one_field("text", json_str(content)));
    let mut body = text2("{\"msg_type\":", quote("text").as_str());
    body.append(",\"content\":");
    body.append(quote(inner.as_str()).as_str());
    body.append("}");
    let mut url = text3(api_base, "/open-apis/im/v1/messages/", message_id);
    url.append("/reply");
    HttpCall {
        method: "POST".to_owned(),
        url,
        headers_json: make_headers(token),
        body: Some(bytes_of(body.as_str())),
        timeout_ms: Some(10_000),
    }
}

/// Makes the request that sends a message to a receiver.
pub fn send_message(
    api_base: &str,
    token: &str,
    receive_id: &str,
    receive_id_type: &str,
    content: &str,
) -> (r: HttpCall)
    ensures
        r@ == (CallView {
            method: "POST"@,
            url: api_base@ + "/open-apis/im/v1/messages?receive_id_type="@ + receive_id_type@,
            headers: json_text(token_headers(token@)),
            body: Some(encode_utf8(message_body(receive_id@, content@))),
            timeout_ms: Some(10_000),
        }),
{
    let inner = render(&one_field("text", json_str(content)));
    let mut body = text2("{\"receive_id\":", quote(receive_id).as_str());
    body.append(",\"msg_type\":");
    body.append(quote("text").as_str());
    body.append(",\"content\":");
    body.append(quote(inner.as_str()).as_str());
    body.append("}");
    HttpCall {
        method: "POST".to_owned(),
        url: text3(api_base, "/open-apis/im/v1/messages?receive_id_type=", receive_id_type),
        headers_json: make_headers(token),
        body: Some(bytes_of(body.as_str())),
        timeout_ms: Some(10_000),
    }
}

/// What an answer of the API comes to, whose code and message were read where they could
/// be.
pub open spec fn api_result(
    reply: Result<HttpReply, String>,
    answer: Option<(i32, Seq<char>)>,
) -> Result<(), Seq<char>> {
    match reply {
        Ok(x) => if x.status != 200 {
            Err(failed_status("Feishu API returned "@, x.status, ": "@, x.body@))
        } else {
            match answer {
                Some((code, msg)) if code != 0 => Err(
                    "Feishu API error "@ + decimal_int(code as int) + ": "@ + msg,
                ),
                _ => Ok(()),
            }
        },
        Err(e) => Err("HTTP request failed: "@ + e@),
    }
}

/// Takes an answer of the API in.
pub fn read_api_reply(reply: Result<HttpReply, String>, answer: Option<(i32, String)>) -> (r:
    Result<(), String>)
    ensures
        ({
            let x = api_result(
                reply,
                match answer {
                    Some(a) => Some((a.0, a.1@)),
                    None => None,
                },
            );
            match r {
                Ok(_) => x is Ok,
                Err(e) => x == Err::<(), Seq<char>>(e@),
            }
        }),
{
    match reply {
        Ok(x) => {
            if x.status != 200 {
                return Err(tell_failed_status("Feishu API returned ", x.status, ": ", &x.body));
            }
            if let Some((code, msg)) = answer {
                if code != 0 {
                    let mut s = text3(
                        "Feishu API error ",
                        i64_to_string(code as i64).as_str(),
                        ": ",
                    );
                    s.append(msg.as_str());
                    return Err(s);
                }
            }
            Ok(())
        },
        Err(e) => Err(text2("HTTP request failed: ", e.as_str())),
    }
}

/// The token that is kept, where it is good for some time yet.
pub open spec fn usable_token(token: Option<Seq<char>>, expiry: Option<Seq<char>>, now: u64) -> Option<
    Seq<char>,
> {
    match (token, expiry) {
        (Some(t), Some(x)) => match parsed(x, u64::MAX as nat) {
            Some(end) if t.len() > 0 && now + TOKEN_MARGIN_MS < end => Some(t),
            _ => None,
        },
        _ => None,
    }
}

/// Finds the token that is kept, where it is good for some time yet; `None` where a new
/// one must be obtained.
pub fn get_valid_token(token: Option<&str>, expiry: Option<&str>, now: u64) -> (r: Option<String>)
    ensures
        opt_text(r) == usable_token(ref_text(token), ref_text(expiry), now),
{
    match (token, expiry) {
        (Some(t), Some(x)) => {
            if t.is_empty() {
                return None;
            }
            match parse_u64(x) {
                Some(end) => {
                    let latest: u64 = if end > TOKEN_MARGIN_MS {
                        end - TOKEN_MARGIN_MS
                    } else {
                        0
                    };
                    if now < latest {
                        Some(t.to_owned())
                    } else {
                        None
                    }
                },
                None => None,
            }
        },
        _ => None,
    }
}

/// Makes the request that obtains a token.
pub fn obtain_tenant_token(api_base: &str, app_id: Option<&str>, app_secret: Option<&str>) -> (r:
    Result<HttpCall, String>)
    ensures
        match (ref_text(app_id), ref_text(app_secret)) {
            (Some(id), Some(secret)) if id.len() > 0 && secret.len() > 0 => r matches Ok(c) && c@
                == (CallView {
                method: "POST"@,
                url: api_base@ + "/open-apis/auth/v3/tenant_access_token/internal"@,
                headers: json_text(
                    JsonView::Object(
                        seq![
                            (
                                "Content-Type"@,
                                JsonView::Str("application/json; charset=utf-8"@),
                            ),
                        ],
                    ),
                ),
                body: Some(
                    encode_utf8(
                        json_text(
                            JsonView::Object(
                                seq![
                                    ("app_id"@, JsonView::Str(id)),
                                    ("app_secret"@, JsonView::Str(secret)),
                                ],
                            ),
                        ),
                    ),
                ),
                timeout_ms: Some(10_000),
            }),
            (Some(id), _) if id.len() > 0 => r matches Err(e) && e@
                == "app_secret not configured (missing from workspace)"@,
            _ => r matches Err(e) && e@ == "app_id not configured (missing from workspace)"@,
        },
{
    let id = match app_id {
        Some(x) => x,
        None => "",
    };
    proof {
        reveal_strlit("");
    }
    if id.is_empty() {
        return Err("app_id not configured (missing from workspace)".to_owned());
    }
    let secret = match app_secret {
        Some(x) => x,
        None => "",
    };
    if secret.is_empty() {
        return Err("app_secret not configured (missing from workspace)".to_owned());
    }
    let mut v: Vec<(String, Json)> = Vec::new();
    v.push(("app_id".to_owned(), json_str(id)));
    v.push(("app_secret".to_owned(), json_str(secret)));
    assert(fields(v@) =~= seq![
        ("app_id"@, JsonView::Str(id@)),
        ("app_secret"@, JsonView::Str(secret@)),
    ]);
    Ok(
        HttpCall {
            method: "POST".to_owned(),
            url: text2(api_base, "/open-apis/auth/v3/tenant_access_token/internal"),
            headers_json: render(
                &one_field("Content-Type", json_str("application/json; charset=utf-8")),
            ),
            body: Some(bytes_of(render(&object(v)).as_str())),
            timeout_ms: Some(10_000),
        },
    )
}

/// The answer to a request for a token.
#[derive(Debug, PartialEq, Eq)]
pub struct TenantAccessTokenResponse {
    pub code: i32,
    pub msg: String,
    pub tenant_access_token: String,
    /// For how many seconds the token is good.
    pub expire: i64,
}

/// A token, and what is to be kept of it.
#[derive(Debug, PartialEq, Eq)]
pub struct TokenGrant {
    pub token: String,
    pub writes: Vec<WorkspaceWrite>,
}

/// What is kept of a token: the token, and when it expires.
pub open spec fn token_writes(token: Seq<char>, expiry: u64) -> Seq<(Seq<char>, Seq<char>)> {
    seq![(TOKEN_PATH@, token), (TOKEN_EXPIRY_PATH@, decimal(expiry as nat))]
}

/// When a token expires that is good for some seconds from now on: as late as can be
/// told, where that is too far off.
pub open spec fn expiry_of(now: u64, expire: i64) -> u64 {
    let end = now + expire * 1000;
    if end > u64::MAX {
        u64::MAX
    } else {
        end as u64
    }
}

/// What the answer to a request for a token comes to.
pub open spec fn token_result(
    reply: Result<HttpReply, String>,
    answer: Result<TenantAccessTokenResponse, String>,
    now: u64,
) -> Result<(Seq<char>, u64), Seq<char>> {
    match reply {
        Err(e) => Err("Token exchange request failed: "@ + e@),
        Ok(x) => if x.status != 200 {
            Err(failed_status("Token exchange returned "@, x.status, ": "@, x.body@))
        } else {
            match answer {
                Err(e) => Err("Failed to parse token response: "@ + e@),
                Ok(t) => if t.code != 0 {
                    Err("Token exchange error "@ + decimal_int(t.code as int) + ": "@ + t.msg@)
                } else if t.tenant_access_token@.len() == 0 {
                    Err("Token response missing tenant_access_token"@)
                } else if t.expire <= 0 {
                    Err(
                        "Token response has invalid expire value: "@ + decimal_int(
                            t.expire as int,
                        ),
                    )
                } else {
                    Ok((t.tenant_access_token@, expiry_of(now, t.expire)))
                },
            }
        },
    }
}

/// Takes the answer to a request for a token in, at the time `now`. `answer` is its
/// body, or why that could not be read.
pub fn token_obtained(
    reply: Result<HttpReply, String>,
    answer: Result<TenantAccessTokenResponse, String>,
    now: u64,
) -> (r: Result<TokenGrant, String>)
    ensures
        match r {
            Ok(g) => token_result(reply, answer, now) matches Ok((token, expiry)) && g.token@
                == token && write_views(g.writes@) == token_writes(token, expiry),
            Err(e) => token_result(reply, answer, now) == Err::<(Seq<char>, u64), Seq<char>>(e@),
        },
{
    let x = match reply {
        Ok(x) => x,
        Err(e) => {
            return Err(text2("Token exchange request failed: ", e.as_str()));
        },
    };
    if x.status != 200 {
        return Err(tell_failed_status("Token exchange returned ", x.status, ": ", &x.body));
    }
    let t = match answer {
        Ok(t) => t,
        Err(e) => {
            return Err(text2("Failed to parse token response: ", e.as_str()));
        },
    };
    if t.code != 0 {
        let mut s = text3(
            "Token exchange error ",
            i64_to_string(t.code as i64).as_str(),
            ": ",
        );
        s.append(t.msg.as_str());
        return Err(s);
    }
    if t.tenant_access_token.as_str().is_empty() {
        return Err("Token response missing tenant_access_token".to_owned());
    }
    if t.expire <= 0 {
        return Err(
            text2(
                "Token response has invalid expire value: ",
                i64_to_string(t.expire).as_str(),
            ),
        );
    }
    let end: u128 = now as u128 + (t.expire as u128) * 1000;
    let expiry: u64 = if end > u64::MAX as u128 {
        u64::MAX
    } else {
        end as u64
    };
    let mut writes: Vec<WorkspaceWrite> = Vec::new();
    writes.push(write_to(TOKEN_PATH, t.tenant_access_token.as_str()));
    writes.push(write_to(TOKEN_EXPIRY_PATH, u64_to_string(expiry).as_str()));
    assert(write_views(writes@) =~= token_writes(t.tenant_access_token@, expiry));
    Ok(TokenGrant { token: t.tenant_access_token, writes })
}

/// A request that is not authentic is refused, whatever else it holds, and nothing is
/// done with it.
pub proof fn unauthentic_requests_are_refused(
    body: Seq<u8>,
    e: FeishuEvent,
    s: FeishuState,
)
    requires
        valid_utf8(body),
        configured_token(s) is None || token_of(e) != configured_token(s),
    ensures
        http_result(body, Some(e), false, s).0.status == 401,
        http_result(body, Some(e), false, s).1 is Ignore,
{
}

/// Where there is an owner, messages from anyone else are ignored.
pub proof fn others_than_the_owner_are_ignored(e: MessageReceiveEvent, s: FeishuState)
    requires
        s.owner_id matches Some(o) && o@.len() > 0 && sender_of(e) != o@,
    ensures
        message_intake(e, s) is Ignore,
{
}

/// Where users are listed, messages from anyone else are ignored.
pub proof fn unlisted_users_are_ignored(e: MessageReceiveEvent, s: FeishuState)
    requires
        kept_strings(opt_text(s.allow_from)).len() > 0,
        !kept_strings(opt_text(s.allow_from)).contains(sender_of(e)),
    ensures
        message_intake(e, s) is Ignore,
{
}

/// A token that was obtained and kept is used again as long as it is good for more than
/// the margin, and not after.
pub proof fn kept_token_is_used(token: Seq<char>, expiry: u64, now: u64)
    requires
        token.len() > 0,
    ensures
        ({
            let kept = token_writes(token, expiry);
            usable_token(Some(kept[0].1), Some(kept[1].1), now) == if now + TOKEN_MARGIN_MS < expiry {
                Some(token)
            } else {
                None
            }
        }),
{
    decimal_reads_back(expiry as nat, u64::MAX as nat);
}

/// Users that are let through are heard: where there is no owner or the sender is the
/// owner, and no list of users can be read or the list is empty or names the sender, a
/// text message in a chat that is not direct is handed on with the sender as its user and
/// its text without the white space around it, unless that is all it has.
pub proof fn listed_users_are_heard(
    e: MessageReceiveEvent,
    s: FeishuState,
    sender: String,
    text: TextContent,
)
    requires
        e.open_id == Some(sender),
        s.owner_id matches Some(o) ==> o@.len() == 0 || o@ == sender@,
        match s.allow_from {
            None => true,
            Some(t) => match json_parsed(t@) {
                Some(JsonView::Array(a)) => a.len() == 0 || (exists|i: int|
                    0 <= i < a.len() && #[trigger] a[i] == JsonView::Str(sender@)) || (exists|i:
                    int|
                    0 <= i < a.len() && !((#[trigger] a[i]) is Str)),
                _ => true,
            },
        },
        e.message.chat_type matches Some(c) ==> c@ != "p2p"@,
        e.message.message_type@ == "text"@,
        e.message.content == Some(text),
        e.message.mentions is None,
    ensures
        trimmed(text.text@).len() > 0 ==> (message_intake(e, s) matches FeishuIntakeView::Emit(v)
            && v.user_id == sender@ && v.content == trimmed(text.text@) && v.metadata.chat_id
            == e.message.chat_id@ && v.metadata.message_id == e.message.message_id@ && (
        e.message.root_id matches Some(r) ==> v.thread_id == Some(r@)) && (
        e.message.root_id is None ==> v.thread_id == opt_text(e.message.parent_id))),
        trimmed(text.text@).len() == 0 ==> message_intake(e, s) is Ignore,
{
    reveal_strlit("p2p");
    reveal_strlit("unknown");
    assert("p2p"@.len() != "unknown"@.len());
    lemma_list_lets_through(s, sender@);
}

proof fn lemma_list_lets_through(s: FeishuState, sender: Seq<char>)
    requires
        match s.allow_from {
            None => true,
            Some(t) => match json_parsed(t@) {
                Some(JsonView::Array(a)) => a.len() == 0 || (exists|i: int|
                    0 <= i < a.len() && #[trigger] a[i] == JsonView::Str(sender)) || (exists|i: int|
                    0 <= i < a.len() && !((#[trigger] a[i]) is Str)),
                _ => true,
            },
        },
    ensures
        kept_strings(opt_text(s.allow_from)).len() == 0 || kept_strings(
            opt_text(s.allow_from),
        ).contains(sender),
{
    if let Some(t) = s.allow_from {
        if let Some(JsonView::Array(a)) = json_parsed(t@) {
            let kept = kept_strings(opt_text(s.allow_from));
            if exists|i: int| 0 <= i < a.len() && #[trigger] a[i] == JsonView::Str(sender) {
                let i = choose|i: int|
                    0 <= i < a.len() && #[trigger] a[i] == JsonView::Str(sender);
                if kept.len() > 0 {
                    assert(kept[i] == sender);
                }
            }
        }
    }
}

/// A direct message is only handed on without pairing where the policy is another one:
/// otherwise the sender is looked up first. Who is let through decides in either case.
pub proof fn direct_messages_ask_for_pairing(
    e: MessageReceiveEvent,
    s: FeishuState,
    sender: String,
)
    requires
        e.open_id == Some(sender),
        s.owner_id is None,
        s.allow_from is None,
        e.message.chat_type matches Some(c) && c@ == "p2p"@,
    ensures
        s.dm_policy is None ==> message_intake(e, s) == FeishuIntakeView::Resolve(sender@),
        s.dm_policy matches Some(p) ==> p@ == "pairing"@ ==> message_intake(e, s)
            == FeishuIntakeView::Resolve(sender@),
        s.dm_policy matches Some(p) ==> p@ != "pairing"@ ==> message_intake(e, s) == delivered(
            e,
            sender@,
        ),
{
}

/// What is handed on for a user carries that user and the text of the message.
pub proof fn messages_are_handed_on_for_their_user(
    e: MessageReceiveEvent,
    user: Seq<char>,
    text: TextContent,
)
    requires
        e.message.message_type@ == "text"@,
        e.message.content == Some(text),
        e.message.mentions is None,
        trimmed(text.text@).len() > 0,
    ensures
        delivered(e, user) matches FeishuIntakeView::Emit(v) && v.user_id == user && v.content
            == trimmed(text.text@) && v.metadata.chat_id == e.message.chat_id@
            && v.metadata.message_id == e.message.message_id@,
{
}

/// Messages of other types than text, and those whose content could not be read, are not
/// handed on.
pub proof fn other_messages_are_ignored(e: MessageReceiveEvent, user: Seq<char>)
    requires
        e.message.message_type@ != "text"@ || e.message.content is None,
    ensures
        delivered(e, user) is Ignore,
{
}

/// The name of who is mentioned stands where the placeholder stood: the text before it is
/// kept, and a text without placeholders is left as it is.
pub proof fn names_take_the_place_of_mentions(text: Seq<char>, m: FeishuMention, k: int)
    requires
        m.key@.len() > 0,
        0 <= k <= text.len(),
        forall|i: int| 0 <= i < k ==> !occurs_at(text, m.key@, i),
    ensures
        with_names(text, Seq::empty()) == text,
        k == text.len() ==> with_names(text, seq![m]) == text,
        occurs_at(text, m.key@, k) ==> with_names(text, seq![m]) == text.take(k) + m.name@
            + with_names(text.skip(k + m.key@.len()), seq![m]),
{
    reveal_with_fuel(with_names, 2);
    assert(seq![m].drop_last() =~= Seq::<FeishuMention>::empty());
    first_occurrence_is_replaced(text, m.key@, m.name@, k);
}

/// Mentions are named one after the other, each in what the ones before it made.
pub proof fn mentions_are_named_in_turn(text: Seq<char>, v: Seq<FeishuMention>, m: FeishuMention)
    ensures
        with_names(text, v.push(m)) == with_names(with_names(text, v), seq![m]),
{
    reveal_with_fuel(with_names, 2);
    assert(v.push(m).drop_last() =~= v);
    assert(seq![m].drop_last() =~= Seq::<FeishuMention>::empty());
}

/// A request is authentic where the host checked it, or where a token is configured and it
/// carries that token in its header, or in its envelope where the header has none.
pub proof fn authentic_requests_are_taken_in(
    body: Seq<u8>,
    e: FeishuEvent,
    secret_validated: bool,
    s: FeishuState,
    token: String,
)
    requires
        valid_utf8(body),
        secret_validated || (s.verification_token matches Some(t) && t@.len() > 0 && t@ == token@
            && ((e.header matches Some(h) && h.token == Some(token)) || ((
        e.header matches Some(h) ==> h.token is None) && e.token == Some(token)))),
    ensures
        http_result(body, Some(e), secret_validated, s).0.status == 200,
        (e.event_type matches Some(t) && t@ == "url_verification"@) && e.challenge is Some
            ==> http_result(body, Some(e), secret_validated, s).0 == json_out(
            200,
            JsonView::Object(seq![("challenge"@, JsonView::Str(e.challenge->0@))]),
        ) && http_result(body, Some(e), secret_validated, s).1 is Ignore,
        e.event_type is None && (e.header matches Some(h) && h.event_type@
            == "im.message.receive_v1"@) ==> (e.message matches Some(m) ==> http_result(
            body,
            Some(e),
            secret_validated,
            s,
        ).1 == message_intake(m, s)),
{
}

/// A request whose body is no text is refused, and one whose body is no event is answered
/// without anything being done.
pub proof fn unreadable_requests_do_nothing(
    body: Seq<u8>,
    event: Option<FeishuEvent>,
    secret_validated: bool,
    s: FeishuState,
)
    ensures
        !valid_utf8(body) ==> http_result(body, event, secret_validated, s).0.status == 400
            && http_result(body, event, secret_validated, s).1 is Ignore,
        valid_utf8(body) && event is None ==> http_result(body, event, secret_validated, s).0.status
            == 200 && http_result(body, event, secret_validated, s).1 is Ignore,
{
}

/// What is sent holds the text, as the JSON string of an object with the text in it, and
/// what is sent to a receiver holds the receiver.
pub proof fn sent_bodies_hold_the_text(receiver: Seq<char>, content: Seq<char>)
    ensures
        ({
            let text = json_text(
                JsonView::Str(json_text(JsonView::Object(seq![("text"@, JsonView::Str(content))]))),
            );
            &&& has_substring(reply_body(content), text)
            &&& has_substring(message_body(receiver, content), text)
            &&& has_substring(message_body(receiver, content), json_text(JsonView::Str(receiver)))
        }),
{
    let text = quoted(content_json(content));
    let h1 = "{\"msg_type\":"@ + quoted("text"@) + ",\"content\":"@;
    middle_is_found(h1, text, "}"@);
    let start = "{\"receive_id\":"@;
    let between = ",\"msg_type\":"@ + quoted("text"@) + ",\"content\":"@;
    let b2 = message_body(receiver, content);
    middle_is_found(start + quoted(receiver) + between, text, "}"@);
    assert(b2 =~= start + quoted(receiver) + between + text + "}"@);
    middle_is_found(start, quoted(receiver), between + text + "}"@);
    assert(b2 =~= start + quoted(receiver) + (between + text + "}"@));
}

/// An answer tells of success exactly where its status is that of success and it carries
/// no code of an error.
pub proof fn answers_tell_of_success(
    reply: Result<HttpReply, String>,
    answer: Option<(i32, Seq<char>)>,
)
    ensures
        api_result(reply, answer) is Ok <==> ((reply matches Ok(x) && x.status == 200) && (
        answer matches Some(a) ==> a.0 == 0)),
{
}

/// A token that was given is kept until it expires, to the second; an answer without one,
/// with the code of an error, or with a token that is not good for any time, gives none.
pub proof fn given_tokens_are_taken(
    x: HttpReply,
    t: TenantAccessTokenResponse,
    now: u64,
)
    ensures
        ({
            let r = token_result(Ok(x), Ok(t), now);
            let good = x.status == 200 && t.code == 0 && t.tenant_access_token@.len() > 0
                && t.expire > 0;
            &&& r is Ok <==> good
            &&& r matches Ok((token, expiry)) ==> {
                &&& token == t.tenant_access_token@
                &&& expiry >= now
                &&& now + t.expire * 1000 <= u64::MAX ==> expiry == now + t.expire * 1000
                &&& now + t.expire * 1000 > u64::MAX ==> expiry == u64::MAX
            }
        }),
        forall|e: String| (#[trigger] token_result(Err(e), Ok(t), now)) is Err,
        forall|e: String| (#[trigger] token_result(Ok(x), Err(e), now)) is Err,
{
}

/// The start of the channel keeps its settings: the owner, the policy for direct messages,
/// the users that are listed and, where they are given, the credentials.
pub proof fn settings_are_kept(c: FeishuConfig)
    ensures
        ({
            let w = start_writes(c);
            &&& w.contains((API_BASE_PATH@, without_slashes(c.api_base@)))
            &&& c.owner_id matches Some(o) ==> w.contains((OWNER_ID_PATH@, o@))
            &&& c.owner_id is None ==> w.contains((OWNER_ID_PATH@, ""@))
            &&& c.dm_policy matches Some(p) ==> w.contains((DM_POLICY_PATH@, p@))
            &&& c.dm_policy is None ==> w.contains((DM_POLICY_PATH@, "pairing"@))
            &&& c.allow_from matches Some(v) ==> w.contains(
                (ALLOW_FROM_PATH@, json_text(strings_json(texts(v@)))),
            )
            &&& c.app_id matches Some(v) ==> w.contains((APP_ID_PATH@, v@))
            &&& c.app_secret matches Some(v) ==> w.contains((APP_SECRET_PATH@, v@))
            &&& c.verification_token matches Some(v) ==> w.contains((VERIFICATION_TOKEN_PATH@, v@))
        }),
{
    let w = start_writes(c);
    let n = w.len() as int;
    assert(w[0] == (API_BASE_PATH@, without_slashes(c.api_base@)));
    let a: int = if c.app_id is Some {
        1
    } else {
        0
    };
    let b: int = if c.app_secret is Some {
        1
    } else {
        0
    };
    if let Some(v) = c.app_id {
        assert(w[1] == (APP_ID_PATH@, v@));
    }
    if let Some(v) = c.app_secret {
        assert(w[1 + a] == (APP_SECRET_PATH@, v@));
    }
    if let Some(v) = c.verification_token {
        assert(w[1 + a + b] == (VERIFICATION_TOKEN_PATH@, v@));
    }
    assert(w[n - 3].0 == OWNER_ID_PATH@);
    assert(w[n - 2].0 == DM_POLICY_PATH@);
    assert(w[n - 1].0 == ALLOW_FROM_PATH@);
}

/// Only slashes at the end are cut off, and all of them.
pub proof fn slashes_at_the_end_are_cut(s: Seq<char>)
    ensures
        without_slashes(s).len() <= s.len(),
        without_slashes(s) == s.take(without_slashes(s).len() as int),
        forall|i: int| without_slashes(s).len() <= i < s.len() ==> #[trigger] s[i] == '/',
        without_slashes(s).len() > 0 ==> without_slashes(s).last() != '/',
    decreases s.len(),
{
    if s.len() > 0 && s.last() == '/' {
        let r = s.drop_last();
        slashes_at_the_end_are_cut(r);
        let n = without_slashes(s).len() as int;
        assert(r.take(n) =~= s.take(n));
        assert forall|i: int| n <= i < s.len() implies #[trigger] s[i] == '/' by {
            if i < r.len() {
                assert(r[i] == s[i]);
            }
        }
    } else {
        assert(s.take(s.len() as int) =~= s);
    }
}

} // verus!

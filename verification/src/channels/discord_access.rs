//! Discord: messages of the gateway, interactions, and who may talk to the bot.

use vstd::prelude::*;

use crate::channels::discord::{
    channel_url, webhook_url, DiscordMessageMetadata, DiscordResponseRoute, MetadataView,
    RouteView, DISCORD_API_BASE,
};
use crate::channels::host::{
    json_bytes, json_content_type, json_headers, kept_strings, make_config, read_kept_strings,
    read_strings, render_bytes, text3, write_kept_strings, write_to, write_views, CallView,
    ChannelConfig, EmittedMessage, EmittedView, HttpCall, PollConfig, WorkspaceWrite, is_config,
    strings_json, strings_of,
};
use crate::executor::calls::object;
use crate::gate::opt_json;
use crate::json::{
    field_of, fields, json_parsed, json_str, json_text, parse, render, Json, JsonView,
};
use crate::text::{
    contains_string, has_substring, holds, middle_is_found, occurs_at, opt_text, str_eq,
    strip_prefix, texts, trim, trimmed,
};
use crate::types::capability::lemma_holds_texts;

verus! {

/// Where the owner of the bot is kept.
pub const OWNER_ID_PATH: &'static str = "state/owner_id";

/// Where it is kept whether channels are polled.
pub const POLLING_ENABLED_PATH: &'static str = "state/polling_enabled";

/// Where the channels that are polled are kept.
pub const MENTION_CHANNEL_IDS_PATH: &'static str = "state/mention_channel_ids";

/// Where the policy for direct messages is kept.
pub const DM_POLICY_PATH: &'static str = "state/dm_policy";

/// Where the users that may send direct messages are kept.
pub const ALLOW_FROM_PATH: &'static str = "state/allow_from";

/// The shortest time between two polls, in milliseconds.
pub const MIN_POLL_INTERVAL_MS: u32 = 30_000;

/// The time between two polls where none is configured, in milliseconds.
pub fn default_poll_interval_ms() -> (r: u32)
    ensures
        r == 30_000,
{
    30_000
}

/// How the channel is configured.
#[derive(Debug, PartialEq, Eq)]
pub struct DiscordConfig {
    pub require_signature_verification: bool,
    pub owner_id: Option<String>,
    pub dm_policy: Option<String>,
    pub allow_from: Option<Vec<String>>,
    pub polling_enabled: bool,
    pub poll_interval_ms: u32,
    pub mention_channel_ids: Vec<String>,
}

/// What the start of the channel leaves in its workspace.
pub open spec fn start_writes(c: DiscordConfig) -> Seq<(Seq<char>, Seq<char>)> {
    seq![
        (
            OWNER_ID_PATH@,
            match c.owner_id {
                Some(o) => o@,
                None => ""@,
            },
        ),
        (
            DM_POLICY_PATH@,
            match c.dm_policy {
                Some(p) => p@,
                None => "pairing"@,
            },
        ),
        (
            ALLOW_FROM_PATH@,
            json_text(
                strings_json(
                    match c.allow_from {
                        Some(v) => texts(v@),
                        None => Seq::empty(),
                    },
                ),
            ),
        ),
        (
            POLLING_ENABLED_PATH@,
            if c.polling_enabled {
                "true"@
            } else {
                "false"@
            },
        ),
        (MENTION_CHANNEL_IDS_PATH@, json_text(strings_json(texts(c.mention_channel_ids@)))),
    ]
}

/// How the channel is polled: not more often than it may be, and only where that is
/// configured.
pub open spec fn poll_config(c: DiscordConfig) -> Option<PollConfig> {
    if c.polling_enabled {
        Some(
            PollConfig {
                interval_ms: if c.poll_interval_ms > MIN_POLL_INTERVAL_MS {
                    c.poll_interval_ms
                } else {
                    MIN_POLL_INTERVAL_MS
                },
                enabled: true,
            },
        )
    } else {
        None
    }
}

/// Starts the channel: what is to be kept, and what the host is told.
pub fn on_start(config: &DiscordConfig) -> (r: (Vec<WorkspaceWrite>, ChannelConfig))
    ensures
        write_views(r.0@) == start_writes(*config),
        is_config(r.1, "Discord"@, "/webhook/discord"@, true, poll_config(*config)),
{
    let owner = match &config.owner_id {
        Some(o) => o.as_str(),
        None => "",
    };
    let policy = match &config.dm_policy {
        Some(p) => p.as_str(),
        None => "pairing",
    };
    let allowed = match &config.allow_from {
        Some(v) => write_kept_strings(v),
        None => {
            let none: Vec<String> = Vec::new();
            assert(texts(none@) =~= Seq::empty());
            write_kept_strings(&none)
        },
    };
    let polling = if config.polling_enabled {
        "true"
    } else {
        "false"
    };
    let channels = write_kept_strings(&config.mention_channel_ids);
    let mut v: Vec<WorkspaceWrite> = Vec::new();
    v.push(write_to(OWNER_ID_PATH, owner));
    v.push(write_to(DM_POLICY_PATH, policy));
    v.push(write_to(ALLOW_FROM_PATH, allowed.as_str()));
    v.push(write_to(POLLING_ENABLED_PATH, polling));
    v.push(write_to(MENTION_CHANNEL_IDS_PATH, channels.as_str()));
    assert(write_views(v@) =~= start_writes(*config));
    let poll = if config.polling_enabled {
        let interval_ms: u32 = if config.poll_interval_ms > MIN_POLL_INTERVAL_MS {
            config.poll_interval_ms
        } else {
            MIN_POLL_INTERVAL_MS
        };
        Some(PollConfig { interval_ms, enabled: true })
    } else {
        None
    };
    (v, make_config("Discord", "/webhook/discord", true, poll))
}

/// How a user is mentioned.
pub open spec fn mention_of(id: Seq<char>) -> Seq<char> {
    "<@"@ + id + ">"@
}

/// How a user is mentioned by a nickname.
pub open spec fn nick_mention_of(id: Seq<char>) -> Seq<char> {
    "<@!"@ + id + ">"@
}

/// What follows a mention of a user at the start of a text.
pub open spec fn after_mention(s: Seq<char>, id: Seq<char>) -> Option<Seq<char>> {
    if occurs_at(s, mention_of(id), 0) {
        Some(s.skip(mention_of(id).len() as int))
    } else if occurs_at(s, nick_mention_of(id), 0) {
        Some(s.skip(nick_mention_of(id).len() as int))
    } else {
        None
    }
}

/// Finds what follows a mention of a user at the start of a text.
pub fn strip_mention(s: &str, id: &str) -> (r: Option<String>)
    ensures
        opt_text(r) == after_mention(s@, id@),
{
    let mention = text3("<@", id, ">");
    if let Some(rest) = strip_prefix(s, mention.as_str()) {
        assert(rest@ =~= s@.skip(mention@.len() as int));
        return Some(rest.to_owned());
    }
    let nick = text3("<@!", id, ">");
    if let Some(rest) = strip_prefix(s, nick.as_str()) {
        assert(rest@ =~= s@.skip(nick@.len() as int));
        return Some(rest.to_owned());
    }
    None
}

/// What the agent is told of a message: all of a direct message; of one in a channel
/// what follows a mention of the bot, and nothing where it does not begin with one.
pub open spec fn agent_content(content: Seq<char>, bot: Option<Seq<char>>, is_dm: bool) -> Option<
    Seq<char>,
> {
    let t = trimmed(content);
    if t.len() == 0 {
        None
    } else if is_dm {
        Some(t)
    } else {
        match bot {
            None => None,
            Some(id) => match after_mention(t, id) {
                Some(rest) if trimmed(rest).len() > 0 => Some(trimmed(rest)),
                _ => None,
            },
        }
    }
}

/// Finds what the agent is told of a message.
pub fn gateway_content_for_agent(content: &str, bot_user_id: Option<&str>, is_dm: bool) -> (r:
    Option<String>)
    ensures
        opt_text(r) == agent_content(
            content@,
            match bot_user_id {
                Some(b) => Some(b@),
                None => None,
            },
            is_dm,
        ),
{
    let t = trim(content);
    if t.is_empty() {
        return None;
    }
    if is_dm {
        return Some(t.to_owned());
    }
    let bot = match bot_user_id {
        Some(b) => b,
        None => {
            return None;
        },
    };
    match strip_mention(t, bot) {
        Some(rest) => {
            let cleaned = trim(rest.as_str());
            if cleaned.is_empty() {
                None
            } else {
                Some(cleaned.to_owned())
            }
        },
        None => None,
    }
}

/// The author of a message of the gateway.
#[derive(Debug, PartialEq, Eq)]
pub struct DiscordGatewayAuthor {
    pub id: String,
    pub username: String,
    pub global_name: Option<String>,
    pub bot: bool,
}

/// A message of the gateway.
#[derive(Debug, PartialEq, Eq)]
pub struct DiscordGatewayMessageCreate {
    pub channel_id: String,
    pub guild_id: Option<String>,
    pub content: String,
    pub author: DiscordGatewayAuthor,
}

/// An event of the gateway. What it carries was read in both ways that are of interest;
/// its name tells which one counts.
#[derive(Debug, PartialEq, Eq)]
pub struct DiscordGatewayEvent {
    pub op: u64,
    pub t: Option<String>,
    /// The user that the bot is, where the event carries one.
    pub ready: Option<DiscordGatewayAuthor>,
    /// The message, where the event carries one.
    pub message: Option<DiscordGatewayMessageCreate>,
}

/// A message that is meant for the agent.
#[derive(Debug, PartialEq, Eq)]
pub struct ParsedGatewayMessage {
    pub user_id: String,
    pub user_name: String,
    pub channel_id: String,
    pub content: String,
    pub is_dm: bool,
}

/// What such a message holds.
pub struct GatewayMessageView {
    pub user_id: Seq<char>,
    pub user_name: Seq<char>,
    pub channel_id: Seq<char>,
    pub content: Seq<char>,
    pub is_dm: bool,
}

impl View for ParsedGatewayMessage {
    type V = GatewayMessageView;

    open spec fn view(&self) -> GatewayMessageView {
        GatewayMessageView {
            user_id: self.user_id@,
            user_name: self.user_name@,
            channel_id: self.channel_id@,
            content: self.content@,
            is_dm: self.is_dm,
        }
    }
}

/// What a batch of events came to.
#[derive(Debug, PartialEq, Eq)]
pub struct GatewayPollResult {
    /// The user that the bot is, where that is known.
    pub bot_user_id: Option<String>,
    pub messages: Vec<ParsedGatewayMessage>,
}

/// What several messages hold.
pub open spec fn gateway_views(v: Seq<ParsedGatewayMessage>) -> Seq<GatewayMessageView> {
    v.map_values(|m: ParsedGatewayMessage| m@)
}

/// The bot, as it is known after an event.
pub open spec fn bot_after(e: DiscordGatewayEvent, bot: Option<Seq<char>>) -> Option<Seq<char>> {
    if e.op == 0 && opt_text(e.t) == Some("READY"@) {
        match e.ready {
            Some(u) if u.id@.len() > 0 => Some(u.id@),
            _ => bot,
        }
    } else {
        bot
    }
}

/// What the agent is told of a message, where it is meant for the agent: messages of
/// bots are passed over, and those of the bot itself.
pub open spec fn told_message(m: DiscordGatewayMessageCreate, bot: Option<Seq<char>>) -> Option<
    GatewayMessageView,
> {
    if m.author.bot || bot == Some(m.author.id@) {
        None
    } else {
        match agent_content(m.content@, bot, m.guild_id is None) {
            Some(c) => Some(
                GatewayMessageView {
                    user_id: m.author.id@,
                    user_name: match m.author.global_name {
                        Some(n) => n@,
                        None => m.author.username@,
                    },
                    channel_id: m.channel_id@,
                    content: c,
                    is_dm: m.guild_id is None,
                },
            ),
            None => None,
        }
    }
}

/// The message for the agent in an event, where there is one.
pub open spec fn message_in(e: DiscordGatewayEvent, bot: Option<Seq<char>>) -> Option<
    GatewayMessageView,
> {
    match e.message {
        Some(m) if e.op == 0 && opt_text(e.t) == Some("MESSAGE_CREATE"@) => told_message(m, bot),
        _ => None,
    }
}

/// What a batch of events comes to: who the bot is after it, and the messages.
pub open spec fn gateway_result(events: Seq<DiscordGatewayEvent>, known: Option<Seq<char>>) -> (
    Option<Seq<char>>,
    Seq<GatewayMessageView>,
)
    decreases events.len(),
{
    if events.len() == 0 {
        (known, Seq::empty())
    } else {
        let (bot, messages) = gateway_result(events.drop_last(), known);
        (
            bot_after(events.last(), bot),
            match message_in(events.last(), bot) {
                Some(m) => messages.push(m),
                None => messages,
            },
        )
    }
}

fn tell_message(m: &DiscordGatewayMessageCreate, bot: &Option<String>) -> (r: Option<
    ParsedGatewayMessage,
>)
    ensures
        match r {
            Some(x) => told_message(*m, opt_text(*bot)) == Some(x@),
            None => told_message(*m, opt_text(*bot)) is None,
        },
{
    let own = match bot {
        Some(b) => str_eq(b.as_str(), m.author.id.as_str()),
        None => false,
    };
    if m.author.bot || own {
        return None;
    }
    let is_dm = m.guild_id.is_none();
    let bot_ref = match bot {
        Some(b) => Some(b.as_str()),
        None => None,
    };
    match gateway_content_for_agent(m.content.as_str(), bot_ref, is_dm) {
        Some(content) => {
            let user_name = match &m.author.global_name {
                Some(n) => n.clone(),
                None => m.author.username.clone(),
            };
            Some(
                ParsedGatewayMessage {
                    user_id: m.author.id.clone(),
                    user_name,
                    channel_id: m.channel_id.clone(),
                    content,
                    is_dm,
                },
            )
        },
        None => None,
    }
}

/// Takes a batch of events of the gateway in, in order; `None` stands for a queue that
/// could not be read, of which nothing is told. `known_bot_user_id` is the user that the
/// bot was known to be before it.
pub fn parse_gateway_event_queue(
    events: Option<&Vec<DiscordGatewayEvent>>,
    known_bot_user_id: Option<&str>,
) -> (r: GatewayPollResult)
    ensures
        match events {
            Some(v) => {
                let x = gateway_result(
                    v@,
                    match known_bot_user_id {
                        Some(b) => Some(b@),
                        None => None,
                    },
                );
                opt_text(r.bot_user_id) == x.0 && gateway_views(r.messages@) == x.1
            },
            None => r.bot_user_id is None && r.messages@.len() == 0,
        },
{
    let events = match events {
        Some(v) => v,
        None => {
            return GatewayPollResult { bot_user_id: None, messages: Vec::new() };
        },
    };
    let ghost known = match known_bot_user_id {
        Some(b) => Some(b@),
        None => None,
    };
    proof {
        reveal_strlit("READY");
        reveal_strlit("MESSAGE_CREATE");
        assert("READY"@.len() != "MESSAGE_CREATE"@.len());
    }
    let mut bot: Option<String> = match known_bot_user_id {
        Some(b) => Some(b.to_owned()),
        None => None,
    };
    let mut messages: Vec<ParsedGatewayMessage> = Vec::new();
    let mut i: usize = 0;
    assert(events@.take(0) =~= Seq::<DiscordGatewayEvent>::empty());
    assert(gateway_views(messages@) =~= Seq::empty());
    while i < events.len()
        invariant
            i <= events@.len(),
            "READY"@ != "MESSAGE_CREATE"@,
            opt_text(bot) == gateway_result(events@.take(i as int), known).0,
            gateway_views(messages@) == gateway_result(events@.take(i as int), known).1,
        decreases events@.len() - i,
    {
        assert(events@.take(i + 1).drop_last() =~= events@.take(i as int));
        assert(events@.take(i + 1).last() == events@[i as int]);
        let e = &events[i];
        let ghost before = messages@;
        if e.op == 0 {
            if let Some(t) = &e.t {
                if str_eq(t.as_str(), "READY") {
                    if let Some(u) = &e.ready {
                        if !u.id.as_str().is_empty() {
                            bot = Some(u.id.clone());
                        }
                    }
                } else if str_eq(t.as_str(), "MESSAGE_CREATE") {
                    if let Some(m) = &e.message {
                        if let Some(x) = tell_message(m, &bot) {
                            let ghost v = x@;
                            messages.push(x);
                            assert(gateway_views(messages@) =~= gateway_views(before).push(v));
                        }
                    }
                }
            }
        }
        i = i + 1;
    }
    assert(events@.take(events@.len() as int) =~= events@);
    GatewayPollResult { bot_user_id: bot, messages }
}

/// Whether a queue of the gateway holds events.
pub fn has_gateway_events(queue_json: &str) -> (r: bool)
    ensures
        r == (trimmed(queue_json@).len() > 0 && trimmed(queue_json@) != "[]"@),
{
    let t = trim(queue_json);
    !t.is_empty() && !str_eq(t, "[]")
}

/// The frames in a queue of the gateway: a JSON array of texts. `None` where it is
/// something else.
pub open spec fn queued_frames(queue_json: Seq<char>) -> Option<Seq<Seq<char>>> {
    match json_parsed(queue_json) {
        Some(j) => strings_of(j),
        None => None,
    }
}

/// Reads the frames in a queue of the gateway; `None` where it cannot be read.
pub fn gateway_frames(queue_json: &str) -> (r: Option<Vec<String>>)
    ensures
        match r {
            Some(v) => queued_frames(queue_json@) == Some(texts(v@)),
            None => queued_frames(queue_json@) is None,
        },
{
    match parse(queue_json) {
        Some(j) => read_strings(&j),
        None => None,
    }
}

/// The metadata of a message that came through the gateway.
pub open spec fn gateway_metadata(channel_id: Seq<char>) -> MetadataView {
    MetadataView {
        channel_id,
        interaction_id: Seq::empty(),
        token: Seq::empty(),
        application_id: Seq::empty(),
        source_message_id: None,
        thread_id: None,
    }
}

/// Hands a message of the gateway to the agent.
pub fn emit_gateway_message(m: ParsedGatewayMessage) -> (r: EmittedMessage<
    DiscordMessageMetadata,
>)
    ensures
        r@ == (EmittedView {
            user_id: m@.user_id,
            user_name: Some(m@.user_name),
            content: m@.content,
            thread_id: None,
            metadata: gateway_metadata(m@.channel_id),
        }),
{
    EmittedMessage {
        user_id: m.user_id,
        user_name: Some(m.user_name),
        content: m.content,
        thread_id: None,
        metadata: DiscordMessageMetadata {
            channel_id: m.channel_id,
            interaction_id: String::new(),
            token: String::new(),
            application_id: String::new(),
            source_message_id: None,
            thread_id: None,
        },
    }
}

/// What a reply with a pairing code needs.
#[derive(Debug, PartialEq, Eq)]
pub struct PairingReplyCtx {
    pub channel_id: String,
    pub application_id: String,
    pub token: String,
}

/// Where a message came from.
#[derive(Debug, Clone, Copy, PartialEq, Eq, Structural)]
pub enum PermissionSource {
    Webhook,
    Gateway,
}

/// Whether the policy for direct messages applies: to direct messages, wherever they
/// came from.
pub fn should_apply_dm_pairing(source: PermissionSource, is_dm: bool) -> (r: bool)
    ensures
        r == is_dm,
{
    is_dm
}

/// What is kept of who may talk to the bot.
#[derive(Debug, PartialEq, Eq)]
pub struct PermissionState {
    pub owner_id: Option<String>,
    pub dm_policy: Option<String>,
    /// The users that the configuration allows, as JSON text.
    pub allow_from: Option<String>,
    /// The users that paired, where they could be read.
    pub paired: Option<Vec<String>>,
}

/// Whether a sender may talk to the bot.
#[derive(Debug, PartialEq, Eq)]
pub enum Permission {
    Allowed,
    Denied,
    /// Denied for now: a pairing request is made with this description.
    Pairing(String),
}

/// What a permission holds.
pub enum PermissionView {
    Allowed,
    Denied,
    Pairing(Seq<char>),
}

impl View for Permission {
    type V = PermissionView;

    open spec fn view(&self) -> PermissionView {
        match self {
            Permission::Allowed => PermissionView::Allowed,
            Permission::Denied => PermissionView::Denied,
            Permission::Pairing(m) => PermissionView::Pairing(m@),
        }
    }
}

/// The owner of the bot, where one is set.
pub open spec fn owner_of(owner_id: Option<String>) -> Option<Seq<char>> {
    match owner_id {
        Some(o) if o@.len() > 0 => Some(o@),
        _ => None,
    }
}

/// Whether a list allows a user: by identity, by name, or all.
pub open spec fn listed(allowed: Seq<Seq<char>>, user: Seq<char>, name: Option<Seq<char>>) -> bool {
    allowed.contains("*"@) || allowed.contains(user) || (name matches Some(n) && allowed.contains(
        n,
    ))
}

/// The users that are allowed: those of the configuration and those that paired.
pub open spec fn allowed_users(s: PermissionState) -> Seq<Seq<char>> {
    kept_strings(opt_text(s.allow_from)) + match s.paired {
        Some(v) => texts(v@),
        None => Seq::empty(),
    }
}

/// The description of a pairing request.
pub open spec fn pairing_meta(user: Seq<char>, name: Option<Seq<char>>) -> JsonView {
    JsonView::Object(seq![("user_id"@, JsonView::Str(user)), ("username"@, opt_json(name))])
}

/// Whether a sender may talk to the bot: where it has an owner, the owner alone; in a
/// channel everyone; in direct messages as the policy has it, which is open to all, or
/// to those that are listed, with pairing for the others where the policy is that.
pub open spec fn permission(
    s: PermissionState,
    user: Seq<char>,
    name: Option<Seq<char>>,
    is_dm: bool,
) -> PermissionView {
    let policy = match s.dm_policy {
        Some(p) => p@,
        None => "pairing"@,
    };
    match owner_of(s.owner_id) {
        Some(o) => if user == o {
            PermissionView::Allowed
        } else {
            PermissionView::Denied
        },
        None => if !is_dm || policy == "open"@ || listed(allowed_users(s), user, name) {
            PermissionView::Allowed
        } else if policy == "pairing"@ {
            PermissionView::Pairing(json_text(pairing_meta(user, name)))
        } else {
            PermissionView::Denied
        },
    }
}

fn is_listed(v: &Vec<String>, user: &str, name: Option<&str>) -> (r: bool)
    ensures
        r == listed(
            texts(v@),
            user@,
            match name {
                Some(n) => Some(n@),
                None => None,
            },
        ),
{
    proof {
        lemma_holds_texts(v@, "*"@);
        lemma_holds_texts(v@, user@);
        if name is Some {
            lemma_holds_texts(v@, name->0@);
        }
    }
    if contains_string(v, "*") || contains_string(v, user) {
        return true;
    }
    match name {
        Some(n) => contains_string(v, n),
        None => false,
    }
}

proof fn lemma_listed_in_both(
    a: Seq<Seq<char>>,
    b: Seq<Seq<char>>,
    user: Seq<char>,
    name: Option<Seq<char>>,
)
    ensures
        listed(a + b, user, name) == (listed(a, user, name) || listed(b, user, name)),
{
    assert forall|x: Seq<char>| #[trigger]
        (a + b).contains(x) == (a.contains(x) || b.contains(x)) by {
        if a.contains(x) {
            let i = choose|i: int| 0 <= i < a.len() && a[i] == x;
            assert((a + b)[i] == x);
        }
        if b.contains(x) {
            let i = choose|i: int| 0 <= i < b.len() && b[i] == x;
            assert((a + b)[a.len() + i] == x);
        }
        if (a + b).contains(x) {
            let i = choose|i: int| 0 <= i < (a + b).len() && (a + b)[i] == x;
            if i < a.len() {
                assert(a[i] == x);
            } else {
                assert(b[i - a.len()] == x);
            }
        }
    }
}

/// Decides whether a sender may talk to the bot.
pub fn check_sender_permission(
    state: &PermissionState,
    user_id: &str,
    username: Option<&str>,
    is_dm: bool,
    source: PermissionSource,
) -> (r: Permission)
    ensures
        r@ == permission(
            *state,
            user_id@,
            match username {
                Some(n) => Some(n@),
                None => None,
            },
            is_dm,
        ),
{
    let ghost name = match username {
        Some(n) => Some(n@),
        None => None,
    };
    if let Some(owner) = &state.owner_id {
        if !owner.as_str().is_empty() {
            if str_eq(user_id, owner.as_str()) {
                return Permission::Allowed;
            }
            return Permission::Denied;
        }
    }
    if !should_apply_dm_pairing(source, is_dm) {
        return Permission::Allowed;
    }
    let policy = match &state.dm_policy {
        Some(p) => p.as_str(),
        None => "pairing",
    };
    if str_eq(policy, "open") {
        return Permission::Allowed;
    }
    let allow_from = match &state.allow_from {
        Some(t) => Some(t.as_str()),
        None => None,
    };
    let configured = read_kept_strings(allow_from);
    let by_config = is_listed(&configured, user_id, username);
    let by_pairing = match &state.paired {
        Some(v) => is_listed(v, user_id, username),
        None => false,
    };
    proof {
        let b = match &state.paired {
            Some(v) => texts(v@),
            None => Seq::empty(),
        };
        lemma_listed_in_both(texts(configured@), b, user_id@, name);
        if state.paired is None {
            assert(!listed(b, user_id@, name));
        }
    }
    if by_config || by_pairing {
        return Permission::Allowed;
    }
    if str_eq(policy, "pairing") {
        let shown = match username {
            Some(n) => json_str(n),
            None => Json::Null,
        };
        let mut v: Vec<(String, Json)> = Vec::new();
        v.push(("user_id".to_owned(), json_str(user_id)));
        v.push(("username".to_owned(), shown));
        assert(fields(v@) =~= pairing_meta(user_id@, name)->Object_0);
        return Permission::Pairing(render(&object(v)));
    }
    Permission::Denied
}

/// The route of a reply with a pairing code.
pub open spec fn pairing_route(c: PairingReplyCtx) -> RouteView {
    if c.application_id@.len() > 0 && c.token@.len() > 0 {
        RouteView::InteractionWebhook(webhook_url(c.application_id@, c.token@))
    } else {
        RouteView::ChannelMessage(channel_url(c.channel_id@))
    }
}

/// Finds the route of a reply with a pairing code.
pub fn pairing_reply_route(ctx: &PairingReplyCtx) -> (r: DiscordResponseRoute)
    ensures
        r@ == pairing_route(*ctx),
{
    if !ctx.application_id.as_str().is_empty() && !ctx.token.as_str().is_empty() {
        let mut s = text3(DISCORD_API_BASE, "/webhooks/", ctx.application_id.as_str());
        s.append("/");
        s.append(ctx.token.as_str());
        DiscordResponseRoute::InteractionWebhook(s)
    } else {
        let mut s = text3(DISCORD_API_BASE, "/channels/", ctx.channel_id.as_str());
        s.append("/messages");
        DiscordResponseRoute::ChannelMessage(s)
    }
}

/// What a sender is told of a pairing code.
pub open spec fn pairing_text(code: Seq<char>) -> Seq<char> {
    "Enter this code in IronClaw to pair your discord account: `"@ + code
        + "`. CLI fallback: `ironclaw pairing approve discord "@ + code + "`"@
}

/// The payload of a reply with a pairing code: only its receiver sees a reply to an
/// interaction.
pub open spec fn pairing_payload(c: PairingReplyCtx, code: Seq<char>) -> JsonView {
    if pairing_route(c) is InteractionWebhook {
        JsonView::Object(
            seq![
                ("content"@, JsonView::Str(pairing_text(code))),
                ("flags"@, JsonView::Uint(64)),
            ],
        )
    } else {
        JsonView::Object(seq![("content"@, JsonView::Str(pairing_text(code)))])
    }
}

/// Makes the request that sends a pairing code.
pub fn send_pairing_reply(ctx: &PairingReplyCtx, code: &str) -> (r: HttpCall)
    ensures
        r@ == (CallView {
            method: "POST"@,
            url: match pairing_route(*ctx) {
                RouteView::InteractionWebhook(u) => u,
                RouteView::ChannelMessage(u) => u,
            },
            headers: json_text(json_content_type()),
            body: Some(json_bytes(pairing_payload(*ctx, code@))),
            timeout_ms: None,
        }),
{
    let mut text = "Enter this code in IronClaw to pair your discord account: `".to_owned();
    text.append(code);
    text.append("`. CLI fallback: `ironclaw pairing approve discord ");
    text.append(code);
    text.append("`");
    let mut v: Vec<(String, Json)> = Vec::new();
    v.push(("content".to_owned(), Json::Str(text)));
    let url = match pairing_reply_route(ctx) {
        DiscordResponseRoute::InteractionWebhook(u) => {
            v.push(("flags".to_owned(), Json::Uint(64)));
            u
        },
        DiscordResponseRoute::ChannelMessage(u) => u,
    };
    assert(fields(v@) =~= pairing_payload(*ctx, code@)->Object_0);
    HttpCall {
        method: "POST".to_owned(),
        url,
        headers_json: json_headers(),
        body: Some(render_bytes(&object(v))),
        timeout_ms: None,
    }
}

/// A bot with an owner talks to nobody else, wherever the message comes from and
/// whatever the policy.
pub proof fn owner_alone_is_allowed(
    s: PermissionState,
    user: Seq<char>,
    name: Option<Seq<char>>,
    is_dm: bool,
)
    requires
        owner_of(s.owner_id) is Some,
    ensures
        permission(s, user, name, is_dm) is Allowed <==> owner_of(s.owner_id) == Some(user),
        !(permission(s, user, name, is_dm) is Pairing),
{
}

/// A sender whom pairing put on the list is allowed from then on.
pub proof fn paired_sender_is_allowed(
    s: PermissionState,
    user: Seq<char>,
    name: Option<Seq<char>>,
    is_dm: bool,
)
    requires
        owner_of(s.owner_id) is None,
        s.paired matches Some(v) && texts(v@).contains(user),
    ensures
        permission(s, user, name, is_dm) is Allowed,
{
    lemma_listed_in_both(
        kept_strings(opt_text(s.allow_from)),
        texts(s.paired->0@),
        user,
        name,
    );
}

/// A bot whose owner is set answers the owner and nobody else.
pub proof fn owner_is_answered(
    s: PermissionState,
    owner: String,
    user: Seq<char>,
    name: Option<Seq<char>>,
    is_dm: bool,
)
    requires
        s.owner_id == Some(owner),
        owner@.len() > 0,
    ensures
        permission(s, owner@, name, is_dm) is Allowed,
        user != owner@ ==> permission(s, user, name, is_dm) is Denied,
{
}

/// Where no owner is set everyone is answered in a channel; and in direct messages
/// everyone where the policy is open, and who paired or is on the list of the
/// configuration, by identity, by name or with all others, whatever the policy.
pub proof fn users_are_answered(
    s: PermissionState,
    user: Seq<char>,
    name: Option<Seq<char>>,
    is_dm: bool,
)
    requires
        s.owner_id matches Some(o) ==> o@.len() == 0,
        !is_dm || (s.dm_policy matches Some(p) && p@ == "open"@) || (s.paired matches Some(v)
            && exists|i: int| 0 <= i < v@.len() && (#[trigger] v@[i])@ == user) || (
        s.allow_from matches Some(t) && json_parsed(t@) matches Some(JsonView::Array(a)) && (
        forall|i: int| 0 <= i < a.len() ==> (#[trigger] a[i]) is Str) && exists|i: int|
            0 <= i < a.len() && ((#[trigger] a[i]) == JsonView::Str(user) || a[i] == JsonView::Str(
                "*"@,
            ) || (name is Some && a[i] == JsonView::Str(name->0)))),
    ensures
        permission(s, user, name, is_dm) is Allowed,
{
    let kept = kept_strings(opt_text(s.allow_from));
    let all = allowed_users(s);
    if let Some(v) = s.paired {
        if exists|i: int| 0 <= i < v@.len() && (#[trigger] v@[i])@ == user {
            let i = choose|i: int| 0 <= i < v@.len() && (#[trigger] v@[i])@ == user;
            assert(texts(v@)[i] == user);
            assert(all[kept.len() + i] == user);
        }
    }
    if let Some(t) = s.allow_from {
        if let Some(JsonView::Array(a)) = json_parsed(t@) {
            if (forall|i: int| 0 <= i < a.len() ==> (#[trigger] a[i]) is Str) && exists|i: int|
                0 <= i < a.len() && ((#[trigger] a[i]) == JsonView::Str(user) || a[i]
                    == JsonView::Str("*"@) || (name is Some && a[i] == JsonView::Str(name->0))) {
                let i = choose|i: int|
                    0 <= i < a.len() && ((#[trigger] a[i]) == JsonView::Str(user) || a[i]
                        == JsonView::Str("*"@) || (name is Some && a[i] == JsonView::Str(
                        name->0,
                    )));
                assert(kept[i] == a[i]->Str_0);
                assert(all[i] == kept[i]);
            }
        }
    }
}

/// In a direct message a sender who is on no list is not answered: the sender is asked to
/// pair where that is the policy, as it is where none is set, and denied otherwise, unless
/// the policy is open.
pub proof fn strangers_are_asked_to_pair(
    s: PermissionState,
    user: Seq<char>,
    name: Option<Seq<char>>,
)
    requires
        s.owner_id matches Some(o) ==> o@.len() == 0,
        s.allow_from is None,
        s.paired matches Some(v) ==> v@.len() == 0,
    ensures
        s.dm_policy is None || (s.dm_policy matches Some(p) && p@ == "pairing"@) ==> (permission(
            s,
            user,
            name,
            true,
        ) matches PermissionView::Pairing(meta) && meta == json_text(pairing_meta(user, name))),
        (s.dm_policy matches Some(p) && p@ != "pairing"@ && p@ != "open"@) ==> permission(
            s,
            user,
            name,
            true,
        ) is Denied,
        pairing_meta(user, name).get("user_id"@) == Some(JsonView::Str(user)),
{
    reveal_with_fuel(field_of, 2);
    reveal_strlit("open");
    reveal_strlit("pairing");
    assert("open"@.len() != "pairing"@.len());
    assert(allowed_users(s).len() == 0);
}

/// The agent is told all of a direct message but the white space around it; of a message
/// in a channel it is told what follows a mention of the bot, in either form, at its
/// beginning, and nothing where there is no such mention or nothing follows it.
pub proof fn agent_is_told_what_was_said(
    content: Seq<char>,
    bot: Option<Seq<char>>,
    id: Seq<char>,
    rest: Seq<char>,
)
    ensures
        trimmed(content).len() > 0 ==> agent_content(content, bot, true) == Some(
            trimmed(content),
        ),
        trimmed(content).len() == 0 ==> agent_content(content, bot, true) is None,
        agent_content(content, None, false) is None,
        (trimmed(content) == "<@"@ + id + ">"@ + rest || trimmed(content) == "<@!"@ + id + ">"@
            + rest) && trimmed(rest).len() > 0 && !occurs_at("!"@ + id, id + ">"@, 0)
            ==> agent_content(content, Some(id), false) == Some(trimmed(rest)),
        !occurs_at(trimmed(content), "<@"@ + id + ">"@, 0) && !occurs_at(
            trimmed(content),
            "<@!"@ + id + ">"@,
            0,
        ) ==> agent_content(content, Some(id), false) is None,
{
    let t = trimmed(content);
    let a = mention_of(id);
    let b = nick_mention_of(id);
    if t == a + rest {
        assert(t.subrange(0, a.len() as int) =~= a);
        assert(t.skip(a.len() as int) =~= rest);
    } else if t == b + rest {
        assert(t.subrange(0, b.len() as int) =~= b);
        assert(t.skip(b.len() as int) =~= rest);
        if occurs_at(t, a, 0) && !occurs_at("!"@ + id, id + ">"@, 0) {
            reveal_strlit("<@");
            reveal_strlit("<@!");
            reveal_strlit("!");
            reveal_strlit(">");
            let w = "!"@ + id;
            let p = id + ">"@;
            assert forall|k: int| 0 <= k < p.len() implies (#[trigger] w[k]) == p[k] by {
                assert(t.subrange(0, a.len() as int)[k + 2] == a[k + 2]);
                assert(a[k + 2] == p[k]);
                assert(t[k + 2] == b[k + 2]);
                assert(b[k + 2] == w[k]);
            }
            assert(w.subrange(0, p.len() as int) =~= p);
            assert(occurs_at(w, p, 0));
        }
    }
}

/// Direct messages of people are told, in whatever place they came in, with who wrote them
/// and where; messages of bots are not, nor are those that the bot wrote itself.
pub proof fn direct_messages_are_told(m: DiscordGatewayMessageCreate, bot: Option<Seq<char>>)
    ensures
        m.guild_id is None && !m.author.bot && bot != Some(m.author.id@) && trimmed(
            m.content@,
        ).len() > 0 ==> (told_message(m, bot) matches Some(v) && v.user_id == m.author.id@
            && v.channel_id == m.channel_id@ && v.content == trimmed(m.content@) && v.is_dm && (
        m.author.global_name matches Some(n) ==> v.user_name == n@) && (
        m.author.global_name is None ==> v.user_name == m.author.username@)),
        m.author.bot || bot == Some(m.author.id@) ==> told_message(m, bot) is None,
        told_message(m, bot) matches Some(v) ==> v.user_id == m.author.id@ && v.channel_id
            == m.channel_id@ && v.is_dm == (m.guild_id is None),
{
}

/// Every message for the agent in a batch of events is handed on, and two of them in
/// their order. Which user the bot is, is known from the events before it.
pub proof fn messages_of_a_batch_are_told(
    events: Seq<DiscordGatewayEvent>,
    known: Option<Seq<char>>,
    i: int,
    j: int,
    a: DiscordGatewayMessageCreate,
    b: DiscordGatewayMessageCreate,
) -> (at: (int, int))
    requires
        0 <= i <= j < events.len(),
        events[i].op == 0,
        events[j].op == 0,
        events[i].t matches Some(t) && t@ == "MESSAGE_CREATE"@,
        events[j].t matches Some(t) && t@ == "MESSAGE_CREATE"@,
        events[i].message == Some(a),
        events[j].message == Some(b),
        told_message(a, gateway_result(events.take(i), known).0) is Some,
        told_message(b, gateway_result(events.take(j), known).0) is Some,
    ensures
        ({
            let all = gateway_result(events, known).1;
            &&& 0 <= at.0 <= at.1 < all.len()
            &&& i < j ==> at.0 < at.1
            &&& all[at.0] == told_message(a, gateway_result(events.take(i), known).0)->0
            &&& all[at.1] == told_message(b, gateway_result(events.take(j), known).0)->0
        }),
    decreases events.len(),
{
    let rest = events.drop_last();
    let n = rest.len() as int;
    let before = gateway_result(rest, known).1;
    assert(events.take(n) =~= rest);
    if j < n {
        assert(rest.take(i) =~= events.take(i));
        assert(rest.take(j) =~= events.take(j));
        messages_of_a_batch_are_told(rest, known, i, j, a, b)
    } else if i < n {
        assert(rest.take(i) =~= events.take(i));
        let at = messages_of_a_batch_are_told(rest, known, i, i, a, a);
        (at.0, before.len() as int)
    } else {
        (before.len() as int, before.len() as int)
    }
}

/// Who the bot is, is known from the last event that says so, and from before where none
/// does.
pub proof fn bot_is_known_from_the_last_greeting(
    events: Seq<DiscordGatewayEvent>,
    known: Option<Seq<char>>,
    i: int,
    user: DiscordGatewayAuthor,
)
    ensures
        0 <= i < events.len() && events[i].op == 0 && (events[i].t matches Some(t) && t@
            == "READY"@) && events[i].ready == Some(user) && user.id@.len() > 0 && (forall|k: int|
            i < k < events.len() ==> (#[trigger] events[k]).ready is None) ==> gateway_result(
            events,
            known,
        ).0 == Some(user.id@),
        (forall|k: int| 0 <= k < events.len() ==> (#[trigger] events[k]).ready is None)
            ==> gateway_result(events, known).0 == known,
    decreases events.len(),
{
    if events.len() > 0 {
        let rest = events.drop_last();
        bot_is_known_from_the_last_greeting(rest, known, i, user);
        assert(forall|k: int| 0 <= k < rest.len() ==> rest[k] == events[k]);
        assert(events[events.len() - 1] == events.last());
    }
}

/// What came through the gateway is answered in its channel.
pub proof fn gateway_messages_are_answered_in_their_channel(channel_id: Seq<char>)
    ensures
        gateway_metadata(channel_id).channel_id == channel_id,
        gateway_metadata(channel_id).interaction_id.len() == 0,
        gateway_metadata(channel_id).token.len() == 0,
        gateway_metadata(channel_id).source_message_id is None,
{
}

/// A sender is told the code that was made, and gets it where the sender can see it: as
/// the answer to an interaction, seen by nobody else, or in the channel.
pub proof fn pairing_codes_are_told(c: PairingReplyCtx, code: Seq<char>)
    ensures
        has_substring(pairing_text(code), code),
        pairing_payload(c, code).get("content"@) == Some(JsonView::Str(pairing_text(code))),
        c.application_id@.len() > 0 && c.token@.len() > 0 ==> pairing_route(c)
            == RouteView::InteractionWebhook(webhook_url(c.application_id@, c.token@))
            && pairing_payload(c, code).get("flags"@) == Some(JsonView::Uint(64)),
        c.application_id@.len() == 0 || c.token@.len() == 0 ==> pairing_route(c)
            == RouteView::ChannelMessage(channel_url(c.channel_id@)),
{
    reveal_with_fuel(field_of, 3);
    reveal_strlit("content");
    reveal_strlit("flags");
    assert("content"@.len() != "flags"@.len());
    let f = seq![
        ("content"@, JsonView::Str(pairing_text(code))),
        ("flags"@, JsonView::Uint(64)),
    ];
    assert(f.drop_first()[0] == f[1]);
    let head = "Enter this code in IronClaw to pair your discord account: `"@;
    let tail = "`. CLI fallback: `ironclaw pairing approve discord "@ + code + "`"@;
    middle_is_found(head, code, tail);
    assert(pairing_text(code) =~= head + code + tail);
}

/// The start of the channel keeps its settings.
pub proof fn settings_are_kept(c: DiscordConfig)
    ensures
        ({
            let w = start_writes(c);
            &&& c.owner_id matches Some(o) ==> w.contains((OWNER_ID_PATH@, o@))
            &&& c.owner_id is None ==> w.contains((OWNER_ID_PATH@, ""@))
            &&& c.dm_policy matches Some(p) ==> w.contains((DM_POLICY_PATH@, p@))
            &&& c.dm_policy is None ==> w.contains((DM_POLICY_PATH@, "pairing"@))
            &&& c.allow_from matches Some(v) ==> w.contains(
                (ALLOW_FROM_PATH@, json_text(strings_json(texts(v@)))),
            )
            &&& c.polling_enabled ==> w.contains((POLLING_ENABLED_PATH@, "true"@))
            &&& !c.polling_enabled ==> w.contains((POLLING_ENABLED_PATH@, "false"@))
            &&& w.contains(
                (MENTION_CHANNEL_IDS_PATH@, json_text(strings_json(texts(c.mention_channel_ids@)))),
            )
        }),
        poll_config(c) is Some <==> c.polling_enabled,
        poll_config(c) matches Some(p) ==> p.enabled && p.interval_ms >= MIN_POLL_INTERVAL_MS
            && p.interval_ms >= c.poll_interval_ms && (p.interval_ms == c.poll_interval_ms
            || p.interval_ms == MIN_POLL_INTERVAL_MS),
{
    let w = start_writes(c);
    assert(w[0].0 == OWNER_ID_PATH@ && w[1].0 == DM_POLICY_PATH@ && w[2].0 == ALLOW_FROM_PATH@
        && w[3].0 == POLLING_ENABLED_PATH@ && w[4].0 == MENTION_CHANNEL_IDS_PATH@);
}

} // verus!

//! Discord: polling channels for messages that mention the bot.
//!
//! For each channel a cursor is kept, the newest message that was handed on, and the
//! messages that were looked at last, so that none is handed on twice.

use std::cmp::Ordering;

use vstd::prelude::*;

use crate::channels::discord::{
    DiscordMessageMetadata, MetadataView, DISCORD_API_BASE,
};
use crate::channels::discord_access::{
    after_mention, check_sender_permission, mention_of, nick_mention_of, permission, strip_mention,
    Permission, PermissionSource, PermissionState,
};
use crate::channels::discord_interact::{
    auth_headers, discord_auth_headers_json, DiscordUser,
};
use crate::channels::host::{
    emitted_views, strings_json, succeeded, text2, text3, utf8_text, write_kept_strings,
    write_to, write_views, CallView, EmittedMessage, EmittedView, HttpCall, HttpReply,
    WorkspaceWrite, is_success,
};
use crate::json::{json_parsed, json_text, parse, Json, JsonView};
use crate::number::{parse_u64, parsed};
use crate::text::{
    contains_string, has_substring, lex_is_total, lex_less, occurs_at, opt_text, str_contains, str_eq,
    str_less, texts, trim, trimmed,
};
use crate::types::capability::lemma_holds_texts;
use vstd::utf8::{decode_utf8, valid_utf8};

verus! {

/// How many of the messages that were looked at are remembered for a channel.
pub const DEDUP_CAP: usize = 200;

/// How many pages of messages are fetched at most at one poll.
pub const MENTION_POLL_MAX_PAGES: usize = 5;

/// How many messages a full page holds.
pub const PAGE_SIZE: usize = 100;

/// The author of a message.
#[derive(Debug, PartialEq, Eq)]
pub struct DiscordChannelAuthor {
    pub id: String,
    pub username: String,
    pub global_name: Option<String>,
    pub bot: bool,
}

/// A message of a channel.
#[derive(Debug, PartialEq, Eq)]
pub struct DiscordChannelMessage {
    pub id: String,
    pub content: String,
    pub channel_id: String,
    pub author: DiscordChannelAuthor,
    pub mentions: Vec<DiscordUser>,
    pub webhook_id: Option<String>,
}

/// The number that an identity writes, where it writes one of 64 bits.
pub open spec fn id_number(s: Seq<char>) -> Option<nat> {
    parsed(s, u64::MAX as nat)
}

/// The order of two identities: that of their numbers, where both are numbers, and that
/// of their texts otherwise.
pub open spec fn id_order(a: Seq<char>, b: Seq<char>) -> Ordering {
    match (id_number(a), id_number(b)) {
        (Some(m), Some(n)) => if m < n {
            Ordering::Less
        } else if m == n {
            Ordering::Equal
        } else {
            Ordering::Greater
        },
        _ => if lex_less(a, b) {
            Ordering::Less
        } else if a == b {
            Ordering::Equal
        } else {
            Ordering::Greater
        },
    }
}

/// Orders two identities.
pub fn compare_message_ids(a: &str, b: &str) -> (r: Ordering)
    ensures
        r == id_order(a@, b@),
{
    match (parse_u64(a), parse_u64(b)) {
        (Some(m), Some(n)) => if m < n {
            Ordering::Less
        } else if m == n {
            Ordering::Equal
        } else {
            Ordering::Greater
        },
        _ => if str_less(a, b) {
            Ordering::Less
        } else if str_eq(a, b) {
            Ordering::Equal
        } else {
            Ordering::Greater
        },
    }
}

/// Whether a message is newer than another.
pub open spec fn newer(current: Seq<char>, than: Seq<char>) -> bool {
    id_order(current, than) == Ordering::Greater
}

/// Whether a message is newer than the one that was seen last.
pub fn is_new_message(last_seen: &str, current: &str) -> (r: bool)
    ensures
        r == newer(current@, last_seen@),
{
    match compare_message_ids(current, last_seen) {
        Ordering::Greater => true,
        _ => false,
    }
}

/// Where the messages that were looked at are kept for a channel.
pub fn dedup_ids_path(channel_id: &str) -> (r: String)
    ensures
        r@ == "state/mention_dedup/"@ + channel_id@,
{
    text2("state/mention_dedup/", channel_id)
}

/// Where the cursor of a channel is kept.
pub fn cursor_path(channel_id: &str) -> (r: String)
    ensures
        r@ == "state/mention_cursor/"@ + channel_id@,
{
    text2("state/mention_cursor/", channel_id)
}

/// The messages that are remembered after another was looked at: each once, and the
/// last of them where there are too many.
pub open spec fn remembered(ids: Seq<Seq<char>>, id: Seq<char>) -> Seq<Seq<char>> {
    if ids.contains(id) {
        ids
    } else {
        let all = ids.push(id);
        if all.len() > DEDUP_CAP {
            all.skip(all.len() - DEDUP_CAP)
        } else {
            all
        }
    }
}

/// Remembers that a message was looked at.
pub fn remember_processed_id(msg_id: &str, ids: &mut Vec<String>)
    ensures
        texts(final(ids)@) == remembered(texts(old(ids)@), msg_id@),
{
    proof {
        lemma_holds_texts(ids@, msg_id@);
    }
    if contains_string(ids, msg_id) {
        return;
    }
    let ghost start = ids@;
    ids.push(msg_id.to_owned());
    let ghost all = texts(ids@);
    assert(all =~= texts(start).push(msg_id@));
    let ghost mut dropped: int = 0;
    assert(all.skip(0) =~= all);
    while ids.len() > DEDUP_CAP
        invariant
            0 <= dropped,
            ids@.len() == all.len() - dropped,
            dropped == 0 || ids@.len() >= DEDUP_CAP,
            texts(ids@) == all.skip(dropped),
        decreases ids@.len(),
    {
        let ghost left = ids@;
        let _ = ids.remove(0);
        proof {
            assert(texts(ids@) =~= all.skip(dropped + 1)) by {
                assert forall|k: int| 0 <= k < ids@.len() implies texts(ids@)[k] == all.skip(
                    dropped + 1,
                )[k] by {
                    assert(ids@[k] == left[k + 1]);
                    assert(texts(left)[k + 1] == all.skip(dropped)[k + 1]);
                }
            }
            dropped = dropped + 1;
        }
    }
}

/// Whether a message mentions the bot: in its list of mentions, or in its text.
pub open spec fn mentions(m: DiscordChannelMessage, bot: Seq<char>) -> bool {
    (exists|i: int| 0 <= i < m.mentions@.len() && (#[trigger] m.mentions@[i]).id@ == bot)
        || has_substring(m.content@, mention_of(bot)) || has_substring(
        m.content@,
        nick_mention_of(bot),
    )
}

/// Decides whether a message mentions the bot.
pub fn message_mentions_bot(msg: &DiscordChannelMessage, bot_id: &str) -> (r: bool)
    ensures
        r == mentions(*msg, bot_id@),
{
    let mut i: usize = 0;
    while i < msg.mentions.len()
        invariant
            i <= msg.mentions@.len(),
            forall|k: int| 0 <= k < i ==> (#[trigger] msg.mentions@[k]).id@ != bot_id@,
        decreases msg.mentions@.len() - i,
    {
        if str_eq(msg.mentions[i].id.as_str(), bot_id) {
            return true;
        }
        i = i + 1;
    }
    let mention = text3("<@", bot_id, ">");
    let nick = text3("<@!", bot_id, ">");
    str_contains(msg.content.as_str(), mention.as_str()) || str_contains(
        msg.content.as_str(),
        nick.as_str(),
    )
}

/// A text without the mention of the bot that it begins with.
pub open spec fn without_mention(content: Seq<char>, bot: Seq<char>) -> Seq<char> {
    let t = trimmed(content);
    match after_mention(t, bot) {
        Some(rest) => trimmed(rest),
        None => t,
    }
}

/// Takes the mention of the bot that a text begins with away.
pub fn strip_bot_mention(content: &str, bot_id: &str) -> (r: String)
    ensures
        r@ == without_mention(content@, bot_id@),
{
    let t = trim(content);
    match strip_mention(t, bot_id) {
        Some(rest) => trim(rest.as_str()).to_owned(),
        None => t.to_owned(),
    }
}

/// The state of a poll of one channel: the messages that were handed on, the cursor, and
/// the messages that were looked at.
pub struct PollView {
    pub emitted: Seq<EmittedView<MetadataView>>,
    pub cursor: Seq<char>,
    pub processed: Seq<Seq<char>>,
}

/// What a message is handed on as.
pub open spec fn mention_view(m: DiscordChannelMessage, bot: Seq<char>) -> EmittedView<
    MetadataView,
> {
    EmittedView {
        user_id: m.author.id@,
        user_name: Some(
            match m.author.global_name {
                Some(n) => n@,
                None => m.author.username@,
            },
        ),
        content: without_mention(m.content@, bot),
        thread_id: None,
        metadata: MetadataView {
            channel_id: m.channel_id@,
            interaction_id: Seq::empty(),
            token: Seq::empty(),
            application_id: Seq::empty(),
            source_message_id: Some(m.id@),
            thread_id: None,
        },
    }
}

/// Whether a message is meant for the agent: it is written by a person who is allowed,
/// mentions the bot, and says something.
pub open spec fn is_for_agent(m: DiscordChannelMessage, bot: Seq<char>, s: PermissionState) -> bool {
    &&& !m.author.bot
    &&& m.author.id@ != bot
    &&& m.webhook_id is None
    &&& mentions(m, bot)
    &&& permission(s, m.author.id@, Some(m.author.username@), false) is Allowed
    &&& without_mention(m.content@, bot).len() > 0
}

/// The state of a poll after a message: one that is not new, or was looked at, changes
/// nothing; every other is looked at, and handed on where it is meant for the agent.
pub open spec fn after_message(
    p: PollView,
    m: DiscordChannelMessage,
    last_seen: Seq<char>,
    bot: Seq<char>,
    s: PermissionState,
) -> PollView {
    if !newer(m.id@, last_seen) || p.processed.contains(m.id@) {
        p
    } else if is_for_agent(m, bot, s) {
        PollView {
            emitted: p.emitted.push(mention_view(m, bot)),
            cursor: if newer(m.id@, p.cursor) {
                m.id@
            } else {
                p.cursor
            },
            processed: remembered(p.processed, m.id@),
        }
    } else {
        PollView { processed: remembered(p.processed, m.id@), ..p }
    }
}

/// The state of a poll after several messages.
pub open spec fn after_messages(
    p: PollView,
    messages: Seq<DiscordChannelMessage>,
    last_seen: Seq<char>,
    bot: Seq<char>,
    s: PermissionState,
) -> PollView
    decreases messages.len(),
{
    if messages.len() == 0 {
        p
    } else {
        after_message(
            after_messages(p, messages.drop_last(), last_seen, bot, s),
            messages.last(),
            last_seen,
            bot,
            s,
        )
    }
}

/// What a poll of a channel came to.
#[derive(Debug, PartialEq, Eq)]
pub struct MentionPoll {
    /// The messages that are handed on.
    pub emitted: Vec<EmittedMessage<DiscordMessageMetadata>>,
    /// The cursor, to be kept where it has changed.
    pub cursor: String,
    /// The messages that were looked at, to be kept.
    pub processed: Vec<String>,
}

impl View for MentionPoll {
    type V = PollView;

    open spec fn view(&self) -> PollView {
        PollView {
            emitted: emitted_views(self.emitted@),
            cursor: self.cursor@,
            processed: texts(self.processed@),
        }
    }
}

impl MentionPoll {
    fn look_at(
        &mut self,
        msg: &DiscordChannelMessage,
        last_seen: &str,
        bot_id: &str,
        state: &PermissionState,
    )
        ensures
            final(self)@ == after_message(old(self)@, *msg, last_seen@, bot_id@, *state),
    {
        proof {
            lemma_holds_texts(self.processed@, msg.id@);
        }
        if !is_new_message(last_seen, msg.id.as_str()) || contains_string(
            &self.processed,
            msg.id.as_str(),
        ) {
            return;
        }
        let ghost before = self.emitted@;
        let person = !msg.author.bot && !str_eq(msg.author.id.as_str(), bot_id)
            && msg.webhook_id.is_none();
        if person && message_mentions_bot(msg, bot_id) {
            let allowed = match check_sender_permission(
                state,
                msg.author.id.as_str(),
                Some(msg.author.username.as_str()),
                false,
                PermissionSource::Webhook,
            ) {
                Permission::Allowed => true,
                _ => false,
            };
            let content = strip_bot_mention(msg.content.as_str(), bot_id);
            if allowed && !content.as_str().is_empty() {
                let user_name = match &msg.author.global_name {
                    Some(n) => n.clone(),
                    None => msg.author.username.clone(),
                };
                let message = EmittedMessage {
                    user_id: msg.author.id.clone(),
                    user_name: Some(user_name),
                    content,
                    thread_id: None,
                    metadata: DiscordMessageMetadata {
                        channel_id: msg.channel_id.clone(),
                        interaction_id: String::new(),
                        token: String::new(),
                        application_id: String::new(),
                        source_message_id: Some(msg.id.clone()),
                        thread_id: None,
                    },
                };
                let ghost v = message@;
                assert(v == mention_view(*msg, bot_id@));
                self.emitted.push(message);
                assert(emitted_views(self.emitted@) =~= emitted_views(before).push(v));
                if is_new_message(self.cursor.as_str(), msg.id.as_str()) {
                    self.cursor = msg.id.clone();
                }
            }
        }
        remember_processed_id(msg.id.as_str(), &mut self.processed);
    }
}

/// Looks at the messages of a channel that came after the cursor `last_seen`.
/// `processed` are those that were looked at before.
pub fn poll_channel_mentions(
    messages: &Vec<DiscordChannelMessage>,
    last_seen: &str,
    processed: Vec<String>,
    bot_id: &str,
    state: &PermissionState,
) -> (r: MentionPoll)
    ensures
        r@ == after_messages(
            (PollView {
                emitted: Seq::empty(),
                cursor: last_seen@,
                processed: texts(processed@),
            }),
            messages@,
            last_seen@,
            bot_id@,
            *state,
        ),
{
    let ghost start = PollView {
        emitted: Seq::empty(),
        cursor: last_seen@,
        processed: texts(processed@),
    };
    let mut poll = MentionPoll {
        emitted: Vec::new(),
        cursor: last_seen.to_owned(),
        processed,
    };
    assert(poll@.emitted =~= Seq::empty());
    let mut i: usize = 0;
    assert(messages@.take(0) =~= Seq::<DiscordChannelMessage>::empty());
    while i < messages.len()
        invariant
            i <= messages@.len(),
            poll@ == after_messages(
                start,
                messages@.take(i as int),
                last_seen@,
                bot_id@,
                *state,
            ),
        decreases messages@.len() - i,
    {
        assert(messages@.take(i + 1).drop_last() =~= messages@.take(i as int));
        assert(messages@.take(i + 1).last() == messages@[i as int]);
        poll.look_at(&messages[i], last_seen, bot_id, state);
        i = i + 1;
    }
    assert(messages@.take(messages@.len() as int) =~= messages@);
    poll
}

/// What is kept after a poll of a channel: the cursor, where it has moved from
/// `last_seen`, and the messages that were looked at.
pub open spec fn poll_writes(channel_id: Seq<char>, last_seen: Seq<char>, p: PollView) -> Seq<
    (Seq<char>, Seq<char>),
> {
    let ids = (
        "state/mention_dedup/"@ + channel_id,
        json_text(strings_json(p.processed)),
    );
    if p.cursor == last_seen {
        seq![ids]
    } else {
        seq![("state/mention_cursor/"@ + channel_id, p.cursor), ids]
    }
}

/// Decides what is kept after a poll of a channel that began at the cursor `last_seen`.
pub fn keep_poll(channel_id: &str, last_seen: &str, poll: &MentionPoll) -> (r: Vec<
    WorkspaceWrite,
>)
    ensures
        write_views(r@) == poll_writes(channel_id@, last_seen@, poll@),
{
    let mut v: Vec<WorkspaceWrite> = Vec::new();
    if !str_eq(poll.cursor.as_str(), last_seen) {
        v.push(write_to(cursor_path(channel_id).as_str(), poll.cursor.as_str()));
    }
    let ids = write_kept_strings(&poll.processed);
    v.push(write_to(dedup_ids_path(channel_id).as_str(), ids.as_str()));
    assert(write_views(v@) =~= poll_writes(channel_id@, last_seen@, poll@));
    v
}

/// Whether a kept setting turns polling on.
pub fn polling_enabled(setting: Option<&str>) -> (r: bool)
    ensures
        r == (setting matches Some(s) && trimmed(s@) == "true"@),
{
    match setting {
        Some(s) => str_eq(trim(s), "true"),
        None => false,
    }
}

/// A request that fetches something.
pub open spec fn get_call(url: Seq<char>) -> CallView {
    CallView {
        method: "GET"@,
        url,
        headers: json_text(auth_headers(false)),
        body: None,
        timeout_ms: None,
    }
}

fn make_get(url: String) -> (r: HttpCall)
    ensures
        r@ == get_call(url@),
{
    HttpCall {
        method: "GET".to_owned(),
        url,
        headers_json: discord_auth_headers_json(false),
        body: None,
        timeout_ms: None,
    }
}

/// The user that the bot is, where it is kept: an empty text tells of none.
pub fn kept_bot_id(kept: Option<&str>) -> (r: Option<String>)
    ensures
        opt_text(r) == match kept {
            Some(s) => if s@.len() > 0 {
                Some(s@)
            } else {
                None
            },
            None => None,
        },
{
    match kept {
        Some(s) => if s.is_empty() {
            None
        } else {
            Some(s.to_owned())
        },
        None => None,
    }
}

/// Makes the request for the user that the bot is.
pub fn fetch_bot_id() -> (r: HttpCall)
    ensures
        r@ == get_call(DISCORD_API_BASE@ + "/users/@me"@),
{
    make_get(text2(DISCORD_API_BASE, "/users/@me"))
}

/// The JSON in the body of an answer that tells of success.
pub open spec fn body_json(x: HttpReply) -> Option<JsonView> {
    if is_success(x.status) && valid_utf8(x.body@) {
        json_parsed(decode_utf8(x.body@))
    } else {
        None
    }
}

fn read_body(x: &HttpReply) -> (r: Option<Json>)
    ensures
        match r {
            Some(j) => body_json(*x) == Some(j@),
            None => body_json(*x) is None,
        },
{
    if !succeeded(x.status) {
        return None;
    }
    match utf8_text(&x.body) {
        Some(t) => parse(t.as_str()),
        None => None,
    }
}

/// The identity in a value that was read.
pub fn id_in(value: Option<Json>) -> (r: Option<String>)
    ensures
        opt_text(r) == match value {
            Some(j) => j@.str_field("id"@),
            None => None,
        },
{
    match value {
        Some(j) => match j.str_field("id") {
            Some(s) => Some(s.to_owned()),
            None => None,
        },
        None => None,
    }
}

/// Reads the user that the bot is from an answer.
pub fn bot_id_in_reply(reply: &HttpReply) -> (r: Option<String>)
    ensures
        opt_text(r) == match body_json(*reply) {
            Some(j) => j.str_field("id"@),
            None => None,
        },
{
    id_in(read_body(reply))
}

/// The request for the newest message of a channel.
pub open spec fn latest_call(channel_id: Seq<char>) -> CallView {
    get_call(DISCORD_API_BASE@ + "/channels/"@ + channel_id + "/messages?limit=1"@)
}

/// Makes the request for the newest message of a channel.
pub fn fetch_latest_message_id(channel_id: &str) -> (r: HttpCall)
    ensures
        r@ == latest_call(channel_id@),
{
    let mut url = text3(DISCORD_API_BASE, "/channels/", channel_id);
    url.append("/messages?limit=1");
    make_get(url)
}

/// The identity of the first value of a list.
pub open spec fn first_id(j: JsonView) -> Option<Seq<char>> {
    match j {
        JsonView::Array(a) => if a.len() > 0 {
            a[0].str_field("id"@)
        } else {
            None
        },
        _ => None,
    }
}

/// The identity of the first value of a list that was read.
pub fn first_id_in(value: Option<Json>) -> (r: Option<String>)
    ensures
        opt_text(r) == match value {
            Some(j) => first_id(j@),
            None => None,
        },
{
    match value {
        Some(j) => match j.as_array() {
            Some(a) => if a.len() > 0 {
                assert(j@->Array_0[0] == a@[0]@);
                match a[0].str_field("id") {
                    Some(s) => Some(s.to_owned()),
                    None => None,
                }
            } else {
                None
            },
            None => None,
        },
        None => None,
    }
}

/// Reads the newest message of a channel from an answer.
pub fn latest_id_in_reply(reply: &HttpReply) -> (r: Option<String>)
    ensures
        opt_text(r) == match body_json(*reply) {
            Some(j) => first_id(j),
            None => None,
        },
{
    first_id_in(read_body(reply))
}

/// The request for the messages of a channel after one.
pub open spec fn after_call(channel_id: Seq<char>, after: Seq<char>) -> CallView {
    get_call(
        DISCORD_API_BASE@ + "/channels/"@ + channel_id + "/messages?after="@ + after
            + "&limit=100"@,
    )
}

/// Makes the request for the messages of a channel after one.
pub fn fetch_messages_after(channel_id: &str, after: &str) -> (r: HttpCall)
    ensures
        r@ == after_call(channel_id@, after@),
{
    let mut url = text3(DISCORD_API_BASE, "/channels/", channel_id);
    url.append("/messages?after=");
    url.append(after);
    url.append("&limit=100");
    make_get(url)
}

/// How a poll of a channel begins.
#[derive(Debug, PartialEq, Eq)]
pub enum ChannelStep {
    /// The channel has no cursor yet: the newest message becomes the cursor, and none is
    /// handed on.
    Start(HttpCall),
    /// The messages after the cursor are looked at.
    Look(HttpCall),
}

/// What such a step holds.
pub enum StepView {
    Start(CallView),
    Look(CallView),
}

impl View for ChannelStep {
    type V = StepView;

    open spec fn view(&self) -> StepView {
        match self {
            ChannelStep::Start(c) => StepView::Start(c@),
            ChannelStep::Look(c) => StepView::Look(c@),
        }
    }
}

/// Decides how a poll of a channel begins, where `last_seen` is the cursor that is kept,
/// empty where there is none.
pub fn begin_channel_poll(channel_id: &str, last_seen: &str) -> (r: ChannelStep)
    ensures
        r@ == if last_seen@.len() == 0 {
            StepView::Start(latest_call(channel_id@))
        } else {
            StepView::Look(after_call(channel_id@, last_seen@))
        },
{
    if last_seen.is_empty() {
        ChannelStep::Start(fetch_latest_message_id(channel_id))
    } else {
        ChannelStep::Look(fetch_messages_after(channel_id, last_seen))
    }
}

/// The newest of the messages of a page, the last of them where there are several.
pub open spec fn newest(page: Seq<DiscordChannelMessage>) -> Option<Seq<char>>
    decreases page.len(),
{
    if page.len() == 0 {
        None
    } else {
        match newest(page.drop_last()) {
            Some(n) if newer(n, page.last().id@) => Some(n),
            _ => Some(page.last().id@),
        }
    }
}

/// Where the next page begins: after the newest message of a full page, where that is
/// further on; `None` where this page was the last.
pub open spec fn next_after(
    page: Seq<DiscordChannelMessage>,
    after: Seq<char>,
    fetched: int,
) -> Option<Seq<char>> {
    if page.len() < PAGE_SIZE || fetched >= MENTION_POLL_MAX_PAGES {
        None
    } else {
        match newest(page) {
            Some(n) if n != after => Some(n),
            _ => None,
        }
    }
}

/// Decides where the next page begins, after `fetched` pages, of which this is the last.
pub fn next_page(page: &Vec<DiscordChannelMessage>, after: &str, fetched: usize) -> (r: Option<
    String,
>)
    ensures
        opt_text(r) == next_after(page@, after@, fetched as int),
{
    if page.len() < PAGE_SIZE || fetched >= MENTION_POLL_MAX_PAGES {
        return None;
    }
    let mut best: Option<String> = None;
    let mut i: usize = 0;
    assert(page@.take(0) =~= Seq::<DiscordChannelMessage>::empty());
    while i < page.len()
        invariant
            i <= page@.len(),
            opt_text(best) == newest(page@.take(i as int)),
        decreases page@.len() - i,
    {
        assert(page@.take(i + 1).drop_last() =~= page@.take(i as int));
        assert(page@.take(i + 1).last() == page@[i as int]);
        let keep = match &best {
            Some(b) => is_new_message(page[i].id.as_str(), b.as_str()),
            None => false,
        };
        if !keep {
            best = Some(page[i].id.clone());
        }
        i = i + 1;
    }
    assert(page@.take(page@.len() as int) =~= page@);
    match best {
        Some(b) => if str_eq(b.as_str(), after) {
            None
        } else {
            Some(b)
        },
        None => None,
    }
}

/// Two identities are ordered one way or the other, and the same seen from either side.
pub proof fn ids_are_ordered_from_both_sides(a: Seq<char>, b: Seq<char>)
    ensures
        newer(a, b) <==> id_order(b, a) == Ordering::Less,
        id_order(a, b) == Ordering::Equal <==> id_order(b, a) == Ordering::Equal,
{
    lex_is_total(a, b);
    lex_is_total(b, a);
}

/// Identities that are numbers are ordered as those.
pub proof fn numbers_are_ordered(a: Seq<char>, b: Seq<char>, c: Seq<char>)
    requires
        id_number(a) is Some,
        id_number(b) is Some,
        id_number(c) is Some,
        newer(a, b),
        newer(b, c),
    ensures
        newer(a, c),
{
}

/// A message that was looked at is remembered, and never are more remembered than may
/// be.
pub proof fn looked_at_is_remembered(ids: Seq<Seq<char>>, id: Seq<char>)
    requires
        ids.len() <= DEDUP_CAP,
    ensures
        remembered(ids, id).contains(id),
        remembered(ids, id).len() <= DEDUP_CAP,
{
    if !ids.contains(id) {
        let r = remembered(ids, id);
        assert(r[r.len() - 1] == id);
    }
}

/// A message is handed on once: looking at it again changes nothing.
pub proof fn no_message_is_handed_on_twice(
    p: PollView,
    m: DiscordChannelMessage,
    last_seen: Seq<char>,
    bot: Seq<char>,
    s: PermissionState,
)
    requires
        p.processed.len() <= DEDUP_CAP,
    ensures
        ({
            let q = after_message(p, m, last_seen, bot, s);
            after_message(q, m, last_seen, bot, s) == q
        }),
{
    looked_at_is_remembered(p.processed, m.id@);
}

/// Messages up to the cursor are never handed on again.
pub proof fn seen_messages_are_passed_over(
    p: PollView,
    m: DiscordChannelMessage,
    last_seen: Seq<char>,
    bot: Seq<char>,
    s: PermissionState,
)
    requires
        m.id@ == last_seen || newer(last_seen, m.id@),
    ensures
        after_message(p, m, last_seen, bot, s) == p,
{
    lex_is_total(m.id@, last_seen);
    lex_is_total(last_seen, m.id@);
}

proof fn lemma_permission_in_channels(s: PermissionState, user: Seq<char>, name: Option<Seq<char>>)
    requires
        s.owner_id matches Some(o) ==> o@.len() == 0 || o@ == user,
    ensures
        permission(s, user, name, false) is Allowed,
{
}

/// A message that is new and mentions the bot, in its list of mentions or in its text in
/// either form, is handed on where a person wrote it and says something: with its author as
/// the user, in its channel, and as an answer to it. The messages that were handed on
/// before stay, and the cursor is then no older than it.
pub proof fn new_mentions_are_handed_on(
    p: PollView,
    m: DiscordChannelMessage,
    last_seen: Seq<char>,
    bot: Seq<char>,
    s: PermissionState,
)
    requires
        newer(m.id@, last_seen),
        forall|i: int| 0 <= i < p.processed.len() ==> (#[trigger] p.processed[i]) != m.id@,
        !m.author.bot,
        m.author.id@ != bot,
        m.webhook_id is None,
        (exists|i: int| 0 <= i < m.mentions@.len() && (#[trigger] m.mentions@[i]).id@ == bot)
            || has_substring(m.content@, "<@"@ + bot + ">"@) || has_substring(
            m.content@,
            "<@!"@ + bot + ">"@,
        ),
        s.owner_id matches Some(o) ==> o@.len() == 0 || o@ == m.author.id@,
        without_mention(m.content@, bot).len() > 0,
    ensures
        ({
            let q = after_message(p, m, last_seen, bot, s);
            &&& q.emitted.len() == p.emitted.len() + 1
            &&& q.emitted.drop_last() == p.emitted
            &&& q.emitted.last().user_id == m.author.id@
            &&& q.emitted.last().content == without_mention(m.content@, bot)
            &&& q.emitted.last().metadata.channel_id == m.channel_id@
            &&& q.emitted.last().metadata.source_message_id == Some(m.id@)
            &&& (m.author.global_name matches Some(n) ==> q.emitted.last().user_name == Some(n@))
            &&& (m.author.global_name is None ==> q.emitted.last().user_name == Some(
                m.author.username@,
            ))
            &&& q.cursor == m.id@ || (q.cursor == p.cursor && !newer(m.id@, p.cursor))
            &&& !newer(m.id@, q.cursor)
        }),
{
    lemma_permission_in_channels(s, m.author.id@, Some(m.author.username@));
    assert(!p.processed.contains(m.id@));
    let q = after_message(p, m, last_seen, bot, s);
    assert(q.emitted.drop_last() =~= p.emitted);
    lex_is_total(m.id@, m.id@);
}

/// Messages of bots, of the bot itself and of webhooks, and those that do not mention the
/// bot, are not handed on, and the cursor stays; but they are looked at only once.
pub proof fn other_messages_are_not_handed_on(
    p: PollView,
    m: DiscordChannelMessage,
    last_seen: Seq<char>,
    bot: Seq<char>,
    s: PermissionState,
)
    requires
        m.author.bot || m.author.id@ == bot || m.webhook_id is Some || (!has_substring(
            m.content@,
            "<@"@ + bot + ">"@,
        ) && !has_substring(m.content@, "<@!"@ + bot + ">"@) && forall|i: int|
            0 <= i < m.mentions@.len() ==> (#[trigger] m.mentions@[i]).id@ != bot) || (
        s.owner_id matches Some(o) && o@.len() > 0 && o@ != m.author.id@),
        p.processed.len() <= DEDUP_CAP,
    ensures
        after_message(p, m, last_seen, bot, s).emitted == p.emitted,
        after_message(p, m, last_seen, bot, s).cursor == p.cursor,
        newer(m.id@, last_seen) ==> after_message(p, m, last_seen, bot, s).processed.contains(m.id@),
{
    looked_at_is_remembered(p.processed, m.id@);
}

proof fn lemma_processed_come_from(
    p: PollView,
    messages: Seq<DiscordChannelMessage>,
    last_seen: Seq<char>,
    bot: Seq<char>,
    s: PermissionState,
    id: Seq<char>,
)
    requires
        !p.processed.contains(id),
        forall|i: int| 0 <= i < messages.len() ==> (#[trigger] messages[i]).id@ != id,
    ensures
        !after_messages(p, messages, last_seen, bot, s).processed.contains(id),
    decreases messages.len(),
{
    if messages.len() > 0 {
        let rest = messages.drop_last();
        assert forall|i: int| 0 <= i < rest.len() implies (#[trigger] rest[i]).id@ != id by {
            assert(rest[i] == messages[i]);
        }
        lemma_processed_come_from(p, rest, last_seen, bot, s, id);
        let before = after_messages(p, rest, last_seen, bot, s).processed;
        assert(messages[messages.len() - 1].id@ != id);
        let x = messages.last().id@;
        let all = before.push(x);
        let r = remembered(before, x);
        if r.contains(id) {
            let k = choose|k: int| 0 <= k < r.len() && r[k] == id;
            if !before.contains(x) {
                let off = all.len() - r.len();
                assert(all[k + off] == id);
                assert(before.contains(id));
            }
        }
    }
}

/// A poll hands on every new mention that it finds, in whatever place it stands among the
/// messages, two of them in their order, and keeps what was handed on before.
pub proof fn poll_hands_on_every_mention(
    p: PollView,
    messages: Seq<DiscordChannelMessage>,
    last_seen: Seq<char>,
    bot: Seq<char>,
    s: PermissionState,
    i: int,
) -> (at: int)
    requires
        0 <= i < messages.len(),
        newer(messages[i].id@, last_seen),
        !p.processed.contains(messages[i].id@),
        forall|k: int| 0 <= k < i ==> (#[trigger] messages[k]).id@ != messages[i].id@,
        !messages[i].author.bot,
        messages[i].author.id@ != bot,
        messages[i].webhook_id is None,
        (exists|k: int|
            0 <= k < messages[i].mentions@.len() && (#[trigger] messages[i].mentions@[k]).id@
                == bot) || has_substring(messages[i].content@, "<@"@ + bot + ">"@)
            || has_substring(messages[i].content@, "<@!"@ + bot + ">"@),
        s.owner_id matches Some(o) ==> o@.len() == 0 || o@ == messages[i].author.id@,
        without_mention(messages[i].content@, bot).len() > 0,
    ensures
        ({
            let q = after_messages(p, messages, last_seen, bot, s);
            &&& at == after_messages(p, messages.take(i), last_seen, bot, s).emitted.len()
            &&& 0 <= at < q.emitted.len()
            &&& q.emitted[at].user_id == messages[i].author.id@
            &&& q.emitted[at].content == without_mention(messages[i].content@, bot)
            &&& q.emitted[at].metadata.source_message_id == Some(messages[i].id@)
            &&& q.emitted[at].metadata.channel_id == messages[i].channel_id@
        }),
    decreases messages.len(),
{
    let rest = messages.drop_last();
    if i < rest.len() {
        assert(rest.take(i) =~= messages.take(i));
        poll_hands_on_every_mention(p, rest, last_seen, bot, s, i)
    } else {
        assert(messages.take(i) =~= rest);
        assert forall|k: int| 0 <= k < rest.len() implies (#[trigger] rest[k]).id@
            != messages[i].id@ by {
            assert(rest[k] == messages[k]);
        }
        lemma_processed_come_from(p, rest, last_seen, bot, s, messages[i].id@);
        let before = after_messages(p, rest, last_seen, bot, s);
        assert forall|k: int| 0 <= k < before.processed.len() implies (
        #[trigger] before.processed[k]) != messages[i].id@ by {
            assert(before.processed.contains(before.processed[k]));
        }
        new_mentions_are_handed_on(before, messages[i], last_seen, bot, s);
        before.emitted.len() as int
    }
}

/// A later poll only adds to what was handed on, so that messages are handed on in the
/// order in which they stand.
pub proof fn handed_on_messages_stay(
    p: PollView,
    messages: Seq<DiscordChannelMessage>,
    last_seen: Seq<char>,
    bot: Seq<char>,
    s: PermissionState,
)
    ensures
        p.emitted.len() <= after_messages(p, messages, last_seen, bot, s).emitted.len()
            <= p.emitted.len() + messages.len(),
        after_messages(p, messages, last_seen, bot, s).emitted.take(p.emitted.len() as int)
            == p.emitted,
    decreases messages.len(),
{
    let all = after_messages(p, messages, last_seen, bot, s).emitted;
    if messages.len() > 0 {
        handed_on_messages_stay(p, messages.drop_last(), last_seen, bot, s);
        let before = after_messages(p, messages.drop_last(), last_seen, bot, s).emitted;
        assert(all.take(p.emitted.len() as int) =~= before.take(p.emitted.len() as int));
    } else {
        assert(all.take(p.emitted.len() as int) =~= p.emitted);
    }
}

/// What is handed on is the text without the mention that it begins with, and without the
/// white space around it; a text without such a mention is kept.
pub proof fn mentions_are_cut_off(content: Seq<char>, bot: Seq<char>, rest: Seq<char>)
    ensures
        trimmed(content) == "<@"@ + bot + ">"@ + rest ==> without_mention(content, bot) == trimmed(
            rest,
        ),
        !occurs_at(trimmed(content), "<@"@ + bot + ">"@, 0) && trimmed(content) == "<@!"@ + bot
            + ">"@ + rest ==> without_mention(content, bot) == trimmed(rest),
        !occurs_at(trimmed(content), "<@"@ + bot + ">"@, 0) && !occurs_at(
            trimmed(content),
            "<@!"@ + bot + ">"@,
            0,
        ) ==> without_mention(content, bot) == trimmed(content),
{
    let t = trimmed(content);
    let a = mention_of(bot);
    let b = nick_mention_of(bot);
    if t == a + rest {
        assert(t.subrange(0, a.len() as int) =~= a);
        assert(t.skip(a.len() as int) =~= rest);
    } else if t == b + rest {
        assert(t.subrange(0, b.len() as int) =~= b);
        assert(t.skip(b.len() as int) =~= rest);
    }
}

/// Identities that are numbers are newer where the number is greater, and no identity is
/// newer than itself.
pub proof fn greater_numbers_are_newer(a: Seq<char>, b: Seq<char>, m: nat, n: nat)
    ensures
        parsed(a, u64::MAX as nat) == Some(m) && parsed(b, u64::MAX as nat) == Some(n) ==> (newer(
            a,
            b,
        ) <==> m > n),
        !newer(a, a),
        parsed(a, u64::MAX as nat) is None ==> (newer(a, b) <==> lex_less(b, a)),
{
    lex_is_total(a, a);
    lex_is_total(a, b);
    lex_is_total(b, a);
}

/// The messages that are remembered are the last ones that were looked at: another is put
/// at their end, and the oldest give way where there are too many.
pub proof fn the_last_messages_are_remembered(ids: Seq<Seq<char>>, id: Seq<char>)
    requires
        ids.len() <= DEDUP_CAP,
    ensures
        ids.contains(id) ==> remembered(ids, id) == ids,
        !ids.contains(id) && ids.len() < DEDUP_CAP ==> remembered(ids, id) == ids.push(id),
        !ids.contains(id) && ids.len() == DEDUP_CAP ==> remembered(ids, id) == ids.skip(1).push(id),
{
    if !ids.contains(id) && ids.len() == DEDUP_CAP {
        assert(remembered(ids, id) =~= ids.skip(1).push(id));
    }
}

/// The newest message of a page whose identities are numbers is one of its messages, and
/// none of them is newer.
pub proof fn newest_message_is_found(page: Seq<DiscordChannelMessage>)
    requires
        page.len() > 0,
        forall|i: int|
            0 <= i < page.len() ==> parsed((#[trigger] page[i]).id@, u64::MAX as nat) is Some,
    ensures
        newest(page) matches Some(n) && (exists|i: int|
            0 <= i < page.len() && (#[trigger] page[i]).id@ == n) && forall|i: int|
            0 <= i < page.len() ==> !newer((#[trigger] page[i]).id@, n),
    decreases page.len(),
{
    let rest = page.drop_last();
    let last = page.last().id@;
    assert(page[page.len() - 1].id@ == last);
    lex_is_total(last, last);
    if rest.len() > 0 {
        assert forall|i: int| 0 <= i < rest.len() implies parsed(
            (#[trigger] rest[i]).id@,
            u64::MAX as nat,
        ) is Some by {
            assert(rest[i] == page[i]);
        }
        newest_message_is_found(rest);
        let n = newest(rest)->0;
        let k = choose|k: int| 0 <= k < rest.len() && (#[trigger] rest[k]).id@ == n;
        assert(page[k].id@ == n);
        assert forall|i: int| 0 <= i < page.len() implies !newer(
            (#[trigger] page[i]).id@,
            newest(page)->0,
        ) by {
            if i < rest.len() {
                assert(rest[i] == page[i]);
                assert(!newer(rest[i].id@, n));
            }
        }
    }
}

/// Another page is fetched after a full one, from its newest message on, until one is not
/// full, the newest message stays the same, or enough were fetched.
pub proof fn pages_are_fetched_while_full(
    page: Seq<DiscordChannelMessage>,
    after: Seq<char>,
    fetched: int,
)
    ensures
        page.len() < 100 || fetched >= 5 ==> next_after(page, after, fetched) is None,
        page.len() >= 100 && fetched < 5 && newest(page) != Some(after) ==> next_after(
            page,
            after,
            fetched,
        ) == newest(page),
        next_after(page, after, fetched) != Some(after),
{
}

/// After a poll the messages that were looked at are kept for the channel, and the cursor
/// where it has moved.
pub proof fn polls_are_kept(channel_id: Seq<char>, last_seen: Seq<char>, p: PollView)
    ensures
        poll_writes(channel_id, last_seen, p).contains(
            ("state/mention_dedup/"@ + channel_id, json_text(strings_json(p.processed))),
        ),
        p.cursor != last_seen ==> poll_writes(channel_id, last_seen, p).contains(
            ("state/mention_cursor/"@ + channel_id, p.cursor),
        ),
        p.cursor == last_seen ==> poll_writes(channel_id, last_seen, p).len() == 1,
{
    let w = poll_writes(channel_id, last_seen, p);
    assert(w[w.len() - 1].0 == "state/mention_dedup/"@ + channel_id);
    if p.cursor != last_seen {
        assert(w[0].0 == "state/mention_cursor/"@ + channel_id);
    }
}

/// Requests ask for what they are for, at the channel that they are for.
pub proof fn channels_are_asked_for_their_messages(channel_id: Seq<char>, after: Seq<char>)
    ensures
        latest_call(channel_id).url == DISCORD_API_BASE@ + "/channels/"@ + channel_id
            + "/messages?limit=1"@,
        after_call(channel_id, after).url == DISCORD_API_BASE@ + "/channels/"@ + channel_id
            + "/messages?after="@ + after + "&limit=100"@,
        latest_call(channel_id).method == "GET"@,
        after_call(channel_id, after).method == "GET"@,
{
}

/// An answer is read where it tells of success and holds text that is JSON, and the newest
/// message is the first in the list that it holds.
pub proof fn answers_are_read(x: HttpReply, a: Seq<JsonView>, id: Seq<char>)
    ensures
        200 <= x.status < 300 && valid_utf8(x.body@) ==> body_json(x) == json_parsed(
            decode_utf8(x.body@),
        ),
        x.status < 200 || x.status >= 300 ==> body_json(x) is None,
        a.len() > 0 && a[0].get("id"@) == Some(JsonView::Str(id)) ==> first_id(JsonView::Array(a))
            == Some(id),
        a.len() == 0 ==> first_id(JsonView::Array(a)) is None,
{
}

} // verus!

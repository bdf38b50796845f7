//! Discord: replies, the gateway, interactions, and who may talk to the bot.

use vstd::prelude::*;
use vstd::utf8::encode_utf8;

use crate::channels::host::{
    bytes_of, json_bytes, json_content_type, json_headers, render_bytes, tell_failed_status, text2,
    text3, AgentResponse, HttpReply, StatusType, failed_status, is_success,
};
use crate::executor::calls::object;
use crate::json::{
    field_of, fields, json_parsed, json_str, json_text, one_field, parse, render, Json, JsonView,
};
use crate::number::{hexadecimal, hexadecimal_is_unique, lemma_hexadecimal_chars, u128_to_hex};
use crate::text::{chars_of, has_substring, holds, middle_is_found, opt_text, take_chars};
use crate::types::event::opt_value;

verus! {

/// Where the API of Discord is.
pub const DISCORD_API_BASE: &'static str = "https://discord.com/api/v10";

/// How many characters a message may have.
pub const DISCORD_MESSAGE_CHAR_LIMIT: usize = 2000;

/// What multipart boundaries begin with.
pub const DISCORD_MULTIPART_BOUNDARY: &'static str = "ironclaw-discord-response-boundary";

/// The name of the file that a long reply is attached as.
pub const DISCORD_ATTACHMENT_FILENAME: &'static str = "response.md";

/// What stands in place of a long reply.
pub const DISCORD_ATTACHMENT_NOTICE: &'static str = "Response too long for Discord; attached as response.md.";

/// What the reply to a message needs.
#[derive(Debug, PartialEq, Eq)]
pub struct DiscordMessageMetadata {
    pub channel_id: String,
    pub interaction_id: String,
    pub token: String,
    pub application_id: String,
    /// The message that is replied to, where it was found by polling.
    pub source_message_id: Option<String>,
    pub thread_id: Option<String>,
}

/// What the metadata hold.
pub struct MetadataView {
    pub channel_id: Seq<char>,
    pub interaction_id: Seq<char>,
    pub token: Seq<char>,
    pub application_id: Seq<char>,
    pub source_message_id: Option<Seq<char>>,
    pub thread_id: Option<Seq<char>>,
}

impl View for DiscordMessageMetadata {
    type V = MetadataView;

    open spec fn view(&self) -> MetadataView {
        MetadataView {
            channel_id: self.channel_id@,
            interaction_id: self.interaction_id@,
            token: self.token@,
            application_id: self.application_id@,
            source_message_id: opt_text(self.source_message_id),
            thread_id: opt_text(self.thread_id),
        }
    }
}

/// Where a reply is sent.
#[derive(Debug, PartialEq, Eq)]
pub enum DiscordResponseRoute {
    InteractionWebhook(String),
    ChannelMessage(String),
}

/// What a route holds.
pub enum RouteView {
    InteractionWebhook(Seq<char>),
    ChannelMessage(Seq<char>),
}

impl View for DiscordResponseRoute {
    type V = RouteView;

    open spec fn view(&self) -> RouteView {
        match self {
            DiscordResponseRoute::InteractionWebhook(u) => RouteView::InteractionWebhook(u@),
            DiscordResponseRoute::ChannelMessage(u) => RouteView::ChannelMessage(u@),
        }
    }
}

/// The endpoint of the messages of a channel.
pub open spec fn channel_url(channel_id: Seq<char>) -> Seq<char> {
    DISCORD_API_BASE@ + "/channels/"@ + channel_id + "/messages"@
}

/// The endpoint of the webhook of an interaction.
pub open spec fn webhook_url(application_id: Seq<char>, token: Seq<char>) -> Seq<char> {
    DISCORD_API_BASE@ + "/webhooks/"@ + application_id + "/"@ + token
}

fn make_channel_url(channel_id: &str) -> (r: String)
    ensures
        r@ == channel_url(channel_id@),
{
    let mut s = text3(DISCORD_API_BASE, "/channels/", channel_id);
    s.append("/messages");
    s
}

fn make_webhook_url(application_id: &str, token: &str) -> (r: String)
    ensures
        r@ == webhook_url(application_id@, token@),
{
    let mut s = text3(DISCORD_API_BASE, "/webhooks/", application_id);
    s.append("/");
    s.append(token);
    s
}

/// The route of a reply: through the webhook of the interaction, where the message came
/// from one; as a message to the channel otherwise.
pub open spec fn route_of(m: MetadataView) -> RouteView {
    if m.application_id.len() > 0 && m.token.len() > 0 {
        RouteView::InteractionWebhook(
            webhook_url(m.application_id, m.token) + "/messages/@original"@,
        )
    } else {
        RouteView::ChannelMessage(channel_url(m.channel_id))
    }
}

/// Finds the route of a reply.
pub fn response_route_for_metadata(metadata: &DiscordMessageMetadata) -> (r: DiscordResponseRoute)
    ensures
        r@ == route_of(metadata@),
{
    if !metadata.application_id.as_str().is_empty() && !metadata.token.as_str().is_empty() {
        let mut url = make_webhook_url(
            metadata.application_id.as_str(),
            metadata.token.as_str(),
        );
        url.append("/messages/@original");
        DiscordResponseRoute::InteractionWebhook(url)
    } else {
        DiscordResponseRoute::ChannelMessage(make_channel_url(metadata.channel_id.as_str()))
    }
}

/// The endpoint that shows the bot as typing, where it is thinking and the channel is
/// known.
pub open spec fn typing_url(status: StatusType, metadata: Option<MetadataView>) -> Option<
    Seq<char>,
> {
    match metadata {
        Some(m) if status == StatusType::Thinking && m.channel_id.len() > 0 => Some(
            DISCORD_API_BASE@ + "/channels/"@ + m.channel_id + "/typing"@,
        ),
        _ => None,
    }
}

/// Finds the endpoint that shows the bot as typing. `metadata` are those of the update,
/// where they could be read.
pub fn typing_request_url_for_update(
    status: StatusType,
    metadata: Option<&DiscordMessageMetadata>,
) -> (r: Option<String>)
    ensures
        opt_text(r) == typing_url(
            status,
            match metadata {
                Some(m) => Some(m@),
                None => None,
            },
        ),
{
    if status != StatusType::Thinking {
        return None;
    }
    match metadata {
        Some(m) => {
            if m.channel_id.as_str().is_empty() {
                return None;
            }
            let mut s = text3(DISCORD_API_BASE, "/channels/", m.channel_id.as_str());
            s.append("/typing");
            Some(s)
        },
        None => None,
    }
}

/// The body of a request, with its headers.
#[derive(Debug, PartialEq, Eq)]
pub struct DiscordHttpRequest {
    pub headers_json: String,
    pub body: Vec<u8>,
}

/// What such a request holds.
pub struct RequestView {
    pub headers: Seq<char>,
    pub body: Seq<u8>,
}

impl View for DiscordHttpRequest {
    type V = RequestView;

    open spec fn view(&self) -> RequestView {
        RequestView { headers: self.headers_json@, body: self.body@ }
    }
}

/// How a reply is sent.
#[derive(Debug, PartialEq, Eq)]
pub enum DiscordReplyPlan {
    /// As it is.
    Inline(DiscordHttpRequest),
    /// As a file; where that fails, cut short.
    Attachment { upload: DiscordHttpRequest, fallback: DiscordHttpRequest },
}

/// What a plan holds.
pub enum PlanView {
    Inline(RequestView),
    Attachment { upload: RequestView, fallback: RequestView },
}

impl View for DiscordReplyPlan {
    type V = PlanView;

    open spec fn view(&self) -> PlanView {
        match self {
            DiscordReplyPlan::Inline(q) => PlanView::Inline(q@),
            DiscordReplyPlan::Attachment { upload, fallback } => PlanView::Attachment {
                upload: upload@,
                fallback: fallback@,
            },
        }
    }
}

/// The embeds in metadata that were read, where there are any.
pub open spec fn embeds_of(metadata: Option<JsonView>) -> Option<JsonView> {
    match metadata {
        Some(j) => j.get("embeds"@),
        None => None,
    }
}

/// Finds the embeds in metadata that were read.
pub fn find_embeds(metadata: Option<Json>) -> (r: Option<Json>)
    ensures
        opt_value(r) == embeds_of(opt_value(metadata)),
{
    match metadata {
        Some(j) => match j.get("embeds") {
            Some(e) => Some(e.clone()),
            None => None,
        },
        None => None,
    }
}

/// Reads the embeds in the metadata of a reply.
pub fn embeds_from_metadata_json(metadata_json: &str) -> (r: Option<Json>)
    ensures
        opt_value(r) == embeds_of(json_parsed(metadata_json@)),
{
    find_embeds(parse(metadata_json))
}

/// The payload of a message, with its embeds where there are any.
pub open spec fn payload_json(content: Seq<char>, embeds: Option<JsonView>) -> JsonView {
    match embeds {
        Some(e) => JsonView::Object(
            seq![("content"@, JsonView::Str(content)), ("embeds"@, e)],
        ),
        None => JsonView::Object(seq![("content"@, JsonView::Str(content))]),
    }
}

fn make_payload(content: &str, embeds: &Option<Json>) -> (r: Json)
    ensures
        r@ == payload_json(content@, opt_value(*embeds)),
{
    let mut v: Vec<(String, Json)> = Vec::new();
    v.push(("content".to_owned(), json_str(content)));
    if let Some(e) = embeds {
        v.push(("embeds".to_owned(), e.clone()));
    }
    assert(fields(v@) =~= payload_json(content@, opt_value(*embeds))->Object_0);
    object(v)
}

/// A message as a JSON request.
pub open spec fn json_request(content: Seq<char>, embeds: Option<JsonView>) -> RequestView {
    RequestView {
        headers: json_text(json_content_type()),
        body: json_bytes(payload_json(content, embeds)),
    }
}

/// Makes a JSON request of a message.
pub fn build_discord_json_request(content: &str, embeds: &Option<Json>) -> (r: DiscordHttpRequest)
    ensures
        r@ == json_request(content@, opt_value(*embeds)),
{
    DiscordHttpRequest {
        headers_json: json_headers(),
        body: render_bytes(&make_payload(content, embeds)),
    }
}

/// The multipart body of a reply that is attached as a file.
pub open spec fn multipart_text(
    boundary: Seq<char>,
    payload: Seq<char>,
    content: Seq<char>,
) -> Seq<char> {
    "--"@ + boundary
        + "\r\nContent-Disposition: form-data; name=\"payload_json\"\r\nContent-Type: application/json\r\n\r\n"@
        + payload + "\r\n--"@ + boundary
        + "\r\nContent-Disposition: form-data; name=\"files[0]\"; filename=\""@
        + DISCORD_ATTACHMENT_FILENAME@ + "\"\r\nContent-Type: text/markdown\r\n\r\n"@ + content
        + "\r\n--"@ + boundary + "--\r\n"@
}

/// A reply as a request that attaches it.
pub open spec fn attachment_request(
    content: Seq<char>,
    embeds: Option<JsonView>,
    boundary: Seq<char>,
) -> RequestView {
    RequestView {
        headers: json_text(
            JsonView::Object(
                seq![
                    (
                        "Content-Type"@,
                        JsonView::Str("multipart/form-data; boundary="@ + boundary),
                    ),
                ],
            ),
        ),
        body: encode_utf8(
            multipart_text(
                boundary,
                json_text(payload_json(DISCORD_ATTACHMENT_NOTICE@, embeds)),
                content,
            ),
        ),
    }
}

/// Makes a request that attaches a reply as a file.
pub fn build_discord_attachment_request(content: &str, embeds: &Option<Json>, boundary: &str) -> (r:
    DiscordHttpRequest)
    ensures
        r@ == attachment_request(content@, opt_value(*embeds), boundary@),
{
    let payload = render(&make_payload(DISCORD_ATTACHMENT_NOTICE, embeds));
    let mut s = text2("--", boundary);
    s.append(
        "\r\nContent-Disposition: form-data; name=\"payload_json\"\r\nContent-Type: application/json\r\n\r\n",
    );
    s.append(payload.as_str());
    s.append("\r\n--");
    s.append(boundary);
    s.append("\r\nContent-Disposition: form-data; name=\"files[0]\"; filename=\"");
    s.append(DISCORD_ATTACHMENT_FILENAME);
    s.append("\"\r\nContent-Type: text/markdown\r\n\r\n");
    s.append(content);
    s.append("\r\n--");
    s.append(boundary);
    s.append("--\r\n");
    let kind = text2("multipart/form-data; boundary=", boundary);
    DiscordHttpRequest {
        headers_json: render(&one_field("Content-Type", json_str(kind.as_str()))),
        body: bytes_of(s.as_str()),
    }
}

/// A multipart boundary, made of the time in nanoseconds and a count.
pub open spec fn boundary_text(nanos: u128, counter: u64) -> Seq<char> {
    DISCORD_MULTIPART_BOUNDARY@ + "-"@ + hexadecimal(nanos as nat) + "-"@ + hexadecimal(
        counter as nat,
    )
}

/// Makes a multipart boundary. `counter` tells how many were made before.
pub fn next_multipart_boundary(nanos: u128, counter: u64) -> (r: String)
    ensures
        r@ == boundary_text(nanos, counter),
{
    let mut s = text2(DISCORD_MULTIPART_BOUNDARY, "-");
    s.append(u128_to_hex(nanos).as_str());
    s.append("-");
    s.append(u128_to_hex(counter as u128).as_str());
    s
}

/// Two uploads do not share a boundary: as long as they were not made at the same time
/// with the same count, what separates their parts differs.
pub proof fn boundaries_differ(nanos: u128, counter: u64, later_nanos: u128, later_counter: u64)
    requires
        nanos != later_nanos || counter != later_counter,
    ensures
        boundary_text(nanos, counter) != boundary_text(later_nanos, later_counter),
{
    let s = boundary_text(nanos, counter);
    let t = boundary_text(later_nanos, later_counter);
    if s == t {
        let start = (DISCORD_MULTIPART_BOUNDARY@ + "-"@).len() as int;
        let a = hexadecimal(nanos as nat);
        let b = hexadecimal(later_nanos as nat);
        let c = hexadecimal(counter as nat);
        let d = hexadecimal(later_counter as nat);
        lemma_hexadecimal_chars(nanos as nat);
        lemma_hexadecimal_chars(later_nanos as nat);
        reveal_strlit("-");
        assert(s[start + a.len()] == '-');
        assert(t[start + b.len()] == '-');
        if a.len() < b.len() {
            assert(t[start + a.len()] == b[a.len() as int]);
        }
        if b.len() < a.len() {
            assert(s[start + b.len()] == a[b.len() as int]);
        }
        assert forall|i: int| 0 <= i < a.len() implies a[i] == b[i] by {
            assert(s[start + i] == a[i]);
            assert(t[start + i] == b[i]);
        }
        assert(a =~= b);
        let after = start + a.len() + 1;
        assert(s.len() == after + c.len());
        assert(t.len() == after + d.len());
        assert forall|i: int| 0 <= i < c.len() implies c[i] == d[i] by {
            assert(s[after + i] == c[i]);
            assert(t[after + i] == d[i]);
        }
        assert(c =~= d);
        hexadecimal_is_unique(nanos as nat, later_nanos as nat);
        hexadecimal_is_unique(counter as nat, later_counter as nat);
    }
}

/// What a message that was cut short ends with.
pub open spec fn cut_suffix() -> Seq<char> {
    "\n... (truncated)"@
}

/// A message, cut short where it is too long.
pub open spec fn cut_short(content: Seq<char>) -> Seq<char> {
    if content.len() <= DISCORD_MESSAGE_CHAR_LIMIT {
        content
    } else {
        content.take(DISCORD_MESSAGE_CHAR_LIMIT - cut_suffix().len()) + cut_suffix()
    }
}

/// Cuts a message short where it is too long.
pub fn truncate_message(content: &str) -> (r: String)
    ensures
        r@ == cut_short(content@),
        r@.len() <= DISCORD_MESSAGE_CHAR_LIMIT,
{
    proof {
        reveal_strlit("\n... (truncated)");
    }
    let chars = chars_of(content);
    if chars.len() <= DISCORD_MESSAGE_CHAR_LIMIT {
        return content.to_owned();
    }
    let kept: usize = DISCORD_MESSAGE_CHAR_LIMIT - 16;
    let mut s = take_chars(content, kept);
    s.append("\n... (truncated)");
    s
}

/// How a reply is sent: as it is where it is not too long, as a file otherwise.
pub open spec fn reply_plan(content: Seq<char>, embeds: Option<JsonView>, boundary: Seq<char>) -> PlanView {
    if content.len() <= DISCORD_MESSAGE_CHAR_LIMIT {
        PlanView::Inline(json_request(content, embeds))
    } else {
        PlanView::Attachment {
            upload: attachment_request(content, embeds, boundary),
            fallback: json_request(cut_short(content), embeds),
        }
    }
}

/// Plans how a reply with these embeds is sent.
pub fn plan_reply(content: &str, embeds: &Option<Json>, boundary: &str) -> (r: DiscordReplyPlan)
    ensures
        r@ == reply_plan(content@, opt_value(*embeds), boundary@),
{
    if chars_of(content).len() <= DISCORD_MESSAGE_CHAR_LIMIT {
        return DiscordReplyPlan::Inline(build_discord_json_request(content, embeds));
    }
    let short = truncate_message(content);
    DiscordReplyPlan::Attachment {
        upload: build_discord_attachment_request(content, embeds, boundary),
        fallback: build_discord_json_request(short.as_str(), embeds),
    }
}

/// Plans how a reply is sent. `boundary` is what separates the parts of a file upload.
pub fn build_discord_reply_plan(response: &AgentResponse, boundary: &str) -> (r: DiscordReplyPlan)
    ensures
        r@ == reply_plan(
            response.content@,
            embeds_of(json_parsed(response.metadata_json@)),
            boundary@,
        ),
{
    let embeds = embeds_from_metadata_json(response.metadata_json.as_str());
    plan_reply(response.content.as_str(), &embeds, boundary)
}

/// What came of a request: success, or how it failed.
pub open spec fn sent(reply: Result<HttpReply, String>) -> Result<(), Seq<char>> {
    match reply {
        Ok(r) => if is_success(r.status) {
            Ok(())
        } else {
            Err(failed_status("Discord API error: "@, r.status, " - "@, r.body@))
        },
        Err(e) => Err("HTTP request failed: "@ + e@),
    }
}

/// What an error text holds.
pub open spec fn err_text(r: Result<(), String>) -> Result<(), Seq<char>> {
    match r {
        Ok(_) => Ok(()),
        Err(e) => Err(e@),
    }
}

/// Takes the answer to a request in.
pub fn send_discord_request(reply: Result<HttpReply, String>) -> (r: Result<(), String>)
    ensures
        err_text(r) == sent(reply),
{
    match reply {
        Ok(x) => if x.status >= 200 && x.status < 300 {
            Ok(())
        } else {
            Err(tell_failed_status("Discord API error: ", x.status, " - ", &x.body))
        },
        Err(e) => Err(text2("HTTP request failed: ", e.as_str())),
    }
}

/// A reply reaches the agent's answer whole: where it is short enough it is the message
/// itself, and where it is not the whole of it stands in the file that is attached, and the
/// fallback begins as it does and is not too long to be sent.
pub proof fn replies_are_sent_whole(
    content: Seq<char>,
    embeds: Option<JsonView>,
    boundary: Seq<char>,
)
    ensures
        content.len() <= DISCORD_MESSAGE_CHAR_LIMIT ==> reply_plan(content, embeds, boundary)
            == PlanView::Inline(
            RequestView {
                headers: json_text(json_content_type()),
                body: json_bytes(payload_json(content, embeds)),
            },
        ),
        content.len() > DISCORD_MESSAGE_CHAR_LIMIT ==> (reply_plan(
            content,
            embeds,
            boundary,
        ) matches PlanView::Attachment { upload, fallback } && upload.body == encode_utf8(
            multipart_text(
                boundary,
                json_text(payload_json(DISCORD_ATTACHMENT_NOTICE@, embeds)),
                content,
            ),
        ) && fallback.body == json_bytes(payload_json(cut_short(content), embeds))),
        has_substring(
            multipart_text(
                boundary,
                json_text(payload_json(DISCORD_ATTACHMENT_NOTICE@, embeds)),
                content,
            ),
            content,
        ),
        has_substring(
            multipart_text(
                boundary,
                json_text(payload_json(DISCORD_ATTACHMENT_NOTICE@, embeds)),
                content,
            ),
            json_text(payload_json(DISCORD_ATTACHMENT_NOTICE@, embeds)),
        ),
{
    let payload = json_text(payload_json(DISCORD_ATTACHMENT_NOTICE@, embeds));
    let head = "--"@ + boundary
        + "\r\nContent-Disposition: form-data; name=\"payload_json\"\r\nContent-Type: application/json\r\n\r\n"@;
    let between = "\r\n--"@ + boundary
        + "\r\nContent-Disposition: form-data; name=\"files[0]\"; filename=\""@
        + DISCORD_ATTACHMENT_FILENAME@ + "\"\r\nContent-Type: text/markdown\r\n\r\n"@;
    let tail = "\r\n--"@ + boundary + "--\r\n"@;
    let all = multipart_text(boundary, payload, content);
    middle_is_found(head + payload + between, content, tail);
    assert(all =~= head + payload + between + content + tail);
    middle_is_found(head, payload, between + content + tail);
    assert(all =~= head + payload + (between + content + tail));
}

/// A message that is too long is cut to the limit: it begins as it did and says at its end
/// that it was cut; a shorter one is left as it is.
pub proof fn long_messages_are_cut(content: Seq<char>)
    ensures
        content.len() <= 2000 ==> cut_short(content) == content,
        content.len() > 2000 ==> cut_short(content).len() == 2000 && exists|k: int|
            0 < k < 2000 && cut_short(content) == #[trigger] content.take(k)
                + "\n... (truncated)"@,
{
    reveal_strlit("\n... (truncated)");
    if content.len() > 2000 {
        let k = 2000 - cut_suffix().len();
        assert(cut_short(content) == content.take(k) + "\n... (truncated)"@);
    }
}

/// A payload holds the text, and the embeds where there are any.
pub proof fn payloads_hold_the_text(content: Seq<char>, embeds: Option<JsonView>)
    ensures
        payload_json(content, embeds).get("content"@) == Some(JsonView::Str(content)),
        payload_json(content, embeds).get("embeds"@) == embeds,
{
    reveal_with_fuel(field_of, 3);
    reveal_strlit("content");
    reveal_strlit("embeds");
    assert("content"@.len() != "embeds"@.len());
    if let Some(e) = embeds {
        let f = payload_json(content, embeds)->Object_0;
        assert(f.drop_first()[0] == f[1]);
    }
}

/// A reply to an interaction goes to its webhook, and any other to its channel.
pub proof fn replies_go_where_they_belong(m: MetadataView)
    ensures
        m.application_id.len() > 0 && m.token.len() > 0 ==> route_of(m)
            == RouteView::InteractionWebhook(
            DISCORD_API_BASE@ + "/webhooks/"@ + m.application_id + "/"@ + m.token
                + "/messages/@original"@,
        ),
        m.application_id.len() == 0 || m.token.len() == 0 ==> route_of(m)
            == RouteView::ChannelMessage(
            DISCORD_API_BASE@ + "/channels/"@ + m.channel_id + "/messages"@,
        ),
{
}

/// The bot is shown as typing while it thinks, in the channel it was asked in, and at no
/// other time.
pub proof fn typing_is_shown_while_thinking(status: StatusType, m: MetadataView)
    ensures
        status == StatusType::Thinking && m.channel_id.len() > 0 ==> typing_url(status, Some(m))
            == Some(DISCORD_API_BASE@ + "/channels/"@ + m.channel_id + "/typing"@),
        status != StatusType::Thinking || m.channel_id.len() == 0 ==> typing_url(status, Some(m))
            is None,
        typing_url(status, None) is None,
{
}

/// A request came off exactly where it was answered with success.
pub proof fn success_is_told(reply: Result<HttpReply, String>)
    ensures
        sent(reply) is Ok <==> (reply matches Ok(r) && 200 <= r.status < 300),
{
}

/// Embeds are those in the metadata.
pub proof fn embeds_are_found(metadata: JsonView)
    ensures
        embeds_of(Some(metadata)) == metadata.get("embeds"@),
        embeds_of(None) is None,
{
}

} // verus!

//! What the host of a channel hands in and takes back.

use vstd::prelude::*;
use vstd::utf8::{decode_utf8, encode_utf8, valid_utf8};

use crate::json::{
    json_parsed, json_text, lemma_array_view, one_field, json_str, parse, render, values, Json,
    JsonView,
};
use crate::number::{decimal, u64_to_string};
use crate::text::{has_substring, middle_is_found, occurs_at, opt_text, texts};

verus! {

/// An HTTP request that the host is to send.
#[derive(Debug, PartialEq, Eq)]
pub struct HttpCall {
    pub method: String,
    pub url: String,
    pub headers_json: String,
    pub body: Option<Vec<u8>>,
    pub timeout_ms: Option<u32>,
}

/// What a request holds.
pub struct CallView {
    pub method: Seq<char>,
    pub url: Seq<char>,
    pub headers: Seq<char>,
    pub body: Option<Seq<u8>>,
    pub timeout_ms: Option<u32>,
}

impl View for HttpCall {
    type V = CallView;

    open spec fn view(&self) -> CallView {
        CallView {
            method: self.method@,
            url: self.url@,
            headers: self.headers_json@,
            body: match self.body {
                Some(b) => Some(b@),
                None => None,
            },
            timeout_ms: self.timeout_ms,
        }
    }
}

/// What came back of a request.
#[derive(Debug, PartialEq, Eq)]
pub struct HttpReply {
    pub status: u16,
    pub body: Vec<u8>,
}

/// A response to a request that came in.
#[derive(Debug, PartialEq, Eq)]
pub struct OutgoingHttpResponse {
    pub status: u16,
    pub headers_json: String,
    pub body: Vec<u8>,
}

/// What a response holds.
pub struct ResponseView {
    pub status: u16,
    pub headers: Seq<char>,
    pub body: Seq<u8>,
}

impl View for OutgoingHttpResponse {
    type V = ResponseView;

    open spec fn view(&self) -> ResponseView {
        ResponseView { status: self.status, headers: self.headers_json@, body: self.body@ }
    }
}

/// A reply of the agent.
#[derive(Debug, PartialEq, Eq)]
pub struct AgentResponse {
    pub message_id: String,
    pub content: String,
    pub thread_id: Option<String>,
    pub metadata_json: String,
}

/// What the agent is doing.
#[derive(Debug, Clone, Copy, PartialEq, Eq, Structural)]
pub enum StatusType {
    Thinking,
    Done,
    Interrupted,
    ToolStarted,
    ToolCompleted,
    ToolResult,
    ApprovalNeeded,
    Status,
}

/// How a channel is polled.
#[derive(Debug, Clone, Copy, PartialEq, Eq, Structural)]
pub struct PollConfig {
    pub interval_ms: u32,
    pub enabled: bool,
}

/// An endpoint that a channel listens on.
#[derive(Debug, PartialEq, Eq)]
pub struct HttpEndpointConfig {
    pub path: String,
    pub methods: Vec<String>,
    pub require_secret: bool,
}

/// What a channel tells the host when it starts.
#[derive(Debug, PartialEq, Eq)]
pub struct ChannelConfig {
    pub display_name: String,
    pub http_endpoints: Vec<HttpEndpointConfig>,
    pub poll: Option<PollConfig>,
}

/// Whether a channel is what these arguments say: one endpoint, for `POST` alone.
pub open spec fn is_config(
    c: ChannelConfig,
    name: Seq<char>,
    path: Seq<char>,
    require_secret: bool,
    poll: Option<PollConfig>,
) -> bool {
    &&& c.display_name@ == name
    &&& c.http_endpoints@.len() == 1
    &&& c.http_endpoints@[0].path@ == path
    &&& texts(c.http_endpoints@[0].methods@) == seq!["POST"@]
    &&& c.http_endpoints@[0].require_secret == require_secret
    &&& c.poll == poll
}

/// Makes the configuration of a channel with one endpoint for `POST`.
pub fn make_config(name: &str, path: &str, require_secret: bool, poll: Option<PollConfig>) -> (r:
    ChannelConfig)
    ensures
        is_config(r, name@, path@, require_secret, poll),
{
    let mut methods: Vec<String> = Vec::new();
    methods.push("POST".to_owned());
    assert(texts(methods@) =~= seq!["POST"@]);
    let mut http_endpoints: Vec<HttpEndpointConfig> = Vec::new();
    http_endpoints.push(HttpEndpointConfig { path: path.to_owned(), methods, require_secret });
    ChannelConfig { display_name: name.to_owned(), http_endpoints, poll }
}

/// A value that is written to the workspace of a channel, under its path.
#[derive(Debug, PartialEq, Eq)]
pub struct WorkspaceWrite {
    pub path: String,
    pub value: String,
}

/// What several writes hold.
pub open spec fn write_views(v: Seq<WorkspaceWrite>) -> Seq<(Seq<char>, Seq<char>)> {
    v.map_values(|w: WorkspaceWrite| (w.path@, w.value@))
}

/// A write.
pub fn write_to(path: &str, value: &str) -> (r: WorkspaceWrite)
    ensures
        r.path@ == path@,
        r.value@ == value@,
{
    WorkspaceWrite { path: path.to_owned(), value: value.to_owned() }
}

/// The text that `String::from_utf8_lossy` makes of bytes.
pub uninterp spec fn lossy_utf8(bytes: Seq<u8>) -> Seq<char>;

/// Reads bytes as text with `String::from_utf8_lossy`: what is no UTF-8 is replaced. The
/// text is a function of the bytes alone, which `lossy_utf8` names; bytes that are UTF-8
/// give the text that they encode.
#[verifier::external_body]
pub(crate) fn lossy_text(bytes: &Vec<u8>) -> (r: String)
    ensures
        r@ == lossy_utf8(bytes@),
        valid_utf8(bytes@) ==> r@ == decode_utf8(bytes@),
{
    String::from_utf8_lossy(bytes).into_owned()
}

/// Reads bytes as UTF-8 with `std::str::from_utf8`; `None` where they are not.
#[verifier::external_body]
pub(crate) fn utf8_text(bytes: &Vec<u8>) -> (r: Option<String>)
    ensures
        match r {
            Some(s) => valid_utf8(bytes@) && s@ == decode_utf8(bytes@),
            None => !valid_utf8(bytes@),
        },
{
    std::str::from_utf8(bytes).ok().map(|s| s.to_owned())
}

/// The bytes of a text.
pub fn bytes_of(s: &str) -> (r: Vec<u8>)
    ensures
        r@ == encode_utf8(s@),
{
    s.as_bytes_vec()
}

/// The bytes of a value, written as compact JSON.
pub open spec fn json_bytes(j: JsonView) -> Seq<u8> {
    encode_utf8(json_text(j))
}

/// Writes a value as compact JSON, in bytes.
pub fn render_bytes(j: &Json) -> (r: Vec<u8>)
    ensures
        r@ == json_bytes(j@),
{
    bytes_of(render(j).as_str())
}

/// The headers of a JSON body.
pub open spec fn json_content_type() -> JsonView {
    JsonView::Object(seq![("Content-Type"@, JsonView::Str("application/json"@))])
}

/// Writes the headers of a JSON body.
pub fn json_headers() -> (r: String)
    ensures
        r@ == json_text(json_content_type()),
{
    render(&one_field("Content-Type", json_str("application/json")))
}

/// A JSON response.
pub open spec fn json_out(status: u16, value: JsonView) -> ResponseView {
    ResponseView {
        status,
        headers: json_text(json_content_type()),
        body: json_bytes(value),
    }
}

/// Makes a JSON response.
pub fn json_response(status: u16, value: Json) -> (r: OutgoingHttpResponse)
    ensures
        r@ == json_out(status, value@),
{
    OutgoingHttpResponse { status, headers_json: json_headers(), body: render_bytes(&value) }
}

/// An error, as a JSON response tells it.
pub fn error_response(status: u16, error: &str) -> (r: OutgoingHttpResponse)
    ensures
        r@ == json_out(
            status,
            JsonView::Object(seq![("error"@, JsonView::Str(error@))]),
        ),
{
    json_response(status, one_field("error", json_str(error)))
}

/// The strings of a JSON array that holds nothing else.
pub open spec fn strings_of(j: JsonView) -> Option<Seq<Seq<char>>> {
    match j {
        JsonView::Array(a) => if forall|i: int| 0 <= i < a.len() ==> (#[trigger] a[i]) is Str {
            Some(a.map_values(|x: JsonView| x->Str_0))
        } else {
            None
        },
        _ => None,
    }
}

/// Reads the strings of a JSON array; `None` where it is something else.
pub fn read_strings(j: &Json) -> (r: Option<Vec<String>>)
    ensures
        match r {
            Some(v) => strings_of(j@) == Some(texts(v@)),
            None => strings_of(j@) is None,
        },
{
    let items = match j.as_array() {
        Some(v) => v,
        None => {
            return None;
        },
    };
    let ghost all = j@->Array_0;
    let mut out: Vec<String> = Vec::new();
    let mut i: usize = 0;
    while i < items.len()
        invariant
            i <= items@.len(),
            j@ is Array,
            all == j@->Array_0,
            all == values(items@),
            out@.len() == i,
            forall|k: int| 0 <= k < i ==> #[trigger] all[k] == JsonView::Str(out@[k]@),
        decreases items@.len() - i,
    {
        assert(all[i as int] == items@[i as int]@);
        match items[i].as_str() {
            Some(s) => {
                let ghost before = out@;
                out.push(s.to_owned());
                assert forall|k: int| 0 <= k < i + 1 implies #[trigger] all[k] == JsonView::Str(
                    out@[k]@,
                ) by {
                    if k < i {
                        assert(out@[k] == before[k]);
                    }
                }
            },
            None => {
                assert(!(all[i as int] is Str));
                return None;
            },
        }
        i = i + 1;
    }
    assert(texts(out@) =~= all.map_values(|x: JsonView| x->Str_0));
    Some(out)
}

/// A list of strings that is kept as JSON text: what cannot be read is no string.
pub open spec fn kept_strings(text: Option<Seq<char>>) -> Seq<Seq<char>> {
    match text {
        Some(t) => match json_parsed(t) {
            Some(j) => match strings_of(j) {
                Some(v) => v,
                None => Seq::empty(),
            },
            None => Seq::empty(),
        },
        None => Seq::empty(),
    }
}

/// The strings of a value that was read from text, where it was read and is a list of
/// strings.
pub fn strings_or_none(value: Option<Json>) -> (r: Vec<String>)
    ensures
        texts(r@) == match value {
            Some(j) => match strings_of(j@) {
                Some(v) => v,
                None => Seq::empty(),
            },
            None => Seq::empty(),
        },
{
    match value {
        Some(j) => match read_strings(&j) {
            Some(v) => v,
            None => {
                let v: Vec<String> = Vec::new();
                assert(texts(v@) =~= Seq::empty());
                v
            },
        },
        None => {
            let v: Vec<String> = Vec::new();
            assert(texts(v@) =~= Seq::empty());
            v
        },
    }
}

/// Reads a list of strings that is kept as JSON text.
pub fn read_kept_strings(text: Option<&str>) -> (r: Vec<String>)
    ensures
        texts(r@) == kept_strings(
            match text {
                Some(t) => Some(t@),
                None => None,
            },
        ),
{
    match text {
        Some(t) => strings_or_none(parse(t)),
        None => strings_or_none(None),
    }
}

/// A list of strings as JSON.
pub open spec fn strings_json(v: Seq<Seq<char>>) -> JsonView {
    JsonView::Array(v.map_values(|s: Seq<char>| JsonView::Str(s)))
}

/// Makes a JSON array of strings.
pub fn strings_array(v: &Vec<String>) -> (r: Json)
    ensures
        r@ == strings_json(texts(v@)),
{
    let ghost all = texts(v@).map_values(|s: Seq<char>| JsonView::Str(s));
    let mut out: Vec<Json> = Vec::new();
    let mut i: usize = 0;
    assert(values(out@) =~= all.take(0));
    while i < v.len()
        invariant
            i <= v@.len(),
            all == texts(v@).map_values(|s: Seq<char>| JsonView::Str(s)),
            values(out@) == all.take(i as int),
        decreases v@.len() - i,
    {
        let ghost before = out@;
        out.push(json_str(v[i].as_str()));
        assert(values(out@) =~= values(before).push(all[i as int]));
        assert(all.take(i + 1) =~= all.take(i as int).push(all[i as int]));
        i = i + 1;
    }
    proof {
        assert(all.take(all.len() as int) =~= all);
        lemma_array_view(out);
    }
    Json::Array(out)
}

/// Whether a status tells of success.
pub open spec fn is_success(status: u16) -> bool {
    200 <= status < 300
}

/// Whether a status tells of success.
pub fn succeeded(status: u16) -> (r: bool)
    ensures
        r == is_success(status),
{
    200 <= status && status < 300
}

/// How a failed answer of a service is told: with its status and its body.
pub open spec fn failed_status(heading: Seq<char>, status: u16, sep: Seq<char>, body: Seq<u8>) -> Seq<
    char,
> {
    heading + decimal(status as nat) + sep + lossy_utf8(body)
}

/// Tells of a failed answer of a service.
pub fn tell_failed_status(heading: &str, status: u16, sep: &str, body: &Vec<u8>) -> (r: String)
    ensures
        r@ == failed_status(heading@, status, sep@, body@),
{
    let mut s = heading.to_owned();
    s.append(u64_to_string(status as u64).as_str());
    s.append(sep);
    s.append(lossy_text(body).as_str());
    s
}

/// Joins two texts.
pub fn text2(a: &str, b: &str) -> (r: String)
    ensures
        r@ == a@ + b@,
{
    let mut s = a.to_owned();
    s.append(b);
    s
}

/// Joins three texts.
pub fn text3(a: &str, b: &str, c: &str) -> (r: String)
    ensures
        r@ == a@ + b@ + c@,
{
    let mut s = text2(a, b);
    s.append(c);
    s
}

proof fn lemma_strings_of(v: Seq<Seq<char>>)
    ensures
        strings_of(strings_json(v)) == Some(v),
{
    let a = strings_json(v)->Array_0;
    assert(a.map_values(|x: JsonView| x->Str_0) =~= v);
}

/// Writes a list of strings as JSON text, to be kept: what is read of it is the list.
pub fn write_kept_strings(v: &Vec<String>) -> (r: String)
    ensures
        r@ == json_text(strings_json(texts(v@))),
        kept_strings(Some(r@)) == texts(v@),
{
    proof {
        lemma_strings_of(texts(v@));
    }
    render(&strings_array(v))
}

/// A message that a channel hands to the agent, with what it needs to reply.
#[derive(Debug, PartialEq, Eq)]
pub struct EmittedMessage<M> {
    pub user_id: String,
    pub user_name: Option<String>,
    pub content: String,
    pub thread_id: Option<String>,
    pub metadata: M,
}

/// What such a message holds.
#[verifier::reject_recursive_types(V)]
pub struct EmittedView<V> {
    pub user_id: Seq<char>,
    pub user_name: Option<Seq<char>>,
    pub content: Seq<char>,
    pub thread_id: Option<Seq<char>>,
    pub metadata: V,
}

impl<M: View> View for EmittedMessage<M> {
    type V = EmittedView<M::V>;

    open spec fn view(&self) -> EmittedView<M::V> {
        EmittedView {
            user_id: self.user_id@,
            user_name: opt_text(self.user_name),
            content: self.content@,
            thread_id: opt_text(self.thread_id),
            metadata: self.metadata@,
        }
    }
}

/// What several messages hold.
pub open spec fn emitted_views<M: View>(v: Seq<EmittedMessage<M>>) -> Seq<EmittedView<M::V>> {
    v.map_values(|m: EmittedMessage<M>| m@)
}

/// A list of strings that is kept as JSON text is read whole, in its order; and what is no
/// such list is read as an empty one.
pub proof fn kept_lists_are_read_whole(text: Seq<char>, a: Seq<JsonView>)
    requires
        json_parsed(text) == Some(JsonView::Array(a)),
    ensures
        (forall|i: int| 0 <= i < a.len() ==> (#[trigger] a[i]) is Str) ==> kept_strings(
            Some(text),
        ).len() == a.len() && forall|i: int|
            0 <= i < a.len() ==> (#[trigger] a[i]) == JsonView::Str(kept_strings(Some(text))[i]),
        (exists|i: int| 0 <= i < a.len() && !((#[trigger] a[i]) is Str)) ==> kept_strings(
            Some(text),
        ).len() == 0,
{
}

/// A list of strings is written with every string in its place.
pub proof fn lists_are_written_whole(v: Seq<Seq<char>>)
    ensures
        strings_json(v) matches JsonView::Array(a) && a.len() == v.len() && forall|i: int|
            0 <= i < v.len() ==> #[trigger] a[i] == JsonView::Str(v[i]),
        strings_of(strings_json(v)) == Some(v),
{
    lemma_strings_of(v);
}

/// A failed answer is told with its status and what it said.
pub proof fn failures_tell_what_was_said(
    heading: Seq<char>,
    status: u16,
    sep: Seq<char>,
    body: Seq<u8>,
)
    ensures
        has_substring(failed_status(heading, status, sep, body), lossy_utf8(body)),
        has_substring(failed_status(heading, status, sep, body), decimal(status as nat)),
        occurs_at(failed_status(heading, status, sep, body), heading, 0),
{
    let all = failed_status(heading, status, sep, body);
    let code = decimal(status as nat);
    let said = lossy_utf8(body);
    middle_is_found(heading + code + sep, said, Seq::empty());
    assert(all =~= heading + code + sep + said + Seq::empty());
    middle_is_found(heading, code, sep + said);
    assert(all =~= heading + code + (sep + said));
    assert(all.subrange(0, heading.len() as int) =~= heading);
}

/// A JSON response has its status, and its value as its body.
pub proof fn responses_hold_their_value(status: u16, value: JsonView)
    ensures
        json_out(status, value).status == status,
        json_out(status, value).body == encode_utf8(json_text(value)),
{
}

} // verus!

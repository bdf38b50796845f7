//! What is exchanged with the Python orchestrator: action calls, transcripts and
//! outcomes as JSON.
//!
//! Action calls cross the boundary under the names `name`, `call_id` and `params`.
//! Both directions go through this module, so that a call that the orchestrator
//! hands back is the call that it was handed.

use vstd::prelude::*;

use crate::common::timezone::{zone_named, zone_view, ValidTimezone, ZoneView};
use crate::executor::calls::object;
use crate::gate::{
    resume_json, resume_json_reads_back, resume_of, ResumeKind, ResumeView,
};
use crate::json::{
    field_of, fields, json_str, lemma_array_view, lemma_object_view, values, Json, JsonView,
};
use crate::number::{decimal, usize_to_string};
use crate::text::{
    has_substring, in_order, join, joined, middle_is_found, opt_text, sort_strings, str_eq, texts,
};
use crate::types::error::{EngineError, ErrorView};
use crate::types::event::{OutcomeView, ThreadOutcome};
use crate::types::message::{
    call_views, message_views, plain_message, ActionCall, CallView, MessageRole, MessageView,
    ThreadMessage,
};
use crate::types::thread::{may_follow, state_text, Thread, ThreadState, ThreadView};

verus! {

/// An action call as the orchestrator sees it.
pub open spec fn python_call(c: CallView) -> JsonView {
    JsonView::Object(
        seq![
            ("call_id"@, JsonView::Str(c.id)),
            ("name"@, JsonView::Str(c.action_name)),
            ("params"@, c.parameters),
        ],
    )
}

/// Action calls as the orchestrator sees them.
pub open spec fn python_calls(v: Seq<CallView>) -> Seq<JsonView> {
    v.map_values(|c: CallView| python_call(c))
}

/// The action call that a JSON value writes: an object with the texts `name` and
/// `call_id` and any value `params`, or an array of these three in this order.
pub open spec fn call_of(j: JsonView) -> Option<CallView> {
    match j {
        JsonView::Object(f) => match (
            field_of(f, "name"@),
            field_of(f, "call_id"@),
            field_of(f, "params"@),
        ) {
            (Some(JsonView::Str(n)), Some(JsonView::Str(i)), Some(p)) => Some(
                CallView { id: i, action_name: n, parameters: p },
            ),
            _ => None,
        },
        JsonView::Array(a) if a.len() == 3 => match (a[0], a[1]) {
            (JsonView::Str(n), JsonView::Str(i)) => Some(
                CallView { id: i, action_name: n, parameters: a[2] },
            ),
            _ => None,
        },
        _ => None,
    }
}

/// The action calls that a list of JSON values writes; `None` where one of them
/// writes none.
pub open spec fn calls_of(v: Seq<JsonView>) -> Option<Seq<CallView>>
    decreases v.len(),
{
    if v.len() == 0 {
        Some(Seq::empty())
    } else {
        match (calls_of(v.drop_last()), call_of(v.last())) {
            (Some(rest), Some(c)) => Some(rest.push(c)),
            _ => None,
        }
    }
}

/// The action calls that a JSON value writes: an array of them.
pub open spec fn call_list_of(j: JsonView) -> Option<Seq<CallView>> {
    match j {
        JsonView::Array(v) => calls_of(v),
        _ => None,
    }
}

proof fn lemma_python_call_reads_back(c: CallView)
    ensures
        call_of(python_call(c)) == Some(c),
{
    reveal_with_fuel(field_of, 4);
    reveal_strlit("call_id");
    reveal_strlit("name");
    reveal_strlit("params");
    assert("call_id"@.len() != "name"@.len());
    assert("call_id"@.len() != "params"@.len());
    assert("name"@.len() != "params"@.len());
    let f = python_call(c)->Object_0;
    assert(f.drop_first()[0] == f[1]);
    assert(f.drop_first().drop_first()[0] == f[2]);
}

/// Action calls that were handed to the orchestrator and come back unchanged are
/// the same calls.
pub proof fn python_calls_read_back(v: Seq<CallView>)
    ensures
        call_list_of(JsonView::Array(python_calls(v))) == Some(v),
    decreases v.len(),
{
    let j = python_calls(v);
    if v.len() > 0 {
        python_calls_read_back(v.drop_last());
        assert(j.drop_last() =~= python_calls(v.drop_last()));
        lemma_python_call_reads_back(v.last());
        assert(j.last() == python_call(v.last()));
        assert(v.drop_last().push(v.last()) =~= v);
    } else {
        assert(v =~= Seq::<CallView>::empty());
    }
}

/// Action calls under other field names than the agreed ones are not taken for
/// calls.
pub proof fn other_field_names_are_refused(f: Seq<(Seq<char>, JsonView)>)
    requires
        field_of(f, "name"@) is None || field_of(f, "call_id"@) is None || field_of(
            f,
            "params"@,
        ) is None,
    ensures
        call_of(JsonView::Object(f)) is None,
{
}

fn call_to_json(c: &ActionCall) -> (r: Json)
    ensures
        r@ == python_call(c@),
{
    let mut v: Vec<(String, Json)> = Vec::new();
    v.push(("call_id".to_owned(), json_str(c.id.as_str())));
    v.push(("name".to_owned(), json_str(c.action_name.as_str())));
    v.push(("params".to_owned(), c.parameters.clone()));
    assert(fields(v@) =~= python_call(c@)->Object_0);
    object(v)
}

/// Writes action calls for the orchestrator.
pub fn action_calls_to_python_json(calls: &Vec<ActionCall>) -> (r: Vec<Json>)
    ensures
        values(r@) == python_calls(call_views(calls@)),
{
    let ghost all = python_calls(call_views(calls@));
    let mut out: Vec<Json> = Vec::new();
    let mut i: usize = 0;
    assert(values(out@) =~= all.take(0));
    while i < calls.len()
        invariant
            i <= calls@.len(),
            all == python_calls(call_views(calls@)),
            values(out@) == all.take(i as int),
        decreases calls@.len() - i,
    {
        let ghost before = out@;
        out.push(call_to_json(&calls[i]));
        assert(values(out@) =~= values(before).push(all[i as int]));
        assert(all.take(i + 1) =~= all.take(i as int).push(all[i as int]));
        i = i + 1;
    }
    assert(all.take(all.len() as int) =~= all);
    out
}

fn json_to_call(j: &Json) -> (r: Option<ActionCall>)
    ensures
        match r {
            Some(c) => call_of(j@) == Some(c@),
            None => call_of(j@) is None,
        },
{
    match j {
        Json::Object(_) => match (j.str_field("name"), j.str_field("call_id"), j.get("params")) {
            (Some(n), Some(i), Some(p)) => Some(
                ActionCall {
                    id: i.to_owned(),
                    action_name: n.to_owned(),
                    parameters: p.clone(),
                },
            ),
            _ => None,
        },
        Json::Array(a) => {
            proof {
                lemma_array_view(*a);
            }
            if a.len() != 3 {
                return None;
            }
            assert(j@->Array_0[0] == a@[0]@);
            assert(j@->Array_0[1] == a@[1]@);
            assert(j@->Array_0[2] == a@[2]@);
            match (a[0].as_str(), a[1].as_str()) {
                (Some(n), Some(i)) => Some(
                    ActionCall {
                        id: i.to_owned(),
                        action_name: n.to_owned(),
                        parameters: a[2].clone(),
                    },
                ),
                _ => None,
            }
        },
        _ => None,
    }
}

proof fn lemma_one_bad_call(v: Seq<JsonView>, k: int)
    requires
        0 <= k < v.len(),
        call_of(v[k]) is None,
    ensures
        calls_of(v) is None,
    decreases v.len(),
{
    if k < v.len() - 1 {
        lemma_one_bad_call(v.drop_last(), k);
    }
}

/// Reads action calls that the orchestrator hands back. One entry that is no call
/// spoils the list.
pub fn python_json_to_action_calls(value: &Json) -> (r: Option<Vec<ActionCall>>)
    ensures
        match r {
            Some(v) => call_list_of(value@) == Some(call_views(v@)),
            None => call_list_of(value@) is None,
        },
{
    match value.as_array() {
        Some(items) => {
            let ghost all = values(items@);
            let mut out: Vec<ActionCall> = Vec::new();
            let mut i: usize = 0;
            assert(all.take(0) =~= Seq::<JsonView>::empty());
            assert(call_views(out@) =~= Seq::<CallView>::empty());
            while i < items.len()
                invariant
                    i <= items@.len(),
                    all == values(items@),
                    value@ == JsonView::Array(all),
                    calls_of(all.take(i as int)) == Some(call_views(out@)),
                decreases items@.len() - i,
            {
                assert(all.take(i + 1).drop_last() =~= all.take(i as int));
                assert(all.take(i + 1).last() == items@[i as int]@);
                let ghost before = out@;
                match json_to_call(&items[i]) {
                    Some(c) => {
                        let ghost cv = c@;
                        out.push(c);
                        assert(call_views(out@) =~= call_views(before).push(cv));
                    },
                    None => {
                        proof {
                            lemma_one_bad_call(all, i as int);
                        }
                        return None;
                    },
                }
                i = i + 1;
            }
            assert(all.take(all.len() as int) =~= all);
            Some(out)
        },
        None => None,
    }
}

/// The name of the type of a JSON value.
pub open spec fn json_kind(j: JsonView) -> Seq<char> {
    match j {
        JsonView::Null => "null"@,
        JsonView::Bool(_) => "bool"@,
        JsonView::Uint(_) | JsonView::Int(_) | JsonView::Float(_) => "number"@,
        JsonView::Str(_) => "string"@,
        JsonView::Array(_) => "array"@,
        JsonView::Object(_) => "object"@,
    }
}

/// The name of the type of a JSON value.
pub fn json_value_type_name(value: &Json) -> (r: &'static str)
    ensures
        r@ == json_kind(value@),
{
    match value {
        Json::Null => "null",
        Json::Bool(_) => "bool",
        Json::Uint(_) | Json::Int(_) | Json::Float(_) => "number",
        Json::Str(_) => "string",
        Json::Array(_) => "array",
        Json::Object(_) => "object",
    }
}

/// The names of the fields of an object.
pub open spec fn keys_of(f: Seq<(Seq<char>, JsonView)>) -> Seq<Seq<char>> {
    f.map_values(|p: (Seq<char>, JsonView)| p.0)
}

/// A summary of a list of action calls for the log: how many entries it has and
/// the names of the fields of the first, and nothing that a field holds.
pub open spec fn log_summary(j: JsonView) -> Seq<char> {
    match j {
        JsonView::Array(a) => if a.len() == 0 {
            "empty array"@
        } else {
            "array of "@ + decimal(a.len()) + " entries; first entry keys: ["@ + (match a[0] {
                JsonView::Object(f) => joined(in_order(keys_of(f)), ","@),
                _ => "<not an object>"@,
            }) + "]"@
        },
        _ => "non-array value of type "@ + json_kind(j),
    }
}

/// Summarizes a list of action calls for the log without what its parameters hold,
/// which may be personal.
pub fn summarize_action_calls_for_log(value: &Json) -> (r: String)
    ensures
        r@ == log_summary(value@),
{
    match value.as_array() {
        Some(items) => {
            if items.len() == 0 {
                return "empty array".to_owned();
            }
            assert(values(items@)[0] == items@[0]@);
            let keys = match &items[0] {
                Json::Object(f) => {
                    let mut names: Vec<String> = Vec::new();
                    let mut i: usize = 0;
                    let ghost all = keys_of(fields(f@));
                    assert(texts(names@) =~= all.take(0));
                    while i < f.len()
                        invariant
                            i <= f@.len(),
                            all == keys_of(fields(f@)),
                            texts(names@) == all.take(i as int),
                        decreases f@.len() - i,
                    {
                        let ghost before = names@;
                        names.push(f[i].0.clone());
                        assert(texts(names@) =~= texts(before).push(all[i as int]));
                        assert(all.take(i + 1) =~= all.take(i as int).push(all[i as int]));
                        i = i + 1;
                    }
                    proof {
                        lemma_object_view(*f);
                        assert(all.take(all.len() as int) =~= all);
                    }
                    join(&sort_strings(&names), ",")
                },
                _ => "<not an object>".to_owned(),
            };
            let mut s = "array of ".to_owned();
            s.append(usize_to_string(items.len()).as_str());
            s.append(" entries; first entry keys: [");
            s.append(keys.as_str());
            s.append("]");
            s
        },
        None => {
            let mut s = "non-array value of type ".to_owned();
            s.append(json_value_type_name(value));
            s
        },
    }
}

/// Two lists that differ only in what the fields of their entries hold have one
/// summary: nothing of what the fields hold gets into it.
pub proof fn summary_hides_values(a: Seq<JsonView>, b: Seq<JsonView>)
    requires
        a.len() == b.len() > 0,
        a[0] is Object,
        b[0] is Object,
        keys_of(a[0]->Object_0) == keys_of(b[0]->Object_0),
    ensures
        log_summary(JsonView::Array(a)) == log_summary(JsonView::Array(b)),
{
}

/// A text, empty where there is none.
pub open spec fn or_empty(o: Option<Seq<char>>) -> Seq<char> {
    match o {
        Some(s) => s,
        None => Seq::empty(),
    }
}

/// The message that an entry of a transcript writes. A role that is not known, or
/// is missing, is the user's; action calls that cannot be read are left out.
pub open spec fn message_of(j: JsonView) -> MessageView {
    let role = match j.str_field("role"@) {
        Some(r) => r,
        None => "User"@,
    };
    let content = or_empty(j.str_field("content"@));
    if role == "System"@ || role == "system"@ {
        plain_message(MessageRole::System, content)
    } else if role == "Assistant"@ || role == "assistant"@ {
        let calls = match j.get("action_calls"@) {
            Some(c) => call_list_of(c),
            None => None,
        };
        MessageView { action_calls: calls, ..plain_message(MessageRole::Assistant, content) }
    } else if role == "ActionResult"@ || role == "action_result"@ {
        MessageView {
            action_call_id: Some(or_empty(j.str_field("action_call_id"@))),
            action_name: Some(or_empty(j.str_field("action_name"@))),
            ..plain_message(MessageRole::ActionResult, content)
        }
    } else {
        plain_message(MessageRole::User, content)
    }
}

/// The messages that a transcript writes.
pub open spec fn messages_of(v: Seq<JsonView>) -> Seq<MessageView> {
    v.map_values(|j: JsonView| message_of(j))
}

fn json_to_message(item: &Json) -> (r: ThreadMessage)
    ensures
        r@ == message_of(item@),
{
    let role = match item.str_field("role") {
        Some(r) => r,
        None => "User",
    };
    let content = match item.str_field("content") {
        Some(c) => c,
        None => "",
    };
    proof {
        reveal_strlit("");
        assert(""@ =~= Seq::<char>::empty());
    }
    if str_eq(role, "System") || str_eq(role, "system") {
        ThreadMessage::system(content)
    } else if str_eq(role, "Assistant") || str_eq(role, "assistant") {
        let calls = match item.get("action_calls") {
            Some(c) => python_json_to_action_calls(c),
            None => None,
        };
        match calls {
            Some(v) => ThreadMessage::assistant_with_actions(Some(content.to_owned()), v),
            None => ThreadMessage::assistant(content),
        }
    } else if str_eq(role, "ActionResult") || str_eq(role, "action_result") {
        let call_id = match item.str_field("action_call_id") {
            Some(s) => s,
            None => "",
        };
        let action_name = match item.str_field("action_name") {
            Some(s) => s,
            None => "",
        };
        ThreadMessage::action_result(call_id, action_name, content)
    } else {
        ThreadMessage::user(content)
    }
}

/// Reads a transcript; `None` of a value that is no array.
pub fn json_to_thread_messages(value: &Json) -> (r: Option<Vec<ThreadMessage>>)
    ensures
        match r {
            Some(v) => value@ matches JsonView::Array(a) && message_views(v@) == messages_of(a),
            None => !(value@ is Array),
        },
{
    match value.as_array() {
        Some(items) => {
            let ghost all = messages_of(values(items@));
            let mut out: Vec<ThreadMessage> = Vec::new();
            let mut i: usize = 0;
            assert(message_views(out@) =~= all.take(0));
            while i < items.len()
                invariant
                    i <= items@.len(),
                    all == messages_of(values(items@)),
                    message_views(out@) == all.take(i as int),
                decreases items@.len() - i,
            {
                let ghost before = out@;
                out.push(json_to_message(&items[i]));
                assert(message_views(out@) =~= message_views(before).push(all[i as int]));
                assert(all.take(i + 1) =~= all.take(i as int).push(all[i as int]));
                i = i + 1;
            }
            assert(all.take(all.len() as int) =~= all);
            Some(out)
        },
        None => None,
    }
}

/// The thread after the state that the orchestrator hands back: the transcript that
/// it works on is the thread's, where it hands one back.
pub open spec fn with_runtime_state(t: ThreadView, state: Option<JsonView>, now: i128) -> ThreadView {
    match state {
        Some(s) => match s.get("working_messages"@) {
            Some(JsonView::Array(a)) => ThreadView {
                internal_messages: messages_of(a),
                updated_at: now,
                ..t
            },
            _ => t,
        },
        None => t,
    }
}

/// What an optional reference to a JSON value holds.
pub open spec fn ref_value(o: Option<&Json>) -> Option<JsonView> {
    match o {
        Some(j) => Some(j@),
        None => None,
    }
}

/// Takes the transcript that the orchestrator works on over into the thread.
pub fn sync_runtime_state(thread: &mut Thread, state: Option<&Json>, now: i128)
    ensures
        final(thread)@ == with_runtime_state(old(thread)@, ref_value(state), now),
{
    if let Some(s) = state {
        if let Some(w) = s.get("working_messages") {
            if let Some(messages) = json_to_thread_messages(w) {
                thread.internal_messages = messages;
                thread.updated_at = now;
            }
        }
    }
}

/// The thread after an outcome: the response that completes it is the last message
/// that the user sees.
pub open spec fn with_visible_outcome(t: ThreadView, o: OutcomeView, now: i128) -> ThreadView {
    match o {
        OutcomeView::Completed { response: Some(r) } => if t.messages.len() > 0
            && t.messages.last().role == MessageRole::Assistant && t.messages.last().content == r {
            t
        } else {
            t.with_message(plain_message(MessageRole::Assistant, r), now)
        },
        _ => t,
    }
}

/// Adds the response that completes a thread to what the user sees, unless it is
/// the last message already.
pub fn sync_visible_outcome(thread: &mut Thread, outcome: &ThreadOutcome, now: i128)
    ensures
        final(thread)@ == with_visible_outcome(old(thread)@, outcome@, now),
{
    if let ThreadOutcome::Completed { response: Some(response) } = outcome {
        let n = thread.messages.len();
        assert(thread@.messages.len() == n);
        let present = if n > 0 {
            let last = &thread.messages[n - 1];
            assert(thread@.messages.last() == last@);
            last.role == MessageRole::Assistant && str_eq(
                last.content.as_str(),
                response.as_str(),
            )
        } else {
            false
        };
        if !present {
            thread.add_message(ThreadMessage::assistant(response.as_str()), now);
        }
    }
}

/// Showing an outcome twice shows it once.
pub proof fn visible_outcome_is_shown_once(t: ThreadView, o: OutcomeView, now: i128, later: i128)
    ensures
        with_visible_outcome(with_visible_outcome(t, o, now), o, later) == with_visible_outcome(
            t,
            o,
            now,
        ),
{
}

/// The outcome that the orchestrator's result writes. A result without an outcome
/// is a completion, and so is one that is not known, without a response.
pub open spec fn outcome_of(j: JsonView) -> OutcomeView {
    let kind = match j.str_field("outcome"@) {
        Some(s) => s,
        None => "completed"@,
    };
    if kind == "completed"@ {
        OutcomeView::Completed { response: j.str_field("response"@) }
    } else if kind == "stopped"@ {
        OutcomeView::Stopped
    } else if kind == "max_iterations"@ {
        OutcomeView::MaxIterations
    } else if kind == "failed"@ {
        OutcomeView::Failed {
            error: match j.str_field("error"@) {
                Some(e) => e,
                None => "unknown error"@,
            },
        }
    } else if kind == "gate_paused"@ {
        OutcomeView::GatePaused {
            gate_name: match j.str_field("gate_name"@) {
                Some(g) => g,
                None => "unknown"@,
            },
            action_name: or_empty(j.str_field("action_name"@)),
            call_id: or_empty(j.str_field("call_id"@)),
            parameters: match j.get("parameters"@) {
                Some(p) => p,
                None => JsonView::Object(Seq::empty()),
            },
            resume_kind: match j.get("resume_kind"@) {
                Some(k) => match resume_of(k) {
                    Some(x) => x,
                    None => ResumeView::Approval(false),
                },
                None => ResumeView::Approval(false),
            },
            resume_output: j.get("resume_output"@),
        }
    } else {
        OutcomeView::Completed { response: None }
    }
}

fn field_or(j: &Json, key: &str, default: &str) -> (r: String)
    ensures
        r@ == (match j@.str_field(key@) {
            Some(s) => s,
            None => default@,
        }),
{
    match j.str_field(key) {
        Some(s) => s.to_owned(),
        None => default.to_owned(),
    }
}

/// Reads the outcome from the orchestrator's result.
pub fn parse_outcome(result: &Json) -> (r: ThreadOutcome)
    ensures
        r@ == outcome_of(result@),
{
    let kind = match result.str_field("outcome") {
        Some(s) => s,
        None => "completed",
    };
    if str_eq(kind, "completed") {
        let response = match result.str_field("response") {
            Some(s) => Some(s.to_owned()),
            None => None,
        };
        ThreadOutcome::Completed { response }
    } else if str_eq(kind, "stopped") {
        ThreadOutcome::Stopped
    } else if str_eq(kind, "max_iterations") {
        ThreadOutcome::MaxIterations
    } else if str_eq(kind, "failed") {
        ThreadOutcome::Failed { error: field_or(result, "error", "unknown error") }
    } else if str_eq(kind, "gate_paused") {
        proof {
            reveal_strlit("");
            assert(""@ =~= Seq::<char>::empty());
        }
        let resume_kind = match result.get("resume_kind") {
            Some(k) => match ResumeKind::from_json(k) {
                Some(x) => x,
                None => ResumeKind::Approval { allow_always: false },
            },
            None => ResumeKind::Approval { allow_always: false },
        };
        let parameters = match result.get("parameters") {
            Some(p) => p.clone(),
            None => {
                let none: Vec<(String, Json)> = Vec::new();
                assert(fields(none@) =~= Seq::<(Seq<char>, JsonView)>::empty());
                object(none)
            },
        };
        let resume_output = match result.get("resume_output") {
            Some(o) => Some(o.clone()),
            None => None,
        };
        ThreadOutcome::GatePaused {
            gate_name: field_or(result, "gate_name", "unknown"),
            action_name: field_or(result, "action_name", ""),
            call_id: field_or(result, "call_id", ""),
            parameters,
            resume_kind,
            resume_output,
        }
    } else {
        ThreadOutcome::Completed { response: None }
    }
}

/// Makes a thread wait that a gate paused.
pub fn normalize_pause_outcome(thread: &mut Thread, outcome: &ThreadOutcome, now: i128) -> (r:
    Result<(), EngineError>)
    ensures
        ({
            let t = old(thread)@;
            if outcome@ is GatePaused && t.state != ThreadState::Waiting {
                match r {
                    Ok(_) => {
                        &&& may_follow(t.state, ThreadState::Waiting)
                        &&& final(thread)@ == t.in_state(
                            ThreadState::Waiting,
                            Some("waiting on external gate resolution"@),
                            now,
                        )
                    },
                    Err(e) => {
                        &&& !may_follow(t.state, ThreadState::Waiting)
                        &&& final(thread)@ == t
                        &&& e@ == ErrorView::InvalidTransition(
                            state_text(t.state),
                            state_text(ThreadState::Waiting),
                        )
                    },
                }
            } else {
                r is Ok && final(thread)@ == t
            }
        }),
{
    if let ThreadOutcome::GatePaused { .. } = outcome {
        if thread.state != ThreadState::Waiting {
            return thread.transition_to(
                ThreadState::Waiting,
                Some("waiting on external gate resolution".to_owned()),
                now,
            );
        }
    }
    Ok(())
}

/// The channel that a thread came from.
pub fn thread_source_channel(thread: &Thread) -> (r: Option<String>)
    ensures
        opt_text(r) == thread@.metadata.str_field("source_channel"@),
{
    match thread.metadata.str_field("source_channel") {
        Some(s) => Some(s.to_owned()),
        None => None,
    }
}

/// The time zone of the user in the metadata of a thread, where it is known and
/// valid.
pub open spec fn zone_in(metadata: JsonView) -> Option<ZoneView> {
    match metadata.str_field("user_timezone"@) {
        Some(s) => zone_named(s),
        None => None,
    }
}

/// The time zone of the user of a thread, where it is known and valid.
pub fn thread_user_timezone(thread: &Thread) -> (r: Option<ValidTimezone>)
    ensures
        zone_view(r) == zone_in(thread@.metadata),
{
    match thread.metadata.str_field("user_timezone") {
        Some(s) => ValidTimezone::parse(s),
        None => None,
    }
}

/// A call is shown with its identity, its action and its parameters, and calls in their
/// order.
pub proof fn calls_are_shown_whole(v: Seq<CallView>, i: int)
    requires
        0 <= i < v.len(),
    ensures
        python_calls(v).len() == v.len(),
        python_calls(v)[i].get("call_id"@) == Some(JsonView::Str(v[i].id)),
        python_calls(v)[i].get("name"@) == Some(JsonView::Str(v[i].action_name)),
        python_calls(v)[i].get("params"@) == Some(v[i].parameters),
{
    let c = v[i];
    reveal_with_fuel(field_of, 4);
    reveal_strlit("call_id");
    reveal_strlit("name");
    reveal_strlit("params");
    assert("call_id"@.len() == 7 && "name"@.len() == 4 && "params"@.len() == 6);
    let f = python_call(c)->Object_0;
    assert(f.drop_first()[0] == f[1]);
    assert(f.drop_first().drop_first()[0] == f[2]);
}

/// An object with the three fields of a call is that call, whatever else it holds, and so
/// is an array of the three.
pub proof fn calls_are_read(
    f: Seq<(Seq<char>, JsonView)>,
    name: Seq<char>,
    id: Seq<char>,
    params: JsonView,
)
    requires
        field_of(f, "name"@) == Some(JsonView::Str(name)),
        field_of(f, "call_id"@) == Some(JsonView::Str(id)),
        field_of(f, "params"@) == Some(params),
    ensures
        call_of(JsonView::Object(f)) == Some(
            CallView { id, action_name: name, parameters: params },
        ),
        call_of(JsonView::Array(seq![JsonView::Str(name), JsonView::Str(id), params])) == Some(
            CallView { id, action_name: name, parameters: params },
        ),
{
}

/// A list is read entry by entry, in its order; one entry that is no call spoils it.
pub proof fn call_lists_are_read_entry_by_entry(v: Seq<JsonView>, i: int)
    requires
        0 <= i < v.len(),
    ensures
        call_of(v[i]) is None ==> calls_of(v) is None,
        calls_of(v) matches Some(c) ==> c.len() == v.len() && call_of(v[i]) == Some(c[i]),
        (forall|j: int| 0 <= j < v.len() ==> call_of(#[trigger] v[j]) is Some) ==> calls_of(
            v,
        ) is Some,
    decreases v.len(),
{
    let r = v.drop_last();
    lemma_calls_of(v);
    if i < r.len() {
        call_lists_are_read_entry_by_entry(r, i);
    } else if r.len() > 0 {
        call_lists_are_read_entry_by_entry(r, 0);
    }
    lemma_calls_of(r);
    if forall|j: int| 0 <= j < v.len() ==> call_of(#[trigger] v[j]) is Some {
        lemma_all_calls(v);
    }
}

proof fn lemma_calls_of(v: Seq<JsonView>)
    ensures
        calls_of(v) matches Some(c) ==> c.len() == v.len(),
    decreases v.len(),
{
    if v.len() > 0 {
        lemma_calls_of(v.drop_last());
    }
}

proof fn lemma_all_calls(v: Seq<JsonView>)
    requires
        forall|j: int| 0 <= j < v.len() ==> call_of(#[trigger] v[j]) is Some,
    ensures
        calls_of(v) is Some,
    decreases v.len(),
{
    if v.len() > 0 {
        let r = v.drop_last();
        assert forall|j: int| 0 <= j < r.len() implies call_of(#[trigger] r[j]) is Some by {
            assert(call_of(v[j]) is Some);
        }
        assert(call_of(v[v.len() - 1]) is Some);
        lemma_all_calls(r);
    }
}

/// The names of roles are told apart.
proof fn lemma_roles()
    ensures
        "User"@ != "System"@ && "User"@ != "system"@ && "User"@ != "Assistant"@ && "User"@
            != "assistant"@ && "User"@ != "ActionResult"@ && "User"@ != "action_result"@,
        "user"@ != "System"@ && "user"@ != "system"@ && "user"@ != "Assistant"@ && "user"@
            != "assistant"@ && "user"@ != "ActionResult"@ && "user"@ != "action_result"@,
        "System"@ != "Assistant"@ && "System"@ != "assistant"@,
        "system"@ != "Assistant"@ && "system"@ != "assistant"@,
        "ActionResult"@ != "System"@ && "ActionResult"@ != "system"@ && "ActionResult"@
            != "Assistant"@ && "ActionResult"@ != "assistant"@,
        "action_result"@ != "System"@ && "action_result"@ != "system"@ && "action_result"@
            != "Assistant"@ && "action_result"@ != "assistant"@,
{
    reveal_strlit("User");
    reveal_strlit("user");
    reveal_strlit("System");
    reveal_strlit("system");
    reveal_strlit("Assistant");
    reveal_strlit("assistant");
    reveal_strlit("ActionResult");
    reveal_strlit("action_result");
    assert("User"@.len() == 4 && "user"@.len() == 4 && "System"@.len() == 6 && "system"@.len() == 6
        && "Assistant"@.len() == 9 && "assistant"@.len() == 9 && "ActionResult"@.len() == 12
        && "action_result"@.len() == 13);
}

/// Each entry of a transcript is a message with all of its text, in the order of the
/// entries, said by whom its role names.
pub proof fn transcripts_are_read_whole(v: Seq<JsonView>, i: int, text: Seq<char>)
    requires
        0 <= i < v.len(),
        v[i].get("content"@) == Some(JsonView::Str(text)),
    ensures
        messages_of(v).len() == v.len(),
        messages_of(v)[i].content == text,
        v[i].get("role"@) == Some(JsonView::Str("System"@)) ==> messages_of(v)[i].role
            == MessageRole::System,
        v[i].get("role"@) == Some(JsonView::Str("system"@)) ==> messages_of(v)[i].role
            == MessageRole::System,
        v[i].get("role"@) == Some(JsonView::Str("Assistant"@)) ==> messages_of(v)[i].role
            == MessageRole::Assistant,
        v[i].get("role"@) == Some(JsonView::Str("assistant"@)) ==> messages_of(v)[i].role
            == MessageRole::Assistant,
        v[i].get("role"@) == Some(JsonView::Str("User"@)) ==> messages_of(v)[i].role
            == MessageRole::User,
        v[i].get("role"@) == Some(JsonView::Str("user"@)) ==> messages_of(v)[i].role
            == MessageRole::User,
        v[i].get("role"@) is None ==> messages_of(v)[i].role == MessageRole::User,
        v[i].get("role"@) == Some(JsonView::Str("ActionResult"@)) ==> messages_of(v)[i].role
            == MessageRole::ActionResult,
        v[i].get("role"@) == Some(JsonView::Str("action_result"@)) ==> messages_of(v)[i].role
            == MessageRole::ActionResult,
{
    lemma_roles();
}

/// The assistant's calls and the call that a result is of are taken over from the
/// transcript.
pub proof fn calls_of_a_transcript_are_kept(
    j: JsonView,
    calls: Seq<CallView>,
    id: Seq<char>,
    name: Seq<char>,
)
    ensures
        (j.get("role"@) == Some(JsonView::Str("Assistant"@)) || j.get("role"@) == Some(
            JsonView::Str("assistant"@),
        )) && j.get("action_calls"@) == Some(JsonView::Array(python_calls(calls))) ==> message_of(
            j,
        ).action_calls == Some(calls),
        (j.get("role"@) == Some(JsonView::Str("ActionResult"@)) || j.get("role"@) == Some(
            JsonView::Str("action_result"@),
        )) && j.get("action_call_id"@) == Some(JsonView::Str(id)) && j.get("action_name"@) == Some(
            JsonView::Str(name),
        ) ==> message_of(j).action_call_id == Some(id) && message_of(j).action_name == Some(name),
{
    lemma_roles();
    python_calls_read_back(calls);
}

/// A transcript that comes back takes the place of the one that was worked on and nothing
/// else; where none comes back nothing changes.
pub proof fn working_transcript_is_taken_over(
    t: ThreadView,
    s: JsonView,
    a: Seq<JsonView>,
    now: i128,
    i: int,
)
    requires
        s.get("working_messages"@) == Some(JsonView::Array(a)),
        0 <= i < a.len(),
    ensures
        with_runtime_state(t, Some(s), now).internal_messages.len() == a.len(),
        with_runtime_state(t, Some(s), now).internal_messages[i] == message_of(a[i]),
        with_runtime_state(t, Some(s), now).messages == t.messages,
        with_runtime_state(t, Some(s), now).updated_at == now,
        with_runtime_state(t, Some(s), now) == (ThreadView {
            internal_messages: with_runtime_state(t, Some(s), now).internal_messages,
            updated_at: now,
            ..t
        }),
        with_runtime_state(t, None, now) == t,
{
}

/// The user sees the response that completes a thread as the last message, and of every
/// other outcome nothing.
pub proof fn responses_are_shown(t: ThreadView, o: OutcomeView, r: Seq<char>, now: i128)
    ensures
        o == (OutcomeView::Completed { response: Some(r) }) ==> with_visible_outcome(
            t,
            o,
            now,
        ).messages.len() > 0 && with_visible_outcome(t, o, now).messages.last().content == r
            && with_visible_outcome(t, o, now).messages.last().role == MessageRole::Assistant,
        o == (OutcomeView::Completed { response: None }) || !(o is Completed)
            ==> with_visible_outcome(t, o, now) == t,
        forall|i: int|
            0 <= i < t.messages.len() ==> (#[trigger] with_visible_outcome(
                t,
                o,
                now,
            ).messages[i]) == t.messages[i],
{
}

proof fn lemma_outcomes()
    ensures
        "completed"@ != "stopped"@ && "completed"@ != "max_iterations"@ && "completed"@
            != "failed"@ && "completed"@ != "gate_paused"@,
        "stopped"@ != "max_iterations"@ && "stopped"@ != "failed"@ && "stopped"@
            != "gate_paused"@,
        "max_iterations"@ != "failed"@ && "max_iterations"@ != "gate_paused"@,
        "failed"@ != "gate_paused"@,
{
    reveal_strlit("completed");
    reveal_strlit("stopped");
    reveal_strlit("max_iterations");
    reveal_strlit("failed");
    reveal_strlit("gate_paused");
    assert("completed"@.len() == 9 && "stopped"@.len() == 7 && "max_iterations"@.len() == 14
        && "failed"@.len() == 6 && "gate_paused"@.len() == 11);
}

/// Each outcome is read with all that it carries: a completion with its response, a
/// failure with its error.
pub proof fn outcomes_are_read(j: JsonView, r: Seq<char>)
    ensures
        j.get("outcome"@) == Some(JsonView::Str("completed"@)) && j.get("response"@) == Some(
            JsonView::Str(r),
        ) ==> outcome_of(j) == (OutcomeView::Completed { response: Some(r) }),
        j.get("outcome"@) is None && j.get("response"@) == Some(JsonView::Str(r)) ==> outcome_of(j)
            == (OutcomeView::Completed { response: Some(r) }),
        j.get("outcome"@) == Some(JsonView::Str("completed"@)) && j.get("response"@) is None
            ==> outcome_of(j) == (OutcomeView::Completed { response: None }),
        j.get("outcome"@) == Some(JsonView::Str("stopped"@)) ==> outcome_of(j)
            == OutcomeView::Stopped,
        j.get("outcome"@) == Some(JsonView::Str("max_iterations"@)) ==> outcome_of(j)
            == OutcomeView::MaxIterations,
        j.get("outcome"@) == Some(JsonView::Str("failed"@)) && j.get("error"@) == Some(
            JsonView::Str(r),
        ) ==> outcome_of(j) == (OutcomeView::Failed { error: r }),
        j.get("outcome"@) == Some(JsonView::Str("failed"@)) && j.get("error"@) is None
            ==> outcome_of(j) == (OutcomeView::Failed { error: "unknown error"@ }),
{
    lemma_outcomes();
}

/// A pause is read with its gate, its action, its call, the parameters and what resumes it.
pub proof fn pauses_are_read(
    j: JsonView,
    gate: Seq<char>,
    action: Seq<char>,
    call: Seq<char>,
    params: JsonView,
    kind: ResumeView,
    output: Option<JsonView>,
)
    requires
        j.get("outcome"@) == Some(JsonView::Str("gate_paused"@)),
        j.get("gate_name"@) == Some(JsonView::Str(gate)),
        j.get("action_name"@) == Some(JsonView::Str(action)),
        j.get("call_id"@) == Some(JsonView::Str(call)),
        j.get("parameters"@) == Some(params),
        j.get("resume_kind"@) == Some(resume_json(kind)),
        j.get("resume_output"@) == output,
    ensures
        outcome_of(j) == (OutcomeView::GatePaused {
            gate_name: gate,
            action_name: action,
            call_id: call,
            parameters: params,
            resume_kind: kind,
            resume_output: output,
        }),
{
    lemma_outcomes();
    resume_json_reads_back(kind);
}

/// The zone of a thread is the one that its metadata names.
pub proof fn zone_of_the_metadata_is_taken(metadata: JsonView, s: Seq<char>)
    ensures
        metadata.get("user_timezone"@) == Some(JsonView::Str(s)) ==> zone_in(metadata)
            == zone_named(s),
        metadata.get("user_timezone"@) is None ==> zone_in(metadata) is None,
{
}

/// The log tells how many entries a list has and every name of a field of the first.
pub proof fn summary_tells_the_names(a: Seq<JsonView>)
    requires
        a.len() > 0,
    ensures
        has_substring(log_summary(JsonView::Array(a)), decimal(a.len())),
        a[0] matches JsonView::Object(f) ==> has_substring(
            log_summary(JsonView::Array(a)),
            joined(in_order(keys_of(f)), ","@),
        ),
{
    let d = decimal(a.len());
    let x = match a[0] {
        JsonView::Object(f) => joined(in_order(keys_of(f)), ","@),
        _ => "<not an object>"@,
    };
    let m = " entries; first entry keys: ["@;
    let s = log_summary(JsonView::Array(a));
    middle_is_found("array of "@, d, m + x + "]"@);
    assert("array of "@ + d + (m + x + "]"@) =~= s);
    middle_is_found("array of "@ + d + m, x, "]"@);
}

} // verus!

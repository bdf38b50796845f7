//! The Python orchestrator: the functions that the host offers to it, and how its
//! run ends.
//!
//! The orchestrator runs in an interpreter that stops at each call of a host
//! function. What the host then does is decided here: the call is read, the thread
//! is changed, and the reply is made. Where a call needs the model, an action or
//! the store, one function reads the call and another makes the reply of what came
//! back.

use vstd::prelude::*;

use crate::executor::calls::object;
use crate::executor::host_actions::{empty_object, new_object};
use crate::executor::interchange::{
    action_calls_to_python_json, json_to_thread_messages, message_of, messages_of,
    normalize_pause_outcome, or_empty, outcome_of, parse_outcome, python_calls, sync_runtime_state, sync_visible_outcome,
    with_runtime_state, with_visible_outcome,
};
use crate::executor::llm::{LlmRequest, LlmRequestView, LlmResponse, ResponseView, TokenUsage};
use crate::executor::value::{
    extract_string_kwarg, extract_u64_kwarg, kwarg_text, kwarg_u64, monty_to_json, monty_to_string,
    py_json, py_text, string_at, text_at, ExcKind, HostReply, PyKey, PyValue, ReplyView,
};
use crate::gate::opt_json;
use crate::json::{
    fields, json_str, lemma_array_view, one_field, set_field_is_found, values, Json, JsonView,
};
use crate::text::{
    has_substring, joined, middle_is_found, opt_text, pieces_make_the_text, split_char, split_on,
    str_eq, texts, trim, trimmed,
};
use crate::types::capability::{ActionDef, ActionDefView};
use crate::types::doc::{doc_type_text, doc_views, DocType, DocView, MemoryDoc};
use crate::types::error::{error_text, EngineError, ErrorView};
use crate::types::event::{EventKind, EventView, ThreadEventView, ThreadOutcome};
use crate::types::ids::{uuid_parsed, uuid_text, DocId, StepId};
use crate::types::message::{
    clone_messages, message_views, role_text, CallView, MessageRole, MessageView, ThreadMessage,
};
use crate::types::thread::{
    may_follow, state_text, ConfigView, Thread, ThreadConfig, ThreadState, ThreadView,
};

verus! {

/// The functions that the host offers to the orchestrator.
#[derive(Debug, Clone, Copy, PartialEq, Eq, Structural)]
pub enum HostFunction {
    Final,
    LlmComplete,
    ExecuteCodeStep,
    ExecuteAction,
    ExecuteActionsParallel,
    CheckSignals,
    EmitEvent,
    SaveCheckpoint,
    TransitionTo,
    RetrieveDocs,
    CheckBudget,
    GetActions,
    ListSkills,
    RecordSkillUsage,
    RegexMatch,
    SetActiveSkills,
}

/// The function that a name stands for.
pub open spec fn function_of(name: Seq<char>) -> Option<HostFunction> {
    if name == "FINAL"@ {
        Some(HostFunction::Final)
    } else if name == "__llm_complete__"@ {
        Some(HostFunction::LlmComplete)
    } else if name == "__execute_code_step__"@ {
        Some(HostFunction::ExecuteCodeStep)
    } else if name == "__execute_action__"@ {
        Some(HostFunction::ExecuteAction)
    } else if name == "__execute_actions_parallel__"@ {
        Some(HostFunction::ExecuteActionsParallel)
    } else if name == "__check_signals__"@ {
        Some(HostFunction::CheckSignals)
    } else if name == "__emit_event__"@ {
        Some(HostFunction::EmitEvent)
    } else if name == "__save_checkpoint__"@ {
        Some(HostFunction::SaveCheckpoint)
    } else if name == "__transition_to__"@ {
        Some(HostFunction::TransitionTo)
    } else if name == "__retrieve_docs__"@ {
        Some(HostFunction::RetrieveDocs)
    } else if name == "__check_budget__"@ {
        Some(HostFunction::CheckBudget)
    } else if name == "__get_actions__"@ {
        Some(HostFunction::GetActions)
    } else if name == "__list_skills__"@ {
        Some(HostFunction::ListSkills)
    } else if name == "__record_skill_usage__"@ {
        Some(HostFunction::RecordSkillUsage)
    } else if name == "__regex_match__"@ {
        Some(HostFunction::RegexMatch)
    } else if name == "__set_active_skills__"@ {
        Some(HostFunction::SetActiveSkills)
    } else {
        None
    }
}

/// Finds the function that a name stands for.
pub fn dispatch(name: &str) -> (r: Option<HostFunction>)
    ensures
        r == function_of(name@),
{
    if str_eq(name, "FINAL") {
        Some(HostFunction::Final)
    } else if str_eq(name, "__llm_complete__") {
        Some(HostFunction::LlmComplete)
    } else if str_eq(name, "__execute_code_step__") {
        Some(HostFunction::ExecuteCodeStep)
    } else if str_eq(name, "__execute_action__") {
        Some(HostFunction::ExecuteAction)
    } else if str_eq(name, "__execute_actions_parallel__") {
        Some(HostFunction::ExecuteActionsParallel)
    } else if str_eq(name, "__check_signals__") {
        Some(HostFunction::CheckSignals)
    } else if str_eq(name, "__emit_event__") {
        Some(HostFunction::EmitEvent)
    } else if str_eq(name, "__save_checkpoint__") {
        Some(HostFunction::SaveCheckpoint)
    } else if str_eq(name, "__transition_to__") {
        Some(HostFunction::TransitionTo)
    } else if str_eq(name, "__retrieve_docs__") {
        Some(HostFunction::RetrieveDocs)
    } else if str_eq(name, "__check_budget__") {
        Some(HostFunction::CheckBudget)
    } else if str_eq(name, "__get_actions__") {
        Some(HostFunction::GetActions)
    } else if str_eq(name, "__list_skills__") {
        Some(HostFunction::ListSkills)
    } else if str_eq(name, "__record_skill_usage__") {
        Some(HostFunction::RecordSkillUsage)
    } else if str_eq(name, "__regex_match__") {
        Some(HostFunction::RegexMatch)
    } else if str_eq(name, "__set_active_skills__") {
        Some(HostFunction::SetActiveSkills)
    } else {
        None
    }
}

/// The result of a run of the orchestrator.
#[derive(Debug, PartialEq, Eq)]
pub struct OrchestratorResult {
    /// How the thread ended.
    pub outcome: ThreadOutcome,
    /// The tokens that the calls of the model used.
    pub tokens_used: TokenUsage,
}

/// Where the interpreter failed.
#[derive(Debug, PartialEq, Eq)]
pub enum VmFailure {
    /// The code does not parse; the text says why.
    Parse(String),
    /// It panicked while it parsed.
    ParsePanic,
    /// The code failed before its first stop; the text says why.
    Start(String),
    /// It panicked before the first stop.
    StartPanic,
    /// The code failed after a reply; the text says why.
    Resume(String),
    /// It panicked after a reply.
    ResumePanic,
    /// A name is not defined; the second text says why.
    Name(String, String),
    /// It panicked on a name.
    NamePanic(String),
    /// The code asked for the operating system.
    OsCall,
    /// The code waited for a future.
    Futures,
}

/// How a failure of the interpreter is told.
pub open spec fn vm_failure_text(f: VmFailure) -> Seq<char> {
    match f {
        VmFailure::Parse(e) => "Orchestrator parse error: "@ + e@,
        VmFailure::ParsePanic => "Monty VM panicked during orchestrator parsing"@,
        VmFailure::Start(e) => "Orchestrator runtime error: "@ + e@,
        VmFailure::StartPanic => "Monty VM panicked during orchestrator start"@,
        VmFailure::Resume(e) => "Orchestrator error after resume: "@ + e@,
        VmFailure::ResumePanic => "Monty VM panicked during orchestrator resume"@,
        VmFailure::Name(n, e) => "Orchestrator NameError '"@ + n@ + "': "@ + e@,
        VmFailure::NamePanic(n) => "Monty panic on NameLookup '"@ + n@ + "'"@,
        VmFailure::OsCall => "Orchestrator attempted OS call (blocked)"@,
        VmFailure::Futures => "Orchestrator attempted async (not supported)"@,
    }
}

fn joined2(a: &str, b: &str) -> (r: String)
    ensures
        r@ == a@ + b@,
{
    let mut s = a.to_owned();
    s.append(b);
    s
}

/// The error that a failure of the interpreter ends the run with.
pub fn orchestrator_error(f: VmFailure) -> (r: EngineError)
    ensures
        r@ == ErrorView::Effect(vm_failure_text(f)),
{
    let reason = match f {
        VmFailure::Parse(e) => joined2("Orchestrator parse error: ", e.as_str()),
        VmFailure::ParsePanic => "Monty VM panicked during orchestrator parsing".to_owned(),
        VmFailure::Start(e) => joined2("Orchestrator runtime error: ", e.as_str()),
        VmFailure::StartPanic => "Monty VM panicked during orchestrator start".to_owned(),
        VmFailure::Resume(e) => joined2("Orchestrator error after resume: ", e.as_str()),
        VmFailure::ResumePanic => "Monty VM panicked during orchestrator resume".to_owned(),
        VmFailure::Name(n, e) => {
            let mut s = joined2("Orchestrator NameError '", n.as_str());
            s.append("': ");
            s.append(e.as_str());
            s
        },
        VmFailure::NamePanic(n) => {
            let mut s = joined2("Monty panic on NameLookup '", n.as_str());
            s.append("'");
            s
        },
        VmFailure::OsCall => "Orchestrator attempted OS call (blocked)".to_owned(),
        VmFailure::Futures => "Orchestrator attempted async (not supported)".to_owned(),
    };
    EngineError::Effect { reason }
}

/// The result that the orchestrator gives with `FINAL`: its first argument.
pub fn final_value(args: &Vec<PyValue>) -> (r: Json)
    ensures
        r@ == if args@.len() > 0 {
            py_json(args@[0])
        } else {
            JsonView::Null
        },
{
    if args.len() > 0 {
        monty_to_json(&args[0])
    } else {
        Json::Null
    }
}

/// The thread after the run of the orchestrator ended with a result, before a pause
/// makes it wait.
pub open spec fn after_run(t: ThreadView, result: JsonView, now: i128) -> ThreadView {
    with_visible_outcome(
        with_runtime_state(t, result.get("state"@), now),
        outcome_of(result),
        now,
    )
}

/// Ends a run of the orchestrator. The result is the one that it gave with `FINAL`,
/// where it did, and else the value that its code returned. The thread takes over
/// its transcript and shows its response; a thread that a gate paused waits.
pub fn complete_run(
    thread: &mut Thread,
    given: Option<Json>,
    returned: Json,
    tokens_used: TokenUsage,
    now: i128,
) -> (r: Result<OrchestratorResult, EngineError>)
    ensures
        ({
            let result = match given {
                Some(j) => j@,
                None => returned@,
            };
            let t = after_run(old(thread)@, result, now);
            let o = outcome_of(result);
            let waits = o is GatePaused && t.state != ThreadState::Waiting;
            match r {
                Ok(done) => {
                    &&& done.outcome@ == o
                    &&& done.tokens_used == tokens_used
                    &&& waits ==> may_follow(t.state, ThreadState::Waiting)
                    &&& final(thread)@ == if waits {
                        t.in_state(
                            ThreadState::Waiting,
                            Some("waiting on external gate resolution"@),
                            now,
                        )
                    } else {
                        t
                    }
                },
                Err(e) => {
                    &&& waits
                    &&& !may_follow(t.state, ThreadState::Waiting)
                    &&& final(thread)@ == t
                    &&& e@ == ErrorView::InvalidTransition(
                        state_text(t.state),
                        state_text(ThreadState::Waiting),
                    )
                },
            }
        }),
{
    let result = match given {
        Some(j) => j,
        None => returned,
    };
    sync_runtime_state(thread, result.get("state"), now);
    let outcome = parse_outcome(&result);
    sync_visible_outcome(thread, &outcome, now);
    match normalize_pause_outcome(thread, &outcome, now) {
        Ok(_) => Ok(OrchestratorResult { outcome, tokens_used }),
        Err(e) => Err(e),
    }
}

/// The JSON of an argument, where it is given and not null.
pub open spec fn given_arg(args: Seq<PyValue>, i: int) -> Option<JsonView> {
    if i < args.len() && py_json(args[i]) != JsonView::Null {
        Some(py_json(args[i]))
    } else {
        None
    }
}

fn take_given(args: &Vec<PyValue>, i: usize) -> (r: Option<Json>)
    ensures
        match r {
            Some(j) => given_arg(args@, i as int) == Some(j@),
            None => given_arg(args@, i as int) is None,
        },
{
    if i < args.len() {
        let j = monty_to_json(&args[i]);
        match j {
            Json::Null => None,
            other => Some(other),
        }
    } else {
        None
    }
}

/// Whether a JSON value is a number.
pub open spec fn is_number(j: JsonView) -> bool {
    j is Uint || j is Int || j is Float
}

/// What the model is asked: the messages of the call, where it gives a transcript,
/// and else those of the thread; with the limits that it gives.
pub open spec fn llm_request_of(args: Seq<PyValue>, t: ThreadView) -> LlmRequestView {
    let config = given_arg(args, 2);
    LlmRequestView {
        messages: match given_arg(args, 0) {
            Some(JsonView::Array(a)) => messages_of(a),
            _ => t.messages,
        },
        max_tokens: match config {
            Some(c) => match c.u64_field("max_tokens"@) {
                Some(n) if n <= u32::MAX => Some(n as u32),
                _ => None,
            },
            None => None,
        },
        temperature: match config {
            Some(c) => match c.get("temperature"@) {
                Some(x) if is_number(x) => Some(x),
                _ => None,
            },
            None => None,
        },
        force_text: match config {
            Some(c) => c.bool_field("force_text"@) == Some(true),
            None => false,
        },
        depth: t.config.depth,
    }
}

/// Reads a call of the model.
pub fn parse_llm_complete(args: &Vec<PyValue>, thread: &Thread) -> (r: LlmRequest)
    ensures
        r@ == llm_request_of(args@, thread@),
{
    let explicit = match take_given(args, 0) {
        Some(j) => json_to_thread_messages(&j),
        None => None,
    };
    let messages = match explicit {
        Some(m) => m,
        None => clone_messages(&thread.messages),
    };
    let mut max_tokens: Option<u32> = None;
    let mut temperature: Option<Json> = None;
    let mut force_text = false;
    if let Some(c) = take_given(args, 2) {
        if let Some(n) = c.u64_field("max_tokens") {
            if n <= u32::MAX as u64 {
                max_tokens = Some(n as u32);
            }
        }
        if let Some(x) = c.get("temperature") {
            match x {
                Json::Uint(_) | Json::Int(_) | Json::Float(_) => {
                    temperature = Some(x.clone());
                },
                _ => {},
            }
        }
        if let Some(b) = c.bool_field("force_text") {
            force_text = b;
        }
    }
    LlmRequest { messages, max_tokens, temperature, force_text, depth: thread.config.depth }
}

/// The usage of a call of the model, as the orchestrator is told.
pub open spec fn usage_json(u: TokenUsage, cost: JsonView) -> JsonView {
    JsonView::Object(
        seq![
            ("cost_usd"@, cost),
            ("input_tokens"@, JsonView::Uint(u.input_tokens)),
            ("output_tokens"@, JsonView::Uint(u.output_tokens)),
        ],
    )
}

/// An answer of the model, as the orchestrator is told.
pub open spec fn llm_reply_json(r: ResponseView, u: TokenUsage, cost: JsonView) -> JsonView {
    match r {
        ResponseView::Text(t) => JsonView::Object(
            seq![
                ("content"@, JsonView::Str(t)),
                ("type"@, JsonView::Str("text"@)),
                ("usage"@, usage_json(u, cost)),
            ],
        ),
        ResponseView::Code(c, _) => JsonView::Object(
            seq![
                ("code"@, JsonView::Str(c)),
                ("type"@, JsonView::Str("code"@)),
                ("usage"@, usage_json(u, cost)),
            ],
        ),
        ResponseView::ActionCalls(calls, content) => JsonView::Object(
            seq![
                ("calls"@, JsonView::Array(python_calls(calls))),
                ("content"@, opt_json(content)),
                ("type"@, JsonView::Str("actions"@)),
                ("usage"@, usage_json(u, cost)),
            ],
        ),
    }
}

/// Replies to a call of the model with its answer, and counts the tokens.
pub fn handle_llm_complete(
    response: &LlmResponse,
    usage: TokenUsage,
    cost_usd: Json,
    total: &mut TokenUsage,
) -> (r: HostReply)
    requires
        old(total).fits(usage),
    ensures
        *final(total) == old(total).plus(usage),
        r@ == ReplyView::Return(llm_reply_json(response@, usage, cost_usd@)),
{
    total.count(usage);
    let ghost cost = cost_usd@;
    let mut u: Vec<(String, Json)> = Vec::new();
    u.push(("cost_usd".to_owned(), cost_usd));
    u.push(("input_tokens".to_owned(), Json::Uint(usage.input_tokens)));
    u.push(("output_tokens".to_owned(), Json::Uint(usage.output_tokens)));
    assert(fields(u@) =~= usage_json(usage, cost)->Object_0);
    let usage_value = object(u);
    let mut v: Vec<(String, Json)> = Vec::new();
    match response {
        LlmResponse::Text(t) => {
            v.push(("content".to_owned(), json_str(t.as_str())));
            v.push(("type".to_owned(), json_str("text")));
        },
        LlmResponse::Code { code, content: _ } => {
            v.push(("code".to_owned(), json_str(code.as_str())));
            v.push(("type".to_owned(), json_str("code")));
        },
        LlmResponse::ActionCalls { calls, content } => {
            let list = action_calls_to_python_json(calls);
            proof {
                lemma_array_view(list);
            }
            let text = match content {
                Some(t) => json_str(t.as_str()),
                None => Json::Null,
            };
            v.push(("calls".to_owned(), Json::Array(list)));
            v.push(("content".to_owned(), text));
            v.push(("type".to_owned(), json_str("actions")));
        },
    }
    v.push(("usage".to_owned(), usage_value));
    assert(fields(v@) =~= llm_reply_json(response@, usage, cost)->Object_0);
    HostReply::Return(object(v))
}

/// Replies to a call of the model that failed.
pub fn llm_failed(error: &str) -> (r: HostReply)
    ensures
        r@ == (ReplyView::Raise {
            kind: ExcKind::RuntimeError,
            message: "LLM call failed: "@ + error@,
        }),
{
    HostReply::Raise {
        kind: ExcKind::RuntimeError,
        message: joined2("LLM call failed: ", error),
    }
}

/// A signal to a running thread.
#[derive(Debug, PartialEq, Eq)]
pub enum ThreadSignal {
    Stop,
    Suspend,
    InjectMessage(ThreadMessage),
    Resume,
    ChildCompleted,
}

/// Replies to the question for signals. A signal to stop or to suspend is told as
/// `stop`; a message is added to the thread and told; every other signal, and none,
/// is told as nothing.
pub fn handle_check_signals(signal: Option<ThreadSignal>, thread: &mut Thread, now: i128) -> (r:
    HostReply)
    ensures
        match signal {
            Some(ThreadSignal::Stop) | Some(ThreadSignal::Suspend) => {
                &&& r@ == ReplyView::Return(JsonView::Str("stop"@))
                &&& final(thread)@ == old(thread)@
            },
            Some(ThreadSignal::InjectMessage(m)) => {
                &&& r@ == ReplyView::Return(
                    JsonView::Object(seq![("inject"@, JsonView::Str(m@.content))]),
                )
                &&& final(thread)@ == old(thread)@.with_message(m@, now)
            },
            _ => {
                &&& r@ == ReplyView::Return(JsonView::Null)
                &&& final(thread)@ == old(thread)@
            },
        },
{
    match signal {
        Some(ThreadSignal::Stop) | Some(ThreadSignal::Suspend) => HostReply::Return(
            json_str("stop"),
        ),
        Some(ThreadSignal::InjectMessage(m)) => {
            let told = one_field("inject", json_str(m.content.as_str()));
            thread.add_message(m, now);
            HostReply::Return(told)
        },
        _ => HostReply::Return(Json::Null),
    }
}

/// The pieces of a text between commas, trimmed, without the empty ones.
pub open spec fn name_list(pieces: Seq<Seq<char>>) -> Seq<Seq<char>>
    decreases pieces.len(),
{
    if pieces.len() == 0 {
        Seq::empty()
    } else {
        let rest = name_list(pieces.drop_last());
        if trimmed(pieces.last()).len() == 0 {
            rest
        } else {
            rest.push(trimmed(pieces.last()))
        }
    }
}

fn split_names(s: &str) -> (r: Vec<String>)
    ensures
        texts(r@) == name_list(split_on(s@, ',')),
{
    let pieces = split_char(s, ',');
    let ghost all = texts(pieces@);
    let mut out: Vec<String> = Vec::new();
    let mut i: usize = 0;
    assert(all.take(0) =~= Seq::<Seq<char>>::empty());
    assert(texts(out@) =~= Seq::<Seq<char>>::empty());
    while i < pieces.len()
        invariant
            i <= pieces@.len(),
            all == texts(pieces@),
            texts(out@) == name_list(all.take(i as int)),
        decreases pieces@.len() - i,
    {
        assert(all.take(i + 1).drop_last() =~= all.take(i as int));
        assert(all.take(i + 1).last() == pieces@[i as int]@);
        let ghost before = out@;
        let name = trim(pieces[i].as_str());
        if !name.is_empty() {
            out.push(name.to_owned());
            assert(texts(out@) =~= texts(before).push(name@));
        }
        i = i + 1;
    }
    assert(all.take(all.len() as int) =~= all);
    out
}

/// An unsigned number, zero where there is none.
pub open spec fn or_zero(o: Option<u64>) -> u64 {
    match o {
        Some(n) => n,
        None => 0,
    }
}

/// The event that the orchestrator reports; `None` of a kind that is not known.
pub open spec fn emitted_event(
    kind: Seq<char>,
    kwargs: Seq<(PyKey, PyValue)>,
    step: StepId,
) -> Option<EventView> {
    if kind == "step_started"@ {
        Some(EventView::StepStarted { step_id: step })
    } else if kind == "step_completed"@ {
        Some(
            EventView::StepCompleted {
                step_id: step,
                input_tokens: or_zero(kwarg_u64(kwargs, "input_tokens"@)),
                output_tokens: or_zero(kwarg_u64(kwargs, "output_tokens"@)),
            },
        )
    } else if kind == "action_executed"@ {
        Some(
            EventView::ActionExecuted {
                step_id: step,
                action_name: or_empty(kwarg_text(kwargs, "action_name"@)),
                call_id: or_empty(kwarg_text(kwargs, "call_id"@)),
                duration_ms: 0,
                params_summary: None,
            },
        )
    } else if kind == "action_failed"@ {
        Some(
            EventView::ActionFailed {
                step_id: step,
                action_name: or_empty(kwarg_text(kwargs, "action_name"@)),
                call_id: or_empty(kwarg_text(kwargs, "call_id"@)),
                error: or_empty(kwarg_text(kwargs, "error"@)),
                params_summary: None,
            },
        )
    } else if kind == "skill_activated"@ {
        Some(
            EventView::SkillActivated {
                skill_names: name_list(split_on(or_empty(kwarg_text(kwargs, "skill_names"@)), ',')),
            },
        )
    } else {
        None
    }
}

/// Whether the counters of a thread have room for the step that is reported.
pub open spec fn counters_fit(
    kind: Seq<char>,
    kwargs: Seq<(PyKey, PyValue)>,
    t: ThreadView,
) -> bool {
    kind == "step_completed"@ ==> {
        &&& t.step_count < u64::MAX
        &&& t.total_tokens_used + or_zero(kwarg_u64(kwargs, "input_tokens"@)) + or_zero(
            kwarg_u64(kwargs, "output_tokens"@),
        ) <= u64::MAX
    }
}

/// The thread after the event that the orchestrator reports. A completed step is
/// counted, with its tokens.
pub open spec fn after_emit(
    kind: Seq<char>,
    kwargs: Seq<(PyKey, PyValue)>,
    t: ThreadView,
    step: StepId,
    now: i128,
) -> ThreadView {
    let counted = if kind == "step_completed"@ {
        ThreadView {
            step_count: (t.step_count + 1) as u64,
            total_tokens_used: (t.total_tokens_used + or_zero(kwarg_u64(kwargs, "input_tokens"@))
                + or_zero(kwarg_u64(kwargs, "output_tokens"@))) as u64,
            ..t
        }
    } else {
        t
    };
    match emitted_event(kind, kwargs, step) {
        Some(e) => counted.with_event(e, now),
        None => counted,
    }
}

fn text_kwarg(kwargs: &Vec<(PyKey, PyValue)>, name: &str) -> (r: String)
    ensures
        r@ == or_empty(kwarg_text(kwargs@, name@)),
{
    match extract_string_kwarg(kwargs, name) {
        Some(s) => s,
        None => String::new(),
    }
}

fn number_kwarg(kwargs: &Vec<(PyKey, PyValue)>, name: &str) -> (r: u64)
    ensures
        r == or_zero(kwarg_u64(kwargs@, name@)),
{
    match extract_u64_kwarg(kwargs, name) {
        Some(n) => n,
        None => 0,
    }
}

/// Puts an event that the orchestrator reports on record. An event of a kind that
/// is not known is passed over.
pub fn handle_emit_event(
    args: &Vec<PyValue>,
    kwargs: &Vec<(PyKey, PyValue)>,
    thread: &mut Thread,
    step: StepId,
    now: i128,
) -> (r: HostReply)
    requires
        counters_fit(text_at(args@, 0), kwargs@, old(thread)@),
    ensures
        r@ == ReplyView::Return(JsonView::Null),
        final(thread)@ == after_emit(text_at(args@, 0), kwargs@, old(thread)@, step, now),
{
    proof {
        reveal_strlit("step_started");
        reveal_strlit("step_completed");
        assert("step_started"@.len() != "step_completed"@.len());
    }
    let kind_text = string_at(args, 0);
    let k = kind_text.as_str();
    let kind = if str_eq(k, "step_started") {
        EventKind::StepStarted { step_id: step }
    } else if str_eq(k, "step_completed") {
        let input = number_kwarg(kwargs, "input_tokens");
        let output = number_kwarg(kwargs, "output_tokens");
        thread.step_count = thread.step_count + 1;
        thread.total_tokens_used = thread.total_tokens_used + (input + output);
        EventKind::StepCompleted { step_id: step, input_tokens: input, output_tokens: output }
    } else if str_eq(k, "action_executed") {
        EventKind::ActionExecuted {
            step_id: step,
            action_name: text_kwarg(kwargs, "action_name"),
            call_id: text_kwarg(kwargs, "call_id"),
            duration_ms: 0,
            params_summary: None,
        }
    } else if str_eq(k, "action_failed") {
        EventKind::ActionFailed {
            step_id: step,
            action_name: text_kwarg(kwargs, "action_name"),
            call_id: text_kwarg(kwargs, "call_id"),
            error: text_kwarg(kwargs, "error"),
            params_summary: None,
        }
    } else if str_eq(k, "skill_activated") {
        let names = text_kwarg(kwargs, "skill_names");
        EventKind::SkillActivated { skill_names: split_names(names.as_str()) }
    } else {
        return HostReply::Return(Json::Null);
    };
    thread.add_event(kind, now);
    HostReply::Return(Json::Null)
}

/// The JSON of an argument, an object without fields where it is not given.
pub open spec fn object_arg(args: Seq<PyValue>, i: int) -> JsonView {
    if i < args.len() {
        py_json(args[i])
    } else {
        empty_object()
    }
}

fn object_at(args: &Vec<PyValue>, i: usize) -> (r: Json)
    ensures
        r@ == object_arg(args@, i as int),
{
    if i < args.len() {
        monty_to_json(&args[i])
    } else {
        new_object()
    }
}

/// What a checkpoint keeps: the state of the orchestrator and its counters.
pub open spec fn checkpoint_json(state: JsonView, counters: JsonView) -> JsonView {
    JsonView::Object(
        seq![
            (
                "compaction_count"@,
                JsonView::Uint(or_zero(counters.u64_field("compaction_count"@))),
            ),
            (
                "consecutive_errors"@,
                JsonView::Uint(or_zero(counters.u64_field("consecutive_errors"@))),
            ),
            ("nudge_count"@, JsonView::Uint(or_zero(counters.u64_field("nudge_count"@)))),
            ("persisted_state"@, state),
        ],
    )
}

fn counter(counters: &Json, key: &str) -> (r: Json)
    ensures
        r@ == JsonView::Uint(or_zero(counters@.u64_field(key@))),
{
    match counters.u64_field(key) {
        Some(n) => Json::Uint(n),
        None => Json::Uint(0),
    }
}

/// The thread after a checkpoint: it takes the transcript over, and its metadata
/// keep the state.
pub open spec fn after_checkpoint(
    t: ThreadView,
    state: JsonView,
    counters: JsonView,
    now: i128,
) -> ThreadView {
    let synced = with_runtime_state(t, Some(state), now);
    ThreadView {
        metadata: synced.metadata.set("runtime_checkpoint"@, checkpoint_json(state, counters)),
        updated_at: now,
        ..synced
    }
}

/// Keeps a checkpoint of the orchestrator in the metadata of the thread.
pub fn handle_save_checkpoint(args: &Vec<PyValue>, thread: &mut Thread, now: i128) -> (r:
    HostReply)
    ensures
        r@ == ReplyView::Return(JsonView::Null),
        final(thread)@ == after_checkpoint(
            old(thread)@,
            object_arg(args@, 0),
            object_arg(args@, 1),
            now,
        ),
{
    let state = object_at(args, 0);
    let counters = object_at(args, 1);
    sync_runtime_state(thread, Some(&state), now);
    let mut v: Vec<(String, Json)> = Vec::new();
    v.push(("compaction_count".to_owned(), counter(&counters, "compaction_count")));
    v.push(("consecutive_errors".to_owned(), counter(&counters, "consecutive_errors")));
    v.push(("nudge_count".to_owned(), counter(&counters, "nudge_count")));
    let ghost sv = state@;
    v.push(("persisted_state".to_owned(), state));
    assert(fields(v@) =~= checkpoint_json(sv, counters@)->Object_0);
    thread.metadata.set("runtime_checkpoint", object(v));
    thread.updated_at = now;
    HostReply::Return(Json::Null)
}

/// The state that a name stands for.
pub open spec fn state_of(name: Seq<char>) -> Option<ThreadState> {
    if name == "running"@ {
        Some(ThreadState::Running)
    } else if name == "completed"@ {
        Some(ThreadState::Completed)
    } else if name == "failed"@ {
        Some(ThreadState::Failed)
    } else if name == "waiting"@ {
        Some(ThreadState::Waiting)
    } else if name == "suspended"@ {
        Some(ThreadState::Suspended)
    } else {
        None
    }
}

/// Takes the thread to a state that the orchestrator asks for.
pub fn handle_transition_to(args: &Vec<PyValue>, thread: &mut Thread, now: i128) -> (r: HostReply)
    ensures
        ({
            let name = text_at(args@, 0);
            let t = old(thread)@;
            let reason = if args@.len() > 1 {
                Some(py_text(args@[1]))
            } else {
                None
            };
            match state_of(name) {
                None => {
                    &&& final(thread)@ == t
                    &&& r@ == (ReplyView::Raise {
                        kind: ExcKind::ValueError,
                        message: "Unknown thread state: "@ + name,
                    })
                },
                Some(to) => if may_follow(t.state, to) {
                    &&& final(thread)@ == t.in_state(to, reason, now)
                    &&& r@ == ReplyView::Return(JsonView::Null)
                } else {
                    &&& final(thread)@ == t
                    &&& r@ == (ReplyView::Raise {
                        kind: ExcKind::RuntimeError,
                        message: "State transition failed: "@ + error_text(
                            ErrorView::InvalidTransition(state_text(t.state), state_text(to)),
                        ),
                    })
                },
            }
        }),
{
    let name = string_at(args, 0);
    let n = name.as_str();
    let reason = if args.len() > 1 {
        Some(monty_to_string(&args[1]))
    } else {
        None
    };
    let to = if str_eq(n, "running") {
        ThreadState::Running
    } else if str_eq(n, "completed") {
        ThreadState::Completed
    } else if str_eq(n, "failed") {
        ThreadState::Failed
    } else if str_eq(n, "waiting") {
        ThreadState::Waiting
    } else if str_eq(n, "suspended") {
        ThreadState::Suspended
    } else {
        return HostReply::Raise {
            kind: ExcKind::ValueError,
            message: joined2("Unknown thread state: ", n),
        };
    };
    match thread.transition_to(to, reason, now) {
        Ok(_) => HostReply::Return(Json::Null),
        Err(e) => HostReply::Raise {
            kind: ExcKind::RuntimeError,
            message: joined2("State transition failed: ", e.message().as_str()),
        },
    }
}

/// Reads a query for documents: the goal, and how many are wanted at most. A number
/// that is not given as an integer is five; a negative one wraps, as a cast does.
pub fn parse_retrieve_docs(args: &Vec<PyValue>) -> (r: (String, usize))
    ensures
        r.0@ == text_at(args@, 0),
        r.1 == if args@.len() > 1 && args@[1] is Int {
            args@[1]->Int_0 as usize
        } else {
            5
        },
{
    let goal = string_at(args, 0);
    let mut max_docs: usize = 5;
    if args.len() > 1 {
        if let PyValue::Int(i) = &args[1] {
            max_docs = *i as usize;
        }
    }
    (goal, max_docs)
}

/// A document, as the orchestrator is told.
pub open spec fn retrieved_json(d: DocView) -> JsonView {
    JsonView::Object(
        seq![
            ("content"@, JsonView::Str(d.content)),
            ("title"@, JsonView::Str(d.title)),
            ("type"@, JsonView::Str(doc_type_text(d.doc_type))),
        ],
    )
}

/// Replies to a query for documents.
pub fn handle_retrieve_docs(docs: &Vec<MemoryDoc>) -> (r: HostReply)
    ensures
        r@ == ReplyView::Return(
            JsonView::Array(doc_views(docs@).map_values(|d: DocView| retrieved_json(d))),
        ),
{
    let ghost all = doc_views(docs@).map_values(|d: DocView| retrieved_json(d));
    let mut out: Vec<Json> = Vec::new();
    let mut i: usize = 0;
    assert(values(out@) =~= all.take(0));
    while i < docs.len()
        invariant
            i <= docs@.len(),
            all == doc_views(docs@).map_values(|d: DocView| retrieved_json(d)),
            values(out@) == all.take(i as int),
        decreases docs@.len() - i,
    {
        let d = &docs[i];
        let mut v: Vec<(String, Json)> = Vec::new();
        v.push(("content".to_owned(), json_str(d.content.as_str())));
        v.push(("title".to_owned(), json_str(d.title.as_str())));
        v.push(("type".to_owned(), json_str(d.doc_type.name())));
        assert(fields(v@) =~= retrieved_json(d@)->Object_0);
        let ghost before = out@;
        out.push(object(v));
        assert(values(out@) =~= values(before).push(all[i as int]));
        assert(all.take(i + 1) =~= all.take(i as int).push(all[i as int]));
        i = i + 1;
    }
    proof {
        assert(all.take(all.len() as int) =~= all);
        lemma_array_view(out);
    }
    HostReply::Return(Json::Array(out))
}

/// The tokens that a thread has left, without a limit all there can be.
pub open spec fn tokens_left(t: ThreadView) -> u64 {
    match t.config.max_tokens_total {
        Some(max) => if max > t.total_tokens_used {
            (max - t.total_tokens_used) as u64
        } else {
            0
        },
        None => u64::MAX,
    }
}

/// The milliseconds that a thread has left, without a limit all there can be.
pub open spec fn time_left(t: ThreadView, now: i128) -> u64 {
    match t.config.max_duration_ms {
        Some(max) => {
            let elapsed = if now > t.created_at {
                (now - t.created_at) / 1_000_000
            } else {
                0
            };
            if elapsed < max {
                (max - elapsed) as u64
            } else {
                0
            }
        },
        None => u64::MAX,
    }
}

/// Replies with what a thread has left. What is left of its money is given, as a
/// JSON number or null.
pub fn handle_check_budget(thread: &Thread, usd_remaining: Json, now: i128) -> (r: HostReply)
    requires
        now - thread.created_at <= i128::MAX,
    ensures
        r@ == ReplyView::Return(
            JsonView::Object(
                seq![
                    ("time_remaining_ms"@, JsonView::Uint(time_left(thread@, now))),
                    ("tokens_remaining"@, JsonView::Uint(tokens_left(thread@))),
                    ("usd_remaining"@, usd_remaining@),
                ],
            ),
        ),
{
    let tokens: u64 = match thread.config.max_tokens_total {
        Some(max) => if max > thread.total_tokens_used {
            max - thread.total_tokens_used
        } else {
            0
        },
        None => u64::MAX,
    };
    let time: u64 = match thread.config.max_duration_ms {
        Some(max) => {
            let elapsed: i128 = if now > thread.created_at {
                (now - thread.created_at) / 1_000_000
            } else {
                0
            };
            if elapsed < max as i128 {
                (max as i128 - elapsed) as u64
            } else {
                0
            }
        },
        None => u64::MAX,
    };
    let ghost usd = usd_remaining@;
    let mut v: Vec<(String, Json)> = Vec::new();
    v.push(("time_remaining_ms".to_owned(), Json::Uint(time)));
    v.push(("tokens_remaining".to_owned(), Json::Uint(tokens)));
    v.push(("usd_remaining".to_owned(), usd_remaining));
    assert(fields(v@) =~= seq![
        ("time_remaining_ms"@, JsonView::Uint(time_left(thread@, now))),
        ("tokens_remaining"@, JsonView::Uint(tokens_left(thread@))),
        ("usd_remaining"@, usd),
    ]);
    HostReply::Return(object(v))
}

/// An action, as the orchestrator is told.
pub open spec fn action_json(a: ActionDefView) -> JsonView {
    JsonView::Object(
        seq![
            ("description"@, JsonView::Str(a.description)),
            ("name"@, JsonView::Str(a.name)),
            ("params"@, a.parameters_schema),
        ],
    )
}

/// What a list of actions holds.
pub open spec fn action_views(v: Seq<ActionDef>) -> Seq<ActionDefView> {
    v.map_values(|a: ActionDef| a@)
}

/// Replies with the actions that the thread may call.
pub fn handle_get_actions(actions: &Vec<ActionDef>) -> (r: HostReply)
    ensures
        r@ == ReplyView::Return(
            JsonView::Array(action_views(actions@).map_values(|a: ActionDefView| action_json(a))),
        ),
{
    let ghost all = action_views(actions@).map_values(|a: ActionDefView| action_json(a));
    let mut out: Vec<Json> = Vec::new();
    let mut i: usize = 0;
    assert(values(out@) =~= all.take(0));
    while i < actions.len()
        invariant
            i <= actions@.len(),
            all == action_views(actions@).map_values(|a: ActionDefView| action_json(a)),
            values(out@) == all.take(i as int),
        decreases actions@.len() - i,
    {
        let a = &actions[i];
        let mut v: Vec<(String, Json)> = Vec::new();
        v.push(("description".to_owned(), json_str(a.description.as_str())));
        v.push(("name".to_owned(), json_str(a.name.as_str())));
        v.push(("params".to_owned(), a.parameters_schema.clone()));
        assert(fields(v@) =~= action_json(a@)->Object_0);
        let ghost before = out@;
        out.push(object(v));
        assert(values(out@) =~= values(before).push(all[i as int]));
        assert(all.take(i + 1) =~= all.take(i as int).push(all[i as int]));
        i = i + 1;
    }
    proof {
        assert(all.take(all.len() as int) =~= all);
        lemma_array_view(out);
    }
    HostReply::Return(Json::Array(out))
}

/// A skill, as the orchestrator is told.
pub open spec fn skill_json(d: DocView) -> JsonView {
    JsonView::Object(
        seq![
            ("content"@, JsonView::Str(d.content)),
            ("doc_id"@, JsonView::Str(uuid_text(d.id.0))),
            ("metadata"@, d.metadata),
            ("title"@, JsonView::Str(d.title)),
        ],
    )
}

/// The skills of a list of documents, as the orchestrator is told.
pub open spec fn skill_list(docs: Seq<DocView>) -> Seq<JsonView>
    decreases docs.len(),
{
    if docs.len() == 0 {
        Seq::empty()
    } else if docs.last().doc_type == DocType::Skill {
        skill_list(docs.drop_last()).push(skill_json(docs.last()))
    } else {
        skill_list(docs.drop_last())
    }
}

/// Replies with the skills among the documents.
pub fn handle_list_skills(docs: &Vec<MemoryDoc>) -> (r: HostReply)
    ensures
        r@ == ReplyView::Return(JsonView::Array(skill_list(doc_views(docs@)))),
{
    let ghost all = doc_views(docs@);
    let mut out: Vec<Json> = Vec::new();
    let mut i: usize = 0;
    assert(all.take(0) =~= Seq::<DocView>::empty());
    assert(values(out@) =~= Seq::<JsonView>::empty());
    while i < docs.len()
        invariant
            i <= docs@.len(),
            all == doc_views(docs@),
            values(out@) == skill_list(all.take(i as int)),
        decreases docs@.len() - i,
    {
        assert(all.take(i + 1).drop_last() =~= all.take(i as int));
        assert(all.take(i + 1).last() == docs@[i as int]@);
        let d = &docs[i];
        if d.doc_type == DocType::Skill {
            let mut v: Vec<(String, Json)> = Vec::new();
            v.push(("content".to_owned(), json_str(d.content.as_str())));
            v.push(("doc_id".to_owned(), Json::Str(d.id.text())));
            v.push(("metadata".to_owned(), d.metadata.clone()));
            v.push(("title".to_owned(), json_str(d.title.as_str())));
            assert(fields(v@) =~= skill_json(d@)->Object_0);
            let ghost before = out@;
            out.push(object(v));
            assert(values(out@) =~= values(before).push(skill_json(d@)));
        }
        i = i + 1;
    }
    proof {
        assert(all.take(all.len() as int) =~= all);
        lemma_array_view(out);
    }
    HostReply::Return(Json::Array(out))
}

/// Reads a report on the use of a skill: its document, and whether it helped.
/// `None` where the text is no identity. Only `True` counts as help.
pub fn parse_record_skill_usage(args: &Vec<PyValue>) -> (r: Option<(DocId, bool)>)
    ensures
        r == (match uuid_parsed(text_at(args@, 0)) {
            Some(n) => Some((DocId(n), args@.len() > 1 && args@[1] == PyValue::Bool(true))),
            None => None,
        }),
{
    let id = string_at(args, 0);
    let success = if args.len() > 1 {
        match &args[1] {
            PyValue::Bool(b) => *b,
            _ => false,
        }
    } else {
        false
    };
    match DocId::parse(id.as_str()) {
        Some(d) => Some((d, success)),
        None => None,
    }
}

/// Whether a pattern, compiled by `regex::RegexBuilder` with the limits on the size
/// of the program and of the cache, matches somewhere in a text. `None` where the
/// pattern does not compile. The size of a program is counted in bytes as they lie in
/// memory, so that the word size has a say in which patterns compile.
pub uninterp spec fn regex_matched(
    pattern: Seq<char>,
    text: Seq<char>,
    limit: usize,
    word_bits: u32,
) -> Option<bool>;

/// The limit on the size of a compiled pattern, and of the cache it is matched with.
pub const MAX_REGEX_SIZE: usize = 65536;

/// Compiles a pattern with `regex::RegexBuilder`, under `size_limit` and
/// `dfa_size_limit`, and asks `Regex::is_match` whether it matches in the text. The
/// result is a function of these three and of the word size, which `regex_matched`
/// names.
#[verifier::external_body]
fn match_regex(pattern: &str, text: &str, limit: usize) -> (r: Option<bool>)
    ensures
        r == regex_matched(pattern@, text@, limit, usize::BITS),
{
    let built = regex::RegexBuilder::new(pattern).size_limit(limit).dfa_size_limit(limit).build();
    built.ok().map(|re| re.is_match(text))
}

/// What the orchestrator is told of a match.
pub fn regex_reply(matched: Option<bool>) -> (r: HostReply)
    ensures
        r@ == ReplyView::Return(JsonView::Bool(matched == Some(true))),
{
    match matched {
        Some(b) => HostReply::Return(Json::Bool(b)),
        None => HostReply::Return(Json::Bool(false)),
    }
}

/// Tells whether a pattern matches somewhere in a text. An empty pattern and one
/// that does not compile match nothing.
pub fn handle_regex_match(args: &Vec<PyValue>) -> (r: HostReply)
    ensures
        ({
            let p = text_at(args@, 0);
            let t = text_at(args@, 1);
            r@ == ReplyView::Return(
                JsonView::Bool(
                    p.len() > 0 && regex_matched(p, t, MAX_REGEX_SIZE, usize::BITS) == Some(
                        true,
                    ),
                ),
            )
        }),
{
    let pattern = string_at(args, 0);
    let text = string_at(args, 1);
    if pattern.as_str().is_empty() {
        return HostReply::Return(Json::Bool(false));
    }
    regex_reply(match_regex(pattern.as_str(), text.as_str(), MAX_REGEX_SIZE))
}

/// A message of the transcript that the orchestrator starts with.
pub open spec fn context_message(m: MessageView) -> JsonView {
    JsonView::Object(
        seq![
            ("action_call_id"@, opt_json(m.action_call_id)),
            (
                "action_calls"@,
                match m.action_calls {
                    Some(c) => JsonView::Array(python_calls(c)),
                    None => JsonView::Null,
                },
            ),
            ("action_name"@, opt_json(m.action_name)),
            ("content"@, JsonView::Str(m.content)),
            ("role"@, JsonView::Str(role_text(m.role))),
        ],
    )
}

fn opt_to_json(o: &Option<String>) -> (r: Json)
    ensures
        r@ == opt_json(opt_text(*o)),
{
    match o {
        Some(s) => json_str(s.as_str()),
        None => Json::Null,
    }
}

fn context_object(m: &ThreadMessage) -> (r: Json)
    ensures
        r@ == context_message(m@),
{
    let calls = match &m.action_calls {
        Some(c) => {
            let list = action_calls_to_python_json(c);
            proof {
                lemma_array_view(list);
            }
            Json::Array(list)
        },
        None => Json::Null,
    };
    let mut v: Vec<(String, Json)> = Vec::new();
    v.push(("action_call_id".to_owned(), opt_to_json(&m.action_call_id)));
    v.push(("action_calls".to_owned(), calls));
    v.push(("action_name".to_owned(), opt_to_json(&m.action_name)));
    v.push(("content".to_owned(), json_str(m.content.as_str())));
    v.push(("role".to_owned(), json_str(m.role.name())));
    assert(fields(v@) =~= context_message(m@)->Object_0);
    object(v)
}

fn context_list(messages: &Vec<ThreadMessage>) -> (r: Json)
    ensures
        r@ == JsonView::Array(
            message_views(messages@).map_values(|m: MessageView| context_message(m)),
        ),
{
    let ghost all = message_views(messages@).map_values(|m: MessageView| context_message(m));
    let mut out: Vec<Json> = Vec::new();
    let mut i: usize = 0;
    assert(values(out@) =~= all.take(0));
    while i < messages.len()
        invariant
            i <= messages@.len(),
            all == message_views(messages@).map_values(|m: MessageView| context_message(m)),
            values(out@) == all.take(i as int),
        decreases messages@.len() - i,
    {
        let ghost before = out@;
        out.push(context_object(&messages[i]));
        assert(values(out@) =~= values(before).push(all[i as int]));
        assert(all.take(i + 1) =~= all.take(i as int).push(all[i as int]));
        i = i + 1;
    }
    proof {
        assert(all.take(all.len() as int) =~= all);
        lemma_array_view(out);
    }
    Json::Array(out)
}

/// The limits of a thread, as the orchestrator is told.
pub open spec fn config_json(c: ConfigView, step_count: u64) -> JsonView {
    JsonView::Object(
        seq![
            ("compaction_threshold"@, c.compaction_threshold),
            ("depth"@, JsonView::Uint(c.depth as u64)),
            ("enable_compaction"@, JsonView::Bool(c.enable_compaction)),
            ("enable_tool_intent_nudge"@, JsonView::Bool(c.enable_tool_intent_nudge)),
            ("max_budget_usd"@, c.max_budget_usd),
            ("max_consecutive_errors"@, JsonView::Uint(c.max_consecutive_errors)),
            ("max_depth"@, JsonView::Uint(c.max_depth as u64)),
            ("max_iterations"@, JsonView::Uint(c.max_iterations)),
            (
                "max_tokens_total"@,
                match c.max_tokens_total {
                    Some(n) => JsonView::Uint(n),
                    None => JsonView::Null,
                },
            ),
            ("max_tool_intent_nudges"@, JsonView::Uint(c.max_tool_intent_nudges)),
            ("model_context_limit"@, JsonView::Uint(c.model_context_limit)),
            ("step_count"@, JsonView::Uint(step_count)),
        ],
    )
}

fn config_object(c: &ThreadConfig, step_count: u64) -> (r: Json)
    ensures
        r@ == config_json(c@, step_count),
{
    let tokens = match c.max_tokens_total {
        Some(n) => Json::Uint(n),
        None => Json::Null,
    };
    let mut v: Vec<(String, Json)> = Vec::new();
    v.push(("compaction_threshold".to_owned(), c.compaction_threshold.clone()));
    v.push(("depth".to_owned(), Json::Uint(c.depth as u64)));
    v.push(("enable_compaction".to_owned(), Json::Bool(c.enable_compaction)));
    v.push(("enable_tool_intent_nudge".to_owned(), Json::Bool(c.enable_tool_intent_nudge)));
    v.push(("max_budget_usd".to_owned(), c.max_budget_usd.clone()));
    v.push(("max_consecutive_errors".to_owned(), Json::Uint(c.max_consecutive_errors)));
    v.push(("max_depth".to_owned(), Json::Uint(c.max_depth as u64)));
    v.push(("max_iterations".to_owned(), Json::Uint(c.max_iterations)));
    v.push(("max_tokens_total".to_owned(), tokens));
    v.push(("max_tool_intent_nudges".to_owned(), Json::Uint(c.max_tool_intent_nudges)));
    v.push(("model_context_limit".to_owned(), Json::Uint(c.model_context_limit)));
    v.push(("step_count".to_owned(), Json::Uint(step_count)));
    assert(fields(v@) =~= config_json(c@, step_count)->Object_0);
    object(v)
}

/// The variables that the orchestrator starts with: the transcript that the
/// execution works on, or what the user sees where there is none; the goal; no
/// actions, for it asks for them; its state; and the limits of the thread.
pub open spec fn orchestrator_inputs(t: ThreadView, state: JsonView) -> Seq<(Seq<char>, JsonView)> {
    let transcript = if t.internal_messages.len() == 0 {
        t.messages
    } else {
        t.internal_messages
    };
    seq![
        (
            "context"@,
            JsonView::Array(transcript.map_values(|m: MessageView| context_message(m))),
        ),
        ("goal"@, JsonView::Str(t.goal)),
        ("actions"@, JsonView::Array(Seq::empty())),
        ("state"@, state),
        ("config"@, config_json(t.config, t.step_count)),
    ]
}

/// Makes the variables that the orchestrator starts with.
pub fn build_orchestrator_inputs(thread: &Thread, persisted_state: &Json) -> (r: Vec<
    (String, Json),
>)
    ensures
        fields(r@) == orchestrator_inputs(thread@, persisted_state@),
{
    let context = if thread.internal_messages.len() == 0 {
        context_list(&thread.messages)
    } else {
        context_list(&thread.internal_messages)
    };
    let none: Vec<Json> = Vec::new();
    proof {
        lemma_array_view(none);
        assert(values(none@) =~= Seq::<JsonView>::empty());
        assert(thread@.internal_messages.len() == thread.internal_messages@.len());
    }
    let mut v: Vec<(String, Json)> = Vec::new();
    v.push(("context".to_owned(), context));
    v.push(("goal".to_owned(), json_str(thread.goal.as_str())));
    v.push(("actions".to_owned(), Json::Array(none)));
    v.push(("state".to_owned(), persisted_state.clone()));
    v.push(("config".to_owned(), config_object(&thread.config, thread.step_count)));
    assert(fields(v@) =~= orchestrator_inputs(thread@, persisted_state@));
    v
}

/// Every function of the host is called by its name.
pub proof fn functions_have_their_names()
    ensures
        function_of("FINAL"@) == Some(HostFunction::Final),
        function_of("__llm_complete__"@) == Some(HostFunction::LlmComplete),
        function_of("__execute_code_step__"@) == Some(HostFunction::ExecuteCodeStep),
        function_of("__execute_action__"@) == Some(HostFunction::ExecuteAction),
        function_of("__execute_actions_parallel__"@) == Some(HostFunction::ExecuteActionsParallel),
        function_of("__check_signals__"@) == Some(HostFunction::CheckSignals),
        function_of("__emit_event__"@) == Some(HostFunction::EmitEvent),
        function_of("__save_checkpoint__"@) == Some(HostFunction::SaveCheckpoint),
        function_of("__transition_to__"@) == Some(HostFunction::TransitionTo),
        function_of("__retrieve_docs__"@) == Some(HostFunction::RetrieveDocs),
        function_of("__check_budget__"@) == Some(HostFunction::CheckBudget),
        function_of("__get_actions__"@) == Some(HostFunction::GetActions),
        function_of("__list_skills__"@) == Some(HostFunction::ListSkills),
        function_of("__record_skill_usage__"@) == Some(HostFunction::RecordSkillUsage),
        function_of("__regex_match__"@) == Some(HostFunction::RegexMatch),
        function_of("__set_active_skills__"@) == Some(HostFunction::SetActiveSkills),
{
    reveal_strlit("FINAL");
    reveal_strlit("__llm_complete__");
    reveal_strlit("__execute_code_step__");
    reveal_strlit("__execute_action__");
    reveal_strlit("__execute_actions_parallel__");
    reveal_strlit("__check_signals__");
    reveal_strlit("__emit_event__");
    reveal_strlit("__save_checkpoint__");
    reveal_strlit("__transition_to__");
    reveal_strlit("__retrieve_docs__");
    reveal_strlit("__check_budget__");
    reveal_strlit("__get_actions__");
    reveal_strlit("__list_skills__");
    reveal_strlit("__record_skill_usage__");
    reveal_strlit("__regex_match__");
    reveal_strlit("__set_active_skills__");
    assert("FINAL"@.len() == 5 && "FINAL"@[2] == 'N');
    assert("__llm_complete__"@.len() == 16 && "__llm_complete__"@[2] == 'l');
    assert("__execute_code_step__"@.len() == 21 && "__execute_code_step__"@[2] == 'e');
    assert("__execute_action__"@.len() == 18 && "__execute_action__"@[2] == 'e');
    assert("__execute_actions_parallel__"@.len() == 28 && "__execute_actions_parallel__"@[2] == 'e');
    assert("__check_signals__"@.len() == 17 && "__check_signals__"@[2] == 'c');
    assert("__emit_event__"@.len() == 14 && "__emit_event__"@[2] == 'e');
    assert("__save_checkpoint__"@.len() == 19 && "__save_checkpoint__"@[2] == 's');
    assert("__transition_to__"@.len() == 17 && "__transition_to__"@[2] == 't');
    assert("__retrieve_docs__"@.len() == 17 && "__retrieve_docs__"@[2] == 'r');
    assert("__check_budget__"@.len() == 16 && "__check_budget__"@[2] == 'c');
    assert("__get_actions__"@.len() == 15 && "__get_actions__"@[2] == 'g');
    assert("__list_skills__"@.len() == 15 && "__list_skills__"@[2] == 'l');
    assert("__record_skill_usage__"@.len() == 22 && "__record_skill_usage__"@[2] == 'r');
    assert("__regex_match__"@.len() == 15 && "__regex_match__"@[2] == 'r');
    assert("__set_active_skills__"@.len() == 21 && "__set_active_skills__"@[2] == 's');
}

/// No two names stand for one function.
pub proof fn functions_have_one_name(a: Seq<char>, b: Seq<char>)
    requires
        function_of(a) is Some,
        function_of(a) == function_of(b),
    ensures
        a == b,
{
}

/// A failure of the interpreter is told with what it said.
pub proof fn failures_are_told_with_their_text(e: String, n: String)
    ensures
        has_substring(vm_failure_text(VmFailure::Parse(e)), e@),
        has_substring(vm_failure_text(VmFailure::Start(e)), e@),
        has_substring(vm_failure_text(VmFailure::Resume(e)), e@),
        has_substring(vm_failure_text(VmFailure::Name(n, e)), e@),
        has_substring(vm_failure_text(VmFailure::Name(n, e)), n@),
        has_substring(vm_failure_text(VmFailure::NamePanic(n)), n@),
{
    let none = Seq::<char>::empty();
    middle_is_found("Orchestrator parse error: "@, e@, none);
    assert("Orchestrator parse error: "@ + e@ + none =~= "Orchestrator parse error: "@ + e@);
    middle_is_found("Orchestrator runtime error: "@, e@, none);
    assert("Orchestrator runtime error: "@ + e@ + none =~= "Orchestrator runtime error: "@ + e@);
    middle_is_found("Orchestrator error after resume: "@, e@, none);
    assert("Orchestrator error after resume: "@ + e@ + none
        =~= "Orchestrator error after resume: "@ + e@);
    let h = "Orchestrator NameError '"@ + n@ + "': "@;
    middle_is_found(h, e@, none);
    assert(h + e@ + none =~= h + e@);
    middle_is_found("Orchestrator NameError '"@, n@, "': "@ + e@);
    assert("Orchestrator NameError '"@ + n@ + ("': "@ + e@) =~= h + e@);
    middle_is_found("Monty panic on NameLookup '"@, n@, "'"@);
}

/// A run that completed shows its response to the user and hands its transcript over; it
/// changes nothing else.
pub proof fn completed_runs_are_shown(
    t: ThreadView,
    result: JsonView,
    state: JsonView,
    a: Seq<JsonView>,
    r: Seq<char>,
    now: i128,
    i: int,
)
    requires
        result.get("outcome"@) == Some(JsonView::Str("completed"@)),
        result.get("response"@) == Some(JsonView::Str(r)),
        result.get("state"@) == Some(state),
        state.get("working_messages"@) == Some(JsonView::Array(a)),
        0 <= i < a.len(),
    ensures
        after_run(t, result, now).messages.len() > 0,
        after_run(t, result, now).messages.last().content == r,
        after_run(t, result, now).messages.last().role == MessageRole::Assistant,
        after_run(t, result, now).internal_messages.len() == a.len(),
        after_run(t, result, now).internal_messages[i] == message_of(a[i]),
        after_run(t, result, now).goal == t.goal,
        after_run(t, result, now).state == t.state,
        after_run(t, result, now).metadata == t.metadata,
{
}

/// An argument counts where it is there and is not null.
pub proof fn arguments_count_unless_null(args: Seq<PyValue>, i: int)
    requires
        0 <= i,
    ensures
        i < args.len() && py_json(args[i]) != JsonView::Null ==> given_arg(args, i) == Some(
            py_json(args[i]),
        ),
        i < args.len() && py_json(args[i]) == JsonView::Null ==> given_arg(args, i) is None,
        i >= args.len() ==> given_arg(args, i) is None,
        i < args.len() ==> object_arg(args, i) == py_json(args[i]),
        i >= args.len() ==> object_arg(args, i) == JsonView::Object(Seq::empty()),
{
}

/// The model is asked with the transcript that the call gives, message by message, or
/// with that of the thread where it gives none.
pub proof fn model_is_asked_with_the_transcript(
    args: Seq<PyValue>,
    t: ThreadView,
    a: Seq<JsonView>,
    i: int,
)
    ensures
        args.len() == 0 ==> llm_request_of(args, t).messages == t.messages,
        args.len() > 0 && py_json(args[0]) == JsonView::Null ==> llm_request_of(args, t).messages
            == t.messages,
        args.len() > 0 && py_json(args[0]) == JsonView::Array(a) && 0 <= i < a.len()
            ==> llm_request_of(args, t).messages.len() == a.len() && llm_request_of(
            args,
            t,
        ).messages[i] == message_of(a[i]),
        llm_request_of(args, t).depth == t.config.depth,
{
}

/// The limits of a call of the model are those that it gives, each by itself.
pub proof fn limits_of_the_call_are_kept(args: Seq<PyValue>, t: ThreadView, c: JsonView, n: u64)
    requires
        args.len() > 2,
        py_json(args[2]) == c,
        c is Object,
    ensures
        c.get("max_tokens"@) == Some(JsonView::Uint(n)) && n <= u32::MAX ==> llm_request_of(
            args,
            t,
        ).max_tokens == Some(n as u32),
        c.get("max_tokens"@) is None ==> llm_request_of(args, t).max_tokens is None,
        c.get("force_text"@) == Some(JsonView::Bool(true)) ==> llm_request_of(args, t).force_text,
        c.get("force_text"@) == Some(JsonView::Bool(false)) ==> !llm_request_of(
            args,
            t,
        ).force_text,
        c.get("force_text"@) is None ==> !llm_request_of(args, t).force_text,
        (c.get("temperature"@) matches Some(x) && (x is Uint || x is Int || x is Float))
            ==> llm_request_of(args, t).temperature == c.get("temperature"@),
        c.get("temperature"@) is None ==> llm_request_of(args, t).temperature is None,
{
}

/// The orchestrator is told all that the model answered, and what it cost.
pub proof fn answers_of_the_model_are_told(
    text: Seq<char>,
    content: Option<Seq<char>>,
    calls: Seq<CallView>,
    u: TokenUsage,
    cost: JsonView,
)
    ensures
        llm_reply_json(ResponseView::Text(text), u, cost) matches JsonView::Object(f)
            && f.contains(("content"@, JsonView::Str(text))) && f.contains(
            ("type"@, JsonView::Str("text"@)),
        ) && f.contains(("usage"@, usage_json(u, cost))),
        llm_reply_json(ResponseView::Code(text, content), u, cost) matches JsonView::Object(f)
            && f.contains(("code"@, JsonView::Str(text))) && f.contains(
            ("type"@, JsonView::Str("code"@)),
        ) && f.contains(("usage"@, usage_json(u, cost))),
        llm_reply_json(ResponseView::ActionCalls(calls, content), u, cost) matches JsonView::Object(
            f,
        ) && f.contains(("calls"@, JsonView::Array(python_calls(calls)))) && f.contains(
            ("type"@, JsonView::Str("actions"@)),
        ) && f.contains(("usage"@, usage_json(u, cost))) && (content matches Some(x)
            ==> f.contains(("content"@, JsonView::Str(x)))),
        usage_json(u, cost) matches JsonView::Object(f) && f.contains(("cost_usd"@, cost))
            && f.contains(("input_tokens"@, JsonView::Uint(u.input_tokens))) && f.contains(
            ("output_tokens"@, JsonView::Uint(u.output_tokens)),
        ),
{
    let t = llm_reply_json(ResponseView::Text(text), u, cost)->Object_0;
    assert(t[0].0 == "content"@ && t[1].0 == "type"@ && t[2].0 == "usage"@);
    let c = llm_reply_json(ResponseView::Code(text, content), u, cost)->Object_0;
    assert(c[0].0 == "code"@ && c[1].0 == "type"@ && c[2].0 == "usage"@);
    let a = llm_reply_json(ResponseView::ActionCalls(calls, content), u, cost)->Object_0;
    assert(a[0].0 == "calls"@ && a[1].0 == "content"@ && a[2].0 == "type"@ && a[3].0 == "usage"@);
    let g = usage_json(u, cost)->Object_0;
    assert(g[0].0 == "cost_usd"@ && g[1].0 == "input_tokens"@ && g[2].0 == "output_tokens"@);
}

/// Every piece that is not empty is a name, without the white space around it, in the
/// order of the pieces.
pub proof fn every_piece_is_a_name(a: Seq<Seq<char>>, piece: Seq<char>, b: Seq<Seq<char>>)
    ensures
        name_list(Seq::empty()).len() == 0,
        trimmed(piece).len() > 0 ==> name_list(a.push(piece) + b) == name_list(a).push(
            trimmed(piece),
        ) + name_list(b),
        trimmed(piece).len() == 0 ==> name_list(a.push(piece) + b) == name_list(a) + name_list(b),
    decreases b.len(),
{
    assert(a.push(piece).drop_last() =~= a);
    if b.len() == 0 {
        assert(a.push(piece) + b =~= a.push(piece));
        assert(name_list(a) + name_list(b) =~= name_list(a));
        assert(name_list(a).push(trimmed(piece)) + name_list(b) =~= name_list(a).push(
            trimmed(piece),
        ));
    } else {
        let r = b.drop_last();
        every_piece_is_a_name(a, piece, r);
        assert((a.push(piece) + b).drop_last() =~= a.push(piece) + r);
        assert((a.push(piece) + b).last() == b.last());
        assert(name_list(a.push(piece) + b) =~= name_list(a.push(piece) + r) + (if trimmed(
            b.last(),
        ).len() == 0 {
            Seq::empty()
        } else {
            seq![trimmed(b.last())]
        }));
        assert(name_list(b) =~= name_list(r) + (if trimmed(b.last()).len() == 0 {
            Seq::empty()
        } else {
            seq![trimmed(b.last())]
        }));
        if trimmed(piece).len() > 0 {
            assert(name_list(a.push(piece) + b) =~= name_list(a).push(trimmed(piece)) + name_list(
                b,
            ));
        } else {
            assert(name_list(a.push(piece) + b) =~= name_list(a) + name_list(b));
        }
    }
}

proof fn lemma_event_kinds()
    ensures
        "step_started"@ != "step_completed"@ && "step_started"@ != "action_executed"@
            && "step_started"@ != "action_failed"@ && "step_started"@ != "skill_activated"@,
        "step_completed"@ != "action_executed"@ && "step_completed"@ != "action_failed"@
            && "step_completed"@ != "skill_activated"@,
        "action_executed"@ != "action_failed"@ && "action_executed"@ != "skill_activated"@,
        "action_failed"@ != "skill_activated"@,
{
    reveal_strlit("step_started");
    reveal_strlit("step_completed");
    reveal_strlit("action_executed");
    reveal_strlit("action_failed");
    reveal_strlit("skill_activated");
    assert("step_started"@.len() == 12 && "step_completed"@.len() == 14
        && "action_executed"@.len() == 15 && "action_failed"@.len() == 13
        && "skill_activated"@.len() == 15);
    assert("action_executed"@[0] == 'a' && "skill_activated"@[0] == 's');
}

/// Each event that is reported is on record at the end, with the action, the call and the
/// error that it was reported with.
pub proof fn reported_events_are_on_record(
    kwargs: Seq<(PyKey, PyValue)>,
    t: ThreadView,
    step: StepId,
    now: i128,
    name: Seq<char>,
    call: Seq<char>,
    error: Seq<char>,
)
    requires
        kwarg_text(kwargs, "action_name"@) == Some(name),
        kwarg_text(kwargs, "call_id"@) == Some(call),
        kwarg_text(kwargs, "error"@) == Some(error),
    ensures
        after_emit("step_started"@, kwargs, t, step, now).events == t.events.push(
            ThreadEventView {
                thread_id: t.id,
                kind: EventView::StepStarted { step_id: step },
                timestamp: now,
            },
        ),
        after_emit("action_executed"@, kwargs, t, step, now).events == t.events.push(
            ThreadEventView {
                thread_id: t.id,
                kind: EventView::ActionExecuted {
                    step_id: step,
                    action_name: name,
                    call_id: call,
                    duration_ms: 0,
                    params_summary: None,
                },
                timestamp: now,
            },
        ),
        after_emit("action_failed"@, kwargs, t, step, now).events == t.events.push(
            ThreadEventView {
                thread_id: t.id,
                kind: EventView::ActionFailed {
                    step_id: step,
                    action_name: name,
                    call_id: call,
                    error,
                    params_summary: None,
                },
                timestamp: now,
            },
        ),
{
    lemma_event_kinds();
}

/// A step that is reported as completed is counted once, with the tokens that it read and
/// those that it wrote, and only such a step is.
pub proof fn completed_steps_are_counted(
    kind: Seq<char>,
    kwargs: Seq<(PyKey, PyValue)>,
    t: ThreadView,
    step: StepId,
    now: i128,
    read: u64,
    written: u64,
)
    requires
        kwarg_u64(kwargs, "input_tokens"@) == Some(read),
        kwarg_u64(kwargs, "output_tokens"@) == Some(written),
        t.step_count < u64::MAX,
        t.total_tokens_used + read + written <= u64::MAX,
    ensures
        counters_fit(kind, kwargs, t),
        kind == "step_completed"@ ==> after_emit(kind, kwargs, t, step, now).step_count
            == t.step_count + 1,
        kind == "step_completed"@ ==> after_emit(kind, kwargs, t, step, now).total_tokens_used
            == t.total_tokens_used + read + written,
        kind == "step_completed"@ ==> after_emit(kind, kwargs, t, step, now).events.last().kind
            == (EventView::StepCompleted {
            step_id: step,
            input_tokens: read,
            output_tokens: written,
        }),
        kind != "step_completed"@ ==> after_emit(kind, kwargs, t, step, now).step_count
            == t.step_count && after_emit(kind, kwargs, t, step, now).total_tokens_used
            == t.total_tokens_used,
        after_emit(kind, kwargs, t, step, now).messages == t.messages,
        after_emit(kind, kwargs, t, step, now).state == t.state,
{
    lemma_event_kinds();
}

/// The skills that are reported as active are those named between the commas.
pub proof fn active_skills_are_named(
    kwargs: Seq<(PyKey, PyValue)>,
    t: ThreadView,
    step: StepId,
    now: i128,
    list: Seq<char>,
)
    requires
        kwarg_text(kwargs, "skill_names"@) == Some(list),
    ensures
        after_emit("skill_activated"@, kwargs, t, step, now).events.last().kind
            == (EventView::SkillActivated { skill_names: name_list(split_on(list, ',')) }),
        joined(split_on(list, ','), seq![',']) == list,
{
    lemma_event_kinds();
    pieces_make_the_text(list, ',');
}

/// A checkpoint keeps the state as it is, and each counter under its name.
pub proof fn checkpoints_keep_the_state(state: JsonView, counters: JsonView, n: u64)
    ensures
        checkpoint_json(state, counters) matches JsonView::Object(f) && f.contains(
            ("persisted_state"@, state),
        ) && (counters.get("nudge_count"@) == Some(JsonView::Uint(n)) ==> f.contains(
            ("nudge_count"@, JsonView::Uint(n)),
        )) && (counters.get("consecutive_errors"@) == Some(JsonView::Uint(n)) ==> f.contains(
            ("consecutive_errors"@, JsonView::Uint(n)),
        )) && (counters.get("compaction_count"@) == Some(JsonView::Uint(n)) ==> f.contains(
            ("compaction_count"@, JsonView::Uint(n)),
        )),
{
    let f = checkpoint_json(state, counters)->Object_0;
    assert(f[0].0 == "compaction_count"@);
    assert(f[1].0 == "consecutive_errors"@);
    assert(f[2].0 == "nudge_count"@);
    assert(f[3].0 == "persisted_state"@);
}

/// A checkpoint is found in the metadata, and what else they hold stays.
pub proof fn checkpoints_are_found(
    t: ThreadView,
    state: JsonView,
    counters: JsonView,
    now: i128,
    other: Seq<char>,
)
    requires
        t.metadata is Object,
        other != "runtime_checkpoint"@,
    ensures
        after_checkpoint(t, state, counters, now).metadata.get("runtime_checkpoint"@) == Some(
            checkpoint_json(state, counters),
        ),
        after_checkpoint(t, state, counters, now).metadata.get(other) == t.metadata.get(other),
        after_checkpoint(t, state, counters, now).messages == t.messages,
        after_checkpoint(t, state, counters, now).state == t.state,
        after_checkpoint(t, state, counters, now).updated_at == now,
{
    set_field_is_found(
        t.metadata->Object_0,
        "runtime_checkpoint"@,
        checkpoint_json(state, counters),
        other,
    );
}

/// Each state that the orchestrator may ask for has its name.
pub proof fn states_have_their_names()
    ensures
        state_of("running"@) == Some(ThreadState::Running),
        state_of("completed"@) == Some(ThreadState::Completed),
        state_of("failed"@) == Some(ThreadState::Failed),
        state_of("waiting"@) == Some(ThreadState::Waiting),
        state_of("suspended"@) == Some(ThreadState::Suspended),
        forall|a: Seq<char>, b: Seq<char>|
            (#[trigger] state_of(a)) is Some && state_of(a) == (#[trigger] state_of(b)) ==> a == b,
{
    reveal_strlit("running");
    reveal_strlit("completed");
    reveal_strlit("failed");
    reveal_strlit("waiting");
    reveal_strlit("suspended");
    assert("running"@.len() == 7 && "completed"@.len() == 9 && "failed"@.len() == 6
        && "waiting"@.len() == 7 && "suspended"@.len() == 9);
    assert("running"@[0] == 'r' && "waiting"@[0] == 'w' && "completed"@[0] == 'c'
        && "suspended"@[0] == 's');
}

/// The orchestrator is told the title and all of the text of a document, and of a skill
/// its metadata and its identity too.
pub proof fn documents_are_told_whole(d: DocView)
    ensures
        retrieved_json(d) matches JsonView::Object(f) && f.contains(
            ("content"@, JsonView::Str(d.content)),
        ) && f.contains(("title"@, JsonView::Str(d.title))) && f.contains(
            ("type"@, JsonView::Str(doc_type_text(d.doc_type))),
        ),
        skill_json(d) matches JsonView::Object(f) && f.contains(
            ("content"@, JsonView::Str(d.content)),
        ) && f.contains(("title"@, JsonView::Str(d.title))) && f.contains(
            ("metadata"@, d.metadata),
        ) && f.contains(("doc_id"@, JsonView::Str(uuid_text(d.id.0)))),
{
    let f = retrieved_json(d)->Object_0;
    assert(f[0].0 == "content"@ && f[1].0 == "title"@ && f[2].0 == "type"@);
    let g = skill_json(d)->Object_0;
    assert(g[0].0 == "content"@ && g[1].0 == "doc_id"@ && g[2].0 == "metadata"@ && g[3].0
        == "title"@);
}

/// Every skill among the documents is listed, in their order, and no other document is.
pub proof fn every_skill_is_listed(a: Seq<DocView>, d: DocView, b: Seq<DocView>)
    ensures
        skill_list(Seq::empty()).len() == 0,
        d.doc_type == DocType::Skill ==> skill_list(a.push(d) + b) == skill_list(a).push(
            skill_json(d),
        ) + skill_list(b),
        d.doc_type != DocType::Skill ==> skill_list(a.push(d) + b) == skill_list(a) + skill_list(b),
    decreases b.len(),
{
    assert(a.push(d).drop_last() =~= a);
    if b.len() == 0 {
        assert(a.push(d) + b =~= a.push(d));
        assert(skill_list(a) + skill_list(b) =~= skill_list(a));
        assert(skill_list(a).push(skill_json(d)) + skill_list(b) =~= skill_list(a).push(
            skill_json(d),
        ));
    } else {
        let r = b.drop_last();
        every_skill_is_listed(a, d, r);
        assert((a.push(d) + b).drop_last() =~= a.push(d) + r);
        assert((a.push(d) + b).last() == b.last());
        if d.doc_type == DocType::Skill {
            assert(skill_list(a.push(d) + b) =~= skill_list(a).push(skill_json(d)) + skill_list(b));
        } else {
            assert(skill_list(a.push(d) + b) =~= skill_list(a) + skill_list(b));
        }
    }
}

/// A thread has the tokens left that its limit is above what it used, none where it is
/// not, and all there can be without a limit.
pub proof fn tokens_left_are_those_not_used(t: ThreadView, max: u64)
    ensures
        t.config.max_tokens_total == Some(max) && t.total_tokens_used <= max ==> tokens_left(t)
            + t.total_tokens_used == max,
        t.config.max_tokens_total == Some(max) && t.total_tokens_used > max ==> tokens_left(t)
            == 0,
        t.config.max_tokens_total is None ==> tokens_left(t) == u64::MAX,
{
}

/// A thread has the milliseconds left that its limit is above the whole ones since it was
/// made, none where it is not, and all there can be without a limit.
pub proof fn time_left_is_that_not_used(t: ThreadView, max: u64, now: i128)
    requires
        now >= t.created_at,
    ensures
        t.config.max_duration_ms == Some(max) && time_left(t, now) > 0 ==> (max - time_left(t, now))
            * 1_000_000 <= now - t.created_at < (max - time_left(t, now) + 1) * 1_000_000,
        t.config.max_duration_ms == Some(max) && time_left(t, now) == 0 ==> max * 1_000_000 <= now
            - t.created_at,
        t.config.max_duration_ms == Some(max) ==> time_left(t, now) <= max,
        t.config.max_duration_ms is None ==> time_left(t, now) == u64::MAX,
{
}

/// The orchestrator is told of an action its name, what it does and what it takes.
pub proof fn actions_are_told_whole(a: ActionDefView)
    ensures
        action_json(a) matches JsonView::Object(f) && f.contains(("name"@, JsonView::Str(a.name)))
            && f.contains(("description"@, JsonView::Str(a.description))) && f.contains(
            ("params"@, a.parameters_schema),
        ),
{
    let f = action_json(a)->Object_0;
    assert(f[0].0 == "description"@ && f[1].0 == "name"@ && f[2].0 == "params"@);
}

/// The transcript that the orchestrator starts with tells of each message who said it,
/// all that was said, and the calls that it makes or is the result of.
pub proof fn transcript_is_told_whole(m: MessageView)
    ensures
        context_message(m) matches JsonView::Object(f) && f.contains(
            ("content"@, JsonView::Str(m.content)),
        ) && f.contains(("role"@, JsonView::Str(role_text(m.role)))) && (
        m.action_name matches Some(n) ==> f.contains(("action_name"@, JsonView::Str(n)))) && (
        m.action_call_id matches Some(n) ==> f.contains(("action_call_id"@, JsonView::Str(n)))) && (
        m.action_calls matches Some(c) ==> f.contains(
            ("action_calls"@, JsonView::Array(python_calls(c))),
        )) && (m.action_calls is None ==> f.contains(("action_calls"@, JsonView::Null))),
{
    let f = context_message(m)->Object_0;
    assert(f[0].0 == "action_call_id"@ && f[1].0 == "action_calls"@ && f[2].0 == "action_name"@
        && f[3].0 == "content"@ && f[4].0 == "role"@);
}

/// The limits that the orchestrator is told are those of the thread.
pub proof fn limits_are_told(c: ConfigView, steps: u64)
    ensures
        config_json(c, steps) matches JsonView::Object(f) && f.contains(
            ("compaction_threshold"@, c.compaction_threshold),
        ) && f.contains(("depth"@, JsonView::Uint(c.depth as u64))) && f.contains(
            ("enable_compaction"@, JsonView::Bool(c.enable_compaction)),
        ) && f.contains(
            ("enable_tool_intent_nudge"@, JsonView::Bool(c.enable_tool_intent_nudge)),
        ) && f.contains(("max_budget_usd"@, c.max_budget_usd)) && f.contains(
            ("max_consecutive_errors"@, JsonView::Uint(c.max_consecutive_errors)),
        ) && f.contains(("max_depth"@, JsonView::Uint(c.max_depth as u64))) && f.contains(
            ("max_iterations"@, JsonView::Uint(c.max_iterations)),
        ) && (c.max_tokens_total matches Some(n) ==> f.contains(
            ("max_tokens_total"@, JsonView::Uint(n)),
        )) && (c.max_tokens_total is None ==> f.contains(("max_tokens_total"@, JsonView::Null)))
            && f.contains(("max_tool_intent_nudges"@, JsonView::Uint(c.max_tool_intent_nudges)))
            && f.contains(("model_context_limit"@, JsonView::Uint(c.model_context_limit)))
            && f.contains(("step_count"@, JsonView::Uint(steps))),
{
    let f = config_json(c, steps)->Object_0;
    assert(f[0].0 == "compaction_threshold"@ && f[1].0 == "depth"@ && f[2].0
        == "enable_compaction"@ && f[3].0 == "enable_tool_intent_nudge"@ && f[4].0
        == "max_budget_usd"@ && f[5].0 == "max_consecutive_errors"@ && f[6].0 == "max_depth"@
        && f[7].0 == "max_iterations"@ && f[8].0 == "max_tokens_total"@ && f[9].0
        == "max_tool_intent_nudges"@ && f[10].0 == "model_context_limit"@ && f[11].0
        == "step_count"@);
}

/// The orchestrator starts with each message of the transcript that is worked on, or of
/// the one that the user sees where there is none, with the goal and with the state that
/// was kept.
pub proof fn orchestrator_starts_with_its_context(t: ThreadView, state: JsonView, i: int)
    ensures
        orchestrator_inputs(t, state).len() == 5,
        orchestrator_inputs(t, state)[0].0 == "context"@,
        t.internal_messages.len() > 0 && 0 <= i < t.internal_messages.len() ==> (
        orchestrator_inputs(t, state)[0].1 matches JsonView::Array(a) && a.len()
            == t.internal_messages.len() && a[i] == context_message(t.internal_messages[i])),
        t.internal_messages.len() == 0 && 0 <= i < t.messages.len() ==> (orchestrator_inputs(
            t,
            state,
        )[0].1 matches JsonView::Array(a) && a.len() == t.messages.len() && a[i]
            == context_message(t.messages[i])),
        orchestrator_inputs(t, state)[1] == ("goal"@, JsonView::Str(t.goal)),
        orchestrator_inputs(t, state)[2] == ("actions"@, JsonView::Array(Seq::empty())),
        orchestrator_inputs(t, state)[3] == ("state"@, state),
        orchestrator_inputs(t, state)[4] == ("config"@, config_json(t.config, t.step_count)),
{
}

} // verus!

use ironclaw::executor::code_step::{
    active_skills_payload, handle_set_active_skills, parse_code_step, refresh_warning_due,
};
use ironclaw::executor::interchange::{
    action_calls_to_python_json, json_to_thread_messages, normalize_pause_outcome, parse_outcome,
    python_json_to_action_calls, summarize_action_calls_for_log, sync_visible_outcome,
    thread_source_channel, thread_user_timezone,
};
use ironclaw::executor::llm::{LlmResponse, TokenUsage};
use ironclaw::executor::orchestrator::{
    build_orchestrator_inputs, complete_run, dispatch, final_value, handle_check_signals,
    handle_emit_event, handle_list_skills, handle_llm_complete, handle_regex_match,
    handle_retrieve_docs, handle_transition_to, llm_failed, orchestrator_error,
    parse_llm_complete, parse_record_skill_usage, parse_retrieve_docs, regex_reply, HostFunction,
    ThreadSignal, VmFailure,
};
use ironclaw::executor::python::{json_to_monty, PyInput};
use ironclaw::executor::value::{
    monty_args_to_json, monty_to_json, monty_to_string, ExcKind, HostReply, PyKey, PyValue,
};
use ironclaw::gate::ResumeKind;
use ironclaw::json::Json;
use ironclaw::types::doc::{DocType, MemoryDoc};
use ironclaw::types::event::{EventKind, ThreadOutcome};
use ironclaw::types::ids::{DocId, ProjectId, StepId, ThreadId};
use ironclaw::types::message::{ActionCall, MessageRole, ThreadMessage};
use ironclaw::types::thread::{Thread, ThreadConfig, ThreadState, ThreadType};

const NOW: i128 = 1_000;

fn from_value(v: serde_json::Value) -> Json {
    match v {
        serde_json::Value::Null => Json::Null,
        serde_json::Value::Bool(b) => Json::Bool(b),
        serde_json::Value::Number(n) => match (n.as_u64(), n.as_i64()) {
            (Some(u), _) => Json::Uint(u),
            (None, Some(i)) => Json::Int(i),
            (None, None) => Json::Float(n.to_string()),
        },
        serde_json::Value::String(s) => Json::Str(s),
        serde_json::Value::Array(a) => Json::Array(a.into_iter().map(from_value).collect()),
        serde_json::Value::Object(o) => {
            Json::Object(o.into_iter().map(|(k, v)| (k, from_value(v))).collect())
        }
    }
}

fn json(text: &str) -> Json {
    from_value(serde_json::from_str(text).unwrap())
}

fn config() -> ThreadConfig {
    ThreadConfig {
        max_iterations: 50,
        max_duration_ms: None,
        max_tokens_total: None,
        max_budget_usd: Json::Null,
        model_context_limit: 128_000,
        enable_compaction: false,
        compaction_threshold: Json::Float("0.85".to_string()),
        depth: 0,
        max_depth: 1,
        max_consecutive_errors: 5,
        max_tool_intent_nudges: 2,
        enable_tool_intent_nudge: true,
    }
}

fn thread() -> Thread {
    Thread::new(ThreadId(1), NOW, "goal", ThreadType::Foreground, ProjectId(1), "user", config())
}

fn text(s: &str) -> PyValue {
    PyValue::Str(s.to_string())
}

fn held(v: PyInput) -> PyValue {
    match v {
        PyInput::Nil => PyValue::Nil,
        PyInput::Bool(b) => PyValue::Bool(b),
        PyInput::Int(i) => PyValue::Int(i),
        PyInput::Wide(n) => panic!("{n} is no integer of the interpreter"),
        PyInput::Float(t) => PyValue::Float { display: t.clone(), json: Some(t) },
        PyInput::Str(s) => PyValue::Str(s),
        PyInput::List(v) => PyValue::List(v.into_iter().map(held).collect()),
        PyInput::Dict(v) => {
            PyValue::Dict(v.into_iter().map(|(k, x)| (PyKey::Str(k), held(x))).collect())
        }
    }
}

fn handed(j: &Json) -> PyValue {
    held(json_to_monty(j))
}

#[test]
fn normalize_pause_outcome_transitions_thread_to_waiting() {
    let mut thread = thread();
    thread.transition_to(ThreadState::Running, None, NOW).unwrap();
    let outcome = ThreadOutcome::GatePaused {
        gate_name: "approval".into(),
        action_name: "shell".into(),
        call_id: "call-1".into(),
        parameters: json(r#"{"cmd":"ls"}"#),
        resume_kind: ResumeKind::Approval { allow_always: true },
        resume_output: None,
    };
    normalize_pause_outcome(&mut thread, &outcome, NOW).unwrap();
    assert_eq!(thread.state, ThreadState::Waiting);
}

#[test]
fn parse_outcome_completed() {
    let outcome = parse_outcome(&json(r#"{"outcome": "completed", "response": "Hello!"}"#));
    assert!(matches!(outcome, ThreadOutcome::Completed { response: Some(r) } if r == "Hello!"));
}

#[test]
fn parse_outcome_failed() {
    let outcome = parse_outcome(&json(r#"{"outcome": "failed", "error": "boom"}"#));
    assert!(matches!(outcome, ThreadOutcome::Failed { error } if error == "boom"));
}

#[test]
fn parse_outcome_gate_paused() {
    let outcome = parse_outcome(&json(
        r#"{
            "outcome": "gate_paused",
            "gate_name": "approval",
            "action_name": "shell",
            "call_id": "abc",
            "parameters": {"cmd": "rm -rf /"},
            "resume_kind": {"Approval": {"allow_always": true}}
        }"#,
    ));
    assert!(
        matches!(outcome, ThreadOutcome::GatePaused { action_name, .. } if action_name == "shell")
    );
}

#[test]
fn parse_outcome_max_iterations() {
    let outcome = parse_outcome(&json(r#"{"outcome": "max_iterations"}"#));
    assert!(matches!(outcome, ThreadOutcome::MaxIterations));
}

#[test]
fn parse_outcome_stopped() {
    let outcome = parse_outcome(&json(r#"{"outcome": "stopped"}"#));
    assert!(matches!(outcome, ThreadOutcome::Stopped));
}

fn call(id: &str, name: &str, parameters: &str) -> ActionCall {
    ActionCall {
        id: id.to_string(),
        action_name: name.to_string(),
        parameters: json(parameters),
    }
}

#[test]
fn python_action_call_round_trips_through_serde() {
    let original = call("call_abc123", "google_drive_tool", r#"{"query": "expenses"}"#);
    let python_json = action_calls_to_python_json(&vec![original.clone()]);
    assert_eq!(python_json[0].str_field("name"), Some("google_drive_tool"));
    assert_eq!(python_json[0].str_field("call_id"), Some("call_abc123"));
    assert_eq!(python_json[0].get("params"), Some(&json(r#"{"query": "expenses"}"#)));

    let round_tripped = python_json_to_action_calls(&Json::Array(python_json)).unwrap();
    assert_eq!(round_tripped[0].id, original.id);
    assert_eq!(round_tripped[0].action_name, original.action_name);
    assert_eq!(round_tripped[0].parameters, original.parameters);
}

#[test]
fn action_calls_to_python_json_uses_python_field_names() {
    let calls = vec![
        call("call_1", "notion_notion_search", r#"{"query": "name"}"#),
        call("call_2", "google_drive_tool", r#"{"action": "list"}"#),
    ];
    let json = action_calls_to_python_json(&calls);
    assert_eq!(json.len(), 2);
    assert_eq!(json[0].str_field("name"), Some("notion_notion_search"));
    assert_eq!(json[0].str_field("call_id"), Some("call_1"));
    assert_eq!(json[1].str_field("name"), Some("google_drive_tool"));
    assert_eq!(json[1].str_field("call_id"), Some("call_2"));
}

#[test]
fn python_json_to_action_calls_parses_python_field_names() {
    let python_json = json(
        r#"[
            {"name": "notion_notion_search", "call_id": "call_xyz", "params": {"q": "foo"}},
            {"name": "google_drive_tool", "call_id": "call_abc", "params": {"action": "list"}}
        ]"#,
    );
    let parsed = python_json_to_action_calls(&python_json).expect("must parse");
    assert_eq!(parsed.len(), 2);
    assert_eq!(parsed[0].action_name, "notion_notion_search");
    assert_eq!(parsed[0].id, "call_xyz");
    assert_eq!(parsed[0].parameters, json(r#"{"q": "foo"}"#));
    assert_eq!(parsed[1].action_name, "google_drive_tool");
    assert_eq!(parsed[1].id, "call_abc");
}

#[test]
fn python_json_to_action_calls_rejects_canonical_field_names() {
    let canonical_json =
        json(r#"[{"action_name": "search", "id": "call_x", "parameters": {}}]"#);
    assert!(python_json_to_action_calls(&canonical_json).is_none());
}

#[test]
fn summarize_action_calls_for_log_does_not_leak_user_pii() {
    let pii_value = json(
        r#"[
            {
                "name": "google_drive_tool",
                "call_id": "call_xyz",
                "params": {
                    "query": "salary spreadsheet for joe",
                    "secret_token": "very-sensitive-token-do-not-log"
                }
            },
            {
                "name": "gmail",
                "call_id": "call_abc",
                "params": {
                    "subject": "private message about layoffs"
                }
            }
        ]"#,
    );
    let summary = summarize_action_calls_for_log(&pii_value);
    assert!(summary.contains("array of 2 entries"));
    assert!(summary.contains("call_id"));
    assert!(summary.contains("name"));
    assert!(summary.contains("params"));
    assert!(
        !summary.contains("salary"),
        "summary must not leak user PII from params: {summary}"
    );
    assert!(
        !summary.contains("very-sensitive-token"),
        "summary must not leak credential-shaped values: {summary}"
    );
    assert!(
        !summary.contains("layoffs"),
        "summary must not leak free-text content: {summary}"
    );
    assert!(
        !summary.contains("google_drive_tool"),
        "summary must not leak the tool name itself (could expose intent): {summary}"
    );
}

#[test]
fn summarize_action_calls_for_log_handles_edge_cases() {
    assert_eq!(summarize_action_calls_for_log(&json("[]")), "empty array");
    assert!(summarize_action_calls_for_log(&json("\"not an array\"")).contains("string"));
    assert!(summarize_action_calls_for_log(&json(r#"{"foo": "bar"}"#)).contains("object"));
    assert!(summarize_action_calls_for_log(&json("null")).contains("null"));
}

#[test]
fn json_to_thread_messages_preserves_action_calls_from_python_orchestrator() {
    let working_messages = json(
        r#"[
            {"role": "User", "content": "search in notion for my name"},
            {
                "role": "Assistant",
                "content": "",
                "action_calls": [
                    {
                        "name": "notion_notion_search",
                        "call_id": "call_xyz",
                        "params": {"query": "Illia"}
                    }
                ]
            },
            {
                "role": "ActionResult",
                "content": "found 3 results",
                "action_name": "notion_notion_search",
                "action_call_id": "call_xyz"
            }
        ]"#,
    );
    let messages = json_to_thread_messages(&working_messages).expect("must parse");
    assert_eq!(messages.len(), 3);

    let assistant = &messages[1];
    assert_eq!(assistant.role, MessageRole::Assistant);
    let calls = assistant
        .action_calls
        .as_ref()
        .expect("assistant message must carry action_calls after round-trip");
    assert_eq!(calls.len(), 1);
    assert_eq!(calls[0].id, "call_xyz");
    assert_eq!(calls[0].action_name, "notion_notion_search");
    assert_eq!(calls[0].parameters, json(r#"{"query": "Illia"}"#));

    let result = &messages[2];
    assert_eq!(result.role, MessageRole::ActionResult);
    assert_eq!(result.action_call_id.as_deref(), Some("call_xyz"));
    assert_eq!(result.action_name.as_deref(), Some("notion_notion_search"));
}

#[test]
fn bootstrap_context_action_calls_round_trip_through_python_interchange() {
    let msg = ThreadMessage::assistant_with_actions(
        Some("I'll search for that".to_string()),
        vec![call("call_resume_test", "google_drive_tool", r#"{"query": "budget"}"#)],
    );
    let mut t = thread();
    t.internal_messages.push(msg);
    let inputs = build_orchestrator_inputs(&t, &Json::Object(vec![]));
    let context = &inputs.iter().find(|(name, _)| name == "context").unwrap().1;

    let parsed = json_to_thread_messages(context).expect("must parse");
    assert_eq!(parsed.len(), 1);
    let assistant = &parsed[0];
    let calls = assistant.action_calls.as_ref().expect(
        "bootstrap context action_calls must survive the round-trip. \
             If this fails, a serialization path is using canonical ActionCall \
             field names instead of PythonActionCall interchange names.",
    );
    assert_eq!(calls.len(), 1);
    assert_eq!(calls[0].id, "call_resume_test");
    assert_eq!(calls[0].action_name, "google_drive_tool");
    assert_eq!(calls[0].parameters, json(r#"{"query": "budget"}"#));
}

#[test]
fn canonical_action_call_field_names_do_not_round_trip() {
    let serialized_with_canonical_names = json(
        r#"[{
            "role": "Assistant",
            "content": "",
            "action_calls": [{
                "action_name": "search",
                "id": "call_x",
                "parameters": {}
            }]
        }]"#,
    );
    let parsed = json_to_thread_messages(&serialized_with_canonical_names).expect("messages parse");
    assert!(
        parsed[0].action_calls.is_none(),
        "canonical ActionCall field names must NOT parse as action_calls."
    );
}

#[test]
fn json_to_thread_messages_handles_null_action_calls_gracefully() {
    let messages = json(
        r#"[{"role": "Assistant", "content": "Here is your answer.", "action_calls": null}]"#,
    );
    let parsed = json_to_thread_messages(&messages).expect("must parse");
    assert_eq!(parsed.len(), 1);
    assert_eq!(parsed[0].role, MessageRole::Assistant);
    assert_eq!(parsed[0].content, "Here is your answer.");
    assert!(
        parsed[0].action_calls.is_none(),
        "null action_calls must produce None, not a parse error"
    );
}

#[test]
fn json_to_thread_messages_handles_absent_action_calls() {
    let messages = json(r#"[{"role": "Assistant", "content": "Just text, no tools."}]"#);
    let parsed = json_to_thread_messages(&messages).expect("must parse");
    assert_eq!(parsed.len(), 1);
    assert!(parsed[0].action_calls.is_none());
}

#[test]
fn json_to_thread_messages_handles_empty_action_calls_array() {
    let messages =
        json(r#"[{"role": "Assistant", "content": "No tools needed.", "action_calls": []}]"#);
    let parsed = json_to_thread_messages(&messages).expect("must parse");
    assert_eq!(parsed.len(), 1);
    let calls = parsed[0]
        .action_calls
        .as_ref()
        .expect("empty array should produce Some(vec![])");
    assert!(calls.is_empty());
}

// ── host functions ──────────────────────────────────────

#[test]
fn host_functions_are_found_by_name() {
    assert_eq!(dispatch("FINAL"), Some(HostFunction::Final));
    assert_eq!(dispatch("__llm_complete__"), Some(HostFunction::LlmComplete));
    assert_eq!(dispatch("__regex_match__"), Some(HostFunction::RegexMatch));
    assert_eq!(dispatch("__set_active_skills__"), Some(HostFunction::SetActiveSkills));
    assert_eq!(dispatch("print"), None);
}

#[test]
fn regex_is_matched_by_the_host() {
    let matched = |pattern: &str, s: &str| handle_regex_match(&vec![text(pattern), text(s)]);
    assert_eq!(matched(r"^deploy\s+\w+", "deploy web"), HostReply::Return(Json::Bool(true)));
    assert_eq!(matched(r"^deploy\s+\w+", "we deploy web"), HostReply::Return(Json::Bool(false)));
    assert_eq!(matched("(unclosed", "anything"), HostReply::Return(Json::Bool(false)));
    assert_eq!(regex_reply(None), HostReply::Return(Json::Bool(false)));
    assert_eq!(regex_reply(Some(true)), HostReply::Return(Json::Bool(true)));
}

#[test]
fn a_regex_that_is_too_large_does_not_match() {
    let args = vec![text("(a{1000}){1000}"), text("a")];
    assert_eq!(handle_regex_match(&args), HostReply::Return(Json::Bool(false)));
}

#[test]
fn signals_are_told_to_the_orchestrator() {
    let mut t = thread();
    assert_eq!(handle_check_signals(None, &mut t, NOW), HostReply::Return(Json::Null));
    assert_eq!(
        handle_check_signals(Some(ThreadSignal::Stop), &mut t, NOW),
        HostReply::Return(Json::Str("stop".to_string()))
    );
    let injected = ThreadSignal::InjectMessage(ThreadMessage::user("more"));
    assert_eq!(
        handle_check_signals(Some(injected), &mut t, NOW),
        HostReply::Return(json(r#"{"inject": "more"}"#))
    );
}

#[test]
fn events_of_the_orchestrator_are_recorded() {
    let mut t = thread();
    let reply =
        handle_emit_event(&vec![text("step_started")], &vec![], &mut t, StepId(4), NOW);
    assert_eq!(reply, HostReply::Return(Json::Null));
    assert!(matches!(
        t.events.last().map(|e| &e.kind),
        Some(EventKind::StepStarted { step_id: StepId(4) })
    ));
    let kwargs = vec![
        (PyKey::Str("input_tokens".to_string()), PyValue::Int(7)),
        (PyKey::Str("output_tokens".to_string()), PyValue::Int(3)),
    ];
    handle_emit_event(&vec![text("step_completed")], &kwargs, &mut t, StepId(4), NOW);
    assert!(matches!(
        t.events.last().map(|e| &e.kind),
        Some(EventKind::StepCompleted { input_tokens: 7, output_tokens: 3, .. })
    ));
}

#[test]
fn transitions_are_checked() {
    let mut t = thread();
    assert_eq!(
        handle_transition_to(&vec![text("running")], &mut t, NOW),
        HostReply::Return(Json::Null)
    );
    assert_eq!(t.state, ThreadState::Running);
    assert!(matches!(
        handle_transition_to(&vec![text("nowhere")], &mut t, NOW),
        HostReply::Raise { .. }
    ));
}

#[test]
fn answers_of_the_model_are_counted() {
    let mut total = TokenUsage::none();
    let usage = TokenUsage { input_tokens: 11, output_tokens: 4 };
    let reply = handle_llm_complete(
        &LlmResponse::Text("hi".to_string()),
        usage,
        Json::Uint(0),
        &mut total,
    );
    assert_eq!(total, usage);
    match reply {
        HostReply::Return(j) => {
            assert_eq!(j.str_field("type"), Some("text"));
            assert_eq!(j.str_field("content"), Some("hi"));
        }
        other => panic!("{other:?}"),
    }
    assert!(matches!(
        llm_failed("down"),
        HostReply::Raise { kind: ExcKind::RuntimeError, .. }
    ));
}

#[test]
fn requests_to_the_model_are_read() {
    let t = thread();
    let messages = handed(&json(r#"[{"role": "User", "content": "hello"}]"#));
    let request = parse_llm_complete(&vec![messages], &t);
    assert_eq!(request.messages.len(), 1);
    assert_eq!(request.messages[0].content, "hello");
}

#[test]
fn final_answer_ends_the_run() {
    let mut t = thread();
    t.transition_to(ThreadState::Running, None, NOW).unwrap();
    let answer = final_value(&vec![handed(&json(
        r#"{"outcome": "completed", "response": "42"}"#,
    ))]);
    let result = complete_run(&mut t, Some(answer), Json::Null, TokenUsage::none(), NOW).unwrap();
    assert_eq!(result.outcome, ThreadOutcome::Completed { response: Some("42".to_string()) });
}

#[test]
fn failures_of_the_interpreter_are_told() {
    assert_eq!(
        orchestrator_error(VmFailure::Parse("bad token".to_string())).message(),
        orchestrator_error(VmFailure::Parse("bad token".to_string())).message()
    );
    let all = vec![
        VmFailure::Parse("x".to_string()),
        VmFailure::ParsePanic,
        VmFailure::Start("x".to_string()),
        VmFailure::StartPanic,
        VmFailure::Resume("x".to_string()),
        VmFailure::ResumePanic,
        VmFailure::Name("n".to_string(), "x".to_string()),
        VmFailure::NamePanic("n".to_string()),
        VmFailure::OsCall,
        VmFailure::Futures,
    ];
    let mut texts: Vec<String> =
        all.into_iter().map(|f| orchestrator_error(f).message()).collect();
    assert!(texts[0].contains("Orchestrator parse error: x"));
    assert!(texts[1].contains("Monty VM panicked during orchestrator parsing"));
    texts.sort();
    texts.dedup();
    assert_eq!(texts.len(), 10);
}

#[test]
fn documents_are_asked_for_and_told() {
    let (goal, n) = parse_retrieve_docs(&vec![text("find it"), PyValue::Int(2)]);
    assert_eq!(goal, "find it");
    assert_eq!(n, 2);
    let d = MemoryDoc::new(DocId(1), NOW, ProjectId(1), "u", DocType::Lesson, "t", "c");
    match handle_retrieve_docs(&vec![d]) {
        HostReply::Return(Json::Array(v)) => {
            assert_eq!(v.len(), 1);
            assert_eq!(v[0].str_field("title"), Some("t"));
            assert_eq!(v[0].str_field("content"), Some("c"));
        }
        other => panic!("{other:?}"),
    }
}

#[test]
fn only_skills_are_listed() {
    let note = MemoryDoc::new(DocId(1), NOW, ProjectId(1), "u", DocType::Note, "n", "c");
    let mut skill = MemoryDoc::new(DocId(2), NOW, ProjectId(1), "u", DocType::Skill, "s", "c");
    skill.metadata = json(r#"{"name": "s"}"#);
    match handle_list_skills(&vec![note, skill]) {
        HostReply::Return(Json::Array(v)) => {
            assert_eq!(v.len(), 1);
            assert_eq!(v[0].str_field("title"), Some("s"));
            assert_eq!(
                v[0].str_field("doc_id"),
                Some("00000000-0000-0000-0000-000000000002")
            );
        }
        other => panic!("{other:?}"),
    }
}

#[test]
fn use_of_a_skill_is_read() {
    let id = "00000000-0000-0000-0000-00000000000a";
    assert_eq!(
        parse_record_skill_usage(&vec![text(id), PyValue::Bool(false)]),
        Some((DocId(10), false))
    );
    assert_eq!(parse_record_skill_usage(&vec![text("no id"), PyValue::Bool(true)]), None);
}

#[test]
fn code_steps_need_code() {
    assert!(matches!(
        parse_code_step(&vec![]),
        Err(HostReply::Raise { kind: ExcKind::TypeError, .. })
    ));
    let (code, state) =
        parse_code_step(&vec![text("x = 1"), handed(&json(r#"{"a": 1}"#))]).unwrap();
    assert_eq!(code, "x = 1");
    assert_eq!(state, json(r#"{"a": 1}"#));
}

#[test]
fn skills_are_handed_over_as_json() {
    assert_eq!(
        active_skills_payload(&vec![handed(&json(r#"[{"name": "s"}]"#))]),
        json(r#"[{"name": "s"}]"#)
    );
    assert_eq!(active_skills_payload(&vec![]), json("[]"));
    let mut t = thread();
    let reply = handle_set_active_skills(&mut t, Some(json(r#"["s"]"#)));
    assert_eq!(reply, HostReply::Return(Json::Null));
    assert_eq!(t.metadata.get("active_skills"), Some(&json(r#"["s"]"#)));
    handle_set_active_skills(&mut t, None);
    assert_eq!(t.metadata.get("active_skills"), Some(&json(r#"["s"]"#)));
}

#[test]
fn refresh_warnings_are_rare() {
    assert!(refresh_warning_due(1_000_000, 0));
    assert!(!refresh_warning_due(1_000_000, 1_000_000));
}

// ── values of the interpreter ───────────────────────────

#[test]
fn json_survives_the_interpreter() {
    let value = json(r#"{"a": [1, -2, "x", null, true], "b": {"c": 1.5}}"#);
    assert_eq!(monty_to_json(&handed(&value)), value);
}

#[test]
fn dictionaries_become_objects_in_the_order_of_their_keys() {
    let entry = |k: &str, n: i64| (PyKey::Str(k.to_string()), PyValue::Int(n));
    let dict = PyValue::Dict(vec![entry("b", 1), entry("a", 2), entry("b", 3), entry("é", 4)]);
    let field = |k: &str, n: u64| (k.to_string(), Json::Uint(n));
    assert_eq!(
        monty_to_json(&dict),
        Json::Object(vec![field("a", 2), field("b", 3), field("é", 4)])
    );
    assert_eq!(
        monty_args_to_json(&vec![PyValue::Nil], &vec![entry("Z", 1), entry("A", 2)]),
        Json::Object(vec![
            field("A", 2),
            field("Z", 1),
            ("_args".to_string(), Json::Array(vec![Json::Null])),
        ])
    );
}

#[test]
fn values_are_shown_as_text() {
    assert_eq!(monty_to_string(&text("plain")), "plain");
    assert_eq!(monty_to_string(&PyValue::Int(-3)), "-3");
    assert_eq!(monty_to_json(&PyValue::Tuple(vec![PyValue::Nil])), json("[null]"));
}

#[test]
fn thread_metadata_names_the_channel_and_the_zone() {
    let mut t = thread();
    assert_eq!(thread_source_channel(&t), None);
    t.metadata = json(r#"{"source_channel": "web", "user_timezone": "Europe/London"}"#);
    assert_eq!(thread_source_channel(&t), Some("web".to_string()));
    assert_eq!(thread_user_timezone(&t).unwrap().name(), "Europe/London");
    assert_eq!(thread_user_timezone(&t).unwrap().tz(), chrono_tz::Tz::Europe__London);
}

#[test]
fn answer_is_shown_to_the_user_once() {
    let mut t = thread();
    let outcome = ThreadOutcome::Completed { response: Some("done".to_string()) };
    sync_visible_outcome(&mut t, &outcome, NOW);
    assert_eq!(t.messages.last().unwrap().content, "done");
    let n = t.messages.len();
    sync_visible_outcome(&mut t, &outcome, NOW);
    assert_eq!(t.messages.len(), n);
}

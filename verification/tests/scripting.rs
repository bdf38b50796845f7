//! Steps of code, with the interpreter.

use std::collections::HashMap;
use std::time::Duration;

use ironclaw::capability::lease::LeaseManager;
use ironclaw::capability::policy::PolicyEngine;
use ironclaw::executor::calls::{find_definition, ExecOutcome, GatePause};
use ironclaw::executor::llm::{LlmResponse, TokenUsage};
use ironclaw::executor::orchestrator::{dispatch, handle_regex_match, HostFunction};
use ironclaw::executor::output::build_context_inputs;
use ironclaw::executor::python::{json_to_monty, PyInput};
use ironclaw::executor::queries::{
    handle_llm_query, handle_llm_query_batched, parse_llm_query, parse_llm_query_batched, Answer,
};
use ironclaw::executor::scripting::{
    deny_os_call, known_names, parse_failure, start_failure, CallStep, CodeExecutionResult,
    CodeRun, FutureEnd, PreflightResult, ResumeFailure, ToolCall,
};
use ironclaw::executor::value::{
    monty_to_json, monty_to_string, ExcKind, HostReply, PyKey, PyValue,
};
use ironclaw::gate::ResumeKind;
use ironclaw::json::Json;
use ironclaw::types::capability::{ActionDef, EffectType, GrantedActions};
use ironclaw::types::event::{EventKind, ThreadOutcome};
use ironclaw::types::ids::{LeaseId, ProjectId, StepId, ThreadId};
use ironclaw::types::message::ActionResult;
use ironclaw::types::thread::{Thread, ThreadConfig, ThreadType};
use monty::{MontyRun, RunProgress};
use monty_types::{
    CompileOptions, ExcType, ExtFunctionResult, MontyException, MontyObject, NameLookupResult,
    PrintWriter, ResourceLimits, ResourceTracker,
};

const NOW: i128 = 1_000;
const THREAD: ThreadId = ThreadId(1);
const STEP: StepId = StepId(2);

fn to_py(obj: &MontyObject) -> PyValue {
    match obj {
        MontyObject::None => PyValue::Nil,
        MontyObject::Bool(b) => PyValue::Bool(*b),
        MontyObject::Int(i) => PyValue::Int(*i),
        MontyObject::Float(f) => PyValue::Float {
            display: f.to_string(),
            json: serde_json::Number::from_f64(*f).map(|n| n.to_string()),
        },
        MontyObject::String(s) => PyValue::Str(s.clone()),
        MontyObject::List(items) => PyValue::List(items.iter().map(to_py).collect()),
        MontyObject::Tuple(items) => PyValue::Tuple(items.iter().map(to_py).collect()),
        MontyObject::Dict(pairs) => {
            PyValue::Dict(pairs.into_iter().map(|(k, v)| (to_key(k), to_py(v))).collect())
        }
        other => PyValue::Other(format!("{other:?}")),
    }
}

fn to_key(obj: &MontyObject) -> PyKey {
    match obj {
        MontyObject::String(s) => PyKey::Str(s.clone()),
        other => PyKey::Other(format!("{other:?}")),
    }
}

fn to_monty(value: PyInput) -> MontyObject {
    match value {
        PyInput::Nil => MontyObject::None,
        PyInput::Bool(b) => MontyObject::Bool(b),
        PyInput::Int(i) => MontyObject::Int(i),
        PyInput::Wide(n) => MontyObject::Float(n as f64),
        PyInput::Float(text) => MontyObject::Float(text.parse().unwrap()),
        PyInput::Str(s) => MontyObject::String(s),
        PyInput::List(items) => MontyObject::List(items.into_iter().map(to_monty).collect()),
        PyInput::Dict(pairs) => MontyObject::dict(
            pairs
                .into_iter()
                .map(|(k, v)| (MontyObject::String(k), to_monty(v)))
                .collect::<Vec<_>>(),
        ),
    }
}

fn to_result(reply: HostReply) -> ExtFunctionResult {
    match reply {
        HostReply::Return(value) => ExtFunctionResult::Return(to_monty(json_to_monty(&value))),
        HostReply::Raise { kind, message } => {
            let kind = match kind {
                ExcKind::TypeError => ExcType::TypeError,
                ExcKind::ValueError => ExcType::ValueError,
                ExcKind::RuntimeError => ExcType::RuntimeError,
                ExcKind::OsError => ExcType::OSError,
            };
            ExtFunctionResult::Error(MontyException::new(kind, Some(message)))
        }
        HostReply::NotFound(name) => ExtFunctionResult::NotFound(name),
    }
}

fn limits() -> ResourceTracker {
    ResourceTracker::new(
        ResourceLimits::default()
            .max_duration(Duration::from_secs(5))
            .max_memory(64 * 1024 * 1024),
    )
}

fn printer(stdout: &mut String) -> PrintWriter<'_> {
    PrintWriter::CollectString(stdout, None)
}

fn config() -> ThreadConfig {
    ThreadConfig {
        max_iterations: 50,
        max_duration_ms: None,
        max_tokens_total: None,
        max_budget_usd: Json::Null,
        model_context_limit: 128_000,
        enable_compaction: false,
        compaction_threshold: Json::Float("0.85".into()),
        depth: 0,
        max_depth: 1,
        max_consecutive_errors: 5,
        max_tool_intent_nudges: 2,
        enable_tool_intent_nudge: true,
    }
}

fn make_test_thread() -> Thread {
    Thread::new(
        THREAD,
        NOW,
        "test goal",
        ThreadType::Foreground,
        ProjectId(3),
        "test-user",
        config(),
    )
}

fn test_action(name: &str) -> ActionDef {
    ActionDef {
        name: name.into(),
        description: "Test tool".into(),
        parameters_schema: Json::Object(vec![("type".into(), Json::Str("object".into()))]),
        effects: vec![EffectType::ReadLocal],
        requires_approval: false,
    }
}

fn done(name: &str, output: Json) -> ExecOutcome {
    ExecOutcome::Done(ActionResult {
        call_id: String::new(),
        action_name: name.into(),
        output,
        is_error: false,
        duration_ms: 1,
    })
}

fn text(s: &str) -> Json {
    Json::Str(s.to_string())
}

fn wildcard(max_uses: Option<u32>) -> LeaseManager {
    let mut leases = LeaseManager::new();
    leases
        .grant(LeaseId(7), NOW, THREAD, "tools".into(), GrantedActions::All, None, max_uses)
        .unwrap();
    leases
}

/// The model answers each question with what it was asked last, in brackets.
fn ask(prompt: &str) -> (LlmResponse, TokenUsage) {
    let usage = TokenUsage { input_tokens: 3, output_tokens: 2 };
    (LlmResponse::Text(format!("<{prompt}>")), usage)
}

fn query(args: &Vec<PyValue>, kwargs: &Vec<(PyKey, PyValue)>) -> FutureEnd {
    match parse_llm_query(args, kwargs) {
        Ok(request) => {
            let prompt = request.messages.last().unwrap().content.clone();
            let (reply, used) = handle_llm_query(Ok(ask(&prompt)));
            FutureEnd::Llm(reply, used)
        }
        Err(reply) => FutureEnd::Llm(reply, TokenUsage::none()),
    }
}

fn query_batch(args: &Vec<PyValue>, kwargs: &Vec<(PyKey, PyValue)>, shown: &str) -> FutureEnd {
    match parse_llm_query_batched(args, kwargs, shown) {
        Ok(requests) => {
            let answers = requests
                .iter()
                .map(|r| {
                    let (response, usage) = ask(&r.messages.last().unwrap().content);
                    Answer::Given(response, usage)
                })
                .collect();
            let (reply, used) = handle_llm_query_batched(answers);
            FutureEnd::Llm(reply, used)
        }
        Err(reply) => FutureEnd::Llm(reply, TokenUsage::none()),
    }
}

/// Runs a step of code; the actions end with `outcomes`, in the order of their calls.
fn run_with(
    code: &str,
    actions: Vec<ActionDef>,
    outcomes: Vec<ExecOutcome>,
    leases: &mut LeaseManager,
) -> CodeExecutionResult {
    let thread = make_test_thread();
    let policy = PolicyEngine::new();
    let (names, inputs): (Vec<String>, Vec<MontyObject>) =
        build_context_inputs(&thread, &Json::Object(vec![]))
            .into_iter()
            .map(|(n, v)| (n, to_monty(json_to_monty(&v))))
            .unzip();
    let mut run = CodeRun::new(STEP, known_names(&actions, &vec![]));
    let mut outcomes = outcomes.into_iter();
    let mut ended: HashMap<u32, FutureEnd> = HashMap::new();
    let mut stdout = String::new();

    let runner =
        match MontyRun::new(code.to_string(), "step.py", names, CompileOptions::default()) {
            Ok(runner) => runner,
            Err(e) => return parse_failure(&e.to_string()),
        };
    let mut progress = match runner.start(inputs, limits(), printer(&mut stdout)) {
        Ok(p) => p,
        Err(e) => return start_failure(&stdout, &e.to_string()),
    };
    loop {
        let (resumed, failure) = match progress {
            RunProgress::Complete(value) => return run.complete(&to_py(&value), stdout),
            RunProgress::FunctionCall(call) => {
                let args: Vec<PyValue> = call.args.iter().map(to_py).collect();
                let kwargs: Vec<(PyKey, PyValue)> =
                    call.kwargs.iter().map(|(k, v)| (to_key(k), to_py(v))).collect();
                let id = call.call_id;
                let resumed = match run.begin_call(id, &call.function_name, &args, &kwargs) {
                    CallStep::Reply(reply) => {
                        call.resume(to_result(reply), printer(&mut stdout))
                    }
                    CallStep::Query => {
                        ended.insert(id, query(&args, &kwargs));
                        call.resume_pending(printer(&mut stdout))
                    }
                    CallStep::QueryBatch => {
                        let shown = format!("{:?}", call.args.first());
                        ended.insert(id, query_batch(&args, &kwargs, &shown));
                        call.resume_pending(printer(&mut stdout))
                    }
                    CallStep::Wait => call.resume_pending(printer(&mut stdout)),
                    CallStep::Child => panic!("no test runs a child thread"),
                    CallStep::Tool { call_id, params } => {
                        let name = call.function_name.clone();
                        match run.find_lease(leases, THREAD, &name, &call_id, NOW) {
                            Err(reply) => call.resume(to_result(reply), printer(&mut stdout)),
                            Ok(lease) => {
                                let checked = run.preflight_action(
                                    ToolCall {
                                        id,
                                        action_name: name.clone(),
                                        call_id,
                                        params,
                                        summary: None,
                                    },
                                    &lease,
                                    find_definition(&actions, &name),
                                    leases,
                                    &policy,
                                    &vec![],
                                    NOW,
                                );
                                match checked {
                                    PreflightResult::Approved => {
                                        let ok = Json::Object(vec![("result".into(), text("ok"))]);
                                        let end = outcomes.next().unwrap_or(done(&name, ok));
                                        ended.insert(id, FutureEnd::Tool(end));
                                        call.resume_pending(printer(&mut stdout))
                                    }
                                    PreflightResult::Denied(reply) => {
                                        call.resume(to_result(reply), printer(&mut stdout))
                                    }
                                    PreflightResult::GatePaused(outcome) => {
                                        return run.interrupt(outcome, stdout)
                                    }
                                }
                            }
                        }
                    }
                };
                (resumed, ResumeFailure::Call)
            }
            RunProgress::ResolveFutures(resolve) => {
                let ids = resolve.pending_call_ids().to_vec();
                let ends = ids
                    .iter()
                    .map(|id| ended.remove(id).unwrap_or(FutureEnd::Missing))
                    .collect();
                let replies = run.resolve_futures(leases, &ids, ends);
                let results: Vec<_> =
                    replies.into_iter().map(|(id, r)| (id, to_result(r))).collect();
                (resolve.resume(results, printer(&mut stdout)), ResumeFailure::Call)
            }
            RunProgress::NameLookup(lookup) => {
                let result = if run.resolves_name(&lookup.name) {
                    NameLookupResult::Value(MontyObject::Function {
                        name: lookup.name.clone(),
                        docstring: None,
                    })
                } else {
                    NameLookupResult::Undefined
                };
                (lookup.resume(result, printer(&mut stdout)), ResumeFailure::Name)
            }
            RunProgress::OsCall(call) => (
                call.resume(to_result(deny_os_call()), printer(&mut stdout)),
                ResumeFailure::Os,
            ),
        };
        progress = match resumed {
            Ok(p) => p,
            Err(e) => return run.fail(failure, &stdout, &e.to_string()),
        };
    }
}

fn run_code(code: &str, actions: &[&str], outcomes: Vec<ExecOutcome>) -> CodeExecutionResult {
    let actions = actions.iter().map(|n| test_action(n)).collect();
    run_with(code, actions, outcomes, &mut wildcard(None))
}

#[test]
fn single_await_tool_call() {
    let code = r#"
result = await echo(message="hello")
FINAL(str(result))
"#;
    let result = run_code(code, &["echo"], vec![done("echo", text("hello world"))]);
    assert_eq!(result.final_answer.as_deref(), Some("hello world"), "{}", result.stdout);
    assert!(!result.had_error, "{}", result.stdout);
    assert_eq!(result.action_results.len(), 1);
    assert_eq!(
        result.events,
        vec![EventKind::ActionExecuted {
            step_id: STEP,
            action_name: "echo".into(),
            call_id: "code_call_1".into(),
            duration_ms: 1,
            params_summary: None,
        }]
    );
}

#[test]
fn asyncio_gather_two_tools() {
    let code = r#"
import asyncio
a, b = await asyncio.gather(tool_a(), tool_b())
FINAL(str(a + b))
"#;
    let outcomes = vec![done("tool_a", Json::Uint(10)), done("tool_b", Json::Uint(32))];
    let result = run_code(code, &["tool_a", "tool_b"], outcomes);
    assert_eq!(result.final_answer.as_deref(), Some("42"), "{}", result.stdout);
    assert_eq!(result.action_results.len(), 2);
    assert!(!result.had_error);
}

#[test]
fn asyncio_gather_three_tools() {
    let code = r#"
import asyncio
s, h, m = await asyncio.gather(
    web_search(query="test"),
    http(url="https://example.com"),
    memory_search(query="prior"),
)
FINAL(str(s) + "|" + str(h) + "|" + str(m))
"#;
    let outcomes = vec![
        done("web_search", text("search results")),
        done("http", text("page content")),
        done("memory_search", text("memories")),
    ];
    let result = run_code(code, &["web_search", "http", "memory_search"], outcomes);
    assert!(!result.had_error, "{}", result.stdout);
    assert_eq!(result.action_results.len(), 3);
    let answer = result.final_answer.unwrap();
    assert!(answer.contains("search results"), "{answer}");
    assert!(answer.contains("page content"), "{answer}");
    assert!(answer.contains("memories"), "{answer}");
}

#[test]
fn sequential_dependent_calls() {
    let code = r#"
a = await step1()
b = await step2(input=a)
FINAL(str(b))
"#;
    let outcomes = vec![done("step1", text("intermediate")), done("step2", text("final"))];
    let result = run_code(code, &["step1", "step2"], outcomes);
    assert!(!result.had_error, "{}", result.stdout);
    assert_eq!(result.action_results.len(), 2);
    assert_eq!(result.final_answer.as_deref(), Some("final"));
}

#[test]
fn gather_with_error_propagates() {
    let code = r#"
import asyncio
a, b = await asyncio.gather(good(), bad())
FINAL("should not reach")
"#;
    let outcomes =
        vec![done("good", text("ok")), ExecOutcome::Failed("tool exploded".to_string())];
    let result = run_code(code, &["good", "bad"], outcomes);
    assert!(result.had_error, "{}", result.stdout);
    assert!(result.final_answer.is_none());
    assert!(result.stdout.contains("tool exploded"), "{}", result.stdout);
    assert_eq!(result.action_results.len(), 2);
    let failed: Vec<&str> = result
        .action_results
        .iter()
        .filter(|r| r.is_error)
        .map(|r| r.action_name.as_str())
        .collect();
    assert_eq!(failed, vec!["bad"]);
}

#[test]
fn denied_tool_raises_exception() {
    let code = r#"
try:
    result = await unknown_tool()
    FINAL("should not reach")
except:
    FINAL("caught error")
"#;
    let result = run_code(code, &[], vec![]);
    assert!(result.final_answer.is_some(), "{}", result.stdout);
}

#[test]
fn final_is_sync() {
    let result = run_code("\nFINAL(\"hello from sync\")\n", &[], vec![]);
    assert_eq!(result.final_answer.as_deref(), Some("hello from sync"));
    assert!(!result.had_error);
}

#[test]
fn globals_returns_known_tools() {
    let code = r#"
g = globals()
has_search = "web_search" in g
has_http = "http" in g
FINAL(str(has_search) + "|" + str(has_http))
"#;
    let result = run_code(code, &["web_search", "http"], vec![]);
    assert!(!result.had_error, "{}", result.stdout);
    assert_eq!(result.final_answer.as_deref(), Some("True|True"));
}

#[test]
fn empty_gather() {
    let code = r#"
import asyncio
results = await asyncio.gather()
FINAL(str(len(results)))
"#;
    let result = run_code(code, &[], vec![]);
    assert!(!result.had_error, "{}", result.stdout);
    assert_eq!(result.final_answer.as_deref(), Some("0"));
}

#[test]
fn single_item_gather() {
    let code = r#"
import asyncio
results = await asyncio.gather(echo())
FINAL(str(results[0]))
"#;
    let result = run_code(code, &["echo"], vec![done("echo", text("gathered"))]);
    assert!(!result.had_error, "{}", result.stdout);
    assert_eq!(result.final_answer.as_deref(), Some("gathered"));
    assert_eq!(result.action_results.len(), 1);
}

fn is_blocked(code: &str) {
    let result = run_code(code, &[], vec![]);
    let answer = result.final_answer.as_deref().unwrap_or("");
    assert!(!answer.starts_with("ESCAPED"), "{answer}");
}

#[test]
fn sandbox_denies_os_operations() {
    is_blocked(
        r#"
try:
    import os
    os.system("echo pwned")
    FINAL("ESCAPED: os.system ran")
except Exception as e:
    FINAL("blocked: " + type(e).__name__)
"#,
    );
}

#[test]
fn sandbox_restricts_imports() {
    is_blocked(
        r#"
try:
    import subprocess
    result = subprocess.run(["echo", "escaped"], capture_output=True, text=True)
    FINAL("ESCAPED: " + result.stdout)
except Exception as e:
    FINAL("blocked: " + type(e).__name__)
"#,
    );
}

#[test]
fn sandbox_denies_file_access() {
    is_blocked(
        r#"
try:
    f = open("/etc/passwd", "r")
    content = f.read()
    f.close()
    FINAL("ESCAPED: " + content[:50])
except Exception as e:
    FINAL("blocked: " + type(e).__name__)
"#,
    );
}

#[test]
fn sandbox_denies_socket_access() {
    is_blocked(
        r#"
try:
    import socket
    s = socket.socket(socket.AF_INET, socket.SOCK_STREAM)
    s.connect(("127.0.0.1", 80))
    FINAL("ESCAPED: connected")
except Exception as e:
    FINAL("blocked: " + type(e).__name__)
"#,
    );
}

fn is_stopped(code: &str) {
    let result = run_code(code, &[], vec![]);
    assert!(result.had_error, "{}", result.stdout);
    assert!(result.final_answer.is_none());
}

#[test]
fn sandbox_enforces_resource_limits() {
    is_stopped("\ndata = []\nwhile True:\n    data.append(\"x\" * 10000)\n");
}

#[test]
fn sandbox_enforces_cpu_limits() {
    is_stopped("\nx = 0\nwhile True:\n    x += 1\n");
}

#[test]
fn sandbox_unlicensed_tool_denied() {
    let mut leases = LeaseManager::new();
    leases
        .grant(
            LeaseId(7),
            NOW,
            THREAD,
            "tools".into(),
            GrantedActions::Specific(vec!["allowed_tool".into()]),
            None,
            None,
        )
        .unwrap();
    let code = r#"
try:
    result = await secret_admin_tool(data="pwn")
    FINAL("ESCAPED: " + str(result))
except Exception as e:
    FINAL("blocked: " + type(e).__name__)
"#;
    let result = run_with(code, vec![test_action("allowed_tool")], vec![], &mut leases);
    let answer = result.final_answer.as_deref().unwrap_or("");
    assert!(!answer.starts_with("ESCAPED"), "{answer}");
}

#[test]
fn sandbox_final_captures_answer() {
    let result = run_code("\nx = 2 + 3\nFINAL(str(x))\n", &[], vec![]);
    assert_eq!(result.final_answer.as_deref(), Some("5"));
}

#[test]
fn sandbox_handles_syntax_error() {
    let result = run_code("def broken(\nFINAL('nope')", &[], vec![]);
    assert!(result.had_error);
    assert!(result.stdout.starts_with("SyntaxError: "), "{}", result.stdout);
}

#[test]
fn a_call_without_a_use_left_is_denied() {
    let code = r#"
a = await echo()
try:
    b = await echo()
    FINAL("ran twice")
except Exception as e:
    FINAL(str(e))
"#;
    let mut leases = wildcard(Some(1));
    let result = run_with(code, vec![test_action("echo")], vec![], &mut leases);
    assert_eq!(result.final_answer.as_deref(), Some("no lease for action 'echo'"));
    assert_eq!(result.action_results.len(), 1);
    assert!(matches!(
        result.events.last(),
        Some(EventKind::ActionFailed { error, call_id, .. })
            if error == "no lease for action 'echo'" && call_id == "code_call_2"
    ));
}

#[test]
fn a_call_that_needs_approval_interrupts_the_step() {
    let action = ActionDef { requires_approval: true, ..test_action("shell") };
    let mut leases = wildcard(Some(2));
    let result =
        run_with("print('before')\nawait shell(cmd='ls')", vec![action], vec![], &mut leases);
    let parameters = Json::Object(vec![("cmd".into(), text("ls"))]);
    assert_eq!(
        result.need_approval,
        Some(ThreadOutcome::GatePaused {
            gate_name: "approval".into(),
            action_name: "shell".into(),
            call_id: "code_call_1".into(),
            parameters,
            resume_kind: ResumeKind::Approval { allow_always: true },
            resume_output: None,
        })
    );
    assert_eq!(result.stdout, "before\n");
    assert_eq!(result.final_answer, None);
    let left = leases.check(LeaseId(7), NOW).unwrap().uses_remaining;
    assert_eq!(left, Some(2));
}

#[test]
fn a_paused_call_gives_its_use_back_and_raises() {
    let code = r#"
try:
    await deploy()
except Exception as e:
    FINAL(str(e))
"#;
    let paused = ExecOutcome::Paused(GatePause {
        gate_name: "auth".into(),
        action_name: "deploy".into(),
        call_id: "inner".into(),
        parameters: Json::Null,
        resume_kind: ResumeKind::External { callback_id: "cb".into() },
        resume_output: None,
        params_summary: None,
    });
    let mut leases = wildcard(Some(1));
    let result = run_with(code, vec![test_action("deploy")], vec![paused], &mut leases);
    assert_eq!(result.final_answer.as_deref(), Some("execution paused by gate 'auth'"));
    assert_eq!(leases.check(LeaseId(7), NOW).unwrap().uses_remaining, Some(1));
    assert_eq!(
        result.events,
        vec![EventKind::ApprovalRequested {
            action_name: "deploy".into(),
            call_id: "inner".into(),
            parameters: Some(Json::Object(vec![])),
            description: None,
            allow_always: None,
            gate_name: Some("auth".into()),
            params_summary: None,
        }]
    );
}

#[test]
fn code_asks_the_model() {
    let code = r#"
import asyncio
one = await llm_query("alpha", context="beta")
many = await llm_query_batched(["x", "y"])
FINAL(one + "|" + many[0] + "|" + many[1])
"#;
    let result = run_code(code, &[], vec![]);
    assert_eq!(result.final_answer.as_deref(), Some("<alpha>|<x>|<y>"), "{}", result.stdout);
    assert_eq!(result.recursive_tokens, TokenUsage { input_tokens: 9, output_tokens: 6 });
}

#[test]
fn a_named_variable_can_be_the_answer() {
    let result = run_code("answer = 3\nFINAL_VAR(\"answer\")", &[], vec![]);
    assert_eq!(result.final_answer.as_deref(), Some("[FINAL_VAR: answer]"));
    let result = run_code("FINAL_VAR()", &[], vec![]);
    assert_eq!(result.final_answer.as_deref(), Some("[FINAL_VAR: result]"));
}

#[test]
fn code_sees_its_context() {
    let result = run_code("FINAL(goal + str(step_number) + user_timezone)", &[], vec![]);
    assert_eq!(result.final_answer.as_deref(), Some("test goal0UTC"));
}

#[test]
fn an_unknown_name_is_an_error() {
    let result = run_code("print('x')\nmissing", &[], vec![]);
    assert!(result.had_error);
    assert!(result.stdout.starts_with("x\n"), "{}", result.stdout);
    assert!(result.stdout.contains("missing"), "{}", result.stdout);
}

#[test]
fn a_lost_task_raises() {
    let mut run = CodeRun::new(STEP, vec!["echo".into()]);
    let mut leases = wildcard(None);
    let step = run.begin_call(5, "echo", &vec![], &vec![]);
    let CallStep::Tool { call_id, params } = step else { panic!("an action is called") };
    let lease = run.find_lease(&leases, THREAD, "echo", &call_id, NOW).unwrap();
    let call = ToolCall { id: 5, action_name: "echo".into(), call_id, params, summary: None };
    let checked = run.preflight_action(
        call,
        &lease,
        None,
        &mut leases,
        &PolicyEngine::new(),
        &vec![],
        NOW,
    );
    assert_eq!(checked, PreflightResult::Approved);
    let replies = run.resolve_futures(
        &mut leases,
        &vec![5, 6],
        vec![FutureEnd::ToolLost("gone".into()), FutureEnd::Missing],
    );
    let raised = |message: &str| HostReply::Raise {
        kind: ExcKind::RuntimeError,
        message: message.to_string(),
    };
    assert_eq!(
        replies,
        vec![
            (5, raised("tool execution panicked: gone")),
            (6, raised("unknown pending call_id 6")),
        ]
    );
    assert!(matches!(run.begin_call(7, "llm_query", &vec![], &vec![]), CallStep::Query));
    let reply = run.resolve_future(&mut leases, 7, FutureEnd::LlmLost("gone".into()));
    assert_eq!(reply, raised("LLM call panicked: gone"));
}

/// What an expression of the orchestrator is.
fn eval_python_bool(expression: &str) -> bool {
    let code = format!("FINAL({expression})");
    let runner =
        MontyRun::new(code, "orchestrator.py", vec![], CompileOptions::default()).unwrap();
    let mut stdout = String::new();
    let mut given = None;
    let mut progress = runner.start(vec![], limits(), printer(&mut stdout)).unwrap();
    loop {
        progress = match progress {
            RunProgress::Complete(_) => break,
            RunProgress::FunctionCall(call) => {
                let args: Vec<PyValue> = call.args.iter().map(to_py).collect();
                let reply = match dispatch(&call.function_name) {
                    Some(HostFunction::Final) => {
                        given = Some(monty_to_json(&args[0]));
                        HostReply::Return(Json::Null)
                    }
                    Some(HostFunction::RegexMatch) => handle_regex_match(&args),
                    _ => HostReply::NotFound(call.function_name.clone()),
                };
                call.resume(to_result(reply), printer(&mut stdout)).unwrap()
            }
            RunProgress::NameLookup(lookup) => {
                lookup.resume(NameLookupResult::Undefined, printer(&mut stdout)).unwrap()
            }
            _ => panic!("the orchestrator stops for nothing else"),
        };
    }
    given == Some(Json::Bool(true))
}

#[test]
fn regex_match_host_function_is_callable_from_monty() {
    assert!(eval_python_bool(r#"bool(__regex_match__("abc", "xxabcxx"))"#));
    assert!(!eval_python_bool(r#"bool(__regex_match__("zzz", "xxabcxx"))"#));
    assert!(!eval_python_bool(r#"bool(__regex_match__("[", "abc"))"#));
}

#[test]
fn wide_numbers_come_back_as_floats() {
    let handed = json_to_monty(&Json::Uint(u64::MAX));
    assert_eq!(handed, PyInput::Wide(u64::MAX));
    let held = to_py(&to_monty(handed));
    assert_eq!(monty_to_string(&held), "18446744073709552000");
    assert_eq!(monty_to_json(&held), Json::Float("1.8446744073709552e19".to_string()));
    assert_eq!(json_to_monty(&Json::Uint(7)), PyInput::Int(7));
}

//! Actions that the orchestrator calls, and what it is told of them.

use ironclaw::capability::lease::LeaseManager;
use ironclaw::capability::policy::PolicyEngine;
use ironclaw::executor::calls::{ExecOutcome, GatePause};
use ironclaw::executor::code_step::{code_step_failed, handle_execute_code_step};
use ironclaw::executor::host_actions::{
    admit_action, advance_parallel, execute_single_action, find_action_lease,
    handle_execute_action, handle_execute_actions_parallel, interrupt_parallel,
    interrupted_result_needs_refund, parse_action_request, parse_action_requests, settle_action,
    ActionRequest, Admission, ParallelSlot,
};
use ironclaw::executor::llm::TokenUsage;
use ironclaw::executor::orchestrator::{handle_check_budget, handle_get_actions};
use ironclaw::executor::output::{
    build_context_inputs, build_orientation_preamble, compact_output_metadata,
};
use ironclaw::executor::queries::{
    child_policy, child_usage, grant_child_leases, handle_rlm_query, parse_llm_query,
    parse_llm_query_batched, start_child,
};
use ironclaw::executor::scripting::CodeExecutionResult;
use ironclaw::executor::value::{ExcKind, HostReply, PyKey, PyValue};
use ironclaw::gate::ResumeKind;
use ironclaw::json::Json;
use ironclaw::types::capability::{ActionDef, EffectType, GrantedActions};
use ironclaw::types::event::{EventKind, ThreadOutcome};
use ironclaw::types::ids::{LeaseId, ProjectId, StepId, ThreadId};
use ironclaw::types::message::{ActionResult, ThreadMessage};
use ironclaw::types::thread::{Thread, ThreadConfig, ThreadType};
use serde_json::Value;

const NOW: i128 = 1_000;
const THREAD: ThreadId = ThreadId(1);
const STEP: StepId = StepId(2);

fn from_value(v: Value) -> Json {
    match v {
        Value::Null => Json::Null,
        Value::Bool(b) => Json::Bool(b),
        Value::Number(n) => match (n.as_u64(), n.as_i64()) {
            (Some(u), _) => Json::Uint(u),
            (None, Some(i)) => Json::Int(i),
            (None, None) => Json::Float(n.to_string()),
        },
        Value::String(s) => Json::Str(s),
        Value::Array(a) => Json::Array(a.into_iter().map(from_value).collect()),
        Value::Object(o) => {
            Json::Object(o.into_iter().map(|(k, v)| (k, from_value(v))).collect())
        }
    }
}

fn json(text: &str) -> Json {
    from_value(serde_json::from_str(text).unwrap())
}

fn told(text: &str) -> HostReply {
    HostReply::Return(json(text))
}

fn config() -> ThreadConfig {
    ThreadConfig {
        max_iterations: 50,
        max_duration_ms: Some(10_000),
        max_tokens_total: Some(100),
        max_budget_usd: Json::Null,
        model_context_limit: 128_000,
        enable_compaction: false,
        compaction_threshold: Json::Float("0.85".into()),
        depth: 0,
        max_depth: 1,
        max_consecutive_errors: 5,
        max_tool_intent_nudges: 2,
        enable_tool_intent_nudge: true,
    }
}

fn thread() -> Thread {
    Thread::new(THREAD, NOW, "goal", ThreadType::Foreground, ProjectId(3), "user", config())
}

fn action(name: &str, requires_approval: bool) -> ActionDef {
    ActionDef {
        name: name.into(),
        description: "Test tool".into(),
        parameters_schema: json(r#"{"type": "object"}"#),
        effects: vec![EffectType::ReadLocal],
        requires_approval,
    }
}

fn request(name: &str, call_id: &str) -> ActionRequest {
    ActionRequest {
        name: name.into(),
        params: json(r#"{"q": 1}"#),
        call_id: call_id.into(),
        summary: Some("q".into()),
    }
}

fn wildcard(max_uses: Option<u32>) -> LeaseManager {
    let mut leases = LeaseManager::new();
    leases
        .grant(LeaseId(7), NOW, THREAD, "tools".into(), GrantedActions::All, None, max_uses)
        .unwrap();
    leases
}

fn uses_left(leases: &LeaseManager) -> Option<u32> {
    leases.check(LeaseId(7), NOW).unwrap().uses_remaining
}

fn done(name: &str, output: Json, is_error: bool) -> ExecOutcome {
    ExecOutcome::Done(ActionResult {
        call_id: String::new(),
        action_name: name.into(),
        output,
        is_error,
        duration_ms: 12,
    })
}

fn paused() -> ExecOutcome {
    ExecOutcome::Paused(GatePause {
        gate_name: "auth".into(),
        action_name: "other".into(),
        call_id: "inner".into(),
        parameters: json(r#"{"p": 2}"#),
        resume_kind: ResumeKind::Approval { allow_always: false },
        resume_output: Some(json("3")),
        params_summary: None,
    })
}

fn let_in(
    q: &ActionRequest,
    action: Option<&ActionDef>,
    leases: &mut LeaseManager,
    policy: &PolicyEngine,
) -> Admission {
    let lease = find_action_lease(q, THREAD, leases, STEP, NOW).unwrap();
    admit_action(q, THREAD, &lease, action, leases, policy, STEP, NOW)
}

#[test]
fn requests_are_read_from_arguments() {
    let args = vec![PyValue::Str("echo".into()), PyValue::Dict(vec![])];
    let kwargs = vec![(PyKey::Str("call_id".into()), PyValue::Str("c1".into()))];
    let q = parse_action_request(&args, &kwargs, None).unwrap();
    assert_eq!(
        q,
        ActionRequest {
            name: "echo".into(),
            params: json("{}"),
            call_id: "c1".into(),
            summary: None,
        }
    );
    assert_eq!(
        parse_action_request(&vec![], &vec![], None),
        Err(HostReply::Raise {
            kind: ExcKind::TypeError,
            message: "__execute_action__ requires a name argument".into(),
        })
    );
    let one = PyValue::Dict(vec![
        (PyKey::Str("name".into()), PyValue::Str("a".into())),
        (PyKey::Str("params".into()), PyValue::Int(5)),
    ]);
    let all = parse_action_requests(&vec![PyValue::List(vec![one, PyValue::Nil])]).unwrap();
    assert_eq!(all.len(), 2);
    assert_eq!((all[0].name.as_str(), &all[0].params), ("a", &json("5")));
    assert_eq!((all[1].name.as_str(), &all[1].params), ("", &json("{}")));
    assert!(parse_action_requests(&vec![PyValue::Int(1)]).is_err());
    assert_eq!(parse_action_requests(&vec![]), Ok(vec![]));
}

#[test]
fn a_call_without_a_lease_is_reported() {
    let leases = LeaseManager::new();
    let report = find_action_lease(&request("echo", "c"), THREAD, &leases, STEP, NOW).unwrap_err();
    let mut t = thread();
    let reply = handle_execute_action(&mut t, report, 2_000);
    assert_eq!(
        reply,
        told(r#"{"is_error": true, "output": {"error": "No lease for action 'echo'"}}"#)
    );
    assert_eq!(t.events.len(), 1);
    assert_eq!(t.updated_at, 2_000);
    assert_eq!(
        t.events[0].kind,
        EventKind::ActionFailed {
            step_id: STEP,
            action_name: "echo".into(),
            call_id: "c".into(),
            error: "No lease for action 'echo'".into(),
            params_summary: None,
        }
    );
}

#[test]
fn policy_decides_before_a_use_is_taken() {
    let mut leases = wildcard(Some(2));
    let q = request("echo", "c");
    let mut strict = PolicyEngine::new();
    strict.deny_effect(EffectType::ReadLocal);
    match let_in(&q, Some(&action("echo", false)), &mut leases, &strict) {
        Admission::Fail(report) => {
            let HostReply::Return(result) = handle_execute_action(&mut thread(), report, NOW)
            else {
                panic!("a denial is no exception")
            };
            let error = result.get("output").unwrap().str_field("error").unwrap();
            assert!(error.starts_with("Denied: effect type ReadLocal"), "{error}");
        }
        other => panic!("expected a failure, got {other:?}"),
    }
    let policy = PolicyEngine::new();
    match let_in(&q, Some(&action("echo", true)), &mut leases, &policy) {
        Admission::Pause(report) => {
            assert!(interrupted_result_needs_refund(&report.result));
            assert_eq!(
                report.result,
                json(
                    r#"{"gate_paused": true, "gate_name": "approval", "action_name": "echo",
                        "call_id": "c", "parameters": {"q": 1},
                        "resume_kind": {"Approval": {"allow_always": true}}}"#
                )
            );
        }
        other => panic!("expected a pause, got {other:?}"),
    }
    assert_eq!(uses_left(&leases), Some(2));
    assert!(matches!(
        let_in(&q, Some(&action("echo", false)), &mut leases, &policy),
        Admission::Run(_)
    ));
    assert_eq!(uses_left(&leases), Some(1));
}

#[test]
fn ends_of_actions_are_reported() {
    let q = request("echo", "c");
    let ran = execute_single_action(done("echo", json(r#"{"x": 1}"#), false), &q, STEP);
    assert_eq!(
        ran.result,
        json(r#"{"action_name": "echo", "output": {"x": 1}, "is_error": false, "duration_ms": 12}"#)
    );
    assert!(matches!(
        ran.event,
        EventKind::ActionExecuted { duration_ms: 12, ref params_summary, .. }
            if params_summary.as_deref() == Some("q")
    ));
    let reported = execute_single_action(done("echo", json(r#"{"error": "no"}"#), true), &q, STEP);
    assert!(matches!(reported.event, EventKind::ActionFailed { ref error, .. } if error == "no"));
    let shown = execute_single_action(done("echo", json(r#"{"b": 1}"#), true), &q, STEP);
    assert!(
        matches!(shown.event, EventKind::ActionFailed { ref error, .. } if error == r#"{"b":1}"#)
    );
    let failed = execute_single_action(ExecOutcome::Failed("boom".into()), &q, STEP);
    assert_eq!(failed.result, json(r#"{"is_error": true, "output": {"error": "boom"}}"#));
    let stopped = execute_single_action(paused(), &q, STEP);
    assert_eq!(
        stopped.result,
        json(
            r#"{"gate_paused": true, "gate_name": "auth", "action_name": "echo",
                "call_id": "c", "parameters": {"p": 2},
                "resume_kind": {"Approval": {"allow_always": false}}, "resume_output": 3}"#
        )
    );
}

#[test]
fn only_a_paused_action_gives_its_use_back() {
    let q = request("echo", "c");
    let policy = PolicyEngine::new();
    for (outcome, left) in [
        (paused(), 3),
        (done("echo", Json::Null, false), 2),
        (ExecOutcome::Failed("boom".into()), 2),
    ] {
        let mut leases = wildcard(Some(3));
        let Admission::Run(lease) = let_in(&q, None, &mut leases, &policy) else {
            panic!("the call may run")
        };
        settle_action(outcome, &q, lease.id, &mut leases, STEP);
        assert_eq!(uses_left(&leases), Some(left));
    }
}

#[test]
fn parallel_actions_are_answered_in_order() {
    let mut leases = LeaseManager::new();
    leases
        .grant(
            LeaseId(7),
            NOW,
            THREAD,
            "tools".into(),
            GrantedActions::Specific(vec!["a".into(), "b".into()]),
            None,
            None,
        )
        .unwrap();
    let calls = vec![request("a", "1"), request("missing", "2"), request("b", "3")];
    let policy = PolicyEngine::new();
    let mut slots: Vec<ParallelSlot> = vec![];
    while let Some(lease) = advance_parallel(&calls, &mut slots, THREAD, &leases, STEP, NOW) {
        let q = &calls[slots.len()];
        match admit_action(q, THREAD, &lease, None, &mut leases, &policy, STEP, NOW) {
            Admission::Run(lease) => slots.push(ParallelSlot::Runnable(lease)),
            other => panic!("the call may run, got {other:?}"),
        }
    }
    assert_eq!(slots.len(), 3);
    let end = settle_action(
        done("b", json("2"), false),
        &calls[2],
        LeaseId(7),
        &mut leases,
        STEP,
    );
    slots[2] = ParallelSlot::Reported(end);
    let mut t = thread();
    let reply = handle_execute_actions_parallel(&mut t, slots, NOW);
    assert_eq!(
        reply,
        told(
            r#"[{"is_error": true, "output": {"error": "execution slot empty"}},
                {"is_error": true, "output": {"error": "No lease for action 'missing'"}},
                {"action_name": "b", "output": 2, "is_error": false, "duration_ms": 12}]"#
        )
    );
    assert_eq!(t.events.len(), 2);
}

#[test]
fn approval_interrupts_parallel_actions() {
    let mut leases = wildcard(None);
    let policy = PolicyEngine::new();
    let (first, second) = (request("a", "1"), request("b", "2"));
    let Admission::Run(lease) = let_in(&first, None, &mut leases, &policy) else {
        panic!("the call may run")
    };
    let asked = action("b", true);
    let Admission::Pause(report) = let_in(&second, Some(&asked), &mut leases, &policy) else {
        panic!("the call needs approval")
    };
    let mut t = thread();
    let slots = vec![ParallelSlot::Runnable(lease)];
    let HostReply::Return(Json::Array(results)) = interrupt_parallel(&mut t, slots, report, NOW)
    else {
        panic!("a list is returned")
    };
    assert_eq!(results.len(), 2);
    assert_eq!(results[0], Json::Null);
    assert_eq!(results[1].bool_field("gate_paused"), Some(true));
    assert_eq!(t.events.len(), 1);
    assert!(matches!(t.events[0].kind, EventKind::ApprovalRequested { .. }));
}

fn code_result(stdout: &str, had_error: bool) -> CodeExecutionResult {
    CodeExecutionResult {
        return_value: json("7"),
        stdout: stdout.into(),
        action_results: vec![ActionResult {
            call_id: "c".into(),
            action_name: "echo".into(),
            output: json("1"),
            is_error: false,
            duration_ms: 4,
        }],
        events: vec![EventKind::StepStarted { step_id: STEP }],
        need_approval: None,
        recursive_tokens: TokenUsage::none(),
        final_answer: Some("x".into()),
        had_error,
    }
}

#[test]
fn steps_of_code_are_reported() {
    let mut t = thread();
    let reply = handle_execute_code_step(&mut t, code_result("out", false), STEP, 3_000);
    assert_eq!(
        reply,
        told(
            r#"{"return_value": 7, "stdout": "out", "final_answer": "x", "had_error": false,
                "action_results": [{"action_name": "echo", "output": 1, "is_error": false,
                                    "duration_ms": 4}],
                "pending_gate": null}"#
        )
    );
    assert_eq!(t.events.len(), 1);
    handle_execute_code_step(&mut t, code_result(&"e".repeat(600), true), STEP, 3_000);
    assert_eq!(t.events.len(), 3);
    match &t.events[2].kind {
        EventKind::ActionFailed { action_name, call_id, error, .. } => {
            assert_eq!(action_name, "__codeact__");
            assert_eq!(call_id, "codeact-step-00000000-0000-0000-0000-000000000002");
            assert_eq!(*error, format!("CodeAct execution failed: {}", "e".repeat(500)));
        }
        other => panic!("expected ActionFailed, got {other:?}"),
    }
    assert_eq!(
        code_step_failed("boom"),
        HostReply::Raise {
            kind: ExcKind::RuntimeError,
            message: "Code execution failed: boom".into(),
        }
    );
}

#[test]
fn the_budget_that_is_left_is_told() {
    let mut t = thread();
    t.total_tokens_used = 30;
    let later = NOW + 4_000_000_000;
    assert_eq!(
        handle_check_budget(&t, Json::Null, later),
        told(r#"{"tokens_remaining": 70, "time_remaining_ms": 6000, "usd_remaining": null}"#)
    );
    t.total_tokens_used = 130;
    t.config.max_duration_ms = None;
    assert_eq!(
        handle_check_budget(&t, json("1.5"), NOW),
        told(
            r#"{"tokens_remaining": 0, "time_remaining_ms": 18446744073709551615,
                "usd_remaining": 1.5}"#
        )
    );
    assert_eq!(
        handle_get_actions(&vec![action("echo", false)]),
        told(r#"[{"name": "echo", "description": "Test tool", "params": {"type": "object"}}]"#)
    );
}

#[test]
fn output_is_summed_up() {
    assert_eq!(compact_output_metadata("", &Json::Null), "[code executed, no output]");
    assert_eq!(compact_output_metadata("hi", &Json::Null), "[FULL OUTPUT: 2 chars]\nhi");
    assert_eq!(
        compact_output_metadata("hi", &json(r#"{"a": 1}"#)),
        "[FULL OUTPUT: 2 chars]\nhi\nReturn value: {\n  \"a\": 1\n}"
    );
    let long = "\u{e9}".repeat(8_001);
    assert_eq!(
        compact_output_metadata(&long, &Json::Null),
        format!("[TRUNCATED: last 8000 of 8001 chars shown]\n{}", "\u{e9}".repeat(8_000))
    );
    assert_eq!(
        compact_output_metadata("", &Json::Str("x".repeat(300))),
        format!("Return value (302 chars): \"{}...", "x".repeat(199))
    );
}

#[test]
fn floats_are_written_as_they_are_held() {
    let mut bits: u64 = 0x3ff0_0000_0000_0001;
    let mut seen = 0;
    for _ in 0..20_000 {
        bits = bits.wrapping_mul(6_364_136_223_846_793_005).wrapping_add(1_442_695_040_888_963_407);
        let Some(n) = serde_json::Number::from_f64(f64::from_bits(bits)) else { continue };
        let text = n.to_string();
        let shown = compact_output_metadata("", &Json::Float(text.clone()));
        assert_eq!(shown, format!("Return value: {text}"));
        seen += 1;
    }
    assert!(seen > 10_000);
}

#[test]
fn results_stand_in_the_order_of_their_calls() {
    let mut t = thread();
    t.messages = vec![
        ThreadMessage::action_result("c2", "echo", "two"),
        ThreadMessage::action_result("c1", "echo", "one"),
        ThreadMessage::action_result("c2", "echo", "again"),
    ];
    let inputs = build_context_inputs(&t, &Json::Null);
    let entry = |k: &str, v: &str| (k.to_string(), Json::Str(v.to_string()));
    assert_eq!(inputs[4].1, Json::Object(vec![entry("c2", "again"), entry("c1", "one")]));
}

#[test]
fn child_threads_count_where_they_ran() {
    let mut t = thread();
    t.total_tokens_used = 12;
    let ran = child_usage(&t, true);
    assert_eq!((ran.input_tokens, ran.output_tokens), (12, 0));
    let failed = child_usage(&t, false);
    assert_eq!((failed.input_tokens, failed.output_tokens), (0, 0));
}

#[test]
fn orientation_counts_characters() {
    let mut t = thread();
    t.messages = vec![ThreadMessage::user("\u{20ac}\u{20ac}")];
    assert!(build_orientation_preamble(&t).contains("1 messages, 2 total chars, 1 from user"));
}

#[test]
fn the_model_is_oriented() {
    let mut t = thread();
    t.step_count = 2;
    t.messages = vec![ThreadMessage::system("sys"), ThreadMessage::user(&"u".repeat(501))];
    assert_eq!(
        build_orientation_preamble(&t),
        format!(
            "[Step 0 \u{2014} Context Orientation]\nGoal: goal\nContext: 2 messages, 504 total \
             chars, 1 from user\nStep: 3\nLast user message preview: {}...",
            "u".repeat(500)
        )
    );
    t.messages.push(ThreadMessage::action_result("c9", "echo", "done"));
    t.metadata = json(r#"{"user_timezone": "Europe/Berlin"}"#);
    let inputs = build_context_inputs(&t, &json(r#"{"k": 1}"#));
    let names: Vec<&str> = inputs.iter().map(|(n, _)| n.as_str()).collect();
    assert_eq!(
        names,
        ["context", "goal", "step_number", "state", "previous_results", "user_timezone"]
    );
    assert_eq!(inputs[2].1, json("2"));
    assert_eq!(inputs[3].1, json(r#"{"k": 1}"#));
    assert_eq!(inputs[4].1, json(r#"{"c9": "done"}"#));
    assert_eq!(inputs[5].1, json(r#""Europe/Berlin""#));
}

#[test]
fn questions_are_put_to_the_model() {
    let asked = parse_llm_query(&vec![PyValue::Str("p".into())], &vec![]).unwrap();
    assert!(asked.force_text);
    assert_eq!(asked.messages.len(), 2);
    assert_eq!(
        asked.messages[0].content,
        "You are a helpful sub-agent. Answer concisely."
    );
    let args = vec![PyValue::Str("p".into()), PyValue::Str("ctx".into())];
    let asked = parse_llm_query(&args, &vec![]).unwrap();
    assert_eq!(
        asked.messages[0].content,
        "You are a sub-agent. Answer concisely based on the context.\n\nctx"
    );
    assert!(parse_llm_query(&vec![], &vec![]).is_err());
    let wrong = parse_llm_query_batched(&vec![PyValue::Int(1)], &vec![], "Int(1)");
    assert_eq!(
        wrong,
        Err(HostReply::Raise {
            kind: ExcKind::TypeError,
            message: "llm_query_batched() expects a list of prompts, got Int(1)".into(),
        })
    );
}

#[test]
fn children_are_nested_and_bounded() {
    let mut parent = thread();
    parent.total_tokens_used = 60;
    let args = vec![PyValue::Str("sub".into())];
    let mut child =
        start_child(&args, &vec![], &parent, config(), Json::Null, ThreadId(9), NOW).unwrap();
    assert_eq!(child.parent_id, Some(THREAD));
    assert_eq!(child.thread_type, ThreadType::Research);
    assert_eq!(child.goal, "sub");
    assert_eq!(child.config.depth, 1);
    assert_eq!(child.config.max_iterations, 20);
    assert_eq!(child.config.max_tokens_total, Some(40));
    assert!(!child.config.enable_tool_intent_nudge);
    assert_eq!(child.messages.len(), 1);

    let mut leases = LeaseManager::new();
    let mut granted = wildcard(Some(2)).active_for_thread(THREAD, NOW);
    granted[0].expires_at = Some(NOW + 500);
    grant_child_leases(&mut child, &mut leases, &granted, &vec![LeaseId(70)], NOW);
    assert_eq!(child.capability_leases, vec![LeaseId(70)]);
    let lease = leases.check(LeaseId(70), NOW).unwrap();
    assert_eq!(lease.thread_id, ThreadId(9));
    assert_eq!(lease.expires_at, Some(NOW + 500));

    let refused =
        start_child(&args, &vec![], &child, config(), Json::Null, ThreadId(10), NOW);
    assert_eq!(
        refused,
        Err(HostReply::Raise {
            kind: ExcKind::RuntimeError,
            message: "rlm_query() depth limit reached: depth 1 >= max 1".into(),
        })
    );
    let mut policy = PolicyEngine::new();
    policy.deny_effect(EffectType::Financial);
    let pay = ActionDef { effects: vec![EffectType::Financial], ..action("pay", false) };
    let decision = child_policy(&policy).evaluate(&pay, &lease, &vec![], NOW);
    assert!(matches!(decision, ironclaw::capability::policy::PolicyDecision::Deny { .. }));
}

#[test]
fn ends_of_children_are_told() {
    let text = |s: &str| HostReply::Return(Json::Str(s.into()));
    let completed = ThreadOutcome::Completed { response: Some("r".into()) };
    assert_eq!(handle_rlm_query(Ok(completed)), text("r"));
    let failed = ThreadOutcome::Failed { error: "e".into() };
    assert_eq!(handle_rlm_query(Ok(failed)), text("rlm_query child failed: e"));
    assert_eq!(
        handle_rlm_query(Ok(ThreadOutcome::MaxIterations)),
        text("rlm_query child reached max iterations")
    );
    assert_eq!(handle_rlm_query(Ok(ThreadOutcome::Stopped)), text(""));
    assert_eq!(
        handle_rlm_query(Err("lost".into())),
        HostReply::Raise {
            kind: ExcKind::RuntimeError,
            message: "rlm_query failed: lost".into(),
        }
    );
}

use ironclaw::capability::lease::LeaseManager;
use ironclaw::capability::policy::PolicyEngine;
use ironclaw::executor::calls::{find_definition, ExecOutcome, GatePause};
use ironclaw::executor::structured::{
    advance_batch, interrupt_batch, merge_batch, preflight_decide, settle, ActionBatchResult,
    Slot, Verdict,
};
use ironclaw::gate::ResumeKind;
use ironclaw::json::Json;
use ironclaw::types::capability::{ActionDef, EffectType, GrantedActions};
use ironclaw::types::event::{EventKind, ThreadOutcome};
use ironclaw::types::ids::{LeaseId, StepId, ThreadId};
use ironclaw::types::message::{ActionCall, ActionResult};

const NOW: i128 = 1_000;
const THREAD: ThreadId = ThreadId(1);
const STEP: StepId = StepId(2);

fn empty() -> Json {
    Json::Object(vec![])
}

fn one(key: &str, value: &str) -> Json {
    Json::Object(vec![(key.to_string(), Json::Str(value.to_string()))])
}

fn test_action(name: &str) -> ActionDef {
    ActionDef {
        name: name.into(),
        description: "Test tool".into(),
        parameters_schema: one("type", "object"),
        effects: vec![EffectType::ReadLocal],
        requires_approval: false,
    }
}

fn call(id: &str, name: &str, parameters: Json) -> ActionCall {
    ActionCall { id: id.into(), action_name: name.into(), parameters }
}

fn done(name: &str, output: Json, duration_ms: u64) -> ExecOutcome {
    ExecOutcome::Done(ActionResult {
        call_id: String::new(),
        action_name: name.into(),
        output,
        is_error: false,
        duration_ms,
    })
}

fn granted(capability: &str, max_uses: Option<u32>) -> LeaseManager {
    let mut leases = LeaseManager::new();
    leases
        .grant(
            LeaseId(10),
            NOW,
            THREAD,
            capability.to_string(),
            GrantedActions::All,
            None,
            max_uses,
        )
        .unwrap();
    leases
}

fn execute(
    calls: &Vec<ActionCall>,
    actions: &Vec<ActionDef>,
    outcomes: Vec<ExecOutcome>,
    leases: &mut LeaseManager,
) -> ActionBatchResult {
    let policy = PolicyEngine::new();
    let mut slots: Vec<Slot> = vec![];
    while let Some(lease) = advance_batch(calls, &mut slots, THREAD, leases, STEP, NOW) {
        let call = &calls[slots.len()];
        let verdict = preflight_decide(
            call,
            THREAD,
            &lease,
            find_definition(actions, &call.action_name),
            leases,
            &policy,
            &vec![],
            STEP,
            None,
            NOW,
        )
        .unwrap();
        match verdict {
            Verdict::Go(slot) => slots.push(slot),
            Verdict::Stop(event, outcome) => return interrupt_batch(slots, event, outcome),
        }
    }
    let mut outcomes = outcomes.into_iter();
    let mut settled: Vec<Slot> = vec![];
    for (i, slot) in slots.into_iter().enumerate() {
        settled.push(match slot {
            Slot::Runnable(lease) => {
                settle(outcomes.next().unwrap(), &calls[i], lease.id, leases, STEP)
            }
            other => other,
        });
    }
    merge_batch(calls, settled)
}

#[test]
fn call_id_preserved_on_successful_execution() {
    let mut leases = granted("search", None);
    let calls =
        vec![call("call_r2o5mqBgdNUlH8KzskncUGaX", "web_search", one("query", "test"))];
    let output = Json::Object(vec![("results".to_string(), Json::Array(vec![]))]);
    let result = execute(
        &calls,
        &vec![test_action("web_search")],
        vec![done("web_search", output, 42)],
        &mut leases,
    );
    assert_eq!(result.results.len(), 1);
    assert_eq!(result.results[0].call_id, "call_r2o5mqBgdNUlH8KzskncUGaX");
    assert_eq!(result.results[0].action_name, "web_search");
    assert!(!result.results[0].is_error);

    let exec_event = result
        .events
        .iter()
        .find(|e| matches!(e, EventKind::ActionExecuted { .. }));
    assert!(exec_event.is_some());
    if let Some(EventKind::ActionExecuted { call_id, action_name, .. }) = exec_event {
        assert_eq!(call_id, "call_r2o5mqBgdNUlH8KzskncUGaX");
        assert_eq!(action_name, "web_search");
    }
}

#[test]
fn call_id_preserved_on_execution_error() {
    let mut leases = granted("exec", None);
    let calls = vec![call("call_abc123def", "shell", one("cmd", "ls"))];
    let result = execute(
        &calls,
        &vec![test_action("shell")],
        vec![ExecOutcome::Failed("permission denied".into())],
        &mut leases,
    );
    assert_eq!(result.results.len(), 1);
    assert_eq!(result.results[0].call_id, "call_abc123def");
    assert!(result.results[0].is_error);

    let fail_event = result
        .events
        .iter()
        .find(|e| matches!(e, EventKind::ActionFailed { .. }));
    assert!(fail_event.is_some());
    if let Some(EventKind::ActionFailed { call_id, .. }) = fail_event {
        assert_eq!(call_id, "call_abc123def");
    }
}

#[test]
fn call_id_preserved_when_no_lease() {
    let mut leases = LeaseManager::new();
    let calls = vec![call("call_no_lease_123", "web_search", empty())];
    let result = execute(&calls, &vec![], vec![], &mut leases);
    assert_eq!(result.results.len(), 1);
    assert_eq!(result.results[0].call_id, "call_no_lease_123");
    assert!(result.results[0].is_error);

    if let Some(EventKind::ActionFailed { call_id, error, .. }) = result.events.first() {
        assert_eq!(call_id, "call_no_lease_123");
        assert!(error.contains("no lease"));
    } else {
        panic!("expected ActionFailed event");
    }
}

#[test]
fn multiple_calls_each_get_correct_call_id() {
    let mut leases = granted("cap", None);
    let calls = vec![call("id_aaaa", "tool_a", empty()), call("id_bbbb", "tool_b", empty())];
    let result = execute(
        &calls,
        &vec![test_action("tool_a"), test_action("tool_b")],
        vec![
            done("tool_a", Json::Str("a_result".into()), 1),
            done("tool_b", Json::Str("b_result".into()), 2),
        ],
        &mut leases,
    );
    assert_eq!(result.results.len(), 2);
    assert_eq!(result.results[0].call_id, "id_aaaa");
    assert_eq!(result.results[1].call_id, "id_bbbb");
}

fn auth_pause(call_id: &str, credential: &str, parameters: Json) -> ExecOutcome {
    ExecOutcome::Paused(GatePause {
        gate_name: "authentication".into(),
        action_name: "http".into(),
        call_id: call_id.into(),
        parameters,
        resume_kind: ResumeKind::Authentication {
            credential_name: credential.into(),
            instructions: format!("Provide your {credential} token"),
            auth_url: None,
        },
        resume_output: None,
        params_summary: None,
    })
}

#[test]
fn authentication_gate_interrupts_batch() {
    let mut leases = granted("tools", None);
    let url = || one("url", "https://api.github.com/repos");
    let calls = vec![call("call_auth_1", "http", url())];
    let result = execute(
        &calls,
        &vec![test_action("http")],
        vec![auth_pause("call_auth_1", "github_token", url())],
        &mut leases,
    );
    assert!(
        result.need_approval.is_some(),
        "GatePaused(Authentication) should interrupt the batch"
    );
    match result.need_approval.unwrap() {
        ThreadOutcome::GatePaused { gate_name, action_name, resume_kind, .. } => {
            assert_eq!(gate_name, "authentication");
            assert_eq!(action_name, "http");
            match resume_kind {
                ResumeKind::Authentication { credential_name, .. } => {
                    assert_eq!(credential_name, "github_token");
                }
                other => panic!("expected auth resume kind, got {:?}", other),
            }
        }
        other => panic!("expected GatePaused, got {:?}", other),
    }
    assert!(
        result
            .events
            .iter()
            .any(|e| matches!(e, EventKind::ApprovalRequested { gate_name: Some(name), .. } if name == "authentication")),
        "should emit gate pause event"
    );
}

#[test]
fn authentication_gate_flags_batch_with_parallel_results() {
    let mut leases = granted("tools", None);
    let calls = vec![call("call_1", "http", empty()), call("call_2", "echo", empty())];
    let result = execute(
        &calls,
        &vec![test_action("http"), test_action("echo")],
        vec![
            auth_pause("call_1", "api_key", empty()),
            done("echo", Json::Str("second ran".into()), 1),
        ],
        &mut leases,
    );
    assert_eq!(result.results.len(), 2);
    assert!(result.results[0].is_error);
    assert_eq!(result.results[0].call_id, "call_1");
    assert_eq!(result.results[1].call_id, "call_2");
    assert!(!result.results[1].is_error);
    assert!(result.need_approval.is_some());
    match result.need_approval.unwrap() {
        ThreadOutcome::GatePaused { gate_name, resume_kind, .. } => {
            assert_eq!(gate_name, "authentication");
            match resume_kind {
                ResumeKind::Authentication { credential_name, .. } => {
                    assert_eq!(credential_name, "api_key");
                }
                other => panic!("expected auth resume kind, got {:?}", other),
            }
        }
        other => panic!("expected GatePaused, got {:?}", other),
    }
}

#[test]
fn regular_effect_error_does_not_interrupt() {
    let mut leases = granted("tools", None);
    let calls = vec![call("call_1", "http", empty()), call("call_2", "echo", empty())];
    let result = execute(
        &calls,
        &vec![test_action("http"), test_action("echo")],
        vec![
            ExecOutcome::Failed("connection timeout".into()),
            done("echo", Json::Str("second call ran".into()), 1),
        ],
        &mut leases,
    );
    assert_eq!(result.results.len(), 2);
    assert!(result.results[0].is_error);
    assert!(!result.results[1].is_error);
    assert!(
        result.need_approval.is_none(),
        "no interruption for regular errors"
    );
}

#[test]
fn openai_empty_call_id_never_produced() {
    let mut leases = granted("cap", None);
    let calls = vec![call("aB3xK9mZq", "echo", empty())];
    let result = execute(
        &calls,
        &vec![test_action("echo")],
        vec![done("", Json::Str("hello".into()), 1)],
        &mut leases,
    );
    assert!(result.results.iter().all(|r| !r.call_id.is_empty()));
    assert_eq!(result.results[0].call_id, "aB3xK9mZq");
}

#[test]
fn paused_call_gets_its_use_back() {
    let mut leases = granted("tools", Some(2));
    let calls = vec![call("call_1", "http", empty()), call("call_2", "echo", empty())];
    execute(
        &calls,
        &vec![test_action("http"), test_action("echo")],
        vec![
            auth_pause("call_1", "api_key", empty()),
            done("echo", Json::Null, 1),
        ],
        &mut leases,
    );
    assert_eq!(leases.check(LeaseId(10), NOW).unwrap().uses_remaining, Some(1));
}

#[test]
fn action_that_needs_approval_stops_the_batch() {
    let mut leases = granted("tools", Some(5));
    let mut risky = test_action("shell");
    risky.requires_approval = true;
    let calls = vec![call("call_1", "echo", empty()), call("call_2", "shell", empty())];
    let result = execute(&calls, &vec![test_action("echo"), risky], vec![], &mut leases);
    match result.need_approval {
        Some(ThreadOutcome::GatePaused { action_name, call_id, .. }) => {
            assert_eq!(action_name, "shell");
            assert_eq!(call_id, "call_2");
        }
        other => panic!("{other:?}"),
    }
}

#[test]
fn mistral_format_call_id_preserved() {
    let mut leases = granted("cap", None);
    let mistral_id = "xK3mR9bZq";
    let calls = vec![call(mistral_id, "web_search", empty())];
    let result = execute(
        &calls,
        &vec![test_action("web_search")],
        vec![done("web_search", empty(), 1)],
        &mut leases,
    );
    assert_eq!(result.results[0].call_id, mistral_id);
    match result.events.first() {
        Some(EventKind::ActionExecuted { call_id, .. }) => assert_eq!(call_id, mistral_id),
        other => panic!("expected ActionExecuted, got {other:?}"),
    }
}

#[test]
fn approval_ends_the_batch_at_once() {
    let mut leases = granted("tools", Some(3));
    let shell = ActionDef { requires_approval: true, ..test_action("shell") };
    let calls = vec![call("1", "echo", empty()), call("2", "shell", one("cmd", "ls"))];
    let result = execute(&calls, &vec![test_action("echo"), shell], vec![], &mut leases);
    assert!(result.results.is_empty());
    assert_eq!(result.events.len(), 1);
    assert_eq!(
        result.need_approval,
        Some(ThreadOutcome::GatePaused {
            gate_name: "approval".into(),
            action_name: "shell".into(),
            call_id: "2".into(),
            parameters: one("cmd", "ls"),
            resume_kind: ResumeKind::Approval { allow_always: true },
            resume_output: None,
        })
    );
}

#[test]
fn a_lease_under_another_spelling_fails_the_batch() {
    let mut leases = LeaseManager::new();
    leases
        .grant(
            LeaseId(10),
            NOW,
            THREAD,
            "tools".to_string(),
            GrantedActions::Specific(vec!["web-search".to_string()]),
            None,
            None,
        )
        .unwrap();
    let calls = vec![call("1", "web_search", empty())];
    let mut slots: Vec<Slot> = vec![];
    let lease = advance_batch(&calls, &mut slots, THREAD, &leases, STEP, NOW).unwrap();
    let decided = preflight_decide(
        &calls[0],
        THREAD,
        &lease,
        None,
        &mut leases,
        &PolicyEngine::new(),
        &vec![],
        STEP,
        None,
        NOW,
    );
    assert!(decided.is_err());
}

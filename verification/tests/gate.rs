use ironclaw::capability::lease::LeaseManager;
use ironclaw::gate::lease::LeaseGate;
use ironclaw::gate::pipeline::{GatePipeline, GateStep};
use ironclaw::gate::tool_tier::{
    autonomous_tool_denylist, classify_tool_tier, is_autonomous_denylisted, ToolTier,
};
use ironclaw::gate::{ExecutionMode, GateContext, GateDecision, ResumeKind};
use ironclaw::json::Json;
use ironclaw::types::capability::{ActionDef, EffectType, GrantedActions};
use ironclaw::types::ids::{LeaseId, ThreadId};

const NOW: i128 = 1_000;

fn action(name: &str, effects: Vec<EffectType>, requires_approval: bool) -> ActionDef {
    ActionDef {
        name: name.into(),
        description: String::new(),
        parameters_schema: Json::Object(vec![]),
        effects,
        requires_approval,
    }
}

fn action_def(name: &str) -> ActionDef {
    action(name, vec![EffectType::ReadLocal], false)
}

fn decide(gate: &LeaseGate, leases: &LeaseManager, thread_id: ThreadId, name: &str) -> GateDecision {
    let action_def = action_def(name);
    let auto: Vec<String> = vec![];
    let params = Json::Object(vec![]);
    let ctx = GateContext {
        user_id: "user1",
        thread_id,
        source_channel: "web",
        action_name: &action_def.name,
        call_id: "call_1",
        parameters: &params,
        action_def: &action_def,
        execution_mode: ExecutionMode::Autonomous,
        auto_approved: &auto,
    };
    gate.evaluate(&ctx, leases, NOW)
}

fn granted(thread: ThreadId, max_uses: Option<u32>) -> LeaseManager {
    let mut mgr = LeaseManager::new();
    mgr.grant(
        LeaseId(10),
        NOW,
        thread,
        "tools".to_string(),
        GrantedActions::Specific(vec!["read_file".into()]),
        None,
        max_uses,
    )
    .unwrap();
    mgr
}

#[test]
fn test_valid_lease_allows() {
    let tid = ThreadId(1);
    let mgr = granted(tid, None);
    let gate = LeaseGate::new();
    assert!(matches!(decide(&gate, &mgr, tid, "read_file"), GateDecision::Allow));
}

#[test]
fn test_no_lease_denies() {
    let mgr = LeaseManager::new();
    let tid = ThreadId(1);
    let gate = LeaseGate::new();
    assert!(matches!(decide(&gate, &mgr, tid, "shell"), GateDecision::Deny { .. }));
    assert_eq!(
        decide(&gate, &mgr, tid, "shell"),
        GateDecision::Deny {
            reason: "No valid lease for action 'shell' on thread \
                     00000000-0000-0000-0000-000000000001"
                .to_string()
        }
    );
}

#[test]
fn test_expired_lease_denies() {
    let tid = ThreadId(1);
    let mut mgr = granted(tid, Some(1));
    mgr.consume_use(LeaseId(10), NOW).unwrap();
    let gate = LeaseGate::new();
    assert!(matches!(decide(&gate, &mgr, tid, "read_file"), GateDecision::Deny { .. }));
}

#[test]
fn test_revoked_lease_denies() {
    let tid = ThreadId(1);
    let mut mgr = granted(tid, None);
    mgr.revoke(LeaseId(10), "test");
    let gate = LeaseGate::new();
    assert!(matches!(decide(&gate, &mgr, tid, "read_file"), GateDecision::Deny { .. }));
}

#[test]
fn test_permissive_gate_allows_everything() {
    let mgr = LeaseManager::new();
    let tid = ThreadId(1);
    let gate = LeaseGate::permissive();
    assert!(matches!(decide(&gate, &mgr, tid, "shell"), GateDecision::Allow));
}

#[test]
fn resume_kind_labels() {
    assert_eq!(
        ResumeKind::Approval { allow_always: true }.kind_name(),
        "approval"
    );
    assert_eq!(
        ResumeKind::Authentication {
            credential_name: "x".into(),
            instructions: "y".into(),
            auth_url: None,
        }
        .kind_name(),
        "authentication"
    );
    assert_eq!(
        ResumeKind::External {
            callback_id: "z".into()
        }
        .kind_name(),
        "external confirmation"
    );
}

#[test]
fn resume_kind_reads_back() {
    let kinds = vec![
        ResumeKind::Approval { allow_always: false },
        ResumeKind::Authentication {
            credential_name: "github".into(),
            instructions: "paste it".into(),
            auth_url: Some("https://example.com".into()),
        },
        ResumeKind::External { callback_id: "cb".into() },
    ];
    for k in kinds {
        assert_eq!(ResumeKind::from_json(&k.to_json()), Some(k));
    }
    assert_eq!(ResumeKind::from_json(&Json::Str("nothing".into())), None);
}

fn run(pipeline: &GatePipeline, decisions: Vec<GateDecision>) -> GateDecision {
    let mut answers: Vec<Option<GateDecision>> = decisions.into_iter().map(Some).collect();
    let mut last = GateDecision::Allow;
    let mut asked = 0;
    loop {
        match pipeline.evaluate(asked, last) {
            GateStep::Ask(gate) => {
                last = answers[gate].take().unwrap();
                asked += 1;
            }
            GateStep::Done(d) => return d,
        }
    }
}

#[test]
fn test_all_allow_passes() {
    let pipeline = GatePipeline::new(vec![10, 20]);
    let d = run(&pipeline, vec![GateDecision::Allow, GateDecision::Allow]);
    assert!(matches!(d, GateDecision::Allow));
}

#[test]
fn test_first_deny_wins() {
    let pipeline = GatePipeline::new(vec![10, 20, 30]);
    let d = run(
        &pipeline,
        vec![
            GateDecision::Allow,
            GateDecision::Deny { reason: "blocked".into() },
            GateDecision::Allow,
        ],
    );
    assert!(matches!(d, GateDecision::Deny { .. }));
}

#[test]
fn test_first_pause_wins_over_later_deny() {
    let pipeline = GatePipeline::new(vec![10, 20, 30]);
    let d = run(
        &pipeline,
        vec![
            GateDecision::Allow,
            GateDecision::Pause {
                reason: "needs approval".into(),
                resume_kind: ResumeKind::Approval { allow_always: true },
            },
            GateDecision::Deny { reason: "would deny".into() },
        ],
    );
    assert!(matches!(d, GateDecision::Pause { .. }));
}

#[test]
fn test_empty_pipeline_allows() {
    let pipeline = GatePipeline::allow_all();
    assert!(matches!(run(&pipeline, vec![]), GateDecision::Allow));
}

#[test]
fn test_priority_ordering() {
    let pipeline = GatePipeline::new(vec![200, 10]);
    let d = run(
        &pipeline,
        vec![
            GateDecision::Pause {
                reason: "late pause".into(),
                resume_kind: ResumeKind::Approval { allow_always: false },
            },
            GateDecision::Deny { reason: "early deny".into() },
        ],
    );
    match d {
        GateDecision::Deny { reason } => assert_eq!(reason, "early deny"),
        other => panic!("Expected Deny, got {other:?}"),
    }
}

#[test]
fn gates_of_one_priority_keep_their_order() {
    let pipeline = GatePipeline::new(vec![5, 1, 5, 1]);
    let mut asked = vec![];
    let mut n = 0;
    loop {
        match pipeline.evaluate(n, GateDecision::Allow) {
            GateStep::Ask(gate) => asked.push(gate),
            GateStep::Done(_) => break,
        }
        n += 1;
    }
    assert_eq!(asked, vec![1, 3, 0, 2]);
}

#[test]
fn test_denylisted_tool_always_administrative() {
    for name in autonomous_tool_denylist() {
        let ad = action(name, vec![EffectType::ReadLocal], false);
        assert_eq!(
            classify_tool_tier(&ad),
            ToolTier::Administrative,
            "Expected Administrative for denylisted tool '{name}'"
        );
        assert!(is_autonomous_denylisted(name));
    }
}

#[test]
fn test_requires_approval_is_privileged() {
    let ad = action("shell", vec![EffectType::WriteLocal], true);
    assert_eq!(classify_tool_tier(&ad), ToolTier::Privileged);
}

#[test]
fn test_read_only_effects() {
    let ad = action(
        "echo",
        vec![EffectType::ReadLocal, EffectType::Compute],
        false,
    );
    assert_eq!(classify_tool_tier(&ad), ToolTier::ReadOnly);
}

#[test]
fn test_read_local_only() {
    let ad = action("memory_search", vec![EffectType::ReadLocal], false);
    assert_eq!(classify_tool_tier(&ad), ToolTier::ReadOnly);
}

#[test]
fn test_write_local_is_stateful() {
    let ad = action("file_write", vec![EffectType::WriteLocal], false);
    assert_eq!(classify_tool_tier(&ad), ToolTier::Stateful);
}

#[test]
fn test_external_effects_stateful() {
    let ad = action("web_fetch", vec![EffectType::ReadExternal], false);
    assert_eq!(classify_tool_tier(&ad), ToolTier::Stateful);
}

#[test]
fn test_no_effects_is_stateful() {
    let ad = action("custom_tool", vec![], false);
    assert_eq!(classify_tool_tier(&ad), ToolTier::Stateful);
}

#[test]
fn test_denylisted_overrides_no_approval() {
    let ad = action("routine_create", vec![EffectType::WriteLocal], false);
    assert_eq!(classify_tool_tier(&ad), ToolTier::Administrative);
}

#[test]
fn test_tier_ordering() {
    assert!(ToolTier::ReadOnly < ToolTier::Stateful);
    assert!(ToolTier::Stateful < ToolTier::Privileged);
    assert!(ToolTier::Privileged < ToolTier::Administrative);
}

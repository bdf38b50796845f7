use ironclaw::capability::lease::{LeaseManager, LONGEST_DURATION, NANOS_PER_SECOND};
use ironclaw::capability::planner::LeasePlanner;
use ironclaw::capability::policy::{merge_decision, rule_matches, PolicyDecision, PolicyEngine};
use ironclaw::capability::registry::CapabilityRegistry;
use ironclaw::gate::tool_tier::ToolTier;
use ironclaw::json::Json;
use ironclaw::types::capability::{
    ActionDef, Capability, CapabilityLease, EffectType, GrantedActions, PolicyCondition,
    PolicyEffect, PolicyRule, Provenance,
};
use ironclaw::types::error::EngineError;
use ironclaw::types::ids::{DocId, LeaseId, ThreadId};
use ironclaw::types::thread::ThreadType;

const NOW: i128 = 1_700_000_000 * NANOS_PER_SECOND;

fn empty_object() -> Json {
    Json::Object(vec![])
}

fn specific(names: &[&str]) -> GrantedActions {
    GrantedActions::Specific(names.iter().map(|n| n.to_string()).collect())
}

// ── leases ──────────────────────────────────────────────

fn grant(
    mgr: &mut LeaseManager,
    id: u128,
    thread: ThreadId,
    capability: &str,
    actions: GrantedActions,
    duration: Option<i128>,
    max_uses: Option<u32>,
) -> Result<CapabilityLease, EngineError> {
    mgr.grant(LeaseId(id), NOW, thread, capability.to_string(), actions, duration, max_uses)
}

#[test]
fn grant_and_check() {
    let mut mgr = LeaseManager::new();
    let tid = ThreadId(1);
    let lease = grant(&mut mgr, 10, tid, "github", GrantedActions::All, None, None).unwrap();
    assert!(mgr.check(lease.id, NOW).is_ok());
}

#[test]
fn check_nonexistent_fails() {
    let mgr = LeaseManager::new();
    assert!(mgr.check(LeaseId(7), NOW).is_err());
    assert!(matches!(mgr.check(LeaseId(7), NOW), Err(EngineError::LeaseNotFound { .. })));
}

#[test]
fn consume_use_works() {
    let mut mgr = LeaseManager::new();
    let tid = ThreadId(1);
    let lease = grant(&mut mgr, 10, tid, "github", GrantedActions::All, None, Some(2)).unwrap();
    assert!(mgr.consume_use(lease.id, NOW).is_ok());
    assert!(mgr.consume_use(lease.id, NOW).is_ok());
    assert!(mgr.consume_use(lease.id, NOW).is_err());
}

#[test]
fn refund_use_restores_consumed_budget() {
    let mut mgr = LeaseManager::new();
    let tid = ThreadId(1);
    let lease = grant(&mut mgr, 10, tid, "github", GrantedActions::All, None, Some(2)).unwrap();
    mgr.consume_use(lease.id, NOW).unwrap();
    let consumed = mgr.check(lease.id, NOW).unwrap();
    assert_eq!(consumed.uses_remaining, Some(1));
    mgr.refund_use(lease.id).unwrap();
    let restored = mgr.check(lease.id, NOW).unwrap();
    assert_eq!(restored.uses_remaining, Some(2));
}

#[test]
fn revoke_invalidates() {
    let mut mgr = LeaseManager::new();
    let tid = ThreadId(1);
    let lease = grant(&mut mgr, 10, tid, "github", GrantedActions::All, None, None).unwrap();
    mgr.revoke(lease.id, "test");
    assert!(mgr.check(lease.id, NOW).is_err());
}

#[test]
fn expire_stale_removes_revoked() {
    let mut mgr = LeaseManager::new();
    let tid = ThreadId(1);
    let lease = grant(&mut mgr, 10, tid, "github", GrantedActions::All, None, None).unwrap();
    mgr.revoke(lease.id, "done");
    let removed = mgr.expire_stale(NOW);
    assert_eq!(removed, 1);
    assert!(mgr.active_for_thread(tid, NOW).is_empty());
}

#[test]
fn active_for_thread_filters_correctly() {
    let mut mgr = LeaseManager::new();
    let t1 = ThreadId(1);
    let t2 = ThreadId(2);
    grant(&mut mgr, 10, t1, "github", GrantedActions::All, None, None).unwrap();
    grant(&mut mgr, 11, t1, "memory", GrantedActions::All, None, None).unwrap();
    grant(&mut mgr, 12, t2, "slack", GrantedActions::All, None, None).unwrap();
    assert_eq!(mgr.active_for_thread(t1, NOW).len(), 2);
    assert_eq!(mgr.active_for_thread(t2, NOW).len(), 1);
}

#[test]
fn find_lease_for_action_respects_grants() {
    let mut mgr = LeaseManager::new();
    let tid = ThreadId(1);
    grant(&mut mgr, 10, tid, "github", specific(&["create_issue", "list_prs"]), None, None)
        .unwrap();
    assert!(mgr.find_lease_for_action(tid, "create_issue", NOW).is_some());
    assert!(mgr.find_lease_for_action(tid, "delete_repo", NOW).is_none());
}

#[test]
fn negative_duration_rejected() {
    let mut mgr = LeaseManager::new();
    let tid = ThreadId(1);
    let result = grant(
        &mut mgr,
        10,
        tid,
        "github",
        GrantedActions::All,
        Some(-10 * NANOS_PER_SECOND),
        None,
    );
    assert!(result.is_err());
    assert_eq!(mgr.count(), 0);
}

#[test]
fn zero_max_uses_rejected() {
    let mut mgr = LeaseManager::new();
    let tid = ThreadId(1);
    let result = grant(&mut mgr, 10, tid, "github", GrantedActions::All, None, Some(0));
    assert!(result.is_err());
    assert_eq!(mgr.count(), 0);
}

#[test]
fn test_child_inherits_subset_of_parent() {
    let mut mgr = LeaseManager::new();
    let parent = ThreadId(1);
    let child = ThreadId(2);
    grant(&mut mgr, 10, parent, "tools", specific(&["A", "B", "C"]), None, None).unwrap();

    let requested = vec!["B".to_string(), "C".to_string(), "D".to_string()];
    let child_leases =
        mgr.derive_child_leases(parent, child, Some(&requested), &vec![LeaseId(20)], NOW);
    assert_eq!(child_leases.len(), 1);
    assert!(child_leases[0].granted_actions.covers("B"));
    assert!(child_leases[0].granted_actions.covers("C"));
    assert!(!child_leases[0].granted_actions.covers("D"));
    assert!(!child_leases[0].granted_actions.covers("A"));
    assert_eq!(child_leases[0].thread_id, child);
    assert!(mgr.check(LeaseId(20), NOW).is_ok());
}

#[test]
fn test_child_never_exceeds_parent_expiry() {
    let mut mgr = LeaseManager::new();
    let parent = ThreadId(1);
    let child = ThreadId(2);
    let parent_lease = grant(
        &mut mgr,
        10,
        parent,
        "tools",
        specific(&["read"]),
        Some(3600 * NANOS_PER_SECOND),
        None,
    )
    .unwrap();
    let child_leases = mgr.derive_child_leases(parent, child, None, &vec![LeaseId(20)], NOW);
    assert_eq!(child_leases.len(), 1);
    assert_eq!(child_leases[0].expires_at, parent_lease.expires_at);
}

#[test]
fn test_expired_parent_yields_empty_child() {
    let mut mgr = LeaseManager::new();
    let parent = ThreadId(1);
    let child = ThreadId(2);
    grant(&mut mgr, 10, parent, "tools", specific(&["read"]), Some(10 * NANOS_PER_SECOND), None)
        .unwrap();
    let later = NOW + 20 * NANOS_PER_SECOND;
    let child_leases = mgr.derive_child_leases(parent, child, None, &vec![LeaseId(20)], later);
    assert!(child_leases.is_empty());
}

#[test]
fn test_child_inherits_remaining_budget() {
    let mut mgr = LeaseManager::new();
    let parent = ThreadId(1);
    let child = ThreadId(2);
    let parent_lease =
        grant(&mut mgr, 10, parent, "tools", specific(&["read"]), None, Some(10)).unwrap();
    mgr.consume_use(parent_lease.id, NOW).unwrap();
    mgr.consume_use(parent_lease.id, NOW).unwrap();
    mgr.consume_use(parent_lease.id, NOW).unwrap();
    let child_leases = mgr.derive_child_leases(parent, child, None, &vec![LeaseId(20)], NOW);
    assert_eq!(child_leases.len(), 1);
    assert_eq!(child_leases[0].uses_remaining, Some(7));
}

#[test]
fn test_child_with_none_inherits_all() {
    let mut mgr = LeaseManager::new();
    let parent = ThreadId(1);
    let child = ThreadId(2);
    grant(&mut mgr, 10, parent, "tools", specific(&["read", "write"]), None, None).unwrap();
    let child_leases = mgr.derive_child_leases(parent, child, None, &vec![LeaseId(20)], NOW);
    assert_eq!(child_leases.len(), 1);
    assert_eq!(child_leases[0].granted_actions.actions().len(), 2);
}

#[test]
fn lease_ends_at_its_expiry() {
    let mut mgr = LeaseManager::new();
    let tid = ThreadId(1);
    let lease =
        grant(&mut mgr, 10, tid, "github", GrantedActions::All, Some(NANOS_PER_SECOND), None)
            .unwrap();
    assert_eq!(lease.expires_at, Some(NOW + NANOS_PER_SECOND));
    assert!(mgr.check(lease.id, NOW).is_ok());
    assert!(matches!(
        mgr.check(lease.id, NOW + 2 * NANOS_PER_SECOND),
        Err(EngineError::LeaseExpired { .. })
    ));
    assert!(LONGEST_DURATION > NANOS_PER_SECOND);
}

#[test]
fn find_and_consume_takes_one_use() {
    let mut mgr = LeaseManager::new();
    let tid = ThreadId(1);
    grant(&mut mgr, 10, tid, "tools", specific(&["read"]), None, Some(1)).unwrap();
    let taken = mgr.find_and_consume(tid, "read", NOW).unwrap();
    assert_eq!(taken.uses_remaining, Some(0));
    match mgr.find_and_consume(tid, "read", NOW) {
        Err(EngineError::LeaseNotFound { lease_id }) => {
            assert_eq!(lease_id, "no valid lease for action 'read'")
        }
        other => panic!("expected no lease, got {other:?}"),
    }
}

#[test]
fn updated_grant_covers_the_new_actions() {
    let mut mgr = LeaseManager::new();
    let tid = ThreadId(1);
    let lease = grant(&mut mgr, 10, tid, "tools", specific(&["read"]), None, None).unwrap();
    let updated = mgr.update_granted_actions(lease.id, specific(&["write"])).unwrap();
    assert!(updated.covers_action("write"));
    assert!(!updated.covers_action("read"));
    assert!(mgr.update_granted_actions(LeaseId(99), GrantedActions::All).is_err());
    assert!(mgr.refund_use(LeaseId(99)).is_err());
}

// ── the planner ─────────────────────────────────────────

fn action(name: &str, effects: Vec<EffectType>, requires_approval: bool) -> ActionDef {
    ActionDef {
        name: name.into(),
        description: format!("{name} action"),
        parameters_schema: empty_object(),
        effects,
        requires_approval,
    }
}

fn capability(name: &str, description: &str, actions: Vec<ActionDef>) -> Capability {
    Capability {
        name: name.into(),
        description: description.into(),
        actions,
        knowledge: vec![],
        policies: vec![],
    }
}

fn mixed_registry() -> CapabilityRegistry {
    let mut reg = CapabilityRegistry::new();
    reg.register(capability(
        "tools",
        "all tools",
        vec![
            action("echo", vec![EffectType::ReadLocal], false),
            action("read_file", vec![EffectType::ReadLocal], false),
            action("file_write", vec![EffectType::WriteLocal], false),
            action("shell", vec![EffectType::WriteLocal], true),
            action("http", vec![EffectType::WriteExternal], true),
            action("routine_create", vec![EffectType::WriteLocal], false),
            action("tool_install", vec![EffectType::WriteLocal], false),
        ],
    ));
    reg
}

fn simple_registry() -> CapabilityRegistry {
    let mut reg = CapabilityRegistry::new();
    reg.register(capability(
        "tools",
        "test",
        vec![action("read_file", vec![EffectType::ReadLocal], false)],
    ));
    reg
}

#[test]
fn foreground_threads_get_explicit_actions() {
    let planner = LeasePlanner::new();
    let plans = planner.plan_for_thread(ThreadType::Foreground, &simple_registry());
    assert_eq!(plans.len(), 1);
    assert_eq!(plans[0].capability_name, "tools");
    assert_eq!(
        plans[0].granted_actions,
        GrantedActions::Specific(vec!["read_file".into()])
    );
}

#[test]
fn test_foreground_gets_all_tiers() {
    let planner = LeasePlanner::new();
    let plans = planner.plan_for_thread(ThreadType::Foreground, &mixed_registry());
    assert_eq!(plans.len(), 1);
    let actions = plans[0].granted_actions.actions();
    assert_eq!(actions.len(), 7, "Foreground should get all 7 actions");
    assert!(plans[0].granted_actions.covers("routine_create"));
    assert!(plans[0].granted_actions.covers("shell"));
}

#[test]
fn test_research_excludes_privileged_and_admin() {
    let planner = LeasePlanner::new();
    let plans = planner.plan_for_thread(ThreadType::Research, &mixed_registry());
    assert_eq!(plans.len(), 1);
    let actions = plans[0].granted_actions.actions();
    assert_eq!(
        actions.len(),
        3,
        "Research should get 3 actions: {:?}",
        actions
    );
    assert!(plans[0].granted_actions.covers("echo"));
    assert!(plans[0].granted_actions.covers("read_file"));
    assert!(plans[0].granted_actions.covers("file_write"));
    assert!(!plans[0].granted_actions.covers("shell"));
    assert!(!plans[0].granted_actions.covers("routine_create"));
}

#[test]
fn test_mission_excludes_administrative() {
    let planner = LeasePlanner::new();
    let plans = planner.plan_for_thread(ThreadType::Mission, &mixed_registry());
    assert_eq!(plans.len(), 1);
    let ga = &plans[0].granted_actions;
    assert!(ga.covers("echo"));
    assert!(ga.covers("shell"));
    assert!(ga.covers("http"));
    assert!(!ga.covers("routine_create"));
    assert!(!ga.covers("tool_install"));
}

#[test]
fn test_mission_excludes_denylisted_privileged() {
    let planner = LeasePlanner::new();
    let plans = planner.plan_for_thread(ThreadType::Mission, &mixed_registry());
    let ga = &plans[0].granted_actions;
    assert!(!ga.covers("routine_create"));
    assert!(!ga.covers("tool_install"));
}

#[test]
fn tiers_of_each_thread_type() {
    assert!(LeasePlanner::tier_allowed(ThreadType::Foreground, "x", ToolTier::Administrative));
    assert!(LeasePlanner::tier_allowed(ThreadType::Research, "x", ToolTier::Stateful));
    assert!(!LeasePlanner::tier_allowed(ThreadType::Research, "x", ToolTier::Privileged));
    assert!(LeasePlanner::tier_allowed(ThreadType::Mission, "x", ToolTier::Privileged));
    assert!(!LeasePlanner::tier_allowed(ThreadType::Mission, "x", ToolTier::Administrative));
}

#[test]
fn capability_without_granted_action_is_left_out() {
    let mut reg = CapabilityRegistry::new();
    reg.register(capability(
        "admin",
        "admin tools",
        vec![action("tool_install", vec![EffectType::WriteLocal], false)],
    ));
    let planner = LeasePlanner::new();
    assert!(planner.plan_for_thread(ThreadType::Research, &reg).is_empty());
    assert_eq!(planner.plan_for_thread(ThreadType::Foreground, &reg).len(), 1);
}

// ── the policy ──────────────────────────────────────────

fn make_action(name: &str, effects: Vec<EffectType>, requires_approval: bool) -> ActionDef {
    ActionDef {
        name: name.into(),
        description: String::new(),
        parameters_schema: empty_object(),
        effects,
        requires_approval,
    }
}

fn make_lease() -> CapabilityLease {
    CapabilityLease {
        id: LeaseId(1),
        thread_id: ThreadId(1),
        capability_name: "test".into(),
        granted_actions: GrantedActions::All,
        granted_at: NOW,
        expires_at: None,
        max_uses: None,
        uses_remaining: None,
        revoked: false,
        revoked_reason: None,
    }
}

#[test]
fn allow_by_default() {
    let engine = PolicyEngine::new();
    let action = make_action("read_file", vec![EffectType::ReadLocal], false);
    let lease = make_lease();
    assert_eq!(engine.evaluate(&action, &lease, &vec![], NOW), PolicyDecision::Allow);
}

#[test]
fn denied_effect_type() {
    let mut engine = PolicyEngine::new();
    engine.deny_effect(EffectType::Financial);
    let action = make_action("transfer", vec![EffectType::Financial], false);
    let lease = make_lease();
    assert!(matches!(
        engine.evaluate(&action, &lease, &vec![], NOW),
        PolicyDecision::Deny { .. }
    ));
}

#[test]
fn action_requires_approval() {
    let engine = PolicyEngine::new();
    let action = make_action("deploy", vec![EffectType::WriteExternal], true);
    let lease = make_lease();
    assert!(matches!(
        engine.evaluate(&action, &lease, &vec![], NOW),
        PolicyDecision::RequireApproval { .. }
    ));
}

#[test]
fn global_policy_deny_overrides_approval() {
    let mut engine = PolicyEngine::new();
    engine.add_global_policy(PolicyRule {
        name: "no external writes".into(),
        condition: PolicyCondition::EffectTypeIs(EffectType::WriteExternal),
        effect: PolicyEffect::Deny,
    });
    let action = make_action("deploy", vec![EffectType::WriteExternal], true);
    let lease = make_lease();
    assert!(matches!(
        engine.evaluate(&action, &lease, &vec![], NOW),
        PolicyDecision::Deny { .. }
    ));
}

#[test]
fn capability_policy_requires_approval() {
    let engine = PolicyEngine::new();
    let action = make_action("create_issue", vec![EffectType::WriteExternal], false);
    let lease = make_lease();
    let cap_policies = vec![PolicyRule {
        name: "approve writes".into(),
        condition: PolicyCondition::EffectTypeIs(EffectType::WriteExternal),
        effect: PolicyEffect::RequireApproval,
    }];
    assert!(matches!(
        engine.evaluate(&action, &lease, &cap_policies, NOW),
        PolicyDecision::RequireApproval { .. }
    ));
}

#[test]
fn expired_lease_denied() {
    let engine = PolicyEngine::new();
    let action = make_action("read", vec![EffectType::ReadLocal], false);
    let mut lease = make_lease();
    lease.revoked = true;
    assert!(matches!(
        engine.evaluate(&action, &lease, &vec![], NOW),
        PolicyDecision::Deny { .. }
    ));
}

#[test]
fn lease_not_covering_action_denied() {
    let engine = PolicyEngine::new();
    let action = make_action("delete_repo", vec![EffectType::WriteExternal], false);
    let mut lease = make_lease();
    lease.granted_actions = GrantedActions::Specific(vec!["create_issue".into()]);
    assert!(matches!(
        engine.evaluate(&action, &lease, &vec![], NOW),
        PolicyDecision::Deny { .. }
    ));
}

#[test]
fn llm_generated_financial_requires_approval() {
    let engine = PolicyEngine::new();
    let action = make_action("transfer_funds", vec![EffectType::Financial], false);
    let lease = make_lease();
    let decision =
        engine.evaluate_with_provenance(&action, &lease, &vec![], &Provenance::LlmGenerated, NOW);
    assert!(matches!(decision, PolicyDecision::RequireApproval { .. }));
}

#[test]
fn llm_generated_write_external_requires_approval() {
    let engine = PolicyEngine::new();
    let action = make_action("post_message", vec![EffectType::WriteExternal], false);
    let lease = make_lease();
    let decision =
        engine.evaluate_with_provenance(&action, &lease, &vec![], &Provenance::LlmGenerated, NOW);
    assert!(matches!(decision, PolicyDecision::RequireApproval { .. }));
}

#[test]
fn user_provenance_allows_financial() {
    let engine = PolicyEngine::new();
    let action = make_action("transfer_funds", vec![EffectType::Financial], false);
    let lease = make_lease();
    let decision =
        engine.evaluate_with_provenance(&action, &lease, &vec![], &Provenance::User, NOW);
    assert_eq!(decision, PolicyDecision::Allow);
}

#[test]
fn tool_output_financial_requires_approval() {
    let engine = PolicyEngine::new();
    let action = make_action("pay_invoice", vec![EffectType::Financial], false);
    let lease = make_lease();
    let decision = engine.evaluate_with_provenance(
        &action,
        &lease,
        &vec![],
        &Provenance::ToolOutput {
            action_name: "scrape_invoices".into(),
        },
        NOW,
    );
    assert!(matches!(decision, PolicyDecision::RequireApproval { .. }));
}

#[test]
fn action_matches_pattern() {
    let mut engine = PolicyEngine::new();
    engine.add_global_policy(PolicyRule {
        name: "approve deletes".into(),
        condition: PolicyCondition::ActionMatches {
            pattern: "delete_repo".into(),
        },
        effect: PolicyEffect::RequireApproval,
    });
    let action = make_action("delete_repo", vec![EffectType::WriteExternal], false);
    let lease = make_lease();
    assert!(matches!(
        engine.evaluate(&action, &lease, &vec![], NOW),
        PolicyDecision::RequireApproval { .. }
    ));

    let action2 = make_action("create_issue", vec![EffectType::WriteExternal], false);
    assert_eq!(
        engine.evaluate(&action2, &lease, &vec![], NOW),
        PolicyDecision::Allow
    );
}

#[test]
fn harmless_provenance_changes_nothing() {
    let engine = PolicyEngine::new();
    let action = make_action("transfer_funds", vec![EffectType::Financial], false);
    let lease = make_lease();
    for p in [Provenance::System, Provenance::MemoryRetrieval { doc_id: DocId(1) }] {
        assert_eq!(
            engine.evaluate_with_provenance(&action, &lease, &vec![], &p, NOW),
            PolicyDecision::Allow
        );
    }
}

#[test]
fn rules_match_and_merge() {
    let always = PolicyRule {
        name: "all".into(),
        condition: PolicyCondition::Always,
        effect: PolicyEffect::Allow,
    };
    assert!(rule_matches(&always, &make_action("x", vec![], false)));
    let denied = merge_decision(PolicyDecision::Allow, PolicyEffect::Deny, "rule");
    assert_eq!(denied, PolicyDecision::Deny { reason: "rule".into() });
    let still = merge_decision(denied, PolicyEffect::RequireApproval, "other");
    assert_eq!(still, PolicyDecision::Deny { reason: "rule".into() });
    let asked = merge_decision(PolicyDecision::Allow, PolicyEffect::RequireApproval, "ask");
    assert_eq!(asked, PolicyDecision::RequireApproval { reason: "ask".into() });
    let kept = merge_decision(asked, PolicyEffect::Allow, "free");
    assert_eq!(kept, PolicyDecision::RequireApproval { reason: "ask".into() });
}

// ── the registry ────────────────────────────────────────

fn schema_object() -> Json {
    Json::Object(vec![("type".to_string(), Json::Str("object".to_string()))])
}

fn test_capability() -> Capability {
    Capability {
        name: "github".into(),
        description: "GitHub integration".into(),
        actions: vec![
            ActionDef {
                name: "create_issue".into(),
                description: "Create a GitHub issue".into(),
                parameters_schema: schema_object(),
                effects: vec![EffectType::WriteExternal, EffectType::CredentialedNetwork],
                requires_approval: false,
            },
            ActionDef {
                name: "list_prs".into(),
                description: "List pull requests".into(),
                parameters_schema: schema_object(),
                effects: vec![EffectType::ReadExternal, EffectType::CredentialedNetwork],
                requires_approval: false,
            },
        ],
        knowledge: vec!["When creating issues, always add labels.".into()],
        policies: vec![],
    }
}

#[test]
fn register_and_get() {
    let mut reg = CapabilityRegistry::new();
    assert!(reg.is_empty());
    reg.register(test_capability());
    assert_eq!(reg.len(), 1);
    assert!(reg.get("github").is_some());
    assert!(reg.get("slack").is_none());
}

#[test]
fn find_action_across_capabilities() {
    let mut reg = CapabilityRegistry::new();
    reg.register(test_capability());
    let (cap_name, action) = reg.find_action("create_issue").unwrap();
    assert_eq!(cap_name, "github");
    assert_eq!(action.name, "create_issue");
    assert!(reg.find_action("nonexistent").is_none());
}

#[test]
fn get_action_from_capability() {
    let mut reg = CapabilityRegistry::new();
    reg.register(test_capability());
    assert!(reg.get_action("github", "list_prs").is_some());
    assert!(reg.get_action("github", "delete_repo").is_none());
    assert!(reg.get_action("slack", "list_prs").is_none());
}

#[test]
fn all_actions_collects_across_capabilities() {
    let mut reg = CapabilityRegistry::new();
    reg.register(test_capability());
    reg.register(Capability {
        name: "memory".into(),
        description: "Memory tools".into(),
        actions: vec![ActionDef {
            name: "memory_search".into(),
            description: "Search memory".into(),
            parameters_schema: schema_object(),
            effects: vec![EffectType::ReadLocal],
            requires_approval: false,
        }],
        knowledge: vec![],
        policies: vec![],
    });
    assert_eq!(reg.all_actions().len(), 3);
    assert_eq!(reg.list().len(), 2);
}

#[test]
fn overwrite_on_re_register() {
    let mut reg = CapabilityRegistry::new();
    reg.register(test_capability());
    assert_eq!(reg.get("github").unwrap().actions.len(), 2);

    reg.register(Capability {
        name: "github".into(),
        description: "Updated".into(),
        actions: vec![],
        knowledge: vec![],
        policies: vec![],
    });
    assert_eq!(reg.get("github").unwrap().actions.len(), 0);
    assert_eq!(reg.len(), 1);
}

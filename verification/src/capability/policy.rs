//! Deterministic policy engine.
//!
//! Decides whether an action is allowed, denied or needs approval, from the lease
//! it is called under, its effects and the policy rules. A denial outweighs a
//! needed approval, and that outweighs an allowance.

use vstd::prelude::*;

use crate::text::str_eq;
use crate::types::capability::{
    effect_text, has_effect, ActionDef, ActionDefView, CapabilityLease, EffectType, LeaseView,
    PolicyCondition, PolicyEffect, PolicyRule, Provenance,
};

verus! {

/// The result of a policy evaluation.
#[derive(Debug, PartialEq, Eq)]
pub enum PolicyDecision {
    Allow,
    Deny { reason: String },
    RequireApproval { reason: String },
}

/// What a decision holds.
pub enum PolicyView {
    Allow,
    Deny(Seq<char>),
    RequireApproval(Seq<char>),
}

impl View for PolicyDecision {
    type V = PolicyView;

    open spec fn view(&self) -> PolicyView {
        match self {
            PolicyDecision::Allow => PolicyView::Allow,
            PolicyDecision::Deny { reason } => PolicyView::Deny(reason@),
            PolicyDecision::RequireApproval { reason } => PolicyView::RequireApproval(reason@),
        }
    }
}

/// Whether a rule applies to an action.
pub open spec fn applies(rule: PolicyRule, a: ActionDefView) -> bool {
    match rule.condition {
        PolicyCondition::Always => true,
        PolicyCondition::ActionMatches { pattern } => a.name == pattern@,
        PolicyCondition::EffectTypeIs(e) => a.effects.contains(e),
    }
}

/// A decision after an effect that `source` asks for.
pub open spec fn merged(d: PolicyView, effect: PolicyEffect, source: Seq<char>) -> PolicyView {
    match effect {
        PolicyEffect::Deny => PolicyView::Deny(source),
        PolicyEffect::RequireApproval => match d {
            PolicyView::Deny(_) => d,
            _ => PolicyView::RequireApproval(source),
        },
        PolicyEffect::Allow => d,
    }
}

/// A decision after the rules that apply, in order.
pub open spec fn after_rules(
    d: PolicyView,
    rules: Seq<PolicyRule>,
    a: ActionDefView,
) -> PolicyView
    decreases rules.len(),
{
    if rules.len() == 0 {
        d
    } else {
        let before = after_rules(d, rules.drop_last(), a);
        if applies(rules.last(), a) {
            merged(before, rules.last().effect, rules.last().name@)
        } else {
            before
        }
    }
}

/// The index of the first effect that is denied, or the length where none is.
pub open spec fn first_denied(effects: Seq<EffectType>, denied: Seq<EffectType>) -> int
    decreases effects.len(),
{
    if effects.len() == 0 || denied.contains(effects.first()) {
        0
    } else {
        1 + first_denied(effects.drop_first(), denied)
    }
}

/// The decision on an action under a lease at the time `now`.
pub open spec fn decision(
    global: Seq<PolicyRule>,
    denied: Seq<EffectType>,
    a: ActionDefView,
    lease: LeaseView,
    rules: Seq<PolicyRule>,
    now: i128,
) -> PolicyView {
    if !lease.valid(now) {
        PolicyView::Deny("lease for "@ + lease.capability_name + " is expired/revoked"@)
    } else if !lease.granted.covers(a.name) {
        PolicyView::Deny(
            "lease for "@ + lease.capability_name + " does not cover action "@ + a.name,
        )
    } else if first_denied(a.effects, denied) < a.effects.len() {
        PolicyView::Deny(
            "effect type "@ + effect_text(a.effects[first_denied(a.effects, denied)])
                + " is denied by global policy"@,
        )
    } else {
        let d = after_rules(after_rules(PolicyView::Allow, global, a), rules, a);
        if a.requires_approval {
            merged(d, PolicyEffect::RequireApproval, "action requires approval"@)
        } else {
            d
        }
    }
}

/// A decision after the rules on where the data of a call comes from.
pub open spec fn tainted(d: PolicyView, a: ActionDefView, p: Provenance) -> PolicyView {
    match p {
        Provenance::LlmGenerated => {
            let d1 = if a.effects.contains(EffectType::Financial) {
                merged(
                    d,
                    PolicyEffect::RequireApproval,
                    "LLM-generated data cannot trigger financial effects without approval"@,
                )
            } else {
                d
            };
            if a.effects.contains(EffectType::WriteExternal) {
                merged(
                    d1,
                    PolicyEffect::RequireApproval,
                    "LLM-generated data requires approval for external writes"@,
                )
            } else {
                d1
            }
        },
        Provenance::ToolOutput { .. } => if a.effects.contains(EffectType::Financial) {
            merged(
                d,
                PolicyEffect::RequireApproval,
                "tool output data requires approval for financial effects"@,
            )
        } else {
            d
        },
        Provenance::User | Provenance::System | Provenance::MemoryRetrieval { .. } => d,
    }
}

/// Whether a rule applies to an action.
pub fn rule_matches(rule: &PolicyRule, action: &ActionDef) -> (r: bool)
    ensures
        r == applies(*rule, action@),
{
    match &rule.condition {
        PolicyCondition::Always => true,
        PolicyCondition::ActionMatches { pattern } => str_eq(
            action.name.as_str(),
            pattern.as_str(),
        ),
        PolicyCondition::EffectTypeIs(e) => has_effect(&action.effects, *e),
    }
}

/// Merges an effect into a decision.
pub fn merge_decision(current: PolicyDecision, effect: PolicyEffect, source: &str) -> (r:
    PolicyDecision)
    ensures
        r@ == merged(current@, effect, source@),
{
    match effect {
        PolicyEffect::Deny => PolicyDecision::Deny { reason: source.to_owned() },
        PolicyEffect::RequireApproval => match current {
            PolicyDecision::Deny { reason } => PolicyDecision::Deny { reason },
            _ => PolicyDecision::RequireApproval { reason: source.to_owned() },
        },
        PolicyEffect::Allow => current,
    }
}

fn merge_rules(start: PolicyDecision, rules: &Vec<PolicyRule>, action: &ActionDef) -> (r:
    PolicyDecision)
    ensures
        r@ == after_rules(start@, rules@, action@),
{
    let ghost d0 = start@;
    let mut decision = start;
    let mut i: usize = 0;
    assert(rules@.take(0) =~= Seq::<PolicyRule>::empty());
    while i < rules.len()
        invariant
            i <= rules@.len(),
            decision@ == after_rules(d0, rules@.take(i as int), action@),
        decreases rules@.len() - i,
    {
        assert(rules@.take(i + 1).drop_last() =~= rules@.take(i as int));
        if rule_matches(&rules[i], action) {
            decision = merge_decision(decision, rules[i].effect, rules[i].name.as_str());
        }
        i = i + 1;
    }
    assert(rules@.take(rules@.len() as int) =~= rules@);
    decision
}

/// The policies that hold for every action.
pub struct PolicyEngine {
    global_policies: Vec<PolicyRule>,
    denied_effects: Vec<EffectType>,
}

impl PolicyEngine {
    /// The global rules, in the order in which they were added.
    pub closed spec fn global_rules(&self) -> Seq<PolicyRule> {
        self.global_policies@
    }

    /// The effects that are denied, in the order in which they were added.
    pub closed spec fn denied(&self) -> Seq<EffectType> {
        self.denied_effects@
    }

    /// An engine without rules.
    pub fn new() -> (r: PolicyEngine)
        ensures
            r.global_rules() == Seq::<PolicyRule>::empty(),
            r.denied() == Seq::<EffectType>::empty(),
    {
        PolicyEngine { global_policies: Vec::new(), denied_effects: Vec::new() }
    }

    /// Adds a global rule.
    pub fn add_global_policy(&mut self, rule: PolicyRule)
        ensures
            final(self).global_rules() == old(self).global_rules().push(rule),
            final(self).denied() == old(self).denied(),
    {
        self.global_policies.push(rule);
    }

    /// Denies an effect everywhere.
    pub fn deny_effect(&mut self, effect: EffectType)
        ensures
            final(self).denied() == old(self).denied().push(effect),
            final(self).global_rules() == old(self).global_rules(),
    {
        self.denied_effects.push(effect);
    }

    /// The effects that are denied.
    pub fn denied_effects(&self) -> (r: &Vec<EffectType>)
        ensures
            r@ == self.denied(),
    {
        &self.denied_effects
    }

    /// Decides on an action under a lease and the rules of its capability.
    pub fn evaluate(
        &self,
        action: &ActionDef,
        lease: &CapabilityLease,
        capability_policies: &Vec<PolicyRule>,
        now: i128,
    ) -> (r: PolicyDecision)
        ensures
            r@ == decision(
                self.global_rules(),
                self.denied(),
                action@,
                lease@,
                capability_policies@,
                now,
            ),
    {
        if !lease.is_valid(now) {
            let mut reason = "lease for ".to_owned();
            reason.append(lease.capability_name.as_str());
            reason.append(" is expired/revoked");
            return PolicyDecision::Deny { reason };
        }
        if !lease.covers_action(action.name.as_str()) {
            let mut reason = "lease for ".to_owned();
            reason.append(lease.capability_name.as_str());
            reason.append(" does not cover action ");
            reason.append(action.name.as_str());
            return PolicyDecision::Deny { reason };
        }
        let ghost effects = action.effects@;
        let mut i: usize = 0;
        assert(effects.skip(0) =~= effects);
        while i < action.effects.len()
            invariant
                i <= action.effects@.len(),
                effects == action.effects@,
                lease@.valid(now),
                lease@.granted.covers(action.name@),
                first_denied(effects, self.denied()) == i + first_denied(
                    effects.skip(i as int),
                    self.denied(),
                ),
            decreases action.effects@.len() - i,
        {
            assert(effects.skip(i as int).first() == effects[i as int]);
            assert(effects.skip(i as int).drop_first() =~= effects.skip(i + 1));
            if has_effect(&self.denied_effects, action.effects[i]) {
                let mut reason = "effect type ".to_owned();
                reason.append(action.effects[i].name());
                reason.append(" is denied by global policy");
                return PolicyDecision::Deny { reason };
            }
            i = i + 1;
        }
        let d = merge_rules(PolicyDecision::Allow, &self.global_policies, action);
        let d = merge_rules(d, capability_policies, action);
        if action.requires_approval {
            merge_decision(d, PolicyEffect::RequireApproval, "action requires approval")
        } else {
            d
        }
    }

    /// Decides as [`PolicyEngine::evaluate`] does, and asks for approval where data
    /// that a model or a tool made would have an effect that is not theirs to have.
    pub fn evaluate_with_provenance(
        &self,
        action: &ActionDef,
        lease: &CapabilityLease,
        capability_policies: &Vec<PolicyRule>,
        provenance: &Provenance,
        now: i128,
    ) -> (r: PolicyDecision)
        ensures
            r@ == tainted(
                decision(
                    self.global_rules(),
                    self.denied(),
                    action@,
                    lease@,
                    capability_policies@,
                    now,
                ),
                action@,
                *provenance,
            ),
    {
        let mut decision = self.evaluate(action, lease, capability_policies, now);
        match provenance {
            Provenance::LlmGenerated => {
                if has_effect(&action.effects, EffectType::Financial) {
                    decision = merge_decision(
                        decision,
                        PolicyEffect::RequireApproval,
                        "LLM-generated data cannot trigger financial effects without approval",
                    );
                }
                if has_effect(&action.effects, EffectType::WriteExternal) {
                    decision = merge_decision(
                        decision,
                        PolicyEffect::RequireApproval,
                        "LLM-generated data requires approval for external writes",
                    );
                }
            },
            Provenance::ToolOutput { .. } => {
                if has_effect(&action.effects, EffectType::Financial) {
                    decision = merge_decision(
                        decision,
                        PolicyEffect::RequireApproval,
                        "tool output data requires approval for financial effects",
                    );
                }
            },
            Provenance::User | Provenance::System => {},
            Provenance::MemoryRetrieval { .. } => {},
        }
        decision
    }
}

/// A denial stands: no rule that follows, no needed approval and no rule on where
/// data comes from turns it into anything but a denial.
pub proof fn denial_stands(
    d: PolicyView,
    rules: Seq<PolicyRule>,
    a: ActionDefView,
    p: Provenance,
)
    requires
        d is Deny,
    ensures
        after_rules(d, rules, a) is Deny,
        tainted(d, a, p) is Deny,
        merged(d, PolicyEffect::RequireApproval, "action requires approval"@) is Deny,
    decreases rules.len(),
{
    if rules.len() > 0 {
        denial_stands(d, rules.drop_last(), a, p);
    }
}

/// A rule that denies and applies makes the decision a denial, whatever the other
/// rules ask for and in whatever place it stands.
pub proof fn denying_rule_denies(
    d: PolicyView,
    rules: Seq<PolicyRule>,
    a: ActionDefView,
    i: int,
)
    requires
        0 <= i < rules.len(),
        applies(rules[i], a),
        rules[i].effect == PolicyEffect::Deny,
    ensures
        after_rules(d, rules, a) is Deny,
    decreases rules.len(),
{
    if i < rules.len() - 1 {
        denying_rule_denies(d, rules.drop_last(), a, i);
    }
}

/// An effect that is denied is denied: an action with such an effect is never
/// allowed and never put to approval, under any lease and any rules.
pub proof fn denied_effect_denies(
    global: Seq<PolicyRule>,
    denied: Seq<EffectType>,
    a: ActionDefView,
    lease: LeaseView,
    rules: Seq<PolicyRule>,
    now: i128,
)
    requires
        exists|i: int| 0 <= i < a.effects.len() && denied.contains(#[trigger] a.effects[i]),
    ensures
        decision(global, denied, a, lease, rules, now) is Deny,
{
    let i = choose|i: int| 0 <= i < a.effects.len() && denied.contains(#[trigger] a.effects[i]);
    lemma_first_denied(a.effects, denied, i);
}

proof fn lemma_first_denied(effects: Seq<EffectType>, denied: Seq<EffectType>, i: int)
    requires
        0 <= i < effects.len(),
        denied.contains(effects[i]),
    ensures
        first_denied(effects, denied) <= i,
    decreases effects.len(),
{
    if !denied.contains(effects.first()) {
        assert(effects.drop_first()[i - 1] == effects[i]);
        lemma_first_denied(effects.drop_first(), denied, i - 1);
    }
}

/// An action that requires approval is never simply allowed.
pub proof fn approval_is_never_skipped(
    global: Seq<PolicyRule>,
    denied: Seq<EffectType>,
    a: ActionDefView,
    lease: LeaseView,
    rules: Seq<PolicyRule>,
    now: i128,
)
    requires
        a.requires_approval,
    ensures
        !(decision(global, denied, a, lease, rules, now) is Allow),
{
}

/// Data that a model made never has a financial or an external effect that was
/// simply allowed.
pub proof fn generated_data_needs_approval(d: PolicyView, a: ActionDefView)
    requires
        a.effects.contains(EffectType::Financial) || a.effects.contains(
            EffectType::WriteExternal,
        ),
    ensures
        !(tainted(d, a, Provenance::LlmGenerated) is Allow),
{
}

/// The output of an action never has a financial effect that was simply allowed.
pub proof fn tool_output_needs_approval(d: PolicyView, a: ActionDefView, action_name: String)
    requires
        a.effects.contains(EffectType::Financial),
    ensures
        !(tainted(d, a, Provenance::ToolOutput { action_name }) is Allow),
{
}

/// Where data comes from a user, the system or memory, it changes no decision.
pub proof fn trusted_data_changes_nothing(d: PolicyView, a: ActionDefView, p: Provenance)
    requires
        p is User || p is System || p is MemoryRetrieval,
    ensures
        tainted(d, a, p) == d,
{
}

proof fn lemma_rules_in_turn(
    d: PolicyView,
    first: Seq<PolicyRule>,
    second: Seq<PolicyRule>,
    a: ActionDefView,
)
    ensures
        after_rules(after_rules(d, first, a), second, a) == after_rules(d, first + second, a),
    decreases second.len(),
{
    if second.len() == 0 {
        assert(first + second =~= first);
    } else {
        lemma_rules_in_turn(d, first, second.drop_last(), a);
        assert((first + second).drop_last() =~= first + second.drop_last());
        assert((first + second).last() == second.last());
    }
}

proof fn lemma_asking_rule(d: PolicyView, rules: Seq<PolicyRule>, a: ActionDefView, k: int)
    requires
        0 <= k < rules.len(),
        applies(rules[k], a),
        rules[k].effect == PolicyEffect::RequireApproval,
    ensures
        !(after_rules(d, rules, a) is Allow),
    decreases rules.len(),
{
    if k < rules.len() - 1 {
        lemma_asking_rule(d, rules.drop_last(), a, k);
    }
}

/// A rule on an effect holds for every action that has the effect, in whatever place
/// the effect stands among the others of the action and the rule among those in force:
/// where it denies the action is denied under any lease, and where it asks for approval
/// the action is not simply allowed.
pub proof fn rule_on_an_effect_holds(
    global: Seq<PolicyRule>,
    denied: Seq<EffectType>,
    a: ActionDefView,
    lease: LeaseView,
    rules: Seq<PolicyRule>,
    now: i128,
    i: int,
    k: int,
)
    requires
        0 <= i < a.effects.len(),
        0 <= k < global.len() + rules.len(),
        (global + rules)[k].condition == PolicyCondition::EffectTypeIs(a.effects[i]),
    ensures
        (global + rules)[k].effect == PolicyEffect::Deny ==> decision(
            global,
            denied,
            a,
            lease,
            rules,
            now,
        ) is Deny,
        (global + rules)[k].effect == PolicyEffect::RequireApproval ==> !(decision(
            global,
            denied,
            a,
            lease,
            rules,
            now,
        ) is Allow),
{
    lemma_rules_in_turn(PolicyView::Allow, global, rules, a);
    assert(a.effects.contains(a.effects[i]));
    if (global + rules)[k].effect == PolicyEffect::Deny {
        denying_rule_denies(PolicyView::Allow, global + rules, a, k);
    } else if (global + rules)[k].effect == PolicyEffect::RequireApproval {
        lemma_asking_rule(PolicyView::Allow, global + rules, a, k);
    }
}

/// A rule on every action, or on the action with a name, holds for that action: where it
/// denies the action is denied under any lease, and where it asks for approval the action
/// is not simply allowed.
pub proof fn rule_on_an_action_holds(
    global: Seq<PolicyRule>,
    denied: Seq<EffectType>,
    a: ActionDefView,
    lease: LeaseView,
    rules: Seq<PolicyRule>,
    now: i128,
    k: int,
)
    requires
        0 <= k < global.len() + rules.len(),
        (global + rules)[k].condition is Always || ((
        global + rules)[k].condition matches PolicyCondition::ActionMatches { pattern }
            && pattern@ == a.name),
    ensures
        (global + rules)[k].effect == PolicyEffect::Deny ==> decision(
            global,
            denied,
            a,
            lease,
            rules,
            now,
        ) is Deny,
        (global + rules)[k].effect == PolicyEffect::RequireApproval ==> !(decision(
            global,
            denied,
            a,
            lease,
            rules,
            now,
        ) is Allow),
{
    lemma_rules_in_turn(PolicyView::Allow, global, rules, a);
    if (global + rules)[k].effect == PolicyEffect::Deny {
        denying_rule_denies(PolicyView::Allow, global + rules, a, k);
    } else if (global + rules)[k].effect == PolicyEffect::RequireApproval {
        lemma_asking_rule(PolicyView::Allow, global + rules, a, k);
    }
}

proof fn lemma_no_denying_rule(d: PolicyView, rules: Seq<PolicyRule>, a: ActionDefView)
    requires
        !(d is Deny),
        forall|k: int|
            0 <= k < rules.len() && applies(#[trigger] rules[k], a) ==> rules[k].effect
                != PolicyEffect::Deny,
    ensures
        !(after_rules(d, rules, a) is Deny),
        (d is Allow && forall|k: int|
            0 <= k < rules.len() && applies(#[trigger] rules[k], a) ==> rules[k].effect
                == PolicyEffect::Allow) ==> after_rules(d, rules, a) is Allow,
    decreases rules.len(),
{
    if rules.len() > 0 {
        let r = rules.drop_last();
        assert forall|k: int| 0 <= k < r.len() && applies(#[trigger] r[k], a) implies r[k].effect
            != PolicyEffect::Deny by {
            assert(r[k] == rules[k]);
        }
        assert(rules[rules.len() - 1] == rules.last());
        lemma_no_denying_rule(d, r, a);
        if forall|k: int|
            0 <= k < rules.len() && applies(#[trigger] rules[k], a) ==> rules[k].effect
                == PolicyEffect::Allow {
            assert forall|k: int| 0 <= k < r.len() && applies(#[trigger] r[k], a) implies r[k].effect
                == PolicyEffect::Allow by {
                assert(r[k] == rules[k]);
            }
        }
    }
}

/// Nothing is denied without a cause: under a valid lease that covers it, an action none
/// of whose effects is denied is not denied where no rule that denies is on it; and it is
/// allowed where it does not itself require approval and no rule that asks for approval
/// is on it either. A rule is on an action that it names, on one that has its effect, and
/// on every action where it has no condition.
pub proof fn nothing_is_denied_without_a_cause(
    global: Seq<PolicyRule>,
    denied: Seq<EffectType>,
    a: ActionDefView,
    lease: LeaseView,
    rules: Seq<PolicyRule>,
    now: i128,
)
    requires
        lease.valid(now),
        lease.granted.covers(a.name),
        forall|i: int| 0 <= i < a.effects.len() ==> !denied.contains(#[trigger] a.effects[i]),
        forall|k: int|
            0 <= k < global.len() + rules.len() && (#[trigger] (global + rules)[k]).effect
                == PolicyEffect::Deny ==> match (global + rules)[k].condition {
                PolicyCondition::Always => false,
                PolicyCondition::ActionMatches { pattern } => pattern@ != a.name,
                PolicyCondition::EffectTypeIs(e) => forall|i: int|
                    0 <= i < a.effects.len() ==> (#[trigger] a.effects[i]) != e,
            },
    ensures
        !(decision(global, denied, a, lease, rules, now) is Deny),
        (!a.requires_approval && forall|k: int|
            0 <= k < global.len() + rules.len() && (#[trigger] (global + rules)[k]).effect
                == PolicyEffect::RequireApproval ==> match (global + rules)[k].condition {
                PolicyCondition::Always => false,
                PolicyCondition::ActionMatches { pattern } => pattern@ != a.name,
                PolicyCondition::EffectTypeIs(e) => forall|i: int|
                    0 <= i < a.effects.len() ==> (#[trigger] a.effects[i]) != e,
            }) ==> decision(global, denied, a, lease, rules, now) is Allow,
{
    let all = global + rules;
    lemma_none_denied(a.effects, denied);
    lemma_rules_in_turn(PolicyView::Allow, global, rules, a);
    assert forall|k: int| 0 <= k < all.len() && applies(#[trigger] all[k], a) implies all[k].effect
        != PolicyEffect::Deny by {}
    lemma_no_denying_rule(PolicyView::Allow, all, a);
}

proof fn lemma_none_denied(effects: Seq<EffectType>, denied: Seq<EffectType>)
    requires
        forall|i: int| 0 <= i < effects.len() ==> !denied.contains(#[trigger] effects[i]),
    ensures
        first_denied(effects, denied) == effects.len(),
    decreases effects.len(),
{
    if effects.len() > 0 {
        let r = effects.drop_first();
        assert(!denied.contains(effects[0]));
        assert forall|i: int| 0 <= i < r.len() implies !denied.contains(#[trigger] r[i]) by {
            assert(r[i] == effects[i + 1]);
        }
        lemma_none_denied(r, denied);
    }
}

/// The reason of a denial is the name of the last rule that denies and is on the action.
pub proof fn denial_names_its_rule(
    d: PolicyView,
    rules: Seq<PolicyRule>,
    a: ActionDefView,
    k: int,
)
    requires
        0 <= k < rules.len(),
        rules[k].effect == PolicyEffect::Deny,
        match rules[k].condition {
            PolicyCondition::Always => true,
            PolicyCondition::ActionMatches { pattern } => pattern@ == a.name,
            PolicyCondition::EffectTypeIs(e) => exists|i: int|
                0 <= i < a.effects.len() && (#[trigger] a.effects[i]) == e,
        },
        forall|j: int| k < j < rules.len() ==> (#[trigger] rules[j]).effect != PolicyEffect::Deny,
    ensures
        after_rules(d, rules, a) == PolicyView::Deny(rules[k].name@),
    decreases rules.len(),
{
    if k < rules.len() - 1 {
        let r = rules.drop_last();
        assert forall|j: int| k < j < r.len() implies (#[trigger] r[j]).effect
            != PolicyEffect::Deny by {
            assert(r[j] == rules[j]);
        }
        assert(rules[rules.len() - 1].effect != PolicyEffect::Deny);
        denial_names_its_rule(d, r, a, k);
    } else if let PolicyCondition::EffectTypeIs(e) = rules[k].condition {
        assert(a.effects.contains(e));
    }
}

/// An action that its lease does not cover, or whose lease is no longer valid, is denied
/// whatever the rules are.
pub proof fn nothing_runs_without_its_lease(
    global: Seq<PolicyRule>,
    denied: Seq<EffectType>,
    a: ActionDefView,
    lease: LeaseView,
    rules: Seq<PolicyRule>,
    now: i128,
)
    requires
        !lease.valid(now) || !lease.granted.covers(a.name),
    ensures
        decision(global, denied, a, lease, rules, now) is Deny,
{
}

/// Data that a model made changes no decision on an action without financial or external
/// effects, and the output of an action none on one without financial effects; where a
/// decision changes it becomes a request for approval.
pub proof fn generated_data_changes_nothing_else(
    d: PolicyView,
    a: ActionDefView,
    action_name: String,
)
    ensures
        (forall|i: int|
            0 <= i < a.effects.len() ==> (#[trigger] a.effects[i]) != EffectType::Financial
                && a.effects[i] != EffectType::WriteExternal) ==> tainted(
            d,
            a,
            Provenance::LlmGenerated,
        ) == d,
        (forall|i: int|
            0 <= i < a.effects.len() ==> (#[trigger] a.effects[i]) != EffectType::Financial)
            ==> tainted(d, a, Provenance::ToolOutput { action_name }) == d,
        tainted(d, a, Provenance::LlmGenerated) != d ==> tainted(
            d,
            a,
            Provenance::LlmGenerated,
        ) is RequireApproval,
        tainted(d, a, Provenance::ToolOutput { action_name }) != d ==> tainted(
            d,
            a,
            Provenance::ToolOutput { action_name },
        ) is RequireApproval,
{
}

/// An effect that a model, or the output of an action, may not have on its own is put to
/// approval in whatever place it stands among the effects of an action.
pub proof fn risky_effects_are_put_to_approval(
    d: PolicyView,
    a: ActionDefView,
    action_name: String,
    i: int,
)
    requires
        0 <= i < a.effects.len(),
        !(d is Deny),
    ensures
        a.effects[i] == EffectType::Financial || a.effects[i] == EffectType::WriteExternal
            ==> tainted(d, a, Provenance::LlmGenerated) is RequireApproval,
        a.effects[i] == EffectType::Financial ==> tainted(
            d,
            a,
            Provenance::ToolOutput { action_name },
        ) is RequireApproval,
{
    assert(a.effects.contains(a.effects[i]));
}

} // verus!

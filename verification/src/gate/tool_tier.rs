//! Tool tiers: how much an action may do, by its name, its approval requirement
//! and its effects.

use vstd::prelude::*;

use crate::text::str_eq;
use crate::types::capability::{ActionDef, ActionDefView, EffectType};

verus! {

/// The actions that never run without a user.
pub open spec fn denylist() -> Seq<Seq<char>> {
    seq![
        "routine_create"@,
        "routine_update"@,
        "routine_delete"@,
        "routine_fire"@,
        "event_emit"@,
        "create_job"@,
        "job_prompt"@,
        "restart"@,
        "tool_install"@,
        "tool_auth"@,
        "tool_activate"@,
        "tool_remove"@,
        "tool_upgrade"@,
        "skill_install"@,
        "skill_remove"@,
        "secret_list"@,
        "secret_delete"@,
    ]
}

/// The actions that never run without a user. They are administrative whatever
/// effects they declare.
pub fn autonomous_tool_denylist() -> (r: Vec<&'static str>)
    ensures
        r@.map_values(|s: &'static str| s@) == denylist(),
{
    let r: Vec<&'static str> = vec![
        "routine_create",
        "routine_update",
        "routine_delete",
        "routine_fire",
        "event_emit",
        "create_job",
        "job_prompt",
        "restart",
        "tool_install",
        "tool_auth",
        "tool_activate",
        "tool_remove",
        "tool_upgrade",
        "skill_install",
        "skill_remove",
        "secret_list",
        "secret_delete",
    ];
    assert(r@.map_values(|s: &'static str| s@) =~= denylist());
    r
}

/// Whether the action is one that never runs without a user.
pub fn is_autonomous_denylisted(action_name: &str) -> (r: bool)
    ensures
        r == denylist().contains(action_name@),
{
    let list = autonomous_tool_denylist();
    let ghost names = list@.map_values(|s: &'static str| s@);
    let mut i: usize = 0;
    while i < list.len()
        invariant
            i <= list@.len(),
            names == list@.map_values(|s: &'static str| s@),
            names == denylist(),
            forall|j: int| 0 <= j < i ==> names[j] != action_name@,
        decreases list@.len() - i,
    {
        if str_eq(list[i], action_name) {
            assert(names[i as int] == action_name@);
            return true;
        }
        i = i + 1;
    }
    false
}

/// The privilege tier of an action. The tiers are ordered as they are listed.
#[derive(Debug, Clone, Copy, PartialEq, Eq, PartialOrd, Ord, Hash, Structural)]
pub enum ToolTier {
    /// No side effects.
    ReadOnly,
    /// Creates or reads local state.
    Stateful,
    /// Writes or acts outside.
    Privileged,
    /// Operates on the system itself and never runs without a user.
    Administrative,
}

/// The rank of a tier in their order.
pub open spec fn rank(t: ToolTier) -> int {
    match t {
        ToolTier::ReadOnly => 0,
        ToolTier::Stateful => 1,
        ToolTier::Privileged => 2,
        ToolTier::Administrative => 3,
    }
}

/// Whether an effect only reads or computes.
pub open spec fn harmless(e: EffectType) -> bool {
    e == EffectType::ReadLocal || e == EffectType::Compute
}

/// The tier of an action: a denied name makes it administrative, a needed approval
/// privileged, effects that only read or compute read-only, and anything else
/// (no effects at all included) stateful.
pub open spec fn tier_of(a: ActionDefView) -> ToolTier {
    if denylist().contains(a.name) {
        ToolTier::Administrative
    } else if a.requires_approval {
        ToolTier::Privileged
    } else if a.effects.len() > 0 && forall|i: int|
        0 <= i < a.effects.len() ==> harmless(#[trigger] a.effects[i]) {
        ToolTier::ReadOnly
    } else {
        ToolTier::Stateful
    }
}

/// Classifies an action.
pub fn classify_tool_tier(action: &ActionDef) -> (r: ToolTier)
    ensures
        r == tier_of(action@),
{
    if is_autonomous_denylisted(action.name.as_str()) {
        return ToolTier::Administrative;
    }
    if action.requires_approval {
        return ToolTier::Privileged;
    }
    if action.effects.len() == 0 {
        return ToolTier::Stateful;
    }
    let mut i: usize = 0;
    while i < action.effects.len()
        invariant
            i <= action.effects@.len(),
            !denylist().contains(action.name@),
            !action.requires_approval,
            forall|j: int| 0 <= j < i ==> harmless(#[trigger] action.effects@[j]),
        decreases action.effects@.len() - i,
    {
        match action.effects[i] {
            EffectType::ReadLocal | EffectType::Compute => {},
            _ => {
                assert(!harmless(action.effects@[i as int]));
                return ToolTier::Stateful;
            },
        }
        i = i + 1;
    }
    ToolTier::ReadOnly
}

/// An action with an effect beyond reading locally and computing, in whatever place that
/// stands among its effects, is not read-only; one with such effects alone is, where it
/// needs no approval and its name is not on the list of those that never run without a
/// user; and one of which no effects are known is taken for one with effects.
pub proof fn effects_decide_the_tier(a: ActionDefView, i: int)
    ensures
        0 <= i < a.effects.len() && a.effects[i] != EffectType::ReadLocal && a.effects[i]
            != EffectType::Compute ==> tier_of(a) != ToolTier::ReadOnly,
        !denylist().contains(a.name) && !a.requires_approval && 0 <= i < a.effects.len()
            && a.effects[i] != EffectType::ReadLocal && a.effects[i] != EffectType::Compute
            ==> tier_of(a) == ToolTier::Stateful,
        a.effects.len() == 0 ==> tier_of(a) != ToolTier::ReadOnly,
        !denylist().contains(a.name) && !a.requires_approval && a.effects.len() > 0 && (forall|k:
            int|
            0 <= k < a.effects.len() ==> (#[trigger] a.effects[k]) == EffectType::ReadLocal
                || a.effects[k] == EffectType::Compute) ==> tier_of(a) == ToolTier::ReadOnly,
{
    if 0 <= i < a.effects.len() {
        assert(harmless(a.effects[i]) || !harmless(a.effects[i]));
    }
}

/// An action that needs approval is privileged at least, and one on the list of those that
/// never run without a user is administrative, whatever its effects.
pub proof fn approval_and_names_decide_before_effects(a: ActionDefView)
    ensures
        a.requires_approval && !denylist().contains(a.name) ==> tier_of(a) == ToolTier::Privileged,
        a.requires_approval ==> rank(tier_of(a)) >= rank(ToolTier::Privileged),
        denylist().contains(a.name) ==> tier_of(a) == ToolTier::Administrative,
        !a.requires_approval && !denylist().contains(a.name) ==> rank(tier_of(a)) <= rank(
            ToolTier::Stateful,
        ),
{
}

/// What changes routines, jobs, tools, skills or secrets never runs without a user.
pub proof fn administration_never_runs_without_a_user()
    ensures
        denylist().len() == 17,
        denylist().contains("routine_create"@),
        denylist().contains("routine_update"@),
        denylist().contains("routine_delete"@),
        denylist().contains("routine_fire"@),
        denylist().contains("event_emit"@),
        denylist().contains("create_job"@),
        denylist().contains("job_prompt"@),
        denylist().contains("restart"@),
        denylist().contains("tool_install"@),
        denylist().contains("tool_auth"@),
        denylist().contains("tool_activate"@),
        denylist().contains("tool_remove"@),
        denylist().contains("tool_upgrade"@),
        denylist().contains("skill_install"@),
        denylist().contains("skill_remove"@),
        denylist().contains("secret_list"@),
        denylist().contains("secret_delete"@),
{
    let d = denylist();
    assert(d[0] == "routine_create"@ && d[1] == "routine_update"@ && d[2] == "routine_delete"@
        && d[3] == "routine_fire"@ && d[4] == "event_emit"@ && d[5] == "create_job"@ && d[6]
        == "job_prompt"@ && d[7] == "restart"@ && d[8] == "tool_install"@ && d[9] == "tool_auth"@
        && d[10] == "tool_activate"@ && d[11] == "tool_remove"@ && d[12] == "tool_upgrade"@
        && d[13] == "skill_install"@ && d[14] == "skill_remove"@ && d[15] == "secret_list"@
        && d[16] == "secret_delete"@);
}

/// The tiers are ordered by what they may do.
pub proof fn tiers_are_ordered()
    ensures
        rank(ToolTier::ReadOnly) < rank(ToolTier::Stateful) < rank(ToolTier::Privileged) < rank(
            ToolTier::Administrative,
        ),
{
}

} // verus!

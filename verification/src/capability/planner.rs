//! Lease planning for new threads.
//!
//! A plan turns the registered capabilities and the type of a thread into explicit
//! grants. A foreground thread is granted every action: its user approves. A
//! research thread is granted read-only and stateful actions. A mission thread is
//! granted these and the privileged actions that may run without a user.

use vstd::prelude::*;

use crate::capability::registry::CapabilityRegistry;
use crate::gate::tool_tier::{
    classify_tool_tier, denylist, is_autonomous_denylisted, rank, tier_of, ToolTier,
};
use crate::text::texts;
use crate::types::capability::{ActionDef, Capability, GrantedActions, GrantedView};
use crate::types::thread::ThreadType;

verus! {

/// The grant that is planned of one capability.
#[derive(Debug, PartialEq, Eq)]
pub struct CapabilityGrantPlan {
    pub capability_name: String,
    pub granted_actions: GrantedActions,
}

/// What a planned grant holds.
pub struct PlanView {
    pub capability_name: Seq<char>,
    pub granted: GrantedView,
}

impl View for CapabilityGrantPlan {
    type V = PlanView;

    open spec fn view(&self) -> PlanView {
        PlanView { capability_name: self.capability_name@, granted: self.granted_actions@ }
    }
}

/// What a list of planned grants holds.
pub open spec fn plan_views(v: Seq<CapabilityGrantPlan>) -> Seq<PlanView> {
    v.map_values(|p: CapabilityGrantPlan| p@)
}

/// Whether a thread of this type may be granted an action of this tier.
pub open spec fn allowed(t: ThreadType, action: Seq<char>, tier: ToolTier) -> bool {
    match t {
        ThreadType::Foreground => true,
        ThreadType::Research => rank(tier) <= rank(ToolTier::Stateful),
        ThreadType::Mission => rank(tier) <= rank(ToolTier::Stateful) || (tier
            == ToolTier::Privileged && !denylist().contains(action)),
    }
}

/// Whether a thread of this type is granted the action.
pub open spec fn plans(t: ThreadType, a: ActionDef) -> bool {
    allowed(t, a.name@, tier_of(a@))
}

/// The names of the actions that a thread of this type is granted, in order.
pub open spec fn granted_names(t: ThreadType, actions: Seq<ActionDef>) -> Seq<Seq<char>>
    decreases actions.len(),
{
    if actions.len() == 0 {
        Seq::empty()
    } else {
        let rest = granted_names(t, actions.drop_last());
        if plans(t, actions.last()) {
            rest.push(actions.last().name@)
        } else {
            rest
        }
    }
}

/// The plan for a thread of this type: for each capability the actions that it is
/// granted, and nothing of a capability of which it is granted none.
pub open spec fn plan(t: ThreadType, caps: Seq<Capability>) -> Seq<PlanView>
    decreases caps.len(),
{
    if caps.len() == 0 {
        Seq::empty()
    } else {
        let rest = plan(t, caps.drop_last());
        let names = granted_names(t, caps.last().actions@);
        if names.len() == 0 {
            rest
        } else {
            rest.push(
                PlanView {
                    capability_name: caps.last().name@,
                    granted: GrantedView::Specific(names),
                },
            )
        }
    }
}

/// Plans explicit capability leases for new threads.
#[derive(Debug)]
pub struct LeasePlanner;

impl LeasePlanner {
    /// A planner.
    pub fn new() -> (r: LeasePlanner)
        ensures
            r == LeasePlanner,
    {
        LeasePlanner
    }

    /// Whether a thread of this type may be granted an action of this tier.
    pub fn tier_allowed(thread_type: ThreadType, action_name: &str, tier: ToolTier) -> (r: bool)
        ensures
            r == allowed(thread_type, action_name@, tier),
    {
        match thread_type {
            ThreadType::Foreground => true,
            ThreadType::Research => match tier {
                ToolTier::ReadOnly | ToolTier::Stateful => true,
                ToolTier::Privileged | ToolTier::Administrative => false,
            },
            ThreadType::Mission => match tier {
                ToolTier::ReadOnly | ToolTier::Stateful => true,
                ToolTier::Privileged => !is_autonomous_denylisted(action_name),
                ToolTier::Administrative => false,
            },
        }
    }

    fn names_for(thread_type: ThreadType, actions: &Vec<ActionDef>) -> (r: Vec<String>)
        ensures
            texts(r@) == granted_names(thread_type, actions@),
    {
        let mut out: Vec<String> = Vec::new();
        let mut i: usize = 0;
        assert(actions@.take(0) =~= Seq::<ActionDef>::empty());
        assert(texts(out@) =~= Seq::<Seq<char>>::empty());
        while i < actions.len()
            invariant
                i <= actions@.len(),
                texts(out@) == granted_names(thread_type, actions@.take(i as int)),
            decreases actions@.len() - i,
        {
            assert(actions@.take(i + 1).drop_last() =~= actions@.take(i as int));
            let ghost before = out@;
            let tier = classify_tool_tier(&actions[i]);
            if Self::tier_allowed(thread_type, actions[i].name.as_str(), tier) {
                out.push(actions[i].name.clone());
                assert(texts(out@) =~= texts(before).push(actions@[i as int].name@));
            }
            i = i + 1;
        }
        assert(actions@.take(actions@.len() as int) =~= actions@);
        out
    }

    /// The capability grants for a new thread.
    pub fn plan_for_thread(
        &self,
        thread_type: ThreadType,
        capabilities: &CapabilityRegistry,
    ) -> (r: Vec<CapabilityGrantPlan>)
        ensures
            plan_views(r@) == plan(thread_type, capabilities@),
    {
        let caps = capabilities.list();
        let ghost all = capabilities@;
        let mut out: Vec<CapabilityGrantPlan> = Vec::new();
        let mut i: usize = 0;
        assert(all.take(0) =~= Seq::<Capability>::empty());
        assert(plan_views(out@) =~= Seq::<PlanView>::empty());
        while i < caps.len()
            invariant
                i <= caps@.len(),
                caps@.len() == all.len(),
                forall|j: int| 0 <= j < all.len() ==> *(#[trigger] caps@[j]) == all[j],
                plan_views(out@) == plan(thread_type, all.take(i as int)),
            decreases caps@.len() - i,
        {
            assert(all.take(i + 1).drop_last() =~= all.take(i as int));
            assert(all.take(i + 1).last() == *caps@[i as int]);
            let ghost before = out@;
            let names = Self::names_for(thread_type, &caps[i].actions);
            assert(texts(names@).len() == names@.len());
            if names.len() > 0 {
                let p = CapabilityGrantPlan {
                    capability_name: caps[i].name.clone(),
                    granted_actions: GrantedActions::Specific(names),
                };
                let ghost v = p@;
                out.push(p);
                assert(plan_views(out@) =~= plan_views(before).push(v));
            }
            i = i + 1;
        }
        assert(all.take(all.len() as int) =~= all);
        out
    }
}

/// What a plan grants: an action is granted exactly where its capability offers it
/// and the tier that it has is allowed to the thread's type.
pub proof fn granted_iff_allowed(t: ThreadType, actions: Seq<ActionDef>, name: Seq<char>)
    ensures
        granted_names(t, actions).contains(name) <==> exists|i: int|
            0 <= i < actions.len() && plans(t, #[trigger] actions[i]) && actions[i].name@ == name,
    decreases actions.len(),
{
    if actions.len() > 0 {
        let rest = actions.drop_last();
        granted_iff_allowed(t, rest, name);
        let g = granted_names(t, actions);
        let gr = granted_names(t, rest);
        if g.contains(name) {
            let k = choose|k: int| 0 <= k < g.len() && g[k] == name;
            if k < gr.len() {
                assert(gr[k] == name);
                assert(gr.contains(name));
                let i = choose|i: int|
                    0 <= i < rest.len() && plans(t, #[trigger] rest[i]) && rest[i].name@ == name;
                assert(actions[i] == rest[i]);
            } else {
                assert(plans(t, actions[actions.len() - 1]));
            }
        }
        if exists|i: int|
            0 <= i < actions.len() && plans(t, #[trigger] actions[i]) && actions[i].name@ == name {
            let i = choose|i: int|
                0 <= i < actions.len() && plans(t, #[trigger] actions[i]) && actions[i].name@
                    == name;
            if i < rest.len() {
                assert(rest[i] == actions[i]);
                assert(gr.contains(name));
                let k = choose|k: int| 0 <= k < gr.len() && gr[k] == name;
                assert(g[k] == name);
            } else {
                assert(g[g.len() - 1] == name);
            }
        }
    }
}

/// A mission thread is never planned an administrative action, nor one on the list
/// of actions that never run without a user.
pub proof fn missions_exclude_denylisted(actions: Seq<ActionDef>, name: Seq<char>)
    requires
        granted_names(ThreadType::Mission, actions).contains(name),
    ensures
        !denylist().contains(name),
{
    granted_iff_allowed(ThreadType::Mission, actions, name);
}

/// Whatever a research thread is planned, a mission thread is planned too, and
/// whatever that is planned, a foreground thread is.
pub proof fn plans_grow_with_trust(a: ActionDef)
    ensures
        plans(ThreadType::Research, a) ==> plans(ThreadType::Mission, a),
        plans(ThreadType::Mission, a) ==> plans(ThreadType::Foreground, a),
{
}

/// A foreground thread is planned every action; a research thread every action that needs
/// no approval and is not on the list of those that never run without a user, and no other;
/// a mission thread every action that is not on that list, and no other.
pub proof fn actions_are_planned_by_the_type_of_thread(a: ActionDef)
    ensures
        plans(ThreadType::Foreground, a),
        plans(ThreadType::Research, a) <==> !a.requires_approval && !denylist().contains(a.name@),
        plans(ThreadType::Mission, a) <==> !denylist().contains(a.name@),
{
}

/// Every action that is planned is in the plan under its capability, in whatever place
/// both stand.
pub proof fn planned_actions_are_granted(
    t: ThreadType,
    caps: Seq<Capability>,
    i: int,
    j: int,
) -> (k: int)
    requires
        0 <= i < caps.len(),
        0 <= j < caps[i].actions@.len(),
        t == ThreadType::Foreground || (t == ThreadType::Mission && !denylist().contains(
            caps[i].actions@[j].name@,
        )) || (t == ThreadType::Research && !denylist().contains(caps[i].actions@[j].name@)
            && !caps[i].actions@[j].requires_approval),
    ensures
        0 <= k < plan(t, caps).len(),
        plan(t, caps)[k].capability_name == caps[i].name@,
        plan(t, caps)[k].granted.covers(caps[i].actions@[j].name@),
        !(plan(t, caps)[k].granted is All),
    decreases caps.len(),
{
    let rest = caps.drop_last();
    if i < rest.len() {
        assert(rest[i] == caps[i]);
        planned_actions_are_granted(t, rest, i, j)
    } else {
        let actions = caps[i].actions@;
        actions_are_planned_by_the_type_of_thread(actions[j]);
        granted_iff_allowed(t, actions, actions[j].name@);
        assert(plans(t, actions[j]));
        assert(granted_names(t, actions).contains(actions[j].name@));
        assert(granted_names(t, actions).len() > 0);
        plan(t, rest).len() as int
    }
}

/// Nothing is planned that its capability does not offer, or that the thread may not have.
pub proof fn nothing_else_is_granted(
    t: ThreadType,
    caps: Seq<Capability>,
    k: int,
    name: Seq<char>,
) -> (at: (int, int))
    requires
        0 <= k < plan(t, caps).len(),
        plan(t, caps)[k].granted.covers(name),
    ensures
        0 <= at.0 < caps.len(),
        0 <= at.1 < caps[at.0].actions@.len(),
        plan(t, caps)[k].capability_name == caps[at.0].name@,
        caps[at.0].actions@[at.1].name@ == name,
        t != ThreadType::Foreground ==> !denylist().contains(name),
        t == ThreadType::Research ==> !caps[at.0].actions@[at.1].requires_approval,
    decreases caps.len(),
{
    let rest = caps.drop_last();
    if k < plan(t, rest).len() {
        let at = nothing_else_is_granted(t, rest, k, name);
        assert(rest[at.0] == caps[at.0]);
        at
    } else {
        let i = caps.len() - 1;
        let actions = caps[i].actions@;
        granted_iff_allowed(t, actions, name);
        let j = choose|j: int|
            0 <= j < actions.len() && plans(t, #[trigger] actions[j]) && actions[j].name@ == name;
        actions_are_planned_by_the_type_of_thread(actions[j]);
        (i, j)
    }
}

} // verus!

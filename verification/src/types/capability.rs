//! Capabilities, the actions they offer, and the leases that grant them.

use vstd::prelude::*;

use crate::json::{Json, JsonView};
use crate::types::ids::{DocId, LeaseId, ThreadId};
use crate::text::{clone_opt, clone_strings, contains_string, holds, opt_text, texts};

verus! {

/// What an action does to the world.
#[derive(Debug, Clone, Copy, PartialEq, Eq, Structural)]
pub enum EffectType {
    ReadLocal,
    ReadExternal,
    WriteLocal,
    WriteExternal,
    CredentialedNetwork,
    Compute,
    Financial,
}

/// The name of an effect type.
pub open spec fn effect_text(e: EffectType) -> Seq<char> {
    match e {
        EffectType::ReadLocal => "ReadLocal"@,
        EffectType::ReadExternal => "ReadExternal"@,
        EffectType::WriteLocal => "WriteLocal"@,
        EffectType::WriteExternal => "WriteExternal"@,
        EffectType::CredentialedNetwork => "CredentialedNetwork"@,
        EffectType::Compute => "Compute"@,
        EffectType::Financial => "Financial"@,
    }
}

impl EffectType {
    /// The name of the effect type.
    pub fn name(&self) -> (r: &'static str)
        ensures
            r@ == effect_text(*self),
    {
        match self {
            EffectType::ReadLocal => "ReadLocal",
            EffectType::ReadExternal => "ReadExternal",
            EffectType::WriteLocal => "WriteLocal",
            EffectType::WriteExternal => "WriteExternal",
            EffectType::CredentialedNetwork => "CredentialedNetwork",
            EffectType::Compute => "Compute",
            EffectType::Financial => "Financial",
        }
    }
}

/// Whether the list holds the effect.
pub fn has_effect(v: &Vec<EffectType>, e: EffectType) -> (r: bool)
    ensures
        r == v@.contains(e),
{
    let mut i: usize = 0;
    while i < v.len()
        invariant
            i <= v@.len(),
            forall|j: int| 0 <= j < i ==> v@[j] != e,
        decreases v@.len() - i,
    {
        if v[i] == e {
            assert(v@[i as int] == e);
            return true;
        }
        i = i + 1;
    }
    false
}

/// An action that a capability offers.
#[derive(Debug, PartialEq, Eq)]
pub struct ActionDef {
    pub name: String,
    pub description: String,
    pub parameters_schema: Json,
    pub effects: Vec<EffectType>,
    pub requires_approval: bool,
}

/// What an action definition holds.
pub struct ActionDefView {
    pub name: Seq<char>,
    pub description: Seq<char>,
    pub parameters_schema: JsonView,
    pub effects: Seq<EffectType>,
    pub requires_approval: bool,
}

impl View for ActionDef {
    type V = ActionDefView;

    open spec fn view(&self) -> ActionDefView {
        ActionDefView {
            name: self.name@,
            description: self.description@,
            parameters_schema: self.parameters_schema@,
            effects: self.effects@,
            requires_approval: self.requires_approval,
        }
    }
}

impl Clone for ActionDef {
    fn clone(&self) -> (r: ActionDef)
        ensures
            r@ == self@,
    {
        let mut effects: Vec<EffectType> = Vec::new();
        let mut i: usize = 0;
        while i < self.effects.len()
            invariant
                i <= self.effects@.len(),
                effects@ == self.effects@.take(i as int),
            decreases self.effects@.len() - i,
        {
            effects.push(self.effects[i]);
            assert(self.effects@.take(i + 1) =~= self.effects@.take(i as int).push(
                self.effects@[i as int],
            ));
            i = i + 1;
        }
        assert(self.effects@.take(self.effects@.len() as int) =~= self.effects@);
        ActionDef {
            name: self.name.clone(),
            description: self.description.clone(),
            parameters_schema: self.parameters_schema.clone(),
            effects,
            requires_approval: self.requires_approval,
        }
    }
}

/// A named set of actions with the knowledge and the policies that go with it.
#[derive(Debug, PartialEq, Eq)]
pub struct Capability {
    pub name: String,
    pub description: String,
    pub actions: Vec<ActionDef>,
    pub knowledge: Vec<String>,
    pub policies: Vec<PolicyRule>,
}

/// When a policy rule applies.
#[derive(Debug, PartialEq, Eq)]
pub enum PolicyCondition {
    Always,
    ActionMatches { pattern: String },
    EffectTypeIs(EffectType),
}

/// What a policy rule asks for.
#[derive(Debug, Clone, Copy, PartialEq, Eq, Structural)]
pub enum PolicyEffect {
    Allow,
    Deny,
    RequireApproval,
}

/// A policy rule.
#[derive(Debug, PartialEq, Eq)]
pub struct PolicyRule {
    pub name: String,
    pub condition: PolicyCondition,
    pub effect: PolicyEffect,
}

/// Where the data that an action is called with comes from.
#[derive(Debug, PartialEq, Eq)]
pub enum Provenance {
    User,
    System,
    ToolOutput { action_name: String },
    LlmGenerated,
    MemoryRetrieval { doc_id: DocId },
}

/// The actions that a lease grants.
#[derive(Debug, PartialEq, Eq)]
pub enum GrantedActions {
    /// Every action of the capability.
    All,
    /// The actions with these names.
    Specific(Vec<String>),
}

/// What a grant holds.
pub enum GrantedView {
    All,
    Specific(Seq<Seq<char>>),
}

impl GrantedView {
    /// Whether the grant covers the action with this name.
    pub open spec fn covers(self, action: Seq<char>) -> bool {
        match self {
            GrantedView::All => true,
            GrantedView::Specific(names) => names.contains(action),
        }
    }
}

impl View for GrantedActions {
    type V = GrantedView;

    open spec fn view(&self) -> GrantedView {
        match self {
            GrantedActions::All => GrantedView::All,
            GrantedActions::Specific(v) => GrantedView::Specific(texts(v@)),
        }
    }
}

impl Clone for GrantedActions {
    fn clone(&self) -> (r: GrantedActions)
        ensures
            r@ == self@,
    {
        match self {
            GrantedActions::All => GrantedActions::All,
            GrantedActions::Specific(v) => GrantedActions::Specific(clone_strings(v)),
        }
    }
}

impl GrantedActions {
    /// Whether the grant covers the action with this name.
    pub fn covers(&self, action: &str) -> (r: bool)
        ensures
            r == self@.covers(action@),
    {
        match self {
            GrantedActions::All => true,
            GrantedActions::Specific(v) => {
                let r = contains_string(v, action);
                proof {
                    lemma_holds_texts(v@, action@);
                }
                r
            },
        }
    }

    /// The names of the actions that are granted one by one; none where every action of
    /// the capability is.
    pub fn actions(&self) -> (r: Vec<String>)
        ensures
            texts(r@) == match self@ {
                GrantedView::All => Seq::empty(),
                GrantedView::Specific(v) => v,
            },
    {
        match self {
            GrantedActions::All => {
                let v: Vec<String> = Vec::new();
                assert(texts(v@) =~= Seq::empty());
                v
            },
            GrantedActions::Specific(v) => clone_strings(v),
        }
    }
}

/// A list holds a string exactly when its texts contain it.
pub proof fn lemma_holds_texts(v: Seq<String>, s: Seq<char>)
    ensures
        holds(v, s) == texts(v).contains(s),
{
    if holds(v, s) {
        let i = choose|i: int| 0 <= i < v.len() && #[trigger] v[i]@ == s;
        assert(texts(v)[i] == s);
    }
    if texts(v).contains(s) {
        let i = choose|i: int| 0 <= i < texts(v).len() && texts(v)[i] == s;
        assert(v[i]@ == s);
    }
}

/// A grant of a capability's actions to a thread, bounded in time and in uses.
///
/// Times are nanoseconds since the epoch.
#[derive(Debug, PartialEq, Eq)]
pub struct CapabilityLease {
    pub id: LeaseId,
    pub thread_id: ThreadId,
    pub capability_name: String,
    pub granted_actions: GrantedActions,
    pub granted_at: i128,
    pub expires_at: Option<i128>,
    pub max_uses: Option<u32>,
    pub uses_remaining: Option<u32>,
    pub revoked: bool,
    pub revoked_reason: Option<String>,
}

/// What a lease holds.
pub struct LeaseView {
    pub id: LeaseId,
    pub thread_id: ThreadId,
    pub capability_name: Seq<char>,
    pub granted: GrantedView,
    pub granted_at: i128,
    pub expires_at: Option<i128>,
    pub max_uses: Option<u32>,
    pub uses_remaining: Option<u32>,
    pub revoked: bool,
    pub revoked_reason: Option<Seq<char>>,
}

impl LeaseView {
    /// A lease is valid while it is not revoked, not expired and not used up.
    pub open spec fn valid(self, now: i128) -> bool {
        &&& !self.revoked
        &&& (self.expires_at matches Some(t) ==> now < t)
        &&& self.uses_remaining != Some(0u32)
    }

    /// The lease with one use less, where its uses are counted.
    pub open spec fn consumed(self) -> LeaseView {
        match self.uses_remaining {
            Some(n) if n > 0 => LeaseView { uses_remaining: Some((n - 1) as u32), ..self },
            _ => self,
        }
    }

    /// The lease with one use more, up to the number it was granted.
    pub open spec fn refunded(self) -> LeaseView {
        match (self.uses_remaining, self.max_uses) {
            (Some(n), Some(m)) if n < m => LeaseView {
                uses_remaining: Some((n + 1) as u32),
                ..self
            },
            _ => self,
        }
    }
}

impl View for CapabilityLease {
    type V = LeaseView;

    open spec fn view(&self) -> LeaseView {
        LeaseView {
            id: self.id,
            thread_id: self.thread_id,
            capability_name: self.capability_name@,
            granted: self.granted_actions@,
            granted_at: self.granted_at,
            expires_at: self.expires_at,
            max_uses: self.max_uses,
            uses_remaining: self.uses_remaining,
            revoked: self.revoked,
            revoked_reason: opt_text(self.revoked_reason),
        }
    }
}

impl Clone for CapabilityLease {
    fn clone(&self) -> (r: CapabilityLease)
        ensures
            r@ == self@,
    {
        CapabilityLease {
            id: self.id,
            thread_id: self.thread_id,
            capability_name: self.capability_name.clone(),
            granted_actions: self.granted_actions.clone(),
            granted_at: self.granted_at,
            expires_at: self.expires_at,
            max_uses: self.max_uses,
            uses_remaining: self.uses_remaining,
            revoked: self.revoked,
            revoked_reason: clone_opt(&self.revoked_reason),
        }
    }
}

impl CapabilityLease {
    /// Whether the lease may be used at the time `now`.
    pub fn is_valid(&self, now: i128) -> (r: bool)
        ensures
            r == self@.valid(now),
    {
        let live = match self.expires_at {
            Some(t) => now < t,
            None => true,
        };
        let used_up = match self.uses_remaining {
            Some(n) => n == 0,
            None => false,
        };
        !self.revoked && live && !used_up
    }

    /// Whether the lease grants the action with this name.
    pub fn covers_action(&self, action: &str) -> (r: bool)
        ensures
            r == self@.granted.covers(action@),
    {
        self.granted_actions.covers(action)
    }

    /// Takes one use; `false` where none is left.
    pub fn consume_use(&mut self) -> (r: bool)
        ensures
            r == (old(self)@.uses_remaining != Some(0u32)),
            final(self)@ == old(self)@.consumed(),
    {
        match self.uses_remaining {
            Some(n) => {
                if n == 0 {
                    false
                } else {
                    self.uses_remaining = Some(n - 1);
                    true
                }
            },
            None => true,
        }
    }

    /// Gives one use back, up to the number that was granted.
    pub fn refund_use(&mut self)
        ensures
            final(self)@ == old(self)@.refunded(),
    {
        if let (Some(n), Some(m)) = (self.uses_remaining, self.max_uses) {
            if n < m {
                self.uses_remaining = Some(n + 1);
            }
        }
    }
}

/// Whether a lease has no more uses left than it was granted.
pub open spec fn within_budget(l: LeaseView) -> bool {
    l.uses_remaining matches Some(n) ==> (l.max_uses matches Some(m) && n <= m)
}

/// A use that was taken and given back leaves the lease as it was.
pub proof fn refund_undoes_consume(l: LeaseView)
    requires
        l.uses_remaining != Some(0u32),
        within_budget(l),
    ensures
        l.consumed().refunded() == l,
{
}

/// However uses are taken and given back, a lease never has more of them left than it
/// was granted.
pub proof fn budget_is_kept(l: LeaseView)
    requires
        within_budget(l),
    ensures
        within_budget(l.consumed()),
        within_budget(l.refunded()),
{
}

/// The lease after `n` uses were taken.
pub open spec fn used(l: LeaseView, n: nat) -> LeaseView
    decreases n,
{
    if n == 0 {
        l
    } else {
        used(l, (n - 1) as nat).consumed()
    }
}

/// A lease whose uses are counted bears as many uses as it has left, and is not valid
/// at any time after them.
pub proof fn uses_run_out(l: LeaseView, left: u32, n: nat)
    requires
        l.uses_remaining == Some(left),
    ensures
        n < left ==> used(l, n).uses_remaining == Some((left - n) as u32),
        n >= left ==> forall|now: i128| !(#[trigger] used(l, n).valid(now)),
        n >= left ==> used(l, n).uses_remaining == Some(0u32),
    decreases n,
{
    if n > 0 {
        uses_run_out(l, left, (n - 1) as nat);
    }
}

/// A lease is valid until it is revoked, its time has come or its uses are taken, and not
/// after any of these.
pub proof fn leases_are_bounded(l: LeaseView, now: i128)
    ensures
        l.revoked ==> !l.valid(now),
        (l.uses_remaining matches Some(n) && n == 0) ==> !l.valid(now),
        (l.expires_at matches Some(t) && t <= now) ==> !l.valid(now),
        (!l.revoked && (l.expires_at is None || l.expires_at->0 > now) && (l.uses_remaining is None
            || l.uses_remaining->0 > 0)) ==> l.valid(now),
{
}

/// A lease that is not valid at some time is not valid later, and one that is valid later
/// was valid before.
pub proof fn leases_do_not_come_back(l: LeaseView, now: i128, later: i128)
    requires
        now <= later,
    ensures
        l.valid(later) ==> l.valid(now),
{
}

/// A grant of named actions covers each of them, in whatever place its name stands, and
/// nothing else; a grant of all actions covers any.
pub proof fn grants_cover_what_they_name(names: Seq<Seq<char>>, action: Seq<char>, i: int)
    ensures
        GrantedView::All.covers(action),
        0 <= i < names.len() ==> GrantedView::Specific(names).covers(names[i]),
        (forall|j: int| 0 <= j < names.len() ==> (#[trigger] names[j]) != action)
            ==> !GrantedView::Specific(names).covers(action),
{
}

/// Taking a use and giving one back changes nothing of a lease but the uses that are left:
/// one less where some are, and one more where some were taken.
pub proof fn uses_are_counted_one_by_one(l: LeaseView)
    ensures
        l.consumed() == (LeaseView { uses_remaining: l.consumed().uses_remaining, ..l }),
        l.refunded() == (LeaseView { uses_remaining: l.refunded().uses_remaining, ..l }),
        l.uses_remaining is None ==> l.consumed() == l && l.refunded() == l,
        (l.uses_remaining matches Some(n) && n > 0) ==> l.consumed().uses_remaining == Some(
            (l.uses_remaining->0 - 1) as u32,
        ),
        (l.uses_remaining matches Some(n) && l.max_uses matches Some(m) && n < m)
            ==> l.refunded().uses_remaining == Some((l.uses_remaining->0 + 1) as u32),
{
}

} // verus!

//! Lease gate: denies tool calls that no valid lease covers.

use vstd::prelude::*;

use crate::capability::lease::{first_where, serves, LeaseManager};
use crate::gate::{DecisionView, GateContext, GateDecision};
use crate::text::{has_substring, middle_is_found};
use crate::types::capability::LeaseView;
use crate::types::ids::{uuid_text, ThreadId};

verus! {

/// An execution gate that denies tool calls not covered by a valid lease. It runs before
/// every other gate.
pub struct LeaseGate {
    /// Where this is set, leases are not checked: approval by the user authorizes.
    permissive: bool,
}

/// Why a call without a lease is denied.
pub open spec fn no_lease_reason(action: Seq<char>, thread: ThreadId) -> Seq<char> {
    "No valid lease for action '"@ + action + "' on thread "@ + uuid_text(thread.0)
}

impl LeaseGate {
    /// Whether leases are not checked.
    pub closed spec fn is_permissive(&self) -> bool {
        self.permissive
    }

    /// A gate that checks leases.
    pub fn new() -> (r: LeaseGate)
        ensures
            !r.is_permissive(),
    {
        LeaseGate { permissive: false }
    }

    /// A gate that allows every action.
    pub fn permissive() -> (r: LeaseGate)
        ensures
            r.is_permissive(),
    {
        LeaseGate { permissive: true }
    }

    /// The name of this check.
    pub fn name(&self) -> (r: &'static str)
        ensures
            r@ == "lease"@,
    {
        "lease"
    }

    /// The priority of this check.
    pub fn priority(&self) -> (r: u32)
        ensures
            r == 10,
    {
        10
    }

    /// Allows a call exactly where the check is permissive or a valid lease of the
    /// thread covers the action.
    pub fn evaluate(&self, ctx: &GateContext, leases: &LeaseManager, now: i128) -> (r:
        GateDecision)
        ensures
            ({
                let p = first_where(
                    leases@,
                    |l: LeaseView| serves(l, ctx.thread_id, ctx.action_name@, now),
                );
                r@ == if self.is_permissive() || p < leases@.len() {
                    DecisionView::Allow
                } else {
                    DecisionView::Deny(no_lease_reason(ctx.action_name@, ctx.thread_id))
                }
            }),
    {
        if self.permissive {
            return GateDecision::Allow;
        }
        match leases.find_lease_for_action(ctx.thread_id, ctx.action_name, now) {
            Some(_) => GateDecision::Allow,
            None => {
                let mut reason = "No valid lease for action '".to_owned();
                reason.append(ctx.action_name);
                reason.append("' on thread ");
                reason.append(ctx.thread_id.text().as_str());
                GateDecision::Deny { reason }
            },
        }
    }
}

/// A call that is denied for want of a lease is told of with its action and its thread.
pub proof fn denials_name_action_and_thread(action: Seq<char>, thread: ThreadId)
    ensures
        has_substring(no_lease_reason(action, thread), action),
        has_substring(no_lease_reason(action, thread), uuid_text(thread.0)),
{
    let u = uuid_text(thread.0);
    let h = "No valid lease for action '"@;
    let m = "' on thread "@;
    let none = Seq::<char>::empty();
    middle_is_found(h, action, m + u);
    assert(h + action + (m + u) =~= no_lease_reason(action, thread));
    middle_is_found(h + action + m, u, none);
    assert(h + action + m + u + none =~= no_lease_reason(action, thread));
}

} // verus!

//! Lease manager: grants, validates and expires capability leases.
//!
//! Leases are the means by which a thread gains access to a capability. Each is
//! bounded in time, in uses and in the actions that it covers. The manager holds
//! the leases in the order in which they were granted, no two with one identity.

use vstd::prelude::*;

use crate::number::{decimal_int, i64_to_string};
use crate::text::{
    characters_are_replaced_one_by_one, clone_strings, contains_string, holds, replace_all,
    replaced, texts,
};
use crate::types::capability::{
    lemma_holds_texts, CapabilityLease, GrantedActions, GrantedView, LeaseView,
};
use crate::types::error::{EngineError, ErrorView};
use crate::types::ids::{lease_id_text, LeaseId, ThreadId};

verus! {

/// What a list of leases holds.
pub open spec fn lease_views(v: Seq<CapabilityLease>) -> Seq<LeaseView> {
    v.map_values(|l: CapabilityLease| l@)
}

/// Whether no two leases have one identity.
pub open spec fn unique_ids(s: Seq<LeaseView>) -> bool {
    forall|i: int, j: int| 0 <= i < j < s.len() ==> (#[trigger] s[i]).id != (#[trigger] s[j]).id
}

/// The index of the first lease that satisfies `p`, or the length where none does.
pub open spec fn first_where(s: Seq<LeaseView>, p: spec_fn(LeaseView) -> bool) -> int
    decreases s.len(),
{
    if s.len() == 0 {
        0
    } else if p(s.first()) {
        0
    } else {
        1 + first_where(s.drop_first(), p)
    }
}

/// The index of the lease with this identity, or the length where there is none.
pub open spec fn position(s: Seq<LeaseView>, id: LeaseId) -> int {
    first_where(s, |l: LeaseView| l.id == id)
}

/// The leases with `l` in the place of the one with its identity, or at the end.
pub open spec fn put(s: Seq<LeaseView>, l: LeaseView) -> Seq<LeaseView> {
    let p = position(s, l.id);
    if p < s.len() {
        s.update(p, l)
    } else {
        s.push(l)
    }
}

/// What `first_where` is: the least index with the property.
pub proof fn lemma_first_where(s: Seq<LeaseView>, p: spec_fn(LeaseView) -> bool)
    ensures
        0 <= first_where(s, p) <= s.len(),
        first_where(s, p) < s.len() ==> p(s[first_where(s, p)]),
        forall|j: int| 0 <= j < first_where(s, p) ==> !p(#[trigger] s[j]),
    decreases s.len(),
{
    if s.len() > 0 && !p(s.first()) {
        let r = s.drop_first();
        lemma_first_where(r, p);
        assert forall|j: int| 0 <= j < first_where(s, p) implies !p(#[trigger] s[j]) by {
            if j > 0 {
                assert(s[j] == r[j - 1]);
            }
        }
    }
}

/// The least index with a property is `first_where`.
pub proof fn lemma_is_first_where(s: Seq<LeaseView>, p: spec_fn(LeaseView) -> bool, i: int)
    requires
        0 <= i <= s.len(),
        i < s.len() ==> p(s[i]),
        forall|j: int| 0 <= j < i ==> !p(#[trigger] s[j]),
    ensures
        first_where(s, p) == i,
{
    lemma_first_where(s, p);
    let k = first_where(s, p);
    if k < i {
        assert(!p(s[k]));
    }
    if i < k {
        assert(!p(s[i]));
    }
}

/// Putting a lease keeps the identities distinct.
pub proof fn lemma_put_unique(s: Seq<LeaseView>, l: LeaseView)
    requires
        unique_ids(s),
    ensures
        unique_ids(put(s, l)),
{
    lemma_first_where(s, |x: LeaseView| x.id == l.id);
}

/// A name with its underscores written as hyphens.
pub open spec fn hyphenated(name: Seq<char>) -> Seq<char> {
    replaced(name, "_"@, "-"@)
}

/// A name with its hyphens written as underscores.
pub open spec fn underscored(name: Seq<char>) -> Seq<char> {
    replaced(name, "-"@, "_"@)
}

/// The index of the lease that an action of a thread is called under, or the number of
/// leases where there is none.
pub open spec fn serving(s: Seq<LeaseView>, thread: ThreadId, action: Seq<char>, now: i128) -> int {
    first_where(s, |l: LeaseView| serves(l, thread, action, now))
}

/// Whether a lease lets the thread call the action, in any of its spellings.
pub open spec fn serves(l: LeaseView, thread: ThreadId, action: Seq<char>, now: i128) -> bool {
    &&& l.thread_id == thread
    &&& l.valid(now)
    &&& (l.granted.covers(action) || l.granted.covers(hyphenated(action)) || l.granted.covers(
        underscored(action),
    ))
}

/// Whether a lease lets the thread call the action under exactly this name.
pub open spec fn serves_exactly(
    l: LeaseView,
    thread: ThreadId,
    action: Seq<char>,
    now: i128,
) -> bool {
    l.thread_id == thread && l.valid(now) && l.granted.covers(action)
}

/// Whether a lease is one that the thread may use.
pub open spec fn active_of(l: LeaseView, thread: ThreadId, now: i128) -> bool {
    l.thread_id == thread && l.valid(now)
}

/// The leases that the thread may use.
pub open spec fn active_leases(s: Seq<LeaseView>, thread: ThreadId, now: i128) -> Seq<LeaseView> {
    s.filter(|l: LeaseView| active_of(l, thread, now))
}

/// Manages the lifecycle of capability leases.
pub struct LeaseManager {
    active: Vec<CapabilityLease>,
}

impl View for LeaseManager {
    type V = Seq<LeaseView>;

    closed spec fn view(&self) -> Seq<LeaseView> {
        lease_views(self.active@)
    }
}

impl LeaseManager {
    /// No two leases have one identity.
    pub open spec fn wf(&self) -> bool {
        unique_ids(self@)
    }

    /// A manager that holds no lease.
    pub fn new() -> (r: LeaseManager)
        ensures
            r@ == Seq::<LeaseView>::empty(),
            r.wf(),
    {
        let r = LeaseManager { active: Vec::new() };
        assert(r@ =~= Seq::<LeaseView>::empty());
        r
    }

    /// The number of leases held, valid or not.
    pub fn count(&self) -> (r: usize)
        ensures
            r == self@.len(),
    {
        self.active.len()
    }

    fn index_of(&self, id: LeaseId) -> (r: usize)
        ensures
            r == position(self@, id),
            r <= self.active@.len(),
    {
        let ghost p = |l: LeaseView| l.id == id;
        let mut i: usize = 0;
        while i < self.active.len()
            invariant
                i <= self.active@.len(),
                p == (|l: LeaseView| l.id == id),
                forall|j: int| 0 <= j < i ==> !p(#[trigger] self@[j]),
            decreases self.active@.len() - i,
        {
            if self.active[i].id == id {
                assert(p(self@[i as int]));
                proof {
                    lemma_is_first_where(self@, p, i as int);
                }
                return i;
            }
            i = i + 1;
        }
        proof {
            lemma_is_first_where(self@, p, i as int);
        }
        i
    }

    fn insert(&mut self, lease: CapabilityLease)
        requires
            old(self).wf(),
        ensures
            final(self).wf(),
            final(self)@ == put(old(self)@, lease@),
    {
        let ghost before = self@;
        proof {
            lemma_put_unique(before, lease@);
        }
        let i = self.index_of(lease.id);
        if i < self.active.len() {
            let ghost v = lease@;
            self.active.set(i, lease);
            assert(self@ =~= before.update(i as int, v));
        } else {
            let ghost v = lease@;
            self.active.push(lease);
            assert(self@ =~= before.push(v));
        }
    }

    /// Grants a new lease, named `id`, to a thread at the time `now`.
    ///
    /// A duration that is not positive and a number of uses that is zero are
    /// refused: they would make a lease that can never be used.
    pub fn grant(
        &mut self,
        id: LeaseId,
        now: i128,
        thread_id: ThreadId,
        capability_name: String,
        granted_actions: GrantedActions,
        duration: Option<i128>,
        max_uses: Option<u32>,
    ) -> (r: Result<CapabilityLease, EngineError>)
        requires
            old(self).wf(),
            duration matches Some(d) ==> -LONGEST_DURATION <= d && now + d <= i128::MAX,
        ensures
            final(self).wf(),
            match r {
                Ok(lease) => {
                    &&& grantable(duration, max_uses)
                    &&& lease@ == granted_lease(
                        id,
                        now,
                        thread_id,
                        capability_name@,
                        granted_actions@,
                        duration,
                        max_uses,
                    )
                    &&& final(self)@ == put(old(self)@, lease@)
                },
                Err(e) => {
                    &&& !grantable(duration, max_uses)
                    &&& e@ == grant_refusal(duration)
                    &&& final(self)@ == old(self)@
                },
            },
    {
        if let Some(d) = duration {
            if d <= 0 {
                let secs: i64 = -((-d / NANOS_PER_SECOND) as i64);
                let mut reason = "lease duration must be positive, got ".to_owned();
                reason.append(i64_to_string(secs).as_str());
                reason.append("s");
                return Err(EngineError::Effect { reason });
            }
        }
        if let Some(n) = max_uses {
            if n == 0 {
                return Err(
                    EngineError::Effect { reason: "lease max_uses must be > 0".to_owned() },
                );
            }
        }
        let expires_at = match duration {
            Some(d) => Some(now + d),
            None => None,
        };
        let lease = CapabilityLease {
            id,
            thread_id,
            capability_name,
            granted_actions,
            granted_at: now,
            expires_at,
            max_uses,
            uses_remaining: max_uses,
            revoked: false,
            revoked_reason: None,
        };
        let copy = lease.clone();
        self.insert(copy);
        Ok(lease)
    }

    /// Returns the lease with this identity if it is valid at the time `now`.
    pub fn check(&self, lease_id: LeaseId, now: i128) -> (r: Result<CapabilityLease, EngineError>)
        ensures
            ({
                let p = position(self@, lease_id);
                match r {
                    Ok(lease) => p < self@.len() && self@[p].valid(now) && lease@ == self@[p],
                    Err(e) => if p < self@.len() {
                        !self@[p].valid(now) && e@ == ErrorView::LeaseExpired(
                            self@[p].capability_name,
                        )
                    } else {
                        e@ == ErrorView::LeaseNotFound(lease_id_text(lease_id))
                    },
                }
            }),
    {
        let i = self.index_of(lease_id);
        if i == self.active.len() {
            return Err(EngineError::LeaseNotFound { lease_id: lease_id.text() });
        }
        if !self.active[i].is_valid(now) {
            return Err(
                EngineError::LeaseExpired {
                    capability_name: self.active[i].capability_name.clone(),
                },
            );
        }
        Ok(self.active[i].clone())
    }

    /// Takes one use of a lease. A lease that is missing, invalid or used up gives
    /// an error and leaves everything as it was.
    pub fn consume_use(&mut self, lease_id: LeaseId, now: i128) -> (r: Result<(), EngineError>)
        requires
            old(self).wf(),
        ensures
            final(self).wf(),
            ({
                let s = old(self)@;
                let p = position(s, lease_id);
                match r {
                    Ok(_) => {
                        &&& p < s.len()
                        &&& s[p].valid(now)
                        &&& final(self)@ == s.update(p, s[p].consumed())
                    },
                    Err(e) => {
                        &&& final(self)@ == s
                        &&& if p < s.len() {
                            !s[p].valid(now) && e@ == ErrorView::LeaseExpired(s[p].capability_name)
                        } else {
                            e@ == ErrorView::LeaseExpired(missing_lease(lease_id))
                        }
                    },
                }
            }),
    {
        let ghost before = self@;
        let i = self.index_of(lease_id);
        if i == self.active.len() {
            return Err(EngineError::LeaseExpired { capability_name: missing_text(lease_id) });
        }
        if !self.active[i].is_valid(now) {
            return Err(
                EngineError::LeaseExpired {
                    capability_name: self.active[i].capability_name.clone(),
                },
            );
        }
        let mut lease = self.active[i].clone();
        lease.consume_use();
        let ghost v = lease@;
        self.active.set(i, lease);
        assert(self@ =~= before.update(i as int, v));
        Ok(())
    }

    /// Gives one use of a lease back, after a call was interrupted before it ended.
    pub fn refund_use(&mut self, lease_id: LeaseId) -> (r: Result<(), EngineError>)
        requires
            old(self).wf(),
        ensures
            final(self).wf(),
            ({
                let s = old(self)@;
                let p = position(s, lease_id);
                match r {
                    Ok(_) => p < s.len() && final(self)@ == s.update(p, s[p].refunded()),
                    Err(e) => p == s.len() && final(self)@ == s && e@ == ErrorView::LeaseExpired(
                        missing_lease(lease_id),
                    ),
                }
            }),
    {
        let ghost before = self@;
        let i = self.index_of(lease_id);
        if i == self.active.len() {
            return Err(EngineError::LeaseExpired { capability_name: missing_text(lease_id) });
        }
        let mut lease = self.active[i].clone();
        lease.refund_use();
        let ghost v = lease@;
        self.active.set(i, lease);
        assert(self@ =~= before.update(i as int, v));
        proof {
            lemma_first_where(before, |l: LeaseView| l.id == lease_id);
        }
        Ok(())
    }

    /// Replaces the actions that a lease grants.
    pub fn update_granted_actions(
        &mut self,
        lease_id: LeaseId,
        granted_actions: GrantedActions,
    ) -> (r: Result<CapabilityLease, EngineError>)
        requires
            old(self).wf(),
        ensures
            final(self).wf(),
            ({
                let s = old(self)@;
                let p = position(s, lease_id);
                match r {
                    Ok(lease) => {
                        &&& p < s.len()
                        &&& lease@ == (LeaseView { granted: granted_actions@, ..s[p] })
                        &&& final(self)@ == s.update(p, lease@)
                    },
                    Err(e) => p == s.len() && final(self)@ == s && e@ == ErrorView::LeaseNotFound(
                        lease_id_text(lease_id),
                    ),
                }
            }),
    {
        let ghost before = self@;
        let i = self.index_of(lease_id);
        if i == self.active.len() {
            return Err(EngineError::LeaseNotFound { lease_id: lease_id.text() });
        }
        let mut lease = self.active[i].clone();
        lease.granted_actions = granted_actions;
        let copy = lease.clone();
        self.active.set(i, copy);
        assert(self@ =~= before.update(i as int, lease@));
        proof {
            lemma_first_where(before, |l: LeaseView| l.id == lease_id);
        }
        Ok(lease)
    }

    /// Revokes a lease, with the reason kept for the audit trail.
    pub fn revoke(&mut self, lease_id: LeaseId, reason: &str)
        requires
            old(self).wf(),
        ensures
            final(self).wf(),
            final(self)@ == revoked(old(self)@, lease_id, reason@),
    {
        let ghost before = self@;
        let i = self.index_of(lease_id);
        if i < self.active.len() {
            let mut lease = self.active[i].clone();
            lease.revoked = true;
            lease.revoked_reason = Some(reason.to_owned());
            let ghost v = lease@;
            self.active.set(i, lease);
            assert(self@ =~= before.update(i as int, v));
            proof {
                lemma_first_where(before, |l: LeaseView| l.id == lease_id);
            }
        }
    }

    /// Removes every lease that is not valid at the time `now`, and returns how
    /// many those were.
    pub fn expire_stale(&mut self, now: i128) -> (r: usize)
        requires
            old(self).wf(),
        ensures
            final(self).wf(),
            final(self)@ == old(self)@.filter(|l: LeaseView| l.valid(now)),
            r == old(self)@.len() - final(self)@.len(),
    {
        let ghost before = self@;
        let ghost p = |l: LeaseView| l.valid(now);
        let mut kept: Vec<CapabilityLease> = Vec::new();
        let mut i: usize = 0;
        proof {
            reveal(Seq::filter);
            assert(before.take(0) =~= Seq::<LeaseView>::empty());
            assert(lease_views(kept@) =~= Seq::<LeaseView>::empty());
        }
        while i < self.active.len()
            invariant
                i <= self.active@.len(),
                before == lease_views(self.active@),
                p == (|l: LeaseView| l.valid(now)),
                lease_views(kept@) == before.take(i as int).filter(p),
                kept@.len() <= i,
            decreases self.active@.len() - i,
        {
            reveal(Seq::filter);
            assert(before.take(i + 1).drop_last() =~= before.take(i as int));
            let ghost kept_before = kept@;
            if self.active[i].is_valid(now) {
                kept.push(self.active[i].clone());
                assert(lease_views(kept@) =~= lease_views(kept_before).push(before[i as int]));
            }
            i = i + 1;
        }
        assert(before.take(before.len() as int) =~= before);
        let gone = self.active.len() - kept.len();
        proof {
            lemma_filter_unique(before, p);
        }
        self.active = kept;
        gone
    }

    /// The valid leases of a thread.
    pub fn active_for_thread(&self, thread_id: ThreadId, now: i128) -> (r: Vec<CapabilityLease>)
        ensures
            lease_views(r@) == active_leases(self@, thread_id, now),
    {
        let ghost p = |l: LeaseView| active_of(l, thread_id, now);
        let mut out: Vec<CapabilityLease> = Vec::new();
        let mut i: usize = 0;
        proof {
            reveal(Seq::filter);
            assert(self@.take(0) =~= Seq::<LeaseView>::empty());
            assert(lease_views(out@) =~= Seq::<LeaseView>::empty());
        }
        while i < self.active.len()
            invariant
                i <= self.active@.len(),
                p == (|l: LeaseView| active_of(l, thread_id, now)),
                lease_views(out@) == self@.take(i as int).filter(p),
            decreases self.active@.len() - i,
        {
            reveal(Seq::filter);
            assert(self@.take(i + 1).drop_last() =~= self@.take(i as int));
            let ghost out_before = out@;
            if self.active[i].thread_id == thread_id && self.active[i].is_valid(now) {
                out.push(self.active[i].clone());
                assert(lease_views(out@) =~= lease_views(out_before).push(self@[i as int]));
            }
            i = i + 1;
        }
        assert(self@.take(self@.len() as int) =~= self@);
        out
    }

    /// The first valid lease of a thread that grants an action, under its own
    /// name or with underscores and hyphens exchanged.
    pub fn find_lease_for_action(
        &self,
        thread_id: ThreadId,
        action_name: &str,
        now: i128,
    ) -> (r: Option<CapabilityLease>)
        ensures
            ({
                let p = first_where(
                    self@,
                    |l: LeaseView| serves(l, thread_id, action_name@, now),
                );
                match r {
                    Some(lease) => p < self@.len() && lease@ == self@[p],
                    None => p == self@.len(),
                }
            }),
    {
        let hyphens = replace_all(action_name, "_", "-");
        let underscores = replace_all(action_name, "-", "_");
        let ghost p = |l: LeaseView| serves(l, thread_id, action_name@, now);
        let mut i: usize = 0;
        while i < self.active.len()
            invariant
                i <= self.active@.len(),
                hyphens@ == hyphenated(action_name@),
                underscores@ == underscored(action_name@),
                p == (|l: LeaseView| serves(l, thread_id, action_name@, now)),
                forall|j: int| 0 <= j < i ==> !p(#[trigger] self@[j]),
            decreases self.active@.len() - i,
        {
            let l = &self.active[i];
            if l.thread_id == thread_id && l.is_valid(now) && (l.covers_action(action_name)
                || l.covers_action(hyphens.as_str()) || l.covers_action(underscores.as_str())) {
                assert(p(self@[i as int]));
                proof {
                    lemma_is_first_where(self@, p, i as int);
                }
                return Some(self.active[i].clone());
            }
            assert(!p(self@[i as int]));
            i = i + 1;
        }
        proof {
            lemma_is_first_where(self@, p, i as int);
        }
        None
    }

    /// Finds the first valid lease of a thread that grants the action under exactly
    /// this name, and takes one use of it. Returns the lease as it is afterwards.
    pub fn find_and_consume(
        &mut self,
        thread_id: ThreadId,
        action_name: &str,
        now: i128,
    ) -> (r: Result<CapabilityLease, EngineError>)
        requires
            old(self).wf(),
        ensures
            final(self).wf(),
            ({
                let s = old(self)@;
                let p = first_where(
                    s,
                    |l: LeaseView| serves_exactly(l, thread_id, action_name@, now),
                );
                match r {
                    Ok(lease) => {
                        &&& p < s.len()
                        &&& lease@ == s[p].consumed()
                        &&& final(self)@ == s.update(p, lease@)
                    },
                    Err(e) => {
                        &&& p == s.len()
                        &&& final(self)@ == s
                        &&& e@ == ErrorView::LeaseNotFound(no_lease_for(action_name@))
                    },
                }
            }),
    {
        let ghost before = self@;
        let ghost p = |l: LeaseView| serves_exactly(l, thread_id, action_name@, now);
        let mut i: usize = 0;
        while i < self.active.len()
            invariant
                i <= self.active@.len(),
                before == self@,
                unique_ids(before),
                *self == *old(self),
                p == (|l: LeaseView| serves_exactly(l, thread_id, action_name@, now)),
                forall|j: int| 0 <= j < i ==> !p(#[trigger] self@[j]),
            decreases self.active@.len() - i,
        {
            let hit = {
                let l = &self.active[i];
                l.thread_id == thread_id && l.is_valid(now) && l.covers_action(action_name)
            };
            if hit {
                assert(p(self@[i as int]));
                proof {
                    lemma_is_first_where(self@, p, i as int);
                }
                let mut lease = self.active[i].clone();
                lease.consume_use();
                let copy = lease.clone();
                self.active.set(i, copy);
                assert(self@ =~= before.update(i as int, lease@));
                return Ok(lease);
            }
            assert(!p(self@[i as int]));
            i = i + 1;
        }
        proof {
            lemma_is_first_where(self@, p, i as int);
        }
        let mut text = "no valid lease for action '".to_owned();
        text.append(action_name);
        text.append("'");
        Err(EngineError::LeaseNotFound { lease_id: text })
    }
}

/// What a child is granted of a parent's grant: with no request all of it, else
/// only what was requested. A wildcard yields the request, never a wildcard.
pub open spec fn child_grant(parent: GrantedView, req: Option<Seq<Seq<char>>>) -> GrantedView {
    match req {
        Some(r) => match parent {
            GrantedView::All => GrantedView::Specific(r),
            GrantedView::Specific(names) => GrantedView::Specific(
                names.filter(|a: Seq<char>| r.contains(a)),
            ),
        },
        None => parent,
    }
}

/// Whether a request left nothing of a grant.
pub open spec fn nothing_left(g: GrantedView, req: Option<Seq<Seq<char>>>) -> bool {
    req is Some && (g matches GrantedView::Specific(names) && names.len() == 0)
}

/// The lease of a child that is derived from a parent's.
pub open spec fn child_lease(
    parent: LeaseView,
    id: LeaseId,
    child: ThreadId,
    req: Option<Seq<Seq<char>>>,
    now: i128,
) -> LeaseView {
    LeaseView {
        id,
        thread_id: child,
        capability_name: parent.capability_name,
        granted: child_grant(parent.granted, req),
        granted_at: now,
        expires_at: parent.expires_at,
        max_uses: parent.uses_remaining,
        uses_remaining: parent.uses_remaining,
        revoked: false,
        revoked_reason: None,
    }
}

/// The leases of a child that are derived from these, named by `ids` in turn.
pub open spec fn children(
    parents: Seq<LeaseView>,
    ids: Seq<LeaseId>,
    child: ThreadId,
    req: Option<Seq<Seq<char>>>,
    now: i128,
) -> Seq<LeaseView>
    decreases parents.len(),
{
    if parents.len() == 0 {
        Seq::empty()
    } else {
        let rest = children(parents.drop_last(), ids, child, req, now);
        let parent = parents.last();
        if nothing_left(child_grant(parent.granted, req), req) {
            rest
        } else {
            rest.push(child_lease(parent, ids[rest.len() as int], child, req, now))
        }
    }
}

/// The leases with each of `ls` put in turn.
pub open spec fn put_all(s: Seq<LeaseView>, ls: Seq<LeaseView>) -> Seq<LeaseView>
    decreases ls.len(),
{
    if ls.len() == 0 {
        s
    } else {
        put(put_all(s, ls.drop_last()), ls.last())
    }
}

/// The texts of an optional list of strings.
pub open spec fn opt_texts(o: Option<&Vec<String>>) -> Option<Seq<Seq<char>>> {
    match o {
        Some(v) => Some(texts(v@)),
        None => None,
    }
}

fn derive_grant(parent: &GrantedActions, req: Option<&Vec<String>>) -> (r: GrantedActions)
    ensures
        r@ == child_grant(parent@, opt_texts(req)),
{
    match req {
        Some(wanted) => match parent {
            GrantedActions::All => GrantedActions::Specific(clone_strings(wanted)),
            GrantedActions::Specific(names) => {
                let ghost p = |a: Seq<char>| texts(wanted@).contains(a);
                let ghost all = texts(names@);
                let mut out: Vec<String> = Vec::new();
                let mut i: usize = 0;
                proof {
                    reveal(Seq::filter);
                    assert(all.take(0) =~= Seq::<Seq<char>>::empty());
                    assert(texts(out@) =~= Seq::<Seq<char>>::empty());
                }
                while i < names.len()
                    invariant
                        i <= names@.len(),
                        all == texts(names@),
                        p == (|a: Seq<char>| texts(wanted@).contains(a)),
                        texts(out@) == all.take(i as int).filter(p),
                    decreases names@.len() - i,
                {
                    reveal(Seq::filter);
                    assert(all.take(i + 1).drop_last() =~= all.take(i as int));
                    let ghost before = out@;
                    let wants = contains_string(wanted, names[i].as_str());
                    proof {
                        lemma_holds_texts(wanted@, names@[i as int]@);
                    }
                    if wants {
                        out.push(names[i].clone());
                        assert(texts(out@) =~= texts(before).push(all[i as int]));
                    }
                    i = i + 1;
                }
                assert(all.take(all.len() as int) =~= all);
                GrantedActions::Specific(out)
            },
        },
        None => parent.clone(),
    }
}

impl LeaseManager {
    /// Derives leases for a child thread from the valid leases of its parent.
    ///
    /// The child is granted what is both in the parent's lease and in the request;
    /// with no request it inherits every grant. A derived lease expires with the
    /// parent's and starts with the uses that the parent has left. The new leases
    /// are named by `ids` in turn.
    pub fn derive_child_leases(
        &mut self,
        parent_thread_id: ThreadId,
        child_thread_id: ThreadId,
        requested_actions: Option<&Vec<String>>,
        ids: &Vec<LeaseId>,
        now: i128,
    ) -> (r: Vec<CapabilityLease>)
        requires
            old(self).wf(),
            ids@.len() >= old(self)@.len(),
        ensures
            final(self).wf(),
            lease_views(r@) == children(
                active_leases(old(self)@, parent_thread_id, now),
                ids@,
                child_thread_id,
                opt_texts(requested_actions),
                now,
            ),
            final(self)@ == put_all(old(self)@, lease_views(r@)),
    {
        let ghost req = opt_texts(requested_actions);
        let parents = self.active_for_thread(parent_thread_id, now);
        let ghost ps = lease_views(parents@);
        proof {
            lemma_filter_len(self@, |l: LeaseView| active_of(l, parent_thread_id, now));
        }
        let mut out: Vec<CapabilityLease> = Vec::new();
        let mut i: usize = 0;
        assert(ps.take(0) =~= Seq::<LeaseView>::empty());
        assert(lease_views(out@) =~= Seq::<LeaseView>::empty());
        while i < parents.len()
            invariant
                i <= parents@.len() <= ids@.len(),
                ps == lease_views(parents@),
                req == opt_texts(requested_actions),
                lease_views(out@) == children(ps.take(i as int), ids@, child_thread_id, req, now),
                out@.len() <= i,
            decreases parents@.len() - i,
        {
            assert(ps.take(i + 1).drop_last() =~= ps.take(i as int));
            assert(ps.take(i + 1).last() == ps[i as int]);
            let parent = &parents[i];
            let grants = derive_grant(&parent.granted_actions, requested_actions);
            let nothing = match &grants {
                GrantedActions::Specific(names) => names.len() == 0,
                GrantedActions::All => false,
            };
            if !(nothing && requested_actions.is_some()) {
                let ghost before = out@;
                let lease = CapabilityLease {
                    id: ids[out.len()],
                    thread_id: child_thread_id,
                    capability_name: parent.capability_name.clone(),
                    granted_actions: grants,
                    granted_at: now,
                    expires_at: parent.expires_at,
                    max_uses: parent.uses_remaining,
                    uses_remaining: parent.uses_remaining,
                    revoked: false,
                    revoked_reason: None,
                };
                let ghost v = lease@;
                out.push(lease);
                assert(lease_views(out@) =~= lease_views(before).push(v));
            }
            i = i + 1;
        }
        assert(ps.take(ps.len() as int) =~= ps);
        let ghost start = self@;
        let ghost all = lease_views(out@);
        let mut k: usize = 0;
        assert(all.take(0) =~= Seq::<LeaseView>::empty());
        while k < out.len()
            invariant
                k <= out@.len(),
                self.wf(),
                all == lease_views(out@),
                self@ == put_all(start, all.take(k as int)),
            decreases out@.len() - k,
        {
            assert(all.take(k + 1).drop_last() =~= all.take(k as int));
            assert(all.take(k + 1).last() == all[k as int]);
            let copy = out[k].clone();
            self.insert(copy);
            k = k + 1;
        }
        assert(all.take(all.len() as int) =~= all);
        out
    }
}

proof fn lemma_filter_len(s: Seq<LeaseView>, p: spec_fn(LeaseView) -> bool)
    ensures
        s.filter(p).len() <= s.len(),
    decreases s.len(),
{
    reveal(Seq::filter);
    if s.len() > 0 {
        lemma_filter_len(s.drop_last(), p);
    }
}

/// The longest duration, in nanoseconds: `i64::MAX` milliseconds.
pub const LONGEST_DURATION: i128 = 9_223_372_036_854_775_807_000_000;

/// The number of nanoseconds in a second.
pub const NANOS_PER_SECOND: i128 = 1_000_000_000;

/// Whether a grant with this duration and number of uses makes a usable lease.
pub open spec fn grantable(duration: Option<i128>, max_uses: Option<u32>) -> bool {
    &&& (duration matches Some(d) ==> d > 0)
    &&& max_uses != Some(0u32)
}

/// The error of a grant that is refused.
pub open spec fn grant_refusal(duration: Option<i128>) -> ErrorView {
    match duration {
        Some(d) if d <= 0 => ErrorView::Effect(
            "lease duration must be positive, got "@ + decimal_int(
                -((-d) / (NANOS_PER_SECOND as int)),
            ) + "s"@,
        ),
        _ => ErrorView::Effect("lease max_uses must be > 0"@),
    }
}

/// The lease that a grant makes.
pub open spec fn granted_lease(
    id: LeaseId,
    now: i128,
    thread_id: ThreadId,
    capability_name: Seq<char>,
    granted: GrantedView,
    duration: Option<i128>,
    max_uses: Option<u32>,
) -> LeaseView {
    LeaseView {
        id,
        thread_id,
        capability_name,
        granted,
        granted_at: now,
        expires_at: match duration {
            Some(d) => Some((now + d) as i128),
            None => None,
        },
        max_uses,
        uses_remaining: max_uses,
        revoked: false,
        revoked_reason: None,
    }
}

/// How a lease that is not there is shown.
pub open spec fn missing_lease(id: LeaseId) -> Seq<char> {
    "lease "@ + lease_id_text(id) + " not found"@
}

fn missing_text(id: LeaseId) -> (r: String)
    ensures
        r@ == missing_lease(id),
{
    let mut s = "lease ".to_owned();
    s.append(id.text().as_str());
    s.append(" not found");
    s
}

/// How the want of a lease for an action is shown.
pub open spec fn no_lease_for(action: Seq<char>) -> Seq<char> {
    "no valid lease for action '"@ + action + "'"@
}

/// The leases with one of them revoked.
pub open spec fn revoked(s: Seq<LeaseView>, id: LeaseId, reason: Seq<char>) -> Seq<LeaseView> {
    let p = position(s, id);
    if p < s.len() {
        s.update(p, LeaseView { revoked: true, revoked_reason: Some(reason), ..s[p] })
    } else {
        s
    }
}

proof fn lemma_filter_members(s: Seq<LeaseView>, p: spec_fn(LeaseView) -> bool)
    ensures
        forall|l: LeaseView| #[trigger] s.filter(p).contains(l) ==> s.contains(l) && p(l),
    decreases s.len(),
{
    reveal(Seq::filter);
    if s.len() > 0 {
        let r = s.drop_last();
        lemma_filter_members(r, p);
        let f = r.filter(p);
        assert forall|l: LeaseView| #[trigger] s.filter(p).contains(l) implies s.contains(l) && p(
            l,
        ) by {
            let i = choose|i: int| 0 <= i < s.filter(p).len() && s.filter(p)[i] == l;
            if i < f.len() {
                assert(f[i] == l);
                assert(f.contains(l));
                let k = choose|k: int| 0 <= k < r.len() && r[k] == l;
                assert(s[k] == l);
            } else {
                assert(s[s.len() - 1] == l);
            }
        }
    }
}

proof fn lemma_filter_unique(s: Seq<LeaseView>, p: spec_fn(LeaseView) -> bool)
    requires
        unique_ids(s),
    ensures
        unique_ids(s.filter(p)),
    decreases s.len(),
{
    reveal(Seq::filter);
    if s.len() > 0 {
        let r = s.drop_last();
        lemma_filter_unique(r, p);
        lemma_filter_members(r, p);
        let f = r.filter(p);
        if p(s.last()) {
            assert forall|i: int, j: int| 0 <= i < j < s.filter(p).len() implies (
            #[trigger] s.filter(p)[i]).id != (#[trigger] s.filter(p)[j]).id by {
                if j == f.len() {
                    assert(f.contains(f[i]));
                    let k = choose|k: int| 0 <= k < r.len() && r[k] == f[i];
                    assert(s[k].id != s[s.len() - 1].id);
                }
            }
        }
    }
}

/// Changing a lease without changing its identity leaves it where it is found.
proof fn lemma_position_kept(s: Seq<LeaseView>, id: LeaseId, l: LeaseView)
    requires
        position(s, id) < s.len(),
        l.id == id,
    ensures
        position(s.update(position(s, id), l), id) == position(s, id),
{
    let p = |x: LeaseView| x.id == id;
    lemma_first_where(s, p);
    let i = position(s, id);
    let t = s.update(i, l);
    assert forall|j: int| 0 <= j < i implies !p(#[trigger] t[j]) by {
        assert(t[j] == s[j]);
    }
    lemma_is_first_where(t, p, i);
}

/// A lease that was granted is found under its identity, and is valid at the time
/// it was granted.
pub proof fn granted_lease_is_valid(
    s: Seq<LeaseView>,
    id: LeaseId,
    now: i128,
    thread: ThreadId,
    name: Seq<char>,
    granted: GrantedView,
    duration: Option<i128>,
    max_uses: Option<u32>,
)
    requires
        grantable(duration, max_uses),
        duration matches Some(d) ==> now + d <= i128::MAX,
    ensures
        ({
            let l = granted_lease(id, now, thread, name, granted, duration, max_uses);
            let t = put(s, l);
            &&& position(t, id) < t.len()
            &&& t[position(t, id)] == l
            &&& l.valid(now)
        }),
{
    let l = granted_lease(id, now, thread, name, granted, duration, max_uses);
    let p = |x: LeaseView| x.id == id;
    lemma_first_where(s, p);
    if position(s, id) < s.len() {
        lemma_position_kept(s, id, l);
    } else {
        let t = put(s, l);
        assert forall|j: int| 0 <= j < s.len() implies !p(#[trigger] t[j]) by {
            assert(t[j] == s[j]);
        }
        lemma_is_first_where(t, p, s.len() as int);
    }
}

/// Giving back a use that was just taken leaves every lease as it was.
pub proof fn refund_restores_budget(s: Seq<LeaseView>, id: LeaseId, now: i128)
    requires
        position(s, id) < s.len(),
        s[position(s, id)].valid(now),
        ({
            let l = s[position(s, id)];
            l.uses_remaining matches Some(n) ==> (l.max_uses matches Some(m) && n <= m)
        }),
    ensures
        ({
            let p = position(s, id);
            let t = s.update(p, s[p].consumed());
            &&& position(t, id) == p
            &&& t.update(p, t[p].refunded()) == s
        }),
{
    lemma_first_where(s, |x: LeaseView| x.id == id);
    let p = position(s, id);
    lemma_position_kept(s, id, s[p].consumed());
    let t = s.update(p, s[p].consumed());
    assert(t.update(p, t[p].refunded()) =~= s);
}

/// A lease that was revoked is not valid at any time, and no other lease changes.
pub proof fn revoked_lease_is_invalid(s: Seq<LeaseView>, id: LeaseId, reason: Seq<char>)
    requires
        position(s, id) < s.len(),
    ensures
        ({
            let t = revoked(s, id, reason);
            let p = position(s, id);
            &&& t.len() == s.len()
            &&& position(t, id) == p
            &&& forall|now: i128| !(#[trigger] t[p].valid(now))
            &&& forall|j: int| 0 <= j < s.len() && j != p ==> #[trigger] t[j] == s[j]
        }),
{
    lemma_first_where(s, |x: LeaseView| x.id == id);
    let p = position(s, id);
    let l = LeaseView { revoked: true, revoked_reason: Some(reason), ..s[p] };
    lemma_position_kept(s, id, l);
}

/// Removing the stale leases leaves every thread the leases that it may use.
pub proof fn expiring_keeps_active_leases(s: Seq<LeaseView>, thread: ThreadId, now: i128)
    ensures
        active_leases(s.filter(|l: LeaseView| l.valid(now)), thread, now) == active_leases(
            s,
            thread,
            now,
        ),
    decreases s.len(),
{
    reveal(Seq::filter);
    let v = |l: LeaseView| l.valid(now);
    let a = |l: LeaseView| active_of(l, thread, now);
    if s.len() > 0 {
        expiring_keeps_active_leases(s.drop_last(), thread, now);
        if v(s.last()) {
            assert(s.filter(v).drop_last() =~= s.drop_last().filter(v));
        }
    }
}

/// After the stale leases are removed every lease left is valid.
pub proof fn expiring_leaves_valid_leases(s: Seq<LeaseView>, now: i128)
    ensures
        ({
            let t = s.filter(|x: LeaseView| x.valid(now));
            forall|l: LeaseView| #[trigger] t.contains(l) ==> l.valid(now) && s.contains(l)
        }),
{
    lemma_filter_members(s, |x: LeaseView| x.valid(now));
}

/// Whether a derived lease stays within one of its parent's: it covers nothing
/// that the parent's does not and nothing that was not requested, expires with
/// it, and starts with the uses that it has left.
pub open spec fn within(
    l: LeaseView,
    parent: LeaseView,
    req: Option<Seq<Seq<char>>>,
) -> bool {
    &&& forall|a: Seq<char>| l.granted.covers(a) ==> parent.granted.covers(a)
    &&& (req matches Some(r) ==> forall|a: Seq<char>| l.granted.covers(a) ==> r.contains(a))
    &&& l.capability_name == parent.capability_name
    &&& l.expires_at == parent.expires_at
    &&& l.max_uses == parent.uses_remaining
    &&& l.uses_remaining == parent.uses_remaining
}

proof fn lemma_filter_names(names: Seq<Seq<char>>, r: Seq<Seq<char>>)
    ensures
        ({
            let f = names.filter(|x: Seq<char>| r.contains(x));
            forall|a: Seq<char>| #[trigger] f.contains(a) ==> names.contains(a) && r.contains(a)
        }),
    decreases names.len(),
{
    reveal(Seq::filter);
    let p = |x: Seq<char>| r.contains(x);
    if names.len() > 0 {
        let n = names.drop_last();
        lemma_filter_names(n, r);
        assert forall|a: Seq<char>| #[trigger] names.filter(p).contains(a) implies names.contains(
            a,
        ) && r.contains(a) by {
            let i = choose|i: int| 0 <= i < names.filter(p).len() && names.filter(p)[i] == a;
            if i < n.filter(p).len() {
                assert(n.filter(p)[i] == a);
                assert(n.filter(p).contains(a));
                let k = choose|k: int| 0 <= k < n.len() && n[k] == a;
                assert(names[k] == a);
            } else {
                assert(names[names.len() - 1] == a);
            }
        }
    }
}

/// Whether a lease stays within one of `ps`.
pub open spec fn within_some(
    l: LeaseView,
    ps: Seq<LeaseView>,
    req: Option<Seq<Seq<char>>>,
) -> bool {
    exists|p: LeaseView| #[trigger] ps.contains(p) && within(l, p, req)
}

/// A child never has more privileges than its parent: each lease derived for it
/// stays within a lease that the parent may use at that time.
pub proof fn child_stays_within_parent(
    s: Seq<LeaseView>,
    parent: ThreadId,
    ids: Seq<LeaseId>,
    child: ThreadId,
    req: Option<Seq<Seq<char>>>,
    now: i128,
)
    ensures
        ({
            let ps = active_leases(s, parent, now);
            let cs = children(ps, ids, child, req, now);
            &&& forall|p: LeaseView| #[trigger]
                ps.contains(p) ==> s.contains(p) && active_of(p, parent, now)
            &&& forall|k: int| 0 <= k < cs.len() ==> within_some(#[trigger] cs[k], ps, req)
            &&& forall|k: int| 0 <= k < cs.len() ==> (#[trigger] cs[k]).thread_id == child
        }),
{
    let ps = active_leases(s, parent, now);
    lemma_filter_members(s, |l: LeaseView| active_of(l, parent, now));
    lemma_children_within(ps, ids, child, req, now);
}

proof fn lemma_children_within(
    ps: Seq<LeaseView>,
    ids: Seq<LeaseId>,
    child: ThreadId,
    req: Option<Seq<Seq<char>>>,
    now: i128,
)
    ensures
        ({
            let cs = children(ps, ids, child, req, now);
            &&& forall|k: int| 0 <= k < cs.len() ==> within_some(#[trigger] cs[k], ps, req)
            &&& forall|k: int| 0 <= k < cs.len() ==> (#[trigger] cs[k]).thread_id == child
        }),
    decreases ps.len(),
{
    if ps.len() > 0 {
        let rest = ps.drop_last();
        lemma_children_within(rest, ids, child, req, now);
        let before = children(rest, ids, child, req, now);
        let cs = children(ps, ids, child, req, now);
        assert forall|k: int| 0 <= k < cs.len() implies within_some(#[trigger] cs[k], ps, req)
            && cs[k].thread_id == child by {
            if k < before.len() {
                assert(cs[k] == before[k]);
                let p = choose|p: LeaseView| #[trigger]
                    rest.contains(p) && within(before[k], p, req);
                let i = choose|i: int| 0 <= i < rest.len() && rest[i] == p;
                assert(ps[i] == p);
                assert(ps.contains(p));
            } else {
                let p = ps.last();
                assert(ps[ps.len() - 1] == p);
                if let GrantedView::Specific(names) = p.granted {
                    if let Some(r) = req {
                        lemma_filter_names(names, r);
                    }
                }
                assert(ps.contains(p));
                assert(within(cs[k], p, req));
            }
        }
    }
}

/// A parent with no valid lease gives its child none.
pub proof fn no_lease_without_valid_parent(
    s: Seq<LeaseView>,
    parent: ThreadId,
    ids: Seq<LeaseId>,
    child: ThreadId,
    req: Option<Seq<Seq<char>>>,
    now: i128,
)
    requires
        forall|i: int| 0 <= i < s.len() ==> !active_of(#[trigger] s[i], parent, now),
    ensures
        children(active_leases(s, parent, now), ids, child, req, now).len() == 0,
    decreases s.len(),
{
    reveal(Seq::filter);
    if s.len() > 0 {
        assert(!active_of(s[s.len() - 1], parent, now));
        assert forall|i: int| 0 <= i < s.drop_last().len() implies !active_of(
            #[trigger] s.drop_last()[i],
            parent,
            now,
        ) by {
            assert(s.drop_last()[i] == s[i]);
        }
        no_lease_without_valid_parent(s.drop_last(), parent, ids, child, req, now);
    }
}

proof fn lemma_filter_keeps(s: Seq<LeaseView>, p: spec_fn(LeaseView) -> bool, i: int)
    requires
        0 <= i < s.len(),
        p(s[i]),
    ensures
        s.filter(p).contains(s[i]),
{
    s.lemma_filter_contains(p, i);
}

/// An action is called under a lease of its own thread, valid at that time, that grants
/// it: where there is one the first is found, and where there is none nothing is.
pub proof fn lease_that_grants_is_found(
    s: Seq<LeaseView>,
    thread: ThreadId,
    action: Seq<char>,
    now: i128,
)
    ensures
        0 <= serving(s, thread, action, now) <= s.len(),
        forall|i: int|
            0 <= i < s.len() && (#[trigger] s[i]).thread_id == thread && s[i].valid(now)
                && s[i].granted.covers(action) ==> serving(s, thread, action, now) <= i,
        serving(s, thread, action, now) < s.len() ==> {
            let l = s[serving(s, thread, action, now)];
            &&& l.thread_id == thread
            &&& l.valid(now)
        },
        forall|i: int|
            0 <= i < s.len() && (#[trigger] s[i]).granted is All && s[i].thread_id == thread
                && s[i].valid(now) ==> serving(s, thread, action, now) <= i,
{
    lemma_first_where(s, |l: LeaseView| serves(l, thread, action, now));
    let p = serving(s, thread, action, now);
    assert forall|i: int|
        0 <= i < s.len() && (#[trigger] s[i]).thread_id == thread && s[i].valid(now)
            && s[i].granted.covers(action) implies p <= i by {
        assert(serves(s[i], thread, action, now));
    }
    assert forall|i: int|
        0 <= i < s.len() && (#[trigger] s[i]).granted is All && s[i].thread_id == thread
            && s[i].valid(now) implies p <= i by {
        assert(serves(s[i], thread, action, now));
    }
}

/// Whether two names are the same but for hyphens and underscores.
pub open spec fn same_but_for_hyphens(a: Seq<char>, b: Seq<char>) -> bool {
    a.len() == b.len() && forall|i: int|
        0 <= i < a.len() ==> (#[trigger] a[i]) == b[i] || ((a[i] == '-' || a[i] == '_') && (b[i]
            == '-' || b[i] == '_'))
}

proof fn lemma_spellings(name: Seq<char>)
    ensures
        same_but_for_hyphens(name, hyphenated(name)),
        same_but_for_hyphens(name, underscored(name)),
        !hyphenated(name).contains('_'),
        !underscored(name).contains('-'),
{
    reveal_strlit("_");
    reveal_strlit("-");
    characters_are_replaced_one_by_one(name, "_"@, "-"@);
    characters_are_replaced_one_by_one(name, "-"@, "_"@);
}

/// A name with hyphens only, or with underscores only, is the same action under either
/// spelling: a lease that names one of them serves a call by the other, and no lease
/// serves an action whose name differs in anything but hyphens and underscores.
pub proof fn spellings_of_an_action_are_one(
    l: LeaseView,
    names: Seq<Seq<char>>,
    thread: ThreadId,
    action: Seq<char>,
    other: Seq<char>,
    now: i128,
)
    requires
        l.thread_id == thread,
        l.valid(now),
        l.granted == GrantedView::Specific(names),
    ensures
        names.contains(other) && same_but_for_hyphens(action, other) && (!other.contains('_')
            || !other.contains('-')) ==> serves(l, thread, action, now),
        (forall|i: int|
            0 <= i < names.len() ==> !same_but_for_hyphens(action, #[trigger] names[i]))
            ==> !serves(l, thread, action, now),
{
    lemma_spellings(action);
    reveal_strlit("_");
    reveal_strlit("-");
    characters_are_replaced_one_by_one(action, "_"@, "-"@);
    characters_are_replaced_one_by_one(action, "-"@, "_"@);
    if names.contains(other) && same_but_for_hyphens(action, other) {
        if !other.contains('_') {
            assert forall|i: int| 0 <= i < other.len() implies (#[trigger] other[i])
                == hyphenated(action)[i] by {
                assert(action[i] == other[i] || action[i] == '-' || action[i] == '_');
                assert(other.contains(other[i]));
            }
            assert(hyphenated(action) =~= other);
        } else if !other.contains('-') {
            assert forall|i: int| 0 <= i < other.len() implies (#[trigger] other[i])
                == underscored(action)[i] by {
                assert(action[i] == other[i] || action[i] == '-' || action[i] == '_');
                assert(other.contains(other[i]));
            }
            assert(underscored(action) =~= other);
        }
    }
    if serves(l, thread, action, now) {
        if names.contains(action) {
            let i = choose|i: int| 0 <= i < names.len() && names[i] == action;
            assert(same_but_for_hyphens(action, names[i]));
        } else if names.contains(hyphenated(action)) {
            let i = choose|i: int| 0 <= i < names.len() && names[i] == hyphenated(action);
            assert(same_but_for_hyphens(action, names[i]));
        } else {
            let i = choose|i: int| 0 <= i < names.len() && names[i] == underscored(action);
            assert(same_but_for_hyphens(action, names[i]));
        }
    }
}

/// A thread may use all its leases that are valid, and no others.
pub proof fn valid_leases_are_active(s: Seq<LeaseView>, thread: ThreadId, now: i128)
    ensures
        forall|i: int|
            0 <= i < s.len() && (#[trigger] s[i]).thread_id == thread && s[i].valid(now)
                ==> active_leases(s, thread, now).contains(s[i]),
        forall|l: LeaseView| #[trigger]
            active_leases(s, thread, now).contains(l) ==> l.thread_id == thread && l.valid(now)
                && s.contains(l),
{
    let p = |l: LeaseView| active_of(l, thread, now);
    lemma_filter_members(s, p);
    assert forall|i: int|
        0 <= i < s.len() && (#[trigger] s[i]).thread_id == thread && s[i].valid(
            now,
        ) implies active_leases(s, thread, now).contains(s[i]) by {
        lemma_filter_keeps(s, p, i);
    }
}

/// A lease that is granted is good for what it was granted for: for its thread and
/// capability, from now on, for as long and for as many uses as were given.
pub proof fn granted_lease_is_as_asked(
    id: LeaseId,
    now: i128,
    thread: ThreadId,
    name: Seq<char>,
    granted: GrantedView,
    duration: Option<i128>,
    max_uses: Option<u32>,
    at: i128,
    action: Seq<char>,
)
    requires
        duration matches Some(d) ==> 0 < d && now + d <= i128::MAX,
        max_uses matches Some(n) ==> 0 < n,
    ensures
        ({
            let l = granted_lease(id, now, thread, name, granted, duration, max_uses);
            &&& l.id == id
            &&& l.thread_id == thread
            &&& l.capability_name == name
            &&& l.granted_at == now
            &&& l.granted.covers(action) == granted.covers(action)
            &&& l.valid(at) == (duration matches Some(d) ==> at < now + d)
            &&& l.uses_remaining == max_uses
            &&& l.max_uses == max_uses
        }),
        grantable(duration, max_uses),
{
}

/// A grant that would never be usable is refused: one that ends at once or before, and
/// one without a single use.
pub proof fn useless_grants_are_refused(duration: Option<i128>, max_uses: Option<u32>)
    ensures
        (duration matches Some(d) && d <= 0) ==> !grantable(duration, max_uses),
        (max_uses matches Some(n) && n == 0) ==> !grantable(duration, max_uses),
{
}

/// Granting a lease leaves every lease with another identity where it is found, as it
/// was, and adds none but the one that is granted.
pub proof fn granting_keeps_the_others(s: Seq<LeaseView>, l: LeaseView)
    ensures
        put(s, l).contains(l),
        forall|i: int|
            0 <= i < s.len() && (#[trigger] s[i]).id != l.id ==> put(s, l)[i] == s[i],
        forall|x: LeaseView| #[trigger] put(s, l).contains(x) ==> x == l || s.contains(x),
        s.len() <= put(s, l).len() <= s.len() + 1,
{
    lemma_first_where(s, |x: LeaseView| x.id == l.id);
    let p = position(s, l.id);
    let t = put(s, l);
    assert(t[p] == l);
    assert forall|x: LeaseView| #[trigger] t.contains(x) implies x == l || s.contains(x) by {
        let i = choose|i: int| 0 <= i < t.len() && t[i] == x;
        if i != p {
            assert(s[i] == x);
        }
    }
}

/// A revoked lease keeps the reason, and nothing else of it changes.
pub proof fn revoking_keeps_the_reason(s: Seq<LeaseView>, id: LeaseId, reason: Seq<char>)
    ensures
        ({
            let p = position(s, id);
            p < s.len() ==> revoked(s, id, reason)[p] == (LeaseView {
                revoked: true,
                revoked_reason: Some(reason),
                ..s[p]
            })
        }),
        (forall|i: int| 0 <= i < s.len() ==> (#[trigger] s[i]).id != id) ==> revoked(
            s,
            id,
            reason,
        ) == s,
{
    lemma_first_where(s, |x: LeaseView| x.id == id);
}

/// A child gets what its parent has and what was asked for: for every lease of the parent
/// and every action of it that was asked for, where anything was, the child has a lease
/// that covers the action, of the same capability, with as many uses and as long.
pub proof fn child_gets_what_was_asked_for(
    parents: Seq<LeaseView>,
    ids: Seq<LeaseId>,
    child: ThreadId,
    req: Option<Seq<Seq<char>>>,
    now: i128,
    i: int,
    action: Seq<char>,
) -> (k: int)
    requires
        0 <= i < parents.len(),
        parents[i].granted.covers(action),
        req matches Some(r) ==> r.contains(action),
    ensures
        ({
            let cs = children(parents, ids, child, req, now);
            &&& 0 <= k < cs.len()
            &&& cs[k].granted.covers(action)
            &&& cs[k].thread_id == child
            &&& cs[k].id == ids[k]
            &&& cs[k].capability_name == parents[i].capability_name
            &&& cs[k].expires_at == parents[i].expires_at
            &&& cs[k].uses_remaining == parents[i].uses_remaining
            &&& cs[k].max_uses == parents[i].uses_remaining
            &&& cs[k].granted_at == now
            &&& !cs[k].revoked
            &&& parents[i].valid(now) ==> cs[k].valid(now)
        }),
    decreases parents.len(),
{
    let rest = parents.drop_last();
    if i < rest.len() {
        assert(rest[i] == parents[i]);
        child_gets_what_was_asked_for(rest, ids, child, req, now, i, action)
    } else {
        let g = parents[i].granted;
        if let Some(r) = req {
            if let GrantedView::Specific(names) = g {
                let p = |a: Seq<char>| r.contains(a);
                let j = choose|j: int| 0 <= j < names.len() && names[j] == action;
                names.lemma_filter_contains(p, j);
                assert(names.filter(p).contains(action));
            } else {
                assert(r.contains(action));
            }
        }
        assert(child_grant(g, req).covers(action));
        children(rest, ids, child, req, now).len() as int
    }
}

} // verus!

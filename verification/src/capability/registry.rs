//! Capability registry: the capabilities that the system knows.
//!
//! The registry maps names to capabilities. It keeps them in the order in which
//! their names were first registered.

use vstd::prelude::*;

use crate::text::str_eq;
use crate::types::capability::{ActionDef, Capability};

verus! {

/// Whether no two capabilities have one name.
pub open spec fn unique_names(s: Seq<Capability>) -> bool {
    forall|i: int, j: int|
        0 <= i < j < s.len() ==> (#[trigger] s[i]).name@ != (#[trigger] s[j]).name@
}

/// Whether `i` is the index of the first capability with this name, or the length
/// where there is none.
pub open spec fn is_index_of(s: Seq<Capability>, name: Seq<char>, i: int) -> bool {
    &&& 0 <= i <= s.len()
    &&& i < s.len() ==> s[i].name@ == name
    &&& forall|j: int| 0 <= j < i ==> (#[trigger] s[j]).name@ != name
}

/// Whether `i` is the index of the first action with this name, or the length
/// where there is none.
pub open spec fn is_action_index(s: Seq<ActionDef>, name: Seq<char>, i: int) -> bool {
    &&& 0 <= i <= s.len()
    &&& i < s.len() ==> s[i].name@ == name
    &&& forall|j: int| 0 <= j < i ==> (#[trigger] s[j]).name@ != name
}

/// Whether a list of actions offers one with this name.
pub open spec fn offers(s: Seq<ActionDef>, name: Seq<char>) -> bool {
    exists|i: int| 0 <= i < s.len() && (#[trigger] s[i]).name@ == name
}

/// The actions of all capabilities, one capability after the other.
pub open spec fn actions_of(s: Seq<Capability>) -> Seq<ActionDef>
    decreases s.len(),
{
    if s.len() == 0 {
        Seq::empty()
    } else {
        actions_of(s.drop_last()) + s.last().actions@
    }
}

/// What a list of references refers to.
pub open spec fn referents<T>(v: Seq<&T>) -> Seq<T> {
    v.map_values(|r: &T| *r)
}

fn find_in<'a>(actions: &'a Vec<ActionDef>, name: &str) -> (r: Option<&'a ActionDef>)
    ensures
        match r {
            Some(a) => exists|i: int|
                #[trigger] is_action_index(actions@, name@, i) && i < actions@.len() && *a
                    == actions@[i],
            None => !offers(actions@, name@),
        },
{
    let mut i: usize = 0;
    while i < actions.len()
        invariant
            i <= actions@.len(),
            forall|j: int| 0 <= j < i ==> (#[trigger] actions@[j]).name@ != name@,
        decreases actions@.len() - i,
    {
        if str_eq(actions[i].name.as_str(), name) {
            assert(is_action_index(actions@, name@, i as int));
            return Some(&actions[i]);
        }
        i = i + 1;
    }
    None
}

/// The capabilities that the system knows, by name.
pub struct CapabilityRegistry {
    capabilities: Vec<Capability>,
}

impl View for CapabilityRegistry {
    type V = Seq<Capability>;

    closed spec fn view(&self) -> Seq<Capability> {
        self.capabilities@
    }
}

impl CapabilityRegistry {
    /// No two capabilities have one name.
    pub open spec fn wf(&self) -> bool {
        unique_names(self@)
    }

    /// An empty registry.
    pub fn new() -> (r: CapabilityRegistry)
        ensures
            r@ == Seq::<Capability>::empty(),
            r.wf(),
    {
        CapabilityRegistry { capabilities: Vec::new() }
    }

    fn index_of(&self, name: &str) -> (r: usize)
        ensures
            is_index_of(self@, name@, r as int),
    {
        let mut i: usize = 0;
        while i < self.capabilities.len()
            invariant
                i <= self.capabilities@.len(),
                forall|j: int| 0 <= j < i ==> (#[trigger] self@[j]).name@ != name@,
            decreases self.capabilities@.len() - i,
        {
            if str_eq(self.capabilities[i].name.as_str(), name) {
                return i;
            }
            i = i + 1;
        }
        i
    }

    /// Registers a capability, in the place of the one with its name where there
    /// is one.
    pub fn register(&mut self, capability: Capability)
        requires
            old(self).wf(),
        ensures
            final(self).wf(),
            exists|i: int| #[trigger]
                is_index_of(old(self)@, capability.name@, i) && final(self)@ == (if i < old(
                    self,
                )@.len() {
                    old(self)@.update(i, capability)
                } else {
                    old(self)@.push(capability)
                }),
    {
        let i = self.index_of(capability.name.as_str());
        assert(is_index_of(old(self)@, capability.name@, i as int));
        if i < self.capabilities.len() {
            self.capabilities.set(i, capability);
        } else {
            self.capabilities.push(capability);
        }
    }

    /// The capability with this name.
    pub fn get(&self, name: &str) -> (r: Option<&Capability>)
        ensures
            match r {
                Some(c) => c.name@ == name@ && self@.contains(*c),
                None => forall|i: int| 0 <= i < self@.len() ==> (#[trigger] self@[i]).name@ != name@,
            },
    {
        let i = self.index_of(name);
        if i < self.capabilities.len() {
            assert(self@[i as int] == self.capabilities@[i as int]);
            Some(&self.capabilities[i])
        } else {
            None
        }
    }

    /// All registered capabilities.
    pub fn list(&self) -> (r: Vec<&Capability>)
        ensures
            referents(r@) == self@,
    {
        let mut out: Vec<&Capability> = Vec::new();
        let mut i: usize = 0;
        while i < self.capabilities.len()
            invariant
                i <= self.capabilities@.len(),
                referents(out@) == self@.take(i as int),
            decreases self.capabilities@.len() - i,
        {
            let ghost before = out@;
            out.push(&self.capabilities[i]);
            assert(referents(out@) =~= referents(before).push(self@[i as int]));
            assert(self@.take(i + 1) =~= self@.take(i as int).push(self@[i as int]));
            i = i + 1;
        }
        assert(self@.take(self@.len() as int) =~= self@);
        out
    }

    /// Finds an action across all capabilities: the name of the first capability
    /// that offers it, and its first action with that name.
    pub fn find_action(&self, action_name: &str) -> (r: Option<(&str, &ActionDef)>)
        ensures
            match r {
                Some((cap, action)) => exists|i: int, k: int|
                    #![trigger self@[i].actions@[k]]
                    {
                        &&& 0 <= i < self@.len()
                        &&& 0 <= k < self@[i].actions@.len()
                        &&& is_action_index(self@[i].actions@, action_name@, k)
                        &&& *action == self@[i].actions@[k]
                        &&& cap@ == self@[i].name@
                        &&& forall|j: int|
                            0 <= j < i ==> !offers((#[trigger] self@[j]).actions@, action_name@)
                    },
                None => forall|j: int|
                    0 <= j < self@.len() ==> !offers(
                        (#[trigger] self@[j]).actions@,
                        action_name@,
                    ),
            },
    {
        let mut i: usize = 0;
        while i < self.capabilities.len()
            invariant
                i <= self.capabilities@.len(),
                forall|j: int|
                    0 <= j < i ==> !offers((#[trigger] self@[j]).actions@, action_name@),
            decreases self.capabilities@.len() - i,
        {
            let cap = &self.capabilities[i];
            if let Some(a) = find_in(&cap.actions, action_name) {
                let ghost k = choose|k: int|
                    #[trigger] is_action_index(cap.actions@, action_name@, k) && k
                        < cap.actions@.len() && *a == cap.actions@[k];
                assert(self@[i as int].actions@[k] == *a);
                return Some((cap.name.as_str(), a));
            }
            i = i + 1;
        }
        None
    }

    /// The action of a capability with this name.
    pub fn get_action(&self, capability_name: &str, action_name: &str) -> (r: Option<&ActionDef>)
        ensures
            match r {
                Some(a) => exists|i: int, k: int|
                    #![trigger self@[i].actions@[k]]
                    {
                        &&& 0 <= i < self@.len()
                        &&& self@[i].name@ == capability_name@
                        &&& 0 <= k < self@[i].actions@.len()
                        &&& is_action_index(self@[i].actions@, action_name@, k)
                        &&& *a == self@[i].actions@[k]
                    },
                None => exists|i: int| #[trigger]
                    is_index_of(self@, capability_name@, i) && (i < self@.len() ==> !offers(
                        self@[i].actions@,
                        action_name@,
                    )),
            },
    {
        let i = self.index_of(capability_name);
        assert(is_index_of(self@, capability_name@, i as int));
        if i < self.capabilities.len() {
            let cap = &self.capabilities[i];
            match find_in(&cap.actions, action_name) {
                Some(a) => {
                    let ghost k = choose|k: int|
                        #[trigger] is_action_index(cap.actions@, action_name@, k) && k
                            < cap.actions@.len() && *a == cap.actions@[k];
                    assert(self@[i as int].actions@[k] == *a);
                    Some(a)
                },
                None => None,
            }
        } else {
            None
        }
    }

    /// The actions of all capabilities.
    pub fn all_actions(&self) -> (r: Vec<&ActionDef>)
        ensures
            referents(r@) == actions_of(self@),
    {
        let mut out: Vec<&ActionDef> = Vec::new();
        let mut i: usize = 0;
        assert(self@.take(0) =~= Seq::<Capability>::empty());
        assert(referents(out@) =~= Seq::<ActionDef>::empty());
        while i < self.capabilities.len()
            invariant
                i <= self.capabilities@.len(),
                referents(out@) == actions_of(self@.take(i as int)),
            decreases self.capabilities@.len() - i,
        {
            let ghost before = referents(out@);
            let actions = &self.capabilities[i].actions;
            assert(self@.take(i + 1).drop_last() =~= self@.take(i as int));
            let mut k: usize = 0;
            while k < actions.len()
                invariant
                    k <= actions@.len(),
                    referents(out@) == before + actions@.take(k as int),
                decreases actions@.len() - k,
            {
                let ghost o = out@;
                out.push(&actions[k]);
                assert(referents(out@) =~= referents(o).push(actions@[k as int]));
                assert(before + actions@.take(k + 1) =~= (before + actions@.take(k as int)).push(
                    actions@[k as int],
                ));
                k = k + 1;
            }
            assert(actions@.take(actions@.len() as int) =~= actions@);
            i = i + 1;
        }
        assert(self@.take(self@.len() as int) =~= self@);
        out
    }

    /// The number of registered capabilities.
    pub fn len(&self) -> (r: usize)
        ensures
            r == self@.len(),
    {
        self.capabilities.len()
    }

    /// Whether no capability is registered.
    pub fn is_empty(&self) -> (r: bool)
        ensures
            r == (self@.len() == 0),
    {
        self.capabilities.len() == 0
    }
}

/// What is registered under a name is what is found there: registering makes the
/// capability the one with its name, leaves the others, and adds to the number
/// only where the name is new.
pub proof fn registered_is_found(s: Seq<Capability>, c: Capability, i: int)
    requires
        unique_names(s),
        is_index_of(s, c.name@, i),
    ensures
        ({
            let t = if i < s.len() {
                s.update(i, c)
            } else {
                s.push(c)
            };
            &&& t[i] == c
            &&& is_index_of(t, c.name@, i)
            &&& unique_names(t)
            &&& t.len() == if i < s.len() {
                s.len()
            } else {
                s.len() + 1
            }
            &&& forall|j: int| 0 <= j < s.len() && j != i ==> t[j] == #[trigger] s[j]
        }),
{
}

/// Every action of every capability is among the actions of all, and nothing else is.
pub proof fn every_action_is_offered(s: Seq<Capability>)
    ensures
        forall|i: int, j: int|
            0 <= i < s.len() && 0 <= j < s[i].actions@.len() ==> actions_of(s).contains(
                #[trigger] s[i].actions@[j],
            ),
        forall|a: ActionDef| #[trigger]
            actions_of(s).contains(a) ==> exists|i: int|
                0 <= i < s.len() && (#[trigger] s[i]).actions@.contains(a),
    decreases s.len(),
{
    if s.len() > 0 {
        let rest = s.drop_last();
        every_action_is_offered(rest);
        let all = actions_of(s);
        let before = actions_of(rest);
        assert forall|i: int, j: int|
            0 <= i < s.len() && 0 <= j < s[i].actions@.len() implies all.contains(
            #[trigger] s[i].actions@[j],
        ) by {
            if i < rest.len() {
                assert(rest[i] == s[i]);
                assert(before.contains(rest[i].actions@[j]));
                let k = choose|k: int| 0 <= k < before.len() && before[k] == rest[i].actions@[j];
                assert(all[k] == s[i].actions@[j]);
            } else {
                assert(all[before.len() + j] == s[i].actions@[j]);
            }
        }
        assert forall|a: ActionDef| #[trigger] all.contains(a) implies exists|i: int|
            0 <= i < s.len() && (#[trigger] s[i]).actions@.contains(a) by {
            let k = choose|k: int| 0 <= k < all.len() && all[k] == a;
            if k < before.len() {
                assert(before[k] == a);
                assert(before.contains(a));
                let i = choose|i: int| 0 <= i < rest.len() && (#[trigger] rest[i]).actions@.contains(a);
                assert(s[i] == rest[i]);
            } else {
                let last = s[s.len() - 1];
                assert(last.actions@[k - before.len()] == a);
                assert(last.actions@.contains(a));
            }
        }
    }
}

} // verus!

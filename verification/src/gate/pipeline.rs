//! Gate pipeline: the order in which gates are asked, and whose answer counts.
//!
//! Gates are asked by ascending priority, those of one priority in the order in
//! which they were given. The first that pauses or denies decides, and no gate
//! after it is asked. Where every gate allows, execution proceeds.

use vstd::prelude::*;

use crate::gate::{DecisionView, GateDecision};

verus! {

/// Whether gate `a` is asked before gate `b`.
pub open spec fn before(priorities: Seq<u32>, a: usize, b: usize) -> bool {
    priorities[a as int] < priorities[b as int] || (priorities[a as int] == priorities[b as int]
        && a < b)
}

/// Whether `order` lists every gate once, in the order in which they are asked.
pub open spec fn is_order(order: Seq<usize>, priorities: Seq<u32>) -> bool {
    &&& order.len() == priorities.len()
    &&& forall|i: int| 0 <= i < order.len() ==> (#[trigger] order[i]) < priorities.len()
    &&& forall|i: int, j: int|
        0 <= i < j < order.len() ==> before(priorities, #[trigger] order[i], #[trigger] order[j])
}

/// The first decision in `order` that does not allow; `Allow` where there is none.
pub open spec fn verdict(
    order: Seq<usize>,
    decide: spec_fn(usize) -> DecisionView,
) -> DecisionView
    decreases order.len(),
{
    if order.len() == 0 {
        DecisionView::Allow
    } else if decide(order.first()) != DecisionView::Allow {
        decide(order.first())
    } else {
        verdict(order.drop_first(), decide)
    }
}

/// What to do next in evaluating a pipeline.
#[derive(Debug, PartialEq, Eq)]
pub enum GateStep {
    /// Ask the one with this index.
    Ask(usize),
    /// The pipeline has decided.
    Done(GateDecision),
}

/// An ordered pipeline of execution gates, each known by its index.
pub struct GatePipeline {
    priorities: Vec<u32>,
    order: Vec<usize>,
}

impl GatePipeline {
    /// The gates in the order in which they are asked.
    pub closed spec fn order(&self) -> Seq<usize> {
        self.order@
    }

    /// The priorities of the gates, by index.
    pub closed spec fn priorities(&self) -> Seq<u32> {
        self.priorities@
    }

    /// A pipeline of gates with these priorities.
    pub fn new(priorities: Vec<u32>) -> (r: GatePipeline)
        ensures
            r.priorities() == priorities@,
            is_order(r.order(), priorities@),
    {
        let ghost ps = priorities@;
        let mut order: Vec<usize> = Vec::new();
        let mut i: usize = 0;
        while i < priorities.len()
            invariant
                i <= priorities@.len(),
                ps == priorities@,
                order@.len() == i,
                forall|k: int| 0 <= k < order@.len() ==> (#[trigger] order@[k]) < i,
                forall|a: int, b: int|
                    0 <= a < b < order@.len() ==> before(
                        ps,
                        #[trigger] order@[a],
                        #[trigger] order@[b],
                    ),
            decreases priorities@.len() - i,
        {
            let mut at: usize = order.len();
            while at > 0 && priorities[order[at - 1]] > priorities[i]
                invariant
                    at <= order@.len(),
                    order@.len() == i,
                    i < priorities@.len(),
                    ps == priorities@,
                    forall|k: int| 0 <= k < order@.len() ==> (#[trigger] order@[k]) < i,
                    forall|k: int|
                        at <= k < order@.len() ==> ps[(#[trigger] order@[k]) as int]
                            > ps[i as int],
                decreases at,
            {
                at = at - 1;
            }
            let ghost old_order = order@;
            order.insert(at, i);
            assert forall|a: int, b: int| 0 <= a < b < order@.len() implies before(
                ps,
                #[trigger] order@[a],
                #[trigger] order@[b],
            ) by {
                let oa = if a < at {
                    a
                } else {
                    a - 1
                };
                let ob = if b < at {
                    b
                } else {
                    b - 1
                };
                if a == at {
                    assert(order@[b] == old_order[ob]);
                } else if b == at {
                    assert(order@[a] == old_order[oa]);
                    assert(before(ps, old_order[oa], i)) by {
                        if at > 0 {
                            let last = old_order[at - 1];
                            assert(ps[last as int] <= ps[i as int]);
                            if oa < at - 1 {
                                assert(before(ps, old_order[oa], last));
                            }
                        }
                    }
                } else {
                    assert(order@[a] == old_order[oa]);
                    assert(order@[b] == old_order[ob]);
                    assert(before(ps, old_order[oa], old_order[ob]));
                }
            }
            assert forall|k: int| 0 <= k < order@.len() implies (#[trigger] order@[k]) < i + 1 by {
                if k < at {
                    assert(order@[k] == old_order[k]);
                } else if k > at {
                    assert(order@[k] == old_order[k - 1]);
                }
            }
            i = i + 1;
        }
        GatePipeline { priorities, order }
    }

    /// A pipeline without gates, which allows everything.
    pub fn allow_all() -> (r: GatePipeline)
        ensures
            r.priorities() == Seq::<u32>::empty(),
            r.order() == Seq::<usize>::empty(),
    {
        GatePipeline { priorities: Vec::new(), order: Vec::new() }
    }

    /// One step of the evaluation, after `asked` gates were asked and `last` was
    /// the last one's decision (`Allow` at the start). The first gate that does
    /// not allow ends it.
    pub fn evaluate(&self, asked: usize, last: GateDecision) -> (r: GateStep)
        ensures
            match r {
                GateStep::Ask(gate) => {
                    &&& last@ == DecisionView::Allow
                    &&& asked < self.order().len()
                    &&& gate == self.order()[asked as int]
                },
                GateStep::Done(d) => {
                    &&& d@ == last@
                    &&& last@ == DecisionView::Allow ==> asked >= self.order().len()
                },
            },
    {
        match last {
            GateDecision::Allow => {
                if asked < self.order.len() {
                    GateStep::Ask(self.order[asked])
                } else {
                    GateStep::Done(GateDecision::Allow)
                }
            },
            stop => GateStep::Done(stop),
        }
    }
}

/// The first gate that pauses or denies wins: where the gates before position `k`
/// allow and the one at `k` does not, what is decided is what it says, whatever those
/// after it would say.
pub proof fn first_stop_wins(
    order: Seq<usize>,
    decide: spec_fn(usize) -> DecisionView,
    k: int,
)
    requires
        0 <= k < order.len(),
        forall|i: int| 0 <= i < k ==> decide(#[trigger] order[i]) == DecisionView::Allow,
        decide(order[k]) != DecisionView::Allow,
    ensures
        verdict(order, decide) == decide(order[k]),
    decreases order.len(),
{
    if k > 0 {
        let rest = order.drop_first();
        assert(decide(order[0]) == DecisionView::Allow);
        assert forall|i: int| 0 <= i < k - 1 implies decide(#[trigger] rest[i])
            == DecisionView::Allow by {
            assert(rest[i] == order[i + 1]);
        }
        first_stop_wins(rest, decide, k - 1);
    }
}

/// Where every gate allows, so does the pipeline; an empty pipeline allows.
pub proof fn all_allow_passes(order: Seq<usize>, decide: spec_fn(usize) -> DecisionView)
    requires
        forall|i: int| 0 <= i < order.len() ==> decide(#[trigger] order[i]) == DecisionView::Allow,
    ensures
        verdict(order, decide) == DecisionView::Allow,
    decreases order.len(),
{
    if order.len() > 0 {
        let rest = order.drop_first();
        assert(decide(order[0]) == DecisionView::Allow);
        assert forall|i: int| 0 <= i < rest.len() implies decide(#[trigger] rest[i])
            == DecisionView::Allow by {
            assert(rest[i] == order[i + 1]);
        }
        all_allow_passes(rest, decide);
    }
}

/// Asking the next gate keeps the decision: after `asked` gates have allowed, what
/// is left decides as the whole pipeline does, so the answer that ends the
/// evaluation is the verdict.
pub proof fn asking_keeps_verdict(
    order: Seq<usize>,
    decide: spec_fn(usize) -> DecisionView,
    asked: int,
)
    requires
        0 <= asked <= order.len(),
        forall|i: int| 0 <= i < asked ==> decide(#[trigger] order[i]) == DecisionView::Allow,
    ensures
        verdict(order.skip(asked), decide) == verdict(order, decide),
    decreases asked,
{
    if asked == 0 {
        assert(order.skip(0) =~= order);
    } else {
        asking_keeps_verdict(order, decide, asked - 1);
        let r = order.skip(asked - 1);
        assert(r.first() == order[asked - 1]);
        assert(r.drop_first() =~= order.skip(asked));
    }
}

/// The one that is asked first comes before every other.
pub proof fn lowest_priority_is_first(order: Seq<usize>, priorities: Seq<u32>)
    requires
        is_order(order, priorities),
        order.len() > 0,
    ensures
        forall|j: int|
            0 < j < order.len() ==> before(priorities, order[0], #[trigger] order[j]),
{
}

/// A gate with a lower priority is asked before one with a higher, and of two with one
/// priority the one that was given first.
pub proof fn gates_are_asked_by_their_priorities(
    order: Seq<usize>,
    priorities: Seq<u32>,
    i: int,
    j: int,
)
    requires
        is_order(order, priorities),
        0 <= i < j < order.len(),
    ensures
        priorities[order[i] as int] <= priorities[order[j] as int],
        priorities[order[i] as int] == priorities[order[j] as int] ==> order[i] < order[j],
{
    assert(before(priorities, order[i], order[j]));
}

/// Every gate is asked, unless one before it stops the call.
pub proof fn every_gate_is_asked(order: Seq<usize>, priorities: Seq<u32>, gate: usize)
    requires
        is_order(order, priorities),
        gate < priorities.len(),
    ensures
        exists|i: int| 0 <= i < order.len() && order[i] == gate,
{
    let n = order.len() as int;
    let v = order.map_values(|x: usize| x as int);
    let all = vstd::set_lib::set_int_range(0, n);
    assert(v.no_duplicates()) by {
        assert forall|i: int, j: int| 0 <= i < v.len() && 0 <= j < v.len() && i != j implies v[i]
            != v[j] by {
            if i < j {
                assert(before(priorities, order[i], order[j]));
            } else {
                assert(before(priorities, order[j], order[i]));
            }
        }
    }
    v.unique_seq_to_set();
    vstd::set_lib::lemma_int_range(0, n);
    assert(v.to_set().subset_of(all)) by {
        assert forall|x: int| v.to_set().contains(x) implies all.contains(x) by {
            let i = choose|i: int| 0 <= i < v.len() && v[i] == x;
            assert(order[i] < priorities.len());
        }
    }
    vstd::set_lib::lemma_subset_equality(v.to_set(), all);
    assert(all.contains(gate as int));
    let i = choose|i: int| 0 <= i < v.len() && v[i] == gate as int;
    assert(order[i] == gate);
}

} // verus!

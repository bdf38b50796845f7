//! Structured tool calls: batches of action calls that are checked one after the
//! other and run at once.
//!
//! Each call is first checked: a lease must cover the action and policy must allow
//! it. A call without a lease and a denied call get an error result and the batch
//! goes on; a call that needs approval ends the batch at once. The calls that
//! passed are then run, in any order, and their results are merged in the order of
//! the calls.

use vstd::prelude::*;

use crate::capability::lease::{
    first_where, lemma_first_where, no_lease_for, position, serves_exactly, serving,
    LeaseManager,
};
use crate::capability::policy::{decision, PolicyDecision, PolicyEngine, PolicyView};
use crate::executor::calls::{
    approval_event, error_json, error_object, event_of_approval, event_of_failure, event_of_pause,
    event_of_run, failed_event, interrupted_call_needs_refund, object, or_null, paused_event,
    ran_event, value_or_null, ExecOutcome, ExecView, PauseView,
};
use crate::gate::{resume_json, resume_json_reads_back, resume_of, ResumeKind, ResumeView};
use crate::json::{field_of, fields, json_str, Json, JsonView};
use crate::text::{clone_opt, opt_text};
use crate::types::capability::{ActionDef, CapabilityLease, LeaseView, PolicyRule};
use crate::types::error::{EngineError, ErrorView};
use crate::types::event::{event_views, EventKind, EventView, OutcomeView, ThreadOutcome};
use crate::types::ids::{LeaseId, StepId, ThreadId};
use crate::types::message::{
    call_views, result_views, ActionCall, ActionResult, CallView, ResultView,
};

verus! {

/// The result of a batch of action calls.
#[derive(Debug, PartialEq, Eq)]
pub struct ActionBatchResult {
    /// The results, in the order of the calls.
    pub results: Vec<ActionResult>,
    /// The events, in the order of the calls.
    pub events: Vec<EventKind>,
    /// Where this is set, execution was interrupted and the thread must wait.
    pub need_approval: Option<ThreadOutcome>,
}

/// What the result of a batch holds.
pub struct BatchView {
    pub results: Seq<ResultView>,
    pub events: Seq<EventView>,
    pub need_approval: Option<OutcomeView>,
}

/// What an optional outcome holds.
pub open spec fn opt_outcome(o: Option<ThreadOutcome>) -> Option<OutcomeView> {
    match o {
        Some(x) => Some(x@),
        None => None,
    }
}

impl View for ActionBatchResult {
    type V = BatchView;

    open spec fn view(&self) -> BatchView {
        BatchView {
            results: result_views(self.results@),
            events: event_views(self.events@),
            need_approval: opt_outcome(self.need_approval),
        }
    }
}

/// The result of a call that was refused before it ran.
pub open spec fn refused_result(call: CallView, error: Seq<char>) -> ResultView {
    ResultView {
        call_id: call.id,
        action_name: call.action_name,
        output: error_json(error),
        is_error: true,
        duration_ms: 0,
    }
}

fn refuse(call: &ActionCall, error: &str) -> (r: ActionResult)
    ensures
        r@ == refused_result(call@, error@),
{
    ActionResult {
        call_id: call.id.clone(),
        action_name: call.action_name.clone(),
        output: error_object(error),
        is_error: true,
        duration_ms: 0,
    }
}

/// Where a call of a batch stands.
#[derive(Debug, PartialEq, Eq)]
pub enum Slot {
    /// It passed the checks, and a use of this lease was taken for it.
    Runnable(CapabilityLease),
    /// Its result and its event are known.
    Settled(ActionResult, EventKind),
}

/// What a slot holds.
pub enum SlotView {
    Runnable(LeaseView),
    Settled(ResultView, EventView),
}

impl View for Slot {
    type V = SlotView;

    open spec fn view(&self) -> SlotView {
        match self {
            Slot::Runnable(l) => SlotView::Runnable(l@),
            Slot::Settled(r, e) => SlotView::Settled(r@, e@),
        }
    }
}

/// The slot of a call that no lease covers.
pub open spec fn no_lease_slot(call: CallView, step: StepId) -> SlotView {
    SlotView::Settled(
        refused_result(call, "no active lease covers action '"@ + call.action_name + "'"@),
        failed_event(
            step,
            call.action_name,
            call.id,
            "no lease for action '"@ + call.action_name + "'"@,
            None,
        ),
    )
}

/// The slot of a call that policy denied.
pub open spec fn denied_slot(call: CallView, step: StepId, reason: Seq<char>) -> SlotView {
    SlotView::Settled(
        refused_result(call, "denied: "@ + reason),
        failed_event(step, call.action_name, call.id, reason, None),
    )
}

/// The outcome of a call that policy put to approval.
pub open spec fn approval_outcome(call: CallView) -> OutcomeView {
    OutcomeView::GatePaused {
        gate_name: "approval"@,
        action_name: call.action_name,
        call_id: call.id,
        parameters: call.parameters,
        resume_kind: ResumeView::Approval(true),
        resume_output: None,
    }
}

/// What the search for a lease came to.
#[derive(Debug, PartialEq, Eq)]
pub enum Lookup {
    /// This lease covers the action: the definition of the action is wanted next.
    Covered(CapabilityLease),
    /// No lease covers it.
    Refused(Slot),
}

/// Looks for the lease that a call is made under.
pub fn preflight_lookup(
    call: &ActionCall,
    thread_id: ThreadId,
    leases: &LeaseManager,
    step_id: StepId,
    now: i128,
) -> (r: Lookup)
    ensures
        ({
            let p = serving(leases@, thread_id, call@.action_name, now);
            match r {
                Lookup::Covered(lease) => p < leases@.len() && lease@ == leases@[p],
                Lookup::Refused(slot) => p == leases@.len() && slot@ == no_lease_slot(
                    call@,
                    step_id,
                ),
            }
        }),
{
    match leases.find_lease_for_action(thread_id, call.action_name.as_str(), now) {
        Some(lease) => Lookup::Covered(lease),
        None => {
            let mut shown = "no active lease covers action '".to_owned();
            shown.append(call.action_name.as_str());
            shown.append("'");
            let mut error = "no lease for action '".to_owned();
            error.append(call.action_name.as_str());
            error.append("'");
            Lookup::Refused(
                Slot::Settled(
                    refuse(call, shown.as_str()),
                    event_of_failure(
                        step_id,
                        call.action_name.as_str(),
                        call.id.as_str(),
                        error,
                        None,
                    ),
                ),
            )
        },
    }
}

/// What the checks of a call came to.
#[derive(Debug, PartialEq, Eq)]
pub enum Verdict {
    /// The batch goes on with this slot.
    Go(Slot),
    /// The call needs approval: the batch ends with this event and outcome.
    Stop(EventKind, ThreadOutcome),
}

/// Checks a call under the lease that covers it. `action` is its definition, where
/// one is known; a call of an action without a definition is not put to policy. A
/// call that passes takes one use of a lease that covers exactly its name; where
/// there is none the batch fails.
pub fn preflight_decide(
    call: &ActionCall,
    thread_id: ThreadId,
    lease: &CapabilityLease,
    action: Option<&ActionDef>,
    leases: &mut LeaseManager,
    policy: &PolicyEngine,
    capability_policies: &Vec<PolicyRule>,
    step_id: StepId,
    params_summary: Option<String>,
    now: i128,
) -> (r: Result<Verdict, EngineError>)
    requires
        old(leases).wf(),
    ensures
        final(leases).wf(),
        ({
            let s = old(leases)@;
            let p = first_where(
                s,
                |l: LeaseView| serves_exactly(l, thread_id, call.action_name@, now),
            );
            let d = match action {
                Some(a) => decision(
                    policy.global_rules(),
                    policy.denied(),
                    a@,
                    lease@,
                    capability_policies@,
                    now,
                ),
                None => PolicyView::Allow,
            };
            match d {
                PolicyView::Deny(reason) => {
                    &&& final(leases)@ == s
                    &&& r matches Ok(Verdict::Go(slot)) && slot@ == denied_slot(
                        call@,
                        step_id,
                        reason,
                    )
                },
                PolicyView::RequireApproval(_) => {
                    &&& final(leases)@ == s
                    &&& r matches Ok(Verdict::Stop(e, o)) && e@ == approval_event(
                        call@.action_name,
                        call@.id,
                        call@.parameters,
                        opt_text(params_summary),
                    ) && o@ == approval_outcome(call@)
                },
                PolicyView::Allow => if p < s.len() {
                    &&& final(leases)@ == s.update(p, s[p].consumed())
                    &&& r matches Ok(Verdict::Go(slot)) && slot@ == SlotView::Runnable(
                        s[p].consumed(),
                    )
                } else {
                    &&& final(leases)@ == s
                    &&& r matches Err(e) && e@ == ErrorView::LeaseNotFound(
                        no_lease_for(call@.action_name),
                    )
                },
            }
        }),
{
    if let Some(a) = action {
        match policy.evaluate(a, lease, capability_policies, now) {
            PolicyDecision::Deny { reason } => {
                let mut shown = "denied: ".to_owned();
                shown.append(reason.as_str());
                return Ok(
                    Verdict::Go(
                        Slot::Settled(
                            refuse(call, shown.as_str()),
                            event_of_failure(
                                step_id,
                                call.action_name.as_str(),
                                call.id.as_str(),
                                reason,
                                None,
                            ),
                        ),
                    ),
                );
            },
            PolicyDecision::RequireApproval { .. } => {
                return Ok(
                    Verdict::Stop(
                        event_of_approval(
                            call.action_name.as_str(),
                            call.id.as_str(),
                            &call.parameters,
                            params_summary,
                        ),
                        ThreadOutcome::GatePaused {
                            gate_name: "approval".to_owned(),
                            action_name: call.action_name.clone(),
                            call_id: call.id.clone(),
                            parameters: call.parameters.clone(),
                            resume_kind: ResumeKind::Approval { allow_always: true },
                            resume_output: None,
                        },
                    ),
                );
            },
            PolicyDecision::Allow => {},
        }
    }
    match leases.find_and_consume(thread_id, call.action_name.as_str(), now) {
        Ok(taken) => Ok(Verdict::Go(Slot::Runnable(taken))),
        Err(e) => Err(e),
    }
}

/// The results of the slots that are settled.
pub open spec fn settled_results(slots: Seq<SlotView>) -> Seq<ResultView>
    decreases slots.len(),
{
    if slots.len() == 0 {
        Seq::empty()
    } else {
        match slots.last() {
            SlotView::Settled(r, _) => settled_results(slots.drop_last()).push(r),
            SlotView::Runnable(_) => settled_results(slots.drop_last()),
        }
    }
}

/// The events of the slots that are settled.
pub open spec fn settled_events(slots: Seq<SlotView>) -> Seq<EventView>
    decreases slots.len(),
{
    if slots.len() == 0 {
        Seq::empty()
    } else {
        match slots.last() {
            SlotView::Settled(_, e) => settled_events(slots.drop_last()).push(e),
            SlotView::Runnable(_) => settled_events(slots.drop_last()),
        }
    }
}

/// What a list of slots holds.
pub open spec fn slot_views(v: Seq<Slot>) -> Seq<SlotView> {
    v.map_values(|s: Slot| s@)
}

/// Ends a batch at a call that needs approval: only the refusals before it are
/// reported, with the request for approval after them. None of the calls runs.
pub fn interrupt_batch(slots: Vec<Slot>, event: EventKind, outcome: ThreadOutcome) -> (r:
    ActionBatchResult)
    ensures
        r@ == (BatchView {
            results: settled_results(slot_views(slots@)),
            events: settled_events(slot_views(slots@)).push(event@),
            need_approval: Some(outcome@),
        }),
{
    let ghost all = slot_views(slots@);
    let mut rest = slots;
    let mut results: Vec<ActionResult> = Vec::new();
    let mut events: Vec<EventKind> = Vec::new();
    let ghost mut i: int = 0;
    proof {
        assert(result_views(results@) =~= settled_results(all.take(0)));
        assert(event_views(events@) =~= settled_events(all.take(0)));
        assert(all.skip(0) =~= all);
    }
    while rest.len() > 0
        invariant
            0 <= i <= all.len(),
            slot_views(rest@) == all.skip(i),
            result_views(results@) == settled_results(all.take(i)),
            event_views(events@) == settled_events(all.take(i)),
        decreases rest@.len(),
    {
        let ghost before = rest@;
        let ghost rs = results@;
        let ghost es = events@;
        proof {
            assert(slot_views(before).len() == before.len());
            assert(slot_views(before)[0] == all[i]);
            assert(all.take(i + 1).drop_last() =~= all.take(i));
            assert(all.take(i + 1).last() == all[i]);
        }
        let slot = rest.remove(0);
        proof {
            assert(slot_views(rest@) =~= slot_views(before).skip(1));
            assert(all.skip(i).skip(1) =~= all.skip(i + 1));
        }
        if let Slot::Settled(r, e) = slot {
            let ghost rv = r@;
            let ghost ev = e@;
            results.push(r);
            events.push(e);
            proof {
                assert(result_views(results@) =~= result_views(rs).push(rv));
                assert(event_views(events@) =~= event_views(es).push(ev));
            }
        }
        proof {
            i = i + 1;
        }
    }
    proof {
        assert(slot_views(rest@).len() == rest@.len());
        assert(i == all.len());
        assert(all.take(all.len() as int) =~= all);
    }
    let ghost es = events@;
    let ghost ev = event@;
    events.push(event);
    assert(event_views(events@) =~= event_views(es).push(ev));
    ActionBatchResult { results, events, need_approval: Some(outcome) }
}

/// The output that stands for a call that a gate paused.
pub open spec fn paused_output(p: PauseView) -> JsonView {
    JsonView::Object(
        seq![
            ("gate"@, JsonView::Str(p.gate_name)),
            ("resume_kind"@, resume_json(p.resume_kind)),
            ("resume_output"@, or_null(p.resume_output)),
            ("status"@, JsonView::Str("gate_paused"@)),
        ],
    )
}

/// The result and the event that the end of an execution makes. The result of an
/// action carries the identity of the call, whatever the action put there.
pub open spec fn classified(x: ExecView, call: CallView, step: StepId) -> (ResultView, EventView) {
    match x {
        ExecView::Done(r) => {
            let stamped = ResultView { call_id: call.id, ..r };
            (stamped, ran_event(stamped, step, call.action_name, call.id, None))
        },
        ExecView::Paused(p) => (
            ResultView {
                call_id: call.id,
                action_name: call.action_name,
                output: paused_output(p),
                is_error: true,
                duration_ms: 0,
            },
            paused_event(p, p.action_name, p.call_id, p.parameters, p.params_summary),
        ),
        ExecView::Failed(e) => (
            refused_result(call, e),
            failed_event(step, call.action_name, call.id, e, None),
        ),
    }
}

/// Makes a result and an event of the end of an execution.
pub fn classify_exec_result(result: ExecOutcome, call: &ActionCall, step_id: StepId) -> (r: (
    ActionResult,
    EventKind,
))
    ensures
        (r.0@, r.1@) == classified(result@, call@, step_id),
        r.0.call_id@ == call.id@,
        result matches ExecOutcome::Done(x) ==> r.0.output@ == x.output@ && r.0.is_error
            == x.is_error,
{
    match result {
        ExecOutcome::Done(mut action_result) => {
            action_result.call_id = call.id.clone();
            let event = event_of_run(
                &action_result,
                step_id,
                call.action_name.as_str(),
                call.id.as_str(),
                None,
            );
            (action_result, event)
        },
        ExecOutcome::Paused(p) => {
            let mut v: Vec<(String, Json)> = Vec::new();
            v.push(("gate".to_owned(), json_str(p.gate_name.as_str())));
            v.push(("resume_kind".to_owned(), p.resume_kind.to_json()));
            v.push(("resume_output".to_owned(), value_or_null(&p.resume_output)));
            v.push(("status".to_owned(), json_str("gate_paused")));
            assert(fields(v@) =~= paused_output(p@)->Object_0);
            let error_result = ActionResult {
                call_id: call.id.clone(),
                action_name: call.action_name.clone(),
                output: object(v),
                is_error: true,
                duration_ms: 0,
            };
            let event = event_of_pause(
                &p,
                p.action_name.as_str(),
                p.call_id.as_str(),
                &p.parameters,
                clone_opt(&p.params_summary),
            );
            (error_result, event)
        },
        ExecOutcome::Failed(e) => {
            let error_result = refuse(call, e.as_str());
            let event = event_of_failure(
                step_id,
                call.action_name.as_str(),
                call.id.as_str(),
                e,
                None,
            );
            (error_result, event)
        },
    }
}

/// Takes the end of an execution into account: the use of a lease is given back
/// where a gate paused the call, and the result and event are made.
pub fn settle(
    outcome: ExecOutcome,
    call: &ActionCall,
    lease_id: LeaseId,
    leases: &mut LeaseManager,
    step_id: StepId,
) -> (r: Slot)
    requires
        old(leases).wf(),
    ensures
        final(leases).wf(),
        r@ == SlotView::Settled(
            classified(outcome@, call@, step_id).0,
            classified(outcome@, call@, step_id).1,
        ),
        final(leases)@ == after_settling(old(leases)@, lease_id, outcome@),
{
    if interrupted_call_needs_refund(&outcome) {
        let _ = leases.refund_use(lease_id);
    }
    let (result, event) = classify_exec_result(outcome, call, step_id);
    Slot::Settled(result, event)
}

/// The leases after the end of an execution.
pub open spec fn after_settling(s: Seq<LeaseView>, id: LeaseId, x: ExecView) -> Seq<LeaseView> {
    let p = position(s, id);
    if x is Paused && p < s.len() {
        s.update(p, s[p].refunded())
    } else {
        s
    }
}

/// Whether a settled slot stands for a call that a gate paused.
pub open spec fn is_pause(s: SlotView) -> bool {
    s matches SlotView::Settled(r, e) && e is ApprovalRequested && r.output.str_field("status"@)
        == Some("gate_paused"@)
}

/// The index of the first slot that stands for a paused call, or the length.
pub open spec fn first_pause(slots: Seq<SlotView>) -> int
    decreases slots.len(),
{
    if slots.len() == 0 || is_pause(slots.first()) {
        0
    } else {
        1 + first_pause(slots.drop_first())
    }
}

/// The outcome of a batch in which a gate paused this call.
pub open spec fn pause_outcome(s: SlotView, call: CallView) -> OutcomeView {
    let r = s->Settled_0;
    let e = s->Settled_1;
    OutcomeView::GatePaused {
        gate_name: match r.output.str_field("gate"@) {
            Some(g) => g,
            None => "unknown"@,
        },
        action_name: e->ApprovalRequested_action_name,
        call_id: e->ApprovalRequested_call_id,
        parameters: call.parameters,
        resume_kind: match r.output.get("resume_kind"@) {
            Some(j) => match resume_of(j) {
                Some(k) => k,
                None => ResumeView::Approval(false),
            },
            None => ResumeView::Approval(false),
        },
        resume_output: r.output.get("resume_output"@),
    }
}

/// The result of a batch whose calls have been run: the results and events of the
/// settled slots in the order of the calls. The first call that a gate paused
/// interrupts the thread; the other results are kept.
pub open spec fn merged_batch(calls: Seq<CallView>, slots: Seq<SlotView>) -> BatchView {
    BatchView {
        results: settled_results(slots),
        events: settled_events(slots),
        need_approval: if first_pause(slots) < slots.len() {
            Some(pause_outcome(slots[first_pause(slots)], calls[first_pause(slots)]))
        } else {
            None
        },
    }
}

proof fn lemma_first_pause(slots: Seq<SlotView>, i: int)
    requires
        0 <= i <= slots.len(),
        forall|j: int| 0 <= j < i ==> !is_pause(#[trigger] slots[j]),
        i < slots.len() ==> is_pause(slots[i]),
    ensures
        first_pause(slots) == i,
    decreases slots.len(),
{
    if i > 0 {
        let r = slots.drop_first();
        assert(!is_pause(slots[0]));
        assert forall|j: int| 0 <= j < i - 1 implies !is_pause(#[trigger] r[j]) by {
            assert(r[j] == slots[j + 1]);
        }
        lemma_first_pause(r, i - 1);
    }
}

fn pause_of(result: &ActionResult, event: &EventKind, call: &ActionCall) -> (r: Option<
    ThreadOutcome,
>)
    ensures
        ({
            let s = SlotView::Settled(result@, event@);
            match r {
                Some(o) => is_pause(s) && o@ == pause_outcome(s, call@),
                None => !is_pause(s),
            }
        }),
{
    if let EventKind::ApprovalRequested { action_name, call_id, .. } = event {
        let paused = match result.output.str_field("status") {
            Some(s) => crate::text::str_eq(s, "gate_paused"),
            None => false,
        };
        if !paused {
            return None;
        }
        let gate_name = match result.output.str_field("gate") {
            Some(g) => g.to_owned(),
            None => "unknown".to_owned(),
        };
        let resume_kind = match result.output.get("resume_kind") {
            Some(j) => match ResumeKind::from_json(j) {
                Some(k) => k,
                None => ResumeKind::Approval { allow_always: false },
            },
            None => ResumeKind::Approval { allow_always: false },
        };
        let resume_output = match result.output.get("resume_output") {
            Some(j) => Some(j.clone()),
            None => None,
        };
        Some(
            ThreadOutcome::GatePaused {
                gate_name,
                action_name: action_name.clone(),
                call_id: call_id.clone(),
                parameters: call.parameters.clone(),
                resume_kind,
                resume_output,
            },
        )
    } else {
        None
    }
}

/// Merges the slots of a batch in the order of its calls. A slot that is still
/// runnable is one whose execution was lost; it leaves no result.
pub fn merge_batch(calls: &Vec<ActionCall>, slots: Vec<Slot>) -> (r: ActionBatchResult)
    requires
        slots@.len() <= calls@.len(),
    ensures
        r@ == merged_batch(call_views(calls@), slot_views(slots@)),
{
    let ghost all = slot_views(slots@);
    let ghost cs = call_views(calls@);
    let total = slots.len();
    let mut rest = slots;
    let mut results: Vec<ActionResult> = Vec::new();
    let mut events: Vec<EventKind> = Vec::new();
    let mut interrupt: Option<ThreadOutcome> = None;
    let mut i: usize = 0;
    let ghost mut at: int = all.len() as int;
    proof {
        assert(result_views(results@) =~= settled_results(all.take(0)));
        assert(event_views(events@) =~= settled_events(all.take(0)));
        assert(all.skip(0) =~= all);
    }
    while i < total
        invariant
            i <= total,
            total == all.len(),
            all.len() <= calls@.len(),
            cs == call_views(calls@),
            slot_views(rest@) == all.skip(i as int),
            result_views(results@) == settled_results(all.take(i as int)),
            event_views(events@) == settled_events(all.take(i as int)),
            match interrupt {
                Some(o) => {
                    &&& 0 <= at < i
                    &&& is_pause(all[at])
                    &&& forall|j: int| 0 <= j < at ==> !is_pause(#[trigger] all[j])
                    &&& o@ == pause_outcome(all[at], cs[at])
                },
                None => forall|j: int| 0 <= j < i ==> !is_pause(#[trigger] all[j]),
            },
        decreases total - i,
    {
        let ghost before = rest@;
        let ghost rs = results@;
        let ghost es = events@;
        proof {
            assert(slot_views(before).len() == before.len());
            assert(slot_views(before)[0] == all[i as int]);
            assert(all.take(i + 1).drop_last() =~= all.take(i as int));
            assert(all.take(i + 1).last() == all[i as int]);
        }
        let slot = rest.remove(0);
        proof {
            assert(slot@ == all[i as int]);
            assert(slot_views(rest@) =~= slot_views(before).skip(1));
            assert(all.skip(i as int).skip(1) =~= all.skip(i + 1));
        }
        if let Slot::Settled(r, e) = slot {
            if interrupt.is_none() {
                interrupt = pause_of(&r, &e, &calls[i]);
                proof {
                    if interrupt is Some {
                        at = i as int;
                        assert(cs[at] == calls@[at]@);
                    }
                }
            }
            let ghost rv = r@;
            let ghost ev = e@;
            results.push(r);
            events.push(e);
            proof {
                assert(result_views(results@) =~= result_views(rs).push(rv));
                assert(event_views(events@) =~= event_views(es).push(ev));
            }
        }
        i = i + 1;
    }
    proof {
        assert(all.take(all.len() as int) =~= all);
        if interrupt is Some {
            lemma_first_pause(all, at);
        } else {
            lemma_first_pause(all, all.len() as int);
        }
    }
    ActionBatchResult { results, events, need_approval: interrupt }
}

/// Whatever the execution of a call came to, its result carries the identity of the
/// call, and so does its event unless a gate paused it.
pub proof fn call_identity_is_preserved(x: ExecView, call: CallView, step: StepId)
    ensures
        classified(x, call, step).0.call_id == call.id,
        !(x is Paused) ==> match classified(x, call, step).1 {
            EventView::ActionExecuted { call_id, .. } => call_id == call.id,
            EventView::ActionFailed { call_id, .. } => call_id == call.id,
            _ => false,
        },
{
}

/// A batch whose calls all came to an end has one result and one event for each call, in
/// the order of the calls: each result carries the identity of its call.
pub proof fn batch_keeps_the_order_of_calls(calls: Seq<CallView>, slots: Seq<SlotView>)
    requires
        slots.len() == calls.len(),
        forall|i: int|
            0 <= i < slots.len() ==> ((#[trigger] slots[i]) matches SlotView::Settled(r, _)
                && r.call_id == calls[i].id),
    ensures
        merged_batch(calls, slots).results.len() == calls.len(),
        merged_batch(calls, slots).events.len() == calls.len(),
        forall|i: int|
            0 <= i < calls.len() ==> (#[trigger] merged_batch(calls, slots).results[i]).call_id
                == calls[i].id,
    decreases slots.len(),
{
    if slots.len() > 0 {
        let s = slots.drop_last();
        let c = calls.drop_last();
        assert forall|i: int| 0 <= i < s.len() implies ((#[trigger] s[i]) matches SlotView::Settled(
            r,
            _,
        ) && r.call_id == c[i].id) by {
            assert(s[i] == slots[i]);
            assert(c[i] == calls[i]);
        }
        batch_keeps_the_order_of_calls(c, s);
        assert(slots[slots.len() - 1] == slots.last());
        let all = settled_results(slots);
        assert forall|i: int| 0 <= i < calls.len() implies (#[trigger] all[i]).call_id
            == calls[i].id by {
            if i < c.len() {
                assert(merged_batch(c, s).results[i].call_id == c[i].id);
                assert(c[i] == calls[i]);
            }
        }
    }
}

/// A call that a gate paused interrupts the batch with that gate's own request:
/// its name, what resumes it and the parameters of the call arrive as
/// they were.
pub proof fn pause_reaches_the_outcome(p: PauseView, call: CallView, step: StepId)
    ensures
        ({
            let (r, e) = classified(ExecView::Paused(p), call, step);
            let s = SlotView::Settled(r, e);
            &&& is_pause(s)
            &&& pause_outcome(s, call) == (OutcomeView::GatePaused {
                gate_name: p.gate_name,
                action_name: p.action_name,
                call_id: p.call_id,
                parameters: call.parameters,
                resume_kind: p.resume_kind,
                resume_output: Some(or_null(p.resume_output)),
            })
        }),
{
    reveal_with_fuel(field_of, 5);
    reveal_strlit("gate");
    reveal_strlit("resume_kind");
    reveal_strlit("resume_output");
    reveal_strlit("status");
    assert("gate"@.len() != "resume_kind"@.len());
    assert("gate"@.len() != "resume_output"@.len());
    assert("gate"@.len() != "status"@.len());
    assert("resume_kind"@.len() != "resume_output"@.len());
    assert("resume_kind"@.len() != "status"@.len());
    assert("resume_output"@.len() != "status"@.len());
    let f = paused_output(p)->Object_0;
    let f1 = f.drop_first();
    let f2 = f1.drop_first();
    let f3 = f2.drop_first();
    assert(f1[0] == f[1] && f2[0] == f[2] && f3[0] == f[3]);
    resume_json_reads_back(p.resume_kind);
}

/// An error that an action reports is an event of failure, never of success.
pub proof fn reported_error_is_a_failure(r: ResultView, call: CallView, step: StepId)
    requires
        r.is_error,
    ensures
        classified(ExecView::Done(r), call, step).1 is ActionFailed,
{
}

/// Whether a lease covers a call.
pub open spec fn is_covered(c: CallView, thread: ThreadId, s: Seq<LeaseView>, now: i128) -> bool {
    serving(s, thread, c.action_name, now) < s.len()
}

/// The index of the next call that a lease covers, at or after `i`, or the length where
/// there is none.
pub open spec fn next_covered(
    calls: Seq<CallView>,
    thread: ThreadId,
    s: Seq<LeaseView>,
    now: i128,
    i: int,
) -> int
    decreases calls.len() - i,
{
    if i >= calls.len() || is_covered(calls[i], thread, s, now) {
        i
    } else {
        next_covered(calls, thread, s, now, i + 1)
    }
}

/// The slots of calls that no lease covers.
pub open spec fn refusals(calls: Seq<CallView>, step: StepId) -> Seq<SlotView> {
    calls.map_values(|c: CallView| no_lease_slot(c, step))
}

/// Goes on with a batch up to the next call that a lease covers: the calls before it
/// are refused. The lease is returned, for the call that the next slot is for; `None`
/// where no call is left.
pub fn advance_batch(
    calls: &Vec<ActionCall>,
    slots: &mut Vec<Slot>,
    thread_id: ThreadId,
    leases: &LeaseManager,
    step_id: StepId,
    now: i128,
) -> (r: Option<CapabilityLease>)
    requires
        old(slots)@.len() <= calls@.len(),
    ensures
        ({
            let cs = call_views(calls@);
            let n = old(slots)@.len() as int;
            let k = next_covered(cs, thread_id, leases@, now, n);
            &&& n <= k <= cs.len()
            &&& slot_views(final(slots)@) == slot_views(old(slots)@) + refusals(
                cs.subrange(n, k),
                step_id,
            )
            &&& match r {
                Some(lease) => k < cs.len() && lease@ == leases@[serving(
                    leases@,
                    thread_id,
                    cs[k].action_name,
                    now,
                )],
                None => k == cs.len(),
            }
        }),
{
    let ghost cs = call_views(calls@);
    let ghost n = slots@.len() as int;
    let ghost start = slot_views(slots@);
    assert(slot_views(slots@) =~= start + refusals(cs.subrange(n, n), step_id));
    while slots.len() < calls.len()
        invariant
            n == old(slots)@.len() <= slots@.len() <= calls@.len(),
            start == slot_views(old(slots)@),
            cs == call_views(calls@),
            next_covered(cs, thread_id, leases@, now, slots@.len() as int) == next_covered(
                cs,
                thread_id,
                leases@,
                now,
                n,
            ),
            slot_views(slots@) == start + refusals(
                cs.subrange(n, slots@.len() as int),
                step_id,
            ),
        decreases calls@.len() - slots@.len(),
    {
        let i = slots.len();
        assert(cs[i as int] == calls@[i as int]@);
        match preflight_lookup(&calls[i], thread_id, leases, step_id, now) {
            Lookup::Covered(lease) => {
                return Some(lease);
            },
            Lookup::Refused(slot) => {
                let ghost before = slots@;
                let ghost v = slot@;
                slots.push(slot);
                assert(slot_views(slots@) =~= slot_views(before).push(v));
                assert(refusals(cs.subrange(n, i + 1), step_id) =~= refusals(
                    cs.subrange(n, i as int),
                    step_id,
                ).push(v));
                assert((start + refusals(cs.subrange(n, i as int), step_id)).push(v) =~= start
                    + refusals(cs.subrange(n, i + 1), step_id));
            },
        }
    }
    None
}

/// What an action returned arrives as it is: of its result only the identity of the call
/// is set. A result without an error is told as an execution that took as long, and one
/// with an error as a failure with the error text in its output.
pub proof fn returned_results_arrive_as_they_are(r: ResultView, call: CallView, step: StepId)
    ensures
        ({
            let (result, event) = classified(ExecView::Done(r), call, step);
            &&& result.output == r.output
            &&& result.action_name == r.action_name
            &&& result.is_error == r.is_error
            &&& result.duration_ms == r.duration_ms
            &&& result.call_id == call.id
            &&& !r.is_error ==> event == (EventView::ActionExecuted {
                step_id: step,
                action_name: call.action_name,
                call_id: call.id,
                duration_ms: r.duration_ms,
                params_summary: None,
            })
            &&& r.is_error ==> (event matches EventView::ActionFailed {
                step_id,
                action_name,
                call_id,
                error,
                params_summary,
            } && step_id == step && action_name == call.action_name && call_id == call.id
                && params_summary is None && forall|t: Seq<char>|
                r.output.get("error"@) == Some(JsonView::Str(t)) ==> error == t)
        }),
{
}

/// An action that could not be run leaves an error result with the reason, in which
/// everything else is that of the call.
pub proof fn failed_runs_tell_the_reason(e: Seq<char>, call: CallView, step: StepId)
    ensures
        ({
            let (result, event) = classified(ExecView::Failed(e), call, step);
            &&& result.is_error
            &&& result.call_id == call.id
            &&& result.action_name == call.action_name
            &&& result.output.get("error"@) == Some(JsonView::Str(e))
            &&& result.duration_ms == 0
            &&& event == (EventView::ActionFailed {
                step_id: step,
                action_name: call.action_name,
                call_id: call.id,
                error: e,
                params_summary: None,
            })
        }),
{
    reveal_with_fuel(field_of, 2);
}

/// A call that is refused leaves an error result of that call: with the name of the
/// action where no lease covers it, and with the reason where policy denied it.
pub proof fn refused_calls_are_answered(call: CallView, step: StepId, reason: Seq<char>)
    ensures
        no_lease_slot(call, step) matches SlotView::Settled(r, e) && r.is_error && r.call_id
            == call.id && r.action_name == call.action_name && r.duration_ms == 0
            && r.output.get("error"@) == Some(
            JsonView::Str("no active lease covers action '"@ + call.action_name + "'"@),
        ) && (e matches EventView::ActionFailed { step_id, action_name, call_id, error, .. }
            && step_id == step && action_name == call.action_name && call_id == call.id && error
            == "no lease for action '"@ + call.action_name + "'"@),
        denied_slot(call, step, reason) matches SlotView::Settled(r, e) && r.is_error && r.call_id
            == call.id && r.action_name == call.action_name && r.duration_ms == 0
            && r.output.get("error"@) == Some(JsonView::Str("denied: "@ + reason)) && (
        e matches EventView::ActionFailed { step_id, action_name, call_id, error, .. } && step_id
            == step && action_name == call.action_name && call_id == call.id && error == reason),
        approval_outcome(call) matches OutcomeView::GatePaused {
            action_name,
            call_id,
            parameters,
            resume_kind,
            resume_output,
            ..
        } && action_name == call.action_name && call_id == call.id && parameters
            == call.parameters && resume_kind == ResumeView::Approval(true) && resume_output is None,
{
    reveal_with_fuel(field_of, 2);
}

proof fn lemma_all_settled(slots: Seq<SlotView>)
    requires
        forall|i: int| 0 <= i < slots.len() ==> (#[trigger] slots[i]) is Settled,
    ensures
        settled_results(slots).len() == slots.len(),
        settled_events(slots).len() == slots.len(),
        forall|i: int|
            0 <= i < slots.len() ==> (#[trigger] settled_results(slots)[i])
                == slots[i]->Settled_0,
        forall|i: int|
            0 <= i < slots.len() ==> (#[trigger] settled_events(slots)[i]) == slots[i]->Settled_1,
    decreases slots.len(),
{
    if slots.len() > 0 {
        let s = slots.drop_last();
        assert forall|i: int| 0 <= i < s.len() implies (#[trigger] s[i]) is Settled by {
            assert(s[i] == slots[i]);
        }
        lemma_all_settled(s);
        assert(slots[slots.len() - 1] is Settled);
        assert forall|i: int| 0 <= i < slots.len() implies (#[trigger] settled_results(slots)[i])
            == slots[i]->Settled_0 by {
            if i < s.len() {
                assert(settled_results(s)[i] == s[i]->Settled_0);
            }
        }
        assert forall|i: int| 0 <= i < slots.len() implies (#[trigger] settled_events(slots)[i])
            == slots[i]->Settled_1 by {
            if i < s.len() {
                assert(settled_events(s)[i] == s[i]->Settled_1);
            }
        }
    }
}

/// A batch whose calls all came to an end gives back what each of them returned, in the
/// order of the calls: of one that ran its output, of one that could not be run the
/// reason. It is interrupted exactly where a gate paused a call, by the first such call.
pub proof fn batch_gives_back_what_was_returned(
    calls: Seq<CallView>,
    ended: Seq<ExecView>,
    slots: Seq<SlotView>,
    step: StepId,
)
    requires
        ended.len() == calls.len(),
        slots.len() == calls.len(),
        forall|i: int|
            0 <= i < calls.len() ==> (#[trigger] slots[i]) == SlotView::Settled(
                classified(ended[i], calls[i], step).0,
                classified(ended[i], calls[i], step).1,
            ),
    ensures
        merged_batch(calls, slots).results.len() == calls.len(),
        merged_batch(calls, slots).events.len() == calls.len(),
        forall|i: int|
            0 <= i < calls.len() ==> (#[trigger] merged_batch(calls, slots).results[i]).call_id
                == calls[i].id,
        forall|i: int|
            0 <= i < calls.len() ==> ((#[trigger] ended[i]) matches ExecView::Done(r) ==> {
                let got = merged_batch(calls, slots).results[i];
                &&& got.output == r.output
                &&& got.action_name == r.action_name
                &&& got.is_error == r.is_error
                &&& got.duration_ms == r.duration_ms
            }),
        forall|i: int|
            0 <= i < calls.len() ==> ((#[trigger] ended[i]) matches ExecView::Failed(e) ==> {
                let got = merged_batch(calls, slots).results[i];
                &&& got.is_error
                &&& got.output.get("error"@) == Some(JsonView::Str(e))
            }),
        merged_batch(calls, slots).need_approval is Some <==> exists|i: int|
            0 <= i < calls.len() && (#[trigger] ended[i]) is Paused,
        forall|i: int|
            0 <= i < calls.len() && (forall|j: int| 0 <= j < i ==> !((#[trigger] ended[j]) is Paused))
                ==> ((#[trigger] ended[i]) matches ExecView::Paused(p) ==> merged_batch(
                calls,
                slots,
            ).need_approval == Some(
                OutcomeView::GatePaused {
                    gate_name: p.gate_name,
                    action_name: p.action_name,
                    call_id: p.call_id,
                    parameters: calls[i].parameters,
                    resume_kind: p.resume_kind,
                    resume_output: Some(or_null(p.resume_output)),
                },
            )),
{
    let all = merged_batch(calls, slots);
    assert forall|i: int| 0 <= i < slots.len() implies (#[trigger] slots[i]) is Settled by {}
    lemma_all_settled(slots);
    assert forall|i: int| 0 <= i < calls.len() implies (#[trigger] all.results[i]) == classified(
        ended[i],
        calls[i],
        step,
    ).0 by {
        assert(slots[i] is Settled);
    }
    assert forall|i: int| 0 <= i < calls.len() implies is_pause(#[trigger] slots[i]) == (
    ended[i] is Paused) by {
        if let ExecView::Paused(p) = ended[i] {
            pause_reaches_the_outcome(p, calls[i], step);
        }
    }
    assert forall|i: int| 0 <= i < calls.len() implies ((#[trigger] ended[i]) matches ExecView::Failed(
        e,
    ) ==> {
        let got = all.results[i];
        &&& got.is_error
        &&& got.output.get("error"@) == Some(JsonView::Str(e))
    }) by {
        if let ExecView::Failed(e) = ended[i] {
            failed_runs_tell_the_reason(e, calls[i], step);
        }
    }
    lemma_first_pause_is_one(slots);
    let k = first_pause(slots);
    if k < slots.len() {
        assert(is_pause(slots[k]));
        assert(ended[k] is Paused);
    }
    assert forall|i: int| 0 <= i < calls.len() && ended[i] is Paused implies k < slots.len() by {
        assert(is_pause(slots[i]));
    }
    assert forall|i: int|
        0 <= i < calls.len() && (forall|j: int| 0 <= j < i ==> !((#[trigger] ended[j]) is Paused))
        implies ((#[trigger] ended[i]) matches ExecView::Paused(p) ==> all.need_approval == Some(
        OutcomeView::GatePaused {
            gate_name: p.gate_name,
            action_name: p.action_name,
            call_id: p.call_id,
            parameters: calls[i].parameters,
            resume_kind: p.resume_kind,
            resume_output: Some(or_null(p.resume_output)),
        },
    )) by {
        if let ExecView::Paused(p) = ended[i] {
            assert(is_pause(slots[i]));
            if k < i {
                assert(!(ended[k] is Paused));
            }
            if i < k {
                assert(!is_pause(slots[i]));
            }
            pause_reaches_the_outcome(p, calls[i], step);
        }
    }
}

proof fn lemma_first_pause_is_one(slots: Seq<SlotView>)
    ensures
        0 <= first_pause(slots) <= slots.len(),
        first_pause(slots) < slots.len() ==> is_pause(slots[first_pause(slots)]),
        forall|j: int| 0 <= j < first_pause(slots) ==> !is_pause(#[trigger] slots[j]),
    decreases slots.len(),
{
    if slots.len() > 0 && !is_pause(slots.first()) {
        let r = slots.drop_first();
        lemma_first_pause_is_one(r);
        assert forall|j: int| 0 <= j < first_pause(slots) implies !is_pause(#[trigger] slots[j]) by {
            if j > 0 {
                assert(slots[j] == r[j - 1]);
            }
        }
    }
}

/// The calls that were refused before a batch was interrupted are all reported, and
/// nothing else is: every refusal is among the results, and every result is that of a
/// refusal.
pub proof fn refusals_are_reported(slots: Seq<SlotView>)
    ensures
        forall|i: int|
            0 <= i < slots.len() ==> ((#[trigger] slots[i]) matches SlotView::Settled(r, e)
                ==> settled_results(slots).contains(r) && settled_events(slots).contains(e)),
        forall|r: ResultView| #[trigger]
            settled_results(slots).contains(r) ==> exists|i: int|
                0 <= i < slots.len() && (#[trigger] slots[i]) is Settled && slots[i]->Settled_0
                    == r,
        settled_results(slots).len() == settled_events(slots).len(),
    decreases slots.len(),
{
    if slots.len() > 0 {
        let s = slots.drop_last();
        refusals_are_reported(s);
        let now = settled_results(slots);
        let events = settled_events(slots);
        let old_results = settled_results(s);
        let old_events = settled_events(s);
        assert forall|i: int| 0 <= i < slots.len() implies ((
        #[trigger] slots[i]) matches SlotView::Settled(r, e) ==> now.contains(r)
            && events.contains(e)) by {
            if let SlotView::Settled(r, e) = slots[i] {
                if i < s.len() {
                    assert(s[i] == slots[i]);
                    let a = choose|a: int| 0 <= a < old_results.len() && old_results[a] == r;
                    let b = choose|b: int| 0 <= b < old_events.len() && old_events[b] == e;
                    assert(now[a] == r && events[b] == e);
                } else {
                    assert(now[now.len() - 1] == r && events[events.len() - 1] == e);
                }
            }
        }
        assert forall|r: ResultView| #[trigger] now.contains(r) implies exists|i: int|
            0 <= i < slots.len() && (#[trigger] slots[i]) is Settled && slots[i]->Settled_0 == r by {
            let a = choose|a: int| 0 <= a < now.len() && now[a] == r;
            if a < old_results.len() {
                assert(old_results[a] == r);
                assert(old_results.contains(r));
                let i = choose|i: int|
                    0 <= i < s.len() && (#[trigger] s[i]) is Settled && s[i]->Settled_0 == r;
                assert(slots[i] == s[i]);
            } else {
                assert(slots[slots.len() - 1] is Settled);
            }
        }
    }
}

/// The use that a call took is given back exactly where a gate paused the call, to the
/// lease that it was taken of: no other lease changes, and no other end changes any.
pub proof fn uses_are_given_back_for_pauses(s: Seq<LeaseView>, id: LeaseId, x: ExecView)
    ensures
        !(x is Paused) ==> after_settling(s, id, x) == s,
        after_settling(s, id, x).len() == s.len(),
        forall|i: int|
            0 <= i < s.len() && s[i].id != id ==> (#[trigger] after_settling(s, id, x)[i]) == s[i],
        forall|i: int|
            0 <= i < s.len() && s[i].id == id && x is Paused && (forall|j: int|
                0 <= j < i ==> (#[trigger] s[j]).id != id) ==> (#[trigger] after_settling(
                s,
                id,
                x,
            )[i]) == s[i].refunded(),
{
    lemma_first_where(s, |l: LeaseView| l.id == id);
    let p = position(s, id);
    assert forall|i: int|
        0 <= i < s.len() && s[i].id == id && x is Paused && (forall|j: int|
            0 <= j < i ==> (#[trigger] s[j]).id != id) implies (#[trigger] after_settling(
        s,
        id,
        x,
    )[i]) == s[i].refunded() by {
        if p < i {
            assert(s[p].id != id);
        }
    }
}

/// A batch goes on to the first call that a lease covers: none before it is covered.
pub proof fn uncovered_calls_are_refused(
    calls: Seq<CallView>,
    thread: ThreadId,
    s: Seq<LeaseView>,
    now: i128,
    i: int,
)
    requires
        0 <= i <= calls.len(),
    ensures
        i <= next_covered(calls, thread, s, now, i) <= calls.len(),
        forall|j: int|
            i <= j < next_covered(calls, thread, s, now, i) ==> serving(
                s,
                thread,
                (#[trigger] calls[j]).action_name,
                now,
            ) >= s.len(),
        next_covered(calls, thread, s, now, i) < calls.len() ==> serving(
            s,
            thread,
            calls[next_covered(calls, thread, s, now, i)].action_name,
            now,
        ) < s.len(),
    decreases calls.len() - i,
{
    if i < calls.len() && !is_covered(calls[i], thread, s, now) {
        uncovered_calls_are_refused(calls, thread, s, now, i + 1);
    }
}

} // verus!

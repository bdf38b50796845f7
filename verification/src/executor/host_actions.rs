//! Actions that the orchestrator calls: one at a time, or several at once.
//!
//! A call needs a lease and must pass policy; then a use of the lease is taken and
//! the action runs. What comes of it is told to the orchestrator as JSON, and an
//! event on the thread records it. A call that a gate pauses gives its use back.

use vstd::prelude::*;

use crate::capability::lease::{
    first_where, lemma_is_first_where, no_lease_for, position, serves_exactly, serving,
    LeaseManager,
};
use crate::capability::policy::{decision, PolicyDecision, PolicyEngine, PolicyView};
use crate::executor::calls::{
    approval_event, error_json, error_object, event_of_approval, event_of_failure, event_of_pause,
    event_of_run, failed_event, object, or_null, paused_event, ran_event, value_or_null,
    ExecOutcome, ExecView, PauseView,
};
use crate::executor::interchange::or_empty;
use crate::executor::structured::after_settling;
use crate::executor::value::{
    arg_text, extract_string_arg, extract_string_kwarg, kwarg_text, monty_to_json, py_json, raise,
    ExcKind, HostReply, PyKey, PyValue, ReplyView,
};
use crate::gate::{resume_json, ResumeKind, ResumeView};
use crate::json::{
    field_of, fields, json_str, lemma_array_view, values, Json, JsonView,
};
use crate::text::{clone_opt, opt_text};
use crate::types::capability::{ActionDef, CapabilityLease, LeaseView, PolicyRule};
use crate::types::error::{error_text, ErrorView};
use crate::types::event::{EventKind, EventView};
use crate::types::ids::{LeaseId, StepId, ThreadId};
use crate::types::message::{ActionResult, ResultView};
use crate::types::thread::{Thread, ThreadView};

verus! {

/// A call of an action by the orchestrator.
#[derive(Debug, PartialEq, Eq)]
pub struct ActionRequest {
    pub name: String,
    pub params: Json,
    pub call_id: String,
    /// A summary of the parameters for people.
    pub summary: Option<String>,
}

/// What a call holds.
pub struct RequestView {
    pub name: Seq<char>,
    pub params: JsonView,
    pub call_id: Seq<char>,
    pub summary: Option<Seq<char>>,
}

impl View for ActionRequest {
    type V = RequestView;

    open spec fn view(&self) -> RequestView {
        RequestView {
            name: self.name@,
            params: self.params@,
            call_id: self.call_id@,
            summary: opt_text(self.summary),
        }
    }
}

/// What a list of calls holds.
pub open spec fn request_views(v: Seq<ActionRequest>) -> Seq<RequestView> {
    v.map_values(|q: ActionRequest| q@)
}

/// An object without fields.
pub open spec fn empty_object() -> JsonView {
    JsonView::Object(Seq::empty())
}

/// Makes an object without fields.
pub fn new_object() -> (r: Json)
    ensures
        r@ == empty_object(),
{
    let none: Vec<(String, Json)> = Vec::new();
    assert(fields(none@) =~= Seq::<(Seq<char>, JsonView)>::empty());
    object(none)
}

/// Reads the arguments of a single call: its name, by position or keyword; its
/// parameters, by position; and its identity, by keyword. A name must be given.
pub fn parse_action_request(
    args: &Vec<PyValue>,
    kwargs: &Vec<(PyKey, PyValue)>,
    summary: Option<String>,
) -> (r: Result<ActionRequest, HostReply>)
    ensures
        match r {
            Ok(q) => arg_text(args@, kwargs@, "name"@, 0) == Some(q@.name) && q@ == (RequestView {
                name: q@.name,
                params: if args@.len() > 1 {
                    py_json(args@[1])
                } else {
                    empty_object()
                },
                call_id: or_empty(kwarg_text(kwargs@, "call_id"@)),
                summary: opt_text(summary),
            }),
            Err(reply) => arg_text(args@, kwargs@, "name"@, 0) is None && reply@ == (
            ReplyView::Raise {
                kind: ExcKind::TypeError,
                message: "__execute_action__ requires a name argument"@,
            }),
        },
{
    let name = match extract_string_arg(args, kwargs, "name", 0) {
        Some(n) => n,
        None => {
            return Err(
                raise(ExcKind::TypeError, "__execute_action__ requires a name argument"),
            );
        },
    };
    let params = if args.len() > 1 {
        monty_to_json(&args[1])
    } else {
        new_object()
    };
    let call_id = match extract_string_kwarg(kwargs, "call_id") {
        Some(c) => c,
        None => String::new(),
    };
    Ok(ActionRequest { name, params, call_id, summary })
}

/// The call that an entry of a list writes.
pub open spec fn request_of(j: JsonView) -> RequestView {
    RequestView {
        name: or_empty(j.str_field("name"@)),
        params: match j.get("params"@) {
            Some(p) => p,
            None => empty_object(),
        },
        call_id: or_empty(j.str_field("call_id"@)),
        summary: None,
    }
}

/// The calls that a list writes.
pub open spec fn requests_of(v: Seq<JsonView>) -> Seq<RequestView> {
    v.map_values(|j: JsonView| request_of(j))
}

/// The list that the argument of a call of several actions is.
pub open spec fn call_list_arg(args: Seq<PyValue>) -> JsonView {
    if args.len() > 0 {
        py_json(args[0])
    } else {
        JsonView::Array(Seq::empty())
    }
}

fn json_to_request(j: &Json) -> (r: ActionRequest)
    ensures
        r@ == request_of(j@),
{
    let name = match j.str_field("name") {
        Some(s) => s.to_owned(),
        None => String::new(),
    };
    let params = match j.get("params") {
        Some(p) => p.clone(),
        None => new_object(),
    };
    let call_id = match j.str_field("call_id") {
        Some(s) => s.to_owned(),
        None => String::new(),
    };
    ActionRequest { name, params, call_id, summary: None }
}

/// Reads the calls of several actions: a list of objects. Their summaries are not
/// known yet.
pub fn parse_action_requests(args: &Vec<PyValue>) -> (r: Result<Vec<ActionRequest>, HostReply>)
    ensures
        match r {
            Ok(v) => call_list_arg(args@) matches JsonView::Array(a) && request_views(v@)
                == requests_of(a),
            Err(reply) => !(call_list_arg(args@) is Array) && reply@ == (ReplyView::Raise {
                kind: ExcKind::TypeError,
                message: "__execute_actions_parallel__ requires a list of call dicts"@,
            }),
        },
{
    let list = if args.len() > 0 {
        monty_to_json(&args[0])
    } else {
        let none: Vec<Json> = Vec::new();
        proof {
            lemma_array_view(none);
            assert(values(none@) =~= Seq::<JsonView>::empty());
        }
        Json::Array(none)
    };
    match list.as_array() {
        Some(items) => {
            let ghost all = requests_of(values(items@));
            let mut out: Vec<ActionRequest> = Vec::new();
            let mut i: usize = 0;
            assert(request_views(out@) =~= all.take(0));
            while i < items.len()
                invariant
                    i <= items@.len(),
                    all == requests_of(values(items@)),
                    request_views(out@) == all.take(i as int),
                decreases items@.len() - i,
            {
                let ghost before = out@;
                out.push(json_to_request(&items[i]));
                assert(request_views(out@) =~= request_views(before).push(all[i as int]));
                assert(all.take(i + 1) =~= all.take(i as int).push(all[i as int]));
                i = i + 1;
            }
            assert(all.take(all.len() as int) =~= all);
            Ok(out)
        },
        None => Err(
            raise(
                ExcKind::TypeError,
                "__execute_actions_parallel__ requires a list of call dicts",
            ),
        ),
    }
}

/// What came of a call: what the orchestrator is told, and the event on record.
#[derive(Debug, PartialEq, Eq)]
pub struct Report {
    pub result: Json,
    pub event: EventKind,
}

/// What a report holds.
pub struct ReportView {
    pub result: JsonView,
    pub event: EventView,
}

impl View for Report {
    type V = ReportView;

    open spec fn view(&self) -> ReportView {
        ReportView { result: self.result@, event: self.event@ }
    }
}

/// What the orchestrator is told of a call that failed.
pub open spec fn failure_json(error: Seq<char>) -> JsonView {
    JsonView::Object(
        seq![("is_error"@, JsonView::Bool(true)), ("output"@, error_json(error))],
    )
}

fn failure_object(error: &str) -> (r: Json)
    ensures
        r@ == failure_json(error@),
{
    let mut v: Vec<(String, Json)> = Vec::new();
    v.push(("is_error".to_owned(), Json::Bool(true)));
    v.push(("output".to_owned(), error_object(error)));
    assert(fields(v@) =~= failure_json(error@)->Object_0);
    object(v)
}

/// What the orchestrator is told of a call that policy put to approval.
pub open spec fn approval_json(q: RequestView) -> JsonView {
    JsonView::Object(
        seq![
            ("action_name"@, JsonView::Str(q.name)),
            ("call_id"@, JsonView::Str(q.call_id)),
            ("gate_name"@, JsonView::Str("approval"@)),
            ("gate_paused"@, JsonView::Bool(true)),
            ("parameters"@, q.params),
            ("resume_kind"@, resume_json(ResumeView::Approval(true))),
        ],
    )
}

fn approval_object(q: &ActionRequest) -> (r: Json)
    ensures
        r@ == approval_json(q@),
{
    let kind = ResumeKind::Approval { allow_always: true };
    let mut v: Vec<(String, Json)> = Vec::new();
    v.push(("action_name".to_owned(), json_str(q.name.as_str())));
    v.push(("call_id".to_owned(), json_str(q.call_id.as_str())));
    v.push(("gate_name".to_owned(), json_str("approval")));
    v.push(("gate_paused".to_owned(), Json::Bool(true)));
    v.push(("parameters".to_owned(), q.params.clone()));
    v.push(("resume_kind".to_owned(), kind.to_json()));
    assert(fields(v@) =~= approval_json(q@)->Object_0);
    object(v)
}

/// What the orchestrator is told of a call that a gate paused.
pub open spec fn pause_json(p: PauseView, name: Seq<char>, call_id: Seq<char>) -> JsonView {
    JsonView::Object(
        seq![
            ("action_name"@, JsonView::Str(name)),
            ("call_id"@, JsonView::Str(call_id)),
            ("gate_name"@, JsonView::Str(p.gate_name)),
            ("gate_paused"@, JsonView::Bool(true)),
            ("parameters"@, p.parameters),
            ("resume_kind"@, resume_json(p.resume_kind)),
            ("resume_output"@, or_null(p.resume_output)),
        ],
    )
}

/// What the orchestrator is told of an action that ran.
pub open spec fn ran_json(r: ResultView) -> JsonView {
    JsonView::Object(
        seq![
            ("action_name"@, JsonView::Str(r.action_name)),
            ("duration_ms"@, JsonView::Uint(r.duration_ms)),
            ("is_error"@, JsonView::Bool(r.is_error)),
            ("output"@, r.output),
        ],
    )
}

/// An action that ran, as the orchestrator is told of it.
pub fn ran_object(r: &ActionResult) -> (j: Json)
    ensures
        j@ == ran_json(r@),
{
    let mut v: Vec<(String, Json)> = Vec::new();
    v.push(("action_name".to_owned(), json_str(r.action_name.as_str())));
    v.push(("duration_ms".to_owned(), Json::Uint(r.duration_ms)));
    v.push(("is_error".to_owned(), Json::Bool(r.is_error)));
    v.push(("output".to_owned(), r.output.clone()));
    assert(fields(v@) =~= ran_json(r@)->Object_0);
    object(v)
}

/// The report on a call that failed before it ran.
pub open spec fn failed_report(q: RequestView, step: StepId, error: Seq<char>) -> ReportView {
    ReportView {
        result: failure_json(error),
        event: failed_event(step, q.name, q.call_id, error, None),
    }
}

fn report_failure(q: &ActionRequest, step: StepId, error: String) -> (r: Report)
    ensures
        r@ == failed_report(q@, step, error@),
{
    let result = failure_object(error.as_str());
    let event = event_of_failure(step, q.name.as_str(), q.call_id.as_str(), error, None);
    Report { result, event }
}

/// The report on a call that no lease covers.
pub open spec fn uncovered_report(q: RequestView, step: StepId) -> ReportView {
    failed_report(q, step, "No lease for action '"@ + q.name + "'"@)
}

/// Looks for the lease that a call is made under; where there is none, the call
/// fails.
pub fn find_action_lease(
    q: &ActionRequest,
    thread_id: ThreadId,
    leases: &LeaseManager,
    step: StepId,
    now: i128,
) -> (r: Result<CapabilityLease, Report>)
    ensures
        ({
            let p = serving(leases@, thread_id, q@.name, now);
            match r {
                Ok(lease) => p < leases@.len() && lease@ == leases@[p],
                Err(report) => p == leases@.len() && report@ == uncovered_report(q@, step),
            }
        }),
{
    match leases.find_lease_for_action(thread_id, q.name.as_str(), now) {
        Some(lease) => Ok(lease),
        None => {
            let mut error = "No lease for action '".to_owned();
            error.append(q.name.as_str());
            error.append("'");
            Err(report_failure(q, step, error))
        },
    }
}

/// What the checks of a call came to.
#[derive(Debug, PartialEq, Eq)]
pub enum Admission {
    /// The action may run: a use of this lease was taken for it.
    Run(CapabilityLease),
    /// The call failed.
    Fail(Report),
    /// The call needs approval.
    Pause(Report),
}

/// What an admission holds.
pub enum AdmissionView {
    Run(LeaseView),
    Fail(ReportView),
    Pause(ReportView),
}

impl View for Admission {
    type V = AdmissionView;

    open spec fn view(&self) -> AdmissionView {
        match self {
            Admission::Run(l) => AdmissionView::Run(l@),
            Admission::Fail(r) => AdmissionView::Fail(r@),
            Admission::Pause(r) => AdmissionView::Pause(r@),
        }
    }
}

/// The decision of policy on a call; a call of an action without a definition is
/// not put to policy.
pub open spec fn policy_on(
    policy: PolicyEngine,
    action: Option<&ActionDef>,
    lease: LeaseView,
    rules: Seq<PolicyRule>,
    now: i128,
) -> PolicyView {
    match action {
        Some(a) => decision(
            policy.global_rules(),
            policy.denied(),
            a@,
            lease,
            rules,
            now,
        ),
        None => PolicyView::Allow,
    }
}

/// The error of a call whose lease was gone when its use was to be taken.
pub open spec fn consumption_error(name: Seq<char>) -> Seq<char> {
    "lease consumption failed for action '"@ + name + "': "@ + error_text(
        ErrorView::LeaseNotFound(no_lease_for(name)),
    )
}

/// Where a call stands after its checks, with these leases.
pub open spec fn admitted(
    q: RequestView,
    thread_id: ThreadId,
    d: PolicyView,
    s: Seq<LeaseView>,
    step: StepId,
    now: i128,
) -> AdmissionView {
    match d {
        PolicyView::Deny(reason) => AdmissionView::Fail(
            ReportView {
                result: failure_json("Denied: "@ + reason),
                event: failed_event(step, q.name, q.call_id, reason, None),
            },
        ),
        PolicyView::RequireApproval(_) => AdmissionView::Pause(
            ReportView {
                result: approval_json(q),
                event: approval_event(q.name, q.call_id, q.params, q.summary),
            },
        ),
        PolicyView::Allow => {
            let p = first_where(s, |l: LeaseView| serves_exactly(l, thread_id, q.name, now));
            if p < s.len() {
                AdmissionView::Run(s[p].consumed())
            } else {
                AdmissionView::Fail(failed_report(q, step, consumption_error(q.name)))
            }
        },
    }
}

/// The leases after the checks of a call: only a call that may run takes a use.
pub open spec fn after_admission(
    q: RequestView,
    thread_id: ThreadId,
    d: PolicyView,
    s: Seq<LeaseView>,
    now: i128,
) -> Seq<LeaseView> {
    let p = first_where(s, |l: LeaseView| serves_exactly(l, thread_id, q.name, now));
    if d is Allow && p < s.len() {
        s.update(p, s[p].consumed())
    } else {
        s
    }
}

/// Checks a call under the lease that covers it, and takes a use where it may run.
pub fn admit_action(
    q: &ActionRequest,
    thread_id: ThreadId,
    lease: &CapabilityLease,
    action: Option<&ActionDef>,
    leases: &mut LeaseManager,
    policy: &PolicyEngine,
    step: StepId,
    now: i128,
) -> (r: Admission)
    requires
        old(leases).wf(),
    ensures
        final(leases).wf(),
        ({
            let d = policy_on(*policy, action, lease@, Seq::empty(), now);
            &&& r@ == admitted(q@, thread_id, d, old(leases)@, step, now)
            &&& final(leases)@ == after_admission(q@, thread_id, d, old(leases)@, now)
        }),
{
    if let Some(a) = action {
        let no_rules: Vec<PolicyRule> = Vec::new();
        assert(no_rules@ =~= Seq::<PolicyRule>::empty());
        match policy.evaluate(a, lease, &no_rules, now) {
            PolicyDecision::Deny { reason } => {
                let mut shown = "Denied: ".to_owned();
                shown.append(reason.as_str());
                let result = failure_object(shown.as_str());
                let event = event_of_failure(
                    step,
                    q.name.as_str(),
                    q.call_id.as_str(),
                    reason,
                    None,
                );
                return Admission::Fail(Report { result, event });
            },
            PolicyDecision::RequireApproval { .. } => {
                let result = approval_object(q);
                let event = event_of_approval(
                    q.name.as_str(),
                    q.call_id.as_str(),
                    &q.params,
                    clone_opt(&q.summary),
                );
                return Admission::Pause(Report { result, event });
            },
            PolicyDecision::Allow => {},
        }
    }
    match leases.find_and_consume(thread_id, q.name.as_str(), now) {
        Ok(taken) => Admission::Run(taken),
        Err(e) => {
            let mut error = "lease consumption failed for action '".to_owned();
            error.append(q.name.as_str());
            error.append("': ");
            error.append(e.message().as_str());
            Admission::Fail(report_failure(q, step, error))
        },
    }
}

/// The report on a call whose execution ended.
pub open spec fn ended_report(x: ExecView, q: RequestView, step: StepId) -> ReportView {
    match x {
        ExecView::Done(r) => ReportView {
            result: ran_json(r),
            event: ran_event(r, step, q.name, q.call_id, q.summary),
        },
        ExecView::Paused(p) => ReportView {
            result: pause_json(p, q.name, q.call_id),
            event: paused_event(p, q.name, q.call_id, p.parameters, p.params_summary),
        },
        ExecView::Failed(e) => ReportView {
            result: failure_json(e),
            event: failed_event(step, q.name, q.call_id, e, q.summary),
        },
    }
}

/// Reports on a call whose execution ended.
pub fn execute_single_action(outcome: ExecOutcome, q: &ActionRequest, step: StepId) -> (r: Report)
    ensures
        r@ == ended_report(outcome@, q@, step),
{
    match outcome {
        ExecOutcome::Done(result) => {
            let event = event_of_run(
                &result,
                step,
                q.name.as_str(),
                q.call_id.as_str(),
                clone_opt(&q.summary),
            );
            Report { result: ran_object(&result), event }
        },
        ExecOutcome::Paused(p) => {
            let mut v: Vec<(String, Json)> = Vec::new();
            v.push(("action_name".to_owned(), json_str(q.name.as_str())));
            v.push(("call_id".to_owned(), json_str(q.call_id.as_str())));
            v.push(("gate_name".to_owned(), json_str(p.gate_name.as_str())));
            v.push(("gate_paused".to_owned(), Json::Bool(true)));
            v.push(("parameters".to_owned(), p.parameters.clone()));
            v.push(("resume_kind".to_owned(), p.resume_kind.to_json()));
            v.push(("resume_output".to_owned(), value_or_null(&p.resume_output)));
            assert(fields(v@) =~= pause_json(p@, q@.name, q@.call_id)->Object_0);
            let event = event_of_pause(
                &p,
                q.name.as_str(),
                q.call_id.as_str(),
                &p.parameters,
                clone_opt(&p.params_summary),
            );
            Report { result: object(v), event }
        },
        ExecOutcome::Failed(e) => {
            let result = failure_object(e.as_str());
            let event = event_of_failure(
                step,
                q.name.as_str(),
                q.call_id.as_str(),
                e,
                clone_opt(&q.summary),
            );
            Report { result, event }
        },
    }
}

/// Whether what the orchestrator is told speaks of a paused call, whose use is
/// given back.
pub fn interrupted_result_needs_refund(result: &Json) -> (r: bool)
    ensures
        r == (result@.bool_field("gate_paused"@) == Some(true)),
{
    match result.bool_field("gate_paused") {
        Some(b) => b,
        None => false,
    }
}

/// Which reports give a use back: those on calls that a gate paused. An action that
/// ran cannot ask for its use back, nor can one that failed.
pub proof fn only_pauses_are_refunded(x: ExecView, q: RequestView, step: StepId)
    ensures
        (ended_report(x, q, step).result.bool_field("gate_paused"@) == Some(true)) == (x is Paused),
{
    reveal_with_fuel(field_of, 8);
    reveal_strlit("action_name");
    reveal_strlit("call_id");
    reveal_strlit("duration_ms");
    reveal_strlit("is_error");
    reveal_strlit("output");
    reveal_strlit("gate_name");
    reveal_strlit("gate_paused");
    assert("action_name"@[0] != "gate_paused"@[0]);
    assert("call_id"@[0] != "gate_paused"@[0]);
    assert("duration_ms"@[0] != "gate_paused"@[0]);
    assert("is_error"@[0] != "gate_paused"@[0]);
    assert("output"@[0] != "gate_paused"@[0]);
    assert("gate_name"@.len() != "gate_paused"@.len());
    let f = ended_report(x, q, step).result->Object_0;
    let f1 = f.drop_first();
    let f2 = f1.drop_first();
    let f3 = f2.drop_first();
    if x is Paused {
        assert(f1[0] == f[1] && f2[0] == f[2] && f3[0] == f[3]);
    } else if x is Done {
        assert(f1[0] == f[1] && f2[0] == f[2] && f3[0] == f[3]);
        assert(f3.drop_first() =~= Seq::empty());
    } else {
        assert(f1[0] == f[1]);
        assert(f2 =~= Seq::empty());
    }
}

/// Takes the end of an execution into account: a use is given back where a gate
/// paused the call.
pub fn settle_action(
    outcome: ExecOutcome,
    q: &ActionRequest,
    lease_id: LeaseId,
    leases: &mut LeaseManager,
    step: StepId,
) -> (r: Report)
    requires
        old(leases).wf(),
    ensures
        final(leases).wf(),
        r@ == ended_report(outcome@, q@, step),
        final(leases)@ == after_settling(old(leases)@, lease_id, outcome@),
{
    let ghost x = outcome@;
    let report = execute_single_action(outcome, q, step);
    proof {
        only_pauses_are_refunded(x, q@, step);
    }
    if interrupted_result_needs_refund(&report.result) {
        let _ = leases.refund_use(lease_id);
    }
    report
}

/// Puts a report on record and tells the orchestrator.
pub fn handle_execute_action(thread: &mut Thread, report: Report, now: i128) -> (r: HostReply)
    ensures
        final(thread)@ == old(thread)@.with_event(report@.event, now),
        r@ == ReplyView::Return(report@.result),
{
    thread.add_event(report.event, now);
    HostReply::Return(report.result)
}

/// Where a call of several stands.
#[derive(Debug, PartialEq, Eq)]
pub enum ParallelSlot {
    /// It passed the checks, and a use of this lease was taken for it.
    Runnable(CapabilityLease),
    /// What came of it is known.
    Reported(Report),
}

/// What a slot holds.
pub enum ParallelView {
    Runnable(LeaseView),
    Reported(ReportView),
}

impl View for ParallelSlot {
    type V = ParallelView;

    open spec fn view(&self) -> ParallelView {
        match self {
            ParallelSlot::Runnable(l) => ParallelView::Runnable(l@),
            ParallelSlot::Reported(r) => ParallelView::Reported(r@),
        }
    }
}

/// What a list of slots holds.
pub open spec fn parallel_views(v: Seq<ParallelSlot>) -> Seq<ParallelView> {
    v.map_values(|s: ParallelSlot| s@)
}

/// What the orchestrator is told of each call, in order: a call whose execution was
/// lost is told as `lost`.
pub open spec fn told_results(slots: Seq<ParallelView>, lost: JsonView) -> Seq<JsonView> {
    slots.map_values(
        |s: ParallelView|
            match s {
                ParallelView::Reported(r) => r.result,
                ParallelView::Runnable(_) => lost,
            },
    )
}

/// The events of the calls of which is known what came of them, in order.
pub open spec fn told_events(slots: Seq<ParallelView>) -> Seq<EventView>
    decreases slots.len(),
{
    if slots.len() == 0 {
        Seq::empty()
    } else {
        match slots.last() {
            ParallelView::Reported(r) => told_events(slots.drop_last()).push(r.event),
            ParallelView::Runnable(_) => told_events(slots.drop_last()),
        }
    }
}

fn tell_all(thread: &mut Thread, slots: Vec<ParallelSlot>, lost: &Json, now: i128) -> (r: Vec<
    Json,
>)
    ensures
        final(thread)@ == old(thread)@.with_events(told_events(parallel_views(slots@)), now),
        values(r@) == told_results(parallel_views(slots@), lost@),
{
    let ghost all = parallel_views(slots@);
    let ghost told = told_results(all, lost@);
    let ghost start = thread@;
    let total = slots.len();
    let mut rest = slots;
    let mut out: Vec<Json> = Vec::new();
    let mut i: usize = 0;
    proof {
        assert(all.take(0) =~= Seq::<ParallelView>::empty());
        assert(values(out@) =~= told.take(0));
        assert(all.skip(0) =~= all);
    }
    while i < total
        invariant
            i <= total,
            total == all.len(),
            told == told_results(all, lost@),
            parallel_views(rest@) == all.skip(i as int),
            values(out@) == told.take(i as int),
            thread@ == start.with_events(told_events(all.take(i as int)), now),
        decreases total - i,
    {
        let ghost before = rest@;
        let ghost ob = out@;
        proof {
            assert(parallel_views(before).len() == before.len());
            assert(parallel_views(before)[0] == all[i as int]);
            assert(all.take(i + 1).drop_last() =~= all.take(i as int));
            assert(all.take(i + 1).last() == all[i as int]);
            assert(told.take(i + 1) =~= told.take(i as int).push(told[i as int]));
        }
        let slot = rest.remove(0);
        proof {
            assert(parallel_views(rest@) =~= parallel_views(before).skip(1));
            assert(all.skip(i as int).skip(1) =~= all.skip(i + 1));
        }
        match slot {
            ParallelSlot::Reported(report) => {
                let ghost ev = report@.event;
                proof {
                    let es = told_events(all.take(i as int)).push(ev);
                    assert(es.drop_last() =~= told_events(all.take(i as int)));
                }
                thread.add_event(report.event, now);
                out.push(report.result);
            },
            ParallelSlot::Runnable(_) => {
                out.push(lost.clone());
            },
        }
        assert(values(out@) =~= values(ob).push(told[i as int]));
        i = i + 1;
    }
    proof {
        assert(all.take(all.len() as int) =~= all);
        assert(told.take(told.len() as int) =~= told);
    }
    out
}

/// Ends a call of several actions at one that needs approval: what came of the
/// calls before it is told, with nothing of those that were to run, and the request
/// for approval after them. None of the actions runs.
pub fn interrupt_parallel(
    thread: &mut Thread,
    slots: Vec<ParallelSlot>,
    pause: Report,
    now: i128,
) -> (r: HostReply)
    ensures
        final(thread)@ == old(thread)@.with_events(
            told_events(parallel_views(slots@)),
            now,
        ).with_event(pause@.event, now),
        r@ == ReplyView::Return(
            JsonView::Array(
                told_results(parallel_views(slots@), JsonView::Null).push(pause@.result),
            ),
        ),
{
    let mut out = tell_all(thread, slots, &Json::Null, now);
    thread.add_event(pause.event, now);
    let ghost before = out@;
    let ghost v = pause.result@;
    out.push(pause.result);
    proof {
        lemma_array_view(out);
        assert(values(out@) =~= values(before).push(v));
    }
    HostReply::Return(Json::Array(out))
}

/// What the orchestrator is told of a call whose execution was lost.
pub open spec fn lost_json() -> JsonView {
    failure_json("execution slot empty"@)
}

/// Ends a call of several actions after they ran: what came of each is told in the
/// order of the calls, and the events are put on record in that order. A call of no
/// action leaves the thread as it was.
pub fn handle_execute_actions_parallel(
    thread: &mut Thread,
    slots: Vec<ParallelSlot>,
    now: i128,
) -> (r: HostReply)
    ensures
        final(thread)@ == if slots@.len() == 0 {
            old(thread)@
        } else {
            ThreadView {
                updated_at: now,
                ..old(thread)@.with_events(told_events(parallel_views(slots@)), now)
            }
        },
        r@ == ReplyView::Return(
            JsonView::Array(told_results(parallel_views(slots@), lost_json())),
        ),
{
    let lost = failure_object("execution slot empty");
    let empty = slots.len() == 0;
    let out = tell_all(thread, slots, &lost, now);
    if !empty {
        thread.updated_at = now;
    }
    proof {
        lemma_array_view(out);
    }
    HostReply::Return(Json::Array(out))
}

/// There is one answer for each call, in the order of the calls.
pub proof fn one_answer_for_each_call(slots: Seq<ParallelView>, lost: JsonView, i: int)
    requires
        0 <= i < slots.len(),
    ensures
        told_results(slots, lost).len() == slots.len(),
        slots[i] matches ParallelView::Reported(r) ==> told_results(slots, lost)[i] == r.result,
{
}

/// A call that policy put to approval, or denied, takes no use of any lease.
pub proof fn refused_calls_take_no_use(
    q: RequestView,
    thread_id: ThreadId,
    d: PolicyView,
    s: Seq<LeaseView>,
    step: StepId,
    now: i128,
)
    requires
        !(admitted(q, thread_id, d, s, step, now) is Run),
    ensures
        after_admission(q, thread_id, d, s, now) == s,
{
}

/// The index of the next call that a lease covers, at or after `i`, or the length where
/// there is none.
pub open spec fn next_covered(
    calls: Seq<RequestView>,
    thread: ThreadId,
    s: Seq<LeaseView>,
    now: i128,
    i: int,
) -> int
    decreases calls.len() - i,
{
    if i >= calls.len() || serving(s, thread, calls[i].name, now) < s.len() {
        i
    } else {
        next_covered(calls, thread, s, now, i + 1)
    }
}

/// The slots of calls that no lease covers.
pub open spec fn refusals(calls: Seq<RequestView>, step: StepId) -> Seq<ParallelView> {
    calls.map_values(|q: RequestView| ParallelView::Reported(uncovered_report(q, step)))
}

/// Goes on with a call of several actions up to the next one that a lease covers: those
/// before it fail. The lease is returned, for the call that the next slot is for;
/// `None` where no call is left.
pub fn advance_parallel(
    calls: &Vec<ActionRequest>,
    slots: &mut Vec<ParallelSlot>,
    thread_id: ThreadId,
    leases: &LeaseManager,
    step: StepId,
    now: i128,
) -> (r: Option<CapabilityLease>)
    requires
        old(slots)@.len() <= calls@.len(),
    ensures
        ({
            let cs = request_views(calls@);
            let n = old(slots)@.len() as int;
            let k = next_covered(cs, thread_id, leases@, now, n);
            &&& n <= k <= cs.len()
            &&& parallel_views(final(slots)@) == parallel_views(old(slots)@) + refusals(
                cs.subrange(n, k),
                step,
            )
            &&& match r {
                Some(lease) => k < cs.len() && lease@ == leases@[serving(
                    leases@,
                    thread_id,
                    cs[k].name,
                    now,
                )],
                None => k == cs.len(),
            }
        }),
{
    let ghost cs = request_views(calls@);
    let ghost n = slots@.len() as int;
    let ghost start = parallel_views(slots@);
    assert(parallel_views(slots@) =~= start + refusals(cs.subrange(n, n), step));
    while slots.len() < calls.len()
        invariant
            n == old(slots)@.len() <= slots@.len() <= calls@.len(),
            start == parallel_views(old(slots)@),
            cs == request_views(calls@),
            next_covered(cs, thread_id, leases@, now, slots@.len() as int) == next_covered(
                cs,
                thread_id,
                leases@,
                now,
                n,
            ),
            parallel_views(slots@) == start + refusals(
                cs.subrange(n, slots@.len() as int),
                step,
            ),
        decreases calls@.len() - slots@.len(),
    {
        let i = slots.len();
        assert(cs[i as int] == calls@[i as int]@);
        match find_action_lease(&calls[i], thread_id, leases, step, now) {
            Ok(lease) => {
                return Some(lease);
            },
            Err(report) => {
                let ghost before = slots@;
                let slot = ParallelSlot::Reported(report);
                let ghost v = slot@;
                slots.push(slot);
                assert(parallel_views(slots@) =~= parallel_views(before).push(v));
                assert(refusals(cs.subrange(n, i + 1), step) =~= refusals(
                    cs.subrange(n, i as int),
                    step,
                ).push(v));
                assert((start + refusals(cs.subrange(n, i as int), step)).push(v) =~= start
                    + refusals(cs.subrange(n, i + 1), step));
            },
        }
    }
    None
}

/// The orchestrator is told what an action returned as it is: its output, whether it
/// reports an error, which action it was and how long it took. The event says the same.
pub proof fn returned_outputs_are_told(r: ResultView, q: RequestView, step: StepId)
    ensures
        ({
            let x = ended_report(ExecView::Done(r), q, step);
            &&& x.result matches JsonView::Object(f) && f.contains(("output"@, r.output))
                && f.contains(("is_error"@, JsonView::Bool(r.is_error))) && f.contains(
                ("action_name"@, JsonView::Str(r.action_name)),
            ) && f.contains(("duration_ms"@, JsonView::Uint(r.duration_ms)))
            &&& !r.is_error ==> x.event == (EventView::ActionExecuted {
                step_id: step,
                action_name: q.name,
                call_id: q.call_id,
                duration_ms: r.duration_ms,
                params_summary: q.summary,
            })
            &&& r.is_error ==> (x.event matches EventView::ActionFailed {
                step_id,
                action_name,
                call_id,
                params_summary,
                ..
            } && step_id == step && action_name == q.name && call_id == q.call_id && params_summary
                == q.summary)
        }),
{
    let f = ran_json(r)->Object_0;
    assert(f[0].0 == "action_name"@ && f[1].0 == "duration_ms"@ && f[2].0 == "is_error"@ && f[3].0
        == "output"@);
}

/// The orchestrator is told why an action could not be run, and of a call that a gate
/// paused which gate that was, with what and how it resumes.
pub proof fn other_ends_are_told(e: Seq<char>, p: PauseView, q: RequestView, step: StepId)
    ensures
        ({
            let x = ended_report(ExecView::Failed(e), q, step);
            &&& x.result matches JsonView::Object(f) && f.contains(
                ("is_error"@, JsonView::Bool(true)),
            ) && f.contains(("output"@, JsonView::Object(seq![("error"@, JsonView::Str(e))])))
            &&& x.event == (EventView::ActionFailed {
                step_id: step,
                action_name: q.name,
                call_id: q.call_id,
                error: e,
                params_summary: q.summary,
            })
        }),
        ({
            let x = ended_report(ExecView::Paused(p), q, step);
            &&& x.result matches JsonView::Object(f) && f.contains(
                ("gate_paused"@, JsonView::Bool(true)),
            ) && f.contains(("gate_name"@, JsonView::Str(p.gate_name))) && f.contains(
                ("action_name"@, JsonView::Str(q.name)),
            ) && f.contains(("call_id"@, JsonView::Str(q.call_id))) && f.contains(
                ("parameters"@, p.parameters),
            ) && f.contains(("resume_kind"@, resume_json(p.resume_kind)))
            &&& x.event matches EventView::ApprovalRequested {
                action_name,
                call_id,
                parameters,
                gate_name,
                ..
            } && action_name == q.name && call_id == q.call_id && parameters == Some(p.parameters)
                && gate_name == Some(p.gate_name)
        }),
{
    let f = failure_json(e)->Object_0;
    assert(f[0].0 == "is_error"@ && f[1].0 == "output"@);
    let g = pause_json(p, q.name, q.call_id)->Object_0;
    assert(g[0].0 == "action_name"@ && g[1].0 == "call_id"@ && g[2].0 == "gate_name"@ && g[3].0
        == "gate_paused"@ && g[4].0 == "parameters"@ && g[5].0 == "resume_kind"@);
}

/// Of several calls that all ended each is answered with what it returned, in the order of
/// the calls, and each has its event in that order.
pub proof fn calls_are_answered_in_their_order(
    calls: Seq<RequestView>,
    ended: Seq<ExecView>,
    slots: Seq<ParallelView>,
    step: StepId,
    lost: JsonView,
    i: int,
)
    requires
        ended.len() == calls.len(),
        slots.len() == calls.len(),
        forall|k: int|
            0 <= k < calls.len() ==> (#[trigger] slots[k]) == ParallelView::Reported(
                ended_report(ended[k], calls[k], step),
            ),
        0 <= i < calls.len(),
    ensures
        told_results(slots, lost).len() == calls.len(),
        told_events(slots).len() == calls.len(),
        told_events(slots)[i] == ended_report(ended[i], calls[i], step).event,
        ended[i] matches ExecView::Done(r) ==> (told_results(slots, lost)[i] matches JsonView::Object(
            f,
        ) && f.contains(("output"@, r.output)) && f.contains(
            ("is_error"@, JsonView::Bool(r.is_error)),
        )),
        ended[i] matches ExecView::Failed(e) ==> (told_results(
            slots,
            lost,
        )[i] matches JsonView::Object(f) && f.contains(("is_error"@, JsonView::Bool(true)))
            && f.contains(("output"@, JsonView::Object(seq![("error"@, JsonView::Str(e))])))),
{
    assert(slots[i] is Reported);
    if let ExecView::Done(r) = ended[i] {
        returned_outputs_are_told(r, calls[i], step);
    }
    if let ExecView::Failed(e) = ended[i] {
        let f = failure_json(e)->Object_0;
        assert(f[0].0 == "is_error"@ && f[1].0 == "output"@);
    }
    assert forall|k: int| 0 <= k < slots.len() implies (#[trigger] slots[k]) is Reported by {}
    lemma_told_events(slots, i);
}

proof fn lemma_told_events(slots: Seq<ParallelView>, i: int)
    requires
        forall|k: int| 0 <= k < slots.len() ==> (#[trigger] slots[k]) is Reported,
        0 <= i < slots.len(),
    ensures
        told_events(slots).len() == slots.len(),
        told_events(slots)[i] == slots[i]->Reported_0.event,
    decreases slots.len(),
{
    let s = slots.drop_last();
    assert forall|k: int| 0 <= k < s.len() implies (#[trigger] s[k]) is Reported by {
        assert(s[k] == slots[k]);
    }
    assert(slots[slots.len() - 1] is Reported);
    if s.len() > 0 {
        let k = if i < s.len() {
            i
        } else {
            0
        };
        lemma_told_events(s, k);
    } else {
        assert(told_events(s).len() == 0);
    }
}

/// A call whose execution was lost is told as such, in its place.
pub proof fn lost_calls_are_told(slots: Seq<ParallelView>, i: int)
    requires
        0 <= i < slots.len(),
        slots[i] is Runnable,
    ensures
        told_results(slots, lost_json())[i] matches JsonView::Object(f) && f.contains(
            ("is_error"@, JsonView::Bool(true)),
        ),
{
    let f = lost_json()->Object_0;
    assert(f[0].0 == "is_error"@);
}

/// A call that policy allows runs under the first lease of its thread that is valid and
/// grants it by this name, and takes one use of that lease and of no other; where there is
/// none it fails.
pub proof fn allowed_calls_run(
    q: RequestView,
    thread: ThreadId,
    s: Seq<LeaseView>,
    step: StepId,
    now: i128,
    i: int,
)
    requires
        0 <= i <= s.len(),
        i < s.len() ==> s[i].thread_id == thread && s[i].valid(now) && s[i].granted.covers(q.name),
        forall|j: int|
            0 <= j < i ==> (#[trigger] s[j]).thread_id != thread || !s[j].valid(now)
                || !s[j].granted.covers(q.name),
    ensures
        i < s.len() ==> admitted(q, thread, PolicyView::Allow, s, step, now) == AdmissionView::Run(
            s[i].consumed(),
        ),
        i < s.len() ==> after_admission(q, thread, PolicyView::Allow, s, now) == s.update(
            i,
            s[i].consumed(),
        ),
        i == s.len() ==> admitted(q, thread, PolicyView::Allow, s, step, now) is Fail
            && after_admission(q, thread, PolicyView::Allow, s, now) == s,
{
    lemma_is_first_where(s, |l: LeaseView| serves_exactly(l, thread, q.name, now), i);
}

/// A call that policy denies fails with the reason, and one that policy puts to approval
/// waits with what it was made with; neither takes a use.
pub proof fn other_calls_do_not_run(
    q: RequestView,
    thread: ThreadId,
    reason: Seq<char>,
    s: Seq<LeaseView>,
    step: StepId,
    now: i128,
)
    ensures
        admitted(q, thread, PolicyView::Deny(reason), s, step, now) matches AdmissionView::Fail(x)
            && (x.result matches JsonView::Object(f) && f.contains(
            ("is_error"@, JsonView::Bool(true)),
        ) && f.contains(
            ("output"@, JsonView::Object(seq![("error"@, JsonView::Str("Denied: "@ + reason))])),
        )) && (x.event matches EventView::ActionFailed { action_name, call_id, error, .. }
            && action_name == q.name && call_id == q.call_id && error == reason),
        admitted(
            q,
            thread,
            PolicyView::RequireApproval(reason),
            s,
            step,
            now,
        ) matches AdmissionView::Pause(x) && (x.result matches JsonView::Object(f) && f.contains(
            ("gate_paused"@, JsonView::Bool(true)),
        ) && f.contains(("action_name"@, JsonView::Str(q.name))) && f.contains(
            ("call_id"@, JsonView::Str(q.call_id)),
        ) && f.contains(("parameters"@, q.params))),
        after_admission(q, thread, PolicyView::Deny(reason), s, now) == s,
        after_admission(q, thread, PolicyView::RequireApproval(reason), s, now) == s,
{
    let f = failure_json("Denied: "@ + reason)->Object_0;
    assert(f[0].0 == "is_error"@ && f[1].0 == "output"@);
    let g = approval_json(q)->Object_0;
    assert(g[0].0 == "action_name"@ && g[1].0 == "call_id"@ && g[3].0 == "gate_paused"@ && g[4].0
        == "parameters"@);
}

/// The name, the identity and the parameters of a call are read from the entry that writes
/// it; what is absent is empty.
pub proof fn requests_are_read(j: JsonView, name: Seq<char>, id: Seq<char>, p: JsonView)
    ensures
        j.get("name"@) == Some(JsonView::Str(name)) ==> request_of(j).name == name,
        j.get("call_id"@) == Some(JsonView::Str(id)) ==> request_of(j).call_id == id,
        j.get("params"@) == Some(p) ==> request_of(j).params == p,
        j.get("name"@) is None ==> request_of(j).name.len() == 0,
        j.get("call_id"@) is None ==> request_of(j).call_id.len() == 0,
        j.get("params"@) is None ==> request_of(j).params == JsonView::Object(Seq::empty()),
{
}

/// Every entry of a list is a call, in its place.
pub proof fn lists_are_read_entry_by_entry(v: Seq<JsonView>, i: int)
    requires
        0 <= i < v.len(),
    ensures
        requests_of(v).len() == v.len(),
        requests_of(v)[i] == request_of(v[i]),
{
}

/// Calls are gone through up to the first that a lease covers: none before it is covered,
/// and each of those is told that no lease covers it.
pub proof fn uncovered_calls_are_told(
    calls: Seq<RequestView>,
    thread: ThreadId,
    s: Seq<LeaseView>,
    now: i128,
    i: int,
    step: StepId,
)
    requires
        0 <= i <= calls.len(),
    ensures
        i <= next_covered(calls, thread, s, now, i) <= calls.len(),
        forall|j: int|
            i <= j < next_covered(calls, thread, s, now, i) ==> serving(
                s,
                thread,
                (#[trigger] calls[j]).name,
                now,
            ) >= s.len(),
        next_covered(calls, thread, s, now, i) < calls.len() ==> serving(
            s,
            thread,
            calls[next_covered(calls, thread, s, now, i)].name,
            now,
        ) < s.len(),
        refusals(calls, step).len() == calls.len(),
        forall|j: int|
            0 <= j < calls.len() ==> ((#[trigger] refusals(calls, step)[j]) matches ParallelView::Reported(
                x,
            ) && (x.event matches EventView::ActionFailed { action_name, call_id, error, .. }
                && action_name == calls[j].name && call_id == calls[j].call_id && error
                == "No lease for action '"@ + calls[j].name + "'"@)),
    decreases calls.len() - i,
{
    if i < calls.len() && serving(s, thread, calls[i].name, now) >= s.len() {
        uncovered_calls_are_told(calls, thread, s, now, i + 1, step);
    }
}

} // verus!

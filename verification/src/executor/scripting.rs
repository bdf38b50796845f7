//! Steps of Python code: what happens at each stop of the interpreter.
//!
//! The interpreter runs until it needs something: a function of the host, a name,
//! the results of calls that it left pending, or the operating system. [`CodeRun`]
//! decides at each stop what it is answered. Calls of actions are checked, run, and
//! answered later, so that code can wait for several of them at once; `FINAL` ends
//! a step with an answer; errors are told to the model and do not end the thread.

use std::collections::HashMap;

use vstd::prelude::*;
use vstd::std_specs::hash::*;

use crate::capability::lease::{
    lemma_first_where, lemma_is_first_where, missing_lease, position, refund_restores_budget,
    serving, LeaseManager,
};
use crate::capability::policy::{PolicyDecision, PolicyEngine, PolicyView};
use crate::executor::calls::{
    approval_event, error_json, error_object, event_of_approval, event_of_failure, event_of_pause,
    event_of_run, failed_event, object, paused_event, ran_event, ExecOutcome, ExecView,
    PauseView,
};
use crate::executor::host_actions::policy_on;
use crate::executor::llm::TokenUsage;
use crate::executor::structured::{after_settling, opt_outcome};
use crate::executor::value::{
    args_json, monty_args_to_json, monty_to_json, monty_to_string, py_json, py_text, raise,
    string_at, text_at, ExcKind, HostReply, PyKey, PyValue, ReplyView,
};
use crate::gate::{ResumeKind, ResumeView};
use crate::json::{fields, Json, JsonView};
use crate::number::{decimal, decimal_reads_back, u64_to_string};
use crate::text::{contains_string, holds, opt_text, str_eq, texts};
use crate::types::capability::{ActionDef, CapabilityLease, LeaseView, PolicyRule};
use crate::types::error::{error_text, EngineError, ErrorView};
use crate::types::event::{event_views, EventKind, EventView, OutcomeView, ThreadOutcome};
use crate::types::ids::{LeaseId, StepId, ThreadId};
use crate::types::message::{result_views, ActionResult, ResultView};

verus! {

broadcast use group_hash_axioms;

/// The result of a step of code.
#[derive(Debug, PartialEq, Eq)]
pub struct CodeExecutionResult {
    /// What the code returned.
    pub return_value: Json,
    /// What it printed, with the traceback where it failed.
    pub stdout: String,
    /// The results of the actions that it called.
    pub action_results: Vec<ActionResult>,
    pub events: Vec<EventKind>,
    /// Where this is set, a call needs approval and the step was interrupted.
    pub need_approval: Option<ThreadOutcome>,
    /// The tokens that its calls of the model used.
    pub recursive_tokens: TokenUsage,
    /// The answer that it gave with `FINAL` or `FINAL_VAR`.
    pub final_answer: Option<String>,
    pub had_error: bool,
}

/// What the result of a step holds.
pub struct CodeResultView {
    pub return_value: JsonView,
    pub stdout: Seq<char>,
    pub action_results: Seq<ResultView>,
    pub events: Seq<EventView>,
    pub need_approval: Option<OutcomeView>,
    pub recursive_tokens: TokenUsage,
    pub final_answer: Option<Seq<char>>,
    pub had_error: bool,
}

impl View for CodeExecutionResult {
    type V = CodeResultView;

    open spec fn view(&self) -> CodeResultView {
        CodeResultView {
            return_value: self.return_value@,
            stdout: self.stdout@,
            action_results: result_views(self.action_results@),
            events: event_views(self.events@),
            need_approval: opt_outcome(self.need_approval),
            recursive_tokens: self.recursive_tokens,
            final_answer: opt_text(self.final_answer),
            had_error: self.had_error,
        }
    }
}

/// A call that code waits for.
#[derive(Debug, PartialEq, Eq)]
pub enum PendingCall {
    /// An action, run under a lease.
    Tool {
        action_name: String,
        call_id: String,
        lease_id: LeaseId,
        parameters: Json,
        params_summary: Option<String>,
    },
    /// A call of the model.
    Llm,
}

/// What a pending call holds.
pub enum PendingView {
    Tool {
        action_name: Seq<char>,
        call_id: Seq<char>,
        lease_id: LeaseId,
        parameters: JsonView,
        params_summary: Option<Seq<char>>,
    },
    Llm,
}

impl View for PendingCall {
    type V = PendingView;

    open spec fn view(&self) -> PendingView {
        match self {
            PendingCall::Tool { action_name, call_id, lease_id, parameters, params_summary } =>
                PendingView::Tool {
                action_name: action_name@,
                call_id: call_id@,
                lease_id: *lease_id,
                parameters: parameters@,
                params_summary: opt_text(*params_summary),
            },
            PendingCall::Llm => PendingView::Llm,
        }
    }
}

/// A step of code that runs.
pub struct CodeRun {
    step: StepId,
    known: Vec<String>,
    pending: HashMap<u32, PendingCall>,
    calls: u32,
    action_results: Vec<ActionResult>,
    events: Vec<EventKind>,
    tokens: TokenUsage,
    final_answer: Option<String>,
}

/// What a step of code that runs holds.
pub struct RunView {
    pub step: StepId,
    /// The names of the actions that code may call.
    pub known: Seq<Seq<char>>,
    /// The calls that code waits for, by the numbers that the interpreter gave them.
    pub pending: Map<u32, PendingView>,
    /// How many functions of the host were called.
    pub calls: u32,
    pub action_results: Seq<ResultView>,
    pub events: Seq<EventView>,
    pub tokens: TokenUsage,
    pub final_answer: Option<Seq<char>>,
}

/// What the pending calls hold.
pub open spec fn pending_views(m: Map<u32, PendingCall>) -> Map<u32, PendingView> {
    m.map_values(|p: PendingCall| p@)
}

impl View for CodeRun {
    type V = RunView;

    closed spec fn view(&self) -> RunView {
        RunView {
            step: self.step,
            known: texts(self.known@),
            pending: pending_views(self.pending@),
            calls: self.calls,
            action_results: result_views(self.action_results@),
            events: event_views(self.events@),
            tokens: self.tokens,
            final_answer: opt_text(self.final_answer),
        }
    }
}

/// What is done at a call of a function of the host.
#[derive(Debug, PartialEq, Eq)]
pub enum CallStep {
    /// The call is answered at once.
    Reply(HostReply),
    /// The model is asked one thing; the call is left pending.
    Query,
    /// The model is asked several things at once; the call is left pending.
    QueryBatch,
    /// A child thread is run, and the call waits for it.
    Child,
    /// The call is pending already.
    Wait,
    /// An action is called: it is checked next.
    Tool { call_id: String, params: Json },
}

/// What such a step holds.
pub enum CallStepView {
    Reply(ReplyView),
    Query,
    QueryBatch,
    Child,
    Wait,
    Tool { call_id: Seq<char>, params: JsonView },
}

impl View for CallStep {
    type V = CallStepView;

    open spec fn view(&self) -> CallStepView {
        match self {
            CallStep::Reply(r) => CallStepView::Reply(r@),
            CallStep::Query => CallStepView::Query,
            CallStep::QueryBatch => CallStepView::QueryBatch,
            CallStep::Child => CallStepView::Child,
            CallStep::Wait => CallStepView::Wait,
            CallStep::Tool { call_id, params } => CallStepView::Tool {
                call_id: call_id@,
                params: params@,
            },
        }
    }
}

/// The answer to a question for the names that are known: each with `True`.
pub open spec fn known_object(known: Seq<Seq<char>>) -> JsonView {
    JsonView::Object(known.map_values(|n: Seq<char>| (n, JsonView::Bool(true))))
}

/// What is done at a call of a function of the host, and what the step holds after.
pub open spec fn at_call(
    run: RunView,
    id: u32,
    name: Seq<char>,
    args: Seq<PyValue>,
    kwargs: Seq<(PyKey, PyValue)>,
) -> (RunView, CallStepView) {
    let counted = RunView { calls: (run.calls + 1) as u32, ..run };
    let asking = RunView { pending: run.pending.insert(id, PendingView::Llm), ..counted };
    let null = CallStepView::Reply(ReplyView::Return(JsonView::Null));
    if name == "FINAL"@ {
        (RunView { final_answer: Some(text_at(args, 0)), ..counted }, null)
    } else if name == "FINAL_VAR"@ {
        let var = if args.len() > 0 {
            py_text(args[0])
        } else {
            "result"@
        };
        (RunView { final_answer: Some("[FINAL_VAR: "@ + var + "]"@), ..counted }, null)
    } else if name == "llm_query"@ {
        (asking, CallStepView::Query)
    } else if name == "llm_query_batched"@ {
        (asking, CallStepView::QueryBatch)
    } else if name == "rlm_query"@ {
        (counted, CallStepView::Child)
    } else if name == "globals"@ || name == "locals"@ {
        (counted, CallStepView::Reply(ReplyView::Return(known_object(run.known))))
    } else if run.pending.contains_key(id) {
        (counted, CallStepView::Wait)
    } else {
        (
            counted,
            CallStepView::Tool {
                call_id: "code_call_"@ + decimal((run.calls + 1) as nat),
                params: args_json(args, kwargs),
            },
        )
    }
}

fn told(a: &str, b: &str, c: &str) -> (r: String)
    ensures
        r@ == a@ + b@ + c@,
{
    let mut s = a.to_owned();
    s.append(b);
    s.append(c);
    s
}

fn known_json(known: &Vec<String>) -> (r: Json)
    ensures
        r@ == known_object(texts(known@)),
{
    let ghost all = texts(known@).map_values(|n: Seq<char>| (n, JsonView::Bool(true)));
    let mut v: Vec<(String, Json)> = Vec::new();
    let mut i: usize = 0;
    assert(fields(v@) =~= all.take(0));
    while i < known.len()
        invariant
            i <= known@.len(),
            all == texts(known@).map_values(|n: Seq<char>| (n, JsonView::Bool(true))),
            fields(v@) == all.take(i as int),
        decreases known@.len() - i,
    {
        let ghost before = v@;
        v.push((known[i].clone(), Json::Bool(true)));
        assert(fields(v@) =~= fields(before).push(all[i as int]));
        assert(all.take(i + 1) =~= all.take(i as int).push(all[i as int]));
        i = i + 1;
    }
    assert(all.take(all.len() as int) =~= all);
    object(v)
}

/// The names of a list, each once.
pub open spec fn is_name_list(v: Seq<String>) -> bool {
    forall|i: int, j: int| 0 <= i < j < v.len() ==> (#[trigger] v[i])@ != (#[trigger] v[j])@
}

/// The names that code may call: those of the actions, and those of the snippets
/// of skills, each once.
pub fn known_names(actions: &Vec<ActionDef>, snippets: &Vec<String>) -> (r: Vec<String>)
    ensures
        is_name_list(r@),
        forall|n: Seq<char>|
            holds(r@, n) == (holds(snippets@, n) || exists|i: int|
                0 <= i < actions@.len() && (#[trigger] actions@[i]).name@ == n),
{
    let mut out: Vec<String> = Vec::new();
    let mut i: usize = 0;
    while i < actions.len()
        invariant
            i <= actions@.len(),
            is_name_list(out@),
            forall|k: int| 0 <= k < i ==> holds(out@, (#[trigger] actions@[k]).name@),
            forall|k: int|
                0 <= k < out@.len() ==> exists|j: int|
                    0 <= j < i && (#[trigger] actions@[j]).name@ == (#[trigger] out@[k])@,
        decreases actions@.len() - i,
    {
        let ghost before = out@;
        let name = &actions[i].name;
        if !contains_string(&out, name.as_str()) {
            out.push(name.clone());
            assert(out@[before.len() as int]@ == actions@[i as int].name@);
            assert forall|k: int| 0 <= k < i implies holds(
                out@,
                (#[trigger] actions@[k]).name@,
            ) by {
                assert(holds(before, actions@[k].name@));
                let w = choose|w: int|
                    0 <= w < before.len() && #[trigger] before[w]@ == actions@[k].name@;
                assert(out@[w] == before[w]);
            }
            assert forall|k: int| 0 <= k < out@.len() implies exists|j: int|
                0 <= j < i + 1 && (#[trigger] actions@[j]).name@ == (#[trigger] out@[k])@ by {
                if k < before.len() {
                    assert(out@[k] == before[k]);
                } else {
                    assert(actions@[i as int].name@ == out@[k]@);
                }
            }
        }
        i = i + 1;
    }
    let ghost first = out@;
    let mut i: usize = 0;
    while i < snippets.len()
        invariant
            i <= snippets@.len(),
            is_name_list(out@),
            first.len() <= out@.len(),
            forall|k: int| 0 <= k < first.len() ==> out@[k] == #[trigger] first[k],
            forall|k: int| 0 <= k < i ==> holds(out@, (#[trigger] snippets@[k])@),
            forall|k: int|
                first.len() <= k < out@.len() ==> holds(snippets@, (#[trigger] out@[k])@),
        decreases snippets@.len() - i,
    {
        let ghost before = out@;
        if !contains_string(&out, snippets[i].as_str()) {
            out.push(snippets[i].clone());
            assert(out@[before.len() as int]@ == snippets@[i as int]@);
            assert forall|k: int| 0 <= k < i implies holds(out@, (#[trigger] snippets@[k])@) by {
                assert(holds(before, snippets@[k]@));
                let w = choose|w: int|
                    0 <= w < before.len() && #[trigger] before[w]@ == snippets@[k]@;
                assert(out@[w] == before[w]);
            }
        }
        i = i + 1;
    }
    proof {
        assert forall|n: Seq<char>| #[trigger]
            holds(out@, n) implies (holds(snippets@, n) || exists|i: int|
            0 <= i < actions@.len() && (#[trigger] actions@[i]).name@ == n) by {
            let w = choose|w: int| 0 <= w < out@.len() && #[trigger] out@[w]@ == n;
            if w < first.len() {
                assert(out@[w] == first[w]);
            }
        }
        assert forall|n: Seq<char>|
            (holds(snippets@, n) || exists|i: int|
                0 <= i < actions@.len() && (#[trigger] actions@[i]).name@
                    == n) implies #[trigger] holds(out@, n) by {
            if holds(snippets@, n) {
                let w = choose|w: int| 0 <= w < snippets@.len() && #[trigger] snippets@[w]@ == n;
                assert(holds(out@, snippets@[w]@));
            } else {
                let w = choose|w: int|
                    0 <= w < actions@.len() && (#[trigger] actions@[w]).name@ == n;
                assert(holds(first, actions@[w].name@));
                let u = choose|u: int| 0 <= u < first.len() && #[trigger] first[u]@ == n;
                assert(out@[u] == first[u]);
            }
        }
    }
    out
}

impl CodeRun {
    /// A step that begins.
    pub fn new(step: StepId, known: Vec<String>) -> (r: CodeRun)
        ensures
            r@ == (RunView {
                step,
                known: texts(known@),
                pending: Map::empty(),
                calls: 0,
                action_results: Seq::empty(),
                events: Seq::empty(),
                tokens: TokenUsage { input_tokens: 0, output_tokens: 0 },
                final_answer: None,
            }),
    {
        let r = CodeRun {
            step,
            known,
            pending: HashMap::new(),
            calls: 0,
            action_results: Vec::new(),
            events: Vec::new(),
            tokens: TokenUsage::none(),
            final_answer: None,
        };
        assert(r@.pending =~= Map::empty());
        assert(r@.action_results =~= Seq::empty());
        assert(r@.events =~= Seq::empty());
        r
    }

    /// Decides what is done at a call of a function of the host.
    pub fn begin_call(
        &mut self,
        id: u32,
        name: &str,
        args: &Vec<PyValue>,
        kwargs: &Vec<(PyKey, PyValue)>,
    ) -> (r: CallStep)
        requires
            old(self)@.calls < u32::MAX,
        ensures
            final(self)@ == at_call(old(self)@, id, name@, args@, kwargs@).0,
            r@ == at_call(old(self)@, id, name@, args@, kwargs@).1,
    {
        self.calls = self.calls + 1;
        if str_eq(name, "FINAL") {
            self.final_answer = Some(string_at(args, 0));
            CallStep::Reply(HostReply::Return(Json::Null))
        } else if str_eq(name, "FINAL_VAR") {
            let var = if args.len() > 0 {
                monty_to_string(&args[0])
            } else {
                "result".to_owned()
            };
            self.final_answer = Some(told("[FINAL_VAR: ", var.as_str(), "]"));
            CallStep::Reply(HostReply::Return(Json::Null))
        } else if str_eq(name, "llm_query") {
            self.pending.insert(id, PendingCall::Llm);
            assert(self@.pending =~= old(self)@.pending.insert(id, PendingView::Llm));
            CallStep::Query
        } else if str_eq(name, "llm_query_batched") {
            self.pending.insert(id, PendingCall::Llm);
            assert(self@.pending =~= old(self)@.pending.insert(id, PendingView::Llm));
            CallStep::QueryBatch
        } else if str_eq(name, "rlm_query") {
            CallStep::Child
        } else if str_eq(name, "globals") || str_eq(name, "locals") {
            CallStep::Reply(HostReply::Return(known_json(&self.known)))
        } else if self.pending.contains_key(&id) {
            CallStep::Wait
        } else {
            let mut call_id = "code_call_".to_owned();
            call_id.append(u64_to_string(self.calls as u64).as_str());
            CallStep::Tool { call_id, params: monty_args_to_json(args, kwargs) }
        }
    }
}

/// How the want of a lease is told to code.
pub open spec fn unleased(name: Seq<char>) -> Seq<char> {
    "no lease for action '"@ + name + "'"@
}

/// An error of the host, as code sees it.
pub open spec fn runtime_error(message: Seq<char>) -> ReplyView {
    ReplyView::Raise { kind: ExcKind::RuntimeError, message }
}

/// What the checks of a call came to.
#[derive(Debug, PartialEq, Eq)]
pub enum PreflightResult {
    /// The action may run, under this lease: a use was taken, and the call is
    /// pending.
    Approved,
    /// Code sees an error.
    Denied(HostReply),
    /// The call needs approval: the step is interrupted.
    GatePaused(ThreadOutcome),
}

/// What such a result holds.
pub enum PreflightView {
    Approved,
    Denied(ReplyView),
    GatePaused(OutcomeView),
}

impl View for PreflightResult {
    type V = PreflightView;

    open spec fn view(&self) -> PreflightView {
        match self {
            PreflightResult::Approved => PreflightView::Approved,
            PreflightResult::Denied(r) => PreflightView::Denied(r@),
            PreflightResult::GatePaused(o) => PreflightView::GatePaused(o@),
        }
    }
}

/// A call of an action from code.
#[derive(Debug, PartialEq, Eq)]
pub struct ToolCall {
    /// The number that the interpreter gave the call.
    pub id: u32,
    pub action_name: String,
    pub call_id: String,
    pub params: Json,
    /// A summary of the parameters for people.
    pub summary: Option<String>,
}

/// What a call of an action holds.
pub struct ToolCallView {
    pub id: u32,
    pub action_name: Seq<char>,
    pub call_id: Seq<char>,
    pub params: JsonView,
    pub summary: Option<Seq<char>>,
}

impl View for ToolCall {
    type V = ToolCallView;

    open spec fn view(&self) -> ToolCallView {
        ToolCallView {
            id: self.id,
            action_name: self.action_name@,
            call_id: self.call_id@,
            params: self.params@,
            summary: opt_text(self.summary),
        }
    }
}

/// The outcome of a thread that waits for the approval of a call.
pub open spec fn waits_for_approval(c: ToolCallView) -> OutcomeView {
    OutcomeView::GatePaused {
        gate_name: "approval"@,
        action_name: c.action_name,
        call_id: c.call_id,
        parameters: c.params,
        resume_kind: ResumeView::Approval(true),
        resume_output: None,
    }
}

/// The error of a lease that has no use left to take, where there is one.
pub open spec fn exhausted(s: Seq<LeaseView>, id: LeaseId, now: i128) -> Option<ErrorView> {
    let p = position(s, id);
    if p == s.len() {
        Some(ErrorView::LeaseExpired(missing_lease(id)))
    } else if !s[p].valid(now) {
        Some(ErrorView::LeaseExpired(s[p].capability_name))
    } else {
        None
    }
}

/// What the checks of a call come to, given the decision of policy.
pub open spec fn checked(
    c: ToolCallView,
    d: PolicyView,
    s: Seq<LeaseView>,
    lease: LeaseId,
    now: i128,
) -> PreflightView {
    match d {
        PolicyView::Deny(reason) => PreflightView::Denied(runtime_error("denied: "@ + reason)),
        PolicyView::RequireApproval(_) => PreflightView::GatePaused(waits_for_approval(c)),
        PolicyView::Allow => match exhausted(s, lease, now) {
            Some(e) => PreflightView::Denied(runtime_error("lease exhausted: "@ + error_text(e))),
            None => PreflightView::Approved,
        },
    }
}

/// What the step holds after the checks of a call.
pub open spec fn after_check(
    run: RunView,
    c: ToolCallView,
    d: PolicyView,
    s: Seq<LeaseView>,
    lease: LeaseId,
    now: i128,
) -> RunView {
    match d {
        PolicyView::Deny(reason) => RunView {
            events: run.events.push(failed_event(run.step, c.action_name, c.call_id, reason, None)),
            ..run
        },
        PolicyView::RequireApproval(_) => RunView {
            events: run.events.push(
                approval_event(c.action_name, c.call_id, c.params, c.summary),
            ),
            ..run
        },
        PolicyView::Allow => if exhausted(s, lease, now) is None {
            RunView {
                pending: run.pending.insert(
                    c.id,
                    PendingView::Tool {
                        action_name: c.action_name,
                        call_id: c.call_id,
                        lease_id: lease,
                        parameters: c.params,
                        params_summary: c.summary,
                    },
                ),
                ..run
            }
        } else {
            run
        },
    }
}

/// The leases after the checks of a call: only an action that may run takes a use.
pub open spec fn leases_after_check(
    d: PolicyView,
    s: Seq<LeaseView>,
    lease: LeaseId,
    now: i128,
) -> Seq<LeaseView> {
    let p = position(s, lease);
    if d is Allow && exhausted(s, lease, now) is None {
        s.update(p, s[p].consumed())
    } else {
        s
    }
}

/// How a pending call ended.
#[derive(Debug, PartialEq, Eq)]
pub enum FutureEnd {
    /// The action ended.
    Tool(ExecOutcome),
    /// The task of the action was lost; the text says why.
    ToolLost(String),
    /// The model was asked.
    Llm(HostReply, TokenUsage),
    /// The task that asks the model was lost; the text says why.
    LlmLost(String),
    /// There is no such task.
    Missing,
}

/// What the end of a pending call holds.
pub enum EndView {
    Tool(ExecView),
    ToolLost(Seq<char>),
    Llm(ReplyView, TokenUsage),
    LlmLost(Seq<char>),
    Missing,
}

impl View for FutureEnd {
    type V = EndView;

    open spec fn view(&self) -> EndView {
        match self {
            FutureEnd::Tool(x) => EndView::Tool(x@),
            FutureEnd::ToolLost(e) => EndView::ToolLost(e@),
            FutureEnd::Llm(r, t) => EndView::Llm(r@, *t),
            FutureEnd::LlmLost(e) => EndView::LlmLost(e@),
            FutureEnd::Missing => EndView::Missing,
        }
    }
}

/// Whether an end is that of what is pending: actions end as actions, questions to
/// the model as such, and its tokens can be counted.
pub open spec fn ends(run: RunView, id: u32, end: EndView) -> bool {
    run.pending.contains_key(id) ==> match run.pending[id] {
        PendingView::Tool { .. } => end is Tool || end is ToolLost,
        PendingView::Llm => match end {
            EndView::Llm(_, t) => run.tokens.fits(t),
            EndView::LlmLost(_) => true,
            _ => false,
        },
    }
}

/// The result that stands for an action that could not be run.
pub open spec fn broken_result(name: Seq<char>, call_id: Seq<char>, error: Seq<char>) -> ResultView {
    ResultView {
        call_id,
        action_name: name,
        output: error_json(error),
        is_error: true,
        duration_ms: 0,
    }
}

/// What code is answered when a pending call ended.
pub open spec fn future_reply(run: RunView, id: u32, end: EndView) -> ReplyView {
    if !run.pending.contains_key(id) {
        runtime_error("unknown pending call_id "@ + decimal(id as nat))
    } else {
        match end {
            EndView::Tool(ExecView::Done(r)) => ReplyView::Return(r.output),
            EndView::Tool(ExecView::Paused(g)) => runtime_error(
                "execution paused by gate '"@ + g.gate_name + "'"@,
            ),
            EndView::Tool(ExecView::Failed(e)) => runtime_error(e),
            EndView::ToolLost(e) => runtime_error("tool execution panicked: "@ + e),
            EndView::Llm(r, _) => r,
            EndView::LlmLost(e) => runtime_error("LLM call panicked: "@ + e),
            EndView::Missing => runtime_error(""@),
        }
    }
}

/// What the step holds after a pending call ended: it is no longer pending, and
/// its event, its result and its tokens are taken in.
pub open spec fn after_future(run: RunView, id: u32, end: EndView) -> RunView {
    if !run.pending.contains_key(id) {
        run
    } else {
        let rest = RunView { pending: run.pending.remove(id), ..run };
        match (run.pending[id], end) {
            (
                PendingView::Tool { action_name, call_id, parameters, params_summary, .. },
                EndView::Tool(x),
            ) => match x {
                ExecView::Done(r) => RunView {
                    events: run.events.push(
                        ran_event(r, run.step, action_name, call_id, params_summary),
                    ),
                    action_results: run.action_results.push(r),
                    ..rest
                },
                ExecView::Paused(g) => RunView {
                    events: run.events.push(
                        paused_event(g, g.action_name, g.call_id, parameters, params_summary),
                    ),
                    ..rest
                },
                ExecView::Failed(e) => RunView {
                    events: run.events.push(
                        failed_event(run.step, action_name, call_id, e, params_summary),
                    ),
                    action_results: run.action_results.push(
                        broken_result(action_name, call_id, e),
                    ),
                    ..rest
                },
            },
            (PendingView::Llm, EndView::Llm(_, t)) => RunView { tokens: run.tokens.plus(t), ..rest },
            _ => rest,
        }
    }
}

/// The leases after a pending call ended: a paused call gives its use back.
pub open spec fn leases_after_future(
    run: RunView,
    s: Seq<LeaseView>,
    id: u32,
    end: EndView,
) -> Seq<LeaseView> {
    if run.pending.contains_key(id) {
        match (run.pending[id], end) {
            (PendingView::Tool { lease_id, .. }, EndView::Tool(x)) => after_settling(
                s,
                lease_id,
                x,
            ),
            _ => s,
        }
    } else {
        s
    }
}

impl CodeRun {
    /// Looks for the lease that an action is called under. Where there is none,
    /// code sees an error, and the failure is put on record.
    pub fn find_lease(
        &mut self,
        leases: &LeaseManager,
        thread_id: ThreadId,
        action_name: &str,
        call_id: &str,
        now: i128,
    ) -> (r: Result<CapabilityLease, HostReply>)
        ensures
            ({
                let p = serving(leases@, thread_id, action_name@, now);
                match r {
                    Ok(lease) => p < leases@.len() && lease@ == leases@[p] && final(self)@ == old(
                        self,
                    )@,
                    Err(reply) => {
                        &&& p == leases@.len()
                        &&& reply@ == runtime_error(unleased(action_name@))
                        &&& final(self)@ == (RunView {
                            events: old(self)@.events.push(
                                failed_event(
                                    old(self)@.step,
                                    action_name@,
                                    call_id@,
                                    unleased(action_name@),
                                    None,
                                ),
                            ),
                            ..old(self)@
                        })
                    },
                }
            }),
    {
        match leases.find_lease_for_action(thread_id, action_name, now) {
            Some(lease) => Ok(lease),
            None => {
                let error = told("no lease for action '", action_name, "'");
                let reply = raise(ExcKind::RuntimeError, error.as_str());
                self.record(event_of_failure(self.step, action_name, call_id, error, None));
                Err(reply)
            },
        }
    }

    fn record(&mut self, event: EventKind)
        ensures
            final(self)@ == (RunView { events: old(self)@.events.push(event@), ..old(self)@ }),
    {
        let ghost before = self.events@;
        let ghost v = event@;
        self.events.push(event);
        assert(event_views(self.events@) =~= event_views(before).push(v));
    }

    /// Checks a call of an action under the lease that was found for it. `action` is
    /// its definition, where one is known; an action without one is not put to
    /// policy. A call that passes takes a use of the lease and is pending.
    pub fn preflight_action(
        &mut self,
        call: ToolCall,
        lease: &CapabilityLease,
        action: Option<&ActionDef>,
        leases: &mut LeaseManager,
        policy: &PolicyEngine,
        capability_policies: &Vec<PolicyRule>,
        now: i128,
    ) -> (r: PreflightResult)
        requires
            old(leases).wf(),
        ensures
            final(leases).wf(),
            ({
                let d = policy_on(*policy, action, lease@, capability_policies@, now);
                let s = old(leases)@;
                &&& r@ == checked(call@, d, s, lease.id, now)
                &&& final(self)@ == after_check(old(self)@, call@, d, s, lease.id, now)
                &&& final(leases)@ == leases_after_check(d, s, lease.id, now)
            }),
    {
        if let Some(a) = action {
            match policy.evaluate(a, lease, capability_policies, now) {
                PolicyDecision::Deny { reason } => {
                    let mut shown = "denied: ".to_owned();
                    shown.append(reason.as_str());
                    self.record(
                        event_of_failure(
                            self.step,
                            call.action_name.as_str(),
                            call.call_id.as_str(),
                            reason,
                            None,
                        ),
                    );
                    return PreflightResult::Denied(raise(ExcKind::RuntimeError, shown.as_str()));
                },
                PolicyDecision::RequireApproval { .. } => {
                    self.record(
                        event_of_approval(
                            call.action_name.as_str(),
                            call.call_id.as_str(),
                            &call.params,
                            call.summary,
                        ),
                    );
                    return PreflightResult::GatePaused(
                        ThreadOutcome::GatePaused {
                            gate_name: "approval".to_owned(),
                            action_name: call.action_name,
                            call_id: call.call_id,
                            parameters: call.params,
                            resume_kind: ResumeKind::Approval { allow_always: true },
                            resume_output: None,
                        },
                    );
                },
                PolicyDecision::Allow => {},
            }
        }
        proof {
            let id = lease.id;
            lemma_first_where(leases@, |l: LeaseView| l.id == id);
        }
        match leases.consume_use(lease.id, now) {
            Ok(_) => {
                let id = call.id;
                let waits = PendingCall::Tool {
                    action_name: call.action_name,
                    call_id: call.call_id,
                    lease_id: lease.id,
                    parameters: call.params,
                    params_summary: call.summary,
                };
                let ghost w = waits@;
                self.pending.insert(id, waits);
                assert(self@.pending =~= old(self)@.pending.insert(id, w));
                PreflightResult::Approved
            },
            Err(e) => {
                let mut shown = "lease exhausted: ".to_owned();
                shown.append(e.message().as_str());
                PreflightResult::Denied(raise(ExcKind::RuntimeError, shown.as_str()))
            },
        }
    }

    fn settle_tool(
        &mut self,
        leases: &mut LeaseManager,
        action_name: String,
        call_id: String,
        lease_id: LeaseId,
        parameters: Json,
        params_summary: Option<String>,
        outcome: ExecOutcome,
    ) -> (r: HostReply)
        requires
            old(leases).wf(),
        ensures
            final(leases).wf(),
            final(leases)@ == after_settling(old(leases)@, lease_id, outcome@),
            ({
                let run = old(self)@;
                match outcome@ {
                    ExecView::Done(d) => r@ == ReplyView::Return(d.output) && final(self)@ == (
                    RunView {
                        events: run.events.push(
                            ran_event(
                                d,
                                run.step,
                                action_name@,
                                call_id@,
                                opt_text(params_summary),
                            ),
                        ),
                        action_results: run.action_results.push(d),
                        ..run
                    }),
                    ExecView::Paused(g) => r@ == runtime_error(
                        "execution paused by gate '"@ + g.gate_name + "'"@,
                    ) && final(self)@ == (RunView {
                        events: run.events.push(
                            paused_event(
                                g,
                                g.action_name,
                                g.call_id,
                                parameters@,
                                opt_text(params_summary),
                            ),
                        ),
                        ..run
                    }),
                    ExecView::Failed(e) => r@ == runtime_error(e) && final(self)@ == (RunView {
                        events: run.events.push(
                            failed_event(
                                run.step,
                                action_name@,
                                call_id@,
                                e,
                                opt_text(params_summary),
                            ),
                        ),
                        action_results: run.action_results.push(
                            broken_result(action_name@, call_id@, e),
                        ),
                        ..run
                    }),
                }
            }),
    {
        let ghost before = self.action_results@;
        match outcome {
            ExecOutcome::Done(d) => {
                self.record(
                    event_of_run(
                        &d,
                        self.step,
                        action_name.as_str(),
                        call_id.as_str(),
                        params_summary,
                    ),
                );
                let reply = HostReply::Return(d.output.clone());
                let ghost v = d@;
                self.action_results.push(d);
                assert(result_views(self.action_results@) =~= result_views(before).push(v));
                reply
            },
            ExecOutcome::Paused(g) => {
                let _ = leases.refund_use(lease_id);
                self.record(
                    event_of_pause(
                        &g,
                        g.action_name.as_str(),
                        g.call_id.as_str(),
                        &parameters,
                        params_summary,
                    ),
                );
                let error = told("execution paused by gate '", g.gate_name.as_str(), "'");
                raise(ExcKind::RuntimeError, error.as_str())
            },
            ExecOutcome::Failed(e) => {
                let reply = raise(ExcKind::RuntimeError, e.as_str());
                let result = ActionResult {
                    call_id: call_id.clone(),
                    action_name: action_name.clone(),
                    output: error_object(e.as_str()),
                    is_error: true,
                    duration_ms: 0,
                };
                let ghost v = result@;
                self.record(
                    event_of_failure(
                        self.step,
                        action_name.as_str(),
                        call_id.as_str(),
                        e,
                        params_summary,
                    ),
                );
                self.action_results.push(result);
                assert(result_views(self.action_results@) =~= result_views(before).push(v));
                reply
            },
        }
    }

    /// Takes the end of a pending call in, and answers code.
    pub fn resolve_future(&mut self, leases: &mut LeaseManager, id: u32, end: FutureEnd) -> (r:
        HostReply)
        requires
            old(leases).wf(),
            ends(old(self)@, id, end@),
        ensures
            final(leases).wf(),
            r@ == future_reply(old(self)@, id, end@),
            final(self)@ == after_future(old(self)@, id, end@),
            final(leases)@ == leases_after_future(old(self)@, old(leases)@, id, end@),
    {
        let ghost run = old(self)@;
        let ghost before = self.pending@;
        match self.pending.remove(&id) {
            None => {
                assert(self.pending@ =~= before);
                let mut error = "unknown pending call_id ".to_owned();
                error.append(u64_to_string(id as u64).as_str());
                raise(ExcKind::RuntimeError, error.as_str())
            },
            Some(p) => {
                assert(self@.pending =~= run.pending.remove(id));
                assert(p@ == run.pending[id]);
                match p {
                    PendingCall::Tool {
                        action_name,
                        call_id,
                        lease_id,
                        parameters,
                        params_summary,
                    } => match end {
                        FutureEnd::Tool(x) => self.settle_tool(
                            leases,
                            action_name,
                            call_id,
                            lease_id,
                            parameters,
                            params_summary,
                            x,
                        ),
                        FutureEnd::ToolLost(e) => {
                            let mut error = "tool execution panicked: ".to_owned();
                            error.append(e.as_str());
                            raise(ExcKind::RuntimeError, error.as_str())
                        },
                        _ => raise(ExcKind::RuntimeError, ""),
                    },
                    PendingCall::Llm => match end {
                        FutureEnd::Llm(reply, t) => {
                            self.tokens.count(t);
                            reply
                        },
                        FutureEnd::LlmLost(e) => {
                            let mut error = "LLM call panicked: ".to_owned();
                            error.append(e.as_str());
                            raise(ExcKind::RuntimeError, error.as_str())
                        },
                        _ => raise(ExcKind::RuntimeError, ""),
                    },
                }
            },
        }
    }
}

/// What the ends of several pending calls hold.
pub open spec fn end_views(v: Seq<FutureEnd>) -> Seq<EndView> {
    v.map_values(|e: FutureEnd| e@)
}

/// What the step and the leases are after several pending calls ended, one after
/// the other, and what code is answered to each.
pub open spec fn resolved(
    run: RunView,
    s: Seq<LeaseView>,
    ids: Seq<u32>,
    ends: Seq<EndView>,
) -> (RunView, Seq<LeaseView>, Seq<(u32, ReplyView)>)
    decreases ids.len(),
{
    if ids.len() == 0 {
        (run, s, Seq::empty())
    } else {
        let (r, l, replies) = resolved(run, s, ids.drop_last(), ends.drop_last());
        (
            after_future(r, ids.last(), ends.last()),
            leases_after_future(r, l, ids.last(), ends.last()),
            replies.push((ids.last(), future_reply(r, ids.last(), ends.last()))),
        )
    }
}

/// Whether each of the ends is that of what is then pending.
pub open spec fn all_end(run: RunView, s: Seq<LeaseView>, ids: Seq<u32>, e: Seq<EndView>) -> bool
    decreases ids.len(),
{
    ids.len() == 0 || (all_end(run, s, ids.drop_last(), e.drop_last()) && ends(
        resolved(run, s, ids.drop_last(), e.drop_last()).0,
        ids.last(),
        e.last(),
    ))
}

proof fn lemma_all_end(run: RunView, s: Seq<LeaseView>, ids: Seq<u32>, e: Seq<EndView>, i: int)
    requires
        ids.len() == e.len(),
        all_end(run, s, ids, e),
        0 <= i <= ids.len(),
    ensures
        all_end(run, s, ids.take(i), e.take(i)),
    decreases ids.len() - i,
{
    if i < ids.len() {
        lemma_all_end(run, s, ids, e, i + 1);
        assert(ids.take(i + 1).drop_last() =~= ids.take(i));
        assert(e.take(i + 1).drop_last() =~= e.take(i));
    } else {
        assert(ids.take(i) =~= ids);
        assert(e.take(i) =~= e);
    }
}

/// What code is answered to each of several calls.
pub open spec fn reply_views(v: Seq<(u32, HostReply)>) -> Seq<(u32, ReplyView)> {
    v.map_values(|p: (u32, HostReply)| (p.0, p.1@))
}

/// Where the interpreter failed with an error that is told to the model.
#[derive(Debug, Clone, Copy, PartialEq, Eq, Structural)]
pub enum ResumeFailure {
    /// After the answer to a call.
    Call,
    /// After a name.
    Name,
    /// After a denied operation.
    Os,
}

/// How such an error is introduced.
pub open spec fn failure_heading(f: ResumeFailure) -> Seq<char> {
    match f {
        ResumeFailure::Call => "\nError: "@,
        ResumeFailure::Name => "\nNameError: "@,
        ResumeFailure::Os => "\nOSError: "@,
    }
}

/// Where the interpreter panicked.
#[derive(Debug, Clone, Copy, PartialEq, Eq, Structural)]
pub enum PanicPoint {
    Parsing,
    Start,
    Resume,
    ResumePending,
    ResolveFutures,
    NameLookup,
    OsCall,
}

/// How a panic of the interpreter is told.
pub open spec fn panic_text(p: PanicPoint) -> Seq<char> {
    match p {
        PanicPoint::Parsing => "Monty VM panicked during code parsing"@,
        PanicPoint::Start => "Monty VM panicked during execution start"@,
        PanicPoint::Resume => "Monty VM panicked during resume"@,
        PanicPoint::ResumePending => "Monty VM panicked during resume_pending"@,
        PanicPoint::ResolveFutures => "Monty VM panicked during ResolveFutures resume"@,
        PanicPoint::NameLookup => "Monty VM panicked during name lookup"@,
        PanicPoint::OsCall => "Monty VM panicked during OS call"@,
    }
}

/// The error that a panic of the interpreter ends the step with.
pub fn panic_error(p: PanicPoint) -> (r: EngineError)
    ensures
        r@ == ErrorView::Effect(panic_text(p)),
{
    let reason = match p {
        PanicPoint::Parsing => "Monty VM panicked during code parsing",
        PanicPoint::Start => "Monty VM panicked during execution start",
        PanicPoint::Resume => "Monty VM panicked during resume",
        PanicPoint::ResumePending => "Monty VM panicked during resume_pending",
        PanicPoint::ResolveFutures => "Monty VM panicked during ResolveFutures resume",
        PanicPoint::NameLookup => "Monty VM panicked during name lookup",
        PanicPoint::OsCall => "Monty VM panicked during OS call",
    };
    EngineError::Effect { reason: reason.to_owned() }
}

/// Code may not call the operating system.
pub fn deny_os_call() -> (r: HostReply)
    ensures
        r@ == (ReplyView::Raise {
            kind: ExcKind::OsError,
            message: "OS operations are not permitted in CodeAct scripts"@,
        }),
{
    raise(ExcKind::OsError, "OS operations are not permitted in CodeAct scripts")
}

/// The result of a step that ended with these things taken in.
pub open spec fn ended(run: RunView, value: JsonView, stdout: Seq<char>, failed: bool) -> CodeResultView {
    CodeResultView {
        return_value: value,
        stdout,
        action_results: run.action_results,
        events: run.events,
        need_approval: None,
        recursive_tokens: run.tokens,
        final_answer: run.final_answer,
        had_error: failed,
    }
}

/// The result of a step that did not begin: its error is told to the model.
pub open spec fn not_begun(stdout: Seq<char>) -> CodeResultView {
    CodeResultView {
        return_value: JsonView::Null,
        stdout,
        action_results: Seq::empty(),
        events: Seq::empty(),
        need_approval: None,
        recursive_tokens: TokenUsage { input_tokens: 0, output_tokens: 0 },
        final_answer: None,
        had_error: true,
    }
}

fn fail_to_begin(stdout: String) -> (r: CodeExecutionResult)
    ensures
        r@ == not_begun(stdout@),
{
    let r = CodeExecutionResult {
        return_value: Json::Null,
        stdout,
        action_results: Vec::new(),
        events: Vec::new(),
        need_approval: None,
        recursive_tokens: TokenUsage::none(),
        final_answer: None,
        had_error: true,
    };
    assert(r@.action_results =~= Seq::empty());
    assert(r@.events =~= Seq::empty());
    r
}

/// The result of a step whose code does not parse.
pub fn parse_failure(error: &str) -> (r: CodeExecutionResult)
    ensures
        r@ == not_begun("SyntaxError: "@ + error@),
{
    let mut s = "SyntaxError: ".to_owned();
    s.append(error);
    fail_to_begin(s)
}

/// The result of a step whose code failed before its first stop.
pub fn start_failure(stdout: &str, error: &str) -> (r: CodeExecutionResult)
    ensures
        r@ == not_begun(stdout@ + "\nError: "@ + error@),
{
    fail_to_begin(told(stdout, "\nError: ", error))
}

impl CodeRun {
    /// Takes the ends of several pending calls in, in order, and answers each.
    pub fn resolve_futures(
        &mut self,
        leases: &mut LeaseManager,
        ids: &Vec<u32>,
        ends: Vec<FutureEnd>,
    ) -> (r: Vec<(u32, HostReply)>)
        requires
            old(leases).wf(),
            ids@.len() == ends@.len(),
            all_end(old(self)@, old(leases)@, ids@, end_views(ends@)),
        ensures
            final(leases).wf(),
            ({
                let x = resolved(old(self)@, old(leases)@, ids@, end_views(ends@));
                &&& final(self)@ == x.0
                &&& final(leases)@ == x.1
                &&& reply_views(r@) == x.2
            }),
    {
        let ghost run = self@;
        let ghost s = leases@;
        let ghost e = end_views(ends@);
        let mut rest = ends;
        let mut out: Vec<(u32, HostReply)> = Vec::new();
        let mut i: usize = 0;
        assert(ids@.take(0) =~= Seq::<u32>::empty());
        assert(end_views(rest@) =~= e.skip(0));
        assert(reply_views(out@) =~= Seq::empty());
        while i < ids.len()
            invariant
                i <= ids@.len(),
                ids@.len() == e.len(),
                rest@.len() == ids@.len() - i,
                end_views(rest@) == e.skip(i as int),
                all_end(run, s, ids@, e),
                leases.wf(),
                self@ == resolved(run, s, ids@.take(i as int), e.take(i as int)).0,
                leases@ == resolved(run, s, ids@.take(i as int), e.take(i as int)).1,
                reply_views(out@) == resolved(run, s, ids@.take(i as int), e.take(i as int)).2,
            decreases ids@.len() - i,
        {
            proof {
                lemma_all_end(run, s, ids@, e, i + 1);
                assert(ids@.take(i + 1).drop_last() =~= ids@.take(i as int));
                assert(e.take(i + 1).drop_last() =~= e.take(i as int));
                assert(e.skip(i as int)[0] == e[i as int]);
                assert(end_views(rest@)[0] == rest@[0]@);
            }
            let ghost left = rest@;
            let ghost before = out@;
            let end = rest.remove(0);
            assert(end_views(rest@) =~= e.skip(i + 1)) by {
                assert forall|k: int| 0 <= k < rest@.len() implies end_views(rest@)[k] == e.skip(
                    i + 1,
                )[k] by {
                    assert(rest@[k] == left[k + 1]);
                    assert(end_views(left)[k + 1] == e.skip(i as int)[k + 1]);
                }
            }
            let reply = self.resolve_future(leases, ids[i], end);
            let ghost v = reply@;
            out.push((ids[i], reply));
            assert(reply_views(out@) =~= reply_views(before).push((ids@[i as int], v)));
            i = i + 1;
        }
        proof {
            assert(ids@.take(ids@.len() as int) =~= ids@);
            assert(e.take(e.len() as int) =~= e);
        }
        out
    }

    /// Whether a name stands for a function of the host.
    pub fn resolves_name(&self, name: &str) -> (r: bool)
        ensures
            r == (self@.known.contains(name@) || name@ == "globals"@ || name@ == "locals"@),
    {
        proof {
            crate::types::capability::lemma_holds_texts(self.known@, name@);
        }
        contains_string(&self.known, name) || str_eq(name, "globals") || str_eq(name, "locals")
    }

    /// The result of a step whose code ran to its end.
    pub fn complete(self, value: &PyValue, stdout: String) -> (r: CodeExecutionResult)
        ensures
            r@ == ended(self@, py_json(*value), stdout@, false),
    {
        CodeExecutionResult {
            return_value: monty_to_json(value),
            stdout,
            action_results: self.action_results,
            events: self.events,
            need_approval: None,
            recursive_tokens: self.tokens,
            final_answer: self.final_answer,
            had_error: false,
        }
    }

    /// The result of a step whose code failed: the model is told of the error.
    pub fn fail(self, at: ResumeFailure, stdout: &str, error: &str) -> (r: CodeExecutionResult)
        ensures
            r@ == ended(
                self@,
                JsonView::Null,
                stdout@ + failure_heading(at) + error@,
                true,
            ),
    {
        let heading = match at {
            ResumeFailure::Call => "\nError: ",
            ResumeFailure::Name => "\nNameError: ",
            ResumeFailure::Os => "\nOSError: ",
        };
        CodeExecutionResult {
            return_value: Json::Null,
            stdout: told(stdout, heading, error),
            action_results: self.action_results,
            events: self.events,
            need_approval: None,
            recursive_tokens: self.tokens,
            final_answer: self.final_answer,
            had_error: true,
        }
    }

    /// The result of a step that was interrupted: an answer that code gave before is
    /// not taken.
    pub fn interrupt(self, outcome: ThreadOutcome, stdout: String) -> (r: CodeExecutionResult)
        ensures
            r@ == (CodeResultView {
                need_approval: Some(outcome@),
                final_answer: None,
                ..ended(self@, JsonView::Null, stdout@, false)
            }),
    {
        CodeExecutionResult {
            return_value: Json::Null,
            stdout,
            action_results: self.action_results,
            events: self.events,
            need_approval: Some(outcome),
            recursive_tokens: self.tokens,
            final_answer: None,
            had_error: false,
        }
    }

    /// Counts the tokens that a child thread used.
    pub fn count_tokens(&mut self, more: TokenUsage)
        requires
            old(self)@.tokens.fits(more),
        ensures
            final(self)@ == (RunView { tokens: old(self)@.tokens.plus(more), ..old(self)@ }),
    {
        self.tokens.count(more);
    }
}

/// A call takes a use of a lease only where it is approved; a call that is denied or
/// that needs approval leaves every lease as it was.
pub proof fn only_approved_calls_take_a_use(
    c: ToolCallView,
    d: PolicyView,
    s: Seq<LeaseView>,
    lease: LeaseId,
    now: i128,
)
    ensures
        !(checked(c, d, s, lease, now) is Approved) ==> leases_after_check(d, s, lease, now) == s,
        checked(c, d, s, lease, now) is Approved ==> leases_after_check(d, s, lease, now)
            == s.update(position(s, lease), s[position(s, lease)].consumed()),
{
}

/// An approved call is pending until it ended, and then no longer; the other
/// pending calls are not touched.
pub proof fn approved_call_is_pending_until_it_ended(
    run: RunView,
    c: ToolCallView,
    s: Seq<LeaseView>,
    lease: LeaseId,
    now: i128,
    end: EndView,
    other: u32,
)
    requires
        checked(c, PolicyView::Allow, s, lease, now) is Approved,
        other != c.id,
    ensures
        ({
            let waiting = after_check(run, c, PolicyView::Allow, s, lease, now);
            let done = after_future(waiting, c.id, end);
            &&& waiting.pending.contains_key(c.id)
            &&& !done.pending.contains_key(c.id)
            &&& waiting.pending.contains_key(other) == run.pending.contains_key(other)
            &&& done.pending.contains_key(other) == run.pending.contains_key(other)
            &&& run.pending.contains_key(other) ==> done.pending[other] == run.pending[other]
        }),
{
}

/// Each of the pending calls is answered, once and in order.
pub proof fn each_future_is_answered(
    run: RunView,
    s: Seq<LeaseView>,
    ids: Seq<u32>,
    e: Seq<EndView>,
    i: int,
)
    requires
        ids.len() == e.len(),
        0 <= i < ids.len(),
    ensures
        resolved(run, s, ids, e).2.len() == ids.len(),
        resolved(run, s, ids, e).2[i].0 == ids[i],
    decreases ids.len(),
{
    if i < ids.len() - 1 {
        each_future_is_answered(run, s, ids.drop_last(), e.drop_last(), i);
    } else if ids.len() > 1 {
        each_future_is_answered(run, s, ids.drop_last(), e.drop_last(), 0);
    } else {
        assert(resolved(run, s, ids.drop_last(), e.drop_last()).2.len() == 0);
    }
}

/// Two calls of actions in one step never share a call id.
pub proof fn call_ids_differ(a: u32, b: u32)
    requires
        a != b,
    ensures
        "code_call_"@ + decimal(a as nat) != "code_call_"@ + decimal(b as nat),
{
    decimal_reads_back(a as nat, u32::MAX as nat);
    decimal_reads_back(b as nat, u32::MAX as nat);
    let p = "code_call_"@;
    let x = p + decimal(a as nat);
    let y = p + decimal(b as nat);
    if x == y {
        assert(x.skip(p.len() as int) =~= decimal(a as nat));
        assert(y.skip(p.len() as int) =~= decimal(b as nat));
    }
}

/// A call that a gate pauses gives the use back that it took: every lease is then as
/// it was before the call.
pub proof fn paused_call_gives_its_use_back(
    run: RunView,
    c: ToolCallView,
    s: Seq<LeaseView>,
    lease: LeaseId,
    now: i128,
    g: PauseView,
)
    requires
        checked(c, PolicyView::Allow, s, lease, now) is Approved,
        ({
            let l = s[position(s, lease)];
            l.uses_remaining matches Some(n) ==> (l.max_uses matches Some(m) && n <= m)
        }),
    ensures
        ({
            let waiting = after_check(run, c, PolicyView::Allow, s, lease, now);
            let taken = leases_after_check(PolicyView::Allow, s, lease, now);
            leases_after_future(waiting, taken, c.id, EndView::Tool(ExecView::Paused(g))) == s
        }),
{
    lemma_first_where(s, |l: LeaseView| l.id == lease);
    refund_restores_budget(s, lease, now);
}

/// Code that gives its answer ends with it: the text of what it gave, whole. Nothing else
/// of the step changes but that one more call was made.
pub proof fn final_answers_are_kept(
    run: RunView,
    id: u32,
    value: PyValue,
    kwargs: Seq<(PyKey, PyValue)>,
)
    requires
        run.calls < u32::MAX,
    ensures
        ({
            let (after, step) = at_call(run, id, "FINAL"@, seq![value], kwargs);
            &&& after.final_answer == Some(py_text(value))
            &&& after.calls == run.calls + 1
            &&& after == (RunView {
                final_answer: after.final_answer,
                calls: after.calls,
                ..run
            })
            &&& step == CallStepView::Reply(ReplyView::Return(JsonView::Null))
        }),
        ({
            let (after, step) = at_call(run, id, "FINAL_VAR"@, seq![value], kwargs);
            &&& after.final_answer == Some("[FINAL_VAR: "@ + py_text(value) + "]"@)
            &&& step == CallStepView::Reply(ReplyView::Return(JsonView::Null))
        }),
{
    reveal_strlit("FINAL");
    reveal_strlit("FINAL_VAR");
    assert("FINAL"@.len() != "FINAL_VAR"@.len());
}

/// Questions to the model wait for their answer, and those to a child thread are put to
/// one; each is counted as a call.
pub proof fn questions_are_put(
    run: RunView,
    id: u32,
    args: Seq<PyValue>,
    kwargs: Seq<(PyKey, PyValue)>,
)
    requires
        run.calls < u32::MAX,
    ensures
        at_call(run, id, "llm_query"@, args, kwargs).1 is Query,
        at_call(run, id, "llm_query"@, args, kwargs).0.pending == run.pending.insert(
            id,
            PendingView::Llm,
        ),
        at_call(run, id, "llm_query_batched"@, args, kwargs).1 is QueryBatch,
        at_call(run, id, "llm_query_batched"@, args, kwargs).0.pending == run.pending.insert(
            id,
            PendingView::Llm,
        ),
        at_call(run, id, "rlm_query"@, args, kwargs).1 is Child,
        at_call(run, id, "rlm_query"@, args, kwargs).0.pending == run.pending,
        at_call(run, id, "llm_query"@, args, kwargs).0.calls == run.calls + 1,
        at_call(run, id, "rlm_query"@, args, kwargs).0.calls == run.calls + 1,
{
    lemma_host_names();
}

proof fn lemma_host_names()
    ensures
        "FINAL"@ != "FINAL_VAR"@ && "FINAL"@ != "llm_query"@ && "FINAL"@ != "llm_query_batched"@
            && "FINAL"@ != "rlm_query"@ && "FINAL"@ != "globals"@ && "FINAL"@ != "locals"@,
        "FINAL_VAR"@ != "llm_query"@ && "FINAL_VAR"@ != "llm_query_batched"@ && "FINAL_VAR"@
            != "rlm_query"@ && "FINAL_VAR"@ != "globals"@ && "FINAL_VAR"@ != "locals"@,
        "llm_query"@ != "llm_query_batched"@ && "llm_query"@ != "rlm_query"@ && "llm_query"@
            != "globals"@ && "llm_query"@ != "locals"@,
        "llm_query_batched"@ != "rlm_query"@ && "llm_query_batched"@ != "globals"@
            && "llm_query_batched"@ != "locals"@,
        "rlm_query"@ != "globals"@ && "rlm_query"@ != "locals"@,
{
    reveal_strlit("FINAL");
    reveal_strlit("FINAL_VAR");
    reveal_strlit("llm_query");
    reveal_strlit("llm_query_batched");
    reveal_strlit("rlm_query");
    reveal_strlit("globals");
    reveal_strlit("locals");
    assert("FINAL"@.len() == 5 && "FINAL_VAR"@.len() == 9 && "llm_query"@.len() == 9
        && "llm_query_batched"@.len() == 17 && "rlm_query"@.len() == 9 && "globals"@.len() == 7
        && "locals"@.len() == 6);
    assert("FINAL_VAR"@[0] == 'F' && "llm_query"@[0] == 'l' && "rlm_query"@[0] == 'r');
}

/// Code that asks for the names it may use gets each of them.
pub proof fn known_names_are_told(
    run: RunView,
    id: u32,
    args: Seq<PyValue>,
    kwargs: Seq<(PyKey, PyValue)>,
    i: int,
)
    requires
        0 <= i < run.known.len(),
    ensures
        at_call(run, id, "globals"@, args, kwargs).1 matches CallStepView::Reply(
            ReplyView::Return(JsonView::Object(f)),
        ) && f.len() == run.known.len() && f[i] == (run.known[i], JsonView::Bool(true)),
        at_call(run, id, "locals"@, args, kwargs).1 == at_call(run, id, "globals"@, args, kwargs).1,
{
    lemma_host_names();
}

/// Any other function is an action, called with all its arguments, under an identity that
/// no other call of the step has; a call that is pending already is waited for.
pub proof fn other_functions_are_actions(
    run: RunView,
    id: u32,
    name: Seq<char>,
    args: Seq<PyValue>,
    kwargs: Seq<(PyKey, PyValue)>,
)
    requires
        run.calls < u32::MAX,
        name != "FINAL"@,
        name != "FINAL_VAR"@,
        name != "llm_query"@,
        name != "llm_query_batched"@,
        name != "rlm_query"@,
        name != "globals"@,
        name != "locals"@,
    ensures
        run.pending.contains_key(id) ==> at_call(run, id, name, args, kwargs).1 is Wait,
        !run.pending.contains_key(id) ==> at_call(run, id, name, args, kwargs).1
            == (CallStepView::Tool {
            call_id: "code_call_"@ + decimal((run.calls + 1) as nat),
            params: args_json(args, kwargs),
        }),
        at_call(run, id, name, args, kwargs).0 == (RunView {
            calls: (run.calls + 1) as u32,
            ..run
        }),
{
}

/// A lease serves a call where it is there and valid; otherwise there is an error, which
/// names the capability or the lease.
pub proof fn valid_leases_are_not_exhausted(s: Seq<LeaseView>, id: LeaseId, now: i128, i: int)
    requires
        0 <= i <= s.len(),
        i < s.len() ==> s[i].id == id,
        forall|j: int| 0 <= j < i ==> (#[trigger] s[j]).id != id,
    ensures
        i < s.len() && s[i].valid(now) ==> exhausted(s, id, now) is None,
        i < s.len() && !s[i].valid(now) ==> exhausted(s, id, now) == Some(
            ErrorView::LeaseExpired(s[i].capability_name),
        ),
        i == s.len() ==> exhausted(s, id, now) is Some,
{
    lemma_is_first_where(s, |l: LeaseView| l.id == id, i);
}

/// An action that policy allows runs under a valid lease: it is approved, it is pending
/// with all that it was called with, and one use of its lease is taken and of no other.
pub proof fn allowed_actions_are_approved(
    run: RunView,
    c: ToolCallView,
    s: Seq<LeaseView>,
    lease: LeaseId,
    now: i128,
    i: int,
)
    requires
        0 <= i < s.len(),
        s[i].id == lease,
        s[i].valid(now),
        forall|j: int| 0 <= j < i ==> (#[trigger] s[j]).id != lease,
    ensures
        checked(c, PolicyView::Allow, s, lease, now) is Approved,
        leases_after_check(PolicyView::Allow, s, lease, now) == s.update(i, s[i].consumed()),
        after_check(run, c, PolicyView::Allow, s, lease, now).pending == run.pending.insert(
            c.id,
            PendingView::Tool {
                action_name: c.action_name,
                call_id: c.call_id,
                lease_id: lease,
                parameters: c.params,
                params_summary: c.summary,
            },
        ),
        after_check(run, c, PolicyView::Allow, s, lease, now).events == run.events,
{
    valid_leases_are_not_exhausted(s, lease, now, i);
    lemma_is_first_where(s, |l: LeaseView| l.id == lease, i);
}

/// An action that policy denies fails with the reason, and one that policy puts to
/// approval interrupts the step with what it was called with; both are on record, neither
/// is pending and neither takes a use.
pub proof fn other_actions_do_not_run(
    run: RunView,
    c: ToolCallView,
    reason: Seq<char>,
    s: Seq<LeaseView>,
    lease: LeaseId,
    now: i128,
)
    ensures
        checked(c, PolicyView::Deny(reason), s, lease, now) == PreflightView::Denied(
            ReplyView::Raise { kind: ExcKind::RuntimeError, message: "denied: "@ + reason },
        ),
        checked(
            c,
            PolicyView::RequireApproval(reason),
            s,
            lease,
            now,
        ) matches PreflightView::GatePaused(
            OutcomeView::GatePaused {
                gate_name,
                action_name,
                call_id,
                parameters,
                resume_kind,
                resume_output,
            },
        ) && gate_name == "approval"@ && action_name == c.action_name && call_id == c.call_id
            && parameters == c.params && resume_kind == ResumeView::Approval(true)
            && resume_output is None,
        after_check(run, c, PolicyView::Deny(reason), s, lease, now).pending == run.pending,
        after_check(run, c, PolicyView::RequireApproval(reason), s, lease, now).pending
            == run.pending,
        after_check(run, c, PolicyView::Deny(reason), s, lease, now).events.last()
            == (EventView::ActionFailed {
            step_id: run.step,
            action_name: c.action_name,
            call_id: c.call_id,
            error: reason,
            params_summary: None,
        }),
        after_check(run, c, PolicyView::RequireApproval(reason), s, lease, now).events.last()
            is ApprovalRequested,
        leases_after_check(PolicyView::Deny(reason), s, lease, now) == s,
        leases_after_check(PolicyView::RequireApproval(reason), s, lease, now) == s,
{
}

/// Code is answered with what the action returned, as it is; the result is taken in, and
/// the event says whether it reports an error.
pub proof fn outputs_are_answered(
    run: RunView,
    id: u32,
    r: ResultView,
    name: Seq<char>,
    call_id: Seq<char>,
    lease_id: LeaseId,
    parameters: JsonView,
    summary: Option<Seq<char>>,
)
    requires
        run.pending.contains_key(id),
        run.pending[id] == (PendingView::Tool {
            action_name: name,
            call_id,
            lease_id,
            parameters,
            params_summary: summary,
        }),
    ensures
        future_reply(run, id, EndView::Tool(ExecView::Done(r))) == ReplyView::Return(r.output),
        after_future(run, id, EndView::Tool(ExecView::Done(r))).action_results
            == run.action_results.push(r),
        !r.is_error ==> after_future(run, id, EndView::Tool(ExecView::Done(r))).events
            == run.events.push(
            EventView::ActionExecuted {
                step_id: run.step,
                action_name: name,
                call_id,
                duration_ms: r.duration_ms,
                params_summary: summary,
            },
        ),
        r.is_error ==> after_future(run, id, EndView::Tool(ExecView::Done(r))).events.last()
            is ActionFailed,
        after_future(run, id, EndView::Tool(ExecView::Done(r))).tokens == run.tokens,
        after_future(run, id, EndView::Tool(ExecView::Done(r))).final_answer == run.final_answer,
{
}

/// An action that could not be run raises its error in the code, and leaves an error result
/// and an event with it; the answer of the model is handed to the code as it is, and its
/// tokens are counted.
pub proof fn other_ends_are_answered(
    run: RunView,
    id: u32,
    e: Seq<char>,
    reply: ReplyView,
    t: TokenUsage,
    name: Seq<char>,
    call_id: Seq<char>,
    lease_id: LeaseId,
    parameters: JsonView,
    summary: Option<Seq<char>>,
)
    requires
        run.pending.contains_key(id),
    ensures
        future_reply(run, id, EndView::Tool(ExecView::Failed(e))) == (ReplyView::Raise {
            kind: ExcKind::RuntimeError,
            message: e,
        }),
        run.pending[id] == (PendingView::Tool {
            action_name: name,
            call_id,
            lease_id,
            parameters,
            params_summary: summary,
        }) ==> ({
            let after = after_future(run, id, EndView::Tool(ExecView::Failed(e)));
            &&& after.action_results.len() == run.action_results.len() + 1
            &&& after.action_results.last().is_error
            &&& after.action_results.last().call_id == call_id
            &&& after.action_results.last().action_name == name
            &&& after.action_results.last().output == JsonView::Object(
                seq![("error"@, JsonView::Str(e))],
            )
            &&& after.events == run.events.push(
                EventView::ActionFailed {
                    step_id: run.step,
                    action_name: name,
                    call_id,
                    error: e,
                    params_summary: summary,
                },
            )
        }),
        future_reply(run, id, EndView::Llm(reply, t)) == reply,
        run.pending[id] is Llm ==> after_future(run, id, EndView::Llm(reply, t)).tokens
            == run.tokens.plus(t),
        future_reply(run, id, EndView::LlmLost(e)) is Raise,
        future_reply(run, id, EndView::ToolLost(e)) is Raise,
{
}

proof fn lemma_other_pending_stay(
    run: RunView,
    s: Seq<LeaseView>,
    ids: Seq<u32>,
    e: Seq<EndView>,
    id: u32,
)
    requires
        ids.len() == e.len(),
        forall|k: int| 0 <= k < ids.len() ==> (#[trigger] ids[k]) != id,
    ensures
        resolved(run, s, ids, e).0.pending.contains_key(id) == run.pending.contains_key(id),
        run.pending.contains_key(id) ==> resolved(run, s, ids, e).0.pending[id] == run.pending[id],
    decreases ids.len(),
{
    if ids.len() > 0 {
        let r = ids.drop_last();
        assert forall|k: int| 0 <= k < r.len() implies (#[trigger] r[k]) != id by {
            assert(r[k] == ids[k]);
        }
        assert(ids[ids.len() - 1] != id);
        lemma_other_pending_stay(run, s, r, e.drop_last(), id);
    }
}

/// Of several pending calls that ended each is answered with what it returned, in their
/// order, whatever the others returned.
pub proof fn pending_calls_are_answered_in_their_order(
    run: RunView,
    s: Seq<LeaseView>,
    ids: Seq<u32>,
    e: Seq<EndView>,
    i: int,
)
    requires
        ids.len() == e.len(),
        0 <= i < ids.len(),
        run.pending.contains_key(ids[i]),
        forall|k: int| 0 <= k < i ==> (#[trigger] ids[k]) != ids[i],
    ensures
        resolved(run, s, ids, e).2.len() == ids.len(),
        resolved(run, s, ids, e).2[i].0 == ids[i],
        e[i] matches EndView::Tool(ExecView::Done(r)) ==> resolved(run, s, ids, e).2[i].1
            == ReplyView::Return(r.output),
        e[i] matches EndView::Llm(x, t) ==> resolved(run, s, ids, e).2[i].1 == x,
    decreases ids.len(),
{
    let rest = ids.drop_last();
    let n = rest.len() as int;
    each_future_is_answered(run, s, ids, e, i);
    if i < n {
        pending_calls_are_answered_in_their_order(run, s, rest, e.drop_last(), i);
        each_future_is_answered(run, s, rest, e.drop_last(), i);
    } else {
        if n > 0 {
            each_future_is_answered(run, s, rest, e.drop_last(), 0);
        } else {
            assert(resolved(run, s, rest, e.drop_last()).2.len() == 0);
        }
        assert forall|k: int| 0 <= k < rest.len() implies (#[trigger] rest[k]) != ids[i] by {
            assert(rest[k] == ids[k]);
        }
        lemma_other_pending_stay(run, s, rest, e.drop_last(), ids[i]);
    }
}

/// A step that ended gives back everything that was taken in: what it returned and
/// printed, the results and events of its calls, its tokens and its answer.
pub proof fn steps_give_everything_back(
    run: RunView,
    value: JsonView,
    stdout: Seq<char>,
    failed: bool,
)
    ensures
        ({
            let r = ended(run, value, stdout, failed);
            &&& r.return_value == value
            &&& r.stdout == stdout
            &&& r.action_results == run.action_results
            &&& r.events == run.events
            &&& r.recursive_tokens == run.tokens
            &&& r.final_answer == run.final_answer
            &&& r.had_error == failed
            &&& r.need_approval is None
        }),
        not_begun(stdout).stdout == stdout,
        not_begun(stdout).had_error,
        not_begun(stdout).final_answer is None,
        not_begun(stdout).action_results.len() == 0,
{
}

} // verus!

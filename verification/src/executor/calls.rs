//! How the execution of one action call ends, and what is made of it.

use vstd::prelude::*;

use crate::gate::{ResumeKind, ResumeView};
use crate::json::{
    fields, json_str, json_text, lemma_object_view, one_field, render, Json, JsonView,
};
use crate::text::{opt_text, str_eq};
use crate::types::capability::ActionDef;
use crate::types::event::{opt_value, EventKind, EventView};
use crate::types::ids::StepId;
use crate::types::message::{ActionResult, ResultView};

verus! {

/// A call that a gate paused.
#[derive(Debug, PartialEq, Eq)]
pub struct GatePause {
    pub gate_name: String,
    pub action_name: String,
    pub call_id: String,
    pub parameters: Json,
    pub resume_kind: ResumeKind,
    pub resume_output: Option<Json>,
    /// A summary of the parameters for people.
    pub params_summary: Option<String>,
}

/// What a paused call holds.
pub struct PauseView {
    pub gate_name: Seq<char>,
    pub action_name: Seq<char>,
    pub call_id: Seq<char>,
    pub parameters: JsonView,
    pub resume_kind: ResumeView,
    pub resume_output: Option<JsonView>,
    pub params_summary: Option<Seq<char>>,
}

impl View for GatePause {
    type V = PauseView;

    open spec fn view(&self) -> PauseView {
        PauseView {
            gate_name: self.gate_name@,
            action_name: self.action_name@,
            call_id: self.call_id@,
            parameters: self.parameters@,
            resume_kind: self.resume_kind@,
            resume_output: opt_value(self.resume_output),
            params_summary: opt_text(self.params_summary),
        }
    }
}

/// How the execution of an action ended.
#[derive(Debug, PartialEq, Eq)]
pub enum ExecOutcome {
    /// The action ran. Its result may itself report an error.
    Done(ActionResult),
    /// A gate paused the call before it ended.
    Paused(GatePause),
    /// The action could not be run; the text says why.
    Failed(String),
}

/// What the end of an execution holds.
pub enum ExecView {
    Done(ResultView),
    Paused(PauseView),
    Failed(Seq<char>),
}

impl View for ExecOutcome {
    type V = ExecView;

    open spec fn view(&self) -> ExecView {
        match self {
            ExecOutcome::Done(r) => ExecView::Done(r@),
            ExecOutcome::Paused(p) => ExecView::Paused(p@),
            ExecOutcome::Failed(e) => ExecView::Failed(e@),
        }
    }
}

/// Whether the use that a call took is given back: exactly where a gate paused it.
pub fn interrupted_call_needs_refund(result: &ExecOutcome) -> (r: bool)
    ensures
        r == (result@ is Paused),
{
    match result {
        ExecOutcome::Paused(_) => true,
        _ => false,
    }
}

/// The error that the output of a failed action reports: its `error` text, or all
/// of it as JSON.
pub open spec fn failure_text(output: JsonView) -> Seq<char> {
    match output.str_field("error"@) {
        Some(s) => s,
        None => json_text(output),
    }
}

/// The error that the output of a failed action reports.
pub fn failure_of(output: &Json) -> (r: String)
    ensures
        r@ == failure_text(output@),
{
    match output.str_field("error") {
        Some(s) => s.to_owned(),
        None => render(output),
    }
}

/// Whether "always approve" is offered, where approval is what resumes.
pub open spec fn offers_always(k: ResumeView) -> Option<bool> {
    match k {
        ResumeView::Approval(b) => Some(b),
        _ => None,
    }
}

/// Whether "always approve" is offered, where approval is what resumes.
pub fn allow_always_of(k: &ResumeKind) -> (r: Option<bool>)
    ensures
        r == offers_always(k@),
{
    match k {
        ResumeKind::Approval { allow_always } => Some(*allow_always),
        _ => None,
    }
}

/// An object with an error text.
pub open spec fn error_json(e: Seq<char>) -> JsonView {
    JsonView::Object(seq![("error"@, JsonView::Str(e))])
}

/// An object with an error text.
pub fn error_object(e: &str) -> (r: Json)
    ensures
        r@ == error_json(e@),
{
    one_field("error", json_str(e))
}

/// The event of an action that ran: whether it reports an error decides which.
pub open spec fn ran_event(
    r: ResultView,
    step: StepId,
    name: Seq<char>,
    call_id: Seq<char>,
    summary: Option<Seq<char>>,
) -> EventView {
    if r.is_error {
        EventView::ActionFailed {
            step_id: step,
            action_name: name,
            call_id,
            error: failure_text(r.output),
            params_summary: summary,
        }
    } else {
        EventView::ActionExecuted {
            step_id: step,
            action_name: name,
            call_id,
            duration_ms: r.duration_ms,
            params_summary: summary,
        }
    }
}

/// Makes the event of an action that ran.
pub fn event_of_run(
    r: &ActionResult,
    step: StepId,
    name: &str,
    call_id: &str,
    summary: Option<String>,
) -> (e: EventKind)
    ensures
        e@ == ran_event(r@, step, name@, call_id@, opt_text(summary)),
{
    if r.is_error {
        EventKind::ActionFailed {
            step_id: step,
            action_name: name.to_owned(),
            call_id: call_id.to_owned(),
            error: failure_of(&r.output),
            params_summary: summary,
        }
    } else {
        EventKind::ActionExecuted {
            step_id: step,
            action_name: name.to_owned(),
            call_id: call_id.to_owned(),
            duration_ms: r.duration_ms,
            params_summary: summary,
        }
    }
}

/// The event of a call that a gate paused, for the action and call named here.
pub open spec fn paused_event(
    p: PauseView,
    name: Seq<char>,
    call_id: Seq<char>,
    parameters: JsonView,
    summary: Option<Seq<char>>,
) -> EventView {
    EventView::ApprovalRequested {
        action_name: name,
        call_id,
        parameters: Some(parameters),
        description: None,
        allow_always: offers_always(p.resume_kind),
        gate_name: Some(p.gate_name),
        params_summary: summary,
    }
}

/// Makes the event of a call that a gate paused.
pub fn event_of_pause(
    p: &GatePause,
    name: &str,
    call_id: &str,
    parameters: &Json,
    summary: Option<String>,
) -> (e: EventKind)
    ensures
        e@ == paused_event(p@, name@, call_id@, parameters@, opt_text(summary)),
{
    EventKind::ApprovalRequested {
        action_name: name.to_owned(),
        call_id: call_id.to_owned(),
        parameters: Some(parameters.clone()),
        description: None,
        allow_always: allow_always_of(&p.resume_kind),
        gate_name: Some(p.gate_name.clone()),
        params_summary: summary,
    }
}

/// The event of a call that failed before it ran.
pub open spec fn failed_event(
    step: StepId,
    name: Seq<char>,
    call_id: Seq<char>,
    error: Seq<char>,
    summary: Option<Seq<char>>,
) -> EventView {
    EventView::ActionFailed {
        step_id: step,
        action_name: name,
        call_id,
        error,
        params_summary: summary,
    }
}

/// Makes the event of a call that failed before it ran.
pub fn event_of_failure(
    step: StepId,
    name: &str,
    call_id: &str,
    error: String,
    summary: Option<String>,
) -> (e: EventKind)
    ensures
        e@ == failed_event(step, name@, call_id@, error@, opt_text(summary)),
{
    EventKind::ActionFailed {
        step_id: step,
        action_name: name.to_owned(),
        call_id: call_id.to_owned(),
        error,
        params_summary: summary,
    }
}

/// The event of a call that policy put to approval.
pub open spec fn approval_event(
    name: Seq<char>,
    call_id: Seq<char>,
    parameters: JsonView,
    summary: Option<Seq<char>>,
) -> EventView {
    EventView::ApprovalRequested {
        action_name: name,
        call_id,
        parameters: Some(parameters),
        description: None,
        allow_always: None,
        gate_name: None,
        params_summary: summary,
    }
}

/// Makes the event of a call that policy put to approval.
pub fn event_of_approval(
    name: &str,
    call_id: &str,
    parameters: &Json,
    summary: Option<String>,
) -> (e: EventKind)
    ensures
        e@ == approval_event(name@, call_id@, parameters@, opt_text(summary)),
{
    EventKind::ApprovalRequested {
        action_name: name.to_owned(),
        call_id: call_id.to_owned(),
        parameters: Some(parameters.clone()),
        description: None,
        allow_always: None,
        gate_name: None,
        params_summary: summary,
    }
}

/// An optional JSON value, null where there is none.
pub open spec fn or_null(o: Option<JsonView>) -> JsonView {
    match o {
        Some(j) => j,
        None => JsonView::Null,
    }
}

/// An optional JSON value, null where there is none.
pub fn value_or_null(o: &Option<Json>) -> (r: Json)
    ensures
        r@ == or_null(opt_value(*o)),
{
    match o {
        Some(j) => j.clone(),
        None => Json::Null,
    }
}

/// An object made of these fields.
pub fn object(v: Vec<(String, Json)>) -> (r: Json)
    ensures
        r@ == JsonView::Object(fields(v@)),
{
    proof {
        lemma_object_view(v);
    }
    Json::Object(v)
}

/// The definition of an action among those that are offered: the first of its name.
pub open spec fn definition(actions: Seq<ActionDef>, name: Seq<char>) -> Option<ActionDef>
    decreases actions.len(),
{
    if actions.len() == 0 {
        None
    } else if actions.first().name@ == name {
        Some(actions.first())
    } else {
        definition(actions.drop_first(), name)
    }
}

/// Looks for the definition of an action among those that are offered.
pub fn find_definition<'a>(actions: &'a Vec<ActionDef>, name: &str) -> (r: Option<&'a ActionDef>)
    ensures
        match r {
            Some(a) => definition(actions@, name@) == Some(*a),
            None => definition(actions@, name@) is None,
        },
{
    let mut i: usize = 0;
    assert(actions@.skip(0) =~= actions@);
    while i < actions.len()
        invariant
            i <= actions@.len(),
            definition(actions@.skip(i as int), name@) == definition(actions@, name@),
        decreases actions@.len() - i,
    {
        assert(actions@.skip(i as int).first() == actions@[i as int]);
        assert(actions@.skip(i as int).drop_first() =~= actions@.skip(i + 1));
        if str_eq(actions[i].name.as_str(), name) {
            return Some(&actions[i]);
        }
        i = i + 1;
    }
    None
}

/// The error of a failed action is the text under `error` where there is one, and
/// otherwise all of its output.
pub proof fn failures_tell_their_error(output: JsonView)
    ensures
        output.get("error"@) matches Some(JsonView::Str(s)) ==> failure_text(output) == s,
        !(output.get("error"@) matches Some(JsonView::Str(s))) ==> failure_text(output)
            == json_text(output),
{
}

/// The text of an error comes back out of the object that holds it.
pub proof fn error_texts_come_back(e: Seq<char>)
    ensures
        failure_text(error_json(e)) == e,
        error_json(e).get("error"@) == Some(JsonView::Str(e)),
{
}

/// The event of a call names the call and its action, and whether it failed is what its
/// result says.
pub proof fn events_name_their_call(
    r: ResultView,
    p: PauseView,
    step: StepId,
    name: Seq<char>,
    call_id: Seq<char>,
    parameters: JsonView,
    e: Seq<char>,
    summary: Option<Seq<char>>,
)
    ensures
        !r.is_error ==> ran_event(r, step, name, call_id, summary) == (EventView::ActionExecuted {
            step_id: step,
            action_name: name,
            call_id,
            duration_ms: r.duration_ms,
            params_summary: summary,
        }),
        r.is_error ==> (ran_event(r, step, name, call_id, summary) matches EventView::ActionFailed {
            step_id,
            action_name: a,
            call_id: c,
            error,
            params_summary,
        } && step_id == step && a == name && c == call_id && error == failure_text(r.output)
            && params_summary == summary),
        failed_event(step, name, call_id, e, summary) == (EventView::ActionFailed {
            step_id: step,
            action_name: name,
            call_id,
            error: e,
            params_summary: summary,
        }),
        paused_event(p, name, call_id, parameters, summary) matches EventView::ApprovalRequested {
            action_name: a,
            call_id: c,
            parameters: q,
            description,
            allow_always,
            gate_name,
            params_summary,
        } && a == name && c == call_id && q == Some(parameters) && description is None
            && gate_name == Some(p.gate_name) && params_summary == summary && (
        p.resume_kind matches ResumeView::Approval(b) ==> allow_always == Some(b)) && (!(
        p.resume_kind is Approval) ==> allow_always is None),
        approval_event(name, call_id, parameters, summary) matches EventView::ApprovalRequested {
            action_name: a,
            call_id: c,
            parameters: q,
            description,
            allow_always,
            gate_name,
            params_summary,
        } && a == name && c == call_id && q == Some(parameters) && description is None
            && allow_always is None && gate_name is None && params_summary == summary,
{
}

/// The definition of an action is the first that has its name, wherever it stands.
pub proof fn definitions_are_found(actions: Seq<ActionDef>, name: Seq<char>, i: int)
    requires
        0 <= i <= actions.len(),
        i < actions.len() ==> actions[i].name@ == name,
        forall|j: int| 0 <= j < i ==> (#[trigger] actions[j]).name@ != name,
    ensures
        i < actions.len() ==> definition(actions, name) == Some(actions[i]),
        i == actions.len() ==> definition(actions, name) is None,
    decreases i,
{
    if i > 0 {
        let r = actions.drop_first();
        assert(actions[0].name@ != name);
        assert forall|j: int| 0 <= j < i - 1 implies (#[trigger] r[j]).name@ != name by {
            assert(r[j] == actions[j + 1]);
        }
        definitions_are_found(r, name, i - 1);
    }
}

} // verus!

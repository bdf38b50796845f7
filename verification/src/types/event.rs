//! Events of a thread, and how its execution ends.

use vstd::prelude::*;

use crate::gate::{ResumeKind, ResumeView};
use crate::json::{Json, JsonView};
use crate::text::{clone_opt, clone_strings, opt_text, texts};
use crate::types::ids::{StepId, ThreadId};
use crate::types::thread::ThreadState;

verus! {

/// What happened.
#[allow(inconsistent_fields)]
#[derive(Debug, PartialEq, Eq)]
pub enum EventKind {
    StateChanged { from: ThreadState, to: ThreadState, reason: Option<String> },
    StepStarted { step_id: StepId },
    StepCompleted { step_id: StepId, input_tokens: u64, output_tokens: u64 },
    ActionExecuted {
        step_id: StepId,
        action_name: String,
        call_id: String,
        duration_ms: u64,
        params_summary: Option<String>,
    },
    ActionFailed {
        step_id: StepId,
        action_name: String,
        call_id: String,
        error: String,
        params_summary: Option<String>,
    },
    ApprovalRequested {
        action_name: String,
        call_id: String,
        parameters: Option<Json>,
        description: Option<String>,
        allow_always: Option<bool>,
        gate_name: Option<String>,
        params_summary: Option<String>,
    },
    SkillActivated { skill_names: Vec<String> },
    OrchestratorRollback { from_version: u64, to_version: u64, reason: String },
}

/// What an event kind holds.
#[allow(inconsistent_fields)]
pub enum EventView {
    StateChanged { from: ThreadState, to: ThreadState, reason: Option<Seq<char>> },
    StepStarted { step_id: StepId },
    StepCompleted { step_id: StepId, input_tokens: u64, output_tokens: u64 },
    ActionExecuted {
        step_id: StepId,
        action_name: Seq<char>,
        call_id: Seq<char>,
        duration_ms: u64,
        params_summary: Option<Seq<char>>,
    },
    ActionFailed {
        step_id: StepId,
        action_name: Seq<char>,
        call_id: Seq<char>,
        error: Seq<char>,
        params_summary: Option<Seq<char>>,
    },
    ApprovalRequested {
        action_name: Seq<char>,
        call_id: Seq<char>,
        parameters: Option<JsonView>,
        description: Option<Seq<char>>,
        allow_always: Option<bool>,
        gate_name: Option<Seq<char>>,
        params_summary: Option<Seq<char>>,
    },
    SkillActivated { skill_names: Seq<Seq<char>> },
    OrchestratorRollback { from_version: u64, to_version: u64, reason: Seq<char> },
}

/// What an optional JSON value holds.
pub open spec fn opt_value(o: Option<Json>) -> Option<JsonView> {
    match o {
        Some(j) => Some(j@),
        None => None,
    }
}

/// Copies an optional JSON value.
pub fn clone_opt_value(o: &Option<Json>) -> (r: Option<Json>)
    ensures
        opt_value(r) == opt_value(*o),
{
    match o {
        Some(j) => Some(j.clone()),
        None => None,
    }
}

impl View for EventKind {
    type V = EventView;

    open spec fn view(&self) -> EventView {
        match self {
            EventKind::StateChanged { from, to, reason } => EventView::StateChanged {
                from: *from,
                to: *to,
                reason: opt_text(*reason),
            },
            EventKind::StepStarted { step_id } => EventView::StepStarted { step_id: *step_id },
            EventKind::StepCompleted { step_id, input_tokens, output_tokens } =>
                EventView::StepCompleted {
                step_id: *step_id,
                input_tokens: *input_tokens,
                output_tokens: *output_tokens,
            },
            EventKind::ActionExecuted {
                step_id,
                action_name,
                call_id,
                duration_ms,
                params_summary,
            } => EventView::ActionExecuted {
                step_id: *step_id,
                action_name: action_name@,
                call_id: call_id@,
                duration_ms: *duration_ms,
                params_summary: opt_text(*params_summary),
            },
            EventKind::ActionFailed { step_id, action_name, call_id, error, params_summary } =>
                EventView::ActionFailed {
                step_id: *step_id,
                action_name: action_name@,
                call_id: call_id@,
                error: error@,
                params_summary: opt_text(*params_summary),
            },
            EventKind::ApprovalRequested {
                action_name,
                call_id,
                parameters,
                description,
                allow_always,
                gate_name,
                params_summary,
            } => EventView::ApprovalRequested {
                action_name: action_name@,
                call_id: call_id@,
                parameters: opt_value(*parameters),
                description: opt_text(*description),
                allow_always: *allow_always,
                gate_name: opt_text(*gate_name),
                params_summary: opt_text(*params_summary),
            },
            EventKind::SkillActivated { skill_names } => EventView::SkillActivated {
                skill_names: texts(skill_names@),
            },
            EventKind::OrchestratorRollback { from_version, to_version, reason } =>
                EventView::OrchestratorRollback {
                from_version: *from_version,
                to_version: *to_version,
                reason: reason@,
            },
        }
    }
}

impl Clone for EventKind {
    fn clone(&self) -> (r: EventKind)
        ensures
            r@ == self@,
    {
        match self {
            EventKind::StateChanged { from, to, reason } => EventKind::StateChanged {
                from: *from,
                to: *to,
                reason: clone_opt(reason),
            },
            EventKind::StepStarted { step_id } => EventKind::StepStarted { step_id: *step_id },
            EventKind::StepCompleted { step_id, input_tokens, output_tokens } =>
                EventKind::StepCompleted {
                step_id: *step_id,
                input_tokens: *input_tokens,
                output_tokens: *output_tokens,
            },
            EventKind::ActionExecuted {
                step_id,
                action_name,
                call_id,
                duration_ms,
                params_summary,
            } => EventKind::ActionExecuted {
                step_id: *step_id,
                action_name: action_name.clone(),
                call_id: call_id.clone(),
                duration_ms: *duration_ms,
                params_summary: clone_opt(params_summary),
            },
            EventKind::ActionFailed { step_id, action_name, call_id, error, params_summary } =>
                EventKind::ActionFailed {
                step_id: *step_id,
                action_name: action_name.clone(),
                call_id: call_id.clone(),
                error: error.clone(),
                params_summary: clone_opt(params_summary),
            },
            EventKind::ApprovalRequested {
                action_name,
                call_id,
                parameters,
                description,
                allow_always,
                gate_name,
                params_summary,
            } => EventKind::ApprovalRequested {
                action_name: action_name.clone(),
                call_id: call_id.clone(),
                parameters: clone_opt_value(parameters),
                description: clone_opt(description),
                allow_always: *allow_always,
                gate_name: clone_opt(gate_name),
                params_summary: clone_opt(params_summary),
            },
            EventKind::SkillActivated { skill_names } => EventKind::SkillActivated {
                skill_names: clone_strings(skill_names),
            },
            EventKind::OrchestratorRollback { from_version, to_version, reason } =>
                EventKind::OrchestratorRollback {
                from_version: *from_version,
                to_version: *to_version,
                reason: reason.clone(),
            },
        }
    }
}

/// What a list of event kinds holds.
pub open spec fn event_views(v: Seq<EventKind>) -> Seq<EventView> {
    v.map_values(|e: EventKind| e@)
}

/// An event of a thread.
#[derive(Debug, PartialEq, Eq)]
pub struct ThreadEvent {
    pub thread_id: ThreadId,
    pub kind: EventKind,
    pub timestamp: i128,
}

/// What an event holds.
pub struct ThreadEventView {
    pub thread_id: ThreadId,
    pub kind: EventView,
    pub timestamp: i128,
}

impl View for ThreadEvent {
    type V = ThreadEventView;

    open spec fn view(&self) -> ThreadEventView {
        ThreadEventView {
            thread_id: self.thread_id,
            kind: self.kind@,
            timestamp: self.timestamp,
        }
    }
}

/// What a list of events holds.
pub open spec fn thread_event_views(v: Seq<ThreadEvent>) -> Seq<ThreadEventView> {
    v.map_values(|e: ThreadEvent| e@)
}

/// How the execution of a thread ends.
#[derive(Debug, PartialEq, Eq)]
pub enum ThreadOutcome {
    Completed { response: Option<String> },
    Stopped,
    MaxIterations,
    Failed { error: String },
    GatePaused {
        gate_name: String,
        action_name: String,
        call_id: String,
        parameters: Json,
        resume_kind: ResumeKind,
        resume_output: Option<Json>,
    },
}

/// What an outcome holds.
pub enum OutcomeView {
    Completed { response: Option<Seq<char>> },
    Stopped,
    MaxIterations,
    Failed { error: Seq<char> },
    GatePaused {
        gate_name: Seq<char>,
        action_name: Seq<char>,
        call_id: Seq<char>,
        parameters: JsonView,
        resume_kind: ResumeView,
        resume_output: Option<JsonView>,
    },
}

impl View for ThreadOutcome {
    type V = OutcomeView;

    open spec fn view(&self) -> OutcomeView {
        match self {
            ThreadOutcome::Completed { response } => OutcomeView::Completed {
                response: opt_text(*response),
            },
            ThreadOutcome::Stopped => OutcomeView::Stopped,
            ThreadOutcome::MaxIterations => OutcomeView::MaxIterations,
            ThreadOutcome::Failed { error } => OutcomeView::Failed { error: error@ },
            ThreadOutcome::GatePaused {
                gate_name,
                action_name,
                call_id,
                parameters,
                resume_kind,
                resume_output,
            } => OutcomeView::GatePaused {
                gate_name: gate_name@,
                action_name: action_name@,
                call_id: call_id@,
                parameters: parameters@,
                resume_kind: resume_kind@,
                resume_output: opt_value(*resume_output),
            },
        }
    }
}

} // verus!

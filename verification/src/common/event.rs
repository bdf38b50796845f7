//! Events of the application, as they are streamed to its clients.

use vstd::prelude::*;

use crate::json::{values, Json, JsonView};

verus! {

/// A step in a report on the progress of a plan.
#[derive(Debug, PartialEq, Eq)]
pub struct PlanStepDto {
    pub index: usize,
    pub title: String,
    /// One of "pending", "in_progress", "completed", "failed".
    pub status: String,
    pub result: Option<String>,
}

/// Why a tool was chosen.
#[derive(Debug, PartialEq, Eq)]
pub struct ToolDecisionDto {
    pub tool_name: String,
    pub rationale: String,
}

/// What a tool decision holds.
pub struct ToolDecisionView {
    pub tool_name: Seq<char>,
    pub rationale: Seq<char>,
}

impl View for ToolDecisionDto {
    type V = ToolDecisionView;

    open spec fn view(&self) -> ToolDecisionView {
        ToolDecisionView { tool_name: self.tool_name@, rationale: self.rationale@ }
    }
}

/// What a list of tool decisions holds.
pub open spec fn decision_views(v: Seq<ToolDecisionDto>) -> Seq<ToolDecisionView> {
    v.map_values(|d: ToolDecisionDto| d@)
}

/// The decision that a JSON value writes: an object with the texts of both fields.
pub open spec fn decision_of(j: JsonView) -> Option<ToolDecisionView> {
    match (j.str_field("tool_name"@), j.str_field("rationale"@)) {
        (Some(tool_name), Some(rationale)) => Some(ToolDecisionView { tool_name, rationale }),
        _ => None,
    }
}

/// The decisions that a list of JSON values writes; values that write none are
/// left out.
pub open spec fn decisions_of(v: Seq<JsonView>) -> Seq<ToolDecisionView>
    decreases v.len(),
{
    if v.len() == 0 {
        Seq::empty()
    } else {
        match decision_of(v.last()) {
            Some(d) => decisions_of(v.drop_last()).push(d),
            None => decisions_of(v.drop_last()),
        }
    }
}

impl ToolDecisionDto {
    /// Reads a list of tool decisions from a JSON array. A value that is no array
    /// holds none.
    pub fn from_json_array(value: &Json) -> (r: Vec<ToolDecisionDto>)
        ensures
            decision_views(r@) == (match value@ {
                JsonView::Array(v) => decisions_of(v),
                _ => Seq::empty(),
            }),
    {
        let mut out: Vec<ToolDecisionDto> = Vec::new();
        assert(decision_views(out@) =~= Seq::<ToolDecisionView>::empty());
        if let Some(items) = value.as_array() {
            let ghost all = values(items@);
            let mut i: usize = 0;
            assert(all.take(0) =~= Seq::<JsonView>::empty());
            while i < items.len()
                invariant
                    i <= items@.len(),
                    all == values(items@),
                    decision_views(out@) == decisions_of(all.take(i as int)),
                decreases items@.len() - i,
            {
                assert(all.take(i + 1).drop_last() =~= all.take(i as int));
                assert(all.take(i + 1).last() == items@[i as int]@);
                let ghost before = out@;
                if let (Some(t), Some(why)) = (
                    items[i].str_field("tool_name"),
                    items[i].str_field("rationale"),
                ) {
                    let d = ToolDecisionDto {
                        tool_name: t.to_owned(),
                        rationale: why.to_owned(),
                    };
                    let ghost v = d@;
                    out.push(d);
                    assert(decision_views(out@) =~= decision_views(before).push(v));
                }
                i = i + 1;
            }
            assert(all.take(all.len() as int) =~= all);
        }
        out
    }
}

/// An event of the application.
#[allow(inconsistent_fields)]
#[derive(Debug, PartialEq, Eq)]
pub enum AppEvent {
    Response { content: String, thread_id: String },
    Thinking {
        message: String,
        thread_id: Option<String>,
    },
    ToolStarted {
        name: String,
        thread_id: Option<String>,
    },
    ToolCompleted {
        name: String,
        success: bool,
        error: Option<String>,
        parameters: Option<String>,
        thread_id: Option<String>,
    },
    ToolResult {
        name: String,
        preview: String,
        thread_id: Option<String>,
    },
    StreamChunk {
        content: String,
        thread_id: Option<String>,
    },
    Status {
        message: String,
        thread_id: Option<String>,
    },
    JobStarted {
        job_id: String,
        title: String,
        browse_url: String,
    },
    ApprovalNeeded {
        request_id: String,
        tool_name: String,
        description: String,
        parameters: String,
        thread_id: Option<String>,
        /// Whether the "always" auto-approve option should be shown.
        allow_always: bool,
    },
    AuthRequired {
        extension_name: String,
        instructions: Option<String>,
        auth_url: Option<String>,
        setup_url: Option<String>,
        thread_id: Option<String>,
    },
    AuthCompleted {
        extension_name: String,
        success: bool,
        message: String,
        thread_id: Option<String>,
    },
    GateRequired {
        request_id: String,
        gate_name: String,
        tool_name: String,
        description: String,
        parameters: String,
        resume_kind: Json,
        thread_id: Option<String>,
    },
    GateResolved {
        request_id: String,
        gate_name: String,
        tool_name: String,
        resolution: String,
        message: String,
        thread_id: Option<String>,
    },
    Error {
        message: String,
        thread_id: Option<String>,
    },
    Heartbeat,

    // Events of sandbox jobs.
    JobMessage {
        job_id: String,
        role: String,
        content: String,
    },
    JobToolUse {
        job_id: String,
        tool_name: String,
        input: Json,
    },
    JobToolResult {
        job_id: String,
        tool_name: String,
        output: String,
    },
    JobStatus { job_id: String, message: String },
    JobResult {
        job_id: String,
        status: String,
        session_id: Option<String>,
        fallback_deliverable: Option<Json>,
    },

    /// An image was generated by a tool.
    ImageGenerated {
        data_url: String,
        path: Option<String>,
        thread_id: Option<String>,
    },

    /// Suggested follow-up messages for the user.
    Suggestions {
        suggestions: Vec<String>,
        thread_id: Option<String>,
    },

    /// Per-turn token usage and cost summary.
    TurnCost {
        input_tokens: u64,
        output_tokens: u64,
        cost_usd: String,
        thread_id: Option<String>,
    },

    /// Skills activated for a conversation turn.
    SkillActivated {
        skill_names: Vec<String>,
        thread_id: Option<String>,
    },

    /// Extension activation status change (WASM channels).
    ExtensionStatus {
        extension_name: String,
        status: String,
        message: Option<String>,
    },

    /// Agent reasoning update (why it chose specific tools).
    ReasoningUpdate {
        narrative: String,
        decisions: Vec<ToolDecisionDto>,
        thread_id: Option<String>,
    },

    /// Reasoning update for a sandbox job.
    JobReasoning {
        job_id: String,
        narrative: String,
        decisions: Vec<ToolDecisionDto>,
    },

    // Events in the life of engine threads.
    /// A thread changed its state.
    ThreadStateChanged {
        thread_id: String,
        from_state: String,
        to_state: String,
        reason: Option<String>,
    },

    /// A child thread was spawned by a parent thread.
    ChildThreadSpawned {
        parent_thread_id: String,
        child_thread_id: String,
        goal: String,
    },

    /// A mission spawned a new thread.
    MissionThreadSpawned {
        mission_id: String,
        thread_id: String,
        mission_name: String,
    },

    /// The progress of a plan: the full list of its steps, which replaces the one
    /// shown before.
    PlanUpdate {
        /// The identity of the plan.
        plan_id: String,
        /// Plan title.
        title: String,
        /// Overall status: "draft", "approved", "executing", "completed", "failed".
        status: String,
        /// All steps.
        steps: Vec<PlanStepDto>,
        /// The mission, once the plan is approved and executing.
        mission_id: Option<String>,
        /// The thread that the update belongs to.
        thread_id: Option<String>,
    },
}

/// The name under which an event is sent.
pub open spec fn event_name(e: AppEvent) -> Seq<char> {
    match e {
        AppEvent::Response { .. } => "response"@,
        AppEvent::Thinking { .. } => "thinking"@,
        AppEvent::ToolStarted { .. } => "tool_started"@,
        AppEvent::ToolCompleted { .. } => "tool_completed"@,
        AppEvent::ToolResult { .. } => "tool_result"@,
        AppEvent::StreamChunk { .. } => "stream_chunk"@,
        AppEvent::Status { .. } => "status"@,
        AppEvent::JobStarted { .. } => "job_started"@,
        AppEvent::ApprovalNeeded { .. } => "approval_needed"@,
        AppEvent::AuthRequired { .. } => "auth_required"@,
        AppEvent::AuthCompleted { .. } => "auth_completed"@,
        AppEvent::GateRequired { .. } => "gate_required"@,
        AppEvent::GateResolved { .. } => "gate_resolved"@,
        AppEvent::Error { .. } => "error"@,
        AppEvent::Heartbeat => "heartbeat"@,
        AppEvent::JobMessage { .. } => "job_message"@,
        AppEvent::JobToolUse { .. } => "job_tool_use"@,
        AppEvent::JobToolResult { .. } => "job_tool_result"@,
        AppEvent::JobStatus { .. } => "job_status"@,
        AppEvent::JobResult { .. } => "job_result"@,
        AppEvent::ImageGenerated { .. } => "image_generated"@,
        AppEvent::Suggestions { .. } => "suggestions"@,
        AppEvent::TurnCost { .. } => "turn_cost"@,
        AppEvent::SkillActivated { .. } => "skill_activated"@,
        AppEvent::ExtensionStatus { .. } => "extension_status"@,
        AppEvent::ReasoningUpdate { .. } => "reasoning_update"@,
        AppEvent::JobReasoning { .. } => "job_reasoning"@,
        AppEvent::ThreadStateChanged { .. } => "thread_state_changed"@,
        AppEvent::ChildThreadSpawned { .. } => "child_thread_spawned"@,
        AppEvent::MissionThreadSpawned { .. } => "mission_thread_spawned"@,
        AppEvent::PlanUpdate { .. } => "plan_update"@,
    }
}

impl AppEvent {
    /// The name under which the event is sent.
    pub fn event_type(&self) -> (r: &'static str)
        ensures
            r@ == event_name(*self),
    {
        match self {
            AppEvent::Response { .. } => "response",
            AppEvent::Thinking { .. } => "thinking",
            AppEvent::ToolStarted { .. } => "tool_started",
            AppEvent::ToolCompleted { .. } => "tool_completed",
            AppEvent::ToolResult { .. } => "tool_result",
            AppEvent::StreamChunk { .. } => "stream_chunk",
            AppEvent::Status { .. } => "status",
            AppEvent::JobStarted { .. } => "job_started",
            AppEvent::ApprovalNeeded { .. } => "approval_needed",
            AppEvent::AuthRequired { .. } => "auth_required",
            AppEvent::AuthCompleted { .. } => "auth_completed",
            AppEvent::GateRequired { .. } => "gate_required",
            AppEvent::GateResolved { .. } => "gate_resolved",
            AppEvent::Error { .. } => "error",
            AppEvent::Heartbeat => "heartbeat",
            AppEvent::JobMessage { .. } => "job_message",
            AppEvent::JobToolUse { .. } => "job_tool_use",
            AppEvent::JobToolResult { .. } => "job_tool_result",
            AppEvent::JobStatus { .. } => "job_status",
            AppEvent::JobResult { .. } => "job_result",
            AppEvent::ImageGenerated { .. } => "image_generated",
            AppEvent::Suggestions { .. } => "suggestions",
            AppEvent::TurnCost { .. } => "turn_cost",
            AppEvent::SkillActivated { .. } => "skill_activated",
            AppEvent::ExtensionStatus { .. } => "extension_status",
            AppEvent::ReasoningUpdate { .. } => "reasoning_update",
            AppEvent::JobReasoning { .. } => "job_reasoning",
            AppEvent::ThreadStateChanged { .. } => "thread_state_changed",
            AppEvent::ChildThreadSpawned { .. } => "child_thread_spawned",
            AppEvent::MissionThreadSpawned { .. } => "mission_thread_spawned",
            AppEvent::PlanUpdate { .. } => "plan_update",
        }
    }
}

/// Every decision that a list writes is read, in whatever place it stands, and two of them
/// in their order; what writes none is passed over.
pub proof fn decisions_are_read_in_their_order(
    v: Seq<JsonView>,
    i: int,
    j: int,
    a: (Seq<char>, Seq<char>),
    b: (Seq<char>, Seq<char>),
) -> (at: (int, int))
    requires
        0 <= i <= j < v.len(),
        v[i].get("tool_name"@) == Some(JsonView::Str(a.0)),
        v[i].get("rationale"@) == Some(JsonView::Str(a.1)),
        v[j].get("tool_name"@) == Some(JsonView::Str(b.0)),
        v[j].get("rationale"@) == Some(JsonView::Str(b.1)),
    ensures
        0 <= at.0 <= at.1 < decisions_of(v).len() <= v.len(),
        i < j ==> at.0 < at.1,
        decisions_of(v)[at.0].tool_name == a.0,
        decisions_of(v)[at.0].rationale == a.1,
        decisions_of(v)[at.1].tool_name == b.0,
        decisions_of(v)[at.1].rationale == b.1,
    decreases v.len(),
{
    let rest = v.drop_last();
    lemma_decisions_len(rest);
    if j < rest.len() {
        decisions_are_read_in_their_order(rest, i, j, a, b)
    } else if i < rest.len() {
        let at = decisions_are_read_in_their_order(rest, i, i, a, a);
        (at.0, decisions_of(rest).len() as int)
    } else {
        (decisions_of(rest).len() as int, decisions_of(rest).len() as int)
    }
}

proof fn lemma_decisions_len(v: Seq<JsonView>)
    ensures
        decisions_of(v).len() <= v.len(),
    decreases v.len(),
{
    if v.len() > 0 {
        lemma_decisions_len(v.drop_last());
    }
}

/// What does not have both texts writes no decision.
pub proof fn other_values_write_no_decision(j: JsonView)
    requires
        !(j.get("tool_name"@) matches Some(JsonView::Str(_))) || !(
        j.get("rationale"@) matches Some(JsonView::Str(_))),
    ensures
        decision_of(j) is None,
{
}

} // verus!

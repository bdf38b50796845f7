//! Threads: the units of work of the engine.

use vstd::prelude::*;

use crate::json::{fields, lemma_object_view, Json, JsonView};
use crate::text::opt_text;
use crate::types::error::{EngineError, ErrorView};
use crate::types::event::{
    thread_event_views, EventKind, EventView, ThreadEvent, ThreadEventView,
};
use crate::types::ids::{LeaseId, ProjectId, ThreadId};
use crate::types::message::{message_views, MessageView, ThreadMessage};

verus! {

/// What a thread is for.
#[derive(Debug, Clone, Copy, PartialEq, Eq, Structural)]
pub enum ThreadType {
    /// A conversation with a user.
    Foreground,
    /// Research on behalf of another thread.
    Research,
    /// A long-running task without a user.
    Mission,
}

/// Where a thread is in its life.
#[derive(Debug, Clone, Copy, PartialEq, Eq, Structural)]
pub enum ThreadState {
    Created,
    Running,
    Waiting,
    Suspended,
    Completed,
    Failed,
    Done,
}

/// The name of a state.
pub open spec fn state_text(s: ThreadState) -> Seq<char> {
    match s {
        ThreadState::Created => "Created"@,
        ThreadState::Running => "Running"@,
        ThreadState::Waiting => "Waiting"@,
        ThreadState::Suspended => "Suspended"@,
        ThreadState::Completed => "Completed"@,
        ThreadState::Failed => "Failed"@,
        ThreadState::Done => "Done"@,
    }
}

/// Whether a thread may go from one state to another. A running thread may wait,
/// be suspended, complete or fail; a waiting or suspended one may run again or
/// fail; a completed one is done in the end.
pub open spec fn may_follow(from: ThreadState, to: ThreadState) -> bool {
    match from {
        ThreadState::Created => to == ThreadState::Running || to == ThreadState::Failed,
        ThreadState::Running => to == ThreadState::Waiting || to == ThreadState::Suspended || to
            == ThreadState::Completed || to == ThreadState::Failed,
        ThreadState::Waiting => to == ThreadState::Running || to == ThreadState::Failed,
        ThreadState::Suspended => to == ThreadState::Running || to == ThreadState::Failed,
        ThreadState::Completed => to == ThreadState::Done,
        ThreadState::Failed => false,
        ThreadState::Done => false,
    }
}

impl ThreadState {
    /// The name of the state.
    pub fn name(&self) -> (r: &'static str)
        ensures
            r@ == state_text(*self),
    {
        match self {
            ThreadState::Created => "Created",
            ThreadState::Running => "Running",
            ThreadState::Waiting => "Waiting",
            ThreadState::Suspended => "Suspended",
            ThreadState::Completed => "Completed",
            ThreadState::Failed => "Failed",
            ThreadState::Done => "Done",
        }
    }

    /// Whether a thread in this state may go to another.
    pub fn can_transition_to(&self, to: ThreadState) -> (r: bool)
        ensures
            r == may_follow(*self, to),
    {
        match self {
            ThreadState::Created => to == ThreadState::Running || to == ThreadState::Failed,
            ThreadState::Running => to == ThreadState::Waiting || to == ThreadState::Suspended
                || to == ThreadState::Completed || to == ThreadState::Failed,
            ThreadState::Waiting => to == ThreadState::Running || to == ThreadState::Failed,
            ThreadState::Suspended => to == ThreadState::Running || to == ThreadState::Failed,
            ThreadState::Completed => to == ThreadState::Done,
            ThreadState::Failed => false,
            ThreadState::Done => false,
        }
    }
}

/// The limits that a thread runs under. The amounts of money and the compaction
/// threshold are carried as JSON numbers.
#[derive(Debug, PartialEq, Eq)]
pub struct ThreadConfig {
    pub max_iterations: u64,
    pub max_duration_ms: Option<u64>,
    pub max_tokens_total: Option<u64>,
    pub max_budget_usd: Json,
    pub model_context_limit: u64,
    pub enable_compaction: bool,
    pub compaction_threshold: Json,
    pub depth: u32,
    pub max_depth: u32,
    pub max_consecutive_errors: u64,
    pub max_tool_intent_nudges: u64,
    pub enable_tool_intent_nudge: bool,
}

/// What the limits of a thread are.
pub struct ConfigView {
    pub max_iterations: u64,
    pub max_duration_ms: Option<u64>,
    pub max_tokens_total: Option<u64>,
    pub max_budget_usd: JsonView,
    pub model_context_limit: u64,
    pub enable_compaction: bool,
    pub compaction_threshold: JsonView,
    pub depth: u32,
    pub max_depth: u32,
    pub max_consecutive_errors: u64,
    pub max_tool_intent_nudges: u64,
    pub enable_tool_intent_nudge: bool,
}

impl View for ThreadConfig {
    type V = ConfigView;

    open spec fn view(&self) -> ConfigView {
        ConfigView {
            max_iterations: self.max_iterations,
            max_duration_ms: self.max_duration_ms,
            max_tokens_total: self.max_tokens_total,
            max_budget_usd: self.max_budget_usd@,
            model_context_limit: self.model_context_limit,
            enable_compaction: self.enable_compaction,
            compaction_threshold: self.compaction_threshold@,
            depth: self.depth,
            max_depth: self.max_depth,
            max_consecutive_errors: self.max_consecutive_errors,
            max_tool_intent_nudges: self.max_tool_intent_nudges,
            enable_tool_intent_nudge: self.enable_tool_intent_nudge,
        }
    }
}

/// A thread.
#[derive(Debug, PartialEq, Eq)]
pub struct Thread {
    pub id: ThreadId,
    pub parent_id: Option<ThreadId>,
    pub thread_type: ThreadType,
    pub project_id: ProjectId,
    pub user_id: String,
    pub goal: String,
    pub state: ThreadState,
    pub config: ThreadConfig,
    pub metadata: Json,
    /// The transcript that the user sees.
    pub messages: Vec<ThreadMessage>,
    /// The transcript that the execution works on.
    pub internal_messages: Vec<ThreadMessage>,
    pub events: Vec<ThreadEvent>,
    pub capability_leases: Vec<LeaseId>,
    pub step_count: u64,
    pub total_tokens_used: u64,
    pub created_at: i128,
    pub updated_at: i128,
}

/// What a thread holds.
pub struct ThreadView {
    pub id: ThreadId,
    pub parent_id: Option<ThreadId>,
    pub thread_type: ThreadType,
    pub project_id: ProjectId,
    pub user_id: Seq<char>,
    pub goal: Seq<char>,
    pub state: ThreadState,
    pub config: ConfigView,
    pub metadata: JsonView,
    pub messages: Seq<MessageView>,
    pub internal_messages: Seq<MessageView>,
    pub events: Seq<ThreadEventView>,
    pub capability_leases: Seq<LeaseId>,
    pub step_count: u64,
    pub total_tokens_used: u64,
    pub created_at: i128,
    pub updated_at: i128,
}

impl View for Thread {
    type V = ThreadView;

    open spec fn view(&self) -> ThreadView {
        ThreadView {
            id: self.id,
            parent_id: self.parent_id,
            thread_type: self.thread_type,
            project_id: self.project_id,
            user_id: self.user_id@,
            goal: self.goal@,
            state: self.state,
            config: self.config@,
            metadata: self.metadata@,
            messages: message_views(self.messages@),
            internal_messages: message_views(self.internal_messages@),
            events: thread_event_views(self.events@),
            capability_leases: self.capability_leases@,
            step_count: self.step_count,
            total_tokens_used: self.total_tokens_used,
            created_at: self.created_at,
            updated_at: self.updated_at,
        }
    }
}

impl ThreadView {
    /// The thread with an event added at the time `now`.
    pub open spec fn with_event(self, kind: EventView, now: i128) -> ThreadView {
        ThreadView {
            events: self.events.push(
                ThreadEventView { thread_id: self.id, kind, timestamp: now },
            ),
            updated_at: now,
            ..self
        }
    }

    /// The thread with several events added at the time `now`.
    pub open spec fn with_events(self, kinds: Seq<EventView>, now: i128) -> ThreadView
        decreases kinds.len(),
    {
        if kinds.len() == 0 {
            self
        } else {
            self.with_events(kinds.drop_last(), now).with_event(kinds.last(), now)
        }
    }

    /// The thread with a message added at the time `now`.
    pub open spec fn with_message(self, m: MessageView, now: i128) -> ThreadView {
        ThreadView { messages: self.messages.push(m), updated_at: now, ..self }
    }

    /// The thread in another state, with the change on record.
    pub open spec fn in_state(
        self,
        to: ThreadState,
        reason: Option<Seq<char>>,
        now: i128,
    ) -> ThreadView {
        ThreadView {
            state: to,
            ..self.with_event(EventView::StateChanged { from: self.state, to, reason }, now)
        }
    }
}

/// A thread that was just made.
pub open spec fn new_thread(
    id: ThreadId,
    now: i128,
    goal: Seq<char>,
    thread_type: ThreadType,
    project_id: ProjectId,
    user_id: Seq<char>,
    config: ConfigView,
) -> ThreadView {
    ThreadView {
        id,
        parent_id: None,
        thread_type,
        project_id,
        user_id,
        goal,
        state: ThreadState::Created,
        config,
        metadata: JsonView::Object(Seq::empty()),
        messages: Seq::empty(),
        internal_messages: Seq::empty(),
        events: Seq::empty(),
        capability_leases: Seq::empty(),
        step_count: 0,
        total_tokens_used: 0,
        created_at: now,
        updated_at: now,
    }
}

impl Thread {
    /// A thread that is made at the time `now`.
    pub fn new(
        id: ThreadId,
        now: i128,
        goal: &str,
        thread_type: ThreadType,
        project_id: ProjectId,
        user_id: &str,
        config: ThreadConfig,
    ) -> (r: Thread)
        ensures
            r@ == new_thread(id, now, goal@, thread_type, project_id, user_id@, config@),
    {
        let none: Vec<(String, Json)> = Vec::new();
        proof {
            lemma_object_view(none);
            assert(fields(none@) =~= Seq::empty());
        }
        let r = Thread {
            id,
            parent_id: None,
            thread_type,
            project_id,
            user_id: user_id.to_owned(),
            goal: goal.to_owned(),
            state: ThreadState::Created,
            config,
            metadata: Json::Object(none),
            messages: Vec::new(),
            internal_messages: Vec::new(),
            events: Vec::new(),
            capability_leases: Vec::new(),
            step_count: 0,
            total_tokens_used: 0,
            created_at: now,
            updated_at: now,
        };
        assert(r@.messages =~= Seq::empty());
        assert(r@.internal_messages =~= Seq::empty());
        assert(r@.events =~= Seq::empty());
        assert(r@.capability_leases =~= Seq::empty());
        r
    }

    /// The thread, as a child of another.
    pub fn with_parent(self, parent_id: ThreadId) -> (r: Thread)
        ensures
            r@ == (ThreadView { parent_id: Some(parent_id), ..self@ }),
    {
        let mut t = self;
        t.parent_id = Some(parent_id);
        t
    }

    /// Adds an event at the time `now`.
    pub fn add_event(&mut self, kind: EventKind, now: i128)
        ensures
            final(self)@ == old(self)@.with_event(kind@, now),
    {
        let ghost before = self.events@;
        let event = ThreadEvent { thread_id: self.id, kind, timestamp: now };
        let ghost v = event@;
        self.events.push(event);
        self.updated_at = now;
        assert(thread_event_views(self.events@) =~= thread_event_views(before).push(v));
    }

    /// Adds a message at the time `now`.
    pub fn add_message(&mut self, message: ThreadMessage, now: i128)
        ensures
            final(self)@ == old(self)@.with_message(message@, now),
    {
        let ghost before = self.messages@;
        let ghost v = message@;
        self.messages.push(message);
        self.updated_at = now;
        assert(message_views(self.messages@) =~= message_views(before).push(v));
    }

    /// Takes the thread to another state, where it may go there.
    pub fn transition_to(&mut self, to: ThreadState, reason: Option<String>, now: i128) -> (r:
        Result<(), EngineError>)
        ensures
            match r {
                Ok(_) => may_follow(old(self).state, to) && final(self)@ == old(self)@.in_state(
                    to,
                    opt_text(reason),
                    now,
                ),
                Err(e) => !may_follow(old(self).state, to) && final(self)@ == old(self)@ && e@
                    == ErrorView::InvalidTransition(state_text(old(self).state), state_text(to)),
            },
    {
        let from = self.state;
        if from.can_transition_to(to) {
            self.add_event(EventKind::StateChanged { from, to, reason }, now);
            self.state = to;
            Ok(())
        } else {
            Err(
                EngineError::InvalidTransition {
                    from: from.name().to_owned(),
                    to: to.name().to_owned(),
                },
            )
        }
    }
}

/// A thread waits, is suspended or completes only while it runs; it runs from its start,
/// from waiting or from being suspended; it is done only after it completed; it fails from
/// any state but an end; and it never goes back to its start.
pub proof fn states_follow_one_another(from: ThreadState, to: ThreadState)
    ensures
        to == ThreadState::Waiting || to == ThreadState::Suspended || to == ThreadState::Completed
            ==> (may_follow(from, to) <==> from == ThreadState::Running),
        to == ThreadState::Running ==> (may_follow(from, to) <==> from == ThreadState::Created
            || from == ThreadState::Waiting || from == ThreadState::Suspended),
        to == ThreadState::Done ==> (may_follow(from, to) <==> from == ThreadState::Completed),
        to == ThreadState::Failed ==> (may_follow(from, to) <==> from != ThreadState::Completed
            && from != ThreadState::Failed && from != ThreadState::Done),
        to == ThreadState::Created ==> !may_follow(from, to),
{
}

/// A change of state is on record with both states and the reason, and nothing else of a
/// thread changes with it but the time of its last change.
pub proof fn changes_of_state_are_on_record(
    t: ThreadView,
    to: ThreadState,
    reason: Option<Seq<char>>,
    now: i128,
)
    ensures
        ({
            let u = t.in_state(to, reason, now);
            &&& u.state == to
            &&& u.events.len() == t.events.len() + 1
            &&& u.events.drop_last() == t.events
            &&& u.events.last().kind == (EventView::StateChanged { from: t.state, to, reason })
            &&& u.events.last().thread_id == t.id
            &&& u.events.last().timestamp == now
            &&& u.messages == t.messages
            &&& u.internal_messages == t.internal_messages
            &&& u.metadata == t.metadata
            &&& u.capability_leases == t.capability_leases
            &&& u.step_count == t.step_count
            &&& u.total_tokens_used == t.total_tokens_used
        }),
{
    assert(t.in_state(to, reason, now).events.drop_last() =~= t.events);
}

/// Events are put on record all, in their order, after those that were there.
pub proof fn events_are_put_on_record(t: ThreadView, kinds: Seq<EventView>, now: i128)
    ensures
        t.with_events(kinds, now).events.len() == t.events.len() + kinds.len(),
        t.with_events(kinds, now).events.take(t.events.len() as int) == t.events,
        forall|i: int|
            0 <= i < kinds.len() ==> (#[trigger] t.with_events(kinds, now).events[t.events.len()
                + i]).kind == kinds[i],
        t.with_events(kinds, now).state == t.state,
        t.with_events(kinds, now).messages == t.messages,
        t.with_events(kinds, now).metadata == t.metadata,
    decreases kinds.len(),
{
    let u = t.with_events(kinds, now);
    let n = t.events.len() as int;
    if kinds.len() > 0 {
        let rest = kinds.drop_last();
        events_are_put_on_record(t, rest, now);
        let before = t.with_events(rest, now).events;
        assert(u.events.take(n) =~= before.take(n));
        assert forall|i: int| 0 <= i < kinds.len() implies (#[trigger] u.events[n + i]).kind
            == kinds[i] by {
            if i < rest.len() {
                assert(u.events[n + i] == before[n + i]);
                assert(before[n + i].kind == rest[i]);
            }
        }
    } else {
        assert(u.events.take(n) =~= t.events);
    }
}

/// A message is put at the end of the transcript, and nothing that was in it changes.
pub proof fn messages_are_put_at_the_end(t: ThreadView, m: MessageView, now: i128)
    ensures
        t.with_message(m, now).messages == t.messages.push(m),
        t.with_message(m, now).events == t.events,
        t.with_message(m, now).state == t.state,
        t.with_message(m, now).internal_messages == t.internal_messages,
{
}

/// A new thread is for its user and its goal, and has not begun.
pub proof fn new_threads_have_not_begun(
    id: ThreadId,
    now: i128,
    goal: Seq<char>,
    thread_type: ThreadType,
    project_id: ProjectId,
    user_id: Seq<char>,
    config: ConfigView,
)
    ensures
        ({
            let t = new_thread(id, now, goal, thread_type, project_id, user_id, config);
            &&& t.id == id
            &&& t.goal == goal
            &&& t.thread_type == thread_type
            &&& t.project_id == project_id
            &&& t.user_id == user_id
            &&& t.config == config
            &&& t.state == ThreadState::Created
            &&& t.parent_id is None
            &&& t.messages.len() == 0
            &&& t.events.len() == 0
            &&& t.capability_leases.len() == 0
            &&& t.step_count == 0
            &&& t.total_tokens_used == 0
            &&& t.created_at == now
        }),
{
}

} // verus!

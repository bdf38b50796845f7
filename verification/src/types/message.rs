//! Messages, the action calls they carry, and the results of actions.

use vstd::prelude::*;

use crate::json::{Json, JsonView};
use crate::text::{clone_opt, opt_text};

verus! {

/// A call of an action, as a model asks for it.
#[derive(Debug, PartialEq, Eq)]
pub struct ActionCall {
    pub id: String,
    pub action_name: String,
    pub parameters: Json,
}

/// What an action call holds.
pub struct CallView {
    pub id: Seq<char>,
    pub action_name: Seq<char>,
    pub parameters: JsonView,
}

impl View for ActionCall {
    type V = CallView;

    open spec fn view(&self) -> CallView {
        CallView {
            id: self.id@,
            action_name: self.action_name@,
            parameters: self.parameters@,
        }
    }
}

impl Clone for ActionCall {
    fn clone(&self) -> (r: ActionCall)
        ensures
            r@ == self@,
    {
        ActionCall {
            id: self.id.clone(),
            action_name: self.action_name.clone(),
            parameters: self.parameters.clone(),
        }
    }
}

/// What a list of action calls holds.
pub open spec fn call_views(v: Seq<ActionCall>) -> Seq<CallView> {
    v.map_values(|c: ActionCall| c@)
}

/// Copies a list of action calls.
pub fn clone_calls(v: &Vec<ActionCall>) -> (r: Vec<ActionCall>)
    ensures
        call_views(r@) == call_views(v@),
{
    let mut out: Vec<ActionCall> = Vec::new();
    let mut i: usize = 0;
    let ghost all = call_views(v@);
    assert(call_views(out@) =~= all.take(0));
    while i < v.len()
        invariant
            i <= v@.len(),
            all == call_views(v@),
            call_views(out@) == all.take(i as int),
        decreases v@.len() - i,
    {
        let ghost before = out@;
        out.push(v[i].clone());
        assert(call_views(out@) =~= call_views(before).push(all[i as int]));
        assert(all.take(i + 1) =~= all.take(i as int).push(all[i as int]));
        i = i + 1;
    }
    assert(all.take(all.len() as int) =~= all);
    out
}

/// The result of an action.
#[derive(Debug, PartialEq, Eq)]
pub struct ActionResult {
    pub call_id: String,
    pub action_name: String,
    pub output: Json,
    pub is_error: bool,
    pub duration_ms: u64,
}

/// What the result of an action holds.
pub struct ResultView {
    pub call_id: Seq<char>,
    pub action_name: Seq<char>,
    pub output: JsonView,
    pub is_error: bool,
    pub duration_ms: u64,
}

impl View for ActionResult {
    type V = ResultView;

    open spec fn view(&self) -> ResultView {
        ResultView {
            call_id: self.call_id@,
            action_name: self.action_name@,
            output: self.output@,
            is_error: self.is_error,
            duration_ms: self.duration_ms,
        }
    }
}

/// What a list of results holds.
pub open spec fn result_views(v: Seq<ActionResult>) -> Seq<ResultView> {
    v.map_values(|r: ActionResult| r@)
}

/// Who a message is from.
#[derive(Debug, Clone, Copy, PartialEq, Eq, Structural)]
pub enum MessageRole {
    System,
    User,
    Assistant,
    ActionResult,
}

/// The name of a role.
pub open spec fn role_text(r: MessageRole) -> Seq<char> {
    match r {
        MessageRole::System => "System"@,
        MessageRole::User => "User"@,
        MessageRole::Assistant => "Assistant"@,
        MessageRole::ActionResult => "ActionResult"@,
    }
}

impl MessageRole {
    /// The name of the role.
    pub fn name(&self) -> (r: &'static str)
        ensures
            r@ == role_text(*self),
    {
        match self {
            MessageRole::System => "System",
            MessageRole::User => "User",
            MessageRole::Assistant => "Assistant",
            MessageRole::ActionResult => "ActionResult",
        }
    }
}

/// A message of a thread.
#[derive(Debug, PartialEq, Eq)]
pub struct ThreadMessage {
    pub role: MessageRole,
    pub content: String,
    pub action_call_id: Option<String>,
    pub action_name: Option<String>,
    pub action_calls: Option<Vec<ActionCall>>,
}

/// What a message holds.
pub struct MessageView {
    pub role: MessageRole,
    pub content: Seq<char>,
    pub action_call_id: Option<Seq<char>>,
    pub action_name: Option<Seq<char>>,
    pub action_calls: Option<Seq<CallView>>,
}

/// What an optional list of action calls holds.
pub open spec fn opt_calls(o: Option<Vec<ActionCall>>) -> Option<Seq<CallView>> {
    match o {
        Some(v) => Some(call_views(v@)),
        None => None,
    }
}

impl View for ThreadMessage {
    type V = MessageView;

    open spec fn view(&self) -> MessageView {
        MessageView {
            role: self.role,
            content: self.content@,
            action_call_id: opt_text(self.action_call_id),
            action_name: opt_text(self.action_name),
            action_calls: opt_calls(self.action_calls),
        }
    }
}

impl Clone for ThreadMessage {
    fn clone(&self) -> (r: ThreadMessage)
        ensures
            r@ == self@,
    {
        let action_calls = match &self.action_calls {
            Some(v) => Some(clone_calls(v)),
            None => None,
        };
        ThreadMessage {
            role: self.role,
            content: self.content.clone(),
            action_call_id: clone_opt(&self.action_call_id),
            action_name: clone_opt(&self.action_name),
            action_calls,
        }
    }
}

/// A message that is only text.
pub open spec fn plain_message(role: MessageRole, content: Seq<char>) -> MessageView {
    MessageView {
        role,
        content,
        action_call_id: None,
        action_name: None,
        action_calls: None,
    }
}

impl ThreadMessage {
    fn plain(role: MessageRole, content: &str) -> (r: ThreadMessage)
        ensures
            r@ == plain_message(role, content@),
    {
        ThreadMessage {
            role,
            content: content.to_owned(),
            action_call_id: None,
            action_name: None,
            action_calls: None,
        }
    }

    /// A message of the system.
    pub fn system(content: &str) -> (r: ThreadMessage)
        ensures
            r@ == plain_message(MessageRole::System, content@),
    {
        Self::plain(MessageRole::System, content)
    }

    /// A message of the user.
    pub fn user(content: &str) -> (r: ThreadMessage)
        ensures
            r@ == plain_message(MessageRole::User, content@),
    {
        Self::plain(MessageRole::User, content)
    }

    /// A message of the assistant.
    pub fn assistant(content: &str) -> (r: ThreadMessage)
        ensures
            r@ == plain_message(MessageRole::Assistant, content@),
    {
        Self::plain(MessageRole::Assistant, content)
    }

    /// A message of the assistant that calls actions.
    pub fn assistant_with_actions(content: Option<String>, calls: Vec<ActionCall>) -> (r:
        ThreadMessage)
        ensures
            r@ == (MessageView {
                action_calls: Some(call_views(calls@)),
                ..plain_message(
                    MessageRole::Assistant,
                    match content {
                        Some(c) => c@,
                        None => Seq::empty(),
                    },
                )
            }),
    {
        let text = match content {
            Some(c) => c,
            None => String::new(),
        };
        ThreadMessage {
            role: MessageRole::Assistant,
            content: text,
            action_call_id: None,
            action_name: None,
            action_calls: Some(calls),
        }
    }

    /// A message with the result of an action.
    pub fn action_result(call_id: &str, action_name: &str, content: &str) -> (r: ThreadMessage)
        ensures
            r@ == (MessageView {
                action_call_id: Some(call_id@),
                action_name: Some(action_name@),
                ..plain_message(MessageRole::ActionResult, content@)
            }),
    {
        ThreadMessage {
            role: MessageRole::ActionResult,
            content: content.to_owned(),
            action_call_id: Some(call_id.to_owned()),
            action_name: Some(action_name.to_owned()),
            action_calls: None,
        }
    }
}

/// What a list of messages holds.
pub open spec fn message_views(v: Seq<ThreadMessage>) -> Seq<MessageView> {
    v.map_values(|m: ThreadMessage| m@)
}

/// Copies a list of messages.
pub fn clone_messages(v: &Vec<ThreadMessage>) -> (r: Vec<ThreadMessage>)
    ensures
        message_views(r@) == message_views(v@),
{
    let mut out: Vec<ThreadMessage> = Vec::new();
    let mut i: usize = 0;
    let ghost all = message_views(v@);
    assert(message_views(out@) =~= all.take(0));
    while i < v.len()
        invariant
            i <= v@.len(),
            all == message_views(v@),
            message_views(out@) == all.take(i as int),
        decreases v@.len() - i,
    {
        let ghost before = out@;
        out.push(v[i].clone());
        assert(message_views(out@) =~= message_views(before).push(all[i as int]));
        assert(all.take(i + 1) =~= all.take(i as int).push(all[i as int]));
        i = i + 1;
    }
    assert(all.take(all.len() as int) =~= all);
    out
}

/// The name of each role is its own.
pub proof fn roles_have_their_names()
    ensures
        role_text(MessageRole::System) == "System"@,
        role_text(MessageRole::User) == "User"@,
        role_text(MessageRole::Assistant) == "Assistant"@,
        role_text(MessageRole::ActionResult) == "ActionResult"@,
{
}

/// What a message, a call and a result hold is all that their fields hold.
pub proof fn messages_hold_their_fields(m: ThreadMessage, c: ActionCall, r: ActionResult)
    ensures
        m@.role == m.role,
        m@.content == m.content@,
        m@.action_call_id == opt_text(m.action_call_id),
        m@.action_name == opt_text(m.action_name),
        m.action_calls matches Some(v) ==> (m@.action_calls matches Some(w) && w.len() == v@.len()
            && forall|i: int| 0 <= i < v@.len() ==> (#[trigger] w[i]) == v@[i]@),
        m.action_calls is None ==> m@.action_calls is None,
        c@.id == c.id@,
        c@.action_name == c.action_name@,
        c@.parameters == c.parameters@,
        r@.call_id == r.call_id@,
        r@.action_name == r.action_name@,
        r@.output == r.output@,
        r@.is_error == r.is_error,
        r@.duration_ms == r.duration_ms,
{
}

/// A message that is only text holds its role and its text and nothing else.
pub proof fn plain_messages_hold_their_text(role: MessageRole, text: Seq<char>)
    ensures
        plain_message(role, text).role == role,
        plain_message(role, text).content == text,
        plain_message(role, text).action_call_id is None,
        plain_message(role, text).action_name is None,
        plain_message(role, text).action_calls is None,
{
}

/// What lists of messages, calls and results hold is what each of them holds, in order.
pub proof fn lists_hold_their_items(
    m: Seq<ThreadMessage>,
    c: Seq<ActionCall>,
    r: Seq<ActionResult>,
    i: int,
)
    ensures
        message_views(m).len() == m.len(),
        0 <= i < m.len() ==> message_views(m)[i] == m[i]@,
        call_views(c).len() == c.len(),
        0 <= i < c.len() ==> call_views(c)[i] == c[i]@,
        result_views(r).len() == r.len(),
        0 <= i < r.len() ==> result_views(r)[i] == r[i]@,
{
}

} // verus!

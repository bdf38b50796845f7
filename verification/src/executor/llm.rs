//! Calls of the language model.

use vstd::prelude::*;

use crate::json::{Json, JsonView};
use crate::text::opt_text;
use crate::types::message::{call_views, message_views, ActionCall, CallView, MessageView, ThreadMessage};

verus! {

/// The tokens that calls of the model used.
#[derive(Debug, Clone, Copy, PartialEq, Eq, Structural)]
pub struct TokenUsage {
    pub input_tokens: u64,
    pub output_tokens: u64,
}

impl TokenUsage {
    /// No tokens.
    pub fn none() -> (r: TokenUsage)
        ensures
            r == (TokenUsage { input_tokens: 0, output_tokens: 0 }),
    {
        TokenUsage { input_tokens: 0, output_tokens: 0 }
    }

    /// Whether the sum of both can be counted.
    pub open spec fn fits(self, more: TokenUsage) -> bool {
        self.input_tokens + more.input_tokens <= u64::MAX && self.output_tokens
            + more.output_tokens <= u64::MAX
    }

    /// The sum of both.
    pub open spec fn plus(self, more: TokenUsage) -> TokenUsage {
        TokenUsage {
            input_tokens: (self.input_tokens + more.input_tokens) as u64,
            output_tokens: (self.output_tokens + more.output_tokens) as u64,
        }
    }

    /// Counts more tokens.
    pub fn count(&mut self, more: TokenUsage)
        requires
            old(self).fits(more),
        ensures
            *final(self) == old(self).plus(more),
    {
        self.input_tokens = self.input_tokens + more.input_tokens;
        self.output_tokens = self.output_tokens + more.output_tokens;
    }
}

/// What the model answered.
#[derive(Debug, PartialEq, Eq)]
pub enum LlmResponse {
    /// Text.
    Text(String),
    /// Code to run, with the text around it.
    Code { code: String, content: Option<String> },
    /// Calls of actions, with the text around them.
    ActionCalls { calls: Vec<ActionCall>, content: Option<String> },
}

/// What an answer holds.
pub enum ResponseView {
    Text(Seq<char>),
    Code(Seq<char>, Option<Seq<char>>),
    ActionCalls(Seq<CallView>, Option<Seq<char>>),
}

impl View for LlmResponse {
    type V = ResponseView;

    open spec fn view(&self) -> ResponseView {
        match self {
            LlmResponse::Text(t) => ResponseView::Text(t@),
            LlmResponse::Code { code, content } => ResponseView::Code(code@, opt_text(*content)),
            LlmResponse::ActionCalls { calls, content } => ResponseView::ActionCalls(
                call_views(calls@),
                opt_text(*content),
            ),
        }
    }
}

/// The text of an answer, empty where there is none.
pub open spec fn answer_text(r: ResponseView) -> Seq<char> {
    match r {
        ResponseView::Text(t) => t,
        ResponseView::Code(_, c) => match c {
            Some(t) => t,
            None => Seq::empty(),
        },
        ResponseView::ActionCalls(_, c) => match c {
            Some(t) => t,
            None => Seq::empty(),
        },
    }
}

impl LlmResponse {
    /// The text of the answer, empty where there is none.
    pub fn into_text(self) -> (r: String)
        ensures
            r@ == answer_text(self@),
    {
        match self {
            LlmResponse::Text(t) => t,
            LlmResponse::Code { code: _, content } => match content {
                Some(t) => t,
                None => String::new(),
            },
            LlmResponse::ActionCalls { calls: _, content } => match content {
                Some(t) => t,
                None => String::new(),
            },
        }
    }
}

/// What the model is asked.
#[derive(Debug, PartialEq, Eq)]
pub struct LlmRequest {
    pub messages: Vec<ThreadMessage>,
    pub max_tokens: Option<u32>,
    /// The sampling temperature, as a JSON number.
    pub temperature: Option<Json>,
    /// Whether the answer must be text.
    pub force_text: bool,
    pub depth: u32,
}

/// What a request holds.
pub struct LlmRequestView {
    pub messages: Seq<MessageView>,
    pub max_tokens: Option<u32>,
    pub temperature: Option<JsonView>,
    pub force_text: bool,
    pub depth: u32,
}

impl View for LlmRequest {
    type V = LlmRequestView;

    open spec fn view(&self) -> LlmRequestView {
        LlmRequestView {
            messages: message_views(self.messages@),
            max_tokens: self.max_tokens,
            temperature: match self.temperature {
                Some(t) => Some(t@),
                None => None,
            },
            force_text: self.force_text,
            depth: self.depth,
        }
    }
}

/// The tokens of two answers are counted together, those that were read and those that
/// were written each by themselves, in either order.
pub proof fn tokens_are_counted_together(a: TokenUsage, b: TokenUsage)
    requires
        a.input_tokens + b.input_tokens <= u64::MAX,
        a.output_tokens + b.output_tokens <= u64::MAX,
    ensures
        a.fits(b),
        a.plus(b).input_tokens == a.input_tokens + b.input_tokens,
        a.plus(b).output_tokens == a.output_tokens + b.output_tokens,
        a.plus(b) == b.plus(a),
{
}

/// The text of an answer is what the model said, whole, whatever the kind of the answer.
pub proof fn answers_are_taken_whole(t: Seq<char>, r: ResponseView)
    ensures
        r == ResponseView::Text(t) ==> answer_text(r) == t,
        (r matches ResponseView::Code(_, Some(x)) && x == t) ==> answer_text(r) == t,
        (r matches ResponseView::ActionCalls(_, Some(x)) && x == t) ==> answer_text(r) == t,
        (r matches ResponseView::Code(_, None)) ==> answer_text(r).len() == 0,
        (r matches ResponseView::ActionCalls(_, None)) ==> answer_text(r).len() == 0,
{
}

} // verus!

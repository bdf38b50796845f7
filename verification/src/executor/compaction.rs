//! Compaction of a transcript that comes close to the limit of the model.

use vstd::prelude::*;

use crate::executor::llm::{LlmRequest, LlmRequestView, LlmResponse, ResponseView, TokenUsage};
use crate::number::{decimal, u64_to_string};
use crate::text::{chars_of, has_substring, middle_is_found};
use crate::types::message::{
    clone_messages, message_views, plain_message, MessageRole, MessageView, ThreadMessage,
};

verus! {

/// How many characters of text count as a token.
pub const CHARS_PER_TOKEN: usize = 4;

/// How many characters are counted for each message beside its text.
pub const MESSAGE_OVERHEAD: usize = 4;

/// The prompt that asks for a summary.
pub const COMPACTION_PROMPT: &'static str = "Summarize your progress so far in a concise but complete way. Include:\n1. What you have accomplished\n2. Key intermediate results and variable values\n3. What still needs to be done\n4. Any errors encountered and how they were handled\n\nPreserve all information needed to continue the task. Be specific about data values.";

/// The characters that a message is counted with.
pub open spec fn message_size(m: MessageView) -> nat {
    m.content.len() + (match m.action_name {
        Some(n) => n.len(),
        None => 0,
    }) + MESSAGE_OVERHEAD as nat
}

/// The characters that messages are counted with.
pub open spec fn total_size(m: Seq<MessageView>) -> nat
    decreases m.len(),
{
    if m.len() == 0 {
        0
    } else {
        total_size(m.drop_last()) + message_size(m.last())
    }
}

/// The estimate of the tokens of messages: a token for each four characters
/// that are counted, and one for the rest.
pub open spec fn estimated_tokens(m: Seq<MessageView>) -> nat {
    (total_size(m) + 3) / 4
}

proof fn lemma_total_size(m: Seq<MessageView>, i: int)
    requires
        0 <= i <= m.len(),
    ensures
        total_size(m.take(i)) <= total_size(m),
    decreases m.len() - i,
{
    if i < m.len() {
        lemma_total_size(m, i + 1);
        assert(m.take(i + 1).drop_last() =~= m.take(i));
    } else {
        assert(m.take(i) =~= m);
    }
}

/// Estimates the tokens of messages.
pub fn estimate_tokens(messages: &[ThreadMessage]) -> (r: usize)
    requires
        total_size(message_views(messages@)) <= usize::MAX,
    ensures
        r == estimated_tokens(message_views(messages@)),
{
    let ghost all = message_views(messages@);
    let mut total: usize = 0;
    let mut i: usize = 0;
    assert(all.take(0) =~= Seq::<MessageView>::empty());
    while i < messages.len()
        invariant
            i <= messages@.len(),
            all == message_views(messages@),
            total_size(all) <= usize::MAX,
            total == total_size(all.take(i as int)),
        decreases messages@.len() - i,
    {
        proof {
            assert(all.take(i + 1).drop_last() =~= all.take(i as int));
            assert(all.take(i + 1).last() == messages@[i as int]@);
            lemma_total_size(all, i + 1);
        }
        let m = &messages[i];
        let name: usize = match &m.action_name {
            Some(n) => chars_of(n.as_str()).len(),
            None => 0,
        };
        total = total + chars_of(m.content.as_str()).len() + name + MESSAGE_OVERHEAD;
        i = i + 1;
    }
    assert(all.take(all.len() as int) =~= all);
    let whole: usize = total / CHARS_PER_TOKEN;
    if total % CHARS_PER_TOKEN == 0 {
        whole
    } else {
        whole + 1
    }
}

/// Whether a transcript is to be compacted: its estimate exceeds the threshold, given
/// in tokens.
pub fn should_compact(messages: &[ThreadMessage], threshold: usize) -> (r: bool)
    requires
        total_size(message_views(messages@)) <= usize::MAX,
    ensures
        r == (estimated_tokens(message_views(messages@)) > threshold),
{
    estimate_tokens(messages) > threshold
}

/// Makes the request that asks for a summary: all messages, and the prompt.
pub fn compaction_request(messages: &Vec<ThreadMessage>) -> (r: LlmRequest)
    ensures
        r@ == (LlmRequestView {
            messages: message_views(messages@).push(
                plain_message(MessageRole::User, COMPACTION_PROMPT@),
            ),
            max_tokens: None,
            temperature: None,
            force_text: true,
            depth: 0,
        }),
{
    let mut all = clone_messages(messages);
    let ghost before = all@;
    all.push(ThreadMessage::user(COMPACTION_PROMPT));
    assert(message_views(all@) =~= message_views(before).push(
        plain_message(MessageRole::User, COMPACTION_PROMPT@),
    ));
    LlmRequest { messages: all, max_tokens: None, temperature: None, force_text: true, depth: 0 }
}

/// The summary that the model gave.
pub open spec fn summary_of(r: ResponseView) -> Seq<char> {
    match r {
        ResponseView::Text(t) => t,
        ResponseView::Code(_, c) => match c {
            Some(t) => t,
            None => "[compaction produced no summary]"@,
        },
        ResponseView::ActionCalls(_, c) => match c {
            Some(t) => t,
            None => "[compaction produced no summary]"@,
        },
    }
}

/// The first message of the system.
pub open spec fn first_system(m: Seq<MessageView>) -> Option<MessageView>
    decreases m.len(),
{
    if m.len() == 0 {
        None
    } else if m.first().role == MessageRole::System {
        Some(m.first())
    } else {
        first_system(m.drop_first())
    }
}

/// The note that follows the summary.
pub open spec fn continuation_note(n: nat) -> Seq<char> {
    "Your conversation has been compacted "@ + decimal(n)
        + " time(s). The summary above captures your progress. Continue working on the task."@
}

/// The transcript after a compaction: the first message of the system, where there is
/// one, the summary, and a note.
pub open spec fn compacted(m: Seq<MessageView>, summary: Seq<char>, n: nat) -> Seq<MessageView> {
    let rest = seq![
        plain_message(MessageRole::Assistant, summary),
        plain_message(MessageRole::User, continuation_note(n)),
    ];
    match first_system(m) {
        Some(s) => seq![s] + rest,
        None => rest,
    }
}

/// The result of a compaction.
#[derive(Debug, PartialEq, Eq)]
pub struct CompactionResult {
    /// The new, shorter transcript.
    pub compacted_messages: Vec<ThreadMessage>,
    /// The summary that the model gave.
    pub summary: String,
    /// The tokens that the summary took.
    pub tokens_used: TokenUsage,
    /// The estimate before the compaction.
    pub tokens_before: usize,
    /// The estimate after the compaction.
    pub tokens_after: usize,
}

fn find_system(messages: &Vec<ThreadMessage>) -> (r: Option<ThreadMessage>)
    ensures
        match r {
            Some(m) => first_system(message_views(messages@)) == Some(m@),
            None => first_system(message_views(messages@)) is None,
        },
{
    let ghost all = message_views(messages@);
    let mut i: usize = 0;
    assert(all.skip(0) =~= all);
    while i < messages.len()
        invariant
            i <= messages@.len(),
            all == message_views(messages@),
            first_system(all.skip(i as int)) == first_system(all),
        decreases messages@.len() - i,
    {
        assert(all.skip(i as int).first() == messages@[i as int]@);
        assert(all.skip(i as int).drop_first() =~= all.skip(i + 1));
        if messages[i].role == MessageRole::System {
            return Some(messages[i].clone());
        }
        i = i + 1;
    }
    assert(all.skip(i as int).len() == 0);
    None
}

/// Replaces a transcript by the summary that the model gave of it. `compaction_count`
/// tells how often the conversation was compacted before.
pub fn compact_messages(
    messages: &Vec<ThreadMessage>,
    response: LlmResponse,
    usage: TokenUsage,
    compaction_count: u32,
) -> (r: CompactionResult)
    requires
        compaction_count < u32::MAX,
        total_size(message_views(messages@)) <= usize::MAX,
        total_size(
            compacted(
                message_views(messages@),
                summary_of(response@),
                (compaction_count + 1) as nat,
            ),
        ) <= usize::MAX,
    ensures
        r.summary@ == summary_of(response@),
        message_views(r.compacted_messages@) == compacted(
            message_views(messages@),
            summary_of(response@),
            (compaction_count + 1) as nat,
        ),
        r.tokens_used == usage,
        r.tokens_before == estimated_tokens(message_views(messages@)),
        r.tokens_after == estimated_tokens(message_views(r.compacted_messages@)),
{
    let summary = match response {
        LlmResponse::Text(t) => t,
        LlmResponse::Code { code: _, content } => match content {
            Some(t) => t,
            None => "[compaction produced no summary]".to_owned(),
        },
        LlmResponse::ActionCalls { calls: _, content } => match content {
            Some(t) => t,
            None => "[compaction produced no summary]".to_owned(),
        },
    };
    let mut note = "Your conversation has been compacted ".to_owned();
    note.append(u64_to_string(compaction_count as u64 + 1).as_str());
    note.append(
        " time(s). The summary above captures your progress. Continue working on the task.",
    );
    let mut out: Vec<ThreadMessage> = Vec::new();
    if let Some(m) = find_system(messages) {
        out.push(m);
    }
    out.push(ThreadMessage::assistant(summary.as_str()));
    out.push(ThreadMessage::user(note.as_str()));
    assert(message_views(out@) =~= compacted(
        message_views(messages@),
        summary@,
        (compaction_count + 1) as nat,
    ));
    let tokens_before = estimate_tokens(messages.as_slice());
    let tokens_after = estimate_tokens(out.as_slice());
    CompactionResult {
        compacted_messages: out,
        summary,
        tokens_used: usage,
        tokens_before,
        tokens_after,
    }
}

/// More messages are never estimated lower.
pub proof fn estimate_grows_with_messages(m: Seq<MessageView>, more: MessageView)
    ensures
        estimated_tokens(m) <= estimated_tokens(m.push(more)),
{
    assert(m.push(more).drop_last() =~= m);
}

/// A compacted transcript is short, and compacting again keeps the instructions of the
/// system that it began with.
pub proof fn compaction_keeps_the_system_message(m: Seq<MessageView>, summary: Seq<char>, n: nat)
    ensures
        compacted(m, summary, n).len() <= 3,
        first_system(compacted(m, summary, n)) == first_system(m),
{
    let c = compacted(m, summary, n);
    lemma_first_system(m);
    if first_system(m) is None {
        assert(c.drop_first().drop_first() =~= Seq::empty());
        reveal_with_fuel(first_system, 3);
    }
}

proof fn lemma_first_system(m: Seq<MessageView>)
    ensures
        first_system(m) matches Some(s) ==> s.role == MessageRole::System,
    decreases m.len(),
{
    if m.len() > 0 {
        lemma_first_system(m.drop_first());
    }
}

/// Every message adds its text, the name of its action and four characters to the size,
/// wherever it stands.
pub proof fn every_message_adds_its_size(a: Seq<MessageView>, m: MessageView, b: Seq<MessageView>)
    ensures
        m.action_name is None ==> total_size(a.push(m) + b) == total_size(a + b)
            + m.content.len() + 4,
        m.action_name matches Some(n) ==> total_size(a.push(m) + b) == total_size(a + b)
            + m.content.len() + n.len() + 4,
        total_size(Seq::empty()) == 0,
    decreases b.len(),
{
    if b.len() == 0 {
        assert(a.push(m) + b =~= a.push(m));
        assert(a + b =~= a);
        assert(a.push(m).drop_last() =~= a);
    } else {
        every_message_adds_its_size(a, m, b.drop_last());
        assert((a.push(m) + b).drop_last() =~= a.push(m) + b.drop_last());
        assert((a + b).drop_last() =~= a + b.drop_last());
    }
}

/// Four characters are a token, and what is left over is one more.
pub proof fn four_characters_are_a_token(m: Seq<MessageView>)
    ensures
        4 * estimated_tokens(m) >= total_size(m),
        4 * estimated_tokens(m) < total_size(m) + 4,
{
}

/// A compacted transcript is the first message of the system, the whole summary as the
/// words of the assistant, and a note that tells how often it was compacted.
pub proof fn compaction_keeps_the_summary(m: Seq<MessageView>, summary: Seq<char>, n: nat, i: int)
    requires
        0 <= i <= m.len(),
        i < m.len() ==> m[i].role == MessageRole::System,
        forall|j: int| 0 <= j < i ==> (#[trigger] m[j]).role != MessageRole::System,
    ensures
        ({
            let c = compacted(m, summary, n);
            let k = c.len() as int;
            &&& i < m.len() ==> k == 3 && c[0] == m[i]
            &&& i == m.len() ==> k == 2
            &&& c[k - 2].role == MessageRole::Assistant
            &&& c[k - 2].content == summary
            &&& c[k - 1].role == MessageRole::User
            &&& has_substring(c[k - 1].content, decimal(n))
        }),
{
    lemma_first_system_at(m, i);
    middle_is_found(
        "Your conversation has been compacted "@,
        decimal(n),
        " time(s). The summary above captures your progress. Continue working on the task."@,
    );
}

proof fn lemma_first_system_at(m: Seq<MessageView>, i: int)
    requires
        0 <= i <= m.len(),
        i < m.len() ==> m[i].role == MessageRole::System,
        forall|j: int| 0 <= j < i ==> (#[trigger] m[j]).role != MessageRole::System,
    ensures
        i < m.len() ==> first_system(m) == Some(m[i]),
        i == m.len() ==> first_system(m) is None,
    decreases i,
{
    if i > 0 {
        let r = m.drop_first();
        assert(m[0].role != MessageRole::System);
        assert forall|j: int| 0 <= j < i - 1 implies (#[trigger] r[j]).role
            != MessageRole::System by {
            assert(r[j] == m[j + 1]);
        }
        lemma_first_system_at(r, i - 1);
    }
}

/// The summary is what the model said, whole, whatever the kind of its answer.
pub proof fn summaries_are_taken_whole(t: Seq<char>, r: ResponseView)
    requires
        r == ResponseView::Text(t) || (r matches ResponseView::Code(_, Some(x)) && x == t) || (
        r matches ResponseView::ActionCalls(_, Some(x)) && x == t),
    ensures
        summary_of(r) == t,
{
}

} // verus!

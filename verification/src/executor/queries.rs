//! Questions that code puts to the model, and child threads that it starts.

use vstd::prelude::*;

use crate::capability::lease::{
    grantable, granted_lease, lease_views, put_all, LeaseManager,
};
use crate::capability::policy::PolicyEngine;
use crate::executor::llm::{
    answer_text, LlmRequest, LlmRequestView, LlmResponse, ResponseView, TokenUsage,
};
use crate::executor::value::{
    arg_text, extract_string_arg, extract_string_kwarg, find_kwarg, kwarg, kwarg_text,
    monty_to_string, py_text, raise, ExcKind, HostReply, PyKey, PyValue, ReplyView,
};
use crate::json::{lemma_array_view, values, Json, JsonView};
use crate::number::{decimal, u64_to_string};
use crate::text::{has_substring, middle_is_found, occurs_at, opt_text};
use crate::types::capability::{CapabilityLease, EffectType, LeaseView};
use crate::types::event::{OutcomeView, ThreadOutcome};
use crate::types::ids::{LeaseId, ThreadId};
use crate::types::message::{message_views, plain_message, MessageRole, ThreadMessage};
use crate::types::thread::{
    new_thread, ConfigView, Thread, ThreadConfig, ThreadType, ThreadView,
};

verus! {

/// What the model is asked: a prompt, after instructions; with text for an answer.
pub open spec fn question(instructions: Seq<char>, prompt: Seq<char>) -> LlmRequestView {
    LlmRequestView {
        messages: seq![
            plain_message(MessageRole::System, instructions),
            plain_message(MessageRole::User, prompt),
        ],
        max_tokens: None,
        temperature: None,
        force_text: true,
        depth: 0,
    }
}

/// The instructions of a question, with the context that code gave after `heading`.
pub open spec fn instructions(heading: Seq<char>, context: Option<Seq<char>>) -> Seq<char> {
    match context {
        Some(c) => heading + c,
        None => "You are a helpful sub-agent. Answer concisely."@,
    }
}

fn ask(heading: &str, context: &Option<String>, prompt: &str) -> (r: LlmRequest)
    ensures
        r@ == question(instructions(heading@, opt_text(*context)), prompt@),
{
    let system = match context {
        Some(c) => {
            let mut s = heading.to_owned();
            s.append(c.as_str());
            s
        },
        None => "You are a helpful sub-agent. Answer concisely.".to_owned(),
    };
    let mut messages: Vec<ThreadMessage> = Vec::new();
    messages.push(ThreadMessage::system(system.as_str()));
    messages.push(ThreadMessage::user(prompt));
    assert(message_views(messages@) =~= seq![
        plain_message(MessageRole::System, system@),
        plain_message(MessageRole::User, prompt@),
    ]);
    LlmRequest { messages, max_tokens: None, temperature: None, force_text: true, depth: 0 }
}

/// The heading of the context of one question.
pub open spec fn query_heading() -> Seq<char> {
    "You are a sub-agent. Answer concisely based on the context.\n\n"@
}

/// The heading of the context of several questions.
pub open spec fn batch_heading() -> Seq<char> {
    "You are a sub-agent. Answer concisely.\n\n"@
}

/// Reads a question of code to the model.
pub fn parse_llm_query(args: &Vec<PyValue>, kwargs: &Vec<(PyKey, PyValue)>) -> (r: Result<
    LlmRequest,
    HostReply,
>)
    ensures
        match arg_text(args@, kwargs@, "prompt"@, 0) {
            Some(p) => r matches Ok(q) && q@ == question(
                instructions(query_heading(), arg_text(args@, kwargs@, "context"@, 1)),
                p,
            ),
            None => r matches Err(e) && e@ == (ReplyView::Raise {
                kind: ExcKind::TypeError,
                message: "llm_query() requires a 'prompt' argument"@,
            }),
        },
{
    let context = extract_string_arg(args, kwargs, "context", 1);
    match extract_string_arg(args, kwargs, "prompt", 0) {
        Some(p) => Ok(
            ask(
                "You are a sub-agent. Answer concisely based on the context.\n\n",
                &context,
                p.as_str(),
            ),
        ),
        None => Err(raise(ExcKind::TypeError, "llm_query() requires a 'prompt' argument")),
    }
}

/// How a question to the model ended.
#[derive(Debug, PartialEq, Eq)]
pub enum Answer {
    /// The model answered.
    Given(LlmResponse, TokenUsage),
    /// The call failed; the text says why.
    Failed(String),
    /// The task of the call was lost; the text says why.
    Lost(String),
}

/// What the end of a question holds.
pub enum AnswerView {
    Given(ResponseView, TokenUsage),
    Failed(Seq<char>),
    Lost(Seq<char>),
}

impl View for Answer {
    type V = AnswerView;

    open spec fn view(&self) -> AnswerView {
        match self {
            Answer::Given(r, t) => AnswerView::Given(r@, *t),
            Answer::Failed(e) => AnswerView::Failed(e@),
            Answer::Lost(e) => AnswerView::Lost(e@),
        }
    }
}

/// Answers code with what the model said to its question.
pub fn handle_llm_query(response: Result<(LlmResponse, TokenUsage), String>) -> (r: (
    HostReply,
    TokenUsage,
))
    ensures
        match response {
            Ok((a, t)) => r.0@ == ReplyView::Return(JsonView::Str(answer_text(a@))) && r.1 == t,
            Err(e) => r.0@ == (ReplyView::Raise {
                kind: ExcKind::RuntimeError,
                message: "llm_query failed: "@ + e@,
            }) && r.1 == (TokenUsage { input_tokens: 0, output_tokens: 0 }),
        },
{
    match response {
        Ok((a, t)) => (HostReply::Return(Json::Str(a.into_text())), t),
        Err(e) => {
            let mut s = "llm_query failed: ".to_owned();
            s.append(e.as_str());
            (raise(ExcKind::RuntimeError, s.as_str()), TokenUsage::none())
        },
    }
}

/// The prompts that code gave: its first argument, or the one named `prompts`.
pub open spec fn prompts_arg(args: Seq<PyValue>, kwargs: Seq<(PyKey, PyValue)>) -> Option<PyValue> {
    if args.len() > 0 {
        Some(args[0])
    } else {
        kwarg(kwargs, "prompts"@)
    }
}

/// What several requests hold.
pub open spec fn request_views(v: Seq<LlmRequest>) -> Seq<LlmRequestView> {
    v.map_values(|q: LlmRequest| q@)
}

/// The questions of several prompts.
pub open spec fn questions(prompts: Seq<PyValue>, context: Option<Seq<char>>) -> Seq<
    LlmRequestView,
> {
    prompts.map_values(
        |p: PyValue| question(instructions(batch_heading(), context), py_text(p)),
    )
}

/// Reads several questions of code to the model. `shown` is how the interpreter
/// shows the argument, for the message where it is no list.
pub fn parse_llm_query_batched(
    args: &Vec<PyValue>,
    kwargs: &Vec<(PyKey, PyValue)>,
    shown: &str,
) -> (r: Result<Vec<LlmRequest>, HostReply>)
    ensures
        match prompts_arg(args@, kwargs@) {
            Some(PyValue::List(items)) => r matches Ok(qs) && request_views(qs@) == questions(
                items@,
                kwarg_text(kwargs@, "context"@),
            ),
            Some(_) => r matches Err(e) && e@ == (ReplyView::Raise {
                kind: ExcKind::TypeError,
                message: "llm_query_batched() expects a list of prompts, got "@ + shown@,
            }),
            None => r matches Err(e) && e@ == (ReplyView::Raise {
                kind: ExcKind::TypeError,
                message: "llm_query_batched() requires a 'prompts' argument"@,
            }),
        },
{
    let given = if args.len() > 0 {
        Some(&args[0])
    } else {
        find_kwarg(kwargs, "prompts")
    };
    let items = match given {
        Some(PyValue::List(items)) => items,
        Some(_) => {
            let mut s = "llm_query_batched() expects a list of prompts, got ".to_owned();
            s.append(shown);
            return Err(raise(ExcKind::TypeError, s.as_str()));
        },
        None => {
            return Err(
                raise(ExcKind::TypeError, "llm_query_batched() requires a 'prompts' argument"),
            );
        },
    };
    let context = extract_string_kwarg(kwargs, "context");
    let ghost all = questions(items@, opt_text(context));
    let mut out: Vec<LlmRequest> = Vec::new();
    let mut i: usize = 0;
    assert(request_views(out@) =~= all.take(0));
    while i < items.len()
        invariant
            i <= items@.len(),
            all == questions(items@, opt_text(context)),
            request_views(out@) == all.take(i as int),
        decreases items@.len() - i,
    {
        let ghost before = out@;
        let prompt = monty_to_string(&items[i]);
        out.push(
            ask("You are a sub-agent. Answer concisely.\n\n", &context, prompt.as_str()),
        );
        assert(request_views(out@) =~= request_views(before).push(all[i as int]));
        assert(all.take(i + 1) =~= all.take(i as int).push(all[i as int]));
        i = i + 1;
    }
    assert(all.take(all.len() as int) =~= all);
    Ok(out)
}

/// What several ends hold.
pub open spec fn answer_views(v: Seq<Answer>) -> Seq<AnswerView> {
    v.map_values(|a: Answer| a@)
}

/// What code is told of one of several questions.
pub open spec fn told_answer(a: AnswerView) -> Seq<char> {
    match a {
        AnswerView::Given(r, _) => answer_text(r),
        AnswerView::Failed(e) => "Error: "@ + e,
        AnswerView::Lost(e) => "Error: task failed: "@ + e,
    }
}

/// The tokens that the model read for several questions.
pub open spec fn read_tokens(v: Seq<AnswerView>) -> nat
    decreases v.len(),
{
    if v.len() == 0 {
        0
    } else {
        match v.last() {
            AnswerView::Given(_, t) => read_tokens(v.drop_last()) + t.input_tokens as nat,
            _ => read_tokens(v.drop_last()),
        }
    }
}

/// The tokens that the model wrote for several questions.
pub open spec fn written_tokens(v: Seq<AnswerView>) -> nat
    decreases v.len(),
{
    if v.len() == 0 {
        0
    } else {
        match v.last() {
            AnswerView::Given(_, t) => written_tokens(v.drop_last()) + t.output_tokens as nat,
            _ => written_tokens(v.drop_last()),
        }
    }
}

proof fn lemma_tokens(v: Seq<AnswerView>, i: int)
    requires
        0 <= i <= v.len(),
    ensures
        read_tokens(v.take(i)) <= read_tokens(v),
        written_tokens(v.take(i)) <= written_tokens(v),
    decreases v.len() - i,
{
    if i < v.len() {
        lemma_tokens(v, i + 1);
        assert(v.take(i + 1).drop_last() =~= v.take(i));
    } else {
        assert(v.take(i) =~= v);
    }
}

/// Answers code with what the model said to its questions, in their order. A
/// question that failed has the error for its answer.
pub fn handle_llm_query_batched(answers: Vec<Answer>) -> (r: (HostReply, TokenUsage))
    requires
        read_tokens(answer_views(answers@)) <= u64::MAX,
        written_tokens(answer_views(answers@)) <= u64::MAX,
    ensures
        r.0@ == ReplyView::Return(
            JsonView::Array(
                answer_views(answers@).map_values(
                    |a: AnswerView| JsonView::Str(told_answer(a)),
                ),
            ),
        ),
        r.1.input_tokens == read_tokens(answer_views(answers@)),
        r.1.output_tokens == written_tokens(answer_views(answers@)),
{
    let ghost views = answer_views(answers@);
    let ghost all = views.map_values(|a: AnswerView| JsonView::Str(told_answer(a)));
    let n = answers.len();
    let mut rest = answers;
    let mut out: Vec<Json> = Vec::new();
    let mut total = TokenUsage::none();
    let mut i: usize = 0;
    assert(values(out@) =~= all.take(0));
    assert(views.take(0) =~= Seq::<AnswerView>::empty());
    assert(answer_views(rest@) =~= views.skip(0));
    while i < n
        invariant
            i <= n,
            n == views.len(),
            rest@.len() == n - i,
            answer_views(rest@) == views.skip(i as int),
            all == views.map_values(|a: AnswerView| JsonView::Str(told_answer(a))),
            values(out@) == all.take(i as int),
            read_tokens(views) <= u64::MAX,
            written_tokens(views) <= u64::MAX,
            total.input_tokens == read_tokens(views.take(i as int)),
            total.output_tokens == written_tokens(views.take(i as int)),
        decreases n - i,
    {
        proof {
            lemma_tokens(views, i + 1);
            assert(views.take(i + 1).drop_last() =~= views.take(i as int));
            assert(answer_views(rest@)[0] == rest@[0]@);
            assert(views.skip(i as int)[0] == views[i as int]);
        }
        let ghost left = rest@;
        let ghost before = out@;
        let a = rest.remove(0);
        assert(answer_views(rest@) =~= views.skip(i + 1)) by {
            assert forall|k: int| 0 <= k < rest@.len() implies answer_views(rest@)[k]
                == views.skip(i + 1)[k] by {
                assert(rest@[k] == left[k + 1]);
                assert(answer_views(left)[k + 1] == views.skip(i as int)[k + 1]);
            }
        }
        let text = match a {
            Answer::Given(response, t) => {
                total.count(t);
                response.into_text()
            },
            Answer::Failed(e) => {
                let mut s = "Error: ".to_owned();
                s.append(e.as_str());
                s
            },
            Answer::Lost(e) => {
                let mut s = "Error: task failed: ".to_owned();
                s.append(e.as_str());
                s
            },
        };
        out.push(Json::Str(text));
        assert(values(out@) =~= values(before).push(all[i as int]));
        assert(all.take(i + 1) =~= all.take(i as int).push(all[i as int]));
        i = i + 1;
    }
    proof {
        assert(all.take(all.len() as int) =~= all);
        assert(views.take(views.len() as int) =~= views);
        lemma_array_view(out);
    }
    (HostReply::Return(Json::Array(out)), total)
}

/// How many iterations a child thread has at most.
pub const MAX_CHILD_ITERATIONS: u64 = 20;

/// The limits of a child thread: what its parent has left, one level deeper, and
/// the defaults for the rest. What is left of the money is given.
pub open spec fn child_config(
    t: ThreadView,
    defaults: ConfigView,
    budget: JsonView,
) -> ConfigView {
    let c = t.config;
    ConfigView {
        max_iterations: if c.max_iterations < MAX_CHILD_ITERATIONS {
            c.max_iterations
        } else {
            MAX_CHILD_ITERATIONS
        },
        enable_tool_intent_nudge: false,
        max_tokens_total: match c.max_tokens_total {
            Some(max) => if max > t.total_tokens_used {
                Some((max - t.total_tokens_used) as u64)
            } else {
                Some(0)
            },
            None => None,
        },
        max_budget_usd: budget,
        max_duration_ms: c.max_duration_ms,
        depth: (c.depth + 1) as u32,
        max_depth: c.max_depth,
        ..defaults
    }
}

/// The child thread that a prompt starts.
pub open spec fn child_thread(
    prompt: Seq<char>,
    t: ThreadView,
    defaults: ConfigView,
    budget: JsonView,
    id: ThreadId,
    now: i128,
) -> ThreadView {
    let made = new_thread(
        id,
        now,
        prompt,
        ThreadType::Research,
        t.project_id,
        t.user_id,
        child_config(t, defaults, budget),
    );
    (ThreadView { parent_id: Some(t.id), ..made }).with_message(
        plain_message(MessageRole::User, prompt),
        now,
    )
}

/// How it is told that threads are nested too deep.
pub open spec fn too_deep(depth: u32, max: u32) -> Seq<char> {
    "rlm_query() depth limit reached: depth "@ + decimal(depth as nat) + " >= max "@ + decimal(
        max as nat,
    )
}

/// Makes the child thread that code asks for. A prompt is required, and threads are
/// nested no deeper than the parent allows.
pub fn start_child(
    args: &Vec<PyValue>,
    kwargs: &Vec<(PyKey, PyValue)>,
    parent: &Thread,
    defaults: ThreadConfig,
    budget: Json,
    id: ThreadId,
    now: i128,
) -> (r: Result<Thread, HostReply>)
    ensures
        match arg_text(args@, kwargs@, "prompt"@, 0) {
            None => r matches Err(e) && e@ == (ReplyView::Raise {
                kind: ExcKind::TypeError,
                message: "rlm_query() requires a 'prompt' argument"@,
            }),
            Some(p) => if parent.config.depth >= parent.config.max_depth {
                r matches Err(e) && e@ == (ReplyView::Raise {
                    kind: ExcKind::RuntimeError,
                    message: too_deep(parent.config.depth, parent.config.max_depth),
                })
            } else {
                r matches Ok(t) && t@ == child_thread(p, parent@, defaults@, budget@, id, now)
            },
        },
{
    let prompt = match extract_string_arg(args, kwargs, "prompt", 0) {
        Some(p) => p,
        None => {
            return Err(raise(ExcKind::TypeError, "rlm_query() requires a 'prompt' argument"));
        },
    };
    let depth: u32 = parent.config.depth;
    let max_depth: u32 = parent.config.max_depth;
    if depth >= max_depth {
        let mut s = "rlm_query() depth limit reached: depth ".to_owned();
        s.append(u64_to_string(depth as u64).as_str());
        s.append(" >= max ");
        s.append(u64_to_string(max_depth as u64).as_str());
        return Err(raise(ExcKind::RuntimeError, s.as_str()));
    }
    let max_iterations: u64 = if parent.config.max_iterations < MAX_CHILD_ITERATIONS {
        parent.config.max_iterations
    } else {
        MAX_CHILD_ITERATIONS
    };
    let max_tokens_total = match parent.config.max_tokens_total {
        Some(max) => if max > parent.total_tokens_used {
            Some(max - parent.total_tokens_used)
        } else {
            Some(0)
        },
        None => None,
    };
    let mut config = defaults;
    config.max_iterations = max_iterations;
    config.enable_tool_intent_nudge = false;
    config.max_tokens_total = max_tokens_total;
    config.max_budget_usd = budget;
    config.max_duration_ms = parent.config.max_duration_ms;
    config.depth = depth + 1;
    config.max_depth = max_depth;
    let made = Thread::new(
        id,
        now,
        prompt.as_str(),
        ThreadType::Research,
        parent.project_id,
        parent.user_id.as_str(),
        config,
    );
    let mut t = made.with_parent(parent.id);
    t.add_message(ThreadMessage::user(prompt.as_str()), now);
    Ok(t)
}

/// How long a lease still runs, where it has an end that has not passed.
pub open spec fn remaining(l: LeaseView, now: i128) -> Option<i128> {
    match l.expires_at {
        Some(e) if e >= now => Some((e - now) as i128),
        _ => None,
    }
}

/// The leases of a child thread: one for each lease of the parent that can be
/// granted anew, for as long as that one still runs.
pub open spec fn child_grants(
    parents: Seq<LeaseView>,
    ids: Seq<LeaseId>,
    child: ThreadId,
    now: i128,
) -> Seq<LeaseView>
    decreases parents.len(),
{
    if parents.len() == 0 {
        Seq::empty()
    } else {
        let rest = child_grants(parents.drop_last(), ids, child, now);
        let p = parents.last();
        if grantable(remaining(p, now), p.max_uses) {
            rest.push(
                granted_lease(
                    ids[parents.len() - 1],
                    now,
                    child,
                    p.capability_name,
                    p.granted,
                    remaining(p, now),
                    p.max_uses,
                ),
            )
        } else {
            rest
        }
    }
}

/// Grants a child thread the leases of its parent. `ids` names the new leases; one
/// that is refused is left out.
pub fn grant_child_leases(
    child: &mut Thread,
    leases: &mut LeaseManager,
    parents: &Vec<CapabilityLease>,
    ids: &Vec<LeaseId>,
    now: i128,
)
    requires
        old(leases).wf(),
        ids@.len() == parents@.len(),
        forall|i: int|
            0 <= i < parents@.len() ==> ((#[trigger] parents@[i]).expires_at matches Some(e) ==> e
                - now <= i128::MAX),
    ensures
        final(leases).wf(),
        ({
            let g = child_grants(lease_views(parents@), ids@, old(child).id, now);
            &&& final(leases)@ == put_all(old(leases)@, g)
            &&& final(child)@ == (ThreadView {
                capability_leases: old(child)@.capability_leases + g.map_values(
                    |l: LeaseView| l.id,
                ),
                ..old(child)@
            })
        }),
{
    let ghost ps = lease_views(parents@);
    let ghost start = leases@;
    let ghost first = child@;
    let ghost thread = child.id;
    let mut i: usize = 0;
    assert(ps.take(0) =~= Seq::<LeaseView>::empty());
    assert(child_grants(ps.take(0), ids@, thread, now).map_values(|l: LeaseView| l.id)
        =~= Seq::<LeaseId>::empty());
    assert(child@.capability_leases =~= first.capability_leases + Seq::<LeaseId>::empty());
    while i < parents.len()
        invariant
            i <= parents@.len(),
            ids@.len() == parents@.len(),
            ps == lease_views(parents@),
            leases.wf(),
            thread == first.id,
            forall|k: int|
                0 <= k < parents@.len() ==> ((#[trigger] parents@[k]).expires_at matches Some(e)
                    ==> e - now <= i128::MAX),
            leases@ == put_all(start, child_grants(ps.take(i as int), ids@, thread, now)),
            child@ == (ThreadView {
                capability_leases: first.capability_leases + child_grants(
                    ps.take(i as int),
                    ids@,
                    thread,
                    now,
                ).map_values(|l: LeaseView| l.id),
                ..first
            }),
        decreases parents@.len() - i,
    {
        let ghost before = child_grants(ps.take(i as int), ids@, thread, now);
        assert(ps.take(i + 1).drop_last() =~= ps.take(i as int));
        assert(ps.take(i + 1).last() == parents@[i as int]@);
        let p = &parents[i];
        let left = match p.expires_at {
            Some(e) => if e >= now {
                Some(e - now)
            } else {
                None
            },
            None => None,
        };
        let granted = leases.grant(
            ids[i],
            now,
            child.id,
            p.capability_name.clone(),
            p.granted_actions.clone(),
            left,
            p.max_uses,
        );
        if let Ok(lease) = granted {
            let ghost after = before.push(lease@);
            assert(after.drop_last() =~= before);
            assert(after.map_values(|l: LeaseView| l.id) =~= before.map_values(
                |l: LeaseView| l.id,
            ).push(lease.id));
            child.capability_leases.push(lease.id);
            assert(child@.capability_leases =~= first.capability_leases + after.map_values(
                |l: LeaseView| l.id,
            ));
        }
        i = i + 1;
    }
    assert(ps.take(ps.len() as int) =~= ps);
}

/// The policy of a child thread: it denies what that of its parent denies, and has
/// no other rules.
pub fn child_policy(policy: &PolicyEngine) -> (r: PolicyEngine)
    ensures
        r.denied() == policy.denied(),
        r.global_rules().len() == 0,
{
    let effects = policy.denied_effects();
    let mut out = PolicyEngine::new();
    let mut i: usize = 0;
    assert(effects@.take(0) =~= Seq::<EffectType>::empty());
    while i < effects.len()
        invariant
            i <= effects@.len(),
            out.denied() == effects@.take(i as int),
            out.global_rules().len() == 0,
        decreases effects@.len() - i,
    {
        out.deny_effect(effects[i]);
        assert(effects@.take(i + 1) =~= effects@.take(i as int).push(effects@[i as int]));
        i = i + 1;
    }
    assert(effects@.take(effects@.len() as int) =~= effects@);
    out
}

/// What code is told of how a child thread ended.
pub open spec fn child_answer(o: OutcomeView) -> Seq<char> {
    match o {
        OutcomeView::Completed { response } => match response {
            Some(t) => t,
            None => Seq::empty(),
        },
        OutcomeView::Failed { error } => "rlm_query child failed: "@ + error,
        OutcomeView::MaxIterations => "rlm_query child reached max iterations"@,
        _ => Seq::empty(),
    }
}

/// Answers code with how its child thread ended.
pub fn handle_rlm_query(ended: Result<ThreadOutcome, String>) -> (r: HostReply)
    ensures
        r@ == match ended {
            Ok(o) => ReplyView::Return(JsonView::Str(child_answer(o@))),
            Err(e) => ReplyView::Raise {
                kind: ExcKind::RuntimeError,
                message: "rlm_query failed: "@ + e@,
            },
        },
{
    match ended {
        Ok(o) => {
            let text = match o {
                ThreadOutcome::Completed { response } => match response {
                    Some(t) => t,
                    None => String::new(),
                },
                ThreadOutcome::Failed { error } => {
                    let mut s = "rlm_query child failed: ".to_owned();
                    s.append(error.as_str());
                    s
                },
                ThreadOutcome::MaxIterations => "rlm_query child reached max iterations".to_owned(),
                _ => String::new(),
            };
            HostReply::Return(Json::Str(text))
        },
        Err(e) => {
            let mut s = "rlm_query failed: ".to_owned();
            s.append(e.as_str());
            raise(ExcKind::RuntimeError, s.as_str())
        },
    }
}

/// The tokens that a child thread is counted with: all that it used count as input, where
/// its run came to an end; a run that failed counts none.
pub fn child_usage(child: &Thread, ran: bool) -> (r: TokenUsage)
    ensures
        r.input_tokens == (if ran {
            child@.total_tokens_used
        } else {
            0
        }),
        r.output_tokens == 0,
{
    if ran {
        TokenUsage { input_tokens: child.total_tokens_used, output_tokens: 0 }
    } else {
        TokenUsage::none()
    }
}

/// Child threads are nested no deeper than the first of them allows, so that starting
/// children of children comes to an end.
pub proof fn children_are_nested_within_bounds(
    prompt: Seq<char>,
    t: ThreadView,
    defaults: ConfigView,
    budget: JsonView,
    id: ThreadId,
    now: i128,
)
    requires
        t.config.depth < t.config.max_depth,
    ensures
        ({
            let c = child_thread(prompt, t, defaults, budget, id, now).config;
            &&& c.max_depth == t.config.max_depth
            &&& c.depth == t.config.depth + 1
            &&& c.depth <= c.max_depth
        }),
{
}

/// A lease of a child thread ends when that of its parent ends, where that has an
/// end, and grants the same actions of the same capability.
pub proof fn child_lease_ends_with_its_parent(
    parents: Seq<LeaseView>,
    ids: Seq<LeaseId>,
    child: ThreadId,
    now: i128,
    i: int,
)
    requires
        forall|k: int|
            0 <= k < parents.len() ==> ((#[trigger] parents[k]).expires_at matches Some(e) ==> e
                >= now && e - now <= i128::MAX),
        0 <= i < child_grants(parents, ids, child, now).len(),
    ensures
        ({
            let l = child_grants(parents, ids, child, now)[i];
            exists|k: int|
                0 <= k < parents.len() && (#[trigger] parents[k]).expires_at == l.expires_at
                    && parents[k].granted == l.granted && parents[k].capability_name
                    == l.capability_name
        }),
    decreases parents.len(),
{
    let rest = child_grants(parents.drop_last(), ids, child, now);
    let all = child_grants(parents, ids, child, now);
    if i < rest.len() {
        assert forall|k: int| 0 <= k < parents.drop_last().len() implies ((
        #[trigger] parents.drop_last()[k]).expires_at matches Some(e) ==> e >= now && e - now
            <= i128::MAX) by {
            assert(parents.drop_last()[k] == parents[k]);
        }
        child_lease_ends_with_its_parent(parents.drop_last(), ids, child, now, i);
        let l = rest[i];
        let k = choose|k: int|
            0 <= k < parents.drop_last().len() && (#[trigger] parents.drop_last()[k]).expires_at
                == l.expires_at && parents.drop_last()[k].granted == l.granted
                && parents.drop_last()[k].capability_name == l.capability_name;
        assert(parents[k] == parents.drop_last()[k]);
    } else {
        let k = parents.len() - 1;
        assert(parents[k].expires_at == all[i].expires_at);
    }
}

/// The model is asked the whole prompt, after the instructions, and for text alone.
pub proof fn prompts_are_asked_whole(given: Seq<char>, prompt: Seq<char>)
    ensures
        question(given, prompt).messages.len() == 2,
        question(given, prompt).messages[0].role == MessageRole::System,
        question(given, prompt).messages[0].content == given,
        question(given, prompt).messages[1].role == MessageRole::User,
        question(given, prompt).messages[1].content == prompt,
        question(given, prompt).force_text,
        question(given, prompt).max_tokens is None,
        question(given, prompt).depth == 0,
{
}

/// The context that code gives stands whole in the instructions, after their heading.
pub proof fn context_is_given_whole(heading: Seq<char>, c: Seq<char>)
    ensures
        instructions(heading, Some(c)).len() == heading.len() + c.len(),
        occurs_at(instructions(heading, Some(c)), heading, 0),
        occurs_at(instructions(heading, Some(c)), c, heading.len() as int),
{
    let s = instructions(heading, Some(c));
    assert(s.subrange(0, heading.len() as int) =~= heading);
    assert(s.subrange(heading.len() as int, (heading.len() + c.len()) as int) =~= c);
}

/// Of several prompts each is asked by itself, whole, in their order.
pub proof fn every_prompt_is_asked(prompts: Seq<PyValue>, context: Option<Seq<char>>, i: int)
    requires
        0 <= i < prompts.len(),
    ensures
        questions(prompts, context).len() == prompts.len(),
        questions(prompts, context)[i].messages.len() == 2,
        questions(prompts, context)[i].messages[1].role == MessageRole::User,
        questions(prompts, context)[i].messages[1].content == py_text(prompts[i]),
        context matches Some(c) ==> has_substring(
            questions(prompts, context)[i].messages[0].content,
            c,
        ),
{
    if let Some(c) = context {
        let none = Seq::<char>::empty();
        middle_is_found(batch_heading(), c, none);
        assert(batch_heading() + c + none =~= batch_heading() + c);
    }
}

/// The prompts are the first argument, or those given by name where there is none.
pub proof fn prompts_are_found(args: Seq<PyValue>, kwargs: Seq<(PyKey, PyValue)>)
    ensures
        args.len() > 0 ==> prompts_arg(args, kwargs) == Some(args[0]),
        args.len() == 0 ==> prompts_arg(args, kwargs) == kwarg(kwargs, "prompts"@),
{
}

/// Code is told the answer as the model gave it, and otherwise why there is none.
pub proof fn answers_are_told(text: Seq<char>, t: TokenUsage, e: Seq<char>)
    ensures
        told_answer(AnswerView::Given(ResponseView::Text(text), t)) == text,
        has_substring(told_answer(AnswerView::Failed(e)), e),
        has_substring(told_answer(AnswerView::Lost(e)), e),
        occurs_at(told_answer(AnswerView::Failed(e)), "Error: "@, 0),
{
    let none = Seq::<char>::empty();
    middle_is_found("Error: "@, e, none);
    assert("Error: "@ + e + none =~= "Error: "@ + e);
    middle_is_found("Error: task failed: "@, e, none);
    assert("Error: task failed: "@ + e + none =~= "Error: task failed: "@ + e);
    assert(told_answer(AnswerView::Failed(e)).subrange(0, "Error: "@.len() as int) =~= "Error: "@);
}

/// The tokens of every answer are counted, wherever it stands; a question without an
/// answer has none.
pub proof fn tokens_of_every_answer_are_counted(
    a: Seq<AnswerView>,
    x: AnswerView,
    b: Seq<AnswerView>,
)
    ensures
        x matches AnswerView::Given(r, t) ==> read_tokens(a.push(x) + b) == read_tokens(a + b)
            + t.input_tokens && written_tokens(a.push(x) + b) == written_tokens(a + b)
            + t.output_tokens,
        !(x is Given) ==> read_tokens(a.push(x) + b) == read_tokens(a + b) && written_tokens(
            a.push(x) + b,
        ) == written_tokens(a + b),
        read_tokens(Seq::empty()) == 0,
        written_tokens(Seq::empty()) == 0,
    decreases b.len(),
{
    if b.len() == 0 {
        assert(a.push(x) + b =~= a.push(x));
        assert(a + b =~= a);
        assert(a.push(x).drop_last() =~= a);
    } else {
        tokens_of_every_answer_are_counted(a, x, b.drop_last());
        assert((a.push(x) + b).drop_last() =~= a.push(x) + b.drop_last());
        assert((a + b).drop_last() =~= a + b.drop_last());
    }
}

/// A child has the tokens that its parent has left and no more than twenty steps, and is
/// otherwise bounded as its parent is.
pub proof fn children_have_what_is_left(
    t: ThreadView,
    defaults: ConfigView,
    budget: JsonView,
    max: u64,
)
    ensures
        t.config.max_tokens_total == Some(max) && t.total_tokens_used <= max ==> (child_config(
            t,
            defaults,
            budget,
        ).max_tokens_total matches Some(n) && n + t.total_tokens_used == max),
        t.config.max_tokens_total == Some(max) && t.total_tokens_used > max ==> child_config(
            t,
            defaults,
            budget,
        ).max_tokens_total == Some(0u64),
        t.config.max_tokens_total is None ==> child_config(
            t,
            defaults,
            budget,
        ).max_tokens_total is None,
        child_config(t, defaults, budget).max_iterations <= 20,
        child_config(t, defaults, budget).max_iterations <= t.config.max_iterations,
        child_config(t, defaults, budget).max_iterations == 20 || child_config(
            t,
            defaults,
            budget,
        ).max_iterations == t.config.max_iterations,
        child_config(t, defaults, budget).max_budget_usd == budget,
        child_config(t, defaults, budget).max_duration_ms == t.config.max_duration_ms,
        !child_config(t, defaults, budget).enable_tool_intent_nudge,
        child_config(t, defaults, budget).max_consecutive_errors
            == defaults.max_consecutive_errors,
{
}

/// A child works on the whole prompt, for the same user in the same project, and knows its
/// parent.
pub proof fn children_work_on_their_prompt(
    prompt: Seq<char>,
    t: ThreadView,
    defaults: ConfigView,
    budget: JsonView,
    id: ThreadId,
    now: i128,
)
    ensures
        ({
            let c = child_thread(prompt, t, defaults, budget, id, now);
            &&& c.id == id
            &&& c.goal == prompt
            &&& c.parent_id == Some(t.id)
            &&& c.user_id == t.user_id
            &&& c.project_id == t.project_id
            &&& c.messages.len() == 1
            &&& c.messages[0].role == MessageRole::User
            &&& c.messages[0].content == prompt
            &&& c.thread_type == ThreadType::Research
        }),
{
}

/// Who nests too deep is told how deep it is and how deep it may be.
pub proof fn depths_are_told(depth: u32, max: u32)
    ensures
        has_substring(too_deep(depth, max), decimal(depth as nat)),
        has_substring(too_deep(depth, max), decimal(max as nat)),
{
    let d = decimal(depth as nat);
    let m = decimal(max as nat);
    let h = "rlm_query() depth limit reached: depth "@;
    let none = Seq::<char>::empty();
    middle_is_found(h, d, " >= max "@ + m);
    assert(h + d + (" >= max "@ + m) =~= too_deep(depth, max));
    middle_is_found(h + d + " >= max "@, m, none);
    assert(h + d + " >= max "@ + m + none =~= too_deep(depth, max));
}

/// Every lease of the parent that still runs and has uses left is granted to the child,
/// for the same actions and until the same time, under an identity of its own.
pub proof fn every_lease_is_granted_to_the_child(
    parents: Seq<LeaseView>,
    ids: Seq<LeaseId>,
    child: ThreadId,
    now: i128,
    k: int,
) -> (at: int)
    requires
        0 <= k < parents.len(),
        parents[k].expires_at matches Some(e) ==> e > now && e - now <= i128::MAX,
        parents[k].max_uses matches Some(n) ==> n > 0,
    ensures
        0 <= at < child_grants(parents, ids, child, now).len(),
        child_grants(parents, ids, child, now)[at].id == ids[k],
        child_grants(parents, ids, child, now)[at].thread_id == child,
        child_grants(parents, ids, child, now)[at].capability_name == parents[k].capability_name,
        child_grants(parents, ids, child, now)[at].granted == parents[k].granted,
        child_grants(parents, ids, child, now)[at].expires_at == parents[k].expires_at,
        child_grants(parents, ids, child, now)[at].max_uses == parents[k].max_uses,
    decreases parents.len(),
{
    let r = parents.drop_last();
    if k < r.len() {
        assert(r[k] == parents[k]);
        every_lease_is_granted_to_the_child(r, ids, child, now, k)
    } else {
        child_grants(r, ids, child, now).len() as int
    }
}

/// Code is told the response of a child as it is, and of a child that failed why.
pub proof fn answers_of_children_are_told(text: Seq<char>)
    ensures
        child_answer(OutcomeView::Completed { response: Some(text) }) == text,
        child_answer(OutcomeView::Completed { response: None }).len() == 0,
        has_substring(child_answer(OutcomeView::Failed { error: text }), text),
        child_answer(OutcomeView::Stopped).len() == 0,
{
    let none = Seq::<char>::empty();
    middle_is_found("rlm_query child failed: "@, text, none);
    assert("rlm_query child failed: "@ + text + none =~= "rlm_query child failed: "@ + text);
}

} // verus!

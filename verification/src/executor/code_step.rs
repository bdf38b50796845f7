//! Steps of code as the orchestrator asks for them, and the context of execution.

use vstd::prelude::*;

use crate::common::timezone::{zone_view, ValidTimezone};
use crate::executor::calls::{object, or_null, value_or_null};
use crate::executor::host_actions::{empty_object, new_object, ran_json, ran_object};
use crate::executor::interchange::{thread_source_channel, thread_user_timezone, zone_in};
use crate::executor::scripting::{CodeExecutionResult, CodeResultView};
use crate::executor::value::{
    monty_to_json, monty_to_string, py_json, py_text, raise, ExcKind, HostReply, PyValue,
    ReplyView,
};
use crate::gate::{opt_json, resume_json, ResumeView};
use crate::json::{fields, json_str, lemma_array_view, values, Json, JsonView};
use crate::text::{first_chars, has_substring, middle_is_found, opt_text, take_chars};
use crate::types::event::{
    event_views, EventKind, EventView, OutcomeView, ThreadOutcome,
};
use crate::types::ids::{uuid_text, ProjectId, StepId, ThreadId};
use crate::types::message::{result_views, ActionResult, ResultView};
use crate::types::thread::{Thread, ThreadType, ThreadView};

verus! {

/// What an action is told of the thread that calls it.
pub struct ThreadExecutionContext {
    pub thread_id: ThreadId,
    pub thread_type: ThreadType,
    pub project_id: ProjectId,
    pub user_id: String,
    pub step_id: StepId,
    pub current_call_id: Option<String>,
    pub source_channel: Option<String>,
    pub user_timezone: Option<ValidTimezone>,
}

/// Makes the context of a call from a thread.
pub fn execution_context(thread: &Thread, step_id: StepId, call_id: Option<String>) -> (r:
    ThreadExecutionContext)
    ensures
        r.thread_id == thread.id,
        r.thread_type == thread.thread_type,
        r.project_id == thread.project_id,
        r.user_id@ == thread.user_id@,
        r.step_id == step_id,
        r.current_call_id == call_id,
        opt_text(r.source_channel) == thread@.metadata.str_field("source_channel"@),
        zone_view(r.user_timezone) == zone_in(thread@.metadata),
{
    ThreadExecutionContext {
        thread_id: thread.id,
        thread_type: thread.thread_type,
        project_id: thread.project_id,
        user_id: thread.user_id.clone(),
        step_id,
        current_call_id: call_id,
        source_channel: thread_source_channel(thread),
        user_timezone: thread_user_timezone(thread),
    }
}

/// Reads a step of code that the orchestrator asks for: the code, and the state that
/// it works on.
pub fn parse_code_step(args: &Vec<PyValue>) -> (r: Result<(String, Json), HostReply>)
    ensures
        if args@.len() == 0 {
            r matches Err(e) && e@ == (ReplyView::Raise {
                kind: ExcKind::TypeError,
                message: "__execute_code_step__ requires a code string"@,
            })
        } else {
            r matches Ok(s) && s.0@ == py_text(args@[0]) && s.1@ == if args@.len() > 1 {
                py_json(args@[1])
            } else {
                empty_object()
            }
        },
{
    if args.len() == 0 {
        return Err(raise(ExcKind::TypeError, "__execute_code_step__ requires a code string"));
    }
    let state = if args.len() > 1 {
        monty_to_json(&args[1])
    } else {
        new_object()
    };
    Ok((monty_to_string(&args[0]), state))
}

/// How much of the output the event of a failed step shows.
pub const ERROR_SNIPPET_LEN: usize = 500;

/// The error of a step of code that failed.
pub open spec fn code_error(stdout: Seq<char>) -> Seq<char> {
    if stdout.len() > 0 {
        "CodeAct execution failed: "@ + first_chars(stdout, ERROR_SNIPPET_LEN as nat)
    } else {
        "CodeAct execution failed (no stdout)"@
    }
}

/// The event of a step of code that failed.
pub open spec fn code_failure(step: StepId, stdout: Seq<char>) -> EventView {
    EventView::ActionFailed {
        step_id: step,
        action_name: "__codeact__"@,
        call_id: "codeact-step-"@ + uuid_text(step.0),
        error: code_error(stdout),
        params_summary: None,
    }
}

/// What a step of code that was paused waits for, as the orchestrator is told.
pub open spec fn pending_gate(o: Option<OutcomeView>) -> JsonView {
    match o {
        Some(
            OutcomeView::GatePaused {
                gate_name,
                action_name,
                call_id,
                parameters,
                resume_kind,
                resume_output,
            },
        ) => JsonView::Object(
            seq![
                ("action_name"@, JsonView::Str(action_name)),
                ("call_id"@, JsonView::Str(call_id)),
                ("gate_name"@, JsonView::Str(gate_name)),
                ("gate_paused"@, JsonView::Bool(true)),
                ("parameters"@, parameters),
                ("resume_kind"@, resume_json(resume_kind)),
                ("resume_output"@, or_null(resume_output)),
            ],
        ),
        _ => JsonView::Null,
    }
}

/// The result of a step of code, as the orchestrator is told.
pub open spec fn code_step_json(r: CodeResultView) -> JsonView {
    JsonView::Object(
        seq![
            (
                "action_results"@,
                JsonView::Array(r.action_results.map_values(|a: ResultView| ran_json(a))),
            ),
            ("final_answer"@, opt_json(r.final_answer)),
            ("had_error"@, JsonView::Bool(r.had_error)),
            ("pending_gate"@, pending_gate(r.need_approval)),
            ("return_value"@, r.return_value),
            ("stdout"@, JsonView::Str(r.stdout)),
        ],
    )
}

/// The events that a step of code leaves on record.
pub open spec fn code_step_events(r: CodeResultView, step: StepId) -> Seq<EventView> {
    if r.had_error {
        r.events.push(code_failure(step, r.stdout))
    } else {
        r.events
    }
}

fn gate_object(o: &Option<ThreadOutcome>) -> (r: Json)
    ensures
        r@ == pending_gate(
            match o {
                Some(x) => Some(x@),
                None => None,
            },
        ),
{
    match o {
        Some(
            ThreadOutcome::GatePaused {
                gate_name,
                action_name,
                call_id,
                parameters,
                resume_kind,
                resume_output,
            },
        ) => {
            let mut v: Vec<(String, Json)> = Vec::new();
            v.push(("action_name".to_owned(), json_str(action_name.as_str())));
            v.push(("call_id".to_owned(), json_str(call_id.as_str())));
            v.push(("gate_name".to_owned(), json_str(gate_name.as_str())));
            v.push(("gate_paused".to_owned(), Json::Bool(true)));
            v.push(("parameters".to_owned(), parameters.clone()));
            v.push(("resume_kind".to_owned(), resume_kind.to_json()));
            v.push(("resume_output".to_owned(), value_or_null(resume_output)));
            assert(fields(v@) =~= pending_gate(Some(o->0@))->Object_0);
            object(v)
        },
        _ => Json::Null,
    }
}

fn result_list(results: &Vec<ActionResult>) -> (r: Json)
    ensures
        r@ == JsonView::Array(result_views(results@).map_values(|a: ResultView| ran_json(a))),
{
    let ghost all = result_views(results@).map_values(|a: ResultView| ran_json(a));
    let mut out: Vec<Json> = Vec::new();
    let mut i: usize = 0;
    assert(values(out@) =~= all.take(0));
    while i < results.len()
        invariant
            i <= results@.len(),
            all == result_views(results@).map_values(|a: ResultView| ran_json(a)),
            values(out@) == all.take(i as int),
        decreases results@.len() - i,
    {
        let ghost before = out@;
        out.push(ran_object(&results[i]));
        assert(values(out@) =~= values(before).push(all[i as int]));
        assert(all.take(i + 1) =~= all.take(i as int).push(all[i as int]));
        i = i + 1;
    }
    proof {
        assert(all.take(all.len() as int) =~= all);
        lemma_array_view(out);
    }
    Json::Array(out)
}

fn record_all(thread: &mut Thread, events: Vec<EventKind>, now: i128)
    ensures
        final(thread)@ == old(thread)@.with_events(event_views(events@), now),
{
    let ghost all = event_views(events@);
    let ghost start = thread@;
    let n = events.len();
    let mut rest = events;
    let mut i: usize = 0;
    assert(all.take(0) =~= Seq::<EventView>::empty());
    assert(event_views(rest@) =~= all.skip(0));
    while i < n
        invariant
            i <= n,
            n == all.len(),
            rest@.len() == n - i,
            event_views(rest@) == all.skip(i as int),
            thread@ == start.with_events(all.take(i as int), now),
        decreases n - i,
    {
        assert(all.take(i + 1).drop_last() =~= all.take(i as int));
        assert(event_views(rest@)[0] == rest@[0]@);
        assert(all.skip(i as int)[0] == all[i as int]);
        let ghost left = rest@;
        let e = rest.remove(0);
        assert(event_views(rest@) =~= all.skip(i + 1)) by {
            assert forall|k: int| 0 <= k < rest@.len() implies event_views(rest@)[k] == all.skip(
                i + 1,
            )[k] by {
                assert(rest@[k] == left[k + 1]);
                assert(event_views(left)[k + 1] == all.skip(i as int)[k + 1]);
            }
        }
        thread.add_event(e, now);
        i = i + 1;
    }
    assert(all.take(all.len() as int) =~= all);
}

/// Takes the result of a step of code in: its events are put on record, with one for
/// its failure where it failed; and tells the orchestrator of it.
pub fn handle_execute_code_step(
    thread: &mut Thread,
    result: CodeExecutionResult,
    step: StepId,
    now: i128,
) -> (r: HostReply)
    ensures
        r@ == ReplyView::Return(code_step_json(result@)),
        final(thread)@ == (ThreadView {
            updated_at: now,
            ..old(thread)@.with_events(code_step_events(result@, step), now)
        }),
{
    let ghost rv = result@;
    let approval = result.need_approval;
    let final_answer = match &result.final_answer {
        Some(s) => json_str(s.as_str()),
        None => Json::Null,
    };
    let mut v: Vec<(String, Json)> = Vec::new();
    v.push(("action_results".to_owned(), result_list(&result.action_results)));
    v.push(("final_answer".to_owned(), final_answer));
    v.push(("had_error".to_owned(), Json::Bool(result.had_error)));
    v.push(("pending_gate".to_owned(), gate_object(&approval)));
    v.push(("return_value".to_owned(), result.return_value));
    v.push(("stdout".to_owned(), json_str(result.stdout.as_str())));
    assert(fields(v@) =~= code_step_json(rv)->Object_0);
    let mut events = result.events;
    if result.had_error {
        let error = if result.stdout.as_str().is_empty() {
            "CodeAct execution failed (no stdout)".to_owned()
        } else {
            let mut s = "CodeAct execution failed: ".to_owned();
            s.append(take_chars(result.stdout.as_str(), ERROR_SNIPPET_LEN).as_str());
            s
        };
        let mut call_id = "codeact-step-".to_owned();
        call_id.append(step.text().as_str());
        let event = EventKind::ActionFailed {
            step_id: step,
            action_name: "__codeact__".to_owned(),
            call_id,
            error,
            params_summary: None,
        };
        let ghost before = events@;
        let ghost e = event@;
        events.push(event);
        assert(event_views(events@) =~= event_views(before).push(e));
    }
    record_all(thread, events, now);
    thread.updated_at = now;
    HostReply::Return(object(v))
}

/// Tells the orchestrator that a step of code could not be run.
pub fn code_step_failed(error: &str) -> (r: HostReply)
    ensures
        r@ == (ReplyView::Raise {
            kind: ExcKind::RuntimeError,
            message: "Code execution failed: "@ + error@,
        }),
{
    let mut s = "Code execution failed: ".to_owned();
    s.append(error);
    raise(ExcKind::RuntimeError, s.as_str())
}

/// The skills that the orchestrator reports as active, to be kept with the thread: its
/// first argument, or none.
pub fn active_skills_payload(args: &Vec<PyValue>) -> (r: Json)
    ensures
        r@ == if args@.len() > 0 {
            py_json(args@[0])
        } else {
            JsonView::Array(Seq::empty())
        },
{
    if args.len() > 0 {
        monty_to_json(&args[0])
    } else {
        let none: Vec<Json> = Vec::new();
        proof {
            lemma_array_view(none);
            assert(values(none@) =~= Seq::<JsonView>::empty());
        }
        Json::Array(none)
    }
}

/// Where a thread keeps the skills that are active.
pub const ACTIVE_SKILLS_METADATA_KEY: &'static str = "active_skills";

/// Keeps the skills that the orchestrator reports as active with the thread. `skills` is
/// what they were read as; where they could not be read, what was kept stays.
pub fn handle_set_active_skills(thread: &mut Thread, skills: Option<Json>) -> (r: HostReply)
    ensures
        r@ == ReplyView::Return(JsonView::Null),
        final(thread)@ == match skills {
            Some(s) => ThreadView {
                metadata: old(thread)@.metadata.set(ACTIVE_SKILLS_METADATA_KEY@, s@),
                ..old(thread)@
            },
            None => old(thread)@,
        },
{
    if let Some(s) = skills {
        thread.metadata.set(ACTIVE_SKILLS_METADATA_KEY, s);
    }
    HostReply::Return(Json::Null)
}

/// How many seconds lie at least between two warnings that leases could not be
/// refreshed.
pub const LEASE_REFRESH_WARN_INTERVAL_SECS: u64 = 60;

/// Whether a warning is due at the time `now`, in seconds, after the last one.
pub fn refresh_warning_due(now: u64, last: u64) -> (r: bool)
    ensures
        r == (now - last >= LEASE_REFRESH_WARN_INTERVAL_SECS),
{
    now > last && now - last >= LEASE_REFRESH_WARN_INTERVAL_SECS
}

/// A failed step of code leaves exactly one event more than those of its calls, and
/// that event names the step.
pub proof fn failed_step_is_on_record(r: CodeResultView, step: StepId)
    requires
        r.had_error,
    ensures
        code_step_events(r, step).len() == r.events.len() + 1,
        code_step_events(r, step).last() == code_failure(step, r.stdout),
        code_step_events(r, step).drop_last() == r.events,
{
    assert(code_step_events(r, step).drop_last() =~= r.events);
}

/// The event of a failed step tells the first five hundred characters of its output, or
/// all of it.
pub proof fn failed_steps_tell_their_output(step: StepId, stdout: Seq<char>)
    requires
        stdout.len() > 0,
    ensures
        code_failure(step, stdout) matches EventView::ActionFailed {
            step_id,
            action_name,
            call_id,
            error,
            params_summary,
        } && step_id == step && action_name == "__codeact__"@ && params_summary is None
            && has_substring(call_id, uuid_text(step.0)) && (stdout.len() <= 500
            ==> has_substring(error, stdout)) && (stdout.len() > 500
            ==> has_substring(error, stdout.take(500))),
{
    let f = first_chars(stdout, 500);
    middle_is_found("CodeAct execution failed: "@, f, Seq::empty());
    assert("CodeAct execution failed: "@ + f + Seq::empty() =~= code_error(stdout));
    let u = uuid_text(step.0);
    middle_is_found("codeact-step-"@, u, Seq::empty());
    assert("codeact-step-"@ + u + Seq::empty() =~= "codeact-step-"@ + u);
}

/// A step that went well leaves the events of its calls and no other.
pub proof fn good_steps_leave_their_events(r: CodeResultView, step: StepId)
    requires
        !r.had_error,
    ensures
        code_step_events(r, step) == r.events,
{
}

/// The orchestrator is told everything of a step: what it printed and returned, its
/// answer, whether it failed, and the result of each of its calls.
pub proof fn steps_are_told_whole(r: CodeResultView, i: int)
    requires
        0 <= i < r.action_results.len(),
    ensures
        code_step_json(r) matches JsonView::Object(f) && f.contains(
            ("stdout"@, JsonView::Str(r.stdout)),
        ) && f.contains(("return_value"@, r.return_value)) && f.contains(
            ("had_error"@, JsonView::Bool(r.had_error)),
        ) && (r.final_answer matches Some(a) ==> f.contains(("final_answer"@, JsonView::Str(a))))
            && (r.final_answer is None ==> f.contains(("final_answer"@, JsonView::Null)))
            && (r.need_approval is None ==> f.contains(("pending_gate"@, JsonView::Null)))
            && f.len() == 6 && f[0].0 == "action_results"@ && (f[0].1 matches JsonView::Array(a)
            && a.len() == r.action_results.len() && a[i] == ran_json(r.action_results[i])),
{
    let f = code_step_json(r)->Object_0;
    assert(f[1].0 == "final_answer"@);
    assert(f[2].0 == "had_error"@);
    assert(f[3].0 == "pending_gate"@);
    assert(f[4].0 == "return_value"@);
    assert(f[5].0 == "stdout"@);
}

/// A step that waits tells the orchestrator all of what it waits for.
pub proof fn paused_steps_tell_what_they_wait_for(
    gate: Seq<char>,
    action: Seq<char>,
    call: Seq<char>,
    params: JsonView,
    kind: ResumeView,
    output: Option<JsonView>,
)
    ensures
        pending_gate(
            Some(
                OutcomeView::GatePaused {
                    gate_name: gate,
                    action_name: action,
                    call_id: call,
                    parameters: params,
                    resume_kind: kind,
                    resume_output: output,
                },
            ),
        ) matches JsonView::Object(f) && f.contains(("action_name"@, JsonView::Str(action)))
            && f.contains(("call_id"@, JsonView::Str(call))) && f.contains(
            ("gate_name"@, JsonView::Str(gate)),
        ) && f.contains(("gate_paused"@, JsonView::Bool(true))) && f.contains(
            ("parameters"@, params),
        ) && f.contains(("resume_kind"@, resume_json(kind))) && (output matches Some(x)
            ==> f.contains(("resume_output"@, x))) && (output is None ==> f.contains(
            ("resume_output"@, JsonView::Null),
        )),
{
    let f = pending_gate(
        Some(
            OutcomeView::GatePaused {
                gate_name: gate,
                action_name: action,
                call_id: call,
                parameters: params,
                resume_kind: kind,
                resume_output: output,
            },
        ),
    )->Object_0;
    assert(f[0].0 == "action_name"@);
    assert(f[1].0 == "call_id"@);
    assert(f[2].0 == "gate_name"@);
    assert(f[3].0 == "gate_paused"@);
    assert(f[4].0 == "parameters"@);
    assert(f[5].0 == "resume_kind"@);
    assert(f[6].0 == "resume_output"@);
}

} // verus!

//! The run of a thread: how it begins, how it ends, and what it leaves behind.

use vstd::prelude::*;

use crate::executor::host_actions::{empty_object, new_object};
use crate::executor::orchestrator::{after_checkpoint, checkpoint_json};
use crate::json::{
    distinct_keys, field_of, removed_field_is_gone, set_field_is_found, Json, JsonView,
};
use crate::text::{
    chars_of, find_from, has_substring, matches_at, occurs_at, opt_text, str_eq, string_of, trim,
    trimmed,
};
use crate::types::error::{EngineError, ErrorView};
use crate::types::event::{EventKind, EventView, OutcomeView, ThreadOutcome};
use crate::types::message::{
    message_views, plain_message, MessageRole, MessageView, ThreadMessage,
};
use crate::types::thread::{may_follow, state_text, Thread, ThreadState, ThreadView};

verus! {

/// The name under which a checkpoint stands in the metadata of a thread.
pub const RUNTIME_CHECKPOINT_METADATA_KEY: &'static str = "runtime_checkpoint";

/// The state that a run resumes with: that of the last checkpoint, or none.
pub open spec fn resumed_state(metadata: JsonView) -> JsonView {
    match metadata.get(RUNTIME_CHECKPOINT_METADATA_KEY@) {
        Some(c) => match c.get("persisted_state"@) {
            Some(s) => s,
            None => empty_object(),
        },
        None => empty_object(),
    }
}

/// Loads the state that a run resumes with.
pub fn load_runtime_checkpoint(thread: &Thread) -> (r: Json)
    ensures
        r@ == resumed_state(thread@.metadata),
{
    match thread.metadata.get(RUNTIME_CHECKPOINT_METADATA_KEY) {
        Some(c) => match c.get("persisted_state") {
            Some(s) => s.clone(),
            None => new_object(),
        },
        None => new_object(),
    }
}

/// The thread without its checkpoint.
pub open spec fn without_checkpoint(t: ThreadView, now: i128) -> ThreadView {
    ThreadView {
        metadata: t.metadata.unset(RUNTIME_CHECKPOINT_METADATA_KEY@),
        updated_at: now,
        ..t
    }
}

/// Takes the checkpoint out of a thread.
pub fn clear_runtime_checkpoint(thread: &mut Thread, now: i128)
    ensures
        final(thread)@ == without_checkpoint(old(thread)@, now),
{
    thread.metadata.unset(RUNTIME_CHECKPOINT_METADATA_KEY);
    thread.updated_at = now;
}

/// From which event on the events of a thread are still to be stored, where `persisted`
/// of them are.
pub fn first_unpersisted(thread: &Thread, persisted: usize) -> (r: Option<usize>)
    ensures
        r == (if persisted < thread@.events.len() {
            Some(persisted)
        } else {
            None::<usize>
        }),
{
    if persisted < thread.events.len() {
        Some(persisted)
    } else {
        None
    }
}

/// Begins a run: the thread is running after it, where it may be.
pub fn begin_run(thread: &mut Thread, now: i128) -> (r: Result<(), EngineError>)
    ensures
        ({
            let t = old(thread)@;
            if t.state == ThreadState::Running {
                r is Ok && final(thread)@ == t
            } else if may_follow(t.state, ThreadState::Running) {
                r is Ok && final(thread)@ == t.in_state(ThreadState::Running, None, now)
            } else {
                &&& final(thread)@ == t
                &&& r matches Err(e) && e@ == ErrorView::InvalidTransition(
                    state_text(t.state),
                    state_text(ThreadState::Running),
                )
            }
        }),
{
    if thread.state == ThreadState::Running {
        return Ok(());
    }
    thread.transition_to(ThreadState::Running, None, now)
}

/// Whether one of the messages is of the system.
pub open spec fn has_system(m: Seq<MessageView>) -> bool {
    exists|i: int| 0 <= i < m.len() && (#[trigger] m[i]).role == MessageRole::System
}

/// Whether a thread still needs instructions of the system.
pub fn needs_system_prompt(thread: &Thread) -> (r: bool)
    ensures
        r == !has_system(thread@.messages),
{
    let ghost all = thread@.messages;
    let mut i: usize = 0;
    while i < thread.messages.len()
        invariant
            i <= thread.messages@.len(),
            all == message_views(thread.messages@),
            forall|k: int| 0 <= k < i ==> (#[trigger] all[k]).role != MessageRole::System,
        decreases thread.messages@.len() - i,
    {
        assert(all[i as int] == thread.messages@[i as int]@);
        if thread.messages[i].role == MessageRole::System {
            return false;
        }
        i = i + 1;
    }
    true
}

/// Puts instructions of the system before all messages.
pub fn insert_system_prompt(thread: &mut Thread, prompt: &str)
    ensures
        final(thread)@ == (ThreadView {
            messages: seq![plain_message(MessageRole::System, prompt@)] + old(thread)@.messages,
            ..old(thread)@
        }),
{
    let ghost before = thread.messages@;
    thread.messages.insert(0, ThreadMessage::system(prompt));
    assert(message_views(thread.messages@) =~= seq![
        plain_message(MessageRole::System, prompt@),
    ] + message_views(before));
}

/// Whether the orchestrator may be replaced at run time, as a setting tells: only where
/// it is `true` or `1`.
pub fn self_modify_allowed(setting: Option<&str>) -> (r: bool)
    ensures
        r == (setting matches Some(s) && (s@ == "true"@ || s@ == "1"@)),
{
    match setting {
        Some(s) => str_eq(s, "true") || str_eq(s, "1"),
        None => false,
    }
}

/// Notes in the metadata of a thread which version of the orchestrator runs.
pub fn note_version(thread: &mut Thread, version: u64)
    ensures
        final(thread)@ == (ThreadView {
            metadata: old(thread)@.metadata.set(
                "orchestrator_version"@,
                JsonView::Uint(version),
            ),
            ..old(thread)@
        }),
{
    thread.metadata.set("orchestrator_version", Json::Uint(version));
}

/// Whether a thread in this state has ended.
pub open spec fn is_terminal(s: ThreadState) -> bool {
    s == ThreadState::Completed || s == ThreadState::Failed || s == ThreadState::Done
}

/// The event of a version that failed and is given up for the one below it.
pub open spec fn rollback_event(version: u64, error: Seq<char>) -> EventView {
    EventView::OrchestratorRollback {
        from_version: version,
        to_version: if version > 0 {
            (version - 1) as u64
        } else {
            0
        },
        reason: "execution failed: "@ + error,
    }
}

/// The thread after a run that failed: with a store, the failure of a version other
/// than the one built in is put on record; the thread has failed, unless it had ended;
/// and its checkpoint is gone.
pub open spec fn after_failed_run(
    t: ThreadView,
    error: Seq<char>,
    version: u64,
    stored: bool,
    now: i128,
) -> ThreadView {
    let noted = if stored && version > 0 {
        t.with_event(rollback_event(version, error), now)
    } else {
        t
    };
    let failed = if !is_terminal(noted.state) && may_follow(noted.state, ThreadState::Failed) {
        noted.in_state(ThreadState::Failed, Some("orchestrator error: "@ + error), now)
    } else {
        noted
    };
    without_checkpoint(failed, now)
}

/// Ends a run that failed with an error.
pub fn fail_run(thread: &mut Thread, error: &str, version: u64, stored: bool, now: i128) -> (r:
    ThreadOutcome)
    ensures
        r@ == (OutcomeView::Failed { error: "Orchestrator error: "@ + error@ }),
        final(thread)@ == after_failed_run(old(thread)@, error@, version, stored, now),
{
    if stored && version > 0 {
        let mut reason = "execution failed: ".to_owned();
        reason.append(error);
        thread.add_event(
            EventKind::OrchestratorRollback {
                from_version: version,
                to_version: version - 1,
                reason,
            },
            now,
        );
    }
    if thread.state != ThreadState::Completed && thread.state != ThreadState::Failed
        && thread.state != ThreadState::Done {
        let mut reason = "orchestrator error: ".to_owned();
        reason.append(error);
        let _ = thread.transition_to(ThreadState::Failed, Some(reason), now);
    }
    clear_runtime_checkpoint(thread, now);
    let mut s = "Orchestrator error: ".to_owned();
    s.append(error);
    ThreadOutcome::Failed { error: s }
}

/// The least index at or after `from` at which `p` stands in `s`.
pub open spec fn found_at(s: Seq<char>, p: Seq<char>, from: int) -> Option<int>
    decreases s.len() + 1 - from,
{
    if from > s.len() {
        None
    } else if occurs_at(s, p, from) {
        Some(from)
    } else {
        found_at(s, p, from + 1)
    }
}

proof fn lemma_found_at(s: Seq<char>, p: Seq<char>, from: int, r: Option<int>)
    requires
        0 <= from,
        match r {
            Some(i) => from <= i && occurs_at(s, p, i) && forall|j: int|
                from <= j < i ==> !occurs_at(s, p, j),
            None => forall|j: int| from <= j ==> !occurs_at(s, p, j),
        },
    ensures
        found_at(s, p, from) == r,
    decreases s.len() + 1 - from,
{
    if from <= s.len() && !occurs_at(s, p, from) {
        lemma_found_at(s, p, from + 1, r);
    }
}

fn find_at(s: &Vec<char>, p: &Vec<char>, from: usize) -> (r: Option<usize>)
    ensures
        match r {
            Some(i) => found_at(s@, p@, from as int) == Some(i as int) && occurs_at(
                s@,
                p@,
                i as int,
            ) && from <= i,
            None => found_at(s@, p@, from as int) is None,
        },
{
    let r = find_from(s, p, from);
    proof {
        let g: Option<int> = match r {
            Some(i) => Some(i as int),
            None => None,
        };
        lemma_found_at(s@, p@, from as int, g);
    }
    r
}

/// The index of the parenthesis that closes `depth` open ones, at or after `i`.
pub open spec fn closing(s: Seq<char>, i: int, depth: int) -> Option<int>
    decreases s.len() - i,
{
    if i >= s.len() {
        None
    } else if s[i] == '(' {
        closing(s, i + 1, depth + 1)
    } else if s[i] == ')' {
        if depth == 1 {
            Some(i)
        } else {
            closing(s, i + 1, depth - 1)
        }
    } else {
        closing(s, i + 1, depth)
    }
}

/// The answer between triple quotes at the start of a text, trimmed; `None` where there
/// is none or it is empty.
pub open spec fn triple_quoted(s: Seq<char>) -> Option<Seq<char>> {
    let q = "\"\"\""@;
    if occurs_at(s, q, 0) {
        match found_at(s, q, 3) {
            Some(e) if trimmed(s.subrange(3, e)).len() > 0 => Some(trimmed(s.subrange(3, e))),
            _ => None,
        }
    } else {
        None
    }
}

/// The answer between quotes at the start of a text; `None` where there is none or it is
/// empty.
pub open spec fn quoted(s: Seq<char>) -> Option<Seq<char>> {
    if s.len() > 0 && (s[0] == '"' || s[0] == '\'') {
        match found_at(s, seq![s[0]], 1) {
            Some(e) if e > 1 => Some(s.subrange(1, e)),
            _ => None,
        }
    } else {
        None
    }
}

/// The text up to the closing parenthesis, trimmed; `None` where there is none or it is
/// empty.
pub open spec fn unquoted(s: Seq<char>) -> Option<Seq<char>> {
    match closing(s, 0, 1) {
        Some(i) if trimmed(s.take(i)).len() > 0 => Some(trimmed(s.take(i))),
        _ => None,
    }
}

/// The answer that a text gives with `FINAL(...)`: what stands in its quotes, where that
/// is not empty, or all up to the closing parenthesis.
pub open spec fn final_in_text(text: Seq<char>) -> Option<Seq<char>> {
    match found_at(text, "FINAL("@, 0) {
        None => None,
        Some(i) => {
            let rest = text.skip(i + 6);
            match triple_quoted(rest) {
                Some(a) => Some(a),
                None => match quoted(rest) {
                    Some(a) => Some(a),
                    None => unquoted(rest),
                },
            }
        },
    }
}

fn read_triple(rest: &Vec<char>) -> (r: Option<String>)
    ensures
        opt_text(r) == triple_quoted(rest@),
{
    let q = chars_of("\"\"\"");
    proof {
        reveal_strlit("\"\"\"");
    }
    if !matches_at(rest, &q, 0) {
        return None;
    }
    match find_at(rest, &q, 3) {
        Some(e) => {
            let inner = string_of(rest, 3, e);
            let t = trim(inner.as_str());
            if t.is_empty() {
                None
            } else {
                Some(t.to_owned())
            }
        },
        None => None,
    }
}

fn read_quoted(rest: &Vec<char>) -> (r: Option<String>)
    ensures
        opt_text(r) == quoted(rest@),
{
    if rest.len() == 0 || (rest[0] != '"' && rest[0] != '\'') {
        return None;
    }
    let mut q: Vec<char> = Vec::new();
    q.push(rest[0]);
    assert(q@ =~= seq![rest@[0]]);
    match find_at(rest, &q, 1) {
        Some(e) => if e > 1 {
            Some(string_of(rest, 1, e))
        } else {
            None
        },
        None => None,
    }
}

fn read_unquoted(rest: &Vec<char>) -> (r: Option<String>)
    ensures
        opt_text(r) == unquoted(rest@),
{
    let mut depth: u128 = 1;
    let mut i: usize = 0;
    while i < rest.len()
        invariant
            i <= rest@.len(),
            1 <= depth <= i + 1,
            closing(rest@, i as int, depth as int) == closing(rest@, 0, 1),
        decreases rest@.len() - i,
    {
        let c = rest[i];
        if c == '(' {
            depth = depth + 1;
        } else if c == ')' {
            if depth == 1 {
                let inner = string_of(rest, 0, i);
                assert(inner@ =~= rest@.take(i as int));
                let t = trim(inner.as_str());
                if t.is_empty() {
                    return None;
                }
                return Some(t.to_owned());
            }
            depth = depth - 1;
        }
        i = i + 1;
    }
    None
}

/// Reads the answer that a text gives with `FINAL(...)`.
pub fn extract_final_from_text(text: &str) -> (r: Option<String>)
    ensures
        opt_text(r) == final_in_text(text@),
{
    let chars = chars_of(text);
    let marker = chars_of("FINAL(");
    proof {
        reveal_strlit("FINAL(");
    }
    match find_at(&chars, &marker, 0) {
        None => None,
        Some(i) => {
            let n = chars.len();
            assert(i + 6 <= n);
            let rest_text = string_of(&chars, i + 6, n);
            let rest = chars_of(rest_text.as_str());
            assert(rest@ =~= text@.skip(i + 6));
            match read_triple(&rest) {
                Some(a) => Some(a),
                None => match read_quoted(&rest) {
                    Some(a) => Some(a),
                    None => read_unquoted(&rest),
                },
            }
        },
    }
}

/// A state that was saved in a checkpoint is the one that the next run resumes with.
pub proof fn saved_state_is_resumed(t: ThreadView, state: JsonView, counters: JsonView, now: i128)
    requires
        t.metadata is Object,
    ensures
        resumed_state(after_checkpoint(t, state, counters, now).metadata) == state,
{
    let m = t.metadata->Object_0;
    let c = checkpoint_json(state, counters);
    set_field_is_found(m, "runtime_checkpoint"@, c, "runtime_checkpoint"@);
    let f = c->Object_0;
    reveal_strlit("compaction_count");
    reveal_strlit("consecutive_errors");
    reveal_strlit("nudge_count");
    reveal_strlit("persisted_state");
    assert("compaction_count"@.len() == 16);
    assert("consecutive_errors"@.len() == 18);
    assert("nudge_count"@.len() == 11);
    assert("persisted_state"@.len() == 15);
    assert(f.drop_first().drop_first().drop_first()[0] == f[3]);
    reveal_with_fuel(field_of, 5);
    assert(field_of(f, "persisted_state"@) == Some(state));
}

/// A run that ended leaves no state to resume with.
pub proof fn ended_run_leaves_no_state(t: ThreadView, now: i128)
    requires
        t.metadata is Object,
        distinct_keys(t.metadata->Object_0),
    ensures
        resumed_state(without_checkpoint(t, now).metadata) == empty_object(),
{
    removed_field_is_gone(
        t.metadata->Object_0,
        RUNTIME_CHECKPOINT_METADATA_KEY@,
        RUNTIME_CHECKPOINT_METADATA_KEY@,
    );
}

/// A run that failed ends its thread, whatever state that was in.
pub proof fn failed_run_is_terminal(
    t: ThreadView,
    error: Seq<char>,
    version: u64,
    stored: bool,
    now: i128,
)
    ensures
        is_terminal(after_failed_run(t, error, version, stored, now).state),
{
}

/// A pattern is found at the first place where it stands, and nowhere where it stands
/// nowhere.
pub proof fn first_place_is_found(s: Seq<char>, p: Seq<char>, from: int, k: int)
    requires
        0 <= from <= k <= s.len() + 1,
        k <= s.len() ==> occurs_at(s, p, k),
        forall|j: int| from <= j < k ==> !occurs_at(s, p, j),
    ensures
        k <= s.len() ==> found_at(s, p, from) == Some(k),
        k == s.len() + 1 ==> found_at(s, p, from) is None,
    decreases k - from,
{
    if from < k {
        assert(!occurs_at(s, p, from));
        first_place_is_found(s, p, from + 1, k);
    }
}

/// How many more parentheses open than close between two places of a text.
pub open spec fn nesting(s: Seq<char>, i: int, k: int) -> int
    decreases k - i,
{
    if k <= i {
        0
    } else {
        nesting(s, i, k - 1) + (if s[k - 1] == '(' {
            1int
        } else if s[k - 1] == ')' {
            -1int
        } else {
            0int
        })
    }
}

proof fn lemma_nesting(s: Seq<char>, i: int, k: int)
    requires
        i < k,
    ensures
        nesting(s, i, k) == nesting(s, i, i + 1) + nesting(s, i + 1, k),
    decreases k - i,
{
    if i + 1 < k {
        lemma_nesting(s, i, k - 1);
    } else {
        assert(nesting(s, i + 1, k) == 0);
    }
}

/// What closes is the first parenthesis before which as many close as open but for one;
/// where there is none, nothing closes.
pub proof fn closing_parenthesis_is_found(s: Seq<char>, i: int, depth: int, k: int)
    requires
        0 <= i <= k <= s.len(),
        depth >= 1,
        forall|j: int| i <= j <= k ==> depth + #[trigger] nesting(s, i, j) >= 1,
        k < s.len() ==> s[k] == ')' && depth + nesting(s, i, k) == 1,
    ensures
        k < s.len() ==> closing(s, i, depth) == Some(k),
        k == s.len() ==> closing(s, i, depth) is None,
    decreases k - i,
{
    assert(nesting(s, i, i) == 0);
    if i < k {
        assert(nesting(s, i, i + 1) == (if s[i] == '(' {
            1int
        } else if s[i] == ')' {
            -1int
        } else {
            0int
        }));
        let d = depth + nesting(s, i, i + 1);
        assert forall|j: int| i + 1 <= j <= k implies d + #[trigger] nesting(s, i + 1, j) >= 1 by {
            lemma_nesting(s, i, j);
            assert(depth + nesting(s, i, j) >= 1);
        }
        lemma_nesting(s, i, k);
        assert(nesting(s, i + 1, i + 1) == 0);
        assert(d >= 1) by {
            assert(depth + nesting(s, i, i + 1) >= 1);
        }
        closing_parenthesis_is_found(s, i + 1, d, k);
    }
}

proof fn lemma_quote_at(s: Seq<char>, q: char, j: int)
    requires
        0 <= j,
    ensures
        occurs_at(s, seq![q], j) == (j < s.len() && s[j] == q),
{
    if j < s.len() {
        if s[j] == q {
            assert(s.subrange(j, j + 1) =~= seq![q]);
        } else {
            assert(s.subrange(j, j + 1)[0] == s[j]);
        }
    }
}

/// An answer between quotes is all that stands between them.
pub proof fn quoted_answers_are_found(a: Seq<char>, q: char, rest: Seq<char>)
    requires
        q == '"' || q == '\'',
        a.len() > 0,
        !a.contains(q),
    ensures
        quoted(seq![q] + a + seq![q] + rest) == Some(a),
{
    let s = seq![q] + a + seq![q] + rest;
    let k = (a.len() + 1) as int;
    lemma_quote_at(s, q, k);
    assert(s[k] == q);
    assert forall|j: int| 1 <= j < k implies !occurs_at(s, seq![q], j) by {
        lemma_quote_at(s, q, j);
        assert(s[j] == a[j - 1]);
    }
    first_place_is_found(s, seq![q], 1, k);
    assert(s.subrange(1, k) =~= a);
}

/// A code that ends its text with an answer in quotes gives that answer, whatever stands
/// before it and after it.
pub proof fn final_answers_are_found(before: Seq<char>, a: Seq<char>, q: char, rest: Seq<char>)
    requires
        q == '"' || q == '\'',
        a.len() > 0,
        !a.contains(q),
        forall|j: int|
            0 <= j < before.len() ==> !occurs_at(
                before + "FINAL("@ + (seq![q] + a + seq![q] + rest),
                "FINAL("@,
                j,
            ),
    ensures
        final_in_text(before + "FINAL("@ + (seq![q] + a + seq![q] + rest)) == Some(a),
{
    reveal_strlit("FINAL(");
    reveal_strlit("\"\"\"");
    let r = seq![q] + a + seq![q] + rest;
    let s = before + "FINAL("@ + r;
    let k = before.len() as int;
    assert(s.subrange(k, k + 6) =~= "FINAL("@);
    first_place_is_found(s, "FINAL("@, 0, k);
    assert(s.skip(k + 6) =~= r);
    assert(r[1] == a[0]);
    if occurs_at(r, "\"\"\""@, 0) {
        assert(r.subrange(0, 3)[0] == r[0]);
        assert(r.subrange(0, 3)[1] == r[1]);
        assert(a.contains(a[0]));
    }
    quoted_answers_are_found(a, q, rest);
}

/// An answer between triple quotes is all that stands between them, but for the white
/// space around it.
pub proof fn triple_quoted_answers_are_found(a: Seq<char>, rest: Seq<char>)
    requires
        trimmed(a).len() > 0,
        forall|j: int|
            3 <= j < 3 + a.len() ==> !occurs_at(
                "\"\"\""@ + a + "\"\"\""@ + rest,
                "\"\"\""@,
                j,
            ),
    ensures
        triple_quoted("\"\"\""@ + a + "\"\"\""@ + rest) == Some(trimmed(a)),
{
    reveal_strlit("\"\"\"");
    let q = "\"\"\""@;
    let s = q + a + q + rest;
    let k = (3 + a.len()) as int;
    assert(s.subrange(0, 3) =~= q);
    assert(s.subrange(k, k + 3) =~= q);
    first_place_is_found(s, q, 3, k);
    assert(s.subrange(3, k) =~= a);
}

/// An answer without quotes is all up to the parenthesis that closes the call, but for
/// the white space around it.
pub proof fn unquoted_answers_are_found(a: Seq<char>, rest: Seq<char>)
    requires
        trimmed(a).len() > 0,
        nesting(a, 0, a.len() as int) == 0,
        forall|j: int| 0 <= j <= a.len() ==> #[trigger] nesting(a, 0, j) >= 0,
    ensures
        unquoted(a + seq![')'] + rest) == Some(trimmed(a)),
{
    let s = a + seq![')'] + rest;
    let k = a.len() as int;
    assert(s.take(k) =~= a);
    assert forall|j: int| 0 <= j <= k implies 1 + #[trigger] nesting(s, 0, j) >= 1 by {
        lemma_same_nesting(s, a, j);
        assert(nesting(a, 0, j) >= 0);
    }
    lemma_same_nesting(s, a, k);
    closing_parenthesis_is_found(s, 0, 1, k);
}

proof fn lemma_same_nesting(s: Seq<char>, a: Seq<char>, j: int)
    requires
        0 <= j <= a.len() <= s.len(),
        s.take(a.len() as int) == a,
    ensures
        nesting(s, 0, j) == nesting(a, 0, j),
    decreases j,
{
    if j > 0 {
        lemma_same_nesting(s, a, j - 1);
        assert(s.take(a.len() as int)[j - 1] == s[j - 1]);
    }
}

/// A text in which no answer is called for gives none.
pub proof fn other_texts_give_no_answer(text: Seq<char>)
    requires
        !has_substring(text, "FINAL("@),
    ensures
        final_in_text(text) is None,
{
    assert forall|j: int| 0 <= j < text.len() + 1 implies !occurs_at(text, "FINAL("@, j) by {
        if occurs_at(text, "FINAL("@, j) {
            assert(has_substring(text, "FINAL("@));
        }
    }
    first_place_is_found(text, "FINAL("@, 0, (text.len() + 1) as int);
}

/// A run that failed is told on record with its error: the version that failed, where it
/// is kept, and the state of the thread.
pub proof fn failed_runs_tell_their_error(
    t: ThreadView,
    error: Seq<char>,
    version: u64,
    stored: bool,
    now: i128,
)
    requires
        t.state == ThreadState::Running,
    ensures
        after_failed_run(t, error, version, stored, now).state == ThreadState::Failed,
        after_failed_run(t, error, version, stored, now).events.last().kind
            == (EventView::StateChanged {
            from: ThreadState::Running,
            to: ThreadState::Failed,
            reason: Some("orchestrator error: "@ + error),
        }),
        stored && version > 0 ==> after_failed_run(
            t,
            error,
            version,
            stored,
            now,
        ).events[t.events.len() as int].kind == (EventView::OrchestratorRollback {
            from_version: version,
            to_version: (version - 1) as u64,
            reason: "execution failed: "@ + error,
        }),
        !(stored && version > 0) ==> after_failed_run(
            t,
            error,
            version,
            stored,
            now,
        ).events.len() == t.events.len() + 1,
        after_failed_run(t, error, version, stored, now).messages == t.messages,
{
}

/// A thread has ended once it is completed, failed or done.
pub proof fn ended_states_are_these_three()
    ensures
        is_terminal(ThreadState::Completed),
        is_terminal(ThreadState::Failed),
        is_terminal(ThreadState::Done),
        !is_terminal(ThreadState::Created),
        !is_terminal(ThreadState::Running),
        !is_terminal(ThreadState::Waiting),
        !is_terminal(ThreadState::Suspended),
{
}

/// A message of the system is found wherever it stands.
pub proof fn system_messages_are_found(m: Seq<MessageView>, i: int)
    requires
        0 <= i < m.len(),
    ensures
        m[i].role == MessageRole::System ==> has_system(m),
        !has_system(m) ==> m[i].role != MessageRole::System,
{
}

} // verus!

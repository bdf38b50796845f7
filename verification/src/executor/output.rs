//! What the model is told of a step of code, and of the thread that it works in.

use vstd::prelude::*;

use crate::executor::calls::object;
use crate::executor::interchange::{thread_user_timezone, zone_in};
use crate::executor::value::int_json;
use crate::json::{
    field_of, fields, find_key, json_pretty, json_str, key_index, lemma_array_view,
    lemma_is_key_index, lemma_key_index, render_pretty, values, Json, JsonView,
};
use crate::number::{decimal, u64_to_string, usize_to_string};
use crate::text::{
    chars_of, first_chars, has_substring, middle_is_found, occurs_at, string_of, take_chars,
};
use crate::types::message::{
    message_views, role_text, MessageRole, MessageView, ThreadMessage,
};
use crate::types::thread::{Thread, ThreadView};

verus! {

/// How many characters of output the model is shown between steps.
pub const OUTPUT_TRUNCATE_LEN: usize = 8000;

/// How many characters of a long return value the model is shown.
pub const OUTPUT_PREVIEW_LEN: usize = 200;

/// How many characters of the last message of the user the preamble shows.
pub const MESSAGE_PREVIEW_LEN: usize = 500;

/// What is shown of the output of a step: all of it, or its end.
pub open spec fn shown_output(stdout: Seq<char>) -> Seq<char> {
    if stdout.len() > OUTPUT_TRUNCATE_LEN {
        "[TRUNCATED: last 8000 of "@ + decimal(stdout.len()) + " chars shown]\n"@ + stdout.skip(
            stdout.len() - OUTPUT_TRUNCATE_LEN,
        )
    } else {
        "[FULL OUTPUT: "@ + decimal(stdout.len()) + " chars]\n"@ + stdout
    }
}

/// What is shown of a return value: all of it, or its beginning.
pub open spec fn shown_value(value: JsonView) -> Seq<char> {
    let text = json_pretty(value);
    if text.len() > OUTPUT_PREVIEW_LEN {
        "Return value ("@ + decimal(text.len()) + " chars): "@ + text.take(
            OUTPUT_PREVIEW_LEN as int,
        ) + "..."@
    } else {
        "Return value: "@ + text
    }
}

/// What the model is told of a step: its output, where there is any, and what it
/// returned, where that is not null.
pub open spec fn output_metadata(stdout: Seq<char>, value: JsonView) -> Seq<char> {
    if stdout.len() > 0 && value is Null {
        shown_output(stdout)
    } else if stdout.len() > 0 {
        shown_output(stdout) + "\n"@ + shown_value(value)
    } else if value is Null {
        "[code executed, no output]"@
    } else {
        shown_value(value)
    }
}

fn show_output(stdout: &str) -> (r: String)
    ensures
        r@ == shown_output(stdout@),
{
    let chars = chars_of(stdout);
    let n = chars.len();
    if n > OUTPUT_TRUNCATE_LEN {
        let mut s = "[TRUNCATED: last 8000 of ".to_owned();
        s.append(usize_to_string(n).as_str());
        s.append(" chars shown]\n");
        let tail = string_of(&chars, n - OUTPUT_TRUNCATE_LEN, n);
        assert(tail@ =~= stdout@.skip(n - OUTPUT_TRUNCATE_LEN));
        s.append(tail.as_str());
        s
    } else {
        let mut s = "[FULL OUTPUT: ".to_owned();
        s.append(usize_to_string(n).as_str());
        s.append(" chars]\n");
        s.append(stdout);
        s
    }
}

/// Shows a return value whose indented text is `text`.
pub fn show_value(text: &str) -> (r: String)
    ensures
        r@ == if text@.len() > OUTPUT_PREVIEW_LEN {
            "Return value ("@ + decimal(text@.len()) + " chars): "@ + text@.take(
                OUTPUT_PREVIEW_LEN as int,
            ) + "..."@
        } else {
            "Return value: "@ + text@
        },
{
    let n = chars_of(text).len();
    if n > OUTPUT_PREVIEW_LEN {
        let mut s = "Return value (".to_owned();
        s.append(usize_to_string(n).as_str());
        s.append(" chars): ");
        s.append(take_chars(text, OUTPUT_PREVIEW_LEN).as_str());
        s.append("...");
        s
    } else {
        let mut s = "Return value: ".to_owned();
        s.append(text);
        s
    }
}

/// Tells the model of a step.
pub fn compact_output_metadata(stdout: &str, return_value: &Json) -> (r: String)
    ensures
        r@ == output_metadata(stdout@, return_value@),
{
    let shown = match return_value {
        Json::Null => None,
        other => Some(show_value(render_pretty(other).as_str())),
    };
    if stdout.is_empty() {
        match shown {
            Some(v) => v,
            None => "[code executed, no output]".to_owned(),
        }
    } else {
        let mut s = show_output(stdout);
        match shown {
            Some(v) => {
                s.append("\n");
                s.append(v.as_str());
            },
            None => {},
        }
        s
    }
}

/// The characters of the contents of messages.
pub open spec fn content_chars(m: Seq<MessageView>) -> nat
    decreases m.len(),
{
    if m.len() == 0 {
        0
    } else {
        content_chars(m.drop_last()) + m.last().content.len()
    }
}

/// How many messages are of the user.
pub open spec fn user_count(m: Seq<MessageView>) -> nat
    decreases m.len(),
{
    if m.len() == 0 {
        0
    } else if m.last().role == MessageRole::User {
        user_count(m.drop_last()) + 1
    } else {
        user_count(m.drop_last())
    }
}

/// The content of the last message of the user.
pub open spec fn last_user(m: Seq<MessageView>) -> Option<Seq<char>>
    decreases m.len(),
{
    if m.len() == 0 {
        None
    } else if m.last().role == MessageRole::User {
        Some(m.last().content)
    } else {
        last_user(m.drop_last())
    }
}

/// The line that previews the last message of the user; empty where there is none.
pub open spec fn preview(m: Seq<MessageView>) -> Seq<char> {
    match last_user(m) {
        Some(c) => "\nLast user message preview: "@ + first_chars(
            c,
            MESSAGE_PREVIEW_LEN as nat,
        ) + (if c.len() > MESSAGE_PREVIEW_LEN {
            "..."@
        } else {
            ""@
        }),
        None => Seq::empty(),
    }
}

/// The preamble that tells the model of its context before the first step.
pub open spec fn orientation(t: ThreadView) -> Seq<char> {
    "[Step 0 — Context Orientation]\nGoal: "@ + t.goal + "\nContext: "@ + decimal(
        t.messages.len(),
    ) + " messages, "@ + decimal(content_chars(t.messages)) + " total chars, "@ + decimal(
        user_count(t.messages),
    ) + " from user\nStep: "@ + decimal((t.step_count + 1) as nat) + preview(t.messages)
}

proof fn lemma_content_chars(m: Seq<MessageView>, i: int)
    requires
        0 <= i <= m.len(),
    ensures
        content_chars(m.take(i)) <= content_chars(m),
    decreases m.len() - i,
{
    if i < m.len() {
        lemma_content_chars(m, i + 1);
        assert(m.take(i + 1).drop_last() =~= m.take(i));
    } else {
        assert(m.take(i) =~= m);
    }
}

fn preview_text(last: Option<&str>) -> (r: String)
    ensures
        r@ == match last {
            Some(c) => "\nLast user message preview: "@ + first_chars(
                c@,
                MESSAGE_PREVIEW_LEN as nat,
            ) + (if c@.len() > MESSAGE_PREVIEW_LEN {
                "..."@
            } else {
                ""@
            }),
            None => Seq::empty(),
        },
{
    match last {
        Some(c) => {
            let mut s = "\nLast user message preview: ".to_owned();
            s.append(take_chars(c, MESSAGE_PREVIEW_LEN).as_str());
            if chars_of(c).len() > MESSAGE_PREVIEW_LEN {
                s.append("...");
            } else {
                s.append("");
            }
            s
        },
        None => String::new(),
    }
}

/// Makes the preamble that tells the model of its context before the first step.
pub fn build_orientation_preamble(thread: &Thread) -> (r: String)
    requires
        content_chars(thread@.messages) <= usize::MAX,
        thread.step_count < u64::MAX,
    ensures
        r@ == orientation(thread@),
{
    let ghost all = thread@.messages;
    let mut total: usize = 0;
    let mut users: usize = 0;
    let mut last: Option<&str> = None;
    let mut i: usize = 0;
    assert(all.take(0) =~= Seq::<MessageView>::empty());
    while i < thread.messages.len()
        invariant
            i <= thread.messages@.len(),
            all == message_views(thread.messages@),
            content_chars(all) <= usize::MAX,
            total == content_chars(all.take(i as int)),
            users == user_count(all.take(i as int)),
            users <= i,
            match last {
                Some(c) => last_user(all.take(i as int)) == Some(c@),
                None => last_user(all.take(i as int)) is None,
            },
        decreases thread.messages@.len() - i,
    {
        proof {
            assert(all.take(i + 1).drop_last() =~= all.take(i as int));
            assert(all.take(i + 1).last() == thread.messages@[i as int]@);
            lemma_content_chars(all, i + 1);
        }
        let m = &thread.messages[i];
        total = total + chars_of(m.content.as_str()).len();
        if m.role == MessageRole::User {
            users = users + 1;
            last = Some(m.content.as_str());
        }
        i = i + 1;
    }
    assert(all.take(all.len() as int) =~= all);
    let mut s = "[Step 0 — Context Orientation]\nGoal: ".to_owned();
    s.append(thread.goal.as_str());
    s.append("\nContext: ");
    s.append(usize_to_string(thread.messages.len()).as_str());
    s.append(" messages, ");
    s.append(usize_to_string(total).as_str());
    s.append(" total chars, ");
    s.append(usize_to_string(users).as_str());
    s.append(" from user\nStep: ");
    s.append(u64_to_string(thread.step_count + 1).as_str());
    s.append(preview_text(last).as_str());
    s
}

/// A message, as code is shown it.
pub open spec fn shown_message(m: MessageView) -> JsonView {
    let base = seq![
        ("role"@, JsonView::Str(role_text(m.role))),
        ("content"@, JsonView::Str(m.content)),
    ];
    match m.action_name {
        Some(n) => JsonView::Object(base.push(("action_name"@, JsonView::Str(n)))),
        None => JsonView::Object(base),
    }
}

/// The results of actions, by the calls they are of.
pub open spec fn result_pairs(m: Seq<MessageView>) -> Seq<(Seq<char>, JsonView)>
    decreases m.len(),
{
    if m.len() == 0 {
        Seq::empty()
    } else {
        let rest = result_pairs(m.drop_last());
        match m.last().action_call_id {
            Some(id) if m.last().role == MessageRole::ActionResult => rest.push(
                (id, JsonView::Str(m.last().content)),
            ),
            _ => rest,
        }
    }
}

/// The entries of a dictionary that each of `v` was set in, in turn: they stand in the
/// order in which their keys were first set, and of two with one key the last stays.
pub open spec fn entered(v: Seq<(Seq<char>, JsonView)>) -> Seq<(Seq<char>, JsonView)>
    decreases v.len(),
{
    if v.len() == 0 {
        Seq::empty()
    } else {
        let rest = entered(v.drop_last());
        let i = key_index(rest, v.last().0);
        if i < rest.len() {
            rest.update(i, v.last())
        } else {
            rest.push(v.last())
        }
    }
}

/// The time zone that code is told: that of the user, where it is known and valid.
pub open spec fn told_timezone(metadata: JsonView) -> Seq<char> {
    match zone_in(metadata) {
        Some(z) => z.name,
        None => "UTC"@,
    }
}

/// The variables that a step of code starts with.
pub open spec fn context_inputs(t: ThreadView, state: JsonView) -> Seq<(Seq<char>, JsonView)> {
    seq![
        ("context"@, JsonView::Array(t.messages.map_values(|m: MessageView| shown_message(m)))),
        ("goal"@, JsonView::Str(t.goal)),
        ("step_number"@, int_json(t.step_count as i64)),
        ("state"@, state),
        ("previous_results"@, JsonView::Object(entered(result_pairs(t.messages)))),
        ("user_timezone"@, JsonView::Str(told_timezone(t.metadata))),
    ]
}

fn show_message(m: &ThreadMessage) -> (r: Json)
    ensures
        r@ == shown_message(m@),
{
    let mut v: Vec<(String, Json)> = Vec::new();
    v.push(("role".to_owned(), json_str(m.role.name())));
    v.push(("content".to_owned(), json_str(m.content.as_str())));
    if let Some(n) = &m.action_name {
        v.push(("action_name".to_owned(), json_str(n.as_str())));
    }
    assert(fields(v@) =~= shown_message(m@)->Object_0);
    object(v)
}

fn show_messages(messages: &Vec<ThreadMessage>) -> (r: Json)
    ensures
        r@ == JsonView::Array(
            message_views(messages@).map_values(|m: MessageView| shown_message(m)),
        ),
{
    let ghost all = message_views(messages@).map_values(|m: MessageView| shown_message(m));
    let mut out: Vec<Json> = Vec::new();
    let mut i: usize = 0;
    assert(values(out@) =~= all.take(0));
    while i < messages.len()
        invariant
            i <= messages@.len(),
            all == message_views(messages@).map_values(|m: MessageView| shown_message(m)),
            values(out@) == all.take(i as int),
        decreases messages@.len() - i,
    {
        let ghost before = out@;
        out.push(show_message(&messages[i]));
        assert(values(out@) =~= values(before).push(all[i as int]));
        assert(all.take(i + 1) =~= all.take(i as int).push(all[i as int]));
        i = i + 1;
    }
    proof {
        assert(all.take(all.len() as int) =~= all);
        lemma_array_view(out);
    }
    Json::Array(out)
}

fn previous_results(messages: &Vec<ThreadMessage>) -> (r: Json)
    ensures
        r@ == JsonView::Object(entered(result_pairs(message_views(messages@)))),
{
    let ghost all = message_views(messages@);
    let mut out: Vec<(String, Json)> = Vec::new();
    let mut i: usize = 0;
    assert(all.take(0) =~= Seq::<MessageView>::empty());
    assert(fields(out@) =~= Seq::<(Seq<char>, JsonView)>::empty());
    while i < messages.len()
        invariant
            i <= messages@.len(),
            all == message_views(messages@),
            fields(out@) == entered(result_pairs(all.take(i as int))),
        decreases messages@.len() - i,
    {
        let ghost rest = result_pairs(all.take(i as int));
        assert(all.take(i + 1).drop_last() =~= all.take(i as int));
        assert(all.take(i + 1).last() == messages@[i as int]@);
        let m = &messages[i];
        if m.role == MessageRole::ActionResult {
            if let Some(id) = &m.action_call_id {
                let value = json_str(m.content.as_str());
                let ghost x = (id@, value@);
                let ghost before = fields(out@);
                assert(rest.push(x).drop_last() =~= rest);
                let k = find_key(&out, id.as_str());
                if k < out.len() {
                    out.set(k, (id.clone(), value));
                    assert(fields(out@) =~= before.update(k as int, x));
                } else {
                    out.push((id.clone(), value));
                    assert(fields(out@) =~= before.push(x));
                }
            }
        }
        i = i + 1;
    }
    assert(all.take(all.len() as int) =~= all);
    object(out)
}

/// Makes the variables that a step of code starts with.
pub fn build_context_inputs(thread: &Thread, persisted_state: &Json) -> (r: Vec<(String, Json)>)
    ensures
        fields(r@) == context_inputs(thread@, persisted_state@),
{
    let zone = match thread_user_timezone(thread) {
        Some(z) => z.name().to_owned(),
        None => "UTC".to_owned(),
    };
    let n = thread.step_count as i64;
    let step = if n >= 0 {
        Json::Uint(n as u64)
    } else {
        Json::Int(n)
    };
    let mut v: Vec<(String, Json)> = Vec::new();
    v.push(("context".to_owned(), show_messages(&thread.messages)));
    v.push(("goal".to_owned(), json_str(thread.goal.as_str())));
    v.push(("step_number".to_owned(), step));
    v.push(("state".to_owned(), persisted_state.clone()));
    v.push(("previous_results".to_owned(), previous_results(&thread.messages)));
    v.push(("user_timezone".to_owned(), Json::Str(zone)));
    assert(fields(v@) =~= context_inputs(thread@, persisted_state@));
    v
}

/// Of the output of a step the model sees the last eight thousand characters, or all of
/// it where it is no longer.
pub proof fn end_of_the_output_is_shown(stdout: Seq<char>, i: int)
    requires
        0 <= i < stdout.len(),
        i < 8000,
    ensures
        shown_output(stdout).len() > i,
        shown_output(stdout)[shown_output(stdout).len() - 1 - i] == stdout[stdout.len() - 1 - i],
        has_substring(shown_output(stdout), decimal(stdout.len())),
        stdout.len() <= 8000 ==> has_substring(shown_output(stdout), stdout)
            && shown_output(stdout).take(13) == "[FULL OUTPUT:"@,
        stdout.len() > 8000 ==> shown_output(stdout).take(11) == "[TRUNCATED:"@,
{
    reveal_strlit("[FULL OUTPUT: ");
    reveal_strlit("[FULL OUTPUT:");
    reveal_strlit("[TRUNCATED: last 8000 of ");
    reveal_strlit("[TRUNCATED:");
    let s = shown_output(stdout);
    let d = decimal(stdout.len());
    if stdout.len() > 8000 {
        let tail = stdout.skip(stdout.len() - 8000);
        middle_is_found("[TRUNCATED: last 8000 of "@, d, " chars shown]\n"@ + tail);
        assert("[TRUNCATED: last 8000 of "@ + d + (" chars shown]\n"@ + tail) =~= s);
        assert(s.take(11) =~= "[TRUNCATED:"@);
    } else {
        middle_is_found("[FULL OUTPUT: "@, d, " chars]\n"@ + stdout);
        assert("[FULL OUTPUT: "@ + d + (" chars]\n"@ + stdout) =~= s);
        middle_is_found("[FULL OUTPUT: "@ + d + " chars]\n"@, stdout, Seq::empty());
        assert("[FULL OUTPUT: "@ + d + " chars]\n"@ + stdout + Seq::empty() =~= s);
        assert(s.take(13) =~= "[FULL OUTPUT:"@);
    }
}

/// Of what a step returned the model sees the first two hundred characters, or all of it
/// where it is no longer.
pub proof fn beginning_of_the_value_is_shown(value: JsonView)
    ensures
        json_pretty(value).len() <= 200 ==> has_substring(shown_value(value), json_pretty(value)),
        json_pretty(value).len() > 200 ==> has_substring(
            shown_value(value),
            json_pretty(value).take(200),
        ) && has_substring(shown_value(value), decimal(json_pretty(value).len())),
{
    let t = json_pretty(value);
    if t.len() > 200 {
        let d = decimal(t.len());
        middle_is_found("Return value ("@ + d + " chars): "@, t.take(200), "..."@);
        middle_is_found("Return value ("@, d, " chars): "@ + t.take(200) + "..."@);
        assert("Return value ("@ + d + (" chars): "@ + t.take(200) + "..."@) =~= shown_value(
            value,
        ));
    } else {
        middle_is_found("Return value: "@, t, Seq::empty());
        assert("Return value: "@ + t + Seq::empty() =~= shown_value(value));
    }
}

/// The model is told both of the output of a step and of what it returned, the output
/// first; of a step with neither it is told so.
pub proof fn output_and_value_are_told(stdout: Seq<char>, value: JsonView)
    ensures
        stdout.len() > 0 ==> occurs_at(output_metadata(stdout, value), shown_output(stdout), 0),
        !(value is Null) ==> has_substring(output_metadata(stdout, value), shown_value(value)),
        stdout.len() > 0 && !(value is Null) ==> occurs_at(
            output_metadata(stdout, value),
            shown_value(value),
            (shown_output(stdout).len() + 1) as int,
        ),
        stdout.len() == 0 && value is Null ==> output_metadata(stdout, value)
            == "[code executed, no output]"@,
{
    let m = output_metadata(stdout, value);
    let o = shown_output(stdout);
    let v = shown_value(value);
    reveal_strlit("\n");
    if stdout.len() > 0 {
        assert(m.subrange(0, o.len() as int) =~= o);
        if !(value is Null) {
            middle_is_found(o + "\n"@, v, Seq::empty());
            assert(o + "\n"@ + v + Seq::empty() =~= m);
        }
    } else if !(value is Null) {
        middle_is_found(Seq::empty(), v, Seq::empty());
        assert(Seq::<char>::empty() + v + Seq::empty() =~= m);
    }
}

/// Every message is counted: one more adds its characters, and one of the user counts as
/// such, wherever it stands.
pub proof fn every_message_is_counted(a: Seq<MessageView>, m: MessageView, b: Seq<MessageView>)
    ensures
        content_chars(a.push(m) + b) == content_chars(a + b) + m.content.len(),
        m.role == MessageRole::User ==> user_count(a.push(m) + b) == user_count(a + b) + 1,
        m.role != MessageRole::User ==> user_count(a.push(m) + b) == user_count(a + b),
        content_chars(Seq::empty()) == 0,
        user_count(Seq::empty()) == 0,
    decreases b.len(),
{
    if b.len() == 0 {
        assert(a.push(m) + b =~= a.push(m));
        assert(a + b =~= a);
        assert(a.push(m).drop_last() =~= a);
    } else {
        let r = b.drop_last();
        every_message_is_counted(a, m, r);
        assert((a.push(m) + b).drop_last() =~= a.push(m) + r);
        assert((a + b).drop_last() =~= a + r);
    }
}

/// The last message of the user is the one after which no other of the user stands.
pub proof fn last_message_of_the_user_is_found(m: Seq<MessageView>, i: int)
    requires
        -1 <= i < m.len(),
        i >= 0 ==> m[i].role == MessageRole::User,
        forall|j: int| i < j < m.len() ==> (#[trigger] m[j]).role != MessageRole::User,
    ensures
        i >= 0 ==> last_user(m) == Some(m[i].content),
        i == -1 ==> last_user(m) is None,
    decreases m.len(),
{
    if i < m.len() - 1 {
        let r = m.drop_last();
        assert(m[m.len() - 1].role != MessageRole::User);
        assert forall|j: int| i < j < r.len() implies (#[trigger] r[j]).role
            != MessageRole::User by {
            assert(m[j].role != MessageRole::User);
        }
        last_message_of_the_user_is_found(r, i);
    }
}

proof fn found_in_front(s: Seq<char>, q: Seq<char>, r: Seq<char>)
    requires
        has_substring(s, q),
    ensures
        has_substring(s + r, q),
{
    let i = choose|i: int| occurs_at(s, q, i);
    assert((s + r).subrange(i, i + q.len()) =~= s.subrange(i, i + q.len()));
    assert(occurs_at(s + r, q, i));
}

/// Before the first step the model is told its goal, how much there is to read, and the
/// first five hundred characters of the last message of the user.
pub proof fn orientation_tells_of_the_thread(t: ThreadView, i: int)
    requires
        0 <= i < t.messages.len(),
        t.messages[i].role == MessageRole::User,
        forall|j: int|
            i < j < t.messages.len() ==> (#[trigger] t.messages[j]).role != MessageRole::User,
    ensures
        has_substring(orientation(t), t.goal),
        has_substring(orientation(t), decimal(t.messages.len()) + " messages"@),
        has_substring(orientation(t), decimal(content_chars(t.messages)) + " total chars"@),
        has_substring(orientation(t), decimal(user_count(t.messages)) + " from user"@),
        has_substring(orientation(t), "Step: "@ + decimal((t.step_count + 1) as nat)),
        t.messages[i].content.len() <= 500 ==> has_substring(
            orientation(t),
            t.messages[i].content,
        ),
        t.messages[i].content.len() > 500 ==> has_substring(
            orientation(t),
            t.messages[i].content.take(500),
        ),
{
    last_message_of_the_user_is_found(t.messages, i);
    let c = t.messages[i].content;
    let o = orientation(t);
    let n = decimal(t.messages.len());
    let cc = decimal(content_chars(t.messages));
    let u = decimal(user_count(t.messages));
    let st = decimal((t.step_count + 1) as nat);
    let pv = preview(t.messages);
    let c0 = "[Step 0 — Context Orientation]\nGoal: "@ + t.goal;
    let c1 = c0 + "\nContext: "@;
    let c2 = c1 + n;
    let c3 = c2 + " messages, "@;
    let c4 = c3 + cc;
    let c5 = c4 + " total chars, "@;
    let c6 = c5 + u;
    let c7 = c6 + " from user\nStep: "@;
    let c8 = c7 + st;
    assert(o == c8 + pv);
    assert(has_substring(o, t.goal)) by {
        middle_is_found("[Step 0 — Context Orientation]\nGoal: "@, t.goal, "\nContext: "@);
        found_in_front(c1, t.goal, n);
        found_in_front(c2, t.goal, " messages, "@);
        found_in_front(c3, t.goal, cc);
        found_in_front(c4, t.goal, " total chars, "@);
        found_in_front(c5, t.goal, u);
        found_in_front(c6, t.goal, " from user\nStep: "@);
        found_in_front(c7, t.goal, st);
        found_in_front(c8, t.goal, pv);
    }
    assert(has_substring(o, n + " messages"@)) by {
        let q = n + " messages"@;
        reveal_strlit(" messages, ");
        reveal_strlit(" messages");
        reveal_strlit(", ");
        assert(c1 + q + ", "@ =~= c3);
        middle_is_found(c1, q, ", "@);
        found_in_front(c3, q, cc);
        found_in_front(c4, q, " total chars, "@);
        found_in_front(c5, q, u);
        found_in_front(c6, q, " from user\nStep: "@);
        found_in_front(c7, q, st);
        found_in_front(c8, q, pv);
    }
    assert(has_substring(o, cc + " total chars"@)) by {
        let q = cc + " total chars"@;
        reveal_strlit(" total chars, ");
        reveal_strlit(" total chars");
        reveal_strlit(", ");
        assert(c3 + q + ", "@ =~= c5);
        middle_is_found(c3, q, ", "@);
        found_in_front(c5, q, u);
        found_in_front(c6, q, " from user\nStep: "@);
        found_in_front(c7, q, st);
        found_in_front(c8, q, pv);
    }
    assert(has_substring(o, u + " from user"@)) by {
        let q = u + " from user"@;
        reveal_strlit(" from user\nStep: ");
        reveal_strlit(" from user");
        reveal_strlit("\nStep: ");
        assert(c5 + q + "\nStep: "@ =~= c7);
        middle_is_found(c5, q, "\nStep: "@);
        found_in_front(c7, q, st);
        found_in_front(c8, q, pv);
    }
    assert(has_substring(o, "Step: "@ + st)) by {
        let q = "Step: "@ + st;
        reveal_strlit(" from user\nStep: ");
        reveal_strlit(" from user\n");
        reveal_strlit("Step: ");
        assert(c6 + " from user\n"@ + q =~= c8);
        middle_is_found(c6 + " from user\n"@, q, pv);
    }
    let f = first_chars(c, 500);
    assert(has_substring(o, f)) by {
        let e = if c.len() > 500 {
            "..."@
        } else {
            ""@
        };
        let h = "\nLast user message preview: "@;
        assert(c8 + h + f + e =~= c8 + (h + f + e));
        middle_is_found(c8 + h, f, e);
    }
}

/// Code is shown of a message who said it, all that was said, and the action that it is
/// the result of.
pub proof fn messages_are_shown_whole(m: MessageView)
    ensures
        shown_message(m).get("content"@) == Some(JsonView::Str(m.content)),
        shown_message(m).get("role"@) == Some(JsonView::Str(role_text(m.role))),
        m.action_name matches Some(n) ==> shown_message(m).get("action_name"@) == Some(
            JsonView::Str(n),
        ),
        m.action_name is None ==> shown_message(m).get("action_name"@) is None,
{
    reveal_with_fuel(field_of, 4);
    reveal_strlit("content");
    reveal_strlit("role");
    reveal_strlit("action_name");
    assert("content"@.len() == 7 && "role"@.len() == 4 && "action_name"@.len() == 11);
    let f = shown_message(m)->Object_0;
    assert(f[0].0 == "role"@ && f[1].0 == "content"@);
    assert(f.drop_first()[0] == f[1]);
    if m.action_name is Some {
        assert(f.drop_first().drop_first()[0] == f[2]);
    }
}

proof fn lemma_entered(v: Seq<(Seq<char>, JsonView)>, other: Seq<char>)
    requires
        v.len() > 0,
    ensures
        field_of(entered(v), v.last().0) == Some(v.last().1),
        other != v.last().0 ==> field_of(entered(v), other) == field_of(
            entered(v.drop_last()),
            other,
        ),
{
    let rest = entered(v.drop_last());
    let w = entered(v);
    let i = key_index(rest, v.last().0);
    lemma_key_index(rest, v.last().0);
    assert forall|j: int| 0 <= j < i implies (#[trigger] w[j]).0 != v.last().0 by {
        assert(w[j] == rest[j]);
    }
    lemma_is_key_index(w, v.last().0, i);
    lemma_key_index(w, v.last().0);
    if other != v.last().0 {
        let k = key_index(rest, other);
        lemma_key_index(rest, other);
        let at = if k < rest.len() {
            k
        } else {
            w.len() as int
        };
        assert forall|j: int| 0 <= j < at implies (#[trigger] w[j]).0 != other by {
            if j < rest.len() && j != i {
                assert(w[j] == rest[j]);
            }
        }
        lemma_is_key_index(w, other, at);
        lemma_key_index(w, other);
    }
}

/// Of entries made in turn each key has the last that was made under it, and a key under
/// which none was made has none.
pub proof fn the_last_entry_is_found(v: Seq<(Seq<char>, JsonView)>, key: Seq<char>, i: int)
    requires
        -1 <= i < v.len(),
        i >= 0 ==> v[i].0 == key,
        forall|j: int| i < j < v.len() ==> (#[trigger] v[j]).0 != key,
    ensures
        i >= 0 ==> field_of(entered(v), key) == Some(v[i].1),
        i == -1 ==> field_of(entered(v), key) is None,
    decreases v.len(),
{
    if v.len() > 0 {
        let r = v.drop_last();
        lemma_entered(v, key);
        if i < r.len() {
            assert(v[v.len() - 1].0 != key);
            assert forall|j: int| i < j < r.len() implies (#[trigger] r[j]).0 != key by {
                assert(v[j].0 != key);
            }
            the_last_entry_is_found(r, key, i);
        }
    }
}

/// Code is given the result of each action that was called, under its call; of two with
/// one call the last counts.
pub proof fn results_are_given_to_code(m: Seq<MessageView>, id: Seq<char>, i: int)
    requires
        0 <= i < m.len(),
        m[i].role == MessageRole::ActionResult,
        m[i].action_call_id == Some(id),
        forall|j: int|
            i < j < m.len() ==> !((#[trigger] m[j]).role == MessageRole::ActionResult
                && m[j].action_call_id == Some(id)),
    ensures
        field_of(entered(result_pairs(m)), id) == Some(JsonView::Str(m[i].content)),
    decreases m.len(),
{
    let r = m.drop_last();
    let v = result_pairs(m);
    if i < r.len() {
        assert forall|j: int| i < j < r.len() implies !((#[trigger] r[j]).role
            == MessageRole::ActionResult && r[j].action_call_id == Some(id)) by {
            assert(!(m[j].role == MessageRole::ActionResult && m[j].action_call_id == Some(id)));
        }
        results_are_given_to_code(r, id, i);
        let x = m[m.len() - 1];
        if x.role == MessageRole::ActionResult && x.action_call_id is Some {
            assert(v.drop_last() =~= result_pairs(r));
            lemma_entered(v, id);
        }
    } else {
        lemma_entered(v, id);
    }
}

/// Every step of code starts with the messages, the goal, the number of the step, the
/// state that was kept and the time zone.
pub proof fn code_starts_with_its_context(t: ThreadView, state: JsonView, i: int)
    requires
        0 <= i < t.messages.len(),
    ensures
        context_inputs(t, state).len() == 6,
        context_inputs(t, state)[0].0 == "context"@,
        context_inputs(t, state)[0].1 matches JsonView::Array(a) && a.len() == t.messages.len()
            && a[i].get("content"@) == Some(JsonView::Str(t.messages[i].content)),
        context_inputs(t, state)[1] == ("goal"@, JsonView::Str(t.goal)),
        context_inputs(t, state)[2].0 == "step_number"@,
        t.step_count <= i64::MAX ==> context_inputs(t, state)[2].1 == JsonView::Uint(
            t.step_count as u64,
        ),
        context_inputs(t, state)[3] == ("state"@, state),
        context_inputs(t, state)[4].0 == "previous_results"@,
        context_inputs(t, state)[5].0 == "user_timezone"@,
        zone_in(t.metadata) matches Some(z) ==> context_inputs(t, state)[5].1 == JsonView::Str(
            z.name,
        ),
        zone_in(t.metadata) is None ==> context_inputs(t, state)[5].1 == JsonView::Str("UTC"@),
{
    messages_are_shown_whole(t.messages[i]);
}

} // verus!

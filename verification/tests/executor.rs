use ironclaw::executor::compaction::{
    compact_messages, compaction_request, estimate_tokens, should_compact, COMPACTION_PROMPT,
};
use ironclaw::executor::context::{build_step_context, format_docs_as_context, MAX_CONTEXT_DOCS};
use ironclaw::executor::llm::{LlmResponse, TokenUsage};
use ironclaw::executor::loop_engine::{
    begin_run, clear_runtime_checkpoint, extract_final_from_text, fail_run, first_unpersisted,
    insert_system_prompt, load_runtime_checkpoint, needs_system_prompt, note_version,
    self_modify_allowed,
};
use ironclaw::executor::orchestrator::handle_save_checkpoint;
use ironclaw::executor::value::{HostReply, PyKey, PyValue};
use ironclaw::executor::versions::{
    count_failure, load_failing_version, load_failure_count, load_orchestrator_from_docs,
    record_orchestrator_failure, reset_orchestrator_failures, FAILURE_TRACKER_TITLE,
    ORCHESTRATOR_TAG, ORCHESTRATOR_TITLE,
};
use ironclaw::json::Json;
use ironclaw::types::doc::{DocType, MemoryDoc};
use ironclaw::types::event::{EventKind, ThreadOutcome};
use ironclaw::types::ids::{DocId, ProjectId, ThreadId};
use ironclaw::types::message::{MessageRole, ThreadMessage};
use ironclaw::types::thread::{Thread, ThreadConfig, ThreadState, ThreadType};

const NOW: i128 = 1_000;
const BUILT_IN: &str = "def run_loop():\n    __llm_complete__()";

fn config() -> ThreadConfig {
    ThreadConfig {
        max_iterations: 50,
        max_duration_ms: None,
        max_tokens_total: None,
        max_budget_usd: Json::Null,
        model_context_limit: 128_000,
        enable_compaction: false,
        compaction_threshold: Json::Float("0.85".to_string()),
        depth: 0,
        max_depth: 1,
        max_consecutive_errors: 5,
        max_tool_intent_nudges: 2,
        enable_tool_intent_nudge: true,
    }
}

fn thread() -> Thread {
    Thread::new(ThreadId(1), NOW, "goal", ThreadType::Foreground, ProjectId(1), "user", config())
}

// ── compaction ──────────────────────────────────────────

#[test]
fn estimate_tokens_empty() {
    assert_eq!(estimate_tokens(&[]), 0);
}

#[test]
fn estimate_tokens_basic() {
    let msgs = vec![ThreadMessage::system("Hello world"), ThreadMessage::user("Hi")];
    let tokens = estimate_tokens(&msgs);
    assert!(tokens > 0);
    assert!(tokens < 100);
    assert_eq!(tokens, 6);
}

#[test]
fn estimate_counts_characters() {
    // Four characters of three bytes each, and the overhead of a message.
    let msgs = vec![ThreadMessage::user("€€€€")];
    assert_eq!(estimate_tokens(&msgs), 2);
    assert!(should_compact(&msgs, 1));
    assert!(!should_compact(&msgs, 2));
    let called = vec![ThreadMessage::action_result("c1", "größe", "ok")];
    // Two characters, five of the name, and the overhead of a message.
    assert_eq!(estimate_tokens(&called), 3);
}

#[test]
fn should_compact_below_threshold() {
    let msgs = vec![ThreadMessage::user("short message")];
    assert!(!should_compact(&msgs, (128_000f64 * 0.85) as usize));
}

#[test]
fn should_compact_above_threshold() {
    let big = "x".repeat(1000);
    let msgs = vec![ThreadMessage::user(&big)];
    assert!(should_compact(&msgs, (200f64 * 0.85) as usize));
}

#[test]
fn compaction_begins_above_the_threshold() {
    // 36 characters and the overhead of a message: ten tokens.
    let msgs = vec![ThreadMessage::user(&"x".repeat(36))];
    assert_eq!(estimate_tokens(&msgs), 10);
    assert!(should_compact(&msgs, 9));
    assert!(!should_compact(&msgs, 10));
}

#[test]
fn compaction_keeps_the_prompt_and_the_summary() {
    let msgs = vec![
        ThreadMessage::system("prompt"),
        ThreadMessage::user("do it"),
        ThreadMessage::assistant("working"),
    ];
    let request = compaction_request(&msgs);
    assert_eq!(request.messages.len(), 4);
    assert_eq!(request.messages[3].content, COMPACTION_PROMPT);
    let usage = TokenUsage { input_tokens: 10, output_tokens: 5 };
    let result = compact_messages(&msgs, LlmResponse::Text("half done".to_string()), usage, 0);
    assert_eq!(result.summary, "half done");
    assert_eq!(result.tokens_used, usage);
    assert_eq!(result.compacted_messages[0].content, "prompt");
    assert!(result.compacted_messages.iter().any(|m| m.content.contains("half done")));
    assert_eq!(result.tokens_before, estimate_tokens(&msgs));
    assert_eq!(result.tokens_after, estimate_tokens(&result.compacted_messages));
}

// ── context ─────────────────────────────────────────────

fn doc(id: u128, doc_type: DocType, title: &str, content: &str) -> MemoryDoc {
    MemoryDoc::new(DocId(id), NOW, ProjectId(1), "test-user", doc_type, title, content)
}

#[test]
fn context_injects_docs_after_system_prompt() {
    let docs = vec![doc(1, DocType::Lesson, "web tool alias", "Use web_search")];
    let messages = vec![
        ThreadMessage::system("You are an assistant."),
        ThreadMessage::user("search the web"),
    ];
    let ctx_msgs = build_step_context(&messages, &docs);
    assert_eq!(ctx_msgs.len(), 2);
    assert_eq!(ctx_msgs[0].role, MessageRole::System);
    assert!(ctx_msgs[0].content.contains("You are an assistant."));
    assert!(ctx_msgs[0].content.contains("Prior Knowledge"));
    assert!(ctx_msgs[0].content.contains("LESSON"));
    assert!(ctx_msgs[0].content.contains("web_search"));
    assert_eq!(ctx_msgs[1].role, MessageRole::User);
}

#[test]
fn context_without_retrieval_passes_through() {
    let messages = vec![ThreadMessage::system("prompt"), ThreadMessage::user("hello")];
    let ctx_msgs = build_step_context(&messages, &vec![]);
    assert_eq!(ctx_msgs.len(), 2);
    assert_eq!(ctx_msgs, messages);
}

#[test]
fn context_no_docs_means_no_injection() {
    let messages = vec![ThreadMessage::user("hello")];
    let ctx_msgs = build_step_context(&messages, &vec![]);
    assert_eq!(ctx_msgs.len(), 1);
}

#[test]
fn long_documents_are_cut() {
    let text = format_docs_as_context(&[doc(1, DocType::Note, "long", &"y".repeat(501))]);
    assert!(text.contains(&format!("### [NOTE] long\n{}...\n", "y".repeat(500))));
    let whole = format_docs_as_context(&[doc(1, DocType::Note, "fits", &"y".repeat(500))]);
    assert!(!whole.contains("..."));
    assert_eq!(MAX_CONTEXT_DOCS, 5);
}

// ── final answers in text ───────────────────────────────

#[test]
fn final_double_quoted() {
    let text = "some text\nFINAL(\"the answer\")";
    assert_eq!(extract_final_from_text(text).unwrap(), "the answer");
}

#[test]
fn final_single_quoted() {
    let text = "FINAL('hello world')";
    assert_eq!(extract_final_from_text(text).unwrap(), "hello world");
}

#[test]
fn final_triple_quoted() {
    let text = "FINAL(\"\"\"\nmulti\nline\n\"\"\")";
    assert_eq!(extract_final_from_text(text).unwrap(), "multi\nline");
}

#[test]
fn final_unquoted() {
    let text = "FINAL(42)";
    assert_eq!(extract_final_from_text(text).unwrap(), "42");
}

#[test]
fn final_with_nested_parens() {
    let text = "FINAL(f'result is {len(items)}')";
    assert_eq!(
        extract_final_from_text(text).unwrap(),
        "f'result is {len(items)}'"
    );
}

#[test]
fn no_final_returns_none() {
    assert!(extract_final_from_text("just regular text").is_none());
}

#[test]
fn final_after_long_text() {
    let text = "A very long explanation...\n\n🔚 Final Thought\n\nFINAL(\"the conclusion\")";
    assert_eq!(extract_final_from_text(text).unwrap(), "the conclusion");
}

// ── the run of a thread ─────────────────────────────────

#[test]
fn run_begins_in_the_running_state() {
    let mut t = thread();
    assert_eq!(t.state, ThreadState::Created);
    begin_run(&mut t, NOW).unwrap();
    assert_eq!(t.state, ThreadState::Running);
    let events = t.events.len();
    begin_run(&mut t, NOW).unwrap();
    assert_eq!(t.events.len(), events);
    let mut done = thread();
    done.state = ThreadState::Done;
    assert!(begin_run(&mut done, NOW).is_err());
}

#[test]
fn system_prompt_is_put_in_front_once() {
    let mut t = thread();
    t.add_message(ThreadMessage::user("hi"), NOW);
    assert!(needs_system_prompt(&t));
    insert_system_prompt(&mut t, "You are an agent.");
    assert!(!needs_system_prompt(&t));
    assert_eq!(t.messages[0].content, "You are an agent.");
    assert_eq!(t.messages[1].content, "hi");
}

#[test]
fn saved_state_is_loaded_and_cleared() {
    let mut t = thread();
    assert_eq!(load_runtime_checkpoint(&t), Json::Object(vec![]));
    let state = PyValue::Dict(vec![(PyKey::Str("step".to_string()), PyValue::Int(3))]);
    let args = vec![state, PyValue::Dict(vec![])];
    assert_eq!(handle_save_checkpoint(&args, &mut t, NOW), HostReply::Return(Json::Null));
    assert_eq!(
        load_runtime_checkpoint(&t),
        Json::Object(vec![("step".to_string(), Json::Uint(3))])
    );
    clear_runtime_checkpoint(&mut t, NOW);
    assert_eq!(load_runtime_checkpoint(&t), Json::Object(vec![]));
}

#[test]
fn failed_run_ends_the_thread() {
    let mut t = thread();
    begin_run(&mut t, NOW).unwrap();
    note_version(&mut t, 2);
    let outcome = fail_run(&mut t, "boom", 2, true, NOW);
    assert!(matches!(outcome, ThreadOutcome::Failed { .. }));
    assert_eq!(t.state, ThreadState::Failed);
    assert!(t.events.iter().any(|e| matches!(
        &e.kind,
        EventKind::OrchestratorRollback { from_version: 2, to_version: 1, .. }
    )));
}

#[test]
fn self_modification_is_off_by_default() {
    assert!(!self_modify_allowed(None));
    assert!(self_modify_allowed(Some("true")));
    assert!(self_modify_allowed(Some("1")));
    assert!(!self_modify_allowed(Some("yes")));
}

#[test]
fn only_new_events_are_persisted() {
    let mut t = thread();
    assert_eq!(first_unpersisted(&t, 0), None);
    begin_run(&mut t, NOW).unwrap();
    assert_eq!(first_unpersisted(&t, 0), Some(0));
    assert_eq!(first_unpersisted(&t, t.events.len()), None);
}

// ── versions of the orchestrator ────────────────────────

fn version_doc(id: u128, code: &str, version: u64) -> MemoryDoc {
    let mut d = MemoryDoc::new(
        DocId(id),
        NOW,
        ProjectId(1),
        "system",
        DocType::Note,
        ORCHESTRATOR_TITLE,
        code,
    )
    .with_tags(vec![ORCHESTRATOR_TAG.to_string()]);
    d.metadata = Json::Object(vec![("version".to_string(), Json::Uint(version))]);
    d
}

fn tracker(id: u128, content: &str) -> MemoryDoc {
    MemoryDoc::new(
        DocId(id),
        NOW,
        ProjectId(1),
        "system",
        DocType::Note,
        FAILURE_TRACKER_TITLE,
        content,
    )
    .with_tags(vec!["orchestrator_meta".to_string()])
}

#[test]
fn load_orchestrator_without_store_returns_default() {
    let (code, version) = load_orchestrator_from_docs(&vec![], true, BUILT_IN);
    assert_eq!(version, 0);
    assert!(code.contains("run_loop"));
    assert!(code.contains("__llm_complete__"));
}

#[test]
fn load_orchestrator_with_runtime_version() {
    let docs = vec![version_doc(1, "custom_orchestrator_code()", 1)];
    let (code, version) = load_orchestrator_from_docs(&docs, true, BUILT_IN);
    assert_eq!(version, 1);
    assert!(code.contains("custom_orchestrator_code"));
    let (code, version) = load_orchestrator_from_docs(&docs, false, BUILT_IN);
    assert_eq!(version, 0);
    assert_eq!(code, BUILT_IN);
}

#[test]
fn load_orchestrator_picks_highest_version() {
    let docs = vec![
        version_doc(1, "v1_code()", 1),
        version_doc(3, "v3_code()", 3),
        version_doc(2, "v2_code()", 2),
    ];
    let (code, version) = load_orchestrator_from_docs(&docs, true, BUILT_IN);
    assert_eq!(version, 3);
    assert!(code.contains("v3_code"));
}

#[test]
fn rollback_after_max_failures() {
    let docs = vec![
        version_doc(2, "v2_buggy()", 2),
        version_doc(1, "v1_stable()", 1),
        tracker(3, r#"{"version": 2, "count": 3}"#),
    ];
    let (code, version) = load_orchestrator_from_docs(&docs, true, BUILT_IN);
    assert_eq!(version, 1);
    assert!(code.contains("v1_stable"));
}

#[test]
fn rollback_to_default_when_all_versions_fail() {
    let docs = vec![
        version_doc(1, "v1_broken()", 1),
        tracker(2, r#"{"version": 1, "count": 5}"#),
    ];
    let (code, version) = load_orchestrator_from_docs(&docs, true, BUILT_IN);
    assert_eq!(version, 0);
    assert!(code.contains("run_loop"));
}

#[test]
fn failures_of_another_version_do_not_count() {
    let docs = vec![
        version_doc(1, "v1_buggy()", 1),
        version_doc(2, "v2_fixed()", 2),
        tracker(3, r#"{"version": 1, "count": 3}"#),
    ];
    let (code, version) = load_orchestrator_from_docs(&docs, true, BUILT_IN);
    assert_eq!((code.as_str(), version), ("v2_fixed()", 2));
    assert_eq!(load_failing_version(&docs), 1);
    assert_eq!(load_failure_count(&docs), 3);
    let full = vec![tracker(3, r#"{"version": 1, "count": 18446744073709551615}"#)];
    assert!(record_orchestrator_failure(&full, 1, DocId(9), ProjectId(1), "s", NOW).is_none());
    let next = record_orchestrator_failure(&full, 2, DocId(9), ProjectId(1), "s", NOW).unwrap();
    assert_eq!(next.content, r#"{"count":1,"version":2}"#);
}

fn save(docs: &mut Vec<MemoryDoc>, d: Option<MemoryDoc>) {
    if let Some(d) = d {
        docs.retain(|x| x.id != d.id);
        docs.push(d);
    }
}

#[test]
fn record_and_reset_failures() {
    let mut docs: Vec<MemoryDoc> = vec![];
    for i in 0..3 {
        let d = record_orchestrator_failure(&docs, 2, DocId(50 + i), ProjectId(1), "system", NOW);
        save(&mut docs, d);
    }
    assert_eq!(docs.len(), 1);
    assert_eq!(load_failure_count(&docs), 3);
    let d = reset_orchestrator_failures(&docs, NOW);
    save(&mut docs, d);
    assert_eq!(load_failure_count(&docs), 0);
}

#[test]
fn the_first_failure_counts_one() {
    for version in [0u64, 7] {
        let d = record_orchestrator_failure(&vec![], version, DocId(9), ProjectId(1), "s", NOW);
        let d = d.unwrap();
        assert_eq!(d.title, FAILURE_TRACKER_TITLE);
        assert_eq!(d.content, format!(r#"{{"count":1,"version":{version}}}"#));
        let docs = vec![d];
        assert_eq!(load_failure_count(&docs), 1);
        assert_eq!(load_failing_version(&docs), version);
    }
}

#[test]
fn failure_count_resets_on_new_version() {
    let mut docs: Vec<MemoryDoc> = vec![];
    for (i, version) in [1u64, 1, 2].iter().enumerate() {
        let d = record_orchestrator_failure(
            &docs,
            *version,
            DocId(50 + i as u128),
            ProjectId(1),
            "system",
            NOW,
        );
        save(&mut docs, d);
    }
    assert_eq!(load_failure_count(&docs), 1);
    assert_eq!(count_failure(2, 4, 2), 5);
    assert_eq!(count_failure(1, 4, 2), 1);
}

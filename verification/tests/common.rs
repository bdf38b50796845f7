use ironclaw::common::event::{AppEvent, ToolDecisionDto};
use ironclaw::common::timezone::{lenient_timezone, ValidTimezone};
use ironclaw::common::MAX_WORKER_ITERATIONS;
use ironclaw::json::Json;

#[test]
fn event_type_matches_serde_type_field() {
    let variants: Vec<(AppEvent, &str)> = vec![
        (
            AppEvent::Response {
                content: String::new(),
                thread_id: String::new(),
            },
            "response",
        ),
        (
            AppEvent::Thinking {
                message: String::new(),
                thread_id: None,
            },
            "thinking",
        ),
        (
            AppEvent::ToolStarted {
                name: String::new(),
                thread_id: None,
            },
            "tool_started",
        ),
        (
            AppEvent::ToolCompleted {
                name: String::new(),
                success: true,
                error: None,
                parameters: None,
                thread_id: None,
            },
            "tool_completed",
        ),
        (
            AppEvent::ToolResult {
                name: String::new(),
                preview: String::new(),
                thread_id: None,
            },
            "tool_result",
        ),
        (
            AppEvent::StreamChunk {
                content: String::new(),
                thread_id: None,
            },
            "stream_chunk",
        ),
        (
            AppEvent::Status {
                message: String::new(),
                thread_id: None,
            },
            "status",
        ),
        (
            AppEvent::JobStarted {
                job_id: String::new(),
                title: String::new(),
                browse_url: String::new(),
            },
            "job_started",
        ),
        (
            AppEvent::ApprovalNeeded {
                request_id: String::new(),
                tool_name: String::new(),
                description: String::new(),
                parameters: String::new(),
                thread_id: None,
                allow_always: false,
            },
            "approval_needed",
        ),
        (
            AppEvent::AuthRequired {
                extension_name: String::new(),
                instructions: None,
                auth_url: None,
                setup_url: None,
                thread_id: None,
            },
            "auth_required",
        ),
        (
            AppEvent::AuthCompleted {
                extension_name: String::new(),
                success: true,
                message: String::new(),
                thread_id: None,
            },
            "auth_completed",
        ),
        (
            AppEvent::Error {
                message: String::new(),
                thread_id: None,
            },
            "error",
        ),
        (
            AppEvent::Heartbeat,
            "heartbeat",
        ),
        (
            AppEvent::JobMessage {
                job_id: String::new(),
                role: String::new(),
                content: String::new(),
            },
            "job_message",
        ),
        (
            AppEvent::JobToolUse {
                job_id: String::new(),
                tool_name: String::new(),
                input: Json::Null,
            },
            "job_tool_use",
        ),
        (
            AppEvent::JobToolResult {
                job_id: String::new(),
                tool_name: String::new(),
                output: String::new(),
            },
            "job_tool_result",
        ),
        (
            AppEvent::JobStatus {
                job_id: String::new(),
                message: String::new(),
            },
            "job_status",
        ),
        (
            AppEvent::JobResult {
                job_id: String::new(),
                status: String::new(),
                session_id: None,
                fallback_deliverable: None,
            },
            "job_result",
        ),
        (
            AppEvent::ImageGenerated {
                data_url: String::new(),
                path: None,
                thread_id: None,
            },
            "image_generated",
        ),
        (
            AppEvent::Suggestions {
                suggestions: vec![],
                thread_id: None,
            },
            "suggestions",
        ),
        (
            AppEvent::TurnCost {
                input_tokens: 0,
                output_tokens: 0,
                cost_usd: String::new(),
                thread_id: None,
            },
            "turn_cost",
        ),
        (
            AppEvent::SkillActivated {
                skill_names: vec![],
                thread_id: None,
            },
            "skill_activated",
        ),
        (
            AppEvent::ExtensionStatus {
                extension_name: String::new(),
                status: String::new(),
                message: None,
            },
            "extension_status",
        ),
        (
            AppEvent::ReasoningUpdate {
                narrative: String::new(),
                decisions: vec![],
                thread_id: None,
            },
            "reasoning_update",
        ),
        (
            AppEvent::JobReasoning {
                job_id: String::new(),
                narrative: String::new(),
                decisions: vec![],
            },
            "job_reasoning",
        ),
        (
            AppEvent::ThreadStateChanged {
                thread_id: String::new(),
                from_state: String::new(),
                to_state: String::new(),
                reason: None,
            },
            "thread_state_changed",
        ),
        (
            AppEvent::ChildThreadSpawned {
                parent_thread_id: String::new(),
                child_thread_id: String::new(),
                goal: String::new(),
            },
            "child_thread_spawned",
        ),
        (
            AppEvent::MissionThreadSpawned {
                mission_id: String::new(),
                thread_id: String::new(),
                mission_name: String::new(),
            },
            "mission_thread_spawned",
        ),
        (
            AppEvent::PlanUpdate {
                plan_id: String::new(),
                title: String::new(),
                status: String::new(),
                steps: vec![],
                mission_id: None,
                thread_id: None,
            },
            "plan_update",
        ),
        (
            AppEvent::GateRequired {
                request_id: String::new(),
                gate_name: String::new(),
                tool_name: String::new(),
                description: String::new(),
                parameters: String::new(),
                resume_kind: Json::Null,
                thread_id: None,
            },
            "gate_required",
        ),
        (
            AppEvent::GateResolved {
                request_id: String::new(),
                gate_name: String::new(),
                tool_name: String::new(),
                resolution: String::new(),
                message: String::new(),
                thread_id: None,
            },
            "gate_resolved",
        ),
    ];
    for (variant, name) in &variants {
        assert_eq!(
            variant.event_type(),
            *name,
            "event_type() mismatch for variant: {:?}",
            variant
        );
    }
}

fn decision(tool: Json, rationale: Json) -> Json {
    Json::Object(vec![
        ("rationale".to_string(), rationale),
        ("tool_name".to_string(), tool),
    ])
}

#[test]
fn decisions_are_read_from_an_array() {
    let text = |s: &str| Json::Str(s.to_string());
    let value = Json::Array(vec![
        decision(text("shell"), text("to list files")),
        decision(Json::Uint(1), text("no name")),
        text("no object"),
        decision(text("http"), text("to fetch")),
    ]);
    let read = ToolDecisionDto::from_json_array(&value);
    assert_eq!(
        read,
        vec![
            ToolDecisionDto { tool_name: "shell".into(), rationale: "to list files".into() },
            ToolDecisionDto { tool_name: "http".into(), rationale: "to fetch".into() },
        ]
    );
    assert!(ToolDecisionDto::from_json_array(&Json::Null).is_empty());
}

#[test]
fn worker_iterations_are_bounded() {
    assert_eq!(MAX_WORKER_ITERATIONS, 500);
}

#[test]
fn parse_valid_timezone() {
    let tz = ValidTimezone::parse("America/New_York").unwrap();
    assert_eq!(tz.name(), "America/New_York");
    assert_eq!(tz.tz(), chrono_tz::Tz::America__New_York);
}

#[test]
fn parse_with_whitespace() {
    let tz = ValidTimezone::parse("  Europe/London  ").unwrap();
    assert_eq!(tz.name(), "Europe/London");
}

#[test]
fn parse_empty_returns_none() {
    assert!(ValidTimezone::parse("").is_none());
    assert!(ValidTimezone::parse("   ").is_none());
}

#[test]
fn parse_invalid_returns_none() {
    assert!(ValidTimezone::parse("NotATimezone").is_none());
    assert!(ValidTimezone::parse("US/FakeCity").is_none());
}

fn stored(text: &str) -> Option<ValidTimezone> {
    let value: serde_json::Value = serde_json::from_str(text).unwrap();
    lenient_timezone(value.get("tz").and_then(|v| v.as_str()))
}

#[test]
fn lenient_deserialize_valid() {
    assert_eq!(stored(r#"{"tz":"America/Chicago"}"#).unwrap().name(), "America/Chicago");
}

#[test]
fn lenient_deserialize_invalid_becomes_none() {
    assert!(stored(r#"{"tz":"NotReal"}"#).is_none(), "invalid timezone should become None");
}

#[test]
fn lenient_deserialize_null_becomes_none() {
    assert!(stored(r#"{"tz":null}"#).is_none());
}

#[test]
fn lenient_deserialize_missing_becomes_none() {
    assert!(stored(r#"{}"#).is_none());
}

#[test]
fn every_zone_is_found_under_its_name() {
    for tz in chrono_tz::TZ_VARIANTS {
        let found = ValidTimezone::parse(tz.name()).unwrap();
        assert_eq!(found.name(), tz.name());
        assert_eq!(found.tz(), tz);
    }
}

use codex_core::hooks::{
    legacy_notify_json, notify_hook_command, HookEvent, HookEventAfterAgent,
    HookEventAgentStop, HookEventAgentUserPrompt, HookEventBeforeAgent, LegacyNotifyError,
};
use codex_core::notification::{
    notification_to_json, UserNotification, UserNotifier, UserPromptNotification,
};
use serde_json::Value;

fn s(text: &str) -> String {
    text.to_string()
}

fn expected_notification_json() -> Value {
    serde_json::from_str(
        r#"{
            "type": "agent-turn-complete",
            "thread-id": "b5f6c1c2-1111-2222-3333-444455556666",
            "turn-id": "12345",
            "cwd": "/Users/example/project",
            "input-messages": ["Rename `foo` to `bar` and update the callsites."],
            "last-assistant-message": "Rename complete and verified `cargo build` succeeds."
        }"#,
    )
    .unwrap()
}

#[test]
fn user_notification_test_user_notification() {
    let start_notification = UserNotification::AgentTurnStart {
        thread_id: s("b5f6c1c2-1111-2222-3333-444455556666"),
        turn_id: s("12345"),
        cwd: s("/Users/example/project"),
        input_messages: vec![s("Rename `foo` to `bar` and update the callsites.")],
    };
    let start_serialized = notification_to_json(&start_notification);
    assert_eq!(
        start_serialized,
        r#"{"type":"agent-turn-start","thread-id":"b5f6c1c2-1111-2222-3333-444455556666","turn-id":"12345","cwd":"/Users/example/project","input-messages":["Rename `foo` to `bar` and update the callsites."]}"#
    );

    let notification = UserNotification::AgentTurnComplete {
        thread_id: s("b5f6c1c2-1111-2222-3333-444455556666"),
        turn_id: s("12345"),
        cwd: s("/Users/example/project"),
        input_messages: vec![s("Rename `foo` to `bar` and update the callsites.")],
        last_assistant_message: Some(s("Rename complete and verified `cargo build` succeeds.")),
    };
    let serialized = notification_to_json(&notification);
    assert_eq!(
        serialized,
        r#"{"type":"agent-turn-complete","thread-id":"b5f6c1c2-1111-2222-3333-444455556666","turn-id":"12345","cwd":"/Users/example/project","input-messages":["Rename `foo` to `bar` and update the callsites."],"last-assistant-message":"Rename complete and verified `cargo build` succeeds."}"#
    );

    let stop_notification = UserNotification::AgentTurnStop {
        thread_id: s("b5f6c1c2-1111-2222-3333-444455556666"),
        turn_id: s("54321"),
        cwd: s("/Users/example/project"),
        input_messages: vec![s("hello world")],
    };
    let stop_serialized = notification_to_json(&stop_notification);
    assert_eq!(
        stop_serialized,
        r#"{"type":"agent-turn-stop","thread-id":"b5f6c1c2-1111-2222-3333-444455556666","turn-id":"54321","cwd":"/Users/example/project","input-messages":["hello world"]}"#
    );

    let prompt_notification = UserNotification::AgentTurnUserPrompt {
        thread_id: s("thread-1"),
        turn_id: s("turn-2"),
        cwd: s("/tmp"),
        prompt: UserPromptNotification::ExecApproval {
            command: vec![s("bash"), s("-lc"), s("ls")],
            reason: Some(s("safety")),
        },
    };
    let prompt_serialized = notification_to_json(&prompt_notification);
    assert_eq!(
        prompt_serialized,
        r#"{"type":"agent-turn-user-prompt","thread-id":"thread-1","turn-id":"turn-2","cwd":"/tmp","prompt":{"prompt-type":"exec-approval","command":["bash","-lc","ls"],"reason":"safety"}}"#
    );
}

#[test]
fn test_user_notification() {
    let notification = UserNotification::AgentTurnComplete {
        thread_id: s("b5f6c1c2-1111-2222-3333-444455556666"),
        turn_id: s("12345"),
        cwd: s("/Users/example/project"),
        input_messages: vec![s("Rename `foo` to `bar` and update the callsites.")],
        last_assistant_message: Some(s("Rename complete and verified `cargo build` succeeds.")),
    };
    let serialized = notification_to_json(&notification);
    let actual: Value = serde_json::from_str(&serialized).unwrap();
    assert_eq!(actual, expected_notification_json());
}

#[test]
fn legacy_notify_json_matches_historical_wire_shape() {
    let hook_event = HookEvent::AfterAgent {
        event: HookEventAfterAgent {
            thread_id: s("b5f6c1c2-1111-2222-3333-444455556666"),
            turn_id: s("12345"),
            input_messages: vec![s("Rename `foo` to `bar` and update the callsites.")],
            last_assistant_message: Some(s(
                "Rename complete and verified `cargo build` succeeds.",
            )),
        },
    };
    let serialized = legacy_notify_json(&hook_event, "/Users/example/project").ok().unwrap();
    let actual: Value = serde_json::from_str(&serialized).unwrap();
    assert_eq!(actual, expected_notification_json());
}

#[test]
fn completion_without_assistant_message_writes_null() {
    let notification = UserNotification::AgentTurnComplete {
        thread_id: s("t"),
        turn_id: s("1"),
        cwd: s("/"),
        input_messages: vec![],
        last_assistant_message: None,
    };
    assert_eq!(
        notification_to_json(&notification),
        r#"{"type":"agent-turn-complete","thread-id":"t","turn-id":"1","cwd":"/","input-messages":[],"last-assistant-message":null}"#
    );
}

#[test]
fn patch_approval_without_reason_omits_reason() {
    let notification = UserNotification::AgentTurnUserPrompt {
        thread_id: s("t"),
        turn_id: s("2"),
        cwd: s("/work"),
        prompt: UserPromptNotification::ApplyPatchApproval {
            files: vec![s("src/a.rs"), s("b.txt")],
            reason: None,
        },
    };
    assert_eq!(
        notification_to_json(&notification),
        r#"{"type":"agent-turn-user-prompt","thread-id":"t","turn-id":"2","cwd":"/work","prompt":{"prompt-type":"apply-patch-approval","files":["src/a.rs","b.txt"]}}"#
    );
}

#[test]
fn strings_are_escaped_as_json() {
    let notification = UserNotification::AgentTurnStart {
        thread_id: s("a\"b"),
        turn_id: s("back\\slash"),
        cwd: s("tab\there"),
        input_messages: vec![s("line\nbreak"), s("bell\u{7}"), s("é")],
    };
    assert_eq!(
        notification_to_json(&notification),
        "{\"type\":\"agent-turn-start\",\"thread-id\":\"a\\\"b\",\"turn-id\":\"back\\\\slash\",\"cwd\":\"tab\\there\",\"input-messages\":[\"line\\nbreak\",\"bell\\u0007\",\"é\"]}"
    );
}

#[test]
fn legacy_payload_for_each_event_kind() {
    let before = HookEvent::BeforeAgent {
        event: HookEventBeforeAgent {
            thread_id: s("t"),
            turn_id: s("1"),
            input_messages: vec![s("hi")],
        },
    };
    assert_eq!(
        legacy_notify_json(&before, "/p").ok().unwrap(),
        r#"{"type":"agent-turn-start","thread-id":"t","turn-id":"1","cwd":"/p","input-messages":["hi"]}"#
    );
    let stop = HookEvent::AgentStop {
        event: HookEventAgentStop {
            thread_id: s("t"),
            turn_id: s("1"),
            input_messages: vec![],
        },
    };
    assert_eq!(
        legacy_notify_json(&stop, "/p").ok().unwrap(),
        r#"{"type":"agent-turn-stop","thread-id":"t","turn-id":"1","cwd":"/p","input-messages":[]}"#
    );
    let prompt = HookEvent::AgentUserPrompt {
        event: HookEventAgentUserPrompt {
            thread_id: s("t"),
            turn_id: s("1"),
            prompt: UserPromptNotification::ExecApproval {
                command: vec![s("ls")],
                reason: None,
            },
        },
    };
    assert_eq!(
        legacy_notify_json(&prompt, "/p").ok().unwrap(),
        r#"{"type":"agent-turn-user-prompt","thread-id":"t","turn-id":"1","cwd":"/p","prompt":{"prompt-type":"exec-approval","command":["ls"]}}"#
    );
}

#[test]
fn legacy_payload_refused_for_other_events() {
    assert!(matches!(
        legacy_notify_json(&HookEvent::Other, "/p"),
        Err(LegacyNotifyError::UnsupportedEvent)
    ));
}

#[test]
fn notifier_appends_payload_to_command() {
    let notifier = UserNotifier::new(Some(vec![s("notify-send"), s("--urgent")]));
    let notification = UserNotification::AgentTurnStop {
        thread_id: s("t"),
        turn_id: s("9"),
        cwd: s("/"),
        input_messages: vec![s("x")],
    };
    let argv = notifier.notify(&notification).unwrap();
    assert_eq!(
        argv,
        vec![
            s("notify-send"),
            s("--urgent"),
            s(r#"{"type":"agent-turn-stop","thread-id":"t","turn-id":"9","cwd":"/","input-messages":["x"]}"#),
        ]
    );
}

#[test]
fn notifier_without_command_runs_nothing() {
    let notification = UserNotification::AgentTurnStop {
        thread_id: s("t"),
        turn_id: s("9"),
        cwd: s("/"),
        input_messages: vec![],
    };
    assert!(UserNotifier::new(None).notify(&notification).is_none());
    assert!(UserNotifier::new(Some(vec![])).notify(&notification).is_none());
}

#[test]
fn hook_command_appends_payload_when_supported() {
    let argv = vec![s("prog"), s("arg")];
    let stop = HookEvent::AgentStop {
        event: HookEventAgentStop {
            thread_id: s("t"),
            turn_id: s("1"),
            input_messages: vec![],
        },
    };
    assert_eq!(
        notify_hook_command(&argv, &stop, "/p").unwrap(),
        vec![
            s("prog"),
            s("arg"),
            s(r#"{"type":"agent-turn-stop","thread-id":"t","turn-id":"1","cwd":"/p","input-messages":[]}"#),
        ]
    );
    assert_eq!(
        notify_hook_command(&argv, &HookEvent::Other, "/p").unwrap(),
        vec![s("prog"), s("arg")]
    );
    assert!(notify_hook_command(&vec![], &stop, "/p").is_none());
}

#[test]
fn unsupported_event_error_message() {
    assert_eq!(
        LegacyNotifyError::UnsupportedEvent.message(),
        "legacy notify payload is not supported for this event type"
    );
}

#[test]
fn default_notifier_runs_nothing() {
    let notification = UserNotification::AgentTurnStop {
        thread_id: s("t"),
        turn_id: s("9"),
        cwd: s("/"),
        input_messages: vec![],
    };
    assert!(UserNotifier::default().notify(&notification).is_none());
}

//! The legacy notify hook: a user's program run after agent events, with the
//! event's notification JSON as its last argument.

use vstd::prelude::*;
use crate::json::json_text;
use crate::notification::{
    UserNotification, UserPromptNotification, copy_string, copy_strings, command_with_payload,
    header_fields, notification_model, notification_to_json, optional_string_model,
    prompt_model, strings_model,
};
use crate::json::JsonModel;

verus! {

pub struct HookEventBeforeAgent {
    pub thread_id: String,
    pub turn_id: String,
    pub input_messages: Vec<String>,
}

pub struct HookEventAfterAgent {
    pub thread_id: String,
    pub turn_id: String,
    pub input_messages: Vec<String>,
    pub last_assistant_message: Option<String>,
}

pub struct HookEventAgentUserPrompt {
    pub thread_id: String,
    pub turn_id: String,
    pub prompt: UserPromptNotification,
}

pub struct HookEventAgentStop {
    pub thread_id: String,
    pub turn_id: String,
    pub input_messages: Vec<String>,
}

/// An event that hooks are run for.
#[allow(inconsistent_fields)]
pub enum HookEvent {
    BeforeAgent { event: HookEventBeforeAgent },
    AfterAgent { event: HookEventAfterAgent },
    AgentUserPrompt { event: HookEventAgentUserPrompt },
    AgentStop { event: HookEventAgentStop },
    /// An event that has no legacy notification payload.
    Other,
}

/// Why no legacy payload could be written.
pub enum LegacyNotifyError {
    /// The event has no legacy notification payload.
    UnsupportedEvent,
}

impl LegacyNotifyError {
    /// The error's message.
    pub fn message(&self) -> (r: String)
        ensures
            r@ == "legacy notify payload is not supported for this event type"@,
    {
        match self {
            LegacyNotifyError::UnsupportedEvent => {
                "legacy notify payload is not supported for this event type".to_owned()
            },
        }
    }
}

/// The JSON object of the legacy notification for `event`, run in `cwd`, if it has one.
pub open spec fn legacy_notification_model(event: HookEvent, cwd: Seq<char>) -> Option<JsonModel> {
    match event {
        HookEvent::BeforeAgent { event: e } => Some(
            JsonModel::Object(
                header_fields("agent-turn-start"@, e.thread_id@, e.turn_id@, cwd).push(
                    ("input-messages"@, strings_model(e.input_messages@)),
                ),
            ),
        ),
        HookEvent::AfterAgent { event: e } => Some(
            JsonModel::Object(
                header_fields("agent-turn-complete"@, e.thread_id@, e.turn_id@, cwd).push(
                    ("input-messages"@, strings_model(e.input_messages@)),
                ).push(
                    ("last-assistant-message"@, optional_string_model(e.last_assistant_message)),
                ),
            ),
        ),
        HookEvent::AgentUserPrompt { event: e } => Some(
            JsonModel::Object(
                header_fields("agent-turn-user-prompt"@, e.thread_id@, e.turn_id@, cwd).push(
                    ("prompt"@, prompt_model(e.prompt)),
                ),
            ),
        ),
        HookEvent::AgentStop { event: e } => Some(
            JsonModel::Object(
                header_fields("agent-turn-stop"@, e.thread_id@, e.turn_id@, cwd).push(
                    ("input-messages"@, strings_model(e.input_messages@)),
                ),
            ),
        ),
        HookEvent::Other => None,
    }
}

/// A copy of a prompt.
fn copy_prompt(p: &UserPromptNotification) -> (r: UserPromptNotification)
    ensures
        prompt_model(r) == prompt_model(*p),
{
    match p {
        UserPromptNotification::ExecApproval { command, reason } => {
            UserPromptNotification::ExecApproval {
                command: copy_strings(command),
                reason: copy_optional(reason),
            }
        },
        UserPromptNotification::ApplyPatchApproval { files, reason } => {
            UserPromptNotification::ApplyPatchApproval {
                files: copy_strings(files),
                reason: copy_optional(reason),
            }
        },
    }
}

fn copy_optional(s: &Option<String>) -> (r: Option<String>)
    ensures
        r == *s,
{
    match s {
        Some(s) => Some(copy_string(s)),
        None => None,
    }
}

/// The legacy notification for `event`, run in `cwd`, if the event has one.
pub fn legacy_notification(event: &HookEvent, cwd: &str) -> (r: Option<UserNotification>)
    ensures
        match r {
            Some(n) => legacy_notification_model(*event, cwd@) == Some(notification_model(n)),
            None => legacy_notification_model(*event, cwd@) is None,
        },
{
    match event {
        HookEvent::BeforeAgent { event } => Some(
            UserNotification::AgentTurnStart {
                thread_id: copy_string(&event.thread_id),
                turn_id: copy_string(&event.turn_id),
                cwd: cwd.to_owned(),
                input_messages: copy_strings(&event.input_messages),
            },
        ),
        HookEvent::AfterAgent { event } => Some(
            UserNotification::AgentTurnComplete {
                thread_id: copy_string(&event.thread_id),
                turn_id: copy_string(&event.turn_id),
                cwd: cwd.to_owned(),
                input_messages: copy_strings(&event.input_messages),
                last_assistant_message: copy_optional(&event.last_assistant_message),
            },
        ),
        HookEvent::AgentUserPrompt { event } => Some(
            UserNotification::AgentTurnUserPrompt {
                thread_id: copy_string(&event.thread_id),
                turn_id: copy_string(&event.turn_id),
                cwd: cwd.to_owned(),
                prompt: copy_prompt(&event.prompt),
            },
        ),
        HookEvent::AgentStop { event } => Some(
            UserNotification::AgentTurnStop {
                thread_id: copy_string(&event.thread_id),
                turn_id: copy_string(&event.turn_id),
                cwd: cwd.to_owned(),
                input_messages: copy_strings(&event.input_messages),
            },
        ),
        HookEvent::Other => None,
    }
}

/// The legacy notify payload for `event`, run in `cwd`: the JSON text of its
/// notification, in the wire shape that notify programs have always received.
pub fn legacy_notify_json(event: &HookEvent, cwd: &str) -> (r: Result<String, LegacyNotifyError>)
    ensures
        match legacy_notification_model(*event, cwd@) {
            Some(m) => r matches Ok(text) && text@ == json_text(m),
            None => r matches Err(LegacyNotifyError::UnsupportedEvent),
        },
{
    match legacy_notification(event, cwd) {
        Some(n) => Ok(notification_to_json(&n)),
        None => Err(LegacyNotifyError::UnsupportedEvent),
    }
}

/// The command line that the notify hook runs for `event`, run in `cwd`: `argv` with
/// the legacy payload appended where the event has one. Nothing runs for an empty
/// `argv`.
pub fn notify_hook_command(argv: &Vec<String>, event: &HookEvent, cwd: &str) -> (r: Option<
    Vec<String>,
>)
    ensures
        argv@.len() == 0 ==> r is None,
        argv@.len() > 0 ==> (r matches Some(command) && match legacy_notification_model(
            *event,
            cwd@,
        ) {
            Some(m) => command_with_payload(argv@, json_text(m), command@),
            None => command@ == argv@,
        }),
{
    if argv.len() == 0 {
        return None;
    }
    let mut command = copy_strings(argv);
    if let Ok(payload) = legacy_notify_json(event, cwd) {
        command.push(payload);
        assert(command@.take(argv@.len() as int) =~= argv@);
    }
    Some(command)
}

/// The legacy payload of each supported event is the core notification built from the
/// event's own fields and `cwd`: start for before-agent, complete for after-agent, the
/// user prompt (carried unchanged) for a prompt, stop for agent-stop. Other events have
/// no payload.
pub proof fn lemma_legacy_payload_is_core_notification(event: HookEvent, cwd: String)
    ensures
        legacy_notification_model(event, cwd@) == match event {
            HookEvent::BeforeAgent { event: e } => Some(
                notification_model(
                    UserNotification::AgentTurnStart {
                        thread_id: e.thread_id,
                        turn_id: e.turn_id,
                        cwd: cwd,
                        input_messages: e.input_messages,
                    },
                ),
            ),
            HookEvent::AfterAgent { event: e } => Some(
                notification_model(
                    UserNotification::AgentTurnComplete {
                        thread_id: e.thread_id,
                        turn_id: e.turn_id,
                        cwd: cwd,
                        input_messages: e.input_messages,
                        last_assistant_message: e.last_assistant_message,
                    },
                ),
            ),
            HookEvent::AgentUserPrompt { event: e } => Some(
                notification_model(
                    UserNotification::AgentTurnUserPrompt {
                        thread_id: e.thread_id,
                        turn_id: e.turn_id,
                        cwd: cwd,
                        prompt: e.prompt,
                    },
                ),
            ),
            HookEvent::AgentStop { event: e } => Some(
                notification_model(
                    UserNotification::AgentTurnStop {
                        thread_id: e.thread_id,
                        turn_id: e.turn_id,
                        cwd: cwd,
                        input_messages: e.input_messages,
                    },
                ),
            ),
            HookEvent::Other => None,
        },
{
}

} // verus!

//! Notifications for a user-configured program, and the JSON payload it receives.
//!
//! Each notification is a JSON object tagged by `"type"`, with kebab-case keys,
//! passed to the program as its last argument.

use vstd::prelude::*;
use crate::json::{Json, JsonModel, json_fields_model, json_items_model, json_text, to_json_string};

verus! {

/// What a user was asked to approve.
pub enum UserPromptNotification {
    ExecApproval { command: Vec<String>, reason: Option<String> },
    ApplyPatchApproval { files: Vec<String>, reason: Option<String> },
}

/// A notification sent to the user's program.
pub enum UserNotification {
    AgentTurnStart {
        thread_id: String,
        turn_id: String,
        cwd: String,
        /// Messages that the user sent to the agent to initiate the turn.
        input_messages: Vec<String>,
    },
    AgentTurnUserPrompt {
        thread_id: String,
        turn_id: String,
        cwd: String,
        prompt: UserPromptNotification,
    },
    AgentTurnComplete {
        thread_id: String,
        turn_id: String,
        cwd: String,
        /// Messages that the user sent to the agent to initiate the turn.
        input_messages: Vec<String>,
        /// The last message sent by the assistant in the turn.
        last_assistant_message: Option<String>,
    },
    AgentTurnStop {
        thread_id: String,
        turn_id: String,
        cwd: String,
        /// Messages that the user sent to the agent to initiate the turn.
        input_messages: Vec<String>,
    },
}

/// A JSON array of strings.
pub open spec fn strings_model(strings: Seq<String>) -> JsonModel {
    JsonModel::Array(strings.map_values(|s: String| JsonModel::Str(s@)))
}

/// A JSON string, or `null` where there is none.
pub open spec fn optional_string_model(s: Option<String>) -> JsonModel {
    match s {
        Some(s) => JsonModel::Str(s@),
        None => JsonModel::Null,
    }
}

/// The `reason` field where there is a reason, and no field otherwise.
pub open spec fn reason_fields(reason: Option<String>) -> Seq<(Seq<char>, JsonModel)> {
    match reason {
        Some(r) => seq![("reason"@, JsonModel::Str(r@))],
        None => Seq::empty(),
    }
}

/// The JSON object of a prompt, tagged by `"prompt-type"`.
pub open spec fn prompt_model(p: UserPromptNotification) -> JsonModel {
    match p {
        UserPromptNotification::ExecApproval { command, reason } => JsonModel::Object(
            seq![
                ("prompt-type"@, JsonModel::Str("exec-approval"@)),
                ("command"@, strings_model(command@)),
            ] + reason_fields(reason),
        ),
        UserPromptNotification::ApplyPatchApproval { files, reason } => JsonModel::Object(
            seq![
                ("prompt-type"@, JsonModel::Str("apply-patch-approval"@)),
                ("files"@, strings_model(files@)),
            ] + reason_fields(reason),
        ),
    }
}

/// The fields that every notification starts with: its type, then the thread,
/// the turn and the working directory.
pub open spec fn header_fields(
    tag: Seq<char>,
    thread_id: Seq<char>,
    turn_id: Seq<char>,
    cwd: Seq<char>,
) -> Seq<(Seq<char>, JsonModel)> {
    seq![
        ("type"@, JsonModel::Str(tag)),
        ("thread-id"@, JsonModel::Str(thread_id)),
        ("turn-id"@, JsonModel::Str(turn_id)),
        ("cwd"@, JsonModel::Str(cwd)),
    ]
}

/// The JSON object of a notification.
pub open spec fn notification_model(n: UserNotification) -> JsonModel {
    match n {
        UserNotification::AgentTurnStart { thread_id, turn_id, cwd, input_messages } => JsonModel::Object(
            header_fields("agent-turn-start"@, thread_id@, turn_id@, cwd@).push(
                ("input-messages"@, strings_model(input_messages@)),
            ),
        ),
        UserNotification::AgentTurnUserPrompt { thread_id, turn_id, cwd, prompt } => JsonModel::Object(
            header_fields("agent-turn-user-prompt"@, thread_id@, turn_id@, cwd@).push(
                ("prompt"@, prompt_model(prompt)),
            ),
        ),
        UserNotification::AgentTurnComplete {
            thread_id,
            turn_id,
            cwd,
            input_messages,
            last_assistant_message,
        } => JsonModel::Object(
            header_fields("agent-turn-complete"@, thread_id@, turn_id@, cwd@).push(
                ("input-messages"@, strings_model(input_messages@)),
            ).push(("last-assistant-message"@, optional_string_model(last_assistant_message))),
        ),
        UserNotification::AgentTurnStop { thread_id, turn_id, cwd, input_messages } => JsonModel::Object(
            header_fields("agent-turn-stop"@, thread_id@, turn_id@, cwd@).push(
                ("input-messages"@, strings_model(input_messages@)),
            ),
        ),
    }
}

/// Appends the field `key`: `value` to an object's fields.
fn push_field(fields: &mut Vec<(String, Json)>, key: &str, value: Json)
    ensures
        json_fields_model(final(fields)@) == json_fields_model(old(fields)@).push(
            (key@, value.model()),
        ),
{
    let ghost prev = fields@;
    fields.push((key.to_owned(), value));
    assert(fields@.drop_last() =~= prev);
}

/// A copy of `s`.
pub(crate) fn copy_string(s: &String) -> (r: String)
    ensures
        r == *s,
{
    s.clone()
}

/// A JSON array of the strings in `strings`.
fn strings_json(strings: &Vec<String>) -> (j: Json)
    ensures
        j.model() == strings_model(strings@),
{
    let mut items: Vec<Json> = Vec::new();
    let n = strings.len();
    for i in 0..n
        invariant
            n == strings@.len(),
            json_items_model(items@) == strings@.take(i as int).map_values(
                |s: String| JsonModel::Str(s@),
            ),
    {
        let ghost prev = items@;
        let c = copy_string(&strings[i]);
        assert(c@ == strings@[i as int]@);
        items.push(Json::Str(c));
        assert(items@.drop_last() =~= prev);
        assert(items@.last().model() == JsonModel::Str(c@));
        assert(json_items_model(items@) == json_items_model(prev).push(
            JsonModel::Str(strings@[i as int]@),
        ));
        assert(strings@.take(i + 1).map_values(|s: String| JsonModel::Str(s@)) =~= strings@.take(
            i as int,
        ).map_values(|s: String| JsonModel::Str(s@)).push(JsonModel::Str(strings@[i as int]@)));
    }
    assert(strings@.take(n as int) =~= strings@);
    Json::Array(items)
}

/// A JSON string, or `null` where there is none.
fn optional_string_json(s: &Option<String>) -> (j: Json)
    ensures
        j.model() == optional_string_model(*s),
{
    match s {
        Some(s) => Json::Str(copy_string(s)),
        None => Json::Null,
    }
}

/// The fields that every notification starts with.
fn header_json(tag: &str, thread_id: &String, turn_id: &String, cwd: &String) -> (fields: Vec<
    (String, Json),
>)
    ensures
        json_fields_model(fields@) == header_fields(tag@, thread_id@, turn_id@, cwd@),
{
    let mut fields: Vec<(String, Json)> = Vec::new();
    push_field(&mut fields, "type", Json::Str(tag.to_owned()));
    push_field(&mut fields, "thread-id", Json::Str(copy_string(thread_id)));
    push_field(&mut fields, "turn-id", Json::Str(copy_string(turn_id)));
    push_field(&mut fields, "cwd", Json::Str(copy_string(cwd)));
    fields
}

/// The JSON object of a prompt.
pub fn prompt_json(p: &UserPromptNotification) -> (j: Json)
    ensures
        j.model() == prompt_model(*p),
{
    let mut fields: Vec<(String, Json)> = Vec::new();
    let reason = match p {
        UserPromptNotification::ExecApproval { command, reason } => {
            push_field(&mut fields, "prompt-type", Json::Str("exec-approval".to_owned()));
            push_field(&mut fields, "command", strings_json(command));
            assert(json_fields_model(fields@) =~= seq![
                ("prompt-type"@, JsonModel::Str("exec-approval"@)),
                ("command"@, strings_model(command@)),
            ]);
            reason
        },
        UserPromptNotification::ApplyPatchApproval { files, reason } => {
            push_field(&mut fields, "prompt-type", Json::Str("apply-patch-approval".to_owned()));
            push_field(&mut fields, "files", strings_json(files));
            assert(json_fields_model(fields@) =~= seq![
                ("prompt-type"@, JsonModel::Str("apply-patch-approval"@)),
                ("files"@, strings_model(files@)),
            ]);
            reason
        },
    };
    let ghost head = json_fields_model(fields@);
    if let Some(r) = reason {
        push_field(&mut fields, "reason", Json::Str(copy_string(r)));
    }
    assert(json_fields_model(fields@) =~= head + reason_fields(*reason));
    Json::Object(fields)
}

/// The JSON object of a notification.
pub fn notification_json(n: &UserNotification) -> (j: Json)
    ensures
        j.model() == notification_model(*n),
{
    match n {
        UserNotification::AgentTurnStart { thread_id, turn_id, cwd, input_messages } => {
            let mut fields = header_json("agent-turn-start", thread_id, turn_id, cwd);
            push_field(&mut fields, "input-messages", strings_json(input_messages));
            Json::Object(fields)
        },
        UserNotification::AgentTurnUserPrompt { thread_id, turn_id, cwd, prompt } => {
            let mut fields = header_json("agent-turn-user-prompt", thread_id, turn_id, cwd);
            push_field(&mut fields, "prompt", prompt_json(prompt));
            Json::Object(fields)
        },
        UserNotification::AgentTurnComplete {
            thread_id,
            turn_id,
            cwd,
            input_messages,
            last_assistant_message,
        } => {
            let mut fields = header_json("agent-turn-complete", thread_id, turn_id, cwd);
            push_field(&mut fields, "input-messages", strings_json(input_messages));
            push_field(
                &mut fields,
                "last-assistant-message",
                optional_string_json(last_assistant_message),
            );
            Json::Object(fields)
        },
        UserNotification::AgentTurnStop { thread_id, turn_id, cwd, input_messages } => {
            let mut fields = header_json("agent-turn-stop", thread_id, turn_id, cwd);
            push_field(&mut fields, "input-messages", strings_json(input_messages));
            Json::Object(fields)
        },
    }
}

/// The JSON text of a notification, as the user's program receives it.
pub fn notification_to_json(n: &UserNotification) -> (r: String)
    ensures
        r@ == json_text(notification_model(*n)),
{
    to_json_string(&notification_json(n))
}

/// Runs the user's program, if one is configured, for each notification.
pub struct UserNotifier {
    notify_command: Option<Vec<String>>,
}

/// The command line that sends `json` to `command`: the command with the JSON text
/// as one more argument.
pub open spec fn command_with_payload(command: Seq<String>, json: Seq<char>, argv: Seq<String>) -> bool {
    &&& argv.len() == command.len() + 1
    &&& argv.take(command.len() as int) == command
    &&& argv.last()@ == json
}

impl UserNotifier {
    /// The program and arguments to run, if configured.
    pub closed spec fn notify_command(self) -> Option<Vec<String>> {
        self.notify_command
    }

    pub fn new(notify: Option<Vec<String>>) -> (r: UserNotifier)
        ensures
            r.notify_command() == notify,
    {
        UserNotifier { notify_command: notify }
    }

    /// The command line to run for `notification`: the configured command with the
    /// notification's JSON as its last argument. Nothing is run when no command, or an
    /// empty one, is configured.
    pub fn notify(&self, notification: &UserNotification) -> (r: Option<Vec<String>>)
        ensures
            match self.notify_command() {
                Some(command) if command@.len() > 0 => r matches Some(argv)
                    && command_with_payload(
                    command@,
                    json_text(notification_model(*notification)),
                    argv@,
                ),
                _ => r is None,
            },
    {
        match &self.notify_command {
            Some(notify_command) => {
                if notify_command.len() > 0 {
                    Some(self.invoke_notify(notify_command, notification))
                } else {
                    None
                }
            },
            None => None,
        }
    }

    /// `notify_command` with the notification's JSON appended.
    fn invoke_notify(&self, notify_command: &Vec<String>, notification: &UserNotification) -> (r:
        Vec<String>)
        requires
            notify_command@.len() > 0,
        ensures
            command_with_payload(
                notify_command@,
                json_text(notification_model(*notification)),
                r@,
            ),
    {
        let json = notification_to_json(notification);
        let mut argv = copy_strings(notify_command);
        argv.push(json);
        assert(argv@.take(notify_command@.len() as int) =~= notify_command@);
        argv
    }
}

impl Default for UserNotifier {
    /// A notifier with no program configured.
    fn default() -> (r: UserNotifier)
        ensures
            r.notify_command() is None,
    {
        UserNotifier { notify_command: None }
    }
}

/// A copy of `strings`.
pub(crate) fn copy_strings(strings: &Vec<String>) -> (r: Vec<String>)
    ensures
        r@ == strings@,
{
    let mut out: Vec<String> = Vec::new();
    let n = strings.len();
    for i in 0..n
        invariant
            n == strings@.len(),
            out@ == strings@.take(i as int),
    {
        out.push(copy_string(&strings[i]));
        assert(out@ =~= strings@.take(i + 1));
    }
    assert(strings@.take(n as int) =~= strings@);
    out
}

/// `j` is a JSON array that lists exactly `strings`, in order.
pub open spec fn lists_strings(j: JsonModel, strings: Seq<String>) -> bool {
    &&& j is Array
    &&& j->Array_0.len() == strings.len()
    &&& forall|i: int| 0 <= i < strings.len() ==> #[trigger] j->Array_0[i] == JsonModel::Str(strings[i]@)
}

/// `fields` starts with the type tag, then the thread, the turn and the working directory.
pub open spec fn starts_with_header(
    fields: Seq<(Seq<char>, JsonModel)>,
    tag: Seq<char>,
    thread_id: String,
    turn_id: String,
    cwd: String,
) -> bool {
    &&& fields.len() >= 4
    &&& fields[0] == ("type"@, JsonModel::Str(tag))
    &&& fields[1] == ("thread-id"@, JsonModel::Str(thread_id@))
    &&& fields[2] == ("turn-id"@, JsonModel::Str(turn_id@))
    &&& fields[3] == ("cwd"@, JsonModel::Str(cwd@))
}

/// A list of strings becomes a JSON array of exactly those strings.
pub proof fn lemma_strings_listed(strings: Seq<String>)
    ensures
        lists_strings(strings_model(strings), strings),
{
}

/// A prompt is written with its kind, then the listed command or files, then its reason
/// where it has one (whatever the kind), and with no reason field where it has none.
pub proof fn lemma_prompt_fields(p: UserPromptNotification)
    ensures
        prompt_model(p) is Object,
        ({
            let fields = prompt_model(p)->Object_0;
            let (kind, key, listed, reason) = match p {
                UserPromptNotification::ExecApproval { command, reason } => (
                    "exec-approval"@,
                    "command"@,
                    command@,
                    reason,
                ),
                UserPromptNotification::ApplyPatchApproval { files, reason } => (
                    "apply-patch-approval"@,
                    "files"@,
                    files@,
                    reason,
                ),
            };
            &&& fields.len() >= 2
            &&& fields[0] == ("prompt-type"@, JsonModel::Str(kind))
            &&& fields[1].0 == key
            &&& lists_strings(fields[1].1, listed)
            &&& match reason {
                Some(r) => fields.len() == 3 && fields[2] == ("reason"@, JsonModel::Str(r@)),
                None => fields.len() == 2,
            }
        }),
{
    match p {
        UserPromptNotification::ExecApproval { command, reason } => {
            lemma_strings_listed(command@);
        },
        UserPromptNotification::ApplyPatchApproval { files, reason } => {
            lemma_strings_listed(files@);
        },
    }
}

/// Every notification is written with its type, thread, turn and working directory
/// first, then the input messages (listed exactly), the prompt as written by itself, or
/// the input messages and the last assistant message (`null` where there is none).
pub proof fn lemma_notification_fields(n: UserNotification)
    ensures
        notification_model(n) is Object,
        ({
            let fields = notification_model(n)->Object_0;
            match n {
                UserNotification::AgentTurnStart { thread_id, turn_id, cwd, input_messages } => {
                    &&& starts_with_header(fields, "agent-turn-start"@, thread_id, turn_id, cwd)
                    &&& fields.len() == 5
                    &&& fields[4].0 == "input-messages"@
                    &&& lists_strings(fields[4].1, input_messages@)
                },
                UserNotification::AgentTurnUserPrompt { thread_id, turn_id, cwd, prompt } => {
                    &&& starts_with_header(fields, "agent-turn-user-prompt"@, thread_id, turn_id, cwd)
                    &&& fields.len() == 5
                    &&& fields[4] == ("prompt"@, prompt_model(prompt))
                },
                UserNotification::AgentTurnComplete {
                    thread_id,
                    turn_id,
                    cwd,
                    input_messages,
                    last_assistant_message,
                } => {
                    &&& starts_with_header(fields, "agent-turn-complete"@, thread_id, turn_id, cwd)
                    &&& fields.len() == 6
                    &&& fields[4].0 == "input-messages"@
                    &&& lists_strings(fields[4].1, input_messages@)
                    &&& fields[5] == ("last-assistant-message"@, match last_assistant_message {
                        Some(m) => JsonModel::Str(m@),
                        None => JsonModel::Null,
                    })
                },
                UserNotification::AgentTurnStop { thread_id, turn_id, cwd, input_messages } => {
                    &&& starts_with_header(fields, "agent-turn-stop"@, thread_id, turn_id, cwd)
                    &&& fields.len() == 5
                    &&& fields[4].0 == "input-messages"@
                    &&& lists_strings(fields[4].1, input_messages@)
                },
            }
        }),
{
    match n {
        UserNotification::AgentTurnStart { input_messages, .. } => {
            lemma_strings_listed(input_messages@);
        },
        UserNotification::AgentTurnComplete { input_messages, .. } => {
            lemma_strings_listed(input_messages@);
        },
        UserNotification::AgentTurnStop { input_messages, .. } => {
            lemma_strings_listed(input_messages@);
        },
        _ => {},
    }
}

} // verus!

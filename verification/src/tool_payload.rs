//! The command of a tool call, and what the hooks around the call are told.
use serde_json::Value;
use vstd::prelude::*;
use vstd::string::*;

verus! {

/// `serde_json::Value`.
#[verifier::external_type_specification]
#[verifier::external_body]
pub struct ExValue(Value);

/// What a JSON value holds, as far as it is read here.
pub enum JsonContents {
    /// A string.
    Text(Seq<char>),
    /// An object whose fields are all strings.
    Fields(Map<Seq<char>, Seq<char>>),
    /// Anything else.
    Other,
}

/// What the JSON value holds.
pub uninterp spec fn json_contents(value: Value) -> JsonContents;

/// `serde_json::Value::from` on a `String`: the JSON string with that text.
#[verifier::external_body]
pub(crate) fn json_text(text: String) -> (value: Value)
    ensures
        json_contents(value) == JsonContents::Text(text@),
{
    Value::from(text)
}

/// `serde_json::Value::from_iter` on one pair: the JSON object with one field,
/// which is a string.
#[verifier::external_body]
fn json_field(name: &str, text: String) -> (value: Value)
    ensures
        json_contents(value) == JsonContents::Fields(map![name@ => text@]),
{
    Value::from_iter(std::iter::once((name, text)))
}

/// What a tool is called with.
pub enum ToolPayload {
    /// Arguments that have still to be parsed.
    Function { arguments: String },
    /// A command for the local shell.
    LocalShell { command: Vec<String> },
    /// A payload of any other kind, by the number under which the host keeps it.
    Other { number: u64 },
}

/// A call of a tool.
pub struct ToolInvocation {
    pub call_id: String,
    pub payload: ToolPayload,
}

/// The tool that a hook is told of.
#[derive(Clone, Copy, Debug, PartialEq, Eq, Structural)]
pub enum HookToolName {
    Bash,
}

/// What a hook is told before a tool runs.
pub struct PreToolUsePayload {
    pub tool_name: HookToolName,
    pub tool_input: Value,
}

/// What a hook is told after a tool has run.
pub struct PostToolUsePayload {
    pub tool_name: HookToolName,
    pub tool_use_id: String,
    pub tool_input: Value,
    pub tool_response: Value,
}

/// `command` is what `join` makes of the words that `parse` finds in the
/// arguments of the payload; there is none if `parse` finds none, or if the
/// payload has no arguments.
pub open spec fn is_function_command<
    P: Fn(&String) -> Option<Vec<String>>,
    J: Fn(&Vec<String>) -> String,
>(payload: ToolPayload, parse: P, join: J, command: Option<String>) -> bool {
    match payload {
        ToolPayload::Function { arguments } => exists|words: Option<Vec<String>>|
            #![trigger call_ensures(parse, (&arguments,), words)]
            call_ensures(parse, (&arguments,), words) && match words {
                Some(found) => command is Some && call_ensures(join, (&found,), command->0),
                None => command is None,
            },
        _ => command is None,
    }
}

/// The command that a function call asks the shell to run, as one line.
pub fn shell_function_payload_command<
    P: Fn(&String) -> Option<Vec<String>>,
    J: Fn(&Vec<String>) -> String,
>(payload: &ToolPayload, parse: P, join: J) -> (command: Option<String>)
    requires
        forall|arguments: &String| call_requires(parse, (arguments,)),
        forall|words: &Vec<String>| call_requires(join, (words,)),
    ensures
        is_function_command(*payload, parse, join, command),
{
    match payload {
        ToolPayload::Function { arguments } => match parse(arguments) {
            Some(words) => Some(join(&words)),
            None => None,
        },
        _ => None,
    }
}

/// The command of a call of the local shell, as one line.
pub fn local_shell_payload_command<J: Fn(&Vec<String>) -> String>(
    payload: &ToolPayload,
    join: J,
) -> (line: Option<String>)
    requires
        forall|words: &Vec<String>| call_requires(join, (words,)),
    ensures
        match *payload {
            ToolPayload::LocalShell { command } => line is Some && call_ensures(
                join,
                (&command,),
                line->0,
            ),
            _ => line is None,
        },
{
    match payload {
        ToolPayload::LocalShell { command } => Some(join(command)),
        _ => None,
    }
}

/// The command of a call of the shell command tool, as `parse` finds it in the
/// arguments.
pub fn shell_command_payload_command<P: Fn(&String) -> Option<String>>(
    payload: &ToolPayload,
    parse: P,
) -> (command: Option<String>)
    requires
        forall|arguments: &String| call_requires(parse, (arguments,)),
    ensures
        match *payload {
            ToolPayload::Function { arguments } => call_ensures(parse, (&arguments,), command),
            _ => command is None,
        },
{
    match payload {
        ToolPayload::Function { arguments } => parse(arguments),
        _ => None,
    }
}

/// The JSON object that tells a hook the command.
pub open spec fn is_command_input(value: Value, command: Seq<char>) -> bool {
    json_contents(value) == JsonContents::Fields(map!["command"@ => command])
}

/// What a hook is told before a function call runs its command.
pub fn shell_function_pre_tool_use_payload<
    P: Fn(&String) -> Option<Vec<String>>,
    J: Fn(&Vec<String>) -> String,
>(invocation: &ToolInvocation, parse: P, join: J) -> (told: Option<PreToolUsePayload>)
    requires
        forall|arguments: &String| call_requires(parse, (arguments,)),
        forall|words: &Vec<String>| call_requires(join, (words,)),
    ensures
        exists|command: Option<String>|
            #![trigger is_function_command(invocation.payload, parse, join, command)]
            is_function_command(invocation.payload, parse, join, command) && match command {
                Some(line) => told matches Some(payload) && payload.tool_name == HookToolName::Bash
                    && is_command_input(payload.tool_input, line@),
                None => told is None,
            },
{
    let command = shell_function_payload_command(&invocation.payload, parse, join);
    let ghost found = command;
    let told = match command {
        Some(line) => Some(
            PreToolUsePayload {
                tool_name: HookToolName::Bash,
                tool_input: json_field("command", line),
            },
        ),
        None => None,
    };
    assert(is_function_command(invocation.payload, parse, join, found));
    told
}

/// What a hook is told after a function call has run its command. It is told
/// nothing if `respond` has no response, or if there is no command.
pub fn shell_function_post_tool_use_payload<
    R: Fn(&String, &ToolPayload) -> Option<Value>,
    P: Fn(&String) -> Option<Vec<String>>,
    J: Fn(&Vec<String>) -> String,
>(invocation: &ToolInvocation, respond: R, parse: P, join: J) -> (told: Option<PostToolUsePayload>)
    requires
        forall|call_id: &String, payload: &ToolPayload| call_requires(respond, (call_id, payload)),
        forall|arguments: &String| call_requires(parse, (arguments,)),
        forall|words: &Vec<String>| call_requires(join, (words,)),
    ensures
        exists|response: Option<Value>|
            #![trigger call_ensures(respond, (&invocation.call_id, &invocation.payload), response)]
            call_ensures(respond, (&invocation.call_id, &invocation.payload), response)
                && match response {
                Some(answer) => exists|command: Option<String>|
                    #![trigger is_function_command(invocation.payload, parse, join, command)]
                    is_function_command(invocation.payload, parse, join, command) && match command {
                        Some(line) => told matches Some(payload) && {
                            &&& payload.tool_name == HookToolName::Bash
                            &&& payload.tool_use_id == invocation.call_id
                            &&& is_command_input(payload.tool_input, line@)
                            &&& payload.tool_response == answer
                        },
                        None => told is None,
                    },
                None => told is None,
            },
{
    let tool_response = match respond(&invocation.call_id, &invocation.payload) {
        Some(response) => response,
        None => {
            return None;
        },
    };
    let command = shell_function_payload_command(&invocation.payload, parse, join);
    let ghost found = command;
    assert(is_function_command(invocation.payload, parse, join, found));
    match command {
        Some(line) => Some(
            PostToolUsePayload {
                tool_name: HookToolName::Bash,
                tool_use_id: invocation.call_id.clone(),
                tool_input: json_field("command", line),
                tool_response,
            },
        ),
        None => None,
    }
}

/// A payload that is no function call has no command, and neither has one whose
/// arguments cannot be parsed. Else the command is what the words of the
/// arguments are joined to.
pub proof fn a_command_comes_from_parsed_arguments<
    P: Fn(&String) -> Option<Vec<String>>,
    J: Fn(&Vec<String>) -> String,
>(payload: ToolPayload, parse: P, join: J, command: Option<String>, parsed: Option<Vec<String>>)
    requires
        is_function_command(payload, parse, join, command),
        payload is Function ==> forall|words: Option<Vec<String>>| #[trigger]
            call_ensures(parse, (&payload->arguments,), words) ==> words == parsed,
    ensures
        !(payload is Function) ==> command is None,
        payload is Function && parsed is None ==> command is None,
        payload is Function && parsed is Some ==> command is Some && call_ensures(
            join,
            (&parsed->0,),
            command->0,
        ),
{
}

/// A hook is told the whole command, in one field with the name "command", and
/// nothing else.
pub proof fn a_hook_is_told_the_command_alone(value: Value, command: Seq<char>)
    requires
        is_command_input(value, command),
    ensures
        json_contents(value) is Fields,
        forall|name: Seq<char>| #[trigger]
            json_contents(value)->Fields_0.contains_key(name) <==> name == "command"@,
        json_contents(value)->Fields_0["command"@] == command,
{
}

} // verus!

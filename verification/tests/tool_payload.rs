use serde_json::Value;

use turn_control::tool_payload::local_shell_payload_command;
use turn_control::tool_payload::shell_command_payload_command;
use turn_control::tool_payload::shell_function_payload_command;
use turn_control::tool_payload::shell_function_post_tool_use_payload;
use turn_control::tool_payload::shell_function_pre_tool_use_payload;
use turn_control::tool_payload::HookToolName;
use turn_control::tool_payload::ToolInvocation;
use turn_control::tool_payload::ToolPayload;

fn parse(arguments: &String) -> Option<Vec<String>> {
    if arguments.is_empty() {
        return None;
    }
    Some(arguments.split(' ').map(|word| word.to_string()).collect())
}

fn join(words: &Vec<String>) -> String {
    words.join("+")
}

fn function(arguments: &str) -> ToolPayload {
    ToolPayload::Function {
        arguments: arguments.to_string(),
    }
}

fn local() -> ToolPayload {
    ToolPayload::LocalShell {
        command: vec!["a".to_string(), "b".to_string()],
    }
}

fn invocation(payload: ToolPayload) -> ToolInvocation {
    ToolInvocation {
        call_id: "call".to_string(),
        payload,
    }
}

#[test]
fn a_function_call_has_the_command_of_its_arguments() {
    assert_eq!(
        shell_function_payload_command(&function("a b"), parse, join),
        Some("a+b".to_string())
    );
    assert_eq!(shell_function_payload_command(&function(""), parse, join), None);
    assert_eq!(shell_function_payload_command(&local(), parse, join), None);
    assert_eq!(
        shell_function_payload_command(&ToolPayload::Other { number: 1 }, parse, join),
        None
    );
}

#[test]
fn a_local_shell_call_has_its_command() {
    assert_eq!(local_shell_payload_command(&local(), join), Some("a+b".to_string()));
    assert_eq!(local_shell_payload_command(&function("a b"), join), None);
    assert_eq!(
        local_shell_payload_command(&ToolPayload::Other { number: 1 }, join),
        None
    );
}

#[test]
fn a_shell_command_call_has_its_command() {
    let parse = |arguments: &String| arguments.strip_prefix("run ").map(|rest| rest.to_string());
    assert_eq!(
        shell_command_payload_command(&function("run make"), parse),
        Some("make".to_string())
    );
    assert_eq!(shell_command_payload_command(&function("make"), parse), None);
    assert_eq!(shell_command_payload_command(&local(), parse), None);
}

#[test]
fn a_hook_is_told_the_command_before_a_call() {
    let told = shell_function_pre_tool_use_payload(&invocation(function("a \"b\"")), parse, join)
        .unwrap();
    assert_eq!(told.tool_name, HookToolName::Bash);
    assert_eq!(told.tool_input.to_string(), "{\"command\":\"a+\\\"b\\\"\"}");
    assert!(shell_function_pre_tool_use_payload(&invocation(local()), parse, join).is_none());
    assert!(shell_function_pre_tool_use_payload(&invocation(function("")), parse, join).is_none());
}

#[test]
fn a_hook_is_told_the_response_after_a_call() {
    let respond = |call_id: &String, payload: &ToolPayload| -> Option<Value> {
        match payload {
            ToolPayload::Function { .. } => Some(Value::String(format!("to {call_id}"))),
            _ => None,
        }
    };
    let told =
        shell_function_post_tool_use_payload(&invocation(function("a b")), respond, parse, join)
            .unwrap();
    assert_eq!(told.tool_name, HookToolName::Bash);
    assert_eq!(told.tool_use_id, "call");
    assert_eq!(told.tool_input.to_string(), "{\"command\":\"a+b\"}");
    assert_eq!(told.tool_response, Value::String("to call".to_string()));
}

#[test]
fn a_hook_is_told_nothing_without_a_response_or_a_command() {
    let respond = |_: &String, _: &ToolPayload| Some(Value::Null);
    let silent = |_: &String, _: &ToolPayload| None;
    assert!(
        shell_function_post_tool_use_payload(&invocation(function("a")), silent, parse, join)
            .is_none()
    );
    assert!(
        shell_function_post_tool_use_payload(&invocation(function("")), respond, parse, join)
            .is_none()
    );
    assert!(
        shell_function_post_tool_use_payload(&invocation(local()), respond, parse, join).is_none()
    );
}

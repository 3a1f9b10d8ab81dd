use std::collections::HashSet;

use turn_control::host::HostTypes;
use turn_control::keyed::KeyedMap;
use turn_control::shell::runtime_for;
use turn_control::shell::ApprovalPolicy;
use turn_control::shell::ApprovalSandbox;
use turn_control::shell::CallFailure;
use turn_control::shell::EffectivePermissions;
use turn_control::shell::ExecAction;
use turn_control::shell::ExecEvent;
use turn_control::shell::ExecFlow;
use turn_control::shell::ExecOutcome;
use turn_control::shell::ExecParams;
use turn_control::shell::RunExecLikeArgs;
use turn_control::shell::SessionFacts;
use turn_control::shell::ShellRuntimeBackend;
use turn_control::shell::ShellRuntimeChoice;
use turn_control::shell::CONTROLLER_VALIDATION_TIMEOUT_MS;

struct TestHost;

impl HostTypes for TestHost {
    type ApprovalReply = ();
    type PermissionsReply = ();
    type UserInputReply = ();
    type ElicitationReply = ();
    type DynamicToolReply = ();
    type RequestedPermissions = ();
    type Cwd = String;
    type InputItem = ();
    type Permissions = u32;
    type TokenUsage = ();
    type SandboxPermissions = u8;
    type Network = u16;
    type ApprovalRequirement = u64;
    type ExecOutput = i32;
    type ToolOutput = char;
    type CallError = String;
}

type Flow = ExecFlow<TestHost>;

fn map(entries: &[(&str, &str)]) -> KeyedMap<String, String> {
    let mut map = KeyedMap::new();
    for (key, value) in entries {
        map.insert(key.to_string(), value.to_string());
    }
    map
}

fn value(map: &KeyedMap<String, String>, key: &str) -> Option<String> {
    map.get(&key.to_string()).cloned()
}

fn session() -> SessionFacts {
    SessionFacts {
        has_environment: true,
        exec_permission_approvals_enabled: false,
        request_permissions_tool_enabled: false,
        approval_policy: ApprovalPolicy {
            on_request: false,
            debug: "Never".to_string(),
        },
    }
}

fn tool_flow(session: SessionFacts) -> Flow {
    ExecFlow::run_exec_like(
        RunExecLikeArgs {
            tool_name: "shell".to_string(),
            exec_params: ExecParams {
                command: vec!["ls".to_string(), "-l".to_string()],
                cwd: "/work".to_string(),
                timeout_ms: Some(1000),
                env: map(&[("PATH", "/bin"), ("HOME", "/root")]),
                network: 80,
                sandbox_permissions: 1,
                justification: Some("why".to_string()),
            },
            hook_command: "ls -l".to_string(),
            additional_permissions: Some(7),
            prefix_rule: Some(vec!["ls".to_string()]),
            call_id: "call-1".to_string(),
            freeform: true,
            shell_runtime_backend: ShellRuntimeBackend::ShellCommandZshFork,
        },
        session,
        map(&[("HOME", "/set"), ("LANG", "C")]),
    )
}

fn controller_flow(session: SessionFacts) -> Flow {
    ExecFlow::run_controller_validation_shell_command(
        "cargo test | tail",
        vec!["zsh".to_string(), "-lc".to_string(), "cargo test | tail".to_string()],
        "/work".to_string(),
        map(&[("PATH", "/bin")]),
        80,
        0,
        session,
        map(&[]),
    )
}

fn permissions(requests_sandbox_override: bool, preapproved: bool) -> EffectivePermissions<TestHost> {
    EffectivePermissions {
        sandbox_permissions: 2,
        requests_sandbox_override,
        additional_permissions: Some(8),
        permissions_preapproved: preapproved,
    }
}

/// A flow whose host has found the permissions of the command.
fn granted(flow: Flow, effective: EffectivePermissions<TestHost>) -> Flow {
    assert!(matches!(flow.action(), ExecAction::LoadDependencyEnv));
    let flow = flow.step(ExecEvent::EnvLoaded(map(&[("PATH", "/dep"), ("DEP", "1")])));
    assert!(matches!(flow.action(), ExecAction::ApplyGrantedPermissions { .. }));
    flow.step(ExecEvent::PermissionsGranted(effective))
}

fn message(flow: Flow) -> String {
    match flow {
        ExecFlow::Done {
            outcome: ExecOutcome::Failed(CallFailure::RespondToModel(message)),
        } => message,
        _ => panic!("expected a message to the model"),
    }
}

fn error(flow: Flow) -> String {
    match flow {
        ExecFlow::Done {
            outcome: ExecOutcome::Failed(CallFailure::Host(error)),
        } => error,
        _ => panic!("expected an error of the host"),
    }
}

/// A tool call that runs, and what it asked for on the way.
fn running_tool() -> Flow {
    let flow = granted(tool_flow(session()), permissions(false, false));
    match flow.action() {
        ExecAction::FindImplicitPermissions {
            sandbox_permissions,
            requested,
            effective,
        } => {
            assert_eq!(sandbox_permissions, 1);
            assert_eq!(requested, Some(&7));
            assert_eq!(effective.sandbox_permissions, 2);
        }
        _ => panic!("expected a look for implicit permissions"),
    }
    let flow = flow.step(ExecEvent::ImplicitFound(None));
    match flow.action() {
        ExecAction::NormalizePermissions {
            allowed,
            effective,
            cwd,
        } => {
            assert!(!allowed);
            assert_eq!(effective.additional_permissions, Some(8));
            assert_eq!(cwd, "/work");
        }
        _ => panic!("expected the normal form"),
    }
    let flow = flow.step(ExecEvent::Normalized(Ok(Some(9))));
    match flow.action() {
        ExecAction::InterceptPatch {
            command,
            cwd,
            call_id,
            tool_name,
        } => {
            assert_eq!(command, &vec!["ls".to_string(), "-l".to_string()]);
            assert_eq!(cwd, "/work");
            assert_eq!(call_id, "call-1");
            assert_eq!(tool_name, "shell");
        }
        _ => panic!("expected a look for a patch"),
    }
    let flow = flow.step(ExecEvent::PatchIntercepted(Ok(None)));
    match flow.action() {
        ExecAction::EmitBegin {
            freeform, call_id, ..
        } => {
            assert!(freeform);
            assert_eq!(call_id, "call-1");
        }
        _ => panic!("expected the announcement"),
    }
    let flow = flow.step(ExecEvent::Begun);
    match flow.action() {
        ExecAction::RequireApproval {
            sandbox,
            prefix_rule,
            ..
        } => {
            assert!(matches!(sandbox, ApprovalSandbox::Requested(2)));
            assert_eq!(prefix_rule, Some(&vec!["ls".to_string()]));
        }
        _ => panic!("expected the approval"),
    }
    flow.step(ExecEvent::ApprovalRequired(77))
}

#[test]
fn a_tool_call_runs_with_what_was_settled() {
    let flow = running_tool();
    match flow.action() {
        ExecAction::Run {
            request,
            runtime,
            tool_name,
            call_id,
        } => {
            assert_eq!(request.command, vec!["ls", "-l"]);
            assert_eq!(request.hook_command, "ls -l");
            assert_eq!(request.cwd, "/work");
            assert_eq!(request.timeout_ms, Some(1000));
            assert_eq!(value(&request.env, "PATH"), Some("/dep".to_string()));
            assert_eq!(value(&request.env, "HOME"), Some("/root".to_string()));
            assert_eq!(value(&request.env, "DEP"), Some("1".to_string()));
            assert_eq!(value(&request.env, "LANG"), None);
            let overrides = &request.explicit_env_overrides;
            assert_eq!(value(overrides, "PATH"), Some("/dep".to_string()));
            assert_eq!(value(overrides, "HOME"), Some("/set".to_string()));
            assert_eq!(value(overrides, "LANG"), Some("C".to_string()));
            assert_eq!(value(overrides, "DEP"), Some("1".to_string()));
            assert_eq!(request.network, 80);
            assert_eq!(request.sandbox_permissions, 2);
            assert_eq!(request.additional_permissions, Some(9));
            assert!(!request.additional_permissions_preapproved);
            assert_eq!(request.justification, Some("why".to_string()));
            assert_eq!(request.exec_approval_requirement, 77);
            assert_eq!(
                runtime,
                ShellRuntimeChoice::ForShellCommand(ShellRuntimeBackend::ShellCommandZshFork)
            );
            assert_eq!(tool_name, "shell");
            assert_eq!(call_id, "call-1");
        }
        _ => panic!("expected the run"),
    }
}

#[test]
fn a_tool_call_gives_its_output() {
    let flow = running_tool().step(ExecEvent::ToolRan {
        response: Some("printed \"this\"".to_string()),
    });
    match flow.action() {
        ExecAction::EmitFinish { call_id } => assert_eq!(call_id, "call-1"),
        _ => panic!("expected the end to be announced"),
    }
    let flow = flow.step(ExecEvent::Finished(Ok("content".to_string())));
    match flow.action() {
        ExecAction::Return {
            outcome: ExecOutcome::Output(output),
        } => {
            assert_eq!(output.body, vec!["content"]);
            assert_eq!(output.success, Some(true));
            assert_eq!(
                output.post_tool_use_response,
                Some(serde_json::Value::String("printed \"this\"".to_string()))
            );
        }
        _ => panic!("expected the output"),
    }
}

#[test]
fn a_tool_call_that_failed_has_no_response() {
    let flow = running_tool().step(ExecEvent::ToolRan { response: None });
    match flow.step(ExecEvent::Finished(Ok("content".to_string()))) {
        ExecFlow::Done {
            outcome: ExecOutcome::Output(output),
        } => assert_eq!(output.post_tool_use_response, None),
        _ => panic!("expected the output"),
    }
    let flow = running_tool().step(ExecEvent::ToolRan { response: None });
    let flow = flow.step(ExecEvent::Finished(Err("denied".to_string())));
    assert_eq!(error(flow), "denied");
}

#[test]
fn a_patch_ends_the_flow() {
    let flow = granted(tool_flow(session()), permissions(false, false));
    let flow = flow.step(ExecEvent::ImplicitFound(Some(3)));
    match flow.step(ExecEvent::PatchIntercepted(Ok(Some('p')))) {
        ExecFlow::Done {
            outcome: ExecOutcome::Patched('p'),
        } => {}
        _ => panic!("expected the patch"),
    }
    let flow = granted(tool_flow(session()), permissions(false, false));
    let flow = flow.step(ExecEvent::ImplicitFound(Some(3)));
    let flow = flow.step(ExecEvent::PatchIntercepted(Err("bad patch".to_string())));
    assert_eq!(error(flow), "bad patch");
}

#[test]
fn implicit_permissions_need_no_normal_form() {
    let flow = granted(tool_flow(session()), permissions(false, true));
    let flow = flow.step(ExecEvent::ImplicitFound(Some(3)));
    let flow = flow.step(ExecEvent::PatchIntercepted(Ok(None)));
    let flow = flow.step(ExecEvent::Begun);
    match flow.action() {
        ExecAction::RequireApproval { sandbox, .. } => {
            assert!(matches!(sandbox, ApprovalSandbox::UseDefault));
        }
        _ => panic!("expected the approval"),
    }
    let flow = flow.step(ExecEvent::ApprovalRequired(1));
    match flow.action() {
        ExecAction::Run { request, .. } => {
            assert_eq!(request.additional_permissions, Some(3));
            assert!(request.additional_permissions_preapproved);
            assert_eq!(request.sandbox_permissions, 2);
        }
        _ => panic!("expected the run"),
    }
}

#[test]
fn rejected_permissions_are_told_to_the_model() {
    for flow in [tool_flow(session()), controller_flow(session())] {
        let flow = granted(flow, permissions(false, false));
        let flow = flow.step(ExecEvent::ImplicitFound(None));
        let flow = flow.step(ExecEvent::Normalized(Err("not allowed".to_string())));
        assert_eq!(message(flow), "not allowed");
    }
}

#[test]
fn permissions_are_allowed_by_feature_or_by_an_approval_of_before() {
    for exec in [false, true] {
        for tool in [false, true] {
            for preapproved in [false, true] {
                let mut facts = session();
                facts.exec_permission_approvals_enabled = exec;
                facts.request_permissions_tool_enabled = tool;
                let flow = granted(tool_flow(facts), permissions(false, preapproved));
                let flow = flow.step(ExecEvent::ImplicitFound(None));
                match flow.action() {
                    ExecAction::NormalizePermissions { allowed, .. } => {
                        assert_eq!(allowed, exec || (tool && preapproved));
                    }
                    _ => panic!("expected the normal form"),
                }
            }
        }
    }
}

#[test]
fn escalation_is_rejected_unless_asked_for_or_approved() {
    for on_request in [false, true] {
        for requests in [false, true] {
            for preapproved in [false, true] {
                for controller in [false, true] {
                    let mut facts = session();
                    facts.approval_policy.on_request = on_request;
                    let flow = if controller {
                        controller_flow(facts)
                    } else {
                        tool_flow(facts)
                    };
                    let flow = granted(flow, permissions(requests, preapproved));
                    let flow = flow.step(ExecEvent::ImplicitFound(Some(1)));
                    if requests && !preapproved && !on_request {
                        assert_eq!(
                            message(flow),
                            "approval policy is Never; reject command — you should not ask for escalated permissions if the approval policy is Never"
                        );
                    } else if controller {
                        assert!(matches!(flow, ExecFlow::Beginning { .. }));
                    } else {
                        assert!(matches!(flow, ExecFlow::InterceptingPatch { .. }));
                    }
                }
            }
        }
    }
}

#[test]
fn a_shell_needs_an_environment() {
    let mut facts = session();
    facts.has_environment = false;
    assert_eq!(message(tool_flow(facts)), "shell is unavailable in this session");
    let mut facts = session();
    facts.has_environment = false;
    assert_eq!(
        message(controller_flow(facts)),
        "controller validation: shell is unavailable in this session"
    );
}

/// A validation command that runs, with the id of its call.
fn running_controller() -> (Flow, String) {
    let flow = granted(controller_flow(session()), permissions(false, false));
    match flow.action() {
        ExecAction::FindImplicitPermissions {
            sandbox_permissions,
            requested,
            ..
        } => {
            assert_eq!(sandbox_permissions, 0);
            assert_eq!(requested, None);
        }
        _ => panic!("expected a look for implicit permissions"),
    }
    let flow = flow.step(ExecEvent::ImplicitFound(None));
    let flow = flow.step(ExecEvent::Normalized(Ok(None)));
    let id = match flow.action() {
        ExecAction::EmitBegin {
            command,
            cwd,
            freeform,
            call_id,
        } => {
            assert_eq!(command[2], "cargo test | tail");
            assert_eq!(cwd, "/work");
            assert!(!freeform);
            call_id.clone()
        }
        _ => panic!("expected the announcement"),
    };
    let flow = flow.step(ExecEvent::Begun);
    match flow.action() {
        ExecAction::RequireApproval { prefix_rule, .. } => assert_eq!(prefix_rule, None),
        _ => panic!("expected the approval"),
    }
    (flow.step(ExecEvent::ApprovalRequired(5)), id)
}

#[test]
fn a_validation_command_runs_with_its_own_limits() {
    let (flow, id) = running_controller();
    match flow.action() {
        ExecAction::Run {
            request,
            runtime,
            tool_name,
            call_id,
        } => {
            assert_eq!(CONTROLLER_VALIDATION_TIMEOUT_MS, 5 * 60 * 1000);
            assert_eq!(request.timeout_ms, Some(300_000));
            assert_eq!(request.hook_command, "cargo test | tail");
            assert_eq!(request.command, vec!["zsh", "-lc", "cargo test | tail"]);
            assert_eq!(value(&request.env, "PATH"), Some("/dep".to_string()));
            assert_eq!(value(&request.explicit_env_overrides, "DEP"), Some("1".to_string()));
            assert_eq!(request.additional_permissions, None);
            assert_eq!(request.justification, None);
            assert_eq!(runtime, ShellRuntimeChoice::New);
            assert_eq!(tool_name, "controller_validation");
            assert_eq!(call_id, &id);
        }
        _ => panic!("expected the run"),
    }
}

#[test]
fn a_validation_command_gives_its_output_whatever_is_announced() {
    for finished in [Ok("content".to_string()), Err("failed".to_string())] {
        let (flow, _) = running_controller();
        let flow = flow.step(ExecEvent::ControllerRan { output: Some(101) });
        match flow.step(ExecEvent::Finished(finished)) {
            ExecFlow::Done {
                outcome: ExecOutcome::Captured(output),
            } => assert_eq!(output, 101),
            _ => panic!("expected the output"),
        }
    }
}

#[test]
fn a_validation_command_that_could_not_run_fails() {
    let (flow, _) = running_controller();
    let flow = flow.step(ExecEvent::ControllerRan { output: None });
    let flow = flow.step(ExecEvent::Finished(Err("sandbox denied".to_string())));
    assert_eq!(error(flow), "sandbox denied");
}

#[test]
fn calls_of_validation_commands_get_random_ids() {
    let mut seen = HashSet::new();
    for _ in 0..50 {
        let (_, id) = running_controller();
        assert_eq!(id.len(), 36);
        for (i, c) in id.chars().enumerate() {
            match i {
                8 | 13 | 18 | 23 => assert_eq!(c, '-'),
                14 => assert_eq!(c, '4'),
                19 => assert!("89ab".contains(c)),
                _ => assert!("0123456789abcdef".contains(c)),
            }
        }
        assert!(seen.insert(id));
    }
}

#[test]
fn backends_have_their_runtimes() {
    assert_eq!(runtime_for(ShellRuntimeBackend::Generic), ShellRuntimeChoice::New);
    for backend in [
        ShellRuntimeBackend::ShellCommandClassic,
        ShellRuntimeBackend::ShellCommandZshFork,
    ] {
        assert_eq!(runtime_for(backend), ShellRuntimeChoice::ForShellCommand(backend));
    }
}

#[test]
fn without_dependencies_the_environment_stays() {
    let flow = tool_flow(session()).step(ExecEvent::EnvLoaded(map(&[])));
    match flow {
        ExecFlow::GrantingPermissions { job, overrides } => {
            assert_eq!(value(&job.params.env, "PATH"), Some("/bin".to_string()));
            assert_eq!(value(&overrides, "HOME"), Some("/set".to_string()));
            assert_eq!(value(&overrides, "PATH"), None);
        }
        _ => panic!("expected the permissions next"),
    }
}

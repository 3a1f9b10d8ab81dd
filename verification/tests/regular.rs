use turn_control::controller_validation::build_validation_repair_prompt;
use turn_control::controller_validation::ControllerValidationRunResult;
use turn_control::controller_validation::ControllerValidationState;
use turn_control::host::HostTypes;
use turn_control::regular::next_controller_validation_action;
use turn_control::regular::ControllerValidationAction;
use turn_control::regular::PrewarmResolution;
use turn_control::regular::RegularRun;
use turn_control::regular::RegularTask;
use turn_control::regular::RunAction;
use turn_control::regular::RunEvent;
use turn_control::turn::TaskKind;
use turn_control::turn::TurnState;
use turn_control::user_input::UserInput;

struct TestHost;

impl HostTypes for TestHost {
    type ApprovalReply = ();
    type PermissionsReply = ();
    type UserInputReply = ();
    type ElicitationReply = ();
    type DynamicToolReply = ();
    type RequestedPermissions = ();
    type Cwd = ();
    type InputItem = String;
    type Permissions = ();
    type TokenUsage = ();
    type SandboxPermissions = ();
    type Network = ();
    type ApprovalRequirement = ();
    type ExecOutput = ();
    type ToolOutput = ();
    type CallError = ();
}

fn text(text: &str) -> UserInput {
    UserInput::Text {
        text: text.to_string(),
        text_elements: Vec::new(),
    }
}

fn validation(commands: &[&str], attempt: u8) -> ControllerValidationState {
    ControllerValidationState {
        commands: commands.iter().map(|command| command.to_string()).collect(),
        attempt,
    }
}

fn failed(command: &str) -> ControllerValidationRunResult {
    ControllerValidationRunResult::Failed {
        message: "fail".to_string(),
        failed_command: command.to_string(),
        exit_code: 1,
    }
}

/// A turn that waits for its first pass of the model.
fn running() -> RegularRun {
    let (run, action) = RegularRun::start::<u8>(vec![text("hi")]);
    assert!(matches!(action, RunAction::SendTurnStarted));
    let (run, action) = run.step::<u8>(RunEvent::TurnStartedSent);
    assert!(matches!(
        action,
        RunAction::SetServerReasoningIncluded { included: false }
    ));
    let (run, action) = run.step::<u8>(RunEvent::ReasoningSet);
    assert!(matches!(action, RunAction::ConsumeStartupPrewarm));
    let (run, action) = run.step::<u8>(RunEvent::PrewarmResolved(PrewarmResolution::Ready(5)));
    match action {
        RunAction::RunTurn { input, prewarmed } => {
            assert_eq!(input, vec![text("hi")]);
            assert_eq!(prewarmed, Some(5));
        }
        _ => panic!("expected a pass of the model"),
    }
    run
}

/// A turn whose validation ended with `result`.
fn validated(
    state: ControllerValidationState,
    result: ControllerValidationRunResult,
) -> (RegularRun, RunAction<u8>) {
    let (run, action) = running().step::<u8>(RunEvent::TurnRan {
        last_agent_message: Some("done".to_string()),
    });
    assert!(matches!(action, RunAction::TakePendingValidation));
    let (run, action) = run.step::<u8>(RunEvent::ValidationTaken(Some(state.clone())));
    assert!(matches!(action, RunAction::SetValidationActive { active: true }));
    let (run, action) = run.step::<u8>(RunEvent::ValidationActivated);
    match action {
        RunAction::RunValidationCommands { validation } => assert_eq!(validation, state),
        _ => panic!("expected the commands"),
    }
    run.step::<u8>(RunEvent::ValidationRan(result))
}

/// A turn that waits for its repair prompt to be queued.
fn repairing() -> RegularRun {
    let (run, action) = validated(validation(&["a", "b"], 1), failed("b"));
    match action {
        RunAction::SetPendingValidation { validation: next } => {
            assert_eq!(next, validation(&["b", "a"], 2));
        }
        _ => panic!("expected a retry"),
    }
    let (run, action) = run.step::<u8>(RunEvent::ValidationStored);
    match action {
        RunAction::InjectItems { items } => {
            assert_eq!(items.len(), 1);
            assert_eq!(items[0].role, "developer");
            assert_eq!(items[0].text, build_validation_repair_prompt("fail"));
        }
        _ => panic!("expected the repair prompt"),
    }
    run
}

/// The turn stores `expected` as the result and ends without a message.
fn ends_with(run: RegularRun, action: RunAction<u8>, expected: &str) {
    match action {
        RunAction::SetTerminalResult { message } => assert_eq!(message, expected),
        _ => panic!("expected a result"),
    }
    let (run, action) = run.step::<u8>(RunEvent::ResultStored);
    assert!(matches!(run, RegularRun::Finished));
    assert!(matches!(
        action,
        RunAction::Return {
            last_agent_message: None
        }
    ));
}

/// The action runs the model on the queued input.
fn runs_again(run: &RegularRun, action: RunAction<u8>) {
    assert!(matches!(run, RegularRun::RunningTurn));
    match action {
        RunAction::RunTurn { input, prewarmed } => {
            assert!(input.is_empty());
            assert_eq!(prewarmed, None);
        }
        _ => panic!("expected a pass of the model"),
    }
}

#[test]
fn failed_validation_with_attempts_remaining_increments_attempt_and_moves_failed_command_first() {
    let state = ControllerValidationState {
        commands: vec!["c1".to_string(), "c2".to_string(), "c3".to_string()],
        attempt: 0,
    };
    let run_result = ControllerValidationRunResult::Failed {
        message: "fail".to_string(),
        failed_command: "c2".to_string(),
        exit_code: 7,
    };

    let action = next_controller_validation_action(state, run_result);
    let ControllerValidationAction::Retry {
        validation,
        failure_summary,
        repair_prompt,
    } = action
    else {
        panic!("expected retry");
    };
    assert_eq!(validation.attempt(), 1);
    assert_eq!(
        validation.commands(),
        &["c2".to_string(), "c1".to_string(), "c3".to_string()]
    );
    assert_eq!(failure_summary, "fail".to_string());
    assert_eq!(repair_prompt, build_validation_repair_prompt("fail"));
}

#[test]
fn failed_validation_with_exhausted_attempts_is_terminal() {
    let state = ControllerValidationState {
        commands: vec!["c1".to_string()],
        attempt: 2,
    };
    let run_result = ControllerValidationRunResult::Failed {
        message: "final fail".to_string(),
        failed_command: "c1".to_string(),
        exit_code: 1,
    };

    let action = next_controller_validation_action(state, run_result);
    let ControllerValidationAction::Terminal { message } = action else {
        panic!("expected terminal");
    };
    assert_eq!(message, "final fail".to_string());
}

#[test]
fn passed_validation_is_terminal() {
    let action = next_controller_validation_action(
        validation(&["a"], 0),
        ControllerValidationRunResult::Passed {
            message: "All checks passed.".to_string(),
        },
    );
    let ControllerValidationAction::Terminal { message } = action else {
        panic!("expected terminal");
    };
    assert_eq!(message, "All checks passed.");
}

#[test]
fn a_validation_is_repaired_at_most_twice() {
    let mut state = validation(&["a", "b", "c"], 0);
    let mut repairs = 0;
    while let ControllerValidationAction::Retry { validation, .. } =
        next_controller_validation_action(state, failed("c"))
    {
        repairs += 1;
        let mut commands = validation.commands().to_vec();
        assert_eq!(commands[0], "c");
        commands.sort();
        assert_eq!(commands, vec!["a", "b", "c"]);
        state = validation;
    }
    assert_eq!(repairs, 2);
}

#[test]
fn a_cancelled_prewarm_ends_the_turn() {
    let (run, _) = RegularRun::start::<u8>(Vec::new());
    let (run, _) = run.step::<u8>(RunEvent::TurnStartedSent);
    let (run, _) = run.step::<u8>(RunEvent::ReasoningSet);
    let (run, action) = run.step::<u8>(RunEvent::PrewarmResolved(PrewarmResolution::Cancelled));
    assert!(matches!(run, RegularRun::Finished));
    assert!(matches!(
        action,
        RunAction::Return {
            last_agent_message: None
        }
    ));
}

#[test]
fn an_unavailable_prewarm_runs_the_model_without_it() {
    let (run, _) = RegularRun::start::<u8>(vec![text("hi")]);
    let (run, _) = run.step::<u8>(RunEvent::TurnStartedSent);
    let (run, _) = run.step::<u8>(RunEvent::ReasoningSet);
    let (run, action) = run.step::<u8>(RunEvent::PrewarmResolved(PrewarmResolution::Unavailable));
    assert!(matches!(run, RegularRun::RunningTurn));
    match action {
        RunAction::RunTurn { input, prewarmed } => {
            assert_eq!(input, vec![text("hi")]);
            assert_eq!(prewarmed, None);
        }
        _ => panic!("expected a pass of the model"),
    }
}

#[test]
fn a_turn_without_validation_ends_with_the_last_message() {
    let (run, _) = running().step::<u8>(RunEvent::TurnRan {
        last_agent_message: Some("first".to_string()),
    });
    let (run, action) = run.step::<u8>(RunEvent::ValidationTaken(None));
    assert!(matches!(action, RunAction::QueryPendingInput));
    let (run, action) = run.step::<u8>(RunEvent::PendingInput(true));
    runs_again(&run, action);
    let (run, _) = run.step::<u8>(RunEvent::TurnRan {
        last_agent_message: Some("second".to_string()),
    });
    let (run, _) = run.step::<u8>(RunEvent::ValidationTaken(None));
    let (run, action) = run.step::<u8>(RunEvent::PendingInput(false));
    assert!(matches!(run, RegularRun::Finished));
    match action {
        RunAction::Return { last_agent_message } => {
            assert_eq!(last_agent_message, Some("second".to_string()));
        }
        _ => panic!("expected the end"),
    }
}

#[test]
fn a_passed_validation_ends_the_turn() {
    let (run, action) = validated(
        validation(&["a"], 0),
        ControllerValidationRunResult::Passed {
            message: "All checks passed.".to_string(),
        },
    );
    ends_with(run, action, "All checks passed.");
}

#[test]
fn a_failed_validation_without_attempts_ends_the_turn() {
    let (run, action) = validated(validation(&["a"], 2), failed("a"));
    ends_with(run, action, "fail");
}

#[test]
fn a_queued_repair_runs_the_model_again() {
    let (run, action) = repairing().step::<u8>(RunEvent::ItemsInjected);
    assert!(matches!(action, RunAction::QueryPendingInput));
    let (run, action) = run.step::<u8>(RunEvent::PendingInput(true));
    runs_again(&run, action);
}

#[test]
fn a_rejected_repair_ends_the_turn() {
    let (run, action) = repairing().step::<u8>(RunEvent::ItemsRejected);
    ends_with(
        run,
        action,
        "fail\n\nRepair prompt handoff failed: queued retry input was rejected for active turn.",
    );
}

#[test]
fn a_lost_repair_ends_the_turn() {
    let (run, _) = repairing().step::<u8>(RunEvent::ItemsInjected);
    let (run, action) = run.step::<u8>(RunEvent::PendingInput(false));
    ends_with(
        run,
        action,
        "fail\n\nRepair prompt handoff failed: retry input was not pending for model consumption.",
    );
}

#[test]
fn a_regular_task_says_what_it_is() {
    let task = RegularTask::new();
    assert_eq!(task, RegularTask::default());
    assert_eq!(task.kind(), TaskKind::Regular);
    assert_eq!(task.span_name(), "session_task.turn");
    assert!(task.records_turn_token_usage_on_span());
}

#[test]
fn a_turn_that_never_passes_is_repaired_twice_and_ends_with_its_failure() {
    let mut state = TurnState::<TestHost>::default();
    state.set_pending_controller_validation(validation(&["a", "b"], 0));
    let (mut run, mut action) = RegularRun::start::<u8>(vec![text("hi")]);
    let mut announced = 0;
    let mut passes = 0;
    let mut ran = Vec::new();
    let last_agent_message = loop {
        let event = match action {
            RunAction::SendTurnStarted => {
                announced += 1;
                RunEvent::TurnStartedSent
            }
            RunAction::SetServerReasoningIncluded { .. } => RunEvent::ReasoningSet,
            RunAction::ConsumeStartupPrewarm => {
                RunEvent::PrewarmResolved(PrewarmResolution::Ready(1))
            }
            RunAction::RunTurn { input, prewarmed } => {
                assert_eq!(input.is_empty(), passes > 0);
                assert_eq!(prewarmed.is_some(), passes == 0);
                assert_eq!(state.take_pending_input().is_empty(), passes == 0);
                assert!(state.controller_validation_owns_turn_finalization());
                passes += 1;
                RunEvent::TurnRan {
                    last_agent_message: Some("done".to_string()),
                }
            }
            RunAction::TakePendingValidation => {
                RunEvent::ValidationTaken(state.take_pending_controller_validation())
            }
            RunAction::SetValidationActive { active } => {
                state.set_controller_validation_active(active);
                RunEvent::ValidationActivated
            }
            RunAction::RunValidationCommands { validation } => {
                assert!(state.controller_validation_owns_turn_finalization());
                ran.push(validation.commands().to_vec());
                RunEvent::ValidationRan(failed("b"))
            }
            RunAction::SetPendingValidation { validation } => {
                state.set_pending_controller_validation(validation);
                RunEvent::ValidationStored
            }
            RunAction::InjectItems { items } => {
                for item in items {
                    state.push_pending_input(item.text);
                }
                RunEvent::ItemsInjected
            }
            RunAction::QueryPendingInput => RunEvent::PendingInput(state.has_pending_input()),
            RunAction::SetTerminalResult { message } => {
                state.set_terminal_controller_validation_result(message);
                RunEvent::ResultStored
            }
            RunAction::Return { last_agent_message } => break last_agent_message,
        };
        (run, action) = run.step(event);
    };
    assert!(matches!(run, RegularRun::Finished));
    assert_eq!(last_agent_message, None);
    assert_eq!(announced, 1);
    assert_eq!(passes, 3);
    assert_eq!(ran, vec![vec!["a", "b"], vec!["b", "a"], vec!["b", "a"]]);
    assert!(state.controller_validation_owns_turn_finalization());
    assert!(!state.has_pending_controller_validation());
    assert_eq!(
        state.take_terminal_controller_validation_result(),
        Some("fail".to_string())
    );
}

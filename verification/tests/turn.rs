use tokio::sync::oneshot;

use turn_control::controller_validation::ControllerValidationState;
use turn_control::host::HostTypes;
use turn_control::turn::ActiveTurn;
use turn_control::turn::MailboxDeliveryPhase;
use turn_control::turn::PendingRequestPermissions;
use turn_control::turn::RemovedTask;
use turn_control::turn::RequestId;
use turn_control::turn::RunningTask;
use turn_control::turn::TaskKind;
use turn_control::turn::TurnState;

struct TestHost;

impl HostTypes for TestHost {
    type ApprovalReply = oneshot::Sender<bool>;
    type PermissionsReply = oneshot::Sender<u8>;
    type UserInputReply = u32;
    type ElicitationReply = u32;
    type DynamicToolReply = u32;
    type RequestedPermissions = String;
    type Cwd = String;
    type InputItem = String;
    type Permissions = Vec<u8>;
    type TokenUsage = u64;
    type SandboxPermissions = u8;
    type Network = u8;
    type ApprovalRequirement = u8;
    type ExecOutput = u8;
    type ToolOutput = u8;
    type CallError = u8;
}

type State = TurnState<TestHost>;

fn task(sub_id: &str, handle: u64) -> RunningTask {
    RunningTask {
        sub_id: sub_id.to_string(),
        kind: TaskKind::Regular,
        records_turn_token_usage_on_span: handle % 2 == 1,
        handle,
    }
}

fn handles(tasks: Vec<RunningTask>) -> Vec<u64> {
    tasks.into_iter().map(|task| task.handle).collect()
}

#[test]
fn controller_validation_state_round_trips() {
    let mut turn_state = State::default();
    let state = ControllerValidationState {
        commands: vec!["cargo check -p codex-core".to_string()],
        attempt: 0,
    };

    turn_state.set_pending_controller_validation(state.clone());
    assert!(turn_state.is_controller_validation_active());
    assert_eq!(turn_state.take_pending_controller_validation(), Some(state));
    assert_eq!(turn_state.take_pending_controller_validation(), None);
}

#[test]
fn terminal_controller_validation_result_round_trips() {
    let mut turn_state = State::default();
    assert!(!turn_state.has_terminal_controller_validation_result());

    turn_state.set_terminal_controller_validation_result("All checks passed.".to_string());
    assert!(turn_state.has_terminal_controller_validation_result());
    assert_eq!(
        turn_state.take_terminal_controller_validation_result(),
        Some("All checks passed.".to_string())
    );
    assert_eq!(
        turn_state.take_terminal_controller_validation_result(),
        None
    );
}

#[test]
fn controller_validation_active_state_round_trips() {
    let mut turn_state = State::default();
    assert!(!turn_state.is_controller_validation_active());
    turn_state.set_controller_validation_active(true);
    assert!(turn_state.is_controller_validation_active());
    turn_state.set_controller_validation_active(false);
    assert!(!turn_state.is_controller_validation_active());
}

#[test]
fn controller_validation_owns_turn_finalization_when_any_signal_is_set() {
    let mut turn_state = State::default();
    assert!(!turn_state.controller_validation_owns_turn_finalization());

    turn_state.set_controller_validation_active(true);
    assert!(turn_state.controller_validation_owns_turn_finalization());

    turn_state.set_controller_validation_active(false);
    turn_state.set_pending_controller_validation(ControllerValidationState {
        commands: vec!["cargo test -p codex-core".to_string()],
        attempt: 0,
    });
    assert!(turn_state.controller_validation_owns_turn_finalization());

    turn_state.take_pending_controller_validation();
    turn_state.set_terminal_controller_validation_result("done".to_string());
    assert!(turn_state.controller_validation_owns_turn_finalization());
}

#[test]
fn a_state_begins_empty() {
    let mut state = State::default();
    assert!(!state.has_pending_input());
    assert!(state.take_pending_input().is_empty());
    assert!(state.accepts_mailbox_delivery_for_current_turn());
    assert_eq!(state.granted_permissions(), None);
    assert!(!state.strict_auto_review_enabled());
    assert!(!state.has_pending_controller_validation());
    assert_eq!(state.tool_calls, 0);
    assert!(!state.has_memory_citation);
    assert_eq!(state.token_usage_at_turn_start, 0);
}

#[test]
fn an_approval_is_handed_out_once() {
    let mut state = State::default();
    let (first, mut first_rx) = oneshot::channel();
    let (second, mut second_rx) = oneshot::channel();
    assert!(state.insert_pending_approval("a".to_string(), first).is_none());

    let replaced = state.insert_pending_approval("a".to_string(), second).unwrap();
    replaced.send(false).unwrap();
    assert_eq!(first_rx.try_recv(), Ok(false));

    assert!(state.remove_pending_approval("b").is_none());
    let reply = state.remove_pending_approval("a").unwrap();
    reply.send(true).unwrap();
    assert_eq!(second_rx.try_recv(), Ok(true));
    assert!(state.remove_pending_approval("a").is_none());
}

#[test]
fn a_request_for_permissions_keeps_what_it_asks_for() {
    let mut state = State::default();
    let (tx, mut rx) = oneshot::channel();
    let request = PendingRequestPermissions {
        tx_response: tx,
        requested_permissions: "network".to_string(),
        cwd: "/tmp".to_string(),
    };
    assert!(state
        .insert_pending_request_permissions("call".to_string(), request)
        .is_none());
    let found = state.remove_pending_request_permissions("call").unwrap();
    assert_eq!(found.requested_permissions, "network");
    assert_eq!(found.cwd, "/tmp");
    found.tx_response.send(9).unwrap();
    assert_eq!(rx.try_recv(), Ok(9));
    assert!(state.remove_pending_request_permissions("call").is_none());
}

#[test]
fn replies_are_found_by_their_keys() {
    let mut state = State::default();
    for (number, key) in ["a", "b", "c", "d"].into_iter().enumerate() {
        assert_eq!(state.insert_pending_user_input(key.to_string(), number as u32), None);
        assert_eq!(state.insert_pending_dynamic_tool(key.to_string(), 10 + number as u32), None);
    }
    assert_eq!(state.insert_pending_user_input("b".to_string(), 7), Some(1));
    assert_eq!(state.insert_pending_dynamic_tool("d".to_string(), 8), Some(13));
    assert_eq!(state.remove_pending_user_input("a"), Some(0));
    assert_eq!(state.remove_pending_user_input("a"), None);
    assert_eq!(state.remove_pending_user_input("b"), Some(7));
    assert_eq!(state.remove_pending_user_input("c"), Some(2));
    assert_eq!(state.remove_pending_user_input("d"), Some(3));
    assert_eq!(state.remove_pending_dynamic_tool("d"), Some(8));
    assert_eq!(state.remove_pending_dynamic_tool("a"), Some(10));
    assert_eq!(state.remove_pending_dynamic_tool("e"), None);
}

#[test]
fn elicitations_are_told_apart_by_server_and_request() {
    let mut state = State::default();
    let ids = [
        RequestId::Number(1),
        RequestId::Number(-1),
        RequestId::Text("1".to_string()),
        RequestId::Text(String::new()),
    ];
    let mut number = 0;
    for server in ["x", "y"] {
        for id in &ids {
            assert_eq!(
                state.insert_pending_elicitation(server.to_string(), id.clone(), number),
                None
            );
            number += 1;
        }
    }
    assert_eq!(
        state.insert_pending_elicitation("y".to_string(), RequestId::Text("1".to_string()), 60),
        Some(6)
    );
    assert_eq!(state.remove_pending_elicitation("x", &ids[0]), Some(0));
    assert_eq!(state.remove_pending_elicitation("x", &ids[0]), None);
    assert_eq!(state.remove_pending_elicitation("x", &ids[2]), Some(2));
    assert_eq!(state.remove_pending_elicitation("y", &ids[0]), Some(4));
    assert_eq!(state.remove_pending_elicitation("y", &ids[2]), Some(60));
    assert_eq!(state.remove_pending_elicitation("y", &ids[1]), Some(5));
    assert_eq!(state.remove_pending_elicitation("z", &ids[1]), None);
}

#[test]
fn input_comes_out_in_its_order() {
    let mut state = State::default();
    state.push_pending_input("c".to_string());
    state.prepend_pending_input(vec!["a".to_string(), "b".to_string()]);
    state.prepend_pending_input(Vec::new());
    state.push_pending_input("d".to_string());
    assert!(state.has_pending_input());
    assert_eq!(state.take_pending_input(), vec!["a", "b", "c", "d"]);
    assert!(!state.has_pending_input());
    assert!(state.take_pending_input().is_empty());
    state.prepend_pending_input(vec!["e".to_string()]);
    assert_eq!(state.take_pending_input(), vec!["e"]);
}

#[test]
fn mailbox_phase_is_reopened() {
    let mut state = State::default();
    state.set_mailbox_delivery_phase(MailboxDeliveryPhase::NextTurn);
    assert!(!state.accepts_mailbox_delivery_for_current_turn());
    state.accept_mailbox_delivery_for_current_turn();
    assert!(state.accepts_mailbox_delivery_for_current_turn());
    assert_eq!(MailboxDeliveryPhase::default(), MailboxDeliveryPhase::CurrentTurn);
}

#[test]
fn granted_permissions_are_merged() {
    let merge = |old: Option<&Vec<u8>>, new: Option<&Vec<u8>>| -> Option<Vec<u8>> {
        let mut merged = old.cloned().unwrap_or_default();
        merged.extend(new.cloned().unwrap_or_default());
        Some(merged)
    };
    let mut state = State::default();
    state.record_granted_permissions(vec![1], merge);
    assert_eq!(state.granted_permissions(), Some(vec![1]));
    state.record_granted_permissions(vec![2, 3], merge);
    assert_eq!(state.granted_permissions(), Some(vec![1, 2, 3]));
    state.record_granted_permissions(vec![4], |_, _| None);
    assert_eq!(state.granted_permissions(), None);
}

#[test]
fn strict_review_stays_enabled() {
    let mut state = State::default();
    state.enable_strict_auto_review();
    state.clear_pending();
    assert!(state.strict_auto_review_enabled());
}

#[test]
fn clearing_forgets_what_is_pending_alone() {
    let mut state = State::default();
    let (tx, mut rx) = oneshot::channel();
    state.insert_pending_approval("a".to_string(), tx);
    let (permissions_tx, _permissions_rx) = oneshot::channel();
    state.insert_pending_request_permissions(
        "a".to_string(),
        PendingRequestPermissions {
            tx_response: permissions_tx,
            requested_permissions: String::new(),
            cwd: String::new(),
        },
    );
    state.insert_pending_user_input("a".to_string(), 1);
    state.insert_pending_elicitation("a".to_string(), RequestId::Number(1), 1);
    state.insert_pending_dynamic_tool("a".to_string(), 1);
    state.push_pending_input("a".to_string());
    state.set_pending_controller_validation(ControllerValidationState::default());
    state.set_terminal_controller_validation_result("done".to_string());
    state.set_mailbox_delivery_phase(MailboxDeliveryPhase::NextTurn);
    state.record_granted_permissions(vec![5], |_, new| new.cloned());
    state.tool_calls = 3;
    state.has_memory_citation = true;
    state.token_usage_at_turn_start = 4;

    state.clear_pending();

    // The sender was dropped, so no answer can come any more.
    assert_eq!(rx.try_recv(), Err(oneshot::error::TryRecvError::Closed));
    assert!(state.remove_pending_approval("a").is_none());
    assert!(state.remove_pending_request_permissions("a").is_none());
    assert_eq!(state.remove_pending_user_input("a"), None);
    assert_eq!(state.remove_pending_elicitation("a", &RequestId::Number(1)), None);
    assert_eq!(state.remove_pending_dynamic_tool("a"), None);
    assert!(!state.has_pending_input());
    assert!(!state.controller_validation_owns_turn_finalization());
    assert!(!state.accepts_mailbox_delivery_for_current_turn());
    assert_eq!(state.granted_permissions(), Some(vec![5]));
    assert_eq!(state.tool_calls, 3);
    assert!(state.has_memory_citation);
    assert_eq!(state.token_usage_at_turn_start, 4);
}

#[test]
fn a_taken_validation_leaves_the_controller_in_charge() {
    let mut state = State::default();
    state.set_pending_controller_validation(ControllerValidationState::default());
    assert!(state.has_pending_controller_validation());
    state.take_pending_controller_validation();
    assert!(!state.has_pending_controller_validation());
    assert!(state.controller_validation_owns_turn_finalization());
}

#[test]
fn tasks_keep_their_order_and_places() {
    let mut turn = ActiveTurn::<TestHost>::default();
    assert_eq!(turn.add_task(task("a", 1)), None);
    assert_eq!(turn.add_task(task("b", 2)), None);
    assert_eq!(turn.add_task(task("c", 3)), None);
    assert_eq!(turn.add_task(task("b", 4)), Some(task("b", 2)));
    assert_eq!(handles(turn.drain_tasks()), vec![1, 4, 3]);
    assert!(turn.drain_tasks().is_empty());
}

#[test]
fn the_last_task_takes_the_place_of_a_removed_one() {
    let mut turn = ActiveTurn::<TestHost>::default();
    for (handle, id) in [(1, "a"), (2, "b"), (3, "c"), (4, "d")] {
        turn.add_task(task(id, handle));
    }
    assert_eq!(
        turn.remove_task("b"),
        Some(RemovedTask {
            records_turn_token_usage_on_span: false,
            active_turn_is_empty: false,
            handle: 2,
        })
    );
    assert_eq!(turn.remove_task("b"), None);
    assert_eq!(handles(turn.drain_tasks()), vec![1, 4, 3]);
}

#[test]
fn removing_the_only_task_empties_the_turn() {
    let mut turn = ActiveTurn::<TestHost>::default();
    turn.add_task(task("a", 1));
    assert_eq!(turn.remove_task("A"), None);
    assert_eq!(
        turn.remove_task("a"),
        Some(RemovedTask {
            records_turn_token_usage_on_span: true,
            active_turn_is_empty: true,
            handle: 1,
        })
    );
    assert!(turn.drain_tasks().is_empty());
}

#[test]
fn a_task_that_is_added_and_removed_leaves_the_others() {
    let mut turn = ActiveTurn::<TestHost>::default();
    turn.add_task(task("a", 1));
    turn.add_task(task("b", 2));
    turn.add_task(task("c", 3));
    turn.remove_task("c");
    assert_eq!(handles(turn.drain_tasks()), vec![1, 2]);
}

#[test]
fn clearing_a_turn_keeps_its_tasks() {
    let mut turn = ActiveTurn::<TestHost>::default();
    turn.add_task(task("a", 1));
    turn.turn_state.push_pending_input("x".to_string());
    turn.clear_pending();
    assert!(!turn.turn_state.has_pending_input());
    assert_eq!(handles(turn.drain_tasks()), vec![1]);
}

//! A regular turn: the model runs, then the controller validates, and a failed
//! validation is handed back to the model as long as attempts remain.
use vstd::prelude::*;
use vstd::string::*;

use crate::controller_validation;
use crate::controller_validation::build_validation_repair_prompt;
use crate::controller_validation::ControllerValidationRunResult;
use crate::controller_validation::ControllerValidationState;
use crate::host::HostTypes;
use crate::turn::TaskKind;
use crate::turn::TurnStateView;
use crate::user_input::UserInput;

verus! {

/// How often a failed validation is handed back to the model.
pub const MAX_CONTROLLER_VALIDATION_REPAIR_ATTEMPTS: u8 = 2;

/// What the controller does about the end of a validation run.
pub enum ControllerValidationAction {
    /// Let the model repair the failure, then validate again.
    Retry {
        validation: ControllerValidationState,
        failure_summary: String,
        repair_prompt: String,
    },
    /// End the turn with `message`.
    Terminal { message: String },
}

/// `action` is what follows when `validation` ended with `run_result`.
pub open spec fn is_next_action(
    validation: ControllerValidationState,
    run_result: ControllerValidationRunResult,
    action: ControllerValidationAction,
) -> bool {
    match run_result {
        ControllerValidationRunResult::Passed { message } => action
            == (ControllerValidationAction::Terminal { message }),
        ControllerValidationRunResult::Failed { message, failed_command, .. } => if validation.attempt
            < MAX_CONTROLLER_VALIDATION_REPAIR_ATTEMPTS {
            &&& action matches ControllerValidationAction::Retry {
                validation: next,
                failure_summary,
                repair_prompt,
            }
            &&& next.attempt == validation.attempt + 1
            &&& next.commands@ == controller_validation::command_first(
                validation.commands@,
                failed_command@,
            )
            &&& failure_summary == message
            &&& repair_prompt@ == controller_validation::repair_prompt(message@)
        } else {
            action == (ControllerValidationAction::Terminal { message })
        },
    }
}

/// Decides what follows when `validation` ended with `run_result`.
pub fn next_controller_validation_action(
    validation: ControllerValidationState,
    run_result: ControllerValidationRunResult,
) -> (action: ControllerValidationAction)
    ensures
        is_next_action(validation, run_result, action),
{
    let mut next = validation;
    match run_result {
        ControllerValidationRunResult::Passed { message } => ControllerValidationAction::Terminal {
            message,
        },
        ControllerValidationRunResult::Failed { message, failed_command, exit_code } => {
            if next.has_attempts_remaining(MAX_CONTROLLER_VALIDATION_REPAIR_ATTEMPTS) {
                next.increment_attempt();
                next.failed_command_first(&failed_command);
                let repair_prompt = build_validation_repair_prompt(&message);
                return ControllerValidationAction::Retry {
                    validation: next,
                    failure_summary: message,
                    repair_prompt,
                };
            }
            ControllerValidationAction::Terminal { message }
        },
    }
}

/// In what the consumption of a session that was warmed up at startup ended.
pub enum PrewarmResolution<S> {
    /// The turn was cancelled meanwhile.
    Cancelled,
    /// There is no such session.
    Unavailable,
    /// There is one.
    Ready(S),
}

/// A message to the model about a failed validation.
pub struct RepairPromptItem {
    pub role: String,
    pub text: String,
}

/// What a regular turn waits for.
pub enum RegularRun {
    /// The event that the turn started.
    Announcing { input: Vec<UserInput> },
    /// The session's forgetting that the server counts its reasoning.
    ResettingReasoning { input: Vec<UserInput> },
    /// The session that was warmed up at startup.
    Prewarming { input: Vec<UserInput> },
    /// One pass of the model.
    RunningTurn,
    /// The validation that the pass left to be done.
    TakingValidation { last_agent_message: Option<String> },
    /// The mark that the controller validates.
    ActivatingValidation { validation: ControllerValidationState },
    /// The end of the validation commands.
    RunningValidation { validation: ControllerValidationState },
    /// The storing of the validation for the next pass.
    StoringValidation { failure_summary: String, repair_prompt: String },
    /// The queueing of the repair prompt.
    InjectingRepair { failure_summary: String },
    /// Whether the repair prompt is queued.
    CheckingRepair { failure_summary: String },
    /// The storing of the result of the validation.
    StoringResult,
    /// Whether there is more input for the model.
    CheckingInput { last_agent_message: Option<String> },
    /// Nothing: the turn is over.
    Finished,
}

/// What the host of a regular turn does next.
pub enum RunAction<S> {
    /// Sends the event that the turn started.
    SendTurnStarted,
    /// Sets whether the server counts its reasoning.
    SetServerReasoningIncluded { included: bool },
    /// Consumes the session that was warmed up at startup.
    ConsumeStartupPrewarm,
    /// Runs the model on `input`.
    RunTurn { input: Vec<UserInput>, prewarmed: Option<S> },
    /// Takes the validation that is to be done out of the turn's state.
    TakePendingValidation,
    /// Sets whether the controller validates.
    SetValidationActive { active: bool },
    /// Runs the commands of `validation`.
    RunValidationCommands { validation: ControllerValidationState },
    /// Stores `validation` in the turn's state as to be done.
    SetPendingValidation { validation: ControllerValidationState },
    /// Queues `items` for the model.
    InjectItems { items: Vec<RepairPromptItem> },
    /// Looks whether input for the model is queued.
    QueryPendingInput,
    /// Stores `message` in the turn's state as the result of the validation.
    SetTerminalResult { message: String },
    /// Ends the task with the message.
    Return { last_agent_message: Option<String> },
}

/// What became of an action.
pub enum RunEvent<S> {
    TurnStartedSent,
    ReasoningSet,
    PrewarmResolved(PrewarmResolution<S>),
    TurnRan { last_agent_message: Option<String> },
    ValidationTaken(Option<ControllerValidationState>),
    ValidationActivated,
    ValidationRan(ControllerValidationRunResult),
    ValidationStored,
    ItemsInjected,
    ItemsRejected,
    PendingInput(bool),
    ResultStored,
}

/// The message that ends a turn whose repair prompt was not accepted.
pub open spec fn rejected_message(failure_summary: Seq<char>) -> Seq<char> {
    failure_summary
        + "\n\nRepair prompt handoff failed: queued retry input was rejected for active turn."@
}

/// The message that ends a turn whose repair prompt got lost.
pub open spec fn lost_message(failure_summary: Seq<char>) -> Seq<char> {
    failure_summary
        + "\n\nRepair prompt handoff failed: retry input was not pending for model consumption."@
}

/// The action lets the model run on the queued input alone.
pub open spec fn runs_on_queue<S>(action: RunAction<S>) -> bool {
    &&& action matches RunAction::RunTurn { input, prewarmed }
    &&& input@.len() == 0
    &&& prewarmed is None
}

impl RegularRun {
    /// `event` answers what the turn waits for.
    pub open spec fn expects<S>(self, event: RunEvent<S>) -> bool {
        match self {
            RegularRun::Announcing { .. } => event is TurnStartedSent,
            RegularRun::ResettingReasoning { .. } => event is ReasoningSet,
            RegularRun::Prewarming { .. } => event is PrewarmResolved,
            RegularRun::RunningTurn => event is TurnRan,
            RegularRun::TakingValidation { .. } => event is ValidationTaken,
            RegularRun::ActivatingValidation { .. } => event is ValidationActivated,
            RegularRun::RunningValidation { .. } => event is ValidationRan,
            RegularRun::StoringValidation { .. } => event is ValidationStored,
            RegularRun::InjectingRepair { .. } => event is ItemsInjected || event is ItemsRejected,
            RegularRun::CheckingRepair { .. } => event is PendingInput,
            RegularRun::StoringResult => event is ResultStored,
            RegularRun::CheckingInput { .. } => event is PendingInput,
            RegularRun::Finished => false,
        }
    }

    /// The turn that waits as `self` does goes on with `after` and `action` on `event`.
    pub open spec fn is_step<S>(
        self,
        event: RunEvent<S>,
        after: RegularRun,
        action: RunAction<S>,
    ) -> bool {
        match (self, event) {
            (RegularRun::Announcing { input }, RunEvent::TurnStartedSent) => {
                &&& after == (RegularRun::ResettingReasoning { input })
                &&& action == (RunAction::<S>::SetServerReasoningIncluded { included: false })
            },
            (RegularRun::ResettingReasoning { input }, RunEvent::ReasoningSet) => {
                &&& after == (RegularRun::Prewarming { input })
                &&& action is ConsumeStartupPrewarm
            },
            (RegularRun::Prewarming { input }, RunEvent::PrewarmResolved(resolution)) => match resolution {
                PrewarmResolution::Cancelled => {
                    &&& after is Finished
                    &&& action == (RunAction::<S>::Return { last_agent_message: None })
                },
                PrewarmResolution::Unavailable => {
                    &&& after is RunningTurn
                    &&& action == (RunAction::<S>::RunTurn { input, prewarmed: None })
                },
                PrewarmResolution::Ready(session) => {
                    &&& after is RunningTurn
                    &&& action == (RunAction::<S>::RunTurn { input, prewarmed: Some(session) })
                },
            },
            (RegularRun::RunningTurn, RunEvent::TurnRan { last_agent_message }) => {
                &&& after == (RegularRun::TakingValidation { last_agent_message })
                &&& action is TakePendingValidation
            },
            (
                RegularRun::TakingValidation { last_agent_message },
                RunEvent::ValidationTaken(taken),
            ) => match taken {
                Some(validation) => {
                    &&& after == (RegularRun::ActivatingValidation { validation })
                    &&& action == (RunAction::<S>::SetValidationActive { active: true })
                },
                None => {
                    &&& after == (RegularRun::CheckingInput { last_agent_message })
                    &&& action is QueryPendingInput
                },
            },
            (RegularRun::ActivatingValidation { validation }, RunEvent::ValidationActivated) => {
                &&& after == (RegularRun::RunningValidation { validation })
                &&& action matches RunAction::RunValidationCommands { validation: handed }
                &&& handed.commands@ == validation.commands@
                &&& handed.attempt == validation.attempt
            },
            (RegularRun::RunningValidation { validation }, RunEvent::ValidationRan(run_result)) => {
                exists|next: ControllerValidationAction|
                    #![trigger is_next_action(validation, run_result, next)]
                    is_next_action(validation, run_result, next) && match next {
                        ControllerValidationAction::Retry {
                            validation: again,
                            failure_summary,
                            repair_prompt,
                        } => {
                            &&& after == (RegularRun::StoringValidation {
                                failure_summary,
                                repair_prompt,
                            })
                            &&& action == (RunAction::<S>::SetPendingValidation {
                                validation: again,
                            })
                        },
                        ControllerValidationAction::Terminal { message } => {
                            &&& after is StoringResult
                            &&& action == (RunAction::<S>::SetTerminalResult { message })
                        },
                    }
            },
            (
                RegularRun::StoringValidation { failure_summary, repair_prompt },
                RunEvent::ValidationStored,
            ) => {
                &&& after == (RegularRun::InjectingRepair { failure_summary })
                &&& action matches RunAction::InjectItems { items }
                &&& items@.len() == 1
                &&& items@[0].role@ == "developer"@
                &&& items@[0].text == repair_prompt
            },
            (RegularRun::InjectingRepair { failure_summary }, RunEvent::ItemsInjected) => {
                &&& after == (RegularRun::CheckingRepair { failure_summary })
                &&& action is QueryPendingInput
            },
            (RegularRun::InjectingRepair { failure_summary }, RunEvent::ItemsRejected) => {
                &&& after is StoringResult
                &&& action matches RunAction::SetTerminalResult { message }
                &&& message@ == rejected_message(failure_summary@)
            },
            (RegularRun::CheckingRepair { failure_summary }, RunEvent::PendingInput(pending)) => if pending {
                after is RunningTurn && runs_on_queue(action)
            } else {
                &&& after is StoringResult
                &&& action matches RunAction::SetTerminalResult { message }
                &&& message@ == lost_message(failure_summary@)
            },
            (RegularRun::StoringResult, RunEvent::ResultStored) => {
                &&& after is Finished
                &&& action == (RunAction::<S>::Return { last_agent_message: None })
            },
            (
                RegularRun::CheckingInput { last_agent_message },
                RunEvent::PendingInput(pending),
            ) => if pending {
                after is RunningTurn && runs_on_queue(action)
            } else {
                &&& after is Finished
                &&& action == (RunAction::<S>::Return { last_agent_message })
            },
            _ => false,
        }
    }

    /// Begins a turn on `input`.
    pub fn start<S>(input: Vec<UserInput>) -> (r: (RegularRun, RunAction<S>))
        ensures
            r.0 == (RegularRun::Announcing { input }),
            r.1 is SendTurnStarted,
    {
        (RegularRun::Announcing { input }, RunAction::SendTurnStarted)
    }

    /// Goes on when what the turn waits for has come.
    pub fn step<S>(self, event: RunEvent<S>) -> (r: (RegularRun, RunAction<S>))
        requires
            self.expects(event),
        ensures
            self.is_step(event, r.0, r.1),
    {
        match (self, event) {
            (RegularRun::Announcing { input }, RunEvent::TurnStartedSent) => (
                RegularRun::ResettingReasoning { input },
                RunAction::SetServerReasoningIncluded { included: false },
            ),
            (RegularRun::ResettingReasoning { input }, RunEvent::ReasoningSet) => (
                RegularRun::Prewarming { input },
                RunAction::ConsumeStartupPrewarm,
            ),
            (RegularRun::Prewarming { input }, RunEvent::PrewarmResolved(resolution)) => {
                let prewarmed = match resolution {
                    PrewarmResolution::Cancelled => {
                        return Self::finish(None);
                    },
                    PrewarmResolution::Unavailable => None,
                    PrewarmResolution::Ready(session) => Some(session),
                };
                (RegularRun::RunningTurn, RunAction::RunTurn { input, prewarmed })
            },
            (RegularRun::RunningTurn, RunEvent::TurnRan { last_agent_message }) => (
                RegularRun::TakingValidation { last_agent_message },
                RunAction::TakePendingValidation,
            ),
            (
                RegularRun::TakingValidation { last_agent_message },
                RunEvent::ValidationTaken(taken),
            ) => match taken {
                Some(validation) => (
                    RegularRun::ActivatingValidation { validation },
                    RunAction::SetValidationActive { active: true },
                ),
                None => (
                    RegularRun::CheckingInput { last_agent_message },
                    RunAction::QueryPendingInput,
                ),
            },
            (RegularRun::ActivatingValidation { validation }, RunEvent::ValidationActivated) => {
                let handed = validation.clone();
                (
                    RegularRun::RunningValidation { validation },
                    RunAction::RunValidationCommands { validation: handed },
                )
            },
            (RegularRun::RunningValidation { validation }, RunEvent::ValidationRan(run_result)) => {
                match next_controller_validation_action(validation, run_result) {
                    ControllerValidationAction::Retry {
                        validation,
                        failure_summary,
                        repair_prompt,
                    } => (
                        RegularRun::StoringValidation { failure_summary, repair_prompt },
                        RunAction::SetPendingValidation { validation },
                    ),
                    ControllerValidationAction::Terminal { message } => (
                        RegularRun::StoringResult,
                        RunAction::SetTerminalResult { message },
                    ),
                }
            },
            (
                RegularRun::StoringValidation { failure_summary, repair_prompt },
                RunEvent::ValidationStored,
            ) => {
                let mut items: Vec<RepairPromptItem> = Vec::new();
                items.push(RepairPromptItem { role: "developer".to_owned(), text: repair_prompt });
                (RegularRun::InjectingRepair { failure_summary }, RunAction::InjectItems { items })
            },
            (RegularRun::InjectingRepair { failure_summary }, RunEvent::ItemsInjected) => (
                RegularRun::CheckingRepair { failure_summary },
                RunAction::QueryPendingInput,
            ),
            (RegularRun::InjectingRepair { failure_summary }, RunEvent::ItemsRejected) => {
                let mut message = failure_summary;
                message.append(
                    "\n\nRepair prompt handoff failed: queued retry input was rejected for active turn.",
                );
                (RegularRun::StoringResult, RunAction::SetTerminalResult { message })
            },
            (RegularRun::CheckingRepair { failure_summary }, RunEvent::PendingInput(pending)) => {
                if pending {
                    return Self::run_on_queue();
                }
                let mut message = failure_summary;
                message.append(
                    "\n\nRepair prompt handoff failed: retry input was not pending for model consumption.",
                );
                (RegularRun::StoringResult, RunAction::SetTerminalResult { message })
            },
            (RegularRun::StoringResult, RunEvent::ResultStored) => Self::finish(None),
            (
                RegularRun::CheckingInput { last_agent_message },
                RunEvent::PendingInput(pending),
            ) => {
                if pending {
                    Self::run_on_queue()
                } else {
                    Self::finish(last_agent_message)
                }
            },
            (waiting, other) => {
                assert(false);
                (waiting, RunAction::QueryPendingInput)
            },
        }
    }

    /// Lets the model run on the queued input.
    fn run_on_queue<S>() -> (r: (RegularRun, RunAction<S>))
        ensures
            r.0 is RunningTurn,
            runs_on_queue(r.1),
    {
        (RegularRun::RunningTurn, RunAction::RunTurn { input: Vec::new(), prewarmed: None })
    }

    /// Ends the turn with the message.
    fn finish<S>(last_agent_message: Option<String>) -> (r: (RegularRun, RunAction<S>))
        ensures
            r.0 is Finished,
            r.1 == (RunAction::<S>::Return { last_agent_message }),
    {
        (RegularRun::Finished, RunAction::Return { last_agent_message })
    }
}

/// The task that runs a regular turn.
#[derive(Clone, Copy, Debug, PartialEq, Eq)]
pub struct RegularTask;

impl Default for RegularTask {
    fn default() -> (task: Self)
        ensures
            task == RegularTask,
    {
        RegularTask
    }
}

impl RegularTask {
    pub fn new() -> (task: Self)
        ensures
            task == RegularTask,
    {
        RegularTask
    }

    pub fn kind(&self) -> (kind: TaskKind)
        ensures
            kind == TaskKind::Regular,
    {
        TaskKind::Regular
    }

    pub fn span_name(&self) -> (name: &'static str)
        ensures
            name@ == "session_task.turn"@,
    {
        "session_task.turn"
    }

    pub fn records_turn_token_usage_on_span(&self) -> (records: bool)
        ensures
            records,
    {
        true
    }
}

/// `validation` ended with `run_result` and is retried as `next`.
pub open spec fn is_retried_as(
    validation: ControllerValidationState,
    run_result: ControllerValidationRunResult,
    next: ControllerValidationState,
) -> bool {
    exists|action: ControllerValidationAction|
        #![trigger is_next_action(validation, run_result, action)]
        is_next_action(validation, run_result, action) && action is Retry
            && action->Retry_validation == next
}

/// A chain of validation runs: each is the retry that followed the run before.
pub open spec fn is_retry_chain(
    runs: Seq<ControllerValidationState>,
    results: Seq<ControllerValidationRunResult>,
) -> bool {
    &&& runs.len() == results.len() + 1
    &&& forall|i: int|
        0 <= i < results.len() ==> is_retried_as(runs[i], #[trigger] results[i], runs[i + 1])
}

/// A validation is handed back to the model at most as often as the limit
/// says, less the attempts that were made before.
pub proof fn repairs_are_bounded(
    runs: Seq<ControllerValidationState>,
    results: Seq<ControllerValidationRunResult>,
)
    requires
        is_retry_chain(runs, results),
    ensures
        runs.last().attempt == runs[0].attempt + results.len(),
        results.len() > 0 ==> runs[0].attempt + results.len()
            <= MAX_CONTROLLER_VALIDATION_REPAIR_ATTEMPTS,
    decreases results.len(),
{
    if results.len() > 0 {
        let n = results.len() - 1;
        let shorter = runs.drop_last();
        let before = results.drop_last();
        assert forall|i: int| 0 <= i < before.len() implies is_retried_as(
            shorter[i],
            #[trigger] before[i],
            shorter[i + 1],
        ) by {
            assert(before[i] == results[i]);
        }
        repairs_are_bounded(shorter, before);
        assert(is_retried_as(runs[n], results[n], runs[n + 1]));
    }
}

/// Every retry runs the same commands, in some order.
pub proof fn retries_keep_the_commands(
    validation: ControllerValidationState,
    run_result: ControllerValidationRunResult,
    action: ControllerValidationAction,
)
    requires
        is_next_action(validation, run_result, action),
        action is Retry,
    ensures
        action->Retry_validation.commands@.to_multiset() == validation.commands@.to_multiset(),
        run_result is Failed,
        validation.attempt < action->Retry_validation.attempt,
{
    controller_validation::failed_command_first_keeps_the_commands(
        validation.commands@,
        run_result->failed_command@,
    );
}

impl RegularRun {
    /// How far the turn still is from its end, or from the next pass of the model.
    pub open spec fn distance(self) -> nat {
        match self {
            RegularRun::Announcing { .. } => 12,
            RegularRun::ResettingReasoning { .. } => 11,
            RegularRun::Prewarming { .. } => 10,
            RegularRun::RunningTurn => 9,
            RegularRun::TakingValidation { .. } => 8,
            RegularRun::ActivatingValidation { .. } => 7,
            RegularRun::RunningValidation { .. } => 6,
            RegularRun::StoringValidation { .. } => 5,
            RegularRun::InjectingRepair { .. } => 4,
            RegularRun::CheckingRepair { .. } => 3,
            RegularRun::CheckingInput { .. } => 2,
            RegularRun::StoringResult => 1,
            RegularRun::Finished => 0,
        }
    }

    /// The controller has taken over the end of the turn.
    pub open spec fn is_validating(self) -> bool {
        ||| self is ActivatingValidation
        ||| self is RunningValidation
        ||| self is StoringValidation
        ||| self is InjectingRepair
        ||| self is CheckingRepair
        ||| self is StoringResult
    }
}

/// Every step brings a turn nearer to its end, but for one that lets the model
/// run again.
pub proof fn every_step_goes_forward<S>(
    before: RegularRun,
    event: RunEvent<S>,
    after: RegularRun,
    action: RunAction<S>,
)
    requires
        before.is_step(event, after, action),
    ensures
        action is RunTurn || after.distance() < before.distance(),
        action is RunTurn <==> after is RunningTurn,
        action is Return <==> after is Finished,
{
}

/// A turn is announced once, at its start: repairs are part of the same turn.
/// The session that was warmed up at startup is asked for once and handed to
/// the first pass of the model alone.
pub proof fn a_turn_is_announced_and_prewarmed_once<S>(
    before: RegularRun,
    event: RunEvent<S>,
    after: RegularRun,
    action: RunAction<S>,
)
    requires
        before.is_step(event, after, action),
    ensures
        !(action is SendTurnStarted),
        !(after is Announcing),
        after is ResettingReasoning ==> before is Announcing,
        after is Prewarming ==> before is ResettingReasoning,
        action is ConsumeStartupPrewarm <==> after is Prewarming,
        action is RunTurn && !(before is Prewarming) ==> runs_on_queue(action),
{
}

/// Once the controller has taken over, the turn ends without a message of the
/// agent and only after a result was stored, unless the model runs again. It
/// then runs on the queued input alone.
pub proof fn a_validated_turn_ends_with_a_stored_result<S>(
    before: RegularRun,
    event: RunEvent<S>,
    after: RegularRun,
    action: RunAction<S>,
)
    requires
        before.is_validating(),
        before.is_step(event, after, action),
    ensures
        after.is_validating() || after is RunningTurn || after is Finished,
        after is RunningTurn ==> runs_on_queue(action),
        after is Finished ==> before is StoringResult && action == (RunAction::<S>::Return {
            last_agent_message: None,
        }),
        after is StoringResult <==> action is SetTerminalResult,
{
}

/// The state of the turn once its host has performed `action` on it.
pub open spec fn after_action<H: HostTypes, S>(
    state: TurnStateView<H>,
    action: RunAction<S>,
) -> TurnStateView<H> {
    match action {
        RunAction::TakePendingValidation => state.without_validation(),
        RunAction::SetValidationActive { active } => state.with_active(active),
        RunAction::SetPendingValidation { validation } => state.with_validation(validation),
        RunAction::SetTerminalResult { message } => state.with_result(Some(message)),
        _ => state,
    }
}

/// The state of the turn shows that the controller has taken over, and the
/// result once that is stored.
pub open spec fn shows_validation<H: HostTypes>(run: RegularRun, state: TurnStateView<H>) -> bool {
    &&& run.is_validating() ==> state.controller_validation_active
    &&& run is StoringResult ==> state.terminal_controller_validation_result is Some
}

/// From when the controller has taken over until the turn ends or the model
/// runs again, the state of the turn says that the controller decides how the
/// turn ends. At the end the result is there to be taken, and before the model
/// runs again the validation that is to follow is.
pub proof fn the_controller_owns_the_end_of_a_validated_turn<H: HostTypes, S>(
    before: RegularRun,
    state: TurnStateView<H>,
    event: RunEvent<S>,
    after: RegularRun,
    action: RunAction<S>,
)
    requires
        before.is_step(event, after, action),
        shows_validation(before, state),
    ensures
        shows_validation(after, after_action(state, action)),
        after.is_validating() ==> after_action(state, action).validation_owns_the_end(),
        before.is_validating() && after is Finished ==> {
            &&& after_action(state, action).validation_owns_the_end()
            &&& after_action(state, action).terminal_controller_validation_result is Some
        },
        after is StoringValidation ==> after_action(state, action).pending_controller_validation
            == Some(action->SetPendingValidation_validation),
        before is StoringValidation || before is InjectingRepair || before is CheckingRepair
            ==> after_action(state, action).pending_controller_validation
            == state.pending_controller_validation,
{
}

/// A run that passed ends the validation with its message, whatever was to be
/// validated and however often it was tried.
pub proof fn a_passed_run_ends_the_validation(
    validation: ControllerValidationState,
    message: String,
    action: ControllerValidationAction,
)
    requires
        is_next_action(
            validation,
            ControllerValidationRunResult::Passed { message },
            action,
        ),
    ensures
        action is Terminal,
        action->message == message,
{
}

/// A failed run is handed back to the model exactly when fewer than two attempts
/// were made, whatever the exit code, the command and the message. The retry
/// counts one attempt more and runs the same commands, the failed one first: `k`
/// is its index, or the number of commands if it is none of them. The model is
/// told the message. Without attempts left the message ends the validation.
pub proof fn a_failed_run_is_retried_while_attempts_remain(
    validation: ControllerValidationState,
    message: String,
    failed_command: String,
    exit_code: i32,
    action: ControllerValidationAction,
    k: int,
)
    requires
        is_next_action(
            validation,
            ControllerValidationRunResult::Failed { message, failed_command, exit_code },
            action,
        ),
        0 <= k <= validation.commands@.len(),
        forall|i: int|
            0 <= i < k ==> (#[trigger] validation.commands@[i])@ != failed_command@,
        k < validation.commands@.len() ==> validation.commands@[k]@ == failed_command@,
    ensures
        action is Retry <==> validation.attempt < 2,
        action is Terminal <==> validation.attempt >= 2,
        action is Terminal ==> action->message == message,
        action is Retry ==> {
            let next = action->Retry_validation;
            let commands = validation.commands@;
            &&& next.attempt == validation.attempt + 1
            &&& next.commands@ == (if k < commands.len() {
                seq![commands[k]] + commands.take(k) + commands.skip(k + 1)
            } else {
                commands
            })
            &&& action->failure_summary == message
            &&& action->repair_prompt@ == message@
                + "\n\nFix this validation failure only. Do not output a final summary. Validation remains controller-managed."@
        },
{
    controller_validation::the_failed_command_passes_those_before_it(
        validation.commands@,
        failed_command@,
        k,
    );
    controller_validation::a_repair_prompt_begins_with_the_failure(message@);
    let prompt = controller_validation::repair_prompt(message@);
    assert(prompt =~= prompt.subrange(0, message@.len() as int) + prompt.skip(
        message@.len() as int,
    ));
}

/// Two failed runs that differ in their exit codes alone are followed by the
/// same.
pub proof fn the_exit_code_does_not_matter(
    validation: ControllerValidationState,
    message: String,
    failed_command: String,
    one_code: i32,
    other_code: i32,
    action: ControllerValidationAction,
)
    ensures
        is_next_action(
            validation,
            ControllerValidationRunResult::Failed { message, failed_command, exit_code: one_code },
            action,
        ) <==> is_next_action(
            validation,
            ControllerValidationRunResult::Failed {
                message,
                failed_command,
                exit_code: other_code,
            },
            action,
        ),
{
}

/// The first three steps of a turn: what the user handed in reaches the model
/// unchanged, with the session that was warmed up if there is one. Only a
/// cancelled turn ends before.
pub proof fn the_input_reaches_the_first_pass<S>(
    input: Vec<UserInput>,
    first: RegularRun,
    first_action: RunAction<S>,
    second: RegularRun,
    second_action: RunAction<S>,
    resolution: PrewarmResolution<S>,
    third: RegularRun,
    third_action: RunAction<S>,
)
    requires
        (RegularRun::Announcing { input }).is_step(
            RunEvent::<S>::TurnStartedSent,
            first,
            first_action,
        ),
        first is ResettingReasoning ==> first.is_step(
            RunEvent::<S>::ReasoningSet,
            second,
            second_action,
        ),
        second is Prewarming ==> second.is_step(
            RunEvent::PrewarmResolved(resolution),
            third,
            third_action,
        ),
    ensures
        first is ResettingReasoning,
        second is Prewarming,
        first_action == (RunAction::<S>::SetServerReasoningIncluded { included: false }),
        second_action is ConsumeStartupPrewarm,
        resolution is Cancelled <==> third is Finished,
        resolution is Cancelled ==> third_action == (RunAction::<S>::Return {
            last_agent_message: None,
        }),
        !(resolution is Cancelled) ==> {
            &&& third is RunningTurn
            &&& third_action is RunTurn
            &&& third_action->RunTurn_input == input
            &&& third_action->prewarmed is Some <==> resolution is Ready
        },
        resolution is Ready ==> third_action->prewarmed == Some(resolution->Ready_0),
{
}

/// A validation that is taken after a pass is always run, with all its commands,
/// whatever the last message of the agent was.
pub proof fn a_taken_validation_is_run<S>(
    last_agent_message: Option<String>,
    validation: ControllerValidationState,
    ran: RegularRun,
    ran_action: RunAction<S>,
    taken: RegularRun,
    taken_action: RunAction<S>,
    active: RegularRun,
    active_action: RunAction<S>,
)
    requires
        RegularRun::RunningTurn.is_step(
            RunEvent::<S>::TurnRan { last_agent_message },
            ran,
            ran_action,
        ),
        ran is TakingValidation ==> ran.is_step(
            RunEvent::<S>::ValidationTaken(Some(validation)),
            taken,
            taken_action,
        ),
        taken is ActivatingValidation ==> taken.is_step(
            RunEvent::<S>::ValidationActivated,
            active,
            active_action,
        ),
    ensures
        ran is TakingValidation,
        ran_action is TakePendingValidation,
        taken == (RegularRun::ActivatingValidation { validation }),
        taken_action == (RunAction::<S>::SetValidationActive { active: true }),
        active == (RegularRun::RunningValidation { validation }),
        active_action is RunValidationCommands,
        active_action->RunValidationCommands_validation.commands@ == validation.commands@,
        active_action->RunValidationCommands_validation.attempt == validation.attempt,
{
}

/// Whenever a validation is taken, the controller takes over with it.
pub proof fn taking_a_validation_activates_it<S>(
    before: RegularRun,
    validation: ControllerValidationState,
    after: RegularRun,
    action: RunAction<S>,
)
    requires
        before is TakingValidation,
        before.is_step(RunEvent::<S>::ValidationTaken(Some(validation)), after, action),
    ensures
        after == (RegularRun::ActivatingValidation { validation }),
        action == (RunAction::<S>::SetValidationActive { active: true }),
{
}

/// Without a validation, queued input gets another pass, and without queued
/// input the turn ends with the last message of the agent.
pub proof fn without_a_validation_the_last_message_ends_the_turn<S>(
    last_agent_message: Option<String>,
    ran: RegularRun,
    ran_action: RunAction<S>,
    taken: RegularRun,
    taken_action: RunAction<S>,
    pending: bool,
    after: RegularRun,
    action: RunAction<S>,
)
    requires
        RegularRun::RunningTurn.is_step(
            RunEvent::<S>::TurnRan { last_agent_message },
            ran,
            ran_action,
        ),
        ran is TakingValidation ==> ran.is_step(
            RunEvent::<S>::ValidationTaken(None),
            taken,
            taken_action,
        ),
        taken is CheckingInput ==> taken.is_step(
            RunEvent::<S>::PendingInput(pending),
            after,
            action,
        ),
    ensures
        ran is TakingValidation,
        taken is CheckingInput,
        ran_action is TakePendingValidation,
        taken_action is QueryPendingInput,
        pending ==> {
            &&& after is RunningTurn
            &&& action is RunTurn
            &&& action->RunTurn_input@.len() == 0
            &&& action->prewarmed is None
        },
        !pending ==> {
            &&& after is Finished
            &&& action == (RunAction::<S>::Return { last_agent_message })
        },
{
}

/// A run of the validation that passed, or that failed after two attempts, ends
/// the turn: its message is stored, and then the turn ends without a message of
/// the agent.
pub proof fn a_decided_validation_ends_the_turn<S>(
    validation: ControllerValidationState,
    result: ControllerValidationRunResult,
    ran: RegularRun,
    ran_action: RunAction<S>,
    after: RegularRun,
    action: RunAction<S>,
)
    requires
        result is Passed || validation.attempt >= 2,
        (RegularRun::RunningValidation { validation }).is_step(
            RunEvent::<S>::ValidationRan(result),
            ran,
            ran_action,
        ),
        ran is StoringResult ==> ran.is_step(RunEvent::<S>::ResultStored, after, action),
    ensures
        ran is StoringResult,
        ran_action is SetTerminalResult,
        ran_action->SetTerminalResult_message == (match result {
            ControllerValidationRunResult::Passed { message } => message,
            ControllerValidationRunResult::Failed { message, .. } => message,
        }),
        after is Finished,
        action == (RunAction::<S>::Return { last_agent_message: None }),
{
}

/// A run of the validation that failed before two attempts were made is handed
/// back: the validation is stored with one attempt more, and the model is sent
/// one message of the developer, which is the failure and the instruction to
/// repair it.
pub proof fn a_failed_validation_is_handed_back<S>(
    validation: ControllerValidationState,
    message: String,
    failed_command: String,
    exit_code: i32,
    ran: RegularRun,
    ran_action: RunAction<S>,
    stored: RegularRun,
    stored_action: RunAction<S>,
    k: int,
)
    requires
        validation.attempt < 2,
        (RegularRun::RunningValidation { validation }).is_step(
            RunEvent::<S>::ValidationRan(
                ControllerValidationRunResult::Failed { message, failed_command, exit_code },
            ),
            ran,
            ran_action,
        ),
        ran is StoringValidation ==> ran.is_step(
            RunEvent::<S>::ValidationStored,
            stored,
            stored_action,
        ),
        0 <= k <= validation.commands@.len(),
        forall|i: int|
            0 <= i < k ==> (#[trigger] validation.commands@[i])@ != failed_command@,
        k < validation.commands@.len() ==> validation.commands@[k]@ == failed_command@,
    ensures
        ran is StoringValidation,
        ran_action is SetPendingValidation,
        ({
            let next = ran_action->SetPendingValidation_validation;
            let commands = validation.commands@;
            &&& next.attempt == validation.attempt + 1
            &&& next.commands@ == (if k < commands.len() {
                seq![commands[k]] + commands.take(k) + commands.skip(k + 1)
            } else {
                commands
            })
        }),
        stored == (RegularRun::InjectingRepair { failure_summary: message }),
        stored_action is InjectItems,
        stored_action->items@.len() == 1,
        stored_action->items@[0].role@ == "developer"@,
        stored_action->items@[0].text@ == message@
            + "\n\nFix this validation failure only. Do not output a final summary. Validation remains controller-managed."@,
{
    let result = ControllerValidationRunResult::Failed { message, failed_command, exit_code };
    let next = choose|next: ControllerValidationAction|
        #![trigger is_next_action(validation, result, next)]
        is_next_action(validation, result, next) && match next {
            ControllerValidationAction::Retry {
                validation: again,
                failure_summary,
                repair_prompt,
            } => {
                &&& ran == (RegularRun::StoringValidation { failure_summary, repair_prompt })
                &&& ran_action == (RunAction::<S>::SetPendingValidation { validation: again })
            },
            ControllerValidationAction::Terminal { message } => {
                &&& ran is StoringResult
                &&& ran_action == (RunAction::<S>::SetTerminalResult { message })
            },
        };
    a_failed_run_is_retried_while_attempts_remain(
        validation,
        message,
        failed_command,
        exit_code,
        next,
        k,
    );
}

/// What becomes of the message to the model: if it was accepted and is queued,
/// the model runs on it; if it was rejected, or is not queued, the turn stores
/// the failure and why the model did not get it.
pub proof fn a_repair_runs_or_its_failure_is_stored<S>(
    failure_summary: String,
    accepted: RegularRun,
    accepted_action: RunAction<S>,
    rejected: RegularRun,
    rejected_action: RunAction<S>,
    pending: bool,
    after: RegularRun,
    action: RunAction<S>,
)
    requires
        (RegularRun::InjectingRepair { failure_summary }).is_step(
            RunEvent::<S>::ItemsInjected,
            accepted,
            accepted_action,
        ),
        (RegularRun::InjectingRepair { failure_summary }).is_step(
            RunEvent::<S>::ItemsRejected,
            rejected,
            rejected_action,
        ),
        accepted is CheckingRepair ==> accepted.is_step(
            RunEvent::<S>::PendingInput(pending),
            after,
            action,
        ),
    ensures
        accepted is CheckingRepair,
        accepted_action is QueryPendingInput,
        pending ==> {
            &&& after is RunningTurn
            &&& action is RunTurn
            &&& action->RunTurn_input@.len() == 0
            &&& action->prewarmed is None
        },
        !pending ==> {
            &&& after is StoringResult
            &&& action is SetTerminalResult
            &&& action->SetTerminalResult_message@ == failure_summary@
                + "\n\nRepair prompt handoff failed: retry input was not pending for model consumption."@
        },
        rejected is StoringResult,
        rejected_action is SetTerminalResult,
        rejected_action->SetTerminalResult_message@ == failure_summary@
            + "\n\nRepair prompt handoff failed: queued retry input was rejected for active turn."@,
{
}

/// Behind every step the turn waits for what answers its action, whatever the
/// answer is, and for nothing else. So does a turn that begins, on any input.
pub proof fn the_turn_waits_for_the_answer_to_its_action<S>(
    before: RegularRun,
    event: RunEvent<S>,
    after: RegularRun,
    action: RunAction<S>,
    answer: RunEvent<S>,
    input: Vec<UserInput>,
)
    requires
        before.is_step(event, after, action),
    ensures
        before.expects(event),
        after.expects(answer) == (match action {
            RunAction::SendTurnStarted => answer is TurnStartedSent,
            RunAction::SetServerReasoningIncluded { .. } => answer is ReasoningSet,
            RunAction::ConsumeStartupPrewarm => answer is PrewarmResolved,
            RunAction::RunTurn { .. } => answer is TurnRan,
            RunAction::TakePendingValidation => answer is ValidationTaken,
            RunAction::SetValidationActive { .. } => answer is ValidationActivated,
            RunAction::RunValidationCommands { .. } => answer is ValidationRan,
            RunAction::SetPendingValidation { .. } => answer is ValidationStored,
            RunAction::InjectItems { .. } => answer is ItemsInjected || answer is ItemsRejected,
            RunAction::QueryPendingInput => answer is PendingInput,
            RunAction::SetTerminalResult { .. } => answer is ResultStored,
            RunAction::Return { .. } => false,
        }),
        (RegularRun::Announcing { input }).expects(answer) <==> answer is TurnStartedSent,
{
}

} // verus!

//! The decisions around one shell command: its environment, its permissions,
//! its approval and its result. The host does what a flow asks for and hands
//! back what became of it.
use vstd::prelude::*;
use vstd::string::*;

use crate::host;
use crate::host::HostTypes;
use crate::keyed;
use crate::keyed::KeyedMap;
use crate::tool_payload;
use crate::tool_payload::json_text;

verus! {

/// The most milliseconds that a validation command may take. Build and test
/// commands can legitimately take longer than other shell commands.
pub const CONTROLLER_VALIDATION_TIMEOUT_MS: u64 = 300_000;

/// When the user is asked for an approval.
pub struct ApprovalPolicy {
    /// The user is asked when the model requests it.
    pub on_request: bool,
    /// The policy as it reads in messages.
    pub debug: String,
}

/// What a flow reads of its session and turn.
pub struct SessionFacts {
    /// The turn has an environment to run commands in.
    pub has_environment: bool,
    /// Commands may ask for permissions of their own.
    pub exec_permission_approvals_enabled: bool,
    /// The model has a tool to ask for permissions.
    pub request_permissions_tool_enabled: bool,
    pub approval_policy: ApprovalPolicy,
}

/// How a command is to run.
pub struct ExecParams<H: HostTypes> {
    pub command: Vec<String>,
    pub cwd: H::Cwd,
    pub timeout_ms: Option<u64>,
    pub env: KeyedMap<String, String>,
    pub network: H::Network,
    pub sandbox_permissions: H::SandboxPermissions,
    pub justification: Option<String>,
}

/// The ways in which shell commands are run.
#[derive(Clone, Copy, Debug, PartialEq, Eq, Structural)]
pub enum ShellRuntimeBackend {
    Generic,
    ShellCommandClassic,
    ShellCommandZshFork,
}

/// The runtime that the host makes for a command.
#[derive(Clone, Copy, Debug, PartialEq, Eq, Structural)]
pub enum ShellRuntimeChoice {
    /// That for any command.
    New,
    /// That for the shell command tool, with its backend.
    ForShellCommand(ShellRuntimeBackend),
}

/// Chooses the runtime for a backend.
pub fn runtime_for(backend: ShellRuntimeBackend) -> (choice: ShellRuntimeChoice)
    ensures
        choice == runtime_of(backend),
{
    match backend {
        ShellRuntimeBackend::Generic => ShellRuntimeChoice::New,
        other => ShellRuntimeChoice::ForShellCommand(other),
    }
}

/// The runtime for a backend.
pub open spec fn runtime_of(backend: ShellRuntimeBackend) -> ShellRuntimeChoice {
    if backend == ShellRuntimeBackend::Generic {
        ShellRuntimeChoice::New
    } else {
        ShellRuntimeChoice::ForShellCommand(backend)
    }
}

/// Why a command runs.
pub enum ExecPurpose {
    /// The model called a tool.
    ToolCall { call_id: String },
    /// The controller validates.
    ControllerValidation,
}

/// A command that is to run.
pub struct ExecJob<H: HostTypes> {
    pub purpose: ExecPurpose,
    pub tool_name: String,
    pub hook_command: String,
    pub requested_permissions: Option<H::Permissions>,
    pub prefix_rule: Option<Vec<String>>,
    pub freeform: bool,
    pub backend: ShellRuntimeBackend,
    pub params: ExecParams<H>,
    pub session: SessionFacts,
}

/// The permissions of a command once those that the turn was granted are
/// counted in.
pub struct EffectivePermissions<H: HostTypes> {
    pub sandbox_permissions: H::SandboxPermissions,
    /// `sandbox_permissions` asks for more than the sandbox allows.
    pub requests_sandbox_override: bool,
    pub additional_permissions: Option<H::Permissions>,
    /// The user has approved them before.
    pub permissions_preapproved: bool,
}

/// What is settled before a command runs.
pub struct Prepared<H: HostTypes> {
    pub explicit_env_overrides: KeyedMap<String, String>,
    pub effective: EffectivePermissions<H>,
    pub additional_permissions: Option<H::Permissions>,
}

/// The sandbox that an approval is asked for.
pub enum ApprovalSandbox<H: HostTypes> {
    /// The sandbox as it is.
    UseDefault,
    /// The sandbox with what the command asks of it.
    Requested(H::SandboxPermissions),
}

/// A command as it is handed to the runtime.
pub struct ShellRequest<H: HostTypes> {
    pub command: Vec<String>,
    pub hook_command: String,
    pub cwd: H::Cwd,
    pub timeout_ms: Option<u64>,
    pub env: KeyedMap<String, String>,
    pub explicit_env_overrides: KeyedMap<String, String>,
    pub network: H::Network,
    pub sandbox_permissions: H::SandboxPermissions,
    pub additional_permissions: Option<H::Permissions>,
    pub additional_permissions_preapproved: bool,
    pub justification: Option<String>,
    pub exec_approval_requirement: H::ApprovalRequirement,
}

/// Why a command did not give a result.
pub enum CallFailure<H: HostTypes> {
    /// The model is told so.
    RespondToModel(String),
    /// The host says why.
    Host(H::CallError),
}

/// What a tool call gives back.
pub struct FunctionToolOutput {
    /// The texts for the model.
    pub body: Vec<String>,
    pub success: Option<bool>,
    pub post_tool_use_response: Option<serde_json::Value>,
}

/// How a flow ended.
pub enum ExecOutcome<H: HostTypes> {
    /// Without a result.
    Failed(CallFailure<H>),
    /// The command was a patch, which the host applied.
    Patched(H::ToolOutput),
    /// A tool call ended.
    Output(FunctionToolOutput),
    /// A validation command ended.
    Captured(H::ExecOutput),
}

/// What is known of the result before the end of the command is announced.
pub enum Ending<H: HostTypes> {
    /// A tool call ran. The response is there if it succeeded.
    Tool { response: Option<String> },
    /// A validation command ran.
    Captured { output: H::ExecOutput },
    /// A validation command could not run.
    Lost,
}

/// What a flow waits for.
pub enum ExecFlow<H: HostTypes> {
    /// The variables that dependencies need. `set_env` holds those that the
    /// policy for the environment of commands sets.
    LoadingEnv { job: ExecJob<H>, set_env: KeyedMap<String, String> },
    /// The permissions that the turn was granted.
    GrantingPermissions { job: ExecJob<H>, overrides: KeyedMap<String, String> },
    /// The permissions that the command has without asking.
    FindingImplicit {
        job: ExecJob<H>,
        overrides: KeyedMap<String, String>,
        effective: EffectivePermissions<H>,
    },
    /// The permissions that it asks for, in their normal form.
    Normalizing {
        job: ExecJob<H>,
        overrides: KeyedMap<String, String>,
        effective: EffectivePermissions<H>,
    },
    /// Whether the command is a patch.
    InterceptingPatch { job: ExecJob<H>, prepared: Prepared<H> },
    /// The announcement of the command.
    Beginning { job: ExecJob<H>, prepared: Prepared<H>, call_id: String },
    /// What has to be approved.
    RequiringApproval { job: ExecJob<H>, prepared: Prepared<H>, call_id: String },
    /// The end of the command.
    Running {
        request: ShellRequest<H>,
        runtime: ShellRuntimeChoice,
        tool_name: String,
        call_id: String,
        for_controller: bool,
    },
    /// The announcement of its end.
    Finishing { ending: Ending<H>, call_id: String },
    /// Nothing: the flow is over.
    Done { outcome: ExecOutcome<H> },
}

/// What became of what a flow asked for.
pub enum ExecEvent<H: HostTypes> {
    EnvLoaded(KeyedMap<String, String>),
    PermissionsGranted(EffectivePermissions<H>),
    ImplicitFound(Option<H::Permissions>),
    Normalized(Result<Option<H::Permissions>, String>),
    PatchIntercepted(Result<Option<H::ToolOutput>, H::CallError>),
    Begun,
    ApprovalRequired(H::ApprovalRequirement),
    /// A tool call ran. The response is what it printed, if it succeeded.
    ToolRan { response: Option<String> },
    /// A validation command ran. The output is there if it could run.
    ControllerRan { output: Option<H::ExecOutput> },
    Finished(Result<String, H::CallError>),
}

/// What the host of a flow does next.
pub enum ExecAction<'a, H: HostTypes> {
    /// Reads the variables that dependencies need.
    LoadDependencyEnv,
    /// Counts in the permissions that the turn was granted.
    ApplyGrantedPermissions {
        sandbox_permissions: H::SandboxPermissions,
        additional_permissions: Option<&'a H::Permissions>,
    },
    /// Finds the permissions that the command has without asking.
    FindImplicitPermissions {
        sandbox_permissions: H::SandboxPermissions,
        requested: Option<&'a H::Permissions>,
        effective: &'a EffectivePermissions<H>,
    },
    /// Brings the permissions into their normal form, or rejects them.
    NormalizePermissions {
        allowed: bool,
        effective: &'a EffectivePermissions<H>,
        cwd: &'a H::Cwd,
    },
    /// Applies the command if it is a patch.
    InterceptPatch {
        command: &'a Vec<String>,
        cwd: &'a H::Cwd,
        call_id: &'a String,
        tool_name: &'a String,
    },
    /// Announces the command.
    EmitBegin { command: &'a Vec<String>, cwd: &'a H::Cwd, freeform: bool, call_id: &'a String },
    /// Finds out what has to be approved.
    RequireApproval {
        command: &'a Vec<String>,
        sandbox: ApprovalSandbox<H>,
        prefix_rule: Option<&'a Vec<String>>,
    },
    /// Runs the command.
    Run {
        request: &'a ShellRequest<H>,
        runtime: ShellRuntimeChoice,
        tool_name: &'a String,
        call_id: &'a String,
    },
    /// Announces the end of the command with what the run gave.
    EmitFinish { call_id: &'a String },
    /// Ends the flow.
    Return { outcome: &'a ExecOutcome<H> },
}

/// `c` is a hexadecimal digit in lower case.
pub open spec fn is_hex_digit(c: char) -> bool {
    '0' <= c <= '9' || 'a' <= c <= 'f'
}

/// `id` has the form of a random UUID in lower case: 32 hexadecimal digits in
/// five groups, of which two digits say how the rest was made: at random, in
/// the layout that RFC 4122 gives.
pub open spec fn is_random_id(id: Seq<char>) -> bool {
    &&& id.len() == 36
    &&& forall|i: int|
        0 <= i < 36 ==> if i == 8 || i == 13 || i == 18 || i == 23 {
            #[trigger] id[i] == '-'
        } else {
            is_hex_digit(id[i])
        }
    &&& id[14] == '4'
    &&& id[19] == '8' || id[19] == '9' || id[19] == 'a' || id[19] == 'b'
}

/// `uuid::Uuid::new_v4`, printed: a random id of 36 characters. It panics if
/// the machine has no random numbers. That two ids differ is not claimed.
#[verifier::external_body]
fn new_call_id() -> (id: String)
    ensures
        is_random_id(id@),
{
    uuid::Uuid::new_v4().to_string()
}

/// What the user is not asked for is not allowed: the command asks for more
/// than the sandbox allows, which was not approved before, and the policy does
/// not let it ask.
pub open spec fn is_rejected<H: HostTypes>(
    policy: ApprovalPolicy,
    effective: EffectivePermissions<H>,
) -> bool {
    effective.requests_sandbox_override && !effective.permissions_preapproved && !policy.on_request
}

/// What the model is told about a command that is rejected.
pub open spec fn rejection(policy: Seq<char>) -> Seq<char> {
    "approval policy is "@ + policy
        + "; reject command — you should not ask for escalated permissions if the approval policy is "@
        + policy
}

/// A command may have permissions on top of those of the sandbox.
pub open spec fn are_permissions_allowed<H: HostTypes>(
    session: SessionFacts,
    effective: EffectivePermissions<H>,
) -> bool {
    session.exec_permission_approvals_enabled || (session.request_permissions_tool_enabled
        && effective.permissions_preapproved)
}

/// The sandbox that an approval is asked for: what was approved before is not
/// asked for again.
pub open spec fn approval_sandbox<H: HostTypes>(
    effective: EffectivePermissions<H>,
) -> ApprovalSandbox<H> {
    if effective.permissions_preapproved {
        ApprovalSandbox::UseDefault
    } else {
        ApprovalSandbox::Requested(effective.sandbox_permissions)
    }
}

/// `after` is `before`, with an environment that holds `added` too.
pub open spec fn is_job_with_env<H: HostTypes>(
    before: ExecJob<H>,
    added: Map<Seq<char>, String>,
    after: ExecJob<H>,
) -> bool {
    &&& after.params.env@ == before.params.env@.union_prefer_right(added)
    &&& after == (ExecJob {
        params: ExecParams { env: after.params.env, ..before.params },
        ..before
    })
}

/// What a `Prepared` job asks for, with what has to be approved.
pub open spec fn is_request<H: HostTypes>(
    job: ExecJob<H>,
    prepared: Prepared<H>,
    requirement: H::ApprovalRequirement,
    request: ShellRequest<H>,
) -> bool {
    request == (ShellRequest::<H> {
        command: job.params.command,
        hook_command: job.hook_command,
        cwd: job.params.cwd,
        timeout_ms: job.params.timeout_ms,
        env: job.params.env,
        explicit_env_overrides: prepared.explicit_env_overrides,
        network: job.params.network,
        sandbox_permissions: prepared.effective.sandbox_permissions,
        additional_permissions: prepared.additional_permissions,
        additional_permissions_preapproved: prepared.effective.permissions_preapproved,
        justification: job.params.justification,
        exec_approval_requirement: requirement,
    })
}

/// `output` gives the model `content`, and the hooks `response`.
pub open spec fn is_tool_output(
    content: String,
    response: Option<String>,
    output: FunctionToolOutput,
) -> bool {
    &&& output.body@ == seq![content]
    &&& output.success == Some(true)
    &&& match response {
        Some(text) => output.post_tool_use_response matches Some(value)
            && tool_payload::json_contents(value) == tool_payload::JsonContents::Text(text@),
        None => output.post_tool_use_response is None,
    }
}

impl<H: HostTypes> ExecFlow<H> {
    /// The flow ended and tells the model `message`.
    pub open spec fn tells_model(self, message: Seq<char>) -> bool {
        &&& self matches ExecFlow::Done { outcome: ExecOutcome::Failed(failure) }
        &&& failure matches CallFailure::RespondToModel(told)
        &&& told@ == message
    }

    /// The flow ended with an error of the host.
    pub open spec fn fails_with(self, error: H::CallError) -> bool {
        self == (ExecFlow::<H>::Done { outcome: ExecOutcome::Failed(CallFailure::Host(error)) })
    }

    /// The permissions of the job are settled. The flow rejects it, or goes on:
    /// with the patch that the command of a tool call may be, or with the
    /// announcement of a validation command.
    pub open spec fn is_settled(self, job: ExecJob<H>, prepared: Prepared<H>) -> bool {
        if is_rejected(job.session.approval_policy, prepared.effective) {
            self.tells_model(rejection(job.session.approval_policy.debug@))
        } else {
            match job.purpose {
                ExecPurpose::ToolCall { .. } => self == (ExecFlow::InterceptingPatch {
                    job,
                    prepared,
                }),
                ExecPurpose::ControllerValidation => {
                    &&& self is Beginning
                    &&& self == (ExecFlow::Beginning { job, prepared, call_id: self->Beginning_call_id })
                    &&& is_random_id(self->Beginning_call_id@)
                },
            }
        }
    }

    /// Only a tool call can be a patch, and no command gets as far as that, or
    /// further, that is to be rejected.
    pub open spec fn wf(self) -> bool {
        match self {
            ExecFlow::InterceptingPatch { job, prepared } => {
                &&& job.purpose is ToolCall
                &&& !is_rejected(job.session.approval_policy, prepared.effective)
            },
            ExecFlow::Beginning { job, prepared, .. } => !is_rejected(
                job.session.approval_policy,
                prepared.effective,
            ),
            ExecFlow::RequiringApproval { job, prepared, .. } => !is_rejected(
                job.session.approval_policy,
                prepared.effective,
            ),
            _ => true,
        }
    }

    /// `event` answers what the flow waits for.
    pub open spec fn expects(self, event: ExecEvent<H>) -> bool {
        match self {
            ExecFlow::LoadingEnv { .. } => event is EnvLoaded,
            ExecFlow::GrantingPermissions { .. } => event is PermissionsGranted,
            ExecFlow::FindingImplicit { .. } => event is ImplicitFound,
            ExecFlow::Normalizing { .. } => event is Normalized,
            ExecFlow::InterceptingPatch { .. } => event is PatchIntercepted,
            ExecFlow::Beginning { .. } => event is Begun,
            ExecFlow::RequiringApproval { .. } => event is ApprovalRequired,
            ExecFlow::Running { for_controller, .. } => if for_controller {
                event is ControllerRan
            } else {
                event is ToolRan
            },
            ExecFlow::Finishing { ending, .. } => match event {
                ExecEvent::Finished(finished) => ending is Lost ==> finished is Err,
                _ => false,
            },
            ExecFlow::Done { .. } => false,
        }
    }

    /// The flow goes on with `after` on `event`.
    pub open spec fn is_step(self, event: ExecEvent<H>, after: ExecFlow<H>) -> bool {
        match (self, event) {
            (ExecFlow::LoadingEnv { job, set_env }, ExecEvent::EnvLoaded(added)) => {
                &&& after is GrantingPermissions
                &&& is_job_with_env(job, added@, after->GrantingPermissions_job)
                &&& after->GrantingPermissions_overrides@ == set_env@.union_prefer_right(added@)
            },
            (
                ExecFlow::GrantingPermissions { job, overrides },
                ExecEvent::PermissionsGranted(effective),
            ) => after == (ExecFlow::FindingImplicit { job, overrides, effective }),
            (
                ExecFlow::FindingImplicit { job, overrides, effective },
                ExecEvent::ImplicitFound(found),
            ) => match found {
                Some(permissions) => after.is_settled(
                    job,
                    Prepared {
                        explicit_env_overrides: overrides,
                        effective,
                        additional_permissions: Some(permissions),
                    },
                ),
                None => after == (ExecFlow::Normalizing { job, overrides, effective }),
            },
            (
                ExecFlow::Normalizing { job, overrides, effective },
                ExecEvent::Normalized(normalized),
            ) => match normalized {
                Ok(permissions) => after.is_settled(
                    job,
                    Prepared {
                        explicit_env_overrides: overrides,
                        effective,
                        additional_permissions: permissions,
                    },
                ),
                Err(message) => after.tells_model(message@),
            },
            (
                ExecFlow::InterceptingPatch { job, prepared },
                ExecEvent::PatchIntercepted(intercepted),
            ) => match intercepted {
                Err(error) => after.fails_with(error),
                Ok(Some(output)) => after == (ExecFlow::<H>::Done {
                    outcome: ExecOutcome::Patched(output),
                }),
                Ok(None) => {
                    &&& job.purpose is ToolCall
                    &&& after == (ExecFlow::Beginning {
                        job,
                        prepared,
                        call_id: job.purpose->call_id,
                    })
                },
            },
            (ExecFlow::Beginning { job, prepared, call_id }, ExecEvent::Begun) => after == (
            ExecFlow::RequiringApproval { job, prepared, call_id }),
            (
                ExecFlow::RequiringApproval { job, prepared, call_id },
                ExecEvent::ApprovalRequired(requirement),
            ) => {
                &&& after is Running
                &&& is_request(job, prepared, requirement, after->request)
                &&& after->runtime == runtime_of(job.backend)
                &&& after->tool_name == job.tool_name
                &&& after->Running_call_id == call_id
                &&& after->for_controller == (job.purpose is ControllerValidation)
            },
            (ExecFlow::Running { call_id, .. }, ExecEvent::ToolRan { response }) => after == (
            ExecFlow::<H>::Finishing { ending: Ending::Tool { response }, call_id }),
            (ExecFlow::Running { call_id, .. }, ExecEvent::ControllerRan { output }) => after == (
            ExecFlow::<H>::Finishing {
                ending: match output {
                    Some(captured) => Ending::Captured { output: captured },
                    None => Ending::Lost,
                },
                call_id,
            }),
            (ExecFlow::Finishing { ending, .. }, ExecEvent::Finished(finished)) => match ending {
                Ending::Tool { response } => match finished {
                    Ok(content) => {
                        &&& after matches ExecFlow::Done { outcome: ExecOutcome::Output(output) }
                        &&& is_tool_output(content, response, output)
                    },
                    Err(error) => after.fails_with(error),
                },
                Ending::Captured { output } => after == (ExecFlow::<H>::Done {
                    outcome: ExecOutcome::Captured(output),
                }),
                Ending::Lost => after.fails_with(finished->Err_0),
            },
            _ => false,
        }
    }
}

/// What a tool call hands to the shell.
pub struct RunExecLikeArgs<H: HostTypes> {
    pub tool_name: String,
    pub exec_params: ExecParams<H>,
    pub hook_command: String,
    pub additional_permissions: Option<H::Permissions>,
    pub prefix_rule: Option<Vec<String>>,
    pub call_id: String,
    pub freeform: bool,
    pub shell_runtime_backend: ShellRuntimeBackend,
}

/// `flow` is the begin of a tool call.
pub open spec fn begins_tool_call<H: HostTypes>(
    args: RunExecLikeArgs<H>,
    session: SessionFacts,
    set_env: KeyedMap<String, String>,
    flow: ExecFlow<H>,
) -> bool {
    if session.has_environment {
        flow == (ExecFlow::LoadingEnv {
            job: ExecJob {
                purpose: ExecPurpose::ToolCall { call_id: args.call_id },
                tool_name: args.tool_name,
                hook_command: args.hook_command,
                requested_permissions: args.additional_permissions,
                prefix_rule: args.prefix_rule,
                freeform: args.freeform,
                backend: args.shell_runtime_backend,
                params: args.exec_params,
                session,
            },
            set_env,
        })
    } else {
        flow.tells_model("shell is unavailable in this session"@)
    }
}

/// `flow` is the begin of a validation command.
pub open spec fn begins_validation_command<H: HostTypes>(
    command: Seq<char>,
    shell_argv: Vec<String>,
    cwd: H::Cwd,
    env: KeyedMap<String, String>,
    network: H::Network,
    use_default: H::SandboxPermissions,
    session: SessionFacts,
    set_env: KeyedMap<String, String>,
    flow: ExecFlow<H>,
) -> bool {
    if session.has_environment {
        &&& flow matches ExecFlow::LoadingEnv { job, set_env: kept }
        &&& kept == set_env
        &&& job.tool_name@ == "controller_validation"@
        &&& job.hook_command@ == command
        &&& job.purpose is ControllerValidation
        &&& job.requested_permissions is None
        &&& job.prefix_rule is None
        &&& !job.freeform
        &&& job.backend == ShellRuntimeBackend::Generic
        &&& job.session == session
        &&& job.params == (ExecParams::<H> {
            command: shell_argv,
            cwd,
            timeout_ms: Some(CONTROLLER_VALIDATION_TIMEOUT_MS),
            env,
            network,
            sandbox_permissions: use_default,
            justification: None,
        })
    } else {
        flow.tells_model("controller validation: shell is unavailable in this session"@)
    }
}

/// Tells the model that a command is rejected.
fn reject<H: HostTypes>(policy: &ApprovalPolicy) -> (flow: ExecFlow<H>)
    ensures
        flow.tells_model(rejection(policy.debug@)),
{
    let mut message = "approval policy is ".to_owned();
    message.append(policy.debug.as_str());
    message.append(
        "; reject command — you should not ask for escalated permissions if the approval policy is ",
    );
    message.append(policy.debug.as_str());
    ExecFlow::Done { outcome: ExecOutcome::Failed(CallFailure::RespondToModel(message)) }
}

/// Tells the model `message`.
fn tell_model<H: HostTypes>(message: String) -> (flow: ExecFlow<H>)
    ensures
        flow.tells_model(message@),
{
    ExecFlow::Done { outcome: ExecOutcome::Failed(CallFailure::RespondToModel(message)) }
}

/// Ends the flow with an error of the host.
fn fail<H: HostTypes>(error: H::CallError) -> (flow: ExecFlow<H>)
    ensures
        flow.fails_with(error),
{
    ExecFlow::Done { outcome: ExecOutcome::Failed(CallFailure::Host(error)) }
}

impl<H: HostTypes> ExecFlow<H> {
    /// Begins the flow of a tool call. `set_env` holds the variables that the
    /// policy for the environment of commands sets.
    pub fn run_exec_like(
        args: RunExecLikeArgs<H>,
        session: SessionFacts,
        set_env: KeyedMap<String, String>,
    ) -> (flow: ExecFlow<H>)
        ensures
            flow.wf(),
            if session.has_environment {
                flow == (ExecFlow::LoadingEnv {
                    job: ExecJob {
                        purpose: ExecPurpose::ToolCall { call_id: args.call_id },
                        tool_name: args.tool_name,
                        hook_command: args.hook_command,
                        requested_permissions: args.additional_permissions,
                        prefix_rule: args.prefix_rule,
                        freeform: args.freeform,
                        backend: args.shell_runtime_backend,
                        params: args.exec_params,
                        session,
                    },
                    set_env,
                })
            } else {
                flow.tells_model("shell is unavailable in this session"@)
            },
            begins_tool_call(args, session, set_env, flow),
    {
        if !session.has_environment {
            return tell_model("shell is unavailable in this session".to_owned());
        }
        ExecFlow::LoadingEnv {
            job: ExecJob {
                purpose: ExecPurpose::ToolCall { call_id: args.call_id },
                tool_name: args.tool_name,
                hook_command: args.hook_command,
                requested_permissions: args.additional_permissions,
                prefix_rule: args.prefix_rule,
                freeform: args.freeform,
                backend: args.shell_runtime_backend,
                params: args.exec_params,
                session,
            },
            set_env,
        }
    }

    /// Begins the flow of one validation command. `shell_argv` is the command
    /// wrapped for the shell, and `use_default` leaves the sandbox as it is.
    ///
    /// The flow is that of a tool call, without a look at whether the command
    /// is a patch: validation runs build and test commands.
    pub fn run_controller_validation_shell_command(
        command: &str,
        shell_argv: Vec<String>,
        cwd: H::Cwd,
        env: KeyedMap<String, String>,
        network: H::Network,
        use_default: H::SandboxPermissions,
        session: SessionFacts,
        set_env: KeyedMap<String, String>,
    ) -> (flow: ExecFlow<H>)
        ensures
            flow.wf(),
            if session.has_environment {
                &&& flow is LoadingEnv
                &&& flow->LoadingEnv_set_env == set_env
                &&& flow->LoadingEnv_job.tool_name@ == "controller_validation"@
                &&& flow->LoadingEnv_job.hook_command@ == command@
                &&& flow->LoadingEnv_job == (ExecJob {
                    purpose: ExecPurpose::ControllerValidation,
                    tool_name: flow->LoadingEnv_job.tool_name,
                    hook_command: flow->LoadingEnv_job.hook_command,
                    requested_permissions: None,
                    prefix_rule: None,
                    freeform: false,
                    backend: ShellRuntimeBackend::Generic,
                    params: ExecParams::<H> {
                        command: shell_argv,
                        cwd,
                        timeout_ms: Some(CONTROLLER_VALIDATION_TIMEOUT_MS),
                        env,
                        network,
                        sandbox_permissions: use_default,
                        justification: None,
                    },
                    session,
                })
            } else {
                flow.tells_model("controller validation: shell is unavailable in this session"@)
            },
            begins_validation_command(
                command@,
                shell_argv,
                cwd,
                env,
                network,
                use_default,
                session,
                set_env,
                flow,
            ),
    {
        if !session.has_environment {
            return tell_model(
                "controller validation: shell is unavailable in this session".to_owned(),
            );
        }
        ExecFlow::LoadingEnv {
            job: ExecJob {
                purpose: ExecPurpose::ControllerValidation,
                tool_name: "controller_validation".to_owned(),
                hook_command: command.to_owned(),
                requested_permissions: None,
                prefix_rule: None,
                freeform: false,
                backend: ShellRuntimeBackend::Generic,
                params: ExecParams {
                    command: shell_argv,
                    cwd,
                    timeout_ms: Some(CONTROLLER_VALIDATION_TIMEOUT_MS),
                    env,
                    network,
                    sandbox_permissions: use_default,
                    justification: None,
                },
                session,
            },
            set_env,
        }
    }

    /// Goes on once the permissions of the job are settled.
    fn settle(job: ExecJob<H>, prepared: Prepared<H>) -> (flow: ExecFlow<H>)
        ensures
            flow.is_settled(job, prepared),
            flow.wf(),
    {
        if prepared.effective.requests_sandbox_override
            && !prepared.effective.permissions_preapproved
            && !job.session.approval_policy.on_request {
            return reject(&job.session.approval_policy);
        }
        match &job.purpose {
            ExecPurpose::ToolCall { .. } => ExecFlow::InterceptingPatch { job, prepared },
            ExecPurpose::ControllerValidation => {
                let call_id = new_call_id();
                ExecFlow::Beginning { job, prepared, call_id }
            },
        }
    }

    /// Goes on when what the flow waits for has come.
    pub fn step(self, event: ExecEvent<H>) -> (after: ExecFlow<H>)
        requires
            self.wf(),
            self.expects(event),
        ensures
            self.is_step(event, after),
            after.wf(),
    {
        match (self, event) {
            (ExecFlow::LoadingEnv { job, set_env }, ExecEvent::EnvLoaded(added)) => {
                let mut job = job;
                let mut overrides = set_env;
                job.params.env.extend(&added);
                overrides.extend(&added);
                ExecFlow::GrantingPermissions { job, overrides }
            },
            (
                ExecFlow::GrantingPermissions { job, overrides },
                ExecEvent::PermissionsGranted(effective),
            ) => ExecFlow::FindingImplicit { job, overrides, effective },
            (
                ExecFlow::FindingImplicit { job, overrides, effective },
                ExecEvent::ImplicitFound(found),
            ) => match found {
                Some(permissions) => Self::settle(
                    job,
                    Prepared {
                        explicit_env_overrides: overrides,
                        effective,
                        additional_permissions: Some(permissions),
                    },
                ),
                None => ExecFlow::Normalizing { job, overrides, effective },
            },
            (
                ExecFlow::Normalizing { job, overrides, effective },
                ExecEvent::Normalized(normalized),
            ) => match normalized {
                Ok(permissions) => Self::settle(
                    job,
                    Prepared {
                        explicit_env_overrides: overrides,
                        effective,
                        additional_permissions: permissions,
                    },
                ),
                Err(message) => tell_model(message),
            },
            (
                ExecFlow::InterceptingPatch { job, prepared },
                ExecEvent::PatchIntercepted(intercepted),
            ) => match intercepted {
                Err(error) => fail(error),
                Ok(Some(output)) => ExecFlow::Done { outcome: ExecOutcome::Patched(output) },
                Ok(None) => {
                    let call_id = match &job.purpose {
                        ExecPurpose::ToolCall { call_id } => call_id.clone(),
                        ExecPurpose::ControllerValidation => new_call_id(),
                    };
                    ExecFlow::Beginning { job, prepared, call_id }
                },
            },
            (ExecFlow::Beginning { job, prepared, call_id }, ExecEvent::Begun) => {
                ExecFlow::RequiringApproval { job, prepared, call_id }
            },
            (
                ExecFlow::RequiringApproval { job, prepared, call_id },
                ExecEvent::ApprovalRequired(requirement),
            ) => {
                let for_controller = match &job.purpose {
                    ExecPurpose::ToolCall { .. } => false,
                    ExecPurpose::ControllerValidation => true,
                };
                ExecFlow::Running {
                    request: ShellRequest {
                        command: job.params.command,
                        hook_command: job.hook_command,
                        cwd: job.params.cwd,
                        timeout_ms: job.params.timeout_ms,
                        env: job.params.env,
                        explicit_env_overrides: prepared.explicit_env_overrides,
                        network: job.params.network,
                        sandbox_permissions: prepared.effective.sandbox_permissions,
                        additional_permissions: prepared.additional_permissions,
                        additional_permissions_preapproved: prepared.effective.permissions_preapproved,
                        justification: job.params.justification,
                        exec_approval_requirement: requirement,
                    },
                    runtime: runtime_for(job.backend),
                    tool_name: job.tool_name,
                    call_id,
                    for_controller,
                }
            },
            (
                ExecFlow::Running { call_id, .. },
                ExecEvent::ToolRan { response },
            ) => ExecFlow::Finishing { ending: Ending::Tool { response }, call_id },
            (
                ExecFlow::Running { call_id, .. },
                ExecEvent::ControllerRan { output },
            ) => {
                let ending = match output {
                    Some(captured) => Ending::Captured { output: captured },
                    None => Ending::Lost,
                };
                ExecFlow::Finishing { ending, call_id }
            },
            (ExecFlow::Finishing { ending, call_id }, ExecEvent::Finished(finished)) => {
                match ending {
                    Ending::Tool { response } => match finished {
                        Ok(content) => ExecFlow::Done {
                            outcome: ExecOutcome::Output(tool_output(content, response)),
                        },
                        Err(error) => fail(error),
                    },
                    Ending::Captured { output } => ExecFlow::Done {
                        outcome: ExecOutcome::Captured(output),
                    },
                    Ending::Lost => match finished {
                        Err(error) => fail(error),
                        Ok(content) => {
                            assert(false);
                            tell_model(content)
                        },
                    },
                }
            },
            (waiting, other) => {
                assert(false);
                waiting
            },
        }
    }
}

/// Gives the model `content`, and the hooks `response`.
fn tool_output(content: String, response: Option<String>) -> (output: FunctionToolOutput)
    ensures
        is_tool_output(content, response, output),
{
    let mut body: Vec<String> = Vec::new();
    body.push(content);
    assert(body@ =~= seq![content]);
    let post_tool_use_response = match response {
        Some(text) => Some(json_text(text)),
        None => None,
    };
    FunctionToolOutput { body, success: Some(true), post_tool_use_response }
}

impl<H: HostTypes> ExecFlow<H> {
    /// What the host does next, and with what.
    pub open spec fn is_action<'a>(self, action: ExecAction<'a, H>) -> bool {
        match self {
            ExecFlow::LoadingEnv { .. } => action is LoadDependencyEnv,
            ExecFlow::GrantingPermissions { job, .. } => {
                &&& action matches ExecAction::ApplyGrantedPermissions {
                    sandbox_permissions,
                    additional_permissions,
                }
                &&& sandbox_permissions == job.params.sandbox_permissions
                &&& additional_permissions == host::as_option_ref(&job.requested_permissions)
            },
            ExecFlow::FindingImplicit { job, effective, .. } => {
                &&& action matches ExecAction::FindImplicitPermissions {
                    sandbox_permissions,
                    requested,
                    effective: found,
                }
                &&& sandbox_permissions == job.params.sandbox_permissions
                &&& requested == host::as_option_ref(&job.requested_permissions)
                &&& *found == effective
            },
            ExecFlow::Normalizing { job, effective, .. } => {
                &&& action matches ExecAction::NormalizePermissions {
                    allowed,
                    effective: found,
                    cwd,
                }
                &&& allowed == are_permissions_allowed(job.session, effective)
                &&& *found == effective
                &&& *cwd == job.params.cwd
            },
            ExecFlow::InterceptingPatch { job, .. } => {
                &&& action matches ExecAction::InterceptPatch { command, cwd, call_id, tool_name }
                &&& *command == job.params.command
                &&& *cwd == job.params.cwd
                &&& *call_id == job.purpose->call_id
                &&& *tool_name == job.tool_name
            },
            ExecFlow::Beginning { job, call_id: id, .. } => {
                &&& action matches ExecAction::EmitBegin { command, cwd, freeform, call_id }
                &&& *command == job.params.command
                &&& *cwd == job.params.cwd
                &&& freeform == job.freeform
                &&& *call_id == id
            },
            ExecFlow::RequiringApproval { job, prepared, .. } => {
                &&& action matches ExecAction::RequireApproval { command, sandbox, prefix_rule }
                &&& *command == job.params.command
                &&& sandbox == approval_sandbox(prepared.effective)
                &&& prefix_rule == host::as_option_ref(&job.prefix_rule)
            },
            ExecFlow::Running { request: asked, runtime: choice, tool_name: name, call_id: id, .. } => {
                &&& action matches ExecAction::Run { request, runtime, tool_name, call_id }
                &&& *request == asked
                &&& runtime == choice
                &&& *tool_name == name
                &&& *call_id == id
            },
            ExecFlow::Finishing { call_id: id, .. } => {
                &&& action matches ExecAction::EmitFinish { call_id }
                &&& *call_id == id
            },
            ExecFlow::Done { outcome: end } => {
                &&& action matches ExecAction::Return { outcome }
                &&& *outcome == end
            },
        }
    }

    /// What the host does next.
    pub fn action(&self) -> (action: ExecAction<'_, H>)
        requires
            self.wf(),
        ensures
            self.is_action(action),
    {
        match self {
            ExecFlow::LoadingEnv { .. } => ExecAction::LoadDependencyEnv,
            ExecFlow::GrantingPermissions { job, .. } => ExecAction::ApplyGrantedPermissions {
                sandbox_permissions: job.params.sandbox_permissions,
                additional_permissions: job.requested_permissions.as_ref(),
            },
            ExecFlow::FindingImplicit { job, effective, .. } => ExecAction::FindImplicitPermissions {
                sandbox_permissions: job.params.sandbox_permissions,
                requested: job.requested_permissions.as_ref(),
                effective,
            },
            ExecFlow::Normalizing { job, effective, .. } => ExecAction::NormalizePermissions {
                allowed: job.session.exec_permission_approvals_enabled || (
                job.session.request_permissions_tool_enabled && effective.permissions_preapproved),
                effective,
                cwd: &job.params.cwd,
            },
            ExecFlow::InterceptingPatch { job, .. } => match &job.purpose {
                ExecPurpose::ToolCall { call_id } => ExecAction::InterceptPatch {
                    command: &job.params.command,
                    cwd: &job.params.cwd,
                    call_id,
                    tool_name: &job.tool_name,
                },
                ExecPurpose::ControllerValidation => {
                    assert(false);
                    ExecAction::LoadDependencyEnv
                },
            },
            ExecFlow::Beginning { job, call_id, .. } => ExecAction::EmitBegin {
                command: &job.params.command,
                cwd: &job.params.cwd,
                freeform: job.freeform,
                call_id,
            },
            ExecFlow::RequiringApproval { job, prepared, .. } => ExecAction::RequireApproval {
                command: &job.params.command,
                sandbox: if prepared.effective.permissions_preapproved {
                    ApprovalSandbox::UseDefault
                } else {
                    ApprovalSandbox::Requested(prepared.effective.sandbox_permissions)
                },
                prefix_rule: job.prefix_rule.as_ref(),
            },
            ExecFlow::Running { request, runtime, tool_name, call_id, .. } => ExecAction::Run {
                request,
                runtime: *runtime,
                tool_name,
                call_id,
            },
            ExecFlow::Finishing { call_id, .. } => ExecAction::EmitFinish { call_id },
            ExecFlow::Done { outcome } => ExecAction::Return { outcome },
        }
    }

    /// The flow runs a validation command.
    pub open spec fn validates(self) -> bool {
        match self {
            ExecFlow::LoadingEnv { job, .. } => job.purpose is ControllerValidation,
            ExecFlow::GrantingPermissions { job, .. } => job.purpose is ControllerValidation,
            ExecFlow::FindingImplicit { job, .. } => job.purpose is ControllerValidation,
            ExecFlow::Normalizing { job, .. } => job.purpose is ControllerValidation,
            ExecFlow::InterceptingPatch { job, .. } => job.purpose is ControllerValidation,
            ExecFlow::Beginning { job, .. } => job.purpose is ControllerValidation,
            ExecFlow::RequiringApproval { job, .. } => job.purpose is ControllerValidation,
            ExecFlow::Running { for_controller, .. } => for_controller,
            ExecFlow::Finishing { ending, .. } => !(ending is Tool),
            ExecFlow::Done { outcome } => outcome is Failed || outcome is Captured,
        }
    }

    /// How far the flow still is from its end.
    pub open spec fn distance(self) -> nat {
        match self {
            ExecFlow::LoadingEnv { .. } => 9,
            ExecFlow::GrantingPermissions { .. } => 8,
            ExecFlow::FindingImplicit { .. } => 7,
            ExecFlow::Normalizing { .. } => 6,
            ExecFlow::InterceptingPatch { .. } => 5,
            ExecFlow::Beginning { .. } => 4,
            ExecFlow::RequiringApproval { .. } => 3,
            ExecFlow::Running { .. } => 2,
            ExecFlow::Finishing { .. } => 1,
            ExecFlow::Done { .. } => 0,
        }
    }
}

/// Every step brings a flow nearer to its end.
pub proof fn every_flow_comes_to_its_end<H: HostTypes>(
    before: ExecFlow<H>,
    event: ExecEvent<H>,
    after: ExecFlow<H>,
)
    requires
        before.is_step(event, after),
    ensures
        after.distance() < before.distance(),
{
}

/// A validation command is never taken for a patch: no step of its flow waits
/// for one, and none ends with one.
pub proof fn validation_never_intercepts_a_patch<H: HostTypes>(
    before: ExecFlow<H>,
    event: ExecEvent<H>,
    after: ExecFlow<H>,
)
    requires
        before.wf(),
        before.validates(),
        before.expects(event),
        before.is_step(event, after),
    ensures
        after.validates(),
        !(after is InterceptingPatch),
        after matches ExecFlow::Done { outcome } ==> outcome is Failed || outcome is Captured,
{
}

/// A command that is to be rejected is never run: it is the step before its
/// announcement that rejects it, whatever the host says.
pub proof fn a_rejected_command_never_runs<H: HostTypes>(
    before: ExecFlow<H>,
    event: ExecEvent<H>,
    after: ExecFlow<H>,
)
    requires
        before.wf(),
        before.expects(event),
        before.is_step(event, after),
    ensures
        after.wf(),
        after is Running ==> before is RequiringApproval && !is_rejected(
            before->RequiringApproval_job.session.approval_policy,
            before->RequiringApproval_prepared.effective,
        ),
        (before is FindingImplicit && event->ImplicitFound_0 is Some && is_rejected(
            before->FindingImplicit_job.session.approval_policy,
            before->FindingImplicit_effective,
        )) ==> after.tells_model(
            rejection(before->FindingImplicit_job.session.approval_policy.debug@),
        ),
        (before is Normalizing && event->Normalized_0 is Ok && is_rejected(
            before->Normalizing_job.session.approval_policy,
            before->Normalizing_effective,
        )) ==> after.tells_model(rejection(before->Normalizing_job.session.approval_policy.debug@)),
{
}

/// A variable that dependencies need has their value, both in the environment
/// of the command and among the explicit overrides. Any other variable is as
/// it was.
pub proof fn dependency_variables_win<H: HostTypes>(
    before: ExecFlow<H>,
    added: KeyedMap<String, String>,
    after: ExecFlow<H>,
    name: Seq<char>,
)
    requires
        before is LoadingEnv,
        before.is_step(ExecEvent::EnvLoaded(added), after),
    ensures
        ({
            let env = after->GrantingPermissions_job.params.env@;
            let overrides = after->GrantingPermissions_overrides@;
            if added@.contains_key(name) {
                &&& env.contains_key(name) && env[name] == added@[name]
                &&& overrides.contains_key(name) && overrides[name] == added@[name]
            } else {
                &&& keyed::map_lookup(env, name) == keyed::map_lookup(
                    before->LoadingEnv_job.params.env@,
                    name,
                )
                &&& keyed::map_lookup(overrides, name) == keyed::map_lookup(
                    before->LoadingEnv_set_env@,
                    name,
                )
            }
        }),
{
}

impl<H: HostTypes> ExecFlow<H> {
    /// The flow as it would be for another purpose.
    pub open spec fn for_purpose(self, purpose: ExecPurpose) -> Self {
        match self {
            ExecFlow::LoadingEnv { job, set_env } => ExecFlow::LoadingEnv {
                job: ExecJob { purpose, ..job },
                set_env,
            },
            ExecFlow::GrantingPermissions { job, overrides } => ExecFlow::GrantingPermissions {
                job: ExecJob { purpose, ..job },
                overrides,
            },
            ExecFlow::FindingImplicit { job, overrides, effective } => ExecFlow::FindingImplicit {
                job: ExecJob { purpose, ..job },
                overrides,
                effective,
            },
            ExecFlow::Normalizing { job, overrides, effective } => ExecFlow::Normalizing {
                job: ExecJob { purpose, ..job },
                overrides,
                effective,
            },
            ExecFlow::Beginning { job, prepared, call_id } => ExecFlow::Beginning {
                job: ExecJob { purpose, ..job },
                prepared,
                call_id,
            },
            ExecFlow::RequiringApproval { job, prepared, call_id } => ExecFlow::RequiringApproval {
                job: ExecJob { purpose, ..job },
                prepared,
                call_id,
            },
            ExecFlow::Running { request, runtime, tool_name, call_id, .. } => ExecFlow::Running {
                request,
                runtime,
                tool_name,
                call_id,
                for_controller: purpose is ControllerValidation,
            },
            other => other,
        }
    }

    /// What is settled for the command, once it is.
    pub open spec fn settled(self) -> Option<Prepared<H>> {
        match self {
            ExecFlow::InterceptingPatch { prepared, .. } => Some(prepared),
            ExecFlow::Beginning { prepared, .. } => Some(prepared),
            _ => None,
        }
    }
}

/// A validation command goes through the same checks of permissions and
/// approval as a tool call: until the permissions are settled, and from the
/// announcement to the run, the purpose makes no difference.
pub proof fn both_purposes_are_checked_alike<H: HostTypes>(
    before: ExecFlow<H>,
    event: ExecEvent<H>,
    after: ExecFlow<H>,
    purpose: ExecPurpose,
)
    requires
        ({
            ||| before is LoadingEnv
            ||| before is GrantingPermissions
            ||| before is FindingImplicit
            ||| before is Normalizing
            ||| before is Beginning
            ||| before is RequiringApproval
        }),
        before.is_step(event, after),
    ensures
        after.settled() is None ==> before.for_purpose(purpose).is_step(
            event,
            after.for_purpose(purpose),
        ),
        after.settled() is Some ==> forall|other: ExecFlow<H>| #[trigger]
            before.for_purpose(purpose).is_step(event, other) ==> other.settled()
                == after.settled(),
{
}

/// A flow from its begin to the run of its command, by the steps in between. The
/// command that runs is the one that was asked for: with its words, directory,
/// timeout, network, justification and hook command, under its tool name, in the
/// runtime for its backend, and for a tool call under its id. Its environment and
/// the explicit overrides hold the variables of the dependencies, and else what
/// they held. Its permissions are those that the host found, and the approval is
/// the one that the host asked for.
pub proof fn a_command_runs_as_it_was_asked_for<H: HostTypes>(
    path: Seq<ExecFlow<H>>,
    events: Seq<ExecEvent<H>>,
    name: Seq<char>,
)
    requires
        path.len() == events.len() + 1,
        forall|i: int| 0 <= i < events.len() ==> path[i].is_step(#[trigger] events[i], path[i + 1]),
        path[0] is LoadingEnv,
        path.last() is Running,
    ensures
        ({
            let job = path[0]->LoadingEnv_job;
            let run = path.last();
            let request = run->request;
            &&& request.command == job.params.command
            &&& request.hook_command == job.hook_command
            &&& request.cwd == job.params.cwd
            &&& request.timeout_ms == job.params.timeout_ms
            &&& request.network == job.params.network
            &&& request.justification == job.params.justification
            &&& run->tool_name == job.tool_name
            &&& job.backend == ShellRuntimeBackend::Generic ==> run->runtime
                == ShellRuntimeChoice::New
            &&& job.backend != ShellRuntimeBackend::Generic ==> run->runtime
                == ShellRuntimeChoice::ForShellCommand(job.backend)
            &&& run->for_controller <==> job.purpose is ControllerValidation
            &&& job.purpose is ToolCall ==> run->Running_call_id == job.purpose->call_id
            &&& job.purpose is ControllerValidation ==> is_random_id(run->Running_call_id@)
        }),
        ({
            let job = path[0]->LoadingEnv_job;
            let request = path.last()->request;
            let added = events[0]->EnvLoaded_0@;
            if added.contains_key(name) {
                &&& keyed::map_lookup(request.env@, name) == Some(added[name])
                &&& keyed::map_lookup(request.explicit_env_overrides@, name) == Some(added[name])
            } else {
                &&& keyed::map_lookup(request.env@, name) == keyed::map_lookup(
                    job.params.env@,
                    name,
                )
                &&& keyed::map_lookup(request.explicit_env_overrides@, name) == keyed::map_lookup(
                    path[0]->LoadingEnv_set_env@,
                    name,
                )
            }
        }),
        ({
            let policy = path[0]->LoadingEnv_job.session.approval_policy;
            let request = path.last()->request;
            let effective = events[1]->PermissionsGranted_0;
            &&& request.sandbox_permissions == effective.sandbox_permissions
            &&& request.additional_permissions_preapproved == effective.permissions_preapproved
            &&& request.additional_permissions == (match events[2]->ImplicitFound_0 {
                Some(permissions) => Some(permissions),
                None => events[3]->Normalized_0->Ok_0,
            })
            &&& request.exec_approval_requirement == events.last()->ApprovalRequired_0
            &&& !effective.requests_sandbox_override || effective.permissions_preapproved
                || policy.on_request
        }),
{
    let n = events.len() as int;
    assert(path[n] == path.last());
    assert(path[0].is_step(events[0], path[1]));
    dependency_variables_win(path[0], events[0]->EnvLoaded_0, path[1], name);
    assert(path[1].is_step(events[1], path[2]));
    assert(path[2].is_step(events[2], path[3]));
    let at = if path[3] is Normalizing {
        assert(path[3].is_step(events[3], path[4]));
        4int
    } else {
        3int
    };
    if path[at] is Done && at < n {
        assert(path[at].is_step(events[at], path[at + 1]));
    }
    let begun = if path[at] is InterceptingPatch {
        assert(path[at].is_step(events[at], path[at + 1]));
        at + 1
    } else {
        at
    };
    if path[begun] is Done && begun < n {
        assert(path[begun].is_step(events[begun], path[begun + 1]));
    }
    assert(path[begun] is Beginning);
    assert(path[begun].is_step(events[begun], path[begun + 1]));
    assert(path[begun + 1].is_step(events[begun + 1], path[begun + 2]));
    if begun + 2 < n {
        assert(path[begun + 2].is_step(events[begun + 2], path[begun + 3]));
        assert(path[begun + 3] is Finishing);
        if begun + 3 < n {
            assert(path[begun + 3].is_step(events[begun + 3], path[begun + 4]));
            if begun + 4 < n {
                assert(path[begun + 4].is_step(events[begun + 4], path[begun + 5]));
            }
        }
    }
    assert(begun + 2 == n);
}

/// The request that runs carries each part of the job unchanged.
pub proof fn a_request_carries_the_job<H: HostTypes>(
    job: ExecJob<H>,
    prepared: Prepared<H>,
    call_id: String,
    requirement: H::ApprovalRequirement,
    after: ExecFlow<H>,
)
    requires
        (ExecFlow::RequiringApproval { job, prepared, call_id }).is_step(
            ExecEvent::ApprovalRequired(requirement),
            after,
        ),
    ensures
        after is Running,
        after->request.command == job.params.command,
        after->request.hook_command == job.hook_command,
        after->request.cwd == job.params.cwd,
        after->request.timeout_ms == job.params.timeout_ms,
        after->request.env == job.params.env,
        after->request.explicit_env_overrides == prepared.explicit_env_overrides,
        after->request.network == job.params.network,
        after->request.sandbox_permissions == prepared.effective.sandbox_permissions,
        after->request.additional_permissions == prepared.additional_permissions,
        after->request.additional_permissions_preapproved
            == prepared.effective.permissions_preapproved,
        after->request.justification == job.params.justification,
        after->request.exec_approval_requirement == requirement,
        after->tool_name == job.tool_name,
        after->Running_call_id == call_id,
{
}

/// Once the permissions are found, a command is rejected exactly if it asks for
/// more than the sandbox allows, this was not approved before, and the policy
/// does not let it ask. The model is told the policy. Any other tool call goes on
/// to the look for a patch, and any other validation command to its announcement,
/// both with the permissions that were found.
pub proof fn a_command_is_rejected_only_for_asking_too_much<H: HostTypes>(
    job: ExecJob<H>,
    overrides: KeyedMap<String, String>,
    effective: EffectivePermissions<H>,
    permissions: Option<H::Permissions>,
    after: ExecFlow<H>,
)
    requires
        ({
            ||| permissions is Some && (ExecFlow::FindingImplicit {
                job,
                overrides,
                effective,
            }).is_step(ExecEvent::ImplicitFound(permissions), after)
            ||| (ExecFlow::Normalizing { job, overrides, effective }).is_step(
                ExecEvent::Normalized(Ok(permissions)),
                after,
            )
        }),
    ensures
        ({
            let refused = effective.requests_sandbox_override && !effective.permissions_preapproved
                && !job.session.approval_policy.on_request;
            let policy = job.session.approval_policy.debug@;
            &&& refused <==> after is Done
            &&& refused ==> {
                &&& after->outcome is Failed
                &&& after->outcome->Failed_0 is RespondToModel
                &&& after->outcome->Failed_0->RespondToModel_0@ == "approval policy is "@ + policy
                    + "; reject command — you should not ask for escalated permissions if the approval policy is "@
                    + policy
            }
            &&& !refused && job.purpose is ToolCall ==> {
                &&& after is InterceptingPatch
                &&& after->InterceptingPatch_job == job
                &&& after->InterceptingPatch_prepared.explicit_env_overrides == overrides
                &&& after->InterceptingPatch_prepared.effective == effective
                &&& after->InterceptingPatch_prepared.additional_permissions == permissions
            }
            &&& !refused && job.purpose is ControllerValidation ==> {
                &&& after is Beginning
                &&& after->Beginning_job == job
                &&& after->Beginning_prepared.explicit_env_overrides == overrides
                &&& after->Beginning_prepared.effective == effective
                &&& after->Beginning_prepared.additional_permissions == permissions
            }
        }),
{
}

/// The permissions that the turn was granted are looked at as they are. A command
/// without permissions of its own has those it asks for brought into their normal
/// form, and if that fails the model is told why.
pub proof fn permissions_are_found_or_the_model_is_told<H: HostTypes>(
    job: ExecJob<H>,
    overrides: KeyedMap<String, String>,
    effective: EffectivePermissions<H>,
    message: String,
    granted: ExecFlow<H>,
    unfound: ExecFlow<H>,
    failed: ExecFlow<H>,
)
    requires
        (ExecFlow::GrantingPermissions { job, overrides }).is_step(
            ExecEvent::PermissionsGranted(effective),
            granted,
        ),
        granted is FindingImplicit ==> granted.is_step(ExecEvent::ImplicitFound(None), unfound),
        unfound is Normalizing ==> unfound.is_step(ExecEvent::Normalized(Err(message)), failed),
    ensures
        granted == (ExecFlow::FindingImplicit { job, overrides, effective }),
        unfound == (ExecFlow::Normalizing { job, overrides, effective }),
        failed is Done,
        failed->outcome is Failed,
        failed->outcome->Failed_0 is RespondToModel,
        failed->outcome->Failed_0->RespondToModel_0@ == message@,
{
}

/// A patch that was applied ends the flow with its output, one that could not be
/// applied with its error. A command that is no patch is announced, under the id
/// of its tool call, and then its approval is found.
pub proof fn a_command_that_is_no_patch_goes_on<H: HostTypes>(
    job: ExecJob<H>,
    prepared: Prepared<H>,
    intercepted: Result<Option<H::ToolOutput>, H::CallError>,
    after: ExecFlow<H>,
    begun: ExecFlow<H>,
)
    requires
        (ExecFlow::InterceptingPatch { job, prepared }).is_step(
            ExecEvent::PatchIntercepted(intercepted),
            after,
        ),
        after is Beginning ==> after.is_step(ExecEvent::Begun, begun),
    ensures
        intercepted is Err ==> {
            &&& after is Done
            &&& after->outcome is Failed
            &&& after->outcome->Failed_0 is Host
            &&& after->outcome->Failed_0->Host_0 == intercepted->Err_0
        },
        intercepted is Ok && intercepted->Ok_0 is Some ==> {
            &&& after is Done
            &&& after->outcome is Patched
            &&& after->outcome->Patched_0 == intercepted->Ok_0->0
        },
        intercepted is Ok && intercepted->Ok_0 is None ==> {
            &&& after is Beginning
            &&& begun is RequiringApproval
            &&& begun->RequiringApproval_job == job
            &&& begun->RequiringApproval_prepared == prepared
            &&& begun->RequiringApproval_call_id == job.purpose->call_id
        },
{
}

/// The end of a tool call: the model gets what was announced, as one text, and
/// the hooks get what the command printed, if it ran. An error of the
/// announcement is the error of the call.
pub proof fn a_tool_call_gives_what_was_announced<H: HostTypes>(
    running: ExecFlow<H>,
    response: Option<String>,
    finished: Result<String, H::CallError>,
    ran: ExecFlow<H>,
    after: ExecFlow<H>,
)
    requires
        running is Running,
        running.is_step(ExecEvent::ToolRan { response }, ran),
        ran is Finishing ==> ran.is_step(ExecEvent::Finished(finished), after),
    ensures
        ran is Finishing,
        ran->Finishing_call_id == running->Running_call_id,
        after is Done,
        finished is Err ==> {
            &&& after->outcome is Failed
            &&& after->outcome->Failed_0 is Host
            &&& after->outcome->Failed_0->Host_0 == finished->Err_0
        },
        finished is Ok ==> {
            let output = after->outcome->Output_0;
            &&& after->outcome is Output
            &&& output.body@.len() == 1
            &&& output.body@[0] == finished->Ok_0
            &&& output.success == Some(true)
            &&& output.post_tool_use_response is Some <==> response is Some
            &&& response is Some ==> tool_payload::json_contents(output.post_tool_use_response->0)
                == tool_payload::JsonContents::Text(response->0@)
        },
{
}

/// The end of a validation command: its output is given back as it is, whatever
/// became of the announcement. One that could not run fails with the error of the
/// announcement.
pub proof fn a_validation_command_gives_its_output<H: HostTypes>(
    running: ExecFlow<H>,
    output: Option<H::ExecOutput>,
    finished: Result<String, H::CallError>,
    ran: ExecFlow<H>,
    after: ExecFlow<H>,
)
    requires
        running is Running,
        running.is_step(ExecEvent::ControllerRan { output }, ran),
        ran is Finishing ==> ran.is_step(ExecEvent::Finished(finished), after),
    ensures
        ran is Finishing,
        ran->Finishing_call_id == running->Running_call_id,
        after is Done,
        output is Some ==> {
            &&& after->outcome is Captured
            &&& after->outcome->Captured_0 == output->0
        },
        output is None && finished is Err ==> {
            &&& after->outcome is Failed
            &&& after->outcome->Failed_0 is Host
            &&& after->outcome->Failed_0->Host_0 == finished->Err_0
        },
{
}

/// What the host is asked to do is about the job of the flow. Permissions of its
/// own are allowed if commands may ask for them, or if the model has a tool to
/// ask and the user has approved them. An approval is asked for the sandbox as it
/// is if the user has approved before, and else for what the command asks of it.
pub proof fn the_host_is_asked_about_the_job<'a, H: HostTypes>(
    flow: ExecFlow<H>,
    action: ExecAction<'a, H>,
)
    requires
        flow.wf(),
        flow.is_action(action),
    ensures
        flow is LoadingEnv ==> action is LoadDependencyEnv,
        flow is GrantingPermissions ==> {
            let job = flow->GrantingPermissions_job;
            &&& action is ApplyGrantedPermissions
            &&& action->ApplyGrantedPermissions_sandbox_permissions
                == job.params.sandbox_permissions
            &&& action->ApplyGrantedPermissions_additional_permissions is Some
                <==> job.requested_permissions is Some
            &&& job.requested_permissions is Some
                ==> *action->ApplyGrantedPermissions_additional_permissions->0
                == job.requested_permissions->0
        },
        flow is FindingImplicit ==> {
            let job = flow->FindingImplicit_job;
            &&& action is FindImplicitPermissions
            &&& action->FindImplicitPermissions_sandbox_permissions
                == job.params.sandbox_permissions
            &&& action->requested is Some <==> job.requested_permissions is Some
            &&& job.requested_permissions is Some ==> *action->requested->0
                == job.requested_permissions->0
            &&& *action->FindImplicitPermissions_effective == flow->FindingImplicit_effective
        },
        flow is Normalizing ==> {
            let job = flow->Normalizing_job;
            let effective = flow->Normalizing_effective;
            &&& action is NormalizePermissions
            &&& action->allowed == (job.session.exec_permission_approvals_enabled
                || job.session.request_permissions_tool_enabled
                && effective.permissions_preapproved)
            &&& *action->NormalizePermissions_effective == effective
            &&& *action->NormalizePermissions_cwd == job.params.cwd
        },
        flow is InterceptingPatch ==> {
            let job = flow->InterceptingPatch_job;
            &&& action is InterceptPatch
            &&& *action->InterceptPatch_command == job.params.command
            &&& *action->InterceptPatch_cwd == job.params.cwd
            &&& *action->InterceptPatch_call_id == job.purpose->call_id
            &&& *action->InterceptPatch_tool_name == job.tool_name
        },
        flow is Beginning ==> {
            let job = flow->Beginning_job;
            &&& action is EmitBegin
            &&& *action->EmitBegin_command == job.params.command
            &&& *action->EmitBegin_cwd == job.params.cwd
            &&& action->freeform == job.freeform
            &&& *action->EmitBegin_call_id == flow->Beginning_call_id
        },
        flow is RequiringApproval ==> {
            let job = flow->RequiringApproval_job;
            let effective = flow->RequiringApproval_prepared.effective;
            &&& action is RequireApproval
            &&& *action->RequireApproval_command == job.params.command
            &&& effective.permissions_preapproved ==> action->sandbox is UseDefault
            &&& !effective.permissions_preapproved ==> action->sandbox == (
            ApprovalSandbox::<H>::Requested(effective.sandbox_permissions))
            &&& action->prefix_rule is Some <==> job.prefix_rule is Some
            &&& job.prefix_rule is Some ==> *action->prefix_rule->0 == job.prefix_rule->0
        },
        flow is Running ==> {
            &&& action is Run
            &&& *action->Run_request == flow->request
            &&& action->Run_runtime == flow->runtime
            &&& *action->Run_tool_name == flow->tool_name
            &&& *action->Run_call_id == flow->Running_call_id
        },
        flow is Finishing ==> {
            &&& action is EmitFinish
            &&& *action->EmitFinish_call_id == flow->Finishing_call_id
        },
        flow is Done ==> {
            &&& action is Return
            &&& *action->outcome == flow->outcome
        },
{
}

/// A flow waits for what answers its action, whatever the answer is, and for
/// nothing else. Only the announcement of a command that could not run has to
/// fail.
pub proof fn the_flow_waits_for_the_answer_to_its_action<'a, H: HostTypes>(
    flow: ExecFlow<H>,
    action: ExecAction<'a, H>,
    answer: ExecEvent<H>,
)
    requires
        flow.wf(),
        flow.is_action(action),
    ensures
        flow.expects(answer) == (match action {
            ExecAction::LoadDependencyEnv => answer is EnvLoaded,
            ExecAction::ApplyGrantedPermissions { .. } => answer is PermissionsGranted,
            ExecAction::FindImplicitPermissions { .. } => answer is ImplicitFound,
            ExecAction::NormalizePermissions { .. } => answer is Normalized,
            ExecAction::InterceptPatch { .. } => answer is PatchIntercepted,
            ExecAction::EmitBegin { .. } => answer is Begun,
            ExecAction::RequireApproval { .. } => answer is ApprovalRequired,
            ExecAction::Run { .. } => if flow->for_controller {
                answer is ControllerRan
            } else {
                answer is ToolRan
            },
            ExecAction::EmitFinish { .. } => answer is Finished && (flow->ending is Lost
                ==> answer->Finished_0 is Err),
            ExecAction::Return { .. } => false,
        }),
{
}

/// A command could not run exactly if the host handed back no output for it.
pub proof fn only_a_command_without_output_is_lost<H: HostTypes>(
    running: ExecFlow<H>,
    event: ExecEvent<H>,
    ran: ExecFlow<H>,
)
    requires
        running is Running,
        running.is_step(event, ran),
    ensures
        ran is Finishing,
        ran->ending is Lost <==> event is ControllerRan && event->output is None,
        ran->ending is Tool <==> event is ToolRan,
{
}

/// Loading the variables of the dependencies changes the environment of the
/// command and nothing else of the job.
pub proof fn loading_variables_changes_the_environment_alone<H: HostTypes>(
    job: ExecJob<H>,
    set_env: KeyedMap<String, String>,
    added: KeyedMap<String, String>,
    after: ExecFlow<H>,
)
    requires
        (ExecFlow::LoadingEnv { job, set_env }).is_step(ExecEvent::EnvLoaded(added), after),
    ensures
        after is GrantingPermissions,
        ({
            let same = after->GrantingPermissions_job;
            &&& same.purpose == job.purpose
            &&& same.tool_name == job.tool_name
            &&& same.hook_command == job.hook_command
            &&& same.requested_permissions == job.requested_permissions
            &&& same.prefix_rule == job.prefix_rule
            &&& same.freeform == job.freeform
            &&& same.backend == job.backend
            &&& same.session == job.session
            &&& same.params.command == job.params.command
            &&& same.params.cwd == job.params.cwd
            &&& same.params.timeout_ms == job.params.timeout_ms
            &&& same.params.network == job.params.network
            &&& same.params.sandbox_permissions == job.params.sandbox_permissions
            &&& same.params.justification == job.params.justification
        }),
{
}

/// A tool call is taken over whole. Without an environment to run in, the model
/// is told so and nothing else is done.
pub proof fn a_tool_call_is_taken_over_whole<H: HostTypes>(
    args: RunExecLikeArgs<H>,
    session: SessionFacts,
    set_env: KeyedMap<String, String>,
    flow: ExecFlow<H>,
)
    requires
        begins_tool_call(args, session, set_env, flow),
    ensures
        session.has_environment ==> {
            let job = flow->LoadingEnv_job;
            &&& flow is LoadingEnv
            &&& flow->LoadingEnv_set_env == set_env
            &&& job.purpose is ToolCall
            &&& job.purpose->call_id == args.call_id
            &&& job.tool_name == args.tool_name
            &&& job.hook_command == args.hook_command
            &&& job.requested_permissions == args.additional_permissions
            &&& job.prefix_rule == args.prefix_rule
            &&& job.freeform == args.freeform
            &&& job.backend == args.shell_runtime_backend
            &&& job.session == session
            &&& job.params.command == args.exec_params.command
            &&& job.params.cwd == args.exec_params.cwd
            &&& job.params.timeout_ms == args.exec_params.timeout_ms
            &&& job.params.env == args.exec_params.env
            &&& job.params.network == args.exec_params.network
            &&& job.params.sandbox_permissions == args.exec_params.sandbox_permissions
            &&& job.params.justification == args.exec_params.justification
        },
        !session.has_environment ==> {
            &&& flow is Done
            &&& flow->outcome is Failed
            &&& flow->outcome->Failed_0 is RespondToModel
            &&& flow->outcome->Failed_0->RespondToModel_0@
                == "shell is unavailable in this session"@
        },
{
}

/// A validation command runs for five minutes at most, in the sandbox as it is,
/// with nothing that the model asked for. Without an environment to run in, that
/// is told and nothing else is done.
pub proof fn a_validation_command_asks_for_nothing_more<H: HostTypes>(
    command: Seq<char>,
    shell_argv: Vec<String>,
    cwd: H::Cwd,
    env: KeyedMap<String, String>,
    network: H::Network,
    use_default: H::SandboxPermissions,
    session: SessionFacts,
    set_env: KeyedMap<String, String>,
    flow: ExecFlow<H>,
)
    requires
        begins_validation_command(
            command,
            shell_argv,
            cwd,
            env,
            network,
            use_default,
            session,
            set_env,
            flow,
        ),
    ensures
        session.has_environment ==> {
            let job = flow->LoadingEnv_job;
            &&& flow is LoadingEnv
            &&& flow->LoadingEnv_set_env == set_env
            &&& job.purpose is ControllerValidation
            &&& job.tool_name@ == "controller_validation"@
            &&& job.hook_command@ == command
            &&& job.requested_permissions is None
            &&& job.prefix_rule is None
            &&& !job.freeform
            &&& job.backend == ShellRuntimeBackend::Generic
            &&& job.session == session
            &&& job.params.command == shell_argv
            &&& job.params.cwd == cwd
            &&& job.params.timeout_ms == Some(300_000u64)
            &&& job.params.env == env
            &&& job.params.network == network
            &&& job.params.sandbox_permissions == use_default
            &&& job.params.justification is None
        },
        !session.has_environment ==> {
            &&& flow is Done
            &&& flow->outcome is Failed
            &&& flow->outcome->Failed_0 is RespondToModel
            &&& flow->outcome->Failed_0->RespondToModel_0@
                == "controller validation: shell is unavailable in this session"@
        },
{
}

} // verus!

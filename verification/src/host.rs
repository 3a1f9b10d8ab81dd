//! The types of the program around the library.
use vstd::prelude::*;

verus! {

/// The types of values that the library carries for its host and does not
/// read.
pub trait HostTypes: Sized {
    /// Where the answer to an approval request goes.
    type ApprovalReply;

    /// Where the answer to a request for permissions goes.
    type PermissionsReply;

    /// Where the answer to a question to the user goes.
    type UserInputReply;

    /// Where the answer to an elicitation goes.
    type ElicitationReply;

    /// Where the answer of a dynamic tool goes.
    type DynamicToolReply;

    /// The permissions that a request asks for.
    type RequestedPermissions;

    /// A working directory.
    type Cwd;

    /// An item of input for the model.
    type InputItem;

    /// Permissions on top of those of the sandbox.
    type Permissions: Clone;

    /// A count of tokens.
    type TokenUsage: Default;

    /// What a command asks of the sandbox.
    type SandboxPermissions: Copy;

    /// The network of a command.
    type Network;

    /// What has to be approved before a command runs.
    type ApprovalRequirement;

    /// What a command printed, and how it ended.
    type ExecOutput;

    /// What a tool gives back to the model.
    type ToolOutput;

    /// Why a tool call failed.
    type CallError;
}

/// A reference to what `option` holds.
pub open spec fn as_option_ref<A>(option: &Option<A>) -> Option<&A> {
    match option {
        Some(value) => Some(value),
        None => None,
    }
}

/// The reference is to what is there, if anything is.
pub proof fn a_reference_is_to_what_is_there<A>(option: Option<A>)
    ensures
        as_option_ref(&option) is Some <==> option is Some,
        option is Some ==> *as_option_ref(&option)->0 == option->0,
{
}

} // verus!

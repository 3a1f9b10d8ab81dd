//! What one turn keeps: its tasks, the requests that wait for an answer, the
//! queued input and the state of the validation.
use indexmap::IndexMap;
use vstd::prelude::*;
use vstd::string::*;

use crate::controller_validation::ControllerValidationState;
use crate::host;
use crate::host::HostTypes;
use crate::keyed;
use crate::keyed::KeyedMap;
use crate::keyed::MapKey;
use crate::text;

verus! {

/// Whether mailbox deliveries should still be folded into the current turn.
///
/// A turn starts in `CurrentTurn`, so queued child mail can join the next
/// model request for that turn. After user-visible terminal output is recorded
/// the phase is `NextTurn`, and late child mail stays queued instead of
/// extending an answer that was already shown. If the same task later gets
/// explicit same-turn work again, `CurrentTurn` is reopened.
#[derive(Clone, Copy, Debug, Eq, PartialEq, Structural)]
pub enum MailboxDeliveryPhase {
    /// Incoming mailbox messages can still be consumed by the current turn.
    CurrentTurn,
    /// The current turn already emitted visible final answer text; mailbox
    /// messages should remain queued for a later turn.
    NextTurn,
}

impl Default for MailboxDeliveryPhase {
    fn default() -> (phase: Self)
        ensures
            phase == MailboxDeliveryPhase::CurrentTurn,
    {
        MailboxDeliveryPhase::CurrentTurn
    }
}

/// The kinds of tasks that a turn runs.
#[derive(Clone, Copy, Debug, Eq, PartialEq, Structural)]
pub enum TaskKind {
    Regular,
    Review,
    Compact,
}

/// The number or the text by which a server knows a request.
#[derive(Debug, PartialEq, Eq)]
pub enum RequestId {
    Number(i64),
    Text(String),
}

/// What a `RequestId` says.
pub enum RequestIdView {
    Number(i64),
    Text(Seq<char>),
}

impl View for RequestId {
    type V = RequestIdView;

    open spec fn view(&self) -> RequestIdView {
        match self {
            RequestId::Number(number) => RequestIdView::Number(*number),
            RequestId::Text(text) => RequestIdView::Text(text@),
        }
    }
}

impl Clone for RequestId {
    fn clone(&self) -> (id: Self)
        ensures
            id == *self,
    {
        match self {
            RequestId::Number(number) => RequestId::Number(*number),
            RequestId::Text(text) => RequestId::Text(text.clone()),
        }
    }
}

/// An elicitation by the server that asks and the number of its request.
pub struct ElicitationKey {
    pub server_name: String,
    pub request_id: RequestId,
}

impl View for ElicitationKey {
    type V = (Seq<char>, RequestIdView);

    open spec fn view(&self) -> (Seq<char>, RequestIdView) {
        (self.server_name@, self.request_id@)
    }
}

impl MapKey for ElicitationKey {
    fn same_key(&self, other: &Self) -> (same: bool) {
        let same_id = match (&self.request_id, &other.request_id) {
            (RequestId::Number(a), RequestId::Number(b)) => *a == *b,
            (RequestId::Text(a), RequestId::Text(b)) => text::same_text(a.as_str(), b.as_str()),
            _ => false,
        };
        same_id && text::same_text(self.server_name.as_str(), other.server_name.as_str())
    }
}

/// A request for permissions that waits for its answer.
pub struct PendingRequestPermissions<H: HostTypes> {
    pub tx_response: H::PermissionsReply,
    pub requested_permissions: H::RequestedPermissions,
    pub cwd: H::Cwd,
}

/// Mutable state for a single turn.
pub struct TurnState<H: HostTypes> {
    pub pending_approvals: KeyedMap<String, H::ApprovalReply>,
    pub pending_request_permissions: KeyedMap<String, PendingRequestPermissions<H>>,
    pub pending_user_input: KeyedMap<String, H::UserInputReply>,
    pub pending_elicitations: KeyedMap<ElicitationKey, H::ElicitationReply>,
    pub pending_dynamic_tools: KeyedMap<String, H::DynamicToolReply>,
    pub pending_input: Vec<H::InputItem>,
    pub pending_controller_validation: Option<ControllerValidationState>,
    pub terminal_controller_validation_result: Option<String>,
    pub controller_validation_active: bool,
    pub mailbox_delivery_phase: MailboxDeliveryPhase,
    pub granted_permissions: Option<H::Permissions>,
    pub strict_auto_review_enabled: bool,
    pub tool_calls: u64,
    pub has_memory_citation: bool,
    pub token_usage_at_turn_start: H::TokenUsage,
}

/// What a `TurnState` holds.
pub struct TurnStateView<H: HostTypes> {
    pub pending_approvals: Map<Seq<char>, H::ApprovalReply>,
    pub pending_request_permissions: Map<Seq<char>, PendingRequestPermissions<H>>,
    pub pending_user_input: Map<Seq<char>, H::UserInputReply>,
    pub pending_elicitations: Map<(Seq<char>, RequestIdView), H::ElicitationReply>,
    pub pending_dynamic_tools: Map<Seq<char>, H::DynamicToolReply>,
    pub pending_input: Seq<H::InputItem>,
    pub pending_controller_validation: Option<ControllerValidationState>,
    pub terminal_controller_validation_result: Option<String>,
    pub controller_validation_active: bool,
    pub mailbox_delivery_phase: MailboxDeliveryPhase,
    pub granted_permissions: Option<H::Permissions>,
    pub strict_auto_review_enabled: bool,
    pub tool_calls: u64,
    pub has_memory_citation: bool,
    pub token_usage_at_turn_start: H::TokenUsage,
}

impl<H: HostTypes> View for TurnState<H> {
    type V = TurnStateView<H>;

    open spec fn view(&self) -> TurnStateView<H> {
        TurnStateView {
            pending_approvals: self.pending_approvals@,
            pending_request_permissions: self.pending_request_permissions@,
            pending_user_input: self.pending_user_input@,
            pending_elicitations: self.pending_elicitations@,
            pending_dynamic_tools: self.pending_dynamic_tools@,
            pending_input: self.pending_input@,
            pending_controller_validation: self.pending_controller_validation,
            terminal_controller_validation_result: self.terminal_controller_validation_result,
            controller_validation_active: self.controller_validation_active,
            mailbox_delivery_phase: self.mailbox_delivery_phase,
            granted_permissions: self.granted_permissions,
            strict_auto_review_enabled: self.strict_auto_review_enabled,
            tool_calls: self.tool_calls,
            has_memory_citation: self.has_memory_citation,
            token_usage_at_turn_start: self.token_usage_at_turn_start,
        }
    }
}

impl<H: HostTypes> TurnStateView<H> {
    /// Nothing waits for an answer, nothing is queued, nothing is to be
    /// validated. The rest is as it was.
    pub open spec fn cleared(self) -> Self {
        TurnStateView {
            pending_approvals: Map::empty(),
            pending_request_permissions: Map::empty(),
            pending_user_input: Map::empty(),
            pending_elicitations: Map::empty(),
            pending_dynamic_tools: Map::empty(),
            pending_input: Seq::empty(),
            pending_controller_validation: None,
            terminal_controller_validation_result: None,
            controller_validation_active: false,
            ..self
        }
    }

    /// `validation` is to be done, and the controller validates.
    pub open spec fn with_validation(self, validation: ControllerValidationState) -> Self {
        TurnStateView {
            pending_controller_validation: Some(validation),
            controller_validation_active: true,
            ..self
        }
    }

    /// No validation is to be done.
    pub open spec fn without_validation(self) -> Self {
        TurnStateView { pending_controller_validation: None, ..self }
    }

    /// `result` is the result of the validation.
    pub open spec fn with_result(self, result: Option<String>) -> Self {
        TurnStateView { terminal_controller_validation_result: result, ..self }
    }

    /// The controller validates, or does not.
    pub open spec fn with_active(self, active: bool) -> Self {
        TurnStateView { controller_validation_active: active, ..self }
    }

    /// `input` is queued.
    pub open spec fn with_input(self, input: Seq<H::InputItem>) -> Self {
        TurnStateView { pending_input: input, ..self }
    }

    /// Mailbox deliveries go to `phase`.
    pub open spec fn with_phase(self, phase: MailboxDeliveryPhase) -> Self {
        TurnStateView { mailbox_delivery_phase: phase, ..self }
    }

    /// The controller decides how the turn ends.
    pub open spec fn validation_owns_the_end(self) -> bool {
        ||| self.pending_controller_validation is Some
        ||| self.controller_validation_active
        ||| self.terminal_controller_validation_result is Some
    }
}

impl<H: HostTypes> Default for TurnState<H> {
    fn default() -> (state: Self)
        ensures
            state@ == state@.cleared(),
            state@.mailbox_delivery_phase == MailboxDeliveryPhase::CurrentTurn,
            state@.granted_permissions is None,
            !state@.strict_auto_review_enabled,
            state@.tool_calls == 0,
            !state@.has_memory_citation,
            call_ensures(H::TokenUsage::default, (), state@.token_usage_at_turn_start),
    {
        let state = TurnState {
            pending_approvals: KeyedMap::new(),
            pending_request_permissions: KeyedMap::new(),
            pending_user_input: KeyedMap::new(),
            pending_elicitations: KeyedMap::new(),
            pending_dynamic_tools: KeyedMap::new(),
            pending_input: Vec::new(),
            pending_controller_validation: None,
            terminal_controller_validation_result: None,
            controller_validation_active: false,
            mailbox_delivery_phase: MailboxDeliveryPhase::CurrentTurn,
            granted_permissions: None,
            strict_auto_review_enabled: false,
            tool_calls: 0,
            has_memory_citation: false,
            token_usage_at_turn_start: H::TokenUsage::default(),
        };
        assert(state@.pending_input =~= Seq::empty());
        state
    }
}

impl<H: HostTypes> TurnState<H> {
    pub fn insert_pending_approval(&mut self, key: String, tx: H::ApprovalReply) -> (previous: Option<
        H::ApprovalReply,
    >)
        ensures
            final(self)@ == (TurnStateView {
                pending_approvals: old(self)@.pending_approvals.insert(key@, tx),
                ..old(self)@
            }),
            previous == keyed::map_lookup(old(self)@.pending_approvals, key@),
    {
        self.pending_approvals.insert(key, tx)
    }

    pub fn remove_pending_approval(&mut self, key: &str) -> (reply: Option<H::ApprovalReply>)
        ensures
            final(self)@ == (TurnStateView {
                pending_approvals: old(self)@.pending_approvals.remove(key@),
                ..old(self)@
            }),
            reply == keyed::map_lookup(old(self)@.pending_approvals, key@),
    {
        self.pending_approvals.remove(&key.to_owned())
    }

    /// Forgets all that waits for an answer, the queued input and the state of
    /// the validation.
    pub fn clear_pending(&mut self)
        ensures
            final(self)@ == old(self)@.cleared(),
    {
        self.pending_approvals.clear();
        self.pending_request_permissions.clear();
        self.pending_user_input.clear();
        self.pending_elicitations.clear();
        self.pending_dynamic_tools.clear();
        self.pending_input.clear();
        self.pending_controller_validation = None;
        self.terminal_controller_validation_result = None;
        self.controller_validation_active = false;
        assert(self@.pending_input =~= Seq::empty());
    }

    pub fn insert_pending_request_permissions(
        &mut self,
        key: String,
        pending_request_permissions: PendingRequestPermissions<H>,
    ) -> (previous: Option<PendingRequestPermissions<H>>)
        ensures
            final(self)@ == (TurnStateView {
                pending_request_permissions: old(self)@.pending_request_permissions.insert(
                    key@,
                    pending_request_permissions,
                ),
                ..old(self)@
            }),
            previous == keyed::map_lookup(old(self)@.pending_request_permissions, key@),
    {
        self.pending_request_permissions.insert(key, pending_request_permissions)
    }

    pub fn remove_pending_request_permissions(&mut self, key: &str) -> (request: Option<
        PendingRequestPermissions<H>,
    >)
        ensures
            final(self)@ == (TurnStateView {
                pending_request_permissions: old(self)@.pending_request_permissions.remove(key@),
                ..old(self)@
            }),
            request == keyed::map_lookup(old(self)@.pending_request_permissions, key@),
    {
        self.pending_request_permissions.remove(&key.to_owned())
    }

    pub fn insert_pending_user_input(&mut self, key: String, tx: H::UserInputReply) -> (previous:
        Option<H::UserInputReply>)
        ensures
            final(self)@ == (TurnStateView {
                pending_user_input: old(self)@.pending_user_input.insert(key@, tx),
                ..old(self)@
            }),
            previous == keyed::map_lookup(old(self)@.pending_user_input, key@),
    {
        self.pending_user_input.insert(key, tx)
    }

    pub fn remove_pending_user_input(&mut self, key: &str) -> (reply: Option<H::UserInputReply>)
        ensures
            final(self)@ == (TurnStateView {
                pending_user_input: old(self)@.pending_user_input.remove(key@),
                ..old(self)@
            }),
            reply == keyed::map_lookup(old(self)@.pending_user_input, key@),
    {
        self.pending_user_input.remove(&key.to_owned())
    }

    pub fn insert_pending_elicitation(
        &mut self,
        server_name: String,
        request_id: RequestId,
        tx: H::ElicitationReply,
    ) -> (previous: Option<H::ElicitationReply>)
        ensures
            final(self)@ == (TurnStateView {
                pending_elicitations: old(self)@.pending_elicitations.insert(
                    (server_name@, request_id@),
                    tx,
                ),
                ..old(self)@
            }),
            previous == keyed::map_lookup(old(self)@.pending_elicitations, (server_name@, request_id@)),
    {
        self.pending_elicitations.insert(ElicitationKey { server_name, request_id }, tx)
    }

    pub fn remove_pending_elicitation(&mut self, server_name: &str, request_id: &RequestId) -> (reply:
        Option<H::ElicitationReply>)
        ensures
            final(self)@ == (TurnStateView {
                pending_elicitations: old(self)@.pending_elicitations.remove(
                    (server_name@, request_id@),
                ),
                ..old(self)@
            }),
            reply == keyed::map_lookup(old(self)@.pending_elicitations, (server_name@, request_id@)),
    {
        let key = ElicitationKey {
            server_name: server_name.to_owned(),
            request_id: request_id.clone(),
        };
        self.pending_elicitations.remove(&key)
    }

    pub fn insert_pending_dynamic_tool(&mut self, key: String, tx: H::DynamicToolReply) -> (previous:
        Option<H::DynamicToolReply>)
        ensures
            final(self)@ == (TurnStateView {
                pending_dynamic_tools: old(self)@.pending_dynamic_tools.insert(key@, tx),
                ..old(self)@
            }),
            previous == keyed::map_lookup(old(self)@.pending_dynamic_tools, key@),
    {
        self.pending_dynamic_tools.insert(key, tx)
    }

    pub fn remove_pending_dynamic_tool(&mut self, key: &str) -> (reply: Option<H::DynamicToolReply>)
        ensures
            final(self)@ == (TurnStateView {
                pending_dynamic_tools: old(self)@.pending_dynamic_tools.remove(key@),
                ..old(self)@
            }),
            reply == keyed::map_lookup(old(self)@.pending_dynamic_tools, key@),
    {
        self.pending_dynamic_tools.remove(&key.to_owned())
    }

    pub fn push_pending_input(&mut self, input: H::InputItem)
        ensures
            final(self)@ == old(self)@.with_input(old(self)@.pending_input.push(input)),
    {
        self.pending_input.push(input);
    }

    /// Puts `input` before what is queued.
    pub fn prepend_pending_input(&mut self, input: Vec<H::InputItem>)
        ensures
            final(self)@ == old(self)@.with_input(input@ + old(self)@.pending_input),
    {
        if input.is_empty() {
            assert(input@ + self@.pending_input =~= self@.pending_input);
            return ;
        }
        let mut queue = input;
        queue.append(&mut self.pending_input);
        self.pending_input = queue;
    }

    /// Takes all that is queued.
    pub fn take_pending_input(&mut self) -> (input: Vec<H::InputItem>)
        ensures
            input@ == old(self)@.pending_input,
            final(self)@ == old(self)@.with_input(Seq::empty()),
    {
        let mut input: Vec<H::InputItem> = Vec::new();
        assert(input@ =~= Seq::<H::InputItem>::empty());
        std::mem::swap(&mut input, &mut self.pending_input);
        input
    }

    pub fn has_pending_input(&self) -> (pending: bool)
        ensures
            pending == (self@.pending_input.len() > 0),
    {
        !self.pending_input.is_empty()
    }

    pub fn accept_mailbox_delivery_for_current_turn(&mut self)
        ensures
            final(self)@ == old(self)@.with_phase(MailboxDeliveryPhase::CurrentTurn),
    {
        self.set_mailbox_delivery_phase(MailboxDeliveryPhase::CurrentTurn);
    }

    pub fn accepts_mailbox_delivery_for_current_turn(&self) -> (accepts: bool)
        ensures
            accepts == (self@.mailbox_delivery_phase == MailboxDeliveryPhase::CurrentTurn),
    {
        self.mailbox_delivery_phase == MailboxDeliveryPhase::CurrentTurn
    }

    pub fn set_mailbox_delivery_phase(&mut self, phase: MailboxDeliveryPhase)
        ensures
            final(self)@ == old(self)@.with_phase(phase),
    {
        self.mailbox_delivery_phase = phase;
    }

    /// Grants `permissions` on top of what was granted: `merge` puts the two
    /// together.
    pub fn record_granted_permissions<
        F: Fn(Option<&H::Permissions>, Option<&H::Permissions>) -> Option<H::Permissions>,
    >(&mut self, permissions: H::Permissions, merge: F)
        requires
            call_requires(merge, (host::as_option_ref(&old(self).granted_permissions), Some(&permissions))),
        ensures
            call_ensures(
                merge,
                (host::as_option_ref(&old(self).granted_permissions), Some(&permissions)),
                final(self)@.granted_permissions,
            ),
            final(self)@ == (TurnStateView {
                granted_permissions: final(self)@.granted_permissions,
                ..old(self)@
            }),
    {
        self.granted_permissions = merge(self.granted_permissions.as_ref(), Some(&permissions));
    }

    pub fn granted_permissions(&self) -> (permissions: Option<H::Permissions>)
        ensures
            permissions is Some <==> self@.granted_permissions is Some,
            permissions matches Some(p) ==> cloned::<H::Permissions>(
                self@.granted_permissions->0,
                p,
            ),
    {
        self.granted_permissions.clone()
    }

    pub fn enable_strict_auto_review(&mut self)
        ensures
            final(self)@ == (TurnStateView { strict_auto_review_enabled: true, ..old(self)@ }),
    {
        self.strict_auto_review_enabled = true;
    }

    pub fn strict_auto_review_enabled(&self) -> (enabled: bool)
        ensures
            enabled == self@.strict_auto_review_enabled,
    {
        self.strict_auto_review_enabled
    }

    /// Stores a validation that is to be done. From then on the controller validates.
    pub fn set_pending_controller_validation(
        &mut self,
        controller_validation: ControllerValidationState,
    )
        ensures
            final(self)@ == old(self)@.with_validation(controller_validation),
    {
        self.pending_controller_validation = Some(controller_validation);
        self.controller_validation_active = true;
    }

    pub fn take_pending_controller_validation(&mut self) -> (validation: Option<
        ControllerValidationState,
    >)
        ensures
            validation == old(self)@.pending_controller_validation,
            final(self)@ == old(self)@.without_validation(),
    {
        self.pending_controller_validation.take()
    }

    pub fn has_pending_controller_validation(&self) -> (pending: bool)
        ensures
            pending == (self@.pending_controller_validation is Some),
    {
        self.pending_controller_validation.is_some()
    }

    pub fn set_terminal_controller_validation_result(&mut self, result: String)
        ensures
            final(self)@ == old(self)@.with_result(Some(result)),
    {
        self.terminal_controller_validation_result = Some(result);
    }

    pub fn take_terminal_controller_validation_result(&mut self) -> (result: Option<String>)
        ensures
            result == old(self)@.terminal_controller_validation_result,
            final(self)@ == old(self)@.with_result(None),
    {
        self.terminal_controller_validation_result.take()
    }

    pub fn has_terminal_controller_validation_result(&self) -> (stored: bool)
        ensures
            stored == (self@.terminal_controller_validation_result is Some),
    {
        self.terminal_controller_validation_result.is_some()
    }

    pub fn set_controller_validation_active(&mut self, active: bool)
        ensures
            final(self)@ == old(self)@.with_active(active),
    {
        self.controller_validation_active = active;
    }

    pub fn is_controller_validation_active(&self) -> (active: bool)
        ensures
            active == self@.controller_validation_active,
    {
        self.controller_validation_active
    }

    /// Whether the controller decides how the turn ends.
    pub fn controller_validation_owns_turn_finalization(&self) -> (owns: bool)
        ensures
            owns == self@.validation_owns_the_end(),
    {
        self.pending_controller_validation.is_some() || self.controller_validation_active
            || self.terminal_controller_validation_result.is_some()
    }
}

/// `indexmap::IndexMap`, which keeps its entries in an order.
#[verifier::external_type_specification]
#[verifier::external_body]
#[verifier::reject_recursive_types(K)]
#[verifier::reject_recursive_types(V)]
#[verifier::reject_recursive_types(S)]
pub struct ExIndexMap<K, V, S>(IndexMap<K, V, S>);

/// A task of the running turn: what is read of it, and the number under which
/// the host keeps its handles.
#[derive(Debug, PartialEq, Eq)]
pub struct RunningTask {
    pub sub_id: String,
    pub kind: TaskKind,
    pub records_turn_token_usage_on_span: bool,
    pub handle: u64,
}

/// What is left of a task that was removed. The host detaches `handle`.
#[derive(Debug, PartialEq, Eq)]
pub struct RemovedTask {
    pub records_turn_token_usage_on_span: bool,
    pub active_turn_is_empty: bool,
    pub handle: u64,
}

/// The entries of the map in their order: what each key says, and its task.
pub uninterp spec fn task_entries(tasks: IndexMap<String, RunningTask>) -> Seq<
    (Seq<char>, RunningTask),
>;

/// The index of the entry with the key.
pub open spec fn task_index(entries: Seq<(Seq<char>, RunningTask)>, key: Seq<char>) -> Option<int>
    decreases entries.len(),
{
    if entries.len() == 0 {
        None
    } else if entries.last().0 == key {
        Some(entries.len() - 1)
    } else {
        task_index(entries.drop_last(), key)
    }
}

/// `entries` with `task` under the key: in the place of the task that was
/// there, or else last.
pub open spec fn with_task(
    entries: Seq<(Seq<char>, RunningTask)>,
    key: Seq<char>,
    task: RunningTask,
) -> Seq<(Seq<char>, RunningTask)> {
    match task_index(entries, key) {
        Some(i) => entries.update(i, (key, task)),
        None => entries.push((key, task)),
    }
}

/// `entries` without that with the key; the last one takes its place.
pub open spec fn without_task(entries: Seq<(Seq<char>, RunningTask)>, key: Seq<char>) -> Seq<
    (Seq<char>, RunningTask),
> {
    match task_index(entries, key) {
        Some(i) => entries.update(i, entries.last()).drop_last(),
        None => entries,
    }
}

/// The task under the key.
pub open spec fn task_under(entries: Seq<(Seq<char>, RunningTask)>, key: Seq<char>) -> Option<
    RunningTask,
> {
    match task_index(entries, key) {
        Some(i) => Some(entries[i].1),
        None => None,
    }
}

/// `indexmap::IndexMap::new`: the map has no entries.
#[verifier::external_body]
fn new_tasks() -> (tasks: IndexMap<String, RunningTask>)
    ensures
        task_entries(tasks) == Seq::<(Seq<char>, RunningTask)>::empty(),
{
    IndexMap::new()
}

/// `indexmap::IndexMap::insert`: the task takes the place of the one under the
/// key, which is returned; without one the new entry is the last.
#[verifier::external_body]
fn insert_task(tasks: &mut IndexMap<String, RunningTask>, key: String, task: RunningTask) -> (previous:
    Option<RunningTask>)
    ensures
        task_entries(*final(tasks)) == with_task(task_entries(*old(tasks)), key@, task),
        previous == task_under(task_entries(*old(tasks)), key@),
{
    tasks.insert(key, task)
}

/// `indexmap::IndexMap::swap_remove`: the entry with the key goes, the last one
/// takes its place, and its task is returned.
#[verifier::external_body]
fn swap_remove_task(tasks: &mut IndexMap<String, RunningTask>, key: &str) -> (task: Option<
    RunningTask,
>)
    ensures
        task_entries(*final(tasks)) == without_task(task_entries(*old(tasks)), key@),
        task == task_under(task_entries(*old(tasks)), key@),
{
    tasks.swap_remove(key)
}

/// `indexmap::IndexMap::is_empty`: whether there are no entries.
#[verifier::external_body]
fn no_tasks(tasks: &IndexMap<String, RunningTask>) -> (empty: bool)
    ensures
        empty == (task_entries(*tasks).len() == 0),
{
    tasks.is_empty()
}

/// `indexmap::IndexMap::drain` over all entries: their tasks come out in their
/// order, and none is left.
#[verifier::external_body]
fn drain_all_tasks(tasks: &mut IndexMap<String, RunningTask>) -> (drained: Vec<RunningTask>)
    ensures
        drained@ == task_entries(*old(tasks)).map_values(|entry: (Seq<char>, RunningTask)| entry.1),
        task_entries(*final(tasks)) == Seq::<(Seq<char>, RunningTask)>::empty(),
{
    tasks.drain(..).map(|(_, task)| task).collect()
}

/// The currently running turn.
pub struct ActiveTurn<H: HostTypes> {
    pub tasks: IndexMap<String, RunningTask>,
    pub turn_state: TurnState<H>,
}

impl<H: HostTypes> Default for ActiveTurn<H> {
    fn default() -> (turn: Self)
        ensures
            turn.wf(),
            turn.entries() == Seq::<(Seq<char>, RunningTask)>::empty(),
            turn.turn_state@ == turn.turn_state@.cleared(),
            turn.turn_state@.mailbox_delivery_phase == MailboxDeliveryPhase::CurrentTurn,
            turn.turn_state@.granted_permissions is None,
            !turn.turn_state@.strict_auto_review_enabled,
            turn.turn_state@.tool_calls == 0,
            !turn.turn_state@.has_memory_citation,
            call_ensures(
                H::TokenUsage::default,
                (),
                turn.turn_state@.token_usage_at_turn_start,
            ),
    {
        ActiveTurn { tasks: new_tasks(), turn_state: TurnState::default() }
    }
}

impl<H: HostTypes> ActiveTurn<H> {
    /// The tasks in their order, each under its key.
    pub open spec fn entries(&self) -> Seq<(Seq<char>, RunningTask)> {
        task_entries(self.tasks)
    }

    /// Each task stands under its own id, and no two tasks have one id.
    pub open spec fn wf(&self) -> bool {
        &&& forall|i: int|
            0 <= i < self.entries().len() ==> (#[trigger] self.entries()[i]).0
                == self.entries()[i].1.sub_id@
        &&& forall|i: int, j: int|
            0 <= i < j < self.entries().len() ==> (#[trigger] self.entries()[i]).0 != (
            #[trigger] self.entries()[j]).0
    }

    /// Adds `task`, and returns the one that it replaces.
    pub fn add_task(&mut self, task: RunningTask) -> (replaced: Option<RunningTask>)
        requires
            old(self).wf(),
        ensures
            final(self).wf(),
            final(self).entries() == with_task(old(self).entries(), task.sub_id@, task),
            replaced == task_under(old(self).entries(), task.sub_id@),
            final(self).turn_state == old(self).turn_state,
    {
        let sub_id = task.sub_id.clone();
        proof {
            lemma_task_index(self.entries(), sub_id@);
        }
        insert_task(&mut self.tasks, sub_id, task)
    }

    /// Removes the task with the id, if there is one.
    pub fn remove_task(&mut self, sub_id: &str) -> (removed: Option<RemovedTask>)
        requires
            old(self).wf(),
        ensures
            final(self).wf(),
            final(self).entries() == without_task(old(self).entries(), sub_id@),
            final(self).turn_state == old(self).turn_state,
            removed == (match task_under(old(self).entries(), sub_id@) {
                Some(task) => Some(
                    RemovedTask {
                        records_turn_token_usage_on_span: task.records_turn_token_usage_on_span,
                        active_turn_is_empty: old(self).entries().len() == 1,
                        handle: task.handle,
                    },
                ),
                None => None,
            }),
    {
        proof {
            lemma_task_index(self.entries(), sub_id@);
        }
        match swap_remove_task(&mut self.tasks, sub_id) {
            Some(task) => Some(
                RemovedTask {
                    records_turn_token_usage_on_span: task.records_turn_token_usage_on_span,
                    active_turn_is_empty: no_tasks(&self.tasks),
                    handle: task.handle,
                },
            ),
            None => None,
        }
    }

    /// Removes all tasks and returns them in their order.
    pub fn drain_tasks(&mut self) -> (drained: Vec<RunningTask>)
        requires
            old(self).wf(),
        ensures
            final(self).wf(),
            final(self).entries() == Seq::<(Seq<char>, RunningTask)>::empty(),
            final(self).turn_state == old(self).turn_state,
            drained@ == old(self).entries().map_values(
                |entry: (Seq<char>, RunningTask)| entry.1,
            ),
    {
        drain_all_tasks(&mut self.tasks)
    }

    /// Clears any pending approvals and input buffered for the current turn.
    pub fn clear_pending(&mut self)
        ensures
            final(self).entries() == old(self).entries(),
            final(self).turn_state@ == old(self).turn_state@.cleared(),
    {
        self.turn_state.clear_pending();
    }
}

/// `task_index` is an entry with the key, or there is none.
proof fn lemma_task_index(entries: Seq<(Seq<char>, RunningTask)>, key: Seq<char>)
    ensures
        task_index(entries, key) matches Some(i) ==> 0 <= i < entries.len() && entries[i].0 == key,
        task_index(entries, key) is None ==> forall|i: int|
            0 <= i < entries.len() ==> (#[trigger] entries[i]).0 != key,
    decreases entries.len(),
{
    if entries.len() > 0 && entries.last().0 != key {
        lemma_task_index(entries.drop_last(), key);
        assert forall|i: int|
            0 <= i < entries.len() && task_index(entries, key) is None implies (
        #[trigger] entries[i]).0 != key by {
            if i < entries.len() - 1 {
                assert(entries.drop_last()[i] == entries[i]);
            }
        }
    }
}

/// A validation that is stored is taken once: the first take gives it back, the
/// next one nothing. The controller validates from then on.
pub proof fn a_stored_validation_is_taken_once<H: HostTypes>(
    state: TurnStateView<H>,
    validation: ControllerValidationState,
)
    ensures
        state.with_validation(validation).pending_controller_validation == Some(validation),
        state.with_validation(validation).without_validation().pending_controller_validation
            is None,
        state.with_validation(validation).controller_validation_active,
        state.with_validation(validation).without_validation().validation_owns_the_end(),
{
}

/// A result that is stored is taken once, and taking it undoes the storing.
pub proof fn a_stored_result_is_taken_once<H: HostTypes>(state: TurnStateView<H>, result: String)
    ensures
        state.with_result(Some(result)).terminal_controller_validation_result == Some(result),
        state.with_result(Some(result)).validation_owns_the_end(),
        state.with_result(Some(result)).with_result(None).terminal_controller_validation_result
            is None,
        state.terminal_controller_validation_result is None ==> state.with_result(
            Some(result),
        ).with_result(None) == state,
{
}

/// Clearing leaves nothing that waits, nothing queued and nothing to validate,
/// and changes nothing else. Clearing again changes nothing.
pub proof fn clearing_leaves_nothing_pending<H: HostTypes>(state: TurnStateView<H>)
    ensures
        !state.cleared().validation_owns_the_end(),
        state.cleared().pending_input.len() == 0,
        forall|key: Seq<char>| !state.cleared().pending_approvals.contains_key(key),
        forall|key: Seq<char>| !state.cleared().pending_request_permissions.contains_key(key),
        forall|key: Seq<char>| !state.cleared().pending_user_input.contains_key(key),
        forall|key: (Seq<char>, RequestIdView)|
            !state.cleared().pending_elicitations.contains_key(key),
        forall|key: Seq<char>| !state.cleared().pending_dynamic_tools.contains_key(key),
        state.cleared().mailbox_delivery_phase == state.mailbox_delivery_phase,
        state.cleared().granted_permissions == state.granted_permissions,
        state.cleared().strict_auto_review_enabled == state.strict_auto_review_enabled,
        state.cleared().tool_calls == state.tool_calls,
        state.cleared().has_memory_citation == state.has_memory_citation,
        state.cleared().token_usage_at_turn_start == state.token_usage_at_turn_start,
        state.cleared().cleared() == state.cleared(),
{
}

/// Input is taken in its order: first what was put before the queue, then what
/// was queued, then what was pushed behind it. Then nothing is queued.
pub proof fn input_is_taken_in_its_order<H: HostTypes>(
    state: TurnStateView<H>,
    first: Seq<H::InputItem>,
    last: H::InputItem,
)
    ensures
        ({
            let queued = state.with_input(first + state.pending_input);
            let pushed = queued.with_input(queued.pending_input.push(last));
            &&& pushed.pending_input == first + state.pending_input + seq![last]
            &&& pushed.with_input(Seq::empty()) == state.with_input(Seq::empty())
        }),
{
    assert((first + state.pending_input).push(last) =~= first + state.pending_input + seq![last]);
}

/// What waits under a key is handed out once, and what waits under another key
/// goes on waiting.
pub proof fn a_reply_is_handed_out_once<K, V>(waiting: Map<K, V>, key: K, reply: V)
    ensures
        keyed::map_lookup(waiting.insert(key, reply), key) == Some(reply),
        keyed::map_lookup(waiting.insert(key, reply).remove(key), key) == None::<V>,
        forall|other: K|
            other != key ==> #[trigger] keyed::map_lookup(waiting.insert(key, reply).remove(key), other)
                == keyed::map_lookup(waiting, other),
{
}

/// A task that was added is found under its id, and the others under theirs.
pub proof fn an_added_task_is_found(
    entries: Seq<(Seq<char>, RunningTask)>,
    key: Seq<char>,
    task: RunningTask,
    other: Seq<char>,
)
    requires
        forall|i: int, j: int|
            0 <= i < j < entries.len() ==> (#[trigger] entries[i]).0 != (#[trigger] entries[j]).0,
    ensures
        task_under(with_task(entries, key, task), key) == Some(task),
        other != key ==> task_under(with_task(entries, key, task), other) == task_under(
            entries,
            other,
        ),
{
    let added = with_task(entries, key, task);
    lemma_task_index(entries, key);
    lemma_task_index(entries, other);
    lemma_task_index(added, key);
    lemma_task_index(added, other);
    match task_index(entries, key) {
        Some(at) => {
            assert(added[at] == (key, task));
        },
        None => {
            assert(added.last() == (key, task));
        },
    }
    if let Some(i) = task_index(added, key) {
        if i < entries.len() {
            assert(added[i].0 == entries[i].0);
        }
    }
    if other != key {
        if let Some(i) = task_index(entries, other) {
            assert(added[i] == entries[i]);
        }
        if let Some(i) = task_index(added, other) {
            assert(added[i] == entries[i]);
        }
    }
}

/// A task under a new id that is removed again leaves the tasks as they were.
pub proof fn removing_undoes_adding(
    entries: Seq<(Seq<char>, RunningTask)>,
    key: Seq<char>,
    task: RunningTask,
)
    requires
        task_under(entries, key) is None,
    ensures
        without_task(with_task(entries, key, task), key) == entries,
{
    let added = entries.push((key, task));
    assert(task_index(added, key) == Some(entries.len() as int));
    assert(without_task(added, key) =~= entries);
}

/// A task that was removed is gone, and every other one is still there.
pub proof fn a_removed_task_is_gone(
    entries: Seq<(Seq<char>, RunningTask)>,
    key: Seq<char>,
    other: Seq<char>,
)
    requires
        forall|i: int, j: int|
            0 <= i < j < entries.len() ==> (#[trigger] entries[i]).0 != (#[trigger] entries[j]).0,
    ensures
        task_under(without_task(entries, key), key) is None,
        other != key ==> task_under(without_task(entries, key), other) == task_under(
            entries,
            other,
        ),
{
    let rest = without_task(entries, key);
    lemma_task_index(entries, key);
    lemma_task_index(entries, other);
    lemma_task_index(rest, key);
    lemma_task_index(rest, other);
    if let Some(at) = task_index(entries, key) {
        let last = entries.len() - 1;
        assert forall|i: int| 0 <= i < rest.len() implies (#[trigger] rest[i]) == (if i == at {
            entries[last]
        } else {
            entries[i]
        }) by {}
        if let Some(i) = task_index(rest, key) {
            let from = if i == at {
                last
            } else {
                i
            };
            assert(entries[from].0 == key);
            assert(entries[at].0 == key);
        }
        if other != key {
            if let Some(i) = task_index(entries, other) {
                let to = if i == last {
                    at
                } else {
                    i
                };
                assert(rest[to] == entries[i]);
            }
            if let Some(i) = task_index(rest, other) {
                let from = if i == at {
                    last
                } else {
                    i
                };
                assert(entries[from] == rest[i]);
            }
        }
    }
}

/// Each change of the state is found in what it is about, and nothing else of
/// the state changes with it.
pub proof fn a_change_is_found_where_it_belongs<H: HostTypes>(
    state: TurnStateView<H>,
    result: Option<String>,
    active: bool,
    input: Seq<H::InputItem>,
    phase: MailboxDeliveryPhase,
)
    ensures
        state.without_validation().pending_controller_validation is None,
        state.with_result(result).terminal_controller_validation_result == result,
        state.with_active(active).controller_validation_active == active,
        state.with_input(input).pending_input == input,
        state.with_phase(phase).mailbox_delivery_phase == phase,
        state.with_result(result).with_result(state.terminal_controller_validation_result) == state,
        state.with_active(active).with_active(state.controller_validation_active) == state,
        state.with_input(input).with_input(state.pending_input) == state,
        state.with_phase(phase).with_phase(state.mailbox_delivery_phase) == state,
        state.pending_controller_validation matches Some(validation)
            ==> state.without_validation().with_validation(validation) == state.with_active(true),
        state.pending_controller_validation is None ==> state.without_validation() == state,
{
}

/// The controller decides how the turn ends exactly if a validation is to be
/// done, the controller validates, or a result is stored.
pub proof fn any_signal_lets_the_controller_decide<H: HostTypes>(state: TurnStateView<H>)
    ensures
        state.validation_owns_the_end() <==> !(state.pending_controller_validation is None
            && !state.controller_validation_active
            && state.terminal_controller_validation_result is None),
{
}

/// A task takes the place of the one with its id, or else the last place, and the
/// others keep theirs. `k` is the index of the one with its id, or the number of
/// tasks if there is none.
pub proof fn an_added_task_keeps_the_order(
    entries: Seq<(Seq<char>, RunningTask)>,
    key: Seq<char>,
    task: RunningTask,
    k: int,
)
    requires
        0 <= k <= entries.len(),
        k < entries.len() ==> entries[k].0 == key,
        forall|i: int|
            0 <= i < entries.len() && i != k ==> (#[trigger] entries[i]).0 != key,
    ensures
        with_task(entries, key, task) == entries.take(k) + seq![(key, task)] + (if k
            < entries.len() {
            entries.skip(k + 1)
        } else {
            Seq::empty()
        }),
{
    lemma_task_index(entries, key);
    if k < entries.len() {
        assert(task_index(entries, key) == Some(k));
        assert(entries.update(k, (key, task)) =~= entries.take(k) + seq![(key, task)]
            + entries.skip(k + 1));
    } else {
        assert(task_index(entries, key) is None);
        assert(entries.push((key, task)) =~= entries.take(k) + seq![(key, task)]
            + Seq::<(Seq<char>, RunningTask)>::empty());
    }
}

/// The last task takes the place of one that is removed, and the others keep
/// theirs. `k` is the index of the one that is removed.
pub proof fn a_removed_task_leaves_its_place_to_the_last(
    entries: Seq<(Seq<char>, RunningTask)>,
    key: Seq<char>,
    k: int,
)
    requires
        0 <= k < entries.len(),
        entries[k].0 == key,
        forall|i: int|
            0 <= i < entries.len() && i != k ==> (#[trigger] entries[i]).0 != key,
    ensures
        without_task(entries, key).len() == entries.len() - 1,
        task_under(entries, key) == Some(entries[k].1),
        forall|i: int|
            0 <= i < entries.len() - 1 ==> #[trigger] without_task(entries, key)[i] == (if i == k {
                entries.last()
            } else {
                entries[i]
            }),
{
    lemma_task_index(entries, key);
    assert(task_index(entries, key) == Some(k));
}

/// Nothing changes where there is no task to remove.
pub proof fn removing_what_is_not_there_changes_nothing(
    entries: Seq<(Seq<char>, RunningTask)>,
    key: Seq<char>,
)
    requires
        forall|i: int| 0 <= i < entries.len() ==> (#[trigger] entries[i]).0 != key,
    ensures
        without_task(entries, key) == entries,
        task_under(entries, key) is None,
{
    lemma_task_index(entries, key);
}

/// Two elicitations are one exactly if their servers have one name and their
/// requests one id. A number and a text are never one id.
pub proof fn elicitations_differ_in_server_or_request(a: ElicitationKey, b: ElicitationKey)
    ensures
        a@ == b@ <==> a.server_name@ == b.server_name@ && match (a.request_id, b.request_id) {
            (RequestId::Number(m), RequestId::Number(n)) => m == n,
            (RequestId::Text(s), RequestId::Text(t)) => s@ == t@,
            _ => false,
        },
{
}

} // verus!

//! Runtime scopes: the context, agent, message and task that a piece of work
//! runs under, and how a scope changes when work enters a narrower one.

use vstd::prelude::*;
use crate::error::BamlRtError;
use crate::ids::{context_id_text, lemma_context_id_text_injective, AgentId, ContextId, MessageId, TaskId};

verus! {

/// The ids that a piece of work runs under.
#[derive(Debug)]
pub struct RuntimeScope {
    pub context_id: ContextId,
    pub agent_id: AgentId,
    pub message_id: Option<MessageId>,
    pub task_id: Option<TaskId>,
}

/// Abstract value of a runtime scope.
pub struct RuntimeScopeView {
    pub context_id: Seq<char>,
    pub agent_id: Seq<char>,
    pub message_id: Option<Seq<char>>,
    pub task_id: Option<Seq<char>>,
}

impl View for RuntimeScope {
    type V = RuntimeScopeView;

    open spec fn view(&self) -> RuntimeScopeView {
        RuntimeScopeView {
            context_id: self.context_id@,
            agent_id: self.agent_id@,
            message_id: self.message_id.deep_view(),
            task_id: self.task_id.deep_view(),
        }
    }
}

impl DeepView for RuntimeScope {
    type V = RuntimeScopeView;

    open spec fn deep_view(&self) -> RuntimeScopeView {
        self@
    }
}

impl Clone for RuntimeScope {
    fn clone(&self) -> (r: Self)
        ensures
            r@ == self@,
    {
        let message_id = match &self.message_id {
            Some(m) => Some(m.clone()),
            None => None,
        };
        let task_id = match &self.task_id {
            Some(t) => Some(t.clone()),
            None => None,
        };
        RuntimeScope {
            context_id: self.context_id.clone(),
            agent_id: self.agent_id.clone(),
            message_id,
            task_id,
        }
    }
}

impl RuntimeScope {
    /// A scope of the given ids.
    pub fn new(
        context_id: ContextId,
        agent_id: AgentId,
        message_id: Option<MessageId>,
        task_id: Option<TaskId>,
    ) -> (r: Self)
        ensures
            r@ == (RuntimeScopeView {
                context_id: context_id@,
                agent_id: agent_id@,
                message_id: message_id.deep_view(),
                task_id: task_id.deep_view(),
            }),
    {
        RuntimeScope { context_id, agent_id, message_id, task_id }
    }
}

/// The sequence numbers from which context ids are drawn; the first is one.
#[derive(Debug)]
pub struct ContextCounter {
    next: u64,
}

impl View for ContextCounter {
    type V = u64;

    closed spec fn view(&self) -> u64 {
        self.next
    }
}

/// The sequence number after `c`; after the largest one, numbering wraps to
/// zero.
pub open spec fn next_counter(c: u64) -> u64 {
    if c == u64::MAX {
        0
    } else {
        (c + 1) as u64
    }
}

/// The sequence number after `k` draws starting at `c`.
pub open spec fn counter_after(c: u64, k: nat) -> u64
    decreases k,
{
    if k == 0 {
        c
    } else {
        next_counter(counter_after(c, (k - 1) as nat))
    }
}

/// A clock reading in milliseconds, or zero where the clock gave none.
pub open spec fn millis_or_zero(elapsed_millis: Option<u64>) -> u64 {
    match elapsed_millis {
        Some(m) => m,
        None => 0,
    }
}

impl ContextCounter {
    /// A counter whose first number is one.
    pub fn new() -> (r: Self)
        ensures
            r@ == 1,
    {
        ContextCounter { next: 1 }
    }
}

/// A fresh context id from a clock reading (milliseconds since the epoch,
/// where the clock gave one; zero otherwise) and the counter's next number,
/// which it takes.
pub fn generate_context_id(counter: &mut ContextCounter, elapsed_millis: Option<u64>) -> (r: ContextId)
    ensures
        r@ == context_id_text(millis_or_zero(elapsed_millis), old(counter)@),
        final(counter)@ == next_counter(old(counter)@),
{
    let millis = match elapsed_millis {
        Some(m) => m,
        None => 0,
    };
    let n = counter.next;
    counter.next = n.wrapping_add(1);
    ContextId::new(millis, n)
}

/// Context ids drawn from one counter differ as long as it has not wrapped:
/// the `i`-th and the `j`-th draw from number `c` give different ids,
/// whatever the clock read.
pub proof fn lemma_drawn_ids_distinct(c: u64, i: nat, j: nat, m1: u64, m2: u64)
    requires
        i < j,
        c + j <= u64::MAX,
    ensures
        context_id_text(m1, counter_after(c, i)) != context_id_text(m2, counter_after(c, j)),
{
    lemma_counter_after(c, i);
    lemma_counter_after(c, j);
    lemma_context_id_text_injective(m1, counter_after(c, i), m2, counter_after(c, j));
}

proof fn lemma_counter_after(c: u64, k: nat)
    requires
        c + k <= u64::MAX,
    ensures
        counter_after(c, k) == c + k,
    decreases k,
{
    if k > 0 {
        lemma_counter_after(c, (k - 1) as nat);
    }
}

/// The context id of the scope, where there is a scope.
pub fn current_context_id(scope: &Option<RuntimeScope>) -> (r: Option<ContextId>)
    ensures
        r.deep_view() == (match scope {
            Some(s) => Some(s@.context_id),
            None => None,
        }),
{
    match scope {
        Some(s) => Some(s.context_id.clone()),
        None => None,
    }
}

/// The agent id of the scope, where there is a scope.
pub fn current_agent_id(scope: &Option<RuntimeScope>) -> (r: Option<AgentId>)
    ensures
        r.deep_view() == (match scope {
            Some(s) => Some(s@.agent_id),
            None => None,
        }),
{
    match scope {
        Some(s) => Some(s.agent_id.clone()),
        None => None,
    }
}

/// The message id of the scope, where there is a scope with one.
pub fn current_message_id(scope: &Option<RuntimeScope>) -> (r: Option<MessageId>)
    ensures
        r.deep_view() == (match scope {
            Some(s) => s@.message_id,
            None => None,
        }),
{
    match scope {
        Some(s) => match &s.message_id {
            Some(m) => Some(m.clone()),
            None => None,
        },
        None => None,
    }
}

/// The task id of the scope, where there is a scope with one.
pub fn current_task_id(scope: &Option<RuntimeScope>) -> (r: Option<TaskId>)
    ensures
        r.deep_view() == (match scope {
            Some(s) => s@.task_id,
            None => None,
        }),
{
    match scope {
        Some(s) => match &s.task_id {
            Some(t) => Some(t.clone()),
            None => None,
        },
        None => None,
    }
}

/// The refusal of a context change outside any scope.
pub open spec fn no_agent_scope_message() -> Seq<char> {
    "RuntimeScope must have agent_id - cannot create scope without agent context"@
}

/// The refusal of a message or task change outside any scope.
pub open spec fn no_scope_message() -> Seq<char> {
    "RuntimeScope must exist with agent_id - cannot create scope without agent context"@
}

/// The scope that work with context `id` runs under: the current scope with
/// its context replaced. Refused outside any scope.
pub fn scope_with_context_id(current: Option<RuntimeScope>, id: ContextId) -> (r: Result<RuntimeScope, BamlRtError>)
    ensures
        match current {
            Some(s) => r matches Ok(n) && n@ == (RuntimeScopeView { context_id: id@, ..s@ }),
            None => r matches Err(BamlRtError::InvalidArgument(m)) && m@ == no_agent_scope_message(),
        },
{
    match current {
        Some(mut s) => {
            s.context_id = id;
            Ok(s)
        },
        None => Err(
            BamlRtError::InvalidArgument(
                String::from_str("RuntimeScope must have agent_id - cannot create scope without agent context"),
            ),
        ),
    }
}

/// The scope that work on message `id` runs under: the current scope with
/// its message replaced. Refused outside any scope.
pub fn scope_with_message_id(current: Option<RuntimeScope>, id: MessageId) -> (r: Result<RuntimeScope, BamlRtError>)
    ensures
        match current {
            Some(s) => r matches Ok(n) && n@ == (RuntimeScopeView { message_id: Some(id@), ..s@ }),
            None => r matches Err(BamlRtError::InvalidArgument(m)) && m@ == no_scope_message(),
        },
{
    match current {
        Some(s) => Ok(RuntimeScope::new(s.context_id, s.agent_id, Some(id), s.task_id)),
        None => Err(
            BamlRtError::InvalidArgument(
                String::from_str("RuntimeScope must exist with agent_id - cannot create scope without agent context"),
            ),
        ),
    }
}

/// The scope that work on task `id` runs under: the current scope with its
/// task replaced. Refused outside any scope.
pub fn scope_with_task_id(current: Option<RuntimeScope>, id: TaskId) -> (r: Result<RuntimeScope, BamlRtError>)
    ensures
        match current {
            Some(s) => r matches Ok(n) && n@ == (RuntimeScopeView { task_id: Some(id@), ..s@ }),
            None => r matches Err(BamlRtError::InvalidArgument(m)) && m@ == no_scope_message(),
        },
{
    match current {
        Some(s) => Ok(RuntimeScope::new(s.context_id, s.agent_id, s.message_id, Some(id))),
        None => Err(
            BamlRtError::InvalidArgument(
                String::from_str("RuntimeScope must exist with agent_id - cannot create scope without agent context"),
            ),
        ),
    }
}

/// The scope that work of agent `id` runs under: the current scope with its
/// agent replaced; outside any scope, a fresh scope with no message and no
/// task, whose context id is drawn from `counter` with the clock reading
/// `elapsed_millis`. Inside a scope the counter is left as it is.
pub fn scope_with_agent_id(
    current: Option<RuntimeScope>,
    id: AgentId,
    counter: &mut ContextCounter,
    elapsed_millis: Option<u64>,
) -> (r: RuntimeScope)
    ensures
        current matches Some(s) ==> r@ == (RuntimeScopeView { agent_id: id@, ..s@ }) && final(counter)@
            == old(counter)@,
        current is None ==> r@ == (RuntimeScopeView {
            context_id: context_id_text(millis_or_zero(elapsed_millis), old(counter)@),
            agent_id: id@,
            message_id: None,
            task_id: None,
        }) && final(counter)@ == next_counter(old(counter)@),
{
    match current {
        Some(mut s) => {
            s.agent_id = id;
            s
        },
        None => {
            let c = generate_context_id(counter, elapsed_millis);
            RuntimeScope::new(c, id, None, None)
        },
    }
}

/// The context of the current scope, leaving the counter as it is; outside
/// any scope, a context id drawn from `counter` with the clock reading
/// `elapsed_millis`.
pub fn current_or_new(
    scope: &Option<RuntimeScope>,
    counter: &mut ContextCounter,
    elapsed_millis: Option<u64>,
) -> (r: ContextId)
    ensures
        scope matches Some(s) ==> r@ == s@.context_id && final(counter)@ == old(counter)@,
        scope is None ==> r@ == context_id_text(millis_or_zero(elapsed_millis), old(counter)@)
            && final(counter)@ == next_counter(old(counter)@),
{
    match scope {
        Some(s) => s.context_id.clone(),
        None => generate_context_id(counter, elapsed_millis),
    }
}

} // verus!

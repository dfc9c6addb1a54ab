//! Identifiers of agents, contexts, messages and tasks.

use vstd::prelude::*;
use crate::decimal::{decimal, format_u64, is_digit, lemma_decimal_digits, lemma_decimal_injective};

verus! {

/// The id of a conversation context.
#[derive(Debug, PartialEq, Eq, Hash)]
pub struct ContextId(String);

/// The id of an agent.
#[derive(Debug, PartialEq, Eq, Hash)]
pub struct AgentId(String);

/// The id of a message.
#[derive(Debug, PartialEq, Eq, Hash)]
pub struct MessageId(String);

/// The id of a task.
#[derive(Debug, PartialEq, Eq, Hash)]
pub struct TaskId(String);

/// The text of a context id made from a clock reading and a counter.
pub open spec fn context_id_text(millis: u64, counter: u64) -> Seq<char> {
    "ctx-"@ + decimal(millis as nat) + "-"@ + decimal(counter as nat)
}

/// Context ids of different clock readings or different counters differ:
/// the text determines both numbers.
pub proof fn lemma_context_id_text_injective(m1: u64, c1: u64, m2: u64, c2: u64)
    requires
        m1 != m2 || c1 != c2,
    ensures
        context_id_text(m1, c1) != context_id_text(m2, c2),
{
    reveal_strlit("ctx-");
    reveal_strlit("-");
    let a = decimal(m1 as nat);
    let b = decimal(m2 as nat);
    lemma_decimal_digits(m1 as nat);
    lemma_decimal_digits(m2 as nat);
    lemma_decimal_digits(c1 as nat);
    lemma_decimal_digits(c2 as nat);
    let t1 = context_id_text(m1, c1);
    let t2 = context_id_text(m2, c2);
    if t1 == t2 {
        let k1: int = 4 + a.len() as int;
        let k2: int = 4 + b.len() as int;
        assert(t1[k1] == '-');
        assert(t2[k2] == '-');
        if k1 < k2 {
            assert(t2[k1] == b[k1 - 4]);
            assert(is_digit(b[k1 - 4]));
        } else if k2 < k1 {
            assert(t1[k2] == a[k2 - 4]);
            assert(is_digit(a[k2 - 4]));
        }
        assert(a =~= t1.subrange(4, k1));
        assert(b =~= t2.subrange(4, k2));
        lemma_decimal_injective(m1 as nat, m2 as nat);
        assert(decimal(c1 as nat) =~= t1.subrange(k1 + 1, t1.len() as int));
        assert(decimal(c2 as nat) =~= t2.subrange(k2 + 1, t2.len() as int));
        lemma_decimal_injective(c1 as nat, c2 as nat);
    }
}

impl View for ContextId {
    type V = Seq<char>;

    closed spec fn view(&self) -> Seq<char> {
        self.0@
    }
}

impl DeepView for ContextId {
    type V = Seq<char>;

    open spec fn deep_view(&self) -> Seq<char> {
        self@
    }
}

impl Clone for ContextId {
    fn clone(&self) -> (r: Self)
        ensures
            r@ == self@,
    {
        ContextId(self.0.clone())
    }
}

impl ContextId {
    /// The context id of a clock reading in milliseconds and a sequence number.
    pub fn new(millis: u64, counter: u64) -> (r: ContextId)
        ensures
            r@ == context_id_text(millis, counter),
    {
        let mut s = String::from_str("ctx-");
        let m = format_u64(millis);
        s.append(m.as_str());
        s.append("-");
        let c = format_u64(counter);
        s.append(c.as_str());
        ContextId(s)
    }

    /// A context id with the given text.
    pub fn from_text(text: String) -> (r: ContextId)
        ensures
            r@ == text@,
    {
        ContextId(text)
    }

    /// The id's text.
    pub fn as_str(&self) -> (r: &str)
        ensures
            r@ == self@,
    {
        self.0.as_str()
    }
}

impl View for AgentId {
    type V = Seq<char>;

    closed spec fn view(&self) -> Seq<char> {
        self.0@
    }
}

impl DeepView for AgentId {
    type V = Seq<char>;

    open spec fn deep_view(&self) -> Seq<char> {
        self@
    }
}

impl Clone for AgentId {
    fn clone(&self) -> (r: Self)
        ensures
            r@ == self@,
    {
        AgentId(self.0.clone())
    }
}

impl AgentId {
    /// An agent id with the given text.
    pub fn new(text: String) -> (r: AgentId)
        ensures
            r@ == text@,
    {
        AgentId(text)
    }

    /// The id's text.
    pub fn as_str(&self) -> (r: &str)
        ensures
            r@ == self@,
    {
        self.0.as_str()
    }
}

impl View for MessageId {
    type V = Seq<char>;

    closed spec fn view(&self) -> Seq<char> {
        self.0@
    }
}

impl DeepView for MessageId {
    type V = Seq<char>;

    open spec fn deep_view(&self) -> Seq<char> {
        self@
    }
}

impl Clone for MessageId {
    fn clone(&self) -> (r: Self)
        ensures
            r@ == self@,
    {
        MessageId(self.0.clone())
    }
}

impl MessageId {
    /// A message id with the given text.
    pub fn new(text: String) -> (r: MessageId)
        ensures
            r@ == text@,
    {
        MessageId(text)
    }

    /// The id's text.
    pub fn as_str(&self) -> (r: &str)
        ensures
            r@ == self@,
    {
        self.0.as_str()
    }
}

impl View for TaskId {
    type V = Seq<char>;

    closed spec fn view(&self) -> Seq<char> {
        self.0@
    }
}

impl DeepView for TaskId {
    type V = Seq<char>;

    open spec fn deep_view(&self) -> Seq<char> {
        self@
    }
}

impl Clone for TaskId {
    fn clone(&self) -> (r: Self)
        ensures
            r@ == self@,
    {
        TaskId(self.0.clone())
    }
}

impl TaskId {
    /// A task id with the given text.
    pub fn new(text: String) -> (r: TaskId)
        ensures
            r@ == text@,
    {
        TaskId(text)
    }

    /// The id's text.
    pub fn as_str(&self) -> (r: &str)
        ensures
            r@ == self@,
    {
        self.0.as_str()
    }
}

} // verus!

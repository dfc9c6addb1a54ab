//! Scope attributes for spans and log lines.

use vstd::prelude::*;
use crate::context::RuntimeScope;

verus! {

/// The parts of a scope summary: each id that is present, labelled, in the
/// order context, message, task.
pub open spec fn summary_parts(
    context_id: Option<Seq<char>>,
    message_id: Option<Seq<char>>,
    task_id: Option<Seq<char>>,
) -> Seq<Seq<char>> {
    let a = match context_id {
        Some(c) => seq!["context_id="@ + c],
        None => Seq::empty(),
    };
    let b = match message_id {
        Some(m) => seq!["message_id="@ + m],
        None => Seq::empty(),
    };
    let c = match task_id {
        Some(t) => seq!["task_id="@ + t],
        None => Seq::empty(),
    };
    a + b + c
}

/// Texts joined with a separator between neighbours.
pub open spec fn joined(parts: Seq<Seq<char>>, sep: Seq<char>) -> Seq<char>
    decreases parts.len(),
{
    if parts.len() == 0 {
        Seq::empty()
    } else if parts.len() == 1 {
        parts[0]
    } else {
        joined(parts.drop_last(), sep) + sep + parts.last()
    }
}

/// The summary line of a scope's ids: the labelled ids joined by commas, or
/// `no_scope` where there is none.
pub open spec fn summary_text(
    context_id: Option<Seq<char>>,
    message_id: Option<Seq<char>>,
    task_id: Option<Seq<char>>,
) -> Seq<char> {
    let parts = summary_parts(context_id, message_id, task_id);
    if parts.len() == 0 {
        "no_scope"@
    } else {
        joined(parts, ", "@)
    }
}

/// The context, message and task id of the scope as text, each where present.
pub fn scope_attributes(scope: &Option<RuntimeScope>) -> (r: (Option<String>, Option<String>, Option<String>))
    ensures
        r.0.deep_view() == (match scope {
            Some(s) => Some(s@.context_id),
            None => None,
        }),
        r.1.deep_view() == (match scope {
            Some(s) => s@.message_id,
            None => None,
        }),
        r.2.deep_view() == (match scope {
            Some(s) => s@.task_id,
            None => None,
        }),
{
    match scope {
        Some(s) => {
            let c = Some(String::from_str(s.context_id.as_str()));
            let m = match &s.message_id {
                Some(id) => Some(String::from_str(id.as_str())),
                None => None,
            };
            let t = match &s.task_id {
                Some(id) => Some(String::from_str(id.as_str())),
                None => None,
            };
            (c, m, t)
        },
        None => (None, None, None),
    }
}

fn labelled(label: &str, value: &Option<String>, parts: &mut Vec<String>)
    ensures
        final(parts)@.len() == old(parts)@.len() + (if value is Some { 1int } else { 0int }),
        forall|i: int| 0 <= i < old(parts)@.len() ==> #[trigger] final(parts)@[i] == old(parts)@[i],
        value matches Some(v) ==> final(parts)@[old(parts)@.len() as int]@ == label@ + v@,
{
    match value {
        Some(v) => {
            let mut s = String::from_str(label);
            s.append(v.as_str());
            parts.push(s);
        },
        None => {},
    }
}

/// The summary line of the scope's ids, for log messages.
pub fn scope_summary(scope: &Option<RuntimeScope>) -> (r: String)
    ensures
        r@ == (match scope {
            Some(s) => summary_text(Some(s@.context_id), s@.message_id, s@.task_id),
            None => summary_text(None, None, None),
        }),
{
    let (ctx, msg, task) = scope_attributes(scope);
    let ghost target = summary_parts(ctx.deep_view(), msg.deep_view(), task.deep_view());
    let mut parts: Vec<String> = Vec::new();
    labelled("context_id=", &ctx, &mut parts);
    labelled("message_id=", &msg, &mut parts);
    labelled("task_id=", &task, &mut parts);
    proof {
        let v = parts@.map_values(|p: String| p@);
        assert(v =~= target);
    }
    if parts.len() == 0 {
        return String::from_str("no_scope");
    }
    let mut r = parts[0].clone();
    let n = parts.len();
    let mut i: usize = 1;
    while i < n
        invariant
            1 <= i <= n,
            n == parts@.len(),
            target == parts@.map_values(|p: String| p@),
            r@ == joined(target.take(i as int), ", "@),
        decreases n - i,
    {
        r.append(", ");
        r.append(parts[i].as_str());
        proof {
            assert(target.take(i + 1).drop_last() =~= target.take(i as int));
        }
        i = i + 1;
    }
    proof {
        assert(target.take(n as int) =~= target);
        assert(target.take(1) =~= seq![target[0]]);
    }
    r
}

} // verus!

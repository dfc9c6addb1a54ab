//! The decisions of the A2A request handler: which endpoint a request goes
//! to, how the handler's streamed values are read, how a stream is stored,
//! and which JSON-RPC replies answer the outcome. The host performs the
//! JavaScript calls and sends the replies.

use vstd::prelude::*;
use vstd::string::*;
use crate::a2a_store::{TaskStore, TaskStoreView, TaskUpdateEvent, TaskUpdateEventView};
use crate::a2a_transport::{
    jsonrpc_error_of, map_jsonrpc_error, result_outcome, store_a2a_result, str_equal, A2aResult,
    A2aResultView, JsonRpcError, JsonRpcErrorView,
};
use crate::error::BamlRtError;

verus! {

/// The A2A methods that the handler answers itself; any other method goes
/// to the JavaScript handler.
#[derive(Debug, Clone, Copy, PartialEq, Eq, Structural)]
pub enum A2aMethodKind {
    TasksGet,
    TasksList,
    TasksCancel,
    TasksSubscribe,
    Other,
}

/// The kind of an A2A method name.
pub open spec fn method_kind_of(method: Seq<char>) -> A2aMethodKind {
    if method == "tasks.get"@ {
        A2aMethodKind::TasksGet
    } else if method == "tasks.list"@ {
        A2aMethodKind::TasksList
    } else if method == "tasks.cancel"@ {
        A2aMethodKind::TasksCancel
    } else if method == "tasks.subscribe"@ {
        A2aMethodKind::TasksSubscribe
    } else {
        A2aMethodKind::Other
    }
}

/// Reads an A2A method name.
pub fn a2a_method_kind(method: &str) -> (r: A2aMethodKind)
    ensures
        r == method_kind_of(method@),
{
    if str_equal(method, "tasks.get") {
        A2aMethodKind::TasksGet
    } else if str_equal(method, "tasks.list") {
        A2aMethodKind::TasksList
    } else if str_equal(method, "tasks.cancel") {
        A2aMethodKind::TasksCancel
    } else if str_equal(method, "tasks.subscribe") {
        A2aMethodKind::TasksSubscribe
    } else {
        A2aMethodKind::Other
    }
}

/// Whether a request asks for a stream: its method ends in `Stream`, or its
/// parameters carry `stream: true`.
pub open spec fn is_stream_request(method: Seq<char>, stream_param: Option<bool>) -> bool {
    ||| (method.len() >= 6 && method.subrange(method.len() - 6, method.len() as int) == "Stream"@)
    ||| stream_param == Some(true)
}

/// Reads whether a request asks for a stream.
pub fn request_is_stream(method: &str, stream_param: Option<bool>) -> (r: bool)
    ensures
        r == is_stream_request(method@, stream_param),
{
    if stream_param == Some(true) {
        return true;
    }
    let n = method.unicode_len();
    if n < 6 {
        return false;
    }
    str_equal(method.substring_char(n - 6, n), "Stream")
}

/// Where a request is handled.
#[derive(Debug, Clone, Copy, PartialEq, Eq, Structural)]
pub enum A2aRoute {
    TasksGet,
    TasksList,
    TasksCancel,
    TasksSubscribe { is_stream: bool },
    /// The JavaScript handler, whose result is a stream of chunks.
    InvokeStream,
    /// The JavaScript handler, whose result is one value.
    InvokeOnce,
}

/// The route of a request: the task methods to their endpoints, any other
/// method to the JavaScript handler, streamed exactly when the request asks
/// for a stream.
pub open spec fn route_spec(method: A2aMethodKind, is_stream: bool) -> A2aRoute {
    match method {
        A2aMethodKind::TasksGet => A2aRoute::TasksGet,
        A2aMethodKind::TasksList => A2aRoute::TasksList,
        A2aMethodKind::TasksCancel => A2aRoute::TasksCancel,
        A2aMethodKind::TasksSubscribe => A2aRoute::TasksSubscribe { is_stream },
        A2aMethodKind::Other => if is_stream {
            A2aRoute::InvokeStream
        } else {
            A2aRoute::InvokeOnce
        },
    }
}

/// Routes a request.
pub fn route_a2a(method: A2aMethodKind, is_stream: bool) -> (r: A2aRoute)
    ensures
        r == route_spec(method, is_stream),
{
    match method {
        A2aMethodKind::TasksGet => A2aRoute::TasksGet,
        A2aMethodKind::TasksList => A2aRoute::TasksList,
        A2aMethodKind::TasksCancel => A2aRoute::TasksCancel,
        A2aMethodKind::TasksSubscribe => A2aRoute::TasksSubscribe { is_stream },
        A2aMethodKind::Other => if is_stream {
            A2aRoute::InvokeStream
        } else {
            A2aRoute::InvokeOnce
        },
    }
}

/// How the value that the JavaScript handler returned for a stream is read.
#[derive(Debug, Clone, Copy, PartialEq, Eq, Structural)]
pub enum StreamSource {
    /// An array: each element is one chunk.
    Elements,
    /// Any other value that is not an error: it is the one chunk.
    Single,
}

/// Reads the handler's value for a stream, given whether it is an array and,
/// where it is an object with an `error` field, that field's text (`None`
/// for a field that is not a string). An error field fails the request with
/// its text, or "unknown".
pub fn stream_source(is_array: bool, error_field: Option<Option<String>>) -> (r: Result<StreamSource, BamlRtError>)
    ensures
        is_array ==> r == Ok::<StreamSource, BamlRtError>(StreamSource::Elements),
        !is_array ==> match error_field {
            None => r == Ok::<StreamSource, BamlRtError>(StreamSource::Single),
            Some(Some(s)) => r matches Err(BamlRtError::QuickJs(m)) && m@ == s@,
            Some(None) => r matches Err(BamlRtError::QuickJs(m)) && m@ == "unknown"@,
        },
{
    if is_array {
        return Ok(StreamSource::Elements);
    }
    match error_field {
        None => Ok(StreamSource::Single),
        Some(Some(s)) => Err(BamlRtError::QuickJs(s)),
        Some(None) => Err(BamlRtError::QuickJs(String::from_str("unknown"))),
    }
}

/// The abstract values of a sequence of handler results.
pub open spec fn results_view(rs: Seq<A2aResult>) -> Seq<A2aResultView> {
    rs.map_values(|r: A2aResult| r@)
}

/// The store after a stream of handler results, each applied in order, and
/// the update events they produce, in order.
pub open spec fn results_outcome(v: TaskStoreView, rs: Seq<A2aResultView>) -> (TaskStoreView, Seq<TaskUpdateEventView>)
    decreases rs.len(),
{
    if rs.len() == 0 {
        (v, Seq::empty())
    } else {
        let (v1, e1) = results_outcome(v, rs.drop_last());
        let (v2, e2) = result_outcome(v1, rs.last());
        (v2, e1 + e2)
    }
}

/// Stores each chunk of a stream in order and returns the update events to
/// announce, in the order they were recorded.
pub fn store_stream_results(store: &mut TaskStore, results: Vec<A2aResult>) -> (r: Vec<TaskUpdateEvent>)
    ensures
        (final(store)@, r.deep_view()) == results_outcome(old(store)@, results_view(results@)),
{
    let ghost all = results_view(results@);
    let mut rest = results;
    let mut events: Vec<TaskUpdateEvent> = Vec::new();
    let n = rest.len();
    let mut i: usize = 0;
    proof {
        assert(all.take(0) =~= Seq::<A2aResultView>::empty());
        assert(events.deep_view() =~= Seq::<TaskUpdateEventView>::empty());
    }
    while i < n
        invariant
            n == all.len(),
            i <= n,
            rest@.len() == n - i,
            results_view(rest@) =~= all.skip(i as int),
            (store@, events.deep_view()) == results_outcome(old(store)@, all.take(i as int)),
        decreases n - i,
    {
        let ghost before = rest@;
        let r = rest.remove(0);
        proof {
            assert(results_view(before)[0] == r@);
            assert(results_view(rest@) =~= results_view(before).skip(1));
            assert(all.take(i + 1).drop_last() =~= all.take(i as int));
            assert(all.take(i + 1).last() == all[i as int]);
            assert(all.skip(i as int)[0] == all[i as int]);
        }
        let mut more = store_a2a_result(store, r);
        events.append(&mut more);
        i = i + 1;
        proof {
            assert(all.skip((i - 1) as int).skip(1) =~= all.skip(i as int));
        }
    }
    proof {
        assert(all.take(n as int) =~= all);
    }
    events
}

/// What a request came to, as the replies need it: one result, or a stream
/// of the given number of chunks.
#[derive(Debug, Clone, Copy, PartialEq, Eq, Structural)]
pub enum OutcomeShape {
    Response,
    Stream(usize),
}

/// One JSON-RPC reply to send.
#[derive(Debug)]
pub enum ReplyPlan {
    /// The success reply carrying the single result.
    Success,
    /// The reply carrying stream chunk `index`; `is_final` on the last one.
    Chunk { index: usize, is_final: bool },
    /// The error reply.
    Error(JsonRpcError),
}

/// Abstract value of a reply.
pub enum ReplyPlanView {
    Success,
    Chunk { index: int, is_final: bool },
    Error(JsonRpcErrorView),
}

impl View for ReplyPlan {
    type V = ReplyPlanView;

    open spec fn view(&self) -> ReplyPlanView {
        match self {
            ReplyPlan::Success => ReplyPlanView::Success,
            ReplyPlan::Chunk { index, is_final } => ReplyPlanView::Chunk { index: *index as int, is_final: *is_final },
            ReplyPlan::Error(e) => ReplyPlanView::Error(e@),
        }
    }
}

impl DeepView for ReplyPlan {
    type V = ReplyPlanView;

    open spec fn deep_view(&self) -> ReplyPlanView {
        self@
    }
}

/// The replies that answer an outcome: one success reply; or one reply per
/// stream chunk, in order, the last one final; or one error reply.
pub fn plan_replies(outcome: Result<OutcomeShape, BamlRtError>) -> (r: Vec<ReplyPlan>)
    ensures
        outcome matches Ok(OutcomeShape::Response) ==> r.deep_view() == seq![ReplyPlanView::Success],
        outcome matches Ok(OutcomeShape::Stream(n)) ==> r.len() == n && forall|i: int|
            0 <= i < n ==> #[trigger] r.deep_view()[i] == (ReplyPlanView::Chunk {
                index: i,
                is_final: i + 1 == n,
            }),
        outcome matches Err(e) ==> r.deep_view() == seq![ReplyPlanView::Error(jsonrpc_error_of(e))],
{
    let mut replies: Vec<ReplyPlan> = Vec::new();
    match outcome {
        Ok(OutcomeShape::Response) => {
            replies.push(ReplyPlan::Success);
            proof {
                assert(replies.deep_view() =~= seq![ReplyPlanView::Success]);
            }
        },
        Ok(OutcomeShape::Stream(n)) => {
            let mut i: usize = 0;
            while i < n
                invariant
                    i <= n,
                    replies.len() == i,
                    forall|j: int|
                        0 <= j < i ==> #[trigger] replies.deep_view()[j] == (ReplyPlanView::Chunk {
                            index: j,
                            is_final: j + 1 == n,
                        }),
                decreases n - i,
            {
                let ghost prev = replies.deep_view();
                replies.push(ReplyPlan::Chunk { index: i, is_final: i + 1 == n });
                proof {
                    assert(replies.deep_view() =~= prev.push(
                        ReplyPlanView::Chunk { index: i as int, is_final: i + 1 == n },
                    ));
                }
                i = i + 1;
            }
        },
        Err(e) => {
            replies.push(ReplyPlan::Error(map_jsonrpc_error(&e)));
            proof {
                assert(replies.deep_view() =~= seq![ReplyPlanView::Error(jsonrpc_error_of(e))]);
            }
        },
    }
    replies
}

} // verus!

//! The decisions of the A2A request handler: what a handler result does to
//! the task store, how `tasks.*` requests are answered from the store, and
//! how errors become JSON-RPC errors. Reading and writing JSON, the
//! JavaScript bridge and the broadcast of events stay with the host.

use vstd::prelude::*;
use crate::a2a_store::{
    list_page_size, list_start,
    artifact_event, canceled, event_task_id, status_event, TaskStore, TaskStoreView,
    TaskUpdateEvent, TaskUpdateEventView,
};
use crate::a2a_types::{
    Artifact, ArtifactEventView, ArtifactView, Message, MessageView, SendMessageResponse,
    SendMessageResponseView, StatusEventView, StreamResponse, StreamResponseView, Task,
    TaskArtifactUpdateEvent, TaskStatusUpdateEvent, TaskView, clone_status, CancelTaskRequest,
    GetTaskRequest, ListTasksRequest, SubscribeToTaskRequest, int_as_usize, int_as_usize_spec, no_fields,
};
use crate::decimal::parse_usize;
use crate::error::{error_message, BamlRtError};

verus! {

/// The store after recording each event, in order, under its task id.
pub open spec fn record_all(v: TaskStoreView, events: Seq<TaskUpdateEventView>) -> TaskStoreView
    decreases events.len(),
{
    if events.len() == 0 {
        v
    } else {
        record_all(v, events.drop_last()).recorded(event_task_id(events.last())->0, events.last())
    }
}

/// The events that storing a task produces: its status, then one event per
/// artifact; none for a task without id.
pub open spec fn task_events(t: TaskView) -> Seq<TaskUpdateEventView> {
    match t.id {
        Some(k) => {
            let s = match t.status {
                Some(st) => seq![status_event(k, t.context_id, st)],
                None => Seq::empty(),
            };
            s + t.artifacts.map_values(|a: ArtifactView| artifact_event(k, t.context_id, a, Some(false), Some(true)))
        },
        None => Seq::empty(),
    }
}

/// Storing an optional task: the store after it and the events produced.
pub open spec fn step_task(v: TaskStoreView, t: Option<TaskView>) -> (TaskStoreView, Seq<TaskUpdateEventView>) {
    match t {
        Some(t) => (record_all(v.upserted(t), task_events(t)), task_events(t)),
        None => (v, Seq::empty()),
    }
}

/// Storing an optional message.
pub open spec fn step_message(v: TaskStoreView, m: Option<MessageView>) -> TaskStoreView {
    match m {
        Some(m) => v.with_message(m),
        None => v,
    }
}

/// The event that a streamed status update produces, where it carries a
/// status and a task id.
pub open spec fn status_update_events(su: Option<StatusEventView>) -> Seq<TaskUpdateEventView> {
    match su {
        Some(e) => match (e.status, e.task_id) {
            (Some(st), Some(k)) => seq![status_event(k, e.context_id, st)],
            _ => Seq::empty(),
        },
        None => Seq::empty(),
    }
}

/// An artifact with no id, no name and no parts.
pub open spec fn empty_artifact() -> ArtifactView {
    ArtifactView { artifact_id: None, name: None, parts: Seq::empty(), metadata: None, extra: Seq::empty() }
}

/// The event that a streamed artifact update produces, where it carries a
/// task id.
pub open spec fn artifact_update_events(au: Option<ArtifactEventView>) -> Seq<TaskUpdateEventView> {
    match au {
        Some(e) => match e.task_id {
            Some(k) => seq![artifact_event(
                k,
                e.context_id,
                match e.artifact {
                    Some(a) => a,
                    None => empty_artifact(),
                },
                e.append,
                e.last_chunk,
            )],
            None => Seq::empty(),
        },
        None => Seq::empty(),
    }
}

/// What a result of the JavaScript handler is, once read.
#[derive(Debug)]
pub enum A2aResult {
    Stream(StreamResponse),
    Send(SendMessageResponse),
    Task(Task),
    Unrecognized,
}

/// Abstract value of a handler result.
pub enum A2aResultView {
    Stream(StreamResponseView),
    Send(SendMessageResponseView),
    Task(TaskView),
    Unrecognized,
}

impl View for A2aResult {
    type V = A2aResultView;

    open spec fn view(&self) -> A2aResultView {
        match self {
            A2aResult::Stream(s) => A2aResultView::Stream(s@),
            A2aResult::Send(s) => A2aResultView::Send(s@),
            A2aResult::Task(t) => A2aResultView::Task(t@),
            A2aResult::Unrecognized => A2aResultView::Unrecognized,
        }
    }
}

/// The store after a handler result and the events it produces, in order.
pub open spec fn result_outcome(v: TaskStoreView, r: A2aResultView) -> (TaskStoreView, Seq<TaskUpdateEventView>) {
    match r {
        A2aResultView::Stream(s) => {
            let (v1, e1) = step_task(v, s.task);
            let v2 = step_message(v1, s.message);
            let e2 = status_update_events(s.status_update);
            let e3 = artifact_update_events(s.artifact_update);
            (record_all(record_all(v2, e2), e3), e1 + e2 + e3)
        },
        A2aResultView::Send(s) => {
            let (v1, e1) = step_task(v, s.task);
            (step_message(v1, s.message), e1)
        },
        A2aResultView::Task(t) => step_task(v, Some(t)),
        A2aResultView::Unrecognized => (v, Seq::empty()),
    }
}

/// Reads a handler result by precedence: a stream chunk where the value
/// carries a status or artifact update and reads as one, else a send result,
/// else a stream chunk, else a task.
pub fn select_a2a_result(
    has_update_key: bool,
    as_stream: Option<StreamResponse>,
    as_send: Option<SendMessageResponse>,
    as_task: Option<Task>,
) -> (r: A2aResult)
    ensures
        r@ == (if has_update_key && as_stream is Some {
            A2aResultView::Stream(as_stream->0@)
        } else if as_send is Some {
            A2aResultView::Send(as_send->0@)
        } else if as_stream is Some {
            A2aResultView::Stream(as_stream->0@)
        } else if as_task is Some {
            A2aResultView::Task(as_task->0@)
        } else {
            A2aResultView::Unrecognized
        }),
{
    if has_update_key && as_stream.is_some() {
        match as_stream {
            Some(s) => A2aResult::Stream(s),
            None => A2aResult::Unrecognized,
        }
    } else {
        match as_send {
            Some(s) => A2aResult::Send(s),
            None => match as_stream {
                Some(s) => A2aResult::Stream(s),
                None => match as_task {
                    Some(t) => A2aResult::Task(t),
                    None => A2aResult::Unrecognized,
                },
            },
        }
    }
}

proof fn lemma_record_all_push(v: TaskStoreView, events: Seq<TaskUpdateEventView>, e: TaskUpdateEventView)
    ensures
        record_all(v, events.push(e)) == record_all(v, events).recorded(event_task_id(e)->0, e),
{
    assert(events.push(e).drop_last() =~= events);
}

proof fn lemma_record_all_append(v: TaskStoreView, a: Seq<TaskUpdateEventView>, b: Seq<TaskUpdateEventView>)
    ensures
        record_all(record_all(v, a), b) == record_all(v, a + b),
    decreases b.len(),
{
    if b.len() == 0 {
        assert(a + b =~= a);
    } else {
        lemma_record_all_append(v, a, b.drop_last());
        assert((a + b).drop_last() =~= a + b.drop_last());
        assert((a + b).last() == b.last());
    }
}

/// Records one artifact event per artifact of task `task_id`, each a whole
/// chunk, and returns the events.
pub fn emit_artifact_updates(
    store: &mut TaskStore,
    task_id: &String,
    context_id: &Option<String>,
    artifacts: &Vec<Artifact>,
) -> (r: Vec<TaskUpdateEvent>)
    ensures
        r.deep_view() == artifacts.deep_view().map_values(
            |a: ArtifactView| artifact_event(task_id@, context_id.deep_view(), a, Some(false), Some(true)),
        ),
        final(store)@ == record_all(old(store)@, r.deep_view()),
{
    let ghost start = store@;
    let ghost target = artifacts.deep_view().map_values(
        |a: ArtifactView| artifact_event(task_id@, context_id.deep_view(), a, Some(false), Some(true)),
    );
    let mut events: Vec<TaskUpdateEvent> = Vec::new();
    let n = artifacts.len();
    let mut i: usize = 0;
    while i < n
        invariant
            n == artifacts.len(),
            i <= n,
            target == artifacts.deep_view().map_values(
                |a: ArtifactView| artifact_event(task_id@, context_id.deep_view(), a, Some(false), Some(true)),
            ),
            events.deep_view() =~= target.take(i as int),
            store@ == record_all(start, events.deep_view()),
        decreases n - i,
    {
        let ghost before = events.deep_view();
        let ev = store.record_artifact_update(
            Some(task_id.clone()),
            context_id.clone(),
            artifacts[i].clone(),
            Some(false),
            Some(true),
        );
        match ev {
            Some(e) => {
                events.push(e);
                proof {
                    assert(events.deep_view() =~= before.push(target[i as int]));
                    assert(target.take(i + 1) =~= target.take(i as int).push(target[i as int]));
                    lemma_record_all_push(start, before, target[i as int]);
                }
            },
            None => {},
        }
        i = i + 1;
    }
    proof {
        assert(target.take(n as int) =~= target);
    }
    events
}

/// Stores a task, then records its status and its artifacts as events.
pub fn record_task(store: &mut TaskStore, task: Task) -> (r: Vec<TaskUpdateEvent>)
    ensures
        (final(store)@, r.deep_view()) == step_task(old(store)@, Some(task@)),
{
    let status = clone_status(&task.status);
    let context_id = task.context_id.clone();
    let task_id = task.id.clone();
    let artifacts = crate::a2a_types::clone_artifacts(&task.artifacts);
    let ghost tv = task@;
    store.upsert(task);
    let ghost after_upsert = store@;
    let mut events: Vec<TaskUpdateEvent> = Vec::new();
    match status {
        Some(status) => {
            let ev = store.record_status_update(task_id.clone(), context_id.clone(), status);
            match ev {
                Some(e) => {
                    events.push(e);
                    proof {
                        assert(events.deep_view() =~= seq![status_event(tv.id->0, tv.context_id, tv.status->0)]);
                        lemma_record_all_push(after_upsert, Seq::empty(), events.deep_view()[0]);
                        assert(Seq::<TaskUpdateEventView>::empty().push(events.deep_view()[0]) =~= events.deep_view());
                    }
                },
                None => {
                    proof {
                        assert(events.deep_view() =~= Seq::<TaskUpdateEventView>::empty());
                    }
                },
            }
        },
        None => {
            proof {
                assert(events.deep_view() =~= Seq::<TaskUpdateEventView>::empty());
            }
        },
    }
    let ghost status_events = events.deep_view();
    assert(store@ == record_all(after_upsert, status_events));
    match &task_id {
        Some(id) => {
            let mut more = emit_artifact_updates(store, id, &context_id, &artifacts);
            let ghost more_v = more.deep_view();
            events.append(&mut more);
            proof {
                lemma_record_all_append(after_upsert, status_events, more_v);
                assert(events.deep_view() =~= status_events + more_v);
                assert(events.deep_view() =~= task_events(tv));
            }
        },
        None => {
            proof {
                assert(events.deep_view() =~= task_events(tv));
            }
        },
    }
    events
}

fn record_message(store: &mut TaskStore, message: &Option<Message>)
    ensures
        final(store)@ == step_message(old(store)@, message.deep_view()),
{
    match message {
        Some(m) => store.insert_message(m),
        None => {},
    }
}

fn record_optional_task(store: &mut TaskStore, task: Option<Task>) -> (r: Vec<TaskUpdateEvent>)
    ensures
        (final(store)@, r.deep_view()) == step_task(old(store)@, task.deep_view()),
{
    match task {
        Some(t) => record_task(store, t),
        None => {
            let r: Vec<TaskUpdateEvent> = Vec::new();
            proof {
                assert(r.deep_view() =~= Seq::<TaskUpdateEventView>::empty());
            }
            r
        },
    }
}

/// Applies a handler result to the store and returns the update events to
/// announce, in the order they were recorded.
pub fn store_a2a_result(store: &mut TaskStore, result: A2aResult) -> (r: Vec<TaskUpdateEvent>)
    ensures
        (final(store)@, r.deep_view()) == result_outcome(old(store)@, result@),
{
    let ghost rv = result@;
    match result {
        A2aResult::Stream(s) => {
            let StreamResponse { task, message, status_update, artifact_update, .. } = s;
            let mut events = record_optional_task(store, task);
            let ghost e1 = events.deep_view();
            record_message(store, &message);
            let ghost v2 = store@;
            let mut status_events: Vec<TaskUpdateEvent> = Vec::new();
            match status_update {
                Some(TaskStatusUpdateEvent { task_id, context_id, status: Some(status), .. }) => {
                    match store.record_status_update(task_id, context_id, status) {
                        Some(e) => status_events.push(e),
                        None => {},
                    }
                },
                _ => {},
            }
            proof {
                assert(status_events.deep_view() =~= status_update_events(rv->Stream_0.status_update));
                if status_events.len() > 0 {
                    lemma_record_all_push(v2, Seq::empty(), status_events.deep_view()[0]);
                    assert(Seq::<TaskUpdateEventView>::empty().push(status_events.deep_view()[0])
                        =~= status_events.deep_view());
                }
            }
            let ghost e2 = status_events.deep_view();
            let ghost v3 = store@;
            let mut artifact_events: Vec<TaskUpdateEvent> = Vec::new();
            match artifact_update {
                Some(TaskArtifactUpdateEvent { context_id, task_id, last_chunk, append, artifact, .. }) => {
                    let artifact = match artifact {
                        Some(a) => a,
                        None => Artifact::default(),
                    };
                    match store.record_artifact_update(task_id, context_id, artifact, append, last_chunk) {
                        Some(e) => artifact_events.push(e),
                        None => {},
                    }
                },
                None => {},
            }
            proof {
                assert(artifact_events.deep_view() =~= artifact_update_events(rv->Stream_0.artifact_update));
                if artifact_events.len() > 0 {
                    lemma_record_all_push(v3, Seq::empty(), artifact_events.deep_view()[0]);
                    assert(Seq::<TaskUpdateEventView>::empty().push(artifact_events.deep_view()[0])
                        =~= artifact_events.deep_view());
                }
            }
            let ghost e3 = artifact_events.deep_view();
            events.append(&mut status_events);
            events.append(&mut artifact_events);
            proof {
                assert(events.deep_view() =~= e1 + e2 + e3);
            }
            events
        },
        A2aResult::Send(s) => {
            let SendMessageResponse { task, message } = s;
            let events = record_optional_task(store, task);
            record_message(store, &message);
            events
        },
        A2aResult::Task(t) => record_task(store, t),
        A2aResult::Unrecognized => {
            let r: Vec<TaskUpdateEvent> = Vec::new();
            proof {
                assert(r.deep_view() =~= Seq::<TaskUpdateEventView>::empty());
            }
            r
        },
    }
}

/// The message of a request about an unknown task.
pub open spec fn task_not_found() -> Seq<char> {
    "Task not found"@
}

/// Answers `tasks.get`: the stored task, its history cut where a limit is
/// given; refused for an unknown task.
pub fn handle_tasks_get(store: &TaskStore, request: &GetTaskRequest) -> (r: Result<Task, BamlRtError>)
    ensures
        match store@.got(
            request.id@,
            match request.history_length {
                Some(v) => int_as_usize_spec(v),
                None => None,
            },
        ) {
            Some(t) => r matches Ok(x) && x@ == t,
            None => r matches Err(BamlRtError::InvalidArgument(m)) && m@ == task_not_found(),
        },
{
    let history_length = match request.history_length {
        Some(v) => int_as_usize(v),
        None => None,
    };
    match store.get(request.id.as_str(), history_length) {
        Some(t) => Ok(t),
        None => Err(BamlRtError::InvalidArgument(String::from_str("Task not found"))),
    }
}

/// Answers `tasks.cancel`: cancels the task and records its new status as an
/// event; returns the cancelled task and the events to announce. Refused for
/// an unknown task, which changes nothing.
pub fn handle_tasks_cancel(store: &mut TaskStore, request: &CancelTaskRequest) -> (r: Result<(Task, Vec<TaskUpdateEvent>), BamlRtError>)
    ensures
        match old(store)@.lookup(request.id@) {
            Some(t) => {
                let c = canceled(t);
                let e = status_event(request.id@, c.context_id, c.status->0);
                &&& r matches Ok((task, events)) && task@ == c && events.deep_view() == seq![e]
                &&& final(store)@ == old(store)@.canceled(request.id@).recorded(request.id@, e)
            },
            None => {
                &&& r matches Err(BamlRtError::InvalidArgument(m)) && m@ == task_not_found()
                &&& final(store)@ == old(store)@
            },
        },
{
    store.wf_holds();
    let ghost pre = store@;
    match store.cancel(request.id.as_str()) {
        Some(task) => {
            proof {
                let i = pre.task_index(request.id@);
                assert(pre.tasks[i].id == Some(request.id@));
            }
            let mut events: Vec<TaskUpdateEvent> = Vec::new();
            match clone_status(&task.status) {
                Some(status) => {
                    match store.record_status_update(task.id.clone(), task.context_id.clone(), status) {
                        Some(e) => events.push(e),
                        None => {},
                    }
                },
                None => {},
            }
            proof {
                assert(events.deep_view() =~= seq![status_event(
                    request.id@,
                    task@.context_id,
                    task@.status->0,
                )]);
            }
            Ok((task, events))
        },
        None => Err(BamlRtError::InvalidArgument(String::from_str("Task not found"))),
    }
}

/// The first chunk of a subscription: the task, with its current status as a
/// status update where it has one.
pub open spec fn snapshot_chunk(t: TaskView) -> StreamResponseView {
    StreamResponseView {
        task: Some(t),
        message: None,
        status_update: match t.status {
            Some(s) => Some(
                StatusEventView {
                    context_id: t.context_id,
                    task_id: t.id,
                    status: Some(s),
                    metadata: None,
                    extra: Seq::empty(),
                },
            ),
            None => None,
        },
        artifact_update: None,
        extra: Seq::empty(),
    }
}

/// The chunk that carries one recorded update.
pub open spec fn update_chunk(e: TaskUpdateEventView) -> StreamResponseView {
    match e {
        TaskUpdateEventView::Status(s) => StreamResponseView {
            task: None,
            message: None,
            status_update: Some(s),
            artifact_update: None,
            extra: Seq::empty(),
        },
        TaskUpdateEventView::Artifact(a) => StreamResponseView {
            task: None,
            message: None,
            status_update: None,
            artifact_update: Some(a),
            extra: Seq::empty(),
        },
    }
}

/// The answer to `tasks.subscribe`.
#[derive(Debug)]
pub enum SubscribeOutcome {
    /// The task as it stands.
    Snapshot(Task),
    /// The task as it stands, then each update recorded since the last drain.
    Stream(Vec<StreamResponse>),
}

/// Answers `tasks.subscribe`. Streaming, it hands out the task and then the
/// updates waiting for it, which it drains; otherwise it returns the task and
/// leaves the updates waiting. Refused for an unknown task.
pub fn handle_tasks_subscribe(store: &mut TaskStore, request: &SubscribeToTaskRequest, is_stream: bool) -> (r: Result<SubscribeOutcome, BamlRtError>)
    ensures
        match old(store)@.lookup(request.id@) {
            Some(t) => if is_stream {
                &&& r matches Ok(SubscribeOutcome::Stream(chunks)) && chunks.deep_view()
                    == seq![snapshot_chunk(t)] + old(store)@.pending(request.id@).map_values(
                    |e: TaskUpdateEventView| update_chunk(e),
                ) && chunks.deep_view()[0].task == old(store)@.got(request.id@, None)
                &&& final(store)@ == old(store)@.drained(request.id@)
            } else {
                &&& r matches Ok(SubscribeOutcome::Snapshot(x)) && x@ == t
                &&& final(store)@ == old(store)@
            },
            None => {
                &&& r matches Err(BamlRtError::InvalidArgument(m)) && m@ == task_not_found()
                &&& final(store)@ == old(store)@
            },
        },
{
    let ghost pre = store@;
    let task = match store.get(request.id.as_str(), None) {
        Some(t) => t,
        None => {
            return Err(BamlRtError::InvalidArgument(String::from_str("Task not found")));
        },
    };
    if !is_stream {
        return Ok(SubscribeOutcome::Snapshot(task));
    }
    let status_update = match &task.status {
        Some(status) => Some(
            TaskStatusUpdateEvent {
                context_id: task.context_id.clone(),
                task_id: task.id.clone(),
                status: Some(status.clone()),
                metadata: None,
                extra: no_fields(),
            },
        ),
        None => None,
    };
    let first = StreamResponse {
        task: Some(task),
        message: None,
        status_update,
        artifact_update: None,
        extra: no_fields(),
    };
    let mut chunks: Vec<StreamResponse> = Vec::new();
    chunks.push(first);
    let updates = store.drain_updates(request.id.as_str());
    let ghost target = pre.pending(request.id@).map_values(|e: TaskUpdateEventView| update_chunk(e));
    let n = updates.len();
    let mut i: usize = 0;
    while i < n
        invariant
            n == updates.len(),
            i <= n,
            target == updates.deep_view().map_values(|e: TaskUpdateEventView| update_chunk(e)),
            chunks.deep_view() =~= seq![snapshot_chunk(pre.lookup(request.id@)->0)] + target.take(i as int),
        decreases n - i,
    {
        let chunk = match &updates[i] {
            TaskUpdateEvent::Status(s) => StreamResponse {
                task: None,
                message: None,
                status_update: Some(s.clone()),
                artifact_update: None,
                extra: no_fields(),
            },
            TaskUpdateEvent::Artifact(a) => StreamResponse {
                task: None,
                message: None,
                status_update: None,
                artifact_update: Some(a.clone()),
                extra: no_fields(),
            },
        };
        let ghost before = chunks.deep_view();
        chunks.push(chunk);
        proof {
            assert(chunks.deep_view() =~= before.push(target[i as int]));
            assert(target.take(i + 1) =~= target.take(i as int).push(target[i as int]));
        }
        i = i + 1;
    }
    proof {
        assert(target.take(n as int) =~= target);
    }
    Ok(SubscribeOutcome::Stream(chunks))
}

/// Whether the request is in the range that `TaskStore::list` serves: its
/// page start plus page size fits in a `usize`.
pub fn list_request_in_range(request: &ListTasksRequest) -> (r: bool)
    ensures
        r == (list_start(request@) + list_page_size(request@) <= usize::MAX),
{
    let page_size = match request.page_size {
        Some(v) => match int_as_usize(v) {
            Some(p) => p,
            None => 50,
        },
        None => 50,
    };
    let start = match &request.page_token {
        Some(t) => match parse_usize(t.as_str()) {
            Some(p) => p,
            None => 0,
        },
        None => 0,
    };
    start <= usize::MAX - page_size
}

/// The metric label of an error.
pub open spec fn error_class(e: BamlRtError) -> Seq<char> {
    match e {
        BamlRtError::InvalidArgument(_) => "invalid_argument"@,
        BamlRtError::FunctionNotFound(_) => "function_not_found"@,
        BamlRtError::QuickJs(_) => "quickjs"@,
        BamlRtError::Json(_) => "json"@,
        BamlRtError::ToolExecution(_) => "tool_execution"@,
        _ => "internal"@,
    }
}

/// The metric label of an A2A error.
pub fn classify_a2a_error(error: &BamlRtError) -> (r: &'static str)
    ensures
        r@ == error_class(*error),
{
    match error {
        BamlRtError::InvalidArgument(_) => "invalid_argument",
        BamlRtError::FunctionNotFound(_) => "function_not_found",
        BamlRtError::QuickJs(_) => "quickjs",
        BamlRtError::Json(_) => "json",
        BamlRtError::ToolExecution(_) => "tool_execution",
        _ => "internal",
    }
}

/// A JSON-RPC error: its code, its message, and the fields of its data
/// object in order.
#[derive(Debug)]
pub struct JsonRpcError {
    pub code: i64,
    pub message: String,
    pub data: Vec<(String, String)>,
}

/// Abstract value of a JSON-RPC error.
pub struct JsonRpcErrorView {
    pub code: i64,
    pub message: Seq<char>,
    pub data: Seq<(Seq<char>, Seq<char>)>,
}

impl View for JsonRpcError {
    type V = JsonRpcErrorView;

    open spec fn view(&self) -> JsonRpcErrorView {
        JsonRpcErrorView { code: self.code, message: self.message@, data: self.data.deep_view() }
    }
}

/// The JSON-RPC error that answers a request failed with `e`.
pub open spec fn jsonrpc_error_of(e: BamlRtError) -> JsonRpcErrorView {
    JsonRpcErrorView { code: jsonrpc_code(e), message: jsonrpc_message(e), data: jsonrpc_data(e) }
}

/// The JSON-RPC code of an error.
pub open spec fn jsonrpc_code(e: BamlRtError) -> i64 {
    match e {
        BamlRtError::InvalidArgument(_) => -32600i64,
        BamlRtError::FunctionNotFound(_) => -32601i64,
        BamlRtError::Json(_) => -32700i64,
        _ => -32603i64,
    }
}

/// The JSON-RPC message of an error.
pub open spec fn jsonrpc_message(e: BamlRtError) -> Seq<char> {
    match e {
        BamlRtError::InvalidArgument(_) => "Invalid request"@,
        BamlRtError::FunctionNotFound(_) => "Method not found"@,
        BamlRtError::Json(_) => "Parse error"@,
        _ => "Internal error"@,
    }
}

/// The data fields of a JSON-RPC error: the error's text, then the detail
/// that its variant carries.
pub open spec fn jsonrpc_data(e: BamlRtError) -> Seq<(Seq<char>, Seq<char>)> {
    let first = ("error"@, error_message(e));
    match e {
        BamlRtError::InvalidArgument(m) => seq![first, ("details"@, m@)],
        BamlRtError::FunctionNotFound(n) => seq![first, ("function"@, n@)],
        BamlRtError::Json(j) => seq![first, ("details"@, j@)],
        BamlRtError::QuickJsWithSource { context, .. } => seq![first, ("context"@, context@)],
        _ => seq![first],
    }
}

fn field(key: &str, value: String) -> (r: (String, String))
    ensures
        r.0@ == key@,
        r.1@ == value@,
{
    (String::from_str(key), value)
}

/// The JSON-RPC error that answers a failed request.
pub fn map_jsonrpc_error(error: &BamlRtError) -> (r: JsonRpcError)
    ensures
        r.code == jsonrpc_code(*error),
        r.message@ == jsonrpc_message(*error),
        r.data.deep_view() == jsonrpc_data(*error),
        r@ == jsonrpc_error_of(*error),
{
    let mut data: Vec<(String, String)> = Vec::new();
    data.push(field("error", error.message()));
    let (code, message): (i64, &str) = match error {
        BamlRtError::InvalidArgument(m) => {
            data.push(field("details", m.clone()));
            (-32600, "Invalid request")
        },
        BamlRtError::FunctionNotFound(n) => {
            data.push(field("function", n.clone()));
            (-32601, "Method not found")
        },
        BamlRtError::Json(j) => {
            data.push(field("details", j.clone()));
            (-32700, "Parse error")
        },
        BamlRtError::QuickJsWithSource { context, .. } => {
            data.push(field("context", context.clone()));
            (-32603, "Internal error")
        },
        _ => (-32603, "Internal error"),
    };
    proof {
        assert(data.deep_view() =~= jsonrpc_data(*error));
    }
    JsonRpcError { code, message: String::from_str(message), data }
}

pub(crate) fn str_equal(a: &str, b: &str) -> (r: bool)
    ensures
        r == (a@ == b@),
{
    let x = String::from_str(a);
    let y = String::from_str(b);
    x == y
}

/// The keys by which a JSON object is a stream chunk.
pub open spec fn is_stream_key(k: Seq<char>) -> bool {
    k == "message"@ || k == "task"@ || k == "statusUpdate"@ || k == "artifactUpdate"@
}

/// Whether object keys include one that makes the object a stream chunk: a
/// message, a task, a status update or an artifact update.
pub open spec fn has_stream_key(keys: Seq<Seq<char>>) -> bool {
    ||| keys.contains("message"@)
    ||| keys.contains("task"@)
    ||| keys.contains("statusUpdate"@)
    ||| keys.contains("artifactUpdate"@)
}

/// An object is a stream chunk exactly when it has a message, task, status
/// update or artifact update key; any other keys do not matter.
pub proof fn lemma_stream_chunk_keys(keys: Seq<Seq<char>>)
    ensures
        (exists|i: int| 0 <= i < keys.len() && is_stream_key(#[trigger] keys[i])) <==> has_stream_key(keys),
{
    if has_stream_key(keys) {
        if keys.contains("message"@) {
            let i = choose|i: int| 0 <= i < keys.len() && keys[i] == "message"@;
            assert(is_stream_key(keys[i]));
        } else if keys.contains("task"@) {
            let i = choose|i: int| 0 <= i < keys.len() && keys[i] == "task"@;
            assert(is_stream_key(keys[i]));
        } else if keys.contains("statusUpdate"@) {
            let i = choose|i: int| 0 <= i < keys.len() && keys[i] == "statusUpdate"@;
            assert(is_stream_key(keys[i]));
        } else {
            let i = choose|i: int| 0 <= i < keys.len() && keys[i] == "artifactUpdate"@;
            assert(is_stream_key(keys[i]));
        }
    }
    if exists|i: int| 0 <= i < keys.len() && is_stream_key(#[trigger] keys[i]) {
        let i = choose|i: int| 0 <= i < keys.len() && is_stream_key(#[trigger] keys[i]);
        assert(keys.contains(keys[i]));
    }
}

/// Whether a JSON value, given by its object keys (`None` for a value that
/// is not an object), is a stream chunk: an object with a message, task,
/// status update or artifact update.
pub fn is_stream_response(keys: &Option<Vec<String>>) -> (r: bool)
    ensures
        r == (keys is Some && exists|i: int|
            0 <= i < keys->0@.len() && is_stream_key(#[trigger] keys->0@[i]@)),
        r == (keys is Some && has_stream_key(keys->0.deep_view())),
{
    match keys {
        Some(ks) => {
            let n = ks.len();
            let mut i: usize = 0;
            while i < n
                invariant
                    *keys == Some(*ks),
                    n == ks@.len(),
                    i <= n,
                    forall|j: int| 0 <= j < i ==> !is_stream_key(#[trigger] ks@[j]@),
                decreases n - i,
            {
                let k = ks[i].as_str();
                if str_equal(k, "message") || str_equal(k, "task") || str_equal(k, "statusUpdate")
                    || str_equal(k, "artifactUpdate") {
                    assert(is_stream_key(keys->0@[i as int]@));
                    proof {
                        lemma_stream_chunk_keys(ks.deep_view());
                        assert(ks.deep_view()[i as int] == ks@[i as int]@);
                    }
                    return true;
                }
                i = i + 1;
            }
            proof {
                lemma_stream_chunk_keys(ks.deep_view());
                assert forall|j: int| 0 <= j < ks.deep_view().len() implies !is_stream_key(
                    #[trigger] ks.deep_view()[j],
                ) by {
                    assert(ks.deep_view()[j] == ks@[j]@);
                }
            }
            false
        },
        None => false,
    }
}

/// What becomes of a value that the JavaScript handler streamed.
#[derive(Debug)]
pub enum StreamChunk {
    /// The value is a stream chunk already and is passed on as it is.
    AsIs,
    /// The value is wrapped in this chunk.
    Wrapped(StreamResponse),
}

/// Makes a streamed value a chunk: a chunk stays as it is; else a value that
/// reads as a message is wrapped as a message chunk; else one that reads as
/// a task as a task chunk; else it stays as it is.
pub fn normalize_stream_chunk(is_chunk: bool, as_message: Option<Message>, as_task: Option<Task>) -> (r: StreamChunk)
    ensures
        is_chunk ==> r is AsIs,
        !is_chunk && as_message is Some ==> (r matches StreamChunk::Wrapped(c) && c@ == (StreamResponseView {
            task: None,
            message: Some(as_message->0@),
            status_update: None,
            artifact_update: None,
            extra: Seq::empty(),
        })),
        !is_chunk && as_message is None && as_task is Some ==> (r matches StreamChunk::Wrapped(c) && c@
            == (StreamResponseView {
            task: Some(as_task->0@),
            message: None,
            status_update: None,
            artifact_update: None,
            extra: Seq::empty(),
        })),
        !is_chunk && as_message is None && as_task is None ==> r is AsIs,
{
    if is_chunk {
        return StreamChunk::AsIs;
    }
    match as_message {
        Some(m) => StreamChunk::Wrapped(
            StreamResponse {
                message: Some(m),
                task: None,
                status_update: None,
                artifact_update: None,
                extra: no_fields(),
            },
        ),
        None => match as_task {
            Some(t) => StreamChunk::Wrapped(
                StreamResponse {
                    task: Some(t),
                    message: None,
                    status_update: None,
                    artifact_update: None,
                    extra: no_fields(),
                },
            ),
            None => StreamChunk::AsIs,
        },
    }
}

/// How an agent is assembled from what its builder was given.
#[derive(Debug, Clone, Copy, PartialEq, Eq, Structural)]
pub struct AgentBuildPlan {
    /// A new runtime manager is made.
    pub create_runtime: bool,
    /// A new JavaScript bridge is made over the runtime.
    pub create_bridge: bool,
    /// The BAML helper functions are registered with the bridge.
    pub register_baml_functions: bool,
}

/// The refusal of a bridge handed over without its runtime.
pub open spec fn bridge_without_runtime_message() -> Seq<char> {
    "A2aAgentBuilder requires a runtime handle when providing a bridge"@
}

/// Decides how an agent is built: a bridge handed over requires its
/// runtime; what was not handed over is made new.
pub fn plan_agent_build(has_runtime: bool, has_bridge: bool, register_baml_functions: bool) -> (r: Result<AgentBuildPlan, BamlRtError>)
    ensures
        has_bridge && !has_runtime ==> (r matches Err(BamlRtError::InvalidArgument(m)) && m@ == bridge_without_runtime_message()),
        !(has_bridge && !has_runtime) ==> r == Ok::<AgentBuildPlan, BamlRtError>(AgentBuildPlan {
            create_runtime: !has_runtime,
            create_bridge: !has_bridge,
            register_baml_functions,
        }),
{
    if has_bridge && !has_runtime {
        return Err(
            BamlRtError::InvalidArgument(
                String::from_str("A2aAgentBuilder requires a runtime handle when providing a bridge"),
            ),
        );
    }
    Ok(AgentBuildPlan { create_runtime: !has_runtime, create_bridge: !has_bridge, register_baml_functions })
}

} // verus!

verus! {

/// Whether event `e` is about task `k`.
pub open spec fn is_about(e: TaskUpdateEventView, k: Seq<char>) -> bool {
    event_task_id(e) == Some(k)
}

/// Recording events leaves the tasks as they were and appends each event, in
/// order, to the waiting events of its task.
pub proof fn lemma_record_all_pending(v: TaskStoreView, events: Seq<TaskUpdateEventView>, k: Seq<char>)
    requires
        forall|i: int| 0 <= i < events.len() ==> (#[trigger] event_task_id(events[i])) is Some,
    ensures
        record_all(v, events).tasks == v.tasks,
        record_all(v, events).pending(k) == v.pending(k) + events.filter(|e: TaskUpdateEventView| is_about(e, k)),
    decreases events.len(),
{
    let p = |e: TaskUpdateEventView| is_about(e, k);
    if events.len() == 0 {
        assert(v.pending(k) + events.filter(p) =~= v.pending(k));
    } else {
        let init = events.drop_last();
        let e = events.last();
        assert(event_task_id(events[events.len() - 1]) is Some);
        lemma_record_all_pending(v, init, k);
        assert(init.push(e) =~= events);
        init.lemma_filter_push(e, p);
        if p(e) {
            assert(v.pending(k) + init.filter(p).push(e) =~= (v.pending(k) + init.filter(p)).push(e));
        }
    }
}

proof fn lemma_step_task_pending(v: TaskStoreView, t: Option<TaskView>, k: Seq<char>)
    ensures
        forall|i: int| 0 <= i < step_task(v, t).1.len() ==> (#[trigger] event_task_id(step_task(v, t).1[i])) is Some,
        step_task(v, t).0.pending(k) == v.pending(k) + step_task(v, t).1.filter(|e: TaskUpdateEventView| is_about(e, k)),
{
    match t {
        Some(t) => {
            let evs = task_events(t);
            assert forall|i: int| 0 <= i < evs.len() implies (#[trigger] event_task_id(evs[i])) is Some by {
                let k0 = t.id->0;
                let s = match t.status {
                    Some(st) => seq![status_event(k0, t.context_id, st)],
                    None => Seq::empty(),
                };
                if i >= s.len() {
                    assert(evs[i] == artifact_event(k0, t.context_id, t.artifacts[i - s.len()], Some(false), Some(true)));
                }
            }
            lemma_record_all_pending(v.upserted(t), evs, k);
            assert(v.upserted(t).updates == v.updates);
        },
        None => {
            assert(v.pending(k) + Seq::<TaskUpdateEventView>::empty().filter(|e: TaskUpdateEventView| is_about(e, k))
                =~= v.pending(k));
        },
    }
}

proof fn lemma_stream_events_pending(v: TaskStoreView, s: StreamResponseView, k: Seq<char>)
    ensures
        forall|i: int| 0 <= i < result_outcome(v, A2aResultView::Stream(s)).1.len()
            ==> (#[trigger] event_task_id(result_outcome(v, A2aResultView::Stream(s)).1[i])) is Some,
        result_outcome(v, A2aResultView::Stream(s)).0.pending(k) == v.pending(k) + result_outcome(
            v,
            A2aResultView::Stream(s),
        ).1.filter(|e: TaskUpdateEventView| is_about(e, k)),
{
    let p = |e: TaskUpdateEventView| is_about(e, k);
            lemma_step_task_pending(v, s.task, k);
            let (v1, e1) = step_task(v, s.task);
            let v2 = step_message(v1, s.message);
            assert(v2.updates == v1.updates);
            let e2 = status_update_events(s.status_update);
            let e3 = artifact_update_events(s.artifact_update);
            assert forall|i: int| 0 <= i < e2.len() implies (#[trigger] event_task_id(e2[i])) is Some by {}
            assert forall|i: int| 0 <= i < e3.len() implies (#[trigger] event_task_id(e3[i])) is Some by {}
            lemma_record_all_pending(v2, e2, k);
            lemma_record_all_pending(record_all(v2, e2), e3, k);
            Seq::filter_distributes_over_add(e1, e2, p);
            Seq::filter_distributes_over_add(e1 + e2, e3, p);
            let all = e1 + e2 + e3;
            assert forall|i: int| 0 <= i < all.len() implies (#[trigger] event_task_id(all[i])) is Some by {
                if i < e1.len() {
                    assert(all[i] == e1[i]);
                } else if i < e1.len() + e2.len() {
                    assert(all[i] == e2[i - e1.len()]);
                } else {
                    assert(all[i] == e3[i - e1.len() - e2.len()]);
                }
            }
            assert(v.pending(k) + e1.filter(p) + e2.filter(p) + e3.filter(p)
                =~= v.pending(k) + (e1.filter(p) + e2.filter(p) + e3.filter(p)));
        }

/// Every event that a handler result produces names its task, and applying
/// the result leaves exactly those events waiting, in order, after the ones
/// that were already waiting: what is announced is what subscribers drain.
pub proof fn lemma_result_events_pending(v: TaskStoreView, r: A2aResultView, k: Seq<char>)
    ensures
        forall|i: int| 0 <= i < result_outcome(v, r).1.len()
            ==> (#[trigger] event_task_id(result_outcome(v, r).1[i])) is Some,
        result_outcome(v, r).0.pending(k) == v.pending(k) + result_outcome(v, r).1.filter(
            |e: TaskUpdateEventView| is_about(e, k),
        ),
{
    let p = |e: TaskUpdateEventView| is_about(e, k);
    match r {
        A2aResultView::Stream(s) => {
            lemma_stream_events_pending(v, s, k);
        },
        A2aResultView::Send(s) => {
            lemma_step_task_pending(v, s.task, k);
            let (v1, e1) = step_task(v, s.task);
            assert(step_message(v1, s.message).updates == v1.updates);
        },
        A2aResultView::Task(t) => {
            lemma_step_task_pending(v, Some(t), k);
        },
        A2aResultView::Unrecognized => {
            assert(v.pending(k) + Seq::<TaskUpdateEventView>::empty().filter(p) =~= v.pending(k));
        },
    }
}

/// A streamed artifact update for a task is recorded with the artifact it
/// carried: the last event that storing the chunk produces is that update,
/// for its task and context, with the chunk's artifact (an artifact with no
/// id, name, parts, metadata or fields only where the chunk carried none),
/// and it is the newest event waiting for the task.
pub proof fn lemma_streamed_artifact_recorded(v: TaskStoreView, s: StreamResponseView)
    requires
        s.artifact_update is Some,
        s.artifact_update->0.task_id is Some,
    ensures
        ({
            let au = s.artifact_update->0;
            let k = au.task_id->0;
            let out = result_outcome(v, A2aResultView::Stream(s));
            let last = out.1.last();
            &&& out.1.len() > 0
            &&& last is Artifact
            &&& last->Artifact_0.task_id == Some(k)
            &&& last->Artifact_0.context_id == au.context_id
            &&& last->Artifact_0.append == au.append
            &&& last->Artifact_0.last_chunk == au.last_chunk
            &&& last->Artifact_0.artifact == Some(
                match au.artifact {
                    Some(a) => a,
                    None => ArtifactView {
                        artifact_id: None,
                        name: None,
                        parts: Seq::empty(),
                        metadata: None,
                        extra: Seq::empty(),
                    },
                },
            )
            &&& out.0.pending(k).len() > 0
            &&& out.0.pending(k).last() == last
        }),
{
    let au = s.artifact_update->0;
    let k = au.task_id->0;
    let (v1, e1) = step_task(v, s.task);
    let v2 = step_message(v1, s.message);
    let e2 = status_update_events(s.status_update);
    let e3 = artifact_update_events(s.artifact_update);
    let x = record_all(v2, e2);
    assert(e3.len() == 1);
    assert(e3 =~= Seq::<TaskUpdateEventView>::empty().push(e3[0]));
    lemma_record_all_push(x, Seq::empty(), e3[0]);
    assert((e1 + e2 + e3).last() == e3[0]);
}

/// The first chunk of a streamed subscription is the stored task exactly as
/// `tasks.get` without a history limit returns it, with no message and no
/// artifact update, and with the task's status as a status update for the
/// task where it has one.
pub proof fn lemma_subscribe_snapshot(v: TaskStoreView, id: Seq<char>)
    requires
        v.lookup(id) is Some,
    ensures
        ({
            let t = v.lookup(id)->0;
            let c = snapshot_chunk(t);
            &&& c.task == v.got(id, None)
            &&& c.message is None
            &&& c.artifact_update is None
            &&& match t.status {
                Some(st) => c.status_update is Some && c.status_update->0.status == Some(st)
                    && c.status_update->0.task_id == t.id && c.status_update->0.context_id == t.context_id,
                None => c.status_update is None,
            }
        }),
{
}

} // verus!

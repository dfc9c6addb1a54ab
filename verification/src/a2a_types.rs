//! The A2A protocol's task, message and artifact records, as the task store
//! and the request handler read and write them.

use vstd::prelude::*;

verus! {

/// The state value that a cancelled task carries.
pub const TASK_STATE_CANCELED: &'static str = "TASK_STATE_CANCELED";

/// One part of a message or artifact: its text where it is a text part,
/// its metadata as JSON text, and every other field (file or data content
/// among them) by name, each value as JSON text.
#[derive(Debug, PartialEq)]
pub struct Part {
    pub text: Option<String>,
    pub metadata: Option<String>,
    pub extra: Vec<(String, String)>,
}

/// A message exchanged with the agent.
#[derive(Debug, PartialEq)]
pub struct Message {
    pub message_id: String,
    pub role: String,
    pub parts: Vec<Part>,
    pub context_id: Option<String>,
    pub task_id: Option<String>,
    pub reference_task_ids: Vec<String>,
    pub extensions: Vec<String>,
    /// Metadata as JSON text.
    pub metadata: Option<String>,
    /// Fields beyond the known ones, by name, each value as JSON text.
    pub extra: Vec<(String, String)>,
}

/// A task state: protocol peers send it either as a name or as a number.
#[derive(Debug, PartialEq)]
pub enum TaskState {
    String(String),
    Integer(i64),
}

/// The status of a task.
#[derive(Debug, PartialEq)]
pub struct TaskStatus {
    pub state: Option<TaskState>,
    pub timestamp: Option<String>,
}

/// An output produced by a task.
#[derive(Debug, PartialEq)]
pub struct Artifact {
    pub artifact_id: Option<String>,
    pub name: Option<String>,
    pub parts: Vec<Part>,
    pub metadata: Option<String>,
    pub extra: Vec<(String, String)>,
}

/// A unit of work tracked by the agent.
#[derive(Debug, PartialEq)]
pub struct Task {
    pub id: Option<String>,
    pub context_id: Option<String>,
    pub status: Option<TaskStatus>,
    pub artifacts: Vec<Artifact>,
    pub history: Vec<Message>,
    pub metadata: Option<String>,
    pub extra: Vec<(String, String)>,
}

/// A change of a task's status.
#[derive(Debug, PartialEq)]
pub struct TaskStatusUpdateEvent {
    pub context_id: Option<String>,
    pub task_id: Option<String>,
    pub status: Option<TaskStatus>,
    pub metadata: Option<String>,
    pub extra: Vec<(String, String)>,
}

/// A new or extended artifact of a task.
#[derive(Debug, PartialEq)]
pub struct TaskArtifactUpdateEvent {
    pub context_id: Option<String>,
    pub task_id: Option<String>,
    pub last_chunk: Option<bool>,
    pub append: Option<bool>,
    pub artifact: Option<Artifact>,
    pub metadata: Option<String>,
    pub extra: Vec<(String, String)>,
}

/// Parameters of `tasks.get`.
#[derive(Debug, PartialEq)]
pub struct GetTaskRequest {
    pub id: String,
    pub history_length: Option<i64>,
}

/// Parameters of `tasks.cancel`.
#[derive(Debug, PartialEq)]
pub struct CancelTaskRequest {
    pub id: String,
}

/// Parameters of `tasks.subscribe`.
#[derive(Debug, PartialEq)]
pub struct SubscribeToTaskRequest {
    pub id: String,
}

/// Parameters of `tasks.list`.
#[derive(Debug, PartialEq)]
pub struct ListTasksRequest {
    pub context_id: Option<String>,
    pub status: Option<TaskState>,
    pub include_artifacts: Option<bool>,
    pub history_length: Option<i64>,
    pub page_size: Option<i64>,
    pub page_token: Option<String>,
}

/// Result of `tasks.list`.
#[derive(Debug, PartialEq)]
pub struct ListTasksResponse {
    pub tasks: Vec<Task>,
    pub next_page_token: Option<String>,
    pub total_size: Option<u64>,
    pub page_size: Option<u64>,
    pub extra: Vec<(String, String)>,
}

/// One chunk of a streamed A2A result.
#[derive(Debug, PartialEq)]
pub struct StreamResponse {
    pub task: Option<Task>,
    pub message: Option<Message>,
    pub status_update: Option<TaskStatusUpdateEvent>,
    pub artifact_update: Option<TaskArtifactUpdateEvent>,
    pub extra: Vec<(String, String)>,
}

/// The result of `message.send`.
#[derive(Debug, PartialEq)]
pub struct SendMessageResponse {
    pub task: Option<Task>,
    pub message: Option<Message>,
}

/// The value of a protocol integer as a `usize`, where it is one.
pub open spec fn int_as_usize_spec(v: i64) -> Option<usize> {
    if 0 <= v && v <= usize::MAX { Some(v as usize) } else { None }
}

/// Reads a protocol integer as a `usize`: negative values and values that do
/// not fit give `None`.
pub fn int_as_usize(v: i64) -> (r: Option<usize>)
    ensures r == int_as_usize_spec(v),
{
    if v < 0 {
        None
    } else if (v as u64) <= (usize::MAX as u64) {
        Some(v as usize)
    } else {
        None
    }
}

/// Abstract value of a part.
pub struct PartView {
    pub text: Option<Seq<char>>,
    pub metadata: Option<Seq<char>>,
    pub extra: Seq<(Seq<char>, Seq<char>)>,
}

/// Abstract value of a message.
pub struct MessageView {
    pub message_id: Seq<char>,
    pub role: Seq<char>,
    pub parts: Seq<PartView>,
    pub context_id: Option<Seq<char>>,
    pub task_id: Option<Seq<char>>,
    pub reference_task_ids: Seq<Seq<char>>,
    pub extensions: Seq<Seq<char>>,
    pub metadata: Option<Seq<char>>,
    pub extra: Seq<(Seq<char>, Seq<char>)>,
}

/// Abstract value of a task state.
pub enum TaskStateView {
    Name(Seq<char>),
    Number(i64),
}

/// Abstract value of a task status.
pub struct TaskStatusView {
    pub state: Option<TaskStateView>,
    pub timestamp: Option<Seq<char>>,
}

/// Abstract value of an artifact.
pub struct ArtifactView {
    pub artifact_id: Option<Seq<char>>,
    pub name: Option<Seq<char>>,
    pub parts: Seq<PartView>,
    pub metadata: Option<Seq<char>>,
    pub extra: Seq<(Seq<char>, Seq<char>)>,
}

/// Abstract value of a task.
pub struct TaskView {
    pub id: Option<Seq<char>>,
    pub context_id: Option<Seq<char>>,
    pub status: Option<TaskStatusView>,
    pub artifacts: Seq<ArtifactView>,
    pub history: Seq<MessageView>,
    pub metadata: Option<Seq<char>>,
    pub extra: Seq<(Seq<char>, Seq<char>)>,
}

/// Abstract value of a status update event.
pub struct StatusEventView {
    pub context_id: Option<Seq<char>>,
    pub task_id: Option<Seq<char>>,
    pub status: Option<TaskStatusView>,
    pub metadata: Option<Seq<char>>,
    pub extra: Seq<(Seq<char>, Seq<char>)>,
}

/// Abstract value of an artifact update event.
pub struct ArtifactEventView {
    pub context_id: Option<Seq<char>>,
    pub task_id: Option<Seq<char>>,
    pub last_chunk: Option<bool>,
    pub append: Option<bool>,
    pub artifact: Option<ArtifactView>,
    pub metadata: Option<Seq<char>>,
    pub extra: Seq<(Seq<char>, Seq<char>)>,
}

/// Abstract value of a stream chunk.
pub struct StreamResponseView {
    pub task: Option<TaskView>,
    pub message: Option<MessageView>,
    pub status_update: Option<StatusEventView>,
    pub artifact_update: Option<ArtifactEventView>,
    pub extra: Seq<(Seq<char>, Seq<char>)>,
}

impl DeepView for Part {
    type V = PartView;

    open spec fn deep_view(&self) -> PartView {
        PartView { text: self.text.deep_view(), metadata: self.metadata.deep_view(), extra: self.extra.deep_view() }
    }
}

impl View for Part {
    type V = PartView;

    open spec fn view(&self) -> PartView {
        self.deep_view()
    }
}

impl DeepView for Message {
    type V = MessageView;

    open spec fn deep_view(&self) -> MessageView {
        MessageView {
            message_id: self.message_id@,
            role: self.role@,
            parts: self.parts.deep_view(),
            context_id: self.context_id.deep_view(),
            task_id: self.task_id.deep_view(),
            reference_task_ids: self.reference_task_ids.deep_view(),
            extensions: self.extensions.deep_view(),
            metadata: self.metadata.deep_view(),
            extra: self.extra.deep_view(),
        }
    }
}

impl View for Message {
    type V = MessageView;

    open spec fn view(&self) -> MessageView {
        self.deep_view()
    }
}

impl DeepView for TaskState {
    type V = TaskStateView;

    open spec fn deep_view(&self) -> TaskStateView {
        match self {
            TaskState::String(s) => TaskStateView::Name(s@),
            TaskState::Integer(i) => TaskStateView::Number(*i),
        }
    }
}

impl View for TaskState {
    type V = TaskStateView;

    open spec fn view(&self) -> TaskStateView {
        self.deep_view()
    }
}

impl DeepView for TaskStatus {
    type V = TaskStatusView;

    open spec fn deep_view(&self) -> TaskStatusView {
        TaskStatusView { state: self.state.deep_view(), timestamp: self.timestamp.deep_view() }
    }
}

impl View for TaskStatus {
    type V = TaskStatusView;

    open spec fn view(&self) -> TaskStatusView {
        self.deep_view()
    }
}

impl DeepView for Artifact {
    type V = ArtifactView;

    open spec fn deep_view(&self) -> ArtifactView {
        ArtifactView {
            artifact_id: self.artifact_id.deep_view(),
            name: self.name.deep_view(),
            parts: self.parts.deep_view(),
            metadata: self.metadata.deep_view(),
            extra: self.extra.deep_view(),
        }
    }
}

impl View for Artifact {
    type V = ArtifactView;

    open spec fn view(&self) -> ArtifactView {
        self.deep_view()
    }
}

impl DeepView for Task {
    type V = TaskView;

    open spec fn deep_view(&self) -> TaskView {
        TaskView {
            id: self.id.deep_view(),
            context_id: self.context_id.deep_view(),
            status: self.status.deep_view(),
            artifacts: self.artifacts.deep_view(),
            history: self.history.deep_view(),
            metadata: self.metadata.deep_view(),
            extra: self.extra.deep_view(),
        }
    }
}

impl View for Task {
    type V = TaskView;

    open spec fn view(&self) -> TaskView {
        self.deep_view()
    }
}

impl DeepView for TaskStatusUpdateEvent {
    type V = StatusEventView;

    open spec fn deep_view(&self) -> StatusEventView {
        StatusEventView {
            context_id: self.context_id.deep_view(),
            task_id: self.task_id.deep_view(),
            status: self.status.deep_view(),
            metadata: self.metadata.deep_view(),
            extra: self.extra.deep_view(),
        }
    }
}

impl View for TaskStatusUpdateEvent {
    type V = StatusEventView;

    open spec fn view(&self) -> StatusEventView {
        self.deep_view()
    }
}

impl DeepView for TaskArtifactUpdateEvent {
    type V = ArtifactEventView;

    open spec fn deep_view(&self) -> ArtifactEventView {
        ArtifactEventView {
            context_id: self.context_id.deep_view(),
            task_id: self.task_id.deep_view(),
            last_chunk: self.last_chunk,
            append: self.append,
            artifact: self.artifact.deep_view(),
            metadata: self.metadata.deep_view(),
            extra: self.extra.deep_view(),
        }
    }
}

impl View for TaskArtifactUpdateEvent {
    type V = ArtifactEventView;

    open spec fn view(&self) -> ArtifactEventView {
        self.deep_view()
    }
}

impl DeepView for StreamResponse {
    type V = StreamResponseView;

    open spec fn deep_view(&self) -> StreamResponseView {
        StreamResponseView {
            task: self.task.deep_view(),
            message: self.message.deep_view(),
            status_update: self.status_update.deep_view(),
            artifact_update: self.artifact_update.deep_view(),
            extra: self.extra.deep_view(),
        }
    }
}

impl View for StreamResponse {
    type V = StreamResponseView;

    open spec fn view(&self) -> StreamResponseView {
        self.deep_view()
    }
}

/// Abstract value of a `tasks.list` request.
pub struct ListTasksRequestView {
    pub context_id: Option<Seq<char>>,
    pub status: Option<TaskStateView>,
    pub include_artifacts: Option<bool>,
    pub history_length: Option<i64>,
    pub page_size: Option<i64>,
    pub page_token: Option<Seq<char>>,
}

impl DeepView for ListTasksRequest {
    type V = ListTasksRequestView;

    open spec fn deep_view(&self) -> ListTasksRequestView {
        ListTasksRequestView {
            context_id: self.context_id.deep_view(),
            status: self.status.deep_view(),
            include_artifacts: self.include_artifacts,
            history_length: self.history_length,
            page_size: self.page_size,
            page_token: self.page_token.deep_view(),
        }
    }
}

impl View for ListTasksRequest {
    type V = ListTasksRequestView;

    open spec fn view(&self) -> ListTasksRequestView {
        self.deep_view()
    }
}

/// Abstract value of a `tasks.list` result.
pub struct ListTasksResponseView {
    pub tasks: Seq<TaskView>,
    pub next_page_token: Option<Seq<char>>,
    pub total_size: Option<u64>,
    pub page_size: Option<u64>,
    pub extra: Seq<(Seq<char>, Seq<char>)>,
}

impl DeepView for ListTasksResponse {
    type V = ListTasksResponseView;

    open spec fn deep_view(&self) -> ListTasksResponseView {
        ListTasksResponseView {
            tasks: self.tasks.deep_view(),
            next_page_token: self.next_page_token.deep_view(),
            total_size: self.total_size,
            page_size: self.page_size,
            extra: self.extra.deep_view(),
        }
    }
}

impl View for ListTasksResponse {
    type V = ListTasksResponseView;

    open spec fn view(&self) -> ListTasksResponseView {
        self.deep_view()
    }
}

/// Abstract value of a `message.send` result.
pub struct SendMessageResponseView {
    pub task: Option<TaskView>,
    pub message: Option<MessageView>,
}

impl DeepView for SendMessageResponse {
    type V = SendMessageResponseView;

    open spec fn deep_view(&self) -> SendMessageResponseView {
        SendMessageResponseView { task: self.task.deep_view(), message: self.message.deep_view() }
    }
}

impl View for SendMessageResponse {
    type V = SendMessageResponseView;

    open spec fn view(&self) -> SendMessageResponseView {
        self.deep_view()
    }
}

/// An empty list of named JSON fields.
pub fn no_fields() -> (r: Vec<(String, String)>)
    ensures r.deep_view() == Seq::<(Seq<char>, Seq<char>)>::empty(),
{
    let r: Vec<(String, String)> = Vec::new();
    assert(r.deep_view() =~= Seq::<(Seq<char>, Seq<char>)>::empty());
    r
}

/// Copies a list of named JSON fields.
pub fn clone_fields(v: &Vec<(String, String)>) -> (r: Vec<(String, String)>)
    ensures r.deep_view() == v.deep_view(),
{
    let mut r: Vec<(String, String)> = Vec::new();
    let mut i: usize = 0;
    while i < v.len()
        invariant
            i <= v.len(),
            r.deep_view() =~= v.deep_view().take(i as int),
        decreases v.len() - i,
    {
        let (k, x) = &v[i];
        r.push((k.clone(), x.clone()));
        proof {
            assert(v.deep_view().take(i + 1) =~= v.deep_view().take(i as int).push(v.deep_view()[i as int]));
        }
        i = i + 1;
    }
    proof {
        assert(v.deep_view().take(v.len() as int) =~= v.deep_view());
    }
    r
}

/// Copies a list of strings.
pub fn clone_strings(v: &Vec<String>) -> (r: Vec<String>)
    ensures r.deep_view() == v.deep_view(),
{
    let mut r: Vec<String> = Vec::new();
    let mut i: usize = 0;
    while i < v.len()
        invariant
            i <= v.len(),
            r.deep_view() =~= v.deep_view().take(i as int),
        decreases v.len() - i,
    {
        r.push(v[i].clone());
        proof {
            assert(v.deep_view().take(i + 1) =~= v.deep_view().take(i as int).push(v.deep_view()[i as int]));
        }
        i = i + 1;
    }
    proof {
        assert(v.deep_view().take(v.len() as int) =~= v.deep_view());
    }
    r
}

impl Clone for Part {
    fn clone(&self) -> (r: Self)
        ensures r@ == self@,
    {
        Part { text: self.text.clone(), metadata: self.metadata.clone(), extra: clone_fields(&self.extra) }
    }
}

fn clone_parts(v: &Vec<Part>) -> (r: Vec<Part>)
    ensures r.deep_view() == v.deep_view(),
{
    let mut r: Vec<Part> = Vec::new();
    let mut i: usize = 0;
    while i < v.len()
        invariant
            i <= v.len(),
            r.deep_view() =~= v.deep_view().take(i as int),
        decreases v.len() - i,
    {
        r.push(v[i].clone());
        proof {
            assert(v.deep_view().take(i + 1) =~= v.deep_view().take(i as int).push(v.deep_view()[i as int]));
        }
        i = i + 1;
    }
    proof {
        assert(v.deep_view().take(v.len() as int) =~= v.deep_view());
    }
    r
}

impl Clone for Message {
    fn clone(&self) -> (r: Self)
        ensures r@ == self@,
    {
        Message {
            message_id: self.message_id.clone(),
            role: self.role.clone(),
            parts: clone_parts(&self.parts),
            context_id: self.context_id.clone(),
            task_id: self.task_id.clone(),
            reference_task_ids: clone_strings(&self.reference_task_ids),
            extensions: clone_strings(&self.extensions),
            metadata: self.metadata.clone(),
            extra: clone_fields(&self.extra),
        }
    }
}

impl Clone for TaskState {
    fn clone(&self) -> (r: Self)
        ensures r@ == self@,
    {
        match self {
            TaskState::String(s) => TaskState::String(s.clone()),
            TaskState::Integer(i) => TaskState::Integer(*i),
        }
    }
}

impl Clone for TaskStatus {
    fn clone(&self) -> (r: Self)
        ensures r@ == self@,
    {
        let state = match &self.state {
            Some(s) => Some(s.clone()),
            None => None,
        };
        TaskStatus { state, timestamp: self.timestamp.clone() }
    }
}

impl Clone for Artifact {
    fn clone(&self) -> (r: Self)
        ensures r@ == self@,
    {
        Artifact {
            artifact_id: self.artifact_id.clone(),
            name: self.name.clone(),
            parts: clone_parts(&self.parts),
            metadata: self.metadata.clone(),
            extra: clone_fields(&self.extra),
        }
    }
}

/// Copies an optional status.
pub fn clone_status(s: &Option<TaskStatus>) -> (r: Option<TaskStatus>)
    ensures r.deep_view() == s.deep_view(),
{
    match s {
        Some(st) => Some(st.clone()),
        None => None,
    }
}

/// Copies an optional artifact.
pub fn clone_artifact(a: &Option<Artifact>) -> (r: Option<Artifact>)
    ensures r.deep_view() == a.deep_view(),
{
    match a {
        Some(x) => Some(x.clone()),
        None => None,
    }
}

/// Copies an optional message.
pub fn clone_message(m: &Option<Message>) -> (r: Option<Message>)
    ensures r.deep_view() == m.deep_view(),
{
    match m {
        Some(x) => Some(x.clone()),
        None => None,
    }
}

/// Copies a list of artifacts.
pub fn clone_artifacts(v: &Vec<Artifact>) -> (r: Vec<Artifact>)
    ensures r.deep_view() == v.deep_view(),
{
    let r = v.clone();
    assert(r.deep_view() =~= v.deep_view());
    r
}

/// Copies a list of messages.
pub fn clone_messages(v: &Vec<Message>) -> (r: Vec<Message>)
    ensures r.deep_view() == v.deep_view(),
{
    let r = v.clone();
    assert(r.deep_view() =~= v.deep_view());
    r
}

impl Clone for Task {
    fn clone(&self) -> (r: Self)
        ensures r@ == self@,
    {
        Task {
            id: self.id.clone(),
            context_id: self.context_id.clone(),
            status: clone_status(&self.status),
            artifacts: clone_artifacts(&self.artifacts),
            history: clone_messages(&self.history),
            metadata: self.metadata.clone(),
            extra: clone_fields(&self.extra),
        }
    }
}

/// Copies an optional task.
pub fn clone_task(t: &Option<Task>) -> (r: Option<Task>)
    ensures r.deep_view() == t.deep_view(),
{
    match t {
        Some(x) => Some(x.clone()),
        None => None,
    }
}

impl Clone for TaskStatusUpdateEvent {
    fn clone(&self) -> (r: Self)
        ensures r@ == self@,
    {
        TaskStatusUpdateEvent {
            context_id: self.context_id.clone(),
            task_id: self.task_id.clone(),
            status: clone_status(&self.status),
            metadata: self.metadata.clone(),
            extra: clone_fields(&self.extra),
        }
    }
}

impl Clone for TaskArtifactUpdateEvent {
    fn clone(&self) -> (r: Self)
        ensures r@ == self@,
    {
        TaskArtifactUpdateEvent {
            context_id: self.context_id.clone(),
            task_id: self.task_id.clone(),
            last_chunk: self.last_chunk,
            append: self.append,
            artifact: clone_artifact(&self.artifact),
            metadata: self.metadata.clone(),
            extra: clone_fields(&self.extra),
        }
    }
}

impl Clone for StreamResponse {
    fn clone(&self) -> (r: Self)
        ensures r@ == self@,
    {
        let status_update = match &self.status_update {
            Some(e) => Some(e.clone()),
            None => None,
        };
        let artifact_update = match &self.artifact_update {
            Some(e) => Some(e.clone()),
            None => None,
        };
        StreamResponse {
            task: clone_task(&self.task),
            message: clone_message(&self.message),
            status_update,
            artifact_update,
            extra: clone_fields(&self.extra),
        }
    }
}

impl Clone for SendMessageResponse {
    fn clone(&self) -> (r: Self)
        ensures
            r@ == self@,
    {
        SendMessageResponse { task: clone_task(&self.task), message: clone_message(&self.message) }
    }
}

impl Default for Part {
    fn default() -> (r: Self)
        ensures r@ == (PartView { text: None, metadata: None, extra: Seq::empty() }),
    {
        Part { text: None, metadata: None, extra: no_fields() }
    }
}

impl Default for TaskStatus {
    fn default() -> (r: Self)
        ensures r@ == (TaskStatusView { state: None, timestamp: None }),
    {
        TaskStatus { state: None, timestamp: None }
    }
}

impl Default for Artifact {
    fn default() -> (r: Self)
        ensures
            r@ == (ArtifactView {
                artifact_id: None,
                name: None,
                parts: Seq::empty(),
                metadata: None,
                extra: Seq::empty(),
            }),
    {
        let r = Artifact { artifact_id: None, name: None, parts: Vec::new(), metadata: None, extra: Vec::new() };
        assert(r.parts.deep_view() =~= Seq::<PartView>::empty());
        assert(r.extra.deep_view() =~= Seq::<(Seq<char>, Seq<char>)>::empty());
        r
    }
}

} // verus!

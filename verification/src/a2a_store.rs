//! The agent's task store: tasks in order of first arrival, and the update
//! events recorded per task until a subscriber drains them.

use vstd::prelude::*;
use crate::a2a_types::{
    int_as_usize, int_as_usize_spec, ArtifactView, ListTasksRequest, ListTasksRequestView,
    ListTasksResponse, ListTasksResponseView, Message, MessageView, StatusEventView, Task,
    TaskArtifactUpdateEvent, TaskState, TaskStateView, TaskStatus, TaskStatusUpdateEvent,
    TaskStatusView, TaskView, Artifact, ArtifactEventView, TASK_STATE_CANCELED, no_fields,
};
use crate::decimal::{decimal, format_u64, lemma_parse_decimal, parse_usize, parse_usize_spec};

verus! {

/// An update of a task, as subscribers receive it.
#[derive(Debug, PartialEq)]
pub enum TaskUpdateEvent {
    Status(TaskStatusUpdateEvent),
    Artifact(TaskArtifactUpdateEvent),
}

/// Abstract value of an update event.
pub enum TaskUpdateEventView {
    Status(StatusEventView),
    Artifact(ArtifactEventView),
}

impl DeepView for TaskUpdateEvent {
    type V = TaskUpdateEventView;

    open spec fn deep_view(&self) -> TaskUpdateEventView {
        match self {
            TaskUpdateEvent::Status(e) => TaskUpdateEventView::Status(e@),
            TaskUpdateEvent::Artifact(e) => TaskUpdateEventView::Artifact(e@),
        }
    }
}

impl View for TaskUpdateEvent {
    type V = TaskUpdateEventView;

    open spec fn view(&self) -> TaskUpdateEventView {
        self.deep_view()
    }
}

impl Clone for TaskUpdateEvent {
    fn clone(&self) -> (r: Self)
        ensures
            r@ == self@,
    {
        match self {
            TaskUpdateEvent::Status(e) => TaskUpdateEvent::Status(e.clone()),
            TaskUpdateEvent::Artifact(e) => TaskUpdateEvent::Artifact(e.clone()),
        }
    }
}

/// The task that an update event is about.
pub open spec fn event_task_id(e: TaskUpdateEventView) -> Option<Seq<char>> {
    match e {
        TaskUpdateEventView::Status(s) => s.task_id,
        TaskUpdateEventView::Artifact(a) => a.task_id,
    }
}

impl TaskUpdateEvent {
    /// The id of the task that this event is about.
    pub fn task_id(&self) -> (r: Option<&str>)
        ensures
            match r {
                Some(s) => event_task_id(self@) == Some(s@),
                None => event_task_id(self@) is None,
            },
    {
        match self {
            TaskUpdateEvent::Status(e) => match &e.task_id {
                Some(s) => Some(s.as_str()),
                None => None,
            },
            TaskUpdateEvent::Artifact(e) => match &e.task_id {
                Some(s) => Some(s.as_str()),
                None => None,
            },
        }
    }
}

/// The status event that recording a status change produces.
pub open spec fn status_event(
    task_id: Seq<char>,
    context_id: Option<Seq<char>>,
    status: TaskStatusView,
) -> TaskUpdateEventView {
    TaskUpdateEventView::Status(
        StatusEventView {
            context_id,
            task_id: Some(task_id),
            status: Some(status),
            metadata: None,
            extra: Seq::empty(),
        },
    )
}

/// The artifact event that recording an artifact produces.
pub open spec fn artifact_event(
    task_id: Seq<char>,
    context_id: Option<Seq<char>>,
    artifact: ArtifactView,
    append: Option<bool>,
    last_chunk: Option<bool>,
) -> TaskUpdateEventView {
    TaskUpdateEventView::Artifact(
        ArtifactEventView {
            context_id,
            task_id: Some(task_id),
            last_chunk,
            append,
            artifact: Some(artifact),
            metadata: None,
            extra: Seq::empty(),
        },
    )
}

/// A history cut to its last `limit` messages.
pub open spec fn truncated(h: Seq<MessageView>, limit: usize) -> Seq<MessageView> {
    if h.len() > limit {
        h.subrange(h.len() - limit, h.len() as int)
    } else {
        h
    }
}

/// A task whose history is cut to its last `limit` messages.
pub open spec fn with_truncated_history(t: TaskView, limit: usize) -> TaskView {
    TaskView { history: truncated(t.history, limit), ..t }
}

/// Whether a task's current state is the desired one: both names, or both
/// numbers, and equal.
pub open spec fn state_matches(t: TaskView, desired: TaskStateView) -> bool {
    match t.status {
        Some(st) => match st.state {
            Some(s) => match (s, desired) {
                (TaskStateView::Name(a), TaskStateView::Name(b)) => a == b,
                (TaskStateView::Number(a), TaskStateView::Number(b)) => a == b,
                _ => false,
            },
            None => false,
        },
        None => false,
    }
}

/// A task after cancellation: its state becomes the cancelled state name;
/// everything else, the status timestamp included, stays.
pub open spec fn canceled(t: TaskView) -> TaskView {
    let timestamp = match t.status {
        Some(s) => s.timestamp,
        None => None,
    };
    TaskView {
        status: Some(
            TaskStatusView {
                state: Some(TaskStateView::Name(TASK_STATE_CANCELED@)),
                timestamp,
            },
        ),
        ..t
    }
}

/// Whether `tasks.list` keeps a task: it is in the requested context and in
/// the requested state, where the request names them.
pub open spec fn list_keeps(t: TaskView, req: ListTasksRequestView) -> bool {
    &&& match req.context_id {
        Some(c) => t.context_id == Some(c),
        None => true,
    }
    &&& match req.status {
        Some(s) => state_matches(t, s),
        None => true,
    }
}

/// The history limit of a listing.
pub open spec fn list_history_limit(req: ListTasksRequestView) -> Option<usize> {
    match req.history_length {
        Some(v) => int_as_usize_spec(v),
        None => None,
    }
}

/// How a kept task is listed: without artifacts unless they were asked for,
/// and with its history cut where a limit is given.
pub open spec fn list_shape(t: TaskView, req: ListTasksRequestView) -> TaskView {
    let t1 = if req.include_artifacts == Some(true) {
        t
    } else {
        TaskView { artifacts: Seq::empty(), ..t }
    };
    match list_history_limit(req) {
        Some(l) => with_truncated_history(t1, l),
        None => t1,
    }
}

/// The page size of a listing: the requested one, else fifty.
pub open spec fn list_page_size(req: ListTasksRequestView) -> usize {
    match req.page_size {
        Some(v) => match int_as_usize_spec(v) {
            Some(n) => n,
            None => 50,
        },
        None => 50,
    }
}

/// Where a listing page starts: the page token read as a number, else zero.
pub open spec fn list_start(req: ListTasksRequestView) -> usize {
    match req.page_token {
        Some(t) => match parse_usize_spec(t) {
            Some(n) => n,
            None => 0,
        },
        None => 0,
    }
}

/// All tasks that a listing reports, shaped, in store order.
pub open spec fn listed(tasks: Seq<TaskView>, req: ListTasksRequestView) -> Seq<TaskView>
    decreases tasks.len(),
{
    if tasks.len() == 0 {
        Seq::empty()
    } else {
        let p = listed(tasks.drop_last(), req);
        if list_keeps(tasks.last(), req) {
            p.push(list_shape(tasks.last(), req))
        } else {
            p
        }
    }
}

/// Where a listing page ends.
pub open spec fn list_end(tasks: Seq<TaskView>, req: ListTasksRequestView) -> int {
    let n = listed(tasks, req).len();
    let e = list_start(req) + list_page_size(req);
    if e < n { e } else { n as int }
}

/// The answer to a `tasks.list` request on a store holding `tasks`.
pub open spec fn list_response(tasks: Seq<TaskView>, req: ListTasksRequestView) -> ListTasksResponseView {
    let all = listed(tasks, req);
    let start = list_start(req);
    let end = list_end(tasks, req);
    ListTasksResponseView {
        tasks: if start < all.len() {
            all.subrange(start as int, end)
        } else {
            Seq::empty()
        },
        next_page_token: if end < all.len() {
            Some(decimal(end as nat))
        } else {
            None
        },
        total_size: Some(all.len() as u64),
        page_size: Some(list_page_size(req) as u64),
        extra: Seq::empty(),
    }
}

/// Whether a task's current state is `desired`.
pub fn matches_task_state(task: &Task, desired: &TaskState) -> (r: bool)
    ensures
        r == state_matches(task@, desired@),
{
    match &task.status {
        Some(status) => match &status.state {
            Some(state) => match (state, desired) {
                (TaskState::String(current), TaskState::String(target)) => *current == *target,
                (TaskState::Integer(current), TaskState::Integer(target)) => *current == *target,
                _ => false,
            },
            None => false,
        },
        None => false,
    }
}

fn keeps_task(task: &Task, request: &ListTasksRequest) -> (r: bool)
    ensures
        r == list_keeps(task@, request@),
{
    let in_context = match &request.context_id {
        Some(c) => match &task.context_id {
            Some(tc) => *tc == *c,
            None => false,
        },
        None => true,
    };
    if !in_context {
        return false;
    }
    match &request.status {
        Some(desired) => matches_task_state(task, desired),
        None => true,
    }
}

/// Abstract state of a task store.
pub struct TaskStoreView {
    /// Tasks in the order in which their ids first arrived.
    pub tasks: Seq<TaskView>,
    /// Update events not yet drained, per task id, oldest first.
    pub updates: Map<Seq<char>, Seq<TaskUpdateEventView>>,
}

impl TaskStoreView {
    /// Every task has an id, and no two tasks share one.
    pub open spec fn wf(self) -> bool {
        &&& forall|i: int| 0 <= i < self.tasks.len() ==> (#[trigger] self.tasks[i]).id is Some
        &&& forall|i: int, j: int|
            0 <= i < self.tasks.len() && 0 <= j < self.tasks.len() && i != j
                ==> #[trigger] self.tasks[i].id != #[trigger] self.tasks[j].id
    }

    pub open spec fn has_task(self, id: Seq<char>) -> bool {
        exists|i: int| 0 <= i < self.tasks.len() && self.tasks[i].id == Some(id)
    }

    pub open spec fn task_index(self, id: Seq<char>) -> int {
        choose|i: int| 0 <= i < self.tasks.len() && self.tasks[i].id == Some(id)
    }

    /// The task stored under `id`.
    pub open spec fn lookup(self, id: Seq<char>) -> Option<TaskView> {
        if self.has_task(id) {
            Some(self.tasks[self.task_index(id)])
        } else {
            None
        }
    }

    /// What `get` returns: the stored task, its history cut when a limit is given.
    pub open spec fn got(self, id: Seq<char>, history_length: Option<usize>) -> Option<TaskView> {
        match self.lookup(id) {
            Some(t) => Some(
                match history_length {
                    Some(l) => with_truncated_history(t, l),
                    None => t,
                },
            ),
            None => None,
        }
    }

    /// The store after storing `task`: a task without id changes nothing; a
    /// known id is replaced in place; a new id is appended.
    pub open spec fn upserted(self, task: TaskView) -> TaskStoreView {
        match task.id {
            None => self,
            Some(k) => TaskStoreView {
                tasks: if self.has_task(k) {
                    self.tasks.update(self.task_index(k), task)
                } else {
                    self.tasks.push(task)
                },
                ..self
            },
        }
    }

    /// The store after cancelling the task `id`, where there is one.
    pub open spec fn canceled(self, id: Seq<char>) -> TaskStoreView {
        if self.has_task(id) {
            TaskStoreView {
                tasks: self.tasks.update(self.task_index(id), canceled(self.tasks[self.task_index(id)])),
                ..self
            }
        } else {
            self
        }
    }

    /// The store after appending `m` to the history of the task it names,
    /// where it names a stored task.
    pub open spec fn with_message(self, m: MessageView) -> TaskStoreView {
        match m.task_id {
            Some(k) => if self.has_task(k) {
                let i = self.task_index(k);
                TaskStoreView {
                    tasks: self.tasks.update(i, TaskView { history: self.tasks[i].history.push(m), ..self.tasks[i] }),
                    ..self
                }
            } else {
                self
            },
            None => self,
        }
    }

    /// The events waiting for task `id`.
    pub open spec fn pending(self, id: Seq<char>) -> Seq<TaskUpdateEventView> {
        if self.updates.contains_key(id) {
            self.updates[id]
        } else {
            Seq::empty()
        }
    }

    /// The store after recording event `e` for task `id`.
    pub open spec fn recorded(self, id: Seq<char>, e: TaskUpdateEventView) -> TaskStoreView {
        TaskStoreView { updates: self.updates.insert(id, self.pending(id).push(e)), ..self }
    }

    /// The store after handing out the events waiting for task `id`.
    pub open spec fn drained(self, id: Seq<char>) -> TaskStoreView {
        TaskStoreView { updates: self.updates.remove(id), ..self }
    }
}

proof fn lemma_update_keeps_wf(v: TaskStoreView, i: int, t: TaskView)
    requires
        v.wf(),
        0 <= i < v.tasks.len(),
        t.id == v.tasks[i].id,
    ensures
        (TaskStoreView { tasks: v.tasks.update(i, t), ..v }).wf(),
{
    let u = v.tasks.update(i, t);
    assert forall|a: int, b: int| 0 <= a < u.len() && 0 <= b < u.len() && a != b
        implies #[trigger] u[a].id != #[trigger] u[b].id by {
        assert(u[a].id == v.tasks[a].id);
        assert(u[b].id == v.tasks[b].id);
    }
    assert forall|a: int| 0 <= a < u.len() implies (#[trigger] u[a]).id is Some by {
        assert(u[a].id == v.tasks[a].id);
    }
}

/// Storing a task keeps every id present once.
pub proof fn lemma_upserted_wf(v: TaskStoreView, task: TaskView)
    requires
        v.wf(),
    ensures
        v.upserted(task).wf(),
{
    match task.id {
        Some(k) => {
            if v.has_task(k) {
                lemma_update_keeps_wf(v, v.task_index(k), task);
            } else {
                let u = v.tasks.push(task);
                assert forall|a: int, b: int| 0 <= a < u.len() && 0 <= b < u.len() && a != b
                    implies #[trigger] u[a].id != #[trigger] u[b].id by {
                    if a < v.tasks.len() && b < v.tasks.len() {
                        assert(u[a] == v.tasks[a]);
                        assert(u[b] == v.tasks[b]);
                    } else if a < v.tasks.len() {
                        assert(u[a] == v.tasks[a]);
                    } else {
                        assert(u[b] == v.tasks[b]);
                    }
                }
                assert forall|a: int| 0 <= a < u.len() implies (#[trigger] u[a]).id is Some by {
                    if a < v.tasks.len() {
                        assert(u[a] == v.tasks[a]);
                    }
                }
            }
        },
        None => {},
    }
}

/// Cancelling keeps every id present once.
pub proof fn lemma_canceled_wf(v: TaskStoreView, id: Seq<char>)
    requires
        v.wf(),
    ensures
        v.canceled(id).wf(),
{
    if v.has_task(id) {
        lemma_update_keeps_wf(v, v.task_index(id), canceled(v.tasks[v.task_index(id)]));
    }
}

/// Appending a message keeps every id present once.
pub proof fn lemma_with_message_wf(v: TaskStoreView, m: MessageView)
    requires
        v.wf(),
    ensures
        v.with_message(m).wf(),
{
    match m.task_id {
        Some(k) => {
            if v.has_task(k) {
                let i = v.task_index(k);
                lemma_update_keeps_wf(v, i, TaskView { history: v.tasks[i].history.push(m), ..v.tasks[i] });
            }
        },
        None => {},
    }
}

#[derive(Debug)]
struct UpdateLog {
    task_id: String,
    events: Vec<TaskUpdateEvent>,
}

spec fn log_has(logs: Seq<UpdateLog>, k: Seq<char>) -> bool {
    exists|i: int| 0 <= i < logs.len() && logs[i].task_id@ == k
}

spec fn log_index(logs: Seq<UpdateLog>, k: Seq<char>) -> int {
    choose|i: int| 0 <= i < logs.len() && logs[i].task_id@ == k
}

spec fn logs_map(logs: Seq<UpdateLog>) -> Map<Seq<char>, Seq<TaskUpdateEventView>> {
    Map::new(|k: Seq<char>| log_has(logs, k), |k: Seq<char>| logs[log_index(logs, k)].events.deep_view())
}

spec fn logs_unique(logs: Seq<UpdateLog>) -> bool {
    forall|i: int, j: int|
        0 <= i < logs.len() && 0 <= j < logs.len() && i != j
            ==> #[trigger] logs[i].task_id@ != #[trigger] logs[j].task_id@
}

proof fn lemma_logs_map_at(logs: Seq<UpdateLog>, i: int)
    requires
        logs_unique(logs),
        0 <= i < logs.len(),
    ensures
        logs_map(logs).contains_key(logs[i].task_id@),
        logs_map(logs)[logs[i].task_id@] == logs[i].events.deep_view(),
{
    let k = logs[i].task_id@;
    assert(log_has(logs, k));
    let j = log_index(logs, k);
    assert(logs[j].task_id@ == k);
}

proof fn lemma_logs_map_ext(logs: Seq<UpdateLog>, m: Map<Seq<char>, Seq<TaskUpdateEventView>>)
    requires
        logs_unique(logs),
        forall|a: int| 0 <= a < logs.len() ==> m.contains_key(#[trigger] logs[a].task_id@)
            && m[logs[a].task_id@] == logs[a].events.deep_view(),
        forall|k: Seq<char>| #[trigger] m.contains_key(k)
            ==> exists|a: int| 0 <= a < logs.len() && logs[a].task_id@ == k,
    ensures
        logs_map(logs) == m,
{
    assert forall|k: Seq<char>| #[trigger] logs_map(logs).contains_key(k) == m.contains_key(k) by {
        if log_has(logs, k) {
            let a = log_index(logs, k);
            assert(m.contains_key(logs[a].task_id@));
        }
        if m.contains_key(k) {
            let a = choose|a: int| 0 <= a < logs.len() && logs[a].task_id@ == k;
            assert(log_has(logs, k));
        }
    }
    assert forall|k: Seq<char>| #[trigger] logs_map(logs).contains_key(k) implies logs_map(logs)[k] == m[k] by {
        let a = log_index(logs, k);
        assert(m.contains_key(logs[a].task_id@));
    }
    assert(logs_map(logs) =~= m);
}

/// The tasks of an agent and the update events recorded for them.
#[derive(Debug)]
pub struct TaskStore {
    tasks: Vec<Task>,
    logs: Vec<UpdateLog>,
}

impl View for TaskStore {
    type V = TaskStoreView;

    closed spec fn view(&self) -> TaskStoreView {
        TaskStoreView { tasks: self.tasks.deep_view(), updates: logs_map(self.logs@) }
    }
}

impl Default for TaskStore {
    fn default() -> (r: Self)
        ensures
            r@.tasks.len() == 0,
            r@.updates == Map::<Seq<char>, Seq<TaskUpdateEventView>>::empty(),
    {
        TaskStore::new()
    }
}

impl TaskStore {
    #[verifier::type_invariant]
    spec fn inv(self) -> bool {
        &&& self@.wf()
        &&& logs_unique(self.logs@)
    }

    /// An empty store.
    pub fn new() -> (r: Self)
        ensures
            r@.tasks.len() == 0,
            r@.updates == Map::<Seq<char>, Seq<TaskUpdateEventView>>::empty(),
            r@ == empty_store(),
    {
        let r = TaskStore { tasks: Vec::new(), logs: Vec::new() };
        assert(r@.tasks =~= Seq::<TaskView>::empty());
        assert(r@.updates =~= Map::<Seq<char>, Seq<TaskUpdateEventView>>::empty());
        r
    }

    /// The store's state is well formed: every task has an id and no two
    /// tasks share one. The laws of the store take this as their premise.
    pub fn wf_holds(&self)
        ensures
            self@.wf(),
    {
        proof {
            use_type_invariant(self);
        }
    }

    fn find_task(&self, id: &String) -> (r: Option<usize>)
        ensures
            match r {
                Some(i) => i < self@.tasks.len() && self@.has_task(id@) && self@.task_index(id@) == i
                    && self@.tasks[i as int].id == Some(id@),
                None => !self@.has_task(id@),
            },
    {
        proof {
            use_type_invariant(self);
        }
        let n = self.tasks.len();
        let mut i: usize = 0;
        while i < n
            invariant
                n == self.tasks.len(),
                i <= n,
                self@.wf(),
                forall|j: int| 0 <= j < i ==> self@.tasks[j].id != Some(id@),
            decreases n - i,
        {
            let found = match &self.tasks[i].id {
                Some(s) => *s == *id,
                None => false,
            };
            if found {
                proof {
                    assert(self@.tasks[i as int] == self.tasks@[i as int].deep_view());
                    assert(self@.tasks[i as int].id == Some(id@));
                    let j = self@.task_index(id@);
                    assert(self@.tasks[j].id == Some(id@));
                }
                return Some(i);
            }
            proof {
                assert(self@.tasks[i as int] == self.tasks@[i as int].deep_view());
            }
            i = i + 1;
        }
        None
    }

    /// Stores `task` under its id, replacing an earlier task with that id in
    /// place and appending a new one at the end. A task without id is not
    /// stored.
    pub fn upsert(&mut self, task: Task) -> (r: Option<Task>)
        ensures
            final(self)@ == old(self)@.upserted(task@),
            r.deep_view() == (if task.id is Some { Some(task@) } else { None::<TaskView> }),
    {
        proof {
            use_type_invariant(&*self);
        }
        let id = match &task.id {
            Some(s) => s.clone(),
            None => {
                return None;
            },
        };
        let ghost pre = self@;
        let idx = self.find_task(&id);
        let stored = task.clone();
        let mut tasks: Vec<Task> = Vec::new();
        std::mem::swap(&mut tasks, &mut self.tasks);
        match idx {
            Some(i) => {
                tasks.set(i, stored);
                proof {
                    assert(tasks.deep_view() =~= pre.upserted(task@).tasks);
                    lemma_upserted_wf(pre, task@);
                }
                self.tasks = tasks;
            },
            None => {
                tasks.push(stored);
                proof {
                    assert(tasks.deep_view() =~= pre.upserted(task@).tasks);
                    lemma_upserted_wf(pre, task@);
                }
                self.tasks = tasks;
            },
        }
        Some(task)
    }

    /// The task stored under `id`, its history cut to the last
    /// `history_length` messages when a limit is given.
    pub fn get(&self, id: &str, history_length: Option<usize>) -> (r: Option<Task>)
        ensures
            r.deep_view() == self@.got(id@, history_length),
    {
        let key = String::from_str(id);
        match self.find_task(&key) {
            Some(i) => {
                let mut task = self.tasks[i].clone();
                match history_length {
                    Some(limit) => truncate_history(&mut task, limit),
                    None => {},
                }
                Some(task)
            },
            None => None,
        }
    }

    /// Marks the task `id` as cancelled and returns it; `None` where there
    /// is no such task.
    pub fn cancel(&mut self, id: &str) -> (r: Option<Task>)
        ensures
            final(self)@ == old(self)@.canceled(id@),
            r.deep_view() == (match old(self)@.lookup(id@) {
                Some(t) => Some(canceled(t)),
                None => None,
            }),
    {
        proof {
            use_type_invariant(&*self);
        }
        let key = String::from_str(id);
        match self.find_task(&key) {
            Some(i) => {
                let ghost pre = self@;
                let mut task = self.tasks[i].clone();
                let mut status = match &task.status {
                    Some(st) => st.clone(),
                    None => TaskStatus::default(),
                };
                status.state = Some(TaskState::String(String::from_str(TASK_STATE_CANCELED)));
                task.status = Some(status);
                proof {
                    assert(task@ == canceled(pre.tasks[i as int]));
                }
                let mut tasks: Vec<Task> = Vec::new();
                std::mem::swap(&mut tasks, &mut self.tasks);
                tasks.set(i, task.clone());
                proof {
                    assert(tasks.deep_view() =~= pre.canceled(id@).tasks);
                    lemma_canceled_wf(pre, id@);
                }
                self.tasks = tasks;
                Some(task)
            },
            None => None,
        }
    }

    /// Appends `message` to the history of the task it names, where it names
    /// a stored task.
    pub fn insert_message(&mut self, message: &Message)
        ensures
            final(self)@ == old(self)@.with_message(message@),
    {
        proof {
            use_type_invariant(&*self);
        }
        if let Some(task_id) = &message.task_id {
            match self.find_task(task_id) {
                Some(i) => {
                    let ghost pre = self@;
                    let mut task = self.tasks[i].clone();
                    task.history.push(message.clone());
                    proof {
                        assert(task.history.deep_view() =~= pre.tasks[i as int].history.push(message@));
                    }
                    let mut tasks: Vec<Task> = Vec::new();
                    std::mem::swap(&mut tasks, &mut self.tasks);
                    tasks.set(i, task);
                    proof {
                        assert(tasks.deep_view() =~= pre.with_message(message@).tasks);
                        lemma_with_message_wf(pre, message@);
                    }
                    self.tasks = tasks;
                },
                None => {},
            }
        }
    }

    /// Answers a `tasks.list` request: the kept tasks in store order, shaped,
    /// one page of them, with the token of the next page.
    pub fn list(&self, request: &ListTasksRequest) -> (r: ListTasksResponse)
        requires
            list_start(request@) + list_page_size(request@) <= usize::MAX,
        ensures
            r@ == list_response(self@.tasks, request@),
    {
        let ghost req = request@;
        let ghost all_tasks = self@.tasks;
        let include_artifacts = match request.include_artifacts {
            Some(b) => b,
            None => false,
        };
        let history_limit = match request.history_length {
            Some(v) => int_as_usize(v),
            None => None,
        };
        let n = self.tasks.len();
        let mut tasks: Vec<Task> = Vec::new();
        let mut i: usize = 0;
        while i < n
            invariant
                n == self.tasks.len(),
                all_tasks == self@.tasks,
                req == request@,
                i <= n,
                include_artifacts == (req.include_artifacts == Some(true)),
                history_limit == list_history_limit(req),
                tasks.deep_view() == listed(all_tasks.take(i as int), req),
            decreases n - i,
        {
            proof {
                assert(all_tasks.take(i + 1).drop_last() =~= all_tasks.take(i as int));
                assert(self.tasks@[i as int].deep_view() == all_tasks[i as int]);
            }
            if keeps_task(&self.tasks[i], request) {
                let mut task = self.tasks[i].clone();
                if !include_artifacts {
                    task.artifacts = Vec::new();
                    proof {
                        assert(task.artifacts.deep_view() =~= Seq::<ArtifactView>::empty());
                    }
                }
                match history_limit {
                    Some(limit) => truncate_history(&mut task, limit),
                    None => {},
                }
                let ghost before = tasks.deep_view();
                tasks.push(task);
                proof {
                    assert(tasks.deep_view() =~= before.push(list_shape(all_tasks[i as int], req)));
                }
            }
            i = i + 1;
        }
        proof {
            assert(all_tasks.take(n as int) =~= all_tasks);
        }
        let total = tasks.len();
        let page_size = match request.page_size {
            Some(v) => match int_as_usize(v) {
                Some(p) => p,
                None => 50,
            },
            None => 50,
        };
        let start = match &request.page_token {
            Some(t) => match parse_usize(t.as_str()) {
                Some(p) => p,
                None => 0,
            },
            None => 0,
        };
        let end = if start + page_size < total { start + page_size } else { total };
        let mut page: Vec<Task> = Vec::new();
        if start < total {
            let mut j: usize = start;
            while j < end
                invariant
                    start <= j <= end <= total,
                    total == tasks.len(),
                    page.deep_view() =~= tasks.deep_view().subrange(start as int, j as int),
                decreases end - j,
            {
                let t = tasks[j].clone();
                let ghost before = page.deep_view();
                page.push(t);
                proof {
                    assert(page.deep_view() =~= before.push(tasks.deep_view()[j as int]));
                }
                j = j + 1;
            }
        }
        let next_page_token = if end < total {
            Some(format_u64(end as u64))
        } else {
            None
        };
        let r = ListTasksResponse {
            tasks: page,
            next_page_token,
            total_size: Some(total as u64),
            page_size: Some(page_size as u64),
            extra: no_fields(),
        };
        proof {
            assert(r.tasks.deep_view() =~= list_response(all_tasks, req).tasks);
        }
        r
    }

    fn push_update(&mut self, key: String, event: TaskUpdateEvent)
        ensures
            final(self)@ == old(self)@.recorded(key@, event@),
    {
        proof {
            use_type_invariant(&*self);
        }
        let ghost pre = self@;
        let ghost pre_logs = self.logs@;
        let n = self.logs.len();
        let mut i: usize = 0;
        while i < n
            invariant_except_break
                n == self.logs.len(),
                self.logs@ == pre_logs,
                i <= n,
                forall|j: int| 0 <= j < i ==> pre_logs[j].task_id@ != key@,
            ensures
                n == self.logs.len(),
                self.logs@ == pre_logs,
                i <= n,
                forall|j: int| 0 <= j < i ==> pre_logs[j].task_id@ != key@,
                i < n ==> pre_logs[i as int].task_id@ == key@,
            decreases n - i,
        {
            if self.logs[i].task_id == key {
                break;
            }
            i = i + 1;
        }
        let ghost target = pre.recorded(key@, event@).updates;
        let mut logs_vec: Vec<UpdateLog> = Vec::new();
        std::mem::swap(&mut logs_vec, &mut self.logs);
        if i < n {
            let mut log = logs_vec.remove(i);
            proof {
                lemma_logs_map_at(pre_logs, i as int);
            }
            log.events.push(event);
            logs_vec.push(log);
            proof {
                let logs = logs_vec@;
                let last = logs.len() - 1;
                assert(logs[last].events.deep_view() =~= pre_logs[i as int].events.deep_view().push(event@));
                assert forall|a: int| 0 <= a < last implies #[trigger] logs[a] == pre_logs[
                    if a < i { a } else { a + 1 }
                ] by {}
                assert(logs_unique(logs)) by {
                    assert forall|a: int, b: int|
                        0 <= a < logs.len() && 0 <= b < logs.len() && a != b
                        implies #[trigger] logs[a].task_id@ != #[trigger] logs[b].task_id@ by {
                        let pa = if a == last { i as int } else if a < i { a } else { a + 1 };
                        let pb = if b == last { i as int } else if b < i { b } else { b + 1 };
                        assert(logs[a].task_id@ == pre_logs[pa].task_id@);
                        assert(logs[b].task_id@ == pre_logs[pb].task_id@);
                    }
                }
                assert forall|a: int| 0 <= a < logs.len() implies
                    target.contains_key(#[trigger] logs[a].task_id@)
                    && target[logs[a].task_id@] == logs[a].events.deep_view() by {
                    if a < last {
                        let pa = if a < i { a } else { a + 1 };
                        lemma_logs_map_at(pre_logs, pa);
                    }
                }
                assert forall|k: Seq<char>| #[trigger] target.contains_key(k)
                    implies exists|a: int| 0 <= a < logs.len() && logs[a].task_id@ == k by {
                    if k == key@ {
                        assert(logs[last].task_id@ == k);
                    } else {
                        let pa = log_index(pre_logs, k);
                        if pa < i {
                            assert(logs[pa].task_id@ == k);
                        } else {
                            assert(logs[pa - 1].task_id@ == k);
                        }
                    }
                }
                lemma_logs_map_ext(logs, target);
            }
            self.logs = logs_vec;
        } else {
            let mut events: Vec<TaskUpdateEvent> = Vec::new();
            events.push(event);
            logs_vec.push(UpdateLog { task_id: key, events });
            proof {
                let logs = logs_vec@;
                let last = logs.len() - 1;
                assert(!log_has(pre_logs, key@));
                assert(logs[last].events.deep_view() =~= seq![event@]);
                assert(pre.pending(key@) =~= Seq::<TaskUpdateEventView>::empty());
                assert forall|a: int| 0 <= a < last implies #[trigger] logs[a] == pre_logs[a] by {}
                assert(logs_unique(logs)) by {
                    assert forall|a: int, b: int|
                        0 <= a < logs.len() && 0 <= b < logs.len() && a != b
                        implies #[trigger] logs[a].task_id@ != #[trigger] logs[b].task_id@ by {
                        if a < last && b < last {
                            assert(logs[a] == pre_logs[a]);
                            assert(logs[b] == pre_logs[b]);
                        } else if a < last {
                            assert(logs[a] == pre_logs[a]);
                        } else if b < last {
                            assert(logs[b] == pre_logs[b]);
                        }
                    }
                }
                assert forall|a: int| 0 <= a < logs.len() implies
                    target.contains_key(#[trigger] logs[a].task_id@)
                    && target[logs[a].task_id@] == logs[a].events.deep_view() by {
                    if a < last {
                        lemma_logs_map_at(pre_logs, a);
                    }
                }
                assert forall|k: Seq<char>| #[trigger] target.contains_key(k)
                    implies exists|a: int| 0 <= a < logs.len() && logs[a].task_id@ == k by {
                    if k == key@ {
                        assert(logs[last].task_id@ == k);
                    } else {
                        let pa = log_index(pre_logs, k);
                        assert(logs[pa].task_id@ == k);
                    }
                }
                lemma_logs_map_ext(logs, target);
            }
            self.logs = logs_vec;
        }
    }

    /// Records a status change of task `task_id` and returns the event; with
    /// no task id, records nothing.
    pub fn record_status_update(
        &mut self,
        task_id: Option<String>,
        context_id: Option<String>,
        status: TaskStatus,
    ) -> (r: Option<TaskUpdateEvent>)
        ensures
            match task_id {
                Some(k) => {
                    &&& r.deep_view() == Some(status_event(k@, context_id.deep_view(), status@))
                    &&& final(self)@ == old(self)@.recorded(k@, status_event(k@, context_id.deep_view(), status@))
                },
                None => r is None && final(self)@ == old(self)@,
            },
    {
        match task_id {
            Some(task_id) => {
                let update = TaskStatusUpdateEvent {
                    context_id,
                    task_id: Some(task_id.clone()),
                    status: Some(status),
                    metadata: None,
                    extra: no_fields(),
                };
                let event = TaskUpdateEvent::Status(update);
                self.push_update(task_id, event.clone());
                Some(event)
            },
            None => None,
        }
    }

    /// Records a new artifact of task `task_id` and returns the event; with
    /// no task id, records nothing.
    pub fn record_artifact_update(
        &mut self,
        task_id: Option<String>,
        context_id: Option<String>,
        artifact: Artifact,
        append: Option<bool>,
        last_chunk: Option<bool>,
    ) -> (r: Option<TaskUpdateEvent>)
        ensures
            match task_id {
                Some(k) => {
                    &&& r.deep_view() == Some(artifact_event(k@, context_id.deep_view(), artifact@, append, last_chunk))
                    &&& final(self)@ == old(self)@.recorded(
                        k@,
                        artifact_event(k@, context_id.deep_view(), artifact@, append, last_chunk),
                    )
                },
                None => r is None && final(self)@ == old(self)@,
            },
    {
        match task_id {
            Some(task_id) => {
                let update = TaskArtifactUpdateEvent {
                    context_id,
                    task_id: Some(task_id.clone()),
                    last_chunk,
                    append,
                    artifact: Some(artifact),
                    metadata: None,
                    extra: no_fields(),
                };
                let event = TaskUpdateEvent::Artifact(update);
                self.push_update(task_id, event.clone());
                Some(event)
            },
            None => None,
        }
    }

    /// Hands out, oldest first, the events recorded for task `task_id` since
    /// they were last handed out, and forgets them.
    pub fn drain_updates(&mut self, task_id: &str) -> (r: Vec<TaskUpdateEvent>)
        ensures
            r.deep_view() == old(self)@.pending(task_id@),
            final(self)@ == old(self)@.drained(task_id@),
    {
        proof {
            use_type_invariant(&*self);
        }
        let key = String::from_str(task_id);
        let ghost pre = self@;
        let ghost pre_logs = self.logs@;
        let n = self.logs.len();
        let mut i: usize = 0;
        while i < n
            invariant_except_break
                n == self.logs.len(),
                self.logs@ == pre_logs,
                i <= n,
                forall|j: int| 0 <= j < i ==> pre_logs[j].task_id@ != key@,
            ensures
                n == self.logs.len(),
                self.logs@ == pre_logs,
                i <= n,
                forall|j: int| 0 <= j < i ==> pre_logs[j].task_id@ != key@,
                i < n ==> pre_logs[i as int].task_id@ == key@,
            decreases n - i,
        {
            if self.logs[i].task_id == key {
                break;
            }
            i = i + 1;
        }
        if i < n {
            let ghost target = pre.drained(key@).updates;
            let mut logs_vec: Vec<UpdateLog> = Vec::new();
            std::mem::swap(&mut logs_vec, &mut self.logs);
            let log = logs_vec.remove(i);
            proof {
                lemma_logs_map_at(pre_logs, i as int);
                assert(log == pre_logs[i as int]);
                let logs = logs_vec@;
                assert forall|a: int| 0 <= a < logs.len() implies #[trigger] logs[a] == pre_logs[
                    if a < i { a } else { a + 1 }
                ] by {}
                assert(logs_unique(logs)) by {
                    assert forall|a: int, b: int|
                        0 <= a < logs.len() && 0 <= b < logs.len() && a != b
                        implies #[trigger] logs[a].task_id@ != #[trigger] logs[b].task_id@ by {
                        let pa = if a < i { a } else { a + 1 };
                        let pb = if b < i { b } else { b + 1 };
                        assert(logs[a] == pre_logs[pa]);
                        assert(logs[b] == pre_logs[pb]);
                    }
                }
                assert forall|a: int| 0 <= a < logs.len() implies
                    target.contains_key(#[trigger] logs[a].task_id@)
                    && target[logs[a].task_id@] == logs[a].events.deep_view() by {
                    let pa = if a < i { a } else { a + 1 };
                    assert(logs[a] == pre_logs[pa]);
                    lemma_logs_map_at(pre_logs, pa);
                }
                assert forall|k: Seq<char>| #[trigger] target.contains_key(k)
                    implies exists|a: int| 0 <= a < logs.len() && logs[a].task_id@ == k by {
                    let pa = log_index(pre_logs, k);
                    assert(pa != i);
                    if pa < i {
                        assert(logs[pa] == pre_logs[pa]);
                    } else {
                        assert(logs[pa - 1] == pre_logs[pa]);
                    }
                }
                lemma_logs_map_ext(logs, target);
            }
            self.logs = logs_vec;
            log.events
        } else {
            proof {
                assert(!log_has(pre_logs, key@));
                assert(pre.updates.remove(key@) =~= pre.updates);
            }
            Vec::new()
        }
    }
}

/// Cuts the history of `task` to its last `limit` messages.
pub fn truncate_history(task: &mut Task, limit: usize)
    ensures
        final(task)@ == with_truncated_history(old(task)@, limit),
{
    if limit == 0 {
        task.history.clear();
        proof {
            assert(task.history.deep_view() =~= truncated(old(task).history.deep_view(), limit));
        }
        return;
    }
    if task.history.len() > limit {
        let start = task.history.len() - limit;
        let tail = task.history.split_off(start);
        task.history = tail;
        proof {
            assert(task.history.deep_view() =~= truncated(old(task).history.deep_view(), limit));
        }
    }
}

} // verus!

verus! {

/// Reading a task back after storing it gives what was stored, and storing
/// leaves every other id's task as it was.
pub proof fn lemma_upsert_then_lookup(v: TaskStoreView, task: TaskView, other: Seq<char>)
    requires
        v.wf(),
        task.id is Some,
        other != task.id->0,
    ensures
        v.upserted(task).lookup(task.id->0) == Some(task),
        v.upserted(task).lookup(other) == v.lookup(other),
{
    let k = task.id->0;
    let u = v.upserted(task);
    lemma_upserted_wf(v, task);
    if v.has_task(k) {
        let i = v.task_index(k);
        assert(u.tasks[i].id == Some(k));
        let j = u.task_index(k);
        assert(u.tasks[j].id == Some(k));
    } else {
        let i = v.tasks.len() as int;
        assert(u.tasks[i].id == Some(k));
        let j = u.task_index(k);
        assert(u.tasks[j].id == Some(k));
    }
    if v.has_task(other) {
        let i = v.task_index(other);
        assert(u.tasks[i] == v.tasks[i]);
        assert(u.has_task(other));
        let j = u.task_index(other);
        assert(u.tasks[j].id == Some(other));
    }
    if u.has_task(other) {
        let j = u.task_index(other);
        assert(v.tasks[j].id == Some(other));
    }
}

/// Storing a task under a known id keeps the order of the tasks; a new id
/// goes to the end.
pub proof fn lemma_upsert_order(v: TaskStoreView, task: TaskView)
    requires
        v.wf(),
        task.id is Some,
    ensures
        v.has_task(task.id->0) ==> v.upserted(task).tasks.len() == v.tasks.len()
            && forall|i: int| 0 <= i < v.tasks.len() ==> #[trigger] v.upserted(task).tasks[i].id == v.tasks[i].id,
        !v.has_task(task.id->0) ==> v.upserted(task).tasks == v.tasks.push(task),
{
    let k = task.id->0;
    if v.has_task(k) {
        let j = v.task_index(k);
        assert forall|i: int| 0 <= i < v.tasks.len() implies #[trigger] v.upserted(task).tasks[i].id == v.tasks[i].id by {
            if i == j {
                assert(v.tasks[j].id == Some(k));
            }
        }
    }
}

/// The events waiting for a task are those recorded for it since it was last
/// drained, in order; draining hands them out once.
pub proof fn lemma_record_then_drain(v: TaskStoreView, id: Seq<char>, e: TaskUpdateEventView, other: Seq<char>)
    requires
        other != id,
    ensures
        v.recorded(id, e).pending(id) == v.pending(id).push(e),
        v.recorded(id, e).pending(other) == v.pending(other),
        v.drained(id).pending(id) == Seq::<TaskUpdateEventView>::empty(),
        v.drained(id).pending(other) == v.pending(other),
        v.drained(id).drained(id) == v.drained(id),
{
    assert(v.drained(id).drained(id).updates =~= v.drained(id).updates);
}

/// Cancelling a stored task leaves it in the cancelled state with its id,
/// context, artifacts and history unchanged; cancelling an unknown id
/// changes nothing.
pub proof fn lemma_cancel_then_lookup(v: TaskStoreView, id: Seq<char>)
    requires
        v.wf(),
    ensures
        v.has_task(id) ==> v.canceled(id).lookup(id) == Some(canceled(v.lookup(id)->0)),
        v.has_task(id) ==> state_matches(v.canceled(id).lookup(id)->0, TaskStateView::Name(TASK_STATE_CANCELED@)),
        !v.has_task(id) ==> v.canceled(id) == v,
        v.canceled(id).tasks.len() == v.tasks.len(),
{
    if v.has_task(id) {
        let i = v.task_index(id);
        let u = v.canceled(id);
        lemma_canceled_wf(v, id);
        assert(u.tasks[i].id == Some(id));
        let j = u.task_index(id);
        assert(u.tasks[j].id == Some(id));
    }
}

/// A history limit keeps at most that many messages, the newest ones.
pub proof fn lemma_truncated_suffix(h: Seq<MessageView>, limit: usize)
    ensures
        truncated(h, limit).len() <= limit || truncated(h, limit) == h,
        truncated(h, limit).len() == if h.len() > limit { limit as int } else { h.len() as int },
        forall|i: int| 0 <= i < truncated(h, limit).len()
            ==> #[trigger] truncated(h, limit)[i] == h[h.len() - truncated(h, limit).len() + i],
{
}

/// Every task that a listing reports is kept by the request's filters, and
/// there are no more of them than tasks in the store.
pub proof fn lemma_listed_kept(tasks: Seq<TaskView>, req: ListTasksRequestView)
    ensures
        listed(tasks, req).len() <= tasks.len(),
        forall|i: int| 0 <= i < listed(tasks, req).len()
            ==> exists|j: int| 0 <= j < tasks.len() && list_keeps(tasks[j], req)
                && #[trigger] listed(tasks, req)[i] == list_shape(tasks[j], req),
    decreases tasks.len(),
{
    if tasks.len() > 0 {
        let p = tasks.drop_last();
        lemma_listed_kept(p, req);
        let l = listed(tasks, req);
        assert forall|i: int| 0 <= i < l.len()
            implies exists|j: int| 0 <= j < tasks.len() && list_keeps(tasks[j], req)
                && #[trigger] l[i] == list_shape(tasks[j], req) by {
            if i < listed(p, req).len() {
                let j = choose|j: int| 0 <= j < p.len() && list_keeps(p[j], req)
                    && listed(p, req)[i] == list_shape(p[j], req);
                assert(tasks[j] == p[j]);
            } else {
                assert(tasks[tasks.len() - 1] == tasks.last());
            }
        }
    }
}

/// Following a listing's next page token resumes exactly where the page
/// ended, and the page is as long as the page size.
pub proof fn lemma_next_page_token(tasks: Seq<TaskView>, req: ListTasksRequestView, next_token: Seq<char>)
    requires
        list_start(req) + list_page_size(req) <= usize::MAX,
        list_response(tasks, req).next_page_token == Some(next_token),
    ensures
        list_start(ListTasksRequestView { page_token: Some(next_token), ..req }) == list_end(tasks, req),
        list_end(tasks, req) == list_start(req) + list_page_size(req),
        list_response(tasks, req).tasks.len() == list_page_size(req),
{
    let end = list_end(tasks, req);
    lemma_parse_decimal(end as usize);
}


/// What following a listing's next page tokens collects, starting from the
/// page of `token` and reading at most `fuel` pages: the tasks of each page
/// in turn, or `None` where the pages outlast the fuel.
pub open spec fn walk_pages(
    tasks: Seq<TaskView>,
    req: ListTasksRequestView,
    token: Option<Seq<char>>,
    fuel: nat,
) -> Option<Seq<TaskView>>
    decreases fuel,
{
    if fuel == 0 {
        None
    } else {
        let page = list_response(tasks, ListTasksRequestView { page_token: token, ..req });
        match page.next_page_token {
            None => Some(page.tasks),
            Some(next) => match walk_pages(tasks, req, Some(next), (fuel - 1) as nat) {
                Some(rest) => Some(page.tasks + rest),
                None => None,
            },
        }
    }
}

/// How many pages a listing of `remaining` tasks takes at `page_size` a page:
/// one page at least.
pub open spec fn pages_needed(remaining: int, page_size: int) -> nat
    decreases remaining,
{
    if remaining <= page_size || page_size <= 0 {
        1
    } else {
        1 + pages_needed(remaining - page_size, page_size)
    }
}

proof fn lemma_pages_needed_closed_form(remaining: int, page_size: int)
    requires
        remaining >= 0,
        page_size >= 1,
    ensures
        pages_needed(remaining, page_size) == if remaining == 0 {
            1
        } else {
            (remaining + page_size - 1) / page_size
        },
    decreases remaining,
{
    if remaining == 0 {
    } else if remaining <= page_size {
        assert((remaining + page_size - 1) / page_size == 1) by (nonlinear_arith)
            requires
                1 <= remaining <= page_size,
        {
            assert(page_size <= remaining + page_size - 1 < 2 * page_size);
        }
    } else {
        lemma_pages_needed_closed_form(remaining - page_size, page_size);
        assert((remaining + page_size - 1) / page_size == 1 + (remaining - page_size + page_size - 1)
            / page_size) by (nonlinear_arith)
            requires
                page_size >= 1,
                remaining > page_size,
        {
            let a = remaining - 1;
            assert((a + page_size) / page_size == a / page_size + 1) by (nonlinear_arith)
                requires page_size >= 1, a >= 0;
        }
    }
}

proof fn lemma_walk_from(tasks: Seq<TaskView>, req: ListTasksRequestView, token: Option<Seq<char>>, s: nat, fuel: nat)
    requires
        list_page_size(req) >= 1,
        listed(tasks, req).len() <= usize::MAX,
        list_start(ListTasksRequestView { page_token: token, ..req }) == s,
        s <= listed(tasks, req).len(),
    ensures
        walk_pages(tasks, req, token, fuel) == if fuel >= pages_needed(
            listed(tasks, req).len() - s,
            list_page_size(req) as int,
        ) {
            Some(listed(tasks, req).subrange(s as int, listed(tasks, req).len() as int))
        } else {
            None::<Seq<TaskView>>
        },
    decreases fuel,
{
    let all = listed(tasks, req);
    let n = all.len();
    let ps = list_page_size(req) as int;
    let r = ListTasksRequestView { page_token: token, ..req };
    assert(listed(tasks, r) == all) by {
        lemma_listed_same_filters(tasks, req, r);
    }
    if fuel == 0 {
        return;
    }
    let page = list_response(tasks, r);
    let end = list_end(tasks, r);
    if s == n {
        assert(page.tasks =~= all.subrange(s as int, n as int));
    } else {
        assert(page.tasks =~= all.subrange(s as int, end));
        if end < n {
            let next = decimal(end as nat);
            lemma_parse_decimal(end as usize);
            let r2 = ListTasksRequestView { page_token: Some(next), ..req };
            assert(list_start(r2) == end);
            lemma_walk_from(tasks, req, Some(next), end as nat, (fuel - 1) as nat);
            assert(all.subrange(s as int, end) + all.subrange(end, n as int) =~= all.subrange(s as int, n as int));
        }
    }
}

proof fn lemma_listed_same_filters(tasks: Seq<TaskView>, a: ListTasksRequestView, b: ListTasksRequestView)
    requires
        a.context_id == b.context_id,
        a.status == b.status,
        a.include_artifacts == b.include_artifacts,
        a.history_length == b.history_length,
    ensures
        listed(tasks, a) == listed(tasks, b),
    decreases tasks.len(),
{
    if tasks.len() > 0 {
        lemma_listed_same_filters(tasks.drop_last(), a, b);
    }
}

/// Paging through a listing: starting without a page token and following
/// each next page token, with a page size `ps` of at least one, the walk
/// takes exactly max(1, ceil(n / ps)) pages for `n` listed tasks (with fewer
/// pages it has not ended), together they hold every listed task exactly
/// once and in store order, and every page reports the same total.
pub proof fn lemma_paging_walk(tasks: Seq<TaskView>, req: ListTasksRequestView, token: Option<Seq<char>>, fuel: nat)
    requires
        list_page_size(req) >= 1,
        tasks.len() <= usize::MAX,
    ensures
        walk_pages(tasks, req, None, fuel) == if fuel >= pages_needed(
            listed(tasks, req).len() as int,
            list_page_size(req) as int,
        ) {
            Some(listed(tasks, req))
        } else {
            None::<Seq<TaskView>>
        },
        pages_needed(listed(tasks, req).len() as int, list_page_size(req) as int) == if listed(tasks, req).len()
            == 0 {
            1
        } else {
            (listed(tasks, req).len() + list_page_size(req) - 1) / (list_page_size(req) as int)
        },
        list_response(tasks, ListTasksRequestView { page_token: token, ..req }).total_size == Some(
            listed(tasks, req).len() as u64,
        ),
{
    let all = listed(tasks, req);
    lemma_listed_kept(tasks, req);
    lemma_walk_from(tasks, req, None, 0, fuel);
    assert(all.subrange(0, all.len() as int) =~= all);
    lemma_pages_needed_closed_form(all.len() as int, list_page_size(req) as int);
    lemma_listed_same_filters(tasks, req, ListTasksRequestView { page_token: token, ..req });
}

/// What a listing shows of artifacts: without `include_artifacts` set to
/// true every listed task has none; with it, every listed task carries the
/// artifacts of the stored task it shows, under the same id.
pub proof fn lemma_list_artifacts(tasks: Seq<TaskView>, req: ListTasksRequestView)
    ensures
        forall|i: int|
            0 <= i < list_response(tasks, req).tasks.len() ==> {
                let t = #[trigger] list_response(tasks, req).tasks[i];
                &&& req.include_artifacts != Some(true) ==> t.artifacts.len() == 0
                &&& req.include_artifacts == Some(true) ==> exists|j: int|
                    0 <= j < tasks.len() && tasks[j].id == t.id && tasks[j].artifacts == t.artifacts
            },
{
    let all = listed(tasks, req);
    let resp = list_response(tasks, req);
    let start = list_start(req);
    let end = list_end(tasks, req);
    lemma_listed_kept(tasks, req);
    assert forall|i: int| 0 <= i < resp.tasks.len() implies {
        let t = #[trigger] resp.tasks[i];
        &&& req.include_artifacts != Some(true) ==> t.artifacts.len() == 0
        &&& req.include_artifacts == Some(true) ==> exists|j: int|
            0 <= j < tasks.len() && tasks[j].id == t.id && tasks[j].artifacts == t.artifacts
    } by {
        assert(start < all.len());
        assert(resp.tasks[i] == all[start + i]);
        let j = choose|j: int| 0 <= j < tasks.len() && list_keeps(tasks[j], req)
            && all[start + i] == list_shape(tasks[j], req);
        assert(tasks[j].id == resp.tasks[i].id);
    }
}

/// One call that changes a task store, by its effect on the abstract state.
pub enum StoreOp {
    Upsert(TaskView),
    Cancel(Seq<char>),
    InsertMessage(MessageView),
    Record(Seq<char>, TaskUpdateEventView),
    Drain(Seq<char>),
}

/// The store after one call.
pub open spec fn apply_op(v: TaskStoreView, op: StoreOp) -> TaskStoreView {
    match op {
        StoreOp::Upsert(t) => v.upserted(t),
        StoreOp::Cancel(id) => v.canceled(id),
        StoreOp::InsertMessage(m) => v.with_message(m),
        StoreOp::Record(id, e) => v.recorded(id, e),
        StoreOp::Drain(id) => v.drained(id),
    }
}

/// The store after a sequence of calls, in order.
pub open spec fn run_ops(v: TaskStoreView, ops: Seq<StoreOp>) -> TaskStoreView
    decreases ops.len(),
{
    if ops.len() == 0 {
        v
    } else {
        apply_op(run_ops(v, ops.drop_last()), ops.last())
    }
}

/// The events that a sequence of calls records for task `id`, in order.
pub open spec fn recorded_for(ops: Seq<StoreOp>, id: Seq<char>) -> Seq<TaskUpdateEventView>
    decreases ops.len(),
{
    if ops.len() == 0 {
        Seq::empty()
    } else {
        let p = recorded_for(ops.drop_last(), id);
        match ops.last() {
            StoreOp::Record(k, e) => if k == id {
                p.push(e)
            } else {
                p
            },
            _ => p,
        }
    }
}

/// Whether a call stores a task under `id`.
pub open spec fn stores_id(op: StoreOp, id: Seq<char>) -> bool {
    op matches StoreOp::Upsert(t) && t.id == Some(id)
}

/// Whether a call drains the events of task `id`.
pub open spec fn drains(op: StoreOp, id: Seq<char>) -> bool {
    op matches StoreOp::Drain(k) && k == id
}

proof fn lemma_apply_keeps_ids(v: TaskStoreView, op: StoreOp, id: Seq<char>)
    ensures
        v.has_task(id) ==> apply_op(v, op).has_task(id),
        apply_op(v, op).has_task(id) <==> (v.has_task(id) || stores_id(op, id)),
{
    let u = apply_op(v, op);
    if v.has_task(id) {
        let i = choose|i: int| 0 <= i < v.tasks.len() && v.tasks[i].id == Some(id);
        match op {
            StoreOp::Upsert(t) => {
                if let Some(k) = t.id {
                    if v.has_task(k) {
                        let j = v.task_index(k);
                        if i == j {
                            assert(k == id);
                            assert(u.tasks[j].id == Some(id));
                        } else {
                            assert(u.tasks[i].id == Some(id));
                        }
                    } else {
                        assert(u.tasks[i].id == Some(id));
                    }
                }
            },
            StoreOp::Cancel(k) => {
                if v.has_task(k) {
                    let j = v.task_index(k);
                    assert(u.tasks[i].id == Some(id));
                }
            },
            StoreOp::InsertMessage(m) => {
                if let Some(k) = m.task_id {
                    if v.has_task(k) {
                        assert(u.tasks[i].id == Some(id));
                    }
                }
            },
            _ => {
                assert(u.tasks[i].id == Some(id));
            },
        }
    }
    if stores_id(op, id) && !v.has_task(id) {
        assert(u.tasks[v.tasks.len() as int].id == Some(id));
    }
    if u.has_task(id) && !v.has_task(id) {
        let i = choose|i: int| 0 <= i < u.tasks.len() && u.tasks[i].id == Some(id);
        match op {
            StoreOp::Upsert(t) => {
                if let Some(k) = t.id {
                    if v.has_task(k) {
                        let j = v.task_index(k);
                        if i != j {
                            assert(v.tasks[i].id == Some(id));
                        }
                    } else {
                        if i < v.tasks.len() {
                            assert(v.tasks[i].id == Some(id));
                        }
                    }
                }
            },
            StoreOp::Cancel(k) => {
                if v.has_task(k) {
                    let j = v.task_index(k);
                    assert(v.tasks[i].id == Some(id));
                }
            },
            StoreOp::InsertMessage(m) => {
                if let Some(k) = m.task_id {
                    if v.has_task(k) {
                        assert(v.tasks[i].id == Some(id));
                    }
                }
            },
            _ => {
                assert(v.tasks[i].id == Some(id));
            },
        }
    }
}

/// Task ids are never removed: after any sequence of calls a stored id is
/// still stored, and an id is stored exactly when it was stored before or
/// some call stored a task under it.
pub proof fn lemma_ids_never_removed(v: TaskStoreView, ops: Seq<StoreOp>, id: Seq<char>)
    ensures
        v.has_task(id) ==> run_ops(v, ops).has_task(id),
        run_ops(v, ops).has_task(id) <==> (v.has_task(id) || exists|i: int|
            0 <= i < ops.len() && stores_id(#[trigger] ops[i], id)),
    decreases ops.len(),
{
    if ops.len() > 0 {
        let p = ops.drop_last();
        lemma_ids_never_removed(v, p, id);
        lemma_apply_keeps_ids(run_ops(v, p), ops.last(), id);
        if exists|i: int| 0 <= i < ops.len() && stores_id(#[trigger] ops[i], id) {
            let i = choose|i: int| 0 <= i < ops.len() && stores_id(#[trigger] ops[i], id);
            if i < p.len() {
                assert(p[i] == ops[i]);
            }
        }
        if exists|i: int| 0 <= i < p.len() && stores_id(#[trigger] p[i], id) {
            let i = choose|i: int| 0 <= i < p.len() && stores_id(#[trigger] p[i], id);
            assert(ops[i] == p[i]);
        }
    }
}

/// Between two drains of a task, its waiting events are exactly those
/// recorded for it, in recording order: calls that do not drain it append
/// its recorded events and nothing else, and after a drain the next drain
/// hands out exactly what was recorded since.
pub proof fn lemma_pending_between_drains(v: TaskStoreView, ops: Seq<StoreOp>, id: Seq<char>)
    requires
        forall|i: int| 0 <= i < ops.len() ==> !drains(#[trigger] ops[i], id),
    ensures
        run_ops(v, ops).pending(id) == v.pending(id) + recorded_for(ops, id),
        run_ops(v.drained(id), ops).pending(id) == recorded_for(ops, id),
    decreases ops.len(),
{
    if ops.len() > 0 {
        let p = ops.drop_last();
        assert forall|i: int| 0 <= i < p.len() implies !drains(#[trigger] p[i], id) by {
            assert(p[i] == ops[i]);
        }
        assert(!drains(ops[ops.len() - 1], id));
        lemma_pending_between_drains(v, p, id);
        assert(v.pending(id) + recorded_for(p, id).push(ops.last()->Record_1) =~= (v.pending(id)
            + recorded_for(p, id)).push(ops.last()->Record_1));
    } else {
        assert(v.pending(id) + Seq::<TaskUpdateEventView>::empty() =~= v.pending(id));
    }
    assert(v.drained(id).pending(id) =~= Seq::<TaskUpdateEventView>::empty());
    if ops.len() > 0 {
        lemma_pending_between_drains(v.drained(id), ops.drop_last(), id);
    }
    assert(Seq::<TaskUpdateEventView>::empty() + recorded_for(ops, id) =~= recorded_for(ops, id));
}

/// The empty store that `TaskStore::new` makes.
pub open spec fn empty_store() -> TaskStoreView {
    TaskStoreView { tasks: Seq::empty(), updates: Map::empty() }
}

/// Reading a task from a store built by any sequence of calls finds
/// nothing exactly when no call ever stored a task under that id.
pub proof fn lemma_get_after_ops(ops: Seq<StoreOp>, id: Seq<char>, history_length: Option<usize>)
    ensures
        run_ops(empty_store(), ops).got(id, history_length) is None <==> !exists|i: int|
            0 <= i < ops.len() && stores_id(#[trigger] ops[i], id),
{
    lemma_ids_never_removed(empty_store(), ops, id);
}

/// Whether a task is one that a `tasks.list` request asks for: it is in the
/// named context, where the request names one, and its current state is the
/// named state, where the request names one. Both conditions hold together.
pub open spec fn asked_for(t: TaskView, req: ListTasksRequestView) -> bool {
    &&& req.context_id is Some ==> t.context_id == req.context_id
    &&& req.status is Some ==> t.status is Some && t.status->0.state == req.status
}

proof fn lemma_keeps_is_asked_for(t: TaskView, req: ListTasksRequestView)
    ensures
        list_keeps(t, req) <==> asked_for(t, req),
{
}

proof fn lemma_listed_len(tasks: Seq<TaskView>, req: ListTasksRequestView)
    ensures
        listed(tasks, req).len() == tasks.filter(|t: TaskView| asked_for(t, req)).len(),
    decreases tasks.len(),
{
    reveal(Seq::filter);
    if tasks.len() > 0 {
        lemma_listed_len(tasks.drop_last(), req);
        lemma_keeps_is_asked_for(tasks.last(), req);
    }
}

/// Listing filters by context and by state together: every task a listing
/// reports is in the requested context and in the requested state (each
/// where the request names one), keeps its id, and the reported total is the
/// number of stored tasks that meet both conditions.
pub proof fn lemma_list_filters(tasks: Seq<TaskView>, req: ListTasksRequestView)
    ensures
        forall|i: int|
            0 <= i < list_response(tasks, req).tasks.len() ==> {
                let t = #[trigger] list_response(tasks, req).tasks[i];
                &&& asked_for(t, req)
                &&& exists|j: int| 0 <= j < tasks.len() && tasks[j].id == t.id && asked_for(tasks[j], req)
            },
        list_response(tasks, req).total_size == Some(
            tasks.filter(|t: TaskView| asked_for(t, req)).len() as u64,
        ),
{
    let all = listed(tasks, req);
    let resp = list_response(tasks, req);
    let start = list_start(req);
    lemma_listed_kept(tasks, req);
    lemma_listed_len(tasks, req);
    assert forall|i: int| 0 <= i < resp.tasks.len() implies {
        let t = #[trigger] resp.tasks[i];
        &&& asked_for(t, req)
        &&& exists|j: int| 0 <= j < tasks.len() && tasks[j].id == t.id && asked_for(tasks[j], req)
    } by {
        assert(start < all.len());
        assert(resp.tasks[i] == all[start + i]);
        let j = choose|j: int| 0 <= j < tasks.len() && list_keeps(tasks[j], req)
            && all[start + i] == list_shape(tasks[j], req);
        lemma_keeps_is_asked_for(tasks[j], req);
        lemma_keeps_is_asked_for(resp.tasks[i], req);
        assert(tasks[j].id == resp.tasks[i].id);
    }
}

/// Cancelling a stored task changes only its state: the task read back has
/// the cancelled state, and the same id, context, artifacts, history,
/// metadata, other fields and status timestamp as before.
pub proof fn lemma_cancel_changes_only_state(v: TaskStoreView, id: Seq<char>)
    requires
        v.wf(),
        v.has_task(id),
    ensures
        ({
            let before = v.lookup(id)->0;
            let after = v.canceled(id).lookup(id)->0;
            &&& v.canceled(id).lookup(id) is Some
            &&& after.id == before.id
            &&& after.context_id == before.context_id
            &&& after.artifacts == before.artifacts
            &&& after.history == before.history
            &&& after.metadata == before.metadata
            &&& after.extra == before.extra
            &&& after.status is Some
            &&& after.status->0.state == Some(TaskStateView::Name(TASK_STATE_CANCELED@))
            &&& after.status->0.timestamp == match before.status {
                Some(st) => st.timestamp,
                None => None,
            }
        }),
        v.canceled(id).tasks.len() == v.tasks.len(),
{
    lemma_cancel_then_lookup(v, id);
}

} // verus!

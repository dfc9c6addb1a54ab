use baml_rt::a2a_store::{TaskStore, TaskUpdateEvent};
use baml_rt::a2a_transport::{
    classify_a2a_error, emit_artifact_updates, handle_tasks_cancel, handle_tasks_get,
    handle_tasks_subscribe, is_stream_response, list_request_in_range, map_jsonrpc_error,
    plan_agent_build, record_task, select_a2a_result, store_a2a_result, A2aResult, AgentBuildPlan,
    SubscribeOutcome,
};
use baml_rt::a2a_types::{
    Artifact, CancelTaskRequest, GetTaskRequest, ListTasksRequest, Message, Part,
    SendMessageResponse, StreamResponse, SubscribeToTaskRequest, Task, TaskArtifactUpdateEvent,
    TaskState, TaskStatus, TaskStatusUpdateEvent,
};
use baml_rt::BamlRtError;

fn working() -> TaskStatus {
    TaskStatus { state: Some(TaskState::String("TASK_STATE_WORKING".to_string())), timestamp: None }
}

fn artifact(name: &str) -> Artifact {
    Artifact {
        artifact_id: None,
        name: Some(name.to_string()),
        parts: vec![Part { text: Some("sealed".to_string()), ..Part::default() }],
        metadata: None,
        extra: vec![],
    }
}

fn rite_task(id: &str, artifacts: Vec<Artifact>) -> Task {
    Task {
        id: Some(id.to_string()),
        context_id: Some("vox".to_string()),
        status: Some(working()),
        artifacts,
        history: vec![],
        metadata: None,
        extra: vec![],
    }
}

fn agent_message(task_id: Option<&str>) -> Message {
    Message {
        message_id: "resp-1".to_string(),
        role: "ROLE_AGENT".to_string(),
        parts: vec![Part { text: Some("ok".to_string()), ..Part::default() }],
        context_id: Some("vox".to_string()),
        task_id: task_id.map(|s| s.to_string()),
        reference_task_ids: vec![],
        extensions: vec![],
        metadata: None,
        extra: vec![],
    }
}

#[test]
fn a_task_result_is_stored_with_status_and_artifact_events() {
    let mut store = TaskStore::new();
    let events = store_a2a_result(&mut store, A2aResult::Task(rite_task("rite-task-vox-1", vec![artifact("log")])));
    assert_eq!(events.len(), 2);
    assert!(matches!(&events[0], TaskUpdateEvent::Status(s) if s.task_id.as_deref() == Some("rite-task-vox-1")));
    match &events[1] {
        TaskUpdateEvent::Artifact(a) => {
            assert_eq!(a.append, Some(false));
            assert_eq!(a.last_chunk, Some(true));
            assert_eq!(a.artifact, Some(artifact("log")));
        }
        TaskUpdateEvent::Status(_) => panic!("expected an artifact event"),
    }
    assert!(store.get("rite-task-vox-1", None).is_some());
    assert_eq!(store.drain_updates("rite-task-vox-1"), events);
}

#[test]
fn a_send_result_stores_the_task_and_the_message() {
    let mut store = TaskStore::new();
    let result = A2aResult::Send(SendMessageResponse {
        task: Some(rite_task("t1", vec![])),
        message: Some(agent_message(Some("t1"))),
    });
    let events = store_a2a_result(&mut store, result);
    assert_eq!(events.len(), 1);
    assert_eq!(store.get("t1", None).unwrap().history, vec![agent_message(Some("t1"))]);
}

#[test]
fn a_message_only_result_stores_no_task() {
    let mut store = TaskStore::new();
    let result = A2aResult::Send(SendMessageResponse { task: None, message: Some(agent_message(None)) });
    assert!(store_a2a_result(&mut store, result).is_empty());
    assert_eq!(store.list(&ListTasksRequest {
        context_id: None, status: None, include_artifacts: None, history_length: None, page_size: None, page_token: None,
    }).total_size, Some(0));
}

#[test]
fn stream_updates_are_recorded_even_for_unknown_tasks() {
    let mut store = TaskStore::new();
    let status_chunk = StreamResponse {
        task: None,
        message: None,
        status_update: Some(TaskStatusUpdateEvent {
            context_id: Some("vox".to_string()),
            task_id: Some("rite-task-vox-2".to_string()),
            status: Some(working()),
            metadata: None,
            extra: vec![],
        }),
        artifact_update: None,
        extra: vec![],
    };
    let artifact_chunk = StreamResponse {
        task: None,
        message: None,
        status_update: None,
        artifact_update: Some(TaskArtifactUpdateEvent {
            context_id: Some("vox".to_string()),
            task_id: Some("rite-task-vox-2".to_string()),
            last_chunk: None,
            append: None,
            artifact: None,
            metadata: None,
            extra: vec![],
        }),
        extra: vec![],
    };
    assert_eq!(store_a2a_result(&mut store, A2aResult::Stream(status_chunk)).len(), 1);
    let events = store_a2a_result(&mut store, A2aResult::Stream(artifact_chunk));
    match &events[0] {
        TaskUpdateEvent::Artifact(a) => assert_eq!(a.artifact, Some(Artifact::default())),
        TaskUpdateEvent::Status(_) => panic!("expected an artifact event"),
    }
    assert!(store.get("rite-task-vox-2", None).is_none());
    assert_eq!(store.drain_updates("rite-task-vox-2").len(), 2);
}

#[test]
fn a_status_update_without_status_records_nothing() {
    let mut store = TaskStore::new();
    let chunk = StreamResponse {
        task: None,
        message: None,
        status_update: Some(TaskStatusUpdateEvent {
            context_id: None,
            task_id: Some("t".to_string()),
            status: None,
            metadata: None,
            extra: vec![],
        }),
        artifact_update: None,
        extra: vec![],
    };
    assert!(store_a2a_result(&mut store, A2aResult::Stream(chunk)).is_empty());
    assert!(store.drain_updates("t").is_empty());
}

#[test]
fn results_are_read_by_precedence() {
    let stream =
        StreamResponse { task: None, message: None, status_update: None, artifact_update: None, extra: vec![] };
    let send = SendMessageResponse { task: None, message: None };
    assert!(matches!(select_a2a_result(true, Some(stream.clone()), Some(send.clone()), None), A2aResult::Stream(_)));
    assert!(matches!(select_a2a_result(false, Some(stream.clone()), Some(send.clone()), None), A2aResult::Send(_)));
    assert!(matches!(select_a2a_result(false, Some(stream.clone()), None, None), A2aResult::Stream(_)));
    assert!(matches!(select_a2a_result(true, None, None, Some(rite_task("t", vec![]))), A2aResult::Task(_)));
    assert!(matches!(select_a2a_result(false, None, None, None), A2aResult::Unrecognized));
}

#[test]
fn tasks_get_answers_from_the_store() {
    let mut store = TaskStore::new();
    record_task(&mut store, rite_task("t1", vec![]));
    let got = handle_tasks_get(&store, &GetTaskRequest { id: "t1".to_string(), history_length: Some(3) }).unwrap();
    assert_eq!(got.id, Some("t1".to_string()));
    match handle_tasks_get(&store, &GetTaskRequest { id: "t2".to_string(), history_length: None }) {
        Err(BamlRtError::InvalidArgument(m)) => assert_eq!(m, "Task not found"),
        other => panic!("unexpected {:?}", other),
    }
}

#[test]
fn tasks_cancel_records_the_new_status() {
    let mut store = TaskStore::new();
    record_task(&mut store, rite_task("t1", vec![]));
    store.drain_updates("t1");
    let (task, events) = handle_tasks_cancel(&mut store, &CancelTaskRequest { id: "t1".to_string() }).unwrap();
    assert_eq!(task.status.as_ref().unwrap().state, Some(TaskState::String("TASK_STATE_CANCELED".to_string())));
    assert_eq!(events.len(), 1);
    assert_eq!(store.drain_updates("t1"), events);
    assert!(matches!(
        handle_tasks_cancel(&mut store, &CancelTaskRequest { id: "zz".to_string() }),
        Err(BamlRtError::InvalidArgument(_))
    ));
}

#[test]
fn tasks_subscribe_streams_snapshot_then_updates() {
    let mut store = TaskStore::new();
    record_task(&mut store, rite_task("rite-task-vox-3", vec![artifact("rite-log")]));
    let request = SubscribeToTaskRequest { id: "rite-task-vox-3".to_string() };
    match handle_tasks_subscribe(&mut store, &request, false).unwrap() {
        SubscribeOutcome::Snapshot(t) => assert_eq!(t.id, Some("rite-task-vox-3".to_string())),
        SubscribeOutcome::Stream(_) => panic!("expected a snapshot"),
    }
    match handle_tasks_subscribe(&mut store, &request, true).unwrap() {
        SubscribeOutcome::Stream(chunks) => {
            assert_eq!(chunks.len(), 3);
            assert!(chunks[0].task.is_some() && chunks[0].status_update.is_some());
            assert!(chunks[1].status_update.is_some() && chunks[1].task.is_none());
            assert!(chunks[2].artifact_update.is_some());
        }
        SubscribeOutcome::Snapshot(_) => panic!("expected a stream"),
    }
    match handle_tasks_subscribe(&mut store, &request, true).unwrap() {
        SubscribeOutcome::Stream(chunks) => assert_eq!(chunks.len(), 1),
        SubscribeOutcome::Snapshot(_) => panic!("expected a stream"),
    }
    assert!(handle_tasks_subscribe(&mut store, &SubscribeToTaskRequest { id: "x".to_string() }, true).is_err());
}

#[test]
fn emitted_artifact_updates_follow_artifact_order() {
    let mut store = TaskStore::new();
    let events = emit_artifact_updates(&mut store, &"t".to_string(), &None, &vec![artifact("a"), artifact("b")]);
    let names: Vec<_> = events
        .iter()
        .map(|e| match e {
            TaskUpdateEvent::Artifact(a) => a.artifact.as_ref().unwrap().name.clone().unwrap(),
            TaskUpdateEvent::Status(_) => panic!("expected artifact events"),
        })
        .collect();
    assert_eq!(names, vec!["a", "b"]);
}

#[test]
fn list_range_check() {
    let mut req = ListTasksRequest {
        context_id: None, status: None, include_artifacts: None, history_length: None, page_size: None, page_token: None,
    };
    assert!(list_request_in_range(&req));
    req.page_token = Some(usize::MAX.to_string());
    assert!(!list_request_in_range(&req));
    req.page_size = Some(0);
    assert!(list_request_in_range(&req));
}

#[test]
fn errors_map_to_jsonrpc_codes() {
    let e = map_jsonrpc_error(&BamlRtError::InvalidArgument("Task not found".to_string()));
    assert_eq!(e.code, -32600);
    assert_eq!(e.message, "Invalid request");
    assert_eq!(
        e.data,
        vec![
            ("error".to_string(), "Invalid argument: Task not found".to_string()),
            ("details".to_string(), "Task not found".to_string()),
        ]
    );
    assert_eq!(map_jsonrpc_error(&BamlRtError::FunctionNotFound("f".to_string())).code, -32601);
    assert_eq!(map_jsonrpc_error(&BamlRtError::Json("bad".to_string())).code, -32700);
    let q = map_jsonrpc_error(&BamlRtError::QuickJsWithSource { context: "js".to_string(), source: "boom".to_string() });
    assert_eq!(q.code, -32603);
    assert_eq!(q.message, "Internal error");
    assert_eq!(q.data[1], ("context".to_string(), "js".to_string()));
    assert_eq!(map_jsonrpc_error(&BamlRtError::Io("disk".to_string())).data.len(), 1);
}

#[test]
fn errors_are_classified_for_metrics() {
    assert_eq!(classify_a2a_error(&BamlRtError::InvalidArgument(String::new())), "invalid_argument");
    assert_eq!(classify_a2a_error(&BamlRtError::FunctionNotFound(String::new())), "function_not_found");
    assert_eq!(classify_a2a_error(&BamlRtError::QuickJs(String::new())), "quickjs");
    assert_eq!(classify_a2a_error(&BamlRtError::Json(String::new())), "json");
    assert_eq!(classify_a2a_error(&BamlRtError::ToolExecution(String::new())), "tool_execution");
    assert_eq!(
        classify_a2a_error(&BamlRtError::QuickJsWithSource { context: String::new(), source: String::new() }),
        "internal"
    );
}

#[test]
fn stream_chunks_are_recognised_by_their_keys() {
    let keys = |ks: &[&str]| Some(ks.iter().map(|k| k.to_string()).collect::<Vec<_>>());
    assert!(is_stream_response(&keys(&["statusUpdate"])));
    assert!(is_stream_response(&keys(&["id", "task"])));
    assert!(!is_stream_response(&keys(&["messageId", "parts"])));
    assert!(!is_stream_response(&keys(&[])));
    assert!(!is_stream_response(&None));
}

#[test]
fn agent_build_needs_a_runtime_for_a_bridge() {
    match plan_agent_build(false, true, true) {
        Err(BamlRtError::InvalidArgument(m)) => {
            assert_eq!(m, "A2aAgentBuilder requires a runtime handle when providing a bridge")
        }
        other => panic!("unexpected {:?}", other),
    }
    assert_eq!(
        plan_agent_build(false, false, true).unwrap(),
        AgentBuildPlan { create_runtime: true, create_bridge: true, register_baml_functions: true }
    );
    assert_eq!(
        plan_agent_build(true, true, false).unwrap(),
        AgentBuildPlan { create_runtime: false, create_bridge: false, register_baml_functions: false }
    );
}

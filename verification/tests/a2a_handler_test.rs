use baml_rt::a2a_handler::{
    a2a_method_kind, plan_replies, request_is_stream, route_a2a, store_stream_results, stream_source, A2aMethodKind, A2aRoute,
    OutcomeShape, ReplyPlan, StreamSource,
};
use baml_rt::a2a_store::{TaskStore, TaskUpdateEvent};
use baml_rt::a2a_transport::A2aResult;
use baml_rt::a2a_types::{
    Part, StreamResponse, Task, TaskArtifactUpdateEvent, TaskState, TaskStatus, TaskStatusUpdateEvent,
};
use baml_rt::quickjs_bridge::{baml_execution_error, helper_call, json_args_outcome, parse_helper_args, BamlHelper};
use baml_rt::BamlRtError;

fn working() -> TaskStatus {
    TaskStatus { state: Some(TaskState::String("TASK_STATE_WORKING".to_string())), timestamp: None }
}

fn status_chunk(task_id: &str) -> A2aResult {
    A2aResult::Stream(StreamResponse {
        task: None,
        message: None,
        status_update: Some(TaskStatusUpdateEvent {
            context_id: Some("vox".to_string()),
            task_id: Some(task_id.to_string()),
            status: Some(working()),
            metadata: None,
            extra: vec![],
        }),
        artifact_update: None,
        extra: vec![],
    })
}

fn artifact_chunk(task_id: &str) -> A2aResult {
    A2aResult::Stream(StreamResponse {
        task: None,
        message: None,
        status_update: None,
        artifact_update: Some(TaskArtifactUpdateEvent {
            context_id: Some("vox".to_string()),
            task_id: Some(task_id.to_string()),
            last_chunk: None,
            append: None,
            artifact: None,
            metadata: None,
            extra: vec![],
        }),
        extra: vec![],
    })
}

#[test]
fn method_names_are_read() {
    assert_eq!(a2a_method_kind("tasks.get"), A2aMethodKind::TasksGet);
    assert_eq!(a2a_method_kind("tasks.list"), A2aMethodKind::TasksList);
    assert_eq!(a2a_method_kind("tasks.cancel"), A2aMethodKind::TasksCancel);
    assert_eq!(a2a_method_kind("tasks.subscribe"), A2aMethodKind::TasksSubscribe);
    assert_eq!(a2a_method_kind("message.send"), A2aMethodKind::Other);
    assert_eq!(a2a_method_kind("message.sendStream"), A2aMethodKind::Other);
}

#[test]
fn stream_requests_are_recognised() {
    assert!(request_is_stream("message.sendStream", None));
    assert!(request_is_stream("tasks.subscribe", Some(true)));
    assert!(!request_is_stream("tasks.subscribe", Some(false)));
    assert!(!request_is_stream("message.send", None));
    assert!(!request_is_stream("Strea", None));
}

#[test]
fn requests_are_routed_by_method_and_stream_flag() {
    assert_eq!(route_a2a(A2aMethodKind::TasksGet, true), A2aRoute::TasksGet);
    assert_eq!(route_a2a(A2aMethodKind::TasksList, false), A2aRoute::TasksList);
    assert_eq!(route_a2a(A2aMethodKind::TasksCancel, true), A2aRoute::TasksCancel);
    assert_eq!(route_a2a(A2aMethodKind::TasksSubscribe, true), A2aRoute::TasksSubscribe { is_stream: true });
    assert_eq!(route_a2a(A2aMethodKind::TasksSubscribe, false), A2aRoute::TasksSubscribe { is_stream: false });
    assert_eq!(route_a2a(A2aMethodKind::Other, true), A2aRoute::InvokeStream);
    assert_eq!(route_a2a(A2aMethodKind::Other, false), A2aRoute::InvokeOnce);
}

#[test]
fn a_single_result_gets_one_success_reply() {
    let replies = plan_replies(Ok(OutcomeShape::Response));
    assert_eq!(replies.len(), 1);
    assert!(matches!(replies[0], ReplyPlan::Success));
}

#[test]
fn stream_replies_are_numbered_and_the_last_is_final() {
    let replies = plan_replies(Ok(OutcomeShape::Stream(3)));
    let shape: Vec<(usize, bool)> = replies
        .iter()
        .map(|r| match r {
            ReplyPlan::Chunk { index, is_final } => (*index, *is_final),
            other => panic!("unexpected {:?}", other),
        })
        .collect();
    assert_eq!(shape, vec![(0, false), (1, false), (2, true)]);
    assert!(plan_replies(Ok(OutcomeShape::Stream(0))).is_empty());
}

#[test]
fn a_failure_gets_one_error_reply() {
    let replies = plan_replies(Err(BamlRtError::FunctionNotFound("f".to_string())));
    assert_eq!(replies.len(), 1);
    match &replies[0] {
        ReplyPlan::Error(e) => {
            assert_eq!(e.code, -32601);
            assert_eq!(e.message, "Method not found");
            assert_eq!(e.data[1], ("function".to_string(), "f".to_string()));
        }
        other => panic!("unexpected {:?}", other),
    }
    match &plan_replies(Err(BamlRtError::Json("bad".to_string())))[0] {
        ReplyPlan::Error(e) => assert_eq!(e.code, -32700),
        other => panic!("unexpected {:?}", other),
    }
}

#[test]
fn streamed_values_are_read_as_elements_single_or_error() {
    assert_eq!(stream_source(true, Some(Some("x".to_string()))).unwrap(), StreamSource::Elements);
    assert_eq!(stream_source(false, None).unwrap(), StreamSource::Single);
    match stream_source(false, Some(Some("boom".to_string()))) {
        Err(BamlRtError::QuickJs(m)) => assert_eq!(m, "boom"),
        other => panic!("unexpected {:?}", other),
    }
    match stream_source(false, Some(None)) {
        Err(BamlRtError::QuickJs(m)) => assert_eq!(m, "unknown"),
        other => panic!("unexpected {:?}", other),
    }
}

#[test]
fn stream_chunks_are_stored_in_order() {
    let mut store = TaskStore::new();
    let events = store_stream_results(
        &mut store,
        vec![status_chunk("rite-task-vox-3"), A2aResult::Unrecognized, artifact_chunk("rite-task-vox-3")],
    );
    assert_eq!(events.len(), 2);
    assert!(matches!(events[0], TaskUpdateEvent::Status(_)));
    assert!(matches!(events[1], TaskUpdateEvent::Artifact(_)));
    assert_eq!(store.drain_updates("rite-task-vox-3"), events);
    assert!(store.drain_updates("rite-task-vox-3").is_empty());
}

#[test]
fn stored_tasks_keep_metadata_and_extra_fields() {
    let mut store = TaskStore::new();
    let task = Task {
        id: Some("t".to_string()),
        context_id: None,
        status: None,
        artifacts: vec![],
        history: vec![],
        metadata: Some("{\"origin\":\"rite\"}".to_string()),
        extra: vec![("kind".to_string(), "\"task\"".to_string())],
    };
    store.upsert(task.clone());
    assert_eq!(store.get("t", None), Some(task));
    let part = Part { text: None, metadata: None, extra: vec![("data".to_string(), "{\"n\":1}".to_string())] };
    assert_eq!(part.clone(), part);
}

#[test]
fn helper_arguments_that_are_not_json_are_refused() {
    match parse_helper_args("{not json") {
        Err(m) => assert!(m.starts_with("Failed to parse JSON args: "), "{}", m),
        Ok(v) => panic!("parsed {:?}", v),
    }
    assert_eq!(parse_helper_args("{\"a\":1}").unwrap()["a"], 1);
    assert_eq!(json_args_outcome::<u8>(Err("eof".to_string())), Err("Failed to parse JSON args: eof".to_string()));
    assert_eq!(json_args_outcome::<u8>(Ok(7)), Ok(7));
}

#[test]
fn helper_calls_are_checked_then_parsed() {
    let (name, args) =
        helper_call(BamlHelper::Invoke, 2, Some("f".to_string()), Some("{\"x\":2}".to_string())).unwrap();
    assert_eq!(name, "f");
    assert_eq!(args["x"], 2);
    assert_eq!(
        helper_call(BamlHelper::Invoke, 1, None, None).unwrap_err(),
        "Expected 2 arguments: function_name and args"
    );
    assert!(helper_call(BamlHelper::Stream, 2, Some("f".to_string()), Some("[".to_string()))
        .unwrap_err()
        .starts_with("Failed to parse JSON args: "));
}

#[test]
fn failed_baml_calls_are_reported_to_scripts() {
    assert_eq!(
        baml_execution_error(&BamlRtError::FunctionNotFound("f".to_string())),
        "BAML execution error: Function not found: f"
    );
}

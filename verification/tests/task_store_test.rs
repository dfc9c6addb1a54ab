use baml_rt::a2a_store::{TaskStore, TaskUpdateEvent};
use baml_rt::a2a_types::{
    Artifact, ListTasksRequest, Message, Part, Task, TaskState, TaskStatus, TASK_STATE_CANCELED,
};

fn message(id: &str, task_id: Option<&str>, text: &str) -> Message {
    Message {
        message_id: id.to_string(),
        role: "ROLE_USER".to_string(),
        parts: vec![Part { text: Some(text.to_string()), ..Part::default() }],
        context_id: Some("ctx".to_string()),
        task_id: task_id.map(|s| s.to_string()),
        reference_task_ids: vec![],
        extensions: vec![],
        metadata: None,
        extra: vec![],
    }
}

fn task(id: &str, context: &str, state: &str, history: usize, artifacts: usize) -> Task {
    Task {
        id: Some(id.to_string()),
        context_id: Some(context.to_string()),
        status: Some(TaskStatus { state: Some(TaskState::String(state.to_string())), timestamp: None }),
        artifacts: (0..artifacts)
            .map(|i| Artifact {
                artifact_id: Some(format!("a{}", i)),
                name: Some(format!("artifact-{}", i)),
                parts: vec![Part { text: Some(format!("part {}", i)), ..Part::default() }],
                metadata: None,
                extra: vec![],
            })
            .collect(),
        history: (0..history).map(|i| message(&format!("m{}", i), Some(id), &format!("text {}", i))).collect(),
        metadata: Some("{\"rite\":true}".to_string()),
        extra: vec![("kind".to_string(), "\"task\"".to_string())],
    }
}

fn list_all() -> ListTasksRequest {
    ListTasksRequest {
        context_id: None,
        status: None,
        include_artifacts: Some(true),
        history_length: None,
        page_size: None,
        page_token: None,
    }
}

#[test]
fn upsert_then_get_returns_the_task() {
    let mut store = TaskStore::new();
    let t = task("t1", "c1", "TASK_STATE_WORKING", 2, 1);
    assert_eq!(store.upsert(t.clone()), Some(t.clone()));
    assert_eq!(store.get("t1", None), Some(t));
    assert_eq!(store.get("missing", None), None);
}

#[test]
fn upsert_without_id_stores_nothing() {
    let mut store = TaskStore::new();
    let mut t = task("t1", "c1", "TASK_STATE_WORKING", 0, 0);
    t.id = None;
    assert_eq!(store.upsert(t), None);
    assert_eq!(store.list(&list_all()).total_size, Some(0));
}

#[test]
fn upsert_replaces_in_place_and_keeps_first_arrival_order() {
    let mut store = TaskStore::new();
    store.upsert(task("a", "c", "TASK_STATE_WORKING", 0, 0));
    store.upsert(task("b", "c", "TASK_STATE_WORKING", 0, 0));
    store.upsert(task("a", "c", "TASK_STATE_COMPLETED", 0, 0));
    let listed = store.list(&list_all());
    let ids: Vec<_> = listed.tasks.iter().map(|t| t.id.clone().unwrap()).collect();
    assert_eq!(ids, vec!["a".to_string(), "b".to_string()]);
    assert_eq!(
        listed.tasks[0].status.as_ref().unwrap().state,
        Some(TaskState::String("TASK_STATE_COMPLETED".to_string()))
    );
}

#[test]
fn get_cuts_history_to_the_newest_messages() {
    let mut store = TaskStore::new();
    store.upsert(task("t1", "c1", "TASK_STATE_WORKING", 5, 0));
    let got = store.get("t1", Some(2)).unwrap();
    let ids: Vec<_> = got.history.iter().map(|m| m.message_id.clone()).collect();
    assert_eq!(ids, vec!["m3".to_string(), "m4".to_string()]);
    assert!(store.get("t1", Some(0)).unwrap().history.is_empty());
    assert_eq!(store.get("t1", Some(10)).unwrap().history.len(), 5);
    // the stored task keeps its whole history
    assert_eq!(store.get("t1", None).unwrap().history.len(), 5);
}

#[test]
fn cancel_sets_the_cancelled_state() {
    let mut store = TaskStore::new();
    let mut t = task("t1", "c1", "TASK_STATE_WORKING", 1, 1);
    t.status.as_mut().unwrap().timestamp = Some("2024-01-01T00:00:00Z".to_string());
    store.upsert(t.clone());
    let cancelled = store.cancel("t1").unwrap();
    let status = cancelled.status.clone().unwrap();
    assert_eq!(status.state, Some(TaskState::String(TASK_STATE_CANCELED.to_string())));
    assert_eq!(status.timestamp, Some("2024-01-01T00:00:00Z".to_string()));
    assert_eq!(cancelled.history, t.history);
    assert_eq!(cancelled.artifacts, t.artifacts);
    assert_eq!(store.get("t1", None), Some(cancelled));
    assert_eq!(store.cancel("nope"), None);
}

#[test]
fn cancel_gives_a_status_to_a_task_without_one() {
    let mut store = TaskStore::new();
    let mut t = task("t1", "c1", "x", 0, 0);
    t.status = None;
    store.upsert(t);
    let cancelled = store.cancel("t1").unwrap();
    assert_eq!(
        cancelled.status,
        Some(TaskStatus { state: Some(TaskState::String("TASK_STATE_CANCELED".to_string())), timestamp: None })
    );
}

#[test]
fn insert_message_appends_to_the_named_task_only() {
    let mut store = TaskStore::new();
    store.upsert(task("t1", "c1", "TASK_STATE_WORKING", 1, 0));
    store.insert_message(&message("new", Some("t1"), "hello"));
    store.insert_message(&message("lost", Some("t9"), "nobody"));
    store.insert_message(&message("free", None, "no task"));
    let got = store.get("t1", None).unwrap();
    let ids: Vec<_> = got.history.iter().map(|m| m.message_id.clone()).collect();
    assert_eq!(ids, vec!["m0".to_string(), "new".to_string()]);
    assert_eq!(store.get("t9", None), None);
}

#[test]
fn recorded_updates_are_drained_once_in_order() {
    let mut store = TaskStore::new();
    let status = TaskStatus { state: Some(TaskState::Integer(2)), timestamp: None };
    let e1 = store
        .record_status_update(Some("t1".to_string()), Some("c".to_string()), status.clone())
        .unwrap();
    let e2 = store
        .record_artifact_update(Some("t1".to_string()), None, Artifact::default(), Some(true), Some(false))
        .unwrap();
    store.record_status_update(Some("t2".to_string()), None, status.clone());
    assert_eq!(e1.task_id(), Some("t1"));
    assert_eq!(e2.task_id(), Some("t1"));
    let drained = store.drain_updates("t1");
    assert_eq!(drained, vec![e1, e2]);
    assert!(store.drain_updates("t1").is_empty());
    assert_eq!(store.drain_updates("t2").len(), 1);
}

#[test]
fn updates_without_task_id_are_not_recorded() {
    let mut store = TaskStore::new();
    let status = TaskStatus { state: None, timestamp: None };
    assert!(store.record_status_update(None, Some("c".to_string()), status).is_none());
    assert!(store.record_artifact_update(None, None, Artifact::default(), None, None).is_none());
}

#[test]
fn recorded_status_event_carries_its_fields() {
    let mut store = TaskStore::new();
    let status = TaskStatus { state: Some(TaskState::String("S".to_string())), timestamp: None };
    let e = store
        .record_status_update(Some("t1".to_string()), Some("c".to_string()), status.clone())
        .unwrap();
    match e {
        TaskUpdateEvent::Status(s) => {
            assert_eq!(s.task_id, Some("t1".to_string()));
            assert_eq!(s.context_id, Some("c".to_string()));
            assert_eq!(s.status, Some(status));
        }
        TaskUpdateEvent::Artifact(_) => panic!("expected a status event"),
    }
}

#[test]
fn list_filters_by_context_and_state() {
    let mut store = TaskStore::new();
    store.upsert(task("a", "c1", "WORKING", 0, 0));
    store.upsert(task("b", "c2", "WORKING", 0, 0));
    store.upsert(task("c", "c1", "DONE", 0, 0));
    let mut req = list_all();
    req.context_id = Some("c1".to_string());
    let r = store.list(&req);
    assert_eq!(r.total_size, Some(2));
    req.status = Some(TaskState::String("DONE".to_string()));
    let r = store.list(&req);
    assert_eq!(r.tasks.len(), 1);
    assert_eq!(r.tasks[0].id, Some("c".to_string()));
    req.status = Some(TaskState::Integer(1));
    assert_eq!(store.list(&req).total_size, Some(0));
}

#[test]
fn list_drops_artifacts_unless_asked_and_cuts_history() {
    let mut store = TaskStore::new();
    store.upsert(task("a", "c1", "WORKING", 4, 2));
    let mut req = list_all();
    req.include_artifacts = None;
    req.history_length = Some(1);
    let r = store.list(&req);
    assert!(r.tasks[0].artifacts.is_empty());
    assert_eq!(r.tasks[0].history.len(), 1);
    assert_eq!(r.tasks[0].history[0].message_id, "m3");
    req.include_artifacts = Some(true);
    req.history_length = Some(-1);
    let r = store.list(&req);
    assert_eq!(r.tasks[0].artifacts.len(), 2);
    assert_eq!(r.tasks[0].history.len(), 4);
}

#[test]
fn list_pages_follow_the_next_page_token() {
    let mut store = TaskStore::new();
    for i in 0..5 {
        store.upsert(task(&format!("t{}", i), "c", "WORKING", 0, 0));
    }
    let mut req = list_all();
    req.page_size = Some(2);
    let first = store.list(&req);
    assert_eq!(first.page_size, Some(2));
    assert_eq!(first.total_size, Some(5));
    assert_eq!(first.next_page_token, Some("2".to_string()));
    let mut seen: Vec<String> = first.tasks.iter().map(|t| t.id.clone().unwrap()).collect();
    let mut token = first.next_page_token;
    while let Some(t) = token {
        req.page_token = Some(t);
        let page = store.list(&req);
        seen.extend(page.tasks.iter().map(|t| t.id.clone().unwrap()));
        token = page.next_page_token;
    }
    assert_eq!(seen, vec!["t0", "t1", "t2", "t3", "t4"]);
}

#[test]
fn list_defaults_and_odd_tokens() {
    let mut store = TaskStore::new();
    for i in 0..3 {
        store.upsert(task(&format!("t{}", i), "c", "WORKING", 0, 0));
    }
    let mut req = list_all();
    let r = store.list(&req);
    assert_eq!(r.page_size, Some(50));
    assert_eq!(r.next_page_token, None);
    assert_eq!(r.tasks.len(), 3);
    req.page_token = Some("not a number".to_string());
    assert_eq!(store.list(&req).tasks.len(), 3);
    req.page_token = Some("+1".to_string());
    assert_eq!(store.list(&req).tasks[0].id, Some("t1".to_string()));
    req.page_token = Some("7".to_string());
    let r = store.list(&req);
    assert!(r.tasks.is_empty());
    assert_eq!(r.total_size, Some(3));
    assert_eq!(r.next_page_token, None);
    req.page_token = None;
    req.page_size = Some(-4);
    assert_eq!(store.list(&req).page_size, Some(50));
    req.page_size = Some(0);
    let r = store.list(&req);
    assert!(r.tasks.is_empty());
    assert_eq!(r.next_page_token, Some("0".to_string()));
}

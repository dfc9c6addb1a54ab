use baml_rt::context::{
    current_agent_id, current_context_id, current_or_new, ContextCounter, generate_context_id, current_message_id, current_task_id, scope_with_agent_id,
    scope_with_context_id, scope_with_message_id, scope_with_task_id, RuntimeScope,
};
use baml_rt::ids::{AgentId, ContextId, MessageId, TaskId};
use baml_rt::runtime::{RuntimeBuilder, RuntimeConfig};
use baml_rt::scope::{scope_attributes, scope_summary};
use baml_rt::tool_fsm::{ToolFailure, ToolFailureKind, ToolSessionError, ToolSessionId};
use baml_rt::BamlRtError;

fn scope(message: Option<&str>, task: Option<&str>) -> RuntimeScope {
    RuntimeScope::new(
        ContextId::new(1700000000000, 3),
        AgentId::new("agent-1".to_string()),
        message.map(|m| MessageId::new(m.to_string())),
        task.map(|t| TaskId::new(t.to_string())),
    )
}

#[test]
fn error_messages_name_their_kind() {
    assert_eq!(BamlRtError::BamlRuntime("x".to_string()).message(), "BAML runtime error: x");
    assert_eq!(BamlRtError::QuickJs("x".to_string()).message(), "QuickJS error: x");
    assert_eq!(BamlRtError::TypeConversion("x".to_string()).message(), "Type conversion error: x");
    assert_eq!(BamlRtError::FunctionNotFound("f".to_string()).message(), "Function not found: f");
    assert_eq!(BamlRtError::InvalidArgument("x".to_string()).message(), "Invalid argument: x");
    assert_eq!(BamlRtError::Io("gone".to_string()).message(), "IO error: gone");
    assert_eq!(
        BamlRtError::QuickJsWithSource { context: "c".to_string(), source: "s".to_string() }.message(),
        "QuickJS error: c: s"
    );
}

#[test]
fn session_ids_must_be_uuids() {
    let id = ToolSessionId::new("550e8400-e29b-41d4-a716-446655440000".to_string()).unwrap();
    assert_eq!(id.as_str(), "550e8400-e29b-41d4-a716-446655440000");
    match ToolSessionId::new("not-a-uuid".to_string()) {
        Err(BamlRtError::InvalidArgument(m)) => assert_eq!(m, "Invalid tool session id 'not-a-uuid'"),
        other => panic!("unexpected {:?}", other),
    }
    assert!(ToolSessionId::new("550e8400-e29b-41d4-a716-446655440000".to_string()).is_ok());
    assert!(ToolSessionId::new("550E8400E29B41D4A716446655440000".to_string()).is_ok());
    assert!(ToolSessionId::new("{550e8400-e29b-41d4-a716-446655440000}".to_string()).is_ok());
    assert!(ToolSessionId::new("URN:uuid:550e8400-e29b-41d4-a716-446655440000".to_string()).is_ok());
    assert!(ToolSessionId::new("550e8400-e29b-41d4-a716-44665544000g".to_string()).is_err());
    assert!(ToolSessionId::new("550e8400e29b-41d4-a716-4466554400000".to_string()).is_err());
}

#[test]
fn failures_from_errors() {
    let f = ToolFailure::from_error(&BamlRtError::InvalidArgument("bad".to_string()));
    assert_eq!(f.kind, ToolFailureKind::InvalidInput);
    assert_eq!(f.message, "Invalid argument: bad");
    assert!(!f.retryable);
    let f = ToolFailure::from_error(&BamlRtError::ToolExecution("t".to_string()));
    assert_eq!(f.kind, ToolFailureKind::ExecutionFailed);
    let f = ToolFailure::from_error(&BamlRtError::QuickJs("t".to_string()));
    assert_eq!(f.kind, ToolFailureKind::ExecutionFailed);
    let f = ToolFailure::from_error(&BamlRtError::Json("t".to_string()));
    assert_eq!(f.kind, ToolFailureKind::Unknown);
    let f = ToolFailure::invalid_input("x".to_string());
    assert_eq!((f.kind, f.message.as_str(), f.retryable), (ToolFailureKind::InvalidInput, "x", false));
    let f = ToolFailure::execution_failed("y".to_string());
    assert_eq!((f.kind, f.message.as_str(), f.retryable), (ToolFailureKind::ExecutionFailed, "y", false));
    let e: ToolSessionError = BamlRtError::QuickJs("q".to_string()).into();
    assert!(matches!(e, ToolSessionError::Transport(BamlRtError::QuickJs(_))));
}

#[test]
fn generated_context_ids_default_the_clock_to_zero() {
    let mut counter = ContextCounter::new();
    assert_eq!(generate_context_id(&mut counter, None).as_str(), "ctx-0-1");
    assert_eq!(generate_context_id(&mut counter, Some(12)).as_str(), "ctx-12-2");
    assert_ne!(generate_context_id(&mut counter, Some(12)).as_str(), generate_context_id(&mut counter, Some(12)).as_str());
}

#[test]
fn context_ids_carry_clock_and_counter() {
    assert_eq!(ContextId::new(1700000000000, 3).as_str(), "ctx-1700000000000-3");
    assert_eq!(ContextId::new(0, 0).as_str(), "ctx-0-0");
}

#[test]
fn current_ids_come_from_the_scope() {
    let s = Some(scope(Some("m1"), None));
    assert_eq!(current_context_id(&s).unwrap().as_str(), "ctx-1700000000000-3");
    assert_eq!(current_agent_id(&s).unwrap().as_str(), "agent-1");
    assert_eq!(current_message_id(&s).unwrap().as_str(), "m1");
    assert!(current_task_id(&s).is_none());
    assert!(current_context_id(&None).is_none());
}

#[test]
fn scope_changes_keep_the_other_ids() {
    let s = scope_with_task_id(Some(scope(Some("m1"), None)), TaskId::new("t1".to_string())).unwrap();
    assert_eq!(s.message_id.as_ref().unwrap().as_str(), "m1");
    assert_eq!(s.task_id.as_ref().unwrap().as_str(), "t1");
    let s = scope_with_message_id(Some(s), MessageId::new("m2".to_string())).unwrap();
    assert_eq!(s.message_id.as_ref().unwrap().as_str(), "m2");
    assert_eq!(s.task_id.as_ref().unwrap().as_str(), "t1");
    let s = scope_with_context_id(Some(s), ContextId::from_text("ctx-x".to_string())).unwrap();
    assert_eq!(s.context_id.as_str(), "ctx-x");
    let mut counter = ContextCounter::new();
    let s = scope_with_agent_id(Some(s), AgentId::new("agent-2".to_string()), &mut counter, Some(1));
    assert_eq!(generate_context_id(&mut counter, None).as_str(), "ctx-0-1");
    assert_eq!(s.agent_id.as_str(), "agent-2");
    assert_eq!(s.context_id.as_str(), "ctx-x");
    assert_eq!(s.task_id.as_ref().unwrap().as_str(), "t1");
}

#[test]
fn agent_scope_outside_a_scope_opens_a_fresh_context() {
    let mut counter = ContextCounter::new();
    let s = scope_with_agent_id(None, AgentId::new("a".to_string()), &mut counter, Some(5));
    assert_eq!(s.context_id.as_str(), "ctx-5-1");
    assert_eq!(generate_context_id(&mut counter, None).as_str(), "ctx-0-2");
    assert_eq!(s.agent_id.as_str(), "a");
    assert!(s.message_id.is_none());
    assert!(s.task_id.is_none());
}

#[test]
fn current_or_new_prefers_the_current_context() {
    let inside = Some(scope(None, None));
    let expected = inside.as_ref().unwrap().context_id.as_str().to_string();
    let mut counter = ContextCounter::new();
    assert_eq!(current_or_new(&inside, &mut counter, Some(9)).as_str(), expected);
    assert_eq!(current_or_new(&None, &mut counter, Some(9)).as_str(), "ctx-9-1");
    assert_eq!(current_or_new(&None, &mut counter, Some(9)).as_str(), "ctx-9-2");
}

#[test]
fn scope_changes_outside_a_scope_are_refused() {
    match scope_with_context_id(None, ContextId::new(1, 1)) {
        Err(BamlRtError::InvalidArgument(m)) => {
            assert_eq!(m, "RuntimeScope must have agent_id - cannot create scope without agent context")
        }
        other => panic!("unexpected {:?}", other),
    }
    match scope_with_message_id(None, MessageId::new("m".to_string())) {
        Err(BamlRtError::InvalidArgument(m)) => {
            assert_eq!(m, "RuntimeScope must exist with agent_id - cannot create scope without agent context")
        }
        other => panic!("unexpected {:?}", other),
    }
    assert!(scope_with_task_id(None, TaskId::new("t".to_string())).is_err());
}

#[test]
fn scope_summary_lists_present_ids() {
    assert_eq!(scope_summary(&None), "no_scope");
    assert_eq!(
        scope_summary(&Some(scope(Some("m1"), Some("t1")))),
        "context_id=ctx-1700000000000-3, message_id=m1, task_id=t1"
    );
    assert_eq!(scope_summary(&Some(scope(None, Some("t1")))), "context_id=ctx-1700000000000-3, task_id=t1");
    let (c, m, t) = scope_attributes(&Some(scope(None, Some("t1"))));
    assert_eq!(c.as_deref(), Some("ctx-1700000000000-3"));
    assert_eq!(m, None);
    assert_eq!(t.as_deref(), Some("t1"));
    assert_eq!(scope_attributes(&None), (None, None, None));
}

#[test]
fn runtime_config_builders() {
    let c = RuntimeConfig::new();
    assert_eq!((c.schema_path.clone(), c.enable_quickjs, c.env_vars.len()), (None, false, 0));
    let c = c
        .with_schema_path("baml_src".to_string())
        .with_quickjs(true)
        .with_env_var("A".to_string(), "1".to_string())
        .with_env_var("B".to_string(), "2".to_string());
    assert_eq!(c.schema_path.as_deref(), Some("baml_src"));
    assert!(c.enable_quickjs);
    assert_eq!(c.env_vars, vec![("A".to_string(), "1".to_string()), ("B".to_string(), "2".to_string())]);
    let b = RuntimeBuilder::new()
        .with_schema_path("baml_src".to_string())
        .with_quickjs(true)
        .with_env_var("A".to_string(), "1".to_string())
        .with_env_var("B".to_string(), "2".to_string());
    let bc = b.config();
    assert_eq!(bc.schema_path, c.schema_path);
    assert_eq!(bc.enable_quickjs, c.enable_quickjs);
    assert_eq!(bc.env_vars, c.env_vars);
    let d = RuntimeBuilder::default().with_quickjs(false);
    assert!(!d.config().enable_quickjs);
}

#[test]
fn context_ids_of_different_readings_differ() {
    assert_ne!(ContextId::new(5, 1).as_str(), ContextId::new(5, 11).as_str());
    assert_ne!(ContextId::new(51, 1).as_str(), ContextId::new(5, 11).as_str());
    assert_eq!(ContextId::new(5, 11).as_str(), "ctx-5-11");
}

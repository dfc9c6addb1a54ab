use baml_rt::a2a_transport::{normalize_stream_chunk, StreamChunk};
use baml_rt::a2a_types::{Message, Part, Task};
use baml_rt::quickjs_bridge::{
    evaluation_result, function_wrapper_source, helper_arguments, stream_function_wrapper_source, stream_items, BamlHelper,
    StreamItem,
};
use baml_rt::BamlRtError;

#[test]
fn function_wrapper_calls_the_invoke_helper() {
    let src = function_wrapper_source("SimpleGreeting");
    assert!(src.starts_with("globalThis.SimpleGreeting = async function(...args) {"));
    assert!(src.contains("return await __baml_invoke(\"SimpleGreeting\", JSON.stringify(argObj));"));
    assert!(src.contains("argObj[`arg${idx}`] = arg;"));
}

#[test]
fn stream_wrapper_is_named_with_stream_suffix() {
    let src = stream_function_wrapper_source("SimpleGreeting");
    assert!(src.starts_with("globalThis.SimpleGreetingStream = async function(...args) {"));
    assert!(src.contains("return await __baml_stream(\"SimpleGreeting\", JSON.stringify(argObj));"));
}

#[test]
fn helper_arguments_are_checked_in_order() {
    assert_eq!(
        helper_arguments(BamlHelper::Invoke, 1, Some("f".to_string()), Some("{}".to_string())),
        Err("Expected 2 arguments: function_name and args".to_string())
    );
    assert_eq!(
        helper_arguments(BamlHelper::Invoke, 2, None, Some("{}".to_string())),
        Err("First argument must be a string (function name)".to_string())
    );
    assert_eq!(
        helper_arguments(BamlHelper::Invoke, 2, Some("f".to_string()), None),
        Err("Args must be a JSON string - use JSON.stringify in JavaScript".to_string())
    );
    assert_eq!(
        helper_arguments(BamlHelper::Stream, 3, Some("f".to_string()), None),
        Err("Second argument must be a JSON string".to_string())
    );
    assert_eq!(
        helper_arguments(BamlHelper::Stream, 2, Some("f".to_string()), Some("{\"a\":1}".to_string())),
        Ok(("f".to_string(), "{\"a\":1}".to_string()))
    );
}

#[test]
fn streamed_values_become_chunks() {
    let m = Message {
        message_id: "m".to_string(),
        role: "ROLE_AGENT".to_string(),
        parts: vec![Part { text: Some("hi".to_string()), ..Part::default() }],
        context_id: None,
        task_id: None,
        reference_task_ids: vec![],
        extensions: vec![],
        metadata: None,
        extra: vec![],
    };
    let t = Task {
        id: Some("t".to_string()),
        context_id: None,
        status: None,
        artifacts: vec![],
        history: vec![],
        metadata: None,
        extra: vec![],
    };
    assert!(matches!(normalize_stream_chunk(true, Some(m.clone()), None), StreamChunk::AsIs));
    match normalize_stream_chunk(false, Some(m.clone()), Some(t.clone())) {
        StreamChunk::Wrapped(c) => assert_eq!(c.message, Some(m)),
        StreamChunk::AsIs => panic!("expected a message chunk"),
    }
    match normalize_stream_chunk(false, None, Some(t.clone())) {
        StreamChunk::Wrapped(c) => assert_eq!(c.task, Some(t)),
        StreamChunk::AsIs => panic!("expected a task chunk"),
    }
    assert!(matches!(normalize_stream_chunk(false, None, None), StreamChunk::AsIs));
}

fn j(text: &str) -> serde_json::Value {
    serde_json::from_str(text).unwrap()
}

#[test]
fn script_results_are_read_as_json() {
    assert_eq!(evaluation_result(Ok("{\"a\":[1,2]}".to_string())).unwrap()["a"][1], 2);
    match evaluation_result(Ok("{oops".to_string())) {
        Err(BamlRtError::TypeConversion(m)) => assert!(m.starts_with("Failed to parse JSON result: "), "{}", m),
        other => panic!("unexpected {:?}", other),
    }
    match evaluation_result(Err("Promise".to_string())) {
        Err(BamlRtError::QuickJs(m)) => assert_eq!(
            m,
            "JavaScript code should return a JSON string. Got: Promise. Ensure code uses JSON.stringify on the final result."
        ),
        other => panic!("unexpected {:?}", other),
    }
}

#[test]
fn stream_results_are_assembled_in_order() {
    let items = stream_items(Err("no client".to_string()), vec![j("1")], Ok(Some(j("2"))));
    assert_eq!(items.len(), 1);
    assert!(matches!(&items[0], StreamItem::Error(m) if m == "Failed to create stream: no client"));
    let items = stream_items(Ok(()), vec![j("{\"p\":1}"), j("{\"p\":2}")], Ok(Some(j("{\"p\":3}"))));
    let values: Vec<serde_json::Value> = items
        .into_iter()
        .map(|i| match i {
            StreamItem::Value(v) => v,
            StreamItem::Error(e) => panic!("unexpected error {}", e),
        })
        .collect();
    assert_eq!(values, vec![j("{\"p\":1}"), j("{\"p\":2}"), j("{\"p\":3}")]);
    let items = stream_items(Ok(()), vec![j("1")], Err("timeout".to_string()));
    assert_eq!(items.len(), 2);
    assert!(matches!(&items[1], StreamItem::Error(m) if m == "timeout"));
    assert!(stream_items(Ok(()), vec![], Ok(None)).is_empty());
}

//! The JavaScript side of the BAML bridge: the global wrapper functions that
//! expose each BAML function to scripts, and the checks on the arguments
//! that scripts hand to the native helpers. The JavaScript engine itself is
//! driven by the host.

use vstd::prelude::*;
use crate::error::{error_message, BamlRtError};

verus! {

/// The start of a wrapper definition, before the global's name.
pub const WRAPPER_HEAD: &'static str = "globalThis.";

/// The wrapper's body up to the native helper it calls: it gathers the
/// call's arguments into one object (a single object argument is taken as
/// is; otherwise argument `i` becomes field `arg<i>`).
pub const WRAPPER_BODY: &'static str = " = async function(...args) {\n    const argObj = {};\n    if (args.length === 1 && typeof args[0] === 'object') {\n        Object.assign(argObj, args[0]);\n    } else {\n        args.forEach((arg, idx) => {\n            argObj[`arg${idx}`] = arg;\n        });\n    }\n    return await ";

/// Between the helper's name and the BAML function's name.
pub const WRAPPER_CALL_OPEN: &'static str = "(\"";

/// After the BAML function's name: the arguments go to the helper as JSON.
pub const WRAPPER_CALL_CLOSE: &'static str = "\", JSON.stringify(argObj));\n};\n";

/// The native helper that runs a BAML function.
pub const INVOKE_HELPER: &'static str = "__baml_invoke";

/// The native helper that streams a BAML function.
pub const STREAM_HELPER: &'static str = "__baml_stream";

/// The suffix of the streaming wrapper's name.
pub const STREAM_SUFFIX: &'static str = "Stream";

/// Source text defining global `global` as a wrapper that hands its
/// arguments to native `helper` for BAML function `function`.
pub open spec fn wrapper_source(global: Seq<char>, helper: Seq<char>, function: Seq<char>) -> Seq<char> {
    WRAPPER_HEAD@ + global + WRAPPER_BODY@ + helper + WRAPPER_CALL_OPEN@ + function + WRAPPER_CALL_CLOSE@
}

fn build_wrapper(global: &str, helper: &str, function: &str) -> (r: String)
    ensures
        r@ == wrapper_source(global@, helper@, function@),
{
    let mut s = String::from_str(WRAPPER_HEAD);
    s.append(global);
    s.append(WRAPPER_BODY);
    s.append(helper);
    s.append(WRAPPER_CALL_OPEN);
    s.append(function);
    s.append(WRAPPER_CALL_CLOSE);
    s
}

/// The script that exposes BAML function `function_name` to JavaScript as a
/// global of the same name.
pub fn function_wrapper_source(function_name: &str) -> (r: String)
    ensures
        r@ == wrapper_source(function_name@, INVOKE_HELPER@, function_name@),
{
    build_wrapper(function_name, INVOKE_HELPER, function_name)
}

/// The script that exposes the streaming form of BAML function
/// `function_name` to JavaScript as global `<function_name>Stream`.
pub fn stream_function_wrapper_source(function_name: &str) -> (r: String)
    ensures
        r@ == wrapper_source(function_name@ + STREAM_SUFFIX@, STREAM_HELPER@, function_name@),
{
    let mut global = String::from_str(function_name);
    global.append(STREAM_SUFFIX);
    build_wrapper(global.as_str(), STREAM_HELPER, function_name)
}

/// Which native helper a script called.
#[derive(Debug, Clone, Copy, PartialEq, Eq, Structural)]
pub enum BamlHelper {
    Invoke,
    Stream,
}

/// The refusal of a helper call with fewer than two arguments.
pub open spec fn too_few_arguments_message() -> Seq<char> {
    "Expected 2 arguments: function_name and args"@
}

/// The refusal of a helper call whose first argument is not a string.
pub open spec fn name_not_string_message() -> Seq<char> {
    "First argument must be a string (function name)"@
}

/// The refusal of a helper call whose second argument is not a string.
pub open spec fn args_not_string_message(helper: BamlHelper) -> Seq<char> {
    match helper {
        BamlHelper::Invoke => "Args must be a JSON string - use JSON.stringify in JavaScript"@,
        BamlHelper::Stream => "Second argument must be a JSON string"@,
    }
}

/// Checks a script's call of a native helper, given the number of arguments
/// and the first two where they are strings: on success, the BAML function's
/// name and its arguments as JSON text; else the message the script sees.
pub fn helper_arguments(
    helper: BamlHelper,
    arg_count: usize,
    function_name: Option<String>,
    args_json: Option<String>,
) -> (r: Result<(String, String), String>)
    ensures
        arg_count < 2 ==> (r matches Err(m) && m@ == too_few_arguments_message()),
        arg_count >= 2 && function_name is None ==> (r matches Err(m) && m@ == name_not_string_message()),
        arg_count >= 2 && function_name is Some && args_json is None ==> (r matches Err(m) && m@
            == args_not_string_message(helper)),
        arg_count >= 2 && function_name is Some && args_json is Some ==> (r matches Ok((n, a)) && n@
            == function_name->0@ && a@ == args_json->0@),
{
    if arg_count < 2 {
        return Err(String::from_str("Expected 2 arguments: function_name and args"));
    }
    let name = match function_name {
        Some(n) => n,
        None => {
            return Err(String::from_str("First argument must be a string (function name)"));
        },
    };
    match args_json {
        Some(a) => Ok((name, a)),
        None => match helper {
            BamlHelper::Invoke => Err(
                String::from_str("Args must be a JSON string - use JSON.stringify in JavaScript"),
            ),
            BamlHelper::Stream => Err(String::from_str("Second argument must be a JSON string")),
        },
    }
}


/// What `serde_json::from_str` makes of `text` as a JSON value: the parsed
/// value, or the parser's error as its `Display` renders it.
pub uninterp spec fn json_parse(text: Seq<char>) -> Result<serde_json::Value, Seq<char>>;

#[verifier::external_type_specification]
#[verifier::external_body]
pub struct ExJsonValue(serde_json::Value);

/// Calls `serde_json::from_str::<serde_json::Value>` on `text` and renders
/// a parse error with its `Display`. Claimed: the parsed value, or the
/// error's text, depends on the text alone.
#[verifier::external_body]
fn parse_json_value(text: &str) -> (r: Result<serde_json::Value, String>)
    ensures
        match r {
            Ok(v) => json_parse(text@) == Ok::<serde_json::Value, Seq<char>>(v),
            Err(e) => json_parse(text@) == Err::<serde_json::Value, Seq<char>>(e@),
        },
{
    match serde_json::from_str::<serde_json::Value>(text) {
        Ok(v) => Ok(v),
        Err(e) => Err(e.to_string()),
    }
}

/// The message a script sees when a helper's arguments are not JSON.
pub open spec fn args_parse_failure_message(error: Seq<char>) -> Seq<char> {
    "Failed to parse JSON args: "@ + error
}

/// The outcome of parsing a helper's JSON arguments as the script sees it:
/// the parsed value, or the parser's error behind a fixed prefix.
pub fn json_args_outcome<T>(parsed: Result<T, String>) -> (r: Result<T, String>)
    ensures
        match parsed {
            Ok(v) => r == Ok::<T, String>(v),
            Err(e) => r matches Err(m) && m@ == args_parse_failure_message(e@),
        },
{
    match parsed {
        Ok(v) => Ok(v),
        Err(e) => {
            let mut m = String::from_str("Failed to parse JSON args: ");
            m.append(e.as_str());
            Err(m)
        },
    }
}

/// Parses a helper's JSON arguments.
pub fn parse_helper_args(args_json: &str) -> (r: Result<serde_json::Value, String>)
    ensures
        match json_parse(args_json@) {
            Ok(v) => r == Ok::<serde_json::Value, String>(v),
            Err(e) => r matches Err(m) && m@ == args_parse_failure_message(e),
        },
{
    json_args_outcome(parse_json_value(args_json))
}

/// Checks a script's call of a native helper and parses its arguments: on
/// success, the BAML function's name and its arguments as a JSON value;
/// else the message the script sees.
pub fn helper_call(
    helper: BamlHelper,
    arg_count: usize,
    function_name: Option<String>,
    args_json: Option<String>,
) -> (r: Result<(String, serde_json::Value), String>)
    ensures
        arg_count < 2 ==> (r matches Err(m) && m@ == too_few_arguments_message()),
        arg_count >= 2 && function_name is None ==> (r matches Err(m) && m@ == name_not_string_message()),
        arg_count >= 2 && function_name is Some && args_json is None ==> (r matches Err(m) && m@
            == args_not_string_message(helper)),
        arg_count >= 2 && function_name is Some && args_json is Some ==> match json_parse(
            args_json->0@,
        ) {
            Ok(v) => r matches Ok((n, a)) && n@ == function_name->0@ && a == v,
            Err(e) => r matches Err(m) && m@ == args_parse_failure_message(e),
        },
{
    let (name, text) = helper_arguments(helper, arg_count, function_name, args_json)?;
    match parse_helper_args(text.as_str()) {
        Ok(v) => Ok((name, v)),
        Err(m) => Err(m),
    }
}

/// The message with which a script's promise is rejected when the BAML
/// function fails.
pub open spec fn execution_error_message(e: BamlRtError) -> Seq<char> {
    "BAML execution error: "@ + error_message(e)
}

/// Renders a failed BAML call for the script that made it.
pub fn baml_execution_error(e: &BamlRtError) -> (r: String)
    ensures
        r@ == execution_error_message(*e),
{
    let mut m = String::from_str("BAML execution error: ");
    let detail = e.message();
    m.append(detail.as_str());
    m
}

/// The message of a script result that is not JSON text.
pub open spec fn result_not_json_message(error: Seq<char>) -> Seq<char> {
    "Failed to parse JSON result: "@ + error
}

/// The message of a script result that is not a string, given its debug
/// rendering.
pub open spec fn result_not_string_message(got: Seq<char>) -> Seq<char> {
    "JavaScript code should return a JSON string. Got: "@ + got
        + ". Ensure code uses JSON.stringify on the final result."@
}

/// Reads what an evaluated script returned: its JSON text parsed, where it
/// returned a string (`Ok`); else (`Err`, with the value's debug rendering)
/// an error, as is text that is not JSON.
pub fn evaluation_result(returned: Result<String, String>) -> (r: Result<serde_json::Value, BamlRtError>)
    ensures
        match returned {
            Ok(text) => match json_parse(text@) {
                Ok(v) => r == Ok::<serde_json::Value, BamlRtError>(v),
                Err(e) => r matches Err(BamlRtError::TypeConversion(m)) && m@ == result_not_json_message(e),
            },
            Err(got) => r matches Err(BamlRtError::QuickJs(m)) && m@ == result_not_string_message(got@),
        },
{
    match returned {
        Ok(text) => match parse_json_value(text.as_str()) {
            Ok(v) => Ok(v),
            Err(e) => {
                let mut m = String::from_str("Failed to parse JSON result: ");
                m.append(e.as_str());
                Err(BamlRtError::TypeConversion(m))
            },
        },
        Err(got) => {
            let mut m = String::from_str("JavaScript code should return a JSON string. Got: ");
            m.append(got.as_str());
            m.append(". Ensure code uses JSON.stringify on the final result.");
            Err(BamlRtError::QuickJs(m))
        },
    }
}

/// One value that a streaming helper hands back to the script: a result,
/// or an error that the script sees as an object with an `error` field.
#[derive(Debug)]
pub enum StreamItem {
    Value(serde_json::Value),
    Error(String),
}

/// Abstract value of a stream item.
pub enum StreamItemView {
    Value(serde_json::Value),
    Error(Seq<char>),
}

impl View for StreamItem {
    type V = StreamItemView;

    open spec fn view(&self) -> StreamItemView {
        match self {
            StreamItem::Value(v) => StreamItemView::Value(*v),
            StreamItem::Error(e) => StreamItemView::Error(e@),
        }
    }
}

impl DeepView for StreamItem {
    type V = StreamItemView;

    open spec fn deep_view(&self) -> StreamItemView {
        self@
    }
}

/// The error item of a stream that could not be created.
pub open spec fn stream_create_failure(error: Seq<char>) -> Seq<char> {
    "Failed to create stream: "@ + error
}

/// What a streaming helper hands back: where the stream could not be created,
/// that error alone; else each partial result in arrival order, then the
/// final result where there is one, or the final error.
pub open spec fn stream_items_spec(
    created: Result<(), Seq<char>>,
    partials: Seq<serde_json::Value>,
    last: Result<Option<serde_json::Value>, Seq<char>>,
) -> Seq<StreamItemView> {
    match created {
        Err(e) => seq![StreamItemView::Error(stream_create_failure(e))],
        Ok(_) => partials.map_values(|v: serde_json::Value| StreamItemView::Value(v)) + match last {
            Ok(Some(v)) => seq![StreamItemView::Value(v)],
            Ok(None) => Seq::empty(),
            Err(e) => seq![StreamItemView::Error(e)],
        },
    }
}

/// Assembles what a streaming helper hands back from how the stream went:
/// whether it was created, the partial results that arrived, and how it
/// ended (a final result where one could be read, or an error).
pub fn stream_items(
    created: Result<(), String>,
    partials: Vec<serde_json::Value>,
    last: Result<Option<serde_json::Value>, String>,
) -> (r: Vec<StreamItem>)
    ensures
        r.deep_view() == stream_items_spec(
            match created {
                Ok(_) => Ok::<(), Seq<char>>(()),
                Err(e) => Err::<(), Seq<char>>(e@),
            },
            partials@,
            match last {
                Ok(x) => Ok::<Option<serde_json::Value>, Seq<char>>(x),
                Err(e) => Err::<Option<serde_json::Value>, Seq<char>>(e@),
            },
        ),
{
    let mut items: Vec<StreamItem> = Vec::new();
    match created {
        Err(e) => {
            let mut m = String::from_str("Failed to create stream: ");
            m.append(e.as_str());
            items.push(StreamItem::Error(m));
            proof {
                assert(items.deep_view() =~= seq![StreamItemView::Error(stream_create_failure(e@))]);
            }
            return items;
        },
        Ok(_) => {},
    }
    let ghost ps = partials@;
    let ghost mapped = ps.map_values(|v: serde_json::Value| StreamItemView::Value(v));
    let mut rest = partials;
    let n = rest.len();
    let mut i: usize = 0;
    while i < n
        invariant
            n == ps.len(),
            mapped.len() == n,
            mapped == ps.map_values(|v: serde_json::Value| StreamItemView::Value(v)),
            i <= n,
            rest@ == ps.skip(i as int),
            items.deep_view() =~= mapped.take(i as int),
        decreases n - i,
    {
        let v = rest.remove(0);
        let ghost prev = items.deep_view();
        items.push(StreamItem::Value(v));
        proof {
            assert(v == ps[i as int]);
            assert(items.deep_view() =~= prev.push(StreamItemView::Value(v)));
            assert(mapped.take(i + 1) =~= mapped.take(i as int).push(mapped[i as int]));
            assert(ps.skip(i as int).skip(1) =~= ps.skip(i + 1));
        }
        i = i + 1;
    }
    proof {
        assert(mapped.take(n as int) =~= mapped);
    }
    let ghost before = items.deep_view();
    match last {
        Ok(Some(v)) => {
            items.push(StreamItem::Value(v));
        },
        Ok(None) => {},
        Err(e) => {
            items.push(StreamItem::Error(e));
        },
    }
    proof {
        assert(items.deep_view() =~= before + match last {
            Ok(Some(v)) => seq![StreamItemView::Value(v)],
            Ok(None) => Seq::<StreamItemView>::empty(),
            Err(e) => seq![StreamItemView::Error(e@)],
        });
    }
    items
}

} // verus!

//! Error type shared by the runtime, the tool layer and the A2A handler.

use vstd::prelude::*;
use vstd::string::*;

verus! {

/// Errors of the runtime integration.
///
/// Variants that in a host process wrap an outside error (I/O, JSON) hold
/// that error's message.
#[derive(Debug)]
pub enum BamlRtError {
    BamlRuntime(String),
    QuickJs(String),
    QuickJsWithSource { context: String, source: String },
    TypeConversion(String),
    FunctionNotFound(String),
    InvalidArgument(String),
    InvalidArgumentWithSource { context: String, source: String },
    ToolExecution(String),
    Json(String),
    Io(String),
}

/// The rendered message of an error: a fixed prefix per variant followed by
/// the variant's text.
pub open spec fn error_message(e: BamlRtError) -> Seq<char> {
    match e {
        BamlRtError::BamlRuntime(s) => "BAML runtime error: "@ + s@,
        BamlRtError::QuickJs(s) => "QuickJS error: "@ + s@,
        BamlRtError::QuickJsWithSource { context, source } => "QuickJS error: "@ + context@ + ": "@ + source@,
        BamlRtError::TypeConversion(s) => "Type conversion error: "@ + s@,
        BamlRtError::FunctionNotFound(s) => "Function not found: "@ + s@,
        BamlRtError::InvalidArgument(s) => "Invalid argument: "@ + s@,
        BamlRtError::InvalidArgumentWithSource { context, source } => "Invalid argument: "@ + context@ + ": "@ + source@,
        BamlRtError::ToolExecution(s) => "Tool execution error: "@ + s@,
        BamlRtError::Json(s) => "JSON error: "@ + s@,
        BamlRtError::Io(s) => "IO error: "@ + s@,
    }
}

fn concat2(a: &str, b: &str) -> (r: String)
    ensures r@ == a@ + b@,
{
    let mut r = String::from_str(a);
    r.append(b);
    r
}

fn concat3(a: &str, b: &str, c: &str) -> (r: String)
    ensures r@ == a@ + b@ + c@,
{
    let mut r = String::from_str(a);
    r.append(b);
    r.append(c);
    r
}

impl BamlRtError {
    /// Renders the error as text, as its `Display` would.
    pub fn message(&self) -> (r: String)
        ensures r@ == error_message(*self),
    {
        match self {
            BamlRtError::BamlRuntime(s) => concat2("BAML runtime error: ", s.as_str()),
            BamlRtError::QuickJs(s) => concat2("QuickJS error: ", s.as_str()),
            BamlRtError::QuickJsWithSource { context, source } => {
                let mut r = concat3("QuickJS error: ", context.as_str(), ": ");
                r.append(source.as_str());
                r
            },
            BamlRtError::TypeConversion(s) => concat2("Type conversion error: ", s.as_str()),
            BamlRtError::FunctionNotFound(s) => concat2("Function not found: ", s.as_str()),
            BamlRtError::InvalidArgument(s) => concat2("Invalid argument: ", s.as_str()),
            BamlRtError::InvalidArgumentWithSource { context, source } => {
                let mut r = concat3("Invalid argument: ", context.as_str(), ": ");
                r.append(source.as_str());
                r
            },
            BamlRtError::ToolExecution(s) => concat2("Tool execution error: ", s.as_str()),
            BamlRtError::Json(s) => concat2("JSON error: ", s.as_str()),
            BamlRtError::Io(s) => concat2("IO error: ", s.as_str()),
        }
    }
}

} // verus!

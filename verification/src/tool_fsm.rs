//! Tool session primitives: session ids, tool failures and session errors.

use vstd::prelude::*;
use crate::error::{error_message, BamlRtError};

verus! {

/// Whether `c` is a hexadecimal digit, in either case.
pub open spec fn is_hex_digit(c: char) -> bool {
    ('0' <= c && c <= '9') || ('a' <= c && c <= 'f') || ('A' <= c && c <= 'F')
}

/// The hyphenated UUID form: 36 characters, hyphens at positions 8, 13, 18
/// and 23, hexadecimal digits elsewhere.
pub open spec fn uuid_hyphenated(s: Seq<char>) -> bool {
    &&& s.len() == 36
    &&& forall|i: int|
        0 <= i < 36 ==> if i == 8 || i == 13 || i == 18 || i == 23 {
            #[trigger] s[i] == '-'
        } else {
            is_hex_digit(s[i])
        }
}

/// An ASCII letter in lower case; any other character as it is.
pub open spec fn ascii_lower(c: char) -> char {
    if 'A' <= c && c <= 'Z' {
        ((c as int) + 32) as char
    } else {
        c
    }
}

/// The URN prefix of a UUID, compared without regard to case.
pub open spec fn urn_prefix() -> Seq<char> {
    seq!['u', 'r', 'n', ':', 'u', 'u', 'i', 'd', ':']
}

/// The texts that `uuid::Uuid::parse_str` accepts: 32 hexadecimal digits;
/// the hyphenated form; the hyphenated form in braces; or the hyphenated
/// form behind a `urn:uuid:` prefix in any case.
pub open spec fn uuid_text_accepted(s: Seq<char>) -> bool {
    ||| s.len() == 32 && forall|i: int| 0 <= i < 32 ==> is_hex_digit(#[trigger] s[i])
    ||| uuid_hyphenated(s)
    ||| s.len() == 38 && s[0] == '{' && s[37] == '}' && uuid_hyphenated(s.subrange(1, 37))
    ||| s.len() == 45 && (forall|i: int| 0 <= i < 9 ==> ascii_lower(#[trigger] s[i]) == urn_prefix()[i])
        && uuid_hyphenated(s.skip(9))
}

/// Calls `uuid::Uuid::parse_str` on `text` and reports whether it parsed.
/// Claimed: it parses exactly the texts of `uuid_text_accepted`, as the
/// crate's parser (`try_parse` in its `parser.rs`) dispatches on length and
/// checks each character; a text with a character outside ASCII is refused.
#[verifier::external_body]
fn uuid_parses(text: &str) -> (ok: bool)
    ensures
        ok == uuid_text_accepted(text@),
{
    uuid::Uuid::parse_str(text).is_ok()
}

/// The id of a tool session: a UUID in text form.
#[derive(Debug, PartialEq, Eq, Hash)]
pub struct ToolSessionId(String);

impl View for ToolSessionId {
    type V = Seq<char>;

    closed spec fn view(&self) -> Seq<char> {
        self.0@
    }
}

/// The message of a refused session id.
pub open spec fn invalid_session_id_message(id: Seq<char>) -> Seq<char> {
    "Invalid tool session id '"@ + id + "'"@
}

impl Clone for ToolSessionId {
    fn clone(&self) -> (r: Self)
        ensures
            r@ == self@,
    {
        ToolSessionId(self.0.clone())
    }
}

impl ToolSessionId {
    /// Makes a session id of `value`, given whether `value` parses as a UUID.
    fn from_checked(value: String, is_uuid: bool) -> (r: Result<ToolSessionId, BamlRtError>)
        ensures
            match r {
                Ok(id) => is_uuid && id@ == value@,
                Err(e) => !is_uuid && e == BamlRtError::InvalidArgument(e->InvalidArgument_0)
                    && e->InvalidArgument_0@ == invalid_session_id_message(value@),
            },
    {
        if is_uuid {
            Ok(ToolSessionId(value))
        } else {
            let mut message = String::from_str("Invalid tool session id '");
            message.append(value.as_str());
            message.append("'");
            Err(BamlRtError::InvalidArgument(message))
        }
    }

    /// Makes a session id of `id`; refuses text that is not a UUID.
    pub fn new(id: String) -> (r: Result<ToolSessionId, BamlRtError>)
        ensures
            match r {
                Ok(s) => uuid_text_accepted(id@) && s@ == id@,
                Err(e) => !uuid_text_accepted(id@) && e == BamlRtError::InvalidArgument(e->InvalidArgument_0)
                    && e->InvalidArgument_0@ == invalid_session_id_message(id@),
            },
    {
        let ok = uuid_parses(id.as_str());
        ToolSessionId::from_checked(id, ok)
    }

    /// The id's text.
    pub fn as_str(&self) -> (r: &str)
        ensures
            r@ == self@,
    {
        self.0.as_str()
    }
}

/// Why a tool call failed.
#[derive(Debug, Clone, Copy, PartialEq, Eq, Structural)]
pub enum ToolFailureKind {
    InvalidInput,
    ExecutionFailed,
    NotAuthorized,
    RateLimited,
    Cancelled,
    Unknown,
}

/// A failed tool call.
#[derive(Debug)]
pub struct ToolFailure {
    pub kind: ToolFailureKind,
    pub message: String,
    pub retryable: bool,
}

impl Clone for ToolFailure {
    fn clone(&self) -> (r: Self)
        ensures
            r.kind == self.kind,
            r.message@ == self.message@,
            r.retryable == self.retryable,
    {
        ToolFailure { kind: self.kind, message: self.message.clone(), retryable: self.retryable }
    }
}

/// The failure kind that an error maps to.
pub open spec fn failure_kind_of(e: BamlRtError) -> ToolFailureKind {
    match e {
        BamlRtError::InvalidArgument(_) | BamlRtError::InvalidArgumentWithSource { .. } => ToolFailureKind::InvalidInput,
        BamlRtError::QuickJs(_) | BamlRtError::QuickJsWithSource { .. } => ToolFailureKind::ExecutionFailed,
        BamlRtError::ToolExecution(_) => ToolFailureKind::ExecutionFailed,
        _ => ToolFailureKind::Unknown,
    }
}

impl ToolFailure {
    /// A failure caused by bad input; not retryable.
    pub fn invalid_input(message: String) -> (r: ToolFailure)
        ensures
            r.kind == ToolFailureKind::InvalidInput,
            r.message@ == message@,
            !r.retryable,
    {
        ToolFailure { kind: ToolFailureKind::InvalidInput, message, retryable: false }
    }

    /// A failure of the tool's execution; not retryable.
    pub fn execution_failed(message: String) -> (r: ToolFailure)
        ensures
            r.kind == ToolFailureKind::ExecutionFailed,
            r.message@ == message@,
            !r.retryable,
    {
        ToolFailure { kind: ToolFailureKind::ExecutionFailed, message, retryable: false }
    }

    /// The failure that a runtime error amounts to: its kind by the error's
    /// variant, its message the error's text; not retryable.
    pub fn from_error(error: &BamlRtError) -> (r: ToolFailure)
        ensures
            r.kind == failure_kind_of(*error),
            r.message@ == error_message(*error),
            !r.retryable,
    {
        let kind = match error {
            BamlRtError::InvalidArgument(_) | BamlRtError::InvalidArgumentWithSource { .. } => {
                ToolFailureKind::InvalidInput
            },
            BamlRtError::QuickJs(_) | BamlRtError::QuickJsWithSource { .. } => {
                ToolFailureKind::ExecutionFailed
            },
            BamlRtError::ToolExecution(_) => ToolFailureKind::ExecutionFailed,
            _ => ToolFailureKind::Unknown,
        };
        ToolFailure { kind, message: error.message(), retryable: false }
    }
}

/// Why a tool session step failed: the transport, or the tool itself.
#[derive(Debug)]
pub enum ToolSessionError {
    Transport(BamlRtError),
    Tool(ToolFailure),
}

impl From<BamlRtError> for ToolSessionError {
    fn from(error: BamlRtError) -> (r: Self) {
        ToolSessionError::Transport(error)
    }
}

impl vstd::std_specs::convert::FromSpecImpl<BamlRtError> for ToolSessionError {
    open spec fn obeys_from_spec() -> bool {
        true
    }

    open spec fn from_spec(v: BamlRtError) -> Self {
        ToolSessionError::Transport(v)
    }
}

} // verus!

use vstd::prelude::*;

verus! {

/// A failure of one type-erased tool invocation.
///
/// The three variants mirror the three steps of an invocation: decoding the
/// JSON arguments into the tool's parameter type, running the tool itself, and
/// encoding the tool's typed result back to JSON. Each carries a rendered
/// message; the tool's concrete error type does not survive this boundary.
#[derive(Debug)]
pub enum InvocationError {
    /// The supplied arguments do not conform to the tool's parameter type
    /// (missing required field, wrong type, invalid enumerated value).
    Decode(String),
    /// The tool's own operation reported a domain-level failure.
    Handler(String),
    /// The tool's result could not be serialized; an internal condition that
    /// callers cannot remedy by retrying.
    Encode(String),
}

/// A failure of a registry dispatch.
#[derive(Debug)]
pub enum DispatchError {
    /// The requested function name matches no registered tool; carries that
    /// exact name.
    NotFound(String),
    /// The tool was found but its invocation failed.
    Invocation(InvocationError),
}

impl InvocationError {
    /// The rendered message carried by the error, whichever step failed.
    pub fn message(&self) -> (r: &str)
        ensures
            r@ == self.spec_message(),
    {
        match self {
            InvocationError::Decode(m) => m.as_str(),
            InvocationError::Handler(m) => m.as_str(),
            InvocationError::Encode(m) => m.as_str(),
        }
    }

    /// The message carried by the error, as a sequence of characters.
    pub open spec fn spec_message(&self) -> Seq<char> {
        match self {
            InvocationError::Decode(m) => m@,
            InvocationError::Handler(m) => m@,
            InvocationError::Encode(m) => m@,
        }
    }
}

} // verus!

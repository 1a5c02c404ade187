use vstd::prelude::*;
use crate::errors::InvocationError;

verus! {

/// Capability contract for a tool's parameter type: decodable from a JSON
/// document, and able to describe its own structure as a schema document.
pub trait ToolParams: Sized {
    /// The outcome of decoding a JSON document into this type: the decoded
    /// value, or a diagnostic message. Decoding a given document always has
    /// the same outcome.
    spec fn spec_from_json(v: serde_json::Value) -> Result<Self, Seq<char>>;

    /// The schema document this type describes for itself. Producing it is
    /// deterministic: every call returns this same document.
    spec fn spec_schema() -> serde_json::Value;

    /// Decode a JSON document into a typed parameter value, or report why the
    /// document does not conform (missing required field, wrong type, invalid
    /// enumerated value).
    fn from_json(v: &serde_json::Value) -> (r: Result<Self, String>)
        ensures
            (match (Self::spec_from_json(*v), r) {
                (Ok(p), Ok(q)) => p == q,
                (Err(m), Err(s)) => s@ == m,
                _ => false,
            }),
    ;

    /// Produce the JSON document describing this type's structure.
    fn json_schema() -> (r: serde_json::Value)
        ensures
            r == Self::spec_schema(),
    ;
}

/// Capability contract for a tool's output type: encodable to a JSON
/// document.
pub trait ToolOutput: Sized {
    /// The outcome of encoding this value: a JSON document, or a diagnostic
    /// message. Encoding a given value always has the same outcome.
    spec fn spec_to_json(&self) -> Result<serde_json::Value, Seq<char>>;

    /// Encode this value as a JSON document; failure is an internal condition
    /// (practically unreachable for well-formed output types).
    fn to_json(&self) -> (r: Result<serde_json::Value, String>)
        ensures
            (match (self.spec_to_json(), r) {
                (Ok(v), Ok(w)) => v == w,
                (Err(m), Err(s)) => s@ == m,
                _ => false,
            }),
    ;
}

/// Capability contract for a tool's error type: convertible to a
/// human-readable message.
pub trait ToolError {
    /// The rendered message of this error.
    spec fn spec_message(&self) -> Seq<char>;

    /// Render this error as a human-readable message.
    fn message(&self) -> (r: String)
        ensures
            r@ == self.spec_message(),
    ;
}

/// One typed tool: a named operation with typed parameters, output and error.
///
/// The name and the description are constant for the tool's lifetime; the
/// registry keys the tool by the name it reports at registration time.
pub trait ToolFunction: Sized {
    /// The parameter type for this tool.
    type Params: ToolParams;

    /// The output type for this tool.
    type Output: ToolOutput;

    /// The error type for this tool.
    type Error: ToolError;

    /// The tool's name, constant for the tool's lifetime.
    spec fn spec_name(&self) -> Seq<char>;

    /// The tool's description, constant for the tool's lifetime.
    spec fn spec_description(&self) -> Seq<char>;

    /// The schema document this tool advertises, constant for the tool's
    /// lifetime. By default it is the one the parameter type describes for
    /// itself; a tool advertising a custom document overrides this together
    /// with `schema`.
    open spec fn spec_schema(&self) -> serde_json::Value {
        <Self::Params as ToolParams>::spec_schema()
    }

    /// Get the name of this tool.
    fn name(&self) -> (r: String)
        ensures
            r@ == self.spec_name(),
    ;

    /// Get the description of this tool.
    fn description(&self) -> (r: String)
        ensures
            r@ == self.spec_description(),
    ;

    /// Produce the JSON schema for the parameters: the tool's advertised
    /// document, typically the parameter type's own (`Params::json_schema()`).
    fn schema(&self) -> (r: serde_json::Value)
        ensures
            r == self.spec_schema(),
    ;

    /// Execute the tool with typed parameters. The outcome is the tool's own
    /// business: it may depend on external resources, so nothing is promised
    /// of it here.
    fn call(&self, params: Self::Params) -> Result<Self::Output, Self::Error>;
}

/// Turn a tool's typed outcome into the erased invocation result: a domain
/// error is rendered to its message under `Handler`, a result is encoded to
/// its JSON document, and a result that cannot be serialized yields `Encode`
/// with the encoder's diagnostic. Nothing is swallowed: each typed outcome
/// maps to exactly one erased outcome.
pub fn encode_outcome<O: ToolOutput, E: ToolError>(res: Result<O, E>) -> (r: Result<
    serde_json::Value,
    InvocationError,
>)
    ensures
        (match res {
            Err(e) => r matches Err(InvocationError::Handler(s)) && s@ == e.spec_message(),
            Ok(o) => match o.spec_to_json() {
                Ok(v) => r == Ok::<serde_json::Value, InvocationError>(v),
                Err(m) => r matches Err(InvocationError::Encode(s)) && s@ == m,
            },
        }),
{
    match res {
        Err(e) => Err(InvocationError::Handler(e.message())),
        Ok(o) => match o.to_json() {
            Ok(v) => Ok(v),
            Err(m) => Err(InvocationError::Encode(m)),
        },
    }
}

/// The type-erasure boundary: a uniform wrapper interface around any tool,
/// exposing only JSON-valued operations. Every handler has this same
/// four-operation surface regardless of the wrapped tool's typed interface,
/// which is what lets heterogeneous tools stand in one collection.
pub trait ToolHandler: Sized {
    /// The handler's name, constant for its lifetime.
    spec fn spec_name(&self) -> Seq<char>;

    /// The handler's description, constant for its lifetime.
    spec fn spec_description(&self) -> Seq<char>;

    /// The schema document the handler advertises, constant for its
    /// lifetime.
    spec fn spec_schema(&self) -> serde_json::Value;

    /// The decode diagnostic that the given arguments produce at this
    /// handler's parameter boundary, or `None` if they decode.
    spec fn spec_decode_err(&self, v: serde_json::Value) -> Option<Seq<char>>;

    /// Get the name of the wrapped tool.
    fn name(&self) -> (r: String)
        ensures
            r@ == self.spec_name(),
    ;

    /// Get the description of the wrapped tool.
    fn description(&self) -> (r: String)
        ensures
            r@ == self.spec_description(),
    ;

    /// Get the parameter schema of the wrapped tool.
    fn schema(&self) -> (r: serde_json::Value)
        ensures
            r == self.spec_schema(),
    ;

    /// Invoke the wrapped tool with JSON arguments: decode them into the
    /// tool's parameter type, run the tool, and encode the typed result back
    /// to JSON. Arguments that do not decode fail with `Decode` and the
    /// decode diagnostic; arguments that decode never fail with `Decode`.
    fn call_json(&self, args: &serde_json::Value) -> (r: Result<
        serde_json::Value,
        InvocationError,
    >)
        ensures
            (match self.spec_decode_err(*args) {
                Some(m) => r matches Err(InvocationError::Decode(s)) && s@ == m,
                None => !(r matches Err(InvocationError::Decode(_))),
            }),
    ;
}

/// Every typed tool is usable through the erased interface: decoding uses the
/// tool's parameter type, and the tool's typed outcome is mapped by
/// `encode_outcome` — a domain error to `Handler` with the error's rendered
/// message, a result to its JSON document or `Encode`.
impl<T: ToolFunction> ToolHandler for T {
    open spec fn spec_name(&self) -> Seq<char> {
        <T as ToolFunction>::spec_name(self)
    }

    open spec fn spec_description(&self) -> Seq<char> {
        <T as ToolFunction>::spec_description(self)
    }

    open spec fn spec_schema(&self) -> serde_json::Value {
        <T as ToolFunction>::spec_schema(self)
    }

    open spec fn spec_decode_err(&self, v: serde_json::Value) -> Option<Seq<char>> {
        match <T::Params as ToolParams>::spec_from_json(v) {
            Ok(_) => None,
            Err(m) => Some(m),
        }
    }

    fn name(&self) -> (r: String) {
        <T as ToolFunction>::name(self)
    }

    fn description(&self) -> (r: String) {
        <T as ToolFunction>::description(self)
    }

    fn schema(&self) -> (r: serde_json::Value) {
        <T as ToolFunction>::schema(self)
    }

    fn call_json(&self, args: &serde_json::Value) -> (r: Result<
        serde_json::Value,
        InvocationError,
    >)
        ensures
            (match <T::Params as ToolParams>::spec_from_json(*args) {
                Err(m) => r matches Err(InvocationError::Decode(s)) && s@ == m,
                Ok(_) => ((exists|e: T::Error|
                    r matches Err(InvocationError::Handler(s)) && s@ == #[trigger] e.spec_message())
                    || (exists|o: T::Output|
                    (match #[trigger] o.spec_to_json() {
                        Ok(v) => r == Ok::<serde_json::Value, InvocationError>(v),
                        Err(m) => r matches Err(InvocationError::Encode(s)) && s@ == m,
                    }))),
            }),
    {
        let params = match <T::Params as ToolParams>::from_json(args) {
            Ok(p) => p,
            Err(m) => {
                return Err(InvocationError::Decode(m));
            },
        };
        let outcome = self.call(params);
        let ghost snap = outcome;
        let r = encode_outcome::<T::Output, T::Error>(outcome);
        proof {
            match snap {
                Err(e) => {
                    assert(r matches Err(InvocationError::Handler(s)) && s@ == e.spec_message());
                },
                Ok(o) => {
                    assert(match o.spec_to_json() {
                        Ok(v) => r == Ok::<serde_json::Value, InvocationError>(v),
                        Err(m) => r matches Err(InvocationError::Encode(s)) && s@ == m,
                    });
                },
            }
        }
        r
    }
}

} // verus!

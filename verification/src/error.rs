//! Why staging or recovering a dispatch value failed.
use vstd::prelude::*;

verus! {

/// Failures of building or recovering the value staged for a script dispatch.
///
/// The first three are internal errors of the host runtime; `Identity` carries the message
/// of an inner factory that refused the actor JSON.
#[derive(Debug, Clone)]
pub enum InvokeError {
    /// The context label names no invoke id.
    InvalidLabel,
    /// Nothing is staged under the label's invoke id: it was never staged, or was taken.
    MissingInvokeValence,
    /// Recovery was asked for without the dispatch context.
    NoDispatchContext,
    /// The inner factory refused the actor JSON, with this message.
    Identity(String),
}

impl InvokeError {
    /// The text of the error.
    pub open spec fn message_of(&self) -> Seq<char> {
        match self {
            InvokeError::InvalidLabel => "missing invoke valence (invalid script context label)"@,
            InvokeError::MissingInvokeValence => "missing invoke valence"@,
            InvokeError::NoDispatchContext =>
                "missing invoke valence (use valence_from_context with the dispatch ScriptContext)"@,
            InvokeError::Identity(message) => message@,
        }
    }

    /// Whether the host reports this error as an internal one (every kind but `Identity`).
    pub open spec fn is_internal_spec(&self) -> bool {
        !(self is Identity)
    }

    /// The text of the error.
    pub fn message(&self) -> (text: String)
        ensures
            text@ == self.message_of(),
    {
        match self {
            InvokeError::InvalidLabel => String::from_str(
                "missing invoke valence (invalid script context label)",
            ),
            InvokeError::MissingInvokeValence => String::from_str("missing invoke valence"),
            InvokeError::NoDispatchContext => String::from_str(
                "missing invoke valence (use valence_from_context with the dispatch ScriptContext)",
            ),
            InvokeError::Identity(message) => message.clone(),
        }
    }

    /// Whether the host reports this error as an internal one (every kind but `Identity`).
    pub fn is_internal(&self) -> (internal: bool)
        ensures
            internal == self.is_internal_spec(),
    {
        match self {
            InvokeError::Identity(_) => false,
            _ => true,
        }
    }
}

} // verus!

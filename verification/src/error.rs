use vstd::prelude::*;

verus! {

/// The failure conditions surfaced by the store and the templating engine.
///
/// Every condition is local and non-retryable; the caller knows which
/// entity and operation it handed in, so the variants carry no payload.
#[derive(Debug, Clone, Copy, PartialEq, Eq, Structural)]
pub enum ReqError {
    /// A name has no backing entry in the store.
    NotFound,
    /// A creation or rename target collides with an existing entry.
    AlreadyExists,
    /// A stored or edited JSON document fails the schema parse.
    MalformedDocument,
    /// A name is empty or contains a path separator.
    InvalidName,
    /// Substitution found a placeholder with no value for it.
    UnresolvedPlaceholder,
    /// A variable value is null, an object or an array.
    InvalidVariableValue,
    /// An operation that needs a selected variable found none.
    NoSelection,
    /// The user cancelled an interactive edit.
    EditAborted,
}

impl ReqError {
    /// A one-line description of the failure, for rendering.
    pub fn message(&self) -> (r: &'static str)
        ensures
            r@.len() > 0,
    {
        proof {
            reveal_strlit("not found");
            reveal_strlit("already exists");
            reveal_strlit("malformed document");
            reveal_strlit("invalid name");
            reveal_strlit("unresolved template placeholder");
            reveal_strlit("variable value must be a string, number or boolean");
            reveal_strlit("a variable must be selected to perform this action");
            reveal_strlit("edit aborted");
        }
        match self {
            ReqError::NotFound => "not found",
            ReqError::AlreadyExists => "already exists",
            ReqError::MalformedDocument => "malformed document",
            ReqError::InvalidName => "invalid name",
            ReqError::UnresolvedPlaceholder => "unresolved template placeholder",
            ReqError::InvalidVariableValue => "variable value must be a string, number or boolean",
            ReqError::NoSelection => "a variable must be selected to perform this action",
            ReqError::EditAborted => "edit aborted",
        }
    }
}

} // verus!

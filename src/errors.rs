use vstd::prelude::*;

verus! {

/// Errors of the record store.
#[derive(Debug, Clone)]
pub enum FlowError {
    /// A referenced flow or snapshot does not exist.
    NotFound(String),
    /// A hard invariant would be broken (cursor monotonicity and the like).
    Conflict(String),
    /// Storage failure (I/O, poisoned lock, id collision).
    Storage(String),
    /// Anything else.
    Other(String),
}

/// Errors of the engine layer.
#[derive(Debug, Clone)]
pub enum WorkflowError {
    /// A store error seen at the engine boundary.
    Flow(FlowError),
    /// A store error reported as a message.
    Persistence(String),
    /// JSON encode or decode failure.
    Serialization(String),
    /// Step not found, executed twice, or missing a prerequisite.
    Validation(String),
    /// Anything else.
    Other(String),
}

/// Errors of the domain-entity store handed to step handlers.
#[derive(Debug, Clone)]
pub enum DomainError {
    ValidationError(String),
    ExternalError(String),
    SerializationError(String),
}

} // verus!

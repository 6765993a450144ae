//! Core error types. Errors are data: no panic paths.

use vstd::prelude::*;

verus! {

/// Any core error.
#[derive(Clone, Debug, PartialEq, Eq)]
pub enum Error {
    /// An event log error.
    EventLog(EventLogError),
    /// A hash error.
    Hash(HashError),
    /// A state machine error.
    State(StateError),
    /// A capability error.
    Capability(CapabilityError),
    /// A tool error.
    Tool(ToolError),
    /// A serialization error.
    Serialization(SerializationError),
    /// A validation error.
    Validation(ValidationError),
    /// Any other error, with a message.
    Message(String),
}

/// Event log errors.
#[derive(Clone, Debug, PartialEq, Eq)]
pub enum EventLogError {
    /// The event id is malformed.
    InvalidEventId(String),
    /// The named parent event is not in the log.
    ParentNotFound(String),
    /// The recorded payload hash does not match the payload.
    HashMismatch {
        /// The hash the event carries, in hex.
        expected: String,
        /// The hash of the payload, in hex.
        actual: String,
    },
    /// The event does not continue this log.
    CorruptedLog(String),
}

/// Hash errors.
#[derive(Clone, Debug, PartialEq, Eq)]
pub enum HashError {
    /// The text is not a 64-character lowercase hex hash.
    InvalidFormat(String),
    /// The hash could not be computed.
    ComputationFailed(String),
}

/// State machine errors.
#[derive(Clone, Debug, PartialEq, Eq)]
pub enum StateError {
    /// The transition is not allowed.
    InvalidTransition {
        /// Where the transition started.
        from: String,
        /// Where it tried to go.
        to: String,
    },
    /// A required state domain is missing.
    MissingState(String),
    /// The state failed an integrity check.
    Corrupted(String),
}

/// Capability errors.
#[derive(Clone, Debug, PartialEq, Eq)]
pub enum CapabilityError {
    /// The capability is not granted.
    Denied {
        /// The capability that was asked for.
        capability: String,
        /// Why it was refused.
        reason: String,
    },
    /// The capability name is malformed.
    InvalidFormat(String),
}

/// Tool errors.
#[derive(Clone, Debug, PartialEq, Eq)]
pub enum ToolError {
    /// No such tool is registered.
    NotFound(String),
    /// The tool ran out of time.
    Timeout {
        /// The tool that timed out.
        tool: String,
        /// How long it ran, in milliseconds.
        duration_ms: u64,
    },
    /// The tool failed.
    ExecutionFailed {
        /// The tool that failed.
        tool: String,
        /// Why it failed.
        reason: String,
    },
    /// The input was rejected.
    InvalidInput {
        /// The tool that rejected it.
        tool: String,
        /// Why it was rejected.
        reason: String,
    },
    /// The output could not be serialized.
    SerializationFailed {
        /// The tool whose output failed.
        tool: String,
        /// Why it failed.
        reason: String,
    },
}

/// Serialization errors.
#[derive(Clone, Debug, PartialEq, Eq)]
pub enum SerializationError {
    /// Writing JSON failed.
    Json(String),
    /// Writing a binary form failed.
    Binary(String),
    /// Reading a value back failed.
    Deserialization(String),
    /// The encoding would not be stable.
    NonDeterministic(String),
}

/// Validation errors.
#[derive(Clone, Debug, PartialEq, Eq)]
pub enum ValidationError {
    /// A value is out of range or malformed.
    InvalidValue(String),
    /// A required field is absent.
    MissingField(String),
    /// A structural constraint is broken.
    ConstraintViolation(String),
}

} // verus!

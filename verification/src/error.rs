//! The error that every part of the library reports.

use crate::hash::{hash_error_text, HoloHashError};
use vstd::prelude::*;

verus! {

/// What went wrong while a node's state was inspected.
#[derive(Debug)]
pub enum HcOpsError {
    /// A call to a running node failed; the text describes the failure.
    HolochainClient(String),
    /// A file could not be read.
    IO(String),
    /// A store refused a query.
    Database(String),
    /// A JSON text could not be read or written.
    JSON(String),
    /// Bytes are not the hash identifier that was expected.
    HoloHash(HoloHashError),
    /// A stored blob could not be decoded.
    SerializedBytes(String),
    /// Anything else.
    Other(String),
    /// An error together with what was being done when it came up.
    Context { source: Box<HcOpsError>, context: String },
}

/// The result of an operation that may fail with an `HcOpsError`.
pub type HcOpsResult<T> = Result<T, HcOpsError>;

/// What an error says: for a plain error, words that name its kind followed
/// by its detail; for an error in context, the context, then the cause on a
/// line of its own.
pub open spec fn error_text(error: HcOpsError) -> Seq<char>
    decreases error,
{
    match error {
        HcOpsError::HolochainClient(detail) => "Holochain client error: "@ + detail@,
        HcOpsError::IO(detail) => "IO error: "@ + detail@,
        HcOpsError::Database(detail) => "Database error: "@ + detail@,
        HcOpsError::JSON(detail) => "JSON error: "@ + detail@,
        HcOpsError::HoloHash(cause) => "HoloHash error: "@ + hash_error_text(cause),
        HcOpsError::SerializedBytes(detail) => "Serialized bytes error: "@ + detail@,
        HcOpsError::Other(detail) => "Other error: "@ + detail@,
        HcOpsError::Context { source, context } => context@ + "\n\tcaused by: "@ + error_text(
            *source,
        ),
    }
}

/// The causes of an error, outermost first: the contexts that it was given,
/// then what the error at the bottom says.
pub open spec fn error_chain(error: HcOpsError) -> Seq<Seq<char>>
    decreases error,
{
    match error {
        HcOpsError::Context { source, context } => seq![context@] + error_chain(*source),
        _ => seq![error_text(error)],
    }
}

impl HcOpsError {
    /// The causes of the error, outermost first: its contexts, then what
    /// the error at the bottom says.
    pub fn chain(&self) -> (causes: Vec<String>)
        ensures
            causes.deep_view() == error_chain(*self),
        decreases *self,
    {
        match self {
            HcOpsError::Context { source, context } => {
                let mut causes = source.chain();
                let ghost rest = causes.deep_view();
                causes.insert(0, String::from_str(context.as_str()));
                assert(causes.deep_view() =~= seq![context@] + rest);
                causes
            },
            _ => {
                let mut causes: Vec<String> = Vec::new();
                causes.push(self.message());
                assert(causes.deep_view() =~= seq![error_text(*self)]);
                causes
            },
        }
    }

    /// An error of a call to a running node, from its description.
    pub fn client(description: String) -> (error: HcOpsError)
        ensures
            error == HcOpsError::HolochainClient(description),
    {
        HcOpsError::HolochainClient(description)
    }

    /// An error of no particular kind, from its description.
    pub fn other(description: String) -> (error: HcOpsError)
        ensures
            error == HcOpsError::Other(description),
    {
        HcOpsError::Other(description)
    }

    /// What the error says.
    pub fn message(&self) -> (text: String)
        ensures
            text@ == error_text(*self),
        decreases *self,
    {
        match self {
            HcOpsError::HolochainClient(detail) => {
                String::from_str("Holochain client error: ").concat(detail.as_str())
            },
            HcOpsError::IO(detail) => String::from_str("IO error: ").concat(detail.as_str()),
            HcOpsError::Database(detail) => {
                String::from_str("Database error: ").concat(detail.as_str())
            },
            HcOpsError::JSON(detail) => String::from_str("JSON error: ").concat(detail.as_str()),
            HcOpsError::HoloHash(cause) => {
                let detail = cause.message();
                String::from_str("HoloHash error: ").concat(detail.as_str())
            },
            HcOpsError::SerializedBytes(detail) => {
                String::from_str("Serialized bytes error: ").concat(detail.as_str())
            },
            HcOpsError::Other(detail) => String::from_str("Other error: ").concat(detail.as_str()),
            HcOpsError::Context { source, context } => {
                let mut text = String::from_str(context.as_str());
                text.append("\n\tcaused by: ");
                let cause = source.message();
                text.append(cause.as_str());
                text
            },
        }
    }
}

/// Adding to a failed result what was being done when it failed.
pub trait HcOpsResultContextExt<T>: Sized {
    /// The result that `context` gives: a success as it is, a failure inside
    /// a `Context` error that holds `context`.
    spec fn with_context(self, context: String) -> HcOpsResult<T>;

    /// A success is handed on; a failure is wrapped together with `context`.
    fn context(self, context: String) -> (result: HcOpsResult<T>)
        ensures
            result == self.with_context(context),
    ;
}

impl<S> HcOpsResultContextExt<S> for HcOpsResult<S> {
    open spec fn with_context(self, context: String) -> HcOpsResult<S> {
        match self {
            Ok(value) => Ok(value),
            Err(error) => Err(HcOpsError::Context { source: Box::new(error), context }),
        }
    }

    fn context(self, context: String) -> (result: HcOpsResult<S>) {
        match self {
            Ok(value) => Ok(value),
            Err(error) => Err(HcOpsError::Context { source: Box::new(error), context }),
        }
    }
}

} // verus!

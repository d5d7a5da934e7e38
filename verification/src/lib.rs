//! Core of a foreign-data bridge that lets a relational engine scan a table
//! whose storage is a remote hierarchical (GraphQL-style) query service.
//!
//! The verified library covers query synthesis, response navigation, row
//! materialization and the scan-cursor state machine; the network call and
//! the host engine's binary interface live outside it.

use vstd::prelude::*;

pub mod cursor;
pub mod json;
pub mod materialize;
pub mod navigate;
pub mod plan;
pub mod query;
pub mod remote;

verus! {

/// Everything that can go wrong during planning or a scan.
///
/// Every error is fatal to the scan that raised it: nothing is retried and
/// no partial row is ever emitted.
#[derive(Clone, Copy, Debug, PartialEq, Eq, Structural)]
pub enum ScanError {
    /// The scan target has an unsupported shape (several relations, or a
    /// non-relation source).
    PlanError,
    /// The remote call failed: transport error, non-success status, or a
    /// body that is not well-formed JSON.
    RemoteCallError,
    /// A path segment is missing in the response, or the value at the end
    /// of the path is not a collection of objects.
    ResponseShapeError,
    /// A requested field held a nested object or collection where a scalar
    /// was required.
    FieldTypeError,
    /// A rescan/reset was requested, which this scope does not support.
    UnsupportedOperation,
}

impl ScanError {
    /// The descriptive message an error surfaces with.
    pub fn describe(&self) -> (r: String)
        ensures
            *self is PlanError ==> r@ == "unsupported scan target shape"@,
            *self is RemoteCallError ==> r@ == "remote call failed"@,
            *self is ResponseShapeError ==> r@ == "response lacks the requested path"@,
            *self is FieldTypeError ==> r@ == "cannot select non-leaf fields"@,
            *self is UnsupportedOperation ==> r@ == "rescan is not supported"@,
    {
        match self {
            ScanError::PlanError => String::from_str("unsupported scan target shape"),
            ScanError::RemoteCallError => String::from_str("remote call failed"),
            ScanError::ResponseShapeError => String::from_str(
                "response lacks the requested path",
            ),
            ScanError::FieldTypeError => String::from_str("cannot select non-leaf fields"),
            ScanError::UnsupportedOperation => String::from_str("rescan is not supported"),
        }
    }
}

} // verus!

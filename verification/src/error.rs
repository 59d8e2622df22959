//! What can go wrong at the cluster and at the file system.

use crate::kind::ResourceKind;
use vstd::prelude::*;

verus! {

/// Why the cluster did not carry out a create or a delete call.
#[derive(Clone, Copy, Debug, PartialEq, Eq, Structural)]
pub enum ApiError {
    /// A resource of that name exists already in the namespace.
    Conflict,
    /// No resource of that name exists in the namespace.
    NotFound,
    /// The control plane could not be reached.
    Unreachable,
    /// The control plane refused the description.
    Rejected,
}

/// Why a manifest was not exported.
#[derive(Clone, Copy, Debug, PartialEq, Eq, Structural)]
pub enum IoError {
    /// The storage under the manifest failed.
    WriteFailed,
}

/// The call that ended a multi-step operation: the kind of resource it was
/// about, and the error that the cluster gave.
#[derive(Clone, Copy, Debug, PartialEq, Eq, Structural)]
pub struct Failure {
    pub kind: ResourceKind,
    pub error: ApiError,
}

/// The two calls that are made to the cluster.
#[derive(Clone, Copy, Debug, PartialEq, Eq, Structural)]
pub enum Operation {
    Create,
    Delete,
}

#[verifier::external_type_specification]
#[verifier::external_body]
pub struct ExClientError(kube::Error);

/// The class of a failed call, from the HTTP status that the control plane
/// answered with, if it answered.
///
/// A create call that is answered 409 met a resource of the same name; with
/// any other answer the description was refused. A delete call that is
/// answered 404 found nothing to delete. A call that got no answer, and a
/// delete call with any other answer, count as not having reached the
/// control plane.
pub open spec fn failure_class(operation: Operation, status: Option<u16>) -> ApiError {
    match operation {
        Operation::Create => match status {
            None => ApiError::Unreachable,
            Some(code) => if code == 409 {
                ApiError::Conflict
            } else {
                ApiError::Rejected
            },
        },
        Operation::Delete => if status == Some(404u16) {
            ApiError::NotFound
        } else {
            ApiError::Unreachable
        },
    }
}

/// The class of a failed call, from the HTTP status that the control plane
/// answered with, if it answered.
pub fn classify_failure(operation: Operation, status: Option<u16>) -> (class: ApiError)
    ensures
        class == failure_class(operation, status),
{
    match operation {
        Operation::Create => match status {
            None => ApiError::Unreachable,
            Some(code) => if code == 409 {
                ApiError::Conflict
            } else {
                ApiError::Rejected
            },
        },
        Operation::Delete => match status {
            Some(code) => if code == 404 {
                ApiError::NotFound
            } else {
                ApiError::Unreachable
            },
            None => ApiError::Unreachable,
        },
    }
}

/// The HTTP status that a `kube::Error` holds: the `code` of the status
/// object in `kube::Error::Api`, which is what the API server answered with,
/// and nothing for every other variant, none of which holds such a status.
pub uninterp spec fn answered_status(error: kube::Error) -> Option<u16>;

/// Reads the HTTP status out of a `kube::Error` by telling `kube::Error::Api`
/// from the other variants. The result is a function of the error alone, and
/// `answered_status` is its name; which status a given error holds is not
/// claimed.
#[verifier::external_body]
fn response_code(error: &kube::Error) -> (status: Option<u16>)
    ensures
        status == answered_status(*error),
{
    match error {
        kube::Error::Api(status) => Some(status.code),
        _ => None,
    }
}

/// The class of the error that a create call gave: that of the status that
/// the error holds. It is never `NotFound`.
pub fn create_failure(error: &kube::Error) -> (class: ApiError)
    ensures
        class == failure_class(Operation::Create, answered_status(*error)),
        class == ApiError::Conflict || class == ApiError::Unreachable || class
            == ApiError::Rejected,
{
    classify_failure(Operation::Create, response_code(error))
}

/// The class of the error that a delete call gave: that of the status that
/// the error holds, so `NotFound` or `Unreachable`.
pub fn delete_failure(error: &kube::Error) -> (class: ApiError)
    ensures
        class == failure_class(Operation::Delete, answered_status(*error)),
        class == ApiError::NotFound || class == ApiError::Unreachable,
{
    classify_failure(Operation::Delete, response_code(error))
}

} // verus!

//! The error kinds the pipeline surfaces, and their mapping to RPC status
//! codes.

use vstd::prelude::*;
use crate::providers::ProviderError;

verus! {

/// What can go wrong during one analysis.
#[derive(Debug, Clone)]
pub enum AnalysisError {
    /// The caller's email is missing or not syntactically valid.
    InvalidEmail,
    /// The catalog returned no endpoints for the user.
    NoEndpoints,
    /// The selector settled on no endpoint ("NO_MATCH").
    NoSuitableEndpoint,
    /// The selector named an endpoint that is not configured.
    EndpointNotFound,
    /// No endpoint configuration is available to work against.
    ConfigUnavailable,
    /// The extraction payload is not the expected JSON shape.
    InvalidJsonStructure,
    /// A follow-up yielded no usable parameters.
    NoParametersExtracted,
    /// A workflow configuration names a step that does not exist.
    UnknownStep(String),
    /// A needed prompt template is not registered.
    PromptMissing(String),
    /// The model provider failed.
    Provider(ProviderError),
}

/// The RPC status classes the façade reports.
#[derive(Debug, Clone, PartialEq, Eq, Structural)]
pub enum StatusKind {
    InvalidArgument,
    NotFound,
    FailedPrecondition,
    Internal,
}

/// The status class of an analysis error: no endpoints for the user maps to
/// not-found, an unavailable endpoint configuration to failed-precondition,
/// an invalid email to invalid-argument, and everything else to internal.
pub open spec fn status_of_spec(e: AnalysisError) -> StatusKind {
    match e {
        AnalysisError::InvalidEmail => StatusKind::InvalidArgument,
        AnalysisError::NoEndpoints => StatusKind::NotFound,
        AnalysisError::ConfigUnavailable => StatusKind::FailedPrecondition,
        _ => StatusKind::Internal,
    }
}

/// Maps an analysis error to the RPC status class the façade reports.
pub fn status_of(e: &AnalysisError) -> (r: StatusKind)
    ensures
        r == status_of_spec(*e),
{
    match e {
        AnalysisError::InvalidEmail => StatusKind::InvalidArgument,
        AnalysisError::NoEndpoints => StatusKind::NotFound,
        AnalysisError::ConfigUnavailable => StatusKind::FailedPrecondition,
        _ => StatusKind::Internal,
    }
}

/// An error is retried by the actionable flow exactly when the endpoint
/// selection did not settle.
pub open spec fn is_retryable_spec(e: AnalysisError) -> bool {
    e is NoSuitableEndpoint || e is EndpointNotFound
}

pub fn is_retryable(e: &AnalysisError) -> (r: bool)
    ensures
        r == is_retryable_spec(*e),
{
    match e {
        AnalysisError::NoSuitableEndpoint => true,
        AnalysisError::EndpointNotFound => true,
        _ => false,
    }
}

} // verus!

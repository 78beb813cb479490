//! Every way a resolution can fail, and how solver failures map onto them.
use vstd::prelude::*;

verus! {

/// A malformed answer from the host provider, found by this library.
#[derive(Debug)]
pub enum PubGrubCallbackError {
    /// The host answered with a value of the wrong shape; holds a rendering of it.
    InvalidReturnType(String),
    /// A specifier clause used an operator this library does not know; holds
    /// the operator text.
    UnsupportedSpecifier(String),
    /// A specifier clause could not be turned into a range; holds a description.
    InvalidSpecifier(String),
}

/// Why a resolution session ended without a solution. `E` is the host's own
/// error type, carried unchanged.
#[derive(Debug)]
pub enum ResolveError<E> {
    /// A host callback raised an error; it is the host's error itself.
    CallbackFailure(E),
    /// No solution exists; holds the solver's report of the conflict.
    Unsatisfiable(String),
    /// A dependency's constraint was the empty range.
    EmptyDependencyRange { package: String, version: String, dependent: String },
    /// The host answered with a value of the wrong shape.
    InvalidReturnType(String),
    /// A specifier clause used an unknown operator.
    UnsupportedSpecifier(String),
    /// A specifier clause could not be turned into a range.
    InvalidSpecifier(String),
    /// The root version text could not be parsed.
    InvalidVersion(String),
    /// The host asked for the session to stop.
    Cancelled,
    /// Any other failure the solver reported, rendered as text.
    Other(String),
}

/// The cause that a provider capability handed back to the solver when it
/// failed.
#[derive(Debug)]
pub enum ProviderFailure<E> {
    /// The host raised this error.
    Host(E),
    /// This library found the host's answer malformed.
    Malformed(PubGrubCallbackError),
    /// The host asked for the session to stop.
    Cancelled,
    /// A cause that came from neither the host nor this library, as text.
    Unknown(String),
}

/// How the solver ended a session that found no solution.
#[derive(Debug)]
pub enum SolverFailure<E> {
    /// The solver proved that no solution exists; holds its report.
    NoSolution(String),
    /// A package version depends on the empty range of another package.
    DependencyOnTheEmptySet { package: String, version: String, dependent: String },
    /// Asking the provider for dependencies failed.
    RetrievingDependencies(ProviderFailure<E>),
    /// Asking the provider to choose a package version failed.
    ChoosingPackageVersion(ProviderFailure<E>),
    /// The provider's cancellation check stopped the session.
    Cancelled(ProviderFailure<E>),
    /// Any other solver failure, as text.
    Other(String),
}

/// The resolution failure a provider failure stands for.
pub open spec fn provider_failure_kind<E>(f: ProviderFailure<E>) -> ResolveError<E> {
    match f {
        ProviderFailure::Host(e) => ResolveError::CallbackFailure(e),
        ProviderFailure::Malformed(PubGrubCallbackError::InvalidReturnType(s)) => ResolveError::InvalidReturnType(s),
        ProviderFailure::Malformed(PubGrubCallbackError::UnsupportedSpecifier(s)) => ResolveError::UnsupportedSpecifier(s),
        ProviderFailure::Malformed(PubGrubCallbackError::InvalidSpecifier(s)) => ResolveError::InvalidSpecifier(s),
        ProviderFailure::Cancelled => ResolveError::Cancelled,
        ProviderFailure::Unknown(s) => ResolveError::Other(s),
    }
}

/// The resolution failure a solver failure stands for.
pub open spec fn solver_failure_kind<E>(f: SolverFailure<E>) -> ResolveError<E> {
    match f {
        SolverFailure::NoSolution(report) => ResolveError::Unsatisfiable(report),
        SolverFailure::DependencyOnTheEmptySet { package, version, dependent } =>
            ResolveError::EmptyDependencyRange { package, version, dependent },
        SolverFailure::RetrievingDependencies(p) => provider_failure_kind(p),
        SolverFailure::ChoosingPackageVersion(p) => provider_failure_kind(p),
        SolverFailure::Cancelled(p) => provider_failure_kind(p),
        SolverFailure::Other(s) => ResolveError::Other(s),
    }
}

/// Classifies the cause of a failed provider capability. A host error is
/// carried through as it is.
pub fn classify_provider_failure<E>(f: ProviderFailure<E>) -> (r: ResolveError<E>)
    ensures
        r == provider_failure_kind(f),
{
    match f {
        ProviderFailure::Host(e) => ResolveError::CallbackFailure(e),
        ProviderFailure::Malformed(m) => match m {
            PubGrubCallbackError::InvalidReturnType(s) => ResolveError::InvalidReturnType(s),
            PubGrubCallbackError::UnsupportedSpecifier(s) => ResolveError::UnsupportedSpecifier(s),
            PubGrubCallbackError::InvalidSpecifier(s) => ResolveError::InvalidSpecifier(s),
        },
        ProviderFailure::Cancelled => ResolveError::Cancelled,
        ProviderFailure::Unknown(s) => ResolveError::Other(s),
    }
}

/// Classifies how the solver ended a session without a solution.
pub fn classify_solver_failure<E>(f: SolverFailure<E>) -> (r: ResolveError<E>)
    ensures
        r == solver_failure_kind(f),
{
    match f {
        SolverFailure::NoSolution(report) => ResolveError::Unsatisfiable(report),
        SolverFailure::DependencyOnTheEmptySet { package, version, dependent } =>
            ResolveError::EmptyDependencyRange { package, version, dependent },
        SolverFailure::RetrievingDependencies(p) => classify_provider_failure(p),
        SolverFailure::ChoosingPackageVersion(p) => classify_provider_failure(p),
        SolverFailure::Cancelled(p) => classify_provider_failure(p),
        SolverFailure::Other(s) => ResolveError::Other(s),
    }
}

/// An error a host callback raised reaches the caller of a resolution as that
/// very error, whichever solver step the callback served.
pub proof fn lemma_host_error_replayed<E>(e: E)
    ensures
        solver_failure_kind(SolverFailure::RetrievingDependencies(ProviderFailure::Host(e)))
            == ResolveError::CallbackFailure(e),
        solver_failure_kind(SolverFailure::ChoosingPackageVersion(ProviderFailure::Host(e)))
            == ResolveError::CallbackFailure(e),
        solver_failure_kind(SolverFailure::Cancelled(ProviderFailure::Host(e)))
            == ResolveError::CallbackFailure(e),
{
}

} // verus!

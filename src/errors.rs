//! The error taxonomy of the store, and the translation of the service's own
//! errors into it.
use vstd::prelude::*;

use crate::cred::Wrapper;

verus! {

/// The service's own error type, carried through opaquely.
#[verifier::external_type_specification]
#[verifier::external_body]
pub struct ExServiceError(secret_service::Error);

/// What can go wrong with a store operation.
#[derive(Debug, Clone)]
pub enum StoreError {
    /// No stored item matches.
    NoEntry,
    /// More than one stored item matches: one handle per match.
    Ambiguous(Vec<Wrapper>),
    /// A malformed request: the parameter, and what is wrong with it.
    Invalid(String, String),
    /// The store cannot do what was asked.
    NotSupportedByStore(String),
    /// The service refused access (locked, nothing returned, prompt declined).
    NoStorageAccess(String),
    /// Any other failure of the service, with its description.
    PlatformFailure(String),
}

/// The kinds of service error, one for each variant of the service's own
/// error type.
#[derive(Debug, Clone, Copy, PartialEq, Eq, Structural)]
pub enum Fault {
    /// A response message could not be decrypted.
    Crypto,
    /// A call into the secret service provider failed.
    Zbus,
    /// A call into a standard D-Bus interface failed.
    ZbusFdo,
    /// A D-Bus message could not be serialised or deserialised.
    Zvariant,
    /// The object is locked.
    Locked,
    /// The service returned no result.
    NoResult,
    /// An authorisation prompt was dismissed.
    Prompt,
    /// The connection closed while a prompt was pending.
    PromptDisconnected,
    /// No secret service provider or session was found.
    Unavailable,
    /// A variant added to the service's error type after these.
    Unknown,
}

/// Whether a fault means that access was refused rather than that the
/// service failed.
pub open spec fn is_access_fault(f: Fault) -> bool {
    f == Fault::Locked || f == Fault::NoResult || f == Fault::Prompt
}

/// The kind of a service error: which variant it is.
pub uninterp spec fn fault_class(e: secret_service::Error) -> Fault;

/// Relies on the variants of secret_service::Error: names the variant of
/// `err`, one arm each (the type is non-exhaustive, hence the last arm).
#[verifier::external_body]
fn fault_of(err: &secret_service::Error) -> (r: Fault)
    ensures
        r == fault_class(*err),
{
    match err {
        secret_service::Error::Crypto(_) => Fault::Crypto,
        secret_service::Error::Zbus(_) => Fault::Zbus,
        secret_service::Error::ZbusFdo(_) => Fault::ZbusFdo,
        secret_service::Error::Zvariant(_) => Fault::Zvariant,
        secret_service::Error::Locked => Fault::Locked,
        secret_service::Error::NoResult => Fault::NoResult,
        secret_service::Error::Prompt => Fault::Prompt,
        secret_service::Error::PromptDisconnected => Fault::PromptDisconnected,
        secret_service::Error::Unavailable => Fault::Unavailable,
        _ => Fault::Unknown,
    }
}

/// Relies on secret_service::Error's Display impl for a description; the
/// text may depend on the locale, so nothing is claimed of it.
#[verifier::external_body]
fn describe(err: &secret_service::Error) -> (r: String) {
    err.to_string()
}

/// The store's error for a service fault of kind `fault` described by `cause`.
pub fn fault_error(fault: Fault, cause: String) -> (r: StoreError)
    ensures
        is_access_fault(fault) ==> r == StoreError::NoStorageAccess(cause),
        !is_access_fault(fault) ==> r == StoreError::PlatformFailure(cause),
{
    match fault {
        Fault::Locked | Fault::NoResult | Fault::Prompt => StoreError::NoStorageAccess(cause),
        _ => StoreError::PlatformFailure(cause),
    }
}

/// Map an error of the service to the store's taxonomy: refused access
/// becomes `NoStorageAccess`, anything else `PlatformFailure`, each with the
/// error's description.
pub fn decode_error(err: secret_service::Error) -> (r: StoreError)
    ensures
        is_access_fault(fault_class(err)) ==> r is NoStorageAccess,
        !is_access_fault(fault_class(err)) ==> r is PlatformFailure,
{
    let fault = fault_of(&err);
    fault_error(fault, describe(&err))
}

/// The error for an empty target modifier.
pub fn empty_target() -> (r: StoreError)
    ensures
        r matches StoreError::Invalid(p, m) && p@ == "target"@ && m@ == "cannot be empty"@,
{
    StoreError::Invalid("target".to_owned(), "cannot be empty".to_owned())
}

/// Report an error of the service as a platform failure.
pub fn platform_failure(err: secret_service::Error) -> (r: StoreError)
    ensures
        r is PlatformFailure,
{
    StoreError::PlatformFailure(describe(&err))
}

} // verus!

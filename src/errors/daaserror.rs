//! Error enumerations shared between the processing components.
use vstd::prelude::*;

verus! {

#[derive(Debug, Clone, Copy, PartialEq, Eq, Structural)]
pub enum DaaSDocError {
    DaaSDocError,
}

#[derive(Debug, Clone, Copy, PartialEq, Eq, Structural)]
pub enum DaaSSecurityError {
    BadKeyPairError,
    BadAgreementError,
    DecryptionError,
    EncryptionError,
    TamperedDataError,
    MissingAgreementError,
    ValidationError,
}

#[derive(Debug, Clone, Copy, PartialEq, Eq, Structural)]
pub enum DaaSEventingError {
    BrokerError,
}

/// Why a consumer callback did not process a message.
#[derive(Debug, Clone, Copy, PartialEq, Eq, Structural)]
pub enum DaaSProcessingError {
    BrokerError,
    MissingAuthorError,
    RetrieveError,
    UpsertError,
}

#[derive(Debug, Clone, Copy, PartialEq, Eq, Structural)]
pub enum DaaSStorageError {
    RetrieveError,
    UpsertError,
}

} // verus!

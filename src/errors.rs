//! Error values of every component.
use vstd::prelude::*;

pub mod daaserror;

verus! {

/// A key pair could not be read.
#[derive(Debug, Clone, Copy, PartialEq, Eq, Structural)]
pub struct BadKeyPairError;

/// A usage agreement is not acceptable.
#[derive(Debug, Clone, Copy, PartialEq, Eq, Structural)]
pub struct BadAgreementError;

/// Why a delivery to the broker failed.
#[derive(Debug, Clone, Copy, PartialEq, Eq, Structural)]
pub enum BrokerErrorKind {
    /// The topic reported no partition on any metadata load.
    UnknownTopic,
    /// The cluster could not be reached or refused the message.
    ConnectionFailure,
}

/// A document could not be handed to the broker.
#[derive(Debug, Clone, Copy, PartialEq, Eq, Structural)]
pub struct BrokerError {
    pub kind: BrokerErrorKind,
}

/// An operation on a document could not be carried out.
#[derive(Debug, Clone, Copy, PartialEq, Eq, Structural)]
pub struct DaaSDocError;

/// Data could not be decrypted.
#[derive(Debug, Clone, Copy, PartialEq, Eq, Structural)]
pub struct DecryptionError;

/// Data could not be encrypted.
#[derive(Debug, Clone, Copy, PartialEq, Eq, Structural)]
pub struct EncryptionError;

/// A document declares no usage agreement.
#[derive(Debug, Clone, Copy, PartialEq, Eq, Structural)]
pub struct MissingAgreementError;

/// No author could be resolved for a request.
#[derive(Debug, Clone, Copy, PartialEq, Eq, Structural)]
pub struct MissingAuthorError;

/// Why a document could not be read back.
#[derive(Debug, Clone, Copy, PartialEq, Eq, Structural)]
pub enum RetrieveErrorKind {
    /// The identity or the requested revision is not in the store.
    NotFound,
}

/// A document could not be read back from the store.
#[derive(Debug, Clone, Copy, PartialEq, Eq, Structural)]
pub struct RetrieveError {
    pub kind: RetrieveErrorKind,
}

/// The provenance chain of a document does not verify.
#[derive(Debug, Clone, Copy, PartialEq, Eq, Structural)]
pub struct TamperedDataError;

/// Why a document could not be written to the store.
#[derive(Debug, Clone, Copy, PartialEq, Eq, Structural)]
pub enum UpsertErrorKind {
    /// The document does not carry the latest revision of its identity.
    StaleRevision,
    /// The local environment failed to read or write the document.
    IOFailure,
    /// The latest revision is the largest number a revision can hold.
    RevisionOverflow,
    /// The document was rejected before it reached the store.
    Rejected,
}

/// A document could not be saved or updated.
#[derive(Debug, Clone, Copy, PartialEq, Eq, Structural)]
pub struct UpsertError {
    pub kind: UpsertErrorKind,
}

/// Why a document failed validation.
#[derive(Debug, Clone, Copy, PartialEq, Eq, Structural)]
pub enum ValidationErrorKind {
    /// A link of the provenance chain does not match its stored hash.
    TamperedData,
}

/// A document failed validation.
#[derive(Debug, Clone, Copy, PartialEq, Eq, Structural)]
pub struct ValidationError {
    pub kind: ValidationErrorKind,
}

/// Errors raised while eventing.
#[derive(Debug, Clone, Copy, PartialEq, Eq, Structural)]
pub enum DaaSEventingError {
    BrokerError,
}

/// Errors raised by the security helpers.
#[derive(Debug, Clone, Copy, PartialEq, Eq, Structural)]
pub enum DaaSSecurityError {
    BadKeyPairError,
    BadAgreementError,
    DecryptionError,
    EncryptionError,
    TamperedDataError,
    MissingAgreementError,
    ValidationError,
}

/// Errors raised by a storage device.
#[derive(Debug, Clone, Copy, PartialEq, Eq, Structural)]
pub enum DaaSStorageError {
    RetrieveError,
    UpsertError,
}

impl BadKeyPairError {
    /// The message shown for the error.
    pub fn message(&self) -> (r: &'static str)
        ensures
            r@ == "Bad key pair provided."@,
    {
        "Bad key pair provided."
    }
}

impl BadAgreementError {
    /// The message shown for the error.
    pub fn message(&self) -> (r: &'static str)
        ensures
            r@ == "Invalid usage agreement for the DaaS document."@,
    {
        "Invalid usage agreement for the DaaS document."
    }
}

impl BrokerError {
    /// The message shown for the error.
    pub fn message(&self) -> (r: &'static str)
        ensures
            r@ == "Unable to broker the DaaS document."@,
    {
        "Unable to broker the DaaS document."
    }
}

impl DaaSDocError {
    /// The message shown for the error.
    pub fn message(&self) -> (r: &'static str)
        ensures
            r@ == "Unable to perform the operation on the DaaS document!"@,
    {
        "Unable to perform the operation on the DaaS document!"
    }
}

impl DecryptionError {
    /// The message shown for the error.
    pub fn message(&self) -> (r: &'static str)
        ensures
            r@ == "Unable to decrypt the DaaS data!"@,
    {
        "Unable to decrypt the DaaS data!"
    }
}

impl EncryptionError {
    /// The message shown for the error.
    pub fn message(&self) -> (r: &'static str)
        ensures
            r@ == "Unable to encrypt the DaaS data!"@,
    {
        "Unable to encrypt the DaaS data!"
    }
}

impl MissingAgreementError {
    /// The message shown for the error.
    pub fn message(&self) -> (r: &'static str)
        ensures
            r@ == "Missing a usage agreement for the DaaS document."@,
    {
        "Missing a usage agreement for the DaaS document."
    }
}

impl MissingAuthorError {
    /// The message shown for the error.
    pub fn message(&self) -> (r: &'static str)
        ensures
            r@ == "Missing an author for the DaaS document."@,
    {
        "Missing an author for the DaaS document."
    }
}

impl RetrieveError {
    /// The message shown for the error.
    pub fn message(&self) -> (r: &'static str)
        ensures
            r@ == "Unable to retrieve the DaaS document."@,
    {
        "Unable to retrieve the DaaS document."
    }
}

impl TamperedDataError {
    /// The message shown for the error.
    pub fn message(&self) -> (r: &'static str)
        ensures
            r@ == "DaaS document rejected. Tampered data data detected."@,
    {
        "DaaS document rejected. Tampered data data detected."
    }
}

impl UpsertError {
    /// The message shown for the error.
    pub fn message(&self) -> (r: &'static str)
        ensures
            r@ == "Unable to save or update the DaaS document."@,
    {
        "Unable to save or update the DaaS document."
    }
}

impl ValidationError {
    /// The message shown for the error.
    pub fn message(&self) -> (r: &'static str)
        ensures
            r@ == "Unable to validate the DaaS document."@,
    {
        "Unable to validate the DaaS document."
    }
}

} // verus!

use daas::errors::{
    BadAgreementError, BadKeyPairError, BrokerError, BrokerErrorKind, DaaSDocError, DecryptionError, EncryptionError,
    MissingAgreementError, MissingAuthorError, RetrieveError, RetrieveErrorKind, TamperedDataError, UpsertError,
    UpsertErrorKind, ValidationError, ValidationErrorKind,
};

#[test]
fn error_messages() {
    assert_eq!(BadKeyPairError.message(), "Bad key pair provided.");
    assert_eq!(BadAgreementError.message(), "Invalid usage agreement for the DaaS document.");
    assert_eq!(BrokerError { kind: BrokerErrorKind::UnknownTopic }.message(), "Unable to broker the DaaS document.");
    assert_eq!(DaaSDocError.message(), "Unable to perform the operation on the DaaS document!");
    assert_eq!(DecryptionError.message(), "Unable to decrypt the DaaS data!");
    assert_eq!(EncryptionError.message(), "Unable to encrypt the DaaS data!");
    assert_eq!(MissingAgreementError.message(), "Missing a usage agreement for the DaaS document.");
    assert_eq!(MissingAuthorError.message(), "Missing an author for the DaaS document.");
    assert_eq!(RetrieveError { kind: RetrieveErrorKind::NotFound }.message(), "Unable to retrieve the DaaS document.");
    assert_eq!(TamperedDataError.message(), "DaaS document rejected. Tampered data data detected.");
    assert_eq!(UpsertError { kind: UpsertErrorKind::IOFailure }.message(), "Unable to save or update the DaaS document.");
    assert_eq!(
        ValidationError { kind: ValidationErrorKind::TamperedData }.message(),
        "Unable to validate the DaaS document."
    );
}

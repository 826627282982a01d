//! The pipeline's error kinds.  Every kind is fatal to the run: no step
//! substitutes a default or proceeds past a failed check.

use vstd::prelude::*;

verus! {

/// Which link of the trust chain a digest mismatch broke: the package index
/// checked against the signed manifest, or the downloaded artifact checked
/// against the verified index record.
#[derive(Clone, Copy, PartialEq, Eq, Structural, Debug)]
pub enum ChainLink {
    Index,
    Artifact,
}

/// A fatal pipeline failure.  `DigestMismatch` carries the expected and
/// observed digests so a caller can diagnose a compromised repository.
#[derive(Clone, Debug)]
pub enum Error {
    /// A fetch could not complete.
    TransportFailure,
    /// The scoped staging area for signature verification could not be used.
    TemporaryStorageFailure,
    /// The detached signature did not verify against the supplied keyring.
    SignatureInvalid,
    /// Fetched bytes were not valid text where text was required.
    DecodeFailure,
    /// The release manifest text was structurally malformed.
    ManifestMalformed,
    /// The package index text was structurally malformed.
    IndexMalformed,
    /// The release manifest lacked an entry for the required index path.
    DigestMissing,
    /// A computed digest did not equal the expected one.
    DigestMismatch { link: ChainLink, expected: String, observed: String },
    /// No record in the index matched the requested package name.
    PackageNotFound,
}

/// The mathematical image of an [`Error`].
pub ghost enum ErrorV {
    TransportFailure,
    TemporaryStorageFailure,
    SignatureInvalid,
    DecodeFailure,
    ManifestMalformed,
    IndexMalformed,
    DigestMissing,
    DigestMismatch { link: ChainLink, expected: Seq<char>, observed: Seq<char> },
    PackageNotFound,
}

impl View for Error {
    type V = ErrorV;

    open spec fn view(&self) -> ErrorV {
        match self {
            Error::TransportFailure => ErrorV::TransportFailure,
            Error::TemporaryStorageFailure => ErrorV::TemporaryStorageFailure,
            Error::SignatureInvalid => ErrorV::SignatureInvalid,
            Error::DecodeFailure => ErrorV::DecodeFailure,
            Error::ManifestMalformed => ErrorV::ManifestMalformed,
            Error::IndexMalformed => ErrorV::IndexMalformed,
            Error::DigestMissing => ErrorV::DigestMissing,
            Error::DigestMismatch { link, expected, observed } => ErrorV::DigestMismatch {
                link: *link,
                expected: expected@,
                observed: observed@,
            },
            Error::PackageNotFound => ErrorV::PackageNotFound,
        }
    }
}

} // verus!

//! Error types for this crate.

use crate::versioned::well_formed;
use vstd::prelude::*;

verus! {

/// Which envelope field or fields an error is about.
#[derive(Clone, Copy, Debug, PartialEq, Eq, Hash, Structural)]
pub enum EnvelopeFieldSet {
    /// The `version` field.
    Version,
    /// The `data` field.
    Data,
    /// Both the `version` and the `data` fields.
    VersionAndData,
}

/// The reason a JSON blob does not appear to be an envelope.
#[derive(Clone, Copy, Debug, PartialEq, Eq, Hash, Structural)]
pub enum NotAnEnvelopeReason {
    /// The root is not a JSON object.
    NonObjectRoot {
        /// The non-object kind the root is.
        kind: NonObjectKind,
    },
    /// One or more required fields are missing.
    Missing {
        /// The fields that are missing.
        fields: EnvelopeFieldSet,
    },
}

/// The non-object JSON kind a particular blob is.
#[derive(Clone, Copy, Debug, PartialEq, Eq, Hash, Structural)]
pub enum NonObjectKind {
    /// The root is null.
    Null,
    /// The root is a boolean.
    Bool,
    /// The root is a number.
    Number,
    /// The root is a string.
    String,
    /// The root is an array.
    Array,
}

} // verus!

verus! {

/// An error that occurs while reading the envelope around the data.
#[derive(Debug)]
pub enum EnvelopeError {
    /// The input is not valid JSON.
    Json {
        /// The underlying JSON error.
        source: serde_json::Error,
    },
    /// The input is valid JSON, but not a versioned envelope.
    NotAnEnvelope {
        /// The reason the input is not a versioned envelope.
        reason: NotAnEnvelopeReason,
    },
    /// The `version` or the `data` field appears more than once.
    DuplicateFields {
        /// The field or fields that appear more than once.
        fields: EnvelopeFieldSet,
    },
    /// Field names other than `version` and `data` were found.
    UnknownFields {
        /// The unknown field names, each once, in byte order.
        names: Vec<String>,
    },
    /// Deserializing the version field as a `u32` failed.
    Version {
        /// The error that occurred.
        source: serde_json::Error,
    },
}

/// An error produced while reading a JSON blob.
#[derive(Debug)]
pub enum ReadError {
    /// There was an error reading the envelope.
    Envelope(EnvelopeError),
    /// The version identified in the envelope is not in the version set.
    UnsupportedVersion(UnsupportedVersion),
    /// The envelope's data could not be deserialized at its version.
    Data {
        /// The version of the data that could not be deserialized.
        version: u32,
        /// The underlying error.
        source: serde_json::Error,
    },
    /// Conversion to a newer version failed.
    Conversion(ConversionFailed),
    /// The version set's implementation broke its contract.
    Contract(ContractViolation),
}

/// The error produced while reading a payload that is not inside an envelope.
#[derive(Debug)]
pub enum UntaggedError {
    /// The input is not valid JSON.
    Json {
        /// The underlying error.
        source: serde_json::Error,
    },
    /// No version's parser accepted the payload.
    NoMatchingVersion(NoMatchingVersion),
    /// The payload could not be converted to the latest version.
    Conversion(ConversionFailed),
    /// The version set's implementation broke its contract.
    Contract(ContractViolation),
}

/// Reading a JSON envelope failed, or the input was not an envelope and the
/// fallback failed.
#[derive(Debug)]
pub enum ReadOrFallbackError<E> {
    /// The read failed.
    Read(ReadError),
    /// The input was not an envelope, and the fallback failed.
    Fallback {
        /// The reason the input was not an envelope.
        not_an_envelope: NotAnEnvelopeReason,
        /// The error returned by the fallback.
        source: E,
    },
}

/// The error type of [`read_json_or_untagged`](crate::read_json_or_untagged).
pub type ReadOrUntaggedError = ReadOrFallbackError<UntaggedError>;

/// A version the reader does not support.
#[derive(Clone, Copy, Debug, PartialEq, Eq, Hash)]
pub struct UnsupportedVersion {
    found: u32,
    supported: &'static [u32],
}

/// The relative position of an unsupported version.
#[derive(Clone, Copy, Debug, PartialEq, Eq, Hash, Structural)]
pub enum UnsupportedVersionKind {
    /// The version is newer than the latest supported version.
    Newer {
        /// The latest supported version.
        latest: u32,
    },
    /// The version is older than the oldest supported version.
    Older {
        /// The oldest supported version.
        oldest: u32,
    },
    /// The version lies between two supported versions.
    Gap,
}

impl UnsupportedVersion {
    /// The version was not found in a well-formed list of supported versions.
    #[verifier::type_invariant]
    spec fn unsupported(self) -> bool {
        &&& well_formed(self.supported@)
        &&& !self.supported@.contains(self.found)
    }

    /// The version identified by the envelope.
    pub closed spec fn spec_found(self) -> u32 {
        self.found
    }

    /// The supported versions.
    pub closed spec fn spec_supported(self) -> Seq<u32> {
        self.supported@
    }

    /// Records that `found` is not one of the well-formed list `supported`.
    pub fn new(found: u32, supported: &'static [u32]) -> (r: Self)
        requires
            well_formed(supported@),
            !supported@.contains(found),
        ensures
            r.spec_found() == found,
            r.spec_supported() == supported@,
    {
        UnsupportedVersion { found, supported }
    }

    /// Returns the version identified by the envelope.
    pub fn found(&self) -> (r: u32)
        ensures
            r == self.spec_found(),
    {
        self.found
    }

    /// Returns the list of supported versions.
    pub fn supported(&self) -> (r: &'static [u32])
        ensures
            r@ == self.spec_supported(),
            well_formed(r@),
            !r@.contains(self.spec_found()),
    {
        proof {
            use_type_invariant(self);
        }
        self.supported
    }

    /// Returns where the version lies relative to the supported versions.
    pub fn kind(&self) -> (r: UnsupportedVersionKind)
        ensures
            r == kind_of_version(self.spec_found(), self.spec_supported()),
            r is Gap ==> exists|i: int| #[trigger] in_gap(self.spec_supported(), i, self.spec_found()),
    {
        proof {
            use_type_invariant(self);
        }
        let oldest = self.supported[0];
        let latest = self.supported[self.supported.len() - 1];
        if self.found > latest {
            UnsupportedVersionKind::Newer { latest }
        } else if self.found < oldest {
            UnsupportedVersionKind::Older { oldest }
        } else {
            proof {
                lemma_gap(self.found, self.supported@);
            }
            UnsupportedVersionKind::Gap
        }
    }
}

/// `v` lies strictly between the neighbours `s[i]` and `s[i + 1]`.
pub open spec fn in_gap(s: Seq<u32>, i: int, v: u32) -> bool {
    0 <= i < s.len() - 1 && s[i] < v < s[i + 1]
}

/// A version that is missing from a well-formed list, and lies between its
/// oldest and latest versions, lies strictly between two neighbours.
pub proof fn lemma_gap(found: u32, supported: Seq<u32>)
    requires
        well_formed(supported),
        !supported.contains(found),
        supported[0] <= found <= supported.last(),
    ensures
        exists|i: int| #[trigger] in_gap(supported, i, found),
    decreases supported.len(),
{
    if found == supported[0] {
        assert(supported.contains(found));
    } else if supported.len() == 1 {
    } else if found < supported[1] {
        assert(in_gap(supported, 0, found));
    } else {
        let rest = supported.drop_first();
        assert(rest[0] == supported[1]);
        assert(rest.last() == supported.last());
        assert(!rest.contains(found)) by {
            if rest.contains(found) {
                let k = choose|k: int| 0 <= k < rest.len() && rest[k] == found;
                assert(supported[k + 1] == found);
            }
        }
        lemma_gap(found, rest);
        let k = choose|k: int| #[trigger] in_gap(rest, k, found);
        assert(in_gap(supported, k + 1, found));
    }
}

/// Where `found` lies relative to the versions `supported`.
pub open spec fn kind_of_version(found: u32, supported: Seq<u32>) -> UnsupportedVersionKind {
    if found > supported.last() {
        UnsupportedVersionKind::Newer { latest: supported.last() }
    } else if found < supported[0] {
        UnsupportedVersionKind::Older { oldest: supported[0] }
    } else {
        UnsupportedVersionKind::Gap
    }
}

/// Conversion to a newer version failed.
#[derive(Debug)]
pub struct ConversionFailed {
    from: u32,
    to: u32,
    source: String,
}

impl ConversionFailed {
    /// The version the failed step started from.
    pub closed spec fn spec_from(self) -> u32 {
        self.from
    }

    /// The version the failed step aimed for.
    pub closed spec fn spec_to(self) -> u32 {
        self.to
    }

    /// The message of the cause.
    pub closed spec fn spec_source(self) -> Seq<char> {
        self.source@
    }

    /// Records that converting from `from` to `to` failed with `source`.
    pub fn new(from: u32, to: u32, source: String) -> (r: Self)
        ensures
            r.spec_from() == from,
            r.spec_to() == to,
            r.spec_source() == source@,
    {
        ConversionFailed { from, to, source }
    }

    /// Returns the version from which conversion failed.
    pub fn from_version(&self) -> (r: u32)
        ensures
            r == self.spec_from(),
    {
        self.from
    }

    /// Returns the version that conversion failed to.
    pub fn to_version(&self) -> (r: u32)
        ensures
            r == self.spec_to(),
    {
        self.to
    }

    /// Returns the message of the error that made the step fail.
    pub fn source(&self) -> (r: &str)
        ensures
            r@ == self.spec_source(),
    {
        self.source.as_str()
    }
}

/// Every version's parser refused an untagged payload.
#[derive(Debug)]
pub struct NoMatchingVersion {
    attempts: Vec<VersionAttempt>,
}

impl NoMatchingVersion {
    /// The versions tried, in the order they were tried.
    pub closed spec fn spec_versions(self) -> Seq<u32> {
        self.attempts@.map_values(|a: VersionAttempt| a.version)
    }

    /// The errors of the attempts, in the order they were tried.
    pub closed spec fn spec_errors(self) -> Seq<serde_json::Error> {
        self.attempts@.map_values(|a: VersionAttempt| a.error)
    }

    /// Records the failed attempts.
    pub fn new(attempts: Vec<VersionAttempt>) -> (r: Self)
        ensures
            r.spec_versions() == attempts@.map_values(|a: VersionAttempt| a.spec_version()),
            r.spec_errors() == attempts@.map_values(|a: VersionAttempt| a.spec_error()),
    {
        NoMatchingVersion { attempts }
    }

    /// Returns every attempt that was tried and why it failed.
    pub fn attempts(&self) -> (r: &[VersionAttempt])
        ensures
            r@.map_values(|a: VersionAttempt| a.spec_version()) == self.spec_versions(),
            r@.map_values(|a: VersionAttempt| a.spec_error()) == self.spec_errors(),
    {
        self.attempts.as_slice()
    }
}

/// A failed attempt to read an untagged payload at one version.
#[derive(Debug)]
pub struct VersionAttempt {
    version: u32,
    error: serde_json::Error,
}

impl VersionAttempt {
    /// The version the attempt was made with.
    pub closed spec fn spec_version(self) -> u32 {
        self.version
    }

    /// The error the attempt failed with.
    pub closed spec fn spec_error(self) -> serde_json::Error {
        self.error
    }

    /// Records that reading at `version` failed with `error`.
    pub fn new(version: u32, error: serde_json::Error) -> (r: Self)
        ensures
            r.spec_version() == version,
            r.spec_error() == error,
    {
        VersionAttempt { version, error }
    }

    /// Returns the version the attempt was made with.
    pub fn version(&self) -> (r: u32)
        ensures
            r == self.spec_version(),
    {
        self.version
    }

    /// Returns the error that occurred.
    pub fn error(&self) -> (r: &serde_json::Error)
        ensures
            *r == self.spec_error(),
    {
        &self.error
    }
}

/// How an implementation of [`VersionSet`](crate::VersionSet) broke its
/// contract while a payload was upgraded.
#[derive(Clone, Copy, Debug, PartialEq, Eq, Hash, Structural)]
pub enum ContractViolation {
    /// `parse` was asked for one version and returned a value of a version
    /// not in `VERSIONS`.
    ParsedNonMember {
        /// The version asked for.
        asked: u32,
        /// The version of the value returned.
        returned: u32,
    },
    /// `parse` was asked for one version and returned a value of an older
    /// version.
    ParsedOlder {
        /// The version asked for.
        asked: u32,
        /// The version of the value returned.
        returned: u32,
    },
    /// `step` on the last version returned `Next`.
    NextFromLatest {
        /// The last version.
        from: u32,
        /// The version of the value returned.
        to: u32,
    },
    /// `step` on the last version returned `Failed`.
    FailedFromLatest {
        /// The last version.
        from: u32,
        /// The version named by the failure.
        to: u32,
    },
    /// `step` on an older version returned `Done`.
    DoneBeforeLatest {
        /// The version stepped from.
        from: u32,
        /// The last version.
        latest: u32,
    },
    /// `step` named a version that is not in `VERSIONS`.
    StepToNonMember {
        /// The version stepped from.
        from: u32,
        /// The version named.
        to: u32,
        /// Whether the step was a failure rather than a `Next`.
        failed: bool,
    },
    /// `step` named a version that is not newer.
    StepNotNewer {
        /// The version stepped from.
        from: u32,
        /// The version named.
        to: u32,
        /// Whether the step was a failure rather than a `Next`.
        failed: bool,
    },
}

} // verus!

//! The messages the errors of this crate are shown with.
//!
//! Each message is stated exactly as text; the error types' `Display` impls
//! (which live with the program, not the library) print these.

use crate::errors::{
    ContractViolation, ConversionFailed, EnvelopeError, EnvelopeFieldSet, NoMatchingVersion,
    NonObjectKind, NotAnEnvelopeReason, ReadError, ReadOrFallbackError, UnsupportedVersion,
    UnsupportedVersionKind, UntaggedError, kind_of_version,
};
use crate::json::{error_text, json_error_text};
use crate::order::names_view;
use crate::text::{append_decimal, decimal_text};
use vstd::prelude::*;

verus! {

/// The decimal text of a `u32`.
pub open spec fn dec(n: u32) -> Seq<char> {
    decimal_text(n as nat)
}

/// How the kind of a non-object root is named.
pub open spec fn kind_text(kind: NonObjectKind) -> Seq<char> {
    match kind {
        NonObjectKind::Null => "null"@,
        NonObjectKind::Bool => "a boolean"@,
        NonObjectKind::Number => "a number"@,
        NonObjectKind::String => "a string"@,
        NonObjectKind::Array => "an array"@,
    }
}

/// The message of a reason a document is not an envelope.
pub open spec fn reason_text(reason: NotAnEnvelopeReason) -> Seq<char> {
    match reason {
        NotAnEnvelopeReason::NonObjectRoot { kind } => "its root is "@ + kind_text(kind)
            + ", not an object"@,
        NotAnEnvelopeReason::Missing { fields } => match fields {
            EnvelopeFieldSet::Version => "it is an object with no `version` field"@,
            EnvelopeFieldSet::Data => "it is an object with no `data` field"@,
            EnvelopeFieldSet::VersionAndData => "it is an object with neither a `version` nor a `data` field"@,
        },
    }
}

/// Names, each between backticks, separated by `, `.
pub open spec fn backticked(names: Seq<Seq<char>>) -> Seq<char>
    decreases names.len(),
{
    if names.len() == 0 {
        seq![]
    } else if names.len() == 1 {
        "`"@ + names[0] + "`"@
    } else {
        backticked(names.drop_last()) + ", `"@ + names.last() + "`"@
    }
}

/// The message of an envelope error.
pub open spec fn envelope_text(error: EnvelopeError) -> Seq<char> {
    match error {
        EnvelopeError::Json { .. } => "the input is not valid JSON"@,
        EnvelopeError::NotAnEnvelope { reason } => "the input is valid JSON, but not a versioned envelope: "@
            + reason_text(reason),
        EnvelopeError::DuplicateFields { fields } => match fields {
            EnvelopeFieldSet::Version => "the envelope has more than one `version` field"@,
            EnvelopeFieldSet::Data => "the envelope has more than one `data` field"@,
            EnvelopeFieldSet::VersionAndData => "the envelope has more than one `version` field and more than one `data` field"@,
        },
        EnvelopeError::UnknownFields { names } => "the envelope has fields other than `version` and `data`: "@
            + backticked(names_view(names@)),
        EnvelopeError::Version { .. } => "the envelope's version is not a u32"@,
    }
}

/// Versions separated by `, `.
pub open spec fn comma_list(versions: Seq<u32>) -> Seq<char>
    decreases versions.len(),
{
    if versions.len() == 0 {
        seq![]
    } else if versions.len() == 1 {
        dec(versions[0])
    } else {
        comma_list(versions.drop_last()) + ", "@ + dec(versions.last())
    }
}

/// Versions separated by `, `, the last two by ` and `.
pub open spec fn version_list(versions: Seq<u32>) -> Seq<char> {
    if versions.len() <= 1 {
        comma_list(versions)
    } else {
        comma_list(versions.drop_last()) + " and "@ + dec(versions.last())
    }
}

/// The message of an unsupported version.
pub open spec fn unsupported_text(found: u32, supported: Seq<u32>) -> Seq<char> {
    match kind_of_version(found, supported) {
        UnsupportedVersionKind::Newer { latest } => "the envelope's version is "@ + dec(found)
            + ", but the newest version this reader understands is "@ + dec(latest),
        UnsupportedVersionKind::Older { oldest } => "the envelope's version is "@ + dec(found)
            + ", but the oldest version this reader supports is "@ + dec(oldest),
        UnsupportedVersionKind::Gap => "the envelope's version is "@ + dec(found)
            + ", but this reader understands only versions "@ + version_list(supported),
    }
}

/// The message of a failed conversion.
pub open spec fn conversion_text(from: u32, to: u32) -> Seq<char> {
    "converting a version "@ + dec(from) + " payload to version "@ + dec(to) + " failed"@
}

/// How a step is named in a contract violation.
pub open spec fn step_text(failed: bool) -> Seq<char> {
    if failed {
        "Failed"@
    } else {
        "Next"@
    }
}

/// The message of a contract violation.
pub open spec fn violation_text(violation: ContractViolation) -> Seq<char> {
    match violation {
        ContractViolation::ParsedNonMember { asked, returned } => "parse was asked for version "@
            + dec(asked) + " and returned a version "@ + dec(returned) + " value, but "@ + dec(
            returned,
        ) + " is not in VERSIONS"@,
        ContractViolation::ParsedOlder { asked, returned } => "parse was asked for version "@
            + dec(asked) + " and returned a version "@ + dec(returned)
            + " value, which is older"@,
        ContractViolation::NextFromLatest { from, to } => "step for version "@ + dec(from)
            + ", the last version in VERSIONS, returned Next naming version "@ + dec(to),
        ContractViolation::FailedFromLatest { from, to } => "step for version "@ + dec(from)
            + ", the last version in VERSIONS, returned Failed naming version "@ + dec(to),
        ContractViolation::DoneBeforeLatest { from, latest } => "step for version "@ + dec(from)
            + " returned Done, but the last version in VERSIONS is "@ + dec(latest),
        ContractViolation::StepToNonMember { from, to, failed } => "step for version "@ + dec(
            from,
        ) + " returned "@ + step_text(failed) + " naming version "@ + dec(to) + ", but "@ + dec(
            to,
        ) + " is not in VERSIONS"@,
        ContractViolation::StepNotNewer { from, to, failed } => "step for version "@ + dec(from)
            + " returned "@ + step_text(failed) + " naming version "@ + dec(to)
            + ", which is not newer"@,
    }
}

/// The message of a read error whose parts' messages are given.
pub open spec fn read_text(error: ReadError) -> Seq<char> {
    match error {
        ReadError::Envelope(e) => envelope_text(e),
        ReadError::UnsupportedVersion(u) => unsupported_text(u.spec_found(), u.spec_supported()),
        ReadError::Data { version, .. } => "the envelope's `data` is not a version "@ + dec(version)
            + " payload"@,
        ReadError::Conversion(c) => conversion_text(c.spec_from(), c.spec_to()),
        ReadError::Contract(v) => violation_text(v),
    }
}

/// Attempts `version: error`, separated by `; `.
pub open spec fn attempts_text(versions: Seq<u32>, errors: Seq<Seq<char>>) -> Seq<char>
    decreases versions.len(),
{
    if versions.len() == 0 {
        seq![]
    } else if versions.len() == 1 {
        "version "@ + dec(versions[0]) + ": "@ + errors[0]
    } else {
        attempts_text(versions.drop_last(), errors.drop_last()) + "; version "@ + dec(
            versions.last(),
        ) + ": "@ + errors.last()
    }
}

/// The message of an untagged payload no version accepts, given the messages
/// of the errors of the attempts.
pub open spec fn no_match_text(versions: Seq<u32>, errors: Seq<Seq<char>>) -> Seq<char> {
    "the document carries no version, and is not a payload of any version this reader understands ("@
        + attempts_text(versions, errors) + ")"@
}

/// The message of a read whose fallback failed.
pub open spec fn fallback_text(reason: NotAnEnvelopeReason) -> Seq<char> {
    "the input is valid JSON, but not a versioned envelope ("@ + reason_text(reason)
        + "), so it was read as a document from before the envelope, and that failed"@
}

/// The name of a non-object kind.
fn kind_str(kind: NonObjectKind) -> (r: &'static str)
    ensures
        r@ == kind_text(kind),
{
    match kind {
        NonObjectKind::Null => "null",
        NonObjectKind::Bool => "a boolean",
        NonObjectKind::Number => "a number",
        NonObjectKind::String => "a string",
        NonObjectKind::Array => "an array",
    }
}

impl NotAnEnvelopeReason {
    /// Returns the message of this reason.
    pub fn message(&self) -> (r: String)
        ensures
            r@ == reason_text(*self),
    {
        match self {
            NotAnEnvelopeReason::NonObjectRoot { kind } => {
                let mut s = String::from_str("its root is ");
                s.append(kind_str(*kind));
                s.append(", not an object");
                proof {
                    assert(s@ =~= reason_text(*self));
                }
                s
            },
            NotAnEnvelopeReason::Missing { fields } => match fields {
                EnvelopeFieldSet::Version => String::from_str(
                    "it is an object with no `version` field",
                ),
                EnvelopeFieldSet::Data => String::from_str("it is an object with no `data` field"),
                EnvelopeFieldSet::VersionAndData => String::from_str(
                    "it is an object with neither a `version` nor a `data` field",
                ),
            },
        }
    }
}

/// Appends names, each between backticks, separated by `, `.
fn append_backticked(s: &mut String, names: &Vec<String>)
    ensures
        final(s)@ == old(s)@ + backticked(names_view(names@)),
{
    let ghost start = s@;
    let ghost all = names_view(names@);
    let mut i: usize = 0;
    while i < names.len()
        invariant
            i <= names@.len(),
            all == names_view(names@),
            s@ =~= start + backticked(all.take(i as int)),
        decreases names@.len() - i,
    {
        let ghost before = s@;
        if i > 0 {
            s.append(", `");
        } else {
            s.append("`");
        }
        s.append(names[i].as_str());
        s.append("`");
        proof {
            let t = all.take(i + 1);
            assert(t.drop_last() =~= all.take(i as int));
            assert(t.last() == names@[i as int]@);
            if i == 0 {
                assert(t.len() == 1);
                assert(t[0] == names@[0]@);
            }
        }
        i += 1;
    }
    proof {
        assert(all.take(names@.len() as int) =~= all);
    }
}

impl EnvelopeError {
    /// Returns the message of this error.
    pub fn message(&self) -> (r: String)
        ensures
            r@ == envelope_text(*self),
    {
        match self {
            EnvelopeError::Json { .. } => String::from_str("the input is not valid JSON"),
            EnvelopeError::NotAnEnvelope { reason } => {
                let mut s = String::from_str(
                    "the input is valid JSON, but not a versioned envelope: ",
                );
                let r = reason.message();
                s.append(r.as_str());
                s
            },
            EnvelopeError::DuplicateFields { fields } => match fields {
                EnvelopeFieldSet::Version => String::from_str(
                    "the envelope has more than one `version` field",
                ),
                EnvelopeFieldSet::Data => String::from_str(
                    "the envelope has more than one `data` field",
                ),
                EnvelopeFieldSet::VersionAndData => String::from_str(
                    "the envelope has more than one `version` field and more than one `data` field",
                ),
            },
            EnvelopeError::UnknownFields { names } => {
                let mut s = String::from_str(
                    "the envelope has fields other than `version` and `data`: ",
                );
                append_backticked(&mut s, names);
                s
            },
            EnvelopeError::Version { .. } => String::from_str("the envelope's version is not a u32"),
        }
    }
}

/// Appends versions separated by `, `, the last two by ` and `.
fn append_version_list(s: &mut String, versions: &[u32])
    ensures
        final(s)@ == old(s)@ + version_list(versions@),
{
    let ghost start = s@;
    let n = versions.len();
    if n == 0 {
        proof {
            assert(s@ =~= start + version_list(versions@));
        }
        return;
    }
    let mut i: usize = 0;
    while i + 1 < n
        invariant
            n == versions@.len(),
            n >= 1,
            i + 1 <= n,
            s@ =~= start + comma_list(versions@.take(i as int)),
        decreases n - i,
    {
        if i > 0 {
            s.append(", ");
        }
        append_decimal(s, versions[i]);
        proof {
            let t = versions@.take(i + 1);
            assert(t.drop_last() =~= versions@.take(i as int));
            if i == 0 {
                assert(t.len() == 1);
            }
        }
        i += 1;
    }
    if i > 0 {
        s.append(" and ");
    }
    append_decimal(s, versions[i]);
    proof {
        assert(versions@.drop_last() =~= versions@.take(i as int));
        if i == 0 {
            assert(versions@.take(0) =~= Seq::<u32>::empty());
        }
    }
}

/// Builds the message of an unsupported version.
fn unsupported_message(found: u32, kind: UnsupportedVersionKind, supported: &[u32]) -> (r: String)
    requires
        kind == kind_of_version(found, supported@),
    ensures
        r@ == unsupported_text(found, supported@),
{
    let mut s = String::from_str("the envelope's version is ");
    append_decimal(&mut s, found);
    match kind {
        UnsupportedVersionKind::Newer { latest } => {
            s.append(", but the newest version this reader understands is ");
            append_decimal(&mut s, latest);
        },
        UnsupportedVersionKind::Older { oldest } => {
            s.append(", but the oldest version this reader supports is ");
            append_decimal(&mut s, oldest);
        },
        UnsupportedVersionKind::Gap => {
            s.append(", but this reader understands only versions ");
            append_version_list(&mut s, supported);
        },
    }
    proof {
        assert(s@ =~= unsupported_text(found, supported@));
    }
    s
}

impl UnsupportedVersion {
    /// Returns the message of this error.
    pub fn message(&self) -> (r: String)
        ensures
            r@ == unsupported_text(self.spec_found(), self.spec_supported()),
    {
        let kind = self.kind();
        unsupported_message(self.found(), kind, self.supported())
    }
}

impl ConversionFailed {
    /// Returns the message of this error.
    pub fn message(&self) -> (r: String)
        ensures
            r@ == conversion_text(self.spec_from(), self.spec_to()),
    {
        let mut s = String::from_str("converting a version ");
        append_decimal(&mut s, self.from_version());
        s.append(" payload to version ");
        append_decimal(&mut s, self.to_version());
        s.append(" failed");
        proof {
            assert(s@ =~= conversion_text(self.spec_from(), self.spec_to()));
        }
        s
    }
}

impl ContractViolation {
    /// Returns the message of this violation.
    pub fn message(&self) -> (r: String)
        ensures
            r@ == violation_text(*self),
    {
        let mut s = String::new();
        match *self {
            ContractViolation::ParsedNonMember { asked, returned } => {
                s.append("parse was asked for version ");
                append_decimal(&mut s, asked);
                s.append(" and returned a version ");
                append_decimal(&mut s, returned);
                s.append(" value, but ");
                append_decimal(&mut s, returned);
                s.append(" is not in VERSIONS");
            },
            ContractViolation::ParsedOlder { asked, returned } => {
                s.append("parse was asked for version ");
                append_decimal(&mut s, asked);
                s.append(" and returned a version ");
                append_decimal(&mut s, returned);
                s.append(" value, which is older");
            },
            ContractViolation::NextFromLatest { from, to } => {
                s.append("step for version ");
                append_decimal(&mut s, from);
                s.append(", the last version in VERSIONS, returned Next naming version ");
                append_decimal(&mut s, to);
            },
            ContractViolation::FailedFromLatest { from, to } => {
                s.append("step for version ");
                append_decimal(&mut s, from);
                s.append(", the last version in VERSIONS, returned Failed naming version ");
                append_decimal(&mut s, to);
            },
            ContractViolation::DoneBeforeLatest { from, latest } => {
                s.append("step for version ");
                append_decimal(&mut s, from);
                s.append(" returned Done, but the last version in VERSIONS is ");
                append_decimal(&mut s, latest);
            },
            ContractViolation::StepToNonMember { from, to, failed } => {
                s.append("step for version ");
                append_decimal(&mut s, from);
                s.append(" returned ");
                if failed {
                    s.append("Failed");
                } else {
                    s.append("Next");
                }
                s.append(" naming version ");
                append_decimal(&mut s, to);
                s.append(", but ");
                append_decimal(&mut s, to);
                s.append(" is not in VERSIONS");
            },
            ContractViolation::StepNotNewer { from, to, failed } => {
                s.append("step for version ");
                append_decimal(&mut s, from);
                s.append(" returned ");
                if failed {
                    s.append("Failed");
                } else {
                    s.append("Next");
                }
                s.append(" naming version ");
                append_decimal(&mut s, to);
                s.append(", which is not newer");
            },
        }
        proof {
            assert(s@ =~= violation_text(*self));
        }
        s
    }
}

impl ReadError {
    /// Returns the message of this error.
    pub fn message(&self) -> (r: String)
        ensures
            r@ == read_text(*self),
    {
        match self {
            ReadError::Envelope(e) => e.message(),
            ReadError::UnsupportedVersion(u) => u.message(),
            ReadError::Data { version, .. } => {
                let mut s = String::from_str("the envelope's `data` is not a version ");
                append_decimal(&mut s, *version);
                s.append(" payload");
                proof {
                    assert(s@ =~= read_text(*self));
                }
                s
            },
            ReadError::Conversion(c) => c.message(),
            ReadError::Contract(v) => v.message(),
        }
    }
}

/// The message of each attempt's error, in order.
pub open spec fn attempt_texts(errors: Seq<serde_json::Error>) -> Seq<Seq<char>> {
    errors.map_values(|e: serde_json::Error| json_error_text(e))
}

impl NoMatchingVersion {
    /// Returns the message of this error, with the message of each attempt's
    /// error.
    pub fn message(&self) -> (r: String)
        ensures
            r@ == no_match_text(self.spec_versions(), attempt_texts(self.spec_errors())),
    {
        let attempts = self.attempts();
        let ghost versions = self.spec_versions();
        let ghost mut errors: Seq<Seq<char>> = seq![];
        let mut s = String::from_str(
            "the document carries no version, and is not a payload of any version this reader understands (",
        );
        let ghost start = s@;
        let mut i: usize = 0;
        while i < attempts.len()
            invariant
                i <= attempts@.len(),
                versions == attempts@.map_values(|a: crate::errors::VersionAttempt| a.spec_version()),
                self.spec_errors() == attempts@.map_values(|a: crate::errors::VersionAttempt| a.spec_error()),
                errors == attempt_texts(self.spec_errors()).take(i as int),
                s@ =~= start + attempts_text(versions.take(i as int), errors),
            decreases attempts@.len() - i,
        {
            if i > 0 {
                s.append("; version ");
            } else {
                s.append("version ");
            }
            append_decimal(&mut s, attempts[i].version());
            s.append(": ");
            let text = error_text(attempts[i].error());
            s.append(text.as_str());
            proof {
                let old_errors = errors;
                errors = errors.push(text@);
                let t = versions.take(i + 1);
                assert(t.drop_last() =~= versions.take(i as int));
                assert(errors.drop_last() =~= old_errors);
                assert(t.last() == versions[i as int]);
                if i == 0 {
                    assert(t.len() == 1);
                }
            }
            i += 1;
        }
        s.append(")");
        proof {
            assert(versions.take(attempts@.len() as int) =~= versions);
            assert(errors =~= attempt_texts(self.spec_errors()));
            assert(s@ =~= no_match_text(versions, errors));
        }
        s
    }
}

impl UntaggedError {
    /// Returns the message of this error.
    pub fn message(&self) -> (r: String)
        ensures
            self matches UntaggedError::Json { .. } ==> r@ == "the input is not valid JSON"@,
            self matches UntaggedError::NoMatchingVersion(none) ==> r@ == no_match_text(
                none.spec_versions(),
                attempt_texts(none.spec_errors()),
            ),
            self matches UntaggedError::Conversion(c) ==> r@ == conversion_text(
                c.spec_from(),
                c.spec_to(),
            ),
            self matches UntaggedError::Contract(v) ==> r@ == violation_text(*v),
    {
        match self {
            UntaggedError::Json { .. } => String::from_str("the input is not valid JSON"),
            UntaggedError::NoMatchingVersion(none) => none.message(),
            UntaggedError::Conversion(c) => c.message(),
            UntaggedError::Contract(v) => v.message(),
        }
    }
}

impl<E> ReadOrFallbackError<E> {
    /// Returns the message of this error.
    pub fn message(&self) -> (r: String)
        ensures
            self matches ReadOrFallbackError::Read(e) ==> r@ == read_text(*e),
            self matches ReadOrFallbackError::Fallback { not_an_envelope, .. } ==> r@
                == fallback_text(*not_an_envelope),
    {
        match self {
            ReadOrFallbackError::Read(e) => e.message(),
            ReadOrFallbackError::Fallback { not_an_envelope, .. } => {
                let mut s = String::from_str(
                    "the input is valid JSON, but not a versioned envelope (",
                );
                let r = not_an_envelope.message();
                s.append(r.as_str());
                s.append("), so it was read as a document from before the envelope, and that failed");
                proof {
                    assert(s@ =~= fallback_text(*not_an_envelope));
                }
                s
            },
        }
    }
}

} // verus!

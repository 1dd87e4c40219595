//! The read functions.
//!
//! | Function | If the input is an envelope | If it is not | Error type |
//! |---|---|---|---|
//! | [`read_json`] | Reads and upgrades it | Fails | [`ReadError`] |
//! | [`read_untagged_json`] | Does not look for one | Tries each version's payload, newest first | [`UntaggedError`] |
//! | [`read_json_or_else`] | Reads and upgrades it | Calls the fallback with the reason | [`ReadOrFallbackError`] |
//! | [`read_json_or_untagged`] | Reads and upgrades it | Tries each version's payload, newest first | [`ReadOrUntaggedError`] |
//!
//! Each has a `_with` variant that hands a [`VersionSet::Context`] to the
//! upgrade steps. A damaged envelope (a repeated or unknown field, or a bad
//! version) is always an error; fallbacks run only for documents that are
//! JSON but not envelopes.
//!
//! Every reader requires the version set to keep its contract
//! ([`keeps_contract`]); where a set implemented outside verified code breaks
//! it, the reader reports a `Contract` error.

use crate::envelope::{
    Opened, is_single_value, refusal_kept, law_envelope_roundtrip, open_spec, parse_envelope, positioned,
    positioned_value, spaces,
};
use crate::errors::{
    EnvelopeError, NoMatchingVersion, NotAnEnvelopeReason, ReadError, ReadOrFallbackError,
    ReadOrUntaggedError, UnsupportedVersion, UntaggedError, VersionAttempt,
};
use crate::json::{check_json, json_accepts, json_refusal};
use crate::output::{Origin, ReadOutput, rewrite_needed};
use crate::upgrade::{Outcome, UpgradeError, keeps_contract, upgrade, upgrade_spec};
use crate::versioned::{VersionSet, is_member, latest_version, well_formed};
use crate::write::{data_offset, envelope_bytes};
use vstd::prelude::*;

verus! {

/// The result of a read that the upgrade outcome `o` stands for: the latest
/// value read through `origin`, or the upgrade's failure.
pub open spec fn read_from_outcome<L>(
    o: Outcome<L>,
    origin: Origin,
    latest: u32,
    r: Result<ReadOutput<L>, ReadError>,
) -> bool {
    match o {
        Outcome::Latest(l) => r matches Ok(out) && out.spec_value() == l && out.spec_origin()
            == origin && out.spec_latest() == latest,
        Outcome::Failed { from, to, source } => r matches Err(ReadError::Conversion(c))
            && c.spec_from() == from && c.spec_to() == to && c.spec_source() == source,
        Outcome::Violation(v) => r matches Err(ReadError::Contract(w)) && w == v,
    }
}

/// What [`read_json_with`] returns for the document `s` and the context `cx`:
/// the envelope's fault; an unsupported version; the parser's error on the
/// data at the envelope's version; or how the parsed value's upgrade ends.
pub open spec fn envelope_read<S: VersionSet>(
    s: Seq<u8>,
    cx: S::Context,
    r: Result<ReadOutput<S::Latest>, ReadError>,
) -> bool {
    let versions = S::VERSIONS@;
    match open_spec(s) {
        Opened::Envelope { version, data_start, data_end } => if versions.contains(version) {
            match S::spec_parse(version, positioned(s, data_start, data_end)) {
                Err(e) => r matches Err(ReadError::Data { version: v, source }) && v == version
                    && source == e,
                Ok(value) => read_from_outcome(
                    upgrade_spec(value, version, cx),
                    Origin::Envelope { version },
                    versions.last(),
                    r,
                ),
            }
        } else {
            r matches Err(ReadError::UnsupportedVersion(u)) && u.spec_found() == version
                && u.spec_supported() == versions
        },
        fault => r matches Err(ReadError::Envelope(e)) && e.fault() == fault && e.well_formed()
            && refusal_kept(s, e),
    }
}

/// An envelope of a version in the set, with its data as the payload parser
/// receives it.
pub struct EnvelopeData {
    /// The envelope's version.
    pub version: u32,
    /// The data value, preceded by the document's bytes blanked out.
    pub data: Vec<u8>,
}

/// What [`open_envelope`] returns for the document `s`, with the version
/// list `versions`.
pub open spec fn envelope_opened(
    versions: Seq<u32>,
    s: Seq<u8>,
    r: Result<EnvelopeData, ReadError>,
) -> bool {
    match open_spec(s) {
        Opened::Envelope { version, data_start, data_end } => if versions.contains(version) {
            r matches Ok(d) && d.version == version && d.data@ == positioned(s, data_start, data_end)
        } else {
            r matches Err(ReadError::UnsupportedVersion(u)) && u.spec_found() == version
                && u.spec_supported() == versions
        },
        fault => r matches Err(ReadError::Envelope(e)) && e.fault() == fault && e.well_formed()
            && refusal_kept(s, e),
    }
}

/// Reads the envelope of a document for a set whose versions are `versions`:
/// the envelope must be well-formed and its version one of `versions`.
pub fn open_envelope(bytes: &[u8], versions: &'static [u32]) -> (r: Result<EnvelopeData, ReadError>)
    requires
        well_formed(versions@),
    ensures
        envelope_opened(versions@, bytes@, r),
{
    let envelope = match parse_envelope(bytes) {
        Ok(envelope) => envelope,
        Err(error) => {
            return Err(ReadError::Envelope(error));
        },
    };
    let found = envelope.version;
    if !is_member(versions, found) {
        return Err(ReadError::UnsupportedVersion(UnsupportedVersion::new(found, versions)));
    }
    let data = positioned_value(bytes, envelope.data_start, envelope.data_end);
    Ok(EnvelopeData { version: found, data })
}

/// Reads a versioned envelope of the set `S`, upgrading its data to the
/// latest version.
pub fn read_json<S: VersionSet<Context = ()>>(bytes: &[u8]) -> (r: Result<
    ReadOutput<S::Latest>,
    ReadError,
>)
    requires
        well_formed(S::VERSIONS@),
        keeps_contract::<S>(()),
    ensures
        envelope_read::<S>(bytes@, (), r),
{
    read_json_with::<S>(bytes, &())
}

/// A variant of [`read_json`] that hands `cx` to the upgrade steps.
pub fn read_json_with<S: VersionSet>(bytes: &[u8], cx: &S::Context) -> (r: Result<
    ReadOutput<S::Latest>,
    ReadError,
>)
    requires
        well_formed(S::VERSIONS@),
        keeps_contract::<S>(*cx),
    ensures
        envelope_read::<S>(bytes@, *cx, r),
{
    let versions = S::VERSIONS;
    let opened = open_envelope(bytes, versions)?;
    let found = opened.version;
    let value = match S::parse(found, opened.data.as_slice()) {
        Ok(value) => value,
        Err(source) => {
            return Err(ReadError::Data { version: found, source });
        },
    };
    match upgrade(value, found, cx) {
        Ok(latest) => Ok(
            ReadOutput::new(latest, Origin::Envelope { version: found }, latest_version(versions)),
        ),
        Err(UpgradeError::Conversion(failure)) => Err(ReadError::Conversion(failure)),
        Err(UpgradeError::Contract(violation)) => Err(ReadError::Contract(violation)),
    }
}

/// The newest of the first `i` versions of the set whose parser accepts the
/// whole document `s`, with the value it returns; `None` if none does.
pub open spec fn newest_parsing<S: VersionSet>(s: Seq<u8>, i: int) -> Option<(u32, S)>
    decreases i,
{
    if i <= 0 {
        None
    } else {
        let version = S::VERSIONS@[i - 1];
        match S::spec_parse(version, s) {
            Ok(value) => Some((version, value)),
            Err(_) => newest_parsing::<S>(s, i - 1),
        }
    }
}

/// The result of an untagged read that the upgrade outcome `o` stands for.
pub open spec fn untagged_from_outcome<L>(
    o: Outcome<L>,
    origin: Origin,
    latest: u32,
    r: Result<ReadOutput<L>, UntaggedError>,
) -> bool {
    match o {
        Outcome::Latest(l) => r matches Ok(out) && out.spec_value() == l && out.spec_origin()
            == origin && out.spec_latest() == latest,
        Outcome::Failed { from, to, source } => r matches Err(UntaggedError::Conversion(c))
            && c.spec_from() == from && c.spec_to() == to && c.spec_source() == source,
        Outcome::Violation(v) => r matches Err(UntaggedError::Contract(w)) && w == v,
    }
}

/// What [`read_untagged_json_with`] returns for the document `s` and the
/// context `cx`: a JSON error exactly when serde_json refuses the document;
/// otherwise the upgrade of the value that the newest version whose parser
/// accepts the document returns; and if no parser accepts it, every version's
/// attempt, newest first, with the parser's error.
pub open spec fn untagged_read<S: VersionSet>(
    s: Seq<u8>,
    cx: S::Context,
    r: Result<ReadOutput<S::Latest>, UntaggedError>,
) -> bool {
    let versions = S::VERSIONS@;
    if !json_accepts(s) {
        r matches Err(UntaggedError::Json { source }) && json_refusal(s) == Some(source)
    } else {
        match newest_parsing::<S>(s, versions.len() as int) {
            Some((version, value)) => untagged_from_outcome(
                upgrade_spec(value, version, cx),
                Origin::Untagged { version },
                versions.last(),
                r,
            ),
            None => r matches Err(UntaggedError::NoMatchingVersion(none)) && none.spec_versions()
                == versions.reverse() && none.spec_errors().len() == versions.len() && forall|k: int|
                0 <= k < versions.len() ==> S::spec_parse(#[trigger] none.spec_versions()[k], s)
                == Err::<S, serde_json::Error>(none.spec_errors()[k]),
        }
    }
}

/// Reads a payload that is not inside an envelope: tries each version's
/// parser, newest first, and upgrades the first payload that parses.
pub fn read_untagged_json<S: VersionSet<Context = ()>>(bytes: &[u8]) -> (r: Result<
    ReadOutput<S::Latest>,
    UntaggedError,
>)
    requires
        well_formed(S::VERSIONS@),
        keeps_contract::<S>(()),
    ensures
        untagged_read::<S>(bytes@, (), r),
{
    read_untagged_json_with::<S>(bytes, &())
}

/// A variant of [`read_untagged_json`] that hands `cx` to the upgrade steps.
pub fn read_untagged_json_with<S: VersionSet>(bytes: &[u8], cx: &S::Context) -> (r: Result<
    ReadOutput<S::Latest>,
    UntaggedError,
>)
    requires
        well_formed(S::VERSIONS@),
        keeps_contract::<S>(*cx),
    ensures
        untagged_read::<S>(bytes@, *cx, r),
{
    match check_json(bytes) {
        Ok(()) => {},
        Err(source) => {
            return Err(UntaggedError::Json { source });
        },
    }
    let versions = S::VERSIONS;
    let mut attempts: Vec<VersionAttempt> = Vec::new();
    let mut i = versions.len();
    while i > 0
        invariant
            versions@ == S::VERSIONS@,
            well_formed(versions@),
            json_accepts(bytes@),
            keeps_contract::<S>(*cx),
            i <= versions@.len(),
            newest_parsing::<S>(bytes@, versions@.len() as int) == newest_parsing::<S>(
                bytes@,
                i as int,
            ),
            attempts@.map_values(|a: VersionAttempt| a.spec_version()) == versions@.subrange(
                i as int,
                versions@.len() as int,
            ).reverse(),
            forall|k: int|
                0 <= k < attempts@.len() ==> S::spec_parse(#[trigger] attempts@[k].spec_version(), bytes@)
                    == Err::<S, serde_json::Error>(attempts@[k].spec_error()),
        decreases i,
    {
        i -= 1;
        let version = versions[i];
        match S::parse(version, bytes) {
            Ok(value) => {
                proof {
                    assert(versions@.contains(version) && versions@[i as int] == version);
                }
                return match upgrade(value, version, cx) {
                    Ok(latest) => Ok(
                        ReadOutput::new(latest, Origin::Untagged { version }, latest_version(versions)),
                    ),
                    Err(UpgradeError::Conversion(failure)) => Err(UntaggedError::Conversion(failure)),
                    Err(UpgradeError::Contract(violation)) => Err(UntaggedError::Contract(violation)),
                };
            },
            Err(source) => {
                let ghost before = attempts@.map_values(|a: VersionAttempt| a.spec_version());
                let attempt = VersionAttempt::new(version, source);
                attempts.push(attempt);
                proof {
                    assert(attempts@.map_values(|a: VersionAttempt| a.spec_version()) =~= before.push(
                        version,
                    ));
                    assert(versions@.subrange(i as int, versions@.len() as int).reverse() =~= versions@.subrange(
                        i + 1,
                        versions@.len() as int,
                    ).reverse().push(version));
                }
            },
        }
    }
    proof {
        assert(versions@.subrange(0, versions@.len() as int) =~= versions@);
    }
    let none = NoMatchingVersion::new(attempts);
    proof {
        assert forall|k: int| 0 <= k < versions@.len() implies S::spec_parse(
            #[trigger] none.spec_versions()[k],
            bytes@,
        ) == Err::<S, serde_json::Error>(none.spec_errors()[k]) by {
            assert(attempts@[k].spec_version() == none.spec_versions()[k]);
            assert(attempts@[k].spec_error() == none.spec_errors()[k]);
        }
    }
    Err(UntaggedError::NoMatchingVersion(none))
}

/// Tells a read error that says the input is not an envelope apart from any
/// other read error.
pub fn not_an_envelope(error: ReadError) -> (r: Result<NotAnEnvelopeReason, ReadError>)
    ensures
        error matches ReadError::Envelope(EnvelopeError::NotAnEnvelope { reason }) ==> r == Ok::<
            NotAnEnvelopeReason,
            ReadError,
        >(reason),
        !(error is Envelope && error->Envelope_0 is NotAnEnvelope) ==> r == Err::<
            NotAnEnvelopeReason,
            ReadError,
        >(error),
{
    match error {
        ReadError::Envelope(EnvelopeError::NotAnEnvelope { reason }) => Ok(reason),
        error => Err(error),
    }
}


/// What [`read_json_or_else_with`] returns for the document `s`, the context
/// `cx` and the fallback `fallback`: for a document that is JSON but not an
/// envelope, what the fallback returns for the reason, under that reason;
/// for any other document, what [`read_json_with`] returns.
pub open spec fn fallback_read<S: VersionSet, E, F: FnOnce(NotAnEnvelopeReason) -> Result<S::Latest, E>>(
    s: Seq<u8>,
    cx: S::Context,
    fallback: F,
    r: Result<ReadOutput<S::Latest>, ReadOrFallbackError<E>>,
) -> bool {
    match open_spec(s) {
        Opened::NotAnEnvelope(reason) => match r {
            Ok(out) => {
                &&& out.spec_origin() == (Origin::Fallback { not_an_envelope: reason })
                &&& out.spec_latest() == S::VERSIONS@.last()
                &&& fallback.ensures((reason,), Ok::<S::Latest, E>(out.spec_value()))
            },
            Err(ReadOrFallbackError::Fallback { not_an_envelope, source }) => {
                &&& not_an_envelope == reason
                &&& fallback.ensures((reason,), Err::<S::Latest, E>(source))
            },
            Err(ReadOrFallbackError::Read(_)) => false,
        },
        _ => match r {
            Ok(out) => envelope_read::<S>(s, cx, Ok::<ReadOutput<S::Latest>, ReadError>(out)),
            Err(ReadOrFallbackError::Read(e)) => envelope_read::<S>(
                s,
                cx,
                Err::<ReadOutput<S::Latest>, ReadError>(e),
            ),
            Err(ReadOrFallbackError::Fallback { .. }) => false,
        },
    }
}

/// Reads a versioned envelope; if the input is JSON but not an envelope,
/// calls `fallback` with the reason instead. A damaged envelope is an error,
/// and the fallback is not called for it.
pub fn read_json_or_else<S, F, E>(bytes: &[u8], fallback: F) -> (r: Result<
    ReadOutput<S::Latest>,
    ReadOrFallbackError<E>,
>) where S: VersionSet<Context = ()>, F: FnOnce(NotAnEnvelopeReason) -> Result<S::Latest, E>
    requires
        well_formed(S::VERSIONS@),
        keeps_contract::<S>(()),
        forall|reason: NotAnEnvelopeReason| fallback.requires((reason,)),
    ensures
        fallback_read::<S, E, F>(bytes@, (), fallback, r),
{
    read_json_or_else_with::<S, F, E>(bytes, &(), fallback)
}

/// A variant of [`read_json_or_else`] that hands `cx` to the upgrade steps.
pub fn read_json_or_else_with<S, F, E>(bytes: &[u8], cx: &S::Context, fallback: F) -> (r: Result<
    ReadOutput<S::Latest>,
    ReadOrFallbackError<E>,
>) where S: VersionSet, F: FnOnce(NotAnEnvelopeReason) -> Result<S::Latest, E>
    requires
        well_formed(S::VERSIONS@),
        keeps_contract::<S>(*cx),
        forall|reason: NotAnEnvelopeReason| fallback.requires((reason,)),
    ensures
        fallback_read::<S, E, F>(bytes@, *cx, fallback, r),
{
    let error = match read_json_with::<S>(bytes, cx) {
        Ok(output) => {
            return Ok(output);
        },
        Err(error) => error,
    };
    let reason = match not_an_envelope(error) {
        Ok(reason) => reason,
        Err(error) => {
            return Err(ReadOrFallbackError::Read(error));
        },
    };
    match fallback(reason) {
        Ok(latest) => Ok(
            ReadOutput::new(
                latest,
                Origin::Fallback { not_an_envelope: reason },
                latest_version(S::VERSIONS),
            ),
        ),
        Err(source) => Err(ReadOrFallbackError::Fallback { not_an_envelope: reason, source }),
    }
}

/// What [`read_json_or_untagged_with`] returns for the document `s` and the
/// context `cx`: for a document that is JSON but not an envelope, what
/// [`read_untagged_json_with`] returns, its error under the reason; for any
/// other document, what [`read_json_with`] returns.
pub open spec fn envelope_or_untagged_read<S: VersionSet>(
    s: Seq<u8>,
    cx: S::Context,
    r: Result<ReadOutput<S::Latest>, ReadOrUntaggedError>,
) -> bool {
    match open_spec(s) {
        Opened::NotAnEnvelope(reason) => match r {
            Ok(out) => untagged_read::<S>(s, cx, Ok::<ReadOutput<S::Latest>, UntaggedError>(out)),
            Err(ReadOrFallbackError::Fallback { not_an_envelope, source }) => {
                &&& not_an_envelope == reason
                &&& untagged_read::<S>(s, cx, Err::<ReadOutput<S::Latest>, UntaggedError>(source))
            },
            Err(ReadOrFallbackError::Read(_)) => false,
        },
        _ => match r {
            Ok(out) => envelope_read::<S>(s, cx, Ok::<ReadOutput<S::Latest>, ReadError>(out)),
            Err(ReadOrFallbackError::Read(e)) => envelope_read::<S>(
                s,
                cx,
                Err::<ReadOutput<S::Latest>, ReadError>(e),
            ),
            Err(ReadOrFallbackError::Fallback { .. }) => false,
        },
    }
}

/// Reads a versioned envelope; if the input is JSON but not an envelope,
/// reads it as an untagged payload instead, newest version first.
pub fn read_json_or_untagged<S: VersionSet<Context = ()>>(bytes: &[u8]) -> (r: Result<
    ReadOutput<S::Latest>,
    ReadOrUntaggedError,
>)
    requires
        well_formed(S::VERSIONS@),
        keeps_contract::<S>(()),
    ensures
        envelope_or_untagged_read::<S>(bytes@, (), r),
{
    read_json_or_untagged_with::<S>(bytes, &())
}

/// A variant of [`read_json_or_untagged`] that hands `cx` to the upgrade
/// steps.
pub fn read_json_or_untagged_with<S: VersionSet>(bytes: &[u8], cx: &S::Context) -> (r: Result<
    ReadOutput<S::Latest>,
    ReadOrUntaggedError,
>)
    requires
        well_formed(S::VERSIONS@),
        keeps_contract::<S>(*cx),
    ensures
        envelope_or_untagged_read::<S>(bytes@, *cx, r),
{
    let error = match read_json_with::<S>(bytes, cx) {
        Ok(output) => {
            return Ok(output);
        },
        Err(error) => error,
    };
    let reason = match not_an_envelope(error) {
        Ok(reason) => reason,
        Err(error) => {
            return Err(ReadOrFallbackError::Read(error));
        },
    };
    match read_untagged_json_with::<S>(bytes, cx) {
        Ok(output) => Ok(output),
        Err(source) => Err(ReadOrFallbackError::Fallback { not_an_envelope: reason, source }),
    }
}

/// A document that serde_json refuses is refused by [`read_json_with`] as not
/// JSON, with serde_json's own error for it (and so at its position).
pub proof fn law_read_refuses_invalid_json<S: VersionSet>(
    s: Seq<u8>,
    cx: S::Context,
    r: Result<ReadOutput<S::Latest>, ReadError>,
)
    requires
        envelope_read::<S>(s, cx, r),
    ensures
        !json_accepts(s) ==> (r matches Err(ReadError::Envelope(EnvelopeError::Json { source }))
            && json_refusal(s) == Some(source)),
{
}

/// Reading what the writer wrote, at a version of the set, around data that
/// is one JSON value, whenever serde_json accepts the written document: the
/// envelope opens at that version, and the payload parser is handed exactly
/// the data, preceded by spaces.
pub proof fn law_open_written_envelope(
    versions: Seq<u32>,
    version: u32,
    data: Seq<u8>,
    r: Result<EnvelopeData, ReadError>,
)
    requires
        well_formed(versions),
        versions.contains(version),
        is_single_value(data),
        json_accepts(envelope_bytes(version, data)),
        envelope_opened(versions, envelope_bytes(version, data), r),
    ensures
        r matches Ok(d) && d.version == version && d.data@ == spaces(data_offset(version) as nat)
            + data,
{
    law_envelope_roundtrip(version, data);
}

/// Reading what the writer wrote with [`read_json_with`], at a version of the
/// set, around data that is one JSON value, whenever serde_json accepts the
/// written document: the set's parser is asked for that version, on the data
/// preceded by spaces; its error is the read's data error, and otherwise the
/// read ends as the upgrade of the parsed value from that version does. A
/// value read needs a rewrite exactly when that version is older than the
/// latest.
pub proof fn law_read_written_envelope<S: VersionSet>(
    version: u32,
    data: Seq<u8>,
    cx: S::Context,
    r: Result<ReadOutput<S::Latest>, ReadError>,
)
    requires
        well_formed(S::VERSIONS@),
        S::VERSIONS@.contains(version),
        is_single_value(data),
        json_accepts(envelope_bytes(version, data)),
        envelope_read::<S>(envelope_bytes(version, data), cx, r),
    ensures
        match S::spec_parse(version, spaces(data_offset(version) as nat) + data) {
            Err(e) => r matches Err(ReadError::Data { version: v, source }) && v == version && source
                == e,
            Ok(value) => read_from_outcome(
                upgrade_spec(value, version, cx),
                Origin::Envelope { version },
                S::VERSIONS@.last(),
                r,
            ),
        },
        r matches Ok(out) ==> out.spec_origin() == (Origin::Envelope { version }) && (
        rewrite_needed(out.spec_origin(), out.spec_latest()) <==> version < S::VERSIONS@.last()),
{
    law_envelope_roundtrip(version, data);
}

/// A document whose envelope is damaged (a field repeated, a field other than
/// `version` and `data`, or a version that is not a `u32`) is refused as a
/// read error by [`read_json_or_else`], and its fallback is not called. The
/// fallback's result is returned only for documents that are JSON but not
/// envelopes.
pub proof fn law_damaged_envelope_skips_fallback<S: VersionSet, E, F: FnOnce(NotAnEnvelopeReason) -> Result<S::Latest, E>>(
    s: Seq<u8>,
    cx: S::Context,
    fallback: F,
    r: Result<ReadOutput<S::Latest>, ReadOrFallbackError<E>>,
)
    requires
        fallback_read::<S, E, F>(s, cx, fallback, r),
    ensures
        open_spec(s) is DuplicateFields || open_spec(s) is UnknownFields || open_spec(s) is Version
            ==> (r matches Err(ReadOrFallbackError::Read(ReadError::Envelope(e))) && e.fault()
            == open_spec(s)),
        r matches Err(ReadOrFallbackError::Fallback { .. }) ==> open_spec(s) is NotAnEnvelope,
        r matches Ok(out) && out.spec_origin() is Fallback ==> open_spec(s) is NotAnEnvelope,
{
}

/// The same holds of [`read_json_or_untagged`]: a damaged envelope is a read
/// error, and a payload is read untagged only from a document that is JSON
/// but not an envelope.
pub proof fn law_damaged_envelope_skips_untagged<S: VersionSet>(
    s: Seq<u8>,
    cx: S::Context,
    r: Result<ReadOutput<S::Latest>, ReadOrUntaggedError>,
)
    requires
        envelope_or_untagged_read::<S>(s, cx, r),
    ensures
        open_spec(s) is DuplicateFields || open_spec(s) is UnknownFields || open_spec(s) is Version
            ==> (r matches Err(ReadOrFallbackError::Read(ReadError::Envelope(e))) && e.fault()
            == open_spec(s)),
        r matches Err(ReadOrFallbackError::Fallback { .. }) ==> open_spec(s) is NotAnEnvelope,
        r matches Ok(out) && out.spec_origin() is Untagged ==> open_spec(s) is NotAnEnvelope,
{
}

/// [`read_json_or_else`] is [`read_json`] followed, for a document that is
/// JSON but not an envelope, by the fallback: on any other document it
/// returns what [`read_json`] returns, and on such a document what the
/// fallback returns for the reason.
pub proof fn law_read_then_fallback<S: VersionSet, E, F: FnOnce(NotAnEnvelopeReason) -> Result<S::Latest, E>>(
    s: Seq<u8>,
    cx: S::Context,
    fallback: F,
    r: Result<ReadOutput<S::Latest>, ReadOrFallbackError<E>>,
)
    requires
        fallback_read::<S, E, F>(s, cx, fallback, r),
    ensures
        !(open_spec(s) is NotAnEnvelope) ==> match r {
            Ok(out) => envelope_read::<S>(s, cx, Ok::<ReadOutput<S::Latest>, ReadError>(out)),
            Err(ReadOrFallbackError::Read(e)) => envelope_read::<S>(
                s,
                cx,
                Err::<ReadOutput<S::Latest>, ReadError>(e),
            ),
            Err(ReadOrFallbackError::Fallback { .. }) => false,
        },
        open_spec(s) matches Opened::NotAnEnvelope(reason) ==> match r {
            Ok(out) => out.spec_origin() == (Origin::Fallback { not_an_envelope: reason })
                && fallback.ensures((reason,), Ok::<S::Latest, E>(out.spec_value())),
            Err(ReadOrFallbackError::Fallback { not_an_envelope, source }) => not_an_envelope
                == reason && fallback.ensures((reason,), Err::<S::Latest, E>(source)),
            Err(ReadOrFallbackError::Read(_)) => false,
        },
{
}

/// [`read_json_or_untagged`] is [`read_json`] followed, for a document that
/// is JSON but not an envelope, by [`read_untagged_json`]: on any other
/// document it returns what [`read_json`] returns, and on such a document
/// what [`read_untagged_json`] returns, its error under the reason.
pub proof fn law_read_then_untagged<S: VersionSet>(
    s: Seq<u8>,
    cx: S::Context,
    r: Result<ReadOutput<S::Latest>, ReadOrUntaggedError>,
)
    requires
        envelope_or_untagged_read::<S>(s, cx, r),
    ensures
        !(open_spec(s) is NotAnEnvelope) ==> match r {
            Ok(out) => envelope_read::<S>(s, cx, Ok::<ReadOutput<S::Latest>, ReadError>(out)),
            Err(ReadOrFallbackError::Read(e)) => envelope_read::<S>(
                s,
                cx,
                Err::<ReadOutput<S::Latest>, ReadError>(e),
            ),
            Err(ReadOrFallbackError::Fallback { .. }) => false,
        },
        open_spec(s) matches Opened::NotAnEnvelope(reason) ==> match r {
            Ok(out) => untagged_read::<S>(s, cx, Ok::<ReadOutput<S::Latest>, UntaggedError>(out)),
            Err(ReadOrFallbackError::Fallback { not_an_envelope, source }) => not_an_envelope
                == reason && untagged_read::<S>(
                s,
                cx,
                Err::<ReadOutput<S::Latest>, UntaggedError>(source),
            ) && !(source is Json),
            Err(ReadOrFallbackError::Read(_)) => false,
        },
{
}

/// A document read from an envelope of the latest version needs no rewrite;
/// one read from an older envelope, or from outside an envelope, does.
pub proof fn law_rewrite_needed<T>(versions: Seq<u32>, out: ReadOutput<T>)
    requires
        well_formed(versions),
        out.spec_latest() == versions.last(),
        out.spec_origin() matches Origin::Envelope { version } ==> versions.contains(version),
    ensures
        !rewrite_needed(out.spec_origin(), out.spec_latest()) <==> out.spec_origin() == (Origin::Envelope {
            version: versions.last(),
        }),
{
    if let Origin::Envelope { version } = out.spec_origin() {
        crate::upgrade::lemma_member_at_most_latest(versions, version);
    }
}

} // verus!

//! Reading envelopes of the settings version set.

use oxide_versioned_envelope::errors::{
    EnvelopeError, EnvelopeFieldSet, NonObjectKind, NotAnEnvelopeReason, ReadError,
    ReadOrFallbackError, UnsupportedVersionKind, UntaggedError,
};
use oxide_versioned_envelope::settings::{
    AnyPayload, SETTINGS_VERSIONS, SettingsV1, SettingsV2, SettingsV4,
};
use oxide_versioned_envelope::versioned::JsonBytes;
use oxide_versioned_envelope::{
    Origin, Step, VersionSet, Versioned, WriteEnvelope, read_json, read_json_or_else,
    read_json_or_untagged, read_untagged_json,
};
use serde::de::{DeserializeSeed, Deserializer, Error as _, IgnoredAny, MapAccess, Visitor};
use std::collections::BTreeMap;
use std::convert::Infallible;
use std::error::Error;
use std::fmt;

/// How a settings payload treats its label.
#[derive(Clone, Copy)]
enum Label {
    Absent,
    Optional,
    Required,
}

struct Payload {
    value: u32,
    label: Option<String>,
}

struct PayloadSeed(Label, &'static str);

impl<'de> DeserializeSeed<'de> for PayloadSeed {
    type Value = Payload;

    fn deserialize<D: Deserializer<'de>>(self, deserializer: D) -> Result<Payload, D::Error> {
        deserializer.deserialize_struct(self.1, &["value", "label"], self)
    }
}

impl<'de> Visitor<'de> for PayloadSeed {
    type Value = Payload;

    fn expecting(&self, f: &mut fmt::Formatter<'_>) -> fmt::Result {
        f.write_str("struct ")?;
        f.write_str(self.1)
    }

    fn visit_map<A: MapAccess<'de>>(self, mut map: A) -> Result<Payload, A::Error> {
        let mut value: Option<u32> = None;
        let mut label: Option<Option<String>> = None;
        while let Some(key) = map.next_key::<String>()? {
            match (key.as_str(), self.0) {
                ("value", _) => {
                    if value.is_some() {
                        return Err(A::Error::duplicate_field("value"));
                    }
                    value = Some(map.next_value::<u32>()?);
                }
                ("label", Label::Optional) => {
                    if label.is_some() {
                        return Err(A::Error::duplicate_field("label"));
                    }
                    label = Some(map.next_value::<Option<String>>()?);
                }
                ("label", Label::Required) => {
                    if label.is_some() {
                        return Err(A::Error::duplicate_field("label"));
                    }
                    label = Some(Some(map.next_value::<String>()?));
                }
                _ => {
                    map.next_value::<IgnoredAny>()?;
                }
            }
        }
        let value = value.ok_or_else(|| A::Error::missing_field("value"))?;
        let label = match self.0 {
            Label::Absent => None,
            Label::Optional => label.flatten(),
            Label::Required => {
                Some(label.flatten().ok_or_else(|| A::Error::missing_field("label"))?)
            }
        };
        Ok(Payload { value, label })
    }
}

fn parse_payload(
    json: &[u8],
    label: Label,
    name: &'static str,
) -> Result<Payload, serde_json::Error> {
    let mut deserializer = serde_json::Deserializer::from_slice(json);
    let payload = PayloadSeed(label, name).deserialize(&mut deserializer)?;
    deserializer.end()?;
    Ok(payload)
}

#[derive(Debug)]
enum Settings {
    V1(SettingsV1),
    V2(SettingsV2),
    V4(SettingsV4),
}

impl VersionSet for Settings {
    type Latest = SettingsV4;
    type Context = ();
    const VERSIONS: &'static [u32] = &SETTINGS_VERSIONS;

    fn spec_parse(_version: u32, _json: JsonBytes) -> Result<Self, serde_json::Error> {
        unreachable!("spec functions are not run")
    }

    fn spec_version(&self) -> u32 {
        unreachable!("spec functions are not run")
    }

    fn spec_step(self, _cx: ()) -> Step<Self> {
        unreachable!("spec functions are not run")
    }

    fn parse(version: u32, json: &[u8]) -> Result<Self, serde_json::Error> {
        match version {
            1 => parse_payload(json, Label::Absent, "SettingsV1")
                .map(|p| Settings::V1(SettingsV1 { value: p.value })),
            2 => parse_payload(json, Label::Optional, "SettingsV2")
                .map(|p| Settings::V2(SettingsV2 { value: p.value, label: p.label })),
            4 => parse_payload(json, Label::Required, "SettingsV4").map(|p| {
                Settings::V4(SettingsV4 { value: p.value, label: p.label.unwrap_or_default() })
            }),
            _ => unreachable!("version {version} is not in VERSIONS"),
        }
    }

    fn version(&self) -> u32 {
        match self {
            Settings::V1(_) => SettingsV1::VERSION,
            Settings::V2(_) => SettingsV2::VERSION,
            Settings::V4(_) => SettingsV4::VERSION,
        }
    }

    fn step(self, _cx: &()) -> Step<Self> {
        match self {
            Settings::V1(payload) => Step::Next(Settings::V2(SettingsV2::from_v1(payload))),
            Settings::V2(payload) => match SettingsV4::try_from_v2(payload) {
                Ok(next) => Step::Next(Settings::V4(next)),
                Err(error) => Step::Failed { to: SettingsV4::VERSION, source: error.message() },
            },
            Settings::V4(payload) => Step::Done(payload),
        }
    }
}

fn payloads() -> Vec<AnyPayload> {
    vec![
        AnyPayload::V1(SettingsV1 { value: 0 }),
        AnyPayload::V1(SettingsV1 { value: 4294967295 }),
        AnyPayload::V2(SettingsV2 { value: 7, label: None }),
        AnyPayload::V2(SettingsV2 { value: 8, label: Some("a \"quoted\"\nlabel".into()) }),
        AnyPayload::V4(SettingsV4 { value: 9, label: "ünïcode".into() }),
        AnyPayload::V4(SettingsV4 { value: 10, label: String::new() }),
    ]
}

#[test]
fn written_payload_roundtrip() {
    for payload in payloads() {
        let version = payload.version();
        let bytes = payload.write();
        let read = read_json::<Settings>(&bytes);
        match payload.upgrade() {
            Ok(expected) => {
                let read = read.expect("the payload upgrades");
                assert_eq!(read.origin(), Origin::Envelope { version });
                assert_eq!(read.needs_rewrite(), version < 4);
                assert_eq!(read.into_value(), expected);
            }
            Err(_) => {
                let Err(ReadError::Conversion(failure)) = read else {
                    panic!("expected a conversion failure, got {read:?}");
                };
                assert_eq!((failure.from_version(), failure.to_version()), (2, 4));
            }
        }
    }
}

/// A version set that keeps the data's JSON text, and steps through every
/// settings version.
struct CapturedData {
    version: u32,
    data: String,
}

impl VersionSet for CapturedData {
    type Latest = String;
    type Context = ();
    const VERSIONS: &'static [u32] = &SETTINGS_VERSIONS;

    fn spec_parse(_version: u32, _json: JsonBytes) -> Result<Self, serde_json::Error> {
        unreachable!("spec functions are not run")
    }

    fn spec_version(&self) -> u32 {
        unreachable!("spec functions are not run")
    }

    fn spec_step(self, _cx: ()) -> Step<Self> {
        unreachable!("spec functions are not run")
    }

    fn parse(version: u32, json: &[u8]) -> Result<Self, serde_json::Error> {
        serde_json::from_slice::<IgnoredAny>(json)?;
        let text = String::from_utf8_lossy(json);
        Ok(Self { version, data: text.trim_start().to_owned() })
    }

    fn version(&self) -> u32 {
        self.version
    }

    fn step(self, _cx: &()) -> Step<Self> {
        match SETTINGS_VERSIONS.iter().find(|&&next| next > self.version) {
            Some(&next) => Step::Next(Self { version: next, ..self }),
            None => Step::Done(self.data),
        }
    }
}

#[derive(Debug, Eq, PartialEq)]
enum Refusal {
    NotAnEnvelope(NotAnEnvelopeReason),
    UnknownFields(Vec<String>),
    BadVersion,
    Unsupported(u32),
}

fn actual_read(bytes: &[u8]) -> Result<(u32, String), Refusal> {
    match read_json::<CapturedData>(bytes) {
        Ok(read) => match read.origin() {
            Origin::Envelope { version } => Ok((version, read.into_value())),
            origin => panic!("read_json reads only envelopes, not {origin:?}"),
        },
        Err(ReadError::Envelope(EnvelopeError::NotAnEnvelope { reason })) => {
            Err(Refusal::NotAnEnvelope(reason))
        }
        Err(ReadError::Envelope(EnvelopeError::UnknownFields { names })) => {
            Err(Refusal::UnknownFields(names))
        }
        Err(ReadError::Envelope(EnvelopeError::Version { .. })) => Err(Refusal::BadVersion),
        Err(ReadError::UnsupportedVersion(unsupported)) => {
            Err(Refusal::Unsupported(unsupported.found()))
        }
        Err(error) => panic!("a well-formed document cannot fail with {error:?}"),
    }
}

fn missing(fields: EnvelopeFieldSet) -> Refusal {
    Refusal::NotAnEnvelope(NotAnEnvelopeReason::Missing { fields })
}

fn root(kind: NonObjectKind) -> Refusal {
    Refusal::NotAnEnvelope(NotAnEnvelopeReason::NonObjectRoot { kind })
}

#[test]
fn envelopes_are_read() {
    let cases: Vec<(&[u8], Result<(u32, String), Refusal>)> = vec![
        (b"null", Err(root(NonObjectKind::Null))),
        (b" true", Err(root(NonObjectKind::Bool))),
        (b"-12.5e3", Err(root(NonObjectKind::Number))),
        (br#""version""#, Err(root(NonObjectKind::String))),
        (br#"[{"version":1,"data":{}}]"#, Err(root(NonObjectKind::Array))),
        (b"{}", Err(missing(EnvelopeFieldSet::VersionAndData))),
        (br#"{"data":1}"#, Err(missing(EnvelopeFieldSet::Version))),
        (br#"{"version":1}"#, Err(missing(EnvelopeFieldSet::Data))),
        (br#"{"Version":1,"data":2}"#, Err(missing(EnvelopeFieldSet::Version))),
        (
            br#"{"version":1,"other":[1,{"a":"}"}],"data":2,"Version":3}"#,
            Err(Refusal::UnknownFields(vec!["Version".into(), "other".into()])),
        ),
        (br#"{"version":"1","data":2}"#, Err(Refusal::BadVersion)),
        (br#"{"version":1.5,"data":2}"#, Err(Refusal::BadVersion)),
        (br#"{"version":-1,"data":2}"#, Err(Refusal::BadVersion)),
        (br#"{"version":4294967296,"data":2}"#, Err(Refusal::BadVersion)),
        (br#"{"version":3,"data":2}"#, Err(Refusal::Unsupported(3))),
        (br#"{"version":0,"data":2}"#, Err(Refusal::Unsupported(0))),
        (br#"{"version":1,"data":{"a":[1,2,"]"]}}"#, Ok((1, r#"{"a":[1,2,"]"]}"#.into()))),
        (
            b"{\n  \"data\": \"a \\\"b\\\" c\",\n  \"version\": 4\n}",
            Ok((4, r#""a \"b\" c""#.into())),
        ),
        (br#"{"version":2,"data":null}"#, Ok((2, "null".into()))),
        (br#"{ "version" : 1 , "data" : -0.5 }"#, Ok((1, "-0.5".into()))),
    ];
    for (bytes, expected) in cases {
        assert_eq!(actual_read(bytes), expected, "{}", String::from_utf8_lossy(bytes));
    }
}

#[derive(Debug, Eq, PartialEq)]
struct Wide {
    value: u128,
}

impl VersionSet for Wide {
    type Latest = Wide;
    type Context = ();
    const VERSIONS: &'static [u32] = &[1];

    fn spec_parse(_version: u32, _json: JsonBytes) -> Result<Self, serde_json::Error> {
        unreachable!("spec functions are not run")
    }

    fn spec_version(&self) -> u32 {
        unreachable!("spec functions are not run")
    }

    fn spec_step(self, _cx: ()) -> Step<Self> {
        unreachable!("spec functions are not run")
    }

    fn parse(_version: u32, json: &[u8]) -> Result<Self, serde_json::Error> {
        let fields = serde_json::from_slice::<BTreeMap<String, u128>>(json)?;
        match fields.get("value") {
            Some(&value) => Ok(Wide { value }),
            None => Err(serde_json::Error::missing_field("value")),
        }
    }

    fn version(&self) -> u32 {
        1
    }

    fn step(self, _cx: &()) -> Step<Self> {
        Step::Done(self)
    }
}

#[test]
fn does_not_use_serde_json_value() {
    let bytes = br#"{"version":1,"data":{"value":18446744073709551616}}"#;
    let read = read_json::<Wide>(bytes).expect("a version 1 payload");
    assert_eq!(read.into_value(), Wide { value: 1 << 64 });
}

#[test]
fn unsupported_versions() {
    for (found, kind) in [
        (0, UnsupportedVersionKind::Older { oldest: 1 }),
        (3, UnsupportedVersionKind::Gap),
        (5, UnsupportedVersionKind::Newer { latest: 4 }),
    ] {
        let bytes = format!(r#"{{"version":{found},"data":{{}}}}"#);
        let Err(ReadError::UnsupportedVersion(unsupported)) =
            read_json::<Settings>(bytes.as_bytes())
        else {
            panic!("version {found} is unsupported");
        };
        assert_eq!(unsupported.kind(), kind, "version {found}");
        assert_eq!(unsupported.supported(), SETTINGS_VERSIONS);
    }
}

#[test]
fn untagged_reads() {
    let v4 = AnyPayload::V4(SettingsV4 { value: 1, label: "a".into() }).to_json();
    let read = read_untagged_json::<Settings>(&v4).expect("a version 4 payload");
    assert_eq!(read.origin(), Origin::Untagged { version: 4 });
    assert!(read.needs_rewrite());

    let v1 = AnyPayload::V1(SettingsV1 { value: 1 }).to_json();
    let Err(UntaggedError::Conversion(failure)) = read_untagged_json::<Settings>(&v1) else {
        panic!("a label-less payload fails to upgrade");
    };
    assert_eq!((failure.from_version(), failure.to_version()), (2, 4));

    let Err(UntaggedError::NoMatchingVersion(none)) = read_untagged_json::<Settings>(b"7") else {
        panic!("no version parses a number");
    };
    let attempts: Vec<u32> = none.attempts().iter().map(|attempt| attempt.version()).collect();
    assert_eq!(attempts, [4, 2, 1]);
}

#[test]
fn fallback_runs_only_for_non_envelopes() {
    let legacy = || SettingsV4 { value: 9, label: "legacy".into() };
    let cases: [(&[u8], Option<NotAnEnvelopeReason>); 6] = [
        (
            br#"{"value":1}"#,
            Some(NotAnEnvelopeReason::Missing { fields: EnvelopeFieldSet::VersionAndData }),
        ),
        (b"true", Some(NotAnEnvelopeReason::NonObjectRoot { kind: NonObjectKind::Bool })),
        (br#"{"version":4,"data":{"value":1,"label":"a"}}"#, None),
        (br#"{"version":4,"data":{"value":"one"}}"#, None),
        (br#"{"version":"4","data":{}}"#, None),
        (br#"{"version":4,"data":{"value":1,"label":"a"},"extra":1}"#, None),
    ];
    for (bytes, reason) in cases {
        let mut handed = Vec::new();
        let read = read_json_or_else::<Settings, _, Infallible>(bytes, |r| {
            handed.push(r);
            Ok(legacy())
        });
        assert_eq!(handed, Vec::from_iter(reason), "{}", String::from_utf8_lossy(bytes));
        match reason {
            Some(reason) => {
                let read = read.expect("the fallback succeeds");
                assert_eq!(read.origin(), Origin::Fallback { not_an_envelope: reason });
                assert!(read.needs_rewrite());
                assert_eq!(read.into_value(), legacy());
            }
            None => assert_eq!(
                read.map(|read| read.into_value()).map_err(|e| e.message()),
                read_json::<Settings>(bytes)
                    .map(|read| read.into_value())
                    .map_err(|e| e.message()),
            ),
        }
    }

    let read = read_json_or_untagged::<Settings>(br#"{"value":1,"label":"a"}"#)
        .expect("an untagged version 4 payload");
    assert_eq!(read.origin(), Origin::Untagged { version: 4 });
    let Err(ReadOrFallbackError::Read(ReadError::Data { version: 4, .. })) =
        read_json_or_untagged::<Settings>(br#"{"version":4,"data":{}}"#)
    else {
        panic!("a damaged envelope is not read untagged");
    };
}

#[test]
fn damaged_envelopes_are_not_read_untagged() {
    let cases: [&[u8]; 4] = [
        br#"{"version":4,"data":{"value":1,"label":"a"},"extra":1}"#,
        br#"{"version":4,"version":4,"data":{"value":1,"label":"a"}}"#,
        br#"{"version":"4","data":{"value":1,"label":"a"}}"#,
        br#"{"version":3,"data":{"value":1,"label":"a"}}"#,
    ];
    for bytes in cases {
        let Err(ReadOrFallbackError::Read(error)) = read_json_or_untagged::<Settings>(bytes) else {
            panic!("a damaged envelope is a read error: {}", String::from_utf8_lossy(bytes));
        };
        let expected = read_json::<Settings>(bytes).map(|_| ()).map_err(|e| e.message());
        assert_eq!(Err(error.message()), expected);
    }
}

#[test]
fn escaped_keys_are_accepted() {
    let bytes = br#"{"\u0076ersion":4,"d\u0061ta":{"value":1,"label":"a"}}"#;
    let read = read_json::<Settings>(bytes).expect("an envelope");
    assert_eq!(read.into_value(), SettingsV4 { value: 1, label: "a".into() });
}

#[test]
fn written_envelopes_are_exact() {
    let settings = SettingsV4 { value: 1, label: "a".into() };
    let payload = AnyPayload::V4(SettingsV4 { value: 1, label: "a".into() });
    let envelope = WriteEnvelope::new(&settings);
    assert_eq!(
        String::from_utf8(envelope.to_json(&payload.to_json())).expect("serialized"),
        r#"{"version":4,"data":{"value":1,"label":"a"}}"#,
    );
}

#[test]
fn fallback_errors_need_not_implement_error() {
    let read = read_json_or_else::<Settings, _, Box<dyn Error + Send + Sync>>(b"true", |_| {
        Err("the legacy reader refused".into())
    });
    let Err(ReadOrFallbackError::Fallback { source, .. }) = read else {
        panic!("the fallback refuses the document");
    };
    assert_eq!(source.to_string(), "the legacy reader refused");
}

#[test]
fn error_positions_are_in_the_document() {
    let bad_version = b"{\n  \"version\": \"4\",\n  \"data\": {}\n}";
    let Err(ReadError::Envelope(EnvelopeError::Version { source })) =
        read_json::<Settings>(bad_version)
    else {
        panic!("the version is a string");
    };
    assert_eq!((source.line(), source.column()), (2, 16));

    let bad_data = b"{\n  \"version\": 2,\n  \"data\": {\n    \"value\": \"seven\"\n  }\n}";
    let Err(ReadError::Data { source, .. }) = read_json::<Settings>(bad_data) else {
        panic!("the value is a string");
    };
    assert_eq!((source.line(), source.column()), (4, 20));

    let Err(UntaggedError::NoMatchingVersion(none)) = read_untagged_json::<Settings>(b"\n\n  7")
    else {
        panic!("no version parses a number");
    };
    for attempt in none.attempts() {
        let error = attempt.error();
        assert_eq!((error.line(), error.column()), (3, 3));
    }
}

#[test]
fn reader_agrees_with_serde_json() {
    let written = AnyPayload::V2(SettingsV2 { value: 3, label: Some("x".into()) }).write();
    let mut documents: Vec<Vec<u8>> = Vec::new();
    for at in [0, 1, 5, 12, written.len() / 2, written.len() - 1, written.len()] {
        documents.push(written[..at].to_vec());
        for inserted in [&b"\xff"[..], b"\"", b"}", b",", b" ", b"\\u"] {
            let mut bytes = written.clone();
            bytes.splice(at..at, inserted.iter().copied());
            documents.push(bytes);
        }
    }
    for bytes in documents {
        let read = read_json::<Settings>(&bytes);
        match serde_json::from_slice::<serde_json::Value>(&bytes) {
            Err(expected) => {
                let Err(ReadError::Envelope(EnvelopeError::Json { source })) = read else {
                    panic!("serde_json refuses the document, but the reader returned {read:?}");
                };
                assert_eq!((source.line(), source.column()), (expected.line(), expected.column()));
            }
            Ok(_) => {
                if let Err(ReadError::Envelope(EnvelopeError::Json { source })) = read {
                    panic!("serde_json accepts the document, but the reader refused it: {source}");
                }
            }
        }
    }
}

#[test]
fn message_snapshots() {
    let too_deep = format!(r#"{{"version":4,"data":{{}},"x":{}{}}}"#, "[".repeat(200), "]".repeat(200));
    let not_json = "the input is not valid JSON";
    let not_envelope = "the input is valid JSON, but not a versioned envelope: ";
    let envelope_cases: Vec<(&[u8], String)> = vec![
        (b"not json at all", not_json.into()),
        (br#"{"version":4,"data":{"value":1}"#, not_json.into()),
        (br#"{"version":4,"data":{},"x":"\ud800"}"#, not_json.into()),
        (b"{\"version\":4,\"data\":{},\"x\":\"\xff\"}", not_json.into()),
        (too_deep.as_bytes(), not_json.into()),
        (b"null", format!("{not_envelope}its root is null, not an object")),
        (br#"[{"version":4,"data":{}}]"#, format!("{not_envelope}its root is an array, not an object")),
        (br#"{"data":{"value":1}}"#, format!("{not_envelope}it is an object with no `version` field")),
        (br#"{"version":4}"#, format!("{not_envelope}it is an object with no `data` field")),
        (
            br#"{"meta":{"version":4,"data":{}}}"#,
            format!("{not_envelope}it is an object with neither a `version` nor a `data` field"),
        ),
        (br#"{"version":4,"version":2,"data":{}}"#, "the envelope has more than one `version` field".into()),
        (br#"{"version":4,"data":{},"data":{}}"#, "the envelope has more than one `data` field".into()),
        (
            br#"{"version":4,"version":2,"data":{},"data":{}}"#,
            "the envelope has more than one `version` field and more than one `data` field".into(),
        ),
        (
            br#"{"version":4,"meta":{},"data":{},"Version":4}"#,
            "the envelope has fields other than `version` and `data`: `Version`, `meta`".into(),
        ),
        (
            br#"{"version":4,"x":1,"data":{},"meta":{},"x":2}"#,
            "the envelope has fields other than `version` and `data`: `meta`, `x`".into(),
        ),
        (br#"{"version":"4","data":{}}"#, "the envelope's version is not a u32".into()),
        (br#"{"version":-0,"data":{}}"#, "the envelope's version is not a u32".into()),
        (
            br#"{"version":5,"data":{}}"#,
            "the envelope's version is 5, but the newest version this reader understands is 4".into(),
        ),
        (
            br#"{"version":0,"data":{}}"#,
            "the envelope's version is 0, but the oldest version this reader supports is 1".into(),
        ),
        (
            br#"{"version":3,"data":{}}"#,
            "the envelope's version is 3, but this reader understands only versions 1, 2 and 4".into(),
        ),
        (
            br#"{"version":2,"data":{"value":"seven"}}"#,
            "the envelope's `data` is not a version 2 payload".into(),
        ),
        (
            br#"{"version":2,"data":{"value":1,"label":null}}"#,
            "converting a version 2 payload to version 4 failed".into(),
        ),
    ];
    for (bytes, expected) in envelope_cases {
        let error = read_json::<Settings>(bytes).expect_err("the document is refused");
        assert_eq!(error.message(), expected, "{}", String::from_utf8_lossy(bytes));
    }

    let error = read_json::<Settings>(br#"{"version":2,"data":{"value":1,"label":null}}"#)
        .expect_err("the conversion fails");
    let ReadError::Conversion(failure) = error else {
        panic!("expected a conversion failure");
    };
    assert_eq!(failure.source(), "missing a label as part of v2 -> v4 upgrade");

    let error = read_untagged_json::<Settings>(b"7").expect_err("no version parses a number");
    let message = error.message();
    assert!(message.starts_with(
        "the document carries no version, and is not a payload of any version this reader \
         understands (version 4: invalid type: integer `7`, expected struct SettingsV4"
    ));
    assert!(message.contains("; version 2: invalid type: integer `7`, expected struct SettingsV2"));
    assert!(message.contains("; version 1: invalid type: integer `7`, expected struct SettingsV1"));
    assert!(message.ends_with(")"));

    let error =
        read_untagged_json::<Settings>(br#"{"value":7}"#).expect_err("the conversion fails");
    assert_eq!(error.message(), "converting a version 2 payload to version 4 failed");

    let error = read_json_or_untagged::<Settings>(b"7").expect_err("neither reads a number");
    assert_eq!(
        error.message(),
        "the input is valid JSON, but not a versioned envelope (its root is a number, not an \
         object), so it was read as a document from before the envelope, and that failed",
    );

    let error = read_json_or_else::<Settings, _, _>(br#"{"value":1}"#, |_| {
        Err::<SettingsV4, _>("the legacy reader found no settings in the document")
    })
    .expect_err("the fallback refuses");
    assert_eq!(
        error.message(),
        "the input is valid JSON, but not a versioned envelope (it is an object with neither a \
         `version` nor a `data` field), so it was read as a document from before the envelope, \
         and that failed",
    );
}

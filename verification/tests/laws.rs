//! Concrete cases of the library's laws and building blocks.

use oxide_versioned_envelope::envelope::{
    EnvelopeField, Field, Key, classify_key, parse_envelope, positioned_value, read_canonical_u32,
};
use oxide_versioned_envelope::errors::{
    ContractViolation, EnvelopeError, EnvelopeFieldSet, NonObjectKind, NotAnEnvelopeReason,
    ReadError, UnsupportedVersion, UnsupportedVersionKind,
};
use oxide_versioned_envelope::order::{Order, compare_bytes, insert_name};
use oxide_versioned_envelope::read::{not_an_envelope, open_envelope};
use oxide_versioned_envelope::scan::{ScannedDocument, scan_document};
use oxide_versioned_envelope::settings::{AnyPayload, MissingLabel, SettingsV1, SettingsV2, SettingsV4};
use oxide_versioned_envelope::text::{append_decimal, push_decimal};
use oxide_versioned_envelope::upgrade::{Decision, StepKind, check_parsed, decide_step};
use oxide_versioned_envelope::versioned::{JsonBytes, is_member, latest_version, versions_well_formed};
use oxide_versioned_envelope::write::write_envelope;
use oxide_versioned_envelope::{Origin, ReadOutput, Step, VersionSet, read_json};

#[test]
fn write_then_open_gives_back_version_and_data() {
    for (version, data) in [
        (1u32, &b"{}"[..]),
        (4, b"null"),
        (4294967295, br#"{"a":[1,"}"]}"#),
        (10, b"\"text\""),
        (0, b"-1.5e2"),
    ] {
        let bytes = write_envelope(version, data);
        let opened = open_envelope(&bytes, &[0, 1, 4, 10, 4294967295]).expect("an envelope");
        assert_eq!(opened.version, version);
        let offset = bytes.len() - data.len() - 1;
        let mut expected = vec![b' '; offset];
        expected.extend_from_slice(data);
        assert_eq!(opened.data, expected);
    }
}

#[test]
fn written_envelope_bytes() {
    assert_eq!(write_envelope(12, b"[1]"), br#"{"version":12,"data":[1]}"#.to_vec());
    let payload = AnyPayload::V2(SettingsV2 { value: 3, label: None });
    assert_eq!(payload.write(), br#"{"version":2,"data":{"value":3,"label":null}}"#.to_vec());
    let payload = AnyPayload::V4(SettingsV4 { value: 5, label: "a\"b".into() });
    assert_eq!(payload.to_json(), br#"{"value":5,"label":"a\"b"}"#.to_vec());
}

#[test]
fn positioned_values_keep_lines() {
    let doc = b"{\n  \"version\": 1,\r\n\t\"data\": 2}";
    let start = 15;
    let value = positioned_value(doc, start, start + 1);
    assert_eq!(value.len(), start + 1);
    for (i, &b) in value.iter().enumerate() {
        if i < start {
            assert_eq!(b == b'\n', doc[i] == b'\n');
            assert!(b == b' ' || b == b'\n');
        } else {
            assert_eq!(b, doc[i]);
        }
    }
    assert_eq!(value[start], b'1');
}

#[test]
fn documents_are_scanned() {
    assert!(matches!(scan_document(b"  [1]"), ScannedDocument::NonObject(NonObjectKind::Array)));
    assert!(matches!(scan_document(b"false"), ScannedDocument::NonObject(NonObjectKind::Bool)));
    assert!(matches!(scan_document(b"12"), ScannedDocument::NonObject(NonObjectKind::Number)));
    assert!(matches!(scan_document(b"\"x\""), ScannedDocument::NonObject(NonObjectKind::String)));
    assert!(matches!(scan_document(b"null"), ScannedDocument::NonObject(NonObjectKind::Null)));
    let doc = br#"{ "a\"b" : {"x":"}"} , "c":1 }"#;
    let ScannedDocument::Object(members) = scan_document(doc) else {
        panic!("an object");
    };
    assert_eq!(members.len(), 2);
    assert_eq!(&doc[members[0].key_start..members[0].key_end], br#""a\"b""#);
    assert_eq!(&doc[members[0].value_start..members[0].value_end], br#"{"x":"}"}"#);
    assert_eq!(&doc[members[1].key_start..members[1].key_end], br#""c""#);
    assert_eq!(&doc[members[1].value_start..members[1].value_end], b"1");
    let ScannedDocument::Object(members) = scan_document(b"{}") else {
        panic!("an object");
    };
    assert!(members.is_empty());
}

#[test]
fn envelope_faults() {
    let Err(EnvelopeError::UnknownFields { names }) =
        parse_envelope(br#"{"zeta":1,"version":1,"b\u00e9":2,"data":2,"alpha":3,"zeta":4}"#)
    else {
        panic!("unknown fields");
    };
    assert_eq!(names, ["alpha", "bé", "zeta"]);
    let Err(EnvelopeError::DuplicateFields { fields }) =
        parse_envelope(br#"{"data":1,"version":1,"\u0064ata":2}"#)
    else {
        panic!("a repeated field");
    };
    assert_eq!(fields, EnvelopeFieldSet::Data);
    let envelope = parse_envelope(b" {\"data\" : [] , \"version\" : 7 } ").expect("an envelope");
    assert_eq!(envelope.version, 7);
    assert_eq!((envelope.data_start, envelope.data_end), (11, 13));
}

#[test]
fn field_sightings_saturate() {
    let mut field = Field::Absent;
    field.set();
    assert_eq!(field, Field::Present);
    field.set();
    assert_eq!(field, Field::Duplicated);
    field.set();
    assert_eq!(field, Field::Duplicated);
}

#[test]
fn keys_are_classified() {
    assert!(matches!(classify_key("version".into()), Key::Version));
    assert!(matches!(classify_key("data".into()), Key::Data));
    assert!(matches!(classify_key("Data".into()), Key::Other(name) if name == "Data"));
    assert_eq!(EnvelopeField::Version.name(), "version");
    assert_eq!(EnvelopeField::Data.name(), "data");
    assert!(EnvelopeField::Data.matches(&Key::Data));
    assert!(!EnvelopeField::Version.matches(&Key::Data));
    assert!(!EnvelopeField::Version.matches(&Key::Other("version".into())));
}

#[test]
fn canonical_versions() {
    assert_eq!(read_canonical_u32(b"0"), Some(0));
    assert_eq!(read_canonical_u32(b"4294967295"), Some(4294967295));
    assert_eq!(read_canonical_u32(b"4294967296"), None);
    assert_eq!(read_canonical_u32(b"012"), None);
    assert_eq!(read_canonical_u32(b"1.0"), None);
    assert_eq!(read_canonical_u32(b""), None);
    let mut out = Vec::new();
    push_decimal(&mut out, 4050);
    assert_eq!(out, b"4050");
    let mut text = String::from("v");
    append_decimal(&mut text, 0);
    assert_eq!(text, "v0");
}

#[test]
fn version_lists() {
    assert!(versions_well_formed(&[1, 2, 4]));
    assert!(!versions_well_formed(&[]));
    assert!(!versions_well_formed(&[2, 1]));
    assert!(!versions_well_formed(&[1, 1]));
    assert_eq!(latest_version(&[1, 2, 4]), 4);
    for (v, expected) in [(0, false), (1, true), (2, true), (3, false), (4, true), (5, false)] {
        assert_eq!(is_member(&[1, 2, 4], v), expected);
    }
}

#[test]
fn unsupported_version_kinds() {
    let gap = UnsupportedVersion::new(3, &[1, 2, 4, 8]);
    assert_eq!(gap.kind(), UnsupportedVersionKind::Gap);
    assert_eq!(
        gap.message(),
        "the envelope's version is 3, but this reader understands only versions 1, 2, 4 and 8"
    );
    assert_eq!(UnsupportedVersion::new(9, &[1]).kind(), UnsupportedVersionKind::Newer { latest: 1 });
    assert_eq!(UnsupportedVersion::new(9, &[1]).message(),
        "the envelope's version is 9, but the newest version this reader understands is 1");
    assert_eq!(UnsupportedVersion::new(0, &[2, 3]).kind(), UnsupportedVersionKind::Older { oldest: 2 });
}

#[test]
fn upgrade_decisions() {
    let versions = [1, 2, 4];
    assert_eq!(decide_step(&versions, 4, StepKind::Done), Decision::Finish);
    assert_eq!(decide_step(&versions, 1, StepKind::Next { to: 4 }), Decision::Continue { to: 4 });
    assert_eq!(decide_step(&versions, 2, StepKind::Failed { to: 4 }), Decision::Fail { from: 2, to: 4 });
    assert_eq!(
        decide_step(&versions, 2, StepKind::Next { to: 1 }),
        Decision::Violation(ContractViolation::StepNotNewer { from: 2, to: 1, failed: false })
    );
    assert_eq!(
        decide_step(&versions, 2, StepKind::Failed { to: 3 }),
        Decision::Violation(ContractViolation::StepToNonMember { from: 2, to: 3, failed: true })
    );
    assert_eq!(
        decide_step(&versions, 1, StepKind::Done),
        Decision::Violation(ContractViolation::DoneBeforeLatest { from: 1, latest: 4 })
    );
    assert_eq!(
        decide_step(&versions, 4, StepKind::Next { to: 4 }),
        Decision::Violation(ContractViolation::NextFromLatest { from: 4, to: 4 })
    );
    assert_eq!(check_parsed(&versions, 2, 2), None);
    assert_eq!(check_parsed(&versions, 2, 1), Some(ContractViolation::ParsedOlder { asked: 2, returned: 1 }));
    assert_eq!(
        check_parsed(&versions, 2, 3),
        Some(ContractViolation::ParsedNonMember { asked: 2, returned: 3 })
    );
    assert_eq!(
        ContractViolation::StepNotNewer { from: 2, to: 1, failed: false }.message(),
        "step for version 2 returned Next naming version 1, which is not newer"
    );
}

/// A version set whose step goes backwards.
struct Backwards(u32);

impl VersionSet for Backwards {
    type Latest = ();
    type Context = ();
    const VERSIONS: &'static [u32] = &[1, 2];

    fn spec_parse(_version: u32, _json: JsonBytes) -> Result<Self, serde_json::Error> {
        unreachable!("spec functions are not run")
    }

    fn spec_version(&self) -> u32 {
        unreachable!("spec functions are not run")
    }

    fn spec_step(self, _cx: ()) -> Step<Self> {
        unreachable!("spec functions are not run")
    }

    fn parse(version: u32, json: &[u8]) -> Result<Self, serde_json::Error> {
        serde_json::from_slice::<serde::de::IgnoredAny>(json)?;
        Ok(Backwards(version))
    }

    fn version(&self) -> u32 {
        self.0
    }

    fn step(self, _cx: &()) -> Step<Self> {
        match self.0 {
            2 => Step::Next(Backwards(1)),
            _ => Step::Next(Backwards(2)),
        }
    }
}

// `Backwards` breaks the contract that the readers require of a version set;
// their run-time checks report it rather than looping.
#[test]
fn broken_version_sets_are_reported() {
    let Err(ReadError::Contract(violation)) = read_json::<Backwards>(br#"{"version":2,"data":0}"#)
    else {
        panic!("the step from the latest version goes back");
    };
    assert_eq!(violation, ContractViolation::NextFromLatest { from: 2, to: 1 });
    let Err(ReadError::Contract(violation)) = read_json::<Backwards>(br#"{"version":1,"data":0}"#)
    else {
        panic!("the step loops");
    };
    assert_eq!(violation, ContractViolation::NextFromLatest { from: 2, to: 1 });
}

#[test]
fn names_stay_sorted() {
    let mut names: Vec<String> = Vec::new();
    for name in ["b", "a", "ab", "b", "", "é", "Z"] {
        insert_name(&mut names, name.to_string());
    }
    assert_eq!(names, ["", "Z", "a", "ab", "b", "é"]);
    assert!(matches!(compare_bytes(b"ab", b"b"), Order::Less));
    assert!(matches!(compare_bytes(b"b", b"ab"), Order::Greater));
    assert!(matches!(compare_bytes(b"ab", b"ab"), Order::Equal));
    assert!(matches!(compare_bytes(b"a", b"ab"), Order::Less));
}

#[test]
fn outputs_and_rewrites() {
    let out = ReadOutput::new(5u8, Origin::Envelope { version: 4 }, 4);
    assert!(!out.needs_rewrite());
    assert_eq!(*out.value(), 5);
    assert_eq!(out.into_parts(), (5, Origin::Envelope { version: 4 }));
    assert!(ReadOutput::new((), Origin::Envelope { version: 2 }, 4).needs_rewrite());
    assert!(ReadOutput::new((), Origin::Untagged { version: 4 }, 4).needs_rewrite());
    let reason = NotAnEnvelopeReason::NonObjectRoot { kind: NonObjectKind::Null };
    let out = ReadOutput::new((), Origin::Fallback { not_an_envelope: reason }, 4);
    assert!(out.needs_rewrite());
    assert_eq!(out.origin(), Origin::Fallback { not_an_envelope: reason });
}

#[test]
fn not_an_envelope_is_told_apart() {
    let reason = NotAnEnvelopeReason::Missing { fields: EnvelopeFieldSet::Data };
    let error = ReadError::Envelope(EnvelopeError::NotAnEnvelope { reason });
    assert_eq!(not_an_envelope(error).ok(), Some(reason));
    let error = ReadError::Envelope(EnvelopeError::DuplicateFields { fields: EnvelopeFieldSet::Data });
    assert!(not_an_envelope(error).is_err());
}

#[test]
fn settings_upgrade() {
    let v4 = AnyPayload::V1(SettingsV1 { value: 3 }).upgrade().expect("version 1 upgrades");
    assert_eq!(v4, SettingsV4 { value: 3, label: "upgraded from v1".into() });
    assert_eq!(
        AnyPayload::V2(SettingsV2 { value: 3, label: None }).upgrade(),
        Err(MissingLabel)
    );
    assert_eq!(MissingLabel.message(), "missing a label as part of v2 -> v4 upgrade");
    assert_eq!(AnyPayload::V2(SettingsV2 { value: 3, label: None }).version(), 2);
}

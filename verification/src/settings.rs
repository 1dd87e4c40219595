//! An example version set: three versions of a settings document.
//!
//! Version 1 holds a value; version 2 adds an optional label; version 4 makes
//! the label required. Version 1 upgrades to 2 by labelling the value as
//! upgraded; version 2 upgrades to 4 only when it has a label.

use crate::json::{encode_string, json_quoted};
use crate::text::{decimal_bytes, push_decimal};
use crate::versioned::Versioned;
use crate::write::{envelope_bytes, write_envelope};
use vstd::prelude::*;

verus! {

/// Version 1 of the settings.
#[derive(Debug, PartialEq, Eq)]
pub struct SettingsV1 {
    /// The setting's value.
    pub value: u32,
}

/// Version 2 of the settings.
#[derive(Debug, PartialEq, Eq)]
pub struct SettingsV2 {
    /// The setting's value.
    pub value: u32,
    /// An optional label.
    pub label: Option<String>,
}

/// Version 4 of the settings.
#[derive(Debug, PartialEq, Eq)]
pub struct SettingsV4 {
    /// The setting's value.
    pub value: u32,
    /// The label.
    pub label: String,
}

impl Versioned for SettingsV1 {
    const VERSION: u32 = 1;
}

impl Versioned for SettingsV2 {
    const VERSION: u32 = 2;
}

impl Versioned for SettingsV4 {
    const VERSION: u32 = 4;
}

/// The settings versions, oldest first.
pub const SETTINGS_VERSIONS: [u32; 3] = [1, 2, 4];

/// The label a value upgraded from version 1 gets.
pub open spec fn upgraded_label() -> Seq<char> {
    "upgraded from v1"@
}

/// Upgrading version 2 to 4 failed: the settings have no label.
#[derive(Clone, Copy, Debug, PartialEq, Eq)]
pub struct MissingLabel;

impl MissingLabel {
    /// Returns the message of this error.
    pub fn message(&self) -> (r: String)
        ensures
            r@ == "missing a label as part of v2 -> v4 upgrade"@,
    {
        String::from_str("missing a label as part of v2 -> v4 upgrade")
    }
}

impl SettingsV2 {
    /// Upgrades version 1 settings: the value is kept, and labelled as
    /// upgraded.
    pub fn from_v1(v1: SettingsV1) -> (r: SettingsV2)
        ensures
            r.value == v1.value,
            r.label matches Some(label) && label@ == upgraded_label(),
    {
        SettingsV2 { value: v1.value, label: Some(String::from_str("upgraded from v1")) }
    }
}

impl SettingsV4 {
    /// Upgrades version 2 settings, which needs a label.
    pub fn try_from_v2(v2: SettingsV2) -> (r: Result<SettingsV4, MissingLabel>)
        ensures
            v2.label is None <==> r is Err,
            r matches Ok(v4) ==> v4.value == v2.value && Some(v4.label) == v2.label,
    {
        match v2.label {
            Some(label) => Ok(SettingsV4 { value: v2.value, label }),
            None => Err(MissingLabel),
        }
    }
}

/// A settings payload of any version.
#[derive(Debug, PartialEq, Eq)]
pub enum AnyPayload {
    /// Version 1.
    V1(SettingsV1),
    /// Version 2.
    V2(SettingsV2),
    /// Version 4.
    V4(SettingsV4),
}

/// The bytes `{"value":`.
pub open spec fn value_prefix() -> Seq<u8> {
    seq![123u8, 34, 118, 97, 108, 117, 101, 34, 58]
}

/// The bytes `,"label":`.
pub open spec fn label_prefix() -> Seq<u8> {
    seq![44u8, 34, 108, 97, 98, 101, 108, 34, 58]
}

/// The bytes `null`.
pub open spec fn null_bytes() -> Seq<u8> {
    seq![110u8, 117, 108, 108]
}

/// The JSON of a payload: its fields in order, `null` for a missing label.
pub open spec fn payload_json(payload: AnyPayload) -> Seq<u8> {
    match payload {
        AnyPayload::V1(v1) => value_prefix() + decimal_bytes(v1.value as nat) + seq![125u8],
        AnyPayload::V2(v2) => value_prefix() + decimal_bytes(v2.value as nat) + label_prefix()
            + match v2.label {
            None => null_bytes(),
            Some(label) => json_quoted(label@),
        } + seq![125u8],
        AnyPayload::V4(v4) => value_prefix() + decimal_bytes(v4.value as nat) + label_prefix()
            + json_quoted(v4.label@) + seq![125u8],
    }
}

/// The version of a payload.
pub open spec fn payload_version(payload: AnyPayload) -> u32 {
    match payload {
        AnyPayload::V1(_) => 1,
        AnyPayload::V2(_) => 2,
        AnyPayload::V4(_) => 4,
    }
}

fn push_all(out: &mut Vec<u8>, bytes: &[u8])
    ensures
        final(out)@ == old(out)@ + bytes@,
{
    let ghost start = out@;
    let mut i: usize = 0;
    while i < bytes.len()
        invariant
            i <= bytes@.len(),
            out@ =~= start + bytes@.take(i as int),
        decreases bytes@.len() - i,
    {
        out.push(bytes[i]);
        i += 1;
        proof {
            assert(bytes@.take(i as int) =~= bytes@.take(i - 1).push(bytes@[i - 1]));
        }
    }
    proof {
        assert(bytes@.take(bytes@.len() as int) =~= bytes@);
    }
}

fn push_value_field(out: &mut Vec<u8>, value: u32)
    ensures
        final(out)@ == old(out)@ + value_prefix() + decimal_bytes(value as nat),
{
    let ghost start = out@;
    out.push(123);
    out.push(34);
    out.push(118);
    out.push(97);
    out.push(108);
    out.push(117);
    out.push(101);
    out.push(34);
    out.push(58);
    proof {
        assert(out@ =~= start + value_prefix());
    }
    push_decimal(out, value);
}

fn push_label_prefix(out: &mut Vec<u8>)
    ensures
        final(out)@ == old(out)@ + label_prefix(),
{
    let ghost start = out@;
    out.push(44);
    out.push(34);
    out.push(108);
    out.push(97);
    out.push(98);
    out.push(101);
    out.push(108);
    out.push(34);
    out.push(58);
    proof {
        assert(out@ =~= start + label_prefix());
    }
}

impl AnyPayload {
    /// Returns the version of the payload.
    pub fn version(&self) -> (r: u32)
        ensures
            r == payload_version(*self),
    {
        match self {
            AnyPayload::V1(_) => SettingsV1::VERSION,
            AnyPayload::V2(_) => SettingsV2::VERSION,
            AnyPayload::V4(_) => SettingsV4::VERSION,
        }
    }

    /// Returns the JSON of the payload, its fields in order.
    pub fn to_json(&self) -> (r: Vec<u8>)
        ensures
            r@ == payload_json(*self),
    {
        let mut out: Vec<u8> = Vec::new();
        match self {
            AnyPayload::V1(v1) => {
                push_value_field(&mut out, v1.value);
            },
            AnyPayload::V2(v2) => {
                push_value_field(&mut out, v2.value);
                push_label_prefix(&mut out);
                match &v2.label {
                    None => {
                        let ghost start = out@;
                        out.push(110);
                        out.push(117);
                        out.push(108);
                        out.push(108);
                        proof {
                            assert(out@ =~= start + null_bytes());
                        }
                    },
                    Some(label) => {
                        let quoted = encode_string(label.as_str());
                        push_all(&mut out, quoted.as_slice());
                    },
                }
            },
            AnyPayload::V4(v4) => {
                push_value_field(&mut out, v4.value);
                push_label_prefix(&mut out);
                let quoted = encode_string(v4.label.as_str());
                push_all(&mut out, quoted.as_slice());
            },
        }
        out.push(125);
        proof {
            assert(out@ =~= payload_json(*self));
        }
        out
    }

    /// Writes the payload in an envelope of its version.
    pub fn write(&self) -> (r: Vec<u8>)
        ensures
            r@ == envelope_bytes(payload_version(*self), payload_json(*self)),
    {
        let data = self.to_json();
        write_envelope(self.version(), data.as_slice())
    }

    /// Upgrades the payload to version 4: version 1 by way of version 2, and
    /// version 2 only if it has a label.
    pub fn upgrade(self) -> (r: Result<SettingsV4, MissingLabel>)
        ensures
            match self {
                AnyPayload::V1(v1) => r matches Ok(v4) && v4.value == v1.value && v4.label@
                    == upgraded_label(),
                AnyPayload::V2(v2) => match v2.label {
                    None => r is Err,
                    Some(label) => r matches Ok(v4) && v4.value == v2.value && v4.label == label,
                },
                AnyPayload::V4(v4) => r == Ok::<SettingsV4, MissingLabel>(v4),
            },
    {
        match self {
            AnyPayload::V1(payload) => SettingsV4::try_from_v2(SettingsV2::from_v1(payload)),
            AnyPayload::V2(payload) => SettingsV4::try_from_v2(payload),
            AnyPayload::V4(payload) => Ok(payload),
        }
    }
}

} // verus!

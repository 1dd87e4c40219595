//! Writing versioned envelopes.

use crate::text::{decimal_bytes, push_decimal};
use crate::versioned::Versioned;
use vstd::prelude::*;

verus! {

/// An envelope for writing [`Versioned`] data: the data, with the version set
/// to [`Versioned::VERSION`].
///
/// The envelope is written as `{"version":N,"data":...}`, the version field
/// first; [`WriteEnvelope::to_json`] puts it around the data's JSON.
#[derive(Clone, Copy, Debug, PartialEq, Eq, Hash)]
pub struct WriteEnvelope<T> {
    version: u32,
    data: T,
}

impl<T: Versioned> WriteEnvelope<T> {
    /// Creates an envelope around `data`, with the version of its type.
    pub fn new(data: T) -> (r: Self)
        ensures
            r.spec_version() == T::VERSION,
            r.spec_data() == data,
    {
        WriteEnvelope { version: T::VERSION, data }
    }
}

impl<T> WriteEnvelope<T> {
    /// The envelope's version.
    pub closed spec fn spec_version(&self) -> u32 {
        self.version
    }

    /// The envelope's data.
    pub closed spec fn spec_data(&self) -> T {
        self.data
    }

    /// Returns the envelope's version.
    pub fn version(&self) -> (r: u32)
        ensures
            r == self.spec_version(),
    {
        self.version
    }

    /// Returns the envelope's data.
    pub fn data(&self) -> (r: &T)
        ensures
            *r == self.spec_data(),
    {
        &self.data
    }

    /// Consumes the envelope, returning its data.
    pub fn into_data(self) -> (r: T)
        ensures
            r == self.spec_data(),
    {
        self.data
    }

    /// Writes the envelope, given the JSON of its data.
    pub fn to_json(&self, data_json: &[u8]) -> (r: Vec<u8>)
        ensures
            r@ == envelope_bytes(self.spec_version(), data_json@),
    {
        write_envelope(self.version, data_json)
    }
}

impl<T: Versioned + ?Sized> Versioned for &T {
    const VERSION: u32 = T::VERSION;
}

/// The bytes `{"version":`.
pub open spec fn version_prefix() -> Seq<u8> {
    seq![123u8, 34, 118, 101, 114, 115, 105, 111, 110, 34, 58]
}

/// The bytes `,"data":`.
pub open spec fn data_prefix() -> Seq<u8> {
    seq![44u8, 34, 100, 97, 116, 97, 34, 58]
}

/// The envelope `{"version":N,"data":D}` around the data's JSON `D`.
pub open spec fn envelope_bytes(version: u32, data: Seq<u8>) -> Seq<u8> {
    version_prefix() + decimal_bytes(version as nat) + data_prefix() + data + seq![125u8]
}

/// Where the data starts in [`envelope_bytes`].
pub open spec fn data_offset(version: u32) -> int {
    19 + decimal_bytes(version as nat).len() as int
}

/// Writes the envelope `{"version":N,"data":D}` around the data's JSON `D`.
pub fn write_envelope(version: u32, data: &[u8]) -> (r: Vec<u8>)
    ensures
        r@ == envelope_bytes(version, data@),
{
    let mut out: Vec<u8> = Vec::new();
    out.push(123);
    out.push(34);
    out.push(118);
    out.push(101);
    out.push(114);
    out.push(115);
    out.push(105);
    out.push(111);
    out.push(110);
    out.push(34);
    out.push(58);
    proof {
        assert(out@ =~= version_prefix());
    }
    push_decimal(&mut out, version);
    let ghost before_data = out@;
    out.push(44);
    out.push(34);
    out.push(100);
    out.push(97);
    out.push(116);
    out.push(97);
    out.push(34);
    out.push(58);
    proof {
        assert(out@ =~= before_data + data_prefix());
    }
    let ghost before_value = out@;
    let mut i: usize = 0;
    while i < data.len()
        invariant
            i <= data@.len(),
            out@ =~= before_value + data@.take(i as int),
        decreases data@.len() - i,
    {
        out.push(data[i]);
        i += 1;
        proof {
            assert(data@.take(i as int) =~= data@.take(i - 1).push(data@[i - 1]));
        }
    }
    out.push(125);
    proof {
        assert(data@.take(data@.len() as int) =~= data@);
        assert(out@ =~= envelope_bytes(version, data@));
    }
    out
}

} // verus!

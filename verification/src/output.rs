//! The value a read produces, and where it came from.

use crate::errors::NotAnEnvelopeReason;
use vstd::prelude::*;

verus! {

/// The method through which a versioned JSON blob was read.
#[derive(Clone, Copy, Debug, PartialEq, Eq, Hash, Structural)]
pub enum Origin {
    /// The data was in a versioned envelope.
    Envelope {
        /// The version of data read.
        version: u32,
    },
    /// The data was not in an envelope, and was read as a payload of this
    /// version.
    Untagged {
        /// The version of data for which reading succeeded.
        version: u32,
    },
    /// The data was not in an envelope, and a fallback read it.
    Fallback {
        /// The reason the data was not an envelope.
        not_an_envelope: NotAnEnvelopeReason,
    },
}

/// Whether a value read through `origin` needs to be written again, where
/// `latest` is the newest version.
pub open spec fn rewrite_needed(origin: Origin, latest: u32) -> bool {
    match origin {
        Origin::Envelope { version } => version < latest,
        Origin::Untagged { .. } | Origin::Fallback { .. } => true,
    }
}

/// A successfully read value.
#[derive(Clone, Debug, PartialEq, Eq)]
pub struct ReadOutput<T> {
    value: T,
    origin: Origin,
    latest: u32,
}

impl<T> ReadOutput<T> {
    /// The value read.
    pub closed spec fn spec_value(&self) -> T {
        self.value
    }

    /// Where the value was read from.
    pub closed spec fn spec_origin(&self) -> Origin {
        self.origin
    }

    /// The newest version of the set the value was read with.
    pub closed spec fn spec_latest(&self) -> u32 {
        self.latest
    }

    /// Records a value read through `origin`, where `latest` is the newest
    /// version.
    pub fn new(value: T, origin: Origin, latest: u32) -> (r: Self)
        ensures
            r.spec_value() == value,
            r.spec_origin() == origin,
            r.spec_latest() == latest,
    {
        ReadOutput { value, origin, latest }
    }

    /// Returns a reference to the value read.
    pub fn value(&self) -> (r: &T)
        ensures
            *r == self.spec_value(),
    {
        &self.value
    }

    /// Consumes the output, returning the value.
    pub fn into_value(self) -> (r: T)
        ensures
            r == self.spec_value(),
    {
        self.value
    }

    /// Returns where the value was read from.
    pub fn origin(&self) -> (r: Origin)
        ensures
            r == self.spec_origin(),
    {
        self.origin
    }

    /// Consumes the output, returning the value and where it came from.
    pub fn into_parts(self) -> (r: (T, Origin))
        ensures
            r.0 == self.spec_value(),
            r.1 == self.spec_origin(),
    {
        (self.value, self.origin)
    }

    /// Returns true if the value needs to be written again: it was read from
    /// an envelope older than the latest version, or from outside an
    /// envelope.
    pub fn needs_rewrite(&self) -> (r: bool)
        ensures
            r == rewrite_needed(self.spec_origin(), self.spec_latest()),
    {
        match self.origin {
            Origin::Envelope { version } => version < self.latest,
            Origin::Untagged { .. } | Origin::Fallback { .. } => true,
        }
    }
}

} // verus!

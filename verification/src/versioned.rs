//! The traits that describe versioned payloads and sets of versions.

use vstd::prelude::*;

verus! {

/// A single versioned payload type.
pub trait Versioned {
    /// The version of this type.
    const VERSION: u32;
}

/// The bytes of a JSON document, as the specifications see them.
pub type JsonBytes = Seq<u8>;

/// A set of versioned payload types, read and upgraded together.
///
/// `VERSIONS` lists the versions oldest first; it must be non-empty and
/// strictly ascending (see [`assert_version_set_well_formed`]).
///
/// `parse`, `version` and `step` are described by the spec functions
/// `spec_parse`, `spec_version` and `spec_step`, which the readers' contracts
/// speak of. An implementation in verified code defines them; in compiled code
/// they are never called, and an implementation outside verified code gives
/// them bodies that are never run. For such an implementation they stay
/// abstract, and the contracts then say that the three methods are functions
/// of their arguments.
pub trait VersionSet: Sized {
    /// The type of the latest version.
    type Latest;

    /// Ancillary data required for conversion.
    type Context;

    /// The list of versions, strictly ascending, newest last.
    const VERSIONS: &'static [u32];

    /// What `parse` returns for a payload of `version` held in `json`.
    spec fn spec_parse(version: u32, json: JsonBytes) -> Result<Self, serde_json::Error>;

    /// The version of this value, as `version` returns it.
    spec fn spec_version(&self) -> u32;

    /// What `step` returns for this value in the context `cx`.
    spec fn spec_step(self, cx: Self::Context) -> Step<Self>;

    /// Deserializes a payload of the given version.
    ///
    /// `json` holds exactly one JSON value, possibly preceded by whitespace.
    /// For envelopes, bytes before the `data` value are blanked out (newlines
    /// kept), so error positions are positions in the whole document. The
    /// reader only asks for versions in `VERSIONS`.
    fn parse(version: u32, json: &[u8]) -> (r: Result<Self, serde_json::Error>)
        ensures
            r == Self::spec_parse(version, json@),
    ;

    /// Returns the version of this value; it must be one of `VERSIONS`.
    fn version(&self) -> (r: u32)
        ensures
            r == self.spec_version(),
    ;

    /// Returns the next step in the conversion process; a step must go to a
    /// newer version.
    fn step(self, cx: &Self::Context) -> (r: Step<Self>)
        ensures
            r == self.spec_step(*cx),
    ;
}

/// A single step in a read-time conversion process.
pub enum Step<S: VersionSet> {
    /// Conversion has advanced to a newer version.
    Next(S),
    /// Conversion to the latest version is completed.
    Done(S::Latest),
    /// Conversion failed.
    Failed {
        /// The version to which conversion failed.
        to: u32,
        /// The message of the error that occurred.
        source: String,
    },
}

/// A version list is strictly ascending: each version is older than every
/// later one.
pub open spec fn strictly_ascending(versions: Seq<u32>) -> bool {
    forall|i: int, j: int| 0 <= i < j < versions.len() ==> versions[i] < versions[j]
}

/// A version list is well-formed: it is non-empty and strictly ascending.
pub open spec fn well_formed(versions: Seq<u32>) -> bool {
    &&& versions.len() > 0
    &&& strictly_ascending(versions)
}

/// Checks that a version list is non-empty and strictly ascending.
pub fn versions_well_formed(versions: &[u32]) -> (r: bool)
    ensures
        r == well_formed(versions@),
{
    if versions.len() == 0 {
        return false;
    }
    let mut index: usize = 1;
    while index < versions.len()
        invariant
            1 <= index <= versions.len(),
            forall|i: int, j: int| 0 <= i < j < index ==> versions@[i] < versions@[j],
        decreases versions.len() - index,
    {
        if versions[index - 1] >= versions[index] {
            return false;
        }
        index += 1;
    }
    true
}

/// Checks that a [`VersionSet`] is well-formed: at least one version, and
/// the versions strictly ascending.
pub fn assert_version_set_well_formed<S: VersionSet>() -> (r: bool)
    ensures
        r == well_formed(S::VERSIONS@),
{
    versions_well_formed(S::VERSIONS)
}

/// The latest version of a well-formed list.
pub fn latest_version(versions: &[u32]) -> (r: u32)
    requires
        versions@.len() > 0,
    ensures
        r == versions@.last(),
{
    versions[versions.len() - 1]
}

/// Whether `version` is one of `versions`, found by binary search over the
/// ascending list.
pub fn is_member(versions: &[u32], version: u32) -> (r: bool)
    requires
        strictly_ascending(versions@),
    ensures
        r == versions@.contains(version),
{
    let mut lo: usize = 0;
    let mut hi: usize = versions.len();
    while lo < hi
        invariant
            0 <= lo <= hi <= versions@.len(),
            strictly_ascending(versions@),
            forall|i: int| 0 <= i < lo ==> versions@[i] < version,
            forall|i: int| hi <= i < versions@.len() ==> versions@[i] > version,
        decreases hi - lo,
    {
        let mid = lo + (hi - lo) / 2;
        if versions[mid] == version {
            return true;
        } else if versions[mid] < version {
            lo = mid + 1;
        } else {
            hi = mid;
        }
    }
    proof {
        if versions@.contains(version) {
            let k = choose|k: int| 0 <= k < versions@.len() && versions@[k] == version;
            assert(versions@[k] == version);
        }
    }
    false
}

} // verus!

//! Protocol version tags and the two-version negotiation table.
//!
//! A version is a date-coded tag such as `2025-06-18`. Two tags are known:
//! the canonical current one and the legacy one immediately before it.
//! Unrecognized tags are carried as they are and never coerced.

use vstd::prelude::*;
use vstd::string::StringSliceAdditionalSpecFns;

use crate::bytes::{bytes_eq, str_bytes};

verus! {

/// A protocol version tag, kept as its literal bytes.
#[derive(Debug, Clone, PartialEq, Eq)]
pub struct ProtocolVersion {
    pub tag: Vec<u8>,
}

impl View for ProtocolVersion {
    type V = Seq<u8>;

    open spec fn view(&self) -> Seq<u8> {
        self.tag@
    }
}

/// The canonical current version tag.
pub open spec fn current_version() -> Seq<u8> {
    "2025-06-18".spec_bytes()
}

/// The designated legacy version tag: the release immediately before the
/// current one.
pub open spec fn legacy_version() -> Seq<u8> {
    "2025-03-26".spec_bytes()
}

impl ProtocolVersion {
    /// The canonical current version.
    pub fn current() -> (r: ProtocolVersion)
        ensures
            r@ == current_version(),
    {
        ProtocolVersion { tag: str_bytes("2025-06-18") }
    }

    /// The designated legacy version.
    pub fn legacy() -> (r: ProtocolVersion)
        ensures
            r@ == legacy_version(),
    {
        ProtocolVersion { tag: str_bytes("2025-03-26") }
    }
}

/// Is the tag one of the known versions?
pub open spec fn known_version(v: Seq<u8>) -> bool {
    v == legacy_version() || v == current_version()
}

/// The enumerated order on the known tags: the legacy version is the one
/// tag older than the current one. Unknown tags are not compared at all.
pub open spec fn known_older_than_current(v: Seq<u8>) -> bool {
    v == legacy_version()
}

/// The version an `initialize` exchange settles on: the requested tag when
/// it is exactly the current or the legacy one, and the current tag for
/// anything else. Negotiation never fails.
pub open spec fn negotiate(requested: Seq<u8>) -> Seq<u8> {
    if requested == current_version() {
        current_version()
    } else if requested == legacy_version() {
        legacy_version()
    } else {
        current_version()
    }
}

/// Picks the negotiated version for a requested tag.
pub fn negotiate_version(requested: &Vec<u8>) -> (r: ProtocolVersion)
    ensures
        r@ == negotiate(requested@),
{
    let current = ProtocolVersion::current();
    let legacy = ProtocolVersion::legacy();
    if bytes_eq(requested, &current.tag) {
        current
    } else if bytes_eq(requested, &legacy.tag) {
        legacy
    } else {
        current
    }
}

} // verus!

//! Defines an unknown location implementation.

use vstd::prelude::*;

use crate::textplan::common::location::{BoxedLocation, Location, LocationView};

verus! {

/// A type that represents an unknown location.
///
/// This provides a concrete implementation of Location that represents
/// an unknown or unspecified location, which can be used across the system.
#[derive(Debug, Clone, Copy, PartialEq, Eq, Structural)]
pub struct UnknownLocation;

/// The hash every unknown location has.
pub open spec fn unknown_location_hash() -> u64 {
    0xDEADBEEF_DEADBEEFu64
}

impl UnknownLocation {
    /// A global constant for the unknown location
    pub const UNKNOWN: UnknownLocation = UnknownLocation;

    /// Returns a boxed unknown location.
    pub fn boxed() -> (r: BoxedLocation)
        ensures
            r == BoxedLocation::Unknown(UnknownLocation),
    {
        BoxedLocation::Unknown(UnknownLocation)
    }

    /// Returns a unique, consistent hash value for the unknown location.
    /// This value is chosen to be unlikely to conflict with other location hashes.
    pub fn unique_hash() -> (r: u64)
        ensures
            r == unknown_location_hash(),
    {
        0xDEADBEEF_DEADBEEFu64
    }

    /// The display text of an unknown location.
    pub fn to_string(&self) -> (r: String)
        ensures
            r@ == seq!['u', 'n', 'k', 'n', 'o', 'w', 'n', ' ', 'l', 'o', 'c', 'a', 't', 'i', 'o', 'n'],
    {
        proof {
            reveal_strlit("unknown location");
        }
        String::from_str("unknown location")
    }
}

impl Default for UnknownLocation {
    /// The default unknown location.
    fn default() -> (r: Self)
        ensures
            r == UnknownLocation,
    {
        UnknownLocation
    }
}

impl Location for UnknownLocation {
    open spec fn location_view(&self) -> LocationView {
        LocationView::Unknown
    }

    fn is_unknown(&self) -> (r: bool)
        ensures
            r,
    {
        true
    }

    fn location_hash(&self) -> (r: u64)
        ensures
            r == unknown_location_hash(),
    {
        Self::unique_hash()
    }

    fn box_clone(&self) -> (r: BoxedLocation)
        ensures
            r == BoxedLocation::Unknown(*self),
    {
        BoxedLocation::Unknown(*self)
    }

    /// An unknown location is equal only to an unknown location.
    fn equals(&self, other: &BoxedLocation) -> (r: bool)
        ensures
            r == (other is Unknown),
    {
        other.is_unknown() && matches!(other, BoxedLocation::Unknown(_))
    }
}

/// Feeds a number to a hasher (`Hasher::write_u64`); what the hasher does with it, the
/// contract leaves open.
#[verifier::external_body]
fn feed_u64<H: core::hash::Hasher>(state: &mut H, v: u64) {
    state.write_u64(v);
}

impl core::hash::Hash for UnknownLocation {
    /// Feeds the unique unknown-location hash to the hasher, so that every unknown location
    /// hashes alike.
    fn hash<H: core::hash::Hasher>(&self, state: &mut H) {
        feed_u64(state, Self::unique_hash());
    }
}

} // verus!

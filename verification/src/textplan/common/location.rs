//! The location module provides a trait for tracking positions in various contexts.

use vstd::prelude::*;

use crate::textplan::common::proto_location::{proto_location_hash, ProtoLocation, ProtoLocationView};
use crate::textplan::common::text_location::{is_text_location_hash, TextLocation};
use crate::textplan::common::unknown_location::{unknown_location_hash, UnknownLocation};

verus! {

/// A trait representing a location in source material.
pub trait Location {
    /// Returns true if this is an unknown location.
    fn is_unknown(&self) -> bool;

    /// Computes a stable hash for the location.
    ///
    /// This is used for location comparison in the symbol table and must be consistent.
    fn location_hash(&self) -> u64;

    /// The value of this location as a location of any kind.
    spec fn location_view(&self) -> LocationView;

    /// Creates a boxed clone of this location.
    fn box_clone(&self) -> (r: BoxedLocation)
        ensures
            r@ == self.location_view(),
    ;

    /// Tests if this location is equal to another location.
    fn equals(&self, other: &BoxedLocation) -> bool;
}

/// A location of any of the concrete kinds: text, proto or unknown.
#[derive(Debug, Clone)]
pub enum BoxedLocation {
    /// A position in textplan source text.
    Text(TextLocation),
    /// A position inside a protobuf message.
    Proto(ProtoLocation),
    /// An unknown location.
    Unknown(UnknownLocation),
}

/// Whether a location is unknown.
pub open spec fn location_is_unknown(l: BoxedLocation) -> bool {
    match l {
        BoxedLocation::Text(t) => t.spec_position() < 0,
        BoxedLocation::Proto(p) => p@.root_instance_id == 0 && p@.path.len() == 0,
        BoxedLocation::Unknown(_) => true,
    }
}

/// Whether `h` is the hash of location `l`.
pub open spec fn is_location_hash(l: BoxedLocation, h: u64) -> bool {
    match l {
        BoxedLocation::Text(t) => is_text_location_hash(t.spec_position(), t.spec_length(), h),
        BoxedLocation::Proto(p) => h == proto_location_hash(p@),
        BoxedLocation::Unknown(_) => h == unknown_location_hash(),
    }
}

impl From<TextLocation> for BoxedLocation {
    fn from(location: TextLocation) -> (r: Self)
        ensures
            r == BoxedLocation::Text(location),
    {
        BoxedLocation::Text(location)
    }
}

impl vstd::std_specs::convert::FromSpecImpl<TextLocation> for BoxedLocation {
    open spec fn obeys_from_spec() -> bool {
        true
    }

    open spec fn from_spec(location: TextLocation) -> Self {
        BoxedLocation::Text(location)
    }
}

impl From<ProtoLocation> for BoxedLocation {
    fn from(location: ProtoLocation) -> (r: Self)
        ensures
            r == BoxedLocation::Proto(location),
    {
        BoxedLocation::Proto(location)
    }
}

impl vstd::std_specs::convert::FromSpecImpl<ProtoLocation> for BoxedLocation {
    open spec fn obeys_from_spec() -> bool {
        true
    }

    open spec fn from_spec(location: ProtoLocation) -> Self {
        BoxedLocation::Proto(location)
    }
}

impl From<UnknownLocation> for BoxedLocation {
    fn from(location: UnknownLocation) -> (r: Self)
        ensures
            r == BoxedLocation::Unknown(location),
    {
        BoxedLocation::Unknown(location)
    }
}

impl vstd::std_specs::convert::FromSpecImpl<UnknownLocation> for BoxedLocation {
    open spec fn obeys_from_spec() -> bool {
        true
    }

    open spec fn from_spec(location: UnknownLocation) -> Self {
        BoxedLocation::Unknown(location)
    }
}

impl Location for BoxedLocation {
    open spec fn location_view(&self) -> LocationView {
        self@
    }

    fn is_unknown(&self) -> (r: bool)
        ensures
            r == location_is_unknown(*self),
    {
        match self {
            BoxedLocation::Text(t) => t.is_unknown(),
            BoxedLocation::Proto(p) => p.is_unknown(),
            BoxedLocation::Unknown(u) => u.is_unknown(),
        }
    }

    fn location_hash(&self) -> (r: u64)
        ensures
            is_location_hash(*self, r),
    {
        match self {
            BoxedLocation::Text(t) => t.location_hash(),
            BoxedLocation::Proto(p) => p.location_hash(),
            BoxedLocation::Unknown(u) => u.location_hash(),
        }
    }

    fn box_clone(&self) -> (r: BoxedLocation)
        ensures
            locations_equal(r, *self),
    {
        match self {
            BoxedLocation::Text(t) => t.box_clone(),
            BoxedLocation::Proto(p) => p.box_clone(),
            BoxedLocation::Unknown(u) => u.box_clone(),
        }
    }

    fn equals(&self, other: &BoxedLocation) -> (r: bool)
        ensures
            r == locations_equal(*self, *other),
    {
        match self {
            BoxedLocation::Text(t) => t.equals(other),
            BoxedLocation::Proto(p) => p.equals(other),
            BoxedLocation::Unknown(u) => u.equals(other),
        }
    }
}

/// Whether two locations are equal: of the same kind and equal as locations of that kind.
pub open spec fn locations_equal(a: BoxedLocation, b: BoxedLocation) -> bool {
    match (a, b) {
        (BoxedLocation::Text(x), BoxedLocation::Text(y)) => x == y,
        (BoxedLocation::Proto(x), BoxedLocation::Proto(y)) => x@ == y@,
        (BoxedLocation::Unknown(_), BoxedLocation::Unknown(_)) => true,
        _ => false,
    }
}

/// The mathematical value of a location.
pub ghost enum LocationView {
    Text(TextLocation),
    Proto(ProtoLocationView),
    Unknown,
}

impl View for BoxedLocation {
    type V = LocationView;

    open spec fn view(&self) -> LocationView {
        match self {
            BoxedLocation::Text(t) => LocationView::Text(*t),
            BoxedLocation::Proto(p) => LocationView::Proto(p@),
            BoxedLocation::Unknown(_) => LocationView::Unknown,
        }
    }
}

/// A location is equal to a copy of itself (one with the same value, as `box_clone` gives).
pub proof fn lemma_location_equals_copy(l: BoxedLocation, copy: BoxedLocation)
    requires
        copy@ == l@,
    ensures
        locations_equal(l, copy),
{
}

/// Equal locations hash alike (for text locations the hash is left to the machine's byte
/// order, which the hash of each call is stated for separately, so they are not covered).
pub proof fn lemma_equal_locations_hash_alike(a: BoxedLocation, b: BoxedLocation, ha: u64, hb: u64)
    requires
        locations_equal(a, b),
        !(a is Text),
        is_location_hash(a, ha),
        is_location_hash(b, hb),
    ensures
        ha == hb,
{
}

/// Two locations are equal exactly when their values are.
pub proof fn lemma_locations_equal_iff_views(a: BoxedLocation, b: BoxedLocation)
    ensures
        locations_equal(a, b) <==> a@ == b@,
{
}

} // verus!

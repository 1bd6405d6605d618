//! The text_location module provides a way to track source positions in the parsed text.

use vstd::prelude::*;
use std::collections::hash_map::DefaultHasher;
use std::hash::Hasher;
use vstd::std_specs::hash::DefaultHasherAdditionalSpecFns;

use crate::textplan::common::location::{BoxedLocation, Location, LocationView};
use crate::textplan::common::text_format::{i32_to_string, signed_decimal};

verus! {

/// Represents a position in the source text.
///
/// This is used to provide context for errors and to reference entities in the source.
#[derive(Debug, Clone, Copy, PartialEq, Eq, Hash, Structural)]
pub struct TextLocation {
    /// The position in the source text, 0-indexed.
    position: i32,
    /// The length of the text at this location.
    length: i32,
}

/// The little-endian bytes of a 32-bit integer.
pub open spec fn i32_le_bytes(v: i32) -> Seq<u8> {
    let u = v as u32;
    seq![(u % 256) as u8, ((u / 256) % 256) as u8, ((u / 65536) % 256) as u8, (u / 16777216) as u8]
}

/// Whether `bytes` are the bytes of `v` in the machine's order (little- or big-endian).
pub open spec fn is_native_bytes(v: i32, bytes: Seq<u8>) -> bool {
    bytes == i32_le_bytes(v) || bytes == i32_le_bytes(v).reverse()
}

/// The bytes of `v` in the machine's byte order (`i32::to_ne_bytes`).
#[verifier::external_body]
fn i32_native_bytes(v: i32) -> (r: Vec<u8>)
    ensures
        is_native_bytes(v, r@),
{
    v.to_ne_bytes().to_vec()
}

/// Whether `h` is the hash that `DefaultHasher` gives the pair (`position`, `length`) when the
/// two integers are hashed in that order.
pub open spec fn is_text_location_hash(position: i32, length: i32, h: u64) -> bool {
    exists|bp: Seq<u8>, bl: Seq<u8>|
        #![trigger is_native_bytes(position, bp), is_native_bytes(length, bl)]
        is_native_bytes(position, bp) && is_native_bytes(length, bl) && h
            == DefaultHasher::spec_finish(seq![bp, bl])
}

/// The text `TextLocation`'s display gives: `unknown`, or `pos P len L`.
pub open spec fn text_location_text(position: i32, length: i32) -> Seq<char> {
    if position < 0 {
        seq!['u', 'n', 'k', 'n', 'o', 'w', 'n']
    } else {
        seq!['p', 'o', 's', ' '] + signed_decimal(position as int) + seq![' ', 'l', 'e', 'n', ' ']
            + signed_decimal(length as int)
    }
}

impl TextLocation {
    /// The position in the source text.
    pub closed spec fn spec_position(&self) -> i32 {
        self.position
    }

    /// The length of the text at this location.
    pub closed spec fn spec_length(&self) -> i32 {
        self.length
    }

    /// The location at `position` with `length`.
    pub closed spec fn spec_new(position: i32, length: i32) -> TextLocation {
        TextLocation { position, length }
    }

    /// The location at `position` with `length` has that position and that length.
    pub proof fn lemma_spec_new(position: i32, length: i32)
        ensures
            Self::spec_new(position, length).spec_position() == position,
            Self::spec_new(position, length).spec_length() == length,
    {
    }

    /// Creates a text location corresponding to the global unknown location.
    pub fn unknown() -> (r: Self)
        ensures
            r == Self::spec_new(-1i32, 0i32),
            r.spec_position() == -1,
            r.spec_length() == 0,
    {
        TextLocation { position: -1, length: 0 }
    }

    /// Creates a new location from a position and length.
    pub fn new(position: i32, length: i32) -> (r: Self)
        ensures
            r.spec_position() == position,
            r.spec_length() == length,
            r == Self::spec_new(position, length),
    {
        Self { position, length }
    }

    /// Returns the position in the source text.
    pub fn position(&self) -> (r: i32)
        ensures
            r == self.spec_position(),
    {
        self.position
    }

    /// Returns the length of the text at this location.
    pub fn length(&self) -> (r: i32)
        ensures
            r == self.spec_length(),
    {
        self.length
    }

    /// The display text of this location: `unknown`, or `pos P len L`.
    pub fn to_string(&self) -> (r: String)
        ensures
            r@ == text_location_text(self.spec_position(), self.spec_length()),
    {
        if self.position < 0 {
            let r = String::from_str("unknown");
            proof {
                reveal_strlit("unknown");
            }
            assert(r@ =~= text_location_text(self.position, self.length));
            r
        } else {
            let mut r = String::from_str("pos ");
            let p = i32_to_string(self.position);
            r.append(p.as_str());
            r.append(" len ");
            let l = i32_to_string(self.length);
            r.append(l.as_str());
            proof {
                reveal_strlit("pos ");
                reveal_strlit(" len ");
            }
            assert(r@ =~= text_location_text(self.position, self.length));
            r
        }
    }
}

impl Default for TextLocation {
    /// The default location is the unknown location.
    fn default() -> (r: Self)
        ensures
            r == Self::spec_new(-1i32, 0i32),
            r.spec_position() == -1,
            r.spec_length() == 0,
    {
        TextLocation { position: -1, length: 0 }
    }
}

impl Location for TextLocation {
    open spec fn location_view(&self) -> LocationView {
        LocationView::Text(*self)
    }

    /// A text location is unknown when its position is negative.
    fn is_unknown(&self) -> (r: bool)
        ensures
            r == (self.spec_position() < 0),
    {
        self.position < 0
    }

    /// Hashes the position and then the length with `DefaultHasher`.
    fn location_hash(&self) -> (r: u64)
        ensures
            is_text_location_hash(self.spec_position(), self.spec_length(), r),
    {
        let mut hasher = DefaultHasher::new();
        let bp = i32_native_bytes(self.position);
        let bl = i32_native_bytes(self.length);
        hasher.write(bp.as_slice());
        hasher.write(bl.as_slice());
        let r = hasher.finish();
        assert(seq![bp@, bl@] =~= Seq::<Seq<u8>>::empty().push(bp@).push(bl@));
        assert(is_native_bytes(self.position, bp@) && is_native_bytes(self.length, bl@));
        r
    }

    fn box_clone(&self) -> (r: BoxedLocation)
        ensures
            r == BoxedLocation::Text(*self),
    {
        BoxedLocation::Text(*self)
    }

    /// A text location equals another text location with the same position and length.
    fn equals(&self, other: &BoxedLocation) -> (r: bool)
        ensures
            r == (other matches BoxedLocation::Text(t) && t == *self),
    {
        match other {
            BoxedLocation::Text(t) => *t == *self,
            _ => false,
        }
    }
}

} // verus!

//! The proto_location module provides a way to track positions in protobuffer structures.

use vstd::prelude::*;
use std::any::TypeId;

use crate::textplan::common::location::{BoxedLocation, Location, LocationView};
use crate::textplan::common::string_utils::hex_digit;
use crate::textplan::common::text_format::{decimal, push_decimal};
use crate::textplan::common::text_ops::push_char;

verus! {

#[verifier::external_type_specification]
#[verifier::external_body]
pub struct ExTypeId(TypeId);

/// Cloning a type id (`TypeId` is `Copy`) gives the same type id.
pub assume_specification[ <TypeId as Clone>::clone ](id: &TypeId) -> (r: TypeId)
    ensures
        r == *id,
;

/// The `TypeId` of `T` (`TypeId::of`).
#[verifier::external_body]
fn type_id_of<T: 'static>() -> TypeId {
    TypeId::of::<T>()
}

/// Whether two type ids are the same (`TypeId::eq`): they are exactly when they identify the
/// same type.
#[verifier::external_body]
fn same_type_id(a: &TypeId, b: &TypeId) -> (r: bool)
    ensures
        r == (*a == *b),
{
    *a == *b
}

/// The debug text of a type id (`format!("{:?}", id)`); its form is the compiler's.
#[verifier::external_body]
fn type_id_text(id: &TypeId) -> String {
    format!("{:?}", id)
}

/// The address of an object in memory, as a number (`obj as *const T as u64`). A reference
/// is never null, so the address is never zero; which address it is, the contract leaves
/// open.
#[verifier::external_body]
fn address_of<T>(obj: &T) -> (r: u64)
    ensures
        r != 0,
{
    std::ptr::from_ref(obj).addr() as u64
}

/// Represents a path component in a nested protobuf structure
#[derive(Debug, Clone, PartialEq, Eq, Hash)]
pub enum PathComponent {
    /// Represents a named field within a message
    Field(String),
    /// Represents an indexed element within a repeated field
    IndexedField(String, usize),
}

/// The mathematical value of a path component.
pub ghost enum PathComponentView {
    Field(Seq<char>),
    IndexedField(Seq<char>, usize),
}

impl View for PathComponent {
    type V = PathComponentView;

    open spec fn view(&self) -> PathComponentView {
        match self {
            PathComponent::Field(name) => PathComponentView::Field(name@),
            PathComponent::IndexedField(name, index) => PathComponentView::IndexedField(
                name@,
                *index,
            ),
        }
    }
}

/// The text of a path component: `.name` or `.name[index]`.
pub open spec fn component_text(c: PathComponentView) -> Seq<char> {
    match c {
        PathComponentView::Field(name) => seq!['.'] + name,
        PathComponentView::IndexedField(name, index) => seq!['.'] + name + seq!['['] + decimal(
            index as nat,
        ) + seq![']'],
    }
}

/// The text of a whole path: the texts of its components one after the other.
pub open spec fn path_text(p: Seq<PathComponentView>) -> Seq<char>
    decreases p.len(),
{
    if p.len() == 0 {
        seq![]
    } else {
        path_text(p.drop_last()) + component_text(p.last())
    }
}

impl PathComponent {
    /// Copies this component.
    pub fn duplicate(&self) -> (r: PathComponent)
        ensures
            r@ == self@,
    {
        match self {
            PathComponent::Field(name) => PathComponent::Field(name.clone()),
            PathComponent::IndexedField(name, index) => PathComponent::IndexedField(
                name.clone(),
                *index,
            ),
        }
    }

    /// The display text of this component: `.name` or `.name[index]`.
    pub fn to_string(&self) -> (r: String)
        ensures
            r@ == component_text(self@),
    {
        let mut r = String::new();
        push_char(&mut r, '.');
        match self {
            PathComponent::Field(name) => {
                r.append(name.as_str());
            },
            PathComponent::IndexedField(name, index) => {
                r.append(name.as_str());
                push_char(&mut r, '[');
                push_decimal(&mut r, *index as u128);
                push_char(&mut r, ']');
            },
        }
        assert(r@ =~= component_text(self@));
        r
    }

    /// Whether two components are the same field, or the same element of the same field.
    pub fn same_as(&self, other: &PathComponent) -> (r: bool)
        ensures
            r == (self@ == other@),
    {
        match (self, other) {
            (PathComponent::Field(a), PathComponent::Field(b)) => *a == *b,
            (PathComponent::IndexedField(a, i), PathComponent::IndexedField(b, j)) => *a == *b && *i
                == *j,
            _ => false,
        }
    }
}

/// Represents a location in a protobuffer message.
///
/// This is used to track references to objects within the protobuffer structure,
/// allowing the system to maintain references to specific elements during visitor traversal.
#[derive(Debug, Clone, PartialEq, Eq, Hash)]
pub struct ProtoLocation {
    /// The type ID of the root protobuf message
    root_type_id: TypeId,
    /// A unique identifier for the root instance within the protobuf graph
    root_instance_id: u64,
    /// Path to the current element within the protobuf structure
    path: Vec<PathComponent>,
}

/// The mathematical value of a proto location.
pub ghost struct ProtoLocationView {
    pub root_type_id: TypeId,
    pub root_instance_id: u64,
    pub path: Seq<PathComponentView>,
}

impl View for ProtoLocation {
    type V = ProtoLocationView;

    closed spec fn view(&self) -> ProtoLocationView {
        ProtoLocationView {
            root_type_id: self.root_type_id,
            root_instance_id: self.root_instance_id,
            path: self.path@.map_values(|c: PathComponent| c@),
        }
    }
}

/// One step of the location hash: multiply by 31 and add, both wrapping.
pub open spec fn hash_step(h: u64, x: u64) -> u64 {
    vstd::wrapping::u64_specs::wrapping_add(vstd::wrapping::u64_specs::wrapping_mul(h, 31), x)
}

/// The hash of a name's bytes.
pub open spec fn bytes_hash(bs: Seq<u8>) -> u64
    decreases bs.len(),
{
    if bs.len() == 0 {
        0
    } else {
        hash_step(bytes_hash(bs.drop_last()), bs.last() as u64)
    }
}

/// The hash after adding one path component to the hash `h`.
pub open spec fn component_hash(h: u64, c: PathComponentView) -> u64 {
    match c {
        PathComponentView::Field(name) => hash_step(
            hash_step(h, 1),
            bytes_hash(vstd::utf8::encode_utf8(name)),
        ),
        PathComponentView::IndexedField(name, index) => hash_step(
            hash_step(hash_step(h, 2), bytes_hash(vstd::utf8::encode_utf8(name))),
            index as u64,
        ),
    }
}

/// The hash after adding all components of `p` to the hash `h`.
pub open spec fn path_hash(h: u64, p: Seq<PathComponentView>) -> u64
    decreases p.len(),
{
    if p.len() == 0 {
        h
    } else {
        component_hash(path_hash(h, p.drop_last()), p.last())
    }
}

/// The location hash of a proto location.
pub open spec fn proto_location_hash(v: ProtoLocationView) -> u64 {
    path_hash(hash_step(17, v.root_instance_id), v.path)
}

/// The lower-case hexadecimal digits of `n`, most significant first, without leading zeros.
pub open spec fn hex_text(n: nat) -> Seq<char>
    decreases n,
{
    if n < 16 {
        seq![hex_digit(n as u32)]
    } else {
        hex_text(n / 16) + seq![hex_digit((n % 16) as u32)]
    }
}

/// Appends the lower-case hexadecimal digits of `n` to `out`.
fn push_hex(out: &mut String, n: u64)
    ensures
        final(out)@ == old(out)@ + hex_text(n as nat),
    decreases n,
{
    if n >= 16 {
        push_hex(out, n / 16);
    }
    let d = (n % 16) as u8;
    let c = if d < 10 {
        (48 + d) as char
    } else {
        (87 + d) as char
    };
    push_char(out, c);
    assert(final(out)@ =~= old(out)@ + hex_text(n as nat));
}

/// Hashes the bytes of a name.
fn name_hash(name: &String) -> (r: u64)
    ensures
        r == bytes_hash(vstd::utf8::encode_utf8(name@)),
{
    let bytes = name.as_str().as_bytes();
    let mut h: u64 = 0;
    let mut j: usize = 0;
    while j < bytes.len()
        invariant
            j <= bytes@.len(),
            bytes@ == vstd::utf8::encode_utf8(name@),
            h == bytes_hash(bytes@.take(j as int)),
        decreases bytes@.len() - j,
    {
        assert(bytes@.take(j + 1).drop_last() =~= bytes@.take(j as int));
        h = h.wrapping_mul(31).wrapping_add(bytes[j] as u64);
        j = j + 1;
    }
    assert(bytes@.take(j as int) =~= bytes@);
    h
}

impl ProtoLocation {
    /// A special location used to indicate an unknown position.
    pub fn unknown() -> (r: Self)
        ensures
            r@.root_instance_id == 0,
            r@.path.len() == 0,
    {
        Self { root_type_id: type_id_of::<()>(), root_instance_id: 0, path: Vec::new() }
    }

    /// Creates a new location from a protobuffer object: its type, its address and an empty
    /// path. Its instance id is the object's address, which is never zero, so the location is
    /// never the unknown one.
    pub fn new<T: 'static>(proto_obj: &T) -> (r: Self)
        ensures
            r@.path.len() == 0,
            r@.root_instance_id != 0,
    {
        let root_type_id = type_id_of::<T>();
        let root_instance_id = address_of(proto_obj);
        Self { root_type_id, root_instance_id, path: Vec::new() }
    }

    /// Returns the type ID of the root protobuf message.
    pub fn root_type_id(&self) -> (r: TypeId)
        ensures
            r == self@.root_type_id,
    {
        self.root_type_id
    }

    /// Returns the instance ID of the root protobuf message.
    pub fn root_instance_id(&self) -> (r: u64)
        ensures
            r == self@.root_instance_id,
    {
        self.root_instance_id
    }

    /// Returns the path components for this location
    pub fn path(&self) -> (r: &[PathComponent])
        ensures
            r@.map_values(|c: PathComponent| c@) == self@.path,
    {
        self.path.as_slice()
    }

    /// A copy of this location with `component` added at the end of its path.
    fn extended(&self, component: PathComponent) -> (r: Self)
        ensures
            r@ == (ProtoLocationView { path: self@.path.push(component@), ..self@ }),
    {
        let mut path: Vec<PathComponent> = Vec::new();
        let mut i: usize = 0;
        while i < self.path.len()
            invariant
                i <= self.path@.len(),
                path@.len() == i,
                forall|k: int| 0 <= k < i ==> #[trigger] path@[k]@ == self.path@[k]@,
            decreases self.path@.len() - i,
        {
            path.push(self.path[i].duplicate());
            i = i + 1;
        }
        let ghost before = path@;
        path.push(component);
        let r = Self { root_type_id: self.root_type_id, root_instance_id: self.root_instance_id, path };
        assert(r@.path =~= self@.path.push(component@));
        r
    }

    /// Create a new ProtoLocation that includes a field path component
    pub fn field(&self, field_name: &str) -> (r: Self)
        ensures
            r@ == (ProtoLocationView {
                path: self@.path.push(PathComponentView::Field(field_name@)),
                ..self@
            }),
    {
        self.extended(PathComponent::Field(String::from_str(field_name)))
    }

    /// Create a new ProtoLocation that includes an indexed field path component.
    /// The field name must not be empty, as that would be invalid in a protobuf message.
    pub fn indexed_field(&self, field_name: &str, index: usize) -> (r: Self)
        requires
            field_name@.len() > 0,
        ensures
            r@ == (ProtoLocationView {
                path: self@.path.push(PathComponentView::IndexedField(field_name@, index)),
                ..self@
            }),
    {
        self.extended(PathComponent::IndexedField(String::from_str(field_name), index))
    }

    /// Returns the full path string representation
    pub fn path_string(&self) -> (r: String)
        ensures
            r@ == path_text(self@.path),
    {
        let mut result = String::new();
        let mut i: usize = 0;
        while i < self.path.len()
            invariant
                i <= self.path@.len(),
                result@ == path_text(self@.path.take(i as int)),
            decreases self.path@.len() - i,
        {
            let part = self.path[i].to_string();
            result.append(part.as_str());
            assert(self@.path.take(i + 1).drop_last() =~= self@.path.take(i as int));
            i = i + 1;
        }
        assert(self@.path.take(i as int) =~= self@.path);
        result
    }

    /// Whether this location is the same location as `other`: same root type, same root
    /// instance and the same path.
    pub fn same_as(&self, other: &ProtoLocation) -> (r: bool)
        ensures
            r == (self@ == other@),
    {
        if !same_type_id(&self.root_type_id, &other.root_type_id) {
            return false;
        }
        if self.root_instance_id != other.root_instance_id {
            return false;
        }
        if self.path.len() != other.path.len() {
            assert(self@.path.len() != other@.path.len());
            return false;
        }
        let mut i: usize = 0;
        while i < self.path.len()
            invariant
                i <= self.path@.len(),
                self.path@.len() == other.path@.len(),
                forall|k: int| 0 <= k < i ==> #[trigger] self.path@[k]@ == other.path@[k]@,
            decreases self.path@.len() - i,
        {
            if !self.path[i].same_as(&other.path[i]) {
                assert(self@.path[i as int] != other@.path[i as int]);
                return false;
            }
            i = i + 1;
        }
        assert(self@.path =~= other@.path);
        true
    }

    /// The display text of this location.
    pub fn to_string(&self) -> (r: String)
        ensures
            self@.root_instance_id == 0 && self@.path.len() == 0 ==> r@ == seq![
                'u', 'n', 'k', 'n', 'o', 'w', 'n', ' ', 'p', 'r', 'o', 't', 'o', ' ',
                'l', 'o', 'c', 'a', 't', 'i', 'o', 'n'],
            !(self@.root_instance_id == 0 && self@.path.len() == 0) ==> exists|d: Seq<char>|
                r@ == seq!['p', 'r', 'o', 't', 'o', ' ', 't', 'y', 'p', 'e', ' '] + d + seq![
                    ' ', 'i', 'n', 's', 't', 'a', 'n', 'c', 'e', ' ', '0', 'x']
                    + hex_text(self@.root_instance_id as nat) + path_text(self@.path),
    {
        if self.is_unknown() {
            proof {
                reveal_strlit("unknown proto location");
            }
            let r = String::from_str("unknown proto location");
            assert(r@ =~= seq![
                'u', 'n', 'k', 'n', 'o', 'w', 'n', ' ', 'p', 'r', 'o', 't', 'o', ' ',
                'l', 'o', 'c', 'a', 't', 'i', 'o', 'n']);
            r
        } else {
            let mut r = String::from_str("proto type ");
            let d = type_id_text(&self.root_type_id);
            r.append(d.as_str());
            r.append(" instance 0x");
            push_hex(&mut r, self.root_instance_id);
            let p = self.path_string();
            r.append(p.as_str());
            proof {
                reveal_strlit("proto type ");
                reveal_strlit(" instance 0x");
            }
            assert(r@ =~= seq!['p', 'r', 'o', 't', 'o', ' ', 't', 'y', 'p', 'e', ' '] + d@ + seq![
                ' ', 'i', 'n', 's', 't', 'a', 'n', 'c', 'e', ' ', '0', 'x'] + hex_text(
                self@.root_instance_id as nat,
            ) + path_text(self@.path));
            r
        }
    }
}

impl Default for ProtoLocation {
    /// The default proto location is the unknown one.
    fn default() -> (r: Self)
        ensures
            r@.root_instance_id == 0,
            r@.path.len() == 0,
    {
        Self::unknown()
    }
}

impl Location for ProtoLocation {
    open spec fn location_view(&self) -> LocationView {
        LocationView::Proto(self@)
    }

    /// A proto location is unknown when it has no instance and no path.
    fn is_unknown(&self) -> (r: bool)
        ensures
            r == (self@.root_instance_id == 0 && self@.path.len() == 0),
    {
        self.root_instance_id == 0 && self.path.len() == 0
    }

    /// Combines the instance id and every path component into a hash, multiplying by 31 and
    /// adding at each step (wrapping).
    fn location_hash(&self) -> (r: u64)
        ensures
            r == proto_location_hash(self@),
    {
        let mut hash: u64 = 17u64.wrapping_mul(31).wrapping_add(self.root_instance_id);
        let mut i: usize = 0;
        while i < self.path.len()
            invariant
                i <= self.path@.len(),
                hash == path_hash(hash_step(17, self@.root_instance_id), self@.path.take(i as int)),
            decreases self.path@.len() - i,
        {
            assert(self@.path.take(i + 1).drop_last() =~= self@.path.take(i as int));
            match &self.path[i] {
                PathComponent::Field(name) => {
                    hash = hash.wrapping_mul(31).wrapping_add(1);
                    let name_h = name_hash(name);
                    hash = hash.wrapping_mul(31).wrapping_add(name_h);
                },
                PathComponent::IndexedField(name, index) => {
                    hash = hash.wrapping_mul(31).wrapping_add(2);
                    let name_h = name_hash(name);
                    hash = hash.wrapping_mul(31).wrapping_add(name_h);
                    hash = hash.wrapping_mul(31).wrapping_add(*index as u64);
                },
            }
            i = i + 1;
        }
        assert(self@.path.take(i as int) =~= self@.path);
        hash
    }

    fn box_clone(&self) -> (r: BoxedLocation)
        ensures
            r matches BoxedLocation::Proto(p) && p@ == self@,
    {
        BoxedLocation::Proto(self.extended_none())
    }

    /// A proto location equals another proto location with the same root and path.
    fn equals(&self, other: &BoxedLocation) -> (r: bool)
        ensures
            r == (other matches BoxedLocation::Proto(p) && p@ == self@),
    {
        match other {
            BoxedLocation::Proto(p) => self.same_as(p),
            _ => false,
        }
    }
}

impl ProtoLocation {
    /// A copy of this location.
    pub fn duplicate(&self) -> (r: Self)
        ensures
            r@ == self@,
    {
        self.extended_none()
    }

    fn extended_none(&self) -> (r: Self)
        ensures
            r@ == self@,
    {
        let mut path: Vec<PathComponent> = Vec::new();
        let mut i: usize = 0;
        while i < self.path.len()
            invariant
                i <= self.path@.len(),
                path@.len() == i,
                forall|k: int| 0 <= k < i ==> #[trigger] path@[k]@ == self.path@[k]@,
            decreases self.path@.len() - i,
        {
            path.push(self.path[i].duplicate());
            i = i + 1;
        }
        let r = Self { root_type_id: self.root_type_id, root_instance_id: self.root_instance_id, path };
        assert(r@.path =~= self@.path);
        r
    }
}

/// Going one component further adds that component's text to the end of the path string:
/// `.name` for a field, `.name[index]` for an element of a repeated field.
pub proof fn lemma_deeper_path_text(p: Seq<PathComponentView>, c: PathComponentView)
    ensures
        path_text(p.push(c)) == path_text(p) + component_text(c),
{
    assert(p.push(c).drop_last() =~= p);
}

/// A location that goes one field further is a different location.
pub proof fn lemma_deeper_location_differs(v: ProtoLocationView, c: PathComponentView)
    ensures
        (ProtoLocationView { path: v.path.push(c), ..v }) != v,
{
    assert((ProtoLocationView { path: v.path.push(c), ..v }).path.len() == v.path.len() + 1);
}

/// One hash step keeps the parity of the sum of the hash and the number added.
proof fn lemma_hash_step_parity(h: u64, x: u64)
    ensures
        hash_step(h, x) % 2 == (h + x) % 2,
{
    let p = h as int * 31;
    vstd::arithmetic::div_mod::lemma_mod_mod(p, 2, 0x8000_0000_0000_0000);
    assert(2 * 0x8000_0000_0000_0000int == 0x1_0000_0000_0000_0000int);
    let m = vstd::wrapping::u64_specs::wrapping_mul(h, 31);
    assert(m as int == p % 0x1_0000_0000_0000_0000);
    assert(m % 2 == p % 2);
    assert(p % 2 == h % 2) by (nonlinear_arith)
        requires
            p == h as int * 31,
    ;
}

/// The path hash after one more field is two hash steps on from the path's hash.
proof fn lemma_path_hash_field(h0: u64, p: Seq<PathComponentView>, name: Seq<char>)
    ensures
        path_hash(h0, p.push(PathComponentView::Field(name))) == hash_step(
            hash_step(path_hash(h0, p), 1),
            bytes_hash(vstd::utf8::encode_utf8(name)),
        ),
{
    assert(p.push(PathComponentView::Field(name)).drop_last() =~= p);
}

/// Two hash steps, the second adding an even number, turn the parity of a hash.
proof fn lemma_two_steps_differ(h: u64, b: u64)
    requires
        b % 2 == 0,
    ensures
        hash_step(hash_step(h, 1), b) != h,
{
    let h1 = hash_step(h, 1);
    lemma_hash_step_parity(h, 1);
    lemma_hash_step_parity(h1, b);
}

/// Adding a field whose name's bytes hash to an even number changes a location's hash: one
/// step multiplies the hash by 31 and adds 1, which turns its parity, and the name's even
/// hash keeps it turned. (For a name whose bytes hash to an odd number, wrapping arithmetic
/// lets some hashes come back to themselves.)
pub proof fn lemma_field_changes_hash(v: ProtoLocationView, name: Seq<char>)
    requires
        bytes_hash(vstd::utf8::encode_utf8(name)) % 2 == 0,
    ensures
        proto_location_hash(
            ProtoLocationView { path: v.path.push(PathComponentView::Field(name)), ..v },
        ) != proto_location_hash(v),
{
    let h0 = hash_step(17, v.root_instance_id);
    lemma_path_hash_field(h0, v.path, name);
    lemma_two_steps_differ(path_hash(h0, v.path), bytes_hash(vstd::utf8::encode_utf8(name)));
}

} // verus!

//! The symbol table: the named entities of a plan (relations, schemas, sources, extension
//! spaces, functions, ...) in the order they were defined, with where each was defined.

use vstd::prelude::*;
use vstd::set_lib::{lemma_int_range, lemma_len_subset, lemma_map_size, set_int_range};

use crate::textplan::common::location::{
    lemma_locations_equal_iff_views,
    BoxedLocation,
    Location,
    LocationView,
};
use crate::textplan::common::text_format::{decimal, lemma_decimal_digits, push_decimal};
use crate::proto::Relation;
use crate::textplan::common::structured_symbol_data::{
    ExtensionSpaceData,
    FunctionData,
    RelationData,
    SchemaData,
};
use crate::textplan::common::text_ops::{copy_texts, texts_view};
use crate::textplan::common::text_scan::text_equals;

verus! {

/// The kind of entity a symbol names.
#[derive(Debug, Clone, Copy, PartialEq, Eq, Structural)]
pub enum SymbolType {
    Unknown,
    ExtensionSpace,
    Function,
    PlanRelation,
    Relation,
    Schema,
    SchemaColumn,
    Source,
    SourceDetail,
    Field,
    Root,
    Measure,
}

/// The kind of a relation symbol.
#[derive(Debug, Clone, Copy, PartialEq, Eq, Structural)]
pub enum RelationType {
    Unknown,
    Read,
    Project,
    Join,
    Cross,
    Fetch,
    Aggregate,
    Sort,
    Filter,
    SetOperation,
    HashJoin,
    MergeJoin,
    Exchange,
    Ddl,
    Write,
    ExtensionLeaf,
    ExtensionSingle,
    ExtensionMulti,
    Root,
}

/// The kind of a source symbol.
#[derive(Debug, Clone, Copy, PartialEq, Eq, Structural)]
pub enum SourceType {
    Unknown,
    LocalFiles,
    NamedTable,
    VirtualTable,
    ExtensionTable,
    IcebergTable,
}

/// What further distinguishes a symbol of a given kind: the kind of a relation or of a
/// source, or a piece of text (such as the type of a schema column).
#[derive(Debug)]
pub enum SymbolSubtype {
    Relation(RelationType),
    Source(SourceType),
    Text(String),
}

/// The mathematical value of a subtype.
pub ghost enum SubtypeView {
    Relation(RelationType),
    Source(SourceType),
    Text(Seq<char>),
}

impl View for SymbolSubtype {
    type V = SubtypeView;

    open spec fn view(&self) -> SubtypeView {
        match self {
            SymbolSubtype::Relation(t) => SubtypeView::Relation(*t),
            SymbolSubtype::Source(t) => SubtypeView::Source(*t),
            SymbolSubtype::Text(s) => SubtypeView::Text(s@),
        }
    }
}

/// The value of an optional subtype.
pub open spec fn subtype_view(s: Option<SymbolSubtype>) -> Option<SubtypeView> {
    match s {
        Some(t) => Some(t@),
        None => None,
    }
}

impl SymbolSubtype {
    /// A copy of this subtype.
    pub fn duplicate(&self) -> (r: Self)
        ensures
            r@ == self@,
    {
        match self {
            SymbolSubtype::Relation(t) => SymbolSubtype::Relation(*t),
            SymbolSubtype::Source(t) => SymbolSubtype::Source(*t),
            SymbolSubtype::Text(s) => SymbolSubtype::Text(s.clone()),
        }
    }
}

/// A copy of an optional subtype.
fn duplicate_subtype(s: &Option<SymbolSubtype>) -> (r: Option<SymbolSubtype>)
    ensures
        subtype_view(r) == subtype_view(*s),
{
    match s {
        Some(t) => Some(t.duplicate()),
        None => None,
    }
}

/// The structured data that a symbol of some kinds carries.
#[derive(Debug)]
pub enum SymbolBlob {
    ExtensionSpace(ExtensionSpaceData),
    Schema(SchemaData),
    Function(FunctionData),
    Names(Vec<String>),
    Relation(RelationData),
}

/// The mathematical value of a symbol's structured data.
pub ghost enum BlobView {
    ExtensionSpace(u32),
    Schema(u32),
    Function { name: Seq<char>, extension_uri_reference: Option<u32>, anchor: u32 },
    Names(Seq<Seq<char>>),
    Relation {
        pipeline_start: Option<usize>,
        continuing_pipeline: Option<usize>,
        new_pipelines: Seq<usize>,
        field_references: Seq<usize>,
        generated_field_references: Seq<usize>,
        output_field_references: Seq<usize>,
        relation: Relation,
        root_names: Seq<Seq<char>>,
    },
}

impl View for SymbolBlob {
    type V = BlobView;

    open spec fn view(&self) -> BlobView {
        match self {
            SymbolBlob::ExtensionSpace(d) => BlobView::ExtensionSpace(d.spec_anchor_reference()),
            SymbolBlob::Schema(d) => BlobView::Schema(d.spec_anchor_reference()),
            SymbolBlob::Function(d) => BlobView::Function {
                name: d.name@,
                extension_uri_reference: d.extension_uri_reference,
                anchor: d.anchor,
            },
            SymbolBlob::Names(v) => BlobView::Names(texts_view(v@)),
            SymbolBlob::Relation(d) => BlobView::Relation {
                pipeline_start: d.pipeline_start,
                continuing_pipeline: d.continuing_pipeline,
                new_pipelines: d.new_pipelines@,
                field_references: d.field_references@,
                generated_field_references: d.generated_field_references@,
                output_field_references: d.output_field_references@,
                relation: d.relation,
                root_names: texts_view(d.root_names@),
            },
        }
    }
}

/// The value of an optional blob.
pub open spec fn blob_view(b: Option<SymbolBlob>) -> Option<BlobView> {
    match b {
        Some(d) => Some(d@),
        None => None,
    }
}

impl SymbolBlob {
    /// A copy of this data.
    pub fn duplicate(&self) -> (r: Self)
        ensures
            r@ == self@,
    {
        match self {
            SymbolBlob::ExtensionSpace(d) => SymbolBlob::ExtensionSpace(
                ExtensionSpaceData::new(d.anchor_reference()),
            ),
            SymbolBlob::Schema(d) => SymbolBlob::Schema(d.duplicate()),
            SymbolBlob::Function(d) => SymbolBlob::Function(d.duplicate()),
            SymbolBlob::Names(v) => SymbolBlob::Names(copy_texts(v.as_slice())),
            SymbolBlob::Relation(d) => SymbolBlob::Relation(d.duplicate()),
        }
    }
}

/// A copy of an optional blob.
fn duplicate_blob(b: &Option<SymbolBlob>) -> (r: Option<SymbolBlob>)
    ensures
        blob_view(r) == blob_view(*b),
{
    match b {
        Some(d) => Some(d.duplicate()),
        None => None,
    }
}

/// A named entity of a plan.
#[derive(Debug)]
pub struct SymbolInfo {
    name: String,
    location: BoxedLocation,
    symbol_type: SymbolType,
    subtype: Option<SymbolSubtype>,
    blob: Option<SymbolBlob>,
}

/// The mathematical value of a symbol.
pub ghost struct SymbolInfoView {
    pub name: Seq<char>,
    pub location: LocationView,
    pub symbol_type: SymbolType,
    pub subtype: Option<SubtypeView>,
    pub blob: Option<BlobView>,
}

impl View for SymbolInfo {
    type V = SymbolInfoView;

    closed spec fn view(&self) -> SymbolInfoView {
        SymbolInfoView {
            name: self.name@,
            location: self.location@,
            symbol_type: self.symbol_type,
            subtype: subtype_view(self.subtype),
            blob: blob_view(self.blob),
        }
    }
}

impl SymbolInfo {
    /// Creates a symbol.
    pub fn new(
        name: String,
        location: BoxedLocation,
        symbol_type: SymbolType,
        subtype: Option<SymbolSubtype>,
        blob: Option<SymbolBlob>,
    ) -> (r: Self)
        ensures
            r@ == (SymbolInfoView {
                name: name@,
                location: location@,
                symbol_type,
                subtype: subtype_view(subtype),
                blob: blob_view(blob),
            }),
    {
        SymbolInfo { name, location, symbol_type, subtype, blob }
    }

    /// The symbol's name.
    pub fn name(&self) -> (r: &str)
        ensures
            r@ == self@.name,
    {
        self.name.as_str()
    }

    /// Where the symbol was defined.
    pub fn location(&self) -> (r: &BoxedLocation)
        ensures
            r@ == self@.location,
    {
        &self.location
    }

    /// The kind of entity the symbol names.
    pub fn symbol_type(&self) -> (r: SymbolType)
        ensures
            r == self@.symbol_type,
    {
        self.symbol_type
    }

    /// What further distinguishes the symbol, if anything.
    pub fn subtype(&self) -> (r: &Option<SymbolSubtype>)
        ensures
            subtype_view(*r) == self@.subtype,
    {
        &self.subtype
    }

    /// The structured data the symbol carries, if any.
    pub fn blob(&self) -> (r: &Option<SymbolBlob>)
        ensures
            blob_view(*r) == self@.blob,
    {
        &self.blob
    }

    /// A copy of this symbol.
    pub fn duplicate(&self) -> (r: Self)
        ensures
            r@ == self@,
    {
        let location = self.location.box_clone();
        proof {
            lemma_locations_equal_iff_views(location, self.location);
        }
        SymbolInfo {
            name: self.name.clone(),
            location,
            symbol_type: self.symbol_type,
            subtype: duplicate_subtype(&self.subtype),
            blob: duplicate_blob(&self.blob),
        }
    }
}

/// A copy of an optional symbol.
pub fn duplicate_symbol(s: &Option<SymbolInfo>) -> (r: Option<SymbolInfo>)
    ensures
        r.is_some() == s.is_some(),
        r.is_some() ==> r.unwrap()@ == s.unwrap()@,
{
    match s {
        Some(info) => Some(info.duplicate()),
        None => None,
    }
}

/// The value of an optional symbol.
pub open spec fn symbol_view_opt(s: Option<SymbolInfo>) -> Option<SymbolInfoView> {
    match s {
        Some(info) => Some(info@),
        None => None,
    }
}

/// The value of an optional reference to a symbol.
pub open spec fn symbol_ref_view_opt(s: Option<&SymbolInfo>) -> Option<SymbolInfoView> {
    match s {
        Some(info) => Some(info@),
        None => None,
    }
}

/// A reference to an optional symbol's content.
pub fn symbol_as_ref(s: &Option<SymbolInfo>) -> (r: Option<&SymbolInfo>)
    ensures
        symbol_ref_view_opt(r) == symbol_view_opt(*s),
{
    match s {
        Some(info) => Some(info),
        None => None,
    }
}

/// Whether some symbol of `symbols` is named `name`.
pub open spec fn is_symbol_name(symbols: Seq<SymbolInfoView>, name: Seq<char>) -> bool {
    exists|i: int| 0 <= i < symbols.len() && #[trigger] symbols[i].name == name
}

/// The position of the first symbol named `name`, if some symbol has that name.
pub open spec fn name_index(symbols: Seq<SymbolInfoView>, name: Seq<char>) -> Option<int>
    decreases symbols.len(),
{
    if symbols.len() == 0 {
        None
    } else {
        match name_index(symbols.drop_last(), name) {
            Some(i) => Some(i),
            None => if symbols.last().name == name {
                Some(symbols.len() - 1)
            } else {
                None
            },
        }
    }
}

/// The first position of a name within a prefix that has it is its first position in the
/// whole list.
pub proof fn lemma_name_index_prefix(symbols: Seq<SymbolInfoView>, name: Seq<char>, n: int)
    requires
        0 < n <= symbols.len(),
        name_index(symbols.take(n), name) is Some,
    ensures
        name_index(symbols, name) == name_index(symbols.take(n), name),
    decreases symbols.len() - n,
{
    if n < symbols.len() {
        assert(symbols.take(n + 1).drop_last() =~= symbols.take(n));
        lemma_name_index_prefix(symbols, name, n + 1);
    } else {
        assert(symbols.take(n) =~= symbols);
    }
}

/// The position of the first symbol of the given kind defined at `location`, if there is one.
pub open spec fn location_index(symbols: Seq<SymbolInfoView>, location: LocationView, symbol_type: SymbolType) -> Option<int>
    decreases symbols.len(),
{
    if symbols.len() == 0 {
        None
    } else {
        match location_index(symbols.drop_last(), location, symbol_type) {
            Some(i) => Some(i),
            None => if symbols.last().location == location && symbols.last().symbol_type == symbol_type {
                Some(symbols.len() - 1)
            } else {
                None
            },
        }
    }
}

/// The position of the first symbol of any kind defined at `location`, if there is one.
pub open spec fn located_index(symbols: Seq<SymbolInfoView>, location: LocationView) -> Option<int>
    decreases symbols.len(),
{
    if symbols.len() == 0 {
        None
    } else {
        match located_index(symbols.drop_last(), location) {
            Some(i) => Some(i),
            None => if symbols.last().location == location {
                Some(symbols.len() - 1)
            } else {
                None
            },
        }
    }
}

/// The first position of a location, of any kind, within a prefix that has it is its first
/// position in the whole list; and it is a position of the list.
pub proof fn lemma_located_index_prefix(symbols: Seq<SymbolInfoView>, location: LocationView, n: int)
    requires
        0 < n <= symbols.len(),
        located_index(symbols.take(n), location) is Some,
    ensures
        located_index(symbols, location) == located_index(symbols.take(n), location),
    decreases symbols.len() - n,
{
    if n < symbols.len() {
        assert(symbols.take(n + 1).drop_last() =~= symbols.take(n));
        lemma_located_index_prefix(symbols, location, n + 1);
    } else {
        assert(symbols.take(n) =~= symbols);
    }
}

/// The first position of a location, of any kind, is a position of the list.
pub proof fn lemma_located_index_bound(symbols: Seq<SymbolInfoView>, location: LocationView)
    ensures
        located_index(symbols, location) matches Some(i) ==> 0 <= i < symbols.len(),
    decreases symbols.len(),
{
    if symbols.len() > 0 {
        lemma_located_index_bound(symbols.drop_last(), location);
    }
}

/// The first position of a location within a prefix that has it is its first position in
/// the whole list.
pub proof fn lemma_location_index_prefix(symbols: Seq<SymbolInfoView>, location: LocationView, t: SymbolType, n: int)
    requires
        0 < n <= symbols.len(),
        location_index(symbols.take(n), location, t) is Some,
    ensures
        location_index(symbols, location, t) == location_index(symbols.take(n), location, t),
    decreases symbols.len() - n,
{
    if n < symbols.len() {
        assert(symbols.take(n + 1).drop_last() =~= symbols.take(n));
        lemma_location_index_prefix(symbols, location, t, n + 1);
    } else {
        assert(symbols.take(n) =~= symbols);
    }
}

/// The first position of a location is a position of the list.
pub proof fn lemma_location_index_bound(symbols: Seq<SymbolInfoView>, location: LocationView, t: SymbolType)
    ensures
        location_index(symbols, location, t) matches Some(i) ==> 0 <= i < symbols.len(),
    decreases symbols.len(),
{
    if symbols.len() > 0 {
        lemma_location_index_bound(symbols.drop_last(), location, t);
    }
}

/// Whether `after` keeps every symbol of `before` in its place with its name, kind,
/// location and subtype, and only adds symbols after them.
pub open spec fn keeps_symbols(before: Seq<SymbolInfoView>, after: Seq<SymbolInfoView>) -> bool {
    &&& before.len() <= after.len()
    &&& forall|i: int|
        0 <= i < before.len() ==> {
            &&& #[trigger] after[i].name == before[i].name
            &&& after[i].symbol_type == before[i].symbol_type
            &&& after[i].location == before[i].location
            &&& after[i].subtype == before[i].subtype
        }
}

/// A symbol with its data replaced.
pub open spec fn with_blob(s: SymbolInfoView, blob: Option<BlobView>) -> SymbolInfoView {
    SymbolInfoView { blob, ..s }
}

/// The name `get_unique_name` derives from `base` with the number `k`.
pub open spec fn numbered_name(base: Seq<char>, k: int) -> Seq<char> {
    base + decimal(k as nat)
}

/// Whether `k` is the number that makes `base` free: the smallest from 2 up whose numbered
/// name no symbol has.
pub open spec fn is_first_free_number(symbols: Seq<SymbolInfoView>, base: Seq<char>, k: int) -> bool {
    &&& 2 <= k
    &&& !is_symbol_name(symbols, numbered_name(base, k))
    &&& forall|j: int| 2 <= j < k ==> is_symbol_name(symbols, #[trigger] numbered_name(base, j))
}

/// The name `get_unique_name` gives for `base`: `base` itself when no symbol has it, else
/// `base` with the smallest number from 2 up that no symbol has.
pub open spec fn unique_name_for(symbols: Seq<SymbolInfoView>, base: Seq<char>) -> Seq<char> {
    if !is_symbol_name(symbols, base) {
        base
    } else {
        numbered_name(base, choose|k: int| is_first_free_number(symbols, base, k))
    }
}

/// There is one first free number only.
proof fn lemma_first_free_number_unique(
    symbols: Seq<SymbolInfoView>,
    base: Seq<char>,
    a: int,
    b: int,
)
    requires
        is_first_free_number(symbols, base, a),
        is_first_free_number(symbols, base, b),
    ensures
        a == b,
{
    if a < b {
        assert(is_symbol_name(symbols, numbered_name(base, a)));
    } else if b < a {
        assert(is_symbol_name(symbols, numbered_name(base, b)));
    }
}

/// The symbols of a plan, in the order they were defined.
#[derive(Debug)]
pub struct SymbolTable {
    symbols: Vec<SymbolInfo>,
}

impl View for SymbolTable {
    type V = Seq<SymbolInfoView>;

    closed spec fn view(&self) -> Seq<SymbolInfoView> {
        self.symbols@.map_values(|s: SymbolInfo| s@)
    }
}

/// A numbered name is a different name for every number.
proof fn lemma_numbered_name_injective(base: Seq<char>, a: int, b: int)
    requires
        0 <= a,
        0 <= b,
        numbered_name(base, a) == numbered_name(base, b),
    ensures
        a == b,
{
    assert(numbered_name(base, a).skip(base.len() as int) =~= decimal(a as nat));
    assert(numbered_name(base, b).skip(base.len() as int) =~= decimal(b as nat));
    lemma_decimal_digits(a as nat);
    lemma_decimal_digits(b as nat);
}

/// If the numbered names from 2 to `k` are all taken, there are at least `k - 1` symbols.
proof fn lemma_taken_numbers_bound(symbols: Seq<SymbolInfoView>, base: Seq<char>, k: int)
    requires
        2 <= k,
        forall|j: int| 2 <= j <= k ==> is_symbol_name(symbols, #[trigger] numbered_name(base, j)),
    ensures
        k - 1 <= symbols.len(),
{
    let names = symbols.map_values(|s: SymbolInfoView| s.name);
    let taken = names.to_set();
    let range = set_int_range(2, k + 1);
    let f = |j: int| numbered_name(base, j);
    let candidates = range.map(f);
    lemma_int_range(2, k + 1);
    assert(vstd::relations::injective_on(f, range)) by {
        assert forall|a: int, b: int|
            range.contains(a) && range.contains(b) && #[trigger] f(a) == #[trigger] f(b) implies a
            == b by {
            lemma_numbered_name_injective(base, a, b);
        }
    }
    lemma_map_size(range, candidates, f);
    assert(candidates.subset_of(taken)) by {
        assert forall|n: Seq<char>| candidates.contains(n) implies taken.contains(n) by {
            let j = choose|j: int| range.contains(j) && f(j) == n;
            assert(is_symbol_name(symbols, numbered_name(base, j)));
            let i = choose|i: int| 0 <= i < symbols.len() && #[trigger] symbols[i].name == n;
            assert(names[i] == n);
        }
    }
    names.lemma_cardinality_of_set();
    lemma_len_subset(candidates, taken);
}

impl SymbolTable {
    /// Creates an empty symbol table.
    pub fn new() -> (r: Self)
        ensures
            r@ == Seq::<SymbolInfoView>::empty(),
    {
        let r = SymbolTable { symbols: Vec::new() };
        assert(r@ =~= Seq::<SymbolInfoView>::empty());
        r
    }

    /// A copy of this table.
    pub fn duplicate(&self) -> (r: Self)
        ensures
            r@ == self@,
    {
        let mut symbols: Vec<SymbolInfo> = Vec::new();
        let mut i: usize = 0;
        while i < self.symbols.len()
            invariant
                i <= self.symbols.len(),
                symbols@.map_values(|s: SymbolInfo| s@) == self@.take(i as int),
                self@.len() == self.symbols.len(),
            decreases self.symbols.len() - i,
        {
            let copy = self.symbols[i].duplicate();
            let ghost before = symbols@;
            symbols.push(copy);
            assert(symbols@.map_values(|s: SymbolInfo| s@) =~= before.map_values(
                |s: SymbolInfo| s@,
            ).push(self@[i as int]));
            assert(self@.take(i + 1) =~= self@.take(i as int).push(self@[i as int]));
            i += 1;
        }
        assert(self@.take(self.symbols.len() as int) =~= self@);
        SymbolTable { symbols }
    }

    /// The number of symbols.
    pub fn len(&self) -> (r: usize)
        ensures
            r == self@.len(),
    {
        self.symbols.len()
    }

    /// The symbols, in the order they were defined.
    pub fn symbols(&self) -> (r: &[SymbolInfo])
        ensures
            r@.map_values(|s: SymbolInfo| s@) == self@,
    {
        self.symbols.as_slice()
    }

    /// Adds a symbol at the end of the table and returns a copy of it.
    pub fn define_symbol(
        &mut self,
        name: String,
        location: BoxedLocation,
        symbol_type: SymbolType,
        subtype: Option<SymbolSubtype>,
        blob: Option<SymbolBlob>,
    ) -> (r: SymbolInfo)
        ensures
            r@ == (SymbolInfoView {
                name: name@,
                location: location@,
                symbol_type,
                subtype: subtype_view(subtype),
                blob: blob_view(blob),
            }),
            final(self)@ == old(self)@.push(r@),
    {
        let info = SymbolInfo::new(name, location, symbol_type, subtype, blob);
        let copy = info.duplicate();
        self.symbols.push(info);
        assert(self@ =~= old(self)@.push(copy@));
        copy
    }

    /// The position of the first symbol named `name`, if there is one.
    pub fn index_of_name(&self, name: &str) -> (r: Option<usize>)
        ensures
            match r {
                Some(i) => name_index(self@, name@) == Some(i as int),
                None => name_index(self@, name@) is None,
            },
    {
        let mut i: usize = 0;
        while i < self.symbols.len()
            invariant
                i <= self.symbols.len(),
                self@.len() == self.symbols.len(),
                name_index(self@.take(i as int), name@) is None,
            decreases self.symbols.len() - i,
        {
            let info = &self.symbols[i];
            assert(self@[i as int] == info@);
            assert(self@.take(i as int + 1).drop_last() =~= self@.take(i as int));
            if text_equals(info.name.as_str(), name) {
                proof {
                    lemma_name_index_prefix(self@, name@, i as int + 1);
                }
                return Some(i);
            }
            i += 1;
        }
        assert(self@.take(i as int) =~= self@);
        None
    }

    /// The position of the first symbol of the given kind defined at `location`, if there is
    /// one.
    pub fn index_of_location_and_type(&self, location: &BoxedLocation, symbol_type: SymbolType) -> (r: Option<usize>)
        ensures
            match r {
                Some(i) => location_index(self@, location@, symbol_type) == Some(i as int),
                None => location_index(self@, location@, symbol_type) is None,
            },
    {
        let mut i: usize = 0;
        while i < self.symbols.len()
            invariant
                i <= self.symbols.len(),
                self@.len() == self.symbols.len(),
                location_index(self@.take(i as int), location@, symbol_type) is None,
            decreases self.symbols.len() - i,
        {
            let info = &self.symbols[i];
            assert(self@[i as int] == info@);
            assert(self@.take(i as int + 1).drop_last() =~= self@.take(i as int));
            let same_place = info.location.equals(location);
            proof {
                lemma_locations_equal_iff_views(info.location, *location);
            }
            if same_place && info.symbol_type == symbol_type {
                proof {
                    lemma_location_index_prefix(self@, location@, symbol_type, i as int + 1);
                }
                return Some(i);
            }
            i += 1;
        }
        assert(self@.take(i as int) =~= self@);
        None
    }

    /// The position of the first symbol of any kind defined at `location`, if there is one.
    pub fn index_of_location(&self, location: &BoxedLocation) -> (r: Option<usize>)
        ensures
            match r {
                Some(i) => located_index(self@, location@) == Some(i as int),
                None => located_index(self@, location@) is None,
            },
    {
        let mut i: usize = 0;
        while i < self.symbols.len()
            invariant
                i <= self.symbols.len(),
                self@.len() == self.symbols.len(),
                located_index(self@.take(i as int), location@) is None,
            decreases self.symbols.len() - i,
        {
            let info = &self.symbols[i];
            assert(self@[i as int] == info@);
            assert(self@.take(i as int + 1).drop_last() =~= self@.take(i as int));
            let same_place = info.location.equals(location);
            proof {
                lemma_locations_equal_iff_views(info.location, *location);
            }
            if same_place {
                proof {
                    lemma_located_index_prefix(self@, location@, i as int + 1);
                }
                return Some(i);
            }
            i += 1;
        }
        assert(self@.take(i as int) =~= self@);
        None
    }

    /// Replaces the data of the symbol at position `i`.
    pub fn set_blob(&mut self, i: usize, blob: Option<SymbolBlob>)
        requires
            i < old(self)@.len(),
        ensures
            final(self)@ == old(self)@.update(i as int, with_blob(old(self)@[i as int], blob_view(blob))),
    {
        let old_info = &self.symbols[i];
        assert(old(self)@[i as int] == old_info@);
        let location = old_info.location.box_clone();
        proof {
            lemma_locations_equal_iff_views(location, old_info.location);
        }
        let info = SymbolInfo {
            name: old_info.name.clone(),
            location,
            symbol_type: old_info.symbol_type,
            subtype: duplicate_subtype(&old_info.subtype),
            blob,
        };
        self.symbols.set(i, info);
        assert(self@ =~= old(self)@.update(i as int, with_blob(old(self)@[i as int], blob_view(blob))));
    }

    /// Whether some symbol is named `name`.
    pub fn has_symbol_named(&self, name: &str) -> (r: bool)
        ensures
            r == is_symbol_name(self@, name@),
    {
        match self.lookup_symbol_by_name(name) {
            Some(_) => true,
            None => false,
        }
    }

    /// The first symbol named `name`, if there is one.
    pub fn lookup_symbol_by_name(&self, name: &str) -> (r: Option<&SymbolInfo>)
        ensures
            r.is_none() == !is_symbol_name(self@, name@),
            r matches Some(s) ==> exists|i: int|
                0 <= i < self@.len() && self@[i] == s@ && s@.name == name@ && forall|j: int|
                    0 <= j < i ==> #[trigger] self@[j].name != name@,
    {
        let mut i: usize = 0;
        while i < self.symbols.len()
            invariant
                i <= self.symbols.len(),
                self@.len() == self.symbols.len(),
                forall|j: int| 0 <= j < i ==> #[trigger] self@[j].name != name@,
            decreases self.symbols.len() - i,
        {
            let info = &self.symbols[i];
            assert(self@[i as int] == info@);
            if text_equals(info.name.as_str(), name) {
                assert(self@[i as int].name == name@);
                return Some(info);
            }
            i += 1;
        }
        None
    }

    /// The first symbol of the given kind defined at `location`, if there is one.
    pub fn lookup_symbol_by_location_and_type(
        &self,
        location: &BoxedLocation,
        symbol_type: SymbolType,
    ) -> (r: Option<&SymbolInfo>)
        ensures
            r.is_none() == !(exists|i: int|
                0 <= i < self@.len() && #[trigger] self@[i].location == location@ && self@[i].symbol_type
                    == symbol_type),
            r matches Some(s) ==> exists|i: int|
                0 <= i < self@.len() && self@[i] == s@ && s@.location == location@ && s@.symbol_type
                    == symbol_type && forall|j: int|
                    0 <= j < i ==> !(#[trigger] self@[j].location == location@ && self@[j].symbol_type
                        == symbol_type),
    {
        let mut i: usize = 0;
        while i < self.symbols.len()
            invariant
                i <= self.symbols.len(),
                self@.len() == self.symbols.len(),
                forall|j: int|
                    0 <= j < i ==> !(#[trigger] self@[j].location == location@ && self@[j].symbol_type
                        == symbol_type),
            decreases self.symbols.len() - i,
        {
            let info = &self.symbols[i];
            assert(self@[i as int] == info@);
            if info.symbol_type == symbol_type && info.location.equals(location) {
                proof {
                    lemma_locations_equal_iff_views(info.location, *location);
                }
                assert(self@[i as int].location == location@);
                return Some(info);
            }
            proof {
                lemma_locations_equal_iff_views(info.location, *location);
            }
            i += 1;
        }
        None
    }

    /// A name that no symbol has: `base_name` itself when it is free, else `base_name`
    /// followed by the smallest number from 2 up that makes it free.
    pub fn get_unique_name(&self, base_name: &str) -> (r: String)
        ensures
            r@ == unique_name_for(self@, base_name@),
            !is_symbol_name(self@, r@),
            !is_symbol_name(self@, base_name@) ==> r@ == base_name@,
            is_symbol_name(self@, base_name@) ==> exists|k: int|
                2 <= k && r@ == numbered_name(base_name@, k) && forall|j: int|
                    2 <= j < k ==> is_symbol_name(self@, #[trigger] numbered_name(base_name@, j)),
    {
        if !self.has_symbol_named(base_name) {
            return String::from_str(base_name);
        }
        let mut k: u128 = 2;
        loop
            invariant
                2 <= k <= self@.len() + 2,
                self@.len() == self.symbols.len(),
                is_symbol_name(self@, base_name@),
                forall|j: int|
                    2 <= j < k ==> is_symbol_name(self@, #[trigger] numbered_name(base_name@, j)),
            decreases self@.len() + 2 - k,
        {
            let mut candidate = String::from_str(base_name);
            push_decimal(&mut candidate, k);
            assert(candidate@ =~= numbered_name(base_name@, k as int));
            if !self.has_symbol_named(candidate.as_str()) {
                proof {
                    let k0 = k as int;
                    assert(is_first_free_number(self@, base_name@, k0));
                    let k1 = choose|k: int| is_first_free_number(self@, base_name@, k);
                    lemma_first_free_number_unique(self@, base_name@, k0, k1);
                }
                return candidate;
            }
            proof {
                lemma_taken_numbers_bound(self@, base_name@, k as int);
            }
            k += 1;
        }
    }
}

/// Defining a symbol keeps every name that was taken, and takes the new symbol's name.
pub proof fn lemma_define_takes_name(symbols: Seq<SymbolInfoView>, s: SymbolInfoView, n: Seq<char>)
    ensures
        is_symbol_name(symbols.push(s), s.name),
        is_symbol_name(symbols, n) ==> is_symbol_name(symbols.push(s), n),
{
    assert(symbols.push(s)[symbols.len() as int] == s);
    if is_symbol_name(symbols, n) {
        let i = choose|i: int| 0 <= i < symbols.len() && #[trigger] symbols[i].name == n;
        assert(symbols.push(s)[i] == symbols[i]);
    }
}

/// Once a symbol is defined under a name that no symbol had, looking that name up finds
/// the new symbol: it is the first symbol of that name.
pub proof fn lemma_lookup_finds_defined(symbols: Seq<SymbolInfoView>, s: SymbolInfoView, i: int)
    requires
        !is_symbol_name(symbols, s.name),
        0 <= i < symbols.len() + 1,
        symbols.push(s)[i].name == s.name,
    ensures
        i == symbols.len(),
        symbols.push(s)[i] == s,
{
    if i < symbols.len() {
        assert(symbols.push(s)[i] == symbols[i]);
        assert(is_symbol_name(symbols, s.name));
    }
}

} // verus!

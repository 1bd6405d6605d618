//! The Substrait data that the textplan logic reads and writes, and the exchange of whole
//! plans with their binary and JSON encodings.

use vstd::prelude::*;

use crate::textplan::common::error::TextPlanError;
use crate::textplan::common::text_ops::{concatenated, texts_view};
use crate::textplan::common::text_scan::{find, find_char, has_prefix, lemma_find_char};

verus! {

/// The nullability code of a nullable type (`substrait::proto::type::Nullability::Nullable`).
pub const NULLABILITY_NULLABLE: i32 = 1;

/// The nullability code of a required type (`substrait::proto::type::Nullability::Required`).
pub const NULLABILITY_REQUIRED: i32 = 2;

/// The Substrait types that take no parameter besides their nullability.
#[derive(Debug, Clone, Copy, PartialEq, Eq, Structural)]
pub enum BasicKind {
    Bool,
    I8,
    I16,
    I32,
    I64,
    Fp32,
    Fp64,
    String,
    Binary,
    Timestamp,
    Date,
    Time,
    IntervalYear,
    IntervalDay,
    TimestampTz,
    Uuid,
}

/// The kind of a Substrait type (`substrait::proto::type::Kind`), with its parameters and its
/// nullability code.
#[derive(Debug)]
pub enum Kind {
    Basic { kind: BasicKind, nullability: i32 },
    FixedChar { length: i32, nullability: i32 },
    Varchar { length: i32, nullability: i32 },
    FixedBinary { length: i32, nullability: i32 },
    Decimal { precision: i32, scale: i32, nullability: i32 },
    Struct { types: Vec<Type>, nullability: i32 },
    List { element: Box<Type>, nullability: i32 },
    KeyValueMap { key: Box<Type>, value: Box<Type>, nullability: i32 },
    UserDefined,
    UserDefinedTypeReference,
    IntervalCompound,
    PrecisionTime,
    PrecisionTimestamp,
    PrecisionTimestampTz,
    Alias,
}

/// A Substrait type (`substrait::proto::Type`): a kind, or none.
#[derive(Debug)]
pub struct Type {
    pub kind: Option<Kind>,
}

/// The mathematical value of a type kind.
pub ghost enum KindView {
    Basic(BasicKind, i32),
    FixedChar(i32, i32),
    Varchar(i32, i32),
    FixedBinary(i32, i32),
    Decimal(i32, i32, i32),
    Struct(Seq<TypeView>, i32),
    List(Box<TypeView>, i32),
    KeyValueMap(Box<TypeView>, Box<TypeView>, i32),
    UserDefined,
    UserDefinedTypeReference,
    IntervalCompound,
    PrecisionTime,
    PrecisionTimestamp,
    PrecisionTimestampTz,
    Alias,
}

/// The mathematical value of a type.
pub ghost struct TypeView {
    pub kind: Option<KindView>,
}

/// The values of a sequence of types.
pub open spec fn types_view(s: Seq<Type>) -> Seq<TypeView>
    decreases s,
{
    if s.len() == 0 {
        Seq::empty()
    } else {
        types_view(s.drop_last()).push(type_view(s.last()))
    }
}

/// The value of a type kind.
pub open spec fn kind_view(k: Kind) -> KindView
    decreases k,
{
    match k {
        Kind::Basic { kind, nullability } => KindView::Basic(kind, nullability),
        Kind::FixedChar { length, nullability } => KindView::FixedChar(length, nullability),
        Kind::Varchar { length, nullability } => KindView::Varchar(length, nullability),
        Kind::FixedBinary { length, nullability } => KindView::FixedBinary(length, nullability),
        Kind::Decimal { precision, scale, nullability } => KindView::Decimal(
            precision,
            scale,
            nullability,
        ),
        Kind::Struct { types, nullability } => KindView::Struct(types_view(types@), nullability),
        Kind::List { element, nullability } => KindView::List(
            Box::new(type_view(*element)),
            nullability,
        ),
        Kind::KeyValueMap { key, value, nullability } => KindView::KeyValueMap(
            Box::new(type_view(*key)),
            Box::new(type_view(*value)),
            nullability,
        ),
        Kind::UserDefined => KindView::UserDefined,
        Kind::UserDefinedTypeReference => KindView::UserDefinedTypeReference,
        Kind::IntervalCompound => KindView::IntervalCompound,
        Kind::PrecisionTime => KindView::PrecisionTime,
        Kind::PrecisionTimestamp => KindView::PrecisionTimestamp,
        Kind::PrecisionTimestampTz => KindView::PrecisionTimestampTz,
        Kind::Alias => KindView::Alias,
    }
}

/// The value of a type.
pub open spec fn type_view(t: Type) -> TypeView
    decreases t,
{
    match t.kind {
        Some(k) => TypeView { kind: Some(kind_view(k)) },
        None => TypeView { kind: None },
    }
}

impl View for Type {
    type V = TypeView;

    open spec fn view(&self) -> TypeView {
        type_view(*self)
    }
}

/// A Substrait plan (`substrait::proto::Plan`), carried whole between its encodings.
#[verifier::external_type_specification]
#[verifier::external_body]
pub struct ExPlan(substrait::proto::Plan);

/// The error of a failed protobuf decoding (`prost::DecodeError`).
#[verifier::external_type_specification]
#[verifier::external_body]
pub struct ExDecodeError(prost::DecodeError);

/// The error of a failed protobuf encoding (`prost::EncodeError`).
#[verifier::external_type_specification]
#[verifier::external_body]
pub struct ExEncodeError(prost::EncodeError);

/// The error of a failed JSON conversion (`serde_json::Error`).
#[verifier::external_type_specification]
#[verifier::external_body]
pub struct ExJsonError(serde_json::Error);

/// Whether `prost` decodes these bytes into a `Plan` (they are a well-formed encoding of one
/// whose nesting stays within the decoder's limits).
pub uninterp spec fn is_plan_encoding(bytes: Seq<u8>) -> bool;

/// The plan that `prost` decodes from these bytes, where it decodes one.
pub uninterp spec fn decoded_plan(bytes: Seq<u8>) -> substrait::proto::Plan;

/// Decodes a plan from its protobuf encoding (`<Plan as prost::Message>::decode`): it
/// succeeds exactly on the bytes that encode a plan, and gives the plan they decode to.
#[verifier::external_body]
fn decode_plan(bytes: &[u8]) -> (r: Result<substrait::proto::Plan, prost::DecodeError>)
    ensures
        r is Ok <==> is_plan_encoding(bytes@),
        r matches Ok(p) ==> p == decoded_plan(bytes@),
{
    <substrait::proto::Plan as prost::Message>::decode(bytes)
}

/// The display text of a decoding error (`format!("{}", e)`).
#[verifier::external_body]
fn decode_error_text(e: &prost::DecodeError) -> String {
    format!("{}", e)
}

/// The bytes that `prost` encodes a plan into (`Message::encode_raw`).
pub uninterp spec fn plan_encoding(plan: substrait::proto::Plan) -> Seq<u8>;

/// Encodes a plan into `buf` (`<Plan as prost::Message>::encode`): when the buffer can take
/// the encoding (a `Vec` takes up to `isize::MAX` bytes), it appends it and succeeds;
/// otherwise it leaves the buffer as it was and fails.
#[verifier::external_body]
fn encode_plan(plan: &substrait::proto::Plan, buf: &mut Vec<u8>) -> (r: Result<(), prost::EncodeError>)
    ensures
        r is Ok <==> plan_encoding(*plan).len() <= isize::MAX - old(buf)@.len(),
        r is Ok ==> final(buf)@ == old(buf)@ + plan_encoding(*plan),
        r is Err ==> final(buf)@ == old(buf)@,
{
    prost::Message::encode(plan, buf)
}

/// The display text of an encoding error (`format!("{}", e)`).
#[verifier::external_body]
fn encode_error_text(e: &prost::EncodeError) -> String {
    format!("{}", e)
}

/// Load a binary protobuf into a Plan
pub fn load_plan_from_binary(bytes: &[u8]) -> (r: Result<substrait::proto::Plan, TextPlanError>)
    ensures
        r is Ok <==> is_plan_encoding(bytes@),
        r matches Ok(p) ==> p == decoded_plan(bytes@),
        r matches Err(e) ==> e matches TextPlanError::ProtobufError(m) && has_prefix(m@, "Failed to decode Plan: "@),
{
    match decode_plan(bytes) {
        Ok(plan) => Ok(plan),
        Err(e) => {
            let text = decode_error_text(&e);
            let m = concatenated("Failed to decode Plan: ", text.as_str());
            proof {
                reveal_strlit("Failed to decode Plan: ");
                assert(m@.take("Failed to decode Plan: "@.len() as int) =~= "Failed to decode Plan: "@);
            }
            Err(TextPlanError::ProtobufError(m))
        },
    }
}

/// Save a Plan to binary protobuf format
pub fn save_plan_to_binary(plan: &substrait::proto::Plan) -> (r: Result<Vec<u8>, TextPlanError>)
    ensures
        r is Ok <==> plan_encoding(*plan).len() <= isize::MAX,
        r matches Ok(b) ==> b@ == plan_encoding(*plan),
        r matches Err(e) ==> e matches TextPlanError::ProtobufError(m) && has_prefix(m@, "Failed to encode Plan: "@),
{
    let mut buf: Vec<u8> = Vec::new();
    assert(buf@ + plan_encoding(*plan) =~= plan_encoding(*plan));
    match encode_plan(plan, &mut buf) {
        Ok(()) => Ok(buf),
        Err(e) => {
            let text = encode_error_text(&e);
            let m = concatenated("Failed to encode Plan: ", text.as_str());
            proof {
                reveal_strlit("Failed to encode Plan: ");
                assert(m@.take("Failed to encode Plan: "@.len() as int) =~= "Failed to encode Plan: "@);
            }
            Err(TextPlanError::ProtobufError(m))
        },
    }
}

/// The JSON text that is read: the input without a first line that starts with `#`.
pub open spec fn usable_json_text(s: Seq<char>) -> Seq<char> {
    if s.len() > 0 && s[0] == '#' {
        match find_char(s, '\n') {
            Some(i) => s.skip(i + 1),
            None => s,
        }
    } else {
        s
    }
}

/// Skips an initial comment line (one that starts with `#`).
pub fn usable_json(json_str: &str) -> (r: &str)
    ensures
        r@ == usable_json_text(json_str@),
{
    let n = json_str.unicode_len();
    if n > 0 && json_str.get_char(0) == '#' {
        match find(json_str, '\n') {
            Some(i) => {
                let r = json_str.substring_char(i + 1, n);
                assert(r@ =~= json_str@.skip(i + 1));
                r
            },
            None => json_str,
        }
    } else {
        json_str
    }
}

/// What `serde_json` reads from this text as a `Plan` in the protobuf JSON mapping: the
/// plan, or the display text of its error.
pub uninterp spec fn read_json_plan(text: Seq<char>) -> Result<substrait::proto::Plan, Seq<char>>;

/// Whether `serde_json` reads this text as a `Plan` in the protobuf JSON mapping.
pub open spec fn is_plan_json(text: Seq<char>) -> bool {
    read_json_plan(text) is Ok
}

/// Reads a plan from JSON (`serde_json::from_str::<Plan>`): the plan, or the display text
/// of the error.
#[verifier::external_body]
fn plan_from_json(text: &str) -> (r: Result<substrait::proto::Plan, String>)
    ensures
        match r {
            Ok(p) => read_json_plan(text@) == Ok::<substrait::proto::Plan, Seq<char>>(p),
            Err(m) => read_json_plan(text@) == Err::<substrait::proto::Plan, Seq<char>>(m@),
        },
{
    match serde_json::from_str::<substrait::proto::Plan>(text) {
        Ok(plan) => Ok(plan),
        Err(e) => Err(e.to_string()),
    }
}

/// What `serde_json` reads from this text as a JSON value: the names of the members of its
/// top-level value, in the order in which `serde_json` keeps them, where it is an object
/// (none where it is another value); or the display text of the error where the text is
/// not JSON.
pub uninterp spec fn read_json_keys(text: Seq<char>) -> Result<Option<Seq<Seq<char>>>, Seq<char>>;

/// Whether the text is valid JSON syntax.
pub open spec fn is_json_text(text: Seq<char>) -> bool {
    read_json_keys(text) is Ok
}

/// The names of the members of the top-level JSON object of a text; none when the text is
/// not JSON or its top-level value is not an object.
pub open spec fn json_object_keys(text: Seq<char>) -> Option<Seq<Seq<char>>> {
    match read_json_keys(text) {
        Ok(k) => k,
        Err(_) => None,
    }
}

/// Reads a text as a JSON value (`serde_json::from_str::<serde_json::Value>`) and gives the
/// names of the members of its top-level value when it is an object, or the display text of
/// the error.
#[verifier::external_body]
fn json_keys(text: &str) -> (r: Result<Option<Vec<String>>, String>)
    ensures
        match r {
            Ok(Some(k)) => read_json_keys(text@) == Ok::<Option<Seq<Seq<char>>>, Seq<char>>(
                Some(texts_view(k@)),
            ),
            Ok(None) => read_json_keys(text@) == Ok::<Option<Seq<Seq<char>>>, Seq<char>>(None),
            Err(m) => read_json_keys(text@) == Err::<Option<Seq<Seq<char>>>, Seq<char>>(m@),
        },
{
    match serde_json::from_str::<serde_json::Value>(text) {
        Ok(serde_json::Value::Object(map)) => Ok(Some(map.keys().cloned().collect())),
        Ok(_) => Ok(None),
        Err(e) => Err(e.to_string()),
    }
}

/// The texts of `items` separated by `, `.
pub open spec fn comma_joined(items: Seq<Seq<char>>) -> Seq<char>
    decreases items.len(),
{
    if items.len() == 0 {
        Seq::empty()
    } else if items.len() == 1 {
        items[0]
    } else {
        comma_joined(items.drop_last()) + ", "@ + items.last()
    }
}

/// The message for a JSON text that is not a plan: the reader's error, and the members of
/// the top-level object when there is one.
pub open spec fn json_plan_failure_text(error: Seq<char>, keys: Option<Seq<Seq<char>>>) -> Seq<
    char,
> {
    match keys {
        Some(k) => "Failed to deserialize JSON to Substrait Plan. Error: "@ + error
            + ". Available fields: "@ + comma_joined(k),
        None => "Failed to deserialize JSON to Substrait Plan. Error: "@ + error + "."@,
    }
}

/// Joins strings with `, ` between them.
pub(crate) fn join_with_commas(items: &[String]) -> (r: String)
    ensures
        r@ == comma_joined(texts_view(items@)),
{
    let ghost t = texts_view(items@);
    let mut r = String::new();
    let mut i: usize = 0;
    while i < items.len()
        invariant
            i <= items.len(),
            t == texts_view(items@),
            r@ == comma_joined(t.take(i as int)),
        decreases items.len() - i,
    {
        if i > 0 {
            r.append(", ");
        }
        r.append(items[i].as_str());
        proof {
            reveal_strlit(", ");
            assert(t.take(i + 1).drop_last() =~= t.take(i as int));
            if i == 0 {
                assert(t.take(1)[0] == t[0]);
            }
        }
        assert(r@ =~= comma_joined(t.take(i + 1)));
        i += 1;
    }
    assert(t.take(items.len() as int) =~= t);
    r
}

/// The error for a JSON text that is not a plan, given the reader's error text and the
/// members of the text's top-level object, if it is one.
pub fn json_plan_failure(error: &str, keys: Option<&[String]>) -> (r: TextPlanError)
    ensures
        r matches TextPlanError::ProtobufError(m) && m@ == json_plan_failure_text(
            error@,
            match keys {
                Some(k) => Some(texts_view(k@)),
                None => None,
            },
        ),
{
    proof {
        reveal_strlit("Failed to deserialize JSON to Substrait Plan. Error: ");
        reveal_strlit(". Available fields: ");
        reveal_strlit(".");
    }
    let mut m = String::from_str("Failed to deserialize JSON to Substrait Plan. Error: ");
    m.append(error);
    match keys {
        Some(k) => {
            m.append(". Available fields: ");
            let fields = join_with_commas(k);
            m.append(fields.as_str());
        },
        None => {
            m.append(".");
        },
    }
    TextPlanError::ProtobufError(m)
}

/// What loading a plan from JSON gives, for the text after an initial comment line: the
/// plan `serde_json` reads; or, where it reads none, the reader's error with the members of
/// the text's top-level object where the text is JSON, and the syntax error prefixed with
/// `Invalid JSON syntax: ` where it is not.
pub open spec fn json_load_outcome(json_str: Seq<char>) -> Result<substrait::proto::Plan, Seq<char>> {
    let u = usable_json_text(json_str);
    match read_json_plan(u) {
        Ok(p) => Ok(p),
        Err(e) => match read_json_keys(u) {
            Ok(keys) => Err(json_plan_failure_text(e, keys)),
            Err(syntax) => Err("Invalid JSON syntax: "@ + syntax),
        },
    }
}

/// Whether a result is the outcome of loading a plan from JSON, its error a protobuf error
/// with the outcome's message.
pub open spec fn is_json_load(r: Result<substrait::proto::Plan, TextPlanError>, json_str: Seq<char>) -> bool {
    match json_load_outcome(json_str) {
        Ok(p) => r == Ok::<substrait::proto::Plan, TextPlanError>(p),
        Err(m) => r matches Err(TextPlanError::ProtobufError(x)) && x@ == m,
    }
}

/// A comment line before JSON changes nothing: the text after it is what is read.
pub proof fn lemma_comment_line_ignored(comment: Seq<char>, json: Seq<char>)
    requires
        !comment.contains('\n'),
        json.len() == 0 || json[0] != '#',
    ensures
        usable_json_text(seq!['#'] + comment + seq!['\n'] + json) == usable_json_text(json),
        json_load_outcome(seq!['#'] + comment + seq!['\n'] + json) == json_load_outcome(json),
{
    let s = seq!['#'] + comment + seq!['\n'] + json;
    let k: int = comment.len() as int + 1;
    assert forall|i: int| 0 <= i < k implies #[trigger] s[i] != '\n' by {
        if i > 0 {
            assert(s[i] == comment[i - 1]);
        }
    }
    assert(s[k] == '\n');
    lemma_find_char(s, '\n', k);
    assert(s.skip(k + 1) =~= json);
}

/// Load a Plan from JSON string using standard Protobuf JSON format.
///
/// An initial line that starts with `#` is a comment and is skipped.
pub fn load_plan_from_json(json_str: &str) -> (r: Result<substrait::proto::Plan, TextPlanError>)
    ensures
        is_json_load(r, json_str@),
{
    let usable = usable_json(json_str);
    match plan_from_json(usable) {
        Ok(plan) => Ok(plan),
        Err(error) => {
            match json_keys(usable) {
                Ok(keys) => {
                    let e = match keys {
                        Some(k) => json_plan_failure(error.as_str(), Some(k.as_slice())),
                        None => json_plan_failure(error.as_str(), None),
                    };
                    Err(e)
                },
                Err(text) => {
                    let m = concatenated("Invalid JSON syntax: ", text.as_str());
                    Err(TextPlanError::ProtobufError(m))
                },
            }
        },
    }
}

/// What `serde_json` writes for a plan in the protobuf JSON mapping (`serde_json::to_string`):
/// the text, or the display text of its error.
pub uninterp spec fn json_of_plan(plan: substrait::proto::Plan) -> Result<Seq<char>, Seq<char>>;

/// Writes a plan as JSON (`serde_json::to_string`): the text, or the display text of the
/// error.
#[verifier::external_body]
fn plan_to_json(plan: &substrait::proto::Plan) -> (r: Result<String, String>)
    ensures
        match r {
            Ok(t) => json_of_plan(*plan) == Ok::<Seq<char>, Seq<char>>(t@),
            Err(m) => json_of_plan(*plan) == Err::<Seq<char>, Seq<char>>(m@),
        },
{
    match serde_json::to_string(plan) {
        Ok(text) => Ok(text),
        Err(e) => Err(e.to_string()),
    }
}

/// Whether a result is what saving a plan to JSON gives: the text `serde_json` writes, or a
/// protobuf error with the writer's error after `Failed to serialize Plan to JSON: `.
pub open spec fn is_json_save(r: Result<String, TextPlanError>, plan: substrait::proto::Plan) -> bool {
    match json_of_plan(plan) {
        Ok(t) => r matches Ok(s) && s@ == t,
        Err(m) => r matches Err(TextPlanError::ProtobufError(x)) && x@ == "Failed to serialize Plan to JSON: "@ + m,
    }
}

/// Save a Plan to JSON format using the standard Protobuf JSON format
pub fn save_plan_to_json(plan: &substrait::proto::Plan) -> (r: Result<String, TextPlanError>)
    ensures
        is_json_save(r, *plan),
{
    match plan_to_json(plan) {
        Ok(text) => Ok(text),
        Err(e) => {
            let m = concatenated("Failed to serialize Plan to JSON: ", e.as_str());
            Err(TextPlanError::ProtobufError(m))
        },
    }
}

/// The kind of a relation (`substrait::proto::rel::RelType`, without what each kind holds).
#[derive(Debug, Clone, Copy, PartialEq, Eq, Structural)]
pub enum RelType {
    Read,
    Filter,
    Fetch,
    Aggregate,
    Sort,
    Join,
    Project,
    SetOperation,
    ExtensionSingle,
    ExtensionMulti,
    ExtensionLeaf,
    Cross,
    Reference,
    Write,
    Ddl,
    Update,
    HashJoin,
    MergeJoin,
    NestedLoopJoin,
    Window,
    Exchange,
    Expand,
}

/// A relation (`substrait::proto::Rel`), as far as the textplan logic reads it: its kind.
#[derive(Debug, Clone, Copy, PartialEq, Eq, Structural)]
pub struct Relation {
    pub rel_type: Option<RelType>,
}

/// The name of a relation's kind.
pub open spec fn relation_type_name(rel: Relation) -> Seq<char> {
    match rel.rel_type {
        Some(RelType::Read) => "read"@,
        Some(RelType::Filter) => "filter"@,
        Some(RelType::Project) => "project"@,
        Some(RelType::Join) => "join"@,
        Some(RelType::Aggregate) => "aggregate"@,
        Some(RelType::Sort) => "sort"@,
        Some(RelType::Cross) => "cross"@,
        Some(RelType::Fetch) => "fetch"@,
        Some(RelType::SetOperation) => "set"@,
        Some(RelType::HashJoin) => "hash_join"@,
        Some(RelType::MergeJoin) => "merge_join"@,
        Some(RelType::NestedLoopJoin) => "nested_loop_join"@,
        None => "unknown"@,
        Some(RelType::ExtensionSingle) => "extension_single"@,
        Some(RelType::ExtensionMulti) => "extension_multi"@,
        Some(RelType::ExtensionLeaf) => "extension_leaf"@,
        Some(RelType::Reference) => "reference"@,
        Some(RelType::Write) => "write"@,
        Some(RelType::Ddl) => "ddl"@,
        Some(RelType::Window) => "window"@,
        Some(RelType::Exchange) => "exchange"@,
        Some(RelType::Expand) => "expand"@,
        Some(RelType::Update) => "update"@,
    }
}

/// Get the relation type as a string
pub fn relation_type_to_string(rel: &Relation) -> (r: &'static str)
    ensures
        r@ == relation_type_name(*rel),
{
    match &rel.rel_type {
        Some(RelType::Read) => "read",
        Some(RelType::Filter) => "filter",
        Some(RelType::Project) => "project",
        Some(RelType::Join) => "join",
        Some(RelType::Aggregate) => "aggregate",
        Some(RelType::Sort) => "sort",
        Some(RelType::Cross) => "cross",
        Some(RelType::Fetch) => "fetch",
        Some(RelType::SetOperation) => "set",
        Some(RelType::HashJoin) => "hash_join",
        Some(RelType::MergeJoin) => "merge_join",
        Some(RelType::NestedLoopJoin) => "nested_loop_join",
        None => "unknown",
        Some(RelType::ExtensionSingle) => "extension_single",
        Some(RelType::ExtensionMulti) => "extension_multi",
        Some(RelType::ExtensionLeaf) => "extension_leaf",
        Some(RelType::Reference) => "reference",
        Some(RelType::Write) => "write",
        Some(RelType::Ddl) => "ddl",
        Some(RelType::Window) => "window",
        Some(RelType::Exchange) => "exchange",
        Some(RelType::Expand) => "expand",
        Some(RelType::Update) => "update",
    }
}

/// The kind of a top-level plan relation (`substrait::proto::plan_rel::RelType`).
#[derive(Debug, Clone, Copy, PartialEq, Eq, Structural)]
pub enum PlanRelType {
    Relation,
    Root,
}

/// A top-level plan relation (`substrait::proto::PlanRel`), as far as the textplan logic
/// reads it: its kind.
#[derive(Debug, Clone, Copy, PartialEq, Eq, Structural)]
pub struct PlanRel {
    pub rel_type: Option<PlanRelType>,
}

/// The value of a literal (`substrait::proto::expression::literal::LiteralType`), with what
/// the textplan printer reads of each kind. A floating-point value is held as the decimal
/// text that Rust's `Display` gives it.
#[derive(Debug)]
pub enum LiteralType {
    Boolean(bool),
    I8(i32),
    I16(i32),
    I32(i32),
    I64(i64),
    Fp32(String),
    Fp64(String),
    String(String),
    Binary,
    Timestamp,
    Date(i32),
    Time(i64),
    IntervalYearToMonth { years: i32, months: i32 },
    IntervalDayToSecond { days: i32, seconds: i32, subseconds: i64, microseconds: Option<i32> },
    FixedChar(String),
    VarChar { value: String, length: u32 },
    FixedBinary(Vec<u8>),
    Decimal { value: Vec<u8>, precision: i32, scale: i32 },
    Struct,
    KeyValueMap,
    TimestampTz,
    Uuid,
    Null,
    List,
    EmptyList,
    EmptyMap,
    UserDefined,
    IntervalCompound,
    PrecisionTime,
    PrecisionTimestamp,
    PrecisionTimestampTz,
}

/// A literal (`substrait::proto::expression::Literal`).
#[derive(Debug)]
pub struct Literal {
    pub literal_type: Option<LiteralType>,
    pub nullable: bool,
}

/// The kind of an argument of a function call (`substrait::proto::function_argument::ArgType`).
#[derive(Debug)]
pub enum ArgType {
    Enum(String),
    Type(Type),
    Value(Expression),
}

/// An argument of a function call (`substrait::proto::FunctionArgument`).
#[derive(Debug)]
pub struct FunctionArgument {
    pub arg_type: Option<ArgType>,
}

/// A call of a scalar function (`substrait::proto::expression::ScalarFunction`).
#[derive(Debug)]
pub struct ScalarFunction {
    pub function_reference: u32,
    pub arguments: Vec<FunctionArgument>,
    pub args: Vec<Expression>,
    pub output_type: Option<Type>,
}

/// An option given to a function call (`substrait::proto::FunctionOption`).
#[derive(Debug)]
pub struct FunctionOption {
    pub name: String,
    pub preference: Vec<String>,
}

/// A call of an aggregate function (`substrait::proto::AggregateFunction`).
#[derive(Debug)]
pub struct AggregateFunction {
    pub function_reference: u32,
    pub arguments: Vec<FunctionArgument>,
    pub args: Vec<Expression>,
    pub options: Vec<FunctionOption>,
    pub output_type: Option<Type>,
    pub phase: i32,
}

/// One condition and its result in an if-then expression
/// (`substrait::proto::expression::if_then::IfClause`).
#[derive(Debug)]
pub struct IfClause {
    pub condition: Option<Box<Expression>>,
    pub result: Option<Box<Expression>>,
}

/// An if-then expression (`substrait::proto::expression::IfThen`).
#[derive(Debug)]
pub struct IfThen {
    pub ifs: Vec<IfClause>,
    pub otherwise: Option<Box<Expression>>,
}

/// A cast (`substrait::proto::expression::Cast`).
#[derive(Debug)]
pub struct Cast {
    pub input: Option<Box<Expression>>,
    pub target: Option<Type>,
}

/// The kind of an expression (`substrait::proto::expression::RexType`), for the kinds that
/// can be printed without the relations of a plan: field references and subqueries are
/// resolved against the relations, and are not held here.
#[derive(Debug)]
pub enum RexType {
    Literal(Literal),
    ScalarFunction(ScalarFunction),
    WindowFunction,
    IfThen(IfThen),
    SwitchExpression,
    SingularOrList,
    MultiOrList,
    Cast(Box<Cast>),
    Nested,
    Enum,
    DynamicParameter,
}

/// An expression (`substrait::proto::Expression`).
#[derive(Debug)]
pub struct Expression {
    pub rex_type: Option<RexType>,
}

/// Where the extensions of a plan come from (`substrait::proto::extensions::SimpleExtensionUri`).
#[derive(Debug)]
pub struct SimpleExtensionUri {
    pub extension_uri_anchor: u32,
    pub uri: String,
}

/// A function that a plan declares (`simple_extension_declaration::ExtensionFunction`).
#[derive(Debug)]
pub struct ExtensionFunction {
    pub extension_uri_reference: u32,
    pub function_anchor: u32,
    pub name: String,
}

/// What an extension declaration declares (`simple_extension_declaration::MappingType`).
#[derive(Debug)]
pub enum MappingType {
    ExtensionType,
    ExtensionTypeVariation,
    ExtensionFunction(ExtensionFunction),
}

/// An extension declaration of a plan
/// (`substrait::proto::extensions::SimpleExtensionDeclaration`).
#[derive(Debug)]
pub struct SimpleExtensionDeclaration {
    pub mapping_type: Option<MappingType>,
}

/// The root of a plan (`substrait::proto::RelRoot`), as far as the textplan logic reads it:
/// the names of its output fields.
#[derive(Debug)]
pub struct RelRoot {
    pub names: Vec<String>,
}

} // verus!

//! The naming rules of the generator that writes the visitor over Substrait's protobuf
//! messages: method names, Rust type paths and identifier cases.

use vstd::prelude::*;

use crate::textplan::common::error::io_error_text;
use crate::textplan::common::text_ops::push_char;
use crate::build_tools::name_order::{contains_name, insert_name, strictly_sorted};
use crate::textplan::common::text_ops::texts_view;
use crate::textplan::common::text_scan::{ends_with, has_prefix, has_suffix, starts_with, text_equals};
use crate::textplan::common::text_words::{pieces, slices_view, split_char};

verus! {

/// Error type for visitor generator operations
#[derive(Debug)]
pub enum GeneratorError {
    Io(std::io::Error),
    /// A method template did not render; the text of tinytemplate's error.
    Template(String),
    /// The descriptors cannot be walked: a full name without a package, a type name that
    /// starts with a character of more than one byte, or a oneof field whose oneof the
    /// message does not declare.
    Unwalkable,
}

impl GeneratorError {
    /// The display text: `I/O error: ` and the I/O error's text; the text of a template's
    /// error; or a note that the descriptors cannot be walked.
    pub fn to_string(&self) -> (r: String)
        ensures
            match self {
                GeneratorError::Io(_) => exists|m: Seq<char>| r@ == "I/O error: "@ + m,
                GeneratorError::Template(m) => r@ == m@,
                GeneratorError::Unwalkable => r@ == "descriptors cannot be walked"@,
            },
    {
        match self {
            GeneratorError::Io(err) => {
                let text = io_error_text(err);
                let mut r = String::from_str("I/O error: ");
                r.append(text.as_str());
                r
            },
            GeneratorError::Template(m) => m.clone(),
            GeneratorError::Unwalkable => String::from_str("descriptors cannot be walked"),
        }
    }
}

impl From<std::io::Error> for GeneratorError {
    fn from(err: std::io::Error) -> (r: Self)
        ensures
            r == GeneratorError::Io(err),
    {
        GeneratorError::Io(err)
    }
}

impl vstd::std_specs::convert::FromSpecImpl<std::io::Error> for GeneratorError {
    open spec fn obeys_from_spec() -> bool {
        true
    }

    open spec fn from_spec(err: std::io::Error) -> Self {
        GeneratorError::Io(err)
    }
}


/// Whether `char::is_uppercase` holds of a character under the Unicode tables of std.
pub uninterp spec fn uppercase(c: char) -> bool;

/// Whether `char::is_lowercase` holds of a character under the Unicode tables of std.
pub uninterp spec fn lowercase(c: char) -> bool;

/// The first character of `char::to_lowercase` of a character.
pub uninterp spec fn lowercase_first(c: char) -> char;

/// Whether a character is upper-case (`char::is_uppercase`).
#[verifier::external_body]
fn char_is_uppercase(c: char) -> (r: bool)
    ensures
        r == uppercase(c),
{
    c.is_uppercase()
}

/// Whether a character is lower-case (`char::is_lowercase`).
#[verifier::external_body]
fn char_is_lowercase(c: char) -> (r: bool)
    ensures
        r == lowercase(c),
{
    c.is_lowercase()
}

/// The first character of a character's lower-case mapping (`char::to_lowercase`, which
/// always yields at least one character).
#[verifier::external_body]
fn char_lowercase_first(c: char) -> (r: char)
    ensures
        r == lowercase_first(c),
{
    c.to_lowercase().next().unwrap()
}

/// The snake case of `s` from position `i` on, where `prev_lower` tells whether the
/// character before was lower-case: `::` is copied as it is, and an upper-case letter is
/// lower-cased, with an underscore before it when it follows a lower-case letter.
pub open spec fn snake_from(s: Seq<char>, i: int, prev_lower: bool) -> Seq<char>
    decreases s.len() - i,
{
    if i < 0 || i >= s.len() {
        Seq::empty()
    } else if s[i] == ':' && i + 1 < s.len() && s[i + 1] == ':' {
        seq![':', ':'] + snake_from(s, i + 2, false)
    } else if uppercase(s[i]) {
        (if i > 0 && prev_lower {
            seq!['_']
        } else {
            Seq::empty()
        }) + seq![lowercase_first(s[i])] + snake_from(s, i + 1, false)
    } else {
        seq![s[i]] + snake_from(s, i + 1, lowercase(s[i]) && s[i] != ':')
    }
}

/// The snake case of `s`.
pub open spec fn snake_case(s: Seq<char>) -> Seq<char> {
    snake_from(s, 0, false)
}

/// Convert CamelCase to snake_case
pub fn to_snake_case(s: &str) -> (r: String)
    ensures
        r@ == snake_case(s@),
{
    let n = s.unicode_len();
    let mut result = String::new();
    let mut prev_is_lowercase = false;
    let mut i: usize = 0;
    while i < n
        invariant
            n == s@.len(),
            i <= n,
            result@ + snake_from(s@, i as int, prev_is_lowercase) == snake_case(s@),
        decreases n - i,
    {
        let c = s.get_char(i);
        let ghost before = result@;
        let ghost p0 = prev_is_lowercase;
        if c == ':' && i + 1 < n && s.get_char(i + 1) == ':' {
            push_char(&mut result, ':');
            push_char(&mut result, ':');
            assert(result@ + snake_from(s@, i + 2, false) =~= before + snake_from(s@, i as int, p0));
            i += 2;
            prev_is_lowercase = false;
        } else {
            if char_is_uppercase(c) {
                if i > 0 && prev_is_lowercase {
                    push_char(&mut result, '_');
                }
                push_char(&mut result, char_lowercase_first(c));
                prev_is_lowercase = false;
            } else {
                push_char(&mut result, c);
                let lower = char_is_lowercase(c);
                prev_is_lowercase = lower && c != ':';
            }
            assert(result@ + snake_from(s@, i + 1, prev_is_lowercase) =~= before + snake_from(
                s@,
                i as int,
                p0,
            ));
            i += 1;
        }
    }
    assert(result@ =~= snake_case(s@));
    result
}

/// Names that are keywords in Rust and so need the raw form `r#` when used as identifiers.
pub open spec fn is_reserved_name(s: Seq<char>) -> bool {
    s == "type"@ || s == "enum"@ || s == "struct"@ || s == "match"@ || s == "if"@ || s == "else"@
}

/// A name usable as a Rust identifier: the raw form of a keyword, or the name itself.
pub fn to_rust_safe_name(s: &str) -> (r: String)
    ensures
        r@ == if is_reserved_name(s@) {
            "r#"@ + s@
        } else {
            s@
        },
{
    if text_equals(s, "type") || text_equals(s, "enum") || text_equals(s, "struct") || text_equals(
        s,
        "match",
    ) || text_equals(s, "if") || text_equals(s, "else") {
        let mut r = String::from_str("r#");
        r.append(s);
        r
    } else {
        String::from_str(s)
    }
}

/// The end of the run of upper-case characters of `s` that starts at `k`.
pub open spec fn upper_run_end(s: Seq<char>, k: int) -> int
    decreases s.len() - k,
{
    if 0 <= k < s.len() && uppercase(s[k]) {
        upper_run_end(s, k + 1)
    } else {
        k
    }
}

proof fn lemma_upper_run_end(s: Seq<char>, a: int, k: int)
    requires
        0 <= a <= k <= s.len(),
        forall|j: int| a <= j < k ==> uppercase(#[trigger] s[j]),
    ensures
        upper_run_end(s, a) == upper_run_end(s, k),
        upper_run_end(s, a) >= k,
        upper_run_end(s, a) <= s.len(),
    decreases k - a,
{
    if a < k {
        lemma_upper_run_end(s, a + 1, k);
    } else {
        lemma_upper_run_end_bounds(s, k);
    }
}

/// A run of upper-case characters ends between its start and the end of the text.
pub proof fn lemma_upper_run_end_bounds(s: Seq<char>, k: int)
    requires
        0 <= k <= s.len(),
    ensures
        k <= upper_run_end(s, k) <= s.len(),
    decreases s.len() - k,
{
    if k < s.len() && uppercase(s[k]) {
        lemma_upper_run_end_bounds(s, k + 1);
    }
}

/// The characters of `s`, each replaced by the first character of its lower-case mapping.
pub open spec fn lowered(s: Seq<char>) -> Seq<char> {
    s.map_values(|c: char| lowercase_first(c))
}

/// `s` from position `i` on, with each run of two or more upper-case characters kept with
/// its first character only in upper case.
pub open spec fn pascal_fixed_from(s: Seq<char>, i: int) -> Seq<char>
    decreases s.len() - i,
{
    if i < 0 || i >= s.len() {
        Seq::empty()
    } else if uppercase(s[i]) && i + 1 < s.len() && uppercase(s[i + 1]) {
        let j = upper_run_end(s, i + 1);
        proof {
            lemma_upper_run_end_bounds(s, i + 1);
        }
        seq![s[i]] + lowered(s.subrange(i + 1, j)) + pascal_fixed_from(s, j)
    } else {
        seq![s[i]] + pascal_fixed_from(s, i + 1)
    }
}

/// Convert acronyms in CamelCase to proper Pascal case
/// e.g., SimpleExtensionURI -> SimpleExtensionUri
pub fn fix_pascal_case(s: &str) -> (r: String)
    ensures
        r@ == pascal_fixed_from(s@, 0),
{
    let n = s.unicode_len();
    let mut result = String::new();
    let mut i: usize = 0;
    while i < n
        invariant
            n == s@.len(),
            i <= n,
            result@ + pascal_fixed_from(s@, i as int) == pascal_fixed_from(s@, 0),
        decreases n - i,
    {
        let c = s.get_char(i);
        let ghost before = result@;
        push_char(&mut result, c);
        if char_is_uppercase(c) && i + 1 < n && char_is_uppercase(s.get_char(i + 1)) {
            let mut k: usize = i + 1;
            while k < n && char_is_uppercase(s.get_char(k))
                invariant
                    n == s@.len(),
                    i + 1 <= k <= n,
                    forall|j: int| i + 1 <= j < k ==> uppercase(#[trigger] s@[j]),
                    result@ == before + seq![c] + lowered(s@.subrange(i + 1, k as int)),
                decreases n - k,
            {
                let ghost prev = result@;
                push_char(&mut result, char_lowercase_first(s.get_char(k)));
                assert(lowered(s@.subrange(i + 1, k + 1)) =~= lowered(
                    s@.subrange(i + 1, k as int),
                ).push(lowercase_first(s@[k as int])));
                k += 1;
            }
            proof {
                lemma_upper_run_end(s@, i + 1, k as int);
            }
            assert(result@ + pascal_fixed_from(s@, k as int) =~= before + pascal_fixed_from(
                s@,
                i as int,
            ));
            i = k;
        } else {
            assert(result@ + pascal_fixed_from(s@, i + 1) =~= before + pascal_fixed_from(
                s@,
                i as int,
            ));
            i += 1;
        }
    }
    assert(result@ =~= pascal_fixed_from(s@, 0));
    result
}

/// The ASCII upper-case form of a character (`char::to_ascii_uppercase`).
pub open spec fn ascii_upper(c: char) -> char {
    if 'a' <= c && c <= 'z' {
        ((c as u32) - 32) as u8 as char
    } else {
        c
    }
}

/// The Pascal case of `s` from position `i` on: underscores dropped, and the character
/// after each (and the first, when `cap` holds) in ASCII upper case.
pub open spec fn pascal_from(s: Seq<char>, i: int, cap: bool) -> Seq<char>
    decreases s.len() - i,
{
    if i < 0 || i >= s.len() {
        Seq::empty()
    } else if s[i] == '_' {
        pascal_from(s, i + 1, true)
    } else if cap {
        seq![ascii_upper(s[i])] + pascal_from(s, i + 1, false)
    } else {
        seq![s[i]] + pascal_from(s, i + 1, false)
    }
}

/// Convert underscore separated strings to PascalCase.
pub fn to_pascal_case(s: &str) -> (r: String)
    ensures
        r@ == pascal_from(s@, 0, true),
{
    let n = s.unicode_len();
    let mut result = String::new();
    let mut capitalize_next = true;
    let mut i: usize = 0;
    while i < n
        invariant
            n == s@.len(),
            i <= n,
            result@ + pascal_from(s@, i as int, capitalize_next) == pascal_from(s@, 0, true),
        decreases n - i,
    {
        let c = s.get_char(i);
        let ghost before = result@;
        let ghost cap = capitalize_next;
        if c == '_' {
            capitalize_next = true;
        } else if capitalize_next {
            let u = if 'a' <= c && c <= 'z' {
                ((c as u32 - 32) as u8) as char
            } else {
                c
            };
            push_char(&mut result, u);
            capitalize_next = false;
        } else {
            push_char(&mut result, c);
        }
        assert(result@ + pascal_from(s@, i + 1, capitalize_next) =~= before + pascal_from(
            s@,
            i as int,
            cap,
        ));
        i += 1;
    }
    assert(result@ =~= pascal_from(s@, 0, true));
    result
}

/// The method-name fragment that the generator uses for a message, where the default
/// name would be wrong or ambiguous.
pub open spec fn name_override(name: Seq<char>) -> Option<Seq<char>> {
    if name == "substrait.Expression.Literal.Decimal"@ {
        Some("expression_literal_decimal"@)
    } else if name == "substrait.Expression.Literal.List"@ {
        Some("expression_literal_list"@)
    } else if name == "substrait.Expression.Literal.Map"@ {
        Some("expression_literal_map"@)
    } else if name == "substrait.Expression.Literal.Struct"@ {
        Some("expression_literal_struct"@)
    } else if name == "substrait.Expression.Literal.VarChar"@ {
        Some("expression_literal_varchar"@)
    } else if name == "substrait.Expression.Literal.UserDefined"@ {
        Some("expression_literal_user_defined"@)
    } else if name == "substrait.Expression.Subquery.Scalar"@ {
        Some("expression_subquery_scalar"@)
    } else if name == "substrait.Expression.MaskExpression.MapSelect.MapKey"@ {
        Some("mask_expression_map_select_mapkey"@)
    } else if name == "substrait.Expression.MaskExpression.ListSelect.ListSelectItem.ListElement"@ {
        Some("mask_expression_list_select_item_element"@)
    } else if name == "substrait.Expression.Nested.Struct"@ {
        Some("expression_nested_struct"@)
    } else if name == "substrait.Expression.Nested.Map.KeyValue"@ {
        Some("expression_nested_map_key_value"@)
    } else if name == "substrait.Expression.Nested.Map"@ {
        Some("expression_nested_map"@)
    } else if name == "substrait.Expression.Nested.List"@ {
        Some("expression_nested_list"@)
    } else {
        None
    }
}

/// Looks a message name up among the method-name overrides.
fn lookup_name_override(name: &str) -> (r: Option<&'static str>)
    ensures
        match r {
            Some(o) => name_override(name@) == Some(o@),
            None => name_override(name@) is None,
        },
{
    if text_equals(name, "substrait.Expression.Literal.Decimal") {
        Some("expression_literal_decimal")
    } else if text_equals(name, "substrait.Expression.Literal.List") {
        Some("expression_literal_list")
    } else if text_equals(name, "substrait.Expression.Literal.Map") {
        Some("expression_literal_map")
    } else if text_equals(name, "substrait.Expression.Literal.Struct") {
        Some("expression_literal_struct")
    } else if text_equals(name, "substrait.Expression.Literal.VarChar") {
        Some("expression_literal_varchar")
    } else if text_equals(name, "substrait.Expression.Literal.UserDefined") {
        Some("expression_literal_user_defined")
    } else if text_equals(name, "substrait.Expression.Subquery.Scalar") {
        Some("expression_subquery_scalar")
    } else if text_equals(name, "substrait.Expression.MaskExpression.MapSelect.MapKey") {
        Some("mask_expression_map_select_mapkey")
    } else if text_equals(
        name,
        "substrait.Expression.MaskExpression.ListSelect.ListSelectItem.ListElement",
    ) {
        Some("mask_expression_list_select_item_element")
    } else if text_equals(name, "substrait.Expression.Nested.Struct") {
        Some("expression_nested_struct")
    } else if text_equals(name, "substrait.Expression.Nested.Map.KeyValue") {
        Some("expression_nested_map_key_value")
    } else if text_equals(name, "substrait.Expression.Nested.Map") {
        Some("expression_nested_map")
    } else if text_equals(name, "substrait.Expression.Nested.List") {
        Some("expression_nested_list")
    } else {
        None
    }
}

/// The position of the last occurrence of `c` in `s`.
pub open spec fn rfind_char(s: Seq<char>, c: char) -> Option<int>
    decreases s.len(),
{
    if s.len() == 0 {
        None
    } else if s.last() == c {
        Some(s.len() - 1)
    } else {
        rfind_char(s.drop_last(), c)
    }
}

/// The part of `s` after its last `.` (all of it when it has none).
pub open spec fn last_segment(s: Seq<char>) -> Seq<char> {
    match rfind_char(s, '.') {
        Some(p) => s.skip(p + 1),
        None => s,
    }
}

/// The method-name fragment for a message: its override (with or without a leading `.`),
/// or else the snake case of the last segment of its name.
pub open spec fn method_name_fragment(message_name: Seq<char>) -> Seq<char> {
    if message_name.len() > 0 && message_name[0] == '.' && name_override(
        message_name.drop_first(),
    ) is Some {
        name_override(message_name.drop_first()).unwrap()
    } else if name_override(message_name) is Some {
        name_override(message_name).unwrap()
    } else {
        snake_case(last_segment(message_name))
    }
}

/// The part of `s` after its last `.`.
fn after_last_dot(s: &str) -> (r: &str)
    ensures
        r@ == last_segment(s@),
{
    let n = s.unicode_len();
    let mut j: usize = n;
    assert(s@.take(n as int) =~= s@);
    while j > 0 && s.get_char(j - 1) != '.'
        invariant
            n == s@.len(),
            j <= n,
            rfind_char(s@, '.') == rfind_char(s@.take(j as int), '.'),
        decreases j,
    {
        assert(s@.take(j - 1) =~= s@.take(j as int).drop_last());
        j -= 1;
    }
    if j == 0 {
        assert(s@.take(0) =~= Seq::<char>::empty());
        s
    } else {
        assert(s@.take(j as int).last() == s@[j - 1]);
        let r = s.substring_char(j, n);
        assert(r@ =~= s@.skip(j as int));
        r
    }
}

/// Get the portion of a method name for a message type
pub fn get_method_name_fragment(message_name: &str) -> (r: String)
    ensures
        r@ == method_name_fragment(message_name@),
{
    let n = message_name.unicode_len();
    if n > 0 && message_name.get_char(0) == '.' {
        let rest = message_name.substring_char(1, n);
        assert(rest@ =~= message_name@.drop_first());
        if let Some(o) = lookup_name_override(rest) {
            return String::from_str(o);
        }
    }
    if let Some(o) = lookup_name_override(message_name) {
        return String::from_str(o);
    }
    let method_name = after_last_dot(message_name);
    to_snake_case(method_name)
}

/// A package name as a Rust module name: in snake case, and in raw form if a keyword.
pub open spec fn module_name(part: Seq<char>) -> Seq<char> {
    if is_reserved_name(snake_case(part)) {
        "r#"@ + snake_case(part)
    } else {
        snake_case(part)
    }
}

/// The texts of `items`, each followed by `::`.
pub open spec fn path_prefix(items: Seq<Seq<char>>) -> Seq<char>
    decreases items.len(),
{
    if items.len() == 0 {
        Seq::empty()
    } else {
        path_prefix(items.drop_last()) + items.last() + "::"@
    }
}

/// The Rust path of the type that the Substrait crate generates for a message of this full
/// name: the `extensions` or `proto` module, the modules of the nested packages, and the
/// message's name with its acronyms fixed.
pub open spec fn rust_type_path(full_name: Seq<char>) -> Seq<char> {
    let parts = pieces(full_name, '.');
    let modules = parts.subrange(1, parts.len() - 1).map_values(|p: Seq<char>| module_name(p));
    if modules.len() > 0 && modules[0] == "extensions"@ {
        "extensions::"@ + path_prefix(modules.drop_first()) + pascal_fixed_from(parts.last(), 0)
    } else {
        "proto::"@ + path_prefix(modules) + pascal_fixed_from(parts.last(), 0)
    }
}

/// Get the Rust path for a message type
pub fn get_rust_type_path(full_name: &str) -> (r: String)
    requires
        pieces(full_name@, '.').len() >= 2,
    ensures
        r@ == rust_type_path(full_name@),
{
    let parts = split_char(full_name, '.');
    let ghost ps = pieces(full_name@, '.');
    let count = parts.len();
    assert(slices_view(parts@)[count - 1] == parts@[count - 1]@);
    let message_name = parts[count - 1];
    let ghost modules = ps.subrange(1, ps.len() - 1).map_values(|p: Seq<char>| module_name(p));
    let mut fixed: Vec<String> = Vec::new();
    let mut i: usize = 1;
    while i < count - 1
        invariant
            count == parts@.len(),
            count >= 2,
            ps == slices_view(parts@),
            1 <= i <= count - 1,
            modules == ps.subrange(1, ps.len() - 1).map_values(|p: Seq<char>| module_name(p)),
            fixed@.map_values(|f: String| f@) == modules.take(i - 1),
        decreases count - 1 - i,
    {
        assert(ps[i as int] == parts@[i as int]@);
        let snake = to_snake_case(parts[i]);
        let safe = to_rust_safe_name(snake.as_str());
        let ghost before = fixed@;
        assert(modules[i - 1] == module_name(ps[i as int]));
        fixed.push(safe);
        assert(fixed@.map_values(|f: String| f@) =~= before.map_values(|f: String| f@).push(
            modules[i - 1],
        ));
        assert(modules.take(i as int) =~= modules.take(i - 1).push(modules[i - 1]));
        i += 1;
    }
    let ghost fv = fixed@.map_values(|f: String| f@);
    assert(fv =~= modules);
    let mut r = String::new();
    let mut start: usize = 0;
    if fixed.len() > 0 && text_equals(fixed[0].as_str(), "extensions") {
        assert(fv[0] == fixed@[0]@);
        r.append("extensions::");
        start = 1;
    } else {
        r.append("proto::");
    }
    proof {
        reveal_strlit("extensions::");
        reveal_strlit("proto::");
        reveal_strlit("::");
    }
    let ghost head = r@;
    let mut k: usize = start;
    assert(fv.skip(start as int).take(0) =~= Seq::<Seq<char>>::empty());
    while k < fixed.len()
        invariant
            start <= k <= fixed@.len(),
            fv == fixed@.map_values(|f: String| f@),
            r@ == head + path_prefix(fv.skip(start as int).take(k - start)),
        decreases fixed.len() - k,
    {
        r.append(fixed[k].as_str());
        r.append("::");
        assert(fv.skip(start as int).take(k + 1 - start).drop_last() =~= fv.skip(start as int).take(
            k - start,
        ));
        assert(fv.skip(start as int).take(k + 1 - start).last() == fv[k as int]);
        assert(r@ =~= head + path_prefix(fv.skip(start as int).take(k + 1 - start)));
        k += 1;
    }
    assert(fv.skip(start as int).take(fixed.len() - start) =~= fv.skip(start as int));
    if start == 1 {
        assert(fv.skip(1) =~= modules.drop_first());
    } else {
        assert(fv.skip(0) =~= modules);
    }
    let name = fix_pascal_case(message_name);
    r.append(name.as_str());
    r
}

/// How a field repeats (`prost_types::field_descriptor_proto::Label`).
#[derive(Debug, Clone, Copy, PartialEq, Eq, Structural)]
pub enum FieldLabel {
    Optional,
    Required,
    Repeated,
}

/// A field of a message (`prost_types::FieldDescriptorProto`), as the generator reads it:
/// its name, the full name of its type where it has one, its label, and the position of
/// the oneof it belongs to.
#[derive(Debug)]
pub struct FieldDescriptor {
    pub name: String,
    pub field_type: Option<String>,
    pub label: FieldLabel,
    pub oneof_index: Option<i32>,
}

/// A message type (`prost_types::DescriptorProto`): its name, fields, nested message types
/// and the names of its oneofs.
#[derive(Debug)]
pub struct MessageDescriptor {
    pub name: String,
    pub field: Vec<FieldDescriptor>,
    pub nested_type: Vec<MessageDescriptor>,
    pub oneof_decl: Vec<String>,
}

/// A protobuf file (`prost_types::FileDescriptorProto`): its package and message types.
#[derive(Debug)]
pub struct FileDescriptor {
    pub package: String,
    pub message_type: Vec<MessageDescriptor>,
}

/// A set of protobuf files (`prost_types::FileDescriptorSet`).
#[derive(Debug)]
pub struct FileDescriptorSet {
    pub file: Vec<FileDescriptor>,
}

/// What the generator keeps of a message it has indexed: its full name, and its name,
/// fields and oneof names.
#[derive(Debug)]
pub struct IndexedMessage {
    pub full_name: String,
    pub name: String,
    pub field: Vec<FieldDescriptor>,
    pub oneof_decl: Vec<String>,
}

/// What the generator reads of a message: its name, fields and oneof names.
pub type MessageContent = (Seq<char>, Seq<FieldDescriptor>, Seq<String>);

/// The content of a message descriptor.
pub open spec fn descriptor_content(d: MessageDescriptor) -> MessageContent {
    (d.name@, d.field@, d.oneof_decl@)
}

/// The content of an indexed message.
pub open spec fn indexed_content(e: IndexedMessage) -> MessageContent {
    (e.name@, e.field@, e.oneof_decl@)
}

/// The full name of a message of this name inside `parent` (a package or a message).
pub open spec fn full_message_name(parent: Seq<char>, name: Seq<char>) -> Seq<char> {
    if parent.len() == 0 {
        name
    } else {
        parent + seq!['.'] + name
    }
}

/// A message and the messages nested in it, depth first, each with its full name.
pub open spec fn message_tree(parent: Seq<char>, msg: MessageDescriptor) -> Seq<
    (Seq<char>, MessageContent),
>
    decreases msg,
{
    let full = full_message_name(parent, msg.name@);
    seq![(full, descriptor_content(msg))] + message_forest(full, msg.nested_type@)
}

/// The trees of a list of messages, in order.
pub open spec fn message_forest(parent: Seq<char>, msgs: Seq<MessageDescriptor>) -> Seq<
    (Seq<char>, MessageContent),
>
    decreases msgs,
{
    if msgs.len() == 0 {
        Seq::empty()
    } else {
        message_forest(parent, msgs.subrange(0, msgs.len() - 1)) + message_tree(
            parent,
            msgs[msgs.len() - 1],
        )
    }
}

/// The messages of a list of files, in order, leaving out the files of `google.` packages.
pub open spec fn file_messages(files: Seq<FileDescriptor>) -> Seq<(Seq<char>, MessageContent)>
    decreases files.len(),
{
    if files.len() == 0 {
        Seq::empty()
    } else {
        let f = files.last();
        file_messages(files.drop_last()) + if has_prefix(f.package@, "google."@) {
            Seq::empty()
        } else {
            message_forest(f.package@, f.message_type@)
        }
    }
}

/// A registry of messages by full name after registering `s` in order: a later message
/// of a name replaces an earlier one.
pub open spec fn registered(m: Map<Seq<char>, MessageContent>, s: Seq<(Seq<char>, MessageContent)>) -> Map<
    Seq<char>,
    MessageContent,
>
    decreases s.len(),
{
    if s.len() == 0 {
        m
    } else {
        registered(m, s.drop_last()).insert(s.last().0, s.last().1)
    }
}

/// Registering two lists is registering the first, then the second.
pub proof fn lemma_registered_append(
    m: Map<Seq<char>, MessageContent>,
    a: Seq<(Seq<char>, MessageContent)>,
    b: Seq<(Seq<char>, MessageContent)>,
)
    ensures
        registered(m, a + b) == registered(registered(m, a), b),
    decreases b.len(),
{
    if b.len() == 0 {
        assert(a + b =~= a);
    } else {
        assert((a + b).drop_last() =~= a + b.drop_last());
        lemma_registered_append(m, a, b.drop_last());
    }
}

/// Whether a message's name marks it as a top-level message: it ends with `Plan` or
/// `ExtendedExpression`.
pub open spec fn is_top_level_name(name: Seq<char>) -> bool {
    has_suffix(name, "Plan"@) || has_suffix(name, "ExtendedExpression"@)
}

/// Whether no two messages of `v` share a full name.
pub open spec fn unique_names(v: Seq<IndexedMessage>) -> bool {
    forall|i: int, j: int|
        0 <= i < j < v.len() ==> (#[trigger] v[i]).full_name@ != (#[trigger] v[j]).full_name@
}

/// The messages of `v` by full name.
pub open spec fn registry_of(v: Seq<IndexedMessage>) -> Map<Seq<char>, MessageContent> {
    Map::new(
        |k: Seq<char>| exists|i: int| 0 <= i < v.len() && (#[trigger] v[i]).full_name@ == k,
        |k: Seq<char>|
            indexed_content(v[choose|i: int| 0 <= i < v.len() && (#[trigger] v[i]).full_name@ == k]),
    )
}

/// Where the names are unique, a message of `v` is what the registry holds for its name.
pub proof fn lemma_registry_lookup(v: Seq<IndexedMessage>, i: int)
    requires
        unique_names(v),
        0 <= i < v.len(),
    ensures
        registry_of(v).contains_key(v[i].full_name@),
        registry_of(v)[v[i].full_name@] == indexed_content(v[i]),
{
    let k = v[i].full_name@;
    assert(exists|j: int| 0 <= j < v.len() && (#[trigger] v[j]).full_name@ == k);
    let j = choose|j: int| 0 <= j < v.len() && (#[trigger] v[j]).full_name@ == k;
    if j < i {
        assert(v[j].full_name@ != v[i].full_name@);
    } else if i < j {
        assert(v[i].full_name@ != v[j].full_name@);
    }
}

/// The position of the message of this full name in `v`, where it is there.
fn find_message(v: &Vec<IndexedMessage>, full_name: &str) -> (r: Option<usize>)
    ensures
        match r {
            Some(i) => i < v@.len() && v@[i as int].full_name@ == full_name@,
            None => forall|i: int| 0 <= i < v@.len() ==> (#[trigger] v@[i]).full_name@ != full_name@,
        },
{
    let mut i: usize = 0;
    while i < v.len()
        invariant
            i <= v@.len(),
            forall|k: int| 0 <= k < i ==> (#[trigger] v@[k]).full_name@ != full_name@,
        decreases v.len() - i,
    {
        if text_equals(v[i].full_name.as_str(), full_name) {
            return Some(i);
        }
        i += 1;
    }
    None
}

/// A copy of a field.
fn copy_field(f: &FieldDescriptor) -> (r: FieldDescriptor)
    ensures
        r == *f,
{
    let field_type = match &f.field_type {
        Some(t) => Some(t.clone()),
        None => None,
    };
    FieldDescriptor {
        name: f.name.clone(),
        field_type,
        label: f.label,
        oneof_index: f.oneof_index,
    }
}

/// A copy of a message's fields.
fn copy_fields(v: &Vec<FieldDescriptor>) -> (r: Vec<FieldDescriptor>)
    ensures
        r@ == v@,
{
    let mut r: Vec<FieldDescriptor> = Vec::new();
    let mut i: usize = 0;
    while i < v.len()
        invariant
            i <= v@.len(),
            r@ == v@.take(i as int),
        decreases v.len() - i,
    {
        r.push(copy_field(&v[i]));
        assert(v@.take(i + 1) =~= v@.take(i as int).push(v@[i as int]));
        i += 1;
    }
    assert(v@.take(v.len() as int) =~= v@);
    r
}

/// A copy of a list of strings.
fn copy_strings(v: &Vec<String>) -> (r: Vec<String>)
    ensures
        r@ == v@,
{
    let mut r: Vec<String> = Vec::new();
    let mut i: usize = 0;
    while i < v.len()
        invariant
            i <= v@.len(),
            r@ == v@.take(i as int),
        decreases v.len() - i,
    {
        r.push(v[i].clone());
        assert(v@.take(i + 1) =~= v@.take(i as int).push(v@[i as int]));
        i += 1;
    }
    assert(v@.take(v.len() as int) =~= v@);
    r
}

/// The text that opens the generated file.
pub const FILE_HEADER: &'static str = r#"
// SPDX-License-Identifier: Apache-2.0

//! GENERATED CODE - DO NOT MODIFY
//! Generated visitor for Substrait protocol buffers.

extern crate substrait;

use crate::textplan::common::ProtoLocation;
use substrait::proto;
use substrait::proto::extensions;

#[allow(deprecated,unused_variables,unreachable_patterns)]

"#;

/// The opening of the generated visitor trait, up to its methods.
pub const VISITOR_TRAIT_HEADER: &'static str = r#"
/// Base visitor trait for Substrait plans.
///
/// This trait defines the visit methods for all protobuf message types in the Substrait schema.
/// It's intended to be implemented by concrete visitors that need to traverse and process
/// Substrait plans.
///
/// The trait automatically tracks the current location in the protocol buffer structure
/// using ProtoLocation, which can be used for detailed error reporting and symbol resolution.
pub trait PlanProtoVisitor {
    /// Get the current location in the protocol buffer being visited
    fn current_location(&self) -> &ProtoLocation;

    /// Set the current location in the protocol buffer being visited
    fn set_location(&mut self, location: ProtoLocation);

    /// Create a location for a specific field of the current object
    fn field_location(&self, field_name: &str) -> ProtoLocation {
        self.current_location().field(field_name)
    }

    /// Create a location for an indexed field of the current object
    fn indexed_field_location(&self, field_name: &str, index: usize) -> ProtoLocation {
        self.current_location().indexed_field(field_name, index)
    }

"#;

/// The generated trait of the messages that a visitor walks.
pub const TRAVERSABLE_TRAIT_HEADER: &'static str = r#"
// Define the traversable trait for each proto type
pub trait Traversable {
    fn traverse<V: PlanProtoVisitor>(&self, visitor: &mut V);
}
"#;

/// The template of the method that a visitor calls before it visits a message.
pub const PREPROCESS_TEMPLATE: &'static str = r#"
{-indent}fn pre_process_{name}(&mut self, obj: &{type_path}) \{}
"#;

/// The template of the method that a visitor calls after it has visited a message.
pub const POSTPROCESS_TEMPLATE: &'static str = r#"
{-indent}fn post_process_{name}(&mut self, obj: &{type_path}) \{}
"#;

/// The template of the opening of the method that walks a message.
pub const VISIT_METHOD_TEMPLATE: &'static str = r#"
impl Traversable for {type_path} \{
{indent}fn traverse<V: PlanProtoVisitor>(&self, visitor: &mut V) \{
{indent}    // Save current location
{indent}    let prev_location = visitor.current_location().clone();

{{- if top_level }}
{indent}    // Set location to this object for the first time.
{indent}    visitor.set_location(ProtoLocation::new(self));
{{ endif }}
{indent}    visitor.pre_process_{name}(self);

"#;

/// A name usable as a Rust identifier: the raw form of a keyword, or the name itself.
pub open spec fn rust_safe_name(s: Seq<char>) -> Seq<char> {
    if is_reserved_name(s) {
        "r#"@ + s
    } else {
        s
    }
}

/// `n` spaces.
pub open spec fn spaces(n: nat) -> Seq<char> {
    Seq::new(n, |i: int| ' ')
}

/// Whether a field holds a relation (see `is_rel_field`).
pub open spec fn is_rel_type(f: FieldDescriptor) -> bool {
    match f.field_type {
        Some(t) => has_suffix(t@, ".Rel"@) || t@ == ".substrait.Rel"@,
        None => false,
    }
}

/// The fields of `fields` that hold relations (`rel`) or that do not, in order.
pub open spec fn fields_of_kind(fields: Seq<FieldDescriptor>, rel: bool) -> Seq<FieldDescriptor>
    decreases fields.len(),
{
    if fields.len() == 0 {
        Seq::empty()
    } else {
        let r = fields_of_kind(fields.drop_last(), rel);
        if is_rel_type(fields.last()) == rel {
            r.push(fields.last())
        } else {
            r
        }
    }
}

/// The fields of a message in the order they are walked: those that do not hold
/// relations, then those that do, each group in order.
pub open spec fn ordered_fields(fields: Seq<FieldDescriptor>) -> Seq<FieldDescriptor> {
    fields_of_kind(fields, false) + fields_of_kind(fields, true)
}

/// The type name of a field, empty where it has none.
pub open spec fn field_type_text(f: FieldDescriptor) -> Seq<char> {
    match f.field_type {
        Some(t) => t@,
        None => Seq::empty(),
    }
}

/// Whether a field's type is an indexed message: its type name, after its leading
/// character, is one of `names`.
pub open spec fn is_known_field(f: FieldDescriptor, names: Set<Seq<char>>) -> bool {
    field_type_text(f).len() > 0 && names.contains(field_type_text(f).drop_first())
}

/// Whether a field's type name, where it has one, starts with a one-byte character, so
/// that the text after that character can be cut out of it.
pub open spec fn has_ascii_start(f: FieldDescriptor) -> bool {
    field_type_text(f).len() > 0 ==> (field_type_text(f)[0] as int) < 0x80
}

/// Whether some field of `fields` belongs to a oneof.
pub open spec fn has_oneof_field(fields: Seq<FieldDescriptor>) -> bool {
    exists|i: int| 0 <= i < fields.len() && (#[trigger] fields[i]).oneof_index is Some
}

/// Whether every field of `fields` has an indexed message type.
pub open spec fn all_fields_known(fields: Seq<FieldDescriptor>, names: Set<Seq<char>>) -> bool {
    forall|i: int| 0 <= i < fields.len() ==> is_known_field(#[trigger] fields[i], names)
}

/// Whether walking the fields of a message reads the type name of each field that it
/// reads cleanly, and finds the oneof of each oneof field that it writes out: the type
/// names of the fields outside oneofs are read, and, where the message has oneof fields,
/// those of its fields up to the first one whose type is not an indexed message; where all
/// of them are, each oneof field names one of the message's oneofs.
pub open spec fn walkable(c: MessageContent, names: Set<Seq<char>>) -> bool {
    &&& forall|i: int|
        0 <= i < c.1.len() ==> ((#[trigger] c.1[i]).oneof_index is None || (has_oneof_field(c.1)
            && forall|j: int| 0 <= j < i ==> is_known_field(#[trigger] c.1[j], names)))
            ==> has_ascii_start(c.1[i])
    &&& all_fields_known(c.1, names) ==> forall|i: int|
        0 <= i < c.1.len() ==> match (#[trigger] c.1[i]).oneof_index {
            Some(k) => 0 <= k < c.2.len(),
            None => true,
        }
}

/// The code that walks a field outside any oneof.
pub open spec fn field_section(f: FieldDescriptor, indent: Seq<char>) -> Seq<char> {
    let n = rust_safe_name(f.name@);
    match f.label {
        FieldLabel::Repeated => indent + "    // Process repeated field: "@ + n + "\n"@ + indent
            + "    for (idx, x) in self."@ + n + ".iter().enumerate() {\n"@ + indent
            + "        // Set location to indexed field\n"@ + indent
            + "        let field_loc = visitor.indexed_field_location(\""@ + n + "\", idx);\n"@
            + indent + "        visitor.set_location(field_loc);\n"@ + indent
            + "        x.traverse(visitor);\n"@ + indent
            + "        visitor.set_location(prev_location.clone());\n"@ + indent + "    }\n"@,
        FieldLabel::Optional => indent + "    // Process optional field: "@ + n + "\n"@ + indent
            + "    if let Some("@ + n + ") = &self."@ + n + " {\n"@ + indent
            + "        // Set location to field\n"@ + indent
            + "        let field_loc = visitor.field_location(\""@ + n + "\");\n"@ + indent
            + "        visitor.set_location(field_loc);\n"@ + indent + "        "@ + n
            + ".traverse(visitor);\n"@ + indent
            + "        visitor.set_location(prev_location.clone());\n"@ + indent + "    }\n"@,
        FieldLabel::Required => indent + "    // Process field: "@ + n + "\n"@ + indent
            + "    let field_loc = visitor.field_location(\""@ + n + "\");\n"@ + indent
            + "    visitor.set_location(field_loc);\n"@ + indent + "        "@ + n
            + ".traverse(visitor);\n"@ + indent
            + "        visitor.set_location(prev_location.clone());\n"@,
    }
}

/// The match arm that walks one field of a oneof.
pub open spec fn oneof_arm(
    f: FieldDescriptor,
    indent: Seq<char>,
    parent_path: Seq<char>,
    oneof_type: Seq<char>,
) -> Seq<char> {
    indent + "            "@ + parent_path + "::"@ + oneof_type + "::"@ + pascal_from(f.name@, 0, true)
        + "(value) => {\n"@ + indent + "                // Set location to field within oneof\n"@
        + indent + "                let field_loc = visitor.field_location(\""@ + rust_safe_name(
        f.name@,
    ) + "\");\n"@ + indent + "                visitor.set_location(field_loc);\n"@ + indent
        + "                value.traverse(visitor);\n"@ + indent
        + "                visitor.set_location(prev_location.clone());\n"@ + indent
        + "            }\n"@
}

/// The match arms of the fields of `fields` that belong to the oneof at `k`, in order.
pub open spec fn oneof_arms(
    fields: Seq<FieldDescriptor>,
    k: i32,
    indent: Seq<char>,
    parent_path: Seq<char>,
    oneof_type: Seq<char>,
) -> Seq<char>
    decreases fields.len(),
{
    if fields.len() == 0 {
        Seq::empty()
    } else {
        oneof_arms(fields.drop_last(), k, indent, parent_path, oneof_type) + if fields.last().oneof_index
            == Some(k) {
            oneof_arm(fields.last(), indent, parent_path, oneof_type)
        } else {
            Seq::empty()
        }
    }
}

/// The code that walks the oneof at `k` of a message: nothing unless every field of the
/// message has an indexed message type.
pub open spec fn oneof_section(
    c: MessageContent,
    k: i32,
    indent: Seq<char>,
    parent_path: Seq<char>,
    names: Set<Seq<char>>,
) -> Seq<char> {
    if !all_fields_known(c.1, names) {
        Seq::empty()
    } else {
        let oneof_name = c.2[k as int]@;
        let safe = rust_safe_name(oneof_name);
        indent + "    if let Some("@ + safe + ") = &self."@ + safe + " {\n"@ + indent + "        match "@
            + safe + " {\n"@ + oneof_arms(c.1, k, indent, parent_path, pascal_from(oneof_name, 0, true))
            + indent + "            _ => {}\n"@ + indent + "        }\n"@ + indent + "    }\n"@
    }
}

/// The code that walks `fields` in order, where the oneofs at `handled` have been walked:
/// each oneof once, at its first field, and each other field whose type is an indexed
/// message.
pub open spec fn fields_text(
    fields: Seq<FieldDescriptor>,
    handled: Seq<i32>,
    c: MessageContent,
    indent: Seq<char>,
    parent_path: Seq<char>,
    names: Set<Seq<char>>,
) -> Seq<char>
    decreases fields.len(),
{
    if fields.len() == 0 {
        Seq::empty()
    } else {
        let f = fields[0];
        let rest = fields.drop_first();
        match f.oneof_index {
            Some(k) => if handled.contains(k) {
                fields_text(rest, handled, c, indent, parent_path, names)
            } else {
                oneof_section(c, k, indent, parent_path, names) + fields_text(
                    rest,
                    handled.push(k),
                    c,
                    indent,
                    parent_path,
                    names,
                )
            },
            None => if is_known_field(f, names) {
                field_section(f, indent) + fields_text(rest, handled, c, indent, parent_path, names)
            } else {
                fields_text(rest, handled, c, indent, parent_path, names)
            },
        }
    }
}

/// Whether the methods of the message of this full name are those of the entry points
/// of the walk, which set the first location.
pub open spec fn is_top_level_message(full_name: Seq<char>) -> bool {
    full_name == "substrait.Plan"@ || full_name == "substrait.ExtendedExpression"@
}

/// A tinytemplate registry of templates (`tinytemplate::TinyTemplate`), which Verus sees
/// only through the names below.
#[verifier::external_type_specification]
#[verifier::external_body]
pub struct ExTinyTemplate<'template>(tinytemplate::TinyTemplate<'template>);

/// The templates that a tinytemplate registry (`tinytemplate::TinyTemplate`) holds: the text
/// registered under each name.
pub uninterp spec fn registered_templates(tt: tinytemplate::TinyTemplate) -> Map<Seq<char>, Seq<char>>;

/// What `TinyTemplate::add_template` gives for a template text: nothing where the text
/// compiles, else the text of the compile error.
pub uninterp spec fn template_compile_result(text: Seq<char>) -> Result<(), Seq<char>>;

/// What `TinyTemplate::render` gives for the template registered under `name` in a registry
/// holding `templates` (and the formatters that `TinyTemplate::new` registers), with a context
/// of this indent, top-level flag, method name and type path: the text, or that of the error.
pub uninterp spec fn rendered_template(
    templates: Map<Seq<char>, Seq<char>>,
    name: Seq<char>,
    indent: Seq<char>,
    top_level: bool,
    method_name: Seq<char>,
    type_path: Seq<char>,
) -> Result<Seq<char>, Seq<char>>;

/// What a method template renders to, with this indent, top-level flag, method name and type
/// path, when registered alone under the name "method"; or the text of the error of
/// compiling or rendering it.
pub open spec fn rendered_method(
    template: Seq<char>,
    indent: Seq<char>,
    top_level: bool,
    name: Seq<char>,
    type_path: Seq<char>,
) -> Result<Seq<char>, Seq<char>> {
    match template_compile_result(template) {
        Err(m) => Err(m),
        Ok(()) => rendered_template(
            Map::<Seq<char>, Seq<char>>::empty().insert("method"@, template),
            "method"@,
            indent,
            top_level,
            name,
            type_path,
        ),
    }
}

/// Whether every registered message can be written out: its full name has a package, and
/// its fields can be walked (see `walkable`).
pub open spec fn generatable(registry: Map<Seq<char>, MessageContent>, names: Set<Seq<char>>) -> bool {
    forall|k: Seq<char>|
        #[trigger] registry.contains_key(k) ==> pieces(k, '.').len() >= 2 && walkable(registry[k], names)
}

/// The visitor trait: its opening, the preprocess methods of the top-level messages in
/// order and of the other messages last first, then the postprocess methods in the same
/// way, and its closing brace.
pub open spec fn visitor_trait(
    top: Seq<Seq<char>>,
    all: Seq<Seq<char>>,
    registry: Map<Seq<char>, MessageContent>,
) -> Result<Seq<char>, Seq<char>> {
    let others = other_names(all, top);
    followed_by(
        followed_by(
            followed_by(
                followed_by(
                    followed_by(
                        followed_by(
                            Ok(VISITOR_TRAIT_HEADER@ + "\n"@),
                            methods_in_order(PREPROCESS_TEMPLATE@, top, registry, 4),
                        ),
                        methods_in_reverse(PREPROCESS_TEMPLATE@, others, registry, 4),
                    ),
                    Ok("\n"@),
                ),
                methods_in_order(POSTPROCESS_TEMPLATE@, top, registry, 4),
            ),
            methods_in_reverse(POSTPROCESS_TEMPLATE@, others, registry, 4),
        ),
        Ok("}\n\n"@),
    )
}

/// The walking trait: its declaration, then the walking methods of the top-level messages
/// in order and of the other messages last first.
pub open spec fn traversable_trait(
    top: Seq<Seq<char>>,
    all: Seq<Seq<char>>,
    registry: Map<Seq<char>, MessageContent>,
) -> Result<Seq<char>, Seq<char>> {
    followed_by(
        followed_by(Ok(TRAVERSABLE_TRAIT_HEADER@), walks_in_order(top, registry, 4, all.to_set())),
        walks_in_reverse(other_names(all, top), registry, 4, all.to_set()),
    )
}

/// The generated code: the file's opening, the visitor trait and the walking trait.
pub open spec fn visitor_code(
    top: Seq<Seq<char>>,
    all: Seq<Seq<char>>,
    registry: Map<Seq<char>, MessageContent>,
) -> Result<Seq<char>, Seq<char>> {
    followed_by(
        followed_by(Ok(FILE_HEADER@), visitor_trait(top, all, registry)),
        traversable_trait(top, all, registry),
    )
}

/// Output shown appended in two steps is the two pieces one after the other.
pub proof fn lemma_emitted_then(
    a: Seq<char>,
    b: Seq<char>,
    c: Seq<char>,
    x: Result<Seq<char>, Seq<char>>,
    r: Result<(), GeneratorError>,
    y: Result<Seq<char>, Seq<char>>,
)
    requires
        emitted(Ok(()), a, b, x),
        emitted(r, b, c, y),
    ensures
        emitted(r, a, c, followed_by(x, y)),
{
    if let (Ok(t), Ok(u)) = (x, y) {
        assert(c =~= a + (t + u));
    }
}

/// Once a prefix of the names fails to render, so do all of them.
pub proof fn lemma_methods_in_order_err(
    template: Seq<char>,
    s: Seq<Seq<char>>,
    registry: Map<Seq<char>, MessageContent>,
    indent: nat,
    j: int,
    m: Seq<char>,
)
    requires
        0 <= j <= s.len(),
        methods_in_order(template, s.take(j), registry, indent) == Err::<Seq<char>, Seq<char>>(m),
    ensures
        methods_in_order(template, s, registry, indent) == Err::<Seq<char>, Seq<char>>(m),
    decreases s.len() - j,
{
    if j == s.len() {
        assert(s.take(j) =~= s);
    } else {
        assert(s.take(j + 1).drop_last() =~= s.take(j));
        lemma_methods_in_order_err(template, s, registry, indent, j + 1, m);
    }
}

/// Once a prefix of the names fails to render, so do all of them.
pub proof fn lemma_walks_in_order_err(
    s: Seq<Seq<char>>,
    registry: Map<Seq<char>, MessageContent>,
    indent: nat,
    names: Set<Seq<char>>,
    j: int,
    m: Seq<char>,
)
    requires
        0 <= j <= s.len(),
        walks_in_order(s.take(j), registry, indent, names) == Err::<Seq<char>, Seq<char>>(m),
    ensures
        walks_in_order(s, registry, indent, names) == Err::<Seq<char>, Seq<char>>(m),
    decreases s.len() - j,
{
    if j == s.len() {
        assert(s.take(j) =~= s);
    } else {
        assert(s.take(j + 1).drop_last() =~= s.take(j));
        lemma_walks_in_order_err(s, registry, indent, names, j + 1, m);
    }
}

/// Text already written, then an ok piece, then the rest, is the text and the piece, then
/// the rest.
pub proof fn lemma_followed_by_ok(t: Seq<char>, a: Seq<char>, rest: Result<Seq<char>, Seq<char>>)
    ensures
        followed_by(Ok(t), followed_by(Ok(a), rest)) == followed_by(Ok(t + a), rest),
{
    if let Ok(y) = rest {
        assert(t + (a + y) =~= t + a + y);
    }
}

/// Whether a text is one of the generator's method templates. None of them calls another
/// template or loops, so rendering one always comes back.
pub open spec fn is_method_template(t: Seq<char>) -> bool {
    t == PREPROCESS_TEMPLATE@ || t == POSTPROCESS_TEMPLATE@ || t == VISIT_METHOD_TEMPLATE@
}

/// A tinytemplate registry whose templates live as long as the program.
pub type Registry = tinytemplate::TinyTemplate<'static>;

/// A text that lives as long as the program.
pub type StaticText = &'static str;

/// The templates of a registry that holds none.
pub open spec fn no_templates() -> Map<Seq<char>, Seq<char>> {
    Map::empty()
}

/// A template that did not compile, with the text of the error.
pub open spec fn compile_failure(message: Seq<char>) -> Result<(), Seq<char>> {
    Err(message)
}

/// A new tinytemplate registry (`TinyTemplate::new`), holding no template.
#[verifier::external_body]
fn new_registry() -> (r: Registry)
    ensures
        registered_templates(r) == no_templates(),
{
    tinytemplate::TinyTemplate::new()
}

/// Compiles a template and registers it under `name` (`TinyTemplate::add_template`): where
/// the text compiles the registry holds it under the name, else the registry is unchanged
/// and the error is given as its text.
#[verifier::external_body]
fn add_template(
    tt: &mut Registry,
    name: StaticText,
    text: StaticText,
) -> (r: Result<(), String>)
    ensures
        r is Ok <==> template_compile_result(text@) is Ok,
        r matches Err(m) ==> template_compile_result(text@) == compile_failure(m@) && registered_templates(*final(tt))
            == registered_templates(*old(tt)),
        r is Ok ==> registered_templates(*final(tt)) == registered_templates(*old(tt)).insert(name@, text@),
{
    tt.add_template(name, text).map_err(|e| e.to_string())
}

/// Renders the template registered under `name` (`TinyTemplate::render`) with a context of
/// the indent, the top-level flag, the method name and the type path. Every registered
/// template is a method template, none of which calls another, so the call comes back. The
/// contract claims only that the result, or the text of the error, is what
/// `rendered_template` names.
#[verifier::external_body]
fn render_template(
    tt: &tinytemplate::TinyTemplate,
    name: &str,
    indent: &str,
    top_level: bool,
    method_name: &str,
    type_path: &str,
) -> (r: Result<String, String>)
    requires
        forall|k: Seq<char>| #[trigger]
            registered_templates(*tt).contains_key(k) ==> is_method_template(registered_templates(*tt)[k]),
    ensures
        match r {
            Ok(t) => rendered_template(registered_templates(*tt), name@, indent@, top_level, method_name@, type_path@)
                == Ok::<Seq<char>, Seq<char>>(t@),
            Err(m) => rendered_template(registered_templates(*tt), name@, indent@, top_level, method_name@, type_path@)
                == Err::<Seq<char>, Seq<char>>(m@),
        },
{
    let mut context = serde_json::Map::new();
    context.insert(String::from("indent"), serde_json::Value::String(indent.to_string()));
    context.insert(String::from("top_level"), serde_json::Value::Bool(top_level));
    context.insert(String::from("name"), serde_json::Value::String(method_name.to_string()));
    context.insert(String::from("type_path"), serde_json::Value::String(type_path.to_string()));
    tt.render(name, &serde_json::Value::Object(context)).map_err(|e| e.to_string())
}

/// Renders a method template alone under the name "method" (see `rendered_method`).
fn render_method(template: StaticText, indent: &str, top_level: bool, name: &str, type_path: &str) -> (r:
    Result<String, String>)
    requires
        is_method_template(template@),
    ensures
        match r {
            Ok(t) => rendered_method(template@, indent@, top_level, name@, type_path@) == Ok::<
                Seq<char>,
                Seq<char>,
            >(t@),
            Err(m) => rendered_method(template@, indent@, top_level, name@, type_path@) == Err::<
                Seq<char>,
                Seq<char>,
            >(m@),
        },
{
    let mut tt = new_registry();
    match add_template(&mut tt, "method", template) {
        Err(m) => Err(m),
        Ok(()) => {
            proof {
                reveal_strlit("method");
                let reg = registered_templates(tt);
                assert(reg == Map::<Seq<char>, Seq<char>>::empty().insert("method"@, template@));
                assert forall|k: Seq<char>| #[trigger] reg.contains_key(k) implies is_method_template(reg[k]) by {
                    assert(k == "method"@);
                }
            }
            render_template(&tt, "method", indent, top_level, name, type_path)
        },
    }
}

/// A method template rendered for the message of this full name.
pub open spec fn method_for(template: Seq<char>, full_name: Seq<char>, indent: nat) -> Result<
    Seq<char>,
    Seq<char>,
> {
    rendered_method(
        template,
        spaces(indent),
        is_top_level_message(full_name),
        method_name_fragment(full_name),
        rust_type_path(full_name),
    )
}

/// The method that walks the message of this full name: the rendered opening, the code
/// that walks its fields, and the closing; or the error of the rendering.
pub open spec fn visit_method(
    full_name: Seq<char>,
    c: MessageContent,
    indent: nat,
    names: Set<Seq<char>>,
) -> Result<Seq<char>, Seq<char>> {
    match method_for(VISIT_METHOD_TEMPLATE@, full_name, indent) {
        Err(m) => Err(m),
        Ok(h) => {
            let ind = spaces(indent);
            Ok(
                h + fields_text(
                    ordered_fields(c.1),
                    Seq::empty(),
                    c,
                    ind,
                    snake_case(rust_type_path(full_name)),
                    names,
                ) + "\n"@ + ind + "    visitor.post_process_"@ + method_name_fragment(full_name)
                    + "(self);\n"@ + "\n"@ + ind + "    // Restore previous location\n"@ + ind
                    + "    visitor.set_location(prev_location);\n"@ + ind + "}\n}\n\n"@,
            )
        },
    }
}

/// The text of two pieces of output one after the other; the first error stops it.
pub open spec fn followed_by(a: Result<Seq<char>, Seq<char>>, b: Result<Seq<char>, Seq<char>>) -> Result<
    Seq<char>,
    Seq<char>,
> {
    match a {
        Err(m) => Err(m),
        Ok(x) => match b {
            Err(m) => Err(m),
            Ok(y) => Ok(x + y),
        },
    }
}

/// Whether an exec result and an output string show the given piece of output appended.
pub open spec fn emitted(
    r: Result<(), GeneratorError>,
    before: Seq<char>,
    after: Seq<char>,
    x: Result<Seq<char>, Seq<char>>,
) -> bool {
    match x {
        Ok(t) => r is Ok && after == before + t,
        Err(m) => r matches Err(GeneratorError::Template(e)) && e@ == m,
    }
}

/// The methods rendered from `template` for the names of `s` that the registry holds,
/// in order.
pub open spec fn methods_in_order(
    template: Seq<char>,
    s: Seq<Seq<char>>,
    registry: Map<Seq<char>, MessageContent>,
    indent: nat,
) -> Result<Seq<char>, Seq<char>>
    decreases s.len(),
{
    if s.len() == 0 {
        Ok(Seq::empty())
    } else {
        followed_by(
            methods_in_order(template, s.drop_last(), registry, indent),
            if registry.contains_key(s.last()) {
                method_for(template, s.last(), indent)
            } else {
                Ok(Seq::empty())
            },
        )
    }
}

/// The methods rendered from `template` for the names of `s` that the registry holds,
/// last name first.
pub open spec fn methods_in_reverse(
    template: Seq<char>,
    s: Seq<Seq<char>>,
    registry: Map<Seq<char>, MessageContent>,
    indent: nat,
) -> Result<Seq<char>, Seq<char>>
    decreases s.len(),
{
    if s.len() == 0 {
        Ok(Seq::empty())
    } else {
        followed_by(
            if registry.contains_key(s.last()) {
                method_for(template, s.last(), indent)
            } else {
                Ok(Seq::empty())
            },
            methods_in_reverse(template, s.drop_last(), registry, indent),
        )
    }
}

/// The names of `all` that are not in `top`, in order.
pub open spec fn other_names(all: Seq<Seq<char>>, top: Seq<Seq<char>>) -> Seq<Seq<char>>
    decreases all.len(),
{
    if all.len() == 0 {
        Seq::empty()
    } else {
        let r = other_names(all.drop_last(), top);
        if top.contains(all.last()) {
            r
        } else {
            r.push(all.last())
        }
    }
}

/// The walking methods for the names of `s` that the registry holds, in order.
pub open spec fn walks_in_order(
    s: Seq<Seq<char>>,
    registry: Map<Seq<char>, MessageContent>,
    indent: nat,
    names: Set<Seq<char>>,
) -> Result<Seq<char>, Seq<char>>
    decreases s.len(),
{
    if s.len() == 0 {
        Ok(Seq::empty())
    } else {
        followed_by(
            walks_in_order(s.drop_last(), registry, indent, names),
            if registry.contains_key(s.last()) {
                visit_method(s.last(), registry[s.last()], indent, names)
            } else {
                Ok(Seq::empty())
            },
        )
    }
}

/// The walking methods for the names of `s` that the registry holds, last name first.
pub open spec fn walks_in_reverse(
    s: Seq<Seq<char>>,
    registry: Map<Seq<char>, MessageContent>,
    indent: nat,
    names: Set<Seq<char>>,
) -> Result<Seq<char>, Seq<char>>
    decreases s.len(),
{
    if s.len() == 0 {
        Ok(Seq::empty())
    } else {
        followed_by(
            if registry.contains_key(s.last()) {
                visit_method(s.last(), registry[s.last()], indent, names)
            } else {
                Ok(Seq::empty())
            },
            walks_in_reverse(s.drop_last(), registry, indent, names),
        )
    }
}

/// Whether a field holds a relation: its type name ends with `.Rel`. Such fields are
/// visited last, so that the expressions of a relation (and the subqueries in them) come
/// before its inputs.
pub fn is_rel_field(field: &FieldDescriptor) -> (r: bool)
    ensures
        r == is_rel_type(*field),
{
    match &field.field_type {
        Some(t) => ends_with(t.as_str(), ".Rel") || text_equals(t.as_str(), ".substrait.Rel"),
        None => false,
    }
}

/// `n` spaces (`" ".repeat(n)`).
fn spaces_text(n: usize) -> (r: String)
    ensures
        r@ == spaces(n as nat),
{
    let mut r = String::new();
    let mut i: usize = 0;
    while i < n
        invariant
            i <= n,
            r@ == spaces(i as nat),
        decreases n - i,
    {
        push_char(&mut r, ' ');
        assert(r@ =~= spaces((i + 1) as nat));
        i += 1;
    }
    r
}

/// Appends the match arm that walks one field of a oneof.
fn append_oneof_arm(
    f: &FieldDescriptor,
    indent_str: &String,
    parent_path: &String,
    oneof_type: &String,
    output: &mut String,
)
    ensures
        final(output)@ == old(output)@ + oneof_arm(*f, indent_str@, parent_path@, oneof_type@),
{
    let rel_variant = to_pascal_case(f.name.as_str());
    let field_name = to_rust_safe_name(f.name.as_str());
    let mut sec = indent_str.clone();
    sec.append("            ");
    sec.append(parent_path.as_str());
    sec.append("::");
    sec.append(oneof_type.as_str());
    sec.append("::");
    sec.append(rel_variant.as_str());
    sec.append("(value) => {\n");
    sec.append(indent_str.as_str());
    sec.append("                // Set location to field within oneof\n");
    sec.append(indent_str.as_str());
    sec.append("                let field_loc = visitor.field_location(\"");
    sec.append(field_name.as_str());
    sec.append("\");\n");
    sec.append(indent_str.as_str());
    sec.append("                visitor.set_location(field_loc);\n");
    sec.append(indent_str.as_str());
    sec.append("                value.traverse(visitor);\n");
    sec.append(indent_str.as_str());
    sec.append("                visitor.set_location(prev_location.clone());\n");
    sec.append(indent_str.as_str());
    sec.append("            }\n");
    output.append(sec.as_str());
}

/// Appends the code that walks a field outside any oneof.
fn append_field_section(f: &FieldDescriptor, indent_str: &String, output: &mut String)
    ensures
        final(output)@ == old(output)@ + field_section(*f, indent_str@),
{
    let field_name = to_rust_safe_name(f.name.as_str());
    let n = field_name.as_str();
    let ind = indent_str.as_str();
    match f.label {
        FieldLabel::Repeated => {
            let mut sec = indent_str.clone();
            sec.append("    // Process repeated field: ");
            sec.append(n);
            sec.append("\n");
            sec.append(ind);
            sec.append("    for (idx, x) in self.");
            sec.append(n);
            sec.append(".iter().enumerate() {\n");
            sec.append(ind);
            sec.append("        // Set location to indexed field\n");
            sec.append(ind);
            sec.append("        let field_loc = visitor.indexed_field_location(\"");
            sec.append(n);
            sec.append("\", idx);\n");
            sec.append(ind);
            sec.append("        visitor.set_location(field_loc);\n");
            sec.append(ind);
            sec.append("        x.traverse(visitor);\n");
            sec.append(ind);
            sec.append("        visitor.set_location(prev_location.clone());\n");
            sec.append(ind);
            sec.append("    }\n");
            output.append(sec.as_str());
        },
        FieldLabel::Optional => {
            let mut sec = indent_str.clone();
            sec.append("    // Process optional field: ");
            sec.append(n);
            sec.append("\n");
            sec.append(ind);
            sec.append("    if let Some(");
            sec.append(n);
            sec.append(") = &self.");
            sec.append(n);
            sec.append(" {\n");
            sec.append(ind);
            sec.append("        // Set location to field\n");
            sec.append(ind);
            sec.append("        let field_loc = visitor.field_location(\"");
            sec.append(n);
            sec.append("\");\n");
            sec.append(ind);
            sec.append("        visitor.set_location(field_loc);\n");
            sec.append(ind);
            sec.append("        ");
            sec.append(n);
            sec.append(".traverse(visitor);\n");
            sec.append(ind);
            sec.append("        visitor.set_location(prev_location.clone());\n");
            sec.append(ind);
            sec.append("    }\n");
            output.append(sec.as_str());
        },
        FieldLabel::Required => {
            let mut sec = indent_str.clone();
            sec.append("    // Process field: ");
            sec.append(n);
            sec.append("\n");
            sec.append(ind);
            sec.append("    let field_loc = visitor.field_location(\"");
            sec.append(n);
            sec.append("\");\n");
            sec.append(ind);
            sec.append("    visitor.set_location(field_loc);\n");
            sec.append(ind);
            sec.append("        ");
            sec.append(n);
            sec.append(".traverse(visitor);\n");
            sec.append(ind);
            sec.append("        visitor.set_location(prev_location.clone());\n");
            output.append(sec.as_str());
        },
    }
}

/// Every field that `fields_of_kind` keeps is one of the fields it was given.
proof fn lemma_fields_of_kind_from(fields: Seq<FieldDescriptor>, rel: bool, i: int)
    requires
        0 <= i < fields_of_kind(fields, rel).len(),
    ensures
        exists|j: int| 0 <= j < fields.len() && fields[j] == fields_of_kind(fields, rel)[i],
    decreases fields.len(),
{
    let r = fields_of_kind(fields.drop_last(), rel);
    if i < r.len() {
        lemma_fields_of_kind_from(fields.drop_last(), rel, i);
        let j = choose|j: int| 0 <= j < fields.drop_last().len() && fields.drop_last()[j] == r[i];
        assert(fields[j] == r[i]);
    } else {
        assert(fields[fields.len() - 1] == fields_of_kind(fields, rel)[i]);
    }
}

/// Every field that `fields_of_kind` keeps is of the kind asked for.
proof fn lemma_fields_of_kind_all(fields: Seq<FieldDescriptor>, rel: bool)
    ensures
        forall|i: int|
            0 <= i < fields_of_kind(fields, rel).len() ==> is_rel_type(
                #[trigger] fields_of_kind(fields, rel)[i],
            ) == rel,
    decreases fields.len(),
{
    if fields.len() > 0 {
        let r = fields_of_kind(fields.drop_last(), rel);
        lemma_fields_of_kind_all(fields.drop_last(), rel);
        assert forall|i: int| 0 <= i < fields_of_kind(fields, rel).len() implies is_rel_type(
            #[trigger] fields_of_kind(fields, rel)[i],
        ) == rel by {
            if i < r.len() {
                assert(fields_of_kind(fields, rel)[i] == r[i]);
            }
        }
    }
}

/// The fields of the two kinds are, together, the fields.
proof fn lemma_fields_of_kind_multiset(fields: Seq<FieldDescriptor>)
    ensures
        fields_of_kind(fields, false).to_multiset().add(fields_of_kind(fields, true).to_multiset())
            == fields.to_multiset(),
    decreases fields.len(),
{
    broadcast use vstd::multiset::group_multiset_axioms;
    broadcast use vstd::seq_lib::to_multiset_build;

    if fields.len() == 0 {
        broadcast use vstd::seq_lib::to_multiset_len;
        broadcast use vstd::multiset::lemma_multiset_empty_len;

        let e = vstd::multiset::Multiset::<FieldDescriptor>::empty();
        assert(fields.to_multiset().len() == 0);
        assert(fields_of_kind(fields, false).to_multiset().len() == 0);
        assert(fields_of_kind(fields, true).to_multiset().len() == 0);
        assert(e.add(e) =~= e);
    } else {
        let g = fields.drop_last();
        let x = fields.last();
        lemma_fields_of_kind_multiset(g);
        assert(fields =~= g.push(x));
        let a = fields_of_kind(g, false);
        let b = fields_of_kind(g, true);
        if is_rel_type(x) {
            assert(a.to_multiset().add(b.push(x).to_multiset()) =~= a.to_multiset().add(
                b.to_multiset(),
            ).insert(x));
        } else {
            assert(a.push(x).to_multiset().add(b.to_multiset()) =~= a.to_multiset().add(
                b.to_multiset(),
            ).insert(x));
        }
    }
}

/// The fields of a message are walked with those that hold relations after all the others,
/// so that the expressions of a relation, and the subqueries in them, are walked before its
/// inputs: the walk holds each field once, and no field that holds a relation comes before
/// one that does not.
pub proof fn lemma_relation_fields_walked_last(fields: Seq<FieldDescriptor>)
    ensures
        ordered_fields(fields).to_multiset() == fields.to_multiset(),
        forall|i: int, j: int|
            0 <= i < j < ordered_fields(fields).len() && is_rel_type(
                #[trigger] ordered_fields(fields)[i],
            ) ==> is_rel_type(#[trigger] ordered_fields(fields)[j]),
{
    broadcast use vstd::seq_lib::lemma_multiset_commutative;

    let a = fields_of_kind(fields, false);
    let b = fields_of_kind(fields, true);
    lemma_fields_of_kind_all(fields, false);
    lemma_fields_of_kind_all(fields, true);
    lemma_fields_of_kind_multiset(fields);
    assert((a + b).to_multiset() =~= a.to_multiset().add(b.to_multiset()));
    assert forall|i: int, j: int|
        0 <= i < j < ordered_fields(fields).len() && is_rel_type(
            #[trigger] ordered_fields(fields)[i],
        ) implies is_rel_type(#[trigger] ordered_fields(fields)[j]) by {
        if i < a.len() {
            assert(ordered_fields(fields)[i] == a[i]);
        }
        assert(ordered_fields(fields)[j] == b[j - a.len()]);
    }
}

/// Whether `v` holds `k` (`<[i32]>::contains`).
fn holds_index(v: &Vec<i32>, k: i32) -> (r: bool)
    ensures
        r == v@.contains(k),
{
    let mut i: usize = 0;
    while i < v.len()
        invariant
            i <= v@.len(),
            forall|j: int| 0 <= j < i ==> v@[j] != k,
        decreases v.len() - i,
    {
        if v[i] == k {
            return true;
        }
        i += 1;
    }
    false
}

/// The generator of the visitor over Substrait's protobuf messages.
pub struct VisitorGenerator {
    /// The protobuf files to generate from.
    proto_descriptor: FileDescriptorSet,
    /// Where the generated code goes.
    output_path: String,
    /// The messages indexed so far, each once, by full name.
    message_types: Vec<IndexedMessage>,
    /// The full names of all indexed messages, in order.
    all_message_types: Vec<String>,
    /// The full names of the top-level messages, in order.
    top_level_messages: Vec<String>,
}

impl VisitorGenerator {
    /// The messages indexed so far, by full name.
    pub closed spec fn registry(&self) -> Map<Seq<char>, MessageContent> {
        registry_of(self.message_types@)
    }

    /// The full names of all indexed messages, in order.
    pub closed spec fn all_names(&self) -> Seq<Seq<char>> {
        texts_view(self.all_message_types@)
    }

    /// The full names of the top-level messages, in order.
    pub closed spec fn top_level_names(&self) -> Seq<Seq<char>> {
        texts_view(self.top_level_messages@)
    }

    /// The files to generate from.
    pub closed spec fn descriptor(&self) -> FileDescriptorSet {
        self.proto_descriptor
    }

    /// Where the generated code goes.
    pub closed spec fn output(&self) -> Seq<char> {
        self.output_path@
    }

    /// The indexed messages are held once each, and the list of all names is the registry's
    /// names in order.
    pub closed spec fn well_formed(&self) -> bool {
        &&& unique_names(self.message_types@)
        &&& strictly_sorted(self.all_names())
        &&& self.all_names().to_set() == self.registry().dom()
        &&& strictly_sorted(self.top_level_names())
    }

    /// Create a new generator
    pub fn new(proto_descriptor: FileDescriptorSet, output_path: String) -> (r: Self)
        ensures
            r.well_formed(),
            r.descriptor() == proto_descriptor,
            r.output() == output_path@,
            r.registry() == Map::<Seq<char>, MessageContent>::empty(),
            r.all_names() == Seq::<Seq<char>>::empty(),
            r.top_level_names() == Seq::<Seq<char>>::empty(),
    {
        let r = Self {
            proto_descriptor,
            output_path,
            message_types: Vec::new(),
            all_message_types: Vec::new(),
            top_level_messages: Vec::new(),
        };
        assert(r.registry() =~= Map::<Seq<char>, MessageContent>::empty());
        assert(r.all_names().to_set() =~= Set::<Seq<char>>::empty());
        r
    }

    /// Registers a message under its full name, replacing one of the same name.
    fn register(&mut self, full_name: String, msg: &MessageDescriptor)
        requires
            unique_names(old(self).message_types@),
        ensures
            unique_names(final(self).message_types@),
            final(self).registry() == old(self).registry().insert(full_name@, descriptor_content(*msg)),
            final(self).all_message_types == old(self).all_message_types,
            final(self).top_level_messages == old(self).top_level_messages,
            final(self).proto_descriptor == old(self).proto_descriptor,
            final(self).output_path == old(self).output_path,
    {
        let ghost old_v = self.message_types@;
        let ghost k = full_name@;
        let entry = IndexedMessage {
            full_name,
            name: msg.name.clone(),
            field: copy_fields(&msg.field),
            oneof_decl: copy_strings(&msg.oneof_decl),
        };
        let ghost c = indexed_content(entry);
        assert(c == descriptor_content(*msg));
        let found = find_message(&self.message_types, entry.full_name.as_str());
        match found {
            Some(i) => {
                self.message_types.set(i, entry);
            },
            None => {
                self.message_types.push(entry);
            },
        }
        let ghost v = self.message_types@;
        assert(unique_names(v)) by {
            assert forall|a: int, b: int| 0 <= a < b < v.len() implies (#[trigger] v[a]).full_name@
                != (#[trigger] v[b]).full_name@ by {
                if found is None {
                    if b == old_v.len() {
                        assert(v[a] == old_v[a]);
                    } else {
                        assert(v[a] == old_v[a] && v[b] == old_v[b]);
                    }
                } else {
                    let p = found->0 as int;
                    if a == p {
                        assert(v[b] == old_v[b]);
                        assert(old_v[p].full_name@ != old_v[b].full_name@);
                    } else if b == p {
                        assert(v[a] == old_v[a]);
                        assert(old_v[a].full_name@ != old_v[p].full_name@);
                    } else {
                        assert(v[a] == old_v[a] && v[b] == old_v[b]);
                    }
                }
            }
        }
        let ghost m = registry_of(old_v).insert(k, c);
        assert(registry_of(v) =~= m) by {
            assert forall|x: Seq<char>| #[trigger] registry_of(v).contains_key(x) <==> m.contains_key(
                x,
            ) by {
                if registry_of(v).contains_key(x) {
                    let j = choose|j: int| 0 <= j < v.len() && (#[trigger] v[j]).full_name@ == x;
                    if x != k {
                        assert(v[j] == old_v[j]);
                        lemma_registry_lookup(old_v, j);
                    }
                }
                if registry_of(old_v).contains_key(x) && x != k {
                    let j = choose|j: int| 0 <= j < old_v.len() && (#[trigger] old_v[j]).full_name@
                        == x;
                    assert(v[j] == old_v[j]);
                    lemma_registry_lookup(v, j);
                }
                if x == k {
                    let p = match found {
                        Some(i) => i as int,
                        None => old_v.len() as int,
                    };
                    lemma_registry_lookup(v, p);
                }
            }
            assert forall|x: Seq<char>| #[trigger] registry_of(v).contains_key(x) implies registry_of(
                v,
            )[x] == m[x] by {
                let j = choose|j: int| 0 <= j < v.len() && (#[trigger] v[j]).full_name@ == x;
                lemma_registry_lookup(v, j);
                if x != k {
                    assert(v[j] == old_v[j]);
                    lemma_registry_lookup(old_v, j);
                }
            }
        }
    }

    /// Indexes a message and the messages nested in it under their full names.
    fn index_protomessage(&mut self, parent_name: &str, msg: &MessageDescriptor)
        requires
            old(self).well_formed(),
        ensures
            final(self).well_formed(),
            final(self).registry() == registered(old(self).registry(), message_tree(parent_name@, *msg)),
            final(self).top_level_names() == old(self).top_level_names(),
            final(self).descriptor() == old(self).descriptor(),
            final(self).output() == old(self).output(),
        decreases *msg,
    {
        let message_name = if parent_name.unicode_len() == 0 {
            msg.name.clone()
        } else {
            let mut n = String::from_str(parent_name);
            push_char(&mut n, '.');
            n.append(msg.name.as_str());
            n
        };
        let ghost full = message_name@;
        assert(full == full_message_name(parent_name@, msg.name@));
        let ghost m0 = self.registry();
        self.register(message_name.clone(), msg);
        insert_name(&mut self.all_message_types, message_name.clone());
        proof {
            let s = self.all_names().to_set();
            assert(s =~= self.registry().dom());
        }
        let ghost head = seq![(full, descriptor_content(*msg))];
        assert(registered(m0, head) == m0.insert(full, descriptor_content(*msg))) by {
            assert(head.drop_last() =~= Seq::<(Seq<char>, MessageContent)>::empty());
            assert(registered(m0, head.drop_last()) == m0);
        }
        let mut i: usize = 0;
        assert(msg.nested_type@.take(0) =~= Seq::<MessageDescriptor>::empty());
        assert(head + message_forest(full, msg.nested_type@.take(0)) =~= head);
        while i < msg.nested_type.len()
            invariant
                i <= msg.nested_type@.len(),
                self.well_formed(),
                full == message_name@,
                self.registry() == registered(m0, head + message_forest(full, msg.nested_type@.take(i as int))),
                self.top_level_names() == old(self).top_level_names(),
                self.descriptor() == old(self).descriptor(),
                self.output() == old(self).output(),
            decreases msg.nested_type.len() - i,
        {
            assert(decreases_to!(*msg => msg.nested_type@[i as int]));
            self.index_protomessage(message_name.as_str(), &msg.nested_type[i]);
            proof {
                let t = msg.nested_type@.take(i + 1);
                assert(t.subrange(0, t.len() - 1) =~= msg.nested_type@.take(i as int));
                assert(t[t.len() - 1] == msg.nested_type@[i as int]);
                let f = message_forest(full, msg.nested_type@.take(i as int));
                let g = message_tree(full, msg.nested_type@[i as int]);
                assert(message_forest(full, t) == f + g);
                lemma_registered_append(m0, head + f, g);
                assert(head + f + g =~= head + (f + g));
            }
            i += 1;
        }
        proof {
            assert(msg.nested_type@.take(msg.nested_type@.len() as int) =~= msg.nested_type@);
        }
    }

    /// Indexes the messages of every file but those of `google.` packages.
    fn index_protobuffers(&mut self)
        requires
            old(self).well_formed(),
        ensures
            final(self).well_formed(),
            final(self).registry() == registered(old(self).registry(), file_messages(old(self).descriptor().file@)),
            final(self).top_level_names() == old(self).top_level_names(),
            final(self).descriptor() == old(self).descriptor(),
            final(self).output() == old(self).output(),
    {
        let mut descriptor = FileDescriptorSet { file: Vec::new() };
        core::mem::swap(&mut descriptor, &mut self.proto_descriptor);
        let ghost files = descriptor.file@;
        let ghost r0 = self.registry();
        let mut i: usize = 0;
        assert(files.take(0) =~= Seq::<FileDescriptor>::empty());
        while i < descriptor.file.len()
            invariant
                i <= files.len(),
                files == descriptor.file@,
                self.well_formed(),
                self.registry() == registered(r0, file_messages(files.take(i as int))),
                self.top_level_names() == old(self).top_level_names(),
                self.output() == old(self).output(),
            decreases files.len() - i,
        {
            let fileinfo = &descriptor.file[i];
            let ghost done = file_messages(files.take(i as int));
            proof {
                let t = files.take(i + 1);
                assert(t.drop_last() =~= files.take(i as int));
                assert(t.last() == files[i as int]);
            }
            if !starts_with(fileinfo.package.as_str(), "google.") {
                let ghost pkg = fileinfo.package@;
                let ghost msgs = fileinfo.message_type@;
                let mut j: usize = 0;
                assert(msgs.take(0) =~= Seq::<MessageDescriptor>::empty());
                assert(done + message_forest(pkg, msgs.take(0)) =~= done);
                while j < fileinfo.message_type.len()
                    invariant
                        j <= msgs.len(),
                        msgs == fileinfo.message_type@,
                        pkg == fileinfo.package@,
                        self.well_formed(),
                        self.registry() == registered(r0, done + message_forest(pkg, msgs.take(j as int))),
                        self.top_level_names() == old(self).top_level_names(),
                        self.output() == old(self).output(),
                    decreases msgs.len() - j,
                {
                    self.index_protomessage(fileinfo.package.as_str(), &fileinfo.message_type[j]);
                    proof {
                        let t = msgs.take(j + 1);
                        assert(t.subrange(0, t.len() - 1) =~= msgs.take(j as int));
                        assert(t[t.len() - 1] == msgs[j as int]);
                        let f = message_forest(pkg, msgs.take(j as int));
                        let g = message_tree(pkg, msgs[j as int]);
                        assert(message_forest(pkg, t) == f + g);
                        lemma_registered_append(r0, done + f, g);
                        assert(done + f + g =~= done + (f + g));
                    }
                    j += 1;
                }
                assert(msgs.take(msgs.len() as int) =~= msgs);
            } else {
                assert(done + Seq::<(Seq<char>, MessageContent)>::empty() =~= done);
            }
            i += 1;
        }
        assert(files.take(files.len() as int) =~= files);
        core::mem::swap(&mut descriptor, &mut self.proto_descriptor);
    }

    /// Marks as top-level the messages whose names end with `Plan` or `ExtendedExpression`.
    fn mark_special_message_types(&mut self)
        requires
            old(self).well_formed(),
        ensures
            final(self).well_formed(),
            final(self).registry() == old(self).registry(),
            final(self).all_names() == old(self).all_names(),
            final(self).top_level_names().to_set() == old(self).top_level_names().to_set().union(
                old(self).registry().dom().filter(
                    |k: Seq<char>| is_top_level_name(old(self).registry()[k].0),
                ),
            ),
            final(self).descriptor() == old(self).descriptor(),
            final(self).output() == old(self).output(),
    {
        let ghost v = self.message_types@;
        let ghost m = self.registry();
        let ghost t0 = self.top_level_names().to_set();
        let mut i: usize = 0;
        while i < self.message_types.len()
            invariant
                i <= v.len(),
                v == self.message_types@,
                m == self.registry(),
                self.well_formed(),
                self.all_names() == old(self).all_names(),
                self.descriptor() == old(self).descriptor(),
                self.output() == old(self).output(),
                self.top_level_names().to_set() == t0.union(
                    Set::new(|k: Seq<char>| exists|j: int| 0 <= j < i && (#[trigger] v[j]).full_name@ == k && is_top_level_name(m[k].0)),
                ),
            decreases v.len() - i,
        {
            let ghost before = self.top_level_names().to_set();
            let message = &self.message_types[i];
            proof {
                lemma_registry_lookup(v, i as int);
            }
            let is_top = ends_with(message.name.as_str(), "Plan") || ends_with(
                message.name.as_str(),
                "ExtendedExpression",
            );
            let name = message.full_name.clone();
            assert(is_top == is_top_level_name(v[i as int].name@));
            assert(m[v[i as int].full_name@].0 == v[i as int].name@);
            assert(is_top == is_top_level_name(m[v[i as int].full_name@].0));
            if is_top {
                insert_name(&mut self.top_level_messages, name);
                assert(self.top_level_names().to_set() == before.insert(v[i as int].full_name@));
            }
            proof {
                let k0 = v[i as int].full_name@;
                assert(m[k0].0 == v[i as int].name@);
                let a = Set::new(|k: Seq<char>| exists|j: int| 0 <= j < i && (#[trigger] v[j]).full_name@ == k && is_top_level_name(m[k].0));
                let b = Set::new(|k: Seq<char>| exists|j: int| 0 <= j < i + 1 && (#[trigger] v[j]).full_name@ == k && is_top_level_name(m[k].0));
                if is_top_level_name(m[k0].0) {
                    assert(b =~= a.insert(k0)) by {
                        assert forall|k: Seq<char>| b.contains(k) implies a.insert(k0).contains(k) by {
                            let j = choose|j: int| 0 <= j < i + 1 && (#[trigger] v[j]).full_name@ == k && is_top_level_name(m[k].0);
                            if j < i {
                                assert(a.contains(k));
                            }
                        }
                        assert(b.contains(k0));
                    }
                } else {
                    assert(b =~= a) by {
                        assert forall|k: Seq<char>| b.contains(k) implies a.contains(k) by {
                            let j = choose|j: int| 0 <= j < i + 1 && (#[trigger] v[j]).full_name@ == k && is_top_level_name(m[k].0);
                            if j == i {
                                assert(k == k0);
                            }
                        }
                    }
                }
            }
            assert(self.top_level_names().to_set() =~= t0.union(
                Set::new(|k: Seq<char>| exists|j: int| 0 <= j < i + 1 && (#[trigger] v[j]).full_name@ == k && is_top_level_name(m[k].0)),
            ));
            i += 1;
        }
        assert(Set::new(|k: Seq<char>| exists|j: int| 0 <= j < v.len() && (#[trigger] v[j]).full_name@ == k && is_top_level_name(m[k].0))
            =~= m.dom().filter(|k: Seq<char>| is_top_level_name(m[k].0)));
    }

    /// Whether a field's type is an indexed message.
    fn is_known_message(&self, f: &FieldDescriptor) -> (r: bool)
        requires
            has_ascii_start(*f),
        ensures
            r == is_known_field(*f, self.all_names().to_set()),
    {
        match &f.field_type {
            None => false,
            Some(t) => {
                let n = t.unicode_len();
                if n == 0 {
                    false
                } else {
                    let rest = t.as_str().substring_char(1, n);
                    assert(rest@ =~= t@.drop_first());
                    contains_name(&self.all_message_types, rest)
                }
            },
        }
    }

    /// Generate an implementation for a preprocess method
    fn generate_preprocess_method(&self, full_name: &str, output: &mut String, indent: usize) -> (r:
        Result<(), GeneratorError>)
        requires
            pieces(full_name@, '.').len() >= 2,
        ensures
            emitted(r, old(output)@, final(output)@, method_for(PREPROCESS_TEMPLATE@, full_name@, indent as nat)),
    {
        let indent_str = spaces_text(indent);
        let method_name = get_method_name_fragment(full_name);
        let rust_type_path = get_rust_type_path(full_name);
        let top_level = text_equals(full_name, "substrait.Plan") || text_equals(
            full_name,
            "substrait.ExtendedExpression",
        );
        match render_method(
            PREPROCESS_TEMPLATE,
            indent_str.as_str(),
            top_level,
            method_name.as_str(),
            rust_type_path.as_str(),
        ) {
            Ok(t) => {
                output.append(t.as_str());
                Ok(())
            },
            Err(m) => Err(GeneratorError::Template(m)),
        }
    }

    /// Generate an implementation for a postprocess method
    fn generate_postprocess_method(&self, full_name: &str, output: &mut String, indent: usize) -> (r:
        Result<(), GeneratorError>)
        requires
            pieces(full_name@, '.').len() >= 2,
        ensures
            emitted(r, old(output)@, final(output)@, method_for(POSTPROCESS_TEMPLATE@, full_name@, indent as nat)),
    {
        let indent_str = spaces_text(indent);
        let method_name = get_method_name_fragment(full_name);
        let rust_type_path = get_rust_type_path(full_name);
        let top_level = text_equals(full_name, "substrait.Plan") || text_equals(
            full_name,
            "substrait.ExtendedExpression",
        );
        match render_method(
            POSTPROCESS_TEMPLATE,
            indent_str.as_str(),
            top_level,
            method_name.as_str(),
            rust_type_path.as_str(),
        ) {
            Ok(t) => {
                output.append(t.as_str());
                Ok(())
            },
            Err(m) => Err(GeneratorError::Template(m)),
        }
    }

    /// The code that walks the oneof at `oneof_index` of a message.
    #[verifier::rlimit(30)]
    fn generate_oneof_section(
        &self,
        message: &IndexedMessage,
        oneof_index: i32,
        indent_str: &String,
        parent_path: &String,
        output: &mut String,
    )
        requires
            walkable(indexed_content(*message), self.all_names().to_set()),
            exists|i: int| 0 <= i < message.field@.len() && (#[trigger] message.field@[i]).oneof_index == Some(oneof_index),
        ensures
            final(output)@ == old(output)@ + oneof_section(
                indexed_content(*message),
                oneof_index,
                indent_str@,
                parent_path@,
                self.all_names().to_set(),
            ),
    {
        let ghost names = self.all_names().to_set();
        let ghost c = indexed_content(*message);
        let ghost start = output@;
        let ghost fields = message.field@;
        assert(has_oneof_field(fields));
        let mut i: usize = 0;
        while i < message.field.len()
            invariant
                i <= fields.len(),
                fields == message.field@,
                c == indexed_content(*message),
                names == self.all_names().to_set(),
                walkable(c, names),
                has_oneof_field(fields),
                output@ == start,
                forall|j: int| 0 <= j < i ==> is_known_field(#[trigger] fields[j], names),
            decreases fields.len() - i,
        {
            assert(has_ascii_start(fields[i as int]));
            if !self.is_known_message(&message.field[i]) {
                assert(!all_fields_known(fields, names));
                assert(output@ =~= start + oneof_section(c, oneof_index, indent_str@, parent_path@, names));
                return;
            }
            i += 1;
        }
        assert(all_fields_known(fields, names));
        let k = oneof_index as usize;
        let oneof_name = &message.oneof_decl[k];
        let oneof_type_name = to_pascal_case(oneof_name.as_str());
        let safe = to_rust_safe_name(oneof_name.as_str());
        let mut sec = indent_str.clone();
        sec.append("    if let Some(");
        sec.append(safe.as_str());
        sec.append(") = &self.");
        sec.append(safe.as_str());
        sec.append(" {\n");
        sec.append(indent_str.as_str());
        sec.append("        match ");
        sec.append(safe.as_str());
        sec.append(" {\n");
        let ghost head = sec@;
        let ghost otype = oneof_type_name@;
        let mut j: usize = 0;
        assert(fields.take(0) =~= Seq::<FieldDescriptor>::empty());
        assert(sec@ =~= head + oneof_arms(fields.take(0), oneof_index, indent_str@, parent_path@, otype));
        while j < message.field.len()
            invariant
                j <= fields.len(),
                fields == message.field@,
                otype == oneof_type_name@,
                sec@ == head + oneof_arms(fields.take(j as int), oneof_index, indent_str@, parent_path@, otype),
            decreases fields.len() - j,
        {
            let f = &message.field[j];
            if f.oneof_index == Some(oneof_index) {
                append_oneof_arm(f, indent_str, parent_path, &oneof_type_name, &mut sec);
            }
            proof {
                let t = fields.take(j + 1);
                assert(t.drop_last() =~= fields.take(j as int));
                assert(t.last() == fields[j as int]);
                assert(sec@ =~= head + oneof_arms(t, oneof_index, indent_str@, parent_path@, otype));
            }
            j += 1;
        }
        assert(fields.take(fields.len() as int) =~= fields);
        sec.append(indent_str.as_str());
        sec.append("            _ => {}\n");
        sec.append(indent_str.as_str());
        sec.append("        }\n");
        sec.append(indent_str.as_str());
        sec.append("    }\n");
        assert(c.2[oneof_index as int] == message.oneof_decl@[k as int]);
        assert(sec@ == oneof_section(c, oneof_index, indent_str@, parent_path@, names));
        output.append(sec.as_str());
    }

    /// Get fields in the correct traversal order.
    ///
    /// Fields are ordered so that Rel-typed fields come last. This ensures that
    /// expressions (which may contain subqueries) are processed before child relations,
    /// so subquery schemas are created before main query schemas.
    fn get_ordered_fields<'a>(&self, _full_name: &str, message: &'a IndexedMessage) -> (r: Vec<
        &'a FieldDescriptor,
    >)
        ensures
            r@.map_values(|f: &FieldDescriptor| *f) == ordered_fields(message.field@),
    {
        let ghost fields = message.field@;
        let mut non_rel_fields: Vec<&'a FieldDescriptor> = Vec::new();
        let mut rel_fields: Vec<&'a FieldDescriptor> = Vec::new();
        let mut i: usize = 0;
        assert(fields.take(0) =~= Seq::<FieldDescriptor>::empty());
        while i < message.field.len()
            invariant
                i <= fields.len(),
                fields == message.field@,
                non_rel_fields@.map_values(|f: &FieldDescriptor| *f) == fields_of_kind(fields.take(i as int), false),
                rel_fields@.map_values(|f: &FieldDescriptor| *f) == fields_of_kind(fields.take(i as int), true),
            decreases fields.len() - i,
        {
            let field = &message.field[i];
            proof {
                let t = fields.take(i + 1);
                assert(t.drop_last() =~= fields.take(i as int));
                assert(t.last() == fields[i as int]);
            }
            if is_rel_field(field) {
                rel_fields.push(field);
            } else {
                non_rel_fields.push(field);
            }
            assert(non_rel_fields@.map_values(|f: &FieldDescriptor| *f) =~= fields_of_kind(fields.take(i + 1), false));
            assert(rel_fields@.map_values(|f: &FieldDescriptor| *f) =~= fields_of_kind(fields.take(i + 1), true));
            i += 1;
        }
        assert(fields.take(fields.len() as int) =~= fields);
        let ghost a = non_rel_fields@;
        let ghost b = rel_fields@;
        non_rel_fields.append(&mut rel_fields);
        assert(non_rel_fields@ =~= a + b);
        assert(non_rel_fields@.map_values(|f: &FieldDescriptor| *f) =~= a.map_values(|f: &FieldDescriptor| *f) + b.map_values(|f: &FieldDescriptor| *f));
        non_rel_fields
    }

    /// Generate an implementation for a visit method
    fn generate_visit_method(
        &self,
        full_name: &str,
        message: &IndexedMessage,
        output: &mut String,
        indent: usize,
    ) -> (r: Result<(), GeneratorError>)
        requires
            pieces(full_name@, '.').len() >= 2,
            walkable(indexed_content(*message), self.all_names().to_set()),
        ensures
            emitted(
                r,
                old(output)@,
                final(output)@,
                visit_method(full_name@, indexed_content(*message), indent as nat, self.all_names().to_set()),
            ),
    {
        let ghost names = self.all_names().to_set();
        let ghost c = indexed_content(*message);
        let ghost start = output@;
        let indent_str = spaces_text(indent);
        let method_name = get_method_name_fragment(full_name);
        let rust_type_path = get_rust_type_path(full_name);
        let top_level = text_equals(full_name, "substrait.Plan") || text_equals(
            full_name,
            "substrait.ExtendedExpression",
        );
        let rendered = render_method(
            VISIT_METHOD_TEMPLATE,
            indent_str.as_str(),
            top_level,
            method_name.as_str(),
            rust_type_path.as_str(),
        );
        let header = match rendered {
            Ok(t) => t,
            Err(m) => {
                return Err(GeneratorError::Template(m));
            },
        };
        output.append(header.as_str());
        let ordered = self.get_ordered_fields(full_name, message);
        let ghost ov = ordered@.map_values(|f: &FieldDescriptor| *f);
        let parent_path = to_snake_case(rust_type_path.as_str());
        let ghost base = output@;
        let ghost total = fields_text(ov, Seq::empty(), c, indent_str@, parent_path@, names);
        let mut handled_oneofs: Vec<i32> = Vec::new();
        let mut i: usize = 0;
        assert(ov.skip(0) =~= ov);
        assert(output@ + total =~= base + total);
        while i < ordered.len()
            invariant
                i <= ov.len(),
                ov == ordered@.map_values(|f: &FieldDescriptor| *f),
                ov == ordered_fields(message.field@),
                c == indexed_content(*message),
                names == self.all_names().to_set(),
                walkable(c, names),
                output@ + fields_text(ov.skip(i as int), handled_oneofs@, c, indent_str@, parent_path@, names)
                    == base + total,
            decreases ov.len() - i,
        {
            let rel_msg = ordered[i];
            let ghost before = output@;
            let ghost h = handled_oneofs@;
            assert(ov.skip(i as int)[0] == *rel_msg);
            assert(ov.skip(i as int).drop_first() =~= ov.skip(i + 1));
            proof {
                let nr = fields_of_kind(message.field@, false);
                if i < nr.len() {
                    assert(ov[i as int] == nr[i as int]);
                    lemma_fields_of_kind_from(message.field@, false, i as int);
                } else {
                    let rl = fields_of_kind(message.field@, true);
                    assert(ov[i as int] == rl[i - nr.len()]);
                    lemma_fields_of_kind_from(message.field@, true, i - nr.len());
                }
            }
            let ghost j = choose|j: int| 0 <= j < c.1.len() && c.1[j] == *rel_msg;
            match rel_msg.oneof_index {
                Some(oneof_index) => {
                    if !holds_index(&handled_oneofs, oneof_index) {
                        assert(c.1[j].oneof_index == Some(oneof_index));
                        self.generate_oneof_section(message, oneof_index, &indent_str, &parent_path, output);
                        handled_oneofs.push(oneof_index);
                    }
                },
                None => {
                    assert(has_ascii_start(c.1[j]));
                    if self.is_known_message(rel_msg) {
                        append_field_section(rel_msg, &indent_str, output);
                    }
                },
            }
            let ghost piece = output@.skip(before.len() as int);
            assert(output@ =~= before + piece);
            assert(fields_text(ov.skip(i as int), h, c, indent_str@, parent_path@, names) == piece
                + fields_text(ov.skip(i + 1), handled_oneofs@, c, indent_str@, parent_path@, names));
            assert(output@ + fields_text(ov.skip(i + 1), handled_oneofs@, c, indent_str@, parent_path@, names)
                =~= before + (piece + fields_text(ov.skip(i + 1), handled_oneofs@, c, indent_str@, parent_path@, names)));
            i += 1;
        }
        assert(ov.skip(ov.len() as int) =~= Seq::<FieldDescriptor>::empty());
        assert(output@ =~= base + total);
        output.append("\n");
        output.append(indent_str.as_str());
        output.append("    visitor.post_process_");
        output.append(method_name.as_str());
        output.append("(self);\n");
        output.append("\n");
        output.append(indent_str.as_str());
        output.append("    // Restore previous location\n");
        output.append(indent_str.as_str());
        output.append("    visitor.set_location(prev_location);\n");
        output.append(indent_str.as_str());
        output.append("}\n}\n\n");
        assert(output@ =~= start + (header@ + total + "\n"@ + indent_str@ + "    visitor.post_process_"@
            + method_name@ + "(self);\n"@ + "\n"@ + indent_str@ + "    // Restore previous location\n"@
            + indent_str@ + "    visitor.set_location(prev_location);\n"@ + indent_str@ + "}\n}\n\n"@));
        Ok(())
    }

    /// Whether the fields of a message can be walked (see `walkable`).
    fn is_walkable(&self, message: &IndexedMessage) -> (r: bool)
        ensures
            r == walkable(indexed_content(*message), self.all_names().to_set()),
    {
        let ghost names = self.all_names().to_set();
        let ghost c = indexed_content(*message);
        let ghost fields = message.field@;
        let mut has_oneof = false;
        let mut i: usize = 0;
        while i < message.field.len()
            invariant
                i <= fields.len(),
                fields == message.field@,
                has_oneof == exists|j: int| 0 <= j < i && (#[trigger] fields[j]).oneof_index is Some,
            decreases fields.len() - i,
        {
            if message.field[i].oneof_index.is_some() {
                has_oneof = true;
            }
            i += 1;
        }
        assert(has_oneof == has_oneof_field(fields));
        let mut known_so_far = true;
        let mut i: usize = 0;
        while i < message.field.len()
            invariant
                i <= fields.len(),
                fields == message.field@,
                c == indexed_content(*message),
                names == self.all_names().to_set(),
                has_oneof == has_oneof_field(fields),
                has_oneof ==> (known_so_far == forall|j: int|
                    0 <= j < i ==> is_known_field(#[trigger] fields[j], names)),
                forall|j: int|
                    0 <= j < i ==> ((#[trigger] fields[j]).oneof_index is None || (has_oneof_field(
                        fields,
                    ) && forall|l: int| 0 <= l < j ==> is_known_field(#[trigger] fields[l], names)))
                        ==> has_ascii_start(fields[j]),
            decreases fields.len() - i,
        {
            let f = &message.field[i];
            let reads = f.oneof_index.is_none() || (has_oneof && known_so_far);
            let ascii = match &f.field_type {
                Some(t) => {
                    let n = t.unicode_len();
                    n == 0 || (t.as_str().get_char(0) as u32) < 0x80
                },
                None => true,
            };
            assert(ascii == has_ascii_start(*f));
            if reads && !ascii {
                assert(!walkable(c, names));
                return false;
            }
            if has_oneof && known_so_far {
                known_so_far = self.is_known_message(f);
            }
            i += 1;
        }
        if has_oneof && known_so_far {
            assert(all_fields_known(fields, names));
            let mut i: usize = 0;
            while i < message.field.len()
                invariant
                    i <= fields.len(),
                    fields == message.field@,
                    c == indexed_content(*message),
                    names == self.all_names().to_set(),
                    all_fields_known(fields, names),
                    forall|j: int|
                        0 <= j < i ==> match (#[trigger] fields[j]).oneof_index {
                            Some(k) => 0 <= k < c.2.len(),
                            None => true,
                        },
                decreases fields.len() - i,
            {
                if let Some(k) = message.field[i].oneof_index {
                    if k < 0 || k as usize >= message.oneof_decl.len() {
                        assert(fields[i as int].oneof_index == Some(k));
                        assert(!walkable(c, names));
                        return false;
                    }
                }
                i += 1;
            }
        } else {
            assert(!all_fields_known(fields, names) || forall|j: int|
                0 <= j < fields.len() ==> (#[trigger] fields[j]).oneof_index is None);
        }
        true
    }

    /// Whether every indexed message can be written out (see `generatable`).
    fn is_generatable(&self) -> (r: bool)
        requires
            self.well_formed(),
        ensures
            r == generatable(self.registry(), self.all_names().to_set()),
    {
        let ghost v = self.message_types@;
        let ghost reg = self.registry();
        let ghost names = self.all_names().to_set();
        let mut i: usize = 0;
        while i < self.message_types.len()
            invariant
                i <= v.len(),
                v == self.message_types@,
                reg == self.registry(),
                names == self.all_names().to_set(),
                unique_names(v),
                forall|j: int|
                    0 <= j < i ==> pieces((#[trigger] v[j]).full_name@, '.').len() >= 2 && walkable(
                        indexed_content(v[j]),
                        names,
                    ),
            decreases v.len() - i,
        {
            let e = &self.message_types[i];
            proof {
                lemma_registry_lookup(v, i as int);
            }
            let parts = split_char(e.full_name.as_str(), '.');
            if parts.len() < 2 || !self.is_walkable(e) {
                assert(reg.contains_key(v[i as int].full_name@));
                return false;
            }
            i += 1;
        }
        assert forall|k: Seq<char>| #[trigger] reg.contains_key(k) implies pieces(k, '.').len() >= 2
            && walkable(reg[k], names) by {
            let j = choose|j: int| 0 <= j < v.len() && (#[trigger] v[j]).full_name@ == k;
            lemma_registry_lookup(v, j);
        }
        true
    }

    /// Writes the preprocess or the postprocess methods of the messages of `names` that are
    /// indexed, in order.
    fn generate_methods_in_order(&self, post: bool, names: &Vec<String>, output: &mut String) -> (r:
        Result<(), GeneratorError>)
        requires
            self.well_formed(),
            generatable(self.registry(), self.all_names().to_set()),
        ensures
            emitted(
                r,
                old(output)@,
                final(output)@,
                methods_in_order(
                    if post {
                        POSTPROCESS_TEMPLATE@
                    } else {
                        PREPROCESS_TEMPLATE@
                    },
                    texts_view(names@),
                    self.registry(),
                    4,
                ),
            ),
    {
        let ghost template = if post {
            POSTPROCESS_TEMPLATE@
        } else {
            PREPROCESS_TEMPLATE@
        };
        let ghost s = texts_view(names@);
        let ghost reg = self.registry();
        let ghost start = output@;
        let ghost mut t: Seq<char> = Seq::empty();
        let mut i: usize = 0;
        assert(s.take(0) =~= Seq::<Seq<char>>::empty());
        assert(output@ =~= start + t);
        while i < names.len()
            invariant
                i <= s.len(),
                s == texts_view(names@),
                reg == self.registry(),
                self.well_formed(),
                generatable(reg, self.all_names().to_set()),
                methods_in_order(template, s.take(i as int), reg, 4) == Ok::<Seq<char>, Seq<char>>(t),
                output@ == start + t,
                template == if post {
                    POSTPROCESS_TEMPLATE@
                } else {
                    PREPROCESS_TEMPLATE@
                },
            decreases s.len() - i,
        {
            let full_name = names[i].as_str();
            proof {
                let u = s.take(i + 1);
                assert(u.drop_last() =~= s.take(i as int));
                assert(u.last() == s[i as int]);
                assert(s[i as int] == full_name@);
            }
            let ghost before = output@;
            let found = find_message(&self.message_types, full_name);
            if let Some(j) = found {
                proof {
                    lemma_registry_lookup(self.message_types@, j as int);
                }
                let r = if post {
                    self.generate_postprocess_method(full_name, output, 4)
                } else {
                    self.generate_preprocess_method(full_name, output, 4)
                };
                proof {
                    assert(reg.contains_key(full_name@));
                    assert(methods_in_order(template, s.take(i + 1), reg, 4) == followed_by(
                        Ok(t),
                        method_for(template, full_name@, 4),
                    ));
                }
                match r {
                    Ok(()) => {},
                    Err(e) => {
                        proof {
                            lemma_methods_in_order_err(template, s, reg, 4, i + 1, e->Template_0@);
                        }
                        return Err(e);
                    },
                }
                proof {
                    let a = method_for(template, full_name@, 4)->Ok_0;
                    assert(output@ == before + a);
                    assert(output@ =~= start + (t + a));
                    t = t + a;
                }
            } else {
                proof {
                    assert(!reg.contains_key(full_name@));
                    assert(t + Seq::<char>::empty() =~= t);
                }
            }
            i += 1;
        }
        assert(s.take(s.len() as int) =~= s);
        Ok(())
    }

    /// Writes the preprocess or the postprocess methods of the messages of `to_process`
    /// that are indexed, last first.
    fn generate_methods_in_reverse(&self, post: bool, to_process: Vec<String>, output: &mut String) -> (r:
        Result<(), GeneratorError>)
        requires
            self.well_formed(),
            generatable(self.registry(), self.all_names().to_set()),
        ensures
            emitted(
                r,
                old(output)@,
                final(output)@,
                methods_in_reverse(
                    if post {
                        POSTPROCESS_TEMPLATE@
                    } else {
                        PREPROCESS_TEMPLATE@
                    },
                    texts_view(to_process@),
                    self.registry(),
                    4,
                ),
            ),
    {
        let ghost template = if post {
            POSTPROCESS_TEMPLATE@
        } else {
            PREPROCESS_TEMPLATE@
        };
        let ghost full = texts_view(to_process@);
        let ghost reg = self.registry();
        let ghost start = output@;
        let ghost mut t: Seq<char> = Seq::empty();
        let mut remaining = to_process;
        proof {
            let x = methods_in_reverse(template, full, reg, 4);
            if let Ok(y) = x {
                assert(t + y =~= y);
            }
        }
        assert(output@ =~= start + t);
        while remaining.len() > 0
            invariant
                reg == self.registry(),
                self.well_formed(),
                generatable(reg, self.all_names().to_set()),
                full == texts_view(to_process@),
                methods_in_reverse(template, full, reg, 4) == followed_by(
                    Ok(t),
                    methods_in_reverse(template, texts_view(remaining@), reg, 4),
                ),
                output@ == start + t,
                template == if post {
                    POSTPROCESS_TEMPLATE@
                } else {
                    PREPROCESS_TEMPLATE@
                },
            decreases remaining.len(),
        {
            let ghost rem = texts_view(remaining@);
            let full_name = remaining.pop().unwrap();
            assert(texts_view(remaining@) =~= rem.drop_last());
            assert(rem.last() == full_name@);
            let ghost before = output@;
            let found = find_message(&self.message_types, full_name.as_str());
            if let Some(j) = found {
                proof {
                    lemma_registry_lookup(self.message_types@, j as int);
                }
                let r = if post {
                    self.generate_postprocess_method(full_name.as_str(), output, 4)
                } else {
                    self.generate_preprocess_method(full_name.as_str(), output, 4)
                };
                proof {
                    assert(reg.contains_key(full_name@));
                    assert(methods_in_reverse(template, rem, reg, 4) == followed_by(
                        method_for(template, full_name@, 4),
                        methods_in_reverse(template, texts_view(remaining@), reg, 4),
                    ));
                }
                match r {
                    Ok(()) => {},
                    Err(e) => {
                        return Err(e);
                    },
                }
                proof {
                    let a = method_for(template, full_name@, 4)->Ok_0;
                    assert(output@ == before + a);
                    assert(output@ =~= start + (t + a));
                    lemma_followed_by_ok(t, a, methods_in_reverse(template, texts_view(remaining@), reg, 4));
                    t = t + a;
                }
            } else {
                proof {
                    assert(!reg.contains_key(full_name@));
                    lemma_followed_by_ok(t, Seq::empty(), methods_in_reverse(template, texts_view(remaining@), reg, 4));
                    assert(t + Seq::<char>::empty() =~= t);
                }
            }
        }
        assert(texts_view(remaining@) =~= Seq::<Seq<char>>::empty());
        assert(t + Seq::<char>::empty() =~= t);
        Ok(())
    }

    /// The full names of the indexed messages that are not top-level, in order.
    fn other_message_names(&self) -> (r: Vec<String>)
        ensures
            texts_view(r@) == other_names(self.all_names(), self.top_level_names()),
    {
        let ghost all = self.all_names();
        let ghost top = self.top_level_names();
        let mut r: Vec<String> = Vec::new();
        let mut i: usize = 0;
        assert(all.take(0) =~= Seq::<Seq<char>>::empty());
        while i < self.all_message_types.len()
            invariant
                i <= all.len(),
                all == self.all_names(),
                top == self.top_level_names(),
                texts_view(r@) == other_names(all.take(i as int), top),
            decreases all.len() - i,
        {
            let name = &self.all_message_types[i];
            proof {
                let t = all.take(i + 1);
                assert(t.drop_last() =~= all.take(i as int));
                assert(t.last() == name@);
            }
            let ghost before = r@;
            if !contains_name(&self.top_level_messages, name.as_str()) {
                r.push(name.clone());
                assert(texts_view(r@) =~= texts_view(before).push(name@));
            }
            i += 1;
        }
        assert(all.take(all.len() as int) =~= all);
        r
    }

    /// Writes the walking methods of the messages of `names` that are indexed, in order.
    fn generate_walks_in_order(&self, names: &Vec<String>, output: &mut String) -> (r: Result<
        (),
        GeneratorError,
    >)
        requires
            self.well_formed(),
            generatable(self.registry(), self.all_names().to_set()),
        ensures
            emitted(
                r,
                old(output)@,
                final(output)@,
                walks_in_order(texts_view(names@), self.registry(), 4, self.all_names().to_set()),
            ),
    {
        let ghost s = texts_view(names@);
        let ghost reg = self.registry();
        let ghost known = self.all_names().to_set();
        let ghost start = output@;
        let ghost mut t: Seq<char> = Seq::empty();
        let mut i: usize = 0;
        assert(s.take(0) =~= Seq::<Seq<char>>::empty());
        assert(output@ =~= start + t);
        while i < names.len()
            invariant
                i <= s.len(),
                s == texts_view(names@),
                reg == self.registry(),
                known == self.all_names().to_set(),
                self.well_formed(),
                generatable(reg, known),
                walks_in_order(s.take(i as int), reg, 4, known) == Ok::<Seq<char>, Seq<char>>(t),
                output@ == start + t,
            decreases s.len() - i,
        {
            let full_name = names[i].as_str();
            proof {
                let u = s.take(i + 1);
                assert(u.drop_last() =~= s.take(i as int));
                assert(u.last() == s[i as int]);
                assert(s[i as int] == full_name@);
            }
            let ghost before = output@;
            let found = find_message(&self.message_types, full_name);
            if let Some(j) = found {
                proof {
                    lemma_registry_lookup(self.message_types@, j as int);
                    assert(reg.contains_key(full_name@));
                    assert(reg[full_name@] == indexed_content(self.message_types@[j as int]));
                }
                let r = self.generate_visit_method(full_name, &self.message_types[j], output, 4);
                match r {
                    Ok(()) => {},
                    Err(e) => {
                        proof {
                            lemma_walks_in_order_err(s, reg, 4, known, i + 1, e->Template_0@);
                        }
                        return Err(e);
                    },
                }
                proof {
                    let a = visit_method(full_name@, reg[full_name@], 4, known)->Ok_0;
                    assert(output@ == before + a);
                    assert(output@ =~= start + (t + a));
                    t = t + a;
                }
            } else {
                proof {
                    assert(!reg.contains_key(full_name@));
                    assert(t + Seq::<char>::empty() =~= t);
                }
            }
            i += 1;
        }
        assert(s.take(s.len() as int) =~= s);
        Ok(())
    }

    /// Writes the walking methods of the messages of `to_process` that are indexed, last
    /// first.
    fn generate_walks_in_reverse(&self, to_process: Vec<String>, output: &mut String) -> (r: Result<
        (),
        GeneratorError,
    >)
        requires
            self.well_formed(),
            generatable(self.registry(), self.all_names().to_set()),
        ensures
            emitted(
                r,
                old(output)@,
                final(output)@,
                walks_in_reverse(texts_view(to_process@), self.registry(), 4, self.all_names().to_set()),
            ),
    {
        let ghost full = texts_view(to_process@);
        let ghost reg = self.registry();
        let ghost known = self.all_names().to_set();
        let ghost start = output@;
        let ghost mut t: Seq<char> = Seq::empty();
        let mut remaining = to_process;
        proof {
            let x = walks_in_reverse(full, reg, 4, known);
            if let Ok(y) = x {
                assert(t + y =~= y);
            }
        }
        assert(output@ =~= start + t);
        while remaining.len() > 0
            invariant
                reg == self.registry(),
                known == self.all_names().to_set(),
                self.well_formed(),
                generatable(reg, known),
                full == texts_view(to_process@),
                walks_in_reverse(full, reg, 4, known) == followed_by(
                    Ok(t),
                    walks_in_reverse(texts_view(remaining@), reg, 4, known),
                ),
                output@ == start + t,
            decreases remaining.len(),
        {
            let ghost rem = texts_view(remaining@);
            let full_name = remaining.pop().unwrap();
            assert(texts_view(remaining@) =~= rem.drop_last());
            assert(rem.last() == full_name@);
            let ghost before = output@;
            let found = find_message(&self.message_types, full_name.as_str());
            if let Some(j) = found {
                proof {
                    lemma_registry_lookup(self.message_types@, j as int);
                    assert(reg.contains_key(full_name@));
                    assert(reg[full_name@] == indexed_content(self.message_types@[j as int]));
                    assert(walks_in_reverse(rem, reg, 4, known) == followed_by(
                        visit_method(full_name@, reg[full_name@], 4, known),
                        walks_in_reverse(texts_view(remaining@), reg, 4, known),
                    ));
                }
                let r = self.generate_visit_method(full_name.as_str(), &self.message_types[j], output, 4);
                match r {
                    Ok(()) => {},
                    Err(e) => {
                        return Err(e);
                    },
                }
                proof {
                    let a = visit_method(full_name@, reg[full_name@], 4, known)->Ok_0;
                    assert(output@ == before + a);
                    assert(output@ =~= start + (t + a));
                    lemma_followed_by_ok(t, a, walks_in_reverse(texts_view(remaining@), reg, 4, known));
                    t = t + a;
                }
            } else {
                proof {
                    assert(!reg.contains_key(full_name@));
                    lemma_followed_by_ok(t, Seq::empty(), walks_in_reverse(texts_view(remaining@), reg, 4, known));
                    assert(t + Seq::<char>::empty() =~= t);
                }
            }
        }
        assert(texts_view(remaining@) =~= Seq::<Seq<char>>::empty());
        assert(t + Seq::<char>::empty() =~= t);
        Ok(())
    }

    /// Generate file header with imports
    fn generate_header(&self, output: &mut String)
        ensures
            final(output)@ == old(output)@ + FILE_HEADER@,
    {
        output.append(FILE_HEADER);
    }

    /// Generate the visitor trait
    fn generate_visitor_trait(&self, output: &mut String) -> (r: Result<(), GeneratorError>)
        requires
            self.well_formed(),
            generatable(self.registry(), self.all_names().to_set()),
        ensures
            emitted(
                r,
                old(output)@,
                final(output)@,
                visitor_trait(self.top_level_names(), self.all_names(), self.registry()),
            ),
    {
        let ghost top = self.top_level_names();
        let ghost all = self.all_names();
        let ghost reg = self.registry();
        let ghost others = other_names(all, top);
        let ghost start = output@;
        output.append(VISITOR_TRAIT_HEADER);
        output.append("\n");
        let ghost mut acc = Ok::<Seq<char>, Seq<char>>(VISITOR_TRAIT_HEADER@ + "\n"@);
        assert(output@ =~= start + (VISITOR_TRAIT_HEADER@ + "\n"@));
        assert(emitted(Ok(()), start, output@, acc));
        let ghost before = output@;
        let r = self.generate_methods_in_order(false, &self.top_level_messages, output);
        proof {
            lemma_emitted_then(start, before, output@, acc, r, methods_in_order(PREPROCESS_TEMPLATE@, top, reg, 4));
        }
        if let Err(e) = r {
            return Err(e);
        }
        proof {
            acc = followed_by(acc, methods_in_order(PREPROCESS_TEMPLATE@, top, reg, 4));
        }
        let to_process = self.other_message_names();
        let ghost before = output@;
        let r = self.generate_methods_in_reverse(false, to_process, output);
        proof {
            lemma_emitted_then(start, before, output@, acc, r, methods_in_reverse(PREPROCESS_TEMPLATE@, others, reg, 4));
        }
        if let Err(e) = r {
            return Err(e);
        }
        proof {
            acc = followed_by(acc, methods_in_reverse(PREPROCESS_TEMPLATE@, others, reg, 4));
        }
        let ghost before = output@;
        output.append("\n");
        proof {
            lemma_emitted_then(start, before, output@, acc, Ok(()), Ok("\n"@));
            acc = followed_by(acc, Ok("\n"@));
        }
        let ghost before = output@;
        let r = self.generate_methods_in_order(true, &self.top_level_messages, output);
        proof {
            lemma_emitted_then(start, before, output@, acc, r, methods_in_order(POSTPROCESS_TEMPLATE@, top, reg, 4));
        }
        if let Err(e) = r {
            return Err(e);
        }
        proof {
            acc = followed_by(acc, methods_in_order(POSTPROCESS_TEMPLATE@, top, reg, 4));
        }
        let to_process = self.other_message_names();
        let ghost before = output@;
        let r = self.generate_methods_in_reverse(true, to_process, output);
        proof {
            lemma_emitted_then(start, before, output@, acc, r, methods_in_reverse(POSTPROCESS_TEMPLATE@, others, reg, 4));
        }
        if let Err(e) = r {
            return Err(e);
        }
        proof {
            acc = followed_by(acc, methods_in_reverse(POSTPROCESS_TEMPLATE@, others, reg, 4));
        }
        let ghost before = output@;
        output.append("}\n\n");
        proof {
            lemma_emitted_then(start, before, output@, acc, Ok(()), Ok("}\n\n"@));
        }
        Ok(())
    }

    /// Generate the traversable trait
    fn generate_traversable_trait(&self, output: &mut String) -> (r: Result<(), GeneratorError>)
        requires
            self.well_formed(),
            generatable(self.registry(), self.all_names().to_set()),
        ensures
            emitted(
                r,
                old(output)@,
                final(output)@,
                traversable_trait(self.top_level_names(), self.all_names(), self.registry()),
            ),
    {
        let ghost top = self.top_level_names();
        let ghost all = self.all_names();
        let ghost reg = self.registry();
        let ghost known = all.to_set();
        let ghost start = output@;
        output.append(TRAVERSABLE_TRAIT_HEADER);
        let ghost mut acc = Ok::<Seq<char>, Seq<char>>(TRAVERSABLE_TRAIT_HEADER@);
        let ghost before = output@;
        let r = self.generate_walks_in_order(&self.top_level_messages, output);
        proof {
            lemma_emitted_then(start, before, output@, acc, r, walks_in_order(top, reg, 4, known));
        }
        if let Err(e) = r {
            return Err(e);
        }
        proof {
            acc = followed_by(acc, walks_in_order(top, reg, 4, known));
        }
        let to_process = self.other_message_names();
        let ghost before = output@;
        let r = self.generate_walks_in_reverse(to_process, output);
        proof {
            lemma_emitted_then(start, before, output@, acc, r, walks_in_reverse(other_names(all, top), reg, 4, known));
        }
        if let Err(e) = r {
            return Err(e);
        }
        Ok(())
    }

    /// Generate visitor code for the Substrait protocol buffers
    fn generate_visitor_code(&self) -> (r: Result<String, GeneratorError>)
        requires
            self.well_formed(),
            generatable(self.registry(), self.all_names().to_set()),
        ensures
            match visitor_code(self.top_level_names(), self.all_names(), self.registry()) {
                Ok(t) => r matches Ok(code) && code@ == t,
                Err(m) => r matches Err(GeneratorError::Template(e)) && e@ == m,
            },
    {
        let ghost top = self.top_level_names();
        let ghost all = self.all_names();
        let ghost reg = self.registry();
        let mut output = String::new();
        let ghost start = output@;
        self.generate_header(&mut output);
        let ghost acc = Ok::<Seq<char>, Seq<char>>(FILE_HEADER@);
        assert(emitted(Ok(()), start, output@, acc));
        let ghost before = output@;
        let r = self.generate_visitor_trait(&mut output);
        proof {
            lemma_emitted_then(start, before, output@, acc, r, visitor_trait(top, all, reg));
        }
        if let Err(e) = r {
            return Err(e);
        }
        let ghost acc2 = followed_by(acc, visitor_trait(top, all, reg));
        let ghost before = output@;
        let r = self.generate_traversable_trait(&mut output);
        proof {
            lemma_emitted_then(start, before, output@, acc2, r, traversable_trait(top, all, reg));
            assert(start == Seq::<char>::empty());
            if let Ok(t) = visitor_code(top, all, reg) {
                assert(output@ =~= t);
            }
        }
        if let Err(e) = r {
            return Err(e);
        }
        Ok(output)
    }

    /// Run the generator: index the messages of the files, mark the top-level ones, and
    /// write the visitor over them. Where a message cannot be walked, it returns
    /// `Unwalkable` and writes nothing.
    pub fn run(&mut self) -> (r: Result<String, GeneratorError>)
        requires
            old(self).well_formed(),
        ensures
            final(self).well_formed(),
            final(self).registry() == registered(
                old(self).registry(),
                file_messages(old(self).descriptor().file@),
            ),
            final(self).all_names().to_set() == final(self).registry().dom(),
            strictly_sorted(final(self).all_names()),
            strictly_sorted(final(self).top_level_names()),
            final(self).top_level_names().to_set() == old(self).top_level_names().to_set().union(
                final(self).registry().dom().filter(
                    |k: Seq<char>| is_top_level_name(final(self).registry()[k].0),
                ),
            ),
            final(self).descriptor() == old(self).descriptor(),
            final(self).output() == old(self).output(),
            !generatable(final(self).registry(), final(self).all_names().to_set()) <==> r matches Err(
                GeneratorError::Unwalkable,
            ),
            generatable(final(self).registry(), final(self).all_names().to_set()) ==> match visitor_code(
                final(self).top_level_names(),
                final(self).all_names(),
                final(self).registry(),
            ) {
                Ok(t) => r matches Ok(code) && code@ == t,
                Err(m) => r matches Err(GeneratorError::Template(e)) && e@ == m,
            },
    {
        // 1. Index the messages for later easy access.
        self.index_protobuffers();

        // 3. Mark special message types (mainly Plan as top-level)
        self.mark_special_message_types();

        if !self.is_generatable() {
            return Err(GeneratorError::Unwalkable);
        }

        // 4. Generate visitor code
        self.generate_visitor_code()
    }
}

} // verus!

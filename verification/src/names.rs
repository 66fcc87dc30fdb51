//! The names and numbers of what is read from a text.
//!
//! A document that is read from a text holds only names that are names
//! and floats that are floats, because the tokens of a text do. Such a
//! document is written with plain tokens, and so its writing can be put
//! into a text.
use vstd::prelude::*;
use crate::common::{DirectiveModel, TypeModel, ValueModel};
use crate::lexemes::{
    is_name, is_number, law_tokens_are_cut_again, plain_token, plain_tokens, text_of,
};
use crate::lexical::{
    digits_end, ends_number, integer_end, is_digit, is_name_part, lex, lex_from, name_end,
    number_end, scan, skip_blank, string_end, travel,
};
use crate::reading::{law_written_documents_are_read, lemma_punctuators};
use crate::shape::law_read_documents_are_plain;
use crate::spelling::unplaced_document;
use crate::syntax::common::{
    argument, directive, directives, key_index, list_items, more_arguments, more_directives,
    object_entries, parse_type, starts_value, upsert, value,
};
use crate::syntax::schema::{
    arguments_definition, bind, declared, default_clause, definition, definitions, document,
    field, fields, head, implements_interfaces, input_value, input_values, interface_type,
    member_clause, members_of, more_fields, names, object_type, operations, scalar_type, typed,
    unbound, union_parts, Bindings,
};
use crate::syntax::{at_kind, at_punct, Parsed};
use crate::tokenizer::Source;
use crate::writing::{bare_tokens, lemma_definitions_written};
use crate::schema::ast::{
    DefinitionModel, DocumentModel, FieldModel, InputValueModel, SchemaDefinitionModel,
    TypeDefinitionModel, TypeExtensionModel,
};
use crate::syntax::common::all_digits;
use crate::tokenizer::{Kind, TokenModel};
use crate::writing::{
    digit_of, digits, escaped, lemma_digits, mark, number, numeral, quoted, text, word,
    written_arguments, written_arguments_definition, written_default, written_definition,
    written_definitions, written_description, written_directive, written_directives,
    written_entries, written_field, written_fields, written_fields_from, written_input_value,
    written_input_values, written_interface, written_interfaces, written_items, written_members,
    written_names, written_object, written_operation, written_scalar, written_type,
    written_union, written_value,
};

verus! {

/// Whether every name in `t` is a name.
pub open spec fn named_type(t: TypeModel) -> bool
    decreases t,
{
    match t {
        TypeModel::NamedType(n) => is_name(n),
        TypeModel::ListType(inner) => named_type(*inner),
        TypeModel::NonNullType(inner) => named_type(*inner),
    }
}

/// Whether every name in `v` is a name and every float a float.
pub open spec fn named_value(v: ValueModel) -> bool
    decreases v,
{
    match v {
        ValueModel::Variable(n) => is_name(n),
        ValueModel::Enum(n) => is_name(n),
        ValueModel::Float(f) => is_number(f, Kind::FloatValue),
        ValueModel::List(items) => forall|k: int|
            0 <= k < items.len() ==> named_value(#[trigger] items[k]),
        ValueModel::Object(entries) => forall|k: int|
            0 <= k < entries.len() ==> is_name((#[trigger] entries[k]).0) && named_value(
                entries[k].1,
            ),
        _ => true,
    }
}

/// Whether every item of `items` is named.
pub open spec fn named_items(items: Seq<ValueModel>) -> bool {
    forall|k: int| 0 <= k < items.len() ==> named_value(#[trigger] items[k])
}

/// Whether every key among `list` is a name and every value named.
pub open spec fn named_entries(list: Seq<(Seq<char>, ValueModel)>) -> bool {
    forall|k: int|
        0 <= k < list.len() ==> is_name((#[trigger] list[k]).0) && named_value(list[k].1)
}

/// Whether every directive among `list` has a name and named arguments.
pub open spec fn named_directives(list: Seq<DirectiveModel>) -> bool {
    forall|k: int|
        0 <= k < list.len() ==> is_name((#[trigger] list[k]).name) && named_entries(
            list[k].arguments,
        )
}

/// Whether the input value has a name, and its parts are named.
pub open spec fn named_input_value(x: InputValueModel) -> bool {
    &&& is_name(x.name)
    &&& named_type(x.value_type)
    &&& x.default_value matches Some(v) ==> named_value(v)
    &&& named_directives(x.directives)
}

/// Whether every input value among `list` is named.
pub open spec fn named_input_values(list: Seq<InputValueModel>) -> bool {
    forall|k: int| 0 <= k < list.len() ==> named_input_value(#[trigger] list[k])
}

/// Whether the field has a name, and its parts are named.
pub open spec fn named_field(x: FieldModel) -> bool {
    &&& is_name(x.name)
    &&& named_input_values(x.arguments)
    &&& named_type(x.field_type)
    &&& named_directives(x.directives)
}

/// Whether every field among `list` is named.
pub open spec fn named_fields(list: Seq<FieldModel>) -> bool {
    forall|k: int| 0 <= k < list.len() ==> named_field(#[trigger] list[k])
}

/// Whether every one of `list` is a name.
pub open spec fn named_names(list: Seq<Seq<char>>) -> bool {
    forall|k: int| 0 <= k < list.len() ==> is_name(#[trigger] list[k])
}

/// Whether what is bound, if anything, is a name.
pub open spec fn named_binding(bound: Option<Seq<char>>) -> bool {
    bound matches Some(n) ==> is_name(n)
}

/// Whether the definition of a type has a name, and its parts are named.
pub open spec fn named_type_definition(def: TypeDefinitionModel) -> bool {
    match def {
        TypeDefinitionModel::Scalar(t) => is_name(t.name) && named_directives(t.directives),
        TypeDefinitionModel::Object(t) => is_name(t.name) && named_names(t.implements_interfaces)
            && named_directives(t.directives) && named_fields(t.fields),
        TypeDefinitionModel::Interface(t) => is_name(t.name) && named_directives(t.directives)
            && named_fields(t.fields),
        TypeDefinitionModel::Union(t) => is_name(t.name) && named_directives(t.directives)
            && named_names(t.types),
        TypeDefinitionModel::Enum(t) => true,
        TypeDefinitionModel::InputObject(t) => true,
    }
}

/// Whether the extension of a type has a name, and its parts are named.
pub open spec fn named_type_extension(ext: TypeExtensionModel) -> bool {
    match ext {
        TypeExtensionModel::Scalar(t) => is_name(t.name) && named_directives(t.directives),
        TypeExtensionModel::Object(t) => is_name(t.name) && named_names(t.implements_interfaces)
            && named_directives(t.directives) && named_fields(t.fields),
        TypeExtensionModel::Interface(t) => is_name(t.name) && named_directives(t.directives)
            && named_fields(t.fields),
        TypeExtensionModel::Union(t) => is_name(t.name) && named_directives(t.directives)
            && named_names(t.types),
    }
}

/// Whether the `schema` block binds names, and its directives are named.
pub open spec fn named_schema(x: SchemaDefinitionModel) -> bool {
    named_directives(x.directives) && named_binding(x.query) && named_binding(x.mutation)
        && named_binding(x.subscription)
}

/// Whether the definition is named.
pub open spec fn named_definition(d: DefinitionModel) -> bool {
    match d {
        DefinitionModel::SchemaDefinition(x) => named_schema(x),
        DefinitionModel::TypeDefinition(x) => named_type_definition(x),
        DefinitionModel::TypeExtension(x) => named_type_extension(x),
    }
}

/// Whether every definition among `list` is named.
pub open spec fn named_definitions(list: Seq<DefinitionModel>) -> bool {
    forall|k: int| 0 <= k < list.len() ==> named_definition(#[trigger] list[k])
}

/// Whether every name in the document is a name and every float a
/// float.
pub open spec fn named_document(doc: DocumentModel) -> bool {
    named_definitions(doc.definitions)
}

/// Plain tokens behind plain tokens are plain tokens.
pub proof fn lemma_join(a: Seq<TokenModel>, b: Seq<TokenModel>)
    requires
        plain_tokens(a),
        plain_tokens(b),
    ensures
        plain_tokens(a + b),
{
    assert forall|k: int| 0 <= k < (a + b).len() implies plain_token(#[trigger] (a + b)[k]) by {
        if k < a.len() {
            assert((a + b)[k] == a[k]);
        } else {
            assert((a + b)[k] == b[k - a.len()]);
        }
    }
}

/// A plain token in front of plain tokens makes plain tokens.
pub proof fn lemma_front(t: TokenModel, rest: Seq<TokenModel>)
    requires
        plain_token(t),
        plain_tokens(rest),
    ensures
        plain_tokens(seq![t] + rest),
        plain_tokens(seq![t]),
{
    assert(seq![t][0] == t);
    lemma_join(seq![t], rest);
}

/// No tokens are plain tokens.
pub proof fn lemma_none()
    ensures
        plain_tokens(Seq::<TokenModel>::empty()),
{
}

/// The punctuators that a document is written with are plain tokens.
pub proof fn lemma_marks()
    ensures
        plain_token(mark("!"@)),
        plain_token(mark("$"@)),
        plain_token(mark(":"@)),
        plain_token(mark("="@)),
        plain_token(mark("@"@)),
        plain_token(mark("|"@)),
        plain_token(mark("("@)),
        plain_token(mark(")"@)),
        plain_token(mark("["@)),
        plain_token(mark("]"@)),
        plain_token(mark("{"@)),
        plain_token(mark("}"@)),
        plain_token(mark("&"@)),
{
    lemma_punctuators();
}

/// Whether `c` is a small letter.
pub open spec fn is_small(c: char) -> bool {
    'a' <= c && c <= 'z'
}

/// Up to twelve small letters are a name.
pub proof fn lemma_small_word(v: Seq<char>)
    requires
        0 < v.len() <= 12,
        0 < v.len() ==> is_small(v[0]),
        1 < v.len() ==> is_small(v[1]),
        2 < v.len() ==> is_small(v[2]),
        3 < v.len() ==> is_small(v[3]),
        4 < v.len() ==> is_small(v[4]),
        5 < v.len() ==> is_small(v[5]),
        6 < v.len() ==> is_small(v[6]),
        7 < v.len() ==> is_small(v[7]),
        8 < v.len() ==> is_small(v[8]),
        9 < v.len() ==> is_small(v[9]),
        10 < v.len() ==> is_small(v[10]),
        11 < v.len() ==> is_small(v[11]),
    ensures
        is_name(v),
        plain_token(word(v)),
{
    assert forall|k: int| 0 <= k < v.len() implies is_name_part(#[trigger] v[k]) by {
        if k == 0 {
        } else if k == 1 {
        } else if k == 2 {
        } else if k == 3 {
        } else if k == 4 {
        } else if k == 5 {
        } else if k == 6 {
        } else if k == 7 {
        } else if k == 8 {
        } else if k == 9 {
        } else if k == 10 {
        } else {
            assert(k == 11);
        }
    }
}

/// The words that a document is written with are plain tokens.
pub proof fn lemma_words()
    ensures
        plain_token(word("schema"@)),
        plain_token(word("scalar"@)),
        plain_token(word("type"@)),
        plain_token(word("interface"@)),
        plain_token(word("union"@)),
        plain_token(word("extend"@)),
        plain_token(word("implements"@)),
        plain_token(word("query"@)),
        plain_token(word("mutation"@)),
        plain_token(word("subscription"@)),
        plain_token(word("true"@)),
        plain_token(word("false"@)),
        plain_token(word("null"@)),
{
    reveal_strlit("schema");
    lemma_small_word("schema"@);
    reveal_strlit("scalar");
    lemma_small_word("scalar"@);
    reveal_strlit("type");
    lemma_small_word("type"@);
    reveal_strlit("interface");
    lemma_small_word("interface"@);
    reveal_strlit("union");
    lemma_small_word("union"@);
    reveal_strlit("extend");
    lemma_small_word("extend"@);
    reveal_strlit("implements");
    lemma_small_word("implements"@);
    reveal_strlit("query");
    lemma_small_word("query"@);
    reveal_strlit("mutation");
    lemma_small_word("mutation"@);
    reveal_strlit("subscription");
    lemma_small_word("subscription"@);
    reveal_strlit("true");
    lemma_small_word("true"@);
    reveal_strlit("false");
    lemma_small_word("false"@);
    reveal_strlit("null");
    lemma_small_word("null"@);
}

/// The digits of a number that is not zero begin with no zero.
pub proof fn lemma_digits_lead(n: int)
    requires
        1 <= n,
    ensures
        digits(n)[0] != '0',
        digits(n).len() > 0,
    decreases n,
{
    if n >= 10 {
        lemma_digits_lead(n / 10);
        assert(digits(n) == digits(n / 10).push(digit_of(n % 10)));
        assert(digits(n)[0] == digits(n / 10)[0]);
    } else {
        assert(digits(n)[0] == digit_of(n));
    }
}

/// Digits end where the characters end if all of those are digits.
pub proof fn lemma_digits_end_all(v: Seq<char>, j: int)
    requires
        0 <= j <= v.len(),
        all_digits(v, j, v.len() as int),
    ensures
        digits_end(v, j) == v.len(),
    decreases v.len() - j,
{
    if j < v.len() {
        assert(is_digit(v[j]));
        lemma_digits_end_all(v, j + 1);
    }
}

/// An integer as it is written is a plain token.
pub proof fn lemma_number_plain(n: i64)
    ensures
        plain_token(number(n)),
{
    let v = numeral(n);
    if n < 0 {
        let m = -(n as int);
        let d = digits(m);
        lemma_digits(m);
        lemma_digits_lead(m);
        assert(v == seq!['-'] + d);
        assert(v.len() == d.len() + 1);
        assert(v[0] == '-');
        assert forall|k: int| 1 <= k < v.len() implies is_digit(#[trigger] v[k]) by {
            assert(v[k] == d[k - 1]);
        }
        assert(v[1] == d[0]);
        lemma_digits_end_all(v, 1);
        assert forall|k: int| 0 <= k < v.len() implies !ends_number(#[trigger] v[k]) by {
            if k >= 1 {
                assert(is_digit(v[k]));
            }
        }
        assert(integer_end(v, 0) == Some(v.len() as int));
    } else {
        let m = n as int;
        lemma_digits(m);
        assert forall|k: int| 0 <= k < v.len() implies !ends_number(#[trigger] v[k]) by {
            assert(is_digit(v[k]));
        }
        assert(is_digit(v[0]));
        if m == 0 {
            assert(v.len() == 1);
            assert(v[0] == digit_of(0));
        } else {
            lemma_digits_lead(m);
            lemma_digits_end_all(v, 0);
        }
        assert(integer_end(v, 0) == Some(v.len() as int));
    }
}

/// The inside of a string in quotes ends at the quote that closes it.
pub proof fn lemma_escaped_ends(v: Seq<char>, j: int, s: Seq<char>, k: int)
    requires
        0 <= k <= s.len(),
        0 <= j < v.len(),
        v.subrange(j, v.len() as int) == escaped(s, k) + seq!['"'],
    ensures
        string_end(v, j, false) == Some(v.len() as int),
    decreases s.len() - k,
{
    let piece = v.subrange(j, v.len() as int);
    if k == s.len() {
        assert(escaped(s, k).len() == 0);
        assert(piece.len() == 1);
        assert(v[j] == piece[0]);
    } else {
        let c = s[k];
        let rest = escaped(s, k + 1);
        if c == '"' || c == '\\' || c == '\n' {
            let second = if c == '\n' {
                'n'
            } else {
                c
            };
            assert(escaped(s, k) == seq!['\\', second] + rest);
            assert(piece == (seq!['\\', second] + rest) + seq!['"']);
            assert(piece.len() == 2 + rest.len() + 1);
            assert(v[j] == piece[0]);
            assert(v[j + 1] == piece[1]);
            assert(v.subrange(j + 2, v.len() as int) =~= rest + seq!['"']) by {
                assert forall|m: int| 0 <= m < rest.len() + 1 implies v.subrange(
                    j + 2,
                    v.len() as int,
                )[m] == (rest + seq!['"'])[m] by {
                    assert(piece[2 + m] == v[j + (2 + m)]);
                }
            }
            assert(string_end(v, j, false) == string_end(v, j + 1, true));
            assert(string_end(v, j + 1, true) == string_end(v, j + 2, false));
            lemma_escaped_ends(v, j + 2, s, k + 1);
        } else {
            assert(escaped(s, k) == seq![c] + rest);
            assert(piece == (seq![c] + rest) + seq!['"']);
            assert(piece.len() == 1 + rest.len() + 1);
            assert(v[j] == piece[0]);
            assert(v.subrange(j + 1, v.len() as int) =~= rest + seq!['"']) by {
                assert forall|m: int| 0 <= m < rest.len() + 1 implies v.subrange(
                    j + 1,
                    v.len() as int,
                )[m] == (rest + seq!['"'])[m] by {
                    assert(piece[1 + m] == v[j + (1 + m)]);
                }
            }
            assert(string_end(v, j, false) == string_end(v, j + 1, false));
            lemma_escaped_ends(v, j + 1, s, k + 1);
        }
    }
}

/// A text in quotes is a plain token.
pub proof fn lemma_text_plain(s: Seq<char>)
    ensures
        plain_token(text(s)),
{
    let v = quoted(s);
    let inner = escaped(s, 0);
    assert(v.len() == inner.len() + 2);
    assert(v[0] == '"');
    assert(v.subrange(1, v.len() as int) =~= inner + seq!['"']);
    lemma_escaped_ends(v, 1, s, 0);
    if s.len() > 0 {
        assert(inner.len() > 0);
        assert(v[1] == inner[0]);
        assert(inner[0] != '"');
    } else {
        assert(inner.len() == 0);
    }
}

/// The tokens of a named type reference are plain.
pub proof fn lemma_type_tokens(t: TypeModel)
    requires
        named_type(t),
    ensures
        plain_tokens(written_type(t)),
    decreases t,
{
    lemma_marks();
    lemma_none();
    match t {
        TypeModel::NamedType(n) => {
            lemma_front(word(n), Seq::empty());
        },
        TypeModel::ListType(inner) => {
            lemma_type_tokens(*inner);
            lemma_front(mark("]"@), Seq::empty());
            lemma_join(written_type(*inner), seq![mark("]"@)]);
            lemma_front(mark("["@), written_type(*inner) + seq![mark("]"@)]);
        },
        TypeModel::NonNullType(inner) => {
            lemma_type_tokens(*inner);
            lemma_front(mark("!"@), Seq::empty());
            lemma_join(written_type(*inner), seq![mark("!"@)]);
        },
    }
}

/// The tokens of a named value are plain.
pub proof fn lemma_value_tokens(v: ValueModel)
    requires
        named_value(v),
    ensures
        plain_tokens(written_value(v)),
    decreases v, 0int,
{
    lemma_marks();
    lemma_words();
    lemma_none();
    match v {
        ValueModel::Variable(n) => {
            lemma_front(word(n), Seq::empty());
            lemma_front(mark("$"@), seq![word(n)]);
        },
        ValueModel::Int(n) => {
            lemma_number_plain(n);
            lemma_front(number(n), Seq::empty());
        },
        ValueModel::Float(f) => {
            lemma_front(
                TokenModel { kind: Kind::FloatValue, value: f, position: crate::position::Pos::origin() },
                Seq::empty(),
            );
        },
        ValueModel::String(s) => {
            lemma_text_plain(s);
            lemma_front(text(s), Seq::empty());
        },
        ValueModel::Boolean(b) => {
            lemma_front(word("true"@), Seq::empty());
            lemma_front(word("false"@), Seq::empty());
        },
        ValueModel::Null => {
            lemma_front(word("null"@), Seq::empty());
        },
        ValueModel::Enum(n) => {
            lemma_front(word(n), Seq::empty());
        },
        ValueModel::List(items) => {
            lemma_items_tokens(items, 0);
            lemma_front(mark("]"@), Seq::empty());
            lemma_join(written_items(items, 0), seq![mark("]"@)]);
            lemma_front(mark("["@), written_items(items, 0) + seq![mark("]"@)]);
        },
        ValueModel::Object(entries) => {
            lemma_entries_tokens(entries, 0);
            lemma_front(mark("}"@), Seq::empty());
            lemma_join(written_entries(entries, 0), seq![mark("}"@)]);
            lemma_front(mark("{"@), written_entries(entries, 0) + seq![mark("}"@)]);
        },
    }
}

/// The tokens of named items are plain.
pub proof fn lemma_items_tokens(items: Seq<ValueModel>, k: int)
    requires
        0 <= k,
        named_items(items),
    ensures
        plain_tokens(written_items(items, k)),
    decreases items, items.len() - k,
{
    if k < items.len() {
        lemma_value_tokens(items[k]);
        lemma_items_tokens(items, k + 1);
        lemma_join(written_value(items[k]), written_items(items, k + 1));
    }
}

/// The tokens of named entries are plain.
pub proof fn lemma_entries_tokens(entries: Seq<(Seq<char>, ValueModel)>, k: int)
    requires
        0 <= k,
        named_entries(entries),
    ensures
        plain_tokens(written_entries(entries, k)),
    decreases entries, entries.len() - k,
{
    lemma_marks();
    if k < entries.len() {
        let one = written_value(entries[k].1);
        let rest = written_entries(entries, k + 1);
        lemma_value_tokens(entries[k].1);
        lemma_entries_tokens(entries, k + 1);
        lemma_join(one, rest);
        lemma_front(mark(":"@), one + rest);
        lemma_front(word(entries[k].0), seq![mark(":"@)] + (one + rest));
    }
}

/// The tokens of named directives are plain.
pub proof fn lemma_directives_tokens(list: Seq<DirectiveModel>, k: int)
    requires
        0 <= k,
        named_directives(list),
    ensures
        plain_tokens(written_directives(list, k)),
    decreases list.len() - k,
{
    lemma_marks();
    lemma_none();
    if k < list.len() {
        let d = list[k];
        if d.arguments.len() > 0 {
            let body = written_entries(d.arguments, 0);
            lemma_entries_tokens(d.arguments, 0);
            lemma_front(mark(")"@), Seq::empty());
            lemma_join(body, seq![mark(")"@)]);
            lemma_front(mark("("@), body + seq![mark(")"@)]);
        }
        lemma_front(word(d.name), written_arguments(d.arguments));
        lemma_front(mark("@"@), seq![word(d.name)] + written_arguments(d.arguments));
        lemma_directives_tokens(list, k + 1);
        lemma_join(written_directive(d), written_directives(list, k + 1));
    }
}

/// The tokens of a description are plain.
pub proof fn lemma_description_tokens(words: Option<Seq<char>>)
    ensures
        plain_tokens(written_description(words)),
{
    lemma_none();
    match words {
        Some(s) => {
            lemma_text_plain(s);
            lemma_front(text(s), Seq::empty());
        },
        None => {},
    }
}

/// The tokens of a named input value are plain.
pub proof fn lemma_input_value_tokens(x: InputValueModel)
    requires
        named_input_value(x),
    ensures
        plain_tokens(written_input_value(x)),
{
    lemma_marks();
    lemma_none();
    let t = written_type(x.value_type);
    let f = written_default(x.default_value);
    let r = written_directives(x.directives, 0);
    lemma_directives_tokens(x.directives, 0);
    match x.default_value {
        Some(v) => {
            lemma_value_tokens(v);
            lemma_front(mark("="@), written_value(v));
        },
        None => {},
    }
    lemma_join(f, r);
    lemma_type_tokens(x.value_type);
    lemma_join(t, f + r);
    lemma_front(mark(":"@), t + (f + r));
    lemma_front(word(x.name), seq![mark(":"@)] + (t + (f + r)));
    lemma_description_tokens(x.description);
    lemma_join(
        written_description(x.description),
        seq![word(x.name)] + (seq![mark(":"@)] + (t + (f + r))),
    );
}

/// The tokens of named input values are plain.
pub proof fn lemma_input_values_tokens(list: Seq<InputValueModel>, k: int)
    requires
        0 <= k,
        named_input_values(list),
    ensures
        plain_tokens(written_input_values(list, k)),
    decreases list.len() - k,
{
    if k < list.len() {
        lemma_input_value_tokens(list[k]);
        lemma_input_values_tokens(list, k + 1);
        lemma_join(written_input_value(list[k]), written_input_values(list, k + 1));
    }
}

/// The tokens of a named field are plain.
pub proof fn lemma_field_tokens(x: FieldModel)
    requires
        named_field(x),
    ensures
        plain_tokens(written_field(x)),
{
    lemma_marks();
    lemma_none();
    let g = written_arguments_definition(x.arguments);
    let t = written_type(x.field_type);
    let r = written_directives(x.directives, 0);
    lemma_directives_tokens(x.directives, 0);
    lemma_type_tokens(x.field_type);
    lemma_join(t, r);
    lemma_front(mark(":"@), t + r);
    if x.arguments.len() > 0 {
        let body = written_input_values(x.arguments, 0);
        lemma_input_values_tokens(x.arguments, 0);
        lemma_front(mark(")"@), Seq::empty());
        lemma_join(body, seq![mark(")"@)]);
        lemma_front(mark("("@), body + seq![mark(")"@)]);
    }
    lemma_join(g, seq![mark(":"@)] + (t + r));
    lemma_front(word(x.name), g + (seq![mark(":"@)] + (t + r)));
    lemma_description_tokens(x.description);
    lemma_join(
        written_description(x.description),
        seq![word(x.name)] + (g + (seq![mark(":"@)] + (t + r))),
    );
}

/// The tokens of named fields are plain.
pub proof fn lemma_fields_from_tokens(list: Seq<FieldModel>, k: int)
    requires
        0 <= k,
        named_fields(list),
    ensures
        plain_tokens(written_fields_from(list, k)),
    decreases list.len() - k,
{
    if k < list.len() {
        lemma_field_tokens(list[k]);
        lemma_fields_from_tokens(list, k + 1);
        lemma_join(written_field(list[k]), written_fields_from(list, k + 1));
    }
}

/// The tokens of a block of named fields are plain.
pub proof fn lemma_fields_tokens(list: Seq<FieldModel>)
    requires
        named_fields(list),
    ensures
        plain_tokens(written_fields(list)),
{
    lemma_marks();
    lemma_none();
    if list.len() > 0 {
        let body = written_fields_from(list, 0);
        lemma_fields_from_tokens(list, 0);
        lemma_front(mark("}"@), Seq::empty());
        lemma_join(body, seq![mark("}"@)]);
        lemma_front(mark("{"@), body + seq![mark("}"@)]);
    }
}

/// The tokens of names with one of `&` and `|` between them are plain.
pub proof fn lemma_names_tokens(list: Seq<Seq<char>>, k: int, separator: Seq<char>)
    requires
        0 <= k,
        named_names(list),
        separator == "&"@ || separator == "|"@,
    ensures
        plain_tokens(written_names(list, k, separator)),
    decreases list.len() - k,
{
    lemma_marks();
    lemma_none();
    if k < list.len() {
        if k + 1 < list.len() {
            lemma_names_tokens(list, k + 1, separator);
            lemma_front(mark(separator), written_names(list, k + 1, separator));
            lemma_front(
                word(list[k]),
                seq![mark(separator)] + written_names(list, k + 1, separator),
            );
        } else {
            lemma_front(word(list[k]), Seq::empty());
        }
    }
}

/// The tokens of the parts that types are made of are plain.
pub proof fn lemma_parts_tokens(
    interfaces: Seq<Seq<char>>,
    members: Seq<Seq<char>>,
    list: Seq<DirectiveModel>,
    block: Seq<FieldModel>,
)
    requires
        named_names(interfaces),
        named_names(members),
        named_directives(list),
        named_fields(block),
    ensures
        plain_tokens(written_interfaces(interfaces)),
        plain_tokens(written_members(members)),
        plain_tokens(written_directives(list, 0)),
        plain_tokens(written_fields(block)),
{
    lemma_marks();
    lemma_words();
    lemma_none();
    lemma_directives_tokens(list, 0);
    lemma_fields_tokens(block);
    if interfaces.len() > 0 {
        lemma_names_tokens(interfaces, 0, "&"@);
        lemma_front(word("implements"@), written_names(interfaces, 0, "&"@));
    }
    if members.len() > 0 {
        lemma_names_tokens(members, 0, "|"@);
        lemma_front(mark("="@), written_names(members, 0, "|"@));
    }
}

/// The tokens of a scalar, an object, an interface and a union with a
/// name and named parts are plain.
pub proof fn lemma_types_tokens(
    n: Seq<char>,
    interfaces: Seq<Seq<char>>,
    members: Seq<Seq<char>>,
    list: Seq<DirectiveModel>,
    block: Seq<FieldModel>,
)
    requires
        is_name(n),
        named_names(interfaces),
        named_names(members),
        named_directives(list),
        named_fields(block),
    ensures
        plain_tokens(written_scalar(n, list)),
        plain_tokens(written_object(n, interfaces, list, block)),
        plain_tokens(written_interface(n, list, block)),
        plain_tokens(written_union(n, list, members)),
{
    lemma_words();
    lemma_parts_tokens(interfaces, members, list, block);
    let f = written_interfaces(interfaces);
    let m = written_members(members);
    let r = written_directives(list, 0);
    let b = written_fields(block);
    lemma_front(word(n), r);
    lemma_front(word("scalar"@), seq![word(n)] + r);
    lemma_join(r, b);
    lemma_join(f, r + b);
    lemma_front(word(n), f + (r + b));
    lemma_front(word("type"@), seq![word(n)] + (f + (r + b)));
    lemma_front(word(n), r + b);
    lemma_front(word("interface"@), seq![word(n)] + (r + b));
    lemma_join(r, m);
    lemma_front(word(n), r + m);
    lemma_front(word("union"@), seq![word(n)] + (r + m));
}

/// No names are names, all of them.
pub proof fn lemma_no_names()
    ensures
        named_names(Seq::<Seq<char>>::empty()),
        named_fields(Seq::<FieldModel>::empty()),
{
}

/// The tokens of one operation of a `schema` block are plain.
pub proof fn lemma_operation_tokens(kind: Seq<char>, bound: Option<Seq<char>>)
    requires
        plain_token(word(kind)),
        named_binding(bound),
    ensures
        plain_tokens(written_operation(kind, bound)),
{
    lemma_marks();
    lemma_none();
    match bound {
        Some(n) => {
            lemma_front(word(n), Seq::empty());
            lemma_front(mark(":"@), seq![word(n)]);
            lemma_front(word(kind), seq![mark(":"@)] + seq![word(n)]);
        },
        None => {},
    }
}

/// The tokens of a named definition are plain.
pub proof fn lemma_definition_tokens(d: DefinitionModel)
    requires
        named_definition(d),
    ensures
        plain_tokens(written_definition(d)),
{
    lemma_marks();
    lemma_words();
    lemma_none();
    lemma_no_names();
    match d {
        DefinitionModel::SchemaDefinition(x) => {
            let r = written_directives(x.directives, 0);
            let q = written_operation("query"@, x.query);
            let m = written_operation("mutation"@, x.mutation);
            let s = written_operation("subscription"@, x.subscription);
            let close = seq![mark("}"@)];
            lemma_directives_tokens(x.directives, 0);
            lemma_operation_tokens("query"@, x.query);
            lemma_operation_tokens("mutation"@, x.mutation);
            lemma_operation_tokens("subscription"@, x.subscription);
            lemma_front(mark("}"@), Seq::empty());
            lemma_join(s, close);
            lemma_join(m, s + close);
            lemma_join(q, m + (s + close));
            lemma_join(r, q + (m + (s + close)));
            lemma_front(mark("{"@), r + (q + (m + (s + close))));
            lemma_front(word("schema"@), seq![mark("{"@)] + (r + (q + (m + (s + close)))));
        },
        DefinitionModel::TypeDefinition(def) => {
            match def {
                TypeDefinitionModel::Scalar(t) => {
                    lemma_types_tokens(
                        t.name,
                        Seq::empty(),
                        Seq::empty(),
                        t.directives,
                        Seq::empty(),
                    );
                    lemma_description_tokens(t.description);
                    lemma_join(
                        written_description(t.description),
                        written_scalar(t.name, t.directives),
                    );
                },
                TypeDefinitionModel::Object(t) => {
                    lemma_types_tokens(
                        t.name,
                        t.implements_interfaces,
                        Seq::empty(),
                        t.directives,
                        t.fields,
                    );
                    lemma_description_tokens(t.description);
                    lemma_join(
                        written_description(t.description),
                        written_object(t.name, t.implements_interfaces, t.directives, t.fields),
                    );
                },
                TypeDefinitionModel::Interface(t) => {
                    lemma_types_tokens(t.name, Seq::empty(), Seq::empty(), t.directives, t.fields);
                    lemma_description_tokens(t.description);
                    lemma_join(
                        written_description(t.description),
                        written_interface(t.name, t.directives, t.fields),
                    );
                },
                TypeDefinitionModel::Union(t) => {
                    lemma_types_tokens(t.name, Seq::empty(), t.types, t.directives, Seq::empty());
                    lemma_description_tokens(t.description);
                    lemma_join(
                        written_description(t.description),
                        written_union(t.name, t.directives, t.types),
                    );
                },
                TypeDefinitionModel::Enum(t) => {},
                TypeDefinitionModel::InputObject(t) => {},
            }
        },
        DefinitionModel::TypeExtension(ext) => {
            match ext {
                TypeExtensionModel::Scalar(t) => {
                    lemma_types_tokens(
                        t.name,
                        Seq::empty(),
                        Seq::empty(),
                        t.directives,
                        Seq::empty(),
                    );
                    lemma_front(word("extend"@), written_scalar(t.name, t.directives));
                },
                TypeExtensionModel::Object(t) => {
                    lemma_types_tokens(
                        t.name,
                        t.implements_interfaces,
                        Seq::empty(),
                        t.directives,
                        t.fields,
                    );
                    lemma_front(
                        word("extend"@),
                        written_object(t.name, t.implements_interfaces, t.directives, t.fields),
                    );
                },
                TypeExtensionModel::Interface(t) => {
                    lemma_types_tokens(t.name, Seq::empty(), Seq::empty(), t.directives, t.fields);
                    lemma_front(
                        word("extend"@),
                        written_interface(t.name, t.directives, t.fields),
                    );
                },
                TypeExtensionModel::Union(t) => {
                    lemma_types_tokens(t.name, Seq::empty(), t.types, t.directives, Seq::empty());
                    lemma_front(word("extend"@), written_union(t.name, t.directives, t.types));
                },
            }
        },
    }
}

/// The tokens of named definitions are plain.
pub proof fn lemma_definitions_tokens(list: Seq<DefinitionModel>, k: int)
    requires
        0 <= k,
        named_definitions(list),
    ensures
        plain_tokens(written_definitions(list, k)),
    decreases list.len() - k,
{
    if k < list.len() {
        lemma_definition_tokens(list[k]);
        lemma_definitions_tokens(list, k + 1);
        lemma_join(written_definition(list[k]), written_definitions(list, k + 1));
    }
}

/// Whether the token, if it is a name, is a name indeed, and if it is a
/// float, a float.
pub open spec fn named_token(t: TokenModel) -> bool {
    (t.kind == Kind::Name ==> is_name(t.value)) && (t.kind == Kind::FloatValue ==> is_number(
        t.value,
        Kind::FloatValue,
    ))
}

/// Whether every token among `toks` is named.
pub open spec fn named_tokens(toks: Seq<TokenModel>) -> bool {
    forall|k: int| 0 <= k < toks.len() ==> named_token(#[trigger] toks[k])
}

/// Whether every name token of `src` is a name and every float token a
/// float.
pub open spec fn named_source(src: Source) -> bool {
    named_tokens(src.tokens)
}

/// A name runs over name characters only, and not past the text.
pub proof fn lemma_name_run(text: Seq<char>, j: int)
    requires
        0 <= j <= text.len(),
    ensures
        j <= name_end(text, j) <= text.len(),
        forall|m: int| j <= m < name_end(text, j) ==> is_name_part(#[trigger] text[m]),
    decreases text.len() - j,
{
    if j < text.len() && is_name_part(text[j]) {
        lemma_name_run(text, j + 1);
    }
}

/// A number runs over no character that ends a number, up to one that
/// does or to the end of the text.
pub proof fn lemma_number_run(text: Seq<char>, j: int)
    requires
        0 <= j <= text.len(),
    ensures
        j <= number_end(text, j) <= text.len(),
        forall|m: int| j <= m < number_end(text, j) ==> !ends_number(#[trigger] text[m]),
        number_end(text, j) == text.len() || ends_number(text[number_end(text, j)]),
    decreases text.len() - j,
{
    if j < text.len() && !ends_number(text[j]) {
        lemma_number_run(text, j + 1);
    }
}

/// The token that begins at an index of a text is named.
pub proof fn lemma_scan_named(text: Seq<char>, i: int)
    requires
        0 <= i < text.len(),
    ensures
        scan(text, i) matches Ok(found) ==> (i < found.1 <= text.len() ==> named_token(
            TokenModel {
                kind: found.0,
                value: text.subrange(i, found.1),
                position: crate::position::Pos::origin(),
            },
        )),
{
    match scan(text, i) {
        Ok(found) => {
            let end = found.1;
            if i < end <= text.len() {
                let v = text.subrange(i, end);
                assert(v[0] == text[i]);
                if found.0 == Kind::Name {
                    lemma_name_run(text, i + 1);
                    assert forall|k: int| 0 <= k < v.len() implies is_name_part(
                        #[trigger] v[k],
                    ) by {
                        assert(v[k] == text[i + k]);
                    }
                }
                if found.0 == Kind::FloatValue {
                    lemma_number_run(text, i + 1);
                    assert forall|k: int| 0 <= k < v.len() implies !ends_number(
                        #[trigger] v[k],
                    ) by {
                        assert(v[k] == text[i + k]);
                    }
                    crate::lexemes::lemma_number_kind_window(text, i, v);
                }
            }
        },
        Err(_) => {},
    }
}

/// The tokens that a text is cut into from an index on are named, if
/// those found so far are.
pub proof fn lemma_cut_named(text: Seq<char>, i: int, pos: crate::position::Pos, found: Seq<TokenModel>)
    requires
        named_tokens(found),
    ensures
        named_tokens(lex_from(text, i, pos, found).tokens),
    decreases text.len() - i,
{
    if 0 <= i < text.len() {
        lemma_scan_named(text, i);
        match scan(text, i) {
            Ok(one) => {
                let end = one.1;
                if i < end <= text.len() {
                    let token = TokenModel {
                        kind: one.0,
                        value: text.subrange(i, end),
                        position: pos,
                    };
                    let next = skip_blank(text, end, travel(text, i, end, pos), false);
                    if i < next.0 <= text.len() {
                        let grown = found.push(token);
                        assert forall|k: int| 0 <= k < grown.len() implies named_token(
                            #[trigger] grown[k],
                        ) by {
                            if k < found.len() {
                                assert(grown[k] == found[k]);
                            }
                        }
                        lemma_cut_named(text, next.0, next.1, grown);
                    }
                }
            },
            Err(_) => {},
        }
    }
}

/// The tokens of a text are named: every name among them is a name, and
/// every float a float.
pub proof fn law_cut_tokens_are_named(text: Seq<char>)
    ensures
        named_source(lex(text)),
{
    let first = skip_blank(text, 0, crate::position::Pos::origin(), false);
    lemma_cut_named(text, first.0, first.1, Seq::empty());
}

/// A type reference that is read from named tokens is named.
pub proof fn lemma_type_named(src: Source, i: int)
    requires
        named_source(src),
    ensures
        parse_type(src, i) matches Parsed::Done { value, next } ==> named_type(value),
    decreases src.tokens.len() - i,
{
    if at_punct(src, i, "["@) {
        lemma_type_named(src, i + 1);
        match parse_type(src, i + 1) {
            Parsed::Done { value: inner, next } => {
                let list = TypeModel::ListType(Box::new(inner));
                assert(named_type(list));
                assert(named_type(TypeModel::NonNullType(Box::new(list))));
            },
            Parsed::Failed { .. } => {},
        }
    } else if at_kind(src, i, Kind::Name) {
        assert(named_token(src.tokens[i]));
        let one = TypeModel::NamedType(src.tokens[i].value);
        assert(named_type(one));
        assert(named_type(TypeModel::NonNullType(Box::new(one))));
    }
}

/// Named entries stay named when a name is given a named value.
pub proof fn lemma_upsert_named(
    entries: Seq<(Seq<char>, ValueModel)>,
    key: Seq<char>,
    item: ValueModel,
)
    requires
        named_entries(entries),
        is_name(key),
        named_value(item),
    ensures
        named_entries(upsert(entries, key, item)),
{
    let k = key_index(entries, key, 0);
    let after = upsert(entries, key, item);
    assert forall|a: int| 0 <= a < after.len() implies is_name((#[trigger] after[a]).0)
        && named_value(after[a].1) by {
        if a < entries.len() && a != k {
            assert(after[a] == entries[a]);
        }
    }
}

/// A value that is read from named tokens is named.
pub proof fn lemma_value_named(src: Source, i: int, constant: bool)
    requires
        named_source(src),
    ensures
        value(src, i, constant) matches Parsed::Done { value: v, next } ==> named_value(v),
    decreases src.tokens.len() - i, 0int,
{
    if 0 <= i < src.tokens.len() {
        assert(named_token(src.tokens[i]));
    }
    if 0 <= i + 1 < src.tokens.len() {
        assert(named_token(src.tokens[i + 1]));
    }
    if at_punct(src, i, "["@) {
        lemma_list_named(src, i + 1, constant, Seq::empty());
    }
    if at_punct(src, i, "{"@) {
        lemma_object_named(src, i + 1, constant, Seq::empty());
    }
}

/// The rest of a list that is read from named tokens is named, if the
/// items so far are.
pub proof fn lemma_list_named(src: Source, i: int, constant: bool, found: Seq<ValueModel>)
    requires
        named_source(src),
        named_items(found),
    ensures
        list_items(src, i, constant, found) matches Parsed::Done { value: v, next } ==> named_value(
            v,
        ),
    decreases src.tokens.len() - i, 1int,
{
    if !at_punct(src, i, "]"@) && starts_value(src, i, constant) {
        lemma_value_named(src, i, constant);
        match value(src, i, constant) {
            Parsed::Done { value: item, next } => {
                if i < next <= src.tokens.len() {
                    let grown = found.push(item);
                    assert forall|k: int| 0 <= k < grown.len() implies named_value(
                        #[trigger] grown[k],
                    ) by {
                        if k < found.len() {
                            assert(grown[k] == found[k]);
                        }
                    }
                    lemma_list_named(src, next, constant, grown);
                }
            },
            Parsed::Failed { .. } => {},
        }
    }
}

/// The rest of an object that is read from named tokens is named, if
/// the entries so far are.
pub proof fn lemma_object_named(
    src: Source,
    i: int,
    constant: bool,
    found: Seq<(Seq<char>, ValueModel)>,
)
    requires
        named_source(src),
        named_entries(found),
    ensures
        object_entries(src, i, constant, found) matches Parsed::Done { value: v, next }
            ==> named_value(v),
    decreases src.tokens.len() - i, 1int,
{
    if !at_punct(src, i, "}"@) && at_kind(src, i, Kind::Name) && at_punct(src, i + 1, ":"@) {
        assert(named_token(src.tokens[i]));
        lemma_value_named(src, i + 2, constant);
        match value(src, i + 2, constant) {
            Parsed::Done { value: item, next } => {
                if i < next <= src.tokens.len() {
                    lemma_upsert_named(found, src.tokens[i].value, item);
                    lemma_object_named(
                        src,
                        next,
                        constant,
                        upsert(found, src.tokens[i].value, item),
                    );
                }
            },
            Parsed::Failed { .. } => {},
        }
    }
}

/// The rest of an argument list that is read from named tokens is
/// named, if the arguments so far are.
pub proof fn lemma_more_arguments_named(src: Source, i: int, found: Seq<(Seq<char>, ValueModel)>)
    requires
        named_source(src),
        named_entries(found),
    ensures
        more_arguments(src, i, found) matches Parsed::Done { value, next } ==> named_entries(
            value,
        ),
    decreases src.tokens.len() - i,
{
    if found.len() == 0 || at_kind(src, i, Kind::Name) {
        if at_kind(src, i, Kind::Name) && at_punct(src, i + 1, ":"@) {
            assert(named_token(src.tokens[i]));
            lemma_value_named(src, i + 2, false);
        }
        match argument(src, i) {
            Parsed::Done { value: one, next } => {
                if i < next <= src.tokens.len() {
                    let grown = found.push(one);
                    assert forall|k: int| 0 <= k < grown.len() implies is_name(
                        (#[trigger] grown[k]).0,
                    ) && named_value(grown[k].1) by {
                        if k < found.len() {
                            assert(grown[k] == found[k]);
                        }
                    }
                    lemma_more_arguments_named(src, next, grown);
                }
            },
            Parsed::Failed { .. } => {},
        }
    }
}

/// The directives that are read from named tokens are named, if the
/// directives so far are.
pub proof fn lemma_more_directives_named(src: Source, i: int, found: Seq<DirectiveModel>)
    requires
        named_source(src),
        named_directives(found),
    ensures
        more_directives(src, i, found) matches Parsed::Done { value, next } ==> named_directives(
            value,
        ),
    decreases src.tokens.len() - i,
{
    if at_punct(src, i, "@"@) {
        if at_kind(src, i + 1, Kind::Name) {
            assert(named_token(src.tokens[i + 1]));
            if at_punct(src, i + 2, "("@) {
                lemma_more_arguments_named(src, i + 3, Seq::empty());
            }
        }
        match directive(src, i) {
            Parsed::Done { value: one, next } => {
                if i < next <= src.tokens.len() {
                    let grown = found.push(one);
                    assert forall|k: int| 0 <= k < grown.len() implies is_name(
                        (#[trigger] grown[k]).name,
                    ) && named_entries(grown[k].arguments) by {
                        if k < found.len() {
                            assert(grown[k] == found[k]);
                        }
                    }
                    lemma_more_directives_named(src, next, grown);
                }
            },
            Parsed::Failed { .. } => {},
        }
    }
}

/// What a declaration begins with, read from named tokens, has a name.
pub proof fn lemma_declared_named(src: Source, i: int)
    requires
        named_source(src),
    ensures
        declared(src, i) matches Parsed::Done { value, next } ==> is_name(value.1),
{
    if 0 <= i < src.tokens.len() {
        assert(named_token(src.tokens[i]));
    }
    if 0 <= i + 1 < src.tokens.len() {
        assert(named_token(src.tokens[i + 1]));
    }
}

/// An input value that is read from named tokens is named.
pub proof fn lemma_input_value_named(src: Source, i: int)
    requires
        named_source(src),
    ensures
        input_value(src, i) matches Parsed::Done { value, next } ==> named_input_value(value),
{
    lemma_declared_named(src, i);
    match declared(src, i) {
        Parsed::Done { value: front, next: a } => {
            lemma_type_named(src, a + 1);
            match typed(src, a) {
                Parsed::Done { value: t, next: b } => {
                    lemma_value_named(src, b + 1, true);
                    match default_clause(src, b) {
                        Parsed::Done { value: v, next: c } => {
                            lemma_more_directives_named(src, c, Seq::empty());
                        },
                        Parsed::Failed { .. } => {},
                    }
                },
                Parsed::Failed { .. } => {},
            }
        },
        Parsed::Failed { .. } => {},
    }
}

/// The rest of a list of input values that is read from named tokens is
/// named, if the input values so far are.
pub proof fn lemma_input_values_named(src: Source, i: int, found: Seq<InputValueModel>)
    requires
        named_source(src),
        named_input_values(found),
    ensures
        input_values(src, i, found) matches Parsed::Done { value, next } ==> named_input_values(
            value,
        ),
    decreases src.tokens.len() - i,
{
    lemma_input_value_named(src, i);
    match input_value(src, i) {
        Parsed::Done { value: one, next } => {
            if i < next <= src.tokens.len() {
                let grown = found.push(one);
                assert forall|k: int| 0 <= k < grown.len() implies named_input_value(
                    #[trigger] grown[k],
                ) by {
                    if k < found.len() {
                        assert(grown[k] == found[k]);
                    }
                }
                lemma_input_values_named(src, next, grown);
            }
        },
        Parsed::Failed { .. } => {},
    }
}

/// A field that is read from named tokens is named.
pub proof fn lemma_field_named(src: Source, i: int)
    requires
        named_source(src),
    ensures
        field(src, i) matches Parsed::Done { value, next } ==> named_field(value),
{
    lemma_declared_named(src, i);
    match declared(src, i) {
        Parsed::Done { value: front, next: a } => {
            if at_punct(src, a, "("@) {
                lemma_input_values_named(src, a + 1, Seq::empty());
            }
            match arguments_definition(src, a) {
                Parsed::Done { value: inputs, next: b } => {
                    lemma_type_named(src, b + 1);
                    match typed(src, b) {
                        Parsed::Done { value: t, next: c } => {
                            lemma_more_directives_named(src, c, Seq::empty());
                        },
                        Parsed::Failed { .. } => {},
                    }
                },
                Parsed::Failed { .. } => {},
            }
        },
        Parsed::Failed { .. } => {},
    }
}

/// The rest of a block of fields that is read from named tokens is
/// named, if the fields so far are.
pub proof fn lemma_more_fields_named(src: Source, i: int, found: Seq<FieldModel>)
    requires
        named_source(src),
        named_fields(found),
    ensures
        more_fields(src, i, found) matches Parsed::Done { value, next } ==> named_fields(value),
    decreases src.tokens.len() - i,
{
    lemma_field_named(src, i);
    match field(src, i) {
        Parsed::Done { value: one, next } => {
            if i < next <= src.tokens.len() {
                let grown = found.push(one);
                assert forall|k: int| 0 <= k < grown.len() implies named_field(
                    #[trigger] grown[k],
                ) by {
                    if k < found.len() {
                        assert(grown[k] == found[k]);
                    }
                }
                lemma_more_fields_named(src, next, grown);
            }
        },
        Parsed::Failed { .. } => {},
    }
}

/// Names that are read from named tokens are names, if the names so far
/// are.
pub proof fn lemma_names_named(src: Source, i: int, separator: Seq<char>, found: Seq<Seq<char>>)
    requires
        named_source(src),
        named_names(found),
    ensures
        names(src, i, separator, found) matches Parsed::Done { value, next } ==> named_names(
            value,
        ),
    decreases src.tokens.len() - i,
{
    if at_kind(src, i, Kind::Name) {
        assert(named_token(src.tokens[i]));
        let grown = found.push(src.tokens[i].value);
        assert forall|k: int| 0 <= k < grown.len() implies is_name(#[trigger] grown[k]) by {
            if k < found.len() {
                assert(grown[k] == found[k]);
            }
        }
        if at_punct(src, i + 1, separator) {
            lemma_names_named(src, i + 2, separator, grown);
        }
    }
}

/// The directives, the fields, the interfaces and the members that are
/// read from named tokens at any index are named.
pub proof fn lemma_parts_named(src: Source, i: int)
    requires
        named_source(src),
    ensures
        directives(src, i) matches Parsed::Done { value, next } ==> named_directives(value),
        fields(src, i) matches Parsed::Done { value, next } ==> named_fields(value),
        implements_interfaces(src, i) matches Parsed::Done { value, next } ==> named_names(value),
        member_clause(src, i) matches Parsed::Done { value, next } ==> named_names(
            members_of(value),
        ),
{
    lemma_more_directives_named(src, i, Seq::empty());
    if at_punct(src, i, "{"@) {
        lemma_more_fields_named(src, i + 1, Seq::empty());
    }
    lemma_names_named(src, i + 1, "&"@, Seq::empty());
    lemma_names_named(src, i + 2, "&"@, Seq::empty());
    lemma_names_named(src, i + 1, "|"@, Seq::empty());
    lemma_names_named(src, i + 2, "|"@, Seq::empty());
}

/// Whether the bindings hold names only.
pub open spec fn named_bindings(state: Bindings) -> bool {
    named_binding(state.query) && named_binding(state.mutation) && named_binding(
        state.subscription,
    )
}

/// The rest of a `schema` block that is read from named tokens is
/// named, if its directives and the bindings so far are.
pub proof fn lemma_operations_named(
    src: Source,
    start: int,
    list: Seq<DirectiveModel>,
    i: int,
    state: Bindings,
)
    requires
        named_source(src),
        named_directives(list),
        named_bindings(state),
    ensures
        operations(src, start, list, i, state) matches Parsed::Done { value, next }
            ==> named_schema(value),
    decreases src.tokens.len() - i,
{
    if at_kind(src, i, Kind::Name) && at_punct(src, i + 1, ":"@) && at_kind(
        src,
        i + 2,
        Kind::Name,
    ) {
        assert(named_token(src.tokens[i + 2]));
        lemma_operations_named(
            src,
            start,
            list,
            i + 3,
            bind(state, src.tokens[i], src.tokens[i + 2].value),
        );
    }
}

/// The heads of types that are read from named tokens have names.
pub proof fn lemma_head_named(src: Source, i: int, keyword: Seq<char>)
    requires
        named_source(src),
    ensures
        head(src, i, keyword) matches Parsed::Done { value, next } ==> is_name(value) && next == i
            + 2,
{
    if at_kind(src, i + 1, Kind::Name) {
        assert(named_token(src.tokens[i + 1]));
    }
}

/// A scalar, an object, an interface and a union that are read from
/// named tokens are named.
pub proof fn lemma_types_named(src: Source, i: int)
    requires
        named_source(src),
    ensures
        scalar_type(src, i) matches Parsed::Done { value, next } ==> is_name(value.name)
            && named_directives(value.directives),
        object_type(src, i) matches Parsed::Done { value, next } ==> is_name(value.name)
            && named_names(value.implements_interfaces) && named_directives(value.directives)
            && named_fields(value.fields),
        interface_type(src, i) matches Parsed::Done { value, next } ==> is_name(value.name)
            && named_directives(value.directives) && named_fields(value.fields),
        union_parts(src, i) matches Parsed::Done { value, next } ==> is_name(value.0)
            && named_directives(value.1) && named_names(members_of(value.2)),
{
    lemma_head_named(src, i, "scalar"@);
    lemma_head_named(src, i, "type"@);
    lemma_head_named(src, i, "interface"@);
    lemma_head_named(src, i, "union"@);
    lemma_parts_named(src, i + 2);
    match directives(src, i + 2) {
        Parsed::Done { value: list, next: b } => {
            lemma_parts_named(src, b);
        },
        Parsed::Failed { .. } => {},
    }
    match implements_interfaces(src, i + 2) {
        Parsed::Done { value: interfaces, next: a } => {
            lemma_parts_named(src, a);
            match directives(src, a) {
                Parsed::Done { value: list, next: b } => {
                    lemma_parts_named(src, b);
                },
                Parsed::Failed { .. } => {},
            }
        },
        Parsed::Failed { .. } => {},
    }
}

/// A definition that is read from named tokens is named.
pub proof fn lemma_definition_named(src: Source, i: int)
    requires
        named_source(src),
    ensures
        definition(src, i) matches Parsed::Done { value, next } ==> named_definition(value),
{
    lemma_parts_named(src, i + 2);
    match directives(src, i + 2) {
        Parsed::Done { value: list, next: b } => {
            lemma_operations_named(src, i, list, b, unbound());
        },
        Parsed::Failed { .. } => {},
    }
    lemma_types_named(src, i);
    lemma_types_named(src, i + 1);
}

/// The rest of a document that is read from named tokens is named, if
/// the definitions so far are.
pub proof fn lemma_definitions_named(src: Source, i: int, found: Seq<DefinitionModel>)
    requires
        named_source(src),
        named_definitions(found),
    ensures
        definitions(src, i, found) matches Parsed::Done { value, next } ==> named_document(value),
    decreases src.tokens.len() - i,
{
    lemma_definition_named(src, i);
    match definition(src, i) {
        Parsed::Done { value: one, next } => {
            if i < next <= src.tokens.len() {
                let grown = found.push(one);
                assert forall|k: int| 0 <= k < grown.len() implies named_definition(
                    #[trigger] grown[k],
                ) by {
                    if k < found.len() {
                        assert(grown[k] == found[k]);
                    }
                }
                lemma_definitions_named(src, next, grown);
            }
        },
        Parsed::Failed { .. } => {},
    }
}

/// A document that is read from named tokens is named: every name in it
/// is a name, and every float a float.
pub proof fn law_read_documents_are_named(src: Source)
    requires
        named_source(src),
    ensures
        document(src) matches Parsed::Done { value, next } ==> named_document(value),
{
    lemma_definitions_named(src, 0, Seq::empty());
}

/// The document as a text: its tokens, one blank behind each.
pub open spec fn written_text(doc: DocumentModel) -> Seq<char> {
    text_of(written_definitions(doc.definitions, 0), 0)
}

/// A text that is read can be written down and read again. Every
/// document that the grammar reads from a text has a text of its own,
/// and that text is read as a document that is the one first read, up to
/// the places: it holds as many definitions, each the same but for where
/// it stands.
pub proof fn law_text_is_read_again(text: Seq<char>)
    ensures
        document(lex(text)) matches Parsed::Done { value, next } ==> (document(
            lex(written_text(value)),
        ) matches Parsed::Done { value: again, next: behind } && unplaced_document(again)
            == unplaced_document(value) && again.definitions.len() == value.definitions.len()),
{
    match document(lex(text)) {
        Parsed::Done { value: doc, next } => {
            law_cut_tokens_are_named(text);
            law_read_documents_are_named(lex(text));
            law_read_documents_are_plain(lex(text));
            let toks = written_definitions(doc.definitions, 0);
            lemma_definitions_tokens(doc.definitions, 0);
            law_tokens_are_cut_again(toks);
            let src = lex(written_text(doc));
            assert(bare_tokens(src.tokens).len() == src.tokens.len());
            assert(bare_tokens(toks).len() == toks.len());
            assert(src.tokens.subrange(0, toks.len() as int) =~= src.tokens);
            lemma_definitions_written(src, 0, doc.definitions, 0);
            law_written_documents_are_read(src, doc);
        },
        Parsed::Failed { .. } => {},
    }
}

} // verus!

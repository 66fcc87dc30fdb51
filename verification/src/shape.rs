//! The shape of what is read.
//!
//! Not every value of the types of [`crate::schema::ast`] can come out of
//! the grammar. What does come out is plain: it is in the one shape in
//! which [`crate::spelling`] writes a node down.
use vstd::prelude::*;
use crate::common::{DirectiveModel, TypeModel, ValueModel};
use crate::schema::ast::{
    DefinitionModel, DocumentModel, FieldModel, InputValueModel, TypeDefinitionModel,
    TypeExtensionModel,
};
use crate::spelling::{
    distinct_keys, reserved, spelled_arguments_definition, spelled_default, spelled_definition,
    spelled_definitions, spelled_description, spelled_directive, spelled_directives,
    spelled_document, spelled_entries, spelled_field, spelled_fields, spelled_fields_from,
    spelled_input_value, spelled_input_values, spelled_interfaces, spelled_items, spelled_type,
    spelled_value,
};
use crate::syntax::common::{
    argument, directive, directives, key_index, list_items, more_arguments, more_directives,
    object_entries, parse_type, starts_value, upsert, value,
};
use crate::syntax::schema::{
    declared, default_clause, definition, definitions, document, field, fields,
    implements_interfaces, input_value, input_values, interface_type, more_fields, object_type,
    scalar_type, schema, type_definition, type_extension, typed, unbound, union_parts,
};
use crate::syntax::{at_kind, at_punct, Parsed};
use crate::tokenizer::{Kind, Source};

verus! {

/// Whether no non-null type in `t` wraps a non-null type.
pub open spec fn plain_type(t: TypeModel) -> bool
    decreases t,
{
    match t {
        TypeModel::NamedType(n) => true,
        TypeModel::ListType(inner) => plain_type(*inner),
        TypeModel::NonNullType(inner) => !(*inner is NonNullType) && plain_type(*inner),
    }
}

/// Whether `v` holds a variable only where it is not constant, no enum
/// value that is a reserved name, and no object with a key twice.
pub open spec fn plain_value(v: ValueModel, constant: bool) -> bool
    decreases v,
{
    match v {
        ValueModel::Variable(n) => !constant,
        ValueModel::Enum(n) => !reserved(n),
        ValueModel::List(items) => forall|k: int|
            0 <= k < items.len() ==> plain_value(#[trigger] items[k], constant),
        ValueModel::Object(entries) => distinct_keys(entries) && forall|k: int|
            0 <= k < entries.len() ==> plain_value((#[trigger] entries[k]).1, constant),
        _ => true,
    }
}

/// Whether every value among `list` is plain.
pub open spec fn plain_entries(list: Seq<(Seq<char>, ValueModel)>, constant: bool) -> bool {
    forall|k: int| 0 <= k < list.len() ==> plain_value((#[trigger] list[k]).1, constant)
}

/// Whether every item of `items` is plain.
pub open spec fn plain_items(items: Seq<ValueModel>, constant: bool) -> bool {
    forall|k: int| 0 <= k < items.len() ==> plain_value(#[trigger] items[k], constant)
}

/// Whether the arguments of every directive among `list` are plain.
pub open spec fn plain_directives(list: Seq<DirectiveModel>) -> bool {
    forall|k: int| 0 <= k < list.len() ==> plain_entries((#[trigger] list[k]).arguments, false)
}

/// Whether the type, the default and the directives of `x` are plain.
pub open spec fn plain_input_value(x: InputValueModel) -> bool {
    &&& plain_type(x.value_type)
    &&& x.default_value matches Some(v) ==> plain_value(v, true)
    &&& plain_directives(x.directives)
}

/// Whether every input value among `list` is plain.
pub open spec fn plain_input_values(list: Seq<InputValueModel>) -> bool {
    forall|k: int| 0 <= k < list.len() ==> plain_input_value(#[trigger] list[k])
}

/// Whether the arguments, the type and the directives of `x` are plain.
pub open spec fn plain_field(x: FieldModel) -> bool {
    &&& plain_input_values(x.arguments)
    &&& plain_type(x.field_type)
    &&& plain_directives(x.directives)
}

/// Whether every field among `list` is plain.
pub open spec fn plain_fields(list: Seq<FieldModel>) -> bool {
    forall|k: int| 0 <= k < list.len() ==> plain_field(#[trigger] list[k])
}

/// Whether `def` defines a scalar, an object, an interface or a union,
/// and its parts are plain.
pub open spec fn plain_type_definition(def: TypeDefinitionModel) -> bool {
    match def {
        TypeDefinitionModel::Scalar(t) => plain_directives(t.directives),
        TypeDefinitionModel::Object(t) => plain_directives(t.directives) && plain_fields(t.fields),
        TypeDefinitionModel::Interface(t) => plain_directives(t.directives) && plain_fields(
            t.fields,
        ),
        TypeDefinitionModel::Union(t) => plain_directives(t.directives),
        TypeDefinitionModel::Enum(t) => false,
        TypeDefinitionModel::InputObject(t) => false,
    }
}

/// Whether `ext` adds something, and its parts are plain.
pub open spec fn plain_type_extension(ext: TypeExtensionModel) -> bool {
    match ext {
        TypeExtensionModel::Scalar(t) => t.directives.len() > 0 && plain_directives(t.directives),
        TypeExtensionModel::Object(t) => (t.implements_interfaces.len() > 0 || t.directives.len()
            > 0 || t.fields.len() > 0) && plain_directives(t.directives) && plain_fields(
            t.fields,
        ),
        TypeExtensionModel::Interface(t) => (t.directives.len() > 0 || t.fields.len() > 0)
            && plain_directives(t.directives) && plain_fields(t.fields),
        TypeExtensionModel::Union(t) => (t.directives.len() > 0 || t.types.len() > 0)
            && plain_directives(t.directives),
    }
}

/// Whether the definition is plain.
pub open spec fn plain_definition(d: DefinitionModel) -> bool {
    match d {
        DefinitionModel::SchemaDefinition(x) => plain_directives(x.directives),
        DefinitionModel::TypeDefinition(x) => plain_type_definition(x),
        DefinitionModel::TypeExtension(x) => plain_type_extension(x),
    }
}

/// Whether every definition among `list` is plain.
pub open spec fn plain_definitions(list: Seq<DefinitionModel>) -> bool {
    forall|k: int| 0 <= k < list.len() ==> plain_definition(#[trigger] list[k])
}

/// Whether the document holds a definition, and only plain ones.
pub open spec fn plain_document(doc: DocumentModel) -> bool {
    doc.definitions.len() > 0 && plain_definitions(doc.definitions)
}

/// A type reference that is read is plain.
pub proof fn lemma_type_plain(src: Source, i: int)
    ensures
        parse_type(src, i) matches Parsed::Done { value, next } ==> plain_type(value),
    decreases src.tokens.len() - i,
{
    if at_punct(src, i, "["@) {
        lemma_type_plain(src, i + 1);
        match parse_type(src, i + 1) {
            Parsed::Done { value: inner, next } => {
                let list = TypeModel::ListType(Box::new(inner));
                assert(plain_type(list));
                assert(plain_type(TypeModel::NonNullType(Box::new(list))));
            },
            Parsed::Failed { .. } => {},
        }
    } else if at_kind(src, i, Kind::Name) {
        let named = TypeModel::NamedType(src.tokens[i].value);
        assert(plain_type(named));
        assert(plain_type(TypeModel::NonNullType(Box::new(named))));
    }
}

/// Where the key stands among the entries, if it does.
pub proof fn lemma_key_index(entries: Seq<(Seq<char>, ValueModel)>, key: Seq<char>, from: int)
    requires
        0 <= from <= entries.len(),
    ensures
        from <= key_index(entries, key, from) <= entries.len(),
        key_index(entries, key, from) < entries.len() ==> entries[key_index(
            entries,
            key,
            from,
        )].0 == key,
        forall|a: int|
            from <= a < key_index(entries, key, from) ==> (#[trigger] entries[a]).0 != key,
    decreases entries.len() - from,
{
    if from < entries.len() && entries[from].0 != key {
        lemma_key_index(entries, key, from + 1);
    }
}

/// Entries without a key twice stay so when a key is given a value, and
/// plain ones stay plain when the value is plain.
pub proof fn lemma_upsert_plain(
    entries: Seq<(Seq<char>, ValueModel)>,
    key: Seq<char>,
    item: ValueModel,
    constant: bool,
)
    requires
        distinct_keys(entries),
        plain_entries(entries, constant),
        plain_value(item, constant),
    ensures
        distinct_keys(upsert(entries, key, item)),
        plain_entries(upsert(entries, key, item), constant),
{
    lemma_key_index(entries, key, 0);
    let k = key_index(entries, key, 0);
    let after = upsert(entries, key, item);
    assert forall|a: int, b: int| 0 <= a < b < after.len() implies (#[trigger] after[a]).0 != (
    #[trigger] after[b]).0 by {
        if k < entries.len() {
            assert(after[a].0 == entries[a].0);
            assert(after[b].0 == entries[b].0);
        } else {
            if b < entries.len() {
                assert(after[a] == entries[a]);
                assert(after[b] == entries[b]);
            } else {
                assert(after[a] == entries[a]);
                assert(after[b].0 == key);
            }
        }
    }
    assert forall|a: int| 0 <= a < after.len() implies plain_value(
        (#[trigger] after[a]).1,
        constant,
    ) by {
        if a < entries.len() && a != k {
            assert(after[a] == entries[a]);
        }
    }
}

/// A value that is read is plain.
pub proof fn lemma_value_plain(src: Source, i: int, constant: bool)
    ensures
        value(src, i, constant) matches Parsed::Done { value: v, next } ==> plain_value(
            v,
            constant,
        ),
    decreases src.tokens.len() - i, 0int,
{
    crate::reading::lemma_value_words();
    if at_punct(src, i, "["@) {
        lemma_list_plain(src, i + 1, constant, Seq::empty());
    }
    if at_punct(src, i, "{"@) {
        lemma_object_plain(src, i + 1, constant, Seq::empty());
    }
}

/// The rest of a list that is read is plain, if the items so far are.
pub proof fn lemma_list_plain(src: Source, i: int, constant: bool, found: Seq<ValueModel>)
    requires
        plain_items(found, constant),
    ensures
        list_items(src, i, constant, found) matches Parsed::Done { value: v, next } ==> plain_value(
            v,
            constant,
        ),
    decreases src.tokens.len() - i, 1int,
{
    if !at_punct(src, i, "]"@) && starts_value(src, i, constant) {
        lemma_value_plain(src, i, constant);
        match value(src, i, constant) {
            Parsed::Done { value: item, next } => {
                if i < next <= src.tokens.len() {
                    let grown = found.push(item);
                    assert forall|k: int| 0 <= k < grown.len() implies plain_value(
                        #[trigger] grown[k],
                        constant,
                    ) by {
                        if k < found.len() {
                            assert(grown[k] == found[k]);
                        }
                    }
                    lemma_list_plain(src, next, constant, grown);
                }
            },
            Parsed::Failed { .. } => {},
        }
    }
}

/// The rest of an object that is read is plain, if the entries so far
/// are and hold no key twice.
pub proof fn lemma_object_plain(
    src: Source,
    i: int,
    constant: bool,
    found: Seq<(Seq<char>, ValueModel)>,
)
    requires
        distinct_keys(found),
        plain_entries(found, constant),
    ensures
        object_entries(src, i, constant, found) matches Parsed::Done { value: v, next }
            ==> plain_value(v, constant),
    decreases src.tokens.len() - i, 1int,
{
    if !at_punct(src, i, "}"@) && at_kind(src, i, Kind::Name) && at_punct(src, i + 1, ":"@) {
        lemma_value_plain(src, i + 2, constant);
        match value(src, i + 2, constant) {
            Parsed::Done { value: item, next } => {
                if i < next <= src.tokens.len() {
                    lemma_upsert_plain(found, src.tokens[i].value, item, constant);
                    lemma_object_plain(
                        src,
                        next,
                        constant,
                        upsert(found, src.tokens[i].value, item),
                    );
                }
            },
            Parsed::Failed { .. } => {},
        }
    }
}

/// The rest of an argument list that is read is plain, if the arguments
/// so far are.
pub proof fn lemma_more_arguments_plain(src: Source, i: int, found: Seq<(Seq<char>, ValueModel)>)
    requires
        plain_entries(found, false),
    ensures
        more_arguments(src, i, found) matches Parsed::Done { value, next } ==> plain_entries(
            value,
            false,
        ),
    decreases src.tokens.len() - i,
{
    if found.len() == 0 || at_kind(src, i, Kind::Name) {
        if at_kind(src, i, Kind::Name) && at_punct(src, i + 1, ":"@) {
            lemma_value_plain(src, i + 2, false);
        }
        match argument(src, i) {
            Parsed::Done { value: one, next } => {
                if i < next <= src.tokens.len() {
                    let grown = found.push(one);
                    assert forall|k: int| 0 <= k < grown.len() implies plain_value(
                        (#[trigger] grown[k]).1,
                        false,
                    ) by {
                        if k < found.len() {
                            assert(grown[k] == found[k]);
                        }
                    }
                    lemma_more_arguments_plain(src, next, grown);
                }
            },
            Parsed::Failed { .. } => {},
        }
    }
}

/// The directives that are read are plain, if the directives so far
/// are.
pub proof fn lemma_more_directives_plain(src: Source, i: int, found: Seq<DirectiveModel>)
    requires
        plain_directives(found),
    ensures
        more_directives(src, i, found) matches Parsed::Done { value, next } ==> plain_directives(
            value,
        ),
    decreases src.tokens.len() - i,
{
    if at_punct(src, i, "@"@) {
        if at_kind(src, i + 1, Kind::Name) && at_punct(src, i + 2, "("@) {
            lemma_more_arguments_plain(src, i + 3, Seq::empty());
        }
        match directive(src, i) {
            Parsed::Done { value: one, next } => {
                if i < next <= src.tokens.len() {
                    let grown = found.push(one);
                    assert forall|k: int| 0 <= k < grown.len() implies plain_entries(
                        (#[trigger] grown[k]).arguments,
                        false,
                    ) by {
                        if k < found.len() {
                            assert(grown[k] == found[k]);
                        }
                    }
                    lemma_more_directives_plain(src, next, grown);
                }
            },
            Parsed::Failed { .. } => {},
        }
    }
}

/// An input value that is read is plain.
pub proof fn lemma_input_value_plain(src: Source, i: int)
    ensures
        input_value(src, i) matches Parsed::Done { value, next } ==> plain_input_value(value),
{
    match declared(src, i) {
        Parsed::Done { value: front, next: a } => {
            lemma_type_plain(src, a + 1);
            match typed(src, a) {
                Parsed::Done { value: t, next: b } => {
                    lemma_value_plain(src, b + 1, true);
                    match default_clause(src, b) {
                        Parsed::Done { value: v, next: c } => {
                            lemma_more_directives_plain(src, c, Seq::empty());
                        },
                        Parsed::Failed { .. } => {},
                    }
                },
                Parsed::Failed { .. } => {},
            }
        },
        Parsed::Failed { .. } => {},
    }
}

/// The rest of a list of input values that is read is plain, if the
/// input values so far are.
pub proof fn lemma_input_values_plain(src: Source, i: int, found: Seq<InputValueModel>)
    requires
        plain_input_values(found),
    ensures
        input_values(src, i, found) matches Parsed::Done { value, next } ==> plain_input_values(
            value,
        ),
    decreases src.tokens.len() - i,
{
    lemma_input_value_plain(src, i);
    match input_value(src, i) {
        Parsed::Done { value: one, next } => {
            if i < next <= src.tokens.len() {
                let grown = found.push(one);
                assert forall|k: int| 0 <= k < grown.len() implies plain_input_value(
                    #[trigger] grown[k],
                ) by {
                    if k < found.len() {
                        assert(grown[k] == found[k]);
                    }
                }
                lemma_input_values_plain(src, next, grown);
            }
        },
        Parsed::Failed { .. } => {},
    }
}

/// A field that is read is plain.
pub proof fn lemma_field_plain(src: Source, i: int)
    ensures
        field(src, i) matches Parsed::Done { value, next } ==> plain_field(value),
{
    match declared(src, i) {
        Parsed::Done { value: front, next: a } => {
            if at_punct(src, a, "("@) {
                lemma_input_values_plain(src, a + 1, Seq::empty());
            }
            match crate::syntax::schema::arguments_definition(src, a) {
                Parsed::Done { value: inputs, next: b } => {
                    lemma_type_plain(src, b + 1);
                    match typed(src, b) {
                        Parsed::Done { value: t, next: c } => {
                            lemma_more_directives_plain(src, c, Seq::empty());
                        },
                        Parsed::Failed { .. } => {},
                    }
                },
                Parsed::Failed { .. } => {},
            }
        },
        Parsed::Failed { .. } => {},
    }
}

/// The rest of a block of fields that is read is plain, if the fields so
/// far are.
pub proof fn lemma_more_fields_plain(src: Source, i: int, found: Seq<FieldModel>)
    requires
        plain_fields(found),
    ensures
        more_fields(src, i, found) matches Parsed::Done { value, next } ==> plain_fields(value),
    decreases src.tokens.len() - i,
{
    lemma_field_plain(src, i);
    match field(src, i) {
        Parsed::Done { value: one, next } => {
            if i < next <= src.tokens.len() {
                let grown = found.push(one);
                assert forall|k: int| 0 <= k < grown.len() implies plain_field(
                    #[trigger] grown[k],
                ) by {
                    if k < found.len() {
                        assert(grown[k] == found[k]);
                    }
                }
                lemma_more_fields_plain(src, next, grown);
            }
        },
        Parsed::Failed { .. } => {},
    }
}

/// The directives and the fields that are read at any index are plain.
pub proof fn lemma_parts_plain(src: Source, i: int)
    ensures
        directives(src, i) matches Parsed::Done { value, next } ==> plain_directives(value),
        fields(src, i) matches Parsed::Done { value, next } ==> plain_fields(value),
{
    lemma_more_directives_plain(src, i, Seq::empty());
    if at_punct(src, i, "{"@) {
        lemma_more_fields_plain(src, i + 1, Seq::empty());
    }
}

/// The directives and the fields of a scalar, an object, an interface
/// and a union that are read are plain.
pub proof fn lemma_types_plain(src: Source, i: int)
    ensures
        scalar_type(src, i) matches Parsed::Done { value, next } ==> plain_directives(
            value.directives,
        ),
        object_type(src, i) matches Parsed::Done { value, next } ==> plain_directives(
            value.directives,
        ) && plain_fields(value.fields),
        interface_type(src, i) matches Parsed::Done { value, next } ==> plain_directives(
            value.directives,
        ) && plain_fields(value.fields),
        union_parts(src, i) matches Parsed::Done { value, next } ==> plain_directives(value.1),
{
    lemma_parts_plain(src, i + 2);
    match directives(src, i + 2) {
        Parsed::Done { value: list, next: b } => {
            lemma_parts_plain(src, b);
        },
        Parsed::Failed { .. } => {},
    }
    match implements_interfaces(src, i + 2) {
        Parsed::Done { value: interfaces, next: a } => {
            lemma_parts_plain(src, a);
            match directives(src, a) {
                Parsed::Done { value: list, next: b } => {
                    lemma_parts_plain(src, b);
                },
                Parsed::Failed { .. } => {},
            }
        },
        Parsed::Failed { .. } => {},
    }
}

/// A `schema` block that is read is plain.
pub proof fn lemma_schema_plain(src: Source, i: int)
    ensures
        schema(src, i) matches Parsed::Done { value, next } ==> plain_directives(value.directives),
{
    lemma_parts_plain(src, i + 2);
    match directives(src, i + 2) {
        Parsed::Done { value: list, next: b } => {
            crate::laws::lemma_operations(src, i, list, b, unbound());
        },
        Parsed::Failed { .. } => {},
    }
}

/// The definition of a type that is read is plain.
pub proof fn lemma_type_definition_plain(src: Source, i: int)
    ensures
        type_definition(src, i) matches Parsed::Done { value, next } ==> plain_type_definition(
            value,
        ),
{
    lemma_types_plain(src, i);
    lemma_types_plain(src, i + 1);
}

/// The extension of a type that is read is plain.
pub proof fn lemma_type_extension_plain(src: Source, i: int)
    ensures
        type_extension(src, i) matches Parsed::Done { value, next } ==> plain_type_extension(
            value,
        ),
{
    lemma_types_plain(src, i + 1);
    crate::laws::law_extensions_add_something(src, i + 1);
}

/// A definition that is read is plain.
pub proof fn lemma_definition_plain(src: Source, i: int)
    ensures
        definition(src, i) matches Parsed::Done { value, next } ==> plain_definition(value),
{
    lemma_schema_plain(src, i);
    lemma_type_definition_plain(src, i);
    lemma_type_extension_plain(src, i);
}

/// The rest of a document that is read is plain, if the definitions so
/// far are.
pub proof fn lemma_definitions_plain(src: Source, i: int, found: Seq<DefinitionModel>)
    requires
        plain_definitions(found),
    ensures
        definitions(src, i, found) matches Parsed::Done { value, next } ==> plain_document(value),
    decreases src.tokens.len() - i,
{
    lemma_definition_plain(src, i);
    match definition(src, i) {
        Parsed::Done { value: one, next } => {
            if i < next <= src.tokens.len() {
                let grown = found.push(one);
                assert forall|k: int| 0 <= k < grown.len() implies plain_definition(
                    #[trigger] grown[k],
                ) by {
                    if k < found.len() {
                        assert(grown[k] == found[k]);
                    }
                }
                lemma_definitions_plain(src, next, grown);
            }
        },
        Parsed::Failed { .. } => {},
    }
}

/// A type reference that tokens spell is plain.
pub proof fn lemma_spelled_type_plain(src: Source, i: int, t: TypeModel)
    requires
        spelled_type(src, i, t) is Some,
    ensures
        plain_type(t),
    decreases t,
{
    match t {
        TypeModel::NamedType(n) => {},
        TypeModel::ListType(inner) => {
            lemma_spelled_type_plain(src, i + 1, *inner);
        },
        TypeModel::NonNullType(inner) => {
            lemma_spelled_type_plain(src, i, *inner);
        },
    }
}

/// A value that tokens spell is plain.
pub proof fn lemma_spelled_value_plain(src: Source, i: int, v: ValueModel, constant: bool)
    requires
        spelled_value(src, i, v, constant) is Some,
    ensures
        plain_value(v, constant),
    decreases v, 0int,
{
    match v {
        ValueModel::List(items) => {
            lemma_spelled_items_plain(src, i + 1, items, 0, constant);
        },
        ValueModel::Object(entries) => {
            lemma_spelled_entries_plain(src, i + 1, entries, 0, constant);
        },
        _ => {},
    }
}

/// The items that tokens spell, from item `k` on, are plain.
pub proof fn lemma_spelled_items_plain(
    src: Source,
    i: int,
    items: Seq<ValueModel>,
    k: int,
    constant: bool,
)
    requires
        0 <= k,
        spelled_items(src, i, items, k, constant) is Some,
    ensures
        forall|m: int| k <= m < items.len() ==> plain_value(#[trigger] items[m], constant),
    decreases items, items.len() - k,
{
    if k < items.len() {
        lemma_spelled_value_plain(src, i, items[k], constant);
        let j = spelled_value(src, i, items[k], constant)->0;
        assert(spelled_items(src, j, items, k + 1, constant) is Some);
        lemma_spelled_items_plain(src, j, items, k + 1, constant);
    }
}

/// The values of the entries that tokens spell, from entry `k` on, are
/// plain.
pub proof fn lemma_spelled_entries_plain(
    src: Source,
    i: int,
    entries: Seq<(Seq<char>, ValueModel)>,
    k: int,
    constant: bool,
)
    requires
        0 <= k,
        spelled_entries(src, i, entries, k, constant) is Some,
    ensures
        forall|m: int| k <= m < entries.len() ==> plain_value((#[trigger] entries[m]).1, constant),
    decreases entries, entries.len() - k,
{
    if k < entries.len() {
        lemma_spelled_value_plain(src, i + 2, entries[k].1, constant);
        let j = spelled_value(src, i + 2, entries[k].1, constant)->0;
        assert(spelled_entries(src, j, entries, k + 1, constant) is Some);
        lemma_spelled_entries_plain(src, j, entries, k + 1, constant);
    }
}

/// The directives that tokens spell, from directive `k` on, are plain.
pub proof fn lemma_spelled_directives_plain(
    src: Source,
    i: int,
    list: Seq<DirectiveModel>,
    k: int,
)
    requires
        0 <= k,
        spelled_directives(src, i, list, k) is Some,
    ensures
        forall|m: int|
            k <= m < list.len() ==> plain_entries((#[trigger] list[m]).arguments, false),
    decreases list.len() - k,
{
    if k < list.len() {
        let j = spelled_directive(src, i, list[k])->0;
        if list[k].arguments.len() > 0 {
            lemma_spelled_entries_plain(src, i + 3, list[k].arguments, 0, false);
        }
        assert(spelled_directives(src, j, list, k + 1) is Some);
        lemma_spelled_directives_plain(src, j, list, k + 1);
    }
}

/// An input value that tokens spell is plain.
pub proof fn lemma_spelled_input_value_plain(src: Source, i: int, x: InputValueModel)
    requires
        spelled_input_value(src, i, x) is Some,
    ensures
        plain_input_value(x),
{
    let a = spelled_description(src, i, x.description)->0;
    lemma_spelled_type_plain(src, a + 2, x.value_type);
    let b = spelled_type(src, a + 2, x.value_type)->0;
    match x.default_value {
        Some(v) => {
            lemma_spelled_value_plain(src, b + 1, v, true);
        },
        None => {},
    }
    let c = spelled_default(src, b, x.default_value)->0;
    lemma_spelled_directives_plain(src, c, x.directives, 0);
}

/// The input values that tokens spell, from input value `k` on, are
/// plain.
pub proof fn lemma_spelled_input_values_plain(
    src: Source,
    i: int,
    list: Seq<InputValueModel>,
    k: int,
)
    requires
        0 <= k,
        spelled_input_values(src, i, list, k) is Some,
    ensures
        forall|m: int| k <= m < list.len() ==> plain_input_value(#[trigger] list[m]),
    decreases list.len() - k,
{
    if k < list.len() {
        lemma_spelled_input_value_plain(src, i, list[k]);
        let j = spelled_input_value(src, i, list[k])->0;
        assert(spelled_input_values(src, j, list, k + 1) is Some);
        lemma_spelled_input_values_plain(src, j, list, k + 1);
    }
}

/// A field that tokens spell is plain.
pub proof fn lemma_spelled_field_plain(src: Source, i: int, x: FieldModel)
    requires
        spelled_field(src, i, x) is Some,
    ensures
        plain_field(x),
{
    let a = spelled_description(src, i, x.description)->0;
    if x.arguments.len() > 0 {
        lemma_spelled_input_values_plain(src, a + 2, x.arguments, 0);
    }
    let b = spelled_arguments_definition(src, a + 1, x.arguments)->0;
    lemma_spelled_type_plain(src, b + 1, x.field_type);
    let c = spelled_type(src, b + 1, x.field_type)->0;
    lemma_spelled_directives_plain(src, c, x.directives, 0);
}

/// The fields that tokens spell, from field `k` on, are plain.
pub proof fn lemma_spelled_fields_plain(src: Source, i: int, list: Seq<FieldModel>, k: int)
    requires
        0 <= k,
        spelled_fields_from(src, i, list, k) is Some,
    ensures
        forall|m: int| k <= m < list.len() ==> plain_field(#[trigger] list[m]),
    decreases list.len() - k,
{
    if k < list.len() {
        lemma_spelled_field_plain(src, i, list[k]);
        let j = spelled_field(src, i, list[k])->0;
        assert(spelled_fields_from(src, j, list, k + 1) is Some);
        lemma_spelled_fields_plain(src, j, list, k + 1);
    }
}

/// The directives and the fields of an object or an interface that
/// tokens spell are plain.
pub proof fn lemma_spelled_parts_plain(
    src: Source,
    a: int,
    list: Seq<DirectiveModel>,
    block: Seq<FieldModel>,
)
    requires
        spelled_directives(src, a, list, 0) is Some,
        spelled_fields(src, spelled_directives(src, a, list, 0)->0, block) is Some,
    ensures
        plain_directives(list),
        plain_fields(block),
{
    lemma_spelled_directives_plain(src, a, list, 0);
    let b = spelled_directives(src, a, list, 0)->0;
    if block.len() > 0 {
        lemma_spelled_fields_plain(src, b + 1, block, 0);
    }
}

/// A definition that tokens spell is plain.
pub proof fn lemma_spelled_definition_plain(src: Source, i: int, d: DefinitionModel)
    requires
        spelled_definition(src, i, d) is Some,
    ensures
        plain_definition(d),
{
    match d {
        DefinitionModel::SchemaDefinition(x) => {
            lemma_spelled_directives_plain(src, i + 2, x.directives, 0);
        },
        DefinitionModel::TypeDefinition(def) => {
            match def {
                TypeDefinitionModel::Scalar(t) => {
                    let a = spelled_description(src, i, t.description)->0;
                    lemma_spelled_directives_plain(src, a + 2, t.directives, 0);
                },
                TypeDefinitionModel::Object(t) => {
                    let a = spelled_description(src, i, t.description)->0;
                    let b = spelled_interfaces(src, a + 2, t.implements_interfaces)->0;
                    lemma_spelled_parts_plain(src, b, t.directives, t.fields);
                },
                TypeDefinitionModel::Interface(t) => {
                    let a = spelled_description(src, i, t.description)->0;
                    lemma_spelled_parts_plain(src, a + 2, t.directives, t.fields);
                },
                TypeDefinitionModel::Union(t) => {
                    let a = spelled_description(src, i, t.description)->0;
                    lemma_spelled_directives_plain(src, a + 2, t.directives, 0);
                },
                TypeDefinitionModel::Enum(t) => {},
                TypeDefinitionModel::InputObject(t) => {},
            }
        },
        DefinitionModel::TypeExtension(ext) => {
            match ext {
                TypeExtensionModel::Scalar(t) => {
                    lemma_spelled_directives_plain(src, i + 3, t.directives, 0);
                },
                TypeExtensionModel::Object(t) => {
                    let b = spelled_interfaces(src, i + 3, t.implements_interfaces)->0;
                    lemma_spelled_parts_plain(src, b, t.directives, t.fields);
                },
                TypeExtensionModel::Interface(t) => {
                    lemma_spelled_parts_plain(src, i + 3, t.directives, t.fields);
                },
                TypeExtensionModel::Union(t) => {
                    lemma_spelled_directives_plain(src, i + 3, t.directives, 0);
                },
            }
        },
    }
}

/// The definitions that tokens spell, from definition `k` on, are plain.
pub proof fn lemma_spelled_definitions_plain(
    src: Source,
    i: int,
    list: Seq<DefinitionModel>,
    k: int,
)
    requires
        0 <= k,
        spelled_definitions(src, i, list, k) is Some,
    ensures
        forall|m: int| k <= m < list.len() ==> plain_definition(#[trigger] list[m]),
    decreases list.len() - k,
{
    if k < list.len() {
        lemma_spelled_definition_plain(src, i, list[k]);
        let j = spelled_definition(src, i, list[k])->0;
        assert(spelled_definitions(src, j, list, k + 1) is Some);
        lemma_spelled_definitions_plain(src, j, list, k + 1);
    }
}

/// What is written is plain: only a plain document has tokens that spell
/// it.
pub proof fn law_written_documents_are_plain(src: Source, doc: DocumentModel)
    requires
        spelled_document(src, doc),
    ensures
        plain_document(doc),
{
    lemma_spelled_definitions_plain(src, 0, doc.definitions, 0);
}

/// What is read is plain. A document that the grammar reads holds at
/// least one definition; each defines or extends a scalar, an object, an
/// interface or a union; every extension adds something; no non-null type
/// wraps a non-null type; no enum value is `true`, `false` or `null`; no
/// object holds a key twice; and no default holds a variable.
pub proof fn law_read_documents_are_plain(src: Source)
    ensures
        document(src) matches Parsed::Done { value, next } ==> plain_document(value),
{
    lemma_definitions_plain(src, 0, Seq::empty());
}

} // verus!

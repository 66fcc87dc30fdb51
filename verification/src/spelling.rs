//! When tokens spell a node.
//!
//! The rules of the grammar go from tokens to nodes. The functions here
//! go the other way: each takes a node and says whether the tokens from
//! an index on are the plain way to write that node down, and where that
//! writing ends. Places play no part in it.
use vstd::prelude::*;
use crate::common::{DirectiveModel, TypeModel, ValueModel};
use crate::schema::ast::{
    DefinitionModel, DocumentModel, EnumTypeModel, EnumValueModel, FieldModel,
    InputObjectTypeModel, InputValueModel, InterfaceTypeExtensionModel, InterfaceTypeModel,
    ObjectTypeExtensionModel, ObjectTypeModel, ScalarTypeExtensionModel, ScalarTypeModel,
    SchemaDefinitionModel, TypeDefinitionModel, TypeExtensionModel, UnionTypeExtensionModel,
    UnionTypeModel,
};
use crate::syntax::common::{integer_of, string};
use crate::syntax::{at_ident, at_kind, at_punct, Parsed};
use crate::tokenizer::{Kind, Source};

verus! {

/// Whether the token at index `i` is a string that spells `text`.
pub open spec fn text_at(src: Source, i: int, text: Seq<char>) -> bool {
    string(src, i) == (Parsed::Done { value: text, next: i + 1 })
}

/// Where the writing of the type reference `t` ends that begins at index
/// `i`. A non-null type is written as what it wraps and `!`, and wraps no
/// non-null type.
pub open spec fn spelled_type(src: Source, i: int, t: TypeModel) -> Option<int>
    decreases t,
{
    match t {
        TypeModel::NamedType(n) => if at_ident(src, i, n) {
            Some(i + 1)
        } else {
            None
        },
        TypeModel::ListType(inner) => if at_punct(src, i, "["@) {
            match spelled_type(src, i + 1, *inner) {
                Some(j) => if at_punct(src, j, "]"@) {
                    Some(j + 1)
                } else {
                    None
                },
                None => None,
            }
        } else {
            None
        },
        TypeModel::NonNullType(inner) => if *inner is NonNullType {
            None
        } else {
            match spelled_type(src, i, *inner) {
                Some(j) => if at_punct(src, j, "!"@) {
                    Some(j + 1)
                } else {
                    None
                },
                None => None,
            }
        },
    }
}

/// The names that stand for a value of their own and so for no enum
/// value.
pub open spec fn reserved(n: Seq<char>) -> bool {
    n == "true"@ || n == "false"@ || n == "null"@
}

/// Whether no two of `entries` have the same key.
pub open spec fn distinct_keys(entries: Seq<(Seq<char>, ValueModel)>) -> bool {
    forall|a: int, b: int|
        0 <= a < b < entries.len() ==> (#[trigger] entries[a]).0 != (#[trigger] entries[b]).0
}

/// Where the writing of the value `v` ends that begins at index `i`. A
/// constant value holds no variable. An enum value is no reserved name,
/// and the entries of an object have distinct keys.
pub open spec fn spelled_value(src: Source, i: int, v: ValueModel, constant: bool) -> Option<int>
    decreases v, 0int,
{
    match v {
        ValueModel::Variable(n) => if !constant && at_punct(src, i, "$"@) && at_ident(
            src,
            i + 1,
            n,
        ) {
            Some(i + 2)
        } else {
            None
        },
        ValueModel::Int(n) => if at_kind(src, i, Kind::IntValue) && integer_of(src.tokens[i].value)
            == Some(n) {
            Some(i + 1)
        } else {
            None
        },
        ValueModel::Float(text) => if at_kind(src, i, Kind::FloatValue) && src.tokens[i].value
            == text {
            Some(i + 1)
        } else {
            None
        },
        ValueModel::String(text) => if text_at(src, i, text) {
            Some(i + 1)
        } else {
            None
        },
        ValueModel::Boolean(b) => if at_ident(
            src,
            i,
            if b {
                "true"@
            } else {
                "false"@
            },
        ) {
            Some(i + 1)
        } else {
            None
        },
        ValueModel::Null => if at_ident(src, i, "null"@) {
            Some(i + 1)
        } else {
            None
        },
        ValueModel::Enum(n) => if !reserved(n) && at_ident(src, i, n) {
            Some(i + 1)
        } else {
            None
        },
        ValueModel::List(items) => if at_punct(src, i, "["@) {
            match spelled_items(src, i + 1, items, 0, constant) {
                Some(j) => if at_punct(src, j, "]"@) {
                    Some(j + 1)
                } else {
                    None
                },
                None => None,
            }
        } else {
            None
        },
        ValueModel::Object(entries) => if at_punct(src, i, "{"@) && distinct_keys(entries) {
            match spelled_entries(src, i + 1, entries, 0, constant) {
                Some(j) => if at_punct(src, j, "}"@) {
                    Some(j + 1)
                } else {
                    None
                },
                None => None,
            }
        } else {
            None
        },
    }
}

/// Where the writing of the items of a list ends, from item `k` on.
pub open spec fn spelled_items(
    src: Source,
    i: int,
    items: Seq<ValueModel>,
    k: int,
    constant: bool,
) -> Option<int>
    decreases items, items.len() - k,
{
    if k < 0 || k >= items.len() {
        Some(i)
    } else {
        match spelled_value(src, i, items[k], constant) {
            Some(j) => spelled_items(src, j, items, k + 1, constant),
            None => None,
        }
    }
}

/// Where the writing of the entries of an object ends, from entry `k`
/// on: each is its key, a colon and its value.
pub open spec fn spelled_entries(
    src: Source,
    i: int,
    entries: Seq<(Seq<char>, ValueModel)>,
    k: int,
    constant: bool,
) -> Option<int>
    decreases entries, entries.len() - k,
{
    if k < 0 || k >= entries.len() {
        Some(i)
    } else if at_ident(src, i, entries[k].0) && at_punct(src, i + 1, ":"@) {
        match spelled_value(src, i + 2, entries[k].1, constant) {
            Some(j) => spelled_entries(src, j, entries, k + 1, constant),
            None => None,
        }
    } else {
        None
    }
}

/// Where the writing of the arguments of a directive ends: nothing for
/// no arguments, else the arguments in parentheses.
pub open spec fn spelled_arguments(src: Source, i: int, list: Seq<(Seq<char>, ValueModel)>)
    -> Option<int> {
    if list.len() == 0 {
        Some(i)
    } else if at_punct(src, i, "("@) {
        match spelled_entries(src, i + 1, list, 0, false) {
            Some(j) => if at_punct(src, j, ")"@) {
                Some(j + 1)
            } else {
                None
            },
            None => None,
        }
    } else {
        None
    }
}

/// Where the writing of the directive `d` ends: `@`, its name and its
/// arguments.
pub open spec fn spelled_directive(src: Source, i: int, d: DirectiveModel) -> Option<int> {
    if at_punct(src, i, "@"@) && at_ident(src, i + 1, d.name) {
        spelled_arguments(src, i + 2, d.arguments)
    } else {
        None
    }
}

/// Where the writing of the directives `list` ends, from directive `k`
/// on.
pub open spec fn spelled_directives(src: Source, i: int, list: Seq<DirectiveModel>, k: int)
    -> Option<int>
    decreases list.len() - k,
{
    if k < 0 || k >= list.len() {
        Some(i)
    } else {
        match spelled_directive(src, i, list[k]) {
            Some(j) => spelled_directives(src, j, list, k + 1),
            None => None,
        }
    }
}

/// The directive `d` without its place.
pub open spec fn unplaced_directive(d: DirectiveModel) -> DirectiveModel {
    DirectiveModel { position: crate::position::Pos::origin(), ..d }
}

/// The directives `list` without their places.
pub open spec fn unplaced_directives(list: Seq<DirectiveModel>) -> Seq<DirectiveModel> {
    list.map_values(|d: DirectiveModel| unplaced_directive(d))
}

/// Where the writing of a description ends: nothing for none, else a
/// string that spells it.
pub open spec fn spelled_description(src: Source, i: int, text: Option<Seq<char>>) -> Option<int> {
    match text {
        Some(words) => if text_at(src, i, words) {
            Some(i + 1)
        } else {
            None
        },
        None => Some(i),
    }
}

/// Where the writing of a default ends: nothing for none, else `=` and
/// the value, which is constant.
pub open spec fn spelled_default(src: Source, i: int, default: Option<ValueModel>) -> Option<int> {
    match default {
        Some(v) => if at_punct(src, i, "="@) {
            spelled_value(src, i + 1, v, true)
        } else {
            None
        },
        None => Some(i),
    }
}

/// Where the writing of the input value `x` ends: its description, its
/// name, a colon, its type, its default and its directives.
pub open spec fn spelled_input_value(src: Source, i: int, x: InputValueModel) -> Option<int> {
    match spelled_description(src, i, x.description) {
        Some(a) => if at_ident(src, a, x.name) && at_punct(src, a + 1, ":"@) {
            match spelled_type(src, a + 2, x.value_type) {
                Some(b) => match spelled_default(src, b, x.default_value) {
                    Some(c) => spelled_directives(src, c, x.directives, 0),
                    None => None,
                },
                None => None,
            }
        } else {
            None
        },
        None => None,
    }
}

/// Where the writing of the input values `list` ends, from input value
/// `k` on.
pub open spec fn spelled_input_values(src: Source, i: int, list: Seq<InputValueModel>, k: int)
    -> Option<int>
    decreases list.len() - k,
{
    if k < 0 || k >= list.len() {
        Some(i)
    } else {
        match spelled_input_value(src, i, list[k]) {
            Some(j) => spelled_input_values(src, j, list, k + 1),
            None => None,
        }
    }
}

/// Where the writing of the arguments of a field ends: nothing for no
/// arguments, else the input values in parentheses.
pub open spec fn spelled_arguments_definition(src: Source, i: int, list: Seq<InputValueModel>)
    -> Option<int> {
    if list.len() == 0 {
        Some(i)
    } else if at_punct(src, i, "("@) {
        match spelled_input_values(src, i + 1, list, 0) {
            Some(j) => if at_punct(src, j, ")"@) {
                Some(j + 1)
            } else {
                None
            },
            None => None,
        }
    } else {
        None
    }
}

/// Where the writing of the field `x` ends: its description, its name,
/// its arguments, a colon, its type and its directives.
pub open spec fn spelled_field(src: Source, i: int, x: FieldModel) -> Option<int> {
    match spelled_description(src, i, x.description) {
        Some(a) => if at_ident(src, a, x.name) {
            match spelled_arguments_definition(src, a + 1, x.arguments) {
                Some(b) => if at_punct(src, b, ":"@) {
                    match spelled_type(src, b + 1, x.field_type) {
                        Some(c) => spelled_directives(src, c, x.directives, 0),
                        None => None,
                    }
                } else {
                    None
                },
                None => None,
            }
        } else {
            None
        },
        None => None,
    }
}

/// Where the writing of the fields `list` ends, from field `k` on.
pub open spec fn spelled_fields_from(src: Source, i: int, list: Seq<FieldModel>, k: int) -> Option<
    int,
>
    decreases list.len() - k,
{
    if k < 0 || k >= list.len() {
        Some(i)
    } else {
        match spelled_field(src, i, list[k]) {
            Some(j) => spelled_fields_from(src, j, list, k + 1),
            None => None,
        }
    }
}

/// Where the writing of a block of fields ends: nothing for no fields,
/// else the fields in braces.
pub open spec fn spelled_fields(src: Source, i: int, list: Seq<FieldModel>) -> Option<int> {
    if list.len() == 0 {
        Some(i)
    } else if at_punct(src, i, "{"@) {
        match spelled_fields_from(src, i + 1, list, 0) {
            Some(j) => if at_punct(src, j, "}"@) {
                Some(j + 1)
            } else {
                None
            },
            None => None,
        }
    } else {
        None
    }
}

/// The input value `x` without its place and those of its directives.
pub open spec fn unplaced_input_value(x: InputValueModel) -> InputValueModel {
    InputValueModel {
        position: crate::position::Pos::origin(),
        directives: unplaced_directives(x.directives),
        ..x
    }
}

/// The input values `list` without their places.
pub open spec fn unplaced_input_values(list: Seq<InputValueModel>) -> Seq<InputValueModel> {
    list.map_values(|x: InputValueModel| unplaced_input_value(x))
}

/// The field `x` without its place and those of its parts.
pub open spec fn unplaced_field(x: FieldModel) -> FieldModel {
    FieldModel {
        position: crate::position::Pos::origin(),
        arguments: unplaced_input_values(x.arguments),
        directives: unplaced_directives(x.directives),
        ..x
    }
}

/// The fields `list` without their places.
pub open spec fn unplaced_fields(list: Seq<FieldModel>) -> Seq<FieldModel> {
    list.map_values(|x: FieldModel| unplaced_field(x))
}

/// Where the writing of the names `list` ends, from name `k` on, with
/// `separator` between them. There is at least one name.
pub open spec fn spelled_names(
    src: Source,
    i: int,
    list: Seq<Seq<char>>,
    k: int,
    separator: Seq<char>,
) -> Option<int>
    decreases list.len() - k,
{
    if k < 0 || k >= list.len() {
        None
    } else if at_ident(src, i, list[k]) {
        if k + 1 < list.len() {
            if at_punct(src, i + 1, separator) {
                spelled_names(src, i + 2, list, k + 1, separator)
            } else {
                None
            }
        } else {
            Some(i + 1)
        }
    } else {
        None
    }
}

/// Where the writing of the interfaces of an object ends: nothing for
/// none, else `implements` and the names with `&` between them.
pub open spec fn spelled_interfaces(src: Source, i: int, list: Seq<Seq<char>>) -> Option<int> {
    if list.len() == 0 {
        Some(i)
    } else if at_ident(src, i, "implements"@) {
        spelled_names(src, i + 1, list, 0, "&"@)
    } else {
        None
    }
}

/// Where the writing of the members of a union ends: nothing for none,
/// else `=` and the names with `|` between them.
pub open spec fn spelled_members(src: Source, i: int, list: Seq<Seq<char>>) -> Option<int> {
    if list.len() == 0 {
        Some(i)
    } else if at_punct(src, i, "="@) {
        spelled_names(src, i + 1, list, 0, "|"@)
    } else {
        None
    }
}

/// Where the writing of a scalar ends: `scalar`, the name and the
/// directives.
pub open spec fn spelled_scalar(src: Source, i: int, n: Seq<char>, list: Seq<DirectiveModel>)
    -> Option<int> {
    if at_ident(src, i, "scalar"@) && at_ident(src, i + 1, n) {
        spelled_directives(src, i + 2, list, 0)
    } else {
        None
    }
}

/// Where the writing of an object ends: `type`, the name, the
/// interfaces, the directives and the fields.
pub open spec fn spelled_object(
    src: Source,
    i: int,
    n: Seq<char>,
    interfaces: Seq<Seq<char>>,
    list: Seq<DirectiveModel>,
    block: Seq<FieldModel>,
) -> Option<int> {
    if at_ident(src, i, "type"@) && at_ident(src, i + 1, n) {
        match spelled_interfaces(src, i + 2, interfaces) {
            Some(a) => match spelled_directives(src, a, list, 0) {
                Some(b) => spelled_fields(src, b, block),
                None => None,
            },
            None => None,
        }
    } else {
        None
    }
}

/// Where the writing of an interface ends: `interface`, the name, the
/// directives and the fields.
pub open spec fn spelled_interface(
    src: Source,
    i: int,
    n: Seq<char>,
    list: Seq<DirectiveModel>,
    block: Seq<FieldModel>,
) -> Option<int> {
    if at_ident(src, i, "interface"@) && at_ident(src, i + 1, n) {
        match spelled_directives(src, i + 2, list, 0) {
            Some(b) => spelled_fields(src, b, block),
            None => None,
        }
    } else {
        None
    }
}

/// Where the writing of a union ends: `union`, the name, the directives
/// and the members.
pub open spec fn spelled_union(
    src: Source,
    i: int,
    n: Seq<char>,
    list: Seq<DirectiveModel>,
    members: Seq<Seq<char>>,
) -> Option<int> {
    if at_ident(src, i, "union"@) && at_ident(src, i + 1, n) {
        match spelled_directives(src, i + 2, list, 0) {
            Some(b) => spelled_members(src, b, members),
            None => None,
        }
    } else {
        None
    }
}

/// Where the writing of the definition of a type ends: its description
/// and then the type. The grammar writes scalars, objects, interfaces
/// and unions.
pub open spec fn spelled_type_definition(src: Source, i: int, def: TypeDefinitionModel) -> Option<
    int,
> {
    match def {
        TypeDefinitionModel::Scalar(t) => match spelled_description(src, i, t.description) {
            Some(a) => spelled_scalar(src, a, t.name, t.directives),
            None => None,
        },
        TypeDefinitionModel::Object(t) => match spelled_description(src, i, t.description) {
            Some(a) => spelled_object(
                src,
                a,
                t.name,
                t.implements_interfaces,
                t.directives,
                t.fields,
            ),
            None => None,
        },
        TypeDefinitionModel::Interface(t) => match spelled_description(src, i, t.description) {
            Some(a) => spelled_interface(src, a, t.name, t.directives, t.fields),
            None => None,
        },
        TypeDefinitionModel::Union(t) => match spelled_description(src, i, t.description) {
            Some(a) => spelled_union(src, a, t.name, t.directives, t.types),
            None => None,
        },
        TypeDefinitionModel::Enum(t) => None,
        TypeDefinitionModel::InputObject(t) => None,
    }
}

/// Where the writing of the extension of a type ends: `extend` and then
/// the type, which adds something.
pub open spec fn spelled_type_extension(src: Source, i: int, ext: TypeExtensionModel) -> Option<
    int,
> {
    if at_ident(src, i, "extend"@) {
        match ext {
            TypeExtensionModel::Scalar(t) => if t.directives.len() > 0 {
                spelled_scalar(src, i + 1, t.name, t.directives)
            } else {
                None
            },
            TypeExtensionModel::Object(t) => if t.implements_interfaces.len() > 0
                || t.directives.len() > 0 || t.fields.len() > 0 {
                spelled_object(
                    src,
                    i + 1,
                    t.name,
                    t.implements_interfaces,
                    t.directives,
                    t.fields,
                )
            } else {
                None
            },
            TypeExtensionModel::Interface(t) => if t.directives.len() > 0 || t.fields.len() > 0 {
                spelled_interface(src, i + 1, t.name, t.directives, t.fields)
            } else {
                None
            },
            TypeExtensionModel::Union(t) => if t.directives.len() > 0 || t.types.len() > 0 {
                spelled_union(src, i + 1, t.name, t.directives, t.types)
            } else {
                None
            },
        }
    } else {
        None
    }
}

/// Where the writing of one operation of a `schema` block ends: nothing
/// where none is bound, else the kind of operation, a colon and the type
/// bound to it.
pub open spec fn spelled_operation(src: Source, i: int, word: Seq<char>, bound: Option<Seq<char>>)
    -> Option<int> {
    match bound {
        Some(n) => if at_ident(src, i, word) && at_punct(src, i + 1, ":"@) && at_ident(
            src,
            i + 2,
            n,
        ) {
            Some(i + 3)
        } else {
            None
        },
        None => Some(i),
    }
}

/// Where the writing of a `schema` block ends: `schema`, and in braces
/// the directives and then the query, the mutation and the subscription,
/// as far as they are bound.
pub open spec fn spelled_schema(src: Source, i: int, x: SchemaDefinitionModel) -> Option<int> {
    if at_ident(src, i, "schema"@) && at_punct(src, i + 1, "{"@) {
        match spelled_directives(src, i + 2, x.directives, 0) {
            Some(a) => match spelled_operation(src, a, "query"@, x.query) {
                Some(b) => match spelled_operation(src, b, "mutation"@, x.mutation) {
                    Some(c) => match spelled_operation(src, c, "subscription"@, x.subscription) {
                        Some(d) => if at_punct(src, d, "}"@) {
                            Some(d + 1)
                        } else {
                            None
                        },
                        None => None,
                    },
                    None => None,
                },
                None => None,
            },
            None => None,
        }
    } else {
        None
    }
}

/// Where the writing of the definition `d` ends.
pub open spec fn spelled_definition(src: Source, i: int, d: DefinitionModel) -> Option<int> {
    match d {
        DefinitionModel::SchemaDefinition(x) => spelled_schema(src, i, x),
        DefinitionModel::TypeDefinition(x) => spelled_type_definition(src, i, x),
        DefinitionModel::TypeExtension(x) => spelled_type_extension(src, i, x),
    }
}

/// Where the writing of the definitions `list` ends, from definition `k`
/// on.
pub open spec fn spelled_definitions(src: Source, i: int, list: Seq<DefinitionModel>, k: int)
    -> Option<int>
    decreases list.len() - k,
{
    if k < 0 || k >= list.len() {
        Some(i)
    } else {
        match spelled_definition(src, i, list[k]) {
            Some(j) => spelled_definitions(src, j, list, k + 1),
            None => None,
        }
    }
}

/// Whether the tokens of `src`, all of them and nothing else, spell the
/// document `doc`: the text was cut to its end, and its tokens are the
/// writing of the definitions of `doc`, one behind the other, of which
/// there is at least one.
pub open spec fn spelled_document(src: Source, doc: DocumentModel) -> bool {
    src.fault is None && doc.definitions.len() > 0 && spelled_definitions(
        src,
        0,
        doc.definitions,
        0,
    ) == Some(src.tokens.len() as int)
}

/// The scalar without its place and those of its directives.
pub open spec fn unplaced_scalar(t: ScalarTypeModel) -> ScalarTypeModel {
    ScalarTypeModel {
        position: crate::position::Pos::origin(),
        directives: unplaced_directives(t.directives),
        ..t
    }
}

/// The object without its place and those of its parts.
pub open spec fn unplaced_object(t: ObjectTypeModel) -> ObjectTypeModel {
    ObjectTypeModel {
        position: crate::position::Pos::origin(),
        directives: unplaced_directives(t.directives),
        fields: unplaced_fields(t.fields),
        ..t
    }
}

/// The interface without its place and those of its parts.
pub open spec fn unplaced_interface(t: InterfaceTypeModel) -> InterfaceTypeModel {
    InterfaceTypeModel {
        position: crate::position::Pos::origin(),
        directives: unplaced_directives(t.directives),
        fields: unplaced_fields(t.fields),
        ..t
    }
}

/// The union without its place and those of its directives.
pub open spec fn unplaced_union(t: UnionTypeModel) -> UnionTypeModel {
    UnionTypeModel {
        position: crate::position::Pos::origin(),
        directives: unplaced_directives(t.directives),
        ..t
    }
}

/// The enum value without its place and those of its directives.
pub open spec fn unplaced_enum_value(v: EnumValueModel) -> EnumValueModel {
    EnumValueModel {
        position: crate::position::Pos::origin(),
        directives: unplaced_directives(v.directives),
        ..v
    }
}

/// The enum without its place and those of its parts.
pub open spec fn unplaced_enum(t: EnumTypeModel) -> EnumTypeModel {
    EnumTypeModel {
        position: crate::position::Pos::origin(),
        directives: unplaced_directives(t.directives),
        values: t.values.map_values(|v: EnumValueModel| unplaced_enum_value(v)),
        ..t
    }
}

/// The input object without its place and those of its parts.
pub open spec fn unplaced_input_object(t: InputObjectTypeModel) -> InputObjectTypeModel {
    InputObjectTypeModel {
        position: crate::position::Pos::origin(),
        directives: unplaced_directives(t.directives),
        fields: unplaced_input_values(t.fields),
        ..t
    }
}

/// The definition of a type without its place and those of its parts.
pub open spec fn unplaced_type_definition(def: TypeDefinitionModel) -> TypeDefinitionModel {
    match def {
        TypeDefinitionModel::Scalar(t) => TypeDefinitionModel::Scalar(unplaced_scalar(t)),
        TypeDefinitionModel::Object(t) => TypeDefinitionModel::Object(unplaced_object(t)),
        TypeDefinitionModel::Interface(t) => TypeDefinitionModel::Interface(unplaced_interface(t)),
        TypeDefinitionModel::Union(t) => TypeDefinitionModel::Union(unplaced_union(t)),
        TypeDefinitionModel::Enum(t) => TypeDefinitionModel::Enum(unplaced_enum(t)),
        TypeDefinitionModel::InputObject(t) => TypeDefinitionModel::InputObject(
            unplaced_input_object(t),
        ),
    }
}

/// The extension of a type without its place and those of its parts.
pub open spec fn unplaced_type_extension(ext: TypeExtensionModel) -> TypeExtensionModel {
    match ext {
        TypeExtensionModel::Scalar(t) => TypeExtensionModel::Scalar(
            ScalarTypeExtensionModel {
                position: crate::position::Pos::origin(),
                directives: unplaced_directives(t.directives),
                ..t
            },
        ),
        TypeExtensionModel::Object(t) => TypeExtensionModel::Object(
            ObjectTypeExtensionModel {
                position: crate::position::Pos::origin(),
                directives: unplaced_directives(t.directives),
                fields: unplaced_fields(t.fields),
                ..t
            },
        ),
        TypeExtensionModel::Interface(t) => TypeExtensionModel::Interface(
            InterfaceTypeExtensionModel {
                position: crate::position::Pos::origin(),
                directives: unplaced_directives(t.directives),
                fields: unplaced_fields(t.fields),
                ..t
            },
        ),
        TypeExtensionModel::Union(t) => TypeExtensionModel::Union(
            UnionTypeExtensionModel {
                position: crate::position::Pos::origin(),
                directives: unplaced_directives(t.directives),
                ..t
            },
        ),
    }
}

/// The `schema` block without its place and those of its directives.
pub open spec fn unplaced_schema(x: SchemaDefinitionModel) -> SchemaDefinitionModel {
    SchemaDefinitionModel {
        position: crate::position::Pos::origin(),
        directives: unplaced_directives(x.directives),
        ..x
    }
}

/// The definition without its place and those of its parts.
pub open spec fn unplaced_definition(d: DefinitionModel) -> DefinitionModel {
    match d {
        DefinitionModel::SchemaDefinition(x) => DefinitionModel::SchemaDefinition(
            unplaced_schema(x),
        ),
        DefinitionModel::TypeDefinition(x) => DefinitionModel::TypeDefinition(
            unplaced_type_definition(x),
        ),
        DefinitionModel::TypeExtension(x) => DefinitionModel::TypeExtension(
            unplaced_type_extension(x),
        ),
    }
}

/// The definitions `list` without their places.
pub open spec fn unplaced_definitions(list: Seq<DefinitionModel>) -> Seq<DefinitionModel> {
    list.map_values(|d: DefinitionModel| unplaced_definition(d))
}

/// The document without any place: what it holds, wherever it was
/// written.
pub open spec fn unplaced_document(doc: DocumentModel) -> DocumentModel {
    DocumentModel { definitions: unplaced_definitions(doc.definitions) }
}

/// Whether what stands at index `j` lets a definition end before it:
/// nothing with which the definition could go on.
pub open spec fn ends_definition(src: Source, j: int) -> bool {
    &&& !at_punct(src, j, "@"@)
    &&& !at_punct(src, j, "("@)
    &&& !at_punct(src, j, "{"@)
    &&& !at_punct(src, j, "="@)
    &&& !at_punct(src, j, "|"@)
    &&& !at_punct(src, j, "&"@)
    &&& !at_ident(src, j, "implements"@)
}

/// Whether what stands at index `j` lets a field or an input value end
/// before it: none of `@`, `(`, `!` and `=`, with which the field or
/// input value could go on.
pub open spec fn ends_declaration(src: Source, j: int) -> bool {
    !at_punct(src, j, "@"@) && !at_punct(src, j, "("@) && !at_punct(src, j, "!"@) && !at_punct(
        src,
        j,
        "="@,
    )
}

} // verus!

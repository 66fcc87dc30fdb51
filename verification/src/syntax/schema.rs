//! The rules of the schema language.
//!
//! Every rule that builds a node records as the node's place the place of
//! the first token that the rule itself reads.
use vstd::prelude::*;
use crate::common::{DirectiveModel, TypeModel, ValueModel};
use crate::error::{with_item, ErrorItemModel, ErrorModel};
use crate::schema::ast::{
    described, DefinitionModel, DocumentModel, FieldModel, InputValueModel, InterfaceTypeExtensionModel,
    InterfaceTypeModel, ObjectTypeExtensionModel, ObjectTypeModel, ScalarTypeExtensionModel,
    ScalarTypeModel, SchemaDefinitionModel, TypeDefinitionModel, TypeExtensionModel,
    UnionTypeExtensionModel, UnionTypeModel,
};
use crate::syntax::common::{default_value, directives, parse_type, starts_string, string};
use crate::syntax::{
    at_end, at_ident, at_kind, at_punct, ident, name, place, punct, unexpected, Parsed,
};
use crate::tokenizer::{Kind, Source, TokenModel};

verus! {

/// What the operations of a `schema` block have bound so far, and what
/// was found wrong with them.
pub struct Bindings {
    pub query: Option<Seq<char>>,
    pub mutation: Option<Seq<char>>,
    pub subscription: Option<Seq<char>>,
    pub errors: Seq<ErrorItemModel>,
}

/// Nothing bound, nothing wrong.
pub open spec fn unbound() -> Bindings {
    Bindings { query: None, mutation: None, subscription: None, errors: Seq::empty() }
}

/// The bindings after the operation named by the token `operation` was
/// bound to `bound`. The first binding of a kind of operation stays:
/// a second one is reported and dropped. A name that is no kind of
/// operation is reported together with the three that are. Nothing is
/// reported twice.
pub open spec fn bind(state: Bindings, operation: TokenModel, bound: Seq<char>) -> Bindings {
    if operation.value == "query"@ {
        if state.query is Some {
            Bindings {
                errors: with_item(
                    state.errors,
                    ErrorItemModel::Unexpected("duplicate `query` operation"@),
                ),
                ..state
            }
        } else {
            Bindings { query: Some(bound), ..state }
        }
    } else if operation.value == "mutation"@ {
        if state.mutation is Some {
            Bindings {
                errors: with_item(
                    state.errors,
                    ErrorItemModel::Unexpected("duplicate `mutation` operation"@),
                ),
                ..state
            }
        } else {
            Bindings { mutation: Some(bound), ..state }
        }
    } else if operation.value == "subscription"@ {
        if state.subscription is Some {
            Bindings {
                errors: with_item(
                    state.errors,
                    ErrorItemModel::Unexpected("duplicate `subscription` operation"@),
                ),
                ..state
            }
        } else {
            Bindings { subscription: Some(bound), ..state }
        }
    } else {
        Bindings {
            errors: with_item(
                with_item(
                    with_item(
                        with_item(
                            state.errors,
                            ErrorItemModel::UnexpectedToken {
                                kind: operation.kind,
                                value: operation.value,
                            },
                        ),
                        ErrorItemModel::Expected("query"@),
                    ),
                    ErrorItemModel::Expected("mutation"@),
                ),
                ErrorItemModel::Expected("subscription"@),
            ),
            ..state
        }
    }
}

/// The rest of a `schema` block that began at index `start` with the
/// directives `list`, read from index `i` on with the bindings `state`:
/// pairs of a name, a colon and a name, up to the closing brace. If
/// anything was found wrong with the operations the block is refused as a
/// whole, with everything that was found, at the place where it began.
pub open spec fn operations(
    src: Source,
    start: int,
    list: Seq<DirectiveModel>,
    i: int,
    state: Bindings,
) -> Parsed<SchemaDefinitionModel>
    decreases src.tokens.len() - i,
{
    if at_kind(src, i, Kind::Name) {
        match punct(src, i + 1, ":"@) {
            Parsed::Done { value: _, next: then } => match name(src, then) {
                Parsed::Done { value: bound, next } => operations(
                    src,
                    start,
                    list,
                    next,
                    bind(state, src.tokens[i], bound),
                ),
                Parsed::Failed { error, at } => Parsed::Failed { error, at },
            },
            Parsed::Failed { error, at } => Parsed::Failed { error, at },
        }
    } else {
        match punct(src, i, "}"@) {
            Parsed::Done { value: _, next } => if state.errors.len() == 0 {
                Parsed::Done {
                    value: SchemaDefinitionModel {
                        position: place(src, start),
                        directives: list,
                        query: state.query,
                        mutation: state.mutation,
                        subscription: state.subscription,
                    },
                    next,
                }
            } else {
                Parsed::Failed {
                    error: ErrorModel { position: place(src, start), errors: state.errors },
                    at: next,
                }
            },
            Parsed::Failed { error, at } => Parsed::Failed { error, at },
        }
    }
}

/// A `schema` block: `schema`, and in braces first the directives and
/// then the operations.
pub open spec fn schema(src: Source, i: int) -> Parsed<SchemaDefinitionModel> {
    match ident(src, i, "schema"@) {
        Parsed::Done { value: _, next: a } => match punct(src, a, "{"@) {
            Parsed::Done { value: _, next: b } => match directives(src, b) {
                Parsed::Done { value: list, next: c } => operations(src, i, list, c, unbound()),
                Parsed::Failed { error, at } => Parsed::Failed { error, at },
            },
            Parsed::Failed { error, at } => Parsed::Failed { error, at },
        },
        Parsed::Failed { error, at } => Parsed::Failed { error, at },
    }
}

/// The diagnostic for an extension that began at index `i` and adds
/// nothing.
pub open spec fn vacuous(src: Source, i: int, message: Seq<char>) -> ErrorModel {
    ErrorModel { position: place(src, i), errors: seq![ErrorItemModel::Expected(message)] }
}

/// The head that scalars, objects, interfaces and unions share: the
/// keyword `word`, then a name.
pub open spec fn head(src: Source, i: int, word: Seq<char>) -> Parsed<Seq<char>> {
    match ident(src, i, word) {
        Parsed::Done { value: _, next } => name(src, next),
        Parsed::Failed { error, at } => Parsed::Failed { error, at },
    }
}

/// A scalar type: `scalar`, a name and directives.
pub open spec fn scalar_type(src: Source, i: int) -> Parsed<ScalarTypeModel> {
    match head(src, i, "scalar"@) {
        Parsed::Done { value: n, next: a } => match directives(src, a) {
            Parsed::Done { value: list, next } => Parsed::Done {
                value: ScalarTypeModel {
                    position: place(src, i),
                    description: None,
                    name: n,
                    directives: list,
                },
                next,
            },
            Parsed::Failed { error, at } => Parsed::Failed { error, at },
        },
        Parsed::Failed { error, at } => Parsed::Failed { error, at },
    }
}

/// An extension of a scalar type: as a scalar type, with at least one
/// directive.
pub open spec fn scalar_type_extension(src: Source, i: int) -> Parsed<ScalarTypeExtensionModel> {
    match scalar_type(src, i) {
        Parsed::Done { value: t, next } => if t.directives.len() == 0 {
            Parsed::Failed {
                error: vacuous(
                    src,
                    i,
                    "Scalar type extension should contain at least one directive."@,
                ),
                at: next,
            }
        } else {
            Parsed::Done {
                value: ScalarTypeExtensionModel {
                    position: t.position,
                    name: t.name,
                    directives: t.directives,
                },
                next,
            }
        },
        Parsed::Failed { error, at } => Parsed::Failed { error, at },
    }
}

/// Names with `separator` between them, at least one name, behind the
/// names `found`.
pub open spec fn names(src: Source, i: int, separator: Seq<char>, found: Seq<Seq<char>>) -> Parsed<
    Seq<Seq<char>>,
>
    decreases src.tokens.len() - i,
{
    match name(src, i) {
        Parsed::Done { value: n, next } => if at_punct(src, next, separator) {
            names(src, next + 1, separator, found.push(n))
        } else {
            Parsed::Done { value: found.push(n), next }
        },
        Parsed::Failed { error, at } => Parsed::Failed { error, at },
    }
}

/// The interfaces that an object type implements: nothing, or
/// `implements`, an optional `&`, and names with `&` between them.
pub open spec fn implements_interfaces(src: Source, i: int) -> Parsed<Seq<Seq<char>>> {
    if at_ident(src, i, "implements"@) {
        if at_punct(src, i + 1, "&"@) {
            names(src, i + 2, "&"@, Seq::empty())
        } else {
            names(src, i + 1, "&"@, Seq::empty())
        }
    } else {
        Parsed::Done { value: Seq::empty(), next: i }
    }
}

/// The description in front of a field or a type, if one is there.
pub open spec fn description(src: Source, i: int) -> Parsed<Option<Seq<char>>> {
    if starts_string(src, i) {
        match string(src, i) {
            Parsed::Done { value: text, next } => Parsed::Done { value: Some(text), next },
            Parsed::Failed { error, at } => Parsed::Failed { error, at },
        }
    } else {
        Parsed::Done { value: None, next: i }
    }
}

/// The default of an input value, if one is there: `=` and a constant
/// value.
pub open spec fn default_clause(src: Source, i: int) -> Parsed<Option<ValueModel>> {
    if at_punct(src, i, "="@) {
        match default_value(src, i + 1) {
            Parsed::Done { value: v, next } => Parsed::Done { value: Some(v), next },
            Parsed::Failed { error, at } => Parsed::Failed { error, at },
        }
    } else {
        Parsed::Done { value: None, next: i }
    }
}

/// What every typed declaration begins with: an optional description, a
/// name.
pub open spec fn declared(src: Source, i: int) -> Parsed<(Option<Seq<char>>, Seq<char>)> {
    match description(src, i) {
        Parsed::Done { value: text, next: a } => match name(src, a) {
            Parsed::Done { value: n, next } => Parsed::Done { value: (text, n), next },
            Parsed::Failed { error, at } => Parsed::Failed { error, at },
        },
        Parsed::Failed { error, at } => Parsed::Failed { error, at },
    }
}

/// What every typed declaration ends with: a colon and a type reference.
pub open spec fn typed(src: Source, i: int) -> Parsed<TypeModel> {
    match punct(src, i, ":"@) {
        Parsed::Done { value: _, next } => parse_type(src, next),
        Parsed::Failed { error, at } => Parsed::Failed { error, at },
    }
}

/// An input value: an optional description, a name, a colon, a type
/// reference, an optional default and directives.
pub open spec fn input_value(src: Source, i: int) -> Parsed<InputValueModel> {
    match declared(src, i) {
        Parsed::Done { value: front, next: a } => match typed(src, a) {
            Parsed::Done { value: t, next: b } => match default_clause(src, b) {
                Parsed::Done { value: v, next: c } => match directives(src, c) {
                    Parsed::Done { value: list, next } => Parsed::Done {
                        value: InputValueModel {
                            position: place(src, i),
                            description: front.0,
                            name: front.1,
                            value_type: t,
                            default_value: v,
                            directives: list,
                        },
                        next,
                    },
                    Parsed::Failed { error, at } => Parsed::Failed { error, at },
                },
                Parsed::Failed { error, at } => Parsed::Failed { error, at },
            },
            Parsed::Failed { error, at } => Parsed::Failed { error, at },
        },
        Parsed::Failed { error, at } => Parsed::Failed { error, at },
    }
}

/// Whether a field or an input value can begin with the token at index
/// `i`.
pub open spec fn starts_declaration(src: Source, i: int) -> bool {
    starts_string(src, i) || at_kind(src, i, Kind::Name)
}

/// The rest of an argument list whose input values so far are `found`:
/// input values up to the closing parenthesis, at least one in all.
pub open spec fn input_values(src: Source, i: int, found: Seq<InputValueModel>) -> Parsed<
    Seq<InputValueModel>,
>
    decreases src.tokens.len() - i,
{
    if found.len() == 0 || starts_declaration(src, i) {
        match input_value(src, i) {
            Parsed::Done { value: one, next } => if i < next <= src.tokens.len() {
                input_values(src, next, found.push(one))
            } else {
                Parsed::Failed { error: unexpected(src, i, seq![")"@]), at: i }
            },
            Parsed::Failed { error, at } => Parsed::Failed { error, at },
        }
    } else {
        match punct(src, i, ")"@) {
            Parsed::Done { value: _, next } => Parsed::Done { value: found, next },
            Parsed::Failed { error, at } => Parsed::Failed { error, at },
        }
    }
}

/// The arguments of a field: nothing, or one or more input values in
/// parentheses.
pub open spec fn arguments_definition(src: Source, i: int) -> Parsed<Seq<InputValueModel>> {
    if at_punct(src, i, "("@) {
        input_values(src, i + 1, Seq::empty())
    } else {
        Parsed::Done { value: Seq::empty(), next: i }
    }
}

/// A field: an optional description, a name, arguments, a colon, a type
/// reference and directives.
pub open spec fn field(src: Source, i: int) -> Parsed<FieldModel> {
    match declared(src, i) {
        Parsed::Done { value: front, next: a } => match arguments_definition(src, a) {
            Parsed::Done { value: inputs, next: b } => match typed(src, b) {
                Parsed::Done { value: t, next: c } => match directives(src, c) {
                    Parsed::Done { value: list, next } => Parsed::Done {
                        value: FieldModel {
                            position: place(src, i),
                            description: front.0,
                            name: front.1,
                            arguments: inputs,
                            field_type: t,
                            directives: list,
                        },
                        next,
                    },
                    Parsed::Failed { error, at } => Parsed::Failed { error, at },
                },
                Parsed::Failed { error, at } => Parsed::Failed { error, at },
            },
            Parsed::Failed { error, at } => Parsed::Failed { error, at },
        },
        Parsed::Failed { error, at } => Parsed::Failed { error, at },
    }
}

/// The rest of a block of fields whose fields so far are `found`: fields
/// up to the closing brace, at least one in all.
pub open spec fn more_fields(src: Source, i: int, found: Seq<FieldModel>) -> Parsed<
    Seq<FieldModel>,
>
    decreases src.tokens.len() - i,
{
    if found.len() == 0 || starts_declaration(src, i) {
        match field(src, i) {
            Parsed::Done { value: one, next } => if i < next <= src.tokens.len() {
                more_fields(src, next, found.push(one))
            } else {
                Parsed::Failed { error: unexpected(src, i, seq!["}"@]), at: i }
            },
            Parsed::Failed { error, at } => Parsed::Failed { error, at },
        }
    } else {
        match punct(src, i, "}"@) {
            Parsed::Done { value: _, next } => Parsed::Done { value: found, next },
            Parsed::Failed { error, at } => Parsed::Failed { error, at },
        }
    }
}

/// The fields of an object or an interface: nothing, or one or more
/// fields in braces.
pub open spec fn fields(src: Source, i: int) -> Parsed<Seq<FieldModel>> {
    if at_punct(src, i, "{"@) {
        more_fields(src, i + 1, Seq::empty())
    } else {
        Parsed::Done { value: Seq::empty(), next: i }
    }
}

/// An object type: `type`, a name, the interfaces it implements,
/// directives and fields.
pub open spec fn object_type(src: Source, i: int) -> Parsed<ObjectTypeModel> {
    match head(src, i, "type"@) {
        Parsed::Done { value: n, next: a } => match implements_interfaces(src, a) {
            Parsed::Done { value: interfaces, next: b } => match directives(src, b) {
                Parsed::Done { value: list, next: c } => match fields(src, c) {
                    Parsed::Done { value: block, next } => Parsed::Done {
                        value: ObjectTypeModel {
                            position: place(src, i),
                            description: None,
                            name: n,
                            implements_interfaces: interfaces,
                            directives: list,
                            fields: block,
                        },
                        next,
                    },
                    Parsed::Failed { error, at } => Parsed::Failed { error, at },
                },
                Parsed::Failed { error, at } => Parsed::Failed { error, at },
            },
            Parsed::Failed { error, at } => Parsed::Failed { error, at },
        },
        Parsed::Failed { error, at } => Parsed::Failed { error, at },
    }
}

/// An extension of an object type: as an object type, with at least one
/// interface, directive or field.
pub open spec fn object_type_extension(src: Source, i: int) -> Parsed<ObjectTypeExtensionModel> {
    match object_type(src, i) {
        Parsed::Done { value: t, next } => if t.implements_interfaces.len() == 0
            && t.directives.len() == 0 && t.fields.len() == 0 {
            Parsed::Failed {
                error: vacuous(
                    src,
                    i,
                    "Object type extension should contain at least one interface, directive or field."@,
                ),
                at: next,
            }
        } else {
            Parsed::Done {
                value: ObjectTypeExtensionModel {
                    position: t.position,
                    name: t.name,
                    implements_interfaces: t.implements_interfaces,
                    directives: t.directives,
                    fields: t.fields,
                },
                next,
            }
        },
        Parsed::Failed { error, at } => Parsed::Failed { error, at },
    }
}

/// An interface type: `interface`, a name, directives and fields.
pub open spec fn interface_type(src: Source, i: int) -> Parsed<InterfaceTypeModel> {
    match head(src, i, "interface"@) {
        Parsed::Done { value: n, next: a } => match directives(src, a) {
            Parsed::Done { value: list, next: b } => match fields(src, b) {
                Parsed::Done { value: block, next } => Parsed::Done {
                    value: InterfaceTypeModel {
                        position: place(src, i),
                        description: None,
                        name: n,
                        directives: list,
                        fields: block,
                    },
                    next,
                },
                Parsed::Failed { error, at } => Parsed::Failed { error, at },
            },
            Parsed::Failed { error, at } => Parsed::Failed { error, at },
        },
        Parsed::Failed { error, at } => Parsed::Failed { error, at },
    }
}

/// An extension of an interface type: as an interface type, with at
/// least one directive or field.
pub open spec fn interface_type_extension(src: Source, i: int) -> Parsed<
    InterfaceTypeExtensionModel,
> {
    match interface_type(src, i) {
        Parsed::Done { value: t, next } => if t.directives.len() == 0 && t.fields.len() == 0 {
            Parsed::Failed {
                error: vacuous(
                    src,
                    i,
                    "Interface type extension should contain at least one directive or field."@,
                ),
                at: next,
            }
        } else {
            Parsed::Done {
                value: InterfaceTypeExtensionModel {
                    position: t.position,
                    name: t.name,
                    directives: t.directives,
                    fields: t.fields,
                },
                next,
            }
        },
        Parsed::Failed { error, at } => Parsed::Failed { error, at },
    }
}

/// The members of a union: an optional `|`, and names with `|` between
/// them.
pub open spec fn union_members(src: Source, i: int) -> Parsed<Seq<Seq<char>>> {
    if at_punct(src, i, "|"@) {
        names(src, i + 1, "|"@, Seq::empty())
    } else {
        names(src, i, "|"@, Seq::empty())
    }
}

/// The member clause of a union, if one is there: `=` and the members.
pub open spec fn member_clause(src: Source, i: int) -> Parsed<Option<Seq<Seq<char>>>> {
    if at_punct(src, i, "="@) {
        match union_members(src, i + 1) {
            Parsed::Done { value: members, next } => Parsed::Done { value: Some(members), next },
            Parsed::Failed { error, at } => Parsed::Failed { error, at },
        }
    } else {
        Parsed::Done { value: None, next: i }
    }
}

/// What a union and its extension share: `union`, a name, directives and
/// an optional member clause. The value holds the name, the directives
/// and the clause.
pub open spec fn union_parts(src: Source, i: int) -> Parsed<
    (Seq<char>, Seq<DirectiveModel>, Option<Seq<Seq<char>>>),
> {
    match head(src, i, "union"@) {
        Parsed::Done { value: n, next: a } => match directives(src, a) {
            Parsed::Done { value: list, next: b } => match member_clause(src, b) {
                Parsed::Done { value: clause, next } => Parsed::Done {
                    value: (n, list, clause),
                    next,
                },
                Parsed::Failed { error, at } => Parsed::Failed { error, at },
            },
            Parsed::Failed { error, at } => Parsed::Failed { error, at },
        },
        Parsed::Failed { error, at } => Parsed::Failed { error, at },
    }
}

/// The members that a member clause gives: none where there is no
/// clause.
pub open spec fn members_of(clause: Option<Seq<Seq<char>>>) -> Seq<Seq<char>> {
    match clause {
        Some(members) => members,
        None => Seq::empty(),
    }
}

/// A union type: `union`, a name, directives and an optional member
/// clause.
pub open spec fn union_type(src: Source, i: int) -> Parsed<UnionTypeModel> {
    match union_parts(src, i) {
        Parsed::Done { value: parts, next } => Parsed::Done {
            value: UnionTypeModel {
                position: place(src, i),
                description: None,
                name: parts.0,
                directives: parts.1,
                types: members_of(parts.2),
            },
            next,
        },
        Parsed::Failed { error, at } => Parsed::Failed { error, at },
    }
}

/// An extension of a union type: as a union type, with at least one
/// directive or a member clause.
pub open spec fn union_type_extension(src: Source, i: int) -> Parsed<UnionTypeExtensionModel> {
    match union_parts(src, i) {
        Parsed::Done { value: parts, next } => if parts.1.len() == 0 && parts.2 is None {
            Parsed::Failed {
                error: vacuous(
                    src,
                    i,
                    "Union type extension should contain at least one directive or type."@,
                ),
                at: next,
            }
        } else {
            Parsed::Done {
                value: UnionTypeExtensionModel {
                    position: place(src, i),
                    name: parts.0,
                    directives: parts.1,
                    types: members_of(parts.2),
                },
                next,
            }
        },
        Parsed::Failed { error, at } => Parsed::Failed { error, at },
    }
}

/// What a diagnostic expects where the keyword of a kind of type must
/// stand.
pub open spec fn type_labels() -> Seq<Seq<char>> {
    seq!["scalar"@, "type"@, "interface"@, "union"@]
}

/// The definition of a type, without its description: the keyword at
/// index `i` chooses among scalar, object, interface and union.
pub open spec fn plain_type_definition(src: Source, i: int) -> Parsed<TypeDefinitionModel> {
    if at_ident(src, i, "scalar"@) {
        match scalar_type(src, i) {
            Parsed::Done { value: t, next } => Parsed::Done {
                value: TypeDefinitionModel::Scalar(t),
                next,
            },
            Parsed::Failed { error, at } => Parsed::Failed { error, at },
        }
    } else if at_ident(src, i, "type"@) {
        match object_type(src, i) {
            Parsed::Done { value: t, next } => Parsed::Done {
                value: TypeDefinitionModel::Object(t),
                next,
            },
            Parsed::Failed { error, at } => Parsed::Failed { error, at },
        }
    } else if at_ident(src, i, "interface"@) {
        match interface_type(src, i) {
            Parsed::Done { value: t, next } => Parsed::Done {
                value: TypeDefinitionModel::Interface(t),
                next,
            },
            Parsed::Failed { error, at } => Parsed::Failed { error, at },
        }
    } else if at_ident(src, i, "union"@) {
        match union_type(src, i) {
            Parsed::Done { value: t, next } => Parsed::Done {
                value: TypeDefinitionModel::Union(t),
                next,
            },
            Parsed::Failed { error, at } => Parsed::Failed { error, at },
        }
    } else {
        Parsed::Failed { error: unexpected(src, i, type_labels()), at: i }
    }
}

/// The definition of a type: an optional description, then a scalar, an
/// object, an interface or a union, which is given the description.
pub open spec fn type_definition(src: Source, i: int) -> Parsed<TypeDefinitionModel> {
    match description(src, i) {
        Parsed::Done { value: text, next: a } => match plain_type_definition(src, a) {
            Parsed::Done { value: def, next } => Parsed::Done {
                value: described(def, text),
                next,
            },
            Parsed::Failed { error, at } => Parsed::Failed { error, at },
        },
        Parsed::Failed { error, at } => Parsed::Failed { error, at },
    }
}

/// The extension of a type: `extend`, then the extension of a scalar, an
/// object, an interface or a union, chosen by the keyword.
pub open spec fn type_extension(src: Source, i: int) -> Parsed<TypeExtensionModel> {
    match ident(src, i, "extend"@) {
        Parsed::Done { value: _, next: a } => if at_ident(src, a, "scalar"@) {
            match scalar_type_extension(src, a) {
                Parsed::Done { value: t, next } => Parsed::Done {
                    value: TypeExtensionModel::Scalar(t),
                    next,
                },
                Parsed::Failed { error, at } => Parsed::Failed { error, at },
            }
        } else if at_ident(src, a, "type"@) {
            match object_type_extension(src, a) {
                Parsed::Done { value: t, next } => Parsed::Done {
                    value: TypeExtensionModel::Object(t),
                    next,
                },
                Parsed::Failed { error, at } => Parsed::Failed { error, at },
            }
        } else if at_ident(src, a, "interface"@) {
            match interface_type_extension(src, a) {
                Parsed::Done { value: t, next } => Parsed::Done {
                    value: TypeExtensionModel::Interface(t),
                    next,
                },
                Parsed::Failed { error, at } => Parsed::Failed { error, at },
            }
        } else if at_ident(src, a, "union"@) {
            match union_type_extension(src, a) {
                Parsed::Done { value: t, next } => Parsed::Done {
                    value: TypeExtensionModel::Union(t),
                    next,
                },
                Parsed::Failed { error, at } => Parsed::Failed { error, at },
            }
        } else {
            Parsed::Failed { error: unexpected(src, a, type_labels()), at: a }
        },
        Parsed::Failed { error, at } => Parsed::Failed { error, at },
    }
}

/// Whether the definition of a type can begin with the token at index
/// `i`.
pub open spec fn starts_type_definition(src: Source, i: int) -> bool {
    starts_string(src, i) || at_ident(src, i, "scalar"@) || at_ident(src, i, "type"@) || at_ident(
        src,
        i,
        "interface"@,
    ) || at_ident(src, i, "union"@)
}

/// Whether a definition can begin with the token at index `i`.
pub open spec fn starts_definition(src: Source, i: int) -> bool {
    at_ident(src, i, "schema"@) || at_ident(src, i, "extend"@) || starts_type_definition(src, i)
}

/// What a diagnostic expects where a definition must begin.
pub open spec fn definition_labels() -> Seq<Seq<char>> {
    seq!["schema"@, "scalar"@, "type"@, "interface"@, "union"@, "extend"@]
}

/// One definition: a `schema` block, the definition of a type or the
/// extension of one.
pub open spec fn definition(src: Source, i: int) -> Parsed<DefinitionModel> {
    if at_ident(src, i, "schema"@) {
        match schema(src, i) {
            Parsed::Done { value: d, next } => Parsed::Done {
                value: DefinitionModel::SchemaDefinition(d),
                next,
            },
            Parsed::Failed { error, at } => Parsed::Failed { error, at },
        }
    } else if at_ident(src, i, "extend"@) {
        match type_extension(src, i) {
            Parsed::Done { value: d, next } => Parsed::Done {
                value: DefinitionModel::TypeExtension(d),
                next,
            },
            Parsed::Failed { error, at } => Parsed::Failed { error, at },
        }
    } else if starts_type_definition(src, i) {
        match type_definition(src, i) {
            Parsed::Done { value: d, next } => Parsed::Done {
                value: DefinitionModel::TypeDefinition(d),
                next,
            },
            Parsed::Failed { error, at } => Parsed::Failed { error, at },
        }
    } else {
        Parsed::Failed { error: unexpected(src, i, definition_labels()), at: i }
    }
}

/// The rest of a document whose definitions so far are `found`:
/// definitions up to the end of the text, at least one in all. Whatever
/// else stands behind a definition is refused.
pub open spec fn definitions(src: Source, i: int, found: Seq<DefinitionModel>) -> Parsed<
    DocumentModel,
>
    decreases src.tokens.len() - i,
{
    if found.len() > 0 && at_end(src, i) {
        Parsed::Done { value: DocumentModel { definitions: found }, next: i }
    } else if found.len() == 0 || starts_definition(src, i) {
        match definition(src, i) {
            Parsed::Done { value: one, next } => if i < next <= src.tokens.len() {
                definitions(src, next, found.push(one))
            } else {
                Parsed::Failed { error: unexpected(src, i, seq!["end of input"@]), at: i }
            },
            Parsed::Failed { error, at } => Parsed::Failed { error, at },
        }
    } else {
        Parsed::Failed { error: unexpected(src, i, seq!["end of input"@]), at: i }
    }
}

/// A whole document: one or more definitions, and then the end of the
/// text.
pub open spec fn document(src: Source) -> Parsed<DocumentModel> {
    definitions(src, 0, Seq::empty())
}

} // verus!

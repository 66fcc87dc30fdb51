//! The executable rules of the schema language.
//!
//! Each rule reads the tokens under the cursor of a [`TokenStream`]. Where
//! it fits it answers the node it read and leaves the cursor behind the
//! last token it took; where it does not, it answers a diagnostic and
//! leaves the cursor at the token at which it gave up. What it answers is
//! in every case what the rule of the same name in
//! [`crate::syntax::schema`] says.
use vstd::prelude::*;
use vstd::string::StringExecFns;
use crate::common::{
    default_value, directives, parse_type, starts_string, string, Directive, Name, Value,
};
use crate::error::{ErrorItem, ErrorItemModel, ErrorModel, ParseError};
use crate::helpers::{at_end, at_ident, at_kind, at_punct, ident, name, punct, text_is};
use crate::lexical::lex;
use crate::position::Pos;
use crate::schema::ast::{
    Definition, DefinitionModel, Document, Field, FieldModel, InputValue, InputValueModel,
    InterfaceType, InterfaceTypeExtension, NamedType, ObjectType, ObjectTypeExtension, ScalarType,
    ScalarTypeExtension, SchemaDefinition, TypeDefinition, TypeExtension, UnionType,
    UnionTypeExtension,
};
use crate::schema::error::SchemaParseError;
use crate::syntax;
use crate::syntax::schema::Bindings;
use crate::syntax::{advanced, not_behind, outcome, place, Parsed};
use crate::tokenizer::{lemma_push_deep_view, Kind, TokenStream};

verus! {

/// The diagnostic for an extension that began at `position` and adds
/// nothing.
fn vacuous(position: Pos, message: &str) -> (r: ParseError)
    ensures
        r.deep_view() == (ErrorModel {
            position,
            errors: seq![ErrorItemModel::Expected(message@)],
        }),
{
    let mut error = ParseError::empty(position);
    error.push(ErrorItem::Expected(String::from_str(message)));
    assert(error.errors.deep_view() =~= seq![ErrorItemModel::Expected(message@)]);
    error
}

/// Takes the keyword `word` and a name, and gives the name.
fn head(input: &mut TokenStream, word: &str) -> (r: Result<Name, ParseError>)
    ensures
        outcome(
            *old(input),
            *final(input),
            r,
            syntax::schema::head(old(input)@, old(input).cursor as int, word@),
        ),
        r is Ok ==> advanced(*old(input), *final(input)),
{
    ident(input, word)?;
    name(input)
}

/// Takes a `schema` block: `schema`, and in braces the directives and
/// then the operations. Every kind of operation is bound once at most:
/// the first binding stays, and whatever is found wrong with the
/// operations is gathered and refused together, each entry once.
pub fn schema(input: &mut TokenStream) -> (r: Result<SchemaDefinition, ParseError>)
    ensures
        outcome(
            *old(input),
            *final(input),
            r,
            syntax::schema::schema(old(input)@, old(input).cursor as int),
        ),
        r is Ok ==> advanced(*old(input), *final(input)),
        r is Ok ==> r->Ok_0.position == place(old(input)@, old(input).cursor as int),
{
    let position = input.position();
    ident(input, "schema")?;
    punct(input, "{")?;
    let list = directives(input)?;
    let mut query: Option<NamedType> = None;
    let mut mutation: Option<NamedType> = None;
    let mut subscription: Option<NamedType> = None;
    let mut err = ParseError::empty(position);
    while at_kind(input, Kind::Name)
        invariant
            input.tokens == old(input).tokens,
            input.end == old(input).end,
            input.fault == old(input).fault,
            advanced(*old(input), *input),
            err.position == position,
            position == place(old(input)@, old(input).cursor as int),
            syntax::schema::schema(old(input)@, old(input).cursor as int)
                == syntax::schema::operations(
                input@,
                old(input).cursor as int,
                list.deep_view(),
                input.cursor as int,
                Bindings {
                    query: query.deep_view(),
                    mutation: mutation.deep_view(),
                    subscription: subscription.deep_view(),
                    errors: err.errors.deep_view(),
                },
            ),
        decreases input.tokens.len() - input.cursor,
    {
        let k = input.cursor;
        input.cursor = input.cursor + 1;
        punct(input, ":")?;
        let bound = name(input)?;
        let word = input.tokens[k].value.as_str();
        if text_is(word, "query") {
            if query.is_some() {
                err.add_error(ErrorItem::Unexpected(String::from_str("duplicate `query` operation")));
            } else {
                query = Some(bound);
            }
        } else if text_is(word, "mutation") {
            if mutation.is_some() {
                err.add_error(
                    ErrorItem::Unexpected(String::from_str("duplicate `mutation` operation")),
                );
            } else {
                mutation = Some(bound);
            }
        } else if text_is(word, "subscription") {
            if subscription.is_some() {
                err.add_error(
                    ErrorItem::Unexpected(String::from_str("duplicate `subscription` operation")),
                );
            } else {
                subscription = Some(bound);
            }
        } else {
            err.add_error(
                ErrorItem::UnexpectedToken {
                    kind: input.tokens[k].kind,
                    value: input.tokens[k].value.clone(),
                },
            );
            err.add_error(ErrorItem::Expected(String::from_str("query")));
            err.add_error(ErrorItem::Expected(String::from_str("mutation")));
            err.add_error(ErrorItem::Expected(String::from_str("subscription")));
        }
    }
    punct(input, "}")?;
    if err.errors.len() > 0 {
        return Err(err);
    }
    Ok(SchemaDefinition { position, directives: list, query, mutation, subscription })
}

/// Takes a scalar type.
pub fn scalar_type(input: &mut TokenStream) -> (r: Result<ScalarType, ParseError>)
    ensures
        outcome(
            *old(input),
            *final(input),
            r,
            syntax::schema::scalar_type(old(input)@, old(input).cursor as int),
        ),
        r is Ok ==> advanced(*old(input), *final(input)),
        r is Ok ==> r->Ok_0.position == place(old(input)@, old(input).cursor as int),
{
    let position = input.position();
    let n = head(input, "scalar")?;
    let list = directives(input)?;
    Ok(ScalarType { position, description: None, name: n, directives: list })
}

/// Takes the extension of a scalar type, what stands behind `extend`.
pub fn scalar_type_extension(input: &mut TokenStream) -> (r: Result<
    ScalarTypeExtension,
    ParseError,
>)
    ensures
        outcome(
            *old(input),
            *final(input),
            r,
            syntax::schema::scalar_type_extension(old(input)@, old(input).cursor as int),
        ),
        r is Ok ==> advanced(*old(input), *final(input)),
        r is Ok ==> r->Ok_0.position == place(old(input)@, old(input).cursor as int),
        r is Ok ==> r->Ok_0.directives.len() > 0,
{
    let t = scalar_type(input)?;
    if t.directives.len() == 0 {
        return Err(
            vacuous(t.position, "Scalar type extension should contain at least one directive."),
        );
    }
    Ok(ScalarTypeExtension { position: t.position, name: t.name, directives: t.directives })
}

/// Takes names with `separator` between them, at least one name.
fn names(input: &mut TokenStream, separator: &str) -> (r: Result<Vec<NamedType>, ParseError>)
    ensures
        outcome(
            *old(input),
            *final(input),
            r,
            syntax::schema::names(
                old(input)@,
                old(input).cursor as int,
                separator@,
                Seq::empty(),
            ),
        ),
        r is Ok ==> advanced(*old(input), *final(input)),
        r is Ok ==> r->Ok_0.len() > 0,
{
    let mut found: Vec<NamedType> = Vec::new();
    assert(found.deep_view() =~= Seq::<Seq<char>>::empty());
    loop
        invariant
            input.tokens == old(input).tokens,
            input.end == old(input).end,
            input.fault == old(input).fault,
            not_behind(*old(input), *input),
            syntax::schema::names(old(input)@, old(input).cursor as int, separator@, Seq::empty())
                == syntax::schema::names(
                input@,
                input.cursor as int,
                separator@,
                found.deep_view(),
            ),
        decreases input.tokens.len() - input.cursor,
    {
        let n = name(input)?;
        let ghost before = found;
        found.push(n);
        proof {
            lemma_push_deep_view(before, found, n);
        }
        if at_punct(input, separator) {
            input.cursor = input.cursor + 1;
        } else {
            return Ok(found);
        }
    }
}

/// Takes the interfaces that an object type implements, if any stand
/// under the cursor.
pub fn implements_interfaces(input: &mut TokenStream) -> (r: Result<Vec<NamedType>, ParseError>)
    ensures
        outcome(
            *old(input),
            *final(input),
            r,
            syntax::schema::implements_interfaces(old(input)@, old(input).cursor as int),
        ),
        r is Ok ==> not_behind(*old(input), *final(input)),
{
    if at_ident(input, "implements") {
        input.cursor = input.cursor + 1;
        if at_punct(input, "&") {
            input.cursor = input.cursor + 1;
        }
        names(input, "&")
    } else {
        let found: Vec<NamedType> = Vec::new();
        assert(found.deep_view() =~= Seq::<Seq<char>>::empty());
        Ok(found)
    }
}

/// Takes the description in front of a field or a type, if one is there.
fn description(input: &mut TokenStream) -> (r: Result<Option<String>, ParseError>)
    ensures
        outcome(
            *old(input),
            *final(input),
            r,
            syntax::schema::description(old(input)@, old(input).cursor as int),
        ),
        r is Ok ==> not_behind(*old(input), *final(input)),
{
    if starts_string(input) {
        let text = string(input)?;
        Ok(Some(text))
    } else {
        Ok(None)
    }
}

/// Takes the default of an input value, if one is there.
fn default_clause(input: &mut TokenStream) -> (r: Result<Option<Value>, ParseError>)
    ensures
        outcome(
            *old(input),
            *final(input),
            r,
            syntax::schema::default_clause(old(input)@, old(input).cursor as int),
        ),
        r is Ok ==> not_behind(*old(input), *final(input)),
{
    if at_punct(input, "=") {
        input.cursor = input.cursor + 1;
        let v = default_value(input)?;
        Ok(Some(v))
    } else {
        Ok(None)
    }
}

/// Whether a field or an input value can begin with the token under the
/// cursor.
fn starts_declaration(input: &TokenStream) -> (r: bool)
    ensures
        r == syntax::schema::starts_declaration(input@, input.cursor as int),
{
    starts_string(input) || at_kind(input, Kind::Name)
}

/// Takes an input value.
pub fn input_value(input: &mut TokenStream) -> (r: Result<InputValue, ParseError>)
    ensures
        outcome(
            *old(input),
            *final(input),
            r,
            syntax::schema::input_value(old(input)@, old(input).cursor as int),
        ),
        r is Ok ==> advanced(*old(input), *final(input)),
        r is Ok ==> r->Ok_0.position == place(old(input)@, old(input).cursor as int),
{
    let position = input.position();
    let text = description(input)?;
    let n = name(input)?;
    punct(input, ":")?;
    let t = parse_type(input)?;
    let v = default_clause(input)?;
    let list = directives(input)?;
    Ok(
        InputValue {
            position,
            description: text,
            name: n,
            value_type: t,
            default_value: v,
            directives: list,
        },
    )
}

/// Takes the arguments of a field, if any stand under the cursor.
pub fn arguments_definition(input: &mut TokenStream) -> (r: Result<Vec<InputValue>, ParseError>)
    ensures
        outcome(
            *old(input),
            *final(input),
            r,
            syntax::schema::arguments_definition(old(input)@, old(input).cursor as int),
        ),
        r is Ok ==> not_behind(*old(input), *final(input)),
{
    let mut found: Vec<InputValue> = Vec::new();
    assert(found.deep_view() =~= Seq::<InputValueModel>::empty());
    if !at_punct(input, "(") {
        return Ok(found);
    }
    input.cursor = input.cursor + 1;
    loop
        invariant
            input.tokens == old(input).tokens,
            input.end == old(input).end,
            input.fault == old(input).fault,
            advanced(*old(input), *input),
            syntax::schema::arguments_definition(old(input)@, old(input).cursor as int)
                == syntax::schema::input_values(input@, input.cursor as int, found.deep_view()),
        decreases input.tokens.len() - input.cursor,
    {
        if found.len() == 0 || starts_declaration(input) {
            let one = input_value(input)?;
            let ghost before = found;
            found.push(one);
            proof {
                lemma_push_deep_view(before, found, one);
            }
        } else {
            punct(input, ")")?;
            return Ok(found);
        }
    }
}

/// Takes a field.
pub fn field(input: &mut TokenStream) -> (r: Result<Field, ParseError>)
    ensures
        outcome(
            *old(input),
            *final(input),
            r,
            syntax::schema::field(old(input)@, old(input).cursor as int),
        ),
        r is Ok ==> advanced(*old(input), *final(input)),
        r is Ok ==> r->Ok_0.position == place(old(input)@, old(input).cursor as int),
{
    let position = input.position();
    let text = description(input)?;
    let n = name(input)?;
    let inputs = arguments_definition(input)?;
    punct(input, ":")?;
    let t = parse_type(input)?;
    let list = directives(input)?;
    Ok(
        Field {
            position,
            description: text,
            name: n,
            arguments: inputs,
            field_type: t,
            directives: list,
        },
    )
}

/// Takes the fields of an object or an interface, if any stand under the
/// cursor.
pub fn fields(input: &mut TokenStream) -> (r: Result<Vec<Field>, ParseError>)
    ensures
        outcome(
            *old(input),
            *final(input),
            r,
            syntax::schema::fields(old(input)@, old(input).cursor as int),
        ),
        r is Ok ==> not_behind(*old(input), *final(input)),
{
    let mut found: Vec<Field> = Vec::new();
    assert(found.deep_view() =~= Seq::<FieldModel>::empty());
    if !at_punct(input, "{") {
        return Ok(found);
    }
    input.cursor = input.cursor + 1;
    loop
        invariant
            input.tokens == old(input).tokens,
            input.end == old(input).end,
            input.fault == old(input).fault,
            advanced(*old(input), *input),
            syntax::schema::fields(old(input)@, old(input).cursor as int)
                == syntax::schema::more_fields(input@, input.cursor as int, found.deep_view()),
        decreases input.tokens.len() - input.cursor,
    {
        if found.len() == 0 || starts_declaration(input) {
            let one = field(input)?;
            let ghost before = found;
            found.push(one);
            proof {
                lemma_push_deep_view(before, found, one);
            }
        } else {
            punct(input, "}")?;
            return Ok(found);
        }
    }
}

/// Takes an object type.
pub fn object_type(input: &mut TokenStream) -> (r: Result<ObjectType, ParseError>)
    ensures
        outcome(
            *old(input),
            *final(input),
            r,
            syntax::schema::object_type(old(input)@, old(input).cursor as int),
        ),
        r is Ok ==> advanced(*old(input), *final(input)),
        r is Ok ==> r->Ok_0.position == place(old(input)@, old(input).cursor as int),
{
    let position = input.position();
    let n = head(input, "type")?;
    let interfaces = implements_interfaces(input)?;
    let list = directives(input)?;
    let block = fields(input)?;
    Ok(
        ObjectType {
            position,
            description: None,
            name: n,
            implements_interfaces: interfaces,
            directives: list,
            fields: block,
        },
    )
}

/// Takes the extension of an object type, what stands behind `extend`.
pub fn object_type_extension(input: &mut TokenStream) -> (r: Result<
    ObjectTypeExtension,
    ParseError,
>)
    ensures
        outcome(
            *old(input),
            *final(input),
            r,
            syntax::schema::object_type_extension(old(input)@, old(input).cursor as int),
        ),
        r is Ok ==> advanced(*old(input), *final(input)),
        r is Ok ==> r->Ok_0.position == place(old(input)@, old(input).cursor as int),
        r is Ok ==> r->Ok_0.implements_interfaces.len() > 0 || r->Ok_0.directives.len() > 0
            || r->Ok_0.fields.len() > 0,
{
    let t = object_type(input)?;
    if t.implements_interfaces.len() == 0 && t.directives.len() == 0 && t.fields.len() == 0 {
        return Err(
            vacuous(
                t.position,
                "Object type extension should contain at least one interface, directive or field.",
            ),
        );
    }
    Ok(
        ObjectTypeExtension {
            position: t.position,
            name: t.name,
            implements_interfaces: t.implements_interfaces,
            directives: t.directives,
            fields: t.fields,
        },
    )
}

/// Takes an interface type.
pub fn interface_type(input: &mut TokenStream) -> (r: Result<InterfaceType, ParseError>)
    ensures
        outcome(
            *old(input),
            *final(input),
            r,
            syntax::schema::interface_type(old(input)@, old(input).cursor as int),
        ),
        r is Ok ==> advanced(*old(input), *final(input)),
        r is Ok ==> r->Ok_0.position == place(old(input)@, old(input).cursor as int),
{
    let position = input.position();
    let n = head(input, "interface")?;
    let list = directives(input)?;
    let block = fields(input)?;
    Ok(InterfaceType { position, description: None, name: n, directives: list, fields: block })
}

/// Takes the extension of an interface type, what stands behind
/// `extend`.
pub fn interface_type_extension(input: &mut TokenStream) -> (r: Result<
    InterfaceTypeExtension,
    ParseError,
>)
    ensures
        outcome(
            *old(input),
            *final(input),
            r,
            syntax::schema::interface_type_extension(old(input)@, old(input).cursor as int),
        ),
        r is Ok ==> advanced(*old(input), *final(input)),
        r is Ok ==> r->Ok_0.position == place(old(input)@, old(input).cursor as int),
        r is Ok ==> r->Ok_0.directives.len() > 0 || r->Ok_0.fields.len() > 0,
{
    let t = interface_type(input)?;
    if t.directives.len() == 0 && t.fields.len() == 0 {
        return Err(
            vacuous(
                t.position,
                "Interface type extension should contain at least one directive or field.",
            ),
        );
    }
    Ok(
        InterfaceTypeExtension {
            position: t.position,
            name: t.name,
            directives: t.directives,
            fields: t.fields,
        },
    )
}

/// Takes the members of a union.
pub fn union_members(input: &mut TokenStream) -> (r: Result<Vec<NamedType>, ParseError>)
    ensures
        outcome(
            *old(input),
            *final(input),
            r,
            syntax::schema::union_members(old(input)@, old(input).cursor as int),
        ),
        r is Ok ==> advanced(*old(input), *final(input)),
        r is Ok ==> r->Ok_0.len() > 0,
{
    if at_punct(input, "|") {
        input.cursor = input.cursor + 1;
    }
    names(input, "|")
}

/// Takes the member clause of a union, if one is there.
fn member_clause(input: &mut TokenStream) -> (r: Result<Option<Vec<NamedType>>, ParseError>)
    ensures
        outcome(
            *old(input),
            *final(input),
            r,
            syntax::schema::member_clause(old(input)@, old(input).cursor as int),
        ),
        r is Ok ==> not_behind(*old(input), *final(input)),
{
    if at_punct(input, "=") {
        input.cursor = input.cursor + 1;
        let members = union_members(input)?;
        Ok(Some(members))
    } else {
        Ok(None)
    }
}

/// Takes what a union and its extension share.
fn union_parts(input: &mut TokenStream) -> (r: Result<
    (Name, Vec<Directive>, Option<Vec<NamedType>>),
    ParseError,
>)
    ensures
        outcome(
            *old(input),
            *final(input),
            r,
            syntax::schema::union_parts(old(input)@, old(input).cursor as int),
        ),
        r is Ok ==> advanced(*old(input), *final(input)),
{
    let n = head(input, "union")?;
    let list = directives(input)?;
    let clause = member_clause(input)?;
    Ok((n, list, clause))
}

/// The members that a member clause gives: none where there is no
/// clause.
fn members_of(clause: Option<Vec<NamedType>>) -> (r: Vec<NamedType>)
    ensures
        r.deep_view() == syntax::schema::members_of(clause.deep_view()),
{
    match clause {
        Some(members) => members,
        None => {
            let found: Vec<NamedType> = Vec::new();
            assert(found.deep_view() =~= Seq::<Seq<char>>::empty());
            found
        },
    }
}

/// Takes a union type.
pub fn union_type(input: &mut TokenStream) -> (r: Result<UnionType, ParseError>)
    ensures
        outcome(
            *old(input),
            *final(input),
            r,
            syntax::schema::union_type(old(input)@, old(input).cursor as int),
        ),
        r is Ok ==> advanced(*old(input), *final(input)),
        r is Ok ==> r->Ok_0.position == place(old(input)@, old(input).cursor as int),
{
    let position = input.position();
    let parts = union_parts(input)?;
    Ok(
        UnionType {
            position,
            description: None,
            name: parts.0,
            directives: parts.1,
            types: members_of(parts.2),
        },
    )
}

/// Takes the extension of a union type, what stands behind `extend`.
pub fn union_type_extension(input: &mut TokenStream) -> (r: Result<
    UnionTypeExtension,
    ParseError,
>)
    ensures
        outcome(
            *old(input),
            *final(input),
            r,
            syntax::schema::union_type_extension(old(input)@, old(input).cursor as int),
        ),
        r is Ok ==> advanced(*old(input), *final(input)),
        r is Ok ==> r->Ok_0.position == place(old(input)@, old(input).cursor as int),
{
    let position = input.position();
    let parts = union_parts(input)?;
    if parts.1.len() == 0 && parts.2.is_none() {
        return Err(
            vacuous(position, "Union type extension should contain at least one directive or type."),
        );
    }
    Ok(
        UnionTypeExtension {
            position,
            name: parts.0,
            directives: parts.1,
            types: members_of(parts.2),
        },
    )
}

fn type_labels() -> (labels: Vec<&'static str>)
    ensures
        labels.deep_view() == syntax::schema::type_labels(),
{
    let mut labels: Vec<&'static str> = Vec::new();
    labels.push("scalar");
    labels.push("type");
    labels.push("interface");
    labels.push("union");
    assert(labels.deep_view() =~= syntax::schema::type_labels());
    labels
}

/// Takes the definition of a type without its description.
fn plain_type_definition(input: &mut TokenStream) -> (r: Result<TypeDefinition, ParseError>)
    ensures
        outcome(
            *old(input),
            *final(input),
            r,
            syntax::schema::plain_type_definition(old(input)@, old(input).cursor as int),
        ),
        r is Ok ==> advanced(*old(input), *final(input)),
{
    if at_ident(input, "scalar") {
        let t = scalar_type(input)?;
        Ok(TypeDefinition::Scalar(t))
    } else if at_ident(input, "type") {
        let t = object_type(input)?;
        Ok(TypeDefinition::Object(t))
    } else if at_ident(input, "interface") {
        let t = interface_type(input)?;
        Ok(TypeDefinition::Interface(t))
    } else if at_ident(input, "union") {
        let t = union_type(input)?;
        Ok(TypeDefinition::Union(t))
    } else {
        Err(input.unexpected(type_labels()))
    }
}

/// Takes the definition of a type: an optional description and a scalar,
/// an object, an interface or a union. The description is written into
/// the definition once the definition is read.
pub fn type_definition(input: &mut TokenStream) -> (r: Result<TypeDefinition, ParseError>)
    ensures
        outcome(
            *old(input),
            *final(input),
            r,
            syntax::schema::type_definition(old(input)@, old(input).cursor as int),
        ),
        r is Ok ==> advanced(*old(input), *final(input)),
{
    let text = description(input)?;
    let mut def = plain_type_definition(input)?;
    def.set_description(text);
    Ok(def)
}

/// Takes the extension of a type: `extend` and the extension of a scalar,
/// an object, an interface or a union.
pub fn type_extension(input: &mut TokenStream) -> (r: Result<TypeExtension, ParseError>)
    ensures
        outcome(
            *old(input),
            *final(input),
            r,
            syntax::schema::type_extension(old(input)@, old(input).cursor as int),
        ),
        r is Ok ==> advanced(*old(input), *final(input)),
{
    ident(input, "extend")?;
    if at_ident(input, "scalar") {
        let t = scalar_type_extension(input)?;
        Ok(TypeExtension::Scalar(t))
    } else if at_ident(input, "type") {
        let t = object_type_extension(input)?;
        Ok(TypeExtension::Object(t))
    } else if at_ident(input, "interface") {
        let t = interface_type_extension(input)?;
        Ok(TypeExtension::Interface(t))
    } else if at_ident(input, "union") {
        let t = union_type_extension(input)?;
        Ok(TypeExtension::Union(t))
    } else {
        Err(input.unexpected(type_labels()))
    }
}

/// Whether a definition can begin with the token under the cursor.
fn starts_definition(input: &TokenStream) -> (r: bool)
    ensures
        r == syntax::schema::starts_definition(input@, input.cursor as int),
{
    at_ident(input, "schema") || at_ident(input, "extend") || starts_type_definition(input)
}

/// Whether the definition of a type can begin with the token under the
/// cursor.
fn starts_type_definition(input: &TokenStream) -> (r: bool)
    ensures
        r == syntax::schema::starts_type_definition(input@, input.cursor as int),
{
    starts_string(input) || at_ident(input, "scalar") || at_ident(input, "type") || at_ident(
        input,
        "interface",
    ) || at_ident(input, "union")
}

/// Takes one definition.
pub fn definition(input: &mut TokenStream) -> (r: Result<Definition, ParseError>)
    ensures
        outcome(
            *old(input),
            *final(input),
            r,
            syntax::schema::definition(old(input)@, old(input).cursor as int),
        ),
        r is Ok ==> advanced(*old(input), *final(input)),
{
    if at_ident(input, "schema") {
        let d = schema(input)?;
        Ok(Definition::SchemaDefinition(d))
    } else if at_ident(input, "extend") {
        let d = type_extension(input)?;
        Ok(Definition::TypeExtension(d))
    } else if starts_type_definition(input) {
        let d = type_definition(input)?;
        Ok(Definition::TypeDefinition(d))
    } else {
        let mut labels: Vec<&str> = Vec::new();
        labels.push("schema");
        labels.push("scalar");
        labels.push("type");
        labels.push("interface");
        labels.push("union");
        labels.push("extend");
        assert(labels.deep_view() =~= syntax::schema::definition_labels());
        Err(input.unexpected(labels))
    }
}

/// Takes a whole document: one or more definitions, up to the end of the
/// text.
pub fn document(input: &mut TokenStream) -> (r: Result<Document, ParseError>)
    ensures
        outcome(
            *old(input),
            *final(input),
            r,
            syntax::schema::definitions(old(input)@, old(input).cursor as int, Seq::empty()),
        ),
{
    let mut found: Vec<Definition> = Vec::new();
    assert(found.deep_view() =~= Seq::<DefinitionModel>::empty());
    loop
        invariant
            input.tokens == old(input).tokens,
            input.end == old(input).end,
            input.fault == old(input).fault,
            syntax::schema::definitions(old(input)@, old(input).cursor as int, Seq::empty())
                == syntax::schema::definitions(input@, input.cursor as int, found.deep_view()),
        decreases input.tokens.len() - input.cursor,
    {
        if found.len() > 0 && at_end(input) {
            return Ok(Document { definitions: found });
        }
        if found.len() == 0 || starts_definition(input) {
            let one = definition(input)?;
            let ghost before = found;
            found.push(one);
            proof {
                lemma_push_deep_view(before, found, one);
            }
        } else {
            return Err(input.refuse("end of input"));
        }
    }
}

/// Reads a schema text.
///
/// The text is cut into tokens, and the tokens must spell one or more
/// definitions and nothing else. The answer is the document that they
/// spell, or else the diagnostic of the first rule that did not fit:
/// nothing of the document is given unless all of it could be read.
pub fn parse_schema(s: &str) -> (r: Result<Document, SchemaParseError>)
    ensures
        match syntax::schema::document(lex(s@)) {
            Parsed::Done { value, next } => r is Ok && r->Ok_0.deep_view() == value,
            Parsed::Failed { error, at } => r is Err && r->Err_0.deep_view() == error,
        },
{
    let mut tokens = TokenStream::new(s);
    match document(&mut tokens) {
        Ok(doc) => Ok(doc),
        Err(error) => Err(SchemaParseError(error)),
    }
}

} // verus!

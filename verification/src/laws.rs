//! What holds of the grammar as a whole.
//!
//! The laws speak of the rules as [`crate::syntax`] defines them, and so
//! of the executable rules, which compute the same answers.
use vstd::prelude::*;
use crate::schema::ast::{DefinitionModel, TypeDefinitionModel, TypeExtensionModel};
use crate::position::Pos;
use crate::syntax::common::{
    argument, directive, directives, list_items, more_arguments, more_directives, object_entries,
    parse_type, starts_string, starts_value, value,
};
use crate::syntax::schema::{
    arguments_definition, declared, default_clause, definition, definitions, document, field,
    fields, implements_interfaces, input_value, input_values, interface_type,
    interface_type_extension, more_fields, names, object_type, object_type_extension, operations,
    scalar_type, scalar_type_extension, schema, type_definition, type_extension, typed,
    union_parts, union_type, union_type_extension, Bindings,
};
use crate::error::{with_item, ErrorItemModel};
use crate::syntax::schema::bind;
use crate::syntax::{at_ident, at_kind, at_punct, Parsed};
use crate::tokenizer::TokenModel;
use crate::tokenizer::{Kind, Source};
use crate::common::{DirectiveModel, ValueModel};

verus! {

/// Whether `answer`, given at index `i`, has read at least one token and
/// none behind the last, if it has read anything.
pub open spec fn moves<T>(src: Source, i: int, answer: Parsed<T>) -> bool {
    answer matches Parsed::Done { value, next } ==> 0 <= i < next <= src.tokens.len()
}

/// Whether `answer`, given at index `i`, has either read nothing or read
/// at least one token and none behind the last.
pub open spec fn moves_or_stays<T>(src: Source, i: int, answer: Parsed<T>) -> bool {
    answer matches Parsed::Done { value, next } ==> next == i || 0 <= i < next <= src.tokens.len()
}

/// A type reference holds at least one token.
pub proof fn lemma_parse_type_moves(src: Source, i: int)
    ensures
        moves(src, i, parse_type(src, i)),
    decreases src.tokens.len() - i,
{
    if at_punct(src, i, "["@) {
        lemma_parse_type_moves(src, i + 1);
    }
}

/// A value holds at least one token.
pub proof fn lemma_value_moves(src: Source, i: int, constant: bool)
    ensures
        moves(src, i, value(src, i, constant)),
    decreases src.tokens.len() - i, 0int,
{
    if at_punct(src, i, "["@) {
        lemma_list_moves(src, i + 1, constant, Seq::empty());
    }
    if at_punct(src, i, "{"@) {
        lemma_object_moves(src, i + 1, constant, Seq::empty());
    }
}

/// The rest of a list holds at least its closing bracket.
pub proof fn lemma_list_moves(src: Source, i: int, constant: bool, found: Seq<ValueModel>)
    ensures
        moves(src, i, list_items(src, i, constant, found)),
    decreases src.tokens.len() - i, 1int,
{
    if !at_punct(src, i, "]"@) && starts_value(src, i, constant) {
        lemma_value_moves(src, i, constant);
        match value(src, i, constant) {
            Parsed::Done { value: item, next } => {
                lemma_list_moves(src, next, constant, found.push(item));
            },
            Parsed::Failed { .. } => {},
        }
    }
}

/// The rest of an object holds at least its closing brace.
pub proof fn lemma_object_moves(
    src: Source,
    i: int,
    constant: bool,
    found: Seq<(Seq<char>, ValueModel)>,
)
    ensures
        moves(src, i, object_entries(src, i, constant, found)),
    decreases src.tokens.len() - i, 1int,
{
    if !at_punct(src, i, "}"@) && at_kind(src, i, Kind::Name) && at_punct(src, i + 1, ":"@) {
        lemma_value_moves(src, i + 2, constant);
        match value(src, i + 2, constant) {
            Parsed::Done { value: item, next } => {
                lemma_object_moves(
                    src,
                    next,
                    constant,
                    crate::syntax::common::upsert(found, src.tokens[i].value, item),
                );
            },
            Parsed::Failed { .. } => {},
        }
    }
}

/// The rest of an argument list holds at least its closing parenthesis.
pub proof fn lemma_more_arguments_moves(src: Source, i: int, found: Seq<(Seq<char>, ValueModel)>)
    ensures
        moves(src, i, more_arguments(src, i, found)),
    decreases src.tokens.len() - i,
{
    if found.len() == 0 || at_kind(src, i, Kind::Name) {
        if at_kind(src, i, Kind::Name) && at_punct(src, i + 1, ":"@) {
            lemma_value_moves(src, i + 2, false);
        }
        match argument(src, i) {
            Parsed::Done { value: one, next } => {
                lemma_more_arguments_moves(src, next, found.push(one));
            },
            Parsed::Failed { .. } => {},
        }
    }
}

/// A directive holds at least one token.
pub proof fn lemma_directive_moves(src: Source, i: int)
    ensures
        moves(src, i, directive(src, i)),
{
    if at_punct(src, i, "@"@) && at_kind(src, i + 1, Kind::Name) && at_punct(src, i + 2, "("@) {
        lemma_more_arguments_moves(src, i + 3, Seq::empty());
    }
}

/// Directives read nothing, or tokens up to the last at most.
pub proof fn lemma_more_directives_moves(src: Source, i: int, found: Seq<DirectiveModel>)
    ensures
        moves_or_stays(src, i, more_directives(src, i, found)),
    decreases src.tokens.len() - i,
{
    if at_punct(src, i, "@"@) {
        lemma_directive_moves(src, i);
        match directive(src, i) {
            Parsed::Done { value: one, next } => {
                lemma_more_directives_moves(src, next, found.push(one));
            },
            Parsed::Failed { .. } => {},
        }
    }
}

/// Names with a separator between them hold at least one token.
pub proof fn lemma_names_move(src: Source, i: int, separator: Seq<char>, found: Seq<Seq<char>>)
    ensures
        moves(src, i, names(src, i, separator, found)),
        names(src, i, separator, found) matches Parsed::Done { value, next } ==> value.len()
            > found.len(),
    decreases src.tokens.len() - i,
{
    if at_kind(src, i, Kind::Name) && at_punct(src, i + 1, separator) {
        lemma_names_move(src, i + 2, separator, found.push(src.tokens[i].value));
    }
}

/// An input value holds at least one token.
pub proof fn lemma_input_value_moves(src: Source, i: int)
    ensures
        moves(src, i, input_value(src, i)),
{
    match declared(src, i) {
        Parsed::Done { value: front, next: a } => {
            lemma_parse_type_moves(src, a + 1);
            match typed(src, a) {
                Parsed::Done { value: t, next: b } => {
                    lemma_value_moves(src, b + 1, true);
                    match default_clause(src, b) {
                        Parsed::Done { value: v, next: c } => {
                            lemma_more_directives_moves(src, c, Seq::empty());
                        },
                        Parsed::Failed { .. } => {},
                    }
                },
                Parsed::Failed { .. } => {},
            }
        },
        Parsed::Failed { .. } => {},
    }
}

/// The rest of a list of input values holds at least its closing
/// parenthesis.
pub proof fn lemma_input_values_move(
    src: Source,
    i: int,
    found: Seq<crate::schema::ast::InputValueModel>,
)
    ensures
        moves(src, i, input_values(src, i, found)),
    decreases src.tokens.len() - i,
{
    lemma_input_value_moves(src, i);
    match input_value(src, i) {
        Parsed::Done { value: one, next } => {
            lemma_input_values_move(src, next, found.push(one));
        },
        Parsed::Failed { .. } => {},
    }
}

/// A field holds at least one token.
pub proof fn lemma_field_moves(src: Source, i: int)
    ensures
        moves(src, i, field(src, i)),
{
    match declared(src, i) {
        Parsed::Done { value: front, next: a } => {
            if at_punct(src, a, "("@) {
                lemma_input_values_move(src, a + 1, Seq::empty());
            }
            match arguments_definition(src, a) {
                Parsed::Done { value: inputs, next: b } => {
                    lemma_parse_type_moves(src, b + 1);
                    match typed(src, b) {
                        Parsed::Done { value: t, next: c } => {
                            lemma_more_directives_moves(src, c, Seq::empty());
                        },
                        Parsed::Failed { .. } => {},
                    }
                },
                Parsed::Failed { .. } => {},
            }
        },
        Parsed::Failed { .. } => {},
    }
}

/// The rest of a block of fields holds at least its closing brace.
pub proof fn lemma_more_fields_move(src: Source, i: int, found: Seq<crate::schema::ast::FieldModel>)
    ensures
        moves(src, i, more_fields(src, i, found)),
    decreases src.tokens.len() - i,
{
    lemma_field_moves(src, i);
    match field(src, i) {
        Parsed::Done { value: one, next } => {
            lemma_more_fields_move(src, next, found.push(one));
        },
        Parsed::Failed { .. } => {},
    }
}

/// Fields read nothing, or tokens up to the last at most.
pub proof fn lemma_fields_move(src: Source, i: int)
    ensures
        moves_or_stays(src, i, fields(src, i)),
{
    if at_punct(src, i, "{"@) {
        lemma_more_fields_move(src, i + 1, Seq::empty());
    }
}

/// The rest of a `schema` block holds at least its closing brace, and
/// the block stands where it began and keeps its directives.
pub proof fn lemma_operations(
    src: Source,
    start: int,
    list: Seq<DirectiveModel>,
    i: int,
    state: Bindings,
)
    ensures
        moves(src, i, operations(src, start, list, i, state)),
        operations(src, start, list, i, state) matches Parsed::Done { value, next }
            ==> value.position == crate::syntax::place(src, start) && value.directives == list,
    decreases src.tokens.len() - i,
{
    if at_kind(src, i, Kind::Name) && at_punct(src, i + 1, ":"@) && at_kind(
        src,
        i + 2,
        Kind::Name,
    ) {
        lemma_operations(
            src,
            start,
            list,
            i + 3,
            crate::syntax::schema::bind(state, src.tokens[i], src.tokens[i + 2].value),
        );
    }
}

/// The first binding stays. Once a kind of operation is bound, binding
/// any operation changes neither that binding nor an entry of what was
/// found wrong so far: a second binding of the kind is reported, never
/// taken.
pub proof fn law_first_binding_stays(state: Bindings, operation: TokenModel, bound: Seq<char>)
    ensures
        state.query is Some ==> bind(state, operation, bound).query == state.query,
        state.mutation is Some ==> bind(state, operation, bound).mutation == state.mutation,
        state.subscription is Some ==> bind(state, operation, bound).subscription
            == state.subscription,
        state.errors.len() <= bind(state, operation, bound).errors.len(),
        forall|k: int|
            0 <= k < state.errors.len() ==> bind(state, operation, bound).errors[k]
                == #[trigger] state.errors[k],
{
    let found = ErrorItemModel::UnexpectedToken { kind: operation.kind, value: operation.value };
    let a = with_item(state.errors, found);
    let b = with_item(a, ErrorItemModel::Expected("query"@));
    let c = with_item(b, ErrorItemModel::Expected("mutation"@));
    let d = with_item(c, ErrorItemModel::Expected("subscription"@));
    assert forall|k: int| 0 <= k < state.errors.len() implies d[k] == state.errors[k] by {
        assert(a[k] == state.errors[k]);
        assert(b[k] == a[k]);
        assert(c[k] == b[k]);
        assert(d[k] == c[k]);
    }
}

/// What the first operation of the kind `word` from index `i` on is bound
/// to, if there is one: the operations are pairs of a name, a colon and a
/// name.
pub open spec fn first_binding(src: Source, i: int, word: Seq<char>) -> Option<Seq<char>>
    decreases src.tokens.len() - i,
{
    if at_kind(src, i, Kind::Name) && at_punct(src, i + 1, ":"@) && at_kind(
        src,
        i + 2,
        Kind::Name,
    ) {
        if src.tokens[i].value == word {
            Some(src.tokens[i + 2].value)
        } else {
            first_binding(src, i + 3, word)
        }
    } else {
        None
    }
}

/// What stays bound: what was bound before, and only where nothing was,
/// what is bound later.
pub open spec fn kept(before: Option<Seq<char>>, later: Option<Seq<char>>) -> Option<Seq<char>> {
    if before is Some {
        before
    } else {
        later
    }
}

/// A `schema` block binds what is written first. Each kind of operation
/// that the rest of a block that is read binds is bound as it was
/// before, or else to the type that the first operation of that kind
/// names; a kind of which no operation is written stays as it was.
pub proof fn law_bindings_are_the_first(
    src: Source,
    start: int,
    list: Seq<DirectiveModel>,
    i: int,
    state: Bindings,
)
    ensures
        operations(src, start, list, i, state) matches Parsed::Done { value, next } ==> value.query
            == kept(state.query, first_binding(src, i, "query"@)) && value.mutation == kept(
            state.mutation,
            first_binding(src, i, "mutation"@),
        ) && value.subscription == kept(
            state.subscription,
            first_binding(src, i, "subscription"@),
        ),
    decreases src.tokens.len() - i,
{
    reveal_strlit("query");
    reveal_strlit("mutation");
    reveal_strlit("subscription");
    assert("query"@.len() == 5 && "mutation"@.len() == 8 && "subscription"@.len() == 12);
    if at_kind(src, i, Kind::Name) && at_punct(src, i + 1, ":"@) && at_kind(
        src,
        i + 2,
        Kind::Name,
    ) {
        let onward = bind(state, src.tokens[i], src.tokens[i + 2].value);
        law_bindings_are_the_first(src, start, list, i + 3, onward);
        assert(operations(src, start, list, i, state) == operations(
            src,
            start,
            list,
            i + 3,
            onward,
        ));
    }
}

/// A `schema` block that is read binds each kind of operation to the
/// type that the first operation of that kind names, and binds no kind
/// of which no operation is written.
pub proof fn law_schema_binds_the_first(src: Source, i: int)
    ensures
        schema(src, i) matches Parsed::Done { value, next } ==> (directives(
            src,
            i + 2,
        ) matches Parsed::Done { value: list, next: c } && value.directives == list && value.query
            == first_binding(src, c, "query"@) && value.mutation == first_binding(
            src,
            c,
            "mutation"@,
        ) && value.subscription == first_binding(src, c, "subscription"@)),
{
    match directives(src, i + 2) {
        Parsed::Done { value: list, next: c } => {
            law_bindings_are_the_first(src, i, list, c, crate::syntax::schema::unbound());
            lemma_operations(src, i, list, c, crate::syntax::schema::unbound());
        },
        Parsed::Failed { .. } => {},
    }
}

/// An entry that is added to entries without one twice leaves them so.
pub proof fn lemma_with_item_distinct(errors: Seq<ErrorItemModel>, item: ErrorItemModel)
    requires
        errors.no_duplicates(),
    ensures
        with_item(errors, item).no_duplicates(),
{
    if !errors.contains(item) {
        let grown = errors.push(item);
        assert forall|a: int, b: int| 0 <= a < grown.len() && 0 <= b < grown.len() && a
            != b implies grown[a] != grown[b] by {
            if a < errors.len() && b < errors.len() {
                assert(grown[a] == errors[a]);
                assert(grown[b] == errors[b]);
            } else if a < errors.len() {
                assert(errors.contains(grown[a]));
            } else {
                assert(errors.contains(grown[b]));
            }
        }
    }
}

/// Nothing is reported twice. What is found wrong with the operations
/// of a `schema` block is a set: however often a kind of operation is
/// bound again, and however often a name comes that is no kind of
/// operation, each entry stands in the diagnostic once.
pub proof fn law_nothing_is_reported_twice(state: Bindings, operation: TokenModel, bound: Seq<char>)
    requires
        state.errors.no_duplicates(),
    ensures
        bind(state, operation, bound).errors.no_duplicates(),
{
    let found = ErrorItemModel::UnexpectedToken { kind: operation.kind, value: operation.value };
    lemma_with_item_distinct(state.errors, ErrorItemModel::Unexpected("duplicate `query` operation"@));
    lemma_with_item_distinct(
        state.errors,
        ErrorItemModel::Unexpected("duplicate `mutation` operation"@),
    );
    lemma_with_item_distinct(
        state.errors,
        ErrorItemModel::Unexpected("duplicate `subscription` operation"@),
    );
    let a = with_item(state.errors, found);
    lemma_with_item_distinct(state.errors, found);
    let b = with_item(a, ErrorItemModel::Expected("query"@));
    lemma_with_item_distinct(a, ErrorItemModel::Expected("query"@));
    let c = with_item(b, ErrorItemModel::Expected("mutation"@));
    lemma_with_item_distinct(b, ErrorItemModel::Expected("mutation"@));
    lemma_with_item_distinct(c, ErrorItemModel::Expected("subscription"@));
}

/// Whether the token at index `i` is the first that a node at `position`
/// was read from.
pub open spec fn begins_at(src: Source, i: int, position: Pos) -> bool {
    0 <= i < src.tokens.len() && position == src.tokens[i].position
}

/// A `schema` block that was read holds at least one token, and its
/// place is that of its first token, the keyword.
pub proof fn law_schema_position(src: Source, i: int)
    ensures
        moves(src, i, schema(src, i)),
        schema(src, i) matches Parsed::Done { value, next } ==> begins_at(src, i, value.position),
{
    lemma_more_directives_moves(src, i + 2, Seq::empty());
    match directives(src, i + 2) {
        Parsed::Done { value: list, next: b } => {
            lemma_operations(src, i, list, b, crate::syntax::schema::unbound());
        },
        Parsed::Failed { .. } => {},
    }
}

/// A directive, an input value and a field that were read stand each at
/// its first token: the `@`, and for the others the description, or the
/// name where there is no description.
pub proof fn law_declaration_positions(src: Source, i: int)
    ensures
        directive(src, i) matches Parsed::Done { value, next } ==> begins_at(
            src,
            i,
            value.position,
        ),
        input_value(src, i) matches Parsed::Done { value, next } ==> begins_at(
            src,
            i,
            value.position,
        ),
        field(src, i) matches Parsed::Done { value, next } ==> begins_at(src, i, value.position),
{
}

/// What `union_parts` reads moves, and so does what the other heads of a
/// type read.
pub proof fn lemma_types_move(src: Source, i: int)
    ensures
        moves(src, i, scalar_type(src, i)),
        moves(src, i, object_type(src, i)),
        moves(src, i, interface_type(src, i)),
        moves(src, i, union_parts(src, i)),
{
    lemma_more_directives_moves(src, i + 2, Seq::empty());
    match directives(src, i + 2) {
        Parsed::Done { value: list, next: b } => {
            lemma_fields_move(src, b);
            if at_punct(src, b, "="@) {
                if at_punct(src, b + 1, "|"@) {
                    lemma_names_move(src, b + 2, "|"@, Seq::empty());
                } else {
                    lemma_names_move(src, b + 1, "|"@, Seq::empty());
                }
            }
        },
        Parsed::Failed { .. } => {},
    }
    if at_ident(src, i + 2, "implements"@) {
        if at_punct(src, i + 3, "&"@) {
            lemma_names_move(src, i + 4, "&"@, Seq::empty());
        } else {
            lemma_names_move(src, i + 3, "&"@, Seq::empty());
        }
    }
    match implements_interfaces(src, i + 2) {
        Parsed::Done { value: interfaces, next: b } => {
            lemma_more_directives_moves(src, b, Seq::empty());
            match directives(src, b) {
                Parsed::Done { value: list, next: c } => {
                    lemma_fields_move(src, c);
                },
                Parsed::Failed { .. } => {},
            }
        },
        Parsed::Failed { .. } => {},
    }
}

/// A scalar, an object, an interface and a union that were read, and the
/// extension of each, stand at their first token, the keyword.
pub proof fn law_type_positions(src: Source, i: int)
    ensures
        scalar_type(src, i) matches Parsed::Done { value, next } ==> begins_at(
            src,
            i,
            value.position,
        ),
        object_type(src, i) matches Parsed::Done { value, next } ==> begins_at(
            src,
            i,
            value.position,
        ),
        interface_type(src, i) matches Parsed::Done { value, next } ==> begins_at(
            src,
            i,
            value.position,
        ),
        union_type(src, i) matches Parsed::Done { value, next } ==> begins_at(
            src,
            i,
            value.position,
        ),
        scalar_type_extension(src, i) matches Parsed::Done { value, next } ==> begins_at(
            src,
            i,
            value.position,
        ),
        object_type_extension(src, i) matches Parsed::Done { value, next } ==> begins_at(
            src,
            i,
            value.position,
        ),
        interface_type_extension(src, i) matches Parsed::Done { value, next } ==> begins_at(
            src,
            i,
            value.position,
        ),
        union_type_extension(src, i) matches Parsed::Done { value, next } ==> begins_at(
            src,
            i,
            value.position,
        ),
{
}

/// An extension that was read adds something: a scalar extension holds a
/// directive; an object extension an interface, a directive or a field;
/// an interface extension a directive or a field; a union extension a
/// directive or a member.
pub proof fn law_extensions_add_something(src: Source, i: int)
    ensures
        scalar_type_extension(src, i) matches Parsed::Done { value, next }
            ==> value.directives.len() > 0,
        object_type_extension(src, i) matches Parsed::Done { value, next }
            ==> value.implements_interfaces.len() > 0 || value.directives.len() > 0
            || value.fields.len() > 0,
        interface_type_extension(src, i) matches Parsed::Done { value, next }
            ==> value.directives.len() > 0 || value.fields.len() > 0,
        union_type_extension(src, i) matches Parsed::Done { value, next } ==> value.directives.len()
            > 0 || value.types.len() > 0,
{
    match directives(src, i + 2) {
        Parsed::Done { value: list, next: b } => {
            if at_punct(src, b, "="@) {
                if at_punct(src, b + 1, "|"@) {
                    lemma_names_move(src, b + 2, "|"@, Seq::empty());
                } else {
                    lemma_names_move(src, b + 1, "|"@, Seq::empty());
                }
            }
        },
        Parsed::Failed { .. } => {},
    }
}

/// The place of the type that `def` defines.
pub open spec fn type_position(def: TypeDefinitionModel) -> Pos {
    match def {
        TypeDefinitionModel::Scalar(t) => t.position,
        TypeDefinitionModel::Object(t) => t.position,
        TypeDefinitionModel::Interface(t) => t.position,
        TypeDefinitionModel::Union(t) => t.position,
        TypeDefinitionModel::Enum(t) => t.position,
        TypeDefinitionModel::InputObject(t) => t.position,
    }
}

/// The place of the extension `ext`.
pub open spec fn extension_position(ext: TypeExtensionModel) -> Pos {
    match ext {
        TypeExtensionModel::Scalar(t) => t.position,
        TypeExtensionModel::Object(t) => t.position,
        TypeExtensionModel::Interface(t) => t.position,
        TypeExtensionModel::Union(t) => t.position,
    }
}

/// The definition of a type that was read stands at its keyword, the
/// first token behind its description; the extension of a type at the
/// keyword behind `extend`. Both hold at least one token.
pub proof fn law_definition_positions(src: Source, i: int)
    ensures
        moves(src, i, type_definition(src, i)),
        moves(src, i, type_extension(src, i)),
        moves(src, i, definition(src, i)),
        type_definition(src, i) matches Parsed::Done { value, next } ==> begins_at(
            src,
            if starts_string(src, i) {
                i + 1
            } else {
                i
            },
            type_position(value),
        ),
        type_extension(src, i) matches Parsed::Done { value, next } ==> begins_at(
            src,
            i + 1,
            extension_position(value),
        ),
{
    lemma_types_move(src, i);
    lemma_types_move(src, i + 1);
    law_schema_position(src, i);
}

/// A text that holds definitions one behind the other, the first at its
/// beginning and the last up to its end, is read as a document of as many
/// definitions, each as the rule for one definition reads it. `starts`
/// holds the index at which each definition begins, and behind them the
/// number of tokens.
pub proof fn law_definition_count(src: Source, starts: Seq<int>)
    requires
        src.fault is None,
        starts.len() >= 2,
        starts[0] == 0,
        starts[starts.len() - 1] == src.tokens.len(),
        forall|j: int|
            0 <= j < starts.len() - 1 ==> (#[trigger] definition(src, starts[j]) matches Parsed::Done {
                value,
                next,
            } && next == starts[j + 1]),
    ensures
        document(src) matches Parsed::Done { value, next } && value.definitions.len()
            == starts.len() - 1 && next == src.tokens.len() && (forall|j: int|
            0 <= j < starts.len() - 1 ==> definition(src, starts[j]) == (Parsed::Done {
                value: #[trigger] value.definitions[j],
                next: starts[j + 1],
            })),
{
    lemma_definitions_from(src, starts, 0, Seq::empty());
}

/// The step of `law_definition_count`: the same, from the definition of
/// number `done` on, behind the definitions `found`.
pub proof fn lemma_definitions_from(
    src: Source,
    starts: Seq<int>,
    done: int,
    found: Seq<DefinitionModel>,
)
    requires
        src.fault is None,
        starts.len() >= 2,
        starts[starts.len() - 1] == src.tokens.len(),
        0 <= done <= starts.len() - 1,
        found.len() == done,
        0 <= starts[done],
        forall|j: int|
            0 <= j < starts.len() - 1 ==> (#[trigger] definition(src, starts[j]) matches Parsed::Done {
                value,
                next,
            } && next == starts[j + 1]),
        forall|j: int|
            0 <= j < done ==> definition(src, starts[j]) == (Parsed::Done {
                value: #[trigger] found[j],
                next: starts[j + 1],
            }),
    ensures
        definitions(src, starts[done], found) matches Parsed::Done { value, next }
            && value.definitions.len() == starts.len() - 1 && next == src.tokens.len() && (forall|
            j: int,
        |
            0 <= j < starts.len() - 1 ==> definition(src, starts[j]) == (Parsed::Done {
                value: #[trigger] value.definitions[j],
                next: starts[j + 1],
            })),
    decreases starts.len() - done,
{
    let i = starts[done];
    if done == starts.len() - 1 {
    } else {
        law_definition_positions(src, i);
        let answer = definition(src, i);
        assert(answer matches Parsed::Done { value, next } && next == starts[done + 1]);
        let one = answer->value;
        assert(i < src.tokens.len());
        assert(!crate::syntax::at_end(src, i));
        lemma_starts(src, i);
        let grown = found.push(one);
        assert forall|j: int| 0 <= j < done + 1 implies definition(src, starts[j]) == (Parsed::Done {
            value: #[trigger] grown[j],
            next: starts[j + 1],
        }) by {
            if j < done {
                assert(grown[j] == found[j]);
            }
        }
        lemma_definitions_from(src, starts, done + 1, grown);
    }
}

/// Whether `d` is what the rule for one directive reads at some index
/// from `lo` on, without going past `hi`.
pub open spec fn directive_read_between(src: Source, lo: int, hi: int, d: DirectiveModel) -> bool {
    exists|j: int|
        lo <= j && #[trigger] directive(src, j) == (Parsed::Done { value: d, next: next_of(
            directive(src, j),
        ) }) && j < next_of(directive(src, j)) <= hi
}

/// Whether `x` is what the rule for one input value reads at some index
/// from `lo` on, without going past `hi`.
pub open spec fn input_value_read_between(
    src: Source,
    lo: int,
    hi: int,
    x: crate::schema::ast::InputValueModel,
) -> bool {
    exists|j: int|
        lo <= j && #[trigger] input_value(src, j) == (Parsed::Done { value: x, next: next_of(
            input_value(src, j),
        ) }) && j < next_of(input_value(src, j)) <= hi
}

/// Whether `x` is what the rule for one field reads at some index from
/// `lo` on, without going past `hi`.
pub open spec fn field_read_between(
    src: Source,
    lo: int,
    hi: int,
    x: crate::schema::ast::FieldModel,
) -> bool {
    exists|j: int|
        lo <= j && #[trigger] field(src, j) == (Parsed::Done { value: x, next: next_of(
            field(src, j),
        ) }) && j < next_of(field(src, j)) <= hi
}

/// Whether `d` is what the rule for one definition reads at some index
/// from `lo` on, without going past `hi`.
pub open spec fn definition_read_between(src: Source, lo: int, hi: int, d: DefinitionModel) -> bool {
    exists|j: int|
        lo <= j && #[trigger] definition(src, j) == (Parsed::Done { value: d, next: next_of(
            definition(src, j),
        ) }) && j < next_of(definition(src, j)) <= hi
}

/// The index behind what was read; where nothing was read, the index at
/// which the rule gave up.
pub open spec fn next_of<T>(answer: Parsed<T>) -> int {
    match answer {
        Parsed::Done { value, next } => next,
        Parsed::Failed { error, at } => at,
    }
}

/// Every directive of a list that is read is read by the rule for one
/// directive, at an index of its own within the list. So each stands at
/// its first token.
pub proof fn law_each_directive_is_read(src: Source, i: int, found: Seq<DirectiveModel>)
    ensures
        more_directives(src, i, found) matches Parsed::Done { value, next } ==> found.len()
            <= value.len() && (forall|k: int| 0 <= k < found.len() ==> value[k] == found[k])
            && (forall|k: int|
            found.len() <= k < value.len() ==> directive_read_between(
                src,
                i,
                next,
                #[trigger] value[k],
            )),
    decreases src.tokens.len() - i,
{
    if at_punct(src, i, "@"@) {
        lemma_directive_moves(src, i);
        match directive(src, i) {
            Parsed::Done { value: one, next: behind } => {
                if i < behind <= src.tokens.len() {
                    let grown = found.push(one);
                    law_each_directive_is_read(src, behind, grown);
                    lemma_more_directives_moves(src, behind, grown);
                    match more_directives(src, behind, grown) {
                        Parsed::Done { value, next } => {
                            assert(value[found.len() as int] == grown[found.len() as int]);
                            assert(next_of(directive(src, i)) == behind);
                            assert(directive_read_between(src, i, next, one));
                            assert forall|k: int| 0 <= k < found.len() implies value[k]
                                == found[k] by {
                                assert(value[k] == grown[k]);
                            }
                            assert forall|k: int|
                                found.len() <= k < value.len() implies directive_read_between(
                                src,
                                i,
                                next,
                                #[trigger] value[k],
                            ) by {
                                if k > found.len() {
                                    assert(directive_read_between(src, behind, next, value[k]));
                                }
                            }
                        },
                        Parsed::Failed { .. } => {},
                    }
                }
            },
            Parsed::Failed { .. } => {},
        }
    }
}

/// Every input value of a list that is read is read by the rule for one
/// input value, at an index of its own within the list.
pub proof fn law_each_input_value_is_read(
    src: Source,
    i: int,
    found: Seq<crate::schema::ast::InputValueModel>,
)
    ensures
        input_values(src, i, found) matches Parsed::Done { value, next } ==> found.len()
            <= value.len() && (forall|k: int| 0 <= k < found.len() ==> value[k] == found[k])
            && (forall|k: int|
            found.len() <= k < value.len() ==> input_value_read_between(
                src,
                i,
                next,
                #[trigger] value[k],
            )),
    decreases src.tokens.len() - i,
{
    if found.len() == 0 || crate::syntax::schema::starts_declaration(src, i) {
        lemma_input_value_moves(src, i);
        match input_value(src, i) {
            Parsed::Done { value: one, next: behind } => {
                if i < behind <= src.tokens.len() {
                    let grown = found.push(one);
                    law_each_input_value_is_read(src, behind, grown);
                    lemma_input_values_move(src, behind, grown);
                    match input_values(src, behind, grown) {
                        Parsed::Done { value, next } => {
                            assert(value[found.len() as int] == grown[found.len() as int]);
                            assert(next_of(input_value(src, i)) == behind);
                            assert(input_value_read_between(src, i, next, one));
                            assert forall|k: int| 0 <= k < found.len() implies value[k]
                                == found[k] by {
                                assert(value[k] == grown[k]);
                            }
                            assert forall|k: int|
                                found.len() <= k < value.len() implies input_value_read_between(
                                src,
                                i,
                                next,
                                #[trigger] value[k],
                            ) by {
                                if k > found.len() {
                                    assert(input_value_read_between(src, behind, next, value[k]));
                                }
                            }
                        },
                        Parsed::Failed { .. } => {},
                    }
                }
            },
            Parsed::Failed { .. } => {},
        }
    }
}

/// Every field of a block that is read is read by the rule for one
/// field, at an index of its own within the block.
pub proof fn law_each_field_is_read(
    src: Source,
    i: int,
    found: Seq<crate::schema::ast::FieldModel>,
)
    ensures
        more_fields(src, i, found) matches Parsed::Done { value, next } ==> found.len()
            <= value.len() && (forall|k: int| 0 <= k < found.len() ==> value[k] == found[k])
            && (forall|k: int|
            found.len() <= k < value.len() ==> field_read_between(
                src,
                i,
                next,
                #[trigger] value[k],
            )),
    decreases src.tokens.len() - i,
{
    if found.len() == 0 || crate::syntax::schema::starts_declaration(src, i) {
        lemma_field_moves(src, i);
        match field(src, i) {
            Parsed::Done { value: one, next: behind } => {
                if i < behind <= src.tokens.len() {
                    let grown = found.push(one);
                    law_each_field_is_read(src, behind, grown);
                    lemma_more_fields_move(src, behind, grown);
                    match more_fields(src, behind, grown) {
                        Parsed::Done { value, next } => {
                            assert(value[found.len() as int] == grown[found.len() as int]);
                            assert(next_of(field(src, i)) == behind);
                            assert(field_read_between(src, i, next, one));
                            assert forall|k: int| 0 <= k < found.len() implies value[k]
                                == found[k] by {
                                assert(value[k] == grown[k]);
                            }
                            assert forall|k: int|
                                found.len() <= k < value.len() implies field_read_between(
                                src,
                                i,
                                next,
                                #[trigger] value[k],
                            ) by {
                                if k > found.len() {
                                    assert(field_read_between(src, behind, next, value[k]));
                                }
                            }
                        },
                        Parsed::Failed { .. } => {},
                    }
                }
            },
            Parsed::Failed { .. } => {},
        }
    }
}

/// Every definition of a document that is read is read by the rule for
/// one definition, at an index of its own within the text.
pub proof fn law_each_definition_is_read(src: Source, i: int, found: Seq<DefinitionModel>)
    ensures
        definitions(src, i, found) matches Parsed::Done { value, next } ==> found.len()
            <= value.definitions.len() && (forall|k: int|
            0 <= k < found.len() ==> value.definitions[k] == found[k]) && (forall|k: int|
            found.len() <= k < value.definitions.len() ==> definition_read_between(
                src,
                i,
                next,
                #[trigger] value.definitions[k],
            )),
    decreases src.tokens.len() - i,
{
    if !(found.len() > 0 && crate::syntax::at_end(src, i)) && (found.len() == 0
        || crate::syntax::schema::starts_definition(src, i)) {
        law_definition_positions(src, i);
        match definition(src, i) {
            Parsed::Done { value: one, next: behind } => {
                if i < behind <= src.tokens.len() {
                    let grown = found.push(one);
                    law_each_definition_is_read(src, behind, grown);
                    lemma_definitions_end(src, behind, grown);
                    match definitions(src, behind, grown) {
                        Parsed::Done { value, next } => {
                            let list = value.definitions;
                            assert(list[found.len() as int] == grown[found.len() as int]);
                            assert(next_of(definition(src, i)) == behind);
                            assert(definition_read_between(src, i, next, one));
                            assert forall|k: int| 0 <= k < found.len() implies list[k]
                                == found[k] by {
                                assert(list[k] == grown[k]);
                            }
                            assert forall|k: int|
                                found.len() <= k < list.len() implies definition_read_between(
                                src,
                                i,
                                next,
                                #[trigger] list[k],
                            ) by {
                                if k > found.len() {
                                    assert(definition_read_between(src, behind, next, list[k]));
                                }
                            }
                        },
                        Parsed::Failed { .. } => {},
                    }
                }
            },
            Parsed::Failed { .. } => {},
        }
    }
}

/// A document ends no earlier than it began to be read.
pub proof fn lemma_definitions_end(src: Source, i: int, found: Seq<DefinitionModel>)
    ensures
        definitions(src, i, found) matches Parsed::Done { value, next } ==> i <= next,
    decreases src.tokens.len() - i,
{
    if !(found.len() > 0 && crate::syntax::at_end(src, i)) && (found.len() == 0
        || crate::syntax::schema::starts_definition(src, i)) {
        match definition(src, i) {
            Parsed::Done { value: one, next: behind } => {
                if i < behind <= src.tokens.len() {
                    lemma_definitions_end(src, behind, found.push(one));
                }
            },
            Parsed::Failed { .. } => {},
        }
    }
}

/// A definition is read only where one can begin.
pub proof fn lemma_starts(src: Source, i: int)
    ensures
        definition(src, i) is Done ==> crate::syntax::schema::starts_definition(src, i),
{
}

} // verus!

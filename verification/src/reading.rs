//! Reading what was written.
//!
//! Where tokens spell a node, as [`crate::spelling`] says, the rule for
//! that kind of node reads from them the same node, up to the places,
//! and ends where the writing ends.
use vstd::prelude::*;
use crate::common::{DirectiveModel, TypeModel, ValueModel};
use crate::spelling::{
    distinct_keys, reserved, spelled_directive, spelled_directives, spelled_entries,
    spelled_items, spelled_type, spelled_value, text_at, unplaced_directive,
    unplaced_directives,
};
use crate::syntax::common::{
    argument, directive, directives, key_index, list_items, more_arguments, more_directives,
    non_null, object_entries, parse_type, starts_string, starts_value, upsert, value,
};
use crate::schema::ast::{
    DefinitionModel, DocumentModel, FieldModel, InputValueModel, SchemaDefinitionModel,
    TypeDefinitionModel, TypeExtensionModel,
};
use crate::spelling::{
    ends_definition, spelled_definition, spelled_definitions, spelled_document, spelled_interface,
    spelled_interfaces, spelled_members, spelled_names, spelled_object, spelled_operation,
    spelled_scalar, spelled_schema, spelled_type_definition, spelled_type_extension,
    spelled_union, unplaced_definition, unplaced_definitions, unplaced_document, unplaced_schema,
    unplaced_type_definition, unplaced_type_extension,
};
use crate::syntax::schema::{
    bind, definition, definitions, description, document, head, implements_interfaces,
    interface_type, member_clause, members_of, names, object_type, operations,
    plain_type_definition, scalar_type, schema, starts_definition, type_definition,
    type_extension, unbound, union_parts, union_type, Bindings,
};
use crate::syntax::at_end;
use crate::syntax::schema::union_members;
use crate::spelling::{
    ends_declaration, spelled_arguments_definition, spelled_default, spelled_description,
    spelled_field, spelled_fields, spelled_fields_from, spelled_input_value, spelled_input_values,
    unplaced_field, unplaced_fields, unplaced_input_value, unplaced_input_values,
};
use crate::syntax::schema::{
    arguments_definition, declared, default_clause, field, fields, input_value, input_values,
    more_fields, starts_declaration, typed,
};
use crate::syntax::{at_ident, at_kind, at_punct, Parsed};
use crate::tokenizer::{Kind, Source};

verus! {

/// What the punctuators of the language are made of.
pub proof fn lemma_punctuators()
    ensures
        "!"@.len() == 1 && "!"@[0] == '!',
        "$"@.len() == 1 && "$"@[0] == '$',
        ":"@.len() == 1 && ":"@[0] == ':',
        "="@.len() == 1 && "="@[0] == '=',
        "@"@.len() == 1 && "@"@[0] == '@',
        "|"@.len() == 1 && "|"@[0] == '|',
        "("@.len() == 1 && "("@[0] == '(',
        ")"@.len() == 1 && ")"@[0] == ')',
        "["@.len() == 1 && "["@[0] == '[',
        "]"@.len() == 1 && "]"@[0] == ']',
        "{"@.len() == 1 && "{"@[0] == '{',
        "}"@.len() == 1 && "}"@[0] == '}',
        "&"@.len() == 1 && "&"@[0] == '&',
{
    reveal_strlit("!");
    reveal_strlit("$");
    reveal_strlit(":");
    reveal_strlit("=");
    reveal_strlit("@");
    reveal_strlit("|");
    reveal_strlit("(");
    reveal_strlit(")");
    reveal_strlit("[");
    reveal_strlit("]");
    reveal_strlit("{");
    reveal_strlit("}");
    reveal_strlit("&");
}

/// How the three names differ that stand for a value of their own.
pub proof fn lemma_value_words()
    ensures
        "true"@.len() == 4 && "true"@[0] == 't',
        "false"@.len() == 5,
        "null"@.len() == 4 && "null"@[0] == 'n',
{
    reveal_strlit("true");
    reveal_strlit("false");
    reveal_strlit("null");
}

/// Tokens that spell a type reference are read as that type reference,
/// if no `!` stands behind one that is not non-null.
pub proof fn lemma_type_read(src: Source, i: int, t: TypeModel)
    requires
        spelled_type(src, i, t) is Some,
        t is NonNullType || !at_punct(src, spelled_type(src, i, t)->0, "!"@),
    ensures
        parse_type(src, i) == (Parsed::Done { value: t, next: spelled_type(src, i, t)->0 }),
        i < spelled_type(src, i, t)->0 <= src.tokens.len(),
    decreases t,
{
    lemma_punctuators();
    match t {
        TypeModel::NamedType(n) => {
            assert(at_ident(src, i, n));
            assert(!at_punct(src, i, "["@));
            assert(parse_type(src, i) == non_null(src, i + 1, TypeModel::NamedType(n)));
        },
        TypeModel::ListType(inner) => {
            let j = spelled_type(src, i + 1, *inner)->0;
            assert(at_punct(src, j, "]"@));
            assert(!at_punct(src, j, "!"@));
            lemma_type_read(src, i + 1, *inner);
            assert(parse_type(src, i) == non_null(src, j + 1, TypeModel::ListType(inner)));
        },
        TypeModel::NonNullType(inner) => {
            let j = spelled_type(src, i, *inner)->0;
            assert(at_punct(src, j, "!"@));
            match *inner {
                TypeModel::NamedType(n) => {
                    assert(at_ident(src, i, n));
                    assert(!at_punct(src, i, "["@));
                    assert(parse_type(src, i) == non_null(src, i + 1, TypeModel::NamedType(n)));
                },
                TypeModel::ListType(deeper) => {
                    let k = spelled_type(src, i + 1, *deeper)->0;
                    assert(at_punct(src, k, "]"@));
                    assert(!at_punct(src, k, "!"@));
                    lemma_type_read(src, i + 1, *deeper);
                    assert(parse_type(src, i) == non_null(
                        src,
                        k + 1,
                        TypeModel::ListType(deeper),
                    ));
                },
                TypeModel::NonNullType(deeper) => {},
            }
        },
    }
}

/// Where a value is written, a value can begin, and no closing bracket
/// or brace stands.
pub proof fn lemma_value_begins(src: Source, i: int, v: ValueModel, constant: bool)
    requires
        spelled_value(src, i, v, constant) is Some,
    ensures
        starts_value(src, i, constant),
        !at_punct(src, i, "]"@),
        !at_punct(src, i, "}"@),
{
    lemma_punctuators();
}

/// A key that is not among the entries is put behind them.
pub proof fn lemma_new_key(entries: Seq<(Seq<char>, ValueModel)>, key: Seq<char>, from: int)
    requires
        0 <= from <= entries.len(),
        forall|a: int| from <= a < entries.len() ==> (#[trigger] entries[a]).0 != key,
    ensures
        key_index(entries, key, from) == entries.len(),
    decreases entries.len() - from,
{
    if from < entries.len() {
        lemma_new_key(entries, key, from + 1);
    }
}

/// Tokens that spell a value are read as that value.
pub proof fn lemma_value_read(src: Source, i: int, v: ValueModel, constant: bool)
    requires
        spelled_value(src, i, v, constant) is Some,
    ensures
        value(src, i, constant) == (Parsed::Done {
            value: v,
            next: spelled_value(src, i, v, constant)->0,
        }),
        i < spelled_value(src, i, v, constant)->0 <= src.tokens.len(),
    decreases v, 0int,
{
    lemma_punctuators();
    lemma_value_words();
    match v {
        ValueModel::List(items) => {
            let j = spelled_items(src, i + 1, items, 0, constant)->0;
            assert(at_punct(src, j, "]"@));
            lemma_items_read(src, i + 1, items, 0, constant);
            assert(items.take(0) =~= Seq::<ValueModel>::empty());
            assert(value(src, i, constant) == list_items(src, i + 1, constant, Seq::empty()));
        },
        ValueModel::Object(entries) => {
            let j = spelled_entries(src, i + 1, entries, 0, constant)->0;
            assert(at_punct(src, j, "}"@));
            lemma_entries_read(src, i + 1, entries, 0, constant);
            assert(entries.take(0) =~= Seq::<(Seq<char>, ValueModel)>::empty());
            assert(value(src, i, constant) == object_entries(src, i + 1, constant, Seq::empty()));
        },
        ValueModel::Variable(n) => {
            assert(at_punct(src, i, "$"@));
        },
        ValueModel::Int(n) => {
            assert(at_kind(src, i, Kind::IntValue));
        },
        ValueModel::Float(text) => {
            assert(at_kind(src, i, Kind::FloatValue));
        },
        ValueModel::String(text) => {
            assert(text_at(src, i, text));
            assert(starts_string(src, i));
        },
        ValueModel::Boolean(b) => {
            assert(at_kind(src, i, Kind::Name));
        },
        ValueModel::Null => {
            assert(at_kind(src, i, Kind::Name));
        },
        ValueModel::Enum(n) => {
            assert(at_kind(src, i, Kind::Name));
            assert(!reserved(n));
        },
    }
}

/// Tokens that spell the items of a list from item `k` on, with the
/// closing bracket behind them, are read as the rest of that list.
pub proof fn lemma_items_read(src: Source, i: int, items: Seq<ValueModel>, k: int, constant: bool)
    requires
        0 <= k <= items.len(),
        0 <= i,
        spelled_items(src, i, items, k, constant) is Some,
        at_punct(src, spelled_items(src, i, items, k, constant)->0, "]"@),
    ensures
        list_items(src, i, constant, items.take(k)) == (Parsed::Done {
            value: ValueModel::List(items),
            next: spelled_items(src, i, items, k, constant)->0 + 1,
        }),
        i <= spelled_items(src, i, items, k, constant)->0 < src.tokens.len(),
    decreases items, items.len() - k,
{
    lemma_punctuators();
    if k == items.len() {
        assert(items.take(k) =~= items);
    } else {
        lemma_value_begins(src, i, items[k], constant);
        lemma_value_read(src, i, items[k], constant);
        let j = spelled_value(src, i, items[k], constant)->0;
        assert(spelled_items(src, i, items, k, constant) == spelled_items(
            src,
            j,
            items,
            k + 1,
            constant,
        ));
        lemma_items_read(src, j, items, k + 1, constant);
        assert(items.take(k).push(items[k]) =~= items.take(k + 1));
    }
}

/// Tokens that spell the entries of an object from entry `k` on, with
/// the closing brace behind them, are read as the rest of that object.
pub proof fn lemma_entries_read(
    src: Source,
    i: int,
    entries: Seq<(Seq<char>, ValueModel)>,
    k: int,
    constant: bool,
)
    requires
        0 <= k <= entries.len(),
        0 <= i,
        distinct_keys(entries),
        spelled_entries(src, i, entries, k, constant) is Some,
        at_punct(src, spelled_entries(src, i, entries, k, constant)->0, "}"@),
    ensures
        object_entries(src, i, constant, entries.take(k)) == (Parsed::Done {
            value: ValueModel::Object(entries),
            next: spelled_entries(src, i, entries, k, constant)->0 + 1,
        }),
        i <= spelled_entries(src, i, entries, k, constant)->0 < src.tokens.len(),
    decreases entries, entries.len() - k,
{
    lemma_punctuators();
    if k == entries.len() {
        assert(entries.take(k) =~= entries);
    } else {
        lemma_value_read(src, i + 2, entries[k].1, constant);
        let j = spelled_value(src, i + 2, entries[k].1, constant)->0;
        assert(spelled_entries(src, i, entries, k, constant) == spelled_entries(
            src,
            j,
            entries,
            k + 1,
            constant,
        ));
        assert(at_kind(src, i, Kind::Name) && !at_punct(src, i, "}"@));
        lemma_entries_read(src, j, entries, k + 1, constant);
        let found = entries.take(k);
        assert forall|a: int| 0 <= a < found.len() implies (#[trigger] found[a]).0
            != entries[k].0 by {
            assert(found[a] == entries[a]);
        }
        lemma_new_key(found, entries[k].0, 0);
        assert(upsert(found, entries[k].0, entries[k].1) =~= entries.take(k + 1));
    }
}

/// Tokens that spell the arguments of a directive from argument `k` on,
/// with the closing parenthesis behind them, are read as the rest of
/// those arguments.
pub proof fn lemma_more_arguments_read(
    src: Source,
    i: int,
    list: Seq<(Seq<char>, ValueModel)>,
    k: int,
)
    requires
        0 <= k <= list.len(),
        list.len() > 0,
        0 <= i,
        spelled_entries(src, i, list, k, false) is Some,
        at_punct(src, spelled_entries(src, i, list, k, false)->0, ")"@),
    ensures
        more_arguments(src, i, list.take(k)) == (Parsed::Done {
            value: list,
            next: spelled_entries(src, i, list, k, false)->0 + 1,
        }),
        i <= spelled_entries(src, i, list, k, false)->0 < src.tokens.len(),
    decreases list.len() - k,
{
    lemma_punctuators();
    if k == list.len() {
        assert(list.take(k) =~= list);
    } else {
        lemma_value_read(src, i + 2, list[k].1, false);
        let j = spelled_value(src, i + 2, list[k].1, false)->0;
        assert(spelled_entries(src, i, list, k, false) == spelled_entries(src, j, list, k + 1, false));
        assert(at_kind(src, i, Kind::Name));
        assert(argument(src, i) == (Parsed::Done { value: list[k], next: j }));
        lemma_more_arguments_read(src, j, list, k + 1);
        assert(list.take(k).push(list[k]) =~= list.take(k + 1));
    }
}

/// Tokens that spell a directive are read as that directive, up to its
/// place, if no `(` stands behind one without arguments.
pub proof fn lemma_directive_read(src: Source, i: int, d: DirectiveModel)
    requires
        0 <= i,
        spelled_directive(src, i, d) is Some,
        d.arguments.len() > 0 || !at_punct(src, spelled_directive(src, i, d)->0, "("@),
    ensures
        directive(src, i) matches Parsed::Done { value, next } && next == spelled_directive(
            src,
            i,
            d,
        )->0 && unplaced_directive(value) == unplaced_directive(d),
        i < spelled_directive(src, i, d)->0 <= src.tokens.len(),
{
    lemma_punctuators();
    if d.arguments.len() > 0 {
        lemma_more_arguments_read(src, i + 3, d.arguments, 0);
        assert(d.arguments.take(0) =~= Seq::<(Seq<char>, ValueModel)>::empty());
    } else {
        assert(d.arguments =~= Seq::<(Seq<char>, ValueModel)>::empty());
    }
}

/// Tokens that spell the directives of a node are read as those
/// directives, up to their places, if neither `@` nor `(` stands behind
/// them.
pub proof fn lemma_all_directives_read(src: Source, i: int, list: Seq<DirectiveModel>)
    requires
        0 <= i,
        spelled_directives(src, i, list, 0) is Some,
        !at_punct(src, spelled_directives(src, i, list, 0)->0, "@"@),
        !at_punct(src, spelled_directives(src, i, list, 0)->0, "("@),
    ensures
        directives(src, i) matches Parsed::Done { value, next } && next == spelled_directives(
            src,
            i,
            list,
            0,
        )->0 && unplaced_directives(value) == unplaced_directives(list),
        i <= spelled_directives(src, i, list, 0)->0,
        spelled_directives(src, i, list, 0)->0 == i || spelled_directives(src, i, list, 0)->0
            <= src.tokens.len(),
        list.len() > 0 ==> at_punct(src, i, "@"@),
        list.len() == 0 ==> spelled_directives(src, i, list, 0)->0 == i,
{
    assert(unplaced_directives(Seq::<DirectiveModel>::empty()) =~= unplaced_directives(
        list.take(0),
    ));
    lemma_directives_read(src, i, list, 0, Seq::empty());
}

/// Where a field or an input value is written, one can begin.
pub proof fn lemma_declaration_begins(src: Source, i: int, text: Option<Seq<char>>, n: Seq<char>)
    requires
        spelled_description(src, i, text) is Some,
        at_ident(src, spelled_description(src, i, text)->0, n),
    ensures
        starts_declaration(src, i),
        ends_declaration(src, i),
        !at_punct(src, i, ")"@),
        !at_punct(src, i, "}"@),
        declared(src, i) == (Parsed::Done {
            value: (text, n),
            next: spelled_description(src, i, text)->0 + 1,
        }),
{
}

/// Tokens that spell an input value are read as that input value, up to
/// the places, if what stands behind them lets it end.
pub proof fn lemma_input_value_read(src: Source, i: int, x: InputValueModel)
    requires
        0 <= i,
        spelled_input_value(src, i, x) is Some,
        ends_declaration(src, spelled_input_value(src, i, x)->0),
    ensures
        input_value(src, i) matches Parsed::Done { value, next } && next == spelled_input_value(
            src,
            i,
            x,
        )->0 && unplaced_input_value(value) == unplaced_input_value(x),
        i < spelled_input_value(src, i, x)->0 <= src.tokens.len(),
{
    lemma_punctuators();
    let a = spelled_description(src, i, x.description)->0;
    lemma_declaration_begins(src, i, x.description, x.name);
    let b = spelled_type(src, a + 2, x.value_type)->0;
    let c = spelled_default(src, b, x.default_value)->0;
    let j = spelled_directives(src, c, x.directives, 0)->0;
    if x.directives.len() > 0 {
        assert(spelled_directive(src, c, x.directives[0]) is Some);
        assert(at_punct(src, c, "@"@));
    } else {
        assert(c == j);
    }
    match x.default_value {
        Some(v) => {
            lemma_value_read(src, b + 1, v, true);
            assert(at_punct(src, b, "="@));
        },
        None => {
            assert(b == c);
        },
    }
    assert(!at_punct(src, b, "!"@));
    lemma_type_read(src, a + 2, x.value_type);
    assert(typed(src, a + 1) == (Parsed::Done { value: x.value_type, next: b }));
    assert(default_clause(src, b) == (Parsed::Done { value: x.default_value, next: c }));
    lemma_all_directives_read(src, c, x.directives);
}

/// Input values that are the same up to their places stay so when each
/// list is given one more, the two being the same up to their places.
pub proof fn lemma_unplaced_input_values_push(
    a: Seq<InputValueModel>,
    b: Seq<InputValueModel>,
    x: InputValueModel,
    y: InputValueModel,
)
    requires
        unplaced_input_values(a) == unplaced_input_values(b),
        unplaced_input_value(x) == unplaced_input_value(y),
    ensures
        unplaced_input_values(a.push(x)) == unplaced_input_values(b.push(y)),
{
    assert(unplaced_input_values(a).len() == a.len());
    assert(unplaced_input_values(b).len() == b.len());
    assert(a.len() == b.len());
    assert forall|k: int| 0 <= k < a.len() + 1 implies unplaced_input_values(a.push(x))[k]
        == unplaced_input_values(b.push(y))[k] by {
        if k < a.len() {
            assert(unplaced_input_values(a)[k] == unplaced_input_value(a[k]));
            assert(unplaced_input_values(b)[k] == unplaced_input_value(b[k]));
        }
    }
    assert(unplaced_input_values(a.push(x)) =~= unplaced_input_values(b.push(y)));
}

/// Tokens that spell input values from input value `k` on, with the
/// closing parenthesis behind them, are read as the rest of those input
/// values, up to the places.
pub proof fn lemma_input_values_read(
    src: Source,
    i: int,
    list: Seq<InputValueModel>,
    k: int,
    found: Seq<InputValueModel>,
)
    requires
        0 <= k <= list.len(),
        list.len() > 0,
        0 <= i,
        found.len() == k,
        spelled_input_values(src, i, list, k) is Some,
        at_punct(src, spelled_input_values(src, i, list, k)->0, ")"@),
        unplaced_input_values(found) == unplaced_input_values(list.take(k)),
    ensures
        input_values(src, i, found) matches Parsed::Done { value, next } && next
            == spelled_input_values(src, i, list, k)->0 + 1 && unplaced_input_values(value)
            == unplaced_input_values(list),
        i <= spelled_input_values(src, i, list, k)->0 < src.tokens.len(),
    decreases list.len() - k,
{
    lemma_punctuators();
    if k == list.len() {
        assert(list.take(k) =~= list);
        assert(!starts_declaration(src, i));
    } else {
        let j = spelled_input_value(src, i, list[k])->0;
        let end = spelled_input_values(src, i, list, k)->0;
        assert(spelled_input_values(src, j, list, k + 1) == Some(end));
        let a = spelled_description(src, i, list[k].description)->0;
        lemma_declaration_begins(src, i, list[k].description, list[k].name);
        if k + 1 < list.len() {
            let next = list[k + 1];
            assert(spelled_input_value(src, j, next) is Some);
            lemma_declaration_begins(src, j, next.description, next.name);
        } else {
            assert(j == end);
        }
        lemma_input_value_read(src, i, list[k]);
        let one = input_value(src, i)->value;
        lemma_unplaced_input_values_push(found, list.take(k), one, list[k]);
        assert(list.take(k).push(list[k]) =~= list.take(k + 1));
        lemma_input_values_read(src, j, list, k + 1, found.push(one));
    }
}

/// Tokens that spell the arguments of a field are read as those
/// arguments, up to the places, if no `(` stands behind none.
pub proof fn lemma_arguments_definition_read(src: Source, i: int, list: Seq<InputValueModel>)
    requires
        0 <= i,
        spelled_arguments_definition(src, i, list) is Some,
        list.len() > 0 || !at_punct(src, i, "("@),
    ensures
        arguments_definition(src, i) matches Parsed::Done { value, next } && next
            == spelled_arguments_definition(src, i, list)->0 && unplaced_input_values(value)
            == unplaced_input_values(list),
        i <= spelled_arguments_definition(src, i, list)->0,
        spelled_arguments_definition(src, i, list)->0 == i || spelled_arguments_definition(
            src,
            i,
            list,
        )->0 <= src.tokens.len(),
{
    if list.len() > 0 {
        assert(unplaced_input_values(Seq::<InputValueModel>::empty()) =~= unplaced_input_values(
            list.take(0),
        ));
        lemma_input_values_read(src, i + 1, list, 0, Seq::empty());
    } else {
        assert(unplaced_input_values(Seq::<InputValueModel>::empty()) =~= unplaced_input_values(
            list,
        ));
    }
}

/// Tokens that spell a field are read as that field, up to the places,
/// if what stands behind them lets it end.
pub proof fn lemma_field_read(src: Source, i: int, x: FieldModel)
    requires
        0 <= i,
        spelled_field(src, i, x) is Some,
        ends_declaration(src, spelled_field(src, i, x)->0),
    ensures
        field(src, i) matches Parsed::Done { value, next } && next == spelled_field(src, i, x)->0
            && unplaced_field(value) == unplaced_field(x),
        i < spelled_field(src, i, x)->0 <= src.tokens.len(),
{
    lemma_punctuators();
    let a = spelled_description(src, i, x.description)->0;
    lemma_declaration_begins(src, i, x.description, x.name);
    let b = spelled_arguments_definition(src, a + 1, x.arguments)->0;
    assert(at_punct(src, b, ":"@));
    let c = spelled_type(src, b + 1, x.field_type)->0;
    let j = spelled_directives(src, c, x.directives, 0)->0;
    if x.directives.len() > 0 {
        assert(spelled_directive(src, c, x.directives[0]) is Some);
        assert(at_punct(src, c, "@"@));
    } else {
        assert(c == j);
    }
    lemma_arguments_definition_read(src, a + 1, x.arguments);
    assert(!at_punct(src, c, "!"@));
    lemma_type_read(src, b + 1, x.field_type);
    assert(typed(src, b) == (Parsed::Done { value: x.field_type, next: c }));
    lemma_all_directives_read(src, c, x.directives);
}

/// Fields that are the same up to their places stay so when each list is
/// given one more, the two being the same up to their places.
pub proof fn lemma_unplaced_fields_push(
    a: Seq<FieldModel>,
    b: Seq<FieldModel>,
    x: FieldModel,
    y: FieldModel,
)
    requires
        unplaced_fields(a) == unplaced_fields(b),
        unplaced_field(x) == unplaced_field(y),
    ensures
        unplaced_fields(a.push(x)) == unplaced_fields(b.push(y)),
{
    assert(unplaced_fields(a).len() == a.len());
    assert(unplaced_fields(b).len() == b.len());
    assert(a.len() == b.len());
    assert forall|k: int| 0 <= k < a.len() + 1 implies unplaced_fields(a.push(x))[k]
        == unplaced_fields(b.push(y))[k] by {
        if k < a.len() {
            assert(unplaced_fields(a)[k] == unplaced_field(a[k]));
            assert(unplaced_fields(b)[k] == unplaced_field(b[k]));
        }
    }
    assert(unplaced_fields(a.push(x)) =~= unplaced_fields(b.push(y)));
}

/// Tokens that spell fields from field `k` on, with the closing brace
/// behind them, are read as the rest of those fields, up to the places.
pub proof fn lemma_more_fields_read(
    src: Source,
    i: int,
    list: Seq<FieldModel>,
    k: int,
    found: Seq<FieldModel>,
)
    requires
        0 <= k <= list.len(),
        list.len() > 0,
        0 <= i,
        found.len() == k,
        spelled_fields_from(src, i, list, k) is Some,
        at_punct(src, spelled_fields_from(src, i, list, k)->0, "}"@),
        unplaced_fields(found) == unplaced_fields(list.take(k)),
    ensures
        more_fields(src, i, found) matches Parsed::Done { value, next } && next
            == spelled_fields_from(src, i, list, k)->0 + 1 && unplaced_fields(value)
            == unplaced_fields(list),
        i <= spelled_fields_from(src, i, list, k)->0 < src.tokens.len(),
    decreases list.len() - k,
{
    lemma_punctuators();
    if k == list.len() {
        assert(list.take(k) =~= list);
        assert(!starts_declaration(src, i));
    } else {
        let j = spelled_field(src, i, list[k])->0;
        let end = spelled_fields_from(src, i, list, k)->0;
        assert(spelled_fields_from(src, j, list, k + 1) == Some(end));
        lemma_declaration_begins(src, i, list[k].description, list[k].name);
        if k + 1 < list.len() {
            let next = list[k + 1];
            assert(spelled_field(src, j, next) is Some);
            lemma_declaration_begins(src, j, next.description, next.name);
        } else {
            assert(j == end);
        }
        lemma_field_read(src, i, list[k]);
        let one = field(src, i)->value;
        lemma_unplaced_fields_push(found, list.take(k), one, list[k]);
        assert(list.take(k).push(list[k]) =~= list.take(k + 1));
        lemma_more_fields_read(src, j, list, k + 1, found.push(one));
    }
}

/// Tokens that spell a block of fields are read as those fields, up to
/// the places, if no `{` stands behind none.
pub proof fn lemma_fields_read(src: Source, i: int, list: Seq<FieldModel>)
    requires
        0 <= i,
        spelled_fields(src, i, list) is Some,
        list.len() > 0 || !at_punct(src, i, "{"@),
    ensures
        fields(src, i) matches Parsed::Done { value, next } && next == spelled_fields(
            src,
            i,
            list,
        )->0 && unplaced_fields(value) == unplaced_fields(list),
        i <= spelled_fields(src, i, list)->0,
        spelled_fields(src, i, list)->0 == i || spelled_fields(src, i, list)->0
            <= src.tokens.len(),
{
    if list.len() > 0 {
        assert(unplaced_fields(Seq::<FieldModel>::empty()) =~= unplaced_fields(list.take(0)));
        lemma_more_fields_read(src, i + 1, list, 0, Seq::empty());
    } else {
        assert(unplaced_fields(Seq::<FieldModel>::empty()) =~= unplaced_fields(list));
    }
}

/// Directives that are the same up to their places stay so when each
/// list is given one more, the two being the same up to their places.
pub proof fn lemma_unplaced_directives_push(
    a: Seq<DirectiveModel>,
    b: Seq<DirectiveModel>,
    x: DirectiveModel,
    y: DirectiveModel,
)
    requires
        unplaced_directives(a) == unplaced_directives(b),
        unplaced_directive(x) == unplaced_directive(y),
    ensures
        unplaced_directives(a.push(x)) == unplaced_directives(b.push(y)),
{
    assert(unplaced_directives(a).len() == a.len());
    assert(unplaced_directives(b).len() == b.len());
    assert(a.len() == b.len());
    assert forall|k: int| 0 <= k < a.len() + 1 implies unplaced_directives(a.push(x))[k]
        == unplaced_directives(b.push(y))[k] by {
        if k < a.len() {
            assert(unplaced_directives(a)[k] == unplaced_directive(a[k]));
            assert(unplaced_directives(b)[k] == unplaced_directive(b[k]));
        }
    }
    assert(unplaced_directives(a.push(x)) =~= unplaced_directives(b.push(y)));
}

/// Tokens that spell directives from directive `k` on are read as the
/// rest of those directives, up to their places, if neither `@` nor `(`
/// stands behind them.
pub proof fn lemma_directives_read(
    src: Source,
    i: int,
    list: Seq<DirectiveModel>,
    k: int,
    found: Seq<DirectiveModel>,
)
    requires
        0 <= k <= list.len(),
        0 <= i,
        spelled_directives(src, i, list, k) is Some,
        !at_punct(src, spelled_directives(src, i, list, k)->0, "@"@),
        !at_punct(src, spelled_directives(src, i, list, k)->0, "("@),
        unplaced_directives(found) == unplaced_directives(list.take(k)),
    ensures
        more_directives(src, i, found) matches Parsed::Done { value, next } && next
            == spelled_directives(src, i, list, k)->0 && unplaced_directives(value)
            == unplaced_directives(list),
        i <= spelled_directives(src, i, list, k)->0,
        spelled_directives(src, i, list, k)->0 == i || spelled_directives(src, i, list, k)->0
            <= src.tokens.len(),
    decreases list.len() - k,
{
    lemma_punctuators();
    if k == list.len() {
        assert(list.take(k) =~= list);
    } else {
        let j = spelled_directive(src, i, list[k])->0;
        let end = spelled_directives(src, i, list, k)->0;
        assert(spelled_directives(src, j, list, k + 1) == Some(end));
        if k + 1 < list.len() {
            assert(spelled_directive(src, j, list[k + 1]) is Some);
            assert(at_punct(src, j, "@"@));
        } else {
            assert(j == end);
        }
        assert(!at_punct(src, j, "("@));
        lemma_directive_read(src, i, list[k]);
        let one = directive(src, i)->value;
        lemma_unplaced_directives_push(found, list.take(k), one, list[k]);
        assert(list.take(k).push(list[k]) =~= list.take(k + 1));
        lemma_directives_read(src, j, list, k + 1, found.push(one));
    }
}

/// How the keywords of the language differ.
pub proof fn lemma_keywords()
    ensures
        "schema"@.len() == 6 && "schema"@[0] == 's' && "schema"@[2] == 'h',
        "scalar"@.len() == 6 && "scalar"@[0] == 's' && "scalar"@[2] == 'a',
        "extend"@.len() == 6 && "extend"@[0] == 'e',
        "type"@.len() == 4,
        "interface"@.len() == 9,
        "union"@.len() == 5,
        "implements"@.len() == 10,
        "query"@.len() == 5,
        "mutation"@.len() == 8,
        "subscription"@.len() == 12,
{
    reveal_strlit("schema");
    reveal_strlit("scalar");
    reveal_strlit("extend");
    reveal_strlit("type");
    reveal_strlit("interface");
    reveal_strlit("union");
    reveal_strlit("implements");
    reveal_strlit("query");
    reveal_strlit("mutation");
    reveal_strlit("subscription");
}

/// Tokens that spell names with a separator between them, from name `k`
/// on, are read as the rest of those names, if no separator stands
/// behind them.
pub proof fn lemma_names_read(
    src: Source,
    i: int,
    list: Seq<Seq<char>>,
    k: int,
    separator: Seq<char>,
)
    requires
        0 <= k < list.len(),
        0 <= i,
        spelled_names(src, i, list, k, separator) is Some,
        !at_punct(src, spelled_names(src, i, list, k, separator)->0, separator),
    ensures
        names(src, i, separator, list.take(k)) == (Parsed::Done {
            value: list,
            next: spelled_names(src, i, list, k, separator)->0,
        }),
        i < spelled_names(src, i, list, k, separator)->0 <= src.tokens.len(),
    decreases list.len() - k,
{
    let j = spelled_names(src, i, list, k, separator)->0;
    assert(at_ident(src, i, list[k]));
    assert(list.take(k).push(list[k]) =~= list.take(k + 1));
    if k + 1 < list.len() {
        assert(at_punct(src, i + 1, separator));
        assert(spelled_names(src, i + 2, list, k + 1, separator) == Some(j));
        lemma_names_read(src, i + 2, list, k + 1, separator);
    } else {
        assert(j == i + 1);
        assert(list.take(k + 1) =~= list);
    }
}

/// Tokens that spell the interfaces of an object are read as those
/// interfaces, if no `&` stands behind them and `implements` does not
/// stand where there are none.
pub proof fn lemma_interfaces_read(src: Source, i: int, list: Seq<Seq<char>>)
    requires
        0 <= i,
        spelled_interfaces(src, i, list) is Some,
        list.len() > 0 ==> !at_punct(src, spelled_interfaces(src, i, list)->0, "&"@),
        list.len() == 0 ==> !at_ident(src, i, "implements"@),
    ensures
        implements_interfaces(src, i) == (Parsed::Done {
            value: list,
            next: spelled_interfaces(src, i, list)->0,
        }),
        i <= spelled_interfaces(src, i, list)->0,
        spelled_interfaces(src, i, list)->0 == i || spelled_interfaces(src, i, list)->0
            <= src.tokens.len(),
        list.len() > 0 ==> at_ident(src, i, "implements"@),
        list.len() == 0 ==> spelled_interfaces(src, i, list)->0 == i,
{
    lemma_punctuators();
    if list.len() > 0 {
        assert(at_ident(src, i + 1, list[0]));
        assert(!at_punct(src, i + 1, "&"@));
        lemma_names_read(src, i + 1, list, 0, "&"@);
        assert(list.take(0) =~= Seq::<Seq<char>>::empty());
    } else {
        assert(list =~= Seq::<Seq<char>>::empty());
    }
}

/// A leading `&` changes nothing. Where `implements` and `&` stand in
/// front of names with `&` between them, the interfaces that are read are
/// those names, as they are without the leading `&`.
pub proof fn law_leading_ampersand_is_skipped(src: Source, i: int, list: Seq<Seq<char>>)
    requires
        0 <= i,
        at_ident(src, i, "implements"@),
        at_punct(src, i + 1, "&"@),
        spelled_names(src, i + 2, list, 0, "&"@) is Some,
        !at_punct(src, spelled_names(src, i + 2, list, 0, "&"@)->0, "&"@),
    ensures
        implements_interfaces(src, i) == (Parsed::Done {
            value: list,
            next: spelled_names(src, i + 2, list, 0, "&"@)->0,
        }),
{
    lemma_names_read(src, i + 2, list, 0, "&"@);
    assert(list.take(0) =~= Seq::<Seq<char>>::empty());
}

/// A leading `|` changes nothing. Where `|` stands in front of names with
/// `|` between them, the members that are read are those names, as they
/// are without the leading `|`.
pub proof fn law_leading_bar_is_skipped(src: Source, i: int, list: Seq<Seq<char>>)
    requires
        0 <= i,
        at_punct(src, i, "|"@),
        spelled_names(src, i + 1, list, 0, "|"@) is Some,
        !at_punct(src, spelled_names(src, i + 1, list, 0, "|"@)->0, "|"@),
    ensures
        union_members(src, i) == (Parsed::Done {
            value: list,
            next: spelled_names(src, i + 1, list, 0, "|"@)->0,
        }),
{
    lemma_names_read(src, i + 1, list, 0, "|"@);
    assert(list.take(0) =~= Seq::<Seq<char>>::empty());
}

/// Tokens that spell the members of a union are read as those members,
/// if no `|` stands behind them and `=` does not stand where there are
/// none.
pub proof fn lemma_members_read(src: Source, i: int, list: Seq<Seq<char>>)
    requires
        0 <= i,
        spelled_members(src, i, list) is Some,
        list.len() > 0 ==> !at_punct(src, spelled_members(src, i, list)->0, "|"@),
        list.len() == 0 ==> !at_punct(src, i, "="@),
    ensures
        member_clause(src, i) matches Parsed::Done { value, next } && next == spelled_members(
            src,
            i,
            list,
        )->0 && members_of(value) == list && (value is Some <==> list.len() > 0),
        i <= spelled_members(src, i, list)->0,
        spelled_members(src, i, list)->0 == i || spelled_members(src, i, list)->0
            <= src.tokens.len(),
        list.len() > 0 ==> at_punct(src, i, "="@),
        list.len() == 0 ==> spelled_members(src, i, list)->0 == i,
{
    lemma_punctuators();
    if list.len() > 0 {
        assert(at_ident(src, i + 1, list[0]));
        assert(!at_punct(src, i + 1, "|"@));
        lemma_names_read(src, i + 1, list, 0, "|"@);
        assert(list.take(0) =~= Seq::<Seq<char>>::empty());
    } else {
        assert(list =~= Seq::<Seq<char>>::empty());
    }
}

/// Tokens that spell a scalar are read as that scalar, without a
/// description and up to the places, if neither `@` nor `(` stands
/// behind them.
pub proof fn lemma_scalar_read(src: Source, i: int, n: Seq<char>, list: Seq<DirectiveModel>)
    requires
        0 <= i,
        spelled_scalar(src, i, n, list) is Some,
        !at_punct(src, spelled_scalar(src, i, n, list)->0, "@"@),
        !at_punct(src, spelled_scalar(src, i, n, list)->0, "("@),
    ensures
        scalar_type(src, i) matches Parsed::Done { value, next } && next == spelled_scalar(
            src,
            i,
            n,
            list,
        )->0 && value.name == n && value.description is None && unplaced_directives(
            value.directives,
        ) == unplaced_directives(list) && value.directives.len() == list.len(),
        i < spelled_scalar(src, i, n, list)->0 <= src.tokens.len(),
{
    lemma_all_directives_read(src, i + 2, list);
    assert(head(src, i, "scalar"@) == (Parsed::Done { value: n, next: i + 2 }));
    let read = directives(src, i + 2)->value;
    assert(unplaced_directives(read).len() == read.len());
    assert(unplaced_directives(list).len() == list.len());
}

/// Tokens that spell an object are read as that object, without a
/// description and up to the places, if what stands behind them lets it
/// end.
pub proof fn lemma_object_read(
    src: Source,
    i: int,
    n: Seq<char>,
    interfaces: Seq<Seq<char>>,
    list: Seq<DirectiveModel>,
    block: Seq<FieldModel>,
)
    requires
        0 <= i,
        spelled_object(src, i, n, interfaces, list, block) is Some,
        ends_definition(src, spelled_object(src, i, n, interfaces, list, block)->0),
    ensures
        object_type(src, i) matches Parsed::Done { value, next } && next == spelled_object(
            src,
            i,
            n,
            interfaces,
            list,
            block,
        )->0 && value.name == n && value.description is None && value.implements_interfaces
            == interfaces && unplaced_directives(value.directives) == unplaced_directives(list)
            && unplaced_fields(value.fields) == unplaced_fields(block) && value.directives.len()
            == list.len() && value.fields.len() == block.len(),
        i < spelled_object(src, i, n, interfaces, list, block)->0 <= src.tokens.len(),
{
    lemma_punctuators();
    lemma_keywords();
    let a = spelled_interfaces(src, i + 2, interfaces)->0;
    let b = spelled_directives(src, a, list, 0)->0;
    let j = spelled_fields(src, b, block)->0;
    if block.len() > 0 {
        assert(at_punct(src, b, "{"@));
    } else {
        assert(b == j);
    }
    if list.len() > 0 {
        assert(spelled_directive(src, a, list[0]) is Some);
        assert(at_punct(src, a, "@"@));
    } else {
        assert(a == b);
    }
    assert(!at_punct(src, a, "&"@));
    assert(!at_ident(src, a, "implements"@));
    lemma_interfaces_read(src, i + 2, interfaces);
    lemma_all_directives_read(src, a, list);
    lemma_fields_read(src, b, block);
    assert(head(src, i, "type"@) == (Parsed::Done { value: n, next: i + 2 }));
    let read = directives(src, a)->value;
    assert(unplaced_directives(read).len() == read.len());
    assert(unplaced_directives(list).len() == list.len());
    let got = fields(src, b)->value;
    assert(unplaced_fields(got).len() == got.len());
    assert(unplaced_fields(block).len() == block.len());
}

/// Tokens that spell an interface are read as that interface, without a
/// description and up to the places, if what stands behind them lets it
/// end.
pub proof fn lemma_interface_read(
    src: Source,
    i: int,
    n: Seq<char>,
    list: Seq<DirectiveModel>,
    block: Seq<FieldModel>,
)
    requires
        0 <= i,
        spelled_interface(src, i, n, list, block) is Some,
        ends_definition(src, spelled_interface(src, i, n, list, block)->0),
    ensures
        interface_type(src, i) matches Parsed::Done { value, next } && next == spelled_interface(
            src,
            i,
            n,
            list,
            block,
        )->0 && value.name == n && value.description is None && unplaced_directives(
            value.directives,
        ) == unplaced_directives(list) && unplaced_fields(value.fields) == unplaced_fields(block)
            && value.directives.len() == list.len() && value.fields.len() == block.len(),
        i < spelled_interface(src, i, n, list, block)->0 <= src.tokens.len(),
{
    lemma_punctuators();
    lemma_keywords();
    let b = spelled_directives(src, i + 2, list, 0)->0;
    let j = spelled_fields(src, b, block)->0;
    if block.len() > 0 {
        assert(at_punct(src, b, "{"@));
    } else {
        assert(b == j);
    }
    lemma_all_directives_read(src, i + 2, list);
    lemma_fields_read(src, b, block);
    assert(head(src, i, "interface"@) == (Parsed::Done { value: n, next: i + 2 }));
    let read = directives(src, i + 2)->value;
    assert(unplaced_directives(read).len() == read.len());
    assert(unplaced_directives(list).len() == list.len());
    let got = fields(src, b)->value;
    assert(unplaced_fields(got).len() == got.len());
    assert(unplaced_fields(block).len() == block.len());
}

/// Tokens that spell a union are read as the parts of that union, up to
/// the places, if what stands behind them lets it end.
pub proof fn lemma_union_read(
    src: Source,
    i: int,
    n: Seq<char>,
    list: Seq<DirectiveModel>,
    members: Seq<Seq<char>>,
)
    requires
        0 <= i,
        spelled_union(src, i, n, list, members) is Some,
        ends_definition(src, spelled_union(src, i, n, list, members)->0),
    ensures
        union_parts(src, i) matches Parsed::Done { value, next } && next == spelled_union(
            src,
            i,
            n,
            list,
            members,
        )->0 && value.0 == n && unplaced_directives(value.1) == unplaced_directives(list)
            && value.1.len() == list.len() && members_of(value.2) == members && (value.2 is Some
            <==> members.len() > 0),
        i < spelled_union(src, i, n, list, members)->0 <= src.tokens.len(),
{
    lemma_punctuators();
    lemma_keywords();
    let b = spelled_directives(src, i + 2, list, 0)->0;
    let j = spelled_members(src, b, members)->0;
    if members.len() > 0 {
        assert(at_punct(src, b, "="@));
    } else {
        assert(b == j);
    }
    lemma_all_directives_read(src, i + 2, list);
    lemma_members_read(src, b, members);
    assert(head(src, i, "union"@) == (Parsed::Done { value: n, next: i + 2 }));
    let read = directives(src, i + 2)->value;
    assert(unplaced_directives(read).len() == read.len());
    assert(unplaced_directives(list).len() == list.len());
}

/// Where a definition is written, one can begin, and no other can go on.
pub proof fn lemma_definition_begins(src: Source, i: int, d: DefinitionModel)
    requires
        spelled_definition(src, i, d) is Some,
    ensures
        starts_definition(src, i),
        ends_definition(src, i),
        0 <= i < src.tokens.len(),
{
    lemma_punctuators();
    lemma_keywords();
    match d {
        DefinitionModel::SchemaDefinition(x) => {
            assert(at_ident(src, i, "schema"@));
        },
        DefinitionModel::TypeExtension(x) => {
            assert(at_ident(src, i, "extend"@));
        },
        DefinitionModel::TypeDefinition(x) => {
            match x {
                TypeDefinitionModel::Scalar(t) => {
                    assert(t.description is Some ==> starts_string(src, i));
                    assert(t.description is None ==> at_ident(src, i, "scalar"@));
                },
                TypeDefinitionModel::Object(t) => {
                    assert(t.description is Some ==> starts_string(src, i));
                    assert(t.description is None ==> at_ident(src, i, "type"@));
                },
                TypeDefinitionModel::Interface(t) => {
                    assert(t.description is Some ==> starts_string(src, i));
                    assert(t.description is None ==> at_ident(src, i, "interface"@));
                },
                TypeDefinitionModel::Union(t) => {
                    assert(t.description is Some ==> starts_string(src, i));
                    assert(t.description is None ==> at_ident(src, i, "union"@));
                },
                TypeDefinitionModel::Enum(t) => {},
                TypeDefinitionModel::InputObject(t) => {},
            }
        },
    }
}

/// Tokens that spell the definition of a type are read as that
/// definition, up to the places, if what stands behind them lets it end.
pub proof fn lemma_type_definition_read(src: Source, i: int, def: TypeDefinitionModel)
    requires
        0 <= i,
        spelled_type_definition(src, i, def) is Some,
        ends_definition(src, spelled_type_definition(src, i, def)->0),
    ensures
        type_definition(src, i) matches Parsed::Done { value, next } && next
            == spelled_type_definition(src, i, def)->0 && unplaced_type_definition(value)
            == unplaced_type_definition(def),
        i < spelled_type_definition(src, i, def)->0 <= src.tokens.len(),
{
    lemma_punctuators();
    lemma_keywords();
    match def {
        TypeDefinitionModel::Scalar(t) => {
            let a = spelled_description(src, i, t.description)->0;
            assert(at_ident(src, a, "scalar"@));
            assert(description(src, i) == (Parsed::Done { value: t.description, next: a }));
            lemma_scalar_read(src, a, t.name, t.directives);
            let read = scalar_type(src, a)->value;
            assert(plain_type_definition(src, a) == (Parsed::Done {
                value: TypeDefinitionModel::Scalar(read),
                next: spelled_type_definition(src, i, def)->0,
            }));
        },
        TypeDefinitionModel::Object(t) => {
            let a = spelled_description(src, i, t.description)->0;
            assert(at_ident(src, a, "type"@));
            assert(description(src, i) == (Parsed::Done { value: t.description, next: a }));
            lemma_object_read(src, a, t.name, t.implements_interfaces, t.directives, t.fields);
            let read = object_type(src, a)->value;
            assert(plain_type_definition(src, a) == (Parsed::Done {
                value: TypeDefinitionModel::Object(read),
                next: spelled_type_definition(src, i, def)->0,
            }));
        },
        TypeDefinitionModel::Interface(t) => {
            let a = spelled_description(src, i, t.description)->0;
            assert(at_ident(src, a, "interface"@));
            assert(description(src, i) == (Parsed::Done { value: t.description, next: a }));
            lemma_interface_read(src, a, t.name, t.directives, t.fields);
            let read = interface_type(src, a)->value;
            assert(plain_type_definition(src, a) == (Parsed::Done {
                value: TypeDefinitionModel::Interface(read),
                next: spelled_type_definition(src, i, def)->0,
            }));
        },
        TypeDefinitionModel::Union(t) => {
            let a = spelled_description(src, i, t.description)->0;
            assert(at_ident(src, a, "union"@));
            assert(description(src, i) == (Parsed::Done { value: t.description, next: a }));
            lemma_union_read(src, a, t.name, t.directives, t.types);
            let read = union_type(src, a)->value;
            assert(plain_type_definition(src, a) == (Parsed::Done {
                value: TypeDefinitionModel::Union(read),
                next: spelled_type_definition(src, i, def)->0,
            }));
        },
        TypeDefinitionModel::Enum(t) => {},
        TypeDefinitionModel::InputObject(t) => {},
    }
}

/// Tokens that spell the extension of a type are read as that
/// extension, up to the places, if what stands behind them lets it end.
pub proof fn lemma_type_extension_read(src: Source, i: int, ext: TypeExtensionModel)
    requires
        0 <= i,
        spelled_type_extension(src, i, ext) is Some,
        ends_definition(src, spelled_type_extension(src, i, ext)->0),
    ensures
        type_extension(src, i) matches Parsed::Done { value, next } && next
            == spelled_type_extension(src, i, ext)->0 && unplaced_type_extension(value)
            == unplaced_type_extension(ext),
        i < spelled_type_extension(src, i, ext)->0 <= src.tokens.len(),
{
    lemma_punctuators();
    lemma_keywords();
    match ext {
        TypeExtensionModel::Scalar(t) => {
            assert(at_ident(src, i + 1, "scalar"@));
            lemma_scalar_read(src, i + 1, t.name, t.directives);
        },
        TypeExtensionModel::Object(t) => {
            assert(at_ident(src, i + 1, "type"@));
            lemma_object_read(src, i + 1, t.name, t.implements_interfaces, t.directives, t.fields);
        },
        TypeExtensionModel::Interface(t) => {
            assert(at_ident(src, i + 1, "interface"@));
            lemma_interface_read(src, i + 1, t.name, t.directives, t.fields);
        },
        TypeExtensionModel::Union(t) => {
            assert(at_ident(src, i + 1, "union"@));
            lemma_union_read(src, i + 1, t.name, t.directives, t.types);
        },
    }
}

/// One operation of a `schema` block that is written is bound as it is
/// written.
pub proof fn lemma_operation_read(
    src: Source,
    start: int,
    list: Seq<DirectiveModel>,
    i: int,
    state: Bindings,
    word: Seq<char>,
    bound: Option<Seq<char>>,
)
    requires
        spelled_operation(src, i, word, bound) is Some,
    ensures
        match bound {
            Some(n) => operations(src, start, list, i, state) == operations(
                src,
                start,
                list,
                i + 3,
                bind(state, src.tokens[i], n),
            ) && spelled_operation(src, i, word, bound)->0 == i + 3 && src.tokens[i].value
                == word,
            None => spelled_operation(src, i, word, bound)->0 == i,
        },
{
}

/// Tokens that spell a `schema` block are read as that block, up to the
/// places.
pub proof fn lemma_schema_read(src: Source, i: int, x: SchemaDefinitionModel)
    requires
        0 <= i,
        spelled_schema(src, i, x) is Some,
    ensures
        schema(src, i) matches Parsed::Done { value, next } && next == spelled_schema(
            src,
            i,
            x,
        )->0 && unplaced_schema(value) == unplaced_schema(x),
        i < spelled_schema(src, i, x)->0 <= src.tokens.len(),
{
    lemma_punctuators();
    lemma_keywords();
    assert(at_punct(src, i + 1, "{"@));
    let a = spelled_directives(src, i + 2, x.directives, 0)->0;
    let b = spelled_operation(src, a, "query"@, x.query)->0;
    let c = spelled_operation(src, b, "mutation"@, x.mutation)->0;
    let d = spelled_operation(src, c, "subscription"@, x.subscription)->0;
    assert(at_punct(src, d, "}"@));
    if x.query is Some {
        assert(at_kind(src, a, Kind::Name));
    } else if x.mutation is Some {
        assert(a == b);
        assert(at_kind(src, a, Kind::Name));
    } else if x.subscription is Some {
        assert(a == c);
        assert(at_kind(src, a, Kind::Name));
    } else {
        assert(a == d);
    }
    assert(!at_punct(src, a, "@"@));
    assert(!at_punct(src, a, "("@));
    lemma_all_directives_read(src, i + 2, x.directives);
    let list = directives(src, i + 2)->value;
    let s0 = unbound();
    lemma_operation_read(src, i, list, a, s0, "query"@, x.query);
    let s1 = Bindings { query: x.query, ..s0 };
    assert(operations(src, i, list, a, s0) == operations(src, i, list, b, s1));
    lemma_operation_read(src, i, list, b, s1, "mutation"@, x.mutation);
    let s2 = Bindings { mutation: x.mutation, ..s1 };
    assert(operations(src, i, list, b, s1) == operations(src, i, list, c, s2));
    lemma_operation_read(src, i, list, c, s2, "subscription"@, x.subscription);
    let s3 = Bindings { subscription: x.subscription, ..s2 };
    assert(operations(src, i, list, c, s2) == operations(src, i, list, d, s3));
    assert(!at_kind(src, d, Kind::Name));
    assert(schema(src, i) == operations(src, i, list, a, s0));
}

/// Tokens that spell a definition are read as that definition, up to the
/// places, if what stands behind them lets it end.
pub proof fn lemma_definition_read(src: Source, i: int, d: DefinitionModel)
    requires
        0 <= i,
        spelled_definition(src, i, d) is Some,
        ends_definition(src, spelled_definition(src, i, d)->0),
    ensures
        definition(src, i) matches Parsed::Done { value, next } && next == spelled_definition(
            src,
            i,
            d,
        )->0 && unplaced_definition(value) == unplaced_definition(d),
        i < spelled_definition(src, i, d)->0 <= src.tokens.len(),
{
    lemma_punctuators();
    lemma_keywords();
    lemma_definition_begins(src, i, d);
    match d {
        DefinitionModel::SchemaDefinition(x) => {
            assert(at_ident(src, i, "schema"@));
            lemma_schema_read(src, i, x);
        },
        DefinitionModel::TypeExtension(x) => {
            assert(at_ident(src, i, "extend"@));
            lemma_type_extension_read(src, i, x);
        },
        DefinitionModel::TypeDefinition(x) => {
            assert(!at_ident(src, i, "schema"@));
            assert(!at_ident(src, i, "extend"@));
            lemma_type_definition_read(src, i, x);
        },
    }
}

/// Definitions that are the same up to their places stay so when each
/// list is given one more, the two being the same up to their places.
pub proof fn lemma_unplaced_definitions_push(
    a: Seq<DefinitionModel>,
    b: Seq<DefinitionModel>,
    x: DefinitionModel,
    y: DefinitionModel,
)
    requires
        unplaced_definitions(a) == unplaced_definitions(b),
        unplaced_definition(x) == unplaced_definition(y),
    ensures
        unplaced_definitions(a.push(x)) == unplaced_definitions(b.push(y)),
{
    assert(unplaced_definitions(a).len() == a.len());
    assert(unplaced_definitions(b).len() == b.len());
    assert(a.len() == b.len());
    assert forall|k: int| 0 <= k < a.len() + 1 implies unplaced_definitions(a.push(x))[k]
        == unplaced_definitions(b.push(y))[k] by {
        if k < a.len() {
            assert(unplaced_definitions(a)[k] == unplaced_definition(a[k]));
            assert(unplaced_definitions(b)[k] == unplaced_definition(b[k]));
        }
    }
    assert(unplaced_definitions(a.push(x)) =~= unplaced_definitions(b.push(y)));
}

/// Tokens that spell definitions from definition `k` on, up to the end
/// of the text, are read as the rest of a document of those definitions,
/// up to the places.
pub proof fn lemma_definitions_read(
    src: Source,
    i: int,
    list: Seq<DefinitionModel>,
    k: int,
    found: Seq<DefinitionModel>,
)
    requires
        0 <= k <= list.len(),
        list.len() > 0,
        0 <= i,
        found.len() == k,
        src.fault is None,
        spelled_definitions(src, i, list, k) == Some(src.tokens.len() as int),
        unplaced_definitions(found) == unplaced_definitions(list.take(k)),
    ensures
        definitions(src, i, found) matches Parsed::Done { value, next } && next
            == src.tokens.len() && unplaced_definitions(value.definitions) == unplaced_definitions(
            list,
        ),
    decreases list.len() - k,
{
    if k == list.len() {
        assert(list.take(k) =~= list);
        assert(at_end(src, i));
    } else {
        let j = spelled_definition(src, i, list[k])->0;
        assert(spelled_definitions(src, j, list, k + 1) == Some(src.tokens.len() as int));
        lemma_definition_begins(src, i, list[k]);
        if k + 1 < list.len() {
            assert(spelled_definition(src, j, list[k + 1]) is Some);
            lemma_definition_begins(src, j, list[k + 1]);
        } else {
            assert(j == src.tokens.len());
        }
        lemma_definition_read(src, i, list[k]);
        let one = definition(src, i)->value;
        lemma_unplaced_definitions_push(found, list.take(k), one, list[k]);
        assert(list.take(k).push(list[k]) =~= list.take(k + 1));
        lemma_definitions_read(src, j, list, k + 1, found.push(one));
    }
}

/// What was written is read again as it was. Where the tokens of a text
/// spell a document, the text is read as a document, and that document
/// is the one that was written, up to the places: it holds as many
/// definitions, each the same but for where it stands.
pub proof fn law_written_documents_are_read(src: Source, doc: DocumentModel)
    requires
        spelled_document(src, doc),
    ensures
        document(src) matches Parsed::Done { value, next } && next == src.tokens.len()
            && unplaced_document(value) == unplaced_document(doc) && value.definitions.len()
            == doc.definitions.len(),
{
    assert(unplaced_definitions(Seq::<DefinitionModel>::empty()) =~= unplaced_definitions(
        doc.definitions.take(0),
    ));
    lemma_definitions_read(src, 0, doc.definitions, 0, Seq::empty());
    let read = document(src)->value;
    assert(unplaced_definitions(read.definitions).len() == read.definitions.len());
    assert(unplaced_definitions(doc.definitions).len() == doc.definitions.len());
}

} // verus!

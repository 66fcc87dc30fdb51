//! Writing a document down.
//!
//! [`written_document`] gives, for a document, tokens that spell it. With
//! [`crate::reading`] this closes the circle: what the grammar reads can
//! be written down, and what is written down is read as it was. The
//! writing is a mathematical function: it says what a printer has to
//! give, and is none itself.
use vstd::prelude::*;
use crate::common::{DirectiveModel, TypeModel, ValueModel};
use crate::lexical::is_digit;
use crate::position::Pos;
use crate::reading::law_written_documents_are_read;
use crate::schema::ast::{
    DefinitionModel, DocumentModel, FieldModel, InputValueModel, SchemaDefinitionModel,
    TypeDefinitionModel, TypeExtensionModel,
};
use crate::shape::{
    law_read_documents_are_plain, plain_definition, plain_definitions, plain_directives,
    plain_document, plain_entries, plain_field, plain_fields, plain_input_value,
    plain_input_values, plain_items, plain_type, plain_type_definition, plain_type_extension,
    plain_value,
};
use crate::spelling::{
    spelled_definition, spelled_definitions, spelled_description, spelled_directive,
    spelled_directives, spelled_document, spelled_entries, spelled_field, spelled_fields,
    spelled_fields_from, spelled_input_value, spelled_input_values, spelled_interface,
    spelled_interfaces, spelled_items, spelled_members, spelled_names, spelled_object,
    spelled_operation, spelled_scalar, spelled_schema, spelled_type, spelled_type_definition,
    spelled_type_extension, spelled_union, spelled_value, text_at, unplaced_document,
};
use crate::syntax::common::{all_digits, digits_value, escape_of, integer_of, unescape, unquote};
use crate::syntax::schema::document;
use crate::syntax::Parsed;
use crate::tokenizer::{Kind, Source, TokenModel};

verus! {

/// The name `n` as a token.
pub open spec fn word(n: Seq<char>) -> TokenModel {
    TokenModel { kind: Kind::Name, value: n, position: Pos::origin() }
}

/// The punctuator `p` as a token.
pub open spec fn mark(p: Seq<char>) -> TokenModel {
    TokenModel { kind: Kind::Punctuator, value: p, position: Pos::origin() }
}

/// The characters of `s` from index `k` on, with a backslash in front of
/// every quote and every backslash, and a backslash and `n` for every
/// line feed.
pub open spec fn escaped(s: Seq<char>, k: int) -> Seq<char>
    decreases s.len() - k,
{
    if k < 0 || k >= s.len() {
        Seq::empty()
    } else if s[k] == '"' || s[k] == '\\' {
        seq!['\\', s[k]] + escaped(s, k + 1)
    } else if s[k] == '\n' {
        seq!['\\', 'n'] + escaped(s, k + 1)
    } else {
        seq![s[k]] + escaped(s, k + 1)
    }
}

/// The text `s` in quotes.
pub open spec fn quoted(s: Seq<char>) -> Seq<char> {
    seq!['"'] + escaped(s, 0) + seq!['"']
}

/// The text `s` as a string token.
pub open spec fn text(s: Seq<char>) -> TokenModel {
    TokenModel { kind: Kind::StringValue, value: quoted(s), position: Pos::origin() }
}

/// The digit that stands for `d`.
pub open spec fn digit_of(d: int) -> char {
    ('0' as int + d) as char
}

/// The number `n` in base ten.
pub open spec fn digits(n: int) -> Seq<char>
    decreases n,
{
    if n < 10 {
        seq![digit_of(n)]
    } else {
        digits(n / 10).push(digit_of(n % 10))
    }
}

/// The integer `n` as it is written: a minus sign in front of a negative
/// one.
pub open spec fn numeral(n: i64) -> Seq<char> {
    if n < 0 {
        seq!['-'] + digits(-(n as int))
    } else {
        digits(n as int)
    }
}

/// The integer `n` as a token.
pub open spec fn number(n: i64) -> TokenModel {
    TokenModel { kind: Kind::IntValue, value: numeral(n), position: Pos::origin() }
}

/// The token without its place.
pub open spec fn bare(t: TokenModel) -> TokenModel {
    TokenModel { position: Pos::origin(), ..t }
}

/// The tokens without their places.
pub open spec fn bare_tokens(toks: Seq<TokenModel>) -> Seq<TokenModel> {
    toks.map_values(|t: TokenModel| bare(t))
}

/// Whether the tokens `toks` stand in `src` from index `i` on, wherever
/// in the text they stand.
pub open spec fn shows(src: Source, i: int, toks: Seq<TokenModel>) -> bool {
    0 <= i && i + toks.len() <= src.tokens.len() && bare_tokens(
        src.tokens.subrange(i, i + toks.len()),
    ) == bare_tokens(toks)
}

/// Where tokens stand, their first part stands, and behind it the rest.
pub proof fn lemma_shows_split(src: Source, i: int, a: Seq<TokenModel>, b: Seq<TokenModel>)
    requires
        shows(src, i, a + b),
    ensures
        shows(src, i, a),
        shows(src, i + a.len(), b),
{
    let whole = src.tokens.subrange(i, i + (a + b).len());
    let first = src.tokens.subrange(i, i + a.len());
    let second = src.tokens.subrange(i + a.len(), i + a.len() + b.len());
    assert(bare_tokens(whole).len() == whole.len());
    assert(bare_tokens(a + b).len() == (a + b).len());
    assert forall|j: int| 0 <= j < a.len() implies bare_tokens(first)[j] == bare_tokens(a)[j] by {
        assert(first[j] == whole[j]);
        assert(bare_tokens(whole)[j] == bare(whole[j]));
        assert(bare_tokens(a + b)[j] == bare((a + b)[j]));
        assert((a + b)[j] == a[j]);
    }
    assert(bare_tokens(first) =~= bare_tokens(a));
    assert forall|j: int| 0 <= j < b.len() implies bare_tokens(second)[j] == bare_tokens(b)[j] by {
        assert(second[j] == whole[a.len() + j]);
        assert(bare_tokens(whole)[a.len() + j] == bare(whole[a.len() + j]));
        assert(bare_tokens(a + b)[a.len() + j] == bare((a + b)[a.len() + j]));
        assert((a + b)[a.len() + j] == b[j]);
    }
    assert(bare_tokens(second) =~= bare_tokens(b));
}

/// Where one token stands, it is the token at that index, but for its
/// place.
pub proof fn lemma_shows_one(src: Source, i: int, t: TokenModel)
    requires
        shows(src, i, seq![t]),
    ensures
        0 <= i < src.tokens.len(),
        src.tokens[i].kind == t.kind,
        src.tokens[i].value == t.value,
{
    let piece = src.tokens.subrange(i, i + 1);
    assert(piece[0] == src.tokens[i]);
    assert(bare_tokens(piece)[0] == bare(piece[0]));
    assert(bare_tokens(seq![t])[0] == bare(seq![t][0]));
    assert(seq![t][0] == t);
}

/// Where a token and more tokens stand, the token is at that index and
/// the others stand behind it.
pub proof fn lemma_shows_first(src: Source, i: int, t: TokenModel, rest: Seq<TokenModel>)
    requires
        shows(src, i, seq![t] + rest),
    ensures
        0 <= i < src.tokens.len(),
        src.tokens[i].kind == t.kind,
        src.tokens[i].value == t.value,
        shows(src, i + 1, rest),
{
    lemma_shows_split(src, i, seq![t], rest);
    lemma_shows_one(src, i, t);
}

/// Where tokens and one more token stand, the tokens stand and the last
/// is at the index behind them.
pub proof fn lemma_shows_last(src: Source, i: int, front: Seq<TokenModel>, t: TokenModel)
    requires
        shows(src, i, front + seq![t]),
    ensures
        shows(src, i, front),
        0 <= i + front.len() < src.tokens.len(),
        src.tokens[i + front.len()].kind == t.kind,
        src.tokens[i + front.len()].value == t.value,
{
    lemma_shows_split(src, i, front, seq![t]);
    lemma_shows_one(src, i + front.len(), t);
}

/// What was put in quotes is read from between them.
pub proof fn lemma_escaped_read(q: Seq<char>, i: int, end: int, s: Seq<char>, k: int)
    requires
        0 <= k <= s.len(),
        0 <= i <= end <= q.len(),
        q.subrange(i, end) == escaped(s, k),
    ensures
        unescape(q, i, end, s.take(k)) == Ok::<Seq<char>, Seq<char>>(s),
    decreases s.len() - k,
{
    let piece = q.subrange(i, end);
    if k == s.len() {
        assert(piece.len() == 0);
        assert(s.take(k) =~= s);
    } else {
        let c = s[k];
        let rest = escaped(s, k + 1);
        assert(s.take(k).push(c) =~= s.take(k + 1));
        if c == '"' || c == '\\' {
            assert(piece == seq!['\\', c] + rest);
            assert(piece.len() == 2 + rest.len());
            assert(q[i] == piece[0]);
            assert(q[i + 1] == piece[1]);
            assert(escape_of(c) == Some(c));
            assert(q.subrange(i + 2, end) =~= piece.subrange(2, piece.len() as int));
            assert(piece.subrange(2, piece.len() as int) =~= rest);
            lemma_escaped_read(q, i + 2, end, s, k + 1);
        } else if c == '\n' {
            assert(piece == seq!['\\', 'n'] + rest);
            assert(piece.len() == 2 + rest.len());
            assert(q[i] == piece[0]);
            assert(q[i + 1] == piece[1]);
            assert(escape_of('n') == Some('\n'));
            assert(q.subrange(i + 2, end) =~= piece.subrange(2, piece.len() as int));
            assert(piece.subrange(2, piece.len() as int) =~= rest);
            lemma_escaped_read(q, i + 2, end, s, k + 1);
        } else {
            assert(piece == seq![c] + rest);
            assert(piece.len() == 1 + rest.len());
            assert(q[i] == piece[0]);
            assert(q.subrange(i + 1, end) =~= piece.subrange(1, piece.len() as int));
            assert(piece.subrange(1, piece.len() as int) =~= rest);
            lemma_escaped_read(q, i + 1, end, s, k + 1);
        }
    }
}

/// A text in quotes spells the text.
pub proof fn lemma_quoted_read(s: Seq<char>)
    ensures
        unquote(quoted(s)) == Ok::<Seq<char>, Seq<char>>(s),
{
    let q = quoted(s);
    let inner = escaped(s, 0);
    assert(q.len() == inner.len() + 2);
    assert(q[0] == '"');
    assert(q[q.len() - 1] == '"');
    assert(q.subrange(1, q.len() - 1) =~= inner);
    assert(s.take(0) =~= Seq::<char>::empty());
    lemma_escaped_read(q, 1, q.len() - 1, s, 0);
}

/// A string token spells its text.
pub proof fn lemma_text_read(src: Source, i: int, s: Seq<char>)
    requires
        0 <= i < src.tokens.len(),
        src.tokens[i].kind == Kind::StringValue,
        src.tokens[i].value == quoted(s),
    ensures
        text_at(src, i, s),
{
    lemma_quoted_read(s);
}

/// The digits of a number are digits, and spell the number.
pub proof fn lemma_digits(n: int)
    requires
        0 <= n,
    ensures
        digits(n).len() > 0,
        all_digits(digits(n), 0, digits(n).len() as int),
        digits_value(digits(n), 0, digits(n).len() as int) == n,
    decreases n,
{
    let s = digits(n);
    if n < 10 {
        assert(s.len() == 1);
        assert(s[0] == digit_of(n));
        assert(digits_value(s, 0, 0) == 0);
        assert(digits_value(s, 0, 1) == digits_value(s, 0, 0) * 10 + (s[0] as int - '0' as int));
    } else {
        let front = digits(n / 10);
        lemma_digits(n / 10);
        assert(s == front.push(digit_of(n % 10)));
        assert(s.len() == front.len() + 1);
        lemma_digits_value_of_front(s, front, 0, front.len() as int);
        assert forall|k: int| 0 <= k < s.len() implies is_digit(#[trigger] s[k]) by {
            if k < front.len() {
                assert(s[k] == front[k]);
            }
        }
        assert(digits_value(s, 0, s.len() as int) == digits_value(s, 0, s.len() - 1) * 10 + (s[s.len()
            - 1] as int - '0' as int));
    }
}

/// The number that digits spell depends on those digits only.
pub proof fn lemma_digits_value_of_front(s: Seq<char>, front: Seq<char>, from: int, to: int)
    requires
        0 <= from <= to <= front.len() <= s.len(),
        forall|k: int| 0 <= k < front.len() ==> s[k] == front[k],
    ensures
        digits_value(s, from, to) == digits_value(front, from, to),
    decreases to - from,
{
    if from < to {
        lemma_digits_value_of_front(s, front, from, to - 1);
    }
}

/// The number that digits spell is the same when they stand one index
/// further on.
pub proof fn lemma_digits_value_shifted(s: Seq<char>, d: Seq<char>, to: int)
    requires
        0 <= to <= d.len(),
        s.len() == d.len() + 1,
        forall|k: int| 0 <= k < d.len() ==> s[k + 1] == d[k],
    ensures
        digits_value(s, 1, to + 1) == digits_value(d, 0, to),
    decreases to,
{
    if to > 0 {
        lemma_digits_value_shifted(s, d, to - 1);
    }
}

/// An integer as it is written spells the integer.
pub proof fn lemma_numeral_read(n: i64)
    ensures
        integer_of(numeral(n)) == Some(n),
{
    let s = numeral(n);
    if n < 0 {
        let d = digits(-(n as int));
        lemma_digits(-(n as int));
        assert(s == seq!['-'] + d);
        assert(s[0] == '-');
        assert(s.len() == d.len() + 1);
        assert forall|k: int| 0 <= k < d.len() implies s[k + 1] == d[k] by {}
        lemma_digits_value_shifted(s, d, d.len() as int);
        assert forall|k: int| 1 <= k < s.len() implies is_digit(#[trigger] s[k]) by {
            assert(s[k] == d[k - 1]);
        }
    } else {
        lemma_digits(n as int);
        assert(is_digit(s[0]));
        assert(s[0] != '-');
    }
}

/// The type reference `t` as tokens.
pub open spec fn written_type(t: TypeModel) -> Seq<TokenModel>
    decreases t,
{
    match t {
        TypeModel::NamedType(n) => seq![word(n)],
        TypeModel::ListType(inner) => seq![mark("["@)] + (written_type(*inner) + seq![mark("]"@)]),
        TypeModel::NonNullType(inner) => written_type(*inner) + seq![mark("!"@)],
    }
}

/// The value `v` as tokens.
pub open spec fn written_value(v: ValueModel) -> Seq<TokenModel>
    decreases v, 0int,
{
    match v {
        ValueModel::Variable(n) => seq![mark("$"@)] + seq![word(n)],
        ValueModel::Int(n) => seq![number(n)],
        ValueModel::Float(f) => seq![
            TokenModel { kind: Kind::FloatValue, value: f, position: Pos::origin() },
        ],
        ValueModel::String(s) => seq![text(s)],
        ValueModel::Boolean(b) => seq![
            word(
                if b {
                    "true"@
                } else {
                    "false"@
                },
            ),
        ],
        ValueModel::Null => seq![word("null"@)],
        ValueModel::Enum(n) => seq![word(n)],
        ValueModel::List(items) => seq![mark("["@)] + (written_items(items, 0) + seq![
            mark("]"@),
        ]),
        ValueModel::Object(entries) => seq![mark("{"@)] + (written_entries(entries, 0) + seq![
            mark("}"@),
        ]),
    }
}

/// The items of a list as tokens, from item `k` on.
pub open spec fn written_items(items: Seq<ValueModel>, k: int) -> Seq<TokenModel>
    decreases items, items.len() - k,
{
    if k < 0 || k >= items.len() {
        Seq::empty()
    } else {
        written_value(items[k]) + written_items(items, k + 1)
    }
}

/// The entries of an object as tokens, from entry `k` on.
pub open spec fn written_entries(entries: Seq<(Seq<char>, ValueModel)>, k: int) -> Seq<TokenModel>
    decreases entries, entries.len() - k,
{
    if k < 0 || k >= entries.len() {
        Seq::empty()
    } else {
        seq![word(entries[k].0)] + (seq![mark(":"@)] + (written_value(entries[k].1)
            + written_entries(entries, k + 1)))
    }
}

/// The arguments of a directive as tokens.
pub open spec fn written_arguments(list: Seq<(Seq<char>, ValueModel)>) -> Seq<TokenModel> {
    if list.len() == 0 {
        Seq::empty()
    } else {
        seq![mark("("@)] + (written_entries(list, 0) + seq![mark(")"@)])
    }
}

/// The directive `d` as tokens.
pub open spec fn written_directive(d: DirectiveModel) -> Seq<TokenModel> {
    seq![mark("@"@)] + (seq![word(d.name)] + written_arguments(d.arguments))
}

/// The directives `list` as tokens, from directive `k` on.
pub open spec fn written_directives(list: Seq<DirectiveModel>, k: int) -> Seq<TokenModel>
    decreases list.len() - k,
{
    if k < 0 || k >= list.len() {
        Seq::empty()
    } else {
        written_directive(list[k]) + written_directives(list, k + 1)
    }
}

/// The tokens of a plain type reference spell it.
pub proof fn lemma_type_written(src: Source, i: int, t: TypeModel)
    requires
        plain_type(t),
        shows(src, i, written_type(t)),
    ensures
        spelled_type(src, i, t) == Some(i + written_type(t).len()),
    decreases t,
{
    match t {
        TypeModel::NamedType(n) => {
            lemma_shows_one(src, i, word(n));
        },
        TypeModel::ListType(inner) => {
            let body = written_type(*inner);
            lemma_shows_first(src, i, mark("["@), body + seq![mark("]"@)]);
            lemma_shows_last(src, i + 1, body, mark("]"@));
            lemma_type_written(src, i + 1, *inner);
        },
        TypeModel::NonNullType(inner) => {
            let body = written_type(*inner);
            lemma_shows_last(src, i, body, mark("!"@));
            lemma_type_written(src, i, *inner);
        },
    }
}

/// The tokens of a plain value spell it.
pub proof fn lemma_value_written(src: Source, i: int, v: ValueModel, constant: bool)
    requires
        plain_value(v, constant),
        shows(src, i, written_value(v)),
    ensures
        spelled_value(src, i, v, constant) == Some(i + written_value(v).len()),
    decreases v, 0int,
{
    match v {
        ValueModel::Variable(n) => {
            lemma_shows_first(src, i, mark("$"@), seq![word(n)]);
            lemma_shows_one(src, i + 1, word(n));
        },
        ValueModel::Int(n) => {
            lemma_shows_one(src, i, number(n));
            lemma_numeral_read(n);
        },
        ValueModel::Float(f) => {
            lemma_shows_one(
                src,
                i,
                TokenModel { kind: Kind::FloatValue, value: f, position: Pos::origin() },
            );
        },
        ValueModel::String(s) => {
            lemma_shows_one(src, i, text(s));
            lemma_text_read(src, i, s);
        },
        ValueModel::Boolean(b) => {
            lemma_shows_one(
                src,
                i,
                word(
                    if b {
                        "true"@
                    } else {
                        "false"@
                    },
                ),
            );
        },
        ValueModel::Null => {
            lemma_shows_one(src, i, word("null"@));
        },
        ValueModel::Enum(n) => {
            lemma_shows_one(src, i, word(n));
        },
        ValueModel::List(items) => {
            let body = written_items(items, 0);
            lemma_shows_first(src, i, mark("["@), body + seq![mark("]"@)]);
            lemma_shows_last(src, i + 1, body, mark("]"@));
            lemma_items_written(src, i + 1, items, 0, constant);
        },
        ValueModel::Object(entries) => {
            let body = written_entries(entries, 0);
            lemma_shows_first(src, i, mark("{"@), body + seq![mark("}"@)]);
            lemma_shows_last(src, i + 1, body, mark("}"@));
            lemma_entries_written(src, i + 1, entries, 0, constant);
        },
    }
}

/// The tokens of plain items spell them.
pub proof fn lemma_items_written(
    src: Source,
    i: int,
    items: Seq<ValueModel>,
    k: int,
    constant: bool,
)
    requires
        0 <= k,
        plain_items(items, constant),
        shows(src, i, written_items(items, k)),
    ensures
        spelled_items(src, i, items, k, constant) == Some(i + written_items(items, k).len()),
    decreases items, items.len() - k,
{
    if k < items.len() {
        let one = written_value(items[k]);
        lemma_shows_split(src, i, one, written_items(items, k + 1));
        lemma_value_written(src, i, items[k], constant);
        lemma_items_written(src, i + one.len(), items, k + 1, constant);
    }
}

/// The tokens of plain entries spell them.
pub proof fn lemma_entries_written(
    src: Source,
    i: int,
    entries: Seq<(Seq<char>, ValueModel)>,
    k: int,
    constant: bool,
)
    requires
        0 <= k,
        plain_entries(entries, constant),
        shows(src, i, written_entries(entries, k)),
    ensures
        spelled_entries(src, i, entries, k, constant) == Some(
            i + written_entries(entries, k).len(),
        ),
    decreases entries, entries.len() - k,
{
    if k < entries.len() {
        let one = written_value(entries[k].1);
        let rest = written_entries(entries, k + 1);
        lemma_shows_first(src, i, word(entries[k].0), seq![mark(":"@)] + (one + rest));
        lemma_shows_first(src, i + 1, mark(":"@), one + rest);
        lemma_shows_split(src, i + 2, one, rest);
        lemma_value_written(src, i + 2, entries[k].1, constant);
        lemma_entries_written(src, i + 2 + one.len(), entries, k + 1, constant);
    }
}

/// The tokens of a directive with plain arguments spell it.
pub proof fn lemma_directive_written(src: Source, i: int, d: DirectiveModel)
    requires
        plain_entries(d.arguments, false),
        shows(src, i, written_directive(d)),
    ensures
        spelled_directive(src, i, d) == Some(i + written_directive(d).len()),
{
    let list = written_arguments(d.arguments);
    lemma_shows_first(src, i, mark("@"@), seq![word(d.name)] + list);
    lemma_shows_first(src, i + 1, word(d.name), list);
    if d.arguments.len() > 0 {
        let body = written_entries(d.arguments, 0);
        lemma_shows_first(src, i + 2, mark("("@), body + seq![mark(")"@)]);
        lemma_shows_last(src, i + 3, body, mark(")"@));
        lemma_entries_written(src, i + 3, d.arguments, 0, false);
    }
}

/// The tokens of plain directives spell them.
pub proof fn lemma_directives_written(src: Source, i: int, list: Seq<DirectiveModel>, k: int)
    requires
        0 <= k,
        plain_directives(list),
        shows(src, i, written_directives(list, k)),
    ensures
        spelled_directives(src, i, list, k) == Some(i + written_directives(list, k).len()),
    decreases list.len() - k,
{
    if k < list.len() {
        let one = written_directive(list[k]);
        lemma_shows_split(src, i, one, written_directives(list, k + 1));
        lemma_directive_written(src, i, list[k]);
        lemma_directives_written(src, i + one.len(), list, k + 1);
    }
}

/// A description as tokens: a string, or nothing.
pub open spec fn written_description(words: Option<Seq<char>>) -> Seq<TokenModel> {
    match words {
        Some(s) => seq![text(s)],
        None => Seq::empty(),
    }
}

/// A default as tokens: `=` and the value, or nothing.
pub open spec fn written_default(default: Option<ValueModel>) -> Seq<TokenModel> {
    match default {
        Some(v) => seq![mark("="@)] + written_value(v),
        None => Seq::empty(),
    }
}

/// The input value `x` as tokens.
pub open spec fn written_input_value(x: InputValueModel) -> Seq<TokenModel> {
    written_description(x.description) + (seq![word(x.name)] + (seq![mark(":"@)] + (written_type(
        x.value_type,
    ) + (written_default(x.default_value) + written_directives(x.directives, 0)))))
}

/// The input values `list` as tokens, from input value `k` on.
pub open spec fn written_input_values(list: Seq<InputValueModel>, k: int) -> Seq<TokenModel>
    decreases list.len() - k,
{
    if k < 0 || k >= list.len() {
        Seq::empty()
    } else {
        written_input_value(list[k]) + written_input_values(list, k + 1)
    }
}

/// The arguments of a field as tokens.
pub open spec fn written_arguments_definition(list: Seq<InputValueModel>) -> Seq<TokenModel> {
    if list.len() == 0 {
        Seq::empty()
    } else {
        seq![mark("("@)] + (written_input_values(list, 0) + seq![mark(")"@)])
    }
}

/// The field `x` as tokens.
pub open spec fn written_field(x: FieldModel) -> Seq<TokenModel> {
    written_description(x.description) + (seq![word(x.name)] + (written_arguments_definition(
        x.arguments,
    ) + (seq![mark(":"@)] + (written_type(x.field_type) + written_directives(x.directives, 0)))))
}

/// The fields `list` as tokens, from field `k` on.
pub open spec fn written_fields_from(list: Seq<FieldModel>, k: int) -> Seq<TokenModel>
    decreases list.len() - k,
{
    if k < 0 || k >= list.len() {
        Seq::empty()
    } else {
        written_field(list[k]) + written_fields_from(list, k + 1)
    }
}

/// A block of fields as tokens.
pub open spec fn written_fields(list: Seq<FieldModel>) -> Seq<TokenModel> {
    if list.len() == 0 {
        Seq::empty()
    } else {
        seq![mark("{"@)] + (written_fields_from(list, 0) + seq![mark("}"@)])
    }
}

/// The names `list` as tokens, from name `k` on, with `separator`
/// between them.
pub open spec fn written_names(list: Seq<Seq<char>>, k: int, separator: Seq<char>) -> Seq<
    TokenModel,
>
    decreases list.len() - k,
{
    if k < 0 || k >= list.len() {
        Seq::empty()
    } else if k + 1 < list.len() {
        seq![word(list[k])] + (seq![mark(separator)] + written_names(list, k + 1, separator))
    } else {
        seq![word(list[k])]
    }
}

/// The interfaces of an object as tokens.
pub open spec fn written_interfaces(list: Seq<Seq<char>>) -> Seq<TokenModel> {
    if list.len() == 0 {
        Seq::empty()
    } else {
        seq![word("implements"@)] + written_names(list, 0, "&"@)
    }
}

/// The members of a union as tokens.
pub open spec fn written_members(list: Seq<Seq<char>>) -> Seq<TokenModel> {
    if list.len() == 0 {
        Seq::empty()
    } else {
        seq![mark("="@)] + written_names(list, 0, "|"@)
    }
}

/// A scalar as tokens.
pub open spec fn written_scalar(n: Seq<char>, list: Seq<DirectiveModel>) -> Seq<TokenModel> {
    seq![word("scalar"@)] + (seq![word(n)] + written_directives(list, 0))
}

/// An object as tokens.
pub open spec fn written_object(
    n: Seq<char>,
    interfaces: Seq<Seq<char>>,
    list: Seq<DirectiveModel>,
    block: Seq<FieldModel>,
) -> Seq<TokenModel> {
    seq![word("type"@)] + (seq![word(n)] + (written_interfaces(interfaces) + (written_directives(
        list,
        0,
    ) + written_fields(block))))
}

/// An interface as tokens.
pub open spec fn written_interface(
    n: Seq<char>,
    list: Seq<DirectiveModel>,
    block: Seq<FieldModel>,
) -> Seq<TokenModel> {
    seq![word("interface"@)] + (seq![word(n)] + (written_directives(list, 0) + written_fields(
        block,
    )))
}

/// A union as tokens.
pub open spec fn written_union(
    n: Seq<char>,
    list: Seq<DirectiveModel>,
    members: Seq<Seq<char>>,
) -> Seq<TokenModel> {
    seq![word("union"@)] + (seq![word(n)] + (written_directives(list, 0) + written_members(
        members,
    )))
}

/// The definition of a type as tokens.
pub open spec fn written_type_definition(def: TypeDefinitionModel) -> Seq<TokenModel> {
    match def {
        TypeDefinitionModel::Scalar(t) => written_description(t.description) + written_scalar(
            t.name,
            t.directives,
        ),
        TypeDefinitionModel::Object(t) => written_description(t.description) + written_object(
            t.name,
            t.implements_interfaces,
            t.directives,
            t.fields,
        ),
        TypeDefinitionModel::Interface(t) => written_description(t.description)
            + written_interface(t.name, t.directives, t.fields),
        TypeDefinitionModel::Union(t) => written_description(t.description) + written_union(
            t.name,
            t.directives,
            t.types,
        ),
        TypeDefinitionModel::Enum(t) => Seq::empty(),
        TypeDefinitionModel::InputObject(t) => Seq::empty(),
    }
}

/// The extension of a type as tokens.
pub open spec fn written_type_extension(ext: TypeExtensionModel) -> Seq<TokenModel> {
    seq![word("extend"@)] + match ext {
        TypeExtensionModel::Scalar(t) => written_scalar(t.name, t.directives),
        TypeExtensionModel::Object(t) => written_object(
            t.name,
            t.implements_interfaces,
            t.directives,
            t.fields,
        ),
        TypeExtensionModel::Interface(t) => written_interface(t.name, t.directives, t.fields),
        TypeExtensionModel::Union(t) => written_union(t.name, t.directives, t.types),
    }
}

/// One operation of a `schema` block as tokens: nothing where none is
/// bound.
pub open spec fn written_operation(kind: Seq<char>, bound: Option<Seq<char>>) -> Seq<TokenModel> {
    match bound {
        Some(n) => seq![word(kind)] + (seq![mark(":"@)] + seq![word(n)]),
        None => Seq::empty(),
    }
}

/// A `schema` block as tokens.
pub open spec fn written_schema(x: SchemaDefinitionModel) -> Seq<TokenModel> {
    seq![word("schema"@)] + (seq![mark("{"@)] + (written_directives(x.directives, 0) + (
    written_operation("query"@, x.query) + (written_operation("mutation"@, x.mutation) + (
    written_operation("subscription"@, x.subscription) + seq![mark("}"@)])))))
}

/// The definition `d` as tokens.
pub open spec fn written_definition(d: DefinitionModel) -> Seq<TokenModel> {
    match d {
        DefinitionModel::SchemaDefinition(x) => written_schema(x),
        DefinitionModel::TypeDefinition(x) => written_type_definition(x),
        DefinitionModel::TypeExtension(x) => written_type_extension(x),
    }
}

/// The definitions `list` as tokens, from definition `k` on.
pub open spec fn written_definitions(list: Seq<DefinitionModel>, k: int) -> Seq<TokenModel>
    decreases list.len() - k,
{
    if k < 0 || k >= list.len() {
        Seq::empty()
    } else {
        written_definition(list[k]) + written_definitions(list, k + 1)
    }
}

/// The document as the tokens of a text: its definitions one behind the
/// other, and nothing else.
pub open spec fn written_document(doc: DocumentModel) -> Source {
    Source { tokens: written_definitions(doc.definitions, 0), end: Pos::origin(), fault: None }
}

/// The tokens of a description spell it.
pub proof fn lemma_description_written(src: Source, i: int, words: Option<Seq<char>>)
    requires
        shows(src, i, written_description(words)),
    ensures
        spelled_description(src, i, words) == Some(i + written_description(words).len()),
{
    match words {
        Some(s) => {
            lemma_shows_one(src, i, text(s));
            lemma_text_read(src, i, s);
        },
        None => {},
    }
}

/// The tokens of a plain input value spell it.
pub proof fn lemma_input_value_written(src: Source, i: int, x: InputValueModel)
    requires
        plain_input_value(x),
        shows(src, i, written_input_value(x)),
    ensures
        spelled_input_value(src, i, x) == Some(i + written_input_value(x).len()),
{
    let d = written_description(x.description);
    let t = written_type(x.value_type);
    let f = written_default(x.default_value);
    let r = written_directives(x.directives, 0);
    lemma_shows_split(src, i, d, seq![word(x.name)] + (seq![mark(":"@)] + (t + (f + r))));
    lemma_description_written(src, i, x.description);
    let a = i + d.len();
    lemma_shows_first(src, a, word(x.name), seq![mark(":"@)] + (t + (f + r)));
    lemma_shows_first(src, a + 1, mark(":"@), t + (f + r));
    lemma_shows_split(src, a + 2, t, f + r);
    lemma_type_written(src, a + 2, x.value_type);
    let b = a + 2 + t.len();
    lemma_shows_split(src, b, f, r);
    match x.default_value {
        Some(v) => {
            lemma_shows_first(src, b, mark("="@), written_value(v));
            lemma_value_written(src, b + 1, v, true);
        },
        None => {},
    }
    lemma_directives_written(src, b + f.len(), x.directives, 0);
}

/// The tokens of plain input values spell them.
pub proof fn lemma_input_values_written(src: Source, i: int, list: Seq<InputValueModel>, k: int)
    requires
        0 <= k,
        plain_input_values(list),
        shows(src, i, written_input_values(list, k)),
    ensures
        spelled_input_values(src, i, list, k) == Some(i + written_input_values(list, k).len()),
    decreases list.len() - k,
{
    if k < list.len() {
        let one = written_input_value(list[k]);
        lemma_shows_split(src, i, one, written_input_values(list, k + 1));
        lemma_input_value_written(src, i, list[k]);
        lemma_input_values_written(src, i + one.len(), list, k + 1);
    }
}

/// The tokens of a plain field spell it.
pub proof fn lemma_field_written(src: Source, i: int, x: FieldModel)
    requires
        plain_field(x),
        shows(src, i, written_field(x)),
    ensures
        spelled_field(src, i, x) == Some(i + written_field(x).len()),
{
    let d = written_description(x.description);
    let g = written_arguments_definition(x.arguments);
    let t = written_type(x.field_type);
    let r = written_directives(x.directives, 0);
    lemma_shows_split(src, i, d, seq![word(x.name)] + (g + (seq![mark(":"@)] + (t + r))));
    lemma_description_written(src, i, x.description);
    let a = i + d.len();
    lemma_shows_first(src, a, word(x.name), g + (seq![mark(":"@)] + (t + r)));
    lemma_shows_split(src, a + 1, g, seq![mark(":"@)] + (t + r));
    if x.arguments.len() > 0 {
        let body = written_input_values(x.arguments, 0);
        lemma_shows_first(src, a + 1, mark("("@), body + seq![mark(")"@)]);
        lemma_shows_last(src, a + 2, body, mark(")"@));
        lemma_input_values_written(src, a + 2, x.arguments, 0);
    }
    let b = a + 1 + g.len();
    lemma_shows_first(src, b, mark(":"@), t + r);
    lemma_shows_split(src, b + 1, t, r);
    lemma_type_written(src, b + 1, x.field_type);
    lemma_directives_written(src, b + 1 + t.len(), x.directives, 0);
}

/// The tokens of plain fields spell them.
pub proof fn lemma_fields_from_written(src: Source, i: int, list: Seq<FieldModel>, k: int)
    requires
        0 <= k,
        plain_fields(list),
        shows(src, i, written_fields_from(list, k)),
    ensures
        spelled_fields_from(src, i, list, k) == Some(i + written_fields_from(list, k).len()),
    decreases list.len() - k,
{
    if k < list.len() {
        let one = written_field(list[k]);
        lemma_shows_split(src, i, one, written_fields_from(list, k + 1));
        lemma_field_written(src, i, list[k]);
        lemma_fields_from_written(src, i + one.len(), list, k + 1);
    }
}

/// The tokens of a block of plain fields spell it.
pub proof fn lemma_fields_written(src: Source, i: int, list: Seq<FieldModel>)
    requires
        plain_fields(list),
        shows(src, i, written_fields(list)),
    ensures
        spelled_fields(src, i, list) == Some(i + written_fields(list).len()),
{
    if list.len() > 0 {
        let body = written_fields_from(list, 0);
        lemma_shows_first(src, i, mark("{"@), body + seq![mark("}"@)]);
        lemma_shows_last(src, i + 1, body, mark("}"@));
        lemma_fields_from_written(src, i + 1, list, 0);
    }
}

/// The tokens of names spell them.
pub proof fn lemma_names_written(
    src: Source,
    i: int,
    list: Seq<Seq<char>>,
    k: int,
    separator: Seq<char>,
)
    requires
        0 <= k < list.len(),
        shows(src, i, written_names(list, k, separator)),
    ensures
        spelled_names(src, i, list, k, separator) == Some(
            i + written_names(list, k, separator).len(),
        ),
    decreases list.len() - k,
{
    if k + 1 < list.len() {
        let rest = written_names(list, k + 1, separator);
        lemma_shows_first(src, i, word(list[k]), seq![mark(separator)] + rest);
        lemma_shows_first(src, i + 1, mark(separator), rest);
        lemma_names_written(src, i + 2, list, k + 1, separator);
    } else {
        lemma_shows_one(src, i, word(list[k]));
    }
}

/// The tokens of the interfaces of an object spell them.
pub proof fn lemma_interfaces_written(src: Source, i: int, list: Seq<Seq<char>>)
    requires
        shows(src, i, written_interfaces(list)),
    ensures
        spelled_interfaces(src, i, list) == Some(i + written_interfaces(list).len()),
{
    if list.len() > 0 {
        lemma_shows_first(src, i, word("implements"@), written_names(list, 0, "&"@));
        lemma_names_written(src, i + 1, list, 0, "&"@);
    }
}

/// The tokens of the members of a union spell them.
pub proof fn lemma_members_written(src: Source, i: int, list: Seq<Seq<char>>)
    requires
        shows(src, i, written_members(list)),
    ensures
        spelled_members(src, i, list) == Some(i + written_members(list).len()),
{
    if list.len() > 0 {
        lemma_shows_first(src, i, mark("="@), written_names(list, 0, "|"@));
        lemma_names_written(src, i + 1, list, 0, "|"@);
    }
}

/// The tokens of a scalar with plain directives spell it.
pub proof fn lemma_scalar_written(src: Source, i: int, n: Seq<char>, list: Seq<DirectiveModel>)
    requires
        plain_directives(list),
        shows(src, i, written_scalar(n, list)),
    ensures
        spelled_scalar(src, i, n, list) == Some(i + written_scalar(n, list).len()),
{
    let r = written_directives(list, 0);
    lemma_shows_first(src, i, word("scalar"@), seq![word(n)] + r);
    lemma_shows_first(src, i + 1, word(n), r);
    lemma_directives_written(src, i + 2, list, 0);
}

/// The tokens of an object with plain parts spell it.
pub proof fn lemma_object_written(
    src: Source,
    i: int,
    n: Seq<char>,
    interfaces: Seq<Seq<char>>,
    list: Seq<DirectiveModel>,
    block: Seq<FieldModel>,
)
    requires
        plain_directives(list),
        plain_fields(block),
        shows(src, i, written_object(n, interfaces, list, block)),
    ensures
        spelled_object(src, i, n, interfaces, list, block) == Some(
            i + written_object(n, interfaces, list, block).len(),
        ),
{
    let f = written_interfaces(interfaces);
    let r = written_directives(list, 0);
    let b = written_fields(block);
    lemma_shows_first(src, i, word("type"@), seq![word(n)] + (f + (r + b)));
    lemma_shows_first(src, i + 1, word(n), f + (r + b));
    lemma_shows_split(src, i + 2, f, r + b);
    lemma_interfaces_written(src, i + 2, interfaces);
    lemma_shows_split(src, i + 2 + f.len(), r, b);
    lemma_directives_written(src, i + 2 + f.len(), list, 0);
    lemma_fields_written(src, i + 2 + f.len() + r.len(), block);
}

/// The tokens of an interface with plain parts spell it.
pub proof fn lemma_interface_written(
    src: Source,
    i: int,
    n: Seq<char>,
    list: Seq<DirectiveModel>,
    block: Seq<FieldModel>,
)
    requires
        plain_directives(list),
        plain_fields(block),
        shows(src, i, written_interface(n, list, block)),
    ensures
        spelled_interface(src, i, n, list, block) == Some(
            i + written_interface(n, list, block).len(),
        ),
{
    let r = written_directives(list, 0);
    let b = written_fields(block);
    lemma_shows_first(src, i, word("interface"@), seq![word(n)] + (r + b));
    lemma_shows_first(src, i + 1, word(n), r + b);
    lemma_shows_split(src, i + 2, r, b);
    lemma_directives_written(src, i + 2, list, 0);
    lemma_fields_written(src, i + 2 + r.len(), block);
}

/// The tokens of a union with plain directives spell it.
pub proof fn lemma_union_written(
    src: Source,
    i: int,
    n: Seq<char>,
    list: Seq<DirectiveModel>,
    members: Seq<Seq<char>>,
)
    requires
        plain_directives(list),
        shows(src, i, written_union(n, list, members)),
    ensures
        spelled_union(src, i, n, list, members) == Some(
            i + written_union(n, list, members).len(),
        ),
{
    let r = written_directives(list, 0);
    let m = written_members(members);
    lemma_shows_first(src, i, word("union"@), seq![word(n)] + (r + m));
    lemma_shows_first(src, i + 1, word(n), r + m);
    lemma_shows_split(src, i + 2, r, m);
    lemma_directives_written(src, i + 2, list, 0);
    lemma_members_written(src, i + 2 + r.len(), members);
}

/// The tokens of the plain definition of a type spell it.
pub proof fn lemma_type_definition_written(src: Source, i: int, def: TypeDefinitionModel)
    requires
        plain_type_definition(def),
        shows(src, i, written_type_definition(def)),
    ensures
        spelled_type_definition(src, i, def) == Some(i + written_type_definition(def).len()),
{
    match def {
        TypeDefinitionModel::Scalar(t) => {
            let d = written_description(t.description);
            lemma_shows_split(src, i, d, written_scalar(t.name, t.directives));
            lemma_description_written(src, i, t.description);
            lemma_scalar_written(src, i + d.len(), t.name, t.directives);
        },
        TypeDefinitionModel::Object(t) => {
            let d = written_description(t.description);
            lemma_shows_split(
                src,
                i,
                d,
                written_object(t.name, t.implements_interfaces, t.directives, t.fields),
            );
            lemma_description_written(src, i, t.description);
            lemma_object_written(
                src,
                i + d.len(),
                t.name,
                t.implements_interfaces,
                t.directives,
                t.fields,
            );
        },
        TypeDefinitionModel::Interface(t) => {
            let d = written_description(t.description);
            lemma_shows_split(src, i, d, written_interface(t.name, t.directives, t.fields));
            lemma_description_written(src, i, t.description);
            lemma_interface_written(src, i + d.len(), t.name, t.directives, t.fields);
        },
        TypeDefinitionModel::Union(t) => {
            let d = written_description(t.description);
            lemma_shows_split(src, i, d, written_union(t.name, t.directives, t.types));
            lemma_description_written(src, i, t.description);
            lemma_union_written(src, i + d.len(), t.name, t.directives, t.types);
        },
        TypeDefinitionModel::Enum(t) => {},
        TypeDefinitionModel::InputObject(t) => {},
    }
}

/// The tokens of the plain extension of a type spell it.
pub proof fn lemma_type_extension_written(src: Source, i: int, ext: TypeExtensionModel)
    requires
        plain_type_extension(ext),
        shows(src, i, written_type_extension(ext)),
    ensures
        spelled_type_extension(src, i, ext) == Some(i + written_type_extension(ext).len()),
{
    match ext {
        TypeExtensionModel::Scalar(t) => {
            lemma_shows_first(src, i, word("extend"@), written_scalar(t.name, t.directives));
            lemma_scalar_written(src, i + 1, t.name, t.directives);
        },
        TypeExtensionModel::Object(t) => {
            lemma_shows_first(
                src,
                i,
                word("extend"@),
                written_object(t.name, t.implements_interfaces, t.directives, t.fields),
            );
            lemma_object_written(
                src,
                i + 1,
                t.name,
                t.implements_interfaces,
                t.directives,
                t.fields,
            );
        },
        TypeExtensionModel::Interface(t) => {
            lemma_shows_first(
                src,
                i,
                word("extend"@),
                written_interface(t.name, t.directives, t.fields),
            );
            lemma_interface_written(src, i + 1, t.name, t.directives, t.fields);
        },
        TypeExtensionModel::Union(t) => {
            lemma_shows_first(
                src,
                i,
                word("extend"@),
                written_union(t.name, t.directives, t.types),
            );
            lemma_union_written(src, i + 1, t.name, t.directives, t.types);
        },
    }
}

/// The tokens of one operation of a `schema` block spell it.
pub proof fn lemma_operation_written(
    src: Source,
    i: int,
    kind: Seq<char>,
    bound: Option<Seq<char>>,
)
    requires
        shows(src, i, written_operation(kind, bound)),
    ensures
        spelled_operation(src, i, kind, bound) == Some(i + written_operation(kind, bound).len()),
{
    match bound {
        Some(n) => {
            lemma_shows_first(src, i, word(kind), seq![mark(":"@)] + seq![word(n)]);
            lemma_shows_first(src, i + 1, mark(":"@), seq![word(n)]);
            lemma_shows_one(src, i + 2, word(n));
        },
        None => {},
    }
}

/// The tokens of a `schema` block with plain directives spell it.
pub proof fn lemma_schema_written(src: Source, i: int, x: SchemaDefinitionModel)
    requires
        plain_directives(x.directives),
        shows(src, i, written_schema(x)),
    ensures
        spelled_schema(src, i, x) == Some(i + written_schema(x).len()),
{
    let r = written_directives(x.directives, 0);
    let q = written_operation("query"@, x.query);
    let m = written_operation("mutation"@, x.mutation);
    let s = written_operation("subscription"@, x.subscription);
    let close = seq![mark("}"@)];
    lemma_shows_first(src, i, word("schema"@), seq![mark("{"@)] + (r + (q + (m + (s + close)))));
    lemma_shows_first(src, i + 1, mark("{"@), r + (q + (m + (s + close))));
    lemma_shows_split(src, i + 2, r, q + (m + (s + close)));
    lemma_directives_written(src, i + 2, x.directives, 0);
    let a = i + 2 + r.len();
    lemma_shows_split(src, a, q, m + (s + close));
    lemma_operation_written(src, a, "query"@, x.query);
    let b = a + q.len();
    lemma_shows_split(src, b, m, s + close);
    lemma_operation_written(src, b, "mutation"@, x.mutation);
    let c = b + m.len();
    lemma_shows_split(src, c, s, close);
    lemma_operation_written(src, c, "subscription"@, x.subscription);
    lemma_shows_one(src, c + s.len(), mark("}"@));
}

/// The tokens of a plain definition spell it.
pub proof fn lemma_definition_written(src: Source, i: int, d: DefinitionModel)
    requires
        plain_definition(d),
        shows(src, i, written_definition(d)),
    ensures
        spelled_definition(src, i, d) == Some(i + written_definition(d).len()),
{
    match d {
        DefinitionModel::SchemaDefinition(x) => {
            lemma_schema_written(src, i, x);
        },
        DefinitionModel::TypeDefinition(x) => {
            lemma_type_definition_written(src, i, x);
        },
        DefinitionModel::TypeExtension(x) => {
            lemma_type_extension_written(src, i, x);
        },
    }
}

/// The tokens of plain definitions spell them.
pub proof fn lemma_definitions_written(src: Source, i: int, list: Seq<DefinitionModel>, k: int)
    requires
        0 <= k,
        plain_definitions(list),
        shows(src, i, written_definitions(list, k)),
    ensures
        spelled_definitions(src, i, list, k) == Some(i + written_definitions(list, k).len()),
    decreases list.len() - k,
{
    if k < list.len() {
        let one = written_definition(list[k]);
        lemma_shows_split(src, i, one, written_definitions(list, k + 1));
        lemma_definition_written(src, i, list[k]);
        lemma_definitions_written(src, i + one.len(), list, k + 1);
    }
}

/// What is plain can be written. The tokens that `written_document`
/// gives for a plain document spell that document.
pub proof fn law_plain_documents_can_be_written(doc: DocumentModel)
    requires
        plain_document(doc),
    ensures
        spelled_document(written_document(doc), doc),
{
    let src = written_document(doc);
    assert(src.tokens.subrange(0, src.tokens.len() as int) =~= src.tokens);
    lemma_definitions_written(src, 0, doc.definitions, 0);
    assert(written_definitions(doc.definitions, 0).len() == src.tokens.len());
}

/// What is read can be written down and read again. Every document that
/// the grammar reads from a text has a writing, and the grammar reads the
/// writing as a document that is the one first read, up to the places:
/// it holds as many definitions, each the same but for where it stands.
pub proof fn law_reading_again(src: Source)
    ensures
        document(src) matches Parsed::Done { value, next } ==> (document(
            written_document(value),
        ) matches Parsed::Done { value: again, next: behind } && unplaced_document(again)
            == unplaced_document(value) && again.definitions.len() == value.definitions.len()),
{
    match document(src) {
        Parsed::Done { value, next } => {
            law_read_documents_are_plain(src);
            law_plain_documents_can_be_written(value);
            law_written_documents_are_read(written_document(value), value);
        },
        Parsed::Failed { .. } => {},
    }
}

} // verus!

//! The grammar, as mathematics.
//!
//! A rule is a function from the tokens of a text and an index into them
//! to a [`Parsed`] answer: the value it read and the index behind it, or a
//! diagnostic and the index at which it gave up. This file holds the
//! smallest rules, each of which looks at one token.
use vstd::prelude::*;
use crate::error::{ErrorItemModel, ErrorModel, ParseError};
use crate::position::Pos;
use crate::tokenizer::{Kind, Source, TokenModel, TokenStream};

pub mod common;
pub mod schema;

verus! {

/// What a rule answers at an index.
pub enum Parsed<T> {
    /// The rule fits: `value` is what it read, `next` is the index of the
    /// first token behind it.
    Done { value: T, next: int },
    /// The rule does not fit: `error` says why, `at` is the index of the
    /// token at which it gave up.
    Failed { error: ErrorModel, at: int },
}

/// The place of the token at index `i`, and behind the last token the
/// place where the tokens end.
pub open spec fn place(src: Source, i: int) -> Pos {
    if 0 <= i < src.tokens.len() {
        src.tokens[i].position
    } else {
        src.end
    }
}

/// What stands at index `i`, as an entry of a diagnostic: the token
/// there; behind the last token the reason why the tokens end there, or
/// the end of the text.
pub open spec fn found(src: Source, i: int) -> ErrorItemModel {
    if 0 <= i < src.tokens.len() {
        ErrorItemModel::UnexpectedToken { kind: src.tokens[i].kind, value: src.tokens[i].value }
    } else {
        match src.fault {
            Some(message) => ErrorItemModel::Unexpected(message),
            None => ErrorItemModel::UnexpectedEnd,
        }
    }
}

/// Whether a token of kind `kind` stands at index `i`.
pub open spec fn at_kind(src: Source, i: int, kind: Kind) -> bool {
    0 <= i < src.tokens.len() && src.tokens[i].kind == kind
}

/// Whether the punctuator `value` stands at index `i`.
pub open spec fn at_punct(src: Source, i: int, value: Seq<char>) -> bool {
    at_kind(src, i, Kind::Punctuator) && src.tokens[i].value == value
}

/// Whether the name `value` stands at index `i`.
pub open spec fn at_ident(src: Source, i: int, value: Seq<char>) -> bool {
    at_kind(src, i, Kind::Name) && src.tokens[i].value == value
}

/// Whether the tokens end at index `i` because the text ends there.
pub open spec fn at_end(src: Source, i: int) -> bool {
    i >= src.tokens.len() && src.fault is None
}

/// The diagnostic for index `i` where one of `labels` was needed: what
/// stands there, then each label as something expected.
pub open spec fn unexpected(src: Source, i: int, labels: Seq<Seq<char>>) -> ErrorModel {
    ErrorModel {
        position: place(src, i),
        errors: seq![found(src, i)] + labels.map_values(
            |label: Seq<char>| ErrorItemModel::Expected(label),
        ),
    }
}

/// The name by which a diagnostic calls a kind of token.
pub open spec fn kind_label(kind: Kind) -> Seq<char> {
    match kind {
        Kind::Punctuator => "Punctuator"@,
        Kind::Name => "Name"@,
        Kind::IntValue => "IntValue"@,
        Kind::FloatValue => "FloatValue"@,
        Kind::StringValue => "StringValue"@,
        Kind::BlockString => "BlockString"@,
    }
}

/// The punctuator `value`, and nothing else.
pub open spec fn punct(src: Source, i: int, value: Seq<char>) -> Parsed<()> {
    if at_punct(src, i, value) {
        Parsed::Done { value: (), next: i + 1 }
    } else {
        Parsed::Failed { error: unexpected(src, i, seq![value]), at: i }
    }
}

/// The name `value`, and nothing else.
pub open spec fn ident(src: Source, i: int, value: Seq<char>) -> Parsed<()> {
    if at_ident(src, i, value) {
        Parsed::Done { value: (), next: i + 1 }
    } else {
        Parsed::Failed { error: unexpected(src, i, seq![value]), at: i }
    }
}

/// Any token of kind `wanted`.
pub open spec fn kind(src: Source, i: int, wanted: Kind) -> Parsed<TokenModel> {
    if at_kind(src, i, wanted) {
        Parsed::Done { value: src.tokens[i], next: i + 1 }
    } else {
        Parsed::Failed { error: unexpected(src, i, seq![kind_label(wanted)]), at: i }
    }
}

/// Any name; the value is its text.
pub open spec fn name(src: Source, i: int) -> Parsed<Seq<char>> {
    if at_kind(src, i, Kind::Name) {
        Parsed::Done { value: src.tokens[i].value, next: i + 1 }
    } else {
        Parsed::Failed { error: unexpected(src, i, seq![kind_label(Kind::Name)]), at: i }
    }
}

/// Whether the cursor of `after` stands behind that of `before`, and not
/// behind the last token.
pub open spec fn advanced(before: TokenStream, after: TokenStream) -> bool {
    before.cursor < after.cursor <= before.tokens.len()
}

/// Whether the cursor of `after` stands where that of `before` stood, or
/// behind it and not behind the last token.
pub open spec fn not_behind(before: TokenStream, after: TokenStream) -> bool {
    before.cursor == after.cursor || advanced(before, after)
}

/// Whether an executable rule did what the grammar says: it left the
/// tokens as they were, and it answered `r` and left the cursor of
/// `after` as `answer` tells.
pub open spec fn outcome<T: DeepView>(
    before: TokenStream,
    after: TokenStream,
    r: Result<T, ParseError>,
    answer: Parsed<T::V>,
) -> bool {
    &&& after.tokens == before.tokens
    &&& after.end == before.end
    &&& after.fault == before.fault
    &&& match answer {
        Parsed::Done { value, next } => r is Ok && r->Ok_0.deep_view() == value && after.cursor
            == next,
        Parsed::Failed { error, at } => r is Err && r->Err_0.deep_view() == error && after.cursor
            == at,
    }
}

} // verus!

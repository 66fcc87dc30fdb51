//! The smallest executable rules: each looks at the token under the
//! cursor and takes it or refuses it.
use vstd::prelude::*;
use vstd::string::StrSliceExecFns;
use vstd::string::StringExecFns;
use crate::error::{ErrorItem, ErrorItemModel, ParseError};
use crate::position::Pos;
use crate::syntax;
use crate::syntax::outcome;
use crate::tokenizer::{Kind, Token, TokenStream};

verus! {

/// Whether `value` and `word` hold the same characters.
pub fn text_is(value: &str, word: &str) -> (r: bool)
    ensures
        r == (value@ == word@),
{
    let n = word.unicode_len();
    if value.unicode_len() != n {
        return false;
    }
    let mut i: usize = 0;
    while i < n
        invariant
            i <= n,
            n == word@.len(),
            n == value@.len(),
            forall|j: int| 0 <= j < i ==> value@[j] == word@[j],
        decreases n - i,
    {
        if value.get_char(i) != word.get_char(i) {
            return false;
        }
        i += 1;
    }
    assert(value@ =~= word@);
    true
}

/// The name by which a diagnostic calls a kind of token.
pub fn label_of(kind: Kind) -> (r: &'static str)
    ensures
        r@ == syntax::kind_label(kind),
{
    match kind {
        Kind::Punctuator => "Punctuator",
        Kind::Name => "Name",
        Kind::IntValue => "IntValue",
        Kind::FloatValue => "FloatValue",
        Kind::StringValue => "StringValue",
        Kind::BlockString => "BlockString",
    }
}

impl TokenStream {
    /// The token under the cursor, if the cursor has not passed the last.
    pub fn peek(&self) -> (r: Option<&Token>)
        ensures
            match r {
                Some(token) => self.cursor < self.tokens.len() && *token
                    == self.tokens[self.cursor as int],
                None => self.cursor >= self.tokens.len(),
            },
    {
        if self.cursor < self.tokens.len() {
            Some(&self.tokens[self.cursor])
        } else {
            None
        }
    }

    /// The place of the token under the cursor; behind the last token,
    /// the place where the tokens end.
    pub fn position(&self) -> (p: Pos)
        ensures
            p == syntax::place(self@, self.cursor as int),
    {
        match self.peek() {
            Some(token) => token.position,
            None => self.end,
        }
    }

    /// What stands under the cursor, as an entry of a diagnostic.
    pub fn found(&self) -> (r: ErrorItem)
        ensures
            r.deep_view() == syntax::found(self@, self.cursor as int),
    {
        match self.peek() {
            Some(token) => ErrorItem::UnexpectedToken {
                kind: token.kind,
                value: token.value.clone(),
            },
            None => match &self.fault {
                Some(message) => ErrorItem::Unexpected(message.clone()),
                None => ErrorItem::UnexpectedEnd,
            },
        }
    }

    /// The diagnostic for the token under the cursor where one of
    /// `labels` was needed.
    pub fn unexpected(&self, labels: Vec<&str>) -> (r: ParseError)
        ensures
            r.deep_view() == syntax::unexpected(self@, self.cursor as int, labels.deep_view()),
    {
        let mut error = ParseError::empty(self.position());
        error.push(self.found());
        let ghost first = error.errors.deep_view();
        assert(first =~= seq![syntax::found(self@, self.cursor as int)]);
        let ghost wanted = labels.deep_view().map_values(
            |label: Seq<char>| ErrorItemModel::Expected(label),
        );
        let mut i: usize = 0;
        while i < labels.len()
            invariant
                i <= labels.len(),
                error.position == syntax::place(self@, self.cursor as int),
                wanted == labels.deep_view().map_values(
                    |label: Seq<char>| ErrorItemModel::Expected(label),
                ),
                error.errors.deep_view() =~= first + wanted.take(i as int),
            decreases labels.len() - i,
        {
            error.push(ErrorItem::Expected(String::from_str(labels[i])));
            i += 1;
        }
        assert(wanted.take(i as int) =~= wanted);
        error
    }

    /// The diagnostic for the token under the cursor where `label` was
    /// needed.
    pub fn refuse(&self, label: &str) -> (r: ParseError)
        ensures
            r.deep_view() == syntax::unexpected(self@, self.cursor as int, seq![label@]),
    {
        let mut labels: Vec<&str> = Vec::new();
        labels.push(label);
        assert(labels.deep_view() =~= seq![label@]);
        self.unexpected(labels)
    }
}

/// Whether a token of kind `kind` stands under the cursor.
pub fn at_kind(input: &TokenStream, kind: Kind) -> (r: bool)
    ensures
        r == syntax::at_kind(input@, input.cursor as int, kind),
        r ==> input.cursor < input.tokens.len(),
{
    match input.peek() {
        Some(token) => token.kind == kind,
        None => false,
    }
}

/// Whether the punctuator `value` stands under the cursor.
pub fn at_punct(input: &TokenStream, value: &str) -> (r: bool)
    ensures
        r == syntax::at_punct(input@, input.cursor as int, value@),
        r ==> input.cursor < input.tokens.len(),
{
    match input.peek() {
        Some(token) => token.kind == Kind::Punctuator && text_is(token.value.as_str(), value),
        None => false,
    }
}

/// Whether the name `value` stands under the cursor.
pub fn at_ident(input: &TokenStream, value: &str) -> (r: bool)
    ensures
        r == syntax::at_ident(input@, input.cursor as int, value@),
        r ==> input.cursor < input.tokens.len(),
{
    match input.peek() {
        Some(token) => token.kind == Kind::Name && text_is(token.value.as_str(), value),
        None => false,
    }
}

/// Whether the cursor stands behind the last token of a text that was cut
/// to its end.
pub fn at_end(input: &TokenStream) -> (r: bool)
    ensures
        r == syntax::at_end(input@, input.cursor as int),
{
    input.cursor >= input.tokens.len() && input.fault.is_none()
}

/// Takes the punctuator `value`.
pub fn punct(input: &mut TokenStream, value: &str) -> (r: Result<(), ParseError>)
    ensures
        outcome(
            *old(input),
            *final(input),
            r,
            syntax::punct(old(input)@, old(input).cursor as int, value@),
        ),
        r is Ok ==> syntax::advanced(*old(input), *final(input)),
{
    if at_punct(input, value) {
        input.cursor = input.cursor + 1;
        Ok(())
    } else {
        Err(input.refuse(value))
    }
}

/// Takes the name `value`.
pub fn ident(input: &mut TokenStream, value: &str) -> (r: Result<(), ParseError>)
    ensures
        outcome(
            *old(input),
            *final(input),
            r,
            syntax::ident(old(input)@, old(input).cursor as int, value@),
        ),
        r is Ok ==> syntax::advanced(*old(input), *final(input)),
{
    if at_ident(input, value) {
        input.cursor = input.cursor + 1;
        Ok(())
    } else {
        Err(input.refuse(value))
    }
}

/// Takes a token of kind `wanted`.
pub fn kind(input: &mut TokenStream, wanted: Kind) -> (r: Result<Token, ParseError>)
    ensures
        outcome(
            *old(input),
            *final(input),
            r,
            syntax::kind(old(input)@, old(input).cursor as int, wanted),
        ),
        r is Ok ==> syntax::advanced(*old(input), *final(input)),
{
    if at_kind(input, wanted) {
        let token = input.tokens[input.cursor].clone();
        input.cursor = input.cursor + 1;
        Ok(token)
    } else {
        Err(input.refuse(label_of(wanted)))
    }
}

/// Takes a name and gives its text.
pub fn name(input: &mut TokenStream) -> (r: Result<String, ParseError>)
    ensures
        outcome(
            *old(input),
            *final(input),
            r,
            syntax::name(old(input)@, old(input).cursor as int),
        ),
        r is Ok ==> syntax::advanced(*old(input), *final(input)),
{
    if at_kind(input, Kind::Name) {
        let text = input.tokens[input.cursor].value.clone();
        input.cursor = input.cursor + 1;
        Ok(text)
    } else {
        Err(input.refuse("Name"))
    }
}

} // verus!

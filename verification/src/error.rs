//! What a rule answers when the tokens do not fit.
use vstd::prelude::*;
use crate::position::Pos;
use crate::tokenizer::{lemma_push_deep_view, Kind};

verus! {

/// One entry of a diagnostic.
#[derive(Debug, PartialEq)]
pub enum ErrorItem {
    /// The token that stood where something else was needed.
    UnexpectedToken { kind: Kind, value: String },
    /// The text ended where something was needed.
    UnexpectedEnd,
    /// Something that must not be there, in words.
    Unexpected(String),
    /// Something that would have been accepted.
    Expected(String),
    /// Why a token of the right kind could not be taken.
    Message(String),
}

/// An entry of a diagnostic as a mathematical value.
pub enum ErrorItemModel {
    UnexpectedToken { kind: Kind, value: Seq<char> },
    UnexpectedEnd,
    Unexpected(Seq<char>),
    Expected(Seq<char>),
    Message(Seq<char>),
}

impl DeepView for ErrorItem {
    type V = ErrorItemModel;

    open spec fn deep_view(&self) -> ErrorItemModel {
        match self {
            ErrorItem::UnexpectedToken { kind, value } => ErrorItemModel::UnexpectedToken {
                kind: *kind,
                value: value@,
            },
            ErrorItem::UnexpectedEnd => ErrorItemModel::UnexpectedEnd,
            ErrorItem::Unexpected(text) => ErrorItemModel::Unexpected(text@),
            ErrorItem::Expected(text) => ErrorItemModel::Expected(text@),
            ErrorItem::Message(text) => ErrorItemModel::Message(text@),
        }
    }
}

impl ErrorItem {
    /// Whether the two entries say the same.
    pub fn same(&self, other: &ErrorItem) -> (r: bool)
        ensures
            r == (self.deep_view() == other.deep_view()),
    {
        match (self, other) {
            (
                ErrorItem::UnexpectedToken { kind: k1, value: v1 },
                ErrorItem::UnexpectedToken { kind: k2, value: v2 },
            ) => *k1 == *k2 && *v1 == *v2,
            (ErrorItem::UnexpectedEnd, ErrorItem::UnexpectedEnd) => true,
            (ErrorItem::Unexpected(a), ErrorItem::Unexpected(b)) => *a == *b,
            (ErrorItem::Expected(a), ErrorItem::Expected(b)) => *a == *b,
            (ErrorItem::Message(a), ErrorItem::Message(b)) => *a == *b,
            _ => false,
        }
    }
}

/// A diagnostic: the place it speaks of and its entries.
#[derive(Debug, PartialEq)]
pub struct ParseError {
    pub position: Pos,
    pub errors: Vec<ErrorItem>,
}

/// A diagnostic as a mathematical value.
pub struct ErrorModel {
    pub position: Pos,
    pub errors: Seq<ErrorItemModel>,
}

impl DeepView for ParseError {
    type V = ErrorModel;

    open spec fn deep_view(&self) -> ErrorModel {
        ErrorModel { position: self.position, errors: self.errors.deep_view() }
    }
}

/// The entries `errors` with `item` added behind them, unless it is
/// already among them.
pub open spec fn with_item(errors: Seq<ErrorItemModel>, item: ErrorItemModel) -> Seq<
    ErrorItemModel,
> {
    if errors.contains(item) {
        errors
    } else {
        errors.push(item)
    }
}

impl ParseError {
    /// A diagnostic for `position` that has no entry yet.
    pub fn empty(position: Pos) -> (r: ParseError)
        ensures
            r.deep_view() == (ErrorModel { position, errors: Seq::empty() }),
    {
        let r = ParseError { position, errors: Vec::new() };
        assert(r.errors.deep_view() =~= Seq::<ErrorItemModel>::empty());
        r
    }

    /// Adds `item`, unless an entry that says the same is already there.
    pub fn add_error(&mut self, item: ErrorItem)
        ensures
            final(self).position == old(self).position,
            final(self).errors.deep_view() == with_item(
                old(self).errors.deep_view(),
                item.deep_view(),
            ),
    {
        let mut i: usize = 0;
        while i < self.errors.len()
            invariant
                i <= self.errors.len(),
                *self == *old(self),
                forall|j: int| 0 <= j < i ==> self.errors.deep_view()[j] != item.deep_view(),
            decreases self.errors.len() - i,
        {
            if self.errors[i].same(&item) {
                assert(self.errors.deep_view()[i as int] == item.deep_view());
                return ;
            }
            i += 1;
        }
        let ghost before = self.errors;
        self.errors.push(item);
        proof {
            lemma_push_deep_view(before, self.errors, item);
        }
    }

    /// Adds `item` behind the entries, whatever they are.
    pub fn push(&mut self, item: ErrorItem)
        ensures
            final(self).position == old(self).position,
            final(self).errors.deep_view() == old(self).errors.deep_view().push(item.deep_view()),
    {
        let ghost before = self.errors;
        self.errors.push(item);
        proof {
            lemma_push_deep_view(before, self.errors, item);
        }
    }
}

} // verus!

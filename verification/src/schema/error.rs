//! Why a schema text could not be read.
use vstd::prelude::*;
use crate::error::{ErrorModel, ParseError};

verus! {

/// The diagnostic of a schema text that could not be read: the place it
/// speaks of and its entries.
#[derive(Debug, PartialEq)]
pub struct SchemaParseError(pub ParseError);

impl DeepView for SchemaParseError {
    type V = ErrorModel;

    open spec fn deep_view(&self) -> ErrorModel {
        self.0.deep_view()
    }
}

} // verus!

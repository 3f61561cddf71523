//! Reported conditions. Structural errors (duplicate names, a missing lang
//! item) are recoverable and are collected into result lists so one
//! compilation surfaces as many independent diagnostics as possible.
//! Internal invariant violations (reading a declared-but-undefined body) are
//! not represented here: the registry's contracts rule them out, so verified
//! code never raises them.

use vstd::prelude::*;

use crate::syntax::{Ident, Span};

verus! {

/// The mathematical shape of a reported condition: the same three kinds as
/// [`Error`], with the offending name as its character sequence.
#[verifier::ext_equal]
pub enum ErrorView {
    /// A type-level name was declared twice; `first` is the span of the
    /// declaration that owns the name, `second` the rejected one.
    DuplicateTypeName { name: Seq<char>, first: Span, second: Span },
    /// A constructor name was registered twice; `first` is the span of the
    /// constructor that owns the name, `second` the rejected one.
    DuplicateConsName { name: Seq<char>, first: Span, second: Span },
    /// No declaration registered itself as the named lang item.
    MissingLangItem { name: Seq<char> },
}

/// A user-facing structural error, reported with the data a diagnostic needs.
#[derive(Clone, Debug, PartialEq, Eq)]
pub enum Error {
    /// `name` is already taken in the shared data/alias namespace; `first` is
    /// the span of the original declaration, `second` the span of the
    /// rejected one.
    DuplicateTypeName { name: Ident, first: Span, second: Span },
    /// `name` is already taken in the global constructor namespace; `first`
    /// is the span of the original constructor, `second` the span of the
    /// rejected one.
    DuplicateConsName { name: Ident, first: Span, second: Span },
    /// No declaration registered itself as the lang item `name`.
    MissingLangItem { name: Ident },
}

impl View for Error {
    type V = ErrorView;

    open spec fn view(&self) -> ErrorView {
        match self {
            Error::DuplicateTypeName { name, first, second } => ErrorView::DuplicateTypeName {
                name: name@,
                first: *first,
                second: *second,
            },
            Error::DuplicateConsName { name, first, second } => ErrorView::DuplicateConsName {
                name: name@,
                first: *first,
                second: *second,
            },
            Error::MissingLangItem { name } => ErrorView::MissingLangItem { name: name@ },
        }
    }
}

/// The views of a sequence of errors, in order.
pub open spec fn error_views(s: Seq<Error>) -> Seq<ErrorView> {
    s.map_values(|e: Error| e@)
}

} // verus!

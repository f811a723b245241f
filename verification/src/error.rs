//! Failures of the lowering. Each aborts the translation of the statement.

use vstd::prelude::*;

verus! {

/// Why a query could not be lowered.
#[derive(Debug, PartialEq, Eq)]
pub enum LoweringError {
    /// A `COLLATE` annotation names a collation that is not registered.
    UnknownCollation(String),
    /// An expression refers to a column position that its table does not have.
    ColumnIndexOutOfBounds,
    /// An expression refers to a table that the query does not refer to.
    UnknownTable,
    /// An expression calls a function that the engine does not have.
    UnknownFunction(String),
}

/// The mathematical value of a [`LoweringError`].
pub enum LoweringErrorView {
    UnknownCollation(Seq<char>),
    ColumnIndexOutOfBounds,
    UnknownTable,
    UnknownFunction(Seq<char>),
}

impl LoweringErrorView {
    /// What the failure is reported with.
    pub open spec fn message(self) -> Seq<char> {
        match self {
            LoweringErrorView::UnknownCollation(name) => "no such collation sequence: "@ + name,
            LoweringErrorView::ColumnIndexOutOfBounds => "column index out of bounds"@,
            LoweringErrorView::UnknownTable => "no such table"@,
            LoweringErrorView::UnknownFunction(name) => "no such function: "@ + name,
        }
    }
}

impl LoweringError {
    /// The text that the failure is reported with. The name of a collation
    /// or function that is not known stands at its end.
    pub fn message(&self) -> (r: String)
        ensures
            r@ == self@.message(),
    {
        match self {
            LoweringError::UnknownCollation(name) => {
                let mut text = String::from_str("no such collation sequence: ");
                text.append(name.as_str());
                text
            },
            LoweringError::ColumnIndexOutOfBounds => String::from_str("column index out of bounds"),
            LoweringError::UnknownTable => String::from_str("no such table"),
            LoweringError::UnknownFunction(name) => {
                let mut text = String::from_str("no such function: ");
                text.append(name.as_str());
                text
            },
        }
    }
}

impl View for LoweringError {
    type V = LoweringErrorView;

    open spec fn view(&self) -> LoweringErrorView {
        match self {
            LoweringError::UnknownCollation(name) => LoweringErrorView::UnknownCollation(name@),
            LoweringError::ColumnIndexOutOfBounds => LoweringErrorView::ColumnIndexOutOfBounds,
            LoweringError::UnknownTable => LoweringErrorView::UnknownTable,
            LoweringError::UnknownFunction(name) => LoweringErrorView::UnknownFunction(name@),
        }
    }
}

/// A result with the mathematical value of its error.
pub open spec fn outcome<T>(r: Result<T, LoweringError>) -> Result<T, LoweringErrorView> {
    match r {
        Ok(v) => Ok(v),
        Err(e) => Err(e@),
    }
}

impl Clone for LoweringError {
    fn clone(&self) -> (r: Self)
        ensures
            r@ == self@,
    {
        match self {
            LoweringError::UnknownCollation(name) => LoweringError::UnknownCollation(name.clone()),
            LoweringError::ColumnIndexOutOfBounds => LoweringError::ColumnIndexOutOfBounds,
            LoweringError::UnknownTable => LoweringError::UnknownTable,
            LoweringError::UnknownFunction(name) => LoweringError::UnknownFunction(name.clone()),
        }
    }
}

} // verus!

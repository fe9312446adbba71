use vstd::prelude::*;

verus! {

/// Errors of `ALTER`-like statements on user-defined functions.
#[derive(Debug, Clone, PartialEq, Eq)]
pub enum AlterError {
    FunctionAlreadyExists(String),
    FunctionNotFound(String),
    DuplicateArgName(String),
    NonDefaultArgumentFollowsDefaultArgument,
}

/// Errors of fetching rows or columns.
#[derive(Debug, Clone, PartialEq, Eq)]
pub enum FetchError {
    TableNotFound(String),
}

/// Errors of evaluating an expression against a row.
#[derive(Debug, Clone, PartialEq, Eq)]
pub enum EvaluateError {
    IdentifierNotFound(String),
    BooleanTypeRequired,
    IncomparableValues,
    UnboundParameter(usize),
}

/// Errors of binding statement parameters.
#[derive(Debug, Clone, PartialEq, Eq)]
pub enum TranslateError {
    ParameterIndexOutOfRange(usize),
}

/// Every error of the library; storages report theirs as `StorageMsg`.
#[derive(Debug, Clone, PartialEq, Eq)]
pub enum Error {
    StorageMsg(String),
    Alter(AlterError),
    Fetch(FetchError),
    Evaluate(EvaluateError),
    Translate(TranslateError),
}

pub type Result<T> = core::result::Result<T, Error>;

} // verus!

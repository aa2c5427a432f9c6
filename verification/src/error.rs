//! What a request is answered when it cannot be served.
use vstd::prelude::*;
use vstd::string::*;

verus! {

/// Why a request is refused or fails.
#[derive(Debug)]
pub enum AppError {
    NotFound,
    Forbidden,
    Conflict,
    ContentTooLarge,
    /// The request is wrong, with an explanation for its sender.
    BadRequestDetail(String),
    /// Something failed that the sender cannot help, with an explanation for
    /// the operator.
    Internal(String),
}

/// An error, in the terms of the contracts.
pub enum AppErrorView {
    NotFound,
    Forbidden,
    Conflict,
    ContentTooLarge,
    BadRequestDetail(Seq<char>),
    Internal(Seq<char>),
}

impl View for AppError {
    type V = AppErrorView;

    open spec fn view(&self) -> AppErrorView {
        match self {
            AppError::NotFound => AppErrorView::NotFound,
            AppError::Forbidden => AppErrorView::Forbidden,
            AppError::Conflict => AppErrorView::Conflict,
            AppError::ContentTooLarge => AppErrorView::ContentTooLarge,
            AppError::BadRequestDetail(detail) => AppErrorView::BadRequestDetail(detail@),
            AppError::Internal(detail) => AppErrorView::Internal(detail@),
        }
    }
}

/// A row that was looked for: the row, or the answer that there is none.
pub fn found<T>(row: Option<T>) -> (outcome: Result<T, AppError>)
    ensures
        match row {
            Some(row) => outcome == Ok::<T, AppError>(row),
            None => outcome matches Err(error) && error@ == AppErrorView::NotFound,
        },
{
    match row {
        Some(row) => Ok(row),
        None => Err(AppError::NotFound),
    }
}

} // verus!

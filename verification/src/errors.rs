//! The error that commands report.

use vstd::prelude::*;
use crate::text::text_of;

verus! {

/// Why a command did not do what was asked.
#[derive(Debug)]
pub enum AppError {
    /// An engine refused or failed, with its own words.
    Engine(String),
    /// The manager itself could not go on.
    Internal(String),
    /// What the user confirmed is no longer what is there.
    StaleExpectation(String),
    /// Another operation is in the way.
    Busy(String),
    /// The platform has no such command.
    UnsupportedPlatform,
}

/// An error with its text as characters.
pub enum ErrorView {
    Engine(Seq<char>),
    Internal(Seq<char>),
    StaleExpectation(Seq<char>),
    Busy(Seq<char>),
    UnsupportedPlatform,
}

impl View for AppError {
    type V = ErrorView;

    open spec fn view(&self) -> ErrorView {
        match self {
            AppError::Engine(t) => ErrorView::Engine(t@),
            AppError::Internal(t) => ErrorView::Internal(t@),
            AppError::StaleExpectation(t) => ErrorView::StaleExpectation(t@),
            AppError::Busy(t) => ErrorView::Busy(t@),
            AppError::UnsupportedPlatform => ErrorView::UnsupportedPlatform,
        }
    }
}

impl ErrorView {
    /// The words of the error.
    pub open spec fn words(self) -> Seq<char> {
        match self {
            ErrorView::Engine(t) => t,
            ErrorView::Internal(t) => t,
            ErrorView::StaleExpectation(t) => t,
            ErrorView::Busy(t) => t,
            ErrorView::UnsupportedPlatform => "unsupported platform"@,
        }
    }
}

impl AppError {
    /// The words of the error.
    pub fn text(&self) -> (r: String)
        ensures
            r@ == self@.words(),
    {
        match self {
            AppError::Engine(t) => text_of(t.as_str()),
            AppError::Internal(t) => text_of(t.as_str()),
            AppError::StaleExpectation(t) => text_of(t.as_str()),
            AppError::Busy(t) => text_of(t.as_str()),
            AppError::UnsupportedPlatform => text_of("unsupported platform"),
        }
    }

    /// The same error once more.
    pub fn copy(&self) -> (r: AppError)
        ensures
            r@ == self@,
    {
        match self {
            AppError::Engine(t) => AppError::Engine(text_of(t.as_str())),
            AppError::Internal(t) => AppError::Internal(text_of(t.as_str())),
            AppError::StaleExpectation(t) => AppError::StaleExpectation(text_of(t.as_str())),
            AppError::Busy(t) => AppError::Busy(text_of(t.as_str())),
            AppError::UnsupportedPlatform => AppError::UnsupportedPlatform,
        }
    }
}

/// An engine error with these words.
pub fn engine(words: &str) -> (r: AppError)
    ensures
        r@ == ErrorView::Engine(words@),
{
    AppError::Engine(text_of(words))
}

/// An internal error with these words.
pub fn internal(words: &str) -> (r: AppError)
    ensures
        r@ == ErrorView::Internal(words@),
{
    AppError::Internal(text_of(words))
}

/// A stale expectation with these words.
pub fn stale(words: &str) -> (r: AppError)
    ensures
        r@ == ErrorView::StaleExpectation(words@),
{
    AppError::StaleExpectation(text_of(words))
}

/// A text made of two parts.
pub fn said(before: &str, after: &str) -> (r: String)
    ensures
        r@ == before@ + after@,
{
    let mut all = crate::text::chars_of(before);
    crate::text::push_str(&mut all, after);
    crate::text::string_of(all.as_slice())
}

/// A text made of three parts.
pub fn said_around(before: &str, middle: &str, after: &str) -> (r: String)
    ensures
        r@ == before@ + middle@ + after@,
{
    let mut all = crate::text::chars_of(before);
    crate::text::push_str(&mut all, middle);
    crate::text::push_str(&mut all, after);
    crate::text::string_of(all.as_slice())
}

} // verus!

//! Error types for the store and the registry.
//!
//! `FileError` covers the two ways a document can fail to move between
//! memory and disk: the underlying file operation failed (`IoError`, with
//! the operating system's message preserved), or the file's text was not a
//! well-formed document (`SerdeError`, with the decoder's message).
//! `ResultError` is the error type of every library operation: either a
//! `FileError`, or `OtherError` for a named entity that was looked up and
//! found absent.

use vstd::prelude::*;

verus! {

#[derive(Debug, PartialEq, Eq)]
pub enum FileError {
    IoError(String),
    SerdeError(String),
}

#[derive(Debug, PartialEq, Eq)]
pub enum ResultError {
    FileError(FileError),
    OtherError(String),
}

/// Mathematical image of a `FileError`: the same shape over `Seq<char>`.
pub enum FileErrorView {
    IoError(Seq<char>),
    SerdeError(Seq<char>),
}

/// Mathematical image of a `ResultError`.
pub enum ResultErrorView {
    FileError(FileErrorView),
    OtherError(Seq<char>),
}

impl View for FileError {
    type V = FileErrorView;

    open spec fn view(&self) -> FileErrorView {
        match self {
            FileError::IoError(m) => FileErrorView::IoError(m@),
            FileError::SerdeError(m) => FileErrorView::SerdeError(m@),
        }
    }
}

impl View for ResultError {
    type V = ResultErrorView;

    open spec fn view(&self) -> ResultErrorView {
        match self {
            ResultError::FileError(e) => ResultErrorView::FileError(e@),
            ResultError::OtherError(m) => ResultErrorView::OtherError(m@),
        }
    }
}

} // verus!

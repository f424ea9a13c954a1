//! The flat-file store, free of the file system: a caller reads the file
//! itself and hands in what happened as a [`ReadOutcome`]; writing means
//! taking the rendered document text back to disk.
//!
//! A document is one of two shapes: the full registry of profiles, or a
//! single profile snapshot (the current-profile pointer).  A missing file
//! stands for an empty registry, never an error.

use vstd::prelude::*;

use crate::codec::decode_contents;
use crate::errors::FileError;
use crate::errors::FileErrorView;
use crate::errors::ResultError;
use crate::errors::ResultErrorView;
use crate::json::parse_document;
use crate::res_view;
use crate::user_profile::UserProfile;
use crate::user_profile::UserProfileView;
use crate::user_profile::Users;
use crate::user_profile::UsersView;

verus! {

/// A tagged document: the registry of all profiles, or one profile
/// snapshot.
#[derive(Debug, PartialEq)]
pub enum FileContents {
    Users(Users),
    UserProfile(UserProfile),
}

/// Mathematical image of a document.
pub enum ContentsView {
    Users(UsersView),
    UserProfile(UserProfileView),
}

impl View for FileContents {
    type V = ContentsView;

    open spec fn view(&self) -> ContentsView {
        match self {
            FileContents::Users(u) => ContentsView::Users(u@),
            FileContents::UserProfile(p) => ContentsView::UserProfile(p@),
        }
    }
}

/// What happened when the caller read a file: the file was not there,
/// its whole text was read, or the read failed with a message.
#[derive(Debug, PartialEq)]
pub enum ReadOutcome {
    Missing,
    Data(String),
    Failure(String),
}

/// Mathematical image of a read outcome.
pub enum ReadOutcomeView {
    Missing,
    Data(Seq<char>),
    Failure(Seq<char>),
}

impl View for ReadOutcome {
    type V = ReadOutcomeView;

    open spec fn view(&self) -> ReadOutcomeView {
        match self {
            ReadOutcome::Missing => ReadOutcomeView::Missing,
            ReadOutcome::Data(s) => ReadOutcomeView::Data(s@),
            ReadOutcome::Failure(m) => ReadOutcomeView::Failure(m@),
        }
    }
}

/// What a read outcome means: a missing file is an empty registry, valid
/// document text is that document, any other text fails to decode, and a
/// failed read stays an error.
pub open spec fn read_file_spec(o: ReadOutcomeView) -> Result<ContentsView, ResultErrorView> {
    match o {
        ReadOutcomeView::Missing => Ok(
            ContentsView::Users(UsersView { users: Seq::<UserProfileView>::empty() }),
        ),
        ReadOutcomeView::Data(s) => match parse_document(s) {
            Some(c) => Ok(c),
            None => Err(
                ResultErrorView::FileError(
                    FileErrorView::SerdeError("file does not hold a valid document"@),
                ),
            ),
        },
        ReadOutcomeView::Failure(m) => Err(
            ResultErrorView::FileError(FileErrorView::IoError(m)),
        ),
    }
}

/// The document a read outcome holds.  A missing file stands for an
/// empty registry — never an error; unreadable text is a decode error;
/// a failed read is an I/O error.
pub fn read_file(outcome: &ReadOutcome) -> (r: Result<FileContents, ResultError>)
    ensures
        res_view(r) == read_file_spec(outcome@),
{
    match outcome {
        ReadOutcome::Missing => {
            let r = Ok(FileContents::Users(Users::new()));
            proof {
                assert(res_view(r) == read_file_spec(outcome@));
            }
            r
        },
        ReadOutcome::Data(s) => match decode_contents(s.as_str()) {
            Some(c) => Ok(c),
            None => Err(
                ResultError::FileError(
                    FileError::SerdeError("file does not hold a valid document".to_owned()),
                ),
            ),
        },
        ReadOutcome::Failure(m) => Err(ResultError::FileError(FileError::IoError(m.clone()))),
    }
}

/// The store's round trip: a document rendered by `encode_contents` and
/// read back through `read_file` is returned unchanged — in particular,
/// writing a registry and loading the same path yields an equal registry.
pub proof fn lemma_write_read_round_trip(c: ContentsView)
    ensures
        read_file_spec(ReadOutcomeView::Data(crate::json::render_contents(c))) == Ok::<
            ContentsView,
            crate::errors::ResultErrorView,
        >(c),
{
    crate::json::lemma_document_round_trip(c);
}

} // verus!

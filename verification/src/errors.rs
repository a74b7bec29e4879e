//! The error taxonomy of generation requests.
//!
//! Every failure of a request is one of these kinds, with the offending
//! identifier or path attached, so a caller can render a precise message.
//! No error is retried internally and none is swallowed: a request either
//! returns a fully populated manifest or exactly one of these.

use vstd::prelude::*;

verus! {

/// Why a generation request failed.
#[derive(Debug)]
pub enum GenError {
    /// The catalog has no template under the requested key.
    TemplateNotFound(Vec<u8>),
    /// A variable the schema requires has neither a supplied value nor a
    /// default; the variable's name is attached.
    MissingRequiredVariable(Vec<u8>),
    /// A supplied (or default) value violates its variable's naming rule.
    InvalidVariable(Vec<u8>),
    /// A placeholder token's identifier has no binding: the identifier and
    /// the template-relative path of the file it occurred in.
    UndefinedVariable { name: Vec<u8>, path: Vec<u8> },
    /// The target already holds content (or two rendered files collide on one
    /// path); the colliding path is attached.
    FileConflict(Vec<u8>),
    /// Writing the staging area failed; staging artifacts were cleaned up.
    StagingIoFailure(Vec<u8>),
    /// Promoting the staged tree to the target failed.
    CommitIoFailure(Vec<u8>),
}

/// The mathematical shape of a [`GenError`], over byte sequences.
pub enum ErrorModel {
    TemplateNotFound(Seq<u8>),
    MissingRequiredVariable(Seq<u8>),
    InvalidVariable(Seq<u8>),
    UndefinedVariable(Seq<u8>, Seq<u8>),
    FileConflict(Seq<u8>),
    StagingIoFailure(Seq<u8>),
    CommitIoFailure(Seq<u8>),
}

impl View for GenError {
    type V = ErrorModel;

    open spec fn view(&self) -> ErrorModel {
        match self {
            GenError::TemplateNotFound(k) => ErrorModel::TemplateNotFound(k@),
            GenError::MissingRequiredVariable(n) => ErrorModel::MissingRequiredVariable(n@),
            GenError::InvalidVariable(n) => ErrorModel::InvalidVariable(n@),
            GenError::UndefinedVariable { name, path } => ErrorModel::UndefinedVariable(
                name@,
                path@,
            ),
            GenError::FileConflict(p) => ErrorModel::FileConflict(p@),
            GenError::StagingIoFailure(p) => ErrorModel::StagingIoFailure(p@),
            GenError::CommitIoFailure(p) => ErrorModel::CommitIoFailure(p@),
        }
    }
}

} // verus!

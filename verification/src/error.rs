//! Why a command fails. Every failure ends the command; nothing is retried.

use vstd::prelude::*;
use crate::hooks::GenerationError;
use crate::text::{chars_of, string_of};

verus! {

/// What is wrong with the place of a project.
#[derive(Clone, Copy, Debug, PartialEq, Eq, Structural)]
pub enum FileSystemProblem {
    /// A new project is asked for where something exists already.
    ProjectAlreadyExists,
    /// An existing project is asked for where there is none, or none with a
    /// manifest.
    ProjectNotFound,
}

/// Why a command fails.
#[derive(Clone, Copy, Debug, PartialEq, Eq, Structural)]
pub enum ProxyError {
    /// The image is malformed or exports nothing.
    ParseError,
    /// The processor that the image is built for is none that is supported.
    ArchitectureError,
    /// The project is missing, or stands in the way.
    FileSystemError(FileSystemProblem),
    /// A file could not be rendered from its template.
    TemplateError,
    /// A declared interceptor does not fit its kind of hook.
    GenerationContractError(GenerationError),
}

/// What is said of an image without readable export table.
pub const NO_EXPORT_DIRECTORY: &'static str = "the image has no valid export directory";

/// What is said of an image for an unknown processor.
pub const UNKNOWN_PROCESSOR: &'static str = "the processor of the image is not supported";

/// What is said where a new project would overwrite a folder.
pub const FOLDER_EXISTS: &'static str = "the project folder exists already";

/// What is said where no project is found.
pub const NO_PROJECT: &'static str = "the project folder is missing or holds no manifest";

/// What is said where rendering fails.
pub const NOT_RENDERED: &'static str = "a file could not be rendered from its template";

/// What is said of an interceptor that does not fit its hook.
pub const BAD_INTERCEPTOR: &'static str = "a declared interceptor does not fit its kind of hook";

impl ProxyError {
    /// The line that tells the user what went wrong.
    pub open spec fn message_text(self) -> Seq<char> {
        match self {
            ProxyError::ParseError => NO_EXPORT_DIRECTORY@,
            ProxyError::ArchitectureError => UNKNOWN_PROCESSOR@,
            ProxyError::FileSystemError(FileSystemProblem::ProjectAlreadyExists) => FOLDER_EXISTS@,
            ProxyError::FileSystemError(FileSystemProblem::ProjectNotFound) => NO_PROJECT@,
            ProxyError::TemplateError => NOT_RENDERED@,
            ProxyError::GenerationContractError(_) => BAD_INTERCEPTOR@,
        }
    }

    /// The line that tells the user what went wrong.
    pub fn message(&self) -> (s: String)
        ensures
            s@ == self.message_text(),
    {
        let text = match self {
            ProxyError::ParseError => NO_EXPORT_DIRECTORY,
            ProxyError::ArchitectureError => UNKNOWN_PROCESSOR,
            ProxyError::FileSystemError(FileSystemProblem::ProjectAlreadyExists) => FOLDER_EXISTS,
            ProxyError::FileSystemError(FileSystemProblem::ProjectNotFound) => NO_PROJECT,
            ProxyError::TemplateError => NOT_RENDERED,
            ProxyError::GenerationContractError(_) => BAD_INTERCEPTOR,
        };
        string_of(&chars_of(text))
    }
}

} // verus!

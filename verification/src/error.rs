//! The failures that the library reports.

use vstd::prelude::*;

verus! {

/// `serde_yaml::Error`, carried through as it is.
#[verifier::external_type_specification]
#[verifier::external_body]
pub struct ExYamlError(serde_yaml::Error);

/// `std::io::Error`, carried through as it is.
#[verifier::external_type_specification]
#[verifier::external_body]
pub struct ExIoError(std::io::Error);

/// `std::string::FromUtf8Error`, carried through as it is.
#[verifier::external_type_specification]
#[verifier::external_body]
pub struct ExFromUtf8Error(std::string::FromUtf8Error);

/// What can go wrong while a workflow is built, rendered, read or written.
#[derive(Debug)]
pub enum WorkflowError {
    /// Reading or writing a file failed.
    IO(std::io::Error),
    /// The YAML codec refused a text or a document.
    Yaml(serde_yaml::Error),
    /// The text is YAML, but some part of it has not the shape that its
    /// place in a workflow asks for.
    Parse,
    /// The workflow file on disk differs from the workflow rendered now.
    GitHubWorkflowMismatch,
    /// A job with this identifier is in the workflow already.
    JobIdAlreadyExists(String),
    /// Bytes that should have been text are no UTF-8.
    UTF8(std::string::FromUtf8Error),
    /// The workflow file on disk is older than the workflow rendered now.
    OutdatedWorkflow,
    /// No workflow file is at this path.
    MissingWorkflowFile(String),
    /// Two workflows that should render alike do not.
    WorkflowMismatch,
}

} // verus!

//! What is decided when a workflow is written to its file, or checked
//! against it. The file itself is read and written by the caller.

use crate::codec::Codec;
use crate::error::WorkflowError;
use crate::text::concat;
use crate::workflow::Workflow;
use crate::yaml::yaml_text;
use vstd::prelude::*;
use vstd::string::StringExecFns;

verus! {

/// What is to be done with the file of a workflow.
#[derive(Debug, Clone, PartialEq, Eq)]
pub enum Action {
    /// The file is to be written with this content.
    Write(String),
    /// The file holds the content already. Nothing is written.
    UpToDate,
}

/// Checks the text `cur` of a workflow against the text `prev` of its file:
/// they must be alike where there is a file and the check runs under
/// continuous integration (`ci`).
pub fn validate(cur: &str, prev: Option<&str>, ci: bool) -> (r: Result<(), WorkflowError>)
    ensures
        match r {
            Ok(_) => !(prev matches Some(p) && p@ != cur@ && ci),
            Err(e) => e is GitHubWorkflowMismatch && (prev matches Some(p) && p@ != cur@ && ci),
        },
{
    match prev {
        Some(prev) => {
            if !crate::text::same(cur, prev) && ci {
                Err(WorkflowError::GitHubWorkflowMismatch)
            } else {
                Ok(())
            }
        },
        None => Ok(()),
    }
}

/// A workflow on its way to a file of the repository.
#[derive(Debug, Clone)]
pub struct Generate {
    /// The workflow.
    pub workflow: Workflow,
    /// The name of the file, within the directory of workflows.
    pub name: String,
}

/// The content of the file of a workflow: the comment, a line break, and
/// the text of the workflow.
pub open spec fn file_content(comment: Seq<char>, text: Seq<char>) -> Seq<char> {
    comment + "\n"@ + text
}

impl Generate {
    /// Sets the workflow.
    pub fn workflow(self, value: Workflow) -> (r: Self)
        ensures
            r == (Generate { workflow: value, ..self }),
    {
        let mut r = self;
        r.workflow = value;
        r
    }

    /// Sets the name of the file.
    pub fn name(self, value: &str) -> (r: Self)
        ensures
            r == (Generate { name: r.name, ..self }),
            r.name@ == value@,
    {
        let mut r = self;
        r.name = value.to_owned();
        r
    }

    /// The content that the file should have: `comment`, a line break, and
    /// the text of the workflow. The error of the codec exactly where no
    /// text belongs to the workflow.
    pub fn content(&self, comment: &str) -> (r: Result<String, WorkflowError>)
        ensures
            match yaml_text(Workflow::encode(self.workflow.deep_view())) {
                Some(text) => r matches Ok(content) && content@ == file_content(comment@, text),
                None => r matches Err(WorkflowError::Yaml(_)),
            },
    {
        match self.workflow.to_string() {
            Ok(text) => {
                let mut content = concat(comment, "\n");
                content.append(text.as_str());
                Ok(content)
            },
            Err(e) => Err(e),
        }
    }

    /// What is to be done with the file at `path`, which should hold
    /// `content` and holds `previous`, or is not there.
    ///
    /// Under continuous integration (`ci`) nothing is written: a file that
    /// is not there is missing, and one that differs is outdated. Elsewhere
    /// the content is written.
    pub fn plan(ci: bool, path: &str, content: String, previous: Option<&str>) -> (r: Result<
        Action,
        WorkflowError,
    >)
        ensures
            match r {
                Ok(Action::Write(text)) => !ci && text == content,
                Ok(Action::UpToDate) => ci && (previous matches Some(p) && p@ == content@),
                Err(WorkflowError::OutdatedWorkflow) => ci && (previous matches Some(p) && p@
                    != content@),
                Err(WorkflowError::MissingWorkflowFile(at)) => ci && previous is None && at@
                    == path@,
                Err(_) => false,
            },
    {
        if ci {
            match previous {
                Some(previous) => {
                    if crate::text::same(content.as_str(), previous) {
                        Ok(Action::UpToDate)
                    } else {
                        Err(WorkflowError::OutdatedWorkflow)
                    }
                },
                None => Err(WorkflowError::MissingWorkflowFile(path.to_owned())),
            }
        } else {
            Ok(Action::Write(content))
        }
    }
}

/// A workflow that other workflows are held against.
#[derive(Debug)]
pub struct Worker {
    /// The workflow.
    pub workflow: Workflow,
    /// The path of the file of the workflow.
    pub file: String,
}

impl Worker {
    /// The worker for `workflow`, whose file is `./.github/workflows/ci.yml`.
    pub fn new(workflow: Workflow) -> (r: Self)
        ensures
            r.workflow == workflow,
            r.file@ == "./.github/workflows/ci.yml"@,
    {
        Worker { workflow, file: "./.github/workflows/ci.yml".to_owned() }
    }

    /// Sets the workflow.
    pub fn workflow(self, value: Workflow) -> (r: Self)
        ensures
            r == (Worker { workflow: value, ..self }),
    {
        let mut r = self;
        r.workflow = value;
        r
    }

    /// Sets the path of the file.
    pub fn file(self, value: &str) -> (r: Self)
        ensures
            r == (Worker { file: r.file, ..self }),
            r.file@ == value@,
    {
        let mut r = self;
        r.file = value.to_owned();
        r
    }

    /// The text of the workflow of the worker; the error of the codec
    /// exactly where no text belongs to the workflow.
    pub fn generate(&self) -> (r: Result<String, WorkflowError>)
        ensures
            match r {
                Ok(text) => yaml_text(Workflow::encode(self.workflow.deep_view())) == Some(text@),
                Err(e) => e is Yaml && yaml_text(Workflow::encode(self.workflow.deep_view()))
                    is None,
            },
    {
        self.workflow.to_string()
    }

    /// Holds `actual` against the workflow of the worker: their texts must
    /// be alike. The error of the codec exactly where no text belongs to
    /// one of the two.
    pub fn compare(&self, actual: &Workflow) -> (r: Result<(), WorkflowError>)
        ensures
            match (
                yaml_text(Workflow::encode(self.workflow.deep_view())),
                yaml_text(Workflow::encode(actual.deep_view())),
            ) {
                (Some(expected), Some(found)) => if found == expected {
                    r is Ok
                } else {
                    r matches Err(WorkflowError::WorkflowMismatch)
                },
                _ => r matches Err(WorkflowError::Yaml(_)),
            },
    {
        let expected = match self.generate() {
            Ok(text) => text,
            Err(e) => {
                return Err(e);
            },
        };
        let found = match actual.to_string() {
            Ok(text) => text,
            Err(e) => {
                return Err(e);
            },
        };
        Worker::compared(expected.as_str(), found.as_str())
    }

    /// Holds the text `actual` against the text `expected`.
    pub fn compared(expected: &str, actual: &str) -> (r: Result<(), WorkflowError>)
        ensures
            match r {
                Ok(_) => actual@ == expected@,
                Err(e) => e is WorkflowMismatch && actual@ != expected@,
            },
    {
        if crate::text::same(actual, expected) {
            Ok(())
        } else {
            Err(WorkflowError::WorkflowMismatch)
        }
    }
}

} // verus!

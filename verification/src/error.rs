//! What can go wrong in the scripting runtime and host.
use crate::text::{joined, joined3};
use vstd::prelude::*;
use vstd::string::StringExecFns;

verus! {

/// Errors produced by the scripting runtime and host.
#[derive(Debug, Clone, PartialEq, Eq)]
pub enum ScriptError {
    RuntimeInit { resource: String, message: String },
    Execute { resource: String, script: String, message: String },
    HostGone,
    HostStart(String),
    ResourceNotLoaded(String),
}

/// What a [`ScriptError`] says.
#[verifier::ext_equal]
pub enum ErrorModel {
    RuntimeInit { resource: Seq<char>, message: Seq<char> },
    Execute { resource: Seq<char>, script: Seq<char>, message: Seq<char> },
    HostGone,
    HostStart(Seq<char>),
    ResourceNotLoaded(Seq<char>),
}

impl View for ScriptError {
    type V = ErrorModel;

    open spec fn view(&self) -> ErrorModel {
        match self {
            ScriptError::RuntimeInit { resource, message } => ErrorModel::RuntimeInit {
                resource: resource@,
                message: message@,
            },
            ScriptError::Execute { resource, script, message } => ErrorModel::Execute {
                resource: resource@,
                script: script@,
                message: message@,
            },
            ScriptError::HostGone => ErrorModel::HostGone,
            ScriptError::HostStart(message) => ErrorModel::HostStart(message@),
            ScriptError::ResourceNotLoaded(resource) => ErrorModel::ResourceNotLoaded(resource@),
        }
    }
}

/// How an error reads.
pub open spec fn error_text(error: ErrorModel) -> Seq<char> {
    match error {
        ErrorModel::RuntimeInit { resource, message } => {
            "failed to initialize script runtime for resource "@ + resource + ": "@ + message
        },
        ErrorModel::Execute { resource, script, message } => {
            "script execution failed in resource "@ + resource + " ("@ + script + "): "@ + message
        },
        ErrorModel::HostGone => "script host thread is no longer running"@,
        ErrorModel::HostStart(message) => "failed to start script host: "@ + message,
        ErrorModel::ResourceNotLoaded(resource) => "resource "@ + resource + " is not loaded"@,
    }
}

impl ScriptError {
    /// How the error reads.
    pub fn message(&self) -> (text: String)
        ensures
            text@ == error_text(self@),
    {
        match self {
            ScriptError::RuntimeInit { resource, message } => {
                let mut text = joined3(
                    "failed to initialize script runtime for resource ",
                    resource.as_str(),
                    ": ",
                );
                text.append(message.as_str());
                text
            },
            ScriptError::Execute { resource, script, message } => {
                let mut text = joined3(
                    "script execution failed in resource ",
                    resource.as_str(),
                    " (",
                );
                text.append(script.as_str());
                text.append("): ");
                text.append(message.as_str());
                text
            },
            ScriptError::HostGone => "script host thread is no longer running".to_owned(),
            ScriptError::HostStart(message) => joined(
                "failed to start script host: ",
                message.as_str(),
            ),
            ScriptError::ResourceNotLoaded(resource) => joined3(
                "resource ",
                resource.as_str(),
                " is not loaded",
            ),
        }
    }
}

} // verus!

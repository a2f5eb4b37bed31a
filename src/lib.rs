//! Run a command and, once it has succeeded, put one label on a Kubernetes
//! Pod or Job.
//!
//! The library holds the parts of that workflow that decide: the syntax of
//! the label and resource arguments, whether a patch is due after the
//! command ran, what that patch carries, and which exit code ends the run.
//! Spawning the command and talking to the cluster are left to the caller.
pub mod label;
pub mod resource;
pub mod run;

pub use label::{parse_label, InvalidLabel};
pub use resource::{parse_resource, InvalidResourceKind, ResourceKind};
pub use run::{
    after_child, after_patch, command_line, exit_code, ChildStatus, Cli, MissingCommand, Next,
    ExitOutcome, PatchError, PatchRequest, CLIENT_TIMEOUT_SECS, DEFAULT_NAMESPACE, EXIT_API_ERROR,
    EXIT_FAILURE, EXIT_SERVICE_ERROR, EXIT_SUCCESS, FIELD_MANAGER,
};

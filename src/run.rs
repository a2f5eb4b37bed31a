//! One run: the command, then at most one patch, then an exit code.
//!
//! The caller performs the outside work (spawning the command, sending the
//! patch) and hands each result back; the functions here decide what
//! comes next.
use vstd::prelude::*;
use vstd::string::*;
use crate::resource::ResourceKind;

verus! {

/// The field manager under which the label is applied.
pub const FIELD_MANAGER: &'static str = "k8s-psl";

/// The namespace used where none is given.
pub const DEFAULT_NAMESPACE: &'static str = "default";

/// The connect, read and write timeout of the cluster client, in seconds.
pub const CLIENT_TIMEOUT_SECS: u64 = 15;

/// Exit code of a run whose patch was applied.
pub const EXIT_SUCCESS: u8 = 0;

/// Exit code of a run that failed for a reason with no code of its own.
pub const EXIT_FAILURE: u8 = 1;

/// Exit code of a run whose patch the cluster's API rejected.
pub const EXIT_API_ERROR: u8 = 66;

/// Exit code of a run whose patch could not reach the cluster.
pub const EXIT_SERVICE_ERROR: u8 = 68;

/// The settings of one run, once the arguments have been parsed.
pub struct Cli {
    /// The namespace of the resource.
    pub namespace: String,
    /// The label to apply, as key and value.
    pub label: (String, String),
    /// The resource to label, as kind and name.
    pub resource: (ResourceKind, String),
    /// The command to run: the program, then its arguments.
    pub command: Vec<String>,
}

/// Why a run could not start its command: no command was given.
#[derive(Clone, Copy, Debug, PartialEq, Eq, Structural)]
pub struct MissingCommand;

/// How the command ended.
#[derive(Clone, Copy, Debug, PartialEq, Eq, Structural)]
pub enum ChildStatus {
    /// The command could not be started.
    SpawnFailed,
    /// The command ran and ended, with its exit code if it had one (none
    /// where a signal ended it).
    Exited(Option<i32>),
}

/// Why a patch failed.
#[derive(Clone, Copy, Debug, PartialEq, Eq, Structural)]
pub enum PatchError {
    /// The cluster's API rejected the request (not found, forbidden, ...).
    Api,
    /// The cluster could not be reached (connection, timeout, ...).
    Service,
    /// Any other failure.
    Other,
}

/// How a run ended.
#[derive(Clone, Copy, Debug, PartialEq, Eq, Structural)]
pub enum ExitOutcome {
    Success,
    ChildFailed(u8),
    PatchApiError,
    PatchServiceError,
    OtherError,
}

/// The one patch that a successful run sends: put `label` on the resource
/// `kind`/`name` in `namespace`, by server-side apply under `field_manager`.
pub struct PatchRequest {
    pub kind: ResourceKind,
    pub namespace: String,
    pub name: String,
    pub label: (String, String),
    pub field_manager: String,
}

/// What follows the command.
pub enum Next {
    /// Send this patch, then end with the outcome of `after_patch`.
    Patch(PatchRequest),
    /// End the run now.
    Finish(ExitOutcome),
}

/// The exit code that ends a run with outcome `o`.
pub open spec fn exit_code_of(o: ExitOutcome) -> u8 {
    match o {
        ExitOutcome::Success => EXIT_SUCCESS,
        ExitOutcome::ChildFailed(code) => code,
        ExitOutcome::PatchApiError => EXIT_API_ERROR,
        ExitOutcome::PatchServiceError => EXIT_SERVICE_ERROR,
        ExitOutcome::OtherError => EXIT_FAILURE,
    }
}

/// How the run ends once the command ended with `status`, or `None` where
/// a patch is due: the command exited with code 0.
pub open spec fn child_outcome(status: ChildStatus) -> Option<ExitOutcome> {
    match status {
        ChildStatus::Exited(Some(code)) => if code == 0 {
            None
        } else if 1 <= code <= 255 {
            Some(ExitOutcome::ChildFailed(code as u8))
        } else {
            Some(ExitOutcome::OtherError)
        },
        _ => Some(ExitOutcome::OtherError),
    }
}

/// How the run ends once the patch returned `result`.
pub open spec fn patch_outcome(result: Result<(), PatchError>) -> ExitOutcome {
    match result {
        Ok(()) => ExitOutcome::Success,
        Err(PatchError::Api) => ExitOutcome::PatchApiError,
        Err(PatchError::Service) => ExitOutcome::PatchServiceError,
        Err(PatchError::Other) => ExitOutcome::OtherError,
    }
}

/// `req` is the patch that the run configured by `cli` sends.
pub open spec fn is_request_for(req: PatchRequest, cli: Cli) -> bool {
    &&& req.kind == cli.resource.0
    &&& req.namespace@ == cli.namespace@
    &&& req.name@ == cli.resource.1@
    &&& req.label.0@ == cli.label.0@
    &&& req.label.1@ == cli.label.1@
    &&& req.field_manager@ == FIELD_MANAGER@
}

/// The exit code that ends a run with outcome `o`.
pub fn exit_code(o: ExitOutcome) -> (r: u8)
    ensures
        r == exit_code_of(o),
{
    match o {
        ExitOutcome::Success => EXIT_SUCCESS,
        ExitOutcome::ChildFailed(code) => code,
        ExitOutcome::PatchApiError => EXIT_API_ERROR,
        ExitOutcome::PatchServiceError => EXIT_SERVICE_ERROR,
        ExitOutcome::OtherError => EXIT_FAILURE,
    }
}

/// The program to run and its arguments: the first token of `command`
/// and the rest, in order.
pub fn command_line(command: &Vec<String>) -> (r: Result<(String, Vec<String>), MissingCommand>)
    ensures
        match r {
            Ok((program, args)) => {
                &&& command@.len() > 0
                &&& program == command@[0]
                &&& args@ == command@.skip(1)
            },
            Err(_) => command@.len() == 0,
        },
{
    if command.len() == 0 {
        return Err(MissingCommand);
    }
    let program = command[0].clone();
    let mut args: Vec<String> = Vec::new();
    let mut i: usize = 1;
    while i < command.len()
        invariant
            1 <= i <= command@.len(),
            args@ == command@.subrange(1, i as int),
        decreases command@.len() - i,
    {
        args.push(command[i].clone());
        i = i + 1;
        assert(args@ =~= command@.subrange(1, i as int));
    }
    assert(command@.skip(1) =~= command@.subrange(1, i as int));
    Ok((program, args))
}

/// The patch that the run configured by `cli` sends.
fn request_for(cli: &Cli) -> (req: PatchRequest)
    ensures
        is_request_for(req, *cli),
{
    PatchRequest {
        kind: cli.resource.0,
        namespace: cli.namespace.clone(),
        name: cli.resource.1.clone(),
        label: (cli.label.0.clone(), cli.label.1.clone()),
        field_manager: String::from_str(FIELD_MANAGER),
    }
}

/// What follows the command of the run configured by `cli`, which ended
/// with `status`: where it exited with code 0, the one patch that puts the
/// label on the resource; otherwise the end of the run, with the command's
/// own exit code where that is in `1..=255` and a failure otherwise.
pub fn after_child(cli: &Cli, status: ChildStatus) -> (r: Next)
    ensures
        match child_outcome(status) {
            None => match r {
                Next::Patch(req) => is_request_for(req, *cli),
                Next::Finish(_) => false,
            },
            Some(o) => r == Next::Finish(o),
        },
{
    match status {
        ChildStatus::Exited(Some(code)) => {
            if code == 0 {
                Next::Patch(request_for(cli))
            } else if 1 <= code && code <= 255 {
                Next::Finish(ExitOutcome::ChildFailed(code as u8))
            } else {
                Next::Finish(ExitOutcome::OtherError)
            }
        },
        _ => Next::Finish(ExitOutcome::OtherError),
    }
}

/// How the run ends once its patch returned `result`.
pub fn after_patch(result: Result<(), PatchError>) -> (r: ExitOutcome)
    ensures
        r == patch_outcome(result),
{
    match result {
        Ok(()) => ExitOutcome::Success,
        Err(PatchError::Api) => ExitOutcome::PatchApiError,
        Err(PatchError::Service) => ExitOutcome::PatchServiceError,
        Err(PatchError::Other) => ExitOutcome::OtherError,
    }
}

/// A command that exits with a code in `1..=255` ends the run with that
/// same exit code, and no patch is sent.
pub proof fn lemma_child_code_propagated(code: i32)
    requires
        1 <= code <= 255,
    ensures
        child_outcome(ChildStatus::Exited(Some(code))) == Some(ExitOutcome::ChildFailed(code as u8)),
        exit_code_of(ExitOutcome::ChildFailed(code as u8)) == code,
{
}

/// A patch is due after the command exactly when the command exited with
/// code 0; otherwise the run ends without one.
pub proof fn lemma_patch_only_after_success(status: ChildStatus)
    ensures
        child_outcome(status) is None <==> status == ChildStatus::Exited(Some(0i32)),
{
}

/// The exit code that follows a patch: 0 when it was applied, 66 when the
/// API rejected it, 68 when the cluster could not be reached, 1 otherwise.
pub proof fn lemma_patch_exit_codes(result: Result<(), PatchError>)
    ensures
        exit_code_of(patch_outcome(result)) == match result {
            Ok(()) => 0u8,
            Err(PatchError::Api) => 66u8,
            Err(PatchError::Service) => 68u8,
            Err(PatchError::Other) => 1u8,
        },
{
}

/// The labels that a resource has after server-side apply of `req` to a
/// resource with `labels`: the request's one key is set to its value, and
/// every other label is left as it was.
pub open spec fn applied_labels(
    labels: Map<Seq<char>, Seq<char>>,
    req: PatchRequest,
) -> Map<Seq<char>, Seq<char>> {
    labels.insert(req.label.0@, req.label.1@)
}

/// Running twice with the same settings sends the same patch both times;
/// applying it a second time leaves the labels as the first left them, and
/// the first adds no key but the label's own.
pub proof fn lemma_patch_idempotent(
    cli: Cli,
    first: PatchRequest,
    second: PatchRequest,
    labels: Map<Seq<char>, Seq<char>>,
)
    requires
        is_request_for(first, cli),
        is_request_for(second, cli),
    ensures
        applied_labels(applied_labels(labels, first), second) == applied_labels(labels, first),
        applied_labels(labels, first).dom() == labels.dom().insert(cli.label.0@),
{
    assert(applied_labels(labels, first).dom() =~= labels.dom().insert(cli.label.0@));
    assert(applied_labels(applied_labels(labels, first), second) =~= applied_labels(labels, first));
}

} // verus!

use vstd::prelude::*;

use crate::error::FsError;
use crate::text::decode_text;
use crate::text::read_response;
use crate::text::text_result_view;

verus! {

/// What the host's attempt to read a file yielded, as plain values: the
/// bytes on success, or the failure the filesystem reported.
#[derive(Debug, PartialEq, Eq)]
pub enum ReadOutcome {
    /// The file was opened and read whole; these are its bytes.
    Bytes(Vec<u8>),
    /// No entry exists at the path.
    NoEntry,
    /// An entry exists but may not be read.
    AccessDenied,
    /// The path resolves to a directory.
    Directory,
}

/// What the host's existence probe yielded: an entry was found, none was
/// found, or the probe itself failed and nothing could be determined.
#[derive(Clone, Copy, Debug, PartialEq, Eq, Structural)]
pub enum ExistsOutcome {
    /// An entry (file or directory) exists at the path.
    Found,
    /// No entry exists at the path.
    Missing,
    /// The probe failed at the environment level.
    Unknown,
}

/// One invocation of the command surface: the operation's name together
/// with the filesystem outcome observed for its path argument.
#[derive(Debug, PartialEq, Eq)]
pub enum CommandRequest {
    ReadAllText(ReadOutcome),
    FileExists(ExistsOutcome),
}

/// The typed result an invocation hands back across the boundary: the
/// file's text, or the existence answer.
#[derive(Debug, PartialEq, Eq)]
pub enum CommandResult {
    Text(String),
    Exists(bool),
}

/// The reply owed for a read outcome: the decoded text of the bytes when
/// the read succeeded, and the matching typed error otherwise.
pub open spec fn spec_read_all_text(outcome: ReadOutcome) -> Result<Seq<char>, FsError> {
    match outcome {
        ReadOutcome::Bytes(bytes) => read_response(bytes@),
        ReadOutcome::NoEntry => Err(FsError::NotFound),
        ReadOutcome::AccessDenied => Err(FsError::PermissionDenied),
        ReadOutcome::Directory => Err(FsError::IsADirectory),
    }
}

/// The reply owed for an existence probe: `true` exactly when an entry
/// was found; a failed probe collapses to `false`.
pub open spec fn spec_file_exists(outcome: ExistsOutcome) -> bool {
    outcome == ExistsOutcome::Found
}

/// The command handler: the two named operations of the bridge, as a plain
/// struct. Registering them with a host runtime is the boundary layer's
/// business.
pub struct CommandHandler;

impl CommandHandler {
    /// Turns the outcome of a file read into the command's reply: the
    /// bytes decoded as UTF-8 text, or the typed failure.
    pub fn read_all_text(&self, outcome: ReadOutcome) -> (r: Result<String, FsError>)
        ensures
            text_result_view(r) == spec_read_all_text(outcome),
    {
        match outcome {
            ReadOutcome::Bytes(bytes) => decode_text(bytes),
            ReadOutcome::NoEntry => Err(FsError::NotFound),
            ReadOutcome::AccessDenied => Err(FsError::PermissionDenied),
            ReadOutcome::Directory => Err(FsError::IsADirectory),
        }
    }

    /// Turns the outcome of an existence probe into the command's reply.
    /// This operation has no error path: it always answers.
    pub fn file_exists(&self, outcome: ExistsOutcome) -> (r: bool)
        ensures
            r == spec_file_exists(outcome),
    {
        match outcome {
            ExistsOutcome::Found => true,
            ExistsOutcome::Missing => false,
            ExistsOutcome::Unknown => false,
        }
    }

    /// Dispatches one invocation to the operation it names and packages
    /// the typed result. `file_exists` always completes; `read_all_text`
    /// fails exactly as `spec_read_all_text` says.
    pub fn handle(&self, req: CommandRequest) -> (r: Result<CommandResult, FsError>)
        ensures
            (match req {
                CommandRequest::ReadAllText(outcome) => (match r {
                    Ok(reply) => reply matches CommandResult::Text(s) && Ok::<Seq<char>, FsError>(
                        s@,
                    ) == spec_read_all_text(outcome),
                    Err(e) => Err::<Seq<char>, FsError>(e) == spec_read_all_text(outcome),
                }),
                CommandRequest::FileExists(outcome) => r == Ok::<CommandResult, FsError>(
                    CommandResult::Exists(spec_file_exists(outcome)),
                ),
            }),
    {
        match req {
            CommandRequest::ReadAllText(outcome) => match self.read_all_text(outcome) {
                Ok(text) => Ok(CommandResult::Text(text)),
                Err(e) => Err(e),
            },
            CommandRequest::FileExists(outcome) => Ok(
                CommandResult::Exists(self.file_exists(outcome)),
            ),
        }
    }
}

/// Checking existence is stateless and idempotent: with the filesystem
/// unchanged, the same observation is made and the same answer is owed,
/// however often the command runs.
pub proof fn lemma_file_exists_idempotent(first: ExistsOutcome, second: ExistsOutcome)
    requires
        first == second,
    ensures
        spec_file_exists(first) == spec_file_exists(second),
{
}

} // verus!

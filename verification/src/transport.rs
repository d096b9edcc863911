//! The remote side of a transfer: how an archive is written, which commands
//! do the work, and what their exit statuses mean.

use vstd::prelude::*;
use vstd::string::*;

verus! {

/// How bytes are written to a remote file. Either way the same bytes end up
/// in the same file.
#[derive(Clone, Copy, Debug, PartialEq, Eq, Structural)]
pub enum Strategy {
    /// A remote copy command reads the bytes from a pipe.
    PipedWrite,
    /// The bytes are staged in a local file, and a transfer command copies it.
    StagedCopy,
}

/// The strategy a run writes with: the piped one unless staged copies are
/// asked for.
pub fn select_strategy(scp_write: bool) -> (r: Strategy)
    ensures
        r == if scp_write {
            Strategy::StagedCopy
        } else {
            Strategy::PipedWrite
        },
{
    if scp_write {
        Strategy::StagedCopy
    } else {
        Strategy::PipedWrite
    }
}

/// Why a remote file test tells nothing.
#[derive(Clone, Copy, Debug, PartialEq, Eq, Structural)]
pub enum TransportError {
    /// The test ended with a status that is neither 0 nor 1.
    UnexpectedStatus(i32),
    /// The test ended without a status.
    NoStatus,
}

/// What the exit status of a remote file test says: 0 that the file exists,
/// 1 that it does not; anything else leaves the remote state unknown.
pub open spec fn presence(code: Option<i32>) -> Result<bool, TransportError> {
    match code {
        Some(c) => if c == 0 {
            Ok(true)
        } else if c == 1 {
            Ok(false)
        } else {
            Err(TransportError::UnexpectedStatus(c))
        },
        None => Err(TransportError::NoStatus),
    }
}

/// Reads the exit status of a remote file test.
pub fn interpret_test_status(code: Option<i32>) -> (r: Result<bool, TransportError>)
    ensures
        r == presence(code),
{
    match code {
        Some(0) => Ok(true),
        Some(1) => Ok(false),
        Some(c) => Err(TransportError::UnexpectedStatus(c)),
        None => Err(TransportError::NoStatus),
    }
}

/// How a remote write ended. Only `Written` is a success; the others are
/// warnings, and the run goes on.
#[derive(Clone, Copy, Debug, PartialEq, Eq, Structural)]
pub enum WriteOutcome {
    /// The command ended with status 0.
    Written,
    /// The command ended with another status.
    Failed(i32),
    /// The command ended without a status.
    NoStatus,
}

/// What the exit status of a write command says.
pub open spec fn write_outcome(code: Option<i32>) -> WriteOutcome {
    match code {
        Some(c) => if c == 0 {
            WriteOutcome::Written
        } else {
            WriteOutcome::Failed(c)
        },
        None => WriteOutcome::NoStatus,
    }
}

/// Reads the exit status of a write command.
pub fn interpret_write_status(code: Option<i32>) -> (r: WriteOutcome)
    ensures
        r == write_outcome(code),
{
    match code {
        Some(0) => WriteOutcome::Written,
        Some(c) => WriteOutcome::Failed(c),
        None => WriteOutcome::NoStatus,
    }
}

/// A command line: a program and its arguments.
#[derive(Clone, Debug, PartialEq, Eq)]
pub struct Command {
    pub program: String,
    pub args: Vec<String>,
}

/// A `Command` as contracts speak of it.
pub struct CommandView {
    pub program: Seq<char>,
    pub args: Seq<Seq<char>>,
}

/// The texts of a list of strings.
pub open spec fn texts(v: Seq<String>) -> Seq<Seq<char>> {
    Seq::new(v.len(), |i: int| v[i]@)
}

impl View for Command {
    type V = CommandView;

    open spec fn view(&self) -> CommandView {
        CommandView { program: self.program@, args: texts(self.args@) }
    }
}

/// The remote command that tests whether a regular file exists.
pub open spec fn exists_command_of(file: Seq<char>) -> CommandView {
    CommandView { program: "test"@, args: seq!["-f"@, file] }
}

/// The remote command that copies its input to `dest`.
pub open spec fn piped_write_command_of(dest: Seq<char>) -> CommandView {
    CommandView { program: "dd"@, args: seq!["of="@ + dest] }
}

/// The local command that copies the staged file `dest` to the same name on
/// the host at `sshaddr`, showing its progress.
pub open spec fn staged_copy_command_of(dest: Seq<char>, sshaddr: Seq<char>) -> CommandView {
    CommandView { program: "rsync"@, args: seq!["--progress"@, dest, sshaddr + ":"@ + dest] }
}

/// The command that merges the live directory with the staging directory;
/// in batch mode it asks nothing.
pub open spec fn merge_command_of(local: Seq<char>, staging: Seq<char>, batch: bool)
    -> CommandView {
    CommandView {
        program: "unison"@,
        args: if batch {
            seq![local, staging, "-batch"@]
        } else {
            seq![local, staging]
        },
    }
}

/// Builds the remote command that tests whether `file` exists.
pub fn exists_command(file: &str) -> (r: Command)
    ensures
        r@ == exists_command_of(file@),
{
    let mut args: Vec<String> = Vec::new();
    args.push(String::from_str("-f"));
    args.push(String::from_str(file));
    let r = Command { program: String::from_str("test"), args };
    assert(r@.args =~= exists_command_of(file@).args);
    r
}

/// Builds the remote command of a piped write to `dest`.
pub fn piped_write_command(dest: &str) -> (r: Command)
    ensures
        r@ == piped_write_command_of(dest@),
{
    let mut args: Vec<String> = Vec::new();
    args.push(String::from_str("of=").concat(dest));
    let r = Command { program: String::from_str("dd"), args };
    assert(r@.args =~= piped_write_command_of(dest@).args);
    r
}

/// Builds the local command of a staged copy of `dest` to the host at
/// `sshaddr`.
pub fn staged_copy_command(dest: &str, sshaddr: &str) -> (r: Command)
    ensures
        r@ == staged_copy_command_of(dest@, sshaddr@),
{
    let mut args: Vec<String> = Vec::new();
    args.push(String::from_str("--progress"));
    args.push(String::from_str(dest));
    args.push(String::from_str(sshaddr).concat(":").concat(dest));
    let r = Command { program: String::from_str("rsync"), args };
    assert(r@.args =~= staged_copy_command_of(dest@, sshaddr@).args);
    r
}

/// Builds the command that merges `local` with `staging`.
pub fn merge_command(local: &str, staging: &str, batch: bool) -> (r: Command)
    ensures
        r@ == merge_command_of(local@, staging@, batch),
{
    let mut args: Vec<String> = Vec::new();
    args.push(String::from_str(local));
    args.push(String::from_str(staging));
    if batch {
        args.push(String::from_str("-batch"));
    }
    let r = Command { program: String::from_str("unison"), args };
    assert(r@.args =~= merge_command_of(local@, staging@, batch).args);
    r
}

} // verus!

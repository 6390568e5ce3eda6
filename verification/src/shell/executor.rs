//! From a request and a grant to a shell command, and from its output to a result.
use vstd::prelude::*;

use crate::bounded_output::BoundedOutput;
use crate::grants::ActionGrant;
use crate::paths::Location;
use crate::shell::error::{ShellError, ShellErrorView};
use crate::text::{
    byte_len, contains, contains_char, lossy_text, lower_of, occurs_at, occurs_in, starts_with,
    texts, to_ascii_lowercase, trim, trim_of, utf8_len,
};

verus! {

pub const MAX_COMMAND_BYTES: usize = 64 * 1024;

pub const MAX_TIMEOUT_MILLIS: u64 = 600_000;

// ---------------------------------------------------------------------------
// What commands look like
// ---------------------------------------------------------------------------
/// A command starts with the word, or holds it with the spaces around it.
pub open spec fn begins_or_holds(command: Seq<char>, word: Seq<char>, spaced: Seq<char>) -> bool {
    occurs_at(command, word, 0) || occurs_in(command, spaced)
}

fn mentions_program(command: &str, word: &str, spaced: &str) -> (r: bool)
    ensures
        r == begins_or_holds(command@, word@, spaced@),
{
    starts_with(command, word) || contains(command, spaced)
}

/// The command looks as if it used the network.
pub open spec fn networks(command: Seq<char>) -> bool {
    let c = lower_of(command);
    ||| begins_or_holds(c, "curl"@, "curl "@)
    ||| begins_or_holds(c, "wget"@, "wget "@)
    ||| begins_or_holds(c, "invoke-webrequest"@, "invoke-webrequest"@)
    ||| begins_or_holds(c, "invoke-restmethod"@, "invoke-restmethod"@)
    ||| begins_or_holds(c, "irm"@, " irm "@)
    ||| begins_or_holds(c, "ssh"@, "ssh "@)
    ||| begins_or_holds(c, "scp"@, "scp "@)
    ||| begins_or_holds(c, "sftp"@, "sftp "@)
    ||| begins_or_holds(c, "ftp"@, "ftp "@)
    ||| begins_or_holds(c, "nc"@, " nc "@)
    ||| begins_or_holds(c, "netcat"@, "netcat "@)
}

pub fn looks_like_network_command(command: &str) -> (r: bool)
    ensures
        r == networks(command@),
{
    let lower = to_ascii_lowercase(command);
    let c = lower.as_str();
    mentions_program(c, "curl", "curl ") || mentions_program(c, "wget", "wget ")
        || mentions_program(c, "invoke-webrequest", "invoke-webrequest") || mentions_program(
        c,
        "invoke-restmethod",
        "invoke-restmethod",
    ) || mentions_program(c, "irm", " irm ") || mentions_program(c, "ssh", "ssh ")
        || mentions_program(c, "scp", "scp ") || mentions_program(c, "sftp", "sftp ")
        || mentions_program(c, "ftp", "ftp ") || mentions_program(c, "nc", " nc ")
        || mentions_program(c, "netcat", "netcat ")
}

/// The command looks as if it wrote to files.
pub open spec fn writes(command: Seq<char>) -> bool {
    let c = lower_of(command);
    ||| occurs_in(c, ">"@)
    ||| occurs_in(c, "rm "@)
    ||| occurs_in(c, "del "@)
    ||| occurs_in(c, "remove-item"@)
    ||| occurs_in(c, "set-content"@)
    ||| occurs_in(c, "out-file"@)
    ||| occurs_in(c, "mkdir "@)
    ||| occurs_in(c, "new-item"@)
    ||| occurs_in(c, "touch "@)
    ||| occurs_in(c, " mv "@)
    ||| occurs_in(c, "move-item"@)
    ||| occurs_in(c, " cp "@)
    ||| occurs_in(c, "copy-item"@)
}

pub fn looks_like_write_command(command: &str) -> (r: bool)
    ensures
        r == writes(command@),
{
    let lower = to_ascii_lowercase(command);
    let c = lower.as_str();
    contains(c, ">") || contains(c, "rm ") || contains(c, "del ") || contains(c, "remove-item")
        || contains(c, "set-content") || contains(c, "out-file") || contains(c, "mkdir ")
        || contains(c, "new-item") || contains(c, "touch ") || contains(c, " mv ") || contains(
        c,
        "move-item",
    ) || contains(c, " cp ") || contains(c, "copy-item")
}

// ---------------------------------------------------------------------------
// Admission
// ---------------------------------------------------------------------------
/// Why a command is not run under a grant.
pub open spec fn refusal(grant: ActionGrant, request: Seq<char>) -> Option<ShellErrorView> {
    let command = trim_of(request);
    if let Some(error) = grant.problem() {
        Some(ShellErrorView::InvalidGrant(error))
    } else if !grant.workspace.reads() {
        Some(ShellErrorView::ReadNotGranted)
    } else if command.len() == 0 {
        Some(ShellErrorView::EmptyCommand)
    } else if utf8_len(command) > MAX_COMMAND_BYTES {
        Some(
            ShellErrorView::CommandTooLong {
                length: utf8_len(command),
                maximum: MAX_COMMAND_BYTES as nat,
            },
        )
    } else if command.contains('\0') {
        Some(ShellErrorView::NulInCommand)
    } else if !grant.allow_network && networks(command) {
        Some(ShellErrorView::NetworkNotGranted)
    } else if !grant.allow_write && writes(command) {
        Some(ShellErrorView::WriteNotGranted)
    } else {
        None
    }
}

/// The command that is run for a request, if the grant allows it.
pub fn approve<'a>(grant: &ActionGrant, request: &'a str) -> (r: Result<&'a str, ShellError>)
    ensures
        match refusal(*grant, request@) {
            Some(error) => r is Err && r->Err_0@ == error,
            None => r is Ok && r->Ok_0@ == trim_of(request@),
        },
{
    match grant.validate() {
        Ok(()) => {},
        Err(error) => return Err(ShellError::InvalidGrant(error)),
    }
    if !grant.workspace.allows_legacy_read() {
        return Err(ShellError::ReadNotGranted);
    }
    let command = trim(request);
    if command.is_empty() {
        return Err(ShellError::EmptyCommand);
    }
    let length: usize = byte_len(command);
    if length > MAX_COMMAND_BYTES {
        return Err(ShellError::CommandTooLong { length, maximum: MAX_COMMAND_BYTES });
    }
    if contains_char(command, '\0') {
        return Err(ShellError::NulInCommand);
    }
    if !grant.allow_network && looks_like_network_command(command) {
        return Err(ShellError::NetworkNotGranted);
    }
    if !grant.allow_write && looks_like_write_command(command) {
        return Err(ShellError::WriteNotGranted);
    }
    Ok(command)
}

/// No command runs without the approval of the host and leave to read, and none that looks as
/// if it wrote or used the network without leave for that.
pub proof fn lemma_admitted_commands_are_granted(grant: ActionGrant, request: Seq<char>)
    requires
        refusal(grant, request) is None,
    ensures
        grant.problem() is None,
        grant.approved_by_host(),
        grant.workspace.reads(),
        networks(trim_of(request)) ==> grant.allow_network,
        writes(trim_of(request)) ==> grant.allow_write,
        0 < trim_of(request).len(),
        utf8_len(trim_of(request)) <= MAX_COMMAND_BYTES,
{
}

/// A command runs in a directory of its workspace.
pub fn check_directory(root: &Location, cwd: &Location, is_directory: bool) -> (r: Result<
    (),
    ShellError,
>)
    ensures
        if !is_directory {
            r is Err && r->Err_0@ == (ShellErrorView::Workspace {
                path: cwd.display@,
                message: "working directory is not a directory"@,
            })
        } else if !cwd.within(*root) {
            r is Err && r->Err_0@ == (ShellErrorView::OutsideWorkspace {
                cwd: cwd.display@,
                root: root.display@,
            })
        } else {
            r is Ok
        },
{
    if !is_directory {
        return Err(
            ShellError::Workspace {
                path: cwd.display.clone(),
                message: "working directory is not a directory".to_owned(),
            },
        );
    }
    if !cwd.is_within(root) {
        return Err(
            ShellError::OutsideWorkspace {
                cwd: cwd.display.clone(),
                root: root.display.clone(),
            },
        );
    }
    Ok(())
}

/// The program that runs commands: the shell that the environment names, or the usual one.
pub open spec fn program_of(windows: bool, shell: Option<&str>) -> Seq<char> {
    match shell {
        Some(program) => program@,
        None => if windows {
            "cmd.exe"@
        } else {
            "/bin/sh"@
        },
    }
}

pub open spec fn arguments_of(command: Seq<char>, windows: bool) -> Seq<Seq<char>> {
    if windows {
        seq!["/D"@, "/C"@, command]
    } else {
        seq!["-c"@, command]
    }
}

/// The program that runs a command, and its arguments.
pub fn shell_argv(command: &str, windows: bool, shell: Option<&str>) -> (r: (String, Vec<String>))
    ensures
        r.0@ == program_of(windows, shell),
        texts(r.1@) == arguments_of(command@, windows),
{
    let program = match shell {
        Some(program) => program.to_owned(),
        None => {
            if windows {
                "cmd.exe".to_owned()
            } else {
                "/bin/sh".to_owned()
            }
        },
    };
    let mut arguments: Vec<String> = Vec::new();
    if windows {
        arguments.push("/D".to_owned());
        arguments.push("/C".to_owned());
    } else {
        arguments.push("-c".to_owned());
    }
    arguments.push(command.to_owned());
    assert(texts(arguments@) =~= arguments_of(command@, windows));
    (program, arguments)
}

/// The variables of the host's environment that a command gets to see.
pub open spec fn safe_names() -> Seq<Seq<char>> {
    seq![
        "PATH"@,
        "Path"@,
        "SystemRoot"@,
        "ComSpec"@,
        "TEMP"@,
        "TMP"@,
        "USERPROFILE"@,
        "HOME"@,
        "USER"@,
        "TMPDIR"@,
        "LANG"@,
        "LC_ALL"@,
    ]
}

pub fn safe_variables() -> (r: Vec<&'static str>)
    ensures
        r@.len() == safe_names().len(),
        forall|k: int| 0 <= k < r@.len() ==> (#[trigger] r@[k])@ == safe_names()[k],
{
    vec![
        "PATH",
        "Path",
        "SystemRoot",
        "ComSpec",
        "TEMP",
        "TMP",
        "USERPROFILE",
        "HOME",
        "USER",
        "TMPDIR",
        "LANG",
        "LC_ALL",
    ]
}

/// How long a command may run, in milliseconds.
pub open spec fn timeout_of(grant: ActionGrant) -> u64 {
    if grant.timeout_millis < MAX_TIMEOUT_MILLIS {
        grant.timeout_millis
    } else {
        MAX_TIMEOUT_MILLIS
    }
}

pub fn effective_timeout(grant: &ActionGrant) -> (r: u64)
    ensures
        r == timeout_of(*grant),
{
    if grant.timeout_millis < MAX_TIMEOUT_MILLIS {
        grant.timeout_millis
    } else {
        MAX_TIMEOUT_MILLIS
    }
}

/// A command that is ready to be run.
#[derive(Clone, Debug)]
pub struct ShellCommand {
    pub program: String,
    pub arguments: Vec<String>,
    pub directory: String,
    pub timeout_millis: u64,
    pub output_limit: usize,
}

/// What the file system makes of the directories of a grant.
#[derive(Debug)]
pub struct ScopeProbe {
    pub root: Result<Location, String>,
    pub working_directory: Result<Location, String>,
    /// The working directory leads to a directory.
    pub is_directory: bool,
}

/// Why a command is not run where it is to be run.
pub open spec fn scope_problem(grant: ActionGrant, probe: ScopeProbe) -> Option<ShellErrorView> {
    match probe.root {
        Err(message) => Some(
            ShellErrorView::Workspace { path: grant.workspace.spec_root(), message: message@ },
        ),
        Ok(root) => match probe.working_directory {
            Err(message) => Some(
                ShellErrorView::Workspace { path: grant.working_directory@, message: message@ },
            ),
            Ok(cwd) => if !probe.is_directory {
                Some(
                    ShellErrorView::Workspace {
                        path: cwd.display@,
                        message: "working directory is not a directory"@,
                    },
                )
            } else if !cwd.within(root) {
                Some(
                    ShellErrorView::OutsideWorkspace {
                        cwd: cwd.display@,
                        root: root.display@,
                    },
                )
            } else {
                None
            },
        },
    }
}

fn resolve_scope<'a>(grant: &ActionGrant, probe: &'a ScopeProbe) -> (r: Result<
    &'a Location,
    ShellError,
>)
    ensures
        match scope_problem(*grant, *probe) {
            Some(error) => r is Err && r->Err_0@ == error,
            None => r is Ok && probe.working_directory is Ok && *r->Ok_0
                == probe.working_directory->Ok_0,
        },
{
    let root = match &probe.root {
        Ok(root) => root,
        Err(message) => return Err(
            ShellError::Workspace {
                path: grant.workspace.root().to_owned(),
                message: message.clone(),
            },
        ),
    };
    let cwd = match &probe.working_directory {
        Ok(cwd) => cwd,
        Err(message) => return Err(
            ShellError::Workspace {
                path: grant.working_directory.clone(),
                message: message.clone(),
            },
        ),
    };
    match check_directory(root, cwd, probe.is_directory) {
        Ok(()) => Ok(cwd),
        Err(error) => Err(error),
    }
}

/// Prepares the command of a request: with which program it runs, where, for how long, and how
/// much of its output is kept.
pub fn prepare(
    grant: &ActionGrant,
    request: &str,
    probe: &ScopeProbe,
    windows: bool,
    shell: Option<&str>,
) -> (r: Result<ShellCommand, ShellError>)
    ensures
        match refusal(*grant, request@) {
            Some(error) => r is Err && r->Err_0@ == error,
            None => match scope_problem(*grant, *probe) {
                Some(error) => r is Err && r->Err_0@ == error,
                None => {
                    &&& r is Ok
                    &&& r->Ok_0.program@ == program_of(windows, shell)
                    &&& texts(r->Ok_0.arguments@) == arguments_of(trim_of(request@), windows)
                    &&& r->Ok_0.directory@ == probe.working_directory->Ok_0.display@
                    &&& r->Ok_0.timeout_millis == timeout_of(*grant)
                    &&& r->Ok_0.output_limit == grant.max_output_bytes
                },
            },
        },
{
    let command = match approve(grant, request) {
        Ok(command) => command,
        Err(error) => return Err(error),
    };
    let cwd = match resolve_scope(grant, probe) {
        Ok(cwd) => cwd,
        Err(error) => return Err(error),
    };
    let (program, arguments) = shell_argv(command, windows, shell);
    Ok(
        ShellCommand {
            program,
            arguments,
            directory: cwd.display.clone(),
            timeout_millis: effective_timeout(grant),
            output_limit: grant.max_output_bytes,
        },
    )
}

// ---------------------------------------------------------------------------
// Waiting
// ---------------------------------------------------------------------------
/// How long a command is left alone between two looks at it, in milliseconds.
pub const POLL_MILLIS: u64 = 10;

/// What to do about a command that was looked at.
#[derive(Clone, Copy, Debug, PartialEq, Eq, Structural)]
pub enum ShellStep {
    /// It has ended by itself.
    Finish,
    /// Its time is up: it is killed, and counts as timed out.
    Kill,
    /// It is looked at again after a pause of [`POLL_MILLIS`].
    Wait,
}

/// Decides whether a command goes on. One that cannot be looked at is given up; one that has
/// ended counts as ended, however late it is.
pub fn after_poll(exited: Result<bool, String>, elapsed_nanos: u128, timeout_millis: u64) -> (r:
    Result<ShellStep, ShellError>)
    ensures
        match exited {
            Err(message) => r is Err && r->Err_0@ == ShellErrorView::Wait(message@),
            Ok(true) => r == Ok::<ShellStep, ShellError>(ShellStep::Finish),
            Ok(false) => r == Ok::<ShellStep, ShellError>(
                if elapsed_nanos >= timeout_millis * 1_000_000 {
                    ShellStep::Kill
                } else {
                    ShellStep::Wait
                },
            ),
        },
{
    match exited {
        Err(message) => Err(ShellError::Wait(message)),
        Ok(true) => Ok(ShellStep::Finish),
        Ok(false) => {
            if elapsed_nanos >= timeout_millis as u128 * 1_000_000 {
                Ok(ShellStep::Kill)
            } else {
                Ok(ShellStep::Wait)
            }
        },
    }
}

// ---------------------------------------------------------------------------
// Results
// ---------------------------------------------------------------------------
/// What a command gave back.
#[derive(Clone, Debug, PartialEq, Eq)]
pub struct ShellExecuteResult {
    pub exit_code: Option<i32>,
    pub stdout: String,
    pub stderr: String,
    pub timed_out: bool,
    pub truncated: bool,
}

/// The result of a command that has ended.
pub fn conclude(
    exit_code: Option<i32>,
    stdout: &BoundedOutput,
    stderr: &BoundedOutput,
    timed_out: bool,
) -> (r: ShellExecuteResult)
    ensures
        r.exit_code == exit_code,
        r.stdout@ == lossy_text(stdout.spec_bytes()),
        r.stderr@ == lossy_text(stderr.spec_bytes()),
        r.timed_out == timed_out,
        r.truncated == (stdout.spec_truncated() || stderr.spec_truncated()),
{
    ShellExecuteResult {
        exit_code,
        stdout: stdout.text(),
        stderr: stderr.text(),
        timed_out,
        truncated: stdout.truncated() || stderr.truncated(),
    }
}

} // verus!

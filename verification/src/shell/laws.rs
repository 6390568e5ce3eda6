//! Which commands run, and how.
use vstd::prelude::*;

use crate::bounded_output::BoundedOutput;
use crate::files::executor::reads_at;
use crate::grants::ActionGrant;
use crate::paths::Location;
use crate::shell::error::ShellError;
use crate::shell::executor::{
    after_poll, approve, begins_or_holds, conclude, looks_like_network_command,
    looks_like_write_command, networks, prepare, shell_argv, writes, ScopeProbe, ShellCommand,
    ShellExecuteResult, ShellStep, MAX_COMMAND_BYTES,
};
use crate::text::{lossy_text, lower, lower_of, occurs_at, occurs_in, texts, trim_of, utf8_len};

verus! {

// ---------------------------------------------------------------------------
// What commands look like
// ---------------------------------------------------------------------------
/// A program that uses the network, and how it stands within a command.
pub open spec fn is_network_word(word: Seq<char>, within: Seq<char>) -> bool {
    ||| word == "curl"@ && within == "curl "@
    ||| word == "wget"@ && within == "wget "@
    ||| word == "invoke-webrequest"@ && within == "invoke-webrequest"@
    ||| word == "invoke-restmethod"@ && within == "invoke-restmethod"@
    ||| word == "irm"@ && within == " irm "@
    ||| word == "ssh"@ && within == "ssh "@
    ||| word == "scp"@ && within == "scp "@
    ||| word == "sftp"@ && within == "sftp "@
    ||| word == "ftp"@ && within == "ftp "@
    ||| word == "nc"@ && within == " nc "@
    ||| word == "netcat"@ && within == "netcat "@
}

/// Something that writes to files.
pub open spec fn is_write_word(word: Seq<char>) -> bool {
    ||| word == ">"@
    ||| word == "rm "@
    ||| word == "del "@
    ||| word == "remove-item"@
    ||| word == "set-content"@
    ||| word == "out-file"@
    ||| word == "mkdir "@
    ||| word == "new-item"@
    ||| word == "touch "@
    ||| word == " mv "@
    ||| word == "move-item"@
    ||| word == " cp "@
    ||| word == "copy-item"@
}

proof fn lemma_reads_at(command: Seq<char>, word: Seq<char>, at: int)
    ensures
        reads_at(command, word, at) <==> occurs_at(lower_of(command), word, at),
{
    let c = lower_of(command);
    assert(c.len() == command.len());
    if occurs_at(c, word, at) {
        assert forall|k: int| 0 <= k < word.len() implies lower(#[trigger] command[at + k])
            == word[k] by {
            assert(c.subrange(at, at + word.len())[k] == c[at + k]);
        }
    }
    if reads_at(command, word, at) {
        assert forall|k: int| 0 <= k < word.len() implies c.subrange(at, at + word.len())[k]
            == word[k] by {
            assert(lower(command[at + k]) == word[k]);
        }
        assert(c.subrange(at, at + word.len()) =~= word);
    }
}

proof fn lemma_reads_somewhere(command: Seq<char>, word: Seq<char>)
    ensures
        (exists|at: int| reads_at(command, word, at)) <==> occurs_in(lower_of(command), word),
{
    if exists|at: int| reads_at(command, word, at) {
        let at = choose|at: int| reads_at(command, word, at);
        lemma_reads_at(command, word, at);
    }
    if occurs_in(lower_of(command), word) {
        let at = choose|at: int| occurs_at(lower_of(command), word, at);
        lemma_reads_at(command, word, at);
    }
}

proof fn lemma_begins_or_holds(command: Seq<char>, word: Seq<char>, within: Seq<char>)
    ensures
        begins_or_holds(lower_of(command), word, within) <==> reads_at(command, word, 0) || exists|
            at: int,
        |
            reads_at(command, within, at),
{
    lemma_reads_at(command, word, 0);
    lemma_reads_somewhere(command, within);
}

/// A command looks as if it used the network exactly if it begins with one of the programs that
/// do, or calls one further on, in whatever case it is written.
pub proof fn lemma_network_commands_are_recognized(command: &str, r: bool)
    requires
        call_ensures(looks_like_network_command, (command,), r),
    ensures
        r <==> exists|word: Seq<char>, within: Seq<char>|
            #[trigger] is_network_word(word, within) && (reads_at(command@, word, 0) || exists|
                at: int,
            |
                reads_at(command@, within, at)),
{
    lemma_begins_or_holds(command@, "curl"@, "curl "@);
    lemma_begins_or_holds(command@, "wget"@, "wget "@);
    lemma_begins_or_holds(command@, "invoke-webrequest"@, "invoke-webrequest"@);
    lemma_begins_or_holds(command@, "invoke-restmethod"@, "invoke-restmethod"@);
    lemma_begins_or_holds(command@, "irm"@, " irm "@);
    lemma_begins_or_holds(command@, "ssh"@, "ssh "@);
    lemma_begins_or_holds(command@, "scp"@, "scp "@);
    lemma_begins_or_holds(command@, "sftp"@, "sftp "@);
    lemma_begins_or_holds(command@, "ftp"@, "ftp "@);
    lemma_begins_or_holds(command@, "nc"@, " nc "@);
    lemma_begins_or_holds(command@, "netcat"@, "netcat "@);
    assert(is_network_word("curl"@, "curl "@));
    assert(is_network_word("wget"@, "wget "@));
    assert(is_network_word("invoke-webrequest"@, "invoke-webrequest"@));
    assert(is_network_word("invoke-restmethod"@, "invoke-restmethod"@));
    assert(is_network_word("irm"@, " irm "@));
    assert(is_network_word("ssh"@, "ssh "@));
    assert(is_network_word("scp"@, "scp "@));
    assert(is_network_word("sftp"@, "sftp "@));
    assert(is_network_word("ftp"@, "ftp "@));
    assert(is_network_word("nc"@, " nc "@));
    assert(is_network_word("netcat"@, "netcat "@));
}

/// A command looks as if it wrote exactly if one of the ways to write stands in it, in whatever
/// case.
pub proof fn lemma_write_commands_are_recognized(command: &str, r: bool)
    requires
        call_ensures(looks_like_write_command, (command,), r),
    ensures
        r <==> exists|word: Seq<char>, at: int|
            #[trigger] reads_at(command@, word, at) && is_write_word(word),
{
    lemma_reads_somewhere(command@, ">"@);
    lemma_reads_somewhere(command@, "rm "@);
    lemma_reads_somewhere(command@, "del "@);
    lemma_reads_somewhere(command@, "remove-item"@);
    lemma_reads_somewhere(command@, "set-content"@);
    lemma_reads_somewhere(command@, "out-file"@);
    lemma_reads_somewhere(command@, "mkdir "@);
    lemma_reads_somewhere(command@, "new-item"@);
    lemma_reads_somewhere(command@, "touch "@);
    lemma_reads_somewhere(command@, " mv "@);
    lemma_reads_somewhere(command@, "move-item"@);
    lemma_reads_somewhere(command@, " cp "@);
    lemma_reads_somewhere(command@, "copy-item"@);
}

// ---------------------------------------------------------------------------
// Running
// ---------------------------------------------------------------------------
/// The place lies in the workspace.
pub open spec fn lies_in(place: Location, root: Location) -> bool {
    root.parts().is_prefix_of(place.parts())
}

/// A command runs exactly if it may: under a grant that holds and allows to read, if there is one
/// and it is not too long, with leave for what it looks like, in a directory of the workspace. It
/// runs as it was asked for, in that directory, no longer than it may, and keeps as much output as
/// the grant says.
pub proof fn lemma_commands_run_as_they_are_asked_for(
    grant: ActionGrant,
    request: &str,
    probe: ScopeProbe,
    windows: bool,
    shell: Option<&str>,
    r: Result<ShellCommand, ShellError>,
)
    requires
        call_ensures(prepare, (&grant, request, &probe, windows, shell), r),
    ensures
        r is Ok <==> {
            let command = trim_of(request@);
            &&& grant.problem() is None
            &&& grant.workspace.reads()
            &&& 0 < command.len()
            &&& utf8_len(command) <= MAX_COMMAND_BYTES
            &&& !command.contains('\0')
            &&& networks(command) ==> grant.allow_network
            &&& writes(command) ==> grant.allow_write
            &&& probe.is_directory
            &&& probe.root matches Ok(root) && (probe.working_directory matches Ok(cwd) && lies_in(
                cwd,
                root,
            ))
        },
        r matches Ok(command) ==> {
            &&& command.arguments@.len() > 0
            &&& command.arguments@[command.arguments@.len() - 1]@ == trim_of(request@)
            &&& shell matches Some(program) ==> command.program@ == program@
            &&& command.directory@ == probe.working_directory->Ok_0.display@
            &&& command.timeout_millis <= grant.timeout_millis
            &&& command.timeout_millis <= 600_000
            &&& command.timeout_millis == grant.timeout_millis || command.timeout_millis == 600_000
            &&& command.output_limit == grant.max_output_bytes
        },
{
    if let Ok(root) = probe.root {
        if let Ok(cwd) = probe.working_directory {
            let n = root.parts().len() as int;
            if n <= cwd.parts().len() {
                assert(cwd.parts().take(n) =~= cwd.parts().subrange(0, n));
            }
            assert(cwd.within(root) <==> lies_in(cwd, root));
        }
    }
    if let Ok(command) = r {
        let arguments = command.arguments@;
        assert(texts(arguments).len() == arguments.len());
        assert(texts(arguments).last() == arguments[arguments.len() - 1]@);
    }
}

/// The result of a command tells its two streams apart, and says of each what came of it.
pub proof fn lemma_results_tell_the_streams_apart(
    exit_code: Option<i32>,
    stdout: BoundedOutput,
    stderr: BoundedOutput,
    timed_out: bool,
    said: Seq<u8>,
    complained: Seq<u8>,
    r: ShellExecuteResult,
)
    requires
        call_ensures(conclude, (exit_code, &stdout, &stderr, timed_out), r),
        stdout.holds(said),
        stderr.holds(complained),
    ensures
        r.exit_code == exit_code,
        r.timed_out == timed_out,
        said.len() <= stdout.spec_limit() ==> r.stdout@ == lossy_text(said),
        complained.len() <= stderr.spec_limit() ==> r.stderr@ == lossy_text(complained),
        said.len() > stdout.spec_limit() ==> r.stdout@ == lossy_text(
            said.take(stdout.spec_limit() as int),
        ),
        r.truncated <==> said.len() > stdout.spec_limit() || complained.len() > stderr.spec_limit(),
{
}

/// What is refused is refused for what it lacks: approval, leave to read, a command of sensible
/// length, or leave for what the command looks like.
pub proof fn lemma_refusals_tell_what_is_lacking(
    grant: ActionGrant,
    request: &str,
    r: Result<&str, ShellError>,
)
    requires
        call_ensures(approve, (&grant, request), r),
    ensures
        r matches Ok(command) ==> command@ == trim_of(request@),
        r matches Err(error) ==> {
            &&& error is InvalidGrant <==> grant.approval is None || grant.objection is Some
            &&& error is ReadNotGranted ==> !grant.workspace.reads()
            &&& error is EmptyCommand ==> trim_of(request@).len() == 0
            &&& error is CommandTooLong ==> utf8_len(trim_of(request@)) > MAX_COMMAND_BYTES
            &&& error is NulInCommand ==> trim_of(request@).contains('\0')
            &&& error is NetworkNotGranted ==> !grant.allow_network && networks(trim_of(request@))
            &&& error is WriteNotGranted ==> !grant.allow_write && writes(trim_of(request@))
        },
{
}

/// A command that has ended is waited for no longer, one that has run out of time is stopped, and
/// any other is waited for.
pub proof fn lemma_commands_are_stopped_in_time(
    ended: bool,
    elapsed_nanos: u128,
    timeout_millis: u64,
    r: Result<ShellStep, ShellError>,
)
    requires
        call_ensures(after_poll, (Ok::<bool, String>(ended), elapsed_nanos, timeout_millis), r),
    ensures
        r is Ok,
        r->Ok_0 is Finish <==> ended,
        r->Ok_0 is Kill <==> !ended && elapsed_nanos >= timeout_millis * 1_000_000,
        r->Ok_0 is Wait <==> !ended && elapsed_nanos < timeout_millis * 1_000_000,
{
}

/// A shell is handed the whole command as its last argument, and no other text of it.
pub proof fn lemma_shells_get_the_whole_command(
    one: &str,
    other: &str,
    windows: bool,
    shell: Option<&str>,
    r: (String, Vec<String>),
    q: (String, Vec<String>),
)
    requires
        call_ensures(shell_argv, (one, windows, shell), r),
        call_ensures(shell_argv, (other, windows, shell), q),
    ensures
        r.1@.len() > 0 && r.1@.last()@ == one@,
        shell is Some ==> r.0@ == shell->0@,
        r.0@ == q.0@,
        texts(r.1@).drop_last() == texts(q.1@).drop_last(),
{
    assert(texts(r.1@).len() == r.1@.len());
    assert(texts(r.1@).last() == r.1@.last()@);
    assert(texts(r.1@).drop_last() =~= texts(q.1@).drop_last());
}

} // verus!

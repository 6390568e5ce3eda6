//! Shell commands: which are run, and what they give back.
use yunxi::bounded_output::BoundedOutput;
use yunxi::grants::{ActionGrant, WorkspaceGrant};
use yunxi::paths::{components, Location};
use yunxi::plugin::dispatch::Reply;
use yunxi::plugin::requirement::{GrantKind, GrantRequirement};
use yunxi::shell::error::ShellError;
use yunxi::shell::executor::{
    after_poll, approve, check_directory, conclude, effective_timeout, looks_like_network_command,
    looks_like_write_command, prepare, safe_variables, shell_argv, ScopeProbe, ShellStep,
    MAX_COMMAND_BYTES, MAX_TIMEOUT_MILLIS,
};
use yunxi::shell::plugin::{required_grants, respond, ShellPluginError};

fn place(path: &str) -> Location {
    Location { display: path.to_string(), components: components(path) }
}

fn grant() -> ActionGrant {
    ActionGrant::approved(
        WorkspaceGrant::read_write("/work"),
        "/work",
        "fixture-ticket",
        30_000,
        64,
    )
    .with_write(true)
}

#[test]
fn approved_command_runs_with_bounded_result() {
    let grant = grant();
    let command = approve(&grant, "  printf fixture ").expect("approved");
    assert_eq!(command, "printf fixture");
    let (program, arguments) = shell_argv(command, false, None);
    assert_eq!(program, "/bin/sh");
    assert_eq!(arguments, vec!["-c".to_string(), "printf fixture".to_string()]);
    let mut stdout = BoundedOutput::new(grant.max_output_bytes);
    stdout.feed(b"fix");
    stdout.feed(b"ture");
    let stderr = BoundedOutput::new(grant.max_output_bytes);
    let result = conclude(Some(0), &stdout, &stderr, false);
    assert_eq!(result.exit_code, Some(0));
    assert!(result.stdout.contains("fixture"));
    assert!(!result.timed_out);
    assert!(!result.truncated);
}

#[test]
fn commands_are_waited_for_until_their_time_is_up() {
    assert_eq!(after_poll(Ok(true), 0, 10).expect("step"), ShellStep::Finish);
    assert_eq!(after_poll(Ok(true), 1_000_000_000, 10).expect("step"), ShellStep::Finish);
    assert_eq!(after_poll(Ok(false), 9_999_999, 10).expect("step"), ShellStep::Wait);
    assert_eq!(after_poll(Ok(false), 10_000_000, 10).expect("step"), ShellStep::Kill);
    assert!(matches!(
        after_poll(Err("gone".to_string()), 0, 10),
        Err(ShellError::Wait(message)) if message == "gone"
    ));
}

#[test]
fn rejected_grant_runs_nothing() {
    let rejected = grant().with_objection("timeout is out of range");
    let error = approve(&rejected, "echo fixture").expect_err("rejected grant");
    assert_eq!(error.code(), "grant_denied");
    assert_eq!(error.to_string(), "invalid action grant: timeout is out of range");
    assert!(rejected.validate().is_err());
    assert!(grant().validate().is_ok());
}

#[test]
fn plugins_declare_the_grants_they_need() {
    let wanted = |kind: GrantKind, required: bool| GrantRequirement { kind, required };
    assert_eq!(
        required_grants(),
        vec![
            wanted(GrantKind::Approval, true),
            wanted(GrantKind::WorkspaceRead, true),
            wanted(GrantKind::WorkspaceWrite, false),
            wanted(GrantKind::Network, false),
        ]
    );
    let reading = vec![wanted(GrantKind::WorkspaceRead, true)];
    assert_eq!(yunxi::files::plugin::required_grants(), reading);
    assert_eq!(yunxi::skills::plugin::required_grants(), reading);
}

#[test]
fn denied_grant_never_spawns_a_command() {
    let pending = ActionGrant::pending(WorkspaceGrant::read_only("/work"), "/work", 1, 1);
    let error = approve(&pending, "echo fixture").expect_err("denied grant");
    assert_eq!(error.code(), "grant_denied");
}

#[test]
fn read_only_grant_rejects_obvious_write_command() {
    let reader = ActionGrant::approved(
        WorkspaceGrant::read_only("/work"),
        "/work",
        "fixture-ticket",
        1,
        1,
    );
    let error =
        approve(&reader, "printf fixture > output.txt").expect_err("write command must be denied");
    assert_eq!(error.code(), "write_not_granted");
}

#[test]
fn commands_are_checked_one_rule_after_the_other() {
    let grant = grant();
    assert!(matches!(approve(&grant, " "), Err(ShellError::EmptyCommand)));
    assert!(matches!(
        approve(&grant, &"x".repeat(MAX_COMMAND_BYTES + 1)),
        Err(ShellError::CommandTooLong { length: 65537, maximum: 65536 })
    ));
    assert!(matches!(approve(&grant, "a\0b"), Err(ShellError::NulInCommand)));
    assert!(matches!(
        approve(&grant, "curl example.test"),
        Err(ShellError::NetworkNotGranted)
    ));
    let online = grant.with_network(true);
    assert!(approve(&online, "curl example.test").is_ok());
    let blind = ActionGrant::approved(
        WorkspaceGrant::new("/work", false, true),
        "/work",
        "ticket",
        1,
        1,
    );
    assert!(matches!(approve(&blind, "ls"), Err(ShellError::ReadNotGranted)));
}

#[test]
fn commands_are_recognized_by_their_words() {
    assert!(looks_like_network_command("SSH host"));
    assert!(looks_like_network_command("cat x | nc host"));
    assert!(looks_like_network_command("ncdu"));
    assert!(!looks_like_network_command("echo sync"));
    assert!(looks_like_write_command("RM -r x"));
    assert!(looks_like_write_command("a && cp b c"));
    assert!(!looks_like_write_command("cp b c"));
}

#[test]
fn directories_and_timeouts_keep_their_bounds() {
    assert!(check_directory(&place("/work"), &place("/work/a"), true).is_ok());
    assert!(matches!(
        check_directory(&place("/work"), &place("/other"), true),
        Err(ShellError::OutsideWorkspace { .. })
    ));
    assert!(matches!(
        check_directory(&place("/work"), &place("/work/a"), false),
        Err(ShellError::Workspace { .. })
    ));
    assert_eq!(effective_timeout(&grant()), 30_000);
    let mut patient = grant();
    patient.timeout_millis = u64::MAX;
    assert_eq!(effective_timeout(&patient), MAX_TIMEOUT_MILLIS);
    let (program, arguments) = shell_argv("dir", true, None);
    assert_eq!(program, "cmd.exe");
    assert_eq!(arguments.len(), 3);
    assert_eq!(shell_argv("ls", false, Some("/bin/zsh")).0, "/bin/zsh");
}

#[test]
fn output_is_kept_up_to_its_limit_however_it_arrives() {
    let mut once = BoundedOutput::new(4);
    once.feed(b"abcdef");
    let mut parts = BoundedOutput::new(4);
    parts.feed(b"ab");
    parts.feed(b"");
    parts.feed(b"cdef");
    assert_eq!(once.text(), "abcd");
    assert_eq!(parts.text(), "abcd");
    assert!(once.truncated() && parts.truncated());
    let mut exact = BoundedOutput::new(4);
    exact.feed(b"abcd");
    assert!(!exact.truncated());
    let mut invalid = BoundedOutput::new(4);
    invalid.feed(&[0x61, 0xff]);
    assert_eq!(invalid.text(), "a\u{fffd}");
    assert_eq!(invalid.utf8(), None);
}

#[test]
fn shell_plugin_reports_codes() {
    let failed: Reply<u8> = respond(1, Err(ShellPluginError::Execution(ShellError::NulInCommand)));
    assert!(matches!(
        failed,
        Reply::Failed { code: "invalid_command", message, .. }
            if message == "shell command contains a NUL byte"
    ));
    let failed: Reply<u8> =
        respond(1, Err(ShellPluginError::Capability("no such".to_string())));
    assert!(matches!(
        failed,
        Reply::Failed { code: "plugin_error", message, .. }
            if message == "invalid capability: no such"
    ));
}

#[test]
fn commands_see_no_other_variables_than_the_safe_ones() {
    let names = safe_variables();
    assert_eq!(names.len(), 12);
    assert!(names.contains(&"PATH") && names.contains(&"LC_ALL"));
    assert!(!names.iter().any(|name| name.contains("KEY") || name.contains("TOKEN")));
}

#[test]
fn commands_are_prepared_under_their_grant() {
    let grant =
        ActionGrant::approved(WorkspaceGrant::read_write("/work"), "/work/src", "ticket", 5, 64);
    let scope = |root: &str, cwd: &str, is_directory: bool| ScopeProbe {
        root: Ok(place(root)),
        working_directory: Ok(place(cwd)),
        is_directory,
    };
    let command = prepare(&grant, " ls ", &scope("/work", "/work/src", true), false, None)
        .expect("command");
    assert_eq!(command.program, "/bin/sh");
    assert_eq!(command.arguments, vec!["-c".to_string(), "ls".to_string()]);
    assert_eq!(command.directory, "/work/src");
    assert_eq!((command.timeout_millis, command.output_limit), (5, 64));
    assert!(matches!(
        prepare(&grant, "ls", &scope("/work", "/workshop", true), false, None),
        Err(ShellError::OutsideWorkspace { .. })
    ));
    assert!(matches!(
        prepare(&grant, "ls", &scope("/work", "/work/src", false), false, None),
        Err(ShellError::Workspace { path, .. }) if path == "/work/src"
    ));
    assert!(matches!(
        prepare(&grant, "touch a", &scope("/work", "/work/src", true), false, None),
        Err(ShellError::WriteNotGranted)
    ));
}

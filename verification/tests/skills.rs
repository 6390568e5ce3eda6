//! Skills: configuration, discovery, context and actions.
use std::path::Path;

use yunxi::bounded_output::BoundedOutput;
use yunxi::grants::{ActionGrant, SecretGrant, WorkspaceGrant};
use yunxi::paths::{components, Location};
use yunxi::plugin::dispatch::Reply;
use yunxi::skills::action::{
    action_limits, after_poll, check_frame, check_scope, conclude, merge_stderr, new_audit_id,
    response_text, select_action, ActionEnd, ActionRecord, ActionScope, ChildTermination,
    PathProbe, SkillActionExecutor, SkillActionOutcome, SkillActionRequest, SkillActionResponse,
};
use yunxi::skills::config::{
    parse_bool, parse_disabled, validate_skill_id, SkillsConfig, SkillsVariables,
};
use yunxi::skills::context::{context_result, count_tools};
use yunxi::skills::discovery::{
    check_actions, check_contained, check_file_length, complete_skill, discover, read_document,
    DiscoveredSkill, DiscoverySnapshot, RootProbe, SkillActionSpec, SkillEntry, SkillLimits,
    SkillListing, SkillParts, SkillToolDescriptor,
};
use yunxi::skills::document::{
    bound_warnings, split_document, MAX_DISCOVERY_WARNINGS, MAX_DISCOVERY_WARNING_BYTES,
};
use yunxi::skills::error::{DiscoveryError, SkillActionError, SkillLoadError, SkillsConfigError};
use yunxi::skills::plugin::{
    answer_context, exit_code, list_result, refresh, status, SkillsCall,
};

const FRAME: usize = 64;

fn place(path: &str) -> Location {
    Location { display: path.to_string(), components: components(path) }
}

fn current() -> Result<String, String> {
    Ok("/work".to_string())
}

fn limits() -> SkillLimits {
    SkillLimits {
        skills: 64,
        tool_declarations: 64,
        actions: 8,
        path_bytes: 512,
        context_bytes: 256 * 1024,
    }
}

fn tool(name: &str) -> SkillToolDescriptor {
    SkillToolDescriptor {
        name: name.to_string(),
        description: "Check metadata".to_string(),
        input_schema: "{\"type\":\"object\"}".to_string(),
    }
}

fn action(name: &str) -> SkillActionSpec {
    SkillActionSpec {
        tool_name: name.to_string(),
        program: "bin/action-fixture.exe".to_string(),
        arguments: Vec::new(),
        timeout_millis: 1_000,
        max_output_bytes: 128,
        requires_workspace_write: false,
    }
}

fn parts(
    tools: Vec<SkillToolDescriptor>,
    actions: Vec<SkillActionSpec>,
    directory: &str,
) -> SkillParts {
    SkillParts {
        instructions_verdict: Ok(()),
        tools: Ok(tools),
        actions: Ok(actions),
        metadata_verdict: Ok(()),
        directory: Ok(place(directory)),
    }
}

fn skill(name: &str, text: &str, tools: Vec<SkillToolDescriptor>) -> Result<DiscoveredSkill, SkillLoadError> {
    let document = read_document(Some(name), &text.as_bytes().to_vec())?;
    complete_skill(document, parts(tools, Vec::new(), &format!("/work/skills/{name}")))
}

fn entry(
    name: &str,
    loaded: Result<DiscoveredSkill, SkillLoadError>,
) -> (String, SkillEntry) {
    let path = format!("/work/skills/{name}");
    let file = format!("{path}/SKILL.md");
    (
        name.to_string(),
        SkillEntry {
            path: path.clone(),
            is_directory: Ok(true),
            directory: Ok(place(&path)),
            has_file: true,
            file_path: file.clone(),
            file: Ok(place(&file)),
            loaded,
        },
    )
}

fn root(entries: Vec<(String, SkillEntry)>) -> RootProbe {
    RootProbe {
        exists: true,
        is_directory: true,
        resolved: Ok(place("/work/skills")),
        listing: SkillListing::Entries(entries),
    }
}

fn config(disabled: &[&str]) -> SkillsConfig {
    let disabled = disabled.iter().map(|id| id.to_string()).collect();
    SkillsConfig::new("/work/skills", disabled, &current()).expect("config")
}

fn found(entries: Vec<(String, SkillEntry)>, disabled: &[&str]) -> DiscoverySnapshot {
    discover(&config(disabled), limits(), root(entries)).expect("discover")
}

#[test]
fn relative_root_is_resolved_and_disabled_ids_are_deduplicated() {
    let config = SkillsConfig::new(
        "skills",
        vec!["review".to_string(), "review".to_string()],
        &current(),
    )
    .expect("config");
    assert!(Path::new(config.root()).is_absolute());
    assert!(config.is_disabled("review"));
    assert_eq!(config.disabled().len(), 1);
}

#[test]
fn invalid_disabled_id_is_fail_closed() {
    assert!(parse_disabled(Some("../outside")).is_err());
}

#[test]
fn skills_configuration_comes_from_the_environment() {
    let text = |value: &str| Some(value.to_string());
    let variables = SkillsVariables {
        root: text(""),
        disabled: text(" review, , notes "),
        actions_enabled: text("on"),
    };
    let config = SkillsConfig::from_env(&variables, &current()).expect("config");
    assert_eq!(config.root(), "/work/skills");
    assert!(config.is_disabled("notes"));
    assert!(config.actions_enabled());
    assert!(matches!(
        SkillsConfig::from_env(&variables, &Err("gone".to_string())),
        Err(SkillsConfigError::CurrentDirectory(_))
    ));
    assert_eq!(parse_bool(Some(" FALSE ")).expect("switch"), false);
    assert_eq!(parse_bool(None).expect("switch"), false);
    assert!(matches!(
        parse_bool(Some("maybe")),
        Err(SkillsConfigError::InvalidActionsEnabled { .. })
    ));
    assert!(matches!(
        SkillsConfig::new(&format!("/{}", "x".repeat(512)), Vec::new(), &current()),
        Err(SkillsConfigError::RootTooLong { length: 513, maximum: 512 })
    ));
    assert!(matches!(
        SkillsConfig::new("/a\nb", Vec::new(), &current()),
        Err(SkillsConfigError::RootControlCharacter)
    ));
    assert!(validate_skill_id("code-review_2").is_ok());
    assert!(validate_skill_id("2fast").is_err());
    assert!(validate_skill_id("trailing-").is_err());
    assert!(validate_skill_id("").is_err());
}

#[test]
fn discovers_frontmatter_and_metadata_only_tools() {
    let text = "---\nname: Code Review\ndescription: Review source\n---\nRead the diff.\n";
    let snapshot = found(vec![entry("review", skill("review", text, vec![tool("check")]))], &[]);
    assert_eq!(snapshot.skills.len(), 1);
    assert_eq!(snapshot.skills[0].metadata.id, "review");
    assert_eq!(snapshot.skills[0].metadata.name, "Code Review");
    assert_eq!(snapshot.skills[0].metadata.tools.len(), 1);
    assert!(snapshot.skills[0].instructions.contains("Read the diff"));
}

#[test]
fn discovers_skill_without_frontmatter() {
    let snapshot = found(
        vec![entry("review", skill("review", "review instructions\n", vec![tool("check")]))],
        &[],
    );
    assert_eq!(snapshot.skills.len(), 1);
    assert_eq!(snapshot.skills[0].metadata.tools.len(), 1);
    assert_eq!(snapshot.skills[0].metadata.description, "Instructions for review");
    assert_eq!(snapshot.skills[0].metadata.path, "review/SKILL.md");
}

#[test]
fn traversal_and_executable_tool_metadata_are_ignored() {
    let refused = Err(SkillLoadError::Protocol("tool schema is executable".to_string()));
    let snapshot = found(vec![entry("review", refused)], &[]);
    assert!(snapshot.skills.is_empty());
    assert!(!snapshot.warnings.is_empty());
}

#[test]
fn control_characters_in_instructions_are_rejected_during_discovery() {
    let document =
        read_document(Some("review"), &b"invalid\0instructions".to_vec()).expect("document");
    let mut pieces = parts(Vec::new(), Vec::new(), "/work/skills/review");
    pieces.instructions_verdict = Err("control character".to_string());
    let snapshot = found(vec![entry("review", complete_skill(document, pieces))], &[]);
    assert!(snapshot.skills.is_empty());
    assert!(!snapshot.warnings.is_empty());
}

#[test]
fn discovery_orders_skills_and_leaves_out_what_it_must() {
    let mut foreign = entry("foreign", skill("foreign", "x", Vec::new()));
    foreign.1.directory = Ok(place("/elsewhere"));
    let mut plain = entry("plain", skill("plain", "x", Vec::new()));
    plain.1.is_directory = Ok(false);
    let entries = vec![
        entry("beta", skill("beta", "x", Vec::new())),
        entry("alpha", skill("alpha", "x", Vec::new())),
        entry("Alpha", skill("Alpha", "x", Vec::new())),
        entry("off", skill("off", "x", Vec::new())),
        foreign,
        plain,
    ];
    let snapshot = found(entries, &["off"]);
    let ids: Vec<&str> = snapshot.skills.iter().map(|skill| skill.metadata.id.as_str()).collect();
    assert_eq!(ids, ["alpha", "beta"]);
    assert_eq!(snapshot.warnings.len(), 2);
    assert!(snapshot.warnings.contains(&"ignored duplicate Skill id `alpha`".to_string()));
    assert!(!snapshot.truncated);
}

#[test]
fn discovery_keeps_its_limits() {
    let mut tight = limits();
    tight.skills = 1;
    let entries = vec![
        entry("a", skill("a", "x", Vec::new())),
        entry("b", skill("b", "x", Vec::new())),
    ];
    let snapshot = discover(&config(&[]), tight, root(entries)).expect("discover");
    assert_eq!(snapshot.skills.len(), 1);
    assert!(snapshot.truncated);
    let mut few_tools = limits();
    few_tools.tool_declarations = 1;
    let entries = vec![
        entry("a", skill("a", "x", vec![tool("one"), tool("two")])),
        entry("b", skill("b", "x", vec![tool("three")])),
    ];
    let snapshot = discover(&config(&[]), few_tools, root(entries)).expect("discover");
    assert_eq!(snapshot.skills.len(), 1);
    assert_eq!(count_tools(&snapshot.skills), 1);
    assert!(snapshot.truncated);
    let missing = RootProbe { exists: false, ..root(Vec::new()) };
    let snapshot = discover(&config(&[]), limits(), missing).expect("discover");
    assert_eq!(snapshot.warnings, ["Skills root does not exist: /work/skills"]);
    let file = RootProbe { is_directory: false, ..root(Vec::new()) };
    assert!(matches!(
        discover(&config(&[]), limits(), file),
        Err(DiscoveryError::RootNotDirectory { .. })
    ));
    let mut short = limits();
    short.path_bytes = 3;
    assert!(matches!(
        discover(&config(&[]), short, root(Vec::new())),
        Err(DiscoveryError::RootTooLong { length: 12, maximum: 3 })
    ));
}

#[test]
fn documents_are_read_with_and_without_a_header() {
    let text = split_document("---\nName: \"Quoted\"\nother: x\nDESCRIPTION: 'single'\n---\na\nb");
    assert_eq!(text.name.as_deref(), Some("Quoted"));
    assert_eq!(text.description.as_deref(), Some("single"));
    assert_eq!(text.instructions, "a\nb");
    let open = split_document("---\nname: x\nno end");
    assert_eq!(open.name, None);
    assert_eq!(open.instructions, "---\nname: x\nno end");
    assert!(matches!(
        read_document(Some("x"), &vec![0xff]),
        Err(SkillLoadError::NotUtf8)
    ));
    assert!(matches!(
        read_document(None, &b"x".to_vec()),
        Err(SkillLoadError::InvalidDirectoryName)
    ));
}

#[test]
fn warnings_are_short_and_printable() {
    let long = format!("{}é\u{7}", "x".repeat(MAX_DISCOVERY_WARNING_BYTES - 1));
    let warnings = bound_warnings(&vec![long, "a\nb".to_string()]);
    assert_eq!(warnings[0].len(), MAX_DISCOVERY_WARNING_BYTES - 1);
    assert_eq!(warnings[1], "a b");
    let many = vec!["w".to_string(); 40];
    assert_eq!(bound_warnings(&many).len(), MAX_DISCOVERY_WARNINGS);
}

#[test]
fn skills_are_held_to_their_parts() {
    assert!(matches!(
        check_file_length("SKILL.md", 5, 4),
        Err(SkillLoadError::TooLarge { size: 5, maximum: 4, .. })
    ));
    assert!(check_contained(&place("/a"), &place("/b")).is_err());
    let actions = vec![action("check"), action("check")];
    assert!(matches!(
        check_actions(&actions, &vec![Ok(()), Ok(())], 8),
        Err(SkillLoadError::DuplicateAction { .. })
    ));
    assert!(matches!(
        check_actions(&actions, &vec![Ok(()), Ok(())], 1),
        Err(SkillLoadError::TooManyActions { count: 2, maximum: 1 })
    ));
    assert!(matches!(
        check_actions(&actions, &vec![Err("bad".to_string()), Ok(())], 8),
        Err(SkillLoadError::Protocol(_))
    ));
    let document = read_document(Some("review"), &b"x".to_vec()).expect("document");
    assert!(matches!(
        complete_skill(document, parts(vec![tool("other")], vec![action("check")], "/s")),
        Err(SkillLoadError::ActionToolNotDeclared)
    ));
}

#[test]
fn context_result_truncates_at_the_total_budget() {
    let unit = 1024;
    let mut skills = Vec::new();
    let mut ids = Vec::new();
    for index in 0..5 {
        let id = format!("skill-{index}");
        let text = "x".repeat(unit);
        skills.push(skill(&id, &text, Vec::new()).expect("skill"));
        ids.push(id);
    }
    let snapshot = DiscoverySnapshot {
        root: "skills".to_string(),
        skills,
        warnings: Vec::new(),
        truncated: false,
    };

    let result = context_result(&snapshot, &ids, 4 * unit);

    assert_eq!(result.blocks.len(), 4);
    assert!(result.truncated);
    assert!(result.warnings.iter().any(|warning| warning.contains("budget was exhausted")));
}

#[test]
fn context_says_what_is_missing() {
    let snapshot = found(vec![entry("empty", skill("empty", " \n", Vec::new()))], &[]);
    let ids = vec!["empty".to_string(), "other".to_string()];
    let result = context_result(&snapshot, &ids, 100);
    assert!(result.blocks.is_empty());
    assert_eq!(
        result.warnings,
        ["Skill `empty` has no instruction body", "Skill `other` is not available"]
    );
    let reply = answer_context(3, &snapshot, Ok(ids), 100);
    assert!(matches!(reply, Reply::Completed { request_id: 3, .. }));
    let reply = answer_context(3, &snapshot, Err("bad".to_string()), 100);
    assert!(matches!(reply, Reply::Failed { code: "invalid_request", .. }));
    assert_eq!(list_result(&snapshot).skills.len(), 1);
    assert_eq!(status(&snapshot).skill_count, 1);
    let (kept, reply) = refresh::<u8>(
        4,
        snapshot,
        Err(DiscoveryError::ReadDirectoryEntry { message: "gone".to_string() }),
    );
    assert_eq!(kept.skills.len(), 1);
    assert!(matches!(reply, Some(Reply::Failed { code: "skills_discovery", .. })));
    assert_eq!(exit_code("crash-list", Some(SkillsCall::List)), Some(43));
    assert_eq!(exit_code("crash-list", Some(SkillsCall::Status)), None);
    assert_eq!(exit_code("crash-before-handshake", None), Some(42));
}

fn grant() -> ActionGrant {
    ActionGrant::approved(WorkspaceGrant::read_only("/work"), "/work", "test-ticket", 500, 64)
}

fn request() -> SkillActionRequest {
    SkillActionRequest { skill_id: "review".to_string(), tool_name: "check".to_string() }
}

fn acting_skill() -> DiscoveredSkill {
    let document =
        read_document(Some("review"), &b"review instructions\n".to_vec()).expect("document");
    complete_skill(
        document,
        parts(vec![tool("check")], vec![action("check")], "/work/skills/review"),
    )
    .expect("skill")
}

fn output(text: &str) -> BoundedOutput {
    let mut out = BoundedOutput::new(FRAME);
    out.feed(text.as_bytes());
    out
}

fn end(termination: ChildTermination, response: Result<SkillActionResponse, String>) -> ActionEnd {
    ActionEnd {
        termination,
        written: Ok(()),
        stdout: output("{}"),
        stderr: output(""),
        response,
        verdict: Ok(()),
    }
}

fn record() -> ActionRecord {
    ActionRecord {
        audit_id: new_audit_id(255, 16),
        duration_millis: 5,
        frame_limit: FRAME,
        max_output_bytes: 32,
    }
}

fn success(stdout: &str) -> SkillActionResponse {
    SkillActionResponse {
        outcome: SkillActionOutcome::Success,
        exit_code: Some(0),
        stdout: stdout.to_string(),
        stderr: String::new(),
        output_truncated: false,
    }
}

const EXITED: ChildTermination = ChildTermination::Exited { code: Some(0), success: true };

#[test]
fn action_executes_only_when_explicitly_enabled_and_returns_audit_result() {
    let executor = SkillActionExecutor::new(config(&[]).with_actions_enabled(true));
    let probe = || root(vec![entry("review", Ok(acting_skill()))]);
    let declarations = executor.declarations(limits(), probe()).expect("declarations");
    assert_eq!(declarations.len(), 1);
    assert_eq!(declarations[0].skill_id(), "review");
    assert_eq!(declarations[0].tool_name(), "check");
    assert!(!declarations[0].requires_workspace_write());
    let chosen = executor
        .choose_action(&Ok(()), &request(), &grant(), limits(), probe())
        .expect("action");
    let result = conclude(
        &request(),
        &chosen.snapshot.skills[chosen.skill].actions[chosen.action],
        record(),
        end(EXITED, Ok(success("hello"))),
    )
    .expect("action");
    assert_eq!(result.outcome(), SkillActionOutcome::Success);
    assert_eq!(result.stdout(), "hello");
    assert_eq!(result.audit_id(), "skill-action-ff-10");
    assert_eq!(result.program(), "bin/action-fixture.exe");
    assert_eq!(result.duration_millis(), 5);
}

#[test]
fn action_is_fail_closed_by_default_and_without_declaration() {
    let error = SkillActionExecutor::new(config(&[]))
        .approve(&Ok(()), &grant())
        .expect_err("default must disable actions");
    assert!(matches!(error, SkillActionError::ActionsDisabled));
    let undeclared = vec![skill("review", "x", vec![tool("check")]).expect("skill")];
    let error = select_action(&undeclared, &request(), &grant())
        .expect_err("undeclared action must fail closed");
    assert!(matches!(error, SkillActionError::ActionNotDeclared { .. }));
    let error = select_action(&Vec::new(), &request(), &grant()).expect_err("no such skill");
    assert!(matches!(error, SkillActionError::SkillNotFound { .. }));
}

#[test]
fn action_requires_approval_and_rejects_secret_or_network_authority() {
    let executor = SkillActionExecutor::new(config(&[]).with_actions_enabled(true));
    let pending = ActionGrant::pending(WorkspaceGrant::read_only("/work"), "/work", 1, 1);
    assert!(matches!(executor.approve(&Ok(()), &pending), Err(SkillActionError::Grant(_))));
    let online = grant().with_network(true);
    assert!(matches!(
        executor.approve(&Ok(()), &online),
        Err(SkillActionError::ForbiddenGrant)
    ));
    let mut secret = grant();
    secret.secret_grant = SecretGrant::new(vec!["token".to_string()]);
    assert!(matches!(
        executor.approve(&Ok(()), &secret),
        Err(SkillActionError::ForbiddenGrant)
    ));
    assert!(matches!(
        executor.approve(&Err("bad input".to_string()), &grant()),
        Err(SkillActionError::Request(_))
    ));
    let mut writer = acting_skill();
    writer.actions[0].requires_workspace_write = true;
    assert!(matches!(
        select_action(&vec![writer], &request(), &grant()),
        Err(SkillActionError::WorkspaceWriteRequired)
    ));
}

fn probed(path: &str) -> PathProbe {
    PathProbe { path: path.to_string(), resolved: Ok(place(path)), fits: true }
}

fn scope(working: &str, program: &str) -> ActionScope {
    ActionScope {
        skills_root: probed("/work/skills"),
        workspace_root: probed("/work"),
        working_directory: probed(working),
        program: probed(program),
    }
}

#[test]
fn action_rejects_out_of_scope_working_directory() {
    let skill = place("/work/skills/review");
    assert!(check_scope(&scope("/work", "/work/skills/review/bin/a"), &skill).is_ok());
    let error = check_scope(&scope("/tmp", "/work/skills/review/bin/a"), &skill)
        .expect_err("outside");
    assert!(matches!(
        error,
        SkillActionError::OutOfScope { label: "Skill action working directory", .. }
    ));
    let error = check_scope(&scope("/work", "/bin/sh"), &skill).expect_err("outside");
    assert!(matches!(error, SkillActionError::OutOfScope { label: "Skill action program", .. }));
    let mut missing = scope("/work", "/work/skills/review/bin/a");
    missing.program.fits = false;
    assert!(matches!(check_scope(&missing, &skill), Err(SkillActionError::NotFile { .. })));
    missing.skills_root.resolved = Err("gone".to_string());
    assert!(matches!(
        check_scope(&missing, &skill),
        Err(SkillActionError::Path { label: "Skills root", .. })
    ));
}

#[test]
fn action_bad_frame_and_timeout_do_not_escape_as_panics() {
    let action = action("check");
    let run = |end: ActionEnd| conclude(&request(), &action, record(), end);
    assert!(matches!(
        run(end(EXITED, Err("expected value".to_string()))),
        Err(SkillActionError::BadResponse(_))
    ));
    let timed_out = run(end(ChildTermination::TimedOut, Err("none".to_string()))).expect("result");
    assert_eq!(timed_out.outcome(), SkillActionOutcome::TimedOut);
    assert_eq!(timed_out.stderr(), "Skill action timed out");
    assert_eq!(timed_out.exit_code(), None);
    let mut huge = end(EXITED, Ok(success("x")));
    huge.stdout = output(&"x".repeat(FRAME + 1));
    assert!(matches!(
        run(huge),
        Err(SkillActionError::FrameTooLarge { size: 65, maximum: 64 })
    ));
    let mut loud = end(EXITED, Ok(success("x")));
    loud.stderr = output(&"e".repeat(FRAME + 1));
    assert!(matches!(run(loud), Err(SkillActionError::FrameTooLarge { .. })));
    let mut invalid = end(EXITED, Ok(success("x")));
    let mut bytes = BoundedOutput::new(FRAME);
    bytes.feed(&[0xff]);
    invalid.stdout = bytes;
    assert!(matches!(run(invalid), Err(SkillActionError::InvalidUtf8)));
    assert!(matches!(
        run(end(EXITED, Ok(success(&"x".repeat(33))))),
        Err(SkillActionError::OutputLimit { maximum: 32 })
    ));
    let mut unwritten = end(EXITED, Ok(success("x")));
    unwritten.written = Err("broken pipe".to_string());
    assert!(matches!(run(unwritten), Err(SkillActionError::Io { .. })));
    let lying = ChildTermination::Exited { code: Some(1), success: false };
    assert!(matches!(
        run(end(lying, Ok(success("x")))),
        Err(SkillActionError::BadResponse(_))
    ));
    assert!(check_frame(65, 64).is_err());
    assert_eq!(response_text(&output("{} \n"), FRAME).expect("text"), "{}");
    assert_eq!(merge_stderr("a", "b"), "a\nb");
    assert_eq!(merge_stderr("", "b"), "b");
    assert_eq!(action_limits(&action, &grant()), (500, 64));
}

#[test]
fn cancellation_is_reported_with_what_was_said_before() {
    let action = action("check");
    let mut cancelled = end(ChildTermination::Cancelled, Err("none".to_string()));
    cancelled.stderr = output("half way");
    let result = conclude(&request(), &action, record(), cancelled).expect("result");
    assert_eq!(result.outcome(), SkillActionOutcome::Cancelled);
    assert_eq!(result.stderr(), "Skill action cancelled: half way");
    let failed = ChildTermination::Exited { code: Some(0), success: false };
    let result = conclude(&request(), &action, record(), end(failed, Ok(success("x")))).expect("ok");
    assert_eq!(result.outcome(), SkillActionOutcome::Failed);
}

#[test]
fn an_exit_counts_before_a_cancellation_and_that_before_the_deadline() {
    assert!(matches!(
        after_poll(Some((Some(0), true)), true, true),
        Some(ChildTermination::Exited { code: Some(0), success: true })
    ));
    assert!(matches!(after_poll(None, true, true), Some(ChildTermination::Cancelled)));
    assert!(matches!(after_poll(None, false, true), Some(ChildTermination::TimedOut)));
    assert!(after_poll(None, false, false).is_none());
}

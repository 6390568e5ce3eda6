//! Patches: their grammar, their hunks and how they are carried out.
use std::collections::BTreeMap;

use yunxi::grants::{ActionGrant, WorkspaceGrant};
use yunxi::patch::apply::{
    after_attempt, check_existing_target, check_length, check_working_directory, next_step,
    plan_add, PatchApplyResult, PatchChangeKind, TransactionStep, MAX_FILE_BYTES,
};
use yunxi::patch::error::PatchError;
use yunxi::patch::hunks::{apply_hunks, find_unique_match, render_lines, split_lines};
use yunxi::patch::parse::{
    parse_patch, validate_relative_path, ParsedChange, ParsedChangeKind, PatchLine,
    MAX_PATCH_BYTES,
};
use yunxi::patch::plan::{added_file, build_plans, open_patch, TargetProbe};
use yunxi::paths::{components, Location};

fn place(path: &str) -> Location {
    Location { display: path.to_string(), components: components(path) }
}

fn grant() -> ActionGrant {
    ActionGrant::approved(WorkspaceGrant::read_write("/work"), "/work", "fixture-ticket", 1, 1)
        .with_write(true)
}

type Files = BTreeMap<String, Vec<u8>>;

fn workspace(files: &[(&str, &str)]) -> Files {
    files
        .iter()
        .map(|(name, content)| (format!("/work/{name}"), content.as_bytes().to_vec()))
        .collect()
}

fn probe(files: &Files, change: &ParsedChange) -> TargetProbe {
    let target = format!("/work/{}", change.path);
    let adds = matches!(change.kind, ParsedChangeKind::Add { .. });
    let found = files.get(&target);
    TargetProbe {
        path: target.clone(),
        resolved: if adds {
            Ok(place("/work"))
        } else if found.is_some() {
            Ok(place(&target))
        } else {
            Err("not found".to_string())
        },
        is_file: found.is_some(),
        taken: found.is_some(),
        length: Ok(found.map_or(0, |content| content.len() as u64)),
        content: found.cloned().ok_or("not found".to_string()),
    }
}

fn root() -> Result<Location, String> {
    Ok(place("/work"))
}

/// Applies a patch to files in memory; writing to the given path fails.
fn apply(
    grant: &ActionGrant,
    patch: &str,
    files: &mut Files,
    broken: &str,
) -> Result<PatchApplyResult, PatchError> {
    let changes = open_patch(grant, &root(), &root(), patch)?;
    let probes = changes.iter().map(|change| probe(files, change)).collect();
    let plans = build_plans(&place("/work"), &changes, &probes)?;
    let mut step = next_step(&plans, 0);
    loop {
        match step {
            TransactionStep::Apply(index) => {
                let plan = &plans[index];
                let outcome = if plan.target == broken {
                    Err("disk full".to_string())
                } else {
                    match &plan.content {
                        Some(content) => files.insert(plan.target.clone(), content.clone()),
                        None => files.remove(&plan.target),
                    };
                    Ok(())
                };
                step = after_attempt(&plans, index, outcome);
            }
            TransactionStep::Undo { steps, error } => {
                for undo in steps {
                    match undo.content {
                        Some(content) => files.insert(undo.target, content),
                        None => files.remove(&undo.target),
                    };
                }
                return Err(error);
            }
            TransactionStep::Done(result) => return Ok(result),
        }
    }
}

#[test]
fn add_update_and_delete_stay_inside_workspace() {
    let patch = "*** Begin Patch\n*** Add File: added.txt\n+hello\n*** Update File: existing.txt\n@@\n-one\n+ONE\n*** End Patch\n";
    let mut files = workspace(&[("existing.txt", "one\ntwo\n")]);
    let result = apply(&grant(), patch, &mut files, "").expect("apply");
    assert_eq!(result.changes.len(), 2);
    assert_eq!(files["/work/added.txt"], b"hello\n");
    assert_eq!(files["/work/existing.txt"], b"ONE\ntwo\n");
    assert_eq!(result.changes[1].kind, PatchChangeKind::Updated);
    assert_eq!(result.changes[1].path, "existing.txt");
    assert_eq!((result.changes[1].added_lines, result.changes[1].removed_lines), (1, 1));

    let delete = "*** Begin Patch\n*** Delete File: added.txt\n*** End Patch\n";
    let result = apply(&grant(), delete, &mut files, "").expect("delete");
    assert!(!files.contains_key("/work/added.txt"));
    assert_eq!(result.changes[0].removed_lines, 1);
}

#[test]
fn traversal_and_denied_grants_never_modify_files() {
    let before = workspace(&[("existing.txt", "one\n")]);
    let mut files = before.clone();
    let traversal = "*** Begin Patch\n*** Add File: ../escape.txt\n+bad\n*** End Patch\n";
    let error = apply(&grant(), traversal, &mut files, "").expect_err("traversal must fail");
    assert_eq!(error.code(), "path_denied");
    let denied = ActionGrant::pending(WorkspaceGrant::read_only("/work"), "/work", 1, 1);
    let patch =
        "*** Begin Patch\n*** Update File: existing.txt\n@@\n-one\n+two\n*** End Patch\n";
    let error = apply(&denied, patch, &mut files, "").expect_err("unapproved patch must fail");
    assert_eq!(error.code(), "grant_denied");
    assert_eq!(files, before);
}

#[test]
fn a_later_hunk_failure_rolls_back_earlier_files() {
    let patch = "*** Begin Patch\n*** Update File: first.txt\n@@\n-one\n+ONE\n*** Update File: missing.txt\n@@\n-nope\n+value\n*** End Patch\n";
    let before = workspace(&[("first.txt", "one\n")]);
    let mut files = before.clone();
    let error = apply(&grant(), patch, &mut files, "").expect_err("missing file must fail");
    assert_eq!(error.code(), "file_error");
    assert_eq!(files, before);
}

#[test]
fn a_failed_write_undoes_the_writes_before_it() {
    let patch = "*** Begin Patch\n*** Add File: new.txt\n+x\n*** Update File: a.txt\n-one\n+two\n*** Delete File: b.txt\n*** End Patch\n";
    let before = workspace(&[("a.txt", "one\n"), ("b.txt", "b")]);
    let mut files = before.clone();
    let error = apply(&grant(), patch, &mut files, "/work/b.txt").expect_err("failure");
    assert!(matches!(error, PatchError::Transaction(message) if message == "disk full"));
    assert_eq!(files, before);
}

#[test]
fn targets_outside_the_workspace_are_refused() {
    let patch = "*** Begin Patch\n*** Update File: link.txt\n-one\n+two\n*** End Patch\n";
    let changes = open_patch(&grant(), &root(), &root(), patch).expect("open");
    let files = workspace(&[("link.txt", "one\n")]);
    let mut away = probe(&files, &changes[0]);
    away.resolved = Ok(place("/etc/link.txt"));
    assert!(matches!(
        build_plans(&place("/work"), &changes, &vec![away]),
        Err(PatchError::OutsideWorkspace { path, .. }) if path == "/etc/link.txt"
    ));
    let mut long = probe(&files, &changes[0]);
    long.length = Ok(MAX_FILE_BYTES + 1);
    assert!(matches!(
        build_plans(&place("/work"), &changes, &vec![long]),
        Err(PatchError::FileTooLarge { .. })
    ));
    assert!(matches!(
        open_patch(&grant(), &root(), &Ok(place("/elsewhere")), patch),
        Err(PatchError::OutsideWorkspace { .. })
    ));
    assert!(matches!(
        open_patch(&grant(), &Err("gone".to_string()), &root(), patch),
        Err(PatchError::Workspace { path, message }) if path == "/work" && message == "gone"
    ));
    let add = "*** Begin Patch\n*** Add File: sub/link.txt\n+x\n*** End Patch\n";
    assert_eq!(added_file(&place("/work/sub"), "sub/link.txt").as_deref(), Some("/work/sub/link.txt"));
    let changes = open_patch(&grant(), &root(), &root(), add).expect("open");
    let mut taken = probe(&files, &changes[0]);
    taken.taken = true;
    assert!(matches!(
        build_plans(&place("/work"), &changes, &vec![taken]),
        Err(PatchError::AlreadyExists(path)) if path == "sub/link.txt"
    ));
}

#[test]
fn patches_are_refused_before_anything_is_read() {
    assert!(matches!(parse_patch(""), Err(PatchError::EmptyPatch)));
    assert!(matches!(
        parse_patch(&"x".repeat(MAX_PATCH_BYTES + 1)),
        Err(PatchError::PatchTooLarge { .. })
    ));
    assert!(matches!(parse_patch("no patch"), Err(PatchError::InvalidPatch(_))));
    assert!(validate_relative_path("/etc/passwd").is_err());
    assert!(validate_relative_path("a/../b").is_err());
    assert!(validate_relative_path("a/b.txt").is_ok());
    let twice = "*** Begin Patch\n*** Add File: a.txt\n+x\n*** Add File: a.txt\n+y\n*** End Patch\n";
    assert!(matches!(parse_patch(twice), Err(PatchError::DuplicatePath(_))));
}

#[test]
fn hunks_need_one_place_to_go() {
    let lines = split_lines("a\nb\na\n");
    let wanted = vec!["a".to_string()];
    assert!(matches!(find_unique_match(&lines, &wanted, 0), Err(PatchError::AmbiguousHunk)));
    assert_eq!(find_unique_match(&lines, &wanted, 1).expect("place"), 2);
    assert!(matches!(
        find_unique_match(&lines, &vec!["c".to_string()], 0),
        Err(PatchError::HunkContextNotFound)
    ));
    assert_eq!(render_lines(&lines, "\n", true), "a\nb\na\n");
}

#[test]
fn line_endings_and_missing_final_newlines_are_kept() {
    let hunks = vec![vec![
        PatchLine::Context("one".to_string()),
        PatchLine::Remove("two".to_string()),
        PatchLine::Add("TWO".to_string()),
    ]];
    let (bytes, added, removed) =
        apply_hunks(&b"one\r\ntwo\r\nthree".to_vec(), &hunks).expect("apply");
    assert_eq!(bytes, b"one\r\nTWO\r\nthree".to_vec());
    assert_eq!((added, removed), (1, 1));
    assert!(matches!(
        apply_hunks(&vec![0xff, 0xfe], &hunks),
        Err(PatchError::InvalidUtf8(_))
    ));
}

#[test]
fn targets_stay_in_the_workspace_and_within_their_size() {
    assert!(check_working_directory(&place("/work"), &place("/work/src")).is_ok());
    assert!(check_working_directory(&place("/work"), &place("/workshop")).is_err());
    assert!(check_length("/work/a", MAX_FILE_BYTES).is_ok());
    assert!(check_length("/work/a", MAX_FILE_BYTES + 1).is_err());
    let existing = plan_add("a.txt", &vec!["x".to_string()], "/work/a.txt", true);
    assert_eq!(existing.expect_err("exists").code(), "conflict");
}

#[test]
fn only_files_of_the_workspace_are_changed() {
    let root = place("/work");
    assert!(check_existing_target(&root, &place("/work/src/a.rs"), true).is_ok());
    assert!(matches!(
        check_existing_target(&root, &place("/work/src"), false),
        Err(PatchError::OutsideWorkspace { .. })
    ));
    assert!(matches!(
        check_existing_target(&root, &place("/workshop/a.rs"), true),
        Err(PatchError::OutsideWorkspace { .. })
    ));
}

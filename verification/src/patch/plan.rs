//! From a patch and what the file system says of its files to the plans that carry it out.
use vstd::prelude::*;
use vstd::utf8::encode_utf8;

use crate::grants::ActionGrant;
use crate::patch::apply::{
    after_plans, after_steps, authorize, check_existing_target, check_length,
    check_working_directory, file_at, lemma_rollback_restores_every_file, plan_add, plan_delete,
    plan_update, plans_view, refusal, undoes, Files, PatchChangeKind, PlannedChange,
    PlannedChangeView, RestoreStep, MAX_FILE_BYTES,
};
use crate::patch::error::{PatchError, PatchErrorView};
use crate::patch::hunks::{patched_bytes, rendered};
use crate::patch::parse::{
    changes_view, countable, parse_of, parse_patch, ParsedChange, ParsedChangeKind,
    ParsedChangeKindView, ParsedChangeView,
};
use crate::paths::{file_name, file_name_of, joined, joined_of, Location};
use crate::text::{lines_of, lossy_text};

verus! {

// ---------------------------------------------------------------------------
// Opening a patch
// ---------------------------------------------------------------------------
/// The root of the workspace and the changes of a patch, or why it is not looked at further.
/// The directories are those of the grant, resolved.
pub open spec fn opened_patch(
    grant: ActionGrant,
    root: Result<Location, String>,
    working_directory: Result<Location, String>,
    patch: Seq<char>,
) -> Result<Seq<ParsedChangeView>, PatchErrorView> {
    match refusal(grant) {
        Some(error) => Err(error),
        None => match root {
            Err(message) => Err(
                PatchErrorView::Workspace { path: grant.workspace.spec_root(), message: message@ },
            ),
            Ok(root) => match working_directory {
                Err(message) => Err(
                    PatchErrorView::Workspace {
                        path: grant.working_directory@,
                        message: message@,
                    },
                ),
                Ok(directory) => if !directory.within(root) {
                    Err(
                        PatchErrorView::OutsideWorkspace {
                            path: directory.display@,
                            root: root.display@,
                        },
                    )
                } else {
                    parse_of(patch)
                },
            },
        },
    }
}

/// Checks the authority and the directories of a grant, and reads the patch.
pub fn open_patch(
    grant: &ActionGrant,
    root: &Result<Location, String>,
    working_directory: &Result<Location, String>,
    patch: &str,
) -> (r: Result<Vec<ParsedChange>, PatchError>)
    ensures
        match opened_patch(*grant, *root, *working_directory, patch@) {
            Ok(changes) => r is Ok && changes_view(r->Ok_0@) == changes && countable(r->Ok_0@)
                && *root is Ok,
            Err(error) => r is Err && r->Err_0@ == error,
        },
{
    match authorize(grant) {
        Ok(()) => {},
        Err(error) => return Err(error),
    }
    let root = match root {
        Ok(root) => root,
        Err(message) => return Err(
            PatchError::Workspace {
                path: grant.workspace.root().to_owned(),
                message: message.clone(),
            },
        ),
    };
    let directory = match working_directory {
        Ok(directory) => directory,
        Err(message) => return Err(
            PatchError::Workspace {
                path: grant.working_directory.clone(),
                message: message.clone(),
            },
        ),
    };
    match check_working_directory(root, directory) {
        Ok(()) => {},
        Err(error) => return Err(error),
    }
    parse_patch(patch)
}

// ---------------------------------------------------------------------------
// Planning
// ---------------------------------------------------------------------------
/// What the file system says of the file that a section names.
#[derive(Debug)]
pub struct TargetProbe {
    /// The path that was resolved: the file itself, or the directory of one that is added.
    pub path: String,
    /// Where it leads.
    pub resolved: Result<Location, String>,
    /// It leads to a file.
    pub is_file: bool,
    /// Something stands where a file is to be added.
    pub taken: bool,
    /// How long the file is.
    pub length: Result<u64, String>,
    /// What it holds; nothing need have been read of one that is too long.
    pub content: Result<Vec<u8>, String>,
}

/// Where an added file goes: into its directory, under its own name.
pub open spec fn added_target(directory: Location, path: Seq<char>) -> Option<Seq<char>> {
    match file_name_of(path) {
        Some(name) => Some(joined_of(directory.display@, name)),
        None => None,
    }
}

pub fn added_file(directory: &Location, path: &str) -> (r: Option<String>)
    ensures
        r is Some == added_target(*directory, path@) is Some,
        r is Some ==> Some(r->0@) == added_target(*directory, path@),
{
    match file_name(path) {
        Some(name) => Some(joined(directory.display.as_str(), name.as_str())),
        None => None,
    }
}

/// Where a probe leads, or why it leads nowhere.
pub open spec fn resolved_place(probe: TargetProbe) -> Result<Location, PatchErrorView> {
    match probe.resolved {
        Ok(place) => Ok(place),
        Err(message) => Err(
            PatchErrorView::Workspace { path: probe.path@, message: message@ },
        ),
    }
}

fn resolved(probe: &TargetProbe) -> (r: Result<&Location, PatchError>)
    ensures
        match resolved_place(*probe) {
            Ok(place) => r is Ok && *r->Ok_0 == place,
            Err(error) => r is Err && r->Err_0@ == error,
        },
{
    match &probe.resolved {
        Ok(place) => Ok(place),
        Err(message) => Err(
            PatchError::Workspace { path: probe.path.clone(), message: message.clone() },
        ),
    }
}

/// What a file that has to exist holds, or why it cannot be changed.
pub open spec fn existing_content(root: Location, probe: TargetProbe) -> Result<
    Seq<u8>,
    PatchErrorView,
> {
    match resolved_place(probe) {
        Err(error) => Err(error),
        Ok(place) => if !place.within(root) || !probe.is_file {
            Err(
                PatchErrorView::OutsideWorkspace {
                    path: place.display@,
                    root: root.display@,
                },
            )
        } else {
            match probe.length {
                Err(message) => Err(
                    PatchErrorView::Workspace { path: place.display@, message: message@ },
                ),
                Ok(length) => if length > MAX_FILE_BYTES {
                    Err(
                        PatchErrorView::FileTooLarge {
                            path: place.display@,
                            maximum: MAX_FILE_BYTES as nat,
                        },
                    )
                } else {
                    match probe.content {
                        Err(message) => Err(
                            PatchErrorView::Workspace { path: place.display@, message: message@ },
                        ),
                        Ok(bytes) => Ok(bytes@),
                    }
                },
            }
        },
    }
}

fn read_existing(root: &Location, probe: &TargetProbe) -> (r: Result<
    (String, Vec<u8>),
    PatchError,
>)
    ensures
        match existing_content(*root, *probe) {
            Ok(bytes) => {
                &&& r is Ok
                &&& (r->Ok_0).0@ == probe.resolved->Ok_0.display@
                &&& (r->Ok_0).1@ == bytes
            },
            Err(error) => r is Err && r->Err_0@ == error,
        },
{
    let place = match resolved(probe) {
        Ok(place) => place,
        Err(error) => return Err(error),
    };
    match check_existing_target(root, place, probe.is_file) {
        Ok(()) => {},
        Err(error) => return Err(error),
    }
    match &probe.length {
        Ok(length) => match check_length(place.display.as_str(), *length) {
            Ok(()) => {},
            Err(error) => return Err(error),
        },
        Err(message) => return Err(
            PatchError::Workspace { path: place.display.clone(), message: message.clone() },
        ),
    }
    match &probe.content {
        Ok(bytes) => Ok((place.display.clone(), bytes.clone())),
        Err(message) => Err(
            PatchError::Workspace { path: place.display.clone(), message: message.clone() },
        ),
    }
}

/// The plan of one section, or why there is none.
pub open spec fn planned(root: Location, change: ParsedChangeView, probe: TargetProbe) -> Result<
    PlannedChangeView,
    PatchErrorView,
> {
    match change.kind {
        ParsedChangeKindView::Add { lines } => match resolved_place(probe) {
            Err(error) => Err(error),
            Ok(directory) => if !directory.within(root) {
                Err(
                    PatchErrorView::OutsideWorkspace {
                        path: directory.display@,
                        root: root.display@,
                    },
                )
            } else {
                match added_target(directory, change.path) {
                    None => Err(PatchErrorView::InvalidPath(change.path)),
                    Some(target) => if probe.taken {
                        Err(PatchErrorView::AlreadyExists(change.path))
                    } else {
                        Ok(
                            PlannedChangeView {
                                target,
                                relative: change.path,
                                kind: PatchChangeKind::Added,
                                content: Some(encode_utf8(rendered(lines, "\n"@, true))),
                                original: None,
                                added_lines: lines.len(),
                                removed_lines: 0,
                            },
                        )
                    },
                }
            },
        },
        ParsedChangeKindView::Delete => match existing_content(root, probe) {
            Err(error) => Err(error),
            Ok(original) => Ok(
                PlannedChangeView {
                    target: probe.resolved->Ok_0.display@,
                    relative: change.path,
                    kind: PatchChangeKind::Deleted,
                    content: None,
                    original: Some(original),
                    added_lines: 0,
                    removed_lines: lines_of(lossy_text(original)).len(),
                },
            ),
        },
        ParsedChangeKindView::Update { hunks } => match existing_content(root, probe) {
            Err(error) => Err(error),
            Ok(original) => match patched_bytes(original, hunks) {
                Err(error) => Err(error),
                Ok((content, added, removed)) => Ok(
                    PlannedChangeView {
                        target: probe.resolved->Ok_0.display@,
                        relative: change.path,
                        kind: PatchChangeKind::Updated,
                        content: Some(content),
                        original: Some(original),
                        added_lines: added,
                        removed_lines: removed,
                    },
                ),
            },
        },
    }
}

fn plan_change(root: &Location, change: &ParsedChange, probe: &TargetProbe) -> (r: Result<
    PlannedChange,
    PatchError,
>)
    requires
        change.is_countable(),
    ensures
        match planned(*root, change@, *probe) {
            Ok(plan) => r is Ok && r->Ok_0@ == plan,
            Err(error) => r is Err && r->Err_0@ == error,
        },
{
    match &change.kind {
        ParsedChangeKind::Add { lines } => {
            let directory = match resolved(probe) {
                Ok(directory) => directory,
                Err(error) => return Err(error),
            };
            match check_working_directory(root, directory) {
                Ok(()) => {},
                Err(error) => return Err(error),
            }
            match added_file(directory, change.path.as_str()) {
                Some(target) => plan_add(
                    change.path.as_str(),
                    lines,
                    target.as_str(),
                    probe.taken,
                ),
                None => Err(PatchError::InvalidPath(change.path.clone())),
            }
        },
        ParsedChangeKind::Delete => match read_existing(root, probe) {
            Ok((target, original)) => Ok(
                plan_delete(change.path.as_str(), target.as_str(), original),
            ),
            Err(error) => Err(error),
        },
        ParsedChangeKind::Update { hunks } => match read_existing(root, probe) {
            Ok((target, original)) => plan_update(
                change.path.as_str(),
                hunks,
                target.as_str(),
                original,
            ),
            Err(error) => Err(error),
        },
    }
}

/// The plans of the first `n` sections, or why there is none for the first section that has
/// none.
pub open spec fn plans_of(
    root: Location,
    changes: Seq<ParsedChangeView>,
    probes: Seq<TargetProbe>,
    n: int,
) -> Result<Seq<PlannedChangeView>, PatchErrorView>
    decreases n,
{
    if n <= 0 {
        Ok(seq![])
    } else {
        match plans_of(root, changes, probes, n - 1) {
            Err(error) => Err(error),
            Ok(before) => match planned(root, changes[n - 1], probes[n - 1]) {
                Err(error) => Err(error),
                Ok(plan) => Ok(before.push(plan)),
            },
        }
    }
}

proof fn lemma_first_problem_stays(
    root: Location,
    changes: Seq<ParsedChangeView>,
    probes: Seq<TargetProbe>,
    m: int,
    n: int,
)
    requires
        m <= n,
        plans_of(root, changes, probes, m) is Err,
    ensures
        plans_of(root, changes, probes, n) == plans_of(root, changes, probes, m),
    decreases n - m,
{
    if m < n {
        lemma_first_problem_stays(root, changes, probes, m, n - 1);
    }
}

/// Plans every section of a patch; one that cannot be planned stops all of it.
pub fn build_plans(
    root: &Location,
    changes: &Vec<ParsedChange>,
    probes: &Vec<TargetProbe>,
) -> (r: Result<Vec<PlannedChange>, PatchError>)
    requires
        probes@.len() == changes@.len(),
        countable(changes@),
    ensures
        match plans_of(*root, changes_view(changes@), probes@, changes@.len() as int) {
            Ok(plans) => r is Ok && plans_view(r->Ok_0@) == plans,
            Err(error) => r is Err && r->Err_0@ == error,
        },
{
    let n: usize = changes.len();
    let mut plans: Vec<PlannedChange> = Vec::new();
    let mut i: usize = 0;
    assert(plans_view(plans@) =~= seq![]);
    while i < n
        invariant
            n == changes@.len(),
            probes@.len() == n,
            countable(changes@),
            i <= n,
            plans_of(*root, changes_view(changes@), probes@, i as int) == Ok::<
                Seq<PlannedChangeView>,
                PatchErrorView,
            >(plans_view(plans@)),
        decreases n - i,
    {
        assert(changes_view(changes@)[i as int] == changes@[i as int]@);
        assert(changes@[i as int].is_countable());
        match plan_change(root, &changes[i], &probes[i]) {
            Ok(plan) => {
                let ghost before = plans@;
                plans.push(plan);
                assert(plans_view(plans@) =~= plans_view(before).push(plan@));
            },
            Err(error) => {
                proof {
                    lemma_first_problem_stays(
                        *root,
                        changes_view(changes@),
                        probes@,
                        i + 1,
                        n as int,
                    );
                }
                return Err(error);
            },
        }
        i += 1;
    }
    Ok(plans)
}

/// A patch that can be planned touches nothing outside the workspace: every file that it changes
/// or removes, and every directory that it adds a file to, resolves to a place in it.
pub proof fn lemma_plans_stay_in_the_workspace(
    root: Location,
    changes: Seq<ParsedChangeView>,
    probes: Seq<TargetProbe>,
    n: int,
    k: int,
)
    requires
        0 <= k < n,
        plans_of(root, changes, probes, n) is Ok,
    ensures
        probes[k].resolved is Ok,
        probes[k].resolved->Ok_0.within(root),
        plans_of(root, changes, probes, n)->Ok_0.len() == n,
        ({
            let plan = plans_of(root, changes, probes, n)->Ok_0[k];
            let place = probes[k].resolved->Ok_0;
            match changes[k].kind {
                ParsedChangeKindView::Add { .. } => Some(plan.target) == added_target(
                    place,
                    changes[k].path,
                ) && !probes[k].taken,
                _ => plan.target == place.display@,
            }
        }),
{
    lemma_plan_of(root, changes, probes, n, k);
}

proof fn lemma_plan_count(
    root: Location,
    changes: Seq<ParsedChangeView>,
    probes: Seq<TargetProbe>,
    n: int,
)
    requires
        0 <= n,
        plans_of(root, changes, probes, n) is Ok,
    ensures
        plans_of(root, changes, probes, n)->Ok_0.len() == n,
    decreases n,
{
    if n > 0 {
        lemma_plan_count(root, changes, probes, n - 1);
    }
}

/// The probes say what the files are.
pub open spec fn probes_tell(
    files: Files,
    changes: Seq<ParsedChangeView>,
    probes: Seq<TargetProbe>,
) -> bool {
    forall|k: int|
        0 <= k < changes.len() && (#[trigger] probes[k]).resolved is Ok ==> probe_tells(
            files,
            changes[k],
            probes[k],
        )
}

pub open spec fn probe_tells(files: Files, change: ParsedChangeView, probe: TargetProbe) -> bool {
    let place = probe.resolved->Ok_0;
    match change.kind {
        ParsedChangeKindView::Add { .. } => match added_target(place, change.path) {
            Some(target) => probe.taken == file_at(files, target) is Some,
            None => true,
        },
        _ => match probe.content {
            Ok(bytes) => file_at(files, place.display@) == Some(bytes@),
            Err(_) => true,
        },
    }
}

/// A patch that fails half-way changes nothing: when some of its plans have been carried out and
/// the steps that undo them have followed, every file is as it was.
pub proof fn lemma_failed_patch_changes_nothing(
    files: Files,
    root: Location,
    changes: Seq<ParsedChangeView>,
    probes: Seq<TargetProbe>,
    done: int,
    steps: Seq<RestoreStep>,
)
    requires
        plans_of(root, changes, probes, changes.len() as int) is Ok,
        probes_tell(files, changes, probes),
        0 <= done <= changes.len(),
        undoes(steps, plans_of(root, changes, probes, changes.len() as int)->Ok_0.take(done)),
    ensures
        ({
            let plans = plans_of(root, changes, probes, changes.len() as int)->Ok_0.take(done);
            after_steps(after_plans(files, plans), steps) == files
        }),
{
    let n = changes.len() as int;
    let all = plans_of(root, changes, probes, n)->Ok_0;
    lemma_plan_count(root, changes, probes, n);
    let plans = all.take(done);
    assert forall|k: int| 0 <= k < plans.len() implies (#[trigger] plans[k]).original == file_at(
        files,
        plans[k].target,
    ) by {
        lemma_plan_of(root, changes, probes, n, k);
        assert(probes[k].resolved is Ok);
        assert(probe_tells(files, changes[k], probes[k]));
    }
    lemma_rollback_restores_every_file(files, plans, steps);
}

pub proof fn lemma_plan_of(
    root: Location,
    changes: Seq<ParsedChangeView>,
    probes: Seq<TargetProbe>,
    n: int,
    k: int,
)
    requires
        0 <= k < n,
        plans_of(root, changes, probes, n) is Ok,
    ensures
        planned(root, changes[k], probes[k]) is Ok,
        plans_of(root, changes, probes, n)->Ok_0.len() == n,
        plans_of(root, changes, probes, n)->Ok_0[k] == planned(root, changes[k], probes[k])->Ok_0,
    decreases n,
{
    lemma_plan_count(root, changes, probes, n - 1);
    if k < n - 1 {
        lemma_plan_of(root, changes, probes, n - 1, k);
    }
}

} // verus!

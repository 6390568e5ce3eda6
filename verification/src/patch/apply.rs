//! From parsed changes to planned writes, and the transaction that carries them out.
use vstd::prelude::*;
use vstd::utf8::encode_utf8;

use crate::grants::ActionGrant;
use crate::patch::error::{PatchError, PatchErrorView};
use crate::patch::hunks::{apply_hunks, patched_bytes, render_lines, rendered};
use crate::patch::parse::{hunk_line_count, hunks_view, PatchLine};
use crate::paths::Location;
use crate::text::{
    lines, lines_of, lossy_text, texts, to_bytes, utf8_lossy,
};

verus! {

pub const MAX_FILE_BYTES: u64 = 8 * 1024 * 1024;

// ---------------------------------------------------------------------------
// Authority
// ---------------------------------------------------------------------------
/// What keeps a grant from patching files.
pub open spec fn refusal(grant: ActionGrant) -> Option<PatchErrorView> {
    if let Some(error) = grant.problem() {
        Some(PatchErrorView::InvalidGrant(error))
    } else if !grant.workspace.reads() {
        Some(PatchErrorView::ReadNotGranted)
    } else if !grant.allow_write {
        Some(PatchErrorView::WriteNotGranted)
    } else {
        None
    }
}

/// Patching needs an approved grant with read and write authority.
pub fn authorize(grant: &ActionGrant) -> (r: Result<(), PatchError>)
    ensures
        r is Ok == (refusal(*grant) is None),
        r is Err ==> refusal(*grant) == Some(r->Err_0@),
{
    match grant.validate() {
        Ok(()) => {},
        Err(error) => return Err(PatchError::InvalidGrant(error)),
    }
    if !grant.workspace.allows_legacy_read() {
        return Err(PatchError::ReadNotGranted);
    }
    if !grant.allow_write {
        return Err(PatchError::WriteNotGranted);
    }
    Ok(())
}

/// The working directory has to lie in the workspace.
pub fn check_working_directory(root: &Location, working_directory: &Location) -> (r: Result<
    (),
    PatchError,
>)
    ensures
        r is Ok == working_directory.within(*root),
        r is Err ==> r->Err_0@ == (PatchErrorView::OutsideWorkspace {
            path: working_directory.display@,
            root: root.display@,
        }),
{
    if working_directory.is_within(root) {
        Ok(())
    } else {
        Err(
            PatchError::OutsideWorkspace {
                path: working_directory.display.clone(),
                root: root.display.clone(),
            },
        )
    }
}

/// A target that has to exist is a file in the workspace.
pub fn check_existing_target(root: &Location, target: &Location, is_file: bool) -> (r: Result<
    (),
    PatchError,
>)
    ensures
        r is Ok == (target.within(*root) && is_file),
        r is Err ==> r->Err_0@ == (PatchErrorView::OutsideWorkspace {
            path: target.display@,
            root: root.display@,
        }),
{
    if target.is_within(root) && is_file {
        Ok(())
    } else {
        Err(
            PatchError::OutsideWorkspace {
                path: target.display.clone(),
                root: root.display.clone(),
            },
        )
    }
}

/// A file that is read for a change is not larger than [`MAX_FILE_BYTES`].
pub fn check_length(path: &str, length: u64) -> (r: Result<(), PatchError>)
    ensures
        r is Ok == (length <= MAX_FILE_BYTES),
        r is Err ==> r->Err_0@ == (PatchErrorView::FileTooLarge {
            path: path@,
            maximum: MAX_FILE_BYTES as nat,
        }),
{
    if length > MAX_FILE_BYTES {
        Err(PatchError::FileTooLarge { path: path.to_owned(), maximum: MAX_FILE_BYTES })
    } else {
        Ok(())
    }
}

// ---------------------------------------------------------------------------
// Plans
// ---------------------------------------------------------------------------
#[derive(Clone, Copy, Debug, PartialEq, Eq, Structural)]
pub enum PatchChangeKind {
    Added,
    Updated,
    Deleted,
}

/// One write or removal, with what it takes to undo it.
#[derive(Clone, Debug)]
pub struct PlannedChange {
    pub target: String,
    pub relative: String,
    pub kind: PatchChangeKind,
    pub content: Option<Vec<u8>>,
    pub original: Option<Vec<u8>>,
    pub added_lines: usize,
    pub removed_lines: usize,
}

pub struct PlannedChangeView {
    pub target: Seq<char>,
    pub relative: Seq<char>,
    pub kind: PatchChangeKind,
    pub content: Option<Seq<u8>>,
    pub original: Option<Seq<u8>>,
    pub added_lines: nat,
    pub removed_lines: nat,
}

/// The bytes of a file, when there is one.
pub open spec fn bytes_of(bytes: Option<Vec<u8>>) -> Option<Seq<u8>> {
    match bytes {
        Some(bytes) => Some(bytes@),
        None => None,
    }
}

impl View for PlannedChange {
    type V = PlannedChangeView;

    open spec fn view(&self) -> PlannedChangeView {
        PlannedChangeView {
            target: self.target@,
            relative: self.relative@,
            kind: self.kind,
            content: bytes_of(self.content),
            original: bytes_of(self.original),
            added_lines: self.added_lines as nat,
            removed_lines: self.removed_lines as nat,
        }
    }
}

pub open spec fn plans_view(plans: Seq<PlannedChange>) -> Seq<PlannedChangeView> {
    plans.map_values(|plan: PlannedChange| plan@)
}

/// Plans a new file; an existing one is never replaced.
pub fn plan_add(relative: &str, lines: &Vec<String>, target: &str, exists: bool) -> (r: Result<
    PlannedChange,
    PatchError,
>)
    ensures
        match r {
            Ok(plan) => !exists && plan@ == (PlannedChangeView {
                target: target@,
                relative: relative@,
                kind: PatchChangeKind::Added,
                content: Some(encode_utf8(rendered(texts(lines@), "\n"@, true))),
                original: None,
                added_lines: lines@.len(),
                removed_lines: 0,
            }),
            Err(error) => exists && error@ == PatchErrorView::AlreadyExists(relative@),
        },
{
    if exists {
        return Err(PatchError::AlreadyExists(relative.to_owned()));
    }
    let text = render_lines(lines, "\n", true);
    Ok(
        PlannedChange {
            target: target.to_owned(),
            relative: relative.to_owned(),
            kind: PatchChangeKind::Added,
            content: Some(to_bytes(text.as_str())),
            original: None,
            added_lines: lines.len(),
            removed_lines: 0,
        },
    )
}

/// How many lines the bytes show as text.
pub fn count_lines(bytes: &Vec<u8>) -> (r: usize)
    ensures
        r == lines_of(lossy_text(bytes@)).len(),
{
    let text = utf8_lossy(bytes);
    let all = lines(text.as_str());
    assert(texts(all@).len() == all@.len());
    all.len()
}

/// Plans the removal of a file.
pub fn plan_delete(relative: &str, target: &str, original: Vec<u8>) -> (r: PlannedChange)
    ensures
        r@ == (PlannedChangeView {
            target: target@,
            relative: relative@,
            kind: PatchChangeKind::Deleted,
            content: None,
            original: Some(original@),
            added_lines: 0,
            removed_lines: lines_of(lossy_text(original@)).len(),
        }),
{
    let removed_lines: usize = count_lines(&original);
    PlannedChange {
        target: target.to_owned(),
        relative: relative.to_owned(),
        kind: PatchChangeKind::Deleted,
        content: None,
        original: Some(original),
        added_lines: 0,
        removed_lines,
    }
}

/// Plans the update of a file.
pub fn plan_update(
    relative: &str,
    hunks: &Vec<Vec<PatchLine>>,
    target: &str,
    original: Vec<u8>,
) -> (r: Result<PlannedChange, PatchError>)
    requires
        hunk_line_count(hunks@) <= usize::MAX,
    ensures
        match patched_bytes(original@, hunks_view(hunks@)) {
            Ok((content, added, removed)) => r is Ok && r->Ok_0@ == (PlannedChangeView {
                target: target@,
                relative: relative@,
                kind: PatchChangeKind::Updated,
                content: Some(content),
                original: Some(original@),
                added_lines: added,
                removed_lines: removed,
            }),
            Err(error) => r is Err && r->Err_0@ == error,
        },
{
    match apply_hunks(&original, hunks) {
        Ok((content, added_lines, removed_lines)) => Ok(
            PlannedChange {
                target: target.to_owned(),
                relative: relative.to_owned(),
                kind: PatchChangeKind::Updated,
                content: Some(content),
                original: Some(original),
                added_lines,
                removed_lines,
            },
        ),
        Err(error) => Err(error),
    }
}

// ---------------------------------------------------------------------------
// The transaction
// ---------------------------------------------------------------------------
#[derive(Clone, Debug)]
pub struct PatchFileChange {
    pub path: String,
    pub kind: PatchChangeKind,
    pub added_lines: usize,
    pub removed_lines: usize,
}

#[derive(Clone, Debug)]
pub struct PatchApplyResult {
    pub changes: Vec<PatchFileChange>,
}

/// The report line of one plan.
pub open spec fn reports(change: PatchFileChange, plan: PlannedChangeView) -> bool {
    &&& change.path@ == plan.relative
    &&& change.kind == plan.kind
    &&& change.added_lines == plan.added_lines
    &&& change.removed_lines == plan.removed_lines
}

/// Puts a target back: the bytes it had, or no file at all.
#[derive(Clone, Debug)]
pub struct RestoreStep {
    pub target: String,
    pub content: Option<Vec<u8>>,
}

pub open spec fn restores(step: RestoreStep, plan: PlannedChangeView) -> bool {
    step.target@ == plan.target && bytes_of(step.content) == plan.original
}

/// The steps put back exactly the given plans, the last one first.
pub open spec fn undoes(steps: Seq<RestoreStep>, plans: Seq<PlannedChangeView>) -> bool {
    &&& steps.len() == plans.len()
    &&& forall|k: int|
        0 <= k < steps.len() ==> restores(#[trigger] steps[k], plans[plans.len() - 1 - k])
}

/// What follows an attempt to carry out a plan.
#[derive(Clone, Debug)]
pub enum TransactionStep {
    /// Carry out the plan with this index.
    Apply(usize),
    /// Put everything back and report the error.
    Undo { steps: Vec<RestoreStep>, error: PatchError },
    /// Every plan has been carried out.
    Done(PatchApplyResult),
}

fn copy_bytes(bytes: &Option<Vec<u8>>) -> (r: Option<Vec<u8>>)
    ensures
        bytes_of(r) == bytes_of(*bytes),
{
    match bytes {
        Some(bytes) => Some(bytes.clone()),
        None => None,
    }
}

/// What puts the first `applied` plans back, the last one first.
pub fn rollback(plans: &Vec<PlannedChange>, applied: usize) -> (r: Vec<RestoreStep>)
    requires
        applied <= plans@.len(),
    ensures
        undoes(r@, plans_view(plans@).take(applied as int)),
{
    let mut steps: Vec<RestoreStep> = Vec::new();
    let mut left: usize = applied;
    while left > 0
        invariant
            left <= applied <= plans@.len(),
            steps@.len() == applied - left,
            forall|k: int|
                0 <= k < steps@.len() ==> restores(
                    #[trigger] steps@[k],
                    plans_view(plans@)[applied - 1 - k],
                ),
        decreases left,
    {
        left -= 1;
        let plan = &plans[left];
        steps.push(
            RestoreStep { target: plan.target.clone(), content: copy_bytes(&plan.original) },
        );
        assert(plans_view(plans@)[left as int] == plan@);
    }
    steps
}

fn summary(plans: &Vec<PlannedChange>) -> (r: PatchApplyResult)
    ensures
        r.changes@.len() == plans@.len(),
        forall|k: int|
            0 <= k < plans@.len() ==> reports(#[trigger] r.changes@[k], plans_view(plans@)[k]),
{
    let mut changes: Vec<PatchFileChange> = Vec::new();
    let mut i: usize = 0;
    while i < plans.len()
        invariant
            i <= plans@.len(),
            changes@.len() == i,
            forall|k: int|
                0 <= k < i ==> reports(#[trigger] changes@[k], plans_view(plans@)[k]),
        decreases plans@.len() - i,
    {
        let plan = &plans[i];
        changes.push(
            PatchFileChange {
                path: plan.relative.clone(),
                kind: plan.kind,
                added_lines: plan.added_lines,
                removed_lines: plan.removed_lines,
            },
        );
        assert(plans_view(plans@)[i as int] == plan@);
        i += 1;
    }
    PatchApplyResult { changes }
}

/// What follows once the first `applied` plans have been carried out.
pub fn next_step(plans: &Vec<PlannedChange>, applied: usize) -> (r: TransactionStep)
    requires
        applied <= plans@.len(),
    ensures
        match r {
            TransactionStep::Apply(index) => index == applied && applied < plans@.len(),
            TransactionStep::Undo { .. } => false,
            TransactionStep::Done(result) => applied == plans@.len() && result.changes@.len()
                == plans@.len() && forall|k: int|
                0 <= k < plans@.len() ==> reports(
                    #[trigger] result.changes@[k],
                    plans_view(plans@)[k],
                ),
        },
{
    if applied < plans.len() {
        TransactionStep::Apply(applied)
    } else {
        TransactionStep::Done(summary(plans))
    }
}

/// What follows an attempt to carry out the plan with index `index`: the next plan, or the way
/// back to the state before the first one.
pub fn after_attempt(plans: &Vec<PlannedChange>, index: usize, outcome: Result<(), String>) -> (r:
    TransactionStep)
    requires
        index < plans@.len(),
    ensures
        match outcome {
            Ok(_) => match r {
                TransactionStep::Apply(next) => next == index + 1 && index + 1 < plans@.len(),
                TransactionStep::Undo { .. } => false,
                TransactionStep::Done(result) => index + 1 == plans@.len() && result.changes@.len()
                    == plans@.len() && forall|k: int|
                    0 <= k < plans@.len() ==> reports(
                        #[trigger] result.changes@[k],
                        plans_view(plans@)[k],
                    ),
            },
            Err(message) => match r {
                TransactionStep::Undo { steps, error } => undoes(
                    steps@,
                    plans_view(plans@).take(index as int),
                ) && error@ == PatchErrorView::Transaction(message@),
                _ => false,
            },
        },
{
    let total: usize = plans.len();
    assert(index < total);
    match outcome {
        Ok(()) => next_step(plans, index + 1),
        Err(message) => TransactionStep::Undo {
            steps: rollback(plans, index),
            error: PatchError::Transaction(message),
        },
    }
}

// ---------------------------------------------------------------------------
// All or nothing
// ---------------------------------------------------------------------------
/// The files of a workspace.
pub type Files = Map<Seq<char>, Seq<u8>>;

/// The file at `target`, when there is one.
pub open spec fn file_at(files: Files, target: Seq<char>) -> Option<Seq<u8>> {
    if files.dom().contains(target) {
        Some(files[target])
    } else {
        None
    }
}

/// The files once `target` holds `content`.
pub open spec fn with_file(files: Files, target: Seq<char>, content: Option<Seq<u8>>) -> Files {
    match content {
        Some(bytes) => files.insert(target, bytes),
        None => files.remove(target),
    }
}

/// The files after the plans have been carried out in order.
pub open spec fn after_plans(files: Files, plans: Seq<PlannedChangeView>) -> Files
    decreases plans.len(),
{
    if plans.len() == 0 {
        files
    } else {
        with_file(
            after_plans(files, plans.drop_last()),
            plans.last().target,
            plans.last().content,
        )
    }
}

/// The files after the steps have been carried out in order.
pub open spec fn after_steps(files: Files, steps: Seq<RestoreStep>) -> Files
    decreases steps.len(),
{
    if steps.len() == 0 {
        files
    } else {
        after_steps(
            with_file(files, steps[0].target@, bytes_of(steps[0].content)),
            steps.drop_first(),
        )
    }
}

/// Each plan holds what its target held before any of them was carried out.
pub open spec fn plans_match(files: Files, plans: Seq<PlannedChangeView>) -> bool {
    forall|k: int|
        0 <= k < plans.len() ==> (#[trigger] plans[k]).original == file_at(files, plans[k].target)
}

/// One of the plans is about this file.
pub open spec fn is_target(plans: Seq<PlannedChangeView>, target: Seq<char>) -> bool {
    exists|k: int| 0 <= k < plans.len() && (#[trigger] plans[k]).target == target
}

proof fn lemma_plans_leave_the_rest(files: Files, plans: Seq<PlannedChangeView>, other: Seq<char>)
    requires
        !is_target(plans, other),
    ensures
        file_at(after_plans(files, plans), other) == file_at(files, other),
    decreases plans.len(),
{
    if plans.len() > 0 {
        let earlier = plans.drop_last();
        assert(plans[plans.len() - 1].target != other);
        assert forall|k: int| 0 <= k < earlier.len() implies (#[trigger] earlier[k]).target
            != other by {
            assert(plans[k].target != other);
        }
        lemma_plans_leave_the_rest(files, earlier, other);
    }
}

proof fn lemma_steps_put_back(
    files: Files,
    plans: Seq<PlannedChangeView>,
    steps: Seq<RestoreStep>,
    now: Files,
    target: Seq<char>,
)
    requires
        plans_match(files, plans),
        undoes(steps, plans),
    ensures
        file_at(after_steps(now, steps), target) == if is_target(plans, target) {
            file_at(files, target)
        } else {
            file_at(now, target)
        },
    decreases plans.len(),
{
    if plans.len() > 0 {
        let last = plans.last();
        let earlier = plans.drop_last();
        let rest = steps.drop_first();
        let next = with_file(now, steps[0].target@, bytes_of(steps[0].content));
        assert(restores(steps[0], plans[plans.len() - 1]));
        assert(last.original == file_at(files, last.target));
        assert forall|k: int| 0 <= k < rest.len() implies restores(
            #[trigger] rest[k],
            earlier[earlier.len() - 1 - k],
        ) by {
            assert(restores(steps[k + 1], plans[plans.len() - 1 - (k + 1)]));
        }
        assert forall|k: int| 0 <= k < earlier.len() implies (#[trigger] earlier[k]).original
            == file_at(files, earlier[k].target) by {
            assert(earlier[k] == plans[k]);
        }
        lemma_steps_put_back(files, earlier, rest, next, target);
        if is_target(earlier, target) {
            let k = choose|k: int|
                0 <= k < earlier.len() && (#[trigger] earlier[k]).target == target;
            assert(plans[k].target == target);
        } else if last.target == target {
            assert(plans[plans.len() - 1].target == target);
        } else {
            assert forall|k: int| 0 <= k < plans.len() implies (#[trigger] plans[k]).target
                != target by {
                if k < earlier.len() {
                    assert(earlier[k].target != target);
                }
            }
        }
    } else {
        assert(!is_target(plans, target));
    }
}

/// Carrying out any number of plans, and then the steps that undo them, leaves every file as it
/// was.
pub proof fn lemma_rollback_restores_every_file(
    files: Files,
    plans: Seq<PlannedChangeView>,
    steps: Seq<RestoreStep>,
)
    requires
        plans_match(files, plans),
        undoes(steps, plans),
    ensures
        after_steps(after_plans(files, plans), steps) == files,
{
    let changed = after_plans(files, plans);
    let restored = after_steps(changed, steps);
    assert forall|target: Seq<char>| #[trigger] file_at(restored, target) == file_at(
        files,
        target,
    ) by {
        lemma_steps_put_back(files, plans, steps, changed, target);
        if !is_target(plans, target) {
            lemma_plans_leave_the_rest(files, plans, target);
        }
    }
    assert forall|target: Seq<char>| #[trigger] restored.dom().contains(target)
        == files.dom().contains(target) by {
        assert(file_at(restored, target) == file_at(files, target));
    }
    assert forall|target: Seq<char>| files.dom().contains(target) implies #[trigger] restored[target]
        == files[target] by {
        assert(file_at(restored, target) == file_at(files, target));
    }
    assert(restored =~= files);
}

} // verus!

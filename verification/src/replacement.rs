//! Replacing a file so that an interruption loses nothing.
//!
//! The new content is written to a temporary file beside the target. The old file is moved to a
//! backup before the new one is moved into its place, so that at every moment the target, or
//! the backup where there is no target, holds a whole file. Whoever reads the file looks at the
//! target first and at the backup where there is none.
use vstd::prelude::*;

verus! {

/// One of the three files that a replacement touches.
#[derive(Clone, Copy, Debug, PartialEq, Eq, Structural)]
pub enum Place {
    Target,
    Backup,
    Temporary,
}

/// What is being replaced: a document that may not be there yet, or a manifest that was written
/// before and may have to be fetched from its backup first.
#[derive(Clone, Copy, Debug, PartialEq, Eq, Structural)]
pub enum FileKind {
    Document,
    Manifest,
}

/// What is to be done next.
#[derive(Clone, Copy, Debug, PartialEq, Eq, Structural)]
pub enum FileStep {
    /// Write the new content to the temporary file, which must not be there yet; leave nothing
    /// behind where that fails.
    WriteTemporary,
    Move { from: Place, to: Place },
    Remove(Place),
}

/// How far a replacement has come.
#[derive(Clone, Copy, Debug, PartialEq, Eq, Structural)]
pub enum Stage {
    Write,
    Recover,
    ClearBackup,
    KeepOld,
    Install,
    Restore,
    Discard,
    DropBackup,
    Finished,
}

/// What is done at a stage.
pub open spec fn step_at(stage: Stage) -> Option<FileStep> {
    match stage {
        Stage::Write => Some(FileStep::WriteTemporary),
        Stage::Recover => Some(FileStep::Move { from: Place::Backup, to: Place::Target }),
        Stage::ClearBackup => Some(FileStep::Remove(Place::Backup)),
        Stage::KeepOld => Some(FileStep::Move { from: Place::Target, to: Place::Backup }),
        Stage::Install => Some(FileStep::Move { from: Place::Temporary, to: Place::Target }),
        Stage::Restore => Some(FileStep::Move { from: Place::Backup, to: Place::Target }),
        Stage::Discard => Some(FileStep::Remove(Place::Temporary)),
        Stage::DropBackup => Some(FileStep::Remove(Place::Backup)),
        Stage::Finished => None,
    }
}

/// The file that is blamed when a stage fails. The stages that only tidy up cannot fail.
pub open spec fn blamed(stage: Stage) -> Option<Place> {
    match stage {
        Stage::Write => Some(Place::Temporary),
        Stage::ClearBackup => Some(Place::Backup),
        Stage::Recover | Stage::KeepOld | Stage::Install => Some(Place::Target),
        _ => None,
    }
}

/// The stage before the old file is moved away: a backup that is in the way goes first.
pub open spec fn before_keeping(backup_exists: bool) -> Stage {
    if backup_exists {
        Stage::ClearBackup
    } else {
        Stage::KeepOld
    }
}

/// The stage that follows, given whether the step succeeded and which files there are now.
pub open spec fn stage_after(
    kind: FileKind,
    stage: Stage,
    done: bool,
    target_exists: bool,
    backup_exists: bool,
) -> Stage {
    match stage {
        Stage::Write => if !done {
            Stage::Finished
        } else if kind is Manifest && !target_exists && backup_exists {
            Stage::Recover
        } else if kind is Document && !target_exists {
            Stage::Install
        } else {
            before_keeping(backup_exists)
        },
        Stage::Recover => if done {
            before_keeping(backup_exists)
        } else {
            Stage::Discard
        },
        Stage::ClearBackup => if done {
            Stage::KeepOld
        } else {
            Stage::Finished
        },
        Stage::KeepOld => if done {
            Stage::Install
        } else if kind is Manifest {
            Stage::Discard
        } else {
            Stage::Finished
        },
        Stage::Install => {
            let backup_matters = kind is Manifest || backup_exists;
            if done && backup_matters {
                Stage::DropBackup
            } else if done {
                Stage::Finished
            } else if backup_matters {
                Stage::Restore
            } else {
                Stage::Discard
            }
        },
        Stage::Restore => Stage::Discard,
        Stage::Discard | Stage::DropBackup | Stage::Finished => Stage::Finished,
    }
}

/// A replacement under way.
#[derive(Clone, Debug)]
pub struct ReplaceRun {
    kind: FileKind,
    stage: Stage,
    failure: Option<(Place, String)>,
}

impl ReplaceRun {
    pub closed spec fn spec_kind(self) -> FileKind {
        self.kind
    }

    pub closed spec fn at(self) -> Stage {
        self.stage
    }

    /// The file that could not be dealt with, and why.
    pub closed spec fn problem(self) -> Option<(Place, Seq<char>)> {
        match self.failure {
            Some((place, message)) => Some((place, message@)),
            None => None,
        }
    }

    pub fn new(kind: FileKind) -> (r: Self)
        ensures
            r.spec_kind() == kind,
            r.at() is Write,
            r.problem() is None,
    {
        ReplaceRun { kind, stage: Stage::Write, failure: None }
    }

    /// What is to be done next; nothing, once the replacement is over.
    pub fn pending(&self) -> (r: Option<FileStep>)
        ensures
            r == step_at(self.at()),
    {
        match self.stage {
            Stage::Write => Some(FileStep::WriteTemporary),
            Stage::Recover | Stage::Restore => Some(
                FileStep::Move { from: Place::Backup, to: Place::Target },
            ),
            Stage::ClearBackup | Stage::DropBackup => Some(FileStep::Remove(Place::Backup)),
            Stage::KeepOld => Some(FileStep::Move { from: Place::Target, to: Place::Backup }),
            Stage::Install => Some(FileStep::Move { from: Place::Temporary, to: Place::Target }),
            Stage::Discard => Some(FileStep::Remove(Place::Temporary)),
            Stage::Finished => None,
        }
    }

    /// Takes note of what came of the pending step, and of which files there are after it.
    pub fn settle(
        &mut self,
        outcome: Result<(), String>,
        target_exists: bool,
        backup_exists: bool,
    )
        ensures
            final(self).spec_kind() == old(self).spec_kind(),
            final(self).at() == stage_after(
                old(self).spec_kind(),
                old(self).at(),
                outcome is Ok,
                target_exists,
                backup_exists,
            ),
            final(self).problem() == match outcome {
                Err(message) => match blamed(old(self).at()) {
                    Some(place) => Some((place, message@)),
                    None => old(self).problem(),
                },
                Ok(_) => old(self).problem(),
            },
    {
        let done = outcome.is_ok();
        let blame: Option<Place> = match self.stage {
            Stage::Write => Some(Place::Temporary),
            Stage::ClearBackup => Some(Place::Backup),
            Stage::Recover | Stage::KeepOld | Stage::Install => Some(Place::Target),
            _ => None,
        };
        if let Err(message) = outcome {
            if let Some(place) = blame {
                self.failure = Some((place, message));
            }
        }
        let manifest = match self.kind {
            FileKind::Manifest => true,
            FileKind::Document => false,
        };
        let keeping = if backup_exists {
            Stage::ClearBackup
        } else {
            Stage::KeepOld
        };
        self.stage = match self.stage {
            Stage::Write => {
                if !done {
                    Stage::Finished
                } else if manifest && !target_exists && backup_exists {
                    Stage::Recover
                } else if !manifest && !target_exists {
                    Stage::Install
                } else {
                    keeping
                }
            },
            Stage::Recover => {
                if done {
                    keeping
                } else {
                    Stage::Discard
                }
            },
            Stage::ClearBackup => {
                if done {
                    Stage::KeepOld
                } else {
                    Stage::Finished
                }
            },
            Stage::KeepOld => {
                if done {
                    Stage::Install
                } else if manifest {
                    Stage::Discard
                } else {
                    Stage::Finished
                }
            },
            Stage::Install => {
                let backup_matters = manifest || backup_exists;
                if done && backup_matters {
                    Stage::DropBackup
                } else if done {
                    Stage::Finished
                } else if backup_matters {
                    Stage::Restore
                } else {
                    Stage::Discard
                }
            },
            Stage::Restore => Stage::Discard,
            Stage::Discard | Stage::DropBackup | Stage::Finished => Stage::Finished,
        };
    }

    /// How the replacement ended: well, or with the file that could not be dealt with.
    pub fn finish(self) -> (r: Result<(), (Place, String)>)
        requires
            self.at() is Finished,
        ensures
            match self.problem() {
                None => r is Ok,
                Some(problem) => r is Err && (r->Err_0).0 == problem.0 && (r->Err_0).1@
                    == problem.1,
            },
    {
        match self.failure {
            None => Ok(()),
            Some(failure) => Err(failure),
        }
    }
}

// ---------------------------------------------------------------------------
// What becomes of the files
// ---------------------------------------------------------------------------
/// What the three files hold.
pub struct Files {
    pub target: Option<Seq<u8>>,
    pub backup: Option<Seq<u8>>,
    pub temporary: Option<Seq<u8>>,
}

impl Files {
    pub open spec fn at(self, place: Place) -> Option<Seq<u8>> {
        match place {
            Place::Target => self.target,
            Place::Backup => self.backup,
            Place::Temporary => self.temporary,
        }
    }

    pub open spec fn with(self, place: Place, content: Option<Seq<u8>>) -> Files {
        match place {
            Place::Target => Files { target: content, ..self },
            Place::Backup => Files { backup: content, ..self },
            Place::Temporary => Files { temporary: content, ..self },
        }
    }

    /// What a reader finds: the target, or else the backup.
    pub open spec fn readable(self) -> Option<Seq<u8>> {
        if self.target is Some {
            self.target
        } else {
            self.backup
        }
    }
}

/// A step can succeed: what it moves or removes is there, and what it creates is not.
pub open spec fn can_succeed(step: FileStep, files: Files) -> bool {
    match step {
        FileStep::WriteTemporary => files.temporary is None,
        FileStep::Move { from, to } => files.at(from) is Some,
        FileStep::Remove(place) => files.at(place) is Some,
    }
}

/// The files after a step that succeeded.
pub open spec fn files_after(step: FileStep, content: Seq<u8>, files: Files) -> Files {
    match step {
        FileStep::WriteTemporary => files.with(Place::Temporary, Some(content)),
        FileStep::Move { from, to } => files.with(to, files.at(from)).with(from, None),
        FileStep::Remove(place) => files.with(place, None),
    }
}

/// Where a replacement stands after so many steps: the stage, whether something failed, and the
/// files. A step that fails changes nothing; `luck` says which steps succeed, of those that can.
pub open spec fn course(
    kind: FileKind,
    content: Seq<u8>,
    files: Files,
    luck: Seq<bool>,
) -> (Stage, bool, Files)
    decreases luck.len(),
{
    if luck.len() == 0 {
        (Stage::Write, false, files)
    } else {
        let (stage, failed, now) = course(kind, content, files, luck.drop_last());
        match step_at(stage) {
            None => (stage, failed, now),
            Some(step) => {
                let done = luck.last() && can_succeed(step, now);
                let next = if done {
                    files_after(step, content, now)
                } else {
                    now
                };
                (
                    stage_after(kind, stage, done, next.target is Some, next.backup is Some),
                    failed || (!done && blamed(stage) is Some),
                    next,
                )
            },
        }
    }
}

/// What holds of the files at every stage.
pub open spec fn on_course(
    content: Seq<u8>,
    start: Files,
    stage: Stage,
    failed: bool,
    now: Files,
) -> bool {
    match stage {
        Stage::Write => !failed && now == start,
        Stage::Recover => !failed && now.temporary == Some(content) && now.target is None
            && now.backup is Some && now.readable() == start.readable(),
        Stage::ClearBackup => !failed && now.temporary == Some(content) && now.target is Some
            && now.readable() == start.readable(),
        Stage::KeepOld => !failed && now.temporary == Some(content) && now.readable()
            == start.readable() && now.backup is None,
        Stage::Install => !failed && now.temporary == Some(content) && now.target is None
            && now.readable() == start.readable(),
        Stage::Restore => failed && now.target is None && now.readable() == start.readable(),
        Stage::Discard => failed && now.readable() == start.readable(),
        Stage::DropBackup => !failed && now.target == Some(content) && now.temporary is None,
        Stage::Finished => if failed {
            now.readable() == start.readable()
        } else {
            now.target == Some(content) && now.temporary is None
        },
    }
}

proof fn lemma_stays_on_course(kind: FileKind, content: Seq<u8>, files: Files, luck: Seq<bool>)
    requires
        files.temporary is None,
    ensures
        ({
            let (stage, failed, now) = course(kind, content, files, luck);
            on_course(content, files, stage, failed, now)
        }),
    decreases luck.len(),
{
    if luck.len() > 0 {
        lemma_stays_on_course(kind, content, files, luck.drop_last());
    }
}

/// Wherever a replacement is interrupted, a reader finds the old content or the new one.
pub proof fn lemma_interruption_loses_nothing(
    kind: FileKind,
    content: Seq<u8>,
    files: Files,
    luck: Seq<bool>,
)
    requires
        files.temporary is None,
    ensures
        ({
            let now = course(kind, content, files, luck).2;
            now.readable() == files.readable() || now.readable() == Some(content)
        }),
{
    lemma_stays_on_course(kind, content, files, luck);
}

/// A replacement that ends well has put the new content in place and left no temporary file; one
/// that ends badly has left readers what they had.
pub proof fn lemma_replacement_is_all_or_nothing(
    kind: FileKind,
    content: Seq<u8>,
    files: Files,
    luck: Seq<bool>,
)
    requires
        files.temporary is None,
        course(kind, content, files, luck).0 is Finished,
    ensures
        ({
            let (_, failed, now) = course(kind, content, files, luck);
            if failed {
                now.readable() == files.readable()
            } else {
                now.target == Some(content) && now.temporary is None
            }
        }),
{
    lemma_stays_on_course(kind, content, files, luck);
}

/// The most steps that can follow a stage.
pub open spec fn steps_left(stage: Stage) -> nat {
    match stage {
        Stage::Write => 7,
        Stage::Recover => 6,
        Stage::ClearBackup => 5,
        Stage::KeepOld => 4,
        Stage::Install => 3,
        Stage::Restore => 2,
        Stage::Discard => 1,
        Stage::DropBackup => 1,
        Stage::Finished => 0,
    }
}

/// Every replacement ends.
pub proof fn lemma_replacement_ends(
    kind: FileKind,
    content: Seq<u8>,
    files: Files,
    luck: Seq<bool>,
)
    ensures
        luck.len() + steps_left(course(kind, content, files, luck).0) <= 7 || course(
            kind,
            content,
            files,
            luck,
        ).0 is Finished,
        luck.len() >= 7 ==> course(kind, content, files, luck).0 is Finished,
    decreases luck.len(),
{
    if luck.len() > 0 {
        lemma_replacement_ends(kind, content, files, luck.drop_last());
    }
}

} // verus!

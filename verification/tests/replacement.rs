//! Replacing files, on files held in memory.
use std::collections::BTreeMap;

use yunxi::replacement::{FileKind, FileStep, Place, ReplaceRun};

#[derive(Clone, Default)]
struct Disk {
    files: BTreeMap<u8, &'static str>,
}

fn index(place: Place) -> u8 {
    match place {
        Place::Target => 0,
        Place::Backup => 1,
        Place::Temporary => 2,
    }
}

impl Disk {
    fn with(target: Option<&'static str>, backup: Option<&'static str>) -> Disk {
        let mut disk = Disk::default();
        if let Some(content) = target {
            disk.files.insert(0, content);
        }
        if let Some(content) = backup {
            disk.files.insert(1, content);
        }
        disk
    }

    fn at(&self, place: Place) -> Option<&'static str> {
        self.files.get(&index(place)).copied()
    }

    fn readable(&self) -> Option<&'static str> {
        self.at(Place::Target).or(self.at(Place::Backup))
    }

    fn perform(&mut self, step: FileStep) -> Result<(), String> {
        match step {
            FileStep::WriteTemporary => {
                self.files.insert(2, "new");
                Ok(())
            }
            FileStep::Move { from, to } => match self.files.remove(&index(from)) {
                Some(content) => {
                    self.files.insert(index(to), content);
                    Ok(())
                }
                None => Err("missing".to_string()),
            },
            FileStep::Remove(place) => {
                self.files.remove(&index(place)).map(|_| ()).ok_or("missing".to_string())
            }
        }
    }
}

/// Replaces the file; the steps whose numbers are given fail.
fn replace(
    kind: FileKind,
    disk: &mut Disk,
    failing: &[usize],
) -> (Result<(), (Place, String)>, Vec<FileStep>) {
    let old = disk.readable();
    let mut run = ReplaceRun::new(kind);
    let mut steps = Vec::new();
    while let Some(step) = run.pending() {
        let outcome = if failing.contains(&steps.len()) {
            Err("refused".to_string())
        } else {
            disk.perform(step)
        };
        steps.push(step);
        assert!(disk.readable() == old || disk.readable() == Some("new"));
        run.settle(
            outcome,
            disk.at(Place::Target).is_some(),
            disk.at(Place::Backup).is_some(),
        );
    }
    let result = run.finish();
    if result.is_err() {
        assert_eq!(disk.readable(), old);
    } else {
        assert_eq!(disk.at(Place::Target), Some("new"));
        assert_eq!(disk.at(Place::Temporary), None);
    }
    (result, steps)
}

#[test]
fn a_new_document_is_written_and_moved_into_place() {
    let mut disk = Disk::default();
    let (result, steps) = replace(FileKind::Document, &mut disk, &[]);
    assert_eq!(result, Ok(()));
    assert_eq!(
        steps,
        vec![
            FileStep::WriteTemporary,
            FileStep::Move { from: Place::Temporary, to: Place::Target },
        ]
    );
}

#[test]
fn an_old_document_is_kept_until_the_new_one_is_in_place() {
    let mut disk = Disk::with(Some("old"), Some("older"));
    let (result, steps) = replace(FileKind::Document, &mut disk, &[]);
    assert_eq!(result, Ok(()));
    assert_eq!(
        steps,
        vec![
            FileStep::WriteTemporary,
            FileStep::Remove(Place::Backup),
            FileStep::Move { from: Place::Target, to: Place::Backup },
            FileStep::Move { from: Place::Temporary, to: Place::Target },
            FileStep::Remove(Place::Backup),
        ]
    );
    assert_eq!(disk.at(Place::Backup), None);
}

#[test]
fn a_failed_move_puts_the_old_document_back() {
    let mut disk = Disk::with(Some("old"), None);
    let (result, _) = replace(FileKind::Document, &mut disk, &[2]);
    assert_eq!(result, Err((Place::Target, "refused".to_string())));
    assert_eq!(disk.at(Place::Target), Some("old"));
    assert_eq!(disk.at(Place::Temporary), None);
}

#[test]
fn the_file_that_could_not_be_dealt_with_is_named() {
    let mut disk = Disk::with(Some("old"), Some("older"));
    let (result, _) = replace(FileKind::Document, &mut disk, &[0]);
    assert_eq!(result, Err((Place::Temporary, "refused".to_string())));
    let (result, _) = replace(FileKind::Document, &mut disk, &[1]);
    assert_eq!(result, Err((Place::Backup, "refused".to_string())));
}

#[test]
fn a_manifest_is_fetched_from_its_backup_first() {
    let mut disk = Disk::with(None, Some("old"));
    let (result, steps) = replace(FileKind::Manifest, &mut disk, &[]);
    assert_eq!(result, Ok(()));
    assert_eq!(steps[1], FileStep::Move { from: Place::Backup, to: Place::Target });
    let mut missing = Disk::default();
    let (result, _) = replace(FileKind::Manifest, &mut missing, &[]);
    assert_eq!(result, Err((Place::Target, "missing".to_string())));
    assert_eq!(missing.at(Place::Temporary), None);
}

#[test]
fn no_interruption_or_failure_loses_a_file() {
    let starts = [
        (None, None),
        (Some("old"), None),
        (None, Some("old")),
        (Some("old"), Some("older")),
    ];
    for kind in [FileKind::Document, FileKind::Manifest] {
        for (target, backup) in starts {
            for mask in 0..128_usize {
                let failing: Vec<usize> = (0..7).filter(|bit| mask & (1 << bit) != 0).collect();
                let mut disk = Disk::with(target, backup);
                let (_, steps) = replace(kind, &mut disk, &failing);
                assert!(steps.len() <= 7);
            }
        }
    }
}

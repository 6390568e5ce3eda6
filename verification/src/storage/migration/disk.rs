//! What carrying out and undoing a plan does to the files as a whole.
use vstd::prelude::*;

use crate::fingerprint::fnv1a;
use crate::storage::migration::model::{ItemView, MigrationScope};
use crate::storage::migration::run::{recognizes, settled, undo_action, CopyOutcome};

verus! {

/// Where an item is written to: below the root of its scope.
pub type Place = (MigrationScope, Seq<char>);

/// The files that targets may lie among.
pub type Disk = Map<Place, Seq<u8>>;

pub open spec fn place_of(item: ItemView) -> Place {
    (item.scope, item.target)
}

/// What comes of writing `bytes` for an item: nothing that is there is replaced.
pub open spec fn outcome_on(disk: Disk, item: ItemView, bytes: Seq<u8>) -> CopyOutcome {
    if disk.dom().contains(place_of(item)) {
        CopyOutcome::TargetAppeared
    } else {
        CopyOutcome::Copied {
            target_bytes: bytes.len() as u64,
            target_fingerprint: fnv1a(bytes),
        }
    }
}

/// The files after an item was dealt with.
pub open spec fn disk_after(disk: Disk, item: ItemView, bytes: Seq<u8>) -> Disk {
    if item.state is Ready && !disk.dom().contains(place_of(item)) {
        disk.insert(place_of(item), bytes)
    } else {
        disk
    }
}

/// The files once the first `n` items were dealt with, each with its bytes.
pub open spec fn applied_disk(items: Seq<ItemView>, written: Seq<Seq<u8>>, n: nat, disk: Disk) -> Disk
    decreases n,
{
    if n == 0 {
        disk
    } else {
        disk_after(
            applied_disk(items, written, (n - 1) as nat, disk),
            items[n - 1],
            written[n - 1],
        )
    }
}

/// What the manifest says of the `k`th item once it was dealt with.
pub open spec fn applied_item(items: Seq<ItemView>, written: Seq<Seq<u8>>, k: nat, disk: Disk) -> ItemView {
    settled(
        items[k as int],
        outcome_on(applied_disk(items, written, k, disk), items[k as int], written[k as int]),
    )
}

/// What the manifest says of all items.
pub open spec fn applied_items(items: Seq<ItemView>, written: Seq<Seq<u8>>, disk: Disk) -> Seq<ItemView> {
    Seq::new(items.len(), |k: int| applied_item(items, written, k as nat, disk))
}

/// What is found at the place of an item.
pub open spec fn found_on(disk: Disk, item: ItemView) -> Option<Seq<u8>> {
    if disk.dom().contains(place_of(item)) {
        Some(disk[place_of(item)])
    } else {
        None
    }
}

/// The files once the first `n` items of a manifest were undone.
pub open spec fn undone_disk(items: Seq<ItemView>, n: nat, disk: Disk) -> Disk
    decreases n,
{
    if n == 0 {
        disk
    } else {
        let before = undone_disk(items, (n - 1) as nat, disk);
        let item = items[n - 1];
        if undo_action(item, found_on(before, item)) is Remove {
            before.remove(place_of(item))
        } else {
            before
        }
    }
}

/// Carrying out a plan replaces no file.
pub proof fn lemma_apply_replaces_nothing(
    items: Seq<ItemView>,
    written: Seq<Seq<u8>>,
    n: nat,
    disk: Disk,
)
    requires
        n <= items.len(),
        n <= written.len(),
    ensures
        disk.submap_of(applied_disk(items, written, n, disk)),
    decreases n,
{
    if n > 0 {
        lemma_apply_replaces_nothing(items, written, (n - 1) as nat, disk);
    }
}

/// Only items that were ready are ever copied, and what is copied is found where it belongs.
proof fn lemma_applied(items: Seq<ItemView>, written: Seq<Seq<u8>>, n: nat, disk: Disk, place: Place)
    requires
        n <= items.len(),
        n <= written.len(),
        forall|k: int| 0 <= k < n ==> (#[trigger] written[k]).len() <= u64::MAX,
        forall|k: int| 0 <= k < n ==> !((#[trigger] items[k]).state is Applied),
    ensures
        ({
            let after = applied_disk(items, written, n, disk);
            &&& after.dom().contains(place) ==> disk.dom().contains(place) || exists|k: int|
                0 <= k < n && copied_to(items, written, #[trigger] (k as nat), disk, place)
            &&& forall|k: nat|
                k < n && #[trigger] copied_to(items, written, k, disk, place)
                    ==> !disk.dom().contains(place) && after.dom().contains(place)
                    && after[place] == written[k as int] && recognizes(
                    applied_item(items, written, k, disk),
                    after[place],
                )
        }),
    decreases n,
{
    if n > 0 {
        let last = (n - 1) as nat;
        lemma_applied(items, written, last, disk, place);
        lemma_apply_replaces_nothing(items, written, last, disk);
        let before = applied_disk(items, written, last, disk);
        let after = applied_disk(items, written, n, disk);
        if copied_to(items, written, last, disk, place) {
            assert(!before.dom().contains(place));
            assert(!disk.dom().contains(place));
        }
        if after.dom().contains(place) && !disk.dom().contains(place) {
            if before.dom().contains(place) {
                let k = choose|k: int|
                    0 <= k < last && copied_to(items, written, #[trigger] (k as nat), disk, place);
                assert(copied_to(items, written, k as nat, disk, place));
            } else {
                assert(copied_to(items, written, last as int as nat, disk, place));
            }
        }
    }
}

/// The `k`th item was copied to this place.
pub open spec fn copied_to(
    items: Seq<ItemView>,
    written: Seq<Seq<u8>>,
    k: nat,
    disk: Disk,
    place: Place,
) -> bool {
    applied_item(items, written, k, disk).state is Applied && place_of(items[k as int]) == place
}

/// Undoing removes a file only where an item that was carried out still recognizes it; every
/// other file, such as one that was edited since, stays as it is.
pub proof fn lemma_rollback_keeps_what_it_does_not_recognize(
    items: Seq<ItemView>,
    n: nat,
    disk: Disk,
    place: Place,
)
    requires
        n <= items.len(),
        disk.dom().contains(place),
        forall|k: int|
            0 <= k < n && place_of(#[trigger] items[k]) == place ==> !recognizes(
                items[k],
                disk[place],
            ),
    ensures
        undone_disk(items, n, disk).dom().contains(place),
        undone_disk(items, n, disk)[place] == disk[place],
    decreases n,
{
    if n > 0 {
        lemma_rollback_keeps_what_it_does_not_recognize(items, (n - 1) as nat, disk, place);
    }
}

/// Undoing never creates or changes a file.
proof fn lemma_rollback_only_removes(items: Seq<ItemView>, n: nat, disk: Disk)
    requires
        n <= items.len(),
    ensures
        undone_disk(items, n, disk).submap_of(disk),
    decreases n,
{
    if n > 0 {
        lemma_rollback_only_removes(items, (n - 1) as nat, disk);
    }
}

/// A file that the `k`th item recognizes is gone once that item was undone.
proof fn lemma_rollback_removes(items: Seq<ItemView>, n: nat, k: nat, disk: Disk)
    requires
        k < n <= items.len(),
        disk.dom().contains(place_of(items[k as int])) ==> recognizes(
            items[k as int],
            disk[place_of(items[k as int])],
        ),
    ensures
        !undone_disk(items, n, disk).dom().contains(place_of(items[k as int])),
    decreases n,
{
    lemma_rollback_only_removes(items, (n - 1) as nat, disk);
    let place = place_of(items[k as int]);
    let before = undone_disk(items, (n - 1) as nat, disk);
    if n - 1 > k {
        lemma_rollback_removes(items, (n - 1) as nat, k, disk);
    } else if before.dom().contains(place) {
        assert(before.submap_of(disk));
        assert(disk.dom().contains(place));
        assert(before[place] == disk[place]);
        assert(undo_action(items[n - 1], found_on(before, items[n - 1])) is Remove);
    }
}

/// Undoing what was just carried out gives back the files as they were before.
pub proof fn lemma_rollback_undoes_apply(
    items: Seq<ItemView>,
    written: Seq<Seq<u8>>,
    disk: Disk,
)
    requires
        written.len() == items.len(),
        forall|k: int| 0 <= k < items.len() ==> (#[trigger] written[k]).len() <= u64::MAX,
        forall|k: int| 0 <= k < items.len() ==> !((#[trigger] items[k]).state is Applied),
    ensures
        undone_disk(
            applied_items(items, written, disk),
            items.len(),
            applied_disk(items, written, items.len(), disk),
        ) == disk,
{
    let n = items.len();
    let manifest = applied_items(items, written, disk);
    let after = applied_disk(items, written, n, disk);
    let back = undone_disk(manifest, n, after);
    lemma_apply_replaces_nothing(items, written, n, disk);
    lemma_rollback_only_removes(manifest, n, after);
    assert forall|place: Place| disk.dom().contains(place) implies #[trigger] back.dom().contains(
        place,
    ) && back[place] == disk[place] by {
        lemma_applied(items, written, n, disk, place);
        assert forall|k: int| 0 <= k < n && place_of(#[trigger] manifest[k]) == place implies !(
        recognizes(manifest[k], after[place])) by {
            if manifest[k].state is Applied {
                assert(copied_to(items, written, k as nat, disk, place));
            }
        }
        lemma_rollback_keeps_what_it_does_not_recognize(manifest, n, after, place);
    }
    assert forall|place: Place| #[trigger] back.dom().contains(place) implies disk.dom().contains(
        place,
    ) by {
        assert(after.dom().contains(place));
        lemma_applied(items, written, n, disk, place);
        if !disk.dom().contains(place) {
            let k = choose|k: int|
                0 <= k < n && copied_to(items, written, #[trigger] (k as nat), disk, place);
            assert(copied_to(items, written, k as nat, disk, place));
            assert(place_of(manifest[k]) == place);
            lemma_rollback_removes(manifest, n, k as nat, after);
        }
    }
    assert(back =~= disk);
}

} // verus!

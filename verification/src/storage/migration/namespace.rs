//! Where a planned migration writes.
use vstd::prelude::*;

use crate::storage::listing::ends_in;
use crate::storage::migration::facade::{manifest_of, planned, SessionMigration};
use crate::storage::migration::model::{ItemView, MigrationErrorView, MigrationScope};
use crate::storage::migration::plan::{
    after_controls, after_entries, after_entry, after_home_memory, after_known, after_memory,
    after_persona, after_profiles, after_profiles_probe, after_user_memory, after_workspace_memory,
    lemma_valid_targets_differ, profile_path, session_target, GatheredView, HomeProbe, KnownProbe,
    MemoryProbe, PlanProbe, ProfileEntry, ProfilesProbe, SessionEntry, CONTROLS_MAX_BYTES,
    PERSONA_CONFIG_MAX_BYTES, PERSONA_PROFILE_MAX_BYTES, PERSONA_SOUL_MAX_BYTES,
};
use crate::storage::store::MAX_SCANNED_FILES;
use crate::text::occurs_at;

verus! {

/// The path lies in the part of the workspace that migrations write to.
pub open spec fn is_new_state(path: Seq<char>) -> bool {
    occurs_at(path, ".yunxi-next/"@, 0)
}

/// An item of the workspace goes to the new part of it, if it goes anywhere; an item of the
/// user's home is there only if homes may be migrated.
pub open spec fn is_placed(item: ItemView, homes: bool) -> bool {
    match item.scope {
        MigrationScope::Workspace => item.target.len() == 0 || is_new_state(item.target),
        MigrationScope::LegacyUserHome => homes,
    }
}

pub open spec fn all_placed(items: Seq<ItemView>, homes: bool) -> bool {
    forall|k: int| 0 <= k < items.len() ==> is_placed(#[trigger] items[k], homes)
}

/// Homes are migrated only where both are known and the new one does not lie in the old one.
pub open spec fn homes_may_migrate(migration: SessionMigration, probe: HomeProbe) -> bool {
    &&& migration.legacy() is Some
    &&& migration.next() is Some
    &&& !probe.next_location.within(probe.legacy_location)
}

proof fn lemma_targets_are_new(id: Seq<char>)
    ensures
        is_new_state(session_target(id)),
        is_new_state(manifest_of(id)),
        is_new_state(".yunxi-next/memory/workspace-memory.jsonl"@),
        is_new_state(".yunxi-next/memory/pending.jsonl"@),
        is_new_state(".yunxi-next/memory/global-memory.jsonl"@),
{
    reveal_strlit(".yunxi-next/");
    reveal_strlit(".yunxi-next/sessions/");
    reveal_strlit(".yunxi-next/migrations/sessions/");
    reveal_strlit(".yunxi-next/memory/workspace-memory.jsonl");
    reveal_strlit(".yunxi-next/memory/pending.jsonl");
    reveal_strlit(".yunxi-next/memory/global-memory.jsonl");
    assert(session_target(id).subrange(0, 12) =~= ".yunxi-next/"@);
    assert(manifest_of(id).subrange(0, 12) =~= ".yunxi-next/"@);
    assert(".yunxi-next/memory/workspace-memory.jsonl"@.subrange(0, 12) =~= ".yunxi-next/"@);
    assert(".yunxi-next/memory/pending.jsonl"@.subrange(0, 12) =~= ".yunxi-next/"@);
    assert(".yunxi-next/memory/global-memory.jsonl"@.subrange(0, 12) =~= ".yunxi-next/"@);
}

proof fn lemma_entries_are_placed(
    root: Seq<char>,
    entries: Seq<SessionEntry>,
    i: int,
    before: GatheredView,
)
    requires
        0 <= i,
        all_placed(before.items, false),
    ensures
        after_entries(root, entries, i, before) is Ok ==> all_placed(
            after_entries(root, entries, i, before)->Ok_0.items,
            false,
        ),
    decreases entries.len() - i,
{
    if i < entries.len() {
        if let Ok(next) = after_entry(root, entries[i], before) {
            assert forall|k: int| 0 <= k < next.items.len() implies is_placed(
                #[trigger] next.items[k],
                false,
            ) by {
                if k < before.items.len() {
                    assert(next.items[k] == before.items[k]);
                } else {
                    lemma_targets_are_new(next.items[k].id);
                }
            }
            lemma_entries_are_placed(root, entries, i + 1, next);
        }
    }
}

proof fn lemma_memory_is_placed(
    so_far: Result<GatheredView, MigrationErrorView>,
    scope: MigrationScope,
    roots: (Seq<char>, Seq<char>),
    relative: (Seq<char>, Seq<char>),
    probe: MemoryProbe,
    homes: bool,
)
    requires
        so_far is Ok ==> all_placed(so_far->Ok_0.items, homes),
        scope is Workspace ==> is_new_state(relative.1),
        scope is LegacyUserHome ==> homes,
    ensures
        ({
            let next = after_memory(so_far, scope, roots, relative, probe);
            next is Ok ==> all_placed(next->Ok_0.items, homes)
        }),
{
    let next = after_memory(so_far, scope, roots, relative, probe);
    if next is Ok {
        let before = so_far->Ok_0.items;
        assert forall|k: int| 0 <= k < next->Ok_0.items.len() implies is_placed(
            #[trigger] next->Ok_0.items[k],
            homes,
        ) by {
            if k < before.len() {
                assert(next->Ok_0.items[k] == before[k]);
            }
        }
    }
}

proof fn lemma_known_is_placed(
    so_far: Result<GatheredView, MigrationErrorView>,
    homes: (Seq<char>, Seq<char>),
    capability: Seq<char>,
    relative: Seq<char>,
    maximum: u64,
    probe: KnownProbe,
)
    requires
        so_far is Ok ==> all_placed(so_far->Ok_0.items, true),
    ensures
        ({
            let next = after_known(so_far, homes, capability, relative, maximum, probe);
            next is Ok ==> all_placed(next->Ok_0.items, true)
        }),
{
    let next = after_known(so_far, homes, capability, relative, maximum, probe);
    if next is Ok {
        let before = so_far->Ok_0.items;
        assert forall|k: int| 0 <= k < next->Ok_0.items.len() implies is_placed(
            #[trigger] next->Ok_0.items[k],
            true,
        ) by {
            if k < before.len() {
                assert(next->Ok_0.items[k] == before[k]);
            }
        }
    }
}

proof fn lemma_profiles_are_placed(
    entries: Seq<ProfileEntry>,
    i: int,
    homes: (Seq<char>, Seq<char>),
    so_far: Result<GatheredView, MigrationErrorView>,
)
    requires
        so_far is Ok ==> all_placed(so_far->Ok_0.items, true),
    ensures
        ({
            let next = after_profiles(entries, i, homes, so_far);
            next is Ok ==> all_placed(next->Ok_0.items, true)
        }),
    decreases entries.len() - i,
{
    if i < entries.len() && i < MAX_SCANNED_FILES && so_far is Ok {
        let next = match entries[i] {
            ProfileEntry::Unreadable(message) => Ok(
                so_far->Ok_0.with_warning("failed to read persona profile entry: "@ + message@),
            ),
            ProfileEntry::File { name, probe } => if ends_in(name@, ".json"@, true) {
                lemma_known_is_placed(
                    so_far,
                    homes,
                    "persona"@,
                    profile_path(name@),
                    PERSONA_PROFILE_MAX_BYTES,
                    probe,
                );
                after_known(
                    so_far,
                    homes,
                    "persona"@,
                    profile_path(name@),
                    PERSONA_PROFILE_MAX_BYTES,
                    probe,
                )
            } else {
                so_far
            },
        };
        lemma_profiles_are_placed(entries, i + 1, homes, next);
    }
}

proof fn lemma_home_is_placed(
    before: GatheredView,
    homes: (Seq<char>, Seq<char>),
    probe: HomeProbe,
)
    requires
        all_placed(before.items, true),
    ensures
        ({
            let persona = after_persona(before, homes, probe);
            let done = after_home_memory(after_controls(persona, homes, probe), homes, probe);
            done is Ok ==> all_placed(done->Ok_0.items, true)
        }),
{
    let config = after_known(
        Ok(before),
        homes,
        "persona"@,
        "persona/config.toml"@,
        PERSONA_CONFIG_MAX_BYTES,
        probe.config,
    );
    lemma_known_is_placed(
        Ok(before),
        homes,
        "persona"@,
        "persona/config.toml"@,
        PERSONA_CONFIG_MAX_BYTES,
        probe.config,
    );
    let soul = after_known(
        config,
        homes,
        "persona"@,
        "persona/soul.txt"@,
        PERSONA_SOUL_MAX_BYTES,
        probe.soul,
    );
    lemma_known_is_placed(
        config,
        homes,
        "persona"@,
        "persona/soul.txt"@,
        PERSONA_SOUL_MAX_BYTES,
        probe.soul,
    );
    if let ProfilesProbe::Entries(entries) = probe.profiles {
        lemma_profiles_are_placed(entries@, 0, homes, soul);
    }
    let persona = after_persona(before, homes, probe);
    assert(persona == after_profiles_probe(soul, homes, probe.profiles));
    lemma_known_is_placed(
        persona,
        homes,
        "controls"@,
        "settings.json"@,
        CONTROLS_MAX_BYTES,
        probe.settings,
    );
    let controls = after_controls(persona, homes, probe);
    lemma_user_memory_is_placed(
        controls,
        homes,
        "memory/global-memory.jsonl"@,
        probe.global_memory,
    );
    let first = after_user_memory(
        controls,
        homes,
        "memory/global-memory.jsonl"@,
        probe.global_memory,
    );
    lemma_user_memory_is_placed(first, homes, "memory/pending.jsonl"@, probe.pending_memory);
    let second = after_user_memory(first, homes, "memory/pending.jsonl"@, probe.pending_memory);
    lemma_user_memory_is_placed(
        second,
        homes,
        "memory/workspace-memory.jsonl"@,
        probe.workspace_memory,
    );
}

proof fn lemma_user_memory_is_placed(
    so_far: Result<GatheredView, MigrationErrorView>,
    homes: (Seq<char>, Seq<char>),
    relative: Seq<char>,
    probe: Option<MemoryProbe>,
)
    requires
        so_far is Ok ==> all_placed(so_far->Ok_0.items, true),
    ensures
        ({
            let next = after_user_memory(so_far, homes, relative, probe);
            next is Ok ==> all_placed(next->Ok_0.items, true)
        }),
{
    if let Some(memory) = probe {
        lemma_memory_is_placed(
            so_far,
            MigrationScope::LegacyUserHome,
            homes,
            (relative, relative),
            memory,
            true,
        );
    }
}

proof fn lemma_workspace_memory_is_placed(root: Seq<char>, before: GatheredView, probe: PlanProbe)
    requires
        all_placed(before.items, false),
    ensures
        ({
            let done = after_workspace_memory(root, before, probe);
            done is Ok ==> all_placed(done->Ok_0.items, false)
        }),
{
    lemma_targets_are_new(Seq::empty());
    let roots = (root, root);
    let scope = MigrationScope::Workspace;
    let workspace =
        (".yunxi/memory/workspace-memory.jsonl"@, ".yunxi-next/memory/workspace-memory.jsonl"@);
    let pending = (".yunxi/memory/pending.jsonl"@, ".yunxi-next/memory/pending.jsonl"@);
    let global = (".yunxi/memory/global-memory.jsonl"@, ".yunxi-next/memory/global-memory.jsonl"@);
    lemma_memory_is_placed(Ok(before), scope, roots, workspace, probe.workspace_memory, false);
    let first = after_memory(Ok(before), scope, roots, workspace, probe.workspace_memory);
    lemma_memory_is_placed(first, scope, roots, pending, probe.pending_memory, false);
    let second = after_memory(first, scope, roots, pending, probe.pending_memory);
    lemma_memory_is_placed(second, scope, roots, global, probe.global_memory, false);
}

/// A plan writes nothing but new state: in the workspace every target and the manifest lie below
/// `.yunxi-next`, and files of a user's home are planned only where the new home is known and
/// does not lie in the old one.
pub proof fn lemma_plans_write_only_new_state(
    migration: SessionMigration,
    id: Seq<char>,
    probe: PlanProbe,
)
    requires
        planned(migration, id, probe) is Ok,
    ensures
        ({
            let plan = planned(migration, id, probe)->Ok_0;
            &&& is_new_state(plan.manifest_path)
            &&& all_placed(plan.items, homes_may_migrate(migration, probe.home))
        }),
{
    lemma_targets_are_new(id);
    let nothing = GatheredView {
        items: Seq::empty(),
        warnings: Seq::empty(),
        relationships: 0,
    };
    let entries = probe.entries->Ok_0@;
    lemma_entries_are_placed(migration.root(), entries, 0, nothing);
    let sessions = after_entries(migration.root(), entries, 0, nothing)->Ok_0;
    lemma_workspace_memory_is_placed(migration.root(), sessions, probe);
    let workspace = after_workspace_memory(migration.root(), sessions, probe)->Ok_0;
    let before = GatheredView { relationships: 0, ..workspace };
    assert(all_placed(before.items, false));
    assert forall|k: int| 0 <= k < before.items.len() implies is_placed(
        #[trigger] before.items[k],
        true,
    ) by {
        assert(is_placed(before.items[k], false));
    }
    if homes_may_migrate(migration, probe.home) {
        lemma_home_is_placed(
            before,
            (migration.legacy()->0, migration.next()->0),
            probe.home,
        );
    }
}

// ---------------------------------------------------------------------------
// No two files go to the same place
// ---------------------------------------------------------------------------
/// No item of the workspace that is in order goes to where another item of it goes.
pub open spec fn workspace_targets_differ(items: Seq<ItemView>) -> bool {
    forall|i: int, j: int|
        0 <= i < j < items.len() && !((#[trigger] items[j]).state is Invalid)
            && items[j].scope is Workspace && (#[trigger] items[i]).scope is Workspace
            ==> items[i].target != items[j].target
}

/// The target lies in the sessions directory, or there is none.
spec fn holds_session(target: Seq<char>) -> bool {
    target.len() == 0 || (target.len() > 12 && target[12] == 's')
}

/// Every item so far is one of a session or goes to one of the used places.
spec fn stay_apart(items: Seq<ItemView>, used: Seq<Seq<char>>) -> bool {
    &&& workspace_targets_differ(items)
    &&& forall|k: int|
        0 <= k < items.len() ==> holds_session((#[trigger] items[k]).target) || used.contains(
            items[k].target,
        )
}

proof fn lemma_sessions_stay_apart(
    root: Seq<char>,
    entries: Seq<SessionEntry>,
    i: int,
    before: GatheredView,
)
    requires
        0 <= i,
        forall|k: int|
            0 <= k < before.items.len() ==> holds_session((#[trigger] before.items[k]).target),
    ensures
        after_entries(root, entries, i, before) is Ok ==> {
            let items = after_entries(root, entries, i, before)->Ok_0.items;
            forall|k: int| 0 <= k < items.len() ==> holds_session((#[trigger] items[k]).target)
        },
    decreases entries.len() - i,
{
    if i < entries.len() {
        if let Ok(next) = after_entry(root, entries[i], before) {
            assert forall|k: int| 0 <= k < next.items.len() implies holds_session(
                (#[trigger] next.items[k]).target,
            ) by {
                if k < before.items.len() {
                    assert(next.items[k] == before.items[k]);
                } else {
                    reveal_strlit(".yunxi-next/sessions/");
                    assert(next.items[k].target.len() > 0 ==> next.items[k].target
                        == session_target(next.items[k].id));
                }
            }
            lemma_sessions_stay_apart(root, entries, i + 1, next);
        }
    }
}

proof fn lemma_memory_stays_apart(
    so_far: Result<GatheredView, MigrationErrorView>,
    roots: (Seq<char>, Seq<char>),
    relative: (Seq<char>, Seq<char>),
    probe: MemoryProbe,
    used: Seq<Seq<char>>,
)
    requires
        so_far is Ok ==> stay_apart(so_far->Ok_0.items, used),
        !holds_session(relative.1),
        !used.contains(relative.1),
    ensures
        ({
            let next = after_memory(so_far, MigrationScope::Workspace, roots, relative, probe);
            next is Ok ==> stay_apart(next->Ok_0.items, used.push(relative.1))
        }),
{
    let next = after_memory(so_far, MigrationScope::Workspace, roots, relative, probe);
    if next is Ok {
        let before = so_far->Ok_0.items;
        let items = next->Ok_0.items;
        let after = used.push(relative.1);
        assert(after[used.len() as int] == relative.1);
        assert forall|k: int| 0 <= k < items.len() implies holds_session(
            (#[trigger] items[k]).target,
        ) || after.contains(items[k].target) by {
            if k < before.len() {
                assert(items[k] == before[k]);
                if used.contains(before[k].target) {
                    let at = choose|at: int| 0 <= at < used.len() && used[at] == before[k].target;
                    assert(after[at] == before[k].target);
                }
            }
        }
        assert forall|i: int, j: int|
            0 <= i < j < items.len() && !((#[trigger] items[j]).state is Invalid)
                && items[j].scope is Workspace && (#[trigger] items[i]).scope is Workspace
            implies items[i].target != items[j].target by {
            assert(items[i] == before[i]);
            if j < before.len() {
                assert(items[j] == before[j]);
            }
        }
    }
}

proof fn lemma_workspace_stays_apart(root: Seq<char>, before: GatheredView, probe: PlanProbe)
    requires
        stay_apart(before.items, Seq::empty()),
    ensures
        ({
            let done = after_workspace_memory(root, before, probe);
            done is Ok ==> workspace_targets_differ(done->Ok_0.items)
        }),
{
    reveal_strlit(".yunxi-next/memory/workspace-memory.jsonl");
    reveal_strlit(".yunxi-next/memory/pending.jsonl");
    reveal_strlit(".yunxi-next/memory/global-memory.jsonl");
    let roots = (root, root);
    let scope = MigrationScope::Workspace;
    let workspace =
        (".yunxi/memory/workspace-memory.jsonl"@, ".yunxi-next/memory/workspace-memory.jsonl"@);
    let pending = (".yunxi/memory/pending.jsonl"@, ".yunxi-next/memory/pending.jsonl"@);
    let global = (".yunxi/memory/global-memory.jsonl"@, ".yunxi-next/memory/global-memory.jsonl"@);
    let none = Seq::<Seq<char>>::empty();
    lemma_memory_stays_apart(Ok(before), roots, workspace, probe.workspace_memory, none);
    let first = after_memory(Ok(before), scope, roots, workspace, probe.workspace_memory);
    let one = none.push(workspace.1);
    lemma_memory_stays_apart(first, roots, pending, probe.pending_memory, one);
    let second = after_memory(first, scope, roots, pending, probe.pending_memory);
    let two = one.push(pending.1);
    lemma_memory_stays_apart(second, roots, global, probe.global_memory, two);
}

/// Nothing was added but items of a user's home.
spec fn adds_home_items(before: Seq<ItemView>, after: Seq<ItemView>) -> bool {
    &&& before.len() <= after.len()
    &&& forall|k: int| 0 <= k < before.len() ==> (#[trigger] after[k]) == before[k]
    &&& forall|k: int|
        before.len() <= k < after.len() ==> (#[trigger] after[k]).scope is LegacyUserHome
}

proof fn lemma_profiles_add_home_items(
    entries: Seq<ProfileEntry>,
    i: int,
    homes: (Seq<char>, Seq<char>),
    so_far: Result<GatheredView, MigrationErrorView>,
)
    ensures
        after_profiles(entries, i, homes, so_far) is Ok ==> so_far is Ok && adds_home_items(
            so_far->Ok_0.items,
            after_profiles(entries, i, homes, so_far)->Ok_0.items,
        ),
    decreases entries.len() - i,
{
    if i < entries.len() && i < MAX_SCANNED_FILES && so_far is Ok {
        let next = match entries[i] {
            ProfileEntry::Unreadable(message) => Ok(
                so_far->Ok_0.with_warning("failed to read persona profile entry: "@ + message@),
            ),
            ProfileEntry::File { name, probe } => if ends_in(name@, ".json"@, true) {
                after_known(
                    so_far,
                    homes,
                    "persona"@,
                    profile_path(name@),
                    PERSONA_PROFILE_MAX_BYTES,
                    probe,
                )
            } else {
                so_far
            },
        };
        lemma_profiles_add_home_items(entries, i + 1, homes, next);
    }
}

proof fn lemma_home_adds_home_items(
    before: GatheredView,
    homes: (Seq<char>, Seq<char>),
    probe: HomeProbe,
)
    ensures
        ({
            let persona = after_persona(before, homes, probe);
            let done = after_home_memory(after_controls(persona, homes, probe), homes, probe);
            done is Ok ==> adds_home_items(before.items, done->Ok_0.items)
        }),
{
    let config = after_known(
        Ok(before),
        homes,
        "persona"@,
        "persona/config.toml"@,
        PERSONA_CONFIG_MAX_BYTES,
        probe.config,
    );
    let soul = after_known(
        config,
        homes,
        "persona"@,
        "persona/soul.txt"@,
        PERSONA_SOUL_MAX_BYTES,
        probe.soul,
    );
    if let ProfilesProbe::Entries(entries) = probe.profiles {
        lemma_profiles_add_home_items(entries@, 0, homes, soul);
    }
    let persona = after_persona(before, homes, probe);
    let controls = after_controls(persona, homes, probe);
    let first = after_user_memory(
        controls,
        homes,
        "memory/global-memory.jsonl"@,
        probe.global_memory,
    );
    let second = after_user_memory(first, homes, "memory/pending.jsonl"@, probe.pending_memory);
    let done = after_home_memory(controls, homes, probe);
    if done is Ok {
        assert(adds_home_items(before.items, config->Ok_0.items));
        assert(adds_home_items(before.items, soul->Ok_0.items));
        assert(adds_home_items(before.items, persona->Ok_0.items));
        assert(adds_home_items(before.items, controls->Ok_0.items));
        assert(adds_home_items(before.items, first->Ok_0.items));
        assert(adds_home_items(before.items, second->Ok_0.items));
    }
}

/// Of all items of the workspace in a plan that are not invalid, no two go to the same place,
/// and none goes to where an invalid item before it would have gone.
pub proof fn lemma_planned_targets_differ(
    migration: SessionMigration,
    id: Seq<char>,
    probe: PlanProbe,
)
    requires
        planned(migration, id, probe) is Ok,
    ensures
        workspace_targets_differ(planned(migration, id, probe)->Ok_0.items),
{
    let nothing = GatheredView {
        items: Seq::empty(),
        warnings: Seq::empty(),
        relationships: 0,
    };
    let entries = probe.entries->Ok_0@;
    lemma_valid_targets_differ(migration.root(), entries, 0, nothing);
    lemma_sessions_stay_apart(migration.root(), entries, 0, nothing);
    let sessions = after_entries(migration.root(), entries, 0, nothing)->Ok_0;
    assert(stay_apart(sessions.items, Seq::empty()));
    lemma_workspace_stays_apart(migration.root(), sessions, probe);
    let workspace = after_workspace_memory(migration.root(), sessions, probe)->Ok_0;
    let before = GatheredView { relationships: 0, ..workspace };
    if homes_may_migrate(migration, probe.home) {
        lemma_home_adds_home_items(
            before,
            (migration.legacy()->0, migration.next()->0),
            probe.home,
        );
    }
    let items = planned(migration, id, probe)->Ok_0.items;
    assert(adds_home_items(before.items, items));
    assert forall|i: int, j: int|
        0 <= i < j < items.len() && !((#[trigger] items[j]).state is Invalid)
            && items[j].scope is Workspace && (#[trigger] items[i]).scope is Workspace
        implies items[i].target != items[j].target by {
        assert(items[i] == before.items[i]);
        assert(items[j] == before.items[j]);
    }
}

} // verus!

//! What plans hold, and what carrying them out writes.
use vstd::prelude::*;

use crate::fingerprint::fnv1a;
use crate::json::{parsed_json, JsonView};
use crate::paths::joined_of;
use crate::storage::listing::ends_in;
use crate::storage::memory::{normalized_file, LineReading, MAX_MEMORY_MIGRATION_FILE_BYTES};
use crate::storage::migration::facade::{MigrationPlan, SessionMigration};
use crate::storage::migration::model::{
    ItemView, MigrationError, MigrationErrorView, MigrationItem, MigrationScope, Resolution,
};
use crate::storage::migration::plan::{
    after_controls, after_entries, after_entry, after_home, after_home_memory, after_known,
    after_memory, after_persona, after_profiles, after_user_memory, after_workspace_memory, claims,
    FileContent, GatheredView, HomeProbe, KnownProbe, MemoryProbe, PlanProbe, ProfileEntry, ProfilesProbe,
    SessionEntry, profile_path, CONTROLS_MAX_BYTES, PERSONA_CONFIG_MAX_BYTES,
    PERSONA_PROFILE_MAX_BYTES, PERSONA_SOUL_MAX_BYTES,
};
use crate::storage::migration::run::{conclude_copy, CopyContent, CopyOutcome};
use crate::storage::migration::validate::ItemProbe;
use crate::storage::record::{ChatRole, SessionView};
use crate::storage::store::{is_said, legacy_content, MAX_SCANNED_FILES, MAX_SESSION_FILE_BYTES};
use crate::text::swap_char_of;

verus! {

/// Nothing that was gathered is lost or changed.
pub open spec fn extends(before: GatheredView, after: Result<GatheredView, MigrationErrorView>) -> bool {
    after is Ok ==> before.items.is_prefix_of(after->Ok_0.items)
}

proof fn lemma_longer(a: Seq<ItemView>, b: Seq<ItemView>, c: Seq<ItemView>)
    requires
        a.is_prefix_of(b),
        b.is_prefix_of(c),
    ensures
        a.is_prefix_of(c),
{
    assert(a =~= c.subrange(0, a.len() as int)) by {
        assert(b =~= c.subrange(0, b.len() as int));
        assert(a =~= b.subrange(0, a.len() as int));
        assert forall|k: int| 0 <= k < a.len() implies a[k] == c[k] by {
            assert(a[k] == b.subrange(0, a.len() as int)[k]);
            assert(b[k] == c.subrange(0, b.len() as int)[k]);
        }
    }
}

proof fn lemma_pushed(items: Seq<ItemView>, item: ItemView)
    ensures
        items.is_prefix_of(items),
        items.is_prefix_of(items.push(item)),
{
    assert(items =~= items.subrange(0, items.len() as int));
    assert(items =~= items.push(item).subrange(0, items.len() as int));
}

proof fn lemma_entry_extends(root: Seq<char>, entry: SessionEntry, before: GatheredView)
    ensures
        extends(before, after_entry(root, entry, before)),
{
    if let Ok(next) = after_entry(root, entry, before) {
        if next.items.len() > 0 {
            lemma_pushed(before.items, next.items.last());
        }
        assert(before.items =~= next.items.subrange(0, before.items.len() as int));
    }
}

proof fn lemma_entries_extend(
    root: Seq<char>,
    entries: Seq<SessionEntry>,
    i: int,
    before: GatheredView,
)
    requires
        0 <= i,
    ensures
        extends(before, after_entries(root, entries, i, before)),
    decreases entries.len() - i,
{
    assert(before.items =~= before.items.subrange(0, before.items.len() as int));
    if i < entries.len() && i < MAX_SCANNED_FILES {
        if let Ok(next) = after_entry(root, entries[i], before) {
            lemma_entry_extends(root, entries[i], before);
            lemma_entries_extend(root, entries, i + 1, next);
            if let Ok(done) = after_entries(root, entries, i, before) {
                lemma_longer(before.items, next.items, done.items);
            }
        }
    }
}

proof fn lemma_memory_extends(
    before: GatheredView,
    scope: MigrationScope,
    roots: (Seq<char>, Seq<char>),
    relative: (Seq<char>, Seq<char>),
    probe: MemoryProbe,
)
    ensures
        extends(before, after_memory(Ok(before), scope, roots, relative, probe)),
{
    if let Ok(next) = after_memory(Ok(before), scope, roots, relative, probe) {
        assert(before.items =~= next.items.subrange(0, before.items.len() as int));
    }
}

proof fn lemma_known_extends(
    before: GatheredView,
    homes: (Seq<char>, Seq<char>),
    capability: Seq<char>,
    relative: Seq<char>,
    maximum: u64,
    probe: KnownProbe,
)
    ensures
        extends(before, after_known(Ok(before), homes, capability, relative, maximum, probe)),
{
    if let Ok(next) = after_known(Ok(before), homes, capability, relative, maximum, probe) {
        assert(before.items =~= next.items.subrange(0, before.items.len() as int));
    }
}

proof fn lemma_profiles_extend(
    entries: Seq<ProfileEntry>,
    i: int,
    homes: (Seq<char>, Seq<char>),
    so_far: Result<GatheredView, MigrationErrorView>,
)
    requires
        0 <= i,
    ensures
        so_far is Err ==> after_profiles(entries, i, homes, so_far) is Err,
        so_far is Ok ==> extends(so_far->Ok_0, after_profiles(entries, i, homes, so_far)),
    decreases entries.len() - i,
{
    if so_far is Ok {
        let before = so_far->Ok_0;
        assert(before.items =~= before.items.subrange(0, before.items.len() as int));
        if i < entries.len() && i < MAX_SCANNED_FILES {
            let next = after_profile(entries[i], homes, before);
            lemma_profile_extends(entries[i], homes, before);
            lemma_profiles_extend(entries, i + 1, homes, next);
            assert(after_profiles(entries, i, homes, so_far) == after_profiles(
                entries,
                i + 1,
                homes,
                next,
            ));
            if let Ok(done) = after_profiles(entries, i, homes, so_far) {
                lemma_longer(before.items, next->Ok_0.items, done.items);
            }
        }
    }
}

/// What one profile entry adds.
spec fn after_profile(
    entry: ProfileEntry,
    homes: (Seq<char>, Seq<char>),
    before: GatheredView,
) -> Result<GatheredView, MigrationErrorView> {
    match entry {
        ProfileEntry::Unreadable(message) => Ok(
            before.with_warning("failed to read persona profile entry: "@ + message@),
        ),
        ProfileEntry::File { name, probe } => if crate::storage::listing::ends_in(
            name@,
            ".json"@,
            true,
        ) {
            after_known(
                Ok(before),
                homes,
                "persona"@,
                profile_path(name@),
                PERSONA_PROFILE_MAX_BYTES,
                probe,
            )
        } else {
            Ok(before)
        },
    }
}

proof fn lemma_profile_extends(
    entry: ProfileEntry,
    homes: (Seq<char>, Seq<char>),
    before: GatheredView,
)
    ensures
        extends(before, after_profile(entry, homes, before)),
{
    if let Ok(next) = after_profile(entry, homes, before) {
        assert(before.items =~= next.items.subrange(0, before.items.len() as int));
    }
}

proof fn lemma_home_memory_extends(
    before: GatheredView,
    homes: (Seq<char>, Seq<char>),
    probe: HomeProbe,
)
    ensures
        extends(before, after_home_memory(Ok(before), homes, probe)),
{
    if let Ok(done) = after_home_memory(Ok(before), homes, probe) {
        assert(before.items =~= done.items.subrange(0, before.items.len() as int));
    }
}

proof fn lemma_persona_extends(
    before: GatheredView,
    homes: (Seq<char>, Seq<char>),
    probe: HomeProbe,
)
    ensures
        extends(before, after_persona(before, homes, probe)),
{
    if let Ok(done) = after_persona(before, homes, probe) {
        let config = after_known(
            Ok(before),
            homes,
            "persona"@,
            "persona/config.toml"@,
            PERSONA_CONFIG_MAX_BYTES,
            probe.config,
        );
        let soul = after_known(
            config,
            homes,
            "persona"@,
            "persona/soul.txt"@,
            PERSONA_SOUL_MAX_BYTES,
            probe.soul,
        );
        assert(soul is Ok);
        assert(before.items =~= soul->Ok_0.items.subrange(0, before.items.len() as int));
        assert(soul->Ok_0.items =~= soul->Ok_0.items.subrange(0, soul->Ok_0.items.len() as int));
        if let ProfilesProbe::Entries(entries) = probe.profiles {
            lemma_profiles_extend(entries@, 0, homes, soul);
            lemma_longer(before.items, soul->Ok_0.items, done.items);
        }
    }
}

proof fn lemma_home_extends(
    before: GatheredView,
    legacy_home: Option<Seq<char>>,
    next_home: Option<Seq<char>>,
    probe: HomeProbe,
)
    ensures
        after_home(before, legacy_home, next_home, probe) is Ok ==> before.items.is_prefix_of(
            (after_home(before, legacy_home, next_home, probe)->Ok_0).0.items,
        ),
{
    assert(before.items =~= before.items.subrange(0, before.items.len() as int));
    if let Ok(done) = after_home(before, legacy_home, next_home, probe) {
        if legacy_home is Some && next_home is Some && !probe.next_location.within(
            probe.legacy_location,
        ) {
            let homes = (legacy_home->0, next_home->0);
            let persona = after_persona(before, homes, probe);
            let controls = after_controls(persona, homes, probe);
            lemma_persona_extends(before, homes, probe);
            assert(persona is Ok);
            assert(controls is Ok);
            lemma_known_extends(
                persona->Ok_0,
                homes,
                "controls"@,
                "settings.json"@,
                CONTROLS_MAX_BYTES,
                probe.settings,
            );
            lemma_home_memory_extends(controls->Ok_0, homes, probe);
            lemma_longer(before.items, persona->Ok_0.items, controls->Ok_0.items);
            lemma_longer(before.items, controls->Ok_0.items, done.0.items);
        }
    }
}

proof fn lemma_workspace_memory_extends(root: Seq<char>, before: GatheredView, probe: PlanProbe)
    ensures
        extends(before, after_workspace_memory(root, before, probe)),
{
    if let Ok(done) = after_workspace_memory(root, before, probe) {
        assert(before.items =~= done.items.subrange(0, before.items.len() as int));
    }
}

proof fn lemma_found_in_longer(short: Seq<ItemView>, long: Seq<ItemView>, item: ItemView)
    requires
        short.is_prefix_of(long),
        short.contains(item),
    ensures
        long.contains(item),
{
    let k = choose|k: int| 0 <= k < short.len() && short[k] == item;
    assert(long.subrange(0, short.len() as int)[k] == long[k]);
}

/// The file may be looked at: no links lead out, and it is there and not too long.
pub open spec fn is_readable(
    source: Resolution,
    content: FileContent,
    maximum: u64,
    bytes: Seq<u8>,
) -> bool {
    &&& !source.escapes()
    &&& content matches FileContent::Found { length, bytes: found } && length <= maximum && found@
        == bytes
}

/// The item tells of a file with these bytes.
pub open spec fn tells_of(
    item: ItemView,
    capability: Seq<char>,
    scope: MigrationScope,
    source: Seq<char>,
    target: Seq<char>,
    bytes: Seq<u8>,
) -> bool {
    &&& item.capability == capability
    &&& item.scope == scope
    &&& item.source == source
    &&& item.target == target
    &&& item.source_bytes == bytes.len() as u64
    &&& item.source_fingerprint == fnv1a(bytes)
}

/// The item is that of a session file, and says what is done about it: nothing, where something
/// stands in its place or another item of the plan goes there.
pub open spec fn is_session_item(
    items: Seq<ItemView>,
    item: ItemView,
    stem: Seq<char>,
    bytes: Seq<u8>,
    session: SessionView,
    target_exists: bool,
) -> bool {
    &&& tells_of(
        item,
        "sessions"@,
        MigrationScope::Workspace,
        swap_char_of(".yunxi/sessions/"@ + stem + ".json"@, '\\', '/'),
        ".yunxi-next/sessions/"@ + session.id + ".json"@,
        bytes,
    )
    &&& item.id == session.id
    &&& item.state is Ready || item.state is TargetExists || item.state is Invalid
    &&& item.state is TargetExists ==> target_exists
    &&& item.state is Ready ==> !target_exists
    &&& item.state is Invalid ==> comes_second(items, item)
}

/// An item in front of this one goes to the same place.
pub open spec fn comes_second(items: Seq<ItemView>, item: ItemView) -> bool {
    exists|i: int, j: int|
        0 <= i < j < items.len() && (#[trigger] items[i]).target == item.target
            && #[trigger] items[j] == item
}

/// The plan holds the item of a session file.
pub open spec fn plans_session(
    items: Seq<ItemView>,
    stem: Seq<char>,
    bytes: Seq<u8>,
    session: SessionView,
    target_exists: bool,
) -> bool {
    exists|item: ItemView|
        items.contains(item) && #[trigger] is_session_item(
            items,
            item,
            stem,
            bytes,
            session,
            target_exists,
        )
}

proof fn lemma_session_stays_planned(
    short: Seq<ItemView>,
    long: Seq<ItemView>,
    stem: Seq<char>,
    bytes: Seq<u8>,
    session: SessionView,
    target_exists: bool,
)
    requires
        short.is_prefix_of(long),
        plans_session(short, stem, bytes, session, target_exists),
    ensures
        plans_session(long, stem, bytes, session, target_exists),
{
    let item = choose|item: ItemView|
        short.contains(item) && #[trigger] is_session_item(
            short,
            item,
            stem,
            bytes,
            session,
            target_exists,
        );
    lemma_found_in_longer(short, long, item);
    if item.state is Invalid {
        let (i, j) = choose|i: int, j: int|
            0 <= i < j < short.len() && (#[trigger] short[i]).target == item.target
                && #[trigger] short[j] == item;
        assert(long.subrange(0, short.len() as int)[i] == long[i]);
        assert(long.subrange(0, short.len() as int)[j] == long[j]);
    }
    assert(is_session_item(long, item, stem, bytes, session, target_exists));
}

proof fn lemma_session_is_gathered(
    root: Seq<char>,
    entries: Seq<SessionEntry>,
    i: int,
    before: GatheredView,
    k: int,
    stem: Seq<char>,
    bytes: Seq<u8>,
    session: SessionView,
)
    requires
        0 <= i <= k < entries.len(),
        k < MAX_SCANNED_FILES,
        after_entries(root, entries, i, before) is Ok,
        entries[k] matches SessionEntry::File(file) && file.name@ == stem + ".json"@ && stem.len()
            > 0 && is_readable(file.source, file.content, MAX_SESSION_FILE_BYTES, bytes)
            && legacy_content(joined_of(root, ".yunxi/sessions/"@ + file.name@), bytes) == Ok::<
            SessionView,
            crate::storage::store::StorageErrorView,
        >(session),
    ensures
        plans_session(
            after_entries(root, entries, i, before)->Ok_0.items,
            stem,
            bytes,
            session,
            entries[k]->File_0.target_exists,
        ),
    decreases entries.len() - i,
{
    let done = after_entries(root, entries, i, before)->Ok_0;
    let next = after_entry(root, entries[i], before)->Ok_0;
    lemma_entries_extend(root, entries, i + 1, next);
    if i < k {
        lemma_session_is_gathered(root, entries, i + 1, next, k, stem, bytes, session);
    } else {
        reveal_strlit(".json");
        let file = entries[k]->File_0;
        let name = file.name@;
        assert(name.skip(name.len() - 5) =~= ".json"@);
        assert(".yunxi/sessions/"@ + stem + ".json"@ =~= ".yunxi/sessions/"@ + name);
        let item = next.items.last();
        assert(next.items == before.items.push(item));
        assert(next.items[before.items.len() as int] == item);
        assert(next.items.contains(item));
        assert(is_session_item(next.items, item, stem, bytes, session, file.target_exists)) by {
            if item.state is Invalid {
                assert(claims(before.items, item.target));
                let j = choose|j: int|
                    0 <= j < before.items.len() && (#[trigger] before.items[j]).target
                        == item.target;
                assert(next.items[j].target == item.target);
                assert(next.items[before.items.len() as int] == item);
            }
        }
        lemma_session_stays_planned(
            next.items,
            done.items,
            stem,
            bytes,
            session,
            file.target_exists,
        );
    }
}

/// No legacy session is forgotten: each file that holds one has an item in the plan, which names
/// the file, where its copy goes and what it was found to hold; the copy is made unless something
/// stands there or another file holds a session of the same name.
pub proof fn lemma_every_legacy_session_is_planned(
    migration: SessionMigration,
    id: &str,
    probe: PlanProbe,
    r: Result<MigrationPlan, MigrationError>,
    k: int,
    stem: Seq<char>,
    bytes: Seq<u8>,
    session: SessionView,
)
    requires
        call_ensures(SessionMigration::plan, (&migration, id, &probe), r),
        probe.wf(),
        r is Ok,
        probe.entries is Ok,
        0 <= k < probe.entries->Ok_0@.len(),
        k < MAX_SCANNED_FILES,
        probe.entries->Ok_0@[k] matches SessionEntry::File(file) && file.name@ == stem + ".json"@
            && stem.len() > 0 && is_readable(
            file.source,
            file.content,
            MAX_SESSION_FILE_BYTES,
            bytes,
        ) && legacy_content(joined_of(migration.root(), ".yunxi/sessions/"@ + file.name@), bytes)
            == Ok::<SessionView, crate::storage::store::StorageErrorView>(session),
    ensures
        plans_session(
            r->Ok_0@.items,
            stem,
            bytes,
            session,
            probe.entries->Ok_0@[k]->File_0.target_exists,
        ),
{
    let root = migration.root();
    let nothing = GatheredView {
        items: Seq::empty(),
        warnings: Seq::empty(),
        relationships: 0,
    };
    let entries = probe.entries->Ok_0@;
    let sessions = after_entries(root, entries, 0, nothing)->Ok_0;
    let workspace = after_workspace_memory(root, sessions, probe)->Ok_0;
    lemma_session_is_gathered(root, entries, 0, nothing, k, stem, bytes, session);
    let taken = entries[k]->File_0.target_exists;
    lemma_workspace_memory_extends(root, sessions, probe);
    lemma_session_stays_planned(sessions.items, workspace.items, stem, bytes, session, taken);
    let before = GatheredView { relationships: 0, ..workspace };
    lemma_home_extends(before, migration.legacy(), migration.next(), probe.home);
    lemma_session_stays_planned(workspace.items, r->Ok_0@.items, stem, bytes, session, taken);
}

proof fn lemma_memory_is_gathered(
    before: GatheredView,
    scope: MigrationScope,
    roots: (Seq<char>, Seq<char>),
    relative: (Seq<char>, Seq<char>),
    probe: MemoryProbe,
    bytes: Seq<u8>,
)
    requires
        after_memory(Ok(before), scope, roots, relative, probe) is Ok,
        is_readable(
            probe.source,
            probe.content,
            MAX_MEMORY_MIGRATION_FILE_BYTES,
            bytes,
        ),
    ensures
        ({
            let after = after_memory(Ok(before), scope, roots, relative, probe)->Ok_0;
            let item = after.items.last();
            &&& after.items == before.items.push(item)
            &&& tells_of(item, "memory"@, scope, relative.0, relative.1, bytes)
            &&& item.state is Invalid <==> normalized_file(bytes, probe.readings@) is Err
            &&& item.state is Ready <==> normalized_file(bytes, probe.readings@) is Ok
                && !probe.target_exists
            &&& normalized_file(bytes, probe.readings@) is Ok ==> after.relationships
                == before.relationships + (normalized_file(bytes, probe.readings@)->Ok_0).1
        }),
{
}

/// The plan holds an item for a memory file with these bytes, and copies it exactly if its lines
/// are in order and nothing stands where it goes.
pub open spec fn plans_memory(
    items: Seq<ItemView>,
    scope: MigrationScope,
    source: Seq<char>,
    target: Seq<char>,
    probe: MemoryProbe,
    bytes: Seq<u8>,
) -> bool {
    exists|item: ItemView|
        #[trigger] items.contains(item) && tells_of(item, "memory"@, scope, source, target, bytes)
            && (item.state is Invalid <==> normalized_file(bytes, probe.readings@) is Err) && (
        item.state is Ready <==> normalized_file(bytes, probe.readings@) is Ok
            && !probe.target_exists)
}

/// No memory file of the workspace is forgotten: each of the three that is there has its item.
pub proof fn lemma_every_memory_file_is_planned(
    migration: SessionMigration,
    id: &str,
    probe: PlanProbe,
    r: Result<MigrationPlan, MigrationError>,
    bytes: Seq<u8>,
)
    requires
        call_ensures(SessionMigration::plan, (&migration, id, &probe), r),
        probe.wf(),
        r is Ok,
    ensures
        is_readable(
            probe.workspace_memory.source,
            probe.workspace_memory.content,
            MAX_MEMORY_MIGRATION_FILE_BYTES,
            bytes,
        ) ==> plans_memory(
            r->Ok_0@.items,
            MigrationScope::Workspace,
            ".yunxi/memory/workspace-memory.jsonl"@,
            ".yunxi-next/memory/workspace-memory.jsonl"@,
            probe.workspace_memory,
            bytes,
        ),
        is_readable(
            probe.pending_memory.source,
            probe.pending_memory.content,
            MAX_MEMORY_MIGRATION_FILE_BYTES,
            bytes,
        ) ==> plans_memory(
            r->Ok_0@.items,
            MigrationScope::Workspace,
            ".yunxi/memory/pending.jsonl"@,
            ".yunxi-next/memory/pending.jsonl"@,
            probe.pending_memory,
            bytes,
        ),
        is_readable(
            probe.global_memory.source,
            probe.global_memory.content,
            MAX_MEMORY_MIGRATION_FILE_BYTES,
            bytes,
        ) ==> plans_memory(
            r->Ok_0@.items,
            MigrationScope::Workspace,
            ".yunxi/memory/global-memory.jsonl"@,
            ".yunxi-next/memory/global-memory.jsonl"@,
            probe.global_memory,
            bytes,
        ),
{
    let root = migration.root();
    let nothing = GatheredView {
        items: Seq::empty(),
        warnings: Seq::empty(),
        relationships: 0,
    };
    let entries = probe.entries->Ok_0@;
    let sessions = after_entries(root, entries, 0, nothing)->Ok_0;
    let roots = (root, root);
    let one = (".yunxi/memory/workspace-memory.jsonl"@, ".yunxi-next/memory/workspace-memory.jsonl"@);
    let two = (".yunxi/memory/pending.jsonl"@, ".yunxi-next/memory/pending.jsonl"@);
    let three = (".yunxi/memory/global-memory.jsonl"@, ".yunxi-next/memory/global-memory.jsonl"@);
    let scope = MigrationScope::Workspace;
    let first = after_memory(Ok(sessions), scope, roots, one, probe.workspace_memory)->Ok_0;
    let second = after_memory(Ok(first), scope, roots, two, probe.pending_memory)->Ok_0;
    let third = after_memory(Ok(second), scope, roots, three, probe.global_memory)->Ok_0;
    assert(after_workspace_memory(root, sessions, probe) == Ok::<GatheredView, MigrationErrorView>(
        third,
    ));
    let before = GatheredView { relationships: 0, ..third };
    lemma_home_extends(before, migration.legacy(), migration.next(), probe.home);
    let all = r->Ok_0@.items;
    assert(third.items.is_prefix_of(all));
    lemma_memory_extends(first, scope, roots, two, probe.pending_memory);
    lemma_memory_extends(second, scope, roots, three, probe.global_memory);
    lemma_longer(second.items, third.items, all);
    lemma_longer(first.items, second.items, all);
    let limit = MAX_MEMORY_MIGRATION_FILE_BYTES;
    if is_readable(probe.workspace_memory.source, probe.workspace_memory.content, limit, bytes) {
        lemma_memory_is_gathered(sessions, scope, roots, one, probe.workspace_memory, bytes);
        lemma_last_is_kept(first.items, all);
    }
    if is_readable(probe.pending_memory.source, probe.pending_memory.content, limit, bytes) {
        lemma_memory_is_gathered(first, scope, roots, two, probe.pending_memory, bytes);
        lemma_last_is_kept(second.items, all);
    }
    if is_readable(probe.global_memory.source, probe.global_memory.content, limit, bytes) {
        lemma_memory_is_gathered(second, scope, roots, three, probe.global_memory, bytes);
        lemma_last_is_kept(third.items, all);
    }
}

proof fn lemma_last_is_kept(short: Seq<ItemView>, long: Seq<ItemView>)
    requires
        short.len() > 0,
        short.is_prefix_of(long),
    ensures
        long.contains(short.last()),
{
    assert(short[short.len() - 1] == short.last());
    assert(short.contains(short.last()));
    lemma_found_in_longer(short, long, short.last());
}

/// The plan holds an item for a file that is copied as it is.
pub open spec fn plans_copy(
    items: Seq<ItemView>,
    capability: Seq<char>,
    relative: Seq<char>,
    probe: KnownProbe,
    bytes: Seq<u8>,
) -> bool {
    exists|item: ItemView|
        #[trigger] items.contains(item) && tells_of(
            item,
            capability,
            MigrationScope::LegacyUserHome,
            relative,
            relative,
            bytes,
        ) && (item.state is TargetExists <==> probe.target_exists) && (item.state is Ready
            <==> !probe.target_exists)
}

proof fn lemma_known_is_gathered(
    before: GatheredView,
    homes: (Seq<char>, Seq<char>),
    capability: Seq<char>,
    relative: Seq<char>,
    maximum: u64,
    probe: KnownProbe,
    bytes: Seq<u8>,
)
    requires
        after_known(Ok(before), homes, capability, relative, maximum, probe) is Ok,
        is_readable(probe.source, probe.content, maximum, bytes),
    ensures
        plans_copy(
            after_known(Ok(before), homes, capability, relative, maximum, probe)->Ok_0.items,
            capability,
            relative,
            probe,
            bytes,
        ),
        after_known(Ok(before), homes, capability, relative, maximum, probe)->Ok_0.items.len() > 0,
{
    let after = after_known(Ok(before), homes, capability, relative, maximum, probe)->Ok_0;
    let item = after.items.last();
    assert(after.items[after.items.len() - 1] == item);
    assert(after.items.contains(item));
}

proof fn lemma_copy_stays_planned(
    short: Seq<ItemView>,
    long: Seq<ItemView>,
    capability: Seq<char>,
    relative: Seq<char>,
    probe: KnownProbe,
    bytes: Seq<u8>,
)
    requires
        short.is_prefix_of(long),
        plans_copy(short, capability, relative, probe, bytes),
    ensures
        plans_copy(long, capability, relative, probe, bytes),
{
    let item = choose|item: ItemView|
        #[trigger] short.contains(item) && tells_of(
            item,
            capability,
            MigrationScope::LegacyUserHome,
            relative,
            relative,
            bytes,
        ) && (item.state is TargetExists <==> probe.target_exists) && (item.state is Ready
            <==> !probe.target_exists);
    lemma_found_in_longer(short, long, item);
}

/// No file of the legacy user home is forgotten that is to be copied: the persona's settings and
/// its soul, and the controls. They are copied to the same place below the current home.
pub proof fn lemma_every_home_file_is_planned(
    migration: SessionMigration,
    id: &str,
    probe: PlanProbe,
    r: Result<MigrationPlan, MigrationError>,
    bytes: Seq<u8>,
)
    requires
        call_ensures(SessionMigration::plan, (&migration, id, &probe), r),
        probe.wf(),
        r is Ok,
        migration.legacy() is Some,
        migration.next() is Some,
        !probe.home.legacy_location.parts().is_prefix_of(probe.home.next_location.parts()),
    ensures
        is_readable(
            probe.home.config.source,
            probe.home.config.content,
            PERSONA_CONFIG_MAX_BYTES,
            bytes,
        ) ==> plans_copy(
            r->Ok_0@.items,
            "persona"@,
            "persona/config.toml"@,
            probe.home.config,
            bytes,
        ),
        is_readable(
            probe.home.soul.source,
            probe.home.soul.content,
            PERSONA_SOUL_MAX_BYTES,
            bytes,
        ) ==> plans_copy(
            r->Ok_0@.items,
            "persona"@,
            "persona/soul.txt"@,
            probe.home.soul,
            bytes,
        ),
        is_readable(
            probe.home.settings.source,
            probe.home.settings.content,
            CONTROLS_MAX_BYTES,
            bytes,
        ) ==> plans_copy(
            r->Ok_0@.items,
            "controls"@,
            "settings.json"@,
            probe.home.settings,
            bytes,
        ),
{
    let root = migration.root();
    let nothing = GatheredView {
        items: Seq::empty(),
        warnings: Seq::empty(),
        relationships: 0,
    };
    let sessions = after_entries(root, probe.entries->Ok_0@, 0, nothing)->Ok_0;
    let workspace = after_workspace_memory(root, sessions, probe)->Ok_0;
    let before = GatheredView { relationships: 0, ..workspace };
    let home = probe.home;
    let n = home.legacy_location.parts().len() as int;
    if home.next_location.within(home.legacy_location) {
        assert(home.legacy_location.parts() =~= home.next_location.parts().subrange(0, n));
    }
    let homes = (migration.legacy()->0, migration.next()->0);
    let config_max = PERSONA_CONFIG_MAX_BYTES;
    let soul_max = PERSONA_SOUL_MAX_BYTES;
    let controls_max = CONTROLS_MAX_BYTES;
    let config = after_known(
        Ok(before),
        homes,
        "persona"@,
        "persona/config.toml"@,
        config_max,
        home.config,
    );
    let soul = after_known(
        config,
        homes,
        "persona"@,
        "persona/soul.txt"@,
        soul_max,
        home.soul,
    );
    let persona = after_persona(before, homes, home);
    let controls = after_controls(persona, homes, home);
    let done = after_home_memory(controls, homes, home);
    assert(persona is Ok && controls is Ok && done is Ok && soul is Ok && config is Ok);
    let all = r->Ok_0@.items;
    assert(done->Ok_0.items == all);
    lemma_home_memory_extends(controls->Ok_0, homes, home);
    lemma_known_extends(
        persona->Ok_0,
        homes,
        "controls"@,
        "settings.json"@,
        controls_max,
        home.settings,
    );
    assert(soul->Ok_0.items =~= soul->Ok_0.items.subrange(0, soul->Ok_0.items.len() as int));
    if let ProfilesProbe::Entries(entries) = home.profiles {
        lemma_profiles_extend(entries@, 0, homes, soul);
    }
    assert(soul->Ok_0.items.is_prefix_of(persona->Ok_0.items));
    lemma_known_extends(
        config->Ok_0,
        homes,
        "persona"@,
        "persona/soul.txt"@,
        soul_max,
        home.soul,
    );
    lemma_longer(persona->Ok_0.items, controls->Ok_0.items, all);
    lemma_longer(soul->Ok_0.items, persona->Ok_0.items, all);
    lemma_longer(config->Ok_0.items, soul->Ok_0.items, all);
    if is_readable(home.config.source, home.config.content, config_max, bytes) {
        lemma_known_is_gathered(
            before,
            homes,
            "persona"@,
            "persona/config.toml"@,
            config_max,
            home.config,
            bytes,
        );
        lemma_copy_stays_planned(
            config->Ok_0.items,
            all,
            "persona"@,
            "persona/config.toml"@,
            home.config,
            bytes,
        );
    }
    if is_readable(home.soul.source, home.soul.content, soul_max, bytes) {
        lemma_known_is_gathered(
            config->Ok_0,
            homes,
            "persona"@,
            "persona/soul.txt"@,
            soul_max,
            home.soul,
            bytes,
        );
        lemma_copy_stays_planned(
            soul->Ok_0.items,
            all,
            "persona"@,
            "persona/soul.txt"@,
            home.soul,
            bytes,
        );
    }
    if is_readable(home.settings.source, home.settings.content, controls_max, bytes) {
        lemma_known_is_gathered(
            persona->Ok_0,
            homes,
            "controls"@,
            "settings.json"@,
            controls_max,
            home.settings,
            bytes,
        );
        lemma_copy_stays_planned(
            controls->Ok_0.items,
            all,
            "controls"@,
            "settings.json"@,
            home.settings,
            bytes,
        );
    }
}

/// What is written for an item is what its source holds: the session that it projects to, with
/// its exchange; the normalized lines of a memory file; and every other file byte for byte. A
/// source that is not as it was planned is never copied.
pub proof fn lemma_copies_are_made_of_their_sources(
    migration: SessionMigration,
    item: MigrationItem,
    probe: ItemProbe,
    content: FileContent,
    readings: Vec<LineReading>,
    r: Result<CopyContent, MigrationError>,
)
    requires
        call_ensures(
            SessionMigration::copy_content,
            (&migration, &item, &probe, &content, &readings),
            r,
        ),
        r is Ok,
    ensures
        content matches FileContent::Found { length, bytes } && {
            &&& bytes@.len() == item@.source_bytes
            &&& fnv1a(bytes@) == item@.source_fingerprint
            &&& item@.capability != "sessions"@ && item@.capability != "memory"@ ==> (
            r->Ok_0 matches CopyContent::Bytes(written) && written@ == bytes@)
            &&& item@.capability == "memory"@ ==> (r->Ok_0 matches CopyContent::Bytes(written)
                && normalized_file(bytes@, readings@) matches Ok(normalized) && written@
                == normalized.0)
            &&& item@.capability == "sessions"@ ==> (r->Ok_0 matches CopyContent::Session(session)
                && session@.id == item@.id && forall|
                value: JsonView,
                prompt: Seq<char>,
                reply: Seq<char>,
            |
                parsed_json(bytes@) == Ok::<JsonView, Seq<char>>(value) && value.names_once()
                    && #[trigger] value.has("prompt"@, JsonView::Text(prompt))
                    && #[trigger] value.has("final_response"@, JsonView::Text(reply))
                    ==> session@.messages.len() == 2 && is_said(
                    session@.messages[0],
                    ChatRole::User,
                    prompt,
                ) && is_said(session@.messages[1], ChatRole::Assistant, reply))
        },
{
    reveal_strlit("sessions");
    reveal_strlit("memory");
    assert("sessions"@.len() != "memory"@.len());
    let bytes = content->bytes@;
    if item@.capability == "sessions"@ {
        let session = r->Ok_0->Session_0;
        assert forall|value: JsonView, prompt: Seq<char>, reply: Seq<char>|
            parsed_json(bytes) == Ok::<JsonView, Seq<char>>(value) && value.names_once()
                && #[trigger] value.has("prompt"@, JsonView::Text(prompt)) && #[trigger] value.has(
                "final_response"@,
                JsonView::Text(reply),
            ) implies session@.messages.len() == 2 && is_said(
            session@.messages[0],
            ChatRole::User,
            prompt,
        ) && is_said(session@.messages[1], ChatRole::Assistant, reply) by {
            crate::storage::record::lemma_legacy_exchange_is_kept(value, prompt);
        }
    }
}

/// A copy counts as made exactly if the place was free and the move worked; it is then known by
/// its length and its fingerprint. A place that was taken is reported and left alone.
pub proof fn lemma_copies_are_concluded_honestly(
    written: Vec<u8>,
    taken_before: bool,
    moved: Result<(), String>,
    taken_after: bool,
    target: &str,
    r: Result<CopyOutcome, MigrationError>,
)
    requires
        call_ensures(conclude_copy, (&written, taken_before, moved, taken_after, target), r),
    ensures
        !taken_before && moved is Ok <==> (r matches Ok(CopyOutcome::Copied { .. })),
        r matches Ok(CopyOutcome::Copied { target_bytes, target_fingerprint }) ==> target_bytes
            == written@.len() as u64 && target_fingerprint == fnv1a(written@),
        r is Err <==> !taken_before && moved is Err && !taken_after,
{
}

/// The plan holds an item for a memory file of the legacy user home, if it is there.
pub open spec fn plans_home_memory(
    items: Seq<ItemView>,
    relative: Seq<char>,
    probe: Option<MemoryProbe>,
    bytes: Seq<u8>,
) -> bool {
    probe is Some && is_readable(
        probe->0.source,
        probe->0.content,
        MAX_MEMORY_MIGRATION_FILE_BYTES,
        bytes,
    ) ==> plans_memory(
        items,
        MigrationScope::LegacyUserHome,
        relative,
        relative,
        probe->0,
        bytes,
    )
}

proof fn lemma_user_memory_is_gathered(
    before: GatheredView,
    homes: (Seq<char>, Seq<char>),
    relative: Seq<char>,
    probe: Option<MemoryProbe>,
    all: Seq<ItemView>,
    bytes: Seq<u8>,
)
    requires
        after_user_memory(Ok(before), homes, relative, probe) is Ok,
        after_user_memory(Ok(before), homes, relative, probe)->Ok_0.items.is_prefix_of(all),
    ensures
        plans_home_memory(all, relative, probe, bytes),
        before.items.is_prefix_of(all),
{
    let scope = MigrationScope::LegacyUserHome;
    if probe is Some {
        let after = after_memory(Ok(before), scope, homes, (relative, relative), probe->0)->Ok_0;
        lemma_memory_extends(before, scope, homes, (relative, relative), probe->0);
        lemma_longer(before.items, after.items, all);
        if is_readable(
            probe->0.source,
            probe->0.content,
            MAX_MEMORY_MIGRATION_FILE_BYTES,
            bytes,
        ) {
            lemma_memory_is_gathered(before, scope, homes, (relative, relative), probe->0, bytes);
            lemma_last_is_kept(after.items, all);
        }
    }
}

/// No memory file of the legacy user home is forgotten, where the homes are migrated at all.
pub proof fn lemma_every_home_memory_file_is_planned(
    migration: SessionMigration,
    id: &str,
    probe: PlanProbe,
    r: Result<MigrationPlan, MigrationError>,
    bytes: Seq<u8>,
)
    requires
        call_ensures(SessionMigration::plan, (&migration, id, &probe), r),
        probe.wf(),
        r is Ok,
        migration.legacy() is Some,
        migration.next() is Some,
        !probe.home.legacy_location.parts().is_prefix_of(probe.home.next_location.parts()),
    ensures
        plans_home_memory(
            r->Ok_0@.items,
            "memory/global-memory.jsonl"@,
            probe.home.global_memory,
            bytes,
        ),
        plans_home_memory(
            r->Ok_0@.items,
            "memory/pending.jsonl"@,
            probe.home.pending_memory,
            bytes,
        ),
        plans_home_memory(
            r->Ok_0@.items,
            "memory/workspace-memory.jsonl"@,
            probe.home.workspace_memory,
            bytes,
        ),
{
    let home = probe.home;
    let n = home.legacy_location.parts().len() as int;
    if home.next_location.within(home.legacy_location) {
        assert(home.legacy_location.parts() =~= home.next_location.parts().subrange(0, n));
    }
    let root = migration.root();
    let nothing = GatheredView {
        items: Seq::empty(),
        warnings: Seq::empty(),
        relationships: 0,
    };
    let sessions = after_entries(root, probe.entries->Ok_0@, 0, nothing)->Ok_0;
    let workspace = after_workspace_memory(root, sessions, probe)->Ok_0;
    let before = GatheredView { relationships: 0, ..workspace };
    let homes = (migration.legacy()->0, migration.next()->0);
    let controls = after_controls(after_persona(before, homes, home), homes, home);
    assert(after_home_memory(controls, homes, home) is Ok);
    let all = r->Ok_0@.items;
    let one = "memory/global-memory.jsonl"@;
    let two = "memory/pending.jsonl"@;
    let three = "memory/workspace-memory.jsonl"@;
    let first = after_user_memory(controls, homes, one, home.global_memory);
    let second = after_user_memory(first, homes, two, home.pending_memory);
    let third = after_user_memory(second, homes, three, home.workspace_memory);
    assert(controls is Ok && first is Ok && second is Ok && third is Ok);
    assert(third->Ok_0.items == all);
    assert(all =~= all.subrange(0, all.len() as int));
    lemma_user_memory_is_gathered(second->Ok_0, homes, three, home.workspace_memory, all, bytes);
    lemma_user_memory_is_gathered(first->Ok_0, homes, two, home.pending_memory, all, bytes);
    lemma_user_memory_is_gathered(controls->Ok_0, homes, one, home.global_memory, all, bytes);
}

proof fn lemma_profile_is_gathered(
    entries: Seq<ProfileEntry>,
    i: int,
    homes: (Seq<char>, Seq<char>),
    so_far: Result<GatheredView, MigrationErrorView>,
    k: int,
    bytes: Seq<u8>,
)
    requires
        0 <= i <= k < entries.len(),
        k < MAX_SCANNED_FILES,
        after_profiles(entries, i, homes, so_far) is Ok,
        entries[k] is File,
        ends_in(entries[k]->name@, ".json"@, true),
        is_readable(
            entries[k]->probe.source,
            entries[k]->probe.content,
            PERSONA_PROFILE_MAX_BYTES,
            bytes,
        ),
    ensures
        plans_copy(
            after_profiles(entries, i, homes, so_far)->Ok_0.items,
            "persona"@,
            profile_path(entries[k]->name@),
            entries[k]->probe,
            bytes,
        ),
    decreases k - i,
{
    assert(so_far is Ok);
    let before = so_far->Ok_0;
    let next = after_profile(entries[i], homes, before);
    assert(after_profiles(entries, i, homes, so_far) == after_profiles(entries, i + 1, homes, next));
    lemma_profiles_extend(entries, i + 1, homes, next);
    assert(next is Ok);
    if i < k {
        lemma_profile_is_gathered(entries, i + 1, homes, next, k, bytes);
    } else {
        let path = profile_path(entries[k]->name@);
        let maximum = PERSONA_PROFILE_MAX_BYTES;
        lemma_known_is_gathered(
            before,
            homes,
            "persona"@,
            path,
            maximum,
            entries[k]->probe,
            bytes,
        );
        lemma_copy_stays_planned(
            next->Ok_0.items,
            after_profiles(entries, i, homes, so_far)->Ok_0.items,
            "persona"@,
            path,
            entries[k]->probe,
            bytes,
        );
    }
}

/// No profile of a persona is forgotten: each file of the profiles directory whose name says that
/// it is JSON is copied under its name, as far as files are looked at.
pub proof fn lemma_every_profile_is_planned(
    migration: SessionMigration,
    id: &str,
    probe: PlanProbe,
    r: Result<MigrationPlan, MigrationError>,
    entries: Vec<ProfileEntry>,
    k: int,
    stem: Seq<char>,
    bytes: Seq<u8>,
)
    requires
        call_ensures(SessionMigration::plan, (&migration, id, &probe), r),
        probe.wf(),
        r is Ok,
        migration.legacy() is Some,
        migration.next() is Some,
        !probe.home.legacy_location.parts().is_prefix_of(probe.home.next_location.parts()),
        probe.home.profiles == ProfilesProbe::Entries(entries),
        0 <= k < entries@.len(),
        k < MAX_SCANNED_FILES,
        entries@[k] is File,
        entries@[k]->name@ == stem + ".json"@,
        stem.len() > 0,
        !(stem + ".json"@).contains('\\'),
        is_readable(
            entries@[k]->probe.source,
            entries@[k]->probe.content,
            PERSONA_PROFILE_MAX_BYTES,
            bytes,
        ),
    ensures
        plans_copy(
            r->Ok_0@.items,
            "persona"@,
            "persona/profiles/"@ + stem + ".json"@,
            entries@[k]->probe,
            bytes,
        ),
{
    let home = probe.home;
    let n = home.legacy_location.parts().len() as int;
    if home.next_location.within(home.legacy_location) {
        assert(home.legacy_location.parts() =~= home.next_location.parts().subrange(0, n));
    }
    let root = migration.root();
    let nothing = GatheredView {
        items: Seq::empty(),
        warnings: Seq::empty(),
        relationships: 0,
    };
    let sessions = after_entries(root, probe.entries->Ok_0@, 0, nothing)->Ok_0;
    let workspace = after_workspace_memory(root, sessions, probe)->Ok_0;
    let before = GatheredView { relationships: 0, ..workspace };
    let homes = (migration.legacy()->0, migration.next()->0);
    let config = after_known(
        Ok(before),
        homes,
        "persona"@,
        "persona/config.toml"@,
        PERSONA_CONFIG_MAX_BYTES,
        home.config,
    );
    let soul = after_known(
        config,
        homes,
        "persona"@,
        "persona/soul.txt"@,
        PERSONA_SOUL_MAX_BYTES,
        home.soul,
    );
    let persona = after_persona(before, homes, home);
    let controls = after_controls(persona, homes, home);
    let done = after_home_memory(controls, homes, home);
    assert(persona is Ok && controls is Ok && done is Ok && soul is Ok);
    assert(persona == after_profiles(entries@, 0, homes, soul));
    let name = entries@[k]->name@;
    let suffix = ".json"@;
    assert(name.skip(name.len() - suffix.len()) =~= suffix);
    reveal_strlit("persona/profiles/");
    let path = "persona/profiles/"@ + name;
    assert(profile_path(name) =~= path) by {
        assert forall|j: int| 0 <= j < path.len() implies path[j] != '\\' by {
            if j >= "persona/profiles/"@.len() {
                assert(name.contains(path[j])) by {
                    assert(path[j] == name[j - "persona/profiles/"@.len()]);
                }
            }
        }
    }
    assert(path =~= "persona/profiles/"@ + stem + ".json"@);
    lemma_profile_is_gathered(entries@, 0, homes, soul, k, bytes);
    let all = r->Ok_0@.items;
    lemma_home_memory_extends(controls->Ok_0, homes, home);
    let controls_max = CONTROLS_MAX_BYTES;
    lemma_known_extends(
        persona->Ok_0,
        homes,
        "controls"@,
        "settings.json"@,
        controls_max,
        home.settings,
    );
    lemma_longer(persona->Ok_0.items, controls->Ok_0.items, all);
    lemma_copy_stays_planned(
        persona->Ok_0.items,
        all,
        "persona"@,
        path,
        entries@[k]->probe,
        bytes,
    );
}

/// Where a home is not known, or the new one lies in the old one, nothing of a home is planned.
pub proof fn lemma_overlapping_homes_are_left_alone(
    before: GatheredView,
    legacy_home: Option<Seq<char>>,
    next_home: Option<Seq<char>>,
    probe: HomeProbe,
)
    requires
        legacy_home is None || next_home is None || probe.legacy_location.parts().is_prefix_of(
            probe.next_location.parts(),
        ),
    ensures
        after_home(before, legacy_home, next_home, probe) matches Ok((after, told)) && after
            == before && forall|k: int|
            0 <= k < told.len() ==> (#[trigger] told[k]).item_count == 0,
{
    let n = probe.legacy_location.parts().len() as int;
    if probe.legacy_location.parts().is_prefix_of(probe.next_location.parts()) {
        assert(probe.next_location.parts().take(n) =~= probe.next_location.parts().subrange(0, n));
    }
}

} // verus!

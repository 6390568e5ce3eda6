//! Which files of a session directory are read, and how sessions are listed.
use vstd::prelude::*;
use vstd::string::{StrSliceExecFns, StringExecFns};

use crate::storage::record::{SessionSnapshot, SessionView, StoredSession};
use crate::storage::store::{SessionStore, StorageError, MAX_LIST_LIMIT, MAX_SCANNED_FILES};
use crate::text::{char_count, str_eq, texts};
use crate::text_map::{lemma_text_order_is_total, lemma_text_order_is_transitive, text_less, text_lt};

verus! {

// ---------------------------------------------------------------------------
// Scanning a directory
// ---------------------------------------------------------------------------
/// One entry of a session directory. For a backup it is known whether the file that it backs up
/// is there.
pub enum DirectoryEntry {
    Unreadable(String),
    File { name: String, original_exists: bool },
}

/// What is done about an entry.
#[derive(Clone, Debug, PartialEq, Eq)]
pub enum ScanStep {
    Warn(String),
    ReadNext(String),
    ReadLegacy(String),
}

pub enum ScanStepView {
    Warn(Seq<char>),
    ReadNext(Seq<char>),
    ReadLegacy(Seq<char>),
}

impl View for ScanStep {
    type V = ScanStepView;

    open spec fn view(&self) -> ScanStepView {
        match *self {
            ScanStep::Warn(text) => ScanStepView::Warn(text@),
            ScanStep::ReadNext(name) => ScanStepView::ReadNext(name@),
            ScanStep::ReadLegacy(name) => ScanStepView::ReadLegacy(name@),
        }
    }
}

pub open spec fn steps_view(steps: Seq<ScanStep>) -> Seq<ScanStepView> {
    steps.map_values(|step: ScanStep| step@)
}

/// The name ends in `suffix`, with something in front of it where `stem` asks for that.
pub open spec fn ends_in(name: Seq<char>, suffix: Seq<char>, stem: bool) -> bool {
    &&& name.len() >= suffix.len()
    &&& stem ==> name.len() > suffix.len()
    &&& name.skip(name.len() - suffix.len()) == suffix
}

pub fn name_ends_in(name: &str, suffix: &str, stem: bool) -> (r: bool)
    ensures
        r == ends_in(name@, suffix@, stem),
{
    let n = char_count(name);
    let k = char_count(suffix);
    if n < k || (stem && n == k) {
        return false;
    }
    let tail = name.substring_char(n - k, n);
    assert(tail@ =~= name@.skip(n - k));
    str_eq(tail, suffix)
}

/// The name of the file that a backup stands for.
pub open spec fn original_name(name: Seq<char>) -> Seq<char> {
    name.take(name.len() - 4)
}

/// What is done about an entry: legacy records and current ones are read, and a backup stands
/// in for a file that is missing.
pub open spec fn step_for(legacy: bool, entry: DirectoryEntry) -> Option<ScanStepView> {
    match entry {
        DirectoryEntry::Unreadable(message) => Some(
            ScanStepView::Warn("failed to read session entry: "@ + message@),
        ),
        DirectoryEntry::File { name, original_exists } => if legacy {
            if ends_in(name@, ".json"@, true) {
                Some(ScanStepView::ReadLegacy(name@))
            } else {
                None
            }
        } else if ends_in(name@, ".json"@, true) {
            Some(ScanStepView::ReadNext(name@))
        } else if ends_in(name@, ".json.bak"@, false) && !original_exists {
            Some(ScanStepView::ReadNext(original_name(name@)))
        } else {
            None
        },
    }
}

pub open spec fn steps_of(legacy: bool, entries: Seq<DirectoryEntry>) -> Seq<ScanStepView>
    decreases entries.len(),
{
    if entries.len() == 0 {
        seq![]
    } else {
        let before = steps_of(legacy, entries.drop_last());
        match step_for(legacy, entries.last()) {
            Some(step) => before.push(step),
            None => before,
        }
    }
}

/// What is done about a directory; a directory with too many entries is read only so far.
pub open spec fn scan_of(root: Seq<char>, legacy: bool, entries: Seq<DirectoryEntry>) -> Seq<
    ScanStepView,
> {
    if entries.len() <= MAX_SCANNED_FILES {
        steps_of(legacy, entries)
    } else {
        steps_of(legacy, entries.take(MAX_SCANNED_FILES as int)).push(
            ScanStepView::Warn("session scan stopped after 2000 files in "@ + root),
        )
    }
}

fn entry_step(legacy: bool, entry: &DirectoryEntry) -> (r: Option<ScanStep>)
    ensures
        r is Some == step_for(legacy, *entry) is Some,
        r is Some ==> Some(r->0@) == step_for(legacy, *entry),
{
    match entry {
        DirectoryEntry::Unreadable(message) => {
            let mut text = "failed to read session entry: ".to_owned();
            text.append(message.as_str());
            Some(ScanStep::Warn(text))
        },
        DirectoryEntry::File { name, original_exists } => {
            if legacy {
                if name_ends_in(name.as_str(), ".json", true) {
                    Some(ScanStep::ReadLegacy(name.clone()))
                } else {
                    None
                }
            } else if name_ends_in(name.as_str(), ".json", true) {
                Some(ScanStep::ReadNext(name.clone()))
            } else if name_ends_in(name.as_str(), ".json.bak", false) && !*original_exists {
                proof {
                    reveal_strlit(".json.bak");
                }
                let n = char_count(name.as_str());
                let original = name.as_str().substring_char(0, n - 4).to_owned();
                assert(original@ =~= original_name(name@));
                Some(ScanStep::ReadNext(original))
            } else {
                None
            }
        },
    }
}

/// What is done about the entries of a directory.
pub fn scan_root(root: &str, legacy: bool, entries: &Vec<DirectoryEntry>) -> (r: Vec<ScanStep>)
    ensures
        steps_view(r@) == scan_of(root@, legacy, entries@),
{
    let mut steps: Vec<ScanStep> = Vec::new();
    let mut i: usize = 0;
    assert(steps_view(steps@) =~= seq![]);
    while i < entries.len()
        invariant
            i <= entries@.len(),
            i <= MAX_SCANNED_FILES,
            steps_view(steps@) == steps_of(legacy, entries@.take(i as int)),
        decreases entries@.len() - i,
    {
        let ghost before = steps@;
        if i >= MAX_SCANNED_FILES {
            let mut text = "session scan stopped after 2000 files in ".to_owned();
            text.append(root);
            let step = ScanStep::Warn(text);
            steps.push(step);
            assert(steps_view(steps@) =~= steps_view(before).push(step@));
            return steps;
        }
        proof {
            assert(entries@.take(i + 1).drop_last() =~= entries@.take(i as int));
            assert(entries@.take(i + 1).last() == entries@[i as int]);
        }
        if let Some(step) = entry_step(legacy, &entries[i]) {
            steps.push(step);
            assert(steps_view(steps@) =~= steps_view(before).push(step@));
        }
        i += 1;
    }
    assert(entries@.take(i as int) =~= entries@);
    steps
}

/// What came of a step.
pub enum ScanOutcome {
    Warning(String),
    Record(StoredSession),
    Missing,
    Failed(StorageError),
}

/// The sessions that were found, in the order of the steps.
pub open spec fn found_sessions(outcomes: Seq<ScanOutcome>, legacy: bool) -> Seq<SnapshotView>
    decreases outcomes.len(),
{
    if outcomes.len() == 0 {
        seq![]
    } else {
        let before = found_sessions(outcomes.drop_last(), legacy);
        match outcomes.last() {
            ScanOutcome::Record(session) => before.push(SnapshotView { session: session@, legacy }),
            _ => before,
        }
    }
}

/// What went wrong, in the order of the steps.
pub open spec fn found_warnings(outcomes: Seq<ScanOutcome>) -> Seq<Seq<char>>
    decreases outcomes.len(),
{
    if outcomes.len() == 0 {
        seq![]
    } else {
        let before = found_warnings(outcomes.drop_last());
        match outcomes.last() {
            ScanOutcome::Warning(text) => before.push(text@),
            ScanOutcome::Failed(error) => before.push(error@.text()),
            _ => before,
        }
    }
}

/// Gathers what came of the steps: a broken record costs a warning, not the list.
pub fn collect_scan(outcomes: &Vec<ScanOutcome>, legacy: bool) -> (r: (
    Vec<SessionSnapshot>,
    Vec<String>,
))
    ensures
        snapshots_view(r.0@) == found_sessions(outcomes@, legacy),
        texts(r.1@) == found_warnings(outcomes@),
{
    let mut sessions: Vec<SessionSnapshot> = Vec::new();
    let mut warnings: Vec<String> = Vec::new();
    let mut i: usize = 0;
    assert(snapshots_view(sessions@) =~= seq![]);
    assert(texts(warnings@) =~= seq![]);
    while i < outcomes.len()
        invariant
            i <= outcomes@.len(),
            snapshots_view(sessions@) == found_sessions(outcomes@.take(i as int), legacy),
            texts(warnings@) == found_warnings(outcomes@.take(i as int)),
        decreases outcomes@.len() - i,
    {
        let ghost before = sessions@;
        let ghost warned = warnings@;
        proof {
            assert(outcomes@.take(i + 1).drop_last() =~= outcomes@.take(i as int));
            assert(outcomes@.take(i + 1).last() == outcomes@[i as int]);
        }
        match &outcomes[i] {
            ScanOutcome::Warning(text) => {
                warnings.push(text.clone());
                assert(texts(warnings@) =~= texts(warned).push(text@));
            },
            ScanOutcome::Record(session) => {
                let snapshot = session.snapshot(legacy);
                sessions.push(snapshot);
                assert(snapshots_view(sessions@) =~= snapshots_view(before).push(
                    snapshot_view(snapshot),
                ));
            },
            ScanOutcome::Missing => {},
            ScanOutcome::Failed(error) => {
                let text = error.to_string();
                warnings.push(text);
                assert(texts(warnings@) =~= texts(warned).push(text@));
            },
        }
        i += 1;
    }
    assert(outcomes@.take(i as int) =~= outcomes@);
    (sessions, warnings)
}

// ---------------------------------------------------------------------------
// Listing
// ---------------------------------------------------------------------------
pub struct SnapshotView {
    pub session: SessionView,
    pub legacy: bool,
}

pub open spec fn snapshot_view(snapshot: SessionSnapshot) -> SnapshotView {
    SnapshotView { session: snapshot.session@, legacy: snapshot.legacy }
}

pub open spec fn snapshots_view(snapshots: Seq<SessionSnapshot>) -> Seq<SnapshotView> {
    snapshots.map_values(|snapshot: SessionSnapshot| snapshot_view(snapshot))
}

/// A session comes before another one: pinned ones first, then the ones changed last, then by
/// identifier.
pub open spec fn precedes(a: SnapshotView, b: SnapshotView) -> bool {
    if a.session.pinned != b.session.pinned {
        a.session.pinned
    } else if a.session.updated_at_millis != b.session.updated_at_millis {
        a.session.updated_at_millis > b.session.updated_at_millis
    } else {
        text_lt(a.session.id, b.session.id)
    }
}

fn comes_before(a: &SessionSnapshot, b: &SessionSnapshot) -> (r: bool)
    ensures
        r == precedes(snapshot_view(*a), snapshot_view(*b)),
{
    if a.session.pinned != b.session.pinned {
        a.session.pinned
    } else if a.session.updated_at_millis != b.session.updated_at_millis {
        a.session.updated_at_millis > b.session.updated_at_millis
    } else {
        text_less(a.session.id.as_str(), b.session.id.as_str())
    }
}

/// The sessions that are shown.
pub open spec fn shown(sessions: Seq<SnapshotView>, include_archived: bool) -> Seq<SnapshotView>
    decreases sessions.len(),
{
    if sessions.len() == 0 {
        seq![]
    } else if include_archived || !sessions.last().session.archived {
        shown(sessions.drop_last(), include_archived).push(sessions.last())
    } else {
        shown(sessions.drop_last(), include_archived)
    }
}

/// How many sessions in front stay in front of `session`.
pub open spec fn place_of(sessions: Seq<SnapshotView>, session: SnapshotView) -> int
    decreases sessions.len(),
{
    if sessions.len() == 0 || precedes(session, sessions[0]) {
        0
    } else {
        1 + place_of(sessions.drop_first(), session)
    }
}

proof fn lemma_place(sessions: Seq<SnapshotView>, session: SnapshotView)
    ensures
        0 <= place_of(sessions, session) <= sessions.len(),
        forall|k: int|
            0 <= k < place_of(sessions, session) ==> !precedes(session, #[trigger] sessions[k]),
        place_of(sessions, session) < sessions.len() ==> precedes(
            session,
            sessions[place_of(sessions, session)],
        ),
    decreases sessions.len(),
{
    if sessions.len() == 0 || precedes(session, sessions[0]) {
    } else {
        let rest = sessions.drop_first();
        lemma_place(rest, session);
        assert forall|k: int| 0 <= k < place_of(sessions, session) implies !precedes(
            session,
            #[trigger] sessions[k],
        ) by {
            if k > 0 {
                assert(sessions[k] == rest[k - 1]);
            }
        }
    }
}

/// The sessions in the order of [`precedes`]; sessions of equal rank keep their order.
pub open spec fn ordered(sessions: Seq<SnapshotView>) -> Seq<SnapshotView>
    decreases sessions.len(),
{
    if sessions.len() == 0 {
        seq![]
    } else {
        let before = ordered(sessions.drop_last());
        before.insert(place_of(before, sessions.last()), sessions.last())
    }
}

/// The number of sessions that a list shows at most.
pub open spec fn list_limit(limit: usize) -> usize {
    if limit < 1 {
        1
    } else if limit > MAX_LIST_LIMIT {
        MAX_LIST_LIMIT
    } else {
        limit
    }
}

/// What a list shows.
pub open spec fn listed(sessions: Seq<SnapshotView>, include_archived: bool, limit: usize) -> Seq<
    SnapshotView,
> {
    let all = ordered(shown(sessions, include_archived));
    if all.len() > list_limit(limit) {
        all.take(list_limit(limit) as int)
    } else {
        all
    }
}

/// Where a session goes in a list that is in order.
fn find_place(sessions: &Vec<SessionSnapshot>, session: &SessionSnapshot) -> (r: usize)
    ensures
        r == place_of(snapshots_view(sessions@), snapshot_view(*session)),
        r <= sessions@.len(),
{
    let ghost all = snapshots_view(sessions@);
    let ghost new = snapshot_view(*session);
    let mut i: usize = 0;
    assert(all.skip(0) =~= all);
    while i < sessions.len() && !comes_before(session, &sessions[i])
        invariant
            all == snapshots_view(sessions@),
            new == snapshot_view(*session),
            i <= sessions@.len(),
            place_of(all, new) == i + place_of(all.skip(i as int), new),
        decreases sessions@.len() - i,
    {
        proof {
            assert(all.skip(i as int)[0] == snapshot_view(sessions@[i as int]));
            assert(all.skip(i as int).drop_first() =~= all.skip(i + 1));
        }
        i += 1;
    }
    proof {
        if i < sessions@.len() {
            assert(all.skip(i as int)[0] == snapshot_view(sessions@[i as int]));
        }
    }
    i
}

/// The sessions that a list shows, and whether there are more.
fn select(sessions: Vec<SessionSnapshot>, include_archived: bool, limit: usize) -> (r: (
    Vec<SessionSnapshot>,
    bool,
))
    ensures
        snapshots_view(r.0@) == listed(snapshots_view(sessions@), include_archived, limit),
        r.1 == (shown(snapshots_view(sessions@), include_archived).len() > list_limit(limit)),
        r.0@.len() <= MAX_LIST_LIMIT,
{
    let ghost all = snapshots_view(sessions@);
    let mut left = sessions;
    let mut out: Vec<SessionSnapshot> = Vec::new();
    let ghost mut done: int = 0;
    proof {
        assert(all.take(0) =~= seq![]);
        assert(snapshots_view(out@) =~= seq![]);
        assert(all.skip(0) =~= all);
    }
    while left.len() > 0
        invariant
            0 <= done <= all.len(),
            snapshots_view(left@) == all.skip(done),
            snapshots_view(out@) == ordered(shown(all.take(done), include_archived)),
        decreases left@.len(),
    {
        let ghost before = left@;
        let ghost sorted = out@;
        let session = left.remove(0);
        proof {
            assert(snapshots_view(before).len() == before.len());
            assert(done < all.len());
            assert(all.skip(done)[0] == all[done]);
            assert(snapshots_view(left@) =~= snapshots_view(before).drop_first());
            assert(all.skip(done).drop_first() =~= all.skip(done + 1));
            assert(snapshots_view(before)[0] == snapshot_view(session));
            assert(snapshots_view(left@) =~= all.skip(done + 1));
            assert(all.take(done + 1).drop_last() =~= all.take(done));
            assert(all.take(done + 1).last() == snapshot_view(session));
        }
        if include_archived || !session.session.archived {
            let at = find_place(&out, &session);
            let ghost kept = shown(all.take(done), include_archived);
            let ghost new = snapshot_view(session);
            out.insert(at, session);
            proof {
                assert(snapshots_view(out@) =~= snapshots_view(sorted).insert(at as int, new));
                assert(kept.push(new).drop_last() =~= kept);
            }
        }
        proof {
            done = done + 1;
        }
    }
    proof {
        assert(snapshots_view(left@).len() == 0);
        assert(all.take(done) =~= all);
        lemma_ordered_len(shown(all, include_archived));
    }
    let limit: usize = if limit < 1 {
        1
    } else if limit > MAX_LIST_LIMIT {
        MAX_LIST_LIMIT
    } else {
        limit
    };
    let truncated = out.len() > limit;
    let ghost full = out@;
    if truncated {
        out.truncate(limit);
        assert(snapshots_view(out@) =~= snapshots_view(full).take(limit as int));
    }
    (out, truncated)
}

/// What is listed: the sessions that are shown, what went wrong, and whether there are more.
#[derive(Debug)]
pub struct SessionListResult {
    pub sessions: Vec<SessionSnapshot>,
    pub warnings: Vec<String>,
    pub truncated: bool,
}

impl SessionStore {
    /// Everything that was found in the two directories; the legacy one counts only where legacy
    /// sessions are visible.
    pub open spec fn found(self, next: Seq<ScanOutcome>, legacy: Seq<ScanOutcome>) -> Seq<
        SnapshotView,
    > {
        if self.legacy() is Some {
            found_sessions(next, false) + found_sessions(legacy, true)
        } else {
            found_sessions(next, false)
        }
    }

    /// Lists the sessions of which scans of the two directories told.
    pub fn list(
        &self,
        next: &Vec<ScanOutcome>,
        legacy: &Vec<ScanOutcome>,
        include_archived: bool,
        limit: usize,
    ) -> (r: SessionListResult)
        ensures
            ({
                let found = self.found(next@, legacy@);
                &&& snapshots_view(r.sessions@) == listed(found, include_archived, limit)
                &&& r.truncated == (shown(found, include_archived).len() > list_limit(limit))
            }),
            r.sessions@.len() <= MAX_LIST_LIMIT,
            texts(r.warnings@) == if self.legacy() is Some {
                found_warnings(next@) + found_warnings(legacy@)
            } else {
                found_warnings(next@)
            },
    {
        let (mut sessions, mut warnings) = collect_scan(next, false);
        if self.reads_legacy() {
            let (mut older, mut more) = collect_scan(legacy, true);
            let ghost first = sessions@;
            let ghost second = older@;
            let ghost said = warnings@;
            let ghost added = more@;
            sessions.append(&mut older);
            warnings.append(&mut more);
            assert(snapshots_view(sessions@) =~= snapshots_view(first) + snapshots_view(second));
            assert(texts(warnings@) =~= texts(said) + texts(added));
        }
        let (sessions, truncated) = select(sessions, include_archived, limit);
        SessionListResult { sessions, warnings, truncated }
    }
}

proof fn lemma_ordered_len(sessions: Seq<SnapshotView>)
    ensures
        ordered(sessions).len() == sessions.len(),
    decreases sessions.len(),
{
    if sessions.len() > 0 {
        lemma_ordered_len(sessions.drop_last());
        lemma_place(ordered(sessions.drop_last()), sessions.last());
    }
}

/// The order is transitive, and no session comes before itself.
pub proof fn lemma_precedes_is_an_order(a: SnapshotView, b: SnapshotView, c: SnapshotView)
    ensures
        !precedes(a, a),
        precedes(a, b) && precedes(b, c) ==> precedes(a, c),
{
    lemma_text_order_is_total(a.session.id, a.session.id);
    if text_lt(a.session.id, b.session.id) && text_lt(b.session.id, c.session.id) {
        lemma_text_order_is_transitive(a.session.id, b.session.id, c.session.id);
    }
}

/// A list loses and invents nothing, and stands in the right order: no session comes before
/// one that stands in front of it.
pub proof fn lemma_list_is_in_order(sessions: Seq<SnapshotView>)
    ensures
        ordered(sessions).to_multiset() == sessions.to_multiset(),
        forall|i: int, j: int|
            0 <= i < j < ordered(sessions).len() ==> !precedes(
                #[trigger] ordered(sessions)[j],
                #[trigger] ordered(sessions)[i],
            ),
    decreases sessions.len(),
{
    if sessions.len() > 0 {
        let shorter = sessions.drop_last();
        let new = sessions.last();
        lemma_list_is_in_order(shorter);
        let before = ordered(shorter);
        let at = place_of(before, new);
        lemma_place(before, new);
        let after = before.insert(at, new);
        assert(after.to_multiset() =~= before.to_multiset().insert(new)) by {
            vstd::seq_lib::to_multiset_insert(before, at, new);
        }
        assert(sessions.to_multiset() =~= shorter.to_multiset().insert(new)) by {
            assert(sessions =~= shorter.push(new));
            vstd::seq_lib::to_multiset_insert(shorter, shorter.len() as int, new);
            assert(shorter.insert(shorter.len() as int, new) =~= sessions);
        }
        assert forall|i: int, j: int| 0 <= i < j < after.len() implies !precedes(
            #[trigger] after[j],
            #[trigger] after[i],
        ) by {
            if j < at {
                assert(!precedes(before[j], before[i]));
            } else if j == at {
                assert(!precedes(new, before[i]));
            } else if i < at {
                assert(!precedes(before[j - 1], before[i]));
            } else if i == at {
                let first = before[at];
                assert(precedes(new, first));
                if precedes(before[j - 1], new) {
                    lemma_precedes_is_an_order(before[j - 1], new, first);
                    lemma_precedes_is_an_order(first, first, first);
                    if j - 1 > at {
                        assert(!precedes(before[j - 1], before[at]));
                    }
                }
            } else {
                assert(!precedes(before[j - 1], before[i - 1]));
            }
        }
    } else {
        assert(ordered(sessions) =~= sessions);
    }
}

/// Archived sessions are listed only when they are asked for.
pub proof fn lemma_archived_sessions_are_hidden(sessions: Seq<SnapshotView>)
    ensures
        forall|k: int|
            0 <= k < shown(sessions, false).len() ==> !(#[trigger] shown(
                sessions,
                false,
            )[k]).session.archived,
        shown(sessions, true) == sessions,
    decreases sessions.len(),
{
    if sessions.len() > 0 {
        lemma_archived_sessions_are_hidden(sessions.drop_last());
        assert(shown(sessions, true) =~= sessions);
    } else {
        assert(shown(sessions, true) =~= sessions);
    }
}

// ---------------------------------------------------------------------------
// What lists hold
// ---------------------------------------------------------------------------
/// A list hides archived sessions and nothing else: every other session that was found is shown,
/// as often as it was found.
pub proof fn lemma_every_open_session_is_shown(sessions: Seq<SnapshotView>, session: SnapshotView)
    ensures
        shown(sessions, false).to_multiset().count(session) == if session.session.archived {
            0
        } else {
            sessions.to_multiset().count(session)
        },
        shown(sessions, true).to_multiset().count(session) == sessions.to_multiset().count(session),
    decreases sessions.len(),
{
    lemma_archived_sessions_are_hidden(sessions);
    if sessions.len() > 0 {
        let rest = sessions.drop_last();
        let last = sessions.last();
        lemma_every_open_session_is_shown(rest, session);
        assert(rest.push(last) =~= sessions);
        rest.to_multiset_ensures();
        shown(rest, false).to_multiset_ensures();
        assert(sessions.to_multiset() =~= rest.to_multiset().insert(last));
        assert(shown(rest, false).push(last).to_multiset() =~= shown(
            rest,
            false,
        ).to_multiset().insert(last));
    } else {
        assert(shown(sessions, false) =~= sessions);
        sessions.to_multiset_ensures();
        assert(sessions.contains(session) <==> sessions.to_multiset().count(session) > 0);
    }
}

/// How many of the sessions are not archived.
pub open spec fn open_count(sessions: Seq<SnapshotView>) -> nat
    decreases sessions.len(),
{
    if sessions.len() == 0 {
        0
    } else {
        open_count(sessions.drop_last()) + if sessions.last().session.archived {
            0nat
        } else {
            1nat
        }
    }
}

proof fn lemma_shown_count(sessions: Seq<SnapshotView>)
    ensures
        shown(sessions, false).len() == open_count(sessions),
    decreases sessions.len(),
{
    if sessions.len() > 0 {
        lemma_shown_count(sessions.drop_last());
    }
}

/// A list is complete while it has room: with no more open sessions than were asked for, each of
/// them is listed; with more, the list is as long as was asked for.
pub proof fn lemma_lists_are_complete(sessions: Seq<SnapshotView>, limit: usize)
    requires
        1 <= limit <= MAX_LIST_LIMIT,
    ensures
        open_count(sessions) <= limit ==> listed(sessions, false, limit).len() == open_count(
            sessions,
        ),
        open_count(sessions) > limit ==> listed(sessions, false, limit).len() == limit,
        open_count(sessions) <= limit ==> forall|k: int|
            0 <= k < sessions.len() && !(#[trigger] sessions[k]).session.archived ==> listed(
                sessions,
                false,
                limit,
            ).contains(sessions[k]),
        sessions.len() <= limit ==> forall|k: int|
            0 <= k < sessions.len() ==> listed(sessions, true, limit).contains(
                #[trigger] sessions[k],
            ),
{
    let open = shown(sessions, false);
    lemma_shown_count(sessions);
    lemma_ordered_len(open);
    lemma_list_is_in_order(open);
    lemma_archived_sessions_are_hidden(sessions);
    lemma_ordered_len(sessions);
    lemma_list_is_in_order(sessions);
    ordered(open).to_multiset_ensures();
    ordered(sessions).to_multiset_ensures();
    sessions.to_multiset_ensures();
    assert forall|k: int| 0 <= k < sessions.len() implies {
        &&& !(#[trigger] sessions[k]).session.archived ==> ordered(open).contains(sessions[k])
        &&& ordered(sessions).contains(sessions[k])
    } by {
        lemma_every_open_session_is_shown(sessions, sessions[k]);
        assert(sessions.contains(sessions[k]));
        assert(sessions.to_multiset().count(sessions[k]) > 0);
        assert(ordered(open).contains(sessions[k]) <==> ordered(open).to_multiset().count(
            sessions[k],
        ) > 0);
        assert(ordered(sessions).contains(sessions[k]) <==> ordered(sessions).to_multiset().count(
            sessions[k],
        ) > 0);
    }
}

/// A list stands in the order that its readers expect: pinned sessions come first, then those
/// that changed last, and among those that changed at the same time the identifiers ascend.
pub proof fn lemma_lists_are_sorted(
    sessions: Seq<SnapshotView>,
    include_archived: bool,
    limit: usize,
    i: int,
    j: int,
)
    requires
        0 <= i < j < listed(sessions, include_archived, limit).len(),
    ensures
        ({
            let first = listed(sessions, include_archived, limit)[i].session;
            let second = listed(sessions, include_archived, limit)[j].session;
            &&& second.pinned ==> first.pinned
            &&& first.pinned == second.pinned ==> first.updated_at_millis
                >= second.updated_at_millis
            &&& first.pinned == second.pinned && first.updated_at_millis
                == second.updated_at_millis ==> first.id == second.id || text_lt(
                first.id,
                second.id,
            )
        }),
{
    let all = shown(sessions, include_archived);
    lemma_list_is_in_order(all);
    let first = listed(sessions, include_archived, limit)[i];
    let second = listed(sessions, include_archived, limit)[j];
    assert(ordered(all)[i] == first && ordered(all)[j] == second);
    assert(!precedes(second, first));
    lemma_text_order_is_total(first.session.id, second.session.id);
}

/// What a short list leaves out comes behind all that it shows.
pub proof fn lemma_short_lists_show_the_first(
    sessions: Seq<SnapshotView>,
    include_archived: bool,
    limit: usize,
    longer: usize,
)
    requires
        1 <= limit <= longer <= MAX_LIST_LIMIT,
    ensures
        listed(sessions, include_archived, limit).is_prefix_of(
            listed(sessions, include_archived, longer),
        ),
{
    let all = ordered(shown(sessions, include_archived));
    let short = listed(sessions, include_archived, limit);
    let long = listed(sessions, include_archived, longer);
    assert(short =~= long.subrange(0, short.len() as int));
}

/// Every record that a scan has read is found, marked by the directory that it lies in.
pub proof fn lemma_every_record_is_found(outcomes: Seq<ScanOutcome>, legacy: bool, k: int)
    requires
        0 <= k < outcomes.len(),
    ensures
        outcomes[k] matches ScanOutcome::Record(session) ==> found_sessions(
            outcomes,
            legacy,
        ).contains(SnapshotView { session: session@, legacy }),
        outcomes[k] matches ScanOutcome::Warning(text) ==> found_warnings(outcomes).contains(text@),
        outcomes[k] matches ScanOutcome::Failed(error) ==> found_warnings(outcomes).contains(
            error@.text(),
        ),
    decreases outcomes.len(),
{
    let rest = outcomes.drop_last();
    let found = found_sessions(rest, legacy);
    let warned = found_warnings(rest);
    if k == outcomes.len() - 1 {
        match outcomes[k] {
            ScanOutcome::Record(session) => {
                let new = SnapshotView { session: session@, legacy };
                assert(found.push(new)[found.len() as int] == new);
            },
            ScanOutcome::Warning(text) => {
                assert(warned.push(text@)[warned.len() as int] == text@);
            },
            ScanOutcome::Failed(error) => {
                assert(warned.push(error@.text())[warned.len() as int] == error@.text());
            },
            ScanOutcome::Missing => {},
        }
    } else {
        assert(rest[k] == outcomes[k]);
        lemma_every_record_is_found(rest, legacy, k);
        let after = found_sessions(outcomes, legacy);
        let after_warned = found_warnings(outcomes);
        assert(found.is_prefix_of(after)) by {
            assert(after.subrange(0, found.len() as int) =~= found);
        }
        assert(warned.is_prefix_of(after_warned)) by {
            assert(after_warned.subrange(0, warned.len() as int) =~= warned);
        }
        match outcomes[k] {
            ScanOutcome::Record(session) => {
                let new = SnapshotView { session: session@, legacy };
                let i = choose|i: int| 0 <= i < found.len() && found[i] == new;
                assert(after.subrange(0, found.len() as int)[i] == after[i]);
            },
            ScanOutcome::Warning(text) => {
                let i = choose|i: int| 0 <= i < warned.len() && warned[i] == text@;
                assert(after_warned.subrange(0, warned.len() as int)[i] == after_warned[i]);
            },
            ScanOutcome::Failed(error) => {
                let i = choose|i: int| 0 <= i < warned.len() && warned[i] == error@.text();
                assert(after_warned.subrange(0, warned.len() as int)[i] == after_warned[i]);
            },
            ScanOutcome::Missing => {},
        }
    }
}

/// A scan finds nothing that no record says.
pub proof fn lemma_scans_invent_nothing(outcomes: Seq<ScanOutcome>, legacy: bool, i: int)
    requires
        0 <= i < found_sessions(outcomes, legacy).len(),
    ensures
        found_sessions(outcomes, legacy)[i].legacy == legacy,
        exists|k: int|
            0 <= k < outcomes.len() && (#[trigger] outcomes[k]) is Record && outcomes[k]->Record_0@
                == found_sessions(outcomes, legacy)[i].session,
    decreases outcomes.len(),
{
    let rest = outcomes.drop_last();
    let last = outcomes.len() - 1;
    if outcomes[last] is Record && i == found_sessions(rest, legacy).len() {
        assert(outcomes[last] is Record);
    } else {
        lemma_scans_invent_nothing(rest, legacy, i);
        let k = choose|k: int|
            0 <= k < rest.len() && (#[trigger] rest[k]) is Record && rest[k]->Record_0@
                == found_sessions(rest, legacy)[i].session;
        assert(outcomes[k] == rest[k]);
    }
}

/// Every readable entry is read that names a record: the names of records are kept as they are,
/// and a backup stands in for the file it was made of, as long as that file is missing.
pub proof fn lemma_records_and_orphaned_backups_are_read(
    stem: Seq<char>,
    name: String,
    original_exists: bool,
)
    requires
        stem.len() > 0,
    ensures
        ({
            let entry = DirectoryEntry::File { name, original_exists };
            &&& name@ == stem + ".json"@ ==> step_for(false, entry) == Some(
                ScanStepView::ReadNext(stem + ".json"@),
            )
            &&& name@ == stem + ".json"@ ==> step_for(true, entry) == Some(
                ScanStepView::ReadLegacy(stem + ".json"@),
            )
            &&& name@ == stem + ".json.bak"@ && !original_exists ==> step_for(false, entry) == Some(
                ScanStepView::ReadNext(stem + ".json"@),
            )
            &&& name@ == stem + ".json.bak"@ && original_exists ==> step_for(false, entry) is None
            &&& name@ == stem + ".json.bak"@ ==> step_for(true, entry) is None
        }),
{
    reveal_strlit(".json");
    reveal_strlit(".json.bak");
    let plain = stem + ".json"@;
    let backup = stem + ".json.bak"@;
    assert(plain.skip(plain.len() - 5) =~= ".json"@);
    assert(backup.skip(backup.len() - 9) =~= ".json.bak"@);
    assert(backup.take(backup.len() - 4) =~= plain);
    assert(backup.skip(backup.len() - 5)[4] == 'k');
    assert(".json"@[4] == 'n');
}

/// Every session of which a scan told is in the list, unless it is archived and archived ones were
/// not asked for, or the list is cut off; a list that is cut off is as long as it may be, and no
/// list shows an archived session that was not asked for.
pub proof fn lemma_recorded_sessions_are_listed(
    store: SessionStore,
    next: Vec<ScanOutcome>,
    legacy: Vec<ScanOutcome>,
    include_archived: bool,
    limit: usize,
    r: SessionListResult,
    k: int,
)
    requires
        call_ensures(SessionStore::list, (&store, &next, &legacy, include_archived, limit), r),
    ensures
        !r.truncated && 0 <= k < next@.len() && next@[k] is Record && (include_archived
            || !next@[k]->Record_0@.archived) ==> snapshots_view(r.sessions@).contains(
            SnapshotView { session: next@[k]->Record_0@, legacy: false },
        ),
        store.legacy() is Some && !r.truncated && 0 <= k < legacy@.len() && legacy@[k] is Record
            && (include_archived || !legacy@[k]->Record_0@.archived) ==> snapshots_view(
            r.sessions@,
        ).contains(SnapshotView { session: legacy@[k]->Record_0@, legacy: true }),
        r.truncated && 1 <= limit <= MAX_LIST_LIMIT ==> r.sessions@.len() == limit,
        0 <= k < r.sessions@.len() && !include_archived ==> !r.sessions@[k].session@.archived,
        store.legacy() is None && 0 <= k < r.sessions@.len() ==> !r.sessions@[k].legacy,
{
    let found = store.found(next@, legacy@);
    let all = shown(found, include_archived);
    let list = listed(found, include_archived, limit);
    lemma_ordered_len(all);
    lemma_list_is_in_order(all);
    ordered(all).to_multiset_ensures();
    all.to_multiset_ensures();
    found.to_multiset_ensures();
    assert(snapshots_view(r.sessions@).len() == r.sessions@.len());
    if 0 <= k < next@.len() && next@[k] is Record {
        lemma_every_record_is_found(next@, false, k);
        let one = SnapshotView { session: next@[k]->Record_0@, legacy: false };
        let i = choose|i: int|
            0 <= i < found_sessions(next@, false).len() && found_sessions(next@, false)[i] == one;
        assert(found[i] == one);
        if !r.truncated && (include_archived || !one.session.archived) {
            lemma_shown_is_listed(found, include_archived, limit, one);
        }
    }
    if store.legacy() is Some && 0 <= k < legacy@.len() && legacy@[k] is Record {
        lemma_every_record_is_found(legacy@, true, k);
        let one = SnapshotView { session: legacy@[k]->Record_0@, legacy: true };
        let first = found_sessions(next@, false);
        let i = choose|i: int|
            0 <= i < found_sessions(legacy@, true).len() && found_sessions(legacy@, true)[i] == one;
        assert(found[first.len() + i] == one);
        if !r.truncated && (include_archived || !one.session.archived) {
            lemma_shown_is_listed(found, include_archived, limit, one);
        }
    }
    if 0 <= k < r.sessions@.len() {
        let one = list[k];
        assert(snapshots_view(r.sessions@)[k] == one);
        assert(ordered(all)[k] == one);
        assert(ordered(all).contains(one));
        assert(ordered(all).to_multiset().count(one) > 0);
        assert(all.to_multiset().count(one) > 0);
        lemma_every_open_session_is_shown(found, one);
        assert(found.to_multiset().count(one) > 0);
        assert(found.contains(one));
        if store.legacy() is None {
            let i = choose|i: int| 0 <= i < found.len() && found[i] == one;
            lemma_scans_invent_nothing(next@, false, i);
        }
    }
}

proof fn lemma_shown_is_listed(
    found: Seq<SnapshotView>,
    include_archived: bool,
    limit: usize,
    one: SnapshotView,
)
    requires
        found.contains(one),
        include_archived || !one.session.archived,
        shown(found, include_archived).len() <= list_limit(limit),
    ensures
        listed(found, include_archived, limit).contains(one),
{
    let all = shown(found, include_archived);
    lemma_ordered_len(all);
    lemma_list_is_in_order(all);
    lemma_every_open_session_is_shown(found, one);
    ordered(all).to_multiset_ensures();
    found.to_multiset_ensures();
    assert(found.to_multiset().count(one) > 0);
    assert(ordered(all).to_multiset().count(one) > 0);
    assert(ordered(all).contains(one));
}

} // verus!

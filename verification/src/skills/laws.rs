//! What skills say, which of them are found, and what their actions come to.
use vstd::prelude::*;
use vstd::utf8::{decode_utf8, valid_utf8};

use crate::bounded_output::BoundedOutput;
use crate::grants::ActionGrant;
use crate::paths::Location;
use crate::skills::action::{
    action_from, action_limits, conclude, response_text, select_action, ActionEnd, ActionRecord,
    ChildTermination, ChosenAction, SkillActionExecution, SkillActionExecutor, SkillActionOutcome,
    SkillActionRequest,
};
use crate::skills::config::{is_off, SkillsConfig, SkillsConfigView};
use crate::skills::context::{
    blocks_view, context_from, context_result, context_size, context_with, skill_from, ContextView,
    SkillContextResult,
};
use crate::skills::discovery::{
    after_entries, after_entry, discover, nothing_found, read_document, DiscoveredSkill,
    DiscoverySnapshot, FoundView, RootProbe, SkillActionSpec, SkillDocument, SkillEntry,
    SkillLimits, SkillListing,
};
use crate::skills::document::{
    fence_from, header_of, header_value, header_with, split_document, HeaderView, SkillText,
};
use crate::skills::error::{DiscoveryError, SkillActionError, SkillLoadError};
use crate::text::{
    cut, is_space, join_of, lemma_cut, lines_of, lossy_text, lower_of, texts, trim_end_of, trim_of,
    utf8_len,
};
use crate::text_sort::{by_name, lemma_by_name_keeps};

verus! {

// ---------------------------------------------------------------------------
// Texts of skills
// ---------------------------------------------------------------------------
/// The line gives this key a value: the key stands in front of the first colon, in whatever case
/// and with white space around it.
pub open spec fn gives(line: Seq<char>, key: Seq<char>, value: Seq<char>) -> bool {
    exists|before: Seq<char>|
        line == #[trigger] (before + seq![':']) + value && !before.contains(':') && lower_of(
            trim_of(before),
        ) == key
}

/// The line gives this key no value.
pub open spec fn is_silent_on(line: Seq<char>, key: Seq<char>) -> bool {
    forall|value: Seq<char>| !gives(line, key, value)
}

proof fn lemma_cut_at_colon(before: Seq<char>, value: Seq<char>)
    requires
        !before.contains(':'),
    ensures
        cut((before + seq![':']) + value, ':') == before.len(),
{
    let line = (before + seq![':']) + value;
    lemma_cut(line, ':');
    let at = cut(line, ':') as int;
    if at < before.len() {
        assert(line[at] == before[at]);
        assert(before.contains(':'));
    } else if at > before.len() {
        assert(line[before.len() as int] == ':');
    }
}

proof fn lemma_header_line(line: Seq<char>, key: Seq<char>, value: Seq<char>, header: HeaderView)
    requires
        gives(line, key, value),
        key == "name"@ || key == "description"@,
    ensures
        key == "name"@ ==> header_with(line, header) == (Some(header_value(value)), header.1),
        key == "description"@ ==> header_with(line, header) == (header.0, Some(header_value(value))),
{
    reveal_strlit("name");
    reveal_strlit("description");
    let before = choose|before: Seq<char>|
        line == #[trigger] (before + seq![':']) + value && !before.contains(':') && lower_of(
            trim_of(before),
        ) == key;
    lemma_cut_at_colon(before, value);
    assert(line.take(before.len() as int) =~= before);
    assert(line.skip(before.len() as int + 1) =~= value);
    assert("name"@.len() != "description"@.len());
}

proof fn lemma_silent_line(line: Seq<char>, header: HeaderView)
    ensures
        is_silent_on(line, "name"@) ==> header_with(line, header).0 == header.0,
        is_silent_on(line, "description"@) ==> header_with(line, header).1 == header.1,
{
    reveal_strlit("name");
    reveal_strlit("description");
    assert("name"@.len() != "description"@.len());
    let at = cut(line, ':') as int;
    lemma_cut(line, ':');
    if at < line.len() {
        let before = line.take(at);
        let value = line.skip(at + 1);
        assert(line =~= (before + seq![':']) + value);
        assert(!before.contains(':')) by {
            if before.contains(':') {
                let k = choose|k: int| 0 <= k < before.len() && before[k] == ':';
                assert(line[k] == ':');
            }
        }
        let key = lower_of(trim_of(before));
        if key == "name"@ {
            assert(gives(line, "name"@, value));
        }
        if key == "description"@ {
            assert(gives(line, "description"@, value));
        }
    }
}

proof fn lemma_last_line_counts(
    lines: Seq<Seq<char>>,
    i: int,
    end: int,
    header: HeaderView,
    key: Seq<char>,
    k: int,
    value: Seq<char>,
)
    requires
        0 <= i <= k < end <= lines.len(),
        key == "name"@ || key == "description"@,
        gives(lines[k], key, value),
        forall|j: int| k < j < end ==> is_silent_on(#[trigger] lines[j], key),
    ensures
        key == "name"@ ==> header_of(lines, i, end, header).0 == Some(header_value(value)),
        key == "description"@ ==> header_of(lines, i, end, header).1 == Some(header_value(value)),
    decreases end - i,
{
    if i < k {
        lemma_last_line_counts(lines, i + 1, end, header_with(lines[i], header), key, k, value);
    } else {
        lemma_header_line(lines[k], key, value, header);
        lemma_silent_lines(lines, k + 1, end, header_with(lines[k], header), key);
    }
}

proof fn lemma_silent_lines(
    lines: Seq<Seq<char>>,
    i: int,
    end: int,
    header: HeaderView,
    key: Seq<char>,
)
    requires
        0 <= i,
        end <= lines.len(),
        key == "name"@ || key == "description"@,
        forall|j: int| i <= j < end ==> is_silent_on(#[trigger] lines[j], key),
    ensures
        key == "name"@ ==> header_of(lines, i, end, header).0 == header.0,
        key == "description"@ ==> header_of(lines, i, end, header).1 == header.1,
    decreases end - i,
{
    if i < end {
        assert(is_silent_on(lines[i], key));
        lemma_silent_line(lines[i], header);
        lemma_silent_lines(lines, i + 1, end, header_with(lines[i], header), key);
    }
}

proof fn lemma_fence_is_found(lines: Seq<Seq<char>>, i: int, end: int)
    requires
        0 <= i <= end < lines.len(),
        trim_of(lines[end]) == "---"@,
        forall|j: int| i <= j < end ==> trim_of(#[trigger] lines[j]) != "---"@,
    ensures
        fence_from(lines, i) == Some(end),
    decreases end - i,
{
    if i < end {
        assert(trim_of(lines[i]) != "---"@);
        lemma_fence_is_found(lines, i + 1, end);
    }
}

/// A value is taken without the white space around it.
pub proof fn lemma_plain_values_are_trimmed(value: Seq<char>)
    requires
        trim_of(value).len() > 0,
        trim_of(value)[0] != '"' && trim_of(value)[0] != '\'',
        trim_of(value).last() != '"' && trim_of(value).last() != '\'',
    ensures
        header_value(value) == trim_of(value),
{
}

/// A text between two fences is its header, and all that follows is its instructions: the name
/// and the description are those that the last header line for them gives.
pub proof fn lemma_headers_are_read(
    content: &str,
    r: SkillText,
    end: int,
    key: Seq<char>,
    k: int,
    value: Seq<char>,
)
    requires
        call_ensures(split_document, (content,), r),
        0 < end < lines_of(content@).len(),
        trim_of(lines_of(content@)[0]) == "---"@,
        trim_of(lines_of(content@)[end]) == "---"@,
        forall|j: int| 0 < j < end ==> trim_of(#[trigger] lines_of(content@)[j]) != "---"@,
    ensures
        r@.instructions == join_of(lines_of(content@).skip(end + 1), "\n"@),
        (key == "name"@ || key == "description"@) && 0 < k < end && gives(
            lines_of(content@)[k],
            key,
            value,
        ) && (forall|j: int| k < j < end ==> is_silent_on(#[trigger] lines_of(content@)[j], key))
            ==> {
            &&& key == "name"@ ==> r@.name == Some(header_value(value))
            &&& key == "description"@ ==> r@.description == Some(header_value(value))
        },
        (forall|j: int| 0 < j < end ==> is_silent_on(#[trigger] lines_of(content@)[j], "name"@))
            ==> r@.name is None,
{
    let lines = lines_of(content@);
    lemma_fence_is_found(lines, 1, end);
    if (key == "name"@ || key == "description"@) && 0 < k < end && gives(lines[k], key, value) && (
    forall|j: int| k < j < end ==> is_silent_on(#[trigger] lines[j], key)) {
        lemma_last_line_counts(lines, 1, end, (None, None), key, k, value);
    }
    if forall|j: int| 0 < j < end ==> is_silent_on(#[trigger] lines[j], "name"@) {
        lemma_silent_lines(lines, 1, end, (None, None), "name"@);
    }
}

/// A text that does not start with a fence is all instructions.
pub proof fn lemma_texts_without_header_are_instructions(content: &str, r: SkillText)
    requires
        call_ensures(split_document, (content,), r),
        lines_of(content@).len() == 0 || trim_of(lines_of(content@)[0]) != "---"@,
    ensures
        r@.instructions == content@,
        r@.name is None,
        r@.description is None,
{
}

/// A skill is called by its directory, and has the name, the description and the instructions of
/// its text; where the text gives no name, it has that of its directory.
pub proof fn lemma_skills_are_what_their_text_says(
    directory: &str,
    bytes: Vec<u8>,
    content: &str,
    text: SkillText,
    r: Result<SkillDocument, SkillLoadError>,
)
    requires
        call_ensures(read_document, (Some(directory), &bytes), r),
        call_ensures(split_document, (content,), text),
        valid_utf8(bytes@),
        content@ == decode_utf8(bytes@),
    ensures
        r is Ok,
        r->Ok_0@.id == lower_of(directory@),
        r->Ok_0@.instructions == text@.instructions,
        text@.name matches Some(name) ==> r->Ok_0@.name == name,
        text@.name is None ==> r->Ok_0@.name == directory@,
        text@.description matches Some(description) ==> r->Ok_0@.description == description,
        r->Ok_0@.path == directory@ + "/SKILL.md"@,
{
}

// ---------------------------------------------------------------------------
// Discovery
// ---------------------------------------------------------------------------
/// The entry holds a skill: a directory below the root with a text below the root that could be
/// read.
pub open spec fn holds_skill(root: Location, entry: SkillEntry, skill: DiscoveredSkill) -> bool {
    &&& entry.is_directory == Ok::<bool, String>(true)
    &&& entry.directory matches Ok(directory) && root.parts().is_prefix_of(directory.parts())
    &&& entry.has_file
    &&& entry.file matches Ok(file) && root.parts().is_prefix_of(file.parts())
    &&& entry.loaded == Ok::<DiscoveredSkill, SkillLoadError>(skill)
}

/// A skill of this name was found.
pub open spec fn has_skill(skills: Seq<DiscoveredSkill>, id: Seq<char>) -> bool {
    exists|k: int| 0 <= k < skills.len() && (#[trigger] skills[k]).metadata.id@ == id
}

proof fn lemma_prefix_is_within(root: Location, place: Location)
    ensures
        root.parts().is_prefix_of(place.parts()) <==> place.within(root),
{
    let n = root.parts().len() as int;
    if n <= place.parts().len() {
        assert(place.parts().take(n) =~= place.parts().subrange(0, n));
    }
}

/// Whatever has been seen so far is there, unless something was cut off.
spec fn all_seen_are_there(found: FoundView) -> bool {
    !found.truncated ==> forall|k: int|
        0 <= k < found.seen.len() ==> has_skill(found.skills, #[trigger] found.seen[k])
}

proof fn lemma_entry_keeps(
    config: SkillsConfigView,
    limits: SkillLimits,
    root: Location,
    entry: SkillEntry,
    before: FoundView,
)
    requires
        after_entry(config, limits, root, entry, before) is Ok,
        all_seen_are_there(before),
    ensures
        ({
            let after = after_entry(config, limits, root, entry, before)->Ok_0;
            &&& all_seen_are_there(after)
            &&& before.truncated ==> after.truncated
            &&& before.skills.is_prefix_of(after.skills)
        }),
{
    let after = after_entry(config, limits, root, entry, before)->Ok_0;
    assert(before.skills =~= after.skills.subrange(0, before.skills.len() as int));
    if !after.truncated {
        assert forall|k: int| 0 <= k < after.seen.len() implies has_skill(
            after.skills,
            #[trigger] after.seen[k],
        ) by {
            if k < before.seen.len() {
                assert(after.seen[k] == before.seen[k]);
                let j = choose|j: int|
                    0 <= j < before.skills.len() && (#[trigger] before.skills[j]).metadata.id@
                        == before.seen[k];
                assert(after.skills[j] == before.skills[j]);
            } else {
                let last = after.skills.len() - 1;
                assert(after.skills[last].metadata.id@ == after.seen[k]);
            }
        }
    }
}

proof fn lemma_entries_keep(
    config: SkillsConfigView,
    limits: SkillLimits,
    root: Location,
    entries: Seq<(String, SkillEntry)>,
    i: int,
    before: FoundView,
)
    requires
        0 <= i,
        after_entries(config, limits, root, entries, i, before) is Ok,
        all_seen_are_there(before),
    ensures
        ({
            let after = after_entries(config, limits, root, entries, i, before)->Ok_0;
            &&& before.truncated ==> after.truncated
            &&& before.skills.is_prefix_of(after.skills)
        }),
    decreases entries.len() - i,
{
    let after = after_entries(config, limits, root, entries, i, before)->Ok_0;
    assert(before.skills =~= before.skills.subrange(0, before.skills.len() as int));
    if i < entries.len() {
        let next = after_entry(config, limits, root, entries[i].1, before)->Ok_0;
        lemma_entry_keeps(config, limits, root, entries[i].1, before);
        lemma_entries_keep(config, limits, root, entries, i + 1, next);
        assert(before.skills =~= after.skills.subrange(0, before.skills.len() as int)) by {
            assert(next.skills =~= after.skills.subrange(0, next.skills.len() as int));
            assert forall|k: int| 0 <= k < before.skills.len() implies before.skills[k]
                == after.skills[k] by {
                assert(before.skills[k] == next.skills.subrange(0, before.skills.len() as int)[k]);
                assert(next.skills[k] == after.skills.subrange(0, next.skills.len() as int)[k]);
            }
        }
    }
}

proof fn lemma_skill_is_found(
    config: SkillsConfigView,
    limits: SkillLimits,
    root: Location,
    entries: Seq<(String, SkillEntry)>,
    i: int,
    before: FoundView,
    k: int,
    skill: DiscoveredSkill,
)
    requires
        0 <= i <= k < entries.len(),
        after_entries(config, limits, root, entries, i, before) is Ok,
        all_seen_are_there(before),
        !after_entries(config, limits, root, entries, i, before)->Ok_0.truncated,
        holds_skill(root, entries[k].1, skill),
        !is_off(config, skill.metadata.id@),
    ensures
        has_skill(
            after_entries(config, limits, root, entries, i, before)->Ok_0.skills,
            skill.metadata.id@,
        ),
    decreases entries.len() - i,
{
    let entry = entries[i].1;
    let next = after_entry(config, limits, root, entry, before)->Ok_0;
    let after = after_entries(config, limits, root, entries, i, before)->Ok_0;
    lemma_entry_keeps(config, limits, root, entry, before);
    if i < k {
        lemma_skill_is_found(config, limits, root, entries, i + 1, next, k, skill);
    } else {
        lemma_entries_keep(config, limits, root, entries, i + 1, next);
        lemma_prefix_is_within(root, entry.directory->Ok_0);
        lemma_prefix_is_within(root, entry.file->Ok_0);
        let id = skill.metadata.id@;
        assert(!next.truncated);
        assert(next.seen.contains(id)) by {
            if !before.seen.contains(id) {
                assert(next.seen[before.seen.len() as int] == id);
            }
        }
        let j = choose|j: int| 0 <= j < next.seen.len() && next.seen[j] == id;
        assert(has_skill(next.skills, next.seen[j]));
        let m = choose|m: int|
            0 <= m < next.skills.len() && (#[trigger] next.skills[m]).metadata.id@ == id;
        assert(after.skills.subrange(0, next.skills.len() as int)[m] == after.skills[m]);
    }
}

/// Every skill below the root is found: unless the discovery was cut off, there is a skill of its
/// name among those found, as long as that name is not switched off.
pub proof fn lemma_every_skill_is_found(
    config: SkillsConfig,
    limits: SkillLimits,
    probe: RootProbe,
    r: Result<DiscoverySnapshot, DiscoveryError>,
    entry: (String, SkillEntry),
    skill: DiscoveredSkill,
)
    requires
        call_ensures(discover, (&config, limits, probe), r),
        r is Ok,
        !r->Ok_0.truncated,
        probe.exists,
        probe.listing matches SkillListing::Entries(entries) && entries@.contains(entry),
        probe.resolved matches Ok(root) && holds_skill(root, entry.1, skill),
        !is_off(config@, skill.metadata.id@),
    ensures
        has_skill(r->Ok_0.skills@, skill.metadata.id@),
{
    let entries = probe.listing->Entries_0@;
    let root = probe.resolved->Ok_0;
    lemma_by_name_keeps(entries, entry);
    let all = by_name(entries);
    let k = choose|k: int| 0 <= k < all.len() && all[k] == entry;
    lemma_skill_is_found(config@, limits, root, all, 0, nothing_found(), k, skill);
}

proof fn lemma_found_is_held(
    config: SkillsConfigView,
    limits: SkillLimits,
    root: Location,
    entries: Seq<(String, SkillEntry)>,
    i: int,
    before: FoundView,
    j: int,
)
    requires
        0 <= i,
        after_entries(config, limits, root, entries, i, before) is Ok,
        before.skills.len() <= j,
        j < after_entries(config, limits, root, entries, i, before)->Ok_0.skills.len(),
    ensures
        ({
            let skill = after_entries(config, limits, root, entries, i, before)->Ok_0.skills[j];
            &&& !is_off(config, skill.metadata.id@)
            &&& exists|k: int|
                i <= k < entries.len() && holds_skill(root, (#[trigger] entries[k]).1, skill)
        }),
    decreases entries.len() - i,
{
    if i < entries.len() {
        let entry = entries[i].1;
        let next = after_entry(config, limits, root, entry, before)->Ok_0;
        if next.skills.len() <= j {
            lemma_found_is_held(config, limits, root, entries, i + 1, next, j);
        } else {
            lemma_skills_only_grow(config, limits, root, entries, i + 1, next, j);
            lemma_prefix_is_within(root, entry.directory->Ok_0);
            lemma_prefix_is_within(root, entry.file->Ok_0);
            let skill = next.skills[j];
            assert(holds_skill(root, entries[i].1, skill));
        }
    }
}

proof fn lemma_skills_only_grow(
    config: SkillsConfigView,
    limits: SkillLimits,
    root: Location,
    entries: Seq<(String, SkillEntry)>,
    i: int,
    before: FoundView,
    j: int,
)
    requires
        0 <= i,
        after_entries(config, limits, root, entries, i, before) is Ok,
        0 <= j < before.skills.len(),
    ensures
        j < after_entries(config, limits, root, entries, i, before)->Ok_0.skills.len(),
        after_entries(config, limits, root, entries, i, before)->Ok_0.skills[j]
            == before.skills[j],
    decreases entries.len() - i,
{
    if i < entries.len() {
        let next = after_entry(config, limits, root, entries[i].1, before)->Ok_0;
        assert(next.skills[j] == before.skills[j]);
        lemma_skills_only_grow(config, limits, root, entries, i + 1, next, j);
    }
}

/// Nothing is found that does not lie below the root, could not be read or is switched off.
pub proof fn lemma_only_skills_below_the_root_are_found(
    config: SkillsConfig,
    limits: SkillLimits,
    probe: RootProbe,
    r: Result<DiscoverySnapshot, DiscoveryError>,
    j: int,
)
    requires
        call_ensures(discover, (&config, limits, probe), r),
        r is Ok,
        0 <= j < r->Ok_0.skills@.len(),
    ensures
        !is_off(config@, r->Ok_0.skills@[j].metadata.id@),
        probe.listing matches SkillListing::Entries(entries) && (probe.resolved matches Ok(root)
            && exists|entry: (String, SkillEntry)|
            #[trigger] entries@.contains(entry) && holds_skill(
                root,
                entry.1,
                r->Ok_0.skills@[j],
            )),
{
    let entries = probe.listing->Entries_0@;
    let root = probe.resolved->Ok_0;
    let all = by_name(entries);
    lemma_found_is_held(config@, limits, root, all, 0, nothing_found(), j);
    let k = choose|k: int|
        0 <= k < all.len() && holds_skill(root, (#[trigger] all[k]).1, r->Ok_0.skills@[j]);
    assert(all.contains(all[k]));
    lemma_by_name_keeps(entries, all[k]);
}

/// How many tools the skills of these entries describe at most.
pub open spec fn tools_held(entries: Seq<(String, SkillEntry)>) -> nat
    decreases entries.len(),
{
    if entries.len() == 0 {
        0
    } else {
        tools_held(entries.drop_last()) + match entries.last().1.loaded {
            Ok(skill) => skill.metadata.tools@.len(),
            Err(_) => 0,
        }
    }
}

proof fn lemma_tools_held(entries: Seq<(String, SkillEntry)>, n: int)
    requires
        0 <= n < entries.len(),
    ensures
        tools_held(entries.take(n + 1)) == tools_held(entries.take(n)) + match entries[n].1.loaded {
            Ok(skill) => skill.metadata.tools@.len(),
            Err(_) => 0,
        },
        tools_held(entries.take(n + 1)) <= tools_held(entries),
    decreases entries.len() - n,
{
    assert(entries.take(n + 1).drop_last() =~= entries.take(n));
    assert(entries.take(n + 1).last() == entries[n]);
    if n + 1 < entries.len() {
        lemma_tools_held(entries, n + 1);
    } else {
        assert(entries.take(n + 1) =~= entries);
    }
}

proof fn lemma_room_suffices(
    config: SkillsConfigView,
    limits: SkillLimits,
    root: Location,
    entries: Seq<(String, SkillEntry)>,
    i: int,
    before: FoundView,
)
    requires
        0 <= i <= entries.len(),
        entries.len() <= limits.skills,
        tools_held(entries) <= limits.tool_declarations,
        !before.truncated,
        before.skills.len() <= i,
        before.tools <= tools_held(entries.take(i)),
        after_entries(config, limits, root, entries, i, before) is Ok,
    ensures
        !after_entries(config, limits, root, entries, i, before)->Ok_0.truncated,
    decreases entries.len() - i,
{
    if i < entries.len() {
        lemma_tools_held(entries, i);
        let next = after_entry(config, limits, root, entries[i].1, before)->Ok_0;
        lemma_room_suffices(config, limits, root, entries, i + 1, next);
    }
}

/// A discovery is cut off only where there are too many skills or too many tools: where there is
/// room for all of them, nothing is.
pub proof fn lemma_discovery_is_cut_off_for_a_reason(
    config: SkillsConfig,
    limits: SkillLimits,
    probe: RootProbe,
    r: Result<DiscoverySnapshot, DiscoveryError>,
    entries: Vec<(String, SkillEntry)>,
)
    requires
        call_ensures(discover, (&config, limits, probe), r),
        r is Ok,
        probe.listing == SkillListing::Entries(entries),
        by_name(entries@).len() <= limits.skills,
        tools_held(by_name(entries@)) <= limits.tool_declarations,
    ensures
        !r->Ok_0.truncated,
{
    if probe.exists {
        let all = by_name(entries@);
        assert(all.take(0) =~= Seq::<(String, SkillEntry)>::empty());
        lemma_room_suffices(config@, limits, probe.resolved->Ok_0, all, 0, nothing_found());
    }
}

// ---------------------------------------------------------------------------
// Context
// ---------------------------------------------------------------------------
proof fn lemma_first_skill(skills: Seq<DiscoveredSkill>, id: Seq<char>, i: int, at: int)
    requires
        0 <= i <= at < skills.len(),
        skills[at].metadata.id@ == id,
        forall|j: int| i <= j < at ==> (#[trigger] skills[j]).metadata.id@ != id,
    ensures
        skill_from(skills, id, i) == Some(at),
    decreases at - i,
{
    if i < at {
        assert(skills[i].metadata.id@ != id);
        lemma_first_skill(skills, id, i + 1, at);
    }
}

proof fn lemma_skill_position(skills: Seq<DiscoveredSkill>, id: Seq<char>, i: int)
    requires
        0 <= i,
    ensures
        skill_from(skills, id, i) matches Some(at) ==> i <= at < skills.len()
            && skills[at].metadata.id@ == id,
        skill_from(skills, id, i) is None ==> forall|j: int|
            i <= j < skills.len() ==> (#[trigger] skills[j]).metadata.id@ != id,
    decreases skills.len() - i,
{
    if i < skills.len() && skills[i].metadata.id@ != id {
        lemma_skill_position(skills, id, i + 1);
    }
}

proof fn lemma_context_only_grows(
    skills: Seq<DiscoveredSkill>,
    ids: Seq<Seq<char>>,
    budget: nat,
    i: int,
    before: ContextView,
)
    requires
        0 <= i,
    ensures
        before.blocks.is_prefix_of(context_from(skills, ids, budget, i, before).blocks),
        before.truncated ==> context_from(skills, ids, budget, i, before).truncated,
    decreases ids.len() - i,
{
    let after = context_from(skills, ids, budget, i, before);
    if i < ids.len() {
        let next = context_with(skills, ids[i], budget, before);
        assert(before.blocks =~= next.blocks.subrange(0, before.blocks.len() as int));
        lemma_context_only_grows(skills, ids, budget, i + 1, next);
        assert(before.blocks =~= after.blocks.subrange(0, before.blocks.len() as int)) by {
            assert(next.blocks =~= after.blocks.subrange(0, next.blocks.len() as int));
            assert forall|k: int| 0 <= k < before.blocks.len() implies before.blocks[k]
                == after.blocks[k] by {
                assert(before.blocks[k] == next.blocks.subrange(0, before.blocks.len() as int)[k]);
                assert(next.blocks[k] == after.blocks.subrange(0, next.blocks.len() as int)[k]);
            }
        }
    } else {
        assert(before.blocks =~= after.blocks.subrange(0, before.blocks.len() as int));
    }
}

proof fn lemma_block_is_there(
    skills: Seq<DiscoveredSkill>,
    ids: Seq<Seq<char>>,
    budget: nat,
    i: int,
    before: ContextView,
    k: int,
    at: int,
)
    requires
        0 <= i <= k < ids.len(),
        !context_from(skills, ids, budget, i, before).truncated,
        skill_from(skills, ids[k], 0) == Some(at),
        trim_of(skills[at].instructions@).len() > 0,
    ensures
        context_from(skills, ids, budget, i, before).blocks.contains(
            (ids[k], skills[at].instructions@),
        ),
    decreases ids.len() - i,
{
    let next = context_with(skills, ids[i], budget, before);
    let after = context_from(skills, ids, budget, i, before);
    lemma_context_only_grows(skills, ids, budget, i + 1, next);
    if i < k {
        lemma_block_is_there(skills, ids, budget, i + 1, next, k, at);
    } else {
        let block = (ids[k], skills[at].instructions@);
        assert(next.blocks[before.blocks.len() as int] == block);
        assert(after.blocks.subrange(0, next.blocks.len() as int)[before.blocks.len() as int]
            == after.blocks[before.blocks.len() as int]);
    }
}

proof fn lemma_block_is_of_a_skill(
    skills: Seq<DiscoveredSkill>,
    ids: Seq<Seq<char>>,
    budget: nat,
    i: int,
    before: ContextView,
    j: int,
)
    requires
        0 <= i,
        before.blocks.len() <= j,
        j < context_from(skills, ids, budget, i, before).blocks.len(),
    ensures
        ({
            let block = context_from(skills, ids, budget, i, before).blocks[j];
            &&& ids.contains(block.0)
            &&& exists|at: int|
                0 <= at < skills.len() && (#[trigger] skills[at]).metadata.id@ == block.0
                    && skills[at].instructions@ == block.1
        }),
    decreases ids.len() - i,
{
    if i < ids.len() {
        let next = context_with(skills, ids[i], budget, before);
        let after = context_from(skills, ids, budget, i, before);
        if next.blocks.len() <= j {
            lemma_block_is_of_a_skill(skills, ids, budget, i + 1, next, j);
        } else {
            lemma_context_only_grows(skills, ids, budget, i + 1, next);
            assert(after.blocks.subrange(0, next.blocks.len() as int)[j] == after.blocks[j]);
            lemma_skill_position(skills, ids[i], 0);
            let at = skill_from(skills, ids[i], 0)->0;
            assert(skills[at].metadata.id@ == ids[i]);
            assert(ids.contains(ids[i]));
        }
    }
}

/// Whoever asks for skills gets their instructions: unless there was no room, each that was found
/// and says something is there, word for word, and nothing else is.
pub proof fn lemma_requested_instructions_are_given(
    snapshot: DiscoverySnapshot,
    ids: Vec<String>,
    budget: usize,
    r: SkillContextResult,
    k: int,
    at: int,
)
    requires
        call_ensures(context_result, (&snapshot, &ids, budget), r),
    ensures
        !r.truncated && 0 <= k < ids@.len() && 0 <= at < snapshot.skills@.len()
            && snapshot.skills@[at].metadata.id@ == ids@[k]@ && (forall|j: int|
            0 <= j < at ==> (#[trigger] snapshot.skills@[j]).metadata.id@ != ids@[k]@) && trim_of(
            snapshot.skills@[at].instructions@,
        ).len() > 0 ==> blocks_view(r.blocks@).contains(
            (ids@[k]@, snapshot.skills@[at].instructions@),
        ),
        0 <= k < r.blocks@.len() ==> texts(ids@).contains(r.blocks@[k].skill_id@) && exists|j: int|
            0 <= j < snapshot.skills@.len() && (#[trigger] snapshot.skills@[j]).metadata.id@
                == r.blocks@[k].skill_id@ && snapshot.skills@[j].instructions@
                == r.blocks@[k].instructions@,
{
    let skills = snapshot.skills@;
    let wanted = texts(ids@);
    let start = ContextView {
        blocks: Seq::empty(),
        warnings: texts(snapshot.warnings@),
        truncated: false,
    };
    if !r.truncated && 0 <= k < ids@.len() && 0 <= at < skills.len() && skills[at].metadata.id@
        == ids@[k]@ && (forall|j: int|
        0 <= j < at ==> (#[trigger] skills[j]).metadata.id@ != ids@[k]@) && trim_of(
        skills[at].instructions@,
    ).len() > 0 {
        assert(wanted[k] == ids@[k]@);
        lemma_first_skill(skills, ids@[k]@, 0, at);
        lemma_block_is_there(skills, wanted, budget as nat, 0, start, k, at);
    }
    if 0 <= k < r.blocks@.len() {
        let blocks = context_from(skills, wanted, budget as nat, 0, start).blocks;
        assert(blocks_view(r.blocks@)[k] == (r.blocks@[k].skill_id@, r.blocks@[k].instructions@));
        lemma_block_is_of_a_skill(skills, wanted, budget as nat, 0, start, k);
    }
}

/// How many bytes the first of these texts take together.
pub open spec fn bytes_of_first(items: Seq<Seq<char>>, n: int) -> nat
    decreases n,
{
    if n <= 0 {
        0
    } else {
        bytes_of_first(items, n - 1) + utf8_len(items[n - 1])
    }
}

/// The instructions that were asked for: those of the first skill of each name, and nothing where
/// there is none.
pub open spec fn asked_for(skills: Seq<DiscoveredSkill>, ids: Seq<Seq<char>>) -> Seq<Seq<char>> {
    Seq::new(
        ids.len(),
        |k: int|
            match skill_from(skills, ids[k], 0) {
                Some(at) => skills[at].instructions@,
                None => Seq::empty(),
            },
    )
}

proof fn lemma_bytes_grow(items: Seq<Seq<char>>, n: int, m: int)
    requires
        n <= m,
    ensures
        bytes_of_first(items, n) <= bytes_of_first(items, m),
    decreases m - n,
{
    if n < m {
        lemma_bytes_grow(items, n, m - 1);
    }
}

proof fn lemma_budget_suffices(
    skills: Seq<DiscoveredSkill>,
    ids: Seq<Seq<char>>,
    budget: nat,
    i: int,
    before: ContextView,
)
    requires
        0 <= i <= ids.len(),
        bytes_of_first(asked_for(skills, ids), ids.len() as int) <= budget,
        !before.truncated,
        context_size(before.blocks) <= bytes_of_first(asked_for(skills, ids), i),
    ensures
        !context_from(skills, ids, budget, i, before).truncated,
    decreases ids.len() - i,
{
    if i < ids.len() {
        let all = asked_for(skills, ids);
        let next = context_with(skills, ids[i], budget, before);
        lemma_bytes_grow(all, i + 1, ids.len() as int);
        if next.blocks.len() > before.blocks.len() {
            assert(next.blocks.drop_last() =~= before.blocks);
        }
        lemma_budget_suffices(skills, ids, budget, i + 1, next);
    }
}

proof fn lemma_budget_is_kept(
    skills: Seq<DiscoveredSkill>,
    ids: Seq<Seq<char>>,
    budget: nat,
    i: int,
    before: ContextView,
)
    requires
        0 <= i,
        context_size(before.blocks) <= budget,
    ensures
        context_size(context_from(skills, ids, budget, i, before).blocks) <= budget,
    decreases ids.len() - i,
{
    if i < ids.len() {
        let next = context_with(skills, ids[i], budget, before);
        if next.blocks.len() > before.blocks.len() {
            assert(next.blocks.drop_last() =~= before.blocks);
        }
        lemma_budget_is_kept(skills, ids, budget, i + 1, next);
    }
}

proof fn lemma_size_is_the_sum(blocks: Seq<(Seq<char>, Seq<char>)>, items: Seq<Seq<char>>)
    requires
        items.len() == blocks.len(),
        forall|k: int| 0 <= k < blocks.len() ==> (#[trigger] blocks[k]).1 == items[k],
    ensures
        context_size(blocks) == bytes_of_first(items, blocks.len() as int),
    decreases blocks.len(),
{
    if blocks.len() > 0 {
        let n = blocks.len() - 1;
        let fewer = items.drop_last();
        lemma_size_is_the_sum(blocks.drop_last(), fewer);
        assert(blocks[n] == blocks.last());
        lemma_same_first(fewer, items, n);
    }
}

proof fn lemma_same_first(a: Seq<Seq<char>>, b: Seq<Seq<char>>, n: int)
    requires
        n <= a.len(),
        n <= b.len(),
        forall|k: int| 0 <= k < n ==> #[trigger] a[k] == b[k],
    ensures
        bytes_of_first(a, n) == bytes_of_first(b, n),
    decreases n,
{
    if n > 0 {
        lemma_same_first(a, b, n - 1);
    }
}

/// Instructions are left out only where there is no room: where all that was asked for fits, none
/// are, and what is given always fits.
pub proof fn lemma_budgets_are_kept_and_used(
    snapshot: DiscoverySnapshot,
    ids: Vec<String>,
    budget: usize,
    r: SkillContextResult,
    given: Seq<Seq<char>>,
)
    requires
        call_ensures(context_result, (&snapshot, &ids, budget), r),
        given.len() == r.blocks@.len(),
        forall|k: int| 0 <= k < given.len() ==> #[trigger] given[k] == r.blocks@[k].instructions@,
    ensures
        bytes_of_first(given, given.len() as int) <= budget,
        bytes_of_first(asked_for(snapshot.skills@, texts(ids@)), ids@.len() as int) <= budget
            ==> !r.truncated,
{
    let skills = snapshot.skills@;
    let wanted = texts(ids@);
    let start = ContextView {
        blocks: Seq::empty(),
        warnings: texts(snapshot.warnings@),
        truncated: false,
    };
    lemma_budget_is_kept(skills, wanted, budget as nat, 0, start);
    let blocks = blocks_view(r.blocks@);
    assert forall|k: int| 0 <= k < blocks.len() implies (#[trigger] blocks[k]).1 == given[k] by {
        assert(given[k] == r.blocks@[k].instructions@);
    }
    lemma_size_is_the_sum(blocks, given);
    if bytes_of_first(asked_for(skills, wanted), wanted.len() as int) <= budget {
        lemma_budget_suffices(skills, wanted, budget as nat, 0, start);
    }
}

// ---------------------------------------------------------------------------
// Actions
// ---------------------------------------------------------------------------
proof fn lemma_first_action(actions: Seq<SkillActionSpec>, tool: Seq<char>, i: int)
    requires
        0 <= i,
    ensures
        action_from(actions, tool, i) matches Some(at) ==> i <= at < actions.len()
            && actions[at].tool_name@ == tool,
        action_from(actions, tool, i) is None ==> forall|j: int|
            i <= j < actions.len() ==> (#[trigger] actions[j]).tool_name@ != tool,
    decreases actions.len() - i,
{
    if i < actions.len() && actions[i].tool_name@ != tool {
        lemma_first_action(actions, tool, i + 1);
    }
}

/// The action that is run is the one that was asked for: of the skill and for the tool that the
/// request names. One that writes is run only with leave to write; otherwise an action that is
/// declared once is always found.
pub proof fn lemma_requested_action_is_chosen(
    skills: Vec<DiscoveredSkill>,
    request: SkillActionRequest,
    grant: ActionGrant,
    r: Result<(usize, usize), SkillActionError>,
    at: int,
)
    requires
        call_ensures(select_action, (&skills, &request, &grant), r),
    ensures
        r matches Ok((skill, action)) ==> {
            &&& skill < skills@.len() && skills@[skill as int].metadata.id@ == request.skill_id@
            &&& action < skills@[skill as int].actions@.len()
            &&& skills@[skill as int].actions@[action as int].tool_name@ == request.tool_name@
            &&& skills@[skill as int].actions@[action as int].requires_workspace_write
                ==> grant.allow_write
        },
        grant.allow_write && 0 <= at < skills@.len() && skills@[at].metadata.id@
            == request.skill_id@ && (forall|j: int|
            0 <= j < at ==> (#[trigger] skills@[j]).metadata.id@ != request.skill_id@) && (exists|
            k: int,
        |
            0 <= k < skills@[at].actions@.len() && (#[trigger] skills@[at].actions@[k]).tool_name@
                == request.tool_name@) ==> r is Ok,
{
    lemma_skill_position(skills@, request.skill_id@, 0);
    if let Some(skill) = skill_from(skills@, request.skill_id@, 0) {
        lemma_first_action(skills@[skill].actions@, request.tool_name@, 0);
    }
    if 0 <= at < skills@.len() && skills@[at].metadata.id@ == request.skill_id@ && (forall|j: int|
        0 <= j < at ==> (#[trigger] skills@[j]).metadata.id@ != request.skill_id@) {
        lemma_first_skill(skills@, request.skill_id@, 0, at);
    }
}

/// An action runs no longer and says no more than both it and the grant allow.
pub proof fn lemma_stricter_limit_counts(action: SkillActionSpec, grant: ActionGrant, r: (u64, usize))
    requires
        call_ensures(action_limits, (&action, &grant), r),
    ensures
        r.0 <= action.timeout_millis && r.0 <= grant.timeout_millis,
        r.1 <= action.max_output_bytes && r.1 <= grant.max_output_bytes,
        r.0 == action.timeout_millis || r.0 == grant.timeout_millis,
        r.1 == action.max_output_bytes || r.1 == grant.max_output_bytes,
{
}

/// What an action did is told as it was: for the request and by the program it was, with what it
/// said of itself; one that was stopped is told as stopped.
pub proof fn lemma_executions_tell_what_happened(
    request: SkillActionRequest,
    action: SkillActionSpec,
    record: ActionRecord,
    end: ActionEnd,
    r: Result<SkillActionExecution, SkillActionError>,
)
    requires
        call_ensures(conclude, (&request, &action, record, end), r),
        record.frame_limit < usize::MAX,
        r is Ok,
    ensures
        ({
            let told = r->Ok_0@;
            &&& told.audit_id == record.audit_id@
            &&& told.skill_id == request.skill_id@
            &&& told.tool_name == request.tool_name@
            &&& told.program == action.program@
            &&& told.duration_millis == record.duration_millis
            &&& end.termination is TimedOut ==> told.outcome == SkillActionOutcome::TimedOut
                && told.exit_code is None && told.stdout.len() == 0
            &&& end.termination is Cancelled ==> told.outcome == SkillActionOutcome::Cancelled
                && told.exit_code is None && told.stdout.len() == 0
            &&& end.termination matches ChildTermination::Exited { code, success } ==> {
                &&& end.response matches Ok(response) && {
                    &&& told.stdout == response.stdout@
                    &&& told.exit_code == code && response.exit_code == code
                    &&& told.output_truncated == response.output_truncated
                    &&& told.outcome == SkillActionOutcome::Success <==> response.outcome
                        == SkillActionOutcome::Success && success
                    &&& response.outcome == SkillActionOutcome::Failed ==> told.outcome
                        == SkillActionOutcome::Failed
                    &&& response.stderr@.len() == 0 ==> told.stderr == lossy_text(
                        end.stderr.spec_bytes(),
                    )
                    &&& response.stderr@.len() > 0 ==> response.stderr@.is_prefix_of(told.stderr)
                }
            }
        }),
{
    if let ChildTermination::Exited { code, success } = end.termination {
        let response = end.response->Ok_0;
        let told = r->Ok_0@;
        if response.stderr@.len() > 0 {
            assert(response.stderr@ =~= told.stderr.subrange(0, response.stderr@.len() as int));
        }
    }
}

/// An action answers with all that it wrote, without the white space at its end, as long as that
/// was not too much and is text.
pub proof fn lemma_answers_are_what_was_written(
    stdout: BoundedOutput,
    limit: usize,
    written: Seq<u8>,
    r: Result<String, SkillActionError>,
)
    requires
        call_ensures(response_text, (&stdout, limit), r),
        stdout.holds(written),
    ensures
        r is Ok <==> written.len() <= stdout.spec_limit() && valid_utf8(written),
        r is Ok ==> r->Ok_0@.is_prefix_of(decode_utf8(written)),
        r is Ok ==> forall|k: int|
            r->Ok_0@.len() <= k < decode_utf8(written).len() ==> is_space(
                #[trigger] decode_utf8(written)[k],
            ),
{
    if r is Ok {
        lemma_trim_end_takes(decode_utf8(written));
    }
}

proof fn lemma_trim_end_takes(s: Seq<char>)
    ensures
        trim_end_of(s).is_prefix_of(s),
        forall|k: int| trim_end_of(s).len() <= k < s.len() ==> is_space(#[trigger] s[k]),
    decreases s.len(),
{
    let t = trim_end_of(s);
    if s.len() > 0 && is_space(s.last()) {
        let front = s.drop_last();
        lemma_trim_end_takes(front);
        assert(t =~= s.subrange(0, t.len() as int)) by {
            assert(t =~= front.subrange(0, t.len() as int));
        }
        assert forall|k: int| t.len() <= k < s.len() implies is_space(#[trigger] s[k]) by {
            if k < front.len() {
                assert(front[k] == s[k]);
            }
        }
    } else {
        assert(t =~= s.subrange(0, t.len() as int));
    }
}

/// The action that is run is one of the skills that were found, asked for by its skill and its
/// tool, and run only with leave.
pub proof fn lemma_chosen_actions_were_asked_for(
    executor: SkillActionExecutor,
    verdict: Result<(), String>,
    request: SkillActionRequest,
    grant: ActionGrant,
    limits: SkillLimits,
    probe: RootProbe,
    r: Result<ChosenAction, SkillActionError>,
)
    requires
        call_ensures(
            SkillActionExecutor::choose_action,
            (&executor, &verdict, &request, &grant, limits, probe),
            r,
        ),
    ensures
        r matches Ok(chosen) ==> {
            let skill = chosen.snapshot.skills@[chosen.skill as int];
            let action = skill.actions@[chosen.action as int];
            &&& chosen.skill < chosen.snapshot.skills@.len()
            &&& chosen.action < skill.actions@.len()
            &&& skill.metadata.id@ == request.skill_id@
            &&& action.tool_name@ == request.tool_name@
            &&& action.requires_workspace_write ==> grant.allow_write
            &&& verdict is Ok && executor.spec_config().actions_enabled
            &&& grant.approval is Some && grant.objection is None && !grant.allow_network
        },
{
    if let Ok(chosen) = r {
        let skills = chosen.snapshot.skills@;
        lemma_skill_position(skills, request.skill_id@, 0);
        let at = skill_from(skills, request.skill_id@, 0)->0;
        lemma_first_action(skills[at].actions@, request.tool_name@, 0);
    }
}

} // verus!

//! What memory records keep when they are brought to the current format.
use vstd::prelude::*;

use crate::storage::memory::{
    ascii_space, cjk, content_key, derived_key, fold_step, folded, line_result,
    looks_like_json_memory_file, memory_lines_of, normalize_memory_jsonl, normalize_memory_record,
    numbered, opens_object, readings_fit, record_problem,
    LineReading, MemoryKind, MemoryLayer, MemoryRecord, MemoryScopeView, MemoryView,
    NormalizedMemory,
};
use crate::storage::memory_file::{
    lemma_file_is_normalized_as_a_whole, relational_from, written_from,
};
use crate::text::{
    has_control, is_ascii_alnum, is_control, is_space, lemma_trim_takes_only_outer_space, lower,
    trim_of, utf8_len,
};

verus! {

/// A text that says something, is no longer than it may be and holds no control character.
pub open spec fn is_sound(text: Seq<char>, maximum: nat) -> bool {
    &&& exists|k: int| 0 <= k < text.len() && !is_space(#[trigger] text[k])
    &&& text.len() <= maximum
    &&& forall|k: int| 0 <= k < text.len() ==> !is_control(#[trigger] text[k])
}

/// A sound text without white space in it.
pub open spec fn is_sound_word(text: Seq<char>, maximum: nat) -> bool {
    &&& 0 < text.len() <= maximum
    &&& forall|k: int|
        0 <= k < text.len() ==> !is_control(#[trigger] text[k]) && !is_space(text[k])
}

proof fn lemma_sound_text_is_not_blank(text: Seq<char>)
    ensures
        (exists|k: int| 0 <= k < text.len() && !is_space(#[trigger] text[k])) <==> trim_of(
            text,
        ).len() > 0,
{
    if exists|k: int| 0 <= k < text.len() && !is_space(#[trigger] text[k]) {
        let k = choose|k: int| 0 <= k < text.len() && !is_space(#[trigger] text[k]);
        crate::text::lemma_trim_keeps(text, text[k]);
        assert(text.contains(text[k]));
    } else {
        crate::text::lemma_trim_leaves_no_outer_space(text);
        if trim_of(text).len() > 0 {
            crate::text::lemma_trim_keeps(text, trim_of(text)[0]);
            assert(trim_of(text).contains(trim_of(text)[0]));
            let j = choose|j: int| 0 <= j < text.len() && text[j] == trim_of(text)[0];
            assert(!is_space(text[j]));
        }
    }
}

/// A record that is in order is accepted: of a known version, with a name, with something to say,
/// and with nothing that it refers to.
pub proof fn lemma_good_records_are_accepted(
    record: MemoryRecord,
    r: Result<(MemoryRecord, bool), String>,
)
    requires
        call_ensures(normalize_memory_record, (record, true), r),
        record@.schema_version <= 3,
        is_sound_word(record@.id, 256),
        is_sound(record@.content, 65536),
        record@.source_session_id matches Some(session) ==> is_sound_word(session, 256),
        record@.scope matches MemoryScopeView::Workspace { root_fingerprint } ==> is_sound_word(
            root_fingerprint,
            256,
        ),
        record@.invalidation.supersedes.len() == 0,
        record@.invalidation.conflicts_with.len() == 0,
        record@.invalidation.superseded_by is None,
        record@.invalidation.expires_reason matches Some(reason) ==> is_sound(reason, 1024),
        record@.dedup_key.len() == 0 || is_sound(record@.dedup_key, 1024),
    ensures
        r is Ok,
{
    let view = record@;
    lemma_sound_text_is_not_blank(view.id);
    assert(!is_space(view.id[0]));
    lemma_sound_text_is_not_blank(view.content);
    lemma_sound_text_is_not_blank(view.dedup_key);
    if let Some(session) = view.source_session_id {
        lemma_sound_text_is_not_blank(session);
        assert(!is_space(session[0]));
    }
    if let MemoryScopeView::Workspace { root_fingerprint } = view.scope {
        lemma_sound_text_is_not_blank(root_fingerprint);
        assert(!is_space(root_fingerprint[0]));
    }
    if let Some(reason) = view.invalidation.expires_reason {
        lemma_sound_text_is_not_blank(reason);
    }
}

/// A record from a later version, without a name, without content, or with scores that are no
/// numbers is refused.
pub proof fn lemma_broken_records_are_refused(
    record: MemoryRecord,
    finite: bool,
    r: Result<(MemoryRecord, bool), String>,
)
    requires
        call_ensures(normalize_memory_record, (record, finite), r),
        record@.schema_version > 3 || !finite || record@.id.len() == 0 || record@.id.len() > 256
            || (exists|k: int|
            0 <= k < record@.id.len() && (is_space(#[trigger] record@.id[k]) || is_control(
                record@.id[k],
            ))) || record@.content.len() > 65536 || (forall|k: int|
            0 <= k < record@.content.len() ==> is_space(#[trigger] record@.content[k])) || (exists|
            k: int,
        |
            0 <= k < record@.content.len() && is_control(#[trigger] record@.content[k])),
    ensures
        r is Err,
{
    let view = record@;
    lemma_sound_text_is_not_blank(view.content);
    lemma_sound_text_is_not_blank(view.id);
    if exists|k: int|
        0 <= k < view.id.len() && (is_space(#[trigger] view.id[k]) || is_control(view.id[k])) {
        let k = choose|k: int|
            0 <= k < view.id.len() && (is_space(#[trigger] view.id[k]) || is_control(view.id[k]));
        if is_control(view.id[k]) {
            assert(has_control(view.id));
        }
    }
    if exists|k: int| 0 <= k < view.content.len() && is_control(#[trigger] view.content[k]) {
        assert(has_control(view.content));
    }
}

/// What a record says stays as it says it; only what it leaves open is filled in: the times from
/// the time it was made, the counts from one, its layer from its kind.
pub proof fn lemma_records_keep_what_they_say(
    record: MemoryRecord,
    finite: bool,
    r: Result<(MemoryRecord, bool), String>,
)
    requires
        call_ensures(normalize_memory_record, (record, finite), r),
        r is Ok,
    ensures
        ({
            let before = record@;
            let after = (r->Ok_0).0@;
            &&& after.id == before.id
            &&& after.content == before.content
            &&& after.scope == before.scope
            &&& after.kind == before.kind
            &&& after.source_session_id == before.source_session_id
            &&& after.sensitivity == before.sensitivity
            &&& after.status == before.status
            &&& after.created_at_millis == before.created_at_millis
            &&& after.invalidation == before.invalidation
            &&& after.temporal.event_at_millis == before.temporal.event_at_millis
            &&& after.temporal.expires_at_millis == before.temporal.expires_at_millis
            &&& after.schema_version == 3
            &&& before.updated_at_millis != 0 ==> after.updated_at_millis
                == before.updated_at_millis
            &&& before.updated_at_millis == 0 ==> after.updated_at_millis
                == before.created_at_millis
            &&& before.temporal.observed_at_millis != 0 ==> after.temporal.observed_at_millis
                == before.temporal.observed_at_millis
            &&& before.temporal.observed_at_millis == 0 ==> after.temporal.observed_at_millis
                == before.created_at_millis
            &&& before.temporal.valid_from_millis is Some ==> after.temporal.valid_from_millis
                == before.temporal.valid_from_millis
            &&& before.temporal.valid_from_millis is None && before.created_at_millis != 0
                ==> after.temporal.valid_from_millis == Some(before.created_at_millis)
            &&& before.revision != 0 ==> after.revision == before.revision
            &&& before.revision == 0 ==> after.revision == 1
            &&& before.merged_count != 0 ==> after.merged_count == before.merged_count
            &&& before.merged_count == 0 ==> after.merged_count == 1
            &&& before.layer != MemoryLayer::Unknown ==> after.layer == before.layer
            &&& (exists|k: int|
                0 <= k < before.dedup_key.len() && !is_space(#[trigger] before.dedup_key[k]))
                ==> after.dedup_key == before.dedup_key
            &&& (r->Ok_0).1 <==> before.scope == MemoryScopeView::Relationship || before.kind
                == MemoryKind::RelationshipNote || before.kind == MemoryKind::EmotionalState
        }),
{
    lemma_sound_text_is_not_blank(record@.dedup_key);
}

/// The letters, digits and ideographs of a text, in lower case and in their order.
pub open spec fn spelled(text: Seq<char>) -> Seq<char>
    decreases text.len(),
{
    if text.len() == 0 {
        text
    } else if is_ascii_alnum(text.last()) || cjk(text.last()) {
        spelled(text.drop_last()).push(lower(text.last()))
    } else {
        spelled(text.drop_last())
    }
}

proof fn lemma_lower_stays(c: char)
    ensures
        is_ascii_alnum(c) ==> is_ascii_alnum(lower(c)) && lower(lower(c)) == lower(c) && !is_space(c)
            && !is_space(lower(c)),
        cjk(c) ==> lower(c) == c && !is_ascii_alnum(c) && !is_space(c),
        is_space(c) ==> !is_ascii_alnum(c) && !cjk(c),
{
}

proof fn lemma_spelled_push(text: Seq<char>, c: char)
    ensures
        spelled(text.push(c)) == if is_ascii_alnum(c) || cjk(c) {
            spelled(text).push(lower(c))
        } else {
            spelled(text)
        },
{
    assert(text.push(c).drop_last() =~= text);
}

proof fn lemma_folding_spells_the_same(text: Seq<char>)
    ensures
        spelled(folded(text)) == spelled(text),
    decreases text.len(),
{
    if text.len() > 0 {
        let rest = text.drop_last();
        let c = text.last();
        lemma_folding_spells_the_same(rest);
        lemma_lower_stays(c);
        lemma_spelled_push(folded(rest), lower(c));
        lemma_spelled_push(folded(rest), c);
        lemma_spelled_push(folded(rest), ' ');
        assert(!is_ascii_alnum(' ') && !cjk(' '));
    }
}

proof fn lemma_spelled_between_spaces(before: Seq<char>, text: Seq<char>, after: Seq<char>)
    requires
        forall|k: int| 0 <= k < before.len() ==> is_space(#[trigger] before[k]),
        forall|k: int| 0 <= k < after.len() ==> is_space(#[trigger] after[k]),
    ensures
        spelled(before + text + after) == spelled(text),
    decreases before.len() + text.len() + after.len(),
{
    let all = before + text + after;
    if after.len() > 0 {
        let c = after[after.len() - 1];
        lemma_lower_stays(c);
        assert forall|k: int| 0 <= k < after.drop_last().len() implies is_space(
            #[trigger] after.drop_last()[k],
        ) by {
            assert(after.drop_last()[k] == after[k]);
        }
        lemma_spelled_between_spaces(before, text, after.drop_last());
        assert(all =~= (before + text + after.drop_last()).push(c));
        lemma_spelled_push(before + text + after.drop_last(), c);
    } else if text.len() > 0 {
        lemma_spelled_between_spaces(before, text.drop_last(), after);
        assert(all =~= (before + text.drop_last() + after).push(text.last()));
        lemma_spelled_push(before + text.drop_last() + after, text.last());
    } else if before.len() > 0 {
        let c = before[before.len() - 1];
        lemma_lower_stays(c);
        assert forall|k: int| 0 <= k < before.drop_last().len() implies is_space(
            #[trigger] before.drop_last()[k],
        ) by {
            assert(before.drop_last()[k] == before[k]);
        }
        lemma_spelled_between_spaces(before.drop_last(), text, after);
        assert(all =~= (before.drop_last() + text + after).push(c));
        lemma_spelled_push(before.drop_last() + text + after, c);
    } else {
        assert(all =~= text);
    }
}

/// Duplicates are told by what they spell: the key of a content keeps all of its letters, digits
/// and ideographs, so contents that spell different things have different keys; and nothing but
/// these and single spaces stands in it.
pub proof fn lemma_keys_spell_the_content(content: Seq<char>)
    ensures
        spelled(content_key(content)) == spelled(content),
        forall|k: int|
            0 <= k < content_key(content).len() ==> is_ascii_alnum(
                #[trigger] content_key(content)[k],
            ) || cjk(content_key(content)[k]) || content_key(content)[k] == ' ',
        forall|k: int|
            0 < k < content_key(content).len() ==> !(#[trigger] content_key(content)[k] == ' '
                && content_key(content)[k - 1] == ' '),
{
    lemma_folding_spells_the_same(content);
    lemma_folded_is_plain(content);
    let key = content_key(content);
    let all = folded(content);
    lemma_trim_takes_only_outer_space(all);
    let (before, after) = choose|before: Seq<char>, after: Seq<char>|
        #[trigger] (before + trim_of(all) + after) == all && crate::text::all_space(before)
            && crate::text::all_space(after);
    lemma_spelled_between_spaces(before, key, after);
    assert forall|k: int| 0 <= k < key.len() implies is_ascii_alnum(#[trigger] key[k]) || cjk(
        key[k],
    ) || key[k] == ' ' by {
        assert(all[before.len() + k] == key[k]);
    }
    assert forall|k: int| 0 < k < key.len() implies !(#[trigger] key[k] == ' ' && key[k - 1]
        == ' ') by {
        assert(all[before.len() + k] == key[k]);
        assert(all[before.len() + k - 1] == key[k - 1]);
    }
}

proof fn lemma_folded_is_plain(text: Seq<char>)
    ensures
        forall|k: int|
            0 <= k < folded(text).len() ==> is_ascii_alnum(#[trigger] folded(text)[k]) || cjk(
                folded(text)[k],
            ) || folded(text)[k] == ' ',
        forall|k: int|
            0 < k < folded(text).len() ==> !(#[trigger] folded(text)[k] == ' ' && folded(text)[k
                - 1] == ' '),
    decreases text.len(),
{
    if text.len() > 0 {
        let rest = text.drop_last();
        lemma_folded_is_plain(rest);
        lemma_lower_stays(text.last());
        let before = folded(rest);
        let after = folded(text);
        assert(after == fold_step(before, text.last()));
        assert forall|k: int| 0 <= k < after.len() implies is_ascii_alnum(#[trigger] after[k])
            || cjk(after[k]) || after[k] == ' ' by {
            if k < before.len() {
                assert(after[k] == before[k]);
            }
        }
        assert forall|k: int| 0 < k < after.len() implies !(#[trigger] after[k] == ' ' && after[k
            - 1] == ' ') by {
            assert(after[k - 1] == before[k - 1]);
            if k < before.len() {
                assert(after[k] == before[k]);
            }
        }
    }
}

/// Records of the same scope and kind whose contents differ in case alone count as duplicates.
pub proof fn lemma_case_makes_no_difference(one: MemoryView, other: MemoryView)
    requires
        one.scope == other.scope,
        one.kind == other.kind,
        one.content.len() == other.content.len(),
        forall|k: int|
            0 <= k < one.content.len() ==> #[trigger] one.content[k] == other.content[k] || (
            is_ascii_alnum(one.content[k]) && is_ascii_alnum(other.content[k]) && lower(
                one.content[k],
            ) == lower(other.content[k])),
    ensures
        derived_key(one) == derived_key(other),
{
    lemma_folded_alike(one.content, other.content);
}

proof fn lemma_folded_alike(one: Seq<char>, other: Seq<char>)
    requires
        one.len() == other.len(),
        forall|k: int|
            0 <= k < one.len() ==> #[trigger] one[k] == other[k] || (is_ascii_alnum(one[k])
                && is_ascii_alnum(other[k]) && lower(one[k]) == lower(other[k])),
    ensures
        folded(one) == folded(other),
    decreases one.len(),
{
    if one.len() > 0 {
        let a = one.drop_last();
        let b = other.drop_last();
        assert forall|k: int| 0 <= k < a.len() implies #[trigger] a[k] == b[k] || (is_ascii_alnum(
            a[k],
        ) && is_ascii_alnum(b[k]) && lower(a[k]) == lower(b[k])) by {
            assert(one[k] == a[k]);
        }
        lemma_folded_alike(a, b);
        assert(one[one.len() - 1] == one.last());
    } else {
        assert(one =~= other);
    }
}

/// Every line of a file that says something is looked at, under its number and without the white
/// space around it; blank lines are passed over.
pub proof fn lemma_every_line_is_numbered(lines: Seq<Seq<char>>, k: int)
    requires
        0 <= k < lines.len(),
    ensures
        trim_of(lines[k]).len() > 0 ==> numbered(lines).contains(
            ((k + 1) as nat, trim_of(lines[k])),
        ),
        trim_of(lines[k]).len() == 0 ==> forall|i: int|
            0 <= i < numbered(lines).len() ==> (#[trigger] numbered(lines)[i]).0 != k + 1,
    decreases lines.len(),
{
    lemma_numbers_are_places(lines);
    let rest = lines.drop_last();
    if k < rest.len() {
        lemma_every_line_is_numbered(rest, k);
        assert(rest[k] == lines[k]);
        let all = numbered(lines);
        let fewer = numbered(rest);
        if trim_of(lines[k]).len() > 0 {
            let i = choose|i: int|
                0 <= i < fewer.len() && fewer[i] == ((k + 1) as nat, trim_of(lines[k]));
            assert(all[i] == fewer[i]);
        } else {
            assert forall|i: int| 0 <= i < all.len() implies (#[trigger] all[i]).0 != k + 1 by {
                if i < fewer.len() {
                    assert(all[i] == fewer[i]);
                }
            }
        }
    } else {
        lemma_numbers_are_places(rest);
        if trim_of(lines[k]).len() > 0 {
            assert(numbered(lines)[numbered(rest).len() as int] == (
                (k + 1) as nat,
                trim_of(lines[k]),
            ));
        }
    }
}

proof fn lemma_numbers_are_places(lines: Seq<Seq<char>>)
    ensures
        forall|i: int|
            0 <= i < numbered(lines).len() ==> 1 <= (#[trigger] numbered(lines)[i]).0
                <= lines.len(),
    decreases lines.len(),
{
    if lines.len() > 0 {
        lemma_numbers_are_places(lines.drop_last());
        let fewer = numbered(lines.drop_last());
        assert forall|i: int| 0 <= i < numbered(lines).len() implies 1 <= (#[trigger] numbered(
            lines,
        )[i]).0 <= lines.len() by {
            if i < fewer.len() {
                assert(numbered(lines)[i] == fewer[i]);
            }
        }
    }
}

/// A file in which every line is in order is brought to the current format as a whole: the new
/// file has one line for each record, in the same order, and every record about the relationship
/// is counted.
pub proof fn lemma_good_files_are_normalized(
    bytes: Vec<u8>,
    readings: Vec<LineReading>,
    r: Result<NormalizedMemory, String>,
)
    requires
        call_ensures(normalize_memory_jsonl, (&bytes, &readings), r),
        memory_lines_of(bytes@) is Ok,
        readings_fit(bytes@, readings@),
        readings@.len() <= 50_000,
        forall|k: int|
            0 <= k < readings@.len() ==> {
                &&& utf8_len(memory_lines_of(bytes@)->Ok_0[k].1) <= 1024 * 1024
                &&& (#[trigger] readings@[k])@.parsed matches Ok(record) && record_problem(
                    record,
                    readings@[k]@.finite,
                ) is None
                &&& readings@[k]@.encoded matches Ok(encoded) && encoded.len() <= 1024 * 1024
            },
    ensures
        r is Ok,
        r->Ok_0.spec_bytes() == written_from(readings@, 0),
        r->Ok_0.relationships() == relational_from(readings@, 0),
{
    let lines = memory_lines_of(bytes@)->Ok_0;
    assert forall|k: int| 0 <= k < lines.len() implies line_result(
        lines[k],
        k + 1,
        #[trigger] readings@[k]@,
    ) is Ok by {
        assert(readings@[k]@.parsed is Ok);
    }
    lemma_file_is_normalized_as_a_whole(bytes@, readings@);
}

proof fn lemma_first_letter(bytes: Seq<u8>, blanks: Seq<u8>, rest: Seq<u8>)
    requires
        bytes == blanks + rest,
        forall|k: int| 0 <= k < blanks.len() ==> ascii_space(#[trigger] blanks[k]),
        rest.len() > 0,
        !ascii_space(rest[0]),
    ensures
        opens_object(bytes) <==> rest[0] == 123,
    decreases blanks.len(),
{
    if blanks.len() > 0 {
        let fewer = blanks.skip(1);
        assert(bytes[0] == blanks[0]);
        assert(ascii_space(blanks[0]));
        assert(bytes.skip(1) =~= fewer + rest);
        assert forall|k: int| 0 <= k < fewer.len() implies ascii_space(#[trigger] fewer[k]) by {
            assert(fewer[k] == blanks[k + 1]);
        }
        lemma_first_letter(bytes.skip(1), fewer, rest);
    } else {
        assert(bytes =~= rest);
    }
}

/// A file looks like one of JSON records if the first thing in it, behind whatever white space, is
/// an opening brace.
pub proof fn lemma_json_files_open_with_a_brace(
    bytes: Vec<u8>,
    r: bool,
    blanks: Seq<u8>,
    rest: Seq<u8>,
)
    requires
        call_ensures(looks_like_json_memory_file, (&bytes,), r),
        bytes@ == blanks + rest,
        forall|k: int|
            0 <= k < blanks.len() ==> (#[trigger] blanks[k]) == 32 || blanks[k] == 9 || blanks[k]
                == 10 || blanks[k] == 13,
        rest.len() > 0,
        rest[0] > 32,
    ensures
        r <==> rest[0] == 123,
{
    assert forall|k: int| 0 <= k < blanks.len() implies ascii_space(#[trigger] blanks[k]) by {}
    lemma_first_letter(bytes@, blanks, rest);
}

} // verus!

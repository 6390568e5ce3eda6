//! What holds of whole files of memory records.
use vstd::prelude::*;
use vstd::utf8::{encode_scalar, encode_utf8, encode_utf8_decode_utf8, encode_utf8_valid_utf8};

use crate::storage::memory::{
    is_relational, lemma_normalization_is_idempotent, line_result, memory_lines_of,
    normalized_file, normalized_from, normalized_record, numbered, readings_fit, record_problem,
    LineReading, LineReadingView, MAX_MEMORY_MIGRATION_FILE_BYTES,
};
use crate::text::{cut, lines_of, strip_cr, trim_of};

verus! {

/// The lines that the readings from the `i`th on are written as.
pub open spec fn written_from(readings: Seq<LineReading>, i: int) -> Seq<u8>
    decreases readings.len() - i,
{
    if i >= readings.len() {
        Seq::empty()
    } else {
        readings[i]@.encoded->Ok_0.push(10u8) + written_from(readings, i + 1)
    }
}

/// How many records from the `i`th on are about the relationship.
pub open spec fn relational_from(readings: Seq<LineReading>, i: int) -> nat
    decreases readings.len() - i,
{
    if i >= readings.len() {
        0
    } else if is_relational(readings[i]@.parsed->Ok_0) {
        1 + relational_from(readings, i + 1)
    } else {
        relational_from(readings, i + 1)
    }
}

proof fn lemma_normalized_from(
    lines: Seq<(nat, Seq<char>)>,
    readings: Seq<LineReading>,
    i: int,
    output: Seq<u8>,
    relationships: nat,
)
    requires
        0 <= i <= lines.len(),
        lines.len() == readings.len(),
    ensures
        ({
            let done = normalized_from(lines, readings, i, output, relationships);
            if forall|k: int|
                i <= k < lines.len() ==> line_result(lines[k], k + 1, #[trigger] readings[k]@)
                    is Ok {
                done == Ok::<(Seq<u8>, nat), Seq<char>>(
                    (
                        output + written_from(readings, i),
                        relationships + relational_from(readings, i),
                    ),
                )
            } else {
                done is Err
            }
        }),
    decreases lines.len() - i,
{
    if i < lines.len() {
        if let Ok(done) = line_result(lines[i], i + 1, readings[i]@) {
            let more = if done.1 {
                relationships + 1
            } else {
                relationships
            };
            lemma_normalized_from(lines, readings, i + 1, output + done.0, more);
            assert(output + done.0 + written_from(readings, i + 1) =~= output + written_from(
                readings,
                i,
            ));
        } else {
            assert(line_result(lines[i], i + 1, readings[i]@) is Err);
        }
    } else {
        assert(output + written_from(readings, i) =~= output);
    }
}

/// A file is brought to the current format as a whole or not at all: where every line is in
/// order, each of them gives one line of the new file, in the same order, and otherwise there is
/// no new file.
pub proof fn lemma_file_is_normalized_as_a_whole(bytes: Seq<u8>, readings: Seq<LineReading>)
    requires
        memory_lines_of(bytes) is Ok,
        readings_fit(bytes, readings),
    ensures
        ({
            let lines = memory_lines_of(bytes)->Ok_0;
            if forall|k: int|
                0 <= k < lines.len() ==> line_result(lines[k], k + 1, #[trigger] readings[k]@)
                    is Ok {
                normalized_file(bytes, readings) == Ok::<(Seq<u8>, nat), Seq<char>>(
                    (written_from(readings, 0), relational_from(readings, 0)),
                )
            } else {
                normalized_file(bytes, readings) is Err
            }
        }),
{
    let lines = memory_lines_of(bytes)->Ok_0;
    lemma_normalized_from(lines, readings, 0, Seq::empty(), 0);
    assert(Seq::<u8>::empty() + written_from(readings, 0) =~= written_from(readings, 0));
}

/// One line that cannot be read spoils the whole file.
pub proof fn lemma_unreadable_line_spoils_the_file(
    bytes: Seq<u8>,
    readings: Seq<LineReading>,
    k: int,
)
    requires
        memory_lines_of(bytes) is Ok,
        readings_fit(bytes, readings),
        0 <= k < readings.len(),
        readings[k]@.parsed is Err,
    ensures
        normalized_file(bytes, readings) is Err,
{
    let lines = memory_lines_of(bytes)->Ok_0;
    assert(line_result(lines[k], k + 1, readings[k]@) is Err);
    lemma_file_is_normalized_as_a_whole(bytes, readings);
}

// ---------------------------------------------------------------------------
// A second time
// ---------------------------------------------------------------------------
/// A text that can stand on a line of its own: neither blank nor broken, and without white space
/// around it.
pub open spec fn is_one_line(text: Seq<char>) -> bool {
    &&& text.len() > 0
    &&& !text.contains('\n')
    &&& !text.contains('\r')
    &&& trim_of(text) == text
}

/// The record of a reading is written as this one line, and that line is read as the record that
/// was written and written as the same line again.
pub open spec fn is_read_back(
    first: LineReadingView,
    text: Seq<char>,
    again: LineReadingView,
) -> bool {
    &&& is_one_line(text)
    &&& first.encoded == Ok::<Seq<u8>, Seq<char>>(encode_utf8(text))
    &&& again == (LineReadingView {
        parsed: Ok(normalized_record(first.parsed->Ok_0)),
        finite: true,
        encoded: first.encoded,
    })
}

/// The texts from the `i`th on, each with a line end.
spec fn joined_from(lines: Seq<Seq<char>>, i: int) -> Seq<char>
    decreases lines.len() - i,
{
    if i >= lines.len() {
        Seq::empty()
    } else {
        lines[i].push('\n') + joined_from(lines, i + 1)
    }
}

proof fn lemma_encode_concat(a: Seq<char>, b: Seq<char>)
    ensures
        encode_utf8(a + b) == encode_utf8(a) + encode_utf8(b),
    decreases a.len(),
{
    if a.len() == 0 {
        assert(a + b =~= b);
        assert(encode_utf8(a) + encode_utf8(b) =~= encode_utf8(b));
    } else {
        lemma_encode_concat(a.drop_first(), b);
        assert((a + b).drop_first() =~= a.drop_first() + b);
        assert(encode_utf8(a + b) =~= encode_utf8(a) + encode_utf8(b));
    }
}

proof fn lemma_encode_line(text: Seq<char>)
    ensures
        encode_utf8(text.push('\n')) == encode_utf8(text).push(10u8),
{
    let end = seq!['\n'];
    assert(encode_scalar('\n' as u32) =~= seq![10u8]) by {
        assert((10u32 & 0x7F) as u8 == 10u8) by (bit_vector);
    }
    assert(end.drop_first() =~= Seq::<char>::empty());
    assert(encode_utf8(end.drop_first()) =~= Seq::<u8>::empty());
    assert(encode_utf8(end) =~= seq![10u8]);
    lemma_encode_concat(text, end);
    assert(text.push('\n') =~= text + end);
    assert(encode_utf8(text).push(10u8) =~= encode_utf8(text) + seq![10u8]);
}

proof fn lemma_written_text(readings: Seq<LineReading>, lines: Seq<Seq<char>>, i: int)
    requires
        0 <= i <= readings.len(),
        lines.len() == readings.len(),
        forall|k: int|
            0 <= k < readings.len() ==> (#[trigger] readings[k])@.encoded == Ok::<
                Seq<u8>,
                Seq<char>,
            >(encode_utf8(lines[k])),
    ensures
        written_from(readings, i) == encode_utf8(joined_from(lines, i)),
    decreases readings.len() - i,
{
    if i < readings.len() {
        lemma_written_text(readings, lines, i + 1);
        lemma_encode_line(lines[i]);
        lemma_encode_concat(lines[i].push('\n'), joined_from(lines, i + 1));
    }
}

proof fn lemma_cut_at(s: Seq<char>, c: char, at: int)
    requires
        0 <= at < s.len(),
        s[at] == c,
        forall|k: int| 0 <= k < at ==> s[k] != c,
    ensures
        cut(s, c) == at,
    decreases at,
{
    if at > 0 {
        let rest = s.drop_first();
        assert forall|k: int| 0 <= k < at - 1 implies rest[k] != c by {
            assert(rest[k] == s[k + 1]);
        }
        lemma_cut_at(rest, c, at - 1);
    }
}

proof fn lemma_lines_of_joined(lines: Seq<Seq<char>>, i: int)
    requires
        0 <= i <= lines.len(),
        forall|k: int| 0 <= k < lines.len() ==> is_one_line(#[trigger] lines[k]),
    ensures
        lines_of(joined_from(lines, i)) == lines.skip(i),
    decreases lines.len() - i,
{
    let text = joined_from(lines, i);
    if i < lines.len() {
        let line = lines[i];
        let rest = joined_from(lines, i + 1);
        let at = line.len() as int;
        assert(is_one_line(line));
        assert(text == line.push('\n') + rest);
        assert forall|k: int| 0 <= k < at implies text[k] != '\n' by {
            assert(text[k] == line[k]);
            assert(line.contains(line[k]));
        }
        lemma_cut_at(text, '\n', at);
        assert(text.take(at) =~= line);
        assert(text.skip(at + 1) =~= rest);
        assert(line.contains(line.last()));
        assert(strip_cr(line) == line);
        lemma_lines_of_joined(lines, i + 1);
        assert(seq![line] + lines.skip(i + 1) =~= lines.skip(i));
    } else {
        assert(lines.skip(i) =~= Seq::<Seq<char>>::empty());
    }
}

proof fn lemma_numbered(lines: Seq<Seq<char>>)
    requires
        forall|k: int| 0 <= k < lines.len() ==> is_one_line(#[trigger] lines[k]),
    ensures
        numbered(lines) == Seq::new(lines.len(), |k: int| ((k + 1) as nat, lines[k])),
    decreases lines.len(),
{
    let want = Seq::new(lines.len(), |k: int| ((k + 1) as nat, lines[k]));
    if lines.len() > 0 {
        let shorter = lines.drop_last();
        assert forall|k: int| 0 <= k < shorter.len() implies is_one_line(#[trigger] shorter[k]) by {
            assert(shorter[k] == lines[k]);
        }
        lemma_numbered(shorter);
        assert(is_one_line(lines[lines.len() - 1]));
        assert(numbered(lines) =~= want);
    } else {
        assert(numbered(lines) =~= want);
    }
}

proof fn lemma_same_relational(
    readings: Seq<LineReading>,
    again: Seq<LineReading>,
    i: int,
)
    requires
        0 <= i,
        again.len() == readings.len(),
        forall|k: int|
            0 <= k < readings.len() ==> (#[trigger] again[k])@.encoded == readings[k]@.encoded
                && is_relational(again[k]@.parsed->Ok_0) == is_relational(
                readings[k]@.parsed->Ok_0,
            ),
    ensures
        relational_from(again, i) == relational_from(readings, i),
        written_from(again, i) == written_from(readings, i),
    decreases readings.len() - i,
{
    if i < readings.len() {
        lemma_same_relational(readings, again, i + 1);
        assert(again[i]@.encoded == readings[i]@.encoded);
    }
}

/// A file in the current format stays as it is: bringing it to that format again gives the same
/// bytes and the same count, as long as each of its records is read back as it was written.
/// Left out are files that have grown too large, and records whose derived key has grown longer
/// than a given key may be.
pub proof fn lemma_normalized_file_stays(
    bytes: Seq<u8>,
    readings: Seq<LineReading>,
    lines: Seq<Seq<char>>,
    again: Seq<LineReading>,
)
    requires
        readings_fit(bytes, readings),
        normalized_file(bytes, readings) is Ok,
        normalized_file(bytes, readings)->Ok_0.0.len() <= MAX_MEMORY_MIGRATION_FILE_BYTES,
        lines.len() == readings.len(),
        again.len() == readings.len(),
        forall|k: int|
            0 <= k < readings.len() ==> is_read_back(
                #[trigger] readings[k]@,
                lines[k],
                again[k]@,
            ),
        forall|k: int|
            0 <= k < readings.len() ==> normalized_record(
                (#[trigger] readings[k])@.parsed->Ok_0,
            ).dedup_key.len() <= 1024,
    ensures
        readings_fit(normalized_file(bytes, readings)->Ok_0.0, again),
        normalized_file(normalized_file(bytes, readings)->Ok_0.0, again) == normalized_file(
            bytes,
            readings,
        ),
{
    let old_lines = memory_lines_of(bytes)->Ok_0;
    lemma_file_is_normalized_as_a_whole(bytes, readings);
    let output = written_from(readings, 0);
    assert(normalized_file(bytes, readings)->Ok_0.0 == output);
    assert forall|k: int| 0 <= k < readings.len() implies (#[trigger] readings[k])@.encoded == Ok::<
        Seq<u8>,
        Seq<char>,
    >(encode_utf8(lines[k])) by {
        assert(is_read_back(readings[k]@, lines[k], again[k]@));
    }
    assert forall|k: int| 0 <= k < lines.len() implies is_one_line(#[trigger] lines[k]) by {
        assert(is_read_back(readings[k]@, lines[k], again[k]@));
    }
    lemma_written_text(readings, lines, 0);
    let text = joined_from(lines, 0);
    encode_utf8_valid_utf8(text);
    encode_utf8_decode_utf8(text);
    lemma_lines_of_joined(lines, 0);
    assert(lines.skip(0) =~= lines);
    lemma_numbered(lines);
    let new_lines = memory_lines_of(output)->Ok_0;
    assert(new_lines.len() == again.len());
    assert forall|k: int| 0 <= k < new_lines.len() implies line_result(
        new_lines[k],
        k + 1,
        #[trigger] again[k]@,
    ) is Ok by {
        let first = readings[k]@;
        assert(line_result(old_lines[k], k + 1, first) is Ok);
        assert(is_read_back(first, lines[k], again[k]@));
        assert(record_problem(first.parsed->Ok_0, first.finite) is None);
        assert(first.finite);
        lemma_normalization_is_idempotent(first.parsed->Ok_0);
        assert(new_lines[k].1 == lines[k]);
    }
    assert forall|k: int| 0 <= k < readings.len() implies (#[trigger] again[k])@.encoded
        == readings[k]@.encoded && is_relational(again[k]@.parsed->Ok_0) == is_relational(
        readings[k]@.parsed->Ok_0,
    ) by {
        let first = readings[k]@;
        assert(line_result(old_lines[k], k + 1, first) is Ok);
        assert(is_read_back(first, lines[k], again[k]@));
        lemma_normalization_is_idempotent(first.parsed->Ok_0);
    }
    lemma_same_relational(readings, again, 0);
    lemma_file_is_normalized_as_a_whole(output, again);
}

} // verus!

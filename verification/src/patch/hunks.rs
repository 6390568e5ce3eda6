//! Hunks against the text of one file.
use vstd::prelude::*;
use vstd::string::StringExecFns;
use vstd::utf8::{decode_utf8, encode_utf8, valid_utf8};

use crate::patch::error::{PatchError, PatchErrorView};
use crate::patch::parse::{
    hunk_line_count, hunk_view, hunks_view, PatchLine, PatchLineView,
};
use crate::text::{
    contains, cut, join, join_of, lemma_cut, occurs_in, replace, replace_of, split, split_of, str_eq, texts,
    to_bytes, to_chars, utf8_text,
};

verus! {

// ---------------------------------------------------------------------------
// Lines of a file
// ---------------------------------------------------------------------------
/// The lines of a text whose line endings are all `\n`.
pub open spec fn file_lines(text: Seq<char>) -> Seq<Seq<char>> {
    let pieces = split_of(text, '\n');
    if text.len() == 0 {
        seq![]
    } else if pieces.last().len() == 0 {
        pieces.drop_last()
    } else {
        pieces
    }
}

/// The text that has these lines.
pub open spec fn rendered(
    lines: Seq<Seq<char>>,
    newline: Seq<char>,
    trailing_newline: bool,
) -> Seq<char> {
    let body = join_of(lines, newline);
    if trailing_newline && body.len() > 0 {
        body + newline
    } else {
        body
    }
}

pub fn split_lines(value: &str) -> (r: Vec<String>)
    ensures
        texts(r@) == file_lines(value@),
{
    if value.is_empty() {
        let none: Vec<String> = Vec::new();
        assert(texts(none@) =~= seq![]);
        return none;
    }
    let mut pieces = split(value, '\n');
    let ghost all = pieces@;
    assert(texts(all).last() == all.last()@);
    if pieces[pieces.len() - 1].as_str().is_empty() {
        pieces.pop();
        assert(texts(pieces@) =~= texts(all).drop_last());
    }
    pieces
}

pub fn render_lines(lines: &Vec<String>, newline: &str, trailing_newline: bool) -> (r: String)
    ensures
        r@ == rendered(texts(lines@), newline@, trailing_newline),
{
    let mut out = join(lines.as_slice(), newline);
    if trailing_newline && !out.as_str().is_empty() {
        out.append(newline);
    }
    out
}

// ---------------------------------------------------------------------------
// Locating a hunk
// ---------------------------------------------------------------------------
/// The wanted lines stand in `lines` at position `at`.
pub open spec fn lines_at(lines: Seq<Seq<char>>, wanted: Seq<Seq<char>>, at: int) -> bool {
    &&& 0 <= at
    &&& at + wanted.len() <= lines.len()
    &&& lines.subrange(at, at + wanted.len()) == wanted
}

/// A place at or behind `start` where the wanted lines stand.
pub open spec fn is_match(
    lines: Seq<Seq<char>>,
    wanted: Seq<Seq<char>>,
    start: int,
    at: int,
) -> bool {
    start <= at && lines_at(lines, wanted, at)
}

/// The only place at or behind `start` where the wanted lines stand.
pub open spec fn unique_match(
    lines: Seq<Seq<char>>,
    wanted: Seq<Seq<char>>,
    start: int,
) -> Result<int, PatchErrorView> {
    if !(exists|at: int| is_match(lines, wanted, start, at)) {
        Err(PatchErrorView::HunkContextNotFound)
    } else if exists|a: int, b: int|
        a != b && is_match(lines, wanted, start, a) && is_match(lines, wanted, start, b) {
        Err(PatchErrorView::AmbiguousHunk)
    } else {
        Ok(choose|at: int| is_match(lines, wanted, start, at))
    }
}

fn lines_stand_at(lines: &Vec<String>, wanted: &Vec<String>, at: usize) -> (r: bool)
    requires
        at + wanted@.len() <= lines@.len(),
    ensures
        r == lines_at(texts(lines@), texts(wanted@), at as int),
{
    let n: usize = lines.len();
    let mut i: usize = 0;
    while i < wanted.len()
        invariant
            n == lines@.len(),
            i <= wanted@.len(),
            at + wanted@.len() <= n,
            forall|k: int| 0 <= k < i ==> (#[trigger] wanted@[k])@ == lines@[at + k]@,
        decreases wanted@.len() - i,
    {
        if !str_eq(lines[at + i].as_str(), wanted[i].as_str()) {
            assert(texts(lines@).subrange(at as int, at + wanted@.len())[i as int] != texts(
                wanted@,
            )[i as int]);
            return false;
        }
        i += 1;
    }
    assert(texts(lines@).subrange(at as int, at + wanted@.len()) =~= texts(wanted@));
    true
}

pub fn find_unique_match(lines: &Vec<String>, wanted: &Vec<String>, start: usize) -> (r: Result<
    usize,
    PatchError,
>)
    ensures
        match r {
            Ok(at) => unique_match(texts(lines@), texts(wanted@), start as int) == Ok::<
                int,
                PatchErrorView,
            >(at as int) && is_match(texts(lines@), texts(wanted@), start as int, at as int),
            Err(error) => unique_match(texts(lines@), texts(wanted@), start as int) == Err::<
                int,
                PatchErrorView,
            >(error@),
        },
{
    if wanted.len() > lines.len() || start > lines.len() - wanted.len() {
        return Err(PatchError::HunkContextNotFound);
    }
    let last: usize = lines.len() - wanted.len();
    let mut found: Option<usize> = None;
    let mut index: usize = start;
    loop
        invariant_except_break
            last == lines@.len() - wanted@.len(),
            start <= index <= last,
            found is Some ==> found->0 < index && is_match(
                texts(lines@),
                texts(wanted@),
                start as int,
                found->0 as int,
            ),
            forall|k: int|
                k < index && #[trigger] is_match(texts(lines@), texts(wanted@), start as int, k)
                    ==> found is Some && k == found->0,
        ensures
            found is Some ==> is_match(
                texts(lines@),
                texts(wanted@),
                start as int,
                found->0 as int,
            ),
            forall|k: int| #[trigger]
                is_match(texts(lines@), texts(wanted@), start as int, k) ==> found is Some && k
                    == found->0,
        decreases last - index,
    {
        if lines_stand_at(lines, wanted, index) {
            assert(is_match(texts(lines@), texts(wanted@), start as int, index as int));
            if found.is_some() {
                return Err(PatchError::AmbiguousHunk);
            }
            found = Some(index);
        }
        if index == last {
            break ;
        }
        index += 1;
    }
    match found {
        Some(at) => Ok(at),
        None => Err(PatchError::HunkContextNotFound),
    }
}

// ---------------------------------------------------------------------------
// Applying hunks
// ---------------------------------------------------------------------------
/// The lines that a hunk expects.
pub open spec fn old_side(hunk: Seq<PatchLineView>) -> Seq<Seq<char>>
    decreases hunk.len(),
{
    if hunk.len() == 0 {
        seq![]
    } else {
        let before = old_side(hunk.drop_last());
        match hunk.last() {
            PatchLineView::Context(text) => before.push(text),
            PatchLineView::Remove(text) => before.push(text),
            PatchLineView::Add(_) => before,
        }
    }
}

/// The lines that a hunk leaves.
pub open spec fn new_side(hunk: Seq<PatchLineView>) -> Seq<Seq<char>>
    decreases hunk.len(),
{
    if hunk.len() == 0 {
        seq![]
    } else {
        let before = new_side(hunk.drop_last());
        match hunk.last() {
            PatchLineView::Context(text) => before.push(text),
            PatchLineView::Add(text) => before.push(text),
            PatchLineView::Remove(_) => before,
        }
    }
}

pub open spec fn added_count(hunk: Seq<PatchLineView>) -> nat
    decreases hunk.len(),
{
    if hunk.len() == 0 {
        0
    } else {
        added_count(hunk.drop_last()) + if hunk.last() is Add {
            1nat
        } else {
            0nat
        }
    }
}

pub open spec fn removed_count(hunk: Seq<PatchLineView>) -> nat
    decreases hunk.len(),
{
    if hunk.len() == 0 {
        0
    } else {
        removed_count(hunk.drop_last()) + if hunk.last() is Remove {
            1nat
        } else {
            0nat
        }
    }
}

/// The state between two hunks: the lines, where the next hunk may start, and the counts.
pub struct HunkState {
    pub lines: Seq<Seq<char>>,
    pub cursor: int,
    pub added: nat,
    pub removed: nat,
}

/// Where a hunk applies.
pub open spec fn hunk_position(
    lines: Seq<Seq<char>>,
    cursor: int,
    hunk: Seq<PatchLineView>,
) -> Result<int, PatchErrorView> {
    if old_side(hunk).len() == 0 {
        Ok(
            if cursor <= lines.len() {
                cursor
            } else {
                lines.len() as int
            },
        )
    } else {
        unique_match(lines, old_side(hunk), cursor)
    }
}

/// One hunk applied: its old lines give way to its new ones.
pub open spec fn hunk_applied(state: HunkState, hunk: Seq<PatchLineView>) -> Result<
    HunkState,
    PatchErrorView,
> {
    match hunk_position(state.lines, state.cursor, hunk) {
        Err(error) => Err(error),
        Ok(at) => Ok(
            HunkState {
                lines: state.lines.take(at) + new_side(hunk) + state.lines.skip(
                    at + old_side(hunk).len(),
                ),
                cursor: at + new_side(hunk).len(),
                added: state.added + added_count(hunk),
                removed: state.removed + removed_count(hunk),
            },
        ),
    }
}

/// The hunks from `k` on applied one after the other.
pub open spec fn hunks_applied_from(
    state: HunkState,
    hunks: Seq<Seq<PatchLineView>>,
    k: int,
) -> Result<HunkState, PatchErrorView>
    decreases hunks.len() - k,
{
    if k >= hunks.len() {
        Ok(state)
    } else {
        match hunk_applied(state, hunks[k]) {
            Err(error) => Err(error),
            Ok(next) => hunks_applied_from(next, hunks, k + 1),
        }
    }
}

/// What a file's text becomes, with the counts of added and removed lines.
pub open spec fn patched_text(text: Seq<char>, hunks: Seq<Seq<PatchLineView>>) -> Result<
    (Seq<char>, nat, nat),
    PatchErrorView,
> {
    let newline = newline_of(text);
    let normalized = replace_of(text, "\r\n"@, "\n"@);
    let start = HunkState { lines: file_lines(normalized), cursor: 0, added: 0, removed: 0 };
    match hunks_applied_from(start, hunks, 0) {
        Err(error) => Err(error),
        Ok(end) => Ok(
            (
                rendered(end.lines, newline, ends_with_newline(normalized)),
                end.added,
                end.removed,
            ),
        ),
    }
}

/// The line ending of a file: `\r\n` as soon as it occurs once.
pub open spec fn newline_of(text: Seq<char>) -> Seq<char> {
    if occurs_in(text, "\r\n"@) {
        "\r\n"@
    } else {
        "\n"@
    }
}

pub open spec fn ends_with_newline(text: Seq<char>) -> bool {
    text.len() > 0 && text.last() == '\n'
}

/// What a file's bytes become.
pub open spec fn patched_bytes(bytes: Seq<u8>, hunks: Seq<Seq<PatchLineView>>) -> Result<
    (Seq<u8>, nat, nat),
    PatchErrorView,
> {
    if !valid_utf8(bytes) {
        Err(PatchErrorView::InvalidUtf8("updated files must be UTF-8"@))
    } else {
        match patched_text(decode_utf8(bytes), hunks) {
            Err(error) => Err(error),
            Ok((text, added, removed)) => Ok((encode_utf8(text), added, removed)),
        }
    }
}

/// The old and the new lines of a hunk, with its counts of added and removed lines.
fn sides(hunk: &Vec<PatchLine>) -> (r: (Vec<String>, Vec<String>, usize, usize))
    ensures
        texts(r.0@) == old_side(hunk_view(hunk@)),
        texts(r.1@) == new_side(hunk_view(hunk@)),
        r.2 == added_count(hunk_view(hunk@)),
        r.3 == removed_count(hunk_view(hunk@)),
        r.2 + r.3 <= hunk@.len(),
{
    let mut old: Vec<String> = Vec::new();
    let mut new: Vec<String> = Vec::new();
    let mut added: usize = 0;
    let mut removed: usize = 0;
    let mut i: usize = 0;
    assert(texts(old@) =~= seq![]);
    assert(texts(new@) =~= seq![]);
    while i < hunk.len()
        invariant
            i <= hunk@.len(),
            texts(old@) == old_side(hunk_view(hunk@).take(i as int)),
            texts(new@) == new_side(hunk_view(hunk@).take(i as int)),
            added == added_count(hunk_view(hunk@).take(i as int)),
            removed == removed_count(hunk_view(hunk@).take(i as int)),
            added + removed <= i,
        decreases hunk@.len() - i,
    {
        let ghost old_before = old@;
        let ghost new_before = new@;
        proof {
            let next = hunk_view(hunk@).take(i + 1);
            assert(next.drop_last() =~= hunk_view(hunk@).take(i as int));
            assert(next.last() == hunk@[i as int]@);
        }
        match &hunk[i] {
            PatchLine::Context(text) => {
                old.push(text.clone());
                new.push(text.clone());
                assert(texts(old@) =~= texts(old_before).push(text@));
                assert(texts(new@) =~= texts(new_before).push(text@));
            },
            PatchLine::Add(text) => {
                new.push(text.clone());
                added += 1;
                assert(texts(new@) =~= texts(new_before).push(text@));
            },
            PatchLine::Remove(text) => {
                old.push(text.clone());
                removed += 1;
                assert(texts(old@) =~= texts(old_before).push(text@));
            },
        }
        i += 1;
    }
    assert(hunk_view(hunk@).take(i as int) =~= hunk_view(hunk@));
    (old, new, added, removed)
}

/// The lines with `count` of them from `at` on replaced.
fn splice(lines: Vec<String>, at: usize, count: usize, new: &Vec<String>) -> (r: Vec<String>)
    requires
        at + count <= lines@.len(),
    ensures
        texts(r@) == texts(lines@).take(at as int) + texts(new@) + texts(lines@).skip(at + count),
{
    let total: usize = lines.len();
    let mut out: Vec<String> = Vec::new();
    let mut i: usize = 0;
    assert(texts(out@) =~= texts(lines@).take(0));
    while i < at
        invariant
            i <= at <= lines@.len(),
            texts(out@) == texts(lines@).take(i as int),
        decreases at - i,
    {
        let ghost before = out@;
        out.push(lines[i].clone());
        assert(texts(out@) =~= texts(before).push(lines@[i as int]@));
        assert(texts(out@) =~= texts(lines@).take(i + 1));
        i += 1;
    }
    let ghost head = texts(out@);
    let mut j: usize = 0;
    assert(texts(out@) =~= head + texts(new@).take(0));
    while j < new.len()
        invariant
            j <= new@.len(),
            texts(out@) == head + texts(new@).take(j as int),
        decreases new@.len() - j,
    {
        let ghost before = out@;
        out.push(new[j].clone());
        assert(texts(out@) =~= texts(before).push(new@[j as int]@));
        assert(texts(out@) =~= head + texts(new@).take(j + 1));
        j += 1;
    }
    assert(texts(new@).take(j as int) =~= texts(new@));
    let ghost middle = texts(out@);
    let mut k: usize = at + count;
    assert(texts(out@) =~= middle + texts(lines@).subrange(at + count, at + count));
    while k < total
        invariant
            total == lines@.len(),
            at + count <= k <= total,
            texts(out@) == middle + texts(lines@).subrange(at + count, k as int),
        decreases total - k,
    {
        let ghost before = out@;
        out.push(lines[k].clone());
        assert(texts(out@) =~= texts(before).push(lines@[k as int]@));
        assert(texts(out@) =~= middle + texts(lines@).subrange(at + count, k + 1));
        k += 1;
    }
    assert(texts(lines@).subrange(at + count, total as int) =~= texts(lines@).skip(at + count));
    out
}

proof fn lemma_line_count_step(hunks: Seq<Vec<PatchLine>>, k: int)
    requires
        0 <= k < hunks.len(),
    ensures
        hunk_line_count(hunks.take(k + 1)) == hunk_line_count(hunks.take(k)) + hunks[k]@.len(),
        hunk_line_count(hunks.take(k + 1)) <= hunk_line_count(hunks),
    decreases hunks.len(),
{
    assert(hunks.take(k + 1).drop_last() =~= hunks.take(k));
    if k + 1 < hunks.len() {
        let shorter = hunks.drop_last();
        lemma_line_count_step(shorter, k);
        assert(shorter.take(k + 1) =~= hunks.take(k + 1));
    } else {
        assert(hunks.take(k + 1) =~= hunks);
    }
}

/// Applies the hunks to a file's bytes and counts the lines they add and remove.
pub fn apply_hunks(original: &Vec<u8>, hunks: &Vec<Vec<PatchLine>>) -> (r: Result<
    (Vec<u8>, usize, usize),
    PatchError,
>)
    requires
        hunk_line_count(hunks@) <= usize::MAX,
    ensures
        match r {
            Ok((bytes, added, removed)) => patched_bytes(original@, hunks_view(hunks@)) == Ok::<
                (Seq<u8>, nat, nat),
                PatchErrorView,
            >((bytes@, added as nat, removed as nat)),
            Err(error) => patched_bytes(original@, hunks_view(hunks@)) == Err::<
                (Seq<u8>, nat, nat),
                PatchErrorView,
            >(error@),
        },
{
    let text = match utf8_text(original.clone()) {
        Ok(text) => text,
        Err(_) => return Err(PatchError::InvalidUtf8("updated files must be UTF-8".to_owned())),
    };
    let newline = if contains(text.as_str(), "\r\n") {
        "\r\n"
    } else {
        "\n"
    };
    proof {
        reveal_strlit("\r\n");
    }
    let normalized = replace(text.as_str(), "\r\n", "\n");
    let trailing_newline = ends_in_newline(normalized.as_str());
    let mut lines = split_lines(normalized.as_str());
    let mut cursor: usize = 0;
    let mut added: usize = 0;
    let mut removed: usize = 0;
    let mut k: usize = 0;
    let ghost start = HunkState {
        lines: file_lines(normalized@),
        cursor: 0,
        added: 0,
        removed: 0,
    };
    let ghost all = hunks_view(hunks@);
    while k < hunks.len()
        invariant
            k <= hunks@.len(),
            all == hunks_view(hunks@),
            hunk_line_count(hunks@) <= usize::MAX,
            added + removed <= hunk_line_count(hunks@.take(k as int)),
            cursor <= lines@.len(),
            valid_utf8(original@),
            text@ == decode_utf8(original@),
            normalized@ == replace_of(text@, "\r\n"@, "\n"@),
            start == (HunkState { lines: file_lines(normalized@), cursor: 0, added: 0, removed: 0 }),
            hunks_applied_from(start, all, 0) == hunks_applied_from(
                HunkState {
                    lines: texts(lines@),
                    cursor: cursor as int,
                    added: added as nat,
                    removed: removed as nat,
                },
                all,
                k as int,
            ),
        decreases hunks@.len() - k,
    {
        let hunk = &hunks[k];
        let (old, new, hunk_added, hunk_removed) = sides(hunk);
        proof {
            lemma_line_count_step(hunks@, k as int);
            assert(all[k as int] == hunk_view(hunk@));
        }
        let at: usize = if old.len() == 0 {
            if cursor <= lines.len() {
                cursor
            } else {
                lines.len()
            }
        } else {
            match find_unique_match(&lines, &old, cursor) {
                Ok(at) => at,
                Err(error) => return Err(error),
            }
        };
        lines = splice(lines, at, old.len(), &new);
        let line_total: usize = lines.len();
        assert(texts(lines@).len() == line_total);
        cursor = at + new.len();
        added += hunk_added;
        removed += hunk_removed;
        k += 1;
    }
    let rendered_text = render_lines(&lines, newline, trailing_newline);
    Ok((to_bytes(rendered_text.as_str()), added, removed))
}

fn ends_in_newline(text: &str) -> (r: bool)
    ensures
        r == ends_with_newline(text@),
{
    let chars = to_chars(text);
    chars.len() > 0 && chars[chars.len() - 1] == '\n'
}

// ---------------------------------------------------------------------------
// What hunks keep
// ---------------------------------------------------------------------------
/// Splitting a text into lines and writing them out again gives the text back. The text that is
/// a single line ending is the one exception: it has one empty line, which is written as
/// nothing.
pub proof fn lemma_lines_round_trip(text: Seq<char>)
    requires
        text != seq!['\n'],
    ensures
        rendered(file_lines(text), "\n"@, ends_with_newline(text)) == text,
{
    reveal_strlit("\n");
    assert("\n"@ =~= seq!['\n']);
    let pieces = split_of(text, '\n');
    lemma_join_split(text);
    if text.len() == 0 {
        assert(join_of(file_lines(text), "\n"@) =~= text);
    } else {
        lemma_split_last(text);
        if pieces.last().len() == 0 {
            let body = join_of(pieces.drop_last(), "\n"@);
            assert(pieces.len() >= 2);
            assert(text =~= body + "\n"@);
            if body.len() == 0 {
                assert(text =~= seq!['\n']);
            }
        }
    }
}

proof fn lemma_join_front(first: Seq<char>, rest: Seq<Seq<char>>, separator: Seq<char>)
    requires
        rest.len() > 0,
    ensures
        join_of(seq![first] + rest, separator) == first + separator + join_of(rest, separator),
    decreases rest.len(),
{
    let all = seq![first] + rest;
    assert(all.last() == rest.last());
    if rest.len() == 1 {
        assert(all.drop_last() =~= seq![first]);
        assert(join_of(seq![first], separator) =~= first);
    } else {
        assert(all.drop_last() =~= seq![first] + rest.drop_last());
        lemma_join_front(first, rest.drop_last(), separator);
        let middle = join_of(rest.drop_last(), separator);
        assert((first + separator + middle) + separator + rest.last() =~= first + separator + (
        middle + separator + rest.last()));
    }
}

proof fn lemma_join_split(text: Seq<char>)
    ensures
        split_of(text, '\n').len() > 0,
        join_of(split_of(text, '\n'), seq!['\n']) == text,
    decreases text.len(),
{
    let k = cut(text, '\n') as int;
    lemma_cut(text, '\n');
    if k < text.len() {
        let rest = text.skip(k + 1);
        lemma_join_split(rest);
        lemma_join_front(text.take(k), split_of(rest, '\n'), seq!['\n']);
        assert(text =~= text.take(k) + seq!['\n'] + rest);
    }
}

proof fn lemma_split_last(text: Seq<char>)
    requires
        text.len() > 0,
    ensures
        split_of(text, '\n').len() > 0,
        (split_of(text, '\n').last().len() == 0) == (text.last() == '\n'),
        split_of(text, '\n').last().len() == 0 ==> split_of(text, '\n').len() >= 2,
    decreases text.len(),
{
    let k = cut(text, '\n') as int;
    lemma_cut(text, '\n');
    if k < text.len() {
        let rest = text.skip(k + 1);
        let tail = split_of(rest, '\n');
        if rest.len() > 0 {
            lemma_split_last(rest);
            assert(rest.last() == text.last());
        } else {
            assert(cut(rest, '\n') == 0);
        }
        assert(split_of(text, '\n').last() == tail.last());
    }
}

/// A hunk changes the number of lines by what it adds minus what it removes.
pub proof fn lemma_hunk_line_balance(state: HunkState, hunk: Seq<PatchLineView>)
    requires
        0 <= state.cursor,
        hunk_applied(state, hunk) is Ok,
    ensures
        hunk_applied(state, hunk)->Ok_0.lines.len() + removed_count(hunk) == state.lines.len()
            + added_count(hunk),
{
    lemma_side_lengths(hunk);
    lemma_position_fits(state, hunk);
}

proof fn lemma_position_fits(state: HunkState, hunk: Seq<PatchLineView>)
    requires
        0 <= state.cursor,
        hunk_applied(state, hunk) is Ok,
    ensures
        ({
            let at = hunk_position(state.lines, state.cursor, hunk)->Ok_0;
            &&& 0 <= at
            &&& at + old_side(hunk).len() <= state.lines.len()
            &&& state.lines.subrange(at, at + old_side(hunk).len()) == old_side(hunk)
        }),
{
    let at = hunk_position(state.lines, state.cursor, hunk)->Ok_0;
    if old_side(hunk).len() == 0 {
        assert(state.lines.subrange(at, at) =~= old_side(hunk));
    } else {
        let found = choose|p: int| is_match(state.lines, old_side(hunk), state.cursor, p);
        assert(is_match(state.lines, old_side(hunk), state.cursor, found));
    }
}

proof fn lemma_side_lengths(hunk: Seq<PatchLineView>)
    ensures
        old_side(hunk).len() + added_count(hunk) == hunk.len(),
        new_side(hunk).len() + removed_count(hunk) == hunk.len(),
    decreases hunk.len(),
{
    if hunk.len() > 0 {
        lemma_side_lengths(hunk.drop_last());
    }
}

/// A hunk changes only the lines that it names: what stands before and behind the place where
/// it applies is kept, and that place held exactly the lines the hunk expected.
pub proof fn lemma_hunk_is_local(state: HunkState, hunk: Seq<PatchLineView>)
    requires
        0 <= state.cursor,
        hunk_applied(state, hunk) is Ok,
    ensures
        exists|at: int|
            {
                let next = hunk_applied(state, hunk)->Ok_0;
                &&& 0 <= at
                &&& #[trigger] lines_at(state.lines, old_side(hunk), at)
                &&& lines_at(next.lines, new_side(hunk), at)
                &&& next.lines.take(at) == state.lines.take(at)
                &&& next.lines.skip(at + new_side(hunk).len()) == state.lines.skip(
                    at + old_side(hunk).len(),
                )
            },
{
    let next = hunk_applied(state, hunk)->Ok_0;
    let at = hunk_position(state.lines, state.cursor, hunk)->Ok_0;
    lemma_position_fits(state, hunk);
    assert(lines_at(state.lines, old_side(hunk), at));
    assert(next.lines.subrange(at, at + new_side(hunk).len()) =~= new_side(hunk));
    assert(lines_at(next.lines, new_side(hunk), at));
    assert(next.lines.take(at) =~= state.lines.take(at));
    assert(next.lines.skip(at + new_side(hunk).len()) =~= state.lines.skip(
        at + old_side(hunk).len(),
    ));
}

/// Hunks made of context alone leave a text as it is, whenever they apply to it.
pub proof fn lemma_context_changes_nothing(text: Seq<char>, hunks: Seq<Seq<PatchLineView>>)
    requires
        text != seq!['\n'],
        !occurs_in(text, "\r\n"@),
        forall|k: int, i: int|
            0 <= k < hunks.len() && 0 <= i < hunks[k].len() ==> (#[trigger] hunks[k][i]) is Context,
        patched_text(text, hunks) is Ok,
    ensures
        patched_text(text, hunks) == Ok::<(Seq<char>, nat, nat), PatchErrorView>(
            (text, 0, 0),
        ),
{
    crate::text::lemma_replace_absent(text, "\r\n"@, "\n"@);
    lemma_lines_round_trip(text);
    let start = HunkState { lines: file_lines(text), cursor: 0, added: 0, removed: 0 };
    lemma_context_hunks(start, hunks, 0);
}

proof fn lemma_context_hunks(state: HunkState, hunks: Seq<Seq<PatchLineView>>, k: int)
    requires
        0 <= state.cursor,
        0 <= k,
        forall|j: int, i: int|
            0 <= j < hunks.len() && 0 <= i < hunks[j].len() ==> (#[trigger] hunks[j][i]) is Context,
        hunks_applied_from(state, hunks, k) is Ok,
    ensures
        hunks_applied_from(state, hunks, k)->Ok_0.lines == state.lines,
        hunks_applied_from(state, hunks, k)->Ok_0.added == state.added,
        hunks_applied_from(state, hunks, k)->Ok_0.removed == state.removed,
    decreases hunks.len() - k,
{
    if k < hunks.len() {
        let hunk = hunks[k];
        assert forall|i: int| 0 <= i < hunk.len() implies hunk[i] is Context by {
            assert(hunks[k][i] is Context);
        }
        lemma_context_sides(hunk);
        lemma_position_fits(state, hunk);
        let next = hunk_applied(state, hunk)->Ok_0;
        let at = hunk_position(state.lines, state.cursor, hunk)->Ok_0;
        assert(next.lines =~= state.lines) by {
            assert(state.lines =~= state.lines.take(at) + state.lines.subrange(
                at,
                at + old_side(hunk).len(),
            ) + state.lines.skip(at + old_side(hunk).len()));
        }
        lemma_context_hunks(next, hunks, k + 1);
    }
}

proof fn lemma_context_sides(hunk: Seq<PatchLineView>)
    requires
        forall|i: int| 0 <= i < hunk.len() ==> hunk[i] is Context,
    ensures
        old_side(hunk) == new_side(hunk),
        added_count(hunk) == 0,
        removed_count(hunk) == 0,
    decreases hunk.len(),
{
    if hunk.len() > 0 {
        lemma_context_sides(hunk.drop_last());
    }
}

// ---------------------------------------------------------------------------
// What hunks say
// ---------------------------------------------------------------------------
/// The text of a line of a hunk, without the mark in front of it.
pub open spec fn line_text(line: PatchLineView) -> Seq<char> {
    match line {
        PatchLineView::Context(text) => text,
        PatchLineView::Add(text) => text,
        PatchLineView::Remove(text) => text,
    }
}

/// How many of the first `n` lines of a hunk are there once it has been applied.
pub open spec fn kept_before(hunk: Seq<PatchLineView>, n: int) -> int
    decreases n,
{
    if n <= 0 {
        0
    } else {
        kept_before(hunk, n - 1) + if hunk[n - 1] is Remove {
            0int
        } else {
            1int
        }
    }
}

/// How many of the first `n` lines of a hunk are there before it is applied.
pub open spec fn expected_before(hunk: Seq<PatchLineView>, n: int) -> int
    decreases n,
{
    if n <= 0 {
        0
    } else {
        expected_before(hunk, n - 1) + if hunk[n - 1] is Add {
            0int
        } else {
            1int
        }
    }
}

proof fn lemma_counts_of_a_prefix(hunk: Seq<PatchLineView>, n: int)
    requires
        0 <= n <= hunk.len(),
    ensures
        kept_before(hunk, n) == new_side(hunk.take(n)).len(),
        expected_before(hunk, n) == old_side(hunk.take(n)).len(),
    decreases n,
{
    if n > 0 {
        lemma_counts_of_a_prefix(hunk, n - 1);
        assert(hunk.take(n).drop_last() =~= hunk.take(n - 1));
    }
}

proof fn lemma_sides_grow(hunk: Seq<PatchLineView>, n: int)
    requires
        0 <= n <= hunk.len(),
    ensures
        new_side(hunk.take(n)).is_prefix_of(new_side(hunk)),
        old_side(hunk.take(n)).is_prefix_of(old_side(hunk)),
    decreases hunk.len() - n,
{
    if n < hunk.len() {
        lemma_sides_grow(hunk, n + 1);
        assert(hunk.take(n + 1).drop_last() =~= hunk.take(n));
    } else {
        assert(hunk.take(n) =~= hunk);
    }
}

/// Each line that a hunk does not remove stands in what it leaves, in its turn and character for
/// character, and each that it does not add in what it expects; neither side holds anything else.
pub proof fn lemma_lines_stand_as_they_are_written(hunk: Seq<PatchLineView>, i: int)
    requires
        0 <= i < hunk.len(),
    ensures
        new_side(hunk).len() == kept_before(hunk, hunk.len() as int),
        old_side(hunk).len() == expected_before(hunk, hunk.len() as int),
        !(hunk[i] is Remove) ==> 0 <= kept_before(hunk, i) < new_side(hunk).len() && new_side(
            hunk,
        )[kept_before(hunk, i)] == line_text(hunk[i]),
        !(hunk[i] is Add) ==> 0 <= expected_before(hunk, i) < old_side(hunk).len() && old_side(
            hunk,
        )[expected_before(hunk, i)] == line_text(hunk[i]),
{
    lemma_counts_of_a_prefix(hunk, hunk.len() as int);
    assert(hunk.take(hunk.len() as int) =~= hunk);
    lemma_counts_of_a_prefix(hunk, i);
    lemma_sides_grow(hunk, i + 1);
    assert(hunk.take(i + 1).drop_last() =~= hunk.take(i));
    assert(hunk.take(i + 1).last() == hunk[i]);
    let kept = new_side(hunk.take(i + 1));
    let expected = old_side(hunk.take(i + 1));
    if !(hunk[i] is Remove) {
        assert(new_side(hunk).subrange(0, kept.len() as int)[kept.len() - 1] == kept.last());
    }
    if !(hunk[i] is Add) {
        assert(old_side(hunk).subrange(0, expected.len() as int)[expected.len() - 1]
            == expected.last());
    }
}

/// The line that undoes a line.
pub open spec fn reversed_line(line: PatchLineView) -> PatchLineView {
    match line {
        PatchLineView::Context(text) => PatchLineView::Context(text),
        PatchLineView::Add(text) => PatchLineView::Remove(text),
        PatchLineView::Remove(text) => PatchLineView::Add(text),
    }
}

/// The hunk that removes what this one adds, and adds what it removes.
pub open spec fn reversed_hunk(hunk: Seq<PatchLineView>) -> Seq<PatchLineView> {
    hunk.map_values(|line: PatchLineView| reversed_line(line))
}

proof fn lemma_reversed_sides(hunk: Seq<PatchLineView>)
    ensures
        old_side(reversed_hunk(hunk)) == new_side(hunk),
        new_side(reversed_hunk(hunk)) == old_side(hunk),
        added_count(reversed_hunk(hunk)) == removed_count(hunk),
        removed_count(reversed_hunk(hunk)) == added_count(hunk),
    decreases hunk.len(),
{
    if hunk.len() > 0 {
        lemma_reversed_sides(hunk.drop_last());
        assert(reversed_hunk(hunk).drop_last() =~= reversed_hunk(hunk.drop_last()));
    }
}

/// Applying a hunk and then its reverse at the same place gives the lines back.
pub proof fn lemma_reversed_hunk_restores_the_lines(
    state: HunkState,
    hunk: Seq<PatchLineView>,
    again: HunkState,
)
    requires
        0 <= state.cursor,
        hunk_applied(state, hunk) is Ok,
        again.lines == hunk_applied(state, hunk)->Ok_0.lines,
        again.cursor == hunk_applied(state, hunk)->Ok_0.cursor - kept_before(
            hunk,
            hunk.len() as int,
        ),
        hunk_applied(again, reversed_hunk(hunk)) is Ok,
    ensures
        hunk_applied(again, reversed_hunk(hunk))->Ok_0.lines == state.lines,
{
    let back = reversed_hunk(hunk);
    let at = hunk_position(state.lines, state.cursor, hunk)->Ok_0;
    lemma_counts_of_a_prefix(hunk, hunk.len() as int);
    assert(hunk.take(hunk.len() as int) =~= hunk);
    lemma_reversed_sides(hunk);
    lemma_position_fits(state, hunk);
    assert(again.cursor == at);
    assert(again.lines.subrange(at, at + new_side(hunk).len()) =~= new_side(hunk));
    assert(lines_at(again.lines, new_side(hunk), at));
    if new_side(hunk).len() > 0 {
        assert(is_match(again.lines, old_side(back), again.cursor, at));
        let found = choose|p: int| is_match(again.lines, old_side(back), again.cursor, p);
        assert(is_match(again.lines, old_side(back), again.cursor, found));
        assert(found == at);
    }
    assert(hunk_position(again.lines, again.cursor, back) == Ok::<int, PatchErrorView>(at));
    assert(hunk_applied(again, back)->Ok_0.lines =~= state.lines) by {
        assert(again.lines.take(at) =~= state.lines.take(at));
        assert(again.lines.skip(at + new_side(hunk).len()) =~= state.lines.skip(
            at + old_side(hunk).len(),
        ));
        assert(state.lines =~= state.lines.take(at) + state.lines.subrange(
            at,
            at + old_side(hunk).len(),
        ) + state.lines.skip(at + old_side(hunk).len()));
    }
}

/// A hunk is applied where its lines stand and nowhere else could be meant: they stand at one
/// place from the cursor on, and if they stand at none or at several nothing is changed.
pub proof fn lemma_hunk_applies_at_its_only_place(
    state: HunkState,
    hunk: Seq<PatchLineView>,
    at: int,
)
    requires
        0 <= state.cursor,
        old_side(hunk).len() > 0,
    ensures
        (hunk_applied(state, hunk) is Ok && hunk_applied(state, hunk)->Ok_0.cursor == at
            + new_side(hunk).len()) <==> (state.cursor <= at && at + old_side(hunk).len()
            <= state.lines.len() && (forall|k: int|
            0 <= k < old_side(hunk).len() ==> state.lines[at + k] == #[trigger] old_side(hunk)[k])
            && forall|other: int|
            #[trigger] is_match(state.lines, old_side(hunk), state.cursor, other) ==> other
                == at),
{
    let wanted = old_side(hunk);
    if state.cursor <= at && at + wanted.len() <= state.lines.len() && (forall|k: int|
        0 <= k < wanted.len() ==> state.lines[at + k] == #[trigger] wanted[k]) {
        assert(state.lines.subrange(at, at + wanted.len()) =~= wanted);
        assert(is_match(state.lines, wanted, state.cursor, at));
    }
    if hunk_applied(state, hunk) is Ok {
        let found = choose|p: int| is_match(state.lines, wanted, state.cursor, p);
        assert(is_match(state.lines, wanted, state.cursor, found));
        if found == at {
            assert forall|k: int| 0 <= k < wanted.len() implies state.lines[at + k]
                == #[trigger] wanted[k] by {
                assert(state.lines.subrange(at, at + wanted.len())[k] == state.lines[at + k]);
            }
        }
    }
}

/// A hunk that expects nothing puts its lines at the cursor, or at the end of a shorter file.
pub proof fn lemma_pure_addition_goes_to_the_cursor(state: HunkState, hunk: Seq<PatchLineView>)
    requires
        0 <= state.cursor,
        forall|i: int| 0 <= i < hunk.len() ==> (#[trigger] hunk[i]) is Add,
    ensures
        hunk_applied(state, hunk) is Ok,
        ({
            let next = hunk_applied(state, hunk)->Ok_0;
            let at = next.cursor - hunk.len();
            &&& at == state.cursor || at == state.lines.len()
            &&& at <= state.cursor
            &&& next.lines.len() == state.lines.len() + hunk.len()
            &&& forall|i: int|
                0 <= i < hunk.len() ==> next.lines[at + i] == line_text(#[trigger] hunk[i])
            &&& forall|k: int| 0 <= k < at ==> next.lines[k] == #[trigger] state.lines[k]
            &&& forall|k: int|
                at <= k < state.lines.len() ==> next.lines[k + hunk.len()]
                    == #[trigger] state.lines[k]
        }),
{
    lemma_additions(hunk);
}

proof fn lemma_additions(hunk: Seq<PatchLineView>)
    requires
        forall|i: int| 0 <= i < hunk.len() ==> (#[trigger] hunk[i]) is Add,
    ensures
        old_side(hunk).len() == 0,
        new_side(hunk).len() == hunk.len(),
        forall|i: int|
            0 <= i < hunk.len() ==> new_side(hunk)[i] == line_text(#[trigger] hunk[i]),
    decreases hunk.len(),
{
    if hunk.len() > 0 {
        let rest = hunk.drop_last();
        assert forall|i: int| 0 <= i < rest.len() implies (#[trigger] rest[i]) is Add by {
            assert(rest[i] == hunk[i]);
        }
        lemma_additions(rest);
        assert(hunk[hunk.len() - 1] is Add);
        assert forall|i: int| 0 <= i < hunk.len() implies new_side(hunk)[i] == line_text(
            #[trigger] hunk[i],
        ) by {
            if i < rest.len() {
                assert(rest[i] == hunk[i]);
            }
        }
    }
}

/// A file whose lines end in `\r\n` keeps these endings: its text is put together with them.
pub proof fn lemma_line_endings_are_kept(text: Seq<char>, hunks: Seq<Seq<PatchLineView>>)
    requires
        patched_text(text, hunks) is Ok,
    ensures
        exists|lines: Seq<Seq<char>>, newline: Seq<char>|
            {
                &&& newline == if occurs_in(text, "\r\n"@) {
                    "\r\n"@
                } else {
                    "\n"@
                }
                &&& (patched_text(text, hunks)->Ok_0).0 == #[trigger] join_of(lines, newline)
                    || (patched_text(text, hunks)->Ok_0).0 == join_of(lines, newline) + newline
            },
{
    let normalized = replace_of(text, "\r\n"@, "\n"@);
    let start = HunkState { lines: file_lines(normalized), cursor: 0, added: 0, removed: 0 };
    let end = hunks_applied_from(start, hunks, 0)->Ok_0;
    assert((patched_text(text, hunks)->Ok_0).0 == join_of(end.lines, newline_of(text)) || (
    patched_text(text, hunks)->Ok_0).0 == join_of(end.lines, newline_of(text)) + newline_of(text));
}

/// A line counts as added or removed if and only if it is marked so.
pub proof fn lemma_marked_lines_are_counted(hunk: Seq<PatchLineView>, line: PatchLineView)
    ensures
        added_count(seq![]) == 0,
        removed_count(seq![]) == 0,
        added_count(hunk.push(line)) == added_count(hunk) + (if line is Add {
            1int
        } else {
            0int
        }),
        removed_count(hunk.push(line)) == removed_count(hunk) + (if line is Remove {
            1int
        } else {
            0int
        }),
{
    assert(hunk.push(line).drop_last() =~= hunk);
}

/// How many lines the hunks from the `k`th on add and remove.
pub open spec fn marked_in(hunks: Seq<Seq<PatchLineView>>, k: int) -> (nat, nat)
    decreases hunks.len() - k,
{
    if k >= hunks.len() {
        (0, 0)
    } else {
        let rest = marked_in(hunks, k + 1);
        (added_count(hunks[k]) + rest.0, removed_count(hunks[k]) + rest.1)
    }
}

proof fn lemma_hunks_are_counted(state: HunkState, hunks: Seq<Seq<PatchLineView>>, k: int)
    requires
        0 <= k,
        hunks_applied_from(state, hunks, k) is Ok,
    ensures
        hunks_applied_from(state, hunks, k)->Ok_0.added == state.added + marked_in(hunks, k).0,
        hunks_applied_from(state, hunks, k)->Ok_0.removed == state.removed + marked_in(hunks, k).1,
    decreases hunks.len() - k,
{
    if k < hunks.len() {
        lemma_hunks_are_counted(hunk_applied(state, hunks[k])->Ok_0, hunks, k + 1);
    }
}

/// What is reported as added and removed are the lines of all hunks that are marked so.
pub proof fn lemma_all_marked_lines_are_reported(
    text: Seq<char>,
    hunks: Seq<Seq<PatchLineView>>,
)
    requires
        patched_text(text, hunks) is Ok,
    ensures
        (patched_text(text, hunks)->Ok_0).1 == marked_in(hunks, 0).0,
        (patched_text(text, hunks)->Ok_0).2 == marked_in(hunks, 0).1,
{
    let normalized = replace_of(text, "\r\n"@, "\n"@);
    let start = HunkState { lines: file_lines(normalized), cursor: 0, added: 0, removed: 0 };
    lemma_hunks_are_counted(start, hunks, 0);
}

} // verus!

//! What a patch means, told by how it is written down.
use vstd::prelude::*;
use vstd::utf8::{decode_utf8, encode_utf8, valid_utf8};

use crate::grants::ActionGrant;
use crate::patch::apply::{
    after_attempt, bytes_of, check_existing_target, plans_view, PatchChangeKind, PlannedChange, TransactionStep,
};
use crate::patch::error::{PatchError, PatchErrorView};
use crate::patch::hunks::{
    ends_with_newline, file_lines, hunk_applied, hunks_applied_from, new_side, old_side,
    patched_text, rendered, HunkState,
};
use crate::patch::parse::{
    added_from, chomp, close_hunk, finish, hunk_line, hunks_from, is_blank, is_end_marker,
    is_safe_path, is_section_header_line, named_before, parse_of, repeated_path_from, section_path,
    sections_from, changes_view, ParsedChange, ParsedChangeKindView, ParsedChangeView,
    PatchLineView,
};
use crate::patch::plan::{build_plans, open_patch, TargetProbe};
use crate::paths::Location;
use crate::text::{
    is_space, join_of, lemma_replace_absent, lemma_split_cuts_at_separators, lemma_split_of_joined,
    lemma_trim_leaves_no_outer_space, lines_of, lossy_text, occurs_at, split_of, strip_prefix_of, swap_char_of,
    trim_end_of, trim_of, trim_start_of, utf8_len,
};

verus! {

/// A line of a hunk as it is written: its mark, and then its text.
pub open spec fn marked(line: PatchLineView) -> Seq<char> {
    match line {
        PatchLineView::Context(text) => seq![' '] + text,
        PatchLineView::Add(text) => seq!['+'] + text,
        PatchLineView::Remove(text) => seq!['-'] + text,
    }
}

/// The line can be told from what surrounds a hunk: it ends in no carriage return, and does not
/// read like the end of the patch.
pub open spec fn is_plain(line: PatchLineView) -> bool {
    &&& marked(line).last() != '\r'
    &&& trim_of(marked(line)) != "*** End Patch"@
}

proof fn lemma_chomp_keeps(line: Seq<char>)
    requires
        line.len() > 0,
        line.last() != '\r',
    ensures
        chomp(line) == line,
{
}

proof fn lemma_marked_line(line: PatchLineView)
    requires
        is_plain(line),
    ensures
        chomp(marked(line)) == marked(line),
        !is_section_header_line(marked(line)),
        !occurs_at(marked(line), "*** Move to:"@, 0),
        !occurs_at(marked(line), "@@"@, 0),
        marked(line) != "*** End of File"@,
        hunk_line(marked(line)) == Some(line),
{
    reveal_strlit("*** Add File:");
    reveal_strlit("*** Delete File:");
    reveal_strlit("*** Update File:");
    reveal_strlit("*** Move to:");
    reveal_strlit("*** End of File");
    reveal_strlit("@@");
    let text = marked(line);
    lemma_chomp_keeps(text);
    lemma_first_letter_tells(text, "*** Add File:"@);
    lemma_first_letter_tells(text, "*** Delete File:"@);
    lemma_first_letter_tells(text, "*** Update File:"@);
    lemma_first_letter_tells(text, "*** Move to:"@);
    lemma_first_letter_tells(text, "@@"@);
    match line {
        PatchLineView::Context(body) => {
            assert(text.skip(1) =~= body);
        },
        PatchLineView::Add(body) => {
            assert(text.skip(1) =~= body);
        },
        PatchLineView::Remove(body) => {
            assert(text.skip(1) =~= body);
        },
    }
}

proof fn lemma_first_letter_tells(text: Seq<char>, prefix: Seq<char>)
    requires
        text.len() > 0,
        prefix.len() > 0,
        text[0] != prefix[0],
    ensures
        !occurs_at(text, prefix, 0),
{
    if occurs_at(text, prefix, 0) {
        assert(text.subrange(0, prefix.len() as int)[0] == text[0]);
    }
}

/// The lines of a hunk are read as they are written, in their order, each by its mark.
pub proof fn lemma_hunk_lines_are_read(
    lines: Seq<Seq<char>>,
    i: int,
    hunks: Seq<Seq<PatchLineView>>,
    current: Seq<PatchLineView>,
    path: Seq<char>,
    hunk: Seq<PatchLineView>,
)
    requires
        0 <= i,
        i + hunk.len() <= lines.len(),
        forall|k: int|
            0 <= k < hunk.len() ==> is_plain(#[trigger] hunk[k]) && lines[i + k] == marked(hunk[k]),
    ensures
        hunks_from(lines, i, hunks, current, path) == hunks_from(
            lines,
            i + hunk.len(),
            hunks,
            current + hunk,
            path,
        ),
    decreases hunk.len(),
{
    if hunk.len() > 0 {
        let line = hunk[0];
        assert(lines[i + 0] == marked(line));
        lemma_marked_line(line);
        let rest = hunk.drop_first();
        assert forall|k: int| 0 <= k < rest.len() implies is_plain(#[trigger] rest[k]) && lines[i
            + 1 + k] == marked(rest[k]) by {
            assert(rest[k] == hunk[k + 1]);
            assert(lines[i + (k + 1)] == marked(hunk[k + 1]));
        }
        lemma_hunk_lines_are_read(lines, i + 1, hunks, current.push(line), path, rest);
        assert(current.push(line) + rest =~= current + hunk);
    } else {
        assert(current + hunk =~= current);
    }
}

/// The lines of an added file are read as they are written behind their `+`.
pub proof fn lemma_added_lines_are_read(
    lines: Seq<Seq<char>>,
    i: int,
    content: Seq<Seq<char>>,
    path: Seq<char>,
    added: Seq<Seq<char>>,
)
    requires
        0 <= i,
        i + added.len() <= lines.len(),
        forall|k: int|
            0 <= k < added.len() ==> is_plain(PatchLineView::Add(#[trigger] added[k])) && lines[i
                + k] == seq!['+'] + added[k],
    ensures
        added_from(lines, i, content, path) == added_from(
            lines,
            i + added.len(),
            content + added,
            path,
        ),
    decreases added.len(),
{
    if added.len() > 0 {
        let line = PatchLineView::Add(added[0]);
        assert(is_plain(line));
        assert(lines[i + 0] == marked(line));
        lemma_marked_line(line);
        let rest = added.drop_first();
        assert forall|k: int| 0 <= k < rest.len() implies is_plain(
            PatchLineView::Add(#[trigger] rest[k]),
        ) && lines[i + 1 + k] == seq!['+'] + rest[k] by {
            assert(rest[k] == added[k + 1]);
            assert(lines[i + (k + 1)] == seq!['+'] + added[k + 1]);
        }
        assert(marked(line).skip(1) =~= added[0]);
        lemma_added_lines_are_read(lines, i + 1, content.push(added[0]), path, rest);
        assert(content.push(added[0]) + rest =~= content + added);
    } else {
        assert(content + added =~= content);
    }
}

/// A path of plain names with `/` between them.
pub open spec fn is_plain_path(names: Seq<Seq<char>>) -> bool {
    &&& names.len() > 0
    &&& trim_of(join_of(names, seq!['/'])) == join_of(names, seq!['/'])
    &&& forall|k: int| 0 <= k < names.len() ==> is_plain_name(#[trigger] names[k])
}

pub open spec fn is_plain_name(name: Seq<char>) -> bool {
    &&& name.len() > 0
    &&& !name.contains('/')
    &&& !name.contains('\\')
    &&& !name.contains(':')
    &&& !name.contains('\0')
    &&& name != seq!['.']
    &&& name != seq!['.', '.']
}

proof fn lemma_joined_contains(names: Seq<Seq<char>>, c: char)
    requires
        names.len() > 0,
        c != '/',
        forall|k: int| 0 <= k < names.len() ==> !(#[trigger] names[k]).contains(c),
    ensures
        !join_of(names, seq!['/']).contains(c),
    decreases names.len(),
{
    let all = join_of(names, seq!['/']);
    if names.len() > 1 {
        let rest = names.drop_last();
        assert forall|k: int| 0 <= k < rest.len() implies !(#[trigger] rest[k]).contains(c) by {
            assert(rest[k] == names[k]);
        }
        lemma_joined_contains(rest, c);
        let before = join_of(rest, seq!['/']);
        assert(!names[names.len() - 1].contains(c));
        if all.contains(c) {
            let i = choose|i: int| 0 <= i < all.len() && all[i] == c;
            if i < before.len() {
                assert(before[i] == c);
                assert(before.contains(c));
            } else if i > before.len() {
                assert(names.last()[i - before.len() - 1] == c);
                assert(names.last().contains(c));
            }
        }
    } else {
        assert(!names[0].contains(c));
    }
}

proof fn lemma_joined_starts(names: Seq<Seq<char>>)
    requires
        names.len() > 0,
        names[0].len() > 0,
    ensures
        join_of(names, seq!['/']).len() > 0,
        join_of(names, seq!['/'])[0] == names[0][0],
    decreases names.len(),
{
    if names.len() > 1 {
        lemma_joined_starts(names.drop_last());
    }
}

/// A path of plain names is accepted as it is written.
pub proof fn lemma_plain_paths_are_accepted(names: Seq<Seq<char>>)
    requires
        is_plain_path(names),
    ensures
        is_safe_path(join_of(names, seq!['/'])),
        section_path(seq![' '] + join_of(names, seq!['/'])) == Ok::<Seq<char>, PatchErrorView>(
            join_of(names, seq!['/']),
        ),
{
    reveal_strlit(".");
    reveal_strlit("..");
    assert("."@ =~= seq!['.']);
    assert(".."@ =~= seq!['.', '.']);
    let path = join_of(names, seq!['/']);
    assert forall|k: int| 0 <= k < names.len() implies {
        &&& !(#[trigger] names[k]).contains('\\')
        &&& !names[k].contains(':')
        &&& !names[k].contains('\0')
        &&& !names[k].contains('/')
    } by {
        assert(is_plain_name(names[k]));
    }
    lemma_joined_contains(names, '\\');
    lemma_joined_contains(names, ':');
    lemma_joined_contains(names, '\0');
    assert(is_plain_name(names[0]));
    lemma_joined_starts(names);
    assert(swap_char_of(path, '\\', '/') =~= path) by {
        assert forall|k: int| 0 <= k < path.len() implies #[trigger] path[k] != '\\' by {
            if path[k] == '\\' {
                assert(path.contains('\\'));
            }
        }
    }
    lemma_split_of_joined(names, '/');
    if path[0] == '/' {
        assert(names[0].contains('/'));
    }
    assert(!names.contains(".."@)) by {
        if names.contains(".."@) {
            let k = choose|k: int| 0 <= k < names.len() && names[k] == ".."@;
            assert(is_plain_name(names[k]));
        }
    }
    let raw = seq![' '] + path;
    assert(is_space(' '));
    assert(raw.drop_first() =~= path);
    assert(trim_start_of(raw) == trim_start_of(path));
    assert(trim_of(raw) == path);
}

/// The header of a section as it is written.
pub open spec fn header(action: Seq<char>, path: Seq<char>) -> Seq<char> {
    action + seq![' '] + path
}

proof fn lemma_header(action: Seq<char>, names: Seq<Seq<char>>)
    requires
        action == "*** Add File:"@ || action == "*** Delete File:"@ || action
            == "*** Update File:"@,
        is_plain_path(names),
    ensures
        ({
            let line = header(action, join_of(names, seq!['/']));
            &&& chomp(line) == line
            &&& !is_blank(line)
            &&& !is_end_marker(line)
            &&& is_section_header_line(line)
            &&& strip_prefix_of(line, action) == Some(seq![' '] + join_of(names, seq!['/']))
            &&& action != "*** Add File:"@ ==> strip_prefix_of(line, "*** Add File:"@) is None
            &&& action == "*** Update File:"@ ==> strip_prefix_of(line, "*** Delete File:"@) is None
        }),
{
    reveal_strlit("*** Add File:");
    reveal_strlit("*** Delete File:");
    reveal_strlit("*** Update File:");
    reveal_strlit("*** End Patch");
    let path = join_of(names, seq!['/']);
    let line = header(action, path);
    assert(is_plain_name(names[0]));
    lemma_joined_starts(names);
    lemma_trim_leaves_no_outer_space(path);
    assert(line.last() == path.last());
    assert(is_space('\r'));
    lemma_chomp_keeps(line);
    assert(line[0] == '*');
    assert(trim_start_of(line) == line);
    assert(trim_end_of(line) == line);
    assert(line[4] == action[4]);
    assert(line.subrange(0, action.len() as int) =~= action);
    assert(occurs_at(line, action, 0));
    assert(line.skip(action.len() as int) =~= seq![' '] + path);
    if action != "*** Add File:"@ {
        lemma_letter_tells(line, "*** Add File:"@, 4);
    }
    if action == "*** Update File:"@ {
        lemma_letter_tells(line, "*** Delete File:"@, 4);
    }
}

proof fn lemma_letter_tells(text: Seq<char>, prefix: Seq<char>, at: int)
    requires
        0 <= at < prefix.len(),
        at < text.len(),
        text[at] != prefix[at],
    ensures
        !occurs_at(text, prefix, 0),
{
    if occurs_at(text, prefix, 0) {
        assert(text.subrange(0, prefix.len() as int)[at] == text[at]);
    }
}

/// A section that updates a file: its header, and a hunk with its lines. Behind it the patch goes
/// on with the next header or ends.
pub proof fn lemma_update_is_read(
    lines: Seq<Seq<char>>,
    i: int,
    changes: Seq<ParsedChangeView>,
    names: Seq<Seq<char>>,
    hunk: Seq<PatchLineView>,
)
    requires
        0 <= i,
        is_plain_path(names),
        hunk.len() > 0,
        i + 2 + hunk.len() < lines.len(),
        lines[i] == header("*** Update File:"@, join_of(names, seq!['/'])),
        lines[i + 1] == "@@"@,
        forall|k: int|
            0 <= k < hunk.len() ==> is_plain(#[trigger] hunk[k]) && lines[i + 2 + k] == marked(
                hunk[k],
            ),
        is_section_header_line(lines[i + 2 + hunk.len()]),
    ensures
        sections_from(lines, i, changes) == sections_from(
            lines,
            i + 2 + hunk.len(),
            changes.push(
                ParsedChangeView {
                    path: join_of(names, seq!['/']),
                    kind: ParsedChangeKindView::Update { hunks: seq![hunk] },
                },
            ),
        ),
{
    let path = join_of(names, seq!['/']);
    reveal_strlit("*** Add File:");
    reveal_strlit("*** Update File:");
    assert("*** Add File:"@.len() != "*** Update File:"@.len());
    lemma_header("*** Update File:"@, names);
    lemma_plain_paths_are_accepted(names);
    lemma_chomp_keeps_at_sign();
    let none: Seq<Seq<PatchLineView>> = seq![];
    let nothing: Seq<PatchLineView> = seq![];
    assert(close_hunk(none, nothing) =~= none);
    assert(hunks_from(lines, i + 1, none, nothing, path) == hunks_from(
        lines,
        i + 2,
        none,
        nothing,
        path,
    ));
    lemma_hunk_lines_are_read(lines, i + 2, none, nothing, path, hunk);
    assert(nothing + hunk =~= hunk);
    assert(close_hunk(none, hunk) =~= seq![hunk]);
}

proof fn lemma_chomp_keeps_at_sign()
    ensures
        chomp("@@"@) == "@@"@,
        !is_section_header_line("@@"@),
        !occurs_at("@@"@, "*** Move to:"@, 0),
        occurs_at("@@"@, "@@"@, 0),
{
    reveal_strlit("@@");
    reveal_strlit("*** Add File:");
    reveal_strlit("*** Delete File:");
    reveal_strlit("*** Update File:");
    reveal_strlit("*** Move to:");
    reveal_strlit("*** End Patch");
    lemma_chomp_keeps("@@"@);
    lemma_first_letter_tells("@@"@, "*** Add File:"@);
    lemma_first_letter_tells("@@"@, "*** Delete File:"@);
    lemma_first_letter_tells("@@"@, "*** Update File:"@);
    lemma_first_letter_tells("@@"@, "*** Move to:"@);
    assert("@@"@.subrange(0, 2) =~= "@@"@);
    assert(trim_start_of("@@"@) == "@@"@);
    assert(trim_end_of("@@"@) == "@@"@);
}

/// A section that adds a file: its header, and the lines of the file.
pub proof fn lemma_addition_is_read(
    lines: Seq<Seq<char>>,
    i: int,
    changes: Seq<ParsedChangeView>,
    names: Seq<Seq<char>>,
    added: Seq<Seq<char>>,
)
    requires
        0 <= i,
        is_plain_path(names),
        i + 1 + added.len() < lines.len(),
        lines[i] == header("*** Add File:"@, join_of(names, seq!['/'])),
        forall|k: int|
            0 <= k < added.len() ==> is_plain(PatchLineView::Add(#[trigger] added[k])) && lines[i
                + 1 + k] == seq!['+'] + added[k],
        is_section_header_line(lines[i + 1 + added.len()]),
    ensures
        sections_from(lines, i, changes) == sections_from(
            lines,
            i + 1 + added.len(),
            changes.push(
                ParsedChangeView {
                    path: join_of(names, seq!['/']),
                    kind: ParsedChangeKindView::Add { lines: added },
                },
            ),
        ),
{
    let path = join_of(names, seq!['/']);
    lemma_header("*** Add File:"@, names);
    lemma_plain_paths_are_accepted(names);
    let none: Seq<Seq<char>> = seq![];
    lemma_added_lines_are_read(lines, i + 1, none, path, added);
    assert(none + added =~= added);
}

/// A section that deletes a file is its header.
pub proof fn lemma_deletion_is_read(
    lines: Seq<Seq<char>>,
    i: int,
    changes: Seq<ParsedChangeView>,
    names: Seq<Seq<char>>,
)
    requires
        0 <= i < lines.len(),
        is_plain_path(names),
        lines[i] == header("*** Delete File:"@, join_of(names, seq!['/'])),
    ensures
        sections_from(lines, i, changes) == sections_from(
            lines,
            i + 1,
            changes.push(
                ParsedChangeView {
                    path: join_of(names, seq!['/']),
                    kind: ParsedChangeKindView::Delete,
                },
            ),
        ),
{
    reveal_strlit("*** Add File:");
    reveal_strlit("*** Delete File:");
    assert("*** Add File:"@.len() != "*** Delete File:"@.len());
    lemma_header("*** Delete File:"@, names);
    lemma_plain_paths_are_accepted(names);
}

proof fn lemma_end_marker()
    ensures
        chomp("*** End Patch"@) == "*** End Patch"@,
        is_end_marker("*** End Patch"@),
        !is_blank("*** End Patch"@),
        is_section_header_line("*** End Patch"@),
{
    reveal_strlit("*** End Patch");
    let line = "*** End Patch"@;
    lemma_chomp_keeps(line);
    assert(trim_start_of(line) == line);
    assert(trim_end_of(line) == line);
}

/// Whoever writes a hunk down between a begin and an end marker, under the path of a file, gets
/// that file updated by that hunk and by nothing else.
pub proof fn lemma_written_update_is_understood(
    input: Seq<char>,
    names: Seq<Seq<char>>,
    hunk: Seq<PatchLineView>,
)
    requires
        is_plain_path(names),
        hunk.len() > 0,
        forall|k: int| 0 <= k < hunk.len() ==> is_plain(#[trigger] hunk[k]),
        input.len() > 0,
        utf8_len(input) <= 2 * 1024 * 1024,
        lines_of(input) == seq![
            "*** Begin Patch"@,
            header("*** Update File:"@, join_of(names, seq!['/'])),
            "@@"@,
        ] + hunk.map_values(|line: PatchLineView| marked(line)) + seq!["*** End Patch"@],
    ensures
        parse_of(input) == Ok::<Seq<ParsedChangeView>, PatchErrorView>(
            seq![
                ParsedChangeView {
                    path: join_of(names, seq!['/']),
                    kind: ParsedChangeKindView::Update { hunks: seq![hunk] },
                },
            ],
        ),
{
    let lines = lines_of(input);
    let end = 3 + hunk.len() as int;
    lemma_begin_marker();
    lemma_end_marker();
    assert(lines.len() == end + 1);
    assert(lines[1] == header("*** Update File:"@, join_of(names, seq!['/'])));
    assert(lines[2] == "@@"@);
    assert(lines[end] == "*** End Patch"@);
    assert forall|k: int| 0 <= k < hunk.len() implies is_plain(#[trigger] hunk[k]) && lines[3 + k]
        == marked(hunk[k]) by {
        assert(hunk.map_values(|line: PatchLineView| marked(line))[k] == marked(hunk[k]));
    }
    let none: Seq<ParsedChangeView> = seq![];
    let change = ParsedChangeView {
        path: join_of(names, seq!['/']),
        kind: ParsedChangeKindView::Update { hunks: seq![hunk] },
    };
    lemma_update_is_read(lines, 1, none, names, hunk);
    lemma_one_section_ends(lines, end, change);
    assert(none.push(change) =~= seq![change]);
}

proof fn lemma_begin_marker()
    ensures
        trim_of("*** Begin Patch"@) == "*** Begin Patch"@,
{
    reveal_strlit("*** Begin Patch");
    let line = "*** Begin Patch"@;
    assert(trim_start_of(line) == line);
    assert(trim_end_of(line) == line);
}

proof fn lemma_one_section_ends(lines: Seq<Seq<char>>, end: int, change: ParsedChangeView)
    requires
        0 <= end,
        lines.len() == end + 1,
        lines[end] == "*** End Patch"@,
    ensures
        sections_from(lines, end, seq![change]) == Ok::<Seq<ParsedChangeView>, PatchErrorView>(
            seq![change],
        ),
{
    lemma_end_marker();
    let changes = seq![change];
    assert(!named_before(changes, 0));
    assert(repeated_path_from(changes, 1) is None);
    assert(repeated_path_from(changes, 0) is None);
    assert(finish(lines, end + 1, changes) == Ok::<Seq<ParsedChangeView>, PatchErrorView>(changes));
}

/// Whoever writes the lines of a file down between a begin and an end marker gets a file with
/// these lines.
pub proof fn lemma_written_addition_is_understood(
    input: Seq<char>,
    names: Seq<Seq<char>>,
    added: Seq<Seq<char>>,
)
    requires
        is_plain_path(names),
        forall|k: int|
            0 <= k < added.len() ==> is_plain(PatchLineView::Add(#[trigger] added[k])),
        input.len() > 0,
        utf8_len(input) <= 2 * 1024 * 1024,
        lines_of(input) == seq![
            "*** Begin Patch"@,
            header("*** Add File:"@, join_of(names, seq!['/'])),
        ] + added.map_values(|line: Seq<char>| seq!['+'] + line) + seq!["*** End Patch"@],
    ensures
        parse_of(input) == Ok::<Seq<ParsedChangeView>, PatchErrorView>(
            seq![
                ParsedChangeView {
                    path: join_of(names, seq!['/']),
                    kind: ParsedChangeKindView::Add { lines: added },
                },
            ],
        ),
{
    let lines = lines_of(input);
    let end = 2 + added.len() as int;
    lemma_begin_marker();
    lemma_end_marker();
    assert(lines.len() == end + 1);
    assert(lines[1] == header("*** Add File:"@, join_of(names, seq!['/'])));
    assert(lines[end] == "*** End Patch"@);
    assert forall|k: int| 0 <= k < added.len() implies is_plain(
        PatchLineView::Add(#[trigger] added[k]),
    ) && lines[2 + k] == seq!['+'] + added[k] by {
        assert(added.map_values(|line: Seq<char>| seq!['+'] + line)[k] == seq!['+'] + added[k]);
    }
    let none: Seq<ParsedChangeView> = seq![];
    let change = ParsedChangeView {
        path: join_of(names, seq!['/']),
        kind: ParsedChangeKindView::Add { lines: added },
    };
    lemma_addition_is_read(lines, 1, none, names, added);
    lemma_one_section_ends(lines, end, change);
    assert(none.push(change) =~= seq![change]);
}

// ---------------------------------------------------------------------------
// Files
// ---------------------------------------------------------------------------
/// Lines that hold no line end, and are not a single empty one.
pub open spec fn are_lines(lines: Seq<Seq<char>>) -> bool {
    &&& lines.len() > 0
    &&& lines.len() > 1 || lines[0].len() > 0
    &&& forall|k: int| 0 <= k < lines.len() ==> !(#[trigger] lines[k]).contains('\n')
}

proof fn lemma_joined_lines(lines: Seq<Seq<char>>)
    requires
        are_lines(lines),
    ensures
        join_of(lines, seq!['\n']).len() > 0,
        file_lines(join_of(lines, seq!['\n']) + seq!['\n']) == lines,
{
    let body = join_of(lines, seq!['\n']);
    if lines.len() == 1 {
        assert(body == lines[0]);
    } else {
        assert(body == join_of(lines.drop_last(), seq!['\n']) + seq!['\n'] + lines.last());
    }
    let empty: Seq<char> = Seq::empty();
    let more = lines.push(empty);
    assert(more.drop_last() =~= lines);
    assert(join_of(more, seq!['\n']) =~= body + seq!['\n']);
    assert forall|k: int| 0 <= k < more.len() implies !(#[trigger] more[k]).contains('\n') by {
        if k < lines.len() {
            assert(more[k] == lines[k]);
        }
    }
    lemma_split_of_joined(more, '\n');
    assert(split_of(body + seq!['\n'], '\n') == more);
}

/// A file that is written with these lines has these lines, and ends in a line end.
pub proof fn lemma_written_file_has_its_lines(lines: Seq<Seq<char>>)
    requires
        are_lines(lines),
    ensures
        file_lines(rendered(lines, "\n"@, true)) == lines,
        ends_with_newline(rendered(lines, "\n"@, true)),
{
    reveal_strlit("\n");
    assert("\n"@ =~= seq!['\n']);
    lemma_joined_lines(lines);
}

/// The lines of a text hold no line end, and a text that ends in one has them in front of it.
pub proof fn lemma_text_is_its_lines(text: Seq<char>)
    requires
        ends_with_newline(text),
    ensures
        text == join_of(file_lines(text), seq!['\n']) + seq!['\n'],
        forall|k: int|
            0 <= k < file_lines(text).len() ==> !(#[trigger] file_lines(text)[k]).contains('\n'),
{
    lemma_split_cuts_at_separators(text, '\n');
    let pieces = split_of(text, '\n');
    let last = pieces.last();
    if pieces.len() == 1 {
        assert(join_of(pieces, seq!['\n']) == pieces[0]);
        assert(!pieces[0].contains('\n'));
        assert(text[text.len() - 1] == '\n');
    } else {
        let before = join_of(pieces.drop_last(), seq!['\n']);
        assert(text == before + seq!['\n'] + last);
        if last.len() > 0 {
            assert(text.last() == last.last());
            assert(!pieces[pieces.len() - 1].contains('\n'));
            assert(last.contains(last.last()));
        }
        assert(text =~= before + seq!['\n']);
        assert forall|k: int| 0 <= k < file_lines(text).len() implies !(#[trigger] file_lines(
            text,
        )[k]).contains('\n') by {
            assert(file_lines(text)[k] == pieces[k]);
        }
    }
}

/// Updating a file changes the lines that the hunk names, and no others: the file has the lines
/// in front of the place, then the lines that the hunk leaves, then the lines behind the place.
pub proof fn lemma_update_changes_the_lines_it_names(
    text: Seq<char>,
    hunk: Seq<PatchLineView>,
)
    requires
        ends_with_newline(text),
        !crate::text::occurs_in(text, "\r\n"@),
        forall|k: int|
            0 <= k < hunk.len() ==> !marked(#[trigger] hunk[k]).contains('\n'),
        patched_text(text, seq![hunk]) is Ok,
        hunk_applied(
            HunkState { lines: file_lines(text), cursor: 0, added: 0, removed: 0 },
            hunk,
        ) matches Ok(next) && (next.lines.len() > 1 || next.lines.len() == 1
            && next.lines[0].len() > 0),
    ensures
        ({
            let start = HunkState { lines: file_lines(text), cursor: 0, added: 0, removed: 0 };
            let new = (patched_text(text, seq![hunk])->Ok_0).0;
            &&& file_lines(new) == hunk_applied(start, hunk)->Ok_0.lines
            &&& ends_with_newline(new)
        }),
{
    reveal_strlit("\n");
    reveal_strlit("\r\n");
    assert("\n"@ =~= seq!['\n']);
    lemma_replace_absent(text, "\r\n"@, "\n"@);
    let start = HunkState { lines: file_lines(text), cursor: 0, added: 0, removed: 0 };
    let next = hunk_applied(start, hunk)->Ok_0;
    let hunks = seq![hunk];
    assert(hunks[0] == hunk);
    assert(hunks_applied_from(next, hunks, 1) == Ok::<HunkState, PatchErrorView>(next));
    assert(hunks_applied_from(start, hunks, 0) == Ok::<HunkState, PatchErrorView>(next));
    lemma_text_is_its_lines(text);
    lemma_new_side_has_no_line_ends(hunk);
    assert forall|k: int| 0 <= k < next.lines.len() implies !(#[trigger] next.lines[k]).contains(
        '\n',
    ) by {
        let at = next.cursor - new_side(hunk).len();
        let old = file_lines(text);
        if next.lines[k].contains('\n') {
            assert(next.lines == old.take(at) + new_side(hunk) + old.skip(
                at + old_side(hunk).len(),
            ));
            lemma_piece_of(old, new_side(hunk), at, at + old_side(hunk).len(), k);
        }
    }
    lemma_joined_lines(next.lines);
}

proof fn lemma_piece_of(
    old: Seq<Seq<char>>,
    new: Seq<Seq<char>>,
    at: int,
    behind: int,
    k: int,
)
    requires
        0 <= k < (old.take(at) + new + old.skip(behind)).len(),
        forall|j: int| 0 <= j < old.len() ==> !(#[trigger] old[j]).contains('\n'),
        forall|j: int| 0 <= j < new.len() ==> !(#[trigger] new[j]).contains('\n'),
        0 <= at <= behind <= old.len(),
    ensures
        !(old.take(at) + new + old.skip(behind))[k].contains('\n'),
{
    let all = old.take(at) + new + old.skip(behind);
    if k < at {
        assert(all[k] == old[k]);
    } else if k < at + new.len() {
        assert(all[k] == new[k - at]);
    } else {
        assert(all[k] == old[behind + (k - at - new.len())]);
    }
}

proof fn lemma_new_side_has_no_line_ends(hunk: Seq<PatchLineView>)
    requires
        forall|k: int|
            0 <= k < hunk.len() ==> !marked(#[trigger] hunk[k]).contains('\n'),
    ensures
        forall|k: int|
            0 <= k < new_side(hunk).len() ==> !(#[trigger] new_side(hunk)[k]).contains('\n'),
    decreases hunk.len(),
{
    if hunk.len() > 0 {
        let rest = hunk.drop_last();
        assert forall|k: int| 0 <= k < rest.len() implies !marked(#[trigger] rest[k]).contains(
            '\n',
        ) by {
            assert(rest[k] == hunk[k]);
        }
        lemma_new_side_has_no_line_ends(rest);
        let last = hunk[hunk.len() - 1];
        let text = crate::patch::hunks::line_text(last);
        assert(!marked(last).contains('\n'));
        if text.contains('\n') {
            let j = choose|j: int| 0 <= j < text.len() && text[j] == '\n';
            assert(marked(last)[j + 1] == '\n');
        }
        assert forall|k: int| 0 <= k < new_side(hunk).len() implies !(#[trigger] new_side(
            hunk,
        )[k]).contains('\n') by {
            if k < new_side(rest).len() {
                assert(new_side(hunk)[k] == new_side(rest)[k]);
            }
        }
    }
}

/// What a plan does to its file is what its section says: an added file gets the lines of the
/// section, a deleted one goes, an updated one gets what its hunks make of it; each keeps what it
/// takes to undo it, and is reported under the path of the section.
pub proof fn lemma_plans_do_what_sections_say(
    root: Location,
    changes: Vec<ParsedChange>,
    probes: Vec<TargetProbe>,
    r: Result<Vec<PlannedChange>, PatchError>,
    k: int,
)
    requires
        call_ensures(build_plans, (&root, &changes, &probes), r),
        probes@.len() == changes@.len(),
        r is Ok,
        0 <= k < changes@.len(),
    ensures
        r->Ok_0@.len() == changes@.len(),
        ({
            let plan = r->Ok_0@[k]@;
            &&& plan.relative == changes@[k]@.path
            &&& match changes@[k]@.kind {
                ParsedChangeKindView::Add { lines } => {
                    &&& plan.kind == PatchChangeKind::Added
                    &&& plan.original is None
                    &&& !probes@[k].taken
                    &&& plan.added_lines == lines.len() && plan.removed_lines == 0
                    &&& are_lines(lines) ==> exists|text: Seq<char>|
                        plan.content == Some(#[trigger] encode_utf8(text)) && file_lines(text)
                            == lines && text.last() == '\n'
                },
                ParsedChangeKindView::Delete => {
                    &&& plan.kind == PatchChangeKind::Deleted
                    &&& plan.content is None
                    &&& probes@[k].content matches Ok(bytes) && plan.original == Some(bytes@)
                    &&& plan.added_lines == 0
                    &&& plan.removed_lines == lines_of(
                        lossy_text(probes@[k].content->Ok_0@),
                    ).len()
                    &&& probes@[k].resolved matches Ok(place) && plan.target == place.display@
                },
                ParsedChangeKindView::Update { hunks } => {
                    &&& plan.kind == PatchChangeKind::Updated
                    &&& probes@[k].resolved matches Ok(place) && plan.target == place.display@
                    &&& probes@[k].content matches Ok(bytes) && plan.original == Some(bytes@)
                        && valid_utf8(bytes@) && (patched_text(
                        decode_utf8(bytes@),
                        hunks,
                    ) matches Ok((text, added, removed)) && plan.content == Some(encode_utf8(text))
                        && plan.added_lines == added && plan.removed_lines == removed)
                },
            }
        }),
{
    let all = changes_view(changes@);
    let n = changes@.len() as int;
    let plans = r->Ok_0@;
    assert(plans_view(plans).len() == plans.len());
    crate::patch::plan::lemma_plans_stay_in_the_workspace(root, all, probes@, n, k);
    crate::patch::plan::lemma_plan_of(root, all, probes@, n, k);
    assert(plans_view(plans)[k] == plans[k]@);
    assert(all[k] == changes@[k]@);
    if let ParsedChangeKindView::Add { lines } = changes@[k]@.kind {
        if are_lines(lines) {
            lemma_written_file_has_its_lines(lines);
            let text = rendered(lines, "\n"@, true);
            assert(plans[k]@.content == Some(encode_utf8(text)));
        }
    }
}

/// A plan that fails is followed by the steps that put back what was done before it, the last
/// first, and by nothing else; plans that succeed are followed by the next, and the last by the
/// report of all.
pub proof fn lemma_transactions_go_on_or_back(
    plans: Vec<PlannedChange>,
    index: usize,
    outcome: Result<(), String>,
    r: TransactionStep,
)
    requires
        index < plans@.len(),
        call_ensures(after_attempt, (&plans, index, outcome), r),
    ensures
        outcome is Ok && index + 1 < plans@.len() ==> (r matches TransactionStep::Apply(next) && next
            == index + 1),
        outcome is Ok && index + 1 == plans@.len() ==> (r matches TransactionStep::Done(result)
            && result.changes@.len() == plans@.len() && forall|k: int|
            0 <= k < plans@.len() ==> (#[trigger] result.changes@[k]).path@
                == plans@[k].relative@ && result.changes@[k].kind == plans@[k].kind
                && result.changes@[k].added_lines == plans@[k].added_lines
                && result.changes@[k].removed_lines == plans@[k].removed_lines),
        outcome is Err ==> (r matches TransactionStep::Undo { steps, error } && steps@.len() == index
            && forall|k: int|
            0 <= k < index ==> (#[trigger] steps@[k]).target@ == plans@[index - 1 - k].target@
                && bytes_of(steps@[k].content) == bytes_of(plans@[index - 1 - k].original)),
{
    let all = plans_view(plans@);
    assert forall|k: int| 0 <= k < plans@.len() implies #[trigger] all[k] == plans@[k]@ by {}
    if outcome is Ok && index + 1 == plans@.len() {
        let result = r->Done_0;
        assert forall|k: int| 0 <= k < plans@.len() implies (#[trigger] result.changes@[k]).path@
            == plans@[k].relative@ && result.changes@[k].kind == plans@[k].kind
            && result.changes@[k].added_lines == plans@[k].added_lines
            && result.changes@[k].removed_lines == plans@[k].removed_lines by {
            assert(crate::patch::apply::reports(result.changes@[k], all[k]));
        }
    }
    if outcome is Err {
        let steps = r->steps;
        assert forall|k: int| 0 <= k < index implies (#[trigger] steps@[k]).target@ == plans@[index
            - 1 - k].target@ && bytes_of(steps@[k].content) == bytes_of(
            plans@[index - 1 - k].original,
        ) by {
            assert(crate::patch::apply::restores(
                steps@[k],
                all.take(index as int)[index - 1 - k],
            ));
        }
    }
}

/// A patch is looked at exactly if it may be: under a grant that holds, and allows to read and to
/// write, from a directory of the workspace.
pub proof fn lemma_patches_need_leave(
    grant: ActionGrant,
    root: Result<Location, String>,
    directory: Result<Location, String>,
    patch: &str,
    r: Result<Vec<ParsedChange>, PatchError>,
)
    requires
        call_ensures(open_patch, (&grant, &root, &directory, patch), r),
    ensures
        ({
            let may = grant.approval is Some && grant.objection is None && grant.workspace.reads()
                && grant.allow_write && root is Ok && directory is Ok
                && root->Ok_0.parts().is_prefix_of(directory->Ok_0.parts());
            &&& !may ==> r is Err
            &&& may ==> match parse_of(patch@) {
                Ok(changes) => r is Ok && changes_view(r->Ok_0@) == changes,
                Err(error) => r is Err && r->Err_0@ == error,
            }
        }),
{
    if root is Ok && directory is Ok {
        let n = root->Ok_0.parts().len() as int;
        if n <= directory->Ok_0.parts().len() {
            assert(directory->Ok_0.parts().take(n) =~= directory->Ok_0.parts().subrange(0, n));
        }
    }
}

/// Only a file of the workspace is changed or deleted.
pub proof fn lemma_only_files_of_the_workspace_are_changed(
    root: Location,
    target: Location,
    is_file: bool,
    r: Result<(), PatchError>,
)
    requires
        call_ensures(check_existing_target, (&root, &target, is_file), r),
    ensures
        r is Ok <==> is_file && root.parts().is_prefix_of(target.parts()),
{
    let n = root.parts().len() as int;
    if n <= target.parts().len() {
        assert(target.parts().take(n) =~= target.parts().subrange(0, n));
    }
}

} // verus!

//! The patch grammar: sections of file changes between a begin and an end marker.
use vstd::prelude::*;
use vstd::string::{StrSliceExecFns, StringExecFns};

use crate::patch::error::{PatchError, PatchErrorView};
use crate::paths::{components_of, lemma_named_pieces, same_components};
use crate::text::{
    byte_len, contains_char, lines, lines_of, occurs_at, split, split_of, starts_with, str_eq,
    strip_prefix, strip_prefix_of, swap_char, swap_char_of, texts, trim, trim_end_char,
    trim_end_char_of, trim_of, utf8_len,
};

verus! {

pub const MAX_PATCH_BYTES: usize = 2 * 1024 * 1024;

pub const MAX_PATCH_FILES: usize = 128;

/// One line of a hunk.
#[derive(Clone, Debug)]
pub enum PatchLine {
    Context(String),
    Add(String),
    Remove(String),
}

pub enum PatchLineView {
    Context(Seq<char>),
    Add(Seq<char>),
    Remove(Seq<char>),
}

impl View for PatchLine {
    type V = PatchLineView;

    open spec fn view(&self) -> PatchLineView {
        match *self {
            PatchLine::Context(text) => PatchLineView::Context(text@),
            PatchLine::Add(text) => PatchLineView::Add(text@),
            PatchLine::Remove(text) => PatchLineView::Remove(text@),
        }
    }
}

/// The lines of one hunk.
pub open spec fn hunk_view(hunk: Seq<PatchLine>) -> Seq<PatchLineView> {
    hunk.map_values(|line: PatchLine| line@)
}

/// The hunks of one file.
pub open spec fn hunks_view(hunks: Seq<Vec<PatchLine>>) -> Seq<Seq<PatchLineView>> {
    hunks.map_values(|hunk: Vec<PatchLine>| hunk_view(hunk@))
}

#[derive(Clone, Debug)]
pub enum ParsedChangeKind {
    Add { lines: Vec<String> },
    Delete,
    Update { hunks: Vec<Vec<PatchLine>> },
}

pub enum ParsedChangeKindView {
    Add { lines: Seq<Seq<char>> },
    Delete,
    Update { hunks: Seq<Seq<PatchLineView>> },
}

/// One file section of a patch; the path uses `/` between components.
#[derive(Clone, Debug)]
pub struct ParsedChange {
    pub path: String,
    pub kind: ParsedChangeKind,
}

pub struct ParsedChangeView {
    pub path: Seq<char>,
    pub kind: ParsedChangeKindView,
}

impl View for ParsedChange {
    type V = ParsedChangeView;

    open spec fn view(&self) -> ParsedChangeView {
        ParsedChangeView {
            path: self.path@,
            kind: match self.kind {
                ParsedChangeKind::Add { lines } => ParsedChangeKindView::Add {
                    lines: texts(lines@),
                },
                ParsedChangeKind::Delete => ParsedChangeKindView::Delete,
                ParsedChangeKind::Update { hunks } => ParsedChangeKindView::Update {
                    hunks: hunks_view(hunks@),
                },
            },
        }
    }
}

pub open spec fn changes_view(changes: Seq<ParsedChange>) -> Seq<ParsedChangeView> {
    changes.map_values(|change: ParsedChange| change@)
}

// ---------------------------------------------------------------------------
// The grammar
// ---------------------------------------------------------------------------
/// A line without the carriage returns at its end.
pub open spec fn chomp(line: Seq<char>) -> Seq<char> {
    trim_end_char_of(line, '\r')
}

pub open spec fn is_blank(line: Seq<char>) -> bool {
    trim_of(line).len() == 0
}

pub open spec fn is_end_marker(line: Seq<char>) -> bool {
    trim_of(line) == "*** End Patch"@
}

/// A line that starts the next section, or ends the patch.
pub open spec fn is_section_header_line(line: Seq<char>) -> bool {
    let text = chomp(line);
    ||| occurs_at(text, "*** Add File:"@, 0)
    ||| occurs_at(text, "*** Delete File:"@, 0)
    ||| occurs_at(text, "*** Update File:"@, 0)
    ||| is_end_marker(text)
}

/// A path that stays below the directory it is joined to: relative, without drive or stream
/// separators, and without any step upwards.
pub open spec fn is_safe_path(value: Seq<char>) -> bool {
    let path = swap_char_of(value, '\\', '/');
    let pieces = split_of(path, '/');
    &&& value.len() > 0
    &&& !value.contains('\0')
    &&& !value.contains(':')
    &&& path[0] != '/'
    &&& pieces[0] != "."@
    &&& !pieces.contains(".."@)
}

/// The path of a section header.
pub open spec fn section_path(raw: Seq<char>) -> Result<Seq<char>, PatchErrorView> {
    let value = trim_of(raw);
    if is_safe_path(value) {
        Ok(swap_char_of(value, '\\', '/'))
    } else {
        Err(PatchErrorView::InvalidPath(value))
    }
}

/// The lines of an added file that stand from line `i` on, and the line behind them.
pub open spec fn added_from(
    lines: Seq<Seq<char>>,
    i: int,
    content: Seq<Seq<char>>,
    path: Seq<char>,
) -> Result<(Seq<Seq<char>>, int), PatchErrorView>
    decreases lines.len() - i,
{
    if i >= lines.len() || is_section_header_line(lines[i]) {
        Ok((content, i))
    } else {
        let body = chomp(lines[i]);
        if body == "*** End of File"@ {
            added_from(lines, i + 1, content, path)
        } else if body.len() > 0 && body[0] == '+' {
            added_from(lines, i + 1, content.push(body.skip(1)), path)
        } else {
            Err(
                PatchErrorView::InvalidPatch(
                    "add file `"@ + path + "` contains a line without `+`"@,
                ),
            )
        }
    }
}

/// The hunks so far, with a hunk that is still being read.
pub open spec fn close_hunk(
    hunks: Seq<Seq<PatchLineView>>,
    current: Seq<PatchLineView>,
) -> Seq<Seq<PatchLineView>> {
    if current.len() > 0 {
        hunks.push(current)
    } else {
        hunks
    }
}

/// What one line of a hunk says; `None` when it says nothing.
pub open spec fn hunk_line(body: Seq<char>) -> Option<PatchLineView> {
    if body.len() == 0 {
        Some(PatchLineView::Context(seq![]))
    } else if body[0] == '+' {
        Some(PatchLineView::Add(body.skip(1)))
    } else if body[0] == '-' {
        Some(PatchLineView::Remove(body.skip(1)))
    } else if body[0] == ' ' {
        Some(PatchLineView::Context(body.skip(1)))
    } else {
        None
    }
}

/// The hunks of an updated file that stand from line `i` on, and the line behind them.
pub open spec fn hunks_from(
    lines: Seq<Seq<char>>,
    i: int,
    hunks: Seq<Seq<PatchLineView>>,
    current: Seq<PatchLineView>,
    path: Seq<char>,
) -> Result<(Seq<Seq<PatchLineView>>, int), PatchErrorView>
    decreases lines.len() - i,
{
    if i >= lines.len() || is_section_header_line(lines[i]) {
        if close_hunk(hunks, current).len() == 0 {
            Err(PatchErrorView::InvalidPatch("update file `"@ + path + "` has no hunk lines"@))
        } else {
            Ok((close_hunk(hunks, current), i))
        }
    } else {
        let body = chomp(lines[i]);
        if occurs_at(body, "*** Move to:"@, 0) {
            Err(
                PatchErrorView::Unsupported(
                    "`*** Move to:` is not supported in the first patch baseline"@,
                ),
            )
        } else if occurs_at(body, "@@"@, 0) {
            hunks_from(lines, i + 1, close_hunk(hunks, current), seq![], path)
        } else if body == "*** End of File"@ {
            hunks_from(lines, i + 1, hunks, current, path)
        } else {
            match hunk_line(body) {
                Some(line) => hunks_from(lines, i + 1, hunks, current.push(line), path),
                None => Err(
                    PatchErrorView::InvalidPatch(
                        "update file `"@ + path + "` contains an invalid line `"@ + body + "`"@,
                    ),
                ),
            }
        }
    }
}

/// The sections from line `i` on, added to those already read.
pub open spec fn sections_from(
    lines: Seq<Seq<char>>,
    i: int,
    changes: Seq<ParsedChangeView>,
) -> Result<Seq<ParsedChangeView>, PatchErrorView>
    decreases lines.len() - i,
    when 0 <= i
    via sections_from_decreases
{
    if i >= lines.len() {
        Err(PatchErrorView::InvalidPatch("patch must end with `*** End Patch`"@))
    } else {
        let line = chomp(lines[i]);
        if is_blank(line) {
            sections_from(lines, i + 1, changes)
        } else if is_end_marker(line) {
            finish(lines, i + 1, changes)
        } else if let Some(raw) = strip_prefix_of(line, "*** Add File:"@) {
            match section_path(raw) {
                Err(error) => Err(error),
                Ok(path) => match added_from(lines, i + 1, seq![], path) {
                    Err(error) => Err(error),
                    Ok((content, next)) => sections_from(
                        lines,
                        next,
                        changes.push(
                            ParsedChangeView {
                                path,
                                kind: ParsedChangeKindView::Add { lines: content },
                            },
                        ),
                    ),
                },
            }
        } else if let Some(raw) = strip_prefix_of(line, "*** Delete File:"@) {
            match section_path(raw) {
                Err(error) => Err(error),
                Ok(path) => sections_from(
                    lines,
                    i + 1,
                    changes.push(ParsedChangeView { path, kind: ParsedChangeKindView::Delete }),
                ),
            }
        } else if let Some(raw) = strip_prefix_of(line, "*** Update File:"@) {
            match section_path(raw) {
                Err(error) => Err(error),
                Ok(path) => match hunks_from(lines, i + 1, seq![], seq![], path) {
                    Err(error) => Err(error),
                    Ok((hunks, next)) => sections_from(
                        lines,
                        next,
                        changes.push(
                            ParsedChangeView { path, kind: ParsedChangeKindView::Update { hunks } },
                        ),
                    ),
                },
            }
        } else {
            Err(PatchErrorView::InvalidPatch("unsupported patch section `"@ + line + "`"@))
        }
    }
}

#[via_fn]
proof fn sections_from_decreases(
    lines: Seq<Seq<char>>,
    i: int,
    changes: Seq<ParsedChangeView>,
) {
    if i < lines.len() {
        let line = chomp(lines[i]);
        if let Some(raw) = strip_prefix_of(line, "*** Add File:"@) {
            if let Ok(path) = section_path(raw) {
                lemma_added_from_advances(lines, i + 1, seq![], path);
            }
        }
        if let Some(raw) = strip_prefix_of(line, "*** Update File:"@) {
            if let Ok(path) = section_path(raw) {
                lemma_hunks_from_advances(lines, i + 1, seq![], seq![], path);
            }
        }
    }
}

proof fn lemma_added_from_advances(
    lines: Seq<Seq<char>>,
    i: int,
    content: Seq<Seq<char>>,
    path: Seq<char>,
)
    requires
        i <= lines.len(),
    ensures
        added_from(lines, i, content, path) is Ok ==> i <= added_from(
            lines,
            i,
            content,
            path,
        )->Ok_0.1 <= lines.len(),
    decreases lines.len() - i,
{
    if i < lines.len() && !is_section_header_line(lines[i]) {
        let body = chomp(lines[i]);
        lemma_added_from_advances(lines, i + 1, content, path);
        lemma_added_from_advances(lines, i + 1, content.push(body.skip(1)), path);
    }
}

proof fn lemma_hunks_from_advances(
    lines: Seq<Seq<char>>,
    i: int,
    hunks: Seq<Seq<PatchLineView>>,
    current: Seq<PatchLineView>,
    path: Seq<char>,
)
    requires
        i <= lines.len(),
    ensures
        hunks_from(lines, i, hunks, current, path) is Ok ==> i <= hunks_from(
            lines,
            i,
            hunks,
            current,
            path,
        )->Ok_0.1 <= lines.len(),
    decreases lines.len() - i,
{
    if i < lines.len() && !is_section_header_line(lines[i]) {
        let body = chomp(lines[i]);
        lemma_hunks_from_advances(lines, i + 1, close_hunk(hunks, current), seq![], path);
        lemma_hunks_from_advances(lines, i + 1, hunks, current, path);
        if let Some(line) = hunk_line(body) {
            lemma_hunks_from_advances(lines, i + 1, hunks, current.push(line), path);
        }
    }
}

/// The path of the first section, from `k` on, whose file an earlier section names too.
pub open spec fn repeated_path_from(changes: Seq<ParsedChangeView>, k: int) -> Option<Seq<char>>
    decreases changes.len() - k,
{
    if k >= changes.len() {
        None
    } else if named_before(changes, k) {
        Some(changes[k].path)
    } else {
        repeated_path_from(changes, k + 1)
    }
}

/// A section before `k` names the same file.
pub open spec fn named_before(changes: Seq<ParsedChangeView>, k: int) -> bool {
    exists|j: int|
        0 <= j < k && #[trigger] components_of(changes[j].path) == components_of(changes[k].path)
}

/// What a patch means once its end marker has been read.
pub open spec fn finish(
    lines: Seq<Seq<char>>,
    i: int,
    changes: Seq<ParsedChangeView>,
) -> Result<Seq<ParsedChangeView>, PatchErrorView> {
    if exists|k: int| i <= k < lines.len() && !is_blank(#[trigger] lines[k]) {
        Err(
            PatchErrorView::InvalidPatch(
                "no non-empty content is allowed after `*** End Patch`"@,
            ),
        )
    } else if changes.len() == 0 {
        Err(PatchErrorView::InvalidPatch("patch must contain at least one file section"@))
    } else if changes.len() > MAX_PATCH_FILES {
        Err(
            PatchErrorView::TooManyFiles { count: changes.len(), maximum: MAX_PATCH_FILES as nat },
        )
    } else if let Some(path) = repeated_path_from(changes, 0) {
        Err(PatchErrorView::DuplicatePath(path))
    } else {
        Ok(changes)
    }
}

/// What a patch text means.
pub open spec fn parse_of(input: Seq<char>) -> Result<Seq<ParsedChangeView>, PatchErrorView> {
    let lines = lines_of(input);
    if input.len() == 0 {
        Err(PatchErrorView::EmptyPatch)
    } else if utf8_len(input) > MAX_PATCH_BYTES {
        Err(
            PatchErrorView::PatchTooLarge {
                length: utf8_len(input),
                maximum: MAX_PATCH_BYTES as nat,
            },
        )
    } else if lines.len() == 0 || trim_of(lines[0]) != "*** Begin Patch"@ {
        Err(PatchErrorView::InvalidPatch("first line must be `*** Begin Patch`"@))
    } else {
        sections_from(lines, 1, seq![])
    }
}

// ---------------------------------------------------------------------------
// The parser
// ---------------------------------------------------------------------------
fn is_section_header(line: &str) -> (r: bool)
    ensures
        r == is_section_header_line(line@),
{
    let text = trim_end_char(line, '\r');
    starts_with(text, "*** Add File:") || starts_with(text, "*** Delete File:") || starts_with(
        text,
        "*** Update File:",
    ) || str_eq(trim(text), "*** End Patch")
}

/// The path with `/` between components, when it cannot leave the workspace.
pub fn validate_relative_path(value: &str) -> (r: Result<String, PatchError>)
    ensures
        match r {
            Ok(path) => is_safe_path(value@) && path@ == swap_char_of(value@, '\\', '/'),
            Err(error) => !is_safe_path(value@) && error@ == PatchErrorView::InvalidPath(value@),
        },
{
    if value.is_empty() || contains_char(value, '\0') || contains_char(value, ':') {
        return Err(PatchError::InvalidPath(value.to_owned()));
    }
    let path = swap_char(value, '\\', '/');
    if path.as_str().get_char(0) == '/' {
        return Err(PatchError::InvalidPath(value.to_owned()));
    }
    let pieces = split(path.as_str(), '/');
    assert(texts(pieces@)[0] == pieces@[0]@);
    if str_eq(pieces[0].as_str(), ".") {
        return Err(PatchError::InvalidPath(value.to_owned()));
    }
    let mut i: usize = 0;
    while i < pieces.len()
        invariant
            texts(pieces@) == split_of(path@, '/'),
            path@ == swap_char_of(value@, '\\', '/'),
            i <= pieces@.len(),
            forall|k: int| 0 <= k < i ==> (#[trigger] pieces@[k])@ != ".."@,
        decreases pieces@.len() - i,
    {
        if str_eq(pieces[i].as_str(), "..") {
            assert(texts(pieces@)[i as int] == ".."@);
            return Err(PatchError::InvalidPath(value.to_owned()));
        }
        i += 1;
    }
    assert forall|k: int| 0 <= k < texts(pieces@).len() implies texts(pieces@)[k] != ".."@ by {
        assert(texts(pieces@)[k] == pieces@[k]@);
    }
    Ok(path)
}

fn parse_added(lines: &Vec<String>, from: usize, path: &str) -> (r: Result<
    (Vec<String>, usize),
    PatchError,
>)
    requires
        from <= lines@.len(),
    ensures
        match r {
            Ok((content, next)) => added_from(texts(lines@), from as int, seq![], path@) == Ok::<
                (Seq<Seq<char>>, int),
                PatchErrorView,
            >((texts(content@), next as int)) && from <= next <= lines@.len(),
            Err(error) => added_from(texts(lines@), from as int, seq![], path@) == Err::<
                (Seq<Seq<char>>, int),
                PatchErrorView,
            >(error@),
        },
{
    let mut content: Vec<String> = Vec::new();
    let mut i: usize = from;
    assert(texts(content@) =~= seq![]);
    while i < lines.len() && !is_section_header(lines[i].as_str())
        invariant
            from <= i <= lines@.len(),
            added_from(texts(lines@), from as int, seq![], path@) == added_from(
                texts(lines@),
                i as int,
                texts(content@),
                path@,
            ),
        decreases lines@.len() - i,
    {
        let body = trim_end_char(lines[i].as_str(), '\r');
        proof {
            reveal_strlit("+");
            assert(texts(lines@)[i as int] == lines@[i as int]@);
        }
        if str_eq(body, "*** End of File") {
            i += 1;
            continue ;
        }
        if body.is_empty() || body.get_char(0) != '+' {
            let mut message = "add file `".to_owned();
            message.append(path);
            message.append("` contains a line without `+`");
            return Err(PatchError::InvalidPatch(message));
        }
        let rest = body.substring_char(1, body.unicode_len());
        let ghost before = content@;
        content.push(rest.to_owned());
        proof {
            assert(rest@ =~= body@.skip(1));
            assert(texts(content@) =~= texts(before).push(body@.skip(1)));
        }
        i += 1;
    }
    proof {
        if i < lines@.len() {
            assert(texts(lines@)[i as int] == lines@[i as int]@);
        }
    }
    Ok((content, i))
}

/// What one line of a hunk says; `None` when it says nothing.
fn parse_hunk_line(body: &str) -> (r: Option<PatchLine>)
    ensures
        r is Some == hunk_line(body@) is Some,
        r is Some ==> r->0@ == hunk_line(body@)->0,
{
    if body.is_empty() {
        let line = PatchLine::Context(String::new());
        assert(line@->Context_0 =~= seq![]);
        return Some(line);
    }
    let first = body.get_char(0);
    let rest = body.substring_char(1, body.unicode_len());
    assert(rest@ =~= body@.skip(1));
    if first == '+' {
        Some(PatchLine::Add(rest.to_owned()))
    } else if first == '-' {
        Some(PatchLine::Remove(rest.to_owned()))
    } else if first == ' ' {
        Some(PatchLine::Context(rest.to_owned()))
    } else {
        None
    }
}

/// How many lines the hunks hold together.
pub open spec fn hunk_line_count(hunks: Seq<Vec<PatchLine>>) -> nat
    decreases hunks.len(),
{
    if hunks.len() == 0 {
        0
    } else {
        hunk_line_count(hunks.drop_last()) + hunks.last()@.len()
    }
}

fn parse_hunks(lines: &Vec<String>, from: usize, path: &str) -> (r: Result<
    (Vec<Vec<PatchLine>>, usize),
    PatchError,
>)
    requires
        from <= lines@.len(),
    ensures
        match r {
            Ok((hunks, next)) => hunks_from(
                texts(lines@),
                from as int,
                seq![],
                seq![],
                path@,
            ) == Ok::<(Seq<Seq<PatchLineView>>, int), PatchErrorView>(
                (hunks_view(hunks@), next as int),
            ) && from <= next <= lines@.len() && hunk_line_count(hunks@) <= lines@.len(),
            Err(error) => hunks_from(
                texts(lines@),
                from as int,
                seq![],
                seq![],
                path@,
            ) == Err::<(Seq<Seq<PatchLineView>>, int), PatchErrorView>(error@),
        },
{
    let mut hunks: Vec<Vec<PatchLine>> = Vec::new();
    let mut current: Vec<PatchLine> = Vec::new();
    let mut i: usize = from;
    proof {
        assert(hunks_view(hunks@) =~= seq![]);
        assert(hunk_view(current@) =~= seq![]);
    }
    while i < lines.len() && !is_section_header(lines[i].as_str())
        invariant
            from <= i <= lines@.len(),
            hunk_line_count(hunks@) + current@.len() <= i - from,
            hunks_from(texts(lines@), from as int, seq![], seq![], path@) == hunks_from(
                texts(lines@),
                i as int,
                hunks_view(hunks@),
                hunk_view(current@),
                path@,
            ),
        decreases lines@.len() - i,
    {
        let body = trim_end_char(lines[i].as_str(), '\r');
        assert(texts(lines@)[i as int] == lines@[i as int]@);
        if starts_with(body, "*** Move to:") {
            return Err(
                PatchError::Unsupported(
                    "`*** Move to:` is not supported in the first patch baseline".to_owned(),
                ),
            );
        }
        if starts_with(body, "@@") {
            if current.len() > 0 {
                let ghost before = hunks@;
                let ghost closed = current@;
                hunks.push(current);
                proof {
                    assert(hunks@.drop_last() =~= before);
                    assert(hunks_view(hunks@) =~= hunks_view(before).push(hunk_view(closed)));
                }
                current = Vec::new();
            }
            assert(hunk_view(current@) =~= seq![]);
            i += 1;
            continue ;
        }
        if str_eq(body, "*** End of File") {
            i += 1;
            continue ;
        }
        match parse_hunk_line(body) {
            Some(line) => {
                let ghost before = current@;
                current.push(line);
                assert(hunk_view(current@) =~= hunk_view(before).push(line@));
            },
            None => {
                let mut message = "update file `".to_owned();
                message.append(path);
                message.append("` contains an invalid line `");
                message.append(body);
                message.append("`");
                return Err(PatchError::InvalidPatch(message));
            },
        }
        i += 1;
    }
    proof {
        if i < lines@.len() {
            assert(texts(lines@)[i as int] == lines@[i as int]@);
        }
    }
    if current.len() > 0 {
        let ghost before = hunks@;
        let ghost closed = current@;
        hunks.push(current);
        proof {
            assert(hunks@.drop_last() =~= before);
            assert(hunks_view(hunks@) =~= hunks_view(before).push(hunk_view(closed)));
        }
    }
    if hunks.len() == 0 {
        let mut message = "update file `".to_owned();
        message.append(path);
        message.append("` has no hunk lines");
        return Err(PatchError::InvalidPatch(message));
    }
    Ok((hunks, i))
}

fn path_is_named_before(changes: &Vec<ParsedChange>, k: usize) -> (r: bool)
    requires
        k < changes@.len(),
    ensures
        r == named_before(changes_view(changes@), k as int),
{
    let mut j: usize = 0;
    while j < k
        invariant
            j <= k < changes@.len(),
            forall|x: int|
                0 <= x < j ==> #[trigger] components_of(changes_view(changes@)[x].path)
                    != components_of(changes_view(changes@)[k as int].path),
        decreases k - j,
    {
        assert(changes_view(changes@)[j as int].path == changes@[j as int].path@);
        assert(changes_view(changes@)[k as int].path == changes@[k as int].path@);
        if same_components(changes[j].path.as_str(), changes[k].path.as_str()) {
            return true;
        }
        j += 1;
    }
    false
}

/// The checks on a patch whose end marker stands just before line `from`.
fn finish_patch(lines: &Vec<String>, from: usize, changes: Vec<ParsedChange>) -> (r: Result<
    Vec<ParsedChange>,
    PatchError,
>)
    requires
        from <= lines@.len(),
    ensures
        match r {
            Ok(all) => all == changes && finish(texts(lines@), from as int, changes_view(changes@))
                == Ok::<Seq<ParsedChangeView>, PatchErrorView>(changes_view(changes@)),
            Err(error) => finish(texts(lines@), from as int, changes_view(changes@)) == Err::<
                Seq<ParsedChangeView>,
                PatchErrorView,
            >(error@),
        },
{
    let mut i: usize = from;
    while i < lines.len()
        invariant
            from <= i <= lines@.len(),
            forall|k: int| from <= k < i ==> is_blank(#[trigger] texts(lines@)[k]),
        decreases lines@.len() - i,
    {
        assert(texts(lines@)[i as int] == lines@[i as int]@);
        if !trim(lines[i].as_str()).is_empty() {
            return Err(
                PatchError::InvalidPatch(
                    "no non-empty content is allowed after `*** End Patch`".to_owned(),
                ),
            );
        }
        i += 1;
    }
    if changes.len() == 0 {
        return Err(
            PatchError::InvalidPatch("patch must contain at least one file section".to_owned()),
        );
    }
    if changes.len() > MAX_PATCH_FILES {
        return Err(
            PatchError::TooManyFiles { count: changes.len(), maximum: MAX_PATCH_FILES },
        );
    }
    let mut k: usize = 0;
    while k < changes.len()
        invariant
            k <= changes@.len(),
            0 < changes@.len() <= MAX_PATCH_FILES,
            forall|x: int|
                from <= x < texts(lines@).len() ==> is_blank(#[trigger] texts(lines@)[x]),
            repeated_path_from(changes_view(changes@), 0) == repeated_path_from(
                changes_view(changes@),
                k as int,
            ),
        decreases changes@.len() - k,
    {
        if path_is_named_before(&changes, k) {
            assert(changes_view(changes@)[k as int].path == changes@[k as int].path@);
            return Err(PatchError::DuplicatePath(changes[k].path.clone()));
        }
        k += 1;
    }
    Ok(changes)
}

/// Reads a patch text; the first rule that it breaks is the error.
pub fn parse_patch(input: &str) -> (r: Result<Vec<ParsedChange>, PatchError>)
    ensures
        match r {
            Ok(changes) => parse_of(input@) == Ok::<Seq<ParsedChangeView>, PatchErrorView>(
                changes_view(changes@),
            ) && countable(changes@),
            Err(error) => parse_of(input@) == Err::<Seq<ParsedChangeView>, PatchErrorView>(error@),
        },
{
    if input.is_empty() {
        return Err(PatchError::EmptyPatch);
    }
    let length: usize = byte_len(input);
    if length > MAX_PATCH_BYTES {
        return Err(PatchError::PatchTooLarge { length, maximum: MAX_PATCH_BYTES });
    }
    let lines = lines(input);
    let line_count: usize = lines.len();
    let ghost all = texts(lines@);
    proof {
        if lines@.len() > 0 {
            assert(all[0] == lines@[0]@);
        }
    }
    if lines.len() == 0 || !str_eq(trim(lines[0].as_str()), "*** Begin Patch") {
        return Err(
            PatchError::InvalidPatch("first line must be `*** Begin Patch`".to_owned()),
        );
    }
    let mut i: usize = 1;
    let mut changes: Vec<ParsedChange> = Vec::new();
    assert(changes_view(changes@) =~= seq![]);
    while i < lines.len()
        invariant
            line_count == lines@.len(),
            all == texts(lines@),
            1 <= i <= lines@.len(),
            countable(changes@),
            parse_of(input@) == sections_from(all, i as int, changes_view(changes@)),
        decreases lines@.len() - i,
    {
        let line = trim_end_char(lines[i].as_str(), '\r');
        let ghost before = changes@;
        assert(all[i as int] == lines@[i as int]@);
        if trim(line).is_empty() {
            i += 1;
            continue ;
        }
        if str_eq(trim(line), "*** End Patch") {
            return finish_patch(&lines, i + 1, changes);
        }
        if let Some(raw) = strip_prefix(line, "*** Add File:") {
            let path = match validate_relative_path(trim(raw)) {
                Ok(path) => path,
                Err(error) => return Err(error),
            };
            let (content, next) = match parse_added(&lines, i + 1, path.as_str()) {
                Ok(parsed) => parsed,
                Err(error) => return Err(error),
            };
            let change = ParsedChange { path, kind: ParsedChangeKind::Add { lines: content } };
            changes.push(change);
            assert(changes_view(changes@) =~= changes_view(before).push(change@));
            i = next;
            continue ;
        }
        if let Some(raw) = strip_prefix(line, "*** Delete File:") {
            let path = match validate_relative_path(trim(raw)) {
                Ok(path) => path,
                Err(error) => return Err(error),
            };
            let change = ParsedChange { path, kind: ParsedChangeKind::Delete };
            changes.push(change);
            assert(changes_view(changes@) =~= changes_view(before).push(change@));
            i += 1;
            continue ;
        }
        if let Some(raw) = strip_prefix(line, "*** Update File:") {
            let path = match validate_relative_path(trim(raw)) {
                Ok(path) => path,
                Err(error) => return Err(error),
            };
            let (hunks, next) = match parse_hunks(&lines, i + 1, path.as_str()) {
                Ok(parsed) => parsed,
                Err(error) => return Err(error),
            };
            let change = ParsedChange { path, kind: ParsedChangeKind::Update { hunks } };
            changes.push(change);
            assert(changes_view(changes@) =~= changes_view(before).push(change@));
            i = next;
            continue ;
        }
        let mut message = "unsupported patch section `".to_owned();
        message.append(line);
        message.append("`");
        return Err(PatchError::InvalidPatch(message));
    }
    Err(PatchError::InvalidPatch("patch must end with `*** End Patch`".to_owned()))
}

/// The lines of each updated file can be counted with a machine word.
pub open spec fn countable(changes: Seq<ParsedChange>) -> bool {
    forall|k: int| 0 <= k < changes.len() ==> (#[trigger] changes[k]).is_countable()
}

impl ParsedChange {
    pub open spec fn is_countable(self) -> bool {
        match self.kind {
            ParsedChangeKind::Update { hunks } => hunk_line_count(hunks@) <= usize::MAX,
            _ => true,
        }
    }
}

// ---------------------------------------------------------------------------
// What every accepted patch keeps to
// ---------------------------------------------------------------------------
/// The path is relative and none of its components steps upwards.
pub open spec fn stays_below(path: Seq<char>) -> bool {
    &&& path.len() > 0
    &&& path[0] != '/'
    &&& !components_of(path).contains(".."@)
}

pub open spec fn all_stay_below(changes: Seq<ParsedChangeView>) -> bool {
    forall|k: int| 0 <= k < changes.len() ==> stays_below(#[trigger] changes[k].path)
}

/// No two sections name the same file.
pub open spec fn all_distinct(changes: Seq<ParsedChangeView>) -> bool {
    forall|j: int, k: int|
        0 <= j < k < changes.len() ==> #[trigger] components_of(changes[j].path)
            != #[trigger] components_of(changes[k].path)
}

/// Every accepted patch names between one and [`MAX_PATCH_FILES`] files, each by a relative
/// path that never steps upwards, and no file twice.
pub proof fn lemma_accepted_patch_is_contained(input: Seq<char>)
    requires
        parse_of(input) is Ok,
    ensures
        0 < parse_of(input)->Ok_0.len() <= MAX_PATCH_FILES,
        all_stay_below(parse_of(input)->Ok_0),
        all_distinct(parse_of(input)->Ok_0),
{
    lemma_sections_contained(lines_of(input), 1, seq![]);
}

proof fn lemma_section_path(raw: Seq<char>)
    ensures
        section_path(raw) is Ok ==> stays_below(section_path(raw)->Ok_0),
{
    let value = trim_of(raw);
    if is_safe_path(value) {
        let path = swap_char_of(value, '\\', '/');
        let pieces = split_of(path, '/');
        lemma_named_pieces(pieces);
        let names = components_of(path);
        if names.contains(".."@) {
            let k = choose|k: int| 0 <= k < names.len() && names[k] == ".."@;
            assert(pieces.contains(names[k]));
        }
    }
}

proof fn lemma_sections_contained(
    lines: Seq<Seq<char>>,
    i: int,
    changes: Seq<ParsedChangeView>,
)
    requires
        0 <= i,
        all_stay_below(changes),
        sections_from(lines, i, changes) is Ok,
    ensures
        0 < sections_from(lines, i, changes)->Ok_0.len() <= MAX_PATCH_FILES,
        all_stay_below(sections_from(lines, i, changes)->Ok_0),
        all_distinct(sections_from(lines, i, changes)->Ok_0),
    decreases lines.len() - i,
{
    let line = chomp(lines[i]);
    if is_blank(line) {
        lemma_sections_contained(lines, i + 1, changes);
    } else if is_end_marker(line) {
        lemma_no_repeats(changes, 0);
    } else if let Some(raw) = strip_prefix_of(line, "*** Add File:"@) {
        lemma_section_path(raw);
        let path = section_path(raw)->Ok_0;
        lemma_added_from_advances(lines, i + 1, seq![], path);
        let (content, next) = added_from(lines, i + 1, seq![], path)->Ok_0;
        let change = ParsedChangeView {
            path,
            kind: ParsedChangeKindView::Add { lines: content },
        };
        lemma_sections_contained(lines, next, changes.push(change));
    } else if let Some(raw) = strip_prefix_of(line, "*** Delete File:"@) {
        lemma_section_path(raw);
        let path = section_path(raw)->Ok_0;
        let change = ParsedChangeView { path, kind: ParsedChangeKindView::Delete };
        lemma_sections_contained(lines, i + 1, changes.push(change));
    } else if let Some(raw) = strip_prefix_of(line, "*** Update File:"@) {
        lemma_section_path(raw);
        let path = section_path(raw)->Ok_0;
        lemma_hunks_from_advances(lines, i + 1, seq![], seq![], path);
        let (hunks, next) = hunks_from(lines, i + 1, seq![], seq![], path)->Ok_0;
        let change = ParsedChangeView { path, kind: ParsedChangeKindView::Update { hunks } };
        lemma_sections_contained(lines, next, changes.push(change));
    }
}

proof fn lemma_no_repeats(changes: Seq<ParsedChangeView>, from: int)
    requires
        0 <= from,
        repeated_path_from(changes, from) is None,
    ensures
        forall|j: int, k: int|
            0 <= j < k < changes.len() && from <= k ==> #[trigger] components_of(changes[j].path)
                != #[trigger] components_of(changes[k].path),
    decreases changes.len() - from,
{
    if from < changes.len() {
        lemma_no_repeats(changes, from + 1);
        assert(!named_before(changes, from));
    }
}

} // verus!

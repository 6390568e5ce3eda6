//! Bounded search and reading within a workspace.
use vstd::prelude::*;
use vstd::utf8::{decode_utf8, valid_utf8};

use crate::files::error::{FileErrorView, FileToolError};
use crate::grants::WorkspaceGrant;
use crate::paths::{copy_location, joined, joined_of, relative_of, relative_path, Location};
use crate::text::{
    byte_len, contains, lower, lower_of, occurs_in, same_texts, swap_char, swap_char_of,
    to_ascii_lowercase, to_chars, trim, trim_of, utf8_len, utf8_text,
};
use crate::text_sort::{by_name, lemma_by_name_keeps, sort_by_name};

verus! {

pub const MAX_QUERY_BYTES: usize = 256;

pub const MAX_SEARCH_ENTRIES: usize = 4096;

pub const MAX_SEARCH_DEPTH: usize = 32;

pub const MAX_READ_BYTES: usize = 1024 * 1024;

// ---------------------------------------------------------------------------
// Requests
// ---------------------------------------------------------------------------
/// Why nothing may be read under a grant.
pub open spec fn grant_problem(grant: WorkspaceGrant) -> Option<FileErrorView> {
    if grant.spec_root().len() == 0 {
        Some(FileErrorView::InvalidGrant)
    } else if !grant.reads() {
        Some(FileErrorView::ReadNotGranted)
    } else {
        None
    }
}

pub fn ensure_read_grant(grant: &WorkspaceGrant) -> (r: Result<(), FileToolError>)
    ensures
        match grant_problem(*grant) {
            None => r is Ok,
            Some(error) => r is Err && r->Err_0@ == error,
        },
{
    if grant.root().is_empty() {
        return Err(FileToolError::InvalidGrant);
    }
    if !grant.allows_legacy_read() {
        return Err(FileToolError::ReadNotGranted);
    }
    Ok(())
}

/// Why a search is not made.
pub open spec fn search_problem(grant: WorkspaceGrant, query: Seq<char>, max_results: usize) -> Option<
    FileErrorView,
> {
    let query = trim_of(query);
    match grant_problem(grant) {
        Some(error) => Some(error),
        None => if query.len() == 0 {
            Some(FileErrorView::EmptyQuery)
        } else if utf8_len(query) > MAX_QUERY_BYTES {
            Some(
                FileErrorView::QueryTooLong {
                    length: utf8_len(query),
                    maximum: MAX_QUERY_BYTES as nat,
                },
            )
        } else if max_results == 0 {
            Some(FileErrorView::InvalidLimit)
        } else {
            None
        },
    }
}

/// What a search looks for, if it is made.
pub fn check_search(grant: &WorkspaceGrant, query: &str, max_results: usize) -> (r: Result<
    String,
    FileToolError,
>)
    ensures
        match search_problem(*grant, query@, max_results) {
            Some(error) => r is Err && r->Err_0@ == error,
            None => r is Ok && r->Ok_0@ == lower_of(trim_of(query@)),
        },
{
    ensure_read_grant(grant)?;
    let query = trim(query);
    if query.is_empty() {
        return Err(FileToolError::EmptyQuery);
    }
    let length: usize = byte_len(query);
    if length > MAX_QUERY_BYTES {
        return Err(FileToolError::QueryTooLong { length, maximum: MAX_QUERY_BYTES });
    }
    if max_results == 0 {
        return Err(FileToolError::InvalidLimit);
    }
    Ok(to_ascii_lowercase(query))
}

/// Why a file is not read.
pub open spec fn read_problem(grant: WorkspaceGrant, max_bytes: usize) -> Option<FileErrorView> {
    match grant_problem(grant) {
        Some(error) => Some(error),
        None => if max_bytes == 0 || max_bytes > MAX_READ_BYTES {
            Some(FileErrorView::InvalidLimit)
        } else {
            None
        },
    }
}

pub fn check_read(grant: &WorkspaceGrant, max_bytes: usize) -> (r: Result<(), FileToolError>)
    ensures
        match read_problem(*grant, max_bytes) {
            None => r is Ok,
            Some(error) => r is Err && r->Err_0@ == error,
        },
{
    ensure_read_grant(grant)?;
    if max_bytes == 0 || max_bytes > MAX_READ_BYTES {
        return Err(FileToolError::InvalidLimit);
    }
    Ok(())
}

/// Where a request points: a path of its own, or one below the workspace.
pub open spec fn requested_of(root: Seq<char>, requested: Seq<char>) -> Seq<char> {
    if requested.len() > 0 && requested[0] == '/' {
        requested
    } else {
        joined_of(root, requested)
    }
}

pub fn requested_path(root: &str, requested: &str) -> (r: String)
    ensures
        r@ == requested_of(root@, requested@),
{
    let chars = to_chars(requested);
    if chars.len() > 0 && chars[0] == '/' {
        requested.to_owned()
    } else {
        joined(root, requested)
    }
}

/// A search starts in a directory of the workspace, and a file that is read lies in it.
/// `fits` tells that the path leads to a directory, or to a file.
pub fn check_place(root: &Location, target: &Location, fits: bool) -> (r: Result<
    (),
    FileToolError,
>)
    ensures
        r is Ok == (target.within(*root) && fits),
        r is Err ==> r->Err_0@ == FileErrorView::OutsideWorkspace(target.display@),
{
    if !target.is_within(root) || !fits {
        return Err(FileToolError::OutsideWorkspace(target.display.clone()));
    }
    Ok(())
}

/// How a path is shown: from the workspace on, if it lies in it.
pub open spec fn shown_path(root: Location, path: Location) -> Seq<char> {
    match relative_of(root, path) {
        Some(relative) => relative,
        None => swap_char_of(path.display@, '\\', '/'),
    }
}

fn show_path(root: &Location, path: &Location) -> (r: String)
    ensures
        r@ == shown_path(*root, *path),
{
    match relative_path(root, path) {
        Some(relative) => relative,
        None => swap_char(path.display.as_str(), '\\', '/'),
    }
}

// ---------------------------------------------------------------------------
// Reading
// ---------------------------------------------------------------------------
#[derive(Clone, Debug, PartialEq, Eq)]
pub struct FileReadResult {
    pub path: String,
    pub content: String,
    pub returned_bytes: usize,
    pub truncated: bool,
}

/// The part of a file that is given back.
pub open spec fn bounded(bytes: Seq<u8>, max_bytes: nat) -> Seq<u8> {
    if bytes.len() > max_bytes {
        bytes.take(max_bytes as int)
    } else {
        bytes
    }
}

/// What reading gives back. `bytes` holds the file from its start, one byte more than is
/// wanted at least unless the file ends before that.
pub fn conclude_read(root: &Location, target: &Location, bytes: Vec<u8>, max_bytes: usize) -> (r:
    Result<FileReadResult, FileToolError>)
    ensures
        ({
            let content = bounded(bytes@, max_bytes as nat);
            if valid_utf8(content) {
                &&& r is Ok
                &&& r->Ok_0.path@ == shown_path(*root, *target)
                &&& r->Ok_0.content@ == decode_utf8(content)
                &&& r->Ok_0.returned_bytes == content.len()
                &&& r->Ok_0.returned_bytes <= max_bytes
                &&& r->Ok_0.truncated == (bytes@.len() > max_bytes)
            } else {
                r is Err && r->Err_0@ == FileErrorView::NotUtf8(target.display@)
            }
        }),
{
    let mut bytes = bytes;
    let truncated = bytes.len() > max_bytes;
    let ghost all = bytes@;
    if truncated {
        bytes.truncate(max_bytes);
        assert(bytes@ =~= all.take(max_bytes as int));
    }
    let returned_bytes: usize = bytes.len();
    match utf8_text(bytes) {
        Ok(content) => Ok(
            FileReadResult { path: show_path(root, target), content, returned_bytes, truncated },
        ),
        Err(_) => Err(FileToolError::NotUtf8(target.display.clone())),
    }
}

/// What the file system makes of a path that was asked for. `fits` tells that it leads to a
/// directory, or to a file.
#[derive(Debug)]
pub struct PlaceProbe {
    pub path: String,
    pub resolved: Result<Location, String>,
    pub fits: bool,
}

/// The workspace and the place in it that a request is for, or why there is none.
pub open spec fn place_of(
    grant: WorkspaceGrant,
    workspace: Result<Location, String>,
    probe: PlaceProbe,
) -> Result<(Location, Location), FileErrorView> {
    match workspace {
        Err(message) => Err(FileErrorView::Path { path: grant.spec_root(), message: message@ }),
        Ok(root) => match probe.resolved {
            Err(message) => Err(FileErrorView::Path { path: probe.path@, message: message@ }),
            Ok(place) => if place.within(root) && probe.fits {
                Ok((root, place))
            } else {
                Err(FileErrorView::OutsideWorkspace(place.display@))
            },
        },
    }
}

fn resolve_place<'a>(
    grant: &WorkspaceGrant,
    workspace: &'a Result<Location, String>,
    probe: &'a PlaceProbe,
) -> (r: Result<(&'a Location, &'a Location), FileToolError>)
    ensures
        match place_of(*grant, *workspace, *probe) {
            Ok((root, place)) => r is Ok && *(r->Ok_0).0 == root && *(r->Ok_0).1 == place,
            Err(error) => r is Err && r->Err_0@ == error,
        },
{
    let root = match workspace {
        Ok(root) => root,
        Err(message) => return Err(
            FileToolError::Path { path: grant.root().to_owned(), message: message.clone() },
        ),
    };
    let place = match &probe.resolved {
        Ok(place) => place,
        Err(message) => return Err(
            FileToolError::Path { path: probe.path.clone(), message: message.clone() },
        ),
    };
    match check_place(root, place, probe.fits) {
        Ok(()) => Ok((root, place)),
        Err(error) => Err(error),
    }
}

/// What reading a file gives back. `read` holds the file from its start, one byte more than is
/// wanted at least unless the file ends before that.
pub fn read_file(
    grant: &WorkspaceGrant,
    max_bytes: usize,
    workspace: &Result<Location, String>,
    probe: &PlaceProbe,
    read: Result<Vec<u8>, String>,
) -> (r: Result<FileReadResult, FileToolError>)
    ensures
        match read_problem(*grant, max_bytes) {
            Some(error) => r is Err && r->Err_0@ == error,
            None => match place_of(*grant, *workspace, *probe) {
                Err(error) => r is Err && r->Err_0@ == error,
                Ok((root, place)) => match read {
                    Err(message) => r is Err && r->Err_0@ == (FileErrorView::Read {
                        path: place.display@,
                        message: message@,
                    }),
                    Ok(bytes) => {
                        let content = bounded(bytes@, max_bytes as nat);
                        if valid_utf8(content) {
                            &&& r is Ok
                            &&& r->Ok_0.path@ == shown_path(root, place)
                            &&& r->Ok_0.content@ == decode_utf8(content)
                            &&& r->Ok_0.returned_bytes == content.len()
                            &&& r->Ok_0.returned_bytes <= max_bytes
                            &&& r->Ok_0.truncated == (bytes@.len() > max_bytes)
                        } else {
                            r is Err && r->Err_0@ == FileErrorView::NotUtf8(place.display@)
                        }
                    },
                },
            },
        },
{
    match check_read(grant, max_bytes) {
        Ok(()) => {},
        Err(error) => return Err(error),
    }
    let (root, place) = match resolve_place(grant, workspace, probe) {
        Ok(places) => places,
        Err(error) => return Err(error),
    };
    match read {
        Ok(bytes) => conclude_read(root, place, bytes, max_bytes),
        Err(message) => Err(FileToolError::Read { path: place.display.clone(), message }),
    }
}

// ---------------------------------------------------------------------------
// Searching
// ---------------------------------------------------------------------------
/// What an entry of a directory leads to, if it leads anywhere.
#[derive(Debug)]
pub struct SearchTarget {
    pub target: Option<Location>,
    pub is_directory: bool,
}

/// An entry of a directory: its name, and what it leads to.
pub type SearchEntry = (String, SearchTarget);

#[derive(Clone, Debug, PartialEq, Eq)]
pub struct FileSearchMatch {
    pub path: String,
    pub is_directory: bool,
}

pub open spec fn matches_view(matches: Seq<FileSearchMatch>) -> Seq<(Seq<char>, bool)> {
    Seq::new(matches.len(), |k: int| (matches[k].path@, matches[k].is_directory))
}

/// The name is that of an entry that searches leave out.
pub open spec fn is_hidden(name: Seq<char>) -> bool {
    name.len() > 0 && name[0] == '.'
}

/// A search that is on its way.
pub struct SearchRun {
    workspace: Location,
    root: Location,
    query: String,
    max_results: usize,
    stack: Vec<(Location, usize)>,
    visited: Vec<Location>,
    matches: Vec<FileSearchMatch>,
    inspected: usize,
    truncated: bool,
}

/// What a search goes by.
pub struct SearchTerms {
    pub workspace: Location,
    pub root: Location,
    pub query: Seq<char>,
    pub max_results: nat,
}

/// How far a search has come.
pub struct SearchState {
    pub stack: Seq<(Location, usize)>,
    pub matches: Seq<(Seq<char>, bool)>,
    pub inspected: nat,
    pub truncated: bool,
}

/// What an entry is to a search: it is looked into, or left out.
pub open spec fn is_searched(terms: SearchTerms, entry: SearchEntry) -> bool {
    !is_hidden(entry.0@) && entry.1.target is Some && entry.1.target->0.within(terms.root)
}

/// The name of the entry holds what is searched for.
pub open spec fn is_match(terms: SearchTerms, entry: SearchEntry) -> bool {
    is_searched(terms, entry) && occurs_in(lower_of(entry.0@), terms.query)
}

/// How far a search has come after one more entry of a directory, and whether that is the last
/// one it looks at.
pub open spec fn after_entry(
    terms: SearchTerms,
    depth: usize,
    entry: SearchEntry,
    before: SearchState,
) -> (SearchState, bool) {
    let seen = SearchState { inspected: before.inspected + 1, ..before };
    if seen.inspected > MAX_SEARCH_ENTRIES {
        (SearchState { truncated: true, ..seen }, true)
    } else if !is_searched(terms, entry) {
        (seen, false)
    } else {
        let found = if is_match(terms, entry) {
            SearchState {
                matches: seen.matches.push(
                    (shown_path(terms.workspace, entry.1.target->0), entry.1.is_directory),
                ),
                ..seen
            }
        } else {
            seen
        };
        if is_match(terms, entry) && found.matches.len() >= terms.max_results {
            (SearchState { truncated: true, ..found }, true)
        } else if entry.1.is_directory && depth < MAX_SEARCH_DEPTH {
            (
                SearchState {
                    stack: found.stack.push((entry.1.target->0, (depth + 1) as usize)),
                    ..found
                },
                false,
            )
        } else {
            (found, false)
        }
    }
}

/// How far a search has come after the entries of a directory from the `i`th on.
pub open spec fn after_entries(
    terms: SearchTerms,
    depth: usize,
    entries: Seq<SearchEntry>,
    i: int,
    before: SearchState,
) -> SearchState
    decreases entries.len() - i,
{
    if i >= entries.len() {
        before
    } else {
        let (next, stop) = after_entry(terms, depth, entries[i], before);
        if stop {
            next
        } else {
            after_entries(terms, depth, entries, i + 1, next)
        }
    }
}

/// The path is among those that were visited.
pub open spec fn was_visited(visited: Seq<Location>, path: Location) -> bool {
    exists|k: int| 0 <= k < visited.len() && (#[trigger] visited[k]).parts() == path.parts()
}

#[derive(Clone, Debug, PartialEq, Eq)]
pub struct FileSearchResult {
    pub matches: Vec<FileSearchMatch>,
    pub truncated: bool,
}

impl SearchRun {
    pub closed spec fn terms(self) -> SearchTerms {
        SearchTerms {
            workspace: self.workspace,
            root: self.root,
            query: self.query@,
            max_results: self.max_results as nat,
        }
    }

    pub closed spec fn state(self) -> SearchState {
        SearchState {
            stack: self.stack@,
            matches: matches_view(self.matches@),
            inspected: self.inspected as nat,
            truncated: self.truncated,
        }
    }

    pub closed spec fn spec_visited(self) -> Seq<Location> {
        self.visited@
    }

    /// The number of entries that were looked at never gets far beyond the limit.
    #[verifier::type_invariant]
    spec fn counts(self) -> bool {
        self.inspected <= MAX_SEARCH_ENTRIES + 1 && (self.inspected == MAX_SEARCH_ENTRIES + 1
            ==> self.truncated)
    }

    /// A search of `root`, for a query in lower case.
    pub fn new(
        workspace: Location,
        root: Location,
        start: Location,
        query: String,
        max_results: usize,
    ) -> (r: Self)
        ensures
            r.terms() == (SearchTerms {
                workspace,
                root,
                query: query@,
                max_results: max_results as nat,
            }),
            r.state() == (SearchState {
                stack: seq![(start, 0usize)],
                matches: Seq::empty(),
                inspected: 0,
                truncated: false,
            }),
            r.spec_visited() == Seq::<Location>::empty(),
    {
        let mut stack: Vec<(Location, usize)> = Vec::new();
        stack.push((start, 0));
        let r = SearchRun {
            workspace,
            root,
            query,
            max_results,
            stack,
            visited: Vec::new(),
            matches: Vec::new(),
            inspected: 0,
            truncated: false,
        };
        proof {
            assert(r.stack@ =~= seq![(start, 0usize)]);
            assert(matches_view(r.matches@) =~= Seq::<(Seq<char>, bool)>::empty());
            assert(r.visited@ =~= Seq::<Location>::empty());
        }
        r
    }

    /// The directory to look at next, and how deep it lies; none once the search is over.
    pub fn next_directory(&mut self) -> (r: Option<(Location, usize)>)
        ensures
            final(self).terms() == old(self).terms(),
            final(self).spec_visited() == old(self).spec_visited(),
            ({
                let before = old(self).state();
                if before.truncated || before.matches.len() >= old(self).terms().max_results
                    || before.stack.len() == 0 {
                    r is None && final(self).state() == before
                } else {
                    &&& r == Some(before.stack.last())
                    &&& final(self).state() == (SearchState {
                        stack: before.stack.drop_last(),
                        ..before
                    })
                }
            }),
    {
        proof {
            use_type_invariant(&*self);
            assert(matches_view(self.matches@).len() == self.matches@.len());
        }
        if self.truncated || self.matches.len() >= self.max_results {
            return None;
        }
        let mut stack: Vec<(Location, usize)> = Vec::new();
        std::mem::swap(&mut self.stack, &mut stack);
        let ghost all = stack@;
        let next = stack.pop();
        self.stack = stack;
        proof {
            if all.len() == 0 {
                assert(self.stack@ =~= all);
            } else {
                assert(self.stack@ =~= all.drop_last());
            }
        }
        next
    }

    /// Whether a directory is to be looked at: it lies below the root of the search, and has
    /// not been looked at before.
    pub fn enter(&mut self, directory: Location) -> (r: bool)
        ensures
            final(self).terms() == old(self).terms(),
            final(self).state() == old(self).state(),
            r == (directory.within(old(self).terms().root) && !was_visited(
                old(self).spec_visited(),
                directory,
            )),
            final(self).spec_visited() == if r {
                old(self).spec_visited().push(directory)
            } else {
                old(self).spec_visited()
            },
    {
        proof {
            use_type_invariant(&*self);
        }
        if !directory.is_within(&self.root) {
            return false;
        }
        let n: usize = self.visited.len();
        let mut i: usize = 0;
        while i < n
            invariant
                *self == *old(self),
                n == self.visited@.len(),
                i <= n,
                forall|k: int|
                    0 <= k < i ==> (#[trigger] self.visited@[k]).parts() != directory.parts(),
            decreases n - i,
        {
            if same_texts(&self.visited[i].components, &directory.components) {
                assert(was_visited(self.visited@, directory)) by {
                    assert(self.visited@[i as int].parts() == directory.parts());
                }
                return false;
            }
            i += 1;
        }
        let mut visited: Vec<Location> = Vec::new();
        std::mem::swap(&mut self.visited, &mut visited);
        visited.push(directory);
        self.visited = visited;
        true
    }

    fn visit(&mut self, depth: usize, entry: SearchEntry) -> (r: bool)
        requires
            old(self).state().inspected <= MAX_SEARCH_ENTRIES,
        ensures
            final(self).terms() == old(self).terms(),
            final(self).spec_visited() == old(self).spec_visited(),
            (final(self).state(), r) == after_entry(
                old(self).terms(),
                depth,
                entry,
                old(self).state(),
            ),
    {
        proof {
            use_type_invariant(&*self);
        }
        let count: usize = self.inspected + 1;
        if count > MAX_SEARCH_ENTRIES {
            self.truncated = true;
            self.inspected = count;
            return true;
        }
        self.inspected = count;
        let chars = to_chars(entry.0.as_str());
        if chars.len() > 0 && chars[0] == '.' {
            return false;
        }
        let target = match entry.1.target {
            Some(target) => target,
            None => return false,
        };
        if !target.is_within(&self.root) {
            return false;
        }
        if contains(to_ascii_lowercase(entry.0.as_str()).as_str(), self.query.as_str()) {
            let ghost before = self.matches@;
            let path = show_path(&self.workspace, &target);
            let ghost shown = path@;
            let mut matches: Vec<FileSearchMatch> = Vec::new();
            std::mem::swap(&mut self.matches, &mut matches);
            matches.push(FileSearchMatch { path, is_directory: entry.1.is_directory });
            self.matches = matches;
            proof {
                assert(matches_view(self.matches@) =~= matches_view(before).push(
                    (shown, entry.1.is_directory),
                ));
            }
            if self.matches.len() >= self.max_results {
                self.truncated = true;
                return true;
            }
        }
        if entry.1.is_directory && depth < MAX_SEARCH_DEPTH {
            let mut stack: Vec<(Location, usize)> = Vec::new();
            std::mem::swap(&mut self.stack, &mut stack);
            stack.push((target, depth + 1));
            self.stack = stack;
        }
        false
    }

    /// Looks at the entries of a directory in the order of their names.
    pub fn scan(&mut self, depth: usize, entries: Vec<SearchEntry>)
        requires
            !old(self).state().truncated,
        ensures
            final(self).terms() == old(self).terms(),
            final(self).spec_visited() == old(self).spec_visited(),
            final(self).state() == after_entries(
                old(self).terms(),
                depth,
                by_name(entries@),
                0,
                old(self).state(),
            ),
    {
        let mut rest = sort_by_name(entries);
        let ghost all = rest@;
        let ghost terms = self.terms();
        let ghost first = self.state();
        let ghost mut i: int = 0;
        proof {
            use_type_invariant(&*self);
            assert(all.skip(0) =~= all);
        }
        while rest.len() > 0
            invariant
                0 <= i <= all.len(),
                rest@ == all.skip(i),
                self.terms() == terms,
                self.spec_visited() == old(self).spec_visited(),
                self.state().inspected <= MAX_SEARCH_ENTRIES,
                after_entries(terms, depth, all, 0, first) == after_entries(
                    terms,
                    depth,
                    all,
                    i,
                    self.state(),
                ),
                all == by_name(entries@),
                terms == old(self).terms(),
                first == old(self).state(),
            decreases rest@.len(),
        {
            let entry = rest.remove(0);
            proof {
                assert(entry == all[i]);
                assert(rest@ =~= all.skip(i + 1));
            }
            let ghost before = self.state();
            let stop = self.visit(depth, entry);
            proof {
                assert((self.state(), stop) == after_entry(terms, depth, all[i], before));
                i = i + 1;
            }
            if stop {
                return;
            }
        }
    }

    pub fn finish(self) -> (r: FileSearchResult)
        ensures
            matches_view(r.matches@) == self.state().matches,
            r.truncated == self.state().truncated,
    {
        FileSearchResult { matches: self.matches, truncated: self.truncated }
    }
}

/// Opens a search of a directory of the workspace.
pub fn search_files(
    grant: &WorkspaceGrant,
    query: &str,
    max_results: usize,
    workspace: &Result<Location, String>,
    probe: &PlaceProbe,
) -> (r: Result<SearchRun, FileToolError>)
    ensures
        match search_problem(*grant, query@, max_results) {
            Some(error) => r is Err && r->Err_0@ == error,
            None => match place_of(*grant, *workspace, *probe) {
                Err(error) => r is Err && r->Err_0@ == error,
                Ok((root, place)) => {
                    &&& r is Ok
                    &&& r->Ok_0.terms().workspace.parts() == root.parts()
                    &&& r->Ok_0.terms().workspace.display@ == root.display@
                    &&& r->Ok_0.terms().root.parts() == place.parts()
                    &&& r->Ok_0.terms().root.display@ == place.display@
                    &&& r->Ok_0.terms().query == lower_of(trim_of(query@))
                    &&& r->Ok_0.terms().max_results == max_results
                    &&& r->Ok_0.state().stack.len() == 1
                    &&& r->Ok_0.state().stack[0].0.parts() == place.parts()
                    &&& r->Ok_0.state().stack[0].0.display@ == place.display@
                    &&& r->Ok_0.state().stack[0].1 == 0
                    &&& r->Ok_0.state().matches.len() == 0
                    &&& r->Ok_0.state().inspected == 0
                    &&& !r->Ok_0.state().truncated
                    &&& r->Ok_0.spec_visited().len() == 0
                },
            },
        },
{
    let query = match check_search(grant, query, max_results) {
        Ok(query) => query,
        Err(error) => return Err(error),
    };
    let (root, place) = match resolve_place(grant, workspace, probe) {
        Ok(places) => places,
        Err(error) => return Err(error),
    };
    Ok(
        SearchRun::new(
            copy_location(root),
            copy_location(place),
            copy_location(place),
            query,
            max_results,
        ),
    )
}

// ---------------------------------------------------------------------------
// What searches keep to
// ---------------------------------------------------------------------------
/// A search never gives back more than was asked for, and says so when it stops at that.
pub proof fn lemma_search_is_bounded(
    terms: SearchTerms,
    depth: usize,
    entries: Seq<SearchEntry>,
    i: int,
    before: SearchState,
)
    requires
        0 <= i,
        before.matches.len() < terms.max_results,
        before.inspected <= MAX_SEARCH_ENTRIES,
    ensures
        ({
            let after = after_entries(terms, depth, entries, i, before);
            &&& after.matches.len() <= terms.max_results
            &&& after.matches.len() == terms.max_results ==> after.truncated
            &&& after.inspected <= MAX_SEARCH_ENTRIES + 1
        }),
    decreases entries.len() - i,
{
    if i < entries.len() {
        let (next, stop) = after_entry(terms, depth, entries[i], before);
        if !stop {
            lemma_search_is_bounded(terms, depth, entries, i + 1, next);
        }
    }
}

/// Every directory that a search is going to look at lies below its root, and none lies deeper
/// than the limit.
pub open spec fn stays_below(terms: SearchTerms, stack: Seq<(Location, usize)>) -> bool {
    forall|k: int|
        0 <= k < stack.len() ==> (#[trigger] stack[k]).0.within(terms.root) && stack[k].1
            <= MAX_SEARCH_DEPTH
}

/// Searching leads nowhere but below the root of the search.
pub proof fn lemma_search_stays_below_its_root(
    terms: SearchTerms,
    depth: usize,
    entries: Seq<SearchEntry>,
    i: int,
    before: SearchState,
)
    requires
        0 <= i,
        stays_below(terms, before.stack),
    ensures
        stays_below(terms, after_entries(terms, depth, entries, i, before).stack),
    decreases entries.len() - i,
{
    if i < entries.len() {
        let (next, stop) = after_entry(terms, depth, entries[i], before);
        assert(stays_below(terms, next.stack));
        if !stop {
            lemma_search_stays_below_its_root(terms, depth, entries, i + 1, next);
        }
    }
}

// ---------------------------------------------------------------------------
// What searches find
// ---------------------------------------------------------------------------
/// The name reads like the query from `at` on, in whatever case.
pub open spec fn reads_at(name: Seq<char>, query: Seq<char>, at: int) -> bool {
    0 <= at && at + query.len() <= name.len() && forall|k: int|
        0 <= k < query.len() ==> lower(#[trigger] name[at + k]) == query[k]
}

/// The entry is one that a search for `query` below `root` is to find: its name is not hidden, it
/// leads to a place below the root, and its name holds the query in whatever case.
pub open spec fn is_sought(root: Location, query: Seq<char>, entry: SearchEntry) -> bool {
    &&& entry.0@.len() == 0 || entry.0@[0] != '.'
    &&& entry.1.target matches Some(place) && root.parts().is_prefix_of(place.parts())
    &&& exists|at: int| reads_at(entry.0@, query, at)
}

proof fn lemma_sought_is_match(terms: SearchTerms, entry: SearchEntry)
    ensures
        is_sought(terms.root, terms.query, entry) <==> is_match(terms, entry),
{
    let name = entry.0@;
    let query = terms.query;
    assert(lower_of(name).len() == name.len());
    if occurs_in(lower_of(name), query) {
        let at = choose|at: int| crate::text::occurs_at(lower_of(name), query, at);
        assert forall|k: int| 0 <= k < query.len() implies lower(#[trigger] name[at + k])
            == query[k] by {
            assert(lower_of(name).subrange(at, at + query.len())[k] == lower_of(name)[at + k]);
        }
        assert(reads_at(name, query, at));
    }
    if exists|at: int| reads_at(name, query, at) {
        let at = choose|at: int| reads_at(name, query, at);
        assert forall|k: int| 0 <= k < query.len() implies lower_of(name).subrange(
            at,
            at + query.len(),
        )[k] == query[k] by {
            assert(lower(name[at + k]) == query[k]);
        }
        assert(lower_of(name).subrange(at, at + query.len()) =~= query);
        assert(crate::text::occurs_at(lower_of(name), query, at));
    }
    if let Some(place) = entry.1.target {
        let n = terms.root.parts().len() as int;
        if n <= place.parts().len() {
            assert(place.parts().take(n) =~= place.parts().subrange(0, n));
        }
        assert(place.within(terms.root) <==> terms.root.parts().is_prefix_of(place.parts()));
    }
    assert(occurs_in(lower_of(name), query) <==> exists|at: int| reads_at(name, query, at));
}

proof fn lemma_matches_grow(
    terms: SearchTerms,
    depth: usize,
    entries: Seq<SearchEntry>,
    i: int,
    before: SearchState,
)
    requires
        0 <= i,
    ensures
        before.matches.is_prefix_of(after_entries(terms, depth, entries, i, before).matches),
        before.stack.is_prefix_of(after_entries(terms, depth, entries, i, before).stack),
    decreases entries.len() - i,
{
    let after = after_entries(terms, depth, entries, i, before);
    if i < entries.len() {
        let (next, stop) = after_entry(terms, depth, entries[i], before);
        assert(before.matches =~= next.matches.subrange(0, before.matches.len() as int));
        assert(before.stack =~= next.stack.subrange(0, before.stack.len() as int));
        if !stop {
            lemma_matches_grow(terms, depth, entries, i + 1, next);
            assert(before.matches =~= after.matches.subrange(0, before.matches.len() as int));
            assert(before.stack =~= after.stack.subrange(0, before.stack.len() as int));
        }
    } else {
        assert(before.matches =~= after.matches.subrange(0, before.matches.len() as int));
        assert(before.stack =~= after.stack.subrange(0, before.stack.len() as int));
    }
}

proof fn lemma_kept_in_longer<T>(short: Seq<T>, long: Seq<T>, item: T)
    requires
        short.is_prefix_of(long),
        short.contains(item),
    ensures
        long.contains(item),
{
    let k = choose|k: int| 0 <= k < short.len() && short[k] == item;
    assert(long.subrange(0, short.len() as int)[k] == long[k]);
}

proof fn lemma_entry_is_found(
    terms: SearchTerms,
    depth: usize,
    entries: Seq<SearchEntry>,
    i: int,
    before: SearchState,
    k: int,
)
    requires
        0 <= i <= k < entries.len(),
        !after_entries(terms, depth, entries, i, before).truncated,
    ensures
        is_match(terms, entries[k]) ==> after_entries(
            terms,
            depth,
            entries,
            i,
            before,
        ).matches.contains(
            (shown_path(terms.workspace, entries[k].1.target->0), entries[k].1.is_directory),
        ),
        is_searched(terms, entries[k]) && entries[k].1.is_directory && depth < MAX_SEARCH_DEPTH
            ==> after_entries(terms, depth, entries, i, before).stack.contains(
            (entries[k].1.target->0, (depth + 1) as usize),
        ),
    decreases entries.len() - i,
{
    let (next, stop) = after_entry(terms, depth, entries[i], before);
    assert(!stop);
    if i < k {
        lemma_entry_is_found(terms, depth, entries, i + 1, next, k);
    } else {
        lemma_matches_grow(terms, depth, entries, i + 1, next);
        let after = after_entries(terms, depth, entries, i + 1, next);
        if is_match(terms, entries[k]) {
            let found = (
                shown_path(terms.workspace, entries[k].1.target->0),
                entries[k].1.is_directory,
            );
            assert(next.matches[before.matches.len() as int] == found);
            lemma_kept_in_longer(next.matches, after.matches, found);
        }
        if is_searched(terms, entries[k]) && entries[k].1.is_directory && depth
            < MAX_SEARCH_DEPTH {
            let below = (entries[k].1.target->0, (depth + 1) as usize);
            assert(next.stack[before.stack.len() as int] == below);
            lemma_kept_in_longer(next.stack, after.stack, below);
        }
    }
}

proof fn lemma_found_is_sought(
    terms: SearchTerms,
    depth: usize,
    entries: Seq<SearchEntry>,
    i: int,
    before: SearchState,
    found: (Seq<char>, bool),
)
    requires
        0 <= i,
        after_entries(terms, depth, entries, i, before).matches.contains(found),
        !before.matches.contains(found),
    ensures
        exists|k: int|
            i <= k < entries.len() && is_match(terms, #[trigger] entries[k]) && found == (
                shown_path(terms.workspace, entries[k].1.target->0),
                entries[k].1.is_directory,
            ),
    decreases entries.len() - i,
{
    if i < entries.len() {
        let (next, stop) = after_entry(terms, depth, entries[i], before);
        let one = (
            shown_path(terms.workspace, entries[i].1.target->0),
            entries[i].1.is_directory,
        );
        if next.matches.contains(found) {
            let j = choose|j: int| 0 <= j < next.matches.len() && next.matches[j] == found;
            if j < before.matches.len() {
                assert(before.matches[j] == found);
            }
            assert(is_match(terms, entries[i]) && found == one);
        } else if !stop {
            lemma_found_is_sought(terms, depth, entries, i + 1, next, found);
        }
    }
}

/// A search is complete: once the entries of a directory were looked at without the search being
/// cut short, each of them that is sought, file or directory, is among the matches, under its path
/// from the workspace on and marked as what it is.
pub proof fn lemma_search_finds_all_that_is_sought(
    terms: SearchTerms,
    depth: usize,
    entries: Seq<SearchEntry>,
    before: SearchState,
    entry: SearchEntry,
)
    requires
        entries.contains(entry),
        is_sought(terms.root, terms.query, entry),
        !after_entries(terms, depth, by_name(entries), 0, before).truncated,
    ensures
        after_entries(terms, depth, by_name(entries), 0, before).matches.contains(
            (shown_path(terms.workspace, entry.1.target->0), entry.1.is_directory),
        ),
{
    lemma_sought_is_match(terms, entry);
    lemma_by_name_keeps(entries, entry);
    let k = choose|k: int| 0 <= k < by_name(entries).len() && by_name(entries)[k] == entry;
    lemma_entry_is_found(terms, depth, by_name(entries), 0, before, k);
}

/// A search finds nothing else: each new match is the path of an entry that is sought.
pub proof fn lemma_search_finds_nothing_else(
    terms: SearchTerms,
    depth: usize,
    entries: Seq<SearchEntry>,
    before: SearchState,
    found: (Seq<char>, bool),
)
    requires
        after_entries(terms, depth, by_name(entries), 0, before).matches.contains(found),
        !before.matches.contains(found),
    ensures
        exists|entry: SearchEntry|
            entries.contains(entry) && #[trigger] is_sought(terms.root, terms.query, entry)
                && found == (
                shown_path(terms.workspace, entry.1.target->0),
                entry.1.is_directory,
            ),
{
    let all = by_name(entries);
    lemma_found_is_sought(terms, depth, all, 0, before, found);
    let k = choose|k: int|
        0 <= k < all.len() && is_match(terms, #[trigger] all[k]) && found == (
            shown_path(terms.workspace, all[k].1.target->0),
            all[k].1.is_directory,
        );
    assert(all.contains(all[k]));
    lemma_by_name_keeps(entries, all[k]);
    lemma_sought_is_match(terms, all[k]);
}

/// A search goes on into every directory that it comes by: unless it is cut short, each that is
/// not hidden, lies below the root and is not too deep is to be looked at next.
pub proof fn lemma_search_goes_into_directories(
    terms: SearchTerms,
    depth: usize,
    entries: Seq<SearchEntry>,
    before: SearchState,
    entry: SearchEntry,
)
    requires
        entries.contains(entry),
        entry.0@.len() > 0,
        entry.0@[0] != '.',
        entry.1.is_directory,
        entry.1.target is Some,
        terms.root.parts().is_prefix_of(entry.1.target->0.parts()),
        depth < MAX_SEARCH_DEPTH,
        !after_entries(terms, depth, by_name(entries), 0, before).truncated,
    ensures
        after_entries(terms, depth, by_name(entries), 0, before).stack.contains(
            (entry.1.target->0, (depth + 1) as usize),
        ),
{
    lemma_by_name_keeps(entries, entry);
    let k = choose|k: int| 0 <= k < by_name(entries).len() && by_name(entries)[k] == entry;
    let place = entry.1.target->0;
    let n = terms.root.parts().len() as int;
    assert(place.parts().take(n) =~= place.parts().subrange(0, n));
    lemma_entry_is_found(terms, depth, by_name(entries), 0, before, k);
}

/// A search is cut short only for a reason: it has as many matches as were asked for, or it has
/// looked at more entries than it may.
pub proof fn lemma_search_is_cut_short_for_a_reason(
    terms: SearchTerms,
    depth: usize,
    entries: Seq<SearchEntry>,
    i: int,
    before: SearchState,
)
    requires
        0 <= i,
        !before.truncated,
        after_entries(terms, depth, entries, i, before).truncated,
    ensures
        ({
            let after = after_entries(terms, depth, entries, i, before);
            after.matches.len() >= terms.max_results || after.inspected > MAX_SEARCH_ENTRIES
        }),
    decreases entries.len() - i,
{
    if i < entries.len() {
        let (next, stop) = after_entry(terms, depth, entries[i], before);
        if !stop {
            lemma_search_is_cut_short_for_a_reason(terms, depth, entries, i + 1, next);
        }
    }
}

/// What is read is the start of the file: all of it where it fits, and otherwise as much as was
/// asked for.
pub proof fn lemma_reading_gives_the_start(bytes: Seq<u8>, max_bytes: nat)
    ensures
        bounded(bytes, max_bytes).is_prefix_of(bytes),
        bytes.len() <= max_bytes ==> bounded(bytes, max_bytes) == bytes,
        bytes.len() > max_bytes ==> bounded(bytes, max_bytes).len() == max_bytes,
{
    assert(bounded(bytes, max_bytes) =~= bytes.subrange(
        0,
        bounded(bytes, max_bytes).len() as int,
    ));
}

/// A path below the workspace is shown as the names that lead to it from there.
pub proof fn lemma_shown_paths_lead_from_the_workspace(
    root: Location,
    path: Location,
    name: Seq<char>,
)
    requires
        path.parts() == root.parts().push(name),
        !name.contains('\\'),
    ensures
        shown_path(root, path) == name,
{
    let n = root.parts().len() as int;
    assert(path.parts().take(n) =~= root.parts());
    assert(path.parts().skip(n) =~= seq![name]);
    assert(crate::text::join_of(seq![name], "/"@) == name);
    assert(swap_char_of(name, '\\', '/') =~= name) by {
        assert forall|k: int| 0 <= k < name.len() implies #[trigger] name[k] != '\\' by {
            if name[k] == '\\' {
                assert(name.contains('\\'));
            }
        }
    }
}

/// A file is read exactly if the grant allows it, the limit is a sensible one, the path leads to a
/// file of the workspace and what is to be given back is text; it is then given back from its
/// start, under its path from the workspace on, and it is said whether there is more.
pub proof fn lemma_files_are_read_as_they_stand(
    grant: WorkspaceGrant,
    max_bytes: usize,
    workspace: Result<Location, String>,
    probe: PlaceProbe,
    read: Result<Vec<u8>, String>,
    r: Result<FileReadResult, FileToolError>,
)
    requires
        call_ensures(read_file, (&grant, max_bytes, &workspace, &probe, read), r),
    ensures
        r is Ok <==> {
            &&& grant.spec_root().len() > 0
            &&& grant.reads()
            &&& 1 <= max_bytes <= 1024 * 1024
            &&& probe.fits
            &&& workspace matches Ok(root) && (probe.resolved matches Ok(place)
                && root.parts().is_prefix_of(place.parts()))
            &&& read matches Ok(bytes) && (if bytes@.len() <= max_bytes {
                valid_utf8(bytes@)
            } else {
                valid_utf8(bytes@.take(max_bytes as int))
            })
        },
        r matches Ok(result) ==> {
            let bytes = read->Ok_0@;
            &&& bytes.len() <= max_bytes ==> result.content@ == decode_utf8(bytes)
                && !result.truncated && result.returned_bytes == bytes.len()
            &&& bytes.len() > max_bytes ==> result.content@ == decode_utf8(
                bytes.take(max_bytes as int),
            ) && result.truncated && result.returned_bytes == max_bytes
        },
{
    if let Ok(root) = workspace {
        if let Ok(place) = probe.resolved {
            let n = root.parts().len() as int;
            if n <= place.parts().len() {
                assert(place.parts().take(n) =~= place.parts().subrange(0, n));
            }
            assert(place.within(root) <==> root.parts().is_prefix_of(place.parts()));
        }
    }
}

/// A search is opened exactly if the grant allows it, there is something to look for and a place
/// in the workspace to look in; it looks for the query in lower case, from that place on, and
/// has found nothing yet.
pub proof fn lemma_searches_start_where_they_are_asked_to(
    grant: WorkspaceGrant,
    query: &str,
    max_results: usize,
    workspace: Result<Location, String>,
    probe: PlaceProbe,
    r: Result<SearchRun, FileToolError>,
)
    requires
        call_ensures(search_files, (&grant, query, max_results, &workspace, &probe), r),
    ensures
        r is Ok <==> {
            &&& grant.spec_root().len() > 0
            &&& grant.reads()
            &&& 0 < trim_of(query@).len()
            &&& utf8_len(trim_of(query@)) <= 256
            &&& max_results > 0
            &&& probe.fits
            &&& workspace matches Ok(root) && (probe.resolved matches Ok(place)
                && root.parts().is_prefix_of(place.parts()))
        },
        r matches Ok(run) ==> {
            &&& run.terms().query.len() == trim_of(query@).len()
            &&& forall|k: int|
                0 <= k < trim_of(query@).len() ==> run.terms().query[k] == lower(
                    #[trigger] trim_of(query@)[k],
                )
            &&& run.terms().root.parts() == probe.resolved->Ok_0.parts()
            &&& run.terms().workspace.parts() == workspace->Ok_0.parts()
            &&& run.terms().max_results == max_results
            &&& run.state().stack.len() == 1 && run.state().stack[0].0.parts()
                == probe.resolved->Ok_0.parts()
            &&& run.state().matches.len() == 0 && !run.state().truncated
        },
{
    if let Ok(root) = workspace {
        if let Ok(place) = probe.resolved {
            let n = root.parts().len() as int;
            if n <= place.parts().len() {
                assert(place.parts().take(n) =~= place.parts().subrange(0, n));
            }
            assert(place.within(root) <==> root.parts().is_prefix_of(place.parts()));
        }
    }
}

/// A path that starts at the root is taken as it is; any other leads on from the workspace.
pub proof fn lemma_requested_paths_start_in_the_workspace(root: &str, requested: &str, r: String)
    requires
        call_ensures(requested_path, (root, requested), r),
    ensures
        requested@.is_suffix_of(r@),
        requested@.len() > 0 && requested@[0] == '/' ==> r@ == requested@,
        requested@.len() == 0 || requested@[0] != '/' ==> root@.is_prefix_of(r@),
        requested@.len() > 0 && requested@[0] != '/' && root@.len() > 0 && root@.last() != '/'
            ==> r@ == root@ + seq!['/'] + requested@,
{
    reveal_strlit("/");
    assert(requested@ =~= r@.subrange(r@.len() - requested@.len(), r@.len() as int));
    if requested@.len() == 0 || requested@[0] != '/' {
        assert(root@ =~= r@.subrange(0, root@.len() as int));
    }
    if requested@.len() > 0 && requested@[0] != '/' && root@.len() > 0 && root@.last() != '/' {
        assert(r@ =~= root@ + seq!['/'] + requested@);
    }
}

/// A file is read if and only if the grant names a workspace and allows to read it, and a sensible
/// amount is asked for.
pub proof fn lemma_reading_needs_leave(
    grant: WorkspaceGrant,
    max_bytes: usize,
    r: Result<(), FileToolError>,
)
    requires
        call_ensures(check_read, (&grant, max_bytes), r),
    ensures
        r is Ok <==> grant.spec_root().len() > 0 && grant.reads() && 0 < max_bytes
            <= MAX_READ_BYTES,
        r matches Err(error) ==> {
            &&& grant.spec_root().len() == 0 <==> error@ is InvalidGrant
            &&& grant.spec_root().len() > 0 && !grant.reads() <==> error@ is ReadNotGranted
        },
{
}

/// A place is one of the workspace if it lies below its root and is what it should be.
pub proof fn lemma_places_lie_in_the_workspace(
    root: Location,
    target: Location,
    fits: bool,
    r: Result<(), FileToolError>,
)
    requires
        call_ensures(check_place, (&root, &target, fits), r),
    ensures
        r is Ok <==> fits && root.parts().is_prefix_of(target.parts()),
{
    let n = root.parts().len() as int;
    if n <= target.parts().len() {
        assert(target.parts().take(n) =~= target.parts().subrange(0, n));
    }
}

/// Looking through a directory finds each entry of it that is sought, unless the search is cut
/// short, and nothing else; what was found before stays found, and what is sought stays the same.
pub proof fn lemma_scans_find_what_is_sought(
    run: &mut SearchRun,
    depth: usize,
    listed: Vec<SearchEntry>,
    entry: SearchEntry,
    found: (Seq<char>, bool),
)
    requires
        call_ensures(SearchRun::scan, (run, depth, listed), ()),
    ensures
        final(run).terms() == old(run).terms(),
        !final(run).state().truncated && listed@.contains(entry) && is_sought(
            old(run).terms().root,
            old(run).terms().query,
            entry,
        ) ==> final(run).state().matches.contains(
            (shown_path(old(run).terms().workspace, entry.1.target->0), entry.1.is_directory),
        ),
        final(run).state().matches.contains(found) && !old(run).state().matches.contains(found)
            ==> exists|other: SearchEntry|
            listed@.contains(other) && #[trigger] is_sought(
                old(run).terms().root,
                old(run).terms().query,
                other,
            ) && found == (
                shown_path(old(run).terms().workspace, other.1.target->0),
                other.1.is_directory,
            ),
        !old(run).state().truncated && final(run).state().truncated
            ==> final(run).state().matches.len() >= old(run).terms().max_results
            || final(run).state().inspected > MAX_SEARCH_ENTRIES,
{
    let terms = old(run).terms();
    let before = old(run).state();
    let after = after_entries(terms, depth, by_name(listed@), 0, before);
    if !after.truncated && listed@.contains(entry) && is_sought(terms.root, terms.query, entry) {
        lemma_search_finds_all_that_is_sought(terms, depth, listed@, before, entry);
    }
    if after.matches.contains(found) && !before.matches.contains(found) {
        lemma_search_finds_nothing_else(terms, depth, listed@, before, found);
    }
    if !before.truncated && after.truncated {
        lemma_search_is_cut_short_for_a_reason(terms, depth, by_name(listed@), 0, before);
    }
}

/// A search looks at each directory that is waiting, one after the other, until none is left or it
/// is done; none is looked at twice, and none outside of where it started.
pub proof fn lemma_searches_go_on_until_they_are_done(
    run: &mut SearchRun,
    next: Option<(Location, usize)>,
    other: &mut SearchRun,
    directory: Location,
    entered: bool,
)
    requires
        call_ensures(SearchRun::next_directory, (run,), next),
        call_ensures(SearchRun::enter, (other, directory), entered),
    ensures
        next is None <==> old(run).state().truncated || old(run).state().matches.len()
            >= old(run).terms().max_results || old(run).state().stack.len() == 0,
        next is Some ==> old(run).state().stack.contains(next->0)
            && final(run).state().stack.push(next->0) == old(run).state().stack,
        final(run).state().matches == old(run).state().matches,
        entered ==> old(other).terms().root.parts().is_prefix_of(directory.parts()),
        entered ==> final(other).spec_visited().contains(directory),
        entered ==> forall|k: int|
            0 <= k < old(other).spec_visited().len() ==> (
            #[trigger] old(other).spec_visited()[k]).parts() != directory.parts(),
        final(other).state() == old(other).state(),
{
    if next is Some {
        let stack = old(run).state().stack;
        assert(stack[stack.len() - 1] == next->0);
        assert(stack.drop_last().push(stack.last()) =~= stack);
    }
    if entered {
        let n = old(other).terms().root.parts().len() as int;
        assert(directory.parts().take(n) =~= directory.parts().subrange(0, n));
        let seen = final(other).spec_visited();
        assert(seen[seen.len() - 1] == directory);
    }
}

} // verus!

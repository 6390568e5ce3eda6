//! Reading and searching files.
use yunxi::files::error::FileToolError;
use yunxi::files::executor::{
    check_place, check_read, check_search, conclude_read, read_file, requested_path, search_files,
    PlaceProbe, SearchRun, SearchTarget, MAX_QUERY_BYTES, MAX_READ_BYTES,
};
use yunxi::files::plugin::{respond, FileToolPluginError};
use yunxi::grants::WorkspaceGrant;
use yunxi::paths::{components, Location};
use yunxi::plugin::dispatch::Reply;

fn place(path: &str) -> Location {
    Location { display: path.to_string(), components: components(path) }
}

fn probe(path: &str) -> PlaceProbe {
    PlaceProbe { path: path.to_string(), resolved: Ok(place(path)), fits: true }
}

fn workspace() -> Result<Location, String> {
    Ok(place("/work"))
}

fn entry(path: &str, is_directory: bool) -> (String, SearchTarget) {
    let name = path.rsplit('/').next().expect("name").to_string();
    (name, SearchTarget { target: Some(place(path)), is_directory })
}

#[test]
fn search_and_read_stay_inside_the_granted_workspace() {
    let grant = WorkspaceGrant::read_only("/work");
    let mut run = search_files(&grant, " Main ", 100, &workspace(), &probe("/work"))
        .expect("search");
    while let Some((directory, depth)) = run.next_directory() {
        let path = directory.display.clone();
        if !run.enter(directory) {
            continue;
        }
        let entries = match path.as_str() {
            "/work" => vec![entry("/work/src", true), entry("/work/notes.txt", false)],
            "/work/src" => vec![entry("/work/src/main.rs", false)],
            _ => Vec::new(),
        };
        run.scan(depth, entries);
    }
    let result = run.finish();
    assert_eq!(result.matches.len(), 1);
    assert_eq!(result.matches[0].path, "src/main.rs");
    assert!(!result.truncated);

    let content = || Ok(b"fn main() {}\n".to_vec());
    let read = read_file(&grant, 1024, &workspace(), &probe("/work/src/main.rs"), content())
        .expect("read file");
    assert_eq!(read.content, "fn main() {}\n");
    assert_eq!(read.path, "src/main.rs");
    assert!(matches!(
        check_place(&place("/work"), &place("/outside.txt"), true),
        Err(FileToolError::OutsideWorkspace(_))
    ));
    assert!(matches!(
        read_file(&grant, 1024, &workspace(), &probe("/outside.txt"), content()),
        Err(FileToolError::OutsideWorkspace(path)) if path == "/outside.txt"
    ));
    assert!(matches!(
        read_file(&grant, 1024, &Err("gone".to_string()), &probe("/work/a"), content()),
        Err(FileToolError::Path { path, .. }) if path == "/work"
    ));
    assert!(matches!(
        read_file(&grant, 1024, &workspace(), &probe("/work/a"), Err("broken".to_string())),
        Err(FileToolError::Read { path, .. }) if path == "/work/a"
    ));
    assert!(matches!(
        search_files(&grant, "main", 0, &workspace(), &probe("/work")),
        Err(FileToolError::InvalidLimit)
    ));
    assert!(matches!(
        search_files(&grant, "main", 1, &workspace(), &probe("/etc")),
        Err(FileToolError::OutsideWorkspace(_))
    ));
}

#[test]
fn read_limit_reports_truncation_without_exceeding_the_bound() {
    let result = conclude_read(
        &place("/work"),
        &place("/work/large.txt"),
        b"12345".to_vec(),
        4,
    )
    .expect("bounded read");
    assert_eq!(result.content, "1234");
    assert!(result.truncated);
    assert_eq!(result.returned_bytes, 4);
}

#[test]
fn binary_files_are_rejected_instead_of_being_lossily_decoded() {
    let result = conclude_read(
        &place("/work"),
        &place("/work/binary.dat"),
        vec![0xff, 0xfe, 0xfd],
        64,
    );
    assert!(matches!(result, Err(FileToolError::NotUtf8(_))));
}

#[test]
fn requests_are_checked_before_anything_is_read() {
    let grant = WorkspaceGrant::read_only("/work");
    assert!(matches!(check_search(&grant, "  ", 1), Err(FileToolError::EmptyQuery)));
    assert!(matches!(check_search(&grant, "a", 0), Err(FileToolError::InvalidLimit)));
    assert!(matches!(
        check_search(&grant, &"x".repeat(MAX_QUERY_BYTES + 1), 1),
        Err(FileToolError::QueryTooLong { length: 257, maximum: 256 })
    ));
    assert_eq!(check_search(&grant, " MaIn ", 1).expect("query"), "main");
    assert!(matches!(check_read(&grant, 0), Err(FileToolError::InvalidLimit)));
    assert!(matches!(check_read(&grant, MAX_READ_BYTES + 1), Err(FileToolError::InvalidLimit)));
    let none = WorkspaceGrant::new("/work", false, false);
    assert!(matches!(check_read(&none, 1), Err(FileToolError::ReadNotGranted)));
    let empty = WorkspaceGrant::read_only("");
    assert!(matches!(check_read(&empty, 1), Err(FileToolError::InvalidGrant)));
    assert_eq!(requested_path("/work", "a.txt"), "/work/a.txt");
    assert_eq!(requested_path("/work", "/a.txt"), "/a.txt");
}

#[test]
fn searches_are_ordered_and_leave_out_hidden_and_foreign_entries() {
    let mut run = SearchRun::new(place("/w"), place("/w"), place("/w"), "a".to_string(), 10);
    let (_, depth) = run.next_directory().expect("directory");
    assert!(run.enter(place("/w")));
    assert!(!run.enter(place("/w")));
    assert!(!run.enter(place("/elsewhere")));
    run.scan(
        depth,
        vec![
            entry("/w/ba", false),
            entry("/w/.a", false),
            entry("/w/aa", false),
            ("ca".to_string(), SearchTarget { target: None, is_directory: false }),
            ("da".to_string(), SearchTarget { target: Some(place("/x/da")), is_directory: true }),
        ],
    );
    assert!(run.next_directory().is_none());
    let result = run.finish();
    let paths: Vec<String> = result.matches.into_iter().map(|found| found.path).collect();
    assert_eq!(paths, vec!["aa".to_string(), "ba".to_string()]);
}

#[test]
fn searches_stop_at_the_number_of_results() {
    let mut run = SearchRun::new(place("/w"), place("/w"), place("/w"), "f".to_string(), 2);
    let (_, depth) = run.next_directory().expect("directory");
    run.scan(
        depth,
        vec![entry("/w/f1", true), entry("/w/f2", false), entry("/w/f3", false)],
    );
    assert!(run.next_directory().is_none());
    let result = run.finish();
    assert_eq!(result.matches.len(), 2);
    assert!(result.truncated);
}

#[test]
fn file_plugin_reports_codes() {
    let failed: Reply<u8> =
        respond(1, Err(FileToolPluginError::Execution(FileToolError::EmptyQuery)));
    assert!(matches!(
        failed,
        Reply::Failed { code: "empty_search_query", message, .. }
            if message == "file search query cannot be empty"
    ));
}

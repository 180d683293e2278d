use file_finder::search::entry::Entry;
use file_finder::search::error::SearchError;
use file_finder::search::traversal::Action;
use file_finder::search::Search;
use std::collections::VecDeque;
use std::path::PathBuf;

/// A directory tree held in memory: each directory with the names of its
/// entries and whether each is a directory.
struct Tree {
    dirs: Vec<(PathBuf, Vec<(String, bool)>)>,
}

impl Tree {
    fn new() -> Tree {
        Tree { dirs: Vec::new() }
    }

    fn dir(mut self, path: &str, entries: &[(&str, bool)]) -> Tree {
        let listing = entries.iter().map(|(name, is_dir)| (name.to_string(), *is_dir)).collect();
        self.dirs.push((PathBuf::from(path), listing));
        self
    }

    fn is_dir(&self, path: &PathBuf) -> bool {
        self.dirs.iter().any(|(dir, _)| dir == path)
    }

    fn list(&self, path: &PathBuf) -> Vec<Entry> {
        let (dir, listing) = self.dirs.iter().find(|(dir, _)| dir == path).unwrap();
        listing
            .iter()
            .map(|(name, is_dir)| Entry {
                path: dir.join(name),
                file_name: Some(name.clone()),
                is_dir: *is_dir,
            })
            .collect()
    }
}

/// Drives a search over the tree: starts every listing the traversal hands
/// out, answers the oldest one when told to wait, and records the largest
/// number of listings that were in flight at once.
fn run(
    search: &Search,
    tree: &Tree,
    root: &str,
    pattern: &str,
) -> (Result<Vec<PathBuf>, SearchError>, usize) {
    let root = PathBuf::from(root);
    let is_directory = tree.is_dir(&root);
    let mut traversal =
        match search.search_files_in_directory(root, is_directory, pattern.to_string()) {
            Ok(traversal) => traversal,
            Err(error) => return (Err(error), 0),
        };
    let mut in_flight: VecDeque<(usize, PathBuf)> = VecDeque::new();
    let mut most = 0;
    loop {
        match traversal.next_action() {
            Action::List { ticket, dir } => {
                in_flight.push_back((ticket, dir));
                most = most.max(in_flight.len());
                assert_eq!(traversal.running(), in_flight.len());
            }
            Action::Wait => {
                let (ticket, dir) = in_flight.pop_front().unwrap();
                assert!(traversal.listed(ticket, tree.list(&dir)));
            }
            Action::Finish => break,
        }
    }
    assert!(in_flight.is_empty());
    assert!(traversal.is_complete());
    (traversal.into_result(), most)
}

fn two_level_tree() -> Tree {
    Tree::new()
        .dir("root", &[("file1.txt", false), ("subdir", true)])
        .dir("root/subdir", &[("file2.txt", false)])
}

#[test]
fn test_search_files_in_directory() {
    let tree = two_level_tree();
    let search = Search::new(4, 2, true, false);
    let (results, _) = run(&search, &tree, "root", "file");
    let results = results.unwrap();

    assert_eq!(results.len(), 2);
    assert!(results.contains(&PathBuf::from("root/file1.txt")));
    assert!(results.contains(&PathBuf::from("root/subdir/file2.txt")));
}

#[test]
fn test_search_files_with_regex() {
    let tree = Tree::new()
        .dir("root", &[("fileA.txt", false), ("subdir", true)])
        .dir("root/subdir", &[("fileB.txt", false)]);
    let search = Search::new(4, 2, true, true);
    let (results, _) = run(&search, &tree, "root", r"file[A|B]\.txt");
    let results = results.unwrap();

    assert_eq!(results.len(), 2);
    assert!(results.contains(&PathBuf::from("root/fileA.txt")));
    assert!(results.contains(&PathBuf::from("root/subdir/fileB.txt")));
}

#[test]
fn test_search_files_max_depth() {
    let tree = two_level_tree();
    let search = Search::new(4, 1, true, false);
    let (results, _) = run(&search, &tree, "root", "file");
    let results = results.unwrap();

    assert_eq!(results.len(), 1);
    assert!(results.contains(&PathBuf::from("root/file1.txt")));
    assert!(!results.contains(&PathBuf::from("root/subdir/file2.txt")));
}

#[test]
fn test_search_files_no_match() {
    let tree = Tree::new().dir("root", &[("file1.txt", false)]);
    let search = Search::new(4, 2, true, false);
    let (results, _) = run(&search, &tree, "root", "no_match*.txt");

    assert_eq!(results.unwrap().len(), 0);
}

#[test]
fn test_search_error_invalid_regex() {
    let tree = Tree::new().dir("root", &[]);
    let search = Search::new(4, 2, true, true);
    let (result, _) = run(&search, &tree, "root", r"file[A|B\.txt");

    assert!(result.is_err());
    if let Err(err) = result {
        match err {
            SearchError::RegexError(_) => (),
            _ => panic!("Expected a RegexError"),
        }
    } else {
        panic!("Expected an error");
    }
}

#[test]
fn test_integration_search_files_in_directory() {
    let tree = Tree::new()
        .dir(".", &[("Cargo.toml", false), ("src", true), ("tests", true)])
        .dir("./src", &[("lib.rs", false), ("search", true)])
        .dir("./src/search", &[("pattern.rs", false)])
        .dir("./tests", &[("search_tests.rs", false)]);
    let search = Search::new(4, 5, true, false);
    let start_directory = PathBuf::from(".");
    let (found_files, _) = run(&search, &tree, ".", "Cargo.toml");
    let found_files = found_files.expect("Failed to search for files");

    assert!(
        found_files.iter().any(|path| path == &start_directory.join("Cargo.toml")),
        "Expected file not found"
    );
}

#[test]
fn empty_directory_gives_an_empty_result() {
    let tree = Tree::new().dir("root", &[]);
    for use_regex in [false, true] {
        let search = Search::new(4, 3, true, use_regex);
        let (results, _) = run(&search, &tree, "root", "file");
        assert_eq!(results.unwrap(), Vec::<PathBuf>::new());
    }
}

#[test]
fn pattern_that_matches_nothing_gives_an_empty_result() {
    let tree = two_level_tree();
    let search = Search::new(4, 4, false, false);
    let (results, _) = run(&search, &tree, "root", "zzz_no_such");
    assert_eq!(results.unwrap(), Vec::<PathBuf>::new());
}

#[test]
fn depth_two_finds_both_levels_and_depth_one_only_the_first() {
    let tree = two_level_tree();
    let (deep, _) = run(&Search::new(4, 2, false, false), &tree, "root", "file");
    let mut deep = deep.unwrap();
    deep.sort();
    assert_eq!(deep, vec![PathBuf::from("root/file1.txt"), PathBuf::from("root/subdir/file2.txt")]);
    let (shallow, _) = run(&Search::new(4, 1, false, false), &tree, "root", "file");
    assert_eq!(shallow.unwrap(), vec![PathBuf::from("root/file1.txt")]);
}

#[test]
fn literal_and_regex_find_the_same_for_plain_text() {
    let tree = Tree::new()
        .dir("root", &[("file1.txt", false), ("profile", true), ("other", true), ("FILE", false)])
        .dir("root/profile", &[("a_file", false), ("b", false)])
        .dir("root/other", &[("file", true)])
        .dir("root/other/file", &[("nofile", false)]);
    let (literal, _) = run(&Search::new(2, 4, true, false), &tree, "root", "file");
    let (regex, _) = run(&Search::new(2, 4, true, true), &tree, "root", "file");
    let mut literal = literal.unwrap();
    let mut regex = regex.unwrap();
    literal.sort();
    regex.sort();
    assert_eq!(literal.len(), 5);
    assert_eq!(literal, regex);
}

#[test]
fn matching_directory_is_reported_and_descended_into() {
    let tree = Tree::new()
        .dir("root", &[("data_dir", true)])
        .dir("root/data_dir", &[("data.bin", false), ("notes", false)]);
    let (results, _) = run(&Search::new(4, 3, false, false), &tree, "root", "data");
    let mut results = results.unwrap();
    results.sort();
    assert_eq!(
        results,
        vec![PathBuf::from("root/data_dir"), PathBuf::from("root/data_dir/data.bin")]
    );
}

#[test]
fn nothing_below_the_depth_limit_is_found() {
    let tree = Tree::new()
        .dir("l1", &[("hit1", false), ("d", true)])
        .dir("l1/d", &[("hit2", false), ("d", true)])
        .dir("l1/d/d", &[("hit3", false), ("d", true)])
        .dir("l1/d/d/d", &[("hit4", false)]);
    for depth in 1..=5 {
        let (results, _) = run(&Search::new(1, depth, true, false), &tree, "l1", "hit");
        assert_eq!(results.unwrap().len(), depth.min(4));
    }
    let (results, _) = run(&Search::new(1, 3, true, false), &tree, "l1", "hit");
    let mut results = results.unwrap();
    results.sort();
    assert_eq!(
        results,
        vec![PathBuf::from("l1/d/d/hit3"), PathBuf::from("l1/d/hit2"), PathBuf::from("l1/hit1")]
    );
}

#[test]
fn every_match_is_reported_once() {
    let tree = Tree::new()
        .dir("r", &[("a", true), ("b", true), ("x1", false)])
        .dir("r/a", &[("x2", false), ("x3", false), ("c", true)])
        .dir("r/b", &[("x4", false)])
        .dir("r/a/c", &[("x5", false), ("y", false)]);
    let (results, _) = run(&Search::new(2, 3, true, false), &tree, "r", "x");
    let mut results = results.unwrap();
    results.sort();
    assert_eq!(
        results,
        vec![
            PathBuf::from("r/a/c/x5"),
            PathBuf::from("r/a/x2"),
            PathBuf::from("r/a/x3"),
            PathBuf::from("r/b/x4"),
            PathBuf::from("r/x1"),
        ]
    );
}

fn wide_tree() -> Tree {
    Tree::new()
        .dir("w", &[("d1", true), ("d2", true), ("d3", true), ("d4", true), ("d5", true)])
        .dir("w/d1", &[("f", false)])
        .dir("w/d2", &[("f", false)])
        .dir("w/d3", &[("f", false)])
        .dir("w/d4", &[("f", false)])
        .dir("w/d5", &[("f", false)])
}

#[test]
fn enabled_gate_bounds_the_listings_in_flight() {
    let tree = wide_tree();
    for capacity in 1..=6 {
        let (results, most) = run(&Search::new(capacity, 2, true, false), &tree, "w", "f");
        assert_eq!(results.unwrap().len(), 5);
        assert_eq!(most, capacity.min(5));
    }
}

#[test]
fn disabled_gate_bounds_nothing() {
    let tree = wide_tree();
    let (results, most) = run(&Search::new(1, 2, false, false), &tree, "w", "f");
    assert_eq!(results.unwrap().len(), 5);
    assert_eq!(most, 5);
}

#[test]
fn start_that_is_no_directory_is_refused() {
    let tree = two_level_tree();
    let search = Search::new(4, 2, true, false);
    let (result, _) = run(&search, &tree, "root/file1.txt", "file");
    match result {
        Err(SearchError::NotADirectory(path)) => assert_eq!(path, PathBuf::from("root/file1.txt")),
        _ => panic!("Expected NotADirectory"),
    }
}

#[test]
fn bad_pattern_is_reported_before_a_missing_directory() {
    let search = Search::new(4, 2, true, true);
    let begun =
        search.search_files_in_directory(PathBuf::from("nowhere"), false, "file[A|B.txt".to_string());
    assert!(matches!(begun, Err(SearchError::RegexError(_))));
}

#[test]
fn missing_directory_is_reported_when_the_pattern_is_in_order() {
    let regex = Search::new(4, 2, true, true);
    let begun = regex.search_files_in_directory(PathBuf::from("nowhere"), false, "fi.e".to_string());
    assert!(matches!(begun, Err(SearchError::NotADirectory(_))));
    let literal = Search::new(4, 2, true, false);
    let begun =
        literal.search_files_in_directory(PathBuf::from("nowhere"), false, "file[A|B.txt".to_string());
    match begun {
        Err(SearchError::NotADirectory(path)) => assert_eq!(path, PathBuf::from("nowhere")),
        _ => panic!("Expected NotADirectory"),
    }
}

#[test]
fn bad_regex_fails_before_anything_is_listed() {
    let search = Search::new(4, 2, true, true);
    let begun =
        search.search_files_in_directory(PathBuf::from("root"), true, "file[A|B.txt".to_string());
    assert!(matches!(begun, Err(SearchError::RegexError(_))));
}

#[test]
fn bad_regex_is_a_fine_literal() {
    let tree = Tree::new().dir("root", &[("file[A|B.txt", false), ("fileA.txt", false)]);
    let (results, _) = run(&Search::new(4, 2, true, false), &tree, "root", "file[A|B.txt");
    assert_eq!(results.unwrap(), vec![PathBuf::from("root/file[A|B.txt")]);
}

#[test]
fn fresh_traversal_hands_out_the_start_directory() {
    let search = Search::new(1, 2, true, false);
    let mut traversal =
        search.search_files_in_directory(PathBuf::from("root"), true, "x".to_string()).unwrap();
    assert_eq!(traversal.running(), 0);
    assert!(!traversal.is_complete());
    match traversal.next_action() {
        Action::List { ticket, dir } => {
            assert_eq!(ticket, 0);
            assert_eq!(dir, PathBuf::from("root"));
        }
        _ => panic!("Expected a directory to list"),
    }
    assert_eq!(traversal.running(), 1);
    assert!(matches!(traversal.next_action(), Action::Wait));
    assert!(matches!(traversal.next_action(), Action::Wait));
    assert_eq!(traversal.running(), 1);
}

#[test]
fn outcome_for_a_ticket_that_is_not_running_is_ignored() {
    let tree = two_level_tree();
    let search = Search::new(4, 2, true, false);
    let root = PathBuf::from("root");
    let mut traversal =
        search.search_files_in_directory(root.clone(), true, "file".to_string()).unwrap();
    assert!(!traversal.listed(0, tree.list(&root)));
    assert!(!traversal.failed(0, SearchError::AcquireError));
    assert!(matches!(traversal.next_action(), Action::List { ticket: 0, .. }));
    assert!(!traversal.listed(1, tree.list(&root)));
    assert!(!traversal.listed(7, tree.list(&root)));
    assert!(traversal.listed(0, tree.list(&root)));
    assert!(!traversal.listed(0, tree.list(&root)));
    assert!(!traversal.failed(0, SearchError::AcquireError));
    assert!(matches!(traversal.next_action(), Action::List { ticket: 1, .. }));
    assert!(traversal.listed(1, tree.list(&PathBuf::from("root/subdir"))));
    assert!(matches!(traversal.next_action(), Action::Finish));
    assert_eq!(traversal.into_result().unwrap().len(), 2);
}

#[test]
fn listings_may_come_back_in_any_order() {
    let tree = wide_tree();
    let search = Search::new(8, 2, true, false);
    let mut traversal =
        search.search_files_in_directory(PathBuf::from("w"), true, "f".to_string()).unwrap();
    assert!(matches!(traversal.next_action(), Action::List { ticket: 0, .. }));
    assert!(traversal.listed(0, tree.list(&PathBuf::from("w"))));
    let mut handed_out = Vec::new();
    loop {
        match traversal.next_action() {
            Action::List { ticket, dir } => handed_out.push((ticket, dir)),
            Action::Wait => break,
            Action::Finish => panic!("Nothing has come back yet"),
        }
    }
    assert_eq!(handed_out.len(), 5);
    assert_eq!(traversal.running(), 5);
    handed_out.reverse();
    for (ticket, dir) in handed_out {
        assert!(!traversal.is_complete());
        assert!(traversal.listed(ticket, tree.list(&dir)));
    }
    assert!(traversal.is_complete());
    assert!(matches!(traversal.next_action(), Action::Finish));
    let results = traversal.into_result().unwrap();
    assert_eq!(
        results,
        vec![
            PathBuf::from("w/d5/f"),
            PathBuf::from("w/d4/f"),
            PathBuf::from("w/d3/f"),
            PathBuf::from("w/d2/f"),
            PathBuf::from("w/d1/f"),
        ]
    );
}

#[test]
fn failed_listing_fails_the_search() {
    let tree = wide_tree();
    let search = Search::new(2, 2, true, false);
    let mut traversal =
        search.search_files_in_directory(PathBuf::from("w"), true, "d".to_string()).unwrap();
    assert!(matches!(traversal.next_action(), Action::List { ticket: 0, .. }));
    assert!(traversal.listed(0, tree.list(&PathBuf::from("w"))));
    assert!(matches!(traversal.next_action(), Action::List { ticket: 1, .. }));
    assert!(matches!(traversal.next_action(), Action::List { ticket: 2, .. }));
    assert!(matches!(traversal.next_action(), Action::Wait));
    let denied = std::io::Error::new(std::io::ErrorKind::PermissionDenied, "denied");
    assert_eq!(traversal.failed_directory(), None);
    assert!(traversal.failed(1, SearchError::from(denied)));
    assert_eq!(traversal.failed_directory(), Some(PathBuf::from("w/d1")));
    assert_eq!(traversal.running(), 1);
    assert!(matches!(traversal.next_action(), Action::Wait));
    assert!(traversal.failed(2, SearchError::SendError(PathBuf::from("w/d2"))));
    assert_eq!(traversal.failed_directory(), Some(PathBuf::from("w/d1")));
    assert_eq!(traversal.running(), 0);
    assert!(traversal.is_complete());
    assert!(matches!(traversal.next_action(), Action::Finish));
    match traversal.into_result() {
        Err(SearchError::IoError(error)) => {
            assert_eq!(error.kind(), std::io::ErrorKind::PermissionDenied)
        }
        _ => panic!("Expected the first failure"),
    }
}

#[test]
fn failed_start_directory_fails_the_search() {
    let search = Search::new(2, 2, true, false);
    let mut traversal =
        search.search_files_in_directory(PathBuf::from("w"), true, "d".to_string()).unwrap();
    assert!(matches!(traversal.next_action(), Action::List { ticket: 0, .. }));
    assert!(traversal.failed(0, SearchError::AcquireError));
    assert_eq!(traversal.failed_directory(), Some(PathBuf::from("w")));
    assert!(matches!(traversal.next_action(), Action::Finish));
    assert!(matches!(traversal.into_result(), Err(SearchError::AcquireError)));
}

#[test]
fn listing_that_comes_back_after_a_failure_adds_nothing() {
    let tree = wide_tree();
    let search = Search::new(3, 2, true, false);
    let mut traversal =
        search.search_files_in_directory(PathBuf::from("w"), true, "f".to_string()).unwrap();
    assert!(matches!(traversal.next_action(), Action::List { ticket: 0, .. }));
    assert!(traversal.listed(0, tree.list(&PathBuf::from("w"))));
    assert!(matches!(traversal.next_action(), Action::List { ticket: 1, .. }));
    assert!(matches!(traversal.next_action(), Action::List { ticket: 2, .. }));
    assert!(traversal.failed(2, SearchError::AcquireError));
    assert!(matches!(traversal.next_action(), Action::Wait));
    assert!(traversal.listed(1, tree.list(&PathBuf::from("w/d1"))));
    assert!(matches!(traversal.next_action(), Action::Finish));
    assert!(matches!(traversal.into_result(), Err(SearchError::AcquireError)));
}
